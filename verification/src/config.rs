//! What a build is to be like: [`PerlBuild`] and the choices it holds.

use crate::paths::Platform;
use crate::text::{holds, opt_text, text_begins_with, text_holds, texts};
use vstd::prelude::*;
use vstd::string::*;

verus! {

/// How to apply the `Devel::PatchPerl` source fix-ups before `Configure`: with
/// the external `patchperl` program, or in-process.
#[derive(Debug, Clone)]
pub enum PatchPerl {
    /// The external `patchperl` when it is on `PATH`, in-process otherwise. The
    /// fix-ups are always applied one way or another.
    Auto,
    /// The external `patchperl` on `PATH`; where it is not there, the build
    /// goes on without the fix-ups.
    External,
    /// This external program: a name resolved via `PATH`, or a full path.
    Command(String),
    /// In-process, with no external program.
    Internal,
    /// Never patch the source tree.
    Disabled,
}

/// What a [`PatchPerl`] says.
pub enum PatchPerlView {
    Auto,
    External,
    Command(Seq<char>),
    Internal,
    Disabled,
}

impl View for PatchPerl {
    type V = PatchPerlView;

    open spec fn view(&self) -> PatchPerlView {
        match self {
            PatchPerl::Auto => PatchPerlView::Auto,
            PatchPerl::External => PatchPerlView::External,
            PatchPerl::Command(program) => PatchPerlView::Command(program@),
            PatchPerl::Internal => PatchPerlView::Internal,
            PatchPerl::Disabled => PatchPerlView::Disabled,
        }
    }
}

impl Default for PatchPerl {
    fn default() -> (patchperl: PatchPerl)
        ensures
            patchperl is Auto,
    {
        PatchPerl::Auto
    }
}

/// Which toolchain compiles the unpacked source tree.
#[derive(Debug, Clone, Copy, PartialEq, Eq, Structural)]
pub enum Toolchain {
    /// [`Msvc`](Self::Msvc) on Windows, [`GnuConfigure`](Self::GnuConfigure)
    /// everywhere else.
    Auto,
    /// `sh Configure -de ...`, and `make`, `make test_harness`,
    /// `make install`.
    GnuConfigure,
    /// `win32\Makefile` from the source tree with `nmake` and Microsoft Visual
    /// C++, and `nmake test` / `nmake install`.
    Msvc,
}

impl Default for Toolchain {
    fn default() -> (toolchain: Toolchain)
        ensures
            toolchain is Auto,
    {
        Toolchain::Auto
    }
}

/// The toolchain that is used on `platform`.
pub open spec fn toolchain_on(toolchain: Toolchain, platform: Platform) -> Toolchain {
    match (toolchain, platform) {
        (Toolchain::Auto, Platform::Windows) => Toolchain::Msvc,
        (Toolchain::Auto, Platform::Posix) => Toolchain::GnuConfigure,
        (explicit, _) => explicit,
    }
}

impl Toolchain {
    /// The toolchain that is used on `platform`.
    pub fn resolved_on(self, platform: Platform) -> (toolchain: Toolchain)
        ensures
            toolchain == toolchain_on(self, platform),
    {
        match self {
            Toolchain::Auto => match platform {
                Platform::Windows => Toolchain::Msvc,
                Platform::Posix => Toolchain::GnuConfigure,
            },
            explicit => explicit,
        }
    }

    /// The toolchain that is used on the platform that the program runs on,
    /// which decides for [`Auto`](Self::Auto).
    pub fn resolved(self) -> (toolchain: Toolchain)
        ensures
            self !is Auto ==> toolchain == self,
            exists|platform: Platform| toolchain == #[trigger] toolchain_on(self, platform),
    {
        self.resolved_on(Platform::native())
    }
}

/// A Perl build to be run: where to install, and how.
#[derive(Debug, Clone)]
pub struct PerlBuild {
    dst_path: String,
    configure_options: Vec<String>,
    jobs: Option<usize>,
    test: bool,
    build_dir: Option<String>,
    tarball_dir: Option<String>,
    patchperl: PatchPerl,
    toolchain: Toolchain,
}

/// What a [`PerlBuild`] says.
#[verifier::ext_equal]
pub struct PerlBuildView {
    pub dst_path: Seq<char>,
    pub configure_options: Seq<Seq<char>>,
    pub jobs: Option<usize>,
    pub test: bool,
    pub build_dir: Option<Seq<char>>,
    pub tarball_dir: Option<Seq<char>>,
    pub patchperl: PatchPerlView,
    pub toolchain: Toolchain,
}

impl View for PerlBuild {
    type V = PerlBuildView;

    closed spec fn view(&self) -> PerlBuildView {
        PerlBuildView {
            dst_path: self.dst_path@,
            configure_options: texts(self.configure_options@),
            jobs: self.jobs,
            test: self.test,
            build_dir: opt_text(self.build_dir),
            tarball_dir: opt_text(self.tarball_dir),
            patchperl: self.patchperl@,
            toolchain: self.toolchain,
        }
    }
}

/// A build that installs to `dst_path`, with nothing else chosen.
pub open spec fn default_build(dst_path: Seq<char>) -> PerlBuildView {
    PerlBuildView {
        dst_path,
        configure_options: seq!["-de"@],
        jobs: None,
        test: false,
        build_dir: None,
        tarball_dir: None,
        patchperl: PatchPerlView::Auto,
        toolchain: Toolchain::Auto,
    }
}

/// Some option begins with `prefix`.
pub open spec fn any_begins_with(options: Seq<Seq<char>>, prefix: Seq<char>) -> bool {
    exists|i: int| 0 <= i < options.len() && prefix.is_prefix_of(#[trigger] options[i])
}

/// Some option has `part` in it.
pub open spec fn any_holds(options: Seq<Seq<char>>, part: Seq<char>) -> bool {
    exists|i: int| 0 <= i < options.len() && holds(#[trigger] options[i], part)
}

/// The option for the prefix `dst`, unless the options give one.
pub open spec fn prefix_option(options: Seq<Seq<char>>, dst: Seq<char>) -> Seq<Seq<char>> {
    if any_begins_with(options, "-Dprefix="@) {
        seq![]
    } else {
        seq!["-Dprefix="@ + dst]
    }
}

/// The option for the directory of the scripts, unless the options give one.
pub open spec fn scriptdir_option(options: Seq<Seq<char>>, dst: Seq<char>) -> Seq<Seq<char>> {
    if any_holds(options, "scriptdir"@) {
        seq![]
    } else {
        seq!["-Aeval:scriptdir="@ + dst + "/bin"@]
    }
}

/// The options that `Configure` is given for an install in `dst`.
pub open spec fn configure_arguments(options: Seq<Seq<char>>, dst: Seq<char>) -> Seq<Seq<char>> {
    prefix_option(options, dst) + options + scriptdir_option(options, dst)
}

/// Whether some option begins with `prefix`.
fn some_begins_with(options: &Vec<String>, prefix: &str) -> (yes: bool)
    ensures
        yes == any_begins_with(texts(options@), prefix@),
{
    for i in 0..options.len()
        invariant
            forall|k: int|
                0 <= k < i ==> !prefix@.is_prefix_of(#[trigger] texts(options@)[k]),
    {
        assert(texts(options@)[i as int] == options@[i as int]@);
        if text_begins_with(options[i].as_str(), prefix) {
            return true;
        }
    }
    false
}

/// Whether some option has `part` in it.
fn some_holds(options: &Vec<String>, part: &str) -> (yes: bool)
    ensures
        yes == any_holds(texts(options@), part@),
{
    for i in 0..options.len()
        invariant
            forall|k: int| 0 <= k < i ==> !holds(#[trigger] texts(options@)[k], part@),
    {
        assert(texts(options@)[i as int] == options@[i as int]@);
        if text_holds(options[i].as_str(), part) {
            return true;
        }
    }
    false
}

/// `more` behind what `all` holds.
pub fn append_all(all: &mut Vec<String>, more: &Vec<String>)
    ensures
        texts(final(all)@) == texts(old(all)@) + texts(more@),
{
    let ghost start = texts(all@);
    for i in 0..more.len()
        invariant
            texts(all@) =~= start + texts(more@).take(i as int),
    {
        let ghost so_far = texts(all@);
        all.push(more[i].clone());
        assert(texts(all@) =~= so_far.push(texts(more@)[i as int]));
        assert(texts(more@).take(i + 1) =~= texts(more@).take(i as int).push(texts(more@)[i as int]));
    }
    assert(texts(more@).take(more@.len() as int) == texts(more@));
}

impl PerlBuild {
    /// A build that installs to `dst_path`, with `-de` for `Configure`, serial,
    /// without tests, and in directories of its own.
    pub fn new(dst_path: &str) -> (build: PerlBuild)
        ensures
            build@ == default_build(dst_path@),
    {
        let mut options: Vec<String> = Vec::new();
        options.push("-de".to_owned());
        assert(texts(options@) =~= seq!["-de"@]);
        PerlBuild {
            dst_path: dst_path.to_owned(),
            configure_options: options,
            jobs: None,
            test: false,
            build_dir: None,
            tarball_dir: None,
            patchperl: PatchPerl::Auto,
            toolchain: Toolchain::Auto,
        }
    }

    /// Replaces the options for `Configure`. `-Dprefix=` and
    /// `-Aeval:scriptdir=` need not be among them.
    pub fn configure_options(self, options: Vec<String>) -> (build: PerlBuild)
        ensures
            build@ == (PerlBuildView { configure_options: texts(options@), ..self@ }),
    {
        PerlBuild { configure_options: options, ..self }
    }

    /// Appends one option for `Configure`.
    pub fn configure_option(self, option: &str) -> (build: PerlBuild)
        ensures
            build@ == (PerlBuildView {
                configure_options: self@.configure_options.push(option@),
                ..self@
            }),
    {
        let mut options = self.configure_options;
        let ghost given = texts(options@);
        options.push(option.to_owned());
        assert(texts(options@) =~= given.push(option@));
        PerlBuild { configure_options: options, ..self }
    }

    /// Sets the number of parallel jobs.
    pub fn jobs(self, jobs: usize) -> (build: PerlBuild)
        ensures
            build@ == (PerlBuildView { jobs: Some(jobs), ..self@ }),
    {
        PerlBuild { jobs: Some(jobs), ..self }
    }

    /// Sets whether the test suite runs between `make` and `make install`.
    pub fn test(self, test: bool) -> (build: PerlBuild)
        ensures
            build@ == (PerlBuildView { test, ..self@ }),
    {
        PerlBuild { test, ..self }
    }

    /// Sets the directory that the tarball is unpacked into.
    pub fn build_dir(self, dir: &str) -> (build: PerlBuild)
        ensures
            build@ == (PerlBuildView { build_dir: Some(dir@), ..self@ }),
    {
        PerlBuild { build_dir: Some(dir.to_owned()), ..self }
    }

    /// Sets the directory that tarballs are downloaded into.
    pub fn tarball_dir(self, dir: &str) -> (build: PerlBuild)
        ensures
            build@ == (PerlBuildView { tarball_dir: Some(dir@), ..self@ }),
    {
        PerlBuild { tarball_dir: Some(dir.to_owned()), ..self }
    }

    /// Sets how the fix-ups are applied.
    pub fn patchperl(self, patchperl: PatchPerl) -> (build: PerlBuild)
        ensures
            build@ == (PerlBuildView { patchperl: patchperl@, ..self@ }),
    {
        PerlBuild { patchperl, ..self }
    }

    /// Sets the toolchain.
    pub fn toolchain(self, toolchain: Toolchain) -> (build: PerlBuild)
        ensures
            build@ == (PerlBuildView { toolchain, ..self@ }),
    {
        PerlBuild { toolchain, ..self }
    }

    /// The options for `Configure` when it is to install in `dst`: those of
    /// the build, with `-Dprefix=` in front and `-Aeval:scriptdir=` behind
    /// where they are not given.
    pub fn resolved_configure_options(&self, dst: &str) -> (options: Vec<String>)
        ensures
            texts(options@) == configure_arguments(self@.configure_options, dst@),
    {
        let mut options: Vec<String> = Vec::new();
        if !some_begins_with(&self.configure_options, "-Dprefix=") {
            options.push("-Dprefix=".to_owned().concat(dst));
        }
        assert(texts(options@) =~= prefix_option(self@.configure_options, dst@));
        append_all(&mut options, &self.configure_options);
        if !some_holds(&self.configure_options, "scriptdir") {
            options.push("-Aeval:scriptdir=".to_owned().concat(dst).concat("/bin"));
        }
        assert(texts(options@) =~= configure_arguments(self@.configure_options, dst@));
        options
    }

    /// The path to install to, as it was given.
    pub(crate) fn dst(&self) -> (path: &str)
        ensures
            path@ == self@.dst_path,
    {
        self.dst_path.as_str()
    }

    /// The number of parallel jobs, where one was set.
    pub(crate) fn job_count(&self) -> (jobs: Option<usize>)
        ensures
            jobs == self@.jobs,
    {
        self.jobs
    }

    /// Whether the test suite is to run.
    pub(crate) fn wants_tests(&self) -> (yes: bool)
        ensures
            yes == self@.test,
    {
        self.test
    }

    /// The directory to unpack into, where one was set.
    pub(crate) fn unpack_dir(&self) -> (dir: Option<String>)
        ensures
            opt_text(dir) == self@.build_dir,
    {
        match &self.build_dir {
            Some(dir) => Some(dir.clone()),
            None => None,
        }
    }

    /// The directory to download into, where one was set.
    pub(crate) fn download_dir(&self) -> (dir: Option<String>)
        ensures
            opt_text(dir) == self@.tarball_dir,
    {
        match &self.tarball_dir {
            Some(dir) => Some(dir.clone()),
            None => None,
        }
    }

    /// How the fix-ups are to be applied.
    pub(crate) fn patcher(&self) -> (patchperl: &PatchPerl)
        ensures
            patchperl@ == self@.patchperl,
    {
        &self.patchperl
    }

    /// The toolchain that builds on `platform`.
    pub(crate) fn toolchain_for(&self, platform: Platform) -> (toolchain: Toolchain)
        ensures
            toolchain == toolchain_on(self@.toolchain, platform),
    {
        self.toolchain.resolved_on(platform)
    }

    /// Whether the build is one of a development Perl, whose executables are
    /// installed with a version in their names.
    pub fn uses_devel(&self) -> (yes: bool)
        ensures
            yes == any_holds(self@.configure_options, "usedevel"@),
    {
        some_holds(&self.configure_options, "usedevel")
    }
}

} // verus!
