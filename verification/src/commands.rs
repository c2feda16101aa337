//! The command lines of a build.

use crate::archive::{compression_flag, flag_of};
use crate::config::append_all;
use crate::paths::Platform;
use crate::text::{
    decimal, decimal_text, is_blank, join, joined, opt_text, split_words, texts, trimmed, words,
};
use vstd::prelude::*;
use vstd::string::*;

verus! {

/// A program to be run.
#[derive(Debug, Clone)]
pub struct CommandLine {
    /// The program: a name to look up, or a path.
    pub program: String,
    /// Its arguments.
    pub args: Vec<String>,
    /// The directory to run it in; that of the caller where there is none.
    pub dir: Option<String>,
    /// The environment variables that it does not inherit.
    pub unset: Vec<String>,
    /// The environment variables that it gets, with their values.
    pub set: Vec<(String, String)>,
    /// The command as a reader is told of it.
    pub label: String,
}

/// What a [`CommandLine`] says.
#[verifier::ext_equal]
pub struct CommandView {
    pub program: Seq<char>,
    pub args: Seq<Seq<char>>,
    pub dir: Option<Seq<char>>,
    pub unset: Seq<Seq<char>>,
    pub set: Seq<(Seq<char>, Seq<char>)>,
    pub label: Seq<char>,
}

/// The texts that a row of pairs holds.
pub open spec fn pair_texts(pairs: Seq<(String, String)>) -> Seq<(Seq<char>, Seq<char>)> {
    pairs.map_values(|p: (String, String)| (p.0@, p.1@))
}

impl View for CommandLine {
    type V = CommandView;

    open spec fn view(&self) -> CommandView {
        CommandView {
            program: self.program@,
            args: texts(self.args@),
            dir: opt_text(self.dir),
            unset: texts(self.unset@),
            set: pair_texts(self.set@),
            label: self.label@,
        }
    }
}

// ---------------------------------------------------------------------------
// What the commands are
// ---------------------------------------------------------------------------

/// The variables that no build command inherits, lest an outer Perl setup show
/// through. On Windows this takes in the one that keeps `miniperl` from being
/// found in the source tree.
pub open spec fn hidden_variables(platform: Platform) -> Seq<Seq<char>> {
    match platform {
        Platform::Posix => seq!["PERL5LIB"@, "PERL5OPT"@],
        Platform::Windows => seq![
            "PERL5LIB"@,
            "PERL5OPT"@,
            "NoDefaultCurrentDirectoryInExePath"@,
        ],
    }
}

/// A command of the build itself.
pub open spec fn build_command(
    program: Seq<char>,
    args: Seq<Seq<char>>,
    dir: Seq<char>,
    set: Seq<(Seq<char>, Seq<char>)>,
    label: Seq<char>,
    platform: Platform,
) -> CommandView {
    CommandView { program, args, dir: Some(dir), unset: hidden_variables(platform), set, label }
}

/// The value of an environment variable, where there is anything in it.
pub open spec fn given(value: Option<Seq<char>>) -> Option<Seq<char>> {
    match value {
        Some(v) => if trimmed(v).len() == 0 {
            None
        } else {
            value
        },
        None => None,
    }
}

/// The arguments in a row of options, as an environment variable holds them.
pub open spec fn extra_arguments(options: Option<Seq<char>>) -> Seq<Seq<char>> {
    match options {
        Some(text) => words(text),
        None => seq![],
    }
}

/// `sh Configure` with these options, in `src`.
pub open spec fn configure_command(
    src: Seq<char>,
    options: Seq<Seq<char>>,
    platform: Platform,
) -> CommandView {
    build_command(
        "sh"@,
        seq!["Configure"@] + options,
        src,
        seq![],
        "sh Configure "@ + joined(options, " "@),
        platform,
    )
}

/// What `make` is told of parallel jobs.
pub open spec fn jobs_arguments(jobs: Option<usize>) -> Seq<Seq<char>> {
    match jobs {
        Some(n) => seq!["-j"@, decimal(n as nat)],
        None => seq![],
    }
}

/// `make` in `src`.
pub open spec fn make_command(
    src: Seq<char>,
    jobs: Option<usize>,
    options: Option<Seq<char>>,
    platform: Platform,
) -> CommandView {
    build_command(
        "make"@,
        jobs_arguments(jobs) + extra_arguments(options),
        src,
        seq![],
        "make"@,
        platform,
    )
}

/// The target that runs the test suite.
pub open spec fn test_target(harness: bool) -> Seq<char> {
    if harness {
        "test_harness"@
    } else {
        "test"@
    }
}

/// `make test_harness` or `make test` in `src`.
pub open spec fn test_command(
    src: Seq<char>,
    jobs: Option<usize>,
    harness: bool,
    platform: Platform,
) -> CommandView {
    build_command(
        "make"@,
        seq![test_target(harness)],
        src,
        match jobs {
            Some(n) => seq![("TEST_JOBS"@, decimal(n as nat))],
            None => seq![],
        },
        "make "@ + test_target(harness),
        platform,
    )
}

/// `make install` in `src`.
pub open spec fn install_command(
    src: Seq<char>,
    options: Option<Seq<char>>,
    platform: Platform,
) -> CommandView {
    build_command(
        "make"@,
        seq!["install"@] + extra_arguments(options),
        src,
        seq![],
        "make install"@,
        platform,
    )
}

/// `nmake` with these macros, in `win32`.
pub open spec fn nmake_command(
    nmake: Seq<char>,
    win32: Seq<char>,
    macros: Seq<Seq<char>>,
    options: Option<Seq<char>>,
    platform: Platform,
) -> CommandView {
    build_command(
        nmake,
        macros + extra_arguments(options),
        win32,
        seq![],
        nmake + " "@ + joined(macros, " "@),
        platform,
    )
}

/// `nmake test` with these macros, in `win32`.
pub open spec fn nmake_test_command(
    nmake: Seq<char>,
    win32: Seq<char>,
    macros: Seq<Seq<char>>,
    jobs: Option<usize>,
    platform: Platform,
) -> CommandView {
    build_command(
        nmake,
        macros.push("test"@),
        win32,
        match jobs {
            Some(n) => seq![
                ("TEST_JOBS"@, decimal(n as nat)),
                ("HARNESS_OPTIONS"@, "j"@ + decimal(n as nat)),
            ],
            None => seq![],
        },
        nmake + " test"@,
        platform,
    )
}

/// `nmake install` with these macros, in `win32`.
pub open spec fn nmake_install_command(
    nmake: Seq<char>,
    win32: Seq<char>,
    macros: Seq<Seq<char>>,
    options: Option<Seq<char>>,
    platform: Platform,
) -> CommandView {
    build_command(
        nmake,
        macros.push("install"@) + extra_arguments(options),
        win32,
        seq![],
        nmake + " install"@,
        platform,
    )
}

/// The external `patchperl`, in `src`.
pub open spec fn patch_command(
    program: Seq<char>,
    src: Seq<char>,
    platform: Platform,
) -> CommandView {
    build_command(program, seq![], src, seq![], program + " (patchperl)"@, platform)
}

/// What `tar` is told first: how the tarball is compressed.
pub open spec fn flag_arguments(tarball: Seq<char>, platform: Platform) -> Seq<Seq<char>> {
    match flag_of(tarball, platform) {
        Some(flag) => seq![flag],
        None => seq![],
    }
}

/// `tar` listing the tarball.
pub open spec fn list_command(
    tar: Seq<char>,
    tarball: Seq<char>,
    platform: Platform,
) -> CommandView {
    CommandView {
        program: tar,
        args: flag_arguments(tarball, platform) + seq!["-tf"@, tarball],
        dir: None,
        unset: seq![],
        set: seq![],
        label: tar + " -tf "@ + tarball,
    }
}

/// `tar` unpacking the tarball into `dest`.
pub open spec fn unpack_command(
    tar: Seq<char>,
    tarball: Seq<char>,
    dest: Seq<char>,
    platform: Platform,
) -> CommandView {
    CommandView {
        program: tar,
        args: flag_arguments(tarball, platform) + seq!["-xf"@, tarball, "-C"@, dest],
        dir: None,
        unset: seq![],
        set: seq![],
        label: tar + " -xf "@ + tarball + " -C "@ + dest,
    }
}

// ---------------------------------------------------------------------------
// Making them
// ---------------------------------------------------------------------------

/// The value of an environment variable, where there is anything in it.
pub fn env_opt(value: Option<String>) -> (r: Option<String>)
    ensures
        opt_text(r) == given(opt_text(value)),
{
    match value {
        Some(v) => if is_blank(v.as_str()) {
            None
        } else {
            Some(v)
        },
        None => None,
    }
}

/// The arguments in a row of options.
fn split_options(options: &Option<String>) -> (args: Vec<String>)
    ensures
        texts(args@) == extra_arguments(opt_text(*options)),
{
    match options {
        Some(text) => split_words(text.as_str()),
        None => {
            let args: Vec<String> = Vec::new();
            assert(texts(args@) =~= seq![]);
            args
        },
    }
}

/// A command of the build itself, without arguments.
fn start_command(program: &str, dir: &str, label: &str, platform: Platform) -> (command: CommandLine)
    ensures
        command@ == build_command(program@, seq![], dir@, seq![], label@, platform),
{
    let mut unset: Vec<String> = Vec::new();
    unset.push("PERL5LIB".to_owned());
    unset.push("PERL5OPT".to_owned());
    match platform {
        Platform::Posix => {},
        Platform::Windows => {
            unset.push("NoDefaultCurrentDirectoryInExePath".to_owned());
        },
    }
    let command = CommandLine {
        program: program.to_owned(),
        args: Vec::new(),
        dir: Some(dir.to_owned()),
        unset,
        set: Vec::new(),
        label: label.to_owned(),
    };
    assert(command@ =~= build_command(program@, seq![], dir@, seq![], label@, platform));
    command
}

impl CommandLine {
    /// The same command with one argument more.
    fn arg(self, arg: &str) -> (command: CommandLine)
        ensures
            command@ == (CommandView { args: self@.args.push(arg@), ..self@ }),
    {
        let mut args = self.args;
        let ghost so_far = texts(args@);
        args.push(arg.to_owned());
        assert(texts(args@) =~= so_far.push(arg@));
        CommandLine { args, ..self }
    }

    /// The same command with these arguments more.
    fn args(self, more: &Vec<String>) -> (command: CommandLine)
        ensures
            command@ == (CommandView { args: self@.args + texts(more@), ..self@ }),
    {
        let mut args = self.args;
        append_all(&mut args, more);
        CommandLine { args, ..self }
    }

    /// The same command with one environment variable more.
    fn env(self, name: &str, value: &str) -> (command: CommandLine)
        ensures
            command@ == (CommandView { set: self@.set.push((name@, value@)), ..self@ }),
    {
        let mut set = self.set;
        let ghost so_far = pair_texts(set@);
        set.push((name.to_owned(), value.to_owned()));
        assert(pair_texts(set@) =~= so_far.push((name@, value@)));
        CommandLine { set, ..self }
    }
}

/// `sh Configure` with these options, in `src`.
pub fn configure(src: &str, options: &Vec<String>, platform: Platform) -> (command: CommandLine)
    ensures
        command@ == configure_command(src@, texts(options@), platform),
{
    let label = "sh Configure ".to_owned().concat(join(options, " ").as_str());
    let command = start_command("sh", src, label.as_str(), platform).arg("Configure").args(options);
    assert(command@ =~= configure_command(src@, texts(options@), platform));
    command
}

/// `make` in `src`.
pub fn make(
    src: &str,
    jobs: Option<usize>,
    options: &Option<String>,
    platform: Platform,
) -> (command: CommandLine)
    ensures
        command@ == make_command(src@, jobs, opt_text(*options), platform),
{
    let mut command = start_command("make", src, "make", platform);
    if let Some(n) = jobs {
        command = command.arg("-j").arg(decimal_text(n as u128).as_str());
    }
    assert(command@.args =~= jobs_arguments(jobs));
    let command = command.args(&split_options(options));
    assert(command@ =~= make_command(src@, jobs, opt_text(*options), platform));
    command
}

/// `make test_harness` or `make test` in `src`.
pub fn make_test(
    src: &str,
    jobs: Option<usize>,
    harness: bool,
    platform: Platform,
) -> (command: CommandLine)
    ensures
        command@ == test_command(src@, jobs, harness, platform),
{
    let target = if harness {
        "test_harness"
    } else {
        "test"
    };
    let label = "make ".to_owned().concat(target);
    let mut command = start_command("make", src, label.as_str(), platform).arg(target);
    if let Some(n) = jobs {
        command = command.env("TEST_JOBS", decimal_text(n as u128).as_str());
    }
    assert(command@ =~= test_command(src@, jobs, harness, platform));
    command
}

/// `make install` in `src`.
pub fn make_install(
    src: &str,
    options: &Option<String>,
    platform: Platform,
) -> (command: CommandLine)
    ensures
        command@ == install_command(src@, opt_text(*options), platform),
{
    let command = start_command("make", src, "make install", platform).arg("install").args(
        &split_options(options),
    );
    assert(command@ =~= install_command(src@, opt_text(*options), platform));
    command
}

/// `nmake` with these macros, in `win32`.
pub fn nmake(
    program: &str,
    win32: &str,
    macros: &Vec<String>,
    options: &Option<String>,
    platform: Platform,
) -> (command: CommandLine)
    ensures
        command@ == nmake_command(program@, win32@, texts(macros@), opt_text(*options), platform),
{
    let label = program.to_owned().concat(" ").concat(join(macros, " ").as_str());
    let command = start_command(program, win32, label.as_str(), platform).args(macros);
    assert(command@.args =~= texts(macros@));
    let command = command.args(&split_options(options));
    assert(command@ =~= nmake_command(
        program@,
        win32@,
        texts(macros@),
        opt_text(*options),
        platform,
    ));
    command
}

/// `nmake test` with these macros, in `win32`.
pub fn nmake_test(
    program: &str,
    win32: &str,
    macros: &Vec<String>,
    jobs: Option<usize>,
    platform: Platform,
) -> (command: CommandLine)
    ensures
        command@ == nmake_test_command(program@, win32@, texts(macros@), jobs, platform),
{
    let label = program.to_owned().concat(" test");
    let mut command = start_command(program, win32, label.as_str(), platform).args(macros).arg(
        "test",
    );
    if let Some(n) = jobs {
        let count = decimal_text(n as u128);
        let harness = "j".to_owned().concat(count.as_str());
        command = command.env("TEST_JOBS", count.as_str()).env("HARNESS_OPTIONS", harness.as_str());
    }
    assert(command@ =~= nmake_test_command(program@, win32@, texts(macros@), jobs, platform));
    command
}

/// `nmake install` with these macros, in `win32`.
pub fn nmake_install(
    program: &str,
    win32: &str,
    macros: &Vec<String>,
    options: &Option<String>,
    platform: Platform,
) -> (command: CommandLine)
    ensures
        command@ == nmake_install_command(
            program@,
            win32@,
            texts(macros@),
            opt_text(*options),
            platform,
        ),
{
    let label = program.to_owned().concat(" install");
    let command = start_command(program, win32, label.as_str(), platform).args(macros).arg(
        "install",
    ).args(&split_options(options));
    assert(command@ =~= nmake_install_command(
        program@,
        win32@,
        texts(macros@),
        opt_text(*options),
        platform,
    ));
    command
}

/// The external `patchperl`, in `src`.
pub fn patch(program: &str, src: &str, platform: Platform) -> (command: CommandLine)
    ensures
        command@ == patch_command(program@, src@, platform),
{
    let label = program.to_owned().concat(" (patchperl)");
    start_command(program, src, label.as_str(), platform)
}

/// A `tar` command on the tarball, without what it is to do.
fn start_tar(tar: &str, tarball: &str, label: &str, platform: Platform) -> (command: CommandLine)
    ensures
        command@ == (CommandView {
            program: tar@,
            args: flag_arguments(tarball@, platform),
            dir: None,
            unset: seq![],
            set: seq![],
            label: label@,
        }),
{
    let mut args: Vec<String> = Vec::new();
    if let Some(flag) = compression_flag(tarball, platform) {
        args.push(flag.to_owned());
    }
    assert(texts(args@) =~= flag_arguments(tarball@, platform));
    let command = CommandLine {
        program: tar.to_owned(),
        args,
        dir: None,
        unset: Vec::new(),
        set: Vec::new(),
        label: label.to_owned(),
    };
    assert(command@.unset =~= seq![]);
    assert(command@.set =~= seq![]);
    command
}

/// `tar` listing the tarball.
pub fn tar_list(tar: &str, tarball: &str, platform: Platform) -> (command: CommandLine)
    ensures
        command@ == list_command(tar@, tarball@, platform),
{
    let label = tar.to_owned().concat(" -tf ").concat(tarball);
    let command = start_tar(tar, tarball, label.as_str(), platform).arg("-tf").arg(tarball);
    assert(command@ =~= list_command(tar@, tarball@, platform));
    command
}

/// `tar` unpacking the tarball into `dest`.
pub fn tar_unpack(
    tar: &str,
    tarball: &str,
    dest: &str,
    platform: Platform,
) -> (command: CommandLine)
    ensures
        command@ == unpack_command(tar@, tarball@, dest@, platform),
{
    let label = tar.to_owned().concat(" -xf ").concat(tarball).concat(" -C ").concat(dest);
    let command = start_tar(tar, tarball, label.as_str(), platform).arg("-xf").arg(tarball).arg(
        "-C",
    ).arg(dest);
    assert(command@ =~= unpack_command(tar@, tarball@, dest@, platform));
    command
}

/// The program for a Windows build: that of `PERL_BUILD_NMAKE`, or `nmake`.
pub fn nmake_program(configured: Option<String>) -> (program: String)
    ensures
        program@ == match configured {
            Some(p) => p@,
            None => "nmake"@,
        },
{
    match configured {
        Some(program) => program,
        None => "nmake".to_owned(),
    }
}

/// The program for tarballs: that of `PERL_BUILD_TAR`, or `tar`, which on
/// illumos and Solaris is called `gtar`.
pub fn tar_program(configured: Option<String>, solaris: bool) -> (program: String)
    ensures
        program@ == match configured {
            Some(p) => p@,
            None => if solaris {
                "gtar"@
            } else {
                "tar"@
            },
        },
{
    match configured {
        Some(program) => program,
        None => if solaris {
            "gtar".to_owned()
        } else {
            "tar".to_owned()
        },
    }
}

} // verus!
