//! An install, step by step. A [`Job`] decides what is done next; the work
//! itself, on files, programs and the network, is asked of the caller, one
//! [`Request`] at a time, and its outcome comes back as a [`Reply`].

use crate::archive::{listed_root, url_filename};
use crate::built::Built;
use crate::commands;
use crate::commands::{env_opt, nmake_program, tar_program, CommandLine, CommandView};
use crate::config::{PatchPerl, PerlBuild, PerlBuildView, Toolchain};
use crate::course::{jobs_begin_well_formed, jobs_stay_well_formed, well_formed};
use crate::error::{Error, ErrorView};
use crate::msvc::{caller_sets_cctype, detect_msvc_cctype, msvc_install_macros_on};
use crate::paths::{join_path, Platform};
use crate::plan;
use crate::plan::{cause_error, dir_request, made_dir, trouble, work_trouble};
use crate::releases::{choose_release, query_for, ReleaseDoc, ReleaseQuery, ReleaseQueryView};
use crate::text::{opt_text, texts};
use crate::version::uses_test_harness;
use vstd::prelude::*;
use vstd::string::*;

verus! {

// ---------------------------------------------------------------------------
// What passes between a job and its caller
// ---------------------------------------------------------------------------

/// Work that the caller does for a job.
#[derive(Debug, Clone)]
pub enum Request {
    /// Search MetaCPAN for releases: [`Reply::Docs`].
    Search(ReleaseQuery),
    /// Make the directory, and those above it, where they are missing:
    /// [`Reply::Done`].
    MakeDir(String),
    /// Make a new temporary directory whose name begins like this:
    /// [`Reply::Path`].
    MakeTempDir(String),
    /// Ask for this URL: [`Reply::Status`].
    Fetch(String),
    /// Store what the URL brings as this file: [`Reply::Done`].
    Save(String),
    /// Look up an environment variable: [`Reply::Text`].
    Variable(String),
    /// Run the program and keep its standard output: [`Reply::Output`] or
    /// [`Reply::NotStarted`].
    Capture(CommandLine),
    /// Run the program: [`Reply::Exited`] or [`Reply::NotStarted`].
    Run(CommandLine),
    /// Complete the path with the current directory where it is relative:
    /// [`Reply::Path`].
    MakeAbsolute(String),
    /// Look for a program on `PATH`: [`Reply::Flag`].
    FindProgram(String),
    /// Apply the fix-ups to this source tree in-process: [`Reply::Done`].
    PatchTree(String),
    /// Remove the file if it is there and can be removed: [`Reply::Done`].
    RemoveFile(String),
    /// Read a text file: [`Reply::Text`], with nothing where it cannot be
    /// read.
    ReadText(String),
    /// Tell whether there is a file at the path: [`Reply::Flag`].
    IsFile(String),
    /// Run `cl` without arguments and keep its standard error:
    /// [`Reply::Banner`], with nothing where it cannot be started.
    CompilerBanner,
    /// Link the versioned executables in this directory: [`Reply::Done`].
    LinkExecutables(String),
    /// Nothing: the job is over.
    Nothing,
}

/// What a failed piece of work failed at.
#[derive(Debug, Clone, Copy, PartialEq, Eq, Structural)]
pub enum Cause {
    /// The MetaCPAN API.
    Metacpan,
    /// The transport of a download.
    Http,
    /// The filesystem.
    Io,
    /// The fix-ups.
    PatchPerl,
}

/// The outcome of a [`Request`].
#[derive(Debug, Clone)]
pub enum Reply {
    /// It is done.
    Done,
    /// It could not be done.
    Failed(Cause),
    /// The documents that a search found, newest first.
    Docs(Vec<ReleaseDoc>),
    /// A path.
    Path(String),
    /// An HTTP status.
    Status(u16),
    /// A text, where there is one.
    Text(Option<String>),
    /// An answer.
    Flag(bool),
    /// A program ended; whether well.
    Exited(bool),
    /// A program could not be started.
    NotStarted,
    /// A program ended; whether well, and what it wrote.
    Output { success: bool, stdout: Vec<u8> },
    /// What a compiler wrote, where it could be started.
    Banner(Option<Vec<u8>>),
}

/// What a [`Request`] asks for.
pub enum RequestView {
    Search(ReleaseQueryView),
    MakeDir(Seq<char>),
    MakeTempDir(Seq<char>),
    Fetch(Seq<char>),
    Save(Seq<char>),
    Variable(Seq<char>),
    Capture(CommandView),
    Run(CommandView),
    MakeAbsolute(Seq<char>),
    FindProgram(Seq<char>),
    PatchTree(Seq<char>),
    RemoveFile(Seq<char>),
    ReadText(Seq<char>),
    IsFile(Seq<char>),
    CompilerBanner,
    LinkExecutables(Seq<char>),
    Nothing,
}

/// What a [`Reply`] says.
pub enum ReplyView {
    Done,
    Failed(Cause),
    Docs(Seq<ReleaseDoc>),
    Path(Seq<char>),
    Status(u16),
    Text(Option<Seq<char>>),
    Flag(bool),
    Exited(bool),
    NotStarted,
    Output { success: bool, stdout: Seq<u8> },
    Banner(Option<Seq<u8>>),
}

impl View for Request {
    type V = RequestView;

    open spec fn view(&self) -> RequestView {
        match self {
            Request::Search(query) => RequestView::Search(query@),
            Request::MakeDir(path) => RequestView::MakeDir(path@),
            Request::MakeTempDir(prefix) => RequestView::MakeTempDir(prefix@),
            Request::Fetch(url) => RequestView::Fetch(url@),
            Request::Save(path) => RequestView::Save(path@),
            Request::Variable(name) => RequestView::Variable(name@),
            Request::Capture(command) => RequestView::Capture(command@),
            Request::Run(command) => RequestView::Run(command@),
            Request::MakeAbsolute(path) => RequestView::MakeAbsolute(path@),
            Request::FindProgram(name) => RequestView::FindProgram(name@),
            Request::PatchTree(path) => RequestView::PatchTree(path@),
            Request::RemoveFile(path) => RequestView::RemoveFile(path@),
            Request::ReadText(path) => RequestView::ReadText(path@),
            Request::IsFile(path) => RequestView::IsFile(path@),
            Request::CompilerBanner => RequestView::CompilerBanner,
            Request::LinkExecutables(dir) => RequestView::LinkExecutables(dir@),
            Request::Nothing => RequestView::Nothing,
        }
    }
}

impl View for Reply {
    type V = ReplyView;

    open spec fn view(&self) -> ReplyView {
        match self {
            Reply::Done => ReplyView::Done,
            Reply::Failed(cause) => ReplyView::Failed(*cause),
            Reply::Docs(docs) => ReplyView::Docs(docs@),
            Reply::Path(path) => ReplyView::Path(path@),
            Reply::Status(status) => ReplyView::Status(*status),
            Reply::Text(text) => ReplyView::Text(opt_text(*text)),
            Reply::Flag(flag) => ReplyView::Flag(*flag),
            Reply::Exited(success) => ReplyView::Exited(*success),
            Reply::NotStarted => ReplyView::NotStarted,
            Reply::Output { success, stdout } => ReplyView::Output {
                success: *success,
                stdout: stdout@,
            },
            Reply::Banner(banner) => ReplyView::Banner(
                match banner {
                    Some(bytes) => Some(bytes@),
                    None => None,
                },
            ),
        }
    }
}

// ---------------------------------------------------------------------------
// The state of a job
// ---------------------------------------------------------------------------

/// Which piece of work a job is waiting for.
#[derive(Debug, Clone, Copy, PartialEq, Eq, Structural)]
pub enum Phase {
    // Getting a tarball.
    Resolving,
    MakingTarballDir,
    Fetching,
    Saving,
    // Unpacking it.
    MakingBuildDir,
    MakingDest,
    NamingTar,
    Listing,
    Unpacking,
    // Preparing the source tree.
    FindingPrefix,
    LookingForPatcher,
    Patching,
    PatchingInProcess,
    // `sh Configure` and `make`.
    RemovingConfig,
    RemovingPolicy,
    Configuring,
    ReadingMakeOptions,
    Making,
    ReadingHeader,
    Testing,
    ReadingInstallOptions,
    Installing,
    // `nmake`.
    CheckingMakefile,
    NamingNmake,
    ReadingNmakeOptions,
    DetectingCompiler,
    NmakeMaking,
    NmakeTesting,
    ReadingNmakeInstallOptions,
    NmakeInstalling,
    // The end.
    Linking,
    Finished,
    Failed,
}

/// What a job is for.
#[derive(Debug, Clone, Copy, PartialEq, Eq, Structural)]
pub enum Goal {
    /// A Perl.
    Install,
    /// A source tree.
    Unpack,
}

/// The machine that a job is for.
#[derive(Debug, Clone, Copy, PartialEq, Eq, Structural)]
pub struct Machine {
    /// The notation of its paths.
    pub platform: Platform,
    /// Whether its `tar` is called `gtar`, as on illumos and Solaris.
    pub solaris: bool,
}

/// An install on its way.
#[derive(Debug)]
pub struct Job {
    build: PerlBuild,
    machine: Machine,
    goal: Goal,
    phase: Phase,
    version: String,
    url: String,
    tarball: String,
    dest: String,
    tar: String,
    root: String,
    src: String,
    prefix: String,
    nmake: String,
    options: Option<String>,
    macros: Vec<String>,
    label: String,
    failure: Option<Error>,
}

/// What a [`Job`] knows. Each text is empty until it is found out.
#[verifier::ext_equal]
pub struct JobView {
    /// The build to be run.
    pub build: PerlBuildView,
    /// The machine it runs on.
    pub machine: Machine,
    /// What it is for.
    pub goal: Goal,
    /// The work that it waits for.
    pub phase: Phase,
    /// The version that was asked for.
    pub version: Seq<char>,
    /// The URL of the tarball.
    pub url: Seq<char>,
    /// The path of the tarball.
    pub tarball: Seq<char>,
    /// The directory that the tarball is unpacked into.
    pub dest: Seq<char>,
    /// The `tar` program.
    pub tar: Seq<char>,
    /// The top-level directory of the tarball.
    pub root: Seq<char>,
    /// The source tree.
    pub src: Seq<char>,
    /// The installation prefix.
    pub prefix: Seq<char>,
    /// The `nmake` program.
    pub nmake: Seq<char>,
    /// The caller's options for `nmake`.
    pub options: Option<Seq<char>>,
    /// The macros for `nmake`.
    pub macros: Seq<Seq<char>>,
    /// The command that ran last.
    pub label: Seq<char>,
    /// Why the job stopped.
    pub failure: Option<ErrorView>,
}

impl View for Job {
    type V = JobView;

    closed spec fn view(&self) -> JobView {
        JobView {
            build: self.build@,
            machine: self.machine,
            goal: self.goal,
            phase: self.phase,
            version: self.version@,
            url: self.url@,
            tarball: self.tarball@,
            dest: self.dest@,
            tar: self.tar@,
            root: self.root@,
            src: self.src@,
            prefix: self.prefix@,
            nmake: self.nmake@,
            options: opt_text(self.options),
            macros: texts(self.macros@),
            label: self.label@,
            failure: match self.failure {
                Some(error) => Some(error@),
                None => None,
            },
        }
    }
}

/// A job before anything is known.
pub open spec fn blank_job(
    build: PerlBuildView,
    machine: Machine,
    goal: Goal,
) -> JobView {
    JobView {
        build,
        machine,
        goal,
        phase: Phase::Finished,
        version: seq![],
        url: seq![],
        tarball: seq![],
        dest: seq![],
        tar: seq![],
        root: seq![],
        src: seq![],
        prefix: seq![],
        nmake: seq![],
        options: None,
        macros: seq![],
        label: seq![],
        failure: None,
    }
}

// ---------------------------------------------------------------------------
// Ways to go on
// ---------------------------------------------------------------------------

/// The error that a failed piece of work amounts to.
fn error_of(cause: Cause) -> (error: Error)
    ensures
        error@ == cause_error(cause),
{
    match cause {
        Cause::Metacpan => Error::Metacpan,
        Cause::Http => Error::Http,
        Cause::Io => Error::Io,
        Cause::PatchPerl => Error::PatchPerl,
    }
}

/// The error that a reply amounts to which is not the one hoped for.
fn trouble_of(reply: &Reply) -> (error: Error)
    ensures
        error@ == trouble(reply@),
{
    match reply {
        Reply::Failed(cause) => error_of(*cause),
        _ => Error::Other("unexpected reply".to_owned()),
    }
}

/// What went wrong with work that is just done or not.
fn work_trouble_of(reply: &Reply) -> (error: Option<Error>)
    ensures
        match error {
            Some(e) => work_trouble(reply@) == Some(e@),
            None => work_trouble(reply@) is None,
        },
{
    match reply {
        Reply::Done => None,
        _ => Some(trouble_of(reply)),
    }
}

/// The directory that was made.
fn made_dir_of(configured: Option<String>, reply: &Reply) -> (dir: Option<String>)
    ensures
        opt_text(dir) == made_dir(opt_text(configured), reply@),
{
    match configured {
        Some(dir) => match reply {
            Reply::Done => Some(dir),
            _ => None,
        },
        None => match reply {
            Reply::Path(dir) => Some(dir.clone()),
            _ => None,
        },
    }
}

/// The request for a directory.
fn request_dir(configured: Option<String>, prefix: &str) -> (request: Request)
    ensures
        request@ == dir_request(opt_text(configured), prefix@),
{
    match configured {
        Some(dir) => Request::MakeDir(dir),
        None => Request::MakeTempDir(prefix.to_owned()),
    }
}

impl Job {
    fn blank(build: PerlBuild, machine: Machine, goal: Goal) -> (job: Job)
        ensures
            job@ == blank_job(build@, machine, goal),
    {
        let job = Job {
            build,
            machine,
            goal,
            phase: Phase::Finished,
            version: String::new(),
            url: String::new(),
            tarball: String::new(),
            dest: String::new(),
            tar: String::new(),
            root: String::new(),
            src: String::new(),
            prefix: String::new(),
            nmake: String::new(),
            options: None,
            macros: Vec::new(),
            label: String::new(),
            failure: None,
        };
        assert(job@ =~= blank_job(build@, machine, goal));
        job
    }

    fn wait(self, phase: Phase, request: Request) -> (step: (Job, Request))
        ensures
            (step.0@, step.1@) == plan::wait(self@, phase, request@),
    {
        (Job { phase, ..self }, request)
    }

    fn run(self, phase: Phase, command: CommandLine) -> (step: (Job, Request))
        ensures
            (step.0@, step.1@) == plan::run(self@, phase, command@),
    {
        let label = command.label.clone();
        (Job { phase, label, ..self }, Request::Run(command))
    }

    fn stop(self, error: Error) -> (step: (Job, Request))
        ensures
            (step.0@, step.1@) == plan::stop(self@, error@),
    {
        (Job { phase: Phase::Failed, failure: Some(error), ..self }, Request::Nothing)
    }

    fn finish(self) -> (step: (Job, Request))
        ensures
            (step.0@, step.1@) == plan::finish(self@),
    {
        (Job { phase: Phase::Finished, ..self }, Request::Nothing)
    }

    /// What went wrong with the program that ran last.
    fn run_trouble(&self, reply: &Reply) -> (error: Option<Error>)
        ensures
            match error {
                Some(e) => plan::run_trouble(self@, reply@) == Some(e@),
                None => plan::run_trouble(self@, reply@) is None,
            },
    {
        match reply {
            Reply::Exited(success) => if *success {
                None
            } else {
                Some(Error::Command(self.label.clone()))
            },
            Reply::NotStarted => Some(Error::Spawn(self.label.clone())),
            _ => Some(trouble_of(reply)),
        }
    }

    // -----------------------------------------------------------------------
    // The stages
    // -----------------------------------------------------------------------

    fn from_url_on(self, url: String) -> (step: (Job, Request))
        ensures
            (step.0@, step.1@) == plan::from_url(self@, url@),
    {
        let request = request_dir(self.build.download_dir(), "perl-build-tarball");
        Job { url, ..self }.wait(Phase::MakingTarballDir, request)
    }

    fn from_tarball_on(self, tarball: String) -> (step: (Job, Request))
        ensures
            (step.0@, step.1@) == plan::from_tarball(self@, tarball@),
    {
        let request = request_dir(self.build.unpack_dir(), "perl-build-src");
        Job { tarball, ..self }.wait(Phase::MakingBuildDir, request)
    }

    fn unpack_on(self, dest: String) -> (step: (Job, Request))
        ensures
            (step.0@, step.1@) == plan::unpack(self@, dest@),
    {
        let request = Request::MakeDir(dest.clone());
        Job { dest, ..self }.wait(Phase::MakingDest, request)
    }

    fn from_source_on(self, src: String) -> (step: (Job, Request))
        ensures
            (step.0@, step.1@) == plan::from_source(self@, src@),
    {
        let request = Request::MakeAbsolute(self.build.dst().to_owned());
        Job { src, ..self }.wait(Phase::FindingPrefix, request)
    }

    fn patch_source(self) -> (step: (Job, Request))
        ensures
            (step.0@, step.1@) == plan::patch_source(self@),
    {
        let program = match self.build.patcher() {
            PatchPerl::Disabled => {
                return self.compile();
            },
            PatchPerl::Internal => {
                return self.patch_in_process();
            },
            PatchPerl::Command(program) => program.clone(),
            PatchPerl::External | PatchPerl::Auto => {
                return self.wait(
                    Phase::LookingForPatcher,
                    Request::FindProgram("patchperl".to_owned()),
                );
            },
        };
        self.patch_with(program.as_str())
    }

    fn patch_with(self, program: &str) -> (step: (Job, Request))
        ensures
            (step.0@, step.1@) == plan::patch_with(self@, program@),
    {
        let command = commands::patch(program, self.src.as_str(), self.machine.platform);
        self.run(Phase::Patching, command)
    }

    fn patch_in_process(self) -> (step: (Job, Request))
        ensures
            (step.0@, step.1@) == plan::patch_in_process(self@),
    {
        let request = Request::PatchTree(self.src.clone());
        self.wait(Phase::PatchingInProcess, request)
    }

    fn win32(&self) -> (path: String)
        ensures
            path@ == plan::win32(self@),
    {
        join_path(self.src.as_str(), "win32", self.machine.platform)
    }

    fn in_source(&self, name: &str) -> (path: String)
        ensures
            path@ == plan::in_source(self@, name@),
    {
        join_path(self.src.as_str(), name, self.machine.platform)
    }

    fn compile(self) -> (step: (Job, Request))
        ensures
            (step.0@, step.1@) == plan::compile(self@),
    {
        match self.build.toolchain_for(self.machine.platform) {
            Toolchain::Msvc => {
                let makefile = join_path(
                    self.win32().as_str(),
                    "Makefile",
                    self.machine.platform,
                );
                self.wait(Phase::CheckingMakefile, Request::IsFile(makefile))
            },
            _ => {
                // A stale configuration from an aborted build confuses
                // `Configure`.
                let config = self.in_source("config.sh");
                self.wait(Phase::RemovingConfig, Request::RemoveFile(config))
            },
        }
    }

    fn install(self) -> (step: (Job, Request))
        ensures
            (step.0@, step.1@) == plan::install(self@),
    {
        self.wait(
            Phase::ReadingInstallOptions,
            Request::Variable("PERL_BUILD_INSTALL_OPTIONS".to_owned()),
        )
    }

    fn nmake(self, cctype: Option<String>) -> (step: (Job, Request))
        ensures
            (step.0@, step.1@) == plan::nmake(self@, opt_text(cctype)),
    {
        let mut macros = msvc_install_macros_on(self.prefix.as_str(), self.machine.platform);
        let ghost base = texts(macros@);
        if let Some(name) = cctype {
            let entry = "CCTYPE=".to_owned().concat(name.as_str());
            macros.push(entry);
            assert(texts(macros@) =~= base.push("CCTYPE="@ + name@));
        }
        let command = commands::nmake(
            self.nmake.as_str(),
            self.win32().as_str(),
            &macros,
            &self.options,
            self.machine.platform,
        );
        Job { macros, ..self }.run(Phase::NmakeMaking, command)
    }

    fn nmake_install(self) -> (step: (Job, Request))
        ensures
            (step.0@, step.1@) == plan::nmake_install(self@),
    {
        self.wait(
            Phase::ReadingNmakeInstallOptions,
            Request::Variable("PERL_BUILD_INSTALL_OPTIONS".to_owned()),
        )
    }

    fn conclude(self) -> (step: (Job, Request))
        ensures
            (step.0@, step.1@) == plan::conclude(self@),
    {
        let msvc = match self.build.toolchain_for(self.machine.platform) {
            Toolchain::Msvc => true,
            _ => false,
        };
        if !msvc && self.build.uses_devel() {
            let dir = Built::on(self.prefix.as_str(), self.machine.platform).bin_dir();
            self.wait(Phase::Linking, Request::LinkExecutables(dir))
        } else {
            self.finish()
        }
    }

    // -----------------------------------------------------------------------
    // What follows each reply
    // -----------------------------------------------------------------------

    fn resume_getting(self, reply: Reply) -> (step: (Job, Request))
        ensures
            (step.0@, step.1@) == plan::next_of_getting(self@, reply@),
    {
        match (self.phase, &reply) {
            (Phase::Resolving, Reply::Docs(docs)) => match choose_release(
                self.version.as_str(),
                docs,
            ) {
                Ok(release) => self.from_url_on(release.download_url),
                Err(error) => self.stop(error),
            },
            (Phase::MakingTarballDir, _) => match made_dir_of(self.build.download_dir(), &reply) {
                Some(dir) => {
                    let tarball = join_path(
                        dir.as_str(),
                        url_filename(self.url.as_str()).as_str(),
                        self.machine.platform,
                    );
                    let request = Request::Fetch(self.url.clone());
                    Job { tarball, ..self }.wait(Phase::Fetching, request)
                },
                None => self.stop(trouble_of(&reply)),
            },
            (Phase::Fetching, Reply::Status(status)) => if 200 <= *status && *status < 300 {
                let request = Request::Save(self.tarball.clone());
                self.wait(Phase::Saving, request)
            } else {
                let url = self.url.clone();
                self.stop(Error::Download { url, status: *status })
            },
            (Phase::Saving, Reply::Done) => {
                let tarball = self.tarball.clone();
                self.from_tarball_on(tarball)
            },
            _ => self.stop(trouble_of(&reply)),
        }
    }

    fn resume_unpacking(self, reply: Reply) -> (step: (Job, Request))
        ensures
            (step.0@, step.1@) == plan::next_of_unpacking(self@, reply@),
    {
        match (self.phase, reply) {
            (Phase::MakingBuildDir, reply) => match made_dir_of(self.build.unpack_dir(), &reply) {
                Some(dir) => self.unpack_on(dir),
                None => self.stop(trouble_of(&reply)),
            },
            (Phase::MakingDest, Reply::Done) => self.wait(
                Phase::NamingTar,
                Request::Variable("PERL_BUILD_TAR".to_owned()),
            ),
            (Phase::NamingTar, Reply::Text(configured)) => {
                let tar = tar_program(configured, self.machine.solaris);
                let command = commands::tar_list(
                    tar.as_str(),
                    self.tarball.as_str(),
                    self.machine.platform,
                );
                let label = command.label.clone();
                (Job { phase: Phase::Listing, tar, label, ..self }, Request::Capture(command))
            },
            (Phase::Listing, Reply::Output { success, stdout }) => if success {
                match listed_root(stdout.as_slice()) {
                    Some(root) => {
                        let command = commands::tar_unpack(
                            self.tar.as_str(),
                            self.tarball.as_str(),
                            self.dest.as_str(),
                            self.machine.platform,
                        );
                        Job { root, ..self }.run(Phase::Unpacking, command)
                    },
                    None => {
                        let tarball = self.tarball.clone();
                        self.stop(Error::TarballLayout(tarball))
                    },
                }
            } else {
                let label = self.label.clone();
                self.stop(Error::Command(label))
            },
            (Phase::Listing, Reply::NotStarted) => {
                let label = self.label.clone();
                self.stop(Error::Spawn(label))
            },
            (Phase::Unpacking, reply) => match self.run_trouble(&reply) {
                Some(error) => self.stop(error),
                None => {
                    let src = join_path(
                        self.dest.as_str(),
                        self.root.as_str(),
                        self.machine.platform,
                    );
                    match self.goal {
                        Goal::Unpack => Job { src, ..self }.finish(),
                        Goal::Install => self.from_source_on(src),
                    }
                },
            },
            (_, reply) => self.stop(trouble_of(&reply)),
        }
    }

    fn resume_preparing(self, reply: Reply) -> (step: (Job, Request))
        ensures
            (step.0@, step.1@) == plan::next_of_preparing(self@, reply@),
    {
        match (self.phase, reply) {
            (Phase::FindingPrefix, Reply::Path(prefix)) => Job { prefix, ..self }.patch_source(),
            (Phase::LookingForPatcher, Reply::Flag(found)) => if found {
                self.patch_with("patchperl")
            } else {
                let auto = match self.build.patcher() {
                    PatchPerl::Auto => true,
                    _ => false,
                };
                if auto {
                    self.patch_in_process()
                } else {
                    self.compile()
                }
            },
            (Phase::Patching, reply) => match self.run_trouble(&reply) {
                Some(error) => self.stop(error),
                None => self.compile(),
            },
            (Phase::PatchingInProcess, Reply::Done) => self.compile(),
            (_, reply) => self.stop(trouble_of(&reply)),
        }
    }

    fn resume_make(self, reply: Reply) -> (step: (Job, Request))
        ensures
            (step.0@, step.1@) == plan::next_of_make(self@, reply@),
    {
        let platform = self.machine.platform;
        match (self.phase, reply) {
            (Phase::RemovingConfig, Reply::Done) => {
                let policy = self.in_source("Policy.sh");
                self.wait(Phase::RemovingPolicy, Request::RemoveFile(policy))
            },
            (Phase::RemovingPolicy, Reply::Done) => {
                let options = self.build.resolved_configure_options(self.prefix.as_str());
                let command = commands::configure(self.src.as_str(), &options, platform);
                self.run(Phase::Configuring, command)
            },
            (Phase::Configuring, reply) => match self.run_trouble(&reply) {
                Some(error) => self.stop(error),
                None => self.wait(
                    Phase::ReadingMakeOptions,
                    Request::Variable("PERL_BUILD_COMPILE_OPTIONS".to_owned()),
                ),
            },
            (Phase::ReadingMakeOptions, Reply::Text(value)) => {
                let command = commands::make(
                    self.src.as_str(),
                    self.build.job_count(),
                    &env_opt(value),
                    platform,
                );
                self.run(Phase::Making, command)
            },
            (Phase::Making, reply) => match self.run_trouble(&reply) {
                Some(error) => self.stop(error),
                None => if self.build.wants_tests() {
                    let header = self.in_source("patchlevel.h");
                    self.wait(Phase::ReadingHeader, Request::ReadText(header))
                } else {
                    self.install()
                },
            },
            (Phase::ReadingHeader, Reply::Text(header)) => {
                let harness = match &header {
                    Some(text) => uses_test_harness(Some(text.as_str())),
                    None => uses_test_harness(None),
                };
                let command = commands::make_test(
                    self.src.as_str(),
                    self.build.job_count(),
                    harness,
                    platform,
                );
                self.run(Phase::Testing, command)
            },
            (Phase::Testing, reply) => match self.run_trouble(&reply) {
                Some(error) => self.stop(error),
                None => self.install(),
            },
            (Phase::ReadingInstallOptions, Reply::Text(value)) => {
                let command = commands::make_install(
                    self.src.as_str(),
                    &env_opt(value),
                    platform,
                );
                self.run(Phase::Installing, command)
            },
            (Phase::Installing, reply) => match self.run_trouble(&reply) {
                Some(error) => self.stop(error),
                None => self.conclude(),
            },
            (_, reply) => self.stop(trouble_of(&reply)),
        }
    }

    fn resume_nmake(self, reply: Reply) -> (step: (Job, Request))
        ensures
            (step.0@, step.1@) == plan::next_of_nmake(self@, reply@),
    {
        let platform = self.machine.platform;
        match (self.phase, reply) {
            (Phase::CheckingMakefile, Reply::Flag(found)) => if found {
                self.wait(
                    Phase::NamingNmake,
                    Request::Variable("PERL_BUILD_NMAKE".to_owned()),
                )
            } else {
                let message = "no win32\\Makefile under ".to_owned().concat(
                    self.src.as_str(),
                ).concat(" — an MSVC build needs a Windows Perl source tree");
                self.stop(Error::Other(message))
            },
            (Phase::NamingNmake, Reply::Text(configured)) => {
                let nmake = nmake_program(configured);
                Job { nmake, ..self }.wait(
                    Phase::ReadingNmakeOptions,
                    Request::Variable("PERL_BUILD_COMPILE_OPTIONS".to_owned()),
                )
            },
            (Phase::ReadingNmakeOptions, Reply::Text(value)) => {
                let options = env_opt(value);
                let chosen = match &options {
                    Some(text) => caller_sets_cctype(text.as_str()),
                    None => false,
                };
                let job = Job { options, ..self };
                if chosen {
                    job.nmake(None)
                } else {
                    job.wait(Phase::DetectingCompiler, Request::CompilerBanner)
                }
            },
            (Phase::DetectingCompiler, Reply::Banner(banner)) => {
                let cctype = match &banner {
                    Some(bytes) => detect_msvc_cctype(Some(bytes.as_slice())),
                    None => detect_msvc_cctype(None),
                };
                self.nmake(cctype)
            },
            (Phase::NmakeMaking, reply) => match self.run_trouble(&reply) {
                Some(error) => self.stop(error),
                None => if self.build.wants_tests() {
                    let command = commands::nmake_test(
                        self.nmake.as_str(),
                        self.win32().as_str(),
                        &self.macros,
                        self.build.job_count(),
                        platform,
                    );
                    self.run(Phase::NmakeTesting, command)
                } else {
                    self.nmake_install()
                },
            },
            (Phase::NmakeTesting, reply) => match self.run_trouble(&reply) {
                Some(error) => self.stop(error),
                None => self.nmake_install(),
            },
            (Phase::ReadingNmakeInstallOptions, Reply::Text(value)) => {
                let command = commands::nmake_install(
                    self.nmake.as_str(),
                    self.win32().as_str(),
                    &self.macros,
                    &env_opt(value),
                    platform,
                );
                self.run(Phase::NmakeInstalling, command)
            },
            (Phase::NmakeInstalling, reply) => match self.run_trouble(&reply) {
                Some(error) => self.stop(error),
                None => self.conclude(),
            },
            (_, reply) => self.stop(trouble_of(&reply)),
        }
    }

    /// Goes on with the outcome of what the job asked for last.
    pub fn resume(self, reply: Reply) -> (step: (Job, Request))
        ensures
            (step.0@, step.1@) == plan::next(self@, reply@),
            well_formed(self@) ==> well_formed(step.0@),
    {
        proof {
            if well_formed(self@) {
                jobs_stay_well_formed(self@, reply@);
            }
        }
        match self.phase {
            Phase::Resolving
            | Phase::MakingTarballDir
            | Phase::Fetching
            | Phase::Saving => self.resume_getting(reply),
            Phase::MakingBuildDir
            | Phase::MakingDest
            | Phase::NamingTar
            | Phase::Listing
            | Phase::Unpacking => self.resume_unpacking(reply),
            Phase::FindingPrefix
            | Phase::LookingForPatcher
            | Phase::Patching
            | Phase::PatchingInProcess => self.resume_preparing(reply),
            Phase::RemovingConfig
            | Phase::RemovingPolicy
            | Phase::Configuring
            | Phase::ReadingMakeOptions
            | Phase::Making
            | Phase::ReadingHeader
            | Phase::Testing
            | Phase::ReadingInstallOptions
            | Phase::Installing => self.resume_make(reply),
            Phase::CheckingMakefile
            | Phase::NamingNmake
            | Phase::ReadingNmakeOptions
            | Phase::DetectingCompiler
            | Phase::NmakeMaking
            | Phase::NmakeTesting
            | Phase::ReadingNmakeInstallOptions
            | Phase::NmakeInstalling => self.resume_nmake(reply),
            Phase::Linking => match work_trouble_of(&reply) {
                Some(error) => self.stop(error),
                None => self.finish(),
            },
            Phase::Finished | Phase::Failed => (self, Request::Nothing),
        }
    }

    /// The Perl that was installed, once it is.
    pub fn built(&self) -> (built: Option<Built>)
        ensures
            match built {
                Some(b) => self@.phase is Finished && self@.goal is Install && b@ == plan::built(
                    self@,
                ),
                None => !(self@.phase is Finished && self@.goal is Install),
            },
    {
        match (self.phase, self.goal) {
            (Phase::Finished, Goal::Install) => Some(
                Built::on(self.prefix.as_str(), self.machine.platform),
            ),
            _ => None,
        }
    }

    /// The source tree that was unpacked, once it is.
    pub fn source(&self) -> (src: Option<&str>)
        ensures
            match src {
                Some(path) => self@.phase is Finished && self@.goal is Unpack && path@
                    == self@.src,
                None => !(self@.phase is Finished && self@.goal is Unpack),
            },
    {
        match (self.phase, self.goal) {
            (Phase::Finished, Goal::Unpack) => Some(self.src.as_str()),
            _ => None,
        }
    }

    /// Why the job stopped, where something went wrong.
    pub fn failure(&self) -> (error: Option<&Error>)
        ensures
            match error {
                Some(e) => self@.failure == Some(e@),
                None => self@.failure is None,
            },
    {
        match &self.failure {
            Some(error) => Some(error),
            None => None,
        }
    }
}

impl PerlBuild {
    /// Installs the release with this version: dotted, with or without `perl-`
    /// in front.
    pub fn install_from_cpan(self, version: &str, machine: Machine) -> (step: (Job, Request))
        ensures
            (step.0@, step.1@) == plan::from_cpan(
                blank_job(self@, machine, Goal::Install),
                version@,
            ),
            well_formed(step.0@),
    {
        proof {
            jobs_begin_well_formed(blank_job(self@, machine, Goal::Install), version@, machine);
        }
        let job = Job::blank(self, machine, Goal::Install);
        let request = Request::Search(query_for(version));
        Job { version: version.to_owned(), ..job }.wait(Phase::Resolving, request)
    }

    /// Installs the tarball at this URL.
    pub fn install_from_url(self, url: &str, machine: Machine) -> (step: (Job, Request))
        ensures
            (step.0@, step.1@) == plan::from_url(blank_job(self@, machine, Goal::Install), url@),
            well_formed(step.0@),
    {
        proof {
            jobs_begin_well_formed(blank_job(self@, machine, Goal::Install), url@, machine);
        }
        Job::blank(self, machine, Goal::Install).from_url_on(url.to_owned())
    }

    /// Installs this tarball: a `.tar.gz`, a `.tar.bz2`, a `.tar.xz` or a
    /// `.tar`.
    pub fn install_from_tarball(self, tarball: &str, machine: Machine) -> (step: (Job, Request))
        ensures
            (step.0@, step.1@) == plan::from_tarball(
                blank_job(self@, machine, Goal::Install),
                tarball@,
            ),
            well_formed(step.0@),
    {
        proof {
            jobs_begin_well_formed(blank_job(self@, machine, Goal::Install), tarball@, machine);
        }
        Job::blank(self, machine, Goal::Install).from_tarball_on(tarball.to_owned())
    }

    /// Installs from this source tree.
    pub fn install_from_source(self, src: &str, machine: Machine) -> (step: (Job, Request))
        ensures
            (step.0@, step.1@) == plan::from_source(blank_job(self@, machine, Goal::Install), src@),
            well_formed(step.0@),
    {
        proof {
            jobs_begin_well_formed(blank_job(self@, machine, Goal::Install), src@, machine);
        }
        Job::blank(self, machine, Goal::Install).from_source_on(src.to_owned())
    }
}

/// Unpacks `tarball` into `dest`; the source tree is the one top-level
/// directory that it holds.
pub fn extract_tarball(tarball: &str, dest: &str, machine: Machine) -> (step: (Job, Request))
    ensures
        (step.0@, step.1@) == plan::unpack(plan::unpacking_job(tarball@, machine), dest@),
        well_formed(step.0@),
{
    let job = Job::blank(PerlBuild::new(""), machine, Goal::Unpack);
    Job { tarball: tarball.to_owned(), ..job }.unpack_on(dest.to_owned())
}

} // verus!
