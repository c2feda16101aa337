//! Installs, step by step.

use perl_build::commands::CommandLine;
use perl_build::job::Cause;
use perl_build::releases::{Filter, ReleaseDoc};
use perl_build::{
    extract_tarball, Error, Job, Machine, PatchPerl, PerlBuild, Platform, Reply, Request, Toolchain,
};

const POSIX: Machine = Machine { platform: Platform::Posix, solaris: false };
const WINDOWS: Machine = Machine { platform: Platform::Windows, solaris: false };

fn text(s: &str) -> Reply {
    Reply::Text(Some(s.to_string()))
}

fn path(s: &str) -> Reply {
    Reply::Path(s.to_string())
}

fn listing(s: &str) -> Reply {
    Reply::Output { success: true, stdout: s.as_bytes().to_vec() }
}

fn doc(name: &str, url: &str) -> ReleaseDoc {
    ReleaseDoc {
        name: Some(name.to_string()),
        version: None,
        author: None,
        download_url: Some(url.to_string()),
        archive: None,
        checksum_sha256: None,
        date: None,
        maturity: None,
        status: None,
    }
}

/// A request on one line.
fn show(request: &Request) -> String {
    match request {
        Request::Search(query) => match &query.filter {
            Filter::Bool { should, .. } => format!("search {}", should[0].value),
            Filter::Term(term) => format!("search {}", term.value),
        },
        Request::MakeDir(p) => format!("mkdir {p}"),
        Request::MakeTempDir(p) => format!("mktemp {p}"),
        Request::Fetch(u) => format!("fetch {u}"),
        Request::Save(p) => format!("save {p}"),
        Request::Variable(n) => format!("getenv {n}"),
        Request::Capture(c) => format!("capture {}", c.label),
        Request::Run(c) => format!("run {}", c.label),
        Request::MakeAbsolute(p) => format!("absolute {p}"),
        Request::FindProgram(n) => format!("which {n}"),
        Request::PatchTree(p) => format!("patch {p}"),
        Request::RemoveFile(p) => format!("rm {p}"),
        Request::ReadText(p) => format!("read {p}"),
        Request::IsFile(p) => format!("isfile {p}"),
        Request::CompilerBanner => "cl".to_string(),
        Request::LinkExecutables(p) => format!("link {p}"),
        Request::Nothing => "nothing".to_string(),
    }
}

/// Drives a job with these replies. What it asked for, and what it became.
fn drive(step: (Job, Request), replies: Vec<Reply>) -> (Job, Vec<Request>) {
    let (mut job, request) = step;
    let mut asked = vec![request];
    for reply in replies {
        let (next, request) = job.resume(reply);
        job = next;
        asked.push(request);
    }
    (job, asked)
}

fn shown(asked: &[Request]) -> Vec<String> {
    asked.iter().map(show).collect()
}

fn commands(asked: &[Request]) -> Vec<&CommandLine> {
    asked
        .iter()
        .filter_map(|r| match r {
            Request::Run(c) => Some(c),
            Request::Capture(c) => Some(c),
            _ => None,
        })
        .collect()
}

// ---------------------------------------------------------------------------
// `make`
// ---------------------------------------------------------------------------

#[test]
fn a_build_with_make() {
    let build = PerlBuild::new("perl").jobs(4).patchperl(PatchPerl::Disabled);
    let (job, asked) = drive(
        build.install_from_source("/src", POSIX),
        vec![
            path("/home/perl"),
            Reply::Done,
            Reply::Done,
            Reply::Exited(true),
            text("  CC=gcc  -s "),
            Reply::Exited(true),
            Reply::Text(None),
            Reply::Exited(true),
        ],
    );
    assert_eq!(
        shown(&asked),
        vec![
            "absolute perl",
            "rm /src/config.sh",
            "rm /src/Policy.sh",
            "run sh Configure -Dprefix=/home/perl -de -Aeval:scriptdir=/home/perl/bin",
            "getenv PERL_BUILD_COMPILE_OPTIONS",
            "run make",
            "getenv PERL_BUILD_INSTALL_OPTIONS",
            "run make install",
            "nothing",
        ]
    );
    let run = commands(&asked);
    assert_eq!(run.len(), 3);
    assert_eq!(run[0].program, "sh");
    assert_eq!(
        run[0].args,
        vec!["Configure", "-Dprefix=/home/perl", "-de", "-Aeval:scriptdir=/home/perl/bin"]
    );
    assert_eq!(run[1].program, "make");
    assert_eq!(run[1].args, vec!["-j", "4", "CC=gcc", "-s"]);
    assert_eq!(run[2].args, vec!["install"]);
    for command in run {
        assert_eq!(command.dir.as_deref(), Some("/src"));
        assert_eq!(command.unset, vec!["PERL5LIB", "PERL5OPT"]);
        assert!(command.set.is_empty());
    }
    let built = job.built().unwrap();
    assert_eq!(built.perl(), "/home/perl/bin/perl");
    assert!(job.failure().is_none());
    assert!(job.source().is_none());
}

#[test]
fn tests_run_between_make_and_install() {
    let build = PerlBuild::new("/p").jobs(2).test(true).patchperl(PatchPerl::Disabled);
    let header = "#define PERL_REVISION 5\n#define PERL_VERSION 6\n#define PERL_SUBVERSION 2\n";
    let (job, asked) = drive(
        build.install_from_source("/src", POSIX),
        vec![
            path("/p"),
            Reply::Done,
            Reply::Done,
            Reply::Exited(true),
            Reply::Text(None),
            Reply::Exited(true),
            text(header),
            Reply::Exited(true),
            text("-n"),
            Reply::Exited(true),
        ],
    );
    let run = commands(&asked);
    assert_eq!(run[1].args, vec!["-j", "2"]);
    assert_eq!(run[2].label, "make test");
    assert_eq!(run[2].args, vec!["test"]);
    assert_eq!(run[2].set, vec![("TEST_JOBS".to_string(), "2".to_string())]);
    assert_eq!(run[3].args, vec!["install", "-n"]);
    assert_eq!(show(&asked[6]), "read /src/patchlevel.h");
    assert!(job.built().is_some());
}

#[test]
fn the_harness_is_used_where_the_version_is_not_known() {
    let build = PerlBuild::new("/p").test(true).patchperl(PatchPerl::Disabled);
    let (_, asked) = drive(
        build.install_from_source("/src", POSIX),
        vec![
            path("/p"),
            Reply::Done,
            Reply::Done,
            Reply::Exited(true),
            Reply::Text(None),
            Reply::Exited(true),
            Reply::Text(None),
        ],
    );
    let run = commands(&asked);
    assert_eq!(run[2].label, "make test_harness");
    assert!(run[2].set.is_empty());
}

#[test]
fn a_development_perl_gets_links() {
    let build = PerlBuild::new("/p")
        .configure_option("-Dusedevel")
        .patchperl(PatchPerl::Disabled);
    let replies = vec![
        path("/p"),
        Reply::Done,
        Reply::Done,
        Reply::Exited(true),
        Reply::Text(None),
        Reply::Exited(true),
        Reply::Text(None),
        Reply::Exited(true),
    ];
    let (job, asked) = drive(build.install_from_source("/src", POSIX), replies);
    assert_eq!(show(asked.last().unwrap()), "link /p/bin");
    assert!(job.built().is_none());
    let (job, request) = job.resume(Reply::Done);
    assert!(matches!(request, Request::Nothing));
    assert_eq!(job.built().unwrap().prefix(), "/p");
}

#[test]
fn links_that_fail_fail_the_install() {
    let build = PerlBuild::new("/p")
        .configure_option("-Dusedevel")
        .patchperl(PatchPerl::Disabled);
    let (job, _) = drive(
        build.install_from_source("/src", POSIX),
        vec![
            path("/p"),
            Reply::Done,
            Reply::Done,
            Reply::Exited(true),
            Reply::Text(None),
            Reply::Exited(true),
            Reply::Text(None),
            Reply::Exited(true),
            Reply::Failed(Cause::Io),
        ],
    );
    assert!(matches!(job.failure(), Some(Error::Io)));
    assert!(job.built().is_none());
}

#[test]
fn a_program_that_fails_ends_the_job() {
    let build = PerlBuild::new("/p").patchperl(PatchPerl::Disabled);
    let (job, asked) = drive(
        build.install_from_source("/src", POSIX),
        vec![path("/p"), Reply::Done, Reply::Done, Reply::Exited(false), Reply::Exited(true)],
    );
    assert_eq!(show(&asked[4]), "nothing");
    assert_eq!(show(&asked[5]), "nothing");
    match job.failure() {
        Some(Error::Command(command)) => assert_eq!(
            command,
            "sh Configure -Dprefix=/p -de -Aeval:scriptdir=/p/bin"
        ),
        other => panic!("unexpected failure: {other:?}"),
    }
    assert!(job.built().is_none());
}

#[test]
fn a_program_that_cannot_be_started_ends_the_job() {
    let build = PerlBuild::new("/p").patchperl(PatchPerl::Disabled);
    let (job, _) = drive(
        build.install_from_source("/src", POSIX),
        vec![
            path("/p"),
            Reply::Done,
            Reply::Done,
            Reply::Exited(true),
            Reply::Text(None),
            Reply::NotStarted,
        ],
    );
    assert!(matches!(job.failure(), Some(Error::Spawn(c)) if c == "make"));
}

#[test]
fn a_reply_that_answers_nothing_ends_the_job() {
    let build = PerlBuild::new("/p");
    let (job, _) = drive(build.install_from_source("/src", POSIX), vec![Reply::Exited(true)]);
    assert!(matches!(job.failure(), Some(Error::Other(m)) if m == "unexpected reply"));
}

// ---------------------------------------------------------------------------
// Fix-ups
// ---------------------------------------------------------------------------

#[test]
fn run_patchperl_routes_disabled_and_internal() {
    // Disabled: a no-op, no source tree needed.
    let (_, asked) = drive(
        PerlBuild::new("/unused")
            .patchperl(PatchPerl::Disabled)
            .toolchain(Toolchain::GnuConfigure)
            .install_from_source("/definitely/not/a/tree", POSIX),
        vec![path("/unused")],
    );
    assert_eq!(show(&asked[1]), "rm /definitely/not/a/tree/config.sh");

    // Internal: the fix-ups are applied in-process.
    let (job, asked) = drive(
        PerlBuild::new("/unused")
            .patchperl(PatchPerl::Internal)
            .install_from_source("/route", POSIX),
        vec![path("/unused"), Reply::Done],
    );
    assert_eq!(show(&asked[1]), "patch /route");
    assert_eq!(show(&asked[2]), "rm /route/config.sh");
    assert!(job.failure().is_none());
}

#[test]
fn fix_ups_that_fail_fail_the_install() {
    let (job, _) = drive(
        PerlBuild::new("/unused")
            .patchperl(PatchPerl::Internal)
            .install_from_source("/empty", POSIX),
        vec![path("/unused"), Reply::Failed(Cause::PatchPerl)],
    );
    assert!(matches!(job.failure(), Some(Error::PatchPerl)));
}

#[test]
fn auto_applies_the_fix_ups_one_way_or_the_other() {
    let start = || PerlBuild::new("/p").install_from_source("/src", POSIX);
    let (_, asked) = drive(start(), vec![path("/p"), Reply::Flag(true), Reply::Exited(true)]);
    assert_eq!(
        shown(&asked)[1..],
        ["which patchperl", "run patchperl (patchperl)", "rm /src/config.sh"]
    );
    let patch = commands(&asked)[0];
    assert_eq!(patch.program, "patchperl");
    assert!(patch.args.is_empty());
    assert_eq!(patch.dir.as_deref(), Some("/src"));
    assert_eq!(patch.unset, vec!["PERL5LIB", "PERL5OPT"]);
    let (_, asked) = drive(start(), vec![path("/p"), Reply::Flag(false), Reply::Done]);
    assert_eq!(
        shown(&asked)[1..],
        ["which patchperl", "patch /src", "rm /src/config.sh"]
    );
}

#[test]
fn external_goes_on_without_the_fix_ups() {
    let start = || {
        PerlBuild::new("/p")
            .patchperl(PatchPerl::External)
            .install_from_source("/src", POSIX)
    };
    let (_, asked) = drive(start(), vec![path("/p"), Reply::Flag(false)]);
    assert_eq!(shown(&asked)[1..], ["which patchperl", "rm /src/config.sh"]);
    let (job, _) = drive(start(), vec![path("/p"), Reply::Flag(true), Reply::Exited(false)]);
    assert!(matches!(job.failure(), Some(Error::Command(c)) if c == "patchperl (patchperl)"));
}

#[test]
fn a_program_of_the_callers_choice() {
    let (_, asked) = drive(
        PerlBuild::new("/p")
            .patchperl(PatchPerl::Command("/opt/patchperl".to_string()))
            .install_from_source("/src", POSIX),
        vec![path("/p")],
    );
    assert_eq!(show(&asked[1]), "run /opt/patchperl (patchperl)");
}

// ---------------------------------------------------------------------------
// `nmake`
// ---------------------------------------------------------------------------

#[test]
fn a_build_with_nmake() {
    let build = PerlBuild::new(r"C:\perl")
        .jobs(3)
        .test(true)
        .configure_option("-Dusedevel")
        .patchperl(PatchPerl::Disabled);
    let (job, asked) = drive(
        build.install_from_source(r"C:\src", WINDOWS),
        vec![
            path(r"c:/perl"),
            Reply::Flag(true),
            Reply::Text(None),
            text("USE_MULTI=define"),
            Reply::Banner(Some(b"Version 19.44.35207.1 for x64".to_vec())),
            Reply::Exited(true),
            Reply::Exited(true),
            text("A=B"),
            Reply::Exited(true),
        ],
    );
    assert_eq!(
        shown(&asked),
        vec![
            r"absolute C:\perl",
            r"isfile C:\src\win32\Makefile",
            "getenv PERL_BUILD_NMAKE",
            "getenv PERL_BUILD_COMPILE_OPTIONS",
            "cl",
            r"run nmake INST_TOP=c:\perl INST_DRV=C: CCTYPE=MSVC143",
            "run nmake test",
            "getenv PERL_BUILD_INSTALL_OPTIONS",
            "run nmake install",
            "nothing",
        ]
    );
    let run = commands(&asked);
    let macros = [r"INST_TOP=c:\perl", "INST_DRV=C:", "CCTYPE=MSVC143"];
    assert_eq!(run[0].args, [&macros[..], &["USE_MULTI=define"]].concat());
    assert_eq!(run[1].args, [&macros[..], &["test"]].concat());
    assert_eq!(
        run[1].set,
        vec![
            ("TEST_JOBS".to_string(), "3".to_string()),
            ("HARNESS_OPTIONS".to_string(), "j3".to_string()),
        ]
    );
    assert_eq!(run[2].args, [&macros[..], &["install", "A=B"]].concat());
    for command in run {
        assert_eq!(command.program, "nmake");
        assert_eq!(command.dir.as_deref(), Some(r"C:\src\win32"));
        assert_eq!(
            command.unset,
            vec!["PERL5LIB", "PERL5OPT", "NoDefaultCurrentDirectoryInExePath"]
        );
    }
    // The executables of such a build have no version in their names.
    assert_eq!(job.built().unwrap().perl(), r"c:/perl\bin\perl");
}

#[test]
fn the_callers_cctype_is_taken() {
    let build = PerlBuild::new("/p").toolchain(Toolchain::Msvc).patchperl(PatchPerl::Disabled);
    let (_, asked) = drive(
        build.install_from_source("/src", POSIX),
        vec![
            path("/p"),
            Reply::Flag(true),
            text("/opt/nmake"),
            text("CCTYPE=MSVC142"),
            Reply::Exited(true),
        ],
    );
    let run = commands(&asked);
    assert_eq!(run[0].program, "/opt/nmake");
    assert_eq!(run[0].label, r"/opt/nmake INST_TOP=\p");
    assert_eq!(run[0].args, vec![r"INST_TOP=\p", "CCTYPE=MSVC142"]);
    assert_eq!(run[0].unset, vec!["PERL5LIB", "PERL5OPT"]);
    assert_eq!(show(&asked[5]), "getenv PERL_BUILD_INSTALL_OPTIONS");
}

#[test]
fn a_compiler_that_is_not_found_is_left_open() {
    let build = PerlBuild::new("/p").toolchain(Toolchain::Msvc).patchperl(PatchPerl::Disabled);
    let (_, asked) = drive(
        build.install_from_source("/src", POSIX),
        vec![path("/p"), Reply::Flag(true), Reply::Text(None), text(" "), Reply::Banner(None)],
    );
    assert_eq!(show(&asked[4]), "cl");
    assert_eq!(commands(&asked)[0].args, vec![r"INST_TOP=\p"]);
}

#[test]
fn nmake_needs_a_makefile() {
    let build = PerlBuild::new("/p").toolchain(Toolchain::Msvc).patchperl(PatchPerl::Disabled);
    let (job, _) = drive(
        build.install_from_source("/src", POSIX),
        vec![path("/p"), Reply::Flag(false)],
    );
    match job.failure() {
        Some(Error::Other(message)) => assert_eq!(
            message,
            "no win32\\Makefile under /src — an MSVC build needs a Windows Perl source tree"
        ),
        other => panic!("unexpected failure: {other:?}"),
    }
}

#[test]
fn sh_configure_on_windows() {
    let build = PerlBuild::new(r"C:\p")
        .toolchain(Toolchain::GnuConfigure)
        .patchperl(PatchPerl::Disabled);
    let (_, asked) = drive(build.install_from_source(r"C:\s", WINDOWS), vec![path(r"C:\p")]);
    assert_eq!(show(&asked[1]), r"rm C:\s\config.sh");
}

// ---------------------------------------------------------------------------
// Tarballs
// ---------------------------------------------------------------------------

#[test]
fn extracts_gzip_tarball_and_returns_root() {
    let (job, asked) = drive(
        extract_tarball("/work/perl-5.38.2.tar.gz", "/work/out", POSIX),
        vec![
            Reply::Done,
            Reply::Text(None),
            listing("perl-5.38.2/\nperl-5.38.2/Configure\nperl-5.38.2/lib/\nperl-5.38.2/lib/Foo.pm\n"),
            Reply::Exited(true),
        ],
    );
    assert_eq!(
        shown(&asked),
        vec![
            "mkdir /work/out",
            "getenv PERL_BUILD_TAR",
            "capture tar -tf /work/perl-5.38.2.tar.gz",
            "run tar -xf /work/perl-5.38.2.tar.gz -C /work/out",
            "nothing",
        ]
    );
    let run = commands(&asked);
    assert_eq!(run[0].args, vec!["-z", "-tf", "/work/perl-5.38.2.tar.gz"]);
    assert_eq!(run[1].args, vec!["-z", "-xf", "/work/perl-5.38.2.tar.gz", "-C", "/work/out"]);
    assert!(run[0].dir.is_none() && run[0].unset.is_empty() && run[0].set.is_empty());
    assert_eq!(job.source(), Some("/work/out/perl-5.38.2"));
    assert!(job.built().is_none());
}

#[test]
fn extracts_uncompressed_tarball() {
    let (job, asked) = drive(
        extract_tarball("/work/perl-5.8.9.tar", "/work/out", POSIX),
        vec![
            Reply::Done,
            text("/opt/tar"),
            listing("perl-5.8.9/\nperl-5.8.9/Configure\n"),
            Reply::Exited(true),
        ],
    );
    let run = commands(&asked);
    assert_eq!(run[0].program, "/opt/tar");
    assert_eq!(run[0].args, vec!["-tf", "/work/perl-5.8.9.tar"]);
    assert_eq!(run[1].args, vec!["-xf", "/work/perl-5.8.9.tar", "-C", "/work/out"]);
    assert_eq!(job.source(), Some("/work/out/perl-5.8.9"));
}

#[test]
fn rejects_tarball_without_single_root() {
    let (job, _) = drive(
        extract_tarball("/work/bad.tar.gz", "/work/out", POSIX),
        vec![Reply::Done, Reply::Text(None), listing("a/\na/x\nb/\nb/y\n")],
    );
    assert!(
        matches!(job.failure(), Some(Error::TarballLayout(p)) if p == "/work/bad.tar.gz"),
        "unexpected failure: {:?}",
        job.failure()
    );
    assert!(job.source().is_none());
}

#[test]
fn tar_has_another_name_on_solaris() {
    let machine = Machine { platform: Platform::Posix, solaris: true };
    let (job, asked) = drive(
        extract_tarball("/t.tgz", "/d", machine),
        vec![Reply::Done, Reply::Text(None), Reply::NotStarted],
    );
    assert_eq!(show(&asked[2]), "capture gtar -tf /t.tgz");
    assert!(matches!(job.failure(), Some(Error::Spawn(c)) if c == "gtar -tf /t.tgz"));
}

#[test]
fn a_listing_that_fails_ends_the_job() {
    let (job, _) = drive(
        extract_tarball("/t.tgz", "/d", POSIX),
        vec![
            Reply::Done,
            Reply::Text(None),
            Reply::Output { success: false, stdout: b"p/\n".to_vec() },
        ],
    );
    assert!(matches!(job.failure(), Some(Error::Command(c)) if c == "tar -tf /t.tgz"));
}

#[test]
fn unpacking_that_fails_ends_the_job() {
    let (job, _) = drive(
        extract_tarball("/t.tgz", "/d", POSIX),
        vec![Reply::Done, Reply::Text(None), listing("p/x\n"), Reply::Exited(false)],
    );
    assert!(matches!(job.failure(), Some(Error::Command(c)) if c == "tar -xf /t.tgz -C /d"));
    let (job, _) = drive(extract_tarball("/t.tgz", "/d", POSIX), vec![Reply::Failed(Cause::Io)]);
    assert!(matches!(job.failure(), Some(Error::Io)));
}

#[test]
fn a_tarball_is_unpacked_and_built() {
    let (_, asked) = drive(
        PerlBuild::new("/p").build_dir("/build").install_from_tarball("/t.tar.xz", POSIX),
        vec![
            Reply::Done,
            Reply::Done,
            Reply::Text(None),
            listing("./perl/\n"),
            Reply::Exited(true),
            path("/p"),
        ],
    );
    assert_eq!(
        shown(&asked),
        vec![
            "mkdir /build",
            "mkdir /build",
            "getenv PERL_BUILD_TAR",
            "capture tar -tf /t.tar.xz",
            "run tar -xf /t.tar.xz -C /build",
            "absolute /p",
            "which patchperl",
        ]
    );
}

#[test]
fn directories_may_be_temporary() {
    let (_, asked) = drive(
        PerlBuild::new("/p").install_from_tarball("/t.tar", POSIX),
        vec![path("/tmp/perl-build-src-1-2")],
    );
    assert_eq!(
        shown(&asked),
        vec!["mktemp perl-build-src", "mkdir /tmp/perl-build-src-1-2"]
    );
    let (_, asked) = drive(
        PerlBuild::new("/p").install_from_url("https://h/x.tar", POSIX),
        vec![path("/tmp/d"), Reply::Status(200)],
    );
    assert_eq!(
        shown(&asked),
        vec!["mktemp perl-build-tarball", "fetch https://h/x.tar", "save /tmp/d/x.tar"]
    );
}

// ---------------------------------------------------------------------------
// CPAN
// ---------------------------------------------------------------------------

#[test]
fn a_release_from_cpan() {
    let url = "https://cpan.metacpan.org/authors/id/P/PE/PEVANS/perl-5.38.2.tar.gz";
    let (_, asked) = drive(
        PerlBuild::new("/p")
            .tarball_dir("/tarballs")
            .build_dir("/build")
            .install_from_cpan("5.38.2", POSIX),
        vec![
            Reply::Docs(vec![doc("perl-5.38.2-RC1", "https://h/rc"), doc("perl-5.38.2", url)]),
            Reply::Done,
            Reply::Status(299),
            Reply::Done,
            Reply::Done,
        ],
    );
    assert_eq!(
        shown(&asked),
        vec![
            "search perl-5.38.2".to_string(),
            "mkdir /tarballs".to_string(),
            format!("fetch {url}"),
            "save /tarballs/perl-5.38.2.tar.gz".to_string(),
            "mkdir /build".to_string(),
            "mkdir /build".to_string(),
        ]
    );
}

#[test]
fn a_release_that_is_not_there() {
    let (job, _) = drive(
        PerlBuild::new("/p").install_from_cpan(" 5.999.999", POSIX),
        vec![Reply::Docs(Vec::new())],
    );
    assert!(matches!(job.failure(), Some(Error::ReleaseNotFound(v)) if v == " 5.999.999"));
    let (job, _) = drive(
        PerlBuild::new("/p").install_from_cpan("5.38.2", POSIX),
        vec![Reply::Failed(Cause::Metacpan)],
    );
    assert!(matches!(job.failure(), Some(Error::Metacpan)));
}

#[test]
fn a_download_that_fails() {
    let start = || PerlBuild::new("/p").tarball_dir("/t").install_from_url("https://h/x.tar", POSIX);
    for status in [199, 300, 404] {
        let (job, _) = drive(start(), vec![Reply::Done, Reply::Status(status)]);
        match job.failure() {
            Some(Error::Download { url, status: s }) => {
                assert_eq!(url, "https://h/x.tar");
                assert_eq!(*s, status);
            }
            other => panic!("unexpected failure: {other:?}"),
        }
    }
    let (job, _) = drive(start(), vec![Reply::Done, Reply::Failed(Cause::Http)]);
    assert!(matches!(job.failure(), Some(Error::Http)));
    let (job, _) = drive(start(), vec![Reply::Done, Reply::Status(200), Reply::Failed(Cause::Io)]);
    assert!(matches!(job.failure(), Some(Error::Io)));
}

// ---------------------------------------------------------------------------
// Whole runs
// ---------------------------------------------------------------------------

/// The reply that says that what was asked for went well.
fn good(request: &Request) -> Reply {
    match request {
        Request::Search(_) => Reply::Docs(vec![doc("perl-5.38.2", "https://h/perl-5.38.2.tar.gz")]),
        Request::MakeDir(_)
        | Request::Save(_)
        | Request::PatchTree(_)
        | Request::RemoveFile(_)
        | Request::LinkExecutables(_)
        | Request::Nothing => Reply::Done,
        Request::MakeTempDir(prefix) => Reply::Path(format!("/tmp/{prefix}")),
        Request::MakeAbsolute(p) => Reply::Path(p.clone()),
        Request::Fetch(_) => Reply::Status(200),
        Request::Variable(_) | Request::ReadText(_) => Reply::Text(None),
        Request::Capture(_) => listing("perl-5.38.2/\n"),
        Request::Run(_) => Reply::Exited(true),
        Request::FindProgram(_) => Reply::Flag(false),
        Request::IsFile(_) => Reply::Flag(true),
        Request::CompilerBanner => Reply::Banner(None),
    }
}

#[test]
fn good_work_installs_a_perl() {
    for toolchain in [Toolchain::GnuConfigure, Toolchain::Msvc] {
        for test in [false, true] {
            let build = PerlBuild::new("/p")
                .test(test)
                .toolchain(toolchain)
                .configure_option("-Dusedevel");
            let (mut job, mut request) = build.install_from_cpan("5.38.2", POSIX);
            let mut replies = 0;
            let mut labels: Vec<String> = Vec::new();
            while !matches!(request, Request::Nothing) {
                if let Request::Run(c) = &request {
                    labels.push(c.label.clone());
                }
                let (next, asked) = job.resume(good(&request));
                job = next;
                request = asked;
                replies += 1;
                assert!(replies <= 22);
            }
            assert!(job.failure().is_none());
            assert_eq!(job.built().unwrap().prefix(), "/p");
            let last = labels.last().unwrap();
            assert!(last.ends_with("install"));
            assert_eq!(labels.iter().any(|l| l.ends_with("test") || l.ends_with("test_harness")), test);
        }
    }
}

#[test]
fn a_job_that_is_over_stays_as_it_is() {
    let (job, asked) = drive(
        extract_tarball("/t.tgz", "/d", POSIX),
        vec![
            Reply::Done,
            Reply::Text(None),
            listing("p/x\n"),
            Reply::Exited(true),
            Reply::Failed(Cause::Io),
            Reply::Done,
        ],
    );
    assert!(matches!(asked[4], Request::Nothing));
    assert!(matches!(asked[6], Request::Nothing));
    assert_eq!(job.source(), Some("/d/p"));
    assert!(job.failure().is_none());
}
