//! The course of an install: what a job asks for next, for each outcome of
//! what it asked for last.

use crate::archive::{is_sole_root, url_name};
use crate::built::BuiltView;
use crate::commands::{
    configure_command, given, install_command, list_command, make_command, nmake_command,
    nmake_install_command, nmake_test_command, patch_command, test_command, unpack_command,
    CommandView,
};
use crate::config::{
    any_holds, configure_arguments, default_build, toolchain_on, PatchPerlView, Toolchain,
};
use crate::error::ErrorView;
use crate::job::{blank_job, Cause, Goal, JobView, Machine, Phase, ReplyView, RequestView};
use crate::msvc::{banner_cctype, install_macros, sets_cctype};
use crate::paths::joined_path;
use crate::releases::{distilled, find_query, meant};
use crate::text::lossy;
use crate::version::{has_test_harness, header_version};
use vstd::prelude::*;

verus! {

/// A job, and what it asks for.
pub type Step = (JobView, RequestView);

// ---------------------------------------------------------------------------
// Ways to go on
// ---------------------------------------------------------------------------

/// The job waits for what it asks for.
pub open spec fn wait(j: JobView, phase: Phase, request: RequestView) -> Step {
    (JobView { phase, ..j }, request)
}

/// The job waits for a program.
pub open spec fn run(j: JobView, phase: Phase, command: CommandView) -> Step {
    (JobView { phase, label: command.label, ..j }, RequestView::Run(command))
}

/// The job is over, and something went wrong.
pub open spec fn stop(j: JobView, error: ErrorView) -> Step {
    (JobView { phase: Phase::Failed, failure: Some(error), ..j }, RequestView::Nothing)
}

/// The job is over, and all went well.
pub open spec fn finish(j: JobView) -> Step {
    (JobView { phase: Phase::Finished, ..j }, RequestView::Nothing)
}

/// The error that a failed piece of work amounts to.
pub open spec fn cause_error(cause: Cause) -> ErrorView {
    match cause {
        Cause::Metacpan => ErrorView::Metacpan,
        Cause::Http => ErrorView::Http,
        Cause::Io => ErrorView::Io,
        Cause::PatchPerl => ErrorView::PatchPerl,
    }
}

/// The error that a reply amounts to which is not the one hoped for. A reply
/// that does not even answer the request is an error of its own.
pub open spec fn trouble(reply: ReplyView) -> ErrorView {
    match reply {
        ReplyView::Failed(cause) => cause_error(cause),
        _ => ErrorView::Other("unexpected reply"@),
    }
}

/// What went wrong with the program that ran last, if anything did.
pub open spec fn run_trouble(j: JobView, reply: ReplyView) -> Option<ErrorView> {
    match reply {
        ReplyView::Exited(true) => None,
        ReplyView::Exited(false) => Some(ErrorView::Command(j.label)),
        ReplyView::NotStarted => Some(ErrorView::Spawn(j.label)),
        _ => Some(trouble(reply)),
    }
}

/// What went wrong with work that is just done or not, if anything did.
pub open spec fn work_trouble(reply: ReplyView) -> Option<ErrorView> {
    match reply {
        ReplyView::Done => None,
        _ => Some(trouble(reply)),
    }
}

/// The directory that was made: the one that was set, or a temporary one.
pub open spec fn made_dir(configured: Option<Seq<char>>, reply: ReplyView) -> Option<Seq<char>> {
    match (configured, reply) {
        (Some(dir), ReplyView::Done) => Some(dir),
        (None, ReplyView::Path(dir)) => Some(dir),
        _ => None,
    }
}

/// The request for a directory: the one that was set, or a temporary one.
pub open spec fn dir_request(configured: Option<Seq<char>>, prefix: Seq<char>) -> RequestView {
    match configured {
        Some(dir) => RequestView::MakeDir(dir),
        None => RequestView::MakeTempDir(prefix),
    }
}

// ---------------------------------------------------------------------------
// The stages
// ---------------------------------------------------------------------------

/// Install the release with this version.
pub open spec fn from_cpan(j: JobView, version: Seq<char>) -> Step {
    wait(
        JobView { version, ..j },
        Phase::Resolving,
        RequestView::Search(find_query(version)),
    )
}

/// Install the tarball at this URL.
pub open spec fn from_url(j: JobView, url: Seq<char>) -> Step {
    wait(
        JobView { url, ..j },
        Phase::MakingTarballDir,
        dir_request(j.build.tarball_dir, "perl-build-tarball"@),
    )
}

/// Install this tarball.
pub open spec fn from_tarball(j: JobView, tarball: Seq<char>) -> Step {
    wait(
        JobView { tarball, ..j },
        Phase::MakingBuildDir,
        dir_request(j.build.build_dir, "perl-build-src"@),
    )
}

/// A job that is to unpack this tarball and do no more, which no build of a
/// caller's is behind.
pub open spec fn unpacking_job(tarball: Seq<char>, machine: Machine) -> JobView {
    JobView { tarball, ..blank_job(default_build(""@), machine, Goal::Unpack) }
}

/// Unpack the tarball into this directory.
pub open spec fn unpack(j: JobView, dest: Seq<char>) -> Step {
    wait(JobView { dest, ..j }, Phase::MakingDest, RequestView::MakeDir(dest))
}

/// Install from this source tree.
pub open spec fn from_source(j: JobView, src: Seq<char>) -> Step {
    wait(
        JobView { src, ..j },
        Phase::FindingPrefix,
        RequestView::MakeAbsolute(j.build.dst_path),
    )
}

/// Apply the fix-ups.
pub open spec fn patch_source(j: JobView) -> Step {
    match j.build.patchperl {
        PatchPerlView::Disabled => compile(j),
        PatchPerlView::Internal => patch_in_process(j),
        PatchPerlView::Command(program) => patch_with(j, program),
        PatchPerlView::External | PatchPerlView::Auto => wait(
            j,
            Phase::LookingForPatcher,
            RequestView::FindProgram("patchperl"@),
        ),
    }
}

/// Apply the fix-ups with an external program.
pub open spec fn patch_with(j: JobView, program: Seq<char>) -> Step {
    run(j, Phase::Patching, patch_command(program, j.src, j.machine.platform))
}

/// Apply the fix-ups in-process.
pub open spec fn patch_in_process(j: JobView) -> Step {
    wait(j, Phase::PatchingInProcess, RequestView::PatchTree(j.src))
}

/// The toolchain that builds.
pub open spec fn toolchain(j: JobView) -> Toolchain {
    toolchain_on(j.build.toolchain, j.machine.platform)
}

/// The `win32` directory of the source tree.
pub open spec fn win32(j: JobView) -> Seq<char> {
    joined_path(j.src, "win32"@, j.machine.platform)
}

/// An entry of the source tree.
pub open spec fn in_source(j: JobView, name: Seq<char>) -> Seq<char> {
    joined_path(j.src, name, j.machine.platform)
}

/// Build the source tree.
pub open spec fn compile(j: JobView) -> Step {
    if toolchain(j) is Msvc {
        wait(
            j,
            Phase::CheckingMakefile,
            RequestView::IsFile(joined_path(win32(j), "Makefile"@, j.machine.platform)),
        )
    } else {
        wait(j, Phase::RemovingConfig, RequestView::RemoveFile(in_source(j, "config.sh"@)))
    }
}

/// `make install`.
pub open spec fn install(j: JobView) -> Step {
    wait(j, Phase::ReadingInstallOptions, RequestView::Variable("PERL_BUILD_INSTALL_OPTIONS"@))
}

/// The macros for `nmake`: those for the prefix, and this `CCTYPE`.
pub open spec fn nmake_macros(j: JobView, cctype: Option<Seq<char>>) -> Seq<Seq<char>> {
    let base = install_macros(j.prefix, j.machine.platform);
    match cctype {
        Some(name) => base.push("CCTYPE="@ + name),
        None => base,
    }
}

/// `nmake`, with the macros for the prefix and this `CCTYPE`.
pub open spec fn nmake(j: JobView, cctype: Option<Seq<char>>) -> Step {
    let macros = nmake_macros(j, cctype);
    run(
        JobView { macros, ..j },
        Phase::NmakeMaking,
        nmake_command(j.nmake, win32(j), macros, j.options, j.machine.platform),
    )
}

/// `nmake install`.
pub open spec fn nmake_install(j: JobView) -> Step {
    wait(j, Phase::ReadingNmakeInstallOptions, RequestView::Variable("PERL_BUILD_INSTALL_OPTIONS"@))
}

/// The Perl that the job installs.
pub open spec fn built(j: JobView) -> BuiltView {
    BuiltView { prefix: j.prefix, platform: j.machine.platform }
}

/// What is left once the Perl is installed.
pub open spec fn conclude(j: JobView) -> Step {
    if toolchain(j) !is Msvc && any_holds(j.build.configure_options, "usedevel"@) {
        wait(j, Phase::Linking, RequestView::LinkExecutables(built(j).bin_dir()))
    } else {
        finish(j)
    }
}

/// The message for a source tree that an MSVC build cannot use.
pub open spec fn no_makefile(src: Seq<char>) -> Seq<char> {
    "no win32\\Makefile under "@ + src
        + " — an MSVC build needs a Windows Perl source tree"@
}

// ---------------------------------------------------------------------------
// What follows each reply
// ---------------------------------------------------------------------------

/// Getting a tarball.
pub open spec fn next_of_getting(j: JobView, reply: ReplyView) -> Step {
    match (j.phase, reply) {
        (Phase::Resolving, ReplyView::Docs(docs)) => if docs.len() == 0 {
            stop(j, ErrorView::ReleaseNotFound(j.version))
        } else {
            from_url(j, distilled(docs[meant(docs, j.version)]).download_url)
        },
        (Phase::MakingTarballDir, _) => match made_dir(j.build.tarball_dir, reply) {
            Some(dir) => wait(
                JobView { tarball: joined_path(dir, url_name(j.url), j.machine.platform), ..j },
                Phase::Fetching,
                RequestView::Fetch(j.url),
            ),
            None => stop(j, trouble(reply)),
        },
        (Phase::Fetching, ReplyView::Status(status)) => if 200 <= status < 300 {
            wait(j, Phase::Saving, RequestView::Save(j.tarball))
        } else {
            stop(j, ErrorView::Download { url: j.url, status })
        },
        (Phase::Saving, ReplyView::Done) => from_tarball(j, j.tarball),
        _ => stop(j, trouble(reply)),
    }
}

/// Unpacking it.
pub open spec fn next_of_unpacking(j: JobView, reply: ReplyView) -> Step {
    match (j.phase, reply) {
        (Phase::MakingBuildDir, _) => match made_dir(j.build.build_dir, reply) {
            Some(dir) => unpack(j, dir),
            None => stop(j, trouble(reply)),
        },
        (Phase::MakingDest, ReplyView::Done) => wait(
            j,
            Phase::NamingTar,
            RequestView::Variable("PERL_BUILD_TAR"@),
        ),
        (Phase::NamingTar, ReplyView::Text(configured)) => {
            let tar = match configured {
                Some(program) => program,
                None => if j.machine.solaris {
                    "gtar"@
                } else {
                    "tar"@
                },
            };
            let command = list_command(tar, j.tarball, j.machine.platform);
            (
                JobView { phase: Phase::Listing, tar, label: command.label, ..j },
                RequestView::Capture(command),
            )
        },
        (Phase::Listing, ReplyView::Output { success: true, stdout }) => {
            let root = choose|root: Seq<char>| is_sole_root(lossy(stdout), root);
            if is_sole_root(lossy(stdout), root) {
                run(
                    JobView { root, ..j },
                    Phase::Unpacking,
                    unpack_command(j.tar, j.tarball, j.dest, j.machine.platform),
                )
            } else {
                stop(j, ErrorView::TarballLayout(j.tarball))
            }
        },
        (Phase::Listing, ReplyView::Output { success: false, .. }) => stop(
            j,
            ErrorView::Command(j.label),
        ),
        (Phase::Listing, ReplyView::NotStarted) => stop(j, ErrorView::Spawn(j.label)),
        (Phase::Unpacking, _) => match run_trouble(j, reply) {
            Some(error) => stop(j, error),
            None => {
                let src = joined_path(j.dest, j.root, j.machine.platform);
                if j.goal is Unpack {
                    finish(JobView { src, ..j })
                } else {
                    from_source(j, src)
                }
            },
        },
        _ => stop(j, trouble(reply)),
    }
}

/// Preparing the source tree.
pub open spec fn next_of_preparing(j: JobView, reply: ReplyView) -> Step {
    match (j.phase, reply) {
        (Phase::FindingPrefix, ReplyView::Path(prefix)) => patch_source(JobView { prefix, ..j }),
        (Phase::LookingForPatcher, ReplyView::Flag(found)) => if found {
            patch_with(j, "patchperl"@)
        } else if j.build.patchperl is Auto {
            patch_in_process(j)
        } else {
            compile(j)
        },
        (Phase::Patching, _) => match run_trouble(j, reply) {
            Some(error) => stop(j, error),
            None => compile(j),
        },
        (Phase::PatchingInProcess, ReplyView::Done) => compile(j),
        _ => stop(j, trouble(reply)),
    }
}

/// `sh Configure` and `make`.
pub open spec fn next_of_make(j: JobView, reply: ReplyView) -> Step {
    let platform = j.machine.platform;
    match (j.phase, reply) {
        (Phase::RemovingConfig, ReplyView::Done) => wait(
            j,
            Phase::RemovingPolicy,
            RequestView::RemoveFile(in_source(j, "Policy.sh"@)),
        ),
        (Phase::RemovingPolicy, ReplyView::Done) => run(
            j,
            Phase::Configuring,
            configure_command(
                j.src,
                configure_arguments(j.build.configure_options, j.prefix),
                platform,
            ),
        ),
        (Phase::Configuring, _) => match run_trouble(j, reply) {
            Some(error) => stop(j, error),
            None => wait(
                j,
                Phase::ReadingMakeOptions,
                RequestView::Variable("PERL_BUILD_COMPILE_OPTIONS"@),
            ),
        },
        (Phase::ReadingMakeOptions, ReplyView::Text(value)) => run(
            j,
            Phase::Making,
            make_command(j.src, j.build.jobs, given(value), platform),
        ),
        (Phase::Making, _) => match run_trouble(j, reply) {
            Some(error) => stop(j, error),
            None => if j.build.test {
                wait(
                    j,
                    Phase::ReadingHeader,
                    RequestView::ReadText(in_source(j, "patchlevel.h"@)),
                )
            } else {
                install(j)
            },
        },
        (Phase::ReadingHeader, ReplyView::Text(header)) => run(
            j,
            Phase::Testing,
            test_command(
                j.src,
                j.build.jobs,
                has_test_harness(
                    match header {
                        Some(text) => header_version(text),
                        None => None,
                    },
                ),
                platform,
            ),
        ),
        (Phase::Testing, _) => match run_trouble(j, reply) {
            Some(error) => stop(j, error),
            None => install(j),
        },
        (Phase::ReadingInstallOptions, ReplyView::Text(value)) => run(
            j,
            Phase::Installing,
            install_command(j.src, given(value), platform),
        ),
        (Phase::Installing, _) => match run_trouble(j, reply) {
            Some(error) => stop(j, error),
            None => conclude(j),
        },
        _ => stop(j, trouble(reply)),
    }
}

/// `nmake`.
pub open spec fn next_of_nmake(j: JobView, reply: ReplyView) -> Step {
    let platform = j.machine.platform;
    match (j.phase, reply) {
        (Phase::CheckingMakefile, ReplyView::Flag(found)) => if found {
            wait(j, Phase::NamingNmake, RequestView::Variable("PERL_BUILD_NMAKE"@))
        } else {
            stop(j, ErrorView::Other(no_makefile(j.src)))
        },
        (Phase::NamingNmake, ReplyView::Text(configured)) => wait(
            JobView {
                nmake: match configured {
                    Some(program) => program,
                    None => "nmake"@,
                },
                ..j
            },
            Phase::ReadingNmakeOptions,
            RequestView::Variable("PERL_BUILD_COMPILE_OPTIONS"@),
        ),
        (Phase::ReadingNmakeOptions, ReplyView::Text(value)) => {
            let options = given(value);
            let k = JobView { options, ..j };
            if options matches Some(text) && sets_cctype(text) {
                nmake(k, None)
            } else {
                wait(k, Phase::DetectingCompiler, RequestView::CompilerBanner)
            }
        },
        (Phase::DetectingCompiler, ReplyView::Banner(banner)) => nmake(
            j,
            match banner {
                Some(bytes) => banner_cctype(lossy(bytes)),
                None => None,
            },
        ),
        (Phase::NmakeMaking, _) => match run_trouble(j, reply) {
            Some(error) => stop(j, error),
            None => if j.build.test {
                run(
                    j,
                    Phase::NmakeTesting,
                    nmake_test_command(j.nmake, win32(j), j.macros, j.build.jobs, platform),
                )
            } else {
                nmake_install(j)
            },
        },
        (Phase::NmakeTesting, _) => match run_trouble(j, reply) {
            Some(error) => stop(j, error),
            None => nmake_install(j),
        },
        (Phase::ReadingNmakeInstallOptions, ReplyView::Text(value)) => run(
            j,
            Phase::NmakeInstalling,
            nmake_install_command(j.nmake, win32(j), j.macros, given(value), platform),
        ),
        (Phase::NmakeInstalling, _) => match run_trouble(j, reply) {
            Some(error) => stop(j, error),
            None => conclude(j),
        },
        _ => stop(j, trouble(reply)),
    }
}

/// What a job becomes, and asks for, when `reply` comes.
pub open spec fn next(j: JobView, reply: ReplyView) -> Step {
    match j.phase {
        Phase::Resolving
        | Phase::MakingTarballDir
        | Phase::Fetching
        | Phase::Saving => next_of_getting(j, reply),
        Phase::MakingBuildDir
        | Phase::MakingDest
        | Phase::NamingTar
        | Phase::Listing
        | Phase::Unpacking => next_of_unpacking(j, reply),
        Phase::FindingPrefix
        | Phase::LookingForPatcher
        | Phase::Patching
        | Phase::PatchingInProcess => next_of_preparing(j, reply),
        Phase::RemovingConfig
        | Phase::RemovingPolicy
        | Phase::Configuring
        | Phase::ReadingMakeOptions
        | Phase::Making
        | Phase::ReadingHeader
        | Phase::Testing
        | Phase::ReadingInstallOptions
        | Phase::Installing => next_of_make(j, reply),
        Phase::CheckingMakefile
        | Phase::NamingNmake
        | Phase::ReadingNmakeOptions
        | Phase::DetectingCompiler
        | Phase::NmakeMaking
        | Phase::NmakeTesting
        | Phase::ReadingNmakeInstallOptions
        | Phase::NmakeInstalling => next_of_nmake(j, reply),
        Phase::Linking => match work_trouble(reply) {
            Some(error) => stop(j, error),
            None => finish(j),
        },
        Phase::Finished | Phase::Failed => (j, RequestView::Nothing),
    }
}

} // verus!
