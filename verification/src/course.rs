//! What holds of every install, whatever comes back of what it asks for.

use crate::archive::{is_sole_root, url_name};
use crate::commands::{
    configure_command, given, hidden_variables, install_command, list_command, make_command,
    nmake_command, nmake_install_command, nmake_test_command, patch_command, test_command,
    unpack_command, CommandView,
};
use crate::config::{any_holds, configure_arguments};
use crate::error::ErrorView;
use crate::job::{blank_job, JobView, Machine, Phase, ReplyView, RequestView};
use crate::laws::macros_set_no_cctype;
use crate::msvc::{banner_cctype, sets_cctype};
use crate::paths::joined_path;
use crate::plan::{
    compile, conclude, from_cpan, from_source, from_tarball, from_url, install, made_dir, next,
    next_of_getting, next_of_make, next_of_nmake, next_of_preparing, next_of_unpacking, nmake,
    nmake_install, nmake_macros, toolchain, unpack, win32, Step,
};
use crate::releases::{distilled, find_query, meant};
use crate::text::lossy;
use crate::version::{has_test_harness, header_version};
use vstd::prelude::*;

verus! {

// ---------------------------------------------------------------------------
// Runs
// ---------------------------------------------------------------------------

/// The job asks for nothing any more.
pub open spec fn is_over(j: JobView) -> bool {
    j.phase is Finished || j.phase is Failed
}

/// What becomes of a job when these replies come, one after the other.
pub open spec fn outcome(step: Step, replies: Seq<ReplyView>) -> JobView
    decreases replies.len(),
{
    if replies.len() == 0 {
        step.0
    } else {
        outcome(next(step.0, replies[0]), replies.skip(1))
    }
}

/// What a job asks for while these replies come, one after the other.
pub open spec fn requests(step: Step, replies: Seq<ReplyView>) -> Seq<RequestView>
    decreases replies.len(),
{
    if replies.len() == 0 {
        seq![step.1]
    } else {
        seq![step.1] + requests(next(step.0, replies[0]), replies.skip(1))
    }
}

/// The command that a request is for.
pub open spec fn command_of(request: RequestView) -> Seq<CommandView> {
    match request {
        RequestView::Run(command) => seq![command],
        RequestView::Capture(command) => seq![command],
        _ => seq![],
    }
}

/// The commands that a job runs while these replies come, in their order.
pub open spec fn commands(step: Step, replies: Seq<ReplyView>) -> Seq<CommandView>
    decreases replies.len(),
{
    if replies.len() == 0 {
        command_of(step.1)
    } else {
        command_of(step.1) + commands(next(step.0, replies[0]), replies.skip(1))
    }
}

/// A bound on how many replies a job in this phase can still use.
pub open spec fn replies_left(phase: Phase) -> nat {
    match phase {
        Phase::Resolving => 22,
        Phase::MakingTarballDir => 21,
        Phase::Fetching => 20,
        Phase::Saving => 19,
        Phase::MakingBuildDir => 18,
        Phase::MakingDest => 17,
        Phase::NamingTar => 16,
        Phase::Listing => 15,
        Phase::Unpacking => 14,
        Phase::FindingPrefix => 13,
        Phase::LookingForPatcher => 12,
        Phase::Patching => 11,
        Phase::PatchingInProcess => 11,
        Phase::RemovingConfig => 10,
        Phase::RemovingPolicy => 9,
        Phase::Configuring => 8,
        Phase::ReadingMakeOptions => 7,
        Phase::Making => 6,
        Phase::ReadingHeader => 5,
        Phase::Testing => 4,
        Phase::ReadingInstallOptions => 3,
        Phase::Installing => 2,
        Phase::CheckingMakefile => 10,
        Phase::NamingNmake => 9,
        Phase::ReadingNmakeOptions => 8,
        Phase::DetectingCompiler => 7,
        Phase::NmakeMaking => 6,
        Phase::NmakeTesting => 5,
        Phase::ReadingNmakeInstallOptions => 4,
        Phase::NmakeInstalling => 3,
        Phase::Linking => 1,
        Phase::Finished | Phase::Failed => 0,
    }
}

/// What is true of a job at all times.
pub open spec fn well_formed(j: JobView) -> bool {
    // A job has failed if and only if it says why.
    &&& j.phase is Failed <==> j.failure is Some
    // The tests run only where they are wanted.
    &&& j.phase is ReadingHeader || j.phase is Testing || j.phase is NmakeTesting ==> j.build.test
    // The fix-ups are applied in the way that was chosen.
    &&& j.phase is LookingForPatcher ==> j.build.patchperl is Auto || j.build.patchperl is External
    &&& j.phase is Patching ==> !(j.build.patchperl is Internal || j.build.patchperl is Disabled)
    &&& j.phase is PatchingInProcess ==> j.build.patchperl is Auto || j.build.patchperl is Internal
    // Each toolchain has its own phases.
    &&& is_make_phase(j.phase) ==> toolchain(j) !is Msvc
    &&& is_nmake_phase(j.phase) ==> toolchain(j) is Msvc
    &&& j.phase is Linking ==> toolchain(j) !is Msvc && any_holds(
        j.build.configure_options,
        "usedevel"@,
    )
    // The compiler is looked at only where the caller does not name it.
    &&& j.phase is DetectingCompiler ==> (j.options matches Some(text) ==> !sets_cctype(text))
    // A job that is to unpack a tarball does no more.
    &&& j.goal is Unpack ==> is_unpacking_phase(j.phase) || is_over(j)
}

/// A phase of a build with `make`.
pub open spec fn is_make_phase(phase: Phase) -> bool {
    match phase {
        Phase::RemovingConfig
        | Phase::RemovingPolicy
        | Phase::Configuring
        | Phase::ReadingMakeOptions
        | Phase::Making
        | Phase::ReadingHeader
        | Phase::Testing
        | Phase::ReadingInstallOptions
        | Phase::Installing => true,
        _ => false,
    }
}

/// A phase of a build with `nmake`.
pub open spec fn is_nmake_phase(phase: Phase) -> bool {
    match phase {
        Phase::CheckingMakefile
        | Phase::NamingNmake
        | Phase::ReadingNmakeOptions
        | Phase::DetectingCompiler
        | Phase::NmakeMaking
        | Phase::NmakeTesting
        | Phase::ReadingNmakeInstallOptions
        | Phase::NmakeInstalling => true,
        _ => false,
    }
}

/// A phase of unpacking a tarball.
pub open spec fn is_unpacking_phase(phase: Phase) -> bool {
    match phase {
        Phase::MakingBuildDir
        | Phase::MakingDest
        | Phase::NamingTar
        | Phase::Listing
        | Phase::Unpacking => true,
        _ => false,
    }
}

// ---------------------------------------------------------------------------
// Single steps
// ---------------------------------------------------------------------------

/// What is true of a job at all times is true of a new one.
pub proof fn jobs_begin_well_formed(
    j: JobView,
    text: Seq<char>,
    machine: Machine,
)
    requires
        j == blank_job(j.build, machine, j.goal),
    ensures
        j.goal is Install ==> well_formed(from_cpan(j, text).0),
        j.goal is Install ==> well_formed(from_url(j, text).0),
        j.goal is Install ==> well_formed(from_source(j, text).0),
        well_formed(from_tarball(j, text).0),
        well_formed(unpack(j, text).0),
{
}

/// What is true of a job at all times stays true, whatever comes back.
#[verifier::rlimit(40)]
pub proof fn jobs_stay_well_formed(j: JobView, reply: ReplyView)
    requires
        well_formed(j),
    ensures
        well_formed(next(j, reply).0),
{
}

/// The build, the machine and the goal of a job stay as they are.
pub proof fn jobs_keep_their_build(j: JobView, reply: ReplyView)
    ensures
        next(j, reply).0.build == j.build,
        next(j, reply).0.machine == j.machine,
        next(j, reply).0.goal == j.goal,
{
}

/// A job is over if and only if it asks for nothing.
pub proof fn nothing_is_asked_at_the_end(j: JobView, reply: ReplyView)
    ensures
        is_over(next(j, reply).0) <==> next(j, reply).1 is Nothing,
{
}

/// A job that is over stays as it is.
pub proof fn the_end_is_final(j: JobView, reply: ReplyView)
    requires
        is_over(j),
    ensures
        next(j, reply) == (j, RequestView::Nothing),
{
}

/// Work that fails ends the job: a program that ran and failed or could not be
/// started, or anything else that could not be done. Nothing is run after it.
pub proof fn the_first_failure_ends_the_job(j: JobView, reply: ReplyView)
    requires
        !is_over(j),
        reply is Failed || reply is NotStarted || reply == ReplyView::Exited(false) || (
        reply matches ReplyView::Output { success, .. } && !success),
    ensures
        next(j, reply).0.phase is Failed,
        next(j, reply).0.failure is Some,
        next(j, reply).1 is Nothing,
{
}

/// A program that fails is named in the error, as it was announced when it was
/// run.
pub proof fn failures_name_the_command(j: JobView, earlier: ReplyView, reply: ReplyView)
    requires
        reply == ReplyView::Exited(false) || reply is NotStarted,
    ensures
        next(j, earlier).1 matches RequestView::Run(command) ==> next(
            next(j, earlier).0,
            reply,
        ).0.failure == Some(
            if reply is NotStarted {
                ErrorView::Spawn(command.label)
            } else {
                ErrorView::Command(command.label)
            },
        ),
{
}

/// Every command of the build itself runs in the source tree, or in its
/// `win32` directory, with `PERL5LIB` and `PERL5OPT` removed from its
/// environment.
pub proof fn build_commands_hide_the_outer_perl(j: JobView, reply: ReplyView)
    requires
        j.phase !is Listing,
    ensures
        next(j, reply).1 matches RequestView::Run(command) ==> {
            &&& command.unset == hidden_variables(j.machine.platform)
            &&& command.unset.contains("PERL5LIB"@)
            &&& command.unset.contains("PERL5OPT"@)
            &&& command.dir == Some(j.src) || command.dir == Some(win32(j))
        },
{
    let hidden = hidden_variables(j.machine.platform);
    assert(hidden[0] == "PERL5LIB"@);
    assert(hidden[1] == "PERL5OPT"@);
}

/// The test suite runs only where that is wanted.
pub proof fn tests_run_only_when_wanted(j: JobView, reply: ReplyView)
    requires
        well_formed(j),
    ensures
        next(j, reply).0.phase is Testing || next(j, reply).0.phase is NmakeTesting ==> j.build.test,
{
}

/// `make install` comes up only once `make` went well and, where they are
/// wanted, so did the tests.
pub proof fn installing_waits_for_the_tests(j: JobView, reply: ReplyView)
    requires
        well_formed(j),
        next(j, reply).0.phase is ReadingInstallOptions || next(
            j,
            reply,
        ).0.phase is ReadingNmakeInstallOptions,
    ensures
        reply == ReplyView::Exited(true),
        if j.build.test {
            j.phase is Testing || j.phase is NmakeTesting
        } else {
            j.phase is Making || j.phase is NmakeMaking
        },
{
}

/// A job that does not apply the fix-ups never asks for them.
pub proof fn disabled_fix_ups_are_left_alone(j: JobView, reply: ReplyView)
    requires
        well_formed(j),
        j.build.patchperl is Disabled,
    ensures
        next(j, reply).1 !is PatchTree,
        next(j, reply).1 !is FindProgram,
        next(j, reply).0.phase !is Patching,
{
}

/// Fix-ups that are applied in-process never run a program.
pub proof fn internal_fix_ups_run_no_program(j: JobView, reply: ReplyView)
    requires
        well_formed(j),
        j.build.patchperl is Internal,
    ensures
        next(j, reply).1 !is FindProgram,
        next(j, reply).0.phase !is Patching,
        j.phase is FindingPrefix && reply is Path ==> next(j, reply).1 == RequestView::PatchTree(
            j.src,
        ),
{
}

/// The versioned executables are linked where the options say `usedevel` and
/// the build is not one with `nmake`, and nowhere else.
pub proof fn links_are_made_for_development_perls(j: JobView)
    ensures
        conclude(j).1 is LinkExecutables <==> toolchain(j) !is Msvc && any_holds(
            j.build.configure_options,
            "usedevel"@,
        ),
{
}

/// Where the caller names the compiler, `nmake` is told of no other.
pub proof fn the_callers_compiler_counts(j: JobView, reply: ReplyView, i: int)
    requires
        well_formed(j),
        next(j, reply).0.phase is NmakeMaking,
    ensures
        ({
            let k = next(j, reply).0;
            k.options matches Some(text) ==> sets_cctype(text) ==> 0 <= i < k.macros.len()
                ==> !"CCTYPE="@.is_prefix_of(k.macros[i])
        }),
{
    let k = next(j, reply).0;
    if k.options matches Some(text) && sets_cctype(text) && 0 <= i < k.macros.len() {
        assert(j.phase is ReadingNmakeOptions);
        macros_set_no_cctype(j.prefix, j.machine.platform, i);
    }
}

/// With every reply a job comes nearer to its end.
#[verifier::rlimit(40)]
pub proof fn jobs_advance(j: JobView, reply: ReplyView)
    requires
        !is_over(j),
    ensures
        replies_left(next(j, reply).0.phase) < replies_left(j.phase),
{
    match j.phase {
        Phase::Resolving | Phase::MakingTarballDir | Phase::Fetching | Phase::Saving => {
            assert(replies_left(next_of_getting(j, reply).0.phase) < replies_left(j.phase));
        },
        Phase::MakingBuildDir
        | Phase::MakingDest
        | Phase::NamingTar
        | Phase::Listing
        | Phase::Unpacking => {
            assert(replies_left(next_of_unpacking(j, reply).0.phase) < replies_left(j.phase));
        },
        Phase::FindingPrefix
        | Phase::LookingForPatcher
        | Phase::Patching
        | Phase::PatchingInProcess => {
            assert(replies_left(next_of_preparing(j, reply).0.phase) < replies_left(j.phase));
        },
        Phase::Linking => {},
        _ => {
            if is_make_phase(j.phase) {
                assert(replies_left(next_of_make(j, reply).0.phase) < replies_left(j.phase));
            } else {
                assert(replies_left(next_of_nmake(j, reply).0.phase) < replies_left(j.phase));
            }
        },
    }
}

// ---------------------------------------------------------------------------
// Whole runs
// ---------------------------------------------------------------------------

/// Every job ends, and soon: whatever comes back, it is over after a bounded
/// number of replies.
pub proof fn every_job_ends(step: Step, replies: Seq<ReplyView>)
    requires
        replies.len() >= replies_left(step.0.phase),
    ensures
        is_over(outcome(step, replies)),
    decreases replies.len(),
{
    if replies.len() > 0 {
        if !is_over(step.0) {
            jobs_advance(step.0, replies[0]);
        }
        every_job_ends(next(step.0, replies[0]), replies.skip(1));
    }
}

proof fn lemma_over(step: Step, replies: Seq<ReplyView>)
    requires
        is_over(step.0),
        step.1 is Nothing,
    ensures
        outcome(step, replies) == step.0,
        commands(step, replies) == Seq::<CommandView>::empty(),
    decreases replies.len(),
{
    if replies.len() > 0 {
        lemma_over(next(step.0, replies[0]), replies.skip(1));
        assert(commands(step, replies) =~= Seq::<CommandView>::empty());
    }
}

/// The first reply of a run that ends well, taken off.
proof fn lemma_first(step: Step, replies: Seq<ReplyView>)
    requires
        !is_over(step.0),
        outcome(step, replies).phase is Finished,
    ensures
        replies.len() > 0,
        outcome(next(step.0, replies[0]), replies.skip(1)).phase is Finished,
        outcome(step, replies) == outcome(next(step.0, replies[0]), replies.skip(1)),
        next(step.0, replies[0]).0.phase !is Failed,
        commands(step, replies) == command_of(step.1) + commands(
            next(step.0, replies[0]),
            replies.skip(1),
        ),
{
    let after = next(step.0, replies[0]);
    if after.0.phase is Failed {
        lemma_over(after, replies.skip(1));
    }
}

/// The programs that a build with `make` runs.
pub open spec fn make_build(
    j: JobView,
    make_options: Option<Seq<char>>,
    harness: bool,
    install_options: Option<Seq<char>>,
) -> Seq<CommandView> {
    let platform = j.machine.platform;
    let options = configure_arguments(j.build.configure_options, j.prefix);
    seq![
        configure_command(j.src, options, platform),
        make_command(j.src, j.build.jobs, make_options, platform),
    ] + (if j.build.test {
        seq![test_command(j.src, j.build.jobs, harness, platform)]
    } else {
        seq![]
    }) + seq![install_command(j.src, install_options, platform)]
}

/// The programs that a build with `nmake` runs.
pub open spec fn nmake_build(
    j: JobView,
    program: Seq<char>,
    cctype: Option<Seq<char>>,
    make_options: Option<Seq<char>>,
    install_options: Option<Seq<char>>,
) -> Seq<CommandView> {
    let platform = j.machine.platform;
    let macros = nmake_macros(j, cctype);
    let dir = win32(j);
    seq![nmake_command(program, dir, macros, make_options, platform)] + (if j.build.test {
        seq![nmake_test_command(program, dir, macros, j.build.jobs, platform)]
    } else {
        seq![]
    }) + seq![nmake_install_command(program, dir, macros, install_options, platform)]
}

proof fn lemma_conclusion(j: JobView, replies: Seq<ReplyView>)
    requires
        outcome(conclude(j), replies).phase is Finished,
    ensures
        commands(conclude(j), replies) == Seq::<CommandView>::empty(),
{
    let step = conclude(j);
    if is_over(step.0) {
        lemma_over(step, replies);
    } else {
        lemma_first(step, replies);
        lemma_over(next(step.0, replies[0]), replies.skip(1));
    }
}

proof fn lemma_install(j: JobView, replies: Seq<ReplyView>)
    requires
        outcome(install(j), replies).phase is Finished,
    ensures
        replies.len() > 1,
        replies[0] is Text,
        commands(install(j), replies) == seq![
            install_command(j.src, given(replies[0]->Text_0), j.machine.platform),
        ],
{
    let s1 = install(j);
    lemma_first(s1, replies);
    let s2 = next(s1.0, replies[0]);
    let r2 = replies.skip(1);
    lemma_first(s2, r2);
    let s3 = next(s2.0, r2[0]);
    lemma_conclusion(s2.0, r2.skip(1));
    assert(s3 == conclude(s2.0));
    let command = install_command(j.src, given(replies[0]->Text_0), j.machine.platform);
    assert(s2.1 == RequestView::Run(command));
    assert(commands(s1, replies) =~= seq![command]);
}

/// Whether a tree with this `patchlevel.h` has `make test_harness`.
pub open spec fn harness_in(header: Option<Seq<char>>) -> bool {
    has_test_harness(
        match header {
            Some(text) => header_version(text),
            None => None,
        },
    )
}

/// A build with `make` that ends well has run `sh Configure`, `make`, the tests
/// where they are wanted, and `make install`: these, in this order, and nothing
/// else. The options are those that were found in the environment, and the
/// tests are those of the `patchlevel.h` that was read.
pub proof fn make_builds_run_in_order(j: JobView, replies: Seq<ReplyView>)
    requires
        toolchain(j) !is Msvc,
        outcome(compile(j), replies).phase is Finished,
    ensures
        ({
            let at_install: int = if j.build.test {
                7
            } else {
                5
            };
            &&& replies.len() > at_install + 1
            &&& replies[3] is Text
            &&& j.build.test ==> replies[5] is Text
            &&& replies[at_install] is Text
            &&& commands(compile(j), replies) == make_build(
                j,
                given(replies[3]->Text_0),
                harness_in(replies[5]->Text_0),
                given(replies[at_install]->Text_0),
            )
        }),
{
    let s1 = compile(j);
    lemma_first(s1, replies);
    let s2 = next(s1.0, replies[0]);
    let r2 = replies.skip(1);
    lemma_first(s2, r2);
    let s3 = next(s2.0, r2[0]);
    let r3 = r2.skip(1);
    lemma_first(s3, r3);
    let s4 = next(s3.0, r3[0]);
    let r4 = r3.skip(1);
    lemma_first(s4, r4);
    let s5 = next(s4.0, r4[0]);
    let r5 = r4.skip(1);
    lemma_first(s5, r5);
    let s6 = next(s5.0, r5[0]);
    let r6 = r5.skip(1);
    assert(r4[0] == replies[3]);
    let platform = j.machine.platform;
    let make_options = given(replies[3]->Text_0);
    let configure = configure_command(
        j.src,
        configure_arguments(j.build.configure_options, j.prefix),
        platform,
    );
    let make = make_command(j.src, j.build.jobs, make_options, platform);
    assert(s3.1 == RequestView::Run(configure));
    assert(s5.1 == RequestView::Run(make));
    let harness = harness_in(replies[5]->Text_0);
    if j.build.test {
        assert(r6[0] == replies[5]);
        lemma_first(s6, r6);
        let s7 = next(s6.0, r6[0]);
        let r7 = r6.skip(1);
        lemma_first(s7, r7);
        let s8 = next(s7.0, r7[0]);
        let r8 = r7.skip(1);
        assert(s8 == install(s7.0));
        lemma_install(s7.0, r8);
        assert(r8[0] == replies[7]);
        let test = test_command(j.src, j.build.jobs, harness, platform);
        assert(s7.1 == RequestView::Run(test));
        assert(commands(s1, replies) =~= make_build(
            j,
            make_options,
            harness,
            given(replies[7]->Text_0),
        ));
    } else {
        assert(s6 == install(s5.0));
        lemma_install(s5.0, r6);
        assert(r6[0] == replies[5]);
        assert(commands(s1, replies) =~= make_build(
            j,
            make_options,
            harness,
            given(replies[5]->Text_0),
        ));
    }
}

proof fn lemma_nmake_install(j: JobView, replies: Seq<ReplyView>)
    requires
        outcome(nmake_install(j), replies).phase is Finished,
    ensures
        replies.len() > 1,
        replies[0] is Text,
        commands(nmake_install(j), replies) == seq![
            nmake_install_command(
                j.nmake,
                win32(j),
                j.macros,
                given(replies[0]->Text_0),
                j.machine.platform,
            ),
        ],
{
    let s1 = nmake_install(j);
    lemma_first(s1, replies);
    let s2 = next(s1.0, replies[0]);
    let r2 = replies.skip(1);
    lemma_first(s2, r2);
    lemma_conclusion(s2.0, r2.skip(1));
    let options = given(replies[0]->Text_0);
    let command = nmake_install_command(j.nmake, win32(j), j.macros, options, j.machine.platform);
    assert(s2.1 == RequestView::Run(command));
    assert(commands(s1, replies) =~= seq![command]);
}

/// How many replies come between the first `nmake` and what the environment
/// says of the install: that to `nmake`, and that to `nmake test`.
pub open spec fn replies_to_nmake(j: JobView) -> int {
    if j.build.test {
        2
    } else {
        1
    }
}

/// The commands from the first `nmake` on.
proof fn lemma_nmake(j: JobView, cctype: Option<Seq<char>>, replies: Seq<ReplyView>)
    requires
        outcome(nmake(j, cctype), replies).phase is Finished,
    ensures
        replies.len() > replies_to_nmake(j) + 1,
        replies[replies_to_nmake(j)] is Text,
        commands(nmake(j, cctype), replies) == nmake_build(
            j,
            j.nmake,
            cctype,
            j.options,
            given(replies[replies_to_nmake(j)]->Text_0),
        ),
{
    let s1 = nmake(j, cctype);
    lemma_first(s1, replies);
    let s2 = next(s1.0, replies[0]);
    let r2 = replies.skip(1);
    let options = given(replies[replies_to_nmake(j)]->Text_0);
    if j.build.test {
        lemma_first(s2, r2);
        let s3 = next(s2.0, r2[0]);
        let r3 = r2.skip(1);
        assert(s3 == nmake_install(s2.0));
        lemma_nmake_install(s2.0, r3);
        assert(r3[0] == replies[2]);
    } else {
        assert(s2 == nmake_install(s1.0));
        lemma_nmake_install(s1.0, r2);
        assert(r2[0] == replies[1]);
    }
    assert(commands(s1, replies) =~= nmake_build(j, j.nmake, cctype, j.options, options));
}

/// A build with `nmake` that ends well has run `nmake`, `nmake test` where that
/// is wanted, and `nmake install`, all three with the same program and macros:
/// these, in this order, and nothing else. The program and the options are
/// those that were found in the environment, and the `CCTYPE` is that of the
/// compiler's banner where the options give none.
pub proof fn nmake_builds_run_in_order(j: JobView, replies: Seq<ReplyView>)
    requires
        toolchain(j) is Msvc,
        outcome(compile(j), replies).phase is Finished,
    ensures
        ({
            let program = match replies[1]->Text_0 {
                Some(program) => program,
                None => "nmake"@,
            };
            let make_options = given(replies[2]->Text_0);
            let named = make_options matches Some(text) && sets_cctype(text);
            let cctype = match replies[3]->Banner_0 {
                Some(bytes) if !named => banner_cctype(lossy(bytes)),
                _ => None,
            };
            let at_install: int = replies_to_nmake(j) + if named {
                3int
            } else {
                4int
            };
            &&& replies.len() > at_install + 1
            &&& replies[1] is Text
            &&& replies[2] is Text
            &&& !named ==> replies[3] is Banner
            &&& replies[at_install] is Text
            &&& commands(compile(j), replies) == nmake_build(
                j,
                program,
                cctype,
                make_options,
                given(replies[at_install]->Text_0),
            )
        }),
{
    let s1 = compile(j);
    lemma_first(s1, replies);
    let s2 = next(s1.0, replies[0]);
    let r2 = replies.skip(1);
    lemma_first(s2, r2);
    let s3 = next(s2.0, r2[0]);
    let r3 = r2.skip(1);
    lemma_first(s3, r3);
    let s4 = next(s3.0, r3[0]);
    let r4 = r3.skip(1);
    assert(r2[0] == replies[1]);
    assert(r3[0] == replies[2]);
    let n = replies_to_nmake(j);
    let program = s3.0.nmake;
    let make_options = given(replies[2]->Text_0);
    let k = JobView { options: make_options, ..s3.0 };
    if make_options matches Some(text) && sets_cctype(text) {
        assert(s4 == nmake(k, None));
        lemma_nmake(k, None, r4);
        assert(r4[n] == replies[n + 3]);
        let options = given(replies[n + 3]->Text_0);
        assert(commands(s1, replies) =~= nmake_build(j, program, None, make_options, options));
    } else {
        lemma_first(s4, r4);
        let s5 = next(s4.0, r4[0]);
        let r5 = r4.skip(1);
        assert(r4[0] == replies[3]);
        let cctype = match replies[3]->Banner_0 {
            Some(bytes) => banner_cctype(lossy(bytes)),
            None => None,
        };
        assert(s5 == nmake(s4.0, cctype));
        lemma_nmake(s4.0, cctype, r5);
        assert(r5[n] == replies[n + 4]);
        let options = given(replies[n + 4]->Text_0);
        assert(commands(s1, replies) =~= nmake_build(j, program, cctype, make_options, options));
    }
}

/// A tarball that is unpacked well was listed and then unpacked into the
/// directory, with the program that the environment or the machine names, and
/// the source tree is the directory that this list shows at its top.
pub proof fn unpacking_finds_the_root(j: JobView, dest: Seq<char>, replies: Seq<ReplyView>)
    requires
        j.goal is Unpack,
        outcome(unpack(j, dest), replies).phase is Finished,
    ensures
        ({
            let platform = j.machine.platform;
            let tar = match replies[1]->Text_0 {
                Some(program) => program,
                None => if j.machine.solaris {
                    "gtar"@
                } else {
                    "tar"@
                },
            };
            &&& replies.len() > 3
            &&& replies[1] is Text
            &&& replies[2] is Output
            &&& commands(unpack(j, dest), replies) == seq![
                list_command(tar, j.tarball, platform),
                unpack_command(tar, j.tarball, dest, platform),
            ]
            &&& exists|root: Seq<char>|
                {
                    &&& #[trigger] is_sole_root(lossy(replies[2]->stdout), root)
                    &&& outcome(unpack(j, dest), replies).src == joined_path(dest, root, platform)
                }
        }),
{
    let platform = j.machine.platform;
    let s1 = unpack(j, dest);
    lemma_first(s1, replies);
    let s2 = next(s1.0, replies[0]);
    let r2 = replies.skip(1);
    lemma_first(s2, r2);
    let s3 = next(s2.0, r2[0]);
    let r3 = r2.skip(1);
    lemma_first(s3, r3);
    let s4 = next(s3.0, r3[0]);
    let r4 = r3.skip(1);
    lemma_first(s4, r4);
    let s5 = next(s4.0, r4[0]);
    lemma_over(s5, r4.skip(1));
    assert(r2[0] == replies[1]);
    assert(r3[0] == replies[2]);
    let tar = s3.0.tar;
    assert(commands(s1, replies) =~= seq![
        list_command(tar, j.tarball, platform),
        unpack_command(tar, j.tarball, dest, platform),
    ]);
    assert(is_sole_root(lossy(replies[2]->stdout), s4.0.root));
}

/// Where the fix-ups are left to the library, an install that ends well has
/// applied them, one way or the other.
pub proof fn fix_ups_are_always_applied(j: JobView, src: Seq<char>, replies: Seq<ReplyView>)
    requires
        j.build.patchperl is Auto,
        outcome(from_source(j, src), replies).phase is Finished,
    ensures
        ({
            let asked = requests(from_source(j, src), replies);
            asked.contains(RequestView::PatchTree(src)) || asked.contains(
                RequestView::Run(patch_command("patchperl"@, src, j.machine.platform)),
            )
        }),
{
    let s1 = from_source(j, src);
    lemma_first(s1, replies);
    let s2 = next(s1.0, replies[0]);
    let r2 = replies.skip(1);
    lemma_first(s2, r2);
    let s3 = next(s2.0, r2[0]);
    let asked = requests(s1, replies);
    assert(requests(s3, r2.skip(1))[0] == s3.1);
    assert(requests(s2, r2)[1] == s3.1);
    assert(asked[2] == s3.1);
}

/// An install from CPAN that ends well has searched for the version, fetched
/// the release that is meant from where that release says, and saved it under
/// the name that the URL gives.
pub proof fn the_meant_release_is_fetched(
    j: JobView,
    version: Seq<char>,
    replies: Seq<ReplyView>,
)
    requires
        outcome(from_cpan(j, version), replies).phase is Finished,
    ensures
        ({
            let asked = requests(from_cpan(j, version), replies);
            let docs = replies[0]->Docs_0;
            let url = distilled(docs[meant(docs, version)]).download_url;
            &&& replies.len() > 2
            &&& replies[0] is Docs
            &&& docs.len() > 0
            &&& asked[0] == RequestView::Search(find_query(version))
            &&& asked[2] == RequestView::Fetch(url)
            &&& made_dir(j.build.tarball_dir, replies[1]) matches Some(dir) && asked[3]
                == RequestView::Save(joined_path(dir, url_name(url), j.machine.platform))
        }),
{
    let s1 = from_cpan(j, version);
    lemma_first(s1, replies);
    let s2 = next(s1.0, replies[0]);
    let r2 = replies.skip(1);
    lemma_first(s2, r2);
    let s3 = next(s2.0, r2[0]);
    let r3 = r2.skip(1);
    lemma_first(s3, r3);
    let s4 = next(s3.0, r3[0]);
    let r4 = r3.skip(1);
    assert(r2[0] == replies[1]);
    assert(requests(s4, r4)[0] == s4.1);
    assert(requests(s3, r3)[0] == s3.1 && requests(s3, r3)[1] == s4.1);
    assert(requests(s2, r2)[1] == s3.1 && requests(s2, r2)[2] == s4.1);
    let asked = requests(s1, replies);
    assert(asked[2] == s3.1 && asked[3] == s4.1);
}

/// The prefix stays as it is once it is found.
proof fn lemma_prefix(step: Step, replies: Seq<ReplyView>)
    requires
        knows_prefix(step.0.phase),
    ensures
        outcome(step, replies).prefix == step.0.prefix,
    decreases replies.len(),
{
    if replies.len() > 0 {
        lemma_prefix(next(step.0, replies[0]), replies.skip(1));
    }
}

spec fn knows_prefix(phase: Phase) -> bool {
    ||| is_make_phase(phase)
    ||| is_nmake_phase(phase)
    ||| phase is LookingForPatcher
    ||| phase is Patching
    ||| phase is PatchingInProcess
    ||| phase is Linking
    ||| phase is Finished
    ||| phase is Failed
}

/// The Perl is installed where it was asked for: its prefix is the absolute
/// form of the path that the build was made with.
pub proof fn the_prefix_is_the_one_asked_for(
    j: JobView,
    src: Seq<char>,
    replies: Seq<ReplyView>,
)
    requires
        outcome(from_source(j, src), replies).phase is Finished,
    ensures
        replies.len() > 0,
        from_source(j, src).1 == RequestView::MakeAbsolute(j.build.dst_path),
        replies[0] == ReplyView::Path(outcome(from_source(j, src), replies).prefix),
{
    let s1 = from_source(j, src);
    lemma_first(s1, replies);
    lemma_prefix(next(s1.0, replies[0]), replies.skip(1));
}

// ---------------------------------------------------------------------------
// Success
// ---------------------------------------------------------------------------

/// The request is the one that belongs to the phase of the job.
pub open spec fn is_asked(j: JobView, request: RequestView) -> bool {
    match j.phase {
        Phase::Resolving => request is Search,
        Phase::MakingTarballDir => if j.build.tarball_dir is Some {
            request is MakeDir
        } else {
            request is MakeTempDir
        },
        Phase::Fetching => request is Fetch,
        Phase::Saving => request is Save,
        Phase::MakingBuildDir => if j.build.build_dir is Some {
            request is MakeDir
        } else {
            request is MakeTempDir
        },
        Phase::MakingDest => request is MakeDir,
        Phase::NamingTar => request is Variable,
        Phase::Listing => request is Capture,
        Phase::FindingPrefix => request is MakeAbsolute,
        Phase::LookingForPatcher => request is FindProgram,
        Phase::PatchingInProcess => request is PatchTree,
        Phase::RemovingConfig | Phase::RemovingPolicy => request is RemoveFile,
        Phase::ReadingHeader => request is ReadText,
        Phase::CheckingMakefile => request is IsFile,
        Phase::DetectingCompiler => request is CompilerBanner,
        Phase::ReadingMakeOptions
        | Phase::ReadingInstallOptions
        | Phase::NamingNmake
        | Phase::ReadingNmakeOptions
        | Phase::ReadingNmakeInstallOptions => request is Variable,
        Phase::Unpacking
        | Phase::Patching
        | Phase::Configuring
        | Phase::Making
        | Phase::Testing
        | Phase::Installing
        | Phase::NmakeMaking
        | Phase::NmakeTesting
        | Phase::NmakeInstalling => request is Run,
        Phase::Linking => request is LinkExecutables,
        Phase::Finished | Phase::Failed => request is Nothing,
    }
}

/// The reply says that what was asked for went well.
pub open spec fn went_well(request: RequestView, reply: ReplyView) -> bool {
    match request {
        RequestView::Search(_) => reply matches ReplyView::Docs(docs) && docs.len() > 0,
        RequestView::MakeDir(_)
        | RequestView::Save(_)
        | RequestView::PatchTree(_)
        | RequestView::RemoveFile(_)
        | RequestView::LinkExecutables(_) => reply is Done,
        RequestView::MakeTempDir(_) | RequestView::MakeAbsolute(_) => reply is Path,
        RequestView::Fetch(_) => reply matches ReplyView::Status(status) && 200 <= status < 300,
        RequestView::Variable(_) | RequestView::ReadText(_) => reply is Text,
        RequestView::Capture(_) => reply matches ReplyView::Output { success, stdout } && success
            && exists|root: Seq<char>| is_sole_root(lossy(stdout), root),
        RequestView::Run(_) => reply == ReplyView::Exited(true),
        RequestView::FindProgram(_) => reply is Flag,
        RequestView::IsFile(_) => reply == ReplyView::Flag(true),
        RequestView::CompilerBanner => reply is Banner,
        RequestView::Nothing => true,
    }
}

/// Every reply says that what was asked for went well.
pub open spec fn all_went_well(step: Step, replies: Seq<ReplyView>) -> bool
    decreases replies.len(),
{
    replies.len() > 0 ==> went_well(step.1, replies[0]) && all_went_well(
        next(step.0, replies[0]),
        replies.skip(1),
    )
}

/// A job asks for what belongs to its phase, from its first request on.
#[verifier::rlimit(40)]
pub proof fn requests_belong_to_phases(j: JobView, text: Seq<char>, k: JobView, reply: ReplyView)
    ensures
        is_asked(from_cpan(j, text).0, from_cpan(j, text).1),
        is_asked(from_url(j, text).0, from_url(j, text).1),
        is_asked(from_tarball(j, text).0, from_tarball(j, text).1),
        is_asked(from_source(j, text).0, from_source(j, text).1),
        is_asked(unpack(j, text).0, unpack(j, text).1),
        is_asked(next(k, reply).0, next(k, reply).1),
{
}

/// A job whose work all goes well ends well.
pub proof fn good_work_leads_to_success(step: Step, replies: Seq<ReplyView>)
    requires
        is_asked(step.0, step.1),
        step.0.phase !is Failed,
        all_went_well(step, replies),
        replies.len() >= replies_left(step.0.phase),
    ensures
        outcome(step, replies).phase is Finished,
    decreases replies.len(),
{
    if replies.len() > 0 {
        let after = next(step.0, replies[0]);
        if !is_over(step.0) {
            jobs_advance(step.0, replies[0]);
        }
        requests_belong_to_phases(step.0, seq![], step.0, replies[0]);
        good_work_leads_to_success(after, replies.skip(1));
    }
}

} // verus!
