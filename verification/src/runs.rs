//! What an install that ends well has asked for, from its first request to its
//! last, and how one that goes wrong says so.

use crate::archive::{is_sole_root, url_name};
use crate::built::Built;
use crate::commands::{
    configure_command, given, install_command, list_command, make_command, nmake_command,
    nmake_install_command, nmake_test_command, patch_command, test_command, unpack_command,
};
use crate::config::{
    any_holds, configure_arguments, toolchain_on, PatchPerlView, PerlBuild, PerlBuildView,
};
use crate::course::{
    harness_in, is_make_phase, is_nmake_phase, is_over, jobs_keep_their_build, outcome, requests,
    well_formed,
};
use crate::error::{Error, ErrorView};
use crate::job::{
    blank_job, extract_tarball, Cause, Goal, Job, JobView, Machine, Phase, ReplyView, Request,
    RequestView,
};
use crate::msvc::{banner_cctype, install_macros, sets_cctype};
use crate::paths::joined_path;
use crate::plan::{
    built, compile, conclude, from_cpan, from_source, from_tarball, from_url, install, next, nmake,
    nmake_install, patch_source, unpack, unpacking_job, Step,
};
use crate::releases::{distilled, find_query, meant, ReleaseDoc};
use crate::text::{decimal, is_white, lossy, words};
use crate::wording::{
    blank_values_do_not_count, install_gets_the_options, make_gets_jobs_and_options,
};
use vstd::prelude::*;

verus! {

// ---------------------------------------------------------------------------
// Following a run
// ---------------------------------------------------------------------------

/// Where a job is after the first `n` replies.
pub open spec fn reached(step: Step, replies: Seq<ReplyView>, n: nat) -> Step
    decreases n,
{
    if n == 0 {
        step
    } else {
        next(reached(step, replies, (n - 1) as nat).0, replies[n - 1])
    }
}

proof fn lemma_reached(step: Step, replies: Seq<ReplyView>, n: nat)
    requires
        n <= replies.len(),
    ensures
        requests(step, replies).len() == replies.len() + 1,
        requests(step, replies)[n as int] == reached(step, replies, n).1,
        outcome(step, replies) == outcome(reached(step, replies, n), replies.skip(n as int)),
    decreases replies.len(), n,
{
    if replies.len() == 0 {
        assert(replies.skip(0) =~= replies);
    } else if n == 0 {
        lemma_reached(next(step.0, replies[0]), replies.skip(1), 0);
        assert(replies.skip(0) =~= replies);
    } else {
        let after = next(step.0, replies[0]);
        let rest = replies.skip(1);
        lemma_reached(after, rest, (n - 1) as nat);
        lemma_reached_shift(step, replies, n);
        assert(rest.skip(n - 1) =~= replies.skip(n as int));
    }
}

proof fn lemma_reached_shift(step: Step, replies: Seq<ReplyView>, n: nat)
    requires
        0 < n <= replies.len(),
    ensures
        reached(step, replies, n) == reached(
            next(step.0, replies[0]),
            replies.skip(1),
            (n - 1) as nat,
        ),
    decreases n,
{
    if n > 1 {
        lemma_reached_shift(step, replies, (n - 1) as nat);
        assert(replies.skip(1)[n - 2] == replies[n - 1]);
    } else {
        assert(reached(step, replies, 0) == step);
    }
}

proof fn lemma_end(step: Step, replies: Seq<ReplyView>)
    requires
        is_over(step.0),
    ensures
        outcome(step, replies) == step.0,
    decreases replies.len(),
{
    if replies.len() > 0 {
        lemma_end(next(step.0, replies[0]), replies.skip(1));
    }
}

/// Nothing has gone wrong on the way of a run that ends well.
proof fn lemma_not_failed(step: Step, replies: Seq<ReplyView>, n: nat)
    requires
        n <= replies.len(),
        outcome(step, replies).phase is Finished,
    ensures
        requests(step, replies).len() == replies.len() + 1,
        requests(step, replies)[n as int] == reached(step, replies, n).1,
        reached(step, replies, n).0.phase !is Failed,
        reached(step, replies, n).0.phase is Finished ==> outcome(step, replies) == reached(
            step,
            replies,
            n,
        ).0,
        reached(step, replies, n).0.phase !is Finished ==> n < replies.len(),
{
    lemma_reached(step, replies, n);
    let here = reached(step, replies, n);
    let rest = replies.skip(n as int);
    if is_over(here.0) {
        lemma_end(here, rest);
    } else if rest.len() == 0 {
        assert(outcome(here, rest) == here.0);
    }
}

proof fn lemma_same_build(step: Step, replies: Seq<ReplyView>, n: nat)
    ensures
        reached(step, replies, n).0.build == step.0.build,
        reached(step, replies, n).0.machine == step.0.machine,
        reached(step, replies, n).0.goal == step.0.goal,
    decreases n,
{
    if n > 0 {
        let m = (n - 1) as nat;
        lemma_same_build(step, replies, m);
        jobs_keep_their_build(reached(step, replies, m).0, replies[m as int]);
    }
}

/// A run that ends well goes on from where it is, unless it is over there.
proof fn lemma_goes_on(step: Step, replies: Seq<ReplyView>, n: nat)
    requires
        n <= replies.len(),
        outcome(step, replies).phase is Finished,
    ensures
        requests(step, replies).len() == replies.len() + 1,
        requests(step, replies)[n as int] == reached(step, replies, n).1,
        reached(step, replies, n).0.phase !is Failed,
        reached(step, replies, n).0.phase is Finished ==> outcome(step, replies) == reached(
            step,
            replies,
            n,
        ).0,
        reached(step, replies, n).0.phase !is Finished ==> n < replies.len() && reached(
            step,
            replies,
            n + 1,
        ) == next(reached(step, replies, n).0, replies[n as int]) && reached(
            step,
            replies,
            n + 1,
        ).0.phase !is Failed,
        reached(step, replies, n).0.build == step.0.build,
        reached(step, replies, n).0.machine == step.0.machine,
        reached(step, replies, n).0.goal == step.0.goal,
{
    lemma_not_failed(step, replies, n);
    lemma_same_build(step, replies, n);
    if reached(step, replies, n).0.phase !is Finished {
        lemma_not_failed(step, replies, n + 1);
    }
}

// ---------------------------------------------------------------------------
// Building a source tree
// ---------------------------------------------------------------------------

/// The request is for nothing, or for the links of a development Perl, as the
/// options of the build say.
pub open spec fn ends_the_install(
    build: PerlBuildView,
    machine: Machine,
    prefix: Seq<char>,
    asked: Seq<RequestView>,
    at: int,
) -> bool {
    if toolchain_on(build.toolchain, machine.platform) !is Msvc && any_holds(
        build.configure_options,
        "usedevel"@,
    ) {
        &&& asked[at] == RequestView::LinkExecutables(
            joined_path(prefix, "bin"@, machine.platform),
        )
        &&& asked[at + 1] is Nothing
    } else {
        asked[at] is Nothing
    }
}

/// From `at` on, the tree `src` is built with `make` and installed in `prefix`:
/// what an earlier build left is removed; `Configure` runs, and `make`, and the
/// tests where they are wanted, and `make install`, each with what the
/// environment and the tree say.
pub open spec fn makes(
    build: PerlBuildView,
    machine: Machine,
    src: Seq<char>,
    prefix: Seq<char>,
    asked: Seq<RequestView>,
    replies: Seq<ReplyView>,
    at: int,
) -> bool {
    let platform = machine.platform;
    let i = at + if build.test {
        7int
    } else {
        5int
    };
    &&& asked.len() > i + 2
    &&& asked[at] == RequestView::RemoveFile(joined_path(src, "config.sh"@, platform))
    &&& asked[at + 1] == RequestView::RemoveFile(joined_path(src, "Policy.sh"@, platform))
    &&& asked[at + 2] == RequestView::Run(
        configure_command(src, configure_arguments(build.configure_options, prefix), platform),
    )
    &&& asked[at + 3] == RequestView::Variable("PERL_BUILD_COMPILE_OPTIONS"@)
    &&& replies[at + 3] matches ReplyView::Text(options) && asked[at + 4] == RequestView::Run(
        make_command(src, build.jobs, given(options), platform),
    )
    &&& build.test ==> {
        &&& asked[at + 5] == RequestView::ReadText(joined_path(src, "patchlevel.h"@, platform))
        &&& replies[at + 5] matches ReplyView::Text(header) && asked[at + 6] == RequestView::Run(
            test_command(src, build.jobs, harness_in(header), platform),
        )
    }
    &&& asked[i] == RequestView::Variable("PERL_BUILD_INSTALL_OPTIONS"@)
    &&& replies[i] matches ReplyView::Text(options) && asked[i + 1] == RequestView::Run(
        install_command(src, given(options), platform),
    )
    &&& ends_the_install(build, machine, prefix, asked, i + 2)
}

/// From `at` on, the tree `src` is built with `nmake` and installed in
/// `prefix`: there is a makefile; `nmake` runs, and `nmake test` where that is
/// wanted, and `nmake install`, with the macros for the prefix and the compiler
/// that the caller has not named.
pub open spec fn nmakes(
    build: PerlBuildView,
    machine: Machine,
    src: Seq<char>,
    prefix: Seq<char>,
    asked: Seq<RequestView>,
    replies: Seq<ReplyView>,
    at: int,
) -> bool {
    let platform = machine.platform;
    let dir = joined_path(src, "win32"@, platform);
    let program = match replies[at + 1]->Text_0 {
        Some(program) => program,
        None => "nmake"@,
    };
    let options = given(replies[at + 2]->Text_0);
    let named = options matches Some(text) && sets_cctype(text);
    let base = install_macros(prefix, platform);
    let macros = match replies[at + 3]->Banner_0 {
        Some(bytes) if !named => match banner_cctype(lossy(bytes)) {
            Some(cctype) => base.push("CCTYPE="@ + cctype),
            None => base,
        },
        _ => base,
    };
    let k = at + if named {
        3int
    } else {
        4int
    };
    let i = k + if build.test {
        2int
    } else {
        1int
    };
    &&& asked.len() > i + 2
    &&& asked[at] == RequestView::IsFile(joined_path(dir, "Makefile"@, platform))
    &&& replies[at] == ReplyView::Flag(true)
    &&& asked[at + 1] == RequestView::Variable("PERL_BUILD_NMAKE"@)
    &&& replies[at + 1] is Text
    &&& asked[at + 2] == RequestView::Variable("PERL_BUILD_COMPILE_OPTIONS"@)
    &&& replies[at + 2] is Text
    &&& !named ==> asked[at + 3] is CompilerBanner && replies[at + 3] is Banner
    &&& asked[k] == RequestView::Run(nmake_command(program, dir, macros, options, platform))
    &&& build.test ==> asked[k + 1] == RequestView::Run(
        nmake_test_command(program, dir, macros, build.jobs, platform),
    )
    &&& asked[i] == RequestView::Variable("PERL_BUILD_INSTALL_OPTIONS"@)
    &&& replies[i] matches ReplyView::Text(install_options) && asked[i + 1] == RequestView::Run(
        nmake_install_command(program, dir, macros, given(install_options), platform),
    )
    &&& ends_the_install(build, machine, prefix, asked, i + 2)
}

/// From `at` on, the tree `src` is built and installed in `prefix`.
pub open spec fn compiles(
    build: PerlBuildView,
    machine: Machine,
    src: Seq<char>,
    prefix: Seq<char>,
    asked: Seq<RequestView>,
    replies: Seq<ReplyView>,
    at: int,
) -> bool {
    if toolchain_on(build.toolchain, machine.platform) is Msvc {
        nmakes(build, machine, src, prefix, asked, replies, at)
    } else {
        makes(build, machine, src, prefix, asked, replies, at)
    }
}

/// From `at` on, the tree `src` is built and installed where the build says,
/// once the fix-ups were applied in the way that the build says.
pub open spec fn installs(
    build: PerlBuildView,
    machine: Machine,
    src: Seq<char>,
    prefix: Seq<char>,
    asked: Seq<RequestView>,
    replies: Seq<ReplyView>,
    at: int,
) -> bool {
    let platform = machine.platform;
    let found = replies[at + 1] == ReplyView::Flag(true);
    &&& asked[at] == RequestView::MakeAbsolute(build.dst_path)
    &&& replies[at] == ReplyView::Path(prefix)
    &&& match build.patchperl {
        PatchPerlView::Disabled => compiles(build, machine, src, prefix, asked, replies, at + 1),
        PatchPerlView::Internal => {
            &&& asked[at + 1] == RequestView::PatchTree(src)
            &&& compiles(build, machine, src, prefix, asked, replies, at + 2)
        },
        PatchPerlView::Command(program) => {
            &&& asked[at + 1] == RequestView::Run(patch_command(program, src, platform))
            &&& compiles(build, machine, src, prefix, asked, replies, at + 2)
        },
        PatchPerlView::External => {
            &&& asked[at + 1] == RequestView::FindProgram("patchperl"@)
            &&& found ==> {
                &&& asked[at + 2] == RequestView::Run(patch_command("patchperl"@, src, platform))
                &&& compiles(build, machine, src, prefix, asked, replies, at + 3)
            }
            &&& !found ==> compiles(build, machine, src, prefix, asked, replies, at + 2)
        },
        PatchPerlView::Auto => {
            &&& asked[at + 1] == RequestView::FindProgram("patchperl"@)
            &&& found ==> asked[at + 2] == RequestView::Run(
                patch_command("patchperl"@, src, platform),
            )
            &&& !found ==> asked[at + 2] == RequestView::PatchTree(src)
            &&& compiles(build, machine, src, prefix, asked, replies, at + 3)
        },
    }
}

proof fn lemma_conclusion(step: Step, replies: Seq<ReplyView>, n: nat, j: JobView)
    requires
        n <= replies.len(),
        outcome(step, replies).phase is Finished,
        reached(step, replies, n) == conclude(j),
    ensures
        ends_the_install(j.build, j.machine, j.prefix, requests(step, replies), n as int),
        outcome(step, replies).prefix == j.prefix,
        outcome(step, replies).src == j.src,
{
    lemma_goes_on(step, replies, n);
    if reached(step, replies, n).0.phase is Linking {
        lemma_goes_on(step, replies, n + 1);
    }
}

proof fn lemma_makes(step: Step, replies: Seq<ReplyView>, n: nat, j: JobView)
    requires
        n <= replies.len(),
        outcome(step, replies).phase is Finished,
        reached(step, replies, n) == compile(j),
        toolchain_on(j.build.toolchain, j.machine.platform) !is Msvc,
    ensures
        makes(j.build, j.machine, j.src, j.prefix, requests(step, replies), replies, n as int),
        outcome(step, replies).prefix == j.prefix,
        outcome(step, replies).src == j.src,
{
    lemma_goes_on(step, replies, n);
    lemma_goes_on(step, replies, n + 1);
    lemma_goes_on(step, replies, n + 2);
    lemma_goes_on(step, replies, n + 3);
    lemma_goes_on(step, replies, n + 4);
    lemma_goes_on(step, replies, n + 5);
    let made = reached(step, replies, n + 4).0;
    if j.build.test {
        lemma_goes_on(step, replies, n + 6);
        let tested = reached(step, replies, n + 6).0;
        assert(reached(step, replies, n + 7) == install(tested));
        lemma_goes_on(step, replies, n + 7);
        lemma_goes_on(step, replies, n + 8);
        assert(reached(step, replies, n + 9) == conclude(reached(step, replies, n + 8).0));
        lemma_conclusion(step, replies, n + 9, reached(step, replies, n + 8).0);
    } else {
        assert(reached(step, replies, n + 5) == install(made));
        lemma_goes_on(step, replies, n + 6);
        assert(reached(step, replies, n + 7) == conclude(reached(step, replies, n + 6).0));
        lemma_conclusion(step, replies, n + 7, reached(step, replies, n + 6).0);
    }
}

proof fn lemma_nmakes_from(
    step: Step,
    replies: Seq<ReplyView>,
    k: nat,
    j: JobView,
    cctype: Option<Seq<char>>,
)
    requires
        k <= replies.len(),
        outcome(step, replies).phase is Finished,
        reached(step, replies, k) == nmake(j, cctype),
    ensures
        ({
            let asked = requests(step, replies);
            let platform = j.machine.platform;
            let dir = joined_path(j.src, "win32"@, platform);
            let base = install_macros(j.prefix, platform);
            let macros = match cctype {
                Some(cctype) => base.push("CCTYPE="@ + cctype),
                None => base,
            };
            let i = k as int + if j.build.test {
                2int
            } else {
                1int
            };
            &&& asked.len() > i + 2
            &&& asked[k as int] == RequestView::Run(
                nmake_command(j.nmake, dir, macros, j.options, platform),
            )
            &&& j.build.test ==> asked[k as int + 1] == RequestView::Run(
                nmake_test_command(j.nmake, dir, macros, j.build.jobs, platform),
            )
            &&& asked[i] == RequestView::Variable("PERL_BUILD_INSTALL_OPTIONS"@)
            &&& replies[i] matches ReplyView::Text(options) && asked[i + 1] == RequestView::Run(
                nmake_install_command(j.nmake, dir, macros, given(options), platform),
            )
            &&& ends_the_install(j.build, j.machine, j.prefix, asked, i + 2)
            &&& outcome(step, replies).prefix == j.prefix
            &&& outcome(step, replies).src == j.src
        }),
{
    lemma_goes_on(step, replies, k);
    lemma_goes_on(step, replies, k + 1);
    lemma_goes_on(step, replies, k + 2);
    if j.build.test {
        let tested = reached(step, replies, k + 1).0;
        assert(reached(step, replies, k + 2) == nmake_install(tested));
        lemma_goes_on(step, replies, k + 3);
        assert(reached(step, replies, k + 4) == conclude(reached(step, replies, k + 3).0));
        lemma_conclusion(step, replies, k + 4, reached(step, replies, k + 3).0);
    } else {
        assert(reached(step, replies, k + 3) == conclude(reached(step, replies, k + 2).0));
        lemma_conclusion(step, replies, k + 3, reached(step, replies, k + 2).0);
    }
}

#[verifier::rlimit(60)]
proof fn lemma_nmakes(step: Step, replies: Seq<ReplyView>, n: nat, j: JobView)
    requires
        n <= replies.len(),
        outcome(step, replies).phase is Finished,
        reached(step, replies, n) == compile(j),
        toolchain_on(j.build.toolchain, j.machine.platform) is Msvc,
    ensures
        nmakes(j.build, j.machine, j.src, j.prefix, requests(step, replies), replies, n as int),
        outcome(step, replies).prefix == j.prefix,
        outcome(step, replies).src == j.src,
{
    lemma_goes_on(step, replies, n);
    lemma_goes_on(step, replies, n + 1);
    lemma_goes_on(step, replies, n + 2);
    let k = JobView {
        options: given(replies[n as int + 2]->Text_0),
        ..reached(step, replies, n + 2).0
    };
    if k.options matches Some(text) && sets_cctype(text) {
        assert(reached(step, replies, n + 3) == nmake(k, None));
        lemma_nmakes_from(step, replies, n + 3, k, None);
    } else {
        lemma_goes_on(step, replies, n + 3);
        let cctype = match replies[n as int + 3]->Banner_0 {
            Some(bytes) => banner_cctype(lossy(bytes)),
            None => None,
        };
        let detecting = reached(step, replies, n + 3).0;
        assert(reached(step, replies, n + 4) == nmake(detecting, cctype));
        lemma_nmakes_from(step, replies, n + 4, detecting, cctype);
    }
}

proof fn lemma_compiles(step: Step, replies: Seq<ReplyView>, n: nat, j: JobView)
    requires
        n <= replies.len(),
        outcome(step, replies).phase is Finished,
        reached(step, replies, n) == compile(j),
    ensures
        compiles(j.build, j.machine, j.src, j.prefix, requests(step, replies), replies, n as int),
        outcome(step, replies).prefix == j.prefix,
        outcome(step, replies).src == j.src,
{
    if toolchain_on(j.build.toolchain, j.machine.platform) is Msvc {
        lemma_nmakes(step, replies, n, j);
    } else {
        lemma_makes(step, replies, n, j);
    }
}

proof fn lemma_installs(step: Step, replies: Seq<ReplyView>, n: nat, j: JobView, src: Seq<char>)
    requires
        n <= replies.len(),
        outcome(step, replies).phase is Finished,
        reached(step, replies, n) == from_source(j, src),
    ensures
        installs(
            j.build,
            j.machine,
            src,
            outcome(step, replies).prefix,
            requests(step, replies),
            replies,
            n as int,
        ),
        outcome(step, replies).src == src,
{
    lemma_goes_on(step, replies, n);
    let prefix = replies[n as int]->Path_0;
    let k = JobView { prefix, ..reached(step, replies, n).0 };
    assert(reached(step, replies, n + 1) == patch_source(k));
    match j.build.patchperl {
        PatchPerlView::Disabled => {
            lemma_compiles(step, replies, n + 1, k);
        },
        PatchPerlView::Internal | PatchPerlView::Command(_) => {
            lemma_goes_on(step, replies, n + 1);
            let patched = reached(step, replies, n + 1).0;
            assert(reached(step, replies, n + 2) == compile(patched));
            lemma_compiles(step, replies, n + 2, patched);
        },
        PatchPerlView::External | PatchPerlView::Auto => {
            lemma_goes_on(step, replies, n + 1);
            let looked = reached(step, replies, n + 1).0;
            if replies[n as int + 1] == ReplyView::Flag(false) && j.build.patchperl is External {
                assert(reached(step, replies, n + 2) == compile(looked));
                lemma_compiles(step, replies, n + 2, looked);
            } else {
                lemma_goes_on(step, replies, n + 2);
                let patched = reached(step, replies, n + 2).0;
                assert(reached(step, replies, n + 3) == compile(patched));
                lemma_compiles(step, replies, n + 3, patched);
            }
        },
    }
}

/// An install from a source tree that ends well has asked for the prefix, the
/// fix-ups and the build of that tree, and for nothing else.
pub proof fn source_trees_are_built(j: JobView, src: Seq<char>, replies: Seq<ReplyView>)
    requires
        outcome(from_source(j, src), replies).phase is Finished,
    ensures
        installs(
            j.build,
            j.machine,
            src,
            outcome(from_source(j, src), replies).prefix,
            requests(from_source(j, src), replies),
            replies,
            0,
        ),
        outcome(from_source(j, src), replies).src == src,
{
    lemma_installs(from_source(j, src), replies, 0, j, src);
}

/// What the environment says of `make` and of `make install` reaches them: the
/// words of the value are the last arguments, in order, however many jobs there
/// are, and a value that is blank or missing brings none.
pub proof fn variables_reach_make(j: JobView, value: Seq<char>)
    ensures
        ({
            let blank = forall|i: int| 0 <= i < value.len() ==> is_white(#[trigger] value[i]);
            let front: int = if j.build.jobs is Some {
                2
            } else {
                0
            };
            let plain = next(j, ReplyView::Text(None)).1;
            let given = next(j, ReplyView::Text(Some(value))).1;
            &&& j.phase is ReadingMakeOptions ==> {
                &&& plain matches RequestView::Run(c) && c.program == "make"@ && c.dir == Some(
                    j.src,
                ) && c.args.len() == front
                &&& given matches RequestView::Run(c) && c.program == "make"@ && c.dir == Some(
                    j.src,
                ) && c.args == plain->Run_0.args + if blank {
                    seq![]
                } else {
                    words(value)
                }
                &&& j.build.jobs matches Some(n) ==> plain->Run_0.args[0] == "-j"@
                    && plain->Run_0.args[1] == decimal(n as nat)
            }
            &&& j.phase is ReadingInstallOptions ==> {
                &&& plain matches RequestView::Run(c) && c.program == "make"@ && c.dir == Some(
                    j.src,
                ) && c.args =~= seq!["install"@]
                &&& given matches RequestView::Run(c) && c.program == "make"@ && c.dir == Some(
                    j.src,
                ) && c.args == seq!["install"@] + if blank {
                    seq![]
                } else {
                    words(value)
                }
            }
        }),
{
    let platform = j.machine.platform;
    blank_values_do_not_count(value);
    make_gets_jobs_and_options(j.src, j.build.jobs, value, platform);
    install_gets_the_options(j.src, None, platform);
    install_gets_the_options(j.src, Some(value), platform);
    let plain = next(j, ReplyView::Text(None)).1;
    let given = next(j, ReplyView::Text(Some(value))).1;
    if j.phase is ReadingMakeOptions {
        assert(plain->Run_0.args + Seq::<Seq<char>>::empty() =~= plain->Run_0.args);
        if crate::commands::given(Some(value)) is Some {
            assert(given->Run_0.args =~= plain->Run_0.args + words(value));
        }
    }
    if j.phase is ReadingInstallOptions {
        assert(plain->Run_0.args =~= seq!["install"@]);
        assert(seq!["install"@] + Seq::<Seq<char>>::empty() =~= seq!["install"@]);
        if crate::commands::given(Some(value)) is Some {
            assert(given->Run_0.args =~= seq!["install"@] + words(value));
        }
    }
}

// ---------------------------------------------------------------------------
// Tarballs
// ---------------------------------------------------------------------------

/// The directory `dir` was made: the one that was set, or a temporary one.
pub open spec fn makes_dir(
    configured: Option<Seq<char>>,
    prefix: Seq<char>,
    dir: Seq<char>,
    asked: RequestView,
    reply: ReplyView,
) -> bool {
    match configured {
        Some(set) => dir == set && asked == RequestView::MakeDir(set) && reply is Done,
        None => asked == RequestView::MakeTempDir(prefix) && reply == ReplyView::Path(dir),
    }
}

/// From `at` on, `tarball` is listed and unpacked into `dest`, and `root` is the
/// one directory at the top of that list.
pub open spec fn unpacks(
    machine: Machine,
    tarball: Seq<char>,
    dest: Seq<char>,
    root: Seq<char>,
    asked: Seq<RequestView>,
    replies: Seq<ReplyView>,
    at: int,
) -> bool {
    let platform = machine.platform;
    let tar = match replies[at + 1]->Text_0 {
        Some(program) => program,
        None => if machine.solaris {
            "gtar"@
        } else {
            "tar"@
        },
    };
    &&& asked.len() > at + 4
    &&& asked[at] == RequestView::MakeDir(dest)
    &&& asked[at + 1] == RequestView::Variable("PERL_BUILD_TAR"@)
    &&& replies[at + 1] is Text
    &&& asked[at + 2] == RequestView::Capture(list_command(tar, tarball, platform))
    &&& replies[at + 2] matches ReplyView::Output { success, stdout } && success && is_sole_root(
        lossy(stdout),
        root,
    )
    &&& asked[at + 3] == RequestView::Run(unpack_command(tar, tarball, dest, platform))
    &&& replies[at + 3] == ReplyView::Exited(true)
}

/// From `at` on, `tarball` is unpacked into the directory for it, and the tree
/// at its top is installed.
pub open spec fn installs_tarball(
    build: PerlBuildView,
    machine: Machine,
    tarball: Seq<char>,
    end: JobView,
    asked: Seq<RequestView>,
    replies: Seq<ReplyView>,
    at: int,
) -> bool {
    exists|dir: Seq<char>, root: Seq<char>|
        {
            &&& makes_dir(build.build_dir, "perl-build-src"@, dir, asked[at], replies[at])
            &&& #[trigger] unpacks(machine, tarball, dir, root, asked, replies, at + 1)
            &&& end.src == joined_path(dir, root, machine.platform)
            &&& installs(build, machine, end.src, end.prefix, asked, replies, at + 5)
        }
}

proof fn lemma_unpacks(step: Step, replies: Seq<ReplyView>, n: nat, j: JobView, dest: Seq<char>)
    requires
        n <= replies.len(),
        outcome(step, replies).phase is Finished,
        reached(step, replies, n) == unpack(j, dest),
    ensures
        n + 4 <= replies.len(),
        ({
            let unpacking = reached(step, replies, n + 3).0;
            let src = joined_path(dest, unpacking.root, j.machine.platform);
            &&& unpacks(
                j.machine,
                j.tarball,
                dest,
                unpacking.root,
                requests(step, replies),
                replies,
                n as int,
            )
            &&& unpacking.build == j.build && unpacking.machine == j.machine
            &&& j.goal is Install ==> reached(step, replies, n + 4) == from_source(unpacking, src)
            &&& j.goal is Unpack ==> outcome(step, replies).src == src
        }),
{
    lemma_goes_on(step, replies, n);
    lemma_goes_on(step, replies, n + 1);
    lemma_goes_on(step, replies, n + 2);
    lemma_goes_on(step, replies, n + 3);
    lemma_goes_on(step, replies, n + 4);
}

proof fn lemma_installs_tarball(
    step: Step,
    replies: Seq<ReplyView>,
    n: nat,
    j: JobView,
    tarball: Seq<char>,
)
    requires
        n <= replies.len(),
        j.goal is Install,
        outcome(step, replies).phase is Finished,
        reached(step, replies, n) == from_tarball(j, tarball),
    ensures
        installs_tarball(
            j.build,
            j.machine,
            tarball,
            outcome(step, replies),
            requests(step, replies),
            replies,
            n as int,
        ),
{
    lemma_goes_on(step, replies, n);
    let start = reached(step, replies, n).0;
    let dir = match j.build.build_dir {
        Some(dir) => dir,
        None => replies[n as int]->Path_0,
    };
    assert(reached(step, replies, n + 1) == unpack(start, dir));
    lemma_unpacks(step, replies, n + 1, start, dir);
    let unpacking = reached(step, replies, n + 4).0;
    let src = joined_path(dir, unpacking.root, j.machine.platform);
    assert(reached(step, replies, n + 5) == from_source(unpacking, src));
    lemma_installs(step, replies, n + 5, unpacking, src);
    assert(unpacks(
        j.machine,
        tarball,
        dir,
        unpacking.root,
        requests(step, replies),
        replies,
        n as int + 1,
    ));
}

/// An install from a tarball that ends well has unpacked that tarball, and
/// built the one directory at its top, in the directory that it was unpacked
/// into.
pub proof fn tarballs_are_unpacked_and_built(
    j: JobView,
    tarball: Seq<char>,
    replies: Seq<ReplyView>,
)
    requires
        j.goal is Install,
        outcome(from_tarball(j, tarball), replies).phase is Finished,
    ensures
        installs_tarball(
            j.build,
            j.machine,
            tarball,
            outcome(from_tarball(j, tarball), replies),
            requests(from_tarball(j, tarball), replies),
            replies,
            0,
        ),
{
    lemma_installs_tarball(from_tarball(j, tarball), replies, 0, j, tarball);
}

/// A tarball that is only to be unpacked is, and the source tree is the one
/// directory at its top.
pub proof fn tarballs_are_unpacked(
    tarball: Seq<char>,
    dest: Seq<char>,
    machine: Machine,
    replies: Seq<ReplyView>,
)
    requires
        outcome(unpack(unpacking_job(tarball, machine), dest), replies).phase is Finished,
    ensures
        ({
            let step = unpack(unpacking_job(tarball, machine), dest);
            exists|root: Seq<char>|
                {
                    &&& #[trigger] unpacks(
                        machine,
                        tarball,
                        dest,
                        root,
                        requests(step, replies),
                        replies,
                        0,
                    )
                    &&& outcome(step, replies).src == joined_path(dest, root, machine.platform)
                    &&& outcome(step, replies).goal is Unpack
                }
        }),
{
    let j = unpacking_job(tarball, machine);
    let step = unpack(j, dest);
    lemma_unpacks(step, replies, 0, j, dest);
    lemma_goes_on(step, replies, 3);
    lemma_goes_on(step, replies, 4);
    let root = reached(step, replies, 3).0.root;
    assert(unpacks(machine, tarball, dest, root, requests(step, replies), replies, 0));
}

// ---------------------------------------------------------------------------
// Downloads
// ---------------------------------------------------------------------------

/// From `at` on, what `url` brings is fetched and saved in the directory for
/// it, under the name that the URL gives; and the very file that was saved is
/// unpacked and installed.
pub open spec fn installs_url(
    build: PerlBuildView,
    machine: Machine,
    url: Seq<char>,
    end: JobView,
    asked: Seq<RequestView>,
    replies: Seq<ReplyView>,
    at: int,
) -> bool {
    exists|dir: Seq<char>|
        {
            let saved = joined_path(dir, url_name(url), machine.platform);
            &&& #[trigger] makes_dir(
                build.tarball_dir,
                "perl-build-tarball"@,
                dir,
                asked[at],
                replies[at],
            )
            &&& asked[at + 1] == RequestView::Fetch(url)
            &&& replies[at + 1] matches ReplyView::Status(status) && 200 <= status < 300
            &&& asked[at + 2] == RequestView::Save(saved)
            &&& replies[at + 2] is Done
            &&& installs_tarball(build, machine, saved, end, asked, replies, at + 3)
        }
}

proof fn lemma_installs_url(
    step: Step,
    replies: Seq<ReplyView>,
    n: nat,
    j: JobView,
    url: Seq<char>,
)
    requires
        n <= replies.len(),
        j.goal is Install,
        outcome(step, replies).phase is Finished,
        reached(step, replies, n) == from_url(j, url),
    ensures
        installs_url(
            j.build,
            j.machine,
            url,
            outcome(step, replies),
            requests(step, replies),
            replies,
            n as int,
        ),
{
    lemma_goes_on(step, replies, n);
    lemma_goes_on(step, replies, n + 1);
    lemma_goes_on(step, replies, n + 2);
    let dir = match j.build.tarball_dir {
        Some(dir) => dir,
        None => replies[n as int]->Path_0,
    };
    let saved = joined_path(dir, url_name(url), j.machine.platform);
    let saving = reached(step, replies, n + 2).0;
    assert(reached(step, replies, n + 3) == from_tarball(saving, saved));
    lemma_installs_tarball(step, replies, n + 3, saving, saved);
    let asked = requests(step, replies);
    assert(makes_dir(
        j.build.tarball_dir,
        "perl-build-tarball"@,
        dir,
        asked[n as int],
        replies[n as int],
    ));
}

/// An install from a URL that ends well has fetched it, and unpacked and built
/// the file that it saved.
pub proof fn downloads_are_unpacked_and_built(
    j: JobView,
    url: Seq<char>,
    replies: Seq<ReplyView>,
)
    requires
        j.goal is Install,
        outcome(from_url(j, url), replies).phase is Finished,
    ensures
        installs_url(
            j.build,
            j.machine,
            url,
            outcome(from_url(j, url), replies),
            requests(from_url(j, url), replies),
            replies,
            0,
        ),
{
    lemma_installs_url(from_url(j, url), replies, 0, j, url);
}

/// An install from CPAN that ends well has searched for the version, and
/// installed what the release that is meant says it is downloaded from.
pub proof fn releases_are_downloaded_and_built(
    j: JobView,
    version: Seq<char>,
    replies: Seq<ReplyView>,
)
    requires
        j.goal is Install,
        outcome(from_cpan(j, version), replies).phase is Finished,
    ensures
        ({
            let asked = requests(from_cpan(j, version), replies);
            &&& asked[0] == RequestView::Search(find_query(version))
            &&& replies[0] matches ReplyView::Docs(docs) && docs.len() > 0 && installs_url(
                j.build,
                j.machine,
                distilled(docs[meant(docs, version)]).download_url,
                outcome(from_cpan(j, version), replies),
                asked,
                replies,
                1,
            )
        }),
{
    let step = from_cpan(j, version);
    lemma_goes_on(step, replies, 0);
    let docs = replies[0]->Docs_0;
    let url = distilled(docs[meant(docs, version)]).download_url;
    assert(reached(step, replies, 1) == from_url(step.0, url));
    lemma_installs_url(step, replies, 1, step.0, url);
}

// ---------------------------------------------------------------------------
// Where the commands run
// ---------------------------------------------------------------------------

/// The request is for no command, or for one that runs in `src` or in its
/// `win32` directory.
pub open spec fn stays_in(
    request: RequestView,
    src: Seq<char>,
    machine: Machine,
) -> bool {
    match request {
        RequestView::Run(command) => command.dir == Some(src) || command.dir == Some(
            joined_path(src, "win32"@, machine.platform),
        ),
        RequestView::Capture(_) => false,
        _ => true,
    }
}

/// The phases in which the source tree is known.
spec fn knows_source(phase: Phase) -> bool {
    ||| is_make_phase(phase)
    ||| is_nmake_phase(phase)
    ||| phase is FindingPrefix
    ||| phase is LookingForPatcher
    ||| phase is Patching
    ||| phase is PatchingInProcess
    ||| phase is Linking
    ||| phase is Finished
    ||| phase is Failed
}

proof fn lemma_stays(step: Step, replies: Seq<ReplyView>, n: nat, k: nat)
    requires
        n <= k <= replies.len(),
        knows_source(reached(step, replies, n).0.phase),
        stays_in(
            reached(step, replies, n).1,
            reached(step, replies, n).0.src,
            reached(step, replies, n).0.machine,
        ),
    ensures
        knows_source(reached(step, replies, k).0.phase),
        reached(step, replies, k).0.src == reached(step, replies, n).0.src,
        reached(step, replies, k).0.machine == reached(step, replies, n).0.machine,
        stays_in(
            reached(step, replies, k).1,
            reached(step, replies, n).0.src,
            reached(step, replies, n).0.machine,
        ),
    decreases k,
{
    if k > n {
        lemma_stays(step, replies, n, (k - 1) as nat);
    }
}

/// Once a tarball is unpacked, every command runs in the one directory at its
/// top, whether the install ends well or not, and no other is unpacked.
pub proof fn commands_stay_in_the_tree(
    j: JobView,
    src: Seq<char>,
    replies: Seq<ReplyView>,
    k: int,
)
    requires
        0 <= k <= replies.len(),
    ensures
        stays_in(requests(from_source(j, src), replies)[k], src, j.machine),
        outcome(from_source(j, src), replies).src == src,
{
    let step = from_source(j, src);
    assert(reached(step, replies, 0) == step);
    lemma_stays(step, replies, 0, k as nat);
    lemma_reached(step, replies, k as nat);
    lemma_stays(step, replies, 0, replies.len());
    lemma_reached(step, replies, replies.len());
}

/// An install from a tarball that ends well runs every command after the
/// unpacking in the directory at the top of that tarball.
pub proof fn tarball_commands_stay_in_the_tree(
    j: JobView,
    tarball: Seq<char>,
    replies: Seq<ReplyView>,
    k: int,
)
    requires
        j.goal is Install,
        outcome(from_tarball(j, tarball), replies).phase is Finished,
        4 < k <= replies.len(),
    ensures
        stays_in(
            requests(from_tarball(j, tarball), replies)[k],
            outcome(from_tarball(j, tarball), replies).src,
            j.machine,
        ),
{
    let step = from_tarball(j, tarball);
    lemma_goes_on(step, replies, 0);
    let start = step.0;
    let dir = match j.build.build_dir {
        Some(dir) => dir,
        None => replies[0]->Path_0,
    };
    assert(reached(step, replies, 1) == unpack(start, dir));
    lemma_unpacks(step, replies, 1, start, dir);
    lemma_stays(step, replies, 5, k as nat);
    lemma_reached(step, replies, k as nat);
    lemma_stays(step, replies, 5, replies.len());
    lemma_reached(step, replies, replies.len());
}

/// An install from a URL that ends well unpacks the file that it saved and no
/// other: its only commands on a tarball are the two on that file.
pub proof fn only_the_saved_file_is_unpacked(
    j: JobView,
    url: Seq<char>,
    replies: Seq<ReplyView>,
    k: int,
)
    requires
        j.goal is Install,
        outcome(from_url(j, url), replies).phase is Finished,
        7 < k <= replies.len(),
    ensures
        stays_in(
            requests(from_url(j, url), replies)[k],
            outcome(from_url(j, url), replies).src,
            j.machine,
        ),
{
    let step = from_url(j, url);
    lemma_goes_on(step, replies, 0);
    lemma_goes_on(step, replies, 1);
    lemma_goes_on(step, replies, 2);
    lemma_goes_on(step, replies, 3);
    let start = reached(step, replies, 3).0;
    let dir = match j.build.build_dir {
        Some(dir) => dir,
        None => replies[3]->Path_0,
    };
    assert(reached(step, replies, 4) == unpack(start, dir));
    lemma_unpacks(step, replies, 4, start, dir);
    lemma_stays(step, replies, 8, k as nat);
    lemma_reached(step, replies, k as nat);
    lemma_stays(step, replies, 8, replies.len());
    lemma_reached(step, replies, replies.len());
}

// ---------------------------------------------------------------------------
// The Perl that comes of it
// ---------------------------------------------------------------------------

/// A new job has the build, the machine and the goal that it is made with.
pub proof fn jobs_begin_with_their_build(
    build: PerlBuildView,
    machine: Machine,
    goal: Goal,
    tarball: Seq<char>,
)
    ensures
        blank_job(build, machine, goal).build == build,
        blank_job(build, machine, goal).machine == machine,
        blank_job(build, machine, goal).goal == goal,
        blank_job(build, machine, goal).failure is None,
        unpacking_job(tarball, machine).machine == machine,
        unpacking_job(tarball, machine).goal is Unpack,
        unpacking_job(tarball, machine).failure is None,
{
}

/// An install begins with the build that it is asked of, on the machine that it
/// is asked for.
pub proof fn installs_begin_with_their_build(
    build: PerlBuild,
    text: &str,
    machine: Machine,
    step: (Job, Request),
)
    requires
        ({
            ||| call_ensures(PerlBuild::install_from_cpan, (build, text, machine), step)
            ||| call_ensures(PerlBuild::install_from_url, (build, text, machine), step)
            ||| call_ensures(PerlBuild::install_from_tarball, (build, text, machine), step)
            ||| call_ensures(PerlBuild::install_from_source, (build, text, machine), step)
        }),
    ensures
        step.0@.build == build@,
        step.0@.machine == machine,
        step.0@.goal is Install,
        step.0@.failure is None,
{
}

/// What an install is asked for is what it goes by, whichever way it is asked.
pub proof fn installs_begin_with_what_is_asked(
    build: PerlBuild,
    text: &str,
    dest: &str,
    machine: Machine,
    step: (Job, Request),
)
    ensures
        call_ensures(PerlBuild::install_from_cpan, (build, text, machine), step) ==> step.0@.version
            == text@ && step.1@ == RequestView::Search(find_query(text@)),
        call_ensures(PerlBuild::install_from_url, (build, text, machine), step) ==> step.0@.url
            == text@ && (step.1@ is MakeDir || step.1@ is MakeTempDir),
        call_ensures(PerlBuild::install_from_tarball, (build, text, machine), step)
            ==> step.0@.tarball == text@ && (step.1@ is MakeDir || step.1@ is MakeTempDir),
        call_ensures(PerlBuild::install_from_source, (build, text, machine), step) ==> step.0@.src
            == text@ && step.1@ == RequestView::MakeAbsolute(build@.dst_path),
        call_ensures(extract_tarball, (text, dest, machine), step) ==> step.0@.tarball == text@
            && step.0@.dest == dest@ && step.0@.machine == machine && step.0@.goal is Unpack
            && step.1@ == RequestView::MakeDir(dest@),
{
}

/// The end of a job is a Perl, a source tree or an error: the Perl under the
/// prefix, the tree that was unpacked, or the error that the job stopped with,
/// and never two of them.
pub proof fn jobs_end_in_one_thing(
    job: Job,
    perl: Option<Built>,
    tree: Option<&str>,
    error: Option<&Error>,
)
    requires
        call_ensures(Job::built, (&job,), perl),
        call_ensures(Job::source, (&job,), tree),
        call_ensures(Job::failure, (&job,), error),
        well_formed(job@),
    ensures
        perl is Some <==> job@.phase is Finished && job@.goal is Install,
        tree is Some <==> job@.phase is Finished && job@.goal is Unpack,
        error is Some <==> job@.phase is Failed,
        perl matches Some(built) ==> built@.prefix == job@.prefix && built@.platform
            == job@.machine.platform,
        tree matches Some(path) ==> path@ == job@.src,
        error matches Some(e) ==> job@.failure == Some(e@),
{
}

/// The Perl is under the prefix that the job found, on the machine of the job.
pub proof fn the_perl_is_under_the_prefix(j: JobView)
    ensures
        built(j).prefix == j.prefix,
        built(j).platform == j.machine.platform,
{
}

// ---------------------------------------------------------------------------
// What goes wrong
// ---------------------------------------------------------------------------

/// A job in this phase that gets this reply stops with this error.
pub open spec fn stops_with(j: JobView, reply: ReplyView, error: ErrorView) -> bool {
    let (k, request) = next(j, reply);
    k.phase is Failed && k.failure == Some(error) && request is Nothing
}

/// A search that brings nothing is one for a release that is not there, and
/// says which version was asked for, as it was asked for.
pub proof fn nothing_found_is_an_error(j: JobView, version: Seq<char>, docs: Seq<ReleaseDoc>)
    ensures
        docs.len() == 0 ==> stops_with(
            from_cpan(j, version).0,
            ReplyView::Docs(docs),
            ErrorView::ReleaseNotFound(version),
        ),
        docs.len() > 0 ==> next(from_cpan(j, version).0, ReplyView::Docs(docs)).0.phase !is Failed,
{
}

/// A download is good with a status from 200 to 299, and with no other; what
/// is said of another is the URL and the status.
pub proof fn other_statuses_are_errors(j: JobView, status: u16)
    requires
        j.phase is Fetching,
    ensures
        200 <= status <= 299 ==> next(j, ReplyView::Status(status)).1 is Save,
        !(200 <= status <= 299) ==> stops_with(
            j,
            ReplyView::Status(status),
            ErrorView::Download { url: j.url, status },
        ),
{
}

/// The URL of a job is the one it was started with.
pub proof fn downloads_are_of_the_url(j: JobView, url: Seq<char>, reply: ReplyView)
    ensures
        next(from_url(j, url).0, reply).0.url == url,
        next(from_url(j, url).0, reply).0.phase is Failed || next(from_url(j, url).0, reply).1
            == RequestView::Fetch(url),
{
}

/// A tarball without one directory at its top is refused, by its own path,
/// before it is unpacked; any other is unpacked.
pub proof fn tarballs_need_one_root(j: JobView, stdout: Seq<u8>)
    requires
        j.phase is Listing,
    ensures
        (forall|root: Seq<char>| !is_sole_root(lossy(stdout), root)) ==> stops_with(
            j,
            ReplyView::Output { success: true, stdout },
            ErrorView::TarballLayout(j.tarball),
        ),
        (exists|root: Seq<char>| is_sole_root(lossy(stdout), root)) ==> next(
            j,
            ReplyView::Output { success: true, stdout },
        ).1 is Run,
{
}

/// A listing that fails, or cannot be made, is said to, by its command.
pub proof fn listings_that_fail_are_named(j: JobView, configured: Option<Seq<char>>, stdout: Seq<u8>)
    requires
        j.phase is NamingTar,
    ensures
        ({
            let (k, request) = next(j, ReplyView::Text(configured));
            &&& request matches RequestView::Capture(command) && stops_with(
                k,
                ReplyView::Output { success: false, stdout },
                ErrorView::Command(command.label),
            ) && stops_with(k, ReplyView::NotStarted, ErrorView::Spawn(command.label))
        }),
{
}

/// A tree without a makefile cannot be built with `nmake`, and the error says
/// which tree it is.
pub proof fn trees_without_a_makefile_are_refused(j: JobView)
    requires
        j.phase is CheckingMakefile,
    ensures
        stops_with(
            j,
            ReplyView::Flag(false),
            ErrorView::Other(
                "no win32\\Makefile under "@ + j.src
                    + " — an MSVC build needs a Windows Perl source tree"@,
            ),
        ),
        next(j, ReplyView::Flag(true)).0.phase !is Failed,
{
}

/// Work that fails is said to fail at what it failed at.
pub proof fn failures_keep_their_cause(j: JobView)
    requires
        !is_over(j),
    ensures
        stops_with(j, ReplyView::Failed(Cause::Io), ErrorView::Io),
        stops_with(j, ReplyView::Failed(Cause::Http), ErrorView::Http),
        stops_with(j, ReplyView::Failed(Cause::Metacpan), ErrorView::Metacpan),
        stops_with(j, ReplyView::Failed(Cause::PatchPerl), ErrorView::PatchPerl),
{
}

} // verus!
