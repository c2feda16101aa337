//! What the command lines, the options and the paths say, word by word.

use crate::archive::{flag_for, flag_of};
use crate::built::{
    base_name, env_changes, is_base_len, is_search_path, joins, link_plan, links_for, version_at,
    writes, Built, BuiltView,
};
use crate::commands::{
    configure_command, given, hidden_variables, install_command, list_command, make_command,
    nmake_command, nmake_install_command, nmake_test_command, patch_command, test_command,
    unpack_command, CommandView,
};
use crate::config::{
    any_begins_with, any_holds, configure_arguments, default_build, toolchain_on, PatchPerl,
    PerlBuild, PerlBuildView, Toolchain,
};
use crate::meaning::trimming_cuts_white_space;
use crate::paths::{
    absolute_form, can_run, drive_of, has_drive, has_root, is_absolute, is_verbatim, joined_path,
    last_name, name_len, names, path_names, platform_with, prefix_len, separates, temp_name,
    Platform,
};
use crate::text::{decimal, holds, is_white, joined, lowered, trimmed, words};
use vstd::prelude::*;

verus! {

// ---------------------------------------------------------------------------
// The commands of a build
// ---------------------------------------------------------------------------

/// The command is one of the build itself: it runs in `dir`, without what an
/// outer Perl has set.
pub open spec fn runs_in(command: CommandView, dir: Seq<char>, platform: Platform) -> bool {
    &&& command.dir == Some(dir)
    &&& command.unset.contains("PERL5LIB"@)
    &&& command.unset.contains("PERL5OPT"@)
    &&& platform is Windows <==> command.unset.contains("NoDefaultCurrentDirectoryInExePath"@)
    &&& command.unset.len() == if platform is Windows {
        3int
    } else {
        2int
    }
}

proof fn lemma_hidden(platform: Platform)
    ensures
        hidden_variables(platform).contains("PERL5LIB"@),
        hidden_variables(platform).contains("PERL5OPT"@),
        platform is Windows <==> hidden_variables(platform).contains(
            "NoDefaultCurrentDirectoryInExePath"@,
        ),
{
    reveal_strlit("PERL5LIB");
    reveal_strlit("PERL5OPT");
    reveal_strlit("NoDefaultCurrentDirectoryInExePath");
    let hidden = hidden_variables(platform);
    assert(hidden[0] == "PERL5LIB"@);
    assert(hidden[1] == "PERL5OPT"@);
    assert("PERL5LIB"@.len() == 8 && "PERL5OPT"@.len() == 8);
    assert("NoDefaultCurrentDirectoryInExePath"@.len() == 34);
    if platform is Windows {
        assert(hidden[2] == "NoDefaultCurrentDirectoryInExePath"@);
    }
}

/// `Configure` is a script for `sh`, and gets the options as they are; the
/// reader is told of all of them.
pub proof fn configure_gets_the_options(
    src: Seq<char>,
    options: Seq<Seq<char>>,
    platform: Platform,
    i: int,
)
    ensures
        ({
            let c = configure_command(src, options, platform);
            &&& runs_in(c, src, platform)
            &&& c.program == "sh"@
            &&& c.args.len() == options.len() + 1
            &&& c.args[0] == "Configure"@
            &&& 0 <= i < options.len() ==> c.args[i + 1] == options[i]
            &&& c.set.len() == 0
            &&& c.label == "sh Configure "@ + joined(options, " "@)
        }),
{
    lemma_hidden(platform);
}

/// The words of the options are the last arguments of `make`, all of them and
/// in order. What stands before them is `-j` and the number of jobs where one is
/// set, and nothing where none is.
pub proof fn make_gets_jobs_and_options(
    src: Seq<char>,
    jobs: Option<usize>,
    text: Seq<char>,
    platform: Platform,
)
    ensures
        ({
            let c = make_command(src, jobs, Some(text), platform);
            let front = c.args.len() - words(text).len();
            &&& runs_in(c, src, platform)
            &&& c.program == "make"@
            &&& front == if jobs is Some {
                2int
            } else {
                0int
            }
            &&& c.args.skip(front) == words(text)
            &&& jobs matches Some(n) ==> c.args[0] == "-j"@ && c.args[1] == decimal(n as nat)
            &&& c.set.len() == 0
            &&& c.label == "make"@
        }),
        ({
            let c = make_command(src, jobs, None, platform);
            &&& runs_in(c, src, platform)
            &&& c.program == "make"@
            &&& jobs is None ==> c.args.len() == 0
            &&& jobs matches Some(n) ==> c.args =~= seq!["-j"@, decimal(n as nat)]
            &&& c.set.len() == 0
            &&& c.label == "make"@
        }),
{
    lemma_hidden(platform);
    let c = make_command(src, jobs, Some(text), platform);
    let front = c.args.len() - words(text).len();
    assert(c.args.skip(front) =~= words(text));
}

/// The tests of a Perl are one target of `make`, and are told of the jobs by
/// `TEST_JOBS`.
pub proof fn tests_are_one_target(
    src: Seq<char>,
    jobs: Option<usize>,
    harness: bool,
    platform: Platform,
)
    ensures
        ({
            let c = test_command(src, jobs, harness, platform);
            &&& runs_in(c, src, platform)
            &&& c.program == "make"@
            &&& c.args.len() == 1
            &&& harness ==> c.args[0] == "test_harness"@ && c.label == "make "@ + "test_harness"@
            &&& !harness ==> c.args[0] == "test"@ && c.label == "make "@ + "test"@
            &&& jobs is None ==> c.set.len() == 0
            &&& jobs matches Some(n) ==> c.set.len() == 1 && c.set[0] == (
                "TEST_JOBS"@,
                decimal(n as nat),
            )
        }),
{
    lemma_hidden(platform);
}

/// `make install` gets the words of the options behind `install`.
pub proof fn install_gets_the_options(
    src: Seq<char>,
    options: Option<Seq<char>>,
    platform: Platform,
)
    ensures
        ({
            let c = install_command(src, options, platform);
            &&& runs_in(c, src, platform)
            &&& c.program == "make"@
            &&& c.args.len() > 0
            &&& c.args[0] == "install"@
            &&& options is None ==> c.args.len() == 1
            &&& options matches Some(text) ==> c.args.skip(1) == words(text)
            &&& c.set.len() == 0
            &&& c.label == "make install"@
        }),
{
    lemma_hidden(platform);
    if let Some(text) = options {
        assert(install_command(src, options, platform).args.skip(1) =~= words(text));
    }
}

/// Every `nmake` gets the macros first. The first gets the words of its options
/// behind them, the second `test`, and the third `install` and the words of its
/// own; only the tests are told of the jobs, by `TEST_JOBS` and
/// `HARNESS_OPTIONS`.
pub proof fn nmake_gets_macros_first(
    nmake: Seq<char>,
    dir: Seq<char>,
    macros: Seq<Seq<char>>,
    options: Option<Seq<char>>,
    jobs: Option<usize>,
    platform: Platform,
)
    ensures
        ({
            let m = macros.len() as int;
            let a = nmake_command(nmake, dir, macros, options, platform);
            let b = nmake_test_command(nmake, dir, macros, jobs, platform);
            let c = nmake_install_command(nmake, dir, macros, options, platform);
            &&& runs_in(a, dir, platform) && runs_in(b, dir, platform) && runs_in(c, dir, platform)
            &&& a.program == nmake && b.program == nmake && c.program == nmake
            &&& a.args.len() >= m && b.args.len() == m + 1 && c.args.len() >= m + 1
            &&& a.args.take(m) == macros && b.args.take(m) == macros && c.args.take(m) == macros
            &&& b.args[m] == "test"@
            &&& c.args[m] == "install"@
            &&& options is None ==> a.args.len() == m && c.args.len() == m + 1
            &&& options matches Some(text) ==> a.args.skip(m) == words(text) && c.args.skip(m + 1)
                == words(text)
            &&& a.set.len() == 0 && c.set.len() == 0
            &&& jobs is None ==> b.set.len() == 0
            &&& jobs matches Some(n) ==> b.set =~= seq![
                ("TEST_JOBS"@, decimal(n as nat)),
                ("HARNESS_OPTIONS"@, "j"@ + decimal(n as nat)),
            ]
            &&& a.label == nmake + " "@ + joined(macros, " "@)
            &&& b.label == nmake + " test"@
            &&& c.label == nmake + " install"@
        }),
{
    lemma_hidden(platform);
    let m = macros.len() as int;
    let a = nmake_command(nmake, dir, macros, options, platform);
    let b = nmake_test_command(nmake, dir, macros, jobs, platform);
    let c = nmake_install_command(nmake, dir, macros, options, platform);
    assert(a.args.take(m) =~= macros);
    assert(b.args.take(m) =~= macros);
    assert(c.args.take(m) =~= macros);
    if let Some(text) = options {
        assert(a.args.skip(m) =~= words(text));
        assert(c.args.skip(m + 1) =~= words(text));
    }
}

/// The external `patchperl` runs in the source tree without arguments.
pub proof fn patchperl_gets_no_arguments(
    program: Seq<char>,
    src: Seq<char>,
    platform: Platform,
)
    ensures
        ({
            let c = patch_command(program, src, platform);
            &&& runs_in(c, src, platform)
            &&& c.program == program
            &&& c.args.len() == 0
            &&& c.set.len() == 0
            &&& c.label == program + " (patchperl)"@
        }),
{
    lemma_hidden(platform);
}

/// The value of a variable counts where there is anything in it, and counts as
/// it is.
pub proof fn blank_values_do_not_count(value: Seq<char>)
    ensures
        given(None) is None,
        given(Some(value)) is None <==> forall|i: int|
            0 <= i < value.len() ==> is_white(#[trigger] value[i]),
        given(Some(value)) is Some ==> given(Some(value)) == Some(value),
{
    trimming_cuts_white_space(value);
    let (a, b) = choose|a: int, b: int|
        {
            &&& 0 <= a <= b <= value.len()
            &&& trimmed(value) == #[trigger] value.subrange(a, b)
            &&& forall|n: int|
                0 <= n < value.len() && !(a <= n < b) ==> is_white(#[trigger] value[n])
            &&& a < b ==> !is_white(value[a]) && !is_white(value[b - 1])
        };
    if a < b {
        assert(!is_white(value[a]));
    }
}

// ---------------------------------------------------------------------------
// Tarballs
// ---------------------------------------------------------------------------

/// `tar` is told how the tarball is compressed, by its first argument `flag`.
pub open spec fn tar_is_told(tar: Seq<char>, tarball: Seq<char>, flag: Seq<char>, platform: Platform) -> bool {
    &&& list_command(tar, tarball, platform).args.len() == 3
    &&& list_command(tar, tarball, platform).args[0] == flag
    &&& unpack_command(tar, tarball, seq![], platform).args.len() == 5
    &&& unpack_command(tar, tarball, seq![], platform).args[0] == flag
}

proof fn lemma_ends(name: Seq<char>, end: Seq<char>, other: Seq<char>, k: int)
    requires
        end.is_suffix_of(name),
        0 < k <= end.len(),
        k <= other.len(),
        end[end.len() - k] != other[other.len() - k],
    ensures
        !other.is_suffix_of(name),
{
    if other.is_suffix_of(name) {
        let n = name.len() as int;
        assert(name.subrange(n - end.len(), n)[end.len() - k] == name[n - k]);
        assert(name.subrange(n - other.len(), n)[other.len() - k] == name[n - k]);
    }
}

proof fn lemma_shorter_end(name: Seq<char>, end: Seq<char>, k: int)
    requires
        end.is_suffix_of(name),
        0 <= k <= end.len(),
    ensures
        end.skip(k).is_suffix_of(name),
{
    let n = name.len() as int;
    assert(name.subrange(n - (end.len() - k), n) =~= name.subrange(n - end.len(), n).skip(k));
}

/// Both `tar` commands are told the compression that the name of the tarball
/// says, in whatever letters: `-z` for `.tar.gz` and `.tgz`, `-j` for
/// `.tar.bz2`, `.tbz` and `.tbz2`, `-J` for `.tar.xz` and `.txz`, and nothing for
/// `.tar`. A name that says nothing counts as the first.
pub proof fn tar_is_told_the_compression(
    tar: Seq<char>,
    tarball: Seq<char>,
    name: Seq<char>,
    platform: Platform,
)
    requires
        last_name(tarball, platform) == Some(name),
    ensures
        ({
            let low = lowered(name);
            let gz = ".tar.gz"@.is_suffix_of(low) || ".tgz"@.is_suffix_of(low) || ".gz"@.is_suffix_of(
                low,
            );
            let bz2 = ".tar.bz2"@.is_suffix_of(low) || ".tbz"@.is_suffix_of(low)
                || ".tbz2"@.is_suffix_of(low) || ".bz2"@.is_suffix_of(low);
            let xz = ".tar.xz"@.is_suffix_of(low) || ".txz"@.is_suffix_of(low)
                || ".xz"@.is_suffix_of(low);
            let plain = ".tar"@.is_suffix_of(low);
            &&& gz ==> tar_is_told(tar, tarball, "-z"@, platform)
            &&& bz2 ==> tar_is_told(tar, tarball, "-j"@, platform)
            &&& xz ==> tar_is_told(tar, tarball, "-J"@, platform)
            &&& plain ==> list_command(tar, tarball, platform).args.len() == 2 && unpack_command(
                tar,
                tarball,
                seq![],
                platform,
            ).args.len() == 4
            &&& !gz && !bz2 && !xz && !plain ==> tar_is_told(tar, tarball, "-z"@, platform)
        }),
{
    let low = lowered(name);
    reveal_strlit(".tar.gz");
    reveal_strlit(".tgz");
    reveal_strlit(".gz");
    reveal_strlit(".tar.bz2");
    reveal_strlit(".tbz");
    reveal_strlit(".tbz2");
    reveal_strlit(".bz2");
    reveal_strlit(".tar.xz");
    reveal_strlit(".txz");
    reveal_strlit(".xz");
    reveal_strlit(".tar");
    assert(".gz"@ =~= seq!['.', 'g', 'z']);
    assert(".tgz"@ =~= seq!['.', 't', 'g', 'z']);
    assert(".bz2"@ =~= seq!['.', 'b', 'z', '2']);
    assert(".tbz"@ =~= seq!['.', 't', 'b', 'z']);
    assert(".tbz2"@ =~= seq!['.', 't', 'b', 'z', '2']);
    assert(".xz"@ =~= seq!['.', 'x', 'z']);
    assert(".txz"@ =~= seq!['.', 't', 'x', 'z']);
    assert(".tar"@ =~= seq!['.', 't', 'a', 'r']);
    assert(".tar.gz"@.skip(4) =~= ".gz"@);
    assert(".tar.bz2"@.skip(4) =~= ".bz2"@);
    assert(".tar.xz"@.skip(4) =~= ".xz"@);
    if ".tar.gz"@.is_suffix_of(low) {
        lemma_shorter_end(low, ".tar.gz"@, 4);
    }
    if ".tar.bz2"@.is_suffix_of(low) {
        lemma_shorter_end(low, ".tar.bz2"@, 4);
    }
    if ".tar.xz"@.is_suffix_of(low) {
        lemma_shorter_end(low, ".tar.xz"@, 4);
    }
    if ".bz2"@.is_suffix_of(low) {
        lemma_ends(low, ".bz2"@, ".gz"@, 1);
        lemma_ends(low, ".bz2"@, ".tgz"@, 1);
    }
    if ".tbz"@.is_suffix_of(low) {
        lemma_ends(low, ".tbz"@, ".gz"@, 2);
        lemma_ends(low, ".tbz"@, ".tgz"@, 2);
    }
    if ".tbz2"@.is_suffix_of(low) {
        lemma_ends(low, ".tbz2"@, ".gz"@, 1);
        lemma_ends(low, ".tbz2"@, ".tgz"@, 1);
    }
    if ".xz"@.is_suffix_of(low) {
        lemma_ends(low, ".xz"@, ".gz"@, 2);
        lemma_ends(low, ".xz"@, ".tgz"@, 2);
        lemma_ends(low, ".xz"@, ".bz2"@, 1);
        lemma_ends(low, ".xz"@, ".tbz"@, 2);
        lemma_ends(low, ".xz"@, ".tbz2"@, 1);
    }
    if ".txz"@.is_suffix_of(low) {
        lemma_ends(low, ".txz"@, ".gz"@, 2);
        lemma_ends(low, ".txz"@, ".tgz"@, 2);
        lemma_ends(low, ".txz"@, ".bz2"@, 1);
        lemma_ends(low, ".txz"@, ".tbz"@, 2);
        lemma_ends(low, ".txz"@, ".tbz2"@, 1);
    }
    if ".tar"@.is_suffix_of(low) {
        lemma_ends(low, ".tar"@, ".gz"@, 1);
        lemma_ends(low, ".tar"@, ".tgz"@, 1);
        lemma_ends(low, ".tar"@, ".bz2"@, 1);
        lemma_ends(low, ".tar"@, ".tbz"@, 1);
        lemma_ends(low, ".tar"@, ".tbz2"@, 1);
        lemma_ends(low, ".tar"@, ".xz"@, 1);
        lemma_ends(low, ".tar"@, ".txz"@, 1);
    }
}

/// What `tar` is told besides is to list the tarball, and to unpack it into the
/// directory; a path without a name counts as compressed with gzip. It runs
/// where the caller does, with the caller's environment.
pub proof fn tar_lists_and_unpacks(
    tar: Seq<char>,
    tarball: Seq<char>,
    dest: Seq<char>,
    platform: Platform,
)
    ensures
        ({
            let a = list_command(tar, tarball, platform);
            let b = unpack_command(tar, tarball, dest, platform);
            let n = a.args.len() as int;
            &&& 2 <= n <= 3 && b.args.len() == n + 2
            &&& n == 3 ==> a.args[0] == b.args[0]
            &&& a.args.skip(n - 2) =~= seq!["-tf"@, tarball]
            &&& b.args.skip(n - 2) =~= seq!["-xf"@, tarball, "-C"@, dest]
            &&& a.program == tar && b.program == tar
            &&& a.dir is None && b.dir is None
            &&& a.unset.len() == 0 && b.unset.len() == 0
            &&& a.set.len() == 0 && b.set.len() == 0
            &&& a.label == tar + " -tf "@ + tarball
            &&& b.label == tar + " -xf "@ + tarball + " -C "@ + dest
            &&& last_name(tarball, platform) is None ==> n == 3 && a.args[0] == "-z"@
        }),
{
    reveal_strlit(".tar");
    reveal_strlit(".bz2");
    reveal_strlit(".tbz");
    reveal_strlit(".tbz2");
    reveal_strlit(".xz");
    reveal_strlit(".txz");
    assert(flag_for(seq![]) == Some("-z"@));
    assert(last_name(tarball, platform) is None ==> flag_of(tarball, platform) == Some("-z"@));
}

// ---------------------------------------------------------------------------
// Options and toolchains
// ---------------------------------------------------------------------------

/// Options that the build gives for the prefix or for the scripts are the only
/// ones of their kind, and all that is added is the one of each that is
/// missing.
pub proof fn only_missing_options_are_added(options: Seq<Seq<char>>, dst: Seq<char>)
    ensures
        ({
            let all = configure_arguments(options, dst);
            let prefix = any_begins_with(options, "-Dprefix="@);
            let scripts = any_holds(options, "scriptdir"@);
            let first = seq!["-Dprefix="@ + dst];
            let last = seq!["-Aeval:scriptdir="@ + dst + "/bin"@];
            &&& prefix && scripts ==> all =~= options
            &&& prefix && !scripts ==> all =~= options + last
            &&& !prefix && scripts ==> all =~= first + options
            &&& !prefix && !scripts ==> all =~= first + options + last
        }),
{
}

/// An option counts wherever it stands among the others.
pub proof fn options_count_anywhere(
    a: Seq<Seq<char>>,
    b: Seq<Seq<char>>,
    option: Seq<char>,
    part: Seq<char>,
)
    ensures
        any_begins_with(a + b, part) <==> any_begins_with(a, part) || any_begins_with(b, part),
        any_holds(a + b, part) <==> any_holds(a, part) || any_holds(b, part),
        any_begins_with(seq![option], part) <==> part.is_prefix_of(option),
        any_holds(seq![option], part) <==> holds(option, part),
{
    let all = a + b;
    let n = a.len() as int;
    if any_begins_with(all, part) {
        let i = choose|i: int| 0 <= i < all.len() && part.is_prefix_of(#[trigger] all[i]);
        if i < n {
            assert(a[i] == all[i]);
        } else {
            assert(b[i - n] == all[i]);
        }
    }
    if any_begins_with(a, part) {
        let i = choose|i: int| 0 <= i < n && part.is_prefix_of(#[trigger] a[i]);
        assert(all[i] == a[i]);
    }
    if any_begins_with(b, part) {
        let i = choose|i: int| 0 <= i < b.len() && part.is_prefix_of(#[trigger] b[i]);
        assert(all[n + i] == b[i]);
    }
    if any_holds(all, part) {
        let i = choose|i: int| 0 <= i < all.len() && holds(#[trigger] all[i], part);
        if i < n {
            assert(a[i] == all[i]);
        } else {
            assert(b[i - n] == all[i]);
        }
    }
    if any_holds(a, part) {
        let i = choose|i: int| 0 <= i < n && holds(#[trigger] a[i], part);
        assert(all[i] == a[i]);
    }
    if any_holds(b, part) {
        let i = choose|i: int| 0 <= i < b.len() && holds(#[trigger] b[i], part);
        assert(all[n + i] == b[i]);
    }
    assert(seq![option][0] == option);
}

/// A toolchain that was chosen is used everywhere; left open, it is Visual C++
/// on Windows and `Configure` elsewhere.
pub proof fn toolchains_are_chosen_or_follow_the_platform(
    toolchain: Toolchain,
    platform: Platform,
)
    ensures
        toolchain !is Auto ==> toolchain_on(toolchain, platform) == toolchain,
        toolchain is Auto && platform is Windows ==> toolchain_on(toolchain, platform) is Msvc,
        toolchain is Auto && platform is Posix ==> toolchain_on(toolchain, platform)
            is GnuConfigure,
{
}

// ---------------------------------------------------------------------------
// Paths
// ---------------------------------------------------------------------------

/// A single name: no separator, no drive, and something in it.
pub open spec fn is_plain(name: Seq<char>) -> bool {
    &&& name.len() > 0
    &&& !name.contains('/')
    &&& !name.contains('\\')
    &&& !name.contains(':')
}

proof fn lemma_plain(name: Seq<char>, platform: Platform)
    requires
        is_plain(name),
    ensures
        prefix_len(name, platform) == 0,
        !has_root(name, platform),
        forall|i: int| 0 <= i < name.len() ==> !separates(#[trigger] name[i], platform, false),
{
    assert forall|i: int| 0 <= i < name.len() implies !separates(
        #[trigger] name[i],
        platform,
        false,
    ) by {
        assert(name.contains(name[i]));
    }
    assert(!separates(name[0], platform, false));
    assert(name[0] != '\\' && name[0] != '/') by {
        assert(name.contains(name[0]));
    }
    if name.len() >= 2 {
        assert(name[1] != ':') by {
            assert(name.contains(name[1]));
        }
    }
    assert(name.skip(0) =~= name);
}

/// On Posix, what does not begin with `/` stands behind the directory, with one
/// `/` between the two, which is not put where the directory ends with one or
/// is empty.
pub proof fn posix_entries_stand_behind_a_slash(base: Seq<char>, name: Seq<char>)
    requires
        name.len() > 0 ==> name[0] != '/',
    ensures
        joined_path(base, name, Platform::Posix) == if base.len() == 0 || base.last() == '/' {
            base + name
        } else {
            base + seq!['/'] + name
        },
{
    assert(name.skip(0) =~= name);
    assert(base.push('/') + name =~= base + seq!['/'] + name);
}

/// An entry of a directory is the directory, one separator, and the name; the
/// separator is that of the platform, and is not put where the directory ends
/// with one, is empty, or is a drive. A verbatim Windows path is another matter.
pub proof fn entries_stand_behind_a_separator(base: Seq<char>, name: Seq<char>)
    requires
        is_plain(name),
    ensures
        joined_path(base, name, Platform::Posix) == if base.len() == 0 || base.last() == '/' {
            base + name
        } else {
            base + seq!['/'] + name
        },
        !"\\\\?\\"@.is_prefix_of(base) ==> joined_path(base, name, Platform::Windows) == if base.len()
            == 0 || base.last() == '/' || base.last() == '\\' || (base.len() == 2 && base[1] == ':'
            && ('a' <= base[0] <= 'z' || 'A' <= base[0] <= 'Z')) {
            base + name
        } else {
            base + seq!['\\'] + name
        },
{
    lemma_plain(name, Platform::Posix);
    lemma_plain(name, Platform::Windows);
    assert(base.push('/') + name =~= base + seq!['/'] + name);
    assert(base.push('\\') + name =~= base + seq!['\\'] + name);
}

/// A drive is a letter and a colon, and what separates is `/`, and on Windows
/// `\` too.
pub proof fn drives_and_separators(s: Seq<char>, c: char)
    ensures
        has_drive(s) <==> s.len() >= 2 && ('a' <= s[0] <= 'z' || 'A' <= s[0] <= 'Z') && s[1] == ':',
        separates(c, Platform::Posix, false) <==> c == '/',
        separates(c, Platform::Windows, false) <==> c == '/' || c == '\\',
        separates(c, Platform::Windows, true) <==> c == '\\',
{
}

/// An entry of a verbatim directory on a drive is behind one `\`, and what was
/// there stays, but for separators that nothing stands between.
pub proof fn verbatim_entries_stand_behind_a_backslash(
    letter: char,
    dir: Seq<char>,
    name: Seq<char>,
)
    requires
        'a' <= letter <= 'z' || 'A' <= letter <= 'Z',
        is_plain(dir),
        is_plain(name),
        name != "."@ && name != ".."@,
    ensures
        joined_path(
            "\\\\?\\"@ + seq![letter, ':', '\\'] + dir,
            name,
            Platform::Windows,
        ) == "\\\\?\\"@ + seq![letter, ':', '\\'] + dir + seq!['\\'] + name,
{
    let windows = Platform::Windows;
    reveal_strlit("\\\\?\\");
    reveal_strlit("\\");
    reveal_strlit("UNC");
    let base = "\\\\?\\"@ + seq![letter, ':', '\\'] + dir;
    lemma_plain(name, windows);
    assert(base.subrange(0, 4) =~= "\\\\?\\"@);
    assert(base.skip(4)[0] == letter && base.skip(4)[1] == ':' && base.skip(4)[2] == '\\');
    if base.len() >= 8 {
        assert(base.subrange(4, 7)[1] == ':');
        assert("UNC"@[1] == 'N');
    }
    assert(prefix_len(base, windows) == 6);
    assert(base.skip(6)[0] == '\\');
    assert(base.skip(7) =~= dir);
    assert forall|i: int| 0 <= i < dir.len() implies !separates(#[trigger] dir[i], windows, true) by {
        assert(dir.contains(dir[i]));
    }
    lemma_verbatim_name(dir);
    assert(path_names(base, windows) =~= seq![dir]);
    lemma_one_name(name, windows);
    assert(name.skip(0) =~= name);
    assert(!is_verbatim(name, windows)) by {
        if is_verbatim(name, windows) {
            assert(name.subrange(0, 4)[0] == '\\');
            assert(name[0] == '\\');
            assert(name.contains('\\'));
        }
    }
    assert(path_names(name, windows) =~= seq![name]);
    let all = seq![dir].push(name);
    assert(seq![name].skip(1) =~= seq![]);
    assert(crate::paths::walked(all, seq![name].skip(1)) == all);
    assert(crate::paths::walked(seq![dir], seq![name]) == all);
    assert(all.drop_last() =~= seq![dir]);
    assert(joined(seq![dir], "\\"@) == dir);
    assert(joined(all, "\\"@) == dir + "\\"@ + name);
    assert(base.take(6) + "\\"@ + (dir + "\\"@ + name) =~= base + seq!['\\'] + name);
}

proof fn lemma_verbatim_name(name: Seq<char>)
    requires
        name.len() > 0,
        forall|i: int|
            0 <= i < name.len() ==> !separates(#[trigger] name[i], Platform::Windows, true),
    ensures
        names(name, Platform::Windows, true) == seq![name],
{
    lemma_whole_verbatim_name(name);
    assert(name.take(name.len() as int) =~= name);
    assert(names(name, Platform::Windows, true) =~= seq![name]);
}

proof fn lemma_whole_verbatim_name(name: Seq<char>)
    requires
        forall|i: int|
            0 <= i < name.len() ==> !separates(#[trigger] name[i], Platform::Windows, true),
    ensures
        name_len(name, Platform::Windows, true) == name.len(),
    decreases name.len(),
{
    if name.len() > 0 {
        assert(!separates(name[0], Platform::Windows, true));
        assert forall|i: int| 0 <= i < name.skip(1).len() implies !separates(
            #[trigger] name.skip(1)[i],
            Platform::Windows,
            true,
        ) by {
            assert(name.skip(1)[i] == name[i + 1]);
        }
        lemma_whole_verbatim_name(name.skip(1));
    }
}

/// On Windows, what begins neither with a separator nor with a drive stands
/// behind the directory in the same way, whatever it is made of.
pub proof fn windows_entries_stand_behind_a_backslash(base: Seq<char>, name: Seq<char>)
    requires
        name.len() > 0 ==> name[0] != '/' && name[0] != '\\',
        !(name.len() >= 2 && name[1] == ':' && ('a' <= name[0] <= 'z' || 'A' <= name[0] <= 'Z')),
        !"\\\\?\\"@.is_prefix_of(base),
    ensures
        joined_path(base, name, Platform::Windows) == if base.len() == 0 || base.last() == '/'
            || base.last() == '\\' || (base.len() == 2 && base[1] == ':' && ('a' <= base[0] <= 'z'
            || 'A' <= base[0] <= 'Z')) {
            base + name
        } else {
            base + seq!['\\'] + name
        },
{
    assert(name.skip(0) =~= name);
    assert(prefix_len(name, Platform::Windows) == 0);
    assert(base.push('\\') + name =~= base + seq!['\\'] + name);
}

/// A share is the prefix of what stands on it: a path on a share is absolute,
/// stands by itself wherever it is seen from, and is where a path is that has
/// only a root.
pub proof fn shares_are_prefixes(
    server: Seq<char>,
    share: Seq<char>,
    tail: Seq<char>,
    base: Seq<char>,
    name: Seq<char>,
)
    requires
        is_plain(server) && server != "?"@ && server != "."@,
        is_plain(share),
        is_plain(name),
        tail.len() > 0 ==> tail[0] == '\\' || tail[0] == '/',
    ensures
        ({
            let windows = Platform::Windows;
            let own = seq!['\\', '\\'] + server + seq!['\\'] + share;
            &&& prefix_len(own + tail, windows) == own.len()
            &&& is_absolute(own + tail, windows)
            &&& joined_path(base, own + tail, windows) == own + tail
            &&& joined_path(own + tail, seq!['\\'] + name, windows) == own + seq!['\\'] + name
        }),
{
    let windows = Platform::Windows;
    reveal_strlit("\\\\?\\");
    reveal_strlit("?");
    reveal_strlit(".");
    let own = seq!['\\', '\\'] + server + seq!['\\'] + share;
    let path = own + tail;
    lemma_plain(server, windows);
    lemma_plain(share, windows);
    assert(path[0] == '\\' && path[1] == '\\' && path[2] == server[0]);
    assert(!"\\\\?\\"@.is_prefix_of(path)) by {
        if "\\\\?\\"@.is_prefix_of(path) {
            assert(path.subrange(0, 4)[2] == '?' && path.subrange(0, 4)[3] == '\\');
            assert(path[2] == '?' && path[3] == '\\');
            if server.len() > 1 {
                assert(server[1] == path[3]);
                assert(server.contains('\\'));
            }
            assert(server =~= "?"@);
        }
    }
    assert(!(path.len() >= 4 && path[2] == '.' && separates(path[3], windows, false))) by {
        if path.len() >= 4 && path[2] == '.' && separates(path[3], windows, false) {
            if server.len() > 1 {
                assert(server[1] == path[3]);
                assert(separates(server[1], windows, false));
            }
            assert(server =~= "."@);
        }
    }
    let rest = path.skip(2);
    let behind = share + tail;
    assert(rest =~= server.push('\\') + behind);
    lemma_name_len_of_sum(server, '\\', behind, windows);
    lemma_whole_name(server, windows);
    assert(rest.skip(server.len() as int + 1) =~= behind);
    lemma_whole_name(share, windows);
    if tail.len() > 0 {
        lemma_name_len_of_sum(share, tail[0], tail.skip(1), windows);
        assert(behind =~= share.push(tail[0]) + tail.skip(1));
    } else {
        assert(behind =~= share);
    }
    let rooted = seq!['\\'] + name;
    assert(rooted.skip(0) =~= rooted);
    if rooted.len() >= 2 {
        assert(rooted[1] == name[0]);
        lemma_plain(name, windows);
    }
    assert(prefix_len(rooted, windows) == 0);
    assert(path.take(own.len() as int) =~= own);
    assert(own + rooted =~= own + seq!['\\'] + name);
}

/// A verbatim drive is a drive too, and is given with a capital.
pub proof fn verbatim_drives_are_drives(letter: char, tail: Seq<char>)
    requires
        'a' <= letter <= 'z' || 'A' <= letter <= 'Z',
        tail.len() > 0 ==> tail[0] == '\\' || tail[0] == '/',
    ensures
        ({
            let path = "\\\\?\\"@ + seq![letter, ':'] + tail;
            let capital = if letter >= 'a' {
                (letter as u32 - 32) as char
            } else {
                letter
            };
            &&& drive_of(path, Platform::Windows) == Some(seq![capital, ':'])
            &&& drive_of(path, Platform::Posix) is None
            &&& prefix_len(path, Platform::Windows) == 6
            &&& is_absolute(path, Platform::Windows)
        }),
{
    reveal_strlit("\\\\?\\");
    reveal_strlit("UNC");
    let path = "\\\\?\\"@ + seq![letter, ':'] + tail;
    assert(path.subrange(0, 4) =~= "\\\\?\\"@);
    assert(path.skip(4) =~= seq![letter, ':'] + tail);
    if path.len() >= 8 {
        assert(path.subrange(4, 7)[1] == ':');
        assert("UNC"@[1] == 'N');
    }
}

/// A path with a root of its own, or a drive, stands by itself wherever it is
/// seen from; and on Windows one with a root but no drive is on the drive that
/// it is seen from.
pub proof fn own_paths_stand_by_themselves(base: Seq<char>, name: Seq<char>)
    ensures
        name.len() > 0 && name[0] == '/' ==> joined_path(base, name, Platform::Posix) == name,
        has_drive(name) ==> joined_path(base, name, Platform::Windows) == name,
        base.len() == 0 || (base[0] != '\\' && base[0] != '/' && !has_drive(base)) ==> (name.len()
            > 0 && (name[0] == '\\' || name[0] == '/') ==> joined_path(
            base,
            name,
            Platform::Windows,
        ) == name),
        has_drive(base) && name.len() > 0 && (name[0] == '\\' || name[0] == '/') && (name.len() == 1
            || (name[1] != '\\' && name[1] != '/')) ==> joined_path(base, name, Platform::Windows)
            == base.take(2) + name,
{
    assert(name.skip(0) =~= name);
    assert(base.take(0) + name =~= name);
    if base.len() == 0 || base[0] != '\\' {
        assert(!is_verbatim(base, Platform::Windows)) by {
            reveal_strlit("\\\\?\\");
            if is_verbatim(base, Platform::Windows) {
                assert(base.subrange(0, 4)[0] == '\\');
            }
        }
    }
}

/// A Posix path is absolute where it begins with `/`; a Windows path, where a
/// separator follows its drive. A path that is not is seen from the current
/// directory, and one that is stays as it is.
pub proof fn relative_paths_are_seen_from_the_directory(
    path: Seq<char>,
    dir: Seq<char>,
    platform: Platform,
)
    ensures
        is_absolute(path, Platform::Posix) <==> path.len() > 0 && path[0] == '/',
        has_drive(path) ==> (is_absolute(path, Platform::Windows) <==> path.len() > 2 && (path[2]
            == '\\' || path[2] == '/')),
        path.len() == 0 || (path[0] != '\\' && path[0] != '/' && !has_drive(path)) ==> !is_absolute(
            path,
            Platform::Windows,
        ),
        is_absolute(path, platform) ==> absolute_form(path, dir, platform) == path,
        !is_absolute(path, platform) ==> absolute_form(path, dir, platform) == joined_path(
            dir,
            path,
            platform,
        ),
{
    assert(path.skip(0) =~= path);
    if has_drive(path) && path.len() > 2 {
        assert(path.skip(2)[0] == path[2]);
    }
}

/// A separator parts the names of what stands before it from those of what
/// stands behind it.
proof fn lemma_separators_part_names(
    a: Seq<char>,
    c: char,
    b: Seq<char>,
    platform: Platform,
)
    requires
        separates(c, platform, false),
    ensures
        names(a.push(c) + b, platform, false) == names(a, platform, false) + names(
            b,
            platform,
            false,
        ),
    decreases a.len(),
{
    let s = a.push(c) + b;
    let n = name_len(a, platform, false) as int;
    lemma_name_len_of_sum(a, c, b, platform);
    assert(s.take(n) =~= a.take(n));
    if n < a.len() {
        assert(s.skip(n + 1) =~= a.skip(n + 1).push(c) + b);
        lemma_separators_part_names(a.skip(n + 1), c, b, platform);
        assert(names(s, platform, false) =~= names(a, platform, false) + names(b, platform, false));
    } else {
        assert(s.skip(n + 1) =~= b);
        assert(names(s, platform, false) =~= names(a, platform, false) + names(b, platform, false));
    }
}

proof fn lemma_name_len_of_sum(a: Seq<char>, c: char, b: Seq<char>, platform: Platform)
    requires
        separates(c, platform, false),
    ensures
        name_len(a.push(c) + b, platform, false) == name_len(a, platform, false),
        name_len(a, platform, false) <= a.len(),
    decreases a.len(),
{
    let s = a.push(c) + b;
    if a.len() > 0 {
        assert(s[0] == a[0]);
        assert(s.skip(1) =~= a.skip(1).push(c) + b);
        lemma_name_len_of_sum(a.skip(1), c, b, platform);
    } else {
        assert(s[0] == c);
    }
}

proof fn lemma_one_name(name: Seq<char>, platform: Platform)
    requires
        name.len() > 0,
        name != "."@,
        forall|i: int| 0 <= i < name.len() ==> !separates(#[trigger] name[i], platform, false),
    ensures
        names(name, platform, false) == seq![name],
{
    lemma_whole_name(name, platform);
    assert(name.take(name.len() as int) =~= name);
    assert(names(name, platform, false) =~= seq![name]);
}

proof fn lemma_whole_name(name: Seq<char>, platform: Platform)
    requires
        forall|i: int| 0 <= i < name.len() ==> !separates(#[trigger] name[i], platform, false),
    ensures
        name_len(name, platform, false) == name.len(),
    decreases name.len(),
{
    if name.len() > 0 {
        assert(!separates(name[0], platform, false));
        assert forall|i: int| 0 <= i < name.skip(1).len() implies !separates(
            #[trigger] name.skip(1)[i],
            platform,
            false,
        ) by {
            assert(name.skip(1)[i] == name[i + 1]);
        }
        lemma_whole_name(name.skip(1), platform);
    }
}

proof fn lemma_rooted_names(s: Seq<char>, platform: Platform)
    requires
        s.len() > 0,
        separates(s[0], platform, false),
    ensures
        names(s, platform, false) == names(s.skip(1), platform, false),
{
    assert(name_len(s, platform, false) == 0);
    assert(s.take(0).len() == 0);
}

/// The last name of a path is what stands behind its last separator, on Posix
/// and behind a Windows drive; and a name by itself is its own last name.
pub proof fn the_last_name_is_the_end(base: Seq<char>, name: Seq<char>)
    requires
        is_plain(name),
        name != "."@,
        name != ".."@,
    ensures
        last_name(base + seq!['/'] + name, Platform::Posix) == Some(name),
        last_name(name, Platform::Posix) == Some(name),
        last_name(name, Platform::Windows) == Some(name),
        has_drive(base) ==> last_name(base + seq!['\\'] + name, Platform::Windows) == Some(name),
        has_drive(base) ==> last_name(base + seq!['/'] + name, Platform::Windows) == Some(name),
{
    let posix = Platform::Posix;
    let windows = Platform::Windows;
    lemma_plain(name, posix);
    lemma_plain(name, windows);
    lemma_one_name(name, posix);
    lemma_one_name(name, windows);
    assert(name.skip(0) =~= name);
    assert(!is_verbatim(name, windows)) by {
        reveal_strlit("\\\\?\\");
        if is_verbatim(name, windows) {
            assert(name.subrange(0, 4)[0] == '\\');
            assert(name[0] == '\\');
            assert(name.contains('\\'));
        }
    }
    let path = base + seq!['/'] + name;
    assert(path =~= base.push('/') + name);
    lemma_separators_part_names(base, '/', name, posix);
    assert(path.skip(0) =~= path);
    if has_root(path, posix) {
        lemma_rooted_names(path, posix);
    }
    assert(path_names(path, posix) == names(path, posix, false));
    assert(path_names(path, posix).last() == name);
    if has_drive(base) {
        lemma_last_behind_drive(base, '/', name);
        lemma_last_behind_drive(base, '\\', name);
    }
}

/// A separator behind a Posix path does not change its last name, and neither
/// does a `.` behind that; a `..` leaves it without one.
pub proof fn what_is_behind_the_last_name(path: Seq<char>)
    requires
        path.len() > 0,
    ensures
        last_name(path + "/"@, Platform::Posix) == last_name(path, Platform::Posix),
        last_name(path + "/."@, Platform::Posix) == last_name(path, Platform::Posix),
        last_name(path + "/.."@, Platform::Posix) is None,
{
    reveal_strlit("/");
    reveal_strlit("/.");
    reveal_strlit("/..");
    reveal_strlit(".");
    reveal_strlit("..");
    let posix = Platform::Posix;
    lemma_posix_names(path);
    lemma_posix_names(path + "/"@);
    lemma_posix_names(path + "/."@);
    lemma_posix_names(path + "/.."@);
    assert(path + "/"@ =~= path.push('/') + seq![]);
    assert(path + "/."@ =~= path.push('/') + "."@);
    assert(path + "/.."@ =~= path.push('/') + ".."@);
    lemma_separators_part_names(path, '/', seq![], posix);
    lemma_separators_part_names(path, '/', "."@, posix);
    lemma_separators_part_names(path, '/', ".."@, posix);
    assert(names(Seq::<char>::empty(), posix, false) =~= seq![]);
    lemma_whole_name("."@, posix);
    assert("."@.take(1) =~= "."@);
    assert(names("."@, posix, false) =~= seq![]);
    lemma_one_name(".."@, posix);
    let before = names(path, posix, false);
    assert(before + Seq::<Seq<char>>::empty() =~= before);
    assert((before + seq![".."@]).last() == ".."@);
}

proof fn lemma_posix_names(path: Seq<char>)
    ensures
        path_names(path, Platform::Posix) == names(path, Platform::Posix, false),
{
    assert(path.skip(0) =~= path);
    if has_root(path, Platform::Posix) {
        lemma_rooted_names(path, Platform::Posix);
    }
}

proof fn lemma_last_behind_drive(base: Seq<char>, sep: char, name: Seq<char>)
    requires
        has_drive(base),
        sep == '/' || sep == '\\',
        is_plain(name),
        name != "."@,
        name != ".."@,
    ensures
        last_name(base + seq![sep] + name, Platform::Windows) == Some(name),
{
    let windows = Platform::Windows;
    let path = base + seq![sep] + name;
    lemma_plain(name, windows);
    lemma_one_name(name, windows);
    assert(path[0] == base[0] && path[1] == base[1]);
    assert(!is_verbatim(path, windows)) by {
        reveal_strlit("\\\\?\\");
        if is_verbatim(path, windows) {
            assert(path.subrange(0, 4)[0] == '\\');
        }
    }
    assert(prefix_len(path, windows) == 2);
    let rest = base.skip(2);
    assert(path.skip(2) =~= rest.push(sep) + name);
    lemma_separators_part_names(rest, sep, name, windows);
    if has_root(path, windows) {
        lemma_rooted_names(path.skip(2), windows);
        assert(path.skip(2).skip(1) =~= path.skip(3));
    }
    assert(path_names(path, windows) == names(path.skip(2), windows, false));
    assert(path_names(path, windows).last() == name);
}

// ---------------------------------------------------------------------------
// A Perl that has been built
// ---------------------------------------------------------------------------

/// The programs of a Perl stand in `bin` under its prefix, and `perl` is one of
/// them.
pub proof fn programs_stand_in_bin(b: BuiltView)
    ensures
        b.bin_dir() == joined_path(b.prefix, "bin"@, b.platform),
        b.perl() == joined_path(joined_path(b.prefix, "bin"@, b.platform), "perl"@, b.platform),
        b.platform is Posix && b.prefix.len() > 0 && b.prefix.last() != '/' ==> b.bin_dir()
            == b.prefix + "/bin"@ && b.perl() == b.prefix + "/bin/perl"@,
        b.platform is Windows && b.prefix.len() > 2 && b.prefix[0] != '\\' && b.prefix.last() != '\\'
            && b.prefix.last() != '/' ==> b.bin_dir() == b.prefix + "\\bin"@ && b.perl() == b.prefix
            + "\\bin\\perl"@,
{
    reveal_strlit("bin");
    reveal_strlit("perl");
    reveal_strlit("/bin");
    reveal_strlit("/bin/perl");
    reveal_strlit("\\bin");
    reveal_strlit("\\bin\\perl");
    assert(is_plain("bin"@));
    assert(is_plain("perl"@));
    reveal_strlit("\\\\?\\");
    if b.prefix.len() > 0 && b.prefix[0] != '\\' {
        assert(!"\\\\?\\"@.is_prefix_of(b.prefix)) by {
            if "\\\\?\\"@.is_prefix_of(b.prefix) {
                assert(b.prefix.subrange(0, 4)[0] == '\\');
            }
        }
        let dir = b.prefix + "\\bin"@;
        assert(dir[0] == b.prefix[0]);
        assert(!"\\\\?\\"@.is_prefix_of(dir)) by {
            if "\\\\?\\"@.is_prefix_of(dir) {
                assert(dir.subrange(0, 4)[0] == '\\');
            }
        }
    }
    entries_stand_behind_a_separator(b.prefix, "bin"@);
    entries_stand_behind_a_separator(b.bin_dir(), "perl"@);
    assert(b.prefix + seq!['/'] + "bin"@ =~= b.prefix + "/bin"@);
    assert(b.prefix + "/bin"@ + seq!['/'] + "perl"@ =~= b.prefix + "/bin/perl"@);
    assert(b.prefix + seq!['\\'] + "bin"@ =~= b.prefix + "\\bin"@);
    assert(b.prefix + "\\bin"@ + seq!['\\'] + "perl"@ =~= b.prefix + "\\bin\\perl"@);
}

/// `PATH` is set, and every variable through which an outer Perl could show is
/// cleared.
pub proof fn the_environment_is_cleared<T>(path: T, i: int)
    ensures
        ({
            let changes = env_changes(path);
            &&& changes.len() == 6
            &&& changes[0] == ("PATH"@, Some(path))
            &&& 0 < i < 6 ==> changes[i].1 is None
            &&& changes[1].0 == "PERL5LIB"@
            &&& changes[2].0 == "PERL5OPT"@
            &&& changes[3].0 == "PERL_MB_OPT"@
            &&& changes[4].0 == "PERL_MM_OPT"@
            &&& changes[5].0 == "PERL_LOCAL_LIB_ROOT"@
        }),
{
}

/// The directory of the Perl stands in front of the directories that are on the
/// search path, which stay as they are; it is the whole path where there is
/// none, and where the directories cannot be joined.
pub proof fn the_own_directory_comes_first<T, F: Fn(&str) -> T, G: Fn(Vec<T>) -> Option<T>>(
    path: T,
    dir: Seq<char>,
    existing: Option<Vec<T>>,
    own: F,
    join: G,
    written: spec_fn(Seq<char>) -> T,
    joined: spec_fn(Seq<T>) -> Option<T>,
)
    requires
        is_search_path(path, dir, existing, own, join),
        forall|s: &str, t: T| call_ensures(own, (s,), t) ==> t == written(s@),
        forall|v: Vec<T>, t: Option<T>| call_ensures(join, (v,), t) ==> t == joined(v@),
    ensures
        path == match existing {
            None => written(dir),
            Some(dirs) => match joined(seq![written(dir)] + dirs@) {
                Some(all) => all,
                None => written(dir),
            },
        },
{
    if let Some(dirs) = existing {
        let (bin, all) = choose|bin: T, all: Option<T>|
            {
                &&& writes(own, dir, bin)
                &&& #[trigger] joins(join, seq![bin] + dirs@, all)
                &&& match all {
                    Some(one) => path == one,
                    None => writes(own, dir, path),
                }
            };
        assert(bin == written(dir));
        assert(all == joined(seq![bin] + dirs@));
    }
}

/// The environment for a Perl has its own programs in front on the search path,
/// and nothing of an outer Perl.
pub proof fn the_environment_runs_this_perl<T, F: Fn(&str) -> T, G: Fn(Vec<T>) -> Option<T>>(
    built: Built,
    existing: Option<Vec<T>>,
    own: F,
    join: G,
    changes: Vec<(&'static str, Option<T>)>,
    written: spec_fn(Seq<char>) -> T,
    joined: spec_fn(Seq<T>) -> Option<T>,
    i: int,
)
    requires
        call_ensures(Built::env_vars::<T, F, G>, (&built, existing, own, join), changes),
        forall|s: &str, t: T| call_ensures(own, (s,), t) ==> t == written(s@),
        forall|v: Vec<T>, t: Option<T>| call_ensures(join, (v,), t) ==> t == joined(v@),
    ensures
        changes@.len() == 6,
        0 < i < 6 ==> changes@[i].1 is None,
        changes@[0].0@ == "PATH"@,
        changes@[0].1 == Some(
            match existing {
                None => written(built@.bin_dir()),
                Some(dirs) => match joined(seq![written(built@.bin_dir())] + dirs@) {
                    Some(all) => all,
                    None => written(built@.bin_dir()),
                },
            },
        ),
{
    let f = |c: (&'static str, Option<T>)| (c.0@, c.1);
    let path = choose|path: T| #[trigger]
        is_search_path(path, built@.bin_dir(), existing, own, join) && changes@.map_values(f)
            == env_changes(path);
    the_own_directory_comes_first(
        path,
        built@.bin_dir(),
        existing,
        own,
        join,
        written,
        joined,
    );
    let seen = changes@.map_values(f);
    assert(seen.len() == changes@.len());
    assert(seen[0] == (changes@[0].0@, changes@[0].1));
    if 0 < i < 6 {
        assert(seen[i] == (changes@[i].0@, changes@[i].1));
    }
}

/// A name with a version in it has a part before the version, and that part
/// ends where the first version begins.
pub proof fn versioned_names_have_a_beginning(stem: Seq<char>, d: char, rest: Seq<char>)
    requires
        stem.len() > 0,
        '0' <= d <= '9',
    ensures
        base_name(stem + "5."@ + seq![d] + rest) is Some,
        base_name(stem + "5."@ + seq![d] + rest)->0.is_prefix_of(stem),
        !stem.contains('5') ==> base_name(stem + "5."@ + seq![d] + rest) == Some(stem),
        !stem.contains('5') ==> base_name(stem) is None,
{
    reveal_strlit("5.");
    let name = stem + "5."@ + seq![d] + rest;
    assert(name[stem.len() as int] == '5');
    assert(version_at(name, stem.len() as int));
    let n = lemma_first_version(name, stem.len() as int);
    let m = choose|m: int| is_base_len(name, m);
    assert(m == n);
    assert(name.take(n) =~= stem.take(n));
    assert(stem.subrange(0, n) =~= name.take(n));
    if !stem.contains('5') {
        if n < stem.len() {
            assert(stem[n] == name[n]);
        }
        assert(name.take(n) =~= stem);
        assert(base_name(stem) is None) by {
            let k = choose|k: int| is_base_len(stem, k);
            if is_base_len(stem, k) {
                assert(stem.contains(stem[k]));
            }
        }
    }
}

proof fn lemma_first_version(name: Seq<char>, k: int) -> (n: int)
    requires
        version_at(name, k),
    ensures
        is_base_len(name, n),
        n <= k,
    decreases k,
{
    if forall|h: int| 0 <= h < k ==> !version_at(name, h) {
        k
    } else {
        let h = choose|h: int| 0 <= h < k && version_at(name, h);
        lemma_first_version(name, h)
    }
}

/// A link is to the first entry that has its name with a version, in the order
/// of the directory.
pub proof fn links_are_to_the_first_entry(
    names: Seq<Seq<char>>,
    from: int,
    taken: Set<Seq<char>>,
    i: int,
    k: int,
)
    requires
        0 <= from,
        0 <= i < link_plan(names, from, taken).len(),
        from <= k < link_plan(names, from, taken)[i].0,
    ensures
        base_name(names[k]) != Some(link_plan(names, from, taken)[i].1),
    decreases names.len() - from,
{
    let plan = link_plan(names, from, taken);
    if from < names.len() {
        match base_name(names[from]) {
            Some(base) => if taken.contains(base) {
                crate::laws::links_take_free_names(names, from, taken, i);
                if k > from {
                    links_are_to_the_first_entry(names, from + 1, taken, i, k);
                }
            } else if i > 0 {
                crate::laws::links_take_free_names(names, from + 1, taken.insert(base), i - 1);
                if k > from {
                    links_are_to_the_first_entry(
                        names,
                        from + 1,
                        taken.insert(base),
                        i - 1,
                        k,
                    );
                }
            },
            None => {
                if k > from {
                    links_are_to_the_first_entry(names, from + 1, taken, i, k);
                }
            },
        }
    }
}

/// What stands before a version is not empty, and `5.` and a digit follow it,
/// as they do nowhere before.
pub proof fn beginnings_end_at_the_version(name: Seq<char>, base: Seq<char>, k: int)
    requires
        base_name(name) == Some(base),
    ensures
        0 < base.len() && base.len() + 2 < name.len(),
        name.take(base.len() as int) == base,
        name[base.len() as int] == '5' && name[base.len() as int + 1] == '.',
        '0' <= name[base.len() as int + 2] <= '9',
        0 < k < base.len() ==> !(name[k] == '5' && name[k + 1] == '.' && '0' <= name[k + 2] <= '9'),
{
    let n = choose|n: int| is_base_len(name, n);
    assert(base =~= name.take(n));
    if 0 < k < base.len() {
        assert(!version_at(name, k));
    }
}

/// A link is made for each versioned name that is missing without its version,
/// once, to an entry that has it; and none that is there is touched.
pub proof fn missing_names_are_linked(
    entries: Seq<Seq<char>>,
    present: Seq<Seq<char>>,
    i: int,
    at: int,
)
    ensures
        ({
            let links = links_for(entries, present);
            &&& 0 <= i < links.len() ==> {
                &&& 0 <= links[i].0 < entries.len()
                &&& base_name(entries[links[i].0]) == Some(links[i].1)
                &&& !present.contains(links[i].1)
            }
            &&& 0 <= at < entries.len() && base_name(entries[at]) is Some && !present.contains(
                base_name(entries[at])->0,
            ) ==> exists|k: int|
                0 <= k < links.len() && (#[trigger] links[k]).1 == base_name(entries[at])->0
        }),
{
    let links = links_for(entries, present);
    let taken = present.to_set();
    if 0 <= i < links.len() {
        crate::laws::links_take_free_names(entries, 0, taken, i);
        assert(taken.contains(links[i].1) == present.contains(links[i].1));
    }
    if 0 <= at < entries.len() && base_name(entries[at]) is Some {
        let base = base_name(entries[at])->0;
        crate::laws::every_versioned_name_is_covered(entries, 0, taken, at, base);
        assert(taken.contains(base) == present.contains(base));
    }
}

// ---------------------------------------------------------------------------
// Choices and names
// ---------------------------------------------------------------------------

/// A build with nothing chosen is serial, without tests, in directories of its
/// own, with the fix-ups and the toolchain left to the library, and tells
/// `Configure` to ask nothing.
pub proof fn nothing_is_chosen_by_default(dst: Seq<char>)
    ensures
        default_build(dst).dst_path == dst,
        default_build(dst).configure_options.len() == 1,
        default_build(dst).configure_options[0] == "-de"@,
        default_build(dst).jobs is None,
        !default_build(dst).test,
        default_build(dst).build_dir is None,
        default_build(dst).tarball_dir is None,
        default_build(dst).patchperl is Auto,
        default_build(dst).toolchain is Auto,
{
}

/// A temporary directory has a name that begins as it should, and ends with
/// the time; the process stands between the two.
pub proof fn temporary_names_hold_process_and_time(prefix: Seq<char>, process: nat, nanos: nat)
    ensures
        ({
            let name = temp_name(prefix, process, nanos);
            let n = prefix.len() as int;
            let p = decimal(process).len() as int;
            &&& name.len() == n + 1 + p + 1 + decimal(nanos).len()
            &&& name.take(n) == prefix
            &&& name[n] == '-'
            &&& name.subrange(n + 1, n + 1 + p) == decimal(process)
            &&& name[n + 1 + p] == '-'
            &&& name.skip(n + 1 + p + 1) == decimal(nanos)
        }),
{
    reveal_strlit("-");
    let name = temp_name(prefix, process, nanos);
    let n = prefix.len() as int;
    let p = decimal(process).len() as int;
    assert(name.take(n) =~= prefix);
    assert(name.subrange(n + 1, n + 1 + p) =~= decimal(process));
    assert(name.skip(n + 1 + p + 1) =~= decimal(nanos));
}

/// A file can be run where its owner, its group or others may; what is not a
/// file cannot.
pub proof fn somebody_may_run_it(mode: u32)
    ensures
        !can_run(false, mode),
        can_run(true, mode) <==> mode & 0o100 != 0 || mode & 0o010 != 0 || mode & 0o001 != 0,
{
    assert(mode & 0o111 != 0 <==> mode & 0o100 != 0 || mode & 0o010 != 0 || mode & 0o001 != 0)
        by (bit_vector);
}

/// Windows is where `\` separates and `/` by itself is not absolute.
pub proof fn windows_is_recognized(backslash: bool, slash: bool)
    ensures
        platform_with(backslash, slash) is Windows <==> backslash && !slash,
{
}

/// Each choice is taken, and leaves the others as they were.
pub proof fn choices_do_not_touch_each_other(
    a: PerlBuild,
    b: PerlBuild,
    jobs: usize,
    test: bool,
    dir: &str,
    patchperl: PatchPerl,
    toolchain: Toolchain,
)
    ensures
        call_ensures(PerlBuild::jobs, (a, jobs), b) ==> b@.jobs == Some(jobs) && a@ == (
        PerlBuildView { jobs: a@.jobs, ..b@ }),
        call_ensures(PerlBuild::test, (a, test), b) ==> b@.test == test && a@ == (PerlBuildView {
            test: a@.test,
            ..b@
        }),
        call_ensures(PerlBuild::build_dir, (a, dir), b) ==> b@.build_dir == Some(dir@) && a@ == (
        PerlBuildView { build_dir: a@.build_dir, ..b@ }),
        call_ensures(PerlBuild::tarball_dir, (a, dir), b) ==> b@.tarball_dir == Some(dir@) && a@
            == (PerlBuildView { tarball_dir: a@.tarball_dir, ..b@ }),
        call_ensures(PerlBuild::patchperl, (a, patchperl), b) ==> b@.patchperl == patchperl@ && a@
            == (PerlBuildView { patchperl: a@.patchperl, ..b@ }),
        call_ensures(PerlBuild::toolchain, (a, toolchain), b) ==> b@.toolchain == toolchain && a@
            == (PerlBuildView { toolchain: a@.toolchain, ..b@ }),
{
}

/// The options for `Configure` are replaced as a whole, or one is put behind
/// them; nothing else changes.
pub proof fn options_are_replaced_or_appended(
    a: PerlBuild,
    b: PerlBuild,
    options: Vec<String>,
    option: &str,
    i: int,
)
    ensures
        call_ensures(PerlBuild::configure_options, (a, options), b) ==> {
            &&& b@.configure_options.len() == options@.len()
            &&& 0 <= i < options@.len() ==> b@.configure_options[i] == options@[i]@
            &&& a@ == (PerlBuildView { configure_options: a@.configure_options, ..b@ })
        },
        call_ensures(PerlBuild::configure_option, (a, option), b) ==> {
            &&& b@.configure_options.len() == a@.configure_options.len() + 1
            &&& b@.configure_options.last() == option@
            &&& b@.configure_options.drop_last() =~= a@.configure_options
            &&& a@ == (PerlBuildView { configure_options: a@.configure_options, ..b@ })
        },
{
}

} // verus!
