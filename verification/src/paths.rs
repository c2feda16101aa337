//! Paths as text, in the notation of the platform that they are meant for.

use crate::text::{
    begins_with, chars_of, decimal, decimal_text, join, joined, opt_text, text_of, texts, upper,
    uppercase,
};
use vstd::prelude::*;
use vstd::slice::slice_subrange;
use vstd::string::*;

verus! {

/// The two notations for paths.
#[derive(Debug, Clone, Copy, PartialEq, Eq, Structural)]
pub enum Platform {
    /// `/` separates.
    Posix,
    /// `\` separates, and so does `/`; a drive letter may stand in front.
    Windows,
}

/// `std::path::is_separator`: whether `\` separates the parts of a path on
/// this machine. Nothing is claimed of the answer.
#[verifier::external_body]
fn backslash_separates() -> (yes: bool) {
    std::path::is_separator('\\')
}

/// `std::path::Path::is_absolute`: whether `/` is an absolute path on this
/// machine, which it is on Unix and is not on Windows. Nothing is claimed of
/// the answer.
#[verifier::external_body]
fn slash_is_absolute() -> (yes: bool) {
    std::path::Path::new("/").is_absolute()
}

/// The platform on which `\` separates the parts of a path or does not, and
/// `/` is an absolute path or is not. Windows is where it takes a drive to make
/// a path absolute; a Unix that knows `\` too is still a Unix.
pub open spec fn platform_with(backslash_separates: bool, slash_is_absolute: bool) -> Platform {
    if backslash_separates && !slash_is_absolute {
        Platform::Windows
    } else {
        Platform::Posix
    }
}

impl Platform {
    /// The platform that the program runs on: the one that
    /// [`recognized`](Self::recognized) gives for what `std::path` says of `\`
    /// and of `/`. Which of the two it is rests on the machine.
    pub fn native() -> (platform: Platform) {
        Platform::recognized(backslash_separates(), slash_is_absolute())
    }

    /// The platform on which `\` separates the parts of a path or does not, and
    /// `/` is an absolute path or is not.
    pub fn recognized(backslash_separates: bool, slash_is_absolute: bool) -> (platform: Platform)
        ensures
            platform == platform_with(backslash_separates, slash_is_absolute),
    {
        if backslash_separates && !slash_is_absolute {
            Platform::Windows
        } else {
            Platform::Posix
        }
    }
}

// ---------------------------------------------------------------------------
// What a path is made of
// ---------------------------------------------------------------------------

/// An ASCII letter.
pub open spec fn is_letter(c: char) -> bool {
    'a' <= c <= 'z' || 'A' <= c <= 'Z'
}

/// `s` begins with a drive, such as `C:`.
pub open spec fn has_drive(s: Seq<char>) -> bool {
    s.len() >= 2 && is_letter(s[0]) && s[1] == ':'
}

/// `c` separates the names in a path. In a verbatim Windows path, which begins
/// with `\\?\`, only `\` does.
pub open spec fn separates(c: char, platform: Platform, verbatim: bool) -> bool {
    match platform {
        Platform::Posix => c == '/',
        Platform::Windows => c == '\\' || (!verbatim && c == '/'),
    }
}

/// How many characters stand before the first separator of `s`.
pub open spec fn name_len(s: Seq<char>, platform: Platform, verbatim: bool) -> nat
    decreases s.len(),
{
    if s.len() == 0 || separates(s[0], platform, verbatim) {
        0
    } else {
        1 + name_len(s.skip(1), platform, verbatim)
    }
}

/// `path` is a verbatim Windows path.
pub open spec fn is_verbatim(path: Seq<char>, platform: Platform) -> bool {
    platform is Windows && "\\\\?\\"@.is_prefix_of(path)
}

/// How long a server and its share are, at the start of `s`, which stands
/// behind `\\?\UNC\`.
pub open spec fn verbatim_share_len(s: Seq<char>) -> nat {
    let server = name_len(s, Platform::Windows, true);
    let share = name_len(s.skip(server as int + 1), Platform::Windows, true);
    if server < s.len() && share > 0 {
        server + 1 + share
    } else {
        server
    }
}

/// How long a server and its share are, at the start of `s`, which stands
/// behind `\\`: 0 where either is missing.
pub open spec fn share_len(s: Seq<char>) -> nat {
    let server = name_len(s, Platform::Windows, false);
    let share = name_len(s.skip(server as int + 1), Platform::Windows, false);
    if 0 < server < s.len() && share > 0 {
        server + 1 + share
    } else {
        0
    }
}

/// `s` is a drive by itself, or begins with one that a separator follows.
pub open spec fn has_exact_drive(s: Seq<char>) -> bool {
    has_drive(s) && (s.len() == 2 || separates(s[2], Platform::Windows, false))
}

/// How long the prefix of a path is, which stands before its root: 0 where it
/// has none. Windows knows drives (`C:`), shares (`\\server\share`), devices
/// (`\\.\COM1`), and the verbatim forms (`\\?\C:`, `\\?\UNC\server\share`,
/// `\\?\name`).
pub open spec fn prefix_len(path: Seq<char>, platform: Platform) -> nat {
    let windows = Platform::Windows;
    if platform is Posix {
        0
    } else if path.len() >= 2 && separates(path[0], windows, false) && separates(
        path[1],
        windows,
        false,
    ) {
        if is_verbatim(path, windows) {
            if path.len() >= 8 && path.subrange(4, 7) == "UNC"@ && separates(path[7], windows, false) {
                8 + verbatim_share_len(path.skip(8))
            } else if has_exact_drive(path.skip(4)) {
                6
            } else {
                4 + name_len(path.skip(4), windows, true)
            }
        } else if path.len() >= 4 && path[2] == '.' && separates(path[3], windows, false) {
            4 + name_len(path.skip(4), windows, false)
        } else if share_len(path.skip(2)) > 0 {
            2 + share_len(path.skip(2))
        } else {
            0
        }
    } else if has_drive(path) {
        2
    } else {
        0
    }
}

/// A separator stands where the prefix of `path` ends.
pub open spec fn has_root(path: Seq<char>, platform: Platform) -> bool {
    let rest = path.skip(prefix_len(path, platform) as int);
    rest.len() > 0 && separates(rest[0], platform, false)
}

/// `name` names something. `.` does so in a verbatim path only.
pub open spec fn counts(name: Seq<char>, verbatim: bool) -> bool {
    name.len() > 0 && (verbatim || name != "."@)
}

/// The names between the separators of `s`, in order.
pub open spec fn names(s: Seq<char>, platform: Platform, verbatim: bool) -> Seq<Seq<char>>
    decreases s.len(),
{
    let n = name_len(s, platform, verbatim) as int;
    let rest = if n < s.len() {
        names(s.skip(n + 1), platform, verbatim)
    } else {
        seq![]
    };
    if counts(s.take(n), verbatim) {
        seq![s.take(n)] + rest
    } else {
        rest
    }
}

/// The names in `path`, behind its prefix and its root.
pub open spec fn path_names(path: Seq<char>, platform: Platform) -> Seq<Seq<char>> {
    let start = prefix_len(path, platform) + if has_root(path, platform) {
        1int
    } else {
        0int
    };
    names(path.skip(start), platform, is_verbatim(path, platform))
}

/// `path` does not depend on the current directory. On Windows that takes a
/// prefix and a root, which every prefix but a drive brings along.
pub open spec fn is_absolute(path: Seq<char>, platform: Platform) -> bool {
    let n = prefix_len(path, platform);
    match platform {
        Platform::Posix => has_root(path, platform),
        Platform::Windows => n > 0 && (n != 2 || has_root(path, platform)),
    }
}

/// `path` as it is seen from anywhere: by itself where it is absolute, and from
/// `current_dir` otherwise.
pub open spec fn absolute_form(
    path: Seq<char>,
    current_dir: Seq<char>,
    platform: Platform,
) -> Seq<char> {
    if is_absolute(path, platform) {
        path
    } else {
        joined_path(current_dir, path, platform)
    }
}

/// The last name in `path`; none where it ends in `..`, or has no names.
pub open spec fn last_name(path: Seq<char>, platform: Platform) -> Option<Seq<char>> {
    let all = path_names(path, platform);
    if all.len() == 0 || !is_ordinary(all.last()) {
        None
    } else {
        Some(all.last())
    }
}

/// `name` is neither `.` nor `..`.
pub open spec fn is_ordinary(name: Seq<char>) -> bool {
    name != "."@ && name != ".."@
}

// ---------------------------------------------------------------------------
// Joining
// ---------------------------------------------------------------------------

/// Nothing has to stand between `base` and a name: it is empty, it ends with a
/// separator, or it is a Windows drive by itself.
pub open spec fn needs_no_separator(base: Seq<char>, platform: Platform) -> bool {
    ||| base.len() == 0
    ||| separates(base.last(), platform, false)
    ||| platform is Windows && base.len() == 2 && has_drive(base)
}

/// Where `more` leads from `at`: `..` leads back over a name.
pub open spec fn walked(at: Seq<Seq<char>>, more: Seq<Seq<char>>) -> Seq<Seq<char>>
    decreases more.len(),
{
    if more.len() == 0 {
        at
    } else if more[0] != ".."@ {
        walked(at.push(more[0]), more.skip(1))
    } else if at.len() > 0 && is_ordinary(at.last()) {
        walked(at.drop_last(), more.skip(1))
    } else {
        walked(at, more.skip(1))
    }
}

/// The verbatim path `base` with `name`, which has no prefix, walked from it:
/// its names with one `\` between each two.
pub open spec fn walked_path(base: Seq<char>, name: Seq<char>) -> Seq<char> {
    let windows = Platform::Windows;
    let prefix = base.take(prefix_len(base, windows) as int);
    let rooted = has_root(name, windows);
    let start = if rooted {
        seq![]
    } else {
        path_names(base, windows)
    };
    let all = walked(start, path_names(name, windows));
    if rooted || has_root(base, windows) || all.len() > 0 {
        prefix + "\\"@ + joined(all, "\\"@)
    } else {
        prefix
    }
}

/// The path that `name` stands for, seen from the directory `base`: `name` by
/// itself where it has a prefix or, on Posix, a root; from the prefix of `base`
/// where it has only a root; and the entry of `base` otherwise.
pub open spec fn joined_path(base: Seq<char>, name: Seq<char>, platform: Platform) -> Seq<char> {
    if prefix_len(name, platform) > 0 || (platform is Posix && has_root(name, platform)) {
        name
    } else if is_verbatim(base, platform) && name.len() > 0 {
        walked_path(base, name)
    } else if has_root(name, platform) {
        base.take(prefix_len(base, platform) as int) + name
    } else if needs_no_separator(base, platform) {
        base + name
    } else {
        match platform {
            Platform::Posix => base.push('/') + name,
            Platform::Windows => base.push('\\') + name,
        }
    }
}

/// The drive that `path` is on, its letter a capital: `C:` of `c:\perl` and of
/// `\\?\c:\perl`. Only a Windows path has one.
pub open spec fn drive_of(path: Seq<char>, platform: Platform) -> Option<Seq<char>> {
    let rest = path.skip(4);
    if platform is Posix {
        None
    } else if has_drive(path) {
        Some(seq![upper(path[0]), ':'])
    } else if is_verbatim(path, platform) && has_exact_drive(rest) {
        Some(seq![upper(rest[0]), ':'])
    } else {
        None
    }
}

fn letter(c: char) -> (yes: bool)
    ensures
        yes == is_letter(c),
{
    ('a' <= c && c <= 'z') || ('A' <= c && c <= 'Z')
}

fn separator(c: char, platform: Platform, verbatim: bool) -> (yes: bool)
    ensures
        yes == separates(c, platform, verbatim),
{
    match platform {
        Platform::Posix => c == '/',
        Platform::Windows => c == '\\' || (!verbatim && c == '/'),
    }
}

/// How many characters stand before the first separator of `s`.
fn measure_name(s: &[char], platform: Platform, verbatim: bool) -> (n: usize)
    ensures
        n == name_len(s@, platform, verbatim),
        n <= s@.len(),
{
    let mut i: usize = 0;
    assert(s@.skip(0) == s@);
    while i < s.len() && !separator(s[i], platform, verbatim)
        invariant
            i <= s.len(),
            name_len(s@, platform, verbatim) == i + name_len(s@.skip(i as int), platform, verbatim),
        decreases s.len() - i,
    {
        assert(s@.skip(i as int).skip(1) == s@.skip(i + 1));
        i += 1;
    }
    i
}

/// Whether `path` is a verbatim Windows path.
fn verbatim(path: &[char], platform: Platform) -> (yes: bool)
    ensures
        yes == is_verbatim(path@, platform),
{
    match platform {
        Platform::Posix => false,
        Platform::Windows => begins_with(path, "\\\\?\\"),
    }
}

fn drive(s: &[char]) -> (yes: bool)
    ensures
        yes == has_drive(s@),
{
    s.len() >= 2 && letter(s[0]) && s[1] == ':'
}

fn exact_drive(s: &[char]) -> (yes: bool)
    ensures
        yes == has_exact_drive(s@),
{
    drive(s) && (s.len() == 2 || separator(s[2], Platform::Windows, false))
}

/// How long a server and its share are, at the start of `s`: the length of the
/// two, with nothing for a share that is missing, and whether both are there.
fn measure_share(s: &[char], verbatim: bool) -> (r: (usize, bool))
    ensures
        verbatim ==> r.0 == verbatim_share_len(s@),
        !verbatim ==> (if r.1 {
            r.0 == share_len(s@) && r.0 > 0
        } else {
            share_len(s@) == 0
        }),
        r.0 <= s@.len(),
{
    let server = measure_name(s, Platform::Windows, verbatim);
    if server >= s.len() {
        return (server, false);
    }
    let rest = slice_subrange(s, server + 1, s.len());
    assert(rest@ == s@.skip(server + 1));
    let share = measure_name(rest, Platform::Windows, verbatim);
    if share == 0 {
        (server, false)
    } else {
        (server + 1 + share, server > 0)
    }
}

/// How long the prefix of `path` is.
fn measure_prefix(path: &[char], platform: Platform) -> (n: usize)
    ensures
        n == prefix_len(path@, platform),
        n <= path@.len(),
{
    let windows = Platform::Windows;
    match platform {
        Platform::Posix => {
            return 0;
        },
        Platform::Windows => {},
    }
    let n: usize = path.len();
    if n >= 2 && separator(path[0], windows, false) && separator(path[1], windows, false) {
        if verbatim(path, windows) {
            proof {
                reveal_strlit("\\\\?\\");
            }
            let rest = slice_subrange(path, 4, n);
            assert(rest@ == path@.skip(4));
            proof {
                reveal_strlit("UNC");
                if n >= 8 {
                    assert(path@.subrange(4, 7) == rest@.subrange(0, 3));
                }
            }
            if n >= 8 && begins_with(rest, "UNC") && separator(path[7], windows, false) {
                let share = slice_subrange(path, 8, n);
                assert(share@ == path@.skip(8));
                8 + measure_share(share, true).0
            } else if exact_drive(rest) {
                6
            } else {
                4 + measure_name(rest, windows, true)
            }
        } else if n >= 4 && path[2] == '.' && separator(path[3], windows, false) {
            let rest = slice_subrange(path, 4, n);
            assert(rest@ == path@.skip(4));
            4 + measure_name(rest, windows, false)
        } else {
            let rest = slice_subrange(path, 2, n);
            assert(rest@ == path@.skip(2));
            let (share, both) = measure_share(rest, false);
            if both {
                2 + share
            } else {
                0
            }
        }
    } else if drive(path) {
        2
    } else {
        0
    }
}

/// Whether a separator stands where the prefix of `path` ends.
fn rooted(path: &[char], platform: Platform) -> (yes: bool)
    ensures
        yes == has_root(path@, platform),
{
    let n = measure_prefix(path, platform);
    assert(n < path@.len() ==> path@.skip(n as int)[0] == path@[n as int]);
    n < path.len() && separator(path[n], platform, false)
}

/// The names in `path`, behind its prefix and its root.
pub fn split_path(path: &str, platform: Platform) -> (r: Vec<String>)
    ensures
        texts(r@) == path_names(path@, platform),
{
    let chars = chars_of(path);
    let verbatim = verbatim(chars.as_slice(), platform);
    let n = measure_prefix(chars.as_slice(), platform);
    let start: usize = if rooted(chars.as_slice(), platform) {
        n + 1
    } else {
        n
    };
    let mut rest: &[char] = slice_subrange(chars.as_slice(), start, chars.len());
    let ghost all = path_names(path@, platform);
    assert(rest@ == path@.skip(start as int));
    let mut r: Vec<String> = Vec::new();
    assert(texts(r@) + names(rest@, platform, verbatim) =~= all);
    loop
        invariant_except_break
            texts(r@) + names(rest@, platform, verbatim) =~= all,
        ensures
            texts(r@) =~= all,
        decreases rest@.len(),
    {
        let n = measure_name(rest, platform, verbatim);
        let name = text_of(slice_subrange(rest, 0, n));
        let ghost so_far = texts(r@);
        let ghost tail = if n < rest@.len() {
            names(rest@.skip(n + 1), platform, verbatim)
        } else {
            seq![]
        };
        assert(name@ == rest@.take(n as int));
        if n > 0 && (verbatim || name != ".".to_owned()) {
            r.push(name);
            assert(texts(r@) =~= so_far.push(name@));
            assert(so_far + (seq![name@] + tail) =~= so_far.push(name@) + tail);
        }
        assert(texts(r@) + tail =~= all);
        if n >= rest.len() {
            break ;
        }
        rest = slice_subrange(rest, n + 1, rest.len());
    }
    r
}

fn ordinary(name: &String) -> (yes: bool)
    ensures
        yes == is_ordinary(name@),
{
    *name != ".".to_owned() && *name != "..".to_owned()
}

/// The last name in `path`; `None` where it ends in `..`, or has no names.
pub fn file_name(path: &str, platform: Platform) -> (name: Option<String>)
    ensures
        opt_text(name) == last_name(path@, platform),
{
    let mut all = split_path(path, platform);
    let ghost before = texts(all@);
    match all.pop() {
        Some(name) => {
            assert(before.last() == name@);
            if ordinary(&name) {
                Some(name)
            } else {
                None
            }
        },
        None => None,
    }
}

/// Where `more` leads from `at`.
fn walk(at: Vec<String>, more: &Vec<String>) -> (r: Vec<String>)
    ensures
        texts(r@) == walked(texts(at@), texts(more@)),
{
    let mut r = at;
    let ghost all = texts(more@);
    assert(all.skip(0) =~= all);
    for i in 0..more.len()
        invariant
            all == texts(more@),
            walked(texts(r@), all.skip(i as int)) == walked(texts(at@), all),
    {
        let ghost rest = all.skip(i as int);
        let ghost so_far = texts(r@);
        assert(rest[0] == more@[i as int]@);
        assert(rest.skip(1) =~= all.skip(i + 1));
        if more[i] != "..".to_owned() {
            r.push(more[i].clone());
            assert(texts(r@) =~= so_far.push(rest[0]));
        } else if r.len() > 0 && ordinary(&r[r.len() - 1]) {
            assert(so_far.last() == r@.last()@);
            let _ = r.pop();
            assert(texts(r@) =~= so_far.drop_last());
        } else {
            assert(r@.len() > 0 ==> so_far.last() == r@.last()@);
        }
    }
    assert(all.skip(more@.len() as int) =~= seq![]);
    r
}

/// The verbatim path `base` with `name` walked from it.
fn walk_path(base: &str, name: &str) -> (path: String)
    ensures
        path@ == walked_path(base@, name@),
{
    let windows = Platform::Windows;
    let chars = chars_of(base);
    let n = measure_prefix(chars.as_slice(), windows);
    let prefix = text_of(slice_subrange(chars.as_slice(), 0, n));
    assert(prefix@ == base@.take(n as int));
    let from_root = rooted(chars_of(name).as_slice(), windows);
    let start = if from_root {
        Vec::new()
    } else {
        split_path(base, windows)
    };
    assert(from_root ==> texts(start@) =~= seq![]);
    let all = walk(start, &split_path(name, windows));
    if from_root || rooted(chars.as_slice(), windows) || all.len() > 0 {
        prefix.concat("\\").concat(join(&all, "\\").as_str())
    } else {
        prefix
    }
}

/// The path that `name` stands for, seen from the directory `base`.
pub fn join_path(base: &str, name: &str, platform: Platform) -> (path: String)
    ensures
        path@ == joined_path(base@, name@, platform),
{
    let chars = chars_of(base);
    let n: usize = chars.len();
    let entry = chars_of(name);
    let from_root = rooted(entry.as_slice(), platform);
    let windows = match platform {
        Platform::Posix => false,
        Platform::Windows => true,
    };
    if measure_prefix(entry.as_slice(), platform) > 0 || (!windows && from_root) {
        return name.to_owned();
    }
    if verbatim(chars.as_slice(), platform) && entry.len() > 0 {
        return walk_path(base, name);
    }
    if from_root {
        let end = measure_prefix(chars.as_slice(), platform);
        let prefix = text_of(slice_subrange(chars.as_slice(), 0, end));
        assert(prefix@ == base@.take(end as int));
        return prefix.concat(name);
    }
    let bare = n == 0 || separator(chars[n - 1], platform, false) || (windows && n == 2 && drive(
        chars.as_slice(),
    ));
    let mut path = base.to_owned();
    if !bare {
        match platform {
            Platform::Posix => {
                path.push('/');
            },
            Platform::Windows => {
                path.push('\\');
            },
        }
    }
    path.append(name);
    path
}

/// `path` as it is seen from anywhere, with `current_dir` in front of it where
/// it is relative.
pub fn absolute_path(path: &str, current_dir: &str, platform: Platform) -> (r: String)
    ensures
        r@ == absolute_form(path@, current_dir@, platform),
{
    if absolute(path, platform) {
        path.to_owned()
    } else {
        join_path(current_dir, path, platform)
    }
}

/// Whether `path` does not depend on the current directory.
pub fn absolute(path: &str, platform: Platform) -> (yes: bool)
    ensures
        yes == is_absolute(path@, platform),
{
    let chars = chars_of(path);
    let from_root = rooted(chars.as_slice(), platform);
    match platform {
        Platform::Posix => from_root,
        Platform::Windows => {
            let n = measure_prefix(chars.as_slice(), platform);
            n > 0 && (n != 2 || from_root)
        },
    }
}

/// The upper-cased drive of `path`, on the platform that has drives.
pub fn windows_drive(path: &str, platform: Platform) -> (drive: Option<String>)
    ensures
        match drive {
            Some(d) => drive_of(path@, platform) == Some(d@),
            None => drive_of(path@, platform) is None,
        },
{
    match platform {
        Platform::Posix => None,
        Platform::Windows => {
            let chars = chars_of(path);
            let all = chars.as_slice();
            let at: usize = if drive(all) {
                0
            } else if verbatim(all, platform) {
                proof {
                    reveal_strlit("\\\\?\\");
                }
                let rest = slice_subrange(all, 4, all.len());
                assert(rest@ == path@.skip(4));
                if !exact_drive(rest) {
                    return None;
                }
                4
            } else {
                return None;
            };
            let mut drive = String::new();
            drive.push(uppercase(chars[at]));
            drive.push(':');
            assert(drive@ == seq![upper(chars@[at as int]), ':']);
            Some(drive)
        },
    }
}

/// The name of a temporary directory.
pub open spec fn temp_name(prefix: Seq<char>, process: nat, nanos: nat) -> Seq<char> {
    prefix + "-"@ + decimal(process) + "-"@ + decimal(nanos)
}

/// A directory entry can be run.
pub open spec fn can_run(is_file: bool, mode: u32) -> bool {
    is_file && mode & 0o111 != 0
}

/// The name of a temporary directory: the prefix, the process and the time,
/// in nanoseconds since the epoch.
pub fn temp_dir_name(prefix: &str, process: u32, nanos: u128) -> (name: String)
    ensures
        name@ == temp_name(prefix@, process as nat, nanos as nat),
{
    prefix.to_owned().concat("-").concat(decimal_text(process as u128).as_str()).concat(
        "-",
    ).concat(decimal_text(nanos).as_str())
}

/// Whether a directory entry can be run: a file that somebody may execute.
pub fn is_executable(is_file: bool, mode: u32) -> (yes: bool)
    ensures
        yes == can_run(is_file, mode),
{
    is_file && mode & 0o111 != 0
}

} // verus!
