//! Source tarballs: what a URL names, how one is compressed, and what it
//! unpacks to.

use crate::paths::{file_name, last_name, Platform};
use crate::text::{
    after_last, before, chars_of, decode_lossy, finishes_with, lossy, lowercase, lowered,
    measure_piece, pieces, text_of, trim, trimmed, without_leading, without_trailing,
    begins_with,
};
use vstd::prelude::*;
use vstd::slice::slice_subrange;
use vstd::string::*;

verus! {

/// What `tar` is told of the compression, by the name of the file.
pub open spec fn flag_for(name: Seq<char>) -> Option<Seq<char>> {
    if ".gz"@.is_suffix_of(name) || ".tgz"@.is_suffix_of(name) {
        Some("-z"@)
    } else if ".bz2"@.is_suffix_of(name) || ".tbz"@.is_suffix_of(name) || ".tbz2"@.is_suffix_of(
        name,
    ) {
        Some("-j"@)
    } else if ".xz"@.is_suffix_of(name) || ".txz"@.is_suffix_of(name) {
        Some("-J"@)
    } else if ".tar"@.is_suffix_of(name) {
        None
    } else {
        Some("-z"@)
    }
}

/// What `tar` is told of the compression of the file at `path`.
pub open spec fn flag_of(path: Seq<char>, platform: Platform) -> Option<Seq<char>> {
    match last_name(path, platform) {
        Some(name) => flag_for(lowered(name)),
        None => flag_for(seq![]),
    }
}

/// What stands in `url` before the query and the fragment.
pub open spec fn url_path(url: Seq<char>) -> Seq<char> {
    before(before(url, '?'), '#')
}

/// The last part of a URL's path that is not empty.
pub open spec fn url_segment(url: Seq<char>) -> Seq<char> {
    after_last(without_trailing(url_path(url), '/'), '/')
}

/// The name for what `url` brings: its last part, where that has a dot.
pub open spec fn url_name(url: Seq<char>) -> Seq<char> {
    if url_segment(url).contains('.') {
        url_segment(url)
    } else {
        "perl-source.tar.gz"@
    }
}

/// The top-level entry that a line of a listing is under.
pub open spec fn line_root(line: Seq<char>) -> Option<Seq<char>> {
    let entry = without_leading(trimmed(line), "./"@);
    let root = before(entry, '/');
    if root.len() == 0 {
        None
    } else {
        Some(root)
    }
}

/// `root` is a top-level entry of the listing.
pub open spec fn is_root(listing: Seq<char>, root: Seq<char>) -> bool {
    exists|i: int|
        0 <= i < pieces(listing, '\n').len() && line_root(#[trigger] pieces(listing, '\n')[i])
            == Some(root)
}

/// `root` is the only top-level entry of the listing.
pub open spec fn is_sole_root(listing: Seq<char>, root: Seq<char>) -> bool {
    is_root(listing, root) && forall|other: Seq<char>| is_root(listing, other) ==> other == root
}

/// What `tar` is told of the compression, by the name of the file.
fn name_flag(name: &[char]) -> (flag: Option<&'static str>)
    ensures
        match flag {
            Some(f) => flag_for(name@) == Some(f@),
            None => flag_for(name@) is None,
        },
{
    if finishes_with(name, ".gz") || finishes_with(name, ".tgz") {
        Some("-z")
    } else if finishes_with(name, ".bz2") || finishes_with(name, ".tbz") || finishes_with(
        name,
        ".tbz2",
    ) {
        Some("-j")
    } else if finishes_with(name, ".xz") || finishes_with(name, ".txz") {
        Some("-J")
    } else if finishes_with(name, ".tar") {
        None
    } else {
        // The Perl archives on CPAN are compressed with gzip.
        Some("-z")
    }
}

/// What stands behind the last `sep` of `s`.
fn cut_after_last(s: &[char], sep: char) -> (r: &[char])
    ensures
        r@ == after_last(s@, sep),
{
    let mut i: usize = s.len();
    assert(s@.take(i as int) == s@);
    assert(s@.skip(i as int) == Seq::<char>::empty());
    while i > 0 && s[i - 1] != sep
        invariant
            i <= s.len(),
            after_last(s@, sep) == after_last(s@.take(i as int), sep) + s@.skip(i as int),
        decreases i,
    {
        assert(s@.take(i as int).drop_last() == s@.take(i - 1));
        assert(after_last(s@.take(i - 1), sep).push(s@[i - 1]) + s@.skip(i as int) == after_last(
            s@.take(i - 1),
            sep,
        ) + s@.skip(i - 1));
        i -= 1;
    }
    assert(after_last(s@.take(i as int), sep) == Seq::<char>::empty());
    assert(s@.skip(i as int) == after_last(s@, sep));
    slice_subrange(s, i, s.len())
}

/// The option that tells `tar` how the file at `tarball` is compressed, by the
/// end of its name: `None` for a `.tar` that is not.
pub fn compression_flag(tarball: &str, platform: Platform) -> (flag: Option<&'static str>)
    ensures
        match flag {
            Some(f) => flag_of(tarball@, platform) == Some(f@),
            None => flag_of(tarball@, platform) is None,
        },
{
    match file_name(tarball, platform) {
        Some(name) => name_flag(lowercase(chars_of(name.as_str()).as_slice()).as_slice()),
        None => {
            let nothing: Vec<char> = Vec::new();
            name_flag(nothing.as_slice())
        },
    }
}

/// The file name to store what `url` brings under: the last part of its path,
/// and `perl-source.tar.gz` where that is no file name.
pub fn url_filename(url: &str) -> (name: String)
    ensures
        name@ == url_name(url@),
{
    let chars = chars_of(url);
    let all = chars.as_slice();
    let path = slice_subrange(all, 0, measure_piece(all, '?'));
    let path = slice_subrange(path, 0, measure_piece(path, '#'));
    let mut n: usize = path.len();
    assert(path@.take(n as int) == path@);
    while n > 0 && path[n - 1] == '/'
        invariant
            n <= path.len(),
            without_trailing(path@, '/') == without_trailing(path@.take(n as int), '/'),
        decreases n,
    {
        assert(path@.take(n as int).drop_last() == path@.take(n - 1));
        n -= 1;
    }
    let segment = cut_after_last(slice_subrange(path, 0, n), '/');
    assert(segment@ == url_segment(url@));
    for i in 0..segment.len()
        invariant
            segment@ == url_segment(url@),
            forall|k: int| 0 <= k < i ==> segment@[k] != '.',
    {
        if segment[i] == '.' {
            assert(segment@.contains('.'));
            return text_of(segment);
        }
    }
    "perl-source.tar.gz".to_owned()
}

/// `s` without its leading `./`s.
fn cut_leading_dots(s: &[char]) -> (r: &[char])
    ensures
        r@ == without_leading(s@, "./"@),
{
    let mut i: usize = 0;
    proof {
        reveal_strlit("./");
    }
    assert(s@.skip(0) == s@);
    while i < s.len() && begins_with(slice_subrange(s, i, s.len()), "./")
        invariant
            "./"@.len() == 2,
            i <= s.len(),
            without_leading(s@, "./"@) == without_leading(s@.skip(i as int), "./"@),
        decreases s.len() - i,
    {
        assert(s@.skip(i as int).skip(2) == s@.skip(i + 2));
        i += 2;
    }
    slice_subrange(s, i, s.len())
}

/// The top-level entry that a line of a listing is under.
fn find_line_root(line: &[char]) -> (root: Option<String>)
    ensures
        match root {
            Some(r) => line_root(line@) == Some(r@),
            None => line_root(line@) is None,
        },
{
    let entry = cut_leading_dots(trim(line));
    let n = measure_piece(entry, '/');
    if n == 0 {
        None
    } else {
        Some(text_of(slice_subrange(entry, 0, n)))
    }
}

/// The one top-level entry of what `tar` lists: `None` where the listing has
/// none, or more than one.
pub fn sole_root(listing: &str) -> (root: Option<String>)
    ensures
        match root {
            Some(r) => is_sole_root(listing@, r@),
            None => forall|r: Seq<char>| !is_sole_root(listing@, r),
        },
{
    let chars = chars_of(listing);
    let mut rest: &[char] = chars.as_slice();
    let mut found: Option<String> = None;
    let ghost all = pieces(listing@, '\n');
    let ghost mut done: int = 0;
    loop
        invariant_except_break
            0 <= done < all.len(),
            pieces(rest@, '\n') == all.skip(done),
            match found {
                Some(r) => exists|i: int| 0 <= i < done && line_root(#[trigger] all[i]) == Some(r@),
                None => true,
            },
            forall|i: int|
                0 <= i < done ==> (line_root(#[trigger] all[i]) matches Some(r) ==> found matches Some(
                    f,
                ) && f@ == r),
        invariant
            all == pieces(listing@, '\n'),
        ensures
            match found {
                Some(r) => exists|i: int|
                    0 <= i < all.len() && line_root(#[trigger] all[i]) == Some(r@),
                None => true,
            },
            forall|i: int|
                0 <= i < all.len() ==> (line_root(#[trigger] all[i]) matches Some(r)
                    ==> found matches Some(f) && f@ == r),
        decreases rest@.len(),
    {
        let n = measure_piece(rest, '\n');
        let line = slice_subrange(rest, 0, n);
        assert(line@ == pieces(rest@, '\n')[0]);
        assert(line@ == all[done]);
        let ghost had = found;
        match find_line_root(line) {
            Some(root) => match &found {
                Some(f) => {
                    if *f != root {
                        proof {
                            assert forall|r: Seq<char>| !is_sole_root(listing@, r) by {
                                let i = choose|i: int|
                                    0 <= i < done && line_root(#[trigger] all[i]) == Some(f@);
                                assert(is_root(listing@, f@));
                                assert(is_root(listing@, root@));
                            }
                        }
                        return None;
                    }
                },
                None => {
                    found = Some(root);
                },
            },
            None => {},
        }
        assert(match found {
            Some(r) => exists|i: int| 0 <= i < done + 1 && line_root(#[trigger] all[i]) == Some(r@),
            None => true,
        }) by {
            if had is Some {
                let i = choose|i: int|
                    0 <= i < done && line_root(#[trigger] all[i]) == Some(had->0@);
                assert(line_root(all[i]) == Some(found->0@));
            } else if found is Some {
                assert(line_root(all[done]) == Some(found->0@));
            }
        }
        if n >= rest.len() {
            assert(all.skip(done).len() == 1);
            break ;
        }
        proof {
            let tail = pieces(rest@.skip(n + 1), '\n');
            assert(tail.len() > 0);
            assert(all.skip(done + 1) == all.skip(done).skip(1));
            assert(tail == all.skip(done).skip(1));
            done = done + 1;
        }
        rest = slice_subrange(rest, n + 1, rest.len());
    }
    proof {
        match &found {
            Some(f) => {
                let i = choose|i: int|
                    0 <= i < all.len() && line_root(#[trigger] all[i]) == Some(f@);
                assert(is_root(listing@, f@));
                assert forall|other: Seq<char>| is_root(listing@, other) implies other == f@ by {
                    let k = choose|k: int|
                        0 <= k < pieces(listing@, '\n').len() && line_root(
                            #[trigger] pieces(listing@, '\n')[k],
                        ) == Some(other);
                    assert(line_root(all[k]) == Some(other));
                }
            },
            None => {
                assert forall|r: Seq<char>| !is_sole_root(listing@, r) by {
                    if is_root(listing@, r) {
                        let k = choose|k: int|
                            0 <= k < pieces(listing@, '\n').len() && line_root(
                                #[trigger] pieces(listing@, '\n')[k],
                            ) == Some(r);
                        assert(line_root(all[k]) == Some(r));
                    }
                }
            },
        }
    }
    found
}

/// The one top-level entry of a tarball, from what `tar` wrote when it listed
/// the tarball.
pub fn listed_root(stdout: &[u8]) -> (root: Option<String>)
    ensures
        match root {
            Some(r) => is_sole_root(lossy(stdout@), r@),
            None => forall|r: Seq<char>| !is_sole_root(lossy(stdout@), r),
        },
{
    sole_root(decode_lossy(stdout).as_str())
}

} // verus!
