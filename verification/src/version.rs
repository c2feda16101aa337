//! The version of a Perl source tree, read from its `patchlevel.h`.

use crate::text::{
    as_u32, chars_of, cut_prefix, first_some, lemma_first_some, measure_piece, measure_word,
    parse_u32, pieces, trim, trim_start, trimmed, trimmed_start, words,
};
use vstd::prelude::*;
use vstd::slice::slice_subrange;

verus! {

/// The number that a line `#define KEY NUMBER` gives for `key`.
pub open spec fn line_define(line: Seq<char>, key: Seq<char>) -> Option<u32> {
    let l = trimmed(line);
    let rest = trimmed_start(l.skip("#define"@.len() as int));
    let value = words(rest.skip(key.len() as int));
    if "#define"@.is_prefix_of(l) && key.is_prefix_of(rest) && value.len() > 0 {
        as_u32(value[0])
    } else {
        None
    }
}

/// The number that `text` gives for `key`: that of the first line with one.
pub open spec fn define_value(text: Seq<char>, key: Seq<char>) -> Option<u32> {
    first_some(pieces(text, '\n').map_values(|line: Seq<char>| line_define(line, key)))
}

/// The revision, version and subversion that a `patchlevel.h` gives.
pub open spec fn header_version(text: Seq<char>) -> Option<(u32, u32, u32)> {
    match (
        define_value(text, "PERL_REVISION"@),
        define_value(text, "PERL_VERSION"@),
        define_value(text, "PERL_SUBVERSION"@),
    ) {
        (Some(revision), Some(version), Some(subversion)) => Some((revision, version, subversion)),
        _ => None,
    }
}

/// Whether `make test_harness` is there: from Perl 5.8 on, and wherever the
/// version is not known.
pub open spec fn has_test_harness(version: Option<(u32, u32, u32)>) -> bool {
    match version {
        Some((revision, version, _)) => revision > 5 || (revision == 5 && version >= 8),
        None => true,
    }
}

/// The number that `line` gives for `key`.
fn parse_define_line(line: &[char], key: &str) -> (r: Option<u32>)
    ensures
        r == line_define(line@, key@),
{
    let l = trim(line);
    match cut_prefix(l, "#define") {
        None => None,
        Some(rest) => {
            let rest = trim_start(rest);
            match cut_prefix(rest, key) {
                None => None,
                Some(value) => {
                    let value = trim_start(value);
                    if value.len() == 0 {
                        None
                    } else {
                        let n = measure_word(value);
                        parse_u32(slice_subrange(value, 0, n))
                    }
                },
            }
        },
    }
}

/// The number that the first line `#define KEY NUMBER` of `text` gives for
/// `key`.
pub fn parse_define_u32(text: &str, key: &str) -> (r: Option<u32>)
    ensures
        r == define_value(text@, key@),
{
    let chars = chars_of(text);
    let mut rest: &[char] = chars.as_slice();
    loop
        invariant
            define_value(text@, key@) == define_value(rest@, key@),
        decreases rest@.len(),
    {
        let ghost f = |line: Seq<char>| line_define(line, key@);
        let n = measure_piece(rest, '\n');
        let line = slice_subrange(rest, 0, n);
        let value = parse_define_line(line, key);
        if n >= rest.len() {
            assert(line@ == rest@);
            proof {
                assert(pieces(rest@, '\n').map_values(f) == seq![value] + Seq::<Option<u32>>::empty());
                lemma_first_some(value, Seq::<Option<u32>>::empty());
            }
            return value;
        }
        let ghost tail = rest@.skip(n + 1);
        proof {
            assert(pieces(rest@, '\n').map_values(f) == seq![value] + pieces(tail, '\n').map_values(
                f,
            ));
            lemma_first_some(value, pieces(tail, '\n').map_values(f));
        }
        if value.is_some() {
            return value;
        }
        rest = slice_subrange(rest, n + 1, rest.len());
    }
}

/// The revision, version and subversion that the text of a `patchlevel.h`
/// gives.
pub fn perl_version_from_header(text: &str) -> (r: Option<(u32, u32, u32)>)
    ensures
        r == header_version(text@),
{
    match parse_define_u32(text, "PERL_REVISION") {
        None => None,
        Some(revision) => match parse_define_u32(text, "PERL_VERSION") {
            None => None,
            Some(version) => match parse_define_u32(text, "PERL_SUBVERSION") {
                None => None,
                Some(subversion) => Some((revision, version, subversion)),
            },
        },
    }
}

/// Whether the tree with this `patchlevel.h` has `make test_harness`; `None`
/// where the file could not be read.
pub fn uses_test_harness(header: Option<&str>) -> (yes: bool)
    ensures
        yes == has_test_harness(
            match header {
                Some(text) => header_version(text@),
                None => None,
            },
        ),
{
    match header {
        None => true,
        Some(text) => match perl_version_from_header(text) {
            Some((revision, version, _)) => revision > 5 || (revision == 5 && version >= 8),
            None => true,
        },
    }
}

} // verus!
