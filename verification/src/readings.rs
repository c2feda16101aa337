//! What is read out of headers, banners, URLs, listings and documents, said of
//! the texts that it is read from.

use crate::archive::{is_root, is_sole_root, line_root, url_name, url_path};
use crate::laws::{
    lemma_trimmed_end, lemma_trimmed_end_of_sum, perl_prefix_is_optional, trimming_is_final,
};
use crate::meaning::{
    a_word_is_one_word, before_a_separator, decimals_are_digits, lemma_before_separator,
    numbers_are_read_from_decimals, replacing_changes_one_character, white_space_parts_words,
};
use crate::msvc::{
    banner_cctype, banner_version, cctype, install_macros, sets_cctype, token_version,
};
use crate::paths::{drive_of, Platform};
use crate::releases::{
    distilled, find_query, is_meant, lemma_meant, list_query, listed, meant, release_name, stable,
    text_or_empty, wanted, FilterView, PerlReleaseView, ReleaseDoc,
};
use crate::text::{
    after_last, before, decimal, first_some, is_white, lemma_piece_len, opt_text, piece_len, pieces, replaced, trimmed, trimmed_end,
    trimmed_start, without_leading, without_trailing, words,
};
use crate::version::{define_value, has_test_harness, header_version, line_define};
use vstd::prelude::*;

verus! {

// ---------------------------------------------------------------------------
// `patchlevel.h`
// ---------------------------------------------------------------------------

/// Nothing but white space.
pub open spec fn is_space(s: Seq<char>) -> bool {
    forall|i: int| 0 <= i < s.len() ==> is_white(#[trigger] s[i])
}

proof fn lemma_skip_space(space: Seq<char>, s: Seq<char>)
    requires
        is_space(space),
    ensures
        trimmed_start(space + s) == trimmed_start(s),
        words(space + s) == words(s),
    decreases space.len(),
{
    if space.len() == 0 {
        assert(space + s =~= s);
    } else {
        assert((space + s)[0] == space[0]);
        assert((space + s).skip(1) =~= space.skip(1) + s);
        assert forall|i: int| 0 <= i < space.skip(1).len() implies is_white(
            #[trigger] space.skip(1)[i],
        ) by {
            assert(space.skip(1)[i] == space[i + 1]);
        }
        lemma_skip_space(space.skip(1), s);
    }
}

/// The first word of a word that white space or nothing follows.
proof fn lemma_first_word(word: Seq<char>, tail: Seq<char>)
    requires
        word.len() > 0,
        forall|i: int| 0 <= i < word.len() ==> !is_white(#[trigger] word[i]),
        tail.len() > 0 ==> is_white(tail[0]),
    ensures
        words(word + tail).len() > 0,
        words(word + tail)[0] == word,
{
    a_word_is_one_word(word);
    if tail.len() > 0 {
        white_space_parts_words(word, tail[0], tail.skip(1));
        assert(word + tail =~= word.push(tail[0]) + tail.skip(1));
    } else {
        assert(word + tail =~= word);
    }
}

/// A line that defines the key as a number gives that number, whatever white
/// space there is around, and whatever follows it.
pub proof fn defines_are_read(
    lead: Seq<char>,
    gap: Seq<char>,
    key: Seq<char>,
    space: Seq<char>,
    n: u32,
    tail: Seq<char>,
)
    requires
        is_space(lead),
        is_space(gap),
        is_space(space),
        key.len() > 0,
        !is_white(key[0]),
        tail.len() > 0 ==> is_white(tail[0]),
    ensures
        line_define(lead + "#define"@ + gap + key + space + decimal(n as nat) + tail, key) == Some(
            n,
        ),
{
    reveal_strlit("#define");
    let digits = decimal(n as nat);
    decimals_are_digits(n as nat, 0);
    let front = "#define"@ + gap + key + space + digits;
    let line = lead + "#define"@ + gap + key + space + digits + tail;
    assert(line =~= lead + (front + tail));
    lemma_skip_space(lead, front + tail);
    assert((front + tail)[0] == '#');
    assert(trimmed_start(front + tail) == front + tail);
    decimals_are_digits(n as nat, digits.len() - 1);
    assert(front.last() == digits.last());
    lemma_trimmed_end_of_sum(front, tail);
    let end = trimmed_end(tail);
    lemma_trimmed_end(tail);
    assert(end.len() > 0 ==> end[0] == tail.subrange(0, end.len() as int)[0]);
    let l = trimmed(line);
    assert(l == front + end);
    assert("#define"@ =~= l.subrange(0, 7));
    let after = key + space + digits + end;
    assert(l.skip(7) =~= gap + after);
    lemma_skip_space(gap, after);
    assert(after[0] == key[0]);
    assert(trimmed_start(after) == after);
    assert(key =~= after.subrange(0, key.len() as int));
    assert(after.skip(key.len() as int) =~= space + (digits + end));
    lemma_skip_space(space, digits + end);
    assert forall|i: int| 0 <= i < digits.len() implies !is_white(#[trigger] digits[i]) by {
        decimals_are_digits(n as nat, i);
    }
    lemma_first_word(digits, end);
    numbers_are_read_from_decimals(n as nat, 0);
    assert(Seq::new(0, |i: int| '0') + digits =~= digits);
}

/// A line that gives a number begins with `#define`, and the key follows.
pub proof fn only_defines_are_read(line: Seq<char>, key: Seq<char>)
    requires
        line_define(line, key) is Some,
    ensures
        "#define"@.is_prefix_of(trimmed(line)),
        key.is_prefix_of(trimmed_start(trimmed(line).skip("#define"@.len() as int))),
{
}

/// The first line that gives a number counts, and the others do not.
pub proof fn the_first_define_counts(line: Seq<char>, rest: Seq<char>, key: Seq<char>)
    requires
        !line.contains('\n'),
    ensures
        define_value(line, key) == line_define(line, key),
        define_value(line.push('\n') + rest, key) == if line_define(line, key) is Some {
            line_define(line, key)
        } else {
            define_value(rest, key)
        },
{
    let f = |l: Seq<char>| line_define(l, key);
    lemma_before_separator(line, '\n', rest);
    let all = pieces(line.push('\n') + rest, '\n').map_values(f);
    assert(all =~= seq![line_define(line, key)] + pieces(rest, '\n').map_values(f));
    crate::text::lemma_first_some(line_define(line, key), pieces(rest, '\n').map_values(f));
    lemma_one_piece(line, '\n');
    assert(pieces(line, '\n').map_values(f) =~= seq![line_define(line, key)] + seq![]);
    crate::text::lemma_first_some(line_define(line, key), seq![]);
}

proof fn lemma_one_piece(s: Seq<char>, sep: char)
    requires
        !s.contains(sep),
    ensures
        pieces(s, sep) == seq![s],
{
    lemma_piece_len(s, sep);
}

/// A header gives a version where it defines all three numbers, and it is made
/// of these; the test harness came with 5.8, and is taken to be there where the
/// version is not known.
pub proof fn headers_give_three_numbers(text: Seq<char>, r: u32, v: u32, s: u32)
    ensures
        header_version(text) == Some((r, v, s)) <==> define_value(text, "PERL_REVISION"@) == Some(r)
            && define_value(text, "PERL_VERSION"@) == Some(v) && define_value(
            text,
            "PERL_SUBVERSION"@,
        ) == Some(s),
        header_version(text) is None <==> define_value(text, "PERL_REVISION"@) is None
            || define_value(text, "PERL_VERSION"@) is None || define_value(
            text,
            "PERL_SUBVERSION"@,
        ) is None,
        has_test_harness(Some((r, v, s))) <==> r > 5 || (r == 5 && v >= 8),
        has_test_harness(None),
{
}

// ---------------------------------------------------------------------------
// Visual C++
// ---------------------------------------------------------------------------

proof fn lemma_decimal_has_no(n: nat, c: char)
    requires
        !('0' <= c <= '9'),
    ensures
        !decimal(n).contains(c),
{
    if decimal(n).contains(c) {
        let i = choose|i: int| 0 <= i < decimal(n).len() && decimal(n)[i] == c;
        decimals_are_digits(n, i);
    }
}

/// A word `MAJOR.MINOR.` gives a hundred times the one and the other, whatever
/// follows, where the major version is from 19 to 40; and nothing otherwise.
pub proof fn version_tokens_are_read(major: u32, minor: u32, build: Seq<char>)
    ensures
        token_version(decimal(major as nat) + "."@ + decimal(minor as nat) + "."@ + build) == if 19
            <= major <= 40 {
            Some((major * 100 + minor) as nat)
        } else {
            None
        },
{
    reveal_strlit(".");
    let a = decimal(major as nat);
    let b = decimal(minor as nat);
    let token = a + "."@ + b + "."@ + build;
    lemma_decimal_has_no(major as nat, '.');
    lemma_decimal_has_no(minor as nat, '.');
    let rest = b.push('.') + build;
    assert(token =~= a.push('.') + rest);
    lemma_before_separator(a, '.', rest);
    lemma_before_separator(b, '.', build);
    let tail = pieces(build, '.');
    crate::laws::pieces_rejoin(build, '.');
    assert(pieces(token, '.') =~= seq![a, b] + tail);
    assert(pieces(token, '.')[0] == a);
    assert(pieces(token, '.')[1] == b);
    numbers_are_read_from_decimals(major as nat, 0);
    numbers_are_read_from_decimals(minor as nat, 0);
    assert(Seq::new(0, |i: int| '0') + a =~= a);
    assert(Seq::new(0, |i: int| '0') + b =~= b);
}

/// A word with one dot or none is no version.
pub proof fn a_version_has_three_parts(a: Seq<char>, b: Seq<char>)
    requires
        !a.contains('.'),
        !b.contains('.'),
    ensures
        token_version(a) is None,
        token_version(a.push('.') + b) is None,
{
    lemma_one_piece(a, '.');
    lemma_one_piece(b, '.');
    lemma_before_separator(a, '.', b);
}

proof fn lemma_first_some_of_sum<T>(a: Seq<Option<T>>, b: Seq<Option<T>>)
    ensures
        first_some(a + b) == if first_some(a) is Some {
            first_some(a)
        } else {
            first_some(b)
        },
    decreases a.len(),
{
    if a.len() == 0 {
        assert(a + b =~= b);
    } else {
        assert((a + b)[0] == a[0]);
        assert((a + b).skip(1) =~= a.skip(1) + b);
        lemma_first_some_of_sum(a.skip(1), b);
    }
}

/// The first version in a banner counts, whatever the words around it; and that
/// of a single word is the word's own.
pub proof fn the_first_version_counts(a: Seq<char>, c: char, b: Seq<char>, word: Seq<char>)
    requires
        is_white(c),
        word.len() > 0,
        forall|i: int| 0 <= i < word.len() ==> !is_white(#[trigger] word[i]),
    ensures
        banner_version(a.push(c) + b) == if banner_version(a) is Some {
            banner_version(a)
        } else {
            banner_version(b)
        },
        banner_version(word) == token_version(word),
        banner_version(Seq::<char>::empty()) is None,
{
    let f = |token: Seq<char>| token_version(token);
    white_space_parts_words(a, c, b);
    let all = words(a.push(c) + b).map_values(f);
    assert(all =~= words(a).map_values(f) + words(b).map_values(f));
    lemma_first_some_of_sum(words(a).map_values(f), words(b).map_values(f));
    a_word_is_one_word(word);
    assert(words(word).map_values(f) =~= seq![token_version(word)] + seq![]);
    crate::text::lemma_first_some(token_version(word), seq![]);
    a_word_is_one_word(Seq::<char>::empty());
    assert(words(Seq::<char>::empty()).map_values(f) =~= seq![]);
}

/// From 19.00 to 19.39, the `CCTYPE` is `MSVC14` and the first digit of the
/// minor version; up to 19.49 it stays at 3, and it is 5 from there on. There is
/// none for an older compiler.
pub proof fn cctypes_follow_the_version(version: nat)
    ensures
        version < 1900 ==> cctype(version) is None,
        1900 <= version < 1940 ==> cctype(version) == Some(
            "MSVC14"@ + decimal(((version - 1900) / 10) as nat),
        ),
        1940 <= version < 1950 ==> cctype(version) == Some("MSVC14"@ + decimal(3)),
        version >= 1950 ==> cctype(version) == Some("MSVC14"@ + decimal(5)),
{
    reveal_strlit("MSVC14");
    reveal_strlit("MSVC140");
    reveal_strlit("MSVC141");
    reveal_strlit("MSVC142");
    reveal_strlit("MSVC143");
    reveal_strlit("MSVC145");
    assert forall|d: nat| d < 10 implies #[trigger] decimal(d) == seq![crate::text::digit(d)] by {}
    assert("MSVC140"@ =~= "MSVC14"@ + decimal(0));
    assert("MSVC141"@ =~= "MSVC14"@ + decimal(1));
    assert("MSVC142"@ =~= "MSVC14"@ + decimal(2));
    assert("MSVC143"@ =~= "MSVC14"@ + decimal(3));
    assert("MSVC145"@ =~= "MSVC14"@ + decimal(5));
    if 1900 <= version < 1940 {
        let d = (version - 1900) / 10;
        assert(d == 0 || d == 1 || d == 2 || d == 3);
    }
}

/// The `CCTYPE` of a banner is that of the version in it, where there is one.
pub proof fn banners_give_a_cctype(banner: Seq<char>, version: nat)
    ensures
        banner_version(banner) is None ==> banner_cctype(banner) is None,
        banner_version(banner) == Some(version) && version <= u32::MAX ==> banner_cctype(banner)
            == cctype(version),
        banner_version(banner) == Some(version) && version > u32::MAX ==> banner_cctype(banner)
            is None,
{
}

/// The options set a `CCTYPE` where one of their words begins with `CCTYPE=`,
/// in whatever place.
pub proof fn a_cctype_may_stand_anywhere(
    a: Seq<char>,
    c: char,
    b: Seq<char>,
    word: Seq<char>,
)
    requires
        is_white(c),
        forall|i: int| 0 <= i < word.len() ==> !is_white(#[trigger] word[i]),
    ensures
        sets_cctype(a.push(c) + b) <==> sets_cctype(a) || sets_cctype(b),
        sets_cctype(word) <==> "CCTYPE="@.is_prefix_of(word),
{
    reveal_strlit("CCTYPE=");
    white_space_parts_words(a, c, b);
    let all = words(a.push(c) + b);
    let n = words(a).len() as int;
    if sets_cctype(a) {
        let i = choose|i: int| 0 <= i < n && "CCTYPE="@.is_prefix_of(#[trigger] words(a)[i]);
        assert(all[i] == words(a)[i]);
    }
    if sets_cctype(b) {
        let i = choose|i: int|
            0 <= i < words(b).len() && "CCTYPE="@.is_prefix_of(#[trigger] words(b)[i]);
        assert(all[n + i] == words(b)[i]);
    }
    if sets_cctype(a.push(c) + b) {
        let i = choose|i: int| 0 <= i < all.len() && "CCTYPE="@.is_prefix_of(#[trigger] all[i]);
        if i < n {
            assert(words(a)[i] == all[i]);
        } else {
            assert(words(b)[i - n] == all[i]);
        }
    }
    a_word_is_one_word(word);
    if "CCTYPE="@.is_prefix_of(word) {
        assert(words(word)[0] == word);
    }
}

/// The first macro is the prefix with each `/` turned into `\`, and the only
/// other is its drive, where it has one: the letter of a `C:` in front, as a
/// capital. A Posix path has none.
pub proof fn macros_give_the_prefix(dst: Seq<char>, platform: Platform, i: int)
    ensures
        ({
            let macros = install_macros(dst, platform);
            let top = macros[0];
            &&& macros.len() == if drive_of(dst, platform) is Some {
                2int
            } else {
                1int
            }
            &&& top.len() == "INST_TOP="@.len() + dst.len()
            &&& "INST_TOP="@.is_prefix_of(top)
            &&& 0 <= i < dst.len() ==> top["INST_TOP="@.len() + i] == if dst[i] == '/' {
                '\\'
            } else {
                dst[i]
            }
            &&& drive_of(dst, platform) matches Some(drive) ==> macros[1] == "INST_DRV="@ + drive
            &&& platform is Posix ==> macros.len() == 1
            &&& platform is Windows && dst.len() >= 2 && 'a' <= dst[0] <= 'z' && dst[1] == ':'
                ==> macros.len() == 2 && macros[1] == "INST_DRV="@ + seq![
                (dst[0] as u32 - 32) as char,
                ':',
            ]
            &&& platform is Windows && dst.len() >= 2 && 'A' <= dst[0] <= 'Z' && dst[1] == ':'
                ==> macros.len() == 2 && macros[1] == "INST_DRV="@ + dst.take(2)
        }),
{
    replacing_changes_one_character(dst, '/', '\\', i);
    let top = "INST_TOP="@ + replaced(dst, '/', '\\');
    assert(install_macros(dst, platform)[0] == top);
    assert(top.subrange(0, "INST_TOP="@.len() as int) =~= "INST_TOP="@);
    if dst.len() >= 2 {
        assert(dst.take(2) =~= seq![dst[0], dst[1]]);
    }
}

// ---------------------------------------------------------------------------
// URLs and listings
// ---------------------------------------------------------------------------

proof fn lemma_after_last_of(a: Seq<char>, sep: char, name: Seq<char>)
    requires
        !name.contains(sep),
    ensures
        after_last(a.push(sep) + name, sep) == name,
        after_last(name, sep) == name,
    decreases name.len(),
{
    let s = a.push(sep) + name;
    if name.len() == 0 {
        assert(s.last() == sep);
    } else {
        let front = name.drop_last();
        assert(name.last() != sep) by {
            assert(name[name.len() - 1] == name.last());
        }
        assert(!front.contains(sep)) by {
            if front.contains(sep) {
                let i = choose|i: int| 0 <= i < front.len() && front[i] == sep;
                assert(name[i] == sep);
            }
        }
        lemma_after_last_of(a, sep, front);
        assert(s.last() == name.last());
        assert(s.drop_last() =~= a.push(sep) + front);
        assert(front.push(name.last()) =~= name);
    }
}

proof fn lemma_without_trailing_of(s: Seq<char>, slashes: nat)
    requires
        s.len() > 0 ==> s.last() != '/',
    ensures
        without_trailing(s + Seq::new(slashes, |i: int| '/'), '/') == s,
    decreases slashes,
{
    let all = s + Seq::new(slashes, |i: int| '/');
    if slashes > 0 {
        let fewer = (slashes - 1) as nat;
        assert(all.last() == '/');
        assert(all.drop_last() =~= s + Seq::new(fewer, |i: int| '/'));
        lemma_without_trailing_of(s, fewer);
    } else {
        assert(all =~= s);
    }
}

/// What a URL brings is named by the last part of its path, where that has a
/// dot, and by a name of its own where it has none; slashes behind it, a query
/// and a fragment do not matter.
pub proof fn urls_are_named_by_their_last_part(
    front: Seq<char>,
    name: Seq<char>,
    slashes: nat,
    tail: Seq<char>,
)
    requires
        !front.contains('?') && !front.contains('#'),
        name.len() > 0,
        !name.contains('/') && !name.contains('?') && !name.contains('#'),
        tail.len() > 0 ==> tail[0] == '?' || tail[0] == '#',
    ensures
        url_name(front.push('/') + name + Seq::new(slashes, |i: int| '/') + tail) == if name.contains(
            '.',
        ) {
            name
        } else {
            "perl-source.tar.gz"@
        },
{
    let path = front.push('/') + name + Seq::new(slashes, |i: int| '/');
    let url = path + tail;
    assert forall|c: char| c == '?' || c == '#' implies !path.contains(c) by {
        if path.contains(c) {
            let i = choose|i: int| 0 <= i < path.len() && path[i] == c;
            if i < front.len() {
                assert(front[i] == c);
            } else if i > front.len() && i <= front.len() + name.len() {
                assert(name[i - front.len() - 1] == c);
            }
        }
    }
    lemma_url_path(path, tail);
    assert(name[name.len() - 1] == name.last());
    let bare = front.push('/') + name;
    assert(bare.last() == name.last());
    lemma_without_trailing_of(bare, slashes);
    lemma_after_last_of(front, '/', name);
}

/// A URL without a slash is its own last part, and one of nothing but slashes
/// has no part.
pub proof fn short_urls_are_named_too(name: Seq<char>, slashes: nat)
    requires
        name.len() > 0,
        !name.contains('/') && !name.contains('?') && !name.contains('#'),
    ensures
        name.contains('.') ==> url_name(name) == name,
        !name.contains('.') ==> url_name(name) == "perl-source.tar.gz"@,
        url_name(Seq::new(slashes, |i: int| '/')) == "perl-source.tar.gz"@,
{
    lemma_url_path(name, seq![]);
    assert(name + Seq::<char>::empty() =~= name);
    assert(name[name.len() - 1] == name.last());
    assert(without_trailing(name, '/') == name);
    lemma_after_last_of(seq![], '/', name);
    let all = Seq::new(slashes, |i: int| '/');
    assert forall|c: char| c == '?' || c == '#' implies !all.contains(c) by {}
    lemma_url_path(all, seq![]);
    assert(all + Seq::<char>::empty() =~= all);
    lemma_without_trailing_of(seq![], slashes);
    assert(Seq::<char>::empty() + all =~= all);
    assert(after_last(Seq::<char>::empty(), '/') =~= seq![]);
}

proof fn lemma_url_path(path: Seq<char>, tail: Seq<char>)
    requires
        !path.contains('?') && !path.contains('#'),
        tail.len() > 0 ==> tail[0] == '?' || tail[0] == '#',
    ensures
        url_path(path + tail) == path,
{
    let url = path + tail;
    if tail.len() == 0 {
        assert(url =~= path);
        before_a_separator(path, '?', seq![]);
        before_a_separator(path, '#', seq![]);
    } else if tail[0] == '?' {
        assert(url =~= path.push('?') + tail.skip(1));
        before_a_separator(path, '?', tail.skip(1));
        before_a_separator(path, '#', seq![]);
    } else {
        let cut = before(url, '?');
        lemma_piece_len(url, '?');
        let n = piece_len(url, '?') as int;
        assert(n > path.len()) by {
            if n < path.len() {
                assert(path[n] == url[n]);
                assert(path.contains('?'));
            } else if n == path.len() {
                assert(url[n] == '#');
            }
        }
        assert(cut =~= path.push('#') + tail.subrange(1, n - path.len()));
        before_a_separator(path, '#', tail.subrange(1, n - path.len()));
    }
}

/// The top-level entry of a line is what stands before its first `/`, and the
/// whole line where it has none; a line that begins with `/` has none.
pub proof fn lines_are_under_their_first_name(root: Seq<char>, rest: Seq<char>)
    requires
        root.len() > 0 ==> !is_white(root[0]),
        !root.contains('/'),
        root != "."@,
        rest.len() > 0 ==> !is_white(rest.last()),
    ensures
        line_root(root.push('/') + rest) == if root.len() > 0 {
            Some(root)
        } else {
            None
        },
{
    reveal_strlit("./");
    reveal_strlit(".");
    let line = root.push('/') + rest;
    assert(line[0] == if root.len() > 0 {
        root[0]
    } else {
        '/'
    });
    assert(line.last() == if rest.len() > 0 {
        rest.last()
    } else {
        '/'
    });
    assert(trimmed(line) == line);
    assert(!"./"@.is_prefix_of(line)) by {
        if "./"@.is_prefix_of(line) {
            assert(line.subrange(0, 2)[0] == '.' && line.subrange(0, 2)[1] == '/');
            assert(line[0] == '.' && line[1] == '/');
            if root.len() > 1 {
                assert(root[1] == '/');
                assert(root.contains('/'));
            }
            assert(root =~= "."@);
        }
    }
    assert(without_leading(line, "./"@) == line);
    before_a_separator(root, '/', rest);
}

/// A line without `/` is its own top-level entry; and each `./` in front of a
/// line is passed over.
pub proof fn leading_dots_are_passed_over(line: Seq<char>)
    requires
        line.len() > 0,
        !is_white(line[0]) && !is_white(line.last()),
    ensures
        !line.contains('/') ==> line_root(line) == Some(line),
        line_root("./"@ + line) == line_root(line),
        line_root("./"@) is None,
{
    reveal_strlit("./");
    assert(trimmed(line) == line);
    if !line.contains('/') {
        assert(!"./"@.is_prefix_of(line)) by {
            if "./"@.is_prefix_of(line) {
                assert(line.subrange(0, 2)[1] == '/');
                assert(line[1] == '/');
            }
        }
        assert(without_leading(line, "./"@) == line);
        before_a_separator(line, '/', seq![]);
    }
    let dotted = "./"@ + line;
    assert(dotted[0] == '.');
    assert(dotted.last() == line.last());
    assert(trimmed(dotted) == dotted);
    assert("./"@ =~= dotted.subrange(0, 2));
    assert(dotted.skip(2) =~= line);
    assert(without_leading(dotted, "./"@) == without_leading(line, "./"@));
    let dots = "./"@;
    assert(trimmed(dots) == dots);
    assert(dots.subrange(0, 2) =~= dots);
    assert(dots.skip(2) =~= seq![]);
    assert(without_leading(dots, dots) == without_leading(dots.skip(2), dots));
    assert(without_leading(dots.skip(2), dots) =~= seq![]);
}

/// White space around a line does not matter, and neither does a blank line.
pub proof fn space_around_lines_does_not_matter(line: Seq<char>)
    ensures
        line_root(trimmed(line)) == line_root(line),
        trimmed(line).len() == 0 ==> line_root(line) is None,
{
    trimming_is_final(line);
    if trimmed(line).len() == 0 {
        reveal_strlit("./");
    }
}

/// A listing has the top-level entries of its lines.
pub proof fn listings_have_the_roots_of_their_lines(
    line: Seq<char>,
    rest: Seq<char>,
    root: Seq<char>,
)
    requires
        !line.contains('\n'),
    ensures
        is_root(line, root) <==> line_root(line) == Some(root),
        is_root(line.push('\n') + rest, root) <==> line_root(line) == Some(root) || is_root(
            rest,
            root,
        ),
{
    lemma_before_separator(line, '\n', rest);
    lemma_one_piece(line, '\n');
    let all = pieces(line.push('\n') + rest, '\n');
    let more = pieces(rest, '\n');
    assert(pieces(line, '\n')[0] == line);
    assert(all[0] == line);
    if is_root(rest, root) {
        let i = choose|i: int| 0 <= i < more.len() && line_root(#[trigger] more[i]) == Some(root);
        assert(all[i + 1] == more[i]);
    }
    if is_root(line.push('\n') + rest, root) {
        let i = choose|i: int| 0 <= i < all.len() && line_root(#[trigger] all[i]) == Some(root);
        if i > 0 {
            assert(more[i - 1] == all[i]);
        }
    }
}

/// The sole root is a root, and no listing with two roots has one.
pub proof fn two_roots_are_no_sole_root(listing: Seq<char>, a: Seq<char>, b: Seq<char>)
    ensures
        is_sole_root(listing, a) ==> is_root(listing, a),
        is_root(listing, a) && is_root(listing, b) && a != b ==> forall|root: Seq<char>|
            !is_sole_root(listing, root),
        is_root(listing, a) && (forall|other: Seq<char>| is_root(listing, other) ==> other == a)
            ==> is_sole_root(listing, a),
{
}

// ---------------------------------------------------------------------------
// Releases
// ---------------------------------------------------------------------------

/// A release name is the version as it was given, without the white space
/// around it, and with `perl-` in front, once.
pub proof fn release_names_hold_the_version(version: Seq<char>)
    ensures
        "perl-"@.is_prefix_of(trimmed(version)) ==> release_name(version) == trimmed(version),
        !"perl-"@.is_prefix_of(trimmed(version)) ==> release_name(version) == "perl-"@ + trimmed(
            version,
        ),
{
}

/// A document with these fields has the term.
pub open spec fn has_term(
    fields: Map<Seq<char>, Seq<char>>,
    term: (Seq<char>, Seq<char>),
) -> bool {
    fields.contains_key(term.0) && fields[term.0] == term.1
}

/// A search with this filter finds a document with these fields.
pub open spec fn finds(filter: FilterView, fields: Map<Seq<char>, Seq<char>>) -> bool {
    match filter {
        FilterView::Term(term) => has_term(fields, term),
        FilterView::Bool { must, should, minimum_should_match } => {
            &&& forall|i: int| 0 <= i < must.len() ==> has_term(fields, #[trigger] must[i])
            &&& should.filter(|term: (Seq<char>, Seq<char>)| has_term(fields, term)).len()
                >= minimum_should_match
        },
    }
}

/// The search for a version finds the Perl with the release name of that
/// version, and the one that MetaCPAN gives this version, and nothing else; the
/// newest comes first, and at least one of them comes.
pub proof fn the_release_is_found(version: Seq<char>, fields: Map<Seq<char>, Seq<char>>)
    ensures
        finds(find_query(version).filter, fields) <==> has_term(fields, ("distribution"@, "perl"@))
            && (has_term(fields, ("name"@, release_name(version))) || has_term(
            fields,
            ("version"@, trimmed(version)),
        )),
        find_query(version).from == 0,
        find_query(version).size == 5,
        find_query(version).sort == seq![("date"@, "desc"@)],
{
    let q = find_query(version);
    let must = q.filter->must;
    let should = q.filter->should;
    let p = |term: (Seq<char>, Seq<char>)| has_term(fields, term);
    assert(must[0] == ("distribution"@, "perl"@));
    assert(should =~= seq![("name"@, release_name(version)), ("version"@, trimmed(version))]);
    reveal(Seq::filter);
    let one = should.drop_last();
    assert(one =~= seq![should[0]]);
    assert(one.drop_last() =~= seq![]);
    assert(one.drop_last().filter(p).len() == 0);
    assert(one.filter(p).len() == if p(should[0]) {
        1int
    } else {
        0int
    });
    assert(should.filter(p).len() == one.filter(p).len() + if p(should[1]) {
        1int
    } else {
        0int
    });
    if has_term(fields, ("distribution"@, "perl"@)) {
        assert forall|i: int| 0 <= i < must.len() implies has_term(fields, #[trigger] must[i]) by {}
    }
}

/// A release is found under its version with `perl-` in front as it is without.
pub proof fn the_release_is_found_under_either_name(
    version: Seq<char>,
    fields: Map<Seq<char>, Seq<char>>,
)
    requires
        trimmed(version).len() > 0 ==> !is_white(version[0]),
        !"perl-"@.is_prefix_of(trimmed(version)),
        has_term(fields, ("distribution"@, "perl"@)),
        has_term(fields, ("name"@, "perl-"@ + trimmed(version))),
    ensures
        finds(find_query(version).filter, fields),
        finds(find_query("perl-"@ + version).filter, fields),
{
    perl_prefix_is_optional(version);
    the_release_is_found(version, fields);
    the_release_is_found("perl-"@ + version, fields);
}

/// The search for all releases finds every Perl and nothing else, the newest
/// first.
pub proof fn every_perl_is_found(from: nat, fields: Map<Seq<char>, Seq<char>>)
    ensures
        finds(list_query(from).filter, fields) <==> has_term(fields, ("distribution"@, "perl"@)),
        list_query(from).from == from,
        list_query(from).size == 1000,
        list_query(from).sort == seq![("date"@, "desc"@)],
{
}

/// A release says what its document says, nothing where that says nothing; its
/// version is what follows `perl-` in its name, and the document's own where
/// the name does not begin so.
pub proof fn releases_say_what_documents_say(doc: ReleaseDoc, version: Seq<char>)
    ensures
        doc.name matches Some(name) ==> distilled(doc).name == name@,
        doc.name is None ==> distilled(doc).name.len() == 0,
        doc.author matches Some(author) ==> distilled(doc).author == author@,
        doc.author is None ==> distilled(doc).author.len() == 0,
        doc.download_url matches Some(url) ==> distilled(doc).download_url == url@,
        doc.download_url is None ==> distilled(doc).download_url.len() == 0,
        distilled(doc).archive == opt_text(doc.archive),
        distilled(doc).checksum_sha256 == opt_text(doc.checksum_sha256),
        distilled(doc).date == opt_text(doc.date),
        distilled(doc).maturity == opt_text(doc.maturity),
        distilled(doc).status == opt_text(doc.status),
        distilled(doc).name == "perl-"@ + version ==> distilled(doc).version == version,
        !"perl-"@.is_prefix_of(distilled(doc).name) ==> (match doc.version {
            Some(v) => distilled(doc).version == v@,
            None => distilled(doc).version.len() == 0,
        }),
        distilled(doc).is_developer() <==> (doc.maturity matches Some(m) && m@ == "developer"@),
{
    let name = "perl-"@ + version;
    assert(name.skip("perl-"@.len() as int) =~= version);
    assert(name.subrange(0, "perl-"@.len() as int) =~= "perl-"@);
}

/// The list of all releases has one for each document, in order.
pub proof fn all_releases_are_listed_in_order(docs: Seq<ReleaseDoc>, i: int)
    requires
        0 <= i < docs.len(),
    ensures
        listed(docs, true).len() == docs.len(),
        listed(docs, true)[i] == distilled(docs[i]),
{
    let all = docs.map_values(|doc: ReleaseDoc| distilled(doc));
    lemma_all_wanted(all);
}

proof fn lemma_all_wanted(all: Seq<PerlReleaseView>)
    ensures
        all.filter(wanted(true)) == all,
    decreases all.len(),
{
    reveal(Seq::filter);
    if all.len() > 0 {
        lemma_all_wanted(all.drop_last());
        assert(all =~= all.drop_last().push(all.last()));
    }
}

/// Of several documents with the right name the first is meant.
pub proof fn the_first_exact_name_is_meant(docs: Seq<ReleaseDoc>, version: Seq<char>, k: int)
    requires
        0 <= k < docs.len(),
        distilled(docs[k]).name == release_name(version),
        forall|h: int|
            0 <= h < k ==> distilled(#[trigger] docs[h]).name != release_name(version),
    ensures
        meant(docs, version) == k,
{
    assert forall|h: int| 0 <= h < k implies text_or_empty((#[trigger] docs[h]).name)
        != release_name(version) by {
        assert(distilled(docs[h]).name != release_name(version));
    }
    assert(is_meant(docs, version, k));
    lemma_meant(docs, version, k);
}

/// A stable release is one that is not under development, and says what its
/// document says.
pub proof fn stable_releases_are_not_under_development(doc: ReleaseDoc)
    ensures
        stable(doc) is None <==> (doc.maturity matches Some(m) && m@ == "developer"@),
        stable(doc) is Some ==> stable(doc) == Some(distilled(doc)),
{
}

} // verus!
