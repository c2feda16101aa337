//! What holds of the library as a whole.

use crate::archive::{is_sole_root, line_root, url_name, url_path, url_segment};
use crate::built::{base_name, is_base_len, link_plan, version_at};
use crate::config::{any_begins_with, any_holds, configure_arguments, prefix_option};
use crate::msvc::install_macros;
use crate::paths::{drive_of, Platform};
use crate::releases::{
    distilled, empty_listing, is_meant, list_query, listed, listing_next, meant, release_name,
    text_or_empty, version_in, wanted, ListedView, ListingView, PerlReleaseView, ReleaseDoc,
    ReleaseQueryView, PAGE_SIZE,
};
use crate::text::{
    after_last, as_u32, before, decimal, digit, holds, is_digit, is_numeral, is_white, joined,
    lemma_piece_len, lemma_trimmed_start, lemma_word_len, number, occurs_at, piece_len, pieces,
    replaced, trimmed, trimmed_end, trimmed_start, without_leading, without_trailing, word_len,
    words,
};
use vstd::prelude::*;

verus! {

// ---------------------------------------------------------------------------
// Text
// ---------------------------------------------------------------------------

/// The words of a text are not empty, and there is no white space in them.
pub proof fn words_are_words(s: Seq<char>, i: int, k: int)
    requires
        0 <= i < words(s).len(),
    ensures
        words(s)[i].len() > 0,
        0 <= k < words(s)[i].len() ==> !is_white(words(s)[i][k]),
    decreases s.len(),
{
    let t = trimmed_start(s);
    let n = word_len(t) as int;
    lemma_trimmed_start(s);
    lemma_word_len(t);
    if i == 0 {
        if 0 <= k < n {
            lemma_word_chars(t, k);
        }
    } else {
        words_are_words(t.skip(n), i - 1, k);
    }
}

proof fn lemma_word_chars(s: Seq<char>, k: int)
    requires
        0 <= k < word_len(s),
    ensures
        !is_white(s[k]),
    decreases s.len(),
{
    lemma_word_len(s);
    if k > 0 {
        lemma_word_chars(s.skip(1), k - 1);
        assert(s.skip(1)[k - 1] == s[k]);
    }
}

/// Joining the pieces of a text with what they were split at gives the text
/// back.
pub proof fn pieces_rejoin(s: Seq<char>, sep: char)
    ensures
        joined(pieces(s, sep), seq![sep]) == s,
        pieces(s, sep).len() > 0,
    decreases s.len(),
{
    let n = piece_len(s, sep) as int;
    lemma_piece_len(s, sep);
    if n < s.len() {
        let rest = s.skip(n + 1);
        pieces_rejoin(rest, sep);
        lemma_joined_front(s.take(n), pieces(rest, sep), seq![sep]);
        assert(s =~= s.take(n) + seq![sep] + rest);
    }
}

proof fn lemma_joined_front(first: Seq<char>, rest: Seq<Seq<char>>, sep: Seq<char>)
    requires
        rest.len() > 0,
    ensures
        joined(seq![first] + rest, sep) == first + sep + joined(rest, sep),
    decreases rest.len(),
{
    let all = seq![first] + rest;
    if rest.len() == 1 {
        assert(all.drop_last() =~= seq![first]);
        assert(joined(all.drop_last(), sep) == first);
        assert(all.last() == rest[0]);
    } else {
        assert(all.drop_last() =~= seq![first] + rest.drop_last());
        assert(all.last() == rest.last());
        lemma_joined_front(first, rest.drop_last(), sep);
        assert(joined(all, sep) =~= first + sep + joined(rest, sep));
    }
}

/// No piece holds what the text was split at.
pub proof fn pieces_hold_no_separator(s: Seq<char>, sep: char, i: int)
    requires
        0 <= i < pieces(s, sep).len(),
    ensures
        !pieces(s, sep)[i].contains(sep),
    decreases s.len(),
{
    let n = piece_len(s, sep) as int;
    lemma_piece_len(s, sep);
    if n < s.len() && i > 0 {
        pieces_hold_no_separator(s.skip(n + 1), sep, i - 1);
    }
}

/// A number in decimal reads as that number again.
pub proof fn decimal_reads_back(n: u32)
    ensures
        as_u32(decimal(n as nat)) == Some(n),
{
    lemma_decimal(n as nat);
}

proof fn lemma_decimal(n: nat)
    ensures
        is_numeral(decimal(n)),
        number(decimal(n)) == n,
    decreases n,
{
    if n < 10 {
        assert(number(decimal(n).drop_last()) == 0);
        assert(decimal(n).last() == digit(n));
    } else {
        lemma_decimal(n / 10);
        assert(decimal(n).drop_last() =~= decimal(n / 10));
        assert(decimal(n).last() == digit(n % 10));
        assert forall|i: int| 0 <= i < decimal(n).len() implies is_digit(#[trigger] decimal(n)[i]) by {
            if i < decimal(n / 10).len() {
                assert(is_digit(decimal(n / 10)[i]));
            }
        }
    }
}

/// Trimming leaves no white space at either end, and trimming again changes
/// nothing.
pub proof fn trimming_is_final(s: Seq<char>)
    ensures
        trimmed(s).len() > 0 ==> !is_white(trimmed(s)[0]) && !is_white(trimmed(s).last()),
        trimmed(trimmed(s)) == trimmed(s),
{
    lemma_trimmed_start(s);
    lemma_trimmed_end(trimmed_start(s));
}

pub(crate) proof fn lemma_trimmed_end(s: Seq<char>)
    ensures
        trimmed_end(s).is_prefix_of(s),
        trimmed_end(s).len() > 0 ==> !is_white(trimmed_end(s).last()),
    decreases s.len(),
{
    if s.len() > 0 && is_white(s.last()) {
        lemma_trimmed_end(s.drop_last());
        let t = trimmed_end(s);
        assert(s.subrange(0, t.len() as int) =~= s.drop_last().subrange(0, t.len() as int));
    } else {
        assert(s.subrange(0, s.len() as int) =~= s);
    }
}

// ---------------------------------------------------------------------------
// Releases
// ---------------------------------------------------------------------------

/// A release name begins with `perl-`.
pub proof fn release_names_begin_with_perl(version: Seq<char>)
    ensures
        "perl-"@.is_prefix_of(release_name(version)),
{
    let v = trimmed(version);
    assert(("perl-"@ + v).subrange(0, "perl-"@.len() as int) =~= "perl-"@);
}

/// The release name of a release name is that name.
pub proof fn release_name_of_a_name(version: Seq<char>)
    ensures
        release_name(release_name(version)) == release_name(version),
{
    release_names_begin_with_perl(version);
    trimming_is_final(version);
    let v = trimmed(version);
    if !"perl-"@.is_prefix_of(v) {
        lemma_perl_dash(v);
    }
}

/// `perl-` in front of a version that has no white space around it is left as
/// it is by trimming.
proof fn lemma_perl_dash(v: Seq<char>)
    requires
        v.len() > 0 ==> !is_white(v.last()),
    ensures
        trimmed("perl-"@ + v) == "perl-"@ + v,
{
    reveal_strlit("perl-");
    let name = "perl-"@ + v;
    assert(name[0] == 'p');
    if v.len() > 0 {
        assert(name.last() == v.last());
    } else {
        assert(name =~= "perl-"@);
        assert(name.last() == '-');
    }
}

/// The `perl-` in front of a version may be left out. White space in front of
/// the version would stand between the two.
pub proof fn perl_prefix_is_optional(version: Seq<char>)
    requires
        trimmed(version).len() > 0 ==> !is_white(version[0]),
        !"perl-"@.is_prefix_of(trimmed(version)),
    ensures
        release_name("perl-"@ + version) == release_name(version),
{
    reveal_strlit("perl-");
    let name = "perl-"@ + version;
    assert(name[0] == 'p');
    lemma_trimmed_end_of_sum("perl-"@, version);
    assert(trimmed_end(version) == trimmed(version)) by {
        lemma_trimmed_end(trimmed_start(version));
        lemma_trimmed_start(version);
        if trimmed(version).len() == 0 {
            lemma_blank(version);
        }
    }
    assert(("perl-"@ + trimmed(version)).subrange(0, 5) =~= "perl-"@);
}

/// Trimming the end stops at a character that is not white space.
pub(crate) proof fn lemma_trimmed_end_of_sum(front: Seq<char>, s: Seq<char>)
    requires
        front.len() > 0,
        !is_white(front.last()),
    ensures
        trimmed_end(front + s) == front + trimmed_end(s),
    decreases s.len(),
{
    if s.len() > 0 {
        assert((front + s).last() == s.last());
        assert((front + s).drop_last() =~= front + s.drop_last());
        lemma_trimmed_end_of_sum(front, s.drop_last());
    } else {
        assert(front + s =~= front);
    }
}

/// A text that trimming leaves nothing of is white space from either end.
proof fn lemma_blank(s: Seq<char>)
    requires
        trimmed(s).len() == 0,
    ensures
        trimmed_end(s).len() == 0,
{
    let t = trimmed_start(s);
    lemma_trimmed_start(s);
    if t.len() > 0 {
        lemma_trimmed_end_of_sum(seq![t[0]], t.skip(1));
        assert(seq![t[0]] + t.skip(1) =~= t);
    }
    lemma_all_white(s);
    lemma_white_end(s);
}

proof fn lemma_all_white(s: Seq<char>)
    requires
        trimmed_start(s).len() == 0,
    ensures
        forall|i: int| 0 <= i < s.len() ==> is_white(#[trigger] s[i]),
    decreases s.len(),
{
    if s.len() > 0 {
        lemma_all_white(s.skip(1));
        assert forall|i: int| 0 <= i < s.len() implies is_white(#[trigger] s[i]) by {
            if i > 0 {
                assert(s.skip(1)[i - 1] == s[i]);
            }
        }
    }
}

proof fn lemma_white_end(s: Seq<char>)
    requires
        forall|i: int| 0 <= i < s.len() ==> is_white(#[trigger] s[i]),
    ensures
        trimmed_end(s).len() == 0,
    decreases s.len(),
{
    if s.len() > 0 {
        assert forall|i: int| 0 <= i < s.drop_last().len() implies is_white(
            #[trigger] s.drop_last()[i],
        ) by {
            assert(s.drop_last()[i] == s[i]);
        }
        lemma_white_end(s.drop_last());
    }
}

/// The version of the release that a version names is that version.
pub proof fn version_of_the_named_release(version: Seq<char>, other: Seq<char>)
    requires
        !"perl-"@.is_prefix_of(trimmed(version)),
    ensures
        version_in(release_name(version), other) == trimmed(version),
{
    release_names_begin_with_perl(version);
    assert(("perl-"@ + trimmed(version)).skip("perl-"@.len() as int) =~= trimmed(version));
}

/// Where a document has the release name that is asked for, the document that
/// is meant has it.
pub proof fn exact_name_wins(docs: Seq<ReleaseDoc>, version: Seq<char>, k: int)
    requires
        0 <= k < docs.len(),
        text_or_empty(docs[k].name) == release_name(version),
    ensures
        distilled(docs[meant(docs, version)]).name == release_name(version),
{
    lemma_some_is_meant(docs, version, k);
}

/// Where no document has the release name that is asked for, the newest is
/// meant.
pub proof fn newest_is_second_best(docs: Seq<ReleaseDoc>, version: Seq<char>)
    requires
        docs.len() > 0,
        forall|k: int|
            0 <= k < docs.len() ==> text_or_empty((#[trigger] docs[k]).name) != release_name(version),
    ensures
        meant(docs, version) == 0,
{
    assert(is_meant(docs, version, 0));
    let i = meant(docs, version);
    assert(is_meant(docs, version, i));
}

proof fn lemma_some_is_meant(docs: Seq<ReleaseDoc>, version: Seq<char>, k: int)
    requires
        0 <= k < docs.len(),
        text_or_empty(docs[k].name) == release_name(version),
    ensures
        is_meant(docs, version, meant(docs, version)),
        text_or_empty(docs[meant(docs, version)].name) == release_name(version),
    decreases k,
{
    if forall|h: int| 0 <= h < k ==> text_or_empty((#[trigger] docs[h]).name) != release_name(version) {
        assert(is_meant(docs, version, k));
        let i = meant(docs, version);
        assert(is_meant(docs, version, i));
    } else {
        let h = choose|h: int|
            0 <= h < k && text_or_empty((#[trigger] docs[h]).name) == release_name(version);
        lemma_some_is_meant(docs, version, h);
    }
}

/// The list of stable releases is the list of all without those under
/// development, in the same order.
pub proof fn stable_list_is_filtered(docs: Seq<ReleaseDoc>)
    ensures
        listed(docs, false) == listed(docs, true).filter(wanted(false)),
{
    let all = docs.map_values(|doc: ReleaseDoc| distilled(doc));
    lemma_filter_all(all, wanted(true));
}

proof fn lemma_filter_all<A>(s: Seq<A>, p: spec_fn(A) -> bool)
    requires
        forall|a: A| #[trigger] p(a),
    ensures
        s.filter(p) == s,
    decreases s.len(),
{
    reveal(Seq::filter);
    if s.len() > 0 {
        lemma_filter_all(s.drop_last(), p);
        assert(s =~= s.drop_last().push(s.last()));
    }
}

/// No release under development is in the list of stable ones.
pub proof fn stable_list_has_no_developer(docs: Seq<ReleaseDoc>, i: int)
    requires
        0 <= i < listed(docs, false).len(),
    ensures
        !listed(docs, false)[i].is_developer(),
{
    let all = docs.map_values(|doc: ReleaseDoc| distilled(doc));
    lemma_filter_holds(all, wanted(false), i);
}

proof fn lemma_filter_holds<A>(s: Seq<A>, p: spec_fn(A) -> bool, i: int)
    requires
        0 <= i < s.filter(p).len(),
    ensures
        p(s.filter(p)[i]),
    decreases s.len(),
{
    reveal(Seq::filter);
    if s.len() > 0 {
        let front = s.drop_last().filter(p);
        if i < front.len() {
            lemma_filter_holds(s.drop_last(), p, i);
        }
    }
}

proof fn lemma_filter_len<A>(s: Seq<A>, p: spec_fn(A) -> bool)
    ensures
        s.filter(p).len() <= s.len(),
    decreases s.len(),
{
    reveal(Seq::filter);
    if s.len() > 0 {
        lemma_filter_len(s.drop_last(), p);
    }
}

/// The list of stable releases is no longer than that of all.
pub proof fn stable_list_is_no_longer(docs: Seq<ReleaseDoc>)
    ensures
        listed(docs, false).len() <= listed(docs, true).len(),
        listed(docs, true).len() == docs.len(),
{
    let all = docs.map_values(|doc: ReleaseDoc| distilled(doc));
    lemma_filter_all(all, wanted(true));
    lemma_filter_len(all, wanted(false));
}

/// The documents that a search for all releases gives from `from` on, of those
/// in `index`.
pub open spec fn served(index: Seq<ReleaseDoc>, from: nat) -> Seq<ReleaseDoc> {
    let end = from as int + 1000;
    index.subrange(
        from as int,
        if end <= index.len() {
            end
        } else {
            index.len() as int
        },
    )
}

/// The list that a [`Listing`](crate::releases::Listing) ends with within
/// `searches` searches, where each is served from `index`.
pub open spec fn full_list(
    index: Seq<ReleaseDoc>,
    l: ListingView,
    query: ReleaseQueryView,
    searches: nat,
) -> Option<Seq<PerlReleaseView>>
    decreases searches,
{
    if searches == 0 {
        None
    } else {
        match listing_next(l, served(index, query.from)) {
            ListedView::All(releases) => Some(releases),
            ListedView::More(more, next_query) => full_list(
                index,
                more,
                next_query,
                (searches - 1) as nat,
            ),
        }
    }
}

/// The list of releases is made of all documents that there are, however many:
/// none is left out for want of another search, and each comes once.
pub proof fn lists_take_in_every_document(index: Seq<ReleaseDoc>, include_dev: bool)
    ensures
        full_list(index, empty_listing(include_dev), list_query(0), index.len() + 1) == Some(
            listed(index, include_dev),
        ),
{
    let l = empty_listing(include_dev);
    assert(index.take(0) =~= l.docs);
    lemma_full_list(index, l, index.len() + 1);
}

proof fn lemma_full_list(index: Seq<ReleaseDoc>, l: ListingView, searches: nat)
    requires
        l.docs.len() <= index.len(),
        l.docs == index.take(l.docs.len() as int),
        searches > index.len() - l.docs.len(),
    ensures
        full_list(index, l, list_query(l.docs.len()), searches) == Some(
            listed(index, l.include_dev),
        ),
    decreases searches,
{
    let page = served(index, l.docs.len());
    let docs = l.docs + page;
    assert(docs =~= index.take(docs.len() as int));
    if page.len() < PAGE_SIZE {
        assert(docs =~= index);
    } else {
        lemma_full_list(index, ListingView { docs, ..l }, (searches - 1) as nat);
    }
}

/// Every stable release is in the list of stable ones, and every release in
/// the list of all.
pub proof fn every_wanted_release_is_listed(index: Seq<ReleaseDoc>, include_dev: bool, i: int)
    requires
        0 <= i < index.len(),
        include_dev || !distilled(index[i]).is_developer(),
    ensures
        listed(index, include_dev).contains(distilled(index[i])),
        full_list(
            index,
            empty_listing(include_dev),
            list_query(0),
            index.len() + 1,
        )->0.contains(distilled(index[i])),
{
    let all = index.map_values(|doc: ReleaseDoc| distilled(doc));
    lemma_filter_keeps(all, wanted(include_dev), i);
    lists_take_in_every_document(index, include_dev);
}

proof fn lemma_filter_keeps<A>(s: Seq<A>, p: spec_fn(A) -> bool, i: int)
    requires
        0 <= i < s.len(),
        p(s[i]),
    ensures
        s.filter(p).contains(s[i]),
    decreases s.len(),
{
    reveal(Seq::filter);
    let front = s.drop_last().filter(p);
    if i < s.len() - 1 {
        lemma_filter_keeps(s.drop_last(), p, i);
        let k = choose|k: int| 0 <= k < front.len() && front[k] == s[i];
        assert(s.filter(p)[k] == s[i]);
    } else {
        assert(s.filter(p)[front.len() as int] == s[i]);
    }
}

// ---------------------------------------------------------------------------
// Options for `Configure`
// ---------------------------------------------------------------------------

/// `Configure` gets the options of the build, all of them and in order, with
/// one at most in front and one at most behind.
pub proof fn caller_options_are_kept(options: Seq<Seq<char>>, dst: Seq<char>)
    ensures
        ({
            let all = configure_arguments(options, dst);
            let front: int = if any_begins_with(options, "-Dprefix="@) {
                0
            } else {
                1
            };
            &&& options.len() + front <= all.len() <= options.len() + front + 1
            &&& all.subrange(front, front + options.len()) == options
        }),
{
    let all = configure_arguments(options, dst);
    let front: int = if any_begins_with(options, "-Dprefix="@) {
        0
    } else {
        1
    };
    assert(all.subrange(front, front + options.len()) =~= options);
}

/// Where the build gives no prefix, the first option does; and where it names
/// no directory for scripts, the last option makes it `bin` under the prefix.
/// Either way `Configure` is told both.
pub proof fn prefix_and_scriptdir_are_set(options: Seq<Seq<char>>, dst: Seq<char>)
    ensures
        any_begins_with(options, "-Dprefix="@) || configure_arguments(options, dst)[0]
            == "-Dprefix="@ + dst,
        any_holds(options, "scriptdir"@) || configure_arguments(options, dst).last()
            == "-Aeval:scriptdir="@ + dst + "/bin"@,
        any_begins_with(configure_arguments(options, dst), "-Dprefix="@),
        any_holds(configure_arguments(options, dst), "scriptdir"@),
{
    let all = configure_arguments(options, dst);
    let front = prefix_option(options, dst).len() as int;
    if any_begins_with(options, "-Dprefix="@) {
        let i = choose|i: int|
            0 <= i < options.len() && "-Dprefix="@.is_prefix_of(#[trigger] options[i]);
        assert(all[front + i] == options[i]);
    } else {
        let first = "-Dprefix="@ + dst;
        assert("-Dprefix="@ =~= first.subrange(0, "-Dprefix="@.len() as int));
        assert(all[0] == first);
    }
    if any_holds(options, "scriptdir"@) {
        let i = choose|i: int| 0 <= i < options.len() && holds(#[trigger] options[i], "scriptdir"@);
        assert(all[front + i] == options[i]);
    } else {
        reveal_strlit("-Aeval:scriptdir=");
        reveal_strlit("scriptdir");
        let last = "-Aeval:scriptdir="@ + dst + "/bin"@;
        assert("scriptdir"@ =~= last.subrange(7, 16));
        assert(occurs_at(last, "scriptdir"@, 7));
        assert(all[all.len() - 1] == last);
        assert(holds(all[all.len() - 1], "scriptdir"@));
    }
}

/// Options that are complete stay as they are.
pub proof fn complete_options_stay(options: Seq<Seq<char>>, dst: Seq<char>, other: Seq<char>)
    ensures
        configure_arguments(configure_arguments(options, dst), other) == configure_arguments(
            options,
            dst,
        ),
{
    prefix_and_scriptdir_are_set(options, dst);
    let all = configure_arguments(options, dst);
    assert(configure_arguments(all, other) =~= all);
}

// ---------------------------------------------------------------------------
// Archives
// ---------------------------------------------------------------------------

proof fn lemma_after_last(s: Seq<char>, sep: char)
    ensures
        !after_last(s, sep).contains(sep),
        forall|c: char| after_last(s, sep).contains(c) ==> s.contains(c),
    decreases s.len(),
{
    if s.len() > 0 && s.last() != sep {
        let front = s.drop_last();
        lemma_after_last(front, sep);
        let r = after_last(s, sep);
        assert forall|c: char| r.contains(c) implies s.contains(c) && c != sep by {
            let i = choose|i: int| 0 <= i < r.len() && r[i] == c;
            if i < r.len() - 1 {
                assert(after_last(front, sep)[i] == c);
                assert(after_last(front, sep).contains(c));
                assert(front.contains(c));
                let k = choose|k: int| 0 <= k < front.len() && front[k] == c;
                assert(s[k] == c);
            } else {
                assert(s[s.len() - 1] == c);
            }
        }
    }
}

proof fn lemma_without_trailing(s: Seq<char>, sep: char)
    ensures
        forall|c: char| without_trailing(s, sep).contains(c) ==> s.contains(c),
    decreases s.len(),
{
    if s.len() > 0 && s.last() == sep {
        let front = s.drop_last();
        lemma_without_trailing(front, sep);
        assert forall|c: char| without_trailing(s, sep).contains(c) implies s.contains(c) by {
            assert(front.contains(c));
            let k = choose|k: int| 0 <= k < front.len() && front[k] == c;
            assert(s[k] == c);
        }
    }
}

proof fn lemma_before(s: Seq<char>, sep: char)
    ensures
        !before(s, sep).contains(sep),
        forall|c: char| before(s, sep).contains(c) ==> s.contains(c),
{
    lemma_piece_len(s, sep);
    let b = before(s, sep);
    assert forall|c: char| b.contains(c) implies s.contains(c) && c != sep by {
        let i = choose|i: int| 0 <= i < b.len() && b[i] == c;
        assert(s[i] == c);
    }
}

/// The name for what a URL brings is a file name: it has a dot in it, and
/// neither a separator nor anything of a query or a fragment.
pub proof fn url_names_are_file_names(url: Seq<char>)
    ensures
        url_name(url).contains('.'),
        !url_name(url).contains('/'),
        !url_name(url).contains('?'),
        !url_name(url).contains('#'),
{
    let path = url_path(url);
    lemma_before(url, '?');
    lemma_before(before(url, '?'), '#');
    lemma_without_trailing(path, '/');
    lemma_after_last(without_trailing(path, '/'), '/');
    if !url_segment(url).contains('.') {
        reveal_strlit("perl-source.tar.gz");
        assert("perl-source.tar.gz"@[11] == '.');
    }
}

/// No two names are each the only top-level entry of a listing, and the one
/// that is has something in it but no separator.
pub proof fn sole_root_is_one_name(listing: Seq<char>, root: Seq<char>, other: Seq<char>)
    requires
        is_sole_root(listing, root),
    ensures
        is_sole_root(listing, other) ==> other == root,
        root.len() > 0,
        !root.contains('/'),
{
    let i = choose|i: int|
        0 <= i < pieces(listing, '\n').len() && line_root(#[trigger] pieces(listing, '\n')[i])
            == Some(root);
    let line = pieces(listing, '\n')[i];
    lemma_before(without_leading(trimmed(line), "./"@), '/');
}

// ---------------------------------------------------------------------------
// The executables of a development Perl
// ---------------------------------------------------------------------------

/// The name without the version is what stands before the version, and is not
/// empty.
pub proof fn base_names_are_beginnings(name: Seq<char>, base: Seq<char>)
    requires
        base_name(name) == Some(base),
    ensures
        0 < base.len() < name.len(),
        base.is_prefix_of(name),
        version_at(name, base.len() as int),
        forall|k: int| 0 <= k < base.len() ==> !version_at(name, k),
{
    let n = choose|n: int| is_base_len(name, n);
    assert(base =~= name.take(n));
}

/// Each link is to an entry of the directory, under the entry's name without
/// the version, and takes no name that is taken.
pub proof fn links_take_free_names(
    names: Seq<Seq<char>>,
    from: int,
    taken: Set<Seq<char>>,
    i: int,
)
    requires
        0 <= from,
        0 <= i < link_plan(names, from, taken).len(),
    ensures
        ({
            let (at, base) = link_plan(names, from, taken)[i];
            &&& from <= at < names.len()
            &&& base_name(names[at]) == Some(base)
            &&& !taken.contains(base)
        }),
    decreases names.len() - from,
{
    if from < names.len() {
        match base_name(names[from]) {
            Some(base) => if taken.contains(base) {
                links_take_free_names(names, from + 1, taken, i);
            } else if i > 0 {
                links_take_free_names(names, from + 1, taken.insert(base), i - 1);
            },
            None => {
                links_take_free_names(names, from + 1, taken, i);
            },
        }
    }
}

/// No two links have the same name.
pub proof fn links_have_names_of_their_own(
    names: Seq<Seq<char>>,
    from: int,
    taken: Set<Seq<char>>,
    i: int,
    k: int,
)
    requires
        0 <= from,
        0 <= i < k < link_plan(names, from, taken).len(),
    ensures
        link_plan(names, from, taken)[i].1 != link_plan(names, from, taken)[k].1,
    decreases names.len() - from,
{
    if from < names.len() {
        match base_name(names[from]) {
            Some(base) => if taken.contains(base) {
                links_have_names_of_their_own(names, from + 1, taken, i, k);
            } else if i > 0 {
                links_have_names_of_their_own(
                    names,
                    from + 1,
                    taken.insert(base),
                    i - 1,
                    k - 1,
                );
            } else {
                links_take_free_names(names, from + 1, taken.insert(base), k - 1);
            },
            None => {
                links_have_names_of_their_own(names, from + 1, taken, i, k);
            },
        }
    }
}

/// Each versioned executable is there without its version in the end: the name
/// was taken, or a link has it.
pub proof fn every_versioned_name_is_covered(
    names: Seq<Seq<char>>,
    from: int,
    taken: Set<Seq<char>>,
    at: int,
    base: Seq<char>,
)
    requires
        0 <= from <= at < names.len(),
        base_name(names[at]) == Some(base),
    ensures
        taken.contains(base) || exists|i: int|
            0 <= i < link_plan(names, from, taken).len() && (#[trigger] link_plan(
                names,
                from,
                taken,
            )[i]).1 == base,
    decreases names.len() - from,
{
    let plan = link_plan(names, from, taken);
    match base_name(names[from]) {
        Some(first) => if taken.contains(first) {
            if at > from {
                every_versioned_name_is_covered(names, from + 1, taken, at, base);
            }
        } else {
            assert(plan[0].1 == first);
            if first != base {
                every_versioned_name_is_covered(names, from + 1, taken.insert(first), at, base);
                let rest = link_plan(names, from + 1, taken.insert(first));
                if !taken.contains(base) {
                    let i = choose|i: int| 0 <= i < rest.len() && (#[trigger] rest[i]).1 == base;
                    assert(plan[i + 1] == rest[i]);
                }
            }
        },
        None => {
            every_versioned_name_is_covered(names, from + 1, taken, at, base);
        },
    }
}

// ---------------------------------------------------------------------------
// The Visual C++ build
// ---------------------------------------------------------------------------

/// The macros for the prefix hold no forward slash, which `nmake` would not
/// take for a path.
pub proof fn macros_hold_no_slash(dst: Seq<char>, platform: Platform, i: int)
    requires
        0 <= i < install_macros(dst, platform).len(),
    ensures
        !install_macros(dst, platform)[i].contains('/'),
{
    reveal_strlit("INST_TOP=");
    reveal_strlit("INST_DRV=");
    let m = install_macros(dst, platform)[i];
    assert forall|k: int| 0 <= k < m.len() implies m[k] != '/' by {
        if i == 0 {
            assert(m == "INST_TOP="@ + replaced(dst, '/', '\\'));
            if k >= 9 {
                assert(m[k] == replaced(dst, '/', '\\')[k - 9]);
            }
        } else {
            let drive = drive_of(dst, platform)->0;
            assert(m == "INST_DRV="@ + drive);
            if k >= 9 {
                assert(m[k] == drive[k - 9]);
            }
        }
    }
}

/// The macros for the prefix set no `CCTYPE`.
pub proof fn macros_set_no_cctype(dst: Seq<char>, platform: Platform, i: int)
    requires
        0 <= i < install_macros(dst, platform).len(),
    ensures
        !"CCTYPE="@.is_prefix_of(install_macros(dst, platform)[i]),
{
    reveal_strlit("INST_TOP=");
    reveal_strlit("INST_DRV=");
    reveal_strlit("CCTYPE=");
    let m = install_macros(dst, platform)[i];
    assert(m[0] == 'I');
    assert(m.len() >= 7 ==> m.subrange(0, 7)[0] == 'I');
}

} // verus!
