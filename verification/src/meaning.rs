//! What the pieces mean, in so many words: what a result has to do with what it
//! was made of, said of the texts themselves.

use crate::text::{
    as_u32, before, decimal, digit, holds, is_digit, is_numeral, is_white, joined,
    lemma_piece_len, lemma_word_len, lower, lowered, number, occurs_at,
    piece_len, pieces, replaced, trimmed, trimmed_end, trimmed_start, upper, word_len, words,
};
use vstd::prelude::*;

verus! {

// ---------------------------------------------------------------------------
// Text
// ---------------------------------------------------------------------------

/// Trimming cuts white space off at both ends, all of it and nothing else.
pub proof fn trimming_cuts_white_space(s: Seq<char>)
    ensures
        exists|i: int, k: int|
            {
                &&& 0 <= i <= k <= s.len()
                &&& trimmed(s) == #[trigger] s.subrange(i, k)
                &&& forall|n: int| 0 <= n < s.len() && !(i <= n < k) ==> is_white(#[trigger] s[n])
                &&& i < k ==> !is_white(s[i]) && !is_white(s[k - 1])
            },
{
    let i = lemma_cut_start(s);
    let t = trimmed_start(s);
    let m = lemma_cut_end(t);
    let k = i + m;
    assert(trimmed(s) =~= s.subrange(i, k));
    assert forall|n: int| 0 <= n < s.len() && !(i <= n < k) implies is_white(#[trigger] s[n]) by {
        if n >= k {
            assert(t[n - i] == s[n]);
        }
    }
    if i < k {
        assert(t[0] == s[i]);
        assert(t[m - 1] == s[k - 1]);
    }
}

proof fn lemma_cut_start(s: Seq<char>) -> (i: int)
    ensures
        0 <= i <= s.len(),
        trimmed_start(s) == s.skip(i),
        forall|n: int| 0 <= n < i ==> is_white(#[trigger] s[n]),
        i < s.len() ==> !is_white(s[i]),
    decreases s.len(),
{
    if s.len() > 0 && is_white(s[0]) {
        let i = lemma_cut_start(s.skip(1));
        assert(s.skip(1).skip(i) =~= s.skip(i + 1));
        assert forall|n: int| 0 <= n < i + 1 implies is_white(#[trigger] s[n]) by {
            if n > 0 {
                assert(s.skip(1)[n - 1] == s[n]);
            }
        }
        if i + 1 < s.len() {
            assert(s.skip(1)[i] == s[i + 1]);
        }
        i + 1
    } else {
        assert(s.skip(0) =~= s);
        0
    }
}

proof fn lemma_cut_end(s: Seq<char>) -> (k: int)
    ensures
        0 <= k <= s.len(),
        trimmed_end(s) == s.take(k),
        forall|n: int| k <= n < s.len() ==> is_white(#[trigger] s[n]),
        k > 0 ==> !is_white(s[k - 1]),
    decreases s.len(),
{
    if s.len() > 0 && is_white(s.last()) {
        let k = lemma_cut_end(s.drop_last());
        assert(s.drop_last().take(k) =~= s.take(k));
        assert forall|n: int| k <= n < s.len() implies is_white(#[trigger] s[n]) by {
            if n < s.len() - 1 {
                assert(s.drop_last()[n] == s[n]);
            }
        }
        k
    } else {
        assert(s.take(s.len() as int) =~= s);
        s.len() as int
    }
}

/// White space parts the words of what stands before it from those of what
/// stands behind it.
pub proof fn white_space_parts_words(a: Seq<char>, c: char, b: Seq<char>)
    requires
        is_white(c),
    ensures
        words(a.push(c) + b) == words(a) + words(b),
    decreases a.len(),
{
    let s = a.push(c) + b;
    if a.len() == 0 {
        assert(s[0] == c);
        assert(s.skip(1) =~= b);
        assert(trimmed_start(s) == trimmed_start(b));
        assert(trimmed_start(a) =~= a);
        assert(words(a) =~= seq![]);
        assert(words(a) + words(b) =~= words(b));
    } else if is_white(a[0]) {
        assert(s[0] == a[0]);
        assert(s.skip(1) =~= a.skip(1).push(c) + b);
        assert(trimmed_start(s) == trimmed_start(s.skip(1)));
        assert(trimmed_start(a) == trimmed_start(a.skip(1)));
        assert(words(s) == words(s.skip(1)));
        assert(words(a) == words(a.skip(1)));
        white_space_parts_words(a.skip(1), c, b);
    } else {
        let n = word_len(a) as int;
        lemma_word_len(a);
        lemma_word_len_of_sum(a, c, b);
        assert(s[0] == a[0]);
        assert(trimmed_start(s) == s);
        assert(trimmed_start(a) == a);
        assert(s.take(n) =~= a.take(n));
        assert(s.skip(n) =~= a.skip(n).push(c) + b);
        white_space_parts_words(a.skip(n), c, b);
        assert(words(s) =~= seq![a.take(n)] + (words(a.skip(n)) + words(b)));
        assert(words(a) =~= seq![a.take(n)] + words(a.skip(n)));
    }
}

proof fn lemma_word_len_of_sum(a: Seq<char>, c: char, b: Seq<char>)
    requires
        is_white(c),
    ensures
        word_len(a.push(c) + b) == word_len(a),
    decreases a.len(),
{
    let s = a.push(c) + b;
    if a.len() > 0 {
        assert(s[0] == a[0]);
        assert(s.skip(1) =~= a.skip(1).push(c) + b);
        lemma_word_len_of_sum(a.skip(1), c, b);
    } else {
        assert(s[0] == c);
    }
}

/// A text without white space is one word, and nothing is no word.
pub proof fn a_word_is_one_word(s: Seq<char>)
    requires
        forall|i: int| 0 <= i < s.len() ==> !is_white(#[trigger] s[i]),
    ensures
        s.len() > 0 ==> words(s) == seq![s],
        s.len() == 0 ==> words(s) == Seq::<Seq<char>>::empty(),
{
    if s.len() > 0 {
        lemma_whole_word(s);
        assert(s[0] == s[0]);
        assert(trimmed_start(s) == s);
        assert(s.take(s.len() as int) =~= s);
        let rest = s.skip(s.len() as int);
        assert(rest =~= seq![]);
        assert(words(rest) =~= seq![]);
        assert(words(s) =~= seq![s]);
    }
}

proof fn lemma_whole_word(s: Seq<char>)
    requires
        forall|i: int| 0 <= i < s.len() ==> !is_white(#[trigger] s[i]),
    ensures
        word_len(s) == s.len(),
    decreases s.len(),
{
    if s.len() > 0 {
        assert(!is_white(s[0]));
        assert forall|i: int| 0 <= i < s.skip(1).len() implies !is_white(#[trigger] s.skip(1)[i]) by {
            assert(s.skip(1)[i] == s[i + 1]);
        }
        lemma_whole_word(s.skip(1));
    }
}

/// A text holds what it can be cut around.
pub proof fn holding_is_standing_between(s: Seq<char>, part: Seq<char>)
    ensures
        holds(s, part) <==> exists|a: Seq<char>, b: Seq<char>| s == #[trigger] (a + part + b),
{
    if holds(s, part) {
        let i = choose|i: int| occurs_at(s, part, i);
        let a = s.take(i);
        let b = s.skip(i + part.len());
        assert(s =~= a + part + b) by {
            assert forall|k: int| i <= k < i + part.len() implies s[k] == part[k - i] by {
                assert(s.subrange(i, i + part.len())[k - i] == s[k]);
            }
        }
    }
    if exists|a: Seq<char>, b: Seq<char>| s == #[trigger] (a + part + b) {
        let (a, b) = choose|a: Seq<char>, b: Seq<char>| s == #[trigger] (a + part + b);
        assert(s.subrange(a.len() as int, a.len() as int + part.len()) =~= part);
        assert(occurs_at(s, part, a.len() as int));
    }
}

/// Replacing changes the one character wherever it stands, and no other.
pub proof fn replacing_changes_one_character(s: Seq<char>, from: char, to: char, i: int)
    ensures
        replaced(s, from, to).len() == s.len(),
        0 <= i < s.len() ==> replaced(s, from, to)[i] == if s[i] == from {
            to
        } else {
            s[i]
        },
{
}

/// Small letters take the place of the capitals from `A` to `Z`, which stand as
/// far from each other as their numbers do; and the other way round.
pub proof fn letters_change_their_case(s: Seq<char>, i: int, c: char)
    ensures
        lowered(s).len() == s.len(),
        0 <= i < s.len() ==> lowered(s)[i] == lower(s[i]),
        'A' <= c <= 'Z' ==> 'a' <= lower(c) <= 'z' && lower(c) as int - 'a' as int == c as int
            - 'A' as int && upper(lower(c)) == c,
        'a' <= c <= 'z' ==> 'A' <= upper(c) <= 'Z' && lower(upper(c)) == c,
        !('A' <= c <= 'Z') ==> lower(c) == c,
        !('a' <= c <= 'z') ==> upper(c) == c,
{
}

/// Joining puts the separator between each two parts.
pub proof fn joining_puts_the_separator_between(
    parts: Seq<Seq<char>>,
    last: Seq<char>,
    sep: Seq<char>,
)
    ensures
        joined(Seq::<Seq<char>>::empty(), sep) == Seq::<char>::empty(),
        joined(seq![last], sep) == last,
        parts.len() > 0 ==> joined(parts.push(last), sep) == joined(parts, sep) + sep + last,
{
    assert(parts.push(last).drop_last() =~= parts);
}

/// A number in decimal is made of digits, without a needless zero in front.
pub proof fn decimals_are_digits(n: nat, i: int)
    ensures
        decimal(n).len() > 0,
        0 <= i < decimal(n).len() ==> '0' <= decimal(n)[i] <= '9',
        n > 0 ==> decimal(n)[0] != '0',
        n < 10 ==> decimal(n).len() == 1 && decimal(n)[0] as int == '0' as int + n,
    decreases n,
{
    if n >= 10 {
        decimals_are_digits(n / 10, i);
        assert(decimal(n)[0] == decimal(n / 10)[0]);
    }
}

/// A number that fits is read from its decimal form, with or without a `+` and
/// zeros in front of it; one that does not fit is not read.
pub proof fn numbers_are_read_from_decimals(n: nat, zeros: nat)
    ensures
        n <= u32::MAX ==> as_u32(Seq::new(zeros, |i: int| '0') + decimal(n)) == Some(n as u32),
        n <= u32::MAX ==> as_u32(seq!['+'] + Seq::new(zeros, |i: int| '0') + decimal(n)) == Some(
            n as u32,
        ),
        n > u32::MAX ==> as_u32(Seq::new(zeros, |i: int| '0') + decimal(n)) is None,
{
    let padding = Seq::new(zeros, |i: int| '0');
    let s = padding + decimal(n);
    lemma_padded(zeros, n);
    decimals_are_digits(n, 0);
    assert(is_numeral(s));
    assert(is_digit(s[0]));
    let signed = seq!['+'] + padding + decimal(n);
    assert(signed.skip(1) =~= s);
}

proof fn lemma_padded(zeros: nat, n: nat)
    ensures
        is_numeral(Seq::new(zeros, |i: int| '0') + decimal(n)),
        number(Seq::new(zeros, |i: int| '0') + decimal(n)) == n,
    decreases n,
{
    let padding = Seq::new(zeros, |i: int| '0');
    let s = padding + decimal(n);
    assert forall|i: int| 0 <= i < s.len() implies is_digit(#[trigger] s[i]) by {
        if i >= zeros {
            decimals_are_digits(n, i - zeros);
        }
    }
    decimals_are_digits(n, 0);
    if n >= 10 {
        lemma_padded(zeros, n / 10);
        assert(s.drop_last() =~= padding + decimal(n / 10));
        assert(s.last() == digit(n % 10));
    } else {
        assert(s.drop_last() =~= padding);
        lemma_zeros(zeros);
        assert(s.last() == digit(n));
    }
}

proof fn lemma_zeros(zeros: nat)
    ensures
        number(Seq::new(zeros, |i: int| '0')) == 0,
    decreases zeros,
{
    if zeros > 0 {
        let fewer = (zeros - 1) as nat;
        lemma_zeros(fewer);
        assert(Seq::new(zeros, |i: int| '0').drop_last() =~= Seq::new(fewer, |i: int| '0'));
    }
}

/// Nothing but digits, behind a `+` that may be there, is read as a number.
pub proof fn only_digits_are_read(s: Seq<char>, i: int)
    requires
        as_u32(s) is Some,
    ensures
        s.len() > 0,
        0 < i < s.len() ==> '0' <= s[i] <= '9',
        '0' <= s[0] <= '9' || (s[0] == '+' && s.len() > 1),
{
    if s.len() > 0 && s[0] == '+' {
        let digits = s.skip(1);
        assert(is_digit(digits[0]));
        if 0 < i < s.len() {
            assert(is_digit(digits[i - 1]));
        }
    } else {
        assert(is_digit(s[0]));
        if 0 < i < s.len() {
            assert(is_digit(s[i]));
        }
    }
}

/// What stands before a separator is what the text was up to it.
pub proof fn before_a_separator(a: Seq<char>, sep: char, b: Seq<char>)
    requires
        !a.contains(sep),
    ensures
        before(a.push(sep) + b, sep) == a,
        before(a, sep) == a,
{
    lemma_before_separator(a, sep, b);
    lemma_no_separator(a, sep);
    assert((a.push(sep) + b).take(a.len() as int) =~= a);
    assert(a.take(a.len() as int) =~= a);
}

proof fn lemma_no_separator(a: Seq<char>, sep: char)
    requires
        !a.contains(sep),
    ensures
        piece_len(a, sep) == a.len(),
{
    lemma_piece_len(a, sep);
}

pub(crate) proof fn lemma_before_separator(a: Seq<char>, sep: char, b: Seq<char>)
    requires
        !a.contains(sep),
    ensures
        piece_len(a.push(sep) + b, sep) == a.len(),
        pieces(a.push(sep) + b, sep) == seq![a] + pieces(b, sep),
{
    let s = a.push(sep) + b;
    lemma_piece_len(s, sep);
    let n = piece_len(s, sep) as int;
    assert(s[a.len() as int] == sep);
    if n < a.len() {
        assert(a[n] == s[n]);
        assert(a.contains(sep));
    }
    assert(s.take(n) =~= a);
    assert(s.skip(n + 1) =~= b);
}

} // verus!
