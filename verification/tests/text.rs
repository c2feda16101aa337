//! The scanning of texts.

use perl_build::text::{
    begins_with, chars_of, cut_prefix, decimal_text, finishes_with, is_blank, join, lowercase,
    measure_piece, measure_word, parse_u32, replace_char, split_words, text_begins_with,
    text_holds, text_of, trim, trim_end, trim_start, trim_text, uppercase, white,
};

fn chars(s: &str) -> Vec<char> {
    s.chars().collect()
}

#[test]
fn characters_and_back() {
    assert_eq!(chars_of("aé\u{1f42a}"), vec!['a', 'é', '\u{1f42a}']);
    assert_eq!(text_of(&chars("aé\u{1f42a}")), "aé\u{1f42a}");
    assert_eq!(text_of(&[]), "");
}

#[test]
fn white_space_is_that_of_unicode() {
    for n in 0..=0x10ffffu32 {
        if let Some(c) = char::from_u32(n) {
            assert_eq!(white(c), c.is_whitespace());
        }
    }
}

#[test]
fn trimming_takes_the_white_space_off() {
    assert_eq!(text_of(trim_start(&chars(" \t a b "))), "a b ");
    assert_eq!(text_of(trim_end(&chars(" a b \n"))), " a b");
    assert_eq!(text_of(trim(&chars("\u{3000} a b\u{85}"))), "a b");
    assert_eq!(trim_text("   "), "");
    assert_eq!(trim_text(&trim_text(" x ")), "x");
    assert!(is_blank(" \r\n"));
    assert!(!is_blank(" x"));
}

#[test]
fn words_are_split_at_white_space() {
    assert_eq!(split_words("  -j 4\tCC=gcc\n"), vec!["-j", "4", "CC=gcc"]);
    assert!(split_words("  ").is_empty());
    assert_eq!(split_words("one"), vec!["one"]);
    assert_eq!(measure_word(&chars("ab c")), 2);
    assert_eq!(measure_word(&chars("ab")), 2);
    assert_eq!(measure_piece(&chars("ab.c"), '.'), 2);
    assert_eq!(measure_piece(&chars("ab"), '.'), 2);
}

#[test]
fn beginnings_and_ends() {
    assert!(begins_with(&chars("abc"), "ab"));
    assert!(begins_with(&chars("abc"), ""));
    assert!(!begins_with(&chars("abc"), "abcd"));
    assert!(!begins_with(&chars("abc"), "b"));
    assert!(finishes_with(&chars("abc"), "bc"));
    assert!(!finishes_with(&chars("abc"), "ab"));
    assert!(!finishes_with(&chars("c"), "bc"));
    assert!(text_begins_with("perl-5", "perl-"));
    assert_eq!(cut_prefix(&chars("abc"), "ab").map(text_of).as_deref(), Some("c"));
    assert!(cut_prefix(&chars("abc"), "b").is_none());
}

#[test]
fn parts_are_found_anywhere() {
    assert!(text_holds("-Dusedevel", "usedevel"));
    assert!(text_holds("aab", "ab"));
    assert!(text_holds("ab", "ab"));
    assert!(text_holds("ab", ""));
    assert!(text_holds("", ""));
    assert!(!text_holds("", "a"));
    assert!(!text_holds("abab", "aba\u{0}"));
}

#[test]
fn characters_are_replaced() {
    assert_eq!(replace_char("a/b/c", '/', '\\'), r"a\b\c");
    assert_eq!(replace_char("", '/', '\\'), "");
    assert_eq!(text_of(&lowercase(&chars("ABCzé É"))), "abczé É");
    assert_eq!(uppercase('a'), 'A');
    assert_eq!(uppercase('z'), 'Z');
    assert_eq!(uppercase('é'), 'é');
    assert_eq!(uppercase('@'), '@');
}

#[test]
fn parts_are_joined() {
    let parts = vec!["a".to_string(), "".to_string(), "b".to_string()];
    assert_eq!(join(&parts, ", "), "a, , b");
    assert_eq!(join(&Vec::new(), ", "), "");
    assert_eq!(join(&vec!["x".to_string()], ", "), "x");
}

#[test]
fn numbers_are_read_as_the_standard_library_reads_them() {
    for s in ["0", "007", "4294967295", "4294967296", "99999999999999999999999", "", "+", "+5", "++5", "-1", "1a", "٣", " 1"] {
        assert_eq!(parse_u32(&chars(s)), s.parse::<u32>().ok());
    }
}

#[test]
fn numbers_are_written_in_decimal() {
    for n in [0u128, 9, 10, 99, 100, 1234567890, u128::MAX] {
        assert_eq!(decimal_text(n), n.to_string());
    }
    for n in [0u32, 10, u32::MAX] {
        assert_eq!(parse_u32(&chars(&decimal_text(n as u128))), Some(n));
    }
}
