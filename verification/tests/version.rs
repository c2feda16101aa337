//! Versions in `patchlevel.h`.

use perl_build::version::{parse_define_u32, perl_version_from_header, uses_test_harness};

#[test]
fn parses_perl_version_defines() {
    let text = "#define PERL_REVISION\t5\n#define PERL_VERSION 38\n#define PERL_SUBVERSION  2\n";
    assert_eq!(parse_define_u32(text, "PERL_REVISION"), Some(5));
    assert_eq!(parse_define_u32(text, "PERL_VERSION"), Some(38));
    assert_eq!(parse_define_u32(text, "PERL_SUBVERSION"), Some(2));
    assert_eq!(parse_define_u32(text, "PERL_NOPE"), None);
}

#[test]
fn header_gives_all_three_numbers() {
    let text = "/* x */\r\n  #define PERL_REVISION 5 /* age */\r\n#define\tPERL_VERSION\t8\t/* epoch */\r\n#define PERL_SUBVERSION 9\r\n";
    assert_eq!(perl_version_from_header(text), Some((5, 8, 9)));
    assert_eq!(
        perl_version_from_header("#define PERL_REVISION 5\n#define PERL_VERSION 8\n"),
        None
    );
    assert_eq!(perl_version_from_header(""), None);
}

#[test]
fn the_first_line_with_a_number_counts() {
    let text = "#define KEY\n#define KEY x\n#define KEY 4294967296\n#define KEY +7\n#define KEY 8\n";
    assert_eq!(parse_define_u32(text, "KEY"), Some(7));
    assert_eq!(parse_define_u32("#define KEY 4294967295", "KEY"), Some(4294967295));
    assert_eq!(parse_define_u32("#defineKEY 3", "KEY"), Some(3));
    assert_eq!(parse_define_u32("#define KEY3", "KEY"), Some(3));
    assert_eq!(parse_define_u32("# define KEY 3", "KEY"), None);
    assert_eq!(parse_define_u32("#define KEY -3", "KEY"), None);
    assert_eq!(parse_define_u32("#define KEY +", "KEY"), None);
}

#[test]
fn a_longer_key_is_read_as_its_beginning_and_a_value() {
    // What follows the key counts as the value, which is no number here.
    assert_eq!(
        parse_define_u32("#define PERL_VERSIONS 1\n#define PERL_VERSION 2\n", "PERL_VERSION"),
        Some(2)
    );
}

#[test]
fn the_harness_is_there_from_5_8_on() {
    assert!(uses_test_harness(None));
    assert!(uses_test_harness(Some("nothing")));
    let header = |r: u32, v: u32| {
        format!("#define PERL_REVISION {r}\n#define PERL_VERSION {v}\n#define PERL_SUBVERSION 1\n")
    };
    assert!(uses_test_harness(Some(&header(5, 8))));
    assert!(uses_test_harness(Some(&header(5, 40))));
    assert!(uses_test_harness(Some(&header(7, 0))));
    assert!(!uses_test_harness(Some(&header(5, 6))));
    assert!(!uses_test_harness(Some(&header(4, 36))));
}
