//! Tarballs and their names.

use perl_build::archive::{compression_flag, listed_root, sole_root, url_filename};
use perl_build::Platform;

#[test]
fn compression_flags_from_extension() {
    assert_eq!(compression_flag("perl-5.38.2.tar.gz", Platform::Posix), Some("-z"));
    assert_eq!(compression_flag("perl-5.8.9.tar.bz2", Platform::Posix), Some("-j"));
    assert_eq!(compression_flag("perl-5.40.0.tar.xz", Platform::Posix), Some("-J"));
    assert_eq!(compression_flag("perl.tar", Platform::Posix), None);
    assert_eq!(compression_flag("weird-name", Platform::Posix), Some("-z"));
}

#[test]
fn compression_flags_of_other_names() {
    assert_eq!(compression_flag("/a/b.tar/perl.TGZ", Platform::Posix), Some("-z"));
    assert_eq!(compression_flag("/a/perl.tbz", Platform::Posix), Some("-j"));
    assert_eq!(compression_flag("/a/perl.TBZ2", Platform::Posix), Some("-j"));
    assert_eq!(compression_flag("/a/perl.txz", Platform::Posix), Some("-J"));
    assert_eq!(compression_flag("/a/perl.Tar", Platform::Posix), None);
    assert_eq!(compression_flag("/a/perl.tar/", Platform::Posix), None);
    assert_eq!(compression_flag("/a/perl.tar/.", Platform::Posix), None);
    assert_eq!(compression_flag("/a/perl.tar/..", Platform::Posix), Some("-z"));
    assert_eq!(compression_flag("/a.tar/perl", Platform::Posix), Some("-z"));
    assert_eq!(compression_flag("", Platform::Posix), Some("-z"));
    assert_eq!(compression_flag("/", Platform::Posix), Some("-z"));
}

#[test]
fn bare_extensions_count_too() {
    assert_eq!(compression_flag("perl.gz", Platform::Posix), Some("-z"));
    assert_eq!(compression_flag("perl.bz2", Platform::Posix), Some("-j"));
    assert_eq!(compression_flag("perl.XZ", Platform::Posix), Some("-J"));
    assert_eq!(compression_flag("perl.tar.zst", Platform::Posix), Some("-z"));
}

#[test]
fn compression_flags_of_windows_paths() {
    let flag = |path: &str| compression_flag(path, Platform::Windows);
    assert_eq!(flag(r"C:\x\perl.tar\"), None);
    assert_eq!(flag(r"C:\x/perl.tar\."), None);
    assert_eq!(flag(r"C:perl.tar"), None);
    assert_eq!(flag(r"C:\x\perl.tar.xz"), Some("-J"));
    assert_eq!(flag(r"C:"), Some("-z"));
    // The share is no file name.
    assert_eq!(flag(r"\\server\perl.tar"), Some("-z"));
    assert_eq!(flag(r"\\server\share\perl.tar"), None);
    // In a verbatim path only `\` separates, and `.` is a name.
    assert_eq!(flag(r"\\?\C:\x\perl.tar\."), Some("-z"));
    assert_eq!(flag(r"\\?\C:\x\perl.tar\"), None);
    assert_eq!(compression_flag(r"C:\x\perl.tar\", Platform::Posix), Some("-z"));
}

#[test]
fn url_filenames() {
    assert_eq!(
        url_filename("https://cpan.metacpan.org/authors/id/P/PE/PEVANS/perl-5.38.2.tar.gz"),
        "perl-5.38.2.tar.gz"
    );
    assert_eq!(
        url_filename("https://example.com/perl-5.40.0.tar.xz?mirror=1"),
        "perl-5.40.0.tar.xz"
    );
    assert_eq!(
        url_filename("https://example.com/pub/perl/"),
        "perl-source.tar.gz"
    );
}

#[test]
fn url_filenames_without_query_and_fragment() {
    assert_eq!(url_filename("https://h/p.tar#a/b.c"), "p.tar");
    assert_eq!(url_filename("https://h/p.tar#a?b/c.d"), "p.tar");
    assert_eq!(url_filename("https://h/p.tar///"), "p.tar");
    assert_eq!(url_filename("https://example.com"), "example.com");
    assert_eq!(url_filename(""), "perl-source.tar.gz");
    assert_eq!(url_filename("///"), "perl-source.tar.gz");
}

#[test]
fn the_one_root_of_a_listing() {
    assert_eq!(
        sole_root("perl-5.38.2/\nperl-5.38.2/Configure\nperl-5.38.2/lib/Foo.pm\n").as_deref(),
        Some("perl-5.38.2")
    );
    assert_eq!(sole_root("./\n./p/\r\n././p/x\n").as_deref(), Some("p"));
    assert_eq!(sole_root("p").as_deref(), Some("p"));
    assert_eq!(sole_root(" p/x \n\n").as_deref(), Some("p"));
}

#[test]
fn listings_without_one_root() {
    assert_eq!(sole_root(""), None);
    assert_eq!(sole_root("./\n\n"), None);
    assert_eq!(sole_root("a/\na/x\nb/\nb/y\n"), None);
    // An entry that begins with a separator has no top-level name.
    assert_eq!(sole_root("/etc/x\n"), None);
    assert_eq!(sole_root("/etc/x\np/y\n").as_deref(), Some("p"));
}

#[test]
fn listings_are_decoded() {
    assert_eq!(listed_root(b"p/\np/x\n").as_deref(), Some("p"));
    assert_eq!(listed_root("pér/x\n".as_bytes()).as_deref(), Some("pér"));
    assert_eq!(listed_root(b"p\xff/x\n").as_deref(), Some("p\u{fffd}"));
    assert_eq!(listed_root(b""), None);
}
