//! A Perl that has been built.

use perl_build::built::{devel_base_name, devel_links};
use perl_build::paths::{
    absolute, absolute_path, file_name, is_executable, join_path, split_path, temp_dir_name, windows_drive,
};
use perl_build::{Built, Platform};

fn strings(items: &[&str]) -> Vec<String> {
    items.iter().map(|s| s.to_string()).collect()
}

#[test]
fn extracts_devel_base_names() {
    assert_eq!(devel_base_name("perl5.38.2"), Some("perl"));
    assert_eq!(devel_base_name("h2ph5.38.2"), Some("h2ph"));
    assert_eq!(devel_base_name("perl5.40.0"), Some("perl"));
    assert_eq!(devel_base_name("perl"), None);
    assert_eq!(devel_base_name("corelist"), None);
    assert_eq!(devel_base_name("5.38.2"), None); // nothing before the version
    assert_eq!(devel_base_name("cpan5."), None); // "5." not followed by a digit
}

#[test]
fn the_first_version_counts() {
    assert_eq!(devel_base_name("x5.y5.1"), Some("x5.y"));
    assert_eq!(devel_base_name("a5.1b5.2"), Some("a"));
    assert_eq!(devel_base_name("5.5.3"), Some("5."));
    assert_eq!(devel_base_name("é5.1"), Some("é"));
    assert_eq!(devel_base_name(""), None);
    assert_eq!(devel_base_name("55.1"), Some("5"));
}

#[test]
fn links_for_what_is_missing() {
    let names = strings(&["perl5.39.1", "perl", "h2ph5.39.1", "h2ph5.39.2", "prove"]);
    let links = devel_links(&names, &strings(&["perl", "prove"]));
    assert_eq!(links, vec![(2, "h2ph".to_string())]);
    let links = devel_links(&names, &Vec::new());
    assert_eq!(links, vec![(0, "perl".to_string()), (2, "h2ph".to_string())]);
    assert!(devel_links(&Vec::new(), &Vec::new()).is_empty());
}

#[test]
fn where_a_perl_is() {
    let built = Built::on("/opt/perl-5.38.2", Platform::Posix);
    assert_eq!(built.prefix(), "/opt/perl-5.38.2");
    assert_eq!(built.bin_dir(), "/opt/perl-5.38.2/bin");
    assert_eq!(built.perl(), "/opt/perl-5.38.2/bin/perl");
    let built = Built::on(r"C:\perl", Platform::Windows);
    assert_eq!(built.bin_dir(), r"C:\perl\bin");
    assert_eq!(built.perl(), r"C:\perl\bin\perl");
}

#[test]
fn a_perl_on_this_machine() {
    let built = Built::new("prefix");
    assert_eq!(built.prefix(), "prefix");
    let dir = std::path::Path::new("prefix").join("bin");
    assert_eq!(Some(built.bin_dir().as_str()), dir.to_str());
    assert_eq!(Some(built.perl().as_str()), dir.join("perl").to_str());
}

#[test]
fn paths_are_joined_in_the_notation_of_the_platform() {
    assert_eq!(join_path("a", "b", Platform::Posix), "a/b");
    assert_eq!(join_path("a/", "b", Platform::Posix), "a/b");
    assert_eq!(join_path("", "b", Platform::Posix), "b");
    assert_eq!(join_path(r"a\", "b", Platform::Posix), r"a\/b");
    assert_eq!(join_path("a", "b", Platform::Windows), r"a\b");
    assert_eq!(join_path(r"a\", "b", Platform::Windows), r"a\b");
    assert_eq!(join_path("a/", "b", Platform::Windows), "a/b");
    assert_eq!(join_path("C:", "b", Platform::Windows), "C:b");
    assert_eq!(join_path("C:", "b", Platform::Posix), "C:/b");
    assert_eq!(join_path("", "b", Platform::Windows), "b");
}

#[test]
fn drives_are_upper_cased() {
    assert_eq!(windows_drive(r"c:\x", Platform::Windows).as_deref(), Some("C:"));
    assert_eq!(windows_drive("Z:x", Platform::Windows).as_deref(), Some("Z:"));
    assert_eq!(windows_drive(r"\\?\q:\x", Platform::Windows).as_deref(), Some("Q:"));
    assert_eq!(windows_drive(r"\\?\q:", Platform::Windows).as_deref(), Some("Q:"));
    assert_eq!(windows_drive(r"\\?\q:x", Platform::Windows), None);
    assert_eq!(windows_drive("1:x", Platform::Windows), None);
    assert_eq!(windows_drive(r"\x", Platform::Windows), None);
    assert_eq!(windows_drive("", Platform::Windows), None);
    assert_eq!(windows_drive(r"c:\x", Platform::Posix), None);
}

#[test]
fn names_of_temporary_directories() {
    assert_eq!(temp_dir_name("perl-build-src", 42, 1700000000000000001), "perl-build-src-42-1700000000000000001");
    assert_eq!(temp_dir_name("x", 0, 0), "x-0-0");
    assert_eq!(
        temp_dir_name("x", u32::MAX, u128::MAX),
        format!("x-{}-{}", u32::MAX, u128::MAX)
    );
}

#[test]
fn what_can_be_run() {
    assert!(is_executable(true, 0o755));
    assert!(is_executable(true, 0o100));
    assert!(is_executable(true, 0o001));
    assert!(!is_executable(true, 0o644));
    assert!(!is_executable(false, 0o755));
}

#[test]
fn the_environment_to_run_a_perl_in() {
    let built = Built::on("/p", Platform::Posix);
    let own = |s: &str| s.to_string();
    let join = |dirs: Vec<String>| Some(dirs.join(":"));
    let existing = Some(strings(&["/usr/bin", "/bin"]));
    let changes = built.env_vars(existing, own, join);
    assert_eq!(
        changes,
        vec![
            ("PATH", Some("/p/bin:/usr/bin:/bin".to_string())),
            ("PERL5LIB", None),
            ("PERL5OPT", None),
            ("PERL_MB_OPT", None),
            ("PERL_MM_OPT", None),
            ("PERL_LOCAL_LIB_ROOT", None),
        ]
    );
}

#[test]
fn a_search_path_may_be_missing_or_impossible() {
    let built = Built::on("/p", Platform::Posix);
    let own = |s: &str| s.to_string();
    let join = |_: Vec<String>| -> Option<String> { None };
    let changes = built.env_vars(None, own, join);
    assert_eq!(changes[0], ("PATH", Some("/p/bin".to_string())));
    let changes = built.env_vars(Some(strings(&["a:b"])), own, join);
    assert_eq!(changes[0], ("PATH", Some("/p/bin".to_string())));
    assert_eq!(changes.len(), 6);
}

#[test]
fn the_platform_goes_by_its_paths() {
    assert_eq!(Platform::recognized(true, false), Platform::Windows);
    assert_eq!(Platform::recognized(true, true), Platform::Posix);
    assert_eq!(Platform::recognized(false, true), Platform::Posix);
    assert_eq!(Platform::recognized(false, false), Platform::Posix);
    assert_eq!(
        Platform::native(),
        Platform::recognized(
            std::path::is_separator('\\'),
            std::path::Path::new("/").is_absolute()
        )
    );
}

#[test]
fn a_name_may_be_a_path_of_its_own() {
    assert_eq!(join_path("/a", "/b", Platform::Posix), "/b");
    assert_eq!(join_path("a", "", Platform::Posix), "a/");
    assert_eq!(join_path("a", "../b", Platform::Posix), "a/../b");
    let join = |base: &str, name: &str| join_path(base, name, Platform::Windows);
    assert_eq!(join(r"D:\t", "C:x.tar.gz"), "C:x.tar.gz");
    assert_eq!(join(r"D:\t", r"C:\x"), r"C:\x");
    assert_eq!(join(r"D:\t", r"\x"), r"D:\x");
    assert_eq!(join(r"D:t", "/x"), "D:/x");
    assert_eq!(join(r"\\server\share\t", r"\x"), r"\\server\share\x");
    assert_eq!(join("t", r"\x"), r"\x");
    assert_eq!(join(r"D:\t", r"\\server\share"), r"\\server\share");
    assert_eq!(join(r"\\.\COM1", "x"), r"\\.\COM1\x");
    assert_eq!(join(r"\\server", r"\x"), r"\x");
    assert_eq!(join("a", r"..\b"), r"a\..\b");
    assert_eq!(join("a", ""), r"a\");
}

#[test]
fn verbatim_paths_are_walked() {
    let join = |base: &str, name: &str| join_path(base, name, Platform::Windows);
    assert_eq!(join(r"\\?\C:\a", "b"), r"\\?\C:\a\b");
    assert_eq!(join(r"\\?\C:\a\\b\", "c"), r"\\?\C:\a\b\c");
    assert_eq!(join(r"\\?\C:\a", r"..\.\b/c"), r"\\?\C:\b\c");
    assert_eq!(join(r"\\?\C:\a\.", r"..\b"), r"\\?\C:\a\.\b");
    assert_eq!(join(r"\\?\C:\a", r"..\.."), r"\\?\C:\");
    assert_eq!(join(r"\\?\C:\a", r"\b"), r"\\?\C:\b");
    assert_eq!(join(r"\\?\C:", "b"), r"\\?\C:\b");
    assert_eq!(join(r"\\?\C:", "."), r"\\?\C:");
    assert_eq!(join(r"\\?\C:\a", "D:b"), "D:b");
    assert_eq!(join(r"\\?\C:\a", ""), r"\\?\C:\a\");
    assert_eq!(join(r"\\?\UNC\s\h\x", r"\b"), r"\\?\UNC\s\h\b");
    assert_eq!(join(r"\\?\UNC\s\h\x/y", ".."), r"\\?\UNC\s\h\");
    assert_eq!(join(r"\\?\UNC\s", "b"), r"\\?\UNC\s\b");
    assert_eq!(join(r"\\?\name\x", "b"), r"\\?\name\x\b");
    // The root of a verbatim path may be a `/`; what follows is split at `\` only.
    assert_eq!(join(r"\\?\C:/a", "b"), r"\\?\C:\a\b");
    assert_eq!(join(r"\\?\C:/a/c", "b"), r"\\?\C:\a/c\b");
    assert_eq!(join(r"\\?\C://a", "b"), r"\\?\C:\/a\b");
    // With `/` in front of it a path is not verbatim.
    assert_eq!(join(r"//?/C:/a//b", "c"), r"//?/C:/a//b\c");
}

#[test]
fn the_names_in_a_path() {
    let names = |path: &str, platform| split_path(path, platform);
    assert_eq!(names("/a//b/./c/", Platform::Posix), strings(&["a", "b", "c"]));
    assert_eq!(names("./a/..", Platform::Posix), strings(&["a", ".."]));
    assert!(names("/", Platform::Posix).is_empty());
    assert!(names("", Platform::Posix).is_empty());
    assert_eq!(names(r"C:\a/b", Platform::Windows), strings(&["a", "b"]));
    assert_eq!(names(r"\\s\h\a", Platform::Windows), strings(&["a"]));
    assert_eq!(names(r"\\?\C:\a/b\.", Platform::Windows), strings(&["a/b", "."]));
    assert_eq!(names(r"\\?\C:/a", Platform::Windows), strings(&["a"]));
    assert_eq!(file_name(r"\\?\C:/perl.tar", Platform::Windows).as_deref(), Some("perl.tar"));
    assert_eq!(file_name("/a/b/", Platform::Posix).as_deref(), Some("b"));
    assert_eq!(file_name("/a/..", Platform::Posix), None);
    assert_eq!(file_name(".", Platform::Posix), None);
}

#[test]
fn paths_of_this_machine_are_those_of_the_standard_library() {
    let native = Platform::native();
    let bases = ["", "a", "/a", "a/", "/", "a//b/.", "..", r"C:\a", r"\\?\C:\a\\b", r"\\s\h", "C:", "."];
    let names = ["", "b", "/b", "../b", "b/", r"\b", "C:b", r"C:\b", "./b", ".", ".."];
    for base in bases {
        let path = std::path::Path::new(base);
        assert_eq!(
            file_name(base, native).as_deref(),
            path.file_name().map(|n| n.to_str().unwrap())
        );
        assert_eq!(absolute(base, native), path.is_absolute());
        for name in names {
            assert_eq!(Some(join_path(base, name, native).as_str()), path.join(name).to_str());
        }
    }
}

#[test]
fn absolute_paths_stay_as_they_are() {
    assert_eq!(absolute_path("/opt/perl", "/home", Platform::Posix), "/opt/perl");
    assert_eq!(absolute_path("perl", "/home", Platform::Posix), "/home/perl");
    assert_eq!(absolute_path("../perl", "/home", Platform::Posix), "/home/../perl");
    assert_eq!(absolute_path("", "/home", Platform::Posix), "/home/");
    let seen = |path: &str| absolute_path(path, r"D:\home", Platform::Windows);
    assert_eq!(seen(r"C:\perl"), r"C:\perl");
    assert_eq!(seen("C:/perl"), "C:/perl");
    assert_eq!(seen(r"\\server\share"), r"\\server\share");
    assert_eq!(seen(r"\\?\C:\perl"), r"\\?\C:\perl");
    assert_eq!(seen("perl"), r"D:\home\perl");
    assert_eq!(seen(r"\perl"), r"D:\perl");
    assert_eq!(seen("C:perl"), "C:perl");
    assert!(!absolute("C:perl", Platform::Windows));
    assert!(!absolute(r"\perl", Platform::Windows));
    assert!(!absolute(r"C:\perl", Platform::Posix));
}
