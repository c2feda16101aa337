//! The choices of a build.

use perl_build::config::append_all;
use perl_build::{PatchPerl, PerlBuild, Platform, Toolchain};

fn strings(items: &[&str]) -> Vec<String> {
    items.iter().map(|s| s.to_string()).collect()
}

#[test]
fn resolved_options_add_prefix_and_scriptdir() {
    let pb = PerlBuild::new("/opt/perl");
    let opts = pb.resolved_configure_options("/opt/perl");
    assert_eq!(opts[0], "-Dprefix=/opt/perl");
    assert!(opts.iter().any(|o| o == "-de"));
    assert!(opts.iter().any(|o| o == "-Aeval:scriptdir=/opt/perl/bin"));
}

#[test]
fn resolved_options_respect_caller_supplied_prefix_and_scriptdir() {
    let pb = PerlBuild::new("/opt/perl").configure_options(strings(&[
        "-de",
        "-Dprefix=/elsewhere",
        "-Aeval:scriptdir=/custom",
    ]));
    let opts = pb.resolved_configure_options("/opt/perl");
    assert_eq!(opts.iter().filter(|o| o.starts_with("-Dprefix")).count(), 1);
    assert_eq!(opts[0], "-de");
    assert!(!opts.iter().any(|o| o == "-Aeval:scriptdir=/opt/perl/bin"));
}

#[test]
fn resolved_options_in_full() {
    let build = PerlBuild::new("/x").configure_option("-Dusethreads");
    assert_eq!(
        build.resolved_configure_options("/opt/p"),
        strings(&[
            "-Dprefix=/opt/p",
            "-de",
            "-Dusethreads",
            "-Aeval:scriptdir=/opt/p/bin"
        ])
    );
    let none = PerlBuild::new("/x").configure_options(Vec::new());
    assert_eq!(
        none.resolved_configure_options("/p"),
        strings(&["-Dprefix=/p", "-Aeval:scriptdir=/p/bin"])
    );
}

#[test]
fn a_prefix_option_may_stand_anywhere() {
    let build = PerlBuild::new("/x").configure_options(strings(&["-de", "-Dprefix=/y"]));
    assert_eq!(
        build.resolved_configure_options("/p"),
        strings(&["-de", "-Dprefix=/y", "-Aeval:scriptdir=/p/bin"])
    );
    let longer = PerlBuild::new("/x").configure_options(strings(&["-Dprefixexp=/y"]));
    assert_eq!(
        longer.resolved_configure_options("/p"),
        strings(&["-Dprefix=/p", "-Dprefixexp=/y", "-Aeval:scriptdir=/p/bin"])
    );
    let other = PerlBuild::new("/x").configure_options(strings(&["x-Dprefix=/y"]));
    assert_eq!(other.resolved_configure_options("/p")[0], "-Dprefix=/p");
}

#[test]
fn a_prefix_may_have_scriptdir_in_its_name() {
    let build = PerlBuild::new("/x");
    assert_eq!(
        build.resolved_configure_options("/opt/scriptdir"),
        strings(&[
            "-Dprefix=/opt/scriptdir",
            "-de",
            "-Aeval:scriptdir=/opt/scriptdir/bin"
        ])
    );
}

#[test]
fn complete_options_are_left_as_they_are() {
    let once = PerlBuild::new("/x").resolved_configure_options("/p");
    let again = PerlBuild::new("/x")
        .configure_options(once.clone())
        .resolved_configure_options("/other");
    assert_eq!(once, again);
}

#[test]
fn usedevel_is_seen_in_any_option() {
    assert!(!PerlBuild::new("/x").uses_devel());
    assert!(PerlBuild::new("/x").configure_option("-Dusedevel").uses_devel());
    assert!(PerlBuild::new("/x").configure_option("-Uusedevel=1").uses_devel());
    assert!(!PerlBuild::new("/x").configure_option("-Dusedeve").uses_devel());
}

#[test]
fn toolchain_auto_picks_platform_default() {
    assert_eq!(Toolchain::Msvc.resolved(), Toolchain::Msvc);
    assert_eq!(Toolchain::GnuConfigure.resolved(), Toolchain::GnuConfigure);
    let expected = if std::path::MAIN_SEPARATOR == '\\' {
        Toolchain::Msvc
    } else {
        Toolchain::GnuConfigure
    };
    assert_eq!(Toolchain::Auto.resolved(), expected);
}

#[test]
fn toolchain_on_each_platform() {
    assert_eq!(Toolchain::Auto.resolved_on(Platform::Windows), Toolchain::Msvc);
    assert_eq!(
        Toolchain::Auto.resolved_on(Platform::Posix),
        Toolchain::GnuConfigure
    );
    assert_eq!(Toolchain::Msvc.resolved_on(Platform::Posix), Toolchain::Msvc);
    assert_eq!(
        Toolchain::GnuConfigure.resolved_on(Platform::Windows),
        Toolchain::GnuConfigure
    );
    assert_eq!(Toolchain::default(), Toolchain::Auto);
}

#[test]
fn patchperl_default_is_auto() {
    assert!(matches!(PatchPerl::default(), PatchPerl::Auto));
}

#[test]
fn appending_keeps_the_order() {
    let mut all = strings(&["a", "b"]);
    append_all(&mut all, &strings(&["c", "d"]));
    assert_eq!(all, strings(&["a", "b", "c", "d"]));
    append_all(&mut all, &Vec::new());
    assert_eq!(all.len(), 4);
}
