//! Visual C++.

use perl_build::msvc::{
    banner_fits, caller_sets_cctype, cctype_for_msc_ver, cctype_from_banner, detect_msvc_cctype,
    msvc_install_macros, msvc_install_macros_on, parse_cl_msc_ver,
};
use perl_build::Platform;

#[test]
fn msvc_macros_point_at_prefix() {
    let macros = msvc_install_macros(r"C:\opt\perl-5.40");
    assert_eq!(macros[0], r"INST_TOP=C:\opt\perl-5.40");
    // The drive is only recoverable where the platform parses a prefix.
    if std::path::MAIN_SEPARATOR == '\\' {
        assert!(macros.iter().any(|m| m == "INST_DRV=C:"));
    }
}

#[test]
fn msvc_macros_normalise_forward_slashes() {
    let macros = msvc_install_macros("Z:/perls/dev");
    assert_eq!(macros[0], r"INST_TOP=Z:\perls\dev");
}

#[test]
fn macros_on_each_platform() {
    assert_eq!(
        msvc_install_macros_on("c:/perl", Platform::Windows),
        vec![r"INST_TOP=c:\perl".to_string(), "INST_DRV=C:".to_string()]
    );
    assert_eq!(
        msvc_install_macros_on(r"\\?\d:\perl", Platform::Windows),
        vec![r"INST_TOP=\\?\d:\perl".to_string(), "INST_DRV=D:".to_string()]
    );
    assert_eq!(
        msvc_install_macros_on(r"\\server\share\perl", Platform::Windows),
        vec![r"INST_TOP=\\server\share\perl".to_string()]
    );
    assert_eq!(
        msvc_install_macros_on("c:/perl", Platform::Posix),
        vec![r"INST_TOP=c:\perl".to_string()]
    );
}

#[test]
fn parses_cl_version_banner() {
    assert_eq!(
        parse_cl_msc_ver("Microsoft (R) C/C++ Optimizing Compiler Version 19.44.35207.1 for x64"),
        Some(1944)
    );
    assert_eq!(
        parse_cl_msc_ver("... Compiler Version 19.00.24245.1 for x86"),
        Some(1900)
    );
    assert_eq!(parse_cl_msc_ver("no version here"), None);
}

#[test]
fn implausible_tokens_are_passed_over() {
    // Neither a major version out of range nor a token of two parts counts.
    assert_eq!(parse_cl_msc_ver("18.0.1 41.0.1 19.44 19.x.3 20.5.1"), Some(2005));
    assert_eq!(parse_cl_msc_ver("4294967295.4294967295.1"), None);
    assert_eq!(parse_cl_msc_ver("19.44."), Some(1944));
    assert_eq!(parse_cl_msc_ver("+19.+44.1"), Some(1944));
    assert_eq!(parse_cl_msc_ver(""), None);
}

#[test]
fn a_minor_version_may_be_too_large() {
    assert!(banner_fits("19.44.1"));
    assert!(banner_fits("no version here"));
    assert!(banner_fits("19.4294965395.1"));
    assert_eq!(parse_cl_msc_ver("19.4294965395.1"), Some(4294967295));
    assert!(!banner_fits("19.4294965396.1"));
    assert_eq!(cctype_from_banner("19.4294965396.1"), None);
}

#[test]
fn maps_msc_ver_to_cctype() {
    assert_eq!(cctype_for_msc_ver(1900).as_deref(), Some("MSVC140"));
    assert_eq!(cctype_for_msc_ver(1916).as_deref(), Some("MSVC141"));
    assert_eq!(cctype_for_msc_ver(1929).as_deref(), Some("MSVC142"));
    assert_eq!(cctype_for_msc_ver(1944).as_deref(), Some("MSVC143"));
    assert_eq!(cctype_for_msc_ver(1952).as_deref(), Some("MSVC145"));
    assert_eq!(cctype_for_msc_ver(1800), None);
}

#[test]
fn cctype_changes_at_the_bounds() {
    assert_eq!(cctype_for_msc_ver(1899), None);
    assert_eq!(cctype_for_msc_ver(1909).as_deref(), Some("MSVC140"));
    assert_eq!(cctype_for_msc_ver(1910).as_deref(), Some("MSVC141"));
    assert_eq!(cctype_for_msc_ver(1919).as_deref(), Some("MSVC141"));
    assert_eq!(cctype_for_msc_ver(1920).as_deref(), Some("MSVC142"));
    assert_eq!(cctype_for_msc_ver(1930).as_deref(), Some("MSVC143"));
    assert_eq!(cctype_for_msc_ver(1949).as_deref(), Some("MSVC143"));
    assert_eq!(cctype_for_msc_ver(1950).as_deref(), Some("MSVC145"));
    assert_eq!(cctype_for_msc_ver(u32::MAX).as_deref(), Some("MSVC145"));
}

#[test]
fn the_compiler_is_detected_by_its_banner() {
    assert_eq!(detect_msvc_cctype(None), None);
    assert_eq!(detect_msvc_cctype(Some(b"no banner")), None);
    assert_eq!(
        detect_msvc_cctype(Some(b"Compilador 19.29.30153 para x64\r\n")).as_deref(),
        Some("MSVC142")
    );
    // Bytes that are no UTF-8 do not hide the version.
    assert_eq!(
        detect_msvc_cctype(Some(b"Compilateur optimis\xe9 19.44.35207.1 pour x64")).as_deref(),
        Some("MSVC143")
    );
}

#[test]
fn the_caller_may_name_the_compiler() {
    assert!(caller_sets_cctype("CCTYPE=MSVC143"));
    assert!(caller_sets_cctype("  USE_MULTI=define\tCCTYPE=MSVC143 "));
    assert!(!caller_sets_cctype("XCCTYPE=MSVC143"));
    assert!(!caller_sets_cctype("CCTYPE"));
    assert!(!caller_sets_cctype(""));
}
