//! The Visual C++ side of a Windows build: which compiler there is, and where
//! `win32\Makefile` is told to install.

use crate::paths::{drive_of, windows_drive, Platform};
use crate::text::{
    as_u32, chars_of, decode_lossy, first_some, lemma_first_some, lemma_trimmed_start,
    lemma_word_len, lossy, measure_piece, measure_word, parse_u32, pieces, replace_char,
    replaced, split_words, text_begins_with, texts, trim_start, words,
};
use vstd::prelude::*;
use vstd::slice::slice_subrange;
use vstd::string::*;

verus! {

/// The version number in a word `MAJOR.MINOR.BUILD` whose major version is one
/// that Visual C++ can have: the `19.44.35207.1` as 1944.
pub open spec fn token_version(token: Seq<char>) -> Option<nat> {
    let parts = pieces(token, '.');
    match (as_u32(parts[0]), as_u32(parts[1])) {
        (Some(major), Some(minor)) => if parts.len() >= 3 && 19 <= major <= 40 {
            Some((major * 100 + minor) as nat)
        } else {
            None
        },
        _ => None,
    }
}

/// The version number in a `cl` banner: that of the first word with one.
pub open spec fn banner_version(banner: Seq<char>) -> Option<nat> {
    first_some(words(banner).map_values(|token: Seq<char>| token_version(token)))
}

/// The `CCTYPE` of a compiler with this version number.
pub open spec fn cctype(version: nat) -> Option<Seq<char>> {
    if version < 1900 {
        None
    } else if version < 1910 {
        Some("MSVC140"@)
    } else if version < 1920 {
        Some("MSVC141"@)
    } else if version < 1930 {
        Some("MSVC142"@)
    } else if version < 1950 {
        Some("MSVC143"@)
    } else {
        Some("MSVC145"@)
    }
}

/// The `CCTYPE` of the compiler that wrote this banner, where the banner gives
/// a version number (of 32 bits) and there is a `CCTYPE` for it.
pub open spec fn banner_cctype(banner: Seq<char>) -> Option<Seq<char>> {
    match banner_version(banner) {
        Some(version) => if version <= u32::MAX {
            cctype(version)
        } else {
            None
        },
        None => None,
    }
}

/// The macros that point `win32\Makefile` at the prefix `dst`.
pub open spec fn install_macros(dst: Seq<char>, platform: Platform) -> Seq<Seq<char>> {
    let top = seq!["INST_TOP="@ + replaced(dst, '/', '\\')];
    match drive_of(dst, platform) {
        Some(drive) => top.push("INST_DRV="@ + drive),
        None => top,
    }
}

/// The caller's options hold a `CCTYPE=...` of their own.
pub open spec fn sets_cctype(options: Seq<char>) -> bool {
    exists|i: int|
        0 <= i < words(options).len() && "CCTYPE="@.is_prefix_of(#[trigger] words(options)[i])
}

/// The version number in one word, in full width.
fn scan_token(token: &[char]) -> (r: Option<u64>)
    ensures
        match r {
            Some(version) => token_version(token@) == Some(version as nat),
            None => token_version(token@) is None,
        },
{
    let n = measure_piece(token, '.');
    let ghost parts = pieces(token@, '.');
    if n >= token.len() {
        return None;
    }
    let first = slice_subrange(token, 0, n);
    let rest = slice_subrange(token, n + 1, token.len());
    assert(rest@ == token@.skip(n + 1));
    let m = measure_piece(rest, '.');
    if m >= rest.len() {
        assert(pieces(rest@, '.').len() == 1);
        assert(parts.len() == 2);
        return None;
    }
    let second = slice_subrange(rest, 0, m);
    proof {
        let tail = pieces(rest@.skip(m + 1), '.');
        assert(tail.len() >= 1);
        assert(pieces(rest@, '.') == seq![second@] + tail);
        assert(parts == seq![first@] + (seq![second@] + tail));
        assert(parts[0] == first@);
        assert(parts[1] == second@);
    }
    match (parse_u32(first), parse_u32(second)) {
        (Some(major), Some(minor)) => if 19 <= major && major <= 40 {
            Some(major as u64 * 100 + minor as u64)
        } else {
            None
        },
        _ => None,
    }
}

/// The version number in a banner, in full width.
fn scan_banner(banner: &str) -> (r: Option<u64>)
    ensures
        match r {
            Some(version) => banner_version(banner@) == Some(version as nat),
            None => banner_version(banner@) is None,
        },
{
    let chars = chars_of(banner);
    let mut rest: &[char] = chars.as_slice();
    loop
        invariant
            banner_version(banner@) == banner_version(rest@),
        decreases rest@.len(),
    {
        let ghost f = |token: Seq<char>| token_version(token);
        let t = trim_start(rest);
        proof {
            lemma_trimmed_start(rest@);
            lemma_word_len(t@);
        }
        if t.len() == 0 {
            assert(words(rest@).map_values(f) == Seq::<Option<nat>>::empty());
            return None;
        }
        let n = measure_word(t);
        let token = slice_subrange(t, 0, n);
        let version = scan_token(token);
        let ghost tail = t@.skip(n as int);
        proof {
            assert(words(rest@).map_values(f) == seq![token_version(token@)] + words(
                tail,
            ).map_values(f));
            lemma_first_some(token_version(token@), words(tail).map_values(f));
        }
        if version.is_some() {
            return version;
        }
        rest = slice_subrange(t, n, t.len());
    }
}

/// Whether the version number in a `cl` banner, if there is one, has 32 bits.
pub fn banner_fits(banner: &str) -> (yes: bool)
    ensures
        yes == (banner_version(banner@) matches Some(version) ==> version <= u32::MAX),
{
    match scan_banner(banner) {
        Some(version) => version <= 0xffff_ffff,
        None => true,
    }
}

/// The `_MSC_VER`-style number in a `cl` banner: the `19.44` of
/// `... Optimizing Compiler Version 19.44.35207.1 for x64` as `1944`. The first
/// `MAJOR.MINOR.BUILD` word with a plausible major version counts, whatever
/// the words around it, which follow the compiler's language.
pub fn parse_cl_msc_ver(banner: &str) -> (r: Option<u32>)
    requires
        banner_version(banner@) matches Some(version) ==> version <= u32::MAX,
    ensures
        match r {
            Some(version) => banner_version(banner@) == Some(version as nat),
            None => banner_version(banner@) is None,
        },
{
    match scan_banner(banner) {
        Some(version) => Some(version as u32),
        None => None,
    }
}

/// Perl's `CCTYPE` for an `_MSC_VER` number. The whole 14.3x and 14.4x line of
/// Visual C++ 2022 is `MSVC143`; 14.5 and later is `MSVC145`.
pub fn cctype_for_msc_ver(msc_ver: u32) -> (r: Option<String>)
    ensures
        match r {
            Some(name) => cctype(msc_ver as nat) == Some(name@),
            None => cctype(msc_ver as nat) is None,
        },
{
    let name = if msc_ver < 1900 {
        return None;
    } else if msc_ver < 1910 {
        "MSVC140"
    } else if msc_ver < 1920 {
        "MSVC141"
    } else if msc_ver < 1930 {
        "MSVC142"
    } else if msc_ver < 1950 {
        "MSVC143"
    } else {
        "MSVC145"
    };
    Some(name.to_owned())
}

/// The `CCTYPE` of the compiler that wrote `banner`.
pub fn cctype_from_banner(banner: &str) -> (r: Option<String>)
    ensures
        match r {
            Some(name) => banner_cctype(banner@) == Some(name@),
            None => banner_cctype(banner@) is None,
        },
{
    if !banner_fits(banner) {
        return None;
    }
    match parse_cl_msc_ver(banner) {
        Some(version) => cctype_for_msc_ver(version),
        None => None,
    }
}

/// The `CCTYPE` of the compiler at hand, from what `cl` without arguments
/// wrote to its standard error; `None` where it did not run.
pub fn detect_msvc_cctype(stderr: Option<&[u8]>) -> (r: Option<String>)
    ensures
        match r {
            Some(name) => stderr matches Some(bytes) && banner_cctype(lossy(bytes@)) == Some(name@),
            None => stderr matches Some(bytes) ==> banner_cctype(lossy(bytes@)) is None,
        },
{
    match stderr {
        Some(bytes) => cctype_from_banner(decode_lossy(bytes).as_str()),
        None => None,
    }
}

/// The macros that point `win32\Makefile` from its built-in `C:\perl` at
/// `dst`: `INST_TOP=` always, `INST_DRV=` where there is a drive.
pub fn msvc_install_macros_on(dst: &str, platform: Platform) -> (macros: Vec<String>)
    ensures
        texts(macros@) == install_macros(dst@, platform),
{
    let mut top = "INST_TOP=".to_owned();
    top.append(replace_char(dst, '/', '\\').as_str());
    let mut macros: Vec<String> = Vec::new();
    macros.push(top);
    if let Some(d) = windows_drive(dst, platform) {
        let mut drive = "INST_DRV=".to_owned();
        drive.append(d.as_str());
        macros.push(drive);
    }
    assert(texts(macros@) =~= install_macros(dst@, platform));
    macros
}

/// The macros that point `win32\Makefile` at `dst` on the platform that the
/// program runs on, which decides whether there is a drive.
pub fn msvc_install_macros(dst: &str) -> (macros: Vec<String>)
    ensures
        exists|platform: Platform| texts(macros@) == #[trigger] install_macros(dst@, platform),
{
    msvc_install_macros_on(dst, Platform::native())
}

/// Whether the caller's options hold a `CCTYPE=...` of their own.
pub fn caller_sets_cctype(options: &str) -> (yes: bool)
    ensures
        yes == sets_cctype(options@),
{
    let split = split_words(options);
    for i in 0..split.len()
        invariant
            texts(split@) == words(options@),
            forall|k: int|
                0 <= k < i ==> !"CCTYPE="@.is_prefix_of(#[trigger] words(options@)[k]),
    {
        assert(words(options@)[i as int] == texts(split@)[i as int]);
        if text_begins_with(split[i].as_str(), "CCTYPE=") {
            return true;
        }
    }
    assert(words(options@).len() == split@.len());
    false
}

} // verus!
