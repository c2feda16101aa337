//! Releases on CPAN.

use perl_build::releases::{
    choose_release, normalize_release_name, query_for, query_for_all, select_releases,
    stable_release, Filter, Listed, Listing, ReleaseDoc, Term,
};
use perl_build::{Error, PerlRelease};

fn some(s: &str) -> Option<String> {
    Some(s.to_string())
}

fn doc(name: &str, maturity: &str) -> ReleaseDoc {
    ReleaseDoc {
        name: some(name),
        version: some("5.038002"),
        author: some("PEVANS"),
        download_url: Some(format!("https://cpan.example/{name}.tar.gz")),
        archive: None,
        checksum_sha256: None,
        date: None,
        maturity: some(maturity),
        status: None,
    }
}

fn empty() -> ReleaseDoc {
    ReleaseDoc {
        name: None,
        version: None,
        author: None,
        download_url: None,
        archive: None,
        checksum_sha256: None,
        date: None,
        maturity: None,
        status: None,
    }
}

fn pairs(terms: &[Term]) -> Vec<(&str, &str)> {
    terms.iter().map(|t| (t.field.as_str(), t.value.as_str())).collect()
}

#[test]
fn normalizes_release_names() {
    assert_eq!(normalize_release_name("5.38.2"), "perl-5.38.2");
    assert_eq!(normalize_release_name("  5.8.9 "), "perl-5.8.9");
    assert_eq!(normalize_release_name("perl-5.40.0"), "perl-5.40.0");
}

#[test]
fn the_name_of_a_name_is_that_name() {
    for version in ["5.38.2", " perl-5.36.0\n", "", "perl-", "\u{3000}5.8.9\u{a0}"] {
        let name = normalize_release_name(version);
        assert!(name.starts_with("perl-"));
        assert_eq!(normalize_release_name(&name), name);
    }
    assert_eq!(normalize_release_name("\u{3000}5.8.9\u{a0}"), "perl-5.8.9");
}

#[test]
fn a_document_is_distilled() {
    let mut d = doc("perl-5.38.2", "released");
    d.archive = some("perl-5.38.2.tar.gz");
    d.checksum_sha256 = some("abc");
    d.date = some("2023-11-28T00:00:00");
    d.status = some("latest");
    let r = PerlRelease::from_release(&d);
    assert_eq!(r.name, "perl-5.38.2");
    assert_eq!(r.version, "5.38.2");
    assert_eq!(r.author, "PEVANS");
    assert_eq!(r.download_url, "https://cpan.example/perl-5.38.2.tar.gz");
    assert_eq!(r.archive.as_deref(), Some("perl-5.38.2.tar.gz"));
    assert_eq!(r.checksum_sha256.as_deref(), Some("abc"));
    assert_eq!(r.date.as_deref(), Some("2023-11-28T00:00:00"));
    assert_eq!(r.maturity.as_deref(), Some("released"));
    assert_eq!(r.status.as_deref(), Some("latest"));
    assert!(!r.is_developer());
}

#[test]
fn a_document_may_lack_anything() {
    let r = PerlRelease::from_release(&empty());
    assert_eq!(r.name, "");
    assert_eq!(r.version, "");
    assert_eq!(r.author, "");
    assert_eq!(r.download_url, "");
    assert!(r.archive.is_none() && r.maturity.is_none() && r.status.is_none());
    assert!(!r.is_developer());
}

#[test]
fn the_documents_own_version_is_second_best() {
    let mut d = doc("perl5.004_05", "released");
    d.version = some("5.00405");
    assert_eq!(PerlRelease::from_release(&d).version, "5.00405");
    d.version = None;
    assert_eq!(PerlRelease::from_release(&d).version, "");
}

#[test]
fn development_releases_say_so() {
    assert!(PerlRelease::from_release(&doc("perl-5.39.1", "developer")).is_developer());
    assert!(!PerlRelease::from_release(&doc("perl-5.39.1", "Developer")).is_developer());
}

#[test]
fn the_search_for_a_version() {
    let query = query_for(" 5.38.2 ");
    assert_eq!(query.from, 0);
    assert_eq!(query.size, 5);
    assert_eq!(query.sort.len(), 1);
    assert_eq!(query.sort[0].field, "date");
    assert_eq!(query.sort[0].order, "desc");
    match query.filter {
        Filter::Bool { must, should, minimum_should_match } => {
            assert_eq!(pairs(&must), vec![("distribution", "perl")]);
            assert_eq!(
                pairs(&should),
                vec![("name", "perl-5.38.2"), ("version", "5.38.2")]
            );
            assert_eq!(minimum_should_match, 1);
        }
        other => panic!("unexpected filter: {other:?}"),
    }
}

#[test]
fn the_search_for_all() {
    let query = query_for_all(0);
    assert_eq!(query.from, 0);
    assert_eq!(query.size, 1000);
    assert_eq!(query.sort[0].field, "date");
    assert_eq!(query.sort[0].order, "desc");
    match query.filter {
        Filter::Term(term) => {
            assert_eq!(term.field, "distribution");
            assert_eq!(term.value, "perl");
        }
        other => panic!("unexpected filter: {other:?}"),
    }
}

#[test]
fn the_exact_name_is_preferred() {
    let docs = vec![
        doc("perl-5.38.2-RC1", "developer"),
        doc("perl-5.38.2", "released"),
        doc("perl-5.38.2", "developer"),
    ];
    let r = choose_release("5.38.2", &docs).unwrap();
    assert_eq!(r.name, "perl-5.38.2");
    assert_eq!(r.maturity.as_deref(), Some("released"));
    assert_eq!(choose_release("perl-5.38.2", &docs).unwrap().name, "perl-5.38.2");
}

#[test]
fn the_newest_is_second_best() {
    let docs = vec![doc("perl-5.38.2", "released"), doc("perl-5.38.1", "released")];
    assert_eq!(choose_release("5.038002", &docs).unwrap().name, "perl-5.38.2");
}

#[test]
fn nothing_found_is_an_error() {
    match choose_release("5.999.999", &Vec::new()) {
        Err(Error::ReleaseNotFound(v)) => assert_eq!(v, "5.999.999"),
        other => panic!("unexpected result: {other:?}"),
    }
}

#[test]
fn stable_releases_are_the_others() {
    let docs = vec![
        doc("perl-5.39.2", "developer"),
        doc("perl-5.38.2", "released"),
        doc("perl-5.39.1", "developer"),
        empty(),
    ];
    let names = |releases: Vec<PerlRelease>| -> Vec<String> {
        releases.into_iter().map(|r| r.name).collect()
    };
    assert_eq!(names(select_releases(&docs, false)), vec!["perl-5.38.2", ""]);
    assert_eq!(
        names(select_releases(&docs, true)),
        vec!["perl-5.39.2", "perl-5.38.2", "perl-5.39.1", ""]
    );
    assert!(select_releases(&Vec::new(), true).is_empty());
}

#[test]
fn the_perl_in_front_may_be_left_out() {
    for version in ["5.38.2", "5.8.9 ", "", "  "] {
        assert_eq!(
            normalize_release_name(&format!("perl-{version}")),
            normalize_release_name(version)
        );
    }
    assert_eq!(normalize_release_name("perl- 5.8.9"), "perl- 5.8.9");
}

#[test]
fn the_latest_release_is_a_stable_one() {
    let r = stable_release(&doc("perl-5.38.2", "released")).unwrap();
    assert_eq!(r.name, "perl-5.38.2");
    assert!(stable_release(&empty()).is_some());
    assert!(stable_release(&doc("perl-5.39.1", "developer")).is_none());
}

/// The list of all releases in `index`, with the places that were asked for.
fn list(index: &[ReleaseDoc], include_dev: bool) -> (Vec<PerlRelease>, Vec<usize>) {
    let mut asked: Vec<usize> = Vec::new();
    let (mut listing, mut query) = Listing::start(include_dev);
    loop {
        asked.push(query.from);
        let page: Vec<ReleaseDoc> =
            index.iter().skip(query.from).take(query.size).cloned().collect();
        match listing.resume(page) {
            Listed::More(next, next_query) => {
                listing = next;
                query = next_query;
            }
            Listed::All(releases) => return (releases, asked),
        }
    }
}

#[test]
fn every_release_is_listed() {
    for (n, places) in [
        (0, vec![0]),
        (3, vec![0]),
        (999, vec![0]),
        (1000, vec![0, 1000]),
        (2345, vec![0, 1000, 2000]),
    ] {
        let index: Vec<ReleaseDoc> = (0..n)
            .map(|i| doc(&format!("perl-{i}"), if i % 2 == 0 { "released" } else { "developer" }))
            .collect();
        let (all, asked) = list(&index, true);
        assert_eq!(asked, places);
        let names: Vec<String> = all.into_iter().map(|r| r.name).collect();
        let expected: Vec<String> = (0..n).map(|i| format!("perl-{i}")).collect();
        assert_eq!(names, expected);
        let (stable, _) = list(&index, false);
        let names: Vec<String> = stable.into_iter().map(|r| r.name).collect();
        let expected: Vec<String> = (0..n).step_by(2).map(|i| format!("perl-{i}")).collect();
        assert_eq!(names, expected);
    }
}
