//! Perl releases on CPAN: what is known of one, what MetaCPAN is asked, and
//! which of its answers is meant.

use crate::error::{Error, ErrorView};
use crate::text::{
    cut_prefix, chars_of, opt_text, text_begins_with, text_of, trim_text, trimmed,
};
use vstd::prelude::*;
use vstd::string::*;

verus! {

/// A MetaCPAN `release` document, as far as it is read here.
#[derive(Debug, Clone)]
pub struct ReleaseDoc {
    pub name: Option<String>,
    pub version: Option<String>,
    pub author: Option<String>,
    pub download_url: Option<String>,
    pub archive: Option<String>,
    pub checksum_sha256: Option<String>,
    pub date: Option<String>,
    pub maturity: Option<String>,
    pub status: Option<String>,
}

/// One Perl release: enough to fetch the archive and know what it is.
#[derive(Debug, Clone)]
#[non_exhaustive]
pub struct PerlRelease {
    /// Release name including version, e.g. `perl-5.38.2`.
    pub name: String,
    /// Dotted version, e.g. `5.38.2`, which the name gives.
    pub version: String,
    /// PAUSE id of the release manager, e.g. `PEVANS`.
    pub author: String,
    /// Direct download URL on the CPAN CDN.
    pub download_url: String,
    /// Archive file name, e.g. `perl-5.38.2.tar.gz`.
    pub archive: Option<String>,
    /// SHA-256 checksum of the archive, when MetaCPAN has one.
    pub checksum_sha256: Option<String>,
    /// Upload timestamp (ISO 8601, no timezone).
    pub date: Option<String>,
    /// Maturity: `released` for a stable Perl, `developer` for a development
    /// release.
    pub maturity: Option<String>,
    /// Index status: `latest`, `cpan`, or `backpan`.
    pub status: Option<String>,
}

/// What a [`PerlRelease`] says.
#[verifier::ext_equal]
pub struct PerlReleaseView {
    pub name: Seq<char>,
    pub version: Seq<char>,
    pub author: Seq<char>,
    pub download_url: Seq<char>,
    pub archive: Option<Seq<char>>,
    pub checksum_sha256: Option<Seq<char>>,
    pub date: Option<Seq<char>>,
    pub maturity: Option<Seq<char>>,
    pub status: Option<Seq<char>>,
}

impl View for PerlRelease {
    type V = PerlReleaseView;

    open spec fn view(&self) -> PerlReleaseView {
        PerlReleaseView {
            name: self.name@,
            version: self.version@,
            author: self.author@,
            download_url: self.download_url@,
            archive: opt_text(self.archive),
            checksum_sha256: opt_text(self.checksum_sha256),
            date: opt_text(self.date),
            maturity: opt_text(self.maturity),
            status: opt_text(self.status),
        }
    }
}

impl PerlReleaseView {
    /// A development release.
    pub open spec fn is_developer(self) -> bool {
        self.maturity == Some("developer"@)
    }
}

/// The text, or the empty one where there is none.
pub open spec fn text_or_empty(s: Option<String>) -> Seq<char> {
    match s {
        Some(s) => s@,
        None => seq![],
    }
}

/// The version in a release name `perl-VERSION`; `other` where the name has no
/// such form.
pub open spec fn version_in(name: Seq<char>, other: Seq<char>) -> Seq<char> {
    if "perl-"@.is_prefix_of(name) {
        name.skip("perl-"@.len() as int)
    } else {
        other
    }
}

/// The release that a document describes.
pub open spec fn distilled(doc: ReleaseDoc) -> PerlReleaseView {
    PerlReleaseView {
        name: text_or_empty(doc.name),
        version: version_in(text_or_empty(doc.name), text_or_empty(doc.version)),
        author: text_or_empty(doc.author),
        download_url: text_or_empty(doc.download_url),
        archive: opt_text(doc.archive),
        checksum_sha256: opt_text(doc.checksum_sha256),
        date: opt_text(doc.date),
        maturity: opt_text(doc.maturity),
        status: opt_text(doc.status),
    }
}

/// The name of the release with this version: `perl-` in front, unless it is
/// there.
pub open spec fn release_name(version: Seq<char>) -> Seq<char> {
    let v = trimmed(version);
    if "perl-"@.is_prefix_of(v) {
        v
    } else {
        "perl-"@ + v
    }
}

/// The document at `i` is the one that is meant by `version`: the first with
/// the right release name, and the newest, which stands first, where none has
/// it.
pub open spec fn is_meant(docs: Seq<ReleaseDoc>, version: Seq<char>, i: int) -> bool {
    let wanted = release_name(version);
    &&& 0 <= i < docs.len()
    &&& forall|k: int| 0 <= k < i ==> text_or_empty((#[trigger] docs[k]).name) != wanted
    &&& text_or_empty(docs[i].name) == wanted || (i == 0 && forall|k: int|
        0 <= k < docs.len() ==> text_or_empty((#[trigger] docs[k]).name) != wanted)
}

/// Where the document stands that is meant by `version`.
pub open spec fn meant(docs: Seq<ReleaseDoc>, version: Seq<char>) -> int {
    choose|i: int| is_meant(docs, version, i)
}

/// One document at most is meant.
pub proof fn lemma_meant(docs: Seq<ReleaseDoc>, version: Seq<char>, i: int)
    requires
        is_meant(docs, version, i),
    ensures
        meant(docs, version) == i,
{
    let j = meant(docs, version);
    assert(is_meant(docs, version, j));
    if i < j {
        assert(text_or_empty(docs[i].name) != release_name(version));
    } else if j < i {
        assert(text_or_empty(docs[j].name) != release_name(version));
    }
}

/// The releases that are wanted: all, or those that are not under development.
pub open spec fn wanted(include_dev: bool) -> spec_fn(PerlReleaseView) -> bool {
    |r: PerlReleaseView| include_dev || !r.is_developer()
}

/// The releases that the documents describe, in order; those under development
/// only where they are wanted.
pub open spec fn listed(docs: Seq<ReleaseDoc>, include_dev: bool) -> Seq<PerlReleaseView> {
    docs.map_values(|doc: ReleaseDoc| distilled(doc)).filter(wanted(include_dev))
}

/// One field that a search compares with a value.
#[derive(Debug, Clone)]
pub struct Term {
    pub field: String,
    pub value: String,
}

/// Which documents a search finds.
#[derive(Debug, Clone)]
pub enum Filter {
    /// Those with the term.
    Term(Term),
    /// Those with all of `must`, and with `minimum_should_match` of `should` at
    /// least.
    Bool { must: Vec<Term>, should: Vec<Term>, minimum_should_match: usize },
}

/// A field that the documents are sorted by.
#[derive(Debug, Clone)]
pub struct SortKey {
    pub field: String,
    /// `asc` or `desc`.
    pub order: String,
}

/// A search for `release` documents.
#[derive(Debug, Clone)]
pub struct ReleaseQuery {
    /// Which are found.
    pub filter: Filter,
    /// How many of them are passed over.
    pub from: usize,
    /// How many are given at most.
    pub size: usize,
    /// In which order.
    pub sort: Vec<SortKey>,
}

/// Which documents a [`Filter`] finds.
#[verifier::ext_equal]
pub enum FilterView {
    Term((Seq<char>, Seq<char>)),
    Bool {
        must: Seq<(Seq<char>, Seq<char>)>,
        should: Seq<(Seq<char>, Seq<char>)>,
        minimum_should_match: nat,
    },
}

/// What a [`ReleaseQuery`] asks.
#[verifier::ext_equal]
pub struct ReleaseQueryView {
    pub filter: FilterView,
    pub from: nat,
    pub size: nat,
    pub sort: Seq<(Seq<char>, Seq<char>)>,
}

/// The fields and values that the terms compare.
pub open spec fn term_texts(terms: Seq<Term>) -> Seq<(Seq<char>, Seq<char>)> {
    terms.map_values(|t: Term| (t.field@, t.value@))
}

impl View for Filter {
    type V = FilterView;

    open spec fn view(&self) -> FilterView {
        match self {
            Filter::Term(term) => FilterView::Term((term.field@, term.value@)),
            Filter::Bool { must, should, minimum_should_match } => FilterView::Bool {
                must: term_texts(must@),
                should: term_texts(should@),
                minimum_should_match: *minimum_should_match as nat,
            },
        }
    }
}

impl View for ReleaseQuery {
    type V = ReleaseQueryView;

    open spec fn view(&self) -> ReleaseQueryView {
        ReleaseQueryView {
            filter: self.filter@,
            from: self.from as nat,
            size: self.size as nat,
            sort: self.sort@.map_values(|k: SortKey| (k.field@, k.order@)),
        }
    }
}

/// The search that finds the release with this version, by its name or by the
/// version as MetaCPAN writes it, the newest first.
pub open spec fn find_query(version: Seq<char>) -> ReleaseQueryView {
    ReleaseQueryView {
        filter: FilterView::Bool {
            must: seq![("distribution"@, "perl"@)],
            should: seq![("name"@, release_name(version)), ("version"@, trimmed(version))],
            minimum_should_match: 1,
        },
        from: 0,
        size: 5,
        sort: seq![("date"@, "desc"@)],
    }
}

/// How many documents a search for all releases gives at most.
pub const PAGE_SIZE: usize = 1000;

/// The search that lists all releases, the newest first, from the one at
/// `from` on.
pub open spec fn list_query(from: nat) -> ReleaseQueryView {
    ReleaseQueryView {
        filter: FilterView::Term(("distribution"@, "perl"@)),
        from,
        size: PAGE_SIZE as nat,
        sort: seq![("date"@, "desc"@)],
    }
}

fn own_or_empty(s: &Option<String>) -> (r: String)
    ensures
        r@ == text_or_empty(*s),
{
    match s {
        Some(s) => s.clone(),
        None => String::new(),
    }
}

fn own(s: &Option<String>) -> (r: Option<String>)
    ensures
        opt_text(r) == opt_text(*s),
{
    match s {
        Some(s) => Some(s.clone()),
        None => None,
    }
}

impl PerlRelease {
    /// The release that a document describes. Its version is what stands
    /// behind `perl-` in its name, and the document's own where the name has
    /// another form.
    pub fn from_release(doc: &ReleaseDoc) -> (release: PerlRelease)
        ensures
            release@ == distilled(*doc),
    {
        let name = own_or_empty(&doc.name);
        let chars = chars_of(name.as_str());
        let version = match cut_prefix(chars.as_slice(), "perl-") {
            Some(rest) => text_of(rest),
            None => own_or_empty(&doc.version),
        };
        PerlRelease {
            name,
            version,
            author: own_or_empty(&doc.author),
            download_url: own_or_empty(&doc.download_url),
            archive: own(&doc.archive),
            checksum_sha256: own(&doc.checksum_sha256),
            date: own(&doc.date),
            maturity: own(&doc.maturity),
            status: own(&doc.status),
        }
    }

    /// Whether this is a development release rather than a stable production
    /// Perl.
    pub fn is_developer(&self) -> (yes: bool)
        ensures
            yes == self@.is_developer(),
    {
        match &self.maturity {
            Some(maturity) => *maturity == "developer".to_owned(),
            None => false,
        }
    }
}

/// The name of the release with this version, which may already be a release
/// name and may stand in white space.
pub fn normalize_release_name(version: &str) -> (name: String)
    ensures
        name@ == release_name(version@),
{
    let v = trim_text(version);
    if text_begins_with(v.as_str(), "perl-") {
        v
    } else {
        "perl-".to_owned().concat(v.as_str())
    }
}

fn term(field: &str, value: &str) -> (t: Term)
    ensures
        t.field@ == field@,
        t.value@ == value@,
{
    Term { field: field.to_owned(), value: value.to_owned() }
}

/// The newest document first.
fn newest_first() -> (sort: Vec<SortKey>)
    ensures
        sort@.map_values(|k: SortKey| (k.field@, k.order@)) == seq![("date"@, "desc"@)],
{
    let mut sort: Vec<SortKey> = Vec::new();
    sort.push(SortKey { field: "date".to_owned(), order: "desc".to_owned() });
    assert(sort@.map_values(|k: SortKey| (k.field@, k.order@)) =~= seq![("date"@, "desc"@)]);
    sort
}

/// The search for the release with this version.
pub fn query_for(version: &str) -> (query: ReleaseQuery)
    ensures
        query@ == find_query(version@),
{
    let mut must: Vec<Term> = Vec::new();
    must.push(term("distribution", "perl"));
    let mut should: Vec<Term> = Vec::new();
    should.push(term("name", normalize_release_name(version).as_str()));
    should.push(term("version", trim_text(version).as_str()));
    let filter = Filter::Bool { must, should, minimum_should_match: 1 };
    assert(filter@ =~= find_query(version@).filter);
    ReleaseQuery { filter, from: 0, size: 5, sort: newest_first() }
}

/// The search for all releases, from the one at `from` on.
pub fn query_for_all(from: usize) -> (query: ReleaseQuery)
    ensures
        query@ == list_query(from as nat),
{
    ReleaseQuery {
        filter: Filter::Term(term("distribution", "perl")),
        from,
        size: PAGE_SIZE,
        sort: newest_first(),
    }
}

/// The release that is meant by `version`, of the documents that the search for
/// it brought, newest first.
pub fn choose_release(version: &str, docs: &Vec<ReleaseDoc>) -> (r: Result<PerlRelease, Error>)
    ensures
        match r {
            Ok(release) => {
                &&& is_meant(docs@, version@, meant(docs@, version@))
                &&& release@ == distilled(docs@[meant(docs@, version@)])
            },
            Err(error) => docs@.len() == 0 && error@ == ErrorView::ReleaseNotFound(version@),
        },
{
    if docs.len() == 0 {
        return Err(Error::ReleaseNotFound(version.to_owned()));
    }
    let wanted = normalize_release_name(version);
    for i in 0..docs.len()
        invariant
            docs.len() > 0,
            wanted@ == release_name(version@),
            forall|k: int| 0 <= k < i ==> text_or_empty((#[trigger] docs@[k]).name) != wanted@,
    {
        if own_or_empty(&docs[i].name) == wanted {
            proof {
                lemma_meant(docs@, version@, i as int);
            }
            return Ok(PerlRelease::from_release(&docs[i]));
        }
    }
    proof {
        lemma_meant(docs@, version@, 0);
    }
    Ok(PerlRelease::from_release(&docs[0]))
}

/// The releases that the documents describe, in order; those under development
/// only where they are wanted.
pub fn select_releases(docs: &Vec<ReleaseDoc>, include_dev: bool) -> (releases: Vec<PerlRelease>)
    ensures
        releases@.map_values(|r: PerlRelease| r@) == listed(docs@, include_dev),
{
    let ghost all = docs@.map_values(|doc: ReleaseDoc| distilled(doc));
    let ghost keep = wanted(include_dev);
    let mut releases: Vec<PerlRelease> = Vec::new();
    reveal(Seq::filter);
    assert(all.take(0).filter(keep) == Seq::<PerlReleaseView>::empty());
    for i in 0..docs.len()
        invariant
            all == docs@.map_values(|doc: ReleaseDoc| distilled(doc)),
            keep == wanted(include_dev),
            releases@.map_values(|r: PerlRelease| r@) =~= all.take(i as int).filter(keep),
    {
        reveal(Seq::filter);
        let release = PerlRelease::from_release(&docs[i]);
        assert(all.take(i + 1).drop_last() == all.take(i as int));
        assert(all[i as int] == release@);
        if include_dev || !release.is_developer() {
            releases.push(release);
        }
    }
    assert(all.take(docs@.len() as int) == all);
    releases
}

/// The release that a document describes, where it is a stable one.
pub open spec fn stable(doc: ReleaseDoc) -> Option<PerlReleaseView> {
    if distilled(doc).is_developer() {
        None
    } else {
        Some(distilled(doc))
    }
}

/// The release that the document of the latest one describes, which is a
/// stable one; `None` where it is under development.
pub fn stable_release(doc: &ReleaseDoc) -> (r: Option<PerlRelease>)
    ensures
        match r {
            Some(release) => stable(*doc) == Some(release@),
            None => stable(*doc) is None,
        },
{
    let release = PerlRelease::from_release(doc);
    if release.is_developer() {
        None
    } else {
        Some(release)
    }
}

// ---------------------------------------------------------------------------
// The list of all releases
// ---------------------------------------------------------------------------

/// A list of all releases on its way: one search after the other, until one
/// gives fewer documents than it may.
#[derive(Debug)]
pub struct Listing {
    docs: Vec<ReleaseDoc>,
    include_dev: bool,
}

/// What a [`Listing`] knows.
#[verifier::ext_equal]
pub struct ListingView {
    /// The documents that have come, in order.
    pub docs: Seq<ReleaseDoc>,
    /// Whether releases under development are wanted.
    pub include_dev: bool,
}

impl View for Listing {
    type V = ListingView;

    closed spec fn view(&self) -> ListingView {
        ListingView { docs: self.docs@, include_dev: self.include_dev }
    }
}

/// What a [`Listing`] comes to.
#[derive(Debug)]
pub enum Listed {
    /// There may be more: the next search.
    More(Listing, ReleaseQuery),
    /// The list is complete.
    All(Vec<PerlRelease>),
}

/// What a [`Listed`] says.
#[verifier::ext_equal]
pub enum ListedView {
    More(ListingView, ReleaseQueryView),
    All(Seq<PerlReleaseView>),
}

impl View for Listed {
    type V = ListedView;

    open spec fn view(&self) -> ListedView {
        match self {
            Listed::More(listing, query) => ListedView::More(listing@, query@),
            Listed::All(releases) => ListedView::All(releases@.map_values(|r: PerlRelease| r@)),
        }
    }
}

/// What a list comes to when `page` comes: it is complete with a page that is
/// not full, and goes on behind a full one.
pub open spec fn listing_next(l: ListingView, page: Seq<ReleaseDoc>) -> ListedView {
    let docs = l.docs + page;
    if page.len() < PAGE_SIZE {
        ListedView::All(listed(docs, l.include_dev))
    } else {
        ListedView::More(ListingView { docs, ..l }, list_query(docs.len()))
    }
}

/// A list before anything has come.
pub open spec fn empty_listing(include_dev: bool) -> ListingView {
    ListingView { docs: seq![], include_dev }
}

impl Listing {
    /// A list of all releases, and the first search for it.
    pub fn start(include_dev: bool) -> (step: (Listing, ReleaseQuery))
        ensures
            step.0@ == empty_listing(include_dev),
            step.1@ == list_query(0),
    {
        let listing = Listing { docs: Vec::new(), include_dev };
        assert(listing@ =~= empty_listing(include_dev));
        (listing, query_for_all(0))
    }

    /// Goes on with the documents that the last search gave.
    pub fn resume(self, page: Vec<ReleaseDoc>) -> (r: Listed)
        ensures
            r@ == listing_next(self@, page@),
    {
        let last = page.len() < PAGE_SIZE;
        let include_dev = self.include_dev;
        let mut docs = self.docs;
        let mut page = page;
        docs.append(&mut page);
        if last {
            Listed::All(select_releases(&docs, include_dev))
        } else {
            let query = query_for_all(docs.len());
            Listed::More(Listing { docs, include_dev }, query)
        }
    }
}

} // verus!
