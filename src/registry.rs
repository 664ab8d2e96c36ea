//! The registry's catalog of a package: the entries of its pages, the
//! entry of a declared version, and the latest semantic version.
use vstd::prelude::*;

verus! {

/// One published release of a package, as the registry reports it.
/// `published_at` is in seconds since the Unix epoch, UTC.
pub struct CatalogEntry {
    pub version: String,
    pub license_url: Option<String>,
    pub license_expression: Option<String>,
    pub project_url: Option<String>,
    pub description: Option<String>,
    pub latest_version: Option<String>,
    pub published_at: Option<i64>,
}

pub struct CatalogEntryView {
    pub version: Seq<char>,
    pub license_url: Option<Seq<char>>,
    pub license_expression: Option<Seq<char>>,
    pub project_url: Option<Seq<char>>,
    pub description: Option<Seq<char>>,
    pub latest_version: Option<Seq<char>>,
    pub published_at: Option<i64>,
}

pub open spec fn opt_view(o: Option<String>) -> Option<Seq<char>> {
    match o {
        Some(s) => Some(s@),
        None => None,
    }
}

impl View for CatalogEntry {
    type V = CatalogEntryView;

    open spec fn view(&self) -> CatalogEntryView {
        CatalogEntryView {
            version: self.version@,
            license_url: opt_view(self.license_url),
            license_expression: opt_view(self.license_expression),
            project_url: opt_view(self.project_url),
            description: opt_view(self.description),
            latest_version: opt_view(self.latest_version),
            published_at: self.published_at,
        }
    }
}

pub open spec fn opt_entry_view(o: Option<CatalogEntry>) -> Option<CatalogEntryView> {
    match o {
        Some(e) => Some(e@),
        None => None,
    }
}

fn copy_text(o: &Option<String>) -> (r: Option<String>)
    ensures
        r == *o,
{
    match o {
        Some(s) => Some(s.clone()),
        None => None,
    }
}

impl CatalogEntry {
    /// A copy of this entry.
    pub fn duplicate(&self) -> (r: CatalogEntry)
        ensures
            r == *self,
    {
        CatalogEntry {
            version: self.version.clone(),
            license_url: copy_text(&self.license_url),
            license_expression: copy_text(&self.license_expression),
            project_url: copy_text(&self.project_url),
            description: copy_text(&self.description),
            latest_version: copy_text(&self.latest_version),
            published_at: self.published_at,
        }
    }
}

/// Whether a text is a semantic version.
pub uninterp spec fn semver_valid(s: Seq<char>) -> bool;

/// Whether semantic version `a` has higher precedence than `b`.
pub uninterp spec fn semver_above(a: Seq<char>, b: Seq<char>) -> bool;

/// Relies on `semver::Version::parse`: whether the text parses as a
/// semantic version.
#[verifier::external_body]
fn is_semver(s: &str) -> (r: bool)
    ensures
        r == semver_valid(s@),
{
    semver::Version::parse(s).is_ok()
}

/// Relies on `semver::Version::parse` and the order that `semver::Version`
/// derives: whether `a` has higher precedence than `b`.
#[verifier::external_body]
fn semver_greater(a: &str, b: &str) -> (r: bool)
    requires
        semver_valid(a@),
        semver_valid(b@),
    ensures
        r == semver_above(a@, b@),
{
    match (semver::Version::parse(a), semver::Version::parse(b)) {
        (Ok(x), Ok(y)) => x > y,
        _ => false,
    }
}

/// The pages of a catalog, each as the sequence of its entries.
pub open spec fn pages_view(pages: Seq<Vec<CatalogEntry>>) -> Seq<Seq<CatalogEntry>> {
    pages.map_values(|p: Vec<CatalogEntry>| p@)
}

/// The entries of the pages, page after page.
pub open spec fn all_entries(pages: Seq<Seq<CatalogEntry>>) -> Seq<CatalogEntry>
    decreases pages.len(),
{
    if pages.len() == 0 {
        seq![]
    } else {
        all_entries(pages.drop_last()) + pages.last()
    }
}

pub open spec fn versions_of(entries: Seq<CatalogEntry>) -> Seq<Seq<char>> {
    entries.map_values(|e: CatalogEntry| e.version@)
}

/// The highest semantic version of the list, the first seen among equals;
/// texts that are no semantic version are passed over.
pub open spec fn latest_of(versions: Seq<Seq<char>>) -> Option<Seq<char>>
    decreases versions.len(),
{
    if versions.len() == 0 {
        None
    } else {
        let before = latest_of(versions.drop_last());
        let v = versions.last();
        if semver_valid(v) && (before is None || semver_above(v, before->0)) {
            Some(v)
        } else {
            before
        }
    }
}

/// The latest version is one of the list, and a semantic version that no
/// other semantic version of the list is below.
pub proof fn lemma_latest_is_listed(versions: Seq<Seq<char>>)
    ensures
        latest_of(versions) is Some ==> {
            &&& versions.contains(latest_of(versions)->0)
            &&& semver_valid(latest_of(versions)->0)
        },
        latest_of(versions) is None ==> forall|k: int|
            0 <= k < versions.len() ==> !semver_valid(#[trigger] versions[k]),
    decreases versions.len(),
{
    if versions.len() > 0 {
        let init = versions.drop_last();
        lemma_latest_is_listed(init);
        if latest_of(init) is Some && latest_of(versions) == latest_of(init) {
            let k = choose|k: int| 0 <= k < init.len() && init[k] == latest_of(init)->0;
            assert(versions[k] == latest_of(versions)->0);
        }
        if latest_of(versions) is Some && latest_of(versions) != latest_of(init) {
            assert(versions[versions.len() - 1] == latest_of(versions)->0);
        }
        if latest_of(versions) is None {
            assert forall|k: int| 0 <= k < versions.len() implies !semver_valid(
                #[trigger] versions[k],
            ) by {
                if k < init.len() {
                    assert(versions[k] == init[k]);
                }
            }
        }
    }
}

/// The last entry whose version is exactly `version`.
pub open spec fn target_of(entries: Seq<CatalogEntry>, version: Seq<char>) -> Option<CatalogEntry>
    decreases entries.len(),
{
    if entries.len() == 0 {
        None
    } else if entries.last().version@ == version {
        Some(entries.last())
    } else {
        target_of(entries.drop_last(), version)
    }
}

/// What the catalog says of `version`: its entry, with the latest version of
/// the whole catalog; none where no entry has that version.
pub open spec fn resolution(pages: Seq<Seq<CatalogEntry>>, version: Seq<char>) -> Option<
    CatalogEntryView,
> {
    let entries = all_entries(pages);
    match target_of(entries, version) {
        Some(t) => Some(CatalogEntryView { latest_version: latest_of(versions_of(entries)), ..t@ }),
        None => None,
    }
}

/// Finds the entry of `version` among all entries of all pages, and sets
/// its latest version to the highest semantic version among them.
pub fn select_catalog_entry(pages: &Vec<Vec<CatalogEntry>>, version: &str) -> (r: Option<
    CatalogEntry,
>)
    ensures
        opt_entry_view(r) == resolution(pages_view(pages@), version@),
{
    let wanted = version.to_owned();
    let mut latest: Option<String> = None;
    let mut target: Option<CatalogEntry> = None;
    let mut p: usize = 0;
    while p < pages.len()
        invariant
            p <= pages.len(),
            wanted@ == version@,
            opt_view(latest) == latest_of(versions_of(all_entries(pages_view(pages@).subrange(0, p as int)))),
            target == target_of(all_entries(pages_view(pages@).subrange(0, p as int)), version@),
        decreases pages.len() - p,
    {
        let page = &pages[p];
        let ghost seen = all_entries(pages_view(pages@).subrange(0, p as int));
        let mut j: usize = 0;
        while j < page.len()
            invariant
                p < pages.len(),
                page@ == pages_view(pages@)[p as int],
                j <= page.len(),
                wanted@ == version@,
                seen == all_entries(pages_view(pages@).subrange(0, p as int)),
                opt_view(latest) == latest_of(versions_of(seen + page@.subrange(0, j as int))),
                target == target_of(seen + page@.subrange(0, j as int), version@),
            decreases page.len() - j,
        {
            let entry = &page[j];
            let ghost prefix = seen + page@.subrange(0, j as int);
            let ghost next = seen + page@.subrange(0, j + 1);
            assert(next.drop_last() =~= prefix);
            assert(next.last() == page@[j as int]);
            assert(versions_of(next).drop_last() =~= versions_of(prefix));
            proof {
                lemma_latest_is_listed(versions_of(prefix));
            }
            if is_semver(entry.version.as_str()) {
                let higher = match &latest {
                    None => true,
                    Some(l) => semver_greater(entry.version.as_str(), l.as_str()),
                };
                if higher {
                    latest = Some(entry.version.clone());
                }
            }
            if entry.version == wanted {
                target = Some(entry.duplicate());
            }
            j = j + 1;
        }
        proof {
            let upto = pages_view(pages@).subrange(0, p + 1);
            assert(upto.drop_last() =~= pages_view(pages@).subrange(0, p as int));
            assert(page@.subrange(0, j as int) =~= page@);
        }
        p = p + 1;
    }
    assert(pages_view(pages@).subrange(0, p as int) =~= pages_view(pages@));
    match target {
        Some(t) => Some(CatalogEntry { latest_version: latest, ..t }),
        None => None,
    }
}

/// How semantic versions are ordered, on the texts of a list: none is above
/// itself, being above is transitive, and of two different semantic
/// versions one is above the other.
pub open spec fn semver_order_on(versions: Seq<Seq<char>>) -> bool {
    &&& forall|x: Seq<char>|
        versions.contains(x) && semver_valid(x) ==> !#[trigger] semver_above(x, x)
    &&& forall|x: Seq<char>, y: Seq<char>, z: Seq<char>|
        versions.contains(x) && versions.contains(y) && versions.contains(z) && semver_valid(x)
            && semver_valid(y) && semver_valid(z) && #[trigger] semver_above(x, y)
            && #[trigger] semver_above(y, z) ==> semver_above(x, z)
    &&& forall|x: Seq<char>, y: Seq<char>|
        versions.contains(x) && versions.contains(y) && semver_valid(x) && semver_valid(y) && x
            != y ==> #[trigger] semver_above(x, y) || #[trigger] semver_above(y, x)
}

/// No semantic version of the list is above the latest one.
proof fn lemma_latest_is_maximal(versions: Seq<Seq<char>>)
    requires
        semver_order_on(versions),
    ensures
        latest_of(versions) is Some ==> forall|x: Seq<char>|
            versions.contains(x) && semver_valid(x) ==> !semver_above(x, latest_of(versions)->0),
    decreases versions.len(),
{
    if versions.len() > 0 {
        let init = versions.drop_last();
        let v = versions.last();
        assert forall|x: Seq<char>| init.contains(x) implies versions.contains(x) by {
            let k = choose|k: int| 0 <= k < init.len() && init[k] == x;
            assert(versions[k] == x);
        }
        lemma_latest_is_maximal(init);
        lemma_latest_is_listed(init);
        assert forall|x: Seq<char>| versions.contains(x) && x != v implies init.contains(x) by {
            let k = choose|k: int| 0 <= k < versions.len() && versions[k] == x;
            assert(init[k] == x);
        }
        if latest_of(init) is None {
            assert forall|x: Seq<char>| init.contains(x) implies !semver_valid(x) by {
                let k = choose|k: int| 0 <= k < init.len() && init[k] == x;
            }
        }
        assert(versions.contains(v)) by {
            assert(versions[versions.len() - 1] == v);
        }
    }
}

/// Latest-version selection does not depend on the order of the entries:
/// two lists that hold the same versions, each as often, give the same
/// latest version. This holds where being above is a strict total order on
/// the listed semantic versions (`semver_order_on`), as `semver::Version`'s
/// derived `Ord` makes it; that order is the outside crate's, so it stands
/// here as a premise rather than a proved fact.
pub proof fn lemma_latest_ignores_order(a: Seq<Seq<char>>, b: Seq<Seq<char>>)
    requires
        a.to_multiset() == b.to_multiset(),
        semver_order_on(a),
    ensures
        latest_of(a) == latest_of(b),
{
    assert forall|x: Seq<char>| a.contains(x) <==> b.contains(x) by {
        vstd::seq_lib::to_multiset_contains(a, x);
        vstd::seq_lib::to_multiset_contains(b, x);
    }
    assert(semver_order_on(b));
    lemma_latest_is_listed(a);
    lemma_latest_is_listed(b);
    lemma_latest_is_maximal(a);
    lemma_latest_is_maximal(b);
    if latest_of(a) is None && latest_of(b) is Some {
        let k = choose|k: int| 0 <= k < a.len() && a[k] == latest_of(b)->0;
    }
    if latest_of(b) is None && latest_of(a) is Some {
        let k = choose|k: int| 0 <= k < b.len() && b[k] == latest_of(a)->0;
    }
}

/// A declared version that no entry of any page has resolves to nothing,
/// however many entries there are.
pub proof fn lemma_unlisted_version_unresolved(pages: Seq<Seq<CatalogEntry>>, version: Seq<char>)
    requires
        forall|k: int|
            0 <= k < all_entries(pages).len() ==> #[trigger] all_entries(pages)[k].version@
                != version,
    ensures
        resolution(pages, version) is None,
{
    lemma_no_target(all_entries(pages), version);
}

proof fn lemma_no_target(entries: Seq<CatalogEntry>, version: Seq<char>)
    requires
        forall|k: int| 0 <= k < entries.len() ==> #[trigger] entries[k].version@ != version,
    ensures
        target_of(entries, version) is None,
    decreases entries.len(),
{
    if entries.len() > 0 {
        let init = entries.drop_last();
        assert forall|k: int| 0 <= k < init.len() implies #[trigger] init[k].version@ != version by {
            assert(init[k] == entries[k]);
        }
        lemma_no_target(init, version);
        assert(entries.last() == entries[entries.len() - 1]);
    }
}

/// The lower-case form of a text.
pub uninterp spec fn lower_of(s: Seq<char>) -> Seq<char>;

/// Relies on `str::to_lowercase`: the lower-case form, which depends on the
/// characters alone.
#[verifier::external_body]
fn lowercase(s: &str) -> (r: String)
    ensures
        r@ == lower_of(s@),
{
    s.to_lowercase()
}

/// The registry index of a package, keyed by its lower-cased name.
pub fn registry_url(package_name: &str) -> (r: String)
    ensures
        r@ == "https://api.nuget.org/v3/registration5-gz-semver1/"@ + lower_of(package_name@)
            + "/index.json"@,
{
    let lower = lowercase(package_name);
    let mut url = "https://api.nuget.org/v3/registration5-gz-semver1/".to_owned();
    url.append(lower.as_str());
    url.append("/index.json");
    url
}

/// The text that gzip-compressed bytes hold.
pub uninterp spec fn gunzip_text(body: Seq<u8>) -> Option<Seq<char>>;

/// Relies on `flate2::read::GzDecoder` read to a string: the decompressed
/// text, or nothing where the bytes are no gzip stream of UTF-8 text.
#[verifier::external_body]
fn gunzip(body: &[u8]) -> (r: Option<String>)
    ensures
        opt_view(r) == gunzip_text(body@),
{
    let mut decoder = flate2::read::GzDecoder::new(body);
    let mut text = String::new();
    match std::io::Read::read_to_string(&mut decoder, &mut text) {
        Ok(_) => Some(text),
        Err(_) => None,
    }
}

/// The text of a registry reply: nothing where the request failed or the
/// body does not decompress.
pub fn registry_reply_text(body: Option<Vec<u8>>) -> (r: Option<String>)
    ensures
        opt_view(r) == match body {
            Some(b) => gunzip_text(b@),
            None => None,
        },
{
    match body {
        Some(b) => gunzip(b.as_slice()),
        None => None,
    }
}

} // verus!
