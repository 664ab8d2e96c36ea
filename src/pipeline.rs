//! One record per declared package, resolved or marked unresolved, grouped
//! by the project that declares it.
use vstd::prelude::*;
use crate::declarations::Declaration;
use crate::registry::{pages_view, opt_view, opt_entry_view, resolution, select_catalog_entry, CatalogEntry, CatalogEntryView};
use crate::text::{chars_of, occurs_at, substring};

verus! {

/// A declared package with what the registry says of it. Where nothing could
/// be resolved, `is_parsed_ok` is false and every text is a placeholder.
pub struct PackageInfo {
    pub name: String,
    pub version: String,
    pub latest_version: String,
    pub published_date: String,
    pub license_url: String,
    pub license_expression: String,
    pub description: String,
    pub project_url: String,
    pub is_outdated: bool,
    pub is_parsed_ok: bool,
}

pub struct PackageInfoView {
    pub name: Seq<char>,
    pub version: Seq<char>,
    pub latest_version: Seq<char>,
    pub published_date: Seq<char>,
    pub license_url: Seq<char>,
    pub license_expression: Seq<char>,
    pub description: Seq<char>,
    pub project_url: Seq<char>,
    pub is_outdated: bool,
    pub is_parsed_ok: bool,
}

impl View for PackageInfo {
    type V = PackageInfoView;

    open spec fn view(&self) -> PackageInfoView {
        PackageInfoView {
            name: self.name@,
            version: self.version@,
            latest_version: self.latest_version@,
            published_date: self.published_date@,
            license_url: self.license_url@,
            license_expression: self.license_expression@,
            description: self.description@,
            project_url: self.project_url@,
            is_outdated: self.is_outdated,
            is_parsed_ok: self.is_parsed_ok,
        }
    }
}

/// The packages of one project, in the order of their declarations.
pub struct ProjectInfo {
    pub project_name: String,
    pub packages: Vec<PackageInfo>,
}

/// The registry's pages for a package: each page a list of catalog entries.
pub type RegistryPages = Vec<Vec<CatalogEntry>>;

/// What was gathered for one project directory: its path, its declarations,
/// and for each declaration the registry's pages, or nothing where the
/// lookup failed.
pub struct ProjectScan {
    pub path: String,
    pub packages: Vec<Declaration>,
    pub responses: Vec<Option<RegistryPages>>,
}

/// A UTC timestamp as day, abbreviated month and year (`05 Mar 2021`).
pub uninterp spec fn date_text(secs: int) -> Option<Seq<char>>;

/// Relies on chrono: `DateTime::from_timestamp` and its `%d %b %Y` rendering.
/// Nothing where the timestamp is out of chrono's range.
#[verifier::external_body]
fn format_day_month_year(secs: i64) -> (r: Option<String>)
    ensures
        opt_view(r) == date_text(secs as int),
{
    match chrono::DateTime::from_timestamp(secs, 0) {
        Some(d) => Some(d.format("%d %b %Y").to_string()),
        None => None,
    }
}

pub open spec fn or_text(o: Option<Seq<char>>, fallback: Seq<char>) -> Seq<char> {
    match o {
        Some(s) => s,
        None => fallback,
    }
}

/// How the publication date is shown: `n/a` where it is missing or cannot be
/// rendered.
pub open spec fn published_text(published_at: Option<i64>) -> Seq<char> {
    match published_at {
        Some(t) => or_text(date_text(t as int), "n/a"@),
        None => "n/a"@,
    }
}

/// The record of a declared package, from the catalog entry of its version
/// where one was found.
pub open spec fn package_record(
    name: Seq<char>,
    version: Seq<char>,
    details: Option<CatalogEntryView>,
) -> PackageInfoView {
    match details {
        Some(d) => {
            let latest = or_text(d.latest_version, "unknown"@);
            PackageInfoView {
                name,
                version,
                latest_version: latest,
                published_date: published_text(d.published_at),
                license_url: or_text(d.license_url, "not found"@),
                license_expression: or_text(d.license_expression, "not found"@),
                description: or_text(d.description, "n/a"@),
                project_url: or_text(d.project_url, "n/a"@),
                is_outdated: version != latest,
                is_parsed_ok: true,
            }
        },
        None => PackageInfoView {
            name,
            version,
            latest_version: "unknown"@,
            published_date: "n/a"@,
            license_url: "not found"@,
            license_expression: "not found"@,
            description: "n/a"@,
            project_url: "n/a"@,
            is_outdated: false,
            is_parsed_ok: false,
        },
    }
}

pub open spec fn response_view(response: Option<RegistryPages>) -> Option<Seq<Seq<CatalogEntry>>> {
    match response {
        Some(pages) => Some(pages_view(pages@)),
        None => None,
    }
}

pub open spec fn responses_view(responses: Seq<Option<RegistryPages>>) -> Seq<
    Option<Seq<Seq<CatalogEntry>>>,
> {
    responses.map_values(|o: Option<RegistryPages>| response_view(o))
}

/// What the registry's reply says of `version`.
pub open spec fn response_resolution(response: Option<Seq<Seq<CatalogEntry>>>, version: Seq<char>) -> Option<
    CatalogEntryView,
> {
    match response {
        Some(pages) => resolution(pages, version),
        None => None,
    }
}

/// The records of the declarations, one each, in order.
pub open spec fn expected_records(
    packages: Seq<Declaration>,
    responses: Seq<Option<Seq<Seq<CatalogEntry>>>>,
) -> Seq<PackageInfoView> {
    Seq::new(
        packages.len(),
        |i: int|
            package_record(
                packages[i].0@,
                packages[i].1@,
                response_resolution(responses[i], packages[i].1@),
            ),
    )
}

pub open spec fn infos_view(infos: Seq<PackageInfo>) -> Seq<PackageInfoView> {
    infos.map_values(|p: PackageInfo| p@)
}

fn text_or(o: Option<String>, fallback: &str) -> (r: String)
    ensures
        r@ == or_text(opt_view(o), fallback@),
{
    match o {
        Some(s) => s,
        None => fallback.to_owned(),
    }
}

fn published_date(published_at: Option<i64>) -> (r: String)
    ensures
        r@ == published_text(published_at),
{
    match published_at {
        Some(t) => text_or(format_day_month_year(t), "n/a"),
        None => "n/a".to_owned(),
    }
}

/// The record of one declared package, from the catalog entry of its
/// version where one was found.
pub fn package_info(name: String, version: String, details: Option<CatalogEntry>) -> (r: PackageInfo)
    ensures
        r@ == package_record(name@, version@, opt_entry_view(details)),
{
    match details {
        Some(d) => {
            let latest_version = text_or(d.latest_version, "unknown");
            let is_outdated = !(version == latest_version);
            PackageInfo {
                name,
                version,
                latest_version,
                published_date: published_date(d.published_at),
                license_url: text_or(d.license_url, "not found"),
                license_expression: text_or(d.license_expression, "not found"),
                description: text_or(d.description, "n/a"),
                project_url: text_or(d.project_url, "n/a"),
                is_outdated,
                is_parsed_ok: true,
            }
        },
        None => PackageInfo {
            name,
            version,
            latest_version: "unknown".to_owned(),
            published_date: "n/a".to_owned(),
            license_url: "not found".to_owned(),
            license_expression: "not found".to_owned(),
            description: "n/a".to_owned(),
            project_url: "n/a".to_owned(),
            is_outdated: false,
            is_parsed_ok: false,
        },
    }
}

/// Resolves each declaration against the registry's reply for it, and makes
/// one record of each, in order; a failed lookup gives an unresolved record.
pub fn convert_and_map_packages(
    packages: Vec<Declaration>,
    responses: Vec<Option<RegistryPages>>,
) -> (r: Vec<PackageInfo>)
    requires
        packages.len() == responses.len(),
    ensures
        infos_view(r@) == expected_records(packages@, responses_view(responses@)),
{
    let mut out: Vec<PackageInfo> = Vec::new();
    let mut k: usize = 0;
    while k < packages.len()
        invariant
            k <= packages.len() == responses.len(),
            infos_view(out@) =~= expected_records(packages@, responses_view(responses@)).subrange(0, k as int),
        decreases packages.len() - k,
    {
        let name = packages[k].0.clone();
        let version = packages[k].1.clone();
        let details = match &responses[k] {
            Some(pages) => select_catalog_entry(pages, version.as_str()),
            None => None,
        };
        proof {
            assert(responses_view(responses@)[k as int] == response_view(responses@[k as int]));
        }
        let info = package_info(name, version, details);
        let ghost before = infos_view(out@);
        out.push(info);
        assert(infos_view(out@) =~= before.push(info@));
        k = k + 1;
    }
    out
}

/// The path without the slashes that end it.
pub open spec fn trim_slashes(path: Seq<char>) -> Seq<char>
    decreases path.len(),
{
    if path.len() > 0 && path.last() == '/' {
        trim_slashes(path.drop_last())
    } else {
        path
    }
}

/// What follows the last slash of the path, or the whole path where it has none.
pub open spec fn last_segment(path: Seq<char>) -> Seq<char>
    decreases path.len(),
{
    if path.len() == 0 || path.last() == '/' {
        seq![]
    } else {
        last_segment(path.drop_last()).push(path.last())
    }
}

/// A project's name: the last segment of its directory's path.
pub open spec fn project_name_of(path: Seq<char>) -> Seq<char> {
    last_segment(trim_slashes(path))
}

/// The name of the project in the directory at `path`.
pub fn project_name(path: &str) -> (r: String)
    ensures
        r@ == project_name_of(path@),
{
    let chars = chars_of(path);
    let mut end: usize = chars.len();
    assert(chars@.subrange(0, end as int) =~= chars@);
    while end > 0 && chars[end - 1] == '/'
        invariant
            end <= chars.len(),
            trim_slashes(chars@.subrange(0, end as int)) == trim_slashes(chars@),
        decreases end,
    {
        assert(chars@.subrange(0, end as int).drop_last() =~= chars@.subrange(0, end - 1));
        end = end - 1;
    }
    assert(chars@.subrange(0, end as int) =~= chars@ || end < chars.len());
    let ghost trimmed = chars@.subrange(0, end as int);
    assert(trim_slashes(trimmed) == trimmed);
    let mut start: usize = end;
    while start > 0 && chars[start - 1] != '/'
        invariant
            start <= end <= chars.len(),
            trimmed == chars@.subrange(0, end as int),
            last_segment(trimmed) == last_segment(chars@.subrange(0, start as int))
                + chars@.subrange(start as int, end as int),
        decreases start,
    {
        let ghost before = chars@.subrange(0, start as int);
        assert(before.drop_last() =~= chars@.subrange(0, start - 1));
        assert(chars@.subrange(start - 1, end as int) =~= seq![before.last()]
            + chars@.subrange(start as int, end as int));
        assert(last_segment(before) == last_segment(before.drop_last()).push(before.last()));
        assert(last_segment(chars@.subrange(0, start - 1)).push(before.last())
            + chars@.subrange(start as int, end as int) =~= last_segment(
            chars@.subrange(0, start - 1),
        ) + chars@.subrange(start - 1, end as int));
        start = start - 1;
    }
    assert(last_segment(chars@.subrange(0, start as int)) =~= Seq::<char>::empty());
    substring(&chars, start, end)
}

/// The inputs of one project are well formed: one reply for each declaration.
pub open spec fn scan_well_formed(scan: ProjectScan) -> bool {
    scan.packages.len() == scan.responses.len()
}

/// One report per project, in the order of the input: the project's name
/// and the record of each of its declarations.
pub fn process_projects_data(projects: Vec<ProjectScan>) -> (r: Vec<ProjectInfo>)
    requires
        forall|i: int| 0 <= i < projects.len() ==> scan_well_formed(#[trigger] projects[i]),
    ensures
        r.len() == projects.len(),
        forall|i: int|
            0 <= i < r.len() ==> {
                &&& (#[trigger] r[i]).project_name@ == project_name_of(projects[i].path@)
                &&& infos_view(r[i].packages@) == expected_records(
                    projects[i].packages@,
                    responses_view(projects[i].responses@),
                )
            },
{
    let mut out: Vec<ProjectInfo> = Vec::new();
    let mut k: usize = 0;
    while k < projects.len()
        invariant
            k <= projects.len(),
            out.len() == k,
            forall|i: int| 0 <= i < projects.len() ==> scan_well_formed(#[trigger] projects[i]),
            forall|i: int|
                0 <= i < k ==> {
                    &&& (#[trigger] out[i]).project_name@ == project_name_of(projects[i].path@)
                    &&& infos_view(out[i].packages@) == expected_records(
                        projects[i].packages@,
                        responses_view(projects[i].responses@),
                    )
                },
        decreases projects.len() - k,
    {
        let scan = &projects[k];
        assert(scan_well_formed(projects[k as int]));
        let project_name = project_name(scan.path.as_str());
        let packages = convert_and_map_packages(clone_declarations(&scan.packages), clone_responses(&scan.responses));
        out.push(ProjectInfo { project_name, packages });
        k = k + 1;
    }
    out
}

fn clone_declarations(ds: &Vec<Declaration>) -> (r: Vec<Declaration>)
    ensures
        r@ == ds@,
{
    let mut out: Vec<Declaration> = Vec::new();
    let mut k: usize = 0;
    while k < ds.len()
        invariant
            k <= ds.len(),
            out@ == ds@.subrange(0, k as int),
        decreases ds.len() - k,
    {
        out.push((ds[k].0.clone(), ds[k].1.clone()));
        assert(out@ =~= ds@.subrange(0, k + 1));
        k = k + 1;
    }
    assert(ds@.subrange(0, k as int) =~= ds@);
    out
}

fn clone_entries(es: &Vec<CatalogEntry>) -> (r: Vec<CatalogEntry>)
    ensures
        r@ == es@,
{
    let mut out: Vec<CatalogEntry> = Vec::new();
    let mut k: usize = 0;
    while k < es.len()
        invariant
            k <= es.len(),
            out@ == es@.subrange(0, k as int),
        decreases es.len() - k,
    {
        out.push(es[k].duplicate());
        assert(out@ =~= es@.subrange(0, k + 1));
        k = k + 1;
    }
    assert(es@.subrange(0, k as int) =~= es@);
    out
}

fn clone_pages(pages: &RegistryPages) -> (r: RegistryPages)
    ensures
        r.len() == pages.len(),
        pages_view(r@) == pages_view(pages@),
{
    let mut out: RegistryPages = Vec::new();
    let mut k: usize = 0;
    while k < pages.len()
        invariant
            k <= pages.len(),
            out.len() == k,
            pages_view(out@) == pages_view(pages@).subrange(0, k as int),
        decreases pages.len() - k,
    {
        let page = clone_entries(&pages[k]);
        let ghost before = out@;
        out.push(page);
        assert(out@ == before.push(page));
        assert(pages_view(out@) =~= pages_view(pages@).subrange(0, k + 1));
        k = k + 1;
    }
    assert(pages_view(pages@).subrange(0, k as int) =~= pages_view(pages@));
    out
}

fn clone_responses(rs: &Vec<Option<RegistryPages>>) -> (r: Vec<Option<RegistryPages>>)
    ensures
        r.len() == rs.len(),
        responses_view(r@) == responses_view(rs@),
{
    let mut out: Vec<Option<RegistryPages>> = Vec::new();
    let mut k: usize = 0;
    while k < rs.len()
        invariant
            k <= rs.len(),
            out.len() == k,
            responses_view(out@) == responses_view(rs@).subrange(0, k as int),
        decreases rs.len() - k,
    {
        let item = match &rs[k] {
            Some(pages) => Some(clone_pages(pages)),
            None => None,
        };
        assert(response_view(item) == response_view(rs@[k as int]));
        let ghost before = out@;
        out.push(item);
        assert(out@ == before.push(item));
        assert(responses_view(out@) =~= responses_view(rs@).subrange(0, k + 1));
        k = k + 1;
    }
    assert(responses_view(rs@).subrange(0, k as int) =~= responses_view(rs@));
    out
}

/// Equal declared and latest version texts never make a resolved record
/// outdated, and different ones always do.
pub proof fn lemma_outdated_iff_versions_differ(
    name: Seq<char>,
    version: Seq<char>,
    details: CatalogEntryView,
)
    ensures
        package_record(name, version, Some(details)).is_outdated <==> version != package_record(
            name,
            version,
            Some(details),
        ).latest_version,
{
}

/// `.csproj`
pub open spec fn project_file_suffix() -> Seq<char> {
    seq!['.', 'c', 's', 'p', 'r', 'o', 'j']
}

pub open spec fn is_project_file(path: Seq<char>) -> bool {
    path.len() >= 7 && path.subrange(path.len() - 7, path.len() as int) == project_file_suffix()
}

/// The directory of a file: the path up to its last slash, the root where
/// that slash is the first character, and empty where there is none.
pub open spec fn parent_of(path: Seq<char>) -> Seq<char>
    decreases path.len(),
{
    if path.len() == 0 {
        seq![]
    } else if path.last() == '/' {
        if path.len() == 1 {
            path
        } else {
            path.drop_last()
        }
    } else {
        parent_of(path.drop_last())
    }
}

/// The directories of the project files among `files`, in order.
pub open spec fn project_directories_of(files: Seq<String>) -> Seq<Seq<char>>
    decreases files.len(),
{
    if files.len() == 0 {
        seq![]
    } else {
        let rest = project_directories_of(files.drop_last());
        if is_project_file(files.last()@) {
            rest.push(parent_of(files.last()@))
        } else {
            rest
        }
    }
}

pub open spec fn strings_view(v: Seq<String>) -> Seq<Seq<char>> {
    v.map_values(|s: String| s@)
}

fn directory_of(chars: &Vec<char>) -> (r: String)
    ensures
        r@ == parent_of(chars@),
{
    let mut k: usize = chars.len();
    assert(chars@.subrange(0, k as int) =~= chars@);
    while k > 0 && chars[k - 1] != '/'
        invariant
            k <= chars.len(),
            parent_of(chars@.subrange(0, k as int)) == parent_of(chars@),
        decreases k,
    {
        assert(chars@.subrange(0, k as int).drop_last() =~= chars@.subrange(0, k - 1));
        k = k - 1;
    }
    if k == 0 {
        substring(chars, 0, 0)
    } else if k == 1 {
        substring(chars, 0, 1)
    } else {
        assert(chars@.subrange(0, k as int).drop_last() =~= chars@.subrange(0, k - 1));
        substring(chars, 0, k - 1)
    }
}

/// The directory of each project file among the discovered files, in order.
pub fn project_directories(files: &Vec<String>) -> (r: Vec<String>)
    ensures
        strings_view(r@) == project_directories_of(files@),
{
    let suffix = vec!['.', 'c', 's', 'p', 'r', 'o', 'j'];
    assert(suffix@ =~= project_file_suffix());
    let mut out: Vec<String> = Vec::new();
    let mut k: usize = 0;
    while k < files.len()
        invariant
            k <= files.len(),
            suffix@ == project_file_suffix(),
            strings_view(out@) == project_directories_of(files@.subrange(0, k as int)),
        decreases files.len() - k,
    {
        let chars = chars_of(files[k].as_str());
        let ghost seen = files@.subrange(0, k + 1);
        assert(seen.drop_last() =~= files@.subrange(0, k as int));
        if chars.len() >= 7 && occurs_at(&chars, chars.len() - 7, &suffix) {
            let dir = directory_of(&chars);
            let ghost before = out@;
            out.push(dir);
            assert(strings_view(out@) =~= strings_view(before).push(dir@));
        }
        k = k + 1;
    }
    assert(files@.subrange(0, k as int) =~= files@);
    out
}

} // verus!
