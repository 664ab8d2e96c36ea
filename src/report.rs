//! The Markdown license report: one section per project, one table row per
//! package.
use vstd::prelude::*;
use crate::pipeline::{infos_view, PackageInfo, PackageInfoView, ProjectInfo};

verus! {

/// The cell that says whether a package is current.
pub open spec fn latest_cell(p: PackageInfoView) -> Seq<char> {
    if p.is_outdated {
        "🔸 "@ + p.latest_version
    } else {
        "✅"@
    }
}

/// The table row of a package.
pub open spec fn package_row(p: PackageInfoView) -> Seq<char> {
    if p.is_parsed_ok {
        "| **["@ + p.name + "]("@ + p.project_url + ")** | "@ + p.version + " | "@ + latest_cell(p)
            + " | ["@ + p.license_expression + "]("@ + p.license_url + ") | "@ + p.description
            + " |\n"@
    } else {
        "| "@ + p.name + " | "@ + p.version + " | - | - | 🛑 error fetching details | \n"@
    }
}

pub open spec fn package_rows(ps: Seq<PackageInfoView>) -> Seq<char>
    decreases ps.len(),
{
    if ps.len() == 0 {
        seq![]
    } else {
        package_rows(ps.drop_last()) + package_row(ps.last())
    }
}

pub open spec fn table_head() -> Seq<char> {
    "| Package Name | Version | Latest? | License | Description |\n"@
        + "| --- | --- | --- | --- | --- |\n"@
}

/// The section of a project: its heading, then its table, or a note where it
/// has no packages.
pub open spec fn project_section(p: ProjectInfo) -> Seq<char> {
    "### Project "@ + p.project_name@ + "\n"@ + if p.packages.len() == 0 {
        "No packages found in this project\n"@
    } else {
        table_head() + package_rows(infos_view(p.packages@))
    }
}

pub open spec fn project_sections(ps: Seq<ProjectInfo>) -> Seq<char>
    decreases ps.len(),
{
    if ps.len() == 0 {
        seq![]
    } else {
        project_sections(ps.drop_last()) + project_section(ps.last())
    }
}

/// The closing line of the report, which credits the tool.
pub open spec fn credit_line() -> Seq<char> {
    "_Generated by [nuget-scanner](https://github.com/RustamIrzaev/nuget_scanner)_"@
}

/// The whole report: the title, a section per project, a rule, and the
/// closing credit line.
pub open spec fn markdown_of(ps: Seq<ProjectInfo>) -> Seq<char> {
    "# NuGet Packages Report\n\n"@ + project_sections(ps) + "\n---\n"@ + credit_line()
}

fn package_row_text(p: &PackageInfo) -> (r: String)
    ensures
        r@ == package_row(p@),
{
    let mut s: String;
    if p.is_parsed_ok {
        let latest = if p.is_outdated {
            let mut l = "🔸 ".to_owned();
            l.append(p.latest_version.as_str());
            l
        } else {
            "✅".to_owned()
        };
        s = "| **[".to_owned();
        s.append(p.name.as_str());
        s.append("](");
        s.append(p.project_url.as_str());
        s.append(")** | ");
        s.append(p.version.as_str());
        s.append(" | ");
        s.append(latest.as_str());
        s.append(" | [");
        s.append(p.license_expression.as_str());
        s.append("](");
        s.append(p.license_url.as_str());
        s.append(") | ");
        s.append(p.description.as_str());
        s.append(" |\n");
    } else {
        s = "| ".to_owned();
        s.append(p.name.as_str());
        s.append(" | ");
        s.append(p.version.as_str());
        s.append(" | - | - | 🛑 error fetching details | \n");
    }
    assert(s@ =~= package_row(p@));
    s
}

fn project_section_text(p: &ProjectInfo) -> (r: String)
    ensures
        r@ == project_section(*p),
{
    let mut s = "### Project ".to_owned();
    s.append(p.project_name.as_str());
    s.append("\n");
    let ghost heading = s@;
    if p.packages.len() == 0 {
        s.append("No packages found in this project\n");
    } else {
        s.append("| Package Name | Version | Latest? | License | Description |\n");
        s.append("| --- | --- | --- | --- | --- |\n");
        assert(s@ =~= heading + table_head());
        let mut k: usize = 0;
        while k < p.packages.len()
            invariant
                k <= p.packages.len(),
                s@ =~= heading + table_head() + package_rows(
                    infos_view(p.packages@.subrange(0, k as int)),
                ),
            decreases p.packages.len() - k,
        {
            let row = package_row_text(&p.packages[k]);
            proof {
                let next = infos_view(p.packages@.subrange(0, k + 1));
                assert(next.drop_last() =~= infos_view(p.packages@.subrange(0, k as int)));
                assert(next.last() == p.packages@[k as int]@);
            }
            s.append(row.as_str());
            k = k + 1;
        }
        assert(p.packages@.subrange(0, k as int) =~= p.packages@);
    }
    assert(s@ =~= project_section(*p));
    s
}

/// The Markdown report of the projects.
pub fn markdown_report(projects: &Vec<ProjectInfo>) -> (r: String)
    ensures
        r@ == markdown_of(projects@),
{
    let mut s = "# NuGet Packages Report\n\n".to_owned();
    let mut k: usize = 0;
    while k < projects.len()
        invariant
            k <= projects.len(),
            s@ =~= "# NuGet Packages Report\n\n"@ + project_sections(
                projects@.subrange(0, k as int),
            ),
        decreases projects.len() - k,
    {
        let section = project_section_text(&projects[k]);
        proof {
            let next = projects@.subrange(0, k + 1);
            assert(next.drop_last() =~= projects@.subrange(0, k as int));
        }
        s.append(section.as_str());
        k = k + 1;
    }
    assert(projects@.subrange(0, k as int) =~= projects@);
    s.append("\n---\n");
    s.append("_Generated by [nuget-scanner](https://github.com/RustamIrzaev/nuget_scanner)_");
    s
}

} // verus!
