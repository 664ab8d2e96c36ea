use nuget_scanner::pipeline::{PackageInfo, ProjectInfo};
use nuget_scanner::report::markdown_report;

fn info(name: &str, ok: bool, outdated: bool) -> PackageInfo {
    PackageInfo {
        name: name.to_string(),
        version: "1.0.0".to_string(),
        latest_version: "2.0.0".to_string(),
        published_date: "15 May 2015".to_string(),
        license_url: "https://licenses.nuget.org/MIT".to_string(),
        license_expression: "MIT".to_string(),
        description: "A library".to_string(),
        project_url: "https://example.org".to_string(),
        is_outdated: outdated,
        is_parsed_ok: ok,
    }
}

#[test]
fn markdown_report_sections_and_rows() {
    let projects = vec![
        ProjectInfo {
            project_name: "App".to_string(),
            packages: vec![info("A", true, true), info("B", true, false), info("C", false, false)],
        },
        ProjectInfo { project_name: "Empty".to_string(), packages: vec![] },
    ];
    let expected = "# NuGet Packages Report\n\n\
### Project App\n\
| Package Name | Version | Latest? | License | Description |\n\
| --- | --- | --- | --- | --- |\n\
| **[A](https://example.org)** | 1.0.0 | 🔸 2.0.0 | [MIT](https://licenses.nuget.org/MIT) | A library |\n\
| **[B](https://example.org)** | 1.0.0 | ✅ | [MIT](https://licenses.nuget.org/MIT) | A library |\n\
| C | 1.0.0 | - | - | 🛑 error fetching details | \n\
### Project Empty\n\
No packages found in this project\n\
\n---\n\
_Generated by [nuget-scanner](https://github.com/RustamIrzaev/nuget_scanner)_";
    assert_eq!(markdown_report(&projects), expected);
}

#[test]
fn markdown_report_of_nothing() {
    assert_eq!(
        markdown_report(&Vec::new()),
        "# NuGet Packages Report\n\n\n---\n_Generated by [nuget-scanner](https://github.com/RustamIrzaev/nuget_scanner)_"
    );
}
