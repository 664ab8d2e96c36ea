use nuget_scanner::pipeline::{
    convert_and_map_packages, package_info, process_projects_data, project_directories, project_name, ProjectScan,
};
use nuget_scanner::registry::CatalogEntry;

fn entry(version: &str) -> CatalogEntry {
    CatalogEntry {
        version: version.to_string(),
        license_url: Some("https://licenses.nuget.org/MIT".to_string()),
        license_expression: Some("MIT".to_string()),
        project_url: Some("https://example.org".to_string()),
        description: Some("A library".to_string()),
        latest_version: None,
        published_at: Some(1431648000),
    }
}

fn decl(name: &str, version: &str) -> (String, String) {
    (name.to_string(), version.to_string())
}

#[test]
fn outdated_when_newer_release_listed() {
    let pages = vec![vec![entry("1.0.0"), entry("1.2.0")], vec![entry("2.0.0"), entry("1.5.0")]];
    let infos = convert_and_map_packages(vec![decl("Pkg", "1.2.0")], vec![Some(pages)]);
    assert_eq!(infos.len(), 1);
    let info = &infos[0];
    assert!(info.is_parsed_ok);
    assert!(info.is_outdated);
    assert_eq!(info.latest_version, "2.0.0");
    assert_eq!(info.version, "1.2.0");
    assert_eq!(info.license_expression, "MIT");
    assert_eq!(info.published_date, "15 May 2015");
}

#[test]
fn failed_lookup_gives_placeholders() {
    let infos = convert_and_map_packages(vec![decl("Pkg", "1.0.0")], vec![None]);
    let info = &infos[0];
    assert!(!info.is_parsed_ok);
    assert!(!info.is_outdated);
    assert_eq!(info.name, "Pkg");
    assert_eq!(info.version, "1.0.0");
    assert_eq!(info.license_expression, "not found");
    assert_eq!(info.license_url, "not found");
    assert_eq!(info.latest_version, "unknown");
    assert_eq!(info.description, "n/a");
    assert_eq!(info.project_url, "n/a");
    assert_eq!(info.published_date, "n/a");
}

#[test]
fn unlisted_version_gives_unresolved_record() {
    let pages = vec![vec![entry("1.0.0"), entry("2.0.0")]];
    let infos = convert_and_map_packages(vec![decl("Pkg", "1.5.0")], vec![Some(pages)]);
    assert!(!infos[0].is_parsed_ok);
    assert_eq!(infos[0].license_expression, "not found");
}

#[test]
fn equal_texts_are_current_even_for_prerelease() {
    let mut e = entry("1.0.0-beta");
    e.latest_version = Some("1.0.0-beta".to_string());
    let info = package_info("Pkg".to_string(), "1.0.0-beta".to_string(), Some(e));
    assert!(!info.is_outdated);
    assert!(info.is_parsed_ok);
}

#[test]
fn missing_latest_reads_unknown_and_outdated() {
    let mut e = entry("1.0");
    e.license_url = None;
    e.description = None;
    e.published_at = None;
    let info = package_info("Pkg".to_string(), "1.0".to_string(), Some(e));
    assert_eq!(info.latest_version, "unknown");
    assert!(info.is_outdated);
    assert_eq!(info.license_url, "not found");
    assert_eq!(info.description, "n/a");
    assert_eq!(info.published_date, "n/a");
}

#[test]
fn every_declaration_keeps_a_record_in_order() {
    let infos = convert_and_map_packages(
        vec![decl("B", "1.0.0"), decl("A", "2.0.0"), decl("C", "3.0.0")],
        vec![None, Some(vec![vec![entry("2.0.0")]]), None],
    );
    let names: Vec<&str> = infos.iter().map(|i| i.name.as_str()).collect();
    assert_eq!(names, vec!["B", "A", "C"]);
    assert!(infos[1].is_parsed_ok && !infos[1].is_outdated);
}

#[test]
fn no_projects_no_reports() {
    assert!(process_projects_data(Vec::new()).is_empty());
}

#[test]
fn reports_follow_projects() {
    let scans = vec![
        ProjectScan { path: "/src/App/".to_string(), packages: vec![decl("Pkg", "1.0.0")], responses: vec![None] },
        ProjectScan { path: "/src/Empty".to_string(), packages: vec![], responses: vec![] },
    ];
    let reports = process_projects_data(scans);
    assert_eq!(reports.len(), 2);
    assert_eq!(reports[0].project_name, "App");
    assert_eq!(reports[0].packages.len(), 1);
    assert_eq!(reports[1].project_name, "Empty");
    assert!(reports[1].packages.is_empty());
}

#[test]
fn project_name_is_last_segment() {
    assert_eq!(project_name("/home/dev/Solution/WebApi"), "WebApi");
    assert_eq!(project_name("Solution/WebApi//"), "WebApi");
    assert_eq!(project_name("WebApi"), "WebApi");
    assert_eq!(project_name("/"), "");
}

#[test]
fn project_directories_of_project_files() {
    let files = vec![
        "repo/App/App.csproj".to_string(),
        "repo/App/packages.config".to_string(),
        "repo/Lib/Lib.csproj".to_string(),
        "/Root.csproj".to_string(),
        "Top.csproj".to_string(),
        "repo/notes.csproj.bak".to_string(),
    ];
    assert_eq!(
        project_directories(&files),
        vec!["repo/App".to_string(), "repo/Lib".to_string(), "/".to_string(), String::new()]
    );
}

#[test]
fn folder_without_project_files_gives_no_reports() {
    let files = vec!["repo/App/packages.config".to_string(), "repo/web.config".to_string()];
    let dirs = project_directories(&files);
    assert!(dirs.is_empty());
    let scans: Vec<ProjectScan> = dirs
        .into_iter()
        .map(|path| ProjectScan { path, packages: vec![], responses: vec![] })
        .collect();
    assert!(process_projects_data(scans).is_empty());
}
