use nuget_scanner::declarations::{extract_packages, parse_csproj, parse_packages_config, ProjectDirectory};

fn pair(name: &str, version: &str) -> (String, String) {
    (name.to_string(), version.to_string())
}

#[test]
fn legacy_line_yields_its_pair() {
    let text = "<?xml version=\"1.0\"?>\n<packages>\n  <package id=\"Newtonsoft.Json\" version=\"12.0.1\" targetFramework=\"net472\" />\n</packages>\n";
    assert_eq!(parse_packages_config(text), vec![pair("Newtonsoft.Json", "12.0.1")]);
}

#[test]
fn legacy_lines_keep_file_order() {
    let text = "<package id=\"B\" version=\"2.0\" />\r\n<package id=\"A\" version=\"1.0\" />\r\n";
    assert_eq!(parse_packages_config(text), vec![pair("B", "2.0"), pair("A", "1.0")]);
}

#[test]
fn non_matching_lines_contribute_nothing() {
    let text = "<package id=\"\" version=\"1.0\" />\n<package id=\"X\" version=\"\" />\n<package version=\"1.0\" id=\"Y\" />\n<package id=\"Z\"\n version=\"3.0\" />";
    assert!(parse_packages_config(text).is_empty());
    assert!(parse_packages_config("").is_empty());
}

#[test]
fn leftmost_declaration_of_a_line_wins() {
    let text = "<package id=\"A\" version=\"1\" /><package id=\"B\" version=\"2\" />";
    assert_eq!(parse_packages_config(text), vec![pair("A", "1")]);
}

#[test]
fn modern_line_yields_its_pair() {
    let text = "<Project Sdk=\"Microsoft.NET.Sdk\">\n  <ItemGroup>\n    <PackageReference Include=\"Serilog\" Version=\"3.1.1\" />\n    <PackageReference Include=\"Dapper\" Version=\"2.1.35\" />\n  </ItemGroup>\n</Project>";
    assert_eq!(parse_csproj(text), vec![pair("Serilog", "3.1.1"), pair("Dapper", "2.1.35")]);
}

#[test]
fn formats_do_not_mix() {
    let legacy = "<package id=\"A\" version=\"1.0\" />";
    let modern = "<PackageReference Include=\"B\" Version=\"2.0\" />";
    assert!(parse_csproj(legacy).is_empty());
    assert!(parse_packages_config(modern).is_empty());
}

#[test]
fn manifest_beside_project_file_wins() {
    let project = ProjectDirectory {
        project_files: vec!["<PackageReference Include=\"Other\" Version=\"9.9.9\" />".to_string()],
        packages_config: Some("<package id=\"Newtonsoft.Json\" version=\"12.0.1\"/>".to_string()),
    };
    assert_eq!(extract_packages(&project), vec![pair("Newtonsoft.Json", "12.0.1")]);
}

#[test]
fn project_files_read_without_manifest() {
    let project = ProjectDirectory {
        project_files: vec![
            "<PackageReference Include=\"A\" Version=\"1.0\" />".to_string(),
            "<PackageReference Include=\"B\" Version=\"2.0\" />".to_string(),
        ],
        packages_config: None,
    };
    assert_eq!(extract_packages(&project), vec![pair("A", "1.0"), pair("B", "2.0")]);
}

#[test]
fn manifest_counted_once_per_project_file() {
    let project = ProjectDirectory {
        project_files: vec![String::new(), String::new()],
        packages_config: Some("<package id=\"A\" version=\"1.0\" />".to_string()),
    };
    assert_eq!(extract_packages(&project), vec![pair("A", "1.0"), pair("A", "1.0")]);
}

#[test]
fn directory_without_project_files_declares_nothing() {
    let project = ProjectDirectory { project_files: vec![], packages_config: None };
    assert!(extract_packages(&project).is_empty());
}

#[test]
fn inserted_non_matching_lines_change_nothing() {
    let base = "<package id=\"A\" version=\"1.0\" />\n<package id=\"B\" version=\"2.0\" />";
    let padded = "<!-- comment -->\n<package id=\"A\" version=\"1.0\" />\n<packages>\n<PackageReference Include=\"C\" Version=\"3.0\" />\n<package id=\"B\" version=\"2.0\" />\n</packages>";
    assert_eq!(parse_packages_config(padded), parse_packages_config(base));
    assert_eq!(parse_packages_config(base), vec![pair("A", "1.0"), pair("B", "2.0")]);
}

#[test]
fn declaration_after_other_markup_on_its_line() {
    let text = "<x><package id=\"A\" version=\"1.0\" /></x>";
    assert_eq!(parse_packages_config(text), vec![pair("A", "1.0")]);
}
