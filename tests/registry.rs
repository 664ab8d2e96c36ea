use std::io::Write;
use nuget_scanner::registry::{registry_reply_text, registry_url, select_catalog_entry, CatalogEntry};

fn entry(version: &str) -> CatalogEntry {
    CatalogEntry {
        version: version.to_string(),
        license_url: None,
        license_expression: Some(format!("MIT-{}", version)),
        project_url: None,
        description: None,
        latest_version: None,
        published_at: None,
    }
}

fn pages(spec: &[&[&str]]) -> Vec<Vec<CatalogEntry>> {
    spec.iter().map(|p| p.iter().map(|v| entry(v)).collect()).collect()
}

#[test]
fn latest_found_on_any_page() {
    let catalog = pages(&[&["1.0.0", "1.2.0"], &["2.0.0", "1.5.0"]]);
    let found = select_catalog_entry(&catalog, "1.2.0").unwrap();
    assert_eq!(found.version, "1.2.0");
    assert_eq!(found.latest_version, Some("2.0.0".to_string()));
    assert_eq!(found.license_expression, Some("MIT-1.2.0".to_string()));
}

#[test]
fn latest_does_not_depend_on_order() {
    let orders: [&[&[&str]]; 3] = [
        &[&["1.0.0", "1.2.0"], &["2.0.0", "1.5.0"]],
        &[&["2.0.0", "1.5.0"], &["1.2.0", "1.0.0"]],
        &[&["1.5.0"], &["1.0.0", "2.0.0", "1.2.0"]],
    ];
    for order in orders.iter() {
        let found = select_catalog_entry(&pages(order), "1.0.0").unwrap();
        assert_eq!(found.latest_version, Some("2.0.0".to_string()));
    }
}

#[test]
fn semantic_not_lexical_order() {
    let catalog = pages(&[&["1.10.0", "1.9.0", "1.2.0"]]);
    let found = select_catalog_entry(&catalog, "1.9.0").unwrap();
    assert_eq!(found.latest_version, Some("1.10.0".to_string()));
}

#[test]
fn release_above_its_prerelease() {
    let catalog = pages(&[&["1.0.0-beta", "1.0.0", "1.0.0-rc.1"]]);
    let found = select_catalog_entry(&catalog, "1.0.0-beta").unwrap();
    assert_eq!(found.latest_version, Some("1.0.0".to_string()));
}

#[test]
fn unlisted_version_unresolved() {
    let catalog = pages(&[&["1.0.0", "1.2.0"], &["2.0.0"]]);
    assert!(select_catalog_entry(&catalog, "1.1.0").is_none());
    assert!(select_catalog_entry(&Vec::new(), "1.1.0").is_none());
    assert!(select_catalog_entry(&pages(&[&[], &[]]), "1.1.0").is_none());
}

#[test]
fn non_semantic_version_matched_but_never_latest() {
    let catalog = pages(&[&["1.0", "2.0.0"], &["10.0"]]);
    let found = select_catalog_entry(&catalog, "1.0").unwrap();
    assert_eq!(found.version, "1.0");
    assert_eq!(found.latest_version, Some("2.0.0".to_string()));
}

#[test]
fn no_semantic_version_leaves_latest_absent() {
    let catalog = pages(&[&["1.0", "2.0"]]);
    let found = select_catalog_entry(&catalog, "2.0").unwrap();
    assert_eq!(found.latest_version, None);
}

#[test]
fn url_uses_lower_case_name() {
    assert_eq!(
        registry_url("Newtonsoft.Json"),
        "https://api.nuget.org/v3/registration5-gz-semver1/newtonsoft.json/index.json"
    );
}

#[test]
fn reply_body_decompressed() {
    let mut encoder = flate2::write::GzEncoder::new(Vec::new(), flate2::Compression::default());
    encoder.write_all(b"{\"items\":[]}").unwrap();
    let body = encoder.finish().unwrap();
    assert_eq!(registry_reply_text(Some(body)), Some("{\"items\":[]}".to_string()));
}

#[test]
fn failed_or_undecodable_reply_gives_nothing() {
    assert_eq!(registry_reply_text(None), None);
    assert_eq!(registry_reply_text(Some(b"{\"items\":[]}".to_vec())), None);
}
