use plumai::registry::build_catalog;
use plumai::registry::check_updates;
use plumai::registry::github_raw_url;
use plumai::registry::official_registry;
use plumai::registry::InstalledPackageInfo;
use plumai::registry::PackageCategory;
use plumai::registry::RegistryIndex;
use plumai::registry::RegistryPackageEntry;

fn entry(id: &str, version: &str) -> RegistryPackageEntry {
    RegistryPackageEntry {
        id: id.to_string(),
        version: version.to_string(),
        author: "ada".to_string(),
        category: PackageCategory::Content,
        min_app_version: None,
        metadata: Vec::new(),
        download_url: format!("https://example.com/{}.plumapkg", id),
        size_bytes: 42,
        checksum_sha256: "0123abcd0123abcd".to_string(),
        tags: vec!["fantasy".to_string()],
    }
}

fn index(registry_id: &str, packages: Vec<RegistryPackageEntry>) -> RegistryIndex {
    RegistryIndex {
        schema_version: "1".to_string(),
        registry_id: registry_id.to_string(),
        name: registry_id.to_string(),
        updated_at: None,
        packages,
    }
}

fn installed(id: &str, version: &str) -> InstalledPackageInfo {
    InstalledPackageInfo {
        id: id.to_string(),
        version: version.to_string(),
        author: "ada".to_string(),
        category: "content".to_string(),
        registry_id: "main".to_string(),
        metadata: "{}".to_string(),
        checksum: String::new(),
        size_bytes: 42,
        install_path: format!("packages/{}", id),
        installed_at: None,
        updated_at: None,
    }
}

#[test]
fn test_github_raw_url() {
    let url = github_raw_url("https://github.com/Debaq/PlumAi-Packages", "registry.json").unwrap();
    assert_eq!(
        url,
        "https://raw.githubusercontent.com/Debaq/PlumAi-Packages/main/registry.json"
    );
}

#[test]
fn test_github_raw_url_with_trailing_slash() {
    let url = github_raw_url(
        "https://github.com/Debaq/PlumAi-Packages/",
        "packages/test.plumapkg",
    )
    .unwrap();
    assert_eq!(
        url,
        "https://raw.githubusercontent.com/Debaq/PlumAi-Packages/main/packages/test.plumapkg"
    );
}

#[test]
fn test_github_raw_url_with_git_suffix() {
    let url = github_raw_url("https://github.com/Debaq/PlumAi-Packages.git", "registry.json")
        .unwrap();
    assert_eq!(
        url,
        "https://raw.githubusercontent.com/Debaq/PlumAi-Packages/main/registry.json"
    );
}

#[test]
fn test_github_raw_url_rejects_bare_word() {
    assert!(github_raw_url("nonsense", "registry.json").is_err());
}

#[test]
fn test_github_raw_url_leading_slash_path() {
    let url = github_raw_url("https://github.com/a/b", "/x/y.json").unwrap();
    assert_eq!(url, "https://raw.githubusercontent.com/a/b/main/x/y.json");
}

#[test]
fn test_official_registry() {
    let source = official_registry();
    assert_eq!(source.id, "plumai-official");
    assert_eq!(source.url, "https://github.com/studio33-lab/plumai-store");
    assert_eq!(source.name, "PlumAi Official Packages");
    assert!(source.enabled);
    assert!(source.is_official);
}

#[test]
fn test_package_category_label() {
    assert_eq!(PackageCategory::Content.label(), "content");
    assert_eq!(PackageCategory::Identity.label(), "identity");
    assert_eq!(PackageCategory::Hybrid.label(), "hybrid");
}

#[test]
fn test_build_catalog_merges_install_state() {
    let registries = vec![(
        "main".to_string(),
        index("main", vec![entry("pkg-a", "2.0.0"), entry("pkg-b", "1.0.0")]),
    )];
    let local = vec![installed("pkg-a", "1.0.0")];
    let catalog = build_catalog(&registries, &local);
    assert_eq!(catalog.len(), 2);
    let a = catalog.iter().find(|c| c.id == "pkg-a").unwrap();
    assert!(a.is_installed);
    assert_eq!(a.installed_version.as_deref(), Some("1.0.0"));
    assert!(a.has_update);
    assert_eq!(a.registry_id, "main");
    let b = catalog.iter().find(|c| c.id == "pkg-b").unwrap();
    assert!(!b.is_installed);
    assert!(b.installed_version.is_none());
    assert!(!b.has_update);
}

#[test]
fn test_build_catalog_keeps_first_listing() {
    let registries = vec![
        ("first".to_string(), index("first", vec![entry("pkg-a", "2.0.0")])),
        ("second".to_string(), index("second", vec![entry("pkg-a", "9.9.9")])),
    ];
    let catalog = build_catalog(&registries, &Vec::new());
    assert_eq!(catalog.len(), 1);
    assert_eq!(catalog[0].version, "2.0.0");
    assert_eq!(catalog[0].registry_id, "first");
}

#[test]
fn test_check_updates_reports_version_change() {
    let registries = vec![(
        "main".to_string(),
        index("main", vec![entry("pkg-a", "2.0.0"), entry("pkg-b", "1.0.0")]),
    )];
    let local = vec![installed("pkg-a", "1.0.0"), installed("pkg-b", "1.0.0")];
    let updates = check_updates(&registries, &local);
    assert_eq!(updates.len(), 1);
    assert_eq!(updates[0].id, "pkg-a");
    assert_eq!(updates[0].current_version, "1.0.0");
    assert_eq!(updates[0].available_version, "2.0.0");
    assert_eq!(updates[0].registry_id, "main");
}

#[test]
fn test_check_updates_first_registry_decides() {
    let registries = vec![
        ("first".to_string(), index("first", vec![entry("pkg-a", "1.0.0")])),
        ("second".to_string(), index("second", vec![entry("pkg-a", "3.0.0")])),
    ];
    let local = vec![installed("pkg-a", "1.0.0")];
    let updates = check_updates(&registries, &local);
    assert_eq!(updates.len(), 0);
}
