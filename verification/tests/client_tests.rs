use cobra::client::{
    status_is_success, ArtifactEntry, Digests, IndexDocument, IndexReply, RegistryClient,
};
use cobra::error::CobraError;
use cobra::package::Dependency;

fn entry(kind: &str, url: Option<&str>, size: Option<u64>, sha256: Option<&str>) -> ArtifactEntry {
    ArtifactEntry {
        packagetype: Some(kind.to_string()),
        url: url.map(|u| u.to_string()),
        size,
        digests: Some(Digests { sha256: sha256.map(|s| s.to_string()) }),
    }
}

fn document(version: Option<&str>, urls: Option<Vec<ArtifactEntry>>) -> IndexDocument {
    IndexDocument {
        version: version.map(|v| v.to_string()),
        requires_dist: None,
        summary: None,
        author: None,
        home_page: None,
        project_url: None,
        urls,
    }
}

fn dep(name: &str, spec: &str) -> Dependency {
    Dependency { name: name.to_string(), version_spec: spec.to_string() }
}

#[test]
fn addresses_for_latest_and_pinned_versions() {
    let client = RegistryClient::new();
    assert_eq!(client.package_url("alpha", "*"), "https://pypi.org/pypi/alpha/json");
    assert_eq!(client.package_url("alpha", ""), "https://pypi.org/pypi/alpha/json");
    assert_eq!(client.package_url("alpha", "==1.0"), "https://pypi.org/pypi/alpha/1.0/json");
    assert_eq!(client.package_url("alpha", ">= 2.1"), "https://pypi.org/pypi/alpha/2.1/json");
    assert_eq!(client.package_url("alpha", "^3"), "https://pypi.org/pypi/alpha/3/json");
    let mirror = RegistryClient::with_base_url("http://mirror.test".to_string());
    assert_eq!(mirror.package_url("beta", "~=0.4"), "http://mirror.test/pypi/beta/0.4/json");
    assert_eq!(RegistryClient::default().package_url("c", "*"), "https://pypi.org/pypi/c/json");
}

#[test]
fn wheel_is_preferred_and_the_first_one_wins() {
    let doc = document(
        Some("1.0"),
        Some(vec![
            entry("sdist", Some("https://f/alpha-1.0.tar.gz"), Some(10), Some("aa")),
            entry("bdist_wheel", Some("https://f/alpha-1.0-a.whl"), Some(20), Some("bb")),
            entry("bdist_wheel", Some("https://f/alpha-1.0-b.whl"), Some(30), Some("cc")),
        ]),
    );
    let p = RegistryClient::new().get_package_info("alpha", &IndexReply::Document(doc)).unwrap();
    assert_eq!(p.name, "alpha");
    assert_eq!(p.version, "1.0");
    assert_eq!(p.download_url, "https://f/alpha-1.0-a.whl");
    assert_eq!(p.size, Some(20));
    assert_eq!(p.hash.as_deref(), Some("bb"));
    assert!(p.dependencies.is_empty());
}

#[test]
fn source_archive_is_the_fallback() {
    let doc = document(
        Some("2.0"),
        Some(vec![
            entry("bdist_egg", Some("https://f/x.egg"), Some(1), None),
            entry("sdist", Some("https://f/x-2.0.tar.gz"), None, Some("dd")),
        ]),
    );
    let p = RegistryClient::new().get_package_info("x", &IndexReply::Document(doc)).unwrap();
    assert_eq!(p.download_url, "https://f/x-2.0.tar.gz");
    assert_eq!(p.size, None);
    assert_eq!(p.hash.as_deref(), Some("dd"));
}

#[test]
fn wheel_without_address_falls_back_and_leaves_nothing_behind() {
    let mut source = entry("sdist", Some("https://f/x.tar.gz"), Some(7), None);
    source.digests = None;
    let doc = document(
        Some("2.0"),
        Some(vec![entry("bdist_wheel", None, Some(5), Some("ww")), source]),
    );
    let p = RegistryClient::new().get_package_info("x", &IndexReply::Document(doc)).unwrap();
    assert_eq!(p.download_url, "https://f/x.tar.gz");
    assert_eq!(p.size, Some(7));
    assert_eq!(p.hash, None);
}

#[test]
fn requirement_strings_become_dependencies() {
    let mut doc = document(Some("1.0"), Some(vec![entry("bdist_wheel", Some("u"), None, None)]));
    doc.requires_dist = Some(vec![
        Some("req (>=1.0)".to_string()),
        None,
        Some("req[extra]; python>'3'".to_string()),
        Some("req==2.5".to_string()),
    ]);
    doc.summary = Some("A package".to_string());
    doc.author = Some("Someone".to_string());
    doc.project_url = Some("https://project.test".to_string());
    let p = RegistryClient::new().get_package_info("alpha", &IndexReply::Document(doc)).unwrap();
    assert_eq!(p.dependencies, vec![dep("req", ">=1.0"), dep("req", "*"), dep("req", "==2.5")]);
    assert_eq!(p.description.as_deref(), Some("A package"));
    assert_eq!(p.author.as_deref(), Some("Someone"));
    assert_eq!(p.homepage.as_deref(), Some("https://project.test"));
}

#[test]
fn home_page_goes_before_project_url() {
    let mut doc = document(Some("1.0"), Some(vec![entry("sdist", Some("u"), None, None)]));
    doc.home_page = Some("https://home.test".to_string());
    doc.project_url = Some("https://project.test".to_string());
    let p = RegistryClient::new().get_package_info("alpha", &IndexReply::Document(doc)).unwrap();
    assert_eq!(p.homepage.as_deref(), Some("https://home.test"));
}

#[test]
fn refused_request_means_package_not_found() {
    match RegistryClient::new().get_package_info("ghost", &IndexReply::Refused) {
        Err(CobraError::PackageNotFound(cause)) => assert_eq!(cause, "ghost"),
        other => panic!("expected a missing package, got {:?}", other),
    }
}

#[test]
fn document_without_version_is_invalid() {
    let doc = document(None, Some(vec![entry("sdist", Some("u"), None, None)]));
    match RegistryClient::new().get_package_info("alpha", &IndexReply::Document(doc)) {
        Err(CobraError::PackageNotFound(cause)) => {
            assert_eq!(cause, "Invalid package data for alpha")
        }
        other => panic!("expected a missing package, got {:?}", other),
    }
}

#[test]
fn document_without_address_is_refused() {
    for urls in [None, Some(Vec::new()), Some(vec![entry("bdist_wheel", Some(""), None, None)])] {
        match RegistryClient::new().get_package_info("alpha", &IndexReply::Document(document(Some("1.0"), urls))) {
            Err(e) => assert_eq!(e.message(), "Package not found: No download URL found for alpha"),
            Ok(p) => panic!("expected a missing package, got {:?}", p),
        }
    }
}

#[test]
fn download_status_is_judged() {
    let client = RegistryClient::new();
    assert!(client.download_package(200, "200 OK").is_ok());
    assert!(client.download_package(299, "299").is_ok());
    match client.download_package(404, "404 Not Found") {
        Err(CobraError::InstallationFailed(cause)) => {
            assert_eq!(cause, "Failed to download: 404 Not Found")
        }
        other => panic!("expected a failed installation, got {:?}", other),
    }
    assert!(client.download_package(199, "199").is_err());
    assert!(client.download_package(300, "300").is_err());
    assert!(status_is_success(204));
    assert!(!status_is_success(500));
}
