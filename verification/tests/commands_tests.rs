use cobra::audit::audit;
use cobra::config::CobraConfig;
use cobra::error::CobraError;
use cobra::client::{IndexDocument, IndexReply, RegistryClient};
use cobra::metadata::{FetchAction, FetchEvent, FetchPhase, MetadataFetch};
use cobra::package::{Dependency, Package};
use cobra::package_manager::{InstalledPackage, LocalPackageManager};
use cobra::paths::{cache_store_path, get_cache_dir, get_config_dir, temp_sibling_path};
use cobra::registries::{CloudListing, CloudPackage, CloudReply, PackageCloudRegistry, PyPIRegistry};
use cobra::search::{
    check_query, display_limit, parse_search_results, search_url, shorten_description,
};

fn dep(name: &str, spec: &str) -> Dependency {
    Dependency { name: name.to_string(), version_spec: spec.to_string() }
}

fn installed(name: &str, version: &str) -> InstalledPackage {
    InstalledPackage {
        name: name.to_string(),
        version: version.to_string(),
        install_path: format!("/w/{}", name),
        installed_at: 0,
    }
}

fn pkg(name: &str, version: &str) -> Package {
    Package {
        name: name.to_string(),
        version: version.to_string(),
        dependencies: Vec::new(),
        download_url: "https://f/a.whl".to_string(),
        hash: None,
        size: None,
        description: None,
        author: None,
        homepage: None,
    }
}

fn reply(version: Option<&str>, url: Option<&str>) -> IndexReply {
    IndexReply::Document(IndexDocument {
        version: version.map(|v| v.to_string()),
        requires_dist: None,
        summary: None,
        author: None,
        home_page: None,
        project_url: None,
        urls: url.map(|u| {
            vec![cobra::client::ArtifactEntry {
                packagetype: Some("bdist_wheel".to_string()),
                url: Some(u.to_string()),
                size: None,
                digests: None,
            }]
        }),
    })
}

#[test]
fn audit_of_a_healthy_project_finds_nothing() {
    let report = audit(
        &vec![dep("a", "*"), dep("b", "==2.0"), dep("c", ">=1")],
        &vec![installed("a", "1.0"), installed("b", "2.0"), installed("c", "0.1")],
        &vec![true, true, true],
    );
    assert!(report.is_healthy());
    assert_eq!(report.issues(), Some(0));
}

#[test]
fn audit_names_each_kind_of_finding() {
    let report = audit(
        &vec![dep("a", "==1.0"), dep("gone", "*"), dep("b", "2.0"), dep("never", "*")],
        &vec![installed("b", "2.1"), installed("stray", "0.1"), installed("a", "1.0")],
        &vec![true, false, false],
    );
    assert_eq!(report.missing, vec!["gone".to_string(), "never".to_string()]);
    assert_eq!(report.extra, vec!["stray".to_string()]);
    assert_eq!(report.corrupted, vec!["stray".to_string(), "a".to_string()]);
    assert_eq!(report.conflicts.len(), 1);
    assert_eq!(report.conflicts[0].name, "b");
    assert_eq!(report.conflicts[0].required, "2.0");
    assert_eq!(report.conflicts[0].installed, "2.1");
    assert_eq!(report.issues(), Some(6));
    assert!(!report.is_healthy());
}

#[test]
fn audit_counts_an_entry_without_a_flag_as_in_place() {
    let report = audit(&vec![dep("a", "*")], &vec![installed("a", "1")], &Vec::new());
    assert!(report.is_healthy());
}

#[test]
fn manifest_names_the_requirement_to_update() {
    let mut config = CobraConfig::default();
    config.add_dependency("requests", ">=2.0");
    assert_eq!(config.requirement_of("requests").unwrap(), dep("requests", ">=2.0"));
    match config.requirement_of("numpy") {
        Err(CobraError::PackageNotFound(name)) => assert_eq!(name, "numpy"),
        other => panic!("unexpected {:?}", other),
    }
}

#[test]
fn uninstall_knows_the_installation_record() {
    let manager = LocalPackageManager::new("/w/.cobra_packages".to_string());
    assert_eq!(
        manager.dist_info_path("alpha", "1.0"),
        "/w/.cobra_packages/alpha-1.0.dist-info"
    );
}

#[test]
fn cache_lives_below_the_user_cache_directory() {
    assert_eq!(get_cache_dir(Some("/home/u/.cache")).unwrap(), "/home/u/.cache/cobra");
    assert_eq!(get_config_dir(Some("/home/u/.config")).unwrap(), "/home/u/.config/cobra");
    assert_eq!(cache_store_path("/home/u/.cache/cobra"), "/home/u/.cache/cobra/packages");
    match get_cache_dir(None) {
        Err(CobraError::Io(cause)) => assert_eq!(cause, "Cache directory not found"),
        other => panic!("unexpected {:?}", other),
    }
    assert_eq!(get_config_dir(None).unwrap_err().message(), "IO error: Config directory not found");
}

#[test]
fn files_are_written_beside_their_final_name() {
    assert_eq!(temp_sibling_path("/w/p/registry.json").unwrap(), "/w/p/.registry.json.tmp");
    assert_eq!(temp_sibling_path("registry.json").unwrap(), ".registry.json.tmp");
    assert_eq!(temp_sibling_path("/registry.json").unwrap(), "/.registry.json.tmp");
    match temp_sibling_path("/w/p/") {
        Err(CobraError::Io(cause)) => assert_eq!(cause, "Parent directory not found"),
        other => panic!("unexpected {:?}", other),
    }
    assert!(temp_sibling_path("").is_err());
}

#[test]
fn private_registry_addresses_and_answers() {
    let registry = PackageCloudRegistry::with_custom_url("http://cloud.test".to_string(), Some("api-token".to_string()));
    assert_eq!(registry.bearer_token().as_deref(), Some("api-token"));
    assert_eq!(
        registry.package_url("team/repo", "alpha"),
        "http://cloud.test/api/v1/repos/team/repo/package/python/alpha.json"
    );
    assert_eq!(registry.listing_url("team/repo"), "http://cloud.test/api/v1/repos/team/repo/packages.json");
    assert_eq!(PackageCloudRegistry::new().bearer_token(), None);
    assert_eq!(PackageCloudRegistry::with_token("t".to_string()).listing_url("r"), "https://packagecloud.io/api/v1/repos/r/packages.json");
    assert_eq!(PackageCloudRegistry::default().bearer_token(), None);
    let full = CloudReply::Document(CloudPackage {
        name: Some("Alpha".to_string()),
        version: Some("1.0".to_string()),
        download_url: Some("http://cloud.test/alpha.whl".to_string()),
    });
    let p = registry.get_package("alpha", &full).unwrap();
    assert_eq!((p.name.as_str(), p.version.as_str(), p.download_url.as_str()), ("Alpha", "1.0", "http://cloud.test/alpha.whl"));
    assert!(p.dependencies.is_empty() && p.hash.is_none() && p.size.is_none());
    let partial = CloudReply::Document(CloudPackage { name: Some("a".to_string()), version: None, download_url: Some("u".to_string()) });
    for bad in [partial, CloudReply::Refused] {
        match registry.get_package("alpha", &bad) {
            Err(CobraError::PackageNotFound(name)) => assert_eq!(name, "alpha"),
            other => panic!("unexpected {:?}", other),
        }
    }
    let names = CloudListing::Names(vec![Some("a".to_string()), None, Some("b".to_string())]);
    assert_eq!(registry.list_packages(&names).unwrap(), vec!["a".to_string(), "b".to_string()]);
    assert!(registry.list_packages(&CloudListing::Refused).unwrap().is_empty());
    assert!(registry.list_packages(&CloudListing::NoList).unwrap().is_empty());
}

#[test]
fn public_index_queries() {
    let index = PyPIRegistry::new();
    assert_eq!(index.search_url("http client"), "https://pypi.org/search/?q=http client");
    assert_eq!(index.latest_url("alpha"), "https://pypi.org/pypi/alpha/json");
    assert_eq!(PyPIRegistry::with_mirror("http://m".to_string()).latest_url("a"), "http://m/pypi/a/json");
    assert_eq!(PyPIRegistry::default().latest_url("a"), "https://pypi.org/pypi/a/json");
    assert!(index.search_packages(true).unwrap().is_empty());
    assert_eq!(index.search_packages(false).unwrap_err().message(), "Package not found: Search failed");
    assert_eq!(index.get_latest_version("alpha", &reply(Some("3.2"), None)).unwrap(), "3.2");
    for bad in [reply(None, Some("u")), IndexReply::Refused] {
        match index.get_latest_version("alpha", &bad) {
            Err(CobraError::PackageNotFound(name)) => assert_eq!(name, "alpha"),
            other => panic!("unexpected {:?}", other),
        }
    }
}

#[test]
fn search_matches_names_and_descriptions_without_case() {
    let names = |query: &str| -> Vec<String> {
        parse_search_results("<html></html>", query).unwrap().into_iter().map(|r| r.name).collect()
    };
    assert_eq!(names("NumPy"), vec!["numpy".to_string()]);
    assert_eq!(names("framework"), vec!["flask".to_string(), "django".to_string(), "pytest".to_string()]);
    assert_eq!(names("python").len(), 5);
    assert_eq!(names("").len(), 10);
    assert!(names("no such thing").is_empty());
    let found = parse_search_results("", "six").unwrap();
    assert_eq!(found.len(), 1);
    assert_eq!(found[0].version, "latest");
    assert_eq!(found[0].description.as_deref(), Some("Python 2 and 3 compatibility utilities"));
    assert_eq!(found[0].author.as_deref(), Some("Python Community"));
    assert_eq!(found[0].author_email, None);
}

#[test]
fn search_address_is_percent_encoded() {
    assert_eq!(search_url("http client"), "https://pypi.org/search/?q=http%20client&format=json");
    assert_eq!(search_url("a-b_c.d~e"), "https://pypi.org/search/?q=a-b_c.d~e&format=json");
    assert_eq!(search_url("ä&b"), "https://pypi.org/search/?q=%C3%A4%26b&format=json");
}

#[test]
fn search_display_rules() {
    assert!(check_query("numpy").is_ok());
    assert_eq!(check_query(" \t ").unwrap_err().message(), "Configuration error: Search query cannot be empty");
    assert_eq!(display_limit(None, 3), 3);
    assert_eq!(display_limit(None, 30), 10);
    assert_eq!(display_limit(Some(5), 30), 5);
    assert_eq!(display_limit(Some(50), 30), 30);
    let long = "x".repeat(81);
    assert_eq!(shorten_description(&long), format!("{}...", "x".repeat(77)));
    let fits = "y".repeat(80);
    assert_eq!(shorten_description(&fits), fits);
}

#[test]
fn metadata_comes_from_the_cache_when_it_is_there() {
    let client = RegistryClient::new();
    let mut fetch = MetadataFetch::new(&client, "alpha", "*", true);
    match fetch.step(FetchEvent::Start) {
        FetchAction::LookUp { key } => assert_eq!(key, "metadata:alpha:*"),
        other => panic!("unexpected {:?}", other),
    }
    match fetch.step(FetchEvent::Cached(pkg("alpha", "1.0"))) {
        FetchAction::Finish(Ok(p)) => assert_eq!(p.version, "1.0"),
        other => panic!("unexpected {:?}", other),
    }
    assert_eq!(fetch.phase(), FetchPhase::Done);
}

#[test]
fn metadata_from_the_index_is_written_back() {
    let client = RegistryClient::new();
    let mut fetch = MetadataFetch::new(&client, "alpha", "==1.0", true);
    fetch.step(FetchEvent::Start);
    match fetch.step(FetchEvent::NotCached) {
        FetchAction::Ask { url } => assert_eq!(url, "https://pypi.org/pypi/alpha/1.0/json"),
        other => panic!("unexpected {:?}", other),
    }
    match fetch.step(FetchEvent::Answered(reply(Some("1.0"), Some("https://f/alpha.whl")))) {
        FetchAction::Store { key } => assert_eq!(key, "metadata:alpha:==1.0"),
        other => panic!("unexpected {:?}", other),
    }
    assert_eq!(fetch.package().map(|p| p.download_url.as_str()), Some("https://f/alpha.whl"));
    match fetch.step(FetchEvent::Completed) {
        FetchAction::Finish(Ok(p)) => assert_eq!((p.name.as_str(), p.version.as_str()), ("alpha", "1.0")),
        other => panic!("unexpected {:?}", other),
    }
}

#[test]
fn metadata_without_cache_asks_the_index_at_once() {
    let client = RegistryClient::new();
    let mut fetch = MetadataFetch::new(&client, "alpha", "", false);
    match fetch.step(FetchEvent::Start) {
        FetchAction::Ask { url } => assert_eq!(url, "https://pypi.org/pypi/alpha/json"),
        other => panic!("unexpected {:?}", other),
    }
    assert!(matches!(
        fetch.step(FetchEvent::Answered(reply(Some("1.0"), Some("u")))),
        FetchAction::Finish(Ok(_))
    ));
}

#[test]
fn metadata_failures_end_the_request() {
    let client = RegistryClient::new();
    let mut fetch = MetadataFetch::new(&client, "ghost", "*", false);
    fetch.step(FetchEvent::Start);
    match fetch.step(FetchEvent::Answered(IndexReply::Refused)) {
        FetchAction::Finish(Err(CobraError::PackageNotFound(name))) => assert_eq!(name, "ghost"),
        other => panic!("unexpected {:?}", other),
    }
    assert_eq!(fetch.phase(), FetchPhase::Failed);
    let mut fetch = MetadataFetch::new(&client, "alpha", "*", false);
    fetch.step(FetchEvent::Start);
    match fetch.step(FetchEvent::Failed(CobraError::Network("timed out".to_string()))) {
        FetchAction::Finish(Err(e)) => assert_eq!(e.message(), "Network error: timed out"),
        other => panic!("unexpected {:?}", other),
    }
    let mut fetch = MetadataFetch::new(&client, "alpha", "*", true);
    match fetch.step(FetchEvent::Completed) {
        FetchAction::Finish(Err(CobraError::ResolutionFailed(_))) => {}
        other => panic!("unexpected {:?}", other),
    }
}

#[test]
fn cache_that_cannot_store_does_not_fail_the_request() {
    let client = RegistryClient::new();
    let mut fetch = MetadataFetch::new(&client, "alpha", "*", true);
    fetch.step(FetchEvent::Start);
    fetch.step(FetchEvent::NotCached);
    assert!(matches!(
        fetch.step(FetchEvent::Answered(reply(Some("1.0"), Some("u")))),
        FetchAction::Store { .. }
    ));
    match fetch.step(FetchEvent::Failed(CobraError::Cache("disk tier is full".to_string()))) {
        FetchAction::Finish(Ok(p)) => assert_eq!(p.version, "1.0"),
        other => panic!("unexpected {:?}", other),
    }
    assert_eq!(fetch.phase(), FetchPhase::Done);
}
