use cobra::archive::extract_package;
use cobra::cache::{Lookup, MultiLevelCache};
use cobra::client::{ArtifactEntry, Digests, IndexDocument, IndexReply, RegistryClient};
use cobra::config::CobraConfig;
use cobra::error::CobraError;
use cobra::hash::compute_sha256;
use cobra::installer::{
    InstallSummary, InstallTask, Installer, TaskAction, TaskEvent, TaskOutcome,
};
use cobra::metadata::{FetchAction, FetchEvent, MetadataFetch};
use cobra::package::{Dependency, Package};
use cobra::package_manager::{InstallCheck, LocalPackageManager, PackageRegistry};
use cobra::resolver::DependencyResolver;
use std::collections::{BTreeMap, HashMap};
use std::io::{Cursor, Write};
use zip::write::FileOptions;
use zip::ZipWriter;

const ROOT: &str = "/project/.cobra_packages";

fn wheel(name: &str) -> Vec<u8> {
    let mut writer = ZipWriter::new(Cursor::new(Vec::new()));
    writer.add_directory(format!("{}/", name), FileOptions::default()).unwrap();
    writer.start_file(format!("{}/__init__.py", name), FileOptions::default()).unwrap();
    writer.write_all(format!("NAME = '{}'\n", name).as_bytes()).unwrap();
    writer.finish().unwrap().into_inner()
}

/// One release that the index of a test offers.
struct Release {
    name: &'static str,
    version: &'static str,
    requires: Vec<&'static str>,
}

/// The world around the library: an index, a disk tier, a file system and
/// a clock, all in memory, with counters for what was asked of them.
struct World {
    releases: Vec<Release>,
    client: RegistryClient,
    manager: LocalPackageManager,
    cache: MultiLevelCache,
    disk_tier: HashMap<String, Vec<u8>>,
    files: BTreeMap<String, Vec<u8>>,
    registry: PackageRegistry,
    clock: i64,
    metadata_requests: usize,
    downloads: usize,
    extractions: usize,
    extractions_of_run: usize,
}

impl World {
    fn new(releases: Vec<Release>) -> World {
        World {
            releases,
            client: RegistryClient::with_base_url("https://index.test".to_string()),
            manager: LocalPackageManager::new(ROOT.to_string()),
            cache: MultiLevelCache::new(),
            disk_tier: HashMap::new(),
            files: BTreeMap::new(),
            registry: PackageRegistry::new(),
            clock: 1_700_000_000,
            metadata_requests: 0,
            downloads: 0,
            extractions: 0,
            extractions_of_run: 0,
        }
    }

    fn artifact_url(release: &Release) -> String {
        format!("https://files.test/{}-{}.whl", release.name, release.version)
    }

    /// The answer of the index to a request for an address.
    fn ask(&mut self, url: &str) -> IndexReply {
        self.metadata_requests += 1;
        let found = self.releases.iter().find(|r| {
            url == format!("https://index.test/pypi/{}/json", r.name)
                || url == format!("https://index.test/pypi/{}/{}/json", r.name, r.version)
        });
        match found {
            None => IndexReply::Refused,
            Some(release) => IndexReply::Document(IndexDocument {
                version: Some(release.version.to_string()),
                requires_dist: Some(release.requires.iter().map(|r| Some(r.to_string())).collect()),
                summary: None,
                author: None,
                home_page: None,
                project_url: None,
                urls: Some(vec![ArtifactEntry {
                    packagetype: Some("bdist_wheel".to_string()),
                    url: Some(World::artifact_url(release)),
                    size: Some(wheel(release.name).len() as u64),
                    digests: Some(Digests { sha256: Some(compute_sha256(&wheel(release.name))) }),
                }]),
            }),
        }
    }

    fn cache_get(&mut self, key: &str) -> Option<Vec<u8>> {
        assert!(self.cache.can_count());
        match self.cache.get(key) {
            Lookup::Miss => None,
            Lookup::Hit(data) => Some(data),
            Lookup::AskDisk => {
                let found = self.disk_tier.get(key).cloned();
                self.cache.complete_get(key, found)
            }
        }
    }

    fn cache_put(&mut self, key: String, data: Vec<u8>) {
        self.cache.put(key.clone(), data.clone());
        self.disk_tier.insert(key, data);
    }

    /// A document of the cache is the package's identity; the rest is
    /// looked up again.
    fn encode(package: &Package) -> Vec<u8> {
        let deps: Vec<String> =
            package.dependencies.iter().map(|d| format!("{} {}", d.name, d.version_spec)).collect();
        format!(
            "{}\n{}\n{}\n{}\n{}",
            package.name,
            package.version,
            package.download_url,
            package.hash.clone().unwrap_or_default(),
            deps.join("\n")
        )
        .into_bytes()
    }

    fn decode(data: &[u8]) -> Option<Package> {
        let text = String::from_utf8(data.to_vec()).ok()?;
        let mut lines = text.split('\n');
        let name = lines.next()?.to_string();
        let version = lines.next()?.to_string();
        let download_url = lines.next()?.to_string();
        let hash = lines.next()?.to_string();
        let dependencies = lines
            .filter(|l| !l.is_empty())
            .map(|l| {
                let (n, s) = l.split_once(' ').unwrap();
                Dependency { name: n.to_string(), version_spec: s.to_string() }
            })
            .collect();
        Some(Package {
            name,
            version,
            dependencies,
            download_url,
            hash: if hash.is_empty() { None } else { Some(hash) },
            size: None,
            description: None,
            author: None,
            homepage: None,
        })
    }

    fn metadata(&mut self, dep: &Dependency) -> Result<Package, CobraError> {
        let client = RegistryClient::with_base_url("https://index.test".to_string());
        let mut fetch = MetadataFetch::new(&client, &dep.name, &dep.version_spec, true);
        let mut action = fetch.step(FetchEvent::Start);
        loop {
            let event = match action {
                FetchAction::Finish(result) => return result,
                FetchAction::LookUp { key } => {
                    match self.cache_get(&key).and_then(|d| World::decode(&d)) {
                        Some(package) => FetchEvent::Cached(package),
                        None => FetchEvent::NotCached,
                    }
                }
                FetchAction::Ask { url } => FetchEvent::Answered(self.ask(&url)),
                FetchAction::Store { key } => {
                    let data = World::encode(fetch.package().expect("a described package"));
                    self.cache_put(key, data);
                    FetchEvent::Completed
                }
            };
            action = fetch.step(event);
        }
    }

    fn resolve(&mut self, direct: &[Dependency]) -> Result<Vec<Package>, CobraError> {
        let mut seeds = Vec::new();
        for dep in direct {
            seeds.push(self.metadata(dep)?);
        }
        let mut resolver = DependencyResolver::new(seeds);
        while let Some(node) = resolver.next_package() {
            let wanted = resolver.package(node).dependencies.clone();
            let found: Result<Vec<Package>, CobraError> =
                wanted.iter().map(|dep| self.metadata(dep)).collect();
            match found {
                Ok(found) => resolver.add_dependencies(found),
                Err(e) => resolver.fail(e),
            }
        }
        resolver.resolve()
    }

    fn directory_exists(&self, path: &str) -> bool {
        let below = format!("{}/", path);
        self.files.keys().any(|file| file.starts_with(&below))
    }

    fn is_installed(&mut self, name: &str, version: &str) -> bool {
        let exists = match self.registry.install_path_of(name) {
            Some(path) => self.directory_exists(&path),
            None => false,
        };
        self.manager.is_package_installed(&mut self.registry, name, version, exists)
            == InstallCheck::Installed
    }

    fn run_task(&mut self, mut task: InstallTask) -> Result<(), CobraError> {
        let mut temp: Option<(String, Vec<u8>)> = None;
        let mut action = task.step(TaskEvent::Start);
        loop {
            let event = match action {
                TaskAction::Finish(result) => return result,
                TaskAction::LookUp { key } => match self.cache_get(&key) {
                    Some(data) => TaskEvent::Cached(data),
                    None => TaskEvent::NotCached,
                },
                TaskAction::Download { url, .. } => {
                    self.downloads += 1;
                    match self.releases.iter().find(|r| World::artifact_url(r) == url) {
                        Some(release) => TaskEvent::Downloaded(wheel(release.name)),
                        None => TaskEvent::Failed(CobraError::InstallationFailed(
                            "Failed to download: 404 Not Found".to_string(),
                        )),
                    }
                }
                TaskAction::Store { key } => {
                    self.cache_put(key, task.artifact().clone());
                    TaskEvent::Completed
                }
                TaskAction::WriteTemp { file_name } => {
                    temp = Some((file_name, task.artifact().clone()));
                    TaskEvent::Completed
                }
                TaskAction::Extract => {
                    self.extractions += 1;
                    self.extractions_of_run += 1;
                    let (_, bytes) = temp.clone().expect("the artifact was written");
                    match extract_package(bytes, ROOT) {
                        Ok(writes) => {
                            for write in writes {
                                self.files.insert(write.path, write.data);
                            }
                            TaskEvent::Completed
                        }
                        Err(e) => TaskEvent::Failed(e),
                    }
                }
                TaskAction::RemoveTemp => {
                    temp = None;
                    TaskEvent::Completed
                }
                TaskAction::Register => {
                    self.clock += 1;
                    self.manager.register_package(&mut self.registry, task.package(), self.clock);
                    TaskEvent::Completed
                }
            };
            action = task.step(event);
        }
    }

    fn install(&mut self, plan: Vec<Package>) -> (InstallSummary, Result<(), CobraError>) {
        let installed: Vec<bool> =
            plan.iter().map(|p| (p.name.clone(), p.version.clone())).collect::<Vec<_>>()
                .into_iter().map(|(n, v)| self.is_installed(&n, &v)).collect();
        let installer = Installer::new(true);
        self.extractions_of_run = 0;
        let run = installer.install_parallel(plan, &installed);
        let summary = run.summary;
        let outcomes =
            run.tasks.into_iter().map(|task| TaskOutcome::Finished(self.run_task(task))).collect();
        let end = installer.finish(outcomes);
        let published = end.publish;
        let report = installer.conclude(end, Ok(()));
        assert_eq!(published, report.result.is_ok() && self.extractions_of_run > 0);
        (summary, report.result)
    }

    fn install_manifest(&mut self, manifest: &CobraConfig) -> (Vec<String>, InstallSummary) {
        let plan = self.resolve(&manifest.get_dependencies_list()).expect("a plan");
        let names = plan.iter().map(|p| format!("{}@{}", p.name, p.version)).collect();
        let (summary, result) = self.install(plan);
        result.expect("an installation that goes well");
        (names, summary)
    }
}

fn alpha_world() -> (World, CobraConfig) {
    let world = World::new(vec![Release { name: "alpha", version: "1.0", requires: vec![] }]);
    let mut manifest = CobraConfig::default();
    manifest.add_dependency("alpha", "*");
    (world, manifest)
}

#[test]
fn clean_install() {
    let (mut world, manifest) = alpha_world();
    let (plan, summary) = world.install_manifest(&manifest);
    assert_eq!(plan, vec!["alpha@1.0".to_string()]);
    assert_eq!(summary, InstallSummary::All { pending: 1 });
    assert_eq!(world.downloads, 1);
    assert_eq!(world.extractions, 1);
    assert!(world.directory_exists("/project/.cobra_packages/alpha"));
    assert_eq!(
        world.files.get("/project/.cobra_packages/alpha/__init__.py").map(|d| d.as_slice()),
        Some(&b"NAME = 'alpha'\n"[..])
    );
    assert_eq!(world.registry.version_of("alpha").as_deref(), Some("1.0"));
    assert_eq!(
        world.registry.install_path_of("alpha").as_deref(),
        Some("/project/.cobra_packages/alpha")
    );
}

#[test]
fn warm_cache_serves_metadata_and_artifact() {
    let (mut world, manifest) = alpha_world();
    world.install_manifest(&manifest);
    assert_eq!((world.metadata_requests, world.downloads), (1, 1));
    world.files.clear();
    world.registry = PackageRegistry::new();
    let (plan, summary) = world.install_manifest(&manifest);
    assert_eq!(plan, vec!["alpha@1.0".to_string()]);
    assert_eq!(summary, InstallSummary::All { pending: 1 });
    assert_eq!(world.metadata_requests, 1);
    assert_eq!(world.downloads, 1);
    assert_eq!(world.extractions, 2);
    assert!(world.directory_exists("/project/.cobra_packages/alpha"));
}

#[test]
fn warm_cache_survives_a_new_process() {
    let (mut world, manifest) = alpha_world();
    world.install_manifest(&manifest);
    world.files.clear();
    world.registry = PackageRegistry::new();
    world.cache = MultiLevelCache::new();
    let keys: Vec<String> = world.disk_tier.keys().cloned().collect();
    for key in &keys {
        world.cache.remember(key);
    }
    world.install_manifest(&manifest);
    assert_eq!((world.metadata_requests, world.downloads), (1, 1));
}

#[test]
fn installed_packages_are_skipped_on_the_second_run() {
    let (mut world, manifest) = alpha_world();
    world.install_manifest(&manifest);
    let (_, summary) = world.install_manifest(&manifest);
    assert_eq!(summary, InstallSummary::AllInstalled { skipped: 1 });
    assert_eq!(world.downloads, 1);
    assert_eq!(world.extractions, 1);
}

#[test]
fn deleted_directory_heals_the_registry() {
    let (mut world, manifest) = alpha_world();
    world.install_manifest(&manifest);
    world.files.retain(|path, _| !path.starts_with("/project/.cobra_packages/alpha/"));
    assert!(!world.is_installed("alpha", "*"));
    assert_eq!(world.registry.version_of("alpha"), None);
    assert!(world.manager.list_installed(&world.registry).is_empty());
}

#[test]
fn diamond_is_installed_dependencies_first() {
    let mut world = World::new(vec![
        Release { name: "a", version: "1.0", requires: vec!["c (==1.0)"] },
        Release { name: "b", version: "1.0", requires: vec!["c==1.0"] },
        Release { name: "c", version: "1.0", requires: vec![] },
    ]);
    let mut manifest = CobraConfig::default();
    manifest.add_dependency("a", "*");
    manifest.add_dependency("b", "*");
    let (plan, _) = world.install_manifest(&manifest);
    assert_eq!(plan.iter().filter(|p| p.as_str() == "c@1.0").count(), 1);
    let at = |name: &str| plan.iter().position(|p| p == name).unwrap();
    assert!(at("c@1.0") < at("a@1.0"));
    assert!(at("c@1.0") < at("b@1.0"));
    assert_eq!(world.downloads, 3);
    let order: Vec<String> =
        world.manager.list_installed(&world.registry).into_iter().map(|p| p.name).collect();
    assert_eq!(order.len(), 3);
    assert_eq!(order[0], "c");
}

#[test]
fn cycle_in_the_index_fails_the_resolution() {
    let mut world = World::new(vec![
        Release { name: "x", version: "1", requires: vec!["y"] },
        Release { name: "y", version: "1", requires: vec!["x"] },
    ]);
    let direct = vec![Dependency { name: "x".to_string(), version_spec: "*".to_string() }];
    assert!(matches!(world.resolve(&direct), Err(CobraError::ResolutionFailed(_))));
}

#[test]
fn unknown_package_aborts_the_resolution() {
    let mut world = World::new(vec![Release { name: "a", version: "1", requires: vec!["ghost"] }]);
    let direct = vec![Dependency { name: "a".to_string(), version_spec: "*".to_string() }];
    match world.resolve(&direct) {
        Err(CobraError::PackageNotFound(name)) => assert_eq!(name, "ghost"),
        other => panic!("unexpected {:?}", other.map(|p| p.len())),
    }
}

#[test]
fn installation_times_do_not_go_back() {
    let (mut world, manifest) = alpha_world();
    world.install_manifest(&manifest);
    let first = world.manager.list_installed(&world.registry)[0].installed_at;
    world.files.clear();
    world.install_manifest(&manifest);
    let second = world.manager.list_installed(&world.registry)[0].installed_at;
    assert!(second >= first);
}
