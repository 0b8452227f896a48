use cobra::error::CobraError;
use cobra::installer::{
    artifact_cache_key, metadata_cache_key, temp_file_name, DownloadBuffer, InstallSummary,
    InstallTask, Installer, TaskAction, TaskEvent, TaskOutcome, TaskPhase,
};
use cobra::constants::MAX_CONCURRENT_INSTALLS;
use cobra::package::Package;
use cobra::package_manager::{InstallCheck, LocalPackageManager, PackageRegistry};

fn pkg(name: &str, version: &str) -> Package {
    Package {
        name: name.to_string(),
        version: version.to_string(),
        dependencies: Vec::new(),
        download_url: format!("https://f/{}-{}.whl", name, version),
        hash: None,
        size: Some(1234),
        description: None,
        author: None,
        homepage: None,
    }
}

fn io_error() -> CobraError {
    CobraError::Io("disk full".to_string())
}

#[test]
fn keys_and_names() {
    assert_eq!(artifact_cache_key("alpha", "1.0"), "artifact:alpha:1.0");
    assert_eq!(metadata_cache_key("alpha", ">=1.0"), "metadata:alpha:>=1.0");
    assert_eq!(metadata_cache_key("alpha", ""), "metadata:alpha:");
    assert_eq!(temp_file_name("alpha"), "alpha.whl");
    assert_eq!(MAX_CONCURRENT_INSTALLS, 16);
}

#[test]
fn empty_plan_is_a_no_op() {
    let run = Installer::new(true).install_parallel(Vec::new(), &Vec::new());
    assert!(run.tasks.is_empty());
    assert_eq!(run.summary, InstallSummary::Nothing);
    assert_eq!(run.width, 0);
    let end = Installer::new(true).finish(Vec::new());
    assert!(end.result.is_ok());
    assert!(!end.publish);
}

#[test]
fn installed_packages_are_skipped() {
    let plan = vec![pkg("a", "1"), pkg("b", "1"), pkg("c", "1")];
    let run = Installer::new(true).install_parallel(plan, &vec![true, false, true]);
    assert_eq!(run.tasks.len(), 1);
    assert_eq!(run.tasks[0].package().name, "b");
    assert_eq!(run.tasks[0].phase(), TaskPhase::Created);
    assert_eq!(run.summary, InstallSummary::Partly { pending: 1, skipped: 2 });
    assert_eq!(run.width, 1);
}

#[test]
fn all_installed_is_said_and_nothing_is_done() {
    let plan = vec![pkg("a", "1"), pkg("b", "1")];
    let run = Installer::new(true).install_parallel(plan, &vec![true, true]);
    assert!(run.tasks.is_empty());
    assert_eq!(run.summary, InstallSummary::AllInstalled { skipped: 2 });
}

#[test]
fn width_is_bounded() {
    let plan: Vec<Package> = (0..40).map(|i| pkg(&format!("pkg{}", i), "1")).collect();
    let run = Installer::new(false).install_parallel(plan, &vec![false; 40]);
    assert_eq!(run.tasks.len(), 40);
    assert_eq!(run.width, 16);
    assert_eq!(run.summary, InstallSummary::All { pending: 40 });
    let names: Vec<&str> = run.tasks.iter().take(3).map(|t| t.package().name.as_str()).collect();
    assert_eq!(names, vec!["pkg0", "pkg1", "pkg2"]);
}

#[test]
fn package_without_a_flag_counts_as_not_installed() {
    let run = Installer::new(true).install_parallel(vec![pkg("a", "1"), pkg("b", "1")], &vec![true]);
    assert_eq!(run.tasks.len(), 1);
    assert_eq!(run.tasks[0].package().name, "b");
}

#[test]
fn task_downloads_what_the_cache_lacks() {
    let mut task = InstallTask::new(pkg("alpha", "1.0"), true);
    match task.step(TaskEvent::Start) {
        TaskAction::LookUp { key } => assert_eq!(key, "artifact:alpha:1.0"),
        other => panic!("unexpected {:?}", other),
    }
    match task.step(TaskEvent::NotCached) {
        TaskAction::Download { url, expected_size } => {
            assert_eq!(url, "https://f/alpha-1.0.whl");
            assert_eq!(expected_size, 1234);
        }
        other => panic!("unexpected {:?}", other),
    }
    match task.step(TaskEvent::Downloaded(b"zip".to_vec())) {
        TaskAction::Store { key } => assert_eq!(key, "artifact:alpha:1.0"),
        other => panic!("unexpected {:?}", other),
    }
    assert_eq!(task.artifact(), &b"zip".to_vec());
    match task.step(TaskEvent::Completed) {
        TaskAction::WriteTemp { file_name } => assert_eq!(file_name, "alpha.whl"),
        other => panic!("unexpected {:?}", other),
    }
    assert!(matches!(task.step(TaskEvent::Completed), TaskAction::Extract));
    assert!(matches!(task.step(TaskEvent::Completed), TaskAction::RemoveTemp));
    assert!(matches!(task.step(TaskEvent::Completed), TaskAction::Register));
    assert!(matches!(task.step(TaskEvent::Completed), TaskAction::Finish(Ok(()))));
    assert_eq!(task.phase(), TaskPhase::Done);
    assert!(matches!(task.step(TaskEvent::Completed), TaskAction::Finish(Ok(()))));
}

#[test]
fn cached_artifact_is_not_downloaded() {
    let mut task = InstallTask::new(pkg("alpha", "1.0"), true);
    task.step(TaskEvent::Start);
    assert!(matches!(task.step(TaskEvent::Cached(b"zip".to_vec())), TaskAction::WriteTemp { .. }));
    assert_eq!(task.phase(), TaskPhase::Writing);
    assert_eq!(task.artifact(), &b"zip".to_vec());
}

#[test]
fn task_without_cache_goes_straight_to_the_download() {
    let mut p = pkg("alpha", "1.0");
    p.size = None;
    let mut task = InstallTask::new(p, false);
    match task.step(TaskEvent::Start) {
        TaskAction::Download { expected_size, .. } => assert_eq!(expected_size, 0),
        other => panic!("unexpected {:?}", other),
    }
    assert!(matches!(task.step(TaskEvent::Downloaded(Vec::new())), TaskAction::WriteTemp { .. }));
}

#[test]
fn reported_failure_ends_the_task() {
    let mut task = InstallTask::new(pkg("alpha", "1.0"), false);
    task.step(TaskEvent::Start);
    task.step(TaskEvent::Downloaded(b"zip".to_vec()));
    match task.step(TaskEvent::Failed(io_error())) {
        TaskAction::Finish(Err(CobraError::Io(cause))) => assert_eq!(cause, "disk full"),
        other => panic!("unexpected {:?}", other),
    }
    assert_eq!(task.phase(), TaskPhase::Failed);
    assert!(matches!(task.step(TaskEvent::Completed), TaskAction::Finish(Err(CobraError::InstallationFailed(_)))));
}

#[test]
fn report_out_of_step_fails_the_task() {
    let mut task = InstallTask::new(pkg("alpha", "1.0"), true);
    match task.step(TaskEvent::Completed) {
        TaskAction::Finish(Err(e)) => assert_eq!(
            e.message(),
            "Installation failed: package task received a report out of step"
        ),
        other => panic!("unexpected {:?}", other),
    }
    assert_eq!(task.phase(), TaskPhase::Failed);
}

#[test]
fn first_failure_decides_the_run() {
    let installer = Installer::new(true);
    let good = installer.finish(vec![TaskOutcome::Finished(Ok(())), TaskOutcome::Finished(Ok(()))]);
    assert!(good.result.is_ok());
    assert!(good.publish);
    let failed = installer.finish(vec![
        TaskOutcome::Finished(Ok(())),
        TaskOutcome::Crashed("task 1 panicked".to_string()),
        TaskOutcome::Finished(Err(io_error())),
    ]);
    assert!(!failed.publish);
    match failed.result {
        Err(CobraError::InstallationFailed(cause)) => assert_eq!(cause, "task 1 panicked"),
        other => panic!("unexpected {:?}", other),
    }
    let failed = installer.finish(vec![
        TaskOutcome::Finished(Err(io_error())),
        TaskOutcome::Crashed("later".to_string()),
    ]);
    assert!(!failed.publish);
    assert!(matches!(failed.result, Err(CobraError::Io(_))));
}

#[test]
fn failed_publishing_is_a_warning() {
    let installer = Installer::new(true);
    let end = installer.finish(vec![TaskOutcome::Finished(Ok(()))]);
    assert!(end.publish);
    let report = installer.conclude(end, Err(CobraError::PythonEnv("no interpreter".to_string())));
    assert!(report.result.is_ok());
    assert_eq!(report.warning.as_deref(), Some("Python environment error: no interpreter"));
    let end = installer.finish(vec![TaskOutcome::Finished(Ok(()))]);
    let report = installer.conclude(end, Ok(()));
    assert!(report.result.is_ok());
    assert_eq!(report.warning, None);
}

#[test]
fn cache_that_cannot_store_does_not_fail_the_task() {
    let mut task = InstallTask::new(pkg("alpha", "1.0"), true);
    task.step(TaskEvent::Start);
    task.step(TaskEvent::NotCached);
    assert!(matches!(task.step(TaskEvent::Downloaded(b"zip".to_vec())), TaskAction::Store { .. }));
    let next = task.step(TaskEvent::Failed(CobraError::Cache("disk tier is full".to_string())));
    assert!(matches!(next, TaskAction::WriteTemp { .. }));
    assert_eq!(task.phase(), TaskPhase::Writing);
}

#[test]
fn download_buffer_keeps_the_order_of_arrival() {
    let mut buffer = DownloadBuffer::new();
    assert_eq!(buffer.push_chunk(b"abc"), 3);
    assert_eq!(buffer.push_chunk(b""), 0);
    assert_eq!(buffer.push_chunk(b"de"), 2);
    assert_eq!(buffer.len(), 5);
    assert_eq!(buffer.into_bytes(), b"abcde".to_vec());
}

/// Checks every package of a plan against the registry, with every
/// recorded directory in place.
fn flags(manager: &LocalPackageManager, registry: &mut PackageRegistry, plan: &[Package]) -> Vec<bool> {
    plan.iter()
        .map(|p| {
            let exists = registry.install_path_of(&p.name).is_some();
            manager.is_package_installed(registry, &p.name, &p.version, exists) == InstallCheck::Installed
        })
        .collect()
}

#[test]
fn second_run_installs_nothing() {
    let manager = LocalPackageManager::new("/work/.cobra_packages".to_string());
    let mut registry = PackageRegistry::new();
    let plan = vec![pkg("c", "1.0"), pkg("a", "2.1"), pkg("b", "0.3")];
    let installer = Installer::new(true);
    let first = installer.install_parallel(plan.clone(), &flags(&manager, &mut registry, &plan));
    assert_eq!(first.tasks.len(), 3);
    assert_eq!(first.summary, InstallSummary::All { pending: 3 });
    for (i, task) in first.tasks.iter().enumerate() {
        manager.register_package(&mut registry, task.package(), 100 + i as i64);
    }
    let second = installer.install_parallel(plan.clone(), &flags(&manager, &mut registry, &plan));
    assert!(second.tasks.is_empty());
    assert_eq!(second.summary, InstallSummary::AllInstalled { skipped: 3 });
    assert_eq!(manager.list_installed(&registry).len(), 3);
}

#[test]
fn last_of_two_versions_wins_in_the_registry() {
    let manager = LocalPackageManager::new("/w".to_string());
    let mut registry = PackageRegistry::new();
    manager.register_package(&mut registry, &pkg("lib", "1.0"), 1);
    manager.register_package(&mut registry, &pkg("lib", "2.0"), 2);
    assert_eq!(registry.version_of("lib").as_deref(), Some("2.0"));
}
