use std::path::PathBuf;

use libplasmoid_updater::installer::repair::RepairOutcome;
use libplasmoid_updater::installer::update::UpdateAction;
use libplasmoid_updater::pipeline::{
    check_fetched, repair_done, repair_found, validate_environment, without_excluded, CheckStage,
    Listing, Platform, RepairStage, UpdateProgress, UpdateStage,
};
use libplasmoid_updater::types::UpdateCheckResult;
use libplasmoid_updater::{
    check, get_installed, install_update, repair_installed, show_installed, update, AvailableUpdate, CheckResult,
    ComponentType, Config, Diagnostic, Error, InstalledComponent, RepairResult, UpdateResult,
};

const GOOD: Platform = Platform { is_linux: true, has_plasma: true };
const NO_PLASMA: Platform = Platform { is_linux: true, has_plasma: false };
const NO_LINUX: Platform = Platform { is_linux: false, has_plasma: true };

fn component(name: &str) -> InstalledComponent {
    InstalledComponent {
        name: name.to_string(),
        directory_name: format!("org.{name}"),
        version: "1.0".to_string(),
        component_type: ComponentType::PlasmaWidget,
        path: PathBuf::from(format!("/p/{name}")),
        is_system: false,
        release_date: String::new(),
    }
}

fn available(name: &str) -> AvailableUpdate {
    AvailableUpdate {
        installed: component(name),
        latest_version: "2.0".to_string(),
        download_url: "https://example.org".to_string(),
        checksum: None,
    }
}

fn diagnostic(name: &str) -> Diagnostic {
    Diagnostic { name: name.to_string(), reason: "unknown".to_string() }
}

fn found(names: &[&str]) -> UpdateCheckResult {
    UpdateCheckResult {
        updates: names.iter().map(|n| available(n)).collect(),
        unresolved: vec![diagnostic("u")],
        check_failures: vec![diagnostic("f1"), diagnostic("f2")],
    }
}

fn finished_check(stage: CheckStage) -> Result<CheckResult, Error> {
    match stage {
        CheckStage::Finished(result) => result,
        other => panic!("unexpected {other:?}"),
    }
}

#[test]
fn environment_is_validated() {
    assert!(validate_environment(GOOD, false).is_ok());
    assert!(matches!(validate_environment(NO_PLASMA, false), Err(Error::NotKDE)));
    assert!(validate_environment(NO_PLASMA, true).is_ok());
    assert!(matches!(validate_environment(NO_LINUX, true), Err(Error::UnsupportedOS)));
}

#[test]
fn check_begins_with_the_store() {
    let config = Config::new();
    assert!(matches!(check(&config, GOOD), CheckStage::Fetching));
    assert!(matches!(finished_check(check(&config, NO_LINUX)), Err(Error::UnsupportedOS)));
    assert!(matches!(finished_check(check(&config, NO_PLASMA)), Err(Error::NotKDE)));
}

#[test]
fn check_gives_updates_and_diagnostics() {
    let result = finished_check(check_fetched(Ok(found(&["a", "b"])))).unwrap();
    assert!(result.has_updates());
    assert_eq!(result.update_count(), 2);
    assert!(!result.is_empty());
    let names: Vec<&str> = result.diagnostics.iter().map(|d| d.name.as_str()).collect();
    assert_eq!(names, vec!["u", "f1", "f2"]);
}

#[test]
fn check_without_updates_is_no_error() {
    let nothing =
        UpdateCheckResult { updates: vec![], unresolved: vec![], check_failures: vec![] };
    let result = finished_check(check_fetched(Ok(nothing))).unwrap();
    assert!(!result.has_updates());
    assert!(result.is_empty());
    assert!(matches!(
        finished_check(check_fetched(Err(Error::RateLimited))),
        Err(Error::RateLimited)
    ));
}

#[test]
fn excluded_components_are_skipped() {
    let updates = vec![available("a"), available("b"), available("c")];
    let kept = without_excluded(updates, &vec!["org.b".to_string(), "c".to_string()]);
    let names: Vec<&str> = kept.iter().map(|u| u.installed.name.as_str()).collect();
    assert_eq!(names, vec!["a", "c"]);
}

#[test]
fn update_takes_its_course() {
    let stage = update(&Config::new(), GOOD);
    let stage = stage.step(UpdateProgress::Fetched(Ok(found(&["a", "b"]))));
    assert!(matches!(&stage, UpdateStage::Selecting { updates } if updates.len() == 2));
    let stage = stage.step(UpdateProgress::Selected(Ok(vec![1, 7, 0, 1])));
    assert!(matches!(
        &stage,
        UpdateStage::Installing { updates, selected }
            if updates.len() == 2 && *selected == vec![1, 0]
    ));
    let outcomes = vec![Err(Error::install("why".to_string())), Ok(())];
    let stage = stage.step(UpdateProgress::Installed(Ok(outcomes)));
    assert!(matches!(&stage, UpdateStage::Restarting { updates, .. } if updates.len() == 2));
    assert!(stage.notice().is_none());
    let stage = stage.step(UpdateProgress::RestartHandled);
    let result = stage.result().unwrap().unwrap();
    assert_eq!(result.succeeded, vec!["a"]);
    assert_eq!(
        result.failed,
        vec![("b".to_string(), "installation failed: why".to_string())]
    );
    assert!(result.has_failures());
    assert_eq!((result.success_count(), result.failure_count()), (1, 1));
}

#[test]
fn update_skips_excluded_components() {
    let config = Config::new()
        .with_excluded_packages(vec!["org.b".to_string(), "org.none".to_string()]);
    let names = |updates: &[AvailableUpdate]| -> Vec<String> {
        updates.iter().map(|u| u.installed.name.clone()).collect()
    };
    let stage = update(&config, GOOD).step(UpdateProgress::Fetched(Ok(found(&["a", "b", "c"]))));
    assert!(matches!(
        &stage,
        UpdateStage::Selecting { updates } if names(updates) == vec!["a", "c"]
    ));
    let stage = update(&config, GOOD).step(UpdateProgress::Fetched(Ok(found(&["b"]))));
    assert!(matches!(stage, UpdateStage::UpToDate));
}

#[test]
fn confirmed_update_installs_all() {
    let config = Config { auto_confirm: true, ..Config::new() };
    let stage = update(&config, GOOD).step(UpdateProgress::Fetched(Ok(found(&["a", "b", "c"]))));
    assert!(matches!(
        &stage,
        UpdateStage::Installing { selected, .. } if *selected == vec![0, 1, 2]
    ));
    let result = stage
        .step(UpdateProgress::Installed(Ok(vec![Ok(())])))
        .step(UpdateProgress::RestartHandled)
        .result()
        .unwrap()
        .unwrap();
    assert_eq!(result.succeeded, vec!["a"]);
    assert_eq!(result.skipped, vec!["b", "c"]);
}

#[test]
fn update_may_find_nothing_to_do() {
    let stage = update(&Config::new(), GOOD).step(UpdateProgress::Fetched(Ok(found(&[]))));
    assert_eq!(stage.notice(), Some("no updates available"));
    assert!(stage.result().unwrap().unwrap().is_empty());

    let stage = update(&Config::new(), GOOD)
        .step(UpdateProgress::Fetched(Ok(found(&["a"]))))
        .step(UpdateProgress::Selected(Ok(vec![1, 2])));
    assert_eq!(stage.notice(), Some("nothing to update"));
    assert!(stage.result().unwrap().unwrap().is_empty());
}

#[test]
fn update_gives_errors_on() {
    let result = |stage: UpdateStage| stage.result().unwrap().unwrap_err();
    assert!(matches!(result(update(&Config::new(), NO_PLASMA)), Error::NotKDE));
    let fetching = || update(&Config::new(), GOOD);
    let failed = fetching().step(UpdateProgress::Fetched(Err(Error::RateLimited)));
    assert!(matches!(result(failed), Error::RateLimited));
    let selecting = || fetching().step(UpdateProgress::Fetched(Ok(found(&["a"]))));
    let failed = selecting().step(UpdateProgress::Selected(Err(Error::RateLimited)));
    assert!(matches!(result(failed), Error::RateLimited));
    let failed = selecting()
        .step(UpdateProgress::Selected(Ok(vec![0])))
        .step(UpdateProgress::Installed(Err(Error::RateLimited)));
    assert!(matches!(result(failed), Error::RateLimited));
}

#[test]
fn update_waits_for_the_answer_it_needs() {
    let stage = update(&Config::new(), GOOD).step(UpdateProgress::RestartHandled);
    assert!(matches!(stage, UpdateStage::Fetching { .. }));
    assert!(stage.result().is_none());
}

#[test]
fn single_update_begins_with_a_backup() {
    let run = install_update(&available("a"), &Config::new());
    assert_eq!(run.action(), UpdateAction::Backup);
    assert!(run.result().is_none());
}

#[test]
fn repair_takes_its_course() {
    let config = Config { system: true, ..Config::new() };
    assert!(get_installed(&config).system);
    assert!(matches!(
        repair_installed(&config, GOOD),
        RepairStage::Finding(search) if search.system
    ));
    assert!(matches!(
        repair_installed(&config, NO_PLASMA),
        RepairStage::Finished(Err(Error::NotKDE))
    ));
    let components = match repair_found(Ok(vec![component("a"), component("b")])) {
        RepairStage::Repairing { components } => components,
        other => panic!("unexpected {other:?}"),
    };
    let outcomes = vec![
        RepairOutcome::Patched,
        RepairOutcome::Failed { path: "/p".to_string(), cause: "c".to_string() },
    ];
    match repair_done(&components, &outcomes) {
        RepairStage::Finished(Ok(result)) => {
            assert_eq!(result.patched, vec!["a"]);
            assert_eq!(
                result.errors,
                vec![("b".to_string(), "failed to patch /p: c".to_string())]
            );
            assert!(result.has_patched() && result.has_errors() && !result.is_empty());
        }
        other => panic!("unexpected {other:?}"),
    }
    assert!(matches!(
        repair_found(Err(Error::Io("x".to_string()))),
        RepairStage::Finished(Err(Error::Io(_)))
    ));
    assert!(RepairResult::default().is_empty());
}

#[test]
fn listing_shows_a_table_or_a_note() {
    assert!(matches!(
        show_installed(Ok(vec![])),
        Ok(Listing::Note("no components installed"))
    ));
    assert!(matches!(
        show_installed(Ok(vec![component("a")])),
        Ok(Listing::Table(t)) if t.len() == 1
    ));
    assert!(matches!(
        show_installed(Err(Error::Io("x".to_string()))),
        Err(Error::Io(_))
    ));
}

#[test]
fn result_that_attempted_nothing_is_empty() {
    let result = UpdateResult::default();
    assert!(result.is_empty() && !result.has_failures());
    let skipped = UpdateResult { skipped: vec!["a".to_string()], ..UpdateResult::default() };
    assert!(!skipped.is_empty());
}
