use std::collections::HashMap;
use std::path::PathBuf;

use libplasmoid_updater::cli::{
    choose_editor, decoded_config, default_config, do_full_update, do_update, do_update_single,
    execute_command, needs_sudo, no_update_message, read_config, run, run_configured, update_route, validate_sudo, Command, CommandStage, ConfigFile,
    EditEvent, EditStage, Options, RunStage, SudoOutcome, TomlConfig, UpdateArgs, UpdateRoute, WidgetsFile,
};
use libplasmoid_updater::pipeline::without_excluded;
use libplasmoid_updater::{
    AvailableUpdate, CheckResult, CliConfig, ComponentType, Config, Error, ExitCode,
    InstalledComponent, RestartBehavior, UpdateResult,
};

fn other_message(error: Error) -> String {
    match error {
        Error::Other(message) => message,
        other => panic!("unexpected error {other:?}"),
    }
}

fn file() -> TomlConfig {
    TomlConfig {
        excluded_packages: vec!["org.x".to_string()],
        update_all_by_default: true,
        assume_yes: false,
        prompt_restart: true,
        max_threads: Some(3),
    }
}

fn available(name: &str, directory: &str) -> AvailableUpdate {
    AvailableUpdate {
        installed: InstalledComponent {
            name: name.to_string(),
            directory_name: directory.to_string(),
            version: "1.0".to_string(),
            component_type: ComponentType::PlasmaWidget,
            path: PathBuf::from(format!("/p/{directory}")),
            is_system: false,
            release_date: String::new(),
        },
        latest_version: "2.0".to_string(),
        download_url: "https://example.org".to_string(),
        checksum: None,
    }
}

#[test]
fn missing_configuration_is_the_default() {
    for missing in [ConfigFile::NoDirectory, ConfigFile::Missing] {
        let config = CliConfig::load(missing).unwrap();
        assert!(!config.update_all_by_default && !config.assume_yes);
        assert!(config.inner.excluded_packages.is_empty());
        assert_eq!(config.inner.restart, RestartBehavior::Never);
        assert_eq!(config.inner.threads, None);
        assert!(config.inner.widgets_id_table.is_none());
        assert!(!config.inner.auto_confirm && !config.inner.system);
    }
}

#[test]
fn configuration_follows_the_file() {
    let config = CliConfig::load(ConfigFile::Read(file())).unwrap();
    assert!(config.update_all_by_default && !config.assume_yes);
    assert_eq!(config.inner.excluded_packages, vec!["org.x"]);
    assert_eq!(config.inner.restart, RestartBehavior::Prompt);
    assert_eq!(config.inner.threads, Some(3));
    assert_eq!(config.threads, Some(3));
}

#[test]
fn broken_configuration_is_told() {
    let path = || "/c/plasmoid-updater.toml".to_string();
    let cause = || "why".to_string();
    let unreadable = ConfigFile::Unreadable { path: path(), cause: cause() };
    assert_eq!(
        other_message(CliConfig::load(unreadable).unwrap_err()),
        "failed to read config file /c/plasmoid-updater.toml: why"
    );
    let malformed = ConfigFile::Malformed { path: path(), cause: cause() };
    assert_eq!(
        other_message(CliConfig::load(malformed).unwrap_err()),
        "failed to parse config file /c/plasmoid-updater.toml: why"
    );
}

#[test]
fn widgets_table_replaces_the_built_in_one() {
    let load = |widgets: WidgetsFile| {
        CliConfig::load_with_widgets_id(ConfigFile::Missing, Some(widgets))
    };
    assert!(load(WidgetsFile::Missing).unwrap().inner.widgets_id_table.unwrap().is_empty());
    let table = HashMap::from([("w".to_string(), 7u64)]);
    let config = load(WidgetsFile::Read(table)).unwrap();
    assert_eq!(config.inner.widgets_id_table.unwrap().get("w"), Some(&7));
    let unreadable =
        WidgetsFile::Unreadable { path: "/w".to_string(), cause: "denied".to_string() };
    assert_eq!(
        other_message(load(unreadable).unwrap_err()),
        "failed to read file /w: denied"
    );
}

#[test]
fn default_configuration_sets_nothing() {
    let text = default_config();
    let table: toml::Table = toml::from_str(&text).unwrap();
    assert!(table.is_empty());
    assert_eq!(
        text,
        r#"# plasmoid-updater configuration
# excluded_packages = ["widget-name", "another.widget"]
# update_all_by_default = false
# assume_yes = false  # automatically confirm all updates without prompting
# prompt_restart = true
# max_threads = 4  # maximum number of concurrent downloads (reduce to 1-2 if you hit HTTP 429)
"#
    );
    assert!(text.lines().all(|line| line.starts_with('#')));
}

#[test]
fn text_without_keys_says_nothing() {
    let path = || "/c".to_string();
    let refused = || Err("why".to_string());
    for text in [default_config().as_str(), "", "# a\r\n# b\t~", " \n\n"] {
        assert!(matches!(
            read_config(path(), text, refused()),
            ConfigFile::Read(said)
                if said.excluded_packages.is_empty() && said.max_threads.is_none()
        ));
    }
    for text in ["assume_yes = 1", "nonsense", "# \u{1}\n"] {
        assert!(matches!(
            read_config(path(), text, refused()),
            ConfigFile::Malformed { path, cause } if path == "/c" && cause == "why"
        ));
    }
    assert!(matches!(
        read_config(path(), "max_threads = 3", Ok(file())),
        ConfigFile::Read(said) if said.max_threads == Some(3)
    ));
    assert!(matches!(
        decoded_config(Some(0), path(), Ok(file())),
        ConfigFile::Read(said) if said.max_threads.is_none()
    ));
    assert!(matches!(
        decoded_config(None, path(), refused()),
        ConfigFile::Malformed { .. }
    ));
    assert!(matches!(
        decoded_config(Some(1), path(), Ok(file())),
        ConfigFile::Read(said) if said.max_threads == Some(3)
    ));
}

#[test]
fn run_edits_or_loads_the_configuration() {
    let options = Options {
        system: true,
        edit_config: false,
        skip_plasma_detection: false,
        max_threads: Some(2),
    };
    assert_eq!(run(options), RunStage::LoadConfig);
    assert_eq!(run(Options { edit_config: true, ..options }), RunStage::EditConfig);
    let (config, stage) =
        run_configured(options, ConfigFile::Read(file()), false, Some(Command::Check)).unwrap();
    assert!(config.inner.system);
    assert_eq!(config.inner.threads, Some(2));
    assert!(matches!(stage, CommandStage::Authenticating(Command::Check)));
    let broken = ConfigFile::Malformed { path: "/c".to_string(), cause: "why".to_string() };
    assert_eq!(
        other_message(run_configured(options, broken, true, None).unwrap_err()),
        "failed to parse config file /c: why"
    );
}

#[test]
fn file_that_says_nothing_is_like_none() {
    let said = CliConfig::load(ConfigFile::Read(TomlConfig::default())).unwrap();
    let none = CliConfig::load(ConfigFile::Missing).unwrap();
    assert_eq!(said.inner.excluded_packages, none.inner.excluded_packages);
    assert_eq!(said.inner.restart, none.inner.restart);
    assert_eq!(said.inner.threads, none.inner.threads);
    assert_eq!(said.update_all_by_default, none.update_all_by_default);
    assert_eq!(said.assume_yes, none.assume_yes);
}

#[test]
fn editor_is_the_one_of_the_environment() {
    assert_eq!(choose_editor(Some("vi".to_string())), "vi");
    assert_eq!(choose_editor(None), "nano");
}

#[test]
fn new_configuration_is_written_and_opened() {
    let stage = CliConfig::edit_config(true);
    let stage = stage.step(EditEvent::Looked { exists: false, has_parent: true });
    assert!(matches!(stage, EditStage::CreatingDirectory));
    let stage = stage.step(EditEvent::Done);
    assert!(matches!(stage, EditStage::Writing));
    let stage = stage.step(EditEvent::Done);
    assert!(matches!(stage, EditStage::Opening));
    let closed = stage.step(EditEvent::Closed { success: false });
    assert!(matches!(closed, EditStage::Finished(Ok(()))));
}

#[test]
fn existing_configuration_is_only_opened() {
    let stage = CliConfig::edit_config(true);
    let stage = stage.step(EditEvent::Looked { exists: true, has_parent: true });
    assert!(matches!(stage, EditStage::Opening));
    let parentless =
        CliConfig::edit_config(true).step(EditEvent::Looked { exists: false, has_parent: false });
    assert!(matches!(parentless, EditStage::Writing));
}

#[test]
fn failures_to_edit_are_told() {
    let told = |stage: EditStage| match stage {
        EditStage::Finished(Err(e)) => other_message(e),
        other => panic!("unexpected {other:?}"),
    };
    let failed = |subject: &str| EditEvent::Failed {
        subject: subject.to_string(),
        cause: "why".to_string(),
    };
    assert_eq!(told(CliConfig::edit_config(false)), "could not determine config directory");
    assert_eq!(
        told(EditStage::CreatingDirectory.step(failed("/c"))),
        "failed to create config directory /c: why"
    );
    assert_eq!(
        told(EditStage::Writing.step(failed("/c/f"))),
        "failed to create config file /c/f: why"
    );
    assert_eq!(
        told(EditStage::Opening.step(failed("vi"))),
        "failed to open editor vi: why"
    );
}

#[test]
fn call_overrides_the_configuration() {
    let options = Options {
        system: true,
        edit_config: false,
        skip_plasma_detection: true,
        max_threads: None,
    };
    let load = || CliConfig::load(ConfigFile::Read(file())).unwrap();
    let config = load().with_options(options);
    assert!(config.inner.system && config.inner.skip_plasma_detection);
    assert_eq!(config.inner.threads, Some(3));
    let config = load().with_options(Options { max_threads: Some(1), ..options });
    assert_eq!(config.inner.threads, Some(1));
}

#[test]
fn authentication_is_needed_for_the_system() {
    assert!(needs_sudo(true, false));
    assert!(!needs_sudo(true, true) && !needs_sudo(false, false));
    assert!(validate_sudo(SudoOutcome::Exited { success: true }).is_ok());
    assert_eq!(
        other_message(validate_sudo(SudoOutcome::Exited { success: false }).unwrap_err()),
        "sudo authentication failed"
    );
    assert_eq!(
        other_message(
            validate_sudo(SudoOutcome::NotRun { cause: "none".to_string() }).unwrap_err()
        ),
        "failed to run sudo: none"
    );
}

#[test]
fn everything_is_updated_without_a_command() {
    let run = |command: Option<Command>| match execute_command(false, false, command) {
        CommandStage::Running(command) => command,
        other => panic!("unexpected {other:?}"),
    };
    assert!(matches!(
        run(None),
        Command::Update(UpdateArgs {
            component: None,
            restart_plasma: false,
            no_restart_plasma: false,
            yes: false,
        })
    ));
    assert!(matches!(run(Some(Command::Check)), Command::Check));
    assert!(matches!(run(Some(Command::ListInstalled)), Command::ListInstalled));
    assert!(matches!(run(Some(Command::Repair)), Command::Repair));
}

#[test]
fn no_command_runs_unauthenticated() {
    for command in [Command::Check, Command::ListInstalled, Command::Repair] {
        let stage = execute_command(true, false, Some(command));
        assert!(matches!(stage, CommandStage::Authenticating(_)));
        let refused = stage.authenticated(SudoOutcome::Exited { success: false });
        let refused = refused.authenticated(SudoOutcome::Exited { success: true });
        match refused {
            CommandStage::Failed(e) => {
                assert_eq!(other_message(e), "sudo authentication failed")
            }
            other => panic!("unexpected {other:?}"),
        }
    }
    match execute_command(true, false, None)
        .authenticated(SudoOutcome::NotRun { cause: "none".to_string() })
    {
        CommandStage::Failed(e) => assert_eq!(other_message(e), "failed to run sudo: none"),
        other => panic!("unexpected {other:?}"),
    }
    assert!(matches!(
        execute_command(true, false, Some(Command::Check))
            .authenticated(SudoOutcome::Exited { success: true }),
        CommandStage::Running(Command::Check)
    ));
    assert!(matches!(
        execute_command(true, true, Some(Command::Check)),
        CommandStage::Running(Command::Check)
    ));
}

#[test]
fn confirmation_and_restart_are_settled() {
    let config = |all: bool, yes: bool| CliConfig {
        inner: Config::new().with_restart(RestartBehavior::Prompt),
        update_all_by_default: all,
        assume_yes: yes,
    };
    let args = || UpdateArgs::default();
    let settled = |config: CliConfig, args: &UpdateArgs| do_update(config, args).settings;
    assert!(!settled(config(false, false), &args()).auto_confirm);
    assert!(settled(config(true, false), &args()).auto_confirm);
    assert!(settled(config(false, true), &args()).auto_confirm);
    assert!(settled(config(false, false), &UpdateArgs { yes: true, ..args() }).auto_confirm);
    assert_eq!(settled(config(false, false), &args()).restart, RestartBehavior::Prompt);
    let both = UpdateArgs { restart_plasma: true, no_restart_plasma: true, ..args() };
    assert_eq!(settled(config(false, false), &both).restart, RestartBehavior::Always);
    let never = UpdateArgs { no_restart_plasma: true, ..args() };
    assert_eq!(settled(config(false, false), &never).restart, RestartBehavior::Never);
}

#[test]
fn named_component_is_updated_alone() {
    let named = UpdateArgs { component: Some("Clock".to_string()), ..UpdateArgs::default() };
    assert!(matches!(update_route(&named), UpdateRoute::Single(name) if name == "Clock"));
    assert!(matches!(update_route(&UpdateArgs::default()), UpdateRoute::All));
    let config = CliConfig::load(ConfigFile::Missing).unwrap();
    assert!(matches!(
        do_update(config, &named).route,
        UpdateRoute::Single(name) if name == "Clock"
    ));
}

#[test]
fn single_component_excludes_all_others() {
    let updates = || {
        vec![
            available("Clock", "org.clock"),
            available("Weather", "org.weather"),
            available("org.clock", "other.clock"),
            available("Notes", "org.notes"),
        ]
    };
    let found = CheckResult { available_updates: updates(), diagnostics: vec![] };
    let config = Config::new().with_excluded_packages(vec!["org.x".to_string()]);
    let narrowed = do_update_single("org.clock", config, &found).unwrap();
    assert!(narrowed.auto_confirm);
    assert_eq!(narrowed.excluded_packages, vec!["org.x", "org.weather", "org.notes"]);
    let kept = without_excluded(updates(), &narrowed.excluded_packages);
    let names: Vec<&str> = kept.iter().map(|u| u.installed.name.as_str()).collect();
    assert_eq!(names, vec!["Clock", "org.clock"]);
}

#[test]
fn unknown_component_has_no_update() {
    let found =
        CheckResult { available_updates: vec![available("a", "b")], diagnostics: vec![] };
    assert!(do_update_single("c", Config::new(), &found).is_none());
    assert_eq!(no_update_message("c"), "no update available for 'c'");
}

#[test]
fn update_ends_with_a_report() {
    let nothing = do_full_update(&UpdateResult::default());
    assert!(!nothing.print_summary && !nothing.print_error_table);
    assert_eq!(nothing.exit_code, ExitCode::Success);
    let good = UpdateResult { succeeded: vec!["a".to_string()], ..UpdateResult::default() };
    let report = do_full_update(&good);
    assert!(report.print_summary && !report.print_error_table);
    assert_eq!(report.exit_code, ExitCode::Success);
    let bad = UpdateResult {
        failed: vec![("a".to_string(), "why".to_string())],
        ..UpdateResult::default()
    };
    let report = do_full_update(&bad);
    assert!(report.print_summary && report.print_error_table);
    assert_eq!(report.exit_code, ExitCode::PartialFailure);
}
