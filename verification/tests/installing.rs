use std::path::PathBuf;

use libplasmoid_updater::installer::install::{
    install_direct, install_raw_file, install_via_kpackage, replace_destination, Destination,
    FileOp, KpackageEvent, KpackageStage,
};
use libplasmoid_updater::installer::update::{
    update_component, UpdateAction, UpdateEvent, UpdateRun,
};
use libplasmoid_updater::tree::{
    find_component_root_in_archive, find_file_in_dir, find_icon_theme_dir, find_in_dir,
    find_package_dir, find_wallpaper_source, has_color_scheme_extension, has_image_extension,
    has_component_structure, has_entry, is_single_file_component, is_single_file_name,
    locate_color_scheme_file, DirEntry, DirNode, EntryKind, WallpaperSource,
};
use libplasmoid_updater::metadata::FilePatch;
use libplasmoid_updater::{AvailableUpdate, ComponentType, Error, InstalledComponent};

const ABSENT: Destination = Destination { exists: false, is_dir: false, has_parent: true };

fn available(component_type: ComponentType) -> AvailableUpdate {
    AvailableUpdate {
        installed: InstalledComponent {
            name: "Clock".to_string(),
            directory_name: "org.clock".to_string(),
            version: "1.0".to_string(),
            component_type,
            path: PathBuf::from("/p/org.clock"),
            is_system: false,
            release_date: String::new(),
        },
        latest_version: "2.0".to_string(),
        download_url: "https://example.org".to_string(),
        checksum: None,
    }
}

fn dir(handle: usize, entries: Vec<DirEntry>) -> DirNode {
    DirNode { handle, entries }
}

fn entry(name: &str, kind: EntryKind) -> DirEntry {
    DirEntry { name: Some(name.to_string()), kind }
}

fn file(name: &str, handle: usize) -> DirEntry {
    entry(name, EntryKind::File(handle))
}

fn sub(name: &str, node: DirNode) -> DirEntry {
    entry(name, EntryKind::Dir(node))
}

// --- Search ---

#[test]
fn directories_are_searched_before_their_siblings() {
    let tree = dir(
        0,
        vec![
            sub("a", dir(1, vec![sub("b", dir(2, vec![file("x", 10)]))])),
            sub("c", dir(3, vec![file("x", 11)])),
        ],
    );
    assert_eq!(find_in_dir(&tree, &|d: &DirNode| has_entry(d, "x")).unwrap().handle, 2);
    assert!(find_in_dir(&tree, &|d: &DirNode| has_entry(d, "y")).is_none());
    let found = find_file_in_dir(&tree, &|e: &DirEntry| e.name.as_deref() == Some("x")).unwrap();
    assert!(matches!(found.kind, EntryKind::File(10)));
}

#[test]
fn links_that_lead_nowhere_are_no_entries() {
    let tree = dir(0, vec![entry("x", EntryKind::Dangling), entry("y", EntryKind::Special)]);
    assert!(!has_entry(&tree, "x"));
    assert!(has_entry(&tree, "y"));
}

#[test]
fn json_package_is_preferred() {
    let tree = dir(
        0,
        vec![
            file("metadata.desktop", 10),
            sub("deep", dir(1, vec![file("metadata.json", 11)])),
        ],
    );
    assert_eq!(find_package_dir(&tree).unwrap().handle, 1);
    assert!(matches!(
        install_via_kpackage(&tree, &available(ComponentType::PlasmaWidget), false).stage,
        KpackageStage::PatchingJson(plan)
            if plan.package == 1 && plan.patch_json && !plan.patch_desktop && !plan.global
    ));
}

#[test]
fn desktop_package_is_found() {
    let tree = dir(0, vec![sub("deep", dir(1, vec![file("metadata.desktop", 11)]))]);
    assert!(matches!(
        install_via_kpackage(&tree, &available(ComponentType::PlasmaWidget), true).stage,
        KpackageStage::PatchingDesktop(plan)
            if plan.package == 1 && !plan.patch_json && plan.patch_desktop && plan.global
    ));
}

#[test]
fn package_without_metadata_is_refused() {
    let tree = dir(0, vec![file("main.qml", 10)]);
    assert!(matches!(
        install_via_kpackage(&tree, &available(ComponentType::PlasmaWidget), false).stage,
        KpackageStage::Finished(Err(Error::MetadataNotFound))
    ));
}

fn package() -> DirNode {
    dir(0, vec![file("metadata.json", 10), file("metadata.desktop", 11)])
}

#[test]
fn tool_is_run_though_patches_fail() {
    let failed = || KpackageEvent::Patched(Err(Error::Io("denied".to_string())));
    for global in [false, true] {
        let stage = install_via_kpackage(&package(), &available(ComponentType::PlasmaWidget), global);
        assert!(matches!(stage.stage, KpackageStage::PatchingJson(_)));
        assert!(stage.stage.tool_command("/x").is_none());
        let stage = stage.step(failed());
        assert!(matches!(stage.stage, KpackageStage::PatchingDesktop(_)));
        let stage = stage.step(failed());
        let command = stage.stage.tool_command("/x").unwrap();
        assert_eq!(command.privileged, global);
        assert_eq!(command.args[1], "Plasma/Applet");
        assert_eq!(command.args.last().unwrap(), "/x");
    }
}

#[test]
fn package_is_patched_to_the_new_version() {
    let run = install_via_kpackage(&package(), &available(ComponentType::PlasmaWidget), false);
    let Some(FilePatch::Write(text)) = run.patch(r#"{"KPlugin": {"Version": "1"}}"#) else {
        panic!("no patch");
    };
    assert_eq!(
        text,
        "{\n  \"KPackageStructure\": \"Plasma/Applet\",\n  \"KPlugin\": {\n    \"Version\": \"2.0\"\n  }\n}"
    );
    assert!(run.patch("[]").is_none());
    assert!(matches!(run.patch("{"), Some(FilePatch::Fail(Error::MetadataParse(_)))));
    let run = run.step(KpackageEvent::Patched(Ok(())));
    assert!(matches!(
        run.patch("X-KDE-PluginInfo-Version=1\n"),
        Some(FilePatch::Write(text)) if text == "X-KDE-PluginInfo-Version=2.0\n"
    ));
    assert!(matches!(run.patch("Name=x\n"), Some(FilePatch::Keep)));
    let run = run.step(KpackageEvent::Patched(Ok(())));
    assert!(matches!(run.patch("X-KDE-PluginInfo-Version=1\n"), Some(FilePatch::Keep)));
}

#[test]
fn installed_metadata_is_patched_to_the_latest_version() {
    for (json, content, patched) in [
        (true, r#"{"KPlugin": {}}"#, "{\n  \"KPlugin\": {\n    \"Version\": \"2.0\"\n  }\n}"),
        (false, "X-KDE-PluginInfo-Version=1", "X-KDE-PluginInfo-Version=2.0"),
    ] {
        let mut run = update_component(&available(ComponentType::ColorScheme));
        while run.action() != UpdateAction::FindMetadata {
            run = match run.action() {
                UpdateAction::Download => run.step(downloaded("a.colors")),
                _ => run.step(UpdateEvent::Done),
            };
        }
        assert!(matches!(run.patch(content), Some(FilePatch::Keep)));
        run = run.step(UpdateEvent::Found { json, desktop: true });
        assert!(matches!(run.patch(content), Some(FilePatch::Write(text)) if text == patched));
    }
}

#[test]
fn package_comes_to_what_the_tool_comes_to() {
    let running = || {
        install_via_kpackage(&package(), &available(ComponentType::KWinScript), false)
            .step(KpackageEvent::Patched(Ok(())))
            .step(KpackageEvent::Patched(Ok(())))
    };
    let exited = |success: bool, out: &str| KpackageEvent::ToolExited {
        success,
        stdout: out.as_bytes().to_vec(),
        stderr: vec![],
    };
    assert!(matches!(running().step(exited(true, "")).stage, KpackageStage::Finished(Ok(()))));
    assert!(matches!(
        running().step(exited(false, "bad")).stage,
        KpackageStage::Finished(Err(Error::InstallFailed(m))) if m == "kpackagetool6 failed: bad"
    ));
    assert!(matches!(
        running().step(exited(false, "x does not match requested format")).stage,
        KpackageStage::Finished(Err(Error::InstallFailed(m))) if m.starts_with("update blocked: ")
    ));
    assert!(matches!(
        running().step(KpackageEvent::ToolNotRun { cause: "none".to_string() }).stage,
        KpackageStage::Finished(Err(Error::InstallFailed(m)))
            if m == "failed to run kpackagetool6: none"
    ));
    assert!(matches!(
        running().step(KpackageEvent::Patched(Ok(()))).stage,
        KpackageStage::RunningTool(_)
    ));
}

#[test]
fn tool_does_not_install_other_kinds() {
    let stage = install_via_kpackage(
        &dir(0, vec![file("metadata.json", 10)]),
        &available(ComponentType::GlobalTheme),
        false,
    )
    .step(KpackageEvent::Patched(Ok(())));
    assert!(matches!(
        stage.stage,
        KpackageStage::Finished(Err(Error::InstallFailed(m)))
            if m == "Global Theme has no kpackage type"
    ));
}

#[test]
fn color_scheme_is_found_below() {
    let tree = dir(
        0,
        vec![
            sub("dir.colors", dir(1, vec![file("Night.colors", 10)])),
            file("Day.colorscheme", 11),
        ],
    );
    assert_eq!(locate_color_scheme_file(&tree), Some(10));
    let unnamed = dir(0, vec![DirEntry { name: None, kind: EntryKind::File(1) }]);
    assert_eq!(locate_color_scheme_file(&unnamed), None);
}

#[test]
fn extensions_are_told_by_their_letters() {
    assert!(has_color_scheme_extension("a.colors"));
    assert!(!has_color_scheme_extension("a.COLORS"));
    assert!(has_image_extension("a.webp"));
    assert!(!has_image_extension("a.gif"));
}

#[test]
fn component_roots_are_sought_one_level_deep() {
    let theme = dir(0, vec![sub("t", dir(1, vec![file("theme.conf", 10)]))]);
    assert_eq!(
        find_component_root_in_archive(&theme, ComponentType::SddmTheme).unwrap().handle,
        1
    );
    let deeper = dir(0, vec![sub("a", theme)]);
    assert!(find_component_root_in_archive(&deeper, ComponentType::SddmTheme).is_none());
    let own = dir(5, vec![file("Main.qml", 10)]);
    assert_eq!(
        find_component_root_in_archive(&own, ComponentType::SddmTheme).unwrap().handle,
        5
    );
}

#[test]
fn component_structures_are_known() {
    let with = |name: &str| dir(0, vec![file(name, 1)]);
    assert!(has_component_structure(&with("decoration.svg"), ComponentType::AuroraeDecoration));
    assert!(has_component_structure(&with("aurorae"), ComponentType::AuroraeDecoration));
    assert!(has_component_structure(&with("metadata.json"), ComponentType::GlobalTheme));
    assert!(has_component_structure(&with("metadata.desktop"), ComponentType::SplashScreen));
    assert!(has_component_structure(&with("colors"), ComponentType::PlasmaStyle));
    assert!(!has_component_structure(&with("metadata.json"), ComponentType::PlasmaStyle));
    assert!(has_component_structure(&with("contents"), ComponentType::KWinSwitcher));
    assert!(!has_component_structure(&with("metadata.json"), ComponentType::Wallpaper));
}

#[test]
fn wallpaper_directory_goes_before_a_picture() {
    let both = dir(
        0,
        vec![file("a.PNG", 10), sub("w", dir(1, vec![sub("contents", dir(2, vec![]))]))],
    );
    assert!(matches!(find_wallpaper_source(&both), Some(WallpaperSource::Dir(1))));
    let picture = dir(0, vec![file("readme", 9), file("a.PNG", 10)]);
    assert!(matches!(find_wallpaper_source(&picture), Some(WallpaperSource::File(10))));
    let below = dir(0, vec![sub("w", dir(1, vec![file("a.png", 10)]))]);
    assert!(find_wallpaper_source(&below).is_none());
}

#[test]
fn icon_theme_is_found_by_its_index() {
    let tree = dir(0, vec![sub("i", dir(4, vec![file("index.theme", 10)]))]);
    assert_eq!(find_icon_theme_dir(&tree).unwrap().handle, 4);
}

#[test]
fn single_files_are_told_by_kind_and_name() {
    assert!(is_single_file_component(Some("My.COLORS"), ComponentType::ColorScheme));
    assert!(is_single_file_component(Some("sky.JPeG"), ComponentType::Wallpaper));
    assert!(!is_single_file_component(Some("sky.jpeg"), ComponentType::ColorScheme));
    assert!(!is_single_file_component(Some("sky.zip"), ComponentType::Wallpaper));
    assert!(!is_single_file_component(Some("a.colors"), ComponentType::PlasmaWidget));
    assert!(!is_single_file_component(None, ComponentType::ColorScheme));
    assert!(!is_single_file_name("My.COLORS", ComponentType::ColorScheme));
}

// --- Plans ---

#[test]
fn destination_is_cleared_first() {
    let copy = || vec![FileOp::CopyFile(3)];
    assert_eq!(
        replace_destination(ABSENT, copy()),
        vec![FileOp::CreateParent, FileOp::CopyFile(3)]
    );
    let a_dir = Destination { exists: true, is_dir: true, has_parent: true };
    assert_eq!(
        replace_destination(a_dir, copy()),
        vec![FileOp::RemoveDir, FileOp::CreateParent, FileOp::CopyFile(3)]
    );
    let root_file = Destination { exists: true, is_dir: false, has_parent: false };
    assert_eq!(
        install_raw_file(3, root_file),
        vec![FileOp::RemoveFile, FileOp::CopyFile(3)]
    );
}

#[test]
fn direct_installation_copies_what_was_found() {
    let scheme = dir(0, vec![file("a.colors", 7)]);
    assert_eq!(
        install_direct(&scheme, ComponentType::ColorScheme, ABSENT).unwrap(),
        vec![FileOp::CreateParent, FileOp::CopyFile(7)]
    );
    let icons = dir(2, vec![file("index.theme", 7)]);
    assert_eq!(
        install_direct(&icons, ComponentType::IconTheme, ABSENT).unwrap(),
        vec![FileOp::CreateParent, FileOp::CreateDir, FileOp::CopyDir(2)]
    );
    let picture = dir(2, vec![file("a.svg", 7)]);
    assert_eq!(
        install_direct(&picture, ComponentType::Wallpaper, ABSENT).unwrap(),
        vec![FileOp::CreateParent, FileOp::CopyFile(7)]
    );
    let theme = dir(2, vec![file("metadata.json", 7)]);
    assert_eq!(
        install_direct(&theme, ComponentType::GlobalTheme, ABSENT).unwrap(),
        vec![FileOp::CreateParent, FileOp::CreateDir, FileOp::CopyDir(2)]
    );
}

#[test]
fn direct_installation_tells_what_is_missing() {
    let empty = dir(0, vec![]);
    let message = |kind: ComponentType| match install_direct(&empty, kind, ABSENT) {
        Err(Error::InstallFailed(message)) => message,
        other => panic!("unexpected {other:?}"),
    };
    assert_eq!(message(ComponentType::ColorScheme), "no color scheme file found in archive");
    assert_eq!(
        message(ComponentType::IconTheme),
        "no icon theme (index.theme) found in archive"
    );
    assert_eq!(message(ComponentType::Wallpaper), "no wallpaper found in archive");
    assert_eq!(
        message(ComponentType::PlasmaStyle),
        "no valid Plasma Style structure found in archive"
    );
    assert_eq!(message(ComponentType::PlasmaWidget), "Plasma Widget should use kpackagetool");
}

// --- Course of an update ---

/// Takes the actions of an update: each is answered by `answer`.
fn run(
    kind: ComponentType,
    answer: &dyn Fn(UpdateAction) -> UpdateEvent,
) -> (Vec<UpdateAction>, Result<(), Error>) {
    let mut run: UpdateRun = update_component(&available(kind));
    let mut actions = Vec::new();
    loop {
        let action = run.action();
        if action == UpdateAction::Finish {
            return (actions, run.result().unwrap());
        }
        actions.push(action);
        run = run.step(answer(action));
    }
}

fn downloaded(name: &str) -> UpdateEvent {
    UpdateEvent::Downloaded { file_name: Some(name.to_string()) }
}

#[test]
fn package_update_takes_its_course() {
    let (actions, result) = run(ComponentType::PlasmaWidget, &|action| match action {
        UpdateAction::Download => downloaded("w.plasmoid"),
        UpdateAction::FindMetadata => UpdateEvent::Found { json: true, desktop: true },
        _ => UpdateEvent::Done,
    });
    assert!(result.is_ok());
    assert_eq!(
        actions,
        vec![
            UpdateAction::Backup,
            UpdateAction::Report(1),
            UpdateAction::Download,
            UpdateAction::Report(2),
            UpdateAction::ClearExtractDir,
            UpdateAction::Extract,
            UpdateAction::RemoveDownload,
            UpdateAction::Report(3),
            UpdateAction::InstallPackage,
            UpdateAction::RemoveExtractDir,
            UpdateAction::FindMetadata,
            UpdateAction::PatchJson,
            UpdateAction::UpdateRegistry,
        ]
    );
}

#[test]
fn single_file_update_takes_its_course() {
    let (actions, result) = run(ComponentType::ColorScheme, &|action| match action {
        UpdateAction::Download => downloaded("Night.Colors"),
        UpdateAction::FindMetadata => UpdateEvent::Found { json: false, desktop: false },
        // What is only tidied up or noted may fail.
        UpdateAction::RemoveDownload | UpdateAction::UpdateRegistry => {
            UpdateEvent::Failed(Error::Io("gone".to_string()))
        }
        _ => UpdateEvent::Done,
    });
    assert!(result.is_ok());
    assert_eq!(
        actions,
        vec![
            UpdateAction::Backup,
            UpdateAction::Report(1),
            UpdateAction::Download,
            UpdateAction::Report(2),
            UpdateAction::Report(3),
            UpdateAction::InstallFile,
            UpdateAction::RemoveDownload,
            UpdateAction::FindMetadata,
            UpdateAction::UpdateRegistry,
        ]
    );
}

#[test]
fn desktop_metadata_is_patched_where_there_is_no_json() {
    let (actions, result) = run(ComponentType::GlobalTheme, &|action| match action {
        UpdateAction::Download => UpdateEvent::Downloaded { file_name: None },
        UpdateAction::FindMetadata => UpdateEvent::Found { json: false, desktop: true },
        UpdateAction::PatchDesktop => UpdateEvent::Failed(Error::Io("denied".to_string())),
        _ => UpdateEvent::Done,
    });
    assert!(result.is_ok());
    assert!(actions.contains(&UpdateAction::InstallDirect));
    assert!(actions.contains(&UpdateAction::PatchDesktop));
}

#[test]
fn failed_backup_ends_the_update() {
    let (actions, result) = run(ComponentType::PlasmaWidget, &|_| {
        UpdateEvent::Failed(Error::Io("full".to_string()))
    });
    assert_eq!(actions, vec![UpdateAction::Backup]);
    assert!(matches!(result, Err(Error::Io(m)) if m == "full"));
}

#[test]
fn failed_update_is_rolled_back() {
    for failing in [
        UpdateAction::Download,
        UpdateAction::ClearExtractDir,
        UpdateAction::Extract,
        UpdateAction::InstallPackage,
    ] {
        let (actions, result) = run(ComponentType::PlasmaWidget, &|action| {
            if action == failing {
                UpdateEvent::Failed(Error::install("broken".to_string()))
            } else if action == UpdateAction::Download {
                downloaded("w.zip")
            } else {
                UpdateEvent::Done
            }
        });
        assert_eq!(actions.first(), Some(&UpdateAction::Backup));
        assert_eq!(actions.last(), Some(&UpdateAction::Restore));
        assert_eq!(
            actions.contains(&UpdateAction::RemoveExtractDir),
            failing == UpdateAction::InstallPackage
        );
        assert!(matches!(result, Err(Error::InstallFailed(m)) if m == "broken"));
        let removed = actions.contains(&UpdateAction::RemoveDownload);
        assert_eq!(
            removed,
            failing == UpdateAction::Extract || failing == UpdateAction::InstallPackage
        );
    }
}

#[test]
fn failed_update_leaves_the_component_as_it_was() {
    let place = std::cell::RefCell::new("old".to_string());
    let backup = std::cell::RefCell::new(None);
    let (_, result) = run(ComponentType::ColorScheme, &|action| match action {
        UpdateAction::Backup => {
            *backup.borrow_mut() = Some(place.borrow().clone());
            UpdateEvent::Done
        }
        UpdateAction::Download => downloaded("a.colors"),
        UpdateAction::InstallFile => {
            *place.borrow_mut() = "half".to_string();
            UpdateEvent::Failed(Error::install("broken".to_string()))
        }
        UpdateAction::Restore => {
            *place.borrow_mut() = backup.borrow().clone().unwrap();
            UpdateEvent::Done
        }
        _ => UpdateEvent::Done,
    });
    assert!(result.is_err());
    assert_eq!(*place.borrow(), "old");
}

#[test]
fn failed_restore_is_told() {
    let (_, result) = run(ComponentType::Wallpaper, &|action| match action {
        UpdateAction::Download => downloaded("a.png"),
        UpdateAction::InstallFile => UpdateEvent::Failed(Error::install("broken".to_string())),
        UpdateAction::Restore => UpdateEvent::RestoreFailed { cause: "denied".to_string() },
        _ => UpdateEvent::Done,
    });
    assert!(matches!(
        result,
        Err(Error::Other(m)) if m == "installation failed and restore failed: denied"
    ));
}
