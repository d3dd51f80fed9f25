use std::path::PathBuf;

use libplasmoid_updater::installer::repair::{
    needs_metadata, repair_component, repair_kpackage_structures, repair_outcome, MetadataFile,
    RepairOutcome, RepairStep,
};
use libplasmoid_updater::metadata::{
    add_kpackage_structure_if_missing, patch_metadata_desktop, structure_is_missing,
    try_add_kpackage_structure, try_patch_metadata, StructureField,
};
use libplasmoid_updater::{ComponentType, Error, InstalledComponent};

fn make_component(name: &str, path: &str, ct: ComponentType) -> InstalledComponent {
    InstalledComponent {
        name: name.to_string(),
        directory_name: name.to_string(),
        version: "1.0".to_string(),
        component_type: ct,
        path: PathBuf::from(path),
        is_system: false,
        release_date: String::new(),
    }
}

fn json(text: &str) -> serde_json::Value {
    serde_json::from_str(text).unwrap()
}

/// Repairs one component, and gives back the text that was written.
fn repair(
    component: InstalledComponent,
    file: MetadataFile,
) -> (Vec<String>, Vec<(String, String)>, Option<String>) {
    let path = component.path.join("metadata.json").display().to_string();
    let step = repair_component(&component, file).unwrap();
    let written = match &step {
        RepairStep::Write(text) => Some(text.clone()),
        _ => None,
    };
    let outcome = repair_outcome(step, Ok(()), path);
    let (patched, errors) = repair_kpackage_structures(&vec![component], &vec![outcome]);
    (patched, errors, written)
}

// --- add_kpackage_structure_if_missing ---

#[test]
fn adds_kpackage_structure_when_absent() {
    let patched =
        add_kpackage_structure_if_missing(r#"{"KPlugin": {"Name": "Test"}}"#, "Plasma/Applet")
            .unwrap();
    assert!(patched.is_some());

    let json = json(&patched.unwrap());
    assert_eq!(json["KPackageStructure"].as_str(), Some("Plasma/Applet"));
    assert_eq!(json["KPlugin"]["Name"].as_str(), Some("Test"));
}

#[test]
fn adds_kpackage_structure_when_empty() {
    let patched =
        add_kpackage_structure_if_missing(r#"{"KPackageStructure": ""}"#, "Plasma/Applet").unwrap();
    assert!(patched.is_some());
}

#[test]
fn skips_when_kpackage_structure_already_present() {
    let patched = add_kpackage_structure_if_missing(
        r#"{"KPackageStructure": "Plasma/Applet"}"#,
        "Plasma/Applet",
    )
    .unwrap();
    assert!(patched.is_none());
}

#[test]
fn skips_when_different_kpackage_structure_already_present() {
    // An existing (even "wrong") value should never be overwritten in repair mode.
    let patched = add_kpackage_structure_if_missing(
        r#"{"KPackageStructure": "KWin/Script"}"#,
        "Plasma/Applet",
    )
    .unwrap();
    assert!(patched.is_none());
}

#[test]
fn structure_that_is_no_text_is_kept() {
    for content in [
        r#"{"KPackageStructure": 5}"#,
        r#"{"KPackageStructure": false}"#,
        r#"{"KPackageStructure": ["Plasma/Applet"]}"#,
    ] {
        assert!(matches!(
            add_kpackage_structure_if_missing(content, "Plasma/Applet"),
            Ok(None)
        ));
    }
}

#[test]
fn structure_that_is_null_is_replaced() {
    let text = add_kpackage_structure_if_missing(r#"{"KPackageStructure": null}"#, "KWin/Effect")
        .unwrap()
        .unwrap();
    assert_eq!(text, "{\n  \"KPackageStructure\": \"KWin/Effect\"\n}");
}

#[test]
fn null_becomes_an_object() {
    let text = add_kpackage_structure_if_missing("null", "KWin/Effect").unwrap().unwrap();
    assert_eq!(text, "{\n  \"KPackageStructure\": \"KWin/Effect\"\n}");
}

#[test]
fn text_that_is_no_json_cannot_be_repaired() {
    assert!(matches!(
        add_kpackage_structure_if_missing("{", "Plasma/Applet"),
        Err(Error::MetadataParse(message)) if message.contains("EOF while parsing")
    ));
}

#[test]
fn list_has_no_place_for_a_structure() {
    assert!(try_add_kpackage_structure("[1]", "Plasma/Applet").is_none());
    assert!(matches!(
        try_add_kpackage_structure("{}", "Plasma/Applet"),
        Some(Ok(Some(_)))
    ));
}

#[test]
fn repaired_text_needs_no_second_repair() {
    let text = add_kpackage_structure_if_missing(r#"{"a": [1, {"b": "c"}]}"#, "Plasma/Applet")
        .unwrap()
        .unwrap();
    assert!(matches!(
        add_kpackage_structure_if_missing(&text, "KWin/Script"),
        Ok(None)
    ));
    assert_eq!(json(&text)["a"][1]["b"].as_str(), Some("c"));
}

#[test]
fn missing_structures_are_told_from_present_ones() {
    assert!(structure_is_missing(StructureField::Absent));
    assert!(structure_is_missing(StructureField::Null));
    assert!(!structure_is_missing(StructureField::Other));
    assert!(structure_is_missing(StructureField::Text("")));
    assert!(!structure_is_missing(StructureField::Text("x")));
}

// --- repair_kpackage_structures ---

#[test]
fn repair_patches_components_missing_field() {
    // PlasmaWidget with missing KPackageStructure
    let component = make_component("My Widget", "/w/my.widget", ComponentType::PlasmaWidget);
    let (patched, errors, written) = repair(
        component,
        MetadataFile::Text(r#"{"KPlugin": {"Name": "My Widget", "Version": "1.0"}}"#.to_string()),
    );

    assert_eq!(patched, vec!["My Widget"]);
    assert!(errors.is_empty());

    let json = json(&written.unwrap());
    assert_eq!(json["KPackageStructure"].as_str(), Some("Plasma/Applet"));
}

#[test]
fn repair_skips_non_kpackage_components() {
    // ColorScheme has no kpackage_type(), should be skipped entirely.
    let component = make_component("MyTheme", "/c", ComponentType::ColorScheme);
    assert!(!needs_metadata(&component));
    let (patched, errors, written) = repair(component, MetadataFile::Text("{}".to_string()));

    assert!(patched.is_empty());
    assert!(errors.is_empty());
    assert!(written.is_none());
}

#[test]
fn repair_skips_component_with_no_metadata_json() {
    let component = make_component("NoMeta", "/w/no.metadata", ComponentType::PlasmaWidget);
    assert!(needs_metadata(&component));
    let (patched, errors, written) = repair(component, MetadataFile::Missing);

    assert!(patched.is_empty());
    assert!(errors.is_empty());
    assert!(written.is_none());
}

#[test]
fn repair_does_not_overwrite_existing_value() {
    let component = make_component("HasField", "/w/has.field", ComponentType::PlasmaWidget);
    let (patched, errors, written) = repair(
        component,
        MetadataFile::Text(r#"{"KPackageStructure": "Plasma/Applet"}"#.to_string()),
    );

    assert!(patched.is_empty());
    assert!(errors.is_empty());
    assert!(written.is_none());
}

#[test]
fn repair_tells_what_failed_in_order() {
    let components = vec![
        make_component("a", "/a", ComponentType::KWinScript),
        make_component("b", "/b", ComponentType::IconTheme),
        make_component("c", "/c", ComponentType::KWinEffect),
        make_component("d", "/d", ComponentType::WallpaperPlugin),
    ];
    let failed = |path: &str| RepairOutcome::Failed {
        path: path.to_string(),
        cause: "denied".to_string(),
    };
    let outcomes = vec![
        failed("/a/metadata.json"),
        failed("/b/metadata.json"),
        RepairOutcome::Patched,
        failed("/d/metadata.json"),
    ];
    let (patched, errors) = repair_kpackage_structures(&components, &outcomes);
    assert_eq!(patched, vec!["c"]);
    assert_eq!(
        errors,
        vec![
            ("a".to_string(), "failed to patch /a/metadata.json: denied".to_string()),
            ("d".to_string(), "failed to patch /d/metadata.json: denied".to_string()),
        ]
    );
}

#[test]
fn repair_reports_unreadable_files() {
    let component = make_component("w", "/w", ComponentType::PlasmaWidget);
    let (patched, errors, _) =
        repair(component, MetadataFile::Unreadable(Error::Io("denied".to_string())));
    assert!(patched.is_empty());
    assert_eq!(errors[0].1, "failed to patch /w/metadata.json: I/O error: denied");
}

#[test]
fn repair_tells_what_could_not_be_written() {
    let step = || RepairStep::Write("{}".to_string());
    let path = || "/w/metadata.json".to_string();
    assert!(matches!(repair_outcome(step(), Ok(()), path()), RepairOutcome::Patched));
    assert!(matches!(
        repair_outcome(step(), Err(Error::Io("denied".to_string())), path()),
        RepairOutcome::Failed { path, cause }
            if path == "/w/metadata.json" && cause == "I/O error: denied"
    ));
    let denied = || Err(Error::Io("denied".to_string()));
    assert!(matches!(repair_outcome(RepairStep::Keep, denied(), path()), RepairOutcome::Unchanged));
    assert!(matches!(repair_outcome(RepairStep::Skip, denied(), path()), RepairOutcome::Unchanged));
}

#[test]
fn second_repair_does_nothing() {
    let component = || make_component("w", "/w", ComponentType::PlasmaWidget);
    let (patched, errors, written) =
        repair(component(), MetadataFile::Text(r#"{"a": "b"}"#.to_string()));
    assert_eq!((patched.len(), errors.len()), (1, 0));
    let (patched, errors, again) = repair(component(), MetadataFile::Text(written.unwrap()));
    assert_eq!((patched.len(), errors.len()), (0, 0));
    assert!(again.is_none());
}

#[test]
fn repaired_text_is_read_again_with_numbers_at_the_edge() {
    for number in [
        "1.7976931348623157e308",
        "-1.7976931348623157e308",
        "1.7976931348623155e308",
        "5e-324",
        "2.2250738585072014e-308",
        "18446744073709551615",
        "18446744073709551616",
        "-9223372036854775808",
        "123456789012345678901234567890",
        "-0.0",
    ] {
        let text = add_kpackage_structure_if_missing(
            &format!("{{\"n\": [{number}], \"s\": \"\\u0000\\u007f\\ud83d\\ude00\\\"\"}}"),
            "Plasma/Applet",
        )
        .unwrap()
        .unwrap();
        assert!(matches!(
            add_kpackage_structure_if_missing(&text, "Plasma/Applet"),
            Ok(None)
        ));
        assert_eq!(json(&text)["s"].as_str(), Some("\0\u{7f}\u{1f600}\""));
    }
}

#[test]
fn repair_of_a_list_is_not_decided() {
    let component = make_component("w", "/w", ComponentType::PlasmaWidget);
    assert!(repair_component(&component, MetadataFile::Text("[]".to_string())).is_none());
}

// --- patch_metadata ---

#[test]
fn patch_sets_structure_and_version() {
    let text = try_patch_metadata(
        r#"{"KPlugin": {"Name": "T", "Version": "1.0"}, "X": "y"}"#,
        ComponentType::KWinSwitcher,
        "2.5",
    )
    .unwrap()
    .unwrap();
    let json = json(&text);
    assert_eq!(json["KPackageStructure"].as_str(), Some("KWin/WindowSwitcher"));
    assert_eq!(json["KPlugin"]["Version"].as_str(), Some("2.5"));
    assert_eq!(json["KPlugin"]["Name"].as_str(), Some("T"));
    assert_eq!(json["X"].as_str(), Some("y"));
}

#[test]
fn patch_is_idempotent() {
    let once = try_patch_metadata(r#"{"KPlugin": {}}"#, ComponentType::PlasmaWidget, "3")
        .unwrap()
        .unwrap();
    let twice = try_patch_metadata(&once, ComponentType::PlasmaWidget, "3").unwrap().unwrap();
    assert_eq!(once, twice);
}

#[test]
fn patch_leaves_the_structure_of_other_kinds_alone() {
    let text = try_patch_metadata(r#"{"KPlugin": null}"#, ComponentType::GlobalTheme, "3")
        .unwrap()
        .unwrap();
    assert_eq!(text, "{\n  \"KPlugin\": {\n    \"Version\": \"3\"\n  }\n}");
    let text = try_patch_metadata("[]", ComponentType::GlobalTheme, "3").unwrap().unwrap();
    assert_eq!(text, "[]");
}

#[test]
fn patch_refuses_what_it_cannot_set() {
    assert!(try_patch_metadata("[]", ComponentType::PlasmaWidget, "3").is_none());
    assert!(try_patch_metadata(r#"{"KPlugin": 1}"#, ComponentType::GlobalTheme, "3").is_none());
    assert!(matches!(
        try_patch_metadata("nonsense", ComponentType::PlasmaWidget, "3"),
        Some(Err(Error::MetadataParse(_)))
    ));
}

// --- patch_metadata_desktop ---

#[test]
fn desktop_patch_replaces_the_version() {
    let content = "[Desktop Entry]\nX-KDE-PluginInfo-Version=1.0\nName=T\n";
    assert_eq!(
        patch_metadata_desktop(content, "2.0").unwrap(),
        "[Desktop Entry]\nX-KDE-PluginInfo-Version=2.0\nName=T\n"
    );
}

#[test]
fn desktop_patch_keeps_a_missing_line_feed_missing() {
    assert_eq!(
        patch_metadata_desktop("a=1\r\nX-KDE-PluginInfo-Version=", "2").unwrap(),
        "a=1\nX-KDE-PluginInfo-Version=2"
    );
}

#[test]
fn desktop_patch_needs_a_version_line() {
    assert!(patch_metadata_desktop("X-KDE-PluginInfo-Vers=1\n", "2").is_none());
    assert!(patch_metadata_desktop("", "2").is_none());
    assert!(patch_metadata_desktop(" X-KDE-PluginInfo-Version=1\n", "2").is_none());
}

#[test]
fn desktop_patch_is_idempotent() {
    let once = patch_metadata_desktop("X-KDE-PluginInfo-Version=1\nb\n", "9").unwrap();
    assert_eq!(patch_metadata_desktop(&once, "9").unwrap(), once);
}

#[test]
fn desktop_patch_swallows_one_of_two_empty_last_lines() {
    assert_eq!(
        patch_metadata_desktop("X-KDE-PluginInfo-Version=1\n\n\n", "1").unwrap(),
        "X-KDE-PluginInfo-Version=1\n\n"
    );
}
