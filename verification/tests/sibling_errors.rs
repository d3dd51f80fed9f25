use libplasmoid_updater::installer::install::{
    finish_via_kpackage, install_via_kpackagetool, is_sibling_kpackage_structure_error,
    kpackagetool_failed, kpackagetool_not_run, kpackagetool_result,
};
use libplasmoid_updater::{ComponentType, Error};

#[test]
fn sibling_error_detected_single_line() {
    let err = Error::install(
        "kpackagetool6 failed: Package type \"Plasma/Applet\" does not match requested format"
            .to_string(),
    );
    assert!(is_sibling_kpackage_structure_error(&err));
}

#[test]
fn sibling_error_detected_multi_line() {
    let err = Error::install(
        "kpackagetool6 failed: \
         Package type \"KWin/Script\" does not match requested format\n\
         Package type \"Plasma/Applet\" does not match requested format"
            .to_string(),
    );
    assert!(is_sibling_kpackage_structure_error(&err));
}

#[test]
fn sibling_error_not_detected_for_other_errors() {
    let err = Error::install("kpackagetool6 failed: some other error".to_string());
    assert!(!is_sibling_kpackage_structure_error(&err));
}

#[test]
fn sibling_error_not_detected_for_mixed_output() {
    // When kpackagetool6 output contains BOTH a KPackageStructure line AND
    // an unrelated error, we should NOT identify this as a sibling-only error.
    let err = Error::install(
        "kpackagetool6 failed: \
         Package type \"Plasma/Applet\" does not match requested format\n\
         Error: Could not install package"
            .to_string(),
    );
    assert!(!is_sibling_kpackage_structure_error(&err));
}

#[test]
fn sibling_error_not_detected_for_empty_body() {
    let err = Error::install("kpackagetool6 failed: ".to_string());
    assert!(!is_sibling_kpackage_structure_error(&err));
}

#[test]
fn sibling_error_not_detected_for_wrong_variant() {
    let err = Error::DownloadFailed("does not match requested format".to_string());
    assert!(!is_sibling_kpackage_structure_error(&err));
}

#[test]
fn blank_lines_between_complaints_do_not_count() {
    let err = Error::install(
        "a does not match requested format\r\n   \n\tb does not match requested format\n"
            .to_string(),
    );
    assert!(is_sibling_kpackage_structure_error(&err));
}

#[test]
fn only_blank_lines_are_no_complaint() {
    let err = Error::install("kpackagetool6 failed: \n \u{3000}\n".to_string());
    assert!(!is_sibling_kpackage_structure_error(&err));
}

fn install_message(error: Error) -> String {
    match error {
        Error::InstallFailed(message) => message,
        other => panic!("unexpected error {other:?}"),
    }
}

#[test]
fn tool_output_is_put_together() {
    assert_eq!(
        install_message(kpackagetool_failed(" out \n", "\nerr\t")),
        "kpackagetool6 failed: out\nerr"
    );
    assert_eq!(install_message(kpackagetool_failed("out", " ")), "kpackagetool6 failed: out");
    assert_eq!(install_message(kpackagetool_failed("\n", "err")), "kpackagetool6 failed: err");
    assert_eq!(
        install_message(kpackagetool_failed("", "")),
        "kpackagetool6 failed: (no output)"
    );
}

#[test]
fn tool_bytes_are_read_leniently() {
    assert!(kpackagetool_result(true, &b"whatever".to_vec(), &Vec::new()).is_ok());
    let error = kpackagetool_result(false, &vec![b'a', 0xff, b'b'], &b"c".to_vec()).unwrap_err();
    assert_eq!(install_message(error), "kpackagetool6 failed: a\u{fffd}b\nc");
}

#[test]
fn tool_that_does_not_run_is_an_install_error() {
    assert_eq!(
        install_message(kpackagetool_not_run("no such file")),
        "failed to run kpackagetool6: no such file"
    );
}

#[test]
fn tool_is_called_for_the_user() {
    let command =
        install_via_kpackagetool("/tmp/pkg", ComponentType::PlasmaWidget, false).unwrap();
    assert!(!command.privileged);
    assert_eq!(command.args, vec!["-t", "Plasma/Applet", "-u", "/tmp/pkg"]);
}

#[test]
fn tool_is_called_for_the_system() {
    let command = install_via_kpackagetool("/tmp/pkg", ComponentType::KWinScript, true).unwrap();
    assert!(command.privileged);
    assert_eq!(command.args, vec!["-t", "KWin/Script", "--global", "-u", "/tmp/pkg"]);
}

#[test]
fn tool_is_not_called_for_other_kinds() {
    let error =
        install_via_kpackagetool("/tmp/pkg", ComponentType::ColorScheme, false).unwrap_err();
    assert_eq!(install_message(error), "Color Scheme has no kpackage type");
}

#[test]
fn sibling_error_is_explained() {
    let output = "kpackagetool6 failed: x does not match requested format";
    let error = finish_via_kpackage(Err(Error::install(output.to_string()))).unwrap_err();
    let message = install_message(error);
    assert!(message.starts_with(
        "update blocked: one or more installed plasmoids in your plasma install \
         directory have a missing or incorrect KPackageStructure field in their \
         metadata.json. kpackagetool6 validates all packages in the same directory \
         and rejects updates when any of them are malformed. \
         Run 'plasmoid-updater repair' to add the missing field to affected \
         packages, then retry the update.\n\
         kpackagetool6 output: "
    ));
    assert!(message.ends_with(output));
}

#[test]
fn other_outcomes_of_the_tool_stay() {
    assert!(finish_via_kpackage(Ok(())).is_ok());
    assert!(matches!(
        finish_via_kpackage(Err(Error::MetadataNotFound)),
        Err(Error::MetadataNotFound)
    ));
    let error = finish_via_kpackage(Err(Error::install("broken".to_string()))).unwrap_err();
    assert_eq!(install_message(error), "broken");
}
