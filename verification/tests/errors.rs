use libplasmoid_updater::Error;

#[test]
fn errors_are_shown() {
    let m = || "m".to_string();
    let shown = [
        (Error::UnsupportedOS, "only Linux is supported"),
        (Error::NotKDE, "KDE Plasma was not detected"),
        (Error::MetadataNotFound, "no metadata found in package"),
        (Error::MetadataParse(m()), "failed to parse metadata: m"),
        (Error::InstallFailed(m()), "installation failed: m"),
        (Error::DownloadFailed(m()), "download failed: m"),
        (Error::ComponentNotFound(m()), "component not found: m"),
        (Error::RateLimited, "rate limited by the KDE Store"),
        (Error::Network(m()), "network error: m"),
        (Error::Io(m()), "I/O error: m"),
        (Error::Other(m()), "m"),
    ];
    for (error, text) in shown {
        assert_eq!(error.text(), text);
    }
}
