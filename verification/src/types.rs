//! The components that Plasma can have installed, and the updates found for them.

use std::path::PathBuf;
use vstd::prelude::*;

verus! {

/// `std::path::PathBuf`, a path. The library hands it on and does not look into it.
#[verifier::external_type_specification]
#[verifier::external_body]
pub struct ExPathBuf(std::path::PathBuf);

/// The `clone` of `std::path::PathBuf` gives the same path.
pub assume_specification[ <std::path::PathBuf as std::clone::Clone>::clone ](
    path: &std::path::PathBuf,
) -> (copy: std::path::PathBuf)
    ensures
        copy == *path,
;

/// The kinds of component that the KDE Store offers for Plasma.
#[derive(Debug, Clone, Copy, PartialEq, Eq, Structural)]
pub enum ComponentType {
    PlasmaWidget,
    WallpaperPlugin,
    KWinEffect,
    KWinScript,
    KWinSwitcher,
    GlobalTheme,
    PlasmaStyle,
    ColorScheme,
    SplashScreen,
    IconTheme,
    Wallpaper,
    AuroraeDecoration,
    SddmTheme,
}

/// The package structure under which `kpackagetool6` installs a component, where it does.
pub open spec fn package_structure(t: ComponentType) -> Option<Seq<char>> {
    match t {
        ComponentType::PlasmaWidget => Some("Plasma/Applet"@),
        ComponentType::WallpaperPlugin => Some("Plasma/Wallpaper"@),
        ComponentType::KWinEffect => Some("KWin/Effect"@),
        ComponentType::KWinScript => Some("KWin/Script"@),
        ComponentType::KWinSwitcher => Some("KWin/WindowSwitcher"@),
        _ => None,
    }
}

/// The name of a kind of component, as messages show it.
pub open spec fn type_label(t: ComponentType) -> Seq<char> {
    match t {
        ComponentType::PlasmaWidget => "Plasma Widget"@,
        ComponentType::WallpaperPlugin => "Wallpaper Plugin"@,
        ComponentType::KWinEffect => "KWin Effect"@,
        ComponentType::KWinScript => "KWin Script"@,
        ComponentType::KWinSwitcher => "KWin Switcher"@,
        ComponentType::GlobalTheme => "Global Theme"@,
        ComponentType::PlasmaStyle => "Plasma Style"@,
        ComponentType::ColorScheme => "Color Scheme"@,
        ComponentType::SplashScreen => "Splash Screen"@,
        ComponentType::IconTheme => "Icon Theme"@,
        ComponentType::Wallpaper => "Wallpaper"@,
        ComponentType::AuroraeDecoration => "Aurorae Decoration"@,
        ComponentType::SddmTheme => "SDDM Theme"@,
    }
}

impl ComponentType {
    /// The package structure that `kpackagetool6` knows this kind by, `None` for a kind that is
    /// installed by copying files.
    pub fn kpackage_type(self) -> (r: Option<&'static str>)
        ensures
            match r {
                Some(s) => package_structure(self) == Some(s@),
                None => package_structure(self) is None,
            },
    {
        match self {
            ComponentType::PlasmaWidget => Some("Plasma/Applet"),
            ComponentType::WallpaperPlugin => Some("Plasma/Wallpaper"),
            ComponentType::KWinEffect => Some("KWin/Effect"),
            ComponentType::KWinScript => Some("KWin/Script"),
            ComponentType::KWinSwitcher => Some("KWin/WindowSwitcher"),
            _ => None,
        }
    }

    pub fn label(self) -> (r: &'static str)
        ensures
            r@ == type_label(self),
    {
        match self {
            ComponentType::PlasmaWidget => "Plasma Widget",
            ComponentType::WallpaperPlugin => "Wallpaper Plugin",
            ComponentType::KWinEffect => "KWin Effect",
            ComponentType::KWinScript => "KWin Script",
            ComponentType::KWinSwitcher => "KWin Switcher",
            ComponentType::GlobalTheme => "Global Theme",
            ComponentType::PlasmaStyle => "Plasma Style",
            ComponentType::ColorScheme => "Color Scheme",
            ComponentType::SplashScreen => "Splash Screen",
            ComponentType::IconTheme => "Icon Theme",
            ComponentType::Wallpaper => "Wallpaper",
            ComponentType::AuroraeDecoration => "Aurorae Decoration",
            ComponentType::SddmTheme => "SDDM Theme",
        }
    }
}

/// A component that was found on this machine.
#[derive(Debug, Clone)]
pub struct InstalledComponent {
    pub name: String,
    pub directory_name: String,
    pub version: String,
    pub component_type: ComponentType,
    /// Where it is installed.
    pub path: PathBuf,
    pub is_system: bool,
    pub release_date: String,
}

/// A newer version that the store offers of an installed component.
#[derive(Debug, Clone)]
pub struct AvailableUpdate {
    pub installed: InstalledComponent,
    pub latest_version: String,
    pub download_url: String,
    pub checksum: Option<String>,
}

/// A component that could not be checked, with the reason.
#[derive(Debug, Clone)]
pub struct Diagnostic {
    pub name: String,
    pub reason: String,
}

/// What a check against the store found.
#[derive(Debug, Clone)]
pub struct UpdateCheckResult {
    pub updates: Vec<AvailableUpdate>,
    /// Components that could not be matched with a store entry.
    pub unresolved: Vec<Diagnostic>,
    /// Components whose store entry could not be checked.
    pub check_failures: Vec<Diagnostic>,
}

/// The tool installs widgets, wallpaper plugins, and effects, scripts and switchers of the window
/// manager, and no other kind. It knows each by a structure of its own, which names the part of the
/// desktop that it belongs to.
pub proof fn law_which_kinds_are_packages(t: ComponentType, other: ComponentType)
    ensures
        package_structure(t) is Some <==> t is PlasmaWidget || t is WallpaperPlugin || t
            is KWinEffect || t is KWinScript || t is KWinSwitcher,
        t is PlasmaWidget ==> package_structure(t) == Some("Plasma/Applet"@),
        t is WallpaperPlugin ==> package_structure(t) == Some("Plasma/Wallpaper"@),
        t is KWinEffect ==> package_structure(t) == Some("KWin/Effect"@),
        t is KWinScript ==> package_structure(t) == Some("KWin/Script"@),
        t is KWinSwitcher ==> package_structure(t) == Some("KWin/WindowSwitcher"@),
        package_structure(t) is Some && package_structure(t) == package_structure(other) ==> t
            == other,
{
    reveal_strlit("Plasma/Applet");
    reveal_strlit("Plasma/Wallpaper");
    reveal_strlit("KWin/Effect");
    reveal_strlit("KWin/Script");
    reveal_strlit("KWin/WindowSwitcher");
    if package_structure(t) is Some && package_structure(t) == package_structure(other) {
        let one = package_structure(t)->0;
        let two = package_structure(other)->0;
        assert(one.len() == two.len());
        assert(one[5] == two[5]);
    }
}

proof fn lemma_names_differ(t: ComponentType, other: ComponentType)
    ensures
        type_label(t) == type_label(other) ==> t == other,
{
    reveal_strlit("Plasma Widget");
    reveal_strlit("Wallpaper Plugin");
    reveal_strlit("KWin Effect");
    reveal_strlit("KWin Script");
    reveal_strlit("KWin Switcher");
    reveal_strlit("Global Theme");
    reveal_strlit("Plasma Style");
    reveal_strlit("Color Scheme");
    reveal_strlit("Splash Screen");
    reveal_strlit("Icon Theme");
    reveal_strlit("Wallpaper");
    reveal_strlit("Aurorae Decoration");
    reveal_strlit("SDDM Theme");
    if type_label(t) == type_label(other) {
        assert(type_label(t).len() == type_label(other).len());
        assert(type_label(t)[0] == type_label(other)[0]);
        assert(type_label(t)[5] == type_label(other)[5]);
        assert(type_label(t)[6] == type_label(other)[6]);
        assert(type_label(t)[7] == type_label(other)[7]);
    }
}

/// Each kind has a name by which it is told from every other.
pub proof fn law_kinds_are_told_apart_by_name(t: ComponentType, other: ComponentType)
    ensures
        type_label(t) == type_label(other) <==> t == other,
        type_label(t) == "Plasma Widget"@ <==> t is PlasmaWidget,
        type_label(t) == "Wallpaper Plugin"@ <==> t is WallpaperPlugin,
        type_label(t) == "KWin Effect"@ <==> t is KWinEffect,
        type_label(t) == "KWin Script"@ <==> t is KWinScript,
        type_label(t) == "KWin Switcher"@ <==> t is KWinSwitcher,
        type_label(t) == "Global Theme"@ <==> t is GlobalTheme,
        type_label(t) == "Plasma Style"@ <==> t is PlasmaStyle,
        type_label(t) == "Color Scheme"@ <==> t is ColorScheme,
        type_label(t) == "Splash Screen"@ <==> t is SplashScreen,
        type_label(t) == "Icon Theme"@ <==> t is IconTheme,
        type_label(t) == "Wallpaper"@ <==> t is Wallpaper,
        type_label(t) == "Aurorae Decoration"@ <==> t is AuroraeDecoration,
        type_label(t) == "SDDM Theme"@ <==> t is SddmTheme,
{
    reveal_strlit("Plasma Widget");
    reveal_strlit("Wallpaper Plugin");
    reveal_strlit("KWin Effect");
    reveal_strlit("KWin Script");
    reveal_strlit("KWin Switcher");
    reveal_strlit("Global Theme");
    reveal_strlit("Plasma Style");
    reveal_strlit("Color Scheme");
    reveal_strlit("Splash Screen");
    reveal_strlit("Icon Theme");
    reveal_strlit("Wallpaper");
    reveal_strlit("Aurorae Decoration");
    reveal_strlit("SDDM Theme");
    lemma_names_differ(t, other);
    lemma_names_differ(t, ComponentType::PlasmaWidget);
    lemma_names_differ(t, ComponentType::WallpaperPlugin);
    lemma_names_differ(t, ComponentType::KWinEffect);
    lemma_names_differ(t, ComponentType::KWinScript);
    lemma_names_differ(t, ComponentType::KWinSwitcher);
    lemma_names_differ(t, ComponentType::GlobalTheme);
    lemma_names_differ(t, ComponentType::PlasmaStyle);
    lemma_names_differ(t, ComponentType::ColorScheme);
    lemma_names_differ(t, ComponentType::SplashScreen);
    lemma_names_differ(t, ComponentType::IconTheme);
    lemma_names_differ(t, ComponentType::Wallpaper);
    lemma_names_differ(t, ComponentType::AuroraeDecoration);
    lemma_names_differ(t, ComponentType::SddmTheme);
}

} // verus!
