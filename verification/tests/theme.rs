use markview::theme::{
    background_color, is_dark_for_pref, AppearanceMode, BackgroundColor, MODE_DEFAULT,
    MODE_FORCE_DARK, MODE_FORCE_LIGHT,
};

#[test]
fn force_dark_is_dark_whatever_the_system() {
    assert!(is_dark_for_pref("force-dark", true));
    assert!(is_dark_for_pref("force-dark", false));
}

#[test]
fn force_light_is_light_whatever_the_system() {
    assert!(!is_dark_for_pref("force-light", true));
    assert!(!is_dark_for_pref("force-light", false));
}

#[test]
fn other_values_follow_the_system() {
    for value in ["default", "", "Force-Dark", "force-dark ", "dark", "force_light", "\u{e9}"] {
        assert!(is_dark_for_pref(value, true));
        assert!(!is_dark_for_pref(value, false));
    }
}

#[test]
fn mode_texts() {
    assert_eq!(MODE_FORCE_DARK, "force-dark");
    assert_eq!(MODE_FORCE_LIGHT, "force-light");
    assert_eq!(MODE_DEFAULT, "default");
    assert_eq!(AppearanceMode::ForceDark.as_pref(), "force-dark");
    assert_eq!(AppearanceMode::ForceLight.as_pref(), "force-light");
    assert_eq!(AppearanceMode::SystemDefault.as_pref(), "default");
}

#[test]
fn mode_survives_storing_and_listing() {
    for mode in [AppearanceMode::SystemDefault, AppearanceMode::ForceDark, AppearanceMode::ForceLight] {
        assert_eq!(AppearanceMode::from_pref(mode.as_pref()), mode);
        assert_eq!(AppearanceMode::from_index(mode.index()), mode);
    }
}

#[test]
fn list_positions() {
    assert_eq!(AppearanceMode::SystemDefault.index(), 0);
    assert_eq!(AppearanceMode::ForceDark.index(), 1);
    assert_eq!(AppearanceMode::ForceLight.index(), 2);
    assert_eq!(AppearanceMode::from_index(0), AppearanceMode::SystemDefault);
    assert_eq!(AppearanceMode::from_index(3), AppearanceMode::SystemDefault);
    assert_eq!(AppearanceMode::from_index(u32::MAX), AppearanceMode::SystemDefault);
}

#[test]
fn only_forced_modes_are_forced() {
    assert!(!AppearanceMode::SystemDefault.is_forced());
    assert!(AppearanceMode::ForceDark.is_forced());
    assert!(AppearanceMode::ForceLight.is_forced());
}

#[test]
fn resolve_dark_by_mode() {
    assert!(AppearanceMode::SystemDefault.resolve_dark(true));
    assert!(!AppearanceMode::SystemDefault.resolve_dark(false));
    assert!(AppearanceMode::ForceDark.resolve_dark(false));
    assert!(!AppearanceMode::ForceLight.resolve_dark(true));
}

#[test]
fn background_colours() {
    assert_eq!(background_color(true), BackgroundColor { red: 102, green: 102, blue: 102 });
    assert_eq!(background_color(false), BackgroundColor { red: 980, green: 980, blue: 980 });
    let dark = background_color(true);
    assert_eq!(dark.red as f64 / 1000.0, 0.102);
    let light = background_color(false);
    assert_eq!(light.blue as f64 / 1000.0, 0.98);
}
