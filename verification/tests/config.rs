use markview::config::{
    config_path, config_root, ConfigRoot, APP_DIRECTORY, CURRENT_DIRECTORY, HOME_CONFIG_DIRECTORY,
    PREFERENCES_FILE,
};

#[test]
fn root_by_variables() {
    assert_eq!(config_root(true, true), ConfigRoot::XdgConfigHome);
    assert_eq!(config_root(true, false), ConfigRoot::XdgConfigHome);
    assert_eq!(config_root(false, true), ConfigRoot::Home);
    assert_eq!(config_root(false, false), ConfigRoot::CurrentDirectory);
}

#[test]
fn components_below_each_root() {
    assert_eq!(config_path(ConfigRoot::XdgConfigHome), vec!["MarkView", "preferences.ini"]);
    assert_eq!(config_path(ConfigRoot::Home), vec![".config", "MarkView", "preferences.ini"]);
    assert_eq!(config_path(ConfigRoot::CurrentDirectory), vec!["MarkView", "preferences.ini"]);
}

#[test]
fn names() {
    assert_eq!(APP_DIRECTORY, "MarkView");
    assert_eq!(PREFERENCES_FILE, "preferences.ini");
    assert_eq!(HOME_CONFIG_DIRECTORY, ".config");
    assert_eq!(CURRENT_DIRECTORY, ".");
}

#[test]
fn joined_path_below_home() {
    let mut path = std::path::PathBuf::from("/home/user");
    for component in config_path(config_root(false, true)) {
        path.push(component);
    }
    assert_eq!(path, std::path::PathBuf::from("/home/user/.config/MarkView/preferences.ini"));
}
