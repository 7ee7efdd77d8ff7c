//! Where the preference file lives.
//!
//! The file stands below the user's configuration directory. That is the directory named by
//! `XDG_CONFIG_HOME`; without that variable, `.config` below the directory named by `HOME`;
//! without that one too, the current directory. Reading the variables and joining the path
//! are the caller's part; which root counts and what is appended to it is decided here.

use crate::text::Text;
use vstd::prelude::*;
use vstd::string::StringExecFns;

verus! {

/// Directory of the application below the configuration directory.
pub const APP_DIRECTORY: &'static str = "MarkView";

/// Name of the preference file.
pub const PREFERENCES_FILE: &'static str = "preferences.ini";

/// Configuration directory below a home directory.
pub const HOME_CONFIG_DIRECTORY: &'static str = ".config";

/// Root that is used where neither variable is set.
pub const CURRENT_DIRECTORY: &'static str = ".";

/// The directory that the path of the preference file starts from.
#[derive(Clone, Copy, PartialEq, Eq, Debug, Structural)]
pub enum ConfigRoot {
    /// The directory named by `XDG_CONFIG_HOME`.
    XdgConfigHome,
    /// The directory named by `HOME`.
    Home,
    /// The current directory.
    CurrentDirectory,
}

/// The root that counts, given which variables are set.
pub open spec fn root_for(xdg_config_home_set: bool, home_set: bool) -> ConfigRoot {
    if xdg_config_home_set {
        ConfigRoot::XdgConfigHome
    } else if home_set {
        ConfigRoot::Home
    } else {
        ConfigRoot::CurrentDirectory
    }
}

/// The path components that are appended to a root, in order.
pub open spec fn components_below(root: ConfigRoot) -> Seq<Text> {
    match root {
        ConfigRoot::Home => seq![HOME_CONFIG_DIRECTORY@, APP_DIRECTORY@, PREFERENCES_FILE@],
        _ => seq![APP_DIRECTORY@, PREFERENCES_FILE@],
    }
}

/// The root that counts, given which variables are set.
pub fn config_root(xdg_config_home_set: bool, home_set: bool) -> (root: ConfigRoot)
    ensures
        root == root_for(xdg_config_home_set, home_set),
{
    if xdg_config_home_set {
        ConfigRoot::XdgConfigHome
    } else if home_set {
        ConfigRoot::Home
    } else {
        ConfigRoot::CurrentDirectory
    }
}

/// The path components of the preference file below `root`, in order.
pub fn config_path(root: ConfigRoot) -> (components: Vec<String>)
    ensures
        components@.map_values(|c: String| c@) == components_below(root),
{
    let mut components: Vec<String> = Vec::new();
    match root {
        ConfigRoot::Home => {
            components.push(String::from_str(HOME_CONFIG_DIRECTORY));
        },
        _ => {},
    }
    components.push(String::from_str(APP_DIRECTORY));
    components.push(String::from_str(PREFERENCES_FILE));
    assert(components@.map_values(|c: String| c@) =~= components_below(root));
    components
}

/// Whatever the root, the path ends in the application directory and the file name.
pub proof fn lemma_path_ends_in_file(root: ConfigRoot)
    ensures
        components_below(root).len() >= 2,
        components_below(root).last() == PREFERENCES_FILE@,
        components_below(root)[components_below(root).len() - 2] == APP_DIRECTORY@,
{
}

} // verus!
