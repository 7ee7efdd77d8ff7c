pub mod base_uri;
pub mod config;
pub mod editing_mode;
pub mod layout;
pub mod preference_laws;
pub mod preferences;
pub mod preview;
pub mod render;
pub mod schemes;
pub mod text;
pub mod theme;
