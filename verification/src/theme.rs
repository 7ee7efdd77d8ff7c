//! Appearance: the mode that the user chose, the theme that a mode resolves to, and the
//! colour behind the page.
//!
//! The mode is stored as text. `force-dark` and `force-light` override the system; any other
//! text, the stored `default` among them, follows it.

use crate::text::{str_eq, Text};
use vstd::prelude::*;

verus! {

/// Stored text of the mode that forces the dark theme.
pub const MODE_FORCE_DARK: &'static str = "force-dark";

/// Stored text of the mode that forces the light theme.
pub const MODE_FORCE_LIGHT: &'static str = "force-light";

/// Stored text of the mode that follows the system.
pub const MODE_DEFAULT: &'static str = "default";

/// How the user wants the application to look.
#[derive(Clone, Copy, PartialEq, Eq, Debug, Structural)]
pub enum AppearanceMode {
    /// Follow the system.
    SystemDefault,
    /// Dark, whatever the system says.
    ForceDark,
    /// Light, whatever the system says.
    ForceLight,
}

/// The colour behind the page, each channel in thousandths of full intensity.
#[derive(Clone, Copy, PartialEq, Eq, Debug, Structural)]
pub struct BackgroundColor {
    pub red: u16,
    pub green: u16,
    pub blue: u16,
}

/// The mode that a stored text stands for.
pub open spec fn mode_of(value: Text) -> AppearanceMode {
    if value == MODE_FORCE_DARK@ {
        AppearanceMode::ForceDark
    } else if value == MODE_FORCE_LIGHT@ {
        AppearanceMode::ForceLight
    } else {
        AppearanceMode::SystemDefault
    }
}

/// The text that a mode is stored as.
pub open spec fn text_of(mode: AppearanceMode) -> Text {
    match mode {
        AppearanceMode::SystemDefault => MODE_DEFAULT@,
        AppearanceMode::ForceDark => MODE_FORCE_DARK@,
        AppearanceMode::ForceLight => MODE_FORCE_LIGHT@,
    }
}

/// The mode at a position of the list Auto, Dark, Light. A position outside the list stands
/// for Auto.
pub open spec fn mode_at(index: u32) -> AppearanceMode {
    if index == 1 {
        AppearanceMode::ForceDark
    } else if index == 2 {
        AppearanceMode::ForceLight
    } else {
        AppearanceMode::SystemDefault
    }
}

/// The position of a mode in the list Auto, Dark, Light.
pub open spec fn index_of(mode: AppearanceMode) -> u32 {
    match mode {
        AppearanceMode::SystemDefault => 0,
        AppearanceMode::ForceDark => 1,
        AppearanceMode::ForceLight => 2,
    }
}

/// Whether a mode shows the dark theme while the system signals `system_dark`.
pub open spec fn resolves_dark(mode: AppearanceMode, system_dark: bool) -> bool {
    match mode {
        AppearanceMode::SystemDefault => system_dark,
        AppearanceMode::ForceDark => true,
        AppearanceMode::ForceLight => false,
    }
}

/// The colour behind the page of a theme.
pub open spec fn background_of(dark: bool) -> BackgroundColor {
    if dark {
        BackgroundColor { red: 102, green: 102, blue: 102 }
    } else {
        BackgroundColor { red: 980, green: 980, blue: 980 }
    }
}

impl AppearanceMode {
    /// Reads a mode from its stored text.
    pub fn from_pref(value: &str) -> (mode: Self)
        ensures
            mode == mode_of(value@),
    {
        if str_eq(value, MODE_FORCE_DARK) {
            AppearanceMode::ForceDark
        } else if str_eq(value, MODE_FORCE_LIGHT) {
            AppearanceMode::ForceLight
        } else {
            AppearanceMode::SystemDefault
        }
    }

    /// The text to store for the mode.
    pub fn as_pref(self) -> (value: &'static str)
        ensures
            value@ == text_of(self),
    {
        match self {
            AppearanceMode::SystemDefault => MODE_DEFAULT,
            AppearanceMode::ForceDark => MODE_FORCE_DARK,
            AppearanceMode::ForceLight => MODE_FORCE_LIGHT,
        }
    }

    /// The mode selected at a position of the list Auto, Dark, Light.
    pub fn from_index(index: u32) -> (mode: Self)
        ensures
            mode == mode_at(index),
    {
        if index == 1 {
            AppearanceMode::ForceDark
        } else if index == 2 {
            AppearanceMode::ForceLight
        } else {
            AppearanceMode::SystemDefault
        }
    }

    /// The position of the mode in the list Auto, Dark, Light.
    pub fn index(self) -> (index: u32)
        ensures
            index == index_of(self),
            index <= 2,
    {
        match self {
            AppearanceMode::SystemDefault => 0,
            AppearanceMode::ForceDark => 1,
            AppearanceMode::ForceLight => 2,
        }
    }

    /// Whether the mode overrides the system, so that it has to be applied to every surface
    /// of the application and not to the preview alone.
    pub fn is_forced(self) -> (forced: bool)
        ensures
            forced == (self != AppearanceMode::SystemDefault),
    {
        match self {
            AppearanceMode::SystemDefault => false,
            AppearanceMode::ForceDark => true,
            AppearanceMode::ForceLight => true,
        }
    }

    /// Whether the mode shows the dark theme while the system signals `system_dark`.
    pub fn resolve_dark(self, system_dark: bool) -> (dark: bool)
        ensures
            dark == resolves_dark(self, system_dark),
    {
        match self {
            AppearanceMode::SystemDefault => system_dark,
            AppearanceMode::ForceDark => true,
            AppearanceMode::ForceLight => false,
        }
    }
}

/// Resolves a stored mode against the system signal: `force-dark` is dark, `force-light` is
/// light, any other text follows the system.
pub fn is_dark_for_pref(value: &str, system_dark: bool) -> (dark: bool)
    ensures
        dark == resolves_dark(mode_of(value@), system_dark),
        value@ == MODE_FORCE_DARK@ ==> dark,
        value@ == MODE_FORCE_LIGHT@ ==> !dark,
        value@ != MODE_FORCE_DARK@ && value@ != MODE_FORCE_LIGHT@ ==> dark == system_dark,
{
    proof {
        lemma_mode_texts_differ();
    }
    AppearanceMode::from_pref(value).resolve_dark(system_dark)
}

/// The colour to show behind the page before it paints.
pub fn background_color(dark: bool) -> (color: BackgroundColor)
    ensures
        color == background_of(dark),
{
    if dark {
        BackgroundColor { red: 102, green: 102, blue: 102 }
    } else {
        BackgroundColor { red: 980, green: 980, blue: 980 }
    }
}

/// The three stored texts are three different texts.
pub proof fn lemma_mode_texts_differ()
    ensures
        MODE_FORCE_DARK@ != MODE_FORCE_LIGHT@,
        MODE_FORCE_DARK@ != MODE_DEFAULT@,
        MODE_FORCE_LIGHT@ != MODE_DEFAULT@,
{
    reveal_strlit("force-dark");
    reveal_strlit("force-light");
    reveal_strlit("default");
    assert(MODE_FORCE_DARK@.len() == 10);
    assert(MODE_FORCE_LIGHT@.len() == 11);
    assert(MODE_DEFAULT@.len() == 7);
}

/// A forced mode decides the theme alone, and any other stored text leaves it to the system.
pub proof fn lemma_theme_resolution(value: Text, system_dark: bool)
    ensures
        value == MODE_FORCE_DARK@ ==> resolves_dark(mode_of(value), system_dark),
        value == MODE_FORCE_LIGHT@ ==> !resolves_dark(mode_of(value), system_dark),
        value != MODE_FORCE_DARK@ && value != MODE_FORCE_LIGHT@ ==> resolves_dark(
            mode_of(value),
            system_dark,
        ) == system_dark,
{
    lemma_mode_texts_differ();
}

/// A mode that is stored and read back is the same mode.
pub proof fn lemma_mode_survives_storing(mode: AppearanceMode)
    ensures
        mode_of(text_of(mode)) == mode,
{
    lemma_mode_texts_differ();
}

/// A mode that is shown in the list and selected there is the same mode.
pub proof fn lemma_mode_survives_listing(mode: AppearanceMode)
    ensures
        mode_at(index_of(mode)) == mode,
{
}

} // verus!
