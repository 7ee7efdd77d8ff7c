//! Visibility of the editor panel and the divider position that goes with it.
//!
//! The controller mirrors the divider of a two-pane window. Hiding the panel collapses the
//! divider to zero and remembers where it stood; showing it again puts the divider back.

use vstd::prelude::*;

verus! {

/// Divider offset of a fresh window, and the offset remembered when the panel is hidden while
/// the divider has no positive offset to remember.
pub const DEFAULT_DIVIDER_POSITION: i32 = 400;

/// Mathematical model of the panel: where the divider stands, where it stood when the panel
/// was last hidden, and whether the panel is shown.
pub struct PanelState {
    pub position: int,
    pub remembered: int,
    pub visible: bool,
}

/// The state of a fresh window: panel shown, divider at the default offset.
pub open spec fn initial_panel() -> PanelState {
    PanelState {
        position: DEFAULT_DIVIDER_POSITION as int,
        remembered: DEFAULT_DIVIDER_POSITION as int,
        visible: true,
    }
}

/// The state after one press of the hide/show toggle.
pub open spec fn toggled(s: PanelState) -> PanelState {
    if s.visible {
        PanelState {
            position: 0,
            remembered: if s.position > 0 {
                s.position
            } else {
                DEFAULT_DIVIDER_POSITION as int
            },
            visible: false,
        }
    } else {
        PanelState { position: s.remembered, remembered: s.remembered, visible: true }
    }
}

/// The state after the user has dragged the divider to `position`.
pub open spec fn resized(s: PanelState, position: int) -> PanelState {
    PanelState { position, remembered: s.remembered, visible: s.visible }
}

/// Tracks the divider of the editor panel across hide/show toggles.
pub struct LayoutController {
    position: i32,
    remembered: i32,
    visible: bool,
}

impl View for LayoutController {
    type V = PanelState;

    closed spec fn view(&self) -> PanelState {
        PanelState {
            position: self.position as int,
            remembered: self.remembered as int,
            visible: self.visible,
        }
    }
}

impl LayoutController {
    /// The remembered offset is always one that shows the panel again.
    #[verifier::type_invariant]
    closed spec fn remembers_positive_offset(self) -> bool {
        self.remembered > 0
    }

    /// A controller for a fresh window.
    pub fn new() -> (layout: Self)
        ensures
            layout@ == initial_panel(),
    {
        LayoutController {
            position: DEFAULT_DIVIDER_POSITION,
            remembered: DEFAULT_DIVIDER_POSITION,
            visible: true,
        }
    }

    /// Current divider offset.
    pub fn position(&self) -> (position: i32)
        ensures
            position == self@.position,
    {
        self.position
    }

    /// Offset that the next hidden-to-visible toggle restores.
    pub fn remembered_position(&self) -> (remembered: i32)
        ensures
            remembered == self@.remembered,
            remembered > 0,
    {
        proof {
            use_type_invariant(self);
        }
        self.remembered
    }

    /// Whether the panel is shown.
    pub fn is_visible(&self) -> (visible: bool)
        ensures
            visible == self@.visible,
    {
        self.visible
    }

    /// Records a divider offset set by hand. The remembered offset and the visibility flag
    /// stay as they are.
    pub fn resize(&mut self, position: i32)
        ensures
            final(self)@ == resized(old(self)@, position as int),
    {
        proof {
            use_type_invariant(&*self);
        }
        self.position = position;
    }

    /// Hides the panel if it is shown, shows it if it is hidden.
    ///
    /// Hiding remembers the current offset (the default one if the current offset is not
    /// positive) and collapses the divider to zero. Showing restores the remembered offset
    /// and leaves it remembered.
    pub fn toggle_hidden(&mut self)
        ensures
            final(self)@ == toggled(old(self)@),
    {
        proof {
            use_type_invariant(&*self);
        }
        if self.visible {
            if self.position > 0 {
                self.remembered = self.position;
            } else {
                self.remembered = DEFAULT_DIVIDER_POSITION;
            }
            self.position = 0;
            self.visible = false;
        } else {
            self.position = self.remembered;
            self.visible = true;
        }
    }
}

/// Hiding and then showing a panel whose divider stands at a positive offset puts the
/// divider back exactly where it was, with the panel shown.
pub proof fn lemma_toggle_round_trip(s: PanelState)
    requires
        s.visible,
        s.position > 0,
    ensures
        toggled(s).position == 0,
        !toggled(s).visible,
        toggled(toggled(s)).position == s.position,
        toggled(toggled(s)).visible,
{
}

/// Showing the panel never changes the remembered offset; only hiding does. A resize by hand
/// never changes it either.
pub proof fn lemma_remembered_changes_only_when_hiding(s: PanelState, position: int)
    ensures
        !s.visible ==> toggled(s).remembered == s.remembered,
        resized(s, position).remembered == s.remembered,
{
}

/// From a hidden panel, showing, hiding and showing again gives the state that showing once
/// gives.
pub proof fn lemma_repeated_toggles_are_stable(s: PanelState)
    requires
        !s.visible,
        s.remembered > 0,
    ensures
        toggled(toggled(toggled(s))) == toggled(s),
{
}

} // verus!
