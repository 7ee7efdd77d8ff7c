//! The preview synchronizer: what to show, whenever the text or the appearance changes.
//!
//! The synchronizer keeps what outlives an event: where the document is stored and which
//! appearance mode the user chose. Everything else is read afresh for each event and handed
//! in as a snapshot. An event is answered by one update, computed from the state and the
//! snapshot alone, so that the same state and snapshot always give the same update, whichever
//! event asked for it.

use crate::base_uri::{base_uri_for_preview, base_uri_of, parent_of, DocumentIdentity};
use crate::render::{fragment_of, page_of, render_page};
use crate::text::Text;
use crate::theme::{
    background_color, background_of, resolves_dark, AppearanceMode, BackgroundColor,
};
use vstd::prelude::*;

verus! {

/// What makes the preview stale.
#[derive(Clone, Copy, PartialEq, Eq, Debug, Structural)]
pub enum PreviewEvent {
    /// The text of the document changed.
    TextChanged,
    /// The appearance of the system, or the mode that the user chose, changed.
    AppearanceChanged,
}

/// What is read afresh for an event.
pub struct Snapshot {
    /// The whole text of the document.
    pub text: String,
    /// Whether the system asks for the dark theme right now.
    pub system_dark: bool,
    /// The canonical path of the working directory, where it can be had.
    pub working_directory: Option<String>,
}

/// A page, and the base that its relative references resolve against.
pub struct RenderedPage {
    pub html: String,
    pub base_uri: Option<String>,
}

/// What the viewer is to show: the page, and the colour behind it until it paints.
pub struct PreviewUpdate {
    pub page: RenderedPage,
    pub dark: bool,
    pub background: BackgroundColor,
}

/// An update as plain values.
pub struct UpdateModel {
    pub html: Text,
    pub base_uri: Option<Text>,
    pub dark: bool,
    pub background: BackgroundColor,
}

/// A snapshot as plain values.
pub struct SnapshotModel {
    pub text: Text,
    pub system_dark: bool,
    pub working_directory: Option<Text>,
}

impl View for Snapshot {
    type V = SnapshotModel;

    open spec fn view(&self) -> SnapshotModel {
        SnapshotModel {
            text: self.text@,
            system_dark: self.system_dark,
            working_directory: match self.working_directory {
                Some(path) => Some(path@),
                None => None,
            },
        }
    }
}

impl View for PreviewUpdate {
    type V = UpdateModel;

    open spec fn view(&self) -> UpdateModel {
        UpdateModel {
            html: self.page.html@,
            base_uri: match self.page.base_uri {
                Some(uri) => Some(uri@),
                None => None,
            },
            dark: self.dark,
            background: self.background,
        }
    }
}

/// The update for a document stored below `parent`, under `mode`, at the moment of `snapshot`.
pub open spec fn update_of(
    parent: Option<Text>,
    mode: AppearanceMode,
    snapshot: SnapshotModel,
) -> UpdateModel {
    let dark = resolves_dark(mode, snapshot.system_dark);
    UpdateModel {
        html: page_of(fragment_of(snapshot.text), dark),
        base_uri: base_uri_of(parent, snapshot.working_directory),
        dark,
        background: background_of(dark),
    }
}

/// The state that outlives an event.
pub struct PreviewSynchronizer {
    identity: Option<DocumentIdentity>,
    mode: AppearanceMode,
}

impl PreviewSynchronizer {
    /// The parent URI of the document, where it is saved and has one.
    pub closed spec fn parent(&self) -> Option<Text> {
        parent_of(self.identity)
    }

    /// The appearance mode.
    pub closed spec fn mode_spec(&self) -> AppearanceMode {
        self.mode
    }

    /// Whether the document is saved somewhere.
    pub closed spec fn is_saved(&self) -> bool {
        self.identity is Some
    }

    /// A synchronizer for a new, unsaved document.
    pub fn new(mode: AppearanceMode) -> (sync: Self)
        ensures
            !sync.is_saved(),
            sync.parent() is None,
            sync.mode_spec() == mode,
    {
        PreviewSynchronizer { identity: None, mode }
    }

    /// The appearance mode.
    pub fn mode(&self) -> (mode: AppearanceMode)
        ensures
            mode == self.mode_spec(),
    {
        self.mode
    }

    /// Whether the document is saved somewhere.
    pub fn has_identity(&self) -> (saved: bool)
        ensures
            saved == self.is_saved(),
            !saved ==> self.parent() is None,
    {
        self.identity.is_some()
    }

    /// Takes the mode that the user chose. The document stays where it is.
    pub fn set_mode(&mut self, mode: AppearanceMode)
        ensures
            final(self).mode_spec() == mode,
            final(self).parent() == old(self).parent(),
            final(self).is_saved() == old(self).is_saved(),
    {
        self.mode = mode;
    }

    /// Takes the place where the document was opened from or saved to; `None` for a new
    /// document. The mode stays as it is.
    pub fn set_identity(&mut self, identity: Option<DocumentIdentity>)
        ensures
            final(self).parent() == parent_of(identity),
            final(self).is_saved() == (identity is Some),
            final(self).mode_spec() == old(self).mode_spec(),
    {
        self.identity = identity;
    }

    /// Answers one event with the update to show. Both kinds of event are answered alike:
    /// the update depends on the state and the snapshot alone.
    pub fn handle(&self, event: PreviewEvent, snapshot: &Snapshot) -> (update: PreviewUpdate)
        ensures
            update@ == update_of(self.parent(), self.mode_spec(), snapshot@),
    {
        let dark = self.mode.resolve_dark(snapshot.system_dark);
        let html = render_page(snapshot.text.as_str(), dark);
        let working_directory = match &snapshot.working_directory {
            Some(path) => Some(path.as_str()),
            None => None,
        };
        let base_uri = base_uri_for_preview(self.identity.as_ref(), working_directory);
        PreviewUpdate {
            page: RenderedPage { html, base_uri },
            dark,
            background: background_color(dark),
        }
    }

    /// Answers events in the order in which they came: one update for each, none dropped and
    /// none merged with its neighbour.
    pub fn handle_all(&self, events: &Vec<(PreviewEvent, Snapshot)>) -> (updates: Vec<
        PreviewUpdate,
    >)
        ensures
            updates.len() == events.len(),
            forall|i: int|
                0 <= i < events.len() ==> (#[trigger] updates[i])@ == update_of(
                    self.parent(),
                    self.mode_spec(),
                    events[i].1@,
                ),
    {
        let mut updates: Vec<PreviewUpdate> = Vec::new();
        let mut i: usize = 0;
        while i < events.len()
            invariant
                i <= events.len(),
                updates.len() == i,
                forall|j: int|
                    0 <= j < i ==> (#[trigger] updates[j])@ == update_of(
                        self.parent(),
                        self.mode_spec(),
                        events[j].1@,
                    ),
            decreases events.len() - i,
        {
            let update = self.handle(events[i].0, &events[i].1);
            updates.push(update);
            i += 1;
        }
        updates
    }
}

/// The page of an update is the page of the document's fragment in the theme that the mode
/// resolves to, and the colour behind it is the colour of that theme.
pub proof fn lemma_update_is_consistent(
    parent: Option<Text>,
    mode: AppearanceMode,
    snapshot: SnapshotModel,
)
    ensures
        update_of(parent, mode, snapshot).html == page_of(
            fragment_of(snapshot.text),
            update_of(parent, mode, snapshot).dark,
        ),
        update_of(parent, mode, snapshot).background == background_of(
            update_of(parent, mode, snapshot).dark,
        ),
{
}

/// A forced mode decides the theme of an update whatever the system signals.
pub proof fn lemma_forced_mode_ignores_system(
    parent: Option<Text>,
    snapshot: SnapshotModel,
    other_signal: bool,
)
    ensures
        update_of(parent, AppearanceMode::ForceDark, snapshot).dark,
        !update_of(parent, AppearanceMode::ForceLight, snapshot).dark,
        update_of(parent, AppearanceMode::ForceDark, snapshot) == update_of(
            parent,
            AppearanceMode::ForceDark,
            SnapshotModel { system_dark: other_signal, ..snapshot },
        ),
        update_of(parent, AppearanceMode::ForceLight, snapshot) == update_of(
            parent,
            AppearanceMode::ForceLight,
            SnapshotModel { system_dark: other_signal, ..snapshot },
        ),
{
}

/// Where the document is stored changes the base of an update and nothing else.
pub proof fn lemma_identity_changes_base_only(
    parent: Option<Text>,
    other_parent: Option<Text>,
    mode: AppearanceMode,
    snapshot: SnapshotModel,
)
    ensures
        update_of(parent, mode, snapshot).html == update_of(other_parent, mode, snapshot).html,
        update_of(parent, mode, snapshot).dark == update_of(other_parent, mode, snapshot).dark,
        update_of(parent, mode, snapshot).background == update_of(
            other_parent,
            mode,
            snapshot,
        ).background,
{
}

} // verus!
