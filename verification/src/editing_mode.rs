//! The optional alternate input mode of the editor.
//!
//! The mode is carried by a controller that is attached to the editing surface. The slot here
//! owns that controller. Enabling and disabling are the only ways to change the slot, so the
//! surface never has two controllers at once: a controller is made only for an empty slot,
//! and the one that leaves the slot is handed back to be detached.

use vstd::prelude::*;

verus! {

/// Owner of at most one controller of type `C`.
pub struct EditingModeController<C> {
    slot: Option<C>,
}

/// How many controllers a slot holds.
pub open spec fn count_of<C>(slot: Option<C>) -> nat {
    match slot {
        Some(_) => 1,
        None => 0,
    }
}

impl<C> View for EditingModeController<C> {
    type V = Option<C>;

    /// The controller that is attached, if any.
    closed spec fn view(&self) -> Option<C> {
        self.slot
    }
}

impl<C> EditingModeController<C> {
    /// A slot without a controller.
    pub fn new() -> (controller: Self)
        ensures
            controller@ is None,
    {
        EditingModeController { slot: None }
    }

    /// Whether a controller is attached.
    pub fn is_enabled(&self) -> (enabled: bool)
        ensures
            enabled == (self@ is Some),
    {
        self.slot.is_some()
    }

    /// How many controllers are attached: none or one.
    pub fn attached_count(&self) -> (count: usize)
        ensures
            count == count_of(self@),
            count <= 1,
    {
        if self.slot.is_some() {
            1
        } else {
            0
        }
    }

    /// The attached controller, if any.
    pub fn attached(&self) -> (controller: Option<&C>)
        ensures
            match controller {
                Some(c) => self@ == Some(*c),
                None => self@ is None,
            },
    {
        self.slot.as_ref()
    }

    /// Turns the mode on. With an empty slot, `attach` is called once and the controller it
    /// returns is kept; it is for `attach` to bind the controller to the surface. With a
    /// controller already in the slot nothing happens and `attach` is not called.
    ///
    /// Returns whether a controller was attached by this call.
    pub fn enable<F: FnOnce() -> C>(&mut self, attach: F) -> (attached: bool)
        requires
            attach.requires(()),
        ensures
            attached == (old(self)@ is None),
            old(self)@ is Some ==> final(self)@ == old(self)@,
            old(self)@ is None ==> final(self)@ is Some && attach.ensures((), final(self)@->0),
            final(self)@ == enabled(old(self)@, final(self)@->0),
            count_of(final(self)@) == 1,
    {
        if self.slot.is_none() {
            let controller = attach();
            self.slot = Some(controller);
            true
        } else {
            false
        }
    }

    /// Turns the mode off. The controller that was attached leaves the slot and is returned,
    /// to be detached from the surface. With an empty slot nothing happens.
    pub fn disable(&mut self) -> (detached: Option<C>)
        ensures
            detached == old(self)@,
            final(self)@ == disabled(old(self)@),
            count_of(final(self)@) == 0,
    {
        self.slot.take()
    }
}

/// The slot after the mode was turned on, where `fresh` is the controller that is made for
/// an empty slot.
pub open spec fn enabled<C>(slot: Option<C>, fresh: C) -> Option<C> {
    match slot {
        Some(c) => Some(c),
        None => Some(fresh),
    }
}

/// The slot after the mode was turned off.
pub open spec fn disabled<C>(slot: Option<C>) -> Option<C> {
    None
}

/// A slot never holds more than one controller, whatever is done to it.
pub proof fn lemma_at_most_one_controller<C>(slot: Option<C>, fresh: C)
    ensures
        count_of(slot) <= 1,
        count_of(enabled(slot, fresh)) == 1,
        count_of(disabled(slot)) == 0,
{
}

/// Turning the mode on twice attaches one controller, the one of the first time; turning it
/// off after that leaves none.
pub proof fn lemma_enable_twice_then_disable<C>(first: C, second: C)
    ensures
        enabled(enabled(None, first), second) == Some(first),
        count_of(enabled(enabled(None, first), second)) == 1,
        disabled(enabled(enabled(None, first), second)) == None::<C>,
{
}

/// Turning the mode off where it is off changes nothing.
pub proof fn lemma_disable_when_off<C>()
    ensures
        disabled(None::<C>) == None::<C>,
{
}

} // verus!
