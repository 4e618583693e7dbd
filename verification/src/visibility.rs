//! Per-entity visibility and its change events.
//!
//! Visibility is tri-state.  Only transitions into or out of `Collapsed`
//! are structural for layout; `Hidden` and `Visible` differ only for
//! drawing.  A transition writes one event carrying the entity and both
//! states to an event channel.

use crate::channel::EventChannel;
use crate::storage::Entity;
use vstd::prelude::*;

verus! {

/// How an entity is shown: drawn, not drawn but occupying space, or not
/// drawn and occupying no space.
#[derive(Clone, Copy, PartialEq, Eq, Structural, Debug)]
pub enum VisibilityState {
    Visible,
    Hidden,
    Collapsed,
}

/// The visibility component of one entity.
#[derive(Clone, Copy, Debug)]
pub struct Visibility {
    state: VisibilityState,
}

/// A visibility transition: `entity` went from state `was` to state `now`.
#[derive(Clone, Copy, PartialEq, Eq, Structural, Debug)]
pub struct VisibilityEvent {
    pub entity: Entity,
    pub was: VisibilityState,
    pub now: VisibilityState,
}

impl View for Visibility {
    type V = VisibilityState;

    closed spec fn view(&self) -> VisibilityState {
        self.state
    }
}

impl Visibility {
    /// A fresh component: entities start visible.
    pub fn new() -> (v: Self)
        ensures
            v@ == VisibilityState::Visible,
    {
        Visibility { state: VisibilityState::Visible }
    }

    /// Whether the entity should be drawn.
    pub fn needs_draw(&self) -> (r: bool)
        ensures
            r == (self@ == VisibilityState::Visible),
    {
        self.state == VisibilityState::Visible
    }

    /// The current state.
    pub fn get(&self) -> (s: VisibilityState)
        ensures
            s == self@,
    {
        self.state
    }

    /// Moves to `state`; a real transition writes one event, setting the
    /// same state again writes none.
    pub fn set(
        &mut self,
        state: VisibilityState,
        entity: Entity,
        events: &mut EventChannel<VisibilityEvent>,
    )
        ensures
            final(self)@ == state,
            final(events)@ == (if old(self)@ != state {
                old(events)@.push(VisibilityEvent { entity, was: old(self)@, now: state })
            } else {
                old(events)@
            }),
    {
        let was = self.state;
        self.state = state;
        if was != state {
            events.single_write(VisibilityEvent { entity, was, now: state });
        }
    }
}

impl VisibilityEvent {
    /// `Some(true)` when the entity leaves `Collapsed` (it takes part in
    /// layout again), `Some(false)` when it enters `Collapsed`, `None` for
    /// the layout-neutral transitions.
    pub open spec fn spec_needs_layout_changed(self) -> Option<bool> {
        match (self.was, self.now) {
            (VisibilityState::Collapsed, VisibilityState::Collapsed) => None,
            (VisibilityState::Collapsed, _) => Some(true),
            (_, VisibilityState::Collapsed) => Some(false),
            (_, _) => None,
        }
    }

    /// Whether this transition changes the entity's participation in
    /// layout, and in which direction.
    pub fn needs_layout_changed(&self) -> (r: Option<bool>)
        ensures
            r == self.spec_needs_layout_changed(),
    {
        match (self.was, self.now) {
            (VisibilityState::Collapsed, VisibilityState::Collapsed) => None,
            (VisibilityState::Collapsed, _) => Some(true),
            (_, VisibilityState::Collapsed) => Some(false),
            (_, _) => None,
        }
    }
}

} // verus!
