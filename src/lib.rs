//! Typed event listeners: a registry of listeners that are notified of an
//! event, where each listener may stop propagation, prevent the default
//! action, or ask to be removed.
use vstd::prelude::*;

pub use crate::args::{EventArgs, EventArgsOwned, EventArgsRef, EventFlags};
pub use crate::listener::EventListener;

pub mod args;
pub mod listener;
pub mod dispatch;
pub mod sync;
pub mod laws;

verus! {

/// What a listener asks of the registry after handling one event.
#[derive(PartialEq, Eq, Structural, Copy, Clone, Debug)]
pub enum EventAction {
    /// Removes the listener from the event.
    Remove,
    /// Keeps the listener in the event.
    Keep,
}

/// A listener that returns nothing keeps its place.
impl From<()> for EventAction {
    fn from(_unit: ()) -> (r: Self)
        ensures
            r == EventAction::Keep,
    {
        EventAction::Keep
    }
}

impl vstd::std_specs::convert::FromSpecImpl<()> for EventAction {
    open spec fn obeys_from_spec() -> bool {
        true
    }

    open spec fn from_spec(v: ()) -> EventAction {
        EventAction::Keep
    }
}

} // verus!
