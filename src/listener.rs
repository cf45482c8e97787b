//! The listener capability.
use vstd::prelude::*;

use crate::args::{EventArgs, EventArgsRef, EventFlags};
use crate::EventAction;
use vstd::std_specs::convert::IntoSpec;

verus! {

/// A trait describing interfaces that can listen for an event.
pub trait EventListener<T>: Send + 'static {
    /// What one call may do: given the payload and the flags it is handed,
    /// the flags it leaves and the action it returns.
    spec fn responds(
        &self,
        payload: T,
        before: EventFlags,
        after: EventFlags,
        action: EventAction,
    ) -> bool;

    /// Calls the listener with associated event arguments.
    fn call(&self, event: &mut EventArgsRef<'_, T>) -> (r: EventAction)
        ensures
            self.responds(old(event).payload(), old(event).flags(), final(event).flags(), r),
    ;
}

/// Relies on the closure's `Fn` impl: a closure of this bound may be called
/// with any event argument.
#[verifier::external_body]
fn call_closure<T, F, R>(closure: &F, event: &mut EventArgsRef<'_, T>) -> R where
    F: Fn(&mut EventArgsRef<'_, T>) -> R,
 {
    closure(event)
}

/// Closures can act as event listeners. The action is the closure's result
/// converted by `Into`, so a closure that returns `()` keeps its place.
impl<F, T, R> EventListener<T> for F where
    F: Fn(&mut EventArgsRef<'_, T>) -> R + Send + 'static,
    R: Into<EventAction>,
 {
    open spec fn responds(
        &self,
        payload: T,
        before: EventFlags,
        after: EventFlags,
        action: EventAction,
    ) -> bool {
        exists|raw: R|
            <R as IntoSpec<EventAction>>::obeys_into_spec() ==> action == <R as IntoSpec<
                EventAction,
            >>::into_spec(raw)
    }

    fn call(&self, event: &mut EventArgsRef<'_, T>) -> (r: EventAction) {
        let raw = call_closure(self, event);
        let ghost witness = raw;
        let r = raw.into();
        assert(<R as IntoSpec<EventAction>>::obeys_into_spec() ==> r == <R as IntoSpec<
            EventAction,
        >>::into_spec(witness));
        r
    }
}

} // verus!
