//! Event arguments: the payload of one dispatch and its two sticky flags.
use vstd::prelude::*;

verus! {

/// The two flags of an event argument, as plain values.
#[derive(PartialEq, Eq, Structural, Copy, Clone, Debug)]
pub struct EventFlags {
    pub propagation_stopped: bool,
    pub default_prevented: bool,
}

/// The flags of a freshly made event argument: neither is set.
pub open spec fn fresh_flags() -> EventFlags {
    EventFlags { propagation_stopped: false, default_prevented: false }
}

/// Represents an event's arguments.
pub trait EventArgs<T> {
    /// The current flags.
    spec fn flags(&self) -> EventFlags;

    /// The payload carried by the event.
    spec fn payload(&self) -> T;

    /// Returns whether the propagation has been stopped or not.
    fn is_propagation_stopped(&self) -> (r: bool)
        ensures
            r == self.flags().propagation_stopped,
    ;

    /// Returns whether the default action has been prevented or not.
    fn is_default_prevented(&self) -> (r: bool)
        ensures
            r == self.flags().default_prevented,
    ;

    /// Stops the propagation of this event.
    fn stop_propagation(&mut self)
        ensures
            final(self).flags() == (EventFlags {
                propagation_stopped: true,
                default_prevented: old(self).flags().default_prevented,
            }),
            final(self).payload() == old(self).payload(),
    ;

    /// Prevents the default action of this event.
    fn prevent_default(&mut self)
        ensures
            final(self).flags() == (EventFlags {
                propagation_stopped: old(self).flags().propagation_stopped,
                default_prevented: true,
            }),
            final(self).payload() == old(self).payload(),
    ;

    /// Returns the data associated with this event.
    fn data(&self) -> (r: &T)
        ensures
            *r == self.payload(),
    ;
}

/// Event arguments that own their payload.
pub struct EventArgsOwned<T> {
    stop_propagation: bool,
    prevent_default: bool,
    value: T,
}

impl<T> EventArgsOwned<T> {
    /// Wraps `value` with both flags cleared.
    pub fn new(value: T) -> (r: Self)
        ensures
            r.flags() == fresh_flags(),
            r.payload() == value,
    {
        EventArgsOwned { stop_propagation: false, prevent_default: false, value }
    }
}

impl<T> EventArgs<T> for EventArgsOwned<T> {
    closed spec fn flags(&self) -> EventFlags {
        EventFlags {
            propagation_stopped: self.stop_propagation,
            default_prevented: self.prevent_default,
        }
    }

    closed spec fn payload(&self) -> T {
        self.value
    }

    fn is_propagation_stopped(&self) -> (r: bool) {
        self.stop_propagation
    }

    fn is_default_prevented(&self) -> (r: bool) {
        self.prevent_default
    }

    fn stop_propagation(&mut self) {
        self.stop_propagation = true;
    }

    fn prevent_default(&mut self) {
        self.prevent_default = true;
    }

    fn data(&self) -> (r: &T) {
        &self.value
    }
}

/// Event arguments that borrow their payload from the caller.
pub struct EventArgsRef<'a, T: 'static> {
    stop_propagation: bool,
    prevent_default: bool,
    value: &'a T,
}

impl<'a, T> EventArgsRef<'a, T> {
    /// Borrows `value` with both flags cleared.
    pub fn new(value: &'a T) -> (r: Self)
        ensures
            r.flags() == fresh_flags(),
            r.payload() == *value,
    {
        EventArgsRef { stop_propagation: false, prevent_default: false, value }
    }

    /// Borrows `value` with the given flags already in force.
    pub(crate) fn with_flags(value: &'a T, flags: EventFlags) -> (r: Self)
        ensures
            r.flags() == flags,
            r.payload() == *value,
    {
        EventArgsRef {
            stop_propagation: flags.propagation_stopped,
            prevent_default: flags.default_prevented,
            value,
        }
    }
}

impl<'a, T> EventArgs<T> for EventArgsRef<'a, T> {
    closed spec fn flags(&self) -> EventFlags {
        EventFlags {
            propagation_stopped: self.stop_propagation,
            default_prevented: self.prevent_default,
        }
    }

    closed spec fn payload(&self) -> T {
        *self.value
    }

    fn is_propagation_stopped(&self) -> (r: bool) {
        self.stop_propagation
    }

    fn is_default_prevented(&self) -> (r: bool) {
        self.prevent_default
    }

    fn stop_propagation(&mut self) {
        self.stop_propagation = true;
    }

    fn prevent_default(&mut self) {
        self.prevent_default = true;
    }

    fn data(&self) -> (r: &T) {
        self.value
    }
}

} // verus!
