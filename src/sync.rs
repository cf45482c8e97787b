//! Synchronized event handler: a listener sequence shared by every clone of
//! the handler and guarded by a readers-writer lock.
use vstd::prelude::*;
use vstd::rwlock::{RwLock, RwLockPredicate};

use std::sync::Arc;

use crate::args::EventArgsRef;
use crate::dispatch::{default_allowed, is_traversal, BoxedListener, Listeners, Step};
use crate::listener::EventListener;
use crate::EventAction;

verus! {

/// The lock places no condition on the listener sequence it holds.
pub struct AnyListeners;

impl<T: 'static> RwLockPredicate<Listeners<T>> for AnyListeners {
    open spec fn inv(self, v: Listeners<T>) -> bool {
        true
    }
}

/// A synchronized event handler.
#[verifier::reject_recursive_types(T)]
pub struct EventHandler<T: 'static> {
    listeners: Arc<RwLock<Listeners<T>, AnyListeners>>,
}

impl<T: 'static> EventHandler<T> {
    /// Whether the two handles guard one and the same listener sequence.
    pub closed spec fn shares_with(&self, other: &Self) -> bool {
        self.listeners == other.listeners
    }
}

impl<T: 'static> Clone for EventHandler<T> {
    /// Another handle on the same listener sequence.
    fn clone(&self) -> (r: Self)
        ensures
            r.shares_with(self),
    {
        EventHandler { listeners: self.listeners.clone() }
    }
}

impl<T: 'static> EventHandler<T> {
    /// Constructs a new event handler.
    pub fn new() -> Self {
        EventHandler { listeners: Arc::new(RwLock::new(Listeners::new(), Ghost(AnyListeners))) }
    }

    /// Dispatches an event with referenced data: runs the read phase of
    /// [`Listeners::dispatch_ref`] under the read lock, then its write phase
    /// under the write lock. The sequence is shared with every clone, so the
    /// result is stated of the sequence as it was read. When another handle
    /// shrank the sequence in between, below a recorded position, no removal
    /// is made. The lock is released by explicit calls, not on unwinding: if
    /// a listener panics, the read lock stays held, and later calls that
    /// need the write lock (`subscribe`, a dispatch that removes) wait for
    /// good.
    pub fn dispatch_ref(&self, data: &T) -> (r: bool)
        ensures
            exists|snapshot: Seq<BoxedListener<T>>, steps: Seq<Step>|
                {
                    &&& is_traversal(snapshot, *data, steps)
                    &&& r == default_allowed(steps)
                },
    {
        let read_handle = self.listeners.acquire_read();
        let (removed, allowed) = read_handle.borrow().collect_removals(data);
        read_handle.release_read();
        if removed.len() > 0 {
            let (mut listeners, write_handle) = self.listeners.acquire_write();
            if removed[0] < listeners.len() {
                listeners.remove_positions(&removed);
            }
            write_handle.release_write(listeners);
        }
        allowed
    }

    /// Dispatches an event with owned data; behaves as `dispatch_ref`.
    pub fn dispatch(&self, data: T) -> (r: bool)
        ensures
            exists|snapshot: Seq<BoxedListener<T>>, steps: Seq<Step>|
                {
                    &&& is_traversal(snapshot, data, steps)
                    &&& r == default_allowed(steps)
                },
    {
        self.dispatch_ref(&data)
    }

    /// Subscribes a new listener to the event.
    pub fn subscribe<E: EventListener<T>>(&self, listener: E) {
        let (mut listeners, write_handle) = self.listeners.acquire_write();
        listeners.subscribe(listener);
        write_handle.release_write(listeners);
    }

    /// Subscribes a new closure to the event.
    pub fn subscribe_fn<F, R>(&self, closure: F) where
        F: Fn(&mut EventArgsRef<'_, T>) -> R + Send + 'static,
        R: Into<EventAction>,
     {
        self.subscribe(closure);
    }
}

} // verus!
