//! The dispatch algorithm over a plain listener sequence: a traversal in
//! reverse registration order that records removal requests, and the
//! reconciliation that drops the listeners that asked for it.
use vstd::prelude::*;

use crate::args::{fresh_flags, EventArgs, EventArgsRef, EventFlags};
use crate::listener::EventListener;
use crate::EventAction;

verus! {

/// A listener handle as the registry stores it.
#[verifier::reject_recursive_types(T)]
pub struct BoxedListener<T: 'static> {
    listener: Box<dyn EventListener<T>>,
}

impl<T: 'static> BoxedListener<T> {
    /// What a call of the held listener may do.
    pub closed spec fn responds(
        &self,
        payload: T,
        before: EventFlags,
        after: EventFlags,
        action: EventAction,
    ) -> bool {
        self.listener.responds(payload, before, after, action)
    }

    /// Relies on `Box::new` and the unsizing coercion to a trait object,
    /// which Verus does not model: the result holds `listener`.
    #[verifier::external_body]
    pub(crate) fn new<E: EventListener<T>>(listener: E) -> (r: BoxedListener<T>)
        ensures
            forall|payload: T, before: EventFlags, after: EventFlags, action: EventAction|
                r.responds(payload, before, after, action) == listener.responds(
                    payload,
                    before,
                    after,
                    action,
                ),
    {
        BoxedListener { listener: Box::new(listener) }
    }

    /// Calls the held listener.
    pub fn call(&self, event: &mut EventArgsRef<'_, T>) -> (r: EventAction)
        ensures
            self.responds(old(event).payload(), old(event).flags(), final(event).flags(), r),
    {
        self.listener.call(event)
    }
}

/// One listener call during a traversal: the flags it saw, the flags it left,
/// and the action it returned.
pub struct Step {
    pub before: EventFlags,
    pub after: EventFlags,
    pub action: EventAction,
}

/// Position in a sequence of `n` listeners of the one called at step `i`:
/// the newest listener comes first.
pub open spec fn visited_position(n: int, i: int) -> int {
    n - 1 - i
}

/// A flag is set in the result when it is set in either argument.
pub open spec fn merge_flags(a: EventFlags, b: EventFlags) -> EventFlags {
    EventFlags {
        propagation_stopped: a.propagation_stopped || b.propagation_stopped,
        default_prevented: a.default_prevented || b.default_prevented,
    }
}

/// The flags in force once the call of `step` has returned: those it was
/// handed and those it left set. A flag once set stays set.
pub open spec fn flags_after(step: Step) -> EventFlags {
    merge_flags(step.before, step.after)
}

/// `steps` is what a traversal of `ls` with `payload` can produce: the
/// listeners are called newest first, each one is handed the payload and the
/// flags in force after the previous call, each call is one its listener may
/// make, and the traversal ends at the first call after which propagation is
/// stopped, or after the oldest listener.
pub open spec fn is_traversal<T>(ls: Seq<BoxedListener<T>>, payload: T, steps: Seq<Step>) -> bool {
    let n = ls.len() as int;
    &&& steps.len() <= n
    &&& steps.len() > 0 ==> steps[0].before == fresh_flags()
    &&& forall|i: int| 0 < i < steps.len() ==> #[trigger] steps[i].before == flags_after(steps[i - 1])
    &&& forall|i: int|
        0 <= i < steps.len() - 1 ==> !flags_after(#[trigger] steps[i]).propagation_stopped
    &&& steps.len() < n ==> steps.len() > 0 && flags_after(steps.last()).propagation_stopped
    &&& forall|i: int|
        0 <= i < steps.len() ==> ls[visited_position(n, i)].responds(
            payload,
            (#[trigger] steps[i]).before,
            steps[i].after,
            steps[i].action,
        )
}

/// Whether no call of the traversal left the default action prevented.
pub open spec fn default_allowed(steps: Seq<Step>) -> bool {
    forall|i: int| 0 <= i < steps.len() ==> !(#[trigger] steps[i]).after.default_prevented
}

/// The positions, among `n` listeners, of those that asked for removal, in
/// the order in which they were called (highest position first).
pub open spec fn removal_list(n: int, steps: Seq<Step>) -> Seq<int>
    decreases steps.len(),
{
    if steps.len() == 0 {
        Seq::empty()
    } else {
        let front = removal_list(n, steps.drop_last());
        if steps.last().action == EventAction::Remove {
            front.push(visited_position(n, steps.len() - 1))
        } else {
            front
        }
    }
}

/// The entries of `s` whose positions are not in `marks`, in their order.
pub open spec fn without_marked<A>(s: Seq<A>, marks: Set<int>) -> Seq<A>
    decreases s.len(),
{
    if s.len() == 0 {
        s
    } else {
        let front = without_marked(s.drop_last(), marks);
        if marks.contains(s.len() - 1) {
            front
        } else {
            front.push(s.last())
        }
    }
}

/// Positions as mathematical integers.
pub open spec fn as_positions(v: Seq<usize>) -> Seq<int> {
    v.map_values(|x: usize| x as int)
}

/// Whether `v` is strictly decreasing.
pub open spec fn strictly_decreasing(v: Seq<usize>) -> bool {
    forall|a: int, b: int| 0 <= a < b < v.len() ==> v[a] > v[b]
}

/// `s` read back to front.
pub open spec fn reversed<A>(s: Seq<A>) -> Seq<A> {
    Seq::new(s.len(), |i: int| s[s.len() - 1 - i])
}

/// Calls the listeners of `listeners` newest first, each with a fresh event
/// argument on `data` that carries the flags in force, until propagation is
/// stopped. Returns the positions of the listeners that asked for removal,
/// highest first, and whether the default action was left allowed.
#[verifier::rlimit(100)]
pub fn collect_removals<T: 'static>(
    listeners: &Vec<BoxedListener<T>>,
    data: &T,
) -> (r: (Vec<usize>, bool))
    ensures
        exists|steps: Seq<Step>|
            {
                &&& is_traversal(listeners@, *data, steps)
                &&& as_positions(r.0@) == removal_list(listeners@.len() as int, steps)
                &&& r.1 == default_allowed(steps)
            },
        strictly_decreasing(r.0@),
        forall|k: int| 0 <= k < r.0@.len() ==> r.0@[k] < listeners@.len(),
{
    let n = listeners.len();
    let mut removed: Vec<usize> = Vec::new();
    let mut current = EventFlags { propagation_stopped: false, default_prevented: false };
    let ghost mut steps: Seq<Step> = Seq::empty();
    let mut i: usize = n;
    while i > 0 && !current.propagation_stopped
        invariant
            n == listeners@.len(),
            i <= n,
            steps.len() == n - i,
            steps.len() == 0 ==> current == fresh_flags(),
            steps.len() > 0 ==> current == flags_after(steps.last()),
            steps.len() > 0 ==> steps[0].before == fresh_flags(),
            forall|j: int|
                0 < j < steps.len() ==> #[trigger] steps[j].before == flags_after(steps[j - 1]),
            forall|j: int|
                0 <= j < steps.len() - 1 ==> !flags_after(#[trigger] steps[j]).propagation_stopped,
            forall|j: int|
                0 <= j < steps.len() ==> listeners@[visited_position(n as int, j)].responds(
                    *data,
                    (#[trigger] steps[j]).before,
                    steps[j].after,
                    steps[j].action,
                ),
            current.default_prevented == !default_allowed(steps),
            as_positions(removed@) == removal_list(n as int, steps),
            strictly_decreasing(removed@),
            forall|k: int| 0 <= k < removed@.len() ==> i <= #[trigger] removed@[k] < n,
        decreases i,
    {
        i = i - 1;
        let ghost old_steps = steps;
        let ghost old_removed = removed@;
        let mut event = EventArgsRef::with_flags(data, current);
        let action = listeners[i].call(&mut event);
        let after = EventFlags {
            propagation_stopped: event.is_propagation_stopped(),
            default_prevented: event.is_default_prevented(),
        };
        let ghost step = Step { before: current, after, action };
        proof {
            steps = old_steps.push(step);
            assert(steps.drop_last() =~= old_steps);
            assert forall|j: int| 0 <= j < steps.len() implies listeners@[visited_position(
                n as int,
                j,
            )].responds(*data, (#[trigger] steps[j]).before, steps[j].after, steps[j].action) by {
                if j < old_steps.len() {
                    assert(steps[j] == old_steps[j]);
                }
            }
            assert forall|j: int| 0 < j < steps.len() implies #[trigger] steps[j].before
                == flags_after(steps[j - 1]) by {
                if j < old_steps.len() {
                    assert(steps[j] == old_steps[j]);
                }
                assert(steps[j - 1] == old_steps[j - 1]);
            }
            assert forall|j: int| 0 <= j < steps.len() - 1 implies !flags_after(
                #[trigger] steps[j],
            ).propagation_stopped by {
                assert(steps[j] == old_steps[j]);
            }
        }
        if action == EventAction::Remove {
            removed.push(i);
            proof {
                assert(as_positions(removed@) =~= as_positions(old_removed).push(i as int));
                assert forall|a: int, b: int| 0 <= a < b < removed@.len() implies removed@[a]
                    > removed@[b] by {
                    if b == removed@.len() - 1 {
                        assert(old_removed[a] >= i + 1);
                    } else {
                        assert(old_removed[a] > old_removed[b]);
                    }
                }
            }
        }
        current = EventFlags {
            propagation_stopped: current.propagation_stopped || after.propagation_stopped,
            default_prevented: current.default_prevented || after.default_prevented,
        };
        proof {
            assert(removal_list(n as int, steps) == if action == EventAction::Remove {
                removal_list(n as int, old_steps).push(i as int)
            } else {
                removal_list(n as int, old_steps)
            });
            assert(current.default_prevented == !default_allowed(steps)) by {
                if current.default_prevented {
                    if after.default_prevented {
                        assert(steps[steps.len() - 1] == step);
                    } else {
                        let w = choose|w: int|
                            0 <= w < old_steps.len() && old_steps[w].after.default_prevented;
                        assert(steps[w] == old_steps[w]);
                    }
                } else {
                    assert forall|w: int| 0 <= w < steps.len() implies !(
                    #[trigger] steps[w]).after.default_prevented by {
                        if w < old_steps.len() {
                            assert(steps[w] == old_steps[w]);
                        }
                    }
                }
            }
        }
    }
    proof {
        assert(is_traversal(listeners@, *data, steps));
    }
    (removed, !current.default_prevented)
}

/// Drops from `listeners` the entries at the positions listed in `removed`,
/// keeping the others in their order. The positions are handled from the
/// highest down, so each one still names the entry it named before.
pub fn remove_positions<A>(listeners: &mut Vec<A>, removed: &Vec<usize>)
    requires
        strictly_decreasing(removed@),
        forall|k: int| 0 <= k < removed@.len() ==> #[trigger] removed@[k] < old(listeners)@.len(),
    ensures
        final(listeners)@ == without_marked(old(listeners)@, as_positions(removed@).to_set()),
{
    let ghost s = listeners@;
    let ghost marks = as_positions(removed@).to_set();
    let ghost goal = without_marked(s, marks);
    let mut kept_rev: Vec<A> = Vec::new();
    let mut k: usize = 0;
    proof {
        assert(s.take(s.len() as int) =~= s);
        assert(reversed(kept_rev@) =~= Seq::<A>::empty());
        assert(goal =~= without_marked(listeners@, marks) + reversed(kept_rev@));
    }
    while listeners.len() > 0
        invariant
            listeners@ == s.take(listeners@.len() as int),
            listeners@.len() <= s.len(),
            goal == without_marked(listeners@, marks) + reversed(kept_rev@),
            marks == as_positions(removed@).to_set(),
            strictly_decreasing(removed@),
            k <= removed@.len(),
            forall|q: int| 0 <= q < k ==> #[trigger] removed@[q] >= listeners@.len(),
            forall|q: int| k <= q < removed@.len() ==> #[trigger] removed@[q] < listeners@.len(),
        decreases listeners@.len(),
    {
        let ghost prefix = listeners@;
        let ghost kept_before = kept_rev@;
        let x = listeners.pop().unwrap();
        let j = listeners.len();
        proof {
            assert(prefix.drop_last() =~= listeners@);
            assert(listeners@ =~= s.take(j as int));
        }
        if k < removed.len() && removed[k] == j {
            k = k + 1;
            proof {
                assert(as_positions(removed@)[k - 1] == j as int);
                assert(marks.contains(j as int));
            }
        } else {
            kept_rev.push(x);
            proof {
                assert(!marks.contains(j as int)) by {
                    if marks.contains(j as int) {
                        let q = choose|q: int|
                            0 <= q < removed@.len() && as_positions(removed@)[q] == j as int;
                        assert(removed@[q] == j);
                        if q > k {
                            assert(removed@[k as int] > removed@[q]);
                        }
                    }
                }
                assert(reversed(kept_rev@) =~= seq![x] + reversed(kept_before));
                assert(goal =~= without_marked(listeners@, marks) + reversed(kept_rev@));
            }
        }
        proof {
            assert forall|q: int| k <= q < removed@.len() implies #[trigger] removed@[q]
                < listeners@.len() by {
                if q > k {
                    assert(removed@[k as int] > removed@[q]);
                }
            }
        }
    }
    proof {
        assert(goal =~= reversed(kept_rev@));
    }
    while kept_rev.len() > 0
        invariant
            goal == listeners@ + reversed(kept_rev@),
        decreases kept_rev@.len(),
    {
        let ghost kept_before = kept_rev@;
        let x = kept_rev.pop().unwrap();
        listeners.push(x);
        proof {
            assert(reversed(kept_before) =~= seq![x] + reversed(kept_rev@));
            assert(goal =~= listeners@ + reversed(kept_rev@));
        }
    }
    proof {
        assert(goal =~= listeners@);
    }
}

/// A listener sequence with a single owner, oldest first. A handler keeps one
/// behind its lock.
#[verifier::reject_recursive_types(T)]
pub struct Listeners<T: 'static> {
    entries: Vec<BoxedListener<T>>,
}

impl<T: 'static> View for Listeners<T> {
    type V = Seq<BoxedListener<T>>;

    closed spec fn view(&self) -> Seq<BoxedListener<T>> {
        self.entries@
    }
}

impl<T: 'static> Listeners<T> {
    /// An empty sequence.
    pub fn new() -> (r: Self)
        ensures
            r@ == Seq::<BoxedListener<T>>::empty(),
    {
        Listeners { entries: Vec::new() }
    }

    /// The number of listeners.
    pub fn len(&self) -> (r: usize)
        ensures
            r == self@.len(),
    {
        self.entries.len()
    }

    /// Appends `listener` after every listener already there.
    pub fn subscribe<E: EventListener<T>>(&mut self, listener: E)
        ensures
            final(self)@.len() == old(self)@.len() + 1,
            final(self)@.drop_last() == old(self)@,
            forall|payload: T, before: EventFlags, after: EventFlags, action: EventAction|
                final(self)@.last().responds(payload, before, after, action)
                    == listener.responds(payload, before, after, action),
    {
        let boxed = BoxedListener::new(listener);
        let ghost before = self.entries@;
        self.entries.push(boxed);
        assert(self.entries@.drop_last() =~= before);
    }

    /// The read phase of a dispatch on `data`: see [`collect_removals`].
    pub fn collect_removals(&self, data: &T) -> (r: (Vec<usize>, bool))
        ensures
            exists|steps: Seq<Step>|
                {
                    &&& is_traversal(self@, *data, steps)
                    &&& as_positions(r.0@) == removal_list(self@.len() as int, steps)
                    &&& r.1 == default_allowed(steps)
                },
            strictly_decreasing(r.0@),
            forall|k: int| 0 <= k < r.0@.len() ==> r.0@[k] < self@.len(),
    {
        collect_removals(&self.entries, data)
    }

    /// The write phase of a dispatch: see [`remove_positions`].
    pub fn remove_positions(&mut self, removed: &Vec<usize>)
        requires
            strictly_decreasing(removed@),
            forall|k: int| 0 <= k < removed@.len() ==> #[trigger] removed@[k] < old(self)@.len(),
        ensures
            final(self)@ == without_marked(old(self)@, as_positions(removed@).to_set()),
    {
        remove_positions(&mut self.entries, removed);
    }

    /// Dispatches an event on `data`: calls the listeners newest first until
    /// propagation is stopped, drops those that returned `Remove`, and
    /// returns whether the default action was left allowed.
    pub fn dispatch_ref(&mut self, data: &T) -> (r: bool)
        ensures
            exists|steps: Seq<Step>|
                {
                    &&& is_traversal(old(self)@, *data, steps)
                    &&& final(self)@ == without_marked(
                        old(self)@,
                        removal_list(old(self)@.len() as int, steps).to_set(),
                    )
                    &&& r == default_allowed(steps)
                },
    {
        let (removed, allowed) = collect_removals(&self.entries, data);
        let ghost steps = choose|steps: Seq<Step>|
            {
                &&& is_traversal(old(self)@, *data, steps)
                &&& as_positions(removed@) == removal_list(old(self)@.len() as int, steps)
                &&& allowed == default_allowed(steps)
            };
        remove_positions(&mut self.entries, &removed);
        assert(is_traversal(old(self)@, *data, steps));
        allowed
    }

    /// Dispatches an event that owns `data`; behaves as `dispatch_ref`.
    pub fn dispatch(&mut self, data: T) -> (r: bool)
        ensures
            exists|steps: Seq<Step>|
                {
                    &&& is_traversal(old(self)@, data, steps)
                    &&& final(self)@ == without_marked(
                        old(self)@,
                        removal_list(old(self)@.len() as int, steps).to_set(),
                    )
                    &&& r == default_allowed(steps)
                },
    {
        self.dispatch_ref(&data)
    }
}

} // verus!
