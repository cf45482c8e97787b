//! What every dispatch guarantees, stated over the traversal model.
use vstd::prelude::*;

use crate::dispatch::{
    default_allowed, flags_after, is_traversal, removal_list, visited_position, without_marked,
    BoxedListener, Step,
};
use crate::EventAction;

verus! {

/// How many of the positions below `j` are not in `marks`.
pub open spec fn count_kept(marks: Set<int>, j: int) -> nat
    decreases j,
{
    if j <= 0 {
        0
    } else {
        count_kept(marks, j - 1) + if marks.contains(j - 1) {
            0nat
        } else {
            1nat
        }
    }
}

/// With no listeners, a dispatch calls nobody, asks for no removal and leaves
/// the default action allowed.
pub proof fn lemma_empty_dispatch<T>(payload: T, steps: Seq<Step>)
    requires
        is_traversal(Seq::<BoxedListener<T>>::empty(), payload, steps),
    ensures
        steps.len() == 0,
        default_allowed(steps),
        removal_list(0, steps) == Seq::<int>::empty(),
{
}

/// Once a listener stops propagation, the traversal ends with it: no listener
/// registered before it is called.
pub proof fn lemma_stop_ends_traversal<T>(
    ls: Seq<BoxedListener<T>>,
    payload: T,
    steps: Seq<Step>,
    i: int,
)
    requires
        is_traversal(ls, payload, steps),
        0 <= i < steps.len(),
        steps[i].after.propagation_stopped,
    ensures
        steps.len() == i + 1,
{
    if steps.len() > i + 1 {
        assert(!flags_after(steps[i]).propagation_stopped);
    }
}

/// Flags never go back to false during a dispatch: a flag handed to a
/// listener, or set by it, is handed to every listener called after it.
pub proof fn lemma_flags_stay_set<T>(
    ls: Seq<BoxedListener<T>>,
    payload: T,
    steps: Seq<Step>,
    i: int,
    j: int,
)
    requires
        is_traversal(ls, payload, steps),
        0 <= i < j < steps.len(),
    ensures
        flags_after(steps[i]).propagation_stopped ==> steps[j].before.propagation_stopped,
        flags_after(steps[i]).default_prevented ==> steps[j].before.default_prevented,
    decreases j - i,
{
    assert(steps[j].before == flags_after(steps[j - 1]));
    if j > i + 1 {
        lemma_flags_stay_set(ls, payload, steps, i, j - 1);
    }
}

/// Once a listener leaves the default action prevented, the dispatch reports
/// it prevented, whatever the listeners called after it do.
pub proof fn lemma_prevent_default_wins(steps: Seq<Step>, i: int)
    requires
        0 <= i < steps.len(),
        steps[i].after.default_prevented,
    ensures
        !default_allowed(steps),
{
}

/// A position is in the removal list exactly when its listener was called and
/// returned `Remove`.
pub proof fn lemma_removal_list_is_requests(n: int, steps: Seq<Step>, j: int)
    requires
        steps.len() <= n,
    ensures
        removal_list(n, steps).contains(j) <==> (0 <= visited_position(n, j) < steps.len()
            && steps[visited_position(n, j)].action == EventAction::Remove),
    decreases steps.len(),
{
    if steps.len() > 0 {
        let front = steps.drop_last();
        lemma_removal_list_is_requests(n, front, j);
        let k = visited_position(n, j);
        if 0 <= k < front.len() {
            assert(steps[k] == front[k]);
        }
        if steps.last().action == EventAction::Remove {
            let f = removal_list(n, front);
            let p = visited_position(n, steps.len() - 1);
            assert(removal_list(n, steps) == f.push(p));
            if f.push(p).contains(j) {
                let w = choose|w: int| 0 <= w < f.push(p).len() && f.push(p)[w] == j;
                if w < f.len() {
                    assert(f.contains(j));
                }
            }
            if f.contains(j) {
                let w = choose|w: int| 0 <= w < f.len() && f[w] == j;
                assert(f.push(p)[w] == j);
            }
            if j == p {
                assert(f.push(p)[f.len() as int] == j);
            }
        }
    }
}

/// An unmarked position counts itself: more unmarked positions lie below any
/// higher bound than below it.
proof fn lemma_count_kept_grows(marks: Set<int>, j: int, k: int)
    requires
        0 <= j < k,
        !marks.contains(j),
    ensures
        count_kept(marks, j) < count_kept(marks, k),
    decreases k,
{
    if k > j + 1 {
        lemma_count_kept_grows(marks, j, k - 1);
    }
}

/// Removal keeps exactly the entries whose positions are not marked, in their
/// order: as many as there are unmarked positions, and the entry at each
/// unmarked position lands after the unmarked entries below it.
pub proof fn lemma_removal_keeps_unmarked<A>(s: Seq<A>, marks: Set<int>)
    ensures
        without_marked(s, marks).len() == count_kept(marks, s.len() as int),
        forall|j: int|
            0 <= j < s.len() && !marks.contains(j) ==> without_marked(s, marks)[count_kept(
                marks,
                j,
            ) as int] == s[j],
    decreases s.len(),
{
    if s.len() > 0 {
        let front = s.drop_last();
        let last = s.len() - 1;
        let kept_front = without_marked(front, marks);
        lemma_removal_keeps_unmarked(front, marks);
        assert(without_marked(s, marks) == if marks.contains(last) {
            kept_front
        } else {
            kept_front.push(s.last())
        });
        assert(count_kept(marks, s.len() as int) == count_kept(marks, last) + if marks.contains(
            last,
        ) {
            0nat
        } else {
            1nat
        });
        assert forall|j: int|
            0 <= j < s.len() && !marks.contains(j) implies without_marked(s, marks)[count_kept(
            marks,
            j,
        ) as int] == s[j] by {
            if j < last {
                assert(front[j] == s[j]);
                lemma_count_kept_grows(marks, j, last);
                assert(kept_front[count_kept(marks, j) as int] == s[j]);
            }
        }
    }
}

/// One dispatch leaves exactly the listeners that did not return `Remove`
/// when called, in their order: a listener called with `Remove` as its answer
/// is gone, every other one stays, wherever it stands.
pub proof fn lemma_dispatch_keeps_exactly_the_rest<T>(
    ls: Seq<BoxedListener<T>>,
    payload: T,
    steps: Seq<Step>,
    j: int,
)
    requires
        is_traversal(ls, payload, steps),
        0 <= j < ls.len(),
    ensures
        ({
            let marks = removal_list(ls.len() as int, steps).to_set();
            let kept = without_marked(ls, marks);
            &&& marks.contains(j) <==> (visited_position(ls.len() as int, j) < steps.len()
                && steps[visited_position(ls.len() as int, j)].action == EventAction::Remove)
            &&& kept.len() == count_kept(marks, ls.len() as int)
            &&& !marks.contains(j) ==> kept[count_kept(marks, j) as int] == ls[j]
        }),
{
    let n = ls.len() as int;
    lemma_removal_list_is_requests(n, steps, j);
    lemma_removal_keeps_unmarked(ls, removal_list(n, steps).to_set());
}

} // verus!
