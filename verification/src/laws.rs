//! What holds of insertion, lookup and draining, whatever the elements and the
//! instants are.

use vstd::prelude::*;
use vstd::set_lib::lemma_len_subset;
use crate::model::{deadline, drain_run, drain_step, live, stored, visits};

verus! {

/// An element that is inserted with a lifetime of at least one nanosecond is a member
/// at the instant of its insertion.
pub proof fn law_insert_then_contains<T>(entries: Map<T, nat>, val: T, ttl: nat, now: nat)
    requires
        ttl > 0,
    ensures
        live(stored(entries, val, ttl, now), val, now),
{
}

/// An element is a member from its insertion up to its deadline and not at it: at the
/// instant `now + wait` it is a member if and only if `wait` is less than its lifetime.
/// So it is no member once its lifetime has passed, and an element that is inserted
/// with a lifetime of zero is never a member.
pub proof fn law_expiry<T>(entries: Map<T, nat>, val: T, ttl: nat, now: nat, wait: nat)
    ensures
        live(stored(entries, val, ttl, now), val, now + wait) <==> wait < ttl,
        wait >= ttl ==> !live(stored(entries, val, ttl, now), val, now + wait),
{
}

/// Of two elements that are inserted at one instant with lifetimes `d1 < d2`, in
/// either order, only the second is a member after a wait that lies strictly between
/// the two lifetimes.
pub proof fn law_boundary<T>(
    entries: Map<T, nat>,
    v1: T,
    v2: T,
    d1: nat,
    d2: nat,
    now: nat,
    wait: nat,
)
    requires
        v1 != v2,
        d1 < wait < d2,
    ensures
        !live(stored(stored(entries, v1, d1, now), v2, d2, now), v1, now + wait),
        live(stored(stored(entries, v1, d1, now), v2, d2, now), v2, now + wait),
        !live(stored(stored(entries, v2, d2, now), v1, d1, now), v1, now + wait),
        live(stored(stored(entries, v2, d2, now), v1, d1, now), v2, now + wait),
{
}

/// Inserting an element again overwrites its deadline: the set is as if the earlier
/// insertion had not happened, and the element is a member exactly up to the new
/// deadline.
pub proof fn law_overwrite<T>(
    entries: Map<T, nat>,
    val: T,
    d1: nat,
    t1: nat,
    d2: nat,
    t2: nat,
    at: nat,
)
    ensures
        stored(stored(entries, val, d1, t1), val, d2, t2) == stored(entries, val, d2, t2),
        live(stored(stored(entries, val, d1, t1), val, d2, t2), val, at) <==> at < deadline(t2, d2),
{
    assert(stored(stored(entries, val, d1, t1), val, d2, t2) =~= stored(entries, val, d2, t2));
}

/// An element is inserted at `now` with the lifetime `d1`, inserted again half of `d1`
/// later with the lifetime `d2`, and looked up after a further wait of half of `d1` and
/// half of `d2`. If that instant lies before the new deadline, the element is a member,
/// also where the first lifetime has passed by then.
pub proof fn law_overwrite_resets_lifetime<T>(
    entries: Map<T, nat>,
    val: T,
    d1: nat,
    d2: nat,
    now: nat,
)
    requires
        d1 / 2 + d2 / 2 < d2,
    ensures
        ({
            let again: nat = now + d1 / 2;
            let then: nat = again + d1 / 2 + d2 / 2;
            let first = stored(entries, val, d1, now);
            &&& live(stored(first, val, d2, again), val, then)
            &&& then >= deadline(now, d1) ==> !live(first, val, then)
        }),
{
}

/// A step of a drain yields nothing if and only if no stored element is a member at
/// the instant of the step.
pub proof fn law_step_yields_unless_all_expired<T>(
    pre: Map<T, nat>,
    post: Map<T, nat>,
    out: Option<T>,
    now: nat,
)
    requires
        drain_step(pre, post, out, now),
    ensures
        out is None <==> forall|k: T| !live(pre, k, now),
{
    if out is None {
        assert forall|k: T| !live(pre, k, now) by {
            if pre.contains_key(k) {
                assert(!post.contains_key(k));
            }
        }
    }
}

/// In a drain, what is stored after a later step was stored with the same deadline
/// before every earlier step.
proof fn lemma_run_shrinks<T>(
    states: Seq<Map<T, nat>>,
    outs: Seq<Option<T>>,
    times: Seq<nat>,
    i: int,
    j: int,
)
    requires
        drain_run(states, outs, times),
        0 <= i <= j <= outs.len(),
    ensures
        forall|k: T| #[trigger]
            states[j].contains_key(k) ==> states[i].contains_key(k) && states[j][k] == states[i][k],
    decreases j - i,
{
    if i < j {
        lemma_run_shrinks(states, outs, times, i, j - 1);
        assert(drain_step(states[j - 1], states[j - 1 + 1], outs[j - 1], times[j - 1]));
        assert forall|k: T| #[trigger] states[j].contains_key(k) implies states[i].contains_key(k)
            && states[j][k] == states[i][k] by {
            assert(states[j - 1].contains_key(k));
        }
    }
}

/// In a drain, an element that was stored at the start and is not stored after `j`
/// steps was visited by one of them.
proof fn lemma_removed_was_visited<T>(
    states: Seq<Map<T, nat>>,
    outs: Seq<Option<T>>,
    times: Seq<nat>,
    val: T,
    j: int,
) -> (i: int)
    requires
        drain_run(states, outs, times),
        0 <= j <= outs.len(),
        states[0].contains_key(val),
        !states[j].contains_key(val),
    ensures
        0 <= i < j,
        visits(states, i, val),
    decreases j,
{
    if states[j - 1].contains_key(val) {
        j - 1
    } else {
        lemma_removed_was_visited(states, outs, times, val, j - 1)
    }
}

/// A drain that is run until a step yields nothing empties the set, visits every
/// stored element exactly once, yields an element if and only if it is a member at the
/// instant of the step that visits it, and so yields no element twice. Afterwards no
/// element is a member at any instant, whether it had expired before the drain or not.
pub proof fn law_full_drain<T>(states: Seq<Map<T, nat>>, outs: Seq<Option<T>>, times: Seq<nat>)
    requires
        drain_run(states, outs, times),
        outs.len() > 0,
        outs.last() is None,
    ensures
        states.last() == Map::<T, nat>::empty(),
        forall|val: T, at: nat| !live(states.last(), val, at),
        forall|val: T| #[trigger]
            states[0].contains_key(val) ==> exists|i: int|
                0 <= i < outs.len() && #[trigger] visits(states, i, val),
        forall|val: T, i: int, j: int|
            0 <= i < outs.len() && 0 <= j < outs.len() && #[trigger] visits(states, i, val)
                && #[trigger] visits(states, j, val) ==> i == j,
        forall|val: T, i: int|
            0 <= i < outs.len() && #[trigger] visits(states, i, val) ==> (outs[i] == Some(val)
                <==> live(states[0], val, times[i])),
        forall|i: int|
            0 <= i < outs.len() && (#[trigger] outs[i]) is Some ==> visits(states, i, outs[i]->0),
        forall|i: int, j: int|
            0 <= i < j < outs.len() && (#[trigger] outs[i]) is Some ==> outs[i]
                != #[trigger] outs[j],
{
    let n: int = outs.len() as int;
    assert(drain_step(states[n - 1], states[n - 1 + 1], outs[n - 1], times[n - 1]));
    assert(states.last() == states[n - 1 + 1]);
    assert forall|val: T| #[trigger] states[0].contains_key(val) implies exists|i: int|
        0 <= i < outs.len() && #[trigger] visits(states, i, val) by {
        let i: int = lemma_removed_was_visited(states, outs, times, val, n);
        assert(visits(states, i, val));
    }
    assert forall|val: T, i: int, j: int|
        0 <= i < outs.len() && 0 <= j < outs.len() && #[trigger] visits(states, i, val)
            && #[trigger] visits(states, j, val) implies i == j by {
        if i < j {
            lemma_run_shrinks(states, outs, times, i + 1, j);
        } else if j < i {
            lemma_run_shrinks(states, outs, times, j + 1, i);
        }
    }
    assert forall|val: T, i: int|
        0 <= i < outs.len() && #[trigger] visits(states, i, val) implies (outs[i] == Some(val)
            <==> live(states[0], val, times[i])) by {
        lemma_run_shrinks(states, outs, times, 0, i);
        assert(drain_step(states[i], states[i + 1], outs[i], times[i]));
    }
    assert forall|i: int| 0 <= i < outs.len() && (#[trigger] outs[i]) is Some implies visits(
        states,
        i,
        outs[i]->0,
    ) by {
        assert(drain_step(states[i], states[i + 1], outs[i], times[i]));
    }
    assert forall|i: int, j: int|
        0 <= i < j < outs.len() && (#[trigger] outs[i]) is Some implies outs[i]
            != #[trigger] outs[j] by {
        assert(drain_step(states[i], states[i + 1], outs[i], times[i]));
        assert(drain_step(states[j], states[j + 1], outs[j], times[j]));
        lemma_run_shrinks(states, outs, times, i + 1, j);
    }
}

/// A step that yields takes at least one element out of a finite set.
proof fn lemma_yield_shrinks<T>(pre: Map<T, nat>, post: Map<T, nat>, out: Option<T>, now: nat)
    requires
        drain_step(pre, post, out, now),
        pre.dom().finite(),
        out is Some,
    ensures
        post.dom().finite(),
        post.dom().len() < pre.dom().len(),
{
    let rest = pre.dom().remove(out->0);
    assert forall|k: T| post.dom().contains(k) implies rest.contains(k) by {
        assert(post.contains_key(k));
    }
    lemma_len_subset(post.dom(), rest);
}

/// After `j` steps that all yielded, a finite set has lost at least `j` elements.
proof fn lemma_yields_count<T>(
    states: Seq<Map<T, nat>>,
    outs: Seq<Option<T>>,
    times: Seq<nat>,
    j: int,
)
    requires
        drain_run(states, outs, times),
        states[0].dom().finite(),
        0 <= j <= outs.len(),
        forall|i: int| 0 <= i < j ==> (#[trigger] outs[i]) is Some,
    ensures
        states[j].dom().finite(),
        states[j].dom().len() + j <= states[0].dom().len(),
    decreases j,
{
    if j > 0 {
        lemma_yields_count(states, outs, times, j - 1);
        assert(drain_step(states[j - 1], states[j - 1 + 1], outs[j - 1], times[j - 1]));
        lemma_yield_shrinks(states[j - 1], states[j], outs[j - 1], times[j - 1]);
    }
}

/// A drain comes to an end: the steps that yield are at most as many as the elements
/// that were stored when it began, so the step after them yields nothing.
pub proof fn law_drain_ends<T>(states: Seq<Map<T, nat>>, outs: Seq<Option<T>>, times: Seq<nat>)
    requires
        drain_run(states, outs, times),
        states[0].dom().finite(),
        forall|i: int| 0 <= i < outs.len() ==> (#[trigger] outs[i]) is Some,
    ensures
        outs.len() <= states[0].dom().len(),
{
    lemma_yields_count(states, outs, times, outs.len() as int);
}

} // verus!
