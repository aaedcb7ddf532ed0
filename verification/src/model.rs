//! The mathematical model: a set is a map from each stored element to its deadline,
//! and instants and lifetimes are natural numbers of nanoseconds.

use vstd::prelude::*;

verus! {

/// The instant at which an element inserted at `now` with a lifetime of `ttl` expires.
pub open spec fn deadline(now: nat, ttl: nat) -> nat {
    now + ttl
}

/// Membership at the instant `now`: the element has an entry, and `now` lies strictly
/// before the deadline of that entry.
pub open spec fn live<T>(entries: Map<T, nat>, val: T, now: nat) -> bool {
    entries.contains_key(val) && now < entries[val]
}

/// The entries after `val` is inserted at `now` with a lifetime of `ttl`. A deadline
/// that `val` had before is overwritten.
pub open spec fn stored<T>(entries: Map<T, nat>, val: T, ttl: nat, now: nat) -> Map<T, nat> {
    entries.insert(val, deadline(now, ttl))
}

/// One step of a drain at the instant `now`, which takes the entries from `pre` to
/// `post` and yields `out`.
///
/// The step visits elements in an order of its choosing and removes each one it
/// visits. It stops at the first that is live at `now` and yields it; if it finds
/// none, it has removed everything. So what is left is left as it was, what was
/// removed without being yielded had expired, and what is yielded was live.
pub open spec fn drain_step<T>(
    pre: Map<T, nat>,
    post: Map<T, nat>,
    out: Option<T>,
    now: nat,
) -> bool {
    &&& forall|k: T| #[trigger] post.contains_key(k) ==> pre.contains_key(k) && post[k] == pre[k]
    &&& forall|k: T|
        (#[trigger] pre.contains_key(k)) && !post.contains_key(k) && out != Some(k) ==> pre[k]
            <= now
    &&& match out {
        Some(v) => live(pre, v, now) && !post.contains_key(v),
        None => post == Map::<T, nat>::empty(),
    }
}

/// A drain in several steps: step `i` is taken at the instant `times[i]`, takes the
/// entries from `states[i]` to `states[i + 1]` and yields `outs[i]`.
pub open spec fn drain_run<T>(
    states: Seq<Map<T, nat>>,
    outs: Seq<Option<T>>,
    times: Seq<nat>,
) -> bool {
    &&& states.len() == outs.len() + 1
    &&& times.len() == outs.len()
    &&& forall|i: int|
        0 <= i < outs.len() ==> drain_step(states[i], states[i + 1], #[trigger] outs[i], times[i])
}

/// Whether step `i` of a drain visits `val`: the step finds it stored and removes it.
pub open spec fn visits<T>(states: Seq<Map<T, nat>>, i: int, val: T) -> bool {
    states[i].contains_key(val) && !states[i + 1].contains_key(val)
}

} // verus!
