//! The drain: a one-pass traversal that removes what it visits.

use vstd::prelude::*;
use std::hash::Hash;
use crate::clock::now;
use crate::laws::law_step_yields_unless_all_expired;
use crate::model::{drain_step, live};
use crate::set::TimedSet;

verus! {

/// A drain of a `TimedSet`.
///
/// A drain can be used once and empties the set: a step removes every element that
/// it visits, expired or not, and yields the first that is still a member. When a
/// step yields nothing, the set is empty.
#[verifier::reject_recursive_types(T)]
pub struct Iter<'a, T> {
    /// The set that is drained.
    pub set: &'a mut TimedSet<T>,
}

impl<'a, T> Iter<'a, T> {
    /// The entries that no step has visited yet.
    pub open spec fn view(&self) -> Map<T, nat> {
        (*self.set)@
    }

    /// The set that is drained is well formed.
    pub open spec fn wf(&self) -> bool {
        self.set.wf()
    }
}

impl<'a, T: Hash + Eq + Copy> Iter<'a, T> {
    /// One step at the instant `now`: the next element that is a member at `now`, or
    /// `None` if there is none. The elements that are visited on the way are removed
    /// from the set, and so is the one that is returned. The drain goes on with the
    /// same set.
    pub fn next_at(&mut self, now: u128) -> (out: Option<T>)
        requires
            old(self).wf(),
        ensures
            final(self).wf(),
            drain_step(old(self)@, final(self)@, out, now as nat),
            out is None <==> forall|k: T| !live(old(self)@, k, now as nat),
            final(self).set.default_ttl() == old(self).set.default_ttl(),
            *final(final(self).set) == *final(old(self).set),
    {
        let keys = self.set.keys();
        let ghost pre = self@;
        for i in 0..keys.len()
            invariant
                self.wf(),
                pre == old(self)@,
                self.set.default_ttl() == old(self).set.default_ttl(),
                *final(self.set) == *final(old(self).set),
                forall|k: T| #[trigger]
                    self@.contains_key(k) ==> pre.contains_key(k) && self@[k] == pre[k],
                forall|k: T|
                    (#[trigger] pre.contains_key(k)) && !self@.contains_key(k) ==> pre[k] <= now,
                forall|k: T| #[trigger]
                    self@.contains_key(k) ==> exists|j: int| i <= j < keys.len() && keys[j] == k,
        {
            let k = keys[i];
            let ghost before = self@;
            let alive = self.set.evict_at(&k, now);
            assert(self@ == before.remove(k));
            if alive {
                proof {
                    law_step_yields_unless_all_expired(pre, self@, Some(k), now as nat);
                }
                return Some(k);
            }
        }
        assert(self@ =~= Map::<T, nat>::empty());
        proof {
            law_step_yields_unless_all_expired(pre, self@, None, now as nat);
        }
        None
    }

    /// One step at a reading of the system clock.
    pub fn next(&mut self) -> (out: Option<T>)
        requires
            old(self).wf(),
        ensures
            final(self).wf(),
            exists|at: u128| #[trigger] drain_step(old(self)@, final(self)@, out, at as nat),
            final(self).set.default_ttl() == old(self).set.default_ttl(),
            *final(final(self).set) == *final(old(self).set),
    {
        let at: u128 = now();
        self.next_at(at)
    }
}

} // verus!
