//! The set itself: insertion and lookup.

use vstd::prelude::*;
use std::collections::HashMap;
use std::hash::Hash;
use std::time::Duration;
use vstd::std_specs::hash::obeys_key_model;
use vstd::std_specs::iter::IteratorSpec;
use crate::clock::{duration_nanos, now};
use crate::iter::Iter;
use crate::model::{deadline, live, stored};

verus! {

/// Whether the stored form `slot` stands for the deadline `exact`. A deadline that no
/// `u128` can hold lies after every reading of the clock, and is stored as `None`.
spec fn stands_for(slot: Option<u128>, exact: nat) -> bool {
    match slot {
        Some(at) => exact == at,
        None => exact > u128::MAX,
    }
}

/// A set whose elements expire.
///
/// Each element is kept with its deadline: the instant, in nanoseconds since the Unix
/// epoch, from which on it no longer counts as a member. An expired element stays in
/// storage until it is inserted again or a drain visits it.
#[verifier::reject_recursive_types(T)]
pub struct TimedSet<T> {
    ttl: u128,
    set: HashMap<T, Option<u128>>,
    deadlines: Ghost<Map<T, nat>>,
}

impl<T> TimedSet<T> {
    /// The stored elements, each with its deadline. An element may be stored and
    /// expired.
    pub closed spec fn view(&self) -> Map<T, nat> {
        self.deadlines@
    }

    /// The lifetime, in nanoseconds, that `add` gives to an element.
    pub closed spec fn default_ttl(&self) -> nat {
        self.ttl as nat
    }

    /// The elements can key a hash table, and the storage holds the deadlines of the
    /// view.
    pub closed spec fn wf(&self) -> bool {
        &&& obeys_key_model::<T>()
        &&& self.set@.dom() == self.deadlines@.dom()
        &&& forall|k: T| #[trigger]
            self.set@.contains_key(k) ==> stands_for(self.set@[k], self.deadlines@[k])
    }

    /// A set holds finitely many elements.
    pub proof fn lemma_finite(&self)
        requires
            self.wf(),
        ensures
            self@.dom().finite(),
    {
        broadcast use vstd::std_specs::hash::axiom_hashmap_view_finite_dom;
    }
}

impl<T: Hash + Eq> TimedSet<T> {
    /// An empty set in which `add` gives every element the lifetime `ttl`.
    pub fn new(ttl: Duration) -> (ts: Self)
        requires
            obeys_key_model::<T>(),
        ensures
            ts.wf(),
            ts@ == Map::<T, nat>::empty(),
            ts.default_ttl() == duration_nanos(ttl),
    {
        TimedSet { ttl: ttl.as_nanos(), set: HashMap::new(), deadlines: Ghost(Map::empty()) }
    }

    /// Stores `val` with the deadline `now + ttl`.
    fn insert_until(&mut self, val: T, ttl: u128, now: u128)
        requires
            old(self).wf(),
        ensures
            final(self).wf(),
            final(self)@ == stored(old(self)@, val, ttl as nat, now as nat),
            final(self).default_ttl() == old(self).default_ttl(),
    {
        broadcast use vstd::std_specs::hash::group_hash_axioms;
        self.set.insert(val, now.checked_add(ttl));
        proof {
            self.deadlines@ = self.deadlines@.insert(val, deadline(now as nat, ttl as nat));
        }
    }

    /// Inserts `val` at the instant `now` with the default lifetime. If `val` is
    /// stored already, its deadline is overwritten.
    pub fn add_at(&mut self, val: T, now: u128)
        requires
            old(self).wf(),
        ensures
            final(self).wf(),
            final(self)@ == stored(old(self)@, val, old(self).default_ttl(), now as nat),
            final(self).default_ttl() == old(self).default_ttl(),
    {
        let ttl: u128 = self.ttl;
        self.insert_until(val, ttl, now)
    }

    /// Inserts `val` at the instant `now` with the lifetime `ttl`. If `val` is stored
    /// already, its deadline is overwritten.
    pub fn add_with_ttl_at(&mut self, val: T, ttl: Duration, now: u128)
        requires
            old(self).wf(),
        ensures
            final(self).wf(),
            final(self)@ == stored(old(self)@, val, duration_nanos(ttl) as nat, now as nat),
            final(self).default_ttl() == old(self).default_ttl(),
    {
        self.insert_until(val, ttl.as_nanos(), now)
    }

    /// Whether `val` is a member at the instant `now`. The set is left as it is: an
    /// expired element is not removed.
    pub fn contains_at(&self, val: &T, now: u128) -> (found: bool)
        requires
            self.wf(),
        ensures
            found == live(self@, *val, now as nat),
    {
        broadcast use vstd::std_specs::hash::group_hash_axioms;
        match self.set.get(val) {
            Some(slot) => match slot {
                Some(at) => now < *at,
                None => true,
            },
            None => false,
        }
    }

    /// Inserts `val` with the default lifetime, counted from a reading of the system
    /// clock.
    pub fn add(&mut self, val: T)
        requires
            old(self).wf(),
        ensures
            final(self).wf(),
            exists|at: u128|
                final(self)@ == #[trigger] stored(
                    old(self)@,
                    val,
                    old(self).default_ttl(),
                    at as nat,
                ),
            final(self).default_ttl() == old(self).default_ttl(),
    {
        let at: u128 = now();
        self.add_at(val, at)
    }

    /// Inserts `val` with the lifetime `ttl`, counted from a reading of the system
    /// clock.
    pub fn add_with_ttl(&mut self, val: T, ttl: Duration)
        requires
            old(self).wf(),
        ensures
            final(self).wf(),
            exists|at: u128|
                final(self)@ == #[trigger] stored(
                    old(self)@,
                    val,
                    duration_nanos(ttl) as nat,
                    at as nat,
                ),
            final(self).default_ttl() == old(self).default_ttl(),
    {
        let at: u128 = now();
        self.add_with_ttl_at(val, ttl, at)
    }

    /// Whether `val` is a member at a reading of the system clock.
    pub fn contains(&self, val: &T) -> (found: bool)
        requires
            self.wf(),
        ensures
            exists|at: u128| found == #[trigger] live(self@, *val, at as nat),
    {
        let at: u128 = now();
        self.contains_at(val, at)
    }

    /// A drain of this set. Each step of it removes what it visits from the set, so
    /// the set holds afterwards what the drain has left.
    pub fn iter(&mut self) -> (it: Iter<'_, T>)
        requires
            old(self).wf(),
        ensures
            it.wf(),
            it@ == old(self)@,
            *it.set == *old(self),
            *final(it.set) == *final(self),
    {
        Iter { set: self }
    }

    /// Removes `val` and says whether it was a member at the instant `now`.
    pub(crate) fn evict_at(&mut self, val: &T, now: u128) -> (alive: bool)
        requires
            old(self).wf(),
        ensures
            final(self).wf(),
            final(self)@ == old(self)@.remove(*val),
            final(self).default_ttl() == old(self).default_ttl(),
            alive == live(old(self)@, *val, now as nat),
    {
        broadcast use vstd::std_specs::hash::group_hash_axioms;
        let slot = self.set.remove(val);
        proof {
            self.deadlines@ = self.deadlines@.remove(*val);
        }
        match slot {
            Some(Some(at)) => now < at,
            Some(None) => true,
            None => false,
        }
    }
}

impl<T: Hash + Eq + Copy> TimedSet<T> {
    /// The stored elements, in the order in which the storage hands them out.
    pub(crate) fn keys(&self) -> (keys: Vec<T>)
        requires
            self.wf(),
        ensures
            keys@.no_duplicates(),
            keys@.to_set() == self@.dom(),
    {
        broadcast use vstd::std_specs::hash::group_hash_axioms;
        let mut keys: Vec<T> = Vec::new();
        let ghost all: Seq<T> = self.set.keys().remaining().unref();
        for k in it: self.set.keys()
            invariant
                all == it.seq().unref(),
                keys@ == all.take(it.index()),
        {
            keys.push(*k);
        }
        assert(keys@ =~= all);
        keys
    }
}

} // verus!
