//! The per-request context bag: a type-indexed mutable store that lets
//! pipeline stages pass state to each other without a shared global.

use std::collections::HashMap;
use vstd::prelude::*;

verus! {

broadcast use vstd::std_specs::hash::group_hash_axioms;

/// A plain value carried in the context bag.
///
/// The engine never inspects a stored value; this closed set of plain
/// shapes stands in for the arbitrary typed state a caller may attach.
#[derive(Clone, Copy, PartialEq, Eq, Structural, Debug)]
pub enum BagValue {
    Int(i64),
    Flag(bool),
}

/// A per-request store mapping a type descriptor to exactly one value.
///
/// Inserting under an already-present descriptor replaces the prior value:
/// one slot per descriptor, never a multiset. A bag is created fresh for
/// each request and owned exclusively by that request's call chain, so it
/// needs no synchronisation and is destroyed with the chain.
#[derive(Debug)]
pub struct ContextBag {
    entries: HashMap<u64, BagValue>,
}

impl View for ContextBag {
    type V = Map<u64, BagValue>;

    closed spec fn view(&self) -> Map<u64, BagValue> {
        self.entries@
    }
}

impl ContextBag {
    /// An empty bag, as handed to the initialiser chain of a new request.
    pub fn new() -> (bag: ContextBag)
        ensures
            bag@ == Map::<u64, BagValue>::empty(),
    {
        ContextBag { entries: HashMap::new() }
    }

    /// Stores `value` under `key`, overwriting any prior value there.
    pub fn insert(&mut self, key: u64, value: BagValue)
        ensures
            final(self)@ == old(self)@.insert(key, value),
    {
        self.entries.insert(key, value);
    }

    /// The current value under `key`; absence is not a failure.
    pub fn get(&self, key: u64) -> (r: Option<&BagValue>)
        ensures
            match r {
                Some(v) => self@.contains_key(key) && *v == self@[key],
                None => !self@.contains_key(key),
            },
    {
        self.entries.get(&key)
    }

    /// Whether some value is currently stored under `key`.
    pub fn contains(&self, key: u64) -> (r: bool)
        ensures
            r == self@.contains_key(key),
    {
        self.entries.contains_key(&key)
    }
}

} // verus!
