//! A small map keyed by sequence number: what is still waiting for a reply.
use std::collections::HashMap;

use vstd::prelude::*;

verus! {

broadcast use vstd::std_specs::hash::group_hash_axioms;

/// A map from sequence numbers to what each one stands for.
pub struct SeqMap<V> {
    entries: HashMap<u8, V>,
}

impl<V> SeqMap<V> {
    /// What the map holds.
    pub closed spec fn map(&self) -> Map<u8, V> {
        self.entries@
    }

    pub fn new() -> (m: SeqMap<V>)
        ensures
            m.map() == Map::<u8, V>::empty(),
    {
        SeqMap { entries: HashMap::new() }
    }

    /// Sets what `k` stands for, replacing an earlier value.
    pub fn insert(&mut self, k: u8, v: V)
        ensures
            final(self).map() == old(self).map().insert(k, v),
    {
        let _ = self.entries.insert(k, v);
    }

    /// Takes out what `k` stands for, if anything.
    pub fn remove(&mut self, k: u8) -> (r: Option<V>)
        ensures
            r == (if old(self).map().contains_key(k) {
                Some(old(self).map()[k])
            } else {
                None
            }),
            final(self).map() == old(self).map().remove(k),
    {
        self.entries.remove(&k)
    }

    /// How many keys the map holds.
    pub fn len(&self) -> (n: usize)
        ensures
            n == self.map().dom().len(),
            self.map().dom().finite(),
    {
        self.entries.len()
    }

    /// Forgets every key.
    pub fn clear(&mut self)
        ensures
            final(self).map() == Map::<u8, V>::empty(),
    {
        self.entries.clear();
    }
}

} // verus!
