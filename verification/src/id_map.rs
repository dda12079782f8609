//! A map that hands out its own keys.
use core::marker::PhantomData;
use std::collections::HashMap;
use vstd::prelude::*;
use vstd::std_specs::convert::FromSpec;

verus! {

broadcast use vstd::std_specs::hash::group_hash_axioms;

/// Values under the numbers `0`, `1`, `2`, ..., each number handed out at most once.
///
/// The numbers reach callers as values of `K`.
pub struct IdMap<K, V> {
    pub map: HashMap<u64, V>,
    pub next_key: u64,
    pub keys: PhantomData<K>,
}

impl<K, V> IdMap<K, V> {
    /// The number that the next call of `add` or `next_id` hands out.
    pub open spec fn next(&self) -> u64 {
        self.next_key
    }

    /// Every number in use has been handed out.
    pub open spec fn wf(&self) -> bool {
        forall|k: u64| #[trigger] self.map@.contains_key(k) ==> k < self.next()
    }
}

impl<K: From<u64>, V> IdMap<K, V> {
    /// Stores a value under a number that was never handed out before.
    pub fn add(&mut self, value: V) -> (key: K)
        requires
            old(self).next() < u64::MAX,
        ensures
            K::obeys_from_spec() ==> key == K::from_spec(old(self).next()),
            final(self).map@ == old(self).map@.insert(old(self).next(), value),
            final(self).next() == old(self).next() + 1,
            old(self).wf() ==> final(self).wf() && !old(self).map@.contains_key(old(self).next()),
    {
        let number: u64 = self.next_key;
        let key = self.next_id();
        self.map.insert(number, value);
        key
    }

    /// Hands out a number without storing anything under it.
    pub fn next_id(&mut self) -> (key: K)
        requires
            old(self).next() < u64::MAX,
        ensures
            K::obeys_from_spec() ==> key == K::from_spec(old(self).next()),
            final(self).map == old(self).map,
            final(self).next() == old(self).next() + 1,
            old(self).wf() ==> final(self).wf(),
    {
        let key = K::from(self.next_key);
        self.next_key = self.next_key + 1;
        key
    }
}

impl<K, V> Default for IdMap<K, V> {
    fn default() -> (r: Self)
        ensures
            r.map@ == Map::<u64, V>::empty(),
            r.next() == 0,
            r.wf(),
    {
        IdMap { map: HashMap::new(), next_key: 0, keys: PhantomData }
    }
}

} // verus!
