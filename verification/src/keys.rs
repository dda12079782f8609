//! The keys of a hash map as a list.
use std::collections::HashMap;
use vstd::prelude::*;
use vstd::std_specs::iter::IteratorSpec;

verus! {

broadcast use vstd::std_specs::hash::group_hash_axioms;

/// Lists the keys of a map, in no particular order.
pub fn map_keys<V>(map: &HashMap<u64, V>) -> (keys: Vec<u64>)
    ensures
        keys@.no_duplicates(),
        forall|k: u64| keys@.contains(k) <==> map@.contains_key(k),
{
    let ghost all = vstd::std_specs::hash::spec_keys_iter(map).remaining().unref();
    let mut keys: Vec<u64> = Vec::new();
    for key in it: map.keys()
        invariant
            all == it.seq().unref(),
            all.len() == it.seq().len(),
            keys@.len() == it.index(),
            keys@ =~= all.take(it.index() as int),
    {
        keys.push(*key);
    }
    proof {
        assert(keys@ =~= all);
        assert(all.to_set() == map@.dom());
        assert forall|k: u64| keys@.contains(k) <==> map@.contains_key(k) by {
            assert(all.to_set().contains(k) <==> all.contains(k));
        }
        assert forall|i: int, j: int| 0 <= i < all.len() && 0 <= j < all.len() && i != j implies
            all[i] != all[j] by {
            let listed = vstd::std_specs::hash::spec_keys_iter(map).remaining();
            assert(listed.no_duplicates());
            assert(all[i] == *listed[i] && all[j] == *listed[j]);
        }
    }
    keys
}

} // verus!
