//! Ordered maps keyed by display index: taking an entry out, putting one
//! in, and reading the keys in order.

use std::collections::BTreeMap;
use vstd::prelude::*;
use vstd::std_specs::btree::*;
use vstd::std_specs::cmp::OrdSpec;
use vstd::std_specs::iter::IteratorSpec;

verus! {

/// Takes the entry of `key` out of `map`, where there is one.
pub fn take_entry<V>(map: &mut BTreeMap<usize, V>, key: usize) -> (taken: Option<V>)
    ensures
        final(map)@ == old(map)@.remove(key),
        match taken {
            Some(value) => old(map)@.contains_key(key) && value == old(map)@[key],
            None => !old(map)@.contains_key(key),
        },
{
    broadcast use group_btree_axioms;
    broadcast use vstd::laws_cmp::group_laws_cmp;

    map.remove(&key)
}

/// Puts `value` into `map` under `key`, in place of what was there.
pub fn put_entry<V>(map: &mut BTreeMap<usize, V>, key: usize, value: V)
    ensures
        final(map)@ == old(map)@.insert(key, value),
{
    broadcast use group_btree_axioms;
    broadcast use vstd::laws_cmp::group_laws_cmp;

    map.insert(key, value);
}

/// The keys of `map`, each once, ascending.
pub fn ascending_keys<V>(map: &BTreeMap<usize, V>) -> (keys: Vec<usize>)
    ensures
        keys@.to_set() == map@.dom(),
        keys@.no_duplicates(),
        forall|g: int, h: int| 0 <= g < h < keys@.len() ==> keys@[g] < keys@[h],
{
    broadcast use group_btree_axioms;
    broadcast use vstd::laws_cmp::group_laws_cmp;

    let mut keys: Vec<usize> = Vec::new();
    for key in it: map.keys()
        invariant
            it.seq() == spec_keys_iter(map).remaining(),
            keys@.len() == it.index(),
            forall|j: int| 0 <= j < keys@.len() ==> keys@[j] == *it.seq()[j],
    {
        keys.push(*key);
    }
    proof {
        let refs = spec_keys_iter(map).remaining();
        assert(keys@ =~= refs.unref());
        assert(vstd::laws_cmp::obeys_cmp::<usize>());
        assert(vstd::laws_cmp::obeys_cmp::<&usize>());
        axiom_spec_keys_iter(map);
        axiom_increasing_seq_meaning(refs);
        assert forall|g: int, h: int| 0 <= g < h < keys@.len() implies keys@[g] < keys@[h] by {
            assert(OrdSpec::cmp_spec(&refs[g], &refs[h]) is Less);
        }
    }
    keys
}

} // verus!
