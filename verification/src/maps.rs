//! Helpers on hash maps and hash sets keyed by space identifier.

use crate::seqs::lemma_take_step_set;
use std::collections::HashMap;
use std::collections::HashSet;
use vstd::prelude::*;
use vstd::std_specs::hash::*;
use vstd::std_specs::iter::IteratorSpec;

verus! {

/// Puts the keys of `map` into `set`.
pub fn insert_keys<V>(set: &mut HashSet<i64>, map: &HashMap<i64, V>)
    ensures
        final(set)@ == old(set)@.union(map@.dom()),
{
    broadcast use group_hash_axioms;

    let ghost before = set@;
    assert(before.union(Seq::<i64>::empty().to_set()) =~= before);
    for key in it: map.keys()
        invariant
            it.seq() == spec_keys_iter(map).remaining(),
            set@ == before.union(it.seq().unref().take(it.index() as int).to_set()),
    {
        proof {
            lemma_take_step_set(it.seq().unref(), it.index() as int);
        }
        set.insert(*key);
        assert(set@ =~= before.union(it.seq().unref().take(it.index() + 1).to_set()));
    }
    proof {
        let keys = spec_keys_iter(map).remaining().unref();
        assert(keys.take(keys.len() as int) =~= keys);
    }
}

/// The members of `set`, each once, in no particular order.
pub fn members_of(set: &HashSet<i64>) -> (members: Vec<i64>)
    ensures
        members@.no_duplicates(),
        members@.to_set() == set@,
{
    broadcast use group_hash_axioms;

    let mut members: Vec<i64> = Vec::new();
    for member in it: set.iter()
        invariant
            it.seq() == spec_hash_keys_iter(set).remaining(),
            members@ == it.seq().unref().take(it.index() as int),
    {
        members.push(*member);
        assert(members@ =~= it.seq().unref().take(it.index() + 1));
    }
    assert(members@ =~= spec_hash_keys_iter(set).remaining().unref());
    assert(members@.no_duplicates()) by {
        let refs = spec_hash_keys_iter(set).remaining();
        assert forall|i: int, j: int|
            0 <= i < members@.len() && 0 <= j < members@.len() && i != j implies members@[i]
            != members@[j] by {
            assert(refs[i] != refs[j]);
        }
    }
    members
}

} // verus!
