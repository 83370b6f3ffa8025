//! Facts about sequences that several modules lean on.

use vstd::prelude::*;

verus! {

/// Filtering one element more either appends that element or changes
/// nothing, as the predicate decides.
pub proof fn lemma_filter_step<A>(s: Seq<A>, pred: spec_fn(A) -> bool, i: int)
    requires
        0 <= i < s.len(),
    ensures
        s.take(i + 1).filter(pred) == if pred(s[i]) {
            s.take(i).filter(pred).push(s[i])
        } else {
            s.take(i).filter(pred)
        },
{
    reveal(Seq::filter);
    assert(s.take(i + 1).drop_last() =~= s.take(i));
}

/// Nothing passes a filter on the empty sequence.
pub proof fn lemma_filter_empty<A>(pred: spec_fn(A) -> bool)
    ensures
        Seq::<A>::empty().filter(pred) == Seq::<A>::empty(),
{
    reveal(Seq::filter);
}

/// What a filter lets pass is in the source and meets the predicate, and
/// whatever in the source meets the predicate passes.
pub proof fn lemma_filter_contains<A>(s: Seq<A>, pred: spec_fn(A) -> bool, x: A)
    ensures
        s.filter(pred).contains(x) <==> s.contains(x) && pred(x),
    decreases s.len(),
{
    reveal(Seq::filter);
    if s.len() == 0 {
    } else {
        let rest = s.drop_last();
        lemma_filter_contains(rest, pred, x);
        if s.contains(x) && pred(x) {
            let i = choose|i: int| 0 <= i < s.len() && s[i] == x;
            if i < s.len() - 1 {
                assert(rest[i] == x);
                assert(rest.contains(x));
                let j = choose|j: int| 0 <= j < rest.filter(pred).len() && rest.filter(pred)[j] == x;
                assert(s.filter(pred)[j] == x);
            } else {
                assert(s.filter(pred).last() == x);
            }
        }
        if s.filter(pred).contains(x) {
            let j = choose|j: int| 0 <= j < s.filter(pred).len() && s.filter(pred)[j] == x;
            if pred(s.last()) && j == s.filter(pred).len() - 1 {
                assert(s[s.len() - 1] == x);
            } else {
                assert(rest.filter(pred)[j] == x);
                assert(rest.filter(pred).contains(x));
                let i = choose|i: int| 0 <= i < rest.len() && rest[i] == x;
                assert(s[i] == x);
            }
        }
    }
}

/// The members of one element more are the members so far and that
/// element. Where the sequence holds nothing twice, the element is new.
pub proof fn lemma_take_step_set<A>(s: Seq<A>, i: int)
    requires
        0 <= i < s.len(),
    ensures
        s.take(i + 1).to_set() == s.take(i).to_set().insert(s[i]),
        s.no_duplicates() ==> !s.take(i).to_set().contains(s[i]),
{
    let before = s.take(i);
    let after = s.take(i + 1);
    assert forall|x: A| after.to_set().contains(x) == before.to_set().insert(s[i]).contains(
        x,
    ) by {
        if after.contains(x) {
            let k = choose|k: int| 0 <= k < after.len() && after[k] == x;
            if k < i {
                assert(before[k] == x);
            }
        }
        if before.contains(x) {
            let k = choose|k: int| 0 <= k < before.len() && before[k] == x;
            assert(after[k] == x);
        }
        if x == s[i] {
            assert(after[i] == x);
        }
    }
    assert(after.to_set() =~= before.to_set().insert(s[i]));
    if s.no_duplicates() && before.contains(s[i]) {
        let k = choose|k: int| 0 <= k < before.len() && before[k] == s[i];
        assert(s[k] == s[i]);
    }
}

} // verus!
