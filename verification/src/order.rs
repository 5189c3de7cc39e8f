//! Labels in ascending order.

use std::collections::HashSet;
use vstd::prelude::*;
use vstd::std_specs::iter::IteratorSpec;

verus! {

/// No element of `s` is greater than one that follows it.
pub open spec fn is_sorted(s: Seq<u64>) -> bool {
    forall|i: int, j: int| 0 <= i <= j < s.len() ==> s[i] <= s[j]
}

/// Each element of `s` is less than every one that follows it.
pub open spec fn is_ascending(s: Seq<u64>) -> bool {
    forall|i: int, j: int| 0 <= i < j < s.len() ==> s[i] < s[j]
}

/// The labels of a finite set in ascending order, each once.
pub open spec fn ascending(labels: Set<u64>) -> Seq<u64> {
    choose|s: Seq<u64>| is_ascending(s) && s.to_set() == labels
}

/// There is one way only to put a set of labels in ascending order.
pub proof fn lemma_ascending_unique(a: Seq<u64>, b: Seq<u64>)
    requires
        is_ascending(a),
        is_ascending(b),
        a.to_set() == b.to_set(),
    ensures
        a == b,
    decreases a.len(),
{
    a.unique_seq_to_set();
    b.unique_seq_to_set();
    if a.len() == 0 {
        assert(a =~= b);
    } else {
        assert(a.to_set().contains(a.last()));
        assert(b.to_set().contains(b.last()));
        assert(b.contains(a.last()));
        assert(a.contains(b.last()));
        let i = choose|i: int| 0 <= i < b.len() && b[i] == a.last();
        let j = choose|j: int| 0 <= j < a.len() && a[j] == b.last();
        assert(a.last() == b.last());
        let a0 = a.drop_last();
        let b0 = b.drop_last();
        assert forall|x: u64| a0.to_set().contains(x) == b0.to_set().contains(x) by {
            if a0.to_set().contains(x) {
                let k = choose|k: int| 0 <= k < a0.len() && a0[k] == x;
                assert(a[k] == x);
                assert(a.to_set().contains(x));
                assert(b.contains(x));
                let m = choose|m: int| 0 <= m < b.len() && b[m] == x;
                assert(m < b.len() - 1);
                assert(b0[m] == x);
            }
            if b0.to_set().contains(x) {
                let k = choose|k: int| 0 <= k < b0.len() && b0[k] == x;
                assert(b[k] == x);
                assert(b.to_set().contains(x));
                assert(a.contains(x));
                let m = choose|m: int| 0 <= m < a.len() && a[m] == x;
                assert(m < a.len() - 1);
                assert(a0[m] == x);
            }
        }
        assert(a0.to_set() =~= b0.to_set());
        lemma_ascending_unique(a0, b0);
        assert(a =~= a0.push(a.last()));
        assert(b =~= b0.push(b.last()));
    }
}

/// `ascending(labels)` is the sequence `s` wherever `s` holds the labels
/// in ascending order.
pub proof fn lemma_is_ascending(s: Seq<u64>, labels: Set<u64>)
    requires
        is_ascending(s),
        s.to_set() == labels,
    ensures
        ascending(labels) == s,
{
    let chosen = ascending(labels);
    assert(is_ascending(chosen) && chosen.to_set() == labels);
    lemma_ascending_unique(chosen, s);
}

/// `<[u64]>::sort_unstable`: afterwards the vector holds what it held
/// before, each value as often as before, in sorted order.
#[verifier::external_body]
fn sort_unstable(labels: &mut Vec<u64>)
    ensures
        is_sorted(final(labels)@),
        final(labels)@.to_multiset() == old(labels)@.to_multiset(),
{
    labels.sort_unstable()
}

/// The labels of `labels` in ascending order.
pub fn sorted_labels(labels: &HashSet<u64>) -> (ordered: Vec<u64>)
    ensures
        ordered@ == ascending(labels@),
{
    broadcast use vstd::std_specs::hash::group_hash_axioms;
    let mut ordered: Vec<u64> = Vec::new();
    let ghost refs = labels.iter().remaining();
    let ghost keys = refs.unref();
    for label in it: labels.iter()
        invariant
            it.seq() == refs,
            keys == refs.unref(),
            ordered@ == keys.take(it.index()),
    {
        proof {
            assert(keys[it.index()] == *label);
            assert(keys.take(it.index() + 1) =~= keys.take(it.index()).push(*label));
        }
        ordered.push(*label);
    }
    proof {
        assert(keys.take(keys.len() as int) =~= keys);
        assert(ordered@ == keys);
        assert(keys.to_set() == labels@);
        assert(keys.no_duplicates()) by {
            assert forall|i: int, j: int| 0 <= i < keys.len() && 0 <= j < keys.len() && i != j implies keys[i] != keys[j] by {
                assert(refs[i] != refs[j]);
            }
        }
    }
    let ghost unordered = ordered@;
    sort_unstable(&mut ordered);
    proof {
        broadcast use vstd::seq_lib::group_to_multiset_ensures;
        let sorted = ordered@;
        unordered.lemma_multiset_has_no_duplicates();
        sorted.lemma_multiset_has_no_duplicates_conv();
        assert forall|x: u64| sorted.to_set().contains(x) == labels@.contains(x) by {
            assert(sorted.contains(x) <==> sorted.to_multiset().count(x) > 0);
            assert(unordered.contains(x) <==> unordered.to_multiset().count(x) > 0);
        }
        assert(sorted.to_set() =~= labels@);
        lemma_is_ascending(sorted, labels@);
    }
    ordered
}

} // verus!
