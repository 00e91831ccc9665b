//! The validators on the losing side of a dispute.
//!
//! They are kept as a set of validator indices, which hands its items out in
//! ascending order: the order in which losers are identified and reported.
use crate::primitives::ValidatorIndex;
use std::collections::BTreeSet;
use vstd::prelude::*;
use vstd::std_specs::cmp::OrdSpec;
use vstd::std_specs::iter::IteratorSpec;

verus! {

/// Indices of the validators who lost a dispute and are pending slashes.
pub type Losers = BTreeSet<ValidatorIndex>;

/// Accounts of the validators who were on the winning side of a dispute.
pub type Winners<A> = Vec<A>;

/// Whether each item of `indices` is less than the next.
pub open spec fn strictly_ascending(indices: Seq<ValidatorIndex>) -> bool {
    forall|i: int, j: int| 0 <= i < j < indices.len() ==> indices[i] < indices[j]
}

/// Whether `indices` lists the members of `losers`, each once, from the least
/// to the greatest.
pub open spec fn lists_ascending(indices: Seq<ValidatorIndex>, losers: Set<ValidatorIndex>) -> bool {
    &&& strictly_ascending(indices)
    &&& forall|x: ValidatorIndex| indices.contains(x) <==> losers.contains(x)
}

/// The members of `losers` from the least to the greatest.
pub open spec fn ascending(losers: Set<ValidatorIndex>) -> Seq<ValidatorIndex> {
    choose|indices: Seq<ValidatorIndex>| lists_ascending(indices, losers)
}

/// Two ascending lists with the same members are the same list.
pub proof fn lemma_ascending_list_is_unique(a: Seq<ValidatorIndex>, b: Seq<ValidatorIndex>)
    requires
        strictly_ascending(a),
        strictly_ascending(b),
        forall|x: ValidatorIndex| a.contains(x) <==> b.contains(x),
    ensures
        a == b,
    decreases a.len(),
{
    if a.len() == 0 {
        if b.len() > 0 {
            assert(b.contains(b[0]));
            assert(a.contains(b[0]));
        }
        assert(a =~= b);
    } else {
        assert(a.contains(a[0]));
        assert(b.contains(a[0]));
        let k = choose|k: int| 0 <= k < b.len() && b[k] == a[0];
        assert(b.contains(b[0]));
        assert(a.contains(b[0]));
        let m = choose|m: int| 0 <= m < a.len() && a[m] == b[0];
        assert(a[0] <= a[m]);
        assert(b[0] <= b[k]);
        assert(a[0] == b[0]);
        let ta = a.drop_first();
        let tb = b.drop_first();
        assert forall|x: ValidatorIndex| ta.contains(x) <==> tb.contains(x) by {
            if ta.contains(x) {
                let p = choose|p: int| 0 <= p < ta.len() && ta[p] == x;
                assert(a[p + 1] == x);
                assert(a[0] < a[p + 1]);
                assert(a.contains(x));
                let q = choose|q: int| 0 <= q < b.len() && b[q] == x;
                assert(q != 0);
                assert(tb[q - 1] == x);
            }
            if tb.contains(x) {
                let p = choose|p: int| 0 <= p < tb.len() && tb[p] == x;
                assert(b[p + 1] == x);
                assert(b[0] < b[p + 1]);
                assert(b.contains(x));
                let q = choose|q: int| 0 <= q < a.len() && a[q] == x;
                assert(q != 0);
                assert(ta[q - 1] == x);
            }
        }
        assert(strictly_ascending(ta)) by {
            assert forall|i: int, j: int| 0 <= i < j < ta.len() implies ta[i] < ta[j] by {
                assert(a[i + 1] < a[j + 1]);
            }
        }
        assert(strictly_ascending(tb)) by {
            assert forall|i: int, j: int| 0 <= i < j < tb.len() implies tb[i] < tb[j] by {
                assert(b[i + 1] < b[j + 1]);
            }
        }
        lemma_ascending_list_is_unique(ta, tb);
        assert(a =~= seq![a[0]] + ta);
        assert(b =~= seq![b[0]] + tb);
    }
}

/// A list that lists `losers` in ascending order is `ascending(losers)`.
pub proof fn lemma_ascending_is(indices: Seq<ValidatorIndex>, losers: Set<ValidatorIndex>)
    requires
        lists_ascending(indices, losers),
    ensures
        indices == ascending(losers),
{
    let chosen = ascending(losers);
    assert(lists_ascending(chosen, losers));
    assert forall|x: ValidatorIndex| indices.contains(x) <==> chosen.contains(x) by {
        assert(indices.contains(x) <==> losers.contains(x));
        assert(chosen.contains(x) <==> losers.contains(x));
    }
    lemma_ascending_list_is_unique(indices, chosen);
}

/// Whether `a` comes before `b` in the order of `K`.
pub open spec fn comes_before<K: Ord>(a: K, b: K) -> bool {
    a.cmp_spec(&b) is Less
}

/// The set of the indices that `indices` holds, in whatever order and however
/// often each occurs.
pub fn collect_losers(indices: &Vec<ValidatorIndex>) -> (losers: Losers)
    ensures
        losers@ == indices@.to_set(),
{
    let mut losers: Losers = BTreeSet::new();
    let mut i: usize = 0;
    while i < indices.len()
        invariant
            i <= indices.len(),
            losers@ == indices@.take(i as int).to_set(),
        decreases indices.len() - i,
    {
        losers.insert(indices[i]);
        proof {
            let before = indices@.take(i as int);
            let after = indices@.take(i + 1);
            assert(after == before.push(indices@[i as int]));
            assert forall|x: ValidatorIndex| after.to_set().contains(x) <==> before.to_set().insert(
                indices@[i as int],
            ).contains(x) by {
                if after.contains(x) {
                    let k = choose|k: int| 0 <= k < after.len() && after[k] == x;
                    if k < i {
                        assert(before[k] == x);
                    }
                }
                if before.contains(x) {
                    let k = choose|k: int| 0 <= k < before.len() && before[k] == x;
                    assert(after[k] == x);
                }
                if x == indices@[i as int] {
                    assert(after[i as int] == x);
                }
            }
            assert(after.to_set() =~= before.to_set().insert(indices@[i as int]));
        }
        i += 1;
    }
    assert(indices@.take(indices.len() as int) == indices@);
    losers
}

/// The members of `losers` from the least to the greatest.
pub fn ascending_indices(losers: &Losers) -> (indices: Vec<ValidatorIndex>)
    ensures
        indices@ == ascending(losers@),
        lists_ascending(indices@, losers@),
{
    let mut indices: Vec<ValidatorIndex> = Vec::new();
    for x in it: losers.iter()
        invariant
            indices@.len() == it.index(),
            forall|k: int| 0 <= k < indices@.len() ==> indices@[k] == *it.seq()[k],
            it.seq() == vstd::std_specs::btree::spec_btree_keys_iter(losers).remaining(),
    {
        indices.push(*x);
    }
    proof {
        broadcast use vstd::laws_cmp::group_laws_cmp;

        let keys = vstd::std_specs::btree::spec_btree_keys_iter(losers).remaining();
        assert(indices@ =~= keys.unref());
        assert(vstd::laws_cmp::obeys_cmp::<&ValidatorIndex>());
        vstd::std_specs::btree::axiom_increasing_seq_meaning(keys);
        assert forall|i: int, j: int| 0 <= i < j < indices@.len() implies indices@[i]
            < indices@[j] by {
            assert(comes_before::<&ValidatorIndex>(keys[i], keys[j]));
        }
        assert(indices@.to_set() == losers@);
        assert forall|x: ValidatorIndex| indices@.contains(x) <==> losers@.contains(x) by {
            assert(indices@.to_set().contains(x) <==> indices@.contains(x));
        }
        lemma_ascending_is(indices@, losers@);
    }
    indices
}

} // verus!
