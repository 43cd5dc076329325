//! The output stage's computable half: the expansion-tier level pre-filter
//! and the ascending sort by identifier that fixes the emitted order.
//! Serialization itself stays with the caller.

use vstd::prelude::*;
use vstd::multiset::Multiset;
use crate::models::Item;

verus! {

/// The fixed expansion-tier cutoff for the level pre-filter.
pub open spec fn spec_level_cutoff() -> u32 {
    60
}

/// Drop records above the level cutoff, keeping order.
pub fn filter_by_level(items: Vec<Item>) -> (r: Vec<Item>)
    ensures
        r@ == items@.filter(|it: Item| it.required_level <= spec_level_cutoff()),
{
    let ghost orig = items@;
    let ghost pred = |it: Item| it.required_level <= spec_level_cutoff();
    let mut rest = items;
    let mut out: Vec<Item> = Vec::new();
    while rest.len() > 0
        invariant
            out@ + rest@.filter(pred) =~= orig.filter(pred),
            pred == (|it: Item| it.required_level <= spec_level_cutoff()),
        decreases rest.len(),
    {
        let ghost before = rest@;
        let it = rest.remove(0);
        proof {
            assert(before.remove(0) =~= before.drop_first());
            crate::store::lemma_seq_filter_first(before, pred);
        }
        if it.required_level <= 60 {
            out.push(it);
        }
    }
    proof {
        assert(rest@.filter(pred) =~= Seq::<Item>::empty());
        assert(out@ =~= orig.filter(pred));
    }
    out
}

/// Records in ascending identifier order.
pub open spec fn sorted_by_id(s: Seq<Item>) -> bool {
    forall|i: int, j: int| 0 <= i < j < s.len() ==> (#[trigger] s[i]).id <= (#[trigger] s[j]).id
}

proof fn lemma_to_multiset_drop_first(s: Seq<Item>)
    requires
        s.len() > 0,
    ensures
        s.drop_first().to_multiset() == s.to_multiset().remove(s[0]),
        s.to_multiset().count(s[0]) >= 1,
{
    broadcast use vstd::seq_lib::group_to_multiset_ensures;

    assert(s.remove(0) =~= s.drop_first());
    assert(s.contains(s[0]));
}

/// Sort the surviving records ascending by identifier: the emitted order.
pub fn sort_items(items: Vec<Item>) -> (r: Vec<Item>)
    ensures
        r@.to_multiset() == items@.to_multiset(),
        sorted_by_id(r@),
{
    broadcast use vstd::seq_lib::group_to_multiset_ensures;
    broadcast use vstd::multiset::group_multiset_axioms;

    let ghost orig = items@;
    let mut rest = items;
    let mut out: Vec<Item> = Vec::new();
    while rest.len() > 0
        invariant
            out@.to_multiset().add(rest@.to_multiset()) =~= orig.to_multiset(),
            sorted_by_id(out@),
        decreases rest.len(),
    {
        let ghost before = rest@;
        let x = rest.remove(0);
        proof {
            lemma_to_multiset_drop_first(before);
        }
        let n = out.len();
        let mut p: usize = 0;
        while p < n && out[p].id <= x.id
            invariant
                0 <= p <= n,
                n == out@.len(),
                forall|j: int| 0 <= j < p ==> (#[trigger] out@[j]).id <= x.id,
            decreases n - p,
        {
            p = p + 1;
        }
        let ghost old_out = out@;
        out.insert(p, x);
        proof {
            assert(out@ =~= old_out.insert(p as int, x));
            vstd::seq_lib::to_multiset_insert(old_out, p as int, x);
            assert(out@.to_multiset().add(rest@.to_multiset()) =~= orig.to_multiset());
            old_out.insert_ensures(p as int, x);
            assert forall|i: int, j: int| 0 <= i < j < out@.len() implies (
            #[trigger] out@[i]).id <= (#[trigger] out@[j]).id by {
                if j < p {
                    assert(out@[i] == old_out[i] && out@[j] == old_out[j]);
                } else if i < p && j == p {
                    assert(out@[i] == old_out[i] && out@[j] == x);
                } else if i < p && j > p {
                    assert(out@[i] == old_out[i] && out@[j] == old_out[j - 1]);
                } else if i == p {
                    assert(out@[i] == x && out@[j] == old_out[j - 1]);
                    assert(j - 1 >= p);
                    assert(x.id <= old_out[p as int].id);
                } else {
                    assert(out@[i] == old_out[i - 1] && out@[j] == old_out[j - 1]);
                }
            }
        }
    }
    proof {
        assert(rest@.to_multiset() =~= Multiset::<Item>::empty());
        assert(out@.to_multiset() =~= orig.to_multiset());
    }
    out
}

} // verus!
