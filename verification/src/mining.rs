//! Ordering of mining results: the external engine hands back pairs of a
//! pattern and its support count; reporting wants them by descending
//! support.  The sort keeps exactly the pairs it was given.

use vstd::prelude::*;
use vstd::multiset::Multiset;

use crate::itemset::ItemSet;

verus! {

/// Sort mining results by descending support count.  The result holds
/// exactly the given pairs, in an order where no support rises.
pub fn sort_by_support(results: Vec<(ItemSet, usize)>) -> (r: Vec<(ItemSet, usize)>)
    ensures
        r@.len() == results@.len(),
        r@.to_multiset() == results@.to_multiset(),
        forall|k1: int, k2: int| 0 <= k1 < k2 < r@.len() ==> r@[k1].1 >= r@[k2].1,
{
    broadcast use vstd::seq_lib::group_to_multiset_ensures;

    let mut rest = results;
    let mut out: Vec<(ItemSet, usize)> = Vec::new();
    let ghost all = results@.to_multiset();
    while rest.len() > 0
        invariant
            out@.to_multiset().add(rest@.to_multiset()) == all,
            out@.len() + rest@.len() == results@.len(),
            forall|p: int, q: int|
                0 <= p < out@.len() && 0 <= q < rest@.len() ==> (#[trigger] out@[p]).1 >= (
                #[trigger] rest@[q]).1,
            forall|k1: int, k2: int| 0 <= k1 < k2 < out@.len() ==> out@[k1].1 >= out@[k2].1,
        decreases rest@.len(),
    {
        let mut m: usize = 0;
        let mut j: usize = 1;
        while j < rest.len()
            invariant
                m < j <= rest@.len() || (j <= rest@.len() && m == 0),
                m < rest@.len(),
                forall|q: int| 0 <= q < j ==> rest@[m as int].1 >= (#[trigger] rest@[q]).1,
            decreases rest@.len() - j,
        {
            if rest[j].1 > rest[m].1 {
                m = j;
            }
            j = j + 1;
        }
        let ghost pre = rest@;
        let ghost old_out = out@;
        let x = rest.remove(m);
        out.push(x);
        proof {
            pre.to_multiset_ensures();
            old_out.to_multiset_ensures();
            assert(rest@ == pre.remove(m as int));
            assert(pre.remove(m as int).to_multiset() =~= pre.to_multiset().remove(
                pre[m as int],
            ));
            assert(rest@.to_multiset() == pre.to_multiset().remove(x));
            assert(out@ == old_out.push(x));
            assert(old_out.push(x).to_multiset() =~= old_out.to_multiset().insert(x));
            assert(out@.to_multiset() == old_out.to_multiset().insert(x));
            assert(pre.contains(x)) by {
                assert(pre[m as int] == x);
            }
            assert(pre.to_multiset().count(x) > 0);
            assert(out@.to_multiset().add(rest@.to_multiset()) =~= all);
        }
    }
    proof {
        assert(rest@.to_multiset() =~= Multiset::empty());
        assert(out@.to_multiset() =~= all);
    }
    out
}

} // verus!
