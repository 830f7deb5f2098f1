//! Keeping each side of the book under its depth cap.

use vstd::prelude::*;
use vstd::multiset::Multiset;
use crate::chance::random_in;
use crate::engine::{MAX_ORDERS_PER_SIDE, min_int};

verus! {

/// Which orders of a side to cancel so that the side is back under its cap.
pub struct Trim {
    /// The ids that stay, in the order left by the removals.
    pub kept: Vec<u64>,
    /// The ids to cancel, in the order in which they were drawn.
    pub cancelled: Vec<u64>,
}

/// Removing the element at `i` by moving the last one into its place takes
/// exactly that element out of the multiset.
proof fn lemma_swap_remove_multiset(s: Seq<u64>, i: int)
    requires
        0 <= i < s.len(),
    ensures
        s.update(i, s.last()).drop_last().to_multiset().insert(s[i]) =~= s.to_multiset(),
{
    broadcast use vstd::seq_lib::group_to_multiset_ensures;
    broadcast use vstd::multiset::group_multiset_axioms;

    let n = s.len();
    let r = s.update(i, s.last()).drop_last();
    if i == n - 1 {
        assert(r =~= s.drop_last());
        assert(s.drop_last().push(s.last()) =~= s);
    } else {
        let a = s.subrange(0, i);
        let b = s.subrange(i + 1, n - 1);
        let x = s[i];
        let y = s.last();
        assert(s =~= a + seq![x] + b + seq![y]);
        assert(r =~= a + seq![y] + b);
        vstd::seq_lib::lemma_multiset_commutative(a + seq![x] + b, seq![y]);
        vstd::seq_lib::lemma_multiset_commutative(a + seq![x], b);
        vstd::seq_lib::lemma_multiset_commutative(a, seq![x]);
        vstd::seq_lib::lemma_multiset_commutative(a + seq![y], b);
        vstd::seq_lib::lemma_multiset_commutative(a, seq![y]);
        assert(seq![x].to_multiset() =~= Multiset::<u64>::empty().insert(x)) by {
            assert(Seq::<u64>::empty().push(x) =~= seq![x]);
        }
        assert(seq![y].to_multiset() =~= Multiset::<u64>::empty().insert(y)) by {
            assert(Seq::<u64>::empty().push(y) =~= seq![y]);
        }
    }
}

/// Takes the id at `idx` out of `ids` by moving the last id into its place,
/// and returns it: exactly that occurrence leaves the multiset of ids.
pub fn cancel_at(ids: &mut Vec<u64>, idx: usize) -> (id: u64)
    requires
        idx < old(ids)@.len(),
    ensures
        id == old(ids)@[idx as int],
        final(ids)@ == old(ids)@.update(idx as int, old(ids)@.last()).drop_last(),
        final(ids)@.to_multiset().insert(id) =~= old(ids)@.to_multiset(),
{
    let ghost before = ids@;
    let id = ids.swap_remove(idx);
    proof {
        lemma_swap_remove_multiset(before, idx as int);
    }
    id
}

/// Draws random orders of a side, given by their ids, to cancel until at most
/// `MAX_ORDERS_PER_SIDE` remain; each draw removes the drawn id by moving the
/// last id into its place. Every cancelled id comes out of the side, once per
/// occurrence, and the kept and cancelled ids together are the side's ids.
pub fn trim_side(ids: Vec<u64>) -> (t: Trim)
    ensures
        t.kept@.len() == min_int(ids@.len() as int, MAX_ORDERS_PER_SIDE as int),
        t.cancelled@.len() == ids@.len() - t.kept@.len(),
        t.kept@.to_multiset().add(t.cancelled@.to_multiset()) =~= ids@.to_multiset(),
{
    broadcast use vstd::seq_lib::group_to_multiset_ensures;
    broadcast use vstd::multiset::group_multiset_axioms;

    let mut kept = ids;
    let mut cancelled: Vec<u64> = Vec::new();
    let ghost all = kept@;
    proof {
        assert(cancelled@.to_multiset() =~= Multiset::<u64>::empty());
    }
    while kept.len() > MAX_ORDERS_PER_SIDE
        invariant
            kept@.len() + cancelled@.len() == all.len(),
            kept@.len() >= min_int(all.len() as int, MAX_ORDERS_PER_SIDE as int),
            kept@.to_multiset().add(cancelled@.to_multiset()) =~= all.to_multiset(),
        decreases kept@.len(),
    {
        let len = kept.len();
        // A `Vec<u64>` never holds more than `i64::MAX` elements, so the draw
        // below covers every index.
        let last: i64 = if (len - 1) as u64 <= i64::MAX as u64 { (len - 1) as i64 } else { i64::MAX };
        let idx = random_in(0, last) as usize;
        let id = cancel_at(&mut kept, idx);
        proof {
            cancelled@.to_multiset_ensures();
        }
        cancelled.push(id);
    }
    Trim { kept, cancelled }
}

} // verus!
