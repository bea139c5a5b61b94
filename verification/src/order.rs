//! Sequences of ranks in ascending order, and where a new rank goes.

use vstd::prelude::*;

verus! {

/// Whether no rank is followed by a smaller one.
pub open spec fn ascending(ranks: Seq<int>) -> bool {
    forall|i: int, j: int| 0 <= i <= j < ranks.len() ==> ranks[i] <= ranks[j]
}

/// Where `x` goes in `ranks`: behind the last rank that is at most `x`, so
/// that equal ranks keep the order in which they came. For ascending `ranks`
/// this is the number of ranks that are at most `x`.
pub open spec fn slot(ranks: Seq<int>, x: int) -> int
    decreases ranks.len(),
{
    if ranks.len() == 0 {
        0
    } else if ranks.last() <= x {
        ranks.len() as int
    } else {
        slot(ranks.drop_last(), x)
    }
}

/// Whether `p` parts `ranks` into those at most `x` and those above `x`.
pub open spec fn parts_at(ranks: Seq<int>, x: int, p: int) -> bool {
    &&& 0 <= p <= ranks.len()
    &&& forall|k: int| 0 <= k < p ==> ranks[k] <= x
    &&& forall|k: int| p <= k < ranks.len() ==> x < ranks[k]
}

/// The slot of `x` is an index at which something can be put into `ranks`.
pub proof fn lemma_slot_bounds(ranks: Seq<int>, x: int)
    ensures
        0 <= slot(ranks, x) <= ranks.len(),
    decreases ranks.len(),
{
    if ranks.len() > 0 && !(ranks.last() <= x) {
        lemma_slot_bounds(ranks.drop_last(), x);
    }
}

/// An index that parts `ranks` at `x` is the slot of `x`.
pub proof fn lemma_slot_is(ranks: Seq<int>, x: int, p: int)
    requires
        parts_at(ranks, x, p),
    ensures
        slot(ranks, x) == p,
    decreases ranks.len(),
{
    if ranks.len() > 0 && !(ranks.last() <= x) {
        lemma_slot_is(ranks.drop_last(), x, p);
    }
}

/// In an ascending sequence the slot of `x` parts the sequence at `x`, and
/// putting `x` there keeps the sequence ascending.
pub proof fn lemma_slot_ascending(ranks: Seq<int>, x: int)
    requires
        ascending(ranks),
    ensures
        parts_at(ranks, x, slot(ranks, x)),
        ascending(ranks.insert(slot(ranks, x), x)),
    decreases ranks.len(),
{
    if ranks.len() > 0 && !(ranks.last() <= x) {
        let shorter = ranks.drop_last();
        assert(ascending(shorter));
        lemma_slot_ascending(shorter, x);
        let p = slot(shorter, x);
        assert forall|k: int| p <= k < ranks.len() implies x < ranks[k] by {
            if k < shorter.len() {
                assert(shorter[k] == ranks[k]);
            }
        }
        assert forall|k: int| 0 <= k < p implies ranks[k] <= x by {
            assert(shorter[k] == ranks[k]);
        }
    }
    let p = slot(ranks, x);
    let after = ranks.insert(p, x);
    assert forall|i: int, j: int| 0 <= i <= j < after.len() implies after[i] <= after[j] by {
        if i < p && j > p {
            assert(after[i] == ranks[i] && after[j] == ranks[j - 1]);
        } else if i > p {
            assert(after[i] == ranks[i - 1] && after[j] == ranks[j - 1]);
        }
    }
}

/// A sequence with `x` pushed onto it holds what it held before, and `x`.
pub proof fn lemma_push_contains<A>(s: Seq<A>, x: A, k: A)
    ensures
        s.push(x).contains(k) <==> s.contains(k) || k == x,
{
    if s.contains(k) {
        let m = choose|m: int| 0 <= m < s.len() && s[m] == k;
        assert(s.push(x)[m] == k);
    }
    if k == x {
        assert(s.push(x)[s.len() as int] == k);
    }
    if s.push(x).contains(k) && k != x {
        let m = choose|m: int| 0 <= m < s.push(x).len() && s.push(x)[m] == k;
        assert(s[m] == k);
    }
}

} // verus!
