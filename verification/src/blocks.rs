//! Block bookkeeping: the missing-block list a receiver computes, and the
//! filtering of a requested resend set to the announced range.

use vstd::prelude::*;

verus! {

/// The subsequence of `xs` whose elements lie below `bound`, in order.
pub open spec fn keep_lt(xs: Seq<u64>, bound: u64) -> Seq<u64>
    decreases xs.len(),
{
    if xs.len() == 0 {
        Seq::empty()
    } else {
        let init = keep_lt(xs.drop_last(), bound);
        if xs.last() < bound {
            init.push(xs.last())
        } else {
            init
        }
    }
}

pub proof fn lemma_keep_lt_bound(xs: Seq<u64>, bound: u64)
    ensures
        forall|i: int| 0 <= i < keep_lt(xs, bound).len() ==> keep_lt(xs, bound)[i] < bound,
    decreases xs.len(),
{
    if xs.len() > 0 {
        lemma_keep_lt_bound(xs.drop_last(), bound);
        let init = keep_lt(xs.drop_last(), bound);
        let kept = keep_lt(xs, bound);
        assert forall|i: int| 0 <= i < kept.len() implies kept[i] < bound by {
            if xs.last() < bound {
                if i < kept.len() - 1 {
                    assert(kept[i] == init[i]);
                } else {
                    assert(kept[i] == xs.last());
                }
            } else {
                assert(kept[i] == init[i]);
            }
        }
    }
}

/// An element is kept exactly when it is in `xs` and below `bound`.
pub proof fn lemma_keep_lt_contains(xs: Seq<u64>, bound: u64, x: u64)
    ensures
        keep_lt(xs, bound).contains(x) <==> (xs.contains(x) && x < bound),
    decreases xs.len(),
{
    if xs.len() > 0 {
        lemma_keep_lt_contains(xs.drop_last(), bound, x);
        assert(xs.contains(x) <==> (xs.drop_last().contains(x) || xs.last() == x)) by {
            if xs.contains(x) {
                let i = choose|i: int| 0 <= i < xs.len() && xs[i] == x;
                if i < xs.len() - 1 {
                    assert(xs.drop_last()[i] == x);
                }
            }
            if xs.drop_last().contains(x) {
                let i = choose|i: int| 0 <= i < xs.drop_last().len() && xs.drop_last()[i] == x;
                assert(xs[i] == x);
            }
            if xs.last() == x {
                assert(xs[xs.len() - 1] == x);
            }
        }
        let kept = keep_lt(xs, bound);
        let init = keep_lt(xs.drop_last(), bound);
        if xs.last() < bound {
            assert(kept.contains(x) <==> (init.contains(x) || xs.last() == x)) by {
                if kept.contains(x) {
                    let i = choose|i: int| 0 <= i < kept.len() && kept[i] == x;
                    if i < kept.len() - 1 {
                        assert(init[i] == x);
                    }
                }
                if init.contains(x) {
                    let i = choose|i: int| 0 <= i < init.len() && init[i] == x;
                    assert(kept[i] == x);
                }
                if xs.last() == x {
                    assert(kept[kept.len() - 1] == x);
                }
            }
        }
    }
}

/// Whether `v` holds `x`.
pub fn contains_u64(v: &Vec<u64>, x: u64) -> (r: bool)
    ensures
        r == v@.contains(x),
{
    let mut i: usize = 0;
    while i < v.len()
        invariant
            i <= v@.len(),
            forall|t: int| 0 <= t < i ==> v@[t] != x,
        decreases v@.len() - i,
    {
        if v[i] == x {
            proof {
                assert(v@[i as int] == x);
            }
            return true;
        }
        i = i + 1;
    }
    false
}

/// The ascending list of block numbers below `total` that are absent from
/// `received`: what a receiver asks for in a BLOCK_REQUEST.
pub fn missing_blocks(total: u64, received: &Vec<u64>) -> (r: Vec<u64>)
    ensures
        forall|i: u64| r@.contains(i) <==> (i < total && !received@.contains(i)),
        forall|a: int, b: int| 0 <= a < b < r@.len() ==> r@[a] < r@[b],
{
    let mut r: Vec<u64> = Vec::new();
    let mut blk: u64 = 0;
    while blk < total
        invariant
            blk <= total,
            forall|i: u64| r@.contains(i) <==> (i < blk && !received@.contains(i)),
            forall|a: int, b: int| 0 <= a < b < r@.len() ==> r@[a] < r@[b],
            forall|a: int| 0 <= a < r@.len() ==> r@[a] < blk,
        decreases total - blk,
    {
        if !contains_u64(received, blk) {
            let ghost prev = r@;
            r.push(blk);
            proof {
                assert(r@[r@.len() - 1] == blk);
                assert forall|i: u64| r@.contains(i) <==> (i < blk + 1 && !received@.contains(i)) by {
                    if r@.contains(i) {
                        let t = choose|t: int| 0 <= t < r@.len() && r@[t] == i;
                        if t < r@.len() - 1 {
                            assert(prev[t] == i);
                            assert(prev.contains(i));
                        }
                    }
                    if i < blk && !received@.contains(i) {
                        let t = choose|t: int| 0 <= t < prev.len() && prev[t] == i;
                        assert(r@[t] == i);
                    }
                }
            }
        }
        blk = blk + 1;
    }
    r
}

/// Keeps only the entries below `bound`: how a session narrows a requested
/// resend set to the blocks it announced.
pub fn filter_below(xs: Vec<u64>, bound: u64) -> (r: Vec<u64>)
    ensures
        r@ == keep_lt(xs@, bound),
{
    let mut r: Vec<u64> = Vec::new();
    let mut i: usize = 0;
    while i < xs.len()
        invariant
            i <= xs@.len(),
            r@ == keep_lt(xs@.take(i as int), bound),
        decreases xs@.len() - i,
    {
        let x = xs[i];
        proof {
            assert(xs@.take(i as int + 1).drop_last() =~= xs@.take(i as int));
            assert(xs@.take(i as int + 1).last() == xs@[i as int]);
        }
        if x < bound {
            r.push(x);
        }
        i = i + 1;
    }
    proof {
        assert(xs@.take(xs@.len() as int) =~= xs@);
    }
    r
}

} // verus!
