//! The reduction kernels.  Each one consumes every element of its input
//! exactly once and is proved to return the strict left-to-right sum; the
//! kernels differ only in the order in which they associate the additions.

use vstd::prelude::*;

use crate::sums::{
    lemma_sum_all_zero, lemma_sum_elem_le, lemma_sum_nonneg, lemma_sum_skip_le,
    lemma_sum_skip_succ, lemma_sum_take_le, lemma_sum_take_succ, lemma_sum_update, sum,
};

verus! {

/// The strict sequential fold: a single accumulator, updated left to right.
/// This is the reference kernel; its accumulation order is the one the
/// specification [`sum`] is written in.
pub fn sequential_sum(values: &Vec<u64>) -> (r: u64)
    requires
        sum(values@) <= u64::MAX,
    ensures
        r == sum(values@),
{
    let mut total: u64 = 0;
    let mut i: usize = 0;
    proof {
        assert(values@.take(0) =~= Seq::<u64>::empty());
    }
    while i < values.len()
        invariant
            i <= values@.len(),
            total == sum(values@.take(i as int)),
            sum(values@) <= u64::MAX,
        decreases values@.len() - i,
    {
        proof {
            lemma_sum_take_succ(values@, i as int);
            lemma_sum_take_le(values@, i as int + 1);
        }
        total = total + values[i];
        i = i + 1;
    }
    proof {
        assert(values@.take(values@.len() as int) =~= values@);
    }
    total
}

/// The relaxed-order fold: the accumulation runs right to left, the reverse of
/// the reference order.  Over exact values reassociating (here: commuting) the
/// additions cannot change the outcome, so the result is still the strict
/// sequential sum — which is precisely the freedom a relaxed-arithmetic
/// accumulator exploits.
pub fn relaxed_sum(values: &Vec<u64>) -> (r: u64)
    requires
        sum(values@) <= u64::MAX,
    ensures
        r == sum(values@),
{
    let mut total: u64 = 0;
    let mut i: usize = values.len();
    proof {
        assert(values@.skip(values@.len() as int) =~= Seq::<u64>::empty());
    }
    while i > 0
        invariant
            i <= values@.len(),
            total == sum(values@.skip(i as int)),
            sum(values@) <= u64::MAX,
        decreases i,
    {
        i = i - 1;
        proof {
            lemma_sum_skip_succ(values@, i as int);
            lemma_sum_skip_le(values@, i as int);
        }
        total = total + values[i];
    }
    proof {
        assert(values@.skip(0) =~= values@);
    }
    total
}

/// Chunked accumulation over `width` independent lanes.  The input is cut
/// into consecutive chunks of exactly `width` elements; lane `l` accumulates
/// the `l`-th element of every full chunk, so the `width` running sums carry
/// no data dependency on one another.  The lane sums are then folded into one
/// scalar, and the trailing `len % width` elements — the remainder — are
/// folded in sequentially.  For every input length, a multiple of `width` or
/// not, the result equals the strict sequential sum.
pub fn chunked_sum(values: &Vec<u64>, width: usize) -> (r: u64)
    requires
        width >= 1,
        sum(values@) <= u64::MAX,
    ensures
        r == sum(values@),
{
    let n = values.len();

    // One running sum per lane, all starting at zero.
    let mut partials: Vec<u64> = Vec::new();
    let mut k: usize = 0;
    while k < width
        invariant
            k <= width,
            partials@.len() == k,
            forall|j: int| 0 <= j < k ==> partials@[j] == 0,
        decreases width - k,
    {
        partials.push(0);
        k = k + 1;
    }
    proof {
        lemma_sum_all_zero(partials@);
        assert(values@.take(0) =~= Seq::<u64>::empty());
    }

    // Accumulate every full chunk, lane by lane.
    let mut i: usize = 0;
    while width <= n - i && i < n
        invariant
            i <= n,
            n == values@.len(),
            width >= 1,
            partials@.len() == width,
            sum(partials@) == sum(values@.take(i as int)),
            sum(values@) <= u64::MAX,
        decreases n - i,
    {
        let mut lane: usize = 0;
        while lane < width
            invariant
                lane <= width,
                i + width <= n,
                n == values@.len(),
                partials@.len() == width,
                sum(partials@) == sum(values@.take(i + lane)),
                sum(values@) <= u64::MAX,
            decreases width - lane,
        {
            let v = values[i + lane];
            let p = partials[lane];
            proof {
                lemma_sum_elem_le(partials@, lane as int);
                lemma_sum_take_succ(values@, (i + lane) as int);
                lemma_sum_take_le(values@, (i + lane) as int + 1);
            }
            let q = p + v;
            proof {
                lemma_sum_update(partials@, lane as int, q);
            }
            partials.set(lane, q);
            lane = lane + 1;
        }
        i = i + width;
    }

    // Horizontal reduction: fold the lane sums into one scalar.
    let mut total: u64 = 0;
    let mut lane: usize = 0;
    proof {
        assert(partials@.take(0) =~= Seq::<u64>::empty());
        lemma_sum_take_le(values@, i as int);
        lemma_sum_nonneg(partials@);
    }
    while lane < width
        invariant
            lane <= width,
            partials@.len() == width,
            total == sum(partials@.take(lane as int)),
            sum(partials@) <= u64::MAX,
        decreases width - lane,
    {
        proof {
            lemma_sum_take_succ(partials@, lane as int);
            lemma_sum_take_le(partials@, lane as int + 1);
        }
        total = total + partials[lane];
        lane = lane + 1;
    }
    proof {
        assert(partials@.take(width as int) =~= partials@);
    }

    // Fold in the remainder sequentially.
    let mut j: usize = i;
    while j < n
        invariant
            j <= n,
            n == values@.len(),
            total == sum(values@.take(j as int)),
            sum(values@) <= u64::MAX,
        decreases n - j,
    {
        proof {
            lemma_sum_take_succ(values@, j as int);
            lemma_sum_take_le(values@, j as int + 1);
        }
        total = total + values[j];
        j = j + 1;
    }
    proof {
        assert(values@.take(n as int) =~= values@);
    }
    total
}

/// Manually unrolled accumulation over thirty-two lanes: the chunk width that
/// removes the single-chain data dependency of the sequential fold while
/// staying wide enough to fill the arithmetic units of a typical core.
pub fn unrolled_sum(values: &Vec<u64>) -> (r: u64)
    requires
        sum(values@) <= u64::MAX,
    ensures
        r == sum(values@),
{
    chunked_sum(values, 32)
}

/// Explicit lane-parallel accumulation at a lane width of eight: one
/// eight-lane accumulator, one elementwise addition per chunk, a horizontal
/// reduction, then the scalar remainder.
pub fn lane_sum_8(values: &Vec<u64>) -> (r: u64)
    requires
        sum(values@) <= u64::MAX,
    ensures
        r == sum(values@),
{
    chunked_sum(values, 8)
}

/// Explicit lane-parallel accumulation at a lane width of sixteen.
pub fn lane_sum_16(values: &Vec<u64>) -> (r: u64)
    requires
        sum(values@) <= u64::MAX,
    ensures
        r == sum(values@),
{
    chunked_sum(values, 16)
}

/// The elementwise add kernel: adds `src` into `dst` in place.  Purely
/// data-parallel — no accumulation chain links one index to another.
pub fn add_into(dst: &mut Vec<u64>, src: &Vec<u64>)
    requires
        old(dst)@.len() == src@.len(),
        forall|i: int| 0 <= i < src@.len() ==> old(dst)@[i] + src@[i] <= u64::MAX,
    ensures
        final(dst)@.len() == old(dst)@.len(),
        forall|i: int| 0 <= i < final(dst)@.len() ==> final(dst)@[i] == old(dst)@[i] + src@[i],
{
    let n = dst.len();
    let mut i: usize = 0;
    while i < n
        invariant
            i <= n,
            n == dst@.len(),
            dst@.len() == old(dst)@.len(),
            old(dst)@.len() == src@.len(),
            forall|j: int| 0 <= j < i ==> dst@[j] == old(dst)@[j] + src@[j],
            forall|j: int| i <= j < n ==> dst@[j] == old(dst)@[j],
            forall|j: int| 0 <= j < n ==> old(dst)@[j] + src@[j] <= u64::MAX,
        decreases n - i,
    {
        let a = dst[i];
        let b = src[i];
        dst.set(i, a + b);
        i = i + 1;
    }
}

/// The guarded elementwise add: performs [`add_into`] when the lengths match
/// and reports a length mismatch, leaving `dst` untouched, when they do not.
pub fn try_add_into(dst: &mut Vec<u64>, src: &Vec<u64>) -> (ok: bool)
    requires
        old(dst)@.len() == src@.len() ==> forall|i: int|
            0 <= i < src@.len() ==> old(dst)@[i] + src@[i] <= u64::MAX,
    ensures
        ok == (old(dst)@.len() == src@.len()),
        ok ==> final(dst)@.len() == old(dst)@.len(),
        ok ==> forall|i: int| 0 <= i < final(dst)@.len() ==> final(dst)@[i] == old(dst)@[i] + src@[i],
        !ok ==> final(dst)@ == old(dst)@,
{
    if dst.len() == src.len() {
        add_into(dst, src);
        true
    } else {
        false
    }
}

/// Adds two fixed blocks of thirty-two lanes elementwise into a new block:
/// one full-width parallel addition with no dependency between lanes.
pub fn add_lanes_32(x: &Vec<u64>, y: &Vec<u64>) -> (r: Vec<u64>)
    requires
        x@.len() == 32,
        y@.len() == 32,
        forall|i: int| 0 <= i < 32 ==> x@[i] + y@[i] <= u64::MAX,
    ensures
        r@.len() == 32,
        forall|i: int| 0 <= i < 32 ==> r@[i] == x@[i] + y@[i],
{
    let mut r: Vec<u64> = Vec::new();
    let mut i: usize = 0;
    while i < 32
        invariant
            i <= 32,
            r@.len() == i,
            x@.len() == 32,
            y@.len() == 32,
            forall|j: int| 0 <= j < i ==> r@[j] == x@[j] + y@[j],
            forall|j: int| 0 <= j < 32 ==> x@[j] + y@[j] <= u64::MAX,
        decreases 32 - i,
    {
        r.push(x[i] + y[i]);
        i = i + 1;
    }
    r
}

} // verus!
