//! The library's stated laws: properties that relate the kernels to one
//! another, written out as proof functions so that a reader sees them stated
//! rather than left implicit in the individual contracts.

use vstd::prelude::*;

use crate::sums::{lemma_sum_skip_succ, lemma_sum_take_succ, sum};

verus! {

/// The empty sum is zero: every kernel applied to an empty input returns `0`.
pub proof fn lemma_sum_empty()
    ensures
        sum(Seq::<u64>::empty()) == 0,
{
}

/// The kernels agree with one another exactly: over exact values the
/// permitted reassociation error is zero, so any two results pinned to the
/// strict sequential sum of the same input are equal.
pub proof fn lemma_kernels_agree(s: Seq<u64>, first: u64, second: u64)
    requires
        first == sum(s),
        second == sum(s),
    ensures
        first == second,
{
}

/// Determinism: a kernel whose contract pins its result to the sum of its
/// input is a function of that input, so invoking it twice on the same input
/// — with no mutation in between — returns bit-identical values.
pub proof fn lemma_deterministic(s: Seq<u64>, first: u64, second: u64)
    requires
        first == sum(s),
        second == sum(s),
    ensures
        first == second,
{
}

/// Remainder handling is sound at every split point: summing a leading block
/// and the trailing remainder separately, then combining, gives the sum of
/// the whole sequence — whether or not the block length divides the input.
pub proof fn lemma_sum_split(s: Seq<u64>, k: int)
    requires
        0 <= k <= s.len(),
    ensures
        sum(s) == sum(s.take(k)) + sum(s.skip(k)),
    decreases s.len() - k,
{
    if k < s.len() {
        lemma_sum_take_succ(s, k);
        lemma_sum_skip_succ(s, k);
        lemma_sum_split(s, k + 1);
    } else {
        assert(s.take(k) =~= s);
        assert(s.skip(k) =~= Seq::<u64>::empty());
    }
}

} // verus!
