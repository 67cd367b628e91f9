//! The mathematical model of the reduction kernels: the strict sequential sum
//! of a sequence of exact values, and the lemmas that let an implementation
//! accumulate in a different order and still reach the same value.

use vstd::prelude::*;

verus! {

/// The strict left-to-right sum of a sequence, starting from zero:
/// `[a, b, c, d]` sums as `((a + b) + c) + d`.  This is the reference value
/// that every reduction kernel is held to.
pub open spec fn sum(s: Seq<u64>) -> int
    decreases s.len(),
{
    if s.len() == 0 {
        0
    } else {
        sum(s.drop_last()) + s.last()
    }
}

/// Extending a prefix by one element adds that element to its sum.
pub proof fn lemma_sum_take_succ(s: Seq<u64>, i: int)
    requires
        0 <= i < s.len(),
    ensures
        sum(s.take(i + 1)) == sum(s.take(i)) + s[i],
{
    assert(s.take(i + 1).drop_last() =~= s.take(i));
    assert(s.take(i + 1).last() == s[i]);
}

/// The sum of a sequence of unsigned values is never negative.
pub proof fn lemma_sum_nonneg(s: Seq<u64>)
    ensures
        sum(s) >= 0,
    decreases s.len(),
{
    if s.len() > 0 {
        lemma_sum_nonneg(s.drop_last());
    }
}

/// A prefix never sums to more than the whole sequence.
pub proof fn lemma_sum_take_le(s: Seq<u64>, i: int)
    requires
        0 <= i <= s.len(),
    ensures
        sum(s.take(i)) <= sum(s),
    decreases s.len() - i,
{
    if i == s.len() {
        assert(s.take(i) =~= s);
    } else {
        lemma_sum_take_succ(s, i);
        lemma_sum_take_le(s, i + 1);
    }
}

/// A single element never exceeds the sum of the whole sequence.
pub proof fn lemma_sum_elem_le(s: Seq<u64>, i: int)
    requires
        0 <= i < s.len(),
    ensures
        s[i] <= sum(s),
{
    lemma_sum_take_succ(s, i);
    lemma_sum_take_le(s, i + 1);
    lemma_sum_nonneg(s.take(i));
}

/// Replacing one element changes the sum by exactly the difference.
pub proof fn lemma_sum_update(s: Seq<u64>, i: int, v: u64)
    requires
        0 <= i < s.len(),
    ensures
        sum(s.update(i, v)) == sum(s) - s[i] + v,
    decreases s.len(),
{
    let t = s.update(i, v);
    if i == s.len() - 1 {
        assert(t.drop_last() =~= s.drop_last());
        assert(t.last() == v);
    } else {
        assert(t.drop_last() =~= s.drop_last().update(i, v));
        assert(t.last() == s.last());
        lemma_sum_update(s.drop_last(), i, v);
    }
}

/// Splitting off the first element of a suffix.
pub proof fn lemma_sum_skip_succ(s: Seq<u64>, i: int)
    requires
        0 <= i < s.len(),
    ensures
        sum(s.skip(i)) == s[i] + sum(s.skip(i + 1)),
    decreases s.len(),
{
    if i == s.len() - 1 {
        assert(s.skip(i).drop_last() =~= s.skip(i + 1));
        assert(s.skip(i).last() == s[i]);
    } else {
        let sd = s.drop_last();
        lemma_sum_skip_succ(sd, i);
        assert(s.skip(i).drop_last() =~= sd.skip(i));
        assert(s.skip(i).last() == s.last());
        assert(s.skip(i + 1).drop_last() =~= sd.skip(i + 1));
        assert(s.skip(i + 1).last() == s.last());
    }
}

/// A suffix never sums to more than the whole sequence.
pub proof fn lemma_sum_skip_le(s: Seq<u64>, i: int)
    requires
        0 <= i <= s.len(),
    ensures
        sum(s.skip(i)) <= sum(s),
    decreases i,
{
    if i == 0 {
        assert(s.skip(0) =~= s);
    } else {
        lemma_sum_skip_succ(s, i - 1);
        lemma_sum_skip_le(s, i - 1);
    }
}

/// An all-zero sequence sums to zero.
pub proof fn lemma_sum_all_zero(s: Seq<u64>)
    requires
        forall|i: int| 0 <= i < s.len() ==> s[i] == 0,
    ensures
        sum(s) == 0,
    decreases s.len(),
{
    if s.len() > 0 {
        lemma_sum_all_zero(s.drop_last());
    }
}

} // verus!
