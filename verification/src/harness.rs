//! The decision core of the benchmark harness: normalizing an elapsed time to
//! picoseconds per element and selecting the minimum over a series of trials.
//! The minimum, not an average, is reported: disturbances of a CPU time
//! measurement (preemption, interrupts, cache misses) only ever add time, so
//! the smallest observation is the least-noise estimate of true throughput.

use vstd::prelude::*;

verus! {

/// An elapsed time in nanoseconds, normalized to picoseconds per element.
pub open spec fn picos_per_element(elapsed_ns: int, num_elems: int) -> int {
    elapsed_ns * 1000 / num_elems
}

/// The per-trial time of one sample, as the harness computes it.
pub open spec fn trial_picos(elapsed_ns: u128, num_elems: u128) -> u128 {
    picos_per_element(elapsed_ns as int, num_elems as int) as u128
}

/// The minimum of a series of trial times, folded from the largest
/// representable time; an empty series therefore yields `u128::MAX`.
pub open spec fn min_fold(s: Seq<u128>) -> u128
    decreases s.len(),
{
    if s.len() == 0 {
        u128::MAX
    } else if s.last() < min_fold(s.drop_last()) {
        s.last()
    } else {
        min_fold(s.drop_last())
    }
}

/// Extending the series by one trial keeps the smaller of the two times.
pub proof fn lemma_min_fold_take_succ(s: Seq<u128>, i: int)
    requires
        0 <= i < s.len(),
    ensures
        min_fold(s.take(i + 1)) == if s[i] < min_fold(s.take(i)) {
            s[i]
        } else {
            min_fold(s.take(i))
        },
{
    assert(s.take(i + 1).drop_last() =~= s.take(i));
    assert(s.take(i + 1).last() == s[i]);
}

/// The folded minimum is a lower bound on every trial time.
pub proof fn lemma_min_fold_le(s: Seq<u128>, i: int)
    requires
        0 <= i < s.len(),
    ensures
        min_fold(s) <= s[i],
    decreases s.len(),
{
    if i == s.len() - 1 {
        assert(s.last() == s[i]);
    } else {
        lemma_min_fold_le(s.drop_last(), i);
        assert(s.drop_last()[i] == s[i]);
    }
}

/// A non-empty series attains its folded minimum at some trial.
pub proof fn lemma_min_fold_attained(s: Seq<u128>)
    requires
        s.len() > 0,
    ensures
        exists|i: int| 0 <= i < s.len() && min_fold(s) == s[i],
    decreases s.len(),
{
    if s.last() < min_fold(s.drop_last()) {
        assert(min_fold(s) == s[s.len() - 1]);
    } else if s.len() == 1 {
        assert(min_fold(s.drop_last()) == u128::MAX);
        assert(min_fold(s) == s[0]);
    } else {
        lemma_min_fold_attained(s.drop_last());
        let i = choose|i: int| 0 <= i < s.drop_last().len() && min_fold(s.drop_last())
            == s.drop_last()[i];
        assert(min_fold(s) == s[i]);
    }
}

/// The harness reports the floor, not an average: when some trial attains
/// `floor` and no trial is below it — as with a per-call cost that first
/// decreases and then holds constant — the minimum-of-trials fold returns
/// exactly `floor`.
pub proof fn lemma_min_fold_floor(s: Seq<u128>, floor: u128)
    requires
        exists|i: int| 0 <= i < s.len() && s[i] == floor,
        forall|i: int| 0 <= i < s.len() ==> floor <= s[i],
    ensures
        min_fold(s) == floor,
{
    let i = choose|i: int| 0 <= i < s.len() && s[i] == floor;
    lemma_min_fold_le(s, i);
    lemma_min_fold_attained(s);
    let j = choose|j: int| 0 <= j < s.len() && min_fold(s) == s[j];
    assert(floor <= s[j]);
}

/// Normalizes each trial's elapsed nanoseconds to picoseconds per element and
/// returns the minimum over all trials — `u128::MAX` when there is no trial.
pub fn min_time_ps(samples_ns: &Vec<u128>, num_elems: u128) -> (r: u128)
    requires
        num_elems >= 1,
        forall|i: int| 0 <= i < samples_ns@.len() ==> samples_ns@[i] * 1000 <= u128::MAX,
    ensures
        r == min_fold(samples_ns@.map_values(|ns: u128| trial_picos(ns, num_elems))),
{
    let ghost mapped = samples_ns@.map_values(|ns: u128| trial_picos(ns, num_elems));
    let mut best: u128 = u128::MAX;
    let mut i: usize = 0;
    proof {
        assert(mapped.take(0) =~= Seq::<u128>::empty());
    }
    while i < samples_ns.len()
        invariant
            i <= samples_ns@.len(),
            num_elems >= 1,
            mapped == samples_ns@.map_values(|ns: u128| trial_picos(ns, num_elems)),
            best == min_fold(mapped.take(i as int)),
            forall|k: int| 0 <= k < samples_ns@.len() ==> samples_ns@[k] * 1000 <= u128::MAX,
        decreases samples_ns@.len() - i,
    {
        let t = samples_ns[i] * 1000 / num_elems;
        proof {
            lemma_min_fold_take_succ(mapped, i as int);
            assert(mapped[i as int] == trial_picos(samples_ns@[i as int], num_elems));
            assert(t == trial_picos(samples_ns@[i as int], num_elems));
        }
        if t < best {
            best = t;
        }
        i = i + 1;
    }
    proof {
        assert(mapped.take(mapped.len() as int) =~= mapped);
    }
    best
}

} // verus!
