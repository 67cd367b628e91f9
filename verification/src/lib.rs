//! Exact-arithmetic models of a family of array-reduction kernels, together
//! with the decision core of a micro-benchmark harness.
//!
//! The kernels all compute the sum of a sequence of values, each under a
//! different accumulation strategy: a strict left-to-right fold, a
//! relaxed-order fold, and chunked accumulation over a fixed number of
//! independent lanes with a scalar remainder.  Over exact values every
//! strategy is proved to return the strict sequential sum, so the strategies
//! are interchangeable and deterministic.
//!
//! The harness core selects the minimum of a series of per-trial times and
//! normalizes elapsed nanoseconds to picoseconds per element; the minimum is
//! the least-noise estimate of a measurement whose disturbances only ever add
//! time.

pub mod harness;
pub mod kernels;
pub mod laws;
pub mod sums;
