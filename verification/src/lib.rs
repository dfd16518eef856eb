//! Work distribution for composite-trapezoid integral reduction.
//!
//! A definite integral is approximated by summing weighted function samples
//! at `n + 1` evenly spaced points: the two edge samples carry half weight,
//! the `n - 1` interior samples full weight. The summation work over the
//! interior indices can be handed to a pool of workers in two ways: a shared
//! dynamic task bag drained on demand, or a static upfront partition into
//! contiguous, near-equal chunks. This crate holds the index-distribution
//! logic of both strategies and proves that each hands out every interior
//! index exactly once, so that the strategies agree on which samples are
//! summed. Evaluating the integrand and accumulating the floating-point
//! sums is the caller's side of the contract.

pub mod error;
pub mod partition;
pub mod sampling;
pub mod taskbag;
