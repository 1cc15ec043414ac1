//! Verified reallocation planner for a set of lending strategies.
//!
//! Given a snapshot of per-strategy debts, interest-rate-curve parameters and
//! capacity limits, the library splits newly available capital into equal
//! chunks, greedily assigns each chunk to the strategy with the highest
//! marginal APR, and decides whether the resulting plan beats the current
//! blended APR. All arithmetic is 256-bit unsigned with truncating division.

pub mod wide;
pub mod model;
pub mod rate;
pub mod apr;
pub mod optimizer;
pub mod aggregator;
pub mod decision;
