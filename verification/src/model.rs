//! The data model: strategy identities, positions, rate-curve parameters,
//! capacity records, signed debt changes, and the arithmetic error.

use vstd::prelude::*;
use crate::wide::{Wide, wide_val, wide_le, wide_sub};

verus! {

/// Fatal arithmetic failure: an overflow past 256 bits, a division by zero,
/// a narrowing that does not fit 64 bits, a clock that went backwards, or a
/// debt change that would make the total asset negative. Any of these means
/// the snapshot is inconsistent and the whole computation is abandoned.
#[derive(Clone, Copy, PartialEq, Eq, Structural, Debug)]
pub struct ArithmeticError;

/// The identity of a strategy: a 160-bit tag split into two plain fields
/// (the high 32 bits and the low 128 bits).
#[derive(Clone, Copy, PartialEq, Eq, Structural, Debug)]
pub struct StrategyId {
    pub hi: u32,
    pub lo: u128,
}

/// A strategy identity paired with a debt amount. Used both as optimizer
/// input (the current allocation) and output (the target allocation).
#[derive(Clone, Copy, PartialEq, Eq, Structural, Debug)]
pub struct Position {
    pub strategy: StrategyId,
    pub debt: Wide,
}

/// Fixed interest-rate-curve parameters and current state of one strategy.
#[derive(Clone, Copy)]
pub struct CurveParams {
    pub current_timestamp: Wide,
    pub last_timestamp: Wide,
    pub rate_per_second: Wide,
    pub full_utilization_rate: Wide,
    pub total_asset: Wide,
    pub total_borrow: Wide,
    pub utilization_precision: Wide,
    pub min_target_utilization: Wide,
    pub max_target_utilization: Wide,
    pub vertex_utilization: Wide,
    pub min_full_utilization_rate: Wide,
    pub max_full_utilization_rate: Wide,
    pub zero_utilization_rate: Wide,
    pub rate_half_life: Wide,
    pub vertex_rate_percent: Wide,
    pub rate_precision: Wide,
    pub interest_paused: bool,
}

/// Capacity record of one strategy.
#[derive(Clone, Copy)]
pub struct StrategyCaps {
    pub activation_time: Wide,
    pub last_report_time: Wide,
    pub current_debt: Wide,
    pub max_debt: Wide,
}

/// A signed debt change: a sign and a 256-bit magnitude.
#[derive(Clone, Copy)]
pub struct SignedDelta {
    pub negative: bool,
    pub magnitude: Wide,
}

/// The signed value of a debt change.
pub open spec fn delta_val(d: SignedDelta) -> int {
    if d.negative {
        -(wide_val(d.magnitude) as int)
    } else {
        wide_val(d.magnitude) as int
    }
}

impl SignedDelta {
    /// The signed difference `a - b`.
    pub fn from_diff(a: &Wide, b: &Wide) -> (d: SignedDelta)
        ensures
            delta_val(d) == wide_val(*a) - wide_val(*b),
    {
        if wide_le(b, a) {
            SignedDelta { negative: false, magnitude: wide_sub(a, b).unwrap() }
        } else {
            SignedDelta { negative: true, magnitude: wide_sub(b, a).unwrap() }
        }
    }

    pub fn zero() -> (d: SignedDelta)
        ensures
            delta_val(d) == 0,
    {
        SignedDelta { negative: false, magnitude: Wide::from_u64(0) }
    }

    pub fn is_zero(&self) -> (r: bool)
        ensures
            r == (delta_val(*self) == 0),
    {
        self.magnitude.is_zero()
    }
}

} // verus!
