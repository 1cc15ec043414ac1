//! The APR evaluator: the annualized rate a strategy would earn after a
//! hypothetical signed change of its debt.

use vstd::prelude::*;
use crate::wide::{Wide, wide_val, wide_add, wide_sub, wide_mul, wide_div, wv, wb};
use crate::model::{CurveParams, ArithmeticError, SignedDelta, delta_val};
use crate::rate::{full_rate_ok, full_rate_val, rate_per_second_ok, raw_rate_per_second,
    get_new_rate};

verus! {

/// Seconds in a mean Gregorian year; the annualization factor.
pub const SECONDS_PER_YEAR: u64 = 31_556_952;

/// The annualized stored rate, used verbatim for a zero debt change or a
/// paused strategy.
pub open spec fn stored_apr(p: CurveParams) -> int {
    wv(p.rate_per_second) * SECONDS_PER_YEAR
}

/// The total asset after the debt change.
pub open spec fn new_total_asset(p: CurveParams, delta: int) -> int {
    wv(p.total_asset) + delta
}

/// Elapsed time since the rate was last stored.
pub open spec fn elapsed_time(p: CurveParams) -> int {
    wv(p.current_timestamp) - wv(p.last_timestamp)
}

/// Utilization implied by the changed total asset: zero for an empty
/// strategy, else `utilization_precision * total_borrow / asset`.
pub open spec fn utilization_after(p: CurveParams, asset: int) -> int {
    if asset == 0 {
        0
    } else {
        wv(p.utilization_precision) * wv(p.total_borrow) / asset
    }
}

/// When `apr_after_debt_change` succeeds. A zero change or a paused strategy
/// only needs the stored rate to annualize within 256 bits; otherwise the
/// changed total asset must be representable and non-negative, time must not
/// run backwards, and the rate-curve arithmetic must go through.
#[verifier::opaque]
pub open spec fn apr_ok(p: CurveParams, delta: int) -> bool {
    if delta == 0 || p.interest_paused {
        stored_apr(p) < wb()
    } else {
        let asset = new_total_asset(p, delta);
        &&& 0 <= asset
        &&& asset < wb()
        &&& elapsed_time(p) >= 0
        &&& (asset != 0 ==> wv(p.utilization_precision) * wv(p.total_borrow) < wb())
        &&& full_rate_ok(elapsed_time(p), utilization_after(p, asset), p)
        &&& rate_per_second_ok(
            full_rate_val(elapsed_time(p), utilization_after(p, asset), p),
            utilization_after(p, asset),
            p,
        )
    }
}

/// The annualized rate after the debt change.
#[verifier::opaque]
pub open spec fn apr_val(p: CurveParams, delta: int) -> int {
    if delta == 0 || p.interest_paused {
        stored_apr(p)
    } else {
        let asset = new_total_asset(p, delta);
        let u = utilization_after(p, asset);
        raw_rate_per_second(full_rate_val(elapsed_time(p), u, p), u, p) * SECONDS_PER_YEAR
    }
}

/// The annualized rate implied by changing the strategy's debt by `delta`.
/// For a zero change or a paused strategy this is the stored rate verbatim;
/// otherwise the rate curve is re-evaluated at the implied utilization.
pub fn apr_after_debt_change(p: &CurveParams, delta: SignedDelta) -> (r: Result<
    Wide,
    ArithmeticError,
>)
    ensures
        r is Ok <==> apr_ok(*p, delta_val(delta)),
        r is Ok ==> wide_val(r->Ok_0) == apr_val(*p, delta_val(delta)),
{
    proof {
        reveal(apr_ok);
        reveal(apr_val);
    }
    let spy = Wide::from_u64(SECONDS_PER_YEAR);
    if delta.is_zero() || p.interest_paused {
        return match wide_mul(&p.rate_per_second, &spy) {
            Some(w) => Ok(w),
            None => Err(ArithmeticError),
        };
    }
    let asset: Wide = if delta.negative {
        match wide_sub(&p.total_asset, &delta.magnitude) {
            Some(w) => w,
            None => { return Err(ArithmeticError); },
        }
    } else {
        match wide_add(&p.total_asset, &delta.magnitude) {
            Some(w) => w,
            None => { return Err(ArithmeticError); },
        }
    };
    let dt = match wide_sub(&p.current_timestamp, &p.last_timestamp) {
        Some(w) => w,
        None => { return Err(ArithmeticError); },
    };
    let util: Wide = if asset.is_zero() {
        Wide::from_u64(0)
    } else {
        let m = match wide_mul(&p.utilization_precision, &p.total_borrow) {
            Some(w) => w,
            None => { return Err(ArithmeticError); },
        };
        wide_div(&m, &asset).unwrap()
    };
    let rate = match get_new_rate(dt, util, p) {
        Ok(t) => t.0,
        Err(e) => { return Err(e); },
    };
    proof {
        assert((rate as int) * (SECONDS_PER_YEAR as int) < wb()) by (nonlinear_arith)
            requires rate <= u64::MAX;
    }
    Ok(wide_mul(&Wide::from_u64(rate), &spy).unwrap())
}

/// A paused strategy is frozen: whether the evaluation succeeds and the rate
/// it returns are the same for every debt change.
pub proof fn lemma_paused_apr_invariant(p: CurveParams, d1: int, d2: int)
    requires
        p.interest_paused,
    ensures
        apr_ok(p, d1) == apr_ok(p, d2),
        apr_val(p, d1) == apr_val(p, d2),
{
    reveal(apr_ok);
    reveal(apr_val);
}

} // verus!
