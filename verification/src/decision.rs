//! The end-to-end computation: run the optimizer, compute the blended APR
//! before and after, and accept the plan only when it strictly improves the
//! blended APR. A rejected plan is discarded and never leaves this module.

use vstd::prelude::*;
use crate::wide::{Wide, wide_val, wv};
use crate::model::{CurveParams, StrategyCaps, Position, ArithmeticError};
use crate::optimizer::{alloc_ok, alloc_positions, initial_debts, deposit_unit, any_no_apr,
    plan_models, get_optimal_allocation};
use crate::aggregator::{agg_ok, agg_pair, get_current_and_new_apr};

verus! {

/// What one invocation reports: the decision, the plan (empty unless
/// accepted), both blended APRs, and the diagnostic flag for chunks that
/// fell back to strategy 0 for want of a positive APR.
pub struct ReallocationOutcome {
    pub accepted: bool,
    pub positions: Vec<Position>,
    pub current_apr: u64,
    pub new_apr: u64,
    pub no_apr_fallback: bool,
}

/// The whole deterministic batch computation: optimize, aggregate, decide.
/// The plan is exposed exactly when the blended APR it implies is strictly
/// greater than the current one; otherwise the outcome carries an empty
/// plan and the rejected flag.
pub fn plan_reallocation(
    chunk_count: u64,
    total_initial_amount: Wide,
    total_available_amount: Wide,
    initial: &Vec<Position>,
    curves: &Vec<CurveParams>,
    caps: &Vec<StrategyCaps>,
) -> (r: Result<ReallocationOutcome, ArithmeticError>)
    requires
        initial@.len() == curves@.len(),
        initial@.len() == caps@.len(),
        1 <= chunk_count,
        wide_val(total_initial_amount) <= wide_val(total_available_amount),
        initial@.len() == 0 ==> wide_val(total_available_amount) - wide_val(
            total_initial_amount,
        ) < chunk_count,
    ensures
        r is Ok <==> {
            &&& alloc_ok(
                chunk_count as int,
                wv(total_initial_amount),
                wv(total_available_amount),
                initial@,
                curves@,
                caps@,
            )
            &&& agg_ok(
                initial@,
                curves@,
                caps@,
                alloc_positions(
                    chunk_count as int,
                    wv(total_initial_amount),
                    wv(total_available_amount),
                    initial@,
                    curves@,
                    caps@,
                ),
            )
        },
        r is Ok ==> {
            let pair = agg_pair(
                initial@,
                curves@,
                caps@,
                alloc_positions(
                    chunk_count as int,
                    wv(total_initial_amount),
                    wv(total_available_amount),
                    initial@,
                    curves@,
                    caps@,
                ),
            );
            &&& r->Ok_0.current_apr as int == pair.0
            &&& r->Ok_0.new_apr as int == pair.1
            &&& r->Ok_0.accepted == (pair.1 > pair.0)
            &&& (r->Ok_0.accepted ==> plan_models(r->Ok_0.positions@) == alloc_positions(
                chunk_count as int,
                wv(total_initial_amount),
                wv(total_available_amount),
                initial@,
                curves@,
                caps@,
            ))
            &&& (!r->Ok_0.accepted ==> r->Ok_0.positions@.len() == 0)
            &&& r->Ok_0.no_apr_fallback == (deposit_unit(
                wv(total_initial_amount),
                wv(total_available_amount),
                chunk_count as int,
            ) != 0 && any_no_apr(
                initial_debts(initial@),
                chunk_count as int,
                wv(total_initial_amount),
                wv(total_available_amount),
                curves@,
                caps@,
            ))
        },
{
    let plan = match get_optimal_allocation(
        chunk_count,
        total_initial_amount,
        total_available_amount,
        initial,
        curves,
        caps,
    ) {
        Ok(p) => p,
        Err(e) => { return Err(e); },
    };
    let aprs = match get_current_and_new_apr(initial, curves, caps, &plan.positions) {
        Ok(t) => t,
        Err(e) => { return Err(e); },
    };
    let current_apr = aprs.0;
    let new_apr = aprs.1;
    if new_apr > current_apr {
        Ok(ReallocationOutcome {
            accepted: true,
            positions: plan.positions,
            current_apr,
            new_apr,
            no_apr_fallback: plan.no_apr_fallback,
        })
    } else {
        Ok(ReallocationOutcome {
            accepted: false,
            positions: Vec::new(),
            current_apr,
            new_apr,
            no_apr_fallback: plan.no_apr_fallback,
        })
    }
}

} // verus!
