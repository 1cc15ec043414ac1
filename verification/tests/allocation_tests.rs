use optimal_allocation::wide::Wide;
use optimal_allocation::model::{CurveParams, StrategyCaps, Position, StrategyId, SignedDelta};
use optimal_allocation::apr::{apr_after_debt_change, SECONDS_PER_YEAR};
use optimal_allocation::optimizer::get_optimal_allocation;
use optimal_allocation::aggregator::get_current_and_new_apr;
use optimal_allocation::decision::plan_reallocation;

fn w(x: u128) -> Wide {
    Wide::from_u128(x)
}

fn sid(n: u32) -> StrategyId {
    StrategyId { hi: n, lo: n as u128 }
}

fn pos(id: u32, debt: u128) -> Position {
    Position { strategy: sid(id), debt: w(debt) }
}

fn caps(current: u128, max: u128) -> StrategyCaps {
    StrategyCaps {
        activation_time: w(0),
        last_report_time: w(0),
        current_debt: w(current),
        max_debt: w(max),
    }
}

fn paused_params(rate: u128) -> CurveParams {
    CurveParams {
        current_timestamp: w(1000),
        last_timestamp: w(1000),
        rate_per_second: w(rate),
        full_utilization_rate: w(1000),
        total_asset: w(1000),
        total_borrow: w(500),
        utilization_precision: w(10000),
        min_target_utilization: w(100),
        max_target_utilization: w(9000),
        vertex_utilization: w(3000),
        min_full_utilization_rate: w(0),
        max_full_utilization_rate: w(1000000),
        zero_utilization_rate: w(100),
        rate_half_life: w(3600),
        vertex_rate_percent: w(5000),
        rate_precision: w(10000),
        interest_paused: true,
    }
}

fn curve_params(vertex_utilization: u128) -> CurveParams {
    CurveParams {
        current_timestamp: w(1000),
        last_timestamp: w(1000),
        rate_per_second: w(100),
        full_utilization_rate: w(1100),
        total_asset: w(1000),
        total_borrow: w(500),
        utilization_precision: w(10000),
        min_target_utilization: w(0),
        max_target_utilization: w(9000),
        vertex_utilization: w(vertex_utilization),
        min_full_utilization_rate: w(0),
        max_full_utilization_rate: w(1000000),
        zero_utilization_rate: w(100),
        rate_half_life: w(3600),
        vertex_rate_percent: w(5000),
        rate_precision: w(10000),
        interest_paused: false,
    }
}

#[test]
fn zero_deposit_unit_returns_empty_plan() {
    let initial = vec![pos(1, 100), pos(2, 100)];
    let curves = vec![paused_params(100), paused_params(100)];
    let limits = vec![caps(100, 10000), caps(100, 10000)];
    let plan = get_optimal_allocation(1, w(200), w(200), &initial, &curves, &limits).unwrap();
    assert_eq!(plan.positions.len(), 0);
    assert!(!plan.no_apr_fallback);
}

#[test]
fn unit_smaller_than_chunk_count_returns_empty_plan() {
    let initial = vec![pos(1, 100)];
    let curves = vec![paused_params(100)];
    let limits = vec![caps(100, 10000)];
    // 5 units of capital over 10 chunks truncates to a zero deposit unit.
    let plan = get_optimal_allocation(10, w(200), w(205), &initial, &curves, &limits).unwrap();
    assert_eq!(plan.positions.len(), 0);
}

#[test]
fn single_chunk_goes_to_first_strategy_on_ties() {
    let initial = vec![pos(1, 100), pos(2, 100)];
    let curves = vec![paused_params(100), paused_params(100)];
    let limits = vec![caps(100, 10000), caps(100, 10000)];
    // One chunk of 100; both paused strategies tie, so the earliest wins;
    // the final-chunk remainder also lands on strategy 0.
    let plan = get_optimal_allocation(1, w(200), w(300), &initial, &curves, &limits).unwrap();
    assert_eq!(plan.positions.len(), 2);
    // Both strategies end at or above their current debt: deposits only,
    // emitted in reverse input order.
    assert_eq!(plan.positions[0].strategy, sid(2));
    assert_eq!(plan.positions[0].debt.to_u64(), Some(100));
    assert_eq!(plan.positions[1].strategy, sid(1));
    assert_eq!(plan.positions[1].debt.to_u64(), Some(300));
}

#[test]
fn withdrawals_come_before_deposits() {
    let initial = vec![pos(1, 100), pos(2, 50)];
    let curves = vec![paused_params(100), paused_params(100)];
    let limits = vec![caps(100, 10000), caps(100, 10000)];
    let plan = get_optimal_allocation(1, w(150), w(250), &initial, &curves, &limits).unwrap();
    // Strategy 1 takes remainder + chunk (100 + 100 + 100 = 300); strategy 2
    // stays at 50, strictly below its current debt of 100: a withdrawal,
    // listed first.
    assert_eq!(plan.positions.len(), 2);
    assert_eq!(plan.positions[0].strategy, sid(2));
    assert_eq!(plan.positions[0].debt.to_u64(), Some(50));
    assert_eq!(plan.positions[1].strategy, sid(1));
    assert_eq!(plan.positions[1].debt.to_u64(), Some(300));
}

#[test]
fn capacity_limits_steer_chunks_elsewhere() {
    let initial = vec![pos(1, 100), pos(2, 100)];
    let curves = vec![paused_params(100), paused_params(100)];
    // Strategy 1 cannot take any chunk on top of the remainder.
    let limits = vec![caps(100, 150), caps(100, 10000)];
    let plan = get_optimal_allocation(1, w(200), w(300), &initial, &curves, &limits).unwrap();
    // Remainder pushes strategy 1 to 200 (over its cap, a documented quirk of
    // the remainder rule); the chunk itself must go to strategy 2.
    assert_eq!(plan.positions[0].strategy, sid(2));
    assert_eq!(plan.positions[0].debt.to_u64(), Some(200));
    assert_eq!(plan.positions[1].strategy, sid(1));
    assert_eq!(plan.positions[1].debt.to_u64(), Some(200));
}

#[test]
fn infeasible_everywhere_falls_back_to_first_strategy() {
    let initial = vec![pos(1, 100), pos(2, 100)];
    let curves = vec![paused_params(100), paused_params(100)];
    let limits = vec![caps(100, 100), caps(100, 100)];
    let plan = get_optimal_allocation(1, w(200), w(300), &initial, &curves, &limits).unwrap();
    assert!(plan.no_apr_fallback);
    // The chunk lands on strategy 0 regardless of its cap.
    assert_eq!(plan.positions[1].strategy, sid(1));
    assert_eq!(plan.positions[1].debt.to_u64(), Some(300));
}

#[test]
fn chunk_goes_to_analytically_better_strategy() {
    // Identical curves except strategy 1 has the higher vertex utilization.
    let initial = vec![pos(1, 100), pos(2, 100)];
    let curves = vec![curve_params(3000), curve_params(1000)];
    let limits = vec![caps(100, 1000000), caps(100, 1000000)];
    // The optimizer evaluates strategy 1 with the remainder already applied
    // (delta 200) and strategy 2 with delta 100; compute both candidate APRs
    // directly and check the optimizer picked the strictly larger one.
    let apr_1 = apr_after_debt_change(&curves[0], SignedDelta::from_diff(&w(300), &w(100)))
        .unwrap()
        .to_u64()
        .unwrap();
    let apr_2 = apr_after_debt_change(&curves[1], SignedDelta::from_diff(&w(200), &w(100)))
        .unwrap()
        .to_u64()
        .unwrap();
    assert_eq!(apr_1, 683 * SECONDS_PER_YEAR);
    assert_eq!(apr_2, 796 * SECONDS_PER_YEAR);
    assert!(apr_2 > apr_1);
    let plan = get_optimal_allocation(1, w(200), w(300), &initial, &curves, &limits).unwrap();
    // Strategy 2 wins the chunk; strategy 1 keeps only the remainder.
    assert_eq!(plan.positions[0].strategy, sid(2));
    assert_eq!(plan.positions[0].debt.to_u64(), Some(200));
    assert_eq!(plan.positions[1].strategy, sid(1));
    assert_eq!(plan.positions[1].debt.to_u64(), Some(200));
    // Accepted plans respect every capacity limit here.
    for p in plan.positions.iter() {
        assert!(p.debt.to_u64().unwrap() <= 1000000);
    }
}

#[test]
fn aggregator_returns_zero_pair_for_empty_plan() {
    let initial = vec![pos(1, 100), pos(2, 100)];
    let curves = vec![paused_params(100), paused_params(200)];
    let limits = vec![caps(100, 10000), caps(100, 10000)];
    let empty: Vec<Position> = vec![];
    let r = get_current_and_new_apr(&initial, &curves, &limits, &empty).unwrap();
    assert_eq!(r, (0, 0));
    assert_eq!(r.1, 0);
}

#[test]
fn aggregator_weights_aprs_by_debt() {
    let initial = vec![pos(1, 1), pos(2, 1)];
    let curves = vec![paused_params(100), paused_params(200)];
    let limits = vec![caps(1, 10000), caps(1, 10000)];
    // Echo the current allocation back as the plan: both sides are the
    // debt-weighted average (100 + 200) / 2 = 150, annualized.
    let r = get_current_and_new_apr(&initial, &curves, &limits, &initial).unwrap();
    assert_eq!(r.0, 150 * SECONDS_PER_YEAR);
    assert_eq!(r.1, 150 * SECONDS_PER_YEAR);
}

#[test]
fn aggregator_stops_at_first_unmatched_entry() {
    let initial = vec![pos(1, 1), pos(2, 1)];
    let curves = vec![paused_params(100), paused_params(200)];
    let limits = vec![caps(1, 10000), caps(1, 10000)];
    // The second plan entry names an unknown strategy: only the first is
    // aggregated into the new APR.
    let partial = vec![pos(1, 1), pos(9, 1)];
    let r = get_current_and_new_apr(&initial, &curves, &limits, &partial).unwrap();
    assert_eq!(r.0, 150 * SECONDS_PER_YEAR);
    assert_eq!(r.1, 100 * SECONDS_PER_YEAR);
}

#[test]
fn rejected_when_new_apr_does_not_improve() {
    let initial = vec![pos(1, 100)];
    let curves = vec![paused_params(100)];
    let limits = vec![caps(100, 10000)];
    let out = plan_reallocation(1, w(100), w(200), &initial, &curves, &limits).unwrap();
    // A paused strategy earns the same rate either way: no strict improvement,
    // so the plan is discarded.
    assert_eq!(out.current_apr, 100 * SECONDS_PER_YEAR);
    assert_eq!(out.new_apr, 100 * SECONDS_PER_YEAR);
    assert!(!out.accepted);
    assert_eq!(out.positions.len(), 0);
}

#[test]
fn accepted_when_new_apr_improves() {
    let initial = vec![pos(1, 100), pos(2, 100)];
    let curves = vec![curve_params(3000), curve_params(1000)];
    let limits = vec![caps(100, 1000000), caps(100, 1000000)];
    let out = plan_reallocation(1, w(200), w(300), &initial, &curves, &limits).unwrap();
    // Current blended APR uses the stored rate (zero delta): 100 annualized.
    // The plan implies (796 + 710) / 2 = 753 annualized.
    assert_eq!(out.current_apr, 100 * SECONDS_PER_YEAR);
    assert_eq!(out.new_apr, 753 * SECONDS_PER_YEAR);
    assert!(out.accepted);
    assert_eq!(out.positions.len(), 2);
    assert_eq!(out.positions[0].strategy, sid(2));
    assert_eq!(out.positions[1].strategy, sid(1));
}

#[test]
fn empty_incremental_capital_is_rejected_with_zero_aprs() {
    let initial = vec![pos(1, 100), pos(2, 100)];
    let curves = vec![paused_params(100), paused_params(200)];
    let limits = vec![caps(100, 10000), caps(100, 10000)];
    let out = plan_reallocation(1, w(200), w(200), &initial, &curves, &limits).unwrap();
    // With an empty plan both blended rates are zero, so nothing is accepted.
    assert_eq!(out.new_apr, 0);
    assert_eq!(out.current_apr, 0);
    assert!(!out.accepted);
    assert_eq!(out.positions.len(), 0);
}

#[test]
fn repeated_runs_give_identical_output() {
    let initial = vec![pos(1, 100), pos(2, 100)];
    let curves = vec![curve_params(3000), curve_params(1000)];
    let limits = vec![caps(100, 1000000), caps(100, 1000000)];
    let a = plan_reallocation(3, w(200), w(500), &initial, &curves, &limits).unwrap();
    let b = plan_reallocation(3, w(200), w(500), &initial, &curves, &limits).unwrap();
    assert_eq!(a.accepted, b.accepted);
    assert_eq!(a.current_apr, b.current_apr);
    assert_eq!(a.new_apr, b.new_apr);
    assert_eq!(a.no_apr_fallback, b.no_apr_fallback);
    assert_eq!(a.positions.len(), b.positions.len());
    for (x, y) in a.positions.iter().zip(b.positions.iter()) {
        assert_eq!(x, y);
    }
}
