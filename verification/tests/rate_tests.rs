use optimal_allocation::wide::Wide;
use optimal_allocation::model::{CurveParams, SignedDelta};
use optimal_allocation::rate::{get_full_utilization_interest, get_new_rate};
use optimal_allocation::apr::{apr_after_debt_change, SECONDS_PER_YEAR};

fn w(x: u128) -> Wide {
    Wide::from_u128(x)
}

fn base_params() -> CurveParams {
    CurveParams {
        current_timestamp: w(1000),
        last_timestamp: w(1000),
        rate_per_second: w(100),
        full_utilization_rate: w(1000),
        total_asset: w(1000),
        total_borrow: w(500),
        utilization_precision: w(10000),
        min_target_utilization: w(100),
        max_target_utilization: w(9000),
        vertex_utilization: w(3000),
        min_full_utilization_rate: w(10),
        max_full_utilization_rate: w(100000),
        zero_utilization_rate: w(100),
        rate_half_life: w(3600),
        vertex_rate_percent: w(5000),
        rate_precision: w(10000),
        interest_paused: false,
    }
}

#[test]
fn full_rate_within_band_is_unchanged() {
    let p = base_params();
    let r = get_full_utilization_interest(w(0), w(500), &p);
    assert_eq!(r, Ok(1000));
}

#[test]
fn full_rate_decays_below_band() {
    let mut p = base_params();
    p.min_target_utilization = w(1000);
    p.full_utilization_rate = w(7202);
    p.min_full_utilization_rate = w(0);
    // delta_util = (1000 - 500) * 1e18 / 1000 = 5e17; growth = 3600e36 + (5e17)^2 * 4
    // = 3601e36; rate = 7202 * 3600e36 / 3601e36 = 7200 exactly.
    let r = get_full_utilization_interest(w(4), w(500), &p);
    assert_eq!(r, Ok(7200));
}

#[test]
fn full_rate_grows_above_band() {
    let mut p = base_params();
    p.max_target_utilization = w(1000);
    p.utilization_precision = w(2000);
    p.full_utilization_rate = w(7200);
    // delta_util = (1500 - 1000) * 1e18 / (2000 - 1000) = 5e17; growth = 3601e36;
    // rate = 7200 * 3601e36 / 3600e36 = 7202.
    let r = get_full_utilization_interest(w(4), w(1500), &p);
    assert_eq!(r, Ok(7202));
}

#[test]
fn full_rate_clamps_to_minimum() {
    let mut p = base_params();
    p.min_full_utilization_rate = w(2000);
    let r = get_full_utilization_interest(w(0), w(500), &p);
    assert_eq!(r, Ok(2000));
}

#[test]
fn full_rate_clamps_to_maximum() {
    let mut p = base_params();
    p.max_full_utilization_rate = w(500);
    let r = get_full_utilization_interest(w(0), w(500), &p);
    assert_eq!(r, Ok(500));
}

#[test]
fn rate_per_second_below_vertex() {
    let mut p = base_params();
    p.full_utilization_rate = w(1100);
    p.vertex_utilization = w(1000);
    p.utilization_precision = w(2000);
    // full = 1100; vertex interest = (1100 - 100) * 5000 / 10000 + 100 = 600;
    // utilization 500 < 1000: rate = 100 + 500 * (600 - 100) / 1000 = 350.
    let r = get_new_rate(w(0), w(500), &p);
    assert_eq!(r, Ok((350, 1100)));
}

#[test]
fn rate_per_second_above_vertex() {
    let mut p = base_params();
    p.full_utilization_rate = w(1100);
    p.vertex_utilization = w(1000);
    p.utilization_precision = w(2000);
    p.max_target_utilization = w(2000);
    // utilization 1500 >= 1000: rate = 600 + (1500 - 1000) * (1100 - 600) / (2000 - 1000)
    // = 850.
    let r = get_new_rate(w(0), w(1500), &p);
    assert_eq!(r, Ok((850, 1100)));
}

#[test]
fn rate_fails_on_zero_rate_precision() {
    let mut p = base_params();
    p.rate_precision = w(0);
    assert!(get_new_rate(w(0), w(500), &p).is_err());
}

#[test]
fn apr_zero_delta_uses_stored_rate() {
    let p = base_params();
    let r = apr_after_debt_change(&p, SignedDelta::zero()).unwrap();
    assert_eq!(r.to_u64(), Some(100 * SECONDS_PER_YEAR));
}

#[test]
fn apr_paused_ignores_delta() {
    let mut p = base_params();
    p.interest_paused = true;
    let up = apr_after_debt_change(&p, SignedDelta::from_diff(&w(600), &w(100))).unwrap();
    let down = apr_after_debt_change(&p, SignedDelta::from_diff(&w(100), &w(600))).unwrap();
    let zero = apr_after_debt_change(&p, SignedDelta::zero()).unwrap();
    assert_eq!(up.to_u64(), Some(100 * SECONDS_PER_YEAR));
    assert_eq!(up, down);
    assert_eq!(up, zero);
}

#[test]
fn apr_recomputes_rate_for_positive_delta() {
    let mut p = base_params();
    p.full_utilization_rate = w(1100);
    p.min_target_utilization = w(0);
    // delta +1000: asset = 2000, utilization = 10000 * 500 / 2000 = 2500 < vertex 3000:
    // rate = 100 + 2500 * (600 - 100) / 3000 = 516; apr = 516 * seconds-per-year.
    let r = apr_after_debt_change(&p, SignedDelta::from_diff(&w(1000), &w(0))).unwrap();
    assert_eq!(r.to_u64(), Some(516 * SECONDS_PER_YEAR));
}

#[test]
fn apr_fails_when_stored_rate_overflows_annualization() {
    let mut p = base_params();
    p.rate_per_second = Wide { l0: 0, l1: 0, l2: 0, l3: u64::MAX };
    assert!(apr_after_debt_change(&p, SignedDelta::zero()).is_err());
}

#[test]
fn apr_fails_when_asset_would_go_negative() {
    let p = base_params();
    // total_asset is 1000; a decrease of 2000 is an inconsistent snapshot.
    let r = apr_after_debt_change(&p, SignedDelta::from_diff(&w(0), &w(2000)));
    assert!(r.is_err());
}

#[test]
fn apr_fails_when_time_runs_backwards() {
    let mut p = base_params();
    p.current_timestamp = w(900);
    let r = apr_after_debt_change(&p, SignedDelta::from_diff(&w(100), &w(0)));
    assert!(r.is_err());
}
