//! The rate-curve model: the time-decayed full-utilization rate and the
//! two-segment ("vertex") per-second borrow rate.
//!
//! All arithmetic is 256-bit unsigned with truncating division, narrowed to
//! 64 bits only at the clamp boundary. Every function states exactly on
//! which inputs it succeeds; it fails exactly where a 256-bit product would
//! overflow, a divisor is zero, a subtraction would underflow, or a value
//! narrowed to 64 bits does not fit.

use vstd::prelude::*;
use crate::wide::{Wide, wide_val, wide_lt, wide_add, wide_sub, wide_mul, wide_div, wv, wb};
use crate::model::{CurveParams, ArithmeticError};

verus! {

/// Fixed-point unit for relative utilization distances (`10^18`).
pub const SCALE: u64 = 1_000_000_000_000_000_000;

/// `SCALE` squared (`10^36`), the fixed-point unit of the decay law.
pub const SCALE_SQUARED: u128 = 1_000_000_000_000_000_000_000_000_000_000_000_000;

/// How far utilization sits below the target band, scaled by `SCALE`.
pub open spec fn decay_delta_util(u: int, p: CurveParams) -> int {
    (wv(p.min_target_utilization) - u) * SCALE / wv(p.min_target_utilization)
}

/// How far utilization sits above the target band, scaled by `SCALE`.
pub open spec fn growth_delta_util(u: int, p: CurveParams) -> int {
    (u - wv(p.max_target_utilization)) * SCALE
        / (wv(p.utilization_precision) - wv(p.max_target_utilization))
}

/// The half-life term of the decay law.
pub open spec fn half_life_scaled(p: CurveParams) -> int {
    wv(p.rate_half_life) * (SCALE_SQUARED as int)
}

/// The decay/growth factor: half-life term plus squared distance times time.
pub open spec fn decay_growth(du: int, dt: int, p: CurveParams) -> int {
    half_life_scaled(p) + du * du * dt
}

/// The full-utilization rate before clamping: decayed below the target band,
/// grown above it, unchanged inside it.
pub open spec fn raw_full_rate(dt: int, u: int, p: CurveParams) -> int {
    if u < wv(p.min_target_utilization) {
        wv(p.full_utilization_rate) * half_life_scaled(p)
            / decay_growth(decay_delta_util(u, p), dt, p)
    } else if u > wv(p.max_target_utilization) {
        wv(p.full_utilization_rate) * decay_growth(growth_delta_util(u, p), dt, p)
            / half_life_scaled(p)
    } else {
        wv(p.full_utilization_rate)
    }
}

/// When the decay branch stays within 256-bit arithmetic and narrows to 64
/// bits.
pub open spec fn full_rate_low_ok(dt: int, u: int, p: CurveParams) -> bool {
    let du = decay_delta_util(u, p);
    let hls = half_life_scaled(p);
    &&& (wv(p.min_target_utilization) - u) * SCALE < wb()
    &&& hls < wb()
    &&& du * du < wb()
    &&& du * du * dt < wb()
    &&& hls + du * du * dt < wb()
    &&& wv(p.full_utilization_rate) * hls < wb()
    &&& decay_growth(du, dt, p) != 0
    &&& wv(p.full_utilization_rate) * hls / decay_growth(du, dt, p) <= u64::MAX
}

/// When the growth branch stays within 256-bit arithmetic and narrows to 64
/// bits.
pub open spec fn full_rate_high_ok(dt: int, u: int, p: CurveParams) -> bool {
    let du = growth_delta_util(u, p);
    let hls = half_life_scaled(p);
    &&& wv(p.utilization_precision) > wv(p.max_target_utilization)
    &&& (u - wv(p.max_target_utilization)) * SCALE < wb()
    &&& hls < wb()
    &&& du * du < wb()
    &&& du * du * dt < wb()
    &&& hls + du * du * dt < wb()
    &&& wv(p.full_utilization_rate) * decay_growth(du, dt, p) < wb()
    &&& hls != 0
    &&& wv(p.full_utilization_rate) * decay_growth(du, dt, p) / hls <= u64::MAX
}

/// When `get_full_utilization_interest` succeeds: the branch arithmetic goes
/// through and the clamp bounds themselves fit 64 bits (the lower bound is
/// only read when the upper bound did not already apply).
pub open spec fn full_rate_ok(dt: int, u: int, p: CurveParams) -> bool {
    &&& if u < wv(p.min_target_utilization) {
            full_rate_low_ok(dt, u, p)
        } else if u > wv(p.max_target_utilization) {
            full_rate_high_ok(dt, u, p)
        } else {
            wv(p.full_utilization_rate) <= u64::MAX
        }
    &&& wv(p.max_full_utilization_rate) <= u64::MAX
    &&& (raw_full_rate(dt, u, p) <= wv(p.max_full_utilization_rate)
        ==> wv(p.min_full_utilization_rate) <= u64::MAX)
}

/// The clamped full-utilization rate.
pub open spec fn full_rate_val(dt: int, u: int, p: CurveParams) -> int {
    let raw = raw_full_rate(dt, u, p);
    if raw > wv(p.max_full_utilization_rate) {
        wv(p.max_full_utilization_rate)
    } else if raw < wv(p.min_full_utilization_rate) {
        wv(p.min_full_utilization_rate)
    } else {
        raw
    }
}

/// The decayed full-utilization rate, clamped to
/// `[min_full_utilization_rate, max_full_utilization_rate]`.
pub fn get_full_utilization_interest(delta_time: Wide, utilization: Wide, p: &CurveParams) -> (r:
    Result<u64, ArithmeticError>)
    ensures
        r is Ok <==> full_rate_ok(wv(delta_time), wv(utilization), *p),
        r is Ok ==> r->Ok_0 == full_rate_val(wv(delta_time), wv(utilization), *p),
        r is Ok && wv(p.min_full_utilization_rate) <= wv(p.max_full_utilization_rate) ==> {
            &&& wv(p.min_full_utilization_rate) <= r->Ok_0
            &&& r->Ok_0 <= wv(p.max_full_utilization_rate)
        },
{
    let raw_w: Wide;
    if wide_lt(&utilization, &p.min_target_utilization) {
        let d = wide_sub(&p.min_target_utilization, &utilization).unwrap();
        let m1 = match wide_mul(&d, &Wide::from_u64(SCALE)) {
            Some(x) => x,
            None => { return Err(ArithmeticError); },
        };
        let du = wide_div(&m1, &p.min_target_utilization).unwrap();
        let hls = match wide_mul(&p.rate_half_life, &Wide::from_u128(SCALE_SQUARED)) {
            Some(x) => x,
            None => { return Err(ArithmeticError); },
        };
        let du2 = match wide_mul(&du, &du) {
            Some(x) => x,
            None => { return Err(ArithmeticError); },
        };
        let du2t = match wide_mul(&du2, &delta_time) {
            Some(x) => x,
            None => { return Err(ArithmeticError); },
        };
        let dg = match wide_add(&hls, &du2t) {
            Some(x) => x,
            None => { return Err(ArithmeticError); },
        };
        let num = match wide_mul(&p.full_utilization_rate, &hls) {
            Some(x) => x,
            None => { return Err(ArithmeticError); },
        };
        raw_w = match wide_div(&num, &dg) {
            Some(x) => x,
            None => { return Err(ArithmeticError); },
        };
    } else if wide_lt(&p.max_target_utilization, &utilization) {
        let d = wide_sub(&utilization, &p.max_target_utilization).unwrap();
        let den = match wide_sub(&p.utilization_precision, &p.max_target_utilization) {
            Some(x) => x,
            None => { return Err(ArithmeticError); },
        };
        let m1 = match wide_mul(&d, &Wide::from_u64(SCALE)) {
            Some(x) => x,
            None => { return Err(ArithmeticError); },
        };
        let du = match wide_div(&m1, &den) {
            Some(x) => x,
            None => { return Err(ArithmeticError); },
        };
        let hls = match wide_mul(&p.rate_half_life, &Wide::from_u128(SCALE_SQUARED)) {
            Some(x) => x,
            None => { return Err(ArithmeticError); },
        };
        let du2 = match wide_mul(&du, &du) {
            Some(x) => x,
            None => { return Err(ArithmeticError); },
        };
        let du2t = match wide_mul(&du2, &delta_time) {
            Some(x) => x,
            None => { return Err(ArithmeticError); },
        };
        let dg = match wide_add(&hls, &du2t) {
            Some(x) => x,
            None => { return Err(ArithmeticError); },
        };
        let num = match wide_mul(&p.full_utilization_rate, &dg) {
            Some(x) => x,
            None => { return Err(ArithmeticError); },
        };
        raw_w = match wide_div(&num, &hls) {
            Some(x) => x,
            None => { return Err(ArithmeticError); },
        };
    } else {
        raw_w = p.full_utilization_rate;
    }
    let raw = match raw_w.to_u64() {
        Some(x) => x,
        None => { return Err(ArithmeticError); },
    };
    let maxr = match p.max_full_utilization_rate.to_u64() {
        Some(x) => x,
        None => { return Err(ArithmeticError); },
    };
    if raw > maxr {
        Ok(maxr)
    } else {
        let minr = match p.min_full_utilization_rate.to_u64() {
            Some(x) => x,
            None => { return Err(ArithmeticError); },
        };
        if raw < minr {
            Ok(minr)
        } else {
            Ok(raw)
        }
    }
}

/// The rate at the vertex of the two-segment curve: `zero_utilization_rate`
/// plus `vertex_rate_percent / rate_precision` of the way up to the
/// full-utilization rate.
pub open spec fn vertex_interest(full: int, p: CurveParams) -> int {
    (full - wv(p.zero_utilization_rate)) * wv(p.vertex_rate_percent) / wv(p.rate_precision)
        + wv(p.zero_utilization_rate)
}

/// When the vertex rate stays within 256-bit arithmetic.
pub open spec fn vertex_ok(full: int, p: CurveParams) -> bool {
    &&& full >= wv(p.zero_utilization_rate)
    &&& (full - wv(p.zero_utilization_rate)) * wv(p.vertex_rate_percent) < wb()
    &&& wv(p.rate_precision) != 0
    &&& vertex_interest(full, p) < wb()
}

/// The per-second borrow rate: linear from `zero_utilization_rate` to the
/// vertex rate below the vertex, then linear from the vertex rate to the
/// full-utilization rate above it.
pub open spec fn raw_rate_per_second(full: int, u: int, p: CurveParams) -> int {
    let vi = vertex_interest(full, p);
    if u < wv(p.vertex_utilization) {
        wv(p.zero_utilization_rate) + u * (vi - wv(p.zero_utilization_rate))
            / wv(p.vertex_utilization)
    } else {
        vi + (u - wv(p.vertex_utilization)) * (full - vi)
            / (wv(p.utilization_precision) - wv(p.vertex_utilization))
    }
}

/// When `get_new_rate`'s own arithmetic (after a successful
/// full-utilization rate) goes through and narrows to 64 bits.
pub open spec fn rate_per_second_ok(full: int, u: int, p: CurveParams) -> bool {
    let vi = vertex_interest(full, p);
    &&& vertex_ok(full, p)
    &&& if u < wv(p.vertex_utilization) {
            &&& u * (vi - wv(p.zero_utilization_rate)) < wb()
            &&& raw_rate_per_second(full, u, p) < wb()
            &&& raw_rate_per_second(full, u, p) <= u64::MAX
        } else {
            &&& full >= vi
            &&& wv(p.utilization_precision) > wv(p.vertex_utilization)
            &&& (u - wv(p.vertex_utilization)) * (full - vi) < wb()
            &&& raw_rate_per_second(full, u, p) < wb()
            &&& raw_rate_per_second(full, u, p) <= u64::MAX
        }
}

/// The per-second rate and the full-utilization rate it interpolates from.
pub fn get_new_rate(delta_time: Wide, utilization: Wide, p: &CurveParams) -> (r: Result<
    (u64, u64),
    ArithmeticError,
>)
    ensures
        r is Ok <==> {
            &&& full_rate_ok(wv(delta_time), wv(utilization), *p)
            &&& rate_per_second_ok(
                full_rate_val(wv(delta_time), wv(utilization), *p),
                wv(utilization),
                *p,
            )
        },
        r is Ok ==> {
            &&& r->Ok_0.1 == full_rate_val(wv(delta_time), wv(utilization), *p)
            &&& r->Ok_0.0 == raw_rate_per_second(
                full_rate_val(wv(delta_time), wv(utilization), *p),
                wv(utilization),
                *p,
            )
        },
{
    let full = match get_full_utilization_interest(delta_time, utilization, p) {
        Ok(x) => x,
        Err(e) => { return Err(e); },
    };
    let full_w = Wide::from_u64(full);
    let fz = match wide_sub(&full_w, &p.zero_utilization_rate) {
        Some(x) => x,
        None => { return Err(ArithmeticError); },
    };
    let m1 = match wide_mul(&fz, &p.vertex_rate_percent) {
        Some(x) => x,
        None => { return Err(ArithmeticError); },
    };
    let q = match wide_div(&m1, &p.rate_precision) {
        Some(x) => x,
        None => { return Err(ArithmeticError); },
    };
    let vi = match wide_add(&q, &p.zero_utilization_rate) {
        Some(x) => x,
        None => { return Err(ArithmeticError); },
    };
    let rate_w: Wide;
    if wide_lt(&utilization, &p.vertex_utilization) {
        let slope = wide_sub(&vi, &p.zero_utilization_rate).unwrap();
        let m2 = match wide_mul(&utilization, &slope) {
            Some(x) => x,
            None => { return Err(ArithmeticError); },
        };
        let q2 = wide_div(&m2, &p.vertex_utilization).unwrap();
        rate_w = match wide_add(&p.zero_utilization_rate, &q2) {
            Some(x) => x,
            None => { return Err(ArithmeticError); },
        };
    } else {
        let above = wide_sub(&utilization, &p.vertex_utilization).unwrap();
        let rise = match wide_sub(&full_w, &vi) {
            Some(x) => x,
            None => { return Err(ArithmeticError); },
        };
        let den = match wide_sub(&p.utilization_precision, &p.vertex_utilization) {
            Some(x) => x,
            None => { return Err(ArithmeticError); },
        };
        let m2 = match wide_mul(&above, &rise) {
            Some(x) => x,
            None => { return Err(ArithmeticError); },
        };
        let q2 = match wide_div(&m2, &den) {
            Some(x) => x,
            None => { return Err(ArithmeticError); },
        };
        rate_w = match wide_add(&vi, &q2) {
            Some(x) => x,
            None => { return Err(ArithmeticError); },
        };
    }
    let rate = match rate_w.to_u64() {
        Some(x) => x,
        None => { return Err(ArithmeticError); },
    };
    Ok((rate, full))
}

} // verus!
