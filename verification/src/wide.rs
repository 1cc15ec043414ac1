//! 256-bit unsigned integers, stored as four 64-bit limbs (little-endian).
//!
//! All rate-curve and allocation arithmetic works on these values. The
//! verified code reasons about a `Wide` through its mathematical value
//! (`wide_val`); the four arithmetic operations that need a real 256-bit
//! implementation are delegated to `ethabi`'s `U256` behind trusted wrappers
//! with exact contracts.

use vstd::prelude::*;

verus! {

/// A 256-bit unsigned integer: value `l0 + l1*2^64 + l2*2^128 + l3*2^192`.
#[derive(Clone, Copy, PartialEq, Eq, Structural, Debug)]
pub struct Wide {
    pub l0: u64,
    pub l1: u64,
    pub l2: u64,
    pub l3: u64,
}

/// The mathematical value of a `Wide`.
pub open spec fn wide_val(w: Wide) -> nat {
    w.l0 as nat
        + (w.l1 as nat) * 0x1_0000_0000_0000_0000nat
        + (w.l2 as nat) * 0x1_0000_0000_0000_0000_0000_0000_0000_0000nat
        + (w.l3 as nat) * 0x1_0000_0000_0000_0000_0000_0000_0000_0000_0000_0000_0000_0000nat
}

/// `2^256`, the first value a `Wide` cannot hold.
pub open spec fn wide_bound() -> nat {
    0x1_0000_0000_0000_0000_0000_0000_0000_0000_0000_0000_0000_0000_0000_0000_0000_0000nat
}

/// Shorthand for a `Wide`'s value as an `int`, for use in arithmetic specs.
pub open spec fn wv(w: Wide) -> int {
    wide_val(w) as int
}

/// Shorthand for `2^256` as an `int`.
pub open spec fn wb() -> int {
    wide_bound() as int
}

impl Wide {
    pub fn from_u64(x: u64) -> (w: Wide)
        ensures
            wide_val(w) == x,
    {
        Wide { l0: x, l1: 0, l2: 0, l3: 0 }
    }

    pub fn from_u128(x: u128) -> (w: Wide)
        ensures
            wide_val(w) == x,
    {
        let lo: u64 = (x % 0x1_0000_0000_0000_0000) as u64;
        let hi: u64 = (x / 0x1_0000_0000_0000_0000) as u64;
        proof {
            assert(x == (x / 0x1_0000_0000_0000_0000) * 0x1_0000_0000_0000_0000nat
                + x % 0x1_0000_0000_0000_0000) by (nonlinear_arith);
        }
        Wide { l0: lo, l1: hi, l2: 0, l3: 0 }
    }

    /// Narrow to 64 bits; `None` exactly when the value does not fit.
    pub fn to_u64(&self) -> (r: Option<u64>)
        ensures
            r is Some <==> wide_val(*self) <= u64::MAX,
            r is Some ==> r->0 == wide_val(*self),
    {
        if self.l1 == 0 && self.l2 == 0 && self.l3 == 0 {
            Some(self.l0)
        } else {
            None
        }
    }

    pub fn is_zero(&self) -> (r: bool)
        ensures
            r == (wide_val(*self) == 0),
    {
        self.l0 == 0 && self.l1 == 0 && self.l2 == 0 && self.l3 == 0
    }
}

/// Limb-wise comparison decides the value order: a higher limb dominates all
/// lower ones.
proof fn lemma_limb_order(a: Wide, b: Wide)
    ensures
        a.l3 < b.l3 ==> wide_val(a) < wide_val(b),
        a.l3 == b.l3 && a.l2 < b.l2 ==> wide_val(a) < wide_val(b),
        a.l3 == b.l3 && a.l2 == b.l2 && a.l1 < b.l1 ==> wide_val(a) < wide_val(b),
        a.l3 == b.l3 && a.l2 == b.l2 && a.l1 == b.l1 ==> (wide_val(a) <= wide_val(b)
            <==> a.l0 <= b.l0),
{
    assert(a.l0 < 0x1_0000_0000_0000_0000);
    assert(b.l0 < 0x1_0000_0000_0000_0000);
}

/// `a <= b` on the mathematical values.
pub fn wide_le(a: &Wide, b: &Wide) -> (r: bool)
    ensures
        r == (wide_val(*a) <= wide_val(*b)),
{
    proof {
        lemma_limb_order(*a, *b);
        lemma_limb_order(*b, *a);
    }
    if a.l3 != b.l3 {
        a.l3 < b.l3
    } else if a.l2 != b.l2 {
        a.l2 < b.l2
    } else if a.l1 != b.l1 {
        a.l1 < b.l1
    } else {
        a.l0 <= b.l0
    }
}

/// `a < b` on the mathematical values.
pub fn wide_lt(a: &Wide, b: &Wide) -> (r: bool)
    ensures
        r == (wide_val(*a) < wide_val(*b)),
{
    !wide_le(b, a)
}

/// Relies on `ethabi::ethereum_types::U256::checked_add`: 256-bit addition,
/// `None` exactly on overflow past `2^256 - 1`.
#[verifier::external_body]
pub fn wide_add(a: &Wide, b: &Wide) -> (r: Option<Wide>)
    ensures
        r is Some <==> wide_val(*a) + wide_val(*b) < wide_bound(),
        r is Some ==> wide_val(r->0) == wide_val(*a) + wide_val(*b),
{
    let x = ethabi::ethereum_types::U256([a.l0, a.l1, a.l2, a.l3]);
    let y = ethabi::ethereum_types::U256([b.l0, b.l1, b.l2, b.l3]);
    match x.checked_add(y) {
        Some(z) => Some(Wide { l0: z.0[0], l1: z.0[1], l2: z.0[2], l3: z.0[3] }),
        None => None,
    }
}

/// Relies on `ethabi::ethereum_types::U256::checked_sub`: 256-bit
/// subtraction, `None` exactly on underflow.
#[verifier::external_body]
pub fn wide_sub(a: &Wide, b: &Wide) -> (r: Option<Wide>)
    ensures
        r is Some <==> wide_val(*a) >= wide_val(*b),
        r is Some ==> wide_val(r->0) == wide_val(*a) - wide_val(*b),
{
    let x = ethabi::ethereum_types::U256([a.l0, a.l1, a.l2, a.l3]);
    let y = ethabi::ethereum_types::U256([b.l0, b.l1, b.l2, b.l3]);
    match x.checked_sub(y) {
        Some(z) => Some(Wide { l0: z.0[0], l1: z.0[1], l2: z.0[2], l3: z.0[3] }),
        None => None,
    }
}

/// Relies on `ethabi::ethereum_types::U256::checked_mul`: full 256-bit
/// product, `None` exactly when the product needs more than 256 bits.
#[verifier::external_body]
pub fn wide_mul(a: &Wide, b: &Wide) -> (r: Option<Wide>)
    ensures
        r is Some <==> wide_val(*a) * wide_val(*b) < wide_bound(),
        r is Some ==> wide_val(r->0) == wide_val(*a) * wide_val(*b),
{
    let x = ethabi::ethereum_types::U256([a.l0, a.l1, a.l2, a.l3]);
    let y = ethabi::ethereum_types::U256([b.l0, b.l1, b.l2, b.l3]);
    match x.checked_mul(y) {
        Some(z) => Some(Wide { l0: z.0[0], l1: z.0[1], l2: z.0[2], l3: z.0[3] }),
        None => None,
    }
}

/// Relies on `ethabi::ethereum_types::U256::checked_div`: truncating 256-bit
/// division, `None` exactly when the divisor is zero.
#[verifier::external_body]
pub fn wide_div(a: &Wide, b: &Wide) -> (r: Option<Wide>)
    ensures
        r is Some <==> wide_val(*b) != 0,
        r is Some ==> wide_val(r->0) == wide_val(*a) / wide_val(*b),
{
    let x = ethabi::ethereum_types::U256([a.l0, a.l1, a.l2, a.l3]);
    let y = ethabi::ethereum_types::U256([b.l0, b.l1, b.l2, b.l3]);
    match x.checked_div(y) {
        Some(z) => Some(Wide { l0: z.0[0], l1: z.0[1], l2: z.0[2], l3: z.0[3] }),
        None => None,
    }
}

} // verus!
