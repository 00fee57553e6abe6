//! Wide fixed-point arithmetic over `u128` amounts.
//!
//! Ledger amounts are `u128`; the intermediate products of the price
//! conversions need up to 256 bits, so they are computed on
//! `alloy_primitives::U256` behind one trusted wrapper whose contract is the
//! exact integer quotient.

use vstd::arithmetic::div_mod::{
    lemma_div_is_ordered, lemma_div_multiples_vanish, lemma_div_pos_is_pos,
    lemma_fundamental_div_mod,
};
use vstd::arithmetic::mul::{lemma_mul_inequality, lemma_mul_nonnegative};
use vstd::prelude::*;

verus! {

/// A non-negative mathematical integer clamped into the `u128` range.
pub open spec fn sat128(x: int) -> u128 {
    if x > u128::MAX as int {
        u128::MAX
    } else if x < 0 {
        0
    } else {
        x as u128
    }
}

/// `floor(a * b / d)`: `None` when the divisor is zero or the quotient does
/// not fit in `u128`.
pub open spec fn mul_div_spec(a: u128, b: u128, d: u128) -> Option<u128> {
    if d == 0 {
        None
    } else if (a as int) * (b as int) / (d as int) > u128::MAX as int {
        None
    } else {
        Some(((a as int) * (b as int) / (d as int)) as u128)
    }
}

/// Relies on `alloy_primitives::U256` (ruint): lifting a `u128` into 256 bits
/// cannot fail, the product of two such values cannot overflow 256 bits, `/`
/// is Euclidean division, and the conversion back to `u128` succeeds exactly
/// when the quotient is at most `u128::MAX`.
#[verifier::external_body]
pub fn mul_div(a: u128, b: u128, d: u128) -> (r: Option<u128>)
    ensures
        r == mul_div_spec(a, b, d),
{
    if d == 0 {
        return None;
    }
    let q = (alloy_primitives::U256::from(a) * alloy_primitives::U256::from(b))
        / alloy_primitives::U256::from(d);
    u128::try_from(q).ok()
}

proof fn lemma_mul_div_nonnegative(a: u128, b: u128, d: u128)
    requires
        d > 0,
    ensures
        (a as int) * (b as int) / (d as int) >= 0,
{
    lemma_mul_nonnegative(a as int, b as int);
    lemma_div_pos_is_pos((a as int) * (b as int), d as int);
}

/// `floor(a * b / d)` clamped into `u128`.
pub fn mul_div_sat(a: u128, b: u128, d: u128) -> (r: u128)
    requires
        d > 0,
    ensures
        r == sat128((a as int) * (b as int) / (d as int)),
{
    proof {
        lemma_mul_div_nonnegative(a, b, d);
    }
    match mul_div(a, b, d) {
        Some(q) => q,
        None => u128::MAX,
    }
}

/// The quotient `a * b / d` stays below `a` whenever `b <= d`, so such a
/// product always fits back into `u128`.
pub proof fn lemma_mul_div_le(a: u128, b: u128, d: u128)
    requires
        0 < d,
        b <= d,
    ensures
        0 <= (a as int) * (b as int) / (d as int) <= a,
{
    lemma_mul_div_nonnegative(a, b, d);
    lemma_mul_inequality(b as int, d as int, a as int);
    assert((b as int) * (a as int) == (a as int) * (b as int)) by (nonlinear_arith);
    assert((d as int) * (a as int) == (a as int) * (d as int)) by (nonlinear_arith);
    lemma_div_is_ordered((a as int) * (b as int), (a as int) * (d as int), d as int);
    lemma_div_multiples_vanish(a as int, d as int);
    assert((d as int) * (a as int) / (d as int) == a as int);
    assert((a as int) * (d as int) / (d as int) == a as int);
}

/// Saturating addition on `u128`.
pub fn sat_add(a: u128, b: u128) -> (r: u128)
    ensures
        r == sat128(a as int + b as int),
{
    if a <= u128::MAX - b {
        a + b
    } else {
        u128::MAX
    }
}

/// Scaling a value up by `sp / p` and back down by `p / sp` in floor
/// arithmetic loses at most `p / sp + 1` of the original value.
pub proof fn lemma_scale_round_trip(a: int, sp: int, p: int)
    requires
        0 <= a,
        0 < sp,
        0 < p,
    ensures
        sp * a / p * p / sp <= a,
        a - sp * a / p * p / sp <= p / sp + 1,
{
    let v = sp * a / p;
    let back = v * p / sp;
    lemma_mul_nonnegative(sp, a);
    lemma_fundamental_div_mod(sp * a, p);
    let r1 = (sp * a) % p;
    assert(sp * a == p * v + r1);
    lemma_div_pos_is_pos(sp * a, p);
    lemma_mul_nonnegative(v, p);
    lemma_fundamental_div_mod(v * p, sp);
    let r2 = (v * p) % sp;
    assert(v * p == sp * back + r2);
    assert(sp * (a - back) == r1 + r2) by (nonlinear_arith)
        requires
            sp * a == p * v + r1,
            v * p == sp * back + r2,
    ;
    // The loss is non-negative, so the round trip never overshoots.
    assert(a - back >= 0) by (nonlinear_arith)
        requires
            sp * (a - back) == r1 + r2,
            r1 >= 0,
            r2 >= 0,
            sp > 0,
    ;
    // Bound the loss: sp * (a - back) < p + sp, so a - back <= p / sp + 1.
    lemma_fundamental_div_mod(p, sp);
    assert(sp * (p / sp) == p - p % sp);
    assert(a - back <= p / sp + 1) by (nonlinear_arith)
        requires
            sp * (a - back) == r1 + r2,
            r1 < p,
            r2 < sp,
            sp > 0,
            sp * (p / sp) == p - p % sp,
            p % sp < sp,
            a - back >= 0,
            p / sp >= 0,
    ;
}

} // verus!
