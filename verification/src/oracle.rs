//! Valuation of collateral amounts from raw oracle answers.
//!
//! A price feed read is external: it reaches the engine as an
//! `Option<i128>`, `None` when the read failed. A failed read, a
//! non-positive answer, or an answer too large for the ledger domain all
//! degrade silently to a zero valuation rather than propagating an error.

use crate::arith::{mul_div, mul_div_sat, sat128};
use crate::params::{ADDITIONAL_FEED_PRECISION, PRECISION};
use vstd::arithmetic::div_mod::lemma_div_pos_is_pos;
use vstd::arithmetic::mul::{lemma_mul_inequality, lemma_mul_nonnegative};
use vstd::prelude::*;

verus! {

/// A raw oracle answer can be used for valuation when the read succeeded
/// with a positive answer whose scaled form fits the ledger domain.
pub open spec fn usable_quote(q: Option<i128>) -> bool {
    match q {
        Some(p) => 0 < p && (p as int) * (ADDITIONAL_FEED_PRECISION as int) <= u128::MAX as int,
        None => false,
    }
}

/// The raw answer lifted to base precision: `answer * 10^10`.
pub open spec fn scaled_price(q: Option<i128>) -> int {
    match q {
        Some(p) => (p as int) * (ADDITIONAL_FEED_PRECISION as int),
        None => 0,
    }
}

/// Token-denominated value of `amount` of an asset priced by `q`:
/// `scaled_price * amount / PRECISION`, or zero when the quote is unusable.
/// Multiplication precedes division to preserve integer precision.
pub open spec fn quote_usd_value(q: Option<i128>, amount: u128) -> int {
    if usable_quote(q) {
        scaled_price(q) * (amount as int) / (PRECISION as int)
    } else {
        0
    }
}

/// Asset amount whose value is `usd` under the quote `q`:
/// `usd * PRECISION / scaled_price`, or zero when the quote is unusable.
pub open spec fn quote_token_amount(q: Option<i128>, usd: u128) -> int {
    if usable_quote(q) {
        (usd as int) * (PRECISION as int) / scaled_price(q)
    } else {
        0
    }
}

pub proof fn lemma_scaled_price_positive(q: Option<i128>)
    requires
        usable_quote(q),
    ensures
        ADDITIONAL_FEED_PRECISION <= scaled_price(q),
{
    let p = match q {
        Some(p) => p as int,
        None => 0,
    };
    lemma_mul_inequality(1int, p, ADDITIONAL_FEED_PRECISION as int);
}

pub proof fn lemma_quote_usd_value_nonneg(q: Option<i128>, amount: u128)
    ensures
        0 <= quote_usd_value(q, amount),
{
    if usable_quote(q) {
        lemma_scaled_price_positive(q);
        lemma_mul_nonnegative(scaled_price(q), amount as int);
        lemma_div_pos_is_pos(scaled_price(q) * (amount as int), PRECISION as int);
    }
}

/// Scale a raw oracle answer to base precision; `None` exactly when the
/// quote is unusable.
pub fn scale_quote(q: Option<i128>) -> (r: Option<u128>)
    ensures
        usable_quote(q) ==> r == Some(scaled_price(q) as u128),
        !usable_quote(q) ==> r is None,
{
    match q {
        None => None,
        Some(p) => {
            if p <= 0 {
                None
            } else {
                mul_div(p as u128, ADDITIONAL_FEED_PRECISION, 1)
            }
        },
    }
}

/// Token-denominated value of `amount` under the quote `q`, clamped into
/// `u128`; zero when the quote is unusable.
pub fn usd_value_from_quote(q: Option<i128>, amount: u128) -> (r: u128)
    ensures
        r == sat128(quote_usd_value(q, amount)),
{
    match scale_quote(q) {
        None => 0,
        Some(sp) => {
            proof {
                lemma_scaled_price_positive(q);
            }
            mul_div_sat(sp, amount, PRECISION)
        },
    }
}

/// Asset amount worth `usd` under the quote `q`, clamped into `u128`; zero
/// when the quote is unusable.
pub fn token_amount_from_quote(q: Option<i128>, usd: u128) -> (r: u128)
    ensures
        r == sat128(quote_token_amount(q, usd)),
{
    match scale_quote(q) {
        None => 0,
        Some(sp) => {
            proof {
                lemma_scaled_price_positive(q);
            }
            mul_div_sat(usd, PRECISION, sp)
        },
    }
}

/// Valuation is monotone in the amount being valued.
pub proof fn lemma_usd_value_monotone(q: Option<i128>, a1: u128, a2: u128)
    requires
        a1 <= a2,
    ensures
        quote_usd_value(q, a1) <= quote_usd_value(q, a2),
{
    if usable_quote(q) {
        let sp = scaled_price(q);
        lemma_scaled_price_positive(q);
        lemma_mul_inequality(a1 as int, a2 as int, sp);
        assert((a1 as int) * sp == sp * (a1 as int)) by (nonlinear_arith);
        assert((a2 as int) * sp == sp * (a2 as int)) by (nonlinear_arith);
        vstd::arithmetic::div_mod::lemma_div_is_ordered(
            sp * (a1 as int),
            sp * (a2 as int),
            PRECISION as int,
        );
    }
}

/// Law: when the oracle read failed, or its answer is non-positive or not
/// representable in the ledger domain, both conversion directions yield
/// exactly zero.
pub proof fn lemma_oracle_degradation(q: Option<i128>, x: u128)
    requires
        !usable_quote(q),
    ensures
        quote_usd_value(q, x) == 0,
        quote_token_amount(q, x) == 0,
{
}

/// Law: valuing an amount and converting the value back recovers the amount
/// up to the rounding loss of the two floor divisions, for any usable quote
/// whose valuation fits the ledger domain.
pub proof fn lemma_value_conversion_round_trip(q: Option<i128>, amount: u128)
    requires
        usable_quote(q),
        quote_usd_value(q, amount) <= u128::MAX as int,
    ensures
        quote_token_amount(q, sat128(quote_usd_value(q, amount))) <= amount as int,
        amount as int - quote_token_amount(q, sat128(quote_usd_value(q, amount))) <= (
        PRECISION as int) / scaled_price(q) + 1,
{
    let sp = scaled_price(q);
    lemma_scaled_price_positive(q);
    lemma_quote_usd_value_nonneg(q, amount);
    let v = quote_usd_value(q, amount);
    assert(sat128(v) as int == v);
    crate::arith::lemma_scale_round_trip(amount as int, sp, PRECISION as int);
}

} // verus!
