//! Engine-wide constants, fixed at construction for the lifetime of an
//! engine instance.

use vstd::prelude::*;

verus! {

/// Base fixed-point precision (10^18) used for all token-denominated values.
pub const PRECISION: u128 = 1_000_000_000_000_000_000;

/// Extra scaling (10^10) applied to a raw oracle answer before it is used,
/// lifting an 8-decimal feed answer to the 18-decimal base precision.
pub const ADDITIONAL_FEED_PRECISION: u128 = 10_000_000_000;

/// Numerator of the liquidation threshold: positions are risk-adjusted to
/// 50% of their collateral value.
pub const LIQUIDATION_THRESHOLD: u128 = 50;

/// Denominator of the liquidation threshold.
pub const LIQUIDATION_PRECISION: u128 = 100;

/// Minimum health factor: the ratio 1.0 expressed at base precision.
pub const MIN_HEALTH_FACTOR: u128 = 1_000_000_000_000_000_000;

/// Percentage bonus a liquidator receives on top of the seized collateral.
pub const LIQUIDATION_BONUS: u128 = 10;

} // verus!
