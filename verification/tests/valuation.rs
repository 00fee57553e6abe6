use dsc_engine::engine::DSCEngine;

const WAD: u128 = 1_000_000_000_000_000_000;
const ASSET: u64 = 1;
const FEED: u64 = 42;
const USER: u64 = 100;

/// Price of 2000 with 8 feed decimals.
const PRICE_2000: i128 = 200_000_000_000;

fn one_asset_engine() -> DSCEngine {
    DSCEngine::constructor(vec![ASSET], vec![FEED]).unwrap()
}

#[test]
fn usd_value_of_one_unit_at_2000() {
    let engine = one_asset_engine();
    assert_eq!(engine.get_usd_value(ASSET, WAD, Some(PRICE_2000)), 2000 * WAD);
}

#[test]
fn usd_value_multiplies_before_dividing() {
    let engine = one_asset_engine();
    // 0.3 with 8 feed decimals; 7 base units value 2.1, floored to 2.
    assert_eq!(engine.get_usd_value(ASSET, 7, Some(30_000_000)), 2);
}

#[test]
fn token_amount_from_usd_at_2000() {
    let engine = one_asset_engine();
    assert_eq!(
        engine.get_token_amount_from_usd(ASSET, 2000 * WAD, Some(PRICE_2000)),
        WAD
    );
}

#[test]
fn value_conversion_round_trip_is_exact_at_even_price() {
    let engine = one_asset_engine();
    let amount = 3 * WAD / 2;
    let value = engine.get_usd_value(ASSET, amount, Some(PRICE_2000));
    assert_eq!(value, 3000 * WAD);
    assert_eq!(
        engine.get_token_amount_from_usd(ASSET, value, Some(PRICE_2000)),
        amount
    );
}

#[test]
fn value_conversion_round_trip_loss_is_bounded() {
    let engine = one_asset_engine();
    // Price 0.30: scaled price is 3 * 10^17, so a round trip may lose up to
    // PRECISION / scaled_price + 1 = 4 base units.
    let quote = Some(30_000_000i128);
    let amount: u128 = 7;
    let value = engine.get_usd_value(ASSET, amount, quote);
    assert_eq!(value, 2);
    let back = engine.get_token_amount_from_usd(ASSET, value, quote);
    assert_eq!(back, 6);
    assert!(back <= amount);
    assert!(amount - back <= 4);
}

#[test]
fn failed_oracle_read_values_at_zero() {
    let engine = one_asset_engine();
    assert_eq!(engine.get_usd_value(ASSET, WAD, None), 0);
    assert_eq!(engine.get_token_amount_from_usd(ASSET, 2000 * WAD, None), 0);
}

#[test]
fn negative_price_values_at_zero() {
    let engine = one_asset_engine();
    assert_eq!(engine.get_usd_value(ASSET, WAD, Some(-1)), 0);
    assert_eq!(engine.get_token_amount_from_usd(ASSET, 2000 * WAD, Some(-1)), 0);
}

#[test]
fn zero_price_values_at_zero() {
    let engine = one_asset_engine();
    assert_eq!(engine.get_usd_value(ASSET, WAD, Some(0)), 0);
    assert_eq!(engine.get_token_amount_from_usd(ASSET, 2000 * WAD, Some(0)), 0);
}

#[test]
fn unregistered_asset_values_at_zero() {
    let engine = one_asset_engine();
    assert_eq!(engine.get_usd_value(9, WAD, Some(PRICE_2000)), 0);
    assert_eq!(engine.get_token_amount_from_usd(9, 2000 * WAD, Some(PRICE_2000)), 0);
}

#[test]
fn account_collateral_value_sums_registry_positions() {
    let mut engine =
        DSCEngine::constructor(vec![1, 2], vec![41, 42]).unwrap();
    engine.deposit_collateral(USER, 1, WAD, true).unwrap();
    engine.deposit_collateral(USER, 2, 2 * WAD, true).unwrap();
    // Asset 1 at 2000, asset 2 at 500.
    let prices = vec![Some(PRICE_2000), Some(50_000_000_000i128)];
    assert_eq!(
        engine.get_account_collateral_value_in_usd(USER, &prices),
        2000 * WAD + 1000 * WAD
    );
}

#[test]
fn duplicated_registry_entry_is_counted_at_each_position() {
    // The valuation walks the registry in order, so an asset registered
    // twice is valued twice; the later pair overrides the feed.
    let mut engine = DSCEngine::constructor(vec![ASSET, ASSET], vec![41, 43]).unwrap();
    assert_eq!(engine.get_collateral_token_price_feed(ASSET), 43);
    engine.deposit_collateral(USER, ASSET, WAD, true).unwrap();
    let prices = vec![Some(PRICE_2000), Some(PRICE_2000)];
    assert_eq!(
        engine.get_account_collateral_value_in_usd(USER, &prices),
        4000 * WAD
    );
}

#[test]
fn missing_snapshot_entry_counts_as_failed_read() {
    let mut engine = one_asset_engine();
    engine.deposit_collateral(USER, ASSET, WAD, true).unwrap();
    let prices: Vec<Option<i128>> = Vec::new();
    assert_eq!(engine.get_account_collateral_value_in_usd(USER, &prices), 0);
}

#[test]
fn health_factor_without_debt_is_maximal() {
    let mut engine = one_asset_engine();
    engine.deposit_collateral(USER, ASSET, WAD, true).unwrap();
    let prices = vec![Some(PRICE_2000)];
    assert_eq!(engine.get_health_factor(USER, &prices), u128::MAX);
}

#[test]
fn parameter_getters_return_the_fixed_constants() {
    let engine = one_asset_engine();
    assert_eq!(engine.get_precision(), WAD);
    assert_eq!(engine.get_additional_feed_precision(), 10_000_000_000);
    assert_eq!(engine.get_liquidation_bonus(), 10);
}

#[test]
fn collateral_tokens_getter_returns_registration_order() {
    let engine = DSCEngine::constructor(vec![5, 3, 5], vec![1, 2, 3]).unwrap();
    assert_eq!(engine.get_collateral_tokens(), vec![5, 3, 5]);
}

#[test]
fn price_feed_getter_is_zero_for_unregistered() {
    let engine = one_asset_engine();
    assert_eq!(engine.get_collateral_token_price_feed(ASSET), FEED);
    assert_eq!(engine.get_collateral_token_price_feed(9), 0);
}
