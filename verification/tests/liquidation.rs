use dsc_engine::engine::{DSCEngine, DSCEngineError, DSCEvent};

const WAD: u128 = 1_000_000_000_000_000_000;
const ASSET: u64 = 1;
const FEED: u64 = 42;
const USER: u64 = 100;
const LIQUIDATOR: u64 = 200;

/// Prices with 8 feed decimals.
const PRICE_4: i128 = 400_000_000;
const PRICE_3: i128 = 300_000_000;
const PRICE_1: i128 = 100_000_000;

/// A target who deposited 100 units at a price of 4 and minted 200 debt:
/// exactly at the minimum health factor at that price.
fn engine_with_stretched_position() -> DSCEngine {
    let mut engine = DSCEngine::constructor(vec![ASSET], vec![FEED]).unwrap();
    let prices = vec![Some(PRICE_4)];
    engine.deposit_collateral(USER, ASSET, 100 * WAD, true).unwrap();
    engine.mint_dsc(USER, 200 * WAD, &prices, true).unwrap();
    engine
}

#[test]
fn liquidate_zero_debt_is_rejected() {
    let mut engine = engine_with_stretched_position();
    assert_eq!(
        engine.liquidate(LIQUIDATOR, ASSET, USER, 0, &vec![Some(PRICE_4)], true, true),
        Err(DSCEngineError::NeedsMoreThanZero)
    );
}

#[test]
fn liquidate_healthy_position_is_rejected() {
    let mut engine = engine_with_stretched_position();
    let prices = vec![Some(PRICE_4)];
    assert_eq!(engine.get_health_factor(USER, &prices), WAD);
    assert_eq!(
        engine.liquidate(LIQUIDATOR, ASSET, USER, 100 * WAD, &prices, true, true),
        Err(DSCEngineError::HealthFactorOk)
    );
}

#[test]
fn liquidation_strictly_improves_the_target() {
    let mut engine = engine_with_stretched_position();
    // The price fell from 4 to 3: health factor 0.75, liquidatable.
    let prices = vec![Some(PRICE_3)];
    let start = engine.get_health_factor(USER, &prices);
    assert_eq!(start, WAD * 3 / 4);
    assert_eq!(
        engine.liquidate(LIQUIDATOR, ASSET, USER, 100 * WAD, &prices, true, true),
        Ok(())
    );
    // 100 debt converts to 33.33 units, plus the 10% bonus.
    let seized: u128 = 36_666_666_666_666_666_666;
    assert_eq!(
        engine.get_collateral_balance_of_user(USER, ASSET),
        100 * WAD - seized
    );
    let end = engine.get_health_factor(USER, &prices);
    assert!(end > start);
    assert_eq!(
        engine.events[1],
        DSCEvent::CollateralRedeemed {
            redeemed_from: USER,
            redeemed_to: LIQUIDATOR,
            amount: seized,
            token: ASSET,
        }
    );
}

#[test]
fn liquidation_that_worsens_the_target_is_rejected() {
    let mut engine = engine_with_stretched_position();
    // The price crashed from 4 to 1: the position is worth less than its
    // debt, so seizing debt plus bonus lowers the ratio further.
    let prices = vec![Some(PRICE_1)];
    assert_eq!(engine.get_health_factor(USER, &prices), WAD / 4);
    assert_eq!(
        engine.liquidate(LIQUIDATOR, ASSET, USER, 50 * WAD, &prices, true, true),
        Err(DSCEngineError::HealthFactorNotImproved)
    );
    // The seizure and the burn are applied before the check and are not
    // rolled back here; host atomicity undoes them.
    assert_eq!(engine.get_collateral_balance_of_user(USER, ASSET), 45 * WAD);
}

#[test]
fn liquidate_seizing_more_than_the_position_fails() {
    let mut engine = engine_with_stretched_position();
    let prices = vec![Some(PRICE_1)];
    // 200 debt converts to 200 units plus bonus: more than the 100 held.
    assert_eq!(
        engine.liquidate(LIQUIDATOR, ASSET, USER, 200 * WAD, &prices, true, true),
        Err(DSCEngineError::ArithmeticFailure)
    );
    assert_eq!(engine.get_collateral_balance_of_user(USER, ASSET), 100 * WAD);
}

#[test]
fn liquidate_with_failed_transfer_reports_after_seizure() {
    let mut engine = engine_with_stretched_position();
    let prices = vec![Some(PRICE_3)];
    assert_eq!(
        engine.liquidate(LIQUIDATOR, ASSET, USER, 100 * WAD, &prices, true, false),
        Err(DSCEngineError::TransferFailed)
    );
    let seized: u128 = 36_666_666_666_666_666_666;
    assert_eq!(
        engine.get_collateral_balance_of_user(USER, ASSET),
        100 * WAD - seized
    );
}

#[test]
fn liquidator_must_stay_solvent() {
    let mut engine = DSCEngine::constructor(vec![ASSET], vec![FEED]).unwrap();
    // The target stretches a position at price 4.
    let prices_high = vec![Some(PRICE_4)];
    engine.deposit_collateral(USER, ASSET, 100 * WAD, true).unwrap();
    engine.mint_dsc(USER, 200 * WAD, &prices_high, true).unwrap();
    // The liquidator holds a stretched position of their own.
    engine.deposit_collateral(LIQUIDATOR, ASSET, 100 * WAD, true).unwrap();
    engine.mint_dsc(LIQUIDATOR, 200 * WAD, &prices_high, true).unwrap();
    // At price 3 both are unhealthy; liquidating the target leaves the
    // liquidator's own position below the minimum.
    let prices = vec![Some(PRICE_3)];
    let r = engine.liquidate(LIQUIDATOR, ASSET, USER, 100 * WAD, &prices, true, true);
    assert_eq!(r, Err(DSCEngineError::BreaksHealthFactor(WAD * 3 / 4)));
}
