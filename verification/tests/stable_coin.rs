use dsc_engine::coin::{DecentralizedStableCoin, DecentralizedStableCoinError, StylusTokenParams};

const OWNER: u64 = 1;
const ALICE: u64 = 10;
const BOB: u64 = 11;

#[test]
fn token_params_are_fixed() {
    assert_eq!(StylusTokenParams::name(), "DecentralizedStableCoin");
    assert_eq!(StylusTokenParams::symbol(), "DSC");
    assert_eq!(StylusTokenParams::decimals(), 18);
}

#[test]
fn constructor_sets_the_creating_owner() {
    let coin = DecentralizedStableCoin::constructor(OWNER);
    assert_eq!(coin.owner, OWNER);
    assert_eq!(coin.balance_of_user(OWNER), 0);
}

#[test]
fn new_sets_an_explicit_owner() {
    let coin = DecentralizedStableCoin::new(ALICE);
    assert_eq!(coin.owner, ALICE);
}

#[test]
fn only_the_owner_mints() {
    let mut coin = DecentralizedStableCoin::new(OWNER);
    assert_eq!(
        coin.mint(ALICE, ALICE, 5),
        Err(DecentralizedStableCoinError::NotOwner)
    );
}

#[test]
fn mint_of_zero_is_rejected() {
    let mut coin = DecentralizedStableCoin::new(OWNER);
    assert_eq!(
        coin.mint(OWNER, ALICE, 0),
        Err(DecentralizedStableCoinError::MustBeMoreThanZero)
    );
}

#[test]
fn mint_to_the_zero_address_is_rejected() {
    let mut coin = DecentralizedStableCoin::new(OWNER);
    assert_eq!(
        coin.mint(OWNER, 0, 5),
        Err(DecentralizedStableCoinError::NotZeroAddress)
    );
}

#[test]
fn mint_credits_the_receiver() {
    let mut coin = DecentralizedStableCoin::new(OWNER);
    assert_eq!(coin.mint(OWNER, ALICE, 5), Ok(true));
    assert_eq!(coin.balance_of_user(ALICE), 5);
}

#[test]
fn mint_overflowing_a_balance_is_an_unknown_error() {
    let mut coin = DecentralizedStableCoin::new(OWNER);
    coin.mint(OWNER, ALICE, u128::MAX).unwrap();
    assert_eq!(
        coin.mint(OWNER, ALICE, 1),
        Err(DecentralizedStableCoinError::UnknownError)
    );
}

#[test]
fn only_the_owner_burns() {
    let mut coin = DecentralizedStableCoin::new(OWNER);
    assert_eq!(coin.burn(ALICE, 1), Err(DecentralizedStableCoinError::NotOwner));
}

#[test]
fn burn_of_zero_is_rejected() {
    let mut coin = DecentralizedStableCoin::new(OWNER);
    assert_eq!(
        coin.burn(OWNER, 0),
        Err(DecentralizedStableCoinError::MustBeMoreThanZero)
    );
}

#[test]
fn burn_beyond_balance_is_rejected() {
    let mut coin = DecentralizedStableCoin::new(OWNER);
    coin.mint(OWNER, OWNER, 3).unwrap();
    assert_eq!(
        coin.burn(OWNER, 4),
        Err(DecentralizedStableCoinError::BurnAmountExceedsBalance)
    );
    assert_eq!(coin.balance_of_user(OWNER), 3);
}

#[test]
fn burn_debits_the_owner() {
    let mut coin = DecentralizedStableCoin::new(OWNER);
    coin.mint(OWNER, OWNER, 3).unwrap();
    assert_eq!(coin.burn(OWNER, 2), Ok(()));
    assert_eq!(coin.balance_of_user(OWNER), 1);
}

#[test]
fn transfer_from_moves_a_covered_amount() {
    let mut coin = DecentralizedStableCoin::new(OWNER);
    coin.mint(OWNER, ALICE, 10).unwrap();
    assert_eq!(coin.transfer_from(ALICE, BOB, 4), Ok(true));
    assert_eq!(coin.balance_of_user(ALICE), 6);
    assert_eq!(coin.balance_of_user(BOB), 4);
}

#[test]
fn transfer_from_rejects_an_uncovered_amount() {
    let mut coin = DecentralizedStableCoin::new(OWNER);
    coin.mint(OWNER, ALICE, 3).unwrap();
    assert_eq!(
        coin.transfer_from(ALICE, BOB, 4),
        Err(DecentralizedStableCoinError::Erc20InsufficientBalance)
    );
    assert_eq!(coin.balance_of_user(ALICE), 3);
    assert_eq!(coin.balance_of_user(BOB), 0);
}

#[test]
fn transfer_from_to_self_changes_nothing() {
    let mut coin = DecentralizedStableCoin::new(OWNER);
    coin.mint(OWNER, ALICE, 3).unwrap();
    assert_eq!(coin.transfer_from(ALICE, ALICE, 2), Ok(true));
    assert_eq!(coin.balance_of_user(ALICE), 3);
}
