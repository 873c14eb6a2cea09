use algocash::asset::Asset;
use algocash::asset::Error;

const ALICE: u128 = 1;
const BOB: u128 = 2;
const EVE: u128 = 3;

fn new_asset() -> Asset {
    Asset::new(
        ALICE,
        100,
        Some("test".to_string()),
        Some("test".to_string()),
        Some(10),
    )
}

#[test]
fn new_works() {
    let erc20 = new_asset();
    assert!(erc20.decimals().unwrap_or(0) == 10);
    assert!(erc20.name().unwrap_or("".to_string()) == "test");
    assert!(erc20.symbol().unwrap_or("".to_string()) == "test");
    assert!(erc20.total_supply() == 100);
    assert_eq!(erc20.balance_of(ALICE), 100);
}

#[test]
fn transfer_works() {
    let mut erc20 = new_asset();
    assert_eq!(erc20.transfer(ALICE, BOB, 10), Ok(()));
    assert_eq!(erc20.balance_of(BOB), 10);
    assert_eq!(erc20.balance_of(ALICE), 90);
}

#[test]
fn invalid_transfer_should_fail() {
    let mut erc20 = new_asset();
    assert_eq!(erc20.balance_of(BOB), 0);
    // Bob fails to transfer 10 tokens to Eve.
    assert_eq!(erc20.transfer(BOB, EVE, 10), Err(Error::InsufficientBalance));
    assert_eq!(erc20.balance_of(ALICE), 100);
    assert_eq!(erc20.balance_of(BOB), 0);
    assert_eq!(erc20.balance_of(EVE), 0);
}

#[test]
fn transfer_from_works() {
    let mut erc20 = new_asset();
    // Bob fails to transfer tokens owned by Alice.
    assert_eq!(
        erc20.transfer_from(BOB, ALICE, EVE, 10),
        Err(Error::InsufficientAllowance)
    );
    assert_eq!(erc20.transfer(ALICE, BOB, 10), Ok(()));
    // Bob approves Alice for token transfers on his behalf.
    assert_eq!(erc20.approve(BOB, ALICE, 10), Ok(()));
    assert_eq!(erc20.balance_of(BOB), 10);
    assert_eq!(erc20.allowance(BOB, ALICE), 10);
    // Alice transfers tokens from Bob to Eve.
    assert_eq!(erc20.transfer_from(ALICE, BOB, EVE, 10), Ok(()));
    assert_eq!(erc20.balance_of(EVE), 10);
    assert_eq!(erc20.balance_of(BOB), 0);
    assert_eq!(erc20.allowance(BOB, ALICE), 0);
}

#[test]
fn mint_grows_supply_and_balance() {
    let mut erc20 = new_asset();
    assert_eq!(erc20.mint(ALICE, BOB, 50), Ok(()));
    assert_eq!(erc20.total_supply(), 150);
    assert_eq!(erc20.balance_of(BOB), 50);
    assert_eq!(erc20.balance_of(ALICE), 100);
}

#[test]
fn mint_overflow_is_invalid_value() {
    let mut erc20 = new_asset();
    assert_eq!(erc20.mint(ALICE, BOB, u128::MAX - 99), Err(Error::InvalidValue));
    assert_eq!(erc20.total_supply(), 100);
    assert_eq!(erc20.balance_of(BOB), 0);
}

#[test]
fn burn_shrinks_supply_and_balance() {
    let mut erc20 = new_asset();
    assert_eq!(erc20.burn(ALICE, 40), Ok(()));
    assert_eq!(erc20.total_supply(), 60);
    assert_eq!(erc20.balance_of(ALICE), 60);
    assert_eq!(erc20.burn(BOB, 1), Err(Error::InsufficientBalance));
}

#[test]
fn burn_from_spends_allowance() {
    let mut erc20 = new_asset();
    assert_eq!(erc20.burn_from(ALICE, BOB, 5), Err(Error::InsufficientAllowance));
    assert_eq!(erc20.approve(BOB, ALICE, 20), Ok(()));
    assert_eq!(erc20.burn_from(ALICE, BOB, 5), Err(Error::InsufficientBalance));
    assert_eq!(erc20.transfer(ALICE, BOB, 10), Ok(()));
    assert_eq!(erc20.burn_from(ALICE, BOB, 5), Ok(()));
    assert_eq!(erc20.total_supply(), 95);
    assert_eq!(erc20.balance_of(BOB), 5);
    assert_eq!(erc20.allowance(BOB, ALICE), 15);
}

#[test]
fn transfer_to_self_changes_nothing() {
    let mut erc20 = new_asset();
    assert_eq!(erc20.transfer(ALICE, ALICE, 30), Ok(()));
    assert_eq!(erc20.balance_of(ALICE), 100);
    assert_eq!(erc20.total_supply(), 100);
    assert_eq!(erc20.transfer(ALICE, ALICE, 101), Err(Error::InsufficientBalance));
}

#[test]
fn transfer_operator_switches_operator() {
    let mut erc20 = new_asset();
    assert_eq!(erc20.operator(), ALICE);
    erc20.transfer_operator(ALICE, BOB);
    assert_eq!(erc20.operator(), BOB);
}
