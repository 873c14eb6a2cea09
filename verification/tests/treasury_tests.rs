use algocash::asset::Asset;
use algocash::boardroom::Boardroom;
use algocash::oracle::Oracle;
use algocash::treasury::BoardroomFunded;
use algocash::treasury::BoughtBonds;
use algocash::treasury::Treasury;
use algocash::treasury::TreasuryError;
use algocash::treasury::TreasuryFunded;
use algocash::util::Util;

const ALICE: u128 = 1;
const KEEPER: u128 = 9;
const ROOM: u128 = 100;
const TREASURY: u128 = 200;
const UNIT: u128 = 10_000_000_000;

/// Ledgers and a boardroom all operated by the treasury at address
/// `TREASURY`, an oracle owned by the keeper, and the treasury itself.
fn world(cash_supply: u128, bond_supply: u128) -> (Asset, Asset, Asset, Oracle, Boardroom, Treasury) {
    let cash = Asset::new(TREASURY, cash_supply, None, None, None);
    let bond = Asset::new(TREASURY, bond_supply, None, None, None);
    let share = Asset::new(TREASURY, 1_000, None, None, None);
    let oracle = Oracle::new(KEEPER);
    let util = Util::new(10);
    let boardroom = Boardroom::new(ROOM, TREASURY, util, 0);
    let treasury = Treasury::new(TREASURY, util, ROOM);
    (cash, bond, share, oracle, boardroom, treasury)
}

#[test]
fn bond_purchase_clamps_to_the_cap() {
    let (mut cash, mut bond, share, mut oracle, boardroom, mut treasury) = world(100 * UNIT, 0);
    // Price one tick below the peg: the cap covers 100 cash, worth 99
    // at the discounted price, so a request for 1000 is clamped to 99.
    let price: u128 = UNIT - 1;
    oracle.update_cash_price(KEEPER, price, 10);
    assert_eq!(cash.transfer(TREASURY, ALICE, 1_000), Ok(()));
    assert_eq!(cash.approve(ALICE, TREASURY, 1_000), Ok(()));
    let ev = treasury.buy_bonds(
        &mut cash,
        &mut bond,
        &share,
        &oracle,
        &boardroom,
        ALICE,
        1,
        1_000,
        price,
    );
    assert_eq!(ev, Ok(BoughtBonds { from: Some(ALICE), amount: 99 }));
    assert_eq!(treasury.bond_cap, 100);
    assert_eq!(cash.balance_of(ALICE), 901);
    assert_eq!(cash.total_supply(), 100 * UNIT - 99);
    // 99 cash at price UNIT - 1 buys 99 bonds, rounded down.
    assert_eq!(bond.balance_of(ALICE), 99);
    assert_eq!(bond.total_supply(), 99);
    // A second purchase in the same period is refused.
    assert_eq!(
        treasury.buy_bonds(
            &mut cash,
            &mut bond,
            &share,
            &oracle,
            &boardroom,
            ALICE,
            1,
            10,
            price
        ),
        Err(TreasuryError::Rented)
    );
}

#[test]
fn bond_purchase_needs_the_below_peg_regime() {
    let (mut cash, mut bond, share, mut oracle, boardroom, mut treasury) = world(100 * UNIT, 0);
    oracle.update_cash_price(KEEPER, UNIT, 10);
    assert_eq!(
        treasury.buy_bonds(
            &mut cash,
            &mut bond,
            &share,
            &oracle,
            &boardroom,
            ALICE,
            1,
            0,
            UNIT
        ),
        Err(TreasuryError::ZeroAmount)
    );
    assert_eq!(
        treasury.buy_bonds(
            &mut cash,
            &mut bond,
            &share,
            &oracle,
            &boardroom,
            ALICE,
            1,
            10,
            UNIT - 2
        ),
        Err(TreasuryError::PriceMoved)
    );
    // At the peg itself no privileged action is eligible.
    assert_eq!(
        treasury.buy_bonds(
            &mut cash,
            &mut bond,
            &share,
            &oracle,
            &boardroom,
            ALICE,
            1,
            10,
            UNIT
        ),
        Err(TreasuryError::PriceNotEligible)
    );
    assert_eq!(
        treasury.redeem_bonds(
            &mut cash,
            &mut bond,
            &share,
            &oracle,
            &boardroom,
            ALICE,
            1,
            10
        ),
        Err(TreasuryError::PriceNotEligible)
    );
    let mut boardroom2 = world(100 * UNIT, 0).4;
    assert_eq!(
        treasury.allocate_seigniorage(
            &mut cash,
            &bond,
            &share,
            &oracle,
            &mut boardroom2,
            KEEPER,
            7,
            1
        ),
        Err(TreasuryError::PriceNotEligible)
    );
}

#[test]
fn operations_need_delegated_operators() {
    // A cash ledger operated by someone else denies the treasury.
    let mut cash = Asset::new(ALICE, 100, None, None, None);
    let (_cash, mut bond, share, mut oracle, boardroom, mut treasury) = world(100 * UNIT, 0);
    oracle.update_cash_price(KEEPER, UNIT - 1, 10);
    assert_eq!(
        treasury.buy_bonds(
            &mut cash,
            &mut bond,
            &share,
            &oracle,
            &boardroom,
            ALICE,
            1,
            10,
            UNIT
        ),
        Err(TreasuryError::Permission)
    );
}

#[test]
fn seigniorage_split_when_bonds_absorb_everything() {
    // circulating 100 * UNIT at price 1.2 * UNIT yields 20 * UNIT of
    // seigniorage; a large bond supply absorbs it all, so only 80% is
    // reserved and 20% flows to the boardroom.
    let (mut cash, bond, mut share, mut oracle, mut boardroom, mut treasury) =
        world(100 * UNIT, 100 * UNIT);
    oracle.update_cash_price(KEEPER, 12_000_000_000, 10);
    assert_eq!(share.transfer(TREASURY, ALICE, 100), Ok(()));
    assert_eq!(share.approve(ALICE, ROOM, 100), Ok(()));
    assert!(boardroom.stake(&mut share, ALICE, 1, 100).is_ok());
    let ev = treasury.allocate_seigniorage(
        &mut cash,
        &bond,
        &share,
        &oracle,
        &mut boardroom,
        KEEPER,
        7,
        2,
    );
    assert_eq!(
        ev,
        Ok((
            Some(TreasuryFunded { timestamp: 7, seigniorage: 16 * UNIT }),
            Some(BoardroomFunded { timestamp: 7, seigniorage: 4 * UNIT })
        ))
    );
    assert_eq!(treasury.accumulated_seigniorage, 16 * UNIT);
    assert_eq!(cash.total_supply(), 120 * UNIT);
    assert_eq!(cash.balance_of(TREASURY), 116 * UNIT);
    assert_eq!(cash.balance_of(ROOM), 4 * UNIT);
    // The boardroom's index grew by (4 * UNIT) * UNIT / 100.
    assert_eq!(boardroom.reward_per_share(), 4 * UNIT * UNIT / 100);
    assert_eq!(boardroom.get_snapshots().len(), 2);
    // The sole staker can claim the boardroom's whole share.
    assert!(boardroom.claim_reward(&mut cash, ALICE).is_ok());
    assert_eq!(cash.balance_of(ALICE), 4 * UNIT);
    assert_eq!(cash.balance_of(ROOM), 0);
}

#[test]
fn seigniorage_beyond_bond_absorption_reaches_the_boardroom() {
    // Bonds can absorb only 1000 of the 20 * UNIT of seigniorage: that
    // much is reserved in full, the rest flows to the boardroom.
    let (mut cash, bond, mut share, mut oracle, mut boardroom, mut treasury) =
        world(100 * UNIT, 1_000);
    oracle.update_cash_price(KEEPER, 12_000_000_000, 10);
    assert_eq!(share.transfer(TREASURY, ALICE, 100), Ok(()));
    assert_eq!(share.approve(ALICE, ROOM, 100), Ok(()));
    assert!(boardroom.stake(&mut share, ALICE, 1, 100).is_ok());
    let ev = treasury.allocate_seigniorage(
        &mut cash,
        &bond,
        &share,
        &oracle,
        &mut boardroom,
        KEEPER,
        7,
        2,
    );
    assert_eq!(
        ev,
        Ok((
            Some(TreasuryFunded { timestamp: 7, seigniorage: 1_000 }),
            Some(BoardroomFunded { timestamp: 7, seigniorage: 20 * UNIT - 1_000 })
        ))
    );
    assert_eq!(treasury.accumulated_seigniorage, 1_000);
    assert_eq!(cash.balance_of(ROOM), 20 * UNIT - 1_000);
}

#[test]
fn seigniorage_with_no_bonds_is_all_for_the_boardroom() {
    let (mut cash, bond, mut share, mut oracle, mut boardroom, mut treasury) =
        world(100 * UNIT, 0);
    oracle.update_cash_price(KEEPER, 12_000_000_000, 10);
    assert_eq!(share.transfer(TREASURY, ALICE, 100), Ok(()));
    assert_eq!(share.approve(ALICE, ROOM, 100), Ok(()));
    assert!(boardroom.stake(&mut share, ALICE, 1, 100).is_ok());
    let ev = treasury.allocate_seigniorage(
        &mut cash,
        &bond,
        &share,
        &oracle,
        &mut boardroom,
        KEEPER,
        7,
        2,
    );
    assert_eq!(
        ev,
        Ok((
            None,
            Some(BoardroomFunded { timestamp: 7, seigniorage: 20 * UNIT })
        ))
    );
    assert_eq!(treasury.accumulated_seigniorage, 0);
}

#[test]
fn no_seigniorage_from_an_empty_circulation() {
    let (mut cash, bond, share, mut oracle, mut boardroom, mut treasury) = world(0, 0);
    oracle.update_cash_price(KEEPER, 12_000_000_000, 10);
    assert_eq!(
        treasury.allocate_seigniorage(
            &mut cash,
            &bond,
            &share,
            &oracle,
            &mut boardroom,
            KEEPER,
            7,
            2
        ),
        Err(TreasuryError::ZeroSeigniorage)
    );
}

#[test]
fn redeeming_bonds_releases_the_reserve() {
    let (mut cash, mut bond, mut share, mut oracle, mut boardroom, mut treasury) =
        world(100 * UNIT, 100 * UNIT);
    oracle.update_cash_price(KEEPER, 12_000_000_000, 10);
    assert_eq!(share.transfer(TREASURY, ALICE, 100), Ok(()));
    assert_eq!(share.approve(ALICE, ROOM, 100), Ok(()));
    assert!(boardroom.stake(&mut share, ALICE, 1, 100).is_ok());
    assert!(treasury
        .allocate_seigniorage(&mut cash, &bond, &share, &oracle, &mut boardroom, KEEPER, 7, 2)
        .is_ok());
    assert_eq!(treasury.accumulated_seigniorage, 16 * UNIT);
    // Alice holds bonds and redeems 30 of them for cash.
    assert_eq!(bond.transfer(TREASURY, ALICE, 100), Ok(()));
    assert_eq!(bond.approve(ALICE, TREASURY, 100), Ok(()));
    let before: u128 = cash.balance_of(ALICE);
    assert!(treasury
        .redeem_bonds(&mut cash, &mut bond, &share, &oracle, &boardroom, ALICE, 3, 30)
        .is_ok());
    assert_eq!(treasury.accumulated_seigniorage, 16 * UNIT - 30);
    assert_eq!(bond.balance_of(ALICE), 70);
    assert_eq!(bond.total_supply(), 100 * UNIT - 30);
    assert_eq!(cash.balance_of(ALICE), before + 30);
}

#[test]
fn redeeming_more_than_the_budget_is_refused() {
    let (mut cash, mut bond, share, mut oracle, boardroom, mut treasury) = world(10, 100);
    oracle.update_cash_price(KEEPER, 12_000_000_000, 10);
    assert_eq!(bond.transfer(TREASURY, ALICE, 50), Ok(()));
    assert_eq!(bond.approve(ALICE, TREASURY, 50), Ok(()));
    // The treasury's custody holds 10 cash; 20 cannot be served.
    assert_eq!(
        treasury.redeem_bonds(
            &mut cash,
            &mut bond,
            &share,
            &oracle,
            &boardroom,
            ALICE,
            1,
            20
        ),
        Err(TreasuryError::InsufficientBudget)
    );
    assert_eq!(bond.balance_of(ALICE), 50);
    assert_eq!(cash.balance_of(ALICE), 0);
}
