use algocash::oracle::Oracle;
use algocash::treasure::BoughtBonds;
use algocash::treasure::Treasure;
use algocash::treasure::TreasureError;

const ALICE: u128 = 1;
const KEEPER: u128 = 9;
const UNIT: u128 = 10_000_000_000;

#[test]
fn default_works() {
}

#[test]
fn it_works() {
}

#[test]
fn treasure_constants_derive_from_the_unit() {
    let t = Treasure::new(UNIT);
    assert_eq!(t.bond_cap, 0);
    assert_eq!(t.decimal, UNIT);
    assert_eq!(t.cash_price_one, UNIT);
    assert_eq!(t.accumulated_seigniorage, 0);
    assert_eq!(t.ceiling_price, 10_500_000_000);
}

#[test]
fn treasure_purchase_always_hits_the_empty_cap() {
    let mut t = Treasure::new(UNIT);
    let mut oracle = Oracle::new(KEEPER);
    oracle.update_cash_price(KEEPER, 9_000_000_000, 10);
    assert_eq!(
        t.buy_bonds(&oracle, ALICE, 0, UNIT),
        Err(TreasureError::ZeroAmount)
    );
    assert_eq!(
        t.buy_bonds(&oracle, ALICE, 100, 8_000_000_000),
        Err(TreasureError::PriceMoved)
    );
    // The cap starts at zero and nothing ever raises it, so any
    // eligible purchase clamps to zero.
    assert_eq!(
        t.buy_bonds(&oracle, ALICE, 100, UNIT),
        Err(TreasureError::ExceedsBondCap)
    );
    oracle.update_cash_price(KEEPER, UNIT, 20);
    assert_eq!(
        t.buy_bonds(&oracle, ALICE, 100, UNIT),
        Err(TreasureError::PriceNotEligible)
    );
}

#[test]
fn treasure_purchase_prices_against_a_set_cap() {
    // With a cap of 100 at half the peg, the cap is worth 50 cash, so a
    // request for 80 clamps to 50 and a request for 30 passes whole.
    let mut t = Treasure {
        bond_cap: 100,
        decimal: UNIT,
        cash_price_one: UNIT,
        accumulated_seigniorage: 0,
        ceiling_price: 10_500_000_000,
    };
    let mut oracle = Oracle::new(KEEPER);
    oracle.update_cash_price(KEEPER, 5_000_000_000, 10);
    assert_eq!(
        t.buy_bonds(&oracle, ALICE, 80, UNIT),
        Ok(BoughtBonds { from: Some(ALICE), amount: 50 })
    );
    assert_eq!(
        t.buy_bonds(&oracle, ALICE, 30, UNIT),
        Ok(BoughtBonds { from: Some(ALICE), amount: 30 })
    );
    assert_eq!(t.bond_cap, 100);
}

#[test]
fn treasure_redemption_finds_no_budget() {
    let mut t = Treasure::new(UNIT);
    let mut oracle = Oracle::new(KEEPER);
    oracle.update_cash_price(KEEPER, 10_400_000_000, 10);
    assert_eq!(
        t.redeem_bonds(&oracle, ALICE, 30),
        Err(TreasureError::PriceNotEligible)
    );
    oracle.update_cash_price(KEEPER, 12_000_000_000, 20);
    assert_eq!(
        t.redeem_bonds(&oracle, ALICE, 0),
        Err(TreasureError::ZeroAmount)
    );
    // Above the ceiling the request still fails: this variant holds no
    // cash at all.
    assert_eq!(
        t.redeem_bonds(&oracle, ALICE, 30),
        Err(TreasureError::InsufficientBudget)
    );
    assert_eq!(t.accumulated_seigniorage, 0);
}
