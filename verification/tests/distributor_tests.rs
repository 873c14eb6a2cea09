use algocash::asset::Asset;
use algocash::asset::Error;
use algocash::distributor::Deposited;
use algocash::distributor::DistributedAccountCount;
use algocash::distributor::Distributor;
use algocash::distributor::DistributorError;
use algocash::distributor::Record;

const ALICE: u128 = 1;
const BOB: u128 = 2;
const OPERATOR: u128 = 9;
const VAULT: u128 = 300;

#[test]
fn deposit_token_takes_custody_and_records() {
    let mut dist = Distributor::new(VAULT, OPERATOR);
    let mut a_usd = Asset::new(ALICE, 1_000, None, None, None);
    assert_eq!(a_usd.approve(ALICE, VAULT, 100), Ok(()));
    let ev = dist.deposit_token(&mut a_usd, ALICE, 100);
    assert_eq!(ev, Ok(Deposited { user: Some(ALICE), amount: 100 }));
    assert_eq!(a_usd.balance_of(ALICE), 900);
    assert_eq!(a_usd.balance_of(VAULT), 100);
    let records = dist.get_all_depositor();
    assert_eq!(records.len(), 1);
    assert_eq!(records[0], Record { user: ALICE, amount: 100 });
}

#[test]
fn deposit_token_checks_amount_balance_and_allowance() {
    let mut dist = Distributor::new(VAULT, OPERATOR);
    let mut a_usd = Asset::new(ALICE, 50, None, None, None);
    assert_eq!(
        dist.deposit_token(&mut a_usd, ALICE, 0),
        Err(DistributorError::ZeroAmount)
    );
    assert_eq!(
        dist.deposit_token(&mut a_usd, ALICE, 60),
        Err(DistributorError::InsufficientBalance)
    );
    assert_eq!(
        dist.deposit_token(&mut a_usd, ALICE, 40),
        Err(DistributorError::Ledger(Error::InsufficientAllowance))
    );
    assert_eq!(a_usd.balance_of(ALICE), 50);
    assert_eq!(dist.get_all_depositor().len(), 0);
}

#[test]
fn coin_deposits_accumulate_per_address() {
    let mut dist = Distributor::new(VAULT, OPERATOR);
    assert_eq!(
        dist.deposit_coin(ALICE, 0),
        Err(DistributorError::ZeroAmount)
    );
    assert!(dist.deposit_coin(ALICE, 30).is_ok());
    assert!(dist.deposit_coin(BOB, 10).is_ok());
    assert!(dist.deposit_coin(ALICE, 12).is_ok());
    let records = dist.get_all_depositor();
    assert_eq!(records.len(), 2);
    assert_eq!(records[0], Record { user: ALICE, amount: 42 });
    assert_eq!(records[1], Record { user: BOB, amount: 10 });
}

#[test]
fn payouts_clear_records_and_move_cash() {
    let mut dist = Distributor::new(VAULT, OPERATOR);
    let mut cash = Asset::new(OPERATOR, 1_000, None, None, None);
    assert_eq!(cash.transfer(OPERATOR, VAULT, 500), Ok(()));
    assert!(dist.deposit_coin(ALICE, 30).is_ok());
    assert!(dist.deposit_coin(BOB, 10).is_ok());
    let payouts = vec![
        Record { user: ALICE, amount: 100 },
        Record { user: BOB, amount: 200 },
    ];
    let ev = dist.distribute_alc(&mut cash, OPERATOR, payouts);
    assert_eq!(ev, Ok(DistributedAccountCount { count: 2 }));
    assert_eq!(cash.balance_of(ALICE), 100);
    assert_eq!(cash.balance_of(BOB), 200);
    assert_eq!(cash.balance_of(VAULT), 200);
    assert_eq!(cash.total_supply(), 1_000);
    assert_eq!(dist.get_all_depositor().len(), 0);
}

#[test]
fn a_repeated_recipient_is_paid_each_time() {
    let mut dist = Distributor::new(VAULT, OPERATOR);
    let mut cash = Asset::new(OPERATOR, 1_000, None, None, None);
    assert_eq!(cash.transfer(OPERATOR, VAULT, 300), Ok(()));
    let payouts = vec![
        Record { user: ALICE, amount: 100 },
        Record { user: ALICE, amount: 150 },
    ];
    assert!(dist.distribute_alc(&mut cash, OPERATOR, payouts).is_ok());
    assert_eq!(cash.balance_of(ALICE), 250);
    assert_eq!(cash.balance_of(VAULT), 50);
}

#[test]
fn an_unservable_payout_changes_nothing() {
    let mut dist = Distributor::new(VAULT, OPERATOR);
    let mut cash = Asset::new(OPERATOR, 1_000, None, None, None);
    assert_eq!(cash.transfer(OPERATOR, VAULT, 150), Ok(()));
    assert!(dist.deposit_coin(ALICE, 30).is_ok());
    assert_eq!(
        dist.distribute_alc(&mut cash, OPERATOR, vec![]),
        Err(DistributorError::NoRecords)
    );
    assert_eq!(
        dist.distribute_alc(
            &mut cash,
            OPERATOR,
            vec![Record { user: ALICE, amount: 100 }, Record { user: 0, amount: 5 }]
        ),
        Err(DistributorError::InvalidRecord)
    );
    assert_eq!(
        dist.distribute_alc(
            &mut cash,
            OPERATOR,
            vec![Record { user: ALICE, amount: 100 }, Record { user: BOB, amount: 0 }]
        ),
        Err(DistributorError::InvalidRecord)
    );
    assert_eq!(
        dist.distribute_alc(
            &mut cash,
            OPERATOR,
            vec![Record { user: ALICE, amount: 100 }, Record { user: BOB, amount: 60 }]
        ),
        Err(DistributorError::InsufficientBalance)
    );
    // All or nothing: the first record of the failing list was not paid.
    assert_eq!(cash.balance_of(ALICE), 0);
    assert_eq!(cash.balance_of(VAULT), 150);
    assert_eq!(dist.get_all_depositor().len(), 1);
}

#[test]
fn distributor_transfer_operator_switches_operator() {
    let mut dist = Distributor::new(VAULT, OPERATOR);
    assert_eq!(dist.operator(), OPERATOR);
    dist.transfer_operator(OPERATOR, BOB);
    assert_eq!(dist.operator(), BOB);
}
