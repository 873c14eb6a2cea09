use algocash::asset::Asset;
use algocash::asset::Error;
use algocash::boardroom::Boardroom;
use algocash::boardroom::BoardroomError;
use algocash::boardroom::RewardAdded;
use algocash::boardroom::RewardPaid;
use algocash::boardroom::Staked;
use algocash::boardroom::Withdrawn;
use algocash::util::Util;

const ALICE: u128 = 1;
const BOB: u128 = 2;
const ROOM: u128 = 100;
const TREASURY: u128 = 200;
const UNIT: u128 = 10_000_000_000;

/// A share ledger owned by Alice, a cash ledger owned by the treasury,
/// and a boardroom at address `ROOM` operated by the treasury.
fn world() -> (Asset, Asset, Boardroom) {
    let share = Asset::new(ALICE, 1_000_000, None, None, None);
    let cash = Asset::new(TREASURY, 1_000_000, None, None, None);
    let util = Util::new(10);
    let boardroom = Boardroom::new(ROOM, TREASURY, util, 0);
    (share, cash, boardroom)
}

#[test]
fn genesis_snapshot_is_zeroed() {
    let (_share, _cash, boardroom) = world();
    let snaps = boardroom.get_snapshots();
    assert_eq!(snaps.len(), 1);
    assert_eq!(snaps[0].time, 0);
    assert_eq!(snaps[0].reward_received, 0);
    assert_eq!(snaps[0].reward_per_share, 0);
    assert_eq!(boardroom.latest_snapshot_index(), 0);
    assert_eq!(boardroom.reward_per_share(), 0);
}

#[test]
fn stake_moves_shares_into_custody() {
    let (mut share, _cash, mut boardroom) = world();
    assert_eq!(share.approve(ALICE, ROOM, 100), Ok(()));
    let ev = boardroom.stake(&mut share, ALICE, 1, 100);
    assert_eq!(
        ev,
        Ok(Staked { user: Some(ALICE), amount: 100 })
    );
    assert_eq!(boardroom.balance_of(ALICE), 100);
    assert_eq!(boardroom.total_supply(), 100);
    assert_eq!(share.balance_of(ALICE), 999_900);
    assert_eq!(share.balance_of(ROOM), 100);
}

#[test]
fn stake_refuses_zero_and_missing_allowance() {
    let (mut share, _cash, mut boardroom) = world();
    assert_eq!(
        boardroom.stake(&mut share, ALICE, 1, 0),
        Err(BoardroomError::ZeroAmount)
    );
    assert_eq!(
        boardroom.stake(&mut share, ALICE, 1, 100),
        Err(BoardroomError::Ledger(Error::InsufficientAllowance))
    );
    assert_eq!(share.approve(BOB, ROOM, 50), Ok(()));
    assert_eq!(
        boardroom.stake(&mut share, BOB, 1, 50),
        Err(BoardroomError::Ledger(Error::InsufficientBalance))
    );
    assert_eq!(boardroom.total_supply(), 0);
}

#[test]
fn replay_guard_blocks_second_stake_in_same_period() {
    let (mut share, _cash, mut boardroom) = world();
    assert_eq!(share.approve(ALICE, ROOM, 1000), Ok(()));
    assert_eq!(share.transfer(ALICE, BOB, 1000), Ok(()));
    assert_eq!(share.approve(BOB, ROOM, 1000), Ok(()));
    // Alice stakes in period 7.
    assert!(boardroom.stake(&mut share, ALICE, 7, 10).is_ok());
    // A second stake by Alice in period 7 is refused.
    assert_eq!(
        boardroom.stake(&mut share, ALICE, 7, 10),
        Err(BoardroomError::Rented)
    );
    // Bob may still stake in period 7, and Alice again in period 8.
    assert!(boardroom.stake(&mut share, BOB, 7, 10).is_ok());
    assert!(boardroom.stake(&mut share, ALICE, 8, 10).is_ok());
    assert_eq!(boardroom.total_supply(), 30);
}

#[test]
fn stakes_and_withdrawals_conserve_the_total() {
    let (mut share, _cash, mut boardroom) = world();
    assert_eq!(share.approve(ALICE, ROOM, 1000), Ok(()));
    assert_eq!(share.transfer(ALICE, BOB, 1000), Ok(()));
    assert_eq!(share.approve(BOB, ROOM, 1000), Ok(()));
    assert!(boardroom.stake(&mut share, ALICE, 1, 300).is_ok());
    assert!(boardroom.stake(&mut share, BOB, 1, 200).is_ok());
    assert_eq!(
        boardroom.total_supply(),
        boardroom.balance_of(ALICE) + boardroom.balance_of(BOB)
    );
    assert!(boardroom.withdraw(&mut share, ALICE, 2, 120).is_ok());
    assert!(boardroom.stake(&mut share, BOB, 2, 50).is_ok());
    assert_eq!(
        boardroom.total_supply(),
        boardroom.balance_of(ALICE) + boardroom.balance_of(BOB)
    );
    assert_eq!(boardroom.total_supply(), 430);
}

#[test]
fn withdraw_returns_shares_and_checks_the_stake() {
    let (mut share, _cash, mut boardroom) = world();
    assert_eq!(share.approve(ALICE, ROOM, 100), Ok(()));
    assert!(boardroom.stake(&mut share, ALICE, 1, 100).is_ok());
    assert_eq!(
        boardroom.withdraw(&mut share, BOB, 2, 10),
        Err(BoardroomError::NoPosition)
    );
    assert_eq!(
        boardroom.withdraw(&mut share, ALICE, 2, 101),
        Err(BoardroomError::InsufficientStake)
    );
    let ev = boardroom.withdraw(&mut share, ALICE, 2, 30);
    assert_eq!(
        ev,
        Ok(Withdrawn { user: Some(ALICE), amount: 30 })
    );
    assert_eq!(boardroom.balance_of(ALICE), 70);
    assert_eq!(boardroom.total_supply(), 70);
    assert_eq!(share.balance_of(ALICE), 999_930);
    // The guard also covers withdrawals within one period.
    assert_eq!(
        boardroom.withdraw(&mut share, ALICE, 2, 30),
        Err(BoardroomError::Rented)
    );
}

#[test]
fn allocation_needs_stakers_and_a_positive_amount() {
    let (_share, mut cash, mut boardroom) = world();
    assert_eq!(
        boardroom.allocate_seigniorage(&mut cash, TREASURY, 5, 1, 0),
        Err(BoardroomError::ZeroAmount)
    );
    assert_eq!(
        boardroom.allocate_seigniorage(&mut cash, TREASURY, 5, 1, 10),
        Err(BoardroomError::TotalZero)
    );
}

#[test]
fn end_to_end_accrual_and_claim() {
    let (mut share, mut cash, mut boardroom) = world();
    // Stake 100 units.
    assert_eq!(share.approve(ALICE, ROOM, 100), Ok(()));
    assert!(boardroom.stake(&mut share, ALICE, 1, 100).is_ok());
    // Allocate 10 units of seigniorage.
    assert_eq!(cash.approve(TREASURY, ROOM, 10), Ok(()));
    let added = boardroom.allocate_seigniorage(&mut cash, TREASURY, 5, 1, 10);
    assert_eq!(
        added,
        Ok(RewardAdded { user: Some(TREASURY), reward: 10 })
    );
    // The index grows by 10 * UNIT / 100, in a single new snapshot.
    let snaps = boardroom.get_snapshots();
    assert_eq!(snaps.len(), 2);
    assert_eq!(snaps[1].time, 5);
    assert_eq!(snaps[1].reward_received, 10);
    assert_eq!(snaps[1].reward_per_share, 10 * UNIT / 100);
    assert_eq!(boardroom.reward_per_share(), 1_000_000_000);
    // The sole staker is owed the whole allocation; the claim pays it
    // out exactly and zeroes the seat.
    let paid = boardroom.claim_reward(&mut cash, ALICE);
    assert_eq!(
        paid,
        Ok(Some(RewardPaid { user: Some(ALICE), reward: 10 }))
    );
    assert_eq!(cash.balance_of(ALICE), 10);
    assert_eq!(cash.balance_of(ROOM), 0);
    assert_eq!(boardroom.get_last_snapshot_index_of(ALICE), 1);
}

#[test]
fn claim_twice_pays_only_once() {
    let (mut share, mut cash, mut boardroom) = world();
    assert_eq!(share.approve(ALICE, ROOM, 100), Ok(()));
    assert!(boardroom.stake(&mut share, ALICE, 1, 100).is_ok());
    assert_eq!(cash.approve(TREASURY, ROOM, 10), Ok(()));
    assert!(boardroom
        .allocate_seigniorage(&mut cash, TREASURY, 5, 1, 10)
        .is_ok());
    assert!(boardroom.claim_reward(&mut cash, ALICE).is_ok());
    assert_eq!(cash.balance_of(ALICE), 10);
    // With no allocation in between, the second claim transfers zero.
    assert_eq!(boardroom.claim_reward(&mut cash, ALICE), Ok(None));
    assert_eq!(cash.balance_of(ALICE), 10);
}

#[test]
fn accrual_rounds_down_at_the_unit() {
    let (mut share, mut cash, mut boardroom) = world();
    // Three staked shares, one unit of reward: the index grows by
    // floor(1 * UNIT / 3), and 3 * floor(UNIT / 3) / UNIT rounds to 0.
    assert_eq!(share.approve(ALICE, ROOM, 3), Ok(()));
    assert!(boardroom.stake(&mut share, ALICE, 1, 3).is_ok());
    assert_eq!(cash.approve(TREASURY, ROOM, 1), Ok(()));
    assert!(boardroom
        .allocate_seigniorage(&mut cash, TREASURY, 5, 1, 1)
        .is_ok());
    assert_eq!(boardroom.reward_per_share(), 3_333_333_333);
    assert_eq!(boardroom.claim_reward(&mut cash, ALICE), Ok(None));
    assert_eq!(cash.balance_of(ALICE), 0);
}

#[test]
fn accrual_is_exact_when_the_unit_divides() {
    let (mut share, mut cash, mut boardroom) = world();
    // Four staked shares, two units of reward: 4 * (2 * UNIT / 4) / UNIT == 2.
    assert_eq!(share.approve(ALICE, ROOM, 4), Ok(()));
    assert!(boardroom.stake(&mut share, ALICE, 1, 4).is_ok());
    assert_eq!(cash.approve(TREASURY, ROOM, 2), Ok(()));
    assert!(boardroom
        .allocate_seigniorage(&mut cash, TREASURY, 5, 1, 2)
        .is_ok());
    let paid = boardroom.claim_reward(&mut cash, ALICE);
    assert_eq!(
        paid,
        Ok(Some(RewardPaid { user: Some(ALICE), reward: 2 }))
    );
    assert_eq!(cash.balance_of(ALICE), 2);
}

#[test]
fn snapshots_grow_by_one_per_allocation_and_stay_monotone() {
    let (mut share, mut cash, mut boardroom) = world();
    assert_eq!(share.approve(ALICE, ROOM, 100), Ok(()));
    assert!(boardroom.stake(&mut share, ALICE, 1, 100).is_ok());
    assert_eq!(cash.approve(TREASURY, ROOM, 30), Ok(()));
    assert!(boardroom
        .allocate_seigniorage(&mut cash, TREASURY, 5, 2, 10)
        .is_ok());
    assert!(boardroom
        .allocate_seigniorage(&mut cash, TREASURY, 9, 3, 20)
        .is_ok());
    let snaps = boardroom.get_snapshots();
    assert_eq!(snaps.len(), 3);
    let mut i: usize = 1;
    while i < snaps.len() {
        assert!(snaps[i - 1].reward_per_share <= snaps[i].reward_per_share);
        i += 1;
    }
    // A second allocation in one period is refused.
    assert_eq!(
        boardroom.allocate_seigniorage(&mut cash, TREASURY, 11, 3, 1),
        Err(BoardroomError::Rented)
    );
}

#[test]
fn exit_returns_stake_and_reward_together() {
    let (mut share, mut cash, mut boardroom) = world();
    assert_eq!(share.approve(ALICE, ROOM, 100), Ok(()));
    assert!(boardroom.stake(&mut share, ALICE, 1, 100).is_ok());
    assert_eq!(cash.approve(TREASURY, ROOM, 10), Ok(()));
    assert!(boardroom
        .allocate_seigniorage(&mut cash, TREASURY, 5, 1, 10)
        .is_ok());
    let out = boardroom.exit(&mut share, &mut cash, ALICE, 2);
    assert_eq!(
        out,
        Ok((
            Withdrawn { user: Some(ALICE), amount: 100 },
            Some(RewardPaid { user: Some(ALICE), reward: 10 })
        ))
    );
    assert_eq!(boardroom.total_supply(), 0);
    assert_eq!(boardroom.balance_of(ALICE), 0);
    assert_eq!(share.balance_of(ALICE), 1_000_000);
    assert_eq!(cash.balance_of(ALICE), 10);
    // With nothing staked, a second exit finds no position.
    assert_eq!(
        boardroom.exit(&mut share, &mut cash, ALICE, 3),
        Err(BoardroomError::NoPosition)
    );
}

#[test]
fn seats_listing_reflects_realized_rewards() {
    let (mut share, mut cash, mut boardroom) = world();
    assert_eq!(share.approve(ALICE, ROOM, 100), Ok(()));
    assert_eq!(share.transfer(ALICE, BOB, 100), Ok(()));
    assert_eq!(share.approve(BOB, ROOM, 100), Ok(()));
    assert!(boardroom.stake(&mut share, ALICE, 1, 60).is_ok());
    assert!(boardroom.stake(&mut share, BOB, 1, 40).is_ok());
    assert_eq!(cash.approve(TREASURY, ROOM, 100), Ok(()));
    assert!(boardroom
        .allocate_seigniorage(&mut cash, TREASURY, 5, 2, 100)
        .is_ok());
    // Staking again realizes Alice's share of the round: 60% of 100.
    assert!(boardroom.stake(&mut share, ALICE, 3, 1).is_ok());
    let seats = boardroom.get_seats();
    assert_eq!(seats.len(), 2);
    assert_eq!(seats[0].last_snapshot_index, 1);
    assert_eq!(seats[0].reward_earned, 60);
    assert_eq!(seats[1].last_snapshot_index, 0);
    assert_eq!(seats[1].reward_earned, 0);
    assert_eq!(boardroom.get_last_snapshot_index_of(BOB), 0);
}
