//! The Boardroom: stakers deposit the share token and earn the cash
//! token pro-rata whenever the Treasury allocates seigniorage. Rewards
//! are accounted lazily through an append-only history of snapshots of a
//! cumulative, non-decreasing reward-per-share index, so a distribution
//! never iterates over the stakers.
use vstd::prelude::*;

use crate::account_map::lemma_sum_bounds_value;
use crate::account_map::lemma_sum_insert_absent;
use crate::account_map::lemma_sum_update;
use crate::account_map::AccountMap;
use crate::asset::Asset;
use crate::asset::Error;
use crate::guard::PeriodGuard;
use crate::util::lemma_unit_positive;
use crate::util::Util;
use crate::AccountId;
use crate::Balance;

verus! {

/// Payload of the event emitted when a staker deposits shares.
#[derive(Debug, Clone, Copy, PartialEq, Eq)]
pub struct Staked {
    pub user: Option<AccountId>,
    pub amount: u128,
}

/// Payload of the event emitted when a staker withdraws shares.
#[derive(Debug, Clone, Copy, PartialEq, Eq)]
pub struct Withdrawn {
    pub user: Option<AccountId>,
    pub amount: u128,
}

/// Payload of the event emitted when a staker is paid their reward.
#[derive(Debug, Clone, Copy, PartialEq, Eq)]
pub struct RewardPaid {
    pub user: Option<AccountId>,
    pub reward: u128,
}

/// Payload of the event emitted when the operator allocates seigniorage.
#[derive(Debug, Clone, Copy, PartialEq, Eq)]
pub struct RewardAdded {
    pub user: Option<AccountId>,
    pub reward: u128,
}

/// A staker's reward account: the snapshot index up to which rewards
/// have been realized, and the reward realized so far but not yet paid.
/// An address that never interacted has the implicit seat `{0, 0}`.
#[derive(Debug, Clone, Copy, PartialEq, Eq, Structural)]
pub struct BoardSeat {
    pub last_snapshot_index: u128,
    pub reward_earned: u128,
}

/// One entry of the reward history: when it was taken, how much reward
/// arrived, and the cumulative reward-per-share index after it.
#[derive(Debug, Clone, Copy, PartialEq, Eq, Structural)]
pub struct BoardSnapshot {
    pub time: u64,
    pub reward_received: u128,
    pub reward_per_share: u128,
}

/// Why a boardroom operation was refused; the state is then unchanged.
#[derive(Debug, Clone, Copy, PartialEq, Eq, Structural)]
pub enum BoardroomError {
    /// The caller already took a guarded action in this period.
    Rented,
    /// The amount must be positive.
    ZeroAmount,
    /// The caller has nothing staked.
    NoPosition,
    /// The caller tried to withdraw more than they staked.
    InsufficientStake,
    /// Seigniorage cannot be distributed while nothing is staked.
    TotalZero,
    /// A checked arithmetic step would overflow; under correct
    /// accounting this cannot happen and signals an invariant breach.
    Arithmetic,
    /// A ledger call could not be honoured.
    Ledger(Error),
}

pub struct Boardroom {
    /// The fixed-point unit helper.
    pub util: Util,
    /// This boardroom's own ledger address, custodian of staked shares.
    pub account: AccountId,
    /// Who may allocate seigniorage (the treasury).
    pub operator: AccountId,
    /// Sum of all staked balances.
    pub stake_total: u128,
    /// Staked share balance per address.
    pub balances: AccountMap<Balance>,
    /// Reward seat per address.
    pub directors: AccountMap<BoardSeat>,
    /// The snapshot history; index 0 is the genesis snapshot.
    pub board_history: Vec<BoardSnapshot>,
    /// The replay guard over `(period, address)`.
    pub status: PeriodGuard,
}

impl Boardroom {
    /// Well-formedness: the maps are sound, the history is non-empty
    /// with a non-decreasing reward-per-share index, staked balances sum
    /// to `stake_total`, and every seat points into the history.
    pub open spec fn wf(self) -> bool {
        &&& self.util.wf()
        &&& self.balances.wf()
        &&& self.directors.wf()
        &&& self.board_history@.len() >= 1
        &&& forall|i: int, j: int|
            0 <= i <= j < self.board_history@.len() ==> (#[trigger] self.board_history@[i]).reward_per_share <= (
            #[trigger] self.board_history@[j]).reward_per_share
        &&& self.balances.total() == self.stake_total
        &&& forall|a: AccountId|
            self.directors@.contains_key(a) ==> (#[trigger] self.directors@[a]).last_snapshot_index
                < self.board_history@.len()
    }

    /// The share balance `a` has staked; zero if never seen.
    pub open spec fn spec_staked(self, a: AccountId) -> Balance {
        if self.balances@.contains_key(a) {
            self.balances@[a]
        } else {
            0
        }
    }

    /// The seat of `a`; the implicit `{0, 0}` seat if never seen.
    pub open spec fn spec_seat(self, a: AccountId) -> BoardSeat {
        if self.directors@.contains_key(a) {
            self.directors@[a]
        } else {
            BoardSeat { last_snapshot_index: 0, reward_earned: 0 }
        }
    }

    /// The latest snapshot's cumulative reward-per-share index.
    pub open spec fn spec_latest_rps(self) -> u128 {
        self.board_history@.last().reward_per_share
    }

    /// The index the seat of `a` last realized rewards at.
    pub open spec fn spec_stored_rps(self, a: AccountId) -> u128 {
        self.board_history@[self.spec_seat(a).last_snapshot_index as int].reward_per_share
    }

    /// What `a` is owed: the realized reward plus the staked balance
    /// times the index growth since the seat's snapshot, floored at the
    /// unit. This loop-free formula is the accrual core.
    pub open spec fn spec_earned(self, a: AccountId) -> int {
        self.spec_seat(a).reward_earned + (self.spec_staked(a) * (self.spec_latest_rps()
            - self.spec_stored_rps(a))) / (self.util.one_unit_with_decimal as int)
    }

    /// Whether computing `spec_earned` would leave `u128`.
    pub open spec fn spec_earned_overflows(self, a: AccountId) -> bool {
        let prod = self.spec_staked(a) * (self.spec_latest_rps() - self.spec_stored_rps(a));
        prod > u128::MAX || self.spec_seat(a).reward_earned + prod / (
        self.util.one_unit_with_decimal as int) > u128::MAX
    }

    /// A fresh boardroom. `account` is its own ledger address, the
    /// deployer becomes operator, and the history starts with the
    /// genesis snapshot at the current time.
    pub fn new(account: AccountId, caller: AccountId, util: Util, now: u64) -> (b: Boardroom)
        requires
            util.wf(),
        ensures
            b.wf(),
            b.util == util,
            b.account == account,
            b.operator == caller,
            b.stake_total == 0,
            b.balances@ == Map::<AccountId, Balance>::empty(),
            b.directors@ == Map::<AccountId, BoardSeat>::empty(),
            b.status@ == Set::<(u32, AccountId)>::empty(),
            b.board_history@ == seq![
                BoardSnapshot { time: now, reward_received: 0, reward_per_share: 0 },
            ],
    {
        let genesis = BoardSnapshot { time: now, reward_received: 0, reward_per_share: 0 };
        let mut history: Vec<BoardSnapshot> = Vec::new();
        history.push(genesis);
        let b = Boardroom {
            util,
            account,
            operator: caller,
            stake_total: 0,
            balances: AccountMap::new(),
            directors: AccountMap::new(),
            board_history: history,
            status: PeriodGuard::new(),
        };
        proof {
            assert(b.board_history@ =~= seq![genesis]);
        }
        b
    }

    pub fn operator(&self) -> (r: AccountId)
        ensures
            r == self.operator,
    {
        self.operator
    }

    /// Hand the boardroom to a new operator. Only the operator may.
    pub fn transfer_operator(&mut self, caller: AccountId, new_operator: AccountId)
        requires
            caller == old(self).operator,
        ensures
            *final (self) == (Boardroom { operator: new_operator, ..*old(self) }),
    {
        self.operator = new_operator;
    }

    /// The total amount of staked shares.
    pub fn total_supply(&self) -> (r: Balance)
        ensures
            r == self.stake_total,
    {
        self.stake_total
    }

    /// The staked balance of `account`.
    pub fn balance_of(&self, account: AccountId) -> (r: Balance)
        requires
            self.balances.wf(),
        ensures
            r == self.spec_staked(account),
    {
        match self.balances.get(account) {
            Some(v) => v,
            None => 0,
        }
    }

    /// The index of the latest snapshot.
    pub fn latest_snapshot_index(&self) -> (r: u128)
        requires
            self.board_history@.len() >= 1,
        ensures
            r == self.board_history@.len() - 1,
    {
        (self.board_history.len() - 1) as u128
    }

    /// The latest snapshot's reward-per-share index.
    pub fn reward_per_share(&self) -> (r: u128)
        requires
            self.board_history@.len() >= 1,
        ensures
            r == self.spec_latest_rps(),
    {
        let i: usize = self.board_history.len() - 1;
        self.board_history[i].reward_per_share
    }

    /// The snapshot index the seat of `director` points at.
    pub fn get_last_snapshot_index_of(&self, director: AccountId) -> (r: u128)
        requires
            self.directors.wf(),
        ensures
            r == self.spec_seat(director).last_snapshot_index,
    {
        self.seat_of(director).last_snapshot_index
    }

    /// The seat of `director`, giving the implicit empty seat to an
    /// address never seen.
    fn seat_of(&self, director: AccountId) -> (r: BoardSeat)
        requires
            self.directors.wf(),
        ensures
            r == self.spec_seat(director),
    {
        match self.directors.get(director) {
            Some(s) => s,
            None => BoardSeat { last_snapshot_index: 0, reward_earned: 0 },
        }
    }

    /// A copy of the whole snapshot history.
    pub fn get_snapshots(&self) -> (r: Vec<BoardSnapshot>)
        ensures
            r@ == self.board_history@,
    {
        let n: usize = self.board_history.len();
        let mut records: Vec<BoardSnapshot> = Vec::new();
        let mut i: usize = 0;
        while i < n
            invariant
                0 <= i <= n,
                n == self.board_history@.len(),
                records@ == self.board_history@.subrange(0, i as int),
            decreases n - i,
        {
            records.push(self.board_history[i]);
            proof {
                assert(records@ =~= self.board_history@.subrange(0, i + 1));
            }
            i = i + 1;
        }
        proof {
            assert(records@ =~= self.board_history@);
        }
        records
    }

    /// A copy of every seat, in the order seats were first created.
    pub fn get_seats(&self) -> (r: Vec<BoardSeat>)
        requires
            self.directors.wf(),
        ensures
            r@.len() == self.directors.keys().len(),
            forall|i: int|
                0 <= i < r@.len() ==> r@[i] == self.directors@[#[trigger] self.directors.keys()[i]],
    {
        let n: usize = self.directors.len();
        let mut records: Vec<BoardSeat> = Vec::new();
        let mut i: usize = 0;
        while i < n
            invariant
                0 <= i <= n,
                n == self.directors.keys().len(),
                self.directors.wf(),
                records@.len() == i,
                forall|j: int|
                    0 <= j < i ==> records@[j] == self.directors@[
                        #[trigger] self.directors.keys()[j]],
            decreases n - i,
        {
            let e: (AccountId, BoardSeat) = self.directors.entry_at(i);
            records.push(e.1);
            i = i + 1;
        }
        records
    }

    /// Why `stake` would be refused, in the order the checks are made;
    /// `None` when it succeeds.
    pub open spec fn spec_stake_error(
        self,
        share: Asset,
        caller: AccountId,
        period: u32,
        amount: u128,
    ) -> Option<BoardroomError> {
        if self.status@.contains((period, caller)) {
            Some(BoardroomError::Rented)
        } else if self.spec_earned_overflows(caller) {
            Some(BoardroomError::Arithmetic)
        } else if amount == 0 {
            Some(BoardroomError::ZeroAmount)
        } else if self.stake_total + amount > u128::MAX {
            Some(BoardroomError::Arithmetic)
        } else if share.spec_allowance(caller, self.account) < amount {
            Some(BoardroomError::Ledger(Error::InsufficientAllowance))
        } else if share.spec_balance_of(caller) < amount {
            Some(BoardroomError::Ledger(Error::InsufficientBalance))
        } else {
            None
        }
    }

    /// Stake `amount` shares: realize the caller's accrued reward, pull
    /// the shares into custody, and latch the replay guard. All or
    /// nothing: on an error the boardroom and the ledger are unchanged.
    pub fn stake(&mut self, share: &mut Asset, caller: AccountId, period: u32, amount: u128) -> (r:
        Result<Staked, BoardroomError>)
        requires
            old(self).wf(),
            old(share).wf(),
            caller != 0,
        ensures
            final (self).wf(),
            final (share).wf(),
            final (share).same_config(*old(share)),
            final (self).util == old(self).util,
            final (self).account == old(self).account,
            final (self).operator == old(self).operator,
            final (self).board_history@ == old(self).board_history@,
            match r {
                Ok(ev) => {
                    &&& old(self).spec_stake_error(*old(share), caller, period, amount) is None
                    &&& ev == (Staked { user: Some(caller), amount: amount })
                    &&& final (self).stake_total == old(self).stake_total + amount
                    &&& final (self).spec_staked(caller) == old(self).spec_staked(caller) + amount
                    &&& forall|a: AccountId|
                        a != caller ==> final (self).spec_staked(a) == old(self).spec_staked(a)
                    &&& final (self).spec_seat(caller) == (BoardSeat {
                        last_snapshot_index: (old(self).board_history@.len() - 1) as u128,
                        reward_earned: old(self).spec_earned(caller) as u128,
                    })
                    &&& forall|a: AccountId|
                        a != caller ==> final (self).spec_seat(a) == old(self).spec_seat(a)
                    &&& final (self).status@ == old(self).status@.insert((period, caller))
                    &&& old(share).spec_moved(*final (share), caller, old(self).account, amount)
                    &&& old(share).spec_allowance_spent(
                        *final (share),
                        caller,
                        old(self).account,
                        amount,
                    )
                },
                Err(e) => {
                    &&& old(self).spec_stake_error(*old(share), caller, period, amount) == Some(e)
                    &&& *final (self) == *old(self)
                    &&& *final (share) == *old(share)
                },
            },
    {
        if self.status.contains(period, caller) {
            return Err(BoardroomError::Rented);
        }
        let earned: u128 = match self._earned(caller) {
            Ok(v) => v,
            Err(e) => {
                return Err(e);
            },
        };
        if amount == 0 {
            return Err(BoardroomError::ZeroAmount);
        }
        let total: u128 = self.stake_total;
        let new_total: u128 = match total.checked_add(amount) {
            Some(v) => v,
            None => {
                return Err(BoardroomError::Arithmetic);
            },
        };
        if share.allowance(caller, self.account) < amount {
            return Err(BoardroomError::Ledger(Error::InsufficientAllowance));
        }
        if share.balance_of(caller) < amount {
            return Err(BoardroomError::Ledger(Error::InsufficientBalance));
        }
        let index: u128 = self.latest_snapshot_index();
        self.directors.insert(
            caller,
            BoardSeat { last_snapshot_index: index, reward_earned: earned },
        );
        proof {
            self.balances.lemma_wf_facts();
            if self.balances@.contains_key(caller) {
                lemma_sum_bounds_value(self.balances.keys(), self.balances@, caller);
            }
        }
        let balance: Balance = self.balance_of(caller);
        let ghost keys0 = self.balances.keys();
        let ghost map0 = self.balances@;
        self.balances.insert(caller, balance + amount);
        proof {
            if map0.contains_key(caller) {
                lemma_sum_update(keys0, map0, caller, (balance + amount) as u128);
            } else {
                lemma_sum_insert_absent(keys0, map0, caller, (balance + amount) as u128);
            }
        }
        self.stake_total = new_total;
        let this: AccountId = self.account;
        match share.transfer_from(this, caller, this, amount) {
            Ok(_) => {},
            Err(e) => {
                proof {
                    assert(false);
                }
                return Err(BoardroomError::Ledger(e));
            },
        }
        self.status.set(period, caller);
        Ok(Staked { user: Some(caller), amount })
    }

    /// Why `withdraw` would be refused, in the order the checks are
    /// made; `None` when it succeeds.
    pub open spec fn spec_withdraw_error(
        self,
        share: Asset,
        caller: AccountId,
        period: u32,
        amount: u128,
    ) -> Option<BoardroomError> {
        if self.status@.contains((period, caller)) {
            Some(BoardroomError::Rented)
        } else if self.spec_staked(caller) == 0 {
            Some(BoardroomError::NoPosition)
        } else if self.spec_earned_overflows(caller) {
            Some(BoardroomError::Arithmetic)
        } else if amount == 0 {
            Some(BoardroomError::ZeroAmount)
        } else if self.spec_staked(caller) < amount {
            Some(BoardroomError::InsufficientStake)
        } else if share.spec_balance_of(self.account) < amount {
            Some(BoardroomError::Ledger(Error::InsufficientBalance))
        } else {
            None
        }
    }

    /// Withdraw `amount` staked shares: realize the caller's accrued
    /// reward, hand the shares back, and latch the replay guard. All or
    /// nothing.
    pub fn withdraw(
        &mut self,
        share: &mut Asset,
        caller: AccountId,
        period: u32,
        amount: u128,
    ) -> (r: Result<Withdrawn, BoardroomError>)
        requires
            old(self).wf(),
            old(share).wf(),
            caller != 0,
        ensures
            final (self).wf(),
            final (share).wf(),
            final (share).same_config(*old(share)),
            final (share).same_allowances(*old(share)),
            final (self).util == old(self).util,
            final (self).account == old(self).account,
            final (self).operator == old(self).operator,
            final (self).board_history@ == old(self).board_history@,
            match r {
                Ok(ev) => {
                    &&& old(self).spec_withdraw_error(*old(share), caller, period, amount) is None
                    &&& ev == (Withdrawn { user: Some(caller), amount: amount })
                    &&& final (self).stake_total == old(self).stake_total - amount
                    &&& final (self).spec_staked(caller) == old(self).spec_staked(caller) - amount
                    &&& forall|a: AccountId|
                        a != caller ==> final (self).spec_staked(a) == old(self).spec_staked(a)
                    &&& final (self).spec_seat(caller) == (BoardSeat {
                        last_snapshot_index: (old(self).board_history@.len() - 1) as u128,
                        reward_earned: old(self).spec_earned(caller) as u128,
                    })
                    &&& forall|a: AccountId|
                        a != caller ==> final (self).spec_seat(a) == old(self).spec_seat(a)
                    &&& final (self).status@ == old(self).status@.insert((period, caller))
                    &&& old(share).spec_moved(*final (share), old(self).account, caller, amount)
                },
                Err(e) => {
                    &&& old(self).spec_withdraw_error(*old(share), caller, period, amount) == Some(
                        e,
                    )
                    &&& *final (self) == *old(self)
                    &&& *final (share) == *old(share)
                },
            },
    {
        if self.status.contains(period, caller) {
            return Err(BoardroomError::Rented);
        }
        let staked: Balance = self.balance_of(caller);
        if staked == 0 {
            return Err(BoardroomError::NoPosition);
        }
        let earned: u128 = match self._earned(caller) {
            Ok(v) => v,
            Err(e) => {
                return Err(e);
            },
        };
        if amount == 0 {
            return Err(BoardroomError::ZeroAmount);
        }
        if staked < amount {
            return Err(BoardroomError::InsufficientStake);
        }
        if share.balance_of(self.account) < amount {
            return Err(BoardroomError::Ledger(Error::InsufficientBalance));
        }
        let index: u128 = self.latest_snapshot_index();
        self.directors.insert(
            caller,
            BoardSeat { last_snapshot_index: index, reward_earned: earned },
        );
        proof {
            self.balances.lemma_wf_facts();
            lemma_sum_bounds_value(self.balances.keys(), self.balances@, caller);
        }
        let ghost keys0 = self.balances.keys();
        let ghost map0 = self.balances@;
        self.balances.insert(caller, staked - amount);
        proof {
            lemma_sum_update(keys0, map0, caller, (staked - amount) as u128);
        }
        self.stake_total = self.stake_total - amount;
        let this: AccountId = self.account;
        match share.transfer(this, caller, amount) {
            Ok(_) => {},
            Err(e) => {
                proof {
                    assert(false);
                }
                return Err(BoardroomError::Ledger(e));
            },
        }
        self.status.set(period, caller);
        Ok(Withdrawn { user: Some(caller), amount })
    }

    /// Why `claim_reward` would be refused; `None` when it succeeds.
    /// The claim is not subject to the replay guard, so that `exit` can
    /// withdraw and claim in one invocation.
    pub open spec fn spec_claim_error(self, cash: Asset, caller: AccountId) -> Option<
        BoardroomError,
    > {
        if self.spec_earned_overflows(caller) {
            Some(BoardroomError::Arithmetic)
        } else if self.spec_earned(caller) > 0 && cash.spec_balance_of(self.account)
            < self.spec_earned(caller) {
            Some(BoardroomError::Ledger(Error::InsufficientBalance))
        } else {
            None
        }
    }

    /// Pay out the caller's accrued reward in cash, if any, and reset
    /// the seat at the latest snapshot. A claim with nothing accrued
    /// succeeds, pays nothing, and returns no event.
    pub fn claim_reward(&mut self, cash: &mut Asset, caller: AccountId) -> (r: Result<
        Option<RewardPaid>,
        BoardroomError,
    >)
        requires
            old(self).wf(),
            old(cash).wf(),
            caller != 0,
        ensures
            final (self).wf(),
            final (cash).wf(),
            final (cash).same_config(*old(cash)),
            final (cash).same_allowances(*old(cash)),
            final (self).util == old(self).util,
            final (self).account == old(self).account,
            final (self).operator == old(self).operator,
            final (self).stake_total == old(self).stake_total,
            final (self).board_history@ == old(self).board_history@,
            final (self).status@ == old(self).status@,
            match r {
                Ok(ev) => {
                    &&& old(self).spec_claim_error(*old(cash), caller) is None
                    &&& final (self).spec_seat(caller) == (BoardSeat {
                        last_snapshot_index: (old(self).board_history@.len() - 1) as u128,
                        reward_earned: 0,
                    })
                    &&& forall|a: AccountId|
                        a != caller ==> final (self).spec_seat(a) == old(self).spec_seat(a)
                    &&& forall|a: AccountId| final (self).spec_staked(a) == old(self).spec_staked(a)
                    &&& match ev {
                        Some(p) => old(self).spec_earned(caller) > 0 && p == (RewardPaid {
                            user: Some(caller),
                            reward: old(self).spec_earned(caller) as u128,
                        }) && old(cash).spec_moved(
                            *final (cash),
                            old(self).account,
                            caller,
                            old(self).spec_earned(caller) as u128,
                        ),
                        None => old(self).spec_earned(caller) == 0 && *final (cash) == *old(cash),
                    }
                },
                Err(e) => {
                    &&& old(self).spec_claim_error(*old(cash), caller) == Some(e)
                    &&& *final (self) == *old(self)
                    &&& *final (cash) == *old(cash)
                },
            },
    {
        let earned: u128 = match self._earned(caller) {
            Ok(v) => v,
            Err(e) => {
                return Err(e);
            },
        };
        if earned > 0 && cash.balance_of(self.account) < earned {
            return Err(BoardroomError::Ledger(Error::InsufficientBalance));
        }
        let index: u128 = self.latest_snapshot_index();
        self.directors.insert(caller, BoardSeat { last_snapshot_index: index, reward_earned: 0 });
        if earned > 0 {
            let this: AccountId = self.account;
            match cash.transfer(this, caller, earned) {
                Ok(_) => {},
                Err(e) => {
                    proof {
                        assert(false);
                    }
                    return Err(BoardroomError::Ledger(e));
                },
            }
            Ok(Some(RewardPaid { user: Some(caller), reward: earned }))
        } else {
            Ok(None)
        }
    }

    /// Why `exit` would be refused: first anything that would stop the
    /// full withdrawal, then a cash shortfall that would stop the claim.
    pub open spec fn spec_exit_error(
        self,
        share: Asset,
        cash: Asset,
        caller: AccountId,
        period: u32,
    ) -> Option<BoardroomError> {
        let werr = self.spec_withdraw_error(share, caller, period, self.spec_staked(caller));
        if werr is Some {
            werr
        } else if self.spec_earned(caller) > 0 && cash.spec_balance_of(self.account)
            < self.spec_earned(caller) {
            Some(BoardroomError::Ledger(Error::InsufficientBalance))
        } else {
            None
        }
    }

    /// Leave the boardroom: withdraw the full staked balance, then claim
    /// the accrued reward, as one all-or-nothing action. The withdrawal
    /// latches the replay guard; the claim is exempt from it, which is
    /// what lets the two steps share one invocation.
    pub fn exit(&mut self, share: &mut Asset, cash: &mut Asset, caller: AccountId, period: u32) -> (
    r: Result<(Withdrawn, Option<RewardPaid>), BoardroomError>)
        requires
            old(self).wf(),
            old(share).wf(),
            old(cash).wf(),
            caller != 0,
        ensures
            final (self).wf(),
            final (share).wf(),
            final (cash).wf(),
            final (share).same_config(*old(share)),
            final (share).same_allowances(*old(share)),
            final (cash).same_config(*old(cash)),
            final (cash).same_allowances(*old(cash)),
            final (self).util == old(self).util,
            final (self).account == old(self).account,
            final (self).operator == old(self).operator,
            final (self).board_history@ == old(self).board_history@,
            match r {
                Ok(ev) => {
                    &&& old(self).spec_exit_error(*old(share), *old(cash), caller, period) is None
                    &&& ev.0 == (Withdrawn {
                        user: Some(caller),
                        amount: old(self).spec_staked(caller),
                    })
                    &&& final (self).stake_total == old(self).stake_total - old(self).spec_staked(
                        caller,
                    )
                    &&& final (self).spec_staked(caller) == 0
                    &&& forall|a: AccountId|
                        a != caller ==> final (self).spec_staked(a) == old(self).spec_staked(a)
                    &&& final (self).spec_seat(caller) == (BoardSeat {
                        last_snapshot_index: (old(self).board_history@.len() - 1) as u128,
                        reward_earned: 0,
                    })
                    &&& forall|a: AccountId|
                        a != caller ==> final (self).spec_seat(a) == old(self).spec_seat(a)
                    &&& final (self).status@ == old(self).status@.insert((period, caller))
                    &&& old(share).spec_moved(
                        *final (share),
                        old(self).account,
                        caller,
                        old(self).spec_staked(caller),
                    )
                    &&& match ev.1 {
                        Some(p) => old(self).spec_earned(caller) > 0 && p == (RewardPaid {
                            user: Some(caller),
                            reward: old(self).spec_earned(caller) as u128,
                        }) && old(cash).spec_moved(
                            *final (cash),
                            old(self).account,
                            caller,
                            old(self).spec_earned(caller) as u128,
                        ),
                        None => old(self).spec_earned(caller) == 0 && *final (cash) == *old(cash),
                    }
                },
                Err(e) => {
                    &&& old(self).spec_exit_error(*old(share), *old(cash), caller, period) == Some(
                        e,
                    )
                    &&& *final (self) == *old(self)
                    &&& *final (share) == *old(share)
                    &&& *final (cash) == *old(cash)
                },
            },
    {
        if self.status.contains(period, caller) {
            return Err(BoardroomError::Rented);
        }
        let bal: Balance = self.balance_of(caller);
        if bal == 0 {
            return Err(BoardroomError::NoPosition);
        }
        let earned: u128 = match self._earned(caller) {
            Ok(v) => v,
            Err(e) => {
                return Err(e);
            },
        };
        if share.balance_of(self.account) < bal {
            return Err(BoardroomError::Ledger(Error::InsufficientBalance));
        }
        if earned > 0 && cash.balance_of(self.account) < earned {
            return Err(BoardroomError::Ledger(Error::InsufficientBalance));
        }
        let w: Withdrawn = match self.withdraw(share, caller, period, bal) {
            Ok(ev) => ev,
            Err(e) => {
                proof {
                    assert(false);
                }
                return Err(e);
            },
        };
        let hist_len: usize = self.board_history.len();
        proof {
            lemma_unit_positive(self.util);
            assert(hist_len == old(self).board_history@.len());
            let latest = (old(self).board_history@.len() - 1) as u128;
            assert(self.spec_seat(caller) == (BoardSeat {
                last_snapshot_index: latest,
                reward_earned: earned,
            }));
            assert(self.spec_staked(caller) == 0);
            assert(self.spec_stored_rps(caller) == self.spec_latest_rps());
            assert((self.spec_staked(caller) * (self.spec_latest_rps() - self.spec_stored_rps(
                caller,
            ))) == 0);
            assert(self.spec_earned(caller) == earned);
            assert(!self.spec_earned_overflows(caller));
            assert(self.spec_claim_error(*cash, caller) is None);
        }
        match self.claim_reward(cash, caller) {
            Ok(p) => Ok((w, p)),
            Err(e) => {
                proof {
                    assert(false);
                }
                Err(e)
            },
        }
    }

    /// Why `allocate_seigniorage` would be refused, in the order the
    /// checks are made; `None` when it succeeds.
    pub open spec fn spec_allocate_error(
        self,
        cash: Asset,
        caller: AccountId,
        period: u32,
        amount: u128,
    ) -> Option<BoardroomError> {
        if self.status@.contains((period, caller)) {
            Some(BoardroomError::Rented)
        } else if amount == 0 {
            Some(BoardroomError::ZeroAmount)
        } else if self.stake_total == 0 {
            Some(BoardroomError::TotalZero)
        } else if amount * self.util.one_unit_with_decimal > u128::MAX {
            Some(BoardroomError::Arithmetic)
        } else if self.spec_latest_rps() + (amount * self.util.one_unit_with_decimal) / (
        self.stake_total as int) > u128::MAX {
            Some(BoardroomError::Arithmetic)
        } else if cash.spec_allowance(caller, self.account) < amount {
            Some(BoardroomError::Ledger(Error::InsufficientAllowance))
        } else if cash.spec_balance_of(caller) < amount {
            Some(BoardroomError::Ledger(Error::InsufficientBalance))
        } else {
            None
        }
    }

    /// The snapshot `allocate_seigniorage` appends on success: the
    /// reward-per-share index grows by `amount * unit / stake_total`,
    /// rounded down.
    pub open spec fn spec_next_snapshot(self, now: u64, amount: u128) -> BoardSnapshot {
        BoardSnapshot {
            time: now,
            reward_received: amount,
            reward_per_share: (self.spec_latest_rps() + (amount * self.util.one_unit_with_decimal)
                / (self.stake_total as int)) as u128,
        }
    }

    /// Distribute `amount` of the cash token to the current stakers:
    /// append a snapshot advancing the cumulative reward-per-share index
    /// and pull the cash from the caller into custody. Only the operator
    /// (the treasury) may allocate, at most once per period, and never
    /// while nothing is staked.
    pub fn allocate_seigniorage(
        &mut self,
        cash: &mut Asset,
        caller: AccountId,
        now: u64,
        period: u32,
        amount: u128,
    ) -> (r: Result<RewardAdded, BoardroomError>)
        requires
            old(self).wf(),
            old(cash).wf(),
            caller == old(self).operator,
        ensures
            final (self).wf(),
            final (cash).wf(),
            final (cash).same_config(*old(cash)),
            final (self).util == old(self).util,
            final (self).account == old(self).account,
            final (self).operator == old(self).operator,
            final (self).stake_total == old(self).stake_total,
            final (self).balances == old(self).balances,
            final (self).directors == old(self).directors,
            match r {
                Ok(ev) => {
                    &&& old(self).spec_allocate_error(*old(cash), caller, period, amount) is None
                    &&& ev == (RewardAdded { user: Some(caller), reward: amount })
                    &&& final (self).board_history@ == old(self).board_history@.push(
                        old(self).spec_next_snapshot(now, amount),
                    )
                    &&& final (self).status@ == old(self).status@.insert((period, caller))
                    &&& old(cash).spec_moved(*final (cash), caller, old(self).account, amount)
                    &&& old(cash).spec_allowance_spent(
                        *final (cash),
                        caller,
                        old(self).account,
                        amount,
                    )
                },
                Err(e) => {
                    &&& old(self).spec_allocate_error(*old(cash), caller, period, amount) == Some(
                        e,
                    )
                    &&& *final (self) == *old(self)
                    &&& *final (cash) == *old(cash)
                },
            },
    {
        if self.status.contains(period, caller) {
            return Err(BoardroomError::Rented);
        }
        if amount == 0 {
            return Err(BoardroomError::ZeroAmount);
        }
        let total: u128 = self.total_supply();
        if total == 0 {
            return Err(BoardroomError::TotalZero);
        }
        let one_unit_with_decimal: u128 = self.util.get_one_unit_with_decimal();
        let prev_rps: u128 = self.reward_per_share();
        let amount_mul: u128 = match amount.checked_mul(one_unit_with_decimal) {
            Some(v) => v,
            None => {
                return Err(BoardroomError::Arithmetic);
            },
        };
        let amount_mul_div: u128 = amount_mul / total;
        let next_rps: u128 = match prev_rps.checked_add(amount_mul_div) {
            Some(v) => v,
            None => {
                return Err(BoardroomError::Arithmetic);
            },
        };
        if cash.allowance(caller, self.account) < amount {
            return Err(BoardroomError::Ledger(Error::InsufficientAllowance));
        }
        if cash.balance_of(caller) < amount {
            return Err(BoardroomError::Ledger(Error::InsufficientBalance));
        }
        let snapshot = BoardSnapshot {
            time: now,
            reward_received: amount,
            reward_per_share: next_rps,
        };
        self.board_history.push(snapshot);
        let this: AccountId = self.account;
        match cash.transfer_from(this, caller, this, amount) {
            Ok(_) => {},
            Err(e) => {
                proof {
                    assert(false);
                }
                return Err(BoardroomError::Ledger(e));
            },
        }
        self.status.set(period, caller);
        Ok(RewardAdded { user: Some(caller), reward: amount })
    }

    /// Conservation: in every well-formed boardroom the staked balances
    /// sum exactly to `stake_total`. Every operation returns a
    /// well-formed boardroom, so this holds after any sequence of
    /// stakes and withdrawals.
    pub proof fn lemma_stake_conservation(self)
        requires
            self.wf(),
        ensures
            self.balances.total() == self.stake_total,
    {
    }

    /// Monotonic snapshots: the reward-per-share index never decreases
    /// along the history. The history itself only ever grows, by
    /// exactly one snapshot per successful `allocate_seigniorage`, as
    /// that operation's contract states.
    pub proof fn lemma_snapshots_monotone(self, i: int, j: int)
        requires
            self.wf(),
            0 <= i <= j < self.board_history@.len(),
        ensures
            self.board_history@[i].reward_per_share <= self.board_history@[j].reward_per_share,
    {
    }

    /// Accrual correctness: a sole staker holding the whole stake `S`,
    /// realized at the latest snapshot with nothing pending, is owed
    /// exactly `floor(S * floor(R * unit / S) / unit)` once seigniorage
    /// `R` is allocated — the lazy formula reproduces one eager
    /// per-snapshot accrual step, rounding down at the unit.
    pub proof fn lemma_single_staker_accrual(pre: Boardroom, post: Boardroom, a: AccountId, amount: u128, now: u64)
        requires
            pre.wf(),
            pre.spec_seat(a) == (BoardSeat {
                last_snapshot_index: (pre.board_history@.len() - 1) as u128,
                reward_earned: 0,
            }),
            pre.spec_staked(a) == pre.stake_total,
            pre.stake_total > 0,
            pre.board_history@.len() - 1 <= u128::MAX,
            amount * pre.util.one_unit_with_decimal <= u128::MAX,
            pre.spec_latest_rps() + (amount * pre.util.one_unit_with_decimal) / (
            pre.stake_total as int) <= u128::MAX,
            post.board_history@ == pre.board_history@.push(pre.spec_next_snapshot(now, amount)),
            post.balances == pre.balances,
            post.directors == pre.directors,
            post.util == pre.util,
            post.stake_total == pre.stake_total,
        ensures
            post.spec_earned(a) == (pre.stake_total * ((amount * pre.util.one_unit_with_decimal)
                / (pre.stake_total as int))) / (pre.util.one_unit_with_decimal as int),
    {
        let latest = pre.board_history@.len() - 1;
        assert(post.spec_seat(a) == pre.spec_seat(a));
        assert(post.board_history@[latest] == pre.board_history@[latest]);
        assert(post.spec_stored_rps(a) == pre.spec_latest_rps());
        assert(post.spec_latest_rps() == pre.spec_next_snapshot(now, amount).reward_per_share);
    }

    /// Idempotent claim: once a seat is realized at the latest snapshot
    /// with nothing pending — which is how `claim_reward` leaves it —
    /// nothing more is owed, so a second claim with no allocation in
    /// between pays nothing and leaves the cash ledger unchanged.
    pub proof fn lemma_nothing_pending_after_claim(self, a: AccountId)
        requires
            self.wf(),
            self.spec_seat(a) == (BoardSeat {
                last_snapshot_index: (self.board_history@.len() - 1) as u128,
                reward_earned: 0,
            }),
            self.board_history@.len() - 1 <= u128::MAX,
        ensures
            self.spec_earned(a) == 0,
            !self.spec_earned_overflows(a),
    {
        lemma_unit_positive(self.util);
        assert(self.spec_stored_rps(a) == self.spec_latest_rps());
        assert(self.spec_staked(a) * (self.spec_latest_rps() - self.spec_stored_rps(a)) == 0);
        let unit = self.util.one_unit_with_decimal as int;
        assert(0int / unit == 0) by (nonlinear_arith)
            requires
                unit >= 1,
        ;
    }

    /// Replay guard: a successful guarded operation latches exactly its
    /// own `(period, caller)` pair, so the same address is refused a
    /// second staking action in the same period while every other
    /// address, and every other period, is left as it was.
    pub proof fn lemma_replay_guard(
        pre: Boardroom,
        post: Boardroom,
        share: Asset,
        a: AccountId,
        other: AccountId,
        period: u32,
        other_period: u32,
        amount: u128,
    )
        requires
            post.status@ == pre.status@.insert((period, a)),
            other != a,
        ensures
            post.status@.contains((period, a)),
            post.spec_stake_error(share, a, period, amount) == Some(BoardroomError::Rented),
            post.status@.contains((period, other)) == pre.status@.contains((period, other)),
            other_period != period ==> post.status@.contains((other_period, a))
                == pre.status@.contains((other_period, a)),
    {
    }

    /// What `director` is owed right now. Fails only if the lazy-accrual
    /// arithmetic would overflow.
    fn _earned(&self, director: AccountId) -> (r: Result<u128, BoardroomError>)
        requires
            self.wf(),
        ensures
            match r {
                Ok(v) => !self.spec_earned_overflows(director) && v == self.spec_earned(director),
                Err(e) => e == BoardroomError::Arithmetic && self.spec_earned_overflows(director),
            },
    {
        let latest_rps: u128 = self.reward_per_share();
        let seat = self.seat_of(director);
        let hist_len: usize = self.board_history.len();
        proof {
            lemma_unit_positive(self.util);
            assert(seat.last_snapshot_index < hist_len);
        }
        let idx: usize = seat.last_snapshot_index as usize;
        let stored_rps: u128 = self.board_history[idx].reward_per_share;
        proof {
            assert(stored_rps <= latest_rps);
        }
        let latest_rps_sub: u128 = latest_rps - stored_rps;
        let balance: Balance = self.balance_of(director);
        let balance_mul: u128 = match balance.checked_mul(latest_rps_sub) {
            Some(m) => m,
            None => {
                return Err(BoardroomError::Arithmetic);
            },
        };
        let one_unit: u128 = self.util.get_one_unit_with_decimal();
        let balance_mul_div: u128 = balance_mul / one_unit;
        match balance_mul_div.checked_add(seat.reward_earned) {
            Some(v) => Ok(v),
            None => Err(BoardroomError::Arithmetic),
        }
    }
}

} // verus!
