//! The Treasury: stabilizes the cash price with a bond mechanism. Below
//! the peg it sells bonds at a discount against burned cash, capped by
//! the price deviation; above the ceiling it redeems bonds and mints
//! seigniorage, reserving part of it against outstanding bonds and
//! handing the rest to the boardroom's stakers.
use vstd::prelude::*;

use crate::asset::Asset;
use crate::asset::Error;
use crate::boardroom::Boardroom;
use crate::boardroom::BoardroomError;
use crate::guard::PeriodGuard;
use crate::oracle::Oracle;
use crate::util::lemma_unit_positive;
use crate::util::spec_ceiling_price;
use crate::util::Util;
use crate::AccountId;

verus! {

/// Payload of the event emitted when a holder redeems bonds for cash.
#[derive(Debug, Clone, Copy, PartialEq, Eq)]
pub struct RedeemedBonds {
    pub from: Option<AccountId>,
    pub amount: u128,
}

/// Payload of the event emitted when a buyer purchases bonds with cash.
#[derive(Debug, Clone, Copy, PartialEq, Eq)]
pub struct BoughtBonds {
    pub from: Option<AccountId>,
    pub amount: u128,
}

/// Payload of the event emitted when seigniorage is reserved for bonds.
#[derive(Debug, Clone, Copy, PartialEq, Eq)]
pub struct TreasuryFunded {
    pub timestamp: u64,
    pub seigniorage: u128,
}

/// Payload of the event emitted when seigniorage reaches the boardroom.
#[derive(Debug, Clone, Copy, PartialEq, Eq)]
pub struct BoardroomFunded {
    pub timestamp: u64,
    pub seigniorage: u128,
}

/// Why a treasury operation was refused; the state is then unchanged.
#[derive(Debug, Clone, Copy, PartialEq, Eq, Structural)]
pub enum TreasuryError {
    /// The ledgers and the boardroom are not all operated by this
    /// treasury.
    Permission,
    /// The caller already took a guarded action in this period.
    Rented,
    /// The amount must be positive.
    ZeroAmount,
    /// The cash price moved above the caller's target price.
    PriceMoved,
    /// The cash price is not in the regime this operation needs.
    PriceNotEligible,
    /// The bond cap leaves nothing to purchase.
    ExceedsBondCap,
    /// The treasury's cash custody cannot cover the redemption.
    InsufficientBudget,
    /// The price deviation yields no seigniorage to allocate.
    ZeroSeigniorage,
    /// A checked arithmetic step would overflow; under correct
    /// accounting this cannot happen and signals an invariant breach.
    Arithmetic,
    /// A ledger call could not be honoured.
    Ledger(Error),
    /// The boardroom refused the allocation handed to it.
    Boardroom(BoardroomError),
}

pub struct Treasury {
    /// The fixed-point unit helper.
    pub util: Util,
    /// This treasury's own ledger address.
    pub account: AccountId,
    /// The boardroom's ledger address, the target of approvals.
    pub room_address: AccountId,
    /// The bond-purchase capacity, recomputed on each purchase.
    pub bond_cap: u128,
    /// Seigniorage reserved to back outstanding bonds.
    pub accumulated_seigniorage: u128,
    /// The replay guard over `(period, address)`.
    pub status: PeriodGuard,
}

impl Treasury {
    pub open spec fn wf(self) -> bool {
        self.util.wf()
    }

    /// All three ledgers and the boardroom are operated by this
    /// treasury, so it may mint, burn and allocate.
    pub open spec fn spec_operator_ok(
        self,
        cash: Asset,
        bond: Asset,
        share: Asset,
        boardroom: Boardroom,
    ) -> bool {
        &&& cash.operator == self.account
        &&& bond.operator == self.account
        &&& share.operator == self.account
        &&& boardroom.operator == self.account
    }

    /// The cash in circulation: total supply less the reserved
    /// seigniorage. Negative only if accounting was broken elsewhere.
    pub open spec fn spec_circulating(self, cash: Asset) -> int {
        cash.total_supply - self.accumulated_seigniorage
    }

    /// The bond-purchase cap at `price` below the peg: the circulating
    /// supply scaled by the deviation, less what bonds already cover.
    pub open spec fn spec_bond_cap(self, cash: Asset, bond: Asset, price: u128) -> int {
        let cap = (self.spec_circulating(cash) * (self.util.one_unit_with_decimal - price)) / (
        self.util.one_unit_with_decimal as int);
        cap - if cap < bond.total_supply {
            cap
        } else {
            bond.total_supply as int
        }
    }

    /// A fresh treasury with nothing reserved and no cap computed.
    pub fn new(account: AccountId, util: Util, room_address: AccountId) -> (t: Treasury)
        requires
            util.wf(),
        ensures
            t.wf(),
            t.util == util,
            t.account == account,
            t.room_address == room_address,
            t.bond_cap == 0,
            t.accumulated_seigniorage == 0,
            t.status@ == Set::<(u32, AccountId)>::empty(),
    {
        Treasury {
            util,
            account,
            room_address,
            bond_cap: 0,
            accumulated_seigniorage: 0,
            status: PeriodGuard::new(),
        }
    }

    /// Whether the four collaborators all take this treasury as their
    /// operator.
    fn _check_operator(
        &self,
        cash: &Asset,
        bond: &Asset,
        share: &Asset,
        boardroom: &Boardroom,
    ) -> (r: bool)
        ensures
            r == self.spec_operator_ok(*cash, *bond, *share, *boardroom),
    {
        let this: AccountId = self.account;
        cash.operator() == this && bond.operator() == this && share.operator() == this
            && boardroom.operator() == this
    }

    /// The treasury's own cash custody.
    fn _cash_balance_of_this(&self, cash: &Asset) -> (r: u128)
        requires
            cash.balances.wf(),
        ensures
            r == cash.spec_balance_of(self.account),
    {
        cash.balance_of(self.account)
    }

    /// Why `buy_bonds` would be refused, in the order the checks are
    /// made; `None` when it succeeds.
    pub open spec fn spec_buy_error(
        self,
        cash: Asset,
        bond: Asset,
        share: Asset,
        oracle: Oracle,
        boardroom: Boardroom,
        caller: AccountId,
        period: u32,
        amount: u128,
        target_price: u128,
    ) -> Option<TreasuryError> {
        let price = oracle.cash_price;
        let unit = self.util.one_unit_with_decimal;
        let cap = self.spec_bond_cap(cash, bond, price);
        let clamped = self.spec_clamped_amount(cash, bond, oracle, amount);
        if !self.spec_operator_ok(cash, bond, share, boardroom) {
            Some(TreasuryError::Permission)
        } else if self.status@.contains((period, caller)) {
            Some(TreasuryError::Rented)
        } else if amount == 0 {
            Some(TreasuryError::ZeroAmount)
        } else if price > target_price {
            Some(TreasuryError::PriceMoved)
        } else if price >= unit {
            Some(TreasuryError::PriceNotEligible)
        } else if self.accumulated_seigniorage > cash.total_supply {
            Some(TreasuryError::Arithmetic)
        } else if self.spec_circulating(cash) * (unit - price) > u128::MAX {
            Some(TreasuryError::Arithmetic)
        } else if cap * price > u128::MAX {
            Some(TreasuryError::Arithmetic)
        } else if clamped == 0 {
            Some(TreasuryError::ExceedsBondCap)
        } else if clamped * unit > u128::MAX {
            Some(TreasuryError::Arithmetic)
        } else if cash.spec_allowance(caller, self.account) < clamped {
            Some(TreasuryError::Ledger(Error::InsufficientAllowance))
        } else if cash.spec_balance_of(caller) < clamped {
            Some(TreasuryError::Ledger(Error::InsufficientBalance))
        } else if bond.total_supply + self.spec_bond_payout(cash, bond, oracle, amount)
            > u128::MAX {
            Some(TreasuryError::Ledger(Error::InvalidValue))
        } else {
            None
        }
    }

    /// The purchase after clamping at the cap's worth of cash:
    /// `min(amount, cap * price / unit)`.
    pub open spec fn spec_clamped_amount(
        self,
        cash: Asset,
        bond: Asset,
        oracle: Oracle,
        amount: u128,
    ) -> int {
        let price = oracle.cash_price;
        let worth = (self.spec_bond_cap(cash, bond, price) * price) / (
        self.util.one_unit_with_decimal as int);
        if amount < worth {
            amount as int
        } else {
            worth
        }
    }

    /// The bonds minted for the clamped purchase: the burnt cash priced
    /// at the discount, `clamped * unit / price`.
    pub open spec fn spec_bond_payout(
        self,
        cash: Asset,
        bond: Asset,
        oracle: Oracle,
        amount: u128,
    ) -> int {
        (self.spec_clamped_amount(cash, bond, oracle, amount) * self.util.one_unit_with_decimal)
            / (oracle.cash_price as int)
    }

    /// Buy bonds with cash while the price sits below the peg. The
    /// purchase is clamped to the recomputed bond cap, the cash is
    /// burned, and bonds are minted at the discounted price. All or
    /// nothing: on an error every collaborator is unchanged.
    pub fn buy_bonds(
        &mut self,
        cash: &mut Asset,
        bond: &mut Asset,
        share: &Asset,
        oracle: &Oracle,
        boardroom: &Boardroom,
        caller: AccountId,
        period: u32,
        amount: u128,
        target_price: u128,
    ) -> (r: Result<BoughtBonds, TreasuryError>)
        requires
            old(self).wf(),
            old(cash).wf(),
            old(bond).wf(),
        ensures
            final (self).wf(),
            final (cash).wf(),
            final (bond).wf(),
            final (cash).same_config(*old(cash)),
            final (bond).same_config(*old(bond)),
            final (bond).same_allowances(*old(bond)),
            final (self).util == old(self).util,
            final (self).account == old(self).account,
            final (self).room_address == old(self).room_address,
            final (self).accumulated_seigniorage == old(self).accumulated_seigniorage,
            match r {
                Ok(ev) => {
                    &&& old(self).spec_buy_error(
                        *old(cash),
                        *old(bond),
                        *share,
                        *oracle,
                        *boardroom,
                        caller,
                        period,
                        amount,
                        target_price,
                    ) is None
                    &&& ev == (BoughtBonds {
                        from: Some(caller),
                        amount: old(self).spec_clamped_amount(
                            *old(cash),
                            *old(bond),
                            *oracle,
                            amount,
                        ) as u128,
                    })
                    &&& final (self).bond_cap == old(self).spec_bond_cap(
                        *old(cash),
                        *old(bond),
                        oracle.cash_price,
                    )
                    &&& final (self).status@ == old(self).status@.insert((period, caller))
                    &&& {
                        let clamped = old(self).spec_clamped_amount(
                            *old(cash),
                            *old(bond),
                            *oracle,
                            amount,
                        );
                        let payout = old(self).spec_bond_payout(
                            *old(cash),
                            *old(bond),
                            *oracle,
                            amount,
                        );
                        &&& final (cash).total_supply == old(cash).total_supply - clamped
                        &&& final (cash).spec_balance_of(caller) == old(cash).spec_balance_of(
                            caller,
                        ) - clamped
                        &&& forall|a: AccountId|
                            a != caller ==> final (cash).spec_balance_of(a) == old(
                                cash,
                            ).spec_balance_of(a)
                        &&& old(cash).spec_allowance_spent(
                            *final (cash),
                            caller,
                            old(self).account,
                            clamped as u128,
                        )
                        &&& final (bond).total_supply == old(bond).total_supply + payout
                        &&& final (bond).spec_balance_of(caller) == old(bond).spec_balance_of(
                            caller,
                        ) + payout
                        &&& forall|a: AccountId|
                            a != caller ==> final (bond).spec_balance_of(a) == old(
                                bond,
                            ).spec_balance_of(a)
                    }
                },
                Err(e) => {
                    &&& old(self).spec_buy_error(
                        *old(cash),
                        *old(bond),
                        *share,
                        *oracle,
                        *boardroom,
                        caller,
                        period,
                        amount,
                        target_price,
                    ) == Some(e)
                    &&& *final (self) == *old(self)
                    &&& *final (cash) == *old(cash)
                    &&& *final (bond) == *old(bond)
                },
            },
    {
        if !self._check_operator(cash, bond, share, boardroom) {
            return Err(TreasuryError::Permission);
        }
        if self.status.contains(period, caller) {
            return Err(TreasuryError::Rented);
        }
        if amount == 0 {
            return Err(TreasuryError::ZeroAmount);
        }
        let cash_price: u128 = oracle.get_cash_price();
        if cash_price > target_price {
            return Err(TreasuryError::PriceMoved);
        }
        let cash_price_one: u128 = self.util.get_one_unit_with_decimal();
        if cash_price >= cash_price_one {
            return Err(TreasuryError::PriceNotEligible);
        }
        proof {
            lemma_unit_positive(self.util);
        }
        let cash_supply: u128 = cash.total_supply();
        if self.accumulated_seigniorage > cash_supply {
            return Err(TreasuryError::Arithmetic);
        }
        let circulating: u128 = cash_supply - self.accumulated_seigniorage;
        let percentage: u128 = cash_price_one - cash_price;
        let cap_mul: u128 = match circulating.checked_mul(percentage) {
            Some(v) => v,
            None => {
                return Err(TreasuryError::Arithmetic);
            },
        };
        let b_cap: u128 = cap_mul / cash_price_one;
        let bond_supply: u128 = bond.total_supply();
        let new_cap: u128 = b_cap - self.util.math_min(b_cap, bond_supply);
        let mul_value: u128 = match new_cap.checked_mul(cash_price) {
            Some(v) => v,
            None => {
                return Err(TreasuryError::Arithmetic);
            },
        };
        let div_value: u128 = mul_value / cash_price_one;
        let clamped: u128 = self.util.math_min(amount, div_value);
        if clamped == 0 {
            return Err(TreasuryError::ExceedsBondCap);
        }
        let clamped_mul: u128 = match clamped.checked_mul(cash_price_one) {
            Some(v) => v,
            None => {
                return Err(TreasuryError::Arithmetic);
            },
        };
        let payout: u128 = clamped_mul / cash_price;
        if cash.allowance(caller, self.account) < clamped {
            return Err(TreasuryError::Ledger(Error::InsufficientAllowance));
        }
        if cash.balance_of(caller) < clamped {
            return Err(TreasuryError::Ledger(Error::InsufficientBalance));
        }
        if payout > u128::MAX - bond.total_supply() {
            return Err(TreasuryError::Ledger(Error::InvalidValue));
        }
        let this: AccountId = self.account;
        match cash.burn_from(this, caller, clamped) {
            Ok(_) => {},
            Err(e) => {
                proof {
                    assert(false);
                }
                return Err(TreasuryError::Ledger(e));
            },
        }
        match bond.mint(this, caller, payout) {
            Ok(_) => {},
            Err(e) => {
                proof {
                    assert(false);
                }
                return Err(TreasuryError::Ledger(e));
            },
        }
        self.bond_cap = new_cap;
        self.status.set(period, caller);
        Ok(BoughtBonds { from: Some(caller), amount: clamped })
    }

    /// Why `redeem_bonds` would be refused, in the order the checks are
    /// made; `None` when it succeeds.
    pub open spec fn spec_redeem_error(
        self,
        cash: Asset,
        bond: Asset,
        share: Asset,
        oracle: Oracle,
        boardroom: Boardroom,
        caller: AccountId,
        period: u32,
        amount: u128,
    ) -> Option<TreasuryError> {
        if !self.spec_operator_ok(cash, bond, share, boardroom) {
            Some(TreasuryError::Permission)
        } else if self.status@.contains((period, caller)) {
            Some(TreasuryError::Rented)
        } else if amount == 0 {
            Some(TreasuryError::ZeroAmount)
        } else if oracle.cash_price <= spec_ceiling_price(self.util.one_unit_with_decimal) {
            Some(TreasuryError::PriceNotEligible)
        } else if cash.spec_balance_of(self.account) < amount {
            Some(TreasuryError::InsufficientBudget)
        } else if bond.spec_allowance(caller, self.account) < amount {
            Some(TreasuryError::Ledger(Error::InsufficientAllowance))
        } else if bond.spec_balance_of(caller) < amount {
            Some(TreasuryError::Ledger(Error::InsufficientBalance))
        } else {
            None
        }
    }

    /// Redeem bonds for cash, one for one, while the price sits above
    /// the ceiling. The redeemed amount is released from the seigniorage
    /// reserve as far as the reserve covers it, the bonds are burned,
    /// and the cash is paid from the treasury's custody.
    pub fn redeem_bonds(
        &mut self,
        cash: &mut Asset,
        bond: &mut Asset,
        share: &Asset,
        oracle: &Oracle,
        boardroom: &Boardroom,
        caller: AccountId,
        period: u32,
        amount: u128,
    ) -> (r: Result<RedeemedBonds, TreasuryError>)
        requires
            old(self).wf(),
            old(cash).wf(),
            old(bond).wf(),
        ensures
            final (self).wf(),
            final (cash).wf(),
            final (bond).wf(),
            final (cash).same_config(*old(cash)),
            final (cash).same_allowances(*old(cash)),
            final (bond).same_config(*old(bond)),
            final (self).util == old(self).util,
            final (self).account == old(self).account,
            final (self).room_address == old(self).room_address,
            final (self).bond_cap == old(self).bond_cap,
            match r {
                Ok(ev) => {
                    &&& old(self).spec_redeem_error(
                        *old(cash),
                        *old(bond),
                        *share,
                        *oracle,
                        *boardroom,
                        caller,
                        period,
                        amount,
                    ) is None
                    &&& ev == (RedeemedBonds { from: Some(caller), amount: amount })
                    &&& final (self).accumulated_seigniorage == old(self).accumulated_seigniorage
                        - if old(self).accumulated_seigniorage < amount {
                        old(self).accumulated_seigniorage as int
                    } else {
                        amount as int
                    }
                    &&& final (self).status@ == old(self).status@.insert((period, caller))
                    &&& final (bond).total_supply == old(bond).total_supply - amount
                    &&& final (bond).spec_balance_of(caller) == old(bond).spec_balance_of(caller)
                        - amount
                    &&& forall|a: AccountId|
                        a != caller ==> final (bond).spec_balance_of(a) == old(
                            bond,
                        ).spec_balance_of(a)
                    &&& old(bond).spec_allowance_spent(
                        *final (bond),
                        caller,
                        old(self).account,
                        amount,
                    )
                    &&& old(cash).spec_moved(*final (cash), old(self).account, caller, amount)
                },
                Err(e) => {
                    &&& old(self).spec_redeem_error(
                        *old(cash),
                        *old(bond),
                        *share,
                        *oracle,
                        *boardroom,
                        caller,
                        period,
                        amount,
                    ) == Some(e)
                    &&& *final (self) == *old(self)
                    &&& *final (cash) == *old(cash)
                    &&& *final (bond) == *old(bond)
                },
            },
    {
        if !self._check_operator(cash, bond, share, boardroom) {
            return Err(TreasuryError::Permission);
        }
        if self.status.contains(period, caller) {
            return Err(TreasuryError::Rented);
        }
        if amount == 0 {
            return Err(TreasuryError::ZeroAmount);
        }
        let cash_price: u128 = oracle.get_cash_price();
        let ceiling_price: u128 = self.util.get_ceiling_price();
        if cash_price <= ceiling_price {
            return Err(TreasuryError::PriceNotEligible);
        }
        let budget: u128 = self._cash_balance_of_this(cash);
        if budget < amount {
            return Err(TreasuryError::InsufficientBudget);
        }
        if bond.allowance(caller, self.account) < amount {
            return Err(TreasuryError::Ledger(Error::InsufficientAllowance));
        }
        if bond.balance_of(caller) < amount {
            return Err(TreasuryError::Ledger(Error::InsufficientBalance));
        }
        let released: u128 = self.util.math_min(self.accumulated_seigniorage, amount);
        self.accumulated_seigniorage = self.accumulated_seigniorage - released;
        let this: AccountId = self.account;
        match bond.burn_from(this, caller, amount) {
            Ok(_) => {},
            Err(e) => {
                proof {
                    assert(false);
                }
                return Err(TreasuryError::Ledger(e));
            },
        }
        match cash.transfer(this, caller, amount) {
            Ok(_) => {},
            Err(e) => {
                proof {
                    assert(false);
                }
                return Err(TreasuryError::Ledger(e));
            },
        }
        self.status.set(period, caller);
        Ok(RedeemedBonds { from: Some(caller), amount })
    }

    /// The seigniorage owed at the current price: the circulating supply
    /// scaled by the deviation above the peg, rounded down.
    pub open spec fn spec_seigniorage(self, cash: Asset, oracle: Oracle) -> int {
        (self.spec_circulating(cash) * (oracle.cash_price - self.util.one_unit_with_decimal)) / (
        self.util.one_unit_with_decimal as int)
    }

    /// How much of the seigniorage bonds could still absorb:
    /// `min(seigniorage, bond supply - reserve)`.
    pub open spec fn spec_reserve_candidate(self, cash: Asset, bond: Asset, oracle: Oracle) -> int {
        let seigniorage = self.spec_seigniorage(cash, oracle);
        let room = bond.total_supply - self.accumulated_seigniorage;
        if seigniorage < room {
            seigniorage
        } else {
            room
        }
    }

    /// What is actually reserved: the candidate, cut to 80% of itself
    /// when bonds would absorb the whole seigniorage, so that some flow
    /// always continues to the stakers.
    pub open spec fn spec_treasury_reserve(self, cash: Asset, bond: Asset, oracle: Oracle) -> int {
        let candidate = self.spec_reserve_candidate(cash, bond, oracle);
        if candidate == self.spec_seigniorage(cash, oracle) {
            (candidate * 80) / 100
        } else {
            candidate
        }
    }

    /// What flows to the boardroom: the seigniorage less the reserve.
    pub open spec fn spec_boardroom_reserve(self, cash: Asset, bond: Asset, oracle: Oracle) -> int {
        self.spec_seigniorage(cash, oracle) - self.spec_treasury_reserve(cash, bond, oracle)
    }

    /// Why `allocate_seigniorage` would be refused, in the order the
    /// checks are made; `None` when it succeeds.
    pub open spec fn spec_allocate_error(
        self,
        cash: Asset,
        bond: Asset,
        share: Asset,
        oracle: Oracle,
        boardroom: Boardroom,
        caller: AccountId,
        period: u32,
    ) -> Option<TreasuryError> {
        let unit = self.util.one_unit_with_decimal;
        let seigniorage = self.spec_seigniorage(cash, oracle);
        let candidate = self.spec_reserve_candidate(cash, bond, oracle);
        let reserve = self.spec_treasury_reserve(cash, bond, oracle);
        let room_reserve = self.spec_boardroom_reserve(cash, bond, oracle);
        if !self.spec_operator_ok(cash, bond, share, boardroom) {
            Some(TreasuryError::Permission)
        } else if self.status@.contains((period, caller)) {
            Some(TreasuryError::Rented)
        } else if oracle.cash_price <= spec_ceiling_price(unit) {
            Some(TreasuryError::PriceNotEligible)
        } else if self.accumulated_seigniorage > cash.total_supply {
            Some(TreasuryError::Arithmetic)
        } else if self.spec_circulating(cash) * (oracle.cash_price - unit) > u128::MAX {
            Some(TreasuryError::Arithmetic)
        } else if seigniorage == 0 {
            Some(TreasuryError::ZeroSeigniorage)
        } else if cash.total_supply + seigniorage > u128::MAX {
            Some(TreasuryError::Ledger(Error::InvalidValue))
        } else if bond.total_supply < self.accumulated_seigniorage {
            Some(TreasuryError::Arithmetic)
        } else if candidate == seigniorage && candidate * 80 > u128::MAX {
            Some(TreasuryError::Arithmetic)
        } else if room_reserve > 0 && boardroom.status@.contains((period, self.account)) {
            Some(TreasuryError::Boardroom(BoardroomError::Rented))
        } else if room_reserve > 0 && boardroom.stake_total == 0 {
            Some(TreasuryError::Boardroom(BoardroomError::TotalZero))
        } else if room_reserve > 0 && room_reserve * boardroom.util.one_unit_with_decimal
            > u128::MAX {
            Some(TreasuryError::Boardroom(BoardroomError::Arithmetic))
        } else if room_reserve > 0 && boardroom.spec_latest_rps() + (room_reserve
            * boardroom.util.one_unit_with_decimal) / (boardroom.stake_total as int)
            > u128::MAX {
            Some(TreasuryError::Boardroom(BoardroomError::Arithmetic))
        } else {
            None
        }
    }

    /// Seigniorage split: when outstanding bonds would absorb the whole
    /// seigniorage, only 80% of it (rounded down) is actually reserved,
    /// and the remaining 20% — plus, in general, anything beyond what
    /// bonds absorb — flows to the boardroom.
    pub proof fn lemma_seigniorage_split(self, cash: Asset, bond: Asset, oracle: Oracle)
        ensures
            self.spec_reserve_candidate(cash, bond, oracle) == self.spec_seigniorage(cash, oracle)
                ==> self.spec_treasury_reserve(cash, bond, oracle) == (self.spec_seigniorage(
                cash,
                oracle,
            ) * 80) / 100,
            self.spec_boardroom_reserve(cash, bond, oracle) == self.spec_seigniorage(cash, oracle)
                - self.spec_treasury_reserve(cash, bond, oracle),
            self.spec_reserve_candidate(cash, bond, oracle) != self.spec_seigniorage(cash, oracle)
                ==> self.spec_treasury_reserve(cash, bond, oracle) == self.spec_reserve_candidate(
                cash,
                bond,
                oracle,
            ),
    {
    }

    /// The reserve never outgrows the bonds it backs: whenever an
    /// allocation is accepted, the new `accumulated_seigniorage` still
    /// fits under the bond supply.
    pub proof fn lemma_reserve_stays_within_bonds(
        self,
        cash: Asset,
        bond: Asset,
        share: Asset,
        oracle: Oracle,
        boardroom: Boardroom,
        caller: AccountId,
        period: u32,
    )
        requires
            self.wf(),
            self.spec_allocate_error(cash, bond, share, oracle, boardroom, caller, period)
                is None,
        ensures
            self.accumulated_seigniorage + self.spec_treasury_reserve(cash, bond, oracle)
                <= bond.total_supply,
    {
        lemma_unit_positive(self.util);
        let unit = self.util.one_unit_with_decimal as int;
        let circ = self.spec_circulating(cash);
        let pct = oracle.cash_price - self.util.one_unit_with_decimal;
        assert(circ * pct >= 0) by (nonlinear_arith)
            requires
                circ >= 0,
                pct >= 0,
        ;
        assert((circ * pct) / unit >= 0) by (nonlinear_arith)
            requires
                circ * pct >= 0,
                unit >= 1,
        ;
        let candidate = self.spec_reserve_candidate(cash, bond, oracle);
        if candidate == self.spec_seigniorage(cash, oracle) {
            assert((candidate * 80) / 100 <= (candidate * 100) / 100) by (nonlinear_arith)
                requires
                    candidate >= 0,
            ;
            assert((candidate * 100) / 100 == candidate) by (nonlinear_arith);
        }
    }

    /// Mint and distribute seigniorage while the price sits above the
    /// ceiling: mint `circulating * (price - unit) / unit` new cash to
    /// the treasury, reserve what outstanding bonds can absorb (cut to
    /// 80% when they would absorb all of it), and allocate the rest to
    /// the boardroom's stakers. All or nothing.
    pub fn allocate_seigniorage(
        &mut self,
        cash: &mut Asset,
        bond: &Asset,
        share: &Asset,
        oracle: &Oracle,
        boardroom: &mut Boardroom,
        caller: AccountId,
        now: u64,
        period: u32,
    ) -> (r: Result<(Option<TreasuryFunded>, Option<BoardroomFunded>), TreasuryError>)
        requires
            old(self).wf(),
            old(cash).wf(),
            old(boardroom).wf(),
            old(boardroom).account == old(self).room_address,
        ensures
            final (self).wf(),
            final (cash).wf(),
            final (boardroom).wf(),
            final (cash).same_config(*old(cash)),
            final (self).util == old(self).util,
            final (self).account == old(self).account,
            final (self).room_address == old(self).room_address,
            final (self).bond_cap == old(self).bond_cap,
            final (boardroom).util == old(boardroom).util,
            final (boardroom).account == old(boardroom).account,
            final (boardroom).operator == old(boardroom).operator,
            final (boardroom).stake_total == old(boardroom).stake_total,
            final (boardroom).balances == old(boardroom).balances,
            final (boardroom).directors == old(boardroom).directors,
            match r {
                Ok(ev) => {
                    &&& old(self).spec_allocate_error(
                        *old(cash),
                        *bond,
                        *share,
                        *oracle,
                        *old(boardroom),
                        caller,
                        period,
                    ) is None
                    &&& {
                        let seigniorage = old(self).spec_seigniorage(*old(cash), *oracle);
                        let candidate = old(self).spec_reserve_candidate(
                            *old(cash),
                            *bond,
                            *oracle,
                        );
                        let reserve = old(self).spec_treasury_reserve(*old(cash), *bond, *oracle);
                        let room_reserve = old(self).spec_boardroom_reserve(
                            *old(cash),
                            *bond,
                            *oracle,
                        );
                        let this = old(self).account;
                        let room = old(boardroom).account;
                        &&& final (self).accumulated_seigniorage == old(
                            self,
                        ).accumulated_seigniorage + reserve
                        &&& final (self).status@ == old(self).status@.insert((period, caller))
                        &&& ev.0 == if candidate > 0 {
                            Some(
                                TreasuryFunded { timestamp: now, seigniorage: reserve as u128 },
                            )
                        } else {
                            None::<TreasuryFunded>
                        }
                        &&& ev.1 == if room_reserve > 0 {
                            Some(
                                BoardroomFunded {
                                    timestamp: now,
                                    seigniorage: room_reserve as u128,
                                },
                            )
                        } else {
                            None::<BoardroomFunded>
                        }
                        &&& final (cash).total_supply == old(cash).total_supply + seigniorage
                        &&& if room_reserve > 0 {
                            &&& final (boardroom).board_history@ == old(
                                boardroom,
                            ).board_history@.push(
                                old(boardroom).spec_next_snapshot(now, room_reserve as u128),
                            )
                            &&& final (boardroom).status@ == old(boardroom).status@.insert(
                                (period, this),
                            )
                            &&& if this == room {
                                &&& final (cash).spec_balance_of(this) == old(
                                    cash,
                                ).spec_balance_of(this) + seigniorage
                                &&& forall|a: AccountId|
                                    a != this ==> final (cash).spec_balance_of(a) == old(
                                        cash,
                                    ).spec_balance_of(a)
                            } else {
                                &&& final (cash).spec_balance_of(this) == old(
                                    cash,
                                ).spec_balance_of(this) + seigniorage - room_reserve
                                &&& final (cash).spec_balance_of(room) == old(
                                    cash,
                                ).spec_balance_of(room) + room_reserve
                                &&& forall|a: AccountId|
                                    a != this && a != room ==> final (cash).spec_balance_of(a)
                                        == old(cash).spec_balance_of(a)
                            }
                            &&& final (cash).spec_allowance(this, room) == 0
                            &&& forall|o: AccountId, s: AccountId|
                                !(o == this && s == room) ==> final (cash).spec_allowance(o, s)
                                    == old(cash).spec_allowance(o, s)
                        } else {
                            &&& *final (boardroom) == *old(boardroom)
                            &&& final (cash).spec_balance_of(this) == old(cash).spec_balance_of(
                                this,
                            ) + seigniorage
                            &&& forall|a: AccountId|
                                a != this ==> final (cash).spec_balance_of(a) == old(
                                    cash,
                                ).spec_balance_of(a)
                            &&& final (cash).same_allowances(*old(cash))
                        }
                    }
                },
                Err(e) => {
                    &&& old(self).spec_allocate_error(
                        *old(cash),
                        *bond,
                        *share,
                        *oracle,
                        *old(boardroom),
                        caller,
                        period,
                    ) == Some(e)
                    &&& *final (self) == *old(self)
                    &&& *final (cash) == *old(cash)
                    &&& *final (boardroom) == *old(boardroom)
                },
            },
    {
        if !self._check_operator(cash, bond, share, boardroom) {
            return Err(TreasuryError::Permission);
        }
        if self.status.contains(period, caller) {
            return Err(TreasuryError::Rented);
        }
        let cash_price: u128 = oracle.get_cash_price();
        let ceiling_price: u128 = self.util.get_ceiling_price();
        if cash_price <= ceiling_price {
            return Err(TreasuryError::PriceNotEligible);
        }
        proof {
            lemma_unit_positive(self.util);
        }
        let cash_price_one: u128 = self.util.get_one_unit_with_decimal();
        let cash_supply: u128 = cash.total_supply();
        if self.accumulated_seigniorage > cash_supply {
            return Err(TreasuryError::Arithmetic);
        }
        let circulating: u128 = cash_supply - self.accumulated_seigniorage;
        let percentage: u128 = cash_price - cash_price_one;
        let seigniorage_mul: u128 = match circulating.checked_mul(percentage) {
            Some(v) => v,
            None => {
                return Err(TreasuryError::Arithmetic);
            },
        };
        let seigniorage: u128 = seigniorage_mul / cash_price_one;
        if seigniorage == 0 {
            return Err(TreasuryError::ZeroSeigniorage);
        }
        if seigniorage > u128::MAX - cash_supply {
            return Err(TreasuryError::Ledger(Error::InvalidValue));
        }
        let bond_total: u128 = bond.total_supply();
        if bond_total < self.accumulated_seigniorage {
            return Err(TreasuryError::Arithmetic);
        }
        let bond_room: u128 = bond_total - self.accumulated_seigniorage;
        let candidate: u128 = self.util.math_min(seigniorage, bond_room);
        let treasury_reserve: u128 = if candidate == seigniorage {
            match candidate.checked_mul(80) {
                Some(m) => m / 100,
                None => {
                    return Err(TreasuryError::Arithmetic);
                },
            }
        } else {
            candidate
        };
        proof {
            assert(treasury_reserve <= candidate) by {
                if candidate == seigniorage {
                    assert((candidate * 80) / 100 <= (candidate * 100) / 100) by (
                    nonlinear_arith);
                    assert((candidate * 100) / 100 == candidate) by (nonlinear_arith);
                }
            }
        }
        let boardroom_reserve: u128 = seigniorage - treasury_reserve;
        let this: AccountId = self.account;
        if boardroom_reserve > 0 {
            if boardroom.status.contains(period, this) {
                return Err(TreasuryError::Boardroom(BoardroomError::Rented));
            }
            let stake_total: u128 = boardroom.total_supply();
            if stake_total == 0 {
                return Err(TreasuryError::Boardroom(BoardroomError::TotalZero));
            }
            let room_unit: u128 = boardroom.util.get_one_unit_with_decimal();
            let room_mul: u128 = match boardroom_reserve.checked_mul(room_unit) {
                Some(v) => v,
                None => {
                    return Err(TreasuryError::Boardroom(BoardroomError::Arithmetic));
                },
            };
            let room_div: u128 = room_mul / stake_total;
            let prev_rps: u128 = boardroom.reward_per_share();
            if room_div > u128::MAX - prev_rps {
                return Err(TreasuryError::Boardroom(BoardroomError::Arithmetic));
            }
        }
        match cash.mint(this, this, seigniorage) {
            Ok(_) => {},
            Err(e) => {
                proof {
                    assert(false);
                }
                return Err(TreasuryError::Ledger(e));
            },
        }
        self.accumulated_seigniorage = self.accumulated_seigniorage + treasury_reserve;
        let funded_treasury: Option<TreasuryFunded> = if candidate > 0 {
            Some(TreasuryFunded { timestamp: now, seigniorage: treasury_reserve })
        } else {
            None
        };
        let funded_boardroom: Option<BoardroomFunded> = if boardroom_reserve > 0 {
            match cash.approve(this, self.room_address, boardroom_reserve) {
                Ok(_) => {},
                Err(_) => {
                    proof {
                        assert(false);
                    }
                },
            }
            match boardroom.allocate_seigniorage(cash, this, now, period, boardroom_reserve) {
                Ok(_ra) => {},
                Err(e) => {
                    proof {
                        assert(false);
                    }
                    return Err(TreasuryError::Boardroom(e));
                },
            }
            Some(BoardroomFunded { timestamp: now, seigniorage: boardroom_reserve })
        } else {
            None
        };
        self.status.set(period, caller);
        Ok((funded_treasury, funded_boardroom))
    }
}

} // verus!
