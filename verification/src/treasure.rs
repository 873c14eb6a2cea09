//! A reduced, self-contained variant of the treasury that keeps only
//! its own bookkeeping: it prices bond purchases against its stored cap
//! and releases its seigniorage reserve on redemption, but holds no
//! ledgers of its own, so a redemption never finds any budget and a
//! purchase moves no tokens.
use vstd::prelude::*;

use crate::oracle::Oracle;
use crate::AccountId;

verus! {

/// Payload of the event emitted when a holder redeems bonds.
#[derive(Debug, Clone, Copy, PartialEq, Eq)]
pub struct RedeemedBonds {
    pub from: Option<AccountId>,
    pub amount: u128,
}

/// Payload of the event emitted when a buyer purchases bonds.
#[derive(Debug, Clone, Copy, PartialEq, Eq)]
pub struct BoughtBonds {
    pub from: Option<AccountId>,
    pub amount: u128,
}

/// Why an operation was refused; the state is then unchanged.
#[derive(Debug, Clone, Copy, PartialEq, Eq, Structural)]
pub enum TreasureError {
    /// The amount must be positive.
    ZeroAmount,
    /// The cash price moved above the caller's target price.
    PriceMoved,
    /// The cash price is not in the regime this operation needs.
    PriceNotEligible,
    /// The bond cap leaves nothing to purchase.
    ExceedsBondCap,
    /// The cash custody cannot cover the redemption.
    InsufficientBudget,
    /// A checked arithmetic step would overflow.
    Arithmetic,
}

pub struct Treasure {
    /// The bond-purchase capacity.
    pub bond_cap: u128,
    /// The fixed-point unit, handed in at construction.
    pub decimal: u128,
    /// The peg price, equal to one unit.
    pub cash_price_one: u128,
    /// Seigniorage reserved to back outstanding bonds.
    pub accumulated_seigniorage: u128,
    /// The price above which bonds may be redeemed.
    pub ceiling_price: u128,
}

impl Treasure {
    /// A fresh instance; the ceiling price is five percent above the
    /// peg, rounded down in hundredths of the unit.
    pub fn new(decimal: u128) -> (t: Treasure)
        requires
            5 * decimal <= u128::MAX,
            decimal + (5 * decimal) / 100 <= u128::MAX,
        ensures
            t.bond_cap == 0,
            t.decimal == decimal,
            t.cash_price_one == decimal,
            t.accumulated_seigniorage == 0,
            t.ceiling_price == decimal + (5 * decimal) / 100,
    {
        Treasure {
            bond_cap: 0,
            decimal,
            cash_price_one: decimal,
            accumulated_seigniorage: 0,
            ceiling_price: decimal + 5 * decimal / 100,
        }
    }

    /// The cash this instance holds in custody: none, as it keeps no
    /// ledger.
    fn _cash_balance_of_this(&self) -> (r: u128)
        ensures
            r == 0,
    {
        0
    }

    fn _min(&self, a: u128, b: u128) -> (m: u128)
        ensures
            m == if a < b {
                a
            } else {
                b
            },
    {
        if a < b {
            return a;
        }
        b
    }

    /// Recompute the conversion limit for `cash_price`. With no ledgers
    /// to read, only the deviation is computed and the cap is left as
    /// it is.
    fn _update_conversion_limit(&mut self, cash_price: u128)
        requires
            cash_price <= old(self).cash_price_one,
        ensures
            *final (self) == *old(self),
    {
        let _percentage: u128 = self.cash_price_one - cash_price;
    }

    /// Why `buy_bonds` would be refused, in the order the checks are
    /// made; `None` when it succeeds.
    pub open spec fn spec_buy_error(
        self,
        oracle: Oracle,
        amount: u128,
        target_price: u128,
    ) -> Option<TreasureError> {
        let price = oracle.cash_price;
        let clamped = self.spec_clamped_amount(oracle, amount);
        if amount == 0 {
            Some(TreasureError::ZeroAmount)
        } else if price > target_price {
            Some(TreasureError::PriceMoved)
        } else if price >= self.cash_price_one {
            Some(TreasureError::PriceNotEligible)
        } else if self.bond_cap * price > u128::MAX {
            Some(TreasureError::Arithmetic)
        } else if self.decimal == 0 {
            Some(TreasureError::Arithmetic)
        } else if clamped == 0 {
            Some(TreasureError::ExceedsBondCap)
        } else if clamped * self.decimal > u128::MAX {
            Some(TreasureError::Arithmetic)
        } else {
            None
        }
    }

    /// The purchase after clamping at the cap's worth of cash.
    pub open spec fn spec_clamped_amount(self, oracle: Oracle, amount: u128) -> int {
        let worth = (self.bond_cap * oracle.cash_price) / (self.decimal as int);
        if amount < worth {
            amount as int
        } else {
            worth
        }
    }

    /// Price a bond purchase below the peg against the stored cap. No
    /// tokens move; the state never changes, and the event reports the
    /// clamped amount.
    pub fn buy_bonds(
        &mut self,
        oracle: &Oracle,
        caller: AccountId,
        amount: u128,
        target_price: u128,
    ) -> (r: Result<BoughtBonds, TreasureError>)
        ensures
            *final (self) == *old(self),
            match r {
                Ok(ev) => old(self).spec_buy_error(*oracle, amount, target_price) is None && ev
                    == (BoughtBonds {
                    from: Some(caller),
                    amount: old(self).spec_clamped_amount(*oracle, amount) as u128,
                }),
                Err(e) => old(self).spec_buy_error(*oracle, amount, target_price) == Some(e),
            },
    {
        if amount == 0 {
            return Err(TreasureError::ZeroAmount);
        }
        let cash_price: u128 = oracle.get_cash_price();
        if cash_price > target_price {
            return Err(TreasureError::PriceMoved);
        }
        if cash_price >= self.cash_price_one {
            return Err(TreasureError::PriceNotEligible);
        }
        self._update_conversion_limit(cash_price);
        let mul_value: u128 = match self.bond_cap.checked_mul(cash_price) {
            Some(v) => v,
            None => {
                return Err(TreasureError::Arithmetic);
            },
        };
        if self.decimal == 0 {
            return Err(TreasureError::Arithmetic);
        }
        let div_value: u128 = mul_value / self.decimal;
        let clamped: u128 = self._min(amount, div_value);
        if clamped == 0 {
            return Err(TreasureError::ExceedsBondCap);
        }
        let clamped_mul: u128 = match clamped.checked_mul(self.decimal) {
            Some(v) => v,
            None => {
                return Err(TreasureError::Arithmetic);
            },
        };
        let _div_value: u128 = clamped_mul / cash_price;
        Ok(BoughtBonds { from: Some(caller), amount: clamped })
    }

    /// Why `redeem_bonds` would be refused. With no cash custody, any
    /// positive redemption in the eligible price regime still finds no
    /// budget, so the operation never succeeds.
    pub open spec fn spec_redeem_error(self, oracle: Oracle, amount: u128) -> TreasureError {
        if amount == 0 {
            TreasureError::ZeroAmount
        } else if oracle.cash_price <= self.ceiling_price {
            TreasureError::PriceNotEligible
        } else {
            TreasureError::InsufficientBudget
        }
    }

    /// Redeem bonds above the ceiling price. This variant holds no
    /// cash, so the budget check always refuses the request and the
    /// state never changes.
    pub fn redeem_bonds(&mut self, oracle: &Oracle, caller: AccountId, amount: u128) -> (r: Result<
        RedeemedBonds,
        TreasureError,
    >)
        ensures
            *final (self) == *old(self),
            match r {
                Ok(ev) => false,
                Err(e) => e == old(self).spec_redeem_error(*oracle, amount),
            },
    {
        if amount == 0 {
            return Err(TreasureError::ZeroAmount);
        }
        let cash_price: u128 = oracle.get_cash_price();
        if cash_price <= self.ceiling_price {
            return Err(TreasureError::PriceNotEligible);
        }
        let budget: u128 = self._cash_balance_of_this();
        if budget < amount {
            return Err(TreasureError::InsufficientBudget);
        }
        let released: u128 = self._min(self.accumulated_seigniorage, amount);
        self.accumulated_seigniorage = self.accumulated_seigniorage - released;
        Ok(RedeemedBonds { from: Some(caller), amount })
    }
}

} // verus!
