//! The price oracle: stores the cash price, which only its operator may
//! update, and no more often than the minimum interval of one timestamp
//! tick between updates.
use vstd::prelude::*;

use crate::AccountId;

verus! {

pub struct Oracle {
    pub operator: AccountId,
    pub cash_price: u128,
    pub last_update_time_stamp: u32,
}

impl Oracle {
    /// A fresh oracle, operated by its deployer, with no price yet.
    pub fn new(caller: AccountId) -> (o: Oracle)
        ensures
            o.operator == caller,
            o.cash_price == 0,
            o.last_update_time_stamp == 0,
    {
        Oracle { operator: caller, cash_price: 0, last_update_time_stamp: 0 }
    }

    /// Whether `caller` is the operator of this oracle.
    pub fn _only_operator(&self, caller: AccountId) -> (r: bool)
        ensures
            r == (caller == self.operator),
    {
        self.operator == caller
    }

    /// Hand the oracle to a new operator. Only the operator may do so.
    pub fn transfer_operator(&mut self, caller: AccountId, new_operator: AccountId)
        requires
            caller == old(self).operator,
        ensures
            final (self).operator == new_operator,
            final (self).cash_price == old(self).cash_price,
            final (self).last_update_time_stamp == old(self).last_update_time_stamp,
    {
        self.operator = new_operator;
    }

    pub fn operator(&self) -> (r: AccountId)
        ensures
            r == self.operator,
    {
        self.operator
    }

    pub fn get_cash_price(&self) -> (p: u128)
        ensures
            p == self.cash_price,
    {
        self.cash_price
    }

    /// Record a new price. Only the operator may update, and the new
    /// timestamp must lie more than one tick past the previous one.
    pub fn update_cash_price(&mut self, caller: AccountId, price: u128, ts: u32)
        requires
            caller == old(self).operator,
            ts > old(self).last_update_time_stamp + 1,
        ensures
            final (self).cash_price == price,
            final (self).last_update_time_stamp == ts,
            final (self).operator == old(self).operator,
    {
        self.cash_price = price;
        self.last_update_time_stamp = ts;
    }
}

} // verus!
