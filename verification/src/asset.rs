//! The fungible token ledger, instantiated three times in the system (the
//! cash, bond and share tokens). It keeps per-account balances whose sum
//! always equals the total supply, per-(owner, spender) allowances, and an
//! operator who alone may mint and burn third-party holdings.
use vstd::prelude::*;

use crate::account_map::lemma_sum_bounds_value;
use crate::account_map::lemma_sum_insert_absent;
use crate::account_map::lemma_sum_update;
use crate::account_map::AccountMap;
use crate::AccountId;
use crate::Balance;

verus! {

/// Payload of the event emitted when tokens move (a `None` endpoint
/// stands for minting or burning).
#[derive(Debug, Clone, Copy, PartialEq, Eq)]
pub struct Transfer {
    pub from: Option<AccountId>,
    pub to: Option<AccountId>,
    pub value: Balance,
}

/// Payload of the event emitted when `owner` allows `spender` to draw up
/// to `value` tokens.
#[derive(Debug, Clone, Copy, PartialEq, Eq)]
pub struct Approval {
    pub owner: AccountId,
    pub spender: AccountId,
    pub value: Balance,
}

/// The ledger's error values.
#[derive(Debug, Clone, Copy, PartialEq, Eq, Structural)]
pub enum Error {
    /// The holder's balance cannot cover the request.
    InsufficientBalance,
    /// The spender's allowance cannot cover the request.
    InsufficientAllowance,
    /// The requested change would not fit the ledger's arithmetic.
    InvalidValue,
}

/// Allowances, keyed by `(owner, spender)`.
pub struct AllowanceTable {
    entries: Vec<((AccountId, AccountId), u128)>,
}

impl View for AllowanceTable {
    type V = Map<(AccountId, AccountId), u128>;

    closed spec fn view(&self) -> Map<(AccountId, AccountId), u128> {
        Map::new(
            |k: (AccountId, AccountId)|
                exists|i: int| 0 <= i < self.entries@.len() && self.entries@[i].0 == k,
            |k: (AccountId, AccountId)| self.entries@[self.spec_index_of(k)].1,
        )
    }
}

impl AllowanceTable {
    spec fn spec_index_of(self, k: (AccountId, AccountId)) -> int {
        choose|i: int| 0 <= i < self.entries@.len() && self.entries@[i].0 == k
    }

    /// Keys are pairwise distinct.
    pub closed spec fn wf(self) -> bool {
        forall|i: int, j: int|
            0 <= i < j < self.entries@.len() ==> (#[trigger] self.entries@[i]).0 != (
            #[trigger] self.entries@[j]).0
    }

    pub fn new() -> (t: AllowanceTable)
        ensures
            t@ == Map::<(AccountId, AccountId), u128>::empty(),
            t.wf(),
    {
        let t = AllowanceTable { entries: Vec::new() };
        proof {
            assert(t@ =~= Map::<(AccountId, AccountId), u128>::empty());
        }
        t
    }

    fn index_of(&self, owner: AccountId, spender: AccountId) -> (r: Option<usize>)
        ensures
            match r {
                Some(i) => 0 <= i < self.entries@.len() && self.entries@[i as int].0 == (
                owner,
                spender,
                ),
                None => !self@.contains_key((owner, spender)),
            },
    {
        let n: usize = self.entries.len();
        let mut i: usize = 0;
        while i < n
            invariant
                0 <= i <= n,
                n == self.entries@.len(),
                forall|j: int| 0 <= j < i ==> (#[trigger] self.entries@[j]).0 != (owner, spender),
            decreases n - i,
        {
            let e: ((AccountId, AccountId), u128) = self.entries[i];
            if e.0.0 == owner && e.0.1 == spender {
                return Some(i);
            }
            i = i + 1;
        }
        None
    }

    /// The allowance granted by `owner` to `spender`; zero if none was
    /// ever set.
    pub fn amount(&self, owner: AccountId, spender: AccountId) -> (r: u128)
        requires
            self.wf(),
        ensures
            r == if self@.contains_key((owner, spender)) {
                self@[(owner, spender)]
            } else {
                0
            },
    {
        match self.index_of(owner, spender) {
            Some(i) => {
                proof {
                    let k = (owner, spender);
                    assert(self@.contains_key(k));
                    let j = self.spec_index_of(k);
                    if i as int != j {
                        assert(false);
                    }
                }
                self.entries[i].1
            },
            None => 0,
        }
    }

    /// Set the allowance of `(owner, spender)`.
    pub fn set(&mut self, owner: AccountId, spender: AccountId, value: u128)
        requires
            old(self).wf(),
        ensures
            final (self).wf(),
            final (self)@ == old(self)@.insert((owner, spender), value),
    {
        let k_new: (AccountId, AccountId) = (owner, spender);
        match self.index_of(owner, spender) {
            Some(i) => {
                self.entries.set(i, (k_new, value));
                proof {
                    let pre = *old(self);
                    let ii = i as int;
                    assert(self.wf());
                    assert forall|x: (AccountId, AccountId)| self@.contains_key(x) implies
                        pre@.insert(k_new, value).contains_key(x) by {
                        let n = choose|n: int|
                            0 <= n < self.entries@.len() && self.entries@[n].0 == x;
                        if n != ii {
                            assert(pre.entries@[n].0 == x);
                        }
                    }
                    assert forall|x: (AccountId, AccountId)|
                        pre@.insert(k_new, value).contains_key(x) implies self@.contains_key(x) by {
                        if x == k_new {
                            assert(self.entries@[ii].0 == x);
                        } else {
                            let n = choose|n: int|
                                0 <= n < pre.entries@.len() && pre.entries@[n].0 == x;
                            assert(self.entries@[n].0 == x);
                        }
                    }
                    assert forall|x: (AccountId, AccountId)| self@.contains_key(x) implies self@[x]
                        == pre@.insert(k_new, value)[x] by {
                        let n = self.spec_index_of(x);
                        assert(0 <= n < self.entries@.len() && self.entries@[n].0 == x);
                        if x == k_new {
                            if n != ii {
                                assert(pre.entries@[n].0 == x);
                                assert(false);
                            }
                        } else {
                            assert(n != ii);
                            assert(pre.entries@[n].0 == x);
                            let m = pre.spec_index_of(x);
                            if m != n {
                                assert(false);
                            }
                        }
                    }
                    assert(self@ =~= pre@.insert(k_new, value));
                }
            },
            None => {
                self.entries.push((k_new, value));
                proof {
                    let pre = *old(self);
                    let oldlen = pre.entries@.len() as int;
                    assert forall|a: int, b: int|
                        0 <= a < b < self.entries@.len() implies (#[trigger] self.entries@[a]).0
                        != (#[trigger] self.entries@[b]).0 by {
                        if b == oldlen {
                            assert(self.entries@[a] == pre.entries@[a]);
                            if pre.entries@[a].0 == k_new {
                                assert(pre@.contains_key(k_new));
                            }
                        }
                    }
                    assert(self.entries@[oldlen].0 == k_new);
                    assert forall|x: (AccountId, AccountId)| self@.contains_key(x) implies
                        pre@.insert(k_new, value).contains_key(x) by {
                        let n = choose|n: int|
                            0 <= n < self.entries@.len() && self.entries@[n].0 == x;
                        if n < oldlen {
                            assert(pre.entries@[n].0 == x);
                        }
                    }
                    assert forall|x: (AccountId, AccountId)|
                        pre@.insert(k_new, value).contains_key(x) implies self@.contains_key(x) by {
                        if x != k_new {
                            let n = choose|n: int|
                                0 <= n < pre.entries@.len() && pre.entries@[n].0 == x;
                            assert(self.entries@[n].0 == x);
                        }
                    }
                    assert forall|x: (AccountId, AccountId)| self@.contains_key(x) implies self@[x]
                        == pre@.insert(k_new, value)[x] by {
                        let n = self.spec_index_of(x);
                        assert(0 <= n < self.entries@.len() && self.entries@[n].0 == x);
                        if x == k_new {
                            if n != oldlen {
                                assert(pre.entries@[n].0 == x);
                                assert(pre@.contains_key(k_new));
                                assert(false);
                            }
                        } else {
                            assert(n != oldlen);
                            assert(pre.entries@[n].0 == x);
                            let m = pre.spec_index_of(x);
                            if m != n {
                                assert(false);
                            }
                        }
                    }
                    assert(self@ =~= pre@.insert(k_new, value));
                }
            },
        }
    }
}

/// One fungible token ledger.
pub struct Asset {
    pub name: Option<String>,
    pub symbol: Option<String>,
    pub decimals: Option<u8>,
    pub total_supply: Balance,
    pub balances: AccountMap<Balance>,
    pub operator: AccountId,
    pub allowances: AllowanceTable,
}

impl Asset {
    /// Balances and allowances are well-formed maps, and the balances sum
    /// to the total supply.
    pub open spec fn wf(self) -> bool {
        &&& self.balances.wf()
        &&& self.allowances.wf()
        &&& self.balances.total() == self.total_supply
    }

    /// The balance of `owner`; zero for an account never seen.
    pub open spec fn spec_balance_of(self, owner: AccountId) -> Balance {
        if self.balances@.contains_key(owner) {
            self.balances@[owner]
        } else {
            0
        }
    }

    /// The allowance `spender` may still draw from `owner`; zero if none
    /// was ever approved.
    pub open spec fn spec_allowance(self, owner: AccountId, spender: AccountId) -> Balance {
        if self.allowances@.contains_key((owner, spender)) {
            self.allowances@[(owner, spender)]
        } else {
            0
        }
    }

    /// Same name, symbol, decimals and operator.
    pub open spec fn same_config(self, other: Asset) -> bool {
        &&& self.name == other.name
        &&& self.symbol == other.symbol
        &&& self.decimals == other.decimals
        &&& self.operator == other.operator
    }

    /// Pointwise equal balances and equal supply.
    pub open spec fn same_holdings(self, other: Asset) -> bool {
        &&& self.total_supply == other.total_supply
        &&& forall|a: AccountId| self.spec_balance_of(a) == other.spec_balance_of(a)
    }

    /// Pointwise equal allowances.
    pub open spec fn same_allowances(self, other: Asset) -> bool {
        forall|o: AccountId, s: AccountId| self.spec_allowance(o, s) == other.spec_allowance(o, s)
    }

    /// `post` is `self` after `value` tokens moved from `from` to `to`
    /// (a self-transfer moves nothing): the shape of a successful
    /// `transfer` or `transfer_from`.
    pub open spec fn spec_moved(
        self,
        post: Asset,
        from: AccountId,
        to: AccountId,
        value: Balance,
    ) -> bool {
        &&& forall|a: AccountId|
            a != from && a != to ==> post.spec_balance_of(a) == self.spec_balance_of(a)
        &&& if from == to {
            post.spec_balance_of(from) == self.spec_balance_of(from)
        } else {
            post.spec_balance_of(from) == self.spec_balance_of(from) - value
                && post.spec_balance_of(to) == self.spec_balance_of(to) + value
        }
        &&& post.total_supply == self.total_supply
    }

    /// `post`'s allowances are `self`'s with `value` spent from the
    /// allowance `owner` granted `spender`.
    pub open spec fn spec_allowance_spent(
        self,
        post: Asset,
        owner: AccountId,
        spender: AccountId,
        value: Balance,
    ) -> bool {
        &&& post.spec_allowance(owner, spender) == self.spec_allowance(owner, spender) - value
        &&& forall|o: AccountId, s: AccountId|
            !(o == owner && s == spender) ==> post.spec_allowance(o, s) == self.spec_allowance(
                o,
                s,
            )
    }

    /// A fresh ledger: the whole initial supply belongs to the deployer,
    /// who is also the operator.
    pub fn new(
        caller: AccountId,
        initial_supply: Balance,
        name: Option<String>,
        symbol: Option<String>,
        decimals: Option<u8>,
    ) -> (a: Asset)
        ensures
            a.wf(),
            a.operator == caller,
            a.total_supply == initial_supply,
            a.spec_balance_of(caller) == initial_supply,
            forall|x: AccountId| x != caller ==> a.spec_balance_of(x) == 0,
            forall|o: AccountId, s: AccountId| a.spec_allowance(o, s) == 0,
            a.name == name,
            a.symbol == symbol,
            a.decimals == decimals,
    {
        let mut balances: AccountMap<Balance> = AccountMap::new();
        balances.insert(caller, initial_supply);
        proof {
            lemma_sum_insert_absent(
                Seq::<AccountId>::empty(),
                Map::<AccountId, Balance>::empty(),
                caller,
                initial_supply,
            );
        }
        Asset {
            name,
            symbol,
            decimals,
            total_supply: initial_supply,
            balances,
            operator: caller,
            allowances: AllowanceTable::new(),
        }
    }

    pub fn operator(&self) -> (r: AccountId)
        ensures
            r == self.operator,
    {
        self.operator
    }

    /// Hand the ledger to a new operator. Only the operator may do so.
    pub fn transfer_operator(&mut self, caller: AccountId, new_operator: AccountId)
        requires
            caller == old(self).operator,
        ensures
            final (self).operator == new_operator,
            final (self).name == old(self).name,
            final (self).symbol == old(self).symbol,
            final (self).decimals == old(self).decimals,
            final (self).total_supply == old(self).total_supply,
            final (self).balances == old(self).balances,
            final (self).allowances == old(self).allowances,
            old(self).wf() ==> final (self).wf(),
    {
        self.operator = new_operator;
    }

    pub fn name(&self) -> (r: Option<String>)
        ensures
            match r {
                Some(s) => self.name matches Some(n) && s@ == n@,
                None => self.name is None,
            },
    {
        match &self.name {
            Some(s) => Some(s.clone()),
            None => None,
        }
    }

    pub fn symbol(&self) -> (r: Option<String>)
        ensures
            match r {
                Some(s) => self.symbol matches Some(n) && s@ == n@,
                None => self.symbol is None,
            },
    {
        match &self.symbol {
            Some(s) => Some(s.clone()),
            None => None,
        }
    }

    pub fn decimals(&self) -> (r: Option<u8>)
        ensures
            r == self.decimals,
    {
        self.decimals
    }

    pub fn total_supply(&self) -> (r: Balance)
        ensures
            r == self.total_supply,
    {
        self.total_supply
    }

    pub fn balance_of(&self, owner: AccountId) -> (r: Balance)
        requires
            self.balances.wf(),
        ensures
            r == self.spec_balance_of(owner),
    {
        match self.balances.get(owner) {
            Some(v) => v,
            None => 0,
        }
    }

    pub fn allowance(&self, owner: AccountId, spender: AccountId) -> (r: Balance)
        requires
            self.allowances.wf(),
        ensures
            r == self.spec_allowance(owner, spender),
    {
        self.allowances.amount(owner, spender)
    }

    /// Move `value` from `from` to `to`; the core of `transfer` and
    /// `transfer_from`. Fails, changing nothing, exactly when `from`'s
    /// balance is short.
    fn transfer_from_to(&mut self, from: AccountId, to: AccountId, value: Balance) -> (r: Result<
        (),
        Error,
    >)
        requires
            old(self).wf(),
        ensures
            final (self).wf(),
            final (self).same_config(*old(self)),
            final (self).same_allowances(*old(self)),
            final (self).total_supply == old(self).total_supply,
            match r {
                Ok(_) => old(self).spec_balance_of(from) >= value && (forall|a: AccountId|
                    a != from && a != to ==> final (self).spec_balance_of(a) == old(
                        self,
                    ).spec_balance_of(a)) && (if from == to {
                    final (self).spec_balance_of(from) == old(self).spec_balance_of(from)
                } else {
                    final (self).spec_balance_of(from) == old(self).spec_balance_of(from) - value
                        && final (self).spec_balance_of(to) == old(self).spec_balance_of(to)
                        + value
                }),
                Err(e) => e == Error::InsufficientBalance && old(self).spec_balance_of(from)
                    < value && *final (self) == *old(self),
            },
    {
        let from_balance: Balance = self.balance_of(from);
        if from_balance < value {
            return Err(Error::InsufficientBalance);
        }
        proof {
            self.balances.lemma_wf_facts();
            if self.balances@.contains_key(from) {
                lemma_sum_bounds_value(self.balances.keys(), self.balances@, from);
            }
        }
        let ghost pre = *old(self);
        let ghost keys0 = self.balances.keys();
        let ghost map0 = self.balances@;
        self.balances.insert(from, from_balance - value);
        proof {
            if map0.contains_key(from) {
                lemma_sum_update(keys0, map0, from, (from_balance - value) as u128);
            } else {
                lemma_sum_insert_absent(keys0, map0, from, (from_balance - value) as u128);
                assert(value == 0);
            }
            assert(self.balances.total() == pre.total_supply - value);
            self.balances.lemma_wf_facts();
            if self.balances@.contains_key(to) {
                lemma_sum_bounds_value(self.balances.keys(), self.balances@, to);
            }
        }
        let to_balance: Balance = self.balance_of(to);
        let ghost keys1 = self.balances.keys();
        let ghost map1 = self.balances@;
        self.balances.insert(to, to_balance + value);
        proof {
            if map1.contains_key(to) {
                lemma_sum_update(keys1, map1, to, (to_balance + value) as u128);
            } else {
                lemma_sum_insert_absent(keys1, map1, to, (to_balance + value) as u128);
            }
            assert(self.balances.total() == pre.total_supply);
        }
        Ok(())
    }

    /// Transfer `value` of the caller's tokens to `to`.
    pub fn transfer(&mut self, caller: AccountId, to: AccountId, value: Balance) -> (r: Result<
        (),
        Error,
    >)
        requires
            old(self).wf(),
        ensures
            final (self).wf(),
            final (self).same_config(*old(self)),
            final (self).same_allowances(*old(self)),
            final (self).total_supply == old(self).total_supply,
            match r {
                Ok(_) => old(self).spec_balance_of(caller) >= value && (forall|a: AccountId|
                    a != caller && a != to ==> final (self).spec_balance_of(a) == old(
                        self,
                    ).spec_balance_of(a)) && (if caller == to {
                    final (self).spec_balance_of(caller) == old(self).spec_balance_of(caller)
                } else {
                    final (self).spec_balance_of(caller) == old(self).spec_balance_of(caller)
                        - value && final (self).spec_balance_of(to) == old(self).spec_balance_of(to)
                        + value
                }),
                Err(e) => e == Error::InsufficientBalance && old(self).spec_balance_of(caller)
                    < value && *final (self) == *old(self),
            },
    {
        self.transfer_from_to(caller, to, value)
    }

    /// Let `spender` draw up to `value` from the caller; overwrites any
    /// earlier approval.
    pub fn approve(&mut self, caller: AccountId, spender: AccountId, value: Balance) -> (r: Result<
        (),
        Error,
    >)
        requires
            old(self).wf(),
        ensures
            final (self).wf(),
            final (self).same_config(*old(self)),
            final (self).same_holdings(*old(self)),
            r is Ok,
            final (self).spec_allowance(caller, spender) == value,
            forall|o: AccountId, s: AccountId|
                !(o == caller && s == spender) ==> final (self).spec_allowance(o, s) == old(
                    self,
                ).spec_allowance(o, s),
    {
        self.allowances.set(caller, spender, value);
        Ok(())
    }

    /// Draw `value` from `from` on the strength of the caller's
    /// allowance, and hand it to `to`.
    pub fn transfer_from(
        &mut self,
        caller: AccountId,
        from: AccountId,
        to: AccountId,
        value: Balance,
    ) -> (r: Result<(), Error>)
        requires
            old(self).wf(),
        ensures
            final (self).wf(),
            final (self).same_config(*old(self)),
            final (self).total_supply == old(self).total_supply,
            match r {
                Ok(_) => old(self).spec_allowance(from, caller) >= value && old(
                    self,
                ).spec_balance_of(from) >= value && (forall|a: AccountId|
                    a != from && a != to ==> final (self).spec_balance_of(a) == old(
                        self,
                    ).spec_balance_of(a)) && (if from == to {
                    final (self).spec_balance_of(from) == old(self).spec_balance_of(from)
                } else {
                    final (self).spec_balance_of(from) == old(self).spec_balance_of(from) - value
                        && final (self).spec_balance_of(to) == old(self).spec_balance_of(to)
                        + value
                }) && final (self).spec_allowance(from, caller) == old(self).spec_allowance(
                    from,
                    caller,
                ) - value && (forall|o: AccountId, s: AccountId|
                    !(o == from && s == caller) ==> final (self).spec_allowance(o, s) == old(
                        self,
                    ).spec_allowance(o, s)),
                Err(e) => *final (self) == *old(self) && (if old(self).spec_allowance(from, caller)
                    < value {
                    e == Error::InsufficientAllowance
                } else {
                    e == Error::InsufficientBalance && old(self).spec_balance_of(from) < value
                }),
            },
    {
        let allowance: Balance = self.allowances.amount(from, caller);
        if allowance < value {
            return Err(Error::InsufficientAllowance);
        }
        let r = self.transfer_from_to(from, to, value);
        match r {
            Ok(_) => {
                self.allowances.set(from, caller, allowance - value);
                Ok(())
            },
            Err(e) => Err(e),
        }
    }

    /// Create `value` new tokens for `to`. Only the operator may mint.
    /// Fails, changing nothing, exactly when the supply would overflow.
    pub fn mint(&mut self, caller: AccountId, to: AccountId, value: Balance) -> (r: Result<
        (),
        Error,
    >)
        requires
            old(self).wf(),
            caller == old(self).operator,
        ensures
            final (self).wf(),
            final (self).same_config(*old(self)),
            final (self).same_allowances(*old(self)),
            match r {
                Ok(_) => old(self).total_supply + value <= u128::MAX && final (self).total_supply
                    == old(self).total_supply + value && final (self).spec_balance_of(to) == old(
                    self,
                ).spec_balance_of(to) + value && (forall|a: AccountId|
                    a != to ==> final (self).spec_balance_of(a) == old(self).spec_balance_of(a)),
                Err(e) => e == Error::InvalidValue && old(self).total_supply + value > u128::MAX
                    && *final (self) == *old(self),
            },
    {
        if value > u128::MAX - self.total_supply {
            return Err(Error::InvalidValue);
        }
        proof {
            self.balances.lemma_wf_facts();
            if self.balances@.contains_key(to) {
                lemma_sum_bounds_value(self.balances.keys(), self.balances@, to);
            }
        }
        let balance_before: Balance = self.balance_of(to);
        let ghost keys0 = self.balances.keys();
        let ghost map0 = self.balances@;
        self.balances.insert(to, balance_before + value);
        proof {
            if map0.contains_key(to) {
                lemma_sum_update(keys0, map0, to, (balance_before + value) as u128);
            } else {
                lemma_sum_insert_absent(keys0, map0, to, (balance_before + value) as u128);
            }
        }
        self.total_supply = self.total_supply + value;
        Ok(())
    }

    /// Destroy `value` of the caller's own tokens.
    pub fn burn(&mut self, caller: AccountId, value: Balance) -> (r: Result<(), Error>)
        requires
            old(self).wf(),
        ensures
            final (self).wf(),
            final (self).same_config(*old(self)),
            final (self).same_allowances(*old(self)),
            match r {
                Ok(_) => old(self).spec_balance_of(caller) >= value && final (self).total_supply
                    == old(self).total_supply - value && final (self).spec_balance_of(caller)
                    == old(self).spec_balance_of(caller) - value && (forall|a: AccountId|
                    a != caller ==> final (self).spec_balance_of(a) == old(self).spec_balance_of(
                        a,
                    )),
                Err(e) => e == Error::InsufficientBalance && old(self).spec_balance_of(caller)
                    < value && *final (self) == *old(self),
            },
    {
        let from_balance: Balance = self.balance_of(caller);
        if from_balance < value {
            return Err(Error::InsufficientBalance);
        }
        proof {
            self.balances.lemma_wf_facts();
            if self.balances@.contains_key(caller) {
                lemma_sum_bounds_value(self.balances.keys(), self.balances@, caller);
            }
        }
        let ghost keys0 = self.balances.keys();
        let ghost map0 = self.balances@;
        self.balances.insert(caller, from_balance - value);
        proof {
            if map0.contains_key(caller) {
                lemma_sum_update(keys0, map0, caller, (from_balance - value) as u128);
            } else {
                lemma_sum_insert_absent(keys0, map0, caller, (from_balance - value) as u128);
                assert(value == 0);
            }
        }
        self.total_supply = self.total_supply - value;
        Ok(())
    }

    /// Destroy `value` tokens held by `from`, drawing on the caller's
    /// allowance. Only the operator may do so.
    pub fn burn_from(&mut self, caller: AccountId, from: AccountId, value: Balance) -> (r: Result<
        (),
        Error,
    >)
        requires
            old(self).wf(),
            caller == old(self).operator,
        ensures
            final (self).wf(),
            final (self).same_config(*old(self)),
            match r {
                Ok(_) => old(self).spec_allowance(from, caller) >= value && old(
                    self,
                ).spec_balance_of(from) >= value && final (self).total_supply == old(
                    self,
                ).total_supply - value && final (self).spec_balance_of(from) == old(
                    self,
                ).spec_balance_of(from) - value && (forall|a: AccountId|
                    a != from ==> final (self).spec_balance_of(a) == old(self).spec_balance_of(a))
                    && final (self).spec_allowance(from, caller) == old(self).spec_allowance(
                    from,
                    caller,
                ) - value && (forall|o: AccountId, s: AccountId|
                    !(o == from && s == caller) ==> final (self).spec_allowance(o, s) == old(
                        self,
                    ).spec_allowance(o, s)),
                Err(e) => *final (self) == *old(self) && (if old(self).spec_allowance(from, caller)
                    < value {
                    e == Error::InsufficientAllowance
                } else {
                    e == Error::InsufficientBalance && old(self).spec_balance_of(from) < value
                }),
            },
    {
        let allowance: Balance = self.allowances.amount(from, caller);
        if allowance < value {
            return Err(Error::InsufficientAllowance);
        }
        let from_balance: Balance = self.balance_of(from);
        if from_balance < value {
            return Err(Error::InsufficientBalance);
        }
        self.allowances.set(from, caller, allowance - value);
        proof {
            self.balances.lemma_wf_facts();
            if self.balances@.contains_key(from) {
                lemma_sum_bounds_value(self.balances.keys(), self.balances@, from);
            }
        }
        let ghost keys0 = self.balances.keys();
        let ghost map0 = self.balances@;
        self.balances.insert(from, from_balance - value);
        proof {
            if map0.contains_key(from) {
                lemma_sum_update(keys0, map0, from, (from_balance - value) as u128);
            } else {
                lemma_sum_insert_absent(keys0, map0, from, (from_balance - value) as u128);
                assert(value == 0);
            }
        }
        self.total_supply = self.total_supply - value;
        Ok(())
    }
}

} // verus!
