//! The distributor: takes deposits (an external token, or the chain's
//! own coin) into per-address records, and later pays out cash to a
//! list of recipients chosen by the operator, clearing their records.
use vstd::prelude::*;

use crate::account_map::AccountMap;
use crate::asset::Asset;
use crate::asset::Error;
use crate::AccountId;
use crate::Balance;

verus! {

/// One payout instruction: who receives, and how much.
#[derive(Debug, Clone, Copy, PartialEq, Eq, Structural)]
pub struct Record {
    pub user: AccountId,
    pub amount: Balance,
}

/// Payload of the event emitted when a deposit is recorded.
#[derive(Debug, Clone, Copy, PartialEq, Eq)]
pub struct Deposited {
    pub user: Option<AccountId>,
    pub amount: u128,
}

/// Payload of the event emitted when cash is paid to one recipient.
#[derive(Debug, Clone, Copy, PartialEq, Eq)]
pub struct Distributed {
    pub user: Option<AccountId>,
    pub amount: u128,
}

/// Payload of the event emitted when a whole payout run finishes.
#[derive(Debug, Clone, Copy, PartialEq, Eq)]
pub struct DistributedAccountCount {
    pub count: u32,
}

/// Why a distributor operation was refused; the state is then
/// unchanged.
#[derive(Debug, Clone, Copy, PartialEq, Eq, Structural)]
pub enum DistributorError {
    /// The amount must be positive.
    ZeroAmount,
    /// A balance cannot cover the request.
    InsufficientBalance,
    /// A payout list must not be empty.
    NoRecords,
    /// A payout record names the null address or a zero amount.
    InvalidRecord,
    /// A checked arithmetic step would overflow.
    Arithmetic,
    /// A ledger call could not be honoured.
    Ledger(Error),
}

/// Walk the payout list in order against an evolving cash balance of
/// `account`, and report the first reason a record cannot be served;
/// `None` when the whole list can.
pub open spec fn spec_step_error(
    recs: Seq<Record>,
    account: AccountId,
    balance: int,
) -> Option<DistributorError>
    decreases recs.len(),
{
    if recs.len() == 0 {
        None
    } else {
        let r0 = recs[0];
        if r0.user == 0 || r0.amount == 0 {
            Some(DistributorError::InvalidRecord)
        } else if r0.amount > balance {
            Some(DistributorError::InsufficientBalance)
        } else {
            spec_step_error(
                recs.skip(1),
                account,
                if r0.user == account {
                    balance
                } else {
                    balance - r0.amount
                },
            )
        }
    }
}

/// What the payout list credits to `a` in total.
pub open spec fn spec_credited(recs: Seq<Record>, a: AccountId) -> int
    decreases recs.len(),
{
    if recs.len() == 0 {
        0
    } else {
        spec_credited(recs.drop_last(), a) + if recs.last().user == a {
            recs.last().amount as int
        } else {
            0
        }
    }
}

/// The sum of all amounts in the payout list.
pub open spec fn spec_total_amount(recs: Seq<Record>) -> int
    decreases recs.len(),
{
    if recs.len() == 0 {
        0
    } else {
        spec_total_amount(recs.drop_last()) + recs.last().amount
    }
}

/// The set of addresses the payout list names.
pub open spec fn spec_users(recs: Seq<Record>) -> Set<AccountId> {
    Set::new(|a: AccountId| exists|i: int| 0 <= i < recs.len() && recs[i].user == a)
}

/// `post` is `pre` with exactly the records of `users` cleared.
pub open spec fn spec_records_cleared(
    pre: Map<AccountId, Balance>,
    post: Map<AccountId, Balance>,
    users: Set<AccountId>,
) -> bool {
    &&& forall|a: AccountId| users.contains(a) ==> !post.contains_key(a)
    &&& forall|a: AccountId|
        !users.contains(a) ==> (post.contains_key(a) == pre.contains_key(a) && (pre.contains_key(a)
            ==> post[a] == pre[a]))
}

/// Clearing one more user extends a cleared set by that user.
proof fn lemma_records_cleared_step(
    pre: Map<AccountId, Balance>,
    mid: Map<AccountId, Balance>,
    post: Map<AccountId, Balance>,
    users: Set<AccountId>,
    u: AccountId,
)
    requires
        spec_records_cleared(pre, mid, users),
        post == mid.remove(u),
    ensures
        spec_records_cleared(pre, post, users.insert(u)),
{
}

pub struct Distributor {
    /// Who may run payouts.
    pub operator: AccountId,
    /// This distributor's own ledger address.
    pub account: AccountId,
    /// Deposits recorded per address.
    pub deposit_records: AccountMap<Balance>,
}

impl Distributor {
    pub open spec fn wf(self) -> bool {
        self.deposit_records.wf()
    }

    /// The recorded deposit of `a`; zero if none.
    pub open spec fn spec_record_of(self, a: AccountId) -> Balance {
        if self.deposit_records@.contains_key(a) {
            self.deposit_records@[a]
        } else {
            0
        }
    }

    /// A fresh distributor, operated by its deployer.
    pub fn new(account: AccountId, caller: AccountId) -> (d: Distributor)
        ensures
            d.wf(),
            d.operator == caller,
            d.account == account,
            d.deposit_records@ == Map::<AccountId, Balance>::empty(),
    {
        Distributor { operator: caller, account, deposit_records: AccountMap::new() }
    }

    pub fn operator(&self) -> (r: AccountId)
        ensures
            r == self.operator,
    {
        self.operator
    }

    /// Hand the distributor to a new operator. Only the operator may.
    pub fn transfer_operator(&mut self, caller: AccountId, new_operator: AccountId)
        requires
            caller == old(self).operator,
        ensures
            *final (self) == (Distributor { operator: new_operator, ..*old(self) }),
    {
        self.operator = new_operator;
    }

    /// Record a deposit of `amount` for `caller`, on top of any earlier
    /// one.
    fn _upsert_deposit_record(&mut self, user: AccountId, amount: Balance) -> (r: Result<
        (),
        DistributorError,
    >)
        requires
            old(self).wf(),
        ensures
            final (self).wf(),
            final (self).operator == old(self).operator,
            final (self).account == old(self).account,
            match r {
                Ok(_) => old(self).spec_record_of(user) + amount <= u128::MAX && final (
                self).deposit_records@ == old(self).deposit_records@.insert(
                    user,
                    (old(self).spec_record_of(user) + amount) as u128,
                ),
                Err(e) => e == DistributorError::Arithmetic && old(self).spec_record_of(user)
                    + amount > u128::MAX && *final (self) == *old(self),
            },
    {
        let b: Balance = match self.deposit_records.get(user) {
            Some(v) => v,
            None => 0,
        };
        let new_balance: Balance = match b.checked_add(amount) {
            Some(v) => v,
            None => {
                return Err(DistributorError::Arithmetic);
            },
        };
        self.deposit_records.insert(user, new_balance);
        Ok(())
    }

    /// Deposit `amount` of the external token: the tokens move into
    /// custody and the caller's record grows by `amount`.
    pub fn deposit_token(&mut self, a_usd: &mut Asset, caller: AccountId, amount: Balance) -> (r:
        Result<Deposited, DistributorError>)
        requires
            old(self).wf(),
            old(a_usd).wf(),
            caller != 0,
        ensures
            final (self).wf(),
            final (a_usd).wf(),
            final (a_usd).same_config(*old(a_usd)),
            final (self).operator == old(self).operator,
            final (self).account == old(self).account,
            match r {
                Ok(ev) => {
                    &&& amount > 0
                    &&& old(a_usd).spec_balance_of(caller) >= amount
                    &&& old(a_usd).spec_allowance(caller, old(self).account) >= amount
                    &&& old(self).spec_record_of(caller) + amount <= u128::MAX
                    &&& ev == (Deposited { user: Some(caller), amount: amount })
                    &&& final (self).deposit_records@ == old(self).deposit_records@.insert(
                        caller,
                        (old(self).spec_record_of(caller) + amount) as u128,
                    )
                    &&& old(a_usd).spec_moved(*final (a_usd), caller, old(self).account, amount)
                    &&& old(a_usd).spec_allowance_spent(
                        *final (a_usd),
                        caller,
                        old(self).account,
                        amount,
                    )
                },
                Err(e) => {
                    &&& *final (self) == *old(self)
                    &&& *final (a_usd) == *old(a_usd)
                    &&& if amount == 0 {
                        e == DistributorError::ZeroAmount
                    } else if old(a_usd).spec_balance_of(caller) < amount {
                        e == DistributorError::InsufficientBalance
                    } else if old(a_usd).spec_allowance(caller, old(self).account) < amount {
                        e == DistributorError::Ledger(Error::InsufficientAllowance)
                    } else {
                        e == DistributorError::Arithmetic && old(self).spec_record_of(caller)
                            + amount > u128::MAX
                    }
                },
            },
    {
        if amount == 0 {
            return Err(DistributorError::ZeroAmount);
        }
        if a_usd.balance_of(caller) < amount {
            return Err(DistributorError::InsufficientBalance);
        }
        let this: AccountId = self.account;
        if a_usd.allowance(caller, this) < amount {
            return Err(DistributorError::Ledger(Error::InsufficientAllowance));
        }
        let b: Balance = match self.deposit_records.get(caller) {
            Some(v) => v,
            None => 0,
        };
        if amount > u128::MAX - b {
            return Err(DistributorError::Arithmetic);
        }
        match a_usd.transfer_from(this, caller, this, amount) {
            Ok(_) => {},
            Err(e) => {
                proof {
                    assert(false);
                }
                return Err(DistributorError::Ledger(e));
            },
        }
        match self._upsert_deposit_record(caller, amount) {
            Ok(_) => {},
            Err(e) => {
                proof {
                    assert(false);
                }
                return Err(e);
            },
        }
        Ok(Deposited { user: Some(caller), amount })
    }

    /// Record a deposit of the chain's own coin; `value` is what the
    /// call carried.
    pub fn deposit_coin(&mut self, caller: AccountId, value: Balance) -> (r: Result<
        Deposited,
        DistributorError,
    >)
        requires
            old(self).wf(),
            caller != 0,
        ensures
            final (self).wf(),
            final (self).operator == old(self).operator,
            final (self).account == old(self).account,
            match r {
                Ok(ev) => {
                    &&& value > 0
                    &&& old(self).spec_record_of(caller) + value <= u128::MAX
                    &&& ev == (Deposited { user: Some(caller), amount: value })
                    &&& final (self).deposit_records@ == old(self).deposit_records@.insert(
                        caller,
                        (old(self).spec_record_of(caller) + value) as u128,
                    )
                },
                Err(e) => {
                    &&& *final (self) == *old(self)
                    &&& if value == 0 {
                        e == DistributorError::ZeroAmount
                    } else {
                        e == DistributorError::Arithmetic && old(self).spec_record_of(caller)
                            + value > u128::MAX
                    }
                },
            },
    {
        if value == 0 {
            return Err(DistributorError::ZeroAmount);
        }
        match self._upsert_deposit_record(caller, value) {
            Ok(_) => Ok(Deposited { user: Some(caller), amount: value }),
            Err(e) => Err(e),
        }
    }

    /// Why `distribute_alc` would be refused; `None` when it succeeds.
    pub open spec fn spec_distribute_error(self, cash: Asset, recs: Seq<Record>) -> Option<
        DistributorError,
    > {
        if recs.len() == 0 {
            Some(DistributorError::NoRecords)
        } else {
            spec_step_error(recs, self.account, cash.spec_balance_of(self.account) as int)
        }
    }

    /// Pay cash out of custody to every listed recipient, in order, and
    /// clear each recipient's deposit record. Only the operator may run
    /// a payout, and it is all or nothing: one unservable record leaves
    /// every balance and record unchanged.
    pub fn distribute_alc(&mut self, cash: &mut Asset, caller: AccountId, records: Vec<Record>) -> (
    r: Result<DistributedAccountCount, DistributorError>)
        requires
            old(self).wf(),
            old(cash).wf(),
            caller == old(self).operator,
        ensures
            final (self).wf(),
            final (cash).wf(),
            final (cash).same_config(*old(cash)),
            final (cash).same_allowances(*old(cash)),
            final (cash).total_supply == old(cash).total_supply,
            final (self).operator == old(self).operator,
            final (self).account == old(self).account,
            match r {
                Ok(ev) => {
                    &&& old(self).spec_distribute_error(*old(cash), records@) is None
                    &&& ev == (DistributedAccountCount { count: records@.len() as u32 })
                    &&& final (cash).spec_balance_of(old(self).account) == old(
                        cash,
                    ).spec_balance_of(old(self).account) + spec_credited(
                        records@,
                        old(self).account,
                    ) - spec_total_amount(records@)
                    &&& forall|a: AccountId|
                        a != old(self).account ==> final (cash).spec_balance_of(a) == old(
                            cash,
                        ).spec_balance_of(a) + spec_credited(records@, a)
                    &&& spec_records_cleared(
                        old(self).deposit_records@,
                        final (self).deposit_records@,
                        spec_users(records@),
                    )
                },
                Err(e) => {
                    &&& old(self).spec_distribute_error(*old(cash), records@) == Some(e)
                    &&& *final (self) == *old(self)
                    &&& *final (cash) == *old(cash)
                },
            },
    {
        let n: usize = records.len();
        if n == 0 {
            return Err(DistributorError::NoRecords);
        }
        let this: AccountId = self.account;
        let b0: Balance = cash.balance_of(this);
        let mut remaining: Balance = b0;
        let mut i: usize = 0;
        proof {
            assert(records@.skip(0) =~= records@);
        }
        #[verifier::loop_isolation(false)]
        while i < n
            invariant
                0 <= i <= n,
                n == records@.len(),
                this == self.account,
                spec_step_error(records@, this, b0 as int) == spec_step_error(
                    records@.skip(i as int),
                    this,
                    remaining as int,
                ),
            decreases n - i,
        {
            proof {
                assert(records@.skip(i as int)[0] == records@[i as int]);
                assert(records@.skip(i as int).skip(1) =~= records@.skip(i as int + 1));
            }
            let rec: Record = records[i];
            if rec.user == 0 || rec.amount == 0 {
                return Err(DistributorError::InvalidRecord);
            }
            if rec.amount > remaining {
                return Err(DistributorError::InsufficientBalance);
            }
            if rec.user != this {
                remaining = remaining - rec.amount;
            }
            i = i + 1;
        }
        proof {
            assert(records@.skip(n as int) =~= Seq::<Record>::empty());
            assert(spec_step_error(records@, this, b0 as int) is None);
        }
        let mut j: usize = 0;
        proof {
            assert(records@.subrange(0, 0) =~= Seq::<Record>::empty());
        }
        #[verifier::loop_isolation(false)]
        while j < n
            invariant
                0 <= j <= n,
                n == records@.len(),
                this == old(self).account,
                self.account == old(self).account,
                self.operator == old(self).operator,
                self.wf(),
                cash.wf(),
                cash.same_config(*old(cash)),
                cash.same_allowances(*old(cash)),
                cash.total_supply == old(cash).total_supply,
                cash.spec_balance_of(this) == old(cash).spec_balance_of(this) + spec_credited(
                    records@.subrange(0, j as int),
                    this,
                ) - spec_total_amount(records@.subrange(0, j as int)),
                forall|a: AccountId|
                    a != this ==> cash.spec_balance_of(a) == old(cash).spec_balance_of(a)
                        + spec_credited(records@.subrange(0, j as int), a),
                spec_records_cleared(
                    old(self).deposit_records@,
                    self.deposit_records@,
                    spec_users(records@.subrange(0, j as int)),
                ),
                spec_step_error(records@.skip(j as int), this, cash.spec_balance_of(this) as int)
                    is None,
            decreases n - j,
        {
            proof {
                assert(records@.skip(j as int)[0] == records@[j as int]);
                assert(records@.skip(j as int).skip(1) =~= records@.skip(j as int + 1));
            }
            let rec: Record = records[j];
            match cash.transfer(this, rec.user, rec.amount) {
                Ok(_) => {},
                Err(e) => {
                    proof {
                        assert(false);
                    }
                    return Err(DistributorError::Ledger(e));
                },
            }
            let ghost pre_records = self.deposit_records@;
            self.deposit_records.remove(rec.user);
            proof {
                let pre = records@.subrange(0, j as int);
                let post = records@.subrange(0, j as int + 1);
                assert(post.drop_last() =~= pre);
                assert(post.last() == records@[j as int]);
                assert forall|a: AccountId| spec_users(post).contains(a) implies (spec_users(
                    pre,
                ).contains(a) || a == rec.user) by {
                    let k = choose|k: int| 0 <= k < post.len() && post[k].user == a;
                    if k < j {
                        assert(pre[k].user == a);
                    }
                }
                assert forall|a: AccountId|
                    spec_users(pre).contains(a) implies spec_users(post).contains(a) by {
                    let k = choose|k: int| 0 <= k < pre.len() && pre[k].user == a;
                    assert(post[k].user == a);
                }
                assert(spec_users(post).contains(rec.user)) by {
                    assert(post[j as int].user == rec.user);
                }
                assert(spec_users(post) =~= spec_users(pre).insert(rec.user));
                lemma_records_cleared_step(
                    old(self).deposit_records@,
                    pre_records,
                    self.deposit_records@,
                    spec_users(pre),
                    rec.user,
                );
            }
            j = j + 1;
        }
        proof {
            assert(records@.subrange(0, n as int) =~= records@);
        }
        Ok(DistributedAccountCount { count: #[verifier::truncate] (n as u32) })
    }

    /// Every recorded deposit, in the order the records were created.
    pub fn get_all_depositor(&self) -> (r: Vec<Record>)
        requires
            self.wf(),
        ensures
            r@.len() == self.deposit_records.keys().len(),
            forall|i: int|
                0 <= i < r@.len() ==> r@[i] == (Record {
                    user: self.deposit_records.keys()[i],
                    amount: self.deposit_records@[#[trigger] self.deposit_records.keys()[i]],
                }),
    {
        let n: usize = self.deposit_records.len();
        let mut records: Vec<Record> = Vec::new();
        let mut i: usize = 0;
        while i < n
            invariant
                0 <= i <= n,
                n == self.deposit_records.keys().len(),
                self.wf(),
                records@.len() == i,
                forall|k: int|
                    0 <= k < i ==> records@[k] == (Record {
                        user: self.deposit_records.keys()[k],
                        amount: self.deposit_records@[#[trigger] self.deposit_records.keys()[k]],
                    }),
            decreases n - i,
        {
            let e: (AccountId, Balance) = self.deposit_records.entry_at(i);
            records.push(Record { user: e.0, amount: e.1 });
            i = i + 1;
        }
        records
    }
}

} // verus!
