//! A small map from account addresses to values, backed by a vector of
//! entries with pairwise-distinct keys. It keeps the order in which keys
//! were first inserted, which makes listings deterministic, and its view
//! is a mathematical `Map`. For `u128` values it also carries a `total`
//! (the sum of all stored values), the quantity the ledger and staking
//! invariants are stated over.
use vstd::prelude::*;

use crate::AccountId;

verus! {

pub struct AccountMap<V> {
    entries: Vec<(AccountId, V)>,
}

impl<V> View for AccountMap<V> {
    type V = Map<AccountId, V>;

    closed spec fn view(&self) -> Map<AccountId, V> {
        Map::new(
            |k: AccountId| exists|i: int| 0 <= i < self.entries@.len() && self.entries@[i].0 == k,
            |k: AccountId| self.entries@[self.spec_index_of(k)].1,
        )
    }
}

impl<V> AccountMap<V> {
    spec fn spec_index_of(self, k: AccountId) -> int {
        choose|i: int| 0 <= i < self.entries@.len() && self.entries@[i].0 == k
    }

    /// The keys, in insertion order.
    pub closed spec fn keys(self) -> Seq<AccountId> {
        self.entries@.map_values(|e: (AccountId, V)| e.0)
    }

    /// Keys are pairwise distinct.
    pub closed spec fn wf(self) -> bool {
        forall|i: int, j: int|
            0 <= i < j < self.entries@.len() ==> (#[trigger] self.entries@[i]).0 != (
            #[trigger] self.entries@[j]).0
    }

    /// What well-formedness gives a caller: the key list has no
    /// duplicates and lists exactly the map's domain.
    pub proof fn lemma_wf_facts(self)
        requires
            self.wf(),
        ensures
            self.keys().no_duplicates(),
            forall|k: AccountId| self@.contains_key(k) <==> self.keys().contains(k),
            forall|i: int|
                0 <= i < self.keys().len() ==> self@.contains_key(#[trigger] self.keys()[i]),
    {
        assert forall|k: AccountId| self@.contains_key(k) implies self.keys().contains(k) by {
            let i = choose|i: int| 0 <= i < self.entries@.len() && self.entries@[i].0 == k;
            assert(self.keys()[i] == k);
        }
        assert forall|k: AccountId| self.keys().contains(k) implies self@.contains_key(k) by {
            let i = choose|i: int| 0 <= i < self.keys().len() && self.keys()[i] == k;
            assert(self.entries@[i].0 == k);
        }
    }

    pub fn new() -> (m: AccountMap<V>)
        ensures
            m@ == Map::<AccountId, V>::empty(),
            m.keys() == Seq::<AccountId>::empty(),
            m.wf(),
    {
        let m = AccountMap { entries: Vec::new() };
        proof {
            assert(m@ =~= Map::<AccountId, V>::empty());
            assert(m.keys() =~= Seq::<AccountId>::empty());
        }
        m
    }

    /// The position of `k` among the entries, if present.
    fn index_of(&self, k: AccountId) -> (r: Option<usize>)
        ensures
            match r {
                Some(i) => 0 <= i < self.entries@.len() && self.entries@[i as int].0 == k,
                None => !self@.contains_key(k),
            },
    {
        let n: usize = self.entries.len();
        let mut i: usize = 0;
        while i < n
            invariant
                0 <= i <= n,
                n == self.entries@.len(),
                forall|j: int| 0 <= j < i ==> (#[trigger] self.entries@[j]).0 != k,
            decreases n - i,
        {
            if self.entries[i].0 == k {
                return Some(i);
            }
            i = i + 1;
        }
        None
    }

    pub fn len(&self) -> (n: usize)
        ensures
            n == self.keys().len(),
    {
        self.entries.len()
    }
}

impl<V: Copy> AccountMap<V> {
    pub fn get(&self, k: AccountId) -> (r: Option<V>)
        requires
            self.wf(),
        ensures
            match r {
                Some(v) => self@.contains_key(k) && v == self@[k],
                None => !self@.contains_key(k),
            },
    {
        match self.index_of(k) {
            Some(i) => {
                proof {
                    assert(self@.contains_key(k));
                    let j = self.spec_index_of(k);
                    if i as int != j {
                        assert(false);
                    }
                }
                Some(self.entries[i].1)
            },
            None => None,
        }
    }

    /// The entry at position `i` of the key list.
    pub fn entry_at(&self, i: usize) -> (r: (AccountId, V))
        requires
            self.wf(),
            i < self.keys().len(),
        ensures
            r.0 == self.keys()[i as int],
            self@.contains_key(r.0),
            r.1 == self@[r.0],
    {
        proof {
            self.lemma_wf_facts();
        }
        self.entries[i]
    }

    /// Insert or overwrite; a fresh key goes to the end of the key list.
    pub fn insert(&mut self, k: AccountId, v: V)
        requires
            old(self).wf(),
        ensures
            final (self).wf(),
            final (self)@ == old(self)@.insert(k, v),
            final (self).keys() == if old(self)@.contains_key(k) {
                old(self).keys()
            } else {
                old(self).keys().push(k)
            },
    {
        match self.index_of(k) {
            Some(i) => {
                self.entries.set(i, (k, v));
                proof {
                    assert(old(self)@.contains_key(k));
                    assert(self.wf());
                    assert(self.keys() =~= old(self).keys());
                    self.lemma_view_after_set(*old(self), i as int, k, v);
                }
            },
            None => {
                self.entries.push((k, v));
                proof {
                    let oldlen = old(self).entries@.len() as int;
                    assert forall|i: int, j: int|
                        0 <= i < j < self.entries@.len() implies (#[trigger] self.entries@[i]).0
                        != (#[trigger] self.entries@[j]).0 by {
                        if j == oldlen {
                            assert(self.entries@[i] == old(self).entries@[i]);
                            if old(self).entries@[i].0 == k {
                                assert(old(self)@.contains_key(k));
                            }
                        }
                    }
                    assert(self.keys() =~= old(self).keys().push(k));
                    self.lemma_view_after_push(*old(self), k, v);
                }
            },
        }
    }

    /// Overwriting position `i` (whose key is `k`) updates the view at `k`.
    proof fn lemma_view_after_set(self, pre: AccountMap<V>, i: int, k: AccountId, v: V)
        requires
            pre.wf(),
            self.wf(),
            0 <= i < pre.entries@.len(),
            pre.entries@[i].0 == k,
            self.entries@ == pre.entries@.update(i, (k, v)),
        ensures
            self@ == pre@.insert(k, v),
    {
        assert forall|x: AccountId| self@.contains_key(x) implies pre@.insert(
            k,
            v,
        ).contains_key(x) by {
            let n = choose|n: int| 0 <= n < self.entries@.len() && self.entries@[n].0 == x;
            if n != i {
                assert(pre.entries@[n].0 == x);
            }
        }
        assert forall|x: AccountId| pre@.insert(k, v).contains_key(x) implies self@.contains_key(
            x,
        ) by {
            if x == k {
                assert(self.entries@[i].0 == x);
            } else {
                let n = choose|n: int| 0 <= n < pre.entries@.len() && pre.entries@[n].0 == x;
                assert(self.entries@[n].0 == x);
            }
        }
        assert forall|x: AccountId| self@.contains_key(x) implies self@[x] == pre@.insert(k, v)[x]
        by {
            let n = self.spec_index_of(x);
            assert(0 <= n < self.entries@.len() && self.entries@[n].0 == x);
            if x == k {
                if n != i {
                    assert(pre.entries@[n].0 == x);
                    assert(false);
                }
                assert(self@[x] == v);
            } else {
                assert(n != i);
                assert(pre.entries@[n].0 == x);
                let m = pre.spec_index_of(x);
                assert(0 <= m < pre.entries@.len() && pre.entries@[m].0 == x);
                if m != n {
                    assert(false);
                }
                assert(self@[x] == pre@[x]);
            }
        }
        assert(self@ =~= pre@.insert(k, v));
    }

    /// Appending a fresh key extends the view at `k`.
    proof fn lemma_view_after_push(self, pre: AccountMap<V>, k: AccountId, v: V)
        requires
            pre.wf(),
            self.wf(),
            !pre@.contains_key(k),
            self.entries@ == pre.entries@.push((k, v)),
        ensures
            self@ == pre@.insert(k, v),
    {
        let oldlen = pre.entries@.len() as int;
        assert(self.entries@[oldlen].0 == k);
        assert forall|x: AccountId| self@.contains_key(x) implies pre@.insert(
            k,
            v,
        ).contains_key(x) by {
            let n = choose|n: int| 0 <= n < self.entries@.len() && self.entries@[n].0 == x;
            if n < oldlen {
                assert(pre.entries@[n].0 == x);
            }
        }
        assert forall|x: AccountId| pre@.insert(k, v).contains_key(x) implies self@.contains_key(
            x,
        ) by {
            if x != k {
                let n = choose|n: int| 0 <= n < pre.entries@.len() && pre.entries@[n].0 == x;
                assert(self.entries@[n].0 == x);
            }
        }
        assert forall|x: AccountId| self@.contains_key(x) implies self@[x] == pre@.insert(k, v)[x]
        by {
            let n = self.spec_index_of(x);
            assert(0 <= n < self.entries@.len() && self.entries@[n].0 == x);
            if x == k {
                if n != oldlen {
                    assert(pre.entries@[n].0 == x);
                    assert(pre@.contains_key(k));
                }
                assert(self@[x] == v);
            } else {
                assert(n != oldlen);
                assert(pre.entries@[n].0 == x);
                let m = pre.spec_index_of(x);
                if m != n {
                    assert(false);
                }
                assert(self@[x] == pre@[x]);
            }
        }
        assert(self@ =~= pre@.insert(k, v));
    }

    /// Remove a key; later keys keep their relative order.
    pub fn remove(&mut self, k: AccountId) -> (r: Option<V>)
        requires
            old(self).wf(),
        ensures
            final (self).wf(),
            final (self)@ == old(self)@.remove(k),
            match r {
                Some(v) => old(self)@.contains_key(k) && v == old(self)@[k] && (exists|i: int|
                    0 <= i < old(self).keys().len() && old(self).keys()[i] == k && final (
                    self).keys() == old(self).keys().remove(i)),
                None => !old(self)@.contains_key(k) && *final (self) == *old(self),
            },
    {
        match self.index_of(k) {
            Some(i) => {
                let e: (AccountId, V) = self.entries.remove(i);
                proof {
                    let pre = *old(self);
                    let ii = i as int;
                    assert(pre@.contains_key(k));
                    pre.lemma_wf_facts();
                    assert(e.1 == pre@[k]);
                    assert forall|a: int, b: int|
                        0 <= a < b < self.entries@.len() implies (#[trigger] self.entries@[a]).0
                        != (#[trigger] self.entries@[b]).0 by {
                        let a0 = if a < ii {
                            a
                        } else {
                            a + 1
                        };
                        let b0 = if b < ii {
                            b
                        } else {
                            b + 1
                        };
                        assert(self.entries@[a] == pre.entries@[a0]);
                        assert(self.entries@[b] == pre.entries@[b0]);
                    }
                    assert(self.keys() =~= pre.keys().remove(ii));
                    assert forall|x: AccountId| self@.contains_key(x) implies pre@.remove(
                        k,
                    ).contains_key(x) by {
                        let n = choose|n: int|
                            0 <= n < self.entries@.len() && self.entries@[n].0 == x;
                        let n0 = if n < ii {
                            n
                        } else {
                            n + 1
                        };
                        assert(pre.entries@[n0].0 == x);
                        if x == k {
                            assert(n0 != ii);
                            assert(false);
                        }
                    }
                    assert forall|x: AccountId|
                        pre@.remove(k).contains_key(x) implies self@.contains_key(x) by {
                        let n0 = choose|n0: int|
                            0 <= n0 < pre.entries@.len() && pre.entries@[n0].0 == x;
                        assert(n0 != ii);
                        let n = if n0 < ii {
                            n0
                        } else {
                            n0 - 1
                        };
                        assert(self.entries@[n].0 == x);
                    }
                    assert forall|x: AccountId| self@.contains_key(x) implies self@[x]
                        == pre@.remove(k)[x] by {
                        let n = self.spec_index_of(x);
                        assert(0 <= n < self.entries@.len() && self.entries@[n].0 == x);
                        let n0 = if n < ii {
                            n
                        } else {
                            n + 1
                        };
                        assert(pre.entries@[n0].0 == x);
                        let m = pre.spec_index_of(x);
                        if m != n0 {
                            assert(pre.entries@[m].0 == x);
                            assert(false);
                        }
                        assert(self@[x] == self.entries@[n].1);
                        assert(pre@[x] == pre.entries@[n0].1);
                    }
                    assert(self@ =~= pre@.remove(k));
                    assert(pre.keys()[ii] == k);
                }
                Some(e.1)
            },
            None => {
                proof {
                    assert(self@ =~= old(self)@.remove(k));
                }
                None
            },
        }
    }
}

/// The sum of `m`'s values over the key list `keys`.
pub open spec fn sum_over(keys: Seq<AccountId>, m: Map<AccountId, u128>) -> int
    decreases keys.len(),
{
    if keys.len() == 0 {
        0
    } else {
        sum_over(keys.drop_last(), m) + m[keys.last()]
    }
}

impl AccountMap<u128> {
    /// The sum of all stored values.
    pub open spec fn total(self) -> int {
        sum_over(self.keys(), self@)
    }
}

pub proof fn lemma_sum_nonneg(keys: Seq<AccountId>, m: Map<AccountId, u128>)
    ensures
        sum_over(keys, m) >= 0,
    decreases keys.len(),
{
    if keys.len() > 0 {
        lemma_sum_nonneg(keys.drop_last(), m);
    }
}

/// Two maps that agree on every listed key have the same sum.
pub proof fn lemma_sum_congruence(
    keys: Seq<AccountId>,
    m1: Map<AccountId, u128>,
    m2: Map<AccountId, u128>,
)
    requires
        forall|i: int| 0 <= i < keys.len() ==> m1[#[trigger] keys[i]] == m2[keys[i]],
    ensures
        sum_over(keys, m1) == sum_over(keys, m2),
    decreases keys.len(),
{
    if keys.len() > 0 {
        lemma_sum_congruence(keys.drop_last(), m1, m2);
        assert(keys.last() == keys[keys.len() - 1]);
    }
}

/// Appending a key not yet listed adds its new value to the sum.
pub proof fn lemma_sum_insert_absent(
    keys: Seq<AccountId>,
    m: Map<AccountId, u128>,
    k: AccountId,
    v: u128,
)
    requires
        !keys.contains(k),
    ensures
        sum_over(keys.push(k), m.insert(k, v)) == sum_over(keys, m) + v,
{
    let keys2 = keys.push(k);
    let m2 = m.insert(k, v);
    assert(keys2.drop_last() =~= keys);
    assert(keys2.last() == k);
    assert forall|i: int| 0 <= i < keys.len() implies m2[#[trigger] keys[i]] == m[keys[i]] by {
        assert(keys[i] != k);
    }
    lemma_sum_congruence(keys, m2, m);
}

/// Overwriting a listed key shifts the sum by the difference.
pub proof fn lemma_sum_update(
    keys: Seq<AccountId>,
    m: Map<AccountId, u128>,
    k: AccountId,
    v: u128,
)
    requires
        keys.no_duplicates(),
        keys.contains(k),
    ensures
        sum_over(keys, m.insert(k, v)) == sum_over(keys, m) - m[k] + v,
    decreases keys.len(),
{
    let m2 = m.insert(k, v);
    if keys.last() == k {
        assert(!keys.drop_last().contains(k)) by {
            if keys.drop_last().contains(k) {
                let i = choose|i: int|
                    0 <= i < keys.drop_last().len() && keys.drop_last()[i] == k;
                assert(keys[i] == k);
                assert(keys[keys.len() - 1] == k);
            }
        }
        assert forall|i: int|
            0 <= i < keys.drop_last().len() implies m2[#[trigger] keys.drop_last()[i]]
            == m[keys.drop_last()[i]] by {
            assert(keys.drop_last()[i] != k);
        }
        lemma_sum_congruence(keys.drop_last(), m2, m);
    } else {
        assert(keys.drop_last().contains(k)) by {
            let i = choose|i: int| 0 <= i < keys.len() && keys[i] == k;
            assert(i != keys.len() - 1);
            assert(keys.drop_last()[i] == k);
        }
        assert(keys.drop_last().no_duplicates());
        lemma_sum_update(keys.drop_last(), m, k, v);
        assert(m2[keys.last()] == m[keys.last()]);
    }
}

/// Every listed value is at most the sum.
pub proof fn lemma_sum_bounds_value(keys: Seq<AccountId>, m: Map<AccountId, u128>, k: AccountId)
    requires
        keys.contains(k),
    ensures
        m[k] <= sum_over(keys, m),
    decreases keys.len(),
{
    lemma_sum_nonneg(keys.drop_last(), m);
    if keys.last() != k {
        assert(keys.drop_last().contains(k)) by {
            let i = choose|i: int| 0 <= i < keys.len() && keys[i] == k;
            assert(keys.drop_last()[i] == k);
        }
        lemma_sum_bounds_value(keys.drop_last(), m, k);
    }
}

} // verus!
