//! The per-period replay guard: a latch over `(period, account)` pairs.
//! A privileged operation checks the latch for the current period and its
//! caller at the start, and sets it at the end, so that each account can
//! take at most one guarded action per period. Entries are never removed.
use vstd::prelude::*;

use crate::AccountId;

verus! {

/// The set of `(period, account)` pairs that have already acted.
pub struct PeriodGuard {
    entries: Vec<(u32, AccountId)>,
}

impl View for PeriodGuard {
    type V = Set<(u32, AccountId)>;

    closed spec fn view(&self) -> Set<(u32, AccountId)> {
        Set::new(
            |p: (u32, AccountId)|
                exists|i: int| 0 <= i < self.entries@.len() && self.entries@[i] == p,
        )
    }
}

impl PeriodGuard {
    pub fn new() -> (g: PeriodGuard)
        ensures
            g@ == Set::<(u32, AccountId)>::empty(),
    {
        let g = PeriodGuard { entries: Vec::new() };
        proof {
            assert(g@ =~= Set::<(u32, AccountId)>::empty());
        }
        g
    }

    /// Whether `account` has already taken a guarded action in `period`.
    pub fn contains(&self, period: u32, account: AccountId) -> (r: bool)
        ensures
            r == self@.contains((period, account)),
    {
        let n: usize = self.entries.len();
        let mut i: usize = 0;
        while i < n
            invariant
                0 <= i <= n,
                n == self.entries@.len(),
                forall|j: int| 0 <= j < i ==> self.entries@[j] != (period, account),
            decreases n - i,
        {
            let e: (u32, AccountId) = self.entries[i];
            if e.0 == period && e.1 == account {
                return true;
            }
            i = i + 1;
        }
        false
    }

    /// Latch `(period, account)`.
    pub fn set(&mut self, period: u32, account: AccountId)
        ensures
            final (self)@ == old(self)@.insert((period, account)),
    {
        self.entries.push((period, account));
        proof {
            let oldlen = old(self).entries@.len();
            assert(self.entries@[oldlen as int] == (period, account));
            assert forall|p: (u32, AccountId)| self@.contains(p) implies old(self)@.insert(
                (period, account),
            ).contains(p) by {
                let i = choose|i: int| 0 <= i < self.entries@.len() && self.entries@[i] == p;
                if i < oldlen {
                    assert(old(self).entries@[i] == p);
                }
            }
            assert forall|p: (u32, AccountId)|
                old(self)@.insert((period, account)).contains(p) implies self@.contains(p) by {
                if p != (period, account) {
                    let i = choose|i: int|
                        0 <= i < old(self).entries@.len() && old(self).entries@[i] == p;
                    assert(self.entries@[i] == p);
                }
            }
            assert(self@ =~= old(self)@.insert((period, account)));
        }
    }
}

} // verus!
