//! A minimal account ledger: the concrete form of the abstract currency
//! capability the lottery and issuance transitions consume (`free_balance`,
//! `total_balance`, `total_issuance`, `minimum_balance`, `transfer`,
//! `deposit_creating`).
//!
//! Reserves and account reaping are not modelled: the callers only ever
//! transfer with keep-alive semantics, which never drops a payer below the
//! minimum balance.

use vstd::prelude::*;

use crate::AccountId;
use crate::Balance;
use crate::Error;

verus! {

/// The value recorded for `who`, scanning entries back to front; zero when no
/// entry exists. With unique keys the scan order is immaterial.
pub open spec fn entries_value(s: Seq<(AccountId, Balance)>, who: AccountId) -> Balance
    decreases s.len(),
{
    if s.len() == 0 {
        0
    } else if s.last().0 == who {
        s.last().1
    } else {
        entries_value(s.drop_last(), who)
    }
}

/// The sum of all recorded balances.
pub open spec fn entries_sum(s: Seq<(AccountId, Balance)>) -> int
    decreases s.len(),
{
    if s.len() == 0 {
        0
    } else {
        entries_sum(s.drop_last()) + s.last().1
    }
}

/// No account appears in two entries.
pub open spec fn entries_unique(s: Seq<(AccountId, Balance)>) -> bool {
    forall|i: int, j: int| 0 <= i < j < s.len() ==> s[i].0 != s[j].0
}

/// The account ledger.
pub struct Balances {
    /// One entry per account that has ever received funds.
    pub accounts: Vec<(AccountId, Balance)>,
    /// Total units in circulation.
    pub issuance: Balance,
    /// The existence threshold the host enforces on transfers.
    pub min_balance: Balance,
}

impl Balances {
    /// Ledger well-formedness: unique accounts, and the recorded issuance is
    /// exactly the sum of all balances.
    pub open spec fn wf(self) -> bool {
        &&& entries_unique(self.accounts@)
        &&& entries_sum(self.accounts@) == self.issuance as int
    }

    /// The balance recorded for `who` (zero when absent).
    pub open spec fn spec_balance(self, who: AccountId) -> Balance {
        entries_value(self.accounts@, who)
    }

    /// An empty ledger with the given existence threshold.
    pub fn new(min_balance: Balance) -> (r: Balances)
        ensures
            r.wf(),
            r.issuance == 0,
            r.min_balance == min_balance,
            forall|a: AccountId| r.spec_balance(a) == 0,
    {
        let r = Balances { accounts: Vec::new(), issuance: 0, min_balance };
        proof {
            assert(forall|a: AccountId| r.spec_balance(a) == 0) by {
                assert(forall|a: AccountId| entries_value(Seq::<(AccountId, Balance)>::empty(), a) == 0);
                assert(r.accounts@ =~= Seq::<(AccountId, Balance)>::empty());
            }
        }
        r
    }

    /// Position of the entry for `who`, when one exists.
    fn find_index(&self, who: AccountId) -> (r: Option<usize>)
        ensures
            match r {
                Some(i) => i < self.accounts@.len() && self.accounts@[i as int].0 == who,
                None => forall|k: int| 0 <= k < self.accounts@.len() ==> self.accounts@[k].0 != who,
            },
    {
        let mut i: usize = 0;
        while i < self.accounts.len()
            invariant
                i <= self.accounts@.len(),
                forall|k: int| 0 <= k < i ==> self.accounts@[k].0 != who,
            decreases self.accounts@.len() - i,
        {
            if self.accounts[i].0 == who {
                return Some(i);
            }
            i = i + 1;
        }
        None
    }

    /// The spendable balance of `who`.
    pub fn free_balance(&self, who: AccountId) -> (r: Balance)
        requires
            entries_unique(self.accounts@),
        ensures
            r == self.spec_balance(who),
    {
        match self.find_index(who) {
            Some(i) => {
                proof {
                    lemma_value_at_index(self.accounts@, i as int);
                }
                self.accounts[i].1
            },
            None => {
                proof {
                    lemma_value_absent(self.accounts@, who);
                }
                0
            },
        }
    }

    /// The total balance of `who`; no reserves are modelled, so it equals the
    /// free balance.
    pub fn total_balance(&self, who: AccountId) -> (r: Balance)
        requires
            entries_unique(self.accounts@),
        ensures
            r == self.spec_balance(who),
    {
        self.free_balance(who)
    }

    /// Total units in circulation.
    pub fn total_issuance(&self) -> (r: Balance)
        ensures
            r == self.issuance,
    {
        self.issuance
    }

    /// The existence threshold.
    pub fn minimum_balance(&self) -> (r: Balance)
        ensures
            r == self.min_balance,
    {
        self.min_balance
    }

    /// Record `v` as the balance of `who`, leaving every other account
    /// untouched. Issuance is not adjusted: callers restore the sum.
    fn write_balance(&mut self, who: AccountId, v: Balance)
        requires
            entries_unique(old(self).accounts@),
        ensures
            entries_unique(final(self).accounts@),
            final(self).spec_balance(who) == v,
            forall|a: AccountId| a != who ==> final(self).spec_balance(a) == old(self).spec_balance(a),
            entries_sum(final(self).accounts@)
                == entries_sum(old(self).accounts@) - old(self).spec_balance(who) + v,
            final(self).issuance == old(self).issuance,
            final(self).min_balance == old(self).min_balance,
    {
        let ghost s0 = self.accounts@;
        match self.find_index(who) {
            Some(i) => {
                let _ = self.accounts.remove(i);
                self.accounts.insert(i, (who, v));
                proof {
                    assert(self.accounts@ =~= s0.update(i as int, (who, v)));
                    lemma_value_at_index(s0, i as int);
                    lemma_update_value(s0, i as int, v);
                    lemma_update_sum(s0, i as int, v);
                }
            },
            None => {
                self.accounts.push((who, v));
                proof {
                    lemma_value_absent(s0, who);
                    assert(self.accounts@.drop_last() =~= s0);
                    assert(forall|a: AccountId| a != who
                        ==> entries_value(self.accounts@, a) == entries_value(s0, a));
                    assert(entries_sum(self.accounts@) == entries_sum(s0) + v);
                    assert forall|i: int, j: int| 0 <= i < j < self.accounts@.len()
                        implies self.accounts@[i].0 != self.accounts@[j].0 by {
                        if j == self.accounts@.len() - 1 {
                            assert(self.accounts@[i].0 == s0[i].0);
                        }
                    }
                }
            },
        }
    }

    /// Mint `amount` new units into the account of `who`, creating it if it
    /// does not exist yet.
    pub fn deposit_creating(&mut self, who: AccountId, amount: Balance)
        requires
            old(self).wf(),
            old(self).issuance + amount <= Balance::MAX,
        ensures
            final(self).wf(),
            final(self).issuance == old(self).issuance + amount,
            final(self).min_balance == old(self).min_balance,
            final(self).spec_balance(who) == old(self).spec_balance(who) + amount,
            forall|a: AccountId| a != who ==> final(self).spec_balance(a) == old(self).spec_balance(a),
    {
        proof {
            lemma_value_le_sum(self.accounts@, who);
        }
        let cur = self.free_balance(who);
        self.write_balance(who, cur + amount);
        self.issuance = self.issuance + amount;
    }

    /// Move `amount` from `from` to `to` with keep-alive semantics: the
    /// transfer succeeds exactly when `from` can afford it while staying at or
    /// above the existence threshold. On failure nothing changes.
    pub fn transfer(&mut self, from: AccountId, to: AccountId, amount: Balance) -> (r: Result<
        (),
        Error,
    >)
        requires
            old(self).wf(),
        ensures
            final(self).wf(),
            r is Ok <==> (old(self).spec_balance(from) >= amount
                && old(self).spec_balance(from) - amount >= old(self).min_balance),
            r is Err ==> *final(self) == *old(self) && r == Err::<(), Error>(Error::InsufficientBalance),
            r is Ok && from == to ==> *final(self) == *old(self),
            r is Ok && from != to ==> {
                &&& final(self).spec_balance(from) == old(self).spec_balance(from) - amount
                &&& final(self).spec_balance(to) == old(self).spec_balance(to) + amount
                &&& forall|a: AccountId| a != from && a != to
                    ==> final(self).spec_balance(a) == old(self).spec_balance(a)
            },
            final(self).issuance == old(self).issuance,
            final(self).min_balance == old(self).min_balance,
    {
        let from_balance = self.free_balance(from);
        if from_balance < amount || from_balance - amount < self.min_balance {
            return Err(Error::InsufficientBalance);
        }
        if from == to {
            return Ok(());
        }
        proof {
            lemma_value_pair_le_sum(self.accounts@, from, to);
        }
        let to_balance = self.free_balance(to);
        self.write_balance(from, from_balance - amount);
        self.write_balance(to, to_balance + amount);
        Ok(())
    }
}

/// In a ledger with unique keys, the entry at `i` is the value of its account.
proof fn lemma_value_at_index(s: Seq<(AccountId, Balance)>, i: int)
    requires
        0 <= i < s.len(),
        entries_unique(s),
    ensures
        entries_value(s, s[i].0) == s[i].1,
    decreases s.len(),
{
    if i < s.len() - 1 {
        assert(s.last().0 != s[i].0) by {
            assert(s[i].0 != s[s.len() - 1].0);
        }
        assert(entries_unique(s.drop_last())) by {
            assert(forall|k: int| 0 <= k < s.len() - 1 ==> s.drop_last()[k] == s[k]);
        }
        lemma_value_at_index(s.drop_last(), i);
        assert(s.drop_last()[i] == s[i]);
    }
}

/// An account with no entry has value zero.
proof fn lemma_value_absent(s: Seq<(AccountId, Balance)>, who: AccountId)
    requires
        forall|k: int| 0 <= k < s.len() ==> s[k].0 != who,
    ensures
        entries_value(s, who) == 0,
    decreases s.len(),
{
    if s.len() > 0 {
        lemma_value_absent(s.drop_last(), who);
    }
}

/// Updating the entry at `i` (keeping its account) moves that account's value
/// and leaves every other account's value unchanged.
proof fn lemma_update_value(s: Seq<(AccountId, Balance)>, i: int, v: Balance)
    requires
        0 <= i < s.len(),
        entries_unique(s),
    ensures
        entries_unique(s.update(i, (s[i].0, v))),
        entries_value(s.update(i, (s[i].0, v)), s[i].0) == v,
        forall|a: AccountId| a != s[i].0
            ==> entries_value(s.update(i, (s[i].0, v)), a) == entries_value(s, a),
    decreases s.len(),
{
    let t = s.update(i, (s[i].0, v));
    assert(entries_unique(t)) by {
        assert(forall|k: int| 0 <= k < s.len() ==> t[k].0 == s[k].0);
    }
    if i == s.len() - 1 {
        assert(t.last() == (s[i].0, v));
        assert(t.drop_last() =~= s.drop_last());
        assert forall|a: AccountId| a != s[i].0 implies entries_value(t, a) == entries_value(s, a) by {
            assert(s.last().0 == s[i].0);
        }
    } else {
        assert(t.last() == s.last());
        assert(t.drop_last() =~= s.drop_last().update(i, (s[i].0, v)));
        assert(entries_unique(s.drop_last())) by {
            assert(forall|k: int| 0 <= k < s.len() - 1 ==> s.drop_last()[k] == s[k]);
        }
        assert(s.drop_last()[i] == s[i]);
        lemma_update_value(s.drop_last(), i, v);
        // The last entry's account differs from the updated one by uniqueness.
        assert(s.last().0 != s[i].0) by {
            assert(s[s.len() - 1].0 != s[i].0);
        }
        assert forall|a: AccountId| a != s[i].0 implies entries_value(t, a) == entries_value(s, a) by {
            if t.last().0 != a {
                assert(entries_value(t, a) == entries_value(t.drop_last(), a));
                assert(entries_value(s, a) == entries_value(s.drop_last(), a));
            }
        }
    }
}

/// Updating the entry at `i` changes the sum by the difference at `i`.
proof fn lemma_update_sum(s: Seq<(AccountId, Balance)>, i: int, v: Balance)
    requires
        0 <= i < s.len(),
        entries_unique(s),
    ensures
        entries_sum(s.update(i, (s[i].0, v))) == entries_sum(s) - s[i].1 + v,
        entries_value(s, s[i].0) == s[i].1,
    decreases s.len(),
{
    let t = s.update(i, (s[i].0, v));
    if i == s.len() - 1 {
        assert(t.drop_last() =~= s.drop_last());
    } else {
        assert(t.last() == s.last());
        assert(t.drop_last() =~= s.drop_last().update(i, (s[i].0, v)));
        assert(entries_unique(s.drop_last())) by {
            assert(forall|k: int| 0 <= k < s.len() - 1 ==> s.drop_last()[k] == s[k]);
        }
        lemma_update_sum(s.drop_last(), i, v);
        assert(s.last().0 != s[i].0) by {
            assert(s[s.len() - 1].0 != s[i].0);
        }
    }
}

/// Every account's value is bounded by the sum of all balances.
pub proof fn lemma_value_le_sum(s: Seq<(AccountId, Balance)>, who: AccountId)
    ensures
        entries_value(s, who) <= entries_sum(s),
        entries_sum(s) >= 0,
    decreases s.len(),
{
    if s.len() > 0 {
        lemma_value_le_sum(s.drop_last(), who);
    }
}

/// Two distinct accounts together hold at most the sum of all balances.
pub proof fn lemma_value_pair_le_sum(s: Seq<(AccountId, Balance)>, a: AccountId, b: AccountId)
    requires
        a != b,
    ensures
        entries_value(s, a) + entries_value(s, b) <= entries_sum(s),
    decreases s.len(),
{
    if s.len() == 0 {
    } else if s.last().0 == a {
        lemma_value_le_sum(s.drop_last(), b);
    } else if s.last().0 == b {
        lemma_value_le_sum(s.drop_last(), a);
    } else {
        lemma_value_pair_le_sum(s.drop_last(), a, b);
    }
}

} // verus!
