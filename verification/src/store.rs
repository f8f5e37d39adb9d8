//! The participant store: a keyed mapping from account identity to the
//! participant's record, kept as a vector in insertion order.

use vstd::prelude::*;
use crate::farmer::Farmer;

verus! {

/// The sum of the recorded stakes of a sequence of participants.
pub open spec fn sum_stakes(s: Seq<Farmer>) -> int
    decreases s.len(),
{
    if s.len() == 0 {
        0
    } else {
        sum_stakes(s.drop_last()) + s.last().amount
    }
}

/// Whether some participant in `s` has the account `a`.
pub open spec fn contains_account(s: Seq<Farmer>, a: Seq<char>) -> bool {
    exists|i: int| 0 <= i < s.len() && s[i].account@ == a
}

/// The index of the participant with account `a` (meaningful when the
/// accounts of `s` are distinct and `a` is among them).
pub open spec fn account_index(s: Seq<Farmer>, a: Seq<char>) -> int {
    choose|i: int| 0 <= i < s.len() && s[i].account@ == a
}

/// The recorded stake of the participant with account `a`.
pub open spec fn stake_of(s: Seq<Farmer>, a: Seq<char>) -> u64 {
    s[account_index(s, a)].amount
}

/// No two participants share an account.
pub open spec fn accounts_distinct(s: Seq<Farmer>) -> bool {
    forall|i: int, j: int| 0 <= i < j < s.len() ==> s[i].account@ != s[j].account@
}

/// The sequence after an upsert of `f`: the record with the same account is
/// replaced where one exists, else `f` is appended.
pub open spec fn upserted(s: Seq<Farmer>, f: Farmer) -> Seq<Farmer> {
    if contains_account(s, f.account@) {
        s.update(account_index(s, f.account@), f)
    } else {
        s.push(f)
    }
}

/// A sum of stakes is never negative.
pub proof fn lemma_sum_nonneg(s: Seq<Farmer>)
    ensures
        sum_stakes(s) >= 0,
    decreases s.len(),
{
    if s.len() > 0 {
        lemma_sum_nonneg(s.drop_last());
    }
}

/// Replacing the record at `i` moves the sum by the difference of the stakes.
pub proof fn lemma_sum_update(s: Seq<Farmer>, i: int, f: Farmer)
    requires
        0 <= i < s.len(),
    ensures
        sum_stakes(s.update(i, f)) == sum_stakes(s) - s[i].amount + f.amount,
    decreases s.len(),
{
    let t = s.update(i, f);
    if i == s.len() - 1 {
        assert(t.drop_last() =~= s.drop_last());
    } else {
        assert(t.drop_last() =~= s.drop_last().update(i, f));
        lemma_sum_update(s.drop_last(), i, f);
    }
}

/// Appending a record adds its stake to the sum.
pub proof fn lemma_sum_push(s: Seq<Farmer>, f: Farmer)
    ensures
        sum_stakes(s.push(f)) == sum_stakes(s) + f.amount,
{
    assert(s.push(f).drop_last() =~= s);
}

/// No single stake exceeds the sum of all stakes.
pub proof fn lemma_stake_le_sum(s: Seq<Farmer>, i: int)
    requires
        0 <= i < s.len(),
    ensures
        s[i].amount <= sum_stakes(s),
    decreases s.len(),
{
    if i == s.len() - 1 {
        lemma_sum_nonneg(s.drop_last());
    } else {
        lemma_stake_le_sum(s.drop_last(), i);
    }
}

/// A keyed store of participant records. The key of a record is its own
/// `account` field; the store keeps at most one record per account, in
/// insertion order. The store offers no atomicity of its own: the ledger
/// that owns it serialises read-modify-write sequences.
pub struct ParticipantStore {
    farmers: Vec<Farmer>,
}

impl ParticipantStore {
    /// The records of the store, in insertion order.
    pub closed spec fn seq(&self) -> Seq<Farmer> {
        self.farmers@
    }

    /// Well-formed: no two records share an account.
    pub open spec fn wf(&self) -> bool {
        accounts_distinct(self.seq())
    }

    /// An empty store.
    pub fn new() -> (r: Self)
        ensures
            r.seq() == Seq::<Farmer>::empty(),
            r.wf(),
    {
        ParticipantStore { farmers: Vec::new() }
    }

    /// Wraps an externally supplied vector of records as a store. The
    /// records are taken as they come: whether their accounts are distinct
    /// is for the caller to establish, for instance through `distinct`.
    pub fn from_vec(farmers: Vec<Farmer>) -> (r: Self)
        ensures
            r.seq() == farmers@,
    {
        ParticipantStore { farmers }
    }

    /// Whether no two records of the store share an account.
    pub fn distinct(&self) -> (r: bool)
        ensures
            r == accounts_distinct(self.seq()),
    {
        let n = self.farmers.len();
        let mut i: usize = 0;
        while i < n
            invariant
                0 <= i <= n,
                n == self.seq().len(),
                forall|p: int, q: int|
                    0 <= p < q < self.seq().len() && p < i ==> self.seq()[p].account@
                        != self.seq()[q].account@,
            decreases n - i,
        {
            let mut j: usize = i + 1;
            while j < n
                invariant
                    0 <= i < j <= n,
                    n == self.seq().len(),
                    forall|q: int|
                        i < q < j ==> self.seq()[i as int].account@ != self.seq()[q].account@,
                decreases n - j,
            {
                if self.farmers[i].account == self.farmers[j].account {
                    proof {
                        assert(self.seq()[i as int].account@ == self.seq()[j as int].account@);
                    }
                    return false;
                }
                j = j + 1;
            }
            i = i + 1;
        }
        true
    }

    /// The sum of all recorded stakes.
    pub fn total_stake(&self) -> (r: u128)
        ensures
            r == sum_stakes(self.seq()),
    {
        let n = self.farmers.len();
        let mut acc: u128 = 0;
        let mut i: usize = 0;
        while i < n
            invariant
                0 <= i <= n,
                n == self.seq().len(),
                acc == sum_stakes(self.seq().take(i as int)),
                acc <= i * u64::MAX,
            decreases n - i,
        {
            proof {
                assert(self.seq().take(i as int + 1).drop_last() =~= self.seq().take(i as int));
                assert((i as int + 1) * u64::MAX == i as int * u64::MAX + u64::MAX)
                    by (nonlinear_arith);
                assert((i as int + 1) * u64::MAX <= 0x1_0000_0000_0000_0000 * (u64::MAX as int))
                    by (nonlinear_arith)
                    requires
                        i as int + 1 <= 0x1_0000_0000_0000_0000,
                ;
            }
            acc = acc + (self.farmers[i].amount as u128);
            i = i + 1;
        }
        proof {
            assert(self.seq().take(n as int) =~= self.seq());
        }
        acc
    }

    /// The position of the record with `account`, if one exists.
    fn find(&self, account: &String) -> (r: Option<usize>)
        ensures
            match r {
                Some(i) => 0 <= i < self.seq().len() && self.seq()[i as int].account@ == account@,
                None => !contains_account(self.seq(), account@),
            },
    {
        let n = self.farmers.len();
        let mut i: usize = 0;
        while i < n
            invariant
                0 <= i <= n,
                n == self.seq().len(),
                forall|j: int| 0 <= j < i ==> self.seq()[j].account@ != account@,
            decreases n - i,
        {
            if self.farmers[i].account == *account {
                return Some(i);
            }
            i = i + 1;
        }
        None
    }

    /// Whether the store holds a record for `account`.
    pub fn exists_account(&self, account: &String) -> (r: bool)
        ensures
            r == contains_account(self.seq(), account@),
    {
        self.find(account).is_some()
    }

    /// Looks a record up by account; returns a copy of it.
    pub fn get(&self, account: &String) -> (r: Option<Farmer>)
        requires
            self.wf(),
        ensures
            match r {
                Some(f) => contains_account(self.seq(), account@)
                    && f.account@ == account@
                    && f.amount == stake_of(self.seq(), account@),
                None => !contains_account(self.seq(), account@),
            },
    {
        match self.find(account) {
            Some(i) => {
                let f = &self.farmers[i];
                proof {
                    let k = account_index(self.seq(), account@);
                    assert(0 <= k < self.seq().len() && self.seq()[k].account@ == account@);
                }
                Some(Farmer { account: f.account.clone(), amount: f.amount })
            }
            None => None,
        }
    }

    /// Inserts or replaces the record whose key is `f.account`
    /// (upsert, last write wins).
    pub fn put(&mut self, f: Farmer)
        requires
            old(self).wf(),
        ensures
            final(self).seq() == upserted(old(self).seq(), f),
            final(self).wf(),
            sum_stakes(final(self).seq()) == sum_stakes(old(self).seq()) + f.amount - (
                if contains_account(old(self).seq(), f.account@) {
                    stake_of(old(self).seq(), f.account@) as int
                } else {
                    0
                }
            ),
    {
        let ghost s0 = self.seq();
        match self.find(&f.account) {
            Some(i) => {
                proof {
                    let k = account_index(s0, f.account@);
                    assert(0 <= k < s0.len() && s0[k].account@ == f.account@);
                    assert(k == i);
                    lemma_sum_update(s0, i as int, f);
                }
                self.farmers.set(i, f);
            }
            None => {
                proof {
                    lemma_sum_push(s0, f);
                }
                self.farmers.push(f);
            }
        }
    }

    /// A copy of every record, in insertion order.
    pub fn list(&self) -> (r: Vec<Farmer>)
        ensures
            r@ == self.seq(),
    {
        let n = self.farmers.len();
        let mut out: Vec<Farmer> = Vec::new();
        let mut i: usize = 0;
        while i < n
            invariant
                0 <= i <= n,
                n == self.seq().len(),
                out@ =~= self.seq().take(i as int),
            decreases n - i,
        {
            let f = &self.farmers[i];
            out.push(Farmer { account: f.account.clone(), amount: f.amount });
            proof {
                assert(out@ =~= self.seq().take(i as int + 1));
            }
            i = i + 1;
        }
        proof {
            assert(self.seq().take(n as int) =~= self.seq());
        }
        out
    }
}

} // verus!
