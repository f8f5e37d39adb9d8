//! The per-participant record: an account identity and its recorded stake.

use vstd::prelude::*;

verus! {

/// One participant of the pool: the `account` string is the unique key, and
/// `amount` is the principal the participant has recorded in the pool.
/// A participant is never deleted; a fully withdrawn one keeps a record
/// with `amount == 0`.
pub struct Farmer {
    pub account: String,
    pub amount: u64,
}

impl Farmer {
    /// Builds a participant record from its identity and stake.
    pub fn new(account: String, amount: u64) -> (r: Self)
        ensures
            r == (Farmer { account, amount }),
            r.account@ == account@,
            r.amount == amount,
    {
        Self { account, amount }
    }
}

impl Default for Farmer {
    /// The empty record: no identity, no stake.
    fn default() -> (r: Self)
        ensures
            r.account@ == Seq::<char>::empty(),
            r.amount == 0,
    {
        Farmer { account: String::new(), amount: 0 }
    }
}

} // verus!
