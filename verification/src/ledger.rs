//! The pool ledger: the aggregate `balance` and `rewards` counters, the
//! participant store, and the deposit / reward-injection / withdrawal
//! operations with their settlement arithmetic.
//!
//! Every operation is a whole transaction: on any failure the ledger is left
//! exactly as it was. The caller authenticates identities and moves value;
//! the ledger only decides amounts. A successful withdrawal hands back the
//! exact number of base value units the caller must transfer out.

use vstd::prelude::*;
use crate::farmer::Farmer;
use crate::math::{compute_reward, payout, reward_floor, reward_rounded, ONE_NEAR};
use crate::store::{
    account_index, accounts_distinct, contains_account, lemma_stake_le_sum, stake_of, sum_stakes,
    upserted, ParticipantStore,
};

verus! {

/// Why an operation was refused. Every refusal aborts the call with no
/// state change and no value transferred.
#[derive(Clone, Copy, Debug, PartialEq, Eq)]
pub enum PoolError {
    /// The caller attached no value to a call that requires a positive one.
    InvalidAmount,
    /// The caller is not allowed to perform this action: reward injection
    /// by anyone but the operator, or a withdrawal for someone else.
    Unauthorized,
    /// Rewards cannot be injected while no principal is in the pool.
    PoolEmpty,
    /// Withdrawals are blocked until the operator has injected rewards.
    NoRewardsAvailable,
    /// The requested withdrawal exceeds the participant's recorded stake.
    InsufficientStake,
    /// The payout does not fit the base value unit range; the call fails
    /// loudly and nothing is committed.
    Overflow,
}

/// The pooled-deposit ledger.
///
/// `balance` accumulates every declared deposit and shrinks by every
/// withdrawn amount; `rewards` is the undistributed reward pool. A repeat
/// deposit overwrites the participant's stake (last-write-wins) while
/// `balance` keeps accumulating, so the ledger maintains
/// `sum of stakes <= balance` rather than equality.
pub struct FContract {
    farmers: ParticipantStore,
    balance: u64,
    rewards: u64,
    operator: String,
}

impl FContract {
    /// The participant records, in insertion order.
    pub closed spec fn farmers_seq(&self) -> Seq<Farmer> {
        self.farmers.seq()
    }

    /// The aggregate pool balance.
    pub closed spec fn spec_balance(&self) -> u64 {
        self.balance
    }

    /// The undistributed reward pool.
    pub closed spec fn spec_rewards(&self) -> u64 {
        self.rewards
    }

    /// The identity allowed to inject rewards.
    pub closed spec fn spec_operator(&self) -> Seq<char> {
        self.operator@
    }

    /// The ledger invariant: accounts are unique, and the pool balance
    /// covers the sum of all recorded stakes.
    pub open spec fn wf(&self) -> bool {
        &&& accounts_distinct(self.farmers_seq())
        &&& sum_stakes(self.farmers_seq()) <= self.spec_balance()
    }

    /// A fresh, empty ledger. The privileged operator identity is supplied
    /// here rather than compiled in.
    pub fn new(operator: String) -> (r: FContract)
        ensures
            r.wf(),
            r.farmers_seq() == Seq::<Farmer>::empty(),
            r.spec_balance() == 0,
            r.spec_rewards() == 0,
            r.spec_operator() == operator@,
    {
        FContract { farmers: ParticipantStore::new(), balance: 0, rewards: 0, operator }
    }

    /// Rebuilds a ledger from externally persisted parts, for a host that
    /// keeps the state between calls. Returns `None` when the parts break
    /// the ledger invariant: a duplicated account, or stakes summing past
    /// `balance`.
    pub fn from_parts(operator: String, farmers: Vec<Farmer>, balance: u64, rewards: u64) -> (r:
        Option<FContract>)
        ensures
            match r {
                Some(c) => {
                    &&& accounts_distinct(farmers@)
                    &&& sum_stakes(farmers@) <= balance
                    &&& c.wf()
                    &&& c.farmers_seq() == farmers@
                    &&& c.spec_balance() == balance
                    &&& c.spec_rewards() == rewards
                    &&& c.spec_operator() == operator@
                },
                None => !(accounts_distinct(farmers@) && sum_stakes(farmers@) <= balance),
            },
    {
        let store = ParticipantStore::from_vec(farmers);
        if !store.distinct() {
            return None;
        }
        let total = store.total_stake();
        if total > balance as u128 {
            return None;
        }
        Some(FContract { farmers: store, balance, rewards, operator })
    }

    /// Records a deposit: creates or overwrites the signer's record with
    /// `stake = amount` and grows `balance` by `amount`. The recorded stake
    /// is the caller-declared `amount`, not the `attached` value actually
    /// moved in the call: the two are independent inputs, decoupled on
    /// purpose. Fails with `InvalidAmount` when nothing was attached.
    pub fn set_deposit(&mut self, signer: String, amount: u64, attached: u128) -> (r: Result<
        (),
        PoolError,
    >)
        requires
            old(self).wf(),
            attached > 0 ==> old(self).spec_balance() + amount <= u64::MAX,
        ensures
            final(self).wf(),
            attached == 0 ==> r == Err::<(), PoolError>(PoolError::InvalidAmount) && *final(self)
                == *old(self),
            attached > 0 ==> {
                &&& r == Ok::<(), PoolError>(())
                &&& final(self).farmers_seq() == upserted(
                    old(self).farmers_seq(),
                    (Farmer { account: signer, amount }),
                )
                &&& final(self).spec_balance() == old(self).spec_balance() + amount
                &&& final(self).spec_rewards() == old(self).spec_rewards()
                &&& final(self).spec_operator() == old(self).spec_operator()
            },
    {
        if attached == 0 {
            return Err(PoolError::InvalidAmount);
        }
        let farmer = Farmer::new(signer, amount);
        self.farmers.put(farmer);
        self.balance = self.balance + amount;
        Ok(())
    }

    /// Injects `amount` into the reward pool. Only the configured operator
    /// may do so (`Unauthorized` otherwise); the pool must already hold
    /// deposits (`PoolEmpty` otherwise); and the call must attach positive
    /// value (`InvalidAmount` otherwise). Participant records are untouched.
    pub fn set_deposit_team(&mut self, signer: String, amount: u64, attached: u128) -> (r: Result<
        (),
        PoolError,
    >)
        requires
            old(self).wf(),
            (signer@ == old(self).spec_operator() && old(self).spec_balance() > 0 && attached > 0)
                ==> old(self).spec_rewards() + amount <= u64::MAX,
        ensures
            final(self).wf(),
            signer@ != old(self).spec_operator() ==> r == Err::<(), PoolError>(
                PoolError::Unauthorized,
            ) && *final(self) == *old(self),
            old(self).spec_balance() == 0 ==> r is Err && *final(self) == *old(self),
            signer@ == old(self).spec_operator() && old(self).spec_balance() == 0 ==> r == Err::<
                (),
                PoolError,
            >(PoolError::PoolEmpty),
            signer@ == old(self).spec_operator() && old(self).spec_balance() > 0 && attached == 0
                ==> r == Err::<(), PoolError>(PoolError::InvalidAmount) && *final(self) == *old(
                self,
            ),
            signer@ == old(self).spec_operator() && old(self).spec_balance() > 0 && attached > 0
                ==> {
                &&& r == Ok::<(), PoolError>(())
                &&& final(self).spec_rewards() == old(self).spec_rewards() + amount
                &&& final(self).spec_balance() == old(self).spec_balance()
                &&& final(self).farmers_seq() == old(self).farmers_seq()
                &&& final(self).spec_operator() == old(self).spec_operator()
            },
    {
        if !(signer == self.operator) {
            return Err(PoolError::Unauthorized);
        }
        if self.balance == 0 {
            return Err(PoolError::PoolEmpty);
        }
        if attached == 0 {
            return Err(PoolError::InvalidAmount);
        }
        self.rewards = self.rewards + amount;
        Ok(())
    }

    /// Looks a participant up by account.
    pub fn get_farmer(&self, account: String) -> (r: Option<Farmer>)
        requires
            self.wf(),
        ensures
            match r {
                Some(f) => contains_account(self.farmers_seq(), account@) && f.account@ == account@
                    && f.amount == stake_of(self.farmers_seq(), account@),
                None => !contains_account(self.farmers_seq(), account@),
            },
    {
        self.farmers.get(&account)
    }

    /// Every participant record, in insertion order.
    pub fn get_farmers(&self) -> (r: Vec<Farmer>)
        ensures
            r@ == self.farmers_seq(),
    {
        self.farmers.list()
    }

    /// The aggregate pool balance.
    pub fn get_balance(&self) -> (r: u64)
        ensures
            r == self.spec_balance(),
    {
        self.balance
    }

    /// The undistributed reward pool.
    pub fn get_rewards(&self) -> (r: u64)
        ensures
            r == self.spec_rewards(),
    {
        self.rewards
    }

    /// Settles a withdrawal for `account`, requested by `signer`.
    ///
    /// Self-service only: `signer` must equal `account` (`Unauthorized`
    /// otherwise), and nothing may be withdrawn before the first reward
    /// injection (`NoRewardsAvailable` otherwise). An unknown account is
    /// not an error: the call returns `Ok(None)` and changes nothing.
    ///
    /// For a known participant with `amount <= stake`, the payout is the
    /// entire current stake plus the reward entitlement
    /// `rewards * stake / balance` rounded half-up, even though the stake
    /// itself is only reduced by `amount`. The payout converted to base
    /// units (times `ONE_NEAR`) is returned as `Ok(Some(..))` for the
    /// caller to transfer; if that conversion overflows, the call fails
    /// with `Overflow` and nothing is committed. On success the ledger
    /// commits `stake -= amount`, `balance -= amount`, and
    /// `rewards -= entitlement rounded down`.
    pub fn set_withdrawal(&mut self, signer: String, account: String, amount: u64) -> (r: Result<
        Option<u128>,
        PoolError,
    >)
        requires
            old(self).wf(),
        ensures
            final(self).wf(),
            signer@ != account@ ==> r == Err::<Option<u128>, PoolError>(PoolError::Unauthorized)
                && *final(self) == *old(self),
            signer@ == account@ && old(self).spec_rewards() == 0 ==> r == Err::<
                Option<u128>,
                PoolError,
            >(PoolError::NoRewardsAvailable) && *final(self) == *old(self),
            signer@ == account@ && old(self).spec_rewards() > 0 && !contains_account(
                old(self).farmers_seq(),
                account@,
            ) ==> r == Ok::<Option<u128>, PoolError>(None) && *final(self) == *old(self),
            signer@ == account@ && old(self).spec_rewards() > 0 && contains_account(
                old(self).farmers_seq(),
                account@,
            ) ==> {
                let s0 = old(self).farmers_seq();
                let stake = stake_of(s0, account@) as int;
                let rew = old(self).spec_rewards() as int;
                let bal = old(self).spec_balance() as int;
                &&& (amount > stake ==> r == Err::<Option<u128>, PoolError>(
                    PoolError::InsufficientStake,
                ) && *final(self) == *old(self))
                &&& (amount <= stake && payout(stake, rew, bal) * ONE_NEAR > u128::MAX ==> r
                    == Err::<Option<u128>, PoolError>(PoolError::Overflow) && *final(self) == *old(
                    self,
                ))
                &&& (amount <= stake && payout(stake, rew, bal) * ONE_NEAR <= u128::MAX ==> {
                    &&& r == Ok::<Option<u128>, PoolError>(
                        Some((payout(stake, rew, bal) * ONE_NEAR) as u128),
                    )
                    &&& final(self).farmers_seq() == s0.update(
                        account_index(s0, account@),
                        (Farmer { account, amount: (stake - amount) as u64 }),
                    )
                    &&& final(self).spec_balance() == old(self).spec_balance() - amount
                    &&& final(self).spec_rewards() == rew - reward_floor(rew, stake, bal)
                    &&& final(self).spec_operator() == old(self).spec_operator()
                })
            },
    {
        if !(signer == account) {
            return Err(PoolError::Unauthorized);
        }
        if self.rewards == 0 {
            return Err(PoolError::NoRewardsAvailable);
        }
        match self.farmers.get(&account) {
            None => Ok(None),
            Some(farmer) => {
                if amount > farmer.amount {
                    return Err(PoolError::InsufficientStake);
                }
                let ghost s0 = self.farmers_seq();
                proof {
                    let k = account_index(s0, account@);
                    lemma_stake_le_sum(s0, k);
                }
                let (reward_down, reward_up) = compute_reward(
                    self.rewards,
                    farmer.amount,
                    self.balance,
                );
                let payout_units: u128 = farmer.amount as u128 + reward_up as u128;
                match payout_units.checked_mul(ONE_NEAR) {
                    None => Err(PoolError::Overflow),
                    Some(base_units) => {
                        let updated = Farmer::new(account, farmer.amount - amount);
                        self.farmers.put(updated);
                        self.balance = self.balance - amount;
                        self.rewards = self.rewards - reward_down;
                        Ok(Some(base_units))
                    },
                }
            },
        }
    }
}

} // verus!
