//! The proportional-share arithmetic of the pool.
//!
//! A withdrawing participant is entitled to `rewards * stake / balance`,
//! a ratio in `[0, 1]` of the undistributed reward pool. The payout adds
//! that entitlement, rounded half-up, to the full recorded stake; the
//! reward pool itself is decremented by the entitlement rounded down
//! (the fractional remainder stays in the pool).

use vstd::prelude::*;

verus! {

/// How many base value units make one whole unit of the pool's currency.
pub const ONE_NEAR: u128 = 1000000000000000000000000;

/// The value of one whole currency unit in base units, `10^24`.
pub fn one_near() -> (r: u128)
    ensures
        r == ONE_NEAR,
{
    ONE_NEAR
}

/// The reward entitlement `rewards * stake / balance`, rounded down.
/// An empty pool entitles to nothing.
pub open spec fn reward_floor(rewards: int, stake: int, balance: int) -> int {
    if balance <= 0 {
        0
    } else {
        (rewards * stake) / balance
    }
}

/// The reward entitlement `rewards * stake / balance`, rounded to the
/// nearest integer with ties rounded up (round-half-up).
/// An empty pool entitles to nothing.
pub open spec fn reward_rounded(rewards: int, stake: int, balance: int) -> int {
    if balance <= 0 {
        0
    } else if 2 * ((rewards * stake) % balance) >= balance {
        (rewards * stake) / balance + 1
    } else {
        (rewards * stake) / balance
    }
}

/// The amount a withdrawal transfers out: the participant's entire recorded
/// stake plus the rounded reward entitlement.
pub open spec fn payout(stake: int, rewards: int, balance: int) -> int {
    stake + reward_rounded(rewards, stake, balance)
}

/// Both rounding modes of the entitlement are bounded by the reward pool
/// whenever the stake does not exceed the pool balance.
pub proof fn lemma_reward_bounds(rewards: int, stake: int, balance: int)
    requires
        0 <= rewards,
        0 <= stake <= balance,
    ensures
        0 <= reward_floor(rewards, stake, balance),
        reward_floor(rewards, stake, balance) <= reward_rounded(rewards, stake, balance),
        reward_rounded(rewards, stake, balance) <= rewards,
{
    if balance > 0 {
        let n = rewards * stake;
        assert(0 <= rewards * stake && rewards * stake <= balance * rewards) by (nonlinear_arith)
            requires
                0 <= rewards,
                0 <= stake <= balance,
        ;
        vstd::arithmetic::div_mod::lemma_div_pos_is_pos(n, balance);
        vstd::arithmetic::div_mod::lemma_div_is_ordered(n, balance * rewards, balance);
        vstd::arithmetic::div_mod::lemma_div_multiples_vanish(rewards, balance);
        assert((balance * rewards) / balance == rewards);
        assert(n / balance <= rewards);
        if 2 * (n % balance) >= balance {
            // a round-up never reaches past the pool: if the quotient were
            // already `rewards`, the remainder would have to be zero
            vstd::arithmetic::div_mod::lemma_fundamental_div_mod(n, balance);
            assert(n == balance * (n / balance) + (n % balance));
            if n / balance == rewards {
                assert(n % balance == n - balance * rewards);
                assert(n % balance <= 0);
            }
            assert(n / balance < rewards);
        }
    }
}

/// Computes the reward entitlement of a participant with `stake` out of a
/// pool holding `balance` principal and `rewards` undistributed rewards.
/// Returns the entitlement rounded down and rounded half-up, in that order.
pub fn compute_reward(rewards: u64, stake: u64, balance: u64) -> (r: (u64, u64))
    requires
        stake <= balance,
    ensures
        r.0 == reward_floor(rewards as int, stake as int, balance as int),
        r.1 == reward_rounded(rewards as int, stake as int, balance as int),
        r.0 <= r.1 <= rewards,
{
    proof {
        lemma_reward_bounds(rewards as int, stake as int, balance as int);
    }
    if balance == 0 {
        (0, 0)
    } else {
        proof {
            assert((rewards as int) * (stake as int) <= u128::MAX) by (nonlinear_arith)
                requires
                    0 <= rewards <= u64::MAX,
                    0 <= stake <= u64::MAX,
            ;
        }
        let n: u128 = (rewards as u128) * (stake as u128);
        let d: u128 = balance as u128;
        let q: u128 = n / d;
        let rem: u128 = n % d;
        if 2 * rem >= d {
            ((q as u64), (q + 1) as u64)
        } else {
            ((q as u64), q as u64)
        }
    }
}

} // verus!
