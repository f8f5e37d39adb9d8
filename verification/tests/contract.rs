use farm_pool::farmer::Farmer;
use farm_pool::ledger::{FContract, PoolError};

const OPERATOR: &str = "team12.testnet";

fn new_pool() -> FContract {
    FContract::new(OPERATOR.to_string())
}

#[test]
fn test_set_deposit() {
    let mut pool = new_pool();
    let r = pool.set_deposit(OPERATOR.to_string(), 1, 1);
    assert_eq!(r, Ok(()));
}

#[test]
fn set_deposit_team() {
    let mut pool = new_pool();
    // the pool must hold a deposit before rewards can be injected
    assert_eq!(pool.set_deposit(OPERATOR.to_string(), 1, 1), Ok(()));
    let r = pool.set_deposit_team(OPERATOR.to_string(), 1, 1);
    assert_eq!(r, Ok(()));
}

#[test]
fn set_withdrawal() {
    let mut pool = new_pool();
    // rewards must be present, but no record for the withdrawing account
    assert_eq!(pool.set_deposit("other.testnet".to_string(), 1, 1), Ok(()));
    assert_eq!(pool.set_deposit_team(OPERATOR.to_string(), 1, 1), Ok(()));
    let r = pool.set_withdrawal(OPERATOR.to_string(), OPERATOR.to_string(), 1);
    assert_eq!(r, Ok(None));
}

#[test]
fn deposit_rejects_zero_attached_value() {
    let mut pool = new_pool();
    let r = pool.set_deposit("alice.testnet".to_string(), 10, 0);
    assert_eq!(r, Err(PoolError::InvalidAmount));
    assert_eq!(pool.get_balance(), 0);
    assert!(pool.get_farmers().is_empty());
}

#[test]
fn balance_grows_by_each_declared_amount() {
    let mut pool = new_pool();
    assert_eq!(pool.set_deposit("alice.testnet".to_string(), 10, 1), Ok(()));
    assert_eq!(pool.get_balance(), 10);
    assert_eq!(pool.set_deposit("bob.testnet".to_string(), 25, 1), Ok(()));
    assert_eq!(pool.get_balance(), 35);
    // a repeat deposit overwrites the stake while the balance accumulates
    assert_eq!(pool.set_deposit("alice.testnet".to_string(), 7, 1), Ok(()));
    assert_eq!(pool.get_balance(), 42);
    let alice = pool.get_farmer("alice.testnet".to_string()).unwrap();
    assert_eq!(alice.amount, 7);
}

#[test]
fn reward_injection_requires_operator() {
    let mut pool = new_pool();
    assert_eq!(pool.set_deposit("alice.testnet".to_string(), 10, 1), Ok(()));
    let r = pool.set_deposit_team("alice.testnet".to_string(), 5, 1);
    assert_eq!(r, Err(PoolError::Unauthorized));
    assert_eq!(pool.get_rewards(), 0);
}

#[test]
fn reward_injection_fails_on_empty_pool() {
    let mut pool = new_pool();
    let r = pool.set_deposit_team(OPERATOR.to_string(), 5, 1);
    assert_eq!(r, Err(PoolError::PoolEmpty));
    assert_eq!(pool.get_rewards(), 0);
}

#[test]
fn reward_injection_rejects_zero_attached_value() {
    let mut pool = new_pool();
    assert_eq!(pool.set_deposit("alice.testnet".to_string(), 10, 1), Ok(()));
    let r = pool.set_deposit_team(OPERATOR.to_string(), 5, 0);
    assert_eq!(r, Err(PoolError::InvalidAmount));
    assert_eq!(pool.get_rewards(), 0);
}

#[test]
fn withdrawal_is_self_service_only() {
    let mut pool = new_pool();
    assert_eq!(pool.set_deposit("alice.testnet".to_string(), 10, 1), Ok(()));
    assert_eq!(pool.set_deposit_team(OPERATOR.to_string(), 5, 1), Ok(()));
    let r = pool.set_withdrawal("bob.testnet".to_string(), "alice.testnet".to_string(), 5);
    assert_eq!(r, Err(PoolError::Unauthorized));
    assert_eq!(pool.get_balance(), 10);
    assert_eq!(pool.get_rewards(), 5);
}

#[test]
fn withdrawal_blocked_until_rewards_injected() {
    let mut pool = new_pool();
    assert_eq!(pool.set_deposit("alice.testnet".to_string(), 10, 1), Ok(()));
    let r = pool.set_withdrawal("alice.testnet".to_string(), "alice.testnet".to_string(), 5);
    assert_eq!(r, Err(PoolError::NoRewardsAvailable));
    assert_eq!(pool.get_balance(), 10);
}

#[test]
fn withdrawal_for_unknown_account_returns_false() {
    let mut pool = new_pool();
    assert_eq!(pool.set_deposit("alice.testnet".to_string(), 10, 1), Ok(()));
    assert_eq!(pool.set_deposit_team(OPERATOR.to_string(), 5, 1), Ok(()));
    let r = pool.set_withdrawal("carol.testnet".to_string(), "carol.testnet".to_string(), 5);
    assert_eq!(r, Ok(None));
    assert_eq!(pool.get_balance(), 10);
    assert_eq!(pool.get_rewards(), 5);
}

#[test]
fn withdrawal_rejects_amount_above_stake() {
    let mut pool = new_pool();
    assert_eq!(pool.set_deposit("alice.testnet".to_string(), 10, 1), Ok(()));
    assert_eq!(pool.set_deposit_team(OPERATOR.to_string(), 5, 1), Ok(()));
    let r = pool.set_withdrawal("alice.testnet".to_string(), "alice.testnet".to_string(), 11);
    assert_eq!(r, Err(PoolError::InsufficientStake));
    assert_eq!(pool.get_balance(), 10);
    assert_eq!(pool.get_rewards(), 5);
    assert_eq!(pool.get_farmer("alice.testnet".to_string()).unwrap().amount, 10);
}

#[test]
fn withdrawal_fails_loudly_when_payout_overflows_base_units() {
    let mut pool = new_pool();
    // 4 * 10^14 whole units times 10^24 base units per unit exceeds u128
    let huge: u64 = 400_000_000_000_000;
    assert_eq!(pool.set_deposit("alice.testnet".to_string(), huge, 1), Ok(()));
    assert_eq!(pool.set_deposit_team(OPERATOR.to_string(), 1, 1), Ok(()));
    let r = pool.set_withdrawal("alice.testnet".to_string(), "alice.testnet".to_string(), 1);
    assert_eq!(r, Err(PoolError::Overflow));
    assert_eq!(pool.get_balance(), huge);
    assert_eq!(pool.get_rewards(), 1);
    assert_eq!(pool.get_farmer("alice.testnet".to_string()).unwrap().amount, huge);
}

#[test]
fn from_parts_rejects_broken_invariants() {
    let dup = vec![
        Farmer::new("alice.testnet".to_string(), 1),
        Farmer::new("alice.testnet".to_string(), 2),
    ];
    assert!(FContract::from_parts(OPERATOR.to_string(), dup, 10, 0).is_none());
    let heavy = vec![Farmer::new("alice.testnet".to_string(), 11)];
    assert!(FContract::from_parts(OPERATOR.to_string(), heavy, 10, 0).is_none());
    let fine = vec![
        Farmer::new("alice.testnet".to_string(), 4),
        Farmer::new("bob.testnet".to_string(), 6),
    ];
    let pool = FContract::from_parts(OPERATOR.to_string(), fine, 10, 3).unwrap();
    assert_eq!(pool.get_balance(), 10);
    assert_eq!(pool.get_rewards(), 3);
    assert_eq!(pool.get_farmers().len(), 2);
}
