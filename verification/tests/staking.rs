//! Checks of the staking engine's bookkeeping rules.

use custody_kernel::addr::Address;
use custody_kernel::errors::StakeError;
use custody_kernel::staking::{
    claim, initialize_user, unstake, StakeAccount, StakeConfig, UserAccount,
};

fn key(n: u8) -> Address {
    Address::from_bytes(vec![n; 32])
}

#[test]
fn initialize_user_starts_empty() {
    let user = initialize_user(254);
    assert_eq!(user.points, 0);
    assert_eq!(user.amount_staked, 0);
    assert_eq!(user.bump, 254);
}

#[test]
fn claim_scales_points_by_decimals_and_resets() {
    let mut user = UserAccount { points: 5, amount_staked: 2, bump: 7 };
    let reward = claim(&mut user, 3);
    assert_eq!(reward, 5000);
    assert_eq!(user.points, 0);
    assert_eq!(user.amount_staked, 2);
    assert_eq!(user.bump, 7);
}

#[test]
fn claim_with_no_points_pays_nothing() {
    let mut user = UserAccount { points: 0, amount_staked: 1, bump: 7 };
    assert_eq!(claim(&mut user, 9), 0);
    assert_eq!(user.points, 0);
}

#[test]
fn claim_with_zero_decimals_pays_the_points() {
    let mut user = UserAccount { points: 41, amount_staked: 1, bump: 7 };
    assert_eq!(claim(&mut user, 0), 41);
}

#[test]
fn unstake_before_the_freeze_period_fails() {
    let mut user = UserAccount { points: 3, amount_staked: 1, bump: 7 };
    let stake = StakeAccount { owner: key(1), mint: key(2), staked_at: 0, bump: 9 };
    let config = StakeConfig { points_per_stake: 4, freeze_period: 5, rewards_bump: 1, bump: 2 };
    // Four whole days have passed; five are required.
    let r = unstake(&mut user, &stake, &config, 86400 * 4 + 100);
    assert_eq!(r, Err(StakeError::FreezePeriodNotPassed));
    assert_eq!(user.points, 3);
    assert_eq!(user.amount_staked, 1);
}

#[test]
fn unstake_after_the_freeze_period_credits_points() {
    let mut user = UserAccount { points: 3, amount_staked: 2, bump: 7 };
    let stake = StakeAccount { owner: key(1), mint: key(2), staked_at: 86400, bump: 9 };
    let config = StakeConfig { points_per_stake: 4, freeze_period: 5, rewards_bump: 1, bump: 2 };
    // Exactly ten whole days after staking.
    let r = unstake(&mut user, &stake, &config, 86400 * 11);
    assert_eq!(r, Ok(()));
    assert_eq!(user.points, 3 + 10 * 4);
    assert_eq!(user.amount_staked, 1);
    assert_eq!(user.bump, 7);
}
