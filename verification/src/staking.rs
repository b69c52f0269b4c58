//! The staking engine's bookkeeping: user accounts, stake records, and
//! the reward and unstake rules. Freezing, thawing, and minting are the
//! host's token primitives; the rules here take the clock reading and the
//! unpacked account values and compute every state change exactly.

use vstd::prelude::*;

use crate::addr::Address;
use crate::errors::StakeError;

verus! {

/// Per-user staking bookkeeping.
pub struct UserAccount {
    pub points: u32,
    pub amount_staked: u8,
    pub bump: u8,
}

/// The staking program's configuration.
pub struct StakeConfig {
    pub points_per_stake: u8,
    pub freeze_period: u32,
    pub rewards_bump: u8,
    pub bump: u8,
}

/// One staked token: who staked it, which mint, and when.
pub struct StakeAccount {
    pub owner: Address,
    pub mint: Address,
    pub staked_at: i64,
    pub bump: u8,
}

/// Ten to the `n`th power.
pub open spec fn pow10(n: nat) -> nat
    decreases n,
{
    if n == 0 {
        1
    } else {
        10 * pow10((n - 1) as nat)
    }
}

pub proof fn lemma_pow10_pos(n: nat)
    ensures
        pow10(n) >= 1,
    decreases n,
{
    if n > 0 {
        lemma_pow10_pos((n - 1) as nat);
    }
}

pub proof fn lemma_pow10_mono(a: nat, b: nat)
    requires
        a <= b,
    ensures
        pow10(a) <= pow10(b),
    decreases b,
{
    if a < b {
        lemma_pow10_mono(a, (b - 1) as nat);
        lemma_pow10_pos((b - 1) as nat);
    }
}

/// The number of whole days between staking and the clock reading `now`.
pub open spec fn days_between(staked_at: i64, now: i64) -> int {
    (now - staked_at) / 86400
}

/// A fresh user account: no points, nothing staked, the derivation proof
/// stored for later access.
pub fn initialize_user(bump: u8) -> (r: UserAccount)
    ensures
        r.points == 0,
        r.amount_staked == 0,
        r.bump == bump,
{
    UserAccount { points: 0, amount_staked: 0, bump }
}

/// Claims the accumulated reward: the user's points scaled by the reward
/// mint's decimals, and the points reset to zero.
pub fn claim(user: &mut UserAccount, decimals: u8) -> (r: u64)
    requires
        old(user).points * pow10(decimals as nat) <= u64::MAX,
    ensures
        r == old(user).points * pow10(decimals as nat),
        final(user).points == 0,
        final(user).amount_staked == old(user).amount_staked,
        final(user).bump == old(user).bump,
{
    let points = user.points;
    user.points = 0;
    if points == 0 {
        proof {
            assert((points as nat) * pow10(decimals as nat) == 0) by (nonlinear_arith)
                requires
                    points == 0,
            ;
        }
        return 0;
    }
    let mut acc: u64 = 1;
    let mut i: u8 = 0;
    while i < decimals
        invariant
            i <= decimals,
            acc == pow10(i as nat),
            points >= 1,
            points * pow10(decimals as nat) <= u64::MAX,
        decreases decimals - i,
    {
        proof {
            lemma_pow10_mono((i + 1) as nat, decimals as nat);
            assert(pow10(decimals as nat) <= points * pow10(decimals as nat))
                by (nonlinear_arith)
                requires points >= 1,
            ;
        }
        acc = acc * 10;
        i = i + 1;
    }
    proof {
        assert((points as nat) * (acc as nat) <= u64::MAX);
    }
    (points as u64) * acc
}

/// Unstakes one token: permitted once the freeze period has passed, it
/// credits the user with points for each elapsed day and decrements the
/// staked count. Before the freeze period has passed it fails and changes
/// nothing.
pub fn unstake(
    user: &mut UserAccount,
    stake: &StakeAccount,
    config: &StakeConfig,
    now: i64,
) -> (r: Result<(), StakeError>)
    requires
        stake.staked_at <= now,
        now - stake.staked_at <= i64::MAX,
        days_between(stake.staked_at, now) <= u32::MAX,
        days_between(stake.staked_at, now) >= config.freeze_period ==> {
            &&& old(user).points + days_between(stake.staked_at, now) * config.points_per_stake
                <= u32::MAX
            &&& old(user).amount_staked >= 1
        },
    ensures
        ({
            let days = days_between(stake.staked_at, now);
            if days < config.freeze_period {
                r == Err::<(), StakeError>(StakeError::FreezePeriodNotPassed) && *final(user)
                    == *old(user)
            } else {
                &&& r == Ok::<(), StakeError>(())
                &&& final(user).points == old(user).points + days * config.points_per_stake
                &&& final(user).amount_staked == old(user).amount_staked - 1
                &&& final(user).bump == old(user).bump
            }
        }),
{
    let diff: i64 = now - stake.staked_at;
    let days64: u64 = (diff as u64) / 86400;
    let days: u32 = days64 as u32;
    if days < config.freeze_period {
        return Err(StakeError::FreezePeriodNotPassed);
    }
    let earned: u32 = days * (config.points_per_stake as u32);
    user.points = user.points + earned;
    user.amount_staked = user.amount_staked - 1;
    Ok(())
}

} // verus!
