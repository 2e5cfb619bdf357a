//! Reward arithmetic: whole days elapsed, the per-unit class A accrual and the
//! leftover budget that class B shares. Every quantity is computed exactly in
//! a widened domain and narrowed to 64 bits by saturation.

use vstd::prelude::*;

verus! {

/// Seconds in one reward day.
pub const SECONDS_PER_DAY: u64 = 86_400;

/// Days over which the daily budget spreads as the class A rate.
pub const DAYS_PER_YEAR: u64 = 365;

/// Narrowing to 64 bits: values beyond the ceiling stay at the ceiling.
pub open spec fn saturate(x: int) -> u64 {
    if x > u64::MAX {
        u64::MAX
    } else if x < 0 {
        0
    } else {
        x as u64
    }
}

/// Whole days from `last` to `now`. Part of a day counts for nothing, and so
/// does a clock that has not advanced.
pub open spec fn whole_days(last: int, now: int) -> nat {
    if now > last {
        ((now - last) / (SECONDS_PER_DAY as int)) as nat
    } else {
        0
    }
}

/// Reward accrued by `stake` units over `days` days at the class A rate of
/// `daily_reward / 365` per unit and day, truncated toward zero.
pub open spec fn accrual(stake: nat, daily_reward: nat, days: nat) -> u64 {
    saturate((stake * daily_reward * days / (DAYS_PER_YEAR as nat)) as int)
}

/// What is left of the budget of `days` days for class B once the pool-wide
/// class A accrual, taken on the whole of `total_staked`, is set aside.
pub open spec fn class_b_budget(daily_reward: nat, total_staked: nat, days: nat) -> u64 {
    saturate(saturate((daily_reward * days) as int) - accrual(total_staked, daily_reward, days))
}

/// The part of `budget` that falls to `class_b_stake` out of `total_staked`.
/// An empty pool shares out nothing.
pub open spec fn class_b_share(class_b_stake: nat, budget: nat, total_staked: nat) -> u64 {
    if total_staked == 0 {
        0
    } else {
        saturate((class_b_stake * budget / total_staked) as int)
    }
}

/// Reward owed for `days` days to a depositor holding `class_a_stake` and
/// `class_b_stake` in a pool of `total_staked` with budget `daily_reward`.
pub open spec fn reward_due(
    class_a_stake: nat,
    class_b_stake: nat,
    daily_reward: nat,
    total_staked: nat,
    days: nat,
) -> u64 {
    saturate(
        accrual(class_a_stake, daily_reward, days) + class_b_share(
            class_b_stake,
            class_b_budget(daily_reward, total_staked, days) as nat,
            total_staked,
        ),
    )
}

/// A product of two 64-bit values fits in 128 bits.
proof fn lemma_product_fits(a: u64, b: u64)
    ensures
        0 <= a * b <= u128::MAX,
{
    assert(0 <= a * b <= 0xffff_ffff_ffff_ffff * 0xffff_ffff_ffff_ffff) by (nonlinear_arith)
        requires
            0 <= a <= 0xffff_ffff_ffff_ffff,
            0 <= b <= 0xffff_ffff_ffff_ffff,
    ;
}

/// Whole days between the last settlement and `now`.
pub fn days_elapsed(last_update_time: i64, now: i64) -> (days: u64)
    ensures
        days == whole_days(last_update_time as int, now as int),
        now <= last_update_time ==> days == 0,
{
    if now <= last_update_time {
        0
    } else {
        let span: u64 = (now as i128 - last_update_time as i128) as u64;
        span / SECONDS_PER_DAY
    }
}

/// Class A accrual of `stake` over `days` days.
pub fn accrued_reward(stake: u64, daily_reward: u64, days: u64) -> (reward: u64)
    ensures
        reward == accrual(stake as nat, daily_reward as nat, days as nat),
{
    proof {
        lemma_product_fits(stake, daily_reward);
    }
    let per_year: u128 = (stake as u128) * (daily_reward as u128);
    match per_year.checked_mul(days as u128) {
        Some(total) => {
            let reward: u128 = total / (DAYS_PER_YEAR as u128);
            if reward > u64::MAX as u128 {
                u64::MAX
            } else {
                reward as u64
            }
        },
        None => u64::MAX,
    }
}

/// Budget left for class B over `days` days.
pub fn leftover_budget(daily_reward: u64, total_staked: u64, days: u64) -> (budget: u64)
    ensures
        budget == class_b_budget(daily_reward as nat, total_staked as nat, days as nat),
{
    let gross: u64 = match daily_reward.checked_mul(days) {
        Some(g) => g,
        None => u64::MAX,
    };
    gross.saturating_sub(accrued_reward(total_staked, daily_reward, days))
}

/// Share of `budget` owed to `class_b_stake`.
pub fn proportional_share(class_b_stake: u64, budget: u64, total_staked: u64) -> (share: u64)
    ensures
        share == class_b_share(class_b_stake as nat, budget as nat, total_staked as nat),
        total_staked == 0 ==> share == 0,
{
    if total_staked == 0 {
        0
    } else {
        proof {
            lemma_product_fits(class_b_stake, budget);
        }
        let weighted: u128 = (class_b_stake as u128) * (budget as u128);
        let share: u128 = weighted / (total_staked as u128);
        if share > u64::MAX as u128 {
            u64::MAX
        } else {
            share as u64
        }
    }
}

/// Reward owed to one depositor for `days` days.
pub fn reward_for(
    class_a_stake: u64,
    class_b_stake: u64,
    daily_reward: u64,
    total_staked: u64,
    days: u64,
) -> (reward: u64)
    ensures
        reward == reward_due(
            class_a_stake as nat,
            class_b_stake as nat,
            daily_reward as nat,
            total_staked as nat,
            days as nat,
        ),
{
    let class_a: u64 = accrued_reward(class_a_stake, daily_reward, days);
    let budget: u64 = leftover_budget(daily_reward, total_staked, days);
    let class_b: u64 = proportional_share(class_b_stake, budget, total_staked);
    class_a.saturating_add(class_b)
}

} // verus!
