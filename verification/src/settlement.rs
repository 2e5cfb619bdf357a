//! Settlement on touch: turning the whole days that have passed since a
//! ledger was last settled into reward debt.

use crate::ledger::{RewardPool, UserStakeLedger};
use crate::reward_math::{
    accrual, class_b_budget, class_b_share, days_elapsed, reward_due, reward_for, saturate,
    whole_days,
};
use vstd::prelude::*;

verus! {

/// Reward owed to `ledger` for `days` days, at the pool's budget and its
/// total stake as they stand now.
pub open spec fn owed(pool: RewardPool, ledger: UserStakeLedger, days: nat) -> u64 {
    reward_due(
        ledger.class_a_staked as nat,
        ledger.class_b_staked as nat,
        pool.daily_reward as nat,
        pool.total_staked as nat,
        days,
    )
}

/// The ledger as settlement at `now` leaves it. With no whole day elapsed
/// nothing changes. Otherwise the reward for the whole days is added to the
/// debt, and the ledger is stamped with `now` itself, so that the part of a
/// day beyond the whole days is dropped for good.
pub open spec fn settled(pool: RewardPool, ledger: UserStakeLedger, now: i64) -> UserStakeLedger {
    let days = whole_days(ledger.last_update_time as int, now as int);
    if days == 0 {
        ledger
    } else {
        UserStakeLedger {
            reward_debt: saturate(ledger.reward_debt + owed(pool, ledger, days)),
            last_update_time: now,
            ..ledger
        }
    }
}

/// Where nothing is staked nothing is owed.
pub proof fn lemma_nothing_staked_nothing_owed(pool: RewardPool, ledger: UserStakeLedger, days: nat)
    requires
        ledger.class_a_staked == 0,
        ledger.class_b_staked == 0,
    ensures
        owed(pool, ledger, days) == 0,
{
    let daily = pool.daily_reward as nat;
    let total = pool.total_staked as nat;
    let budget = class_b_budget(daily, total, days) as nat;
    assert(0nat * daily * days == 0) by (nonlinear_arith);
    assert(0nat * budget == 0) by (nonlinear_arith);
    if total != 0 {
        assert(0nat / total == 0) by (nonlinear_arith)
            requires
                total > 0,
        ;
    }
}

/// Against a pool that counts no stake at all, class B earns nothing: what
/// is owed is the class A accrual alone, and no division takes place.
pub proof fn lemma_empty_pool_owes_class_a_only(
    pool: RewardPool,
    ledger: UserStakeLedger,
    days: nat,
)
    requires
        pool.total_staked == 0,
    ensures
        class_b_share(
            ledger.class_b_staked as nat,
            class_b_budget(pool.daily_reward as nat, 0, days) as nat,
            0,
        ) == 0,
        owed(pool, ledger, days) == accrual(
            ledger.class_a_staked as nat,
            pool.daily_reward as nat,
            days,
        ),
{
}

/// A pool with no budget pays nothing: with the reward dimension switched
/// off, settlement moves the timestamp and leaves the debt alone.
pub proof fn lemma_no_budget_nothing_owed(pool: RewardPool, ledger: UserStakeLedger, now: i64)
    requires
        pool.daily_reward == 0,
    ensures
        forall|days: nat| owed(pool, ledger, days) == 0,
        settled(pool, ledger, now).reward_debt == ledger.reward_debt,
{
    let a = ledger.class_a_staked as nat;
    let b = ledger.class_b_staked as nat;
    let total = pool.total_staked as nat;
    assert forall|days: nat| owed(pool, ledger, days) == 0 by {
        assert(a * 0nat * days == 0) by (nonlinear_arith);
        assert(total * 0nat * days == 0) by (nonlinear_arith);
        assert(0nat * days == 0) by (nonlinear_arith);
        assert(class_b_budget(0, total, days) == 0);
        assert(b * 0nat == 0) by (nonlinear_arith);
        if total != 0 {
            assert(0nat / total == 0) by (nonlinear_arith)
                requires
                    total > 0,
            ;
        }
    }
}

/// Settlement keeps the principal, the owner and the well-formedness of a
/// ledger, and never lowers its debt or its timestamp.
pub proof fn lemma_settled_keeps(pool: RewardPool, ledger: UserStakeLedger, now: i64)
    ensures
        settled(pool, ledger, now).owner == ledger.owner,
        settled(pool, ledger, now).class_a_staked == ledger.class_a_staked,
        settled(pool, ledger, now).class_b_staked == ledger.class_b_staked,
        settled(pool, ledger, now).reward_debt >= ledger.reward_debt,
        settled(pool, ledger, now).last_update_time >= ledger.last_update_time,
        ledger.last_update_time <= now ==> settled(pool, ledger, now).last_update_time <= now,
        ledger.wf() ==> settled(pool, ledger, now).wf(),
{
    let days = whole_days(ledger.last_update_time as int, now as int);
    if ledger.wf() && ledger.is_vacant() {
        lemma_nothing_staked_nothing_owed(pool, ledger, days);
    }
}

/// A second settlement inside the same day window changes nothing: once a
/// ledger is settled at `now`, settling it again at any `again` that lies
/// less than a whole day after its timestamp leaves it as it is, whatever
/// has happened to the pool in between.
pub proof fn lemma_settlement_idempotent(
    pool: RewardPool,
    later_pool: RewardPool,
    ledger: UserStakeLedger,
    now: i64,
    again: i64,
)
    requires
        whole_days(settled(pool, ledger, now).last_update_time as int, again as int) == 0,
    ensures
        settled(later_pool, settled(pool, ledger, now), again) == settled(pool, ledger, now),
{
}

/// Settling twice at one instant is settling once.
pub proof fn lemma_settled_twice_at_once(
    pool: RewardPool,
    later_pool: RewardPool,
    ledger: UserStakeLedger,
    now: i64,
)
    ensures
        settled(later_pool, settled(pool, ledger, now), now) == settled(pool, ledger, now),
{
}

/// The ledger as settlement at `now` leaves it; `ledger` itself is not
/// touched.
pub fn settled_ledger(
    pool: &RewardPool,
    ledger: &UserStakeLedger,
    now: i64,
) -> (after: UserStakeLedger)
    ensures
        after == settled(*pool, *ledger, now),
{
    let days: u64 = days_elapsed(ledger.last_update_time, now);
    if days == 0 {
        *ledger
    } else {
        let reward: u64 = reward_for(
            ledger.class_a_staked,
            ledger.class_b_staked,
            pool.daily_reward,
            pool.total_staked,
            days,
        );
        UserStakeLedger {
            owner: ledger.owner,
            class_a_staked: ledger.class_a_staked,
            class_b_staked: ledger.class_b_staked,
            last_update_time: now,
            reward_debt: ledger.reward_debt.saturating_add(reward),
        }
    }
}

/// Settles `ledger` at `now`.
pub fn settle(pool: &RewardPool, ledger: &mut UserStakeLedger, now: i64)
    ensures
        *final(ledger) == settled(*pool, *old(ledger), now),
        whole_days(old(ledger).last_update_time as int, now as int) == 0
            ==> *final(ledger) == *old(ledger),
        whole_days(old(ledger).last_update_time as int, now as int) > 0
            ==> final(ledger).last_update_time == now,
        final(ledger).owner == old(ledger).owner,
        final(ledger).class_a_staked == old(ledger).class_a_staked,
        final(ledger).class_b_staked == old(ledger).class_b_staked,
        final(ledger).reward_debt >= old(ledger).reward_debt,
        final(ledger).last_update_time >= old(ledger).last_update_time,
        old(ledger).last_update_time <= now ==> final(ledger).last_update_time <= now,
        old(ledger).wf() ==> final(ledger).wf(),
{
    proof {
        lemma_settled_keeps(*pool, *ledger, now);
    }
    let after: UserStakeLedger = settled_ledger(pool, ledger, now);
    *ledger = after;
}

} // verus!
