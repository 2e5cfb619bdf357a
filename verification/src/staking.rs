//! The operations of the rewarded vault: set-up, deposit, claim and
//! withdrawal. Each one settles the caller's ledger first, books its own
//! effect second, and hands back the transfer that the host has to carry out.
//! An operation that is refused leaves the pool and the ledger untouched.

use crate::custody::{Direction, TransferRequest};
use crate::errors::ErrorCode;
use crate::identity::Identity;
use crate::ledger::{RewardPool, UserStakeLedger};
use crate::settlement::{lemma_settled_keeps, settled, settled_ledger};
use vstd::prelude::*;

verus! {

/// The ledger that a deposit by `depositor` at `now` works on: a vacant
/// ledger is opened in the depositor's name, empty and stamped with `now`;
/// an open one is taken as it is.
pub open spec fn opened(ledger: UserStakeLedger, depositor: Identity, now: i64) -> UserStakeLedger {
    if ledger.is_vacant() {
        UserStakeLedger {
            owner: Some(depositor),
            class_a_staked: 0,
            class_b_staked: 0,
            last_update_time: now,
            reward_debt: 0,
        }
    } else {
        ledger
    }
}

/// What a deposit of `amount` comes to: the pool and the ledger after it, or
/// the reason for which it is refused.
pub open spec fn stake_outcome(
    pool: RewardPool,
    ledger: UserStakeLedger,
    depositor: Identity,
    now: i64,
    amount: u64,
    is_class_a: bool,
) -> Result<(RewardPool, UserStakeLedger), ErrorCode> {
    let base = settled(pool, opened(ledger, depositor, now), now);
    if base.staked(is_class_a) + amount > u64::MAX || pool.total_staked + amount > u64::MAX {
        Err(ErrorCode::ArithmeticOverflow)
    } else {
        Ok(
            (
                RewardPool { total_staked: (pool.total_staked + amount) as u64, ..pool },
                base.with_staked(is_class_a, (base.staked(is_class_a) + amount) as u64),
            ),
        )
    }
}

/// What a withdrawal of `amount` comes to, with `custody_balance` units in
/// the vault's custody account of the chosen class.
pub open spec fn unstake_outcome(
    pool: RewardPool,
    ledger: UserStakeLedger,
    now: i64,
    amount: u64,
    is_class_a: bool,
    custody_balance: u64,
) -> Result<(RewardPool, UserStakeLedger), ErrorCode> {
    let base = settled(pool, ledger, now);
    if amount > ledger.staked(is_class_a) {
        Err(ErrorCode::InsufficientStake)
    } else if amount > pool.total_staked {
        Err(ErrorCode::ArithmeticOverflow)
    } else if amount > custody_balance {
        Err(ErrorCode::InsufficientCustodyBalance)
    } else {
        Ok(
            (
                RewardPool { total_staked: (pool.total_staked - amount) as u64, ..pool },
                base.with_staked(is_class_a, (base.staked(is_class_a) - amount) as u64),
            ),
        )
    }
}

/// The reward that a claim at `now` pays out: the whole debt once settled.
pub open spec fn claimable(pool: RewardPool, ledger: UserStakeLedger, now: i64) -> u64 {
    settled(pool, ledger, now).reward_debt
}

/// What a claim comes to, with `custody_balance` units in the vault's reward
/// custody account.
pub open spec fn claim_outcome(
    pool: RewardPool,
    ledger: UserStakeLedger,
    now: i64,
    custody_balance: u64,
) -> Result<(RewardPool, UserStakeLedger), ErrorCode> {
    let payout = claimable(pool, ledger, now);
    if payout > custody_balance {
        Err(ErrorCode::InsufficientCustodyBalance)
    } else if pool.total_rewards_claimed + payout > u64::MAX {
        Err(ErrorCode::ArithmeticOverflow)
    } else {
        Ok(
            (
                RewardPool {
                    total_rewards_claimed: (pool.total_rewards_claimed + payout) as u64,
                    ..pool
                },
                UserStakeLedger { reward_debt: 0, ..settled(pool, ledger, now) },
            ),
        )
    }
}

/// Sets up the pool of a vault: nothing staked, nothing paid out, a budget of
/// `daily_reward` units a day.
pub fn initialize(authority: Identity, daily_reward: u64, now: i64) -> (pool: RewardPool)
    ensures
        pool == (RewardPool {
            authority,
            daily_reward,
            total_staked: 0,
            last_update_time: now,
            total_rewards_claimed: 0,
        }),
{
    RewardPool {
        authority,
        daily_reward,
        total_staked: 0,
        last_update_time: now,
        total_rewards_claimed: 0,
    }
}

/// Deposits `amount` units of the chosen class for `depositor` at `now`.
///
/// A first deposit opens the ledger in the depositor's name. The ledger is
/// settled, then the amount is added to the class balance and to the pool's
/// total. Where either sum leaves the range of 64 bits the deposit is
/// refused with `ArithmeticOverflow` and nothing changes, the settlement
/// included. On success the host has to move `amount` units from the
/// depositor into custody.
pub fn stake_tokens(
    pool: &mut RewardPool,
    ledger: &mut UserStakeLedger,
    depositor: Identity,
    now: i64,
    amount: u64,
    is_class_a: bool,
) -> (result: Result<TransferRequest, ErrorCode>)
    ensures
        match stake_outcome(*old(pool), *old(ledger), depositor, now, amount, is_class_a) {
            Ok((pool_after, ledger_after)) => {
                &&& result == Ok::<TransferRequest, ErrorCode>(
                    TransferRequest { direction: Direction::Inbound, amount },
                )
                &&& *final(pool) == pool_after
                &&& *final(ledger) == ledger_after
            },
            Err(e) => {
                &&& result == Err::<TransferRequest, ErrorCode>(e)
                &&& *final(pool) == *old(pool)
                &&& *final(ledger) == *old(ledger)
            },
        },
        result is Err <==> {
            ||| opened(*old(ledger), depositor, now).staked(is_class_a) + amount > u64::MAX
            ||| old(pool).total_staked + amount > u64::MAX
        },
        result is Err ==> result == Err::<TransferRequest, ErrorCode>(
            ErrorCode::ArithmeticOverflow,
        ),
        result is Ok ==> {
            let base = opened(*old(ledger), depositor, now);
            &&& final(pool).total_staked == old(pool).total_staked + amount
            &&& final(ledger).staked(is_class_a) == base.staked(is_class_a) + amount
            &&& final(ledger).staked(!is_class_a) == base.staked(!is_class_a)
            &&& final(ledger).owner == base.owner
            &&& final(ledger).reward_debt >= base.reward_debt
            &&& final(ledger).last_update_time >= base.last_update_time
        },
        old(ledger).wf() ==> final(ledger).wf(),
        old(ledger).wf() ==> final(pool).total_staked - old(pool).total_staked
            == final(ledger).weighted_stake() - old(ledger).weighted_stake(),
{
    let base: UserStakeLedger = match ledger.owner {
        None => UserStakeLedger {
            owner: Some(depositor),
            class_a_staked: 0,
            class_b_staked: 0,
            last_update_time: now,
            reward_debt: 0,
        },
        Some(_) => settled_ledger(pool, ledger, now),
    };
    proof {
        lemma_settled_keeps(*pool, opened(*ledger, depositor, now), now);
    }
    let balance: u64 = base.balance(is_class_a);
    let new_balance: u64 = match balance.checked_add(amount) {
        Some(b) => b,
        None => { return Err(ErrorCode::ArithmeticOverflow); },
    };
    let new_total: u64 = match pool.total_staked.checked_add(amount) {
        Some(t) => t,
        None => { return Err(ErrorCode::ArithmeticOverflow); },
    };
    *ledger = base;
    if is_class_a {
        ledger.class_a_staked = new_balance;
    } else {
        ledger.class_b_staked = new_balance;
    }
    pool.total_staked = new_total;
    Ok(TransferRequest { direction: Direction::Inbound, amount })
}

/// Pays out the whole reward debt of `ledger` as settled at `now`.
///
/// `custody_balance` is what the vault's reward custody account holds. A
/// debt beyond it is refused with `InsufficientCustodyBalance`; a running
/// total that would leave the range of 64 bits, with `ArithmeticOverflow`.
/// Nothing is paid in part. On success the debt is zero, the pool's running
/// total has grown by the payout, and the host has to move the payout out of
/// custody on the vault's own authority.
pub fn claim_rewards(
    pool: &mut RewardPool,
    ledger: &mut UserStakeLedger,
    now: i64,
    custody_balance: u64,
) -> (result: Result<TransferRequest, ErrorCode>)
    ensures
        match claim_outcome(*old(pool), *old(ledger), now, custody_balance) {
            Ok((pool_after, ledger_after)) => {
                &&& result == Ok::<TransferRequest, ErrorCode>(
                    TransferRequest {
                        direction: Direction::Outbound,
                        amount: claimable(*old(pool), *old(ledger), now),
                    },
                )
                &&& *final(pool) == pool_after
                &&& *final(ledger) == ledger_after
            },
            Err(e) => {
                &&& result == Err::<TransferRequest, ErrorCode>(e)
                &&& *final(pool) == *old(pool)
                &&& *final(ledger) == *old(ledger)
            },
        },
        result is Ok <==> {
            &&& claimable(*old(pool), *old(ledger), now) <= custody_balance
            &&& old(pool).total_rewards_claimed + claimable(*old(pool), *old(ledger), now)
                <= u64::MAX
        },
        result is Ok ==> {
            &&& final(ledger).reward_debt == 0
            &&& final(pool).total_rewards_claimed == old(pool).total_rewards_claimed
                + claimable(*old(pool), *old(ledger), now)
            &&& final(pool).total_staked == old(pool).total_staked
            &&& final(ledger).weighted_stake() == old(ledger).weighted_stake()
            &&& final(ledger).owner == old(ledger).owner
        },
        final(pool).total_rewards_claimed >= old(pool).total_rewards_claimed,
        final(ledger).last_update_time >= old(ledger).last_update_time,
        old(ledger).wf() ==> final(ledger).wf(),
{
    proof {
        lemma_settled_keeps(*pool, *ledger, now);
    }
    let base: UserStakeLedger = settled_ledger(pool, ledger, now);
    let payout: u64 = base.reward_debt;
    if payout > custody_balance {
        return Err(ErrorCode::InsufficientCustodyBalance);
    }
    let new_claimed: u64 = match pool.total_rewards_claimed.checked_add(payout) {
        Some(c) => c,
        None => { return Err(ErrorCode::ArithmeticOverflow); },
    };
    *ledger = base;
    ledger.reward_debt = 0;
    pool.total_rewards_claimed = new_claimed;
    Ok(TransferRequest { direction: Direction::Outbound, amount: payout })
}

/// Withdraws `amount` units of the chosen class at `now`.
///
/// More than the ledger has at stake in that class is refused with
/// `InsufficientStake`; more than the pool counts in all, with
/// `ArithmeticOverflow`; more than `custody_balance`, which is what the
/// vault's custody account of that class holds, with
/// `InsufficientCustodyBalance`. Otherwise the ledger is settled, the amount
/// leaves the class balance and the pool's total, and the host has to move
/// it out of custody on the vault's own authority.
pub fn unstake_tokens(
    pool: &mut RewardPool,
    ledger: &mut UserStakeLedger,
    now: i64,
    amount: u64,
    is_class_a: bool,
    custody_balance: u64,
) -> (result: Result<TransferRequest, ErrorCode>)
    ensures
        match unstake_outcome(*old(pool), *old(ledger), now, amount, is_class_a, custody_balance) {
            Ok((pool_after, ledger_after)) => {
                &&& result == Ok::<TransferRequest, ErrorCode>(
                    TransferRequest { direction: Direction::Outbound, amount },
                )
                &&& *final(pool) == pool_after
                &&& *final(ledger) == ledger_after
            },
            Err(e) => {
                &&& result == Err::<TransferRequest, ErrorCode>(e)
                &&& *final(pool) == *old(pool)
                &&& *final(ledger) == *old(ledger)
            },
        },
        amount > old(ledger).staked(is_class_a) <==> result == Err::<TransferRequest, ErrorCode>(
            ErrorCode::InsufficientStake,
        ),
        result is Ok <==> {
            &&& amount <= old(ledger).staked(is_class_a)
            &&& amount <= old(pool).total_staked
            &&& amount <= custody_balance
        },
        result is Ok ==> {
            &&& final(pool).total_staked == old(pool).total_staked - amount
            &&& final(ledger).staked(is_class_a) == old(ledger).staked(is_class_a) - amount
            &&& final(ledger).staked(!is_class_a) == old(ledger).staked(!is_class_a)
            &&& final(ledger).owner == old(ledger).owner
            &&& final(ledger).reward_debt >= old(ledger).reward_debt
        },
        final(ledger).last_update_time >= old(ledger).last_update_time,
        old(ledger).wf() ==> final(ledger).wf(),
        final(pool).total_staked - old(pool).total_staked
            == final(ledger).weighted_stake() - old(ledger).weighted_stake(),
{
    proof {
        lemma_settled_keeps(*pool, *ledger, now);
    }
    let balance: u64 = ledger.balance(is_class_a);
    if amount > balance {
        return Err(ErrorCode::InsufficientStake);
    }
    let new_total: u64 = match pool.total_staked.checked_sub(amount) {
        Some(t) => t,
        None => { return Err(ErrorCode::ArithmeticOverflow); },
    };
    if amount > custody_balance {
        return Err(ErrorCode::InsufficientCustodyBalance);
    }
    let base: UserStakeLedger = settled_ledger(pool, ledger, now);
    *ledger = base;
    if is_class_a {
        ledger.class_a_staked = balance - amount;
    } else {
        ledger.class_b_staked = balance - amount;
    }
    pool.total_staked = new_total;
    Ok(TransferRequest { direction: Direction::Outbound, amount })
}

} // verus!
