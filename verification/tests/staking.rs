use hwp::custody::{Direction, TransferRequest};
use hwp::errors::ErrorCode;
use hwp::identity::Identity;
use hwp::ledger::{RewardPool, UserStakeLedger};
use hwp::settlement::{settle, settled_ledger};
use hwp::staking::{claim_rewards, initialize, stake_tokens, unstake_tokens};

const DAY: i64 = 86_400;

fn alice() -> Identity {
    Identity::from_bytes([1u8; 32]).unwrap()
}

fn bob() -> Identity {
    Identity::from_bytes([2u8; 32]).unwrap()
}

fn inbound(amount: u64) -> Result<TransferRequest, ErrorCode> {
    Ok(TransferRequest { direction: Direction::Inbound, amount })
}

fn outbound(amount: u64) -> Result<TransferRequest, ErrorCode> {
    Ok(TransferRequest { direction: Direction::Outbound, amount })
}

#[test]
fn initialize_sets_up_an_empty_pool() {
    let pool = initialize(alice(), 3650, 1_700_000_000);
    assert_eq!(
        pool,
        RewardPool {
            authority: alice(),
            daily_reward: 3650,
            total_staked: 0,
            last_update_time: 1_700_000_000,
            total_rewards_claimed: 0,
        }
    );
}

#[test]
fn a_new_ledger_is_vacant_and_empty() {
    let ledger = UserStakeLedger::new();
    assert_eq!(
        ledger,
        UserStakeLedger {
            owner: None,
            class_a_staked: 0,
            class_b_staked: 0,
            last_update_time: 0,
            reward_debt: 0,
        }
    );
    assert_eq!(ledger.balance(true), 0);
    assert_eq!(ledger.balance(false), 0);
}

#[test]
fn balance_reads_the_chosen_class() {
    let ledger = UserStakeLedger {
        owner: Some(alice()),
        class_a_staked: 11,
        class_b_staked: 22,
        last_update_time: 0,
        reward_debt: 0,
    };
    assert_eq!(ledger.balance(true), 11);
    assert_eq!(ledger.balance(false), 22);
}

#[test]
fn first_stake_opens_the_ledger() {
    let mut pool = initialize(alice(), 3650, 100);
    let mut ledger = UserStakeLedger::new();
    assert_eq!(stake_tokens(&mut pool, &mut ledger, bob(), 5000, 1000, true), inbound(1000));
    assert_eq!(
        ledger,
        UserStakeLedger {
            owner: Some(bob()),
            class_a_staked: 1000,
            class_b_staked: 0,
            last_update_time: 5000,
            reward_debt: 0,
        }
    );
    assert_eq!(pool.total_staked, 1000);
    assert_eq!(pool.last_update_time, 100);
}

#[test]
fn the_owner_is_set_once() {
    let mut pool = initialize(alice(), 3650, 0);
    let mut ledger = UserStakeLedger::new();
    stake_tokens(&mut pool, &mut ledger, bob(), 0, 10, true).unwrap();
    stake_tokens(&mut pool, &mut ledger, alice(), 0, 10, false).unwrap();
    assert_eq!(ledger.owner, Some(bob()));
    assert_eq!(ledger.class_a_staked, 10);
    assert_eq!(ledger.class_b_staked, 10);
    assert_eq!(pool.total_staked, 20);
}

#[test]
fn end_to_end_one_day_of_class_a() {
    let mut pool = initialize(alice(), 3650, 0);
    let mut ledger = UserStakeLedger::new();
    assert_eq!(stake_tokens(&mut pool, &mut ledger, bob(), 0, 1000, true), inbound(1000));
    // the next touching call after exactly one day credits 1000 * 10 * 1
    settle(&pool, &mut ledger, DAY);
    assert_eq!(ledger.reward_debt, 10_000);
    assert_eq!(ledger.last_update_time, DAY);
    assert_eq!(claim_rewards(&mut pool, &mut ledger, DAY, 10_000), outbound(10_000));
    assert_eq!(ledger.reward_debt, 0);
    assert_eq!(pool.total_rewards_claimed, 10_000);
    assert_eq!(ledger.class_a_staked, 1000);
    assert_eq!(pool.total_staked, 1000);
}

#[test]
fn a_claim_settles_before_it_pays() {
    let mut pool = initialize(alice(), 3650, 0);
    let mut ledger = UserStakeLedger::new();
    stake_tokens(&mut pool, &mut ledger, bob(), 0, 1000, true).unwrap();
    assert_eq!(claim_rewards(&mut pool, &mut ledger, DAY, 1_000_000), outbound(10_000));
    assert_eq!(ledger.reward_debt, 0);
    assert_eq!(ledger.last_update_time, DAY);
    assert_eq!(pool.total_rewards_claimed, 10_000);
    // nothing more inside the same day
    assert_eq!(claim_rewards(&mut pool, &mut ledger, 2 * DAY - 1, 1_000_000), outbound(0));
    assert_eq!(pool.total_rewards_claimed, 10_000);
    assert_eq!(ledger.last_update_time, DAY);
}

#[test]
fn a_later_stake_settles_first() {
    let mut pool = initialize(alice(), 3650, 0);
    let mut ledger = UserStakeLedger::new();
    stake_tokens(&mut pool, &mut ledger, bob(), 0, 1000, true).unwrap();
    assert_eq!(stake_tokens(&mut pool, &mut ledger, bob(), 2 * DAY, 500, true), inbound(500));
    // two days on the 1000 that were staked, none on the 500
    assert_eq!(ledger.reward_debt, 20_000);
    assert_eq!(ledger.class_a_staked, 1500);
    assert_eq!(ledger.last_update_time, 2 * DAY);
    assert_eq!(pool.total_staked, 1500);
}

#[test]
fn two_assets_leave_class_b_nothing() {
    let mut pool = initialize(alice(), 3650, 0);
    let mut first = UserStakeLedger::new();
    let mut second = UserStakeLedger::new();
    stake_tokens(&mut pool, &mut first, alice(), 0, 1000, true).unwrap();
    stake_tokens(&mut pool, &mut second, bob(), 0, 1000, false).unwrap();
    assert_eq!(pool.total_staked, 2000);
    // pool-wide class A accrual is 2000 * 10 = 20000, far above the budget of
    // 3650: the leftover floors at zero
    settle(&pool, &mut second, DAY);
    assert_eq!(second.reward_debt, 0);
    assert_eq!(second.last_update_time, DAY);
    settle(&pool, &mut first, DAY);
    assert_eq!(first.reward_debt, 10_000);
}

#[test]
fn class_b_shares_what_class_a_leaves() {
    let mut pool = initialize(alice(), 3650, 0);
    let mut first = UserStakeLedger::new();
    let mut second = UserStakeLedger::new();
    stake_tokens(&mut pool, &mut first, alice(), 0, 50, true).unwrap();
    stake_tokens(&mut pool, &mut second, bob(), 0, 50, false).unwrap();
    settle(&pool, &mut first, DAY);
    settle(&pool, &mut second, DAY);
    assert_eq!(first.reward_debt, 500);
    // leftover 3650 - 100 * 10 = 2650, of which 50 / 100
    assert_eq!(second.reward_debt, 1325);
}

#[test]
fn settlement_is_idempotent_within_a_day() {
    let mut pool = initialize(alice(), 3650, 0);
    let mut ledger = UserStakeLedger::new();
    stake_tokens(&mut pool, &mut ledger, bob(), 0, 1000, true).unwrap();
    settle(&pool, &mut ledger, DAY + 10);
    let once = ledger;
    assert_eq!(once.reward_debt, 10_000);
    assert_eq!(once.last_update_time, DAY + 10);
    settle(&pool, &mut ledger, DAY + 10);
    assert_eq!(ledger, once);
    settle(&pool, &mut ledger, 2 * DAY + 9);
    assert_eq!(ledger, once);
    settle(&pool, &mut ledger, 2 * DAY + 10);
    assert_eq!(ledger.reward_debt, 20_000);
}

#[test]
fn settlement_drops_the_part_of_a_day() {
    let mut pool = initialize(alice(), 3650, 0);
    let mut ledger = UserStakeLedger::new();
    stake_tokens(&mut pool, &mut ledger, bob(), 0, 1000, true).unwrap();
    // a day and a half: one day is paid, the half day is gone
    settle(&pool, &mut ledger, DAY + DAY / 2);
    assert_eq!(ledger.reward_debt, 10_000);
    assert_eq!(ledger.last_update_time, DAY + DAY / 2);
    settle(&pool, &mut ledger, 2 * DAY);
    assert_eq!(ledger.reward_debt, 10_000);
    assert_eq!(ledger.last_update_time, DAY + DAY / 2);
}

#[test]
fn settlement_ignores_a_clock_that_runs_back() {
    let pool = initialize(alice(), 3650, 0);
    let ledger = UserStakeLedger {
        owner: Some(bob()),
        class_a_staked: 1000,
        class_b_staked: 0,
        last_update_time: 10 * DAY,
        reward_debt: 7,
    };
    assert_eq!(settled_ledger(&pool, &ledger, 0), ledger);
    assert_eq!(settled_ledger(&pool, &ledger, 10 * DAY), ledger);
}

#[test]
fn settled_ledger_leaves_its_argument_alone() {
    let pool = RewardPool {
        authority: alice(),
        daily_reward: 3650,
        total_staked: 1000,
        last_update_time: 0,
        total_rewards_claimed: 0,
    };
    let ledger = UserStakeLedger {
        owner: Some(bob()),
        class_a_staked: 1000,
        class_b_staked: 0,
        last_update_time: 0,
        reward_debt: 5,
    };
    let after = settled_ledger(&pool, &ledger, 3 * DAY);
    assert_eq!(after.reward_debt, 30_005);
    assert_eq!(after.last_update_time, 3 * DAY);
    assert_eq!(ledger.reward_debt, 5);
    assert_eq!(ledger.last_update_time, 0);
}

#[test]
fn reward_debt_saturates() {
    let pool = RewardPool {
        authority: alice(),
        daily_reward: 3650,
        total_staked: 1000,
        last_update_time: 0,
        total_rewards_claimed: 0,
    };
    let mut ledger = UserStakeLedger {
        owner: Some(bob()),
        class_a_staked: 1000,
        class_b_staked: 0,
        last_update_time: 0,
        reward_debt: u64::MAX - 1,
    };
    settle(&pool, &mut ledger, DAY);
    assert_eq!(ledger.reward_debt, u64::MAX);
    assert_eq!(ledger.last_update_time, DAY);
}

#[test]
fn unstake_beyond_the_stake_changes_nothing() {
    let mut pool = initialize(alice(), 3650, 0);
    let mut ledger = UserStakeLedger::new();
    stake_tokens(&mut pool, &mut ledger, bob(), 0, 1000, true).unwrap();
    let pool_before = pool;
    let ledger_before = ledger;
    assert_eq!(
        unstake_tokens(&mut pool, &mut ledger, 5 * DAY, 1001, true, u64::MAX),
        Err(ErrorCode::InsufficientStake)
    );
    assert_eq!(ledger, ledger_before);
    assert_eq!(pool, pool_before);
    // the other class holds nothing at all
    assert_eq!(
        unstake_tokens(&mut pool, &mut ledger, 5 * DAY, 1, false, u64::MAX),
        Err(ErrorCode::InsufficientStake)
    );
    assert_eq!(ledger, ledger_before);
    assert_eq!(pool, pool_before);
}

#[test]
fn unstake_settles_and_withdraws() {
    let mut pool = initialize(alice(), 3650, 0);
    let mut ledger = UserStakeLedger::new();
    stake_tokens(&mut pool, &mut ledger, bob(), 0, 1000, true).unwrap();
    stake_tokens(&mut pool, &mut ledger, bob(), 0, 40, false).unwrap();
    assert_eq!(unstake_tokens(&mut pool, &mut ledger, DAY, 400, true, 1000), outbound(400));
    // class A earns 1000 * 10; class B nothing, as class A exhausts the budget
    assert_eq!(
        ledger,
        UserStakeLedger {
            owner: Some(bob()),
            class_a_staked: 600,
            class_b_staked: 40,
            last_update_time: DAY,
            reward_debt: 10_000,
        }
    );
    assert_eq!(pool.total_staked, 640);
    assert_eq!(unstake_tokens(&mut pool, &mut ledger, DAY, 40, false, 40), outbound(40));
    assert_eq!(ledger.class_b_staked, 0);
    assert_eq!(pool.total_staked, 600);
}

#[test]
fn unstake_on_a_vacant_ledger() {
    let mut pool = initialize(alice(), 3650, 0);
    let mut ledger = UserStakeLedger::new();
    assert_eq!(
        unstake_tokens(&mut pool, &mut ledger, DAY, 1, true, 10),
        Err(ErrorCode::InsufficientStake)
    );
    assert_eq!(ledger, UserStakeLedger::new());
}

#[test]
fn unstake_refuses_what_custody_cannot_cover() {
    let mut pool = initialize(alice(), 3650, 0);
    let mut ledger = UserStakeLedger::new();
    stake_tokens(&mut pool, &mut ledger, bob(), 0, 1000, true).unwrap();
    let pool_before = pool;
    let ledger_before = ledger;
    assert_eq!(
        unstake_tokens(&mut pool, &mut ledger, DAY, 1000, true, 999),
        Err(ErrorCode::InsufficientCustodyBalance)
    );
    assert_eq!(ledger, ledger_before);
    assert_eq!(pool, pool_before);
}

#[test]
fn unstake_refuses_what_the_pool_does_not_count() {
    let mut pool = RewardPool {
        authority: alice(),
        daily_reward: 0,
        total_staked: 10,
        last_update_time: 0,
        total_rewards_claimed: 0,
    };
    let mut ledger = UserStakeLedger {
        owner: Some(bob()),
        class_a_staked: 100,
        class_b_staked: 0,
        last_update_time: 0,
        reward_debt: 0,
    };
    let pool_before = pool;
    let ledger_before = ledger;
    assert_eq!(
        unstake_tokens(&mut pool, &mut ledger, DAY, 11, true, 0),
        Err(ErrorCode::ArithmeticOverflow)
    );
    assert_eq!(ledger, ledger_before);
    assert_eq!(pool, pool_before);
}

#[test]
fn staking_past_the_ceiling_keeps_the_prior_state() {
    let mut pool = initialize(alice(), 3650, 0);
    let mut ledger = UserStakeLedger::new();
    assert_eq!(stake_tokens(&mut pool, &mut ledger, bob(), 0, u64::MAX, true), inbound(u64::MAX));
    let pool_before = pool;
    let ledger_before = ledger;
    assert_eq!(
        stake_tokens(&mut pool, &mut ledger, bob(), 0, 1, true),
        Err(ErrorCode::ArithmeticOverflow)
    );
    assert_eq!(ledger, ledger_before);
    assert_eq!(pool, pool_before);
    assert_eq!(ledger.class_a_staked, u64::MAX);
    assert_eq!(pool.total_staked, u64::MAX);
}

#[test]
fn a_refused_stake_undoes_its_settlement() {
    let mut pool = initialize(alice(), 3650, 0);
    let mut ledger = UserStakeLedger::new();
    stake_tokens(&mut pool, &mut ledger, bob(), 0, u64::MAX, true).unwrap();
    let pool_before = pool;
    let ledger_before = ledger;
    // days have passed, yet the refused deposit settles nothing
    assert_eq!(
        stake_tokens(&mut pool, &mut ledger, bob(), 3 * DAY, 1, true),
        Err(ErrorCode::ArithmeticOverflow)
    );
    assert_eq!(ledger, ledger_before);
    assert_eq!(pool, pool_before);
    // the other class overflows the pool's total only
    assert_eq!(
        stake_tokens(&mut pool, &mut ledger, bob(), 3 * DAY, 1, false),
        Err(ErrorCode::ArithmeticOverflow)
    );
    assert_eq!(ledger, ledger_before);
    assert_eq!(pool, pool_before);
}

#[test]
fn a_refused_first_stake_leaves_the_ledger_vacant() {
    let mut pool = initialize(alice(), 3650, 0);
    let mut first = UserStakeLedger::new();
    stake_tokens(&mut pool, &mut first, alice(), 0, u64::MAX, true).unwrap();
    let mut second = UserStakeLedger::new();
    assert_eq!(
        stake_tokens(&mut pool, &mut second, bob(), 0, 1, false),
        Err(ErrorCode::ArithmeticOverflow)
    );
    assert_eq!(second, UserStakeLedger::new());
    assert_eq!(pool.total_staked, u64::MAX);
}

#[test]
fn class_b_in_an_empty_pool_earns_nothing() {
    // a ledger with class B at stake against a pool that counts nothing:
    // the division is guarded and the class B part is zero
    let mut pool = initialize(alice(), 3650, 0);
    let mut ledger = UserStakeLedger {
        owner: Some(bob()),
        class_a_staked: 0,
        class_b_staked: 1000,
        last_update_time: 0,
        reward_debt: 0,
    };
    assert_eq!(claim_rewards(&mut pool, &mut ledger, DAY, 1_000_000), outbound(0));
    assert_eq!(ledger.reward_debt, 0);
    assert_eq!(ledger.last_update_time, DAY);
    assert_eq!(pool.total_rewards_claimed, 0);
    assert_eq!(stake_tokens(&mut pool, &mut ledger, bob(), 2 * DAY, 5, false), inbound(5));
    assert_eq!(ledger.reward_debt, 0);
    assert_eq!(ledger.class_b_staked, 1005);
    assert_eq!(pool.total_staked, 5);
}

#[test]
fn first_class_b_stake_into_an_empty_pool() {
    let mut pool = initialize(alice(), 3650, 0);
    let mut ledger = UserStakeLedger::new();
    assert_eq!(stake_tokens(&mut pool, &mut ledger, bob(), 9 * DAY, 77, false), inbound(77));
    assert_eq!(ledger.reward_debt, 0);
    assert_eq!(ledger.class_b_staked, 77);
    assert_eq!(ledger.last_update_time, 9 * DAY);
    assert_eq!(pool.total_staked, 77);
}

#[test]
fn claim_refuses_what_custody_cannot_cover() {
    let mut pool = initialize(alice(), 3650, 0);
    let mut ledger = UserStakeLedger::new();
    stake_tokens(&mut pool, &mut ledger, bob(), 0, 1000, true).unwrap();
    let pool_before = pool;
    let ledger_before = ledger;
    assert_eq!(
        claim_rewards(&mut pool, &mut ledger, DAY, 9_999),
        Err(ErrorCode::InsufficientCustodyBalance)
    );
    // nothing is paid in part and nothing is settled
    assert_eq!(ledger, ledger_before);
    assert_eq!(pool, pool_before);
    assert_eq!(claim_rewards(&mut pool, &mut ledger, DAY, 10_000), outbound(10_000));
}

#[test]
fn claim_refuses_an_overflowing_running_total() {
    let mut pool = RewardPool {
        authority: alice(),
        daily_reward: 3650,
        total_staked: 1000,
        last_update_time: 0,
        total_rewards_claimed: u64::MAX - 9_999,
    };
    let mut ledger = UserStakeLedger {
        owner: Some(bob()),
        class_a_staked: 1000,
        class_b_staked: 0,
        last_update_time: 0,
        reward_debt: 0,
    };
    let pool_before = pool;
    let ledger_before = ledger;
    assert_eq!(
        claim_rewards(&mut pool, &mut ledger, DAY, u64::MAX),
        Err(ErrorCode::ArithmeticOverflow)
    );
    assert_eq!(ledger, ledger_before);
    assert_eq!(pool, pool_before);
    // custody is looked at before the running total
    assert_eq!(
        claim_rewards(&mut pool, &mut ledger, DAY, 0),
        Err(ErrorCode::InsufficientCustodyBalance)
    );
    pool.total_rewards_claimed = u64::MAX - 10_000;
    assert_eq!(claim_rewards(&mut pool, &mut ledger, DAY, u64::MAX), outbound(10_000));
    assert_eq!(pool.total_rewards_claimed, u64::MAX);
}

#[test]
fn the_pool_counts_what_the_ledgers_hold() {
    let mut pool = initialize(alice(), 3650, 0);
    let mut ledgers = vec![UserStakeLedger::new(), UserStakeLedger::new(), UserStakeLedger::new()];
    let sum = |ledgers: &Vec<UserStakeLedger>| -> u64 {
        ledgers.iter().map(|l| l.class_a_staked + l.class_b_staked).sum()
    };
    assert_eq!(pool.total_staked, sum(&ledgers));
    stake_tokens(&mut pool, &mut ledgers[0], alice(), 0, 100, true).unwrap();
    assert_eq!(pool.total_staked, sum(&ledgers));
    stake_tokens(&mut pool, &mut ledgers[1], bob(), 10, 250, false).unwrap();
    assert_eq!(pool.total_staked, sum(&ledgers));
    stake_tokens(&mut pool, &mut ledgers[0], alice(), DAY, 30, false).unwrap();
    assert_eq!(pool.total_staked, sum(&ledgers));
    unstake_tokens(&mut pool, &mut ledgers[1], 2 * DAY, 50, false, 1000).unwrap();
    assert_eq!(pool.total_staked, sum(&ledgers));
    assert!(unstake_tokens(&mut pool, &mut ledgers[2], 2 * DAY, 1, true, 1000).is_err());
    assert_eq!(pool.total_staked, sum(&ledgers));
    assert!(unstake_tokens(&mut pool, &mut ledgers[0], 2 * DAY, 100, true, 99).is_err());
    assert_eq!(pool.total_staked, sum(&ledgers));
    unstake_tokens(&mut pool, &mut ledgers[0], 3 * DAY, 100, true, 1000).unwrap();
    assert_eq!(pool.total_staked, sum(&ledgers));
    assert_eq!(pool.total_staked, 230);
    assert_eq!(sum(&ledgers), 230);
}

#[test]
fn a_pool_without_budget_pays_nothing() {
    let mut pool = initialize(alice(), 0, 0);
    let mut ledger = UserStakeLedger::new();
    stake_tokens(&mut pool, &mut ledger, bob(), 0, 1000, true).unwrap();
    stake_tokens(&mut pool, &mut ledger, bob(), 0, 1000, false).unwrap();
    settle(&pool, &mut ledger, 30 * DAY);
    assert_eq!(ledger.reward_debt, 0);
    assert_eq!(ledger.last_update_time, 30 * DAY);
    assert_eq!(claim_rewards(&mut pool, &mut ledger, 60 * DAY, 0), outbound(0));
    assert_eq!(pool.total_rewards_claimed, 0);
}
