//! The two records the vault keeps: the pool-wide reward accounting and one
//! ledger per depositor.

use crate::identity::Identity;
use vstd::prelude::*;

verus! {

/// Pool-wide accounting of one vault.
#[derive(Clone, Copy, Debug, PartialEq, Eq)]
pub struct RewardPool {
    /// Who set the pool up. Kept for the record only.
    pub authority: Identity,
    /// Reward units handed out per day over the whole pool.
    pub daily_reward: u64,
    /// Sum of every depositor's weighted stake.
    pub total_staked: u64,
    /// Pool-level timestamp, stamped when the pool is set up.
    pub last_update_time: i64,
    /// Running total of the rewards paid out.
    pub total_rewards_claimed: u64,
}

/// One depositor's record.
#[derive(Clone, Copy, Debug, PartialEq, Eq)]
pub struct UserStakeLedger {
    /// The depositor, once a first deposit has opened the ledger.
    pub owner: Option<Identity>,
    /// Class A principal at stake.
    pub class_a_staked: u64,
    /// Class B principal at stake.
    pub class_b_staked: u64,
    /// When rewards were last settled.
    pub last_update_time: i64,
    /// Reward settled and not yet claimed.
    pub reward_debt: u64,
}

impl UserStakeLedger {
    /// A ledger that no deposit has opened yet.
    pub open spec fn is_vacant(self) -> bool {
        self.owner is None
    }

    /// A vacant ledger holds nothing.
    pub open spec fn wf(self) -> bool {
        self.is_vacant() ==> self.class_a_staked == 0 && self.class_b_staked == 0
            && self.reward_debt == 0
    }

    /// Principal at stake in the chosen class.
    pub open spec fn staked(self, is_class_a: bool) -> u64 {
        if is_class_a {
            self.class_a_staked
        } else {
            self.class_b_staked
        }
    }

    /// The ledger with `balance` at stake in the chosen class.
    pub open spec fn with_staked(self, is_class_a: bool, balance: u64) -> UserStakeLedger {
        if is_class_a {
            UserStakeLedger { class_a_staked: balance, ..self }
        } else {
            UserStakeLedger { class_b_staked: balance, ..self }
        }
    }

    /// Stake as the pool counts it: both classes at weight one.
    pub open spec fn weighted_stake(self) -> nat {
        (self.class_a_staked + self.class_b_staked) as nat
    }

    /// A vacant ledger, as a depositor has it before a first deposit.
    pub fn new() -> (ledger: UserStakeLedger)
        ensures
            ledger.is_vacant(),
            ledger.wf(),
            ledger.last_update_time == 0,
            ledger.weighted_stake() == 0,
    {
        UserStakeLedger {
            owner: None,
            class_a_staked: 0,
            class_b_staked: 0,
            last_update_time: 0,
            reward_debt: 0,
        }
    }

    /// Principal at stake in the chosen class.
    pub fn balance(&self, is_class_a: bool) -> (balance: u64)
        ensures
            balance == self.staked(is_class_a),
    {
        if is_class_a {
            self.class_a_staked
        } else {
            self.class_b_staked
        }
    }
}

} // verus!
