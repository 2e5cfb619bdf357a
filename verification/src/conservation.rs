//! Conservation of stake: over any run of deposits, withdrawals and claims,
//! the pool's total equals the sum of the weighted stake of all ledgers.

use crate::errors::ErrorCode;
use crate::identity::Identity;
use crate::ledger::{RewardPool, UserStakeLedger};
use crate::settlement::lemma_settled_keeps;
use crate::staking::{claim_outcome, opened, stake_outcome, unstake_outcome};
use vstd::prelude::*;

verus! {

/// One operation against the ledger at position `account` of a vault's books.
pub enum Operation {
    Stake { account: usize, depositor: Identity, now: i64, amount: u64, is_class_a: bool },
    Unstake { account: usize, now: i64, amount: u64, is_class_a: bool, custody_balance: u64 },
    Claim { account: usize, now: i64, custody_balance: u64 },
}

/// The books of one vault: its pool and the ledgers of all its depositors,
/// those not yet opened included.
pub struct Books {
    pub pool: RewardPool,
    pub ledgers: Seq<UserStakeLedger>,
}

/// Sum of the weighted stake of `ledgers`.
pub open spec fn total_weight(ledgers: Seq<UserStakeLedger>) -> nat
    decreases ledgers.len(),
{
    if ledgers.len() == 0 {
        0
    } else {
        total_weight(ledgers.drop_last()) + ledgers.last().weighted_stake()
    }
}

impl Books {
    /// Every ledger is well-formed.
    pub open spec fn wf(self) -> bool {
        forall|i: int| 0 <= i < self.ledgers.len() ==> (#[trigger] self.ledgers[i]).wf()
    }

    /// The pool counts exactly what the ledgers hold.
    pub open spec fn conserved(self) -> bool {
        self.pool.total_staked == total_weight(self.ledgers)
    }

    /// The books once the outcome of an operation on `account` is entered: a
    /// refused operation leaves them as they are.
    pub open spec fn booked(
        self,
        account: int,
        outcome: Result<(RewardPool, UserStakeLedger), ErrorCode>,
    ) -> Books {
        match outcome {
            Ok((pool, ledger)) => Books { pool, ledgers: self.ledgers.update(account, ledger) },
            Err(_) => self,
        }
    }

    /// The books after `op`. An operation on an account that the books do
    /// not hold changes nothing.
    pub open spec fn apply(self, op: Operation) -> Books {
        match op {
            Operation::Stake { account, depositor, now, amount, is_class_a } => {
                if account < self.ledgers.len() {
                    self.booked(
                        account as int,
                        stake_outcome(
                            self.pool,
                            self.ledgers[account as int],
                            depositor,
                            now,
                            amount,
                            is_class_a,
                        ),
                    )
                } else {
                    self
                }
            },
            Operation::Unstake { account, now, amount, is_class_a, custody_balance } => {
                if account < self.ledgers.len() {
                    self.booked(
                        account as int,
                        unstake_outcome(
                            self.pool,
                            self.ledgers[account as int],
                            now,
                            amount,
                            is_class_a,
                            custody_balance,
                        ),
                    )
                } else {
                    self
                }
            },
            Operation::Claim { account, now, custody_balance } => {
                if account < self.ledgers.len() {
                    self.booked(
                        account as int,
                        claim_outcome(self.pool, self.ledgers[account as int], now, custody_balance),
                    )
                } else {
                    self
                }
            },
        }
    }

    /// The books after `ops`, applied in order.
    pub open spec fn run(self, ops: Seq<Operation>) -> Books
        decreases ops.len(),
    {
        if ops.len() == 0 {
            self
        } else {
            self.run(ops.drop_last()).apply(ops.last())
        }
    }
}

/// Replacing one ledger changes the sum by the difference of the two weights.
pub proof fn lemma_total_weight_update(
    ledgers: Seq<UserStakeLedger>,
    account: int,
    ledger: UserStakeLedger,
)
    requires
        0 <= account < ledgers.len(),
    ensures
        total_weight(ledgers.update(account, ledger)) + ledgers[account].weighted_stake()
            == total_weight(ledgers) + ledger.weighted_stake(),
    decreases ledgers.len(),
{
    let updated = ledgers.update(account, ledger);
    if account == ledgers.len() - 1 {
        assert(updated.drop_last() =~= ledgers.drop_last());
    } else {
        lemma_total_weight_update(ledgers.drop_last(), account, ledger);
        assert(updated.drop_last() =~= ledgers.drop_last().update(account, ledger));
    }
}

/// Ledgers that hold nothing sum to nothing: the books of a vault that has
/// just been set up are conserved.
pub proof fn lemma_empty_ledgers_weigh_nothing(ledgers: Seq<UserStakeLedger>)
    requires
        forall|i: int| 0 <= i < ledgers.len() ==> (#[trigger] ledgers[i]).weighted_stake() == 0,
    ensures
        total_weight(ledgers) == 0,
    decreases ledgers.len(),
{
    if ledgers.len() > 0 {
        let rest = ledgers.drop_last();
        assert forall|i: int| 0 <= i < rest.len() implies (#[trigger] rest[i]).weighted_stake()
            == 0 by {
            assert(rest[i] == ledgers[i]);
        }
        lemma_empty_ledgers_weigh_nothing(rest);
    }
}

/// One operation keeps well-formed, conserved books well-formed and
/// conserved.
pub proof fn lemma_apply_conserves(books: Books, op: Operation)
    requires
        books.wf(),
        books.conserved(),
    ensures
        books.apply(op).wf(),
        books.apply(op).conserved(),
{
    let after = books.apply(op);
    match op {
        Operation::Stake { account, depositor, now, amount, is_class_a } => {
            if account < books.ledgers.len() {
                let ledger = books.ledgers[account as int];
                assert(ledger.wf());
                lemma_settled_keeps(books.pool, opened(ledger, depositor, now), now);
                match stake_outcome(books.pool, ledger, depositor, now, amount, is_class_a) {
                    Ok((pool, entry)) => {
                        lemma_total_weight_update(books.ledgers, account as int, entry);
                        assert(after.wf());
                    },
                    Err(_) => {},
                }
            }
        },
        Operation::Unstake { account, now, amount, is_class_a, custody_balance } => {
            if account < books.ledgers.len() {
                let ledger = books.ledgers[account as int];
                assert(ledger.wf());
                lemma_settled_keeps(books.pool, ledger, now);
                match unstake_outcome(
                    books.pool,
                    ledger,
                    now,
                    amount,
                    is_class_a,
                    custody_balance,
                ) {
                    Ok((pool, entry)) => {
                        lemma_total_weight_update(books.ledgers, account as int, entry);
                        assert(after.wf());
                    },
                    Err(_) => {},
                }
            }
        },
        Operation::Claim { account, now, custody_balance } => {
            if account < books.ledgers.len() {
                let ledger = books.ledgers[account as int];
                assert(ledger.wf());
                lemma_settled_keeps(books.pool, ledger, now);
                match claim_outcome(books.pool, ledger, now, custody_balance) {
                    Ok((pool, entry)) => {
                        lemma_total_weight_update(books.ledgers, account as int, entry);
                        assert(after.wf());
                    },
                    Err(_) => {},
                }
            }
        },
    }
}

/// A whole run keeps well-formed, conserved books well-formed and conserved.
pub proof fn lemma_run_conserves(books: Books, ops: Seq<Operation>)
    requires
        books.wf(),
        books.conserved(),
    ensures
        books.run(ops).wf(),
        books.run(ops).conserved(),
    decreases ops.len(),
{
    if ops.len() > 0 {
        lemma_run_conserves(books, ops.drop_last());
        lemma_apply_conserves(books.run(ops.drop_last()), ops.last());
    }
}

/// Conservation: starting from well-formed books in which the pool's total
/// equals the sum of the ledgers' weighted stake, the two are equal again
/// after every operation of any run of deposits, withdrawals and claims,
/// whether the single operations succeed or are refused.
pub proof fn lemma_conservation(books: Books, ops: Seq<Operation>)
    requires
        books.wf(),
        books.conserved(),
    ensures
        forall|k: int| 0 <= k <= ops.len() ==> (#[trigger] books.run(ops.take(k))).conserved(),
{
    assert forall|k: int| 0 <= k <= ops.len() implies (#[trigger] books.run(
        ops.take(k),
    )).conserved() by {
        lemma_run_conserves(books, ops.take(k));
    }
}

} // verus!
