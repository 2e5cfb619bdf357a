//! A custodial staking vault with lazily settled rewards.
//!
//! Depositors stake two classes of asset against a shared daily reward
//! budget. Rewards are never swept on a timer: every operation that touches
//! a depositor's ledger first settles what has accrued up to the instant the
//! host hands in, then applies its own effect. Moving the asset units
//! themselves is the host's business; each operation returns the transfer
//! the host has to carry out.

pub mod conservation;
pub mod custody;
pub mod errors;
pub mod identity;
pub mod ledger;
pub mod reward_math;
pub mod settlement;
pub mod staking;
pub mod vault;
