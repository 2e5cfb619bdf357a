//! The plain vault: deposits and withdrawals against one running total, with
//! no reward accrual. It follows the same pattern as the rewarded vault with
//! the settlement step left out.

use crate::custody::{Direction, TransferRequest};
use crate::errors::ErrorCode;
use crate::identity::Identity;
use vstd::prelude::*;

verus! {

/// The record of a plain vault.
#[derive(Clone, Copy, Debug, PartialEq, Eq)]
pub struct Vault {
    /// Who set the vault up.
    pub admin: Identity,
    /// Units held at stake.
    pub total_staked: u64,
}

/// Sets up an empty vault for `admin`.
pub fn initialize(admin: Identity) -> (vault: Vault)
    ensures
        vault == (Vault { admin, total_staked: 0 }),
{
    Vault { admin, total_staked: 0 }
}

/// Deposits `amount` units.
///
/// A total that would leave the range of 64 bits is refused with
/// `ArithmeticOverflow`. On success the host has to move `amount` units from
/// the depositor into custody.
pub fn stake(vault: &mut Vault, amount: u64) -> (result: Result<TransferRequest, ErrorCode>)
    ensures
        old(vault).total_staked + amount <= u64::MAX ==> {
            &&& result == Ok::<TransferRequest, ErrorCode>(
                TransferRequest { direction: Direction::Inbound, amount },
            )
            &&& *final(vault) == (Vault {
                total_staked: (old(vault).total_staked + amount) as u64,
                ..*old(vault)
            })
        },
        old(vault).total_staked + amount > u64::MAX ==> {
            &&& result == Err::<TransferRequest, ErrorCode>(ErrorCode::ArithmeticOverflow)
            &&& *final(vault) == *old(vault)
        },
{
    match vault.total_staked.checked_add(amount) {
        Some(total) => {
            vault.total_staked = total;
            Ok(TransferRequest { direction: Direction::Inbound, amount })
        },
        None => Err(ErrorCode::ArithmeticOverflow),
    }
}

/// Withdraws `amount` units.
///
/// More than the vault holds at stake is refused with `InsufficientStake`;
/// more than `custody_balance`, which is what the vault's custody account
/// holds, with `InsufficientCustodyBalance`. On success the host has to move
/// `amount` units out of custody on the vault's own authority.
pub fn unstake(vault: &mut Vault, amount: u64, custody_balance: u64) -> (result: Result<
    TransferRequest,
    ErrorCode,
>)
    ensures
        amount > old(vault).total_staked ==> {
            &&& result == Err::<TransferRequest, ErrorCode>(ErrorCode::InsufficientStake)
            &&& *final(vault) == *old(vault)
        },
        amount <= old(vault).total_staked && amount > custody_balance ==> {
            &&& result == Err::<TransferRequest, ErrorCode>(
                ErrorCode::InsufficientCustodyBalance,
            )
            &&& *final(vault) == *old(vault)
        },
        amount <= old(vault).total_staked && amount <= custody_balance ==> {
            &&& result == Ok::<TransferRequest, ErrorCode>(
                TransferRequest { direction: Direction::Outbound, amount },
            )
            &&& *final(vault) == (Vault {
                total_staked: (old(vault).total_staked - amount) as u64,
                ..*old(vault)
            })
        },
{
    if vault.total_staked < amount {
        return Err(ErrorCode::InsufficientStake);
    }
    if amount > custody_balance {
        return Err(ErrorCode::InsufficientCustodyBalance);
    }
    vault.total_staked = vault.total_staked - amount;
    Ok(TransferRequest { direction: Direction::Outbound, amount })
}

} // verus!
