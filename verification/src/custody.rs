//! Transfers that the vault asks its host to carry out. The vault keeps the
//! books; moving the asset units between custody accounts is the host's part.

use vstd::prelude::*;

verus! {

/// Which way asset units move, and so who authorizes the movement.
#[derive(Clone, Copy, Debug, PartialEq, Eq, Structural)]
pub enum Direction {
    /// From the depositor's account into vault custody, on the depositor's
    /// authority.
    Inbound,
    /// From vault custody to the depositor's account, on the vault's own
    /// authority.
    Outbound,
}

/// A movement of `amount` units that has to accompany a booked operation.
#[derive(Clone, Copy, Debug, PartialEq, Eq, Structural)]
pub struct TransferRequest {
    pub direction: Direction,
    pub amount: u64,
}

impl TransferRequest {
    /// Whether the vault itself has to sign for this transfer.
    pub open spec fn vault_authorized(self) -> bool {
        self.direction == Direction::Outbound
    }

    /// Whether the vault itself, rather than the depositor, signs.
    pub fn signed_by_vault(&self) -> (by_vault: bool)
        ensures
            by_vault == self.vault_authorized(),
    {
        match self.direction {
            Direction::Inbound => false,
            Direction::Outbound => true,
        }
    }
}

} // verus!
