//! Why an operation on the vault is turned down.

use vstd::prelude::*;

verus! {

/// Reasons for which an operation is refused. A refused operation leaves
/// every record as it found it.
#[derive(Clone, Copy, Debug, PartialEq, Eq, Structural)]
pub enum ErrorCode {
    /// A withdrawal asks for more than the caller has staked.
    InsufficientStake,
    /// A counter would leave the range of 64 bits.
    ArithmeticOverflow,
    /// The vault's custody account cannot cover an outbound transfer.
    InsufficientCustodyBalance,
}

} // verus!
