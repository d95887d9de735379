//! Errors of the vault's operations.
use vstd::prelude::*;
use crate::solver::ArithmeticError;

verus! {

/// Why an operation was refused.
#[derive(Clone, Copy, Debug, PartialEq, Eq)]
pub enum VaultError {
    /// The rebalancing arithmetic left the 128-bit range or divided by zero.
    Arithmetic(ArithmeticError),
    /// The sender lacks the authority the operation needs.
    Unauthorized,
    /// The operation needs a position and none exists.
    NoPosition,
    /// A position creation is still waiting for its confirmation.
    CreationInProgress,
    /// The operation needs a price and none was quoted, or the quote was zero.
    InvalidPrice,
    /// A confirmation arrived for an id that nothing is waiting on.
    UnknownReply,
}

} // verus!
