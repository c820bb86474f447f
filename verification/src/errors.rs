//! The failures that the ledger's operations report.
use vstd::prelude::*;

verus! {

/// Why an operation was refused. A refused operation leaves the ledger as it was.
#[derive(Clone, Copy, Debug, PartialEq, Eq, Structural)]
pub enum BitsaveErrors {
    /// The caller has not joined the pool.
    InvalidUser,
    /// The caller is not the master.
    Unauthorized,
    /// The caller has joined before.
    UserAlreadyExists,
    /// The attached value does not cover the fee.
    InsufficientFee,
    /// An open saving already has this name.
    SavingAlreadyExists,
    /// No open saving has this name.
    SavingNotFound,
    /// The asset differs from the one the saving holds.
    AssetMismatch,
    /// The requested feature is not offered.
    NotSupported,
    /// The call arrived while another call into the ledger was in flight.
    Reentrant,
    /// An argument is outside its range.
    InvalidParameter,
    /// The pool figures would make the formula divide by zero.
    DivisionByZero,
    /// A product, sum or difference does not fit in 256 bits.
    ArithmeticOverflow,
    /// The host could not move the value.
    TransferFailed,
}

} // verus!
