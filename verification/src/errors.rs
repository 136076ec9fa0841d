use vstd::prelude::*;

verus! {

/// Failures of the ledger and of the play transition.
///
/// Every error is terminal for the call in which it occurs: the operation
/// returns the error and leaves the ledger exactly as it was.
#[derive(Clone, Copy, Debug, PartialEq, Eq, Structural)]
pub enum Error {
    /// `initialize` was called on a slot that already holds a ledger.
    AlreadyInitialized,
    /// The owner identity offered to `initialize` is malformed.
    InvalidIdentity,
    /// A credit would push a balance past the largest representable amount.
    ArithmeticOverflow,
    /// A debit asked for more than the account holds.
    InsufficientCredits,
    /// `play` was attempted on an account with no credits at all.
    NoCredits,
}

} // verus!
