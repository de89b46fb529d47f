use vstd::prelude::*;

verus! {

/// Why a single transfer was not committed. Every variant is recoverable per
/// record: the scheduler reports it and goes on with the rest of the batch.
#[derive(Debug, Clone, Copy, PartialEq, Eq, Structural)]
pub enum TransferError {
    /// A referenced identifier is absent from the ledger.
    AccountNotFound,
    /// Source and destination name the same ledger entry; the engine only
    /// transfers between two distinct accounts.
    SameAccount,
    /// The source balance does not cover `amount + fee`. `needed` is the
    /// full debit `amount + fee` (wide enough that the sum never wraps),
    /// `available` the source balance at the time of the attempt.
    InsufficientFunds { needed: u128, available: u64 },
    /// Crediting the destination would exceed what a balance cell can hold.
    /// A well-formed ledger never produces this: the total of all balances
    /// fits in one cell, so any committed credit does too.
    CreditOverflow,
}

/// Why a ledger could not be built from the input accounts.
#[derive(Debug, Clone, Copy, PartialEq, Eq, Structural)]
pub enum BuildError {
    /// Two input accounts carry the same identifier. Fatal at construction
    /// time: it indicates malformed input, not a runtime condition.
    DuplicateId,
    /// The initial balances sum beyond what one balance cell can hold, so
    /// conservation could not keep every later balance representable.
    TotalOverflow,
}

} // verus!
