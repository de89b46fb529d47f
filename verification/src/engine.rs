use vstd::prelude::*;

use crate::errors::TransferError;

verus! {

/// Success report for one committed transfer: the balances that resulted
/// from it, for the audit record the caller emits.
#[derive(Debug, Clone, Copy, PartialEq, Eq, Structural)]
pub struct TransferOk {
    /// Source balance after the debit of `amount + fee`.
    pub from_balance: u64,
    /// Destination balance after the credit of `amount`.
    pub to_balance: u64,
}

/// The full debit a transfer takes from the source: `amount + fee`.
pub open spec fn needed_spec(amount: u64, fee: u64) -> int {
    amount + fee
}

/// Whether a transfer commits on the given source and destination balances.
pub open spec fn commits_spec(from_balance: u64, to_balance: u64, amount: u64, fee: u64) -> bool {
    &&& needed_spec(amount, fee) <= from_balance
    &&& to_balance + amount <= u64::MAX
}

/// The exact outcome of one transfer step on plain balances: the new pair of
/// balances on commit, or the error that left them untouched.
pub open spec fn transfer_amounts_spec(
    from_balance: u64,
    to_balance: u64,
    amount: u64,
    fee: u64,
) -> Result<TransferOk, TransferError> {
    if from_balance < needed_spec(amount, fee) {
        Err(TransferError::InsufficientFunds {
            needed: (amount + fee) as u128,
            available: from_balance,
        })
    } else if to_balance + amount > u64::MAX {
        Err(TransferError::CreditOverflow)
    } else {
        Ok(TransferOk {
            from_balance: (from_balance - amount - fee) as u64,
            to_balance: (to_balance + amount) as u64,
        })
    }
}

/// One transfer step between two balance cells, as a total function on plain
/// values: debit `amount + fee` from the source, credit `amount` to the
/// destination, or report exactly why nothing changes. A dispatcher holding
/// both accounts' locks applies this step to the locked cells and writes the
/// results back, which keeps every commit atomic: both sides or neither.
pub fn transfer_amounts(from_balance: u64, to_balance: u64, amount: u64, fee: u64) -> (r: Result<
    TransferOk,
    TransferError,
>)
    ensures
        r == transfer_amounts_spec(from_balance, to_balance, amount, fee),
        r is Ok <==> commits_spec(from_balance, to_balance, amount, fee),
{
    let needed: u128 = amount as u128 + fee as u128;
    if (from_balance as u128) < needed {
        Err(TransferError::InsufficientFunds { needed, available: from_balance })
    } else if amount > u64::MAX - to_balance {
        Err(TransferError::CreditOverflow)
    } else {
        Ok(TransferOk { from_balance: from_balance - amount - fee, to_balance: to_balance + amount })
    }
}

/// The canonical order in which two distinct accounts' locks are taken: the
/// lower handle first. It depends only on the unordered pair, never on the
/// transfer's direction.
pub open spec fn lock_order_spec(a: usize, b: usize) -> (usize, usize) {
    if a <= b {
        (a, b)
    } else {
        (b, a)
    }
}

/// Orders a pair of account handles canonically for lock acquisition.
/// Every concurrent caller that touches the same two accounts computes the
/// same ordered pair, whichever direction its transfer runs.
pub fn lock_order(a: usize, b: usize) -> (r: (usize, usize))
    ensures
        r == lock_order_spec(a, b),
{
    if a <= b {
        (a, b)
    } else {
        (b, a)
    }
}

} // verus!
