use vstd::prelude::*;

verus! {

/// Every failure any component can surface. Operations either fully apply
/// their effect or, when they return one of these, apply none of it.
#[derive(Clone, Copy, Debug, PartialEq, Eq, Structural)]
pub enum Error {
    /// A write-once configuration record was written before.
    AlreadyInitialized,
    /// A component was used before its configuration was stored.
    NotInitialized,
    /// A deposit, withdrawal, loan or repayment amount was not positive.
    AmountNotPositive,
    /// An asset-ledger movement was asked for a negative amount.
    NegativeAmount,
    /// The principal the operation acts for did not prove it initiated the call.
    NotAuthorized,
    /// A delegated minter is not in the registry's authorization set.
    MinterNotAuthorized,
    /// A balance does not cover the requested movement.
    InsufficientBalance,
    /// An overflow-checked balance addition would exceed the integer range.
    BalanceOverflow,
    /// An overflow-checked score addition would exceed the integer range.
    ScoreOverflow,
    /// A reputation record (in either shape) already exists for the user.
    AlreadyMinted,
    /// No reputation record (in either shape) exists for the user.
    NoRecord,
    /// The borrower's reputation score is below the loan threshold.
    ScoreTooLow,
    /// No loan is stored under the given identifier.
    LoanNotFound,
    /// The loan is not in the one state the operation may act on.
    LoanNotPending,
}

} // verus!
