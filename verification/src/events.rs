use vstd::prelude::*;

verus! {

/// An observable event. The components append these to in-memory logs; a host
/// would broadcast them. Events are fire-and-forget and carry no invariant.
#[derive(Clone, Copy, Debug, PartialEq, Eq, Structural)]
pub enum Event {
    /// A depositor moved `amount` of the asset into pool custody.
    Deposit { provider: u64, amount: i128 },
    /// A depositor moved `amount` of the asset back out of pool custody.
    Withdraw { provider: u64, amount: i128 },
    /// A borrower opened a pending loan over `amount`.
    LoanRequested { borrower: u64, amount: i128 },
    /// The admin approved the loan stored under `loan_id`.
    LoanApproved { loan_id: u32 },
    /// A borrower repaid `amount`.
    LoanRepaid { borrower: u64, amount: i128 },
}

/// The event recorded when a loan is requested.
pub fn loan_requested(borrower: u64, amount: i128) -> (e: Event)
    ensures
        e == (Event::LoanRequested { borrower, amount }),
{
    Event::LoanRequested { borrower, amount }
}

/// The event recorded when a loan is approved.
pub fn loan_approved(loan_id: u32) -> (e: Event)
    ensures
        e == (Event::LoanApproved { loan_id }),
{
    Event::LoanApproved { loan_id }
}

/// The event recorded when a repayment is made.
pub fn loan_repaid(borrower: u64, amount: i128) -> (e: Event)
    ensures
        e == (Event::LoanRepaid { borrower, amount }),
{
    Event::LoanRepaid { borrower, amount }
}

} // verus!
