use vstd::prelude::*;

verus! {

/// Every caller-visible failure of the ledger. Input validation produces the
/// three `Invalid*` kinds before an account is ever touched; `NotFound` comes
/// from registry lookup; `InsufficientFunds` is the business rejection of a
/// debit that would break the balance/limit invariant.
#[derive(Clone, Copy, Debug, PartialEq, Eq, Structural)]
pub enum LedgerError {
    /// The description is empty or longer than ten characters.
    InvalidDescription,
    /// The transaction value is negative.
    InvalidValue,
    /// The transaction kind tag is neither credit nor debit.
    InvalidKind,
    /// No account carries the requested identifier.
    NotFound,
    /// The debit would push the balance below the negative limit.
    InsufficientFunds,
}

} // verus!
