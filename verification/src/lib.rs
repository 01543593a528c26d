//! An in-memory ledger: a fixed population of accounts, each with a balance,
//! an overdraft limit, and a bounded history of its most recent transactions.
//! Credits and debits are applied atomically per account; a debit that would
//! push the balance below `-limit` is rejected and leaves the account
//! unchanged.

pub mod client;
pub mod clock;
pub mod errors;
pub mod history;
pub mod laws;
pub mod registry;
pub mod transaction;
