use vstd::prelude::*;

use crate::clock::now_unix_timestamp;
use crate::errors::LedgerError;
use crate::history::{pushed, RingBuffer};
use crate::transaction::{Transaction, TransactionType};

verus! {

/// The number of recent transactions an account retains.
pub const HISTORY_CAPACITY: usize = 10;

/// The mathematical state of one account: its balance, its overdraft limit,
/// and its newest-first history of recorded transactions.
pub struct AccountState {
    pub balance: int,
    pub limit: int,
    pub history: Seq<Transaction>,
}

/// The core invariant of the whole ledger: the balance never goes below the
/// negative limit, the limit is non-negative, and the history is bounded.
pub open spec fn state_inv(s: AccountState) -> bool {
    &&& s.limit >= 0
    &&& s.balance >= -s.limit
    &&& s.history.len() <= HISTORY_CAPACITY
}

/// Whether an account in state `s` accepts transaction `t`: a credit is
/// always accepted, a debit only when the projected balance stays at or
/// above the negative limit.
pub open spec fn state_accepts(s: AccountState, t: Transaction) -> bool {
    match t.kind {
        TransactionType::CREDIT => true,
        TransactionType::DEBIT => s.balance - t.value >= -s.limit,
    }
}

/// The state after offering transaction `t` to an account in state `s`: an
/// accepted transaction moves the balance and is recorded as the newest
/// history entry; a rejected one leaves the state exactly as it was.
pub open spec fn apply_state(s: AccountState, t: Transaction) -> AccountState {
    if state_accepts(s, t) {
        AccountState {
            balance: if t.kind is CREDIT {
                s.balance + t.value
            } else {
                s.balance - t.value
            },
            limit: s.limit,
            history: pushed(s.history, HISTORY_CAPACITY as int, t),
        }
    } else {
        s
    }
}

/// One ledger account: a balance that may go negative down to `-limit`, the
/// fixed overdraft limit, and the bounded history of its most recent
/// transactions. All mutation goes through `transact`.
#[derive(Debug)]
pub struct Client {
    pub balance: i64,
    pub limit: i64,
    pub transactions: RingBuffer<Transaction>,
}

/// A read-only projection of an account assembled on demand: balance, limit,
/// a point-in-time copy of the recent transactions (newest first), and the
/// moment the statement was assembled.
#[derive(Debug)]
pub struct StatementView {
    pub balance: i64,
    pub limit: i64,
    pub recent: Vec<Transaction>,
    pub observed_at: i64,
}

impl View for Client {
    type V = AccountState;

    open spec fn view(&self) -> AccountState {
        AccountState {
            balance: self.balance as int,
            limit: self.limit as int,
            history: self.transactions@,
        }
    }
}

impl Client {
    /// Well-formedness: the core invariant holds and the history container
    /// has the standard capacity.
    pub open spec fn inv(&self) -> bool {
        &&& state_inv(self@)
        &&& self.transactions.inv()
        &&& self.transactions.spec_cap() == HISTORY_CAPACITY
    }

    /// A fresh account with the given overdraft limit, zero balance and an
    /// empty history.
    pub fn with_limit(limit: i64) -> (r: Self)
        requires
            limit >= 0,
        ensures
            r.balance == 0,
            r.limit == limit,
            r.transactions@ == Seq::<Transaction>::empty(),
            r.inv(),
    {
        Client { limit, ..Default::default() }
    }

    /// Applies one credit or debit atomically. A credit always succeeds; a
    /// debit succeeds exactly when the projected balance stays at or above
    /// the negative limit. On success the record becomes the newest history
    /// entry and the post-operation balance and limit are returned; on
    /// failure the account is left exactly as it was.
    pub fn transact(&mut self, transaction: Transaction) -> (r: Result<(i64, i64), LedgerError>)
        requires
            old(self).inv(),
            transaction.wf(),
            transaction.kind is CREDIT ==> old(self).balance + transaction.value <= i64::MAX,
        ensures
            final(self).inv(),
            final(self).limit == old(self).limit,
            final(self)@ == apply_state(old(self)@, transaction),
            r is Ok <==> state_accepts(old(self)@, transaction),
            r matches Ok(p) ==> p == (final(self).balance, final(self).limit),
            r is Err ==> r == Err::<(i64, i64), LedgerError>(LedgerError::InsufficientFunds)
                && *final(self) == *old(self),
    {
        match transaction.kind {
            TransactionType::CREDIT => {
                self.balance = self.balance + transaction.value;
                self.transactions.push(transaction);
                Ok((self.balance, self.limit))
            },
            TransactionType::DEBIT => {
                let projected: i128 = self.balance as i128 - transaction.value as i128;
                if projected >= -(self.limit as i128) {
                    assert(i64::MIN <= projected <= i64::MAX);
                    self.balance = projected as i64;
                    self.transactions.push(transaction);
                    Ok((self.balance, self.limit))
                } else {
                    Err(LedgerError::InsufficientFunds)
                }
            },
        }
    }

    /// Assembles a statement: the current balance and limit, a point-in-time
    /// copy of the recent transactions in newest-first order, and the time
    /// of assembly. The account itself is not changed.
    pub fn statement(&self) -> (r: StatementView)
        ensures
            r.balance == self.balance,
            r.limit == self.limit,
            r.recent@ == self.transactions@,
    {
        StatementView {
            balance: self.balance,
            limit: self.limit,
            recent: self.transactions.snapshot(),
            observed_at: now_unix_timestamp(),
        }
    }
}

impl Default for Client {
    /// An account with zero balance, zero limit and an empty history of the
    /// standard capacity.
    fn default() -> (r: Self)
        ensures
            r.balance == 0,
            r.limit == 0,
            r.transactions@ == Seq::<Transaction>::empty(),
            r.inv(),
    {
        Client { balance: 0, limit: 0, transactions: RingBuffer::with_capacity(HISTORY_CAPACITY) }
    }
}

} // verus!
