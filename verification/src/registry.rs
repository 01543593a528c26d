use vstd::prelude::*;

use crate::client::{apply_state, state_accepts, Client, StatementView};
use crate::errors::LedgerError;
use crate::transaction::Transaction;

verus! {

/// The fixed mapping from account identifier to account. The population is
/// established once at construction and never changes afterwards; lookup is
/// by exact identifier match.
#[derive(Debug)]
pub struct AccountRegistry {
    accounts: Vec<(u8, Client)>,
}

impl AccountRegistry {
    /// The stored (identifier, account) pairs.
    pub closed spec fn entries(&self) -> Seq<(u8, Client)> {
        self.accounts@
    }

    /// Whether some account carries identifier `id`.
    pub open spec fn spec_contains(&self, id: u8) -> bool {
        exists|i: int|
            0 <= i < self.entries().len() && (#[trigger] self.entries()[i]).0 == id
    }

    /// The position of the account carrying identifier `id`.
    pub open spec fn spec_index_of(&self, id: u8) -> int {
        choose|i: int|
            0 <= i < self.entries().len() && (#[trigger] self.entries()[i]).0 == id
    }

    /// The account carrying identifier `id`, if any.
    pub open spec fn spec_get(&self, id: u8) -> Option<Client> {
        if self.spec_contains(id) {
            Some(self.entries()[self.spec_index_of(id)].1)
        } else {
            None
        }
    }

    /// Identifiers are unique and every stored account satisfies the
    /// account invariant.
    pub open spec fn inv(&self) -> bool {
        &&& forall|i: int, j: int|
            0 <= i < j < self.entries().len() ==> (#[trigger] self.entries()[i]).0 != (
            #[trigger] self.entries()[j]).0
        &&& forall|i: int|
            0 <= i < self.entries().len() ==> (#[trigger] self.entries()[i]).1.inv()
    }

    /// Builds the registry from the startup configuration: one fresh account
    /// per `(identifier, limit)` pair, each with zero balance and an empty
    /// history. Identifiers must be distinct and limits non-negative.
    pub fn new(config: Vec<(u8, i64)>) -> (r: Self)
        requires
            forall|i: int, j: int|
                0 <= i < j < config@.len() ==> (#[trigger] config@[i]).0 != (
                #[trigger] config@[j]).0,
            forall|i: int| 0 <= i < config@.len() ==> (#[trigger] config@[i]).1 >= 0,
        ensures
            r.inv(),
            r.entries().len() == config@.len(),
            forall|i: int|
                0 <= i < config@.len() ==> {
                    let e = (#[trigger] r.entries()[i]);
                    &&& e.0 == config@[i].0
                    &&& e.1.balance == 0
                    &&& e.1.limit == config@[i].1
                    &&& e.1.transactions@ == Seq::<Transaction>::empty()
                },
            forall|id: u8|
                #[trigger] r.spec_contains(id) <==> exists|i: int|
                    0 <= i < config@.len() && (#[trigger] config@[i]).0 == id,
    {
        let n = config.len();
        let mut accounts: Vec<(u8, Client)> = Vec::new();
        let mut i: usize = 0;
        while i < n
            invariant
                n == config@.len(),
                i <= n,
                accounts@.len() == i,
                forall|k: int| 0 <= k < config@.len() ==> (#[trigger] config@[k]).1 >= 0,
                forall|j: int|
                    0 <= j < i ==> {
                        let e = (#[trigger] accounts@[j]);
                        &&& e.0 == config@[j].0
                        &&& e.1.balance == 0
                        &&& e.1.limit == config@[j].1
                        &&& e.1.transactions@ == Seq::<Transaction>::empty()
                        &&& e.1.inv()
                    },
            decreases n - i,
        {
            let (id, limit) = config[i];
            accounts.push((id, Client::with_limit(limit)));
            i += 1;
        }
        let r = AccountRegistry { accounts };
        proof {
            assert forall|a: int, b: int| 0 <= a < b < r.entries().len() implies (
            #[trigger] r.entries()[a]).0 != (#[trigger] r.entries()[b]).0 by {
                assert(r.entries()[a].0 == config@[a].0);
                assert(r.entries()[b].0 == config@[b].0);
            }
            assert forall|id: u8| #[trigger] r.spec_contains(id) implies exists|k: int|
                0 <= k < config@.len() && (#[trigger] config@[k]).0 == id by {
                let w = choose|w: int|
                    0 <= w < r.entries().len() && (#[trigger] r.entries()[w]).0 == id;
                assert(config@[w].0 == id);
            }
            assert forall|id: u8|
                (exists|k: int|
                    0 <= k < config@.len() && (#[trigger] config@[k]).0 == id) implies
                #[trigger] r.spec_contains(id) by {
                let w = choose|w: int| 0 <= w < config@.len() && (#[trigger] config@[w]).0 == id;
                assert(r.entries()[w].0 == id);
            }
        }
        r
    }

    /// The position of the account carrying `id`, found by exact match, or
    /// `None` when no account carries it.
    fn find(&self, id: u8) -> (r: Option<usize>)
        requires
            self.inv(),
        ensures
            match r {
                Some(k) => {
                    &&& k < self.entries().len()
                    &&& self.entries()[k as int].0 == id
                    &&& self.spec_contains(id)
                    &&& self.spec_index_of(id) == k as int
                },
                None => !self.spec_contains(id),
            },
    {
        let n = self.accounts.len();
        let mut k: usize = 0;
        while k < n
            invariant
                self.inv(),
                n == self.entries().len(),
                k <= n,
                forall|j: int| 0 <= j < k ==> (#[trigger] self.entries()[j]).0 != id,
            decreases n - k,
        {
            if self.accounts[k].0 == id {
                proof {
                    assert(self.spec_contains(id));
                    let j = self.spec_index_of(id);
                    assert(0 <= j < self.entries().len() && self.entries()[j].0 == id);
                    if j < k as int {
                        assert(self.entries()[j].0 != self.entries()[k as int].0);
                    }
                    if j > k as int {
                        assert(self.entries()[k as int].0 != self.entries()[j].0);
                    }
                }
                return Some(k);
            }
            k += 1;
        }
        None
    }

    /// Resolves an identifier to a read-only handle on its account.
    pub fn resolve(&self, id: u8) -> (r: Option<&Client>)
        requires
            self.inv(),
        ensures
            match r {
                Some(c) => self.spec_get(id) == Some(*c),
                None => self.spec_get(id) is None,
            },
    {
        match self.find(id) {
            Some(k) => Some(&self.accounts[k].1),
            None => None,
        }
    }

    /// Assembles a statement for the account carrying `id`: its balance,
    /// limit and recent transactions, newest first. An unknown identifier
    /// is reported as `NotFound`.
    pub fn get_statement(&self, id: u8) -> (r: Result<StatementView, LedgerError>)
        requires
            self.inv(),
        ensures
            r is Err <==> self.spec_get(id) is None,
            r is Err ==> r == Err::<StatementView, LedgerError>(LedgerError::NotFound),
            self.spec_get(id) matches Some(c) ==> (r matches Ok(s) && s.balance == c.balance
                && s.limit == c.limit && s.recent@ == c.transactions@),
    {
        match self.resolve(id) {
            Some(client) => Ok(client.statement()),
            None => Err(LedgerError::NotFound),
        }
    }

    /// Routes one transaction to the account carrying `id` and applies it
    /// atomically there. An unknown identifier is reported as `NotFound` and
    /// changes nothing; otherwise the outcome is exactly that of
    /// `Client::transact` on that account, and every other account is left
    /// untouched.
    pub fn create_transaction(&mut self, id: u8, transaction: Transaction) -> (r: Result<
        (i64, i64),
        LedgerError,
    >)
        requires
            old(self).inv(),
            transaction.wf(),
            old(self).spec_get(id) matches Some(c) ==> (transaction.kind is CREDIT
                ==> c.balance + transaction.value <= i64::MAX),
        ensures
            final(self).inv(),
            old(self).spec_get(id) is None ==> r == Err::<(i64, i64), LedgerError>(
                LedgerError::NotFound,
            ) && *final(self) == *old(self),
            old(self).spec_get(id) matches Some(c) ==> {
                &&& (final(self).spec_get(id) matches Some(d) && d@ == apply_state(
                    c@,
                    transaction,
                ))
                &&& (forall|other: u8|
                    other != id ==> #[trigger] final(self).spec_get(other) == old(
                        self,
                    ).spec_get(other))
                &&& (r is Ok <==> state_accepts(c@, transaction))
                &&& (r matches Ok(p) ==> p == (
                    apply_state(c@, transaction).balance as i64,
                    c.limit,
                ))
                &&& (r is Err ==> r == Err::<(i64, i64), LedgerError>(
                    LedgerError::InsufficientFunds,
                ))
            },
    {
        let k = match self.find(id) {
            Some(k) => k,
            None => {
                return Err(LedgerError::NotFound);
            },
        };
        let res = self.accounts[k].1.transact(transaction);
        proof {
            let oe = old(self).entries();
            let ne = self.entries();
            assert(ne[k as int].0 == id);
            assert(forall|j: int| 0 <= j < ne.len() && j != k ==> ne[j] == oe[j]);
            assert forall|a: int, b: int| 0 <= a < b < ne.len() implies (#[trigger] ne[a]).0 != (
            #[trigger] ne[b]).0 by {
                assert(oe[a].0 != oe[b].0);
                assert(ne[a].0 == oe[a].0);
                assert(ne[b].0 == oe[b].0);
            }
            assert(self.spec_contains(id));
            let j2 = self.spec_index_of(id);
            assert(0 <= j2 < ne.len() && ne[j2].0 == id);
            if j2 != k as int {
                if j2 < k as int {
                    assert(ne[j2].0 != ne[k as int].0);
                } else {
                    assert(ne[k as int].0 != ne[j2].0);
                }
            }
            assert(self.spec_get(id) == Some(ne[k as int].1));
            assert forall|other: u8| other != id implies #[trigger] self.spec_get(other) == old(
                self,
            ).spec_get(other) by {
                if old(self).spec_contains(other) {
                    let w = old(self).spec_index_of(other);
                    assert(0 <= w < oe.len() && oe[w].0 == other);
                    assert(w != k as int);
                    assert(ne[w].0 == other);
                    assert(self.spec_contains(other));
                    let w2 = self.spec_index_of(other);
                    assert(0 <= w2 < ne.len() && ne[w2].0 == other);
                    assert(w2 != k as int);
                    if w < w2 {
                        assert(ne[w].0 != ne[w2].0);
                    }
                    if w2 < w {
                        assert(ne[w2].0 != ne[w].0);
                    }
                    assert(w == w2);
                    assert(ne[w2].1 == oe[w].1);
                } else {
                    if self.spec_contains(other) {
                        let w2 = self.spec_index_of(other);
                        assert(0 <= w2 < ne.len() && ne[w2].0 == other);
                        assert(w2 != k as int);
                        assert(oe[w2].0 == other);
                        assert(old(self).spec_contains(other));
                    }
                }
            }
        }
        res
    }
}

} // verus!
