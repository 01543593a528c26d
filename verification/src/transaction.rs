use vstd::prelude::*;
use vstd::string::StrSliceExecFns;

use crate::clock::now_unix_timestamp;
use crate::errors::LedgerError;

verus! {

/// The two recognized transaction kinds: a credit increases the balance, a
/// debit decreases it.
#[allow(non_camel_case_types)]
#[derive(Clone, Copy, Debug, PartialEq, Eq, Structural)]
pub enum TransactionType {
    DEBIT,
    CREDIT,
}

impl TransactionType {
    /// Parses the single-character wire tag: `'c'` is a credit, `'d'` a
    /// debit, and every other tag is rejected before an account sees it.
    pub fn from_tag(tag: char) -> (r: Result<TransactionType, LedgerError>)
        ensures
            tag == 'c' ==> r == Ok::<TransactionType, LedgerError>(TransactionType::CREDIT),
            tag == 'd' ==> r == Ok::<TransactionType, LedgerError>(TransactionType::DEBIT),
            tag != 'c' && tag != 'd' ==> r == Err::<TransactionType, LedgerError>(
                LedgerError::InvalidKind,
            ),
    {
        if tag == 'c' {
            Ok(TransactionType::CREDIT)
        } else if tag == 'd' {
            Ok(TransactionType::DEBIT)
        } else {
            Err(LedgerError::InvalidKind)
        }
    }

    /// The wire tag of this kind.
    pub fn tag(&self) -> (r: char)
        ensures
            *self == TransactionType::CREDIT ==> r == 'c',
            *self == TransactionType::DEBIT ==> r == 'd',
    {
        match self {
            TransactionType::CREDIT => 'c',
            TransactionType::DEBIT => 'd',
        }
    }
}

/// A transaction description: free text of one to ten characters. A value of
/// this type can only be built through `new`, so an existing `Description`
/// is always valid.
#[derive(Debug)]
pub struct Description(String);

impl View for Description {
    type V = Seq<char>;

    closed spec fn view(&self) -> Seq<char> {
        self.0@
    }
}

impl Description {
    /// The validity condition: one to ten characters inclusive.
    pub open spec fn wf(&self) -> bool {
        1 <= self@.len() <= 10
    }

    /// Validates and wraps a description; an empty or over-long text is
    /// rejected without any other effect.
    pub fn new(text: String) -> (r: Result<Description, LedgerError>)
        ensures
            r matches Ok(d) ==> d@ == text@ && d.wf(),
            r is Ok <==> 1 <= text@.len() <= 10,
            r is Err ==> r == Err::<Description, LedgerError>(LedgerError::InvalidDescription),
    {
        let n = text.as_str().unicode_len();
        if n == 0 || n > 10 {
            Err(LedgerError::InvalidDescription)
        } else {
            Ok(Description(text))
        }
    }

    /// The description text.
    pub fn as_str(&self) -> (r: &str)
        ensures
            r@ == self@,
    {
        self.0.as_str()
    }
}

impl Clone for Description {
    fn clone(&self) -> (r: Self)
        ensures
            r == *self,
    {
        Description(self.0.clone())
    }
}

/// One credit or debit event, immutable once constructed. The constructor
/// rejects malformed input, so a record that exists is always well formed.
#[derive(Debug)]
pub struct Transaction {
    /// Non-negative amount in the smallest currency unit.
    pub value: i64,
    /// Credit or debit.
    pub kind: TransactionType,
    /// Free text of one to ten characters.
    pub description: Description,
    /// Seconds since the Unix epoch at which the transaction was accepted.
    pub created_at: i64,
}

impl Transaction {
    /// Well-formedness: the amount is non-negative and the description valid.
    pub open spec fn wf(&self) -> bool {
        self.value >= 0 && self.description.wf()
    }

    /// Validates and builds a record. A bad description is reported first,
    /// then a negative value; a record is returned only when both checks
    /// pass. When the caller supplies no timestamp, the moment of acceptance
    /// is used.
    pub fn new(
        value: i64,
        kind: TransactionType,
        description: String,
        created_at: Option<i64>,
    ) -> (r: Result<Transaction, LedgerError>)
        ensures
            r is Ok <==> (1 <= description@.len() <= 10 && value >= 0),
            r matches Ok(t) ==> {
                &&& t.wf()
                &&& t.value == value
                &&& t.kind == kind
                &&& t.description@ == description@
                &&& (created_at matches Some(ts) ==> t.created_at == ts)
            },
            !(1 <= description@.len() <= 10) ==> r == Err::<Transaction, LedgerError>(
                LedgerError::InvalidDescription,
            ),
            1 <= description@.len() <= 10 && value < 0 ==> r == Err::<Transaction, LedgerError>(
                LedgerError::InvalidValue,
            ),
    {
        let description = match Description::new(description) {
            Ok(d) => d,
            Err(e) => {
                return Err(e);
            },
        };
        if value < 0 {
            return Err(LedgerError::InvalidValue);
        }
        let ts: i64 = match created_at {
            Some(ts) => ts,
            None => now_unix_timestamp(),
        };
        Ok(Transaction { value, kind, description, created_at: ts })
    }
}

impl Clone for Transaction {
    fn clone(&self) -> (r: Self)
        ensures
            r == *self,
    {
        Transaction {
            value: self.value,
            kind: self.kind,
            description: self.description.clone(),
            created_at: self.created_at,
        }
    }
}

} // verus!
