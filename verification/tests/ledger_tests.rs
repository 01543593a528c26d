use ledger::client::Client;
use ledger::errors::LedgerError;
use ledger::history::RingBuffer;
use ledger::registry::AccountRegistry;
use ledger::transaction::{Description, Transaction, TransactionType};

fn tx(value: i64, kind: TransactionType, description: &str, created_at: i64) -> Transaction {
    Transaction::new(value, kind, description.to_string(), Some(created_at)).unwrap()
}

#[test]
fn debit_over_limit_is_rejected_and_changes_nothing() {
    let mut client = Client::with_limit(100);
    let r = client.transact(tx(150, TransactionType::DEBIT, "rent", 1));
    assert_eq!(r, Err(LedgerError::InsufficientFunds));
    assert_eq!(client.balance, 0);
    assert_eq!(client.limit, 100);
    assert_eq!(client.statement().recent.len(), 0);
}

#[test]
fn debit_down_to_exact_limit_succeeds() {
    let mut client = Client::with_limit(100);
    let r = client.transact(tx(100, TransactionType::DEBIT, "rent", 1));
    assert_eq!(r, Ok((-100, 100)));
    assert_eq!(client.balance, -100);
}

#[test]
fn debit_one_past_limit_fails() {
    let mut client = Client::with_limit(100);
    let r = client.transact(tx(101, TransactionType::DEBIT, "rent", 1));
    assert_eq!(r, Err(LedgerError::InsufficientFunds));
    assert_eq!(client.balance, 0);
}

#[test]
fn credit_increases_balance_by_exactly_its_value() {
    let mut client = Client::with_limit(0);
    let r = client.transact(tx(42, TransactionType::CREDIT, "salary", 1));
    assert_eq!(r, Ok((42, 0)));
    let r = client.transact(tx(0, TransactionType::CREDIT, "nothing", 2));
    assert_eq!(r, Ok((42, 0)));
    assert_eq!(client.balance, 42);
}

#[test]
fn statement_reports_history_newest_first() {
    let mut client = Client::with_limit(100);
    assert_eq!(client.transact(tx(100, TransactionType::DEBIT, "rent", 1)), Ok((-100, 100)));
    assert_eq!(client.transact(tx(50, TransactionType::CREDIT, "salary", 2)), Ok((-50, 100)));
    let statement = client.statement();
    assert_eq!(statement.balance, -50);
    assert_eq!(statement.limit, 100);
    assert_eq!(statement.recent.len(), 2);
    assert_eq!(statement.recent[0].value, 50);
    assert_eq!(statement.recent[0].kind, TransactionType::CREDIT);
    assert_eq!(statement.recent[1].value, 100);
    assert_eq!(statement.recent[1].kind, TransactionType::DEBIT);
}

#[test]
fn statement_is_a_point_in_time_snapshot() {
    let mut client = Client::with_limit(100);
    client.transact(tx(10, TransactionType::CREDIT, "first", 1)).unwrap();
    let statement = client.statement();
    client.transact(tx(20, TransactionType::CREDIT, "second", 2)).unwrap();
    assert_eq!(statement.recent.len(), 1);
    assert_eq!(statement.recent[0].value, 10);
    assert_eq!(statement.balance, 10);
}

#[test]
fn eleventh_record_evicts_exactly_the_oldest() {
    let mut client = Client::with_limit(0);
    for i in 0..11 {
        let r = client.transact(tx(i + 1, TransactionType::CREDIT, "salary", i));
        assert!(r.is_ok());
    }
    let recent = client.statement().recent;
    assert_eq!(recent.len(), 10);
    // Newest first: values 11 down to 2; the first record (value 1) is gone.
    for (pos, record) in recent.iter().enumerate() {
        assert_eq!(record.value, 11 - pos as i64);
    }
}

#[test]
fn failed_debit_adds_no_history_entry() {
    let mut client = Client::with_limit(50);
    client.transact(tx(30, TransactionType::CREDIT, "salary", 1)).unwrap();
    let r = client.transact(tx(1000, TransactionType::DEBIT, "rent", 2));
    assert_eq!(r, Err(LedgerError::InsufficientFunds));
    let recent = client.statement().recent;
    assert_eq!(recent.len(), 1);
    assert_eq!(recent[0].value, 30);
    assert_eq!(client.balance, 30);
}

#[test]
fn empty_description_is_rejected_before_any_account_is_touched() {
    let client = Client::with_limit(100);
    let r = Transaction::new(10, TransactionType::CREDIT, "".to_string(), Some(1));
    assert_eq!(r.err(), Some(LedgerError::InvalidDescription));
    assert_eq!(client.balance, 0);
    // The account only ever sees validated records, so the malformed
    // payload never reached `transact` and the state is untouched.
    assert_eq!(client.statement().recent.len(), 0);
}

#[test]
fn eleven_character_description_is_rejected() {
    let r = Transaction::new(10, TransactionType::CREDIT, "abcdefghijk".to_string(), Some(1));
    assert_eq!(r.err(), Some(LedgerError::InvalidDescription));
    let ok = Transaction::new(10, TransactionType::CREDIT, "abcdefghij".to_string(), Some(1));
    assert!(ok.is_ok());
}

#[test]
fn negative_value_is_rejected() {
    let r = Transaction::new(-1, TransactionType::CREDIT, "salary".to_string(), Some(1));
    assert_eq!(r.err(), Some(LedgerError::InvalidValue));
}

#[test]
fn unrecognized_kind_tag_is_rejected() {
    assert_eq!(TransactionType::from_tag('c'), Ok(TransactionType::CREDIT));
    assert_eq!(TransactionType::from_tag('d'), Ok(TransactionType::DEBIT));
    assert_eq!(TransactionType::from_tag('x'), Err(LedgerError::InvalidKind));
    assert_eq!(TransactionType::CREDIT.tag(), 'c');
    assert_eq!(TransactionType::DEBIT.tag(), 'd');
}

#[test]
fn supplied_timestamp_is_kept_and_omitted_one_is_filled_in() {
    let t = tx(5, TransactionType::CREDIT, "salary", 123);
    assert_eq!(t.created_at, 123);
    let t = Transaction::new(5, TransactionType::CREDIT, "salary".to_string(), None).unwrap();
    assert_eq!(t.value, 5);
}

#[test]
fn description_round_trip() {
    let d = Description::new("até dez".to_string()).unwrap();
    assert_eq!(d.as_str(), "até dez");
    assert!(Description::new("x".to_string()).is_ok());
    assert_eq!(
        Description::new("".to_string()).err(),
        Some(LedgerError::InvalidDescription)
    );
}

#[test]
fn ring_buffer_grows_until_capacity_then_evicts() {
    let mut buffer: RingBuffer<i64> = RingBuffer::with_capacity(3);
    assert_eq!(buffer.capacity(), 3);
    buffer.push(1);
    buffer.push(2);
    buffer.push(3);
    assert_eq!(buffer.len(), 3);
    buffer.push(4);
    assert_eq!(buffer.len(), 3);
    assert_eq!(*buffer.get(0), 4);
    assert_eq!(*buffer.get(1), 3);
    assert_eq!(*buffer.get(2), 2);
}

#[test]
fn ring_buffer_with_zero_capacity_retains_nothing() {
    let mut buffer: RingBuffer<i64> = RingBuffer::with_capacity(0);
    buffer.push(7);
    assert_eq!(buffer.len(), 0);
}

#[test]
fn invariant_holds_after_every_call_of_a_mixed_sequence() {
    let mut client = Client::with_limit(100);
    let calls = [
        (TransactionType::DEBIT, 60),
        (TransactionType::DEBIT, 60),
        (TransactionType::CREDIT, 30),
        (TransactionType::DEBIT, 200),
        (TransactionType::DEBIT, 70),
        (TransactionType::CREDIT, 1),
    ];
    for (step, (kind, value)) in calls.into_iter().enumerate() {
        let _ = client.transact(tx(value, kind, "mixed", step as i64));
        assert!(client.balance >= -client.limit);
        assert!(client.statement().recent.len() <= 10);
    }
    // 0 -60 (reject -120) +30 (reject -230) -70 +1 = -99
    assert_eq!(client.balance, -99);
}

#[test]
fn of_three_conflicting_debits_exactly_one_succeeds() {
    // Serialized in any order, three debits of 100 against limit 100 admit
    // exactly one success; here they run in the order of submission.
    let mut client = Client::with_limit(100);
    let mut successes = 0;
    for step in 0..3 {
        if client.transact(tx(100, TransactionType::DEBIT, "race", step)).is_ok() {
            successes += 1;
        }
    }
    assert_eq!(successes, 1);
    assert_eq!(client.balance, -100);
    assert_eq!(client.statement().recent.len(), 1);
}

#[test]
fn registry_resolves_known_ids_and_rejects_unknown_ones() {
    let registry = AccountRegistry::new(vec![(1, 100_000), (2, 80_000), (3, 1_000_000)]);
    assert!(registry.resolve(2).is_some());
    assert!(registry.resolve(99).is_none());
    let statement = registry.get_statement(1).unwrap();
    assert_eq!(statement.balance, 0);
    assert_eq!(statement.limit, 100_000);
    assert_eq!(statement.recent.len(), 0);
    assert_eq!(registry.get_statement(99).err(), Some(LedgerError::NotFound));
}

#[test]
fn registry_routes_transactions_to_the_right_account() {
    let mut registry = AccountRegistry::new(vec![(1, 100), (2, 0)]);
    let r = registry.create_transaction(1, tx(100, TransactionType::DEBIT, "rent", 1));
    assert_eq!(r, Ok((-100, 100)));
    let r = registry.create_transaction(2, tx(5, TransactionType::CREDIT, "salary", 2));
    assert_eq!(r, Ok((5, 0)));
    let r = registry.create_transaction(2, tx(6, TransactionType::DEBIT, "rent", 3));
    assert_eq!(r, Err(LedgerError::InsufficientFunds));
    assert_eq!(registry.get_statement(1).unwrap().balance, -100);
    assert_eq!(registry.get_statement(2).unwrap().balance, 5);
    let r = registry.create_transaction(99, tx(1, TransactionType::CREDIT, "salary", 4));
    assert_eq!(r, Err(LedgerError::NotFound));
}
