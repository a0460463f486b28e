use query_stats::counter::LedgerError;
use query_stats::counter::QueryCounter;
use query_stats::ledger::Initialize;
use query_stats::ledger::Ledger;
use query_stats::ledger::RecordQuery;
use query_stats::ledger::Signer;

fn signed(key: u64) -> Signer {
    Signer { key, signed: true }
}

fn unsigned(key: u64) -> Signer {
    Signer { key, signed: false }
}

#[test]
fn initialize_then_read_yields_zeros() {
    let mut ledger = Ledger::new();
    let user = signed(1);
    assert_eq!(ledger.initialize(&Initialize { counter: 42, user }), Ok(()));
    let record = ledger.read(42).expect("freshly initialized record must exist");
    assert_eq!(record.total_queries, 0);
    assert_eq!(record.successful_queries, 0);
}

#[test]
fn initialize_twice_fails_and_keeps_first_values() {
    let mut ledger = Ledger::new();
    let user = signed(1);
    assert_eq!(ledger.initialize(&Initialize { counter: 5, user }), Ok(()));
    assert_eq!(
        ledger.record_query(&RecordQuery { counter: 5, user }, true),
        Ok(())
    );
    let other = signed(2);
    assert_eq!(
        ledger.initialize(&Initialize { counter: 5, user: other }),
        Err(LedgerError::AlreadyInitialized)
    );
    let record = ledger.read(5).unwrap();
    assert_eq!(record.total_queries, 1);
    assert_eq!(record.successful_queries, 1);
}

#[test]
fn record_query_on_missing_record_fails_with_not_found() {
    let mut ledger = Ledger::new();
    let user = signed(1);
    assert_eq!(
        ledger.record_query(&RecordQuery { counter: 99, user }, true),
        Err(LedgerError::NotFound)
    );
    assert!(ledger.read(99).is_none());
}

#[test]
fn scenario_three_queries_two_successes() {
    let mut ledger = Ledger::new();
    let user = signed(7);
    assert_eq!(ledger.initialize(&Initialize { counter: 1, user }), Ok(()));
    assert_eq!(ledger.record_query(&RecordQuery { counter: 1, user }, true), Ok(()));
    assert_eq!(ledger.record_query(&RecordQuery { counter: 1, user }, false), Ok(()));
    assert_eq!(ledger.record_query(&RecordQuery { counter: 1, user }, true), Ok(()));
    let record = ledger.read(1).unwrap();
    assert_eq!(record.total_queries, 3);
    assert_eq!(record.successful_queries, 2);
}

#[test]
fn counts_match_sequence_length_and_successes() {
    let mut ledger = Ledger::new();
    let user = signed(3);
    assert_eq!(ledger.initialize(&Initialize { counter: 8, user }), Ok(()));
    let outcomes = vec![true, false, false, true, true, false, true];
    for &success in &outcomes {
        assert_eq!(ledger.record_query(&RecordQuery { counter: 8, user }, success), Ok(()));
        let record = ledger.read(8).unwrap();
        assert!(record.successful_queries <= record.total_queries);
    }
    let record = ledger.read(8).unwrap();
    assert_eq!(record.total_queries, outcomes.len() as u64);
    assert_eq!(
        record.successful_queries,
        outcomes.iter().filter(|&&s| s).count() as u64
    );
}

#[test]
fn unsigned_initialize_is_unauthorized_and_writes_nothing() {
    let mut ledger = Ledger::new();
    assert_eq!(
        ledger.initialize(&Initialize { counter: 4, user: unsigned(1) }),
        Err(LedgerError::Unauthorized)
    );
    assert!(ledger.read(4).is_none());
}

#[test]
fn unsigned_record_query_is_unauthorized_and_changes_nothing() {
    let mut ledger = Ledger::new();
    let user = signed(1);
    assert_eq!(ledger.initialize(&Initialize { counter: 4, user }), Ok(()));
    assert_eq!(
        ledger.record_query(&RecordQuery { counter: 4, user: unsigned(1) }, true),
        Err(LedgerError::Unauthorized)
    );
    let record = ledger.read(4).unwrap();
    assert_eq!(record.total_queries, 0);
    assert_eq!(record.successful_queries, 0);
}

#[test]
fn any_signer_may_record_on_anothers_record() {
    let mut ledger = Ledger::new();
    let creator = signed(1);
    let stranger = signed(2);
    assert_eq!(ledger.initialize(&Initialize { counter: 6, user: creator }), Ok(()));
    assert_eq!(
        ledger.record_query(&RecordQuery { counter: 6, user: stranger }, true),
        Ok(())
    );
    assert_eq!(ledger.read(6).unwrap().total_queries, 1);
}

#[test]
fn overflow_of_total_fails_rather_than_wrapping() {
    let full = QueryCounter { total_queries: u64::MAX, successful_queries: 3 };
    assert_eq!(full.apply_query(false), Err(LedgerError::Overflow));
    assert_eq!(full.apply_query(true), Err(LedgerError::Overflow));
}

#[test]
fn overflow_of_successes_fails_rather_than_wrapping() {
    let full = QueryCounter { total_queries: u64::MAX - 1, successful_queries: u64::MAX };
    assert_eq!(full.apply_query(true), Err(LedgerError::Overflow));
    let advanced = full.apply_query(false).unwrap();
    assert_eq!(advanced.total_queries, u64::MAX);
    assert_eq!(advanced.successful_queries, u64::MAX);
}

#[test]
fn fresh_counter_is_zeroed() {
    let counter = QueryCounter::new();
    assert_eq!(counter.total_queries, 0);
    assert_eq!(counter.successful_queries, 0);
}
