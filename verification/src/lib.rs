//! A query-statistics ledger: persisted records of two monotone `u64`
//! counters, created by `initialize` and advanced by `record_query`, behind
//! signer authorization and an explicit key-value store of records.

pub mod counter;
pub mod ledger;
