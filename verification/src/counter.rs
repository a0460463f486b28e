//! The counter record itself and the effect of one recorded query on it.

use vstd::prelude::*;

verus! {

/// Why an operation on the ledger can fail. Every failure is terminal for the
/// triggering call: the caller sees the error and no state has changed.
#[derive(Clone, Copy, Debug, PartialEq, Eq, Structural)]
pub enum LedgerError {
    /// `initialize` was called on a record handle that already holds data.
    AlreadyInitialized,
    /// `record_query` was called on a record handle with no existing data.
    NotFound,
    /// The call lacks a valid authorizing signature.
    Unauthorized,
    /// An increment would exceed the representable range of a counter.
    Overflow,
}

/// A persisted record: how many queries were recorded against it, and how
/// many of those the caller reported as successful.
#[derive(Clone, Copy, Debug, PartialEq, Eq, Structural)]
pub struct QueryCounter {
    /// Counts every recorded query, whatever outcome the caller reported.
    pub total_queries: u64,
    /// Counts only the queries whose caller reported success.
    pub successful_queries: u64,
}

impl QueryCounter {
    /// The record's invariant: successes never outnumber all queries.
    pub open spec fn wf(self) -> bool {
        self.successful_queries <= self.total_queries
    }

    /// A fresh record, as `initialize` creates it.
    pub fn new() -> (c: QueryCounter)
        ensures
            c.total_queries == 0,
            c.successful_queries == 0,
            c.wf(),
    {
        QueryCounter { total_queries: 0, successful_queries: 0 }
    }

    /// Whether recording one more query would overflow a counter.
    pub open spec fn increment_overflows(self, success: bool) -> bool {
        self.total_queries == u64::MAX || (success && self.successful_queries == u64::MAX)
    }

    /// The record after one recorded query: the total always advances by one,
    /// the success count only when the caller reported success.
    pub open spec fn incremented(self, success: bool) -> QueryCounter {
        QueryCounter {
            total_queries: (self.total_queries + 1) as u64,
            successful_queries: if success {
                (self.successful_queries + 1) as u64
            } else {
                self.successful_queries
            },
        }
    }

    /// Records one query against this record. Fails with `Overflow` exactly
    /// when an increment would wrap; on failure the record is left untouched
    /// (the caller keeps `self` as it was).
    pub fn apply_query(&self, success: bool) -> (r: Result<QueryCounter, LedgerError>)
        ensures
            match r {
                Ok(c) => !self.increment_overflows(success) && c == self.incremented(success),
                Err(e) => e == LedgerError::Overflow && self.increment_overflows(success),
            },
            (self.wf() && r is Ok) ==> r->Ok_0.wf(),
    {
        if self.total_queries == u64::MAX || (success && self.successful_queries == u64::MAX) {
            Err(LedgerError::Overflow)
        } else {
            Ok(QueryCounter {
                total_queries: self.total_queries + 1,
                successful_queries: if success {
                    self.successful_queries + 1
                } else {
                    self.successful_queries
                },
            })
        }
    }
}

/// How many entries of a sequence of reported outcomes are successes.
pub open spec fn count_successes(s: Seq<bool>) -> nat
    decreases s.len(),
{
    if s.len() == 0 {
        0
    } else {
        count_successes(s.drop_last()) + if s.last() {
            1nat
        } else {
            0nat
        }
    }
}

/// The record after replaying a sequence of recorded queries, oldest first.
pub open spec fn replay(c: QueryCounter, s: Seq<bool>) -> QueryCounter
    decreases s.len(),
{
    if s.len() == 0 {
        c
    } else {
        replay(c, s.drop_last()).incremented(s.last())
    }
}

/// Law: starting from a fresh record, after a sequence of n recorded queries
/// of which k reported success, `total_queries == n` and
/// `successful_queries == k`; in particular `successful_queries <=
/// total_queries`, and instantiating the law at every prefix of the sequence
/// shows the invariant holds after each call, not only at the end. The length
/// bound holds of every sequence of calls that all succeeded, since a call
/// that would push the total past `u64::MAX` fails instead.
pub proof fn lemma_replay_counts(s: Seq<bool>)
    requires
        s.len() <= u64::MAX,
    ensures
        replay(QueryCounter { total_queries: 0, successful_queries: 0 }, s).total_queries
            == s.len(),
        replay(QueryCounter { total_queries: 0, successful_queries: 0 }, s).successful_queries
            == count_successes(s),
        count_successes(s) <= s.len(),
    decreases s.len(),
{
    if s.len() > 0 {
        lemma_replay_counts(s.drop_last());
    }
}

} // verus!
