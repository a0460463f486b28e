//! Persistent storage of counter records, keyed by record handle, and the two
//! externally invocable operations on it.

use vstd::prelude::*;
use std::collections::HashMap;
use crate::counter::LedgerError;
use crate::counter::QueryCounter;

verus! {

broadcast use vstd::std_specs::hash::group_hash_axioms;

/// The authorizing user attached to a call: an identity, and whether the host
/// verified a signature of that identity over the call.
#[derive(Clone, Copy, Debug, PartialEq, Eq, Structural)]
pub struct Signer {
    /// The caller's durable identity.
    pub key: u64,
    /// Whether the call carries a valid signature by `key`.
    pub signed: bool,
}

/// The accounts an `initialize` call names: a fresh record handle and the
/// user who authorizes the call and pays for the record's storage.
#[derive(Clone, Copy, Debug, PartialEq, Eq, Structural)]
pub struct Initialize {
    /// The handle the new record is to live under.
    pub counter: u64,
    /// The authorizing user; also the storage payer at creation time.
    pub user: Signer,
}

/// The accounts a `record_query` call names: an existing record handle and
/// the authorizing user. Any authorized signer may increment any existing
/// counter; the design does not restrict which user may call this.
#[derive(Clone, Copy, Debug, PartialEq, Eq, Structural)]
pub struct RecordQuery {
    /// The handle of the record to advance.
    pub counter: u64,
    /// The authorizing user.
    pub user: Signer,
}

/// The store of all counter records, keyed by record handle. Each operation
/// applies atomically: either every intended field update applies, or none.
pub struct Ledger {
    records: HashMap<u64, QueryCounter>,
}

impl View for Ledger {
    type V = Map<u64, QueryCounter>;

    closed spec fn view(&self) -> Map<u64, QueryCounter> {
        self.records@
    }
}

impl Ledger {
    /// The store's invariant: every persisted record is well formed.
    pub open spec fn wf(&self) -> bool {
        forall|h: u64| self@.contains_key(h) ==> (#[trigger] self@[h]).wf()
    }

    /// An empty store, holding no records.
    pub fn new() -> (l: Ledger)
        ensures
            l@ == Map::<u64, QueryCounter>::empty(),
            l.wf(),
    {
        Ledger { records: HashMap::new() }
    }

    /// Reads the record under a handle, if one exists.
    pub fn read(&self, handle: u64) -> (r: Option<QueryCounter>)
        ensures
            match r {
                Some(c) => self@.contains_key(handle) && c == self@[handle],
                None => !self@.contains_key(handle),
            },
    {
        match self.records.get(&handle) {
            Some(c) => Some(*c),
            None => None,
        }
    }

    /// Creates a new record with both counters zero under a fresh handle.
    /// First write wins: a handle that already holds data is refused with
    /// `AlreadyInitialized`, and an unsigned call with `Unauthorized`; on any
    /// failure the store is unchanged.
    pub fn initialize(&mut self, ctx: &Initialize) -> (r: Result<(), LedgerError>)
        ensures
            match r {
                Ok(()) => ctx.user.signed && !old(self)@.contains_key(ctx.counter) && final(self)@
                    == old(self)@.insert(
                    ctx.counter,
                    QueryCounter { total_queries: 0, successful_queries: 0 },
                ),
                Err(e) => final(self)@ == old(self)@ && ((e == LedgerError::Unauthorized
                    && !ctx.user.signed) || (e == LedgerError::AlreadyInitialized
                    && ctx.user.signed && old(self)@.contains_key(ctx.counter))),
            },
            old(self).wf() ==> final(self).wf(),
    {
        if !ctx.user.signed {
            return Err(LedgerError::Unauthorized);
        }
        if self.records.contains_key(&ctx.counter) {
            return Err(LedgerError::AlreadyInitialized);
        }
        let c = QueryCounter::new();
        self.records.insert(ctx.counter, c);
        proof {
            if old(self).wf() {
                assert forall|h: u64| self@.contains_key(h) implies (#[trigger] self@[h]).wf() by {
                    if h != ctx.counter {
                        assert(old(self)@.contains_key(h));
                    }
                }
            }
        }
        Ok(())
    }

    /// Loads the record under an existing handle, increments `total_queries`,
    /// increments `successful_queries` too when the caller reported success,
    /// and persists the result. An unsigned call fails with `Unauthorized`, a
    /// handle with no data with `NotFound`, and an increment that would wrap
    /// with `Overflow`; on any failure the store is unchanged.
    pub fn record_query(&mut self, ctx: &RecordQuery, success: bool) -> (r: Result<
        (),
        LedgerError,
    >)
        ensures
            match r {
                Ok(()) => ctx.user.signed && old(self)@.contains_key(ctx.counter) && !old(
                    self,
                )@[ctx.counter].increment_overflows(success) && final(self)@ == old(self)@.insert(
                    ctx.counter,
                    old(self)@[ctx.counter].incremented(success),
                ),
                Err(e) => final(self)@ == old(self)@ && ((e == LedgerError::Unauthorized
                    && !ctx.user.signed) || (e == LedgerError::NotFound && ctx.user.signed && !old(
                    self,
                )@.contains_key(ctx.counter)) || (e == LedgerError::Overflow && ctx.user.signed
                    && old(self)@.contains_key(ctx.counter) && old(self)@[
                    ctx.counter
                ].increment_overflows(success))),
            },
            old(self).wf() ==> final(self).wf(),
    {
        if !ctx.user.signed {
            return Err(LedgerError::Unauthorized);
        }
        let cur = match self.records.get(&ctx.counter) {
            Some(c) => *c,
            None => {
                return Err(LedgerError::NotFound);
            },
        };
        let next = match cur.apply_query(success) {
            Ok(c) => c,
            Err(e) => {
                return Err(e);
            },
        };
        self.records.insert(ctx.counter, next);
        proof {
            if old(self).wf() {
                assert forall|h: u64| self@.contains_key(h) implies (#[trigger] self@[h]).wf() by {
                    if h == ctx.counter {
                        assert(old(self)@[ctx.counter].wf());
                    } else {
                        assert(old(self)@.contains_key(h));
                    }
                }
            }
        }
        Ok(())
    }
}

/// Law: a successful `initialize` is immediately readable, and what is read
/// is a record with both counters zero. Stated over the store's view: after
/// the insert that `initialize` performs, the handle maps to the fresh
/// record, which is what `read` then returns.
pub proof fn lemma_initialize_then_read(m: Map<u64, QueryCounter>, h: u64)
    ensures
        m.insert(h, QueryCounter { total_queries: 0, successful_queries: 0 }).contains_key(h),
        m.insert(h, QueryCounter { total_queries: 0, successful_queries: 0 })[h].total_queries
            == 0,
        m.insert(
            h,
            QueryCounter { total_queries: 0, successful_queries: 0 },
        )[h].successful_queries == 0,
{
}

} // verus!
