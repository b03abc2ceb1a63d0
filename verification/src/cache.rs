//! The persistence facade: existence checks, metadata fetch, the
//! transactional upsert of a blob together with its embeddings index
//! entry, the bounded-retry single-object fetch, the non-failing batch
//! fetch, and soft deletion.

use crate::codec::spec_decode;
use crate::entity::{
    AFCollabRowMeta, CollabType, CollabWriteParams, EncodedCollab, QueryCollab, QueryCollabResult,
};
use crate::errors::{AppError, StoreErrorKind};
use crate::fetch::{event_fits, fetch_step, query_not_found_message, state_wf, FetchState, StoreFetchEvent};
use crate::ident::{parse_workspace_id, parsed_uuid};
use crate::retry::spec_backoff_ms;
use crate::store::{
    lookup_row, row_is_live, spec_blob_lookup, spec_blob_write, spec_meta_of, write_index,
    write_row, CollabStore, IndexView, UnitOfWork,
};
use vstd::prelude::*;
use vstd::string::StringExecFns;

verus! {

/// How many leading faults of the queue are of the transient,
/// pool-exhausted kind.
pub open spec fn pool_prefix(faults: Seq<StoreErrorKind>) -> int
    decreases faults.len(),
{
    if faults.len() == 0 || !(faults[0] is PoolExhausted) {
        0
    } else {
        1 + pool_prefix(faults.drop_first())
    }
}

/// The backoff delays of the first `k` retries, in order: 500 ms, then
/// 1000 ms, and so on linearly.
pub open spec fn backoff_seq(k: int) -> Seq<u64> {
    Seq::new(k as nat, |i: int| spec_backoff_ms((i + 1) as u64))
}

/// The pool prefix is a length: between zero and the queue's length.
pub proof fn lemma_pool_prefix_bounds(faults: Seq<StoreErrorKind>)
    ensures
        0 <= pool_prefix(faults) <= faults.len(),
    decreases faults.len(),
{
    if faults.len() > 0 && faults[0] is PoolExhausted {
        lemma_pool_prefix_bounds(faults.drop_first());
    }
}

/// When every fault before position `m` is pool exhaustion and position
/// `m` (if any) is not, the pool prefix is exactly `m`.
pub proof fn lemma_pool_prefix_stop(faults: Seq<StoreErrorKind>, m: int)
    requires
        0 <= m <= faults.len(),
        forall|j: int| 0 <= j < m ==> (#[trigger] faults[j]) is PoolExhausted,
        m == faults.len() || !(faults[m] is PoolExhausted),
    ensures
        pool_prefix(faults) == m,
    decreases m,
{
    if m == 0 {
    } else {
        let rest = faults.drop_first();
        assert(faults[0] is PoolExhausted);
        assert forall|j: int| 0 <= j < m - 1 implies (#[trigger] rest[j]) is PoolExhausted by {
            assert(rest[j] == faults[j + 1]);
        }
        if m < faults.len() {
            assert(rest[m - 1] == faults[m]);
        }
        lemma_pool_prefix_stop(rest, m - 1);
    }
}

/// When the first `m` faults are pool exhaustion, the pool prefix is at
/// least `m`.
pub proof fn lemma_pool_prefix_ge(faults: Seq<StoreErrorKind>, m: int)
    requires
        0 <= m <= faults.len(),
        forall|j: int| 0 <= j < m ==> (#[trigger] faults[j]) is PoolExhausted,
    ensures
        pool_prefix(faults) >= m,
    decreases m,
{
    if m == 0 {
        lemma_pool_prefix_bounds(faults);
    } else {
        let rest = faults.drop_first();
        assert(faults[0] is PoolExhausted);
        assert forall|j: int| 0 <= j < m - 1 implies (#[trigger] rest[j]) is PoolExhausted by {
            assert(rest[j] == faults[j + 1]);
        }
        lemma_pool_prefix_ge(rest, m - 1);
    }
}

/// How many queued faults one fetch consumes: one per attempt, and a
/// fetch makes a fourth attempt never.
pub open spec fn spec_fetch_consumed(faults: Seq<StoreErrorKind>) -> int {
    let k = pool_prefix(faults);
    if k >= 3 {
        3
    } else if k < faults.len() {
        k + 1
    } else {
        k
    }
}

/// The backoff sleeps one fetch performs: one per retry, at most two.
pub open spec fn spec_fetch_backoffs(faults: Seq<StoreErrorKind>) -> Seq<u64> {
    let k = pool_prefix(faults);
    if k >= 2 {
        backoff_seq(2)
    } else {
        backoff_seq(k)
    }
}

/// What one fetch returns, given the queued faults and the table:
/// three transient failures exhaust the retries; a terminal fault ends
/// the fetch at once; and a fetch that reaches the table returns the
/// decoded blob of a live row of the queried kind, a decode failure for
/// a malformed blob, or reports the row missing.
pub open spec fn spec_fetch_result(
    rows: Seq<crate::store::RowView>,
    faults: Seq<StoreErrorKind>,
    q: crate::entity::QueryView,
    r: Result<EncodedCollab, AppError>,
) -> bool {
    let k = pool_prefix(faults);
    if k >= 3 {
        r matches Err(e) && e == AppError::StoreUnavailable(StoreErrorKind::PoolExhausted)
    } else if k == faults.len() {
        match spec_blob_lookup(rows, q) {
            Some(b) => match spec_decode(b) {
                Some(parts) => r matches Ok(ec) && ec.state_vector@ == parts.0 && ec.doc_state@
                    == parts.1 && ec.version == parts.2,
                None => r matches Err(e) && e is DecodeFailed,
            },
            None => r matches Err(e) && (e matches AppError::RecordNotFound(m) && m@
                == query_not_found_message(q.object_id)),
        }
    } else {
        match faults[k] {
            StoreErrorKind::RowNotFound => r matches Err(e) && (
            e matches AppError::RecordNotFound(m) && m@ == query_not_found_message(q.object_id)),
            // The fault after the pool prefix is never pool exhaustion.
            StoreErrorKind::PoolExhausted => true,
            StoreErrorKind::Other => r matches Err(e) && e == AppError::StoreUnavailable(
                StoreErrorKind::Other,
            ),
        }
    }
}

/// The message a missing row reports for a metadata lookup.
pub open spec fn object_not_found_message(oid: Seq<char>) -> Seq<char> {
    "Can't find the row for object_id: "@ + oid
}

/// The persistence facade over the row store. Reads go straight to the
/// store — only the single-object fetch retries, with the delays it
/// would sleep recorded in `backoff_log`. Writes go into a caller-owned
/// unit of work; committing or rolling it back is the caller's business
/// alone.
pub struct CollabDiskCache {
    pub store: CollabStore,
    pub backoff_log: Vec<u64>,
}

impl CollabDiskCache {
    /// Wraps a row store.
    pub fn new(store: CollabStore) -> (c: Self)
        ensures
            c.store@ == store@,
            c.backoff_log@ == Seq::<u64>::empty(),
    {
        let c = CollabDiskCache { store, backoff_log: Vec::new() };
        proof {
            assert(c.backoff_log@ =~= Seq::<u64>::empty());
        }
        c
    }

    /// True exactly when a non-deleted row exists for the object; no
    /// retry.
    pub fn is_exist(&self, object_id: &str) -> (r: Result<bool, AppError>)
        ensures
            r matches Ok(b) && b == row_is_live(self.store@.rows, object_id@),
    {
        Ok(self.store.is_collab_exists(object_id))
    }

    /// The metadata of the object's row when its kind matches, and a
    /// `RecordNotFound` with the object's name otherwise. This path does
    /// not filter on deletion.
    pub fn get_collab_meta(&self, object_id: &str, collab_type: &CollabType) -> (r: Result<
        AFCollabRowMeta,
        AppError,
    >)
        ensures
            match lookup_row(self.store@.rows, object_id@) {
                Some(row) => if row.collab_type == *collab_type {
                    r matches Ok(m) && m@ == spec_meta_of(row)
                } else {
                    r matches Err(e) && (e matches AppError::RecordNotFound(m) && m@
                        == object_not_found_message(object_id@))
                },
                None => r matches Err(e) && (e matches AppError::RecordNotFound(m) && m@
                    == object_not_found_message(object_id@)),
            },
    {
        match self.store.get_meta(object_id, collab_type) {
            Some(meta) => Ok(meta),
            None => {
                let mut m = String::from_str("Can't find the row for object_id: ");
                m.append(object_id);
                Err(AppError::RecordNotFound(m))
            },
        }
    }

    /// Buffers the row write for `params` in the caller's unit of work
    /// and, when an embeddings payload is present, the index write too —
    /// in that order, in the same unit, so the caller's commit persists
    /// both or its rollback discards both. The workspace identifier is
    /// parsed before any write is issued: a malformed identifier fails
    /// with `InvalidIdentifier` and leaves the unit untouched.
    pub fn upsert_collab_with_transaction(
        &self,
        workspace_id: &str,
        uid: &i64,
        params: &CollabWriteParams,
        tx: &mut UnitOfWork,
    ) -> (r: Result<(), AppError>)
        ensures
            match params@.embeddings {
                None => {
                    &&& r is Ok
                    &&& final(tx)@.row_writes == old(tx)@.row_writes.push(
                        spec_blob_write(*uid as int, workspace_id@, params@),
                    )
                    &&& final(tx)@.index_writes == old(tx)@.index_writes
                },
                Some(em) => match parsed_uuid(workspace_id@) {
                    None => {
                        &&& r matches Err(e) && e is InvalidIdentifier
                        &&& final(tx)@.row_writes == old(tx)@.row_writes
                        &&& final(tx)@.index_writes == old(tx)@.index_writes
                    },
                    Some(wsb) => {
                        &&& r is Ok
                        &&& final(tx)@.row_writes == old(tx)@.row_writes.push(
                            spec_blob_write(*uid as int, workspace_id@, params@),
                        )
                        &&& final(tx)@.index_writes == old(tx)@.index_writes.push(
                            (IndexView {
                                object_id: params@.object_id,
                                workspace_id: wsb,
                                tokens_consumed: em.tokens_consumed,
                                index_params: em.index_params,
                            }),
                        )
                    },
                },
            },
    {
        match &params.embeddings {
            Some(em) => {
                match parse_workspace_id(workspace_id) {
                    None => Err(AppError::InvalidIdentifier),
                    Some(ws) => {
                        write_row(tx, *uid, workspace_id, params);
                        match write_index(
                            tx,
                            &ws,
                            params.object_id.as_str(),
                            em.tokens_consumed,
                            &em.index_params,
                        ) {
                            Ok(_) => Ok(()),
                            Err(e) => Err(e),
                        }
                    },
                }
            },
            None => {
                write_row(tx, *uid, workspace_id, params);
                Ok(())
            },
        }
    }

    /// Fetches one object's decoded snapshot from the store, retrying
    /// only pool exhaustion, at most twice, with linear backoff — the
    /// delays land in `backoff_log`, in order. A missing row and a
    /// malformed blob end the fetch at once; any other store failure
    /// surfaces as the store being unavailable.
    pub fn get_collab_encoded_from_disk(&mut self, query: QueryCollab) -> (r: Result<
        EncodedCollab,
        AppError,
    >)
        ensures
            final(self).store@.rows == old(self).store@.rows,
            final(self).store@.index == old(self).store@.index,
            final(self).store@.faults == old(self).store@.faults.skip(
                spec_fetch_consumed(old(self).store@.faults),
            ),
            final(self).backoff_log@ == old(self).backoff_log@ + spec_fetch_backoffs(
                old(self).store@.faults,
            ),
            spec_fetch_result(old(self).store@.rows, old(self).store@.faults, query@, r),
    {
        let ghost rows0 = old(self).store@.rows;
        let ghost faults0 = old(self).store@.faults;
        let ghost log0 = old(self).backoff_log@;
        let ghost k = pool_prefix(faults0);
        let mut state = FetchState::Attempting { attempt: 0 };
        proof {
            assert(faults0.skip(0) =~= faults0);
            assert(backoff_seq(0) =~= Seq::<u64>::empty());
            assert(log0 + backoff_seq(0) =~= log0);
        }
        loop
            invariant
                state_wf(state),
                rows0 == old(self).store@.rows,
                faults0 == old(self).store@.faults,
                log0 == old(self).backoff_log@,
                self.store@.rows == rows0,
                self.store@.index == old(self).store@.index,
                k == pool_prefix(faults0),
                state matches FetchState::Attempting { attempt } ==> {
                    &&& attempt <= faults0.len()
                    &&& attempt <= 2
                    &&& (forall|j: int|
                        0 <= j < attempt ==> (#[trigger] faults0[j]) is PoolExhausted)
                    &&& self.store@.faults == faults0.skip(attempt as int)
                    &&& self.backoff_log@ == log0 + backoff_seq(attempt as int)
                },
                state matches FetchState::Backoff { attempt, delay_ms } ==> {
                    &&& 1 <= attempt <= faults0.len()
                    &&& attempt <= 2
                    &&& (forall|j: int|
                        0 <= j < attempt ==> (#[trigger] faults0[j]) is PoolExhausted)
                    &&& self.store@.faults == faults0.skip(attempt as int)
                    &&& self.backoff_log@ == log0 + backoff_seq(attempt as int - 1)
                },
                !(state is Succeeded),
                !(state is Failed),
            decreases fetch_attempt_of(state), fetch_phase_of(state),
        {
            match state {
                FetchState::Attempting { attempt } => {
                    let ghost a = attempt as int;
                    let outcome = self.store.get_blob_once(&query);
                    proof {
                        if a < faults0.len() {
                            assert(faults0.skip(a).drop_first() =~= faults0.skip(a + 1));
                            assert(faults0.skip(a)[0] == faults0[a]);
                        }
                    }
                    let event = match outcome {
                        Ok(blob) => StoreFetchEvent::Fetched { blob },
                        Err(kind) => StoreFetchEvent::StoreFailed { kind },
                    };
                    let next = fetch_step(
                        FetchState::Attempting { attempt },
                        event,
                        &query,
                    );
                    match next {
                        FetchState::Succeeded { collab } => {
                            proof {
                                lemma_pool_prefix_stop(faults0, a);
                            }
                            return Ok(collab);
                        },
                        FetchState::Failed { error } => {
                            proof {
                                if a < faults0.len() && faults0[a] is PoolExhausted {
                                    lemma_pool_prefix_ge(faults0, a + 1);
                                } else {
                                    lemma_pool_prefix_stop(faults0, a);
                                }
                            }
                            return Err(error);
                        },
                        FetchState::Backoff { attempt: b, delay_ms } => {
                            proof {
                                assert(faults0[a] is PoolExhausted);
                                lemma_pool_prefix_ge(faults0, a + 1);
                            }
                            state = FetchState::Backoff { attempt: b, delay_ms };
                        },
                        FetchState::Attempting { attempt: b } => {
                            // An attempt never follows an attempt directly:
                            // the machine's contract rules this arm out.
                            proof {
                                assert(false);
                            }
                            state = FetchState::Attempting { attempt: b };
                        },
                    }
                },
                FetchState::Backoff { attempt, delay_ms } => {
                    self.backoff_log.push(delay_ms);
                    proof {
                        assert(self.backoff_log@ =~= log0 + backoff_seq(attempt as int));
                    }
                    state = fetch_step(
                        FetchState::Backoff { attempt, delay_ms },
                        StoreFetchEvent::Slept,
                        &query,
                    );
                },
                FetchState::Succeeded { collab } => {
                    return Ok(collab);
                },
                FetchState::Failed { error } => {
                    return Err(error);
                },
            }
        }
    }

    /// Looks up every query of the batch against the store, one entry
    /// per query in order; a missing key yields a failure value for that
    /// key alone and never fails the batch. No retry is applied here:
    /// batch callers re-request individually failed keys if they wish.
    pub fn batch_get_collab(&self, queries: &Vec<QueryCollab>) -> (r: Vec<
        (String, QueryCollabResult),
    >)
        ensures
            r@.len() == queries@.len(),
            forall|i: int|
                0 <= i < r@.len() ==> {
                    &&& (#[trigger] r@[i]).0@ == queries@[i]@.object_id
                    &&& match spec_blob_lookup(self.store@.rows, queries@[i]@) {
                        Some(b) => r@[i].1 matches QueryCollabResult::Success {
                            encode_collab_v1,
                        } && encode_collab_v1@ == b,
                        None => r@[i].1 matches QueryCollabResult::Failed { error } && error@
                            == "row not found"@,
                    }
                },
    {
        self.store.batch_get_blob(queries)
    }

    /// Marks the object's row deleted as of the current time, keeping
    /// the row and its timestamp queryable through the metadata path.
    /// Deleting a missing row is not an error.
    pub fn delete_collab(&mut self, object_id: &str) -> (r: Result<(), AppError>)
        requires
            old(self).store.wf(),
        ensures
            final(self).store.wf(),
            r is Ok,
            final(self).backoff_log@ == old(self).backoff_log@,
            final(self).store@.index == old(self).store@.index,
            final(self).store@.faults == old(self).store@.faults,
            forall|oid: Seq<char>|
                oid != object_id@ ==> #[trigger] lookup_row(final(self).store@.rows, oid)
                    == lookup_row(old(self).store@.rows, oid),
            match lookup_row(old(self).store@.rows, object_id@) {
                Some(row) => exists|t: int|
                    lookup_row(final(self).store@.rows, object_id@) == Some(
                        crate::store::spec_deleted_row(row, t),
                    ),
                None => final(self).store@.rows == old(self).store@.rows,
            },
    {
        let now = current_timestamp_millis();
        self.store.soft_delete(object_id, now);
        Ok(())
    }
}

/// Relies on chrono::Utc::now: the wall-clock time as milliseconds since
/// the Unix epoch. The value depends on the clock, so nothing is
/// promised of it; the store's own soft delete says what any timestamp
/// does to the row.
#[verifier::external_body]
fn current_timestamp_millis() -> i64 {
    chrono::Utc::now().timestamp_millis()
}

/// The attempt budget a state still has; a loop measure.
pub open spec fn fetch_attempt_of(s: FetchState) -> int {
    match s {
        FetchState::Attempting { attempt } => 3 - attempt,
        FetchState::Backoff { attempt, .. } => 3 - attempt,
        FetchState::Succeeded { .. } => 0,
        FetchState::Failed { .. } => 0,
    }
}

/// Whether a state is a backoff; the tie-breaking loop measure.
pub open spec fn fetch_phase_of(s: FetchState) -> int {
    match s {
        FetchState::Backoff { .. } => 1,
        _ => 0,
    }
}

} // verus!
