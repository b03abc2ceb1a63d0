//! The single-object fetch path as an explicit state machine.
//!
//! One fetch walks through attempts and backoffs: `Attempting(a)` makes
//! attempt `a` (0-based), a transient failure moves to `Backoff` when
//! retries remain, and sleeping moves back to `Attempting`. The caller —
//! the facade here, or any outer driver — performs the store call and
//! the sleep, and feeds the outcome back in as an event; every decision
//! in between is this machine's, so it is proved once for both.

use crate::codec::{decode_collab, spec_decode};
use crate::entity::{EncodedCollab, QueryCollab};
use crate::errors::{AppError, StoreErrorKind};
use crate::retry::{
    retry_decision, spec_backoff_ms, spec_retry_decision, RetryDecision, MAX_FETCH_ATTEMPTS,
};
use vstd::prelude::*;
use vstd::string::StringExecFns;

verus! {

/// Where one fetch stands.
pub enum FetchState {
    /// Attempt number `attempt` (0-based) is due against the store.
    Attempting { attempt: u64 },
    /// Attempt `attempt - 1` failed transiently; attempt `attempt` is
    /// due after a sleep of `delay_ms`.
    Backoff { attempt: u64, delay_ms: u64 },
    /// The blob was fetched and decoded.
    Succeeded { collab: EncodedCollab },
    /// The fetch is over with an error.
    Failed { error: AppError },
}

/// What the driver observed for the machine to judge.
pub enum StoreFetchEvent {
    /// The store returned the object's blob.
    Fetched { blob: Vec<u8> },
    /// The store failed, with its classification.
    StoreFailed { kind: StoreErrorKind },
    /// The backoff sleep has elapsed.
    Slept,
}

/// The states the machine can actually be in: attempts stay under the
/// bound, and a backoff always carries the delay the policy chose.
pub open spec fn state_wf(s: FetchState) -> bool {
    match s {
        FetchState::Attempting { attempt } => attempt < MAX_FETCH_ATTEMPTS,
        FetchState::Backoff { attempt, delay_ms } => 1 <= attempt && attempt < MAX_FETCH_ATTEMPTS
            && delay_ms == spec_backoff_ms(attempt),
        FetchState::Succeeded { .. } => true,
        FetchState::Failed { .. } => true,
    }
}

/// Which events a state can take: an attempt takes a store outcome, a
/// backoff takes the end of its sleep, and a finished fetch takes none.
pub open spec fn event_fits(s: FetchState, e: StoreFetchEvent) -> bool {
    match s {
        FetchState::Attempting { .. } => !(e is Slept),
        FetchState::Backoff { .. } => e is Slept,
        FetchState::Succeeded { .. } => false,
        FetchState::Failed { .. } => false,
    }
}

/// The message a missing row reports for a query.
pub open spec fn query_not_found_message(oid: Seq<char>) -> Seq<char> {
    "Can't find the row for query: "@ + oid
}

/// Builds the missing-row message for a query.
pub fn make_query_not_found_message(object_id: &str) -> (m: String)
    ensures
        m@ == query_not_found_message(object_id@),
{
    let mut m = String::from_str("Can't find the row for query: ");
    m.append(object_id);
    m
}

/// Where a failed attempt `attempt` leads: not-found ends the fetch at
/// once, a transient failure backs off exactly when the retry policy
/// says so, and everything else surfaces as the store being unavailable.
pub open spec fn spec_failed_transition(
    attempt: u64,
    kind: StoreErrorKind,
    oid: Seq<char>,
    next: FetchState,
) -> bool {
    match kind {
        StoreErrorKind::RowNotFound => next matches FetchState::Failed { error } && (
        error matches AppError::RecordNotFound(m) && m@ == query_not_found_message(oid)),
        StoreErrorKind::PoolExhausted => if spec_retry_decision(
            kind,
            (attempt + 1) as u64,
            MAX_FETCH_ATTEMPTS,
        ) is Retry {
            next == (FetchState::Backoff {
                attempt: (attempt + 1) as u64,
                delay_ms: spec_backoff_ms((attempt + 1) as u64),
            })
        } else {
            next == (FetchState::Failed {
                error: AppError::StoreUnavailable(StoreErrorKind::PoolExhausted),
            })
        },
        StoreErrorKind::Other => next == (FetchState::Failed {
            error: AppError::StoreUnavailable(StoreErrorKind::Other),
        }),
    }
}

/// One step of the fetch machine: judges the event and moves. The
/// driver only performs what the state asks for; it decides nothing.
pub fn fetch_step(state: FetchState, event: StoreFetchEvent, query: &QueryCollab) -> (next:
    FetchState)
    requires
        state_wf(state),
        event_fits(state, event),
    ensures
        state_wf(next),
        state matches FetchState::Attempting { attempt } ==> {
            &&& (event matches StoreFetchEvent::Fetched { blob } ==> match spec_decode(blob@) {
                Some(parts) => next matches FetchState::Succeeded { collab }
                    && collab.state_vector@ == parts.0 && collab.doc_state@ == parts.1
                    && collab.version == parts.2,
                None => next == (FetchState::Failed { error: AppError::DecodeFailed }),
            })
            &&& (event matches StoreFetchEvent::StoreFailed { kind }
                ==> spec_failed_transition(attempt, kind, query@.object_id, next))
        },
        state matches FetchState::Backoff { attempt, delay_ms } ==> next
            == (FetchState::Attempting { attempt }),
{
    match state {
        FetchState::Attempting { attempt } => {
            match event {
                StoreFetchEvent::Fetched { blob } => {
                    match decode_collab(&blob) {
                        Some(collab) => FetchState::Succeeded { collab },
                        None => FetchState::Failed { error: AppError::DecodeFailed },
                    }
                },
                StoreFetchEvent::StoreFailed { kind } => {
                    match kind {
                        StoreErrorKind::RowNotFound => {
                            let m = make_query_not_found_message(query.object_id.as_str());
                            FetchState::Failed { error: AppError::RecordNotFound(m) }
                        },
                        StoreErrorKind::PoolExhausted => {
                            match retry_decision(kind, attempt + 1, MAX_FETCH_ATTEMPTS) {
                                RetryDecision::Retry { after_ms } => FetchState::Backoff {
                                    attempt: attempt + 1,
                                    delay_ms: after_ms,
                                },
                                RetryDecision::GiveUp => FetchState::Failed {
                                    error: AppError::StoreUnavailable(
                                        StoreErrorKind::PoolExhausted,
                                    ),
                                },
                            }
                        },
                        StoreErrorKind::Other => FetchState::Failed {
                            error: AppError::StoreUnavailable(StoreErrorKind::Other),
                        },
                    }
                },
                StoreFetchEvent::Slept => FetchState::Attempting { attempt },
            }
        },
        FetchState::Backoff { attempt, delay_ms: _ } => FetchState::Attempting { attempt },
        other => other,
    }
}

} // verus!
