//! The retry policy: a pure decision from an error kind and an attempt
//! count to "retry after a delay" or "give up".
//!
//! The fetch path makes at most `MAX_FETCH_ATTEMPTS` attempts in all.
//! Only a pool-exhausted failure is retried, and the backoff is linear:
//! `BACKOFF_UNIT_MS * attempt_number`, where the first retry is attempt
//! number 1 (so the delays are 500 ms, then 1000 ms).

use crate::errors::StoreErrorKind;
use vstd::prelude::*;

verus! {

/// The bound on attempts of the single-object fetch path: one first try
/// and at most two retries.
pub const MAX_FETCH_ATTEMPTS: u64 = 3;

/// The unit of the linear backoff, in milliseconds.
pub const BACKOFF_UNIT_MS: u64 = 500;

/// What the policy decides for one failed attempt.
#[derive(Clone, Copy, Debug, PartialEq, Eq, Structural)]
pub enum RetryDecision {
    Retry { after_ms: u64 },
    GiveUp,
}

/// The linear backoff delay before retry number `attempt_number`,
/// saturating at the machine bound.
pub open spec fn spec_backoff_ms(attempt_number: u64) -> u64 {
    if BACKOFF_UNIT_MS * attempt_number <= u64::MAX {
        (BACKOFF_UNIT_MS * attempt_number) as u64
    } else {
        u64::MAX
    }
}

/// The retry policy itself: retry exactly when the failure is transient
/// (pool exhausted) and retries remain.
pub open spec fn spec_retry_decision(
    kind: StoreErrorKind,
    attempt_number: u64,
    max_attempts: u64,
) -> RetryDecision {
    if kind is PoolExhausted && attempt_number < max_attempts {
        RetryDecision::Retry { after_ms: spec_backoff_ms(attempt_number) }
    } else {
        RetryDecision::GiveUp
    }
}

/// Decides whether the failure of retry number `attempt_number` (1-based:
/// 1 is the first retry after the initial attempt) is worth another try,
/// and how long to wait before it. Every kind but `PoolExhausted`,
/// including not-found, gives up on the first occurrence.
pub fn retry_decision(kind: StoreErrorKind, attempt_number: u64, max_attempts: u64) -> (r:
    RetryDecision)
    ensures
        r == spec_retry_decision(kind, attempt_number, max_attempts),
{
    match kind {
        StoreErrorKind::PoolExhausted => {
            if attempt_number < max_attempts {
                let after_ms: u64 = if attempt_number <= u64::MAX / BACKOFF_UNIT_MS {
                    BACKOFF_UNIT_MS * attempt_number
                } else {
                    u64::MAX
                };
                RetryDecision::Retry { after_ms }
            } else {
                RetryDecision::GiveUp
            }
        },
        _ => RetryDecision::GiveUp,
    }
}

} // verus!
