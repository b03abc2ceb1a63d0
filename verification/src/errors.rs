//! Error taxonomy of the persistence layer.

use vstd::prelude::*;

verus! {

/// How the row store classifies one failed call.
///
/// `PoolExhausted` is the only transient kind: the fetch path retries it
/// with a bounded backoff. `RowNotFound` is terminal, and every other
/// transport failure is folded into `Other` and propagated unchanged.
#[derive(Clone, Copy, Debug, PartialEq, Eq, Structural)]
pub enum StoreErrorKind {
    RowNotFound,
    PoolExhausted,
    Other,
}

/// What a facade operation reports to its caller.
#[derive(Clone, Debug, PartialEq, Eq)]
pub enum AppError {
    /// The store holds no matching row; never retried.
    RecordNotFound(String),
    /// A transport-level failure that exhausted the retries or was not
    /// retryable by kind; carries the store's own classification.
    StoreUnavailable(StoreErrorKind),
    /// The stored bytes could not be parsed into a collab snapshot;
    /// never retried.
    DecodeFailed,
    /// A workspace identifier failed to parse during an upsert that
    /// included embeddings.
    InvalidIdentifier,
    /// A transport failure while writing the embeddings index.
    IndexWriteFailed,
}

impl AppError {
    /// A human-readable rendering, in place of a `Display` impl.
    pub fn describe(&self) -> (r: String)
        ensures
            self matches AppError::RecordNotFound(m) ==> r@ == m@,
    {
        match self {
            AppError::RecordNotFound(m) => m.clone(),
            AppError::StoreUnavailable(_) => String::from_str("store unavailable"),
            AppError::DecodeFailed => String::from_str("collab payload failed to decode"),
            AppError::InvalidIdentifier => String::from_str("workspace identifier failed to parse"),
            AppError::IndexWriteFailed => String::from_str("embeddings index write failed"),
        }
    }
}

} // verus!
