//! Durable persistence for collaborative-document snapshots.
//!
//! The crate keeps one row per object in a row store, ties a derived
//! embeddings index to the owning row through a caller-owned unit of work,
//! classifies store failures into terminal and transient kinds, and bounds
//! the retries of the single-object fetch path.

pub mod cache;
pub mod codec;
pub mod entity;
pub mod errors;
pub mod fetch;
pub mod ident;
pub mod laws;
pub mod retry;
pub mod storage;
pub mod store;
