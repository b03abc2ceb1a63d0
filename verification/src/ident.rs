//! Workspace identifiers.
//!
//! A workspace is named externally by a textual UUID. An upsert that
//! carries embeddings must parse that text before it issues any write;
//! the parsed form is the 16 raw bytes of the identifier.

use vstd::prelude::*;

verus! {

/// A parsed workspace identifier: the 16 raw bytes of a UUID.
#[derive(Clone, Debug, PartialEq, Eq)]
pub struct WorkspaceId {
    pub bytes: Vec<u8>,
}

impl WorkspaceId {
    /// A well-formed identifier holds exactly the 16 bytes of a UUID.
    pub open spec fn wf(&self) -> bool {
        self.bytes@.len() == 16
    }
}

/// What `uuid::Uuid::parse_str` makes of a given string: the 16 bytes of
/// the identifier it denotes, or nothing when the text is malformed. The
/// result depends on the characters alone.
pub uninterp spec fn parsed_uuid(s: Seq<char>) -> Option<Seq<u8>>;

/// Relies on uuid::Uuid::parse_str: it accepts the textual UUID forms,
/// returns the identifier's 16 raw bytes, and rejects everything else.
#[verifier::external_body]
pub(crate) fn parse_workspace_id(s: &str) -> (r: Option<WorkspaceId>)
    ensures
        match r {
            Some(w) => parsed_uuid(s@) == Some(w.bytes@) && w.bytes@.len() == 16,
            None => parsed_uuid(s@) is None,
        },
{
    match uuid::Uuid::parse_str(s) {
        Ok(u) => Some(WorkspaceId { bytes: u.into_bytes().to_vec() }),
        Err(_) => None,
    }
}

} // verus!
