//! Data model of the persistence layer: write parameters, read requests,
//! per-item batch outcomes, and the metadata view of a stored row.

use vstd::prelude::*;

verus! {

/// The enumerated kind of a collab object.
#[derive(Clone, Copy, Debug, PartialEq, Eq, Structural)]
pub enum CollabType {
    Document,
    Database,
    WorkspaceDatabase,
    Folder,
    DatabaseRow,
    UserAwareness,
    Unknown,
}

/// Which framing a collab snapshot was encoded with.
#[derive(Clone, Copy, Debug, PartialEq, Eq, Structural)]
pub enum EncoderVersion {
    V1,
    V2,
}

/// A decoded collab snapshot: the structured form of the opaque blob the
/// row store keeps. The inner byte payloads are opaque to this layer.
#[derive(Clone, Debug, PartialEq, Eq)]
pub struct EncodedCollab {
    pub state_vector: Vec<u8>,
    pub doc_state: Vec<u8>,
    pub version: EncoderVersion,
}

/// The embeddings payload that may accompany an upsert: the token cost of
/// producing the embeddings and the index parameters, carried as an opaque
/// encoded payload (their structure is no concern of this layer).
#[derive(Clone, Debug, PartialEq, Eq)]
pub struct EmbeddingsPayload {
    pub tokens_consumed: u32,
    pub index_params: Vec<u8>,
}

/// Transient input to an upsert; consumed to produce one row write and,
/// when `embeddings` is present, one index write in the same unit of work.
#[derive(Clone, Debug)]
pub struct CollabWriteParams {
    pub object_id: String,
    pub collab_type: CollabType,
    pub encoded_collab_v1: Vec<u8>,
    pub embeddings: Option<EmbeddingsPayload>,
}

/// A read request: which object, and which kind it is expected to have.
#[derive(Clone, Debug)]
pub struct QueryCollab {
    pub object_id: String,
    pub collab_type: CollabType,
}

/// The outcome of one read within a batch: a payload or a typed failure
/// value, never a raised failure that would abort sibling lookups.
#[derive(Clone, Debug, PartialEq, Eq)]
pub enum QueryCollabResult {
    Success { encode_collab_v1: Vec<u8> },
    Failed { error: String },
}

/// Metadata-only view of a stored row (no blob). The metadata path does
/// not filter on deletion, so a soft-deleted row stays visible here.
#[derive(Clone, Debug)]
pub struct AFCollabRowMeta {
    pub object_id: String,
    pub workspace_id: String,
    pub created_at: i64,
    pub deleted_at: Option<i64>,
}

/// Mathematical view of `EmbeddingsPayload`.
pub ghost struct EmbeddingsView {
    pub tokens_consumed: u32,
    pub index_params: Seq<u8>,
}

impl View for EmbeddingsPayload {
    type V = EmbeddingsView;

    open spec fn view(&self) -> EmbeddingsView {
        EmbeddingsView { tokens_consumed: self.tokens_consumed, index_params: self.index_params@ }
    }
}

/// Mathematical view of `CollabWriteParams`.
pub ghost struct WriteParamsView {
    pub object_id: Seq<char>,
    pub collab_type: CollabType,
    pub blob: Seq<u8>,
    pub embeddings: Option<EmbeddingsView>,
}

impl View for CollabWriteParams {
    type V = WriteParamsView;

    open spec fn view(&self) -> WriteParamsView {
        WriteParamsView {
            object_id: self.object_id@,
            collab_type: self.collab_type,
            blob: self.encoded_collab_v1@,
            embeddings: match self.embeddings {
                Some(e) => Some(e@),
                None => None,
            },
        }
    }
}

/// Mathematical view of `QueryCollab`.
pub ghost struct QueryView {
    pub object_id: Seq<char>,
    pub collab_type: CollabType,
}

impl View for QueryCollab {
    type V = QueryView;

    open spec fn view(&self) -> QueryView {
        QueryView { object_id: self.object_id@, collab_type: self.collab_type }
    }
}

/// Mathematical view of `AFCollabRowMeta`.
pub ghost struct MetaView {
    pub object_id: Seq<char>,
    pub workspace_id: Seq<char>,
    pub created_at: int,
    pub deleted_at: Option<int>,
}

impl View for AFCollabRowMeta {
    type V = MetaView;

    open spec fn view(&self) -> MetaView {
        MetaView {
            object_id: self.object_id@,
            workspace_id: self.workspace_id@,
            created_at: self.created_at as int,
            deleted_at: match self.deleted_at {
                Some(t) => Some(t as int),
                None => None,
            },
        }
    }
}

} // verus!
