//! The row store: the durable table of collab rows, the derived
//! embeddings index, and the caller-owned unit of work that buffers
//! writes until the caller commits them.
//!
//! The table holds at most one row per `object_id`; a soft delete only
//! sets the row's deletion timestamp and never removes the row. The
//! embeddings index is kept as a write log whose newest entry for an
//! object is the one in force, so a later write replaces an earlier one.
//! A queue of injectable transport faults stands for the failures a
//! shared connection pool can produce; the single-object blob lookup
//! consumes it, one fault per attempt, before it touches the table.

use crate::entity::{
    AFCollabRowMeta, CollabType, CollabWriteParams, MetaView, QueryCollab, QueryCollabResult,
    QueryView,
};
use crate::errors::{AppError, StoreErrorKind};
use crate::ident::WorkspaceId;
use vstd::prelude::*;
use vstd::slice::slice_to_vec;
use vstd::string::StringExecFns;

verus! {

/// One durable record of the table: the blob of a collab object and its
/// bookkeeping columns.
#[derive(Clone, Debug)]
pub struct CollabRow {
    pub object_id: String,
    pub collab_type: CollabType,
    pub blob: Vec<u8>,
    pub workspace_id: String,
    pub uid: i64,
    pub created_at: i64,
    pub deleted_at: Option<i64>,
}

/// Mathematical view of `CollabRow`.
pub ghost struct RowView {
    pub object_id: Seq<char>,
    pub collab_type: CollabType,
    pub blob: Seq<u8>,
    pub workspace_id: Seq<char>,
    pub uid: int,
    pub created_at: int,
    pub deleted_at: Option<int>,
}

impl View for CollabRow {
    type V = RowView;

    open spec fn view(&self) -> RowView {
        RowView {
            object_id: self.object_id@,
            collab_type: self.collab_type,
            blob: self.blob@,
            workspace_id: self.workspace_id@,
            uid: self.uid as int,
            created_at: self.created_at as int,
            deleted_at: match self.deleted_at {
                Some(t) => Some(t as int),
                None => None,
            },
        }
    }
}

/// The row the table holds for an object: the first row whose key
/// matches, or nothing. The table never holds two rows with one key
/// (`rows_unique`), so "first" is simply "the" row.
pub open spec fn lookup_row(rows: Seq<RowView>, oid: Seq<char>) -> Option<RowView>
    decreases rows.len(),
{
    if rows.len() == 0 {
        None
    } else if rows[0].object_id == oid {
        Some(rows[0])
    } else {
        lookup_row(rows.drop_first(), oid)
    }
}

/// A non-deleted row exists for the object.
pub open spec fn row_is_live(rows: Seq<RowView>, oid: Seq<char>) -> bool {
    match lookup_row(rows, oid) {
        Some(r) => r.deleted_at is None,
        None => false,
    }
}

/// The table invariant: at most one row per object identifier.
pub open spec fn rows_unique(rows: Seq<RowView>) -> bool {
    forall|i: int, j: int|
        #![trigger rows[i], rows[j]]
        0 <= i < rows.len() && 0 <= j < rows.len() && i != j ==> rows[i].object_id
            != rows[j].object_id
}

/// What a blob lookup for a query yields: the blob of a live row whose
/// kind matches, or nothing.
pub open spec fn spec_blob_lookup(rows: Seq<RowView>, q: QueryView) -> Option<Seq<u8>> {
    match lookup_row(rows, q.object_id) {
        Some(row) => if row.collab_type == q.collab_type && row.deleted_at is None {
            Some(row.blob)
        } else {
            None
        },
        None => None,
    }
}

/// The metadata view of a row.
pub open spec fn spec_meta_of(row: RowView) -> MetaView {
    MetaView {
        object_id: row.object_id,
        workspace_id: row.workspace_id,
        created_at: row.created_at,
        deleted_at: row.deleted_at,
    }
}

/// A scan that matched at position `i`, with no earlier match, found the
/// row that `lookup_row` denotes.
pub proof fn lemma_lookup_found(rows: Seq<RowView>, i: int)
    requires
        0 <= i < rows.len(),
        forall|j: int| 0 <= j < i ==> (#[trigger] rows[j]).object_id != rows[i].object_id,
    ensures
        lookup_row(rows, rows[i].object_id) == Some(rows[i]),
    decreases i,
{
    if i == 0 {
    } else {
        assert(rows[0].object_id != rows[i].object_id);
        let rest = rows.drop_first();
        assert forall|j: int| 0 <= j < i - 1 implies (#[trigger] rest[j]).object_id != rest[i
            - 1].object_id by {
            assert(rest[j] == rows[j + 1]);
            assert(rest[i - 1] == rows[i]);
        }
        lemma_lookup_found(rest, i - 1);
        assert(rest[i - 1] == rows[i]);
    }
}

/// A scan that matched nowhere found nothing.
pub proof fn lemma_lookup_none(rows: Seq<RowView>, oid: Seq<char>)
    requires
        forall|j: int| 0 <= j < rows.len() ==> (#[trigger] rows[j]).object_id != oid,
    ensures
        lookup_row(rows, oid) is None,
    decreases rows.len(),
{
    if rows.len() > 0 {
        let rest = rows.drop_first();
        assert forall|j: int| 0 <= j < rest.len() implies (#[trigger] rest[j]).object_id != oid by {
            assert(rest[j] == rows[j + 1]);
        }
        lemma_lookup_none(rest, oid);
    }
}

/// Overwriting the first matching row changes exactly that object's
/// lookup and no other.
pub proof fn lemma_lookup_update(rows: Seq<RowView>, i: int, w: RowView)
    requires
        0 <= i < rows.len(),
        rows[i].object_id == w.object_id,
        forall|j: int| 0 <= j < i ==> (#[trigger] rows[j]).object_id != w.object_id,
    ensures
        forall|oid: Seq<char>| #[trigger]
            lookup_row(rows.update(i, w), oid) == if oid == w.object_id {
                Some(w)
            } else {
                lookup_row(rows, oid)
            },
    decreases i,
{
    let rows2 = rows.update(i, w);
    if i == 0 {
        assert forall|oid: Seq<char>| #[trigger]
            lookup_row(rows2, oid) == if oid == w.object_id {
                Some(w)
            } else {
                lookup_row(rows, oid)
            } by {
            assert(rows2[0] == w);
            if oid != w.object_id {
                assert(rows2.drop_first() =~= rows.drop_first());
            }
        }
    } else {
        let rest = rows.drop_first();
        assert forall|j: int| 0 <= j < i - 1 implies (#[trigger] rest[j]).object_id
            != w.object_id by {
            assert(rest[j] == rows[j + 1]);
        }
        assert(rest[i - 1] == rows[i]);
        lemma_lookup_update(rest, i - 1, w);
        assert forall|oid: Seq<char>| #[trigger]
            lookup_row(rows2, oid) == if oid == w.object_id {
                Some(w)
            } else {
                lookup_row(rows, oid)
            } by {
            assert(rows2[0] == rows[0]);
            assert(rows2.drop_first() =~= rest.update(i - 1, w));
            assert(rows[0].object_id != w.object_id);
            if oid == w.object_id {
                assert(lookup_row(rows2, oid) == lookup_row(rest.update(i - 1, w), oid));
            } else if rows[0].object_id != oid {
                assert(lookup_row(rows2, oid) == lookup_row(rest.update(i - 1, w), oid));
                assert(lookup_row(rows, oid) == lookup_row(rest, oid));
            }
        }
    }
}


/// One entry of the embeddings index: the token cost of an object's
/// embeddings and their index parameters, keyed by the object and its
/// workspace.
#[derive(Clone, Debug)]
pub struct EmbeddingIndexEntry {
    pub object_id: String,
    pub workspace_id: WorkspaceId,
    pub tokens_consumed: u32,
    pub index_params: Vec<u8>,
}

/// Mathematical view of `EmbeddingIndexEntry`.
pub ghost struct IndexView {
    pub object_id: Seq<char>,
    pub workspace_id: Seq<u8>,
    pub tokens_consumed: u32,
    pub index_params: Seq<u8>,
}

impl View for EmbeddingIndexEntry {
    type V = IndexView;

    open spec fn view(&self) -> IndexView {
        IndexView {
            object_id: self.object_id@,
            workspace_id: self.workspace_id.bytes@,
            tokens_consumed: self.tokens_consumed,
            index_params: self.index_params@,
        }
    }
}

/// The index entry in force for an object: the newest entry of the write
/// log with that key, since a later write replaces an earlier one.
pub open spec fn latest_index_entry(entries: Seq<IndexView>, oid: Seq<char>) -> Option<IndexView>
    decreases entries.len(),
{
    if entries.len() == 0 {
        None
    } else if entries.last().object_id == oid {
        Some(entries.last())
    } else {
        latest_index_entry(entries.drop_last(), oid)
    }
}

/// A backward scan that matched at position `i`, with no later match,
/// found the entry in force.
pub proof fn lemma_latest_found(entries: Seq<IndexView>, i: int)
    requires
        0 <= i < entries.len(),
        forall|j: int| i < j < entries.len() ==> (#[trigger] entries[j]).object_id
            != entries[i].object_id,
    ensures
        latest_index_entry(entries, entries[i].object_id) == Some(entries[i]),
    decreases entries.len(),
{
    if i == entries.len() - 1 {
    } else {
        let rest = entries.drop_last();
        assert forall|j: int| i < j < rest.len() implies (#[trigger] rest[j]).object_id
            != rest[i].object_id by {
            assert(rest[j] == entries[j]);
        }
        lemma_latest_found(rest, i);
    }
}

/// A backward scan that matched nowhere found nothing.
pub proof fn lemma_latest_none(entries: Seq<IndexView>, oid: Seq<char>)
    requires
        forall|j: int| 0 <= j < entries.len() ==> (#[trigger] entries[j]).object_id != oid,
    ensures
        latest_index_entry(entries, oid) is None,
    decreases entries.len(),
{
    if entries.len() > 0 {
        lemma_latest_none(entries.drop_last(), oid);
    }
}

/// One buffered row write: everything the table needs to insert or
/// overwrite the object's row.
#[derive(Clone, Debug)]
pub struct BlobWrite {
    pub uid: i64,
    pub workspace_id: String,
    pub object_id: String,
    pub collab_type: CollabType,
    pub blob: Vec<u8>,
}

/// Mathematical view of `BlobWrite`.
pub ghost struct BlobWriteView {
    pub uid: int,
    pub workspace_id: Seq<char>,
    pub object_id: Seq<char>,
    pub collab_type: CollabType,
    pub blob: Seq<u8>,
}

impl View for BlobWrite {
    type V = BlobWriteView;

    open spec fn view(&self) -> BlobWriteView {
        BlobWriteView {
            uid: self.uid as int,
            workspace_id: self.workspace_id@,
            object_id: self.object_id@,
            collab_type: self.collab_type,
            blob: self.blob@,
        }
    }
}

/// The row a committed write leaves in the table: the write's columns,
/// the creation time of the row it overwrote (or the commit time for a
/// fresh row), and no deletion mark — an upsert revives a deleted row.
pub open spec fn spec_written_row(prev: Option<RowView>, w: BlobWriteView, now: int) -> RowView {
    RowView {
        object_id: w.object_id,
        collab_type: w.collab_type,
        blob: w.blob,
        workspace_id: w.workspace_id,
        uid: w.uid,
        created_at: match prev {
            Some(p) => p.created_at,
            None => now,
        },
        deleted_at: None,
    }
}

/// The row with its deletion timestamp set.
pub open spec fn spec_deleted_row(row: RowView, now: int) -> RowView {
    RowView {
        object_id: row.object_id,
        collab_type: row.collab_type,
        blob: row.blob,
        workspace_id: row.workspace_id,
        uid: row.uid,
        created_at: row.created_at,
        deleted_at: Some(now),
    }
}

/// The table after one committed write: the first matching row is
/// overwritten, or a fresh row is appended.
pub open spec fn spec_apply_write(rows: Seq<RowView>, w: BlobWriteView, now: int) -> Seq<RowView>
    decreases rows.len(),
{
    if rows.len() == 0 {
        seq![spec_written_row(None, w, now)]
    } else if rows[0].object_id == w.object_id {
        rows.update(0, spec_written_row(Some(rows[0]), w, now))
    } else {
        seq![rows[0]] + spec_apply_write(rows.drop_first(), w, now)
    }
}

/// The table after a sequence of committed writes, applied in order.
pub open spec fn spec_apply_writes(rows: Seq<RowView>, ws: Seq<BlobWriteView>, now: int) -> Seq<
    RowView,
>
    decreases ws.len(),
{
    if ws.len() == 0 {
        rows
    } else {
        spec_apply_writes(spec_apply_write(rows, ws[0], now), ws.drop_first(), now)
    }
}

/// When the first matching row stands at `i`, one committed write is the
/// overwrite of that position.
pub proof fn lemma_apply_write_eq_update(rows: Seq<RowView>, i: int, w: BlobWriteView, now: int)
    requires
        0 <= i < rows.len(),
        rows[i].object_id == w.object_id,
        forall|j: int| 0 <= j < i ==> (#[trigger] rows[j]).object_id != w.object_id,
    ensures
        spec_apply_write(rows, w, now) == rows.update(i, spec_written_row(Some(rows[i]), w, now)),
    decreases i,
{
    if i == 0 {
    } else {
        let rest = rows.drop_first();
        assert forall|j: int| 0 <= j < i - 1 implies (#[trigger] rest[j]).object_id
            != w.object_id by {
            assert(rest[j] == rows[j + 1]);
        }
        assert(rest[i - 1] == rows[i]);
        lemma_apply_write_eq_update(rest, i - 1, w, now);
        assert(rows[0].object_id != w.object_id);
        assert(seq![rows[0]] + rest.update(i - 1, spec_written_row(Some(rows[i]), w, now))
            =~= rows.update(i, spec_written_row(Some(rows[i]), w, now)));
    }
}

/// When no row matches, one committed write appends a fresh row.
pub proof fn lemma_apply_write_eq_push(rows: Seq<RowView>, w: BlobWriteView, now: int)
    requires
        forall|j: int| 0 <= j < rows.len() ==> (#[trigger] rows[j]).object_id != w.object_id,
    ensures
        spec_apply_write(rows, w, now) == rows.push(spec_written_row(None, w, now)),
    decreases rows.len(),
{
    if rows.len() == 0 {
        assert(seq![spec_written_row(None, w, now)] =~= rows.push(spec_written_row(None, w, now)));
    } else {
        let rest = rows.drop_first();
        assert forall|j: int| 0 <= j < rest.len() implies (#[trigger] rest[j]).object_id
            != w.object_id by {
            assert(rest[j] == rows[j + 1]);
        }
        lemma_apply_write_eq_push(rest, w, now);
        assert(seq![rows[0]] + rest.push(spec_written_row(None, w, now)) =~= rows.push(
            spec_written_row(None, w, now),
        ));
    }
}

/// One committed write changes exactly the written object's lookup — to
/// the written row — and no other.
pub proof fn lemma_apply_write_lookup(rows: Seq<RowView>, w: BlobWriteView, now: int)
    ensures
        forall|oid: Seq<char>| #[trigger]
            lookup_row(spec_apply_write(rows, w, now), oid) == if oid == w.object_id {
                Some(spec_written_row(lookup_row(rows, w.object_id), w, now))
            } else {
                lookup_row(rows, oid)
            },
    decreases rows.len(),
{
    let rows2 = spec_apply_write(rows, w, now);
    if rows.len() == 0 {
        assert forall|oid: Seq<char>| #[trigger]
            lookup_row(rows2, oid) == if oid == w.object_id {
                Some(spec_written_row(lookup_row(rows, w.object_id), w, now))
            } else {
                lookup_row(rows, oid)
            } by {
            assert(rows2 == seq![spec_written_row(None, w, now)]);
            assert(rows2[0] == spec_written_row(None, w, now));
            if oid == w.object_id {
                assert(lookup_row(rows2, oid) == Some(rows2[0]));
            } else {
                assert(rows2.drop_first() =~= Seq::<RowView>::empty());
                assert(lookup_row(rows2, oid) == lookup_row(Seq::<RowView>::empty(), oid));
            }
        }
    } else if rows[0].object_id == w.object_id {
        assert forall|oid: Seq<char>| #[trigger]
            lookup_row(rows2, oid) == if oid == w.object_id {
                Some(spec_written_row(lookup_row(rows, w.object_id), w, now))
            } else {
                lookup_row(rows, oid)
            } by {
            assert(rows2 == rows.update(0, spec_written_row(Some(rows[0]), w, now)));
            assert(rows2[0] == spec_written_row(Some(rows[0]), w, now));
            assert(lookup_row(rows, w.object_id) == Some(rows[0]));
            if oid == w.object_id {
                assert(lookup_row(rows2, oid) == Some(rows2[0]));
            } else {
                assert(rows2.drop_first() =~= rows.drop_first());
                assert(lookup_row(rows2, oid) == lookup_row(rows.drop_first(), oid));
                assert(lookup_row(rows, oid) == lookup_row(rows.drop_first(), oid));
            }
        }
    } else {
        let rest = rows.drop_first();
        lemma_apply_write_lookup(rest, w, now);
        assert forall|oid: Seq<char>| #[trigger]
            lookup_row(rows2, oid) == if oid == w.object_id {
                Some(spec_written_row(lookup_row(rows, w.object_id), w, now))
            } else {
                lookup_row(rows, oid)
            } by {
            assert(rows2 == seq![rows[0]] + spec_apply_write(rest, w, now));
            assert(rows2[0] == rows[0]);
            assert(rows2.drop_first() =~= spec_apply_write(rest, w, now));
            assert(lookup_row(rows, w.object_id) == lookup_row(rest, w.object_id));
            if oid == w.object_id {
                assert(rows2[0].object_id != oid);
                assert(lookup_row(rows2, oid) == lookup_row(spec_apply_write(rest, w, now), oid));
            } else if rows[0].object_id == oid {
                assert(lookup_row(rows2, oid) == Some(rows2[0]));
                assert(lookup_row(rows, oid) == Some(rows[0]));
            } else {
                assert(lookup_row(rows2, oid) == lookup_row(spec_apply_write(rest, w, now), oid));
                assert(lookup_row(rows, oid) == lookup_row(rest, oid));
            }
        }
    }
}

/// Applying the writes of `ws` and then one more write `w` is applying
/// `ws.push(w)` in one go.
pub proof fn lemma_apply_writes_snoc(
    rows: Seq<RowView>,
    ws: Seq<BlobWriteView>,
    w: BlobWriteView,
    now: int,
)
    ensures
        spec_apply_writes(rows, ws.push(w), now) == spec_apply_write(
            spec_apply_writes(rows, ws, now),
            w,
            now,
        ),
    decreases ws.len(),
{
    if ws.len() == 0 {
        assert(ws.push(w)[0] == w);
        assert(ws.push(w).drop_first() =~= Seq::<BlobWriteView>::empty());
        assert(spec_apply_writes(rows, ws.push(w), now) == spec_apply_writes(
            spec_apply_write(rows, w, now),
            Seq::<BlobWriteView>::empty(),
            now,
        ));
        assert(spec_apply_writes(
            spec_apply_write(rows, w, now),
            Seq::<BlobWriteView>::empty(),
            now,
        ) == spec_apply_write(rows, w, now));
        assert(spec_apply_writes(rows, ws, now) == rows);
    } else {
        assert(ws.push(w)[0] == ws[0]);
        assert(ws.push(w).drop_first() =~= ws.drop_first().push(w));
        let mid = spec_apply_write(rows, ws[0], now);
        lemma_apply_writes_snoc(mid, ws.drop_first(), w, now);
        assert(spec_apply_writes(rows, ws.push(w), now) == spec_apply_writes(
            mid,
            ws.drop_first().push(w),
            now,
        ));
        assert(spec_apply_writes(rows, ws, now) == spec_apply_writes(mid, ws.drop_first(), now));
    }
}

/// The caller-owned unit of work: a buffer of row and index writes that
/// become visible in the table only when the caller commits the unit.
/// Dropping the unit instead — the rollback — discards every buffered
/// write and leaves the store untouched, which is what makes the blob
/// write and its index write atomic as a pair.
pub struct UnitOfWork {
    row_writes: Vec<BlobWrite>,
    index_writes: Vec<EmbeddingIndexEntry>,
}

/// Mathematical view of `UnitOfWork`.
pub ghost struct UnitView {
    pub row_writes: Seq<BlobWriteView>,
    pub index_writes: Seq<IndexView>,
}

impl View for UnitOfWork {
    type V = UnitView;

    closed spec fn view(&self) -> UnitView {
        UnitView {
            row_writes: self.row_writes@.map_values(|w: BlobWrite| w@),
            index_writes: self.index_writes@.map_values(|e: EmbeddingIndexEntry| e@),
        }
    }
}

impl UnitOfWork {
    /// Opens an empty unit of work.
    pub fn new() -> (tx: Self)
        ensures
            tx@.row_writes == Seq::<BlobWriteView>::empty(),
            tx@.index_writes == Seq::<IndexView>::empty(),
    {
        let tx = UnitOfWork { row_writes: Vec::new(), index_writes: Vec::new() };
        proof {
            assert(tx@.row_writes =~= Seq::<BlobWriteView>::empty());
            assert(tx@.index_writes =~= Seq::<IndexView>::empty());
        }
        tx
    }

    /// Discards the unit without committing it: none of its buffered
    /// writes ever reaches the store.
    pub fn rollback(self) {
    }
}

/// The buffered row write an upsert issues.
pub open spec fn spec_blob_write(uid: int, workspace_id: Seq<char>, p: crate::entity::WriteParamsView) -> BlobWriteView {
    BlobWriteView {
        uid,
        workspace_id,
        object_id: p.object_id,
        collab_type: p.collab_type,
        blob: p.blob,
    }
}

/// Buffers the row write for `params` in the unit of work: the blob and
/// its metadata enter the table when the caller commits. Nothing is
/// committed here.
pub fn write_row(tx: &mut UnitOfWork, uid: i64, workspace_id: &str, params: &CollabWriteParams)
    ensures
        final(tx)@.row_writes == old(tx)@.row_writes.push(
            spec_blob_write(uid as int, workspace_id@, params@),
        ),
        final(tx)@.index_writes == old(tx)@.index_writes,
{
    let w = BlobWrite {
        uid,
        workspace_id: String::from_str(workspace_id),
        object_id: params.object_id.clone(),
        collab_type: params.collab_type,
        blob: slice_to_vec(params.encoded_collab_v1.as_slice()),
    };
    tx.row_writes.push(w);
    proof {
        assert(tx@.row_writes =~= old(tx)@.row_writes.push(
            spec_blob_write(uid as int, workspace_id@, params@),
        ));
        assert(tx@.index_writes =~= old(tx)@.index_writes);
    }
}

/// Buffers the replacement of the object's embeddings index entry in the
/// unit of work, so that it persists exactly when the owning row write
/// does. Fails only on transport errors, which the in-process unit never
/// produces.
pub fn write_index(
    tx: &mut UnitOfWork,
    workspace_id: &WorkspaceId,
    object_id: &str,
    tokens_consumed: u32,
    index_params: &Vec<u8>,
) -> (r: Result<(), AppError>)
    ensures
        r is Ok,
        final(tx)@.index_writes == old(tx)@.index_writes.push(
            IndexView {
                object_id: object_id@,
                workspace_id: workspace_id.bytes@,
                tokens_consumed,
                index_params: index_params@,
            },
        ),
        final(tx)@.row_writes == old(tx)@.row_writes,
{
    let e = EmbeddingIndexEntry {
        object_id: String::from_str(object_id),
        workspace_id: WorkspaceId { bytes: slice_to_vec(workspace_id.bytes.as_slice()) },
        tokens_consumed,
        index_params: slice_to_vec(index_params.as_slice()),
    };
    tx.index_writes.push(e);
    proof {
        assert(tx@.index_writes =~= old(tx)@.index_writes.push(
            IndexView {
                object_id: object_id@,
                workspace_id: workspace_id.bytes@,
                tokens_consumed,
                index_params: index_params@,
            },
        ));
        assert(tx@.row_writes =~= old(tx)@.row_writes);
    }
    Ok(())
}

/// Overwrites one position of the table.
fn set_row(rows: &mut Vec<CollabRow>, i: usize, row: CollabRow)
    requires
        i < old(rows).len(),
    ensures
        final(rows)@ == old(rows)@.update(i as int, row),
{
    let slot = &mut rows[i];
    *slot = row;
}

/// Mathematical view of `CollabStore`.
pub ghost struct StoreView {
    pub rows: Seq<RowView>,
    pub index: Seq<IndexView>,
    pub faults: Seq<StoreErrorKind>,
}

/// The row store: the table of collab rows, the embeddings index log,
/// and the queue of injectable transport faults that stands for what a
/// shared connection pool can do to a single-object blob lookup.
pub struct CollabStore {
    rows: Vec<CollabRow>,
    index: Vec<EmbeddingIndexEntry>,
    faults: Vec<StoreErrorKind>,
}

impl View for CollabStore {
    type V = StoreView;

    closed spec fn view(&self) -> StoreView {
        StoreView {
            rows: self.rows@.map_values(|r: CollabRow| r@),
            index: self.index@.map_values(|e: EmbeddingIndexEntry| e@),
            faults: self.faults@,
        }
    }
}

impl CollabStore {
    /// The table invariant: at most one row per object identifier.
    pub open spec fn wf(&self) -> bool {
        rows_unique(self@.rows)
    }

    /// Opens an empty store.
    pub fn new() -> (s: Self)
        ensures
            s.wf(),
            s@.rows == Seq::<RowView>::empty(),
            s@.index == Seq::<IndexView>::empty(),
            s@.faults == Seq::<StoreErrorKind>::empty(),
    {
        let s = CollabStore { rows: Vec::new(), index: Vec::new(), faults: Vec::new() };
        proof {
            assert(s@.rows =~= Seq::<RowView>::empty());
            assert(s@.index =~= Seq::<IndexView>::empty());
            assert(s@.faults =~= Seq::<StoreErrorKind>::empty());
        }
        s
    }

    /// Queues one transport fault: the next single-object blob lookup
    /// will report `kind` instead of touching the table.
    pub fn queue_transport_fault(&mut self, kind: StoreErrorKind)
        ensures
            final(self)@.rows == old(self)@.rows,
            final(self)@.index == old(self)@.index,
            final(self)@.faults == old(self)@.faults.push(kind),
    {
        self.faults.push(kind);
    }

    /// How many injected transport faults are still queued.
    pub fn fault_count(&self) -> (n: usize)
        ensures
            n == self@.faults.len(),
    {
        self.faults.len()
    }

    /// Finds the position of the object's row, scanning from the front,
    /// so a hit is the row `lookup_row` denotes.
    fn find_row(&self, object_id: &String) -> (r: Option<usize>)
        ensures
            match r {
                Some(i) => {
                    &&& i < self@.rows.len()
                    &&& self@.rows[i as int].object_id == object_id@
                    &&& forall|j: int|
                        0 <= j < i ==> (#[trigger] self@.rows[j]).object_id != object_id@
                    &&& lookup_row(self@.rows, object_id@) == Some(self@.rows[i as int])
                },
                None => {
                    &&& forall|j: int|
                        0 <= j < self@.rows.len() ==> (#[trigger] self@.rows[j]).object_id
                            != object_id@
                    &&& lookup_row(self@.rows, object_id@) is None
                },
            },
    {
        let n = self.rows.len();
        let mut i: usize = 0;
        while i < n
            invariant
                n == self.rows.len(),
                i <= n,
                forall|j: int| 0 <= j < i ==> (#[trigger] self@.rows[j]).object_id != object_id@,
            decreases n - i,
        {
            if self.rows[i].object_id == *object_id {
                proof {
                    assert(self@.rows[i as int] == self.rows@[i as int]@);
                    assert(self@.rows[i as int].object_id == object_id@);
                    lemma_lookup_found(self@.rows, i as int);
                }
                return Some(i);
            }
            proof {
                assert(self@.rows[i as int] == self.rows@[i as int]@);
            }
            i += 1;
        }
        proof {
            lemma_lookup_none(self@.rows, object_id@);
        }
        None
    }

    /// True exactly when a non-deleted row exists for the object.
    pub fn is_collab_exists(&self, object_id: &str) -> (r: bool)
        ensures
            r == row_is_live(self@.rows, object_id@),
    {
        let key = String::from_str(object_id);
        match self.find_row(&key) {
            Some(i) => self.rows[i].deleted_at.is_none(),
            None => false,
        }
    }

    /// The metadata of the object's row when its kind matches; this path
    /// does not filter on deletion, so a soft-deleted row stays visible.
    pub fn get_meta(&self, object_id: &str, collab_type: &CollabType) -> (r: Option<
        AFCollabRowMeta,
    >)
        ensures
            match lookup_row(self@.rows, object_id@) {
                Some(row) => if row.collab_type == *collab_type {
                    r matches Some(m) && m@ == spec_meta_of(row)
                } else {
                    r is None
                },
                None => r is None,
            },
    {
        let key = String::from_str(object_id);
        match self.find_row(&key) {
            Some(i) => {
                let row = &self.rows[i];
                if row.collab_type == *collab_type {
                    Some(
                        AFCollabRowMeta {
                            object_id: row.object_id.clone(),
                            workspace_id: row.workspace_id.clone(),
                            created_at: row.created_at,
                            deleted_at: row.deleted_at,
                        },
                    )
                } else {
                    None
                }
            },
            None => None,
        }
    }

    /// One attempt of the single-object blob lookup. A queued transport
    /// fault, if any, is consumed and reported first; otherwise the
    /// table answers: the blob of a live row of the queried kind, or
    /// `RowNotFound`. Retrying is the caller's business, not this
    /// layer's.
    pub fn get_blob_once(&mut self, query: &QueryCollab) -> (r: Result<Vec<u8>, StoreErrorKind>)
        ensures
            final(self)@.rows == old(self)@.rows,
            final(self)@.index == old(self)@.index,
            old(self)@.faults.len() > 0 ==> {
                &&& final(self)@.faults == old(self)@.faults.drop_first()
                &&& r matches Err(k) && k == old(self)@.faults[0]
            },
            old(self)@.faults.len() == 0 ==> {
                &&& final(self)@.faults == old(self)@.faults
                &&& match spec_blob_lookup(old(self)@.rows, query@) {
                    Some(b) => r matches Ok(v) && v@ == b,
                    None => r matches Err(k) && k is RowNotFound,
                }
            },
    {
        if self.faults.len() > 0 {
            let k = self.faults.remove(0);
            proof {
                assert(self@.faults =~= old(self)@.faults.drop_first());
            }
            return Err(k);
        }
        match self.find_row(&query.object_id) {
            Some(i) => {
                let row = &self.rows[i];
                if row.collab_type == query.collab_type && row.deleted_at.is_none() {
                    Ok(slice_to_vec(row.blob.as_slice()))
                } else {
                    Err(StoreErrorKind::RowNotFound)
                }
            },
            None => Err(StoreErrorKind::RowNotFound),
        }
    }

    /// Sets the deletion timestamp of the object's row to `now`. The row
    /// is never removed; deleting a missing row is a no-op, and deleting
    /// a deleted row only moves its timestamp, so the call is idempotent
    /// in effect.
    pub fn soft_delete(&mut self, object_id: &str, now: i64)
        requires
            old(self).wf(),
        ensures
            final(self).wf(),
            final(self)@.index == old(self)@.index,
            final(self)@.faults == old(self)@.faults,
            forall|oid: Seq<char>|
                oid != object_id@ ==> #[trigger] lookup_row(final(self)@.rows, oid) == lookup_row(
                    old(self)@.rows,
                    oid,
                ),
            match lookup_row(old(self)@.rows, object_id@) {
                Some(row) => lookup_row(final(self)@.rows, object_id@) == Some(
                    spec_deleted_row(row, now as int),
                ),
                None => final(self)@.rows == old(self)@.rows,
            },
    {
        let key = String::from_str(object_id);
        match self.find_row(&key) {
            Some(i) => {
                let row = &self.rows[i];
                let updated = CollabRow {
                    object_id: row.object_id.clone(),
                    collab_type: row.collab_type,
                    blob: slice_to_vec(row.blob.as_slice()),
                    workspace_id: row.workspace_id.clone(),
                    uid: row.uid,
                    created_at: row.created_at,
                    deleted_at: Some(now),
                };
                proof {
                    assert(updated@ == spec_deleted_row(old(self)@.rows[i as int], now as int));
                }
                set_row(&mut self.rows, i, updated);
                proof {
                    assert(self@.rows =~= old(self)@.rows.update(i as int, updated@));
                    lemma_lookup_update(old(self)@.rows, i as int, updated@);
                    assert forall|a: int, b: int|
                        #![trigger self@.rows[a], self@.rows[b]]
                        0 <= a < self@.rows.len() && 0 <= b < self@.rows.len() && a != b implies self@.rows[a].object_id
                        != self@.rows[b].object_id by {
                        assert(self@.rows[a].object_id == old(self)@.rows[a].object_id);
                        assert(self@.rows[b].object_id == old(self)@.rows[b].object_id);
                    }
                }
            },
            None => {
            },
        }
    }

    /// Looks up every query of the batch and returns one entry per
    /// query, in order: the blob of a live row of the queried kind, or a
    /// failure value for that key alone. One missing key never fails the
    /// batch.
    pub fn batch_get_blob(&self, queries: &Vec<QueryCollab>) -> (r: Vec<(String, QueryCollabResult)>)
        ensures
            r@.len() == queries@.len(),
            forall|i: int|
                0 <= i < r@.len() ==> {
                    &&& (#[trigger] r@[i]).0@ == queries@[i]@.object_id
                    &&& match spec_blob_lookup(self@.rows, queries@[i]@) {
                        Some(b) => r@[i].1 matches QueryCollabResult::Success {
                            encode_collab_v1,
                        } && encode_collab_v1@ == b,
                        None => r@[i].1 matches QueryCollabResult::Failed { error } && error@
                            == "row not found"@,
                    }
                },
    {
        let n = queries.len();
        let mut out: Vec<(String, QueryCollabResult)> = Vec::new();
        let mut i: usize = 0;
        while i < n
            invariant
                n == queries.len(),
                i <= n,
                out@.len() == i,
                forall|j: int|
                    0 <= j < i ==> {
                        &&& (#[trigger] out@[j]).0@ == queries@[j]@.object_id
                        &&& match spec_blob_lookup(self@.rows, queries@[j]@) {
                            Some(b) => out@[j].1 matches QueryCollabResult::Success {
                                encode_collab_v1,
                            } && encode_collab_v1@ == b,
                            None => out@[j].1 matches QueryCollabResult::Failed { error } && error@
                                == "row not found"@,
                        }
                    },
            decreases n - i,
        {
            let q = &queries[i];
            let result = match self.find_row(&q.object_id) {
                Some(k) => {
                    let row = &self.rows[k];
                    if row.collab_type == q.collab_type && row.deleted_at.is_none() {
                        QueryCollabResult::Success {
                            encode_collab_v1: slice_to_vec(row.blob.as_slice()),
                        }
                    } else {
                        QueryCollabResult::Failed { error: String::from_str("row not found") }
                    }
                },
                None => QueryCollabResult::Failed { error: String::from_str("row not found") },
            };
            out.push((q.object_id.clone(), result));
            i += 1;
        }
        out
    }

    /// The embeddings index entry in force for the object: the newest
    /// committed write with that key, since a later write replaces an
    /// earlier one.
    pub fn get_index_entry(&self, object_id: &str) -> (r: Option<EmbeddingIndexEntry>)
        ensures
            match latest_index_entry(self@.index, object_id@) {
                Some(e) => r matches Some(x) && x@ == e,
                None => r is None,
            },
    {
        let key = String::from_str(object_id);
        let mut i = self.index.len();
        while i > 0
            invariant
                i <= self.index.len(),
                key@ == object_id@,
                forall|j: int|
                    i <= j < self@.index.len() ==> (#[trigger] self@.index[j]).object_id != key@,
            decreases i,
        {
            i = i - 1;
            let e = &self.index[i];
            if e.object_id == key {
                let out = EmbeddingIndexEntry {
                    object_id: e.object_id.clone(),
                    workspace_id: WorkspaceId {
                        bytes: slice_to_vec(e.workspace_id.bytes.as_slice()),
                    },
                    tokens_consumed: e.tokens_consumed,
                    index_params: slice_to_vec(e.index_params.as_slice()),
                };
                proof {
                    assert(self@.index[i as int] == self.index@[i as int]@);
                    assert(self@.index[i as int].object_id == object_id@);
                    lemma_latest_found(self@.index, i as int);
                    assert(latest_index_entry(self@.index, object_id@) == Some(
                        self@.index[i as int],
                    ));
                    assert(out@ == self@.index[i as int]);
                }
                return Some(out);
            }
            proof {
                assert(self@.index[i as int] == self.index@[i as int]@);
            }
        }
        proof {
            lemma_latest_none(self@.index, key@);
        }
        None
    }

    /// Commits a unit of work: applies its row writes to the table in
    /// order, then appends its index writes to the index log, so that
    /// the blob writes and their index writes become visible together.
    pub fn commit_unit(&mut self, tx: UnitOfWork, now: i64)
        requires
            old(self).wf(),
        ensures
            final(self).wf(),
            final(self)@.rows == spec_apply_writes(old(self)@.rows, tx@.row_writes, now as int),
            final(self)@.index == old(self)@.index + tx@.index_writes,
            final(self)@.faults == old(self)@.faults,
    {
        let ghost ws = tx@.row_writes;
        let ghost ixs = tx@.index_writes;
        let ghost rows0 = old(self)@.rows;
        let UnitOfWork { row_writes, index_writes } = tx;
        let mut index_writes = index_writes;
        let n = row_writes.len();
        let mut i: usize = 0;
        proof {
            assert(ws.take(0) =~= Seq::<BlobWriteView>::empty());
        }
        while i < n
            invariant
                n == row_writes.len(),
                ws == row_writes@.map_values(|w: BlobWrite| w@),
                i <= n,
                self.wf(),
                self@.rows == spec_apply_writes(rows0, ws.take(i as int), now as int),
                self@.index == old(self)@.index,
                self@.faults == old(self)@.faults,
            decreases n - i,
        {
            let w = &row_writes[i];
            proof {
                assert(w@ == ws[i as int]);
            }
            let ghost pre_rows = self@.rows;
            match self.find_row(&w.object_id) {
                Some(k) => {
                    let row = &self.rows[k];
                    let updated = CollabRow {
                        object_id: w.object_id.clone(),
                        collab_type: w.collab_type,
                        blob: slice_to_vec(w.blob.as_slice()),
                        workspace_id: w.workspace_id.clone(),
                        uid: w.uid,
                        created_at: row.created_at,
                        deleted_at: None,
                    };
                    proof {
                        assert(updated@ == spec_written_row(
                            Some(pre_rows[k as int]),
                            ws[i as int],
                            now as int,
                        ));
                    }
                    set_row(&mut self.rows, k, updated);
                    proof {
                        assert(self@.rows =~= pre_rows.update(k as int, updated@));
                        lemma_apply_write_eq_update(pre_rows, k as int, ws[i as int], now as int);
                        assert(self@.rows == spec_apply_write(pre_rows, ws[i as int], now as int));
                        assert forall|a: int, b: int|
                            #![trigger self@.rows[a], self@.rows[b]]
                            0 <= a < self@.rows.len() && 0 <= b < self@.rows.len() && a
                            != b implies self@.rows[a].object_id != self@.rows[b].object_id by {
                            assert(self@.rows[a].object_id == pre_rows[a].object_id);
                            assert(self@.rows[b].object_id == pre_rows[b].object_id);
                        }
                    }
                },
                None => {
                    let updated = CollabRow {
                        object_id: w.object_id.clone(),
                        collab_type: w.collab_type,
                        blob: slice_to_vec(w.blob.as_slice()),
                        workspace_id: w.workspace_id.clone(),
                        uid: w.uid,
                        created_at: now,
                        deleted_at: None,
                    };
                    proof {
                        assert(updated@ == spec_written_row(None, ws[i as int], now as int));
                    }
                    self.rows.push(updated);
                    proof {
                        assert(self@.rows =~= pre_rows.push(updated@));
                        lemma_apply_write_eq_push(pre_rows, ws[i as int], now as int);
                        assert(self@.rows == spec_apply_write(pre_rows, ws[i as int], now as int));
                        let m = pre_rows.len() as int;
                        assert forall|a: int, b: int|
                            #![trigger self@.rows[a], self@.rows[b]]
                            0 <= a < self@.rows.len() && 0 <= b < self@.rows.len() && a
                            != b implies self@.rows[a].object_id != self@.rows[b].object_id by {
                            if a < m && b < m {
                                assert(self@.rows[a] == pre_rows[a]);
                                assert(self@.rows[b] == pre_rows[b]);
                            } else if a == m {
                                assert(self@.rows[b] == pre_rows[b]);
                                assert(pre_rows[b].object_id != updated@.object_id);
                            } else {
                                assert(self@.rows[a] == pre_rows[a]);
                                assert(pre_rows[a].object_id != updated@.object_id);
                            }
                        }
                    }
                },
            }
            proof {
                lemma_apply_writes_snoc(rows0, ws.take(i as int), ws[i as int], now as int);
                assert(ws.take(i as int + 1) =~= ws.take(i as int).push(ws[i as int]));
            }
            i += 1;
        }
        proof {
            assert(ws.take(n as int) =~= ws);
        }
        self.index.append(&mut index_writes);
        proof {
            assert(self@.index =~= old(self)@.index + ixs);
        }
    }
}

} // verus!


