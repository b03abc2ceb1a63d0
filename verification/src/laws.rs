//! The laws of the persistence layer: what holds of every write, delete
//! and fetch, proved once over the store's mathematical model. Each law
//! is stated over the same spec functions the operations' own contracts
//! use, so it composes with them directly.

use crate::cache::spec_fetch_result;
use crate::codec::{lemma_codec_round_trip, spec_decode, spec_encode};
use crate::entity::{EncodedCollab, EncoderVersion, QueryView};
use crate::errors::{AppError, StoreErrorKind};
use crate::store::{
    latest_index_entry, lemma_apply_write_lookup, lookup_row, row_is_live, spec_apply_write,
    spec_apply_writes, spec_blob_lookup, spec_deleted_row, spec_written_row, BlobWriteView,
    IndexView, RowView,
};
use vstd::prelude::*;

verus! {

/// Round trip: committing an upsert whose blob encodes a snapshot and
/// then fetching the same object with the same kind returns exactly the
/// bytes that were written, and they decode to exactly that snapshot —
/// whatever the table held before. Every result the fetch contract
/// admits over the new table, with no transport faults queued, is the
/// written snapshot.
pub proof fn lemma_upsert_then_fetch_round_trip(
    rows: Seq<RowView>,
    w: BlobWriteView,
    now: int,
    q: QueryView,
    sv: Seq<u8>,
    ds: Seq<u8>,
    v: EncoderVersion,
)
    requires
        q.object_id == w.object_id,
        q.collab_type == w.collab_type,
        w.blob == spec_encode(sv, ds, v),
        sv.len() <= u32::MAX,
        ds.len() <= u32::MAX,
    ensures
        spec_blob_lookup(spec_apply_write(rows, w, now), q) == Some(w.blob),
        spec_decode(w.blob) == Some((sv, ds, v)),
        forall|r: Result<EncodedCollab, AppError>|
            #[trigger] spec_fetch_result(
                spec_apply_write(rows, w, now),
                Seq::<StoreErrorKind>::empty(),
                q,
                r,
            ) ==> (r matches Ok(ec) && ec.state_vector@ == sv && ec.doc_state@ == ds && ec.version
                == v),
{
    lemma_apply_write_lookup(rows, w, now);
    let written = spec_written_row(lookup_row(rows, w.object_id), w, now);
    assert(lookup_row(spec_apply_write(rows, w, now), q.object_id) == Some(written));
    assert(written.collab_type == q.collab_type && written.deleted_at is None);
    lemma_codec_round_trip(sv, ds, v);
}

/// Soft deletion is logical, never physical: afterwards the object does
/// not exist for the liveness check and its blob cannot be fetched, yet
/// the row itself — blob, bookkeeping and the new deletion timestamp —
/// is still there for the metadata path, which does not filter on
/// deletion.
pub proof fn lemma_soft_delete_observable(
    rows: Seq<RowView>,
    rows2: Seq<RowView>,
    oid: Seq<char>,
    now: int,
    q: QueryView,
)
    requires
        lookup_row(rows, oid) is Some,
        lookup_row(rows2, oid) == Some(spec_deleted_row(lookup_row(rows, oid)->Some_0, now)),
        q.object_id == oid,
    ensures
        !row_is_live(rows2, oid),
        spec_blob_lookup(rows2, q) is None,
        lookup_row(rows2, oid) matches Some(r2) && r2.deleted_at == Some(now) && r2.blob
            == lookup_row(rows, oid)->Some_0.blob && r2.created_at == lookup_row(
            rows,
            oid,
        )->Some_0.created_at,
{
}

/// Atomicity of an upsert that carries embeddings: committing the unit
/// it filled makes the blob row and the index entry visible together —
/// the row by lookup, the entry as the newest one for its object.
/// Until that commit, neither is visible, since the unit buffers both.
pub proof fn lemma_commit_upsert_with_embeddings_atomic(
    rows: Seq<RowView>,
    index: Seq<IndexView>,
    w: BlobWriteView,
    ix: IndexView,
    now: int,
)
    requires
        ix.object_id == w.object_id,
    ensures
        lookup_row(spec_apply_writes(rows, seq![w], now), w.object_id) == Some(
            spec_written_row(lookup_row(rows, w.object_id), w, now),
        ),
        latest_index_entry(index.push(ix), w.object_id) == Some(ix),
{
    assert(seq![w][0] == w);
    assert(seq![w].drop_first() =~= Seq::<BlobWriteView>::empty());
    assert(spec_apply_writes(rows, seq![w], now) == spec_apply_writes(
        spec_apply_write(rows, w, now),
        Seq::<BlobWriteView>::empty(),
        now,
    ));
    lemma_apply_write_lookup(rows, w, now);
    assert(index.push(ix).last() == ix);
}

/// An upsert without embeddings writes no index entry: committing its
/// unit changes the table's row and leaves the index log — and so every
/// object's entry in force — exactly as it was.
pub proof fn lemma_commit_upsert_without_embeddings(
    rows: Seq<RowView>,
    index: Seq<IndexView>,
    w: BlobWriteView,
    now: int,
)
    ensures
        lookup_row(spec_apply_writes(rows, seq![w], now), w.object_id) == Some(
            spec_written_row(lookup_row(rows, w.object_id), w, now),
        ),
        index + Seq::<IndexView>::empty() == index,
{
    assert(seq![w][0] == w);
    assert(seq![w].drop_first() =~= Seq::<BlobWriteView>::empty());
    assert(spec_apply_writes(rows, seq![w], now) == spec_apply_writes(
        spec_apply_write(rows, w, now),
        Seq::<BlobWriteView>::empty(),
        now,
    ));
    lemma_apply_write_lookup(rows, w, now);
    assert(index + Seq::<IndexView>::empty() =~= index);
}

} // verus!
