use collab_store::cache::CollabDiskCache;
use collab_store::codec::encode_collab;
use collab_store::entity::{
    CollabType, CollabWriteParams, EmbeddingsPayload, EncodedCollab, EncoderVersion, QueryCollab,
    QueryCollabResult,
};
use collab_store::errors::{AppError, StoreErrorKind};
use collab_store::store::{CollabStore, UnitOfWork};

fn snapshot(sv: &[u8], ds: &[u8]) -> EncodedCollab {
    EncodedCollab {
        state_vector: sv.to_vec(),
        doc_state: ds.to_vec(),
        version: EncoderVersion::V1,
    }
}

fn params_for(
    object_id: &str,
    collab_type: CollabType,
    blob: Vec<u8>,
    embeddings: Option<EmbeddingsPayload>,
) -> CollabWriteParams {
    CollabWriteParams {
        object_id: object_id.to_string(),
        collab_type,
        encoded_collab_v1: blob,
        embeddings,
    }
}

const WORKSPACE: &str = "6e2b6a2e-7a3f-4b3e-9d44-2f6a9a1d5c10";

fn cache_with_row(object_id: &str, collab_type: CollabType, ec: &EncodedCollab) -> CollabDiskCache {
    let mut cache = CollabDiskCache::new(CollabStore::new());
    let mut tx = UnitOfWork::new();
    let params = params_for(object_id, collab_type, encode_collab(ec), None);
    cache
        .upsert_collab_with_transaction(WORKSPACE, &7, &params, &mut tx)
        .unwrap();
    cache.store.commit_unit(tx, 1_000);
    cache
}

#[test]
fn upsert_then_fetch_round_trips() {
    let ec = snapshot(b"sv-bytes", b"doc-state-bytes");
    let mut cache = cache_with_row("obj-1", CollabType::Document, &ec);
    let fetched = cache
        .get_collab_encoded_from_disk(QueryCollab {
            object_id: "obj-1".to_string(),
            collab_type: CollabType::Document,
        })
        .unwrap();
    assert_eq!(fetched, ec);
    assert!(cache.backoff_log.is_empty());
}

#[test]
fn overwrite_keeps_one_row_and_newest_blob() {
    let first = snapshot(b"a", b"one");
    let second = snapshot(b"b", b"two");
    let mut cache = cache_with_row("obj-1", CollabType::Document, &first);
    let mut tx = UnitOfWork::new();
    let params = params_for("obj-1", CollabType::Document, encode_collab(&second), None);
    cache
        .upsert_collab_with_transaction(WORKSPACE, &7, &params, &mut tx)
        .unwrap();
    cache.store.commit_unit(tx, 2_000);
    let fetched = cache
        .get_collab_encoded_from_disk(QueryCollab {
            object_id: "obj-1".to_string(),
            collab_type: CollabType::Document,
        })
        .unwrap();
    assert_eq!(fetched, second);
    // The overwritten row keeps its earlier creation time.
    let meta = cache.get_collab_meta("obj-1", &CollabType::Document).unwrap();
    assert_eq!(meta.created_at, 1_000);
}

#[test]
fn soft_delete_is_logical_not_physical() {
    let ec = snapshot(b"sv", b"ds");
    let mut cache = cache_with_row("obj-1", CollabType::Document, &ec);
    assert!(cache.is_exist("obj-1").unwrap());

    cache.store.soft_delete("obj-1", 9_999);

    assert!(!cache.is_exist("obj-1").unwrap());
    let err = cache
        .get_collab_encoded_from_disk(QueryCollab {
            object_id: "obj-1".to_string(),
            collab_type: CollabType::Document,
        })
        .unwrap_err();
    match err {
        AppError::RecordNotFound(m) => {
            assert_eq!(m, "Can't find the row for query: obj-1");
        },
        other => panic!("expected RecordNotFound, got {:?}", other),
    }
    // The metadata path does not filter on deletion: the row and its
    // deletion timestamp are still queryable.
    let meta = cache.get_collab_meta("obj-1", &CollabType::Document).unwrap();
    assert_eq!(meta.deleted_at, Some(9_999));
    assert_eq!(meta.created_at, 1_000);
}

#[test]
fn delete_collab_uses_the_clock() {
    let ec = snapshot(b"sv", b"ds");
    let mut cache = cache_with_row("obj-1", CollabType::Document, &ec);
    cache.delete_collab("obj-1").unwrap();
    assert!(!cache.is_exist("obj-1").unwrap());
    let meta = cache.get_collab_meta("obj-1", &CollabType::Document).unwrap();
    assert!(meta.deleted_at.is_some());
}

#[test]
fn delete_of_missing_row_is_not_an_error() {
    let mut cache = CollabDiskCache::new(CollabStore::new());
    assert!(cache.delete_collab("nobody").is_ok());
}

#[test]
fn upsert_revives_a_deleted_row() {
    let ec = snapshot(b"sv", b"ds");
    let mut cache = cache_with_row("obj-1", CollabType::Document, &ec);
    cache.store.soft_delete("obj-1", 9_999);
    assert!(!cache.is_exist("obj-1").unwrap());
    let mut tx = UnitOfWork::new();
    let params = params_for("obj-1", CollabType::Document, encode_collab(&ec), None);
    cache
        .upsert_collab_with_transaction(WORKSPACE, &7, &params, &mut tx)
        .unwrap();
    cache.store.commit_unit(tx, 3_000);
    assert!(cache.is_exist("obj-1").unwrap());
}

#[test]
fn pool_exhausted_twice_then_success_backs_off_500_then_1000() {
    let ec = snapshot(b"sv", b"ds");
    let mut cache = cache_with_row("obj-1", CollabType::Document, &ec);
    cache.store.queue_transport_fault(StoreErrorKind::PoolExhausted);
    cache.store.queue_transport_fault(StoreErrorKind::PoolExhausted);

    let fetched = cache
        .get_collab_encoded_from_disk(QueryCollab {
            object_id: "obj-1".to_string(),
            collab_type: CollabType::Document,
        })
        .unwrap();
    assert_eq!(fetched, ec);
    assert_eq!(cache.backoff_log, vec![500, 1000]);
    assert_eq!(cache.store.fault_count(), 0);
}

#[test]
fn pool_exhausted_three_times_fails_after_exactly_three_attempts() {
    let ec = snapshot(b"sv", b"ds");
    let mut cache = cache_with_row("obj-1", CollabType::Document, &ec);
    for _ in 0..3 {
        cache.store.queue_transport_fault(StoreErrorKind::PoolExhausted);
    }
    // A fourth queued outcome that a fourth attempt would consume.
    cache.store.queue_transport_fault(StoreErrorKind::Other);

    let err = cache
        .get_collab_encoded_from_disk(QueryCollab {
            object_id: "obj-1".to_string(),
            collab_type: CollabType::Document,
        })
        .unwrap_err();
    assert_eq!(err, AppError::StoreUnavailable(StoreErrorKind::PoolExhausted));
    assert_eq!(cache.backoff_log, vec![500, 1000]);
    // Exactly three attempts were made: the fourth outcome is untouched.
    assert_eq!(cache.store.fault_count(), 1);
}

#[test]
fn row_not_found_fails_immediately_with_no_sleep() {
    let ec = snapshot(b"sv", b"ds");
    let mut cache = cache_with_row("obj-1", CollabType::Document, &ec);
    cache.store.queue_transport_fault(StoreErrorKind::RowNotFound);

    let err = cache
        .get_collab_encoded_from_disk(QueryCollab {
            object_id: "obj-1".to_string(),
            collab_type: CollabType::Document,
        })
        .unwrap_err();
    assert!(matches!(err, AppError::RecordNotFound(_)));
    assert!(cache.backoff_log.is_empty());
}

#[test]
fn other_transport_fault_is_store_unavailable_with_no_sleep() {
    let ec = snapshot(b"sv", b"ds");
    let mut cache = cache_with_row("obj-1", CollabType::Document, &ec);
    cache.store.queue_transport_fault(StoreErrorKind::Other);

    let err = cache
        .get_collab_encoded_from_disk(QueryCollab {
            object_id: "obj-1".to_string(),
            collab_type: CollabType::Document,
        })
        .unwrap_err();
    assert_eq!(err, AppError::StoreUnavailable(StoreErrorKind::Other));
    assert!(cache.backoff_log.is_empty());
}

#[test]
fn fetch_of_malformed_blob_is_decode_failed() {
    let mut cache = CollabDiskCache::new(CollabStore::new());
    let mut tx = UnitOfWork::new();
    let params = params_for("obj-1", CollabType::Document, vec![9, 9, 9], None);
    cache
        .upsert_collab_with_transaction(WORKSPACE, &7, &params, &mut tx)
        .unwrap();
    cache.store.commit_unit(tx, 1_000);
    let err = cache
        .get_collab_encoded_from_disk(QueryCollab {
            object_id: "obj-1".to_string(),
            collab_type: CollabType::Document,
        })
        .unwrap_err();
    assert_eq!(err, AppError::DecodeFailed);
}

#[test]
fn fetch_with_wrong_kind_is_record_not_found() {
    let ec = snapshot(b"sv", b"ds");
    let mut cache = cache_with_row("obj-1", CollabType::Document, &ec);
    let err = cache
        .get_collab_encoded_from_disk(QueryCollab {
            object_id: "obj-1".to_string(),
            collab_type: CollabType::Folder,
        })
        .unwrap_err();
    assert!(matches!(err, AppError::RecordNotFound(_)));
}

#[test]
fn batch_get_returns_one_entry_per_query_with_per_key_failures() {
    let ec1 = snapshot(b"sv1", b"ds1");
    let ec3 = snapshot(b"sv3", b"ds3");
    let mut cache = cache_with_row("obj-1", CollabType::Document, &ec1);
    let mut tx = UnitOfWork::new();
    let params = params_for("obj-3", CollabType::Document, encode_collab(&ec3), None);
    cache
        .upsert_collab_with_transaction(WORKSPACE, &7, &params, &mut tx)
        .unwrap();
    cache.store.commit_unit(tx, 1_000);

    let queries = vec![
        QueryCollab { object_id: "obj-1".to_string(), collab_type: CollabType::Document },
        QueryCollab { object_id: "obj-2".to_string(), collab_type: CollabType::Document },
        QueryCollab { object_id: "obj-3".to_string(), collab_type: CollabType::Document },
    ];
    let results = cache.batch_get_collab(&queries);
    assert_eq!(results.len(), 3);
    assert_eq!(results[0].0, "obj-1");
    assert_eq!(
        results[0].1,
        QueryCollabResult::Success { encode_collab_v1: encode_collab(&ec1) }
    );
    assert_eq!(results[1].0, "obj-2");
    assert_eq!(
        results[1].1,
        QueryCollabResult::Failed { error: "row not found".to_string() }
    );
    assert_eq!(results[2].0, "obj-3");
    assert_eq!(
        results[2].1,
        QueryCollabResult::Success { encode_collab_v1: encode_collab(&ec3) }
    );
}

#[test]
fn get_collab_meta_reports_the_missing_object() {
    let cache = CollabDiskCache::new(CollabStore::new());
    let err = cache.get_collab_meta("ghost", &CollabType::Document).unwrap_err();
    match err {
        AppError::RecordNotFound(m) => {
            assert_eq!(m, "Can't find the row for object_id: ghost");
        },
        other => panic!("expected RecordNotFound, got {:?}", other),
    }
}

#[test]
fn get_collab_meta_with_wrong_kind_is_record_not_found() {
    let ec = snapshot(b"sv", b"ds");
    let cache = cache_with_row("obj-1", CollabType::Document, &ec);
    let err = cache.get_collab_meta("obj-1", &CollabType::Folder).unwrap_err();
    assert!(matches!(err, AppError::RecordNotFound(_)));
}

#[test]
fn upsert_with_embeddings_in_rolled_back_unit_leaves_nothing_visible() {
    let ec = snapshot(b"sv", b"ds");
    let mut cache = CollabDiskCache::new(CollabStore::new());
    let mut tx = UnitOfWork::new();
    let params = params_for(
        "obj-1",
        CollabType::Document,
        encode_collab(&ec),
        Some(EmbeddingsPayload { tokens_consumed: 42, index_params: vec![1, 2, 3] }),
    );
    cache
        .upsert_collab_with_transaction(WORKSPACE, &7, &params, &mut tx)
        .unwrap();
    tx.rollback();

    assert!(!cache.is_exist("obj-1").unwrap());
    assert!(cache.store.get_index_entry("obj-1").is_none());
}

#[test]
fn upsert_with_embeddings_commits_blob_and_index_together() {
    let ec = snapshot(b"sv", b"ds");
    let mut cache = CollabDiskCache::new(CollabStore::new());
    let mut tx = UnitOfWork::new();
    let params = params_for(
        "obj-1",
        CollabType::Document,
        encode_collab(&ec),
        Some(EmbeddingsPayload { tokens_consumed: 42, index_params: vec![1, 2, 3] }),
    );
    cache
        .upsert_collab_with_transaction(WORKSPACE, &7, &params, &mut tx)
        .unwrap();
    cache.store.commit_unit(tx, 1_000);

    assert!(cache.is_exist("obj-1").unwrap());
    let entry = cache.store.get_index_entry("obj-1").unwrap();
    assert_eq!(entry.tokens_consumed, 42);
    assert_eq!(entry.index_params, vec![1, 2, 3]);
    let expected = uuid::Uuid::parse_str(WORKSPACE).unwrap().into_bytes().to_vec();
    assert_eq!(entry.workspace_id.bytes, expected);
}

#[test]
fn upsert_with_malformed_workspace_id_fails_before_any_write() {
    let ec = snapshot(b"sv", b"ds");
    let mut cache = CollabDiskCache::new(CollabStore::new());
    let mut tx = UnitOfWork::new();
    let params = params_for(
        "obj-1",
        CollabType::Document,
        encode_collab(&ec),
        Some(EmbeddingsPayload { tokens_consumed: 42, index_params: vec![] }),
    );
    let err = cache
        .upsert_collab_with_transaction("not-a-uuid", &7, &params, &mut tx)
        .unwrap_err();
    assert_eq!(err, AppError::InvalidIdentifier);
    // The unit carries nothing: committing it changes nothing.
    cache.store.commit_unit(tx, 1_000);
    assert!(!cache.is_exist("obj-1").unwrap());
    assert!(cache.store.get_index_entry("obj-1").is_none());
}

#[test]
fn document_without_embeddings_writes_no_index_entry() {
    let ec = snapshot(b"sv", b"ds");
    let cache = cache_with_row("obj-1", CollabType::Document, &ec);
    assert!(cache.is_exist("obj-1").unwrap());
    assert!(cache.store.get_index_entry("obj-1").is_none());
}

#[test]
fn error_descriptions_name_the_failure() {
    assert_eq!(
        AppError::RecordNotFound("missing".to_string()).describe(),
        "missing"
    );
    assert_eq!(
        AppError::IndexWriteFailed.describe(),
        "embeddings index write failed"
    );
    assert_eq!(
        AppError::DecodeFailed.describe(),
        "collab payload failed to decode"
    );
    assert_eq!(
        AppError::InvalidIdentifier.describe(),
        "workspace identifier failed to parse"
    );
    assert_eq!(
        AppError::StoreUnavailable(StoreErrorKind::Other).describe(),
        "store unavailable"
    );
}
