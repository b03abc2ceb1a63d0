use collab_store::codec::{decode_collab, encode_collab};
use collab_store::entity::{EncodedCollab, EncoderVersion};
use collab_store::errors::StoreErrorKind;
use collab_store::retry::{retry_decision, RetryDecision, BACKOFF_UNIT_MS, MAX_FETCH_ATTEMPTS};

#[test]
fn codec_round_trips_a_snapshot() {
    let ec = EncodedCollab {
        state_vector: vec![1, 2, 3],
        doc_state: vec![10, 20, 30, 40],
        version: EncoderVersion::V2,
    };
    let blob = encode_collab(&ec);
    assert_eq!(decode_collab(&blob), Some(ec));
}

#[test]
fn codec_round_trips_empty_payloads() {
    let ec = EncodedCollab {
        state_vector: vec![],
        doc_state: vec![],
        version: EncoderVersion::V1,
    };
    let blob = encode_collab(&ec);
    assert_eq!(blob.len(), 9);
    assert_eq!(decode_collab(&blob), Some(ec));
}

#[test]
fn codec_layout_is_version_then_length_prefixed_parts() {
    let ec = EncodedCollab {
        state_vector: vec![7],
        doc_state: vec![8, 9],
        version: EncoderVersion::V1,
    };
    let blob = encode_collab(&ec);
    assert_eq!(blob, vec![1, 1, 0, 0, 0, 7, 2, 0, 0, 0, 8, 9]);
}

#[test]
fn malformed_blobs_do_not_decode() {
    // Too short.
    assert_eq!(decode_collab(&vec![]), None);
    assert_eq!(decode_collab(&vec![1, 0, 0, 0]), None);
    // Unknown version byte.
    assert_eq!(decode_collab(&vec![3, 0, 0, 0, 0, 0, 0, 0, 0]), None);
    // State-vector length overruns the blob.
    assert_eq!(decode_collab(&vec![1, 5, 0, 0, 0, 0, 0, 0, 0]), None);
    // Trailing bytes.
    assert_eq!(decode_collab(&vec![1, 0, 0, 0, 0, 0, 0, 0, 0, 99]), None);
}

#[test]
fn retry_policy_is_linear_backoff_on_pool_exhaustion_only() {
    assert_eq!(
        retry_decision(StoreErrorKind::PoolExhausted, 1, MAX_FETCH_ATTEMPTS),
        RetryDecision::Retry { after_ms: 500 }
    );
    assert_eq!(
        retry_decision(StoreErrorKind::PoolExhausted, 2, MAX_FETCH_ATTEMPTS),
        RetryDecision::Retry { after_ms: 1000 }
    );
    assert_eq!(
        retry_decision(StoreErrorKind::PoolExhausted, 3, MAX_FETCH_ATTEMPTS),
        RetryDecision::GiveUp
    );
    assert_eq!(
        retry_decision(StoreErrorKind::RowNotFound, 1, MAX_FETCH_ATTEMPTS),
        RetryDecision::GiveUp
    );
    assert_eq!(
        retry_decision(StoreErrorKind::Other, 1, MAX_FETCH_ATTEMPTS),
        RetryDecision::GiveUp
    );
    assert_eq!(BACKOFF_UNIT_MS, 500);
    assert_eq!(MAX_FETCH_ATTEMPTS, 3);
}
