//! Checkpoint documents in a Couchbase collection.
use rust_dcp::auth::SaslMechanism;
use rust_dcp::bootstrap::{BootstrapCapabilities, HelloFeature};
use rust_dcp::checkpoint_couchbase::{
    validate_document_key, validate_response_envelope, CheckpointKvOperation, CheckpointKvResult,
    CheckpointTarget, CouchbaseCheckpointCollectionSpec, CouchbaseKvCheckpointCollection,
    STATUS_COLLECTION_UNKNOWN,
};
use rust_dcp::config::{Credentials, DcpConfig, PositiveCount};
use rust_dcp::error::DcpError;
use rust_dcp::protocol::{
    Frame, OPCODE_DELETE, OPCODE_GET, OPCODE_SUBDOC_MULTI_LOOKUP, OPCODE_SUBDOC_MULTI_MUTATION,
    STATUS_INVALID_ARGUMENTS, STATUS_KEY_NOT_FOUND, STATUS_NOT_MY_VBUCKET, STATUS_SUCCESS,
};

fn config() -> DcpConfig {
    DcpConfig::builder(Credentials::new("alice", "secret"), "travel")
        .seed("cb.example.test", None)
        .unwrap_or_else(|_| panic!("seed is valid"))
        .build()
        .unwrap_or_else(|_| panic!("config is valid"))
}

fn adapter() -> CouchbaseKvCheckpointCollection {
    CouchbaseKvCheckpointCollection::new(config()).unwrap_or_else(|_| panic!("config is valid"))
}

#[test]
fn checkpoint_collection_spec_and_runtime_bounds_are_validated() {
    let default = CouchbaseCheckpointCollectionSpec::default();
    assert_eq!(default.scope(), "_default");
    assert_eq!(default.collection(), "_default");
    assert!(CouchbaseCheckpointCollectionSpec::new("inventory", "metadata").is_ok());
    assert!(CouchbaseCheckpointCollectionSpec::new("bad.scope", "metadata").is_err());

    let collection = adapter()
        .routing_attempts(PositiveCount::new(4).unwrap())
        .max_concurrency(PositiveCount::new(8).unwrap());
    assert_eq!(collection.bounds(), (4, 8));
}

#[test]
fn checkpoint_kv_operations_build_collection_aware_requests() {
    let get = CheckpointKvOperation::GetXattr {
        xattr: "cbgo".to_string(),
    }
    .request("checkpoint", Some(0xcafe), 12);
    assert_eq!(get.opcode, OPCODE_SUBDOC_MULTI_LOOKUP);
    assert_eq!(get.collection_id, Some(0xcafe));
    assert_eq!(get.vbucket, 12);
    assert_eq!(get.key, b"checkpoint".to_vec());
    assert_eq!(get.xattr, b"cbgo".to_vec());

    let upsert = CheckpointKvOperation::UpsertXattr {
        xattr: "cbgo".to_string(),
        value: br#"{"seqno":42}"#.to_vec(),
    }
    .request("checkpoint", Some(0xcafe), 12);
    assert_eq!(upsert.opcode, OPCODE_SUBDOC_MULTI_MUTATION);
    assert_eq!(&upsert.extras[..], &[0x01]);
    assert_eq!(upsert.value, br#"{"seqno":42}"#.to_vec());

    let remove = CheckpointKvOperation::RemoveDocument.request("checkpoint", Some(0xcafe), 12);
    assert_eq!(remove.opcode, OPCODE_DELETE);
}

#[test]
fn checkpoint_kv_results_preserve_absence_and_idempotent_delete() {
    let get = CheckpointKvOperation::GetXattr {
        xattr: "cbgo".to_string(),
    };
    let missing = Frame::response(OPCODE_SUBDOC_MULTI_LOOKUP, STATUS_KEY_NOT_FOUND);
    assert!(matches!(
        get.parse_response(&missing, Ok(Some(Vec::new()))).unwrap(),
        CheckpointKvResult::Xattr(None)
    ));

    let remove = CheckpointKvOperation::RemoveDocument;
    assert!(matches!(
        remove
            .parse_response(
                &Frame::response(OPCODE_DELETE, STATUS_KEY_NOT_FOUND),
                Ok(None),
            )
            .unwrap(),
        CheckpointKvResult::Mutation
    ));
    assert!(remove
        .parse_response(
            &Frame::response(OPCODE_DELETE, STATUS_INVALID_ARGUMENTS),
            Ok(None),
        )
        .is_err());
}

#[test]
fn checkpoint_kv_results_follow_the_decoded_body() {
    let found = Frame::response(OPCODE_SUBDOC_MULTI_LOOKUP, STATUS_SUCCESS);
    let get = CheckpointKvOperation::GetXattr {
        xattr: "cbgo".to_string(),
    };
    let value = get.parse_response(&found, Ok(Some(b"{}".to_vec()))).unwrap();
    assert_eq!(value.into_xattr().unwrap(), Some(b"{}".to_vec()));
    assert!(get.parse_response(&found, Err(DcpError::Cancelled)).is_err());
    let upsert = CheckpointKvOperation::UpsertXattr {
        xattr: "cbgo".to_string(),
        value: Vec::new(),
    };
    let changed = upsert.parse_response(&found, Ok(None)).unwrap();
    assert_eq!(
        changed.into_xattr().unwrap_err().to_text(),
        "checkpoint store error: checkpoint KV XATTR lookup returned an incompatible result"
    );
    assert!(CheckpointKvResult::Xattr(None)
        .into_mutation("XATTR upsert")
        .is_err());
    assert!(CheckpointKvResult::Mutation.into_mutation("XATTR upsert").is_ok());
}

#[test]
fn checkpoint_kv_response_envelope_rejects_wrong_direction_and_opcode() {
    assert!(validate_response_envelope(&Frame::request(OPCODE_DELETE), OPCODE_DELETE).is_err());
    assert!(validate_response_envelope(
        &Frame::response(OPCODE_GET, STATUS_SUCCESS),
        OPCODE_DELETE,
    )
    .is_err());
    assert!(validate_response_envelope(
        &Frame::response(OPCODE_DELETE, STATUS_SUCCESS),
        OPCODE_DELETE,
    )
    .is_ok());
}

#[test]
fn checkpoint_routing_is_retried_a_bounded_number_of_times() {
    let adapter = adapter();
    let ok = Frame::response(OPCODE_DELETE, STATUS_SUCCESS);
    assert!(!adapter.routing_step(&ok, OPCODE_DELETE, 1).unwrap());
    for status in [STATUS_NOT_MY_VBUCKET, STATUS_COLLECTION_UNKNOWN] {
        let moved = Frame::response(OPCODE_DELETE, status);
        assert!(adapter.routing_step(&moved, OPCODE_DELETE, 1).unwrap());
        assert!(adapter.routing_step(&moved, OPCODE_DELETE, 2).unwrap());
        assert_eq!(
            adapter
                .routing_step(&moved, OPCODE_DELETE, 3)
                .unwrap_err()
                .to_text(),
            "checkpoint store error: checkpoint KV owner or collection changed during all 3 routing attempts"
        );
    }
}

#[test]
fn checkpoint_collection_needs_server_support() {
    let default = CouchbaseCheckpointCollectionSpec::default();
    let named = CouchbaseCheckpointCollectionSpec::new("inventory", "metadata").unwrap();
    assert_eq!(default.target(false).unwrap(), CheckpointTarget::Legacy);
    assert_eq!(default.target(true).unwrap(), CheckpointTarget::Known(0));
    assert_eq!(named.target(true).unwrap(), CheckpointTarget::Lookup);
    assert!(matches!(named.target(false), Err(DcpError::Unsupported(_))));

    let mut capabilities = BootstrapCapabilities {
        hello_features: Vec::new(),
        sasl_mechanism: SaslMechanism::Plain,
        dcp_controls: Vec::new(),
    };
    assert!(default.check_node(&capabilities, None).is_err());
    capabilities.hello_features.push(HelloFeature::Xattr);
    assert!(default.check_node(&capabilities, None).is_ok());
    assert!(named.check_node(&capabilities, Some(8)).is_err());
    capabilities.hello_features.push(HelloFeature::Collections);
    assert!(named.check_node(&capabilities, Some(8)).is_ok());
}

#[test]
fn checkpoint_document_keys_are_bounded_in_bytes() {
    assert!(validate_document_key("").is_err());
    assert!(validate_document_key(&"k".repeat(250)).is_ok());
    assert!(validate_document_key(&"k".repeat(251)).is_err());
    assert!(validate_document_key(&"\u{e9}".repeat(125)).is_ok());
    assert!(validate_document_key(&"\u{e9}".repeat(126)).is_err());
}
