//! Checkpoint documents and stores.
use std::collections::BTreeMap;

use rust_dcp::checkpoint::DcpCheckpoint;
use rust_dcp::checkpoint_couchbase::CouchbaseCheckpointCollectionSpec;
use rust_dcp::checkpoint_store::{
    check_existing, checkpoint_xattr, collect_write_failures, fresh_temporary, name_temporary,
    serialize_checkpoint_batch, write_failure, CheckpointDocuments, CheckpointStore, CouchbaseCheckpointStore, NoopCheckpointStore,
    ReadOnlyCheckpointStore, StoredCheckpointDocument,
};
use rust_dcp::config::{Credentials, DcpConfig};
use rust_dcp::error::DcpError;

fn checkpoint(vbucket: u16, seqno: u64, bucket_uuid: &str) -> DcpCheckpoint {
    DcpCheckpoint {
        bucket_uuid: Some(bucket_uuid.to_string()),
        vbucket,
        vbucket_uuid: 0xaaaa + u64::from(vbucket),
        seqno,
        snapshot_start: seqno.saturating_sub(1),
        snapshot_end: seqno,
        manifest_uid: Some(0xff),
    }
}

#[test]
fn file_store_is_atomic_go_compatible_and_bucket_scoped() {
    let mut store = CheckpointDocuments::new();
    store
        .save(&[checkpoint(7, 10, "bucket-id"), checkpoint(8, 20, "bucket-id")])
        .unwrap();

    let document = &store.documents()[&7];
    assert_eq!(document.bucket_uuid, "bucket-id");
    assert_eq!(document.vbucket_uuid, 0xaab1);
    assert_eq!(document.seqno, 10);
    assert_eq!(document.start_seqno, 9);

    let loaded = store.load("bucket-id", &[8, 7]).unwrap();
    assert_eq!(loaded[&7].seqno, 10);
    assert_eq!(loaded[&8].manifest_uid, Some(0xff));
    assert!(store.load("recreated-bucket", &[7]).is_err());
    assert!(store.save(&[checkpoint(7, 11, "recreated-bucket")]).is_err());

    store.clear("bucket-id", &[7]).unwrap();
    assert_eq!(store.load("bucket-id", &[7, 8]).unwrap().len(), 1);
    store.clear("bucket-id", &[8]).unwrap();
    assert!(store.is_empty());
}

#[test]
fn noop_store_always_loads_empty_and_accepts_writes_and_clears() {
    let mut store = NoopCheckpointStore;

    assert!(store.load("bucket-id", &[7, 8]).unwrap().is_empty());
    store.save(&[checkpoint(7, 10, "bucket-id")]).unwrap();
    store.clear("bucket-id", &[7]).unwrap();
    assert!(store.load("bucket-id", &[7]).unwrap().is_empty());
    assert_eq!(NoopCheckpointStore::new(), store);
}

#[test]
fn read_only_store_delegates_load_but_suppresses_save_and_clear() {
    let mut writable = CheckpointDocuments::new();
    writable.save(&[checkpoint(7, 10, "bucket-id")]).unwrap();
    let mut store = ReadOnlyCheckpointStore::new(writable);

    assert_eq!(store.load("bucket-id", &[7]).unwrap()[&7].seqno, 10);
    store.save(&[checkpoint(7, 20, "bucket-id")]).unwrap();
    store.clear("bucket-id", &[7]).unwrap();

    let mut writable = store.into_inner();
    assert_eq!(writable.load("bucket-id", &[7]).unwrap()[&7].seqno, 10);
    writable.clear("bucket-id", &[7]).unwrap();
    assert!(writable.is_empty());
}

#[test]
fn couchbase_store_uses_go_dcp_key_and_xattr_schema() {
    let store = CouchbaseCheckpointStore::new((), "group1").unwrap();
    assert_eq!(
        store.checkpoint_key(7),
        "_connector:cbgo:group1:checkpoint:7"
    );
    assert_eq!(checkpoint_xattr(), "cbgo");

    let batch = serialize_checkpoint_batch(&[checkpoint(7, 10, "bucket-id")]).unwrap();
    assert_eq!(batch[&7].seqno, 10);
    assert_eq!(batch[&7].bucket_uuid, "bucket-id");

    let loaded = batch[&7].to_checkpoint(7, "bucket-id").unwrap();
    assert_eq!(loaded.vbucket_uuid, 0xaab1);
    assert!(check_existing(7, "bucket-id", None).is_ok());
    assert!(check_existing(7, "bucket-id", Some(&batch[&7])).is_ok());
    assert!(check_existing(7, "recreated-bucket", Some(&batch[&7])).is_err());
}

#[test]
fn couchbase_group_matches_go_dcp_constraint() {
    assert!(CouchbaseCheckpointStore::new((), "").is_err());
    assert!(CouchbaseCheckpointStore::new((), "group.with.dot").is_err());
}

#[test]
fn stored_documents_read_back_as_written() {
    let written = checkpoint(7, 10, "bucket-id");
    let document = StoredCheckpointDocument::from_checkpoint(&written).unwrap();
    assert_eq!(document.to_checkpoint(7, "bucket-id").unwrap(), written);
    assert_eq!(
        document.to_checkpoint(7, "other").unwrap_err().to_text(),
        "checkpoint error: vBucket 7 checkpoint bucket UUID bucket-id does not match current bucket other"
    );
    let mut broken = document.clone();
    broken.end_seqno = 3;
    assert!(broken.to_checkpoint(7, "bucket-id").is_err());
}

#[test]
fn batches_hold_one_bucket_and_each_vbucket_once() {
    let mut nameless = checkpoint(7, 10, "bucket-id");
    nameless.bucket_uuid = None;
    assert_eq!(
        serialize_checkpoint_batch(&[nameless]).unwrap_err().to_text(),
        "checkpoint error: vBucket 7 checkpoint has no bucket UUID"
    );
    assert_eq!(
        serialize_checkpoint_batch(&[checkpoint(7, 10, "a"), checkpoint(8, 10, "b")])
            .unwrap_err()
            .to_text(),
        "checkpoint error: checkpoint batch mixes bucket UUID a and b"
    );
    assert_eq!(
        serialize_checkpoint_batch(&[checkpoint(7, 10, "a"), checkpoint(7, 11, "a")])
            .unwrap_err()
            .to_text(),
        "checkpoint error: duplicate vBucket 7 in checkpoint batch"
    );
    let mut broken = checkpoint(7, 10, "a");
    broken.snapshot_end = 4;
    assert!(serialize_checkpoint_batch(&[broken]).is_err());
    assert!(serialize_checkpoint_batch(&[]).unwrap().is_empty());
}

#[test]
fn refused_writes_leave_every_document_alone() {
    let mut store = CheckpointDocuments::from_documents(BTreeMap::new());
    store
        .save(&[checkpoint(7, 10, "a"), checkpoint(8, 10, "a")])
        .unwrap();
    assert!(store
        .save(&[checkpoint(6, 1, "b"), checkpoint(7, 1, "b")])
        .is_err());
    assert_eq!(store.documents().len(), 2);
    assert!(store.clear("b", &[8]).is_err());
    assert!(store.clear("a", &[7, 7]).is_err());
    assert!(store.load("a", &[7, 7]).is_err());
    assert_eq!(store.load("a", &[7, 8, 9]).unwrap().len(), 2);
    store.save(&[checkpoint(7, 11, "a")]).unwrap();
    assert_eq!(store.load("a", &[7]).unwrap()[&7].seqno, 11);
    assert_eq!(store.load("a", &[8]).unwrap()[&8].seqno, 10);
}

#[test]
fn stored_positions_outside_their_snapshot_are_refused() {
    let mut document = StoredCheckpointDocument {
        start_seqno: 5,
        end_seqno: 10,
        vbucket_uuid: 1,
        seqno: 0,
        bucket_uuid: "a".to_string(),
        manifest_uid: None,
    };
    assert!(matches!(
        document.to_checkpoint(7, "a"),
        Err(DcpError::Checkpoint(_))
    ));
    document.seqno = 5;
    assert!(document.to_checkpoint(7, "a").is_ok());
}

#[test]
fn replacement_files_are_named_afresh() {
    assert_eq!(
        name_temporary("dir/c.json", Some("c.json"), 7, &[0, 0, 0, 0, 0, 0, 1, 2]).unwrap(),
        ".c.json.tmp-7-258"
    );
    assert_eq!(
        name_temporary("dir/c.json", Some("c.json"), 7, &[255; 8]).unwrap(),
        ".c.json.tmp-7-18446744073709551615"
    );
    assert_eq!(
        name_temporary("dir/?", None, 7, &[0; 8]).unwrap_err().to_text(),
        "checkpoint store error: checkpoint path dir/? has a non-UTF-8 file name"
    );
    let one = fresh_temporary("dir/c.json", Some("c.json"), 7).unwrap();
    let two = fresh_temporary("dir/c.json", Some("c.json"), 7).unwrap();
    assert!(one.starts_with(".c.json.tmp-7-"));
    assert_ne!(one, two);
}

#[test]
fn failed_writes_are_listed_together() {
    assert_eq!(
        write_failure(7, &DcpError::CheckpointStore("busy".to_string())),
        "vBucket 7: checkpoint store error: busy"
    );
    assert!(collect_write_failures("save", &Vec::new()).is_ok());
    let failures = vec!["vBucket 7: busy".to_string(), "vBucket 9: gone".to_string()];
    assert_eq!(
        collect_write_failures("save", &failures).unwrap_err().to_text(),
        "checkpoint store error: Couchbase checkpoint save failed: vBucket 7: busy; vBucket 9: gone"
    );
}

#[test]
fn built_in_adapter_takes_its_collection_from_the_configuration() {
    let config = || {
        DcpConfig::builder(Credentials::new("alice", "secret"), "travel")
            .seed("cb.example.test", None)
            .unwrap_or_else(|_| panic!("seed is valid"))
            .build()
            .unwrap_or_else(|_| panic!("config is valid"))
    };
    let store = CouchbaseCheckpointStore::from_config(config(), "group1")
        .unwrap_or_else(|_| panic!("settings are valid"));
    assert_eq!(store.collection().collection().scope(), "_default");
    assert_eq!(store.collection().bounds(), (3, 16));
    let named = CouchbaseCheckpointCollectionSpec::new("inventory", "metadata").unwrap();
    let store = CouchbaseCheckpointStore::from_config_in_collection(config(), named, "group1")
        .unwrap_or_else(|_| panic!("settings are valid"));
    assert_eq!(store.collection().collection().collection(), "metadata");
    assert_eq!(store.collection().config().bucket, "travel");
    assert!(matches!(
        CouchbaseCheckpointStore::from_config(config(), "a.b"),
        Err(DcpError::InvalidConfiguration(_))
    ));
}
