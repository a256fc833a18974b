//! Assignments, checkpoints, configuration, events and observability.
use rust_dcp::address::endpoint_host;
use rust_dcp::assignment::VBucketAssignment;
use rust_dcp::checkpoint::DcpCheckpoint;
use rust_dcp::config::{
    CheckpointConfig, CheckpointMode, CollectionFilter, Credentials, DcpConfig, DcpMode,
    PositiveCount, RollbackPolicy, SeedAddress,
};
use rust_dcp::error::{DcpError, ProtocolError};
use rust_dcp::event::{DataType, DcpEvent, DcpMutation, SeqNoAdvanced};
use rust_dcp::interval::Interval;
use rust_dcp::observability::{DcpHealth, DcpHealthStatus, DcpMetrics};

#[test]
fn assignment_is_sorted_and_deduplicated() {
    let assignment = VBucketAssignment::new(4, &[3, 1, 3, 2]);

    assert_eq!(assignment.vbuckets(), vec![1, 2, 3]);
    assert_eq!(assignment.generation(), 4);
    assert!(assignment.owns(2));
    assert!(!assignment.owns(9));
}

#[test]
fn balanced_shares_are_contiguous_and_cover_the_bucket() {
    let first = VBucketAssignment::balanced(7, 10, 1, 3).unwrap();
    let second = VBucketAssignment::balanced(7, 10, 2, 3).unwrap();
    let third = VBucketAssignment::balanced(7, 10, 3, 3).unwrap();
    assert_eq!(first.vbuckets(), vec![0, 1, 2, 3]);
    assert_eq!(second.vbuckets(), vec![4, 5, 6]);
    assert_eq!(third.vbuckets(), vec![7, 8, 9]);
    assert_eq!(first.generation(), 7);
    assert!(VBucketAssignment::balanced(7, 0, 1, 1).is_err());
    assert!(VBucketAssignment::balanced(7, 10, 1, 11).is_err());
    assert!(VBucketAssignment::balanced(7, 10, 0, 3).is_err());
    assert!(VBucketAssignment::balanced(7, 10, 4, 3).is_err());
    assert!(VBucketAssignment::balanced(7, 65_537, 1, 1).is_err());
}

#[test]
fn earliest_checkpoint_is_valid() {
    assert!(DcpCheckpoint::earliest(7).validate().is_ok());
}

#[test]
fn checkpoint_rejects_position_outside_snapshot() {
    let checkpoint = DcpCheckpoint {
        seqno: 12,
        snapshot_start: 1,
        snapshot_end: 10,
        ..DcpCheckpoint::earliest(7)
    };

    assert!(matches!(checkpoint.validate(), Err(DcpError::Checkpoint(_))));
}

#[test]
fn checkpoint_faults_are_described() {
    let reversed = DcpCheckpoint {
        seqno: 5,
        snapshot_start: 9,
        snapshot_end: 4,
        ..DcpCheckpoint::earliest(7)
    };
    assert_eq!(
        reversed.validate().unwrap_err().to_text(),
        "checkpoint error: snapshot start 9 exceeds snapshot end 4 for vBucket 7"
    );
    let before = DcpCheckpoint {
        seqno: 3,
        snapshot_start: 4,
        snapshot_end: 9,
        ..DcpCheckpoint::earliest(7)
    };
    assert!(matches!(before.validate(), Err(DcpError::Checkpoint(_))));
    let zero = DcpCheckpoint {
        seqno: 0,
        snapshot_start: 4,
        snapshot_end: 9,
        ..DcpCheckpoint::earliest(7)
    };
    assert_eq!(
        zero.validate().unwrap_err().to_text(),
        "checkpoint error: seqno 0 precedes snapshot start 4 for vBucket 7"
    );
    assert!(matches!(
        DcpCheckpoint::earliest(7).advanced_to(0, 5, 10),
        Err(DcpError::Checkpoint(_))
    ));
    assert!(DcpCheckpoint::earliest(7).advanced_to(0, 0, 10).is_ok());
}

#[test]
fn checkpoint_cannot_advance_backwards() {
    let checkpoint = DcpCheckpoint {
        seqno: 8,
        snapshot_start: 5,
        snapshot_end: 10,
        ..DcpCheckpoint::earliest(3)
    };

    assert!(checkpoint.advanced_to(7, 5, 10).is_err());
}

#[test]
fn checkpoint_advances_within_a_snapshot() {
    let checkpoint = DcpCheckpoint {
        bucket_uuid: Some("bucket".to_string()),
        vbucket_uuid: 4,
        ..DcpCheckpoint::earliest(3)
    };
    let moved = checkpoint.advanced_to(7, 5, 10).unwrap();
    assert_eq!(
        (moved.seqno, moved.snapshot_start, moved.snapshot_end),
        (7, 5, 10)
    );
    assert_eq!(moved.bucket_uuid.as_deref(), Some("bucket"));
    assert_eq!(moved.vbucket_uuid, 4);
}

#[test]
fn credentials_do_not_leak_password_in_debug() {
    let credentials = Credentials::new("alice", "correct horse battery staple");
    let rendered = credentials.debug_text();

    assert!(rendered.contains("alice"));
    assert!(!rendered.contains("correct horse"));
}

#[test]
fn builder_rejects_missing_seed() {
    let result = DcpConfig::builder(Credentials::new("alice", "secret"), "bucket").build();

    assert!(matches!(result, Err(DcpError::InvalidConfiguration(_))));
}

#[test]
fn builder_produces_go_dcp_compatible_defaults() {
    let config = DcpConfig::builder(Credentials::new("alice", "secret"), "bucket")
        .seed("cb.example.test", None)
        .unwrap_or_else(|_| panic!("seed is valid"))
        .build()
        .unwrap_or_else(|_| panic!("config is valid"));

    assert_eq!(config.mode, DcpMode::Infinite);
    assert_eq!(config.collections, CollectionFilter::default());
    assert_eq!(config.rollback_policy, RollbackPolicy::StopAndReport);
    assert_eq!(
        config.seeds[0].with_default_kv_port(false),
        "cb.example.test:11210"
    );
}

#[test]
fn duplicate_collection_filter_is_rejected() {
    let result = DcpConfig::builder(Credentials::new("alice", "secret"), "bucket")
        .seed("localhost", None)
        .unwrap_or_else(|_| panic!("seed is valid"))
        .collections(CollectionFilter {
            scope: "inventory".to_string(),
            collections: vec!["airline".to_string(), "airline".to_string()],
        })
        .build();

    assert!(result.is_err());
}

#[test]
fn ipv6_seed_gets_brackets_and_default_port() {
    assert_eq!(SeedAddress::ipv6_text("2001:db8::1"), Some("2001:db8::1"));
    let seed = SeedAddress::parse("2001:db8::1", None).unwrap();
    assert_eq!(seed.with_default_kv_port(true), "[2001:db8::1]:11207");
}

#[test]
fn invalid_explicit_seed_port_is_rejected() {
    assert!(SeedAddress::parse("cb.example.test:70000", None).is_err());
    assert!(SeedAddress::parse("[2001:db8::1]:0", None).is_err());
}

#[test]
fn seed_texts_are_checked() {
    assert_eq!(SeedAddress::ipv6_text("[2001:db8::1]:11210"), Some("2001:db8::1"));
    assert!(SeedAddress::parse("[2001:db8::1]:11210", None).is_ok());
    assert!(SeedAddress::parse("[not-an-address]:1", Some("bad".to_string())).is_err());
    assert!(SeedAddress::parse("  ", None).is_err());
    assert!(SeedAddress::parse("couchbase://host", None).is_err());
    assert!(SeedAddress::parse("host:", None).is_err());
    assert_eq!(SeedAddress::parse(" host ", None).unwrap().as_str(), "host");
    assert_eq!(
        SeedAddress::parse("host:12000", None).unwrap().with_default_kv_port(false),
        "host:12000"
    );
}

#[test]
fn seed_with_its_port_is_a_seed_that_keeps_it() {
    for (text, expected) in [
        ("host", "host:11207"),
        ("host:12000", "host:12000"),
        ("2001:db8::1", "[2001:db8::1]:11207"),
        ("[2001:db8::1]", "[2001:db8::1]:11207"),
        ("[2001:db8::1]:12000", "[2001:db8::1]:12000"),
    ] {
        let full = SeedAddress::parse(text, None)
            .unwrap()
            .with_default_kv_port(true);
        assert_eq!(full, expected);
        let again = SeedAddress::parse(&full, None).unwrap();
        assert_eq!(again.as_str(), full);
        assert_eq!(again.with_default_kv_port(false), full);
        if text.contains("::") {
            assert_eq!(SeedAddress::ipv6_text(&full), Some("2001:db8::1"));
        }
    }
}

#[test]
fn configuration_bounds_are_checked() {
    assert!(PositiveCount::new(0).is_none());
    assert_eq!(PositiveCount::new(3).unwrap().get(), 3);
    let zero_timeout = CheckpointConfig {
        mode: CheckpointMode::Manual,
        timeout: Interval::from_secs(0),
    };
    assert!(zero_timeout.validate().is_err());
    let zero_interval = CheckpointConfig {
        mode: CheckpointMode::Automatic {
            flush_interval: Interval::from_secs(0),
        },
        timeout: Interval::from_secs(1),
    };
    assert!(zero_interval.validate().is_err());
    let blank_user = DcpConfig::builder(Credentials::new(" ", "secret"), "bucket")
        .seed("localhost", None)
        .unwrap_or_else(|_| panic!("seed is valid"))
        .build();
    assert!(blank_user.is_err());
    let blank_bucket = DcpConfig::builder(Credentials::new("alice", "secret"), "")
        .seed("localhost", None)
        .unwrap_or_else(|_| panic!("seed is valid"))
        .build();
    assert!(blank_bucket.is_err());
}

#[test]
fn seqno_advanced_is_visible_to_progress_chain() {
    let event = DcpEvent::SeqNoAdvanced(SeqNoAdvanced {
        vbucket: 12,
        seqno: 99,
    });

    assert_eq!(event.vbucket(), 12);
    assert_eq!(event.seqno(), Some(99));
}

#[test]
fn datatype_preserves_future_bits() {
    let datatype = DataType::from_bits_retain(0x83);

    assert!(datatype.contains(DataType::from_bits_retain(DataType::JSON)));
    assert!(datatype.contains(DataType::from_bits_retain(DataType::SNAPPY)));
    assert_eq!(datatype.bits(), 0x83);
}

#[test]
fn mutation_creation_matches_revision_one() {
    let mutation = DcpMutation {
        vbucket: 1,
        seqno: 2,
        rev_seqno: 1,
        flags: 0,
        expiry: 0,
        lock_time: 0,
        cas: 0,
        datatype: DataType::from_bits_retain(0),
        collection_id: None,
        collection_name: None,
        key: b"key".to_vec(),
        value: b"value".to_vec(),
    };

    assert!(mutation.is_created());
}

#[test]
fn metrics_snapshot_separates_lifecycle_delivery_and_processing_counters() {
    let mut metrics = DcpMetrics::default();
    metrics.record_bootstrap_attempt();
    metrics.record_bootstrap_success();
    metrics.set_active_connections(2);
    metrics.set_assigned_vbuckets(16);
    metrics.record_delivery(&DcpEvent::SeqNoAdvanced(SeqNoAdvanced {
        vbucket: 7,
        seqno: 42,
    }));
    metrics.record_processed();
    metrics.record_reconnect();
    metrics.record_stale_generation_drop();
    metrics.record_rollback_mitigation_delay();
    metrics.record_rollback_mitigation_failure();

    let snapshot = metrics.snapshot();
    assert_eq!(snapshot.bootstrap_attempts, 1);
    assert_eq!(snapshot.bootstrap_successes, 1);
    assert_eq!(snapshot.active_connections, 2);
    assert_eq!(snapshot.assigned_vbuckets, 16);
    assert_eq!(snapshot.delivered_events, 1);
    assert_eq!(snapshot.seqno_advanced_events, 1);
    assert_eq!(snapshot.processed_events, 1);
    assert_eq!(snapshot.reconnects, 1);
    assert_eq!(snapshot.stale_generation_drops, 1);
    assert_eq!(snapshot.rollback_mitigation_delays, 1);
    assert_eq!(snapshot.rollback_mitigation_failures, 1);
}

#[test]
fn health_state_records_failures_recovery_and_stop() {
    let mut health = DcpHealth::default();
    assert_eq!(health.snapshot().status, DcpHealthStatus::Starting);

    let checked_at = Interval::from_secs(10);
    health.record_success(checked_at, 3, 7);
    let healthy = health.snapshot();
    assert_eq!(healthy.status, DcpHealthStatus::Healthy);
    assert_eq!(healthy.last_check, Some(checked_at));
    assert_eq!(healthy.active_connections, 3);
    assert_eq!(healthy.topology_generation, 7);

    health.record_failure(checked_at, "probe timed out".to_string());
    let degraded = health.snapshot();
    assert_eq!(degraded.status, DcpHealthStatus::Degraded);
    assert_eq!(degraded.consecutive_failures, 1);
    assert_eq!(degraded.message.as_deref(), Some("probe timed out"));

    health.record_success(checked_at, 2, 8);
    assert_eq!(health.snapshot().consecutive_failures, 0);
    health.record_stopped(checked_at);
    assert_eq!(health.snapshot().status, DcpHealthStatus::Stopped);
}

#[test]
fn rollback_metric_saturates_instead_of_wrapping() {
    let mut metrics = DcpMetrics::default();

    metrics.record_rollbacks(usize::MAX);
    let before = metrics.snapshot().rollbacks;
    metrics.record_rollbacks(1);

    assert_eq!(metrics.snapshot().rollbacks, before.saturating_add(1));
}

#[test]
fn endpoint_host_handles_dns_ipv4_and_ipv6() {
    assert_eq!(endpoint_host("cb.example.test:11207"), "cb.example.test");
    assert_eq!(endpoint_host("127.0.0.1:11207"), "127.0.0.1");
    assert_eq!(endpoint_host("[2001:db8::1]:11207"), "2001:db8::1");
    assert_eq!(endpoint_host("2001:db8::1"), "2001:db8::1");
}

#[test]
fn protocol_error_converts_to_public_error() {
    let error = DcpError::from(ProtocolError::InvalidMagic(0));
    assert!(matches!(error, DcpError::Protocol(ProtocolError::InvalidMagic(0))));
}

#[test]
fn errors_are_rendered_for_people() {
    assert_eq!(
        DcpError::ServerStatus {
            status: 0x86,
            opcode: 0x5e,
            message: "busy".to_string(),
        }
        .to_text(),
        "server returned status 0x0086 for opcode 0x5e: busy"
    );
    assert_eq!(
        DcpError::Timeout(Interval::from_millis(1_500)).to_text(),
        "operation timed out after 1.5s"
    );
    assert_eq!(
        DcpError::DeadConnection {
            peer: "node".to_string(),
            idle_for: Interval::from_millis(20),
        }
        .to_text(),
        "KV peer node was silent for 20ms"
    );
    assert_eq!(
        DcpError::RollbackRequired {
            vbucket: 3,
            requested_seqno: 9,
            rollback_seqno: 4,
            failover_log: Vec::new(),
        }
        .to_text(),
        "vBucket 3 requires rollback from seqno 9 to 4"
    );
    assert_eq!(
        DcpError::StaleGeneration {
            observed: 1,
            current: 2,
        }
        .to_text(),
        "stale assignment generation 1; current generation is 2"
    );
    assert_eq!(DcpError::Cancelled.to_text(), "operation cancelled");
    assert_eq!(
        DcpError::Stream {
            vbucket: 8,
            message: "gone".to_string(),
        }
        .to_text(),
        "stream error for vBucket 8: gone"
    );
}
