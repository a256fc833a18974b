//! Decisions of the client and of its subscription.
use std::collections::BTreeMap;

use rust_dcp::assignment::{AssignmentMode, VBucketAssignment};
use rust_dcp::bucket_config::{
    RawBucketConfig, RawNodeExt, RawNodeServices, RawVBucketServerMap,
};
use rust_dcp::checkpoint::{DcpCheckpoint, FailoverEntry};
use rust_dcp::client::{
    accept_delivery, after_generation, close_outcome, combine_generation_shutdown,
    finish_subscription, initial_reconnect_backoff, is_retryable, keep_first_failure,
    next_connection_generation, next_reconnect_backoff, record_activation, record_connect,
    record_probe, resolve_assignment, resolve_initial_starts, returned_error, apply_topology_candidate,
    ClientLifecycle, DcpDelivery, DcpSubscriptionSpec, GenerationAction, GenerationEnd, ReopenLoop,
    ReopenStep, SessionStep, StreamInput, SubscriptionCompletion, SubscriptionSession,
    TopologySnapshot,
};
use rust_dcp::collections::{
    CollectionManifest, CollectionRegistry, CollectionRegistryStatus, CollectionSelection,
    WireCollection, WireManifest, WireScope,
};
use rust_dcp::config::{
    CheckpointConfig, CheckpointMode, CollectionFilter, DcpMode, RollbackPolicy, StartPosition,
};
use rust_dcp::error::{DcpError, Result};
use rust_dcp::event::{
    DataType, DcpDeletion, DcpEvent, DcpExpiration, DcpMutation, SeqNoAdvanced, SnapshotFlags,
    SnapshotMarker,
};
use rust_dcp::generation::{
    assigned_end, assigned_high_seqno, assigned_start, bucket_identity, count_preflight_rollbacks,
    node_endpoint, plan_generation, resolve_vbucket_request, validate_opened_partitions,
    OpenedPartitions,
};
use rust_dcp::interval::Interval;
use rust_dcp::observability::{DcpHealth, DcpHealthStatus, DcpMetrics};
use rust_dcp::rollback_mitigation::{
    mitigation_position, MitigationSnapshot, ObservationOutcome, WaitStep,
};
use rust_dcp::stream::{
    PartitionOpenState, RollbackAction, RollbackApplied, RollbackHandler, RollbackRequest,
    StreamOpenReport,
};
use rust_dcp::topology::{ClusterTopology, TopologyNetwork, TopologyState};

struct Handler {
    action: RollbackAction,
}

impl RollbackHandler for Handler {
    fn handle(&self, request: RollbackRequest) -> Result<RollbackAction> {
        assert_eq!(request.checkpoint.seqno, 100);
        assert_eq!(request.rollback_seqno, 80);
        Ok(self.action)
    }
}

fn node(uuid: &str, hostname: &str) -> RawNodeExt {
    RawNodeExt {
        hostname: Some(hostname.to_string()),
        services: RawNodeServices {
            kv: 11210,
            kv_ssl: 11207,
        },
        alternate_addresses: Vec::new(),
        node_uuid: Some(uuid.to_string()),
        server_group: None,
    }
}

fn topology(revision: i64) -> ClusterTopology {
    RawBucketConfig {
        rev: revision,
        rev_epoch: 2,
        name: "travel".to_string(),
        uuid: "bucket-uuid".to_string(),
        node_locator: "vbucket".to_string(),
        nodes_ext: vec![node("node-a", "127.0.0.1")],
        v_bucket_server_map: RawVBucketServerMap {
            hash_algorithm: "CRC".to_string(),
            num_replicas: 0,
            server_list: vec!["127.0.0.1:11210".to_string()],
            v_bucket_map: vec![vec![0]],
        },
    }
    .build("127.0.0.1:11210", false, &TopologyNetwork::Default)
    .unwrap()
}

fn manual() -> CheckpointConfig {
    CheckpointConfig {
        mode: CheckpointMode::Manual,
        timeout: Interval::from_secs(1),
    }
}

fn checkpoint(seqno: u64, vbucket_uuid: u64) -> DcpCheckpoint {
    DcpCheckpoint {
        bucket_uuid: Some("bucket-uuid".to_string()),
        vbucket: 0,
        vbucket_uuid,
        seqno,
        snapshot_start: seqno,
        snapshot_end: seqno,
        manifest_uid: None,
    }
}

fn registry() -> CollectionRegistry {
    let manifest = CollectionManifest::from_wire(&WireManifest {
        uid: "7".to_string(),
        scopes: vec![WireScope {
            uid: "0".to_string(),
            name: "_default".to_string(),
            collections: vec![WireCollection {
                uid: "0".to_string(),
                name: "_default".to_string(),
                max_ttl: 0,
                history: None,
            }],
        }],
    })
    .unwrap();
    CollectionRegistry::new(CollectionSelection::from_resolved(
        manifest
            .resolve(&CollectionFilter::default(), None)
            .unwrap(),
    ))
}

fn now() -> Interval {
    Interval::from_secs(1_000)
}

struct Client {
    lifecycle: ClientLifecycle,
    topology: TopologyState,
    metrics: DcpMetrics,
    health: DcpHealth,
}

fn connect() -> Client {
    let mut metrics = DcpMetrics::default();
    let mut health = DcpHealth::default();
    let topology = record_connect(Ok(topology(7)), &mut metrics, &mut health, now())
        .unwrap_or_else(|_| panic!("discovery succeeds"));
    Client {
        lifecycle: ClientLifecycle::new(),
        topology,
        metrics,
        health,
    }
}

fn session_with(
    client: &mut Client,
    mode: DcpMode,
    skip_until: Option<Interval>,
    fallback: StartPosition,
    effective: DcpCheckpoint,
    end_seqno: u64,
) -> (SubscriptionSession, BTreeMap<u16, StartPosition>) {
    let loaded = BTreeMap::new();
    let (vbuckets, fence) =
        resolve_assignment(&AssignmentMode::Standalone, client.topology.topology()).unwrap();
    let starts = resolve_initial_starts(&vbuckets, &loaded, &fallback).unwrap();
    let session = SubscriptionSession::start(
        mode,
        skip_until,
        client.topology.generation(),
        fence,
        &manual(),
        &starts,
        &loaded,
        &BTreeMap::from([(0, effective)]),
        BTreeMap::from([(0, end_seqno)]),
        1,
        registry(),
    )
    .unwrap_or_else(|_| panic!("the generation is valid"));
    record_activation(
        vbuckets.len(),
        1,
        0,
        client.topology.generation(),
        &mut client.metrics,
        &mut client.health,
        now(),
    );
    (session, starts)
}

fn session(client: &mut Client, effective: DcpCheckpoint) -> SubscriptionSession {
    session_with(
        client,
        DcpMode::Infinite,
        None,
        StartPosition::Earliest,
        effective,
        u64::MAX,
    )
    .0
}

fn snapshot_range(vbucket: u16, start_seqno: u64, end_seqno: u64) -> DcpEvent {
    DcpEvent::SnapshotMarker(SnapshotMarker {
        vbucket,
        start_seqno,
        end_seqno,
        flags: SnapshotFlags(SnapshotFlags::MEMORY),
        high_completed_seqno: None,
        max_visible_seqno: None,
        purge_seqno: None,
    })
}

fn snapshot(vbucket: u16, seqno: u64) -> DcpEvent {
    snapshot_range(vbucket, seqno, seqno)
}

fn mutation(vbucket: u16, seqno: u64, cas: u64) -> DcpEvent {
    DcpEvent::Mutation(DcpMutation {
        vbucket,
        seqno,
        rev_seqno: 1,
        flags: 0,
        expiry: 0,
        lock_time: 0,
        cas,
        datatype: DataType(0),
        collection_id: Some(0),
        collection_name: None,
        key: b"key".to_vec(),
        value: b"value".to_vec(),
    })
}

fn deletion(vbucket: u16, seqno: u64, cas: u64) -> DcpEvent {
    DcpEvent::Deletion(DcpDeletion {
        vbucket,
        seqno,
        rev_seqno: 1,
        delete_time: None,
        cas,
        collection_id: Some(0),
        collection_name: None,
        key: b"key".to_vec(),
        value: Vec::new(),
        datatype: DataType(0),
    })
}

fn expiration(vbucket: u16, seqno: u64, cas: u64) -> DcpEvent {
    DcpEvent::Expiration(DcpExpiration {
        vbucket,
        seqno,
        rev_seqno: 1,
        delete_time: None,
        cas,
        collection_id: Some(0),
        collection_name: None,
        key: b"key".to_vec(),
        value: Vec::new(),
        datatype: DataType(0),
    })
}

fn advanced(vbucket: u16, seqno: u64) -> DcpEvent {
    DcpEvent::SeqNoAdvanced(SeqNoAdvanced { vbucket, seqno })
}

fn input(client: &mut Client, session: &mut SubscriptionSession, input: StreamInput) -> SessionStep {
    session.handle_stream_item(
        input,
        &mut client.topology,
        &mut client.metrics,
        &mut client.health,
        now(),
    )
}

fn queued(client: &mut Client, session: &mut SubscriptionSession, event: DcpEvent) -> DcpDelivery {
    match input(client, session, StreamInput::Event(event)) {
        SessionStep::Deliver(delivery) => delivery,
        _ => panic!("the event must be delivered"),
    }
}

fn delivered(
    client: &mut Client,
    session: &mut SubscriptionSession,
    event: DcpEvent,
) -> DcpDelivery {
    let delivery = queued(client, session, event);
    accept_delivery(delivery, session.connection_generation, &mut client.metrics)
        .unwrap_or_else(|| panic!("the delivery is current"))
}

fn flush(
    session: &mut SubscriptionSession,
    store: &mut BTreeMap<u16, DcpCheckpoint>,
) -> (usize, usize) {
    let dirty = session.coordinator.begin_flush().unwrap();
    for item in &dirty {
        store.insert(item.vbucket, item.checkpoint.clone());
    }
    let report = session
        .coordinator
        .finish_flush(&dirty, Ok(()), Interval::from_millis(1))
        .unwrap();
    (report.attempted, report.persisted)
}

#[test]
fn subscribe_tracks_processing_and_persists_a_missing_latest_start() {
    let mut client = connect();
    let (mut session, starts) = session_with(
        &mut client,
        DcpMode::Infinite,
        None,
        StartPosition::Latest,
        checkpoint(42, 11),
        u64::MAX,
    );
    let mut store = BTreeMap::new();

    assert!(matches!(starts[&0], StartPosition::Latest));
    assert_eq!(flush(&mut session, &mut store), (1, 1));
    assert_eq!(store[&0].seqno, 42);

    let marker = delivered(&mut client, &mut session, snapshot(0, 43));
    assert!(matches!(marker.event(), DcpEvent::SnapshotMarker(_)));
    assert_eq!(
        marker
            .mark_processed(&mut session.coordinator, &mut client.metrics)
            .unwrap(),
        None
    );
    let progress = delivered(&mut client, &mut session, advanced(0, 43));
    assert_eq!(progress.connection_generation(), 1);
    assert_eq!(progress.assignment_generation(), 0);
    assert_eq!(
        progress
            .mark_processed(&mut session.coordinator, &mut client.metrics)
            .unwrap()
            .unwrap()
            .advanced_to
            .unwrap()
            .seqno,
        43
    );
    flush(&mut session, &mut store);
    assert_eq!(store[&0].seqno, 43);
    assert_eq!(client.metrics.snapshot().delivered_events, 2);
    assert_eq!(client.metrics.snapshot().processed_events, 2);
    assert_eq!(
        session.registry.status(),
        CollectionRegistryStatus {
            manifest_uid: Some(7),
            stale: false,
        }
    );
}

#[test]
fn listener_skip_until_filters_documents_and_advances_checkpoint_progress() {
    let mut client = connect();
    let (mut session, _) = session_with(
        &mut client,
        DcpMode::Infinite,
        Some(Interval::from_secs(20)),
        StartPosition::Earliest,
        checkpoint(0, 11),
        u64::MAX,
    );
    let mut store = BTreeMap::new();

    let marker = delivered(&mut client, &mut session, snapshot_range(0, 1, 4));
    assert!(matches!(marker.event(), DcpEvent::SnapshotMarker(_)));
    for skipped in [
        mutation(0, 1, 19_999_999_999),
        deletion(0, 2, 19_000_000_000),
        expiration(0, 3, 19_000_000_000),
    ] {
        assert!(matches!(
            input(&mut client, &mut session, StreamInput::Event(skipped)),
            SessionStep::Continue
        ));
    }
    let boundary = delivered(&mut client, &mut session, mutation(0, 4, 20_000_000_000));
    assert!(matches!(
        boundary.event(),
        DcpEvent::Mutation(event) if event.seqno == 4
    ));
    let before_ack = session.coordinator.statuses();
    assert_eq!(before_ack[&0].processed.seqno, 3);
    assert_eq!(before_ack[&0].pending_events, 1);

    boundary
        .mark_processed(&mut session.coordinator, &mut client.metrics)
        .unwrap();
    flush(&mut session, &mut store);
    assert_eq!(store[&0].seqno, 4);
    assert_eq!(client.metrics.snapshot().delivered_events, 2);
    assert_eq!(client.metrics.snapshot().processed_events, 1);
}

fn persisted(vbucket_uuid: u64, persisted_seqno: u64) -> BTreeMap<u16, ObservationOutcome> {
    BTreeMap::from([(
        0,
        ObservationOutcome::Persisted {
            vbucket_uuid,
            persisted_seqno,
        },
    )])
}

#[test]
fn subscription_does_not_deliver_before_rollback_mitigation_is_persisted() {
    let mut client = connect();
    let mut session = session(&mut client, checkpoint(0, 11));
    let mut mitigation = MitigationSnapshot::new(&BTreeMap::from([(0, 11)]))
        .unwrap_or_else(|_| panic!("branches are given"));
    mitigation.apply(&persisted(11, 0));

    let event = snapshot(0, 1);
    let (vbucket, seqno) = mitigation_position(&event).unwrap();
    assert_eq!(
        mitigation.wait_step(vbucket, seqno, false, false, "1s").unwrap(),
        WaitStep::Wait
    );
    mitigation.apply(&persisted(11, 1));
    let wait = match mitigation.wait_step(vbucket, seqno, true, false, "1s").unwrap() {
        WaitStep::Deliver { delayed } => Ok(delayed),
        WaitStep::Wait => panic!("the position is persisted"),
    };
    assert!(session
        .mitigation_ended(wait, &mut client.metrics, &mut client.health, now())
        .is_none());
    let delivery = delivered(&mut client, &mut session, event);
    assert!(matches!(delivery.event(), DcpEvent::SnapshotMarker(_)));
    assert_eq!(client.metrics.snapshot().rollback_mitigation_delays, 1);
}

#[test]
fn subscription_close_cancels_a_rollback_mitigation_wait() {
    let mut client = connect();
    let session = session(&mut client, checkpoint(0, 11));
    let latest = TopologySnapshot {
        generation: 1,
        topology: topology(7),
    };
    assert!(session.due_action(false, &latest).is_none());
    assert!(matches!(
        session.due_action(true, &latest),
        Some(GenerationAction::Stop)
    ));
    assert_eq!(client.metrics.snapshot().rollback_mitigation_failures, 0);
}

#[test]
fn interrupted_mitigation_waits_lead_to_an_action() {
    let mut client = connect();
    let session = session(&mut client, checkpoint(0, 11));
    let snapshot = |generation| TopologySnapshot {
        generation,
        topology: topology(7),
    };
    assert!(matches!(
        session.interrupted(true, &snapshot(2)),
        GenerationAction::Stop
    ));
    assert!(matches!(
        session.interrupted(false, &snapshot(2)),
        GenerationAction::Reopen(latest) if latest.generation == 2
    ));
    assert!(matches!(
        session.interrupted(false, &snapshot(1)),
        GenerationAction::Reconnect
    ));
}

#[test]
fn rollback_mitigation_stall_is_reported_instead_of_reconnecting_forever() {
    let mut client = connect();
    let session = session(&mut client, checkpoint(0, 11));
    let mut mitigation = MitigationSnapshot::new(&BTreeMap::from([(0, 11)]))
        .unwrap_or_else(|_| panic!("branches are given"));
    mitigation.apply(&BTreeMap::from([(
        0,
        ObservationOutcome::BranchChanged {
            observed_vbucket_uuid: 22,
        },
    )]));
    let error = match mitigation.wait_step(0, 1, true, true, "30ms") {
        Err(error) => error,
        Ok(_) => panic!("the stall must be reported"),
    };
    let action = session.mitigation_ended(
        Err(error),
        &mut client.metrics,
        &mut client.health,
        now(),
    );

    assert!(matches!(
        action,
        Some(GenerationAction::Fatal(DcpError::RollbackMitigation { .. }))
    ));
    assert_eq!(client.metrics.snapshot().rollback_mitigation_failures, 1);
}

#[test]
fn missing_latest_start_at_zero_is_persisted_before_shutdown() {
    let mut client = connect();
    let (mut session, _) = session_with(
        &mut client,
        DcpMode::Infinite,
        None,
        StartPosition::Latest,
        checkpoint(0, 11),
        u64::MAX,
    );
    let mut store = BTreeMap::new();
    assert_eq!(flush(&mut session, &mut store), (1, 1));
    assert_eq!(store[&0].seqno, 0);
    assert_eq!(flush(&mut session, &mut store), (0, 0));
}

#[test]
fn topology_change_reopens_from_processed_checkpoint_and_drops_stale_deliveries() {
    let mut client = connect();
    let mut session = session(&mut client, checkpoint(0, 11));
    for event in [snapshot(0, 1), advanced(0, 1)] {
        delivered(&mut client, &mut session, event)
            .mark_processed(&mut session.coordinator, &mut client.metrics)
            .unwrap();
    }
    let stale_marker = queued(&mut client, &mut session, snapshot(0, 2));
    let stale_progress = queued(&mut client, &mut session, advanced(0, 2));
    let snapshot_8 = match input(
        &mut client,
        &mut session,
        StreamInput::Topology(Ok(topology(8))),
    ) {
        SessionStep::Act(GenerationAction::Reopen(snapshot)) => snapshot,
        _ => panic!("a newer topology reopens the streams"),
    };
    let end = after_generation(
        GenerationAction::Reopen(snapshot_8),
        Ok(()),
        &mut client.metrics,
        &mut client.health,
        now(),
    );
    let snapshot_8 = match end {
        GenerationEnd::Reopen(Some(snapshot)) => snapshot,
        _ => panic!("the streams are reopened"),
    };
    let reopen = ReopenLoop::begin(snapshot_8.clone(), &snapshot_8);
    assert_eq!(session.begin_reopen(&mut client.metrics).unwrap(), 2);
    let starts = session.reopen_starts();
    match &starts[&0] {
        StartPosition::Checkpoint(resume) => assert_eq!(resume.seqno, 1),
        _ => panic!("reopen must use a processed checkpoint"),
    }
    session
        .accept_reopened(
            &starts,
            &BTreeMap::from([(0, checkpoint(1, 22))]),
            &BTreeMap::from([(0, u64::MAX)]),
            1,
            registry(),
            0,
            reopen.snapshot.generation,
            &mut client.metrics,
            &mut client.health,
            now(),
        )
        .unwrap();

    for stale in [stale_marker, stale_progress] {
        assert!(accept_delivery(stale, session.connection_generation, &mut client.metrics).is_none());
    }
    for event in [snapshot(0, 2), advanced(0, 2)] {
        let delivery = delivered(&mut client, &mut session, event);
        assert_eq!(delivery.connection_generation(), 2);
        delivery
            .mark_processed(&mut session.coordinator, &mut client.metrics)
            .unwrap();
    }
    assert_eq!(client.metrics.snapshot().stale_generation_drops, 2);
    assert_eq!(client.metrics.snapshot().reconnects, 1);
    assert_eq!(client.metrics.snapshot().topology_updates, 1);
    assert_eq!(session.topology_generation, 2);
    assert_eq!(client.health.snapshot().topology_generation, 2);
}

#[test]
fn tokens_of_an_earlier_generation_are_obsolete() {
    let mut client = connect();
    let mut session = session(&mut client, checkpoint(0, 11));
    delivered(&mut client, &mut session, snapshot(0, 1));
    let stale = delivered(&mut client, &mut session, advanced(0, 1));
    let starts = session.reopen_starts();
    session.begin_reopen(&mut client.metrics).unwrap();
    session
        .accept_reopened(
            &starts,
            &BTreeMap::from([(0, checkpoint(0, 22))]),
            &BTreeMap::from([(0, u64::MAX)]),
            1,
            registry(),
            3,
            1,
            &mut client.metrics,
            &mut client.health,
            now(),
        )
        .unwrap();
    assert!(stale
        .mark_processed(&mut session.coordinator, &mut client.metrics)
        .is_err());
    assert_eq!(client.metrics.snapshot().processed_events, 0);
    assert_eq!(client.metrics.snapshot().rollbacks, 3);
}

#[test]
fn failed_initial_discovery_is_observable() {
    let mut metrics = DcpMetrics::default();
    let mut health = DcpHealth::default();
    let result = record_connect(
        Err(DcpError::Io("offline".to_string())),
        &mut metrics,
        &mut health,
        now(),
    );
    assert!(matches!(result, Err(DcpError::Io(_))));
    assert_eq!(metrics.snapshot().bootstrap_attempts, 1);
    assert_eq!(metrics.snapshot().bootstrap_failures, 1);
    assert_eq!(health.snapshot().message.as_deref(), Some("I/O error: offline"));
}

fn standalone() -> DcpSubscriptionSpec<(), Handler> {
    DcpSubscriptionSpec::standalone(())
}

#[test]
fn one_client_fences_a_single_subscription_and_releases_it_after_close() {
    let mut client = connect();
    let policy = RollbackPolicy::StopAndReport;
    client.lifecycle.begin_subscribe(&standalone(), policy).unwrap();
    client.lifecycle.activate().unwrap();

    assert!(matches!(
        client.lifecycle.begin_subscribe(&standalone(), policy),
        Err(DcpError::InvalidConfiguration(_))
    ));
    client.lifecycle.release();

    let external: DcpSubscriptionSpec<(), Handler> =
        DcpSubscriptionSpec::external((), VBucketAssignment::new(9, &[0]));
    client.lifecycle.begin_subscribe(&external, policy).unwrap();
    client.lifecycle.activate().unwrap();
    let (vbuckets, fence) =
        resolve_assignment(external.assignment(), client.topology.topology()).unwrap();
    assert_eq!((vbuckets, fence), (vec![0], 9));
}

#[test]
fn subscription_settings_are_checked() {
    let mut lifecycle = ClientLifecycle::new();
    let zero = standalone().stream_id(Some(0));
    assert_eq!(zero.stream_id_value(), Some(0));
    assert!(lifecycle
        .begin_subscribe(&zero, RollbackPolicy::StopAndReport)
        .is_err());
    assert!(lifecycle
        .begin_subscribe(&standalone(), RollbackPolicy::DelegateToHandler)
        .is_err());
    let handled = standalone().rollback_handler(Handler {
        action: RollbackAction::StopAndReport,
    });
    assert!(lifecycle
        .begin_subscribe(&handled, RollbackPolicy::DelegateToHandler)
        .is_ok());
    let (assignment, _, stream_id, handler) = handled.into_parts();
    assert!(matches!(assignment, AssignmentMode::Standalone));
    assert_eq!(stream_id, None);
    assert!(handler.is_some());
}

#[test]
fn finite_subscription_completes_when_all_node_streams_end() {
    let mut client = connect();
    let (finite, _) = session_with(
        &mut client,
        DcpMode::Finite,
        None,
        StartPosition::Earliest,
        checkpoint(0, 11),
        u64::MAX,
    );
    let action = finite.streams_ended();
    assert!(matches!(action, GenerationAction::Complete));
    assert!(matches!(
        after_generation(action, Ok(()), &mut client.metrics, &mut client.health, now()),
        GenerationEnd::Finish(None)
    ));
    client.metrics.set_assigned_vbuckets(0);
    assert_eq!(client.metrics.snapshot().active_connections, 0);
    assert_eq!(client.metrics.snapshot().assigned_vbuckets, 0);

    let infinite = session(&mut client, checkpoint(0, 11));
    assert!(matches!(infinite.streams_ended(), GenerationAction::Reconnect));
}

#[test]
fn finite_reconnect_preserves_the_initial_high_seqno_boundary() {
    let mut client = connect();
    let (mut session, _) = session_with(
        &mut client,
        DcpMode::Finite,
        None,
        StartPosition::Earliest,
        checkpoint(0, 11),
        5,
    );
    let action = match input(
        &mut client,
        &mut session,
        StreamInput::Failure(DcpError::DeadConnection {
            peer: "fake-node".to_string(),
            idle_for: Interval::from_secs(1),
        }),
    ) {
        SessionStep::Act(action) => action,
        _ => panic!("a failed stream ends the generation"),
    };
    assert!(matches!(
        after_generation(action, Ok(()), &mut client.metrics, &mut client.health, now()),
        GenerationEnd::Reopen(None)
    ));
    assert_eq!(session.frozen_end_seqnos.get(&0), Some(&5));
    let starts = session.reopen_starts();
    session.begin_reopen(&mut client.metrics).unwrap();
    let moved = session.accept_reopened(
        &starts,
        &BTreeMap::from([(0, checkpoint(0, 11))]),
        &BTreeMap::from([(0, 6)]),
        1,
        registry(),
        0,
        1,
        &mut client.metrics,
        &mut client.health,
        now(),
    );
    assert_eq!(
        moved.unwrap_err().to_text(),
        "stream error for vBucket 0: reopened finite endpoints {0: 6} do not match frozen endpoints {0: 5}"
    );
}

#[test]
fn periodic_health_probe_accepts_new_topology_and_close_marks_stopped() {
    let mut client = connect();
    let probe = apply_topology_candidate(&mut client.topology, &mut client.metrics, topology(8));
    let outcome = match probe {
        Ok(_) => Ok(()),
        Err(error) => Err(error),
    };
    record_probe(
        &outcome,
        &mut client.metrics,
        &mut client.health,
        now(),
        client.topology.generation(),
    );
    assert_eq!(client.metrics.snapshot().topology_updates, 1);
    assert_eq!(client.topology.topology().revision().revision(), 8);
    assert_eq!(client.health.snapshot().topology_generation, 2);
    assert_eq!(client.health.snapshot().status, DcpHealthStatus::Healthy);

    record_probe(
        &Err(DcpError::Timeout(Interval::from_secs(1))),
        &mut client.metrics,
        &mut client.health,
        now(),
        2,
    );
    assert_eq!(client.health.snapshot().status, DcpHealthStatus::Degraded);
    assert_eq!(client.metrics.snapshot().health_failures, 1);

    client.health.record_stopped(now());
    assert_eq!(client.health.snapshot().status, DcpHealthStatus::Stopped);
}

#[test]
fn preflight_high_seqno_rollback_requires_explicit_replay_policy() {
    let start = StartPosition::Checkpoint(checkpoint(100, 99));
    let failover_log = || {
        vec![
            FailoverEntry {
                vbucket_uuid: 22,
                seqno: 50,
            },
            FailoverEntry {
                vbucket_uuid: 11,
                seqno: 0,
            },
        ]
    };
    let resolve = |policy, handler: Option<&Handler>, end| {
        resolve_vbucket_request(
            0,
            "bucket-uuid",
            &start,
            DcpMode::Infinite,
            80,
            failover_log(),
            None,
            policy,
            handler,
            end,
        )
    };

    assert!(matches!(
        resolve(RollbackPolicy::StopAndReport, None, None),
        Err(DcpError::RollbackRequired {
            requested_seqno: 100,
            rollback_seqno: 80,
            ..
        })
    ));

    let (request, rollbacks) = resolve(RollbackPolicy::RewindAndReplay, None, None).unwrap();
    assert_eq!(rollbacks, 1);
    assert_eq!(request.checkpoint().seqno, 80);
    assert_eq!(request.checkpoint().snapshot_start, 80);
    assert_eq!(request.checkpoint().snapshot_end, 80);
    assert_eq!(request.checkpoint().vbucket_uuid, 22);
    assert_eq!(request.checkpoint().manifest_uid, None);

    assert!(resolve(RollbackPolicy::DelegateToHandler, None, None).is_err());
    let replay = Handler {
        action: RollbackAction::RewindAndReplay,
    };
    let (request, _) = resolve(RollbackPolicy::DelegateToHandler, Some(&replay), Some(90)).unwrap();
    assert_eq!(request.end_seqno(), 90);
    let stop = Handler {
        action: RollbackAction::StopAndReport,
    };
    assert!(resolve(RollbackPolicy::DelegateToHandler, Some(&stop), None).is_err());
    assert!(resolve(RollbackPolicy::RewindAndReplay, None, Some(79)).is_err());
}

#[test]
fn subscription_close_surfaces_node_shutdown_failure() {
    let mut client = connect();
    let shutdown = combine_generation_shutdown(
        Err(DcpError::Io("fake shutdown failed".to_string())),
        Err(DcpError::Cancelled),
    );
    let end = after_generation(
        GenerationAction::Stop,
        shutdown,
        &mut client.metrics,
        &mut client.health,
        now(),
    );
    let terminal = match end {
        GenerationEnd::Finish(Some(error)) => error,
        _ => panic!("the failure is terminal"),
    };
    assert!(matches!(terminal, DcpError::Io(_)));
    let result = finish_subscription(
        Some(terminal),
        Ok(()),
        &mut client.health,
        now(),
        client.topology.generation(),
    );
    let completion = SubscriptionCompletion::of(&result);
    assert!(matches!(result, Err(DcpError::Io(_))));
    let closed = close_outcome(completion.into_result(), None);
    assert!(closed.is_err());
    client.health.record_stopped(now());
    assert_eq!(client.health.snapshot().status, DcpHealthStatus::Stopped);
}

#[test]
fn terminal_error_does_not_block_close_when_delivery_queue_is_full() {
    let mut client = connect();
    let mut session = session(&mut client, checkpoint(0, 11));
    let action = match input(
        &mut client,
        &mut session,
        StreamInput::Failure(DcpError::Collection("terminal fake error".to_string())),
    ) {
        SessionStep::Act(action) => action,
        _ => panic!("a failed stream ends the generation"),
    };
    assert_eq!(client.metrics.snapshot().stream_errors, 1);
    let terminal = match after_generation(
        action,
        Ok(()),
        &mut client.metrics,
        &mut client.health,
        now(),
    ) {
        GenerationEnd::Finish(Some(error)) => error,
        _ => panic!("a collection error is terminal"),
    };
    let error = finish_subscription(
        Some(returned_error(&terminal)),
        Ok(()),
        &mut client.health,
        now(),
        1,
    )
    .unwrap_err();
    assert!(error.to_text().contains("terminal fake error"));
    assert!(close_outcome(Err(error), None).is_err());
}

#[test]
fn close_racing_with_subscribe_never_activates_after_client_shutdown() {
    let mut client = connect();
    client
        .lifecycle
        .begin_subscribe(&standalone(), RollbackPolicy::StopAndReport)
        .unwrap();
    client.lifecycle.close();
    let error = client.lifecycle.activate().unwrap_err();

    assert!(matches!(error, DcpError::Cancelled));
    assert!(!client.lifecycle.active);
    assert!(matches!(
        client
            .lifecycle
            .begin_subscribe(&standalone(), RollbackPolicy::StopAndReport),
        Err(DcpError::Cancelled)
    ));
}

#[test]
fn concurrent_close_callers_both_wait_for_subscription_shutdown() {
    let first = SubscriptionCompletion::of(&Ok(()));
    assert!(first.into_result().is_ok());
    let failed = SubscriptionCompletion::of(&Err(DcpError::Cancelled));
    assert_eq!(
        failed.into_result().unwrap_err().to_text(),
        "stream error for vBucket 0: operation cancelled"
    );
    assert_eq!(
        close_outcome(Ok(()), Some("panicked".to_string()))
            .unwrap_err()
            .to_text(),
        "topology error: health-check task failed: panicked"
    );
    assert!(close_outcome(Ok(()), None).is_ok());
}

#[test]
fn retries_back_off_up_to_a_cap() {
    let mut metrics = DcpMetrics::default();
    let mut health = DcpHealth::default();
    let first = TopologySnapshot {
        generation: 1,
        topology: topology(7),
    };
    let mut reopen = ReopenLoop::begin(first.clone(), &first);
    let mut delays = Vec::new();
    for _attempt in 0..8 {
        match reopen.attempt_failed(
            DcpError::Topology("moving".to_string()),
            &mut metrics,
            &mut health,
            now(),
        ) {
            ReopenStep::Retry(delay) => delays.push(delay.as_millis()),
            ReopenStep::Fatal(_) => panic!("a topology error is retried"),
        }
    }
    assert_eq!(delays, vec![100, 200, 400, 800, 1600, 3200, 5000, 5000]);
    assert_eq!(metrics.snapshot().stream_errors, 8);
    reopen.topology_changed(&TopologySnapshot {
        generation: 2,
        topology: topology(8),
    });
    assert_eq!(reopen.snapshot.generation, 2);
    assert!(matches!(
        reopen.attempt_failed(
            DcpError::Checkpoint("foreign".to_string()),
            &mut metrics,
            &mut health,
            now(),
        ),
        ReopenStep::Fatal(DcpError::Checkpoint(_))
    ));
    assert_eq!(
        next_reconnect_backoff(&initial_reconnect_backoff()).as_millis(),
        200
    );
}

#[test]
fn failures_are_classified() {
    assert!(is_retryable(&DcpError::Io("x".to_string())));
    assert!(is_retryable(&DcpError::Timeout(now())));
    assert!(is_retryable(&DcpError::Cancelled));
    assert!(!is_retryable(&DcpError::Checkpoint("x".to_string())));
    assert!(!is_retryable(&DcpError::Authentication("x".to_string())));
    assert!(matches!(
        keep_first_failure(None, Err(DcpError::Cancelled)),
        Some(DcpError::Cancelled)
    ));
    assert!(matches!(
        keep_first_failure(Some(DcpError::Io("first".to_string())), Err(DcpError::Cancelled)),
        Some(DcpError::Io(_))
    ));
    assert_eq!(next_connection_generation(1).unwrap(), 2);
    assert!(next_connection_generation(u64::MAX).is_err());
    assert!(matches!(
        keep_first_failure(None, Ok(())),
        None
    ));
}

#[test]
fn opened_partitions_match_the_request() {
    let starts = BTreeMap::from([(0, StartPosition::Earliest), (2, StartPosition::Earliest)]);
    let effective = BTreeMap::from([(0, checkpoint(3, 11))]);
    let ends = BTreeMap::from([(0, 2)]);
    assert_eq!(
        validate_opened_partitions(&starts, &effective, &ends, None, 1)
            .unwrap_err()
            .to_text(),
        "topology error: opened vBuckets {0} do not match requested vBuckets {0, 2}"
    );
    let one = BTreeMap::from([(0, StartPosition::Earliest)]);
    assert_eq!(
        validate_opened_partitions(&one, &effective, &BTreeMap::new(), None, 1)
            .unwrap_err()
            .to_text(),
        "topology error: opened end-seqno vBuckets {} do not match requested vBuckets {0}"
    );
    assert_eq!(
        validate_opened_partitions(&one, &effective, &ends, None, 1)
            .unwrap_err()
            .to_text(),
        "stream error for vBucket 0: stream end 2 is behind effective start 3"
    );
    let late = BTreeMap::from([(0, 9)]);
    assert!(validate_opened_partitions(&one, &effective, &late, None, 0).is_err());
    assert!(validate_opened_partitions(&one, &effective, &late, Some(&late), 1).is_ok());
    assert!(validate_opened_partitions(&one, &effective, &late, Some(&ends), 1).is_err());
}

fn report(vbucket: u16, rollbacks: usize) -> StreamOpenReport {
    let mut report = StreamOpenReport::new();
    let mut effective_checkpoint = checkpoint(3, 11);
    effective_checkpoint.vbucket = vbucket;
    let applied = vec![
        RollbackApplied {
            vbucket,
            requested_seqno: 9,
            rollback_seqno: 3,
            vbucket_uuid: 11,
        };
        rollbacks
    ];
    report.record(
        PartitionOpenState {
            effective_checkpoint,
            vbucket,
            start_seqno: 3,
            end_seqno: 9,
            vbucket_uuid: 11,
            stream_id: None,
            opaque: 1,
        },
        applied,
    );
    report
}

#[test]
fn node_reports_are_merged_without_overlap() {
    let mut opened = OpenedPartitions::new();
    opened.add_node(1, &report(0, 1)).unwrap();
    opened.add_node(0, &report(2, 0)).unwrap();
    assert_eq!(opened.rollback_count(), 2);
    assert_eq!(opened.effective_checkpoints().len(), 2);
    assert_eq!(opened.end_seqnos(), &BTreeMap::from([(0, 9), (2, 9)]));
    assert_eq!(
        opened.add_node(0, &report(2, 0)).unwrap_err().to_text(),
        "topology error: vBucket 2 was opened on more than one node"
    );
    assert!(opened.add_node(usize::MAX, &report(5, 1)).is_err());
    assert_eq!(opened.rollback_count(), 2);
    let starts = BTreeMap::from([(0, StartPosition::Earliest), (2, StartPosition::Earliest)]);
    assert!(opened.finish(&starts, None, 2).is_ok());
    assert!(opened.finish(&starts, None, 0).is_err());
}

#[test]
fn generation_inputs_are_looked_up() {
    let topology = topology(7);
    assert_eq!(bucket_identity(&topology), "bucket-uuid");
    assert_eq!(
        node_endpoint(&topology, "node-a").unwrap().address(),
        "127.0.0.1:11210"
    );
    assert!(node_endpoint(&topology, "node-z").is_err());
    let seqnos = BTreeMap::from([(0, 5)]);
    assert_eq!(assigned_high_seqno(&seqnos, "node-a", 0).unwrap(), 5);
    assert!(assigned_high_seqno(&seqnos, "node-a", 1).is_err());
    let starts = BTreeMap::from([(0, StartPosition::Earliest)]);
    assert!(assigned_start(&starts, 0).is_ok());
    assert!(assigned_start(&starts, 1).is_err());
    assert_eq!(assigned_end(None, 0).unwrap(), None);
    assert_eq!(assigned_end(Some(&seqnos), 0).unwrap(), Some(5));
    assert!(assigned_end(Some(&seqnos), 1).is_err());
    assert_eq!(count_preflight_rollbacks(1, 1, 0).unwrap(), 2);
    assert!(count_preflight_rollbacks(usize::MAX, 1, 0).is_err());
    let groups = plan_generation(&topology, &starts).unwrap();
    assert_eq!(groups.len(), 1);
    assert_eq!(groups[0].vbuckets, vec![0]);
    assert!(plan_generation(&topology, &BTreeMap::new()).is_err());
    assert!(plan_generation(&topology, &BTreeMap::from([(9, StartPosition::Earliest)])).is_err());
}

#[test]
fn starts_come_from_the_store_before_the_fallback() {
    let loaded = BTreeMap::from([(0, checkpoint(4, 11))]);
    let starts = resolve_initial_starts(&[0, 1], &loaded, &StartPosition::Latest).unwrap();
    assert!(matches!(&starts[&0], StartPosition::Checkpoint(c) if c.seqno == 4));
    assert!(matches!(&starts[&1], StartPosition::Latest));
    let fallback = StartPosition::Checkpoint(checkpoint(9, 11));
    let own = resolve_initial_starts(&[0], &BTreeMap::new(), &fallback).unwrap();
    assert!(matches!(&own[&0], StartPosition::Checkpoint(c) if c.seqno == 9));
    assert_eq!(
        resolve_initial_starts(&[1], &BTreeMap::new(), &fallback)
            .unwrap_err()
            .to_text(),
        "invalid configuration: fallback checkpoint for vBucket 0 cannot initialize missing vBucket 1"
    );
    let topology = topology(7);
    let outside = AssignmentMode::External(VBucketAssignment::new(1, &[0, 3]));
    assert!(resolve_assignment(&outside, &topology).is_err());
    let nothing = AssignmentMode::External(VBucketAssignment::new(1, &[]));
    assert!(resolve_assignment(&nothing, &topology).is_err());
}

#[test]
fn stored_starts_are_not_saved_again() {
    let loaded = BTreeMap::from([(0, checkpoint(4, 11))]);
    let starts = BTreeMap::from([(0, StartPosition::Earliest)]);
    let start = |effective| {
        SubscriptionSession::start(
            DcpMode::Infinite,
            None,
            1,
            0,
            &manual(),
            &starts,
            &loaded,
            &BTreeMap::from([(0, effective)]),
            BTreeMap::from([(0, u64::MAX)]),
            1,
            registry(),
        )
        .unwrap_or_else(|_| panic!("the generation is valid"))
    };
    assert!(!start(checkpoint(4, 11)).coordinator.has_dirty());
    assert!(start(checkpoint(4, 22)).coordinator.has_dirty());
    assert!(start(checkpoint(2, 11)).coordinator.has_dirty());
}

#[test]
fn unknown_frames_and_stale_topologies_change_nothing_else() {
    let mut client = connect();
    let mut session = session(&mut client, checkpoint(0, 11));
    assert!(matches!(
        input(&mut client, &mut session, StreamInput::Unknown),
        SessionStep::Continue
    ));
    assert_eq!(client.metrics.snapshot().unknown_frames, 1);
    assert!(matches!(
        input(
            &mut client,
            &mut session,
            StreamInput::Topology(Ok(topology(7))),
        ),
        SessionStep::Continue
    ));
    assert!(matches!(
        input(
            &mut client,
            &mut session,
            StreamInput::Topology(Err(DcpError::Topology("bad JSON".to_string()))),
        ),
        SessionStep::Act(GenerationAction::Fatal(_))
    ));
    assert!(matches!(
        input(&mut client, &mut session, StreamInput::Event(advanced(4, 1))),
        SessionStep::Act(GenerationAction::Fatal(DcpError::Checkpoint(_)))
    ));
    assert_eq!(client.topology.generation(), 1);
}
