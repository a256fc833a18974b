//! Stream requests, their opening and the worker's decisions.
use std::collections::BTreeMap;

use rust_dcp::auth::SaslMechanism;
use rust_dcp::bootstrap::{BootstrapCapabilities, DcpControlFeature, HelloFeature};
use rust_dcp::checkpoint::{DcpCheckpoint, FailoverEntry};
use rust_dcp::config::{
    DcpMode, FlowControlConfig, PositiveCount, RollbackPolicy, StartPosition,
};
use rust_dcp::error::DcpError;
use rust_dcp::event::{
    DcpEvent, OsoSnapshot, OsoSnapshotState, SnapshotFlags, StreamEnd, StreamEndReason,
};
use rust_dcp::interval::Interval;
use rust_dcp::protocol::{
    DcpMessage, Frame, StreamFilter, StreamRequestResponse, WireMutation, WireOsoSnapshot,
    WireSeqNoAdvanced, WireSnapshotMarker, WireStreamEnd, OPCODE_GET_CLUSTER_CONFIG,
    STREAM_ACTIVE_ONLY, STREAM_IGNORE_PURGED_TOMBSTONES, STREAM_STRICT_VBUUID,
};
use rust_dcp::stream::{
    after_close, close_target, convert_event, decide_rollback, handle_message, policy_action, prepare_open,
    route_frame, validate_requests, FlowCredit, FrameRoute, MessageAction, OpenProgress,
    PartitionOpening, PartitionProgress, RollbackAction, RollbackApplied, StreamOpenReport,
    VBucketStreamRequest,
};

fn flow_config() -> FlowControlConfig {
    FlowControlConfig {
        connection_buffer_size: 128,
        ack_ratio_bits: 0.1_f32.to_bits(),
        event_queue_capacity: PositiveCount::new(8).unwrap(),
        noop_interval: Interval::from_secs(1),
        dead_connection_timeout: Interval::from_secs(2),
    }
}

fn capabilities(features: Vec<HelloFeature>) -> BootstrapCapabilities {
    BootstrapCapabilities {
        hello_features: features,
        sasl_mechanism: SaslMechanism::Plain,
        dcp_controls: vec![DcpControlFeature::StreamEndOnClose],
    }
}

fn failover_log() -> Vec<FailoverEntry> {
    vec![FailoverEntry {
        vbucket_uuid: 0xaaaa,
        seqno: 0,
    }]
}

fn filter(collection_ids: Vec<u32>, manifest_uid: Option<u64>, stream_id: Option<u16>) -> StreamFilter {
    StreamFilter {
        scope_id: None,
        collection_ids,
        manifest_uid,
        stream_id,
    }
}

fn resolve(
    vbucket: u16,
    start: &StartPosition,
    mode: DcpMode,
    filter: Option<StreamFilter>,
) -> VBucketStreamRequest {
    VBucketStreamRequest::resolve(
        vbucket,
        Some("bucket-id"),
        start,
        mode,
        99,
        failover_log(),
        filter,
    )
    .unwrap()
}

fn checkpoint(seqno: u64, start: u64, end: u64, manifest_uid: Option<u64>) -> DcpCheckpoint {
    DcpCheckpoint {
        bucket_uuid: Some("bucket-id".to_string()),
        vbucket: 7,
        vbucket_uuid: 0xaaaa,
        seqno,
        snapshot_start: start,
        snapshot_end: end,
        manifest_uid,
    }
}

fn marker(start_seqno: u64, end_seqno: u64, flags: u32) -> DcpMessage {
    DcpMessage::SnapshotMarker(WireSnapshotMarker {
        vbucket: 7,
        stream_id: None,
        start_seqno,
        end_seqno,
        flags,
        max_visible_seqno: None,
        high_completed_seqno: None,
        timestamp: None,
        purge_seqno: None,
    })
}

fn advance(seqno: u64) -> DcpMessage {
    DcpMessage::SeqNoAdvanced(WireSeqNoAdvanced {
        vbucket: 7,
        stream_id: None,
        seqno,
    })
}

#[test]
fn request_resolution_freezes_finite_end_and_keeps_purge_safety() {
    let earliest = resolve(7, &StartPosition::Earliest, DcpMode::Finite, None);
    assert_eq!(earliest.checkpoint().seqno, 0);
    assert_eq!(earliest.checkpoint().vbucket_uuid, 0xaaaa);
    assert_eq!(earliest.end_seqno(), 99);
    assert_eq!(
        earliest.wire_request().flags & STREAM_IGNORE_PURGED_TOMBSTONES,
        0
    );

    let latest = resolve(7, &StartPosition::Latest, DcpMode::Infinite, None);
    assert_eq!(latest.checkpoint().seqno, 99);
    assert_eq!(latest.checkpoint().snapshot_start, 99);
    assert_eq!(latest.end_seqno(), u64::MAX);
}

#[test]
fn collection_filter_uses_the_manifest_uid_observed_at_the_checkpoint() {
    let start = StartPosition::Checkpoint(checkpoint(42, 40, 50, Some(0x17)));
    let request = resolve(
        7,
        &start,
        DcpMode::Infinite,
        Some(filter(vec![8], Some(0x2a), None)),
    );

    assert_eq!(
        request.wire_request().filter.unwrap().manifest_uid,
        Some(0x17)
    );
}

#[test]
fn new_collection_stream_does_not_claim_an_unobserved_manifest_uid() {
    let request = resolve(
        7,
        &StartPosition::Earliest,
        DcpMode::Infinite,
        Some(filter(vec![8], Some(0x2a), None)),
    );

    assert_eq!(request.wire_request().filter.unwrap().manifest_uid, None);
}

#[test]
fn one_stream_id_can_be_reused_across_distinct_vbuckets() {
    let request = |vbucket| {
        resolve(
            vbucket,
            &StartPosition::Earliest,
            DcpMode::Infinite,
            Some(filter(vec![8], None, Some(7))),
        )
    };

    assert!(validate_requests(&[request(7), request(8)]).is_ok());
    assert!(validate_requests(&[request(7), request(7)]).is_err());
    assert!(validate_requests(&[]).is_err());
}

#[test]
fn rollback_clears_a_manifest_uid_observed_after_the_rewind_point() {
    let start = StartPosition::Checkpoint(checkpoint(42, 40, 50, Some(0x17)));
    let mut request = resolve(
        7,
        &start,
        DcpMode::Infinite,
        Some(filter(vec![8], None, None)),
    );

    request.rewind(20, &failover_log()).unwrap();

    assert_eq!(request.checkpoint().manifest_uid, None);
    assert_eq!(request.wire_request().filter.unwrap().manifest_uid, None);
}

#[test]
fn checkpoint_ahead_of_high_seqno_is_an_explicit_rollback() {
    let result = VBucketStreamRequest::resolve(
        7,
        Some("bucket-id"),
        &StartPosition::Checkpoint(checkpoint(101, 100, 110, None)),
        DcpMode::Finite,
        99,
        failover_log(),
        None,
    );

    assert!(matches!(
        result,
        Err(DcpError::RollbackRequired {
            requested_seqno: 101,
            rollback_seqno: 99,
            ..
        })
    ));
}

#[test]
fn start_positions_are_checked() {
    let resolve = |vbucket, bucket, start: &StartPosition, log| {
        VBucketStreamRequest::resolve(vbucket, bucket, start, DcpMode::Infinite, 99, log, None)
    };
    let start = StartPosition::Checkpoint(checkpoint(42, 40, 50, None));
    assert!(resolve(7, Some("bucket-id"), &start, Vec::new()).is_err());
    assert!(resolve(8, Some("bucket-id"), &start, failover_log()).is_err());
    assert!(resolve(7, Some("other"), &start, failover_log()).is_err());
    let broken = StartPosition::Checkpoint(checkpoint(42, 43, 50, None));
    assert!(resolve(7, Some("bucket-id"), &broken, failover_log()).is_err());
    let zero = StartPosition::Checkpoint(checkpoint(0, 0, 0, None));
    assert_eq!(
        resolve(7, Some("bucket-id"), &zero, failover_log())
            .unwrap()
            .wire_request()
            .flags,
        STREAM_ACTIVE_ONLY | STREAM_STRICT_VBUUID
    );
    let request = resolve(7, Some("bucket-id"), &start, failover_log()).unwrap();
    let flagged = request.with_flags(STREAM_IGNORE_PURGED_TOMBSTONES);
    assert_eq!(
        flagged.wire_request().flags,
        STREAM_ACTIVE_ONLY | STREAM_IGNORE_PURGED_TOMBSTONES
    );
    assert!(flagged.with_frozen_end_seqno(41).is_err());
}

#[test]
fn stream_filter_requires_negotiated_collections() {
    let filtered = resolve(
        7,
        &StartPosition::Earliest,
        DcpMode::Infinite,
        Some(filter(vec![8], None, None)),
    );

    let result = prepare_open(
        &flow_config(),
        &capabilities(Vec::new()),
        &[filtered],
        RollbackPolicy::StopAndReport,
        false,
    );

    assert!(matches!(result, Err(DcpError::Unsupported(_))));
}

#[test]
fn delegated_rollback_requires_a_handler() {
    let open = |has_handler| {
        prepare_open(
            &flow_config(),
            &capabilities(vec![HelloFeature::Collections]),
            &[resolve(7, &StartPosition::Earliest, DcpMode::Infinite, None)],
            RollbackPolicy::DelegateToHandler,
            has_handler,
        )
    };
    assert!(matches!(open(false), Err(DcpError::InvalidConfiguration(_))));
    assert!(open(true).is_ok());
    assert_eq!(
        policy_action(RollbackPolicy::StopAndReport),
        Some(RollbackAction::StopAndReport)
    );
    assert_eq!(policy_action(RollbackPolicy::DelegateToHandler), None);
}

#[test]
fn flow_credit_waits_until_the_bounded_output_accepts_a_frame() {
    let mut partitions = BTreeMap::new();
    let action = handle_message(&mut partitions, 0, DcpMessage::Unknown(Frame::request(0x63)));
    assert!(matches!(
        action,
        Ok(MessageAction::Forward { frame, credited: true }) if frame.opcode == 0x63
    ));
    let mut credit = FlowCredit::new(12);
    assert_eq!(credit.next_ack(), None);
    assert!(credit.record(24).unwrap());
    assert_eq!(credit.next_ack(), Some(24));
    credit.acknowledged(24);
    assert_eq!(credit.next_ack(), None);
    let outside = handle_message(&mut partitions, 0, DcpMessage::Unknown(Frame::request(0x10)));
    assert!(matches!(
        outside,
        Ok(MessageAction::Forward { credited: false, .. })
    ));
}

#[test]
fn credit_threshold_stays_within_the_buffer() {
    let threshold = |target| FlowCredit::for_target(&flow_config(), target).unwrap().threshold;
    assert_eq!(threshold(13), 13);
    assert_eq!(threshold(0), 1);
    assert_eq!(threshold(500), 128);
    let mut large = flow_config();
    large.connection_buffer_size = usize::MAX;
    assert!(FlowCredit::for_target(&large, 1).is_err());
}

#[test]
fn credit_is_due_from_the_threshold_on() {
    let mut credit = FlowCredit::new(12);
    assert!(!credit.record(11).unwrap());
    assert!(credit.record(1).unwrap());
    assert_eq!(credit.next_ack(), Some(12));
    let mut large = FlowCredit::new(1);
    large.record(u64::from(u32::MAX) + 5).unwrap();
    assert_eq!(large.next_ack(), Some(u32::MAX));
    large.acknowledged(u32::MAX);
    assert_eq!(large.next_ack(), Some(5));
    assert!(large.record(u64::MAX).is_err());
}

fn active(opaque: u32) -> BTreeMap<u16, PartitionProgress> {
    BTreeMap::from([(7, PartitionProgress::new(0, 1, None, opaque))])
}

#[test]
fn worker_emits_events_but_handles_noop_snapshot_ack_and_credit_internally() {
    let mut partitions = active(3);
    let first = handle_message(
        &mut partitions,
        3,
        marker(1, 1, SnapshotFlags::MEMORY | SnapshotFlags::ACK),
    );
    assert!(matches!(
        first,
        Ok(MessageAction::Deliver {
            event: DcpEvent::SnapshotMarker(_),
            acknowledge: true,
        })
    ));
    let second = handle_message(
        &mut partitions,
        3,
        DcpMessage::Mutation(WireMutation {
            vbucket: 7,
            stream_id: None,
            seqno: 1,
            rev_seqno: 1,
            flags: 0,
            expiry: 0,
            lock_time: 0,
            cas: 0,
            datatype: 0,
            collection_id: None,
            key: b"doc".to_vec(),
            value: b"value".to_vec(),
        }),
    );
    assert!(matches!(
        second,
        Ok(MessageAction::Deliver {
            event: DcpEvent::Mutation(_),
            acknowledge: false,
        })
    ));
    let probe = handle_message(&mut partitions, 0x1234, DcpMessage::Noop { opaque: 0x1234 });
    assert!(matches!(
        probe,
        Ok(MessageAction::AnswerNoop { opaque: 0x1234 })
    ));
    let end = handle_message(
        &mut partitions,
        3,
        DcpMessage::StreamEnd(WireStreamEnd {
            vbucket: 7,
            stream_id: None,
            reason: StreamEndReason::Finished,
        }),
    );
    assert!(matches!(
        end,
        Ok(MessageAction::Deliver {
            event: DcpEvent::StreamEnd(_),
            ..
        })
    ));
    assert!(partitions.is_empty());
}

#[test]
fn worker_rejects_an_event_from_a_stale_stream_opaque() {
    let mut partitions = active(3);
    assert!(matches!(
        handle_message(&mut partitions, 4, marker(1, 1, SnapshotFlags::MEMORY)),
        Err(DcpError::Stream { message, .. }) if message.contains("opaque")
    ));
    assert!(handle_message(&mut BTreeMap::new(), 3, marker(1, 1, 1)).is_err());
}

#[test]
fn worker_tells_topology_notifications_from_messages() {
    assert_eq!(
        route_frame(&Frame::request(OPCODE_GET_CLUSTER_CONFIG)).unwrap(),
        FrameRoute::TopologyConfig
    );
    assert_eq!(
        route_frame(&Frame::request(0x57)).unwrap(),
        FrameRoute::Message
    );
    assert!(route_frame(&Frame::response(0x57, 0)).is_err());
}

fn rollback_log() -> Vec<FailoverEntry> {
    vec![
        FailoverEntry {
            vbucket_uuid: 0xbbbb,
            seqno: 10,
        },
        FailoverEntry {
            vbucket_uuid: 0xaaaa,
            seqno: 0,
        },
    ]
}

fn opening(policy: RollbackPolicy) -> PartitionOpening {
    let start = StartPosition::Checkpoint(checkpoint(50, 40, 60, None));
    PartitionOpening::new(resolve(7, &start, DcpMode::Infinite, None), policy)
}

#[test]
fn stop_policy_returns_typed_rollback_with_fresh_failover_log() {
    let mut opening = opening(RollbackPolicy::StopAndReport);
    assert!(matches!(
        opening.on_response(&StreamRequestResponse::Rollback(20), 1),
        Ok(OpenProgress::RollbackTo(20))
    ));
    let asked = opening.rollback_request(20, rollback_log());
    assert_eq!(asked.checkpoint.seqno, 50);
    let result = opening.on_action(20, rollback_log(), None);
    assert!(matches!(
        result,
        Err(DcpError::RollbackRequired {
            requested_seqno: 50,
            rollback_seqno: 20,
            ..
        })
    ));
}

#[test]
fn explicit_rewind_reopens_on_covering_failover_branch_and_is_reported() {
    let mut opening = opening(RollbackPolicy::RewindAndReplay);
    opening
        .on_response(&StreamRequestResponse::Rollback(20), 1)
        .unwrap();
    opening
        .on_action(20, rollback_log(), None)
        .unwrap();
    let reopened = opening.request().wire_request();
    assert_eq!(reopened.start_seqno, 20);
    assert_eq!(reopened.vbucket_uuid, 0xbbbb);
    let opened = opening.on_response(
        &StreamRequestResponse::Opened(vec![FailoverEntry {
            vbucket_uuid: 0xbbbb,
            seqno: 10,
        }]),
        2,
    );
    let state = match opened {
        Ok(OpenProgress::Opened(state)) => state,
        _ => panic!("the stream must open"),
    };
    let mut report = StreamOpenReport::new();
    report.record(state, opening.into_rollbacks());

    assert_eq!(
        report.rollbacks(),
        &[RollbackApplied {
            vbucket: 7,
            requested_seqno: 50,
            rollback_seqno: 20,
            vbucket_uuid: 0xbbbb,
        }]
    );
    let effective = report.partitions()[&7].checkpoint();
    assert_eq!(effective.seqno, 20);
    assert_eq!(effective.snapshot_start, 20);
    assert_eq!(effective.snapshot_end, 20);
    assert_eq!(effective.vbucket_uuid, 0xbbbb);
    assert_eq!(effective.manifest_uid, None);
}

#[test]
fn handler_decides_only_where_the_policy_delegates() {
    let rollback = StreamRequestResponse::Rollback(20);
    for (policy, delegated, rewinds) in [
        (RollbackPolicy::StopAndReport, Some(RollbackAction::RewindAndReplay), false),
        (RollbackPolicy::RewindAndReplay, Some(RollbackAction::StopAndReport), true),
        (RollbackPolicy::DelegateToHandler, Some(RollbackAction::StopAndReport), false),
        (RollbackPolicy::DelegateToHandler, Some(RollbackAction::RewindAndReplay), true),
    ] {
        let mut opening = opening(policy);
        opening.on_response(&rollback, 1).unwrap();
        assert_eq!(opening.on_action(20, rollback_log(), delegated).is_ok(), rewinds);
        assert_eq!(opening.into_rollbacks().len(), usize::from(rewinds));
    }
    assert_eq!(
        decide_rollback(RollbackPolicy::DelegateToHandler, Some(RollbackAction::StopAndReport)).unwrap(),
        RollbackAction::StopAndReport
    );
    assert!(decide_rollback(RollbackPolicy::DelegateToHandler, None).is_err());
    let mut unhandled = opening(RollbackPolicy::DelegateToHandler);
    unhandled.on_response(&rollback, 1).unwrap();
    assert_eq!(
        unhandled.on_action(20, rollback_log(), None).unwrap_err().to_text(),
        "invalid configuration: DelegateToHandler rollback policy requires a rollback handler"
    );
}

#[test]
fn reports_explain_their_rewinds() {
    let mut opening = opening(RollbackPolicy::RewindAndReplay);
    for seqno in [30, 20] {
        opening
            .on_response(&StreamRequestResponse::Rollback(seqno), 1)
            .unwrap();
        opening.on_action(seqno, rollback_log(), None).unwrap();
    }
    let response = StreamRequestResponse::Opened(rollback_log());
    let state = match opening.on_response(&response, 2) {
        Ok(OpenProgress::Opened(state)) => state,
        _ => panic!("the stream must open"),
    };
    let mut report = StreamOpenReport::new();
    report.record(state, opening.into_rollbacks());
    let rewinds = report.rollbacks();
    assert_eq!(rewinds.len(), 2);
    for rewind in rewinds {
        assert!(rewind.rollback_seqno < rewind.requested_seqno);
        let log = rollback_log();
        let branch = log
            .iter()
            .find(|entry| entry.seqno <= rewind.rollback_seqno)
            .unwrap();
        assert_eq!(rewind.vbucket_uuid, branch.vbucket_uuid);
    }
    assert_eq!(rewinds[0].rollback_seqno, rewinds[1].requested_seqno);
    assert_eq!(rewinds[1].rollback_seqno, report.partitions()[&7].start_seqno);
}

#[test]
fn rewinds_go_back_and_end() {
    let mut forward = opening(RollbackPolicy::RewindAndReplay);
    assert!(forward
        .on_response(&StreamRequestResponse::Rollback(50), 1)
        .is_err());
    let mut empty = opening(RollbackPolicy::RewindAndReplay);
    assert!(empty
        .on_response(&StreamRequestResponse::Opened(Vec::new()), 1)
        .is_err());
    let mut uncovered = opening(RollbackPolicy::RewindAndReplay);
    uncovered
        .on_response(&StreamRequestResponse::Rollback(20), 1)
        .unwrap();
    assert!(uncovered
        .on_action(
            20,
            vec![FailoverEntry {
                vbucket_uuid: 1,
                seqno: 30,
            }],
            None,
        )
        .is_err());
    let mut endless = opening(RollbackPolicy::RewindAndReplay);
    for seqno in 0..16_u64 {
        endless
            .on_response(&StreamRequestResponse::Rollback(40 - seqno), 1)
            .unwrap();
        endless
            .on_action(40 - seqno, failover_log(), None)
            .unwrap();
    }
    assert!(matches!(
        endless.on_response(&StreamRequestResponse::Rollback(1), 1),
        Err(DcpError::Stream { .. })
    ));
}

#[test]
fn close_synthesizes_stream_end_for_older_server() {
    let mut partitions = active(3);
    assert_eq!(close_target(&partitions, 7).unwrap(), None);
    assert!(matches!(
        after_close(&mut partitions, 7, false),
        Some(DcpEvent::StreamEnd(StreamEnd {
            reason: StreamEndReason::Closed,
            ..
        }))
    ));
    assert!(partitions.is_empty());
    assert!(close_target(&partitions, 7).is_err());

    let mut kept = active(3);
    assert!(after_close(&mut kept, 7, true).is_none());
    assert_eq!(kept.len(), 1);
}

#[test]
fn partition_progress_rejects_non_monotonic_sequence_numbers() {
    let mut progress = PartitionProgress::new(0, 10, None, 0);
    progress
        .observe(&marker(1, 10, SnapshotFlags::MEMORY))
        .unwrap();
    progress.observe(&advance(5)).unwrap();

    assert!(progress.observe(&advance(4)).is_err());

    let mut history_progress = PartitionProgress::new(0, 10, None, 0);
    history_progress
        .observe(&marker(
            1,
            10,
            SnapshotFlags::HISTORY | SnapshotFlags::MAY_CONTAIN_DUPLICATES,
        ))
        .unwrap();
    history_progress.observe(&advance(5)).unwrap();
    assert!(history_progress.observe(&advance(5)).is_err());
}

#[test]
fn oso_event_conversion_remains_visible_without_enabling_oso() {
    let event = convert_event(DcpMessage::OsoSnapshot(WireOsoSnapshot {
        vbucket: 7,
        stream_id: None,
        state: OsoSnapshotState::Begin,
    }))
    .unwrap();
    assert!(matches!(
        event,
        DcpEvent::OsoSnapshot(OsoSnapshot {
            state: OsoSnapshotState::Begin,
            ..
        })
    ));
}
