//! Persistence of history before delivery.
use std::collections::BTreeMap;

use rust_dcp::bucket_config::{
    RawBucketConfig, RawNodeExt, RawNodeServices, RawVBucketServerMap,
};
use rust_dcp::error::DcpError;
use rust_dcp::event::{
    DcpEvent, SeqNoAdvanced, SnapshotFlags, SnapshotMarker, StreamEnd, StreamEndReason,
};
use rust_dcp::protocol::ObserveSeqNoResponse;
use rust_dcp::rollback_mitigation::{
    aggregate_observations, mitigation_position, push_node_failure, MitigationSnapshot,
    ObservationOutcome, ObservationPlan, ObservationTarget, RawObservation, WaitStep,
};
use rust_dcp::topology::TopologyNetwork;

fn persisted(vbucket_uuid: u64, persisted_seqno: u64) -> BTreeMap<u16, ObservationOutcome> {
    BTreeMap::from([(
        7,
        ObservationOutcome::Persisted {
            vbucket_uuid,
            persisted_seqno,
        },
    )])
}

fn branch_changed(observed_vbucket_uuid: u64) -> BTreeMap<u16, ObservationOutcome> {
    BTreeMap::from([(
        7,
        ObservationOutcome::BranchChanged {
            observed_vbucket_uuid,
        },
    )])
}

fn snapshot() -> MitigationSnapshot {
    MitigationSnapshot::new(&BTreeMap::from([(7, 99)]))
        .unwrap_or_else(|_| panic!("branches are given"))
}

fn response(vbucket_uuid: u64, persisted_seqno: u64) -> ObserveSeqNoResponse {
    ObserveSeqNoResponse {
        did_failover: false,
        vbucket: 7,
        vbucket_uuid,
        persisted_seqno,
        current_seqno: 50,
        old_vbucket_uuid: None,
        last_seqno: None,
    }
}

fn target() -> ObservationTarget {
    ObservationTarget {
        vbucket: 7,
        expected_vbucket_uuid: 99,
    }
}

fn observed(response: ObserveSeqNoResponse) -> RawObservation {
    RawObservation {
        target: target(),
        result: Ok(response),
    }
}

#[test]
fn delivery_waits_until_every_copy_has_persisted_the_event() {
    let mut state = snapshot();
    state.apply(&persisted(99, 40));
    assert_eq!(
        state.wait_step(7, 41, false, false, "1s").unwrap(),
        WaitStep::Wait
    );
    state.apply(&persisted(99, 41));
    assert_eq!(
        state.wait_step(7, 41, true, false, "1s").unwrap(),
        WaitStep::Deliver { delayed: true }
    );
    assert_eq!(
        state.wait_step(7, 41, false, false, "1s").unwrap(),
        WaitStep::Deliver { delayed: false }
    );
}

#[test]
fn changed_history_branch_fails_the_wait_without_releasing_the_event() {
    let mut state = snapshot();
    state.apply(&branch_changed(100));
    assert!(!matches!(
        state.wait_step(7, 41, true, false, "30ms"),
        Ok(WaitStep::Deliver { .. })
    ));
    assert!(matches!(
        state.wait_step(7, 41, true, true, "30ms"),
        Err(DcpError::RollbackMitigation { .. })
    ));
}

#[test]
fn changed_history_invalidates_a_previously_safe_watermark() {
    let mut state = snapshot();
    state.apply(&persisted(99, 50));
    assert_eq!(
        state.wait_step(7, 45, false, false, "30ms").unwrap(),
        WaitStep::Deliver { delayed: false }
    );

    state.apply(&branch_changed(100));
    assert!(state.wait_step(7, 45, true, true, "30ms").is_err());
}

#[test]
fn stagnant_persistence_fails_within_the_configured_delivery_stall() {
    let mut state = snapshot();
    state.apply(&persisted(99, 40));
    assert!(matches!(
        state.wait_step(7, 41, true, true, "30ms"),
        Err(DcpError::RollbackMitigation { .. })
    ));
}

#[test]
fn active_and_replica_observations_use_the_minimum_persisted_seqno() {
    let batch = aggregate_observations(
        &BTreeMap::from([(7, 3)]),
        &vec![
            observed(response(99, 45)),
            observed(response(99, 42)),
            observed(response(99, 44)),
        ],
    );

    assert_eq!(
        batch.get(&7),
        Some(&ObservationOutcome::Persisted {
            vbucket_uuid: 99,
            persisted_seqno: 42,
        })
    );
}

#[test]
fn incomplete_copy_observation_is_transient() {
    let batch =
        aggregate_observations(&BTreeMap::from([(7, 2)]), &vec![observed(response(99, 45))]);

    assert!(matches!(
        batch.get(&7),
        Some(ObservationOutcome::Transient { .. })
    ));
}

#[test]
fn a_copy_on_another_branch_outweighs_the_others() {
    let batch = aggregate_observations(
        &BTreeMap::from([(7, 2)]),
        &vec![observed(response(99, 45)), observed(response(100, 45))],
    );
    assert_eq!(
        batch.get(&7),
        Some(&ObservationOutcome::BranchChanged {
            observed_vbucket_uuid: 100,
        })
    );
}

#[test]
fn node_failures_make_every_target_transient() {
    let mut observations = vec![observed(response(99, 45))];
    push_node_failure(&mut observations, &vec![target()], "node is down");
    assert_eq!(observations.len(), 2);
    let batch = aggregate_observations(&BTreeMap::from([(7, 2)]), &observations);
    match batch.get(&7) {
        Some(ObservationOutcome::Transient { message }) => {
            assert!(message.contains("node is down"))
        }
        _ => panic!("a failed copy is inconclusive"),
    }
}

fn node(uuid: &str, hostname: &str) -> RawNodeExt {
    RawNodeExt {
        hostname: Some(hostname.to_string()),
        services: RawNodeServices {
            kv: 11210,
            kv_ssl: 0,
        },
        alternate_addresses: Vec::new(),
        node_uuid: Some(uuid.to_string()),
        server_group: None,
    }
}

#[test]
fn observation_plan_includes_active_and_every_available_replica() {
    let topology = RawBucketConfig {
        rev: 1,
        rev_epoch: 0,
        name: "travel".to_string(),
        uuid: "bucket-uuid".to_string(),
        node_locator: "vbucket".to_string(),
        nodes_ext: vec![node("a", "node-a"), node("b", "node-b"), node("c", "node-c")],
        v_bucket_server_map: RawVBucketServerMap {
            hash_algorithm: "CRC".to_string(),
            num_replicas: 2,
            server_list: vec![
                "node-a:11210".to_string(),
                "node-b:11210".to_string(),
                "node-c:11210".to_string(),
            ],
            v_bucket_map: vec![vec![0, 1, 2], vec![1, 2, -1]],
        },
    }
    .build("node-a:11210", false, &TopologyNetwork::Default)
    .unwrap();

    let plan = ObservationPlan::new(&topology, &BTreeMap::from([(0, 99), (1, 100)])).unwrap();

    assert_eq!(plan.expected_copies, BTreeMap::from([(0, 3), (1, 2)]));
    assert_eq!(plan.nodes.len(), 3);
    assert_eq!(
        plan.nodes
            .iter()
            .map(|node| node.targets.len())
            .sum::<usize>(),
        5
    );
    assert_eq!(plan.nodes[0].address, "node-a:11210");
    assert!(ObservationPlan::new(&topology, &BTreeMap::from([(0, 0)])).is_err());
    assert!(ObservationPlan::new(&topology, &BTreeMap::from([(5, 9)])).is_err());
}

#[test]
fn mitigation_positions_cover_control_progress_without_gating_stream_end() {
    let marker = DcpEvent::SnapshotMarker(SnapshotMarker {
        vbucket: 7,
        start_seqno: 41,
        end_seqno: 45,
        flags: SnapshotFlags(SnapshotFlags::MEMORY),
        high_completed_seqno: None,
        max_visible_seqno: None,
        purge_seqno: None,
    });
    let advanced = DcpEvent::SeqNoAdvanced(SeqNoAdvanced {
        vbucket: 7,
        seqno: 45,
    });
    let ended = DcpEvent::StreamEnd(StreamEnd {
        vbucket: 7,
        reason: StreamEndReason::Finished,
    });

    assert_eq!(mitigation_position(&marker), Some((7, 41)));
    assert_eq!(mitigation_position(&advanced), Some((7, 45)));
    assert_eq!(mitigation_position(&ended), None);
}

#[test]
fn mitigation_needs_something_to_watch() {
    assert!(MitigationSnapshot::new(&BTreeMap::new()).is_err());
    assert!(snapshot().wait_step(9, 1, false, false, "1s").is_err());
    assert_eq!(
        snapshot().wait_step(7, 0, false, false, "1s").unwrap(),
        WaitStep::Deliver { delayed: false }
    );
}
