//! Processed and durable progress.
use std::collections::BTreeMap;

use rust_dcp::adapters::CheckpointStreamItem;
use rust_dcp::checkpoint::DcpCheckpoint;
use rust_dcp::checkpoint_runtime::{
    accept_loaded, prepare_load, CheckpointCoordinator, CheckpointFlushReport,
};
use rust_dcp::config::{CheckpointConfig, CheckpointMode};
use rust_dcp::error::{DcpError, Result};
use rust_dcp::event::{DcpEvent, SeqNoAdvanced, SnapshotFlags, SnapshotMarker, SystemEvent, SystemEventKind};
use rust_dcp::interval::Interval;
use rust_dcp::protocol::Frame;
use rust_dcp::stream::DcpStreamItem;

struct MemoryStore {
    checkpoints: BTreeMap<u16, DcpCheckpoint>,
}

impl MemoryStore {
    fn new() -> Self {
        MemoryStore {
            checkpoints: BTreeMap::new(),
        }
    }

    fn saved(&self, vbucket: u16) -> Option<&DcpCheckpoint> {
        self.checkpoints.get(&vbucket)
    }

    fn flush(&mut self, coordinator: &mut CheckpointCoordinator) -> Result<CheckpointFlushReport> {
        let dirty = coordinator.begin_flush()?;
        for item in &dirty {
            self.checkpoints
                .insert(item.vbucket, item.checkpoint.clone());
        }
        coordinator.finish_flush(&dirty, Ok(()), Interval::from_millis(1))
    }
}

fn manual_config() -> CheckpointConfig {
    CheckpointConfig {
        mode: CheckpointMode::Manual,
        timeout: Interval::from_secs(1),
    }
}

fn checkpoint(vbucket: u16) -> DcpCheckpoint {
    DcpCheckpoint {
        bucket_uuid: Some("bucket-id".to_string()),
        vbucket,
        vbucket_uuid: 0xaaaa,
        seqno: 0,
        snapshot_start: 0,
        snapshot_end: 0,
        manifest_uid: None,
    }
}

fn snapshot(vbucket: u16, start: u64, end: u64) -> DcpEvent {
    DcpEvent::SnapshotMarker(SnapshotMarker {
        vbucket,
        start_seqno: start,
        end_seqno: end,
        flags: SnapshotFlags(SnapshotFlags::MEMORY),
        high_completed_seqno: None,
        max_visible_seqno: None,
        purge_seqno: None,
    })
}

fn progress(vbucket: u16, seqno: u64) -> DcpEvent {
    DcpEvent::SeqNoAdvanced(SeqNoAdvanced { vbucket, seqno })
}

fn coordinator() -> CheckpointCoordinator {
    CheckpointCoordinator::new(&manual_config(), &BTreeMap::from([(7, checkpoint(7))]))
        .unwrap_or_else(|_| panic!("start is valid"))
}

#[test]
fn out_of_order_ack_advances_only_contiguous_delivery() {
    let mut store = MemoryStore::new();
    let mut coordinator = coordinator();
    assert!(coordinator
        .track_event(snapshot(7, 1, 2))
        .unwrap()
        .acknowledge(&mut coordinator)
        .unwrap()
        .is_none());
    let first = coordinator.track_event(progress(7, 1)).unwrap();
    let second = coordinator.track_event(progress(7, 2)).unwrap();

    let second_outcome = second.acknowledge(&mut coordinator).unwrap().unwrap();
    assert_eq!(second_outcome.advanced_to, None);
    assert_eq!(coordinator.statuses()[&7].processed.seqno, 0);

    let first_outcome = first.acknowledge(&mut coordinator).unwrap().unwrap();
    assert_eq!(first_outcome.advanced_to.unwrap().seqno, 2);
    assert_eq!(first_outcome.pending_events, 0);
    assert!(coordinator.statuses()[&7].dirty);

    let report = store.flush(&mut coordinator).unwrap();
    assert_eq!(report.attempted, 1);
    assert_eq!(report.remaining_dirty, 0);
    assert_eq!(store.saved(7).unwrap().seqno, 2);
}

#[test]
fn forced_dirty_persists_an_unchanged_fallback_checkpoint() {
    let mut store = MemoryStore::new();
    let mut coordinator = coordinator();

    assert!(!coordinator.statuses()[&7].dirty);
    assert_eq!(store.flush(&mut coordinator).unwrap().attempted, 0);

    coordinator.mark_dirty(7).unwrap();
    assert!(coordinator.statuses()[&7].dirty);
    let report = store.flush(&mut coordinator).unwrap();

    assert_eq!(report.attempted, 1);
    assert_eq!(report.persisted, 1);
    assert_eq!(report.remaining_dirty, 0);
    assert_eq!(store.saved(7), Some(&checkpoint(7)));
    assert!(!coordinator.statuses()[&7].dirty);
}

#[test]
fn reconnect_rebases_processed_state_and_invalidates_old_ack_tokens() {
    let mut store = MemoryStore::new();
    let mut coordinator = coordinator();
    coordinator.track_event(snapshot(7, 1, 2)).unwrap();
    coordinator
        .track_event(progress(7, 1))
        .unwrap()
        .acknowledge(&mut coordinator)
        .unwrap();
    let stale = coordinator.track_event(progress(7, 2)).unwrap();
    let mut effective = coordinator.processed_checkpoints()[&7].clone();
    effective.vbucket_uuid = 0xbbbb;

    coordinator
        .rebase_partitions(&BTreeMap::from([(7, effective.clone())]))
        .unwrap();

    let statuses = coordinator.statuses();
    assert_eq!(statuses[&7].processed, effective);
    assert_eq!(statuses[&7].pending_events, 0);
    assert!(statuses[&7].dirty);
    assert!(stale.acknowledge(&mut coordinator).is_err());

    coordinator.track_event(snapshot(7, 2, 2)).unwrap();
    coordinator
        .track_event(progress(7, 2))
        .unwrap()
        .acknowledge(&mut coordinator)
        .unwrap();
    store.flush(&mut coordinator).unwrap();
    assert_eq!(store.saved(7).unwrap().vbucket_uuid, 0xbbbb);
    assert_eq!(store.saved(7).unwrap().seqno, 2);
}

#[test]
fn concurrent_ack_during_flush_remains_dirty_for_the_next_flush() {
    let mut store = MemoryStore::new();
    let mut coordinator = coordinator();
    coordinator.track_event(snapshot(7, 1, 2)).unwrap();
    coordinator
        .track_event(progress(7, 1))
        .unwrap()
        .acknowledge(&mut coordinator)
        .unwrap();

    let flushing = coordinator.begin_flush().unwrap();
    coordinator
        .track_event(progress(7, 2))
        .unwrap()
        .acknowledge(&mut coordinator)
        .unwrap();

    let report = coordinator
        .finish_flush(&flushing, Ok(()), Interval::from_millis(1))
        .unwrap();
    assert_eq!(report.remaining_dirty, 1);
    let statuses = coordinator.statuses();
    assert_eq!(statuses[&7].durable.seqno, 1);
    assert_eq!(statuses[&7].processed.seqno, 2);
    assert!(statuses[&7].dirty);

    store.flush(&mut coordinator).unwrap();
    assert_eq!(store.saved(7).unwrap().seqno, 2);
}

#[test]
fn automatic_mode_uses_tokio_scheduler_and_flushes_processed_progress() {
    let mut store = MemoryStore::new();
    let config = CheckpointConfig {
        mode: CheckpointMode::Automatic {
            flush_interval: Interval::from_millis(5),
        },
        timeout: Interval::from_secs(1),
    };
    let mut coordinator =
        CheckpointCoordinator::new(&config, &BTreeMap::from([(7, checkpoint(7))]))
            .unwrap_or_else(|_| panic!("start is valid"));
    coordinator.track_event(snapshot(7, 1, 1)).unwrap();
    coordinator
        .track_event(progress(7, 1))
        .unwrap()
        .acknowledge(&mut coordinator)
        .unwrap();

    for _tick in 0..3 {
        store.flush(&mut coordinator).unwrap();
    }
    assert_eq!(store.saved(7).unwrap().seqno, 1);
    assert_eq!(coordinator.metrics().flush_attempts, 1);
}

#[test]
fn store_timeout_keeps_checkpoint_dirty() {
    let mut store = MemoryStore::new();
    let config = CheckpointConfig {
        mode: CheckpointMode::Manual,
        timeout: Interval::from_millis(10),
    };
    let mut coordinator =
        CheckpointCoordinator::new(&config, &BTreeMap::from([(7, checkpoint(7))]))
            .unwrap_or_else(|_| panic!("start is valid"));
    coordinator.track_event(snapshot(7, 1, 1)).unwrap();
    coordinator
        .track_event(progress(7, 1))
        .unwrap()
        .acknowledge(&mut coordinator)
        .unwrap();

    let dirty = coordinator.begin_flush().unwrap();
    let timed_out = Err(DcpError::Timeout(Interval::from_millis(10)));
    assert!(matches!(
        coordinator.finish_flush(&dirty, timed_out, Interval::from_millis(10)),
        Err(DcpError::Timeout(_))
    ));
    assert!(coordinator.statuses()[&7].dirty);
    assert_eq!(coordinator.metrics().flush_failures, 1);
    assert_eq!(
        coordinator.metrics().last_flush_error.as_deref(),
        Some("operation timed out after 10ms")
    );

    coordinator.track_event(snapshot(7, 2, 2)).unwrap();
    coordinator
        .track_event(progress(7, 2))
        .unwrap()
        .acknowledge(&mut coordinator)
        .unwrap();
    store.flush(&mut coordinator).unwrap();
    assert_eq!(store.saved(7).unwrap().seqno, 2);
    assert_eq!(coordinator.metrics().last_flush_error, None);
}

#[test]
fn flush_gate_timeout_counts_an_attempt_and_a_failure() {
    let mut coordinator = coordinator();
    coordinator.mark_dirty(7).unwrap();
    coordinator
        .record_flush_failure(
            Interval::from_secs(1),
            &DcpError::Timeout(Interval::from_secs(1)),
            true,
        )
        .unwrap();
    assert_eq!(coordinator.metrics().flush_attempts, 1);
    assert_eq!(coordinator.metrics().flush_failures, 1);
    assert!(coordinator.has_dirty());
}

#[test]
fn stream_adapter_preserves_control_items_and_registers_events() {
    let mut coordinator = coordinator();

    assert!(matches!(
        coordinator
            .wrap(DcpStreamItem::TopologyConfig {
                source: "node-a".to_string(),
                payload: b"config".to_vec(),
            })
            .unwrap(),
        CheckpointStreamItem::TopologyConfig { .. }
    ));
    assert!(matches!(
        coordinator
            .wrap(DcpStreamItem::Unknown(Frame::request(0x63)))
            .unwrap(),
        CheckpointStreamItem::Unknown(_)
    ));
    let marker = match coordinator
        .wrap(DcpStreamItem::Event(snapshot(7, 1, 1)))
        .unwrap()
    {
        CheckpointStreamItem::Event(marker) => marker,
        _ => panic!("expected marker"),
    };
    assert!(!marker.requires_ack());
    let event = match coordinator
        .wrap(DcpStreamItem::Event(progress(7, 1)))
        .unwrap()
    {
        CheckpointStreamItem::Event(event) => event,
        _ => panic!("expected progress event"),
    };
    assert!(event.requires_ack());
    event.acknowledge(&mut coordinator).unwrap();
    assert_eq!(coordinator.statuses()[&7].processed.seqno, 1);
}

#[test]
fn events_outside_their_snapshot_are_refused() {
    let mut coordinator = coordinator();
    assert!(coordinator.track_event(progress(7, 1)).is_err());
    assert!(coordinator.track_event(progress(9, 1)).is_err());
    assert!(coordinator.track_event(snapshot(7, 3, 2)).is_err());
    coordinator.track_event(snapshot(7, 1, 2)).unwrap();
    assert!(coordinator.track_event(progress(7, 3)).is_err());
    coordinator.track_event(progress(7, 2)).unwrap();
    let error = coordinator.track_event(progress(7, 2)).unwrap_err();
    assert_eq!(
        error.to_text(),
        "checkpoint error: seqno 2 is non-monotonic or outside snapshot 1..=2 for vBucket 7"
    );
}

#[test]
fn system_events_carry_their_manifest_into_the_checkpoint() {
    let mut coordinator = coordinator();
    coordinator.track_event(snapshot(7, 1, 2)).unwrap();
    let event = coordinator
        .track_event(DcpEvent::SystemEvent(SystemEvent {
            vbucket: 7,
            seqno: 1,
            manifest_uid: 0x2b,
            version: 0,
            key: b"hotel".to_vec(),
            kind: SystemEventKind::ScopeCreated { scope_id: 8 },
        }))
        .unwrap();
    let outcome = event.acknowledge(&mut coordinator).unwrap().unwrap();
    assert_eq!(outcome.advanced_to.unwrap().manifest_uid, Some(0x2b));
    let next = coordinator.track_event(progress(7, 2)).unwrap();
    let outcome = next.acknowledge(&mut coordinator).unwrap().unwrap();
    assert_eq!(outcome.advanced_to.unwrap().manifest_uid, Some(0x2b));
}

#[test]
fn initial_checkpoints_belong_to_one_bucket() {
    let config = manual_config();
    assert!(CheckpointCoordinator::new(&config, &BTreeMap::new()).is_err());
    let mut nameless = checkpoint(7);
    nameless.bucket_uuid = None;
    assert!(CheckpointCoordinator::new(&config, &BTreeMap::from([(7, nameless)])).is_err());
    assert!(CheckpointCoordinator::new(&config, &BTreeMap::from([(8, checkpoint(7))])).is_err());
    let mut other = checkpoint(8);
    other.bucket_uuid = Some("other".to_string());
    let mixed = CheckpointCoordinator::new(
        &config,
        &BTreeMap::from([(7, checkpoint(7)), (8, other)]),
    );
    match mixed {
        Err(error) => assert_eq!(
            error.to_text(),
            "checkpoint error: checkpoint bucket UUID other does not match bucket-id"
        ),
        Ok(_) => panic!("buckets must not be mixed"),
    }
}

#[test]
fn rebase_checks_everything_before_it_changes_anything() {
    let mut coordinator = CheckpointCoordinator::new(
        &manual_config(),
        &BTreeMap::from([(7, checkpoint(7)), (8, checkpoint(8))]),
    )
    .unwrap_or_else(|_| panic!("start is valid"));
    let mut moved = checkpoint(7);
    moved.vbucket_uuid = 0xbbbb;
    let mut foreign = checkpoint(8);
    foreign.bucket_uuid = Some("other".to_string());
    assert!(coordinator
        .rebase_partitions(&BTreeMap::from([(7, moved), (8, foreign)]))
        .is_err());
    assert_eq!(coordinator.status(7).unwrap().processed, checkpoint(7));
    assert!(coordinator.status(9).is_none());
    assert!(coordinator.mark_dirty(9).is_err());
}

#[test]
fn loads_are_checked_against_the_request() {
    let second = Interval::from_secs(1);
    assert!(prepare_load("bucket-id", &[7, 8], &second).is_ok());
    assert!(prepare_load("", &[7], &second).is_err());
    assert!(prepare_load("bucket-id", &[7, 7], &second).is_err());
    assert!(prepare_load("bucket-id", &[7], &Interval::from_secs(0)).is_err());

    let loaded = accept_loaded("bucket-id", &[7, 8], BTreeMap::from([(7, checkpoint(7))]));
    assert_eq!(loaded.unwrap()[&7], checkpoint(7));
    assert!(accept_loaded("bucket-id", &[8], BTreeMap::from([(7, checkpoint(7))])).is_err());
    assert!(accept_loaded("other", &[7], BTreeMap::from([(7, checkpoint(7))])).is_err());
    assert!(accept_loaded("bucket-id", &[8], BTreeMap::from([(8, checkpoint(7))])).is_err());
}
