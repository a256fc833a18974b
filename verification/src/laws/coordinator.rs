//! Laws of checkpoint coordination.
use std::collections::BTreeMap;
use vstd::prelude::*;

use crate::checkpoint::{DcpCheckpoint, Position};
use crate::checkpoint_runtime::{
    accept_loaded, dirty_models, found, has_duplicates, initial_fault, loaded_fault, marked,
    positions_of, prepare_load, rebase_fault, saved_all, settled, smallest, start_checkpoint_fault,
    AckOutcome, CheckpointCoordinator, CheckpointFlushReport, DirtyCheckpoint, DirtyModel,
    EventAck, PartitionCheckpointStatus, PartitionModel, PendingModel, TrackedEvent,
};
use crate::config::CheckpointConfig;
use crate::error::Result;
use crate::event::DcpEvent;
use crate::interval::Interval;
use crate::lists::first_where_ensures;
use crate::maps::{keyed_fault, keyed_fault_is_of_a_key};
use crate::text::opt_text;

verus! {

broadcast use {vstd::std_specs::btree::group_btree_axioms, vstd::laws_cmp::group_laws_cmp};

/// Every vBucket starts where its checkpoint stands: processed and durable,
/// clean, with nothing to acknowledge.
pub proof fn coordination_starts_at_the_checkpoints(
    config: CheckpointConfig,
    checkpoints: BTreeMap<u16, DcpCheckpoint>,
    coordinator: CheckpointCoordinator,
    v: u16,
    status: Option<PartitionCheckpointStatus>,
)
    requires
        call_ensures(CheckpointCoordinator::new, (&config, &checkpoints), Ok(coordinator)),
        call_ensures(CheckpointCoordinator::status, (&coordinator, v), status),
    ensures
        status is Some <==> checkpoints@.contains_key(v),
        status matches Some(s) ==> {
            &&& s.durable@ == checkpoints@[v]@
            &&& s.processed@ == checkpoints@[v]@
            &&& s.pending_events == 0
            &&& !s.dirty
        },
{
    assert(coordinator@.partitions.dom().contains(v) <==> checkpoints@.dom().contains(v));
}

proof fn faultless_start_names_its_bucket(p: Position, v: u16, expected: Option<Seq<char>>)
    requires
        start_checkpoint_fault(p, v, expected) is None,
    ensures
        p.vbucket == v,
        p.bucket_uuid is Some,
        p.bucket_uuid->0.len() > 0,
{
    reveal(start_checkpoint_fault);
}

/// Coordination needs at least one checkpoint, each sound, under its own
/// vBucket, and all of one known bucket.
pub proof fn coordination_needs_sound_checkpoints(
    config: CheckpointConfig,
    checkpoints: BTreeMap<u16, DcpCheckpoint>,
    result: Result<CheckpointCoordinator>,
    checked: Result<()>,
)
    requires
        call_ensures(CheckpointCoordinator::new, (&config, &checkpoints), result),
        call_ensures(CheckpointConfig::validate, (&config,), checked),
    ensures
        result is Ok ==> checked is Ok && checkpoints@.len() > 0,
        result is Ok ==> forall|v: u16| #[trigger]
            checkpoints@.contains_key(v) ==> {
                let c = checkpoints@[v];
                &&& c.vbucket == v
                &&& c.snapshot_start <= c.seqno <= c.snapshot_end
                &&& c.bucket_uuid is Some && c.bucket_uuid->0@.len() > 0
            },
        result is Ok ==> forall|v: u16, w: u16|
            #![trigger checkpoints@.contains_key(v), checkpoints@.contains_key(w)]
            checkpoints@.contains_key(v) && checkpoints@.contains_key(w) ==> opt_text(
                checkpoints@[v].bucket_uuid,
            ) == opt_text(checkpoints@[w].bucket_uuid),
{
    if result is Ok {
        let positions = positions_of(checkpoints@);
        assert(positions.dom() =~= checkpoints@.dom());
        let fault = |v: u16| initial_fault(positions, v);
        keyed_fault_is_of_a_key(positions.dom(), fault);
        assert forall|v: u16| #[trigger] checkpoints@.contains_key(v) implies {
            let c = checkpoints@[v];
            &&& c.vbucket == v
            &&& c.snapshot_start <= c.seqno <= c.snapshot_end
            &&& c.bucket_uuid is Some && c.bucket_uuid->0@.len() > 0
        } by {
            assert(positions.dom().contains(v));
            assert(fault(v) is None);
            assert(positions[v] == checkpoints@[v]@);
            crate::checkpoint::fault_free_is_valid(positions[v]);
            faultless_start_names_its_bucket(
                positions[v],
                v,
                if v == smallest(positions.dom()) {
                    None
                } else {
                    positions[smallest(positions.dom())].bucket_uuid
                },
            );
            assert(positions[v].bucket_uuid == opt_text(checkpoints@[v].bucket_uuid));
        }
    }
}

/// What a message's event is registered for: its own vBucket and sequence
/// number. The event itself is handed on unchanged; a marker or the like needs
/// no acknowledgement; and registering moves no checkpoint.
pub proof fn tracked_events_are_handed_on(
    coordinator: &mut CheckpointCoordinator,
    event: DcpEvent,
    followed: TrackedEvent,
    content: &DcpEvent,
    needs_ack: bool,
    v: u16,
    before: Option<PartitionCheckpointStatus>,
    after: Option<PartitionCheckpointStatus>,
)
    requires
        call_ensures(CheckpointCoordinator::track_event, (coordinator, event), Ok(followed)),
        call_ensures(TrackedEvent::event, (&followed,), content),
        call_ensures(TrackedEvent::requires_ack, (&followed,), needs_ack),
        call_ensures(CheckpointCoordinator::status, (old(coordinator), v), before),
        call_ensures(CheckpointCoordinator::status, (final(coordinator), v), after),
    ensures
        *content == event,
        needs_ack <==> event is Mutation || event is Deletion || event is Expiration
            || event is SeqNoAdvanced || event is SystemEvent,
        before is Some <==> after is Some,
        before is Some ==> {
            &&& after->0.durable@ == before->0.durable@
            &&& after->0.processed@ == before->0.processed@
            &&& after->0.dirty == before->0.dirty
        },
{
}

/// vBucket of an event.
pub open spec fn is_of(event: DcpEvent, v: u16) -> bool {
    match event {
        DcpEvent::Mutation(e) => e.vbucket == v,
        DcpEvent::Deletion(e) => e.vbucket == v,
        DcpEvent::Expiration(e) => e.vbucket == v,
        DcpEvent::SnapshotMarker(e) => e.vbucket == v,
        DcpEvent::StreamEnd(e) => e.vbucket == v,
        DcpEvent::SeqNoAdvanced(e) => e.vbucket == v,
        DcpEvent::SystemEvent(e) => e.vbucket == v,
        DcpEvent::OsoSnapshot(e) => e.vbucket == v,
    }
}

/// Sequence number of an event that has one.
pub open spec fn stands_at(event: DcpEvent, seqno: u64) -> bool {
    match event {
        DcpEvent::Mutation(e) => e.seqno == seqno,
        DcpEvent::Deletion(e) => e.seqno == seqno,
        DcpEvent::Expiration(e) => e.seqno == seqno,
        DcpEvent::SeqNoAdvanced(e) => e.seqno == seqno,
        DcpEvent::SystemEvent(e) => e.seqno == seqno,
        _ => false,
    }
}

/// An event is accepted for a followed vBucket only, and a sequence number only
/// inside the announced snapshot and above all that were accepted before. What
/// is refused changes nothing.
pub proof fn events_are_accepted_in_order(
    coordinator: &mut CheckpointCoordinator,
    event: DcpEvent,
    result: Result<TrackedEvent>,
    v: u16,
    seqno: u64,
)
    requires
        call_ensures(CheckpointCoordinator::track_event, (coordinator, event), result),
        is_of(event, v),
    ensures
        result is Err ==> final(coordinator)@ == old(coordinator)@,
        !old(coordinator)@.partitions.contains_key(v) ==> result is Err,
        old(coordinator)@.partitions.contains_key(v) && stands_at(event, seqno) ==> {
            let p = old(coordinator)@.partitions[v];
            &&& result is Ok <==> p.snapshot is Some && (p.snapshot->0).0 <= seqno
                <= (p.snapshot->0).1 && p.last_registered < seqno && p.next_delivery_id < u64::MAX
            &&& result is Ok ==> final(coordinator)@.partitions[v].pending.len() == p.pending.len()
                + 1 && final(coordinator)@.partitions[v].last_registered == seqno
        },
        old(coordinator)@.partitions.contains_key(v) ==> (event matches DcpEvent::SnapshotMarker(m)
            ==> {
            &&& result is Ok <==> m.start_seqno <= m.end_seqno
                && old(coordinator)@.partitions[v].processed.seqno <= m.end_seqno
            &&& result is Ok ==> final(coordinator)@.partitions[v].snapshot == Some(
                (m.start_seqno, m.end_seqno),
            )
        }),
        old(coordinator)@.partitions.contains_key(v) && (event is StreamEnd || event is OsoSnapshot)
            ==> result is Ok,
        result matches Err(e) ==> e is Checkpoint,
{
}

/// The position that waits for the acknowledgement of an event: its sequence
/// number in the announced snapshot, on the history of its vBucket; the
/// manifest is the system event's, or else the last one known.
pub proof fn pending_positions_are_the_events(
    coordinator: &mut CheckpointCoordinator,
    event: DcpEvent,
    followed: TrackedEvent,
    v: u16,
    seqno: u64,
)
    requires
        call_ensures(CheckpointCoordinator::track_event, (coordinator, event), Ok(followed)),
        is_of(event, v),
        stands_at(event, seqno),
    ensures
        final(coordinator)@.partitions.contains_key(v),
        ({
            let p = old(coordinator)@.partitions[v];
            let q = final(coordinator)@.partitions[v];
            let newest = q.pending.last();
            &&& q.pending.drop_last() == p.pending
            &&& newest.position.vbucket == (if p.pending.len() == 0 {
                p.processed.vbucket
            } else {
                p.pending.last().position.vbucket
            })
            &&& newest.position.seqno == seqno
            &&& newest.position.snapshot_start == (p.snapshot->0).0
            &&& newest.position.snapshot_end == (p.snapshot->0).1
            &&& !newest.acknowledged
            &&& p.pending.len() == 0 ==> newest.position.vbucket_uuid == p.processed.vbucket_uuid
                && newest.position.bucket_uuid == p.processed.bucket_uuid
            &&& p.pending.len() > 0 ==> newest.position.vbucket_uuid
                == p.pending.last().position.vbucket_uuid && newest.position.bucket_uuid
                == p.pending.last().position.bucket_uuid
            &&& event matches DcpEvent::SystemEvent(e) ==> newest.position.manifest_uid == Some(
                e.manifest_uid,
            )
            &&& !(event is SystemEvent) && p.pending.len() == 0 ==> newest.position.manifest_uid
                == p.processed.manifest_uid
            &&& !(event is SystemEvent) && p.pending.len() > 0 ==> newest.position.manifest_uid
                == p.pending.last().position.manifest_uid
        }),
        forall|w: u16|
            #![trigger final(coordinator)@.partitions.contains_key(w)]
            w != v ==> (final(coordinator)@.partitions.contains_key(w) <==> old(
                coordinator)@.partitions.contains_key(w)) && (old(
                coordinator)@.partitions.contains_key(w) ==> final(coordinator)@.partitions[w]
                == old(coordinator)@.partitions[w]),
{
    let p = old(coordinator)@.partitions[v];
    let q = final(coordinator)@.partitions[v];
    assert(q.pending.drop_last() =~= p.pending);
}

/// The delivery is acknowledged, now or before.
pub open spec fn done(p: PendingModel, delivery: u64) -> bool {
    p.acknowledged || p.delivery_id == delivery
}

/// Acknowledging advances the processed checkpoint to the end of the run of
/// acknowledged deliveries at the front, and to nothing else: a delivery that
/// is not acknowledged holds back all that come after it.
pub proof fn acknowledgements_advance_without_gaps(
    ack: EventAck,
    coordinator: &mut CheckpointCoordinator,
    outcome: AckOutcome,
)
    requires
        call_ensures(EventAck::acknowledge, (ack, coordinator), Ok(outcome)),
        forall|i: int, j: int|
            #![trigger old(coordinator)@.partitions[ack.partition()].pending[i], old(coordinator)@.partitions[ack.partition()].pending[j]]
            0 <= i < j < old(coordinator)@.partitions[ack.partition()].pending.len() ==> old(
                coordinator)@.partitions[ack.partition()].pending[i].delivery_id != old(
                coordinator)@.partitions[ack.partition()].pending[j].delivery_id,
    ensures
        ({
            let p = old(coordinator)@.partitions[ack.partition()];
            let q = final(coordinator)@.partitions[ack.partition()];
            let k = p.pending.len() - q.pending.len();
            &&& 0 <= k
            &&& forall|j: int| 0 <= j < k ==> done(#[trigger] p.pending[j], ack.delivery())
            &&& k < p.pending.len() ==> !done(p.pending[k], ack.delivery())
            &&& k > 0 ==> q.processed == p.pending[k - 1].position
            &&& k == 0 ==> q.processed == p.processed
            &&& forall|j: int|
                0 <= j < q.pending.len() ==> (#[trigger] q.pending[j]).position
                    == p.pending[k + j].position && q.pending[j].delivery_id
                    == p.pending[k + j].delivery_id && (q.pending[j].acknowledged <==> done(
                    p.pending[k + j],
                    ack.delivery(),
                ))
            &&& q.durable == p.durable
            &&& outcome.pending_events == q.pending.len()
            &&& outcome.advanced_to is Some <==> k > 0
            &&& outcome.advanced_to matches Some(c) ==> c@ == q.processed
        }),
        outcome.vbucket == ack.partition(),
        outcome.acknowledged_seqno == ack.position(),
{
    let p = old(coordinator)@.partitions[ack.partition()];
    let q = final(coordinator)@.partitions[ack.partition()];
    let wanted = |x: PendingModel| x.delivery_id == ack.delivery();
    first_where_ensures(p.pending, wanted);
    let i = found(p.pending, ack.delivery())->0;
    assert(wanted(p.pending[i]));
    let pending = marked(p.pending, i);
    let open = |x: PendingModel| !x.acknowledged;
    first_where_ensures(pending, open);
    let k = settled(pending);
    assert forall|j: int| 0 <= j < p.pending.len() implies (#[trigger] pending[j]).acknowledged
        == done(p.pending[j], ack.delivery()) && pending[j].position == p.pending[j].position
        && pending[j].delivery_id == p.pending[j].delivery_id by {
        if j != i && p.pending[j].delivery_id == ack.delivery() {
            if j < i {
                assert(p.pending[j].delivery_id != p.pending[i].delivery_id);
            } else {
                assert(p.pending[i].delivery_id != p.pending[j].delivery_id);
            }
        }
    }
    assert forall|j: int| 0 <= j < k implies done(#[trigger] p.pending[j], ack.delivery()) by {
        assert(!open(pending[j]));
    }
    if k < p.pending.len() {
        assert(open(pending[k]));
    }
    assert(q.pending =~= pending.skip(k));
    assert forall|j: int| 0 <= j < q.pending.len() implies (#[trigger] q.pending[j]).position
        == p.pending[k + j].position && q.pending[j].delivery_id == p.pending[k + j].delivery_id
        && (q.pending[j].acknowledged <==> done(p.pending[k + j], ack.delivery())) by {
        assert(q.pending[j] == pending[k + j]);
    }
}

/// An acknowledgement concerns its own vBucket only, counts for a delivery
/// that still waits, and is refused otherwise, with nothing changed.
pub proof fn acknowledgements_are_for_waiting_deliveries(
    ack: EventAck,
    coordinator: &mut CheckpointCoordinator,
    result: Result<AckOutcome>,
    w: u16,
)
    requires
        call_ensures(EventAck::acknowledge, (ack, coordinator), result),
    ensures
        result is Ok ==> old(coordinator)@.partitions.contains_key(ack.partition()) && exists|i: int|
            0 <= i < old(coordinator)@.partitions[ack.partition()].pending.len() && (#[trigger] old(
                coordinator)@.partitions[ack.partition()].pending[i]).delivery_id
                == ack.delivery(),
        w != ack.partition() ==> (final(coordinator)@.partitions.contains_key(w) <==> old(
            coordinator)@.partitions.contains_key(w)),
        w != ack.partition() && old(coordinator)@.partitions.contains_key(w) ==> final(
            coordinator)@.partitions[w] == old(coordinator)@.partitions[w],
        result matches Err(e) ==> e is Checkpoint,
{
    if result is Ok {
        let p = old(coordinator)@.partitions[ack.partition()];
        let wanted = |x: PendingModel| x.delivery_id == ack.delivery();
        first_where_ensures(p.pending, wanted);
        let i = found(p.pending, ack.delivery())->0;
        assert(wanted(p.pending[i]));
    }
}

/// The acknowledgement of the only waiting event moves the processed
/// checkpoint to that event, and makes it due for saving.
pub proof fn acknowledged_event_is_processed(
    coordinator: &mut CheckpointCoordinator,
    event: DcpEvent,
    followed: TrackedEvent,
    parts: (DcpEvent, Option<EventAck>),
    next: &mut CheckpointCoordinator,
    outcome: AckOutcome,
    v: u16,
    seqno: u64,
)
    requires
        call_ensures(CheckpointCoordinator::track_event, (coordinator, event), Ok(followed)),
        call_ensures(TrackedEvent::into_parts, (followed,), parts),
        is_of(event, v),
        stands_at(event, seqno),
        old(coordinator)@.partitions[v].pending.len() == 0,
        *old(next) == *final(coordinator),
        parts.1 is Some,
        call_ensures(EventAck::acknowledge, (parts.1->0, next), Ok(outcome)),
    ensures
        parts.0 == event,
        outcome.vbucket == v,
        outcome.acknowledged_seqno == seqno,
        outcome.pending_events == 0,
        outcome.advanced_to is Some,
        outcome.advanced_to->0.seqno == seqno,
        final(next)@.partitions[v].processed.seqno == seqno,
        final(next)@.partitions[v].processed.snapshot_start
            == (old(coordinator)@.partitions[v].snapshot->0).0,
        final(next)@.partitions[v].processed.snapshot_end
            == (old(coordinator)@.partitions[v].snapshot->0).1,
        final(next)@.partitions[v].processed.vbucket_uuid
            == old(coordinator)@.partitions[v].processed.vbucket_uuid,
        final(next)@.partitions[v].durable == old(coordinator)@.partitions[v].durable,
        final(next)@.partitions[v].generation == old(coordinator)@.partitions[v].generation + 1,
{
    let ack = parts.1->0;
    pending_positions_are_the_events(coordinator, event, followed, v, seqno);
    let p = old(next)@.partitions[v];
    assert(p.pending.len() == 1);
    assert(ack.partition() == v);
    acknowledgements_advance_without_gaps(ack, next, outcome);
    let wanted = |x: PendingModel| x.delivery_id == ack.delivery();
    first_where_ensures(p.pending, wanted);
    assert(wanted(p.pending[0]));
    assert(found(p.pending, ack.delivery()) == Some(0int));
    let pending = marked(p.pending, 0);
    let open = |x: PendingModel| !x.acknowledged;
    first_where_ensures(pending, open);
    assert(pending[0].acknowledged);
    assert(!open(pending[0]));
    assert(settled(pending) == 1);
    assert(outcome.advanced_to->0@.seqno == outcome.advanced_to->0.seqno);
}

/// The status tells what is durable, what is processed and how much waits, and
/// whether there is anything to save.
pub proof fn statuses_tell_the_state(
    coordinator: CheckpointCoordinator,
    v: u16,
    status: Option<PartitionCheckpointStatus>,
    all: BTreeMap<u16, PartitionCheckpointStatus>,
    processed: BTreeMap<u16, DcpCheckpoint>,
)
    requires
        call_ensures(CheckpointCoordinator::status, (&coordinator, v), status),
        call_ensures(CheckpointCoordinator::statuses, (&coordinator,), all),
        call_ensures(CheckpointCoordinator::processed_checkpoints, (&coordinator,), processed),
    ensures
        status is Some <==> coordinator@.partitions.contains_key(v),
        all@.contains_key(v) <==> status is Some,
        processed@.contains_key(v) <==> status is Some,
        status matches Some(s) ==> {
            let p = coordinator@.partitions[v];
            &&& s.durable@ == p.durable
            &&& s.processed@ == p.processed
            &&& s.pending_events == p.pending.len()
            &&& s.dirty <==> p.generation != p.durable_generation || p.durable != p.processed
            &&& all@[v].durable@ == s.durable@
            &&& all@[v].processed@ == s.processed@
            &&& all@[v].pending_events == s.pending_events
            &&& all@[v].dirty == s.dirty
            &&& processed@[v]@ == s.processed@
        },
{
    let keys = coordinator@.partitions.dom();
    assert(all@.dom().contains(v) <==> keys.contains(v));
    assert(processed@.dom().contains(v) <==> keys.contains(v));
}

/// There is something to save exactly when the status of a vBucket says so.
pub proof fn dirty_is_dirty_somewhere(coordinator: CheckpointCoordinator, dirty: bool, v: u16)
    requires
        call_ensures(CheckpointCoordinator::has_dirty, (&coordinator,), dirty),
        coordinator@.partitions.contains_key(v),
        coordinator@.partitions[v].generation != coordinator@.partitions[v].durable_generation
            || coordinator@.partitions[v].durable != coordinator@.partitions[v].processed,
        coordinator@.partitions.dom().finite(),
    ensures
        dirty,
{
    let d = coordinator@.dirty();
    assert(d.contains(v));
    assert(d.subset_of(coordinator@.partitions.dom()));
    vstd::set_lib::lemma_set_subset_finite(coordinator@.partitions.dom(), d);
    if d.len() == 0 {
        d.lemma_len0_is_empty();
    }
}

/// Marking makes a followed vBucket due for saving and moves no checkpoint.
pub proof fn marked_vbuckets_are_dirty(
    coordinator: &mut CheckpointCoordinator,
    v: u16,
    result: Result<()>,
    w: u16,
)
    requires
        call_ensures(CheckpointCoordinator::mark_dirty, (coordinator, v), result),
    ensures
        result is Ok <==> old(coordinator)@.partitions.contains_key(v) && old(
            coordinator)@.partitions[v].generation < u64::MAX,
        result is Err ==> final(coordinator)@ == old(coordinator)@,
        result is Ok ==> {
            let p = old(coordinator)@.partitions[v];
            let q = final(coordinator)@.partitions[v];
            &&& q.generation == p.generation + 1
            &&& q.durable_generation == p.durable_generation
            &&& q.processed == p.processed
            &&& q.durable == p.durable
            &&& q.pending == p.pending
        },
        w != v && old(coordinator)@.partitions.contains_key(w) ==> final(coordinator)@.partitions[w]
            == old(coordinator)@.partitions[w],
{
}

/// A flush saves the processed checkpoint of every vBucket that is due, once,
/// and of no other.
pub proof fn flushes_save_what_is_processed(
    coordinator: &mut CheckpointCoordinator,
    list: Vec<DirtyCheckpoint>,
    i: int,
)
    requires
        call_ensures(CheckpointCoordinator::begin_flush, (coordinator,), Ok(list)),
        0 <= i < list@.len(),
    ensures
        ({
            let d = list@[i];
            let p = old(coordinator)@.partitions[d.vbucket];
            &&& old(coordinator)@.partitions.contains_key(d.vbucket)
            &&& p.generation != p.durable_generation || p.durable != p.processed
            &&& d.checkpoint@ == p.processed
            &&& d.generation == p.generation
        }),
        forall|j: int| i < j < list@.len() ==> list@[i].vbucket < (#[trigger] list@[j]).vbucket,
        final(coordinator)@.partitions == old(coordinator)@.partitions,
        final(coordinator)@.metrics.flush_attempts == old(coordinator)@.metrics.flush_attempts + 1,
{
    let d = list@[i];
    assert(d@.vbucket == d.vbucket);
    assert(old(coordinator)@.dirty().contains(d@.vbucket));
}

/// Every vBucket that is due is in the flush.
pub proof fn flushes_leave_nothing_out(
    coordinator: &mut CheckpointCoordinator,
    list: Vec<DirtyCheckpoint>,
    v: u16,
)
    requires
        call_ensures(CheckpointCoordinator::begin_flush, (coordinator,), Ok(list)),
        old(coordinator)@.partitions.contains_key(v),
        old(coordinator)@.partitions[v].generation
            != old(coordinator)@.partitions[v].durable_generation
            || old(coordinator)@.partitions[v].durable != old(
            coordinator)@.partitions[v].processed,
        old(coordinator)@.partitions.dom().finite(),
    ensures
        exists|i: int| 0 <= i < list@.len() && (#[trigger] list@[i]).vbucket == v,
{
    let dirty = old(coordinator)@.dirty();
    assert(dirty.contains(v));
    assert(dirty.subset_of(old(coordinator)@.partitions.dom()));
    vstd::set_lib::lemma_set_subset_finite(old(coordinator)@.partitions.dom(), dirty);
    let ids = list@.map_values(|d: DirtyCheckpoint| d.vbucket);
    assert(ids.no_duplicates()) by {
        assert forall|i: int, j: int|
            0 <= i < ids.len() && 0 <= j < ids.len() && i != j implies ids[i] != ids[j] by {
            if i < j {
                assert(list@[i].vbucket < list@[j].vbucket);
            } else {
                assert(list@[j].vbucket < list@[i].vbucket);
            }
        }
    }
    ids.unique_seq_to_set();
    assert(ids.to_set().subset_of(dirty)) by {
        assert forall|x: u16| ids.to_set().contains(x) implies dirty.contains(x) by {
            let i = choose|i: int| 0 <= i < ids.len() && ids[i] == x;
            assert(list@[i]@.vbucket == x);
        }
    }
    vstd::set_lib::lemma_len_subset(ids.to_set(), dirty);
    vstd::set_lib::lemma_subset_equality(ids.to_set(), dirty);
    assert(ids.contains(v));
    let i = choose|i: int| 0 <= i < ids.len() && ids[i] == v;
    assert(list@[i].vbucket == v);
}

proof fn saving_sets_the_durable(
    partitions: Map<u16, PartitionModel>,
    list: Seq<DirtyModel>,
    v: u16,
)
    requires
        partitions.contains_key(v),
    ensures
        saved_all(partitions, list).contains_key(v),
        ({
            let p = partitions[v];
            let q = saved_all(partitions, list)[v];
            &&& q.processed == p.processed
            &&& q.pending == p.pending
            &&& q.generation == p.generation
            &&& q.snapshot == p.snapshot
            &&& (forall|i: int| 0 <= i < list.len() ==> (#[trigger] list[i]).vbucket != v) ==> q
                == p
            &&& (exists|i: int| 0 <= i < list.len() && (#[trigger] list[i]).vbucket == v)
                ==> exists|i: int|
                0 <= i < list.len() && (#[trigger] list[i]).vbucket == v && q.durable
                    == list[i].position && q.durable_generation == list[i].generation && forall|
                    j: int,
                |
                    i < j < list.len() ==> (#[trigger] list[j]).vbucket != v
        }),
    decreases list.len(),
{
    if list.len() > 0 {
        let shorter = list.drop_last();
        let n = list.len() - 1;
        saving_sets_the_durable(partitions, shorter, v);
        assert forall|i: int| 0 <= i < n implies shorter[i] == list[i] by {}
        let q = saved_all(partitions, list)[v];
        if list[n].vbucket == v {
            assert(q.durable == list[n].position);
        } else if exists|i: int| 0 <= i < list.len() && (#[trigger] list[i]).vbucket == v {
            let i = choose|i: int| 0 <= i < list.len() && (#[trigger] list[i]).vbucket == v;
            assert(shorter[i].vbucket == v);
            let k = choose|k: int|
                0 <= k < shorter.len() && (#[trigger] shorter[k]).vbucket == v && q.durable
                    == shorter[k].position && q.durable_generation == shorter[k].generation
                    && forall|j: int|
                    k < j < shorter.len() ==> (#[trigger] shorter[j]).vbucket != v;
            assert(list[k].vbucket == v);
            assert forall|j: int| k < j < list.len() implies (#[trigger] list[j]).vbucket != v by {
                if j < n {
                    assert(shorter[j].vbucket != v);
                }
            }
        } else {
            assert forall|i: int| 0 <= i < shorter.len() implies (#[trigger] shorter[i]).vbucket
                != v by {
                assert(list[i].vbucket != v);
            }
        }
    }
}

/// A flush that succeeded makes durable exactly what it saved: the processed
/// checkpoint stays where it is, and a vBucket that moved on meanwhile stays
/// due.
pub proof fn completed_flushes_are_durable(
    coordinator: &mut CheckpointCoordinator,
    list: Vec<DirtyCheckpoint>,
    elapsed: Interval,
    report: CheckpointFlushReport,
    v: u16,
    i: int,
)
    requires
        call_ensures(
            CheckpointCoordinator::complete_flush,
            (coordinator, &list, elapsed),
            report,
        ),
        old(coordinator)@.partitions.contains_key(v),
        forall|a: int, b: int|
            0 <= a < b < list@.len() ==> (#[trigger] list@[a]).vbucket < (
            #[trigger] list@[b]).vbucket,
    ensures
        ({
            let p = old(coordinator)@.partitions[v];
            let q = final(coordinator)@.partitions[v];
            &&& final(coordinator)@.partitions.contains_key(v)
            &&& q.processed == p.processed
            &&& q.pending == p.pending
            &&& q.generation == p.generation
            &&& 0 <= i < list@.len() && list@[i].vbucket == v ==> q.durable
                == list@[i].checkpoint@ && q.durable_generation == list@[i].generation
            &&& (forall|k: int| 0 <= k < list@.len() ==> (#[trigger] list@[k]).vbucket != v) ==> q
                == p
        }),
        report.attempted == list@.len(),
        report.persisted == list@.len(),
        report.elapsed == elapsed,
{
    let models = dirty_models(list@);
    saving_sets_the_durable(old(coordinator)@.partitions, models, v);
    assert forall|k: int| 0 <= k < list@.len() implies #[trigger] models[k] == list@[k]@ by {}
    if forall|k: int| 0 <= k < list@.len() ==> (#[trigger] list@[k]).vbucket != v {
        assert forall|k: int| 0 <= k < models.len() implies (#[trigger] models[k]).vbucket != v by {
            assert(list@[k].vbucket != v);
        }
    }
    if 0 <= i < list@.len() && list@[i].vbucket == v {
        assert(models[i].vbucket == v);
        let q = final(coordinator)@.partitions[v];
        let k = choose|k: int|
            0 <= k < models.len() && (#[trigger] models[k]).vbucket == v && q.durable
                == models[k].position && q.durable_generation == models[k].generation && forall|
                j: int,
            |
                k < j < models.len() ==> (#[trigger] models[j]).vbucket != v;
        assert(list@[k].vbucket == v);
        if i < k {
            assert(list@[i].vbucket < list@[k].vbucket);
        } else if k < i {
            assert(list@[k].vbucket < list@[i].vbucket);
        }
    }
}

/// What a flush has saved is clean: durable is what is processed.
pub proof fn flushed_vbuckets_are_clean(
    coordinator: &mut CheckpointCoordinator,
    list: Vec<DirtyCheckpoint>,
    next: &mut CheckpointCoordinator,
    elapsed: Interval,
    report: CheckpointFlushReport,
    v: u16,
    status: Option<PartitionCheckpointStatus>,
)
    requires
        call_ensures(CheckpointCoordinator::begin_flush, (coordinator,), Ok(list)),
        *old(next) == *final(coordinator),
        call_ensures(CheckpointCoordinator::complete_flush, (next, &list, elapsed), report),
        call_ensures(CheckpointCoordinator::status, (final(next), v), status),
        old(coordinator)@.partitions.contains_key(v),
        old(coordinator)@.partitions.dom().finite(),
    ensures
        status is Some,
        !status->0.dirty,
        status->0.durable@ == status->0.processed@,
        status->0.processed@ == old(coordinator)@.partitions[v].processed,
{
    let p = old(coordinator)@.partitions[v];
    assert(final(coordinator)@.partitions == old(coordinator)@.partitions);
    if p.generation != p.durable_generation || p.durable != p.processed {
        flushes_leave_nothing_out(coordinator, list, v);
        let i = choose|i: int| 0 <= i < list@.len() && (#[trigger] list@[i]).vbucket == v;
        flushes_save_what_is_processed(coordinator, list, i);
        completed_flushes_are_durable(next, list, elapsed, report, v, i);
    } else {
        assert forall|k: int| 0 <= k < list@.len() implies (#[trigger] list@[k]).vbucket != v by {
            flushes_save_what_is_processed(coordinator, list, k);
        }
        completed_flushes_are_durable(next, list, elapsed, report, v, 0);
    }
}

/// A failed flush makes nothing durable, and is counted.
pub proof fn failed_flushes_change_no_checkpoint(
    coordinator: &mut CheckpointCoordinator,
    list: Vec<DirtyCheckpoint>,
    outcome: Result<()>,
    elapsed: Interval,
    result: Result<CheckpointFlushReport>,
)
    requires
        call_ensures(
            CheckpointCoordinator::finish_flush,
            (coordinator, &list, outcome, elapsed),
            result,
        ),
    ensures
        outcome is Ok <==> result is Ok,
        outcome is Err ==> final(coordinator)@.partitions == old(coordinator)@.partitions,
        outcome is Err && old(coordinator)@.metrics.flush_failures < u64::MAX ==> {
            &&& final(coordinator)@.metrics.flush_failures
                == old(coordinator)@.metrics.flush_failures + 1
            &&& final(coordinator)@.metrics.last_flush_duration == Some(elapsed)
            &&& final(coordinator)@.metrics.last_flush_error is Some
            &&& result->Err_0 == outcome->Err_0
        },
        outcome is Ok && list@.len() > 0 ==> {
            &&& final(coordinator)@.metrics.flush_failures
                == old(coordinator)@.metrics.flush_failures
            &&& final(coordinator)@.metrics.last_flush_duration == Some(elapsed)
            &&& final(coordinator)@.metrics.last_flush_error is None
            &&& result->Ok_0.persisted == list@.len()
            &&& result->Ok_0.remaining_dirty == final(coordinator)@.dirty().len()
        },
        outcome is Ok && list@.len() == 0 ==> final(coordinator)@ == old(coordinator)@,
{
}

/// After a replay every rebased vBucket stands where its stream really
/// started, with nothing waiting; the others stay as they are. One vBucket
/// that cannot be rebased leaves all as they were.
pub proof fn rebased_vbuckets_stand_at_their_start(
    coordinator: &mut CheckpointCoordinator,
    effective: BTreeMap<u16, DcpCheckpoint>,
    result: Result<()>,
    v: u16,
)
    requires
        call_ensures(CheckpointCoordinator::rebase_partitions, (coordinator, &effective), result),
    ensures
        result is Err ==> final(coordinator)@ == old(coordinator)@,
        result is Ok && effective@.contains_key(v) ==> {
            let p = old(coordinator)@.partitions[v];
            let q = final(coordinator)@.partitions[v];
            &&& old(coordinator)@.partitions.contains_key(v)
            &&& final(coordinator)@.partitions.contains_key(v)
            &&& q.processed == effective@[v]@
            &&& q.last_registered == effective@[v].seqno
            &&& q.pending.len() == 0
            &&& q.snapshot is None
            &&& q.durable == p.durable
            &&& p.processed != effective@[v]@ ==> q.generation == p.generation + 1
            &&& effective@[v].vbucket == v
            &&& opt_text(effective@[v].bucket_uuid) == Some(old(coordinator)@.bucket_uuid)
            &&& effective@[v].snapshot_start <= effective@[v].seqno <= effective@[v].snapshot_end
        },
        result is Ok && !effective@.contains_key(v) && old(coordinator)@.partitions.contains_key(v)
            ==> final(coordinator)@.partitions[v] == old(coordinator)@.partitions[v],
        effective@.contains_key(v) && !old(coordinator)@.partitions.contains_key(v)
            ==> result is Err,
{
    let positions = positions_of(effective@);
    assert(positions.dom() =~= effective@.dom());
    let fault = |w: u16| rebase_fault(old(coordinator)@, w, positions[w]);
    keyed_fault_is_of_a_key(positions.dom(), fault);
    if effective@.contains_key(v) {
        assert(positions.dom().contains(v));
        assert(positions[v] == effective@[v]@);
        if result is Ok {
            assert(fault(v) is None);
        }
    }
}

/// A load needs a bucket, some time, and distinct vBuckets.
pub proof fn loads_are_prepared(
    bucket_uuid: &str,
    vbuckets: &[u16],
    timeout: Interval,
    result: Result<()>,
    duplicates: bool,
)
    requires
        call_ensures(prepare_load, (bucket_uuid, vbuckets, &timeout), result),
        call_ensures(has_duplicates, (vbuckets,), duplicates),
    ensures
        result is Ok <==> bucket_uuid@.len() > 0 && timeout.total_nanos() > 0 && !duplicates,
        duplicates <==> exists|i: int, j: int|
            0 <= i < j < vbuckets@.len() && #[trigger] vbuckets@[i] == #[trigger] vbuckets@[j],
{
    if duplicates {
        let (i, j) = choose|i: int, j: int|
            0 <= i < vbuckets@.len() && 0 <= j < vbuckets@.len() && i != j && vbuckets@[i]
                == vbuckets@[j];
        if i < j {
            assert(vbuckets@[i] == vbuckets@[j]);
        } else {
            assert(vbuckets@[j] == vbuckets@[i]);
        }
    }
}

/// Loaded checkpoints are taken as they are, if every one of them was asked
/// for, stands under its own vBucket, is of the bucket and sound.
pub proof fn loaded_checkpoints_are_checked(
    bucket_uuid: &str,
    vbuckets: &[u16],
    checkpoints: BTreeMap<u16, DcpCheckpoint>,
    result: Result<BTreeMap<u16, DcpCheckpoint>>,
)
    requires
        call_ensures(accept_loaded, (bucket_uuid, vbuckets, checkpoints), result),
    ensures
        result is Ok <==> forall|v: u16| #[trigger]
            checkpoints@.contains_key(v) ==> {
                let c = checkpoints@[v];
                &&& vbuckets@.contains(v)
                &&& c.vbucket == v
                &&& opt_text(c.bucket_uuid) == Some(bucket_uuid@)
                &&& c.snapshot_start <= c.seqno <= c.snapshot_end
            },
        result matches Ok(accepted) ==> accepted@ == checkpoints@,
        result matches Err(e) ==> e is Checkpoint,
{
    let positions = positions_of(checkpoints@);
    assert(positions.dom() =~= checkpoints@.dom());
    let fault = |v: u16| loaded_fault(bucket_uuid@, vbuckets@, v, positions[v]);
    keyed_fault_is_of_a_key(positions.dom(), fault);
    if result is Ok {
        assert forall|v: u16| #[trigger] checkpoints@.contains_key(v) implies {
            let c = checkpoints@[v];
            &&& vbuckets@.contains(v)
            &&& c.vbucket == v
            &&& opt_text(c.bucket_uuid) == Some(bucket_uuid@)
            &&& c.snapshot_start <= c.seqno <= c.snapshot_end
        } by {
            assert(positions.dom().contains(v));
            assert(fault(v) is None);
            assert(positions[v] == checkpoints@[v]@);
        }
    } else {
        let v = choose|v: u16| #[trigger]
            positions.dom().contains(v) && fault(v) == keyed_fault(positions.dom(), fault);
        assert(checkpoints@.contains_key(v));
        assert(positions[v] == checkpoints@[v]@);
    }
}

} // verus!
