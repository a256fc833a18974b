//! Processed and durable progress of every vBucket.
use std::collections::{BTreeMap, VecDeque};
use vstd::prelude::*;

use crate::checkpoint::{DcpCheckpoint, Position};
use crate::config::CheckpointConfig;
use crate::error::{checked, DcpError, DcpFault, Outcome, Result};
use crate::event::DcpEvent;
use crate::interval::Interval;
use crate::lists::{first_where, first_where_ensures, first_where_is, first_where_is_none};
use crate::maps::{
    ascending, ascending_count, keyed_fault, sorted_keys, walked_to_fault, walked_without_fault,
};
use crate::text::{
    copy_opt_text, dec, dec_text, join2, join3, join4, join5, join8, opt_text, same_text,
};

verus! {

broadcast use {vstd::std_specs::btree::group_btree_axioms, vstd::laws_cmp::group_laws_cmp};

/// Content of a checkpoint error.
pub open spec fn checkpoint_fault(message: Seq<char>) -> DcpFault {
    DcpFault::Checkpoint(message)
}

/// Delivered event that was not processed contiguously yet.
pub struct PendingModel {
    pub delivery_id: u64,
    pub position: Position,
    pub acknowledged: bool,
}

/// Progress of one vBucket.
pub struct PartitionModel {
    pub durable: Position,
    pub processed: Position,
    pub snapshot: Option<(u64, u64)>,
    pub last_registered: u64,
    pub pending: Seq<PendingModel>,
    pub next_delivery_id: u64,
    pub generation: u64,
    pub durable_generation: u64,
}

/// Two positions in the same history.
pub open spec fn same_history(a: Position, b: Position) -> bool {
    a.vbucket == b.vbucket && a.bucket_uuid == b.bucket_uuid && a.vbucket_uuid == b.vbucket_uuid
}

impl PartitionModel {
    /// Processed progress is not known to be durable.
    pub open spec fn dirty(self) -> bool {
        self.generation != self.durable_generation || self.durable != self.processed
    }

    /// Pending events follow the processed position in order of their sequence
    /// numbers and delivery IDs, in the same history; the first of them is not
    /// acknowledged; and the last registered sequence number is that of the
    /// last of them.
    pub open spec fn sound(self) -> bool {
        &&& self.processed.valid()
        &&& forall|i: int|
            0 <= i < self.pending.len() ==> {
                let p = #[trigger] self.pending[i];
                &&& p.position.valid()
                &&& same_history(p.position, self.processed)
                &&& p.delivery_id < self.next_delivery_id
                &&& p.position.seqno > self.processed.seqno
            }
        &&& forall|i: int, j: int|
            0 <= i < j < self.pending.len() ==> (#[trigger] self.pending[i]).delivery_id < (
            #[trigger] self.pending[j]).delivery_id && self.pending[i].position.seqno
                < self.pending[j].position.seqno
        &&& self.last_registered == if self.pending.len() == 0 {
            self.processed.seqno
        } else {
            self.pending.last().position.seqno
        }
        &&& self.pending.len() > 0 ==> !self.pending[0].acknowledged
        &&& self.snapshot matches Some(window) ==> window.0 <= window.1
    }
}

/// Position of the pending event with a delivery ID.
pub open spec fn found(pending: Seq<PendingModel>, delivery_id: u64) -> Option<int> {
    first_where(pending, |p: PendingModel| p.delivery_id == delivery_id)
}

/// Pending events with one of them acknowledged.
pub open spec fn marked(pending: Seq<PendingModel>, i: int) -> Seq<PendingModel> {
    pending.update(i, PendingModel { acknowledged: true, ..pending[i] })
}

/// Number of acknowledged events before the first that is not.
pub open spec fn settled(pending: Seq<PendingModel>) -> int {
    match first_where(pending, |p: PendingModel| !p.acknowledged) {
        Some(i) => i,
        None => pending.len() as int,
    }
}

/// Progress with every contiguously acknowledged event taken off the queue.
pub open spec fn drained(p: PartitionModel, pending: Seq<PendingModel>) -> PartitionModel {
    let k = settled(pending);
    PartitionModel {
        processed: if k > 0 {
            pending[k - 1].position
        } else {
            p.processed
        },
        pending: pending.skip(k),
        generation: if k > 0 && p.generation < u64::MAX {
            (p.generation + 1) as u64
        } else {
            p.generation
        },
        ..p
    }
}

/// Progress after the acknowledgement of the pending event at a position.
pub open spec fn acknowledged(p: PartitionModel, i: int) -> PartitionModel {
    drained(p, marked(p.pending, i))
}

proof fn settled_bounds(pending: Seq<PendingModel>)
    ensures
        0 <= settled(pending) <= pending.len(),
        forall|i: int| 0 <= i < settled(pending) ==> (#[trigger] pending[i]).acknowledged,
        settled(pending) < pending.len() ==> !pending[settled(pending)].acknowledged,
{
    let p = |p: PendingModel| !p.acknowledged;
    first_where_ensures(pending, p);
    assert forall|i: int| 0 <= i < settled(pending) implies (
    #[trigger] pending[i]).acknowledged by {
        assert(!p(pending[i]));
    }
}

proof fn settled_is(pending: Seq<PendingModel>, k: int)
    requires
        0 <= k <= pending.len(),
        forall|i: int| 0 <= i < k ==> (#[trigger] pending[i]).acknowledged,
        k < pending.len() ==> !pending[k].acknowledged,
    ensures
        settled(pending) == k,
{
    let p = |p: PendingModel| !p.acknowledged;
    if k < pending.len() {
        first_where_is(pending, p, k);
    } else {
        first_where_is_none(pending, p);
    }
}

/// An acknowledgement keeps progress sound; it never moves the processed
/// position back; it moves it past an event only if that event and every one
/// before it are acknowledged; and it touches neither the durable position nor
/// the events that stay.
pub proof fn acknowledgement_is_contiguous(p: PartitionModel, i: int)
    requires
        p.sound(),
        0 <= i < p.pending.len(),
    ensures
        ({
            let q = acknowledged(p, i);
            &&& q.sound()
            &&& q.processed.seqno >= p.processed.seqno
            &&& q.durable == p.durable && q.durable_generation == p.durable_generation
            &&& forall|j: int|
                #![trigger p.pending[j]]
                0 <= j < p.pending.len() && p.pending[j].position.seqno <= q.processed.seqno
                    ==> forall|k: int|
                    0 <= k <= j ==> (#[trigger] p.pending[k]).acknowledged || k == i
            &&& q.pending == marked(p.pending, i).skip(settled(marked(p.pending, i)))
        }),
{
    let m = marked(p.pending, i);
    settled_bounds(m);
    let k = settled(m);
    let q = acknowledged(p, i);
    assert forall|j: int| 0 <= j < m.len() implies (#[trigger] m[j]).position
        == p.pending[j].position && m[j].delivery_id == p.pending[j].delivery_id && (
    m[j].acknowledged <==> p.pending[j].acknowledged || j == i) by {}
    assert forall|j: int| 0 <= j < q.pending.len() implies (#[trigger] q.pending[j]) == m[k + j] by {}
    if k > 0 {
        assert(m[k - 1].position == p.pending[k - 1].position);
        assert(p.pending[k - 1].position.seqno > p.processed.seqno);
    }
    assert forall|j: int| 0 <= j < q.pending.len() implies {
        let e = #[trigger] q.pending[j];
        &&& e.position.valid()
        &&& same_history(e.position, q.processed)
        &&& e.delivery_id < q.next_delivery_id
        &&& e.position.seqno > q.processed.seqno
    } by {
        assert(q.pending[j].position == p.pending[k + j].position);
        if k > 0 {
            assert(p.pending[k - 1].position.seqno < p.pending[k + j].position.seqno);
        }
    }
    assert forall|a: int, b: int| 0 <= a < b < q.pending.len() implies (
    #[trigger] q.pending[a]).delivery_id < (#[trigger] q.pending[b]).delivery_id
        && q.pending[a].position.seqno < q.pending[b].position.seqno by {
        assert(p.pending[k + a].delivery_id < p.pending[k + b].delivery_id);
    }
    if q.pending.len() > 0 {
        assert(q.pending[0] == m[k]);
        assert(q.pending.last() == m[m.len() - 1]);
    } else {
        assert(k == m.len());
        assert(m[k - 1].position == p.pending.last().position);
    }
    assert forall|j: int|
        #![trigger p.pending[j]]
        0 <= j < p.pending.len() && p.pending[j].position.seqno
            <= q.processed.seqno implies forall|x: int|
        0 <= x <= j ==> (#[trigger] p.pending[x]).acknowledged || x == i by {
        if k > 0 {
            if j >= k {
                if j > k - 1 {
                    assert(p.pending[k - 1].position.seqno < p.pending[j].position.seqno);
                }
            }
            assert(j < k);
            assert forall|x: int| 0 <= x <= j implies (#[trigger] p.pending[x]).acknowledged || x
                == i by {
                assert(m[x].acknowledged);
            }
        } else {
            assert(p.pending[j].position.seqno > p.processed.seqno);
        }
    }
}

/// An event that is never acknowledged holds back the processed position,
/// whatever else is acknowledged.
pub proof fn unacknowledged_holds_back(p: PartitionModel, i: int, j: int)
    requires
        p.sound(),
        0 <= i < p.pending.len(),
        0 <= j < p.pending.len(),
        i != j,
        !p.pending[j].acknowledged,
    ensures
        acknowledged(p, i).processed.seqno < p.pending[j].position.seqno,
        exists|k: int|
            0 <= k < acknowledged(p, i).pending.len() && #[trigger] acknowledged(p, i).pending[k]
                == p.pending[j],
{
    let m = marked(p.pending, i);
    settled_bounds(m);
    let k = settled(m);
    assert(!m[j].acknowledged);
    if j < k {
        assert(m[j].acknowledged);
    }
    if k > 0 {
        assert(m[k - 1].position == p.pending[k - 1].position);
        if k - 1 < j {
            assert(p.pending[k - 1].position.seqno < p.pending[j].position.seqno);
        }
    }
    assert(acknowledged(p, i).pending[j - k] == p.pending[j]);
}

/// Two acknowledgements lead to the same progress in either order.
pub proof fn acknowledgements_commute(p: PartitionModel, i: int, j: int)
    requires
        p.sound(),
        0 <= i < p.pending.len(),
        0 <= j < p.pending.len(),
        i != j,
        !p.pending[i].acknowledged,
        !p.pending[j].acknowledged,
    ensures
        ({
            let a = acknowledged(p, i);
            let b = acknowledged(p, j);
            let ij = acknowledged(a, j - settled(marked(p.pending, i)));
            let ji = acknowledged(b, i - settled(marked(p.pending, j)));
            &&& ij.processed == ji.processed
            &&& ij.pending == ji.pending
        }),
{
    two_step(p, i, j);
    two_step(p, j, i);
    assert(marked(marked(p.pending, i), j) =~= marked(marked(p.pending, j), i));
}

proof fn two_step(p: PartitionModel, i: int, j: int)
    requires
        p.sound(),
        0 <= i < p.pending.len(),
        0 <= j < p.pending.len(),
        i != j,
        !p.pending[i].acknowledged,
        !p.pending[j].acknowledged,
    ensures
        ({
            let m = marked(p.pending, i);
            let both = marked(m, j);
            let a = acknowledged(p, i);
            let q = acknowledged(a, j - settled(m));
            &&& q.processed == drained(p, both).processed
            &&& q.pending == drained(p, both).pending
        }),
{
    let m = marked(p.pending, i);
    let both = marked(m, j);
    let a = acknowledged(p, i);
    settled_bounds(m);
    settled_bounds(both);
    let k = settled(m);
    assert(!m[j].acknowledged);
    if j < k {
        assert(m[j].acknowledged);
    }
    let x = j - k;
    let rest = marked(a.pending, x);
    assert(rest =~= both.skip(k)) by {
        assert forall|y: int| 0 <= y < rest.len() implies #[trigger] rest[y] == both.skip(k)[y] by {
            assert(a.pending[y] == m[k + y]);
        }
    }
    let total = settled(both);
    assert(total >= k) by {
        if total < k {
            assert(both[total].acknowledged == m[total].acknowledged);
        }
    }
    assert forall|y: int| 0 <= y < total - k implies (#[trigger] rest[y]).acknowledged by {
        assert(rest[y] == both[k + y]);
    }
    if total - k < rest.len() {
        assert(rest[total - k] == both[total]);
    }
    settled_is(rest, total - k);
    assert(rest.skip(total - k) =~= both.skip(total));
    if total - k > 0 {
        assert(rest[total - k - 1] == both[total - 1]);
    } else if k > 0 {
        assert(both[k - 1].position == m[k - 1].position);
    }
}

/// Position that an event leads to once it is processed.
pub open spec fn next_position(p: PartitionModel, event: DcpEvent, seqno: u64, window: (u64, u64)) -> Position {
    let base = if p.pending.len() == 0 {
        p.processed
    } else {
        p.pending.last().position
    };
    Position {
        seqno,
        snapshot_start: window.0,
        snapshot_end: window.1,
        manifest_uid: match event {
            DcpEvent::SystemEvent(system_event) => Some(system_event.manifest_uid),
            _ => base.manifest_uid,
        },
        ..base
    }
}

/// Progress after the registration of an event, or why it is refused.
pub open spec fn registered(p: PartitionModel, vbucket: u16, event: DcpEvent) -> Outcome<
    PartitionModel,
> {
    match event {
        DcpEvent::SnapshotMarker(m) => if m.start_seqno > m.end_seqno || m.end_seqno
            < p.processed.seqno {
            Err(
                checkpoint_fault(
                    "snapshot "@ + dec(m.start_seqno as nat) + "..="@ + dec(m.end_seqno as nat)
                        + " is invalid after processed seqno "@ + dec(p.processed.seqno as nat)
                        + " for vBucket "@ + dec(vbucket as nat),
                ),
            )
        } else {
            Ok(PartitionModel { snapshot: Some((m.start_seqno, m.end_seqno)), ..p })
        },
        _ => match event.progress() {
            None => Ok(p),
            Some(seqno) => match p.snapshot {
                None => Err(
                    checkpoint_fault(
                        "received seqno "@ + dec(seqno as nat)
                            + " before a snapshot marker for vBucket "@ + dec(vbucket as nat),
                    ),
                ),
                Some(window) => if seqno <= p.last_registered || seqno < window.0 || seqno
                    > window.1 {
                    Err(
                        checkpoint_fault(
                            "seqno "@ + dec(seqno as nat)
                                + " is non-monotonic or outside snapshot "@ + dec(window.0 as nat)
                                + "..="@ + dec(window.1 as nat) + " for vBucket "@ + dec(
                                vbucket as nat,
                            ),
                        ),
                    )
                } else if next_position(p, event, seqno, window).fault() is Some {
                    Err(next_position(p, event, seqno, window).fault()->0)
                } else if p.next_delivery_id == u64::MAX {
                    Err(
                        checkpoint_fault(
                            "delivery ID overflow for vBucket "@ + dec(vbucket as nat),
                        ),
                    )
                } else {
                    Ok(
                        PartitionModel {
                            next_delivery_id: (p.next_delivery_id + 1) as u64,
                            last_registered: seqno,
                            pending: p.pending.push(
                                PendingModel {
                                    delivery_id: p.next_delivery_id,
                                    position: next_position(p, event, seqno, window),
                                    acknowledged: false,
                                },
                            ),
                            ..p
                        },
                    )
                },
            },
        },
    }
}

/// Registering an event keeps progress sound and moves neither the processed
/// nor the durable position.
pub proof fn registration_is_not_progress(p: PartitionModel, vbucket: u16, event: DcpEvent)
    requires
        p.sound(),
        registered(p, vbucket, event) is Ok,
    ensures
        ({
            let q = registered(p, vbucket, event)->Ok_0;
            &&& q.sound()
            &&& q.processed == p.processed
            &&& q.durable == p.durable
            &&& q.dirty() == p.dirty()
        }),
{
    let q = registered(p, vbucket, event)->Ok_0;
    if !(event is SnapshotMarker) && event.progress() is Some {
        let n = p.pending.len() as int;
        assert(q.pending.last() == q.pending[n]);
        assert forall|i: int| 0 <= i < n implies #[trigger] q.pending[i] == p.pending[i] by {}
        if n > 0 {
            assert(p.pending.last() == p.pending[n - 1]);
        }
        assert forall|i: int, j: int| 0 <= i < j < q.pending.len() implies (
        #[trigger] q.pending[i]).delivery_id < (#[trigger] q.pending[j]).delivery_id
            && q.pending[i].position.seqno < q.pending[j].position.seqno by {
            if j == n {
                if i < n - 1 {
                    assert(p.pending[i].position.seqno < p.pending[n - 1].position.seqno);
                }
            }
        }
    }
}

/// The delivery just registered is found at the end of the queue.
pub proof fn newest_delivery_is_found(p: PartitionModel, vbucket: u16, event: DcpEvent)
    requires
        p.sound(),
        !(event is SnapshotMarker),
        event.progress() is Some,
        registered(p, vbucket, event) is Ok,
    ensures
        found(registered(p, vbucket, event)->Ok_0.pending, p.next_delivery_id) == Some(
            p.pending.len() as int,
        ),
        registered(p, vbucket, event)->Ok_0.pending.len() == p.pending.len() + 1,
{
    let q = registered(p, vbucket, event)->Ok_0;
    let n = p.pending.len() as int;
    let test = |e: PendingModel| e.delivery_id == p.next_delivery_id;
    assert(q.pending[n].delivery_id == p.next_delivery_id);
    assert forall|j: int| 0 <= j < n implies !test(#[trigger] q.pending[j]) by {
        assert(q.pending[j] == p.pending[j]);
    }
    first_where_is(q.pending, test, n);
}

/// Acknowledging the newest delivery drains the queue if it is the only one,
/// and otherwise leaves it behind those before it.
pub proof fn acknowledging_the_newest(p: PartitionModel, i: int)
    requires
        p.sound(),
        i == p.pending.len() - 1,
        0 <= i,
    ensures
        i == 0 ==> acknowledged(p, i).pending.len() == 0 && acknowledged(p, i).processed
            == p.pending[0].position,
        i > 0 ==> acknowledged(p, i).pending.len() == p.pending.len() && acknowledged(
            p,
            i,
        ).processed == p.processed,
{
    let m = marked(p.pending, i);
    settled_bounds(m);
    if i > 0 {
        assert(m[0] == p.pending[0]);
        settled_is(m, 0);
    } else {
        settled_is(m, 1);
    }
}

/// Progress after a reopened stream starts at a position.
pub open spec fn rebased(p: PartitionModel, position: Position) -> PartitionModel {
    PartitionModel {
        processed: position,
        last_registered: position.seqno,
        snapshot: None,
        pending: Seq::empty(),
        generation: if p.processed != position && p.generation < u64::MAX {
            (p.generation + 1) as u64
        } else {
            p.generation
        },
        ..p
    }
}

/// Progress after a position of an earlier generation became durable.
pub open spec fn saved(p: PartitionModel, position: Position, generation: u64) -> PartitionModel {
    PartitionModel { durable: position, durable_generation: generation, ..p }
}

/// What is acknowledged while a save is under way stays dirty, and what was
/// saved unchanged becomes clean.
pub proof fn concurrent_progress_stays_dirty(
    p: PartitionModel,
    position: Position,
    generation: u64,
)
    ensures
        p.generation != generation ==> saved(p, position, generation).dirty(),
        p.generation == generation && p.processed == position ==> !saved(
            p,
            position,
            generation,
        ).dirty(),
        saved(p, position, generation).processed == p.processed,
        saved(p, position, generation).pending == p.pending,
{
}

/// A rebase that changes the position leaves it dirty, unless the generation
/// counter is exhausted, and no pending event outlives a rebase.
pub proof fn rebase_invalidates(p: PartitionModel, position: Position)
    requires
        position.valid(),
        p.durable_generation <= p.generation < u64::MAX,
    ensures
        rebased(p, position).sound(),
        rebased(p, position).pending.len() == 0,
        p.processed != position ==> rebased(p, position).dirty(),
{
}

#[derive(Debug)]
struct PendingAck {
    delivery_id: u64,
    checkpoint: DcpCheckpoint,
    acknowledged: bool,
}

impl View for PendingAck {
    type V = PendingModel;

    closed spec fn view(&self) -> PendingModel {
        PendingModel {
            delivery_id: self.delivery_id,
            position: self.checkpoint@,
            acknowledged: self.acknowledged,
        }
    }
}

spec fn pending_of(list: Seq<PendingAck>) -> Seq<PendingModel> {
    list.map_values(|p: PendingAck| p@)
}

#[derive(Debug)]
struct PartitionState {
    durable: DcpCheckpoint,
    processed: DcpCheckpoint,
    snapshot: Option<(u64, u64)>,
    last_registered_seqno: u64,
    pending: VecDeque<PendingAck>,
    next_delivery_id: u64,
    generation: u64,
    durable_generation: u64,
}

impl View for PartitionState {
    type V = PartitionModel;

    closed spec fn view(&self) -> PartitionModel {
        PartitionModel {
            durable: self.durable@,
            processed: self.processed@,
            snapshot: self.snapshot,
            last_registered: self.last_registered_seqno,
            pending: pending_of(self.pending@),
            next_delivery_id: self.next_delivery_id,
            generation: self.generation,
            durable_generation: self.durable_generation,
        }
    }
}

/// Progress of a vBucket that starts at a position.
pub open spec fn started(position: Position) -> PartitionModel {
    PartitionModel {
        durable: position,
        processed: position,
        snapshot: None,
        last_registered: position.seqno,
        pending: Seq::empty(),
        next_delivery_id: 1,
        generation: 0,
        durable_generation: 0,
    }
}

/// Overflow of the checkpoint generation of a vBucket.
pub open spec fn generation_overflow(vbucket: u16) -> DcpFault {
    checkpoint_fault("checkpoint generation overflow for vBucket "@ + dec(vbucket as nat))
}

fn generation_overflow_error(vbucket: u16) -> (result: DcpError)
    ensures
        result@ == generation_overflow(vbucket),
{
    DcpError::Checkpoint(
        join2("checkpoint generation overflow for vBucket ", dec_text(vbucket as u64).as_str()),
    )
}

/// A vBucket that the coordinator does not track.
pub open spec fn untracked(vbucket: u16) -> DcpFault {
    checkpoint_fault(
        "vBucket "@ + dec(vbucket as nat) + " is not tracked by the checkpoint coordinator"@,
    )
}

fn untracked_error(vbucket: u16) -> (result: DcpError)
    ensures
        result@ == untracked(vbucket),
{
    DcpError::Checkpoint(
        join3(
            "vBucket ",
            dec_text(vbucket as u64).as_str(),
            " is not tracked by the checkpoint coordinator",
        ),
    )
}

/// Why an acknowledgement fails, if it does.
pub open spec fn ack_fault(p: PartitionModel, vbucket: u16, delivery_id: u64) -> Option<DcpFault> {
    match found(p.pending, delivery_id) {
        None => Some(
            checkpoint_fault(
                "checkpoint ACK "@ + dec(delivery_id as nat) + " for vBucket "@ + dec(
                    vbucket as nat,
                ) + " is obsolete"@,
            ),
        ),
        Some(i) => if settled(marked(p.pending, i)) > 0 && p.generation == u64::MAX {
            Some(generation_overflow(vbucket))
        } else {
            None
        },
    }
}

/// Progress after an acknowledgement; a generation overflow is reported after
/// the queue was drained.
pub open spec fn after_ack(p: PartitionModel, delivery_id: u64) -> PartitionModel {
    match found(p.pending, delivery_id) {
        None => p,
        Some(i) => acknowledged(p, i),
    }
}

impl PartitionState {
    fn new(checkpoint: DcpCheckpoint) -> (result: Self)
        ensures
            result@ == started(checkpoint@),
    {
        let pending: VecDeque<PendingAck> = VecDeque::new();
        assert(pending_of(pending@) =~= Seq::empty());
        PartitionState {
            last_registered_seqno: checkpoint.seqno,
            durable: checkpoint.clone(),
            processed: checkpoint,
            snapshot: None,
            pending,
            next_delivery_id: 1,
            generation: 0,
            durable_generation: 0,
        }
    }

    fn is_dirty(&self) -> (result: bool)
        ensures
            result == self@.dirty(),
    {
        self.generation != self.durable_generation || !self.durable.same(&self.processed)
    }

    fn track(&mut self, vbucket: u16, event: &DcpEvent) -> (result: Result<Option<(u64, u64)>>)
        ensures
            match registered(old(self)@, vbucket, *event) {
                Err(fault) => result is Err && result->Err_0@ == fault && *final(self) == *old(
                    self,
                ),
                Ok(next) => {
                    &&& final(self)@ == next
                    &&& result is Ok
                    &&& result->Ok_0 == if event is SnapshotMarker {
                        None
                    } else {
                        match event.progress() {
                            Some(seqno) => Some((old(self)@.next_delivery_id, seqno)),
                            None => None,
                        }
                    }
                },
            },
    {
        if let DcpEvent::SnapshotMarker(marker) = event {
            if marker.start_seqno > marker.end_seqno || marker.end_seqno < self.processed.seqno {
                return Err(
                    DcpError::Checkpoint(
                        join8(
                            "snapshot ",
                            dec_text(marker.start_seqno).as_str(),
                            "..=",
                            dec_text(marker.end_seqno).as_str(),
                            " is invalid after processed seqno ",
                            dec_text(self.processed.seqno).as_str(),
                            " for vBucket ",
                            dec_text(vbucket as u64).as_str(),
                        ),
                    ),
                );
            }
            self.snapshot = Some((marker.start_seqno, marker.end_seqno));
            return Ok(None);
        }
        let seqno: u64 = match event.seqno() {
            Some(seqno) => seqno,
            None => {
                return Ok(None);
            },
        };
        let (start, end): (u64, u64) = match self.snapshot {
            Some(window) => window,
            None => {
                return Err(
                    DcpError::Checkpoint(
                        join4(
                            "received seqno ",
                            dec_text(seqno).as_str(),
                            " before a snapshot marker for vBucket ",
                            dec_text(vbucket as u64).as_str(),
                        ),
                    ),
                );
            },
        };
        if seqno <= self.last_registered_seqno || seqno < start || seqno > end {
            return Err(
                DcpError::Checkpoint(
                    join8(
                        "seqno ",
                        dec_text(seqno).as_str(),
                        " is non-monotonic or outside snapshot ",
                        dec_text(start).as_str(),
                        "..=",
                        dec_text(end).as_str(),
                        " for vBucket ",
                        dec_text(vbucket as u64).as_str(),
                    ),
                ),
            );
        }
        let count: usize = self.pending.len();
        let mut checkpoint = if count == 0 {
            self.processed.clone()
        } else {
            assert(pending_of(self.pending@).last() == self.pending@[count - 1]@);
            self.pending[count - 1].checkpoint.clone()
        };
        checkpoint.seqno = seqno;
        checkpoint.snapshot_start = start;
        checkpoint.snapshot_end = end;
        if let DcpEvent::SystemEvent(system_event) = event {
            checkpoint.manifest_uid = Some(system_event.manifest_uid);
        }
        assert(checkpoint@ == next_position(self@, *event, seqno, (start, end)));
        checkpoint.validate()?;
        let delivery_id: u64 = self.next_delivery_id;
        if delivery_id == u64::MAX {
            return Err(
                DcpError::Checkpoint(
                    join2(
                        "delivery ID overflow for vBucket ",
                        dec_text(vbucket as u64).as_str(),
                    ),
                ),
            );
        }
        let ghost before = pending_of(self.pending@);
        self.next_delivery_id = delivery_id + 1;
        self.last_registered_seqno = seqno;
        let ack = PendingAck { delivery_id, checkpoint, acknowledged: false };
        let ghost model = ack@;
        self.pending.push_back(ack);
        assert(pending_of(self.pending@) =~= before.push(model));
        Ok(Some((delivery_id, seqno)))
    }

    fn acknowledge(&mut self, vbucket: u16, delivery_id: u64) -> (result: Result<
        Option<DcpCheckpoint>,
    >)
        ensures
            final(self)@ == after_ack(old(self)@, delivery_id),
            match ack_fault(old(self)@, vbucket, delivery_id) {
                Some(fault) => result is Err && result->Err_0@ == fault,
                None => {
                    let i = found(old(self)@.pending, delivery_id)->0;
                    match result {
                        Ok(Some(checkpoint)) => settled(marked(old(self)@.pending, i)) > 0
                            && checkpoint@ == final(self)@.processed,
                        Ok(None) => settled(marked(old(self)@.pending, i)) == 0,
                        Err(_) => false,
                    }
                },
            },
    {
        let ghost start = self@;
        let ghost p = |p: PendingModel| p.delivery_id == delivery_id;
        let mut i: usize = 0;
        while i < self.pending.len() && self.pending[i].delivery_id != delivery_id
            invariant
                i <= self.pending@.len(),
                *self == *old(self),
                start == self@,
                p == (|p: PendingModel| p.delivery_id == delivery_id),
                forall|j: int| 0 <= j < i ==> !p(#[trigger] start.pending[j]),
            decreases self.pending@.len() - i,
        {
            assert(start.pending[i as int] == self.pending@[i as int]@);
            i = i + 1;
        }
        if i == self.pending.len() {
            proof {
                first_where_is_none(start.pending, p);
            }
            return Err(
                DcpError::Checkpoint(
                    join5(
                        "checkpoint ACK ",
                        dec_text(delivery_id).as_str(),
                        " for vBucket ",
                        dec_text(vbucket as u64).as_str(),
                        " is obsolete",
                    ),
                ),
            );
        }
        proof {
            assert(start.pending[i as int] == self.pending@[i as int]@);
            first_where_is(start.pending, p, i as int);
        }
        let ghost stored = self.pending@;
        if let Some(ack) = self.pending.remove(i) {
            let mut ack = ack;
            ack.acknowledged = true;
            self.pending.insert(i, ack);
        }
        let ghost all = pending_of(self.pending@);
        proof {
            assert(all =~= marked(start.pending, i as int));
        }
        let mut advanced: Option<DcpCheckpoint> = None;
        let ghost mut k: int = 0;
        while self.pending.len() > 0 && self.pending[0].acknowledged
            invariant
                0 <= k <= all.len(),
                forall|j: int| 0 <= j < k ==> (#[trigger] all[j]).acknowledged,
                pending_of(self.pending@) == all.skip(k),
                self.processed@ == if k > 0 {
                    all[k - 1].position
                } else {
                    start.processed
                },
                match advanced {
                    Some(checkpoint) => k > 0 && checkpoint@ == self.processed@,
                    None => k == 0,
                },
                self.durable@ == start.durable,
                self.snapshot == start.snapshot,
                self.last_registered_seqno == start.last_registered,
                self.next_delivery_id == start.next_delivery_id,
                self.generation == start.generation,
                self.durable_generation == start.durable_generation,
            decreases all.len() - k,
        {
            let ghost queue = self.pending@;
            assert(pending_of(queue).len() == queue.len());
            assert(all.skip(k).len() == all.len() - k);
            assert(pending_of(queue)[0] == queue[0]@);
            assert(all.skip(k)[0] == all[k]);
            assert(all[k] == queue[0]@);
            if let Some(head) = self.pending.pop_front() {
                proof {
                    assert(pending_of(self.pending@) =~= all.skip(k + 1)) by {
                        assert forall|y: int| 0 <= y < self.pending@.len() implies #[trigger] pending_of(
                            self.pending@,
                        )[y] == all.skip(k + 1)[y] by {
                            assert(self.pending@[y] == queue[y + 1]);
                            assert(pending_of(queue)[y + 1] == queue[y + 1]@);
                            assert(all.skip(k)[y + 1] == all[k + y + 1]);
                        }
                    }
                    k = k + 1;
                }
                advanced = Some(head.checkpoint.clone());
                self.processed = head.checkpoint;
            }
        }
        proof {
            assert(pending_of(self.pending@).len() == self.pending@.len());
            assert(all.skip(k).len() == all.len() - k);
            if k < all.len() {
                assert(pending_of(self.pending@)[0] == self.pending@[0]@);
                assert(all[k] == all.skip(k)[0]);
            }
            settled_is(all, k);
        }
        if advanced.is_some() {
            if self.generation == u64::MAX {
                return Err(generation_overflow_error(vbucket));
            }
            self.generation = self.generation + 1;
        }
        Ok(advanced)
    }

    fn rebase(&mut self, checkpoint: DcpCheckpoint)
        ensures
            final(self)@ == rebased(old(self)@, checkpoint@),
    {
        if !self.processed.same(&checkpoint) && self.generation < u64::MAX {
            self.generation = self.generation + 1;
        }
        self.last_registered_seqno = checkpoint.seqno;
        self.processed = checkpoint;
        self.snapshot = None;
        self.pending.clear();
        assert(pending_of(self.pending@) =~= Seq::empty());
    }
}

/// Single-use application acknowledgement for one delivered event.
#[derive(Debug)]
pub struct EventAck {
    vbucket: u16,
    delivery_id: u64,
    seqno: u64,
}

/// Result of acknowledging one delivered, sequence-bearing event.
#[derive(Debug, Eq, PartialEq)]
pub struct AckOutcome {
    /// vBucket whose event was acknowledged.
    pub vbucket: u16,
    /// Sequence number of the specific acknowledged event.
    pub acknowledged_seqno: u64,
    /// New contiguous processed checkpoint, if this acknowledgement closed the
    /// queue head.
    pub advanced_to: Option<DcpCheckpoint>,
    /// Delivered sequence-bearing events still waiting for contiguous
    /// acknowledgements.
    pub pending_events: usize,
}

/// DCP event paired with its optional processed-acknowledgement token.
#[derive(Debug)]
pub struct TrackedEvent {
    event: DcpEvent,
    ack: Option<EventAck>,
}

/// Per-vBucket processed/durable status snapshot.
#[derive(Debug, Eq, PartialEq)]
pub struct PartitionCheckpointStatus {
    /// Last checkpoint confirmed by a successful store call.
    pub durable: DcpCheckpoint,
    /// Highest contiguous application-acknowledged checkpoint.
    pub processed: DcpCheckpoint,
    /// Delivered events still waiting for contiguous acknowledgements.
    pub pending_events: usize,
    /// Whether processed progress is newer than confirmed durable progress.
    pub dirty: bool,
}

/// Coordinator-level checkpoint metrics and last flush failure.
#[derive(Debug, Eq, PartialEq)]
pub struct CheckpointMetrics {
    /// Total store flush attempts containing at least one dirty vBucket.
    pub flush_attempts: u64,
    /// Store flush attempts that failed or timed out.
    pub flush_failures: u64,
    /// Duration of the most recent non-empty attempt.
    pub last_flush_duration: Option<Interval>,
    /// Most recent flush error; cleared after a successful non-empty flush.
    pub last_flush_error: Option<String>,
}

/// Content of checkpoint metrics.
pub struct MetricsModel {
    pub flush_attempts: u64,
    pub flush_failures: u64,
    pub last_flush_duration: Option<Interval>,
    pub last_flush_error: Option<Seq<char>>,
}

impl View for CheckpointMetrics {
    type V = MetricsModel;

    open spec fn view(&self) -> MetricsModel {
        MetricsModel {
            flush_attempts: self.flush_attempts,
            flush_failures: self.flush_failures,
            last_flush_duration: self.last_flush_duration,
            last_flush_error: opt_text(self.last_flush_error),
        }
    }
}

/// Result of one manual or automatic durable flush.
#[derive(Clone, Copy, Debug, PartialEq, Eq, Structural)]
pub struct CheckpointFlushReport {
    /// Dirty vBuckets included in the store call.
    pub attempted: usize,
    /// Checkpoints confirmed persisted by the store call.
    pub persisted: usize,
    /// vBuckets still dirty after reconciling concurrent acknowledgements.
    pub remaining_dirty: usize,
    /// End-to-end flush duration.
    pub elapsed: Interval,
}

/// Processed position of a dirty vBucket at the start of a flush.
#[derive(Debug)]
pub struct DirtyCheckpoint {
    /// vBucket identifier.
    pub vbucket: u16,
    /// Position to save.
    pub checkpoint: DcpCheckpoint,
    /// Generation of the position.
    pub generation: u64,
}

/// Content of a position to save.
pub struct DirtyModel {
    pub vbucket: u16,
    pub position: Position,
    pub generation: u64,
}

impl View for DirtyCheckpoint {
    type V = DirtyModel;

    open spec fn view(&self) -> DirtyModel {
        DirtyModel {
            vbucket: self.vbucket,
            position: self.checkpoint@,
            generation: self.generation,
        }
    }
}

/// Contents of a list of positions to save.
pub open spec fn dirty_models(list: Seq<DirtyCheckpoint>) -> Seq<DirtyModel> {
    list.map_values(|d: DirtyCheckpoint| d@)
}

/// Content of the coordinator.
pub struct CoordinatorModel {
    pub bucket_uuid: Seq<char>,
    pub partitions: Map<u16, PartitionModel>,
    pub metrics: MetricsModel,
}

impl CoordinatorModel {
    /// Every tracked vBucket is sound and belongs to the bucket.
    pub open spec fn sound(self) -> bool {
        forall|v: u16| #[trigger]
            self.partitions.contains_key(v) ==> {
                let p = self.partitions[v];
                &&& p.sound()
                &&& p.processed.vbucket == v
                &&& p.processed.bucket_uuid == Some(self.bucket_uuid)
            }
    }

    /// vBuckets with processed progress that is not known to be durable.
    pub open spec fn dirty(self) -> Set<u16> {
        dirty_in(self.partitions)
    }
}

/// Dirty vBuckets of a map.
pub open spec fn dirty_in(partitions: Map<u16, PartitionModel>) -> Set<u16> {
    Set::new(|v: u16| partitions.contains_key(v) && partitions[v].dirty())
}

/// Partitions after saved positions became durable.
pub open spec fn saved_all(partitions: Map<u16, PartitionModel>, list: Seq<DirtyModel>) -> Map<
    u16,
    PartitionModel,
>
    decreases list.len(),
{
    if list.len() == 0 {
        partitions
    } else {
        let m = saved_all(partitions, list.drop_last());
        let d = list.last();
        if m.contains_key(d.vbucket) {
            m.insert(d.vbucket, saved(m[d.vbucket], d.position, d.generation))
        } else {
            m
        }
    }
}

/// Becoming durable changes no processed position and no pending event: only
/// what is known to be durable.
pub proof fn saving_is_not_progress(
    partitions: Map<u16, PartitionModel>,
    list: Seq<DirtyModel>,
    v: u16,
)
    ensures
        saved_all(partitions, list).contains_key(v) <==> partitions.contains_key(v),
        partitions.contains_key(v) ==> saved_all(partitions, list)[v] == saved(
            partitions[v],
            saved_all(partitions, list)[v].durable,
            saved_all(partitions, list)[v].durable_generation,
        ),
    decreases list.len(),
{
    if list.len() > 0 {
        saving_is_not_progress(partitions, list.drop_last(), v);
    }
}

/// A save leaves the coordinator sound.
pub proof fn saving_keeps_soundness(m: CoordinatorModel, list: Seq<DirtyModel>, metrics: MetricsModel)
    requires
        m.sound(),
    ensures
        (CoordinatorModel { partitions: saved_all(m.partitions, list), metrics, ..m }).sound(),
{
    assert forall|v: u16| #[trigger] saved_all(m.partitions, list).contains_key(v) implies {
        let p = saved_all(m.partitions, list)[v];
        &&& p.sound()
        &&& p.processed.vbucket == v
        &&& p.processed.bucket_uuid == Some(m.bucket_uuid)
    } by {
        saving_is_not_progress(m.partitions, list, v);
        assert(m.partitions.contains_key(v));
        assert(m.partitions[v].sound());
    }
}

/// Per-vBucket processed and durable checkpoint coordinator.
#[derive(Debug)]
pub struct CheckpointCoordinator {
    bucket_uuid: String,
    partitions: BTreeMap<u16, PartitionState>,
    metrics: CheckpointMetrics,
}

spec fn partitions_of(m: Map<u16, PartitionState>) -> Map<u16, PartitionModel> {
    m.map_values(|p: PartitionState| p@)
}

impl View for CheckpointCoordinator {
    type V = CoordinatorModel;

    closed spec fn view(&self) -> CoordinatorModel {
        CoordinatorModel {
            bucket_uuid: self.bucket_uuid@,
            partitions: partitions_of(self.partitions@),
            metrics: self.metrics@,
        }
    }
}

/// Content of a map of checkpoints.
pub open spec fn positions_of(m: Map<u16, DcpCheckpoint>) -> Map<u16, Position> {
    m.map_values(|c: DcpCheckpoint| c@)
}

/// Smallest key of a set of vBuckets.
#[verifier::opaque]
pub open spec fn smallest(keys: Set<u16>) -> u16 {
    choose|v: u16|
        #![trigger keys.contains(v)]
        keys.contains(v) && forall|w: u16| #[trigger] keys.contains(w) ==> v <= w
}

/// What is wrong with the initial checkpoint of a vBucket, if anything;
/// `expected` is the bucket of the vBuckets before it.
#[verifier::opaque]
pub open spec fn start_checkpoint_fault(p: Position, v: u16, expected: Option<Seq<char>>) -> Option<
    DcpFault,
> {
    if p.fault() is Some {
        p.fault()
    } else if p.vbucket != v {
        Some(
            checkpoint_fault(
                "checkpoint map key "@ + dec(v as nat) + " does not match checkpoint vBucket "@
                    + dec(p.vbucket as nat),
            ),
        )
    } else {
        match p.bucket_uuid {
            None => Some(
                checkpoint_fault(
                    "vBucket "@ + dec(v as nat) + " checkpoint has no bucket UUID"@,
                ),
            ),
            Some(observed) => if observed.len() == 0 {
                Some(
                    checkpoint_fault(
                        "vBucket "@ + dec(v as nat) + " checkpoint has an empty bucket UUID"@,
                    ),
                )
            } else if expected is Some && expected->0 != observed {
                Some(
                    checkpoint_fault(
                        "checkpoint bucket UUID "@ + observed + " does not match "@ + expected->0,
                    ),
                )
            } else {
                None
            },
        }
    }
}

/// What is wrong with the initial checkpoint of a vBucket among others, if
/// anything.
pub open spec fn initial_fault(positions: Map<u16, Position>, v: u16) -> Option<DcpFault> {
    let first = smallest(positions.dom());
    start_checkpoint_fault(
        positions[v],
        v,
        if v == first {
            None
        } else {
            positions[first].bucket_uuid
        },
    )
}

fn check_start_checkpoint(checkpoint: &DcpCheckpoint, v: u16, expected: Option<&str>) -> (result:
    Result<()>)
    ensures
        checked(
            result,
            start_checkpoint_fault(checkpoint@, v, crate::stream::opt_str(expected)),
        ),
        result is Ok ==> checkpoint@.bucket_uuid is Some,
{
    reveal(start_checkpoint_fault);
    checkpoint.validate()?;
    if checkpoint.vbucket != v {
        return Err(
            DcpError::Checkpoint(
                join4(
                    "checkpoint map key ",
                    dec_text(v as u64).as_str(),
                    " does not match checkpoint vBucket ",
                    dec_text(checkpoint.vbucket as u64).as_str(),
                ),
            ),
        );
    }
    match &checkpoint.bucket_uuid {
        None => Err(
            DcpError::Checkpoint(
                join3("vBucket ", dec_text(v as u64).as_str(), " checkpoint has no bucket UUID"),
            ),
        ),
        Some(observed) => {
            if observed.as_str().is_empty() {
                return Err(
                    DcpError::Checkpoint(
                        join3(
                            "vBucket ",
                            dec_text(v as u64).as_str(),
                            " checkpoint has an empty bucket UUID",
                        ),
                    ),
                );
            }
            if let Some(uuid) = expected {
                if !same_text(uuid, observed.as_str()) {
                    return Err(
                        DcpError::Checkpoint(
                            join4(
                                "checkpoint bucket UUID ",
                                observed.as_str(),
                                " does not match ",
                                uuid,
                            ),
                        ),
                    );
                }
            }
            Ok(())
        },
    }
}

/// What is wrong with the initial checkpoints, if anything.
pub open spec fn initial_faults(positions: Map<u16, Position>) -> Option<DcpFault> {
    if positions.len() == 0 {
        Some(
            DcpFault::InvalidConfiguration(
                "checkpoint coordinator requires at least one vBucket"@,
            ),
        )
    } else {
        keyed_fault(positions.dom(), |v: u16| initial_fault(positions, v))
    }
}

/// Why a checkpoint is not that of a vBucket of the bucket, if it is not.
pub open spec fn checkpoint_identity_fault(v: u16, bucket_uuid: Seq<char>, p: Position) -> Option<
    DcpFault,
> {
    if p.vbucket != v {
        Some(
            checkpoint_fault(
                "loaded checkpoint key "@ + dec(v as nat) + " does not match vBucket "@ + dec(
                    p.vbucket as nat,
                ),
            ),
        )
    } else if p.bucket_uuid != Some(bucket_uuid) {
        Some(
            checkpoint_fault(
                "vBucket "@ + dec(v as nat) + " checkpoint does not belong to bucket "@
                    + bucket_uuid,
            ),
        )
    } else {
        p.fault()
    }
}

fn validate_checkpoint_identity(vbucket: u16, bucket_uuid: &str, checkpoint: &DcpCheckpoint) -> (result:
    Result<()>)
    ensures
        checked(
            result,
            checkpoint_identity_fault(vbucket, bucket_uuid@, checkpoint@),
        ),
{
    if checkpoint.vbucket != vbucket {
        return Err(
            DcpError::Checkpoint(
                join4(
                    "loaded checkpoint key ",
                    dec_text(vbucket as u64).as_str(),
                    " does not match vBucket ",
                    dec_text(checkpoint.vbucket as u64).as_str(),
                ),
            ),
        );
    }
    let belongs: bool = match &checkpoint.bucket_uuid {
        Some(uuid) => same_text(uuid.as_str(), bucket_uuid),
        None => false,
    };
    if !belongs {
        return Err(
            DcpError::Checkpoint(
                join4(
                    "vBucket ",
                    dec_text(vbucket as u64).as_str(),
                    " checkpoint does not belong to bucket ",
                    bucket_uuid,
                ),
            ),
        );
    }
    checkpoint.validate()
}

/// Why a rebase of a vBucket is refused, if it is.
pub open spec fn rebase_fault(m: CoordinatorModel, v: u16, p: Position) -> Option<DcpFault> {
    if !m.partitions.contains_key(v) {
        Some(checkpoint_fault("cannot rebase untracked vBucket "@ + dec(v as nat)))
    } else if checkpoint_identity_fault(v, m.bucket_uuid, p) is Some {
        checkpoint_identity_fault(v, m.bucket_uuid, p)
    } else if m.partitions[v].processed != p && m.partitions[v].generation == u64::MAX {
        Some(generation_overflow(v))
    } else {
        None
    }
}

/// Partitions after a rebase of some of them.
pub open spec fn rebased_all(
    partitions: Map<u16, PartitionModel>,
    effective: Map<u16, Position>,
) -> Map<u16, PartitionModel> {
    Map::new(
        |v: u16| partitions.contains_key(v),
        |v: u16|
            if effective.contains_key(v) {
                rebased(partitions[v], effective[v])
            } else {
                partitions[v]
            },
    )
}

impl TrackedEvent {
    /// The delivered event.
    pub closed spec fn content(&self) -> DcpEvent {
        self.event
    }

    /// The token, if the event has one.
    pub closed spec fn token(&self) -> Option<EventAck> {
        self.ack
    }

    /// Borrow the delivered DCP event.
    #[must_use]
    pub fn event(&self) -> (result: &DcpEvent)
        ensures
            *result == self.content(),
    {
        &self.event
    }

    /// Whether this sequence-bearing event must be acknowledged after
    /// successful application processing.
    #[must_use]
    pub fn requires_ack(&self) -> (result: bool)
        ensures
            result == (self.token() is Some),
    {
        self.ack.is_some()
    }

    /// Splits the event and its optional single-use token.
    #[must_use]
    pub fn into_parts(self) -> (result: (DcpEvent, Option<EventAck>))
        ensures
            result.0 == self.content(),
            result.1 == self.token(),
    {
        (self.event, self.ack)
    }

    /// Acknowledges this event when it advances sequence progress.
    /// Snapshot/stream boundary events return `Ok(None)`.
    pub fn acknowledge(self, coordinator: &mut CheckpointCoordinator) -> (result: Result<
        Option<AckOutcome>,
    >)
        ensures
            match self.token() {
                None => *final(coordinator) == *old(coordinator) && (result matches Ok(None)),
                Some(ack) => {
                    &&& final(coordinator)@ == ack_applied(old(coordinator)@, ack)
                    &&& match ack_outcome_fault(old(coordinator)@, ack) {
                        Some(fault) => result is Err && result->Err_0@ == fault,
                        None => result matches Ok(Some(outcome)) && ack_outcome(
                            old(coordinator)@,
                            ack,
                            outcome,
                        ),
                    }
                },
            },
            old(coordinator)@.sound() ==> final(coordinator)@.sound(),
    {
        match self.ack {
            None => Ok(None),
            Some(ack) => match ack.acknowledge(coordinator) {
                Ok(outcome) => Ok(Some(outcome)),
                Err(e) => Err(e),
            },
        }
    }
}

/// What the registration of an event does and yields.
pub open spec fn registration(
    m: CoordinatorModel,
    after: CoordinatorModel,
    event: DcpEvent,
    result: Result<TrackedEvent>,
) -> bool {
    let v = event.partition();
    if !m.partitions.contains_key(v) {
        &&& result is Err
        &&& result->Err_0@ == checkpoint_fault(
            "received event for untracked vBucket "@ + dec(v as nat),
        )
        &&& after == m
    } else {
        match registered(m.partitions[v], v, event) {
            Err(fault) => {
                &&& result is Err
                &&& result->Err_0@ == fault
                &&& after == m
            },
            Ok(next) => {
                &&& after == (CoordinatorModel { partitions: m.partitions.insert(v, next), ..m })
                &&& result is Ok
                &&& result->Ok_0.content() == event
                &&& match result->Ok_0.token() {
                    Some(ack) => {
                        &&& ack.partition() == v
                        &&& ack.delivery() == m.partitions[v].next_delivery_id
                        &&& event.progress() == Some(ack.position())
                    },
                    None => event.progress() is None,
                }
            },
        }
    }
}

/// Coordinator after an acknowledgement.
pub open spec fn ack_applied(m: CoordinatorModel, ack: EventAck) -> CoordinatorModel {
    if m.partitions.contains_key(ack.partition()) {
        CoordinatorModel {
            partitions: m.partitions.insert(
                ack.partition(),
                after_ack(m.partitions[ack.partition()], ack.delivery()),
            ),
            ..m
        }
    } else {
        m
    }
}

/// Why an acknowledgement fails, if it does.
pub open spec fn ack_outcome_fault(m: CoordinatorModel, ack: EventAck) -> Option<DcpFault> {
    if m.partitions.contains_key(ack.partition()) {
        ack_fault(m.partitions[ack.partition()], ack.partition(), ack.delivery())
    } else {
        Some(untracked(ack.partition()))
    }
}

/// What a successful acknowledgement reports.
pub open spec fn ack_outcome(m: CoordinatorModel, ack: EventAck, outcome: AckOutcome) -> bool {
    let p = m.partitions[ack.partition()];
    let q = after_ack(p, ack.delivery());
    &&& outcome.vbucket == ack.partition()
    &&& outcome.acknowledged_seqno == ack.position()
    &&& outcome.pending_events == q.pending.len()
    &&& match outcome.advanced_to {
        Some(checkpoint) => q.pending.len() < p.pending.len() && checkpoint@ == q.processed,
        None => q.pending.len() == p.pending.len() && q.processed == p.processed,
    }
}

/// An acknowledgement leaves the coordinator sound.
pub proof fn acknowledgement_keeps_soundness(m: CoordinatorModel, ack: EventAck)
    requires
        m.sound(),
    ensures
        ack_applied(m, ack).sound(),
{
    let v = ack.partition();
    if m.partitions.contains_key(v) {
        let p = m.partitions[v];
        if let Some(i) = found(p.pending, ack.delivery()) {
            first_where_ensures(
                p.pending,
                |e: PendingModel| e.delivery_id == ack.delivery(),
            );
            acknowledgement_is_contiguous(p, i);
            let k = settled(marked(p.pending, i));
            settled_bounds(marked(p.pending, i));
            if k > 0 {
                assert(marked(p.pending, i)[k - 1].position == p.pending[k - 1].position);
            }
        }
    }
}

impl EventAck {
    /// vBucket of the event.
    pub closed spec fn partition(&self) -> u16 {
        self.vbucket
    }

    /// Delivery ID of the event.
    pub closed spec fn delivery(&self) -> u64 {
        self.delivery_id
    }

    /// Sequence number of the event.
    pub closed spec fn position(&self) -> u64 {
        self.seqno
    }

    /// Marks this event processed and advances through every now-contiguous
    /// acknowledged event. This neither returns network credit nor makes
    /// anything durable.
    pub fn acknowledge(self, coordinator: &mut CheckpointCoordinator) -> (result: Result<AckOutcome>)
        ensures
            final(coordinator)@ == ack_applied(old(coordinator)@, self),
            match ack_outcome_fault(old(coordinator)@, self) {
                Some(fault) => result is Err && result->Err_0@ == fault,
                None => result matches Ok(outcome) && ack_outcome(
                    old(coordinator)@,
                    self,
                    outcome,
                ),
            },
            old(coordinator)@.sound() ==> final(coordinator)@.sound(),
    {
        proof {
            if coordinator@.sound() {
                acknowledgement_keeps_soundness(coordinator@, self);
            }
        }
        let ghost before = coordinator@;
        match coordinator.partitions.remove(&self.vbucket) {
            None => {
                assert(coordinator@.partitions =~= before.partitions);
                Err(untracked_error(self.vbucket))
            },
            Some(state) => {
                let mut state = state;
                let ghost p = state@;
                assert(p == before.partitions[self.vbucket]);
                let advanced = state.acknowledge(self.vbucket, self.delivery_id);
                let pending_events: usize = state.pending.len();
                let ghost q = state@;
                assert(pending_events == q.pending.len());
                coordinator.partitions.insert(self.vbucket, state);
                proof {
                    assert(coordinator@.partitions =~= before.partitions.insert(self.vbucket, q));
                    if let Some(i) = found(p.pending, self.delivery_id) {
                        settled_bounds(marked(p.pending, i));
                    }
                }
                match advanced {
                    Err(e) => Err(e),
                    Ok(advanced_to) => {
                        proof {
                            first_where_ensures(
                                p.pending,
                                |e: PendingModel| e.delivery_id == self.delivery_id,
                            );
                        }
                        Ok(
                            AckOutcome {
                                vbucket: self.vbucket,
                                acknowledged_seqno: self.seqno,
                                advanced_to,
                                pending_events,
                            },
                        )
                    },
                }
            },
        }
    }
}

proof fn faultless_start(p: Position, v: u16, expected: Option<Seq<char>>)
    requires
        start_checkpoint_fault(p, v, expected) is None,
    ensures
        p.valid(),
        p.vbucket == v,
        p.bucket_uuid is Some,
        expected is Some ==> p.bucket_uuid == expected,
{
    reveal(start_checkpoint_fault);
}

proof fn smallest_is(keys: Set<u16>, first: u16)
    requires
        keys.contains(first),
        forall|w: u16| #[trigger] keys.contains(w) ==> first <= w,
    ensures
        smallest(keys) == first,
{
    reveal(smallest);
    let s = smallest(keys);
    assert(keys.contains(s) && s <= first);
}

fn validate_initial_checkpoints(checkpoints: &BTreeMap<u16, DcpCheckpoint>) -> (result: Result<String>)
    ensures
        match result {
            Ok(uuid) => {
                &&& initial_faults(positions_of(checkpoints@)) is None
                &&& forall|v: u16| #[trigger]
                    checkpoints@.contains_key(v) ==> {
                        &&& checkpoints@[v]@.bucket_uuid == Some(uuid@)
                        &&& checkpoints@[v]@.vbucket == v
                        &&& checkpoints@[v]@.valid()
                    }
            },
            Err(e) => initial_faults(positions_of(checkpoints@)) == Some(e@),
        },
{
    let ghost positions = positions_of(checkpoints@);
    assert(positions.dom() =~= checkpoints@.dom());
    if checkpoints.len() == 0 {
        return Err(
            DcpError::InvalidConfiguration(
                "checkpoint coordinator requires at least one vBucket".to_owned(),
            ),
        );
    }
    let keys = sorted_keys(checkpoints);
    let first: u16 = keys[0];
    proof {
        let all = positions.dom();
        assert(keys@.contains(first));
        assert(checkpoints@.contains_key(first));
        assert forall|w: u16| #[trigger] all.contains(w) implies first <= w by {
            assert(checkpoints@.contains_key(w));
            assert(keys@.contains(w));
            let k = choose|k: int| 0 <= k < keys@.len() && keys@[k] == w;
            if k > 0 {
                assert(keys@[0] < keys@[k]);
            }
        }
        assert(all.contains(first));
        smallest_is(all, first);
    }
    let ghost fault = |v: u16| initial_fault(positions, v);
    let mut bucket_uuid = String::new();
    let mut i: usize = 0;
    while i < keys.len()
        invariant
            i <= keys@.len(),
            ascending(keys@),
            keys@.len() > 0,
            first == keys@[0],
            positions == positions_of(checkpoints@),
            positions.dom() == checkpoints@.dom(),
            positions.len() > 0,
            smallest(positions.dom()) == first,
            fault == (|v: u16| initial_fault(positions, v)),
            forall|v: u16| keys@.contains(v) <==> #[trigger] checkpoints@.contains_key(v),
            forall|j: int| 0 <= j < i ==> fault(#[trigger] keys@[j]) is None,
            i > 0 ==> positions[first].bucket_uuid == Some(bucket_uuid@),
        decreases keys@.len() - i,
    {
        let v: u16 = keys[i];
        proof {
            assert(keys@.contains(v));
            assert(checkpoints@.contains_key(v));
        }
        if let Some(checkpoint) = checkpoints.get(&v) {
            assert(positions[v] == checkpoint@);
            let expected: Option<&str> = if i == 0 {
                None
            } else {
                assert(keys@[0] < keys@[i as int]);
                Some(bucket_uuid.as_str())
            };
            if let Err(e) = check_start_checkpoint(checkpoint, v, expected) {
                proof {
                    assert(fault(keys@[i as int]) == Some(e@));
                    walked_to_fault(keys@, positions.dom(), fault, i as int);
                }
                return Err(e);
            }
            assert(fault(keys@[i as int]) is None);
            if i == 0 {
                if let Some(observed) = &checkpoint.bucket_uuid {
                    bucket_uuid = observed.clone();
                }
            }
        }
        i = i + 1;
    }
    proof {
        walked_without_fault(keys@, positions.dom(), fault);
        assert forall|v: u16| #[trigger] checkpoints@.contains_key(v) implies {
            &&& checkpoints@[v]@.bucket_uuid == Some(bucket_uuid@)
            &&& checkpoints@[v]@.vbucket == v
            &&& checkpoints@[v]@.valid()
        } by {
            assert(positions.dom().contains(v));
            assert(fault(v) is None);
            assert(positions[v] == checkpoints@[v]@);
            faultless_start(
                positions[v],
                v,
                if v == first {
                    None
                } else {
                    positions[first].bucket_uuid
                },
            );
        }
    }
    Ok(bucket_uuid)
}

impl CheckpointCoordinator {
    /// Creates a coordinator from the effective start checkpoint of every
    /// assigned vBucket.
    pub fn new(config: &CheckpointConfig, checkpoints: &BTreeMap<u16, DcpCheckpoint>) -> (result: Result<
        Self,
    >)
        ensures
            match result {
                Ok(coordinator) => {
                    let m = coordinator@;
                    &&& config.fault() is None
                    &&& initial_faults(positions_of(checkpoints@)) is None
                    &&& m.partitions.dom() == checkpoints@.dom()
                    &&& forall|v: u16| #[trigger]
                        checkpoints@.contains_key(v) ==> m.partitions[v] == started(
                            checkpoints@[v]@,
                        ) && checkpoints@[v]@.bucket_uuid == Some(m.bucket_uuid)
                    &&& m.metrics == (MetricsModel {
                        flush_attempts: 0,
                        flush_failures: 0,
                        last_flush_duration: None,
                        last_flush_error: None,
                    })
                    &&& m.sound()
                },
                Err(e) => Some(e@) == if config.fault() is Some {
                    config.fault()
                } else {
                    initial_faults(positions_of(checkpoints@))
                },
            },
    {
        config.validate()?;
        let bucket_uuid = validate_initial_checkpoints(checkpoints)?;
        let keys = sorted_keys(checkpoints);
        let mut partitions: BTreeMap<u16, PartitionState> = BTreeMap::new();
        let mut i: usize = 0;
        while i < keys.len()
            invariant
                i <= keys@.len(),
                forall|v: u16| keys@.contains(v) <==> #[trigger] checkpoints@.contains_key(v),
                forall|v: u16| #[trigger]
                    partitions@.contains_key(v) <==> keys@.take(i as int).contains(v),
                forall|v: u16| #[trigger]
                    partitions@.contains_key(v) ==> partitions@[v]@ == started(checkpoints@[v]@),
            decreases keys@.len() - i,
        {
            let v: u16 = keys[i];
            let ghost done = keys@.take(i as int);
            let ghost next = keys@.take(i + 1);
            assert(keys@.contains(v));
            if let Some(checkpoint) = checkpoints.get(&v) {
                partitions.insert(v, PartitionState::new(checkpoint.clone()));
            }
            proof {
                assert(next =~= done.push(v));
                assert forall|w: u16| #[trigger]
                    partitions@.contains_key(w) <==> next.contains(w) by {
                    if done.contains(w) {
                        let k = choose|k: int| 0 <= k < done.len() && done[k] == w;
                        assert(next[k] == w);
                    }
                    if w == v {
                        assert(next[i as int] == w);
                    }
                }
            }
            i = i + 1;
        }
        let coordinator = CheckpointCoordinator {
            bucket_uuid,
            partitions,
            metrics: CheckpointMetrics {
                flush_attempts: 0,
                flush_failures: 0,
                last_flush_duration: None,
                last_flush_error: None,
            },
        };
        proof {
            let m = coordinator@;
            assert(keys@.take(keys@.len() as int) =~= keys@);
            assert forall|v: u16| m.partitions.contains_key(
                v,
            ) == #[trigger] checkpoints@.contains_key(v) by {
                assert(keys@.contains(v) || !keys@.contains(v));
                assert(partitions@.contains_key(v) || !partitions@.contains_key(v));
            }
            assert(m.partitions.dom() =~= checkpoints@.dom());
            assert forall|v: u16| #[trigger] checkpoints@.contains_key(v) implies m.partitions[v]
                == started(checkpoints@[v]@) && checkpoints@[v]@.bucket_uuid == Some(
                m.bucket_uuid,
            ) by {
                assert(m.partitions.contains_key(v));
                assert(partitions@.contains_key(v));
            }
            assert forall|v: u16| #[trigger] m.partitions.contains_key(v) implies {
                let p = m.partitions[v];
                &&& p.sound()
                &&& p.processed.vbucket == v
                &&& p.processed.bucket_uuid == Some(m.bucket_uuid)
            } by {
                assert(checkpoints@.contains_key(v));
            }
        }
        Ok(coordinator)
    }

    /// Registers one DCP event and attaches a processed-acknowledgement token
    /// when it has a sequence number.
    pub fn track_event(&mut self, event: DcpEvent) -> (result: Result<TrackedEvent>)
        ensures
            registration(old(self)@, final(self)@, event, result),
            old(self)@.sound() ==> final(self)@.sound(),
    {
        let vbucket: u16 = event.vbucket();
        let ghost before = self@;
        match self.partitions.remove(&vbucket) {
            None => {
                assert(self@.partitions =~= before.partitions);
                Err(
                    DcpError::Checkpoint(
                        join2(
                            "received event for untracked vBucket ",
                            dec_text(vbucket as u64).as_str(),
                        ),
                    ),
                )
            },
            Some(state) => {
                let mut state = state;
                let ghost p = state@;
                assert(p == before.partitions[vbucket]);
                let tracked_as = state.track(vbucket, &event);
                let ghost q = state@;
                self.partitions.insert(vbucket, state);
                assert(self@.partitions =~= before.partitions.insert(vbucket, q));
                match tracked_as {
                    Err(e) => {
                        assert(self@.partitions =~= before.partitions);
                        Err(e)
                    },
                    Ok(token) => {
                        proof {
                            if before.sound() {
                                registration_is_not_progress(p, vbucket, event);
                            }
                        }
                        let ack: Option<EventAck> = match token {
                            Some((delivery_id, seqno)) => Some(
                                EventAck { vbucket, delivery_id, seqno },
                            ),
                            None => None,
                        };
                        Ok(TrackedEvent { event, ack })
                    },
                }
            },
        }
    }

    /// Marks an effective start checkpoint dirty even when its sequence number
    /// equals the last durable in-memory value.
    ///
    /// Use this after applying a missing-checkpoint fallback such as latest,
    /// so the captured start position is persisted before a restart can skip
    /// later offline changes.
    pub fn mark_dirty(&mut self, vbucket: u16) -> (result: Result<()>)
        ensures
            ({
                let m = old(self)@;
                if !m.partitions.contains_key(vbucket) {
                    result is Err && result->Err_0@ == untracked(vbucket) && final(self)@ == m
                } else if m.partitions[vbucket].generation == u64::MAX {
                    result is Err && result->Err_0@ == generation_overflow(vbucket) && final(self)@
                        == m
                } else {
                    &&& result is Ok
                    &&& final(self)@ == (CoordinatorModel {
                        partitions: m.partitions.insert(
                            vbucket,
                            PartitionModel {
                                generation: (m.partitions[vbucket].generation + 1) as u64,
                                ..m.partitions[vbucket]
                            },
                        ),
                        ..m
                    })
                }
            }),
            old(self)@.sound() ==> final(self)@.sound(),
    {
        let ghost before = self@;
        match self.partitions.remove(&vbucket) {
            None => {
                assert(self@.partitions =~= before.partitions);
                Err(untracked_error(vbucket))
            },
            Some(state) => {
                let mut state = state;
                let ghost p = state@;
                assert(p == before.partitions[vbucket]);
                if state.generation == u64::MAX {
                    self.partitions.insert(vbucket, state);
                    assert(self@.partitions =~= before.partitions);
                    return Err(generation_overflow_error(vbucket));
                }
                state.generation = state.generation + 1;
                let ghost q = state@;
                self.partitions.insert(vbucket, state);
                proof {
                    assert(self@.partitions =~= before.partitions.insert(vbucket, q));
                    if before.sound() {
                        assert(before.partitions.contains_key(vbucket));
                        assert(p.sound());
                        assert(q.pending == p.pending);
                        assert(q.sound());
                    }
                }
                Ok(())
            },
        }
    }

    fn dirty_vbuckets(&self) -> (result: Vec<u16>)
        ensures
            ascending(result@),
            forall|v: u16| result@.contains(v) <==> #[trigger] self@.dirty().contains(v),
            self@.dirty().finite(),
            result@.len() == self@.dirty().len(),
    {
        let keys = sorted_keys(&self.partitions);
        let mut list: Vec<u16> = Vec::new();
        let mut i: usize = 0;
        while i < keys.len()
            invariant
                i <= keys@.len(),
                ascending(keys@),
                forall|v: u16| keys@.contains(v) <==> #[trigger] self.partitions@.contains_key(v),
                ascending(list@),
                forall|j: int| 0 <= j < list@.len() ==> keys@.take(i as int).contains(
                    #[trigger] list@[j],
                ),
                forall|v: u16|
                    list@.contains(v) <==> (#[trigger] keys@.take(i as int).contains(v)
                        && self@.partitions[v].dirty()),
            decreases keys@.len() - i,
        {
            let v: u16 = keys[i];
            let ghost done = keys@.take(i as int);
            let ghost next = keys@.take(i + 1);
            let ghost before = list@;
            proof {
                assert(keys@.contains(v));
                assert(next =~= done.push(v));
                assert forall|w: u16| next.contains(w) <==> (#[trigger] done.contains(w) || w
                    == v) by {
                    if done.contains(w) {
                        let k = choose|k: int| 0 <= k < done.len() && done[k] == w;
                        assert(next[k] == w);
                    }
                    if w == v {
                        assert(next[i as int] == w);
                    }
                }
                assert(!done.contains(v)) by {
                    if done.contains(v) {
                        let k = choose|k: int| 0 <= k < done.len() && done[k] == v;
                        assert(keys@[k] < keys@[i as int]);
                    }
                }
            }
            let is_dirty: bool = match self.partitions.get(&v) {
                Some(state) => {
                    assert(self@.partitions[v] == state@);
                    state.is_dirty()
                },
                None => false,
            };
            if is_dirty {
                proof {
                    assert forall|j: int| 0 <= j < before.len() implies #[trigger] before[j] < v by {
                        assert(done.contains(before[j]));
                        let k = choose|k: int| 0 <= k < done.len() && done[k] == before[j];
                        assert(keys@[k] < keys@[i as int]);
                    }
                }
                list.push(v);
            }
            proof {
                assert forall|w: u16|
                    list@.contains(w) <==> (#[trigger] next.contains(w)
                        && self@.partitions[w].dirty()) by {
                    assert(next.contains(w) <==> (done.contains(w) || w == v));
                    if before.contains(w) {
                        let k = choose|k: int| 0 <= k < before.len() && before[k] == w;
                        assert(list@[k] == w);
                    }
                    if is_dirty && w == v {
                        assert(list@[before.len() as int] == w);
                    }
                    if list@.contains(w) && !(is_dirty && w == v) {
                        let k = choose|k: int| 0 <= k < list@.len() && list@[k] == w;
                        assert(before[k] == w);
                    }
                }
                assert forall|j: int| 0 <= j < list@.len() implies next.contains(
                    #[trigger] list@[j],
                ) by {
                    if j < before.len() {
                        assert(list@[j] == before[j]);
                        assert(done.contains(before[j]));
                    }
                }
            }
            i = i + 1;
        }
        proof {
            assert(keys@.take(keys@.len() as int) =~= keys@);
            assert forall|v: u16| list@.contains(v) <==> #[trigger] self@.dirty().contains(v) by {
                assert(keys@.contains(v) <==> self.partitions@.contains_key(v));
            }
            ascending_count(list@, self@.dirty());
        }
        list
    }

    /// Whether anything is left to make durable.
    pub fn has_dirty(&self) -> (result: bool)
        ensures
            result == (self@.dirty().len() > 0),
    {
        self.dirty_vbuckets().len() > 0
    }

    /// Starts a flush: the processed position of every dirty vBucket, in
    /// increasing order of the vBuckets.
    pub fn begin_flush(&mut self) -> (result: Result<Vec<DirtyCheckpoint>>)
        ensures
            match result {
                Ok(list) => {
                    &&& list@.len() == old(self)@.dirty().len()
                    &&& forall|i: int, j: int|
                        0 <= i < j < list@.len() ==> (#[trigger] list@[i]).vbucket < (
                        #[trigger] list@[j]).vbucket
                    &&& forall|i: int|
                        0 <= i < list@.len() ==> {
                            let d = (#[trigger] list@[i])@;
                            &&& old(self)@.dirty().contains(d.vbucket)
                            &&& d.position == old(self)@.partitions[d.vbucket].processed
                            &&& d.generation == old(self)@.partitions[d.vbucket].generation
                        }
                    &&& final(self)@ == (CoordinatorModel {
                        metrics: if list@.len() == 0 {
                            old(self)@.metrics
                        } else {
                            MetricsModel {
                                flush_attempts: (old(self)@.metrics.flush_attempts + 1) as u64,
                                ..old(self)@.metrics
                            }
                        },
                        ..old(self)@
                    })
                    &&& list@.len() > 0 ==> old(self)@.metrics.flush_attempts < u64::MAX
                },
                Err(e) => {
                    &&& old(self)@.dirty().len() > 0
                    &&& old(self)@.metrics.flush_attempts == u64::MAX
                    &&& e@ == checkpoint_fault("flush attempt counter overflow"@)
                    &&& *final(self) == *old(self)
                },
            },
    {
        let ids = self.dirty_vbuckets();
        let mut list: Vec<DirtyCheckpoint> = Vec::new();
        let mut i: usize = 0;
        while i < ids.len()
            invariant
                i <= ids@.len(),
                *self == *old(self),
                forall|v: u16| ids@.contains(v) <==> #[trigger] self@.dirty().contains(v),
                list@.len() == i,
                forall|j: int|
                    0 <= j < i ==> {
                        let d = (#[trigger] list@[j])@;
                        &&& d.vbucket == ids@[j]
                        &&& self@.dirty().contains(d.vbucket)
                        &&& d.position == self@.partitions[d.vbucket].processed
                        &&& d.generation == self@.partitions[d.vbucket].generation
                    },
            decreases ids@.len() - i,
        {
            let v: u16 = ids[i];
            assert(ids@.contains(v));
            assert(self@.dirty().contains(v));
            if let Some(state) = self.partitions.get(&v) {
                assert(self@.partitions[v] == state@);
                list.push(
                    DirtyCheckpoint {
                        vbucket: v,
                        checkpoint: state.processed.clone(),
                        generation: state.generation,
                    },
                );
            }
            i = i + 1;
        }
        if list.len() > 0 {
            if self.metrics.flush_attempts == u64::MAX {
                return Err(DcpError::Checkpoint("flush attempt counter overflow".to_owned()));
            }
            self.metrics.flush_attempts = self.metrics.flush_attempts + 1;
        }
        Ok(list)
    }

    /// Takes a successful save into account. Progress made meanwhile stays
    /// dirty.
    pub fn complete_flush(&mut self, list: &Vec<DirtyCheckpoint>, elapsed: Interval) -> (result:
        CheckpointFlushReport)
        ensures
            final(self)@ == (CoordinatorModel {
                partitions: saved_all(old(self)@.partitions, dirty_models(list@)),
                metrics: MetricsModel {
                    last_flush_duration: Some(elapsed),
                    last_flush_error: None,
                    ..old(self)@.metrics
                },
                ..old(self)@
            }),
            result.attempted == list@.len(),
            result.persisted == list@.len(),
            result.remaining_dirty == final(self)@.dirty().len(),
            result.elapsed == elapsed,
            old(self)@.sound() ==> final(self)@.sound(),
    {
        proof {
            if self@.sound() {
                saving_keeps_soundness(
                    self@,
                    dirty_models(list@),
                    MetricsModel {
                        last_flush_duration: Some(elapsed),
                        last_flush_error: None,
                        ..self@.metrics
                    },
                );
            }
        }
        let ghost before = self@;
        let ghost models = dirty_models(list@);
        let mut i: usize = 0;
        assert(models.take(0) =~= Seq::empty());
        while i < list.len()
            invariant
                i <= list@.len(),
                models == dirty_models(list@),
                before == old(self)@,
                self.bucket_uuid == old(self).bucket_uuid,
                self.metrics == old(self).metrics,
                self@.partitions == saved_all(before.partitions, models.take(i as int)),
            decreases list@.len() - i,
        {
            let d = &list[i];
            let ghost prior = self@.partitions;
            proof {
                assert(models[i as int] == d@);
                assert(models.take(i + 1).drop_last() =~= models.take(i as int));
                assert(models.take(i + 1).last() == d@);
            }
            match self.partitions.remove(&d.vbucket) {
                None => {
                    assert(self@.partitions =~= prior);
                },
                Some(state) => {
                    let mut state = state;
                    assert(state@ == prior[d.vbucket]);
                    state.durable = d.checkpoint.clone();
                    state.durable_generation = d.generation;
                    let ghost q = state@;
                    self.partitions.insert(d.vbucket, state);
                    assert(self@.partitions =~= prior.insert(d.vbucket, q));
                },
            }
            i = i + 1;
        }
        assert(models.take(models.len() as int) =~= models);
        self.metrics.last_flush_duration = Some(elapsed);
        self.metrics.last_flush_error = None;
        let remaining_dirty: usize = self.dirty_vbuckets().len();
        CheckpointFlushReport {
            attempted: list.len(),
            persisted: list.len(),
            remaining_dirty,
            elapsed,
        }
    }

    /// Takes a failed save into account; every position stays as dirty as it
    /// was. `increment_attempt` also counts the attempt itself.
    pub fn record_flush_failure(
        &mut self,
        elapsed: Interval,
        error: &DcpError,
        increment_attempt: bool,
    ) -> (result: Result<()>)
        ensures
            final(self)@.partitions == old(self)@.partitions,
            final(self)@.bucket_uuid == old(self)@.bucket_uuid,
            ({
                let m = old(self)@.metrics;
                let attempted = if increment_attempt && m.flush_attempts < u64::MAX {
                    MetricsModel { flush_attempts: (m.flush_attempts + 1) as u64, ..m }
                } else {
                    m
                };
                if increment_attempt && m.flush_attempts == u64::MAX {
                    &&& result is Err
                    &&& result->Err_0@ == checkpoint_fault("flush attempt counter overflow"@)
                    &&& final(self)@.metrics == m
                } else if m.flush_failures == u64::MAX {
                    &&& result is Err
                    &&& result->Err_0@ == checkpoint_fault("flush failure counter overflow"@)
                    &&& final(self)@.metrics == attempted
                } else {
                    &&& result is Ok
                    &&& final(self)@.metrics == (MetricsModel {
                        flush_failures: (m.flush_failures + 1) as u64,
                        last_flush_duration: Some(elapsed),
                        last_flush_error: Some(error@.text()),
                        ..attempted
                    })
                }
            }),
    {
        if increment_attempt {
            if self.metrics.flush_attempts == u64::MAX {
                return Err(DcpError::Checkpoint("flush attempt counter overflow".to_owned()));
            }
            self.metrics.flush_attempts = self.metrics.flush_attempts + 1;
        }
        if self.metrics.flush_failures == u64::MAX {
            return Err(DcpError::Checkpoint("flush failure counter overflow".to_owned()));
        }
        self.metrics.flush_failures = self.metrics.flush_failures + 1;
        self.metrics.last_flush_duration = Some(elapsed);
        self.metrics.last_flush_error = Some(error.to_text());
        Ok(())
    }

    /// Ends a flush with the outcome of the save: a successful one makes the
    /// saved positions durable, a failed one leaves everything as dirty as it
    /// was. With nothing to save there is nothing to record.
    pub fn finish_flush(
        &mut self,
        list: &Vec<DirtyCheckpoint>,
        outcome: Result<()>,
        elapsed: Interval,
    ) -> (result: Result<CheckpointFlushReport>)
        ensures
            match outcome {
                Ok(_) => {
                    &&& result is Ok
                    &&& result->Ok_0.attempted == list@.len()
                    &&& result->Ok_0.persisted == list@.len()
                    &&& result->Ok_0.elapsed == elapsed
                    &&& if list@.len() == 0 {
                        *final(self) == *old(self) && result->Ok_0.remaining_dirty == 0
                    } else {
                        &&& result->Ok_0.remaining_dirty == final(self)@.dirty().len()
                        &&& final(self)@ == (CoordinatorModel {
                            partitions: saved_all(old(self)@.partitions, dirty_models(list@)),
                            metrics: MetricsModel {
                                last_flush_duration: Some(elapsed),
                                last_flush_error: None,
                                ..old(self)@.metrics
                            },
                            ..old(self)@
                        })
                    }
                },
                Err(e) => {
                    &&& final(self)@.partitions == old(self)@.partitions
                    &&& final(self)@.bucket_uuid == old(self)@.bucket_uuid
                    &&& if old(self)@.metrics.flush_failures == u64::MAX {
                        &&& result is Err
                        &&& result->Err_0@ == checkpoint_fault("flush failure counter overflow"@)
                        &&& final(self)@.metrics == old(self)@.metrics
                    } else {
                        &&& result is Err
                        &&& result->Err_0 == e
                        &&& final(self)@.metrics == (MetricsModel {
                            flush_failures: (old(self)@.metrics.flush_failures + 1) as u64,
                            last_flush_duration: Some(elapsed),
                            last_flush_error: Some(e@.text()),
                            ..old(self)@.metrics
                        })
                    }
                },
            },
            old(self)@.sound() ==> final(self)@.sound(),
    {
        match outcome {
            Ok(()) => {
                if list.len() == 0 {
                    return Ok(
                        CheckpointFlushReport {
                            attempted: 0,
                            persisted: 0,
                            remaining_dirty: 0,
                            elapsed,
                        },
                    );
                }
                Ok(self.complete_flush(list, elapsed))
            },
            Err(e) => {
                self.record_flush_failure(elapsed, &e, false)?;
                Err(e)
            },
        }
    }

    /// Processed/durable state of a vBucket at one instant.
    pub fn status(&self, vbucket: u16) -> (result: Option<PartitionCheckpointStatus>)
        ensures
            match result {
                Some(status) => {
                    let p = self@.partitions[vbucket];
                    &&& self@.partitions.contains_key(vbucket)
                    &&& status.durable@ == p.durable
                    &&& status.processed@ == p.processed
                    &&& status.pending_events == p.pending.len()
                    &&& status.dirty == p.dirty()
                },
                None => !self@.partitions.contains_key(vbucket),
            },
    {
        match self.partitions.get(&vbucket) {
            None => None,
            Some(state) => {
                assert(self@.partitions[vbucket] == state@);
                Some(
                    PartitionCheckpointStatus {
                        durable: state.durable.clone(),
                        processed: state.processed.clone(),
                        pending_events: state.pending.len(),
                        dirty: state.is_dirty(),
                    },
                )
            },
        }
    }

    /// Per-vBucket processed/durable state at one instant.
    pub fn statuses(&self) -> (result: BTreeMap<u16, PartitionCheckpointStatus>)
        ensures
            result@.dom() == self@.partitions.dom(),
            forall|v: u16| #[trigger]
                self@.partitions.contains_key(v) ==> {
                    let p = self@.partitions[v];
                    &&& result@[v].durable@ == p.durable
                    &&& result@[v].processed@ == p.processed
                    &&& result@[v].pending_events == p.pending.len()
                    &&& result@[v].dirty == p.dirty()
                },
    {
        let keys = sorted_keys(&self.partitions);
        let mut map: BTreeMap<u16, PartitionCheckpointStatus> = BTreeMap::new();
        let mut i: usize = 0;
        while i < keys.len()
            invariant
                i <= keys@.len(),
                forall|v: u16| keys@.contains(v) <==> #[trigger] self.partitions@.contains_key(v),
                forall|v: u16| #[trigger] map@.contains_key(v) <==> keys@.take(i as int).contains(v),
                forall|v: u16| #[trigger]
                    map@.contains_key(v) ==> {
                        let p = self@.partitions[v];
                        &&& map@[v].durable@ == p.durable
                        &&& map@[v].processed@ == p.processed
                        &&& map@[v].pending_events == p.pending.len()
                        &&& map@[v].dirty == p.dirty()
                    },
            decreases keys@.len() - i,
        {
            let v: u16 = keys[i];
            let ghost done = keys@.take(i as int);
            let ghost next = keys@.take(i + 1);
            assert(keys@.contains(v));
            if let Some(status) = self.status(v) {
                map.insert(v, status);
            }
            proof {
                assert(next =~= done.push(v));
                assert forall|w: u16| #[trigger] map@.contains_key(w) <==> next.contains(w) by {
                    if done.contains(w) {
                        let k = choose|k: int| 0 <= k < done.len() && done[k] == w;
                        assert(next[k] == w);
                    }
                    if w == v {
                        assert(next[i as int] == w);
                    }
                }
            }
            i = i + 1;
        }
        proof {
            assert(keys@.take(keys@.len() as int) =~= keys@);
            assert forall|v: u16| map@.contains_key(v) == #[trigger] self@.partitions.contains_key(
                v,
            ) by {
                assert(keys@.contains(v) <==> self.partitions@.contains_key(v));
            }
            assert(map@.dom() =~= self@.partitions.dom());
        }
        map
    }

    /// Returns the contiguous application-processed checkpoint for every
    /// tracked vBucket.
    pub fn processed_checkpoints(&self) -> (result: BTreeMap<u16, DcpCheckpoint>)
        ensures
            result@.dom() == self@.partitions.dom(),
            forall|v: u16| #[trigger]
                self@.partitions.contains_key(v) ==> result@[v]@ == self@.partitions[v].processed,
    {
        let keys = sorted_keys(&self.partitions);
        let mut map: BTreeMap<u16, DcpCheckpoint> = BTreeMap::new();
        let mut i: usize = 0;
        while i < keys.len()
            invariant
                i <= keys@.len(),
                forall|v: u16| keys@.contains(v) <==> #[trigger] self.partitions@.contains_key(v),
                forall|v: u16| #[trigger] map@.contains_key(v) <==> keys@.take(i as int).contains(v),
                forall|v: u16| #[trigger]
                    map@.contains_key(v) ==> map@[v]@ == self@.partitions[v].processed,
            decreases keys@.len() - i,
        {
            let v: u16 = keys[i];
            let ghost done = keys@.take(i as int);
            let ghost next = keys@.take(i + 1);
            assert(keys@.contains(v));
            if let Some(state) = self.partitions.get(&v) {
                assert(self@.partitions[v] == state@);
                map.insert(v, state.processed.clone());
            }
            proof {
                assert(next =~= done.push(v));
                assert forall|w: u16| #[trigger] map@.contains_key(w) <==> next.contains(w) by {
                    if done.contains(w) {
                        let k = choose|k: int| 0 <= k < done.len() && done[k] == w;
                        assert(next[k] == w);
                    }
                    if w == v {
                        assert(next[i as int] == w);
                    }
                }
            }
            i = i + 1;
        }
        proof {
            assert(keys@.take(keys@.len() as int) =~= keys@);
            assert forall|v: u16| map@.contains_key(v) == #[trigger] self@.partitions.contains_key(
                v,
            ) by {
                assert(keys@.contains(v) <==> self.partitions@.contains_key(v));
            }
            assert(map@.dom() =~= self@.partitions.dom());
        }
        map
    }

    /// Replaces effective stream starts after a connection generation is
    /// reopened and invalidates every outstanding token for those vBuckets.
    ///
    /// A changed effective checkpoint is marked dirty, including a rollback to
    /// an earlier sequence or a new failover UUID, so a later flush cannot
    /// leave the former resume point durable. Validation completes before any
    /// partition is changed.
    pub fn rebase_partitions(&mut self, effective: &BTreeMap<u16, DcpCheckpoint>) -> (result: Result<
        (),
    >)
        ensures
            ({
                let positions = positions_of(effective@);
                let fault = keyed_fault(
                    positions.dom(),
                    |v: u16| rebase_fault(old(self)@, v, positions[v]),
                );
                &&& checked(result, fault)
                &&& final(self)@ == if fault is Some {
                    old(self)@
                } else {
                    CoordinatorModel {
                        partitions: rebased_all(old(self)@.partitions, positions),
                        ..old(self)@
                    }
                }
            }),
            old(self)@.sound() ==> final(self)@.sound(),
    {
        let ghost positions = positions_of(effective@);
        let ghost start = self@;
        let ghost fault = |v: u16| rebase_fault(start, v, positions[v]);
        assert(positions.dom() =~= effective@.dom());
        let keys = sorted_keys(effective);
        let mut i: usize = 0;
        while i < keys.len()
            invariant
                i <= keys@.len(),
                *self == *old(self),
                start == self@,
                positions == positions_of(effective@),
                positions.dom() == effective@.dom(),
                fault == (|v: u16| rebase_fault(start, v, positions[v])),
                ascending(keys@),
                forall|v: u16| keys@.contains(v) <==> #[trigger] effective@.contains_key(v),
                forall|j: int| 0 <= j < i ==> fault(#[trigger] keys@[j]) is None,
            decreases keys@.len() - i,
        {
            let v: u16 = keys[i];
            assert(keys@.contains(v));
            assert(effective@.contains_key(v));
            if let Some(checkpoint) = effective.get(&v) {
                assert(positions[v] == checkpoint@);
                match self.partitions.get(&v) {
                    None => {
                        proof {
                            walked_to_fault(keys@, positions.dom(), fault, i as int);
                        }
                        return Err(
                            DcpError::Checkpoint(
                                join2(
                                    "cannot rebase untracked vBucket ",
                                    dec_text(v as u64).as_str(),
                                ),
                            ),
                        );
                    },
                    Some(state) => {
                        assert(start.partitions[v] == state@);
                        if let Err(e) = validate_checkpoint_identity(
                            v,
                            self.bucket_uuid.as_str(),
                            checkpoint,
                        ) {
                            proof {
                                walked_to_fault(keys@, positions.dom(), fault, i as int);
                            }
                            return Err(e);
                        }
                        if !state.processed.same(checkpoint) && state.generation == u64::MAX {
                            proof {
                                walked_to_fault(keys@, positions.dom(), fault, i as int);
                            }
                            return Err(generation_overflow_error(v));
                        }
                    },
                }
                assert(fault(keys@[i as int]) is None);
            }
            i = i + 1;
        }
        proof {
            walked_without_fault(keys@, positions.dom(), fault);
        }
        i = 0;
        while i < keys.len()
            invariant
                i <= keys@.len(),
                self.bucket_uuid == old(self).bucket_uuid,
                self.metrics == old(self).metrics,
                start == old(self)@,
                positions == positions_of(effective@),
                positions.dom() == effective@.dom(),
                ascending(keys@),
                forall|v: u16| keys@.contains(v) <==> #[trigger] effective@.contains_key(v),
                self@.partitions.dom() == start.partitions.dom(),
                forall|v: u16| #[trigger]
                    start.partitions.contains_key(v) ==> self@.partitions[v] == if keys@.take(
                        i as int,
                    ).contains(v) {
                        rebased(start.partitions[v], positions[v])
                    } else {
                        start.partitions[v]
                    },
            decreases keys@.len() - i,
        {
            let v: u16 = keys[i];
            let ghost done = keys@.take(i as int);
            let ghost next = keys@.take(i + 1);
            let ghost prior = self@.partitions;
            proof {
                assert(keys@.contains(v));
                assert(effective@.contains_key(v));
                assert(!done.contains(v)) by {
                    if done.contains(v) {
                        let k = choose|k: int| 0 <= k < done.len() && done[k] == v;
                        assert(keys@[k] < keys@[i as int]);
                    }
                }
                assert(next =~= done.push(v));
            }
            if let Some(checkpoint) = effective.get(&v) {
                assert(positions[v] == checkpoint@);
                match self.partitions.remove(&v) {
                    None => {
                        assert(self@.partitions =~= prior);
                    },
                    Some(state) => {
                        let mut state = state;
                        assert(state@ == prior[v]);
                        assert(start.partitions.contains_key(v));
                        state.rebase(checkpoint.clone());
                        let ghost q = state@;
                        self.partitions.insert(v, state);
                        assert(self@.partitions =~= prior.insert(v, q));
                    },
                }
            }
            proof {
                assert(self@.partitions.dom() =~= start.partitions.dom());
                assert forall|w: u16| #[trigger]
                    start.partitions.contains_key(w) implies self@.partitions[w] == if next.contains(
                    w,
                ) {
                    rebased(start.partitions[w], positions[w])
                } else {
                    start.partitions[w]
                } by {
                    if w == v {
                        assert(next[i as int] == w);
                    } else if done.contains(w) {
                        let k = choose|k: int| 0 <= k < done.len() && done[k] == w;
                        assert(next[k] == w);
                    }
                }
            }
            i = i + 1;
        }
        proof {
            assert(keys@.take(keys@.len() as int) =~= keys@);
            assert(self@.partitions =~= rebased_all(start.partitions, positions)) by {
                assert forall|v: u16| #[trigger]
                    start.partitions.contains_key(v) implies self@.partitions[v] == rebased_all(
                    start.partitions,
                    positions,
                )[v] by {
                    assert(keys@.contains(v) <==> effective@.contains_key(v));
                }
            }
            if start.sound() {
                assert forall|v: u16| #[trigger] self@.partitions.contains_key(v) implies {
                    let p = self@.partitions[v];
                    &&& p.sound()
                    &&& p.processed.vbucket == v
                    &&& p.processed.bucket_uuid == Some(self@.bucket_uuid)
                } by {
                    assert(start.partitions.contains_key(v));
                    if positions.contains_key(v) {
                        assert(fault(v) is None);
                    }
                }
            }
        }
        Ok(())
    }

    /// Flush counters and last store error.
    pub fn metrics(&self) -> (result: CheckpointMetrics)
        ensures
            result@ == self@.metrics,
    {
        CheckpointMetrics {
            flush_attempts: self.metrics.flush_attempts,
            flush_failures: self.metrics.flush_failures,
            last_flush_duration: self.metrics.last_flush_duration,
            last_flush_error: copy_opt_text(&self.metrics.last_flush_error),
        }
    }
}

/// Why a load is refused before it starts, if it is.
pub open spec fn load_request_fault(bucket_uuid: Seq<char>, vbuckets: Seq<u16>, timeout: Interval) -> Option<
    DcpFault,
> {
    if bucket_uuid.len() == 0 {
        Some(DcpFault::InvalidConfiguration("checkpoint bucket UUID must not be empty"@))
    } else if timeout.total_nanos() == 0 {
        Some(
            DcpFault::InvalidConfiguration(
                "checkpoint load timeout must be greater than zero"@,
            ),
        )
    } else if !vbuckets.no_duplicates() {
        Some(checkpoint_fault("checkpoint load vBucket list contains duplicates"@))
    } else {
        None
    }
}

/// Tests whether an identifier occurs twice.
pub fn has_duplicates(ids: &[u16]) -> (result: bool)
    ensures
        result == !ids@.no_duplicates(),
{
    let mut i: usize = 0;
    while i < ids.len()
        invariant
            i <= ids@.len(),
            forall|a: int, b: int|
                0 <= a < i && a < b < ids@.len() ==> #[trigger] ids@[a] != #[trigger] ids@[b],
        decreases ids@.len() - i,
    {
        let mut j: usize = i + 1;
        while j < ids.len()
            invariant
                i < j <= ids@.len(),
                forall|b: int| i < b < j ==> ids@[i as int] != #[trigger] ids@[b],
            decreases ids@.len() - j,
        {
            if ids[i] == ids[j] {
                assert(ids@[i as int] == ids@[j as int]);
                return true;
            }
            j = j + 1;
        }
        i = i + 1;
    }
    assert(ids@.no_duplicates());
    false
}

/// Checks a load before it starts.
pub fn prepare_load(bucket_uuid: &str, vbuckets: &[u16], timeout: &Interval) -> (result: Result<()>)
    ensures
        checked(result, load_request_fault(bucket_uuid@, vbuckets@, *timeout)),
{
    if bucket_uuid.is_empty() {
        return Err(
            DcpError::InvalidConfiguration("checkpoint bucket UUID must not be empty".to_owned()),
        );
    }
    if timeout.is_zero() {
        return Err(
            DcpError::InvalidConfiguration(
                "checkpoint load timeout must be greater than zero".to_owned(),
            ),
        );
    }
    if has_duplicates(vbuckets) {
        return Err(
            DcpError::Checkpoint("checkpoint load vBucket list contains duplicates".to_owned()),
        );
    }
    Ok(())
}

/// What is wrong with a loaded checkpoint, if anything.
pub open spec fn loaded_fault(
    bucket_uuid: Seq<char>,
    vbuckets: Seq<u16>,
    v: u16,
    p: Position,
) -> Option<DcpFault> {
    if !vbuckets.contains(v) {
        Some(checkpoint_fault("checkpoint store returned unrequested vBucket "@ + dec(v as nat)))
    } else {
        checkpoint_identity_fault(v, bucket_uuid, p)
    }
}

fn lists_vbucket(ids: &[u16], id: u16) -> (result: bool)
    ensures
        result == ids@.contains(id),
{
    let mut i: usize = 0;
    while i < ids.len()
        invariant
            i <= ids@.len(),
            forall|j: int| 0 <= j < i ==> #[trigger] ids@[j] != id,
        decreases ids@.len() - i,
    {
        if ids[i] == id {
            assert(ids@[i as int] == id);
            return true;
        }
        i = i + 1;
    }
    false
}

/// Checks what a store returned. A checkpoint of another bucket is an error,
/// never a start position.
pub fn accept_loaded(
    bucket_uuid: &str,
    vbuckets: &[u16],
    checkpoints: BTreeMap<u16, DcpCheckpoint>,
) -> (result: Result<BTreeMap<u16, DcpCheckpoint>>)
    ensures
        ({
            let positions = positions_of(checkpoints@);
            let fault = keyed_fault(
                positions.dom(),
                |v: u16| loaded_fault(bucket_uuid@, vbuckets@, v, positions[v]),
            );
            match result {
                Ok(accepted) => fault is None && accepted@ == checkpoints@ && forall|v: u16|
                    #[trigger] accepted@.contains_key(v) ==> accepted@[v]@.bucket_uuid == Some(
                        bucket_uuid@,
                    ) && accepted@[v]@.valid() && vbuckets@.contains(v),
                Err(e) => fault == Some(e@),
            }
        }),
{
    let ghost positions = positions_of(checkpoints@);
    let ghost fault = |v: u16| loaded_fault(bucket_uuid@, vbuckets@, v, positions[v]);
    assert(positions.dom() =~= checkpoints@.dom());
    let keys = sorted_keys(&checkpoints);
    let mut i: usize = 0;
    while i < keys.len()
        invariant
            i <= keys@.len(),
            positions == positions_of(checkpoints@),
            positions.dom() == checkpoints@.dom(),
            fault == (|v: u16| loaded_fault(bucket_uuid@, vbuckets@, v, positions[v])),
            ascending(keys@),
            forall|v: u16| keys@.contains(v) <==> #[trigger] checkpoints@.contains_key(v),
            forall|j: int| 0 <= j < i ==> fault(#[trigger] keys@[j]) is None,
        decreases keys@.len() - i,
    {
        let v: u16 = keys[i];
        assert(keys@.contains(v));
        assert(checkpoints@.contains_key(v));
        if !lists_vbucket(vbuckets, v) {
            proof {
                walked_to_fault(keys@, positions.dom(), fault, i as int);
            }
            return Err(
                DcpError::Checkpoint(
                    join2(
                        "checkpoint store returned unrequested vBucket ",
                        dec_text(v as u64).as_str(),
                    ),
                ),
            );
        }
        if let Some(checkpoint) = checkpoints.get(&v) {
            assert(positions[v] == checkpoint@);
            if let Err(e) = validate_checkpoint_identity(v, bucket_uuid, checkpoint) {
                proof {
                    walked_to_fault(keys@, positions.dom(), fault, i as int);
                }
                return Err(e);
            }
            assert(fault(keys@[i as int]) is None);
        }
        i = i + 1;
    }
    proof {
        walked_without_fault(keys@, positions.dom(), fault);
        assert forall|v: u16| #[trigger] checkpoints@.contains_key(v) implies checkpoints@[v]@.bucket_uuid
            == Some(bucket_uuid@) && checkpoints@[v]@.valid() && vbuckets@.contains(v) by {
            assert(positions.dom().contains(v));
            assert(fault(v) is None);
            assert(positions[v] == checkpoints@[v]@);
        }
    }
    Ok(checkpoints)
}

} // verus!
