//! Decisions of the client and of its subscription.
use std::collections::BTreeMap;
use vstd::prelude::*;

use crate::assignment::{AssignmentMode, VBucketAssignment};
use crate::checkpoint::{DcpCheckpoint, Position};
use crate::checkpoint_runtime::{
    ack_applied, ack_fault, ack_outcome, ack_outcome_fault, after_ack, checkpoint_fault,
    generation_overflow, initial_faults, positions_of, rebase_fault, rebased_all, registered, saved, started,
    untracked, AckOutcome,
    CheckpointCoordinator, CoordinatorModel, EventAck, PartitionModel, TrackedEvent,
};
use crate::collections::{
    applied, attached_name, document_collection, owed_name, same_but_name, CollectionRegistry,
};
use crate::config::{CheckpointConfig, DcpMode, RollbackPolicy, StartPosition};
use crate::error::{checked, DcpError, DcpFault, Outcome, Result};
use crate::event::DcpEvent;
use crate::generation::{
    nothing_owned, nothing_owned_error, opened_fault, validate_opened_partitions,
};
use crate::interval::Interval;
use crate::lists::{first_fault, first_fault_absent, first_fault_found, first_where_is_none};
use crate::maps::{ascending, ascending_is_listed, keyed_fault, least_faulty, listed, sorted_keys};
use crate::observability::{
    counted, delivered, DcpHealth, DcpHealthStatus, DcpMetrics, DcpMetricsSnapshot, HealthModel,
};
use crate::stream::{missing_handler, missing_handler_error};
use crate::text::{dec, dec_text, join2, join4};
use crate::topology::{
    absent_vbucket, first_absent, identity_fault, ClusterTopology, Topology, TopologyState,
};

verus! {

broadcast use {vstd::std_specs::btree::group_btree_axioms, vstd::laws_cmp::group_laws_cmp};

/// Subscription ownership, persistence, and optional stream-ID settings.
pub struct DcpSubscriptionSpec<S, H> {
    assignment: AssignmentMode,
    checkpoint_store: S,
    stream_id: Option<u16>,
    rollback_handler: Option<H>,
}

impl<S, H> DcpSubscriptionSpec<S, H> {
    /// Source of ownership.
    pub closed spec fn ownership(&self) -> AssignmentMode {
        self.assignment
    }

    /// Checkpoint store.
    pub closed spec fn store(&self) -> S {
        self.checkpoint_store
    }

    /// Stream identifier.
    pub closed spec fn stream(&self) -> Option<u16> {
        self.stream_id
    }

    /// Rollback handler.
    pub closed spec fn handler(&self) -> Option<H> {
        self.rollback_handler
    }

    /// Creates a subscription that owns every vBucket in the current topology.
    #[must_use]
    pub fn standalone(checkpoint_store: S) -> (result: Self)
        ensures
            result.ownership() == AssignmentMode::Standalone,
            result.store() == checkpoint_store,
            result.stream() is None,
            result.handler() is None,
    {
        DcpSubscriptionSpec {
            assignment: AssignmentMode::Standalone,
            checkpoint_store,
            stream_id: None,
            rollback_handler: None,
        }
    }

    /// Creates a subscription fenced by an externally managed assignment.
    #[must_use]
    pub fn external(checkpoint_store: S, assignment: VBucketAssignment) -> (result: Self)
        ensures
            result.ownership() == AssignmentMode::External(assignment),
            result.store() == checkpoint_store,
            result.stream() is None,
            result.handler() is None,
    {
        DcpSubscriptionSpec {
            assignment: AssignmentMode::External(assignment),
            checkpoint_store,
            stream_id: None,
            rollback_handler: None,
        }
    }

    /// Adds an optional DCP stream identifier negotiated with the server.
    #[must_use]
    pub fn stream_id(self, stream_id: Option<u16>) -> (result: Self)
        ensures
            result.ownership() == self.ownership(),
            result.store() == self.store(),
            result.stream() == stream_id,
            result.handler() == self.handler(),
    {
        DcpSubscriptionSpec { stream_id, ..self }
    }

    /// Adds the application callback required by delegated rollback policy.
    #[must_use]
    pub fn rollback_handler(self, handler: H) -> (result: Self)
        ensures
            result.ownership() == self.ownership(),
            result.store() == self.store(),
            result.stream() == self.stream(),
            result.handler() == Some(handler),
    {
        DcpSubscriptionSpec { rollback_handler: Some(handler), ..self }
    }

    /// Current assignment mode.
    #[must_use]
    pub fn assignment(&self) -> (result: &AssignmentMode)
        ensures
            *result == self.ownership(),
    {
        &self.assignment
    }

    /// Configured optional DCP stream identifier.
    #[must_use]
    pub fn stream_id_value(&self) -> (result: Option<u16>)
        ensures
            result == self.stream(),
    {
        self.stream_id
    }

    /// The checkpoint store and the rollback handler.
    pub fn into_parts(self) -> (result: (AssignmentMode, S, Option<u16>, Option<H>))
        ensures
            result.0 == self.ownership(),
            result.1 == self.store(),
            result.2 == self.stream(),
            result.3 == self.handler(),
    {
        (self.assignment, self.checkpoint_store, self.stream_id, self.rollback_handler)
    }

    /// Why the settings are refused, if they are.
    pub open spec fn fault(&self, policy: RollbackPolicy) -> Option<DcpFault> {
        if self.stream() == Some(0u16) {
            Some(DcpFault::InvalidConfiguration("DCP stream ID must be non-zero"@))
        } else if policy == RollbackPolicy::DelegateToHandler && self.handler() is None {
            Some(missing_handler())
        } else {
            None
        }
    }

    /// Checks the settings against the configured rollback policy.
    pub fn validate(&self, policy: RollbackPolicy) -> (result: Result<()>)
        ensures
            checked(result, self.fault(policy)),
    {
        if let Some(id) = self.stream_id {
            if id == 0 {
                return Err(
                    DcpError::InvalidConfiguration("DCP stream ID must be non-zero".to_owned()),
                );
            }
        }
        match policy {
            RollbackPolicy::DelegateToHandler => {
                if self.rollback_handler.is_none() {
                    return Err(missing_handler_error());
                }
            },
            _ => {},
        }
        Ok(())
    }
}

/// Lifecycle of a client: it owns at most one active subscription, and none
/// once it is closed.
#[derive(Clone, Copy, Debug, PartialEq, Eq, Structural)]
pub struct ClientLifecycle {
    /// The client was closed.
    pub closed: bool,
    /// A subscription is active or being prepared.
    pub active: bool,
}

impl ClientLifecycle {
    /// A connected client.
    pub fn new() -> (result: Self)
        ensures
            !result.closed,
            !result.active,
    {
        ClientLifecycle { closed: false, active: false }
    }

    /// Why no subscription may begin, if none may.
    pub open spec fn subscribe_fault<S, H>(
        self,
        spec: DcpSubscriptionSpec<S, H>,
        policy: RollbackPolicy,
    ) -> Option<DcpFault> {
        if self.closed {
            Some(DcpFault::Cancelled)
        } else if spec.fault(policy) is Some {
            spec.fault(policy)
        } else if self.active {
            Some(
                DcpFault::InvalidConfiguration(
                    "this DCP client already has an active subscription"@,
                ),
            )
        } else {
            None
        }
    }

    /// Reserves the client's single subscription.
    pub fn begin_subscribe<S, H>(
        &mut self,
        spec: &DcpSubscriptionSpec<S, H>,
        policy: RollbackPolicy,
    ) -> (result: Result<()>)
        ensures
            checked(result, old(self).subscribe_fault(*spec, policy)),
            final(self).closed == old(self).closed,
            final(self).active == (result is Ok || old(self).active),
    {
        if self.closed {
            return Err(DcpError::Cancelled);
        }
        spec.validate(policy)?;
        if self.active {
            return Err(
                DcpError::InvalidConfiguration(
                    "this DCP client already has an active subscription".to_owned(),
                ),
            );
        }
        self.active = true;
        Ok(())
    }

    /// Activates the reserved subscription, unless the client was closed
    /// meanwhile; then the reservation is given up.
    pub fn activate(&mut self) -> (result: Result<()>)
        ensures
            final(self).closed == old(self).closed,
            if old(self).closed {
                result is Err && result->Err_0@ == DcpFault::Cancelled && !final(self).active
            } else {
                result is Ok && final(self).active == old(self).active
            },
    {
        if self.closed {
            self.active = false;
            return Err(DcpError::Cancelled);
        }
        Ok(())
    }

    /// Gives up the subscription, whether it was prepared or active.
    pub fn release(&mut self)
        ensures
            final(self).closed == old(self).closed,
            !final(self).active,
    {
        self.active = false;
    }

    /// Closes the client.
    pub fn close(&mut self)
        ensures
            final(self).closed,
            final(self).active == old(self).active,
    {
        self.closed = true;
    }
}

/// A client never has two subscriptions, and none begins once it is closed.
pub proof fn one_subscription_at_a_time<S, H>(
    lifecycle: ClientLifecycle,
    spec: DcpSubscriptionSpec<S, H>,
    policy: RollbackPolicy,
)
    ensures
        lifecycle.active ==> lifecycle.subscribe_fault(spec, policy) is Some,
        lifecycle.closed ==> lifecycle.subscribe_fault(spec, policy) == Some(DcpFault::Cancelled),
        !lifecycle.active && !lifecycle.closed ==> lifecycle.subscribe_fault(spec, policy)
            == spec.fault(policy),
{
}

/// Content of what closing a client reports.
pub open spec fn close_fault(
    subscription: Option<DcpFault>,
    health_task: Option<Seq<char>>,
) -> Option<DcpFault> {
    if subscription is Some {
        subscription
    } else {
        match health_task {
            Some(detail) => Some(DcpFault::Topology("health-check task failed: "@ + detail)),
            None => None,
        }
    }
}

/// What closing a client reports: the failure of the subscription, else that
/// of the health task.
pub fn close_outcome(subscription: Result<()>, health_task_error: Option<String>) -> (result: Result<
    (),
>)
    ensures
        checked(
            result,
            close_fault(
                match subscription {
                    Ok(_) => None,
                    Err(e) => Some(e@),
                },
                crate::text::opt_text(health_task_error),
            ),
        ),
{
    subscription?;
    match health_task_error {
        Some(detail) => Err(
            DcpError::Topology(join2("health-check task failed: ", detail.as_str())),
        ),
        None => Ok(()),
    }
}

/// vBuckets that a source of ownership claims in a topology.
pub open spec fn claimed(mode: AssignmentMode, topology: Topology) -> Seq<u16> {
    match mode {
        AssignmentMode::Standalone => Seq::new(topology.routes.len(), |i: int| i as u16),
        AssignmentMode::External(assignment) => listed(assignment.owned()),
    }
}

/// Fence of a source of ownership; zero stands for standalone ownership.
pub open spec fn fence_of(mode: AssignmentMode) -> u64 {
    match mode {
        AssignmentMode::Standalone => 0,
        AssignmentMode::External(assignment) => assignment.fence(),
    }
}

/// Why an assignment is refused, if it is.
pub open spec fn assignment_fault(ids: Seq<u16>, topology: Topology) -> Option<DcpFault> {
    if ids.len() == 0 {
        Some(nothing_owned())
    } else {
        match first_absent(topology, ids) {
            Some(i) => Some(absent_vbucket(ids[i])),
            None => None,
        }
    }
}

/// Resolves the owned vBuckets, in increasing order, and their fence.
pub fn resolve_assignment(mode: &AssignmentMode, topology: &ClusterTopology) -> (result: Result<
    (Vec<u16>, u64),
>)
    ensures
        match result {
            Ok(pair) => {
                &&& pair.0@ == claimed(*mode, topology@)
                &&& pair.1 == fence_of(*mode)
                &&& assignment_fault(pair.0@, topology@) is None
            },
            Err(e) => assignment_fault(claimed(*mode, topology@), topology@) == Some(e@),
        },
{
    let ghost ids = claimed(*mode, topology@);
    let (vbuckets, generation) = match mode {
        AssignmentMode::Standalone => {
            let count: usize = topology.num_vbuckets();
            let mut vbuckets: Vec<u16> = Vec::new();
            let mut v: usize = 0;
            while v < count
                invariant
                    v <= count <= 0x1_0000,
                    vbuckets@.len() == v,
                    forall|j: int| 0 <= j < v ==> #[trigger] vbuckets@[j] == j as u16,
                decreases count - v,
            {
                vbuckets.push(v as u16);
                v = v + 1;
            }
            assert(vbuckets@ =~= ids);
            (vbuckets, 0u64)
        },
        AssignmentMode::External(assignment) => {
            let vbuckets = assignment.vbuckets();
            proof {
                ascending_is_listed(vbuckets@, assignment.owned());
            }
            (vbuckets, assignment.generation())
        },
    };
    if vbuckets.len() == 0 {
        return Err(nothing_owned_error());
    }
    let mut i: usize = 0;
    while i < vbuckets.len()
        invariant
            i <= vbuckets@.len(),
            vbuckets@ == ids,
            ids == claimed(*mode, topology@),
            vbuckets@.len() > 0,
            forall|j: int| 0 <= j < i ==> topology@.active_at(#[trigger] vbuckets@[j]) is Some,
        decreases vbuckets@.len() - i,
    {
        if let Err(e) = topology.active_node(vbuckets[i]) {
            proof {
                crate::lists::first_where_is(
                    ids,
                    |v: u16| topology@.active_at(v) is None,
                    i as int,
                );
            }
            return Err(e);
        }
        i = i + 1;
    }
    proof {
        first_where_is_none(ids, |v: u16| topology@.active_at(v) is None);
    }
    Ok((vbuckets, generation))
}

/// Content of a start position.
pub enum StartModel {
    Earliest,
    Latest,
    Checkpoint(Position),
}

/// Content of a start position.
pub open spec fn start_of(start: StartPosition) -> StartModel {
    match start {
        StartPosition::Earliest => StartModel::Earliest,
        StartPosition::Latest => StartModel::Latest,
        StartPosition::Checkpoint(checkpoint) => StartModel::Checkpoint(checkpoint@),
    }
}

/// Start of a vBucket: its loaded checkpoint, else the configured fallback. A
/// fallback checkpoint serves only its own vBucket.
pub open spec fn initial_start(
    v: u16,
    loaded: Map<u16, Position>,
    fallback: StartModel,
) -> Outcome<StartModel> {
    if loaded.contains_key(v) {
        Ok(StartModel::Checkpoint(loaded[v]))
    } else {
        match fallback {
            StartModel::Checkpoint(p) => if p.vbucket == v {
                Ok(fallback)
            } else {
                Err(
                    DcpFault::InvalidConfiguration(
                        "fallback checkpoint for vBucket "@ + dec(p.vbucket as nat)
                            + " cannot initialize missing vBucket "@ + dec(v as nat),
                    ),
                )
            },
            _ => Ok(fallback),
        }
    }
}

/// Why the start of the vBucket at a position cannot be found, if it cannot.
pub open spec fn initial_start_fault(
    vbuckets: Seq<u16>,
    loaded: Map<u16, Position>,
    fallback: StartModel,
    i: int,
) -> Option<DcpFault> {
    match initial_start(vbuckets[i], loaded, fallback) {
        Ok(_) => None,
        Err(fault) => Some(fault),
    }
}

fn start_for(
    v: u16,
    loaded: &BTreeMap<u16, DcpCheckpoint>,
    fallback: &StartPosition,
) -> (result: Result<StartPosition>)
    ensures
        match (result, initial_start(v, positions_of(loaded@), start_of(*fallback))) {
            (Ok(start), Ok(model)) => start_of(start) == model,
            (Err(e), Err(fault)) => e@ == fault,
            _ => false,
        },
{
    if let Some(checkpoint) = loaded.get(&v) {
        return Ok(StartPosition::Checkpoint(checkpoint.clone()));
    }
    match fallback {
        StartPosition::Earliest => Ok(StartPosition::Earliest),
        StartPosition::Latest => Ok(StartPosition::Latest),
        StartPosition::Checkpoint(checkpoint) => {
            if checkpoint.vbucket == v {
                return Ok(StartPosition::Checkpoint(checkpoint.clone()));
            }
            Err(
                DcpError::InvalidConfiguration(
                    join4(
                        "fallback checkpoint for vBucket ",
                        dec_text(checkpoint.vbucket as u64).as_str(),
                        " cannot initialize missing vBucket ",
                        dec_text(v as u64).as_str(),
                    ),
                ),
            )
        },
    }
}

/// Finds the start of every owned vBucket.
pub fn resolve_initial_starts(
    vbuckets: &[u16],
    loaded: &BTreeMap<u16, DcpCheckpoint>,
    fallback: &StartPosition,
) -> (result: Result<BTreeMap<u16, StartPosition>>)
    ensures
        ({
            let positions = positions_of(loaded@);
            let fault = first_fault(
                vbuckets@.len(),
                |i: int| initial_start_fault(vbuckets@, positions, start_of(*fallback), i),
            );
            match result {
                Ok(starts) => {
                    &&& fault is None
                    &&& forall|v: u16| #[trigger]
                        starts@.contains_key(v) <==> vbuckets@.contains(v)
                    &&& forall|v: u16| #[trigger]
                        starts@.contains_key(v) ==> initial_start(
                            v,
                            positions,
                            start_of(*fallback),
                        ) == Outcome::<StartModel>::Ok(start_of(starts@[v]))
                },
                Err(e) => fault == Some(e@),
            }
        }),
{
    let ghost positions = positions_of(loaded@);
    let ghost back = start_of(*fallback);
    let ghost fault = |i: int| initial_start_fault(vbuckets@, positions, back, i);
    let mut starts: BTreeMap<u16, StartPosition> = BTreeMap::new();
    let mut i: usize = 0;
    while i < vbuckets.len()
        invariant
            i <= vbuckets@.len(),
            positions == positions_of(loaded@),
            back == start_of(*fallback),
            fault == (|i: int| initial_start_fault(vbuckets@, positions, back, i)),
            forall|j: int| 0 <= j < i ==> #[trigger] fault(j) is None,
            forall|v: u16| #[trigger]
                starts@.contains_key(v) <==> vbuckets@.take(i as int).contains(v),
            forall|v: u16| #[trigger]
                starts@.contains_key(v) ==> initial_start(v, positions, back) == Outcome::<
                    StartModel,
                >::Ok(start_of(starts@[v])),
        decreases vbuckets@.len() - i,
    {
        let v: u16 = vbuckets[i];
        let ghost done = vbuckets@.take(i as int);
        let ghost next = vbuckets@.take(i + 1);
        match start_for(v, loaded, fallback) {
            Err(e) => {
                proof {
                    assert(fault(i as int) == Some(e@));
                    first_fault_absent(i as nat, fault);
                    first_fault_found(i as nat, vbuckets@.len(), fault);
                }
                return Err(e);
            },
            Ok(start) => {
                assert(fault(i as int) is None);
                let ghost prior = starts@;
                starts.insert(v, start);
                proof {
                    assert(next =~= done.push(v));
                    assert forall|w: u16| #[trigger] starts@.contains_key(w) <==> next.contains(
                        w,
                    ) by {
                        if done.contains(w) {
                            let k = choose|k: int| 0 <= k < done.len() && done[k] == w;
                            assert(next[k] == w);
                        }
                        if w == v {
                            assert(next[i as int] == w);
                        }
                        if w != v {
                            assert(starts@.contains_key(w) <==> prior.contains_key(w));
                        }
                    }
                    assert forall|w: u16| #[trigger] starts@.contains_key(w) implies initial_start(
                        w,
                        positions,
                        back,
                    ) == Outcome::<StartModel>::Ok(start_of(starts@[w])) by {
                        if w != v {
                            assert(prior.contains_key(w));
                        }
                    }
                }
            },
        }
        i = i + 1;
    }
    proof {
        first_fault_absent(vbuckets@.len(), fault);
        assert(vbuckets@.take(vbuckets@.len() as int) =~= vbuckets@);
    }
    Ok(starts)
}

/// vBuckets whose effective start is not what the store holds.
pub open spec fn changed_starts(loaded: Map<u16, Position>, effective: Map<u16, Position>) -> Set<
    u16,
> {
    Set::new(
        |v: u16|
            effective.contains_key(v) && !(loaded.contains_key(v) && loaded[v] == effective[v]),
    )
}

/// Why a vBucket cannot be marked for persistence, if it cannot.
pub open spec fn mark_fault(partitions: Map<u16, PartitionModel>, v: u16) -> Option<DcpFault> {
    if !partitions.contains_key(v) {
        Some(untracked(v))
    } else if partitions[v].generation == u64::MAX {
        Some(generation_overflow(v))
    } else {
        None
    }
}

/// Partitions with some of them marked for persistence.
pub open spec fn marked_for_save(partitions: Map<u16, PartitionModel>, set: Set<u16>) -> Map<
    u16,
    PartitionModel,
> {
    Map::new(
        |v: u16| partitions.contains_key(v),
        |v: u16|
            if set.contains(v) {
                PartitionModel { generation: (partitions[v].generation + 1) as u64, ..partitions[v] }
            } else {
                partitions[v]
            },
    )
}

/// Marks every vBucket whose effective start is not what the store holds, so
/// that the start is persisted before a restart can skip later changes. A
/// failure leaves the vBuckets before it marked.
pub fn mark_changed_initial_positions(
    coordinator: &mut CheckpointCoordinator,
    loaded: &BTreeMap<u16, DcpCheckpoint>,
    effective: &BTreeMap<u16, DcpCheckpoint>,
) -> (result: Result<()>)
    ensures
        ({
            let m = old(coordinator)@;
            let changed = changed_starts(positions_of(loaded@), positions_of(effective@));
            let fault = |v: u16| mark_fault(m.partitions, v);
            &&& checked(result, keyed_fault(changed, fault))
            &&& result is Ok ==> final(coordinator)@ == (CoordinatorModel {
                partitions: marked_for_save(m.partitions, changed),
                ..m
            })
            &&& result is Err ==> exists|at: u16| #[trigger]
                least_faulty(changed, fault, at) && final(coordinator)@ == (CoordinatorModel {
                    partitions: marked_for_save(
                        m.partitions,
                        Set::new(|v: u16| changed.contains(v) && v < at),
                    ),
                    ..m
                })
        }),
        old(coordinator)@.sound() ==> final(coordinator)@.sound(),
{
    let ghost m = coordinator@;
    let ghost changed = changed_starts(positions_of(loaded@), positions_of(effective@));
    let ghost fault = |v: u16| mark_fault(m.partitions, v);
    let keys = sorted_keys(effective);
    let mut i: usize = 0;
    proof {
        assert(coordinator@.partitions =~= marked_for_save(m.partitions, Set::empty()));
    }
    let ghost mut seen: Set<u16> = Set::empty();
    while i < keys.len()
        invariant
            i <= keys@.len(),
            ascending(keys@),
            changed == changed_starts(positions_of(loaded@), positions_of(effective@)),
            fault == (|v: u16| mark_fault(m.partitions, v)),
            forall|v: u16| keys@.contains(v) <==> #[trigger] effective@.contains_key(v),
            forall|v: u16| #[trigger]
                seen.contains(v) <==> (changed.contains(v) && keys@.take(i as int).contains(v)),
            forall|v: u16| #[trigger] seen.contains(v) ==> fault(v) is None,
            coordinator@ == (CoordinatorModel {
                partitions: marked_for_save(m.partitions, seen),
                ..m
            }),
            m.sound() ==> coordinator@.sound(),
            m == old(coordinator)@,
        decreases keys@.len() - i,
    {
        let v: u16 = keys[i];
        let ghost done = keys@.take(i as int);
        let ghost next = keys@.take(i + 1);
        proof {
            assert(keys@.contains(v));
            assert(effective@.contains_key(v));
            assert(positions_of(effective@)[v] == effective@[v]@);
            assert(next =~= done.push(v));
            assert forall|w: u16| next.contains(w) <==> (#[trigger] done.contains(w) || w == v) by {
                if done.contains(w) {
                    let k = choose|k: int| 0 <= k < done.len() && done[k] == w;
                    assert(next[k] == w);
                }
                if w == v {
                    assert(next[i as int] == w);
                }
            }
            assert(!done.contains(v)) by {
                if done.contains(v) {
                    let k = choose|k: int| 0 <= k < done.len() && done[k] == v;
                    assert(keys@[k] < keys@[i as int]);
                }
            }
        }
        if let Some(checkpoint) = effective.get(&v) {
            let should_persist: bool = match loaded.get(&v) {
                Some(previous) => !previous.same(checkpoint),
                None => true,
            };
            assert(should_persist == changed.contains(v));
            if should_persist {
                let ghost prior = coordinator@;
                if let Err(e) = coordinator.mark_dirty(v) {
                    proof {
                        assert(fault(v) == Some(e@));
                        assert forall|w: u16| #[trigger] changed.contains(w) && w < v implies fault(
                            w,
                        ) is None by {
                            assert(effective@.contains_key(w));
                            assert(keys@.contains(w));
                            let k = choose|k: int| 0 <= k < keys@.len() && keys@[k] == w;
                            if k > i {
                                assert(keys@[i as int] < keys@[k]);
                            }
                            assert(done[k] == w);
                            assert(seen.contains(w));
                        }
                        assert(least_faulty(changed, fault, v));
                        crate::maps::keyed_fault_is(changed, fault, v);
                        let before = Set::new(|w: u16| changed.contains(w) && w < v);
                        assert forall|w: u16| seen.contains(w) == #[trigger] before.contains(
                            w,
                        ) by {
                            if changed.contains(w) && w < v {
                                assert(effective@.contains_key(w));
                                assert(keys@.contains(w));
                                let k = choose|k: int| 0 <= k < keys@.len() && keys@[k] == w;
                                if k > i {
                                    assert(keys@[i as int] < keys@[k]);
                                }
                                assert(done[k] == w);
                            }
                            if seen.contains(w) {
                                let k = choose|k: int| 0 <= k < done.len() && done[k] == w;
                                assert(keys@[k] < keys@[i as int]);
                            }
                        }
                        assert(seen =~= before);
                    }
                    return Err(e);
                }
                proof {
                    assert(fault(v) is None);
                    let grown = seen.insert(v);
                    assert(coordinator@.partitions =~= marked_for_save(m.partitions, grown));
                    seen = grown;
                }
            }
        }
        proof {
            assert forall|w: u16| #[trigger] seen.contains(w) <==> (changed.contains(w)
                && next.contains(w)) by {
                assert(next.contains(w) <==> (done.contains(w) || w == v));
            }
        }
        i = i + 1;
    }
    proof {
        assert(keys@.take(keys@.len() as int) =~= keys@);
        assert forall|v: u16| seen.contains(v) == #[trigger] changed.contains(v) by {
            if changed.contains(v) {
                assert(effective@.contains_key(v));
                assert(keys@.contains(v));
            }
        }
        assert(seen =~= changed);
        crate::maps::keyed_fault_is_none(changed, fault);
    }
    Ok(())
}

/// Accepted topology with its local generation.
pub struct TopologySnapshot {
    /// Local generation.
    pub generation: u64,
    /// Accepted topology.
    pub topology: ClusterTopology,
}

impl Clone for TopologySnapshot {
    fn clone(&self) -> (result: Self)
        ensures
            result.generation == self.generation,
            result.topology@ == self.topology@,
    {
        TopologySnapshot { generation: self.generation, topology: self.topology.clone() }
    }
}

/// Applies a candidate topology. Only a newer one of the same bucket is
/// accepted; then there is a snapshot to publish.
pub fn apply_topology_candidate(
    state: &mut TopologyState,
    metrics: &mut DcpMetrics,
    candidate: ClusterTopology,
) -> (result: Result<Option<TopologySnapshot>>)
    ensures
        match result {
            Err(e) => {
                &&& *final(state) == *old(state)
                &&& *final(metrics) == *old(metrics)
                &&& match identity_fault(old(state).current(), candidate@) {
                    Some(fault) => e@ == fault,
                    None => {
                        &&& candidate@.revision.newer_than(old(state).current().revision)
                        &&& old(state).fence() == u64::MAX
                        &&& e@ == DcpFault::Topology("topology generation overflow"@)
                    },
                }
            },
            Ok(None) => {
                &&& *final(state) == *old(state)
                &&& *final(metrics) == *old(metrics)
                &&& identity_fault(old(state).current(), candidate@) is None
                &&& !candidate@.revision.newer_than(old(state).current().revision)
            },
            Ok(Some(snapshot)) => {
                &&& identity_fault(old(state).current(), candidate@) is None
                &&& candidate@.revision.newer_than(old(state).current().revision)
                &&& final(state).current() == candidate@
                &&& final(state).fence() == old(state).fence() + 1
                &&& snapshot.generation == final(state).fence()
                &&& snapshot.topology@ == candidate@
                &&& final(metrics).values() == (DcpMetricsSnapshot {
                    topology_updates: counted(old(metrics).values().topology_updates),
                    ..old(metrics).values()
                })
            },
        },
{
    match state.apply(candidate)? {
        None => Ok(None),
        Some(change) => {
            let snapshot = TopologySnapshot {
                generation: change.generation(),
                topology: state.topology().clone(),
            };
            metrics.record_topology_update();
            Ok(Some(snapshot))
        },
    }
}

/// The newer of two snapshots; the first where they are equally new.
pub fn newer_snapshot(snapshot: TopologySnapshot, observed: &TopologySnapshot) -> (result:
    TopologySnapshot)
    ensures
        if observed.generation > snapshot.generation {
            result.generation == observed.generation && result.topology@ == observed.topology@
        } else {
            result == snapshot
        },
{
    if observed.generation > snapshot.generation {
        observed.clone()
    } else {
        snapshot
    }
}

/// Health after a failure.
pub open spec fn degraded(h: HealthModel, now: Interval, message: Seq<char>) -> HealthModel {
    HealthModel {
        status: DcpHealthStatus::Degraded,
        last_check: Some(now),
        consecutive_failures: if h.consecutive_failures == u64::MAX {
            u64::MAX
        } else {
            (h.consecutive_failures + 1) as u64
        },
        message: Some(message),
        ..h
    }
}

/// Health after a success.
pub open spec fn healthy(now: Interval, connections: u64, generation: u64) -> HealthModel {
    HealthModel {
        status: DcpHealthStatus::Healthy,
        last_check: Some(now),
        consecutive_failures: 0,
        active_connections: connections,
        topology_generation: generation,
        message: None,
    }
}

/// Records the outcome of the first discovery; `Ok` starts topology state at
/// generation one.
pub fn record_connect(
    discovered: Result<ClusterTopology>,
    metrics: &mut DcpMetrics,
    health: &mut DcpHealth,
    now: Interval,
) -> (result: Result<TopologyState>)
    ensures
        ({
            let c = DcpMetricsSnapshot {
                bootstrap_attempts: counted(old(metrics).values().bootstrap_attempts),
                ..old(metrics).values()
            };
            match discovered {
                Ok(topology) => {
                    &&& result is Ok
                    &&& result->Ok_0.fence() == 1
                    &&& result->Ok_0.current() == topology@
                    &&& final(metrics).values() == (DcpMetricsSnapshot {
                        bootstrap_successes: counted(c.bootstrap_successes),
                        ..c
                    })
                    &&& final(health).values() == healthy(now, 0, 1)
                },
                Err(e) => {
                    &&& result is Err
                    &&& result->Err_0 == e
                    &&& final(metrics).values() == (DcpMetricsSnapshot {
                        bootstrap_failures: counted(c.bootstrap_failures),
                        ..c
                    })
                    &&& final(health).values() == degraded(old(health).values(), now, e@.text())
                },
            }
        }),
{
    metrics.record_bootstrap_attempt();
    match discovered {
        Ok(topology) => {
            metrics.record_bootstrap_success();
            health.record_success(now, 0, 1);
            Ok(TopologyState::new(topology))
        },
        Err(e) => {
            metrics.record_bootstrap_failure();
            health.record_failure(now, e.to_text());
            Err(e)
        },
    }
}

/// Records the outcome of one health probe; `generation` is the current
/// topology generation.
pub fn record_probe(
    outcome: &Result<()>,
    metrics: &mut DcpMetrics,
    health: &mut DcpHealth,
    checked_at: Interval,
    generation: u64,
)
    ensures
        ({
            let c = DcpMetricsSnapshot {
                health_checks: counted(old(metrics).values().health_checks),
                ..old(metrics).values()
            };
            match *outcome {
                Ok(_) => {
                    &&& final(metrics).values() == c
                    &&& final(health).values() == healthy(
                        checked_at,
                        c.active_connections,
                        generation,
                    )
                },
                Err(e) => {
                    &&& final(metrics).values() == (DcpMetricsSnapshot {
                        health_failures: counted(c.health_failures),
                        bootstrap_failures: counted(c.bootstrap_failures),
                        ..c
                    })
                    &&& final(health).values() == degraded(
                        old(health).values(),
                        checked_at,
                        e@.text(),
                    )
                },
            }
        }),
{
    metrics.record_health_check();
    match outcome {
        Ok(_) => {
            let connections: u64 = metrics.snapshot().active_connections;
            health.record_success(checked_at, connections, generation);
        },
        Err(e) => {
            metrics.record_health_failure();
            metrics.record_bootstrap_failure();
            health.record_failure(checked_at, e.to_text());
        },
    }
}

/// Records a failed stream or node shutdown.
pub fn record_runtime_failure(
    error: &DcpError,
    metrics: &mut DcpMetrics,
    health: &mut DcpHealth,
    now: Interval,
)
    ensures
        final(metrics).values() == with_stream_error(old(metrics).values()),
        final(health).values() == degraded(old(health).values(), now, error@.text()),
{
    metrics.record_stream_error();
    health.record_failure(now, error.to_text());
}

/// Counters after a stream error.
pub open spec fn with_stream_error(c: DcpMetricsSnapshot) -> DcpMetricsSnapshot {
    DcpMetricsSnapshot { stream_errors: counted(c.stream_errors), ..c }
}

/// The failure may be gone on another attempt.
pub open spec fn retryable(fault: DcpFault) -> bool {
    fault is Io || fault is Timeout || fault is DeadConnection || fault is Topology
        || fault is Stream || fault is Cancelled
}

/// Tells failures that may be gone on another attempt.
pub fn is_retryable(error: &DcpError) -> (result: bool)
    ensures
        result == retryable(error@),
{
    match error {
        DcpError::Io(_) | DcpError::Timeout(_) | DcpError::DeadConnection { .. }
        | DcpError::Topology(_) | DcpError::Stream { .. } | DcpError::Cancelled => true,
        _ => false,
    }
}

/// A required rollback, a failed mitigation, a refused checkpoint and a
/// rejected login are never retried silently.
pub proof fn safety_failures_are_terminal(fault: DcpFault)
    requires
        fault is RollbackRequired || fault is RollbackMitigation || fault is Checkpoint
            || fault is CheckpointStore || fault is Authentication || fault is StaleGeneration
            || fault is InvalidConfiguration || fault is Unsupported || fault is Collection,
    ensures
        !retryable(fault),
{
}

/// Delay before the first retry of a reopen.
pub fn initial_reconnect_backoff() -> (result: Interval)
    ensures
        result.total_nanos() == backoff(0),
{
    Interval::from_millis(100)
}

/// Delay before a retry, in nanoseconds: it starts at 100 ms and doubles up to
/// 5 s.
pub open spec fn backoff(attempt: nat) -> nat
    decreases attempt,
{
    if attempt == 0 {
        100_000_000
    } else {
        let longer = 2 * backoff((attempt - 1) as nat);
        if longer <= 5_000_000_000 {
            longer
        } else {
            5_000_000_000
        }
    }
}

/// Delay before the next retry.
pub fn next_reconnect_backoff(current: &Interval) -> (result: Interval)
    ensures
        result.total_nanos() == if 2 * current.total_nanos() <= 5_000_000_000 {
            2 * current.total_nanos()
        } else {
            5_000_000_000
        },
        forall|attempt: nat|
            current.total_nanos() == #[trigger] backoff(attempt) ==> result.total_nanos()
                == backoff(attempt + 1),
{
    let cap = Interval::from_secs(5);
    current.doubled_up_to(&cap)
}

/// A retry is never delayed by more than 5 s, and never by less than the one
/// before it.
pub proof fn backoff_is_bounded(attempt: nat)
    ensures
        100_000_000 <= backoff(attempt) <= 5_000_000_000,
        backoff(attempt) <= backoff(attempt + 1),
    decreases attempt,
{
    if attempt > 0 {
        backoff_is_bounded((attempt - 1) as nat);
    }
}

/// Next connection generation.
pub fn next_connection_generation(current: u64) -> (result: Result<u64>)
    ensures
        match result {
            Ok(next) => next == current + 1,
            Err(e) => current == u64::MAX && e@ == (DcpFault::Stream {
                vbucket: 0,
                message: "connection generation overflow"@,
            }),
        },
{
    match current.checked_add(1) {
        Some(next) => Ok(next),
        None => Err(
            DcpError::Stream { vbucket: 0, message: "connection generation overflow".to_owned() },
        ),
    }
}

/// What the shutdown of a generation reports: the failure of its streams, else
/// that of its mitigation.
pub fn combine_generation_shutdown(streams: Result<()>, mitigation: Result<()>) -> (result: Result<
    (),
>)
    ensures
        result == if streams is Err {
            streams
        } else {
            mitigation
        },
{
    match streams {
        Err(e) => Err(e),
        Ok(()) => mitigation,
    }
}

/// Keeps the first failure of a sequence of shutdowns.
pub fn keep_first_failure(first: Option<DcpError>, next: Result<()>) -> (result: Option<DcpError>)
    ensures
        match first {
            Some(e) => result == Some(e),
            None => match next {
                Err(e) => result == Some(e),
                Ok(_) => result is None,
            },
        },
{
    match first {
        Some(e) => Some(e),
        None => match next {
            Err(e) => Some(e),
            Ok(()) => None,
        },
    }
}

/// The document was written before the listener's cutoff. A CAS counts
/// nanoseconds since the Unix epoch; its second decides.
pub open spec fn before_cutoff(skip_until: Option<Interval>, event: DcpEvent) -> bool {
    skip_until matches Some(cutoff) && event.document_cas() matches Some(cas)
        && cutoff.total_nanos() > (cas as nat / 1_000_000_000) * 1_000_000_000
}

/// A cutoff at a whole second hides exactly the documents of earlier seconds;
/// one at the cutoff second is delivered, and what is no document is always
/// delivered.
pub proof fn cutoff_hides_earlier_seconds(cutoff: Interval, second: nat, event: DcpEvent)
    requires
        cutoff.total_nanos() == second * 1_000_000_000,
    ensures
        before_cutoff(Some(cutoff), event) <==> (event.document_cas() matches Some(cas) && cas
            as nat / 1_000_000_000 < second),
        !before_cutoff(None, event),
{
}

/// Tells documents that were written before the listener's cutoff.
pub fn document_is_before_listener_cutoff(skip_until: &Option<Interval>, event: &DcpEvent) -> (result:
    bool)
    ensures
        result == before_cutoff(*skip_until, *event),
{
    match (skip_until, event.cas()) {
        (Some(cutoff), Some(cas)) => {
            let event_time = Interval::from_secs(cas / 1_000_000_000);
            cutoff.exceeds(&event_time)
        },
        _ => false,
    }
}

/// One typed DCP event with explicit application-processing ownership.
#[derive(Debug)]
pub struct DcpDelivery {
    inner: TrackedEvent,
    connection_generation: u64,
    assignment_generation: u64,
}

impl DcpDelivery {
    /// The delivered event.
    pub closed spec fn content(&self) -> DcpEvent {
        self.inner.content()
    }

    /// The acknowledgement token, if the event has one.
    pub closed spec fn token(&self) -> Option<EventAck> {
        self.inner.token()
    }

    /// Connection generation.
    pub closed spec fn connection(&self) -> u64 {
        self.connection_generation
    }

    /// Assignment fence.
    pub closed spec fn fence(&self) -> u64 {
        self.assignment_generation
    }

    /// Delivered event.
    #[must_use]
    pub fn event(&self) -> (result: &DcpEvent)
        ensures
            *result == self.content(),
    {
        self.inner.event()
    }

    /// Local connection generation that produced this delivery.
    #[must_use]
    pub fn connection_generation(&self) -> (result: u64)
        ensures
            result == self.connection(),
    {
        self.connection_generation
    }

    /// External assignment fence, or zero for standalone ownership.
    #[must_use]
    pub fn assignment_generation(&self) -> (result: u64)
        ensures
            result == self.fence(),
    {
        self.assignment_generation
    }

    /// Marks this delivery processed without sending network credit or forcing
    /// durable checkpoint I/O.
    pub fn mark_processed(self, coordinator: &mut CheckpointCoordinator, metrics: &mut DcpMetrics) -> (result:
        Result<Option<AckOutcome>>)
        ensures
            match self.token() {
                None => {
                    &&& *final(coordinator) == *old(coordinator)
                    &&& (result matches Ok(None))
                },
                Some(ack) => {
                    &&& final(coordinator)@ == ack_applied(old(coordinator)@, ack)
                    &&& match ack_outcome_fault(old(coordinator)@, ack) {
                        Some(fault) => result is Err && result->Err_0@ == fault,
                        None => result matches Ok(Some(outcome)) && ack_outcome(
                            old(coordinator)@,
                            ack,
                            outcome,
                        ),
                    }
                },
            },
            final(metrics).values() == if result is Ok {
                DcpMetricsSnapshot {
                    processed_events: counted(old(metrics).values().processed_events),
                    ..old(metrics).values()
                }
            } else {
                old(metrics).values()
            },
            old(coordinator)@.sound() ==> final(coordinator)@.sound(),
    {
        let outcome = self.inner.acknowledge(coordinator)?;
        metrics.record_processed();
        Ok(outcome)
    }
}

/// Yields a delivery of the current connection generation to the application
/// and drops one of an older generation.
pub fn accept_delivery(delivery: DcpDelivery, current_generation: u64, metrics: &mut DcpMetrics) -> (result:
    Option<DcpDelivery>)
    ensures
        if delivery.connection() == current_generation {
            &&& result == Some(delivery)
            &&& final(metrics).values() == delivered(old(metrics).values(), delivery.content())
        } else {
            &&& result is None
            &&& final(metrics).values() == (DcpMetricsSnapshot {
                stale_generation_drops: counted(old(metrics).values().stale_generation_drops),
                ..old(metrics).values()
            })
        },
{
    if delivery.connection_generation != current_generation {
        metrics.record_stale_generation_drop();
        return None;
    }
    metrics.record_delivery(delivery.event());
    Some(delivery)
}

/// What to do with a connection generation.
pub enum GenerationAction {
    /// Stop on request.
    Stop,
    /// Every stream reached its end.
    Complete,
    /// Reopen on a newer topology.
    Reopen(TopologySnapshot),
    /// Reopen on the current topology.
    Reconnect,
    /// Stop with an error.
    Fatal(DcpError),
}

/// Content of an action.
pub enum ActionModel {
    Stop,
    Complete,
    Reopen(u64, Topology),
    Reconnect,
    Fatal(DcpFault),
}

impl View for GenerationAction {
    type V = ActionModel;

    open spec fn view(&self) -> ActionModel {
        match *self {
            GenerationAction::Stop => ActionModel::Stop,
            GenerationAction::Complete => ActionModel::Complete,
            GenerationAction::Reopen(s) => ActionModel::Reopen(s.generation, s.topology@),
            GenerationAction::Reconnect => ActionModel::Reconnect,
            GenerationAction::Fatal(e) => ActionModel::Fatal(e@),
        }
    }
}

/// Content of an optional action.
pub open spec fn opt_action(action: Option<GenerationAction>) -> Option<ActionModel> {
    match action {
        Some(a) => Some(a@),
        None => None,
    }
}

/// What follows the end of a connection generation.
pub enum GenerationEnd {
    /// The subscription ends, with an error if there is one.
    Finish(Option<DcpError>),
    /// A new generation is opened, on the given topology or the current one.
    Reopen(Option<TopologySnapshot>),
}

/// Decides what follows a generation once its streams are shut down.
pub fn after_generation(
    action: GenerationAction,
    shutdown: Result<()>,
    metrics: &mut DcpMetrics,
    health: &mut DcpHealth,
    now: Interval,
) -> (result: GenerationEnd)
    ensures
        ({
            let idle = DcpMetricsSnapshot { active_connections: 0, ..old(metrics).values() };
            match action {
                GenerationAction::Fatal(e) => {
                    &&& result == GenerationEnd::Finish(Some(e))
                    &&& final(metrics).values() == with_stream_error(idle)
                    &&& final(health).values() == degraded(old(health).values(), now, e@.text())
                },
                _ => {
                    &&& match shutdown {
                        Ok(_) => {
                            &&& final(metrics).values() == idle
                            &&& *final(health) == *old(health)
                        },
                        Err(e) => {
                            &&& final(metrics).values() == with_stream_error(idle)
                            &&& final(health).values() == degraded(
                                old(health).values(),
                                now,
                                e@.text(),
                            )
                        },
                    }
                    &&& match action {
                        GenerationAction::Reconnect => result == GenerationEnd::Reopen(None),
                        GenerationAction::Reopen(s) => result == GenerationEnd::Reopen(Some(s)),
                        _ => result == GenerationEnd::Finish(
                            match shutdown {
                                Ok(_) => None,
                                Err(e) => Some(e),
                            },
                        ),
                    }
                },
            }
        }),
{
    metrics.set_active_connections(0);
    match action {
        GenerationAction::Fatal(e) => {
            record_runtime_failure(&e, metrics, health, now);
            GenerationEnd::Finish(Some(e))
        },
        GenerationAction::Stop | GenerationAction::Complete => match shutdown {
            Ok(()) => GenerationEnd::Finish(None),
            Err(e) => {
                record_runtime_failure(&e, metrics, health, now);
                GenerationEnd::Finish(Some(e))
            },
        },
        GenerationAction::Reconnect => {
            if let Err(e) = &shutdown {
                record_runtime_failure(e, metrics, health, now);
            }
            GenerationEnd::Reopen(None)
        },
        GenerationAction::Reopen(snapshot) => {
            if let Err(e) = &shutdown {
                record_runtime_failure(e, metrics, health, now);
            }
            GenerationEnd::Reopen(Some(snapshot))
        },
    }
}

/// Error that a finished subscription returns for a terminal error: the error
/// itself where the subscription was cancelled, else a rendering of it, since
/// the error goes to the application.
pub fn returned_error(terminal: &DcpError) -> (result: DcpError)
    ensures
        result@ == (DcpFault::Stream { vbucket: 0, message: terminal@.text() }),
{
    DcpError::Stream { vbucket: 0, message: terminal.to_text() }
}

/// Result of a subscription once its final flush ended.
pub fn finish_subscription(
    return_error: Option<DcpError>,
    checkpoint_result: Result<()>,
    health: &mut DcpHealth,
    now: Interval,
    topology_generation: u64,
) -> (result: Result<()>)
    ensures
        match return_error {
            Some(e) => result is Err && result->Err_0 == e,
            None => result == checkpoint_result,
        },
        final(health).values() == match checkpoint_result {
            Err(e) => degraded(old(health).values(), now, e@.text()),
            Ok(_) => if return_error is None {
                healthy(now, 0, topology_generation)
            } else {
                old(health).values()
            },
        },
{
    match &checkpoint_result {
        Err(e) => {
            health.record_failure(now, e.to_text());
        },
        Ok(()) => {
            if return_error.is_none() {
                health.record_success(now, 0, topology_generation);
            }
        },
    }
    match return_error {
        Some(e) => Err(e),
        None => checkpoint_result,
    }
}

/// Outcome of a finished subscription, kept for every later caller.
#[derive(Debug)]
pub enum SubscriptionCompletion {
    /// The subscription succeeded.
    Succeeded,
    /// The subscription failed with the rendered error.
    Failed(String),
}

impl SubscriptionCompletion {
    /// Outcome to keep for a result.
    pub fn of(outcome: &Result<()>) -> (result: Self)
        ensures
            match *outcome {
                Ok(_) => result is Succeeded,
                Err(e) => result is Failed && result->Failed_0@ == e@.text(),
            },
    {
        match outcome {
            Ok(()) => SubscriptionCompletion::Succeeded,
            Err(e) => SubscriptionCompletion::Failed(e.to_text()),
        }
    }

    /// Result for a later caller.
    pub fn into_result(self) -> (result: Result<()>)
        ensures
            match self {
                SubscriptionCompletion::Succeeded => result is Ok,
                SubscriptionCompletion::Failed(message) => result is Err && result->Err_0@ == (
                DcpFault::Stream { vbucket: 0, message: message@ }),
            },
    {
        match self {
            SubscriptionCompletion::Succeeded => Ok(()),
            SubscriptionCompletion::Failed(message) => Err(
                DcpError::Stream { vbucket: 0, message },
            ),
        }
    }
}

/// Running state of a subscription.
pub struct SubscriptionSession {
    /// Stream completion mode.
    pub mode: DcpMode,
    /// Time since the Unix epoch before which documents are not delivered.
    pub skip_until: Option<Interval>,
    /// Topology generation that the streams were opened on.
    pub topology_generation: u64,
    /// External assignment fence, or zero for standalone ownership.
    pub assignment_generation: u64,
    /// Current connection generation.
    pub connection_generation: u64,
    /// Processed and durable progress.
    pub coordinator: CheckpointCoordinator,
    /// Ends captured when the subscription began.
    pub frozen_end_seqnos: BTreeMap<u16, u64>,
    /// Collection names.
    pub registry: CollectionRegistry,
}

/// Progress after the registration of an event, or why it is refused.
pub open spec fn taken_in(m: CoordinatorModel, event: DcpEvent) -> Outcome<CoordinatorModel> {
    let v = event.partition();
    if !m.partitions.contains_key(v) {
        Err(checkpoint_fault("received event for untracked vBucket "@ + dec(v as nat)))
    } else {
        match registered(m.partitions[v], v, event) {
            Err(fault) => Err(fault),
            Ok(next) => Ok(CoordinatorModel { partitions: m.partitions.insert(v, next), ..m }),
        }
    }
}

/// Progress after a document was registered and acknowledged without being
/// delivered.
pub open spec fn skipped(m: CoordinatorModel, event: DcpEvent) -> CoordinatorModel {
    let v = event.partition();
    match taken_in(m, event) {
        Err(_) => m,
        Ok(n) => CoordinatorModel {
            partitions: n.partitions.insert(
                v,
                after_ack(n.partitions[v], m.partitions[v].next_delivery_id),
            ),
            ..n
        },
    }
}

/// Why a document cannot be skipped, if it cannot.
pub open spec fn skip_fault(m: CoordinatorModel, event: DcpEvent) -> Option<DcpFault> {
    let v = event.partition();
    match taken_in(m, event) {
        Err(fault) => Some(fault),
        Ok(n) => ack_fault(n.partitions[v], v, m.partitions[v].next_delivery_id),
    }
}

/// The two sessions differ at most in their progress and names.
pub open spec fn same_setting(a: SubscriptionSession, b: SubscriptionSession) -> bool {
    &&& a.mode == b.mode
    &&& a.skip_until == b.skip_until
    &&& a.topology_generation == b.topology_generation
    &&& a.assignment_generation == b.assignment_generation
    &&& a.connection_generation == b.connection_generation
    &&& a.frozen_end_seqnos == b.frozen_end_seqnos
}

/// The event as the application sees it: with the name of its collection.
pub open spec fn decorated(before: CollectionRegistry, event: DcpEvent, shown: DcpEvent) -> bool {
    match document_collection(event) {
        None => shown == event,
        Some(id) => owed_name(before@.selection, id) matches Ok(name) && same_but_name(shown, event)
            && attached_name(shown) == Some(name),
    }
}

/// Why an event cannot be decorated, if it cannot.
pub open spec fn decoration_fault(before: CollectionRegistry, event: DcpEvent) -> Option<DcpFault> {
    match event {
        DcpEvent::SystemEvent(e) => match applied(before@, e) {
            Ok(_) => None,
            Err(fault) => Some(fault),
        },
        _ => match document_collection(event) {
            None => None,
            Some(id) => match owed_name(before@.selection, id) {
                Ok(_) => None,
                Err(fault) => Some(fault),
            },
        },
    }
}

/// What a session makes of an event.
pub open spec fn judged(
    before: SubscriptionSession,
    after: SubscriptionSession,
    event: DcpEvent,
    result: Result<Option<DcpDelivery>>,
) -> bool {
    let m = before.coordinator@;
    if before_cutoff(before.skip_until, event) {
        &&& after.registry == before.registry
        &&& after.coordinator@ == skipped(m, event)
        &&& match skip_fault(m, event) {
            Some(fault) => result is Err && result->Err_0@ == fault,
            None => result matches Ok(None),
        }
    } else {
        match decoration_fault(before.registry, event) {
            Some(fault) => {
                &&& result is Err && result->Err_0@ == fault
                &&& after.coordinator == before.coordinator
                &&& after.registry == before.registry
            },
            None => {
                &&& match event {
                    DcpEvent::SystemEvent(e) => applied(before.registry@, e) == Outcome::<
                        crate::collections::RegistryModel,
                    >::Ok(after.registry@),
                    _ => after.registry == before.registry,
                }
                &&& match taken_in(m, event) {
                    Err(fault) => {
                        &&& result is Err && result->Err_0@ == fault
                        &&& after.coordinator@ == m
                    },
                    Ok(n) => {
                        &&& after.coordinator@ == n
                        &&& result matches Ok(Some(d)) && {
                            &&& decorated(before.registry, event, d.content())
                            &&& d.connection() == before.connection_generation
                            &&& d.fence() == before.assignment_generation
                            &&& match d.token() {
                                Some(ack) => {
                                    &&& ack.partition() == event.partition()
                                    &&& ack.delivery() == m.partitions[event.partition()].next_delivery_id
                                    &&& event.progress() == Some(ack.position())
                                },
                                None => event.progress() is None,
                            }
                        }
                    },
                }
            },
        }
    }
}

/// A name attached to an event changes nothing about its progress.
pub proof fn decoration_keeps_progress(p: PartitionModel, event: DcpEvent, shown: DcpEvent)
    requires
        same_but_name(shown, event),
    ensures
        shown.partition() == event.partition(),
        shown.progress() == event.progress(),
        registered(p, event.partition(), shown) == registered(p, event.partition(), event),
{
}

/// A skipped document advances progress as an acknowledged one does: it is
/// registered behind what is pending, and processed as soon as that is.
pub proof fn skipped_documents_advance_progress(m: CoordinatorModel, event: DcpEvent)
    requires
        m.sound(),
        event.document_cas() is Some,
        skip_fault(m, event) is None,
    ensures
        skipped(m, event).sound(),
        ({
            let p = m.partitions[event.partition()];
            let q = skipped(m, event).partitions[event.partition()];
            &&& p.pending.len() == 0 ==> q.pending.len() == 0 && Some(q.processed.seqno)
                == event.progress()
            &&& p.pending.len() > 0 ==> q.processed == p.processed && q.pending.len()
                == p.pending.len() + 1
        }),
{
    let v = event.partition();
    let p = m.partitions[v];
    let n = registered(p, v, event)->Ok_0;
    crate::checkpoint_runtime::registration_is_not_progress(p, v, event);
    crate::checkpoint_runtime::newest_delivery_is_found(p, v, event);
    let k = p.pending.len() as int;
    crate::checkpoint_runtime::acknowledgement_is_contiguous(n, k);
    crate::checkpoint_runtime::acknowledging_the_newest(n, k);
    assert(skipped(m, event).partitions[v] == crate::checkpoint_runtime::acknowledged(n, k));
    assert forall|w: u16| #[trigger] skipped(m, event).partitions.contains_key(w) implies m.partitions.contains_key(
        w,
    ) by {}
}

/// What a topology config makes of the topology state: only a newer topology of
/// the same bucket is accepted, and the streams are reopened on it.
pub open spec fn topology_judged(
    parsed: Result<ClusterTopology>,
    before: TopologyState,
    after: TopologyState,
    metrics_before: DcpMetrics,
    metrics_after: DcpMetrics,
    action: Option<ActionModel>,
) -> bool {
    let unchanged = after == before && metrics_after == metrics_before;
    match parsed {
        Err(e) => action == Some(ActionModel::Fatal(e@)) && unchanged,
        Ok(candidate) => if identity_fault(before.current(), candidate@) is Some {
            &&& action == Some(
                ActionModel::Fatal(identity_fault(before.current(), candidate@)->0),
            )
            &&& unchanged
        } else if !candidate@.revision.newer_than(before.current().revision) {
            action is None && unchanged
        } else if before.fence() == u64::MAX {
            &&& action == Some(
                ActionModel::Fatal(DcpFault::Topology("topology generation overflow"@)),
            )
            &&& unchanged
        } else {
            &&& after.fence() == before.fence() + 1
            &&& after.current() == candidate@
            &&& action == Some(ActionModel::Reopen(after.fence(), candidate@))
            &&& metrics_after.values() == (DcpMetricsSnapshot {
                topology_updates: counted(metrics_before.values().topology_updates),
                ..metrics_before.values()
            })
        },
    }
}

/// Something that a stream of the current generation produced.
pub enum StreamInput {
    /// An event that may be delivered.
    Event(DcpEvent),
    /// A frame of an unknown kind.
    Unknown,
    /// A pushed topology config.
    Topology(Result<ClusterTopology>),
    /// The stream failed.
    Failure(DcpError),
}

/// What to do after a stream produced something.
pub enum SessionStep {
    /// Wait for more.
    Continue,
    /// Hand a delivery to the application.
    Deliver(DcpDelivery),
    /// End the generation.
    Act(GenerationAction),
}

/// Starts a partition after the first open: a start that the store does not
/// hold is marked for persistence.
pub open spec fn begun(position: Position, changed: bool) -> PartitionModel {
    PartitionModel {
        generation: if changed {
            1
        } else {
            0
        },
        ..started(position)
    }
}

/// A start that the store does not hold is dirty until it is saved, even at
/// sequence number zero; one that it holds is not.
pub proof fn unsaved_starts_are_dirty(position: Position, changed: bool)
    ensures
        begun(position, changed).dirty() == changed,
{
}

/// Why a subscription cannot start on what was opened, if it cannot.
pub open spec fn session_fault(
    config: CheckpointConfig,
    requested: Set<u16>,
    effective: Map<u16, Position>,
    ends: Map<u16, u64>,
    streams: nat,
) -> Option<DcpFault> {
    let fault = opened_fault(requested, effective, ends, None, streams);
    if fault is Some {
        fault
    } else if config.fault() is Some {
        config.fault()
    } else {
        initial_faults(effective)
    }
}

/// Retries of a reopen.
pub struct ReopenLoop {
    /// Topology to open on.
    pub snapshot: TopologySnapshot,
    /// Delay before the next retry.
    pub backoff: Interval,
}

/// What to do after a failed attempt to reopen.
pub enum ReopenStep {
    /// Try again after a delay.
    Retry(Interval),
    /// Give up.
    Fatal(DcpError),
}

impl ReopenLoop {
    /// Begins on the newer of two topologies.
    pub fn begin(snapshot: TopologySnapshot, observed: &TopologySnapshot) -> (result: Self)
        ensures
            result.backoff.total_nanos() == backoff(0),
            if observed.generation > snapshot.generation {
                &&& result.snapshot.generation == observed.generation
                &&& result.snapshot.topology@ == observed.topology@
            } else {
                result.snapshot == snapshot
            },
    {
        ReopenLoop {
            snapshot: newer_snapshot(snapshot, observed),
            backoff: initial_reconnect_backoff(),
        }
    }

    /// Takes up a newer topology.
    pub fn topology_changed(&mut self, candidate: &TopologySnapshot)
        ensures
            final(self).backoff == old(self).backoff,
            if candidate.generation > old(self).snapshot.generation {
                &&& final(self).snapshot.generation == candidate.generation
                &&& final(self).snapshot.topology@ == candidate.topology@
            } else {
                final(self).snapshot == old(self).snapshot
            },
    {
        if candidate.generation > self.snapshot.generation {
            self.snapshot = candidate.clone();
        }
    }

    /// Decides about a failed attempt. Each retry waits longer, up to a cap.
    pub fn attempt_failed(
        &mut self,
        error: DcpError,
        metrics: &mut DcpMetrics,
        health: &mut DcpHealth,
        now: Interval,
    ) -> (result: ReopenStep)
        ensures
            final(self).snapshot == old(self).snapshot,
            if retryable(error@) {
                &&& result == ReopenStep::Retry(old(self).backoff)
                &&& forall|attempt: nat|
                    old(self).backoff.total_nanos() == #[trigger] backoff(attempt)
                        ==> final(self).backoff.total_nanos() == backoff(attempt + 1)
                &&& final(metrics).values() == with_stream_error(old(metrics).values())
                &&& final(health).values() == degraded(old(health).values(), now, error@.text())
            } else {
                &&& result == ReopenStep::Fatal(error)
                &&& *final(self) == *old(self)
                &&& *final(metrics) == *old(metrics)
                &&& *final(health) == *old(health)
            },
    {
        if !is_retryable(&error) {
            return ReopenStep::Fatal(error);
        }
        record_runtime_failure(&error, metrics, health, now);
        let delay = self.backoff;
        self.backoff = next_reconnect_backoff(&delay);
        ReopenStep::Retry(delay)
    }
}

/// Every event that was registered but not processed lies after the position
/// that a reopen starts from, and after any position that a flush saved before:
/// it is delivered again after a reopen or a restart.
pub proof fn unprocessed_events_are_replayed(m: CoordinatorModel, v: u16, i: int)
    requires
        m.sound(),
        m.partitions.contains_key(v),
        0 <= i < m.partitions[v].pending.len(),
    ensures
        m.partitions[v].processed.seqno < m.partitions[v].pending[i].position.seqno,
        saved(
            m.partitions[v],
            m.partitions[v].processed,
            m.partitions[v].generation,
        ).durable.seqno < m.partitions[v].pending[i].position.seqno,
{
}

impl SubscriptionSession {
    /// Starts a subscription on the first generation that was opened.
    pub fn start(
        mode: DcpMode,
        skip_until: Option<Interval>,
        topology_generation: u64,
        assignment_generation: u64,
        checkpoint: &CheckpointConfig,
        starts: &BTreeMap<u16, StartPosition>,
        loaded: &BTreeMap<u16, DcpCheckpoint>,
        effective: &BTreeMap<u16, DcpCheckpoint>,
        end_seqnos: BTreeMap<u16, u64>,
        stream_count: usize,
        registry: CollectionRegistry,
    ) -> (result: Result<Self>)
        ensures
            ({
                let positions = positions_of(effective@);
                let changed = changed_starts(positions_of(loaded@), positions);
                let fault = session_fault(
                    *checkpoint,
                    starts@.dom(),
                    positions,
                    end_seqnos@,
                    stream_count as nat,
                );
                match result {
                    Ok(session) => {
                        &&& fault is None
                        &&& session.mode == mode
                        &&& session.skip_until == skip_until
                        &&& session.topology_generation == topology_generation
                        &&& session.assignment_generation == assignment_generation
                        &&& session.connection_generation == 1
                        &&& session.frozen_end_seqnos == end_seqnos
                        &&& session.registry == registry
                        &&& session.coordinator@.partitions.dom() == effective@.dom()
                        &&& forall|v: u16| #[trigger]
                            effective@.contains_key(v) ==> session.coordinator@.partitions[v]
                                == begun(positions[v], changed.contains(v))
                        &&& session.coordinator@.sound()
                    },
                    Err(e) => fault == Some(e@),
                }
            }),
    {
        validate_opened_partitions(starts, effective, &end_seqnos, None, stream_count)?;
        let mut coordinator = CheckpointCoordinator::new(checkpoint, effective)?;
        let ghost m = coordinator@;
        let ghost positions = positions_of(effective@);
        let ghost changed = changed_starts(positions_of(loaded@), positions);
        let ghost fault = |v: u16| mark_fault(m.partitions, v);
        proof {
            assert forall|v: u16| #[trigger] changed.contains(v) implies fault(v) is None by {
                assert(effective@.contains_key(v));
                assert(m.partitions.dom().contains(v));
            }
            crate::maps::keyed_fault_is_none(changed, fault);
        }
        mark_changed_initial_positions(&mut coordinator, loaded, effective)?;
        proof {
            assert(coordinator@.partitions.dom() =~= effective@.dom()) by {
                assert forall|v: u16| coordinator@.partitions.contains_key(v)
                    == #[trigger] effective@.contains_key(v) by {
                    assert(m.partitions.dom().contains(v) == effective@.dom().contains(v));
                }
            }
            assert forall|v: u16| #[trigger] effective@.contains_key(v) implies coordinator@.partitions[v]
                == begun(positions[v], changed.contains(v)) by {
                assert(m.partitions.dom().contains(v));
                assert(m.partitions[v] == started(effective@[v]@));
                assert(positions[v] == effective@[v]@);
            }
        }
        Ok(
            SubscriptionSession {
                mode,
                skip_until,
                topology_generation,
                assignment_generation,
                connection_generation: 1,
                coordinator,
                frozen_end_seqnos: end_seqnos,
                registry,
            },
        )
    }

    /// Takes in what a stream produced.
    pub fn handle_stream_item(
        &mut self,
        input: StreamInput,
        state: &mut TopologyState,
        metrics: &mut DcpMetrics,
        health: &mut DcpHealth,
        now: Interval,
    ) -> (result: SessionStep)
        ensures
            same_setting(*old(self), *final(self)),
            old(self).coordinator@.sound() ==> final(self).coordinator@.sound(),
            match input {
                StreamInput::Event(event) => {
                    &&& match result {
                        SessionStep::Continue => judged(*old(self), *final(self), event, Ok(None)),
                        SessionStep::Deliver(d) => judged(
                            *old(self),
                            *final(self),
                            event,
                            Ok(Some(d)),
                        ),
                        SessionStep::Act(GenerationAction::Fatal(e)) => judged(
                            *old(self),
                            *final(self),
                            event,
                            Err(e),
                        ),
                        SessionStep::Act(_) => false,
                    }
                    &&& *final(state) == *old(state)
                    &&& *final(metrics) == *old(metrics)
                    &&& *final(health) == *old(health)
                },
                StreamInput::Unknown => {
                    &&& result is Continue
                    &&& *final(self) == *old(self)
                    &&& *final(state) == *old(state)
                    &&& *final(health) == *old(health)
                    &&& final(metrics).values() == (DcpMetricsSnapshot {
                        unknown_frames: counted(old(metrics).values().unknown_frames),
                        ..old(metrics).values()
                    })
                },
                StreamInput::Topology(parsed) => {
                    &&& *final(self) == *old(self)
                    &&& *final(health) == *old(health)
                    &&& match result {
                        SessionStep::Continue => topology_judged(
                            parsed,
                            *old(state),
                            *final(state),
                            *old(metrics),
                            *final(metrics),
                            None,
                        ),
                        SessionStep::Deliver(_) => false,
                        SessionStep::Act(action) => topology_judged(
                            parsed,
                            *old(state),
                            *final(state),
                            *old(metrics),
                            *final(metrics),
                            Some(action@),
                        ),
                    }
                },
                StreamInput::Failure(e) => {
                    &&& *final(self) == *old(self)
                    &&& *final(state) == *old(state)
                    &&& final(metrics).values() == with_stream_error(old(metrics).values())
                    &&& final(health).values() == degraded(old(health).values(), now, e@.text())
                    &&& result matches SessionStep::Act(action) && action@ == if retryable(e@) {
                        ActionModel::Reconnect
                    } else {
                        ActionModel::Fatal(e@)
                    }
                },
            },
    {
        match input {
            StreamInput::Event(event) => match self.deliver(event) {
                Ok(Some(delivery)) => SessionStep::Deliver(delivery),
                Ok(None) => SessionStep::Continue,
                Err(e) => SessionStep::Act(GenerationAction::Fatal(e)),
            },
            StreamInput::Unknown => {
                metrics.record_unknown_frame();
                SessionStep::Continue
            },
            StreamInput::Topology(parsed) => match self.topology_arrived(parsed, state, metrics) {
                Some(action) => SessionStep::Act(action),
                None => SessionStep::Continue,
            },
            StreamInput::Failure(e) => SessionStep::Act(
                self.stream_failed(e, metrics, health, now),
            ),
        }
    }

    /// Takes in an event that may be delivered: a document before the cutoff
    /// is processed without delivery; every other event is decorated, registered
    /// and handed out.
    pub fn deliver(&mut self, event: DcpEvent) -> (result: Result<Option<DcpDelivery>>)
        ensures
            same_setting(*old(self), *final(self)),
            judged(*old(self), *final(self), event, result),
            old(self).coordinator@.sound() ==> final(self).coordinator@.sound(),
    {
        let ghost m = self.coordinator@;
        if document_is_before_listener_cutoff(&self.skip_until, &event) {
            let unseen = self.coordinator.track_event(event)?;
            unseen.acknowledge(&mut self.coordinator)?;
            return Ok(None);
        }
        let ghost original = event;
        let shown = self.registry.decorate(event)?;
        proof {
            if m.partitions.contains_key(original.partition()) {
                decoration_keeps_progress(m.partitions[original.partition()], original, shown);
            }
        }
        let inner = self.coordinator.track_event(shown)?;
        Ok(
            Some(
                DcpDelivery {
                    inner,
                    connection_generation: self.connection_generation,
                    assignment_generation: self.assignment_generation,
                },
            ),
        )
    }

    /// Action before the next event is awaited, if any is due.
    pub fn due_action(&self, cancelled: bool, latest: &TopologySnapshot) -> (result: Option<
        GenerationAction,
    >)
        ensures
            opt_action(result) == if cancelled {
                Some(ActionModel::Stop)
            } else if latest.generation > self.topology_generation {
                Some(ActionModel::Reopen(latest.generation, latest.topology@))
            } else {
                None
            },
    {
        if cancelled {
            return Some(GenerationAction::Stop);
        }
        if latest.generation > self.topology_generation {
            return Some(GenerationAction::Reopen(latest.clone()));
        }
        None
    }

    /// Action when a signal interrupts the wait for a safe delivery.
    pub fn interrupted(&self, cancelled: bool, latest: &TopologySnapshot) -> (result: GenerationAction)
        ensures
            result@ == if cancelled {
                ActionModel::Stop
            } else if latest.generation > self.topology_generation {
                ActionModel::Reopen(latest.generation, latest.topology@)
            } else {
                ActionModel::Reconnect
            },
    {
        match self.due_action(cancelled, latest) {
            Some(action) => action,
            None => GenerationAction::Reconnect,
        }
    }

    /// Action once every stream of the generation ended.
    pub fn streams_ended(&self) -> (result: GenerationAction)
        ensures
            result@ == if self.mode == DcpMode::Finite {
                ActionModel::Complete
            } else {
                ActionModel::Reconnect
            },
    {
        match self.mode {
            DcpMode::Finite => GenerationAction::Complete,
            DcpMode::Infinite => GenerationAction::Reconnect,
        }
    }

    /// Action after a stream failed.
    pub fn stream_failed(
        &self,
        error: DcpError,
        metrics: &mut DcpMetrics,
        health: &mut DcpHealth,
        now: Interval,
    ) -> (result: GenerationAction)
        ensures
            result@ == if retryable(error@) {
                ActionModel::Reconnect
            } else {
                ActionModel::Fatal(error@)
            },
            final(metrics).values() == with_stream_error(old(metrics).values()),
            final(health).values() == degraded(old(health).values(), now, error@.text()),
    {
        record_runtime_failure(&error, metrics, health, now);
        if is_retryable(&error) {
            GenerationAction::Reconnect
        } else {
            GenerationAction::Fatal(error)
        }
    }

    /// Action after a topology config arrived on a stream.
    pub fn topology_arrived(
        &self,
        parsed: Result<ClusterTopology>,
        state: &mut TopologyState,
        metrics: &mut DcpMetrics,
    ) -> (result: Option<GenerationAction>)
        ensures
            topology_judged(
                parsed,
                *old(state),
                *final(state),
                *old(metrics),
                *final(metrics),
                opt_action(result),
            ),
    {
        match parsed {
            Err(e) => Some(GenerationAction::Fatal(e)),
            Ok(candidate) => match apply_topology_candidate(state, metrics, candidate) {
                Ok(Some(snapshot)) => Some(GenerationAction::Reopen(snapshot)),
                Ok(None) => None,
                Err(e) => Some(GenerationAction::Fatal(e)),
            },
        }
    }

    /// Action after the wait for a persisted position, if delivery may not go
    /// on; the wait tells whether delivery was delayed.
    pub fn mitigation_ended(
        &self,
        wait: Result<bool>,
        metrics: &mut DcpMetrics,
        health: &mut DcpHealth,
        now: Interval,
    ) -> (result: Option<GenerationAction>)
        ensures
            match wait {
                Ok(delayed) => {
                    &&& result is None
                    &&& *final(health) == *old(health)
                    &&& final(metrics).values() == if delayed {
                        DcpMetricsSnapshot {
                            rollback_mitigation_delays: counted(
                                old(metrics).values().rollback_mitigation_delays,
                            ),
                            ..old(metrics).values()
                        }
                    } else {
                        old(metrics).values()
                    }
                },
                Err(e) => {
                    &&& opt_action(result) == Some(ActionModel::Fatal(e@))
                    &&& final(health).values() == degraded(old(health).values(), now, e@.text())
                    &&& final(metrics).values() == (DcpMetricsSnapshot {
                        rollback_mitigation_failures: counted(
                            old(metrics).values().rollback_mitigation_failures,
                        ),
                        ..old(metrics).values()
                    })
                },
            },
    {
        match wait {
            Ok(delayed) => {
                if delayed {
                    metrics.record_rollback_mitigation_delay();
                }
                None
            },
            Err(e) => {
                metrics.record_rollback_mitigation_failure();
                health.record_failure(now, e.to_text());
                Some(GenerationAction::Fatal(e))
            },
        }
    }

    /// Begins a reopen: deliveries of the previous generation become stale.
    pub fn begin_reopen(&mut self, metrics: &mut DcpMetrics) -> (result: Result<u64>)
        ensures
            final(self).coordinator == old(self).coordinator,
            final(self).registry == old(self).registry,
            match result {
                Ok(next) => {
                    &&& next == old(self).connection_generation + 1
                    &&& same_setting(
                        *final(self),
                        (SubscriptionSession { connection_generation: next, ..*old(self) }),
                    )
                    &&& final(metrics).values() == (DcpMetricsSnapshot {
                        reconnects: counted(old(metrics).values().reconnects),
                        ..old(metrics).values()
                    })
                },
                Err(e) => {
                    &&& old(self).connection_generation == u64::MAX
                    &&& e@ == (DcpFault::Stream {
                        vbucket: 0,
                        message: "connection generation overflow"@,
                    })
                    &&& *final(self) == *old(self)
                    &&& *final(metrics) == *old(metrics)
                },
            },
    {
        let next: u64 = next_connection_generation(self.connection_generation)?;
        self.connection_generation = next;
        metrics.record_reconnect();
        Ok(next)
    }

    /// Starts of a reopened generation: the processed position of every
    /// followed vBucket.
    pub fn reopen_starts(&self) -> (result: BTreeMap<u16, StartPosition>)
        ensures
            forall|v: u16| #[trigger]
                result@.contains_key(v) <==> self.coordinator@.partitions.contains_key(v),
            forall|v: u16| #[trigger]
                result@.contains_key(v) ==> start_of(result@[v]) == StartModel::Checkpoint(
                    self.coordinator@.partitions[v].processed,
                ),
    {
        let checkpoints = self.coordinator.processed_checkpoints();
        let ghost partitions = self.coordinator@.partitions;
        let keys = sorted_keys(&checkpoints);
        let mut starts: BTreeMap<u16, StartPosition> = BTreeMap::new();
        let mut i: usize = 0;
        while i < keys.len()
            invariant
                i <= keys@.len(),
                partitions == self.coordinator@.partitions,
                checkpoints@.dom() == partitions.dom(),
                forall|v: u16| #[trigger]
                    partitions.contains_key(v) ==> checkpoints@[v]@ == partitions[v].processed,
                forall|v: u16| keys@.contains(v) <==> #[trigger] checkpoints@.contains_key(v),
                forall|v: u16| #[trigger]
                    starts@.contains_key(v) <==> keys@.take(i as int).contains(v),
                forall|v: u16| #[trigger]
                    starts@.contains_key(v) ==> start_of(starts@[v]) == StartModel::Checkpoint(
                        partitions[v].processed,
                    ),
            decreases keys@.len() - i,
        {
            let v: u16 = keys[i];
            let ghost done = keys@.take(i as int);
            let ghost next = keys@.take(i + 1);
            proof {
                assert(keys@.contains(v));
                assert(checkpoints@.contains_key(v));
                assert(partitions.dom().contains(v));
                assert(partitions.contains_key(v));
            }
            if let Some(checkpoint) = checkpoints.get(&v) {
                starts.insert(v, StartPosition::Checkpoint(checkpoint.clone()));
            }
            proof {
                assert(next =~= done.push(v));
                assert forall|w: u16| #[trigger] starts@.contains_key(w) <==> next.contains(w) by {
                    if done.contains(w) {
                        let k = choose|k: int| 0 <= k < done.len() && done[k] == w;
                        assert(next[k] == w);
                    }
                    if w == v {
                        assert(next[i as int] == w);
                    }
                }
            }
            i = i + 1;
        }
        proof {
            assert(keys@.take(keys@.len() as int) =~= keys@);
            assert forall|v: u16| #[trigger] starts@.contains_key(v) <==> partitions.contains_key(
                v,
            ) by {
                assert(keys@.contains(v) <==> checkpoints@.contains_key(v));
                assert(checkpoints@.dom().contains(v) <==> partitions.dom().contains(v));
            }
        }
        starts
    }

    /// Why a reopened generation is refused, if it is.
    pub open spec fn reopen_fault(
        self,
        starts: Map<u16, StartPosition>,
        effective: Map<u16, Position>,
        ends: Map<u16, u64>,
        streams: nat,
    ) -> Option<DcpFault> {
        let fault = opened_fault(
            starts.dom(),
            effective,
            ends,
            Some(self.frozen_end_seqnos@),
            streams,
        );
        if fault is Some {
            fault
        } else {
            keyed_fault(
                effective.dom(),
                |v: u16| rebase_fault(self.coordinator@, v, effective[v]),
            )
        }
    }

    /// Takes over the streams of a reopened generation. The generation must
    /// have opened exactly what was asked for, up to the frozen ends; pending
    /// deliveries of the previous generation are forgotten.
    pub fn accept_reopened(
        &mut self,
        starts: &BTreeMap<u16, StartPosition>,
        effective: &BTreeMap<u16, DcpCheckpoint>,
        end_seqnos: &BTreeMap<u16, u64>,
        stream_count: usize,
        registry: CollectionRegistry,
        rollback_count: usize,
        topology_generation: u64,
        metrics: &mut DcpMetrics,
        health: &mut DcpHealth,
        now: Interval,
    ) -> (result: Result<()>)
        ensures
            ({
                let positions = positions_of(effective@);
                let fault = old(self).reopen_fault(
                    starts@,
                    positions,
                    end_seqnos@,
                    stream_count as nat,
                );
                &&& checked(result, fault)
                &&& result is Err ==> {
                    &&& same_setting(*final(self), *old(self))
                    &&& final(self).coordinator@ == old(self).coordinator@
                    &&& final(self).registry == old(self).registry
                    &&& *final(metrics) == *old(metrics)
                    &&& *final(health) == *old(health)
                }
                &&& result is Ok ==> {
                    &&& same_setting(
                        *final(self),
                        (SubscriptionSession { topology_generation, ..*old(self) }),
                    )
                    &&& final(self).coordinator@ == (CoordinatorModel {
                        partitions: rebased_all(old(self).coordinator@.partitions, positions),
                        ..old(self).coordinator@
                    })
                    &&& final(self).registry == registry
                    &&& final(metrics).values() == (DcpMetricsSnapshot {
                        active_connections: stream_count as u64,
                        rollbacks: if old(metrics).values().rollbacks + rollback_count > u64::MAX {
                            u64::MAX
                        } else {
                            (old(metrics).values().rollbacks + rollback_count) as u64
                        },
                        ..old(metrics).values()
                    })
                    &&& final(health).values() == healthy(
                        now,
                        stream_count as u64,
                        topology_generation,
                    )
                }
            }),
            old(self).coordinator@.sound() ==> final(self).coordinator@.sound(),
    {
        let frozen = &self.frozen_end_seqnos;
        validate_opened_partitions(starts, effective, end_seqnos, Some(frozen), stream_count)?;
        self.coordinator.rebase_partitions(effective)?;
        self.registry = registry;
        metrics.record_rollbacks(rollback_count);
        metrics.set_active_connections(stream_count as u64);
        health.record_success(now, stream_count as u64, topology_generation);
        self.topology_generation = topology_generation;
        Ok(())
    }
}

/// Records the activation of a subscription.
pub fn record_activation(
    vbuckets: usize,
    streams: usize,
    rollback_count: usize,
    topology_generation: u64,
    metrics: &mut DcpMetrics,
    health: &mut DcpHealth,
    now: Interval,
)
    ensures
        final(metrics).values() == (DcpMetricsSnapshot {
            assigned_vbuckets: vbuckets as u64,
            active_connections: streams as u64,
            rollbacks: if old(metrics).values().rollbacks + rollback_count > u64::MAX {
                u64::MAX
            } else {
                (old(metrics).values().rollbacks + rollback_count) as u64
            },
            ..old(metrics).values()
        }),
        final(health).values() == healthy(now, streams as u64, topology_generation),
{
    metrics.set_assigned_vbuckets(vbuckets as u64);
    metrics.set_active_connections(streams as u64);
    metrics.record_rollbacks(rollback_count);
    health.record_success(now, streams as u64, topology_generation);
}

} // verus!
