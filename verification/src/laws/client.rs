//! Laws of clients and of their subscriptions.
use std::collections::BTreeMap;
use vstd::prelude::*;

use crate::assignment::{AssignmentMode, VBucketAssignment};
use crate::checkpoint::DcpCheckpoint;
use crate::checkpoint_runtime::{positions_of, AckOutcome, CheckpointCoordinator, EventAck, TrackedEvent};
use crate::client::{
    accept_delivery, after_generation, apply_topology_candidate, changed_starts, close_outcome,
    combine_generation_shutdown, document_is_before_listener_cutoff, finish_subscription,
    initial_reconnect_backoff, initial_start_fault, is_retryable, keep_first_failure,
    mark_changed_initial_positions, mark_fault, newer_snapshot, next_connection_generation,
    next_reconnect_backoff, record_activation, record_connect, record_probe,
    record_runtime_failure, resolve_assignment, resolve_initial_starts, start_of, ClientLifecycle,
    DcpDelivery, DcpSubscriptionSpec, GenerationAction, GenerationEnd, ReopenLoop, ReopenStep,
    SessionStep, StartModel, StreamInput, SubscriptionCompletion, SubscriptionSession,
    TopologySnapshot,
};
use crate::collections::CollectionRegistry;
use crate::config::{CheckpointConfig, DcpMode, RollbackPolicy, StartPosition};
use crate::error::{DcpError, Outcome, Result};
use crate::event::DcpEvent;
use crate::generation::validate_opened_partitions;
use crate::interval::Interval;
use crate::laws::collections::known;
use crate::lists::{first_where_ensures, no_first_fault};
use crate::maps::{keyed_fault_is_of_a_key, listed};
use crate::observability::{DcpHealth, DcpHealthStatus, DcpMetrics};
use crate::topology::{ClusterTopology, TopologyChange, TopologyState};

verus! {

broadcast use {vstd::std_specs::btree::group_btree_axioms, vstd::laws_cmp::group_laws_cmp};

/// A subscription keeps what it is given, and takes nothing else up.
pub proof fn subscriptions_keep_their_settings<S, H>(
    store: S,
    assignment: VBucketAssignment,
    alone: DcpSubscriptionSpec<S, H>,
    external: DcpSubscriptionSpec<S, H>,
    id: Option<u16>,
    numbered: DcpSubscriptionSpec<S, H>,
    handler: H,
    handled: DcpSubscriptionSpec<S, H>,
    parts: (AssignmentMode, S, Option<u16>, Option<H>),
)
    requires
        call_ensures(DcpSubscriptionSpec::<S, H>::standalone, (store,), alone),
        call_ensures(DcpSubscriptionSpec::<S, H>::external, (store, assignment), external),
        call_ensures(DcpSubscriptionSpec::<S, H>::stream_id, (external, id), numbered),
        call_ensures(DcpSubscriptionSpec::<S, H>::rollback_handler, (numbered, handler), handled),
        call_ensures(DcpSubscriptionSpec::<S, H>::into_parts, (handled,), parts),
    ensures
        alone.ownership() is Standalone && alone.store() == store && alone.stream() is None
            && alone.handler() is None,
        parts.0 == AssignmentMode::External(assignment),
        parts.1 == store,
        parts.2 == id,
        parts.3 == Some(handler),
{
}

/// A subscription is refused for stream zero, and for a delegating policy
/// without a handler.
pub proof fn subscriptions_are_checked<S, H>(
    spec: DcpSubscriptionSpec<S, H>,
    policy: RollbackPolicy,
    result: Result<()>,
)
    requires
        call_ensures(DcpSubscriptionSpec::<S, H>::validate, (&spec, policy), result),
    ensures
        result is Err <==> spec.stream() == Some(0u16) || (policy
            == RollbackPolicy::DelegateToHandler && spec.handler() is None),
        result matches Err(e) ==> e is InvalidConfiguration,
{
}

/// A client has at most one subscription at a time, and none after it was
/// closed.
pub proof fn clients_have_one_subscription<S, H>(
    life: &mut ClientLifecycle,
    spec: DcpSubscriptionSpec<S, H>,
    policy: RollbackPolicy,
    sound: Result<()>,
    result: Result<()>,
)
    requires
        call_ensures(DcpSubscriptionSpec::<S, H>::validate, (&spec, policy), sound),
        call_ensures(ClientLifecycle::begin_subscribe::<S, H>, (life, &spec, policy), result),
    ensures
        result is Ok <==> !old(life).closed && !old(life).active && sound is Ok,
        final(life).closed == old(life).closed,
        result is Ok ==> final(life).active,
        result is Err ==> final(life).active == old(life).active,
        old(life).closed ==> (result matches Err(DcpError::Cancelled)),
{
}

/// The turns of a client's life: open and idle at first, released when a
/// subscription ends, and closed for good.
pub proof fn client_turns(
    fresh: ClientLifecycle,
    a: &mut ClientLifecycle,
    activated: Result<()>,
    b: &mut ClientLifecycle,
    c: &mut ClientLifecycle,
)
    requires
        call_ensures(ClientLifecycle::new, (), fresh),
        call_ensures(ClientLifecycle::activate, (a,), activated),
        call_ensures(ClientLifecycle::release, (b,), ()),
        call_ensures(ClientLifecycle::close, (c,), ()),
    ensures
        !fresh.closed && !fresh.active,
        activated is Err <==> old(a).closed,
        old(a).closed ==> !final(a).active,
        !old(a).closed ==> final(a).active == old(a).active,
        final(a).closed == old(a).closed,
        !final(b).active && final(b).closed == old(b).closed,
        final(c).closed && final(c).active == old(c).active,
{
}

/// A subscription alone owns every vBucket, under generation zero; one with an
/// assignment owns the assigned vBuckets, under its generation. None, or one
/// that the topology does not have, is refused.
pub proof fn subscriptions_own_their_vbuckets(
    mode: AssignmentMode,
    topology: ClusterTopology,
    ids: Vec<u16>,
    generation: u64,
    i: int,
)
    requires
        call_ensures(resolve_assignment, (&mode, &topology), Ok((ids, generation))),
    ensures
        ids@.len() > 0,
        mode is Standalone ==> ids@.len() == topology@.routes.len() && generation == 0,
        mode is Standalone && 0 <= i < ids@.len() && ids@.len() <= 0x1_0000 ==> ids@[i] == i,
        mode matches AssignmentMode::External(assignment) ==> generation == assignment.fence()
            && ids@ == listed(assignment.owned()),
        0 <= i < ids@.len() ==> (ids@[i] as int) < topology@.routes.len(),
{
    let absent = |v: u16| topology@.active_at(v) is None;
    first_where_ensures(ids@, absent);
    if 0 <= i < ids@.len() {
        assert(!absent(ids@[i]));
    }
}

/// A vBucket starts at its loaded checkpoint, or else at the fallback.
pub proof fn vbuckets_start_where_they_were_left(
    vbuckets: &[u16],
    loaded: BTreeMap<u16, DcpCheckpoint>,
    fallback: StartPosition,
    result: Result<BTreeMap<u16, StartPosition>>,
    v: u16,
)
    requires
        call_ensures(resolve_initial_starts, (vbuckets, &loaded, &fallback), result),
    ensures
        result matches Ok(starts) ==> {
            &&& starts@.contains_key(v) <==> vbuckets@.contains(v)
            &&& starts@.contains_key(v) && loaded@.contains_key(v) ==> (
            starts@[v] matches StartPosition::Checkpoint(c) && c@ == loaded@[v]@)
            &&& starts@.contains_key(v) && !loaded@.contains_key(v) ==> (match fallback {
                StartPosition::Earliest => starts@[v] is Earliest,
                StartPosition::Latest => starts@[v] is Latest,
                StartPosition::Checkpoint(f) => f.vbucket == v && (
                starts@[v] matches StartPosition::Checkpoint(c) && c@ == f@),
            })
        },
{
    let positions = positions_of(loaded@);
    assert(positions.dom() =~= loaded@.dom());
    assert(positions.contains_key(v) <==> loaded@.contains_key(v));
    if loaded@.contains_key(v) {
        assert(positions[v] == loaded@[v]@);
    }
    if result is Ok && result->Ok_0@.contains_key(v) {
        assert(crate::client::initial_start(v, positions, start_of(fallback)) == Outcome::<
            StartModel,
        >::Ok(start_of(result->Ok_0@[v])));
    }
}

/// A fallback checkpoint serves its own vBucket only.
pub proof fn fallback_checkpoints_serve_their_vbucket(
    vbuckets: &[u16],
    loaded: BTreeMap<u16, DcpCheckpoint>,
    fallback: DcpCheckpoint,
    result: Result<BTreeMap<u16, StartPosition>>,
    i: int,
)
    requires
        call_ensures(
            resolve_initial_starts,
            (vbuckets, &loaded, &StartPosition::Checkpoint(fallback)),
            result,
        ),
        0 <= i < vbuckets@.len(),
        !loaded@.contains_key(vbuckets@[i]),
        vbuckets@[i] != fallback.vbucket,
    ensures
        result is Err,
{
    let positions = positions_of(loaded@);
    assert(positions.dom() =~= loaded@.dom());
    let start = start_of(StartPosition::Checkpoint(fallback));
    let fault = |k: int| initial_start_fault(vbuckets@, positions, start, k);
    if result is Ok {
        no_first_fault(vbuckets@.len(), fault);
        assert(fault(i) is None);
    }
}

/// Positions are marked exactly when each changed one is of a known vBucket
/// that can still be marked.
pub proof fn known_positions_are_marked(
    coordinator: &mut CheckpointCoordinator,
    loaded: BTreeMap<u16, DcpCheckpoint>,
    effective: BTreeMap<u16, DcpCheckpoint>,
    result: Result<()>,
)
    requires
        call_ensures(
            mark_changed_initial_positions,
            (coordinator, &loaded, &effective),
            result,
        ),
    ensures
        result is Ok <==> forall|v: u16| #[trigger]
            effective@.contains_key(v) && !(loaded@.contains_key(v) && loaded@[v]@
                == effective@[v]@) ==> old(coordinator)@.partitions.contains_key(v) && old(coordinator)@.partitions[v].generation < u64::MAX,
{
    let m = old(coordinator)@;
    let before = positions_of(loaded@);
    let after = positions_of(effective@);
    let changed = changed_starts(before, after);
    let fault = |w: u16| mark_fault(m.partitions, w);
    keyed_fault_is_of_a_key(changed, fault);
    assert(before.dom() =~= loaded@.dom());
    assert(after.dom() =~= effective@.dom());
    assert forall|v: u16| changed.contains(v) <==> #[trigger] effective@.contains_key(v) && !(
    loaded@.contains_key(v) && loaded@[v]@ == effective@[v]@) by {
        if effective@.contains_key(v) {
            assert(after[v] == effective@[v]@);
            if loaded@.contains_key(v) {
                assert(before[v] == loaded@[v]@);
            }
        }
    }
    if result is Ok {
        assert forall|v: u16| #[trigger]
            effective@.contains_key(v) && !(loaded@.contains_key(v) && loaded@[v]@
                == effective@[v]@) implies m.partitions.contains_key(v)
            && m.partitions[v].generation < u64::MAX by {
            assert(changed.contains(v));
            assert(fault(v) is None);
        }
    } else {
        let v = choose|v: u16| changed.contains(v) && #[trigger] fault(v) is Some;
        assert(effective@.contains_key(v));
    }
}

/// A start that differs from what was stored becomes due for saving, and no
/// other does.
pub proof fn changed_starts_are_due_for_saving(
    coordinator: &mut CheckpointCoordinator,
    loaded: BTreeMap<u16, DcpCheckpoint>,
    effective: BTreeMap<u16, DcpCheckpoint>,
    v: u16,
)
    requires
        call_ensures(
            mark_changed_initial_positions,
            (coordinator, &loaded, &effective),
            Ok(()),
        ),
        old(coordinator)@.partitions.contains_key(v),
    ensures
        ({
            let p = old(coordinator)@.partitions[v];
            let q = final(coordinator)@.partitions[v];
            let changed = effective@.contains_key(v) && !(loaded@.contains_key(v) && loaded@[v]@
                == effective@[v]@);
            &&& final(coordinator)@.partitions.contains_key(v)
            &&& q.processed == p.processed
            &&& q.durable == p.durable
            &&& changed ==> q.generation == p.generation + 1
            &&& !changed ==> q == p
        }),
{
    let m = old(coordinator)@;
    let before = positions_of(loaded@);
    let after = positions_of(effective@);
    let changed = changed_starts(before, after);
    let fault = |w: u16| mark_fault(m.partitions, w);
    keyed_fault_is_of_a_key(changed, fault);
    assert(before.dom() =~= loaded@.dom());
    assert(after.dom() =~= effective@.dom());
    if changed.contains(v) {
        assert(fault(v) is None);
    }
    if effective@.contains_key(v) {
        assert(after[v] == effective@[v]@);
    }
    if loaded@.contains_key(v) {
        assert(before[v] == loaded@[v]@);
    }
}

/// A topology candidate is taken up as the topology state takes it up, and
/// what is handed on is the state's new topology and generation.
pub proof fn candidates_are_taken_up(
    state: &mut TopologyState,
    metrics: &mut DcpMetrics,
    candidate: ClusterTopology,
    result: Result<Option<TopologySnapshot>>,
    same: &mut TopologyState,
    applied: Result<Option<TopologyChange>>,
)
    requires
        call_ensures(apply_topology_candidate, (state, metrics, candidate), result),
        *old(same) == *old(state),
        call_ensures(TopologyState::apply, (same, candidate), applied),
    ensures
        result is Err <==> applied is Err,
        result matches Ok(Some(_)) <==> (applied matches Ok(Some(_))),
        final(state).current() == final(same).current(),
        final(state).fence() == final(same).fence(),
        result matches Ok(Some(snapshot)) ==> {
            &&& snapshot.generation == final(state).fence()
            &&& snapshot.topology@ == candidate@
            &&& final(metrics).values().topology_updates
                == old(metrics).values().topology_updates + 1 || old(metrics).values().topology_updates == u64::MAX
        },
        !(result matches Ok(Some(_))) ==> *final(metrics) == *old(metrics),
{
}

/// The newer of two topologies is kept.
pub proof fn newer_topology_is_kept(
    snapshot: TopologySnapshot,
    observed: TopologySnapshot,
    result: TopologySnapshot,
)
    requires
        call_ensures(newer_snapshot, (snapshot, &observed), result),
    ensures
        result.generation >= snapshot.generation && result.generation >= observed.generation,
        observed.generation > snapshot.generation ==> result.generation == observed.generation
            && result.topology@ == observed.topology@,
        observed.generation <= snapshot.generation ==> result == snapshot,
{
}

/// Failures of the connection and of the cluster may pass; everything else is
/// final.
pub proof fn passing_failures_are_retried(error: DcpError, result: bool)
    requires
        call_ensures(is_retryable, (&error,), result),
    ensures
        result <==> error is Io || error is Timeout || error is DeadConnection || error is Topology
            || error is Stream || error is Cancelled,
{
}

/// Waiting starts at a tenth of a second, doubles, and stops at five seconds.
pub proof fn waiting_doubles_up_to_five_seconds(
    first: Interval,
    current: Interval,
    next: Interval,
)
    requires
        call_ensures(initial_reconnect_backoff, (), first),
        call_ensures(next_reconnect_backoff, (&current,), next),
    ensures
        first.total_nanos() == 100_000_000,
        next.total_nanos() <= 5_000_000_000,
        current.total_nanos() <= 2_500_000_000 ==> next.total_nanos() == 2 * current.total_nanos(),
        current.total_nanos() > 2_500_000_000 ==> next.total_nanos() == 5_000_000_000,
{
}

/// Connections have ever higher generations.
pub proof fn connection_generations_go_up(current: u64, result: Result<u64>)
    requires
        call_ensures(next_connection_generation, (current,), result),
    ensures
        result is Ok <==> current < u64::MAX,
        result matches Ok(next) ==> next == current + 1,
        result matches Err(e) ==> e is Stream,
{
}

/// The first failure is the one that is reported.
pub proof fn first_failure_is_reported(
    streams: Result<()>,
    mitigation: Result<()>,
    combined: Result<()>,
    first: Option<DcpError>,
    next: Result<()>,
    kept: Option<DcpError>,
    subscription: Result<()>,
    task: Option<String>,
    closed: Result<()>,
)
    requires
        call_ensures(combine_generation_shutdown, (streams, mitigation), combined),
        call_ensures(keep_first_failure, (first, next), kept),
        call_ensures(close_outcome, (subscription, task), closed),
    ensures
        streams is Err ==> combined == streams,
        streams is Ok ==> combined == mitigation,
        first is Some ==> kept == first,
        first is None && next is Err ==> kept == Some(next->Err_0),
        first is None && next is Ok ==> kept is None,
        closed is Ok <==> subscription is Ok && task is None,
        subscription is Err ==> closed is Err && closed->Err_0@ == subscription->Err_0@,
        subscription is Ok && task is Some ==> (closed matches Err(DcpError::Topology(_))),
{
}

/// The CAS of a document event.
pub open spec fn changed_at(event: DcpEvent, cas: u64) -> bool {
    match event {
        DcpEvent::Mutation(e) => e.cas == cas,
        DcpEvent::Deletion(e) => e.cas == cas,
        DcpEvent::Expiration(e) => e.cas == cas,
        _ => false,
    }
}

/// A document is hidden exactly when the second of its CAS starts before the
/// cutoff; nothing else is ever hidden.
pub proof fn documents_before_the_cutoff_are_hidden(
    cutoff: Option<Interval>,
    event: DcpEvent,
    hidden: bool,
    cas: u64,
)
    requires
        call_ensures(document_is_before_listener_cutoff, (&cutoff, &event), hidden),
    ensures
        cutoff is None ==> !hidden,
        !(event is Mutation) && !(event is Deletion) && !(event is Expiration) ==> !hidden,
        cutoff is Some && changed_at(event, cas) ==> (hidden <==> (cas / 1_000_000_000) as int
            * 1_000_000_000 < cutoff->0.total_nanos()),
{
}

/// The event that is shown is the event that came, but for the name of its
/// collection.
pub open spec fn shows(event: DcpEvent, shown: DcpEvent) -> bool {
    match event {
        DcpEvent::Mutation(e) => {
            &&& shown is Mutation
            &&& shown->Mutation_0.vbucket == e.vbucket
            &&& shown->Mutation_0.seqno == e.seqno
            &&& shown->Mutation_0.rev_seqno == e.rev_seqno
            &&& shown->Mutation_0.flags == e.flags
            &&& shown->Mutation_0.expiry == e.expiry
            &&& shown->Mutation_0.lock_time == e.lock_time
            &&& shown->Mutation_0.cas == e.cas
            &&& shown->Mutation_0.datatype == e.datatype
            &&& shown->Mutation_0.collection_id == e.collection_id
            &&& shown->Mutation_0.key == e.key
            &&& shown->Mutation_0.value == e.value
        },
        DcpEvent::Deletion(e) => {
            &&& shown is Deletion
            &&& shown->Deletion_0.vbucket == e.vbucket
            &&& shown->Deletion_0.seqno == e.seqno
            &&& shown->Deletion_0.rev_seqno == e.rev_seqno
            &&& shown->Deletion_0.delete_time == e.delete_time
            &&& shown->Deletion_0.cas == e.cas
            &&& shown->Deletion_0.datatype == e.datatype
            &&& shown->Deletion_0.collection_id == e.collection_id
            &&& shown->Deletion_0.key == e.key
            &&& shown->Deletion_0.value == e.value
        },
        DcpEvent::Expiration(e) => {
            &&& shown is Expiration
            &&& shown->Expiration_0.vbucket == e.vbucket
            &&& shown->Expiration_0.seqno == e.seqno
            &&& shown->Expiration_0.rev_seqno == e.rev_seqno
            &&& shown->Expiration_0.delete_time == e.delete_time
            &&& shown->Expiration_0.cas == e.cas
            &&& shown->Expiration_0.datatype == e.datatype
            &&& shown->Expiration_0.collection_id == e.collection_id
            &&& shown->Expiration_0.key == e.key
            &&& shown->Expiration_0.value == e.value
        },
        _ => shown == event,
    }
}

/// A visible event is delivered as it came, with the name of its collection,
/// under the generations of its connection and assignment, and waits for its
/// acknowledgement as the coordinator has it.
pub proof fn visible_events_are_delivered(
    session: &mut SubscriptionSession,
    event: DcpEvent,
    result: Result<Option<DcpDelivery>>,
    hidden: bool,
    coordinator: &mut CheckpointCoordinator,
    followed: Result<TrackedEvent>,
)
    requires
        call_ensures(SubscriptionSession::deliver, (session, event), result),
        call_ensures(
            document_is_before_listener_cutoff,
            (&old(session).skip_until, &event),
            hidden,
        ),
        *old(coordinator) == old(session).coordinator,
        call_ensures(CheckpointCoordinator::track_event, (coordinator, event), followed),
    ensures
        hidden && result is Ok ==> result->Ok_0 is None,
        !hidden && result is Ok ==> result->Ok_0 is Some,
        result matches Ok(Some(d)) ==> {
            &&& followed is Ok
            &&& final(session).coordinator@ == final(coordinator)@
            &&& shows(event, d.content())
            &&& d.connection() == old(session).connection_generation
            &&& d.fence() == old(session).assignment_generation
            &&& d.token() is Some <==> event is Mutation || event is Deletion || event is Expiration
                || event is SeqNoAdvanced || event is SystemEvent
            &&& d.content() matches DcpEvent::Mutation(e) ==> e.collection_name is Some && known(
                old(session).registry@,
                e.collection_id,
                e.collection_name->0@,
            )
            &&& d.content() matches DcpEvent::Deletion(e) ==> e.collection_name is Some && known(
                old(session).registry@,
                e.collection_id,
                e.collection_name->0@,
            )
            &&& d.content() matches DcpEvent::Expiration(e) ==> e.collection_name is Some && known(
                old(session).registry@,
                e.collection_id,
                e.collection_name->0@,
            )
        },
        final(session).connection_generation == old(session).connection_generation,
        final(session).assignment_generation == old(session).assignment_generation,
        final(session).topology_generation == old(session).topology_generation,
        final(session).skip_until == old(session).skip_until,
        final(session).mode == old(session).mode,
{
}

/// A hidden document counts as processed: it is registered and acknowledged at
/// once.
pub proof fn hidden_documents_are_processed(
    session: &mut SubscriptionSession,
    event: DcpEvent,
    coordinator: &mut CheckpointCoordinator,
    followed: TrackedEvent,
    parts: (DcpEvent, Option<EventAck>),
    next: &mut CheckpointCoordinator,
    outcome: Result<AckOutcome>,
)
    requires
        call_ensures(SubscriptionSession::deliver, (session, event), Ok(None)),
        call_ensures(
            document_is_before_listener_cutoff,
            (&old(session).skip_until, &event),
            true,
        ),
        *old(coordinator) == old(session).coordinator,
        call_ensures(CheckpointCoordinator::track_event, (coordinator, event), Ok(followed)),
        call_ensures(TrackedEvent::into_parts, (followed,), parts),
        parts.1 is Some,
        *old(next) == *final(coordinator),
        call_ensures(EventAck::acknowledge, (parts.1->0, next), outcome),
    ensures
        final(session).coordinator@ == final(next)@,
        outcome is Ok,
        final(session).registry == old(session).registry,
{
}

/// In the event loop an event is delivered or hidden as a delivery is, and a
/// failure of it is final.
pub proof fn stream_events_are_delivered(
    session: &mut SubscriptionSession,
    event: DcpEvent,
    state: &mut TopologyState,
    metrics: &mut DcpMetrics,
    health: &mut DcpHealth,
    now: Interval,
    step: SessionStep,
    hidden: bool,
)
    requires
        call_ensures(
            SubscriptionSession::handle_stream_item,
            (session, StreamInput::Event(event), state, metrics, health, now),
            step,
        ),
        call_ensures(
            document_is_before_listener_cutoff,
            (&old(session).skip_until, &event),
            hidden,
        ),
    ensures
        hidden ==> !(step is Deliver),
        !hidden ==> !(step is Continue),
        step matches SessionStep::Deliver(d) ==> shows(event, d.content()) && d.connection()
            == old(session).connection_generation && d.fence()
            == old(session).assignment_generation,
        step matches SessionStep::Act(action) ==> action is Fatal,
        *final(state) == *old(state),
        *final(metrics) == *old(metrics),
        *final(health) == *old(health),
{
}

/// In the event loop a failure that may pass reconnects, and any other is
/// final; both are counted and degrade the health.
pub proof fn stream_failures_reconnect_or_end(
    session: &mut SubscriptionSession,
    error: DcpError,
    state: &mut TopologyState,
    metrics: &mut DcpMetrics,
    health: &mut DcpHealth,
    now: Interval,
    step: SessionStep,
    passing: bool,
)
    requires
        call_ensures(
            SubscriptionSession::handle_stream_item,
            (session, StreamInput::Failure(error), state, metrics, health, now),
            step,
        ),
        call_ensures(is_retryable, (&error,), passing),
    ensures
        passing ==> (step matches SessionStep::Act(GenerationAction::Reconnect)),
        !passing ==> (step matches SessionStep::Act(GenerationAction::Fatal(e)) && e@ == error@),
        *final(session) == *old(session),
        final(health).values().status == DcpHealthStatus::Degraded,
        old(metrics).values().stream_errors < u64::MAX ==> final(metrics).values().stream_errors
            == old(metrics).values().stream_errors + 1,
{
}

/// In the event loop a newer topology reopens the streams under its new
/// generation, an older one is ignored, and an invalid one is final.
pub proof fn stream_topologies_reopen(
    session: &mut SubscriptionSession,
    parsed: Result<ClusterTopology>,
    state: &mut TopologyState,
    metrics: &mut DcpMetrics,
    health: &mut DcpHealth,
    now: Interval,
    step: SessionStep,
    same: &mut TopologyState,
    applied: Result<Option<TopologyChange>>,
)
    requires
        call_ensures(
            SubscriptionSession::handle_stream_item,
            (session, StreamInput::Topology(parsed), state, metrics, health, now),
            step,
        ),
        *old(same) == *old(state),
        parsed matches Ok(candidate) ==> call_ensures(
            TopologyState::apply,
            (same, candidate),
            applied,
        ),
    ensures
        parsed is Err ==> (step matches SessionStep::Act(GenerationAction::Fatal(_))),
        parsed is Ok && (applied matches Ok(None)) ==> step is Continue,
        parsed is Ok && applied is Err ==> (step matches SessionStep::Act(GenerationAction::Fatal(
            _,
        ))),
        parsed is Ok && (applied matches Ok(Some(_))) ==> (step matches SessionStep::Act(
            GenerationAction::Reopen(snapshot),
        ) && snapshot.generation == final(state).fence() && snapshot.topology@
            == parsed->Ok_0@ && final(state).fence() == old(state).fence() + 1),
        *final(session) == *old(session),
{
}

/// A frame that is not understood is counted and passed over.
pub proof fn unknown_frames_are_passed_over(
    session: &mut SubscriptionSession,
    state: &mut TopologyState,
    metrics: &mut DcpMetrics,
    health: &mut DcpHealth,
    now: Interval,
    step: SessionStep,
)
    requires
        call_ensures(
            SubscriptionSession::handle_stream_item,
            (session, StreamInput::Unknown, state, metrics, health, now),
            step,
        ),
    ensures
        step is Continue,
        *final(session) == *old(session),
        old(metrics).values().unknown_frames < u64::MAX ==> final(metrics).values().unknown_frames
            == old(metrics).values().unknown_frames + 1,
{
}

/// A delivery of an earlier connection is dropped; one of the current
/// connection is passed on and counted.
pub proof fn stale_deliveries_are_dropped(
    delivery: DcpDelivery,
    generation: u64,
    current: u64,
    metrics: &mut DcpMetrics,
    result: Option<DcpDelivery>,
)
    requires
        call_ensures(DcpDelivery::connection_generation, (&delivery,), generation),
        call_ensures(accept_delivery, (delivery, current, metrics), result),
    ensures
        generation == current ==> result == Some(delivery),
        generation != current ==> result is None,
        generation == current && old(metrics).values().delivered_events < u64::MAX ==> final(metrics).values().delivered_events == old(metrics).values().delivered_events + 1,
        generation != current && old(metrics).values().stale_generation_drops < u64::MAX
            ==> final(metrics).values().stale_generation_drops == old(metrics).values().stale_generation_drops + 1 && final(metrics).values().delivered_events == old(metrics).values().delivered_events,
{
}

/// Marking a delivery as processed acknowledges its event, and counts it.
pub proof fn processed_deliveries_are_acknowledged(
    delivery: DcpDelivery,
    coordinator: &mut CheckpointCoordinator,
    metrics: &mut DcpMetrics,
    result: Result<Option<AckOutcome>>,
    same: &mut CheckpointCoordinator,
    outcome: Result<AckOutcome>,
)
    requires
        call_ensures(DcpDelivery::mark_processed, (delivery, coordinator, metrics), result),
        *old(same) == *old(coordinator),
        delivery.token() is Some,
        call_ensures(EventAck::acknowledge, (delivery.token()->0, same), outcome),
    ensures
        result is Ok <==> outcome is Ok,
        final(coordinator)@ == final(same)@,
        result matches Ok(done) ==> done is Some && done->0.vbucket == outcome->Ok_0.vbucket
            && done->0.acknowledged_seqno == outcome->Ok_0.acknowledged_seqno
            && done->0.pending_events == outcome->Ok_0.pending_events,
        result is Ok && old(metrics).values().processed_events < u64::MAX ==> final(metrics).values().processed_events == old(metrics).values().processed_events + 1,
{
}

/// What a delivery tells is what was delivered.
pub proof fn deliveries_are_read(
    delivery: DcpDelivery,
    event: &DcpEvent,
    connection: u64,
    assignment: u64,
)
    requires
        call_ensures(DcpDelivery::event, (&delivery,), event),
        call_ensures(DcpDelivery::connection_generation, (&delivery,), connection),
        call_ensures(DcpDelivery::assignment_generation, (&delivery,), assignment),
    ensures
        *event == delivery.content(),
        connection == delivery.connection(),
        assignment == delivery.fence(),
{
}

/// A session starts at the effective checkpoints of its streams, under the
/// first connection, with its ends frozen; what differs from the store is due
/// for saving.
pub proof fn sessions_start_at_the_effective_checkpoints(
    mode: DcpMode,
    skip_until: Option<Interval>,
    topology_generation: u64,
    assignment_generation: u64,
    checkpoint: CheckpointConfig,
    starts: BTreeMap<u16, StartPosition>,
    loaded: BTreeMap<u16, DcpCheckpoint>,
    effective: BTreeMap<u16, DcpCheckpoint>,
    ends: BTreeMap<u16, u64>,
    streams: usize,
    registry: CollectionRegistry,
    session: SubscriptionSession,
    exact: Result<()>,
    v: u16,
)
    requires
        call_ensures(
            SubscriptionSession::start,
            (
                mode,
                skip_until,
                topology_generation,
                assignment_generation,
                &checkpoint,
                &starts,
                &loaded,
                &effective,
                ends,
                streams,
                registry,
            ),
            Ok(session),
        ),
        call_ensures(
            validate_opened_partitions,
            (&starts, &effective, &ends, None, streams),
            exact,
        ),
    ensures
        exact is Ok,
        session.mode == mode && session.skip_until == skip_until,
        session.topology_generation == topology_generation,
        session.assignment_generation == assignment_generation,
        session.connection_generation == 1,
        session.frozen_end_seqnos == ends,
        session.registry == registry,
        session.coordinator@.partitions.contains_key(v) <==> effective@.contains_key(v),
        effective@.contains_key(v) ==> {
            let p = session.coordinator@.partitions[v];
            &&& p.processed == effective@[v]@
            &&& p.durable == effective@[v]@
            &&& p.pending.len() == 0
            &&& p.durable_generation == 0
            &&& loaded@.contains_key(v) && loaded@[v]@ == effective@[v]@ ==> p.generation == 0
            &&& !(loaded@.contains_key(v) && loaded@[v]@ == effective@[v]@) ==> p.generation == 1
        },
{
    let before = positions_of(loaded@);
    let after = positions_of(effective@);
    assert(before.dom() =~= loaded@.dom());
    assert(after.dom() =~= effective@.dom());
    assert(session.coordinator@.partitions.dom().contains(v) <==> effective@.dom().contains(v));
    if effective@.contains_key(v) {
        assert(after[v] == effective@[v]@);
    }
    if loaded@.contains_key(v) {
        assert(before[v] == loaded@[v]@);
    }
}

/// A cancelled session stops; one whose topology is outdated reopens; streams
/// that ended complete a finite session and reconnect any other.
pub proof fn sessions_act_on_what_is_due(
    session: SubscriptionSession,
    cancelled: bool,
    latest: TopologySnapshot,
    due: Option<GenerationAction>,
    interrupted: GenerationAction,
    ended: GenerationAction,
)
    requires
        call_ensures(SubscriptionSession::due_action, (&session, cancelled, &latest), due),
        call_ensures(SubscriptionSession::interrupted, (&session, cancelled, &latest), interrupted),
        call_ensures(SubscriptionSession::streams_ended, (&session,), ended),
    ensures
        cancelled ==> (due matches Some(GenerationAction::Stop)) && interrupted is Stop,
        !cancelled && latest.generation > session.topology_generation ==> (due matches Some(
            GenerationAction::Reopen(s),
        ) && s.generation == latest.generation && s.topology@ == latest.topology@),
        !cancelled && latest.generation > session.topology_generation ==> (
        interrupted matches GenerationAction::Reopen(s) && s.generation == latest.generation),
        !cancelled && latest.generation <= session.topology_generation ==> due is None
            && interrupted is Reconnect,
        session.mode == DcpMode::Finite ==> ended is Complete,
        session.mode != DcpMode::Finite ==> ended is Reconnect,
{
}

/// A stalled mitigation ends the session; a delay is only counted.
pub proof fn mitigation_waits_end(
    session: SubscriptionSession,
    wait: Result<bool>,
    metrics: &mut DcpMetrics,
    health: &mut DcpHealth,
    now: Interval,
    result: Option<GenerationAction>,
)
    requires
        call_ensures(
            SubscriptionSession::mitigation_ended,
            (&session, wait, metrics, health, now),
            result,
        ),
    ensures
        wait is Ok ==> result is None && *final(health) == *old(health),
        wait matches Err(e) ==> (result matches Some(GenerationAction::Fatal(f)) && f@ == e@)
            && final(health).values().status == DcpHealthStatus::Degraded,
        wait matches Ok(delayed) ==> (delayed && old(metrics).values().rollback_mitigation_delays < u64::MAX ==> final(metrics).values().rollback_mitigation_delays == old(metrics).values().rollback_mitigation_delays + 1),
        wait matches Ok(delayed) ==> (!delayed ==> final(metrics).values() == old(metrics).values()),
{
}

/// A reopening has the next connection generation and starts every vBucket at
/// its processed checkpoint.
pub proof fn reopening_starts_at_the_processed(
    session: &mut SubscriptionSession,
    metrics: &mut DcpMetrics,
    result: Result<u64>,
    starts: BTreeMap<u16, StartPosition>,
    v: u16,
)
    requires
        call_ensures(SubscriptionSession::begin_reopen, (session, metrics), result),
        call_ensures(SubscriptionSession::reopen_starts, (final(session),), starts),
    ensures
        result is Ok <==> old(session).connection_generation < u64::MAX,
        result matches Ok(next) ==> next == old(session).connection_generation + 1 && final(session).connection_generation == next,
        final(session).coordinator == old(session).coordinator,
        final(session).topology_generation == old(session).topology_generation,
        final(session).frozen_end_seqnos == old(session).frozen_end_seqnos,
        starts@.contains_key(v) <==> old(session).coordinator@.partitions.contains_key(v),
        starts@.contains_key(v) ==> (starts@[v] matches StartPosition::Checkpoint(c) && c@ == old(session).coordinator@.partitions[v].processed),
{
    if starts@.contains_key(v) {
        assert(start_of(starts@[v]) == StartModel::Checkpoint(
            old(session).coordinator@.partitions[v].processed,
        ));
    }
}

/// A reopened generation is taken over with its effective checkpoints, under
/// the topology that it was opened with and the ends that were frozen; one
/// that does not fit changes nothing.
pub proof fn reopened_generations_are_taken_over(
    session: &mut SubscriptionSession,
    starts: BTreeMap<u16, StartPosition>,
    effective: BTreeMap<u16, DcpCheckpoint>,
    ends: BTreeMap<u16, u64>,
    streams: usize,
    registry: CollectionRegistry,
    rollbacks: usize,
    generation: u64,
    metrics: &mut DcpMetrics,
    health: &mut DcpHealth,
    now: Interval,
    result: Result<()>,
    exact: Result<()>,
    coordinator: &mut CheckpointCoordinator,
    rebased: Result<()>,
)
    requires
        call_ensures(
            SubscriptionSession::accept_reopened,
            (
                session,
                &starts,
                &effective,
                &ends,
                streams,
                registry,
                rollbacks,
                generation,
                metrics,
                health,
                now,
            ),
            result,
        ),
        call_ensures(
            validate_opened_partitions,
            (&starts, &effective, &ends, Some(&old(session).frozen_end_seqnos), streams),
            exact,
        ),
        *old(coordinator) == old(session).coordinator,
        call_ensures(
            CheckpointCoordinator::rebase_partitions,
            (coordinator, &effective),
            rebased,
        ),
    ensures
        result is Ok <==> exact is Ok && rebased is Ok,
        result is Ok ==> {
            &&& final(session).coordinator@ == final(coordinator)@
            &&& final(session).topology_generation == generation
            &&& final(session).registry == registry
            &&& final(session).connection_generation == old(session).connection_generation
            &&& final(session).frozen_end_seqnos == old(session).frozen_end_seqnos
            &&& final(metrics).values().active_connections == streams
            &&& final(health).values().status == DcpHealthStatus::Healthy
            &&& final(health).values().topology_generation == generation
        },
        result is Err ==> final(session).coordinator@ == old(session).coordinator@ && final(session).topology_generation == old(session).topology_generation && *final(metrics)
            == *old(metrics),
{
}

/// A generation that ended finishes the subscription or opens the next one;
/// its connections are gone either way.
pub proof fn generations_finish_or_reopen(
    action: GenerationAction,
    shutdown: Result<()>,
    metrics: &mut DcpMetrics,
    health: &mut DcpHealth,
    now: Interval,
    end: GenerationEnd,
)
    requires
        call_ensures(after_generation, (action, shutdown, metrics, health, now), end),
    ensures
        final(metrics).values().active_connections == 0,
        action is Reconnect ==> (end matches GenerationEnd::Reopen(None)),
        action matches GenerationAction::Reopen(s) ==> (end matches GenerationEnd::Reopen(Some(t))
            && t == s),
        action matches GenerationAction::Fatal(e) ==> (end matches GenerationEnd::Finish(Some(f))
            && f == e),
        action is Stop || action is Complete ==> end is Finish,
        (action is Stop || action is Complete) && shutdown is Ok ==> (
        end matches GenerationEnd::Finish(None)),
        (action is Stop || action is Complete) && shutdown is Err ==> (
        end matches GenerationEnd::Finish(Some(e)) && e == shutdown->Err_0),
{
}

/// A subscription ends with its own failure, or else with that of its last
/// save.
pub proof fn subscriptions_end_with_their_failure(
    error: Option<DcpError>,
    saved: Result<()>,
    health: &mut DcpHealth,
    now: Interval,
    generation: u64,
    result: Result<()>,
    outcome: Result<()>,
    completion: SubscriptionCompletion,
    told: Result<()>,
)
    requires
        call_ensures(finish_subscription, (error, saved, health, now, generation), result),
        call_ensures(SubscriptionCompletion::of, (&outcome,), completion),
        call_ensures(SubscriptionCompletion::into_result, (completion,), told),
    ensures
        error is Some ==> result is Err && result->Err_0 == error->0,
        error is None ==> result == saved,
        saved is Err ==> final(health).values().status == DcpHealthStatus::Degraded,
        saved is Ok && error is None ==> final(health).values().status == DcpHealthStatus::Healthy,
        told is Ok <==> outcome is Ok,
        told matches Err(e) ==> e is Stream,
{
}

/// Reopening keeps trying while failures may pass, with the newest topology
/// that it saw.
pub proof fn reopening_keeps_trying(
    attempt: &mut ReopenLoop,
    error: DcpError,
    metrics: &mut DcpMetrics,
    health: &mut DcpHealth,
    now: Interval,
    step: ReopenStep,
    passing: bool,
)
    requires
        call_ensures(ReopenLoop::attempt_failed, (attempt, error, metrics, health, now), step),
        call_ensures(is_retryable, (&error,), passing),
    ensures
        passing ==> (step matches ReopenStep::Retry(wait) && wait == old(attempt).backoff),
        !passing ==> (step matches ReopenStep::Fatal(e) && e == error),
        final(attempt).snapshot == old(attempt).snapshot,
        !passing ==> *final(attempt) == *old(attempt),
{
}

/// Reopening follows the newest topology.
pub proof fn reopening_follows_the_newest_topology(
    snapshot: TopologySnapshot,
    observed: TopologySnapshot,
    begun: ReopenLoop,
    attempt: &mut ReopenLoop,
    candidate: TopologySnapshot,
)
    requires
        call_ensures(ReopenLoop::begin, (snapshot, &observed), begun),
        call_ensures(ReopenLoop::topology_changed, (attempt, &candidate), ()),
    ensures
        begun.backoff.total_nanos() == 100_000_000,
        begun.snapshot.generation >= snapshot.generation && begun.snapshot.generation
            >= observed.generation,
        begun.snapshot.generation == snapshot.generation || begun.snapshot.generation
            == observed.generation,
        final(attempt).snapshot.generation >= old(attempt).snapshot.generation,
        final(attempt).snapshot.generation >= candidate.generation,
        final(attempt).snapshot.generation == old(attempt).snapshot.generation
            || final(attempt).snapshot.generation == candidate.generation,
        final(attempt).backoff == old(attempt).backoff,
{
}

/// A connect counts its attempt and its outcome, and starts with the topology
/// that it found.
pub proof fn connects_are_recorded(
    discovered: Result<ClusterTopology>,
    metrics: &mut DcpMetrics,
    health: &mut DcpHealth,
    now: Interval,
    result: Result<TopologyState>,
)
    requires
        call_ensures(record_connect, (discovered, metrics, health, now), result),
    ensures
        result is Ok <==> discovered is Ok,
        result matches Ok(state) ==> state.current() == discovered->Ok_0@ && state.fence() == 1,
        result matches Err(e) ==> e == discovered->Err_0,
        discovered is Ok ==> final(health).values().status == DcpHealthStatus::Healthy,
        discovered is Err ==> final(health).values().status == DcpHealthStatus::Degraded,
        old(metrics).values().bootstrap_attempts < u64::MAX ==> final(metrics).values().bootstrap_attempts == old(metrics).values().bootstrap_attempts + 1,
        discovered is Ok ==> final(metrics).values().bootstrap_failures == old(metrics).values().bootstrap_failures,
        discovered is Err ==> final(metrics).values().bootstrap_successes == old(metrics).values().bootstrap_successes,
        discovered is Ok && old(metrics).values().bootstrap_successes < u64::MAX ==> final(metrics).values().bootstrap_successes == old(metrics).values().bootstrap_successes + 1,
        discovered is Err && old(metrics).values().bootstrap_failures < u64::MAX ==> final(metrics).values().bootstrap_failures == old(metrics).values().bootstrap_failures + 1,
{
}

/// A probe is counted, and tells the health.
pub proof fn probes_tell_the_health(
    outcome: Result<()>,
    metrics: &mut DcpMetrics,
    health: &mut DcpHealth,
    at: Interval,
    generation: u64,
)
    requires
        call_ensures(record_probe, (&outcome, metrics, health, at, generation), ()),
    ensures
        outcome is Ok ==> final(health).values().status == DcpHealthStatus::Healthy && final(health).values().topology_generation == generation && final(health).values().active_connections == old(metrics).values().active_connections,
        outcome is Err ==> final(health).values().status == DcpHealthStatus::Degraded,
        old(metrics).values().health_checks < u64::MAX ==> final(metrics).values().health_checks
            == old(metrics).values().health_checks + 1,
        outcome is Err && old(metrics).values().health_failures < u64::MAX ==> final(metrics).values().health_failures == old(metrics).values().health_failures + 1,
        outcome is Ok ==> final(metrics).values().health_failures == old(metrics).values().health_failures,
{
}

/// A runtime failure is counted and degrades the health.
pub proof fn runtime_failures_are_recorded(
    error: DcpError,
    metrics: &mut DcpMetrics,
    health: &mut DcpHealth,
    now: Interval,
)
    requires
        call_ensures(record_runtime_failure, (&error, metrics, health, now), ()),
    ensures
        final(health).values().status == DcpHealthStatus::Degraded,
        old(metrics).values().stream_errors < u64::MAX ==> final(metrics).values().stream_errors
            == old(metrics).values().stream_errors + 1,
        final(metrics).values().active_connections == old(metrics).values().active_connections,
{
}

/// An activated subscription shows its vBuckets, connections and rollbacks.
pub proof fn activations_are_recorded(
    vbuckets: usize,
    streams: usize,
    rollbacks: usize,
    generation: u64,
    metrics: &mut DcpMetrics,
    health: &mut DcpHealth,
    now: Interval,
)
    requires
        call_ensures(
            record_activation,
            (vbuckets, streams, rollbacks, generation, metrics, health, now),
            (),
        ),
    ensures
        final(metrics).values().assigned_vbuckets == vbuckets,
        final(metrics).values().active_connections == streams,
        old(metrics).values().rollbacks + rollbacks <= u64::MAX ==> final(metrics).values().rollbacks == old(metrics).values().rollbacks + rollbacks,
        final(health).values().status == DcpHealthStatus::Healthy,
        final(health).values().active_connections == streams,
        final(health).values().topology_generation == generation,
{
}

} // verus!
