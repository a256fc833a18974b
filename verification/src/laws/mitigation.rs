//! Laws of rollback mitigation.
use std::collections::BTreeMap;
use vstd::prelude::*;

use crate::error::{DcpError, Result};
use crate::event::DcpEvent;
use crate::rollback_mitigation::{
    aggregate_observations, aggregate_vbucket, inconclusive, left_branch, mitigation_position,
    observes, push_node_failure, summary, MitigationSnapshot, MitigationState, ObservationOutcome,
    ObservationPlan, ObservationTarget, RawObservation, WaitStep,
};
use crate::topology::ClusterTopology;

verus! {

broadcast use {vstd::std_specs::btree::group_btree_axioms, vstd::laws_cmp::group_laws_cmp};

/// Every event that carries a sequence number waits for exactly that sequence
/// number of its vBucket; a snapshot marker waits for the start of its
/// snapshot; and only stream ends and out-of-sequence markers wait for nothing.
pub proof fn events_wait_for_their_own_seqno(event: DcpEvent, position: Option<(u16, u64)>)
    requires
        call_ensures(mitigation_position, (&event,), position),
    ensures
        event matches DcpEvent::Mutation(e) ==> position == Some((e.vbucket, e.seqno)),
        event matches DcpEvent::Deletion(e) ==> position == Some((e.vbucket, e.seqno)),
        event matches DcpEvent::Expiration(e) ==> position == Some((e.vbucket, e.seqno)),
        event matches DcpEvent::SeqNoAdvanced(e) ==> position == Some((e.vbucket, e.seqno)),
        event matches DcpEvent::SystemEvent(e) ==> position == Some((e.vbucket, e.seqno)),
        event matches DcpEvent::SnapshotMarker(e) ==> position == Some((e.vbucket, e.start_seqno)),
        position is None <==> event is StreamEnd || event is OsoSnapshot,
{
}

/// A position is released exactly when every copy has persisted it; until then
/// it waits, and once the time is up the wait fails.
pub proof fn release_needs_persistence(
    snapshot: MitigationSnapshot,
    vbucket: u16,
    seqno: u64,
    delayed: bool,
    expired: bool,
    stall: &str,
    result: Result<WaitStep>,
)
    requires
        call_ensures(
            MitigationSnapshot::wait_step,
            (&snapshot, vbucket, seqno, delayed, expired, stall),
            result,
        ),
        seqno > 0,
    ensures
        result matches Ok(WaitStep::Deliver { .. }) <==> snapshot@.contains_key(vbucket)
            && snapshot@[vbucket].persisted_seqno is Some && seqno
            <= snapshot@[vbucket].persisted_seqno->0,
        result matches Ok(WaitStep::Deliver { delayed: late }) ==> late == delayed,
        result is Err <==> !snapshot@.contains_key(vbucket) || (expired && (
        snapshot@[vbucket].persisted_seqno is None || snapshot@[vbucket].persisted_seqno->0
            < seqno)),
        result matches Err(e) ==> (e matches DcpError::RollbackMitigation { vbucket: v, .. } && v
            == vbucket),
{
}

/// Every copy of the vBucket has persisted the sequence number.
pub open spec fn persisted_to(snapshot: MitigationSnapshot, vbucket: u16, seqno: u64) -> bool {
    &&& snapshot@.contains_key(vbucket)
    &&& snapshot@[vbucket].persisted_seqno is Some
    &&& seqno <= snapshot@[vbucket].persisted_seqno->0
}

/// A mutation is released only when its own sequence number is persisted on
/// every copy, and likewise every other event with a sequence number.
pub proof fn mutation_is_released_when_persisted(
    event: DcpEvent,
    vbucket: u16,
    seqno: u64,
    snapshot: MitigationSnapshot,
    delayed: bool,
    expired: bool,
    stall: &str,
    late: bool,
)
    requires
        call_ensures(mitigation_position, (&event,), Some((vbucket, seqno))),
        call_ensures(
            MitigationSnapshot::wait_step,
            (&snapshot, vbucket, seqno, delayed, expired, stall),
            Ok(WaitStep::Deliver { delayed: late }),
        ),
    ensures
        event matches DcpEvent::Mutation(e) ==> (e.seqno > 0 ==> persisted_to(snapshot, e.vbucket, e.seqno)),
        event matches DcpEvent::Deletion(e) ==> (e.seqno > 0 ==> persisted_to(snapshot, e.vbucket, e.seqno)),
        event matches DcpEvent::Expiration(e) ==> (e.seqno > 0 ==> persisted_to(snapshot, e.vbucket, e.seqno)),
        event matches DcpEvent::SystemEvent(e) ==> (e.seqno > 0 ==> persisted_to(snapshot, e.vbucket, e.seqno)),
        event matches DcpEvent::SeqNoAdvanced(e) ==> (e.seqno > 0 ==> persisted_to(snapshot, e.vbucket, e.seqno)),
{
}

/// Nothing is released for the origin to wait for.
pub proof fn origin_is_always_released(
    snapshot: MitigationSnapshot,
    vbucket: u16,
    delayed: bool,
    expired: bool,
    stall: &str,
    result: Result<WaitStep>,
)
    requires
        call_ensures(
            MitigationSnapshot::wait_step,
            (&snapshot, vbucket, 0u64, delayed, expired, stall),
            result,
        ),
    ensures
        result matches Ok(WaitStep::Deliver { delayed: late }) && !late,
{
}

/// A fresh generation knows every branch and holds nothing persisted yet.
pub proof fn fresh_generation_knows_nothing(
    branches: BTreeMap<u16, u64>,
    result: Result<MitigationSnapshot>,
)
    requires
        call_ensures(MitigationSnapshot::new, (&branches,), result),
    ensures
        result is Ok <==> branches@.len() > 0,
        result matches Ok(snapshot) ==> forall|v: u16|
            #![trigger snapshot@.contains_key(v)]
            (snapshot@.contains_key(v) <==> branches@.contains_key(v)) && (branches@.contains_key(v)
                ==> snapshot@[v].expected_vbucket_uuid == branches@[v]
                && snapshot@[v].persisted_seqno is None),
{
    if result is Ok {
        let snapshot = result->Ok_0;
        assert forall|v: u16|
            #![trigger snapshot@.contains_key(v)]
            (snapshot@.contains_key(v) <==> branches@.contains_key(v)) && (branches@.contains_key(v)
                ==> snapshot@[v].expected_vbucket_uuid == branches@[v]
                && snapshot@[v].persisted_seqno is None) by {
            assert(snapshot@.dom().contains(v) <==> branches@.dom().contains(v));
        }
    }
}

/// A cycle teaches exactly this: a persisted number on the expected branch
/// that does not fall replaces what was known; a fall, another branch or a
/// change of branch makes it unknown; and a cycle without a result changes
/// nothing but the complaint.
pub proof fn cycles_teach_what_they_saw(
    state: &mut MitigationState,
    outcome: Option<&ObservationOutcome>,
)
    requires
        call_ensures(MitigationState::learn, (state, outcome), ()),
    ensures
        final(state).expected_vbucket_uuid == old(state).expected_vbucket_uuid,
        match outcome {
            None => final(state).persisted_seqno == old(state).persisted_seqno && final(state).last_error is Some,
            Some(ObservationOutcome::Transient { message }) => final(state).persisted_seqno == old(state).persisted_seqno && final(state).last_error is Some && final(state).last_error->0@
                == message@,
            Some(ObservationOutcome::BranchChanged { .. }) => final(state).persisted_seqno is None
                && final(state).last_error is Some,
            Some(ObservationOutcome::Persisted { vbucket_uuid, persisted_seqno }) => if vbucket_uuid
                != old(state).expected_vbucket_uuid || (old(state).persisted_seqno is Some
                && persisted_seqno < old(state).persisted_seqno->0) {
                final(state).persisted_seqno is None && final(state).last_error is Some
            } else {
                final(state).persisted_seqno == Some(*persisted_seqno) && final(state).last_error is None
            },
        },
{
    let before = old(state)@;
    let after = final(state)@;
    assert(before.last_error is Some <==> old(state).last_error is Some);
    assert(after.last_error is Some <==> final(state).last_error is Some);
}

/// A batch teaches every vBucket of the generation its own outcome.
pub proof fn batches_teach_each_vbucket(
    snapshot: &mut MitigationSnapshot,
    batch: BTreeMap<u16, ObservationOutcome>,
    v: u16,
)
    requires
        call_ensures(MitigationSnapshot::apply, (snapshot, &batch), ()),
        old(snapshot)@.contains_key(v),
    ensures
        final(snapshot)@.contains_key(v),
        final(snapshot)@[v].expected_vbucket_uuid == old(snapshot)@[v].expected_vbucket_uuid,
        !batch@.contains_key(v) ==> final(snapshot)@[v].persisted_seqno == old(snapshot)@[v].persisted_seqno,
        batch@.contains_key(v) ==> (match batch@[v] {
            ObservationOutcome::Transient { .. } => final(snapshot)@[v].persisted_seqno == old(snapshot)@[v].persisted_seqno,
            ObservationOutcome::BranchChanged { .. } => final(snapshot)@[v].persisted_seqno is None,
            ObservationOutcome::Persisted { vbucket_uuid, persisted_seqno } => if vbucket_uuid
                != old(snapshot)@[v].expected_vbucket_uuid || (old(snapshot)@[v].persisted_seqno is Some && persisted_seqno < old(snapshot)@[v].persisted_seqno->0) {
                final(snapshot)@[v].persisted_seqno is None
            } else {
                final(snapshot)@[v].persisted_seqno == Some(persisted_seqno)
            },
        }),
{
    assert(final(snapshot)@.dom().contains(v));
}

/// A copy of the vBucket answered from the branch it was asked for.
pub open spec fn on_branch(o: RawObservation) -> bool {
    o.result matches Ok(r) && !r.did_failover && r.vbucket_uuid == o.target.expected_vbucket_uuid
}

/// The answer of a copy tells what it persisted.
pub open spec fn conclusive(o: RawObservation) -> bool {
    on_branch(o) && o.result->Ok_0.vbucket == o.target.vbucket && o.result->Ok_0.persisted_seqno
        <= o.result->Ok_0.current_seqno
}

/// The observation at `i` is of the vBucket.
pub open spec fn of_vbucket(observations: Seq<RawObservation>, vbucket: u16, i: int) -> bool {
    0 <= i < observations.len() && observations[i].target.vbucket == vbucket
}

proof fn observation_kinds(o: RawObservation)
    ensures
        left_branch(o) is Some <==> (o.result is Ok && !on_branch(o)),
        left_branch(o) is None ==> (inconclusive(o) is None <==> conclusive(o)),
{
}

proof fn summary_is_made_of_observations(observations: Seq<RawObservation>, vbucket: u16)
    ensures
        ({
            let s = summary(observations, vbucket);
            &&& s.left is Some ==> exists|i: int|
                #[trigger] of_vbucket(observations, vbucket, i) && observations[i].result is Ok
                    && !on_branch(observations[i]) && s.left->0
                    == observations[i].result->Ok_0.vbucket_uuid
            &&& s.minimum is Some ==> exists|i: int|
                #[trigger] of_vbucket(observations, vbucket, i) && conclusive(observations[i])
                    && s.minimum->0 == observations[i].result->Ok_0.persisted_seqno
            &&& s.branch is Some ==> exists|i: int|
                #[trigger] of_vbucket(observations, vbucket, i) && s.branch->0
                    == observations[i].target.expected_vbucket_uuid
            &&& s.complaint is Some ==> exists|i: int|
                #[trigger] of_vbucket(observations, vbucket, i) && !conclusive(observations[i])
        }),
        forall|i: int|
            #[trigger] of_vbucket(observations, vbucket, i) ==> {
                let s = summary(observations, vbucket);
                &&& s.branch is Some
                &&& s.count > 0
                &&& conclusive(observations[i]) ==> s.minimum is Some && s.minimum->0
                    <= observations[i].result->Ok_0.persisted_seqno
                &&& observations[i].result is Ok && !on_branch(observations[i]) ==> s.left is Some
                &&& !conclusive(observations[i]) ==> s.left is Some || s.complaint is Some
            },
    decreases observations.len(),
{
    if observations.len() > 0 {
        let shorter = observations.drop_last();
        let n = observations.len() - 1;
        let o = observations.last();
        summary_is_made_of_observations(shorter, vbucket);
        observation_kinds(o);
        let t = summary(shorter, vbucket);
        let s = summary(observations, vbucket);
        assert forall|i: int| #[trigger] of_vbucket(shorter, vbucket, i) implies of_vbucket(
            observations,
            vbucket,
            i,
        ) && observations[i] == shorter[i] by {}
        assert(of_vbucket(observations, vbucket, n) <==> o.target.vbucket == vbucket);
        if t.left is Some {
            let i = choose|i: int|
                #[trigger] of_vbucket(shorter, vbucket, i) && shorter[i].result is Ok && !on_branch(
                    shorter[i],
                ) && t.left->0 == shorter[i].result->Ok_0.vbucket_uuid;
            assert(of_vbucket(observations, vbucket, i));
        }
        if t.minimum is Some {
            let i = choose|i: int|
                #[trigger] of_vbucket(shorter, vbucket, i) && conclusive(shorter[i]) && t.minimum->0
                    == shorter[i].result->Ok_0.persisted_seqno;
            assert(of_vbucket(observations, vbucket, i));
        }
        if t.branch is Some {
            let i = choose|i: int|
                #[trigger] of_vbucket(shorter, vbucket, i) && t.branch->0
                    == shorter[i].target.expected_vbucket_uuid;
            assert(of_vbucket(observations, vbucket, i));
        }
        if t.complaint is Some {
            let i = choose|i: int|
                #[trigger] of_vbucket(shorter, vbucket, i) && !conclusive(shorter[i]);
            assert(of_vbucket(observations, vbucket, i));
        }
        assert forall|i: int| #[trigger] of_vbucket(observations, vbucket, i) implies {
            &&& s.branch is Some
            &&& s.count > 0
            &&& conclusive(observations[i]) ==> s.minimum is Some && s.minimum->0
                <= observations[i].result->Ok_0.persisted_seqno
            &&& observations[i].result is Ok && !on_branch(observations[i]) ==> s.left is Some
            &&& !conclusive(observations[i]) ==> s.left is Some || s.complaint is Some
        } by {
            if i < n {
                assert(of_vbucket(shorter, vbucket, i));
            }
        }
    }
}

proof fn summary_count_is_of_vbucket(observations: Seq<RawObservation>, vbucket: u16)
    ensures
        summary(observations, vbucket).count == observations.filter(
            |o: RawObservation| o.target.vbucket == vbucket,
        ).len(),
    decreases observations.len(),
{
    reveal(Seq::filter);
    if observations.len() > 0 {
        summary_count_is_of_vbucket(observations.drop_last(), vbucket);
    }
}

/// A cycle that heard every copy, each on the expected branch, reports the
/// smallest sequence number that any of them persisted.
pub proof fn complete_cycle_reports_the_minimum(
    observations: Vec<RawObservation>,
    vbucket: u16,
    expected: usize,
    outcome: ObservationOutcome,
    k: int,
)
    requires
        call_ensures(aggregate_vbucket, (&observations, vbucket, expected), outcome),
        of_vbucket(observations@, vbucket, k),
        observations@.filter(|o: RawObservation| o.target.vbucket == vbucket).len() == expected,
        forall|i: int| #[trigger]
            of_vbucket(observations@, vbucket, i) ==> conclusive(observations@[i]),
    ensures
        outcome matches ObservationOutcome::Persisted { vbucket_uuid, persisted_seqno } && {
            &&& exists|i: int|
                #[trigger] of_vbucket(observations@, vbucket, i)
                    && observations@[i].result->Ok_0.persisted_seqno == persisted_seqno
            &&& forall|i: int| #[trigger]
                of_vbucket(observations@, vbucket, i) ==> persisted_seqno
                    <= observations@[i].result->Ok_0.persisted_seqno
            &&& exists|i: int|
                #[trigger] of_vbucket(observations@, vbucket, i)
                    && observations@[i].target.expected_vbucket_uuid == vbucket_uuid
        },
{
    summary_is_made_of_observations(observations@, vbucket);
    summary_count_is_of_vbucket(observations@, vbucket);
}

/// A copy that answers from another branch makes the cycle report a change of
/// branch, to a branch that a copy named; and only then is one reported.
pub proof fn branch_change_is_reported(
    observations: Vec<RawObservation>,
    vbucket: u16,
    expected: usize,
    outcome: ObservationOutcome,
)
    requires
        call_ensures(aggregate_vbucket, (&observations, vbucket, expected), outcome),
    ensures
        outcome is BranchChanged <==> exists|i: int|
            #[trigger] of_vbucket(observations@, vbucket, i) && observations@[i].result is Ok
                && !on_branch(observations@[i]),
        outcome matches ObservationOutcome::BranchChanged { observed_vbucket_uuid } ==> exists|i: int|
            #[trigger] of_vbucket(observations@, vbucket, i) && observations@[i].result is Ok
                && !on_branch(observations@[i]) && observations@[i].result->Ok_0.vbucket_uuid
                == observed_vbucket_uuid,
        outcome is Persisted ==> observations@.filter(
            |o: RawObservation| o.target.vbucket == vbucket,
        ).len() == expected && forall|i: int| #[trigger]
            of_vbucket(observations@, vbucket, i) ==> conclusive(observations@[i]),
{
    summary_is_made_of_observations(observations@, vbucket);
    summary_count_is_of_vbucket(observations@, vbucket);
}

/// A cycle judges each expected vBucket by itself.
pub proof fn cycles_judge_each_vbucket(
    expected: BTreeMap<u16, usize>,
    observations: Vec<RawObservation>,
    batch: BTreeMap<u16, ObservationOutcome>,
    v: u16,
    single: ObservationOutcome,
)
    requires
        call_ensures(aggregate_observations, (&expected, &observations), batch),
        expected@.contains_key(v),
        call_ensures(aggregate_vbucket, (&observations, v, expected@[v]), single),
    ensures
        batch@.contains_key(v),
        batch@[v]@ == single@,
{
    assert(batch@.dom().contains(v));
}

/// Every copy of every vBucket is observed on its branch, and nothing else is:
/// the copies are the active node and the replicas of the vBucket's route.
pub proof fn every_copy_is_observed(
    topology: ClusterTopology,
    branches: BTreeMap<u16, u64>,
    plan: ObservationPlan,
    node: Seq<char>,
    target: ObservationTarget,
)
    requires
        call_ensures(ObservationPlan::new, (&topology, &branches), Ok(plan)),
    ensures
        observes(plan.nodes@, node, target) <==> {
            &&& branches@.contains_key(target.vbucket)
            &&& branches@[target.vbucket] == target.expected_vbucket_uuid
            &&& node == topology@.routes[target.vbucket as int].active
                || topology@.routes[target.vbucket as int].replicas.contains(node)
        },
        branches@.contains_key(target.vbucket) ==> {
            &&& (target.vbucket as int) < topology@.routes.len()
            &&& branches@[target.vbucket] != 0
            &&& plan.expected_copies@.contains_key(target.vbucket)
            &&& plan.expected_copies@[target.vbucket]
                == topology@.routes[target.vbucket as int].replicas.to_set().insert(
                topology@.routes[target.vbucket as int].active,
            ).len()
        },
{
    let v = target.vbucket;
    assert(plan.expected_copies@.dom().contains(v) <==> branches@.dom().contains(v));
}

/// A node that fails leaves a failed observation for each of its targets.
pub proof fn failed_node_fails_its_targets(
    observations: &mut Vec<RawObservation>,
    targets: Vec<ObservationTarget>,
    message: &str,
    i: int,
)
    requires
        call_ensures(push_node_failure, (observations, &targets, message), ()),
        0 <= i < targets@.len(),
    ensures
        final(observations)@.len() == old(observations)@.len() + targets@.len(),
        final(observations)@[old(observations)@.len() + i].target == targets@[i],
        !conclusive(final(observations)@[old(observations)@.len() + i]),
{
}

} // verus!
