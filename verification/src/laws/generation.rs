//! Laws of opening a generation of streams.
use std::collections::BTreeMap;
use vstd::prelude::*;

use crate::adapters::CheckpointStreamItem;
use crate::checkpoint::{DcpCheckpoint, FailoverEntry};
use crate::checkpoint_runtime::{positions_of, CheckpointCoordinator};
use crate::collections::CollectionRegistry;
use crate::config::{DcpMode, RollbackPolicy, StartPosition};
use crate::error::{DcpError, Result};
use crate::generation::{
    apply_frozen_end_seqno, assigned_end, assigned_high_seqno, assigned_start, begin_preflight,
    bucket_identity, count_preflight_rollbacks, end_fault, finish_preflight, node_endpoint,
    plan_generation, resolve_vbucket_request, validate_opened_partitions, OpenedPartitions,
    Preflight,
};
use crate::maps::{keyed_fault, keyed_fault_is_of_a_key};
use crate::protocol::{StreamFilter, StreamRequest};
use crate::stream::{
    find_covering_branch, DcpStreamItem, RollbackAction, RollbackHandler, RollbackRequest,
    StreamOpenReport, VBucketStreamRequest,
};
use crate::topology::{places, ClusterTopology, Endpoint, KvEndpoint, NodeVBuckets};

verus! {

broadcast use {vstd::std_specs::btree::group_btree_axioms, vstd::laws_cmp::group_laws_cmp};

/// The preflight of a vBucket is its resolved request, or the rollback that
/// resolving it calls for, with the position that was wanted and the log that
/// was seen.
pub proof fn preflight_resolves_the_request(
    vbucket: u16,
    bucket_uuid: &str,
    start: StartPosition,
    mode: DcpMode,
    high_seqno: u64,
    failover_log: Vec<FailoverEntry>,
    filter: Option<StreamFilter>,
    result: Result<Preflight>,
    resolved: Result<VBucketStreamRequest>,
)
    requires
        call_ensures(
            begin_preflight,
            (vbucket, bucket_uuid, &start, mode, high_seqno, failover_log, &filter),
            result,
        ),
        call_ensures(
            VBucketStreamRequest::resolve,
            (vbucket, Some(bucket_uuid), &start, mode, high_seqno, failover_log, filter),
            resolved,
        ),
    ensures
        resolved is Ok <==> (result matches Ok(Preflight::Ready(_))),
        result matches Ok(Preflight::Ready(request)) ==> request@ == resolved->Ok_0@,
        result matches Ok(Preflight::Rollback(_)) <==> resolved is Err
            && resolved->Err_0 is RollbackRequired,
        result matches Ok(Preflight::Rollback(request)) ==> {
            &&& request.vbucket == vbucket
            &&& request.rollback_seqno == high_seqno
            &&& request.failover_log@ == failover_log@
            &&& start matches StartPosition::Checkpoint(c) ==> request.checkpoint.seqno == c.seqno
                && request.checkpoint.snapshot_start == c.snapshot_start
                && request.checkpoint.snapshot_end == c.snapshot_end
                && (c.vbucket_uuid != 0 ==> request.checkpoint.vbucket_uuid == c.vbucket_uuid)
        },
{
    if let Ok(Preflight::Rollback(request)) = result {
        let p = request.checkpoint@;
        assert(p.seqno == request.checkpoint.seqno);
    }
}

/// A replay starts at the rollback point, on the newest branch that covers it,
/// as a fresh snapshot of its own, and claims no manifest.
pub proof fn replay_starts_on_the_covering_branch(
    request: RollbackRequest,
    bucket_uuid: &str,
    mode: DcpMode,
    filter: Option<StreamFilter>,
    log: &[FailoverEntry],
    branch: Option<FailoverEntry>,
    result: Result<VBucketStreamRequest>,
    wire: StreamRequest,
)
    requires
        call_ensures(
            finish_preflight,
            (request, RollbackAction::RewindAndReplay, bucket_uuid, mode, &filter),
            result,
        ),
        log@ == request.failover_log@,
        call_ensures(find_covering_branch, (log, request.rollback_seqno), branch),
        result matches Ok(r) ==> call_ensures(VBucketStreamRequest::wire_request, (&r,), wire),
    ensures
        branch is None ==> result is Err,
        result is Ok ==> {
            &&& wire.vbucket == request.vbucket
            &&& wire.start_seqno == request.rollback_seqno
            &&& wire.snapshot_start == request.rollback_seqno
            &&& wire.snapshot_end == request.rollback_seqno
            &&& branch->0.vbucket_uuid != 0 ==> wire.vbucket_uuid == branch->0.vbucket_uuid
            &&& mode == DcpMode::Finite ==> wire.end_seqno == request.rollback_seqno
            &&& mode != DcpMode::Finite ==> wire.end_seqno == u64::MAX
            &&& wire.flags == if request.rollback_seqno == 0 {
                0x30u32
            } else {
                0x10u32
            }
            &&& wire.filter is Some <==> filter is Some
            &&& wire.filter matches Some(f) ==> f.manifest_uid is None && f.scope_id
                == filter->0.scope_id && f.collection_ids@ == filter->0.collection_ids@
                && f.stream_id == filter->0.stream_id
        },
{
    assert(0x10u32 | 0x20u32 == 0x30u32) by (bit_vector);
    if result is Ok && filter is Some {
        assert(wire.filter->0@ == result->Ok_0@.filter->0);
    }
}

/// Stopping reports the rollback that was called for.
pub proof fn stopping_reports_the_rollback(
    request: RollbackRequest,
    bucket_uuid: &str,
    mode: DcpMode,
    filter: Option<StreamFilter>,
    result: Result<VBucketStreamRequest>,
)
    requires
        call_ensures(
            finish_preflight,
            (request, RollbackAction::StopAndReport, bucket_uuid, mode, &filter),
            result,
        ),
    ensures
        result matches Err(DcpError::RollbackRequired {
            vbucket,
            requested_seqno,
            rollback_seqno,
            failover_log,
        }) && vbucket == request.vbucket && requested_seqno == request.checkpoint.seqno
            && rollback_seqno == request.rollback_seqno && failover_log@ == request.failover_log@,
{
}

/// A frozen end replaces the end of a request and nothing else, unless it lies
/// behind the start.
pub proof fn frozen_ends_are_applied(
    request: VBucketStreamRequest,
    end: Option<u64>,
    result: Result<VBucketStreamRequest>,
    before: StreamRequest,
    after: StreamRequest,
)
    requires
        call_ensures(apply_frozen_end_seqno, (request, end), result),
        call_ensures(VBucketStreamRequest::wire_request, (&request,), before),
        result matches Ok(r) ==> call_ensures(VBucketStreamRequest::wire_request, (&r,), after),
    ensures
        result is Ok <==> (end is Some ==> before.start_seqno <= end->0),
        result is Ok ==> {
            &&& after.end_seqno == if end is Some {
                end->0
            } else {
                before.end_seqno
            }
            &&& after.start_seqno == before.start_seqno
            &&& after.vbucket == before.vbucket
            &&& after.vbucket_uuid == before.vbucket_uuid
            &&& after.snapshot_start == before.snapshot_start
            &&& after.snapshot_end == before.snapshot_end
            &&& after.flags == before.flags
        },
        result matches Err(e) ==> e is Stream,
{
}

/// The request of a vBucket is its preflight carried to the end: ready as it
/// is, or after one rollback decided by the policy; a policy that delegates
/// needs a handler. The frozen end is applied last.
pub proof fn vbucket_requests_are_preflighted<H: RollbackHandler>(
    vbucket: u16,
    bucket_uuid: &str,
    start: StartPosition,
    mode: DcpMode,
    high_seqno: u64,
    failover_log: Vec<FailoverEntry>,
    filter: Option<StreamFilter>,
    policy: RollbackPolicy,
    handler: Option<&H>,
    end: Option<u64>,
    result: Result<(VBucketStreamRequest, usize)>,
    preflight: Result<Preflight>,
    ready: VBucketStreamRequest,
    frozen: Result<VBucketStreamRequest>,
)
    requires
        call_ensures(
            resolve_vbucket_request::<H>,
            (
                vbucket,
                bucket_uuid,
                &start,
                mode,
                high_seqno,
                failover_log,
                filter,
                policy,
                handler,
                end,
            ),
            result,
        ),
        call_ensures(
            begin_preflight,
            (vbucket, bucket_uuid, &start, mode, high_seqno, failover_log, &filter),
            preflight,
        ),
        call_ensures(apply_frozen_end_seqno, (ready, end), frozen),
    ensures
        preflight is Err ==> result is Err,
        preflight == Ok::<Preflight, DcpError>(Preflight::Ready(ready)) ==> {
            &&& result is Ok <==> frozen is Ok
            &&& result is Ok ==> result->Ok_0.1 == 0 && result->Ok_0.0@ == frozen->Ok_0@
        },
        preflight matches Ok(Preflight::Rollback(request)) ==> {
            &&& policy == RollbackPolicy::StopAndReport ==> (result matches Err(
                DcpError::RollbackRequired { vbucket: v, rollback_seqno, .. },
            ) && v == vbucket && rollback_seqno == high_seqno)
            &&& policy == RollbackPolicy::DelegateToHandler && handler is None ==> (
            result matches Err(DcpError::InvalidConfiguration(_)))
            &&& policy == RollbackPolicy::RewindAndReplay && result is Ok ==> result->Ok_0.1 == 1
                && result->Ok_0.0@.position.seqno == high_seqno
        },
{
}

/// The bucket is known by its UUID, or by its name where it has none.
pub proof fn buckets_are_known_by_uuid(topology: ClusterTopology, identity: &str)
    requires
        call_ensures(bucket_identity, (&topology,), identity),
    ensures
        topology@.bucket_uuid is Some ==> identity@ == topology@.bucket_uuid->0,
        topology@.bucket_uuid is None ==> identity@ == topology@.bucket,
{
}

/// A generation opens exactly the vBuckets that have a start, each on its
/// active node.
pub proof fn generations_open_the_started_vbuckets(
    topology: ClusterTopology,
    starts: BTreeMap<u16, StartPosition>,
    groups: Vec<NodeVBuckets>,
    node: Seq<char>,
    v: u16,
)
    requires
        call_ensures(plan_generation, (&topology, &starts), Ok(groups)),
    ensures
        starts@.len() > 0,
        (exists|i: int|
            0 <= i < groups@.len() && #[trigger] groups@[i].node@ == node
                && groups@[i].vbuckets@.contains(v)) <==> starts@.contains_key(v) && (v as int)
            < topology@.routes.len() && topology@.routes[v as int].active == node,
{
    assert(places(groups@, node, v) <==> starts@.contains_key(v) && (v as int)
        < topology@.routes.len() && topology@.routes[v as int].active == node);
}

/// What a vBucket is opened with is what was assigned to it.
pub proof fn assigned_values_are_looked_up(
    high_seqnos: BTreeMap<u16, u64>,
    starts: BTreeMap<u16, StartPosition>,
    ends: Option<&BTreeMap<u16, u64>>,
    node: &str,
    v: u16,
    high: Result<u64>,
    start: Result<&StartPosition>,
    end: Result<Option<u64>>,
)
    requires
        call_ensures(assigned_high_seqno, (&high_seqnos, node, v), high),
        call_ensures(assigned_start, (&starts, v), start),
        call_ensures(assigned_end, (ends, v), end),
    ensures
        high is Ok <==> high_seqnos@.contains_key(v),
        high matches Ok(seqno) ==> seqno == high_seqnos@[v],
        start is Ok <==> starts@.contains_key(v),
        start matches Ok(position) ==> *position == starts@[v],
        ends is None ==> (end matches Ok(None)),
        ends matches Some(map) ==> {
            &&& end is Ok <==> map@.contains_key(v)
            &&& end is Ok ==> end->Ok_0 == Some(map@[v])
        },
{
}

/// A node is dialled at its endpoint.
pub proof fn nodes_have_their_endpoint(
    topology: ClusterTopology,
    node: &str,
    result: Result<&KvEndpoint>,
)
    requires
        call_ensures(node_endpoint, (&topology, node), result),
    ensures
        result matches Ok(e) ==> e@.id == node@ && topology@.endpoints.contains(e@),
        result is Err ==> forall|e: Endpoint| #[trigger]
            topology@.endpoints.contains(e) ==> e.id != node@,
{
    if result is Err {
        assert forall|e: Endpoint| #[trigger]
            topology@.endpoints.contains(e) implies e.id != node@ by {
            let id = |x: Endpoint| x.id;
            assert(topology@.endpoints.map(id).contains(id(e)));
        }
    }
}

/// Rollbacks are counted.
pub proof fn preflight_rollbacks_are_counted(
    total: usize,
    more: usize,
    v: u16,
    result: Result<usize>,
)
    requires
        call_ensures(count_preflight_rollbacks, (total, more, v), result),
    ensures
        result is Ok <==> total + more <= usize::MAX,
        result matches Ok(sum) ==> sum == total + more,
{
}

/// A generation is accepted exactly when it opened what was asked for, with an
/// end for each, no end behind its start, and the frozen ends unchanged.
pub proof fn opened_generations_are_exact(
    starts: BTreeMap<u16, StartPosition>,
    effective: BTreeMap<u16, DcpCheckpoint>,
    ends: BTreeMap<u16, u64>,
    frozen: Option<&BTreeMap<u16, u64>>,
    streams: usize,
    result: Result<()>,
)
    requires
        call_ensures(
            validate_opened_partitions,
            (&starts, &effective, &ends, frozen, streams),
            result,
        ),
    ensures
        result is Ok <==> {
            &&& forall|v: u16| #[trigger]
                starts@.contains_key(v) <==> effective@.contains_key(v)
            &&& forall|v: u16| #[trigger] starts@.contains_key(v) <==> ends@.contains_key(v)
            &&& frozen is Some ==> frozen->0@ == ends@
            &&& forall|v: u16| #[trigger]
                effective@.contains_key(v) ==> effective@[v].seqno <= ends@[v]
            &&& streams > 0
        },
{
    let positions = positions_of(effective@);
    assert(positions.dom() =~= effective@.dom());
    let fault = |v: u16| end_fault(v, positions[v], ends@[v]);
    keyed_fault_is_of_a_key(positions.dom(), fault);
    assert forall|v: u16| #[trigger] effective@.contains_key(v) implies positions[v]
        == effective@[v]@ by {}
    let good = {
        &&& forall|v: u16| #[trigger] starts@.contains_key(v) <==> effective@.contains_key(v)
        &&& forall|v: u16| #[trigger] starts@.contains_key(v) <==> ends@.contains_key(v)
        &&& frozen is Some ==> frozen->0@ == ends@
        &&& forall|v: u16| #[trigger]
            effective@.contains_key(v) ==> effective@[v].seqno <= ends@[v]
        &&& streams > 0
    };
    if good {
        assert(starts@.dom() =~= positions.dom()) by {
            assert forall|v: u16| starts@.dom().contains(v) <==> positions.dom().contains(v) by {
                assert(starts@.contains_key(v) <==> effective@.contains_key(v));
            }
        }
        assert(starts@.dom() =~= ends@.dom()) by {
            assert forall|v: u16| starts@.dom().contains(v) <==> ends@.dom().contains(v) by {
                assert(starts@.contains_key(v) <==> ends@.contains_key(v));
            }
        }
        assert forall|v: u16| #[trigger] positions.dom().contains(v) implies fault(v) is None by {
            assert(effective@.contains_key(v));
        }
    }
    if result is Ok {
        assert forall|v: u16| #[trigger]
            starts@.contains_key(v) <==> effective@.contains_key(v) by {
            assert(starts@.dom().contains(v) <==> positions.dom().contains(v));
        }
        assert forall|v: u16| #[trigger] starts@.contains_key(v) <==> ends@.contains_key(v) by {
            assert(starts@.dom().contains(v) <==> ends@.dom().contains(v));
        }
        assert forall|v: u16| #[trigger] effective@.contains_key(v) implies effective@[v].seqno
            <= ends@[v] by {
            assert(positions.dom().contains(v));
            assert(fault(v) is None);
        }
    }
}

/// Adding a node takes over the effective checkpoint and the end of every
/// vBucket that it opened, and counts all rollbacks. A vBucket that is open
/// already is refused, with nothing changed.
pub proof fn added_nodes_bring_their_partitions(
    opened: &mut OpenedPartitions,
    preflight_rollbacks: usize,
    report: StreamOpenReport,
    result: Result<()>,
    v: u16,
)
    requires
        call_ensures(OpenedPartitions::add_node, (opened, preflight_rollbacks, &report), result),
    ensures
        result is Err ==> final(opened)@ == old(opened)@,
        result is Ok ==> {
            &&& final(opened)@.rollbacks == old(opened)@.rollbacks + preflight_rollbacks
                + report.applied().len()
            &&& report.states().contains_key(v) ==> {
                &&& !old(opened)@.effective.contains_key(v) && !old(opened)@.ends.contains_key(v)
                &&& final(opened)@.effective.contains_key(v) && final(opened)@.effective[v]
                    == report.states()[v].effective_checkpoint@
                &&& final(opened)@.ends.contains_key(v) && final(opened)@.ends[v]
                    == report.states()[v].end_seqno
            }
            &&& !report.states().contains_key(v) ==> {
                &&& final(opened)@.effective.contains_key(v) <==> old(opened)@.effective.contains_key(v)
                &&& final(opened)@.ends.contains_key(v) <==> old(opened)@.ends.contains_key(v)
                &&& old(opened)@.effective.contains_key(v) ==> final(opened)@.effective[v] == old(opened)@.effective[v]
                &&& old(opened)@.ends.contains_key(v) ==> final(opened)@.ends[v] == old(opened)@.ends[v]
            }
        },
{
    let m = old(opened)@;
    let states = report.states();
    let fault = |w: u16|
        if m.effective.contains_key(w) || m.ends.contains_key(w) {
            Some(
                crate::error::DcpFault::Topology(
                    "vBucket "@ + crate::text::dec(w as nat)
                        + " was opened on more than one node"@,
                ),
            )
        } else {
            None
        };
    keyed_fault_is_of_a_key(states.dom(), fault);
    if result is Ok && states.contains_key(v) {
        assert(states.dom().contains(v));
        assert(keyed_fault(states.dom(), fault) is None);
        assert(fault(v) is None);
    }
}

/// Opened partitions are finished by the same check as a generation.
pub proof fn finishing_checks_the_generation(
    opened: OpenedPartitions,
    effective: &BTreeMap<u16, DcpCheckpoint>,
    ends: &BTreeMap<u16, u64>,
    starts: BTreeMap<u16, StartPosition>,
    frozen: Option<&BTreeMap<u16, u64>>,
    streams: usize,
    finished: Result<()>,
    checked: Result<()>,
)
    requires
        call_ensures(OpenedPartitions::effective_checkpoints, (&opened,), effective),
        call_ensures(OpenedPartitions::end_seqnos, (&opened,), ends),
        call_ensures(OpenedPartitions::finish, (&opened, &starts, frozen, streams), finished),
        call_ensures(
            validate_opened_partitions,
            (&starts, effective, ends, frozen, streams),
            checked,
        ),
    ensures
        finished is Ok <==> checked is Ok,
{
}

/// A checkpointed stream registers every event of the stream below and hands
/// everything else on as it is.
pub proof fn checkpointed_streams_hand_on_the_items(
    coordinator: &mut CheckpointCoordinator,
    item: DcpStreamItem,
    result: Result<CheckpointStreamItem>,
)
    requires
        call_ensures(CheckpointCoordinator::wrap, (coordinator, item), result),
    ensures
        item matches DcpStreamItem::Event(event) ==> (result matches Ok(wrapped) ==> (
        wrapped matches CheckpointStreamItem::Event(t) && t.content() == event)),
        item matches DcpStreamItem::TopologyConfig { source, payload } ==> (result matches Ok(
            CheckpointStreamItem::TopologyConfig { source: s, payload: p },
        ) && s == source && p == payload && *final(coordinator) == *old(coordinator)),
        item matches DcpStreamItem::Unknown(frame) ==> (result matches Ok(
            CheckpointStreamItem::Unknown(f),
        ) && f == frame && *final(coordinator) == *old(coordinator)),
{
}

/// A stream with collection names passes everything but events as it is.
pub proof fn named_streams_hand_on_the_items(
    registry: &mut CollectionRegistry,
    item: DcpStreamItem,
    result: Result<DcpStreamItem>,
)
    requires
        call_ensures(CollectionRegistry::wrap, (registry, item), result),
    ensures
        !(item is Event) ==> result is Ok && result->Ok_0 == item && *final(registry) == *old(registry),
        item is Event && result is Ok ==> result->Ok_0 is Event,
{
}

} // verus!
