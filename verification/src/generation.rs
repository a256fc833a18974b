//! Opening the streams of one connection generation.
use std::collections::BTreeMap;
use vstd::prelude::*;

use crate::checkpoint::{DcpCheckpoint, FailoverEntry, Position};
use crate::checkpoint_runtime::positions_of;
use crate::config::{DcpMode, RollbackPolicy, StartPosition};
use crate::error::{agrees, checked, DcpError, DcpFault, Outcome, Result};
use crate::maps::{
    ascending, ascending_is_listed, keyed_fault, listed, sorted_keys, walked_to_fault,
    walked_without_fault,
};
use crate::protocol::{copy_opt_filter, opt_filter, FilterModel, StreamFilter};
use crate::stream::{
    asked, covering_branch, find_covering_branch, frozen_end_fault, identified, missing_handler,
    missing_handler_error, own_action, policy_action, resolved, resolved_from, rewound, uncovered,
    PartitionOpenState, RequestModel, RollbackAction, RollbackHandler, RollbackRequest,
    StreamOpenReport, VBucketStreamRequest,
};
use crate::text::{dec, dec_text, join2, join3, join4};
use crate::topology::{
    first_absent, ordered_groups, places, ClusterTopology, KvEndpoint, NodeVBuckets, Topology,
};

verus! {

broadcast use {vstd::std_specs::btree::group_btree_axioms, vstd::laws_cmp::group_laws_cmp};

/// Outcome of resolving a start against the current history.
#[derive(Debug)]
pub enum Preflight {
    /// The start can be requested as it is.
    Ready(VBucketStreamRequest),
    /// The start lies beyond the current history.
    Rollback(RollbackRequest),
}

/// The rollback request describes a checkpoint beyond the current history.
pub open spec fn describes_rollback(
    request: RollbackRequest,
    vbucket: u16,
    bucket: Seq<char>,
    wanted: Position,
    high_seqno: u64,
    log: Seq<FailoverEntry>,
) -> bool {
    &&& request.vbucket == vbucket
    &&& request.checkpoint@ == identified(wanted, Some(bucket), log[0].vbucket_uuid)
    &&& request.rollback_seqno == high_seqno
    &&& request.failover_log@ == log
}

/// The start lies beyond the current history.
pub open spec fn needs_rollback(outcome: Outcome<RequestModel>) -> bool {
    outcome matches Err(fault) && fault is RollbackRequired
}

/// Resolves a start against the current history. A checkpoint beyond the
/// history is not moved here: that is decided by the rollback policy.
pub fn begin_preflight(
    vbucket: u16,
    bucket_uuid: &str,
    start: &StartPosition,
    mode: DcpMode,
    high_seqno: u64,
    failover_log: Vec<FailoverEntry>,
    filter: &Option<StreamFilter>,
) -> (result: Result<Preflight>)
    ensures
        ({
            let outcome = resolved(
                vbucket,
                Some(bucket_uuid@),
                *start,
                mode,
                high_seqno,
                failover_log@,
                opt_filter(*filter),
            );
            match result {
                Ok(Preflight::Ready(request)) => outcome == Outcome::<RequestModel>::Ok(request@),
                Ok(Preflight::Rollback(request)) => {
                    &&& needs_rollback(outcome)
                    &&& failover_log@.len() > 0
                    &&& describes_rollback(
                        request,
                        vbucket,
                        bucket_uuid@,
                        asked(*start, vbucket, high_seqno),
                        high_seqno,
                        failover_log@,
                    )
                },
                Err(e) => outcome == Outcome::<RequestModel>::Err(e@) && !needs_rollback(outcome),
            }
        }),
{
    let ghost log = failover_log@;
    let initial = VBucketStreamRequest::resolve(
        vbucket,
        Some(bucket_uuid),
        start,
        mode,
        high_seqno,
        failover_log,
        copy_opt_filter(filter),
    );
    match initial {
        Ok(request) => Ok(Preflight::Ready(request)),
        Err(error) => match error {
            DcpError::RollbackRequired {
                vbucket: at,
                requested_seqno,
                rollback_seqno,
                failover_log: observed_log,
            } => {
                let mut rejected = match start {
                    StartPosition::Checkpoint(checkpoint) => checkpoint.clone(),
                    _ => {
                        return Err(
                            DcpError::RollbackRequired {
                                vbucket: at,
                                requested_seqno,
                                rollback_seqno,
                                failover_log: observed_log,
                            },
                        );
                    },
                };
                if rejected.bucket_uuid.is_none() {
                    rejected.bucket_uuid = Some(bucket_uuid.to_owned());
                }
                if rejected.vbucket_uuid == 0 {
                    rejected.vbucket_uuid = observed_log[0].vbucket_uuid;
                }
                Ok(
                    Preflight::Rollback(
                        RollbackRequest {
                            vbucket,
                            checkpoint: rejected,
                            rollback_seqno,
                            failover_log: observed_log,
                        },
                    ),
                )
            },
            error => Err(error),
        },
    }
}

/// Request after a decision about a checkpoint beyond the history.
pub open spec fn replayed(
    vbucket: u16,
    rejected: Position,
    rollback_seqno: u64,
    log: Seq<FailoverEntry>,
    action: RollbackAction,
    bucket: Seq<char>,
    mode: DcpMode,
    filter: Option<FilterModel>,
) -> Outcome<RequestModel> {
    match action {
        RollbackAction::StopAndReport => Err(
            DcpFault::RollbackRequired {
                vbucket,
                requested_seqno: rejected.seqno,
                rollback_seqno,
                failover_log: log,
            },
        ),
        RollbackAction::RewindAndReplay => match covering_branch(log, rollback_seqno) {
            None => Err(uncovered(vbucket, rollback_seqno)),
            Some(branch) => resolved_from(
                vbucket,
                Some(bucket),
                rewound(rejected, rollback_seqno, branch.vbucket_uuid),
                true,
                mode,
                rollback_seqno,
                log,
                filter,
            ),
        },
    }
}

/// Applies the decision about a checkpoint beyond the history.
pub fn finish_preflight(
    request: RollbackRequest,
    action: RollbackAction,
    bucket_uuid: &str,
    mode: DcpMode,
    filter: &Option<StreamFilter>,
) -> (result: Result<VBucketStreamRequest>)
    ensures
        agrees(
            result,
            replayed(
                request.vbucket,
                request.checkpoint@,
                request.rollback_seqno,
                request.failover_log@,
                action,
                bucket_uuid@,
                mode,
                opt_filter(*filter),
            ),
        ),
{
    match action {
        RollbackAction::StopAndReport => Err(
            DcpError::RollbackRequired {
                vbucket: request.vbucket,
                requested_seqno: request.checkpoint.seqno,
                rollback_seqno: request.rollback_seqno,
                failover_log: request.failover_log,
            },
        ),
        RollbackAction::RewindAndReplay => {
            match find_covering_branch(request.failover_log.as_slice(), request.rollback_seqno) {
                None => Err(
                    DcpError::Topology(
                        join4(
                            "failover log has no branch covering rollback seqno ",
                            dec_text(request.rollback_seqno).as_str(),
                            " for vBucket ",
                            dec_text(request.vbucket as u64).as_str(),
                        ),
                    ),
                ),
                Some(branch) => {
                    let mut checkpoint = request.checkpoint.clone();
                    checkpoint.vbucket_uuid = branch.vbucket_uuid;
                    checkpoint.seqno = request.rollback_seqno;
                    checkpoint.snapshot_start = request.rollback_seqno;
                    checkpoint.snapshot_end = request.rollback_seqno;
                    checkpoint.manifest_uid = None;
                    let start = StartPosition::Checkpoint(checkpoint);
                    VBucketStreamRequest::resolve(
                        request.vbucket,
                        Some(bucket_uuid),
                        &start,
                        mode,
                        request.rollback_seqno,
                        request.failover_log,
                        copy_opt_filter(filter),
                    )
                },
            }
        },
    }
}

/// Request with an end captured earlier, if there is one.
pub open spec fn frozen(outcome: Outcome<RequestModel>, end: Option<u64>) -> Outcome<RequestModel> {
    match (outcome, end) {
        (Ok(r), Some(end_seqno)) => if end_seqno < r.position.seqno {
            Err(frozen_end_fault(r.position, end_seqno))
        } else {
            Ok(RequestModel { end_seqno, ..r })
        },
        _ => outcome,
    }
}

/// Freezes the end of a request where one was captured.
pub fn apply_frozen_end_seqno(request: VBucketStreamRequest, frozen_end_seqno: Option<u64>) -> (result:
    Result<VBucketStreamRequest>)
    ensures
        agrees(result, frozen(Ok(request@), frozen_end_seqno)),
{
    match frozen_end_seqno {
        Some(end_seqno) => request.with_frozen_end_seqno(end_seqno),
        None => Ok(request),
    }
}

/// What a resolution with its count of rollbacks must be.
pub open spec fn resolution(
    result: Result<(VBucketStreamRequest, usize)>,
    outcome: Outcome<RequestModel>,
    rollbacks: usize,
) -> bool {
    match (result, outcome) {
        (Ok(pair), Ok(model)) => pair.0@ == model && pair.1 == rollbacks,
        (Err(e), Err(fault)) => e@ == fault,
        _ => false,
    }
}

/// Resolves the request of one vBucket before anything is sent. A checkpoint
/// beyond the current history is replayed only where the policy, or the
/// handler that it delegates to, says so.
pub fn resolve_vbucket_request<H: RollbackHandler>(
    vbucket: u16,
    bucket_uuid: &str,
    start: &StartPosition,
    mode: DcpMode,
    high_seqno: u64,
    failover_log: Vec<FailoverEntry>,
    filter: Option<StreamFilter>,
    rollback_policy: RollbackPolicy,
    rollback_handler: Option<&H>,
    frozen_end_seqno: Option<u64>,
) -> (result: Result<(VBucketStreamRequest, usize)>)
    ensures
        ({
            let first = resolved(
                vbucket,
                Some(bucket_uuid@),
                *start,
                mode,
                high_seqno,
                failover_log@,
                opt_filter(filter),
            );
            let wanted = asked(*start, vbucket, high_seqno);
            let rejected = identified(wanted, Some(bucket_uuid@), failover_log@[0].vbucket_uuid);
            if !needs_rollback(first) {
                resolution(result, frozen(first, frozen_end_seqno), 0)
            } else {
                match (own_action(rollback_policy), rollback_handler) {
                    (Some(action), _) => resolution(
                        result,
                        frozen(
                            replayed(
                                vbucket,
                                rejected,
                                high_seqno,
                                failover_log@,
                                action,
                                bucket_uuid@,
                                mode,
                                opt_filter(filter),
                            ),
                            frozen_end_seqno,
                        ),
                        1,
                    ),
                    (None, None) => result is Err && result->Err_0@ == missing_handler(),
                    (None, Some(handler)) => exists|
                        request: RollbackRequest,
                        reply: Result<RollbackAction>,
                    | #[trigger]
                        call_ensures(H::handle, (handler, request), reply) && describes_rollback(
                            request,
                            vbucket,
                            bucket_uuid@,
                            wanted,
                            high_seqno,
                            failover_log@,
                        ) && match reply {
                            Err(e) => result is Err && result->Err_0 == e,
                            Ok(action) => resolution(
                                result,
                                frozen(
                                    replayed(
                                        vbucket,
                                        rejected,
                                        high_seqno,
                                        failover_log@,
                                        action,
                                        bucket_uuid@,
                                        mode,
                                        opt_filter(filter),
                                    ),
                                    frozen_end_seqno,
                                ),
                                1,
                            ),
                        },
                }
            }
        }),
{
    let ghost log = failover_log@;
    let ghost wanted = asked(*start, vbucket, high_seqno);
    match begin_preflight(vbucket, bucket_uuid, start, mode, high_seqno, failover_log, &filter)? {
        Preflight::Ready(request) => {
            let request = apply_frozen_end_seqno(request, frozen_end_seqno)?;
            Ok((request, 0))
        },
        Preflight::Rollback(request) => {
            let rejected = RollbackRequest {
                vbucket: request.vbucket,
                checkpoint: request.checkpoint.clone(),
                rollback_seqno: request.rollback_seqno,
                failover_log: copy_log(request.failover_log.as_slice()),
            };
            let action = match policy_action(rollback_policy) {
                Some(action) => action,
                None => match rollback_handler {
                    None => {
                        return Err(missing_handler_error());
                    },
                    Some(handler) => {
                        assert(describes_rollback(
                            request,
                            vbucket,
                            bucket_uuid@,
                            wanted,
                            high_seqno,
                            log,
                        ));
                        let reply = handler.handle(request);
                        assert(call_ensures(H::handle, (handler, request), reply));
                        match reply {
                            Err(e) => {
                                return Err(e);
                            },
                            Ok(action) => action,
                        }
                    },
                },
            };
            let replay = finish_preflight(rejected, action, bucket_uuid, mode, &filter)?;
            let replay = apply_frozen_end_seqno(replay, frozen_end_seqno)?;
            Ok((replay, 1))
        },
    }
}

/// Copies a failover log.
pub fn copy_log(log: &[FailoverEntry]) -> (result: Vec<FailoverEntry>)
    ensures
        result@ == log@,
{
    let mut copy: Vec<FailoverEntry> = Vec::new();
    let mut i: usize = 0;
    while i < log.len()
        invariant
            i <= log@.len(),
            copy@ == log@.take(i as int),
        decreases log@.len() - i,
    {
        copy.push(log[i]);
        assert(copy@ =~= log@.take(i + 1));
        i = i + 1;
    }
    assert(log@.take(log@.len() as int) =~= log@);
    copy
}

/// A rollback is never hidden: a request for a checkpoint beyond the history
/// is reported unless a replay was decided, and a replay starts exactly at the
/// end of the history, on a branch that covers it, claiming no manifest.
pub proof fn rollback_is_never_hidden(
    vbucket: u16,
    rejected: Position,
    rollback_seqno: u64,
    log: Seq<FailoverEntry>,
    action: RollbackAction,
    bucket: Seq<char>,
    mode: DcpMode,
    filter: Option<FilterModel>,
)
    ensures
        ({
            let outcome = replayed(
                vbucket,
                rejected,
                rollback_seqno,
                log,
                action,
                bucket,
                mode,
                filter,
            );
            &&& action == RollbackAction::StopAndReport ==> needs_rollback(outcome)
            &&& outcome matches Ok(r) ==> {
                &&& action == RollbackAction::RewindAndReplay
                &&& r.position.seqno == rollback_seqno
                &&& r.position.snapshot_start == rollback_seqno
                &&& r.position.snapshot_end == rollback_seqno
                &&& r.position.manifest_uid is None
                &&& covering_branch(log, rollback_seqno) is Some
                &&& covering_branch(log, rollback_seqno)->0.seqno <= rollback_seqno
            }
        }),
{
    crate::lists::first_where_ensures(log, |e: FailoverEntry| e.seqno <= rollback_seqno);
}

/// Identity that checkpoints of a bucket carry: its UUID, or its name on
/// servers without one.
pub open spec fn identity_of(topology: Topology) -> Seq<char> {
    match topology.bucket_uuid {
        Some(uuid) => uuid,
        None => topology.bucket,
    }
}

/// Identity that checkpoints of a bucket carry.
pub fn bucket_identity(topology: &ClusterTopology) -> (result: &str)
    ensures
        result@ == identity_of(topology@),
{
    match topology.bucket_uuid() {
        Some(uuid) => uuid,
        None => topology.bucket(),
    }
}

/// An assignment without a vBucket.
pub open spec fn nothing_owned() -> DcpFault {
    DcpFault::InvalidConfiguration("a DCP subscription must own at least one vBucket"@)
}

pub(crate) fn nothing_owned_error() -> (result: DcpError)
    ensures
        result@ == nothing_owned(),
{
    DcpError::InvalidConfiguration("a DCP subscription must own at least one vBucket".to_owned())
}

/// Groups the starts of a generation by active node.
pub fn plan_generation(topology: &ClusterTopology, starts: &BTreeMap<u16, StartPosition>) -> (result:
    Result<Vec<NodeVBuckets>>)
    ensures
        match result {
            Ok(groups) => {
                &&& starts@.len() > 0
                &&& first_absent(topology@, listed(starts@.dom())) is None
                &&& ordered_groups(groups@)
                &&& forall|n: Seq<char>, v: u16|
                    #[trigger] places(groups@, n, v) <==> (starts@.contains_key(v)
                        && topology@.active_at(v) == Some(n))
            },
            Err(e) => if starts@.len() == 0 {
                e@ == nothing_owned()
            } else {
                let ids = listed(starts@.dom());
                first_absent(topology@, ids) matches Some(i) && 0 <= i < ids.len() && e@
                    == crate::topology::absent_vbucket(ids[i])
            },
        },
{
    if starts.len() == 0 {
        return Err(nothing_owned_error());
    }
    let keys = sorted_keys(starts);
    proof {
        assert forall|v: u16| keys@.contains(v) <==> #[trigger] starts@.dom().contains(v) by {
            assert(keys@.contains(v) <==> starts@.contains_key(v));
        }
        ascending_is_listed(keys@, starts@.dom());
    }
    let groups = topology.active_vbuckets_by_node(keys.as_slice())?;
    proof {
        assert forall|n: Seq<char>, v: u16|
            #[trigger] places(groups@, n, v) <==> (starts@.contains_key(v)
                && topology@.active_at(v) == Some(n)) by {
            assert(keys@.contains(v) <==> starts@.contains_key(v));
        }
    }
    Ok(groups)
}

/// Endpoint of a node that a generation connects to.
pub fn node_endpoint<'a>(topology: &'a ClusterTopology, node: &str) -> (result: Result<&'a KvEndpoint>)
    ensures
        match result {
            Ok(endpoint) => topology@.endpoints.contains(endpoint@) && endpoint@.id == node@,
            Err(e) => !topology@.nodes().contains(node@) && e@ == DcpFault::Topology(
                "node "@ + node@ + " has no KV endpoint"@,
            ),
        },
{
    match topology.endpoint(node) {
        Some(endpoint) => Ok(endpoint),
        None => Err(DcpError::Topology(join3("node ", node, " has no KV endpoint"))),
    }
}

/// Captured high sequence number of an assigned vBucket.
pub fn assigned_high_seqno(high_seqnos: &BTreeMap<u16, u64>, node: &str, vbucket: u16) -> (result:
    Result<u64>)
    ensures
        match result {
            Ok(seqno) => high_seqnos@.contains_key(vbucket) && seqno == high_seqnos@[vbucket],
            Err(e) => !high_seqnos@.contains_key(vbucket) && e@ == DcpFault::Topology(
                "node "@ + node@ + " omitted active high seqno for assigned vBucket "@ + dec(
                    vbucket as nat,
                ),
            ),
        },
{
    match high_seqnos.get(&vbucket) {
        Some(seqno) => Ok(*seqno),
        None => Err(
            DcpError::Topology(
                join4(
                    "node ",
                    node,
                    " omitted active high seqno for assigned vBucket ",
                    dec_text(vbucket as u64).as_str(),
                ),
            ),
        ),
    }
}

/// Start of an assigned vBucket.
pub fn assigned_start(starts: &BTreeMap<u16, StartPosition>, vbucket: u16) -> (result: Result<
    &StartPosition,
>)
    ensures
        match result {
            Ok(start) => starts@.contains_key(vbucket) && *start == starts@[vbucket],
            Err(e) => !starts@.contains_key(vbucket) && e@ == DcpFault::Topology(
                "missing start position for vBucket "@ + dec(vbucket as nat),
            ),
        },
{
    match starts.get(&vbucket) {
        Some(start) => Ok(start),
        None => Err(
            DcpError::Topology(
                join2(
                    "missing start position for vBucket ",
                    dec_text(vbucket as u64).as_str(),
                ),
            ),
        ),
    }
}

/// Frozen end of an assigned vBucket, where ends are frozen.
pub fn assigned_end(frozen_end_seqnos: Option<&BTreeMap<u16, u64>>, vbucket: u16) -> (result: Result<
    Option<u64>,
>)
    ensures
        match frozen_end_seqnos {
            None => result matches Ok(None),
            Some(ends) => match result {
                Ok(Some(end)) => ends@.contains_key(vbucket) && end == ends@[vbucket],
                Ok(None) => false,
                Err(e) => !ends@.contains_key(vbucket) && e@ == DcpFault::Topology(
                    "missing frozen end seqno for vBucket "@ + dec(vbucket as nat),
                ),
            },
        },
{
    match frozen_end_seqnos {
        None => Ok(None),
        Some(ends) => match ends.get(&vbucket) {
            Some(end) => Ok(Some(*end)),
            None => Err(
                DcpError::Topology(
                    join2(
                        "missing frozen end seqno for vBucket ",
                        dec_text(vbucket as u64).as_str(),
                    ),
                ),
            ),
        },
    }
}

/// Adds the rollbacks of one vBucket to those of its node.
pub fn count_preflight_rollbacks(total: usize, more: usize, vbucket: u16) -> (result: Result<usize>)
    ensures
        match result {
            Ok(sum) => sum == total + more,
            Err(e) => total + more > usize::MAX && e@ == (DcpFault::Stream {
                vbucket,
                message: "preflight rollback counter overflow"@,
            }),
        },
{
    match total.checked_add(more) {
        Some(sum) => Ok(sum),
        None => Err(
            DcpError::Stream {
                vbucket,
                message: "preflight rollback counter overflow".to_owned(),
            },
        ),
    }
}

/// Comma-separated identifiers.
pub open spec fn id_items(ids: Seq<u16>) -> Seq<char>
    decreases ids.len(),
{
    if ids.len() == 0 {
        ""@
    } else if ids.len() == 1 {
        dec(ids[0] as nat)
    } else {
        id_items(ids.drop_last()) + ", "@ + dec(ids.last() as nat)
    }
}

/// Rendering of a set of identifiers in increasing order.
pub open spec fn set_text(set: Set<u16>) -> Seq<char> {
    "{"@ + id_items(listed(set)) + "}"@
}

/// Comma-separated identifiers with their values.
pub open spec fn end_items(ids: Seq<u16>, ends: Map<u16, u64>) -> Seq<char>
    decreases ids.len(),
{
    if ids.len() == 0 {
        ""@
    } else if ids.len() == 1 {
        dec(ids[0] as nat) + ": "@ + dec(ends[ids[0]] as nat)
    } else {
        end_items(ids.drop_last(), ends) + ", "@ + (dec(ids.last() as nat) + ": "@ + dec(
            ends[ids.last()] as nat,
        ))
    }
}

/// Rendering of ends by vBucket in increasing order.
pub open spec fn ends_text(ends: Map<u16, u64>) -> Seq<char> {
    "{"@ + end_items(listed(ends.dom()), ends) + "}"@
}

fn render_keys<V>(map: &BTreeMap<u16, V>) -> (result: String)
    ensures
        result@ == set_text(map@.dom()),
{
    let keys = sorted_keys(map);
    proof {
        assert forall|v: u16| keys@.contains(v) <==> #[trigger] map@.dom().contains(v) by {
            assert(keys@.contains(v) <==> map@.contains_key(v));
        }
        ascending_is_listed(keys@, map@.dom());
    }
    let mut items = String::new();
    let mut i: usize = 0;
    assert(keys@.take(0) =~= Seq::empty());
    proof {
        reveal_strlit("");
        assert(items@ =~= ""@);
    }
    while i < keys.len()
        invariant
            i <= keys@.len(),
            items@ == id_items(keys@.take(i as int)),
        decreases keys@.len() - i,
    {
        proof {
            let next = keys@.take(i + 1);
            assert(next.drop_last() =~= keys@.take(i as int));
            assert(next.last() == keys@[i as int]);
        }
        if i == 0 {
            items = dec_text(keys[0] as u64);
        } else {
            items = join3(items.as_str(), ", ", dec_text(keys[i] as u64).as_str());
        }
        i = i + 1;
    }
    assert(keys@.take(keys@.len() as int) =~= keys@);
    join3("{", items.as_str(), "}")
}

fn render_ends(map: &BTreeMap<u16, u64>) -> (result: String)
    ensures
        result@ == ends_text(map@),
{
    let keys = sorted_keys(map);
    proof {
        assert forall|v: u16| keys@.contains(v) <==> #[trigger] map@.dom().contains(v) by {
            assert(keys@.contains(v) <==> map@.contains_key(v));
        }
        ascending_is_listed(keys@, map@.dom());
    }
    let mut items = String::new();
    let mut i: usize = 0;
    assert(keys@.take(0) =~= Seq::empty());
    proof {
        reveal_strlit("");
        assert(items@ =~= ""@);
    }
    while i < keys.len()
        invariant
            i <= keys@.len(),
            forall|v: u16| keys@.contains(v) <==> #[trigger] map@.contains_key(v),
            items@ == end_items(keys@.take(i as int), map@),
        decreases keys@.len() - i,
    {
        let v: u16 = keys[i];
        proof {
            let next = keys@.take(i + 1);
            assert(next.drop_last() =~= keys@.take(i as int));
            assert(next.last() == v);
            assert(keys@.contains(v));
            assert(map@.contains_key(v));
        }
        if let Some(end) = map.get(&v) {
            let item = join3(dec_text(v as u64).as_str(), ": ", dec_text(*end).as_str());
            if i == 0 {
                items = item;
            } else {
                items = join3(items.as_str(), ", ", item.as_str());
            }
        }
        i = i + 1;
    }
    assert(keys@.take(keys@.len() as int) =~= keys@);
    join3("{", items.as_str(), "}")
}

/// What is wrong with the end of an opened vBucket, if anything.
pub open spec fn end_fault(v: u16, p: Position, end: u64) -> Option<DcpFault> {
    if end < p.seqno {
        Some(
            DcpFault::Stream {
                vbucket: v,
                message: "stream end "@ + dec(end as nat) + " is behind effective start "@ + dec(
                    p.seqno as nat,
                ),
            },
        )
    } else {
        None
    }
}

/// What is wrong with what was opened, if anything.
pub open spec fn opened_fault(
    requested: Set<u16>,
    effective: Map<u16, Position>,
    ends: Map<u16, u64>,
    frozen_ends: Option<Map<u16, u64>>,
    streams: nat,
) -> Option<DcpFault> {
    if requested != effective.dom() {
        Some(
            DcpFault::Topology(
                "opened vBuckets "@ + set_text(effective.dom())
                    + " do not match requested vBuckets "@ + set_text(requested),
            ),
        )
    } else if requested != ends.dom() {
        Some(
            DcpFault::Topology(
                "opened end-seqno vBuckets "@ + set_text(ends.dom())
                    + " do not match requested vBuckets "@ + set_text(requested),
            ),
        )
    } else if frozen_ends is Some && frozen_ends->0 != ends {
        Some(
            DcpFault::Stream {
                vbucket: 0,
                message: "reopened finite endpoints "@ + ends_text(ends)
                    + " do not match frozen endpoints "@ + ends_text(frozen_ends->0),
            },
        )
    } else {
        let fault = keyed_fault(effective.dom(), |v: u16| end_fault(v, effective[v], ends[v]));
        if fault is Some {
            fault
        } else if streams == 0 {
            Some(DcpFault::Topology("a DCP generation opened no node connections"@))
        } else {
            None
        }
    }
}

fn same_keys<A, B>(a: &BTreeMap<u16, A>, b: &BTreeMap<u16, B>) -> (result: bool)
    ensures
        result == (a@.dom() == b@.dom()),
{
    let x = sorted_keys(a);
    let y = sorted_keys(b);
    proof {
        assert forall|v: u16| x@.contains(v) <==> #[trigger] a@.dom().contains(v) by {
            assert(x@.contains(v) <==> a@.contains_key(v));
        }
        assert forall|v: u16| y@.contains(v) <==> #[trigger] b@.dom().contains(v) by {
            assert(y@.contains(v) <==> b@.contains_key(v));
        }
        ascending_is_listed(x@, a@.dom());
        ascending_is_listed(y@, b@.dom());
    }
    let n: usize = x.len();
    if n != y.len() {
        return false;
    }
    let mut i: usize = 0;
    while i < n
        invariant
            i <= n,
            n == x@.len(),
            n == y@.len(),
            x@ == listed(a@.dom()),
            y@ == listed(b@.dom()),
            forall|j: int| 0 <= j < i ==> x@[j] == y@[j],
        decreases n - i,
    {
        if x[i] != y[i] {
            return false;
        }
        i = i + 1;
    }
    proof {
        assert(x@ =~= y@);
        assert forall|v: u16| a@.dom().contains(v) == #[trigger] b@.dom().contains(v) by {
            assert(x@.contains(v) <==> a@.dom().contains(v));
        }
        assert(a@.dom() =~= b@.dom());
    }
    true
}

fn same_ends(a: &BTreeMap<u16, u64>, b: &BTreeMap<u16, u64>) -> (result: bool)
    ensures
        result == (a@ == b@),
{
    if !same_keys(a, b) {
        return false;
    }
    let keys = sorted_keys(a);
    let mut i: usize = 0;
    while i < keys.len()
        invariant
            i <= keys@.len(),
            a@.dom() == b@.dom(),
            forall|v: u16| keys@.contains(v) <==> #[trigger] a@.contains_key(v),
            forall|j: int| 0 <= j < i ==> a@[#[trigger] keys@[j]] == b@[keys@[j]],
        decreases keys@.len() - i,
    {
        let v: u16 = keys[i];
        proof {
            assert(keys@.contains(v));
            assert(a@.contains_key(v));
            assert(b@.dom().contains(v));
        }
        if let (Some(x), Some(y)) = (a.get(&v), b.get(&v)) {
            if *x != *y {
                return false;
            }
        }
        i = i + 1;
    }
    proof {
        assert forall|v: u16| #[trigger] a@.contains_key(v) implies a@[v] == b@[v] by {
            assert(keys@.contains(v));
            let k = choose|k: int| 0 <= k < keys@.len() && keys@[k] == v;
            assert(a@[keys@[k]] == b@[keys@[k]]);
        }
        assert(a@ =~= b@);
    }
    true
}

/// Checks that exactly the requested vBuckets were opened, up to the frozen
/// ends where there are any.
pub fn validate_opened_partitions(
    starts: &BTreeMap<u16, StartPosition>,
    effective: &BTreeMap<u16, DcpCheckpoint>,
    end_seqnos: &BTreeMap<u16, u64>,
    frozen_end_seqnos: Option<&BTreeMap<u16, u64>>,
    stream_count: usize,
) -> (result: Result<()>)
    ensures
        checked(
            result,
            opened_fault(
                starts@.dom(),
                positions_of(effective@),
                end_seqnos@,
                frozen_of(frozen_end_seqnos),
                stream_count as nat,
            ),
        ),
{
    let ghost positions = positions_of(effective@);
    assert(positions.dom() =~= effective@.dom());
    if !same_keys(starts, effective) {
        return Err(
            DcpError::Topology(
                join4(
                    "opened vBuckets ",
                    render_keys(effective).as_str(),
                    " do not match requested vBuckets ",
                    render_keys(starts).as_str(),
                ),
            ),
        );
    }
    if !same_keys(starts, end_seqnos) {
        return Err(
            DcpError::Topology(
                join4(
                    "opened end-seqno vBuckets ",
                    render_keys(end_seqnos).as_str(),
                    " do not match requested vBuckets ",
                    render_keys(starts).as_str(),
                ),
            ),
        );
    }
    if let Some(ends) = frozen_end_seqnos {
        if !same_ends(ends, end_seqnos) {
            return Err(
                DcpError::Stream {
                    vbucket: 0,
                    message: join4(
                        "reopened finite endpoints ",
                        render_ends(end_seqnos).as_str(),
                        " do not match frozen endpoints ",
                        render_ends(ends).as_str(),
                    ),
                },
            );
        }
    }
    let keys = sorted_keys(effective);
    let ghost fault = |v: u16| end_fault(v, positions[v], end_seqnos@[v]);
    let mut i: usize = 0;
    while i < keys.len()
        invariant
            i <= keys@.len(),
            positions == positions_of(effective@),
            positions.dom() == effective@.dom(),
            starts@.dom() == effective@.dom(),
            starts@.dom() == end_seqnos@.dom(),
            frozen_of(frozen_end_seqnos) matches Some(ends) ==> ends == end_seqnos@,
            fault == (|v: u16| end_fault(v, positions[v], end_seqnos@[v])),
            ascending(keys@),
            forall|v: u16| keys@.contains(v) <==> #[trigger] effective@.contains_key(v),
            forall|j: int| 0 <= j < i ==> fault(#[trigger] keys@[j]) is None,
        decreases keys@.len() - i,
    {
        let v: u16 = keys[i];
        proof {
            assert(keys@.contains(v));
            assert(effective@.contains_key(v));
            assert(end_seqnos@.dom().contains(v));
        }
        if let (Some(checkpoint), Some(end)) = (effective.get(&v), end_seqnos.get(&v)) {
            assert(positions[v] == checkpoint@);
            if *end < checkpoint.seqno {
                proof {
                    walked_to_fault(keys@, positions.dom(), fault, i as int);
                }
                return Err(
                    DcpError::Stream {
                        vbucket: v,
                        message: join4(
                            "stream end ",
                            dec_text(*end).as_str(),
                            " is behind effective start ",
                            dec_text(checkpoint.seqno).as_str(),
                        ),
                    },
                );
            }
            assert(fault(keys@[i as int]) is None);
        }
        i = i + 1;
    }
    proof {
        walked_without_fault(keys@, positions.dom(), fault);
    }
    if stream_count == 0 {
        return Err(DcpError::Topology("a DCP generation opened no node connections".to_owned()));
    }
    Ok(())
}

/// Content of optional frozen ends.
pub open spec fn frozen_of(ends: Option<&BTreeMap<u16, u64>>) -> Option<Map<u16, u64>> {
    match ends {
        Some(map) => Some(map@),
        None => None,
    }
}

/// A generation passes only if it opened exactly the requested vBuckets, each
/// up to an end at or after its start, and a finite end once captured is never
/// moved.
pub proof fn accepted_generation_is_exact(
    requested: Set<u16>,
    effective: Map<u16, Position>,
    ends: Map<u16, u64>,
    frozen_ends: Option<Map<u16, u64>>,
    streams: nat,
)
    requires
        opened_fault(requested, effective, ends, frozen_ends, streams) is None,
    ensures
        effective.dom() == requested,
        ends.dom() == requested,
        frozen_ends matches Some(kept) ==> ends == kept,
        forall|v: u16| #[trigger] requested.contains(v) ==> effective[v].seqno <= ends[v],
        streams > 0,
{
    let fault = |v: u16| end_fault(v, effective[v], ends[v]);
    assert forall|v: u16| #[trigger] requested.contains(v) implies effective[v].seqno
        <= ends[v] by {
        if fault(v) is Some {
            faulty_key_is_reported(effective.dom(), fault, v);
        }
    }
}

proof fn faulty_key_is_reported<F>(keys: Set<u16>, fault: spec_fn(u16) -> Option<F>, v: u16)
    requires
        keys.contains(v),
        fault(v) is Some,
    ensures
        keyed_fault(keys, fault) is Some,
    decreases v,
{
    if forall|w: u16| #[trigger] keys.contains(w) && w < v ==> fault(w) is None {
        crate::maps::keyed_fault_is(keys, fault, v);
    } else {
        let w = choose|w: u16| #[trigger] keys.contains(w) && w < v && fault(w) is Some;
        faulty_key_is_reported(keys, fault, w);
    }
}

/// What the nodes of one generation opened so far.
pub struct OpenedPartitions {
    effective_checkpoints: BTreeMap<u16, DcpCheckpoint>,
    end_seqnos: BTreeMap<u16, u64>,
    rollback_count: usize,
}

/// Content of what was opened.
pub struct OpenedModel {
    pub effective: Map<u16, Position>,
    pub ends: Map<u16, u64>,
    pub rollbacks: nat,
}

impl View for OpenedPartitions {
    type V = OpenedModel;

    closed spec fn view(&self) -> OpenedModel {
        OpenedModel {
            effective: positions_of(self.effective_checkpoints@),
            ends: self.end_seqnos@,
            rollbacks: self.rollback_count as nat,
        }
    }
}

/// Why the report of one more node is refused, if it is.
pub open spec fn node_fault(
    m: OpenedModel,
    preflight_rollbacks: nat,
    states: Map<u16, PartitionOpenState>,
    rollbacks: nat,
) -> Option<DcpFault> {
    if m.rollbacks + preflight_rollbacks + rollbacks > usize::MAX {
        Some(DcpFault::Stream { vbucket: 0, message: "rollback counter overflow"@ })
    } else {
        keyed_fault(
            states.dom(),
            |v: u16|
                if m.effective.contains_key(v) || m.ends.contains_key(v) {
                    Some(
                        DcpFault::Topology(
                            "vBucket "@ + dec(v as nat) + " was opened on more than one node"@,
                        ),
                    )
                } else {
                    None
                },
        )
    }
}

/// What was opened once the report of one more node is taken in.
pub open spec fn with_node(
    m: OpenedModel,
    preflight_rollbacks: nat,
    states: Map<u16, PartitionOpenState>,
    rollbacks: nat,
) -> OpenedModel {
    OpenedModel {
        effective: m.effective.union_prefer_right(
            states.map_values(|s: PartitionOpenState| s.effective_checkpoint@),
        ),
        ends: m.ends.union_prefer_right(states.map_values(|s: PartitionOpenState| s.end_seqno)),
        rollbacks: m.rollbacks + preflight_rollbacks + rollbacks,
    }
}

proof fn with_node_keys(
    m: OpenedModel,
    preflight_rollbacks: nat,
    states: Map<u16, PartitionOpenState>,
    rollbacks: nat,
    v: u16,
)
    ensures
        ({
            let n = with_node(m, preflight_rollbacks, states, rollbacks);
            &&& n.effective.contains_key(v) <==> (m.effective.contains_key(v)
                || states.contains_key(v))
            &&& n.ends.contains_key(v) <==> (m.ends.contains_key(v) || states.contains_key(v))
        }),
{
}

impl OpenedPartitions {
    /// Nothing opened yet.
    pub fn new() -> (result: Self)
        ensures
            result@ == (OpenedModel {
                effective: Map::empty(),
                ends: Map::empty(),
                rollbacks: 0,
            }),
    {
        let effective_checkpoints: BTreeMap<u16, DcpCheckpoint> = BTreeMap::new();
        assert(positions_of(effective_checkpoints@) =~= Map::empty());
        OpenedPartitions { effective_checkpoints, end_seqnos: BTreeMap::new(), rollback_count: 0 }
    }

    /// Effective start of every opened vBucket.
    pub fn effective_checkpoints(&self) -> (result: &BTreeMap<u16, DcpCheckpoint>)
        ensures
            positions_of(result@) == self@.effective,
    {
        &self.effective_checkpoints
    }

    /// End of every opened vBucket.
    pub fn end_seqnos(&self) -> (result: &BTreeMap<u16, u64>)
        ensures
            result@ == self@.ends,
    {
        &self.end_seqnos
    }

    /// Rewinds that were applied.
    pub fn rollback_count(&self) -> (result: usize)
        ensures
            result == self@.rollbacks,
    {
        self.rollback_count
    }

    /// Takes in the report of one more node. A vBucket that another node
    /// already opened is refused.
    pub fn add_node(&mut self, preflight_rollbacks: usize, report: &StreamOpenReport) -> (result:
        Result<()>)
        ensures
            ({
                let rollbacks = report.applied().len();
                let fault = node_fault(
                    old(self)@,
                    preflight_rollbacks as nat,
                    report.states(),
                    rollbacks,
                );
                &&& checked(result, fault)
                &&& final(self)@ == if fault is Some {
                    old(self)@
                } else {
                    with_node(old(self)@, preflight_rollbacks as nat, report.states(), rollbacks)
                }
            }),
    {
        let ghost start = self@;
        let ghost states = report.states();
        let more: usize = report.rollbacks().len();
        let total: usize = match preflight_rollbacks.checked_add(more) {
            Some(of_node) => match self.rollback_count.checked_add(of_node) {
                Some(total) => total,
                None => {
                    return Err(counter_overflow());
                },
            },
            None => {
                return Err(counter_overflow());
            },
        };
        let ghost fault = |v: u16|
            if start.effective.contains_key(v) || start.ends.contains_key(v) {
                Some(
                    DcpFault::Topology(
                        "vBucket "@ + dec(v as nat) + " was opened on more than one node"@,
                    ),
                )
            } else {
                None
            };
        let partitions = report.partitions();
        let keys = sorted_keys(partitions);
        let mut i: usize = 0;
        while i < keys.len()
            invariant
                i <= keys@.len(),
                *self == *old(self),
                start == self@,
                states == partitions@,
                states == report.states(),
                more == report.applied().len(),
                start.rollbacks + preflight_rollbacks + more <= usize::MAX,
                fault == (|v: u16|
                    if start.effective.contains_key(v) || start.ends.contains_key(v) {
                        Some(
                            DcpFault::Topology(
                                "vBucket "@ + dec(v as nat) + " was opened on more than one node"@,
                            ),
                        )
                    } else {
                        None
                    }),
                ascending(keys@),
                forall|v: u16| keys@.contains(v) <==> #[trigger] partitions@.contains_key(v),
                forall|j: int| 0 <= j < i ==> fault(#[trigger] keys@[j]) is None,
            decreases keys@.len() - i,
        {
            let v: u16 = keys[i];
            if self.effective_checkpoints.contains_key(&v) || self.end_seqnos.contains_key(&v) {
                proof {
                    walked_to_fault(keys@, states.dom(), fault, i as int);
                }
                return Err(
                    DcpError::Topology(
                        join3(
                            "vBucket ",
                            dec_text(v as u64).as_str(),
                            " was opened on more than one node",
                        ),
                    ),
                );
            }
            assert(fault(keys@[i as int]) is None);
            i = i + 1;
        }
        proof {
            walked_without_fault(keys@, states.dom(), fault);
        }
        let ghost goal = with_node(start, preflight_rollbacks as nat, states, more as nat);
        i = 0;
        while i < keys.len()
            invariant
                i <= keys@.len(),
                states == partitions@,
                goal == with_node(start, preflight_rollbacks as nat, states, more as nat),
                self.rollback_count == start.rollbacks,
                forall|v: u16| keys@.contains(v) <==> #[trigger] partitions@.contains_key(v),
                forall|v: u16| #[trigger]
                    self@.effective.contains_key(v) <==> (start.effective.contains_key(v)
                        || keys@.take(i as int).contains(v)),
                forall|v: u16| #[trigger]
                    self@.effective.contains_key(v) ==> self@.effective[v] == if keys@.take(
                        i as int,
                    ).contains(v) {
                        goal.effective[v]
                    } else {
                        start.effective[v]
                    },
                forall|v: u16| #[trigger]
                    self@.ends.contains_key(v) <==> (start.ends.contains_key(v) || keys@.take(
                        i as int,
                    ).contains(v)),
                forall|v: u16| #[trigger]
                    self@.ends.contains_key(v) ==> self@.ends[v] == if keys@.take(
                        i as int,
                    ).contains(v) {
                        goal.ends[v]
                    } else {
                        start.ends[v]
                    },
            decreases keys@.len() - i,
        {
            let v: u16 = keys[i];
            let ghost done = keys@.take(i as int);
            let ghost next = keys@.take(i + 1);
            let ghost prior = self@;
            proof {
                assert(keys@.contains(v));
                assert(partitions@.contains_key(v));
                assert(next =~= done.push(v));
                assert forall|w: u16| next.contains(w) <==> (#[trigger] done.contains(w) || w
                    == v) by {
                    if done.contains(w) {
                        let k = choose|k: int| 0 <= k < done.len() && done[k] == w;
                        assert(next[k] == w);
                    }
                    if w == v {
                        assert(next[i as int] == w);
                    }
                }
            }
            if let Some(state) = partitions.get(&v) {
                assert(goal.effective[v] == state.effective_checkpoint@);
                assert(goal.ends[v] == state.end_seqno);
                let checkpoint = state.effective_checkpoint.clone();
                self.effective_checkpoints.insert(v, checkpoint);
                self.end_seqnos.insert(v, state.end_seqno);
                assert(self@.effective =~= prior.effective.insert(v, goal.effective[v]));
                assert(self@.ends =~= prior.ends.insert(v, goal.ends[v]));
            }
            proof {
                assert forall|w: u16| #[trigger] self@.effective.contains_key(w) <==> (
                start.effective.contains_key(w) || next.contains(w)) by {
                    assert(next.contains(w) <==> (done.contains(w) || w == v));
                    if w != v {
                        assert(self@.effective.contains_key(w) <==> prior.effective.contains_key(w));
                    }
                }
                assert forall|w: u16| #[trigger] self@.effective.contains_key(
                    w,
                ) implies self@.effective[w] == if next.contains(w) {
                    goal.effective[w]
                } else {
                    start.effective[w]
                } by {
                    assert(next.contains(w) <==> (done.contains(w) || w == v));
                    if w != v {
                        assert(prior.effective.contains_key(w));
                    }
                }
                assert forall|w: u16| #[trigger] self@.ends.contains_key(w) <==> (
                start.ends.contains_key(w) || next.contains(w)) by {
                    assert(next.contains(w) <==> (done.contains(w) || w == v));
                    if w != v {
                        assert(self@.ends.contains_key(w) <==> prior.ends.contains_key(w));
                    }
                }
                assert forall|w: u16| #[trigger] self@.ends.contains_key(w) implies self@.ends[w]
                    == if next.contains(w) {
                    goal.ends[w]
                } else {
                    start.ends[w]
                } by {
                    assert(next.contains(w) <==> (done.contains(w) || w == v));
                    if w != v {
                        assert(prior.ends.contains_key(w));
                    }
                }
            }
            i = i + 1;
        }
        proof {
            assert(keys@.take(keys@.len() as int) =~= keys@);
            assert forall|v: u16| keys@.contains(v) == #[trigger] states.contains_key(v) by {
                assert(keys@.contains(v) <==> partitions@.contains_key(v));
            }
            assert forall|v: u16| #[trigger] self@.effective.contains_key(v)
                == goal.effective.contains_key(v) by {
                with_node_keys(start, preflight_rollbacks as nat, states, more as nat, v);
                assert(keys@.contains(v) == states.contains_key(v));
            }
            assert forall|v: u16| #[trigger] self@.ends.contains_key(v) == goal.ends.contains_key(
                v,
            ) by {
                with_node_keys(start, preflight_rollbacks as nat, states, more as nat, v);
                assert(keys@.contains(v) == states.contains_key(v));
            }
            assert forall|v: u16| #[trigger] self@.effective.contains_key(v) implies self@.effective[v]
                == goal.effective[v] by {
                assert(keys@.contains(v) == states.contains_key(v));
            }
            assert forall|v: u16| #[trigger] self@.ends.contains_key(v) implies self@.ends[v]
                == goal.ends[v] by {
                assert(keys@.contains(v) == states.contains_key(v));
            }
            assert(self@.effective =~= goal.effective);
            assert(self@.ends =~= goal.ends);
        }
        self.rollback_count = total;
        Ok(())
    }

    /// Checks the complete generation.
    pub fn finish(
        &self,
        starts: &BTreeMap<u16, StartPosition>,
        frozen_end_seqnos: Option<&BTreeMap<u16, u64>>,
        stream_count: usize,
    ) -> (result: Result<()>)
        ensures
            checked(
                result,
                if stream_count == 0 {
                    Some(
                        DcpFault::Topology(
                            "the active topology produced no node-level DCP streams"@,
                        ),
                    )
                } else {
                    opened_fault(
                        starts@.dom(),
                        self@.effective,
                        self@.ends,
                        frozen_of(frozen_end_seqnos),
                        stream_count as nat,
                    )
                },
            ),
    {
        if stream_count == 0 {
            return Err(
                DcpError::Topology(
                    "the active topology produced no node-level DCP streams".to_owned(),
                ),
            );
        }
        validate_opened_partitions(
            starts,
            &self.effective_checkpoints,
            &self.end_seqnos,
            frozen_end_seqnos,
            stream_count,
        )
    }
}

fn counter_overflow() -> (result: DcpError)
    ensures
        result@ == (DcpFault::Stream { vbucket: 0, message: "rollback counter overflow"@ }),
{
    DcpError::Stream { vbucket: 0, message: "rollback counter overflow".to_owned() }
}

} // verus!
