//! Laws of stream requests and of their rewinds.
use vstd::prelude::*;

use crate::checkpoint::{DcpCheckpoint, FailoverEntry};
use crate::config::{DcpMode, RollbackPolicy, StartPosition};
use crate::error::{DcpError, Result};
use crate::lists::first_where_ensures;
use crate::protocol::{StreamFilter, StreamRequest, StreamRequestResponse};
use crate::stream::{
    covering_branch, decide_rollback, find_covering_branch, policy_action, OpenProgress,
    PartitionOpening, RollbackAction, RollbackRequest, VBucketStreamRequest,
};
use crate::text::opt_text;

verus! {

/// A request that was resolved for a checkpoint asks the producer for exactly
/// that checkpoint: its sequence number and snapshot, on the checkpoint's own
/// history branch. Only a checkpoint that names no branch takes the newest one.
pub proof fn checkpoint_is_requested_on_its_own_branch(
    vbucket: u16,
    bucket_uuid: Option<&str>,
    checkpoint: DcpCheckpoint,
    mode: DcpMode,
    high_seqno: u64,
    failover_log: Vec<FailoverEntry>,
    filter: Option<StreamFilter>,
    request: VBucketStreamRequest,
    wire: StreamRequest,
)
    requires
        call_ensures(
            VBucketStreamRequest::resolve,
            (
                vbucket,
                bucket_uuid,
                &StartPosition::Checkpoint(checkpoint),
                mode,
                high_seqno,
                failover_log,
                filter,
            ),
            Ok(request),
        ),
        call_ensures(VBucketStreamRequest::wire_request, (&request,), wire),
    ensures
        wire.vbucket == vbucket == checkpoint.vbucket,
        wire.start_seqno == checkpoint.seqno,
        wire.snapshot_start == checkpoint.snapshot_start,
        wire.snapshot_end == checkpoint.snapshot_end,
        checkpoint.vbucket_uuid != 0 ==> wire.vbucket_uuid == checkpoint.vbucket_uuid,
        checkpoint.vbucket_uuid == 0 ==> wire.vbucket_uuid == failover_log@[0].vbucket_uuid,
        wire.flags == if checkpoint.seqno == 0 {
            0x30u32
        } else {
            0x10u32
        },
        wire.filter matches Some(f) ==> f.manifest_uid == checkpoint.manifest_uid,
{
    assert(0x10u32 | 0x20u32 == 0x30u32) by (bit_vector);
}

/// A start without a checkpoint begins at the origin, or at the captured high
/// sequence number, on the newest branch.
pub proof fn fresh_start_is_requested_on_the_newest_branch(
    vbucket: u16,
    bucket_uuid: Option<&str>,
    start: StartPosition,
    mode: DcpMode,
    high_seqno: u64,
    failover_log: Vec<FailoverEntry>,
    filter: Option<StreamFilter>,
    request: VBucketStreamRequest,
    wire: StreamRequest,
)
    requires
        !(start is Checkpoint),
        call_ensures(
            VBucketStreamRequest::resolve,
            (vbucket, bucket_uuid, &start, mode, high_seqno, failover_log, filter),
            Ok(request),
        ),
        call_ensures(VBucketStreamRequest::wire_request, (&request,), wire),
    ensures
        wire.vbucket == vbucket,
        wire.vbucket_uuid == failover_log@[0].vbucket_uuid,
        start is Earliest ==> wire.start_seqno == 0,
        start is Latest ==> wire.start_seqno == high_seqno,
        wire.snapshot_start == wire.start_seqno == wire.snapshot_end,
        wire.flags == 0x10,
        wire.filter matches Some(f) ==> f.manifest_uid is None,
{
}

/// Whatever the start, a finite stream ends at the captured high sequence
/// number and an infinite one never; the filter is the given one but for the
/// manifest it claims; and the effective position belongs to the bucket.
pub proof fn requests_keep_end_and_filter(
    vbucket: u16,
    bucket_uuid: Option<&str>,
    start: StartPosition,
    mode: DcpMode,
    high_seqno: u64,
    failover_log: Vec<FailoverEntry>,
    filter: Option<StreamFilter>,
    request: VBucketStreamRequest,
    wire: StreamRequest,
    effective: &DcpCheckpoint,
    end_seqno: u64,
    stream_id: Option<u16>,
)
    requires
        call_ensures(
            VBucketStreamRequest::resolve,
            (vbucket, bucket_uuid, &start, mode, high_seqno, failover_log, filter),
            Ok(request),
        ),
        call_ensures(VBucketStreamRequest::wire_request, (&request,), wire),
        call_ensures(VBucketStreamRequest::checkpoint, (&request,), effective),
        call_ensures(VBucketStreamRequest::end_seqno, (&request,), end_seqno),
        call_ensures(VBucketStreamRequest::stream_id, (&request,), stream_id),
    ensures
        wire.end_seqno == end_seqno,
        mode is Finite ==> wire.end_seqno == high_seqno,
        mode is Infinite ==> wire.end_seqno == u64::MAX,
        wire.opaque == 0,
        wire.filter is Some <==> filter is Some,
        filter matches Some(f) ==> {
            &&& wire.filter->0.scope_id == f.scope_id
            &&& wire.filter->0.collection_ids@ == f.collection_ids@
            &&& wire.filter->0.stream_id == f.stream_id
            &&& stream_id == f.stream_id
        },
        filter is None ==> stream_id is None,
        effective.vbucket == wire.vbucket,
        effective.vbucket_uuid == wire.vbucket_uuid,
        effective.seqno == wire.start_seqno,
        effective.snapshot_start == wire.snapshot_start,
        effective.snapshot_end == wire.snapshot_end,
        start matches StartPosition::Checkpoint(c) ==> (c.bucket_uuid is Some ==> opt_text(
            effective.bucket_uuid,
        ) == Some(c.bucket_uuid->0@)),
        start matches StartPosition::Checkpoint(c) ==> effective.manifest_uid == c.manifest_uid,
        (start matches StartPosition::Checkpoint(c) ==> c.bucket_uuid is None) ==> match bucket_uuid {
            Some(uuid) => opt_text(effective.bucket_uuid) == Some(uuid@),
            None => effective.bucket_uuid is None,
        },
{
    assert(opt_text(effective.bucket_uuid) == request@.position.bucket_uuid);
}

/// A checkpoint resolves exactly when the history is known, it is a consistent
/// position of this vBucket and bucket within the history, and the stream ID
/// is usable.
pub proof fn checkpoint_resolves_iff_usable(
    vbucket: u16,
    bucket_uuid: Option<&str>,
    checkpoint: DcpCheckpoint,
    mode: DcpMode,
    high_seqno: u64,
    failover_log: Vec<FailoverEntry>,
    filter: Option<StreamFilter>,
    result: Result<VBucketStreamRequest>,
)
    requires
        call_ensures(
            VBucketStreamRequest::resolve,
            (
                vbucket,
                bucket_uuid,
                &StartPosition::Checkpoint(checkpoint),
                mode,
                high_seqno,
                failover_log,
                filter,
            ),
            result,
        ),
    ensures
        result is Ok <==> {
            &&& failover_log@.len() > 0
            &&& checkpoint.vbucket == vbucket
            &&& checkpoint.snapshot_start <= checkpoint.seqno <= checkpoint.snapshot_end
            &&& bucket_uuid is Some && checkpoint.bucket_uuid is Some ==> bucket_uuid->0@
                == checkpoint.bucket_uuid->0@
            &&& checkpoint.seqno <= high_seqno
            &&& filter is Some ==> filter->0.stream_id != Some(0u16)
        },
        result matches Err(DcpError::RollbackRequired { vbucket: v, requested_seqno, rollback_seqno, failover_log: log })
            ==> v == vbucket && requested_seqno == checkpoint.seqno && rollback_seqno == high_seqno
            && high_seqno < checkpoint.seqno && log@ == failover_log@,
        failover_log@.len() > 0 && checkpoint.vbucket == vbucket && checkpoint.snapshot_start
            <= checkpoint.seqno <= checkpoint.snapshot_end && checkpoint.seqno > high_seqno
            && bucket_uuid is None ==> result matches Err(DcpError::RollbackRequired { .. }),
{
}

/// A start without a checkpoint resolves whenever the history is known and the
/// stream ID is usable.
pub proof fn fresh_start_resolves(
    vbucket: u16,
    bucket_uuid: Option<&str>,
    start: StartPosition,
    mode: DcpMode,
    high_seqno: u64,
    failover_log: Vec<FailoverEntry>,
    filter: Option<StreamFilter>,
    result: Result<VBucketStreamRequest>,
)
    requires
        !(start is Checkpoint),
        call_ensures(
            VBucketStreamRequest::resolve,
            (vbucket, bucket_uuid, &start, mode, high_seqno, failover_log, filter),
            result,
        ),
    ensures
        result is Ok <==> failover_log@.len() > 0 && (filter is Some ==> filter->0.stream_id
            != Some(0u16)),
{
}

/// The branch at `i` is the newest one that reaches back to a sequence number.
pub open spec fn newest_covering(log: Seq<FailoverEntry>, seqno: u64, i: int) -> bool {
    &&& 0 <= i < log.len()
    &&& log[i].seqno <= seqno
    &&& forall|j: int| 0 <= j < i ==> (#[trigger] log[j]).seqno > seqno
}

proof fn covering_is_newest(log: Seq<FailoverEntry>, seqno: u64)
    ensures
        covering_branch(log, seqno) matches Some(e) ==> exists|i: int|
            #[trigger] newest_covering(log, seqno, i) && log[i] == e,
        covering_branch(log, seqno) is None ==> forall|i: int|
            0 <= i < log.len() ==> (#[trigger] log[i]).seqno > seqno,
{
    let p = |e: FailoverEntry| e.seqno <= seqno;
    first_where_ensures(log, p);
    if covering_branch(log, seqno) is Some {
        let i = crate::lists::first_where(log, p)->0;
        assert forall|j: int| 0 <= j < i implies (#[trigger] log[j]).seqno > seqno by {
            assert(!p(log[j]));
        }
        assert(p(log[i]));
        assert(newest_covering(log, seqno, i));
    } else {
        assert forall|i: int| 0 <= i < log.len() implies (#[trigger] log[i]).seqno > seqno by {
            assert(!p(log[i]));
        }
    }
}

/// Of the branches that reach back to a sequence number the newest is found,
/// and one is found whenever there is any.
pub proof fn found_branch_is_the_newest_that_covers(
    log: &[FailoverEntry],
    seqno: u64,
    found: Option<FailoverEntry>,
)
    requires
        call_ensures(find_covering_branch, (log, seqno), found),
    ensures
        found matches Some(e) ==> exists|i: int|
            #[trigger] newest_covering(log@, seqno, i) && log@[i] == e,
        found is None <==> forall|i: int| 0 <= i < log@.len() ==> (#[trigger] log@[i]).seqno > seqno,
{
    covering_is_newest(log@, seqno);
}

/// A rewind starts the stream at the rollback's sequence number, on the newest
/// branch that reaches back to it, claims no manifest, and leaves the rest of
/// the request alone. Where no branch reaches back, nothing changes.
pub proof fn rewound_request_starts_on_a_covering_branch(
    request: &mut VBucketStreamRequest,
    rollback_seqno: u64,
    log: &[FailoverEntry],
    result: Result<u64>,
    wire: StreamRequest,
    before: StreamRequest,
)
    requires
        call_ensures(VBucketStreamRequest::rewind, (request, rollback_seqno, log), result),
        call_ensures(VBucketStreamRequest::wire_request, (old(request),), before),
        call_ensures(VBucketStreamRequest::wire_request, (final(request),), wire),
    ensures
        result matches Ok(branch) ==> {
            &&& wire.vbucket_uuid == branch
            &&& exists|i: int|
                #[trigger] newest_covering(log@, rollback_seqno, i) && log@[i].vbucket_uuid
                    == branch
            &&& wire.start_seqno == rollback_seqno
            &&& wire.snapshot_start == rollback_seqno
            &&& wire.snapshot_end == rollback_seqno
            &&& wire.vbucket == before.vbucket
            &&& wire.end_seqno == before.end_seqno
            &&& wire.flags == before.flags
            &&& wire.filter is Some <==> before.filter is Some
            &&& wire.filter matches Some(f) ==> {
                &&& f.manifest_uid is None
                &&& f.scope_id == before.filter->0.scope_id
                &&& f.collection_ids@ == before.filter->0.collection_ids@
                &&& f.stream_id == before.filter->0.stream_id
            }
        },
        result is Err ==> *final(request) == *old(request) && forall|i: int|
            0 <= i < log@.len() ==> (#[trigger] log@[i]).seqno > rollback_seqno,
{
    covering_is_newest(log@, rollback_seqno);
}

/// A policy that does not delegate acts by itself, whatever a handler says; one
/// that delegates does what the handler says, and fails without one.
pub proof fn policies_decide(
    policy: RollbackPolicy,
    delegated: Option<RollbackAction>,
    own: Option<RollbackAction>,
    result: Result<RollbackAction>,
)
    requires
        call_ensures(policy_action, (policy,), own),
        call_ensures(decide_rollback, (policy, delegated), result),
    ensures
        policy is StopAndReport ==> result matches Ok(RollbackAction::StopAndReport),
        policy is RewindAndReplay ==> result matches Ok(RollbackAction::RewindAndReplay),
        policy is DelegateToHandler ==> own is None,
        policy is DelegateToHandler ==> (match delegated {
            Some(action) => result is Ok && result->Ok_0 == action,
            None => result matches Err(DcpError::InvalidConfiguration(_)),
        }),
        !(policy is DelegateToHandler) ==> own is Some && result is Ok && own->0 == result->Ok_0,
{
}

/// A partition that the producer opens is opened where it was last asked for,
/// on the branch that the producer names first.
pub proof fn opened_partition_is_the_requested_one(
    opening: &mut PartitionOpening,
    entries: Vec<FailoverEntry>,
    opaque: u32,
    result: Result<OpenProgress>,
    asked: &VBucketStreamRequest,
    wire: StreamRequest,
    stream_id: Option<u16>,
)
    requires
        old(opening).traced(),
        call_ensures(
            PartitionOpening::on_response,
            (opening, &StreamRequestResponse::Opened(entries), opaque),
            result,
        ),
        call_ensures(PartitionOpening::request, (old(opening),), asked),
        call_ensures(VBucketStreamRequest::wire_request, (asked,), wire),
        call_ensures(VBucketStreamRequest::stream_id, (asked,), stream_id),
    ensures
        result is Ok <==> entries@.len() > 0,
        result matches Ok(progress) ==> (progress matches OpenProgress::Opened(state) && {
            &&& state.vbucket == wire.vbucket == state.effective_checkpoint.vbucket
            &&& state.start_seqno == wire.start_seqno == state.effective_checkpoint.seqno
            &&& state.end_seqno == wire.end_seqno
            &&& state.vbucket_uuid == entries@[0].vbucket_uuid
            &&& state.effective_checkpoint.vbucket_uuid == entries@[0].vbucket_uuid
            &&& state.effective_checkpoint.snapshot_start == wire.snapshot_start
            &&& state.effective_checkpoint.snapshot_end == wire.snapshot_end
            &&& state.stream_id == stream_id
            &&& state.opaque == opaque
        }),
        final(opening).applied() == old(opening).applied(),
{
}

/// A rollback that does not go back is refused, and so is one after sixteen
/// others; any other has to be decided about.
pub proof fn rollbacks_go_back(
    opening: &mut PartitionOpening,
    seqno: u64,
    opaque: u32,
    result: Result<OpenProgress>,
    asked: &VBucketStreamRequest,
    wire: StreamRequest,
)
    requires
        old(opening).traced(),
        call_ensures(
            PartitionOpening::on_response,
            (opening, &StreamRequestResponse::Rollback(seqno), opaque),
            result,
        ),
        call_ensures(PartitionOpening::request, (old(opening),), asked),
        call_ensures(VBucketStreamRequest::wire_request, (asked,), wire),
    ensures
        result is Ok <==> seqno < wire.start_seqno && old(opening).tries() < 16,
        result matches Ok(progress) ==> (progress matches OpenProgress::RollbackTo(to) && to
            == seqno),
        result is Ok ==> final(opening).tries() == old(opening).tries() + 1,
        final(opening).wanted() == old(opening).wanted(),
{
}

/// What a handler is asked about is the position that the producer refused.
pub proof fn handler_sees_the_refused_position(
    opening: PartitionOpening,
    rollback_seqno: u64,
    log: Vec<FailoverEntry>,
    asked: &VBucketStreamRequest,
    wire: StreamRequest,
    request: RollbackRequest,
)
    requires
        call_ensures(PartitionOpening::rollback_request, (&opening, rollback_seqno, log), request),
        call_ensures(PartitionOpening::request, (&opening,), asked),
        call_ensures(VBucketStreamRequest::wire_request, (asked,), wire),
    ensures
        request.vbucket == wire.vbucket,
        request.checkpoint.vbucket == wire.vbucket,
        request.checkpoint.seqno == wire.start_seqno,
        request.checkpoint.vbucket_uuid == wire.vbucket_uuid,
        request.checkpoint.snapshot_start == wire.snapshot_start,
        request.checkpoint.snapshot_end == wire.snapshot_end,
        request.rollback_seqno == rollback_seqno,
        request.failover_log@ == log@,
{
}

/// A replay starts at the rollback's sequence number on the newest branch that
/// reaches back to it and is recorded as such; a stop reports the rollback and
/// changes nothing.
pub proof fn rollback_action_is_carried_out(
    opening: &mut PartitionOpening,
    rollback_seqno: u64,
    log: Vec<FailoverEntry>,
    delegated: Option<RollbackAction>,
    result: Result<()>,
    asked: &VBucketStreamRequest,
    refused: StreamRequest,
    next: &VBucketStreamRequest,
    wire: StreamRequest,
)
    requires
        old(opening).traced(),
        call_ensures(PartitionOpening::on_action, (opening, rollback_seqno, log, delegated), result),
        call_ensures(PartitionOpening::request, (old(opening),), asked),
        call_ensures(VBucketStreamRequest::wire_request, (asked,), refused),
        call_ensures(PartitionOpening::request, (final(opening),), next),
        call_ensures(VBucketStreamRequest::wire_request, (next,), wire),
    ensures
        result is Ok ==> {
            &&& old(opening).policy() is RewindAndReplay || (old(opening).policy()
                is DelegateToHandler && delegated == Some(RollbackAction::RewindAndReplay))
            &&& wire.start_seqno == rollback_seqno
            &&& exists|i: int|
                #[trigger] newest_covering(log@, rollback_seqno, i) && log@[i].vbucket_uuid
                    == wire.vbucket_uuid
            &&& wire.vbucket == refused.vbucket
            &&& wire.end_seqno == refused.end_seqno
            &&& final(opening).applied().len() == old(opening).applied().len() + 1
            &&& final(opening).applied().last().vbucket == refused.vbucket
            &&& final(opening).applied().last().requested_seqno == refused.start_seqno
            &&& final(opening).applied().last().rollback_seqno == rollback_seqno
            &&& final(opening).applied().last().vbucket_uuid == wire.vbucket_uuid
        },
        result is Err ==> *final(opening) == *old(opening),
        old(opening).policy() is StopAndReport ==> (result matches Err(
            DcpError::RollbackRequired { vbucket, requested_seqno, rollback_seqno: to, failover_log },
        ) && vbucket == refused.vbucket && requested_seqno == refused.start_seqno && to
            == rollback_seqno && failover_log@ == log@),
{
    covering_is_newest(log@, rollback_seqno);
}

/// A frozen end replaces the end and nothing else, unless it lies before the
/// start.
pub proof fn frozen_end_replaces_only_the_end(
    request: VBucketStreamRequest,
    end_seqno: u64,
    result: Result<VBucketStreamRequest>,
    before: StreamRequest,
    after: StreamRequest,
)
    requires
        call_ensures(VBucketStreamRequest::with_frozen_end_seqno, (request, end_seqno), result),
        call_ensures(VBucketStreamRequest::wire_request, (&request,), before),
        result is Ok ==> call_ensures(
            VBucketStreamRequest::wire_request,
            (&result->Ok_0,),
            after,
        ),
    ensures
        result is Ok <==> before.start_seqno <= end_seqno,
        result is Ok ==> {
            &&& after.end_seqno == end_seqno
            &&& after.start_seqno == before.start_seqno
            &&& after.vbucket == before.vbucket
            &&& after.vbucket_uuid == before.vbucket_uuid
            &&& after.snapshot_start == before.snapshot_start
            &&& after.snapshot_end == before.snapshot_end
            &&& after.flags == before.flags
        },
{
}

/// Flags are added, and none is taken away.
pub proof fn flags_are_added(
    request: VBucketStreamRequest,
    flags: u32,
    more: VBucketStreamRequest,
    before: StreamRequest,
    after: StreamRequest,
)
    requires
        call_ensures(VBucketStreamRequest::with_flags, (request, flags), more),
        call_ensures(VBucketStreamRequest::wire_request, (&request,), before),
        call_ensures(VBucketStreamRequest::wire_request, (&more,), after),
    ensures
        after.flags & flags == flags,
        after.flags & before.flags == before.flags,
        after.flags & !(flags | before.flags) == 0,
        after.start_seqno == before.start_seqno,
        after.end_seqno == before.end_seqno,
        after.vbucket == before.vbucket,
        after.vbucket_uuid == before.vbucket_uuid,
{
    let a = before.flags;
    assert((a | flags) & flags == flags) by (bit_vector);
    assert((a | flags) & a == a) by (bit_vector);
    assert((a | flags) & !(flags | a) == 0) by (bit_vector);
}

} // verus!
