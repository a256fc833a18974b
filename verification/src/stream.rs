//! Stream requests, partition opening, per-partition progress and flow credit.
use std::collections::BTreeMap;
use vstd::prelude::*;

use crate::bootstrap::{BootstrapCapabilities, DcpControlFeature, HelloFeature};
use crate::checkpoint::{DcpCheckpoint, FailoverEntry, Position};
use crate::config::{DcpMode, FlowControlConfig, RollbackPolicy, StartPosition};
use crate::error::{
    agrees, checked, malformed_dcp, malformed_dcp_fault, DcpError, DcpFault, Outcome,
    ProtocolError, ProtocolFault, Result,
};
use crate::event::{
    DataType, DcpDeletion, DcpEvent, DcpExpiration, DcpMutation, OsoSnapshot, SeqNoAdvanced,
    SnapshotFlags, SnapshotMarker, StreamEnd, StreamEndReason, SystemEvent, SystemEventKind,
};
use crate::lists::{first_fault, first_fault_found, first_where, first_where_is, first_where_is_none};
use crate::protocol::{
    copy_opt_filter, opt_filter, DcpMessage, FilterModel, Frame, StreamFilter, StreamRequest,
    StreamRequestResponse, WireSystemEventKind, OPCODE_GET_CLUSTER_CONFIG, STREAM_ACTIVE_ONLY,
    STREAM_STRICT_VBUUID,
};
use crate::text::{
    dec, dec_opt, dec_opt_text, dec_text, hex2, hex2_text, join2, join3, join4, join6, join8,
    same_text,
};

verus! {

broadcast use {vstd::std_specs::btree::group_btree_axioms, vstd::laws_cmp::group_laws_cmp};

/// Consecutive rollback responses after which a producer is given up.
pub const MAX_ROLLBACK_ATTEMPTS: usize = 16;

/// Content of a resolved stream request.
pub struct RequestModel {
    pub position: Position,
    pub end_seqno: u64,
    pub flags: u32,
    pub filter: Option<FilterModel>,
}

impl RequestModel {
    /// Multiplexed stream ID.
    pub open spec fn stream(self) -> Option<u16> {
        match self.filter {
            Some(f) => f.stream_id,
            None => None,
        }
    }
}

/// Resolved request for one vBucket DCP stream.
#[derive(Debug, Eq, PartialEq)]
pub struct VBucketStreamRequest {
    checkpoint: DcpCheckpoint,
    end_seqno: u64,
    flags: u32,
    filter: Option<StreamFilter>,
}

impl View for VBucketStreamRequest {
    type V = RequestModel;

    closed spec fn view(&self) -> RequestModel {
        RequestModel {
            position: self.checkpoint@,
            end_seqno: self.end_seqno,
            flags: self.flags,
            filter: opt_filter(self.filter),
        }
    }
}

/// Content of optional borrowed text.
pub open spec fn opt_str(s: Option<&str>) -> Option<Seq<char>> {
    match s {
        Some(t) => Some(t@),
        None => None,
    }
}

/// Position that a start asks for.
pub open spec fn asked(start: StartPosition, vbucket: u16, high_seqno: u64) -> Position {
    let origin = Position {
        bucket_uuid: None,
        vbucket,
        vbucket_uuid: 0,
        seqno: 0,
        snapshot_start: 0,
        snapshot_end: 0,
        manifest_uid: None,
    };
    match start {
        StartPosition::Earliest => origin,
        StartPosition::Latest => origin.moved(high_seqno, high_seqno, high_seqno),
        StartPosition::Checkpoint(checkpoint) => checkpoint@,
    }
}

/// Position with the identities that it leaves open filled in.
pub open spec fn identified(p: Position, bucket_uuid: Option<Seq<char>>, branch: u64) -> Position {
    Position {
        bucket_uuid: if p.bucket_uuid is None {
            bucket_uuid
        } else {
            p.bucket_uuid
        },
        vbucket_uuid: if p.vbucket_uuid == 0 {
            branch
        } else {
            p.vbucket_uuid
        },
        ..p
    }
}

/// Why a start position cannot be used at all, if it cannot.
pub open spec fn start_fault(
    vbucket: u16,
    bucket_uuid: Option<Seq<char>>,
    p: Position,
) -> Option<DcpFault> {
    if p.vbucket != vbucket {
        Some(
            DcpFault::Checkpoint(
                "checkpoint vBucket "@ + dec(p.vbucket as nat)
                    + " does not match requested vBucket "@ + dec(vbucket as nat),
            ),
        )
    } else if p.fault() is Some {
        p.fault()
    } else {
        match (bucket_uuid, p.bucket_uuid) {
            (Some(expected), Some(observed)) => if expected != observed {
                Some(
                    DcpFault::Checkpoint(
                        "checkpoint bucket UUID "@ + observed + " does not match current bucket "@
                            + expected,
                    ),
                )
            } else {
                None
            },
            _ => None,
        }
    }
}

/// Request that a start resolves to.
pub open spec fn resolved(
    vbucket: u16,
    bucket_uuid: Option<Seq<char>>,
    start: StartPosition,
    mode: DcpMode,
    high_seqno: u64,
    failover_log: Seq<FailoverEntry>,
    filter: Option<FilterModel>,
) -> Outcome<RequestModel> {
    resolved_from(
        vbucket,
        bucket_uuid,
        asked(start, vbucket, high_seqno),
        start is Checkpoint,
        mode,
        high_seqno,
        failover_log,
        filter,
    )
}

/// Request that a wanted position resolves to; `explicit` tells a checkpoint
/// from a start without one.
pub open spec fn resolved_from(
    vbucket: u16,
    bucket_uuid: Option<Seq<char>>,
    wanted: Position,
    explicit: bool,
    mode: DcpMode,
    high_seqno: u64,
    failover_log: Seq<FailoverEntry>,
    filter: Option<FilterModel>,
) -> Outcome<RequestModel> {
    if failover_log.len() == 0 {
        Err(
            DcpFault::Topology("vBucket "@ + dec(vbucket as nat) + " has an empty failover log"@),
        )
    } else {
        match start_fault(vbucket, bucket_uuid, wanted) {
            Some(fault) => Err(fault),
            None => {
                let position = identified(wanted, bucket_uuid, failover_log[0].vbucket_uuid);
                let observed = match filter {
                    Some(f) => Some(FilterModel { manifest_uid: position.manifest_uid, ..f }),
                    None => None,
                };
                if position.seqno > high_seqno {
                    Err(
                        DcpFault::RollbackRequired {
                            vbucket,
                            requested_seqno: position.seqno,
                            rollback_seqno: high_seqno,
                            failover_log,
                        },
                    )
                } else if observed matches Some(f) && f.stream_id == Some(0u16) {
                    Err(
                        DcpFault::InvalidConfiguration(
                            "vBucket "@ + dec(vbucket as nat) + " stream ID must be non-zero"@,
                        ),
                    )
                } else {
                    Ok(
                        RequestModel {
                            position,
                            end_seqno: if mode == DcpMode::Finite {
                                high_seqno
                            } else {
                                u64::MAX
                            },
                            flags: if explicit && position.seqno == 0 {
                                STREAM_ACTIVE_ONLY | STREAM_STRICT_VBUUID
                            } else {
                                STREAM_ACTIVE_ONLY
                            },
                            filter: observed,
                        },
                    )
                }
            },
        }
    }
}

/// A resolved request starts at a valid position of the requested vBucket, at
/// or before both its end and the captured high sequence number; it never
/// opts into ignoring purged tombstones; and it claims only the manifest
/// observed at its start.
pub proof fn resolved_requests_are_safe(
    vbucket: u16,
    bucket_uuid: Option<Seq<char>>,
    start: StartPosition,
    mode: DcpMode,
    high_seqno: u64,
    failover_log: Seq<FailoverEntry>,
    filter: Option<FilterModel>,
)
    requires
        resolved(
            vbucket,
            bucket_uuid,
            start,
            mode,
            high_seqno,
            failover_log,
            filter,
        ) is Ok,
    ensures
        ({
            let r = resolved(
                vbucket,
                bucket_uuid,
                start,
                mode,
                high_seqno,
                failover_log,
                filter,
            )->Ok_0;
            &&& r.position.valid()
            &&& r.position.vbucket == vbucket
            &&& r.position.seqno <= high_seqno
            &&& r.position.seqno <= r.end_seqno
            &&& r.flags & crate::protocol::STREAM_IGNORE_PURGED_TOMBSTONES == 0
            &&& r.filter matches Some(f) ==> f.manifest_uid == r.position.manifest_uid
        }),
{
    assert((0x10u32 | 0x20u32) & 0x80u32 == 0) by (bit_vector);
    assert(0x10u32 & 0x80u32 == 0) by (bit_vector);
}

/// First branch, newest first, that covers a sequence number.
pub open spec fn covering_branch(log: Seq<FailoverEntry>, seqno: u64) -> Option<FailoverEntry> {
    match first_where(log, |e: FailoverEntry| e.seqno <= seqno) {
        Some(i) => Some(log[i]),
        None => None,
    }
}

/// Finds the newest branch that covers a sequence number.
pub fn find_covering_branch(log: &[FailoverEntry], seqno: u64) -> (result: Option<FailoverEntry>)
    ensures
        result == covering_branch(log@, seqno),
{
    let ghost p = |e: FailoverEntry| e.seqno <= seqno;
    let mut i: usize = 0;
    while i < log.len()
        invariant
            i <= log@.len(),
            p == (|e: FailoverEntry| e.seqno <= seqno),
            forall|j: int| 0 <= j < i ==> !p(#[trigger] log@[j]),
        decreases log@.len() - i,
    {
        if log[i].seqno <= seqno {
            proof {
                first_where_is(log@, p, i as int);
            }
            return Some(log[i]);
        }
        i = i + 1;
    }
    proof {
        first_where_is_none(log@, p);
    }
    None
}

/// Position rewound onto a branch.
pub open spec fn rewound(p: Position, seqno: u64, branch: u64) -> Position {
    Position {
        vbucket_uuid: branch,
        seqno,
        snapshot_start: seqno,
        snapshot_end: seqno,
        manifest_uid: None,
        ..p
    }
}

/// Request rewound onto a branch; what it claimed of the manifest is
/// forgotten.
pub open spec fn rewound_request(r: RequestModel, seqno: u64, branch: u64) -> RequestModel {
    RequestModel {
        position: rewound(r.position, seqno, branch),
        filter: match r.filter {
            Some(f) => Some(FilterModel { manifest_uid: None, ..f }),
            None => None,
        },
        ..r
    }
}

/// Content of the complaint about a failover log without a covering branch.
pub open spec fn uncovered(vbucket: u16, seqno: u64) -> DcpFault {
    DcpFault::Topology(
        "failover log has no branch covering rollback seqno "@ + dec(seqno as nat)
            + " for vBucket "@ + dec(vbucket as nat),
    )
}

impl VBucketStreamRequest {
    /// Resolves earliest/latest/checkpoint semantics against a captured high
    /// sequence number and current failover log.
    ///
    /// `high_seqno` is also frozen as the end boundary for finite mode. The
    /// default request is active-only and never opts into ignoring purged
    /// tombstones. For a collection filter, the wire manifest UID is replaced
    /// with the UID observed at this vBucket's checkpoint; a new stream omits
    /// it until a system event has actually been observed.
    pub fn resolve(
        vbucket: u16,
        bucket_uuid: Option<&str>,
        start: &StartPosition,
        mode: DcpMode,
        high_seqno: u64,
        failover_log: Vec<FailoverEntry>,
        filter: Option<StreamFilter>,
    ) -> (result: Result<Self>)
        ensures
            agrees(
                result,
                resolved(
                    vbucket,
                    opt_str(bucket_uuid),
                    *start,
                    mode,
                    high_seqno,
                    failover_log@,
                    opt_filter(filter),
                ),
            ),
    {
        if failover_log.len() == 0 {
            return Err(
                DcpError::Topology(
                    join3(
                        "vBucket ",
                        dec_text(vbucket as u64).as_str(),
                        " has an empty failover log",
                    ),
                ),
            );
        }
        let newest: FailoverEntry = failover_log[0];
        let explicit_checkpoint: bool = match start {
            StartPosition::Checkpoint(_) => true,
            _ => false,
        };
        let mut checkpoint = match start {
            StartPosition::Earliest => DcpCheckpoint::earliest(vbucket),
            StartPosition::Latest => DcpCheckpoint {
                bucket_uuid: None,
                vbucket,
                vbucket_uuid: 0,
                seqno: high_seqno,
                snapshot_start: high_seqno,
                snapshot_end: high_seqno,
                manifest_uid: None,
            },
            StartPosition::Checkpoint(checkpoint) => checkpoint.clone(),
        };
        if checkpoint.vbucket != vbucket {
            return Err(
                DcpError::Checkpoint(
                    join4(
                        "checkpoint vBucket ",
                        dec_text(checkpoint.vbucket as u64).as_str(),
                        " does not match requested vBucket ",
                        dec_text(vbucket as u64).as_str(),
                    ),
                ),
            );
        }
        checkpoint.validate()?;
        match (bucket_uuid, &checkpoint.bucket_uuid) {
            (Some(expected), Some(observed)) => {
                if !same_text(expected, observed.as_str()) {
                    return Err(
                        DcpError::Checkpoint(
                            join4(
                                "checkpoint bucket UUID ",
                                observed.as_str(),
                                " does not match current bucket ",
                                expected,
                            ),
                        ),
                    );
                }
            },
            _ => {},
        }
        if checkpoint.bucket_uuid.is_none() {
            checkpoint.bucket_uuid = match bucket_uuid {
                Some(uuid) => Some(uuid.to_owned()),
                None => None,
            };
        }
        if checkpoint.vbucket_uuid == 0 {
            checkpoint.vbucket_uuid = newest.vbucket_uuid;
        }
        if checkpoint.seqno > high_seqno {
            return Err(
                DcpError::RollbackRequired {
                    vbucket,
                    requested_seqno: checkpoint.seqno,
                    rollback_seqno: high_seqno,
                    failover_log,
                },
            );
        }
        let flags: u32 = if explicit_checkpoint && checkpoint.seqno == 0 {
            STREAM_ACTIVE_ONLY | STREAM_STRICT_VBUUID
        } else {
            STREAM_ACTIVE_ONLY
        };
        let filter = match filter {
            Some(f) => {
                let mut f = f;
                f.manifest_uid = checkpoint.manifest_uid;
                if let Some(id) = f.stream_id {
                    if id == 0 {
                        return Err(
                            DcpError::InvalidConfiguration(
                                join3(
                                    "vBucket ",
                                    dec_text(vbucket as u64).as_str(),
                                    " stream ID must be non-zero",
                                ),
                            ),
                        );
                    }
                }
                Some(f)
            },
            None => None,
        };
        let end_seqno: u64 = match mode {
            DcpMode::Finite => high_seqno,
            DcpMode::Infinite => u64::MAX,
        };
        Ok(VBucketStreamRequest { checkpoint, end_seqno, flags, filter })
    }

    /// Adds explicitly requested protocol flags.
    ///
    /// Ignoring purged tombstones can cause missed deletions and is never
    /// added by [`Self::resolve`].
    #[must_use]
    pub fn with_flags(self, flags: u32) -> (result: Self)
        ensures
            result@ == (RequestModel { flags: self@.flags | flags, ..self@ }),
    {
        VBucketStreamRequest { flags: self.flags | flags, ..self }
    }

    /// Effective starting checkpoint.
    #[must_use]
    pub fn checkpoint(&self) -> (result: &DcpCheckpoint)
        ensures
            result@ == self@.position,
    {
        &self.checkpoint
    }

    /// Frozen finite end or `u64::MAX` for an infinite stream.
    #[must_use]
    pub fn end_seqno(&self) -> (result: u64)
        ensures
            result == self@.end_seqno,
    {
        self.end_seqno
    }

    /// Replaces the end by one captured earlier.
    pub fn with_frozen_end_seqno(self, end_seqno: u64) -> (result: Result<Self>)
        ensures
            match result {
                Ok(request) => {
                    &&& end_seqno >= self@.position.seqno
                    &&& request@ == (RequestModel { end_seqno, ..self@ })
                },
                Err(e) => {
                    &&& end_seqno < self@.position.seqno
                    &&& e@ == frozen_end_fault(self@.position, end_seqno)
                },
            },
    {
        if end_seqno < self.checkpoint.seqno {
            return Err(
                DcpError::Stream {
                    vbucket: self.checkpoint.vbucket,
                    message: join4(
                        "frozen stream end ",
                        dec_text(end_seqno).as_str(),
                        " is behind effective start ",
                        dec_text(self.checkpoint.seqno).as_str(),
                    ),
                },
            );
        }
        Ok(VBucketStreamRequest { end_seqno, ..self })
    }

    /// Optional multiplexed stream ID.
    #[must_use]
    pub fn stream_id(&self) -> (result: Option<u16>)
        ensures
            result == self@.stream(),
    {
        match &self.filter {
            Some(f) => f.stream_id,
            None => None,
        }
    }

    /// Request to send to the producer.
    pub fn wire_request(&self) -> (result: StreamRequest)
        ensures
            result.vbucket == self@.position.vbucket,
            result.flags == self@.flags,
            result.vbucket_uuid == self@.position.vbucket_uuid,
            result.start_seqno == self@.position.seqno,
            result.end_seqno == self@.end_seqno,
            result.snapshot_start == self@.position.snapshot_start,
            result.snapshot_end == self@.position.snapshot_end,
            opt_filter(result.filter) == self@.filter,
            result.opaque == 0,
    {
        StreamRequest {
            vbucket: self.checkpoint.vbucket,
            flags: self.flags,
            vbucket_uuid: self.checkpoint.vbucket_uuid,
            start_seqno: self.checkpoint.seqno,
            end_seqno: self.end_seqno,
            snapshot_start: self.checkpoint.snapshot_start,
            snapshot_end: self.checkpoint.snapshot_end,
            filter: copy_opt_filter(&self.filter),
            opaque: 0,
        }
    }

    /// Rewinds the request onto the newest branch that covers a sequence
    /// number, and returns that branch.
    pub fn rewind(&mut self, rollback_seqno: u64, failover_log: &[FailoverEntry]) -> (result: Result<
        u64,
    >)
        ensures
            match covering_branch(failover_log@, rollback_seqno) {
                Some(branch) => {
                    &&& result is Ok && result->Ok_0 == branch.vbucket_uuid
                    &&& final(self)@ == rewound_request(
                        old(self)@,
                        rollback_seqno,
                        branch.vbucket_uuid,
                    )
                },
                None => {
                    &&& result is Err && result->Err_0@ == uncovered(
                        old(self)@.position.vbucket,
                        rollback_seqno,
                    )
                    &&& *final(self) == *old(self)
                },
            },
    {
        let branch = match find_covering_branch(failover_log, rollback_seqno) {
            Some(branch) => branch,
            None => {
                return Err(
                    DcpError::Topology(
                        join4(
                            "failover log has no branch covering rollback seqno ",
                            dec_text(rollback_seqno).as_str(),
                            " for vBucket ",
                            dec_text(self.checkpoint.vbucket as u64).as_str(),
                        ),
                    ),
                );
            },
        };
        self.checkpoint.vbucket_uuid = branch.vbucket_uuid;
        self.checkpoint.seqno = rollback_seqno;
        self.checkpoint.snapshot_start = rollback_seqno;
        self.checkpoint.snapshot_end = rollback_seqno;
        self.checkpoint.manifest_uid = None;
        match self.filter.take() {
            Some(f) => {
                let mut f = f;
                f.manifest_uid = None;
                self.filter = Some(f);
            },
            None => {},
        }
        assert(self.checkpoint@.valid());
        self.checkpoint.validate()?;
        Ok(branch.vbucket_uuid)
    }
}

/// Content of the complaint about an end before the start.
pub open spec fn frozen_end_fault(p: Position, end_seqno: u64) -> DcpFault {
    DcpFault::Stream {
        vbucket: p.vbucket,
        message: "frozen stream end "@ + dec(end_seqno as nat) + " is behind effective start "@
            + dec(p.seqno as nat),
    }
}

/// Application decision returned by a delegated rollback handler.
#[derive(Clone, Copy, Debug, PartialEq, Eq, Structural)]
pub enum RollbackAction {
    /// Preserve the default safe behavior and report the required rollback.
    StopAndReport,
    /// Explicitly authorize rewind and at-least-once replay.
    RewindAndReplay,
}

/// Observable rollback request supplied to a delegated handler.
#[derive(Debug, Eq, PartialEq)]
pub struct RollbackRequest {
    /// vBucket requiring recovery.
    pub vbucket: u16,
    /// Checkpoint rejected by the producer.
    pub checkpoint: DcpCheckpoint,
    /// Server-required rewind sequence number.
    pub rollback_seqno: u64,
    /// Fresh failover log, newest entry first.
    pub failover_log: Vec<FailoverEntry>,
}

/// Application hook for delegated rollback policy.
pub trait RollbackHandler {
    /// Chooses whether an observed rollback may replay downstream effects.
    fn handle(&self, request: RollbackRequest) -> (result: Result<RollbackAction>);
}

/// Action that a policy takes by itself; `None` leaves it to the handler.
pub open spec fn own_action(policy: RollbackPolicy) -> Option<RollbackAction> {
    match policy {
        RollbackPolicy::StopAndReport => Some(RollbackAction::StopAndReport),
        RollbackPolicy::RewindAndReplay => Some(RollbackAction::RewindAndReplay),
        RollbackPolicy::DelegateToHandler => None,
    }
}

/// Action that a policy takes by itself, if it does not delegate.
pub fn policy_action(policy: RollbackPolicy) -> (result: Option<RollbackAction>)
    ensures
        result == own_action(policy),
{
    match policy {
        RollbackPolicy::StopAndReport => Some(RollbackAction::StopAndReport),
        RollbackPolicy::RewindAndReplay => Some(RollbackAction::RewindAndReplay),
        RollbackPolicy::DelegateToHandler => None,
    }
}

/// Action about a required rollback: that of the policy, or the handler's
/// where the policy delegates.
pub open spec fn decided(policy: RollbackPolicy, delegated: Option<RollbackAction>) -> Option<
    RollbackAction,
> {
    match own_action(policy) {
        Some(action) => Some(action),
        None => delegated,
    }
}

/// What a delegated rollback policy lacks.
pub open spec fn missing_handler() -> DcpFault {
    DcpFault::InvalidConfiguration(
        "DelegateToHandler rollback policy requires a rollback handler"@,
    )
}

pub(crate) fn missing_handler_error() -> (result: DcpError)
    ensures
        result@ == missing_handler(),
{
    DcpError::InvalidConfiguration(
        "DelegateToHandler rollback policy requires a rollback handler".to_owned(),
    )
}

/// Decides about a required rollback; where the policy delegates, `delegated`
/// is the handler's action.
pub fn decide_rollback(policy: RollbackPolicy, delegated: Option<RollbackAction>) -> (result: Result<
    RollbackAction,
>)
    ensures
        match decided(policy, delegated) {
            Some(action) => result is Ok && result->Ok_0 == action,
            None => result is Err && result->Err_0@ == missing_handler(),
        },
{
    match policy_action(policy) {
        Some(action) => Ok(action),
        None => match delegated {
            Some(action) => Ok(action),
            None => Err(missing_handler_error()),
        },
    }
}

/// Rewind that was explicitly applied while opening a stream.
#[derive(Clone, Copy, Debug, PartialEq, Eq, Structural)]
pub struct RollbackApplied {
    /// Affected vBucket.
    pub vbucket: u16,
    /// Rejected sequence number.
    pub requested_seqno: u64,
    /// Effective replay start.
    pub rollback_seqno: u64,
    /// Failover branch selected for the replay.
    pub vbucket_uuid: u64,
}

/// The rewind goes back, onto the newest branch of the failover log that covers
/// where it ends.
pub open spec fn justified(rewind: RollbackApplied, log: Seq<FailoverEntry>) -> bool {
    &&& rewind.rollback_seqno < rewind.requested_seqno
    &&& covering_branch(log, rewind.rollback_seqno) is Some
    &&& covering_branch(log, rewind.rollback_seqno)->0.vbucket_uuid == rewind.vbucket_uuid
}

/// Content of an opened partition.
pub struct OpenModel {
    pub position: Position,
    pub vbucket: u16,
    pub start_seqno: u64,
    pub end_seqno: u64,
    pub vbucket_uuid: u64,
    pub stream_id: Option<u16>,
    pub opaque: u32,
}

/// Effective state returned for an opened partition.
#[derive(Debug, Eq, PartialEq)]
pub struct PartitionOpenState {
    /// Complete checkpoint of the accepted stream request.
    pub effective_checkpoint: DcpCheckpoint,
    /// vBucket identifier.
    pub vbucket: u16,
    /// Effective start sequence number after any explicit rewind.
    pub start_seqno: u64,
    /// Finite end boundary or `u64::MAX`.
    pub end_seqno: u64,
    /// Producer-confirmed current failover branch UUID.
    pub vbucket_uuid: u64,
    /// Optional multiplexed stream ID.
    pub stream_id: Option<u16>,
    /// Opaque token assigned to this stream request and echoed by its events.
    pub opaque: u32,
}

impl View for PartitionOpenState {
    type V = OpenModel;

    open spec fn view(&self) -> OpenModel {
        OpenModel {
            position: self.effective_checkpoint@,
            vbucket: self.vbucket,
            start_seqno: self.start_seqno,
            end_seqno: self.end_seqno,
            vbucket_uuid: self.vbucket_uuid,
            stream_id: self.stream_id,
            opaque: self.opaque,
        }
    }
}

impl PartitionOpenState {
    /// Complete checkpoint actually used by the accepted stream request.
    #[must_use]
    pub fn checkpoint(&self) -> (result: &DcpCheckpoint)
        ensures
            result@ == self@.position,
    {
        &self.effective_checkpoint
    }
}

/// State of a partition that the producer opened.
pub open spec fn opened(r: RequestModel, branch: u64, opaque: u32) -> OpenModel {
    OpenModel {
        position: Position { vbucket_uuid: branch, ..r.position },
        vbucket: r.position.vbucket,
        start_seqno: r.position.seqno,
        end_seqno: r.end_seqno,
        vbucket_uuid: branch,
        stream_id: r.stream(),
        opaque,
    }
}

/// What to do after a response to a stream request.
#[derive(Debug)]
pub enum OpenProgress {
    /// The partition is open.
    Opened(PartitionOpenState),
    /// A rollback to this sequence number is required; its handling needs a
    /// fresh failover log.
    RollbackTo(u64),
}

/// Opening of one partition, across the rewinds that its producer requires.
pub struct PartitionOpening {
    policy: RollbackPolicy,
    request: VBucketStreamRequest,
    rollbacks: Vec<RollbackApplied>,
    attempts: usize,
    logs: Ghost<Seq<Seq<FailoverEntry>>>,
}

impl PartitionOpening {
    /// Policy on rollbacks.
    pub closed spec fn policy(&self) -> RollbackPolicy {
        self.policy
    }

    /// Failover log that was fetched for each rewind.
    pub closed spec fn logs(&self) -> Seq<Seq<FailoverEntry>> {
        self.logs@
    }

    /// Request to send next.
    pub closed spec fn wanted(&self) -> RequestModel {
        self.request@
    }

    /// Rewinds applied so far.
    pub closed spec fn applied(&self) -> Seq<RollbackApplied> {
        self.rollbacks@
    }

    /// Rollback responses so far.
    pub closed spec fn tries(&self) -> nat {
        self.attempts as nat
    }

    /// Every rewind goes back onto the newest branch that covers its end, each
    /// continues where the one before ended, the last one ended at the
    /// request's start, and their number is bounded. There is none where the
    /// policy is to stop.
    pub open spec fn traced(&self) -> bool {
        let log = self.applied();
        &&& log.len() <= self.tries() <= MAX_ROLLBACK_ATTEMPTS
        &&& self.logs().len() == log.len()
        &&& self.policy() == RollbackPolicy::StopAndReport ==> log.len() == 0
        &&& forall|i: int|
            0 <= i < log.len() ==> justified(#[trigger] log[i], self.logs()[i])
                && log[i].vbucket == self.wanted().position.vbucket
        &&& forall|i: int|
            0 < i < log.len() ==> (#[trigger] log[i]).requested_seqno == log[i - 1].rollback_seqno
        &&& log.len() > 0 ==> log.last().rollback_seqno == self.wanted().position.seqno
    }

    /// Starts to open a partition.
    pub fn new(request: VBucketStreamRequest, policy: RollbackPolicy) -> (result: Self)
        ensures
            result.policy() == policy,
            result.wanted() == request@,
            result.applied() == Seq::<RollbackApplied>::empty(),
            result.tries() == 0,
            result.traced(),
    {
        PartitionOpening {
            policy,
            request,
            rollbacks: Vec::new(),
            attempts: 0,
            logs: Ghost(Seq::empty()),
        }
    }

    /// Request to send next.
    pub fn request(&self) -> (result: &VBucketStreamRequest)
        ensures
            result@ == self.wanted(),
    {
        &self.request
    }

    /// Judges a response to the request.
    pub fn on_response(&mut self, response: &StreamRequestResponse, opaque: u32) -> (result: Result<
        OpenProgress,
    >)
        requires
            old(self).traced(),
        ensures
            final(self).policy() == old(self).policy(),
            final(self).wanted() == old(self).wanted(),
            final(self).applied() == old(self).applied(),
            final(self).logs() == old(self).logs(),
            final(self).tries() == match *response {
                StreamRequestResponse::Opened(_) => old(self).tries(),
                StreamRequestResponse::Rollback(_) => if old(self).tries()
                    < MAX_ROLLBACK_ATTEMPTS {
                    old(self).tries() + 1
                } else {
                    old(self).tries()
                },
            },
            final(self).traced(),
            match *response {
                StreamRequestResponse::Opened(entries) => if entries@.len() == 0 {
                    result is Err && result->Err_0@ == DcpFault::Topology(
                        "stream-open response has no failover entries for vBucket "@ + dec(
                            old(self).wanted().position.vbucket as nat,
                        ),
                    )
                } else {
                    result matches Ok(OpenProgress::Opened(state)) && state@ == opened(
                        old(self).wanted(),
                        entries@[0].vbucket_uuid,
                        opaque,
                    )
                },
                StreamRequestResponse::Rollback(seqno) => if old(self).tries()
                    == MAX_ROLLBACK_ATTEMPTS {
                    result is Err && result->Err_0@ == (DcpFault::Stream {
                        vbucket: old(self).wanted().position.vbucket,
                        message: "producer exceeded 16 consecutive rollback responses"@,
                    })
                } else if seqno >= old(self).wanted().position.seqno {
                    result is Err && result->Err_0@ == forward_rollback(
                        old(self).wanted().position,
                        seqno,
                    )
                } else {
                    result matches Ok(OpenProgress::RollbackTo(to)) && to == seqno
                },
            },
    {
        match response {
            StreamRequestResponse::Opened(entries) => {
                if entries.len() == 0 {
                    return Err(
                        DcpError::Topology(
                            join2(
                                "stream-open response has no failover entries for vBucket ",
                                dec_text(self.request.checkpoint.vbucket as u64).as_str(),
                            ),
                        ),
                    );
                }
                let branch: u64 = entries[0].vbucket_uuid;
                let mut effective_checkpoint = self.request.checkpoint.clone();
                effective_checkpoint.vbucket_uuid = branch;
                Ok(
                    OpenProgress::Opened(
                        PartitionOpenState {
                            effective_checkpoint,
                            vbucket: self.request.checkpoint.vbucket,
                            start_seqno: self.request.checkpoint.seqno,
                            end_seqno: self.request.end_seqno,
                            vbucket_uuid: branch,
                            stream_id: self.request.stream_id(),
                            opaque,
                        },
                    ),
                )
            },
            StreamRequestResponse::Rollback(seqno) => {
                let seqno: u64 = *seqno;
                if self.attempts >= MAX_ROLLBACK_ATTEMPTS {
                    return Err(
                        DcpError::Stream {
                            vbucket: self.request.checkpoint.vbucket,
                            message: "producer exceeded 16 consecutive rollback responses".to_owned(),
                        },
                    );
                }
                self.attempts = self.attempts + 1;
                if seqno >= self.request.checkpoint.seqno {
                    return Err(
                        malformed_dcp(
                            join6(
                                "vBucket ",
                                dec_text(self.request.checkpoint.vbucket as u64).as_str(),
                                " rollback ",
                                dec_text(seqno).as_str(),
                                " does not precede requested seqno ",
                                dec_text(self.request.checkpoint.seqno).as_str(),
                            ),
                        ),
                    );
                }
                Ok(OpenProgress::RollbackTo(seqno))
            },
        }
    }

    /// Rollback request to hand to a delegated handler.
    pub fn rollback_request(&self, rollback_seqno: u64, failover_log: Vec<FailoverEntry>) -> (result:
        RollbackRequest)
        ensures
            result.vbucket == self.wanted().position.vbucket,
            result.checkpoint@ == self.wanted().position,
            result.rollback_seqno == rollback_seqno,
            result.failover_log@ == failover_log@,
    {
        RollbackRequest {
            vbucket: self.request.checkpoint.vbucket,
            checkpoint: self.request.checkpoint.clone(),
            rollback_seqno,
            failover_log,
        }
    }

    /// Applies the decision about a required rollback. The action of a handler
    /// counts only where the policy delegates.
    pub fn on_action(
        &mut self,
        rollback_seqno: u64,
        failover_log: Vec<FailoverEntry>,
        delegated: Option<RollbackAction>,
    ) -> (result: Result<()>)
        requires
            old(self).traced(),
            old(self).applied().len() < old(self).tries(),
            rollback_seqno < old(self).wanted().position.seqno,
        ensures
            final(self).policy() == old(self).policy(),
            final(self).tries() == old(self).tries(),
            match decided(old(self).policy(), delegated) {
                None => {
                    &&& result is Err
                    &&& result->Err_0@ == missing_handler()
                    &&& *final(self) == *old(self)
                },
                Some(RollbackAction::StopAndReport) => {
                    &&& result is Err
                    &&& result->Err_0@ == (DcpFault::RollbackRequired {
                        vbucket: old(self).wanted().position.vbucket,
                        requested_seqno: old(self).wanted().position.seqno,
                        rollback_seqno,
                        failover_log: failover_log@,
                    })
                    &&& *final(self) == *old(self)
                },
                Some(RollbackAction::RewindAndReplay) => match covering_branch(
                    failover_log@,
                    rollback_seqno,
                ) {
                    None => {
                        &&& result is Err
                        &&& result->Err_0@ == uncovered(
                            old(self).wanted().position.vbucket,
                            rollback_seqno,
                        )
                        &&& *final(self) == *old(self)
                    },
                    Some(branch) => {
                        &&& result is Ok
                        &&& final(self).wanted() == rewound_request(
                            old(self).wanted(),
                            rollback_seqno,
                            branch.vbucket_uuid,
                        )
                        &&& final(self).applied() == old(self).applied().push(
                            (RollbackApplied {
                                vbucket: old(self).wanted().position.vbucket,
                                requested_seqno: old(self).wanted().position.seqno,
                                rollback_seqno,
                                vbucket_uuid: branch.vbucket_uuid,
                            }),
                        )
                        &&& final(self).logs() == old(self).logs().push(failover_log@)
                    },
                },
            },
            final(self).traced(),
    {
        let action = decide_rollback(self.policy, delegated)?;
        match action {
            RollbackAction::StopAndReport => Err(
                DcpError::RollbackRequired {
                    vbucket: self.request.checkpoint.vbucket,
                    requested_seqno: self.request.checkpoint.seqno,
                    rollback_seqno,
                    failover_log,
                },
            ),
            RollbackAction::RewindAndReplay => {
                let requested_seqno: u64 = self.request.checkpoint.seqno;
                let vbucket_uuid: u64 = self.request.rewind(
                    rollback_seqno,
                    failover_log.as_slice(),
                )?;
                self.rollbacks.push(
                    RollbackApplied {
                        vbucket: self.request.checkpoint.vbucket,
                        requested_seqno,
                        rollback_seqno,
                        vbucket_uuid,
                    },
                );
                self.logs = Ghost(self.logs@.push(failover_log@));
                Ok(())
            },
        }
    }

    /// Rewinds applied while the partition was opened.
    pub fn into_rollbacks(self) -> (result: Vec<RollbackApplied>)
        ensures
            result@ == self.applied(),
    {
        self.rollbacks
    }
}

/// Content of the complaint about a rollback that does not go back.
pub open spec fn forward_rollback(p: Position, seqno: u64) -> DcpFault {
    malformed_dcp_fault(
        "vBucket "@ + dec(p.vbucket as nat) + " rollback "@ + dec(seqno as nat)
            + " does not precede requested seqno "@ + dec(p.seqno as nat),
    )
}

/// No later rewind is of the same vBucket.
pub open spec fn last_of_vbucket(rewinds: Seq<RollbackApplied>, i: int) -> bool {
    forall|j: int| i < j < rewinds.len() ==> (#[trigger] rewinds[j]).vbucket != rewinds[i].vbucket
}

/// Every rewind goes back onto the newest branch that covers its end and is of
/// an opened partition; rewinds of one vBucket follow on each other, and the
/// last one ends where the partition starts. There is none where the policy is
/// to stop.
pub open spec fn explained(
    policy: RollbackPolicy,
    states: Map<u16, PartitionOpenState>,
    rewinds: Seq<RollbackApplied>,
    logs: Seq<Seq<FailoverEntry>>,
) -> bool {
    &&& logs.len() == rewinds.len()
    &&& forall|i: int|
        0 <= i < rewinds.len() ==> justified(#[trigger] rewinds[i], logs[i])
            && states.contains_key(rewinds[i].vbucket)
    &&& forall|i: int|
        0 < i < rewinds.len() && (#[trigger] rewinds[i]).vbucket == rewinds[i - 1].vbucket
            ==> rewinds[i].requested_seqno == rewinds[i - 1].rollback_seqno
    &&& forall|i: int|
        0 <= i < rewinds.len() && #[trigger] last_of_vbucket(rewinds, i) ==> states[
        rewinds[i].vbucket].start_seqno == rewinds[i].rollback_seqno
    &&& policy == RollbackPolicy::StopAndReport ==> rewinds.len() == 0
}

/// Partitions that were opened one after another.
pub open spec fn recorded_states(states: Seq<PartitionOpenState>) -> Map<u16, PartitionOpenState>
    decreases states.len(),
{
    if states.len() == 0 {
        Map::empty()
    } else {
        recorded_states(states.drop_last()).insert(states.last().vbucket, states.last())
    }
}

/// Rewinds of partitions that were opened one after another.
pub open spec fn recorded_rewinds(openings: Seq<PartitionOpening>) -> Seq<RollbackApplied>
    decreases openings.len(),
{
    if openings.len() == 0 {
        Seq::empty()
    } else {
        recorded_rewinds(openings.drop_last()) + openings.last().applied()
    }
}

/// Failover logs that were fetched for those rewinds.
pub open spec fn recorded_logs(openings: Seq<PartitionOpening>) -> Seq<Seq<FailoverEntry>>
    decreases openings.len(),
{
    if openings.len() == 0 {
        Seq::empty()
    } else {
        recorded_logs(openings.drop_last()) + openings.last().logs()
    }
}

/// The state is what the opening led to, under the policy.
pub open spec fn concludes(
    opening: PartitionOpening,
    state: PartitionOpenState,
    policy: RollbackPolicy,
) -> bool {
    &&& opening.traced()
    &&& opening.policy() == policy
    &&& exists|branch: u64| #[trigger] opened(opening.wanted(), branch, state.opaque) == state@
}

proof fn recorded_keys(states: Seq<PartitionOpenState>, vbucket: u16)
    ensures
        recorded_states(states).contains_key(vbucket) <==> exists|i: int|
            0 <= i < states.len() && (#[trigger] states[i]).vbucket == vbucket,
    decreases states.len(),
{
    if states.len() > 0 {
        let shorter = states.drop_last();
        recorded_keys(shorter, vbucket);
        if recorded_states(shorter).contains_key(vbucket) {
            let i = choose|i: int|
                0 <= i < shorter.len() && (#[trigger] shorter[i]).vbucket == vbucket;
            assert(states[i].vbucket == vbucket);
        }
        if states.last().vbucket == vbucket {
            assert(states[states.len() - 1].vbucket == vbucket);
        }
        if exists|i: int| 0 <= i < states.len() && (#[trigger] states[i]).vbucket == vbucket {
            let i = choose|i: int|
                0 <= i < states.len() && (#[trigger] states[i]).vbucket == vbucket;
            if i < shorter.len() {
                assert(shorter[i].vbucket == vbucket);
            }
        }
    }
}

/// The report of partitions that were opened one after another, each under the
/// same policy and none twice, explains every rewind that it lists.
pub proof fn reports_are_explained(
    policy: RollbackPolicy,
    openings: Seq<PartitionOpening>,
    states: Seq<PartitionOpenState>,
)
    requires
        openings.len() == states.len(),
        forall|i: int|
            0 <= i < states.len() ==> concludes(openings[i], #[trigger] states[i], policy),
        forall|i: int, j: int|
            0 <= i < j < states.len() ==> (#[trigger] states[i]).vbucket != (
            #[trigger] states[j]).vbucket,
    ensures
        explained(
            policy,
            recorded_states(states),
            recorded_rewinds(openings),
            recorded_logs(openings),
        ),
    decreases states.len(),
{
    if states.len() > 0 {
        let n = states.len() - 1;
        let before = states.drop_last();
        let earlier = openings.drop_last();
        assert forall|i: int| 0 <= i < before.len() implies concludes(
            earlier[i],
            #[trigger] before[i],
            policy,
        ) by {
            assert(before[i] == states[i]);
        }
        reports_are_explained(policy, earlier, before);
        let state = states.last();
        assert(concludes(openings[n], states[n], policy));
        recorded_keys(before, state.vbucket);
        if recorded_states(before).contains_key(state.vbucket) {
            let i = choose|i: int|
                0 <= i < before.len() && (#[trigger] before[i]).vbucket == state.vbucket;
            assert(states[i].vbucket == states[n].vbucket);
        }
        recording_is_explained(
            policy,
            recorded_states(before),
            recorded_rewinds(earlier),
            recorded_logs(earlier),
            openings.last(),
            state,
        );
    }
}

proof fn recording_is_explained(
    policy: RollbackPolicy,
    states: Map<u16, PartitionOpenState>,
    rewinds: Seq<RollbackApplied>,
    logs: Seq<Seq<FailoverEntry>>,
    opening: PartitionOpening,
    state: PartitionOpenState,
)
    requires
        explained(policy, states, rewinds, logs),
        concludes(opening, state, policy),
        !states.contains_key(state.vbucket),
    ensures
        explained(
            policy,
            states.insert(state.vbucket, state),
            rewinds + opening.applied(),
            logs + opening.logs(),
        ),
{
    let n = rewinds.len() as int;
    let added = opening.applied();
    let all = rewinds + added;
    let after = states.insert(state.vbucket, state);
    assert forall|i: int| 0 <= i < all.len() implies justified(
        #[trigger] all[i],
        (logs + opening.logs())[i],
    ) && after.contains_key(all[i].vbucket) by {
        if i < n {
            assert(all[i] == rewinds[i]);
        } else {
            assert(all[i] == added[i - n]);
        }
    }
    assert forall|i: int|
        0 < i < all.len() && (#[trigger] all[i]).vbucket == all[i - 1].vbucket implies
        all[i].requested_seqno == all[i - 1].rollback_seqno by {
        if i < n {
            assert(all[i] == rewinds[i]);
            assert(all[i - 1] == rewinds[i - 1]);
        } else {
            assert(all[i] == added[i - n]);
            if i > n {
                assert(all[i - 1] == added[i - n - 1]);
            } else {
                assert(all[i - 1] == rewinds[i - 1]);
            }
        }
    }
    assert forall|i: int| 0 <= i < all.len() && #[trigger] last_of_vbucket(all, i) implies after[
    all[i].vbucket].start_seqno == all[i].rollback_seqno by {
        if i < n {
            assert(all[i] == rewinds[i]);
            assert(last_of_vbucket(rewinds, i)) by {
                assert forall|j: int| i < j < rewinds.len() implies (#[trigger] rewinds[j]).vbucket
                    != rewinds[i].vbucket by {
                    assert(all[j] == rewinds[j]);
                }
            }
        } else {
            assert(all[i] == added[i - n]);
            if i < all.len() - 1 {
                assert(all[i + 1] == added[i + 1 - n]);
            }
        }
    }
}

/// Result of opening every requested vBucket stream.
#[derive(Debug)]
pub struct StreamOpenReport {
    partitions: BTreeMap<u16, PartitionOpenState>,
    rollbacks: Vec<RollbackApplied>,
}

impl StreamOpenReport {
    /// Opened partitions.
    pub closed spec fn states(&self) -> Map<u16, PartitionOpenState> {
        self.partitions@
    }

    /// Applied rewinds.
    pub closed spec fn applied(&self) -> Seq<RollbackApplied> {
        self.rollbacks@
    }

    /// A report of nothing opened yet.
    pub fn new() -> (result: Self)
        ensures
            result.states() == Map::<u16, PartitionOpenState>::empty(),
            result.applied() == Seq::<RollbackApplied>::empty(),
    {
        StreamOpenReport { partitions: BTreeMap::new(), rollbacks: Vec::new() }
    }

    /// Records an opened partition and the rewinds it took.
    pub fn record(&mut self, state: PartitionOpenState, rollbacks: Vec<RollbackApplied>)
        ensures
            final(self).states() == old(self).states().insert(state.vbucket, state),
            final(self).applied() == old(self).applied() + rollbacks@,
    {
        let mut rollbacks = rollbacks;
        self.rollbacks.append(&mut rollbacks);
        self.partitions.insert(state.vbucket, state);
    }

    /// Opened partition states.
    #[must_use]
    pub fn partitions(&self) -> (result: &BTreeMap<u16, PartitionOpenState>)
        ensures
            result@ == self.states(),
    {
        &self.partitions
    }

    /// Explicit rewinds applied before event delivery began.
    #[must_use]
    pub fn rollbacks(&self) -> (result: &[RollbackApplied])
        ensures
            result@ == self.applied(),
    {
        self.rollbacks.as_slice()
    }
}

/// Contents of a list of requests.
pub open spec fn requests_of(list: Seq<VBucketStreamRequest>) -> Seq<RequestModel> {
    list.map_values(|r: VBucketStreamRequest| r@)
}

/// What is wrong with one request of a list, if anything.
pub open spec fn request_fault(list: Seq<RequestModel>, i: int) -> Option<DcpFault> {
    let r = list[i];
    if r.position.fault() is Some {
        r.position.fault()
    } else if r.position.seqno > r.end_seqno {
        Some(
            DcpFault::InvalidConfiguration(
                "vBucket "@ + dec(r.position.vbucket as nat) + " start "@ + dec(
                    r.position.seqno as nat,
                ) + " exceeds stream end "@ + dec(r.end_seqno as nat),
            ),
        )
    } else if exists|j: int|
        0 <= j < i && (#[trigger] list[j]).position.vbucket == r.position.vbucket {
        Some(
            DcpFault::InvalidConfiguration(
                "duplicate stream request for vBucket "@ + dec(r.position.vbucket as nat),
            ),
        )
    } else {
        None
    }
}

/// What is wrong with a list of requests, if anything.
pub open spec fn requests_fault(list: Seq<RequestModel>) -> Option<DcpFault> {
    if list.len() == 0 {
        Some(
            DcpFault::InvalidConfiguration("at least one vBucket stream request is required"@),
        )
    } else {
        first_fault(list.len(), |i: int| request_fault(list, i))
    }
}

/// Refuses requests that cannot be opened together.
pub fn validate_requests(requests: &[VBucketStreamRequest]) -> (result: Result<()>)
    ensures
        checked(result, requests_fault(requests_of(requests@))),
{
    if requests.len() == 0 {
        return Err(
            DcpError::InvalidConfiguration(
                "at least one vBucket stream request is required".to_owned(),
            ),
        );
    }
    let ghost models = requests_of(requests@);
    let ghost check = |i: int| request_fault(models, i);
    let mut i: usize = 0;
    while i < requests.len()
        invariant
            i <= requests@.len(),
            models == requests_of(requests@),
            check == (|i: int| request_fault(models, i)),
            first_fault(i as nat, check) is None,
            requests_fault(models) == first_fault(models.len(), check),
        decreases requests@.len() - i,
    {
        let request = &requests[i];
        let ghost model = models[i as int];
        assert(model == request@);
        if let Err(e) = request.checkpoint.validate() {
            proof {
                assert(check(i as int) == Some(e@));
                first_fault_found(i as nat, models.len(), check);
            }
            return Err(e);
        }
        if request.checkpoint.seqno > request.end_seqno {
            proof {
                first_fault_found(i as nat, models.len(), check);
            }
            return Err(
                DcpError::InvalidConfiguration(
                    join6(
                        "vBucket ",
                        dec_text(request.checkpoint.vbucket as u64).as_str(),
                        " start ",
                        dec_text(request.checkpoint.seqno).as_str(),
                        " exceeds stream end ",
                        dec_text(request.end_seqno).as_str(),
                    ),
                ),
            );
        }
        let mut j: usize = 0;
        while j < i
            invariant
                j <= i < requests@.len(),
                models == requests_of(requests@),
                model == models[i as int],
                model == request@,
                model.position.fault() is None,
                model.position.seqno <= model.end_seqno,
                check == (|i: int| request_fault(models, i)),
                first_fault(i as nat, check) is None,
                requests_fault(models) == first_fault(models.len(), check),
                forall|k: int|
                    0 <= k < j ==> (#[trigger] models[k]).position.vbucket
                        != model.position.vbucket,
            decreases i - j,
        {
            assert(models[j as int] == requests@[j as int]@);
            if requests[j].checkpoint.vbucket == request.checkpoint.vbucket {
                proof {
                    assert(models[j as int].position.vbucket == model.position.vbucket);
                    first_fault_found(i as nat, models.len(), check);
                }
                return Err(
                    DcpError::InvalidConfiguration(
                        join2(
                            "duplicate stream request for vBucket ",
                            dec_text(request.checkpoint.vbucket as u64).as_str(),
                        ),
                    ),
                );
            }
            j = j + 1;
        }
        assert(check(i as int) is None);
        i = i + 1;
    }
    Ok(())
}

/// What a request asks that the connection did not negotiate, if anything.
pub open spec fn capability_fault(
    capabilities: BootstrapCapabilities,
    r: RequestModel,
) -> Option<DcpFault> {
    if r.filter is Some && !capabilities.hello_features@.contains(HelloFeature::Collections) {
        Some(
            DcpFault::Unsupported(
                "vBucket "@ + dec(r.position.vbucket as nat)
                    + " uses a stream filter but the server did not negotiate collections"@,
            ),
        )
    } else if r.stream() is Some && !capabilities.dcp_controls@.contains(
        DcpControlFeature::StreamId,
    ) {
        Some(
            DcpFault::Unsupported(
                "vBucket "@ + dec(r.position.vbucket as nat)
                    + " uses a stream ID but enable_stream_id was not accepted"@,
            ),
        )
    } else {
        None
    }
}

/// What a list of requests asks that the connection did not negotiate.
pub open spec fn capabilities_fault(
    capabilities: BootstrapCapabilities,
    list: Seq<RequestModel>,
) -> Option<DcpFault> {
    first_fault(list.len(), |i: int| capability_fault(capabilities, list[i]))
}

/// Refuses requests that need what the connection did not negotiate.
pub fn validate_capabilities(
    capabilities: &BootstrapCapabilities,
    requests: &[VBucketStreamRequest],
) -> (result: Result<()>)
    ensures
        checked(result, capabilities_fault(*capabilities, requests_of(requests@))),
{
    let ghost models = requests_of(requests@);
    let ghost check = |i: int| capability_fault(*capabilities, models[i]);
    let mut i: usize = 0;
    while i < requests.len()
        invariant
            i <= requests@.len(),
            models == requests_of(requests@),
            check == (|i: int| capability_fault(*capabilities, models[i])),
            first_fault(i as nat, check) is None,
        decreases requests@.len() - i,
    {
        let request = &requests[i];
        assert(models[i as int] == request@);
        if request.filter.is_some() && !capabilities.supports(HelloFeature::Collections) {
            proof {
                first_fault_found(i as nat, models.len(), check);
            }
            return Err(
                DcpError::Unsupported(
                    join3(
                        "vBucket ",
                        dec_text(request.checkpoint.vbucket as u64).as_str(),
                        " uses a stream filter but the server did not negotiate collections",
                    ),
                ),
            );
        }
        if request.stream_id().is_some() && !capabilities.supports_control(
            DcpControlFeature::StreamId,
        ) {
            proof {
                first_fault_found(i as nat, models.len(), check);
            }
            return Err(
                DcpError::Unsupported(
                    join3(
                        "vBucket ",
                        dec_text(request.checkpoint.vbucket as u64).as_str(),
                        " uses a stream ID but enable_stream_id was not accepted",
                    ),
                ),
            );
        }
        assert(check(i as int) is None);
        i = i + 1;
    }
    Ok(())
}

/// What must hold before partitions are opened.
pub open spec fn open_fault(
    flow_control: FlowControlConfig,
    capabilities: BootstrapCapabilities,
    list: Seq<RequestModel>,
    policy: RollbackPolicy,
    has_handler: bool,
) -> Option<DcpFault> {
    match flow_control.fault() {
        Some(fault) => Some(fault),
        None => match requests_fault(list) {
            Some(fault) => Some(fault),
            None => match capabilities_fault(capabilities, list) {
                Some(fault) => Some(fault),
                None => if policy == RollbackPolicy::DelegateToHandler && !has_handler {
                    Some(missing_handler())
                } else {
                    None
                },
            },
        },
    }
}

/// Checks everything that must hold before partitions are opened.
pub fn prepare_open(
    flow_control: &FlowControlConfig,
    capabilities: &BootstrapCapabilities,
    requests: &[VBucketStreamRequest],
    policy: RollbackPolicy,
    has_handler: bool,
) -> (result: Result<()>)
    ensures
        checked(
            result,
            open_fault(
                *flow_control,
                *capabilities,
                requests_of(requests@),
                policy,
                has_handler,
            ),
        ),
{
    flow_control.validate()?;
    validate_requests(requests)?;
    validate_capabilities(capabilities, requests)?;
    if policy == RollbackPolicy::DelegateToHandler && !has_handler {
        return Err(missing_handler_error());
    }
    Ok(())
}

/// vBucket of a message about one partition.
pub open spec fn vbucket_of(message: DcpMessage) -> Option<u16> {
    match message {
        DcpMessage::Mutation(m) => Some(m.vbucket),
        DcpMessage::Deletion(m) => Some(m.vbucket),
        DcpMessage::Expiration(m) => Some(m.vbucket),
        DcpMessage::SnapshotMarker(m) => Some(m.vbucket),
        DcpMessage::StreamEnd(m) => Some(m.vbucket),
        DcpMessage::SeqNoAdvanced(m) => Some(m.vbucket),
        DcpMessage::SystemEvent(m) => Some(m.vbucket),
        DcpMessage::OsoSnapshot(m) => Some(m.vbucket),
        _ => None,
    }
}

/// Stream ID of a message about one partition.
pub open spec fn stream_of(message: DcpMessage) -> Option<u16> {
    match message {
        DcpMessage::Mutation(m) => m.stream_id,
        DcpMessage::Deletion(m) => m.stream_id,
        DcpMessage::Expiration(m) => m.stream_id,
        DcpMessage::SnapshotMarker(m) => m.stream_id,
        DcpMessage::StreamEnd(m) => m.stream_id,
        DcpMessage::SeqNoAdvanced(m) => m.stream_id,
        DcpMessage::SystemEvent(m) => m.stream_id,
        DcpMessage::OsoSnapshot(m) => m.stream_id,
        _ => None,
    }
}

/// Sequence number that a message delivers.
pub open spec fn seqno_of(message: DcpMessage) -> Option<u64> {
    match message {
        DcpMessage::Mutation(m) => Some(m.seqno),
        DcpMessage::Deletion(m) => Some(m.seqno),
        DcpMessage::Expiration(m) => Some(m.seqno),
        DcpMessage::SeqNoAdvanced(m) => Some(m.seqno),
        DcpMessage::SystemEvent(m) => Some(m.seqno),
        _ => None,
    }
}

/// vBucket of a message about one partition.
pub fn message_vbucket(message: &DcpMessage) -> (result: Option<u16>)
    ensures
        result == vbucket_of(*message),
{
    match message {
        DcpMessage::Mutation(m) => Some(m.vbucket),
        DcpMessage::Deletion(m) => Some(m.vbucket),
        DcpMessage::Expiration(m) => Some(m.vbucket),
        DcpMessage::SnapshotMarker(m) => Some(m.vbucket),
        DcpMessage::StreamEnd(m) => Some(m.vbucket),
        DcpMessage::SeqNoAdvanced(m) => Some(m.vbucket),
        DcpMessage::SystemEvent(m) => Some(m.vbucket),
        DcpMessage::OsoSnapshot(m) => Some(m.vbucket),
        _ => None,
    }
}

/// Stream ID of a message about one partition.
pub fn message_stream_id(message: &DcpMessage) -> (result: Option<u16>)
    ensures
        result == stream_of(*message),
{
    match message {
        DcpMessage::Mutation(m) => m.stream_id,
        DcpMessage::Deletion(m) => m.stream_id,
        DcpMessage::Expiration(m) => m.stream_id,
        DcpMessage::SnapshotMarker(m) => m.stream_id,
        DcpMessage::StreamEnd(m) => m.stream_id,
        DcpMessage::SeqNoAdvanced(m) => m.stream_id,
        DcpMessage::SystemEvent(m) => m.stream_id,
        DcpMessage::OsoSnapshot(m) => m.stream_id,
        _ => None,
    }
}

/// Sequence number that a message delivers.
pub fn message_seqno(message: &DcpMessage) -> (result: Option<u64>)
    ensures
        result == seqno_of(*message),
{
    match message {
        DcpMessage::Mutation(m) => Some(m.seqno),
        DcpMessage::Deletion(m) => Some(m.seqno),
        DcpMessage::Expiration(m) => Some(m.seqno),
        DcpMessage::SeqNoAdvanced(m) => Some(m.seqno),
        DcpMessage::SystemEvent(m) => Some(m.seqno),
        _ => None,
    }
}

/// Bounds of the snapshot in progress.
#[derive(Clone, Copy, Debug, PartialEq, Eq, Structural)]
pub struct SnapshotWindow {
    /// First sequence number.
    pub start: u64,
    /// Last sequence number.
    pub end: u64,
}

/// Progress of one open partition.
#[derive(Clone, Copy, Debug, PartialEq, Eq, Structural)]
pub struct PartitionProgress {
    /// Last delivered sequence number.
    pub last_seqno: u64,
    /// End of the stream.
    pub end_seqno: u64,
    /// Multiplexed stream ID.
    pub stream_id: Option<u16>,
    /// Token of the stream request.
    pub opaque: u32,
    /// Snapshot in progress.
    pub snapshot: Option<SnapshotWindow>,
}

/// Content of a stream error about a message.
pub open spec fn message_fault(message: DcpMessage, text: Seq<char>) -> DcpFault {
    DcpFault::Stream {
        vbucket: match vbucket_of(message) {
            Some(v) => v,
            None => 0,
        },
        message: text,
    }
}

/// Progress after a message, or why the message breaks the stream.
pub open spec fn observed(p: PartitionProgress, message: DcpMessage) -> Outcome<PartitionProgress> {
    match message {
        DcpMessage::SnapshotMarker(m) => if m.end_seqno < p.last_seqno || m.end_seqno
            > p.end_seqno {
            Err(
                message_fault(
                    message,
                    "snapshot "@ + dec(m.start_seqno as nat) + "..="@ + dec(m.end_seqno as nat)
                        + " is outside delivered "@ + dec(p.last_seqno as nat) + "..="@ + dec(
                        p.end_seqno as nat,
                    ),
                ),
            )
        } else {
            Ok(
                PartitionProgress {
                    snapshot: Some(SnapshotWindow { start: m.start_seqno, end: m.end_seqno }),
                    ..p
                },
            )
        },
        _ => match seqno_of(message) {
            None => Ok(p),
            Some(seqno) => match p.snapshot {
                None => Err(
                    message_fault(
                        message,
                        "received seqno "@ + dec(seqno as nat) + " before a snapshot marker"@,
                    ),
                ),
                Some(w) => if seqno < w.start || seqno > w.end || seqno > p.end_seqno {
                    Err(
                        message_fault(
                            message,
                            "seqno "@ + dec(seqno as nat) + " is outside snapshot "@ + dec(
                                w.start as nat,
                            ) + "..="@ + dec(w.end as nat) + " or stream end "@ + dec(
                                p.end_seqno as nat,
                            ),
                        ),
                    )
                } else if seqno <= p.last_seqno {
                    Err(
                        message_fault(
                            message,
                            "non-monotonic seqno "@ + dec(seqno as nat) + " after "@ + dec(
                                p.last_seqno as nat,
                            ),
                        ),
                    )
                } else {
                    Ok(PartitionProgress { last_seqno: seqno, ..p })
                },
            },
        },
    }
}

/// Progress after a sequence of messages, or the first fault.
pub open spec fn observed_all(p: PartitionProgress, messages: Seq<DcpMessage>) -> Outcome<
    PartitionProgress,
>
    decreases messages.len(),
{
    if messages.len() == 0 {
        Ok(p)
    } else {
        match observed_all(p, messages.drop_last()) {
            Ok(q) => observed(q, messages.last()),
            Err(e) => Err(e),
        }
    }
}

/// Progress never moves back, keeps the identity of its stream, and a
/// delivered sequence number is later than all before it and not past the end.
pub proof fn progress_is_monotonic(p: PartitionProgress, message: DcpMessage)
    requires
        observed(p, message) is Ok,
    ensures
        ({
            let q = observed(p, message)->Ok_0;
            &&& q.last_seqno >= p.last_seqno
            &&& q.end_seqno == p.end_seqno && q.stream_id == p.stream_id && q.opaque == p.opaque
            &&& seqno_of(message) matches Some(s) ==> p.last_seqno < s == q.last_seqno && s
                <= p.end_seqno
            &&& seqno_of(message) is None ==> q.last_seqno == p.last_seqno
        }),
{
}

proof fn observed_prefix(p: PartitionProgress, messages: Seq<DcpMessage>, k: int)
    requires
        0 <= k <= messages.len(),
        observed_all(p, messages) is Ok,
    ensures
        observed_all(p, messages.take(k)) is Ok,
        observed_all(p, messages.take(k))->Ok_0.last_seqno <= observed_all(
            p,
            messages,
        )->Ok_0.last_seqno,
    decreases messages.len(),
{
    if k == messages.len() {
        assert(messages.take(k) =~= messages);
    } else {
        let shorter = messages.drop_last();
        assert(shorter.take(k) =~= messages.take(k));
        observed_prefix(p, shorter, k);
        progress_is_monotonic(observed_all(p, shorter)->Ok_0, messages.last());
    }
}

/// Delivery is ordered within a vBucket: of two messages of an accepted
/// stream that carry sequence numbers, the later one carries the larger.
pub proof fn delivery_is_ordered(
    p: PartitionProgress,
    messages: Seq<DcpMessage>,
    i: int,
    j: int,
)
    requires
        observed_all(p, messages) is Ok,
        0 <= i < j < messages.len(),
        seqno_of(messages[i]) is Some,
        seqno_of(messages[j]) is Some,
    ensures
        p.last_seqno < seqno_of(messages[i])->0 < seqno_of(messages[j])->0 <= p.end_seqno,
{
    let upto_j = messages.take(j + 1);
    observed_prefix(p, messages, j + 1);
    assert(upto_j.drop_last() =~= messages.take(j));
    assert(upto_j.last() == messages[j]);
    let before_j = observed_all(p, messages.take(j))->Ok_0;
    progress_is_monotonic(before_j, messages[j]);
    let upto_i = messages.take(i + 1);
    assert(messages.take(j).take(i + 1) =~= upto_i);
    observed_prefix(p, messages.take(j), i + 1);
    assert(upto_i.drop_last() =~= messages.take(i));
    assert(upto_i.last() == messages[i]);
    let before_i = observed_all(p, messages.take(i))->Ok_0;
    progress_is_monotonic(before_i, messages[i]);
    assert(messages.take(i).take(0) =~= Seq::empty());
    observed_prefix(p, messages.take(i), 0);
    end_is_fixed(p, messages.take(j));
}

proof fn end_is_fixed(p: PartitionProgress, messages: Seq<DcpMessage>)
    requires
        observed_all(p, messages) is Ok,
    ensures
        observed_all(p, messages)->Ok_0.end_seqno == p.end_seqno,
    decreases messages.len(),
{
    if messages.len() > 0 {
        end_is_fixed(p, messages.drop_last());
    }
}

fn stream_error(message: &DcpMessage, text: String) -> (result: DcpError)
    ensures
        result@ == message_fault(*message, text@),
{
    let vbucket: u16 = match message_vbucket(message) {
        Some(v) => v,
        None => 0,
    };
    DcpError::Stream { vbucket, message: text }
}

impl PartitionProgress {
    /// Progress of a partition that was just opened.
    pub fn new(last_seqno: u64, end_seqno: u64, stream_id: Option<u16>, opaque: u32) -> (result:
        Self)
        ensures
            result == (PartitionProgress {
                last_seqno,
                end_seqno,
                stream_id,
                opaque,
                snapshot: None,
            }),
    {
        PartitionProgress { last_seqno, end_seqno, stream_id, opaque, snapshot: None }
    }

    /// Takes a message of the stream into account.
    pub fn observe(&mut self, message: &DcpMessage) -> (result: Result<()>)
        ensures
            match observed(*old(self), *message) {
                Ok(next) => result is Ok && *final(self) == next,
                Err(fault) => result is Err && result->Err_0@ == fault && *final(self) == *old(
                    self,
                ),
            },
    {
        if let DcpMessage::SnapshotMarker(marker) = message {
            if marker.end_seqno < self.last_seqno || marker.end_seqno > self.end_seqno {
                return Err(
                    stream_error(
                        message,
                        join8(
                            "snapshot ",
                            dec_text(marker.start_seqno).as_str(),
                            "..=",
                            dec_text(marker.end_seqno).as_str(),
                            " is outside delivered ",
                            dec_text(self.last_seqno).as_str(),
                            "..=",
                            dec_text(self.end_seqno).as_str(),
                        ),
                    ),
                );
            }
            self.snapshot = Some(
                SnapshotWindow { start: marker.start_seqno, end: marker.end_seqno },
            );
            return Ok(());
        }
        let seqno: u64 = match message_seqno(message) {
            Some(seqno) => seqno,
            None => {
                return Ok(());
            },
        };
        let window: SnapshotWindow = match self.snapshot {
            Some(window) => window,
            None => {
                return Err(
                    stream_error(
                        message,
                        join3(
                            "received seqno ",
                            dec_text(seqno).as_str(),
                            " before a snapshot marker",
                        ),
                    ),
                );
            },
        };
        if seqno < window.start || seqno > window.end || seqno > self.end_seqno {
            return Err(
                stream_error(
                    message,
                    join8(
                        "seqno ",
                        dec_text(seqno).as_str(),
                        " is outside snapshot ",
                        dec_text(window.start).as_str(),
                        "..=",
                        dec_text(window.end).as_str(),
                        " or stream end ",
                        dec_text(self.end_seqno).as_str(),
                    ),
                ),
            );
        }
        if seqno <= self.last_seqno {
            return Err(
                stream_error(
                    message,
                    join4(
                        "non-monotonic seqno ",
                        dec_text(seqno).as_str(),
                        " after ",
                        dec_text(self.last_seqno).as_str(),
                    ),
                ),
            );
        }
        self.last_seqno = seqno;
        Ok(())
    }
}

/// Received bytes that have not been credited to the producer yet.
#[derive(Clone, Copy, Debug, PartialEq, Eq, Structural)]
pub struct FlowCredit {
    /// Bytes from which credit is due.
    pub threshold: u64,
    /// Bytes not yet credited.
    pub pending: u64,
}

/// Bytes from which credit is due: the target, at least one and at most the
/// size of the buffer.
pub open spec fn due_from(size: u64, target: u64) -> u64 {
    let bounded = if target < size {
        target
    } else {
        size
    };
    if bounded == 0 {
        1
    } else {
        bounded
    }
}

impl FlowCredit {
    /// No bytes received yet.
    pub fn new(threshold: u64) -> (result: Self)
        ensures
            result == (FlowCredit { threshold, pending: 0 }),
    {
        FlowCredit { threshold, pending: 0 }
    }

    /// No bytes received yet on a connection whose credit is due from a target
    /// number of bytes on, as far as the advertised buffer holds it.
    pub fn for_target(config: &FlowControlConfig, target: u64) -> (result: Result<Self>)
        ensures
            match result {
                Ok(credit) => {
                    &&& config.connection_buffer_size <= u32::MAX
                    &&& credit.pending == 0
                    &&& credit.threshold == due_from(config.connection_buffer_size as u64, target)
                },
                Err(e) => {
                    &&& config.connection_buffer_size > u32::MAX
                    &&& e@ == DcpFault::InvalidConfiguration(
                        "invalid connection buffer size: out of range integral type conversion attempted"@,
                    )
                },
            },
    {
        let size: u64 = buffer_size(config)? as u64;
        let bounded: u64 = if target < size {
            target
        } else {
            size
        };
        Ok(
            FlowCredit::new(
                if bounded == 0 {
                    1
                } else {
                    bounded
                },
            ),
        )
    }

    /// Records received bytes; tells whether credit is due.
    pub fn record(&mut self, bytes: u64) -> (result: Result<bool>)
        ensures
            final(self).threshold == old(self).threshold,
            match result {
                Ok(due) => {
                    &&& final(self).pending == old(self).pending + bytes
                    &&& due == (final(self).pending >= final(self).threshold)
                },
                Err(e) => {
                    &&& old(self).pending + bytes > u64::MAX
                    &&& final(self).pending == old(self).pending
                    &&& e@ == DcpFault::Protocol(
                        ProtocolFault::InvalidLength("flow-control byte count overflow"@),
                    )
                },
            },
    {
        match self.pending.checked_add(bytes) {
            Some(total) => {
                self.pending = total;
                Ok(self.pending >= self.threshold)
            },
            None => Err(
                DcpError::Protocol(
                    ProtocolError::InvalidLength("flow-control byte count overflow".to_owned()),
                ),
            ),
        }
    }

    /// Credit to return next: all pending bytes, as far as one acknowledgement
    /// can carry them.
    pub fn next_ack(&self) -> (result: Option<u32>)
        ensures
            match result {
                Some(amount) => self.pending > 0 && amount == ack_amount(self.pending),
                None => self.pending == 0,
            },
    {
        if self.pending == 0 {
            None
        } else if self.pending > u32::MAX as u64 {
            Some(u32::MAX)
        } else {
            Some(self.pending as u32)
        }
    }

    /// Takes returned credit into account.
    pub fn acknowledged(&mut self, amount: u32)
        requires
            amount <= old(self).pending,
        ensures
            final(self).threshold == old(self).threshold,
            final(self).pending == old(self).pending - amount,
    {
        self.pending = self.pending - amount as u64;
    }
}

/// Credit that one acknowledgement returns.
pub open spec fn ack_amount(pending: u64) -> u32 {
    if pending > u32::MAX {
        u32::MAX
    } else {
        pending as u32
    }
}

/// Acknowledgements that return all pending credit.
pub open spec fn acks(pending: u64) -> Seq<u32>
    decreases pending,
{
    if pending == 0 {
        Seq::empty()
    } else {
        seq![ack_amount(pending)] + acks((pending - ack_amount(pending)) as u64)
    }
}

/// Credit that acknowledgements return.
pub open spec fn returned(amounts: Seq<u32>) -> nat
    decreases amounts.len(),
{
    if amounts.len() == 0 {
        0
    } else {
        amounts[0] as nat + returned(amounts.drop_first())
    }
}

/// Every received byte is credited once: returning credit ends, with nothing
/// pending, and returns exactly what was pending.
pub proof fn credit_is_returned_in_full(pending: u64)
    ensures
        returned(acks(pending)) == pending,
        forall|i: int| 0 <= i < acks(pending).len() ==> #[trigger] acks(pending)[i] > 0,
    decreases pending,
{
    if pending > 0 {
        let rest = (pending - ack_amount(pending)) as u64;
        credit_is_returned_in_full(rest);
        assert(acks(pending).drop_first() =~= acks(rest));
        assert forall|i: int| 0 <= i < acks(pending).len() implies #[trigger] acks(pending)[i]
            > 0 by {
            if i > 0 {
                assert(acks(pending)[i] == acks(rest)[i - 1]);
            }
        }
    }
}

/// Size of the advertised buffer, which must fit in 32 bits.
pub fn buffer_size(config: &FlowControlConfig) -> (result: Result<u32>)
    ensures
        match result {
            Ok(size) => size == config.connection_buffer_size,
            Err(e) => {
                &&& config.connection_buffer_size > u32::MAX
                &&& e@ == DcpFault::InvalidConfiguration(
                    "invalid connection buffer size: out of range integral type conversion attempted"@,
                )
            },
        },
{
    if config.connection_buffer_size as u64 > u32::MAX as u64 {
        return Err(
            DcpError::InvalidConfiguration(
                "invalid connection buffer size: out of range integral type conversion attempted".to_owned(),
            ),
        );
    }
    Ok(config.connection_buffer_size as u32)
}

/// Typed event that a message announces.
pub open spec fn event_of(message: DcpMessage) -> Outcome<DcpEvent> {
    match message {
        DcpMessage::Mutation(m) => Ok(
            DcpEvent::Mutation(
                DcpMutation {
                    vbucket: m.vbucket,
                    seqno: m.seqno,
                    rev_seqno: m.rev_seqno,
                    flags: m.flags,
                    expiry: m.expiry,
                    lock_time: m.lock_time,
                    cas: m.cas,
                    datatype: DataType(m.datatype),
                    collection_id: m.collection_id,
                    collection_name: None,
                    key: m.key,
                    value: m.value,
                },
            ),
        ),
        DcpMessage::Deletion(m) => Ok(
            DcpEvent::Deletion(
                DcpDeletion {
                    vbucket: m.vbucket,
                    seqno: m.seqno,
                    rev_seqno: m.rev_seqno,
                    delete_time: m.delete_time,
                    cas: m.cas,
                    collection_id: m.collection_id,
                    collection_name: None,
                    key: m.key,
                    value: m.value,
                    datatype: DataType(m.datatype),
                },
            ),
        ),
        DcpMessage::Expiration(m) => Ok(
            DcpEvent::Expiration(
                DcpExpiration {
                    vbucket: m.vbucket,
                    seqno: m.seqno,
                    rev_seqno: m.rev_seqno,
                    delete_time: m.delete_time,
                    cas: m.cas,
                    collection_id: m.collection_id,
                    collection_name: None,
                    key: m.key,
                    value: m.value,
                    datatype: DataType(m.datatype),
                },
            ),
        ),
        DcpMessage::SnapshotMarker(m) => Ok(
            DcpEvent::SnapshotMarker(
                SnapshotMarker {
                    vbucket: m.vbucket,
                    start_seqno: m.start_seqno,
                    end_seqno: m.end_seqno,
                    flags: SnapshotFlags(m.flags),
                    high_completed_seqno: m.high_completed_seqno,
                    max_visible_seqno: m.max_visible_seqno,
                    purge_seqno: m.purge_seqno,
                },
            ),
        ),
        DcpMessage::StreamEnd(m) => Ok(
            DcpEvent::StreamEnd(StreamEnd { vbucket: m.vbucket, reason: m.reason }),
        ),
        DcpMessage::SeqNoAdvanced(m) => Ok(
            DcpEvent::SeqNoAdvanced(SeqNoAdvanced { vbucket: m.vbucket, seqno: m.seqno }),
        ),
        DcpMessage::SystemEvent(m) => Ok(
            DcpEvent::SystemEvent(
                SystemEvent {
                    vbucket: m.vbucket,
                    seqno: m.seqno,
                    manifest_uid: m.manifest_uid,
                    version: m.version,
                    key: m.key,
                    kind: kind_of(m.kind),
                },
            ),
        ),
        DcpMessage::OsoSnapshot(m) => Ok(
            DcpEvent::OsoSnapshot(OsoSnapshot { vbucket: m.vbucket, state: m.state }),
        ),
        _ => Err(
            malformed_dcp_fault("control or unknown message cannot be converted to DcpEvent"@),
        ),
    }
}

/// Typed payload of a system event.
pub open spec fn kind_of(kind: WireSystemEventKind) -> SystemEventKind {
    match kind {
        WireSystemEventKind::CollectionCreated {
            scope_id,
            collection_id,
            max_ttl,
        } => SystemEventKind::CollectionCreated { scope_id, collection_id, max_ttl },
        WireSystemEventKind::CollectionDropped {
            scope_id,
            collection_id,
        } => SystemEventKind::CollectionDropped { scope_id, collection_id },
        WireSystemEventKind::CollectionFlushed {
            collection_id,
        } => SystemEventKind::CollectionFlushed { collection_id },
        WireSystemEventKind::ScopeCreated { scope_id } => SystemEventKind::ScopeCreated {
            scope_id,
        },
        WireSystemEventKind::ScopeDropped { scope_id } => SystemEventKind::ScopeDropped {
            scope_id,
        },
        WireSystemEventKind::CollectionChanged {
            collection_id,
            ttl,
        } => SystemEventKind::CollectionChanged { collection_id, max_ttl: Some(ttl) },
        WireSystemEventKind::Unknown { code, data } => SystemEventKind::Unknown { code, data },
    }
}

fn convert_system_event_kind(kind: WireSystemEventKind) -> (result: SystemEventKind)
    ensures
        result == kind_of(kind),
{
    match kind {
        WireSystemEventKind::CollectionCreated {
            scope_id,
            collection_id,
            max_ttl,
        } => SystemEventKind::CollectionCreated { scope_id, collection_id, max_ttl },
        WireSystemEventKind::CollectionDropped {
            scope_id,
            collection_id,
        } => SystemEventKind::CollectionDropped { scope_id, collection_id },
        WireSystemEventKind::CollectionFlushed {
            collection_id,
        } => SystemEventKind::CollectionFlushed { collection_id },
        WireSystemEventKind::ScopeCreated { scope_id } => SystemEventKind::ScopeCreated {
            scope_id,
        },
        WireSystemEventKind::ScopeDropped { scope_id } => SystemEventKind::ScopeDropped {
            scope_id,
        },
        WireSystemEventKind::CollectionChanged {
            collection_id,
            ttl,
        } => SystemEventKind::CollectionChanged { collection_id, max_ttl: Some(ttl) },
        WireSystemEventKind::Unknown { code, data } => SystemEventKind::Unknown { code, data },
    }
}

/// Converts a message into the event it announces.
pub fn convert_event(message: DcpMessage) -> (result: Result<DcpEvent>)
    ensures
        crate::auth::yields(result, event_of(message)),
{
    match message {
        DcpMessage::Mutation(m) => Ok(
            DcpEvent::Mutation(
                DcpMutation {
                    vbucket: m.vbucket,
                    seqno: m.seqno,
                    rev_seqno: m.rev_seqno,
                    flags: m.flags,
                    expiry: m.expiry,
                    lock_time: m.lock_time,
                    cas: m.cas,
                    datatype: DataType::from_bits_retain(m.datatype),
                    collection_id: m.collection_id,
                    collection_name: None,
                    key: m.key,
                    value: m.value,
                },
            ),
        ),
        DcpMessage::Deletion(m) => Ok(
            DcpEvent::Deletion(
                DcpDeletion {
                    vbucket: m.vbucket,
                    seqno: m.seqno,
                    rev_seqno: m.rev_seqno,
                    delete_time: m.delete_time,
                    cas: m.cas,
                    collection_id: m.collection_id,
                    collection_name: None,
                    key: m.key,
                    value: m.value,
                    datatype: DataType::from_bits_retain(m.datatype),
                },
            ),
        ),
        DcpMessage::Expiration(m) => Ok(
            DcpEvent::Expiration(
                DcpExpiration {
                    vbucket: m.vbucket,
                    seqno: m.seqno,
                    rev_seqno: m.rev_seqno,
                    delete_time: m.delete_time,
                    cas: m.cas,
                    collection_id: m.collection_id,
                    collection_name: None,
                    key: m.key,
                    value: m.value,
                    datatype: DataType::from_bits_retain(m.datatype),
                },
            ),
        ),
        DcpMessage::SnapshotMarker(m) => Ok(
            DcpEvent::SnapshotMarker(
                SnapshotMarker {
                    vbucket: m.vbucket,
                    start_seqno: m.start_seqno,
                    end_seqno: m.end_seqno,
                    flags: SnapshotFlags::from_bits_retain(m.flags),
                    high_completed_seqno: m.high_completed_seqno,
                    max_visible_seqno: m.max_visible_seqno,
                    purge_seqno: m.purge_seqno,
                },
            ),
        ),
        DcpMessage::StreamEnd(m) => Ok(
            DcpEvent::StreamEnd(StreamEnd { vbucket: m.vbucket, reason: m.reason }),
        ),
        DcpMessage::SeqNoAdvanced(m) => Ok(
            DcpEvent::SeqNoAdvanced(SeqNoAdvanced { vbucket: m.vbucket, seqno: m.seqno }),
        ),
        DcpMessage::SystemEvent(m) => Ok(
            DcpEvent::SystemEvent(
                SystemEvent {
                    vbucket: m.vbucket,
                    seqno: m.seqno,
                    manifest_uid: m.manifest_uid,
                    version: m.version,
                    key: m.key,
                    kind: convert_system_event_kind(m.kind),
                },
            ),
        ),
        DcpMessage::OsoSnapshot(m) => Ok(
            DcpEvent::OsoSnapshot(OsoSnapshot { vbucket: m.vbucket, state: m.state }),
        ),
        DcpMessage::Noop { .. } | DcpMessage::Unknown(_) => Err(
            malformed_dcp(
                "control or unknown message cannot be converted to DcpEvent".to_owned(),
            ),
        ),
    }
}

/// Conversion keeps the vBucket and the sequence number of a message.
pub proof fn conversion_keeps_progress(message: DcpMessage)
    requires
        event_of(message) is Ok,
    ensures
        vbucket_of(message) == Some(event_of(message)->Ok_0.partition()),
        seqno_of(message) == event_of(message)->Ok_0.progress(),
{
}

/// Item emitted by the connection runtime.
#[derive(Debug)]
#[non_exhaustive]
pub enum DcpStreamItem {
    /// Typed DCP data, snapshot, progress, system, or stream-end event.
    Event(DcpEvent),
    /// Raw cluster-config notification for the topology owner to parse and
    /// apply.
    TopologyConfig {
        /// Peer that supplied the config.
        source: String,
        /// Raw bucket-config JSON or notification payload.
        payload: Vec<u8>,
    },
    /// Future server request retained instead of silently discarded.
    Unknown(Frame),
}

/// What an inbound frame is to the event loop.
#[derive(Clone, Copy, Debug, PartialEq, Eq, Structural)]
pub enum FrameRoute {
    /// A cluster-config notification.
    TopologyConfig,
    /// A DCP message to decode.
    Message,
}

/// Tells what an inbound frame is to the event loop.
pub fn route_frame(frame: &Frame) -> (result: Result<FrameRoute>)
    ensures
        match result {
            Ok(route) => {
                &&& !frame.magic.responds()
                &&& route == if frame.opcode == OPCODE_GET_CLUSTER_CONFIG {
                    FrameRoute::TopologyConfig
                } else {
                    FrameRoute::Message
                }
            },
            Err(e) => {
                &&& frame.magic.responds()
                &&& e@ == malformed_dcp_fault(
                    "unexpected response opcode 0x"@ + hex2(frame.opcode as nat)
                        + " in DCP event loop"@,
                )
            },
        },
{
    if frame.magic.is_response() {
        return Err(
            malformed_dcp(
                join3(
                    "unexpected response opcode 0x",
                    hex2_text(frame.opcode as u64).as_str(),
                    " in DCP event loop",
                ),
            ),
        );
    }
    if frame.opcode == OPCODE_GET_CLUSTER_CONFIG {
        return Ok(FrameRoute::TopologyConfig);
    }
    Ok(FrameRoute::Message)
}

/// What to do about a message of the producer.
#[derive(Debug)]
pub enum MessageAction {
    /// Answer the probe.
    AnswerNoop {
        /// Token to echo.
        opaque: u32,
    },
    /// Hand an unknown frame on, and credit its bytes if they count.
    Forward {
        /// The frame.
        frame: Frame,
        /// The frame counts against flow control.
        credited: bool,
    },
    /// Deliver an event, then credit its bytes.
    Deliver {
        /// The event.
        event: DcpEvent,
        /// Acknowledge the snapshot marker first.
        acknowledge: bool,
    },
}

/// Opcodes whose frames count against flow control.
pub open spec fn flow_controlled(opcode: u8) -> bool {
    0x50 <= opcode <= 0x65
}

/// The marker asks for an acknowledgement.
pub open spec fn wants_ack(message: DcpMessage) -> bool {
    message matches DcpMessage::SnapshotMarker(m) && m.flags & SnapshotFlags::ACK != 0
}

/// Partitions after a message about one of them, or why the message breaks
/// the connection.
pub open spec fn advanced(
    partitions: Map<u16, PartitionProgress>,
    opaque: u32,
    message: DcpMessage,
) -> Outcome<Map<u16, PartitionProgress>> {
    match vbucket_of(message) {
        None => Ok(partitions),
        Some(vbucket) => if !partitions.contains_key(vbucket) {
            Err(
                DcpFault::Stream {
                    vbucket,
                    message: "received an event for a stream that is not active"@,
                },
            )
        } else if opaque != partitions[vbucket].opaque {
            Err(
                DcpFault::Stream {
                    vbucket,
                    message: "event opaque "@ + dec(opaque as nat)
                        + " does not match active stream "@ + dec(
                        partitions[vbucket].opaque as nat,
                    ),
                },
            )
        } else if stream_of(message) != partitions[vbucket].stream_id {
            Err(
                DcpFault::Stream {
                    vbucket,
                    message: "event stream ID "@ + dec_opt(opt_nat(stream_of(message)))
                        + " does not match active stream "@ + dec_opt(
                        opt_nat(partitions[vbucket].stream_id),
                    ),
                },
            )
        } else {
            match observed(partitions[vbucket], message) {
                Err(fault) => Err(fault),
                Ok(next) => Ok(
                    if message is StreamEnd {
                        partitions.remove(vbucket)
                    } else {
                        partitions.insert(vbucket, next)
                    },
                ),
            }
        },
    }
}

/// Optional identifier as a number.
pub open spec fn opt_nat(id: Option<u16>) -> Option<nat> {
    match id {
        Some(v) => Some(v as nat),
        None => None,
    }
}

fn opt_id_text(id: Option<u16>) -> (result: String)
    ensures
        result@ == dec_opt(opt_nat(id)),
{
    match id {
        Some(v) => dec_opt_text(Some(v as u64)),
        None => dec_opt_text(None),
    }
}

/// Takes a message of the producer into account and says what to do about it.
/// An event of a stream that is not active, or that carries another token or
/// stream ID, is never delivered.
pub fn handle_message(
    partitions: &mut BTreeMap<u16, PartitionProgress>,
    opaque: u32,
    message: DcpMessage,
) -> (result: Result<MessageAction>)
    ensures
        match advanced(old(partitions)@, opaque, message) {
            Err(fault) => {
                &&& result is Err && result->Err_0@ == fault
                &&& final(partitions)@ == old(partitions)@
            },
            Ok(next) => {
                &&& final(partitions)@ == next
                &&& result is Ok
                &&& match message {
                    DcpMessage::Noop { opaque: probe } => result->Ok_0
                        == (MessageAction::AnswerNoop { opaque: probe }),
                    DcpMessage::Unknown(frame) => result->Ok_0 == (MessageAction::Forward {
                        frame,
                        credited: flow_controlled(frame.opcode),
                    }),
                    _ => event_of(message) is Ok && result->Ok_0 == (MessageAction::Deliver {
                        event: event_of(message)->Ok_0,
                        acknowledge: wants_ack(message),
                    }),
                }
            },
        },
{
    let vbucket: u16 = match message_vbucket(&message) {
        Some(vbucket) => vbucket,
        None => match message {
            DcpMessage::Noop { opaque: probe } => {
                return Ok(MessageAction::AnswerNoop { opaque: probe });
            },
            DcpMessage::Unknown(frame) => {
                let credited: bool = 0x50 <= frame.opcode && frame.opcode <= 0x65;
                return Ok(MessageAction::Forward { frame, credited });
            },
            _ => {
                return Err(malformed_dcp("known DCP event has no vBucket".to_owned()));
            },
        },
    };
    let mut progress: PartitionProgress = match partitions.get(&vbucket) {
        Some(progress) => *progress,
        None => {
            return Err(
                DcpError::Stream {
                    vbucket,
                    message: "received an event for a stream that is not active".to_owned(),
                },
            );
        },
    };
    if opaque != progress.opaque {
        return Err(
            DcpError::Stream {
                vbucket,
                message: join4(
                    "event opaque ",
                    dec_text(opaque as u64).as_str(),
                    " does not match active stream ",
                    dec_text(progress.opaque as u64).as_str(),
                ),
            },
        );
    }
    let stream_id: Option<u16> = message_stream_id(&message);
    if stream_id != progress.stream_id {
        return Err(
            DcpError::Stream {
                vbucket,
                message: join4(
                    "event stream ID ",
                    opt_id_text(stream_id).as_str(),
                    " does not match active stream ",
                    opt_id_text(progress.stream_id).as_str(),
                ),
            },
        );
    }
    progress.observe(&message)?;
    let acknowledge: bool = match &message {
        DcpMessage::SnapshotMarker(marker) => marker.flags & SnapshotFlags::ACK != 0,
        _ => false,
    };
    let ended: bool = match &message {
        DcpMessage::StreamEnd(_) => true,
        _ => false,
    };
    let event = convert_event(message)?;
    if ended {
        partitions.remove(&vbucket);
    } else {
        partitions.insert(vbucket, progress);
    }
    Ok(MessageAction::Deliver { event, acknowledge })
}

/// Stream ID with which to close an active partition.
pub fn close_target(partitions: &BTreeMap<u16, PartitionProgress>, vbucket: u16) -> (result: Result<
    Option<u16>,
>)
    ensures
        match result {
            Ok(stream_id) => partitions@.contains_key(vbucket) && stream_id
                == partitions@[vbucket].stream_id,
            Err(e) => !partitions@.contains_key(vbucket) && e@ == (DcpFault::Stream {
                vbucket,
                message: "cannot close a stream that is not active"@,
            }),
        },
{
    match partitions.get(&vbucket) {
        Some(progress) => Ok(progress.stream_id),
        None => Err(
            DcpError::Stream {
                vbucket,
                message: "cannot close a stream that is not active".to_owned(),
            },
        ),
    }
}

/// After a successful close, ends the partition for a server that sends no
/// stream end of its own.
pub fn after_close(
    partitions: &mut BTreeMap<u16, PartitionProgress>,
    vbucket: u16,
    stream_end_on_close: bool,
) -> (result: Option<DcpEvent>)
    ensures
        if stream_end_on_close {
            result is None && final(partitions)@ == old(partitions)@
        } else {
            &&& result == Some(
                DcpEvent::StreamEnd(StreamEnd { vbucket, reason: StreamEndReason::Closed }),
            )
            &&& final(partitions)@ == old(partitions)@.remove(vbucket)
        },
{
    if stream_end_on_close {
        return None;
    }
    partitions.remove(&vbucket);
    Some(DcpEvent::StreamEnd(StreamEnd { vbucket, reason: StreamEndReason::Closed }))
}

} // verus!
