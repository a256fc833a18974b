//! Laws of message delivery, of stream progress and of flow control.
use std::collections::BTreeMap;
use vstd::prelude::*;

use crate::bootstrap::{BootstrapCapabilities, DcpControlFeature, HelloFeature};
use crate::config::{FlowControlConfig, RollbackPolicy};
use crate::error::{DcpError, Result};
use crate::event::{DataType, DcpEvent, SnapshotFlags, StreamEndReason, SystemEventKind};
use crate::lists::{first_fault, first_fault_is_of_a_check, no_first_fault};
use crate::protocol::{DcpMessage, Frame, Magic, StreamRequest, WireSystemEventKind};
use crate::stream::{
    after_close, buffer_size, capability_fault, close_target, convert_event, handle_message,
    message_seqno, message_stream_id, message_vbucket, prepare_open, request_fault, requests_of,
    route_frame, validate_capabilities, validate_requests, FlowCredit, FrameRoute, MessageAction,
    PartitionProgress, RequestModel, VBucketStreamRequest,
};

verus! {

broadcast use {vstd::std_specs::btree::group_btree_axioms, vstd::laws_cmp::group_laws_cmp};

/// The event tells of the system event exactly what the message told of it.
pub open spec fn tells_the_same(sent: WireSystemEventKind, told: SystemEventKind) -> bool {
    match sent {
        WireSystemEventKind::CollectionCreated { scope_id, collection_id, max_ttl } => {
            &&& told is CollectionCreated
            &&& told->CollectionCreated_scope_id == scope_id
            &&& told->CollectionCreated_collection_id == collection_id
            &&& told->CollectionCreated_max_ttl == max_ttl
        },
        WireSystemEventKind::CollectionDropped { scope_id, collection_id } => {
            &&& told is CollectionDropped
            &&& told->CollectionDropped_scope_id == scope_id
            &&& told->CollectionDropped_collection_id == collection_id
        },
        WireSystemEventKind::CollectionFlushed { collection_id } => {
            &&& told is CollectionFlushed
            &&& told->CollectionFlushed_collection_id == collection_id
        },
        WireSystemEventKind::ScopeCreated { scope_id } => {
            &&& told is ScopeCreated
            &&& told->ScopeCreated_scope_id == scope_id
        },
        WireSystemEventKind::ScopeDropped { scope_id } => {
            &&& told is ScopeDropped
            &&& told->ScopeDropped_scope_id == scope_id
        },
        WireSystemEventKind::CollectionChanged { collection_id, ttl } => {
            &&& told is CollectionChanged
            &&& told->CollectionChanged_collection_id == collection_id
            &&& told->CollectionChanged_max_ttl == Some(ttl)
        },
        WireSystemEventKind::Unknown { code, data } => {
            &&& told is Unknown
            &&& told->code == code
            &&& told->data@ == data@
        },
    }
}

/// The event is of the kind of the message and keeps every field of it.
pub open spec fn delivers(message: DcpMessage, event: DcpEvent) -> bool {
    match message {
        DcpMessage::Mutation(m) => {
            &&& event is Mutation
            &&& event->Mutation_0.vbucket == m.vbucket
            &&& event->Mutation_0.seqno == m.seqno
            &&& event->Mutation_0.rev_seqno == m.rev_seqno
            &&& event->Mutation_0.flags == m.flags
            &&& event->Mutation_0.expiry == m.expiry
            &&& event->Mutation_0.lock_time == m.lock_time
            &&& event->Mutation_0.cas == m.cas
            &&& event->Mutation_0.datatype.0 == m.datatype
            &&& event->Mutation_0.collection_id == m.collection_id
            &&& event->Mutation_0.collection_name is None
            &&& event->Mutation_0.key@ == m.key@
            &&& event->Mutation_0.value@ == m.value@
        },
        DcpMessage::Deletion(m) => {
            &&& event is Deletion
            &&& event->Deletion_0.vbucket == m.vbucket
            &&& event->Deletion_0.seqno == m.seqno
            &&& event->Deletion_0.rev_seqno == m.rev_seqno
            &&& event->Deletion_0.delete_time == m.delete_time
            &&& event->Deletion_0.cas == m.cas
            &&& event->Deletion_0.datatype.0 == m.datatype
            &&& event->Deletion_0.collection_id == m.collection_id
            &&& event->Deletion_0.collection_name is None
            &&& event->Deletion_0.key@ == m.key@
            &&& event->Deletion_0.value@ == m.value@
        },
        DcpMessage::Expiration(m) => {
            &&& event is Expiration
            &&& event->Expiration_0.vbucket == m.vbucket
            &&& event->Expiration_0.seqno == m.seqno
            &&& event->Expiration_0.rev_seqno == m.rev_seqno
            &&& event->Expiration_0.delete_time == m.delete_time
            &&& event->Expiration_0.cas == m.cas
            &&& event->Expiration_0.datatype.0 == m.datatype
            &&& event->Expiration_0.collection_id == m.collection_id
            &&& event->Expiration_0.collection_name is None
            &&& event->Expiration_0.key@ == m.key@
            &&& event->Expiration_0.value@ == m.value@
        },
        DcpMessage::SnapshotMarker(m) => {
            &&& event is SnapshotMarker
            &&& event->SnapshotMarker_0.vbucket == m.vbucket
            &&& event->SnapshotMarker_0.start_seqno == m.start_seqno
            &&& event->SnapshotMarker_0.end_seqno == m.end_seqno
            &&& event->SnapshotMarker_0.flags.0 == m.flags
            &&& event->SnapshotMarker_0.high_completed_seqno == m.high_completed_seqno
            &&& event->SnapshotMarker_0.max_visible_seqno == m.max_visible_seqno
            &&& event->SnapshotMarker_0.purge_seqno == m.purge_seqno
        },
        DcpMessage::StreamEnd(m) => {
            &&& event is StreamEnd
            &&& event->StreamEnd_0.vbucket == m.vbucket
            &&& event->StreamEnd_0.reason == m.reason
        },
        DcpMessage::SeqNoAdvanced(m) => {
            &&& event is SeqNoAdvanced
            &&& event->SeqNoAdvanced_0.vbucket == m.vbucket
            &&& event->SeqNoAdvanced_0.seqno == m.seqno
        },
        DcpMessage::SystemEvent(m) => {
            &&& event is SystemEvent
            &&& event->SystemEvent_0.vbucket == m.vbucket
            &&& event->SystemEvent_0.seqno == m.seqno
            &&& event->SystemEvent_0.manifest_uid == m.manifest_uid
            &&& event->SystemEvent_0.version == m.version
            &&& event->SystemEvent_0.key@ == m.key@
            &&& tells_the_same(m.kind, event->SystemEvent_0.kind)
        },
        DcpMessage::OsoSnapshot(m) => {
            &&& event is OsoSnapshot
            &&& event->OsoSnapshot_0.vbucket == m.vbucket
            &&& event->OsoSnapshot_0.state == m.state
        },
        DcpMessage::Noop { .. } => false,
        DcpMessage::Unknown(_) => false,
    }
}

/// Every message of a stream becomes an event of its kind that keeps all its
/// fields; a probe and a frame that is not understood become none.
pub proof fn events_keep_their_message(message: DcpMessage, result: Result<DcpEvent>)
    requires
        call_ensures(convert_event, (message,), result),
    ensures
        result is Err <==> message is Noop || message is Unknown,
        result matches Ok(event) ==> delivers(message, event),
        result matches Err(e) ==> e is Protocol,
{
}

/// What the stream loop delivers of a message is that message: an event of its
/// kind with all its fields. A probe is answered under its own opaque, and a
/// frame that is not understood is handed on as it is.
pub proof fn handled_messages_are_delivered(
    partitions: &mut BTreeMap<u16, PartitionProgress>,
    opaque: u32,
    message: DcpMessage,
    action: MessageAction,
)
    requires
        call_ensures(handle_message, (partitions, opaque, message), Ok(action)),
    ensures
        message matches DcpMessage::Noop { opaque: probe } ==> (
        action matches MessageAction::AnswerNoop { opaque: answer } && answer == probe),
        message matches DcpMessage::Unknown(sent) ==> (
        action matches MessageAction::Forward { frame, credited } && frame == sent && credited == (
        0x50 <= sent.opcode <= 0x65)),
        !(message is Noop) && !(message is Unknown) ==> (
        action matches MessageAction::Deliver { event, acknowledge } && delivers(message, event)
            && acknowledge == (message is SnapshotMarker && message->SnapshotMarker_0.flags & 0x08u32
            != 0)),
{
}

/// Sequence number that a message moves its stream to.
pub open spec fn moves_to(message: DcpMessage, seqno: u64) -> bool {
    match message {
        DcpMessage::Mutation(m) => m.seqno == seqno,
        DcpMessage::Deletion(m) => m.seqno == seqno,
        DcpMessage::Expiration(m) => m.seqno == seqno,
        DcpMessage::SeqNoAdvanced(m) => m.seqno == seqno,
        DcpMessage::SystemEvent(m) => m.seqno == seqno,
        _ => false,
    }
}

/// vBucket and stream that a message belongs to.
pub open spec fn belongs_to(message: DcpMessage, vbucket: u16, stream: Option<u16>) -> bool {
    match message {
        DcpMessage::Mutation(m) => m.vbucket == vbucket && m.stream_id == stream,
        DcpMessage::Deletion(m) => m.vbucket == vbucket && m.stream_id == stream,
        DcpMessage::Expiration(m) => m.vbucket == vbucket && m.stream_id == stream,
        DcpMessage::SnapshotMarker(m) => m.vbucket == vbucket && m.stream_id == stream,
        DcpMessage::StreamEnd(m) => m.vbucket == vbucket && m.stream_id == stream,
        DcpMessage::SeqNoAdvanced(m) => m.vbucket == vbucket && m.stream_id == stream,
        DcpMessage::SystemEvent(m) => m.vbucket == vbucket && m.stream_id == stream,
        DcpMessage::OsoSnapshot(m) => m.vbucket == vbucket && m.stream_id == stream,
        _ => false,
    }
}

/// What is read off a message is what it carries.
pub proof fn messages_are_read_as_they_are(
    message: DcpMessage,
    vbucket: Option<u16>,
    stream: Option<u16>,
    seqno: Option<u64>,
)
    requires
        call_ensures(message_vbucket, (&message,), vbucket),
        call_ensures(message_stream_id, (&message,), stream),
        call_ensures(message_seqno, (&message,), seqno),
    ensures
        vbucket matches Some(v) ==> belongs_to(message, v, stream),
        vbucket is None <==> message is Noop || message is Unknown,
        seqno matches Some(s) ==> moves_to(message, s),
        seqno is None <==> !(message is Mutation || message is Deletion || message is Expiration
            || message is SeqNoAdvanced || message is SystemEvent),
{
}

/// What is read off an event is what it carries.
pub proof fn events_are_read_as_they_are(
    event: DcpEvent,
    vbucket: u16,
    seqno: Option<u64>,
    cas: Option<u64>,
)
    requires
        call_ensures(DcpEvent::vbucket, (&event,), vbucket),
        call_ensures(DcpEvent::seqno, (&event,), seqno),
        call_ensures(DcpEvent::cas, (&event,), cas),
    ensures
        match event {
            DcpEvent::Mutation(e) => vbucket == e.vbucket && seqno == Some(e.seqno) && cas == Some(
                e.cas,
            ),
            DcpEvent::Deletion(e) => vbucket == e.vbucket && seqno == Some(e.seqno) && cas == Some(
                e.cas,
            ),
            DcpEvent::Expiration(e) => vbucket == e.vbucket && seqno == Some(e.seqno) && cas
                == Some(e.cas),
            DcpEvent::SeqNoAdvanced(e) => vbucket == e.vbucket && seqno == Some(e.seqno)
                && cas is None,
            DcpEvent::SystemEvent(e) => vbucket == e.vbucket && seqno == Some(e.seqno)
                && cas is None,
            DcpEvent::SnapshotMarker(e) => vbucket == e.vbucket && seqno is None && cas is None,
            DcpEvent::StreamEnd(e) => vbucket == e.vbucket && seqno is None && cas is None,
            DcpEvent::OsoSnapshot(e) => vbucket == e.vbucket && seqno is None && cas is None,
        },
{
}

/// A stream takes a sequence number only inside its announced snapshot, above
/// all that it took before and up to its end; it then stands at that number
/// and is otherwise as it was. A refused message leaves it as it was.
pub proof fn progress_follows_the_messages(
    progress: &mut PartitionProgress,
    message: DcpMessage,
    result: Result<()>,
)
    requires
        call_ensures(PartitionProgress::observe, (progress, &message), result),
    ensures
        result is Err ==> *final(progress) == *old(progress),
        final(progress).end_seqno == old(progress).end_seqno,
        final(progress).stream_id == old(progress).stream_id,
        final(progress).opaque == old(progress).opaque,
        forall|seqno: u64| #[trigger]
            moves_to(message, seqno) ==> {
                &&& result is Ok <==> old(progress).snapshot is Some
                    && old(progress).snapshot->0.start <= seqno <= old(progress).snapshot->0.end
                    && old(progress).last_seqno < seqno <= old(progress).end_seqno
                &&& result is Ok ==> final(progress).last_seqno == seqno
                    && final(progress).snapshot == old(progress).snapshot
            },
        message matches DcpMessage::SnapshotMarker(m) ==> {
            &&& result is Ok <==> old(progress).last_seqno <= m.end_seqno
                <= old(progress).end_seqno
            &&& final(progress).last_seqno == old(progress).last_seqno
            &&& result is Ok ==> final(progress).snapshot is Some
                && final(progress).snapshot->0.start == m.start_seqno
                && final(progress).snapshot->0.end == m.end_seqno
        },
        message is StreamEnd || message is OsoSnapshot || message is Noop || message is Unknown
            ==> result is Ok && *final(progress) == *old(progress),
        result matches Err(e) ==> (e matches DcpError::Stream { vbucket, .. } && exists|
            stream: Option<u16>,
        |
            #![trigger belongs_to(message, vbucket, stream)]
            belongs_to(message, vbucket, stream)),
{
    if result is Err {
        let vbucket = result->Err_0->Stream_vbucket;
        let stream = match message {
            DcpMessage::Mutation(m) => m.stream_id,
            DcpMessage::Deletion(m) => m.stream_id,
            DcpMessage::Expiration(m) => m.stream_id,
            DcpMessage::SnapshotMarker(m) => m.stream_id,
            DcpMessage::SeqNoAdvanced(m) => m.stream_id,
            DcpMessage::SystemEvent(m) => m.stream_id,
            _ => None,
        };
        assert(belongs_to(message, vbucket, stream));
    }
}

/// A fresh stream stands at its start, with no snapshot announced.
pub proof fn fresh_progress_stands_at_the_start(
    last_seqno: u64,
    end_seqno: u64,
    stream_id: Option<u16>,
    opaque: u32,
    progress: PartitionProgress,
)
    requires
        call_ensures(PartitionProgress::new, (last_seqno, end_seqno, stream_id, opaque), progress),
    ensures
        progress.last_seqno == last_seqno,
        progress.end_seqno == end_seqno,
        progress.stream_id == stream_id,
        progress.opaque == opaque,
        progress.snapshot is None,
{
}

/// A message is taken by the active stream that it belongs to, under the
/// stream's own opaque and stream ID, and by no other; the end of a stream
/// closes it; nothing else happens to any other stream.
pub proof fn messages_reach_their_stream(
    partitions: &mut BTreeMap<u16, PartitionProgress>,
    opaque: u32,
    message: DcpMessage,
    result: Result<MessageAction>,
    vbucket: u16,
    stream: Option<u16>,
    other: u16,
    progress: &mut PartitionProgress,
    observed: Result<()>,
)
    requires
        call_ensures(handle_message, (partitions, opaque, message), result),
        belongs_to(message, vbucket, stream),
        old(partitions)@.contains_key(vbucket) ==> *old(progress) == old(partitions)@[vbucket],
        call_ensures(PartitionProgress::observe, (progress, &message), observed),
        other != vbucket,
    ensures
        result is Ok <==> old(partitions)@.contains_key(vbucket) && opaque
            == old(partitions)@[vbucket].opaque && stream == old(partitions)@[vbucket].stream_id
            && observed is Ok,
        result is Err ==> final(partitions)@ == old(partitions)@,
        final(partitions)@.contains_key(other) <==> old(partitions)@.contains_key(other),
        old(partitions)@.contains_key(other) ==> final(partitions)@[other] == old(
            partitions)@[other],
        result is Ok && message is StreamEnd ==> !final(partitions)@.contains_key(vbucket),
        result is Ok && !(message is StreamEnd) ==> final(partitions)@.contains_key(vbucket)
            && final(partitions)@[vbucket] == *final(progress),
        result matches Err(e) ==> (e matches DcpError::Stream { vbucket: v, .. } && v == vbucket),
{
}

/// A message that belongs to no stream changes none.
pub proof fn probes_change_no_stream(
    partitions: &mut BTreeMap<u16, PartitionProgress>,
    opaque: u32,
    message: DcpMessage,
    result: Result<MessageAction>,
)
    requires
        call_ensures(handle_message, (partitions, opaque, message), result),
        message is Noop || message is Unknown,
    ensures
        result is Ok,
        final(partitions)@ == old(partitions)@,
{
}

/// Closing asks for the stream ID of an active stream. Unless the producer
/// itself announces the end, the stream is over at once and its end is told.
pub proof fn closing_ends_the_stream(
    partitions: &mut BTreeMap<u16, PartitionProgress>,
    vbucket: u16,
    target: Result<Option<u16>>,
    announced: bool,
    event: Option<DcpEvent>,
    other: u16,
)
    requires
        call_ensures(close_target, (old(partitions), vbucket), target),
        call_ensures(after_close, (partitions, vbucket, announced), event),
        other != vbucket,
    ensures
        target is Ok <==> old(partitions)@.contains_key(vbucket),
        target matches Ok(id) ==> id == old(partitions)@[vbucket].stream_id,
        target matches Err(e) ==> (e matches DcpError::Stream { vbucket: v, .. } && v == vbucket),
        announced ==> event is None && final(partitions)@ == old(partitions)@,
        !announced ==> (event matches Some(DcpEvent::StreamEnd(end)) && end.vbucket == vbucket
            && end.reason == StreamEndReason::Closed),
        !announced ==> !final(partitions)@.contains_key(vbucket),
        final(partitions)@.contains_key(other) <==> old(partitions)@.contains_key(other),
        old(partitions)@.contains_key(other) ==> final(partitions)@[other] == old(
            partitions)@[other],
{
}

/// In the event loop a cluster configuration is told apart from a message by
/// its opcode, and no response is accepted.
pub proof fn frames_are_told_apart(frame: Frame, result: Result<FrameRoute>)
    requires
        call_ensures(route_frame, (&frame,), result),
    ensures
        result is Err <==> frame.magic == Magic::Response || frame.magic == Magic::AltResponse,
        result matches Ok(route) ==> (route is TopologyConfig <==> frame.opcode == 0xb5),
        result matches Err(e) ==> e is Protocol,
{
}

/// Credit counts every byte that was received, is due at the threshold, and
/// what is acknowledged is taken off; an amount fits the wire and is as large
/// as it can be.
pub proof fn credit_counts_every_byte(
    credit: &mut FlowCredit,
    bytes: u64,
    result: Result<bool>,
    ack: Option<u32>,
)
    requires
        call_ensures(FlowCredit::record, (credit, bytes), result),
        call_ensures(FlowCredit::next_ack, (final(credit),), ack),
    ensures
        final(credit).threshold == old(credit).threshold,
        result is Ok <==> old(credit).pending + bytes <= u64::MAX,
        result is Ok ==> final(credit).pending == old(credit).pending + bytes,
        result is Err ==> final(credit).pending == old(credit).pending,
        result matches Ok(due) ==> (due <==> final(credit).threshold <= final(credit).pending),
        ack is None <==> final(credit).pending == 0,
        ack matches Some(amount) ==> 0 < amount <= final(credit).pending && (amount
            == final(credit).pending || amount == 0xffff_ffffu32),
{
}

/// Acknowledging takes exactly the amount off.
pub proof fn acknowledged_bytes_are_taken_off(credit: &mut FlowCredit, amount: u32)
    requires
        call_ensures(FlowCredit::acknowledged, (credit, amount), ()),
        amount <= old(credit).pending,
    ensures
        final(credit).threshold == old(credit).threshold,
        final(credit).pending + amount == old(credit).pending,
{
}

/// The threshold is the configured share of the buffer, at least one byte and
/// never more than the buffer; a fresh credit owes nothing.
pub proof fn credit_starts_with_the_target(
    config: FlowControlConfig,
    target: u64,
    result: Result<FlowCredit>,
    size: Result<u32>,
    threshold: u64,
    plain: FlowCredit,
)
    requires
        call_ensures(FlowCredit::for_target, (&config, target), result),
        call_ensures(buffer_size, (&config,), size),
        call_ensures(FlowCredit::new, (threshold,), plain),
    ensures
        result is Ok <==> config.connection_buffer_size <= u32::MAX,
        size is Ok <==> config.connection_buffer_size <= u32::MAX,
        size matches Ok(n) ==> n == config.connection_buffer_size,
        result matches Ok(credit) ==> {
            &&& credit.pending == 0
            &&& credit.threshold >= 1
            &&& 1 <= target <= config.connection_buffer_size ==> credit.threshold == target
            &&& target > config.connection_buffer_size && config.connection_buffer_size > 0
                ==> credit.threshold == config.connection_buffer_size
            &&& target == 0 || config.connection_buffer_size == 0 ==> credit.threshold == 1
        },
        plain.threshold == threshold && plain.pending == 0,
        result matches Err(e) ==> e is InvalidConfiguration,
        size matches Err(e) ==> e is InvalidConfiguration,
{
}

/// The wire form of a request.
pub open spec fn sends(request: VBucketStreamRequest, wire: StreamRequest) -> bool {
    call_ensures(VBucketStreamRequest::wire_request, (&request,), wire)
}

/// A request starts inside its snapshot and not past its end.
pub open spec fn startable(r: RequestModel) -> bool {
    &&& r.position.snapshot_start <= r.position.seqno
    &&& r.position.seqno <= r.position.snapshot_end
    &&& r.position.seqno <= r.end_seqno
}

/// Requests are accepted together exactly when there is one, each starts
/// inside its snapshot and not past its end, and no vBucket is requested
/// twice.
pub proof fn accepted_requests_are_sound(requests: &[VBucketStreamRequest], result: Result<()>)
    requires
        call_ensures(validate_requests, (requests,), result),
    ensures
        result is Ok <==> {
            &&& requests@.len() > 0
            &&& forall|i: int| 0 <= i < requests@.len() ==> startable(#[trigger] requests@[i]@)
            &&& forall|i: int, j: int|
                0 <= i < j < requests@.len() ==> (#[trigger] requests@[i])@.position.vbucket != (
                #[trigger] requests@[j])@.position.vbucket
        },
{
    let list = requests_of(requests@);
    let check = |k: int| request_fault(list, k);
    assert forall|i: int| 0 <= i < list.len() implies #[trigger] list[i] == requests@[i]@ by {}
    if result is Ok {
        no_first_fault(list.len(), check);
        assert forall|i: int| 0 <= i < requests@.len() implies startable(
            #[trigger] requests@[i]@,
        ) by {
            assert(check(i) is None);
        }
        assert forall|i: int, j: int| 0 <= i < j < requests@.len() implies (
        #[trigger] requests@[i])@.position.vbucket != (#[trigger] requests@[j])@.position.vbucket by {
            assert(check(j) is None);
            assert(list[i] == requests@[i]@);
        }
    } else if requests@.len() > 0 {
        first_fault_is_of_a_check(list.len(), check);
        let i = choose|i: int|
            0 <= i < list.len() && #[trigger] check(i) == first_fault(list.len(), check);
        assert(request_fault(list, i) is Some);
        assert(list[i] == requests@[i]@);
        if startable(requests@[i]@) {
            let j = choose|j: int|
                0 <= j < i && (#[trigger] list[j]).position.vbucket == list[i].position.vbucket;
            assert(requests@[j]@ == list[j]);
        }
    }
}

/// Two accepted requests go to different vBuckets, and each is sent with a
/// start inside its snapshot and not past its end.
pub proof fn accepted_requests_are_sent_sound(
    requests: &[VBucketStreamRequest],
    i: int,
    j: int,
    first: StreamRequest,
    second: StreamRequest,
)
    requires
        call_ensures(validate_requests, (requests,), Ok(())),
        0 <= i < requests@.len(),
        0 <= j < requests@.len(),
        sends(requests@[i], first),
        sends(requests@[j], second),
    ensures
        i != j ==> first.vbucket != second.vbucket,
        first.snapshot_start <= first.start_seqno <= first.snapshot_end,
        first.start_seqno <= first.end_seqno,
{
    accepted_requests_are_sound(requests, Ok(()));
    assert(startable(requests@[i]@));
}

/// The server can serve the requests exactly when it negotiated collections
/// for every filter and accepted stream IDs for every stream ID.
pub proof fn capabilities_are_needed(
    capabilities: BootstrapCapabilities,
    requests: &[VBucketStreamRequest],
    result: Result<()>,
)
    requires
        call_ensures(validate_capabilities, (&capabilities, requests), result),
    ensures
        result is Ok <==> forall|i: int|
            0 <= i < requests@.len() ==> ((#[trigger] requests@[i])@.filter is Some
                ==> capabilities.hello_features@.contains(HelloFeature::Collections) && (
            requests@[i]@.filter->0.stream_id is Some ==> capabilities.dcp_controls@.contains(
                DcpControlFeature::StreamId,
            ))),
        result matches Err(e) ==> e is Unsupported,
{
    let list = requests_of(requests@);
    let check = |k: int| capability_fault(capabilities, list[k]);
    assert forall|i: int| 0 <= i < list.len() implies #[trigger] list[i] == requests@[i]@ by {}
    if result is Ok {
        no_first_fault(list.len(), check);
        assert forall|i: int| 0 <= i < requests@.len() implies ((
        #[trigger] requests@[i])@.filter is Some ==> capabilities.hello_features@.contains(
            HelloFeature::Collections,
        ) && (requests@[i]@.filter->0.stream_id is Some ==> capabilities.dcp_controls@.contains(
            DcpControlFeature::StreamId,
        ))) by {
            assert(check(i) is None);
        }
    } else {
        first_fault_is_of_a_check(list.len(), check);
        let i = choose|i: int|
            0 <= i < list.len() && #[trigger] check(i) == first_fault(list.len(), check);
        assert(list[i] == requests@[i]@);
    }
}

/// Streams are opened exactly when the flow control is sound, the requests are
/// accepted, the server can serve them, and a delegating policy has a handler.
pub proof fn opening_checks_everything(
    flow_control: FlowControlConfig,
    capabilities: BootstrapCapabilities,
    requests: &[VBucketStreamRequest],
    policy: RollbackPolicy,
    has_handler: bool,
    result: Result<()>,
    sound: Result<()>,
    accepted: Result<()>,
    served: Result<()>,
)
    requires
        call_ensures(
            prepare_open,
            (&flow_control, &capabilities, requests, policy, has_handler),
            result,
        ),
        call_ensures(FlowControlConfig::validate, (&flow_control,), sound),
        call_ensures(validate_requests, (requests,), accepted),
        call_ensures(validate_capabilities, (&capabilities, requests), served),
    ensures
        result is Ok <==> sound is Ok && accepted is Ok && served is Ok && (policy
            == RollbackPolicy::DelegateToHandler ==> has_handler),
{
}

/// Flags are looked up bit by bit, under the protocol's values.
pub proof fn flags_are_looked_up(
    datatype: DataType,
    want: DataType,
    has: bool,
    marker: SnapshotFlags,
    wanted: SnapshotFlags,
    marked: bool,
)
    requires
        call_ensures(DataType::contains, (datatype, want), has),
        call_ensures(SnapshotFlags::contains, (marker, wanted), marked),
    ensures
        has <==> datatype.0 & want.0 == want.0,
        marked <==> marker.0 & wanted.0 == wanted.0,
        DataType::JSON == 0x01,
        DataType::SNAPPY == 0x02,
        DataType::XATTR == 0x04,
        SnapshotFlags::MEMORY == 0x01,
        SnapshotFlags::DISK == 0x02,
        SnapshotFlags::CHECKPOINT == 0x04,
        SnapshotFlags::ACK == 0x08,
        SnapshotFlags::HISTORY == 0x10,
        SnapshotFlags::MAY_CONTAIN_DUPLICATES == 0x20,
{
}

} // verus!
