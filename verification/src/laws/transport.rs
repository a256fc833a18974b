//! Laws of frames, tokens and connections.
use vstd::prelude::*;

use crate::error::{DcpError, Result};
use crate::interval::Interval;
use crate::protocol::{
    copy_opt_filter, ensure_success_response, DocumentMode, Frame, Magic, StreamFilter,
    OPCODE_ADD, OPCODE_DCP_CLOSE_STREAM, OPCODE_DCP_CONTROL, OPCODE_DCP_GET_FAILOVER_LOG,
    OPCODE_DCP_NOOP, OPCODE_DCP_OPEN, OPCODE_DCP_STREAM_REQUEST, OPCODE_DELETE, OPCODE_GET,
    OPCODE_GET_ALL_VB_SEQNOS, OPCODE_GET_CLUSTER_CONFIG, OPCODE_HELLO, OPCODE_NOOP,
    OPCODE_REPLACE, OPCODE_SASL_AUTH, OPCODE_SASL_LIST_MECHS, OPCODE_SASL_STEP,
    OPCODE_SELECT_BUCKET, OPCODE_SET, OPCODE_SUBDOC_MULTI_LOOKUP, OPCODE_SUBDOC_MULTI_MUTATION,
    STATUS_AUTH_CONTINUE, STATUS_AUTH_ERROR, STATUS_INVALID_ARGUMENTS, STATUS_KEY_EXISTS,
    STATUS_KEY_NOT_FOUND, STATUS_NOT_MY_VBUCKET, STATUS_NOT_SUPPORTED, STATUS_ROLLBACK,
    STATUS_SUCCESS, STATUS_UNKNOWN_COMMAND, STREAM_ACTIVE_ONLY, STREAM_IGNORE_PURGED_TOMBSTONES,
    STREAM_STRICT_VBUUID,
};
use crate::transport::{FrameCorrelator, InboundWatch, OpaqueSource};

verus! {

/// Commands have the codes of the binary protocol.
pub proof fn commands_have_their_codes()
    ensures
        OPCODE_GET == 0x00 && OPCODE_SET == 0x01 && OPCODE_ADD == 0x02 && OPCODE_REPLACE == 0x03,
        OPCODE_DELETE == 0x04 && OPCODE_NOOP == 0x0a && OPCODE_HELLO == 0x1f,
        OPCODE_SASL_LIST_MECHS == 0x20 && OPCODE_SASL_AUTH == 0x21 && OPCODE_SASL_STEP == 0x22,
        OPCODE_GET_ALL_VB_SEQNOS == 0x48 && OPCODE_DCP_OPEN == 0x50 && OPCODE_DCP_CLOSE_STREAM
            == 0x52,
        OPCODE_DCP_STREAM_REQUEST == 0x53 && OPCODE_DCP_GET_FAILOVER_LOG == 0x54 && OPCODE_DCP_NOOP
            == 0x5c && OPCODE_DCP_CONTROL == 0x5e,
        OPCODE_SELECT_BUCKET == 0x89 && OPCODE_GET_CLUSTER_CONFIG == 0xb5
            && OPCODE_SUBDOC_MULTI_LOOKUP == 0xd0 && OPCODE_SUBDOC_MULTI_MUTATION == 0xd1,
{
}

/// Statuses and stream flags have the values of the binary protocol.
pub proof fn statuses_have_their_values()
    ensures
        STATUS_SUCCESS == 0x00 && STATUS_KEY_NOT_FOUND == 0x01 && STATUS_KEY_EXISTS == 0x02,
        STATUS_INVALID_ARGUMENTS == 0x04 && STATUS_NOT_MY_VBUCKET == 0x07 && STATUS_AUTH_ERROR
            == 0x20 && STATUS_AUTH_CONTINUE == 0x21,
        STATUS_ROLLBACK == 0x23 && STATUS_UNKNOWN_COMMAND == 0x81 && STATUS_NOT_SUPPORTED == 0x83,
        STREAM_ACTIVE_ONLY == 0x10 && STREAM_STRICT_VBUUID == 0x20
            && STREAM_IGNORE_PURGED_TOMBSTONES == 0x80,
{
}

/// The first byte of a frame tells its direction.
pub proof fn directions_have_their_bytes(magic: Magic, byte: u8, response: bool)
    requires
        call_ensures(Magic::as_u8, (magic,), byte),
        call_ensures(Magic::is_response, (magic,), response),
    ensures
        magic is Request ==> byte == 0x80 && !response,
        magic is Response ==> byte == 0x81 && response,
        magic is AltRequest ==> byte == 0x08 && !response,
        magic is AltResponse ==> byte == 0x18 && response,
        magic is ServerRequest ==> byte == 0x82 && !response,
{
}

/// Each document operation has its command.
pub proof fn document_operations_have_their_codes(mode: DocumentMode, opcode: u8)
    requires
        call_ensures(DocumentMode::opcode, (mode,), opcode),
    ensures
        mode is Get ==> opcode == 0x00,
        mode is Add ==> opcode == 0x02,
        mode is Replace ==> opcode == 0x03,
        mode is Delete ==> opcode == 0x04,
{
}

/// Fresh frames hold what they were made with and nothing else.
pub proof fn fresh_frames_are_empty(opcode: u8, status: u16, request: Frame, response: Frame)
    requires
        call_ensures(Frame::request, (opcode,), request),
        call_ensures(Frame::response, (opcode, status), response),
    ensures
        request.magic == Magic::Request && response.magic == Magic::Response,
        request.opcode == opcode && response.opcode == opcode,
        request.status == 0 && response.status == status,
        request.vbucket == 0 && request.opaque == 0 && request.cas == 0,
        response.vbucket == 0 && response.opaque == 0 && response.cas == 0,
        request.extras@.len() == 0 && request.key@.len() == 0 && request.value@.len() == 0,
        response.extras@.len() == 0 && response.key@.len() == 0 && response.value@.len() == 0,
{
}

/// A response is a success exactly when it answers the command with status
/// zero; another status is reported with the command.
pub proof fn successes_answer_the_command(
    response: Frame,
    opcode: u8,
    context: &str,
    result: Result<()>,
)
    requires
        call_ensures(ensure_success_response, (&response, opcode, context), result),
    ensures
        result is Ok <==> (response.magic == Magic::Response || response.magic
            == Magic::AltResponse) && response.opcode == opcode && response.status == 0,
        result matches Err(e) ==> (if (response.magic == Magic::Response || response.magic
            == Magic::AltResponse) && response.opcode == opcode {
            e matches DcpError::ServerStatus { status, opcode: command, .. } && status
                == response.status && command == opcode
        } else {
            e is Protocol
        }),
{
}

/// A copied filter is the same filter.
pub proof fn copied_filters_are_the_same(
    filter: Option<StreamFilter>,
    copy: Option<StreamFilter>,
)
    requires
        call_ensures(copy_opt_filter, (&filter,), copy),
    ensures
        filter is Some <==> copy is Some,
        filter matches Some(f) ==> {
            &&& copy->0.scope_id == f.scope_id
            &&& copy->0.collection_ids@ == f.collection_ids@
            &&& copy->0.manifest_uid == f.manifest_uid
            &&& copy->0.stream_id == f.stream_id
        },
{
    if let Some(f) = filter {
        assert(copy->0@ == f@);
    }
}

/// Tokens count up from one, and start again at one: zero is never given out.
pub proof fn tokens_count_up(source: &mut OpaqueSource, token: u32)
    requires
        call_ensures(OpaqueSource::allocate_opaque, (source,), token),
    ensures
        token != 0,
        token == old(source).upcoming(),
        token < u32::MAX ==> final(source).upcoming() == token + 1,
        token == u32::MAX ==> final(source).upcoming() == 1,
{
}

/// The first token is one.
pub proof fn first_token_is_one(source: OpaqueSource, correlator: FrameCorrelator)
    requires
        call_ensures(OpaqueSource::new, (), source),
        call_ensures(FrameCorrelator::new, (), correlator),
    ensures
        source.upcoming() == 1,
        correlator.upcoming() == 1,
        correlator.kept().len() == 0,
{
}

/// A request without a token gets the next one, and is otherwise sent as it
/// is; one with a token keeps it.
pub proof fn requests_get_a_token(correlator: &mut FrameCorrelator, request: Frame, sent: Frame)
    requires
        call_ensures(FrameCorrelator::prepare, (correlator, request), sent),
    ensures
        sent.opaque != 0,
        request.opaque != 0 ==> sent.opaque == request.opaque && final(correlator).upcoming()
            == old(correlator).upcoming(),
        request.opaque == 0 ==> sent.opaque == old(correlator).upcoming(),
        request.opaque == 0 && sent.opaque < u32::MAX ==> final(correlator).upcoming()
            == sent.opaque + 1,
        sent.magic == request.magic && sent.opcode == request.opcode && sent.status
            == request.status && sent.vbucket == request.vbucket && sent.cas == request.cas,
        sent.extras == request.extras && sent.key == request.key && sent.value == request.value,
        final(correlator).kept() == old(correlator).kept(),
{
}

/// A waiting request takes the response with its token; every other frame is
/// kept, in the order of arrival.
pub proof fn responses_are_matched_by_token(
    correlator: &mut FrameCorrelator,
    frame: Frame,
    opaque: u32,
    result: Option<Frame>,
)
    requires
        call_ensures(FrameCorrelator::accept, (correlator, frame, opaque), result),
    ensures
        result is Some <==> (frame.magic == Magic::Response || frame.magic == Magic::AltResponse)
            && frame.opaque == opaque,
        result matches Some(taken) ==> taken == frame && final(correlator).kept() == old(correlator).kept(),
        result is None ==> final(correlator).kept() == old(correlator).kept().push(frame),
        final(correlator).upcoming() == old(correlator).upcoming(),
{
}

/// Kept frames come out in the order of arrival.
pub proof fn kept_frames_come_out_in_order(
    correlator: &mut FrameCorrelator,
    result: Option<Frame>,
)
    requires
        call_ensures(FrameCorrelator::take_pending, (correlator,), result),
    ensures
        result is Some <==> old(correlator).kept().len() > 0,
        result matches Some(frame) ==> old(correlator).kept() == seq![frame]
            + final(correlator).kept(),
        result is None ==> final(correlator).kept() == old(correlator).kept(),
{
    if let Some(frame) = result {
        assert(old(correlator).kept() =~= seq![frame] + final(correlator).kept());
    }
}

/// A connection is dead exactly when nothing came in for the whole timeout.
pub proof fn silent_connections_are_dead(
    start: Interval,
    watch: &mut InboundWatch,
    received: Interval,
    now: Interval,
    timeout: Interval,
    peer: &str,
    result: Result<()>,
)
    requires
        call_ensures(InboundWatch::received, (watch, received), ()),
        call_ensures(InboundWatch::check, (final(watch), &now, timeout, peer), result),
    ensures
        result is Err <==> now.total_nanos() >= received.total_nanos() + timeout.total_nanos(),
        result matches Err(e) ==> (e matches DcpError::DeadConnection { peer: p, idle_for } && p@
            == peer@ && idle_for == timeout),
{
}

/// A fresh watch counts from its start.
pub proof fn fresh_watch_counts_from_its_start(
    start: Interval,
    watch: InboundWatch,
    now: Interval,
    timeout: Interval,
    peer: &str,
    result: Result<()>,
)
    requires
        call_ensures(InboundWatch::new, (start,), watch),
        call_ensures(InboundWatch::check, (&watch, &now, timeout, peer), result),
    ensures
        result is Err <==> now.total_nanos() >= start.total_nanos() + timeout.total_nanos(),
{
}

} // verus!
