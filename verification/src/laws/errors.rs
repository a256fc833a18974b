//! Laws of error messages.
use vstd::prelude::*;

use crate::error::{malformed_dcp, malformed_frame, DcpError, ProtocolError};
use crate::interval::Interval;
use crate::membership::error::CouchbaseMembershipError;
use crate::protocol::status_text;
use crate::text::{dec_text, hex2_text, hex4_text, lossy};

verus! {

/// A text that ends with the message.
pub open spec fn ends_with(text: Seq<char>, head: Seq<char>, message: Seq<char>) -> bool {
    text == head + message
}

/// Every error names its kind and then tells its message.
pub proof fn errors_tell_their_message(e: DcpError, text: String)
    requires
        call_ensures(DcpError::to_text, (&e,), text),
    ensures
        e matches DcpError::InvalidConfiguration(m) ==> ends_with(
            text@,
            "invalid configuration: "@,
            m@,
        ),
        e matches DcpError::Io(m) ==> ends_with(text@, "I/O error: "@, m@),
        e matches DcpError::Tls(m) ==> ends_with(text@, "TLS error: "@, m@),
        e matches DcpError::Authentication(m) ==> ends_with(
            text@,
            "authentication failed: "@,
            m@,
        ),
        e matches DcpError::Topology(m) ==> ends_with(text@, "topology error: "@, m@),
        e matches DcpError::Unsupported(m) ==> ends_with(text@, "unsupported capability: "@, m@),
        e matches DcpError::Collection(m) ==> ends_with(text@, "collection state error: "@, m@),
        e matches DcpError::Checkpoint(m) ==> ends_with(text@, "checkpoint error: "@, m@),
        e matches DcpError::CheckpointStore(m) ==> ends_with(
            text@,
            "checkpoint store error: "@,
            m@,
        ),
        e matches DcpError::Cancelled ==> text@ == "operation cancelled"@,
{
}

/// Errors of a vBucket name it and its sequence numbers.
pub proof fn errors_name_their_vbucket(
    e: DcpError,
    text: String,
    vbucket: u16,
    requested: u64,
    rollback: u64,
    v: String,
    a: String,
    b: String,
)
    requires
        call_ensures(DcpError::to_text, (&e,), text),
        call_ensures(dec_text, (vbucket as u64,), v),
        call_ensures(dec_text, (requested,), a),
        call_ensures(dec_text, (rollback,), b),
    ensures
        e matches DcpError::RollbackRequired {
            vbucket: w,
            requested_seqno,
            rollback_seqno,
            ..
        } ==> (w == vbucket && requested_seqno == requested && rollback_seqno == rollback ==> text@
            == "vBucket "@ + v@ + " requires rollback from seqno "@ + a@ + " to "@ + b@),
        e matches DcpError::RollbackMitigation { vbucket: w, message } ==> (w == vbucket ==> text@
            == "rollback mitigation failed for vBucket "@ + v@ + ": "@ + message@),
        e matches DcpError::Stream { vbucket: w, message } ==> (w == vbucket ==> text@
            == "stream error for vBucket "@ + v@ + ": "@ + message@),
        e matches DcpError::StaleGeneration { observed, current } ==> (observed == requested
            && current == rollback ==> text@ == "stale assignment generation "@ + a@
            + "; current generation is "@ + b@),
{
}

/// A server's refusal tells status, command and message; protocol errors tell
/// what was wrong.
pub proof fn refusals_tell_their_status(
    e: DcpError,
    text: String,
    status: u16,
    opcode: u8,
    s: String,
    o: String,
    p: ProtocolError,
    told: String,
)
    requires
        call_ensures(DcpError::to_text, (&e,), text),
        call_ensures(hex4_text, (status as u64,), s),
        call_ensures(hex2_text, (opcode as u64,), o),
        call_ensures(ProtocolError::to_text, (&p,), told),
    ensures
        e matches DcpError::ServerStatus { status: x, opcode: y, message } ==> (x == status && y
            == opcode ==> text@ == "server returned status 0x"@ + s@ + " for opcode 0x"@ + o@
            + ": "@ + message@),
        e == DcpError::Protocol(p) ==> text@ == told@,
        p matches ProtocolError::InvalidMagic(m) ==> (m == opcode ==> told@
            == "invalid magic byte 0x"@ + o@),
        p matches ProtocolError::InvalidLength(m) ==> ends_with(told@, "invalid length: "@, m@),
        p matches ProtocolError::MalformedFrame(m) ==> ends_with(told@, "malformed frame: "@, m@),
        p matches ProtocolError::MalformedDcp(m) ==> ends_with(
            told@,
            "malformed DCP message: "@,
            m@,
        ),
        p matches ProtocolError::Json(m) ==> ends_with(told@, "JSON error: "@, m@),
{
}

/// Silence and delay are told with their length.
pub proof fn delays_tell_their_length(
    e: DcpError,
    text: String,
    length: Interval,
    shown: String,
)
    requires
        call_ensures(DcpError::to_text, (&e,), text),
        call_ensures(Interval::debug_text, (&length,), shown),
    ensures
        e == DcpError::Timeout(length) ==> text@ == "operation timed out after "@ + shown@,
        e matches DcpError::DeadConnection { peer, idle_for } ==> (idle_for == length ==> text@
            == "KV peer "@ + peer@ + " was silent for "@ + shown@),
{
}

/// A refusal is told with what the server sent along, if it sent anything.
pub proof fn refusals_tell_the_payload(context: &str, value: Vec<u8>, text: String)
    requires
        call_ensures(status_text, (context, &value), text),
    ensures
        value@.len() == 0 ==> text@ == context@,
        value@.len() > 0 ==> ends_with(text@, context@ + ": "@, lossy(value@)),
{
}

/// Malformed input is a protocol error with its message.
pub proof fn malformed_input_is_a_protocol_error(
    message: String,
    frame: DcpError,
    dcp: DcpError,
)
    requires
        call_ensures(malformed_frame, (message,), frame),
        call_ensures(malformed_dcp, (message,), dcp),
    ensures
        frame matches DcpError::Protocol(ProtocolError::MalformedFrame(m)) && m@ == message@,
        dcp matches DcpError::Protocol(ProtocolError::MalformedDcp(m)) && m@ == message@,
{
}

/// Membership errors name their kind and then tell their message.
pub proof fn membership_errors_tell_their_message(
    e: CouchbaseMembershipError,
    text: String,
    inner: DcpError,
    told: String,
)
    requires
        call_ensures(CouchbaseMembershipError::to_text, (&e,), text),
        call_ensures(DcpError::to_text, (&inner,), told),
    ensures
        e matches CouchbaseMembershipError::Configuration(m) ==> ends_with(
            text@,
            "invalid Couchbase membership configuration: "@,
            m@,
        ),
        e matches CouchbaseMembershipError::Registry(m) ==> ends_with(
            text@,
            "invalid Couchbase membership registry: "@,
            m@,
        ),
        e matches CouchbaseMembershipError::Json(m) ==> ends_with(
            text@,
            "Couchbase membership JSON error: "@,
            m@,
        ),
        e == CouchbaseMembershipError::Dcp(inner) ==> ends_with(
            text@,
            "Couchbase membership KV error: "@,
            told@,
        ),
        e matches CouchbaseMembershipError::Store(m) ==> ends_with(
            text@,
            "Couchbase membership store error: "@,
            m@,
        ),
        e matches CouchbaseMembershipError::Task(m) ==> ends_with(
            text@,
            "Couchbase membership task failed: "@,
            m@,
        ),
        e matches CouchbaseMembershipError::Cancelled ==> text@
            == "Couchbase membership runtime was cancelled"@,
{
}

} // verus!
