//! Errors of the client and their mathematical content.
use vstd::prelude::*;

use crate::checkpoint::FailoverEntry;
use crate::interval::{unit_text, Interval};
use crate::text::{
    dec, dec_text, hex2, hex2_text, hex4, hex4_text, join2, join4, join6,
};

verus! {

/// A frame or message that breaks the wire protocol.
#[derive(Debug)]
pub enum ProtocolError {
    /// The header carries an unknown magic byte.
    InvalidMagic(u8),
    /// A length is inconsistent or cannot be represented.
    InvalidLength(String),
    /// A frame does not have the expected shape.
    MalformedFrame(String),
    /// A DCP message does not have the expected content.
    MalformedDcp(String),
    /// A JSON payload could not be read.
    Json(String),
}

/// Content of a [`ProtocolError`].
pub enum ProtocolFault {
    InvalidMagic(u8),
    InvalidLength(Seq<char>),
    MalformedFrame(Seq<char>),
    MalformedDcp(Seq<char>),
    Json(Seq<char>),
}

impl View for ProtocolError {
    type V = ProtocolFault;

    open spec fn view(&self) -> ProtocolFault {
        match *self {
            ProtocolError::InvalidMagic(magic) => ProtocolFault::InvalidMagic(magic),
            ProtocolError::InvalidLength(m) => ProtocolFault::InvalidLength(m@),
            ProtocolError::MalformedFrame(m) => ProtocolFault::MalformedFrame(m@),
            ProtocolError::MalformedDcp(m) => ProtocolFault::MalformedDcp(m@),
            ProtocolError::Json(m) => ProtocolFault::Json(m@),
        }
    }
}

/// Errors surfaced by the DCP client.
#[derive(Debug)]
#[non_exhaustive]
pub enum DcpError {
    /// User-supplied configuration is invalid.
    InvalidConfiguration(String),
    /// A wire frame or protocol message is invalid.
    Protocol(ProtocolError),
    /// An I/O operation failed.
    Io(String),
    /// TLS setup or validation failed.
    Tls(String),
    /// Authentication was rejected or could not be completed.
    Authentication(String),
    /// The server returned a non-success protocol status.
    ServerStatus {
        /// Memcached status code.
        status: u16,
        /// Opcode associated with the response.
        opcode: u8,
        /// Human-readable context.
        message: String,
    },
    /// A cluster topology could not be discovered or applied.
    Topology(String),
    /// The requested operation is unsupported by the connected server.
    Unsupported(String),
    /// Collection manifest, filter, or event state is inconsistent.
    Collection(String),
    /// A checkpoint could not be validated or persisted.
    Checkpoint(String),
    /// A checkpoint store operation failed.
    CheckpointStore(String),
    /// The server requires the partition to roll back to an earlier history.
    RollbackRequired {
        /// Affected vBucket.
        vbucket: u16,
        /// Sequence number requested by the client.
        requested_seqno: u64,
        /// Sequence number required by the server.
        rollback_seqno: u64,
        /// Current server failover log, newest entry first.
        failover_log: Vec<FailoverEntry>,
    },
    /// Delivery could not be shown safe against a future rollback.
    RollbackMitigation {
        /// Affected vBucket.
        vbucket: u16,
        /// Human-readable reason.
        message: String,
    },
    /// Work from an obsolete assignment generation was observed.
    StaleGeneration {
        /// Generation attached to the operation.
        observed: u64,
        /// Current assignment generation.
        current: u64,
    },
    /// An operation exceeded its configured timeout.
    Timeout(Interval),
    /// No inbound frame arrived within the configured liveness window.
    DeadConnection {
        /// Endpoint whose connection stopped making inbound progress.
        peer: String,
        /// Configured maximum idle duration.
        idle_for: Interval,
    },
    /// The subscription or client was cancelled.
    Cancelled,
    /// A stream ended unexpectedly.
    Stream {
        /// Affected vBucket.
        vbucket: u16,
        /// Human-readable reason.
        message: String,
    },
}

/// Content of a [`DcpError`].
pub enum DcpFault {
    InvalidConfiguration(Seq<char>),
    Protocol(ProtocolFault),
    Io(Seq<char>),
    Tls(Seq<char>),
    Authentication(Seq<char>),
    ServerStatus { status: u16, opcode: u8, message: Seq<char> },
    Topology(Seq<char>),
    Unsupported(Seq<char>),
    Collection(Seq<char>),
    Checkpoint(Seq<char>),
    CheckpointStore(Seq<char>),
    RollbackRequired {
        vbucket: u16,
        requested_seqno: u64,
        rollback_seqno: u64,
        failover_log: Seq<FailoverEntry>,
    },
    RollbackMitigation { vbucket: u16, message: Seq<char> },
    StaleGeneration { observed: u64, current: u64 },
    Timeout(Interval),
    DeadConnection { peer: Seq<char>, idle_for: Interval },
    Cancelled,
    Stream { vbucket: u16, message: Seq<char> },
}

impl View for DcpError {
    type V = DcpFault;

    open spec fn view(&self) -> DcpFault {
        match *self {
            DcpError::InvalidConfiguration(m) => DcpFault::InvalidConfiguration(m@),
            DcpError::Protocol(e) => DcpFault::Protocol(e@),
            DcpError::Io(m) => DcpFault::Io(m@),
            DcpError::Tls(m) => DcpFault::Tls(m@),
            DcpError::Authentication(m) => DcpFault::Authentication(m@),
            DcpError::ServerStatus { status, opcode, message } => DcpFault::ServerStatus {
                status,
                opcode,
                message: message@,
            },
            DcpError::Topology(m) => DcpFault::Topology(m@),
            DcpError::Unsupported(m) => DcpFault::Unsupported(m@),
            DcpError::Collection(m) => DcpFault::Collection(m@),
            DcpError::Checkpoint(m) => DcpFault::Checkpoint(m@),
            DcpError::CheckpointStore(m) => DcpFault::CheckpointStore(m@),
            DcpError::RollbackRequired {
                vbucket,
                requested_seqno,
                rollback_seqno,
                failover_log,
            } => DcpFault::RollbackRequired {
                vbucket,
                requested_seqno,
                rollback_seqno,
                failover_log: failover_log@,
            },
            DcpError::RollbackMitigation { vbucket, message } => DcpFault::RollbackMitigation {
                vbucket,
                message: message@,
            },
            DcpError::StaleGeneration { observed, current } => DcpFault::StaleGeneration {
                observed,
                current,
            },
            DcpError::Timeout(after) => DcpFault::Timeout(after),
            DcpError::DeadConnection { peer, idle_for } => DcpFault::DeadConnection {
                peer: peer@,
                idle_for,
            },
            DcpError::Cancelled => DcpFault::Cancelled,
            DcpError::Stream { vbucket, message } => DcpFault::Stream { vbucket, message: message@ },
        }
    }
}

impl ProtocolFault {
    /// Rendering for people.
    pub open spec fn text(self) -> Seq<char> {
        match self {
            ProtocolFault::InvalidMagic(magic) => "invalid magic byte 0x"@ + hex2(magic as nat),
            ProtocolFault::InvalidLength(m) => "invalid length: "@ + m,
            ProtocolFault::MalformedFrame(m) => "malformed frame: "@ + m,
            ProtocolFault::MalformedDcp(m) => "malformed DCP message: "@ + m,
            ProtocolFault::Json(m) => "JSON error: "@ + m,
        }
    }
}

impl ProtocolError {
    /// Renders the error for people.
    pub fn to_text(&self) -> (result: String)
        ensures
            result@ == self@.text(),
    {
        match self {
            ProtocolError::InvalidMagic(magic) => join2(
                "invalid magic byte 0x",
                hex2_text(*magic as u64).as_str(),
            ),
            ProtocolError::InvalidLength(m) => join2("invalid length: ", m.as_str()),
            ProtocolError::MalformedFrame(m) => join2("malformed frame: ", m.as_str()),
            ProtocolError::MalformedDcp(m) => join2("malformed DCP message: ", m.as_str()),
            ProtocolError::Json(m) => join2("JSON error: ", m.as_str()),
        }
    }
}

impl DcpFault {
    /// Rendering for people.
    pub open spec fn text(self) -> Seq<char> {
        match self {
            DcpFault::InvalidConfiguration(m) => "invalid configuration: "@ + m,
            DcpFault::Protocol(e) => e.text(),
            DcpFault::Io(m) => "I/O error: "@ + m,
            DcpFault::Tls(m) => "TLS error: "@ + m,
            DcpFault::Authentication(m) => "authentication failed: "@ + m,
            DcpFault::ServerStatus { status, opcode, message } => "server returned status 0x"@
                + hex4(status as nat) + " for opcode 0x"@ + hex2(opcode as nat) + ": "@ + message,
            DcpFault::Topology(m) => "topology error: "@ + m,
            DcpFault::Unsupported(m) => "unsupported capability: "@ + m,
            DcpFault::Collection(m) => "collection state error: "@ + m,
            DcpFault::Checkpoint(m) => "checkpoint error: "@ + m,
            DcpFault::CheckpointStore(m) => "checkpoint store error: "@ + m,
            DcpFault::RollbackRequired {
                vbucket,
                requested_seqno,
                rollback_seqno,
                failover_log,
            } => "vBucket "@ + dec(vbucket as nat) + " requires rollback from seqno "@ + dec(
                requested_seqno as nat,
            ) + " to "@ + dec(rollback_seqno as nat),
            DcpFault::RollbackMitigation { vbucket, message } =>
                "rollback mitigation failed for vBucket "@ + dec(vbucket as nat) + ": "@ + message,
            DcpFault::StaleGeneration { observed, current } => "stale assignment generation "@
                + dec(observed as nat) + "; current generation is "@ + dec(current as nat),
            DcpFault::Timeout(after) => "operation timed out after "@ + unit_text(
                after.total_nanos(),
            ),
            DcpFault::DeadConnection { peer, idle_for } => "KV peer "@ + peer + " was silent for "@
                + unit_text(idle_for.total_nanos()),
            DcpFault::Cancelled => "operation cancelled"@,
            DcpFault::Stream { vbucket, message } => "stream error for vBucket "@ + dec(
                vbucket as nat,
            ) + ": "@ + message,
        }
    }
}

impl DcpError {
    /// Renders the error for people.
    pub fn to_text(&self) -> (result: String)
        ensures
            result@ == self@.text(),
    {
        match self {
            DcpError::InvalidConfiguration(m) => join2("invalid configuration: ", m.as_str()),
            DcpError::Protocol(e) => e.to_text(),
            DcpError::Io(m) => join2("I/O error: ", m.as_str()),
            DcpError::Tls(m) => join2("TLS error: ", m.as_str()),
            DcpError::Authentication(m) => join2("authentication failed: ", m.as_str()),
            DcpError::ServerStatus { status, opcode, message } => join6(
                "server returned status 0x",
                hex4_text(*status as u64).as_str(),
                " for opcode 0x",
                hex2_text(*opcode as u64).as_str(),
                ": ",
                message.as_str(),
            ),
            DcpError::Topology(m) => join2("topology error: ", m.as_str()),
            DcpError::Unsupported(m) => join2("unsupported capability: ", m.as_str()),
            DcpError::Collection(m) => join2("collection state error: ", m.as_str()),
            DcpError::Checkpoint(m) => join2("checkpoint error: ", m.as_str()),
            DcpError::CheckpointStore(m) => join2("checkpoint store error: ", m.as_str()),
            DcpError::RollbackRequired { vbucket, requested_seqno, rollback_seqno, .. } => join6(
                "vBucket ",
                dec_text(*vbucket as u64).as_str(),
                " requires rollback from seqno ",
                dec_text(*requested_seqno).as_str(),
                " to ",
                dec_text(*rollback_seqno).as_str(),
            ),
            DcpError::RollbackMitigation { vbucket, message } => join4(
                "rollback mitigation failed for vBucket ",
                dec_text(*vbucket as u64).as_str(),
                ": ",
                message.as_str(),
            ),
            DcpError::StaleGeneration { observed, current } => join4(
                "stale assignment generation ",
                dec_text(*observed).as_str(),
                "; current generation is ",
                dec_text(*current).as_str(),
            ),
            DcpError::Timeout(after) => join2(
                "operation timed out after ",
                after.debug_text().as_str(),
            ),
            DcpError::DeadConnection { peer, idle_for } => join4(
                "KV peer ",
                peer.as_str(),
                " was silent for ",
                idle_for.debug_text().as_str(),
            ),
            DcpError::Cancelled => "operation cancelled".to_owned(),
            DcpError::Stream { vbucket, message } => join4(
                "stream error for vBucket ",
                dec_text(*vbucket as u64).as_str(),
                ": ",
                message.as_str(),
            ),
        }
    }
}

/// Result type used throughout the client.
pub type Result<T, E = DcpError> = std::result::Result<T, E>;

/// Mathematical outcome of an operation.
pub type Outcome<T> = std::result::Result<T, DcpFault>;

/// An operation yields exactly the outcome given.
pub open spec fn agrees<T: View>(result: Result<T>, outcome: Outcome<T::V>) -> bool {
    match (result, outcome) {
        (Ok(value), Ok(model)) => value@ == model,
        (Err(error), Err(fault)) => error@ == fault,
        _ => false,
    }
}

/// A check that yields no value fails with exactly the fault given, if any.
pub open spec fn checked(result: Result<()>, fault: Option<DcpFault>) -> bool {
    match result {
        Ok(_) => fault is None,
        Err(e) => fault == Some(e@),
    }
}

/// Wraps a malformed-frame message.
pub fn malformed_frame(message: String) -> (result: DcpError)
    ensures
        result@ == malformed_frame_fault(message@),
{
    DcpError::Protocol(ProtocolError::MalformedFrame(message))
}

/// Content of a malformed-frame error.
pub open spec fn malformed_frame_fault(message: Seq<char>) -> DcpFault {
    DcpFault::Protocol(ProtocolFault::MalformedFrame(message))
}

/// Wraps a malformed-message text.
pub fn malformed_dcp(message: String) -> (result: DcpError)
    ensures
        result@ == malformed_dcp_fault(message@),
{
    DcpError::Protocol(ProtocolError::MalformedDcp(message))
}

/// Content of a malformed-message error.
pub open spec fn malformed_dcp_fault(message: Seq<char>) -> DcpFault {
    DcpFault::Protocol(ProtocolFault::MalformedDcp(message))
}

impl From<ProtocolError> for DcpError {
    fn from(error: ProtocolError) -> (result: DcpError) {
        DcpError::Protocol(error)
    }
}

impl vstd::std_specs::convert::FromSpecImpl<ProtocolError> for DcpError {
    open spec fn obeys_from_spec() -> bool {
        true
    }

    open spec fn from_spec(error: ProtocolError) -> DcpError {
        DcpError::Protocol(error)
    }
}

} // verus!
