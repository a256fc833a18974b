//! Plain data carried by the key-value and change-feed protocol.
use vstd::prelude::*;

use crate::checkpoint::FailoverEntry;
use crate::error::{checked, malformed_frame, malformed_frame_fault, DcpError, DcpFault, Result};
use crate::event::{OsoSnapshotState, StreamEndReason};
use crate::text::{hex2, hex2_text, join3, join6, lossy, lossy_text};

verus! {

/// Header byte that tells requests from responses.
#[derive(Clone, Copy, Debug, PartialEq, Eq, Structural)]
pub enum Magic {
    /// Client request.
    Request,
    /// Server response.
    Response,
    /// Client request with framing extras.
    AltRequest,
    /// Server response with framing extras.
    AltResponse,
    /// Request sent by the server.
    ServerRequest,
}

impl Magic {
    /// Tells a response.
    pub open spec fn responds(self) -> bool {
        self == Magic::Response || self == Magic::AltResponse
    }

    /// Wire byte.
    pub open spec fn byte(self) -> u8 {
        match self {
            Magic::Request => 0x80,
            Magic::Response => 0x81,
            Magic::AltRequest => 0x08,
            Magic::AltResponse => 0x18,
            Magic::ServerRequest => 0x82,
        }
    }

    /// Tells a response.
    pub fn is_response(self) -> (result: bool)
        ensures
            result == self.responds(),
    {
        match self {
            Magic::Response | Magic::AltResponse => true,
            _ => false,
        }
    }

    /// Wire byte.
    pub fn as_u8(self) -> (result: u8)
        ensures
            result == self.byte(),
    {
        match self {
            Magic::Request => 0x80,
            Magic::Response => 0x81,
            Magic::AltRequest => 0x08,
            Magic::AltResponse => 0x18,
            Magic::ServerRequest => 0x82,
        }
    }
}

/// `GET`.
pub const OPCODE_GET: u8 = 0x00;

/// `SET`.
pub const OPCODE_SET: u8 = 0x01;

/// `ADD`.
pub const OPCODE_ADD: u8 = 0x02;

/// `REPLACE`.
pub const OPCODE_REPLACE: u8 = 0x03;

/// `DELETE`.
pub const OPCODE_DELETE: u8 = 0x04;

/// `NOOP`.
pub const OPCODE_NOOP: u8 = 0x0a;

/// `HELLO`.
pub const OPCODE_HELLO: u8 = 0x1f;

/// `SASL_LIST_MECHS`.
pub const OPCODE_SASL_LIST_MECHS: u8 = 0x20;

/// `SASL_AUTH`.
pub const OPCODE_SASL_AUTH: u8 = 0x21;

/// `SASL_STEP`.
pub const OPCODE_SASL_STEP: u8 = 0x22;

/// `GET_ALL_VB_SEQNOS`.
pub const OPCODE_GET_ALL_VB_SEQNOS: u8 = 0x48;

/// `DCP_OPEN`.
pub const OPCODE_DCP_OPEN: u8 = 0x50;

/// `DCP_CLOSE_STREAM`.
pub const OPCODE_DCP_CLOSE_STREAM: u8 = 0x52;

/// `DCP_STREAM_REQUEST`.
pub const OPCODE_DCP_STREAM_REQUEST: u8 = 0x53;

/// `DCP_GET_FAILOVER_LOG`.
pub const OPCODE_DCP_GET_FAILOVER_LOG: u8 = 0x54;

/// `DCP_NOOP`.
pub const OPCODE_DCP_NOOP: u8 = 0x5c;

/// `DCP_CONTROL`.
pub const OPCODE_DCP_CONTROL: u8 = 0x5e;

/// `SELECT_BUCKET`.
pub const OPCODE_SELECT_BUCKET: u8 = 0x89;

/// `GET_CLUSTER_CONFIG`.
pub const OPCODE_GET_CLUSTER_CONFIG: u8 = 0xb5;

/// Sub-document multi lookup.
pub const OPCODE_SUBDOC_MULTI_LOOKUP: u8 = 0xd0;

/// Sub-document multi mutation.
pub const OPCODE_SUBDOC_MULTI_MUTATION: u8 = 0xd1;

/// Success.
pub const STATUS_SUCCESS: u16 = 0x00;

/// The document does not exist.
pub const STATUS_KEY_NOT_FOUND: u16 = 0x01;

/// The document exists, or its CAS differs.
pub const STATUS_KEY_EXISTS: u16 = 0x02;

/// The request was refused as invalid.
pub const STATUS_INVALID_ARGUMENTS: u16 = 0x04;

/// Another node is active for the vBucket.
pub const STATUS_NOT_MY_VBUCKET: u16 = 0x07;

/// The credentials were refused.
pub const STATUS_AUTH_ERROR: u16 = 0x20;

/// Authentication needs a further step.
pub const STATUS_AUTH_CONTINUE: u16 = 0x21;

/// The stream must roll back first.
pub const STATUS_ROLLBACK: u16 = 0x23;

/// The server does not know the command.
pub const STATUS_UNKNOWN_COMMAND: u16 = 0x81;

/// The server does not support the command.
pub const STATUS_NOT_SUPPORTED: u16 = 0x83;

/// One protocol frame.
#[derive(Clone, Debug, Eq, PartialEq)]
pub struct Frame {
    /// Direction of the frame.
    pub magic: Magic,
    /// Command.
    pub opcode: u8,
    /// Outcome, in a response.
    pub status: u16,
    /// Addressed vBucket, in a request.
    pub vbucket: u16,
    /// Correlation token.
    pub opaque: u32,
    /// Compare-and-swap token.
    pub cas: u64,
    /// Command-specific header extension.
    pub extras: Vec<u8>,
    /// Document key or option name.
    pub key: Vec<u8>,
    /// Payload.
    pub value: Vec<u8>,
}

impl Frame {
    /// An empty request.
    pub fn request(opcode: u8) -> (result: Self)
        ensures
            result.magic == Magic::Request,
            result.opcode == opcode,
            result.status == 0 && result.vbucket == 0 && result.opaque == 0 && result.cas == 0,
            result.extras@.len() == 0 && result.key@.len() == 0 && result.value@.len() == 0,
    {
        Frame {
            magic: Magic::Request,
            opcode,
            status: 0,
            vbucket: 0,
            opaque: 0,
            cas: 0,
            extras: Vec::new(),
            key: Vec::new(),
            value: Vec::new(),
        }
    }

    /// An empty response.
    pub fn response(opcode: u8, status: u16) -> (result: Self)
        ensures
            result.magic == Magic::Response,
            result.opcode == opcode,
            result.status == status,
            result.vbucket == 0 && result.opaque == 0 && result.cas == 0,
            result.extras@.len() == 0 && result.key@.len() == 0 && result.value@.len() == 0,
    {
        Frame {
            magic: Magic::Response,
            opcode,
            status,
            vbucket: 0,
            opaque: 0,
            cas: 0,
            extras: Vec::new(),
            key: Vec::new(),
            value: Vec::new(),
        }
    }
}

/// What a server-status error says: the context, with the payload when there
/// is one.
pub open spec fn status_message(context: Seq<char>, value: Seq<u8>) -> Seq<char> {
    if value.len() == 0 {
        context
    } else {
        context + ": "@ + lossy(value)
    }
}

/// Why a response does not acknowledge a command, if it does not.
pub open spec fn response_fault(response: Frame, opcode: u8, context: Seq<char>) -> Option<
    DcpFault,
> {
    if !response.magic.responds() || response.opcode != opcode {
        Some(
            malformed_frame_fault(
                "expected response opcode 0x"@ + hex2(opcode as nat) + ", got magic 0x"@ + hex2(
                    response.magic.byte() as nat,
                ) + " opcode 0x"@ + hex2(response.opcode as nat),
            ),
        )
    } else if response.status == STATUS_SUCCESS {
        None
    } else {
        Some(
            DcpFault::ServerStatus {
                status: response.status,
                opcode: response.opcode,
                message: status_message(context, response.value@),
            },
        )
    }
}

/// Accepts only a successful response to `opcode`.
pub fn ensure_success_response(response: &Frame, opcode: u8, context: &str) -> (result: Result<()>)
    ensures
        checked(result, response_fault(*response, opcode, context@)),
{
    if !response.magic.is_response() || response.opcode != opcode {
        return Err(
            malformed_frame(
                join6(
                    "expected response opcode 0x",
                    hex2_text(opcode as u64).as_str(),
                    ", got magic 0x",
                    hex2_text(response.magic.as_u8() as u64).as_str(),
                    " opcode 0x",
                    hex2_text(response.opcode as u64).as_str(),
                ),
            ),
        );
    }
    if response.status == STATUS_SUCCESS {
        return Ok(());
    }
    Err(
        DcpError::ServerStatus {
            status: response.status,
            opcode: response.opcode,
            message: status_text(context, &response.value),
        },
    )
}

/// Renders a context with the payload of a response.
pub fn status_text(context: &str, value: &Vec<u8>) -> (result: String)
    ensures
        result@ == status_message(context@, value@),
{
    if value.len() == 0 {
        context.to_owned()
    } else {
        join3(context, ": ", lossy_text(value.as_slice()).as_str())
    }
}

/// Server-side filter of a stream request.
#[derive(Debug, Eq, PartialEq)]
pub struct StreamFilter {
    /// Whole-scope filter.
    pub scope_id: Option<u32>,
    /// Collections to stream.
    pub collection_ids: Vec<u32>,
    /// Manifest observed at the start position.
    pub manifest_uid: Option<u64>,
    /// Multiplexed stream ID.
    pub stream_id: Option<u16>,
}

/// Content of a stream filter.
pub struct FilterModel {
    pub scope_id: Option<u32>,
    pub collection_ids: Seq<u32>,
    pub manifest_uid: Option<u64>,
    pub stream_id: Option<u16>,
}

impl View for StreamFilter {
    type V = FilterModel;

    open spec fn view(&self) -> FilterModel {
        FilterModel {
            scope_id: self.scope_id,
            collection_ids: self.collection_ids@,
            manifest_uid: self.manifest_uid,
            stream_id: self.stream_id,
        }
    }
}

/// Copies identifiers.
pub fn copy_ids(ids: &Vec<u32>) -> (result: Vec<u32>)
    ensures
        result@ == ids@,
{
    let mut copy: Vec<u32> = Vec::new();
    let mut i: usize = 0;
    while i < ids.len()
        invariant
            i <= ids@.len(),
            copy@ =~= ids@.take(i as int),
        decreases ids@.len() - i,
    {
        copy.push(ids[i]);
        i = i + 1;
    }
    copy
}

impl Clone for StreamFilter {
    fn clone(&self) -> (result: Self)
        ensures
            result@ == self@,
    {
        StreamFilter {
            scope_id: self.scope_id,
            collection_ids: copy_ids(&self.collection_ids),
            manifest_uid: self.manifest_uid,
            stream_id: self.stream_id,
        }
    }
}

/// Content of an optional filter.
pub open spec fn opt_filter(filter: Option<StreamFilter>) -> Option<FilterModel> {
    match filter {
        Some(f) => Some(f@),
        None => None,
    }
}

/// Copies an optional filter.
pub fn copy_opt_filter(filter: &Option<StreamFilter>) -> (result: Option<StreamFilter>)
    ensures
        opt_filter(result) == opt_filter(*filter),
{
    match filter {
        Some(f) => Some(f.clone()),
        None => None,
    }
}

/// Stream only from the active copy.
pub const STREAM_ACTIVE_ONLY: u32 = 0x10;

/// Compare the history branch even at sequence number zero.
pub const STREAM_STRICT_VBUUID: u32 = 0x20;

/// Accept a start position behind the purge point.
pub const STREAM_IGNORE_PURGED_TOMBSTONES: u32 = 0x80;

/// Request to open one vBucket stream.
#[derive(Debug)]
pub struct StreamRequest {
    /// vBucket to stream.
    pub vbucket: u16,
    /// Stream flags.
    pub flags: u32,
    /// History branch of the start position.
    pub vbucket_uuid: u64,
    /// Start sequence number.
    pub start_seqno: u64,
    /// End sequence number.
    pub end_seqno: u64,
    /// Snapshot start of the start position.
    pub snapshot_start: u64,
    /// Snapshot end of the start position.
    pub snapshot_end: u64,
    /// Optional collection filter.
    pub filter: Option<StreamFilter>,
    /// Correlation token; zero asks the connection to allocate one.
    pub opaque: u32,
}

/// Outcome of a stream request.
#[derive(Debug)]
pub enum StreamRequestResponse {
    /// The stream is open; failover log, newest entry first.
    Opened(Vec<FailoverEntry>),
    /// The producer requires a rewind to this sequence number.
    Rollback(u64),
}

/// Kind of a document request.
#[derive(Clone, Copy, Debug, PartialEq, Eq, Structural)]
pub enum DocumentMode {
    /// Read the document.
    Get,
    /// Create the document if it does not exist.
    Add,
    /// Replace the revision with the given CAS.
    Replace,
    /// Remove the document.
    Delete,
}

impl DocumentMode {
    /// Opcode of the request and of its response.
    pub open spec fn code(self) -> u8 {
        match self {
            DocumentMode::Get => OPCODE_GET,
            DocumentMode::Add => OPCODE_ADD,
            DocumentMode::Replace => OPCODE_REPLACE,
            DocumentMode::Delete => OPCODE_DELETE,
        }
    }

    /// Opcode of the request and of its response.
    pub fn opcode(self) -> (result: u8)
        ensures
            result == self.code(),
    {
        match self {
            DocumentMode::Get => OPCODE_GET,
            DocumentMode::Add => OPCODE_ADD,
            DocumentMode::Replace => OPCODE_REPLACE,
            DocumentMode::Delete => OPCODE_DELETE,
        }
    }
}

/// Request for one document.
#[derive(Debug, Eq, PartialEq)]
pub struct DocumentRequest {
    /// Kind of the request.
    pub mode: DocumentMode,
    /// Document key.
    pub key: Vec<u8>,
    /// Document body.
    pub value: Vec<u8>,
    /// Collection, where collections are in use.
    pub collection_id: Option<u32>,
    /// vBucket of the key.
    pub vbucket: u16,
    /// Datatype of the body.
    pub datatype: u8,
    /// Revision to replace.
    pub cas: u64,
}

/// High sequence number of one vBucket.
#[derive(Clone, Copy, Debug, PartialEq, Eq, Structural)]
pub struct VBucketSeqno {
    /// vBucket identifier.
    pub vbucket: u16,
    /// High sequence number.
    pub seqno: u64,
}

/// Persistence state of one copy of a vBucket.
#[derive(Clone, Copy, Debug, PartialEq, Eq, Structural)]
pub struct ObserveSeqNoResponse {
    /// The node has seen a failover since the requested branch.
    pub did_failover: bool,
    /// Observed vBucket.
    pub vbucket: u16,
    /// Current history branch.
    pub vbucket_uuid: u64,
    /// Highest persisted sequence number.
    pub persisted_seqno: u64,
    /// Highest sequence number in memory.
    pub current_seqno: u64,
    /// Former history branch after a failover.
    pub old_vbucket_uuid: Option<u64>,
    /// Last sequence number of the former branch.
    pub last_seqno: Option<u64>,
}

/// Mutation as decoded from the wire.
#[derive(Debug)]
pub struct WireMutation {
    pub vbucket: u16,
    pub stream_id: Option<u16>,
    pub seqno: u64,
    pub rev_seqno: u64,
    pub flags: u32,
    pub expiry: u32,
    pub lock_time: u32,
    pub cas: u64,
    pub datatype: u8,
    pub collection_id: Option<u32>,
    pub key: Vec<u8>,
    pub value: Vec<u8>,
}

/// Deletion as decoded from the wire.
#[derive(Debug)]
pub struct WireDeletion {
    pub vbucket: u16,
    pub stream_id: Option<u16>,
    pub seqno: u64,
    pub rev_seqno: u64,
    pub delete_time: Option<u32>,
    pub cas: u64,
    pub collection_id: Option<u32>,
    pub key: Vec<u8>,
    pub value: Vec<u8>,
    pub datatype: u8,
}

/// Expiration as decoded from the wire.
#[derive(Debug)]
pub struct WireExpiration {
    pub vbucket: u16,
    pub stream_id: Option<u16>,
    pub seqno: u64,
    pub rev_seqno: u64,
    pub delete_time: Option<u32>,
    pub cas: u64,
    pub collection_id: Option<u32>,
    pub key: Vec<u8>,
    pub value: Vec<u8>,
    pub datatype: u8,
}

/// Snapshot marker as decoded from the wire.
#[derive(Clone, Copy, Debug)]
pub struct WireSnapshotMarker {
    pub vbucket: u16,
    pub stream_id: Option<u16>,
    pub start_seqno: u64,
    pub end_seqno: u64,
    pub flags: u32,
    pub max_visible_seqno: Option<u64>,
    pub high_completed_seqno: Option<u64>,
    pub timestamp: Option<u64>,
    pub purge_seqno: Option<u64>,
}

/// Stream end as decoded from the wire.
#[derive(Clone, Copy, Debug)]
pub struct WireStreamEnd {
    pub vbucket: u16,
    pub stream_id: Option<u16>,
    pub reason: StreamEndReason,
}

/// Progress jump as decoded from the wire.
#[derive(Clone, Copy, Debug)]
pub struct WireSeqNoAdvanced {
    pub vbucket: u16,
    pub stream_id: Option<u16>,
    pub seqno: u64,
}

/// Payload of a system event as decoded from the wire.
#[derive(Debug)]
pub enum WireSystemEventKind {
    CollectionCreated { scope_id: u32, collection_id: u32, max_ttl: Option<u32> },
    CollectionDropped { scope_id: u32, collection_id: u32 },
    CollectionFlushed { collection_id: u32 },
    ScopeCreated { scope_id: u32 },
    ScopeDropped { scope_id: u32 },
    CollectionChanged { collection_id: u32, ttl: u32 },
    Unknown { code: u32, data: Vec<u8> },
}

/// System event as decoded from the wire.
#[derive(Debug)]
pub struct WireSystemEvent {
    pub vbucket: u16,
    pub stream_id: Option<u16>,
    pub seqno: u64,
    pub manifest_uid: u64,
    pub version: u8,
    pub key: Vec<u8>,
    pub kind: WireSystemEventKind,
}

/// Out-of-sequence marker as decoded from the wire.
#[derive(Clone, Copy, Debug)]
pub struct WireOsoSnapshot {
    pub vbucket: u16,
    pub stream_id: Option<u16>,
    pub state: OsoSnapshotState,
}

/// Decoded message of a DCP producer.
#[derive(Debug)]
pub enum DcpMessage {
    Mutation(WireMutation),
    Deletion(WireDeletion),
    Expiration(WireExpiration),
    SnapshotMarker(WireSnapshotMarker),
    StreamEnd(WireStreamEnd),
    SeqNoAdvanced(WireSeqNoAdvanced),
    SystemEvent(WireSystemEvent),
    OsoSnapshot(WireOsoSnapshot),
    /// Liveness probe to be answered with the same opaque.
    Noop { opaque: u32 },
    /// A frame that is not understood.
    Unknown(Frame),
}

} // verus!
