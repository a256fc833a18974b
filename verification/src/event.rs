//! Typed events of the change feed.
use vstd::prelude::*;

verus! {

/// Memcached datatype flags attached to a value.
#[derive(Clone, Copy, Debug, Default, PartialEq, Eq, Structural)]
pub struct DataType(pub u8);

impl DataType {
    /// JSON value bit.
    pub const JSON: u8 = 0x01;

    /// Snappy-compressed value bit.
    pub const SNAPPY: u8 = 0x02;

    /// XATTR prefix bit.
    pub const XATTR: u8 = 0x04;

    /// Preserves every bit supplied by the server.
    #[must_use]
    pub fn from_bits_retain(bits: u8) -> (result: Self)
        ensures
            result.0 == bits,
    {
        DataType(bits)
    }

    /// Raw datatype byte.
    #[must_use]
    pub fn bits(self) -> (result: u8)
        ensures
            result == self.0,
    {
        self.0
    }

    /// Tests whether all bits in `flag` are set.
    #[must_use]
    pub fn contains(self, flag: Self) -> (result: bool)
        ensures
            result == (self.0 & flag.0 == flag.0),
    {
        self.0 & flag.0 == flag.0
    }
}

/// Snapshot marker flags.
#[derive(Clone, Copy, Debug, Default, PartialEq, Eq, Structural)]
pub struct SnapshotFlags(pub u32);

impl SnapshotFlags {
    /// Snapshot contains in-memory items.
    pub const MEMORY: u32 = 0x01;

    /// Snapshot contains on-disk items.
    pub const DISK: u32 = 0x02;

    /// Checkpoint boundary marker.
    pub const CHECKPOINT: u32 = 0x04;

    /// Snapshot acknowledges completion.
    pub const ACK: u32 = 0x08;

    /// Snapshot may contain historical values.
    pub const HISTORY: u32 = 0x10;

    /// Snapshot can contain duplicate sequence numbers.
    pub const MAY_CONTAIN_DUPLICATES: u32 = 0x20;

    /// Preserves every bit supplied by the server.
    #[must_use]
    pub fn from_bits_retain(bits: u32) -> (result: Self)
        ensures
            result.0 == bits,
    {
        SnapshotFlags(bits)
    }

    /// Raw flags.
    #[must_use]
    pub fn bits(self) -> (result: u32)
        ensures
            result == self.0,
    {
        self.0
    }

    /// Tests whether all bits in `flag` are set.
    #[must_use]
    pub fn contains(self, flag: Self) -> (result: bool)
        ensures
            result == (self.0 & flag.0 == flag.0),
    {
        self.0 & flag.0 == flag.0
    }
}

/// Document mutation event.
#[derive(Debug, Eq, PartialEq)]
pub struct DcpMutation {
    /// vBucket identifier.
    pub vbucket: u16,
    /// Sequence number in the vBucket history.
    pub seqno: u64,
    /// Document revision sequence number.
    pub rev_seqno: u64,
    /// Document flags.
    pub flags: u32,
    /// Expiration epoch seconds.
    pub expiry: u32,
    /// Lock time supplied by the server.
    pub lock_time: u32,
    /// CAS value.
    pub cas: u64,
    /// Value datatype flags.
    pub datatype: DataType,
    /// Collection ID when collections are enabled.
    pub collection_id: Option<u32>,
    /// Resolved collection name when available.
    pub collection_name: Option<String>,
    /// Document key without collection-ID prefix.
    pub key: Vec<u8>,
    /// Raw document bytes, including XATTR framing when indicated by datatype.
    pub value: Vec<u8>,
}

impl DcpMutation {
    /// Tests whether this is the first revision of the document.
    #[must_use]
    pub fn is_created(&self) -> (result: bool)
        ensures
            result == (self.rev_seqno == 1),
    {
        self.rev_seqno == 1
    }
}

/// Document deletion event.
#[derive(Debug, Eq, PartialEq)]
pub struct DcpDeletion {
    /// vBucket identifier.
    pub vbucket: u16,
    /// Sequence number in the vBucket history.
    pub seqno: u64,
    /// Document revision sequence number.
    pub rev_seqno: u64,
    /// Deletion epoch seconds when supplied by the server.
    pub delete_time: Option<u32>,
    /// CAS value.
    pub cas: u64,
    /// Collection ID when collections are enabled.
    pub collection_id: Option<u32>,
    /// Resolved collection name when available.
    pub collection_name: Option<String>,
    /// Document key without collection-ID prefix.
    pub key: Vec<u8>,
    /// Optional tombstone value (for example, XATTR data).
    pub value: Vec<u8>,
    /// Tombstone datatype flags.
    pub datatype: DataType,
}

/// Document expiration event.
#[derive(Debug, Eq, PartialEq)]
pub struct DcpExpiration {
    /// vBucket identifier.
    pub vbucket: u16,
    /// Sequence number in the vBucket history.
    pub seqno: u64,
    /// Document revision sequence number.
    pub rev_seqno: u64,
    /// Deletion epoch seconds when supplied by the server.
    pub delete_time: Option<u32>,
    /// CAS value.
    pub cas: u64,
    /// Collection ID when collections are enabled.
    pub collection_id: Option<u32>,
    /// Resolved collection name when available.
    pub collection_name: Option<String>,
    /// Document key without collection-ID prefix.
    pub key: Vec<u8>,
    /// Optional tombstone value.
    pub value: Vec<u8>,
    /// Tombstone datatype flags.
    pub datatype: DataType,
}

/// Snapshot boundary for one vBucket stream.
#[derive(Clone, Copy, Debug, PartialEq, Eq, Structural)]
pub struct SnapshotMarker {
    /// vBucket identifier.
    pub vbucket: u16,
    /// First sequence number in the snapshot.
    pub start_seqno: u64,
    /// Last sequence number in the snapshot.
    pub end_seqno: u64,
    /// Marker flags.
    pub flags: SnapshotFlags,
    /// Highest completed prepare sequence number.
    pub high_completed_seqno: Option<u64>,
    /// Highest sequence number visible to readers.
    pub max_visible_seqno: Option<u64>,
    /// Purge sequence number at marker creation.
    pub purge_seqno: Option<u64>,
}

/// Reason encoded in a DCP stream-end event.
#[derive(Clone, Copy, Debug, PartialEq, Eq, Structural)]
pub enum StreamEndReason {
    /// Finite stream reached its requested end.
    Finished,
    /// vBucket ownership changed.
    StateChanged,
    /// Client closed the stream.
    Closed,
    /// Stream disconnected from its producer.
    Disconnected,
    /// Stream was too slow for the producer.
    TooSlow,
    /// Backfill could not be completed.
    BackfillFailed,
    /// Server-side collection filter became empty.
    FilterEmpty,
    /// Unrecognized future reason.
    Unknown(u32),
}

/// End of one vBucket stream.
#[derive(Clone, Copy, Debug, PartialEq, Eq, Structural)]
pub struct StreamEnd {
    /// vBucket identifier.
    pub vbucket: u16,
    /// End reason.
    pub reason: StreamEndReason,
}

/// Progress jump emitted for filtered collections.
#[derive(Clone, Copy, Debug, PartialEq, Eq, Structural)]
pub struct SeqNoAdvanced {
    /// vBucket identifier.
    pub vbucket: u16,
    /// New contiguous sequence number.
    pub seqno: u64,
}

/// System-event payload.
#[derive(Debug, Eq, PartialEq)]
pub enum SystemEventKind {
    /// A collection was created.
    CollectionCreated {
        /// Scope identifier.
        scope_id: u32,
        /// Collection identifier.
        collection_id: u32,
        /// Optional maximum TTL seconds.
        max_ttl: Option<u32>,
    },
    /// A collection was removed.
    CollectionDropped {
        /// Scope identifier.
        scope_id: u32,
        /// Collection identifier.
        collection_id: u32,
    },
    /// A collection was flushed.
    CollectionFlushed {
        /// Collection identifier.
        collection_id: u32,
    },
    /// A scope was created.
    ScopeCreated {
        /// Scope identifier.
        scope_id: u32,
    },
    /// A scope was removed.
    ScopeDropped {
        /// Scope identifier.
        scope_id: u32,
    },
    /// Collection properties changed.
    CollectionChanged {
        /// Collection identifier.
        collection_id: u32,
        /// Optional maximum TTL seconds.
        max_ttl: Option<u32>,
    },
    /// A future system-event type that is not understood yet.
    Unknown {
        /// Raw event code.
        code: u32,
        /// Raw event-data bytes.
        data: Vec<u8>,
    },
}

/// Collection or scope manifest event.
#[derive(Debug, Eq, PartialEq)]
pub struct SystemEvent {
    /// vBucket identifier.
    pub vbucket: u16,
    /// Sequence number in the vBucket history.
    pub seqno: u64,
    /// Manifest UID.
    pub manifest_uid: u64,
    /// Protocol event version.
    pub version: u8,
    /// Collection or scope name supplied in the event key.
    pub key: Vec<u8>,
    /// Typed event payload.
    pub kind: SystemEventKind,
}

/// OSO snapshot state.
#[derive(Clone, Copy, Debug, PartialEq, Eq, Structural)]
pub enum OsoSnapshotState {
    /// Start of an out-of-sequence snapshot.
    Begin,
    /// End of an out-of-sequence snapshot.
    End,
    /// Future state value.
    Unknown(u32),
}

/// Out-of-sequence snapshot marker.
#[derive(Clone, Copy, Debug, PartialEq, Eq, Structural)]
pub struct OsoSnapshot {
    /// vBucket identifier.
    pub vbucket: u16,
    /// Marker state.
    pub state: OsoSnapshotState,
}

/// Event delivered to the application.
#[derive(Debug, Eq, PartialEq)]
#[non_exhaustive]
pub enum DcpEvent {
    /// Document mutation.
    Mutation(DcpMutation),
    /// Explicit document deletion.
    Deletion(DcpDeletion),
    /// Expiration-driven document deletion.
    Expiration(DcpExpiration),
    /// Snapshot boundary.
    SnapshotMarker(SnapshotMarker),
    /// Stream termination.
    StreamEnd(StreamEnd),
    /// Filtered progress advancement.
    SeqNoAdvanced(SeqNoAdvanced),
    /// Collection/scope manifest change.
    SystemEvent(SystemEvent),
    /// Out-of-sequence snapshot boundary.
    OsoSnapshot(OsoSnapshot),
}

impl DcpEvent {
    /// vBucket to which the event belongs.
    pub open spec fn partition(self) -> u16 {
        match self {
            DcpEvent::Mutation(event) => event.vbucket,
            DcpEvent::Deletion(event) => event.vbucket,
            DcpEvent::Expiration(event) => event.vbucket,
            DcpEvent::SnapshotMarker(event) => event.vbucket,
            DcpEvent::StreamEnd(event) => event.vbucket,
            DcpEvent::SeqNoAdvanced(event) => event.vbucket,
            DcpEvent::SystemEvent(event) => event.vbucket,
            DcpEvent::OsoSnapshot(event) => event.vbucket,
        }
    }

    /// Sequence number that can advance ordered progress, if present.
    pub open spec fn progress(self) -> Option<u64> {
        match self {
            DcpEvent::Mutation(event) => Some(event.seqno),
            DcpEvent::Deletion(event) => Some(event.seqno),
            DcpEvent::Expiration(event) => Some(event.seqno),
            DcpEvent::SeqNoAdvanced(event) => Some(event.seqno),
            DcpEvent::SystemEvent(event) => Some(event.seqno),
            _ => None,
        }
    }

    /// CAS of a document event.
    pub open spec fn document_cas(self) -> Option<u64> {
        match self {
            DcpEvent::Mutation(event) => Some(event.cas),
            DcpEvent::Deletion(event) => Some(event.cas),
            DcpEvent::Expiration(event) => Some(event.cas),
            _ => None,
        }
    }

    /// vBucket to which the event belongs.
    #[must_use]
    pub fn vbucket(&self) -> (result: u16)
        ensures
            result == self.partition(),
    {
        match self {
            DcpEvent::Mutation(event) => event.vbucket,
            DcpEvent::Deletion(event) => event.vbucket,
            DcpEvent::Expiration(event) => event.vbucket,
            DcpEvent::SnapshotMarker(event) => event.vbucket,
            DcpEvent::StreamEnd(event) => event.vbucket,
            DcpEvent::SeqNoAdvanced(event) => event.vbucket,
            DcpEvent::SystemEvent(event) => event.vbucket,
            DcpEvent::OsoSnapshot(event) => event.vbucket,
        }
    }

    /// Sequence number that can advance ordered progress, if present.
    #[must_use]
    pub fn seqno(&self) -> (result: Option<u64>)
        ensures
            result == self.progress(),
    {
        match self {
            DcpEvent::Mutation(event) => Some(event.seqno),
            DcpEvent::Deletion(event) => Some(event.seqno),
            DcpEvent::Expiration(event) => Some(event.seqno),
            DcpEvent::SeqNoAdvanced(event) => Some(event.seqno),
            DcpEvent::SystemEvent(event) => Some(event.seqno),
            DcpEvent::SnapshotMarker(_) | DcpEvent::StreamEnd(_) | DcpEvent::OsoSnapshot(_) => None,
        }
    }

    /// CAS of a document event.
    pub fn cas(&self) -> (result: Option<u64>)
        ensures
            result == self.document_cas(),
    {
        match self {
            DcpEvent::Mutation(event) => Some(event.cas),
            DcpEvent::Deletion(event) => Some(event.cas),
            DcpEvent::Expiration(event) => Some(event.cas),
            _ => None,
        }
    }
}

} // verus!
