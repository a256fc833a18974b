//! Conditional document operations of the registry store.
use vstd::prelude::*;
use vstd::utf8::*;

use crate::bootstrap::{BootstrapCapabilities, HelloFeature};
use crate::error::{malformed_frame, malformed_frame_fault, DcpError, DcpFault};
use crate::membership::error::{passes, CouchbaseMembershipError, MembershipFault, Result};
use crate::naming::{is_valid_name, is_visible, valid_name, visible};
use crate::protocol::{
    DocumentMode, DocumentRequest, Frame, STATUS_KEY_EXISTS, STATUS_KEY_NOT_FOUND,
    STATUS_NOT_MY_VBUCKET, STATUS_SUCCESS,
};
use crate::text::{
    copy_bytes, dec, dec_count, hex2, hex2_text, join2, join3, join4, join5, lossy, lossy_text,
    same_text,
};

verus! {

/// Longest document key, in bytes.
pub const MAX_DOCUMENT_KEY_LEN: usize = 250;

/// Datatype of a JSON body.
pub const JSON_DATATYPE: u8 = 0x01;

/// Registry bytes and the compare-and-swap token that fenced them.
#[derive(Debug, Eq, PartialEq)]
pub struct StoredRegistryDocument {
    /// Versioned JSON registry payload.
    pub value: Vec<u8>,
    /// CAS token required to replace this exact revision.
    pub cas: u64,
}

/// Result of a conditional registry write.
#[derive(Clone, Copy, Debug, PartialEq, Eq, Structural)]
pub enum StoreWriteResult {
    /// The conditional write was accepted.
    Stored,
    /// The document was concurrently created, replaced, or removed.
    Conflict,
}

/// Scope and collection containing the shared membership registry document.
#[derive(Clone, Debug, Eq, PartialEq)]
pub struct CouchbaseRegistryCollection {
    scope: String,
    collection: String,
}

impl Default for CouchbaseRegistryCollection {
    fn default() -> (result: Self)
        ensures
            result.scope_name() == "_default"@,
            result.collection_name() == "_default"@,
    {
        CouchbaseRegistryCollection {
            scope: "_default".to_owned(),
            collection: "_default".to_owned(),
        }
    }
}

/// Why a registry scope or collection name is refused, if it is.
pub open spec fn registry_name_fault(kind: Seq<char>, name: Seq<char>) -> Option<MembershipFault> {
    if valid_name(name) {
        None
    } else {
        Some(
            MembershipFault::Configuration(
                "registry "@ + kind
                    + " contains a character unsupported by Couchbase Collections"@,
            ),
        )
    }
}

fn validate_collection_name(kind: &str, value: &str) -> (result: Result<()>)
    ensures
        passes(result, registry_name_fault(kind@, value@)),
{
    if !is_valid_name(value) {
        return Err(
            CouchbaseMembershipError::Configuration(
                join3(
                    "registry ",
                    kind,
                    " contains a character unsupported by Couchbase Collections",
                ),
            ),
        );
    }
    Ok(())
}

/// How the collection of the registry is addressed.
#[derive(Clone, Copy, Debug, PartialEq, Eq, Structural)]
pub enum RegistryTarget {
    /// Without a collection identifier.
    Legacy,
    /// By a known identifier.
    Known(u32),
    /// By an identifier that has to be looked up.
    Lookup,
}

impl CouchbaseRegistryCollection {
    /// Scope name.
    pub closed spec fn scope_name(&self) -> Seq<char> {
        self.scope@
    }

    /// Collection name.
    pub closed spec fn collection_name(&self) -> Seq<char> {
        self.collection@
    }

    /// The default collection of the default scope.
    pub open spec fn default_one(&self) -> bool {
        self.scope_name() == "_default"@ && self.collection_name() == "_default"@
    }

    /// Creates a named registry collection.
    pub fn new(scope: &str, collection: &str) -> (result: Result<Self>)
        ensures
            match result {
                Ok(c) => {
                    &&& valid_name(scope@) && valid_name(collection@)
                    &&& c.scope_name() == scope@
                    &&& c.collection_name() == collection@
                },
                Err(e) => Some(e@) == if registry_name_fault("scope"@, scope@) is Some {
                    registry_name_fault("scope"@, scope@)
                } else {
                    registry_name_fault("collection"@, collection@)
                },
            },
    {
        validate_collection_name("scope", scope)?;
        validate_collection_name("collection", collection)?;
        Ok(
            CouchbaseRegistryCollection {
                scope: scope.to_owned(),
                collection: collection.to_owned(),
            },
        )
    }

    /// Registry scope name.
    #[must_use]
    pub fn scope(&self) -> (result: &str)
        ensures
            result@ == self.scope_name(),
    {
        self.scope.as_str()
    }

    /// Registry collection name.
    #[must_use]
    pub fn collection(&self) -> (result: &str)
        ensures
            result@ == self.collection_name(),
    {
        self.collection.as_str()
    }

    /// Tells the default collection.
    pub fn is_default(&self) -> (result: bool)
        ensures
            result == self.default_one(),
    {
        same_text(self.scope.as_str(), "_default") && same_text(
            self.collection.as_str(),
            "_default",
        )
    }

    /// Decides how the collection is addressed on a server.
    pub fn target(&self, collections_supported: bool) -> (result: Result<RegistryTarget>)
        ensures
            match result {
                Ok(target) => target == if !collections_supported {
                    RegistryTarget::Legacy
                } else if self.default_one() {
                    RegistryTarget::Known(0)
                } else {
                    RegistryTarget::Lookup
                },
                Err(e) => e@ == MembershipFault::Dcp(
                    DcpFault::Unsupported(
                        "registry collection "@ + self.scope_name() + "."@
                            + self.collection_name() + " requires Couchbase Collections"@,
                    ),
                ),
            },
            result is Err <==> !collections_supported && !self.default_one(),
    {
        if !collections_supported {
            if self.is_default() {
                return Ok(RegistryTarget::Legacy);
            }
            return Err(
                CouchbaseMembershipError::Dcp(
                    DcpError::Unsupported(
                        join5(
                            "registry collection ",
                            self.scope.as_str(),
                            ".",
                            self.collection.as_str(),
                            " requires Couchbase Collections",
                        ),
                    ),
                ),
            );
        }
        if self.is_default() {
            return Ok(RegistryTarget::Known(0));
        }
        Ok(RegistryTarget::Lookup)
    }

    /// Why a node cannot serve the registry, if it cannot.
    pub open spec fn node_fault(
        &self,
        features: Seq<HelloFeature>,
        collection_id: Option<u32>,
    ) -> Option<MembershipFault> {
        if collection_id is Some && !features.contains(HelloFeature::Collections) {
            Some(
                MembershipFault::Dcp(
                    DcpFault::Unsupported(
                        "registry collection requires Couchbase Collections on the active KV node"@,
                    ),
                ),
            )
        } else {
            None
        }
    }

    /// Checks that the node of the document understands the collection.
    pub fn check_node(&self, capabilities: &BootstrapCapabilities, collection_id: Option<u32>) -> (result:
        Result<()>)
        ensures
            passes(result, self.node_fault(capabilities.hello_features@, collection_id)),
    {
        if collection_id.is_some() && !capabilities.supports(HelloFeature::Collections) {
            return Err(
                CouchbaseMembershipError::Dcp(
                    DcpError::Unsupported(
                        "registry collection requires Couchbase Collections on the active KV node".to_owned(),
                    ),
                ),
            );
        }
        Ok(())
    }
}

/// Why a document key is refused, if it is.
pub open spec fn document_key_fault(key: Seq<char>) -> Option<MembershipFault> {
    if visible(key, MAX_DOCUMENT_KEY_LEN as nat) {
        None
    } else {
        Some(
            MembershipFault::Configuration(
                "registry document key must contain 1..=250 visible ASCII bytes"@,
            ),
        )
    }
}

/// Refuses a document key that is empty, too long, or not visible ASCII.
pub fn validate_document_key(key: &str) -> (result: Result<()>)
    ensures
        passes(result, document_key_fault(key@)),
{
    if !is_visible(key, MAX_DOCUMENT_KEY_LEN) {
        return Err(
            CouchbaseMembershipError::Configuration(
                "registry document key must contain 1..=250 visible ASCII bytes".to_owned(),
            ),
        );
    }
    Ok(())
}

/// Operation on the registry document.
#[derive(Debug, Eq, PartialEq)]
pub enum KvOperation {
    /// Read it.
    Load,
    /// Create it.
    Create(Vec<u8>),
    /// Replace one revision of it.
    Replace {
        /// New body.
        value: Vec<u8>,
        /// Revision to replace.
        cas: u64,
    },
}

/// Result of an operation on the registry document.
#[derive(Debug, Eq, PartialEq)]
pub enum KvResult {
    /// The document, if it exists.
    Loaded(Option<StoredRegistryDocument>),
    /// Outcome of a conditional write.
    Written(StoreWriteResult),
}

impl KvResult {
    /// Document of a load.
    pub fn into_loaded(self) -> (result: Result<Option<StoredRegistryDocument>>)
        ensures
            match self {
                KvResult::Loaded(document) => result is Ok && result->Ok_0 == document,
                KvResult::Written(_) => result is Err && result->Err_0@ == MembershipFault::Store(
                    "KV load returned a write result"@,
                ),
            },
    {
        match self {
            KvResult::Loaded(document) => Ok(document),
            KvResult::Written(_) => Err(
                CouchbaseMembershipError::Store("KV load returned a write result".to_owned()),
            ),
        }
    }

    /// Outcome of a write.
    pub fn into_written(self, operation: &str) -> (result: Result<StoreWriteResult>)
        ensures
            match self {
                KvResult::Written(written) => result is Ok && result->Ok_0 == written,
                KvResult::Loaded(_) => result is Err && result->Err_0@ == MembershipFault::Store(
                    "KV "@ + operation@ + " returned a load result"@,
                ),
            },
    {
        match self {
            KvResult::Written(written) => Ok(written),
            KvResult::Loaded(_) => Err(
                CouchbaseMembershipError::Store(
                    join3("KV ", operation, " returned a load result"),
                ),
            ),
        }
    }
}

/// Content of an operation.
pub open spec fn mode_of(op: KvOperation) -> DocumentMode {
    match op {
        KvOperation::Load => DocumentMode::Get,
        KvOperation::Create(_) => DocumentMode::Add,
        KvOperation::Replace { .. } => DocumentMode::Replace,
    }
}

/// Body sent by an operation.
pub open spec fn body_of(op: KvOperation) -> Seq<u8> {
    match op {
        KvOperation::Load => Seq::empty(),
        KvOperation::Create(value) => value@,
        KvOperation::Replace { value, .. } => value@,
    }
}

/// What an error says of an operation.
pub open spec fn context_of(op: KvOperation) -> Seq<char> {
    match op {
        KvOperation::Load => "membership registry load"@,
        KvOperation::Create(_) => "membership registry create"@,
        KvOperation::Replace { .. } => "membership registry CAS replace"@,
    }
}

/// Content of a server-status error.
pub open spec fn status_fault(response: Frame, context: Seq<char>) -> MembershipFault {
    MembershipFault::Dcp(
        DcpFault::ServerStatus {
            status: response.status,
            opcode: response.opcode,
            message: context + ": "@ + lossy(response.value@),
        },
    )
}

fn server_status(response: &Frame, context: &str) -> (result: CouchbaseMembershipError)
    ensures
        result@ == status_fault(*response, context@),
{
    CouchbaseMembershipError::Dcp(
        DcpError::ServerStatus {
            status: response.status,
            opcode: response.opcode,
            message: join3(context, ": ", lossy_text(response.value.as_slice()).as_str()),
        },
    )
}

impl KvOperation {
    /// Request that performs the operation.
    pub fn request(&self, key: &str, collection_id: Option<u32>, vbucket: u16, json: bool) -> (result:
        DocumentRequest)
        ensures
            result.mode == mode_of(*self),
            result.key@ == encode_utf8(key@),
            result.value@ == body_of(*self),
            result.collection_id == collection_id,
            result.vbucket == vbucket,
            result.datatype == if json && !(*self is Load) {
                JSON_DATATYPE
            } else {
                0
            },
            result.cas == match *self {
                KvOperation::Replace { cas, .. } => cas,
                _ => 0,
            },
    {
        let datatype: u8 = if json {
            JSON_DATATYPE
        } else {
            0
        };
        let key = copy_bytes(key.as_bytes());
        match self {
            KvOperation::Load => DocumentRequest {
                mode: DocumentMode::Get,
                key,
                value: Vec::new(),
                collection_id,
                vbucket,
                datatype: 0,
                cas: 0,
            },
            KvOperation::Create(value) => DocumentRequest {
                mode: DocumentMode::Add,
                key,
                value: copy_bytes(value.as_slice()),
                collection_id,
                vbucket,
                datatype,
                cas: 0,
            },
            KvOperation::Replace { value, cas } => DocumentRequest {
                mode: DocumentMode::Replace,
                key,
                value: copy_bytes(value.as_slice()),
                collection_id,
                vbucket,
                datatype,
                cas: *cas,
            },
        }
    }

    /// Reads the response to the operation. A conditional write that lost
    /// against another one is a conflict, never a success.
    pub fn parse_response(&self, response: Frame) -> (result: Result<KvResult>)
        ensures
            match *self {
                KvOperation::Load => if response.status == STATUS_SUCCESS {
                    result matches Ok(KvResult::Loaded(Some(document))) && document.value
                        == response.value && document.cas == response.cas
                } else if response.status == STATUS_KEY_NOT_FOUND {
                    result matches Ok(KvResult::Loaded(None))
                } else {
                    result is Err && result->Err_0@ == status_fault(response, context_of(*self))
                },
                KvOperation::Create(_) => if response.status == STATUS_SUCCESS {
                    result matches Ok(KvResult::Written(StoreWriteResult::Stored))
                } else if response.status == STATUS_KEY_EXISTS {
                    result matches Ok(KvResult::Written(StoreWriteResult::Conflict))
                } else {
                    result is Err && result->Err_0@ == status_fault(response, context_of(*self))
                },
                KvOperation::Replace { .. } => if response.status == STATUS_SUCCESS {
                    result matches Ok(KvResult::Written(StoreWriteResult::Stored))
                } else if response.status == STATUS_KEY_EXISTS || response.status
                    == STATUS_KEY_NOT_FOUND {
                    result matches Ok(KvResult::Written(StoreWriteResult::Conflict))
                } else {
                    result is Err && result->Err_0@ == status_fault(response, context_of(*self))
                },
            },
    {
        match self {
            KvOperation::Load => {
                if response.status == STATUS_SUCCESS {
                    Ok(
                        KvResult::Loaded(
                            Some(
                                StoredRegistryDocument {
                                    value: response.value,
                                    cas: response.cas,
                                },
                            ),
                        ),
                    )
                } else if response.status == STATUS_KEY_NOT_FOUND {
                    Ok(KvResult::Loaded(None))
                } else {
                    Err(server_status(&response, "membership registry load"))
                }
            },
            KvOperation::Create(_) => {
                if response.status == STATUS_SUCCESS {
                    Ok(KvResult::Written(StoreWriteResult::Stored))
                } else if response.status == STATUS_KEY_EXISTS {
                    Ok(KvResult::Written(StoreWriteResult::Conflict))
                } else {
                    Err(server_status(&response, "membership registry create"))
                }
            },
            KvOperation::Replace { .. } => {
                if response.status == STATUS_SUCCESS {
                    Ok(KvResult::Written(StoreWriteResult::Stored))
                } else if response.status == STATUS_KEY_EXISTS || response.status
                    == STATUS_KEY_NOT_FOUND {
                    Ok(KvResult::Written(StoreWriteResult::Conflict))
                } else {
                    Err(server_status(&response, "membership registry CAS replace"))
                }
            },
        }
    }
}

/// Why a frame is no response to a request, if it is none.
pub open spec fn envelope_fault(response: Frame, expected: u8) -> Option<MembershipFault> {
    if !response.magic.responds() {
        Some(
            MembershipFault::Dcp(
                malformed_frame_fault(
                    "membership KV response used request magic 0x"@ + hex2(
                        response.magic.byte() as nat,
                    ),
                ),
            ),
        )
    } else if response.opcode != expected {
        Some(
            MembershipFault::Dcp(
                malformed_frame_fault(
                    "membership KV response opcode 0x"@ + hex2(response.opcode as nat)
                        + " does not match request 0x"@ + hex2(expected as nat),
                ),
            ),
        )
    } else {
        None
    }
}

/// Accepts only a response to the request that was sent.
pub fn validate_response_envelope(response: &Frame, expected_opcode: u8) -> (result: Result<()>)
    ensures
        passes(result, envelope_fault(*response, expected_opcode)),
{
    if !response.magic.is_response() {
        return Err(
            CouchbaseMembershipError::Dcp(
                malformed_frame(
                    join2(
                        "membership KV response used request magic 0x",
                        hex2_text(response.magic.as_u8() as u64).as_str(),
                    ),
                ),
            ),
        );
    }
    if response.opcode != expected_opcode {
        return Err(
            CouchbaseMembershipError::Dcp(
                malformed_frame(
                    join4(
                        "membership KV response opcode 0x",
                        hex2_text(response.opcode as u64).as_str(),
                        " does not match request 0x",
                        hex2_text(expected_opcode as u64).as_str(),
                    ),
                ),
            ),
        );
    }
    Ok(())
}

/// What to do after a response of the node that was believed active.
#[derive(Clone, Copy, Debug, PartialEq, Eq, Structural)]
pub enum RoutingStep {
    /// Read the response.
    Accept,
    /// Discover the topology again and ask the new owner.
    Rediscover,
}

/// Judges a response; `attempt` counts from one. Another owner is looked for
/// only as long as attempts are left.
pub fn routing_step(response: &Frame, expected_opcode: u8, attempt: usize, attempts: usize) -> (result:
    Result<RoutingStep>)
    ensures
        match envelope_fault(*response, expected_opcode) {
            Some(fault) => result is Err && result->Err_0@ == fault,
            None => if response.status != STATUS_NOT_MY_VBUCKET {
                result matches Ok(RoutingStep::Accept)
            } else if attempt < attempts {
                result matches Ok(RoutingStep::Rediscover)
            } else {
                result is Err && result->Err_0@ == MembershipFault::Store(
                    "active vBucket owner changed during all "@ + dec(attempts as nat)
                        + " routing attempts"@,
                )
            },
        },
{
    validate_response_envelope(response, expected_opcode)?;
    if response.status != STATUS_NOT_MY_VBUCKET {
        return Ok(RoutingStep::Accept);
    }
    if attempt < attempts {
        return Ok(RoutingStep::Rediscover);
    }
    Err(
        CouchbaseMembershipError::Store(
            join3(
                "active vBucket owner changed during all ",
                dec_count(attempts).as_str(),
                " routing attempts",
            ),
        ),
    )
}

} // verus!
