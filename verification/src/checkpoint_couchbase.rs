//! Checkpoint documents in a Couchbase collection.
use vstd::prelude::*;
use vstd::utf8::*;

use crate::bootstrap::{BootstrapCapabilities, HelloFeature};
use crate::config::{DcpConfig, PositiveCount};
use crate::error::{checked, malformed_frame, malformed_frame_fault, DcpError, DcpFault, Result};
use crate::naming::{is_valid_name, valid_name};
use crate::protocol::{
    Frame, OPCODE_DELETE, OPCODE_SUBDOC_MULTI_LOOKUP, OPCODE_SUBDOC_MULTI_MUTATION,
    STATUS_KEY_NOT_FOUND, STATUS_NOT_MY_VBUCKET, STATUS_SUCCESS,
};
use crate::text::{
    copy_bytes, dec, dec_count, hex2, hex2_text, join2, join3, join4, join5, lossy, lossy_text, same_text,
};

verus! {

/// Longest document key, in bytes.
pub const MAX_DOCUMENT_KEY_LEN: usize = 250;

/// Document flag that creates a missing document.
pub const CREATE_DOCUMENT: u8 = 0x01;

/// The collection is unknown to the node.
pub const STATUS_COLLECTION_UNKNOWN: u16 = 0x88;

/// Scope and collection containing Couchbase checkpoint metadata documents.
#[derive(Debug, Eq, PartialEq)]
pub struct CouchbaseCheckpointCollectionSpec {
    scope: String,
    collection: String,
}

impl Default for CouchbaseCheckpointCollectionSpec {
    fn default() -> (result: Self)
        ensures
            result.scope_name() == "_default"@,
            result.collection_name() == "_default"@,
    {
        CouchbaseCheckpointCollectionSpec {
            scope: "_default".to_owned(),
            collection: "_default".to_owned(),
        }
    }
}

/// Why a checkpoint scope or collection name is refused, if it is.
pub open spec fn checkpoint_name_fault(kind: Seq<char>, name: Seq<char>) -> Option<DcpFault> {
    if valid_name(name) {
        None
    } else {
        Some(
            DcpFault::InvalidConfiguration(
                "checkpoint "@ + kind
                    + " contains a character unsupported by Couchbase Collections"@,
            ),
        )
    }
}

fn validate_collection_name(kind: &str, value: &str) -> (result: Result<()>)
    ensures
        checked(result, checkpoint_name_fault(kind@, value@)),
{
    if !is_valid_name(value) {
        return Err(
            DcpError::InvalidConfiguration(
                join3(
                    "checkpoint ",
                    kind,
                    " contains a character unsupported by Couchbase Collections",
                ),
            ),
        );
    }
    Ok(())
}

/// How the checkpoint collection is addressed.
#[derive(Clone, Copy, Debug, PartialEq, Eq, Structural)]
pub enum CheckpointTarget {
    /// Without a collection identifier.
    Legacy,
    /// By a known identifier.
    Known(u32),
    /// By an identifier that has to be looked up.
    Lookup,
}

impl CouchbaseCheckpointCollectionSpec {
    /// Scope name.
    pub closed spec fn scope_name(&self) -> Seq<char> {
        self.scope@
    }

    /// Collection name.
    pub closed spec fn collection_name(&self) -> Seq<char> {
        self.collection@
    }

    /// The default collection of the default scope.
    pub open spec fn default_one(&self) -> bool {
        self.scope_name() == "_default"@ && self.collection_name() == "_default"@
    }

    /// Creates a named checkpoint collection.
    pub fn new(scope: &str, collection: &str) -> (result: Result<Self>)
        ensures
            match result {
                Ok(c) => {
                    &&& valid_name(scope@) && valid_name(collection@)
                    &&& c.scope_name() == scope@
                    &&& c.collection_name() == collection@
                },
                Err(e) => Some(e@) == if checkpoint_name_fault("scope"@, scope@) is Some {
                    checkpoint_name_fault("scope"@, scope@)
                } else {
                    checkpoint_name_fault("collection"@, collection@)
                },
            },
    {
        validate_collection_name("scope", scope)?;
        validate_collection_name("collection", collection)?;
        Ok(
            CouchbaseCheckpointCollectionSpec {
                scope: scope.to_owned(),
                collection: collection.to_owned(),
            },
        )
    }

    /// Checkpoint scope name.
    #[must_use]
    pub fn scope(&self) -> (result: &str)
        ensures
            result@ == self.scope_name(),
    {
        self.scope.as_str()
    }

    /// Checkpoint collection name.
    #[must_use]
    pub fn collection(&self) -> (result: &str)
        ensures
            result@ == self.collection_name(),
    {
        self.collection.as_str()
    }

    /// Tells the default collection.
    pub fn is_default(&self) -> (result: bool)
        ensures
            result == self.default_one(),
    {
        same_text(self.scope.as_str(), "_default") && same_text(
            self.collection.as_str(),
            "_default",
        )
    }

    /// Decides how the collection is addressed on a server.
    pub fn target(&self, collections_supported: bool) -> (result: Result<CheckpointTarget>)
        ensures
            match result {
                Ok(target) => target == if !collections_supported {
                    CheckpointTarget::Legacy
                } else if self.default_one() {
                    CheckpointTarget::Known(0)
                } else {
                    CheckpointTarget::Lookup
                },
                Err(e) => e@ == DcpFault::Unsupported(
                    "checkpoint collection "@ + self.scope_name() + "."@ + self.collection_name()
                        + " requires Couchbase Collections"@,
                ),
            },
            result is Err <==> !collections_supported && !self.default_one(),
    {
        if !collections_supported {
            if self.is_default() {
                return Ok(CheckpointTarget::Legacy);
            }
            return Err(
                DcpError::Unsupported(
                    join5(
                        "checkpoint collection ",
                        self.scope.as_str(),
                        ".",
                        self.collection.as_str(),
                        " requires Couchbase Collections",
                    ),
                ),
            );
        }
        if self.is_default() {
            return Ok(CheckpointTarget::Known(0));
        }
        Ok(CheckpointTarget::Lookup)
    }

    /// What the active node lacks for checkpoint documents, if anything.
    pub open spec fn node_fault(
        &self,
        capabilities: BootstrapCapabilities,
        collection_id: Option<u32>,
    ) -> Option<DcpFault> {
        if !capabilities.hello_features@.contains(HelloFeature::Xattr) {
            Some(
                DcpFault::Unsupported(
                    "Couchbase checkpoint persistence requires XATTR support"@,
                ),
            )
        } else if collection_id is Some && !capabilities.hello_features@.contains(
            HelloFeature::Collections,
        ) {
            Some(
                DcpFault::Unsupported(
                    "checkpoint collection "@ + self.scope_name() + "."@ + self.collection_name()
                        + " requires Couchbase Collections on the active KV node"@,
                ),
            )
        } else {
            None
        }
    }

    /// Checks what the active node negotiated.
    pub fn check_node(&self, capabilities: &BootstrapCapabilities, collection_id: Option<u32>) -> (result:
        Result<()>)
        ensures
            checked(result, self.node_fault(*capabilities, collection_id)),
    {
        if !capabilities.supports(HelloFeature::Xattr) {
            return Err(
                DcpError::Unsupported(
                    "Couchbase checkpoint persistence requires XATTR support".to_owned(),
                ),
            );
        }
        if collection_id.is_some() && !capabilities.supports(HelloFeature::Collections) {
            return Err(
                DcpError::Unsupported(
                    join5(
                        "checkpoint collection ",
                        self.scope.as_str(),
                        ".",
                        self.collection.as_str(),
                        " requires Couchbase Collections on the active KV node",
                    ),
                ),
            );
        }
        Ok(())
    }
}

/// Settings of the network-backed checkpoint adapter.
pub struct CouchbaseKvCheckpointCollection {
    config: DcpConfig,
    collection: CouchbaseCheckpointCollectionSpec,
    routing_attempts: PositiveCount,
    max_concurrency: PositiveCount,
}

impl CouchbaseKvCheckpointCollection {
    /// Client configuration.
    pub closed spec fn client(&self) -> DcpConfig {
        self.config
    }

    /// Checkpoint collection.
    pub closed spec fn place(&self) -> CouchbaseCheckpointCollectionSpec {
        self.collection
    }

    /// Routing attempts per operation.
    pub closed spec fn attempts(&self) -> usize {
        self.routing_attempts.count()
    }

    /// Concurrent operations.
    pub closed spec fn concurrency(&self) -> usize {
        self.max_concurrency.count()
    }

    /// Adapter for the default collection, with 3 routing attempts and 16
    /// concurrent operations.
    pub fn new(config: DcpConfig) -> (result: Result<Self>)
        ensures
            match result {
                Ok(adapter) => {
                    &&& config.fault() is None
                    &&& adapter.client() == config
                    &&& adapter.place().default_one()
                    &&& adapter.attempts() == 3
                    &&& adapter.concurrency() == 16
                },
                Err(e) => config.fault() == Some(e@),
            },
    {
        CouchbaseKvCheckpointCollection::in_collection(
            config,
            CouchbaseCheckpointCollectionSpec::default(),
        )
    }

    /// Adapter for a named collection, with 3 routing attempts and 16
    /// concurrent operations.
    pub fn in_collection(config: DcpConfig, collection: CouchbaseCheckpointCollectionSpec) -> (result:
        Result<Self>)
        ensures
            match result {
                Ok(adapter) => {
                    &&& config.fault() is None
                    &&& adapter.client() == config
                    &&& adapter.place() == collection
                    &&& adapter.attempts() == 3
                    &&& adapter.concurrency() == 16
                },
                Err(e) => config.fault() == Some(e@),
            },
    {
        config.validate()?;
        match (PositiveCount::new(3), PositiveCount::new(16)) {
            (Some(routing_attempts), Some(max_concurrency)) => Ok(
                CouchbaseKvCheckpointCollection {
                    config,
                    collection,
                    routing_attempts,
                    max_concurrency,
                },
            ),
            _ => Err(DcpError::Cancelled),
        }
    }

    /// Sets the bounded number of fresh topology/collection lookups used after
    /// routing failures.
    #[must_use]
    pub fn routing_attempts(self, attempts: PositiveCount) -> (result: Self)
        ensures
            result.client() == self.client(),
            result.place() == self.place(),
            result.attempts() == attempts.count(),
            result.concurrency() == self.concurrency(),
    {
        CouchbaseKvCheckpointCollection { routing_attempts: attempts, ..self }
    }

    /// Sets the maximum number of concurrent network operations.
    #[must_use]
    pub fn max_concurrency(self, limit: PositiveCount) -> (result: Self)
        ensures
            result.client() == self.client(),
            result.place() == self.place(),
            result.attempts() == self.attempts(),
            result.concurrency() == limit.count(),
    {
        CouchbaseKvCheckpointCollection { max_concurrency: limit, ..self }
    }

    /// Client configuration.
    pub fn config(&self) -> (result: &DcpConfig)
        ensures
            *result == self.client(),
    {
        &self.config
    }

    /// Checkpoint collection.
    pub fn collection(&self) -> (result: &CouchbaseCheckpointCollectionSpec)
        ensures
            *result == self.place(),
    {
        &self.collection
    }

    /// Number of routing attempts and of concurrent operations.
    pub fn bounds(&self) -> (result: (usize, usize))
        ensures
            result == (self.attempts(), self.concurrency()),
    {
        (self.routing_attempts.get(), self.max_concurrency.get())
    }

    /// Judges a response of the node that was believed active; `attempt`
    /// counts from one. Stale routing and collection identifiers are retried
    /// only after a fresh bootstrap, as long as attempts are left.
    pub fn routing_step(&self, response: &Frame, expected_opcode: u8, attempt: usize) -> (result: Result<
        bool,
    >)
        ensures
            match checkpoint_envelope_fault(*response, expected_opcode) {
                Some(fault) => result is Err && result->Err_0@ == fault,
                None => if !rerouted(response.status) {
                    result matches Ok(false)
                } else if attempt < self.attempts() {
                    result matches Ok(true)
                } else {
                    result is Err && result->Err_0@ == DcpFault::CheckpointStore(
                        "checkpoint KV owner or collection changed during all "@ + dec(
                            self.attempts() as nat,
                        ) + " routing attempts"@,
                    )
                },
            },
    {
        validate_response_envelope(response, expected_opcode)?;
        if response.status != STATUS_NOT_MY_VBUCKET && response.status
            != STATUS_COLLECTION_UNKNOWN {
            return Ok(false);
        }
        if attempt < self.routing_attempts.get() {
            return Ok(true);
        }
        Err(
            DcpError::CheckpointStore(
                join3(
                    "checkpoint KV owner or collection changed during all ",
                    dec_count(self.routing_attempts.get()).as_str(),
                    " routing attempts",
                ),
            ),
        )
    }
}

/// The owner or the collection changed.
pub open spec fn rerouted(status: u16) -> bool {
    status == STATUS_NOT_MY_VBUCKET || status == STATUS_COLLECTION_UNKNOWN
}

/// Operation on one checkpoint document.
#[derive(Debug, Eq, PartialEq)]
pub enum CheckpointKvOperation {
    /// Read an attribute.
    GetXattr {
        /// Attribute name.
        xattr: String,
    },
    /// Write an attribute, creating the document if needed.
    UpsertXattr {
        /// Attribute name.
        xattr: String,
        /// Attribute value.
        value: Vec<u8>,
    },
    /// Remove the document.
    RemoveDocument,
}

/// Request on one checkpoint document.
#[derive(Debug, Eq, PartialEq)]
pub struct CheckpointKvRequest {
    /// Opcode of the request.
    pub opcode: u8,
    /// Document flags; the first bit creates a missing document.
    pub extras: Vec<u8>,
    /// Document key.
    pub key: Vec<u8>,
    /// Attribute name; empty for the whole document.
    pub xattr: Vec<u8>,
    /// Attribute value.
    pub value: Vec<u8>,
    /// Collection, where collections are in use.
    pub collection_id: Option<u32>,
    /// vBucket of the key.
    pub vbucket: u16,
}

/// Outcome of an operation on one checkpoint document.
#[derive(Debug, Eq, PartialEq)]
pub enum CheckpointKvResult {
    /// Attribute, if there is one.
    Xattr(Option<Vec<u8>>),
    /// The document was changed.
    Mutation,
}

impl CheckpointKvOperation {
    /// Opcode of the request and of its response.
    pub open spec fn code(self) -> u8 {
        match self {
            CheckpointKvOperation::GetXattr { .. } => OPCODE_SUBDOC_MULTI_LOOKUP,
            CheckpointKvOperation::UpsertXattr { .. } => OPCODE_SUBDOC_MULTI_MUTATION,
            CheckpointKvOperation::RemoveDocument => OPCODE_DELETE,
        }
    }

    /// Builds the request of the operation.
    pub fn request(&self, key: &str, collection_id: Option<u32>, vbucket: u16) -> (result:
        CheckpointKvRequest)
        ensures
            result.opcode == self.code(),
            result.key@ == encode_utf8(key@),
            result.collection_id == collection_id,
            result.vbucket == vbucket,
            match *self {
                CheckpointKvOperation::GetXattr { xattr } => {
                    &&& result.extras@.len() == 0
                    &&& result.xattr@ == encode_utf8(xattr@)
                    &&& result.value@.len() == 0
                },
                CheckpointKvOperation::UpsertXattr { xattr, value } => {
                    &&& result.extras@ == seq![CREATE_DOCUMENT]
                    &&& result.xattr@ == encode_utf8(xattr@)
                    &&& result.value@ == value@
                },
                CheckpointKvOperation::RemoveDocument => {
                    &&& result.extras@.len() == 0
                    &&& result.xattr@.len() == 0
                    &&& result.value@.len() == 0
                },
            },
    {
        let key = copy_bytes(key.as_bytes());
        match self {
            CheckpointKvOperation::GetXattr { xattr } => CheckpointKvRequest {
                opcode: OPCODE_SUBDOC_MULTI_LOOKUP,
                extras: Vec::new(),
                key,
                xattr: copy_bytes(xattr.as_str().as_bytes()),
                value: Vec::new(),
                collection_id,
                vbucket,
            },
            CheckpointKvOperation::UpsertXattr { xattr, value } => {
                let extras: Vec<u8> = vec![CREATE_DOCUMENT];
                assert(extras@ =~= seq![CREATE_DOCUMENT]);
                CheckpointKvRequest {
                    opcode: OPCODE_SUBDOC_MULTI_MUTATION,
                    extras,
                    key,
                    xattr: copy_bytes(xattr.as_str().as_bytes()),
                    value: copy_bytes(value.as_slice()),
                    collection_id,
                    vbucket,
                }
            },
            CheckpointKvOperation::RemoveDocument => CheckpointKvRequest {
                opcode: OPCODE_DELETE,
                extras: Vec::new(),
                key,
                xattr: Vec::new(),
                value: Vec::new(),
                collection_id,
                vbucket,
            },
        }
    }

    /// Reads the response to the operation; `decoded` is what its body holds,
    /// as the wire codec reads it. An absent document has no attribute, and
    /// counts as removed.
    pub fn parse_response(&self, response: &Frame, decoded: Result<Option<Vec<u8>>>) -> (result:
        Result<CheckpointKvResult>)
        ensures
            match *self {
                CheckpointKvOperation::GetXattr { .. } => if response.status
                    == STATUS_KEY_NOT_FOUND {
                    result matches Ok(CheckpointKvResult::Xattr(None))
                } else {
                    match decoded {
                        Ok(value) => result is Ok && result->Ok_0 == CheckpointKvResult::Xattr(
                            value,
                        ),
                        Err(e) => result is Err && result->Err_0 == e,
                    }
                },
                CheckpointKvOperation::UpsertXattr { .. } => match decoded {
                    Ok(_) => result matches Ok(CheckpointKvResult::Mutation),
                    Err(e) => result is Err && result->Err_0 == e,
                },
                CheckpointKvOperation::RemoveDocument => if response.status == STATUS_SUCCESS
                    || response.status == STATUS_KEY_NOT_FOUND {
                    result matches Ok(CheckpointKvResult::Mutation)
                } else {
                    result is Err && result->Err_0@ == (DcpFault::ServerStatus {
                        status: response.status,
                        opcode: response.opcode,
                        message: "checkpoint document removal: "@ + lossy(response.value@),
                    })
                },
            },
    {
        match self {
            CheckpointKvOperation::GetXattr { .. } => {
                if response.status == STATUS_KEY_NOT_FOUND {
                    return Ok(CheckpointKvResult::Xattr(None));
                }
                match decoded {
                    Ok(value) => Ok(CheckpointKvResult::Xattr(value)),
                    Err(e) => Err(e),
                }
            },
            CheckpointKvOperation::UpsertXattr { .. } => match decoded {
                Ok(_) => Ok(CheckpointKvResult::Mutation),
                Err(e) => Err(e),
            },
            CheckpointKvOperation::RemoveDocument => {
                if response.status == STATUS_SUCCESS || response.status == STATUS_KEY_NOT_FOUND {
                    return Ok(CheckpointKvResult::Mutation);
                }
                Err(
                    DcpError::ServerStatus {
                        status: response.status,
                        opcode: response.opcode,
                        message: join2(
                            "checkpoint document removal: ",
                            lossy_text(response.value.as_slice()).as_str(),
                        ),
                    },
                )
            },
        }
    }
}

fn unexpected_result(operation: &str) -> (result: DcpError)
    ensures
        result@ == incompatible(operation@),
{
    DcpError::CheckpointStore(
        join3("checkpoint KV ", operation, " returned an incompatible result"),
    )
}

/// An outcome of another kind than the operation has.
pub open spec fn incompatible(operation: Seq<char>) -> DcpFault {
    DcpFault::CheckpointStore(
        "checkpoint KV "@ + operation + " returned an incompatible result"@,
    )
}

impl CheckpointKvResult {
    /// Attribute of a lookup.
    pub fn into_xattr(self) -> (result: Result<Option<Vec<u8>>>)
        ensures
            match self {
                CheckpointKvResult::Xattr(value) => result is Ok && result->Ok_0 == value,
                CheckpointKvResult::Mutation => result is Err && result->Err_0@ == incompatible(
                    "XATTR lookup"@,
                ),
            },
    {
        match self {
            CheckpointKvResult::Xattr(value) => Ok(value),
            CheckpointKvResult::Mutation => Err(unexpected_result("XATTR lookup")),
        }
    }

    /// Accepts only a changed document.
    pub fn into_mutation(self, operation: &str) -> (result: Result<()>)
        ensures
            match self {
                CheckpointKvResult::Mutation => result is Ok,
                CheckpointKvResult::Xattr(_) => result is Err && result->Err_0@ == incompatible(
                    operation@,
                ),
            },
    {
        match self {
            CheckpointKvResult::Mutation => Ok(()),
            CheckpointKvResult::Xattr(_) => Err(unexpected_result(operation)),
        }
    }
}

/// Why a frame is no response to a checkpoint request, if it is none.
pub open spec fn checkpoint_envelope_fault(response: Frame, expected: u8) -> Option<DcpFault> {
    if !response.magic.responds() {
        Some(
            malformed_frame_fault(
                "checkpoint KV response used request magic 0x"@ + hex2(
                    response.magic.byte() as nat,
                ),
            ),
        )
    } else if response.opcode != expected {
        Some(
            malformed_frame_fault(
                "checkpoint KV response opcode 0x"@ + hex2(response.opcode as nat)
                    + " does not match request 0x"@ + hex2(expected as nat),
            ),
        )
    } else {
        None
    }
}

/// Accepts only a response to the request that was sent.
pub fn validate_response_envelope(response: &Frame, expected_opcode: u8) -> (result: Result<()>)
    ensures
        checked(result, checkpoint_envelope_fault(*response, expected_opcode)),
{
    if !response.magic.is_response() {
        return Err(
            malformed_frame(
                join2(
                    "checkpoint KV response used request magic 0x",
                    hex2_text(response.magic.as_u8() as u64).as_str(),
                ),
            ),
        );
    }
    if response.opcode != expected_opcode {
        return Err(
            malformed_frame(
                join4(
                    "checkpoint KV response opcode 0x",
                    hex2_text(response.opcode as u64).as_str(),
                    " does not match request 0x",
                    hex2_text(expected_opcode as u64).as_str(),
                ),
            ),
        );
    }
    Ok(())
}

/// Why a document key is refused, if it is.
pub open spec fn checkpoint_key_fault(key: Seq<char>) -> Option<DcpFault> {
    if 0 < encode_utf8(key).len() <= MAX_DOCUMENT_KEY_LEN {
        None
    } else {
        Some(
            DcpFault::InvalidConfiguration(
                "checkpoint document key must contain 1..=250 bytes"@,
            ),
        )
    }
}

/// Refuses an empty or too long document key.
pub fn validate_document_key(key: &str) -> (result: Result<()>)
    ensures
        checked(result, checkpoint_key_fault(key@)),
{
    let n: usize = key.as_bytes().len();
    if n == 0 || n > MAX_DOCUMENT_KEY_LEN {
        return Err(
            DcpError::InvalidConfiguration(
                "checkpoint document key must contain 1..=250 bytes".to_owned(),
            ),
        );
    }
    Ok(())
}

} // verus!
