//! Laws of checkpoint documents in a key-value service.
use vstd::prelude::*;
use vstd::utf8::encode_utf8;

use crate::bootstrap::{BootstrapCapabilities, HelloFeature};
use crate::checkpoint_couchbase::{
    validate_document_key, validate_response_envelope, CheckpointKvOperation, CheckpointKvRequest,
    CheckpointKvResult, CheckpointTarget, CouchbaseCheckpointCollectionSpec,
    CouchbaseKvCheckpointCollection,
};
use crate::config::{DcpConfig, PositiveCount};
use crate::error::{DcpError, Result};
use crate::naming::valid_name;
use crate::protocol::{Frame, Magic};

verus! {

/// A checkpoint collection keeps the names that it was made with, and both are
/// valid; invalid names are refused.
pub proof fn checkpoint_collections_keep_their_names(
    scope: &str,
    collection: &str,
    result: Result<CouchbaseCheckpointCollectionSpec>,
    scope_name: &str,
    collection_name: &str,
    default_one: bool,
)
    requires
        call_ensures(CouchbaseCheckpointCollectionSpec::new, (scope, collection), result),
        result matches Ok(spec) ==> {
            &&& call_ensures(CouchbaseCheckpointCollectionSpec::scope, (&spec,), scope_name)
            &&& call_ensures(
                CouchbaseCheckpointCollectionSpec::collection,
                (&spec,),
                collection_name,
            )
            &&& call_ensures(CouchbaseCheckpointCollectionSpec::is_default, (&spec,), default_one)
        },
    ensures
        result is Ok <==> valid_name(scope@) && valid_name(collection@),
        result is Ok ==> scope_name@ == scope@ && collection_name@ == collection@ && (default_one
            <==> scope@ == "_default"@ && collection@ == "_default"@),
        result matches Err(e) ==> e is InvalidConfiguration,
{
}

/// Without collections only the default one can be used, without an ID; with
/// them the default one has the ID zero and any other is looked up.
pub proof fn checkpoint_collections_are_addressed(
    spec: CouchbaseCheckpointCollectionSpec,
    supported: bool,
    is_default: bool,
    result: Result<CheckpointTarget>,
)
    requires
        call_ensures(CouchbaseCheckpointCollectionSpec::target, (&spec, supported), result),
        call_ensures(CouchbaseCheckpointCollectionSpec::is_default, (&spec,), is_default),
    ensures
        is_default && supported ==> (result matches Ok(CheckpointTarget::Known(id)) && id == 0),
        is_default && !supported ==> (result matches Ok(CheckpointTarget::Legacy)),
        !is_default && supported ==> (result matches Ok(CheckpointTarget::Lookup)),
        !is_default && !supported ==> (result matches Err(DcpError::Unsupported(_))),
{
}

/// A node can keep checkpoints exactly when it stores extended attributes, and
/// knows collections if one is addressed.
pub proof fn nodes_need_extended_attributes(
    spec: CouchbaseCheckpointCollectionSpec,
    capabilities: BootstrapCapabilities,
    collection_id: Option<u32>,
    result: Result<()>,
)
    requires
        call_ensures(
            CouchbaseCheckpointCollectionSpec::check_node,
            (&spec, &capabilities, collection_id),
            result,
        ),
    ensures
        result is Ok <==> capabilities.hello_features@.contains(HelloFeature::Xattr) && (
        collection_id is Some ==> capabilities.hello_features@.contains(HelloFeature::Collections)),
        result matches Err(e) ==> e is Unsupported,
{
}

/// Each operation asks for its own command on the document, in the collection
/// and vBucket given: a lookup or an upsert of the attribute, or the removal
/// of the whole document. Only an upsert creates the document.
pub proof fn checkpoint_operations_are_requested(
    operation: CheckpointKvOperation,
    key: &str,
    collection_id: Option<u32>,
    vbucket: u16,
    request: CheckpointKvRequest,
)
    requires
        call_ensures(
            CheckpointKvOperation::request,
            (&operation, key, collection_id, vbucket),
            request,
        ),
    ensures
        request.key@ == encode_utf8(key@),
        request.collection_id == collection_id,
        request.vbucket == vbucket,
        match operation {
            CheckpointKvOperation::GetXattr { xattr } => request.opcode == 0xd0
                && request.extras@.len() == 0 && request.xattr@ == encode_utf8(xattr@)
                && request.value@.len() == 0,
            CheckpointKvOperation::UpsertXattr { xattr, value } => request.opcode == 0xd1
                && request.extras@ == seq![0x01u8] && request.xattr@ == encode_utf8(xattr@)
                && request.value@ == value@,
            CheckpointKvOperation::RemoveDocument => request.opcode == 0x04
                && request.extras@.len() == 0 && request.xattr@.len() == 0 && request.value@.len()
                == 0,
        },
{
}

/// An absent document has no checkpoint, and removing it is no failure; any
/// other answer is what was decoded.
pub proof fn checkpoint_answers_are_read(
    operation: CheckpointKvOperation,
    response: Frame,
    decoded: Result<Option<Vec<u8>>>,
    result: Result<CheckpointKvResult>,
)
    requires
        call_ensures(CheckpointKvOperation::parse_response, (&operation, &response, decoded), result),
    ensures
        match operation {
            CheckpointKvOperation::GetXattr { .. } => {
                &&& response.status == 0x01 ==> (result matches Ok(CheckpointKvResult::Xattr(
                    value,
                )) && value is None)
                &&& response.status != 0x01 && decoded is Ok ==> (
                result matches Ok(CheckpointKvResult::Xattr(value)) && value == decoded->Ok_0)
                &&& response.status != 0x01 && decoded is Err ==> result is Err && result->Err_0
                    == decoded->Err_0
            },
            CheckpointKvOperation::UpsertXattr { .. } => {
                &&& decoded is Ok ==> (result matches Ok(CheckpointKvResult::Mutation))
                &&& decoded is Err ==> result is Err && result->Err_0 == decoded->Err_0
            },
            CheckpointKvOperation::RemoveDocument => {
                &&& response.status == 0x00 || response.status == 0x01 ==> (
                result matches Ok(CheckpointKvResult::Mutation))
                &&& response.status != 0x00 && response.status != 0x01 ==> (
                result matches Err(DcpError::ServerStatus { status, opcode, .. }) && status
                    == response.status && opcode == response.opcode)
            },
        },
{
}

/// A result is used as what it is.
pub proof fn checkpoint_results_are_used_as_they_are(
    answer: CheckpointKvResult,
    operation: &str,
    value: Result<Option<Vec<u8>>>,
    mutation: Result<()>,
)
    requires
        call_ensures(CheckpointKvResult::into_xattr, (answer,), value),
        call_ensures(CheckpointKvResult::into_mutation, (answer, operation), mutation),
    ensures
        answer is Mutation ==> mutation is Ok && value is Err,
        answer matches CheckpointKvResult::Xattr(bytes) ==> mutation is Err && value is Ok
            && value->Ok_0 == bytes,
{
}

/// A request that reached the wrong node or an unknown collection is routed
/// again as long as attempts are left; a response that is no answer to the
/// request is refused.
pub proof fn misrouted_requests_are_routed_again(
    adapter: CouchbaseKvCheckpointCollection,
    bounds: (usize, usize),
    response: Frame,
    opcode: u8,
    attempt: usize,
    result: Result<bool>,
    envelope: Result<()>,
)
    requires
        call_ensures(
            CouchbaseKvCheckpointCollection::routing_step,
            (&adapter, &response, opcode, attempt),
            result,
        ),
        call_ensures(CouchbaseKvCheckpointCollection::bounds, (&adapter,), bounds),
        call_ensures(validate_response_envelope, (&response, opcode), envelope),
    ensures
        envelope is Ok <==> (response.magic == Magic::Response || response.magic
            == Magic::AltResponse) && response.opcode == opcode,
        envelope is Err ==> result is Err,
        envelope is Ok && response.status != 0x07 && response.status != 0x88 ==> (
        result matches Ok(again) && !again),
        envelope is Ok && (response.status == 0x07 || response.status == 0x88) && attempt < bounds.0
            ==> (result matches Ok(again) && again),
        envelope is Ok && (response.status == 0x07 || response.status == 0x88) && attempt
            >= bounds.0 ==> (result matches Err(DcpError::CheckpointStore(_))),
{
}

/// A checkpoint adapter keeps its configuration and its collection; it starts
/// with three routing attempts and sixteen requests at a time, and each bound
/// can be set without touching the other.
pub proof fn checkpoint_adapters_keep_their_settings(
    config: DcpConfig,
    collection: CouchbaseCheckpointCollectionSpec,
    adapter: CouchbaseKvCheckpointCollection,
    bounds: (usize, usize),
    attempts: PositiveCount,
    retried: CouchbaseKvCheckpointCollection,
    retried_bounds: (usize, usize),
    limit: PositiveCount,
    limited: CouchbaseKvCheckpointCollection,
    limited_bounds: (usize, usize),
)
    requires
        call_ensures(
            CouchbaseKvCheckpointCollection::in_collection,
            (config, collection),
            Ok(adapter),
        ),
        call_ensures(CouchbaseKvCheckpointCollection::bounds, (&adapter,), bounds),
        call_ensures(
            CouchbaseKvCheckpointCollection::routing_attempts,
            (adapter, attempts),
            retried,
        ),
        call_ensures(CouchbaseKvCheckpointCollection::bounds, (&retried,), retried_bounds),
        call_ensures(CouchbaseKvCheckpointCollection::max_concurrency, (adapter, limit), limited),
        call_ensures(CouchbaseKvCheckpointCollection::bounds, (&limited,), limited_bounds),
    ensures
        bounds == (3usize, 16usize),
        retried_bounds == (attempts.count(), 16usize),
        limited_bounds == (3usize, limit.count()),
        adapter.client() == config && adapter.place() == collection,
        retried.client() == config && retried.place() == collection,
        limited.client() == config && limited.place() == collection,
{
}

/// A document key has between one and 250 bytes.
pub proof fn document_keys_are_bounded(key: &str, result: Result<()>)
    requires
        call_ensures(validate_document_key, (key,), result),
    ensures
        result is Ok <==> 1 <= encode_utf8(key@).len() <= 250,
        result matches Err(e) ==> e is InvalidConfiguration,
{
}

} // verus!
