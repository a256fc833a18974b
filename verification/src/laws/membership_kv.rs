//! Laws of the membership registry in a key-value service.
use vstd::prelude::*;
use vstd::utf8::encode_utf8;

use crate::bootstrap::{BootstrapCapabilities, HelloFeature};
use crate::error::DcpError;
use crate::membership::error::{CouchbaseMembershipError, Result};
use crate::membership::store::{
    routing_step, validate_document_key, validate_response_envelope, CouchbaseRegistryCollection,
    KvOperation, KvResult, RegistryTarget, RoutingStep, StoreWriteResult, StoredRegistryDocument,
};
use crate::naming::{is_valid_name, is_visible, valid_name, visible};
use crate::protocol::{DocumentRequest, Frame, Magic};

verus! {

/// Names have between one and 251 characters: letters, digits, underscore,
/// hyphen and percent sign.
pub proof fn names_are_restricted(name: &str, result: bool)
    requires
        call_ensures(is_valid_name, (name,), result),
    ensures
        result <==> 1 <= name@.len() <= 251 && forall|i: int|
            0 <= i < name@.len() ==> {
                let c = #[trigger] name@[i];
                ||| 'a' as u32 <= c as u32 <= 'z' as u32
                ||| 'A' as u32 <= c as u32 <= 'Z' as u32
                ||| '0' as u32 <= c as u32 <= '9' as u32
                ||| c == '_' || c == '-' || c == '%'
            },
{
    if valid_name(name@) {
        assert forall|i: int| 0 <= i < name@.len() implies {
            let c = #[trigger] name@[i];
            ||| 'a' as u32 <= c as u32 <= 'z' as u32
            ||| 'A' as u32 <= c as u32 <= 'Z' as u32
            ||| '0' as u32 <= c as u32 <= '9' as u32
            ||| c == '_' || c == '-' || c == '%'
        } by {
            assert(crate::naming::name_char(name@[i]));
        }
    }
}

/// A visible text has between one and so many characters, all printable ASCII
/// other than the blank.
pub proof fn visible_texts_are_printable(text: &str, limit: usize, result: bool)
    requires
        call_ensures(is_visible, (text, limit), result),
    ensures
        result <==> 1 <= text@.len() <= limit && forall|i: int|
            0 <= i < text@.len() ==> 0x21 <= (#[trigger] text@[i]) as u32 <= 0x7e,
{
    if visible(text@, limit as nat) {
        assert forall|i: int| 0 <= i < text@.len() implies 0x21 <= (#[trigger] text@[i]) as u32
            <= 0x7e by {
            assert(crate::text::ascii_graphic(text@[i]));
        }
    }
}

/// A registry collection keeps the names that it was made with, and both are
/// valid; invalid names are refused.
pub proof fn registry_collections_keep_their_names(
    scope: &str,
    collection: &str,
    result: Result<CouchbaseRegistryCollection>,
    scope_name: &str,
    collection_name: &str,
    is_default: bool,
)
    requires
        call_ensures(CouchbaseRegistryCollection::new, (scope, collection), result),
        result matches Ok(c) ==> {
            &&& call_ensures(CouchbaseRegistryCollection::scope, (&c,), scope_name)
            &&& call_ensures(CouchbaseRegistryCollection::collection, (&c,), collection_name)
            &&& call_ensures(CouchbaseRegistryCollection::is_default, (&c,), is_default)
        },
    ensures
        result is Ok <==> valid_name(scope@) && valid_name(collection@),
        result is Ok ==> scope_name@ == scope@ && collection_name@ == collection@ && (is_default
            <==> scope@ == "_default"@ && collection@ == "_default"@),
{
}

/// Without collections only the default one can be used, without an ID; with
/// them the default one has the ID zero and any other is looked up. A node
/// needs collections where an ID is used.
pub proof fn registry_collections_are_addressed(
    c: CouchbaseRegistryCollection,
    supported: bool,
    is_default: bool,
    result: Result<RegistryTarget>,
    capabilities: BootstrapCapabilities,
    id: Option<u32>,
    node: Result<()>,
)
    requires
        call_ensures(CouchbaseRegistryCollection::target, (&c, supported), result),
        call_ensures(CouchbaseRegistryCollection::is_default, (&c,), is_default),
        call_ensures(CouchbaseRegistryCollection::check_node, (&c, &capabilities, id), node),
    ensures
        is_default && supported ==> (result matches Ok(RegistryTarget::Known(i)) && i == 0),
        is_default && !supported ==> (result matches Ok(RegistryTarget::Legacy)),
        !is_default && supported ==> (result matches Ok(RegistryTarget::Lookup)),
        !is_default && !supported ==> result is Err,
        node is Ok <==> (id is Some ==> capabilities.hello_features@.contains(
            HelloFeature::Collections,
        )),
{
}

/// A registry key has between one and 250 visible characters.
pub proof fn registry_keys_are_visible(key: &str, result: Result<()>)
    requires
        call_ensures(validate_document_key, (key,), result),
    ensures
        result is Ok <==> visible(key@, 250),
        result matches Err(e) ==> e is Configuration,
{
}

/// Each operation asks for its own command: a load reads, a creation adds, a
/// replacement replaces exactly the revision that was read. What is written is
/// the value, marked as JSON where the server wants it.
pub proof fn registry_operations_are_requested(
    operation: KvOperation,
    key: &str,
    id: Option<u32>,
    vbucket: u16,
    json: bool,
    request: DocumentRequest,
)
    requires
        call_ensures(KvOperation::request, (&operation, key, id, vbucket, json), request),
    ensures
        request.key@ == encode_utf8(key@),
        request.collection_id == id,
        request.vbucket == vbucket,
        match operation {
            KvOperation::Load => request.mode is Get && request.value@.len() == 0
                && request.datatype == 0 && request.cas == 0,
            KvOperation::Create(value) => request.mode is Add && request.value@ == value@
                && request.cas == 0 && request.datatype == (if json {
                1u8
            } else {
                0u8
            }),
            KvOperation::Replace { value, cas } => request.mode is Replace && request.value@
                == value@ && request.cas == cas && request.datatype == (if json {
                1u8
            } else {
                0u8
            }),
        },
{
}

/// A load gives the stored value with its revision, or nothing where there is
/// none; a write is stored, or conflicts where another came before.
pub proof fn registry_answers_are_read(
    operation: KvOperation,
    response: Frame,
    result: Result<KvResult>,
)
    requires
        call_ensures(KvOperation::parse_response, (&operation, response), result),
    ensures
        match operation {
            KvOperation::Load => {
                &&& response.status == 0 ==> (result matches Ok(KvResult::Loaded(Some(d)))
                    && d.value == response.value && d.cas == response.cas)
                &&& response.status == 1 ==> (result matches Ok(KvResult::Loaded(None)))
                &&& response.status != 0 && response.status != 1 ==> result is Err
            },
            KvOperation::Create(_) => {
                &&& response.status == 0 ==> (result matches Ok(KvResult::Written(
                    StoreWriteResult::Stored,
                )))
                &&& response.status == 2 ==> (result matches Ok(KvResult::Written(
                    StoreWriteResult::Conflict,
                )))
                &&& response.status != 0 && response.status != 2 ==> result is Err
            },
            KvOperation::Replace { .. } => {
                &&& response.status == 0 ==> (result matches Ok(KvResult::Written(
                    StoreWriteResult::Stored,
                )))
                &&& response.status == 1 || response.status == 2 ==> (result matches Ok(
                    KvResult::Written(StoreWriteResult::Conflict),
                ))
                &&& response.status > 2 ==> result is Err
            },
        },
        result matches Err(e) ==> (e matches CouchbaseMembershipError::Dcp(
            DcpError::ServerStatus { status, opcode, .. },
        ) && status == response.status && opcode == response.opcode),
{
}

/// A result is used as what it is.
pub proof fn registry_results_are_used_as_they_are(
    answer: KvResult,
    operation: &str,
    loaded: Result<Option<StoredRegistryDocument>>,
    written: Result<StoreWriteResult>,
)
    requires
        call_ensures(KvResult::into_loaded, (answer,), loaded),
        call_ensures(KvResult::into_written, (answer, operation), written),
    ensures
        answer matches KvResult::Loaded(d) ==> loaded is Ok && loaded->Ok_0 == d && written is Err,
        answer matches KvResult::Written(w) ==> written is Ok && written->Ok_0 == w
            && loaded is Err,
{
}

/// A request that reached the wrong node is routed again while attempts are
/// left; a response that is no answer to the request is refused.
pub proof fn misrouted_registry_requests_are_routed_again(
    response: Frame,
    opcode: u8,
    attempt: usize,
    attempts: usize,
    result: Result<RoutingStep>,
    envelope: Result<()>,
)
    requires
        call_ensures(routing_step, (&response, opcode, attempt, attempts), result),
        call_ensures(validate_response_envelope, (&response, opcode), envelope),
    ensures
        envelope is Ok <==> (response.magic == Magic::Response || response.magic
            == Magic::AltResponse) && response.opcode == opcode,
        envelope is Err ==> result is Err,
        envelope is Ok && response.status != 0x07 ==> (result matches Ok(RoutingStep::Accept)),
        envelope is Ok && response.status == 0x07 && attempt < attempts ==> (
        result matches Ok(RoutingStep::Rediscover)),
        envelope is Ok && response.status == 0x07 && attempt >= attempts ==> (
        result matches Err(CouchbaseMembershipError::Store(_))),
{
}

} // verus!
