//! Laws of trust roots, server names and client library outcomes.
use vstd::prelude::*;

use crate::address::endpoint_host;
use crate::config::{SeedAddress, TlsConfig};
use crate::error::{Outcome, Result};
use crate::lists::{collected, collected_fault_is_of_an_item, collected_items};
use crate::membership::store::StoreWriteResult;
use crate::sdk::{
    sdk_create_result, sdk_load_is_absent, sdk_removal_is_done, sdk_replace_result,
    sdk_xattr_is_absent, SdkFailure,
};
use crate::tls::{
    accept_name, accept_roots, accepted_root, check_platform_roots, name_complaint, readings_of,
    server_name, RootReading,
};

verus! {

/// A document that exists already is a conflict of a creation; one that
/// changed or went away is a conflict of a replacement; every other failure
/// is passed on.
pub proof fn write_conflicts_are_told(
    failure: Option<SdkFailure>,
    created: Option<StoreWriteResult>,
    replaced: Option<StoreWriteResult>,
    removed: bool,
)
    requires
        call_ensures(sdk_create_result, (failure,), created),
        call_ensures(sdk_replace_result, (failure,), replaced),
        call_ensures(sdk_removal_is_done, (failure,), removed),
    ensures
        failure is None ==> created == Some(StoreWriteResult::Stored) && replaced == Some(
            StoreWriteResult::Stored,
        ) && removed,
        failure == Some(SdkFailure::DocumentExists) ==> created == Some(StoreWriteResult::Conflict)
            && replaced is None && !removed,
        failure == Some(SdkFailure::CasMismatch) ==> created is None && replaced == Some(
            StoreWriteResult::Conflict,
        ) && !removed,
        failure == Some(SdkFailure::DocumentNotFound) ==> created is None && replaced == Some(
            StoreWriteResult::Conflict,
        ) && removed,
        failure == Some(SdkFailure::PathNotFound) || failure == Some(SdkFailure::Other)
            ==> created is None && replaced is None && !removed,
{
}

/// An absent document holds nothing to load, and neither does an absent
/// attribute.
pub proof fn absence_is_told(failure: SdkFailure, document: bool, attribute: bool)
    requires
        call_ensures(sdk_load_is_absent, (failure,), document),
        call_ensures(sdk_xattr_is_absent, (failure,), attribute),
    ensures
        document <==> failure is DocumentNotFound,
        attribute <==> failure is DocumentNotFound || failure is PathNotFound,
{
}

/// The roots of a file are all its certificates, in their order; one section
/// that is malformed or rejected, or none at all, refuses the file.
pub proof fn every_root_must_be_sound(
    path: &str,
    readings: Vec<RootReading>,
    result: Result<Vec<Vec<u8>>>,
)
    requires
        call_ensures(accept_roots, (path, &readings), result),
    ensures
        result is Ok <==> readings@.len() > 0 && forall|i: int|
            0 <= i < readings@.len() ==> (#[trigger] readings@[i]) is Certificate,
        result matches Ok(roots) ==> {
            &&& roots@.len() == readings@.len()
            &&& forall|i: int|
                0 <= i < roots@.len() ==> (#[trigger] roots@[i])@ == readings@[i]->Certificate_0@
        },
        result matches Err(e) ==> e is Tls,
{
    let models = readings_of(readings@);
    let item = |i: int| accepted_root(path@, models[i]);
    assert forall|i: int| 0 <= i < models.len() implies #[trigger] models[i] == readings@[i]@ by {}
    let all = collected(models.len(), item);
    if all is Ok {
        collected_items(models.len(), item);
        assert forall|i: int| 0 <= i < readings@.len() implies (
        #[trigger] readings@[i]) is Certificate by {
            assert(item(i) == Outcome::<Seq<u8>>::Ok(all->Ok_0[i]));
            assert(models[i] == readings@[i]@);
        }
        if let Ok(roots) = result {
            assert forall|i: int| 0 <= i < roots@.len() implies (#[trigger] roots@[i])@
                == readings@[i]->Certificate_0@ by {
                assert(crate::tls::certificates_of(roots@)[i] == roots@[i]@);
                assert(item(i) == Outcome::<Seq<u8>>::Ok(all->Ok_0[i]));
                assert(models[i] == readings@[i]@);
            }
        }
    } else {
        collected_fault_is_of_an_item(models.len(), item);
        let i = choose|i: int| 0 <= i < models.len() && (#[trigger] item(i)) is Err && item(
            i,
        )->Err_0 == all->Err_0;
        assert(models[i] == readings@[i]@);
        assert(!(readings@[i] is Certificate));
    }
}

/// Without a single root of the platform a root of one's own is needed.
pub proof fn some_root_is_needed(
    added: usize,
    ignored: usize,
    errors: usize,
    custom: bool,
    result: Result<()>,
)
    requires
        call_ensures(check_platform_roots, (added, ignored, errors, custom), result),
    ensures
        result is Err <==> added == 0 && !custom,
        result matches Err(e) ==> e is Tls,
{
}

/// A server name is used as it is, unless there is a complaint about it.
pub proof fn server_names_are_checked(
    name: String,
    complaint: Option<String>,
    result: Result<String>,
)
    requires
        call_ensures(accept_name, (name, complaint), result),
    ensures
        result is Ok <==> complaint is None,
        result matches Ok(accepted) ==> accepted@ == name@,
        result matches Err(e) ==> e is Tls,
{
}

/// The server is verified under the configured name, or under the host of its
/// seed address.
pub proof fn servers_are_verified_by_name(
    tls: TlsConfig,
    seed: SeedAddress,
    seed_text: &str,
    host: &str,
    result: Result<String>,
)
    requires
        call_ensures(server_name, (&tls, &seed), result),
        seed_text@ == seed@,
        call_ensures(endpoint_host, (seed_text,), host),
    ensures
        tls.server_name matches Some(name) ==> {
            &&& result is Ok <==> name_complaint(name@) is None
            &&& result matches Ok(accepted) ==> accepted@ == name@
        },
        tls.server_name is None ==> {
            &&& result is Ok <==> name_complaint(host@) is None
            &&& result matches Ok(accepted) ==> accepted@ == host@
        },
{
}

} // verus!
