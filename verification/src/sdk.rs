//! Outcomes of operations through the official SDK.
use vstd::prelude::*;

use crate::error::{DcpError, DcpFault};
use crate::membership::error::{CouchbaseMembershipError, MembershipFault};
use crate::membership::store::StoreWriteResult;
use crate::text::join2;

verus! {

/// Failure kinds of the official SDK that the adapters tell apart.
#[derive(Clone, Copy, Debug, PartialEq, Eq, Structural)]
pub enum SdkFailure {
    /// The document does not exist.
    DocumentNotFound,
    /// The path does not exist in the document.
    PathNotFound,
    /// The document exists already.
    DocumentExists,
    /// The document has another revision.
    CasMismatch,
    /// Any other failure.
    Other,
}

/// Outcome of a conditional creation through the SDK; `None` is a failure.
pub fn sdk_create_result(failure: Option<SdkFailure>) -> (result: Option<StoreWriteResult>)
    ensures
        result == match failure {
            None => Some(StoreWriteResult::Stored),
            Some(SdkFailure::DocumentExists) => Some(StoreWriteResult::Conflict),
            Some(_) => None,
        },
{
    match failure {
        None => Some(StoreWriteResult::Stored),
        Some(SdkFailure::DocumentExists) => Some(StoreWriteResult::Conflict),
        Some(_) => None,
    }
}

/// Outcome of a conditional replacement through the SDK; `None` is a failure.
pub fn sdk_replace_result(failure: Option<SdkFailure>) -> (result: Option<StoreWriteResult>)
    ensures
        result == match failure {
            None => Some(StoreWriteResult::Stored),
            Some(SdkFailure::CasMismatch) | Some(SdkFailure::DocumentNotFound) => Some(
                StoreWriteResult::Conflict,
            ),
            Some(_) => None,
        },
{
    match failure {
        None => Some(StoreWriteResult::Stored),
        Some(SdkFailure::CasMismatch) | Some(SdkFailure::DocumentNotFound) => Some(
            StoreWriteResult::Conflict,
        ),
        Some(_) => None,
    }
}

/// A failed load that stands for an absent registry.
pub fn sdk_load_is_absent(failure: SdkFailure) -> (result: bool)
    ensures
        result == (failure == SdkFailure::DocumentNotFound),
{
    match failure {
        SdkFailure::DocumentNotFound => true,
        _ => false,
    }
}

/// Error of the membership adapter over the SDK.
pub fn sdk_membership_error(detail: &str) -> (result: CouchbaseMembershipError)
    ensures
        result@ == MembershipFault::Store(
            "official Couchbase SDK membership operation failed: "@ + detail@,
        ),
{
    CouchbaseMembershipError::Store(
        join2("official Couchbase SDK membership operation failed: ", detail),
    )
}

/// A failed attribute lookup that stands for an absent checkpoint.
pub fn sdk_xattr_is_absent(failure: SdkFailure) -> (result: bool)
    ensures
        result == (failure == SdkFailure::DocumentNotFound || failure == SdkFailure::PathNotFound),
{
    match failure {
        SdkFailure::DocumentNotFound | SdkFailure::PathNotFound => true,
        _ => false,
    }
}

/// A removal through the SDK is done; a missing document counts as removed.
pub fn sdk_removal_is_done(failure: Option<SdkFailure>) -> (result: bool)
    ensures
        result == (failure is None || failure == Some(SdkFailure::DocumentNotFound)),
{
    match failure {
        None | Some(SdkFailure::DocumentNotFound) => true,
        Some(_) => false,
    }
}

/// Error of the checkpoint adapter over the SDK.
pub fn sdk_checkpoint_error(detail: &str) -> (result: DcpError)
    ensures
        result@ == DcpFault::CheckpointStore(
            "official Couchbase SDK checkpoint operation failed: "@ + detail@,
        ),
{
    DcpError::CheckpointStore(
        join2("official Couchbase SDK checkpoint operation failed: ", detail),
    )
}

} // verus!
