//! Errors of the membership extension and their mathematical content.
use vstd::prelude::*;

use crate::error::{DcpError, DcpFault};
use crate::interval::{unit_text, Interval};
use crate::text::{join2, join3, join4, quoted, quoted_text};

verus! {

/// Couchbase membership configuration, fencing, storage, or task failure.
#[derive(Debug)]
#[non_exhaustive]
pub enum CouchbaseMembershipError {
    /// Invalid local or persisted membership configuration.
    Configuration(String),
    /// A live process already owns the configured member ID.
    DuplicateMember {
        /// Conflicting logical member ID.
        member_id: String,
    },
    /// This process incarnation was replaced or removed from the registry.
    Fenced {
        /// Fenced logical member ID.
        member_id: String,
    },
    /// The registry document is malformed or violates its schema invariants.
    Registry(String),
    /// JSON encoding or decoding failed.
    Json(String),
    /// Underlying connection or protocol operation failed.
    Dcp(DcpError),
    /// A bounded membership operation exceeded its configured deadline.
    Timeout(Interval),
    /// A custom or built-in registry store failed.
    Store(String),
    /// Coordination could not be renewed before the stale-member deadline.
    LeaseExpired {
        /// Time elapsed since the last successful registry heartbeat.
        idle_for: Interval,
        /// Most recent transient store or KV failure.
        last_error: String,
    },
    /// The membership runtime was cancelled.
    Cancelled,
    /// The membership background task failed to join.
    Task(String),
}

/// Content of a [`CouchbaseMembershipError`].
pub enum MembershipFault {
    Configuration(Seq<char>),
    DuplicateMember { member_id: Seq<char> },
    Fenced { member_id: Seq<char> },
    Registry(Seq<char>),
    Json(Seq<char>),
    Dcp(DcpFault),
    Timeout(Interval),
    Store(Seq<char>),
    LeaseExpired { idle_for: Interval, last_error: Seq<char> },
    Cancelled,
    Task(Seq<char>),
}

impl View for CouchbaseMembershipError {
    type V = MembershipFault;

    open spec fn view(&self) -> MembershipFault {
        match *self {
            CouchbaseMembershipError::Configuration(m) => MembershipFault::Configuration(m@),
            CouchbaseMembershipError::DuplicateMember {
                member_id,
            } => MembershipFault::DuplicateMember { member_id: member_id@ },
            CouchbaseMembershipError::Fenced { member_id } => MembershipFault::Fenced {
                member_id: member_id@,
            },
            CouchbaseMembershipError::Registry(m) => MembershipFault::Registry(m@),
            CouchbaseMembershipError::Json(m) => MembershipFault::Json(m@),
            CouchbaseMembershipError::Dcp(e) => MembershipFault::Dcp(e@),
            CouchbaseMembershipError::Timeout(after) => MembershipFault::Timeout(after),
            CouchbaseMembershipError::Store(m) => MembershipFault::Store(m@),
            CouchbaseMembershipError::LeaseExpired {
                idle_for,
                last_error,
            } => MembershipFault::LeaseExpired { idle_for, last_error: last_error@ },
            CouchbaseMembershipError::Cancelled => MembershipFault::Cancelled,
            CouchbaseMembershipError::Task(m) => MembershipFault::Task(m@),
        }
    }
}

impl MembershipFault {
    /// Rendering for people.
    pub open spec fn text(self) -> Seq<char> {
        match self {
            MembershipFault::Configuration(m) => "invalid Couchbase membership configuration: "@
                + m,
            MembershipFault::DuplicateMember { member_id } => "Couchbase membership member "@
                + quoted(member_id) + " is already live"@,
            MembershipFault::Fenced { member_id } => "Couchbase membership member "@ + quoted(
                member_id,
            ) + " was fenced by another incarnation"@,
            MembershipFault::Registry(m) => "invalid Couchbase membership registry: "@ + m,
            MembershipFault::Json(m) => "Couchbase membership JSON error: "@ + m,
            MembershipFault::Dcp(e) => "Couchbase membership KV error: "@ + e.text(),
            MembershipFault::Timeout(after) => "Couchbase membership operation timed out after "@
                + unit_text(after.total_nanos()),
            MembershipFault::Store(m) => "Couchbase membership store error: "@ + m,
            MembershipFault::LeaseExpired { idle_for, last_error } =>
                "Couchbase membership lease expired after "@ + unit_text(idle_for.total_nanos())
                + " without a successful renewal: "@ + last_error,
            MembershipFault::Cancelled => "Couchbase membership runtime was cancelled"@,
            MembershipFault::Task(m) => "Couchbase membership task failed: "@ + m,
        }
    }
}

impl CouchbaseMembershipError {
    /// Renders the error for people.
    pub fn to_text(&self) -> (result: String)
        ensures
            result@ == self@.text(),
    {
        match self {
            CouchbaseMembershipError::Configuration(m) => join2(
                "invalid Couchbase membership configuration: ",
                m.as_str(),
            ),
            CouchbaseMembershipError::DuplicateMember { member_id } => join3(
                "Couchbase membership member ",
                quoted_text(member_id.as_str()).as_str(),
                " is already live",
            ),
            CouchbaseMembershipError::Fenced { member_id } => join3(
                "Couchbase membership member ",
                quoted_text(member_id.as_str()).as_str(),
                " was fenced by another incarnation",
            ),
            CouchbaseMembershipError::Registry(m) => join2(
                "invalid Couchbase membership registry: ",
                m.as_str(),
            ),
            CouchbaseMembershipError::Json(m) => join2(
                "Couchbase membership JSON error: ",
                m.as_str(),
            ),
            CouchbaseMembershipError::Dcp(e) => join2(
                "Couchbase membership KV error: ",
                e.to_text().as_str(),
            ),
            CouchbaseMembershipError::Timeout(after) => join2(
                "Couchbase membership operation timed out after ",
                after.debug_text().as_str(),
            ),
            CouchbaseMembershipError::Store(m) => join2(
                "Couchbase membership store error: ",
                m.as_str(),
            ),
            CouchbaseMembershipError::LeaseExpired { idle_for, last_error } => join4(
                "Couchbase membership lease expired after ",
                idle_for.debug_text().as_str(),
                " without a successful renewal: ",
                last_error.as_str(),
            ),
            CouchbaseMembershipError::Cancelled => {
                "Couchbase membership runtime was cancelled".to_owned()
            },
            CouchbaseMembershipError::Task(m) => join2(
                "Couchbase membership task failed: ",
                m.as_str(),
            ),
        }
    }
}

/// Couchbase membership result type.
pub type Result<T> = std::result::Result<T, CouchbaseMembershipError>;

/// A check fails with exactly the fault given, if any.
pub open spec fn passes(result: Result<()>, fault: Option<MembershipFault>) -> bool {
    match result {
        Ok(_) => fault is None,
        Err(e) => fault == Some(e@),
    }
}

} // verus!
