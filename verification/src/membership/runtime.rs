//! Lifecycle of one member: configuration, registry mutations and renewal.
use vstd::prelude::*;
use vstd::string::*;

use crate::assignment::share;
use crate::config::PositiveCount;
use crate::interval::Interval;
use crate::membership::error::{passes, CouchbaseMembershipError, MembershipFault, Result};
use crate::membership::registry::{
    creation_fault, heard, holds_fence, left, pruned, registered, seating, settings_fault, Change,
    EntryModel, MemberIdentity, MembershipSnapshot, RegistryDocument, RegistryState, REGISTRY_SCHEMA_VERSION,
};
use crate::membership::store::StoreWriteResult;
use crate::text::{ascii_graphic, dec, dec_count, is_ascii_graphic, join2, join3};

verus! {

/// Prefix of registry document keys.
pub open spec fn registry_key_of(group: Seq<char>) -> Seq<char> {
    "rust-dcp:membership:v1:"@ + group
}

/// Visible ASCII throughout.
pub open spec fn all_graphic(s: Seq<char>) -> bool {
    forall|i: int| 0 <= i < s.len() ==> ascii_graphic(#[trigger] s[i])
}

fn is_all_graphic(s: &str) -> (result: bool)
    ensures
        result == all_graphic(s@),
{
    let n: usize = s.unicode_len();
    let mut i: usize = 0;
    while i < n
        invariant
            i <= n,
            n == s@.len(),
            forall|j: int| 0 <= j < i ==> ascii_graphic(#[trigger] s@[j]),
        decreases n - i,
    {
        if !is_ascii_graphic(s.get_char(i)) {
            return false;
        }
        i = i + 1;
    }
    true
}

/// Timings, CAS bounds, identity, and partition count for one member process.
#[derive(Clone, Debug)]
pub struct CouchbaseMembershipConfig {
    group: String,
    identity: MemberIdentity,
    vbucket_count: usize,
    heartbeat_interval: Interval,
    monitor_interval: Interval,
    stale_after: Interval,
    rebalance_delay: Interval,
    operation_timeout: Interval,
    max_cas_attempts: PositiveCount,
}

/// Content of a membership configuration.
pub struct ConfigModel {
    pub group: Seq<char>,
    pub id: Seq<char>,
    pub fence: Seq<char>,
    pub vbucket_count: usize,
    pub heartbeat_interval: nat,
    pub monitor_interval: nat,
    pub stale_after: nat,
    pub rebalance_delay: nat,
    pub operation_timeout: nat,
    pub max_cas_attempts: nat,
}

impl View for CouchbaseMembershipConfig {
    type V = ConfigModel;

    closed spec fn view(&self) -> ConfigModel {
        ConfigModel {
            group: self.group@,
            id: self.identity.id(),
            fence: self.identity.fence(),
            vbucket_count: self.vbucket_count,
            heartbeat_interval: self.heartbeat_interval.total_nanos(),
            monitor_interval: self.monitor_interval.total_nanos(),
            stale_after: self.stale_after.total_nanos(),
            rebalance_delay: self.rebalance_delay.total_nanos(),
            operation_timeout: self.operation_timeout.total_nanos(),
            max_cas_attempts: self.max_cas_attempts.count() as nat,
        }
    }
}

/// Whole milliseconds of a length of time in nanoseconds.
pub open spec fn millis_of(nanos: nat) -> nat {
    nanos / 1_000_000
}

/// Content of a configuration error.
pub open spec fn membership_config_fault(message: Seq<char>) -> MembershipFault {
    MembershipFault::Configuration(message)
}

impl ConfigModel {
    /// What is wrong with the configuration, if anything.
    pub open spec fn fault(self) -> Option<MembershipFault> {
        if self.group.len() == 0 || !all_graphic(self.group) || registry_key_of(self.group).len()
            > 250 {
            Some(
                membership_config_fault(
                    "membership group must produce a registry key of at most 250 visible ASCII bytes"@,
                ),
            )
        } else if millis_of(self.stale_after) > u64::MAX {
            Some(membership_config_fault(unrepresentable("stale timeout"@)))
        } else if creation_fault(self.vbucket_count, millis_of(self.stale_after) as u64) is Some {
            creation_fault(self.vbucket_count, millis_of(self.stale_after) as u64)
        } else if self.heartbeat_interval == 0 {
            Some(membership_config_fault("heartbeat interval must be greater than zero"@))
        } else if self.monitor_interval == 0 {
            Some(membership_config_fault("monitor interval must be greater than zero"@))
        } else if self.operation_timeout == 0 {
            Some(membership_config_fault("operation timeout must be greater than zero"@))
        } else if self.stale_after <= self.heartbeat_interval {
            Some(
                membership_config_fault(
                    "stale timeout must be greater than the heartbeat interval"@,
                ),
            )
        } else {
            None
        }
    }
}

/// Complaint about a length of time.
pub open spec fn unrepresentable(kind: Seq<char>) -> Seq<char> {
    kind
        + " cannot be represented in milliseconds: out of range integral type conversion attempted"@
}

/// Whole milliseconds of a length of time, if they fit in 64 bits.
pub fn duration_millis(interval: &Interval, kind: &str) -> (result: Result<u64>)
    ensures
        match result {
            Ok(millis) => millis == millis_of(interval.total_nanos()),
            Err(e) => millis_of(interval.total_nanos()) > u64::MAX && e@
                == membership_config_fault(unrepresentable(kind@)),
        },
{
    let millis: u128 = interval.as_millis();
    if millis > u64::MAX as u128 {
        return Err(
            CouchbaseMembershipError::Configuration(
                join2(
                    kind,
                    " cannot be represented in milliseconds: out of range integral type conversion attempted",
                ),
            ),
        );
    }
    Ok(millis as u64)
}

/// Unix timestamp in milliseconds of a time since the epoch.
pub fn timestamp_millis(elapsed: &Interval) -> (result: Result<u64>)
    ensures
        match result {
            Ok(millis) => millis == millis_of(elapsed.total_nanos()),
            Err(e) => millis_of(elapsed.total_nanos()) > u64::MAX && e@ == MembershipFault::Store(
                "Unix timestamp cannot be represented in milliseconds: out of range integral type conversion attempted"@,
            ),
        },
{
    let millis: u128 = elapsed.as_millis();
    if millis > u64::MAX as u128 {
        return Err(
            CouchbaseMembershipError::Store(
                "Unix timestamp cannot be represented in milliseconds: out of range integral type conversion attempted".to_owned(),
            ),
        );
    }
    Ok(millis as u64)
}

impl CouchbaseMembershipConfig {
    /// Creates a configuration with production-oriented lifecycle defaults.
    ///
    /// The caller supplies a unique incarnation value for every process start;
    /// reusing it would defeat stale-process fencing.
    pub fn new(group: &str, identity: MemberIdentity, vbucket_count: usize) -> (result: Result<Self>)
        ensures
            ({
                let model = ConfigModel {
                    group: group@,
                    id: identity.id(),
                    fence: identity.fence(),
                    vbucket_count,
                    heartbeat_interval: 10_000_000_000,
                    monitor_interval: 30_000_000_000,
                    stale_after: 70_000_000_000,
                    rebalance_delay: 30_000_000_000,
                    operation_timeout: 30_000_000_000,
                    max_cas_attempts: 16,
                };
                match result {
                    Ok(config) => model.fault() is None && config@ == model,
                    Err(e) => model.fault() == Some(e@),
                }
            }),
    {
        let attempts: PositiveCount = match PositiveCount::new(16) {
            Some(count) => count,
            None => {
                return Err(CouchbaseMembershipError::Cancelled);
            },
        };
        let config = CouchbaseMembershipConfig {
            group: group.to_owned(),
            identity,
            vbucket_count,
            heartbeat_interval: Interval::from_secs(10),
            monitor_interval: Interval::from_secs(30),
            stale_after: Interval::from_secs(70),
            rebalance_delay: Interval::from_secs(30),
            operation_timeout: Interval::from_secs(30),
            max_cas_attempts: attempts,
        };
        config.validate()?;
        Ok(config)
    }

    /// Sets the interval between local liveness writes.
    #[must_use]
    pub fn heartbeat_interval(self, interval: Interval) -> (result: Self)
        ensures
            result@ == (ConfigModel { heartbeat_interval: interval.total_nanos(), ..self@ }),
    {
        CouchbaseMembershipConfig { heartbeat_interval: interval, ..self }
    }

    /// Sets the interval between stale-member scans.
    #[must_use]
    pub fn monitor_interval(self, interval: Interval) -> (result: Self)
        ensures
            result@ == (ConfigModel { monitor_interval: interval.total_nanos(), ..self@ }),
    {
        CouchbaseMembershipConfig { monitor_interval: interval, ..self }
    }

    /// Sets the elapsed heartbeat age at which a member can be fenced.
    #[must_use]
    pub fn stale_after(self, duration: Interval) -> (result: Self)
        ensures
            result@ == (ConfigModel { stale_after: duration.total_nanos(), ..self@ }),
    {
        CouchbaseMembershipConfig { stale_after: duration, ..self }
    }

    /// Sets the initial join-settling delay before an assignment is returned.
    #[must_use]
    pub fn rebalance_delay(self, duration: Interval) -> (result: Self)
        ensures
            result@ == (ConfigModel { rebalance_delay: duration.total_nanos(), ..self@ }),
    {
        CouchbaseMembershipConfig { rebalance_delay: duration, ..self }
    }

    /// Sets the deadline around one complete load/mutate/CAS retry loop.
    #[must_use]
    pub fn operation_timeout(self, timeout: Interval) -> (result: Self)
        ensures
            result@ == (ConfigModel { operation_timeout: timeout.total_nanos(), ..self@ }),
    {
        CouchbaseMembershipConfig { operation_timeout: timeout, ..self }
    }

    /// Sets the bounded number of registry CAS attempts per lifecycle action.
    #[must_use]
    pub fn max_cas_attempts(self, attempts: PositiveCount) -> (result: Self)
        ensures
            result@ == (ConfigModel { max_cas_attempts: attempts.count() as nat, ..self@ }),
    {
        CouchbaseMembershipConfig { max_cas_attempts: attempts, ..self }
    }

    /// Logical consumer-group name.
    #[must_use]
    pub fn group(&self) -> (result: &str)
        ensures
            result@ == self@.group,
    {
        self.group.as_str()
    }

    /// Exact process identity protected by the registry fence.
    #[must_use]
    pub fn identity(&self) -> (result: &MemberIdentity)
        ensures
            result.id() == self@.id,
            result.fence() == self@.fence,
    {
        &self.identity
    }

    /// Lifecycle timings: heartbeat and monitor interval, staleness, settling
    /// delay and operation timeout.
    pub fn timings(&self) -> (result: (Interval, Interval, Interval, Interval, Interval))
        ensures
            result.0.total_nanos() == self@.heartbeat_interval,
            result.1.total_nanos() == self@.monitor_interval,
            result.2.total_nanos() == self@.stale_after,
            result.3.total_nanos() == self@.rebalance_delay,
            result.4.total_nanos() == self@.operation_timeout,
    {
        (
            self.heartbeat_interval,
            self.monitor_interval,
            self.stale_after,
            self.rebalance_delay,
            self.operation_timeout,
        )
    }

    /// Shared registry document key.
    #[must_use]
    pub fn registry_key(&self) -> (result: String)
        ensures
            result@ == registry_key_of(self@.group),
    {
        join2("rust-dcp:membership:v1:", self.group.as_str())
    }

    /// Validates the configuration.
    pub fn validate(&self) -> (result: Result<()>)
        ensures
            passes(result, self@.fault()),
    {
        let key = self.registry_key();
        if self.group.as_str().is_empty() || !is_all_graphic(self.group.as_str())
            || key.as_str().unicode_len() > 250 {
            return Err(
                CouchbaseMembershipError::Configuration(
                    "membership group must produce a registry key of at most 250 visible ASCII bytes".to_owned(),
                ),
            );
        }
        let stale_after_millis: u64 = duration_millis(&self.stale_after, "stale timeout")?;
        let _ = RegistryDocument::new(self.vbucket_count, stale_after_millis)?;
        if self.heartbeat_interval.is_zero() {
            return Err(
                CouchbaseMembershipError::Configuration(
                    "heartbeat interval must be greater than zero".to_owned(),
                ),
            );
        }
        if self.monitor_interval.is_zero() {
            return Err(
                CouchbaseMembershipError::Configuration(
                    "monitor interval must be greater than zero".to_owned(),
                ),
            );
        }
        if self.operation_timeout.is_zero() {
            return Err(
                CouchbaseMembershipError::Configuration(
                    "operation timeout must be greater than zero".to_owned(),
                ),
            );
        }
        if !self.stale_after.exceeds(&self.heartbeat_interval) {
            return Err(
                CouchbaseMembershipError::Configuration(
                    "stale timeout must be greater than the heartbeat interval".to_owned(),
                ),
            );
        }
        Ok(())
    }
}

/// Lifecycle action on the registry.
#[derive(Clone, Copy, Debug, PartialEq, Eq, Structural)]
pub enum RegistryAction {
    /// Join, after stale members were removed.
    Register,
    /// Renew.
    Heartbeat,
    /// Renew and remove stale members.
    Monitor,
    /// Leave.
    Remove,
}

/// Registry state after an action.
pub open spec fn acted(
    s: RegistryState,
    action: RegistryAction,
    id: Seq<char>,
    fence: Seq<char>,
    now_millis: u64,
) -> Change {
    match action {
        RegistryAction::Register => match pruned(s, now_millis) {
            Ok(t) => registered(t, id, fence, now_millis),
            Err(e) => Err(e),
        },
        RegistryAction::Heartbeat => heard(s, id, fence, now_millis),
        RegistryAction::Monitor => match heard(s, id, fence, now_millis) {
            Ok(t) => pruned(t, now_millis),
            Err(e) => Err(e),
        },
        RegistryAction::Remove => left(s, id, fence),
    }
}

/// State that an action starts from, or why it cannot start.
pub open spec fn starting_state(
    config: ConfigModel,
    action: RegistryAction,
    stored: Option<RegistryDocument>,
) -> Change {
    let stale_after_millis = millis_of(config.stale_after) as u64;
    match stored {
        Some(document) => if document.fault() is Some {
            Err(document.fault()->0)
        } else if settings_fault(document@, config.vbucket_count, stale_after_millis) is Some {
            Err(settings_fault(document@, config.vbucket_count, stale_after_millis)->0)
        } else {
            Ok(document@)
        },
        None => if action != RegistryAction::Register {
            Err(MembershipFault::Fenced { member_id: config.id })
        } else if creation_fault(config.vbucket_count, stale_after_millis) is Some {
            Err(creation_fault(config.vbucket_count, stale_after_millis)->0)
        } else {
            Ok(
                RegistryState {
                    schema_version: REGISTRY_SCHEMA_VERSION,
                    vbucket_count: config.vbucket_count,
                    stale_after_millis,
                    generation: 0,
                    members: Map::empty(),
                },
            )
        },
    }
}

/// Entries that an action starts from.
pub open spec fn starting_listing(stored: Option<RegistryDocument>) -> Seq<EntryModel> {
    match stored {
        Some(document) => document.listing(),
        None => Seq::empty(),
    }
}

/// Registry state that a loaded document and an action lead to.
pub open spec fn mutated(
    config: ConfigModel,
    action: RegistryAction,
    stored: Option<RegistryDocument>,
    now_millis: u64,
) -> Change {
    if millis_of(config.stale_after) > u64::MAX {
        Err(membership_config_fault(unrepresentable("stale timeout"@)))
    } else {
        match starting_state(config, action, stored) {
            Err(e) => Err(e),
            Ok(s) => match acted(s, action, config.id, config.fence, now_millis) {
                Err(e) => Err(e),
                Ok(t) => if action != RegistryAction::Remove && !holds_fence(
                    t,
                    config.id,
                    config.fence,
                ) {
                    Err(MembershipFault::Fenced { member_id: config.id })
                } else {
                    Ok(t)
                },
            },
        }
    }
}

/// What a registry mutation comes to.
#[derive(Debug)]
pub struct MutationPlan {
    /// View and assignment of the local member, unless it leaves.
    pub snapshot: Option<MembershipSnapshot>,
    /// Document after the action.
    pub document: RegistryDocument,
    /// The document differs from the loaded one and has to be written.
    pub write: bool,
}

/// The snapshot is that of the local member in a registry state.
pub open spec fn snapshot_of(s: RegistryState, id: Seq<char>, snapshot: MembershipSnapshot) -> bool {
    &&& seating(s, snapshot.seats())
    &&& snapshot.seats().len() <= s.vbucket_count
    &&& snapshot.fence() == s.generation
    &&& exists|i: int|
        0 <= i < snapshot.seats().len() && (#[trigger] snapshot.seats()[i]).member_id == id
            && snapshot.owned() == share(s.vbucket_count as nat, snapshot.seats().len(), i as nat)
}

/// Applies an action to the loaded registry document.
pub fn plan_mutation(
    config: &CouchbaseMembershipConfig,
    action: RegistryAction,
    stored: Option<RegistryDocument>,
    now_millis: u64,
) -> (result: Result<MutationPlan>)
    ensures
        match mutated(config@, action, stored, now_millis) {
            Err(fault) => result is Err && result->Err_0@ == fault,
            Ok(t) => result matches Ok(plan) && {
                &&& plan.document@ == t
                &&& plan.document.fault() is None
                &&& match plan.snapshot {
                    Some(snapshot) => action != RegistryAction::Remove && snapshot_of(
                        t,
                        config@.id,
                        snapshot,
                    ),
                    None => action == RegistryAction::Remove,
                }
                &&& plan.write == (t.generation != starting_state(
                    config@,
                    action,
                    stored,
                )->Ok_0.generation || plan.document.listing() != starting_listing(stored))
                &&& !plan.write ==> t == starting_state(config@, action, stored)->Ok_0
            },
        },
{
    let stale_after_millis: u64 = duration_millis(&config.stale_after, "stale timeout")?;
    let mut document = match stored {
        Some(document) => {
            document.validate_settings(config.vbucket_count, stale_after_millis)?;
            document
        },
        None => {
            if action != RegistryAction::Register {
                return Err(
                    CouchbaseMembershipError::Fenced {
                        member_id: config.identity.member_id().to_owned(),
                    },
                );
            }
            RegistryDocument::new(config.vbucket_count, stale_after_millis)?
        },
    };
    let before = document.clone();
    let snapshot: Option<MembershipSnapshot> = match action {
        RegistryAction::Register => {
            let _ = document.prune_stale(now_millis)?;
            document.register(&config.identity, now_millis)?;
            Some(document.snapshot(&config.identity)?)
        },
        RegistryAction::Heartbeat => {
            document.heartbeat(&config.identity, now_millis)?;
            Some(document.snapshot(&config.identity)?)
        },
        RegistryAction::Monitor => {
            document.heartbeat(&config.identity, now_millis)?;
            let _ = document.prune_stale(now_millis)?;
            Some(document.snapshot(&config.identity)?)
        },
        RegistryAction::Remove => {
            let _ = document.remove(&config.identity)?;
            None
        },
    };
    let write: bool = !document.same(&before);
    Ok(MutationPlan { snapshot, document, write })
}

/// What to do after a conditional write.
#[derive(Clone, Copy, Debug, PartialEq, Eq, Structural)]
pub enum CasStep {
    /// The mutation is done.
    Done,
    /// Load the document again and repeat the mutation.
    Retry,
}

/// Judges a conditional write; `attempt` counts from one. A conflict is
/// retried from a newly loaded revision as long as attempts are left.
pub fn cas_step(config: &CouchbaseMembershipConfig, written: StoreWriteResult, attempt: usize) -> (result:
    Result<CasStep>)
    ensures
        match written {
            StoreWriteResult::Stored => result matches Ok(CasStep::Done),
            StoreWriteResult::Conflict => if attempt < config@.max_cas_attempts {
                result matches Ok(CasStep::Retry)
            } else {
                result is Err && result->Err_0@ == MembershipFault::Store(
                    "membership CAS conflicted for all "@ + dec(config@.max_cas_attempts)
                        + " attempts"@,
                )
            },
        },
{
    match written {
        StoreWriteResult::Stored => Ok(CasStep::Done),
        StoreWriteResult::Conflict => {
            if attempt < config.max_cas_attempts.get() {
                Ok(CasStep::Retry)
            } else {
                Err(
                    CouchbaseMembershipError::Store(
                        join3(
                            "membership CAS conflicted for all ",
                            dec_count(config.max_cas_attempts.get()).as_str(),
                            " attempts",
                        ),
                    ),
                )
            }
        },
    }
}

/// Failures that may pass by themselves.
pub open spec fn transient(fault: MembershipFault) -> bool {
    fault is Dcp || fault is Timeout || fault is Store
}

/// Tells failures that may pass by themselves.
pub fn is_transient_runtime_error(error: &CouchbaseMembershipError) -> (result: bool)
    ensures
        result == transient(error@),
{
    match error {
        CouchbaseMembershipError::Dcp(_)
        | CouchbaseMembershipError::Timeout(_)
        | CouchbaseMembershipError::Store(_) => true,
        _ => false,
    }
}

/// Judges a failed renewal: a transient failure is tolerated until the member
/// would be stale; then the lease has expired.
pub fn renewal_failure(
    config: &CouchbaseMembershipConfig,
    error: CouchbaseMembershipError,
    idle_for: Interval,
) -> (result: Option<CouchbaseMembershipError>)
    ensures
        match result {
            None => transient(error@) && idle_for.total_nanos() < config@.stale_after,
            Some(e) => if transient(error@) {
                idle_for.total_nanos() >= config@.stale_after && e@
                    == (MembershipFault::LeaseExpired { idle_for, last_error: error@.text() })
            } else {
                e@ == error@
            },
        },
{
    if is_transient_runtime_error(&error) {
        if config.stale_after.exceeds(&idle_for) {
            return None;
        }
        return Some(
            CouchbaseMembershipError::LeaseExpired { idle_for, last_error: error.to_text() },
        );
    }
    Some(error)
}

/// A view is published only when the assignment differs.
pub fn assignment_changed(current: &MembershipSnapshot, next: &MembershipSnapshot) -> (result: bool)
    ensures
        result == (current.fence() != next.fence() || current.owned() != next.owned()),
{
    !current.assignment().same(next.assignment())
}

} // verus!
