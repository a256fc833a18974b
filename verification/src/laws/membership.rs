//! Laws of group membership.
use vstd::prelude::*;

use crate::assignment::VBucketAssignment;
use crate::config::PositiveCount;
use crate::interval::Interval;
use crate::membership::error::{CouchbaseMembershipError, Result};
use crate::membership::registry::{
    MemberIdentity, MemberModel, MembershipSnapshot, RegistryDocument, RegistryState,
};
use crate::membership::runtime::{
    assignment_changed, cas_step, duration_millis, is_transient_runtime_error, plan_mutation,
    renewal_failure, timestamp_millis, CasStep, CouchbaseMembershipConfig, MutationPlan,
    RegistryAction,
};
use crate::membership::store::StoreWriteResult;
use crate::naming::visible;
use crate::text::text_less;

verus! {

/// An identity keeps its two names, which are visible ASCII of bounded length.
pub proof fn identities_keep_their_names(
    member_id: &str,
    incarnation: &str,
    result: Result<MemberIdentity>,
    id: &str,
    fence: &str,
)
    requires
        call_ensures(MemberIdentity::new, (member_id, incarnation), result),
        result matches Ok(identity) ==> {
            &&& call_ensures(MemberIdentity::member_id, (&identity,), id)
            &&& call_ensures(MemberIdentity::incarnation, (&identity,), fence)
        },
    ensures
        result is Ok <==> visible(member_id@, 251) && visible(incarnation@, 251),
        result is Ok ==> id@ == member_id@ && fence@ == incarnation@,
        result matches Err(e) ==> e is Configuration,
{
}

/// A fresh registry is empty, in its first schema and generation.
pub proof fn fresh_registry_is_empty(
    vbucket_count: usize,
    stale_after_millis: u64,
    result: Result<RegistryDocument>,
)
    requires
        call_ensures(RegistryDocument::new, (vbucket_count, stale_after_millis), result),
    ensures
        result is Ok <==> 1 <= vbucket_count <= 65536 && stale_after_millis > 0,
        result matches Ok(d) ==> {
            &&& d@.schema_version == 1
            &&& d@.vbucket_count == vbucket_count
            &&& d@.stale_after_millis == stale_after_millis
            &&& d@.generation == 0
            &&& d@.members.dom().is_empty()
        },
        result matches Err(e) ==> e is Configuration,
{
}

/// A member has been silent for too long.
pub open spec fn silent(m: MemberModel, now: u64, limit: u64) -> bool {
    m.heartbeat_at_millis + limit <= now
}

/// The settings of a registry, which no operation changes.
pub open spec fn same_settings(a: RegistryState, b: RegistryState) -> bool {
    &&& a.schema_version == b.schema_version
    &&& a.vbucket_count == b.vbucket_count
    &&& a.stale_after_millis == b.stale_after_millis
}

/// Nothing changed about any other member.
pub open spec fn others_unchanged(a: RegistryState, b: RegistryState, id: Seq<char>) -> bool {
    forall|k: Seq<char>|
        #![trigger b.members.contains_key(k)]
        k != id ==> (b.members.contains_key(k) <==> a.members.contains_key(k)) && (
        a.members.contains_key(k) ==> b.members[k] == a.members[k])
}

/// A member joins once: the same incarnation is only heard again, a live one
/// of another incarnation is not displaced, a silent one is, and a full group
/// takes no one more. A change of members is a new generation.
pub proof fn members_join_once(
    document: &mut RegistryDocument,
    identity: MemberIdentity,
    now: u64,
    result: Result<()>,
)
    requires
        call_ensures(RegistryDocument::register, (document, &identity, now), result),
        old(document).fault() is None,
    ensures
        ({
            let a = old(document)@;
            let b = final(document)@;
            let id = identity.id();
            let present = a.members.contains_key(id);
            let own = present && a.members[id].incarnation == identity.fence();
            let live = present && !silent(a.members[id], now, a.stale_after_millis);
            &&& same_settings(a, b)
            &&& others_unchanged(a, b, id)
            &&& result is Err ==> b == a
            &&& own ==> {
                &&& result is Ok
                &&& b.generation == a.generation
                &&& b.members.contains_key(id)
                &&& b.members[id].incarnation == a.members[id].incarnation
                &&& b.members[id].joined_at_millis == a.members[id].joined_at_millis
                &&& b.members[id].heartbeat_at_millis >= now
                &&& b.members[id].heartbeat_at_millis == now
                    || b.members[id].heartbeat_at_millis == a.members[id].heartbeat_at_millis
                &&& b.members[id].heartbeat_at_millis >= a.members[id].heartbeat_at_millis
            }
            &&& !own && live ==> (result matches Err(CouchbaseMembershipError::DuplicateMember {
                member_id,
            }) && member_id@ == id)
            &&& !present && a.members.len() >= a.vbucket_count ==> (
            result matches Err(CouchbaseMembershipError::Configuration(_)))
            &&& !own && !live && (present || a.members.len() < a.vbucket_count) && a.generation
                < u64::MAX ==> {
                &&& result is Ok
                &&& b.generation == a.generation + 1
                &&& b.members.contains_key(id)
                &&& b.members[id].member_id == id
                &&& b.members[id].incarnation == identity.fence()
                &&& b.members[id].joined_at_millis == now
                &&& b.members[id].heartbeat_at_millis == now
            }
        }),
{
}

/// A heartbeat counts for the incarnation that holds the place, moves its time
/// forward and nothing else; any other is fenced.
pub proof fn heartbeats_are_for_the_holder(
    document: &mut RegistryDocument,
    identity: MemberIdentity,
    now: u64,
    result: Result<()>,
)
    requires
        call_ensures(RegistryDocument::heartbeat, (document, &identity, now), result),
        old(document).fault() is None,
    ensures
        ({
            let a = old(document)@;
            let b = final(document)@;
            let id = identity.id();
            let own = a.members.contains_key(id) && a.members[id].incarnation == identity.fence();
            &&& result is Ok <==> own
            &&& same_settings(a, b)
            &&& b.generation == a.generation
            &&& others_unchanged(a, b, id)
            &&& !own ==> b == a && (result matches Err(CouchbaseMembershipError::Fenced {
                member_id,
            }) && member_id@ == id)
            &&& own ==> {
                &&& b.members.contains_key(id)
                &&& b.members[id].member_id == a.members[id].member_id
                &&& b.members[id].incarnation == a.members[id].incarnation
                &&& b.members[id].joined_at_millis == a.members[id].joined_at_millis
                &&& a.members[id].heartbeat_at_millis <= now ==> b.members[id].heartbeat_at_millis
                    == now
                &&& a.members[id].heartbeat_at_millis > now ==> b.members[id].heartbeat_at_millis
                    == a.members[id].heartbeat_at_millis
            }
        }),
{
}

/// Pruning removes exactly the members that have been silent for too long, and
/// begins a new generation only if there were any.
pub proof fn pruning_removes_exactly_the_silent(
    document: &mut RegistryDocument,
    now: u64,
    result: Result<usize>,
    id: Seq<char>,
)
    requires
        call_ensures(RegistryDocument::prune_stale, (document, now), result),
        old(document).fault() is None,
    ensures
        ({
            let a = old(document)@;
            let b = final(document)@;
            &&& same_settings(a, b)
            &&& result is Err ==> b == a
            &&& result is Ok ==> (b.members.contains_key(id) <==> a.members.contains_key(id)
                && !silent(a.members[id], now, a.stale_after_millis))
            &&& result is Ok && b.members.contains_key(id) ==> b.members[id] == a.members[id]
            &&& result is Ok && a.members.contains_key(id) && silent(
                a.members[id],
                now,
                a.stale_after_millis,
            ) ==> b.generation == a.generation + 1
            &&& result is Ok && b.generation == a.generation ==> b.members == a.members
            &&& b.generation == a.generation || b.generation == a.generation + 1
        }),
{
    let a = old(document)@;
    let b = final(document)@;
    let live = crate::membership::registry::living(a, now);
    if a.members.contains_key(id) {
        assert(live.contains_key(id) <==> !silent(a.members[id], now, a.stale_after_millis));
    }
    if result is Ok && a.members.contains_key(id) && silent(
        a.members[id],
        now,
        a.stale_after_millis,
    ) {
        assert(!live.contains_key(id));
        assert(live != a.members);
    }
}

/// A member leaves by its own incarnation only; the others stay.
pub proof fn members_leave_by_themselves(
    document: &mut RegistryDocument,
    identity: MemberIdentity,
    result: Result<bool>,
)
    requires
        call_ensures(RegistryDocument::remove, (document, &identity), result),
        old(document).fault() is None,
    ensures
        ({
            let a = old(document)@;
            let b = final(document)@;
            let id = identity.id();
            let present = a.members.contains_key(id);
            let own = present && a.members[id].incarnation == identity.fence();
            &&& same_settings(a, b)
            &&& others_unchanged(a, b, id)
            &&& result is Err ==> b == a
            &&& !present ==> (result matches Ok(gone) && !gone) && b == a
            &&& present && !own ==> (result matches Err(CouchbaseMembershipError::Fenced {
                member_id,
            }) && member_id@ == id)
            &&& own && a.generation < u64::MAX ==> (result matches Ok(gone) && gone)
                && b.generation == a.generation + 1 && !b.members.contains_key(id)
        }),
{
}

/// A snapshot is for the incarnation that holds the place. It lists all the
/// members in the order in which they joined, by name among those that joined
/// together, and gives the member its balanced share under the registry's
/// generation.
pub proof fn snapshots_give_the_balanced_share(
    document: RegistryDocument,
    identity: MemberIdentity,
    result: Result<MembershipSnapshot>,
    i: int,
    share: VBucketAssignment,
)
    requires
        call_ensures(RegistryDocument::snapshot, (&document, &identity), result),
        document.fault() is None,
    ensures
        result is Ok <==> document@.members.contains_key(identity.id())
            && document@.members[identity.id()].incarnation == identity.fence(),
        result matches Err(e) ==> (e matches CouchbaseMembershipError::Fenced { member_id }
            && member_id@ == identity.id()),
        result matches Ok(snapshot) ==> {
            let seats = snapshot.seats();
            &&& snapshot.fence() == document@.generation
            &&& seats.len() == document@.members.len()
            &&& forall|a: int, b: int|
                0 <= a < b < seats.len() ==> (#[trigger] seats[a]).joined_at_millis < (
                #[trigger] seats[b]).joined_at_millis || (seats[a].joined_at_millis
                    == seats[b].joined_at_millis && text_less(seats[a].member_id, seats[b].member_id))
            &&& forall|a: int|
                0 <= a < seats.len() ==> document@.members.contains_key(
                    (#[trigger] seats[a]).member_id,
                ) && document@.members[seats[a].member_id] == seats[a]
            &&& 0 <= i < seats.len() && seats[i].member_id == identity.id() && call_ensures(
                VBucketAssignment::balanced,
                (
                    document@.generation,
                    document@.vbucket_count,
                    (i + 1) as usize,
                    seats.len() as usize,
                ),
                Ok(share),
            ) ==> snapshot.owned() == share.owned()
        },
{
    if let Ok(snapshot) = result {
        let seats = snapshot.seats();
        let k = choose|k: int|
            0 <= k < seats.len() && (#[trigger] seats[k]).member_id == identity.id()
                && snapshot.owned() == crate::assignment::share(
                document@.vbucket_count as nat,
                seats.len(),
                k as nat,
            );
        if 0 <= i < seats.len() && seats[i].member_id == identity.id() {
            if i < k {
                assert(crate::membership::registry::precedes(seats[i], seats[k]));
                crate::text::text_less_irreflexive(seats[i].member_id);
            } else if k < i {
                assert(crate::membership::registry::precedes(seats[k], seats[i]));
                crate::text::text_less_irreflexive(seats[i].member_id);
            }
            assert(i == k);
            assert((i + 1) as usize == i + 1);
            assert(seats.len() as usize == seats.len());
        }
    }
}

/// A plan's snapshot gives the member its balanced share of the registry that
/// is planned, under its generation; a departure has none.
pub proof fn planned_snapshots_give_the_balanced_share(
    config: CouchbaseMembershipConfig,
    identity: &MemberIdentity,
    action: RegistryAction,
    stored: Option<RegistryDocument>,
    now: u64,
    plan: MutationPlan,
    snapshot: MembershipSnapshot,
    i: int,
    share: VBucketAssignment,
)
    requires
        call_ensures(CouchbaseMembershipConfig::identity, (&config,), identity),
        call_ensures(plan_mutation, (&config, action, stored, now), Ok(plan)),
        plan.snapshot == Some(snapshot),
    ensures
        action != RegistryAction::Remove,
        snapshot.fence() == plan.document@.generation,
        snapshot.seats().len() == plan.document@.members.len(),
        forall|a: int, b: int|
            0 <= a < b < snapshot.seats().len() ==> (
            #[trigger] snapshot.seats()[a]).joined_at_millis < (
            #[trigger] snapshot.seats()[b]).joined_at_millis || (
            snapshot.seats()[a].joined_at_millis == snapshot.seats()[b].joined_at_millis
                && text_less(snapshot.seats()[a].member_id, snapshot.seats()[b].member_id)),
        forall|a: int|
            0 <= a < snapshot.seats().len() ==> plan.document@.members.contains_key(
                (#[trigger] snapshot.seats()[a]).member_id,
            ) && plan.document@.members[snapshot.seats()[a].member_id] == snapshot.seats()[a],
        0 <= i < snapshot.seats().len() && snapshot.seats()[i].member_id == identity.id()
            && call_ensures(
            VBucketAssignment::balanced,
            (
                plan.document@.generation,
                plan.document@.vbucket_count,
                (i + 1) as usize,
                snapshot.seats().len() as usize,
            ),
            Ok(share),
        ) ==> snapshot.owned() == share.owned(),
{
    let seats = snapshot.seats();
    let document = plan.document;
    let k = choose|k: int|
        0 <= k < seats.len() && (#[trigger] seats[k]).member_id == identity.id()
            && snapshot.owned() == crate::assignment::share(
            document@.vbucket_count as nat,
            seats.len(),
            k as nat,
        );
    if 0 <= i < seats.len() && seats[i].member_id == identity.id() {
        if i < k {
            assert(crate::membership::registry::precedes(seats[i], seats[k]));
            crate::text::text_less_irreflexive(seats[i].member_id);
        } else if k < i {
            assert(crate::membership::registry::precedes(seats[k], seats[i]));
            crate::text::text_less_irreflexive(seats[i].member_id);
        }
        assert(i == k);
        assert((i + 1) as usize == i + 1);
        assert(seats.len() as usize == seats.len());
    }
}

/// The seats and the share of a snapshot can be read off it.
pub proof fn snapshots_are_read(
    snapshot: MembershipSnapshot,
    assignment: &VBucketAssignment,
    generation: u64,
    v: u16,
    owned: bool,
)
    requires
        call_ensures(MembershipSnapshot::assignment, (&snapshot,), assignment),
        call_ensures(VBucketAssignment::generation, (assignment,), generation),
        call_ensures(VBucketAssignment::owns, (assignment, v), owned),
    ensures
        generation == snapshot.fence(),
        owned <==> snapshot.owned().contains(v),
{
}

/// A heartbeat is planned as the heartbeat of the stored registry.
pub proof fn planned_heartbeats_are_heard(
    config: CouchbaseMembershipConfig,
    identity: &MemberIdentity,
    stored: RegistryDocument,
    now: u64,
    plan: MutationPlan,
    document: &mut RegistryDocument,
    heard: Result<()>,
)
    requires
        call_ensures(CouchbaseMembershipConfig::identity, (&config,), identity),
        call_ensures(
            plan_mutation,
            (&config, RegistryAction::Heartbeat, Some(stored), now),
            Ok(plan),
        ),
        *old(document) == stored,
        call_ensures(RegistryDocument::heartbeat, (document, identity, now), heard),
    ensures
        heard is Ok,
        plan.document@ == final(document)@,
        plan.snapshot is Some,
        plan.snapshot->0.fence() == plan.document@.generation,
{
}

/// A departure is planned as the removal from the stored registry, and leaves
/// no snapshot.
pub proof fn planned_departures_remove(
    config: CouchbaseMembershipConfig,
    identity: &MemberIdentity,
    stored: RegistryDocument,
    now: u64,
    plan: MutationPlan,
    document: &mut RegistryDocument,
    removed: Result<bool>,
)
    requires
        call_ensures(CouchbaseMembershipConfig::identity, (&config,), identity),
        call_ensures(
            plan_mutation,
            (&config, RegistryAction::Remove, Some(stored), now),
            Ok(plan),
        ),
        *old(document) == stored,
        call_ensures(RegistryDocument::remove, (document, identity), removed),
    ensures
        removed is Ok,
        plan.document@ == final(document)@,
        plan.snapshot is None,
{
}

/// A monitoring round hears the member and then prunes the silent ones.
pub proof fn planned_monitoring_hears_and_prunes(
    config: CouchbaseMembershipConfig,
    identity: &MemberIdentity,
    stored: RegistryDocument,
    now: u64,
    plan: MutationPlan,
    document: &mut RegistryDocument,
    heard: Result<()>,
    next: &mut RegistryDocument,
    pruned: Result<usize>,
)
    requires
        call_ensures(CouchbaseMembershipConfig::identity, (&config,), identity),
        call_ensures(
            plan_mutation,
            (&config, RegistryAction::Monitor, Some(stored), now),
            Ok(plan),
        ),
        *old(document) == stored,
        call_ensures(RegistryDocument::heartbeat, (document, identity, now), heard),
        *old(next) == *final(document),
        call_ensures(RegistryDocument::prune_stale, (next, now), pruned),
    ensures
        heard is Ok,
        pruned is Ok,
        plan.document@ == final(next)@,
        plan.snapshot is Some,
        plan.snapshot->0.fence() == plan.document@.generation,
{
}

/// A registration prunes the silent members and then registers the member.
pub proof fn planned_registration_prunes_and_registers(
    config: CouchbaseMembershipConfig,
    identity: &MemberIdentity,
    stored: RegistryDocument,
    now: u64,
    plan: MutationPlan,
    document: &mut RegistryDocument,
    pruned: Result<usize>,
    next: &mut RegistryDocument,
    joined: Result<()>,
)
    requires
        call_ensures(CouchbaseMembershipConfig::identity, (&config,), identity),
        call_ensures(
            plan_mutation,
            (&config, RegistryAction::Register, Some(stored), now),
            Ok(plan),
        ),
        *old(document) == stored,
        call_ensures(RegistryDocument::prune_stale, (document, now), pruned),
        *old(next) == *final(document),
        call_ensures(RegistryDocument::register, (next, identity, now), joined),
    ensures
        pruned is Ok,
        joined is Ok,
        plan.document@ == final(next)@,
        plan.snapshot is Some,
        plan.snapshot->0.fence() == plan.document@.generation,
{
}

/// Only a registration may find no registry; it then begins one with the
/// member alone.
pub proof fn registration_begins_the_registry(
    config: CouchbaseMembershipConfig,
    identity: &MemberIdentity,
    action: RegistryAction,
    now: u64,
    result: Result<MutationPlan>,
)
    requires
        call_ensures(CouchbaseMembershipConfig::identity, (&config,), identity),
        call_ensures(plan_mutation, (&config, action, None, now), result),
    ensures
        action != RegistryAction::Register ==> result is Err,
        result matches Ok(plan) ==> {
            &&& plan.document@.generation == 1
            &&& plan.document@.vbucket_count == config@.vbucket_count
            &&& plan.document@.members.contains_key(identity.id())
            &&& plan.document@.members[identity.id()].incarnation == identity.fence()
            &&& plan.document@.members[identity.id()].joined_at_millis == now
            &&& plan.document@.members[identity.id()].heartbeat_at_millis == now
            &&& forall|k: Seq<char>| #[trigger]
                plan.document@.members.contains_key(k) ==> k == identity.id()
            &&& plan.write
        },
{
    if let Ok(plan) = result {
        let s = RegistryState {
            schema_version: 1,
            vbucket_count: config@.vbucket_count,
            stale_after_millis: (config@.stale_after / 1_000_000) as u64,
            generation: 0,
            members: Map::empty(),
        };
        let live = crate::membership::registry::living(s, now);
        assert(live =~= s.members);
    }
}

/// A plan that changes the registry writes it.
pub proof fn changed_registries_are_written(
    config: CouchbaseMembershipConfig,
    action: RegistryAction,
    stored: RegistryDocument,
    now: u64,
    plan: MutationPlan,
)
    requires
        call_ensures(plan_mutation, (&config, action, Some(stored), now), Ok(plan)),
    ensures
        plan.document@ != stored@ ==> plan.write,
        !plan.write ==> plan.document@ == stored@,
{
}

/// A registry that was made with other settings is refused.
pub proof fn other_settings_are_refused(
    document: RegistryDocument,
    vbucket_count: usize,
    stale_after_millis: u64,
    sound: Result<()>,
    result: Result<()>,
)
    requires
        call_ensures(RegistryDocument::validate, (&document,), sound),
        call_ensures(
            RegistryDocument::validate_settings,
            (&document, vbucket_count, stale_after_millis),
            result,
        ),
    ensures
        result is Ok <==> sound is Ok && document@.vbucket_count == vbucket_count
            && document@.stale_after_millis == stale_after_millis,
{
}

/// A sound registry has the first schema, room for its members, and members
/// that stand under their own names and were heard no earlier than they joined.
pub proof fn sound_registries_hold_sound_members(
    document: RegistryDocument,
    result: Result<()>,
    i: int,
)
    requires
        call_ensures(RegistryDocument::validate, (&document,), result),
        result is Ok,
    ensures
        document@.schema_version == 1,
        1 <= document@.vbucket_count <= 65536,
        document@.stale_after_millis > 0,
        document.listing().len() <= document@.vbucket_count,
        0 <= i < document.listing().len() ==> {
            let e = document.listing()[i];
            &&& e.key == e.member.member_id
            &&& e.member.joined_at_millis <= e.member.heartbeat_at_millis
            &&& visible(e.key, 251)
            &&& visible(e.member.incarnation, 251)
        },
{
    let list = document.listing();
    let check = |k: int| crate::membership::registry::entry_fault(list[k]);
    crate::lists::no_first_fault(list.len(), check);
    if 0 <= i < list.len() {
        assert(check(i) is None);
    }
}

/// A write that conflicted is tried again while attempts are left.
pub proof fn conflicts_are_tried_again(
    config: CouchbaseMembershipConfig,
    written: StoreWriteResult,
    attempt: usize,
    result: Result<CasStep>,
)
    requires
        call_ensures(cas_step, (&config, written, attempt), result),
    ensures
        written is Stored ==> (result matches Ok(CasStep::Done)),
        written is Conflict && attempt < config@.max_cas_attempts ==> (
        result matches Ok(CasStep::Retry)),
        written is Conflict && attempt >= config@.max_cas_attempts ==> (
        result matches Err(CouchbaseMembershipError::Store(_))),
{
}

/// A failed renewal is borne while it may pass and the lease still runs.
pub proof fn renewals_may_fail_within_the_lease(
    config: CouchbaseMembershipConfig,
    error: CouchbaseMembershipError,
    idle_for: Interval,
    passing: bool,
    result: Option<CouchbaseMembershipError>,
)
    requires
        call_ensures(is_transient_runtime_error, (&error,), passing),
        call_ensures(renewal_failure, (&config, error, idle_for), result),
    ensures
        passing <==> error is Dcp || error is Timeout || error is Store,
        result is None <==> passing && idle_for.total_nanos() < config@.stale_after,
        passing && idle_for.total_nanos() >= config@.stale_after ==> (
        result matches Some(CouchbaseMembershipError::LeaseExpired { idle_for: t, .. }) && t
            == idle_for),
        !passing ==> result is Some && result->0@ == error@,
{
}

/// An assignment changed when its generation or its vBuckets did.
pub proof fn changes_of_assignment_are_seen(
    current: MembershipSnapshot,
    next: MembershipSnapshot,
    changed: bool,
)
    requires
        call_ensures(assignment_changed, (&current, &next), changed),
    ensures
        current.fence() != next.fence() ==> changed,
        current.fence() == next.fence() ==> (changed <==> exists|v: u16|
            current.owned().contains(v) != #[trigger] next.owned().contains(v)),
{
    if current.fence() == next.fence() && !(exists|v: u16|
        current.owned().contains(v) != #[trigger] next.owned().contains(v)) {
        assert(current.owned() =~= next.owned());
    }
}

/// Times are counted in whole milliseconds, and refused where they do not fit.
pub proof fn times_are_in_milliseconds(
    interval: Interval,
    kind: &str,
    duration: Result<u64>,
    timestamp: Result<u64>,
)
    requires
        call_ensures(duration_millis, (&interval, kind), duration),
        call_ensures(timestamp_millis, (&interval,), timestamp),
    ensures
        duration is Ok <==> interval.total_nanos() / 1_000_000 <= u64::MAX,
        timestamp is Ok <==> interval.total_nanos() / 1_000_000 <= u64::MAX,
        duration matches Ok(millis) ==> millis == interval.total_nanos() / 1_000_000,
        timestamp matches Ok(millis) ==> millis == interval.total_nanos() / 1_000_000,
{
}

/// A configuration starts with its published defaults, and keeps the group and
/// the identity that it was made with.
pub proof fn membership_defaults(
    group: &str,
    identity: MemberIdentity,
    vbucket_count: usize,
    config: CouchbaseMembershipConfig,
    key: String,
    kept: &MemberIdentity,
    timings: (Interval, Interval, Interval, Interval, Interval),
)
    requires
        call_ensures(
            CouchbaseMembershipConfig::new,
            (group, identity, vbucket_count),
            Ok(config),
        ),
        call_ensures(CouchbaseMembershipConfig::registry_key, (&config,), key),
        call_ensures(CouchbaseMembershipConfig::identity, (&config,), kept),
        call_ensures(CouchbaseMembershipConfig::timings, (&config,), timings),
    ensures
        key@ == "rust-dcp:membership:v1:"@ + group@,
        kept.id() == identity.id(),
        kept.fence() == identity.fence(),
        config@.vbucket_count == vbucket_count,
        config@.max_cas_attempts == 16,
        timings.0.total_nanos() == 10 * 1_000_000_000,
        timings.1.total_nanos() == 30 * 1_000_000_000,
        timings.2.total_nanos() == 70 * 1_000_000_000,
        timings.3.total_nanos() == 30 * 1_000_000_000,
        timings.4.total_nanos() == 30 * 1_000_000_000,
{
}

/// A configuration is sound exactly when the group makes a short visible key,
/// the vBuckets can be counted, every period is some time, and a member is
/// heard more often than it is given up.
pub proof fn membership_configurations_are_checked(
    config: CouchbaseMembershipConfig,
    result: Result<()>,
    key: String,
)
    requires
        call_ensures(CouchbaseMembershipConfig::validate, (&config,), result),
        call_ensures(CouchbaseMembershipConfig::registry_key, (&config,), key),
    ensures
        result is Ok <==> {
            let c = config@;
            &&& c.group.len() > 0
            &&& forall|i: int|
                0 <= i < c.group.len() ==> 0x21 <= (#[trigger] c.group[i]) as u32 <= 0x7e
            &&& key@.len() <= 250
            &&& 1 <= c.stale_after / 1_000_000 <= u64::MAX
            &&& 1 <= c.vbucket_count <= 65536
            &&& c.heartbeat_interval > 0
            &&& c.monitor_interval > 0
            &&& c.operation_timeout > 0
            &&& c.heartbeat_interval < c.stale_after
        },
        result matches Err(e) ==> e is Configuration,
{
    let c = config@;
    let graphic = crate::membership::runtime::all_graphic(c.group);
    assert(graphic <==> forall|i: int|
        0 <= i < c.group.len() ==> 0x21 <= (#[trigger] c.group[i]) as u32 <= 0x7e) by {
        if graphic {
            assert forall|i: int| 0 <= i < c.group.len() implies 0x21 <= (
            #[trigger] c.group[i]) as u32 <= 0x7e by {
                assert(crate::text::ascii_graphic(c.group[i]));
            }
        }
        if forall|i: int|
            0 <= i < c.group.len() ==> 0x21 <= (#[trigger] c.group[i]) as u32 <= 0x7e {
            assert forall|i: int| 0 <= i < c.group.len() implies crate::text::ascii_graphic(
                #[trigger] c.group[i],
            ) by {
                assert(0x21 <= c.group[i] as u32 <= 0x7e);
            }
        }
    }
}

/// Each setting is set by its own method and touches no other.
pub proof fn membership_settings_are_independent(
    config: CouchbaseMembershipConfig,
    interval: Interval,
    attempts: PositiveCount,
    a: CouchbaseMembershipConfig,
    b: CouchbaseMembershipConfig,
    c: CouchbaseMembershipConfig,
    d: CouchbaseMembershipConfig,
    e: CouchbaseMembershipConfig,
    f: CouchbaseMembershipConfig,
)
    requires
        call_ensures(CouchbaseMembershipConfig::heartbeat_interval, (config, interval), a),
        call_ensures(CouchbaseMembershipConfig::monitor_interval, (a, interval), b),
        call_ensures(CouchbaseMembershipConfig::stale_after, (b, interval), c),
        call_ensures(CouchbaseMembershipConfig::rebalance_delay, (c, interval), d),
        call_ensures(CouchbaseMembershipConfig::operation_timeout, (d, interval), e),
        call_ensures(CouchbaseMembershipConfig::max_cas_attempts, (e, attempts), f),
    ensures
        a@.heartbeat_interval == interval.total_nanos() && a@.monitor_interval
            == config@.monitor_interval && a@.stale_after == config@.stale_after,
        b@.monitor_interval == interval.total_nanos() && b@.stale_after == config@.stale_after,
        c@.stale_after == interval.total_nanos() && c@.rebalance_delay == config@.rebalance_delay,
        d@.rebalance_delay == interval.total_nanos() && d@.operation_timeout
            == config@.operation_timeout,
        e@.operation_timeout == interval.total_nanos() && e@.max_cas_attempts
            == config@.max_cas_attempts,
        f@.max_cas_attempts == attempts.count(),
        f@.group == config@.group && f@.id == config@.id && f@.fence == config@.fence
            && f@.vbucket_count == config@.vbucket_count,
{
}

} // verus!
