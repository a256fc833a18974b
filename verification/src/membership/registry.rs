//! Registry document: members, incarnation fences and derived assignments.
use vstd::prelude::*;

use crate::assignment::{share, shares_partition, VBucketAssignment};
use crate::lists::{first_fault, first_fault_absent, first_fault_found, no_first_fault};
use crate::membership::error::{passes, CouchbaseMembershipError, MembershipFault, Result};
use crate::naming::{is_visible, visible};
use crate::text::{
    dec, dec_count, dec_text, is_less, join2, join3, join4, join5, quoted, quoted_text, same_text,
    text_less, text_less_irreflexive, text_less_total, text_less_transitive,
};

verus! {

/// Schema version of the registry document.
pub const REGISTRY_SCHEMA_VERSION: u16 = 1;

/// Longest member ID or incarnation, in bytes.
pub const MAX_ID_LEN: usize = 251;

/// Largest number of vBuckets.
pub const MAX_VBUCKETS: usize = 65_536;

/// Complaint about an identifier.
pub open spec fn identifier_complaint(kind: Seq<char>) -> Seq<char> {
    kind + " must contain 1..=251 visible ASCII bytes"@
}

/// Why an identifier is refused, if it is.
pub open spec fn identifier_fault(kind: Seq<char>, value: Seq<char>) -> Option<MembershipFault> {
    if visible(value, MAX_ID_LEN as nat) {
        None
    } else {
        Some(MembershipFault::Configuration(identifier_complaint(kind)))
    }
}

fn validate_identifier(kind: &str, value: &str) -> (result: Result<()>)
    ensures
        passes(result, identifier_fault(kind@, value@)),
{
    if !is_visible(value, MAX_ID_LEN) {
        return Err(
            CouchbaseMembershipError::Configuration(
                join2(kind, " must contain 1..=251 visible ASCII bytes"),
            ),
        );
    }
    Ok(())
}

/// Complaint about a vBucket count.
pub open spec fn count_complaint() -> Seq<char> {
    "vBucket count must be in 1..=65536"@
}

/// Why a vBucket count is refused, if it is.
pub open spec fn count_fault(vbucket_count: usize) -> Option<MembershipFault> {
    if 0 < vbucket_count <= MAX_VBUCKETS {
        None
    } else {
        Some(MembershipFault::Configuration(count_complaint()))
    }
}

fn validate_vbucket_count(vbucket_count: usize) -> (result: Result<()>)
    ensures
        passes(result, count_fault(vbucket_count)),
{
    if vbucket_count == 0 || vbucket_count > MAX_VBUCKETS {
        return Err(
            CouchbaseMembershipError::Configuration(
                "vBucket count must be in 1..=65536".to_owned(),
            ),
        );
    }
    Ok(())
}

/// Stable logical member ID plus a unique process incarnation fence.
#[derive(Debug, Eq, PartialEq)]
pub struct MemberIdentity {
    member_id: String,
    incarnation: String,
}

impl Clone for MemberIdentity {
    fn clone(&self) -> (result: Self)
        ensures
            result.id() == self.id(),
            result.fence() == self.fence(),
    {
        proof {
            use_type_invariant(self);
        }
        MemberIdentity {
            member_id: self.member_id.clone(),
            incarnation: self.incarnation.clone(),
        }
    }
}

impl MemberIdentity {
    /// Stable logical member ID.
    pub closed spec fn id(&self) -> Seq<char> {
        self.member_id@
    }

    /// Incarnation fence.
    pub closed spec fn fence(&self) -> Seq<char> {
        self.incarnation@
    }

    #[verifier::type_invariant]
    closed spec fn printable(&self) -> bool {
        visible(self.member_id@, MAX_ID_LEN as nat) && visible(
            self.incarnation@,
            MAX_ID_LEN as nat,
        )
    }

    /// Creates and validates one membership process identity.
    pub fn new(member_id: &str, incarnation: &str) -> (result: Result<Self>)
        ensures
            match result {
                Ok(identity) => {
                    &&& identity.id() == member_id@
                    &&& identity.fence() == incarnation@
                    &&& visible(member_id@, MAX_ID_LEN as nat)
                    &&& visible(incarnation@, MAX_ID_LEN as nat)
                },
                Err(e) => Some(e@) == if identifier_fault("member ID"@, member_id@) is Some {
                    identifier_fault("member ID"@, member_id@)
                } else {
                    identifier_fault("incarnation"@, incarnation@)
                },
            },
    {
        validate_identifier("member ID", member_id)?;
        validate_identifier("incarnation", incarnation)?;
        Ok(
            MemberIdentity { member_id: member_id.to_owned(), incarnation: incarnation.to_owned() },
        )
    }

    /// Stable logical member ID.
    #[must_use]
    pub fn member_id(&self) -> (result: &str)
        ensures
            result@ == self.id(),
            visible(self.id(), MAX_ID_LEN as nat),
    {
        proof {
            use_type_invariant(self);
        }
        self.member_id.as_str()
    }

    /// Unique process incarnation fence.
    #[must_use]
    pub fn incarnation(&self) -> (result: &str)
        ensures
            result@ == self.fence(),
            visible(self.fence(), MAX_ID_LEN as nat),
    {
        proof {
            use_type_invariant(self);
        }
        self.incarnation.as_str()
    }
}

/// Content of a registered member.
pub struct MemberModel {
    pub member_id: Seq<char>,
    pub incarnation: Seq<char>,
    pub joined_at_millis: u64,
    pub heartbeat_at_millis: u64,
}

/// Observable active-member metadata ordered by join time and member ID.
#[derive(Clone, Debug, Eq, PartialEq)]
pub struct MemberInfo {
    member_id: String,
    incarnation: String,
    joined_at_millis: u64,
    heartbeat_at_millis: u64,
}

impl View for MemberInfo {
    type V = MemberModel;

    closed spec fn view(&self) -> MemberModel {
        MemberModel {
            member_id: self.member_id@,
            incarnation: self.incarnation@,
            joined_at_millis: self.joined_at_millis,
            heartbeat_at_millis: self.heartbeat_at_millis,
        }
    }
}

impl MemberInfo {
    /// Stable logical member ID.
    #[must_use]
    pub fn member_id(&self) -> (result: &str)
        ensures
            result@ == self@.member_id,
    {
        self.member_id.as_str()
    }

    /// Current process incarnation.
    #[must_use]
    pub fn incarnation(&self) -> (result: &str)
        ensures
            result@ == self@.incarnation,
    {
        self.incarnation.as_str()
    }

    /// Unix timestamp in milliseconds at which this incarnation joined.
    #[must_use]
    pub fn joined_at_millis(&self) -> (result: u64)
        ensures
            result == self@.joined_at_millis,
    {
        self.joined_at_millis
    }

    /// Most recent heartbeat timestamp in Unix milliseconds.
    #[must_use]
    pub fn heartbeat_at_millis(&self) -> (result: u64)
        ensures
            result == self@.heartbeat_at_millis,
    {
        self.heartbeat_at_millis
    }
}

/// Contents of a list of members.
pub open spec fn infos_of(list: Seq<MemberInfo>) -> Seq<MemberModel> {
    list.map_values(|m: MemberInfo| m@)
}

/// One entry of the member map of a registry document.
#[derive(Debug, Eq, PartialEq)]
pub struct RegistryEntry {
    /// Map key.
    pub key: String,
    /// Member ID of the payload.
    pub member_id: String,
    /// Current process incarnation.
    pub incarnation: String,
    /// Join time in Unix milliseconds.
    pub joined_at_millis: u64,
    /// Latest heartbeat in Unix milliseconds.
    pub heartbeat_at_millis: u64,
}

/// Content of an entry.
pub struct EntryModel {
    pub key: Seq<char>,
    pub member: MemberModel,
}

impl View for RegistryEntry {
    type V = EntryModel;

    open spec fn view(&self) -> EntryModel {
        EntryModel {
            key: self.key@,
            member: MemberModel {
                member_id: self.member_id@,
                incarnation: self.incarnation@,
                joined_at_millis: self.joined_at_millis,
                heartbeat_at_millis: self.heartbeat_at_millis,
            },
        }
    }
}

impl Clone for RegistryEntry {
    fn clone(&self) -> (result: Self)
        ensures
            result == *self,
    {
        RegistryEntry {
            key: self.key.clone(),
            member_id: self.member_id.clone(),
            incarnation: self.incarnation.clone(),
            joined_at_millis: self.joined_at_millis,
            heartbeat_at_millis: self.heartbeat_at_millis,
        }
    }
}

/// Contents of a list of entries.
pub open spec fn entries_of(list: Seq<RegistryEntry>) -> Seq<EntryModel> {
    list.map_values(|e: RegistryEntry| e@)
}

/// Entries in strictly increasing order of their keys.
pub open spec fn keyed(list: Seq<EntryModel>) -> bool {
    forall|i: int, j: int|
        0 <= i < j < list.len() ==> text_less((#[trigger] list[i]).key, (#[trigger] list[j]).key)
}

/// The entry at a position has the key.
pub open spec fn key_at(list: Seq<EntryModel>, key: Seq<char>, i: int) -> bool {
    0 <= i < list.len() && list[i].key == key
}

/// Members by key.
pub open spec fn member_map(list: Seq<EntryModel>) -> Map<Seq<char>, MemberModel> {
    Map::new(
        |k: Seq<char>| exists|i: int| key_at(list, k, i),
        |k: Seq<char>| list[choose|i: int| key_at(list, k, i)].member,
    )
}

proof fn key_is_unique(list: Seq<EntryModel>, i: int, j: int)
    requires
        keyed(list),
        0 <= i < list.len(),
        0 <= j < list.len(),
        list[i].key == list[j].key,
    ensures
        i == j,
{
    text_less_irreflexive(list[i].key);
    if i < j {
        assert(text_less(list[i].key, list[j].key));
    } else if j < i {
        assert(text_less(list[j].key, list[i].key));
    }
}

proof fn member_at(list: Seq<EntryModel>, i: int)
    requires
        keyed(list),
        0 <= i < list.len(),
    ensures
        member_map(list).contains_key(list[i].key),
        member_map(list)[list[i].key] == list[i].member,
{
    let key = list[i].key;
    assert(key_at(list, key, i));
    let j = choose|j: int| key_at(list, key, j);
    key_is_unique(list, i, j);
}

proof fn member_map_is(list: Seq<EntryModel>, map: Map<Seq<char>, MemberModel>)
    requires
        keyed(list),
        forall|i: int|
            0 <= i < list.len() ==> map.contains_key((#[trigger] list[i]).key)
                && map[list[i].key] == list[i].member,
        forall|k: Seq<char>| #[trigger] map.contains_key(k) ==> exists|i: int| key_at(list, k, i),
    ensures
        member_map(list) == map,
{
    assert forall|k: Seq<char>| member_map(list).contains_key(k) implies #[trigger] map.contains_key(
        k,
    ) && map[k] == member_map(list)[k] by {
        let i = choose|i: int| key_at(list, k, i);
        assert(list[i].key == k);
        member_at(list, i);
    }
    assert(member_map(list) =~= map);
}

/// A number of keyed entries is the number of members.
pub proof fn members_are_counted(list: Seq<EntryModel>)
    requires
        keyed(list),
    ensures
        member_map(list).dom().finite(),
        member_map(list).len() == list.len(),
    decreases list.len(),
{
    if list.len() == 0 {
        assert(member_map(list).dom() =~= Set::empty());
    } else {
        let shorter = list.drop_last();
        let last = list.last();
        members_are_counted(shorter);
        assert forall|k: Seq<char>| member_map(shorter).contains_key(k) implies k != last.key by {
            let i = choose|i: int| key_at(shorter, k, i);
            assert(list[i].key == k);
            if k == last.key {
                key_is_unique(list, i, list.len() - 1);
            }
        }
        assert(member_map(list).dom() =~= member_map(shorter).dom().insert(last.key)) by {
            assert forall|k: Seq<char>| member_map(list).contains_key(k) <==> (member_map(
                shorter,
            ).contains_key(k) || k == last.key) by {
                if member_map(list).contains_key(k) {
                    let i = choose|i: int| key_at(list, k, i);
                    if i < shorter.len() {
                        assert(key_at(shorter, k, i));
                    }
                }
                if member_map(shorter).contains_key(k) {
                    let i = choose|i: int| key_at(shorter, k, i);
                    assert(key_at(list, k, i));
                }
                if k == last.key {
                    assert(key_at(list, k, list.len() - 1));
                }
            }
        }
    }
}

/// Prefix of a configuration error inside a registry error.
pub open spec fn as_registry(complaint: Seq<char>) -> MembershipFault {
    MembershipFault::Registry("invalid Couchbase membership configuration: "@ + complaint)
}

/// What is wrong with one entry, if anything.
pub open spec fn entry_fault(e: EntryModel) -> Option<MembershipFault> {
    if !visible(e.key, MAX_ID_LEN as nat) {
        Some(as_registry(identifier_complaint("member ID"@)))
    } else if !visible(e.member.incarnation, MAX_ID_LEN as nat) {
        Some(as_registry(identifier_complaint("incarnation"@)))
    } else if e.key != e.member.member_id {
        Some(
            MembershipFault::Registry(
                "member map key "@ + quoted(e.key) + " does not match payload "@ + quoted(
                    e.member.member_id,
                ),
            ),
        )
    } else if e.member.heartbeat_at_millis < e.member.joined_at_millis {
        Some(
            MembershipFault::Registry(
                "member "@ + quoted(e.key) + " heartbeat precedes its join time"@,
            ),
        )
    } else {
        None
    }
}

/// Content of a registry document.
pub struct RegistryState {
    pub schema_version: u16,
    pub vbucket_count: usize,
    pub stale_after_millis: u64,
    pub generation: u64,
    pub members: Map<Seq<char>, MemberModel>,
}

/// What is wrong with a document, if anything; members are looked at in the
/// order of their keys.
pub open spec fn document_fault(
    schema_version: u16,
    vbucket_count: usize,
    stale_after_millis: u64,
    entries: Seq<EntryModel>,
) -> Option<MembershipFault> {
    if schema_version != REGISTRY_SCHEMA_VERSION {
        Some(
            MembershipFault::Registry(
                "unsupported schema version "@ + dec(schema_version as nat),
            ),
        )
    } else if count_fault(vbucket_count) is Some {
        Some(as_registry(count_complaint()))
    } else if stale_after_millis == 0 {
        Some(MembershipFault::Registry("stale-member timeout must be greater than zero"@))
    } else if entries.len() > vbucket_count {
        Some(
            MembershipFault::Registry(
                dec(entries.len()) + " members exceed "@ + dec(vbucket_count as nat)
                    + " vBuckets"@,
            ),
        )
    } else {
        first_fault(entries.len(), |i: int| entry_fault(entries[i]))
    }
}

/// The member has not been heard of for too long.
pub open spec fn stale(m: MemberModel, now_millis: u64, stale_after_millis: u64) -> bool {
    now_millis - m.heartbeat_at_millis >= stale_after_millis
}

fn is_stale(e: &RegistryEntry, now_millis: u64, stale_after_millis: u64) -> (result: bool)
    requires
        stale_after_millis > 0,
    ensures
        result == stale(e@.member, now_millis, stale_after_millis),
{
    now_millis.saturating_sub(e.heartbeat_at_millis) >= stale_after_millis
}

/// Member with a heartbeat not earlier than before.
pub open spec fn refreshed(m: MemberModel, now_millis: u64) -> MemberModel {
    MemberModel {
        heartbeat_at_millis: if m.heartbeat_at_millis < now_millis {
            now_millis
        } else {
            m.heartbeat_at_millis
        },
        ..m
    }
}

/// Member that joins now.
pub open spec fn joining(id: Seq<char>, fence: Seq<char>, now_millis: u64) -> MemberModel {
    MemberModel {
        member_id: id,
        incarnation: fence,
        joined_at_millis: now_millis,
        heartbeat_at_millis: now_millis,
    }
}

/// Mathematical outcome of a registry operation.
pub type Change = std::result::Result<RegistryState, MembershipFault>;

/// Overflow of the membership generation.
pub open spec fn generation_overflow() -> MembershipFault {
    MembershipFault::Registry("membership generation overflow"@)
}

/// Registry with changed members and the next generation.
pub open spec fn regenerated(s: RegistryState, members: Map<Seq<char>, MemberModel>) -> Change {
    if s.generation == u64::MAX {
        Err(generation_overflow())
    } else {
        Ok(RegistryState { generation: (s.generation + 1) as u64, members, ..s })
    }
}

/// Registry after the registration of an incarnation.
pub open spec fn registered(s: RegistryState, id: Seq<char>, fence: Seq<char>, now_millis: u64) -> Change {
    if s.members.contains_key(id) && s.members[id].incarnation == fence {
        Ok(
            RegistryState {
                members: s.members.insert(id, refreshed(s.members[id], now_millis)),
                ..s
            },
        )
    } else if s.members.contains_key(id) && !stale(
        s.members[id],
        now_millis,
        s.stale_after_millis,
    ) {
        Err(MembershipFault::DuplicateMember { member_id: id })
    } else if !s.members.contains_key(id) && s.members.len() >= s.vbucket_count {
        Err(
            MembershipFault::Configuration(
                "cannot register more than "@ + dec(s.vbucket_count as nat) + " members for "@
                    + dec(s.vbucket_count as nat) + " vBuckets"@,
            ),
        )
    } else {
        regenerated(s, s.members.insert(id, joining(id, fence, now_millis)))
    }
}

/// The incarnation is the registered one.
pub open spec fn holds_fence(s: RegistryState, id: Seq<char>, fence: Seq<char>) -> bool {
    s.members.contains_key(id) && s.members[id].incarnation == fence
}

/// Registry after a heartbeat.
pub open spec fn heard(s: RegistryState, id: Seq<char>, fence: Seq<char>, now_millis: u64) -> Change {
    if holds_fence(s, id, fence) {
        Ok(
            RegistryState {
                members: s.members.insert(id, refreshed(s.members[id], now_millis)),
                ..s
            },
        )
    } else {
        Err(MembershipFault::Fenced { member_id: id })
    }
}

/// Members that are not stale.
pub open spec fn living(s: RegistryState, now_millis: u64) -> Map<Seq<char>, MemberModel> {
    s.members.restrict(
        Set::new(
            |k: Seq<char>| !stale(s.members[k], now_millis, s.stale_after_millis),
        ),
    )
}

/// Registry after stale members were removed; the generation advances only if
/// there were any.
pub open spec fn pruned(s: RegistryState, now_millis: u64) -> Change {
    if living(s, now_millis) == s.members {
        Ok(s)
    } else {
        regenerated(s, living(s, now_millis))
    }
}

/// Registry after a graceful leave.
pub open spec fn left(s: RegistryState, id: Seq<char>, fence: Seq<char>) -> Change {
    if !s.members.contains_key(id) {
        Ok(s)
    } else if s.members[id].incarnation != fence {
        Err(MembershipFault::Fenced { member_id: id })
    } else {
        regenerated(s, s.members.remove(id))
    }
}

/// Order of members: by join time, then by member ID.
pub open spec fn precedes(a: MemberModel, b: MemberModel) -> bool {
    a.joined_at_millis < b.joined_at_millis || (a.joined_at_millis == b.joined_at_millis
        && text_less(a.member_id, b.member_id))
}

/// Members in order, each of them once.
pub open spec fn seating(s: RegistryState, seats: Seq<MemberModel>) -> bool {
    &&& forall|i: int, j: int|
        0 <= i < j < seats.len() ==> precedes(#[trigger] seats[i], #[trigger] seats[j])
    &&& seats.len() == s.members.len()
    &&& forall|i: int|
        0 <= i < seats.len() ==> s.members.contains_key((#[trigger] seats[i]).member_id)
            && s.members[seats[i].member_id] == seats[i]
}

proof fn precedes_is_one_way(a: MemberModel, b: MemberModel)
    requires
        precedes(a, b),
    ensures
        !precedes(b, a),
{
    text_less_irreflexive(a.member_id);
    if precedes(b, a) {
        text_less_transitive(a.member_id, b.member_id, a.member_id);
    }
}

/// A seating seats every member.
pub proof fn everyone_is_seated(s: RegistryState, seats: Seq<MemberModel>, id: Seq<char>)
    requires
        s.members.dom().finite(),
        seating(s, seats),
        s.members.contains_key(id),
    ensures
        exists|i: int| 0 <= i < seats.len() && #[trigger] seats[i] == s.members[id],
{
    let ids = seats.map_values(|m: MemberModel| m.member_id);
    assert(ids.no_duplicates()) by {
        assert forall|i: int, j: int| 0 <= i < j < ids.len() implies ids[i] != ids[j] by {
            assert(precedes(seats[i], seats[j]));
            if ids[i] == ids[j] {
                assert(seats[i] == seats[j]);
                precedes_is_one_way(seats[i], seats[j]);
            }
        }
    }
    ids.unique_seq_to_set();
    vstd::seq_lib::seq_to_set_is_finite(ids);
    assert(ids.to_set().subset_of(s.members.dom())) by {
        assert forall|k: Seq<char>| ids.to_set().contains(k) implies s.members.dom().contains(k) by {
            let i = choose|i: int| 0 <= i < ids.len() && ids[i] == k;
            assert(s.members.contains_key(seats[i].member_id));
        }
    }
    vstd::set_lib::lemma_subset_equality(ids.to_set(), s.members.dom());
    assert(ids.to_set().contains(id));
    let i = choose|i: int| 0 <= i < ids.len() && ids[i] == id;
    assert(seats[i] == s.members[id]);
}

proof fn seated_once(s: RegistryState, seats: Seq<MemberModel>, i: int, j: int)
    requires
        seating(s, seats),
        0 <= i < seats.len(),
        0 <= j < seats.len(),
        seats[i].member_id == seats[j].member_id,
    ensures
        i == j,
{
    assert(seats[i] == seats[j]);
    if i < j {
        assert(precedes(seats[i], seats[j]));
        precedes_is_one_way(seats[i], seats[j]);
    } else if j < i {
        assert(precedes(seats[j], seats[i]));
        precedes_is_one_way(seats[j], seats[i]);
    }
}

proof fn seats_agree(s: RegistryState, a: Seq<MemberModel>, b: Seq<MemberModel>, k: int)
    requires
        s.members.dom().finite(),
        seating(s, a),
        seating(s, b),
        0 <= k <= a.len(),
    ensures
        forall|i: int| 0 <= i < k ==> #[trigger] a[i] == b[i],
    decreases k,
{
    if k > 0 {
        seats_agree(s, a, b, k - 1);
        let n: int = k - 1;
        assert(s.members.contains_key(a[n].member_id));
        assert(s.members.contains_key(b[n].member_id));
        everyone_is_seated(s, b, a[n].member_id);
        let x = choose|x: int| 0 <= x < b.len() && #[trigger] b[x] == s.members[a[n].member_id];
        everyone_is_seated(s, a, b[n].member_id);
        let y = choose|y: int| 0 <= y < a.len() && #[trigger] a[y] == s.members[b[n].member_id];
        if x < n {
            assert(a[x] == b[x]);
            seated_once(s, a, x, n);
        }
        if y < n {
            assert(a[y] == b[y]);
            seated_once(s, b, y, n);
        }
        if x > n && y > n {
            assert(precedes(b[n], b[x]));
            assert(precedes(a[n], a[y]));
            precedes_is_one_way(a[n], b[n]);
        }
    }
}

/// The members of a registry have one order only, so that every member sees
/// the same list.
pub proof fn seating_is_unique(s: RegistryState, a: Seq<MemberModel>, b: Seq<MemberModel>)
    requires
        s.members.dom().finite(),
        seating(s, a),
        seating(s, b),
    ensures
        a == b,
{
    seats_agree(s, a, b, a.len() as int);
    assert(a =~= b);
}

/// What a registered member sees: everyone in order, and its own share of the
/// bucket.
pub open spec fn derives(
    s: RegistryState,
    id: Seq<char>,
    seats: Seq<MemberModel>,
    owned: Set<u16>,
) -> bool {
    &&& seating(s, seats)
    &&& exists|i: int|
        0 <= i < seats.len() && (#[trigger] seats[i]).member_id == id && owned == share(
            s.vbucket_count as nat,
            seats.len(),
            i as nat,
        )
}

/// A heartbeat changes neither the generation nor who is a member.
pub proof fn heartbeats_keep_the_generation(
    s: RegistryState,
    id: Seq<char>,
    fence: Seq<char>,
    now_millis: u64,
)
    requires
        heard(s, id, fence, now_millis) is Ok,
    ensures
        heard(s, id, fence, now_millis)->Ok_0.generation == s.generation,
        heard(s, id, fence, now_millis)->Ok_0.members.dom() == s.members.dom(),
{
    assert(heard(s, id, fence, now_millis)->Ok_0.members.dom() =~= s.members.dom());
}

/// Whenever who is a member changes, or an incarnation does, the generation
/// advances.
pub proof fn membership_changes_advance_the_generation(
    s: RegistryState,
    id: Seq<char>,
    fence: Seq<char>,
    now_millis: u64,
)
    ensures
        registered(s, id, fence, now_millis) matches Ok(t) ==> (t.generation == s.generation
            && t.members.dom() == s.members.dom() && holds_fence(s, id, fence)) || t.generation
            == s.generation + 1,
        pruned(s, now_millis) matches Ok(t) ==> (t == s) || t.generation == s.generation + 1,
        left(s, id, fence) matches Ok(t) ==> (t == s) || t.generation == s.generation + 1,
{
    if registered(s, id, fence, now_millis) is Ok && holds_fence(s, id, fence) {
        let t = registered(s, id, fence, now_millis)->Ok_0;
        assert(t.members.dom() =~= s.members.dom());
    }
}

/// Once another incarnation has taken over a member ID, the former one is
/// fenced: its heartbeats and its leave are refused.
pub proof fn replaced_incarnation_is_fenced(
    s: RegistryState,
    id: Seq<char>,
    former: Seq<char>,
    fence: Seq<char>,
    now_millis: u64,
    later_millis: u64,
)
    requires
        former != fence,
        registered(s, id, fence, now_millis) is Ok,
    ensures
        heard(
            registered(s, id, fence, now_millis)->Ok_0,
            id,
            former,
            later_millis,
        ) == Change::Err(MembershipFault::Fenced { member_id: id }),
        left(registered(s, id, fence, now_millis)->Ok_0, id, former) == Change::Err(
            MembershipFault::Fenced { member_id: id },
        ),
{
}

/// A registered incarnation holds its fence; registering it again changes
/// neither the generation nor who is a member; and after its leave the member
/// is gone.
pub proof fn registration_takes_hold(
    s: RegistryState,
    id: Seq<char>,
    fence: Seq<char>,
    now_millis: u64,
    later_millis: u64,
)
    requires
        registered(s, id, fence, now_millis) is Ok,
    ensures
        holds_fence(registered(s, id, fence, now_millis)->Ok_0, id, fence),
        registered(registered(s, id, fence, now_millis)->Ok_0, id, fence, later_millis) matches Ok(
            t,
        ) && {
            &&& t.generation == registered(s, id, fence, now_millis)->Ok_0.generation
            &&& t.members.dom() == registered(s, id, fence, now_millis)->Ok_0.members.dom()
        },
        left(registered(s, id, fence, now_millis)->Ok_0, id, fence) matches Ok(t)
            ==> !t.members.contains_key(id),
{
    let t = registered(s, id, fence, now_millis)->Ok_0;
    let u = registered(t, id, fence, later_millis)->Ok_0;
    assert(u.members.dom() =~= t.members.dom());
}

/// A member that was just heard of, or just registered, is not pruned at that
/// time.
pub proof fn heard_members_stay(s: RegistryState, id: Seq<char>, fence: Seq<char>, now_millis: u64)
    requires
        s.stale_after_millis > 0,
    ensures
        heard(s, id, fence, now_millis) matches Ok(t) ==> living(t, now_millis).contains_key(id),
        registered(s, id, fence, now_millis) matches Ok(t) ==> living(t, now_millis).contains_key(
            id,
        ),
{
}

/// The assignments that the members of one registry generation derive neither
/// overlap nor leave a vBucket out.
pub proof fn assignments_partition_the_bucket(
    s: RegistryState,
    seats: Seq<MemberModel>,
    vbucket: u16,
)
    requires
        seating(s, seats),
        0 < seats.len() <= s.vbucket_count <= MAX_VBUCKETS,
    ensures
        (vbucket as nat) < s.vbucket_count <==> exists|i: nat|
            i < seats.len() && #[trigger] share(s.vbucket_count as nat, seats.len(), i).contains(
                vbucket,
            ),
        forall|i: nat, j: nat|
            i < seats.len() && j < seats.len() && #[trigger] share(
                s.vbucket_count as nat,
                seats.len(),
                i,
            ).contains(vbucket) && #[trigger] share(
                s.vbucket_count as nat,
                seats.len(),
                j,
            ).contains(vbucket) ==> i == j,
{
    shares_partition(s.vbucket_count as nat, seats.len(), vbucket);
}

/// A member owns the vBucket.
pub open spec fn owned_within(s: RegistryState, owned: Map<Seq<char>, Set<u16>>, v: u16) -> bool {
    exists|id: Seq<char>| s.members.contains_key(id) && #[trigger] owned[id].contains(v)
}

/// What every registered member derives from one registry, taken together:
/// all see the same members in the same order, and each vBucket of the bucket
/// is owned by exactly one of them.
pub proof fn snapshots_partition_the_bucket(
    s: RegistryState,
    seats: Map<Seq<char>, Seq<MemberModel>>,
    owned: Map<Seq<char>, Set<u16>>,
)
    requires
        s.members.dom().finite(),
        0 < s.members.len() <= s.vbucket_count <= MAX_VBUCKETS,
        forall|id: Seq<char>| #[trigger]
            s.members.contains_key(id) ==> derives(s, id, seats[id], owned[id]),
    ensures
        forall|a: Seq<char>, b: Seq<char>| #[trigger]
            s.members.contains_key(a) && #[trigger] s.members.contains_key(b) ==> seats[a]
                == seats[b],
        forall|v: u16| (v as nat) < s.vbucket_count <==> #[trigger] owned_within(s, owned, v),
        forall|v: u16, a: Seq<char>, b: Seq<char>|
            s.members.contains_key(a) && s.members.contains_key(b)
                && #[trigger] owned[a].contains(v) && #[trigger] owned[b].contains(v) ==> a == b,
{
    assert forall|a: Seq<char>, b: Seq<char>| #[trigger]
        s.members.contains_key(a) && #[trigger] s.members.contains_key(b) implies seats[a]
        == seats[b] by {
        seating_is_unique(s, seats[a], seats[b]);
    }
    let count = s.vbucket_count as nat;
    let n = s.members.len();
    assert forall|v: u16|
        (v as nat) < s.vbucket_count <==> #[trigger] owned_within(s, owned, v) by {
        let any = s.members.dom().choose();
        assert(s.members.contains_key(any));
        let order = seats[any];
        assignments_partition_the_bucket(s, order, v);
        if (v as nat) < count {
            let i = choose|i: nat| i < n && #[trigger] share(count, n, i).contains(v);
            let id = order[i as int].member_id;
            assert(s.members.contains_key(id));
            let j = choose|j: int|
                0 <= j < seats[id].len() && (#[trigger] seats[id][j]).member_id == id && owned[id]
                    == share(count, n, j as nat);
            assert(seats[id] == order);
            seated_once(s, order, i as int, j);
            assert(owned[id].contains(v));
        }
        if owned_within(s, owned, v) {
            let id = choose|id: Seq<char>|
                s.members.contains_key(id) && #[trigger] owned[id].contains(v);
            let j = choose|j: int|
                0 <= j < seats[id].len() && (#[trigger] seats[id][j]).member_id == id && owned[id]
                    == share(count, n, j as nat);
            assert(share(count, n, j as nat).contains(v));
        }
    }
    assert forall|v: u16, a: Seq<char>, b: Seq<char>|
        s.members.contains_key(a) && s.members.contains_key(b) && #[trigger] owned[a].contains(v)
            && #[trigger] owned[b].contains(v) implies a == b by {
        let order = seats[a];
        assert(seats[b] == order);
        assignments_partition_the_bucket(s, order, v);
        let i = choose|i: int|
            0 <= i < seats[a].len() && (#[trigger] seats[a][i]).member_id == a && owned[a]
                == share(count, n, i as nat);
        let j = choose|j: int|
            0 <= j < seats[b].len() && (#[trigger] seats[b][j]).member_id == b && owned[b]
                == share(count, n, j as nat);
        assert(share(count, n, i as nat).contains(v));
        assert(share(count, n, j as nat).contains(v));
    }
}

/// Members that are stale.
pub open spec fn stale_ids(s: RegistryState, now_millis: u64) -> Set<Seq<char>> {
    s.members.dom().filter(
        |k: Seq<char>| stale(s.members[k], now_millis, s.stale_after_millis),
    )
}

/// Pruning removes exactly the stale members. Where there are none nothing
/// changes; otherwise the generation advances by one, and where it cannot,
/// nothing is removed. A second pruning at the same time finds none.
pub proof fn pruning_removes_the_stale(s: RegistryState, now_millis: u64)
    requires
        s.members.dom().finite(),
    ensures
        stale_ids(s, now_millis).finite(),
        stale_ids(s, now_millis).len() == 0 ==> pruned(s, now_millis) == Change::Ok(s),
        stale_ids(s, now_millis).len() > 0 && s.generation == u64::MAX ==> pruned(s, now_millis)
            == Change::Err(generation_overflow()),
        stale_ids(s, now_millis).len() > 0 && s.generation < u64::MAX ==> pruned(s, now_millis)
            == Change::Ok(
            RegistryState {
                generation: (s.generation + 1) as u64,
                members: s.members.remove_keys(stale_ids(s, now_millis)),
                ..s
            },
        ),
        s.members.remove_keys(stale_ids(s, now_millis)).len() + stale_ids(s, now_millis).len()
            == s.members.len(),
        pruned(s, now_millis) matches Ok(t) ==> {
            &&& stale_ids(t, now_millis) == Set::<Seq<char>>::empty()
            &&& pruned(t, now_millis) == Change::Ok(t)
        },
{
    let gone = stale_ids(s, now_millis);
    let kept = s.members.remove_keys(gone);
    assert(living(s, now_millis) =~= kept);
    assert(gone.subset_of(s.members.dom()));
    vstd::set_lib::lemma_len_subset(gone, s.members.dom());
    assert(kept.dom().subset_of(s.members.dom()));
    vstd::set_lib::lemma_len_subset(kept.dom(), s.members.dom());
    vstd::set_lib::lemma_set_disjoint_lens(kept.dom(), gone);
    assert(kept.dom() + gone =~= s.members.dom());
    if gone.len() == 0 {
        assert(gone =~= Set::empty());
        assert(kept =~= s.members);
    } else {
        let k = gone.choose();
        assert(gone.contains(k));
        assert(!kept.contains_key(k));
        assert(s.members.contains_key(k));
    }
    if pruned(s, now_millis) is Ok {
        let t = pruned(s, now_millis)->Ok_0;
        assert(stale_ids(t, now_millis) =~= Set::<Seq<char>>::empty());
        assert(living(t, now_millis) =~= t.members);
    }
}

/// Entries in the order of their keys are determined by the members.
pub proof fn listing_is_determined(a: Seq<EntryModel>, b: Seq<EntryModel>)
    requires
        keyed(a),
        keyed(b),
        member_map(a) == member_map(b),
    ensures
        a == b,
{
    members_are_counted(a);
    members_are_counted(b);
    listings_agree(a, b, a.len() as int);
    assert(a =~= b);
}

proof fn listings_agree(a: Seq<EntryModel>, b: Seq<EntryModel>, k: int)
    requires
        keyed(a),
        keyed(b),
        member_map(a) == member_map(b),
        a.len() == b.len(),
        0 <= k <= a.len(),
    ensures
        forall|i: int| 0 <= i < k ==> #[trigger] a[i] == b[i],
    decreases k,
{
    if k > 0 {
        listings_agree(a, b, k - 1);
        let n: int = k - 1;
        member_at(a, n);
        member_at(b, n);
        let x = choose|x: int| key_at(b, a[n].key, x);
        let y = choose|y: int| key_at(a, b[n].key, y);
        if x < n {
            assert(a[x] == b[x]);
            key_is_unique(a, x, n);
        }
        if y < n {
            assert(a[y] == b[y]);
            key_is_unique(b, y, n);
        }
        if x > n && y > n {
            assert(text_less(b[n].key, b[x].key));
            assert(text_less(a[n].key, a[y].key));
            text_less_transitive(a[n].key, b[n].key, a[n].key);
            text_less_irreflexive(a[n].key);
        }
        member_at(b, x);
        if x == n {
            assert(a[n] == b[n]);
        } else {
            assert(y == n);
            assert(a[n] == b[n]);
        }
    }
}

/// One atomically derived membership view and external vBucket assignment.
#[derive(Clone, Debug, Eq, PartialEq)]
pub struct MembershipSnapshot {
    assignment: VBucketAssignment,
    members: Vec<MemberInfo>,
}

impl MembershipSnapshot {
    /// Fence of the assignment.
    pub closed spec fn fence(&self) -> u64 {
        self.assignment.fence()
    }

    /// Owned vBuckets.
    pub closed spec fn owned(&self) -> Set<u16> {
        self.assignment.owned()
    }

    /// Members in order.
    pub closed spec fn seats(&self) -> Seq<MemberModel> {
        infos_of(self.members@)
    }

    /// Fenced vBucket assignment for the local member.
    #[must_use]
    pub fn assignment(&self) -> (result: &VBucketAssignment)
        ensures
            result.fence() == self.fence(),
            result.owned() == self.owned(),
    {
        &self.assignment
    }

    /// Ordered active-member view used to derive the assignment.
    #[must_use]
    pub fn members(&self) -> (result: &[MemberInfo])
        ensures
            infos_of(result@) == self.seats(),
    {
        self.members.as_slice()
    }
}

fn find_entry(list: &Vec<RegistryEntry>, key: &str) -> (result: Option<usize>)
    ensures
        match result {
            Some(i) => i < list@.len() && list@[i as int]@.key == key@,
            None => forall|j: int| 0 <= j < list@.len() ==> (#[trigger] list@[j])@.key != key@,
        },
{
    let mut i: usize = 0;
    while i < list.len()
        invariant
            i <= list@.len(),
            forall|j: int| 0 <= j < i ==> (#[trigger] list@[j])@.key != key@,
        decreases list@.len() - i,
    {
        if same_text(list[i].key.as_str(), key) {
            return Some(i);
        }
        i = i + 1;
    }
    None
}

/// List with an entry put at its place, replacing the one with its key.
fn with_entry(list: &Vec<RegistryEntry>, entry: RegistryEntry) -> (result: Vec<RegistryEntry>)
    requires
        keyed(entries_of(list@)),
    ensures
        keyed(entries_of(result@)),
        member_map(entries_of(result@)) == member_map(entries_of(list@)).insert(
            entry@.key,
            entry@.member,
        ),
        forall|i: int|
            0 <= i < result@.len() ==> #[trigger] result@[i] == entry || list@.contains(result@[i]),
{
    let ghost old_list = entries_of(list@);
    let ghost key = entry@.key;
    let ghost added = entry;
    let mut result: Vec<RegistryEntry> = Vec::new();
    let mut i: usize = 0;
    while i < list.len() && is_less(list[i].key.as_str(), entry.key.as_str())
        invariant
            i <= list@.len(),
            result@ =~= list@.take(i as int),
            key == entry@.key,
            forall|j: int| 0 <= j < i ==> text_less((#[trigger] list@[j])@.key, key),
        decreases list@.len() - i,
    {
        result.push(list[i].clone());
        i = i + 1;
    }
    let ghost at = i as int;
    let mut from: usize = i;
    if i < list.len() && same_text(list[i].key.as_str(), entry.key.as_str()) {
        from = i + 1;
    }
    let ghost resume = from as int;
    result.push(entry);
    let mut j: usize = from;
    while j < list.len()
        invariant
            resume <= j <= list@.len(),
            0 <= at <= resume <= list@.len(),
            result@ =~= list@.take(at).push(added) + list@.subrange(resume, j as int),
        decreases list@.len() - j,
    {
        result.push(list[j].clone());
        j = j + 1;
    }
    proof {
        let new_list = entries_of(result@);
        assert forall|x: int| 0 <= x < at implies #[trigger] new_list[x] == old_list[x] by {}
        assert(new_list[at] == added@);
        assert forall|x: int| at < x < new_list.len() implies #[trigger] new_list[x]
            == old_list[x - at - 1 + resume] by {}
        text_less_irreflexive(key);
        if at < old_list.len() {
            text_less_total(old_list[at].key, key);
            assert(list@[at]@ == old_list[at]);
        }
        assert forall|x: int| resume <= x < old_list.len() implies text_less(
            key,
            (#[trigger] old_list[x]).key,
        ) by {
            if x > at {
                assert(text_less(old_list[at].key, old_list[x].key));
                if old_list[at].key != key {
                    text_less_transitive(key, old_list[at].key, old_list[x].key);
                }
            }
        }
        assert forall|x: int, y: int| 0 <= x < y < new_list.len() implies text_less(
            (#[trigger] new_list[x]).key,
            (#[trigger] new_list[y]).key,
        ) by {
            if x < at {
                assert(list@[x]@ == old_list[x]);
                if y < at {
                    assert(text_less(old_list[x].key, old_list[y].key));
                } else if y > at {
                    let z = y - at - 1 + resume;
                    assert(text_less(key, old_list[z].key));
                    text_less_transitive(old_list[x].key, key, old_list[z].key);
                }
            } else if x == at {
                assert(text_less(key, old_list[y - at - 1 + resume].key));
            } else {
                assert(text_less(
                    old_list[x - at - 1 + resume].key,
                    old_list[y - at - 1 + resume].key,
                ));
            }
        }
        let map = member_map(old_list).insert(key, added@.member);
        assert forall|x: int| 0 <= x < new_list.len() implies map.contains_key(
            (#[trigger] new_list[x]).key,
        ) && map[new_list[x].key] == new_list[x].member by {
            if x < at {
                assert(list@[x]@ == old_list[x]);
                member_at(old_list, x);
            } else if x > at {
                let z = x - at - 1 + resume;
                assert(text_less(key, old_list[z].key));
                member_at(old_list, z);
            }
        }
        assert forall|k: Seq<char>| #[trigger] map.contains_key(k) implies exists|x: int|
            key_at(new_list, k, x) by {
            if k == key {
                assert(key_at(new_list, k, at));
            } else {
                let z = choose|z: int| key_at(old_list, k, z);
                if z < at {
                    assert(key_at(new_list, k, z));
                } else {
                    assert(z >= resume);
                    let x = z + at + 1 - resume;
                    assert(new_list[x] == old_list[z]);
                    assert(key_at(new_list, k, x));
                }
            }
        }
        member_map_is(new_list, map);
        assert forall|x: int| 0 <= x < result@.len() implies #[trigger] result@[x] == added
            || list@.contains(result@[x]) by {
            if x < at {
                assert(result@[x] == list@[x]);
            } else if x > at {
                assert(result@[x] == list@[x - at - 1 + resume]);
            }
        }
    }
    result
}

/// List without the entry at a position.
fn without_entry(list: &Vec<RegistryEntry>, at: usize) -> (result: Vec<RegistryEntry>)
    requires
        keyed(entries_of(list@)),
        at < list@.len(),
    ensures
        keyed(entries_of(result@)),
        member_map(entries_of(result@)) == member_map(entries_of(list@)).remove(
            list@[at as int]@.key,
        ),
        forall|i: int| 0 <= i < result@.len() ==> list@.contains(#[trigger] result@[i]),
        result@.len() <= list@.len(),
{
    let ghost old_list = entries_of(list@);
    let ghost key = list@[at as int]@.key;
    let mut result: Vec<RegistryEntry> = Vec::new();
    let mut i: usize = 0;
    while i < list.len()
        invariant
            i <= list@.len(),
            at < list@.len(),
            result@ =~= if i <= at {
                list@.take(i as int)
            } else {
                list@.take(at as int) + list@.subrange(at + 1, i as int)
            },
        decreases list@.len() - i,
    {
        if i != at {
            result.push(list[i].clone());
        }
        i = i + 1;
    }
    proof {
        let new_list = entries_of(result@);
        assert forall|x: int| 0 <= x < new_list.len() implies #[trigger] new_list[x]
            == old_list[if x < at {
            x
        } else {
            x + 1
        }] by {}
        assert forall|x: int, y: int| 0 <= x < y < new_list.len() implies text_less(
            (#[trigger] new_list[x]).key,
            (#[trigger] new_list[y]).key,
        ) by {
            let p = if x < at {
                x
            } else {
                x + 1
            };
            let q = if y < at {
                y
            } else {
                y + 1
            };
            assert(text_less(old_list[p].key, old_list[q].key));
        }
        assert(old_list[at as int].key == key);
        let map = member_map(old_list).remove(key);
        assert forall|x: int| 0 <= x < new_list.len() implies map.contains_key(
            (#[trigger] new_list[x]).key,
        ) && map[new_list[x].key] == new_list[x].member by {
            let p = if x < at {
                x
            } else {
                x + 1
            };
            member_at(old_list, p);
            if old_list[p].key == key {
                key_is_unique(old_list, p, at as int);
            }
        }
        assert forall|k: Seq<char>| #[trigger] map.contains_key(k) implies exists|x: int|
            key_at(new_list, k, x) by {
            let z = choose|z: int| key_at(old_list, k, z);
            if z < at {
                assert(key_at(new_list, k, z));
            } else {
                assert(z != at);
                assert(key_at(new_list, k, z - 1));
            }
        }
        member_map_is(new_list, map);
        assert forall|x: int| 0 <= x < result@.len() implies list@.contains(
            #[trigger] result@[x],
        ) by {
            let p = if x < at {
                x
            } else {
                x + 1
            };
            assert(result@[x] == list@[p]);
        }
    }
    result
}

/// List without its stale entries.
fn living_entries(list: &Vec<RegistryEntry>, now_millis: u64, stale_after_millis: u64) -> (result:
    Vec<RegistryEntry>)
    requires
        keyed(entries_of(list@)),
        stale_after_millis > 0,
    ensures
        keyed(entries_of(result@)),
        forall|k: Seq<char>| #[trigger]
            member_map(entries_of(result@)).contains_key(k) <==> (member_map(
                entries_of(list@),
            ).contains_key(k) && !stale(
                member_map(entries_of(list@))[k],
                now_millis,
                stale_after_millis,
            )),
        forall|k: Seq<char>| #[trigger]
            member_map(entries_of(result@)).contains_key(k) ==> member_map(
                entries_of(result@),
            )[k] == member_map(entries_of(list@))[k],
        forall|i: int| 0 <= i < result@.len() ==> list@.contains(#[trigger] result@[i]),
        result@.len() <= list@.len(),
{
    let ghost old_list = entries_of(list@);
    let mut result: Vec<RegistryEntry> = Vec::new();
    let ghost mut origin: Seq<int> = Seq::empty();
    let mut i: usize = 0;
    while i < list.len()
        invariant
            i <= list@.len(),
            stale_after_millis > 0,
            old_list == entries_of(list@),
            keyed(old_list),
            result@.len() <= i,
            origin.len() == result@.len(),
            forall|x: int|
                0 <= x < origin.len() ==> 0 <= #[trigger] origin[x] < i && result@[x]
                    == list@[origin[x]] && !stale(
                    list@[origin[x]]@.member,
                    now_millis,
                    stale_after_millis,
                ),
            forall|x: int, y: int|
                0 <= x < y < origin.len() ==> #[trigger] origin[x] < #[trigger] origin[y],
            forall|z: int|
                0 <= z < i && !stale(
                    (#[trigger] list@[z])@.member,
                    now_millis,
                    stale_after_millis,
                ) ==> origin.contains(z),
        decreases list@.len() - i,
    {
        if !is_stale(&list[i], now_millis, stale_after_millis) {
            let ghost before = origin;
            result.push(list[i].clone());
            proof {
                origin = before.push(i as int);
                assert(origin[before.len() as int] == i);
                assert forall|z: int|
                    0 <= z < i + 1 && !stale(
                        (#[trigger] list@[z])@.member,
                        now_millis,
                        stale_after_millis,
                    ) implies origin.contains(z) by {
                    if z < i {
                        let x = choose|x: int| 0 <= x < before.len() && before[x] == z;
                        assert(origin[x] == z);
                    }
                }
            }
        }
        i = i + 1;
    }
    proof {
        let new_list = entries_of(result@);
        assert forall|x: int| 0 <= x < new_list.len() implies #[trigger] new_list[x]
            == old_list[origin[x]] by {
            assert(result@[x] == list@[origin[x]]);
        }
        assert forall|x: int, y: int| 0 <= x < y < new_list.len() implies text_less(
            (#[trigger] new_list[x]).key,
            (#[trigger] new_list[y]).key,
        ) by {
            assert(origin[x] < origin[y]);
            assert(text_less(old_list[origin[x]].key, old_list[origin[y]].key));
        }
        assert forall|k: Seq<char>| #[trigger] member_map(new_list).contains_key(k) <==> (
        member_map(old_list).contains_key(k) && !stale(
            member_map(old_list)[k],
            now_millis,
            stale_after_millis,
        )) by {
            if member_map(new_list).contains_key(k) {
                let x = choose|x: int| key_at(new_list, k, x);
                assert(result@[x] == list@[origin[x]]);
                member_at(old_list, origin[x]);
            }
            if member_map(old_list).contains_key(k) && !stale(
                member_map(old_list)[k],
                now_millis,
                stale_after_millis,
            ) {
                let z = choose|z: int| key_at(old_list, k, z);
                member_at(old_list, z);
                assert(list@[z]@ == old_list[z]);
                assert(origin.contains(z));
                let x = choose|x: int| 0 <= x < origin.len() && origin[x] == z;
                assert(new_list[x] == old_list[origin[x]]);
                assert(key_at(new_list, k, x));
            }
        }
        assert forall|k: Seq<char>| #[trigger] member_map(new_list).contains_key(
            k,
        ) implies member_map(new_list)[k] == member_map(old_list)[k] by {
            let x = choose|x: int| key_at(new_list, k, x);
            assert(new_list[x] == old_list[origin[x]]);
            member_at(new_list, x);
            member_at(old_list, origin[x]);
        }
        assert forall|x: int| 0 <= x < result@.len() implies list@.contains(
            #[trigger] result@[x],
        ) by {
            assert(result@[x] == list@[origin[x]]);
        }
    }
    result
}

/// Versioned document stored through Couchbase CAS operations.
#[derive(Debug, Eq, PartialEq)]
pub struct RegistryDocument {
    schema_version: u16,
    vbucket_count: usize,
    stale_after_millis: u64,
    generation: u64,
    entries: Vec<RegistryEntry>,
}

impl View for RegistryDocument {
    type V = RegistryState;

    closed spec fn view(&self) -> RegistryState {
        RegistryState {
            schema_version: self.schema_version,
            vbucket_count: self.vbucket_count,
            stale_after_millis: self.stale_after_millis,
            generation: self.generation,
            members: member_map(entries_of(self.entries@)),
        }
    }
}

impl Clone for RegistryDocument {
    fn clone(&self) -> (result: Self)
        ensures
            result@ == self@,
            result.listing() == self.listing(),
            result.coherent(),
    {
        proof {
            use_type_invariant(self);
            members_are_counted(self.listing());
        }
        let mut entries: Vec<RegistryEntry> = Vec::new();
        let mut i: usize = 0;
        while i < self.entries.len()
            invariant
                i <= self.entries@.len(),
                entries@ =~= self.entries@.take(i as int),
            decreases self.entries@.len() - i,
        {
            entries.push(self.entries[i].clone());
            i = i + 1;
        }
        assert(entries@ =~= self.entries@);
        RegistryDocument {
            schema_version: self.schema_version,
            vbucket_count: self.vbucket_count,
            stale_after_millis: self.stale_after_millis,
            generation: self.generation,
            entries,
        }
    }
}

impl RegistryDocument {
    #[verifier::type_invariant]
    closed spec fn well_keyed(&self) -> bool {
        keyed(entries_of(self.entries@))
    }

    /// Entries in the order of their keys.
    pub closed spec fn listing(&self) -> Seq<EntryModel> {
        entries_of(self.entries@)
    }

    /// The entries stand in the order of their keys and are the members, of
    /// which there are finitely many.
    pub open spec fn coherent(&self) -> bool {
        &&& keyed(self.listing())
        &&& self@.members == member_map(self.listing())
        &&& self@.members.dom().finite()
        &&& self@.members.len() == self.listing().len()
    }

    /// What is wrong with the document, if anything.
    pub open spec fn fault(&self) -> Option<MembershipFault> {
        document_fault(
            self@.schema_version,
            self@.vbucket_count,
            self@.stale_after_millis,
            self.listing(),
        )
    }

    /// Creates an empty registry with immutable cluster-wide assignment bounds.
    pub fn new(vbucket_count: usize, stale_after_millis: u64) -> (result: Result<Self>)
        ensures
            match result {
                Ok(document) => {
                    &&& creation_fault(vbucket_count, stale_after_millis) is None
                    &&& document@ == (RegistryState {
                        schema_version: REGISTRY_SCHEMA_VERSION,
                        vbucket_count,
                        stale_after_millis,
                        generation: 0,
                        members: Map::empty(),
                    })
                    &&& document.listing() == Seq::<EntryModel>::empty()
                    &&& document.coherent()
                    &&& document.fault() is None
                },
                Err(e) => creation_fault(vbucket_count, stale_after_millis) == Some(e@),
            },
    {
        validate_vbucket_count(vbucket_count)?;
        if stale_after_millis == 0 {
            return Err(
                CouchbaseMembershipError::Configuration(
                    "stale-member timeout must be greater than zero".to_owned(),
                ),
            );
        }
        let document = RegistryDocument {
            schema_version: REGISTRY_SCHEMA_VERSION,
            vbucket_count,
            stale_after_millis,
            generation: 0,
            entries: Vec::new(),
        };
        proof {
            assert(document@.members =~= Map::empty());
            assert(document.listing() =~= Seq::empty());
            members_are_counted(document.listing());
        }
        Ok(document)
    }

    /// Rebuilds a document from its stored fields; of entries with one key the
    /// last one counts.
    pub fn from_parts(
        schema_version: u16,
        vbucket_count: usize,
        stale_after_millis: u64,
        generation: u64,
        entries: Vec<RegistryEntry>,
    ) -> (result: Self)
        ensures
            result@ == (RegistryState {
                schema_version,
                vbucket_count,
                stale_after_millis,
                generation,
                members: stored_members(entries_of(entries@)),
            }),
            result.coherent(),
    {
        let ghost all = entries_of(entries@);
        let mut list: Vec<RegistryEntry> = Vec::new();
        let mut i: usize = 0;
        proof {
            assert(all.take(0) =~= Seq::empty());
            assert(member_map(entries_of(list@)) =~= Map::empty());
        }
        while i < entries.len()
            invariant
                i <= entries@.len(),
                all == entries_of(entries@),
                keyed(entries_of(list@)),
                member_map(entries_of(list@)) == stored_members(all.take(i as int)),
            decreases entries@.len() - i,
        {
            proof {
                assert(all[i as int] == entries@[i as int]@);
                assert(all.take(i + 1).drop_last() =~= all.take(i as int));
                assert(all.take(i + 1).last() == all[i as int]);
            }
            list = with_entry(&list, entries[i].clone());
            i = i + 1;
        }
        proof {
            assert(all.take(all.len() as int) =~= all);
            members_are_counted(entries_of(list@));
        }
        RegistryDocument {
            schema_version,
            vbucket_count,
            stale_after_millis,
            generation,
            entries: list,
        }
    }

    /// Schema version of the document.
    pub fn schema_version(&self) -> (result: u16)
        ensures
            result == self@.schema_version,
    {
        self.schema_version
    }

    /// Number of vBuckets that are shared.
    pub fn vbucket_count(&self) -> (result: usize)
        ensures
            result == self@.vbucket_count,
    {
        self.vbucket_count
    }

    /// Age at which a member is stale, in milliseconds.
    pub fn stale_after_millis(&self) -> (result: u64)
        ensures
            result == self@.stale_after_millis,
    {
        self.stale_after_millis
    }

    /// Entries in the order of their keys.
    pub fn entries(&self) -> (result: &Vec<RegistryEntry>)
        ensures
            entries_of(result@) == self.listing(),
            self.coherent(),
    {
        proof {
            use_type_invariant(self);
            members_are_counted(self.listing());
        }
        &self.entries
    }

    /// Current membership fence generation.
    #[must_use]
    pub fn generation(&self) -> (result: u64)
        ensures
            result == self@.generation,
    {
        self.generation
    }

    /// Tests whether two documents store the same.
    pub fn same(&self, other: &Self) -> (result: bool)
        ensures
            result == (self@.schema_version == other@.schema_version && self@.vbucket_count
                == other@.vbucket_count && self@.stale_after_millis == other@.stale_after_millis
                && self@.generation == other@.generation && self.listing() == other.listing()),
            result ==> self@ == other@,
    {
        if self.schema_version != other.schema_version || self.vbucket_count != other.vbucket_count
            || self.stale_after_millis != other.stale_after_millis || self.generation
            != other.generation || self.entries.len() != other.entries.len() {
            assert(self.listing().len() == self.entries@.len());
            assert(other.listing().len() == other.entries@.len());
            return false;
        }
        let mut i: usize = 0;
        while i < self.entries.len()
            invariant
                i <= self.entries@.len(),
                self.entries@.len() == other.entries@.len(),
                forall|j: int| 0 <= j < i ==> (#[trigger] self.entries@[j])@ == other.entries@[j]@,
            decreases self.entries@.len() - i,
        {
            let a = &self.entries[i];
            let b = &other.entries[i];
            let equal: bool = same_text(a.key.as_str(), b.key.as_str()) && same_text(
                a.member_id.as_str(),
                b.member_id.as_str(),
            ) && same_text(a.incarnation.as_str(), b.incarnation.as_str()) && a.joined_at_millis
                == b.joined_at_millis && a.heartbeat_at_millis == b.heartbeat_at_millis;
            if !equal {
                assert(self.listing()[i as int] == a@);
                assert(other.listing()[i as int] == b@);
                return false;
            }
            i = i + 1;
        }
        assert(self.listing() =~= other.listing());
        true
    }

    fn check_entry(&self, i: usize) -> (result: Result<()>)
        requires
            i < self.entries@.len(),
        ensures
            passes(result, entry_fault(self.listing()[i as int])),
    {
        let e = &self.entries[i];
        assert(self.listing()[i as int] == e@);
        if !is_visible(e.key.as_str(), MAX_ID_LEN) {
            return Err(
                CouchbaseMembershipError::Registry(
                    join2(
                        "invalid Couchbase membership configuration: ",
                        join2("member ID", " must contain 1..=251 visible ASCII bytes").as_str(),
                    ),
                ),
            );
        }
        if !is_visible(e.incarnation.as_str(), MAX_ID_LEN) {
            return Err(
                CouchbaseMembershipError::Registry(
                    join2(
                        "invalid Couchbase membership configuration: ",
                        join2("incarnation", " must contain 1..=251 visible ASCII bytes").as_str(),
                    ),
                ),
            );
        }
        if !same_text(e.key.as_str(), e.member_id.as_str()) {
            return Err(
                CouchbaseMembershipError::Registry(
                    join4(
                        "member map key ",
                        quoted_text(e.key.as_str()).as_str(),
                        " does not match payload ",
                        quoted_text(e.member_id.as_str()).as_str(),
                    ),
                ),
            );
        }
        if e.heartbeat_at_millis < e.joined_at_millis {
            return Err(
                CouchbaseMembershipError::Registry(
                    join3(
                        "member ",
                        quoted_text(e.key.as_str()).as_str(),
                        " heartbeat precedes its join time",
                    ),
                ),
            );
        }
        Ok(())
    }

    /// Validates persisted schema and immutable assignment bounds.
    pub fn validate(&self) -> (result: Result<()>)
        ensures
            passes(result, self.fault()),
            self.coherent(),
    {
        proof {
            use_type_invariant(self);
            members_are_counted(self.listing());
        }
        if self.schema_version != REGISTRY_SCHEMA_VERSION {
            return Err(
                CouchbaseMembershipError::Registry(
                    join2(
                        "unsupported schema version ",
                        dec_text(self.schema_version as u64).as_str(),
                    ),
                ),
            );
        }
        if self.vbucket_count == 0 || self.vbucket_count > MAX_VBUCKETS {
            return Err(
                CouchbaseMembershipError::Registry(
                    join2(
                        "invalid Couchbase membership configuration: ",
                        "vBucket count must be in 1..=65536",
                    ),
                ),
            );
        }
        if self.stale_after_millis == 0 {
            return Err(
                CouchbaseMembershipError::Registry(
                    "stale-member timeout must be greater than zero".to_owned(),
                ),
            );
        }
        if self.entries.len() > self.vbucket_count {
            return Err(
                CouchbaseMembershipError::Registry(
                    join4(
                        dec_count(self.entries.len()).as_str(),
                        " members exceed ",
                        dec_count(self.vbucket_count).as_str(),
                        " vBuckets",
                    ),
                ),
            );
        }
        let ghost models = self.listing();
        let ghost check = |i: int| entry_fault(models[i]);
        let mut i: usize = 0;
        while i < self.entries.len()
            invariant
                self.coherent(),
                i <= self.entries@.len(),
                models == self.listing(),
                check == (|i: int| entry_fault(models[i])),
                first_fault(i as nat, check) is None,
                self.fault() == first_fault(models.len(), check),
            decreases self.entries@.len() - i,
        {
            if let Err(e) = self.check_entry(i) {
                proof {
                    assert(check(i as int) == Some(e@));
                    first_fault_found(i as nat, models.len(), check);
                }
                return Err(e);
            }
            assert(check(i as int) is None);
            i = i + 1;
        }
        Ok(())
    }

    /// Verifies immutable registry settings used by every member.
    pub fn validate_settings(&self, vbucket_count: usize, stale_after_millis: u64) -> (result: Result<
        (),
    >)
        ensures
            passes(
                result,
                match self.fault() {
                    Some(fault) => Some(fault),
                    None => settings_fault(self@, vbucket_count, stale_after_millis),
                },
            ),
    {
        self.validate()?;
        if self.vbucket_count != vbucket_count {
            return Err(
                CouchbaseMembershipError::Configuration(
                    join4(
                        "registry vBucket count ",
                        dec_count(self.vbucket_count).as_str(),
                        " does not match local ",
                        dec_count(vbucket_count).as_str(),
                    ),
                ),
            );
        }
        if self.stale_after_millis != stale_after_millis {
            return Err(
                CouchbaseMembershipError::Configuration(
                    join5(
                        "registry stale timeout ",
                        dec_text(self.stale_after_millis).as_str(),
                        "ms does not match local ",
                        dec_text(stale_after_millis).as_str(),
                        "ms",
                    ),
                ),
            );
        }
        Ok(())
    }

    proof fn kept_valid(&self, list: Seq<RegistryEntry>, limit: usize)
        requires
            self.fault() is None,
            list.len() <= limit == self.vbucket_count,
            forall|i: int|
                0 <= i < list.len() ==> self.entries@.contains(#[trigger] list[i]) || entry_fault(
                    list[i]@,
                ) is None,
        ensures
            document_fault(
                self.schema_version,
                self.vbucket_count,
                self.stale_after_millis,
                entries_of(list),
            ) is None,
    {
        let models = entries_of(list);
        let check = |i: int| entry_fault(models[i]);
        let known = self.listing();
        let old_check = |i: int| entry_fault(known[i]);
        no_first_fault(known.len(), old_check);
        assert forall|i: int| 0 <= i < models.len() implies #[trigger] check(i) is None by {
            assert(models[i] == list[i]@);
            if self.entries@.contains(list[i]) {
                let j = choose|j: int|
                    0 <= j < self.entries@.len() && self.entries@[j] == list[i];
                assert(known[j] == list[i]@);
                assert(old_check(j) is None);
            }
        }
        first_fault_absent(models.len(), check);
    }

    /// Registers one incarnation or idempotently refreshes the same one.
    pub fn register(&mut self, identity: &MemberIdentity, now_millis: u64) -> (result: Result<()>)
        ensures
            match old(self).fault() {
                Some(fault) => result is Err && result->Err_0@ == fault && *final(self) == *old(
                    self,
                ),
                None => match registered(old(self)@, identity.id(), identity.fence(), now_millis) {
                    Ok(next) => result is Ok && final(self)@ == next && final(self).fault() is None,
                    Err(fault) => result is Err && result->Err_0@ == fault && *final(self) == *old(
                        self,
                    ),
                },
            },
            final(self).coherent(),
    {
        self.validate()?;
        proof {
            use_type_invariant(&*self);
            members_are_counted(self.listing());
        }
        let id = identity.member_id();
        let fence = identity.incarnation();
        match find_entry(&self.entries, id) {
            Some(i) => {
                proof {
                    assert(self.listing()[i as int] == self.entries@[i as int]@);
                    member_at(self.listing(), i as int);
                }
                if same_text(self.entries[i].incarnation.as_str(), fence) {
                    self.refresh(i, now_millis);
                    return Ok(());
                }
                if !is_stale(&self.entries[i], now_millis, self.stale_after_millis) {
                    return Err(
                        CouchbaseMembershipError::DuplicateMember { member_id: id.to_owned() },
                    );
                }
            },
            None => {
                proof {
                    assert(!self@.members.contains_key(id@)) by {
                        if self@.members.contains_key(id@) {
                            let j = choose|j: int| key_at(self.listing(), id@, j);
                            assert(self.entries@[j]@ == self.listing()[j]);
                        }
                    }
                }
                if self.entries.len() >= self.vbucket_count {
                    return Err(
                        CouchbaseMembershipError::Configuration(
                            join5(
                                "cannot register more than ",
                                dec_count(self.vbucket_count).as_str(),
                                " members for ",
                                dec_count(self.vbucket_count).as_str(),
                                " vBuckets",
                            ),
                        ),
                    );
                }
            },
        }
        if self.generation == u64::MAX {
            return Err(overflow_error());
        }
        let entry = RegistryEntry {
            key: id.to_owned(),
            member_id: id.to_owned(),
            incarnation: fence.to_owned(),
            joined_at_millis: now_millis,
            heartbeat_at_millis: now_millis,
        };
        let ghost fresh = entry@;
        let entries = with_entry(&self.entries, entry);
        proof {
            assert(fresh == (EntryModel {
                key: id@,
                member: joining(id@, fence@, now_millis),
            }));
            members_are_counted(entries_of(entries@));
            assert(entries@.len() <= self.vbucket_count) by {
                let old_map = member_map(self.listing());
                let new_map = member_map(entries_of(entries@));
                if old_map.contains_key(id@) {
                    assert(new_map.dom() =~= old_map.dom());
                } else {
                    assert(new_map.dom() =~= old_map.dom().insert(id@));
                }
            }
            self.kept_valid(entries@, self.vbucket_count);
        }
        self.entries = entries;
        self.generation = self.generation + 1;
        Ok(())
    }

    fn refresh(&mut self, i: usize, now_millis: u64)
        requires
            old(self).fault() is None,
            i < old(self).entries@.len(),
        ensures
            final(self)@ == (RegistryState {
                members: old(self)@.members.insert(
                    old(self).entries@[i as int]@.key,
                    refreshed(old(self).entries@[i as int]@.member, now_millis),
                ),
                ..old(self)@
            }),
            final(self).fault() is None,
            final(self).coherent(),
    {
        proof {
            use_type_invariant(&*self);
        }
        let mut entry = self.entries[i].clone();
        if entry.heartbeat_at_millis < now_millis {
            entry.heartbeat_at_millis = now_millis;
        }
        let ghost fresh = entry@;
        let ghost stored = self.entries@[i as int]@;
        let entries = with_entry(&self.entries, entry);
        proof {
            let known = self.listing();
            let check = |j: int| entry_fault(known[j]);
            no_first_fault(known.len(), check);
            assert(known[i as int] == stored);
            assert(check(i as int) is None);
            member_at(known, i as int);
            members_are_counted(known);
            members_are_counted(entries_of(entries@));
            assert(member_map(entries_of(entries@)).dom() =~= member_map(known).dom());
            self.kept_valid(entries@, self.vbucket_count);
        }
        self.entries = entries;
    }

    /// Refreshes the exact registered incarnation.
    pub fn heartbeat(&mut self, identity: &MemberIdentity, now_millis: u64) -> (result: Result<()>)
        ensures
            match old(self).fault() {
                Some(fault) => result is Err && result->Err_0@ == fault && *final(self) == *old(
                    self,
                ),
                None => match heard(old(self)@, identity.id(), identity.fence(), now_millis) {
                    Ok(next) => result is Ok && final(self)@ == next && final(self).fault() is None,
                    Err(fault) => result is Err && result->Err_0@ == fault && *final(self) == *old(
                        self,
                    ),
                },
            },
            final(self).coherent(),
    {
        self.validate()?;
        match self.own_entry(identity) {
            Some(i) => {
                self.refresh(i, now_millis);
                Ok(())
            },
            None => Err(
                CouchbaseMembershipError::Fenced { member_id: identity.member_id().to_owned() },
            ),
        }
    }

    /// Entry of the exact incarnation, if it is registered.
    fn own_entry(&self, identity: &MemberIdentity) -> (result: Option<usize>)
        ensures
            match result {
                Some(i) => {
                    &&& i < self.entries@.len()
                    &&& holds_fence(self@, identity.id(), identity.fence())
                    &&& self.entries@[i as int]@.key == identity.id()
                    &&& self.entries@[i as int]@.member == self@.members[identity.id()]
                },
                None => !holds_fence(self@, identity.id(), identity.fence()),
            },
    {
        proof {
            use_type_invariant(self);
        }
        match find_entry(&self.entries, identity.member_id()) {
            Some(i) => {
                proof {
                    assert(self.listing()[i as int] == self.entries@[i as int]@);
                    member_at(self.listing(), i as int);
                }
                if same_text(self.entries[i].incarnation.as_str(), identity.incarnation()) {
                    Some(i)
                } else {
                    None
                }
            },
            None => {
                proof {
                    if self@.members.contains_key(identity.id()) {
                        let j = choose|j: int| key_at(self.listing(), identity.id(), j);
                        assert(self.entries@[j]@ == self.listing()[j]);
                    }
                }
                None
            },
        }
    }

    /// Removes every expired member and advances one membership generation.
    pub fn prune_stale(&mut self, now_millis: u64) -> (result: Result<usize>)
        ensures
            match old(self).fault() {
                Some(fault) => result is Err && result->Err_0@ == fault && *final(self) == *old(
                    self,
                ),
                None => match pruned(old(self)@, now_millis) {
                    Ok(next) => {
                        &&& result is Ok
                        &&& final(self)@ == next
                        &&& final(self).fault() is None
                        &&& result->Ok_0 == stale_ids(old(self)@, now_millis).len()
                    },
                    Err(fault) => result is Err && result->Err_0@ == fault && *final(self) == *old(
                        self,
                    ),
                },
            },
            final(self).coherent(),
    {
        self.validate()?;
        proof {
            use_type_invariant(&*self);
        }
        let entries = living_entries(&self.entries, now_millis, self.stale_after_millis);
        proof {
            members_are_counted(self.listing());
            members_are_counted(entries_of(entries@));
            assert(member_map(entries_of(entries@)) =~= living(self@, now_millis));
            pruning_removes_the_stale(self@, now_millis);
            assert(living(self@, now_millis) =~= self@.members.remove_keys(
                stale_ids(self@, now_millis),
            ));
            if entries@.len() == self.entries@.len() {
                assert(living(self@, now_millis).dom().subset_of(self@.members.dom()));
                vstd::set_lib::lemma_subset_equality(
                    living(self@, now_millis).dom(),
                    self@.members.dom(),
                );
                assert(living(self@, now_millis) =~= self@.members);
            }
        }
        let removed: usize = self.entries.len() - entries.len();
        if removed == 0 {
            return Ok(0);
        }
        if self.generation == u64::MAX {
            return Err(overflow_error());
        }
        proof {
            self.kept_valid(entries@, self.vbucket_count);
        }
        self.entries = entries;
        self.generation = self.generation + 1;
        Ok(removed)
    }

    /// Removes the exact local incarnation during graceful shutdown.
    pub fn remove(&mut self, identity: &MemberIdentity) -> (result: Result<bool>)
        ensures
            match old(self).fault() {
                Some(fault) => result is Err && result->Err_0@ == fault && *final(self) == *old(
                    self,
                ),
                None => match left(old(self)@, identity.id(), identity.fence()) {
                    Ok(next) => {
                        &&& result is Ok
                        &&& final(self)@ == next
                        &&& final(self).fault() is None
                        &&& result->Ok_0 == old(self)@.members.contains_key(identity.id())
                    },
                    Err(fault) => result is Err && result->Err_0@ == fault && *final(self) == *old(
                        self,
                    ),
                },
            },
            final(self).coherent(),
    {
        self.validate()?;
        proof {
            use_type_invariant(&*self);
        }
        match find_entry(&self.entries, identity.member_id()) {
            None => {
                proof {
                    if self@.members.contains_key(identity.id()) {
                        let j = choose|j: int| key_at(self.listing(), identity.id(), j);
                        assert(self.entries@[j]@ == self.listing()[j]);
                    }
                }
                Ok(false)
            },
            Some(i) => {
                proof {
                    assert(self.listing()[i as int] == self.entries@[i as int]@);
                    member_at(self.listing(), i as int);
                }
                if !same_text(self.entries[i].incarnation.as_str(), identity.incarnation()) {
                    return Err(
                        CouchbaseMembershipError::Fenced {
                            member_id: identity.member_id().to_owned(),
                        },
                    );
                }
                if self.generation == u64::MAX {
                    return Err(overflow_error());
                }
                let entries = without_entry(&self.entries, i);
                proof {
                    members_are_counted(entries_of(entries@));
                    self.kept_valid(entries@, self.vbucket_count);
                }
                self.entries = entries;
                self.generation = self.generation + 1;
                Ok(true)
            },
        }
    }

    /// Derives the local member's deterministic assignment from this exact
    /// registry generation.
    pub fn snapshot(&self, identity: &MemberIdentity) -> (result: Result<MembershipSnapshot>)
        ensures
            match self.fault() {
                Some(fault) => result is Err && result->Err_0@ == fault,
                None => if !holds_fence(self@, identity.id(), identity.fence()) {
                    result is Err && result->Err_0@ == (MembershipFault::Fenced {
                        member_id: identity.id(),
                    })
                } else {
                    result matches Ok(snapshot) && {
                        &&& derives(self@, identity.id(), snapshot.seats(), snapshot.owned())
                        &&& snapshot.seats().len() <= self@.vbucket_count
                        &&& snapshot.fence() == self@.generation
                    }
                },
            },
            self.coherent(),
    {
        self.validate()?;
        if self.own_entry(identity).is_none() {
            return Err(
                CouchbaseMembershipError::Fenced { member_id: identity.member_id().to_owned() },
            );
        }
        let members = self.seated_members();
        let ghost seats = infos_of(members@);
        let mut i: usize = 0;
        while i < members.len() && !same_text(members[i].member_id.as_str(), identity.member_id())
            invariant
                i <= members@.len(),
                seats == infos_of(members@),
                forall|j: int| 0 <= j < i ==> (#[trigger] seats[j]).member_id != identity.id(),
            decreases members@.len() - i,
        {
            assert(seats[i as int] == members@[i as int]@);
            i = i + 1;
        }
        proof {
            if i == members@.len() {
                let k = choose|k: int|
                    0 <= k < seats.len() && (#[trigger] seats[k]).member_id == identity.id();
                assert(seats[k].member_id != identity.id());
            }
            assert(seats[i as int] == members@[i as int]@);
        }
        match VBucketAssignment::balanced(
            self.generation,
            self.vbucket_count,
            i + 1,
            members.len(),
        ) {
            Ok(assignment) => {
                let snapshot = MembershipSnapshot { assignment, members };
                assert(snapshot.seats() == seats);
                assert(snapshot.fence() == self@.generation);
                assert(snapshot.owned() == share(
                    self@.vbucket_count as nat,
                    snapshot.seats().len(),
                    i as nat,
                ));
                assert(snapshot.seats()[i as int].member_id == identity.id());
                assert(seating(self@, snapshot.seats()));
                assert(snapshot.seats().len() <= self@.vbucket_count);
                Ok(snapshot)
            },
            Err(e) => {
                assert(count_fault(self.vbucket_count) is None);
                assert(crate::assignment::balanced_fault(
                    self.vbucket_count as nat,
                    (i + 1) as nat,
                    members@.len(),
                ) is None);
                Err(CouchbaseMembershipError::Dcp(e))
            },
        }
    }

    /// Members in the order of their join times and IDs.
    fn seated_members(&self) -> (result: Vec<MemberInfo>)
        requires
            self.fault() is None,
        ensures
            seating(self@, infos_of(result@)),
            result@.len() == self.entries@.len(),
            result@.len() <= self.vbucket_count,
            forall|k: Seq<char>| #[trigger]
                self@.members.contains_key(k) ==> exists|i: int|
                    0 <= i < result@.len() && (#[trigger] infos_of(result@)[i]).member_id == k,
    {
        proof {
            use_type_invariant(self);
            members_are_counted(self.listing());
            self.ids_are_keys();
        }
        let ghost models = self.listing();
        let mut list: Vec<MemberInfo> = Vec::new();
        let mut i: usize = 0;
        while i < self.entries.len()
            invariant
                i <= self.entries@.len(),
                keyed(models),
                models == self.listing(),
                forall|j: int|
                    0 <= j < models.len() ==> (#[trigger] models[j]).member.member_id
                        == models[j].key,
                list@.len() == i,
                forall|x: int, y: int|
                    0 <= x < y < list@.len() ==> precedes(
                        (#[trigger] list@[x])@,
                        (#[trigger] list@[y])@,
                    ),
                forall|x: int|
                    0 <= x < list@.len() ==> drawn(models, i as int, (#[trigger] list@[x])@),
                forall|j: int| 0 <= j < i ==> seated(list@, (#[trigger] models[j]).member),
            decreases self.entries@.len() - i,
        {
            let e = &self.entries[i];
            let info = MemberInfo {
                member_id: e.member_id.clone(),
                incarnation: e.incarnation.clone(),
                joined_at_millis: e.joined_at_millis,
                heartbeat_at_millis: e.heartbeat_at_millis,
            };
            let ghost before = list@;
            let ghost added = info;
            proof {
                assert(models[i as int] == e@);
                assert(info@ == models[i as int].member);
                assert forall|x: int| 0 <= x < list@.len() implies (
                #[trigger] list@[x])@.member_id != info@.member_id by {
                    drawn_elsewhere(models, i as int, list@[x]@);
                }
            }
            let at: usize = seat(&mut list, info);
            proof {
                assert forall|x: int| 0 <= x < list@.len() implies drawn(
                    models,
                    i + 1,
                    (#[trigger] list@[x])@,
                ) by {
                    if x == at {
                        drawn_at(models, i + 1, i as int);
                    } else {
                        let y = if x < at {
                            x
                        } else {
                            x - 1
                        };
                        assert(list@[x] == before[y]);
                        drawn_further(models, i as int, before[y]@);
                    }
                }
                assert forall|j: int| 0 <= j < i + 1 implies seated(
                    list@,
                    (#[trigger] models[j]).member,
                ) by {
                    if j == i {
                        assert(list@[at as int]@ == models[j].member);
                    } else {
                        seated_after_insert(before, at as int, added, models[j].member);
                    }
                }
            }
            i = i + 1;
        }
        proof {
            let seats = infos_of(list@);
            assert forall|x: int, y: int| 0 <= x < y < seats.len() implies precedes(
                #[trigger] seats[x],
                #[trigger] seats[y],
            ) by {
                assert(seats[x] == list@[x]@);
                assert(seats[y] == list@[y]@);
            }
            assert forall|x: int| 0 <= x < seats.len() implies self@.members.contains_key(
                (#[trigger] seats[x]).member_id,
            ) && self@.members[seats[x].member_id] == seats[x] by {
                assert(seats[x] == list@[x]@);
                assert(drawn(models, models.len() as int, list@[x]@));
                let j = choose|j: int|
                    0 <= j < models.len() && (#[trigger] models[j]).member == list@[x]@;
                member_at(models, j);
            }
            assert forall|k: Seq<char>| #[trigger] self@.members.contains_key(k) implies exists|
                x: int,
            |
                0 <= x < list@.len() && (#[trigger] seats[x]).member_id == k by {
                let j = choose|j: int| key_at(models, k, j);
                assert(seated(list@, models[j].member));
                let x = choose|x: int|
                    0 <= x < list@.len() && (#[trigger] list@[x])@ == models[j].member;
                assert(seats[x] == list@[x]@);
            }
        }
        list
    }

    proof fn ids_are_keys(&self)
        requires
            self.fault() is None,
        ensures
            forall|j: int|
                0 <= j < self.listing().len() ==> (
                #[trigger] self.listing()[j]).member.member_id == self.listing()[j].key,
    {
        let models = self.listing();
        let check = |j: int| entry_fault(models[j]);
        no_first_fault(models.len(), check);
        assert forall|j: int| 0 <= j < models.len() implies (
        #[trigger] models[j]).member.member_id == models[j].key by {
            assert(check(j) is None);
        }
    }
}

fn info_precedes(a: &MemberInfo, b: &MemberInfo) -> (result: bool)
    ensures
        result == precedes(a@, b@),
{
    a.joined_at_millis < b.joined_at_millis || (a.joined_at_millis == b.joined_at_millis
        && is_less(a.member_id.as_str(), b.member_id.as_str()))
}

proof fn precedes_is_an_order(a: MemberModel, b: MemberModel, c: MemberModel)
    ensures
        precedes(a, b) && precedes(b, c) ==> precedes(a, c),
        a.member_id != b.member_id ==> precedes(a, b) || precedes(b, a),
{
    if precedes(a, b) && precedes(b, c) {
        if a.joined_at_millis == b.joined_at_millis && b.joined_at_millis == c.joined_at_millis {
            text_less_transitive(a.member_id, b.member_id, c.member_id);
        }
    }
    text_less_total(a.member_id, b.member_id);
}

/// The member is that of one of the first entries.
spec fn drawn(models: Seq<EntryModel>, upto: int, member: MemberModel) -> bool {
    exists|j: int| 0 <= j < upto && (#[trigger] models[j]).member == member
}

/// The member is on the list.
spec fn seated(list: Seq<MemberInfo>, member: MemberModel) -> bool {
    exists|x: int| 0 <= x < list.len() && (#[trigger] list[x])@ == member
}

proof fn drawn_at(models: Seq<EntryModel>, upto: int, j: int)
    requires
        0 <= j < upto,
    ensures
        drawn(models, upto, models[j].member),
{
    assert(models[j].member == models[j].member);
}

proof fn drawn_further(models: Seq<EntryModel>, upto: int, member: MemberModel)
    requires
        drawn(models, upto, member),
    ensures
        drawn(models, upto + 1, member),
{
    let j = choose|j: int| 0 <= j < upto && (#[trigger] models[j]).member == member;
    drawn_at(models, upto + 1, j);
}

proof fn drawn_elsewhere(models: Seq<EntryModel>, i: int, member: MemberModel)
    requires
        keyed(models),
        0 <= i < models.len(),
        drawn(models, i, member),
        forall|j: int|
            0 <= j < models.len() ==> (#[trigger] models[j]).member.member_id == models[j].key,
    ensures
        member.member_id != models[i].member.member_id,
{
    let j = choose|j: int| 0 <= j < i && (#[trigger] models[j]).member == member;
    if models[j].key == models[i].key {
        key_is_unique(models, j, i);
    }
}

proof fn seated_after_insert(
    list: Seq<MemberInfo>,
    at: int,
    added: MemberInfo,
    member: MemberModel,
)
    requires
        0 <= at <= list.len(),
        seated(list, member),
    ensures
        seated(list.insert(at, added), member),
{
    let y = choose|y: int| 0 <= y < list.len() && (#[trigger] list[y])@ == member;
    let x = if y < at {
        y
    } else {
        y + 1
    };
    assert(list.insert(at, added)[x] == list[y]);
}

/// Seats a member at its place among ordered ones.
fn seat(list: &mut Vec<MemberInfo>, info: MemberInfo) -> (at: usize)
    requires
        forall|x: int, y: int|
            0 <= x < y < old(list)@.len() ==> precedes(
                (#[trigger] old(list)@[x])@,
                (#[trigger] old(list)@[y])@,
            ),
        forall|x: int|
            0 <= x < old(list)@.len() ==> (#[trigger] old(list)@[x])@.member_id
                != info@.member_id,
    ensures
        at <= old(list)@.len(),
        final(list)@ == old(list)@.insert(at as int, info),
        forall|x: int, y: int|
            0 <= x < y < final(list)@.len() ==> precedes(
                (#[trigger] final(list)@[x])@,
                (#[trigger] final(list)@[y])@,
            ),
{
    let ghost before = list@;
    let mut at: usize = 0;
    while at < list.len() && info_precedes(&list[at], &info)
        invariant
            at <= list@.len(),
            list@ == before,
            forall|j: int| 0 <= j < at ==> precedes((#[trigger] list@[j])@, info@),
        decreases list@.len() - at,
    {
        at = at + 1;
    }
    let ghost added = info;
    list.insert(at, info);
    proof {
        let after = list@;
        assert forall|x: int, y: int| 0 <= x < y < after.len() implies precedes(
            (#[trigger] after[x])@,
            (#[trigger] after[y])@,
        ) by {
            if at < before.len() {
                precedes_is_an_order(before[at as int]@, added@, added@);
            }
            if y < at {
                assert(precedes(before[x]@, before[y]@));
            } else if y == at {
                assert(precedes(before[x]@, added@));
            } else if x < at {
                assert(precedes(before[x]@, before[y - 1]@));
            } else if x > at {
                assert(precedes(before[x - 1]@, before[y - 1]@));
            } else {
                assert(after[y] == before[y - 1]);
                if y - 1 > at {
                    assert(precedes(before[at as int]@, before[y - 1]@));
                    precedes_is_an_order(added@, before[at as int]@, before[y - 1]@);
                }
            }
        }
    }
    at
}

fn overflow_error() -> (result: CouchbaseMembershipError)
    ensures
        result@ == generation_overflow(),
{
    CouchbaseMembershipError::Registry("membership generation overflow".to_owned())
}

/// Why a new registry is refused, if it is.
pub open spec fn creation_fault(vbucket_count: usize, stale_after_millis: u64) -> Option<
    MembershipFault,
> {
    if count_fault(vbucket_count) is Some {
        count_fault(vbucket_count)
    } else if stale_after_millis == 0 {
        Some(MembershipFault::Configuration("stale-member timeout must be greater than zero"@))
    } else {
        None
    }
}

/// How the settings of a registry differ from local ones, if they do.
pub open spec fn settings_fault(s: RegistryState, vbucket_count: usize, stale_after_millis: u64) -> Option<
    MembershipFault,
> {
    if s.vbucket_count != vbucket_count {
        Some(
            MembershipFault::Configuration(
                "registry vBucket count "@ + dec(s.vbucket_count as nat)
                    + " does not match local "@ + dec(vbucket_count as nat),
            ),
        )
    } else if s.stale_after_millis != stale_after_millis {
        Some(
            MembershipFault::Configuration(
                "registry stale timeout "@ + dec(s.stale_after_millis as nat)
                    + "ms does not match local "@ + dec(stale_after_millis as nat) + "ms"@,
            ),
        )
    } else {
        None
    }
}

/// Members of stored entries; of entries with one key the last one counts.
pub open spec fn stored_members(entries: Seq<EntryModel>) -> Map<Seq<char>, MemberModel>
    decreases entries.len(),
{
    if entries.len() == 0 {
        Map::empty()
    } else {
        stored_members(entries.drop_last()).insert(entries.last().key, entries.last().member)
    }
}

} // verus!
