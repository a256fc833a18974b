//! Laws of collection manifests, selections and registries.
use std::collections::BTreeMap;
use vstd::prelude::*;
use vstd::utf8::{decode_utf8, valid_utf8};

use crate::bootstrap::{BootstrapCapabilities, DcpControlFeature, HelloFeature};
use crate::collections::{
    collection_fault, listed_before, merge_high_seqnos, named_collection, named_collections,
    names_by_id, plan_selection, scope_fault, uids_of, wire_collection, wire_scope,
    CollectionManifest, CollectionModel, CollectionRegistry, CollectionRegistryStatus,
    CollectionSelection, ManifestModel, RegistryModel, ResolvedCollectionFilter, ResolvedModel,
    ScopeModel, SelectionPlan, WireCollection, WireManifest, WireScope,
};
use crate::config::CollectionFilter;
use crate::error::{DcpError, Outcome, Result};
use crate::event::{DcpEvent, SystemEvent, SystemEventKind};
use crate::lists::{
    collected, collected_items, first_fault_absent, first_where, first_where_ensures,
};
use crate::naming::valid_name;
use crate::protocol::StreamFilter;
use crate::text::{parsed, texts};

verus! {

broadcast use {vstd::std_specs::btree::group_btree_axioms, vstd::laws_cmp::group_laws_cmp};

/// The number that the text names in hexadecimal.
pub open spec fn names_hex(text: Seq<char>, limit: nat, n: nat) -> bool {
    parsed(text, 16, limit) is Ok && parsed(text, 16, limit)->Ok_0 == n
}

/// A collection as it was announced.
pub open spec fn is_collection(w: WireCollection, c: CollectionModel) -> bool {
    &&& names_hex(w.uid@, u32::MAX as nat, c.uid as nat)
    &&& c.name == w.name@
    &&& c.max_ttl == w.max_ttl
    &&& c.history == w.history
}

/// A scope as it was announced.
pub open spec fn is_scope(w: WireScope, s: ScopeModel) -> bool {
    &&& names_hex(w.uid@, u32::MAX as nat, s.uid as nat)
    &&& s.name == w.name@
    &&& s.collections.len() == w.collections@.len()
    &&& forall|i: int|
        0 <= i < s.collections.len() ==> is_collection(
            w.collections@[i],
            #[trigger] s.collections[i],
        )
}

proof fn parsed_is_bounded(text: Seq<char>, limit: nat)
    ensures
        parsed(text, 16, limit) matches Ok(n) ==> n <= limit,
{
    scan_is_bounded(text, limit, 0);
    scan_is_bounded(text.drop_first(), limit, 0);
}

proof fn scan_is_bounded(text: Seq<char>, limit: nat, value: nat)
    requires
        value <= limit,
    ensures
        crate::text::scanned(text, 16, limit, value) matches Ok(n) ==> n <= limit,
    decreases text.len(),
{
    if text.len() > 0 {
        if let Some(d) = crate::text::digit_value(text[0], 16) {
            if value * 16 + d <= limit {
                scan_is_bounded(text.drop_first(), limit, value * 16 + d);
            }
        }
    }
}

proof fn scopes_are_as_announced(w: WireScope)
    ensures
        wire_scope(w) matches Ok(s) ==> is_scope(w, s),
{
    parsed_is_bounded(w.uid@, u32::MAX as nat);
    if wire_scope(w) is Ok {
        let item = |i: int| wire_collection(w.collections@[i]);
        collected_items(w.collections@.len(), item);
        let s = wire_scope(w)->Ok_0;
        assert forall|i: int| 0 <= i < s.collections.len() implies is_collection(
            w.collections@[i],
            #[trigger] s.collections[i],
        ) by {
            assert(item(i) == Outcome::<CollectionModel>::Ok(s.collections[i]));
            parsed_is_bounded(w.collections@[i].uid@, u32::MAX as nat);
        }
    }
}

/// A manifest is read as it was announced, scope by scope and collection by
/// collection, and no two of its entries can be taken for each other.
pub proof fn manifests_are_as_announced(w: WireManifest, manifest: CollectionManifest)
    requires
        call_ensures(CollectionManifest::from_wire, (&w,), Ok(manifest)),
    ensures
        names_hex(w.uid@, u64::MAX as nat, manifest@.uid as nat),
        manifest@.scopes.len() == w.scopes@.len(),
        forall|i: int|
            0 <= i < manifest@.scopes.len() ==> is_scope(
                w.scopes@[i],
                #[trigger] manifest@.scopes[i],
            ),
        manifest@.unambiguous(),
{
    parsed_is_bounded(w.uid@, u64::MAX as nat);
    let item = |i: int| wire_scope(w.scopes@[i]);
    collected_items(w.scopes@.len(), item);
    assert forall|i: int| 0 <= i < manifest@.scopes.len() implies is_scope(
        w.scopes@[i],
        #[trigger] manifest@.scopes[i],
    ) by {
        assert(item(i) == Outcome::<ScopeModel>::Ok(manifest@.scopes[i]));
        scopes_are_as_announced(w.scopes@[i]);
    }
    crate::collections::faultless_manifest_is_unambiguous(manifest@);
}

/// No two scopes share an ID or a name; no two collections share an ID, nor,
/// in one scope, a name.
pub open spec fn distinct(m: ManifestModel) -> bool {
    &&& forall|t: int, s: int|
        0 <= t < s < m.scopes.len() ==> (#[trigger] m.scopes[t]).uid != (#[trigger] m.scopes[s]).uid
            && m.scopes[t].name != m.scopes[s].name
    &&& forall|t: int, d: int, s: int, c: int|
        #![trigger m.scopes[t].collections[d], m.scopes[s].collections[c]]
        0 <= t <= s < m.scopes.len() && 0 <= d < m.scopes[t].collections.len() && 0 <= c
            < m.scopes[s].collections.len() && (t < s || d < c) ==> m.scopes[t].collections[d].uid
            != m.scopes[s].collections[c].uid && (t == s ==> m.scopes[t].collections[d].name
            != m.scopes[s].collections[c].name)
}

/// A manifest is accepted exactly when its entries can be told apart.
pub proof fn accepted_manifests_are_distinct(manifest: CollectionManifest, result: Result<()>)
    requires
        call_ensures(CollectionManifest::validate_identity, (&manifest,), result),
    ensures
        result is Ok <==> distinct(manifest@),
{
    let m = manifest@;
    let check = |s: int| scope_fault(m, s);
    if result is Ok {
        crate::collections::faultless_manifest_is_unambiguous(m);
        assert forall|t: int, d: int, s: int, c: int|
            #![trigger m.scopes[t].collections[d], m.scopes[s].collections[c]]
            0 <= t <= s < m.scopes.len() && 0 <= d < m.scopes[t].collections.len() && 0 <= c
                < m.scopes[s].collections.len() && (t < s || d
                < c) implies m.scopes[t].collections[d].uid != m.scopes[s].collections[c].uid && (t
            == s ==> m.scopes[t].collections[d].name != m.scopes[s].collections[c].name) by {
            assert(listed_before(t, d, s, c));
        }
    }
    if distinct(m) {
        assert forall|s: int| 0 <= s < m.scopes.len() implies #[trigger] check(s) is None by {
            let scope = m.scopes[s];
            let inner = |c: int| collection_fault(m, s, c);
            assert forall|c: int| 0 <= c < scope.collections.len() implies #[trigger] inner(
                c,
            ) is None by {
                assert forall|t: int, d: int|
                    #![trigger m.scopes[t].collections[d]]
                    0 <= t <= s && 0 <= d < m.scopes[t].collections.len() && listed_before(
                        t,
                        d,
                        s,
                        c,
                    ) implies m.scopes[t].collections[d].uid != scope.collections[c].uid by {
                    assert(m.scopes[s].collections[c] == scope.collections[c]);
                }
                assert forall|d: int| 0 <= d < c implies (#[trigger] scope.collections[d]).name
                    != scope.collections[c].name by {
                    assert(m.scopes[s].collections[d] == scope.collections[d]);
                    assert(m.scopes[s].collections[c] == scope.collections[c]);
                }
            }
            first_fault_absent(scope.collections.len(), inner);
            assert forall|t: int| 0 <= t < s implies (#[trigger] m.scopes[t]).uid != scope.uid
                && m.scopes[t].name != scope.name by {
                assert(m.scopes[s] == scope);
            }
        }
        first_fault_absent(m.scopes.len(), check);
    }
}

proof fn names_are_by_id(list: Seq<CollectionModel>)
    requires
        forall|i: int, j: int|
            0 <= i < j < list.len() ==> (#[trigger] list[i]).uid != (#[trigger] list[j]).uid
                || list[i].name == list[j].name,
    ensures
        forall|i: int|
            0 <= i < list.len() ==> names_by_id(list).contains_key((#[trigger] list[i]).uid)
                && names_by_id(list)[list[i].uid] == list[i].name,
        forall|id: u32| #[trigger]
            names_by_id(list).contains_key(id) ==> exists|i: int|
                0 <= i < list.len() && (#[trigger] list[i]).uid == id,
    decreases list.len(),
{
    if list.len() > 0 {
        let shorter = list.drop_last();
        let n = list.len() - 1;
        assert forall|i: int| 0 <= i < n implies shorter[i] == list[i] by {}
        assert forall|i: int, j: int| 0 <= i < j < shorter.len() implies (
        #[trigger] shorter[i]).uid != (#[trigger] shorter[j]).uid || shorter[i].name
            == shorter[j].name by {
            assert(list[i] == shorter[i] && list[j] == shorter[j]);
        }
        names_are_by_id(shorter);
        assert forall|i: int| 0 <= i < list.len() implies names_by_id(list).contains_key(
            (#[trigger] list[i]).uid,
        ) && names_by_id(list)[list[i].uid] == list[i].name by {
            if i < n {
                assert(shorter[i] == list[i]);
                assert(list[i].uid != list[n].uid || list[i].name == list[n].name);
            }
        }
        assert forall|id: u32| #[trigger] names_by_id(list).contains_key(id) implies exists|i: int|
            0 <= i < list.len() && (#[trigger] list[i]).uid == id by {
            if id == list[n].uid {
                assert(list[n].uid == id);
            } else {
                assert(names_by_id(shorter).contains_key(id));
                let i = choose|i: int|
                    0 <= i < shorter.len() && (#[trigger] shorter[i]).uid == id;
                assert(list[i].uid == id);
            }
        }
    }
}

/// A filter on a whole scope streams that scope and knows the names of all its
/// collections.
pub proof fn scopes_are_resolved_by_name(
    manifest: CollectionManifest,
    configured: CollectionFilter,
    stream_id: Option<u16>,
    resolved: ResolvedCollectionFilter,
    filter: &StreamFilter,
    ids: &[u32],
    s: int,
    c: int,
    id: u32,
    name: Option<&str>,
)
    requires
        call_ensures(
            CollectionManifest::resolve,
            (&manifest, &configured, stream_id),
            Ok(resolved),
        ),
        call_ensures(ResolvedCollectionFilter::stream_filter, (&resolved,), filter),
        call_ensures(ResolvedCollectionFilter::collection_ids, (&resolved,), ids),
        call_ensures(ResolvedCollectionFilter::collection_name, (&resolved, id), name),
        distinct(manifest@),
        configured.collections@.len() == 0,
        0 <= s < manifest@.scopes.len(),
        manifest@.scopes[s].name == configured.scope@,
    ensures
        filter.scope_id == Some(manifest@.scopes[s].uid),
        filter.collection_ids@.len() == 0,
        filter.manifest_uid is None,
        filter.stream_id == stream_id,
        ids@.len() == 0,
        resolved@.scope_id == manifest@.scopes[s].uid,
        resolved@.manifest_uid == manifest@.uid,
        0 <= c < manifest@.scopes[s].collections.len() && id == manifest@.scopes[s].collections[c].uid
            ==> (name matches Some(text) && text@ == manifest@.scopes[s].collections[c].name),
        (forall|k: int|
            0 <= k < manifest@.scopes[s].collections.len() ==> (
            #[trigger] manifest@.scopes[s].collections[k]).uid != id) ==> name is None,
{
    let m = manifest@;
    let named = |x: ScopeModel| x.name == configured.scope@;
    first_where_ensures(m.scopes, named);
    assert(named(m.scopes[s]));
    let i = first_where(m.scopes, named)->0;
    assert(named(m.scopes[i]));
    if i < s {
        assert(m.scopes[i].name != m.scopes[s].name);
    }
    assert(i == s);
    let list = m.scopes[s].collections;
    assert forall|a: int, b: int| 0 <= a < b < list.len() implies (#[trigger] list[a]).uid != (
    #[trigger] list[b]).uid || list[a].name == list[b].name by {
        assert(m.scopes[s].collections[a] == list[a]);
        assert(m.scopes[s].collections[b] == list[b]);
    }
    names_are_by_id(list);
    if 0 <= c < list.len() && id == list[c].uid {
        assert(names_by_id(list).contains_key(list[c].uid));
    }
}

/// A filter on named collections streams exactly those, in their order, and
/// knows their names.
pub proof fn collections_are_resolved_by_name(
    manifest: CollectionManifest,
    configured: CollectionFilter,
    stream_id: Option<u16>,
    resolved: ResolvedCollectionFilter,
    filter: &StreamFilter,
    ids: &[u32],
    s: int,
    k: int,
    c: int,
    name: Option<&str>,
)
    requires
        call_ensures(
            CollectionManifest::resolve,
            (&manifest, &configured, stream_id),
            Ok(resolved),
        ),
        call_ensures(ResolvedCollectionFilter::stream_filter, (&resolved,), filter),
        call_ensures(ResolvedCollectionFilter::collection_ids, (&resolved,), ids),
        distinct(manifest@),
        0 <= s < manifest@.scopes.len(),
        manifest@.scopes[s].name == configured.scope@,
        0 <= k < configured.collections@.len(),
        0 <= c < manifest@.scopes[s].collections.len(),
        manifest@.scopes[s].collections[c].name == configured.collections@[k]@,
        call_ensures(
            ResolvedCollectionFilter::collection_name,
            (&resolved, manifest@.scopes[s].collections[c].uid),
            name,
        ),
    ensures
        filter.scope_id is None,
        filter.collection_ids@ == ids@,
        filter.manifest_uid is None,
        filter.stream_id == stream_id,
        ids@.len() == configured.collections@.len(),
        ids@[k] == manifest@.scopes[s].collections[c].uid,
        name matches Some(text) && text@ == configured.collections@[k]@,
        resolved@.scope_id == manifest@.scopes[s].uid,
        resolved@.manifest_uid == manifest@.uid,
{
    let m = manifest@;
    let named = |x: ScopeModel| x.name == configured.scope@;
    first_where_ensures(m.scopes, named);
    assert(named(m.scopes[s]));
    let i = first_where(m.scopes, named)->0;
    assert(named(m.scopes[i]));
    if i < s {
        assert(m.scopes[i].name != m.scopes[s].name);
    }
    assert(i == s);
    let scope = m.scopes[s];
    let names = texts(configured.collections@);
    let item = |j: int|
        match named_collection(scope, names[j]) {
            Some(x) => Outcome::<CollectionModel>::Ok(x),
            None => Err(
                crate::error::DcpFault::InvalidConfiguration(
                    "collection "@ + crate::text::quoted(scope.name) + "."@ + crate::text::quoted(
                        names[j],
                    ) + " is not present in manifest 0x"@ + crate::text::hex(m.uid as nat),
                ),
            ),
        };
    assert(named_collections(m, scope, names) == collected(names.len(), item));
    collected_items(names.len(), item);
    let list = named_collections(m, scope, names)->Ok_0;
    assert forall|j: int| 0 <= j < list.len() implies scope.collections.contains(
        #[trigger] list[j],
    ) && list[j].name == names[j] by {
        assert(item(j) == Outcome::<CollectionModel>::Ok(list[j]));
        let wanted = |x: CollectionModel| x.name == names[j];
        first_where_ensures(scope.collections, wanted);
        let at = first_where(scope.collections, wanted)->0;
        assert(wanted(scope.collections[at]));
        assert(list[j] == scope.collections[at]);
    }
    assert forall|a: int, b: int| 0 <= a < b < list.len() implies (#[trigger] list[a]).uid != (
    #[trigger] list[b]).uid || list[a].name == list[b].name by {
        let x = choose|x: int|
            0 <= x < scope.collections.len() && scope.collections[x] == list[a];
        let y = choose|y: int|
            0 <= y < scope.collections.len() && scope.collections[y] == list[b];
        assert(m.scopes[s].collections[x] == list[a]);
        assert(m.scopes[s].collections[y] == list[b]);
        if x < y {
            assert(m.scopes[s].collections[x].uid != m.scopes[s].collections[y].uid);
        } else if y < x {
            assert(m.scopes[s].collections[y].uid != m.scopes[s].collections[x].uid);
        }
    }
    names_are_by_id(list);
    assert(names[k] == configured.collections@[k]@);
    let x = choose|x: int| 0 <= x < scope.collections.len() && scope.collections[x] == list[k];
    if x < c {
        assert(m.scopes[s].collections[x].name != m.scopes[s].collections[c].name);
    } else if c < x {
        assert(m.scopes[s].collections[c].name != m.scopes[s].collections[x].name);
    }
    assert(list[k] == scope.collections[c]);
    assert(uids_of(list)[k] == list[k].uid);
    assert(names_by_id(list).contains_key(list[k].uid));
}

/// A name that the manifest does not hold is refused.
pub proof fn absent_names_are_refused(
    manifest: CollectionManifest,
    configured: CollectionFilter,
    stream_id: Option<u16>,
    result: Result<ResolvedCollectionFilter>,
    sound: Result<()>,
)
    requires
        call_ensures(CollectionManifest::resolve, (&manifest, &configured, stream_id), result),
        call_ensures(CollectionFilter::validate, (&configured,), sound),
    ensures
        sound is Err ==> result is Err,
        (forall|s: int|
            0 <= s < manifest@.scopes.len() ==> (#[trigger] manifest@.scopes[s]).name
                != configured.scope@) ==> result is Err,
        sound is Ok && configured.collections@.len() == 0 && (exists|s: int|
            0 <= s < manifest@.scopes.len() && (#[trigger] manifest@.scopes[s]).name
                == configured.scope@) ==> result is Ok,
{
    let m = manifest@;
    let named = |x: ScopeModel| x.name == configured.scope@;
    first_where_ensures(m.scopes, named);
    if exists|s: int|
        0 <= s < m.scopes.len() && (#[trigger] m.scopes[s]).name == configured.scope@ {
        let s = choose|s: int|
            0 <= s < m.scopes.len() && (#[trigger] m.scopes[s]).name == configured.scope@;
        assert(named(m.scopes[s]));
    } else if result is Ok {
        let i = first_where(m.scopes, named)->0;
        assert(named(m.scopes[i]));
        assert(m.scopes[i].name == configured.scope@);
    }
}

/// A selection hands on the filter that was resolved, names the collections
/// that it knows, and bounds high sequence numbers by its collections only
/// where it names some.
pub proof fn selections_hand_on_the_filter(
    resolved: ResolvedCollectionFilter,
    selection: CollectionSelection,
    filter: Option<&StreamFilter>,
    bound: Option<&[u32]>,
    id: Option<u32>,
    name: Option<&str>,
)
    requires
        call_ensures(CollectionSelection::from_resolved, (resolved,), selection),
        call_ensures(CollectionSelection::stream_filter, (&selection,), filter),
        call_ensures(CollectionSelection::high_seqno_collection_ids, (&selection,), bound),
        call_ensures(CollectionSelection::collection_name, (&selection, id), name),
    ensures
        filter is Some && filter->0@ == resolved@.filter,
        resolved@.collection_ids.len() == 0 ==> bound is None,
        resolved@.collection_ids.len() > 0 ==> bound is Some && bound->0@
            == resolved@.collection_ids,
        id is None ==> name is None,
        id matches Some(i) ==> (name is Some <==> resolved@.names.contains_key(i)),
        id matches Some(i) ==> (name matches Some(text) ==> text@ == resolved@.names[i]),
{
}

/// Without collections on the server only the default collection can be
/// selected; with them the manifest decides. A stream ID needs the accepted
/// control.
pub proof fn selections_are_planned(
    capabilities: BootstrapCapabilities,
    configured: CollectionFilter,
    stream_id: Option<u16>,
    result: Result<SelectionPlan>,
    sound: Result<()>,
)
    requires
        call_ensures(plan_selection, (&capabilities, &configured, stream_id), result),
        call_ensures(CollectionFilter::validate, (&configured,), sound),
    ensures
        sound is Err ==> result is Err,
        stream_id is Some && !capabilities.dcp_controls@.contains(DcpControlFeature::StreamId)
            ==> result is Err,
        sound is Ok && (stream_id is Some ==> capabilities.dcp_controls@.contains(
            DcpControlFeature::StreamId,
        )) ==> {
            let supported = capabilities.hello_features@.contains(HelloFeature::Collections);
            let is_default = configured.scope@ == "_default"@ && (configured.collections@.len() == 0
                || (configured.collections@.len() == 1 && configured.collections@[0]@
                == "_default"@));
            &&& supported ==> (result matches Ok(SelectionPlan::FetchManifest))
            &&& !supported && !is_default ==> (result matches Err(DcpError::Unsupported(_)))
            &&& !supported && is_default ==> (result matches Ok(SelectionPlan::Selected(selection))
                && selection@.resolved is None && selection@.legacy == Some("_default"@))
        },
{
    let list = texts(configured.collections@);
    if configured.collections@.len() == 1 && configured.collections@[0]@ == "_default"@ {
        assert(list =~= seq!["_default"@]);
    }
    if list == seq!["_default"@] {
        assert(list.len() == 1);
        assert(list[0] == "_default"@);
        assert(configured.collections@[0]@ == list[0]);
    }
}

/// Merging keeps for every vBucket the larger of the two numbers.
pub proof fn merged_seqnos_are_the_larger(
    into: &mut BTreeMap<u16, u64>,
    more: BTreeMap<u16, u64>,
    v: u16,
)
    requires
        call_ensures(merge_high_seqnos, (into, &more), ()),
    ensures
        final(into)@.contains_key(v) <==> old(into)@.contains_key(v) || more@.contains_key(v),
        old(into)@.contains_key(v) ==> final(into)@[v] >= old(into)@[v],
        more@.contains_key(v) ==> final(into)@[v] >= more@[v],
        final(into)@.contains_key(v) ==> (old(into)@.contains_key(v) && final(into)@[v] == old(
            into)@[v]) || (more@.contains_key(v) && final(into)@[v] == more@[v]),
{
}

/// A fresh registry knows the selection's names and manifest, and is not
/// stale.
pub proof fn fresh_registry_knows_the_selection(
    selection: CollectionSelection,
    registry: CollectionRegistry,
    status: CollectionRegistryStatus,
)
    requires
        call_ensures(CollectionRegistry::new, (selection,), registry),
        call_ensures(CollectionRegistry::status, (&registry,), status),
    ensures
        registry@.selection == selection@,
        !status.stale,
        selection@.resolved is None ==> status.manifest_uid is None,
        selection@.resolved matches Some(r) ==> status.manifest_uid == Some(r.manifest_uid),
{
}

/// Name that the registry has for a collection.
pub open spec fn known(m: RegistryModel, id: Option<u32>, name: Seq<char>) -> bool {
    match (m.selection.resolved, id) {
        (Some(r), Some(i)) => r.names.contains_key(i) && r.names[i] == name,
        (None, None) => m.selection.legacy == Some(name),
        _ => false,
    }
}

/// A document event leaves the registry with the name of its own collection
/// and is otherwise unchanged; one of an unknown collection is refused; every
/// other event passes as it is.
pub proof fn events_get_the_name_of_their_collection(
    registry: &mut CollectionRegistry,
    event: DcpEvent,
    result: Result<DcpEvent>,
)
    requires
        call_ensures(CollectionRegistry::decorate, (registry, event), result),
    ensures
        result is Err ==> *final(registry) == *old(registry),
        !(event is SystemEvent) ==> *final(registry) == *old(registry),
        event matches DcpEvent::Mutation(e) ==> {
            &&& result is Ok <==> exists|name: Seq<char>| #[trigger]
                known(old(registry)@, e.collection_id, name)
            &&& result matches Ok(DcpEvent::Mutation(d)) ==> {
                &&& d.collection_name is Some
                &&& known(old(registry)@, e.collection_id, d.collection_name->0@)
                &&& d.vbucket == e.vbucket && d.seqno == e.seqno && d.rev_seqno == e.rev_seqno
                &&& d.flags == e.flags && d.expiry == e.expiry && d.lock_time == e.lock_time
                &&& d.cas == e.cas && d.datatype == e.datatype && d.collection_id
                    == e.collection_id
                &&& d.key == e.key && d.value == e.value
            }
            &&& result is Ok ==> result->Ok_0 is Mutation
        },
        event matches DcpEvent::Deletion(e) ==> {
            &&& result is Ok <==> exists|name: Seq<char>| #[trigger]
                known(old(registry)@, e.collection_id, name)
            &&& result matches Ok(DcpEvent::Deletion(d)) ==> {
                &&& d.collection_name is Some
                &&& known(old(registry)@, e.collection_id, d.collection_name->0@)
                &&& d.vbucket == e.vbucket && d.seqno == e.seqno && d.rev_seqno == e.rev_seqno
                &&& d.delete_time == e.delete_time && d.cas == e.cas && d.datatype == e.datatype
                &&& d.collection_id == e.collection_id && d.key == e.key && d.value == e.value
            }
            &&& result is Ok ==> result->Ok_0 is Deletion
        },
        event matches DcpEvent::Expiration(e) ==> {
            &&& result is Ok <==> exists|name: Seq<char>| #[trigger]
                known(old(registry)@, e.collection_id, name)
            &&& result matches Ok(DcpEvent::Expiration(d)) ==> {
                &&& d.collection_name is Some
                &&& known(old(registry)@, e.collection_id, d.collection_name->0@)
                &&& d.vbucket == e.vbucket && d.seqno == e.seqno && d.rev_seqno == e.rev_seqno
                &&& d.delete_time == e.delete_time && d.cas == e.cas && d.datatype == e.datatype
                &&& d.collection_id == e.collection_id && d.key == e.key && d.value == e.value
            }
            &&& result is Ok ==> result->Ok_0 is Expiration
        },
        event is SnapshotMarker || event is StreamEnd || event is SeqNoAdvanced
            || event is OsoSnapshot ==> result is Ok && result->Ok_0 == event,
        event is SystemEvent && result is Ok ==> result->Ok_0 == event,
{
    let m = old(registry)@;
    let id = match event {
        DcpEvent::Mutation(e) => e.collection_id,
        DcpEvent::Deletion(e) => e.collection_id,
        DcpEvent::Expiration(e) => e.collection_id,
        _ => None,
    };
    if let Some(name) = m.selection.name_of(id) {
        assert(known(m, id, name));
    }
    if exists|name: Seq<char>| #[trigger] known(m, id, name) {
        let name = choose|name: Seq<char>| #[trigger] known(m, id, name);
        assert(m.selection.name_of(id) == Some(name));
    }
}

/// A system event is followed once, in the order of the manifests: a
/// collection that is created in the streamed scope gets its name, a dropped
/// one loses it, a dropped scope loses all, and the manifest moves on. An event
/// of an older manifest changes nothing, and so does a refused one.
pub proof fn registry_follows_the_system_events(
    registry: &mut CollectionRegistry,
    event: SystemEvent,
    result: Result<()>,
    observed: u64,
    r: ResolvedModel,
    id: u32,
)
    requires
        call_ensures(CollectionRegistry::apply_system_event, (registry, &event), result),
        old(registry)@.manifest_uid == Some(observed),
        old(registry)@.selection.resolved == Some(r),
    ensures
        result is Err ==> *final(registry) == *old(registry),
        event.manifest_uid <= observed ==> result is Ok && final(registry)@ == old(registry)@,
        event.manifest_uid > observed && result is Ok ==> {
            let names = final(registry)@.selection.resolved->0.names;
            &&& final(registry)@.manifest_uid == Some(event.manifest_uid)
            &&& final(registry)@.selection.resolved is Some
            &&& final(registry)@.selection.resolved->0.scope_id == r.scope_id
            &&& final(registry)@.selection.resolved->0.collection_ids == r.collection_ids
            &&& final(registry)@.selection.resolved->0.filter == r.filter
            &&& final(registry)@.stale <==> old(registry)@.stale || event.kind is Unknown
            &&& match event.kind {
                SystemEventKind::CollectionCreated { scope_id, collection_id, .. } => if scope_id
                    == r.scope_id && r.collection_ids.len() == 0 {
                    &&& valid_utf8(event.key@) && valid_name(decode_utf8(event.key@))
                    &&& names.contains_key(collection_id) && names[collection_id] == decode_utf8(
                        event.key@,
                    )
                    &&& id != collection_id ==> (names.contains_key(id) <==> r.names.contains_key(
                        id,
                    )) && (r.names.contains_key(id) ==> names[id] == r.names[id])
                    &&& id != collection_id && r.names.contains_key(id) ==> r.names[id]
                        != decode_utf8(event.key@)
                    &&& r.names.contains_key(collection_id) ==> r.names[collection_id]
                        == decode_utf8(event.key@)
                } else {
                    names == r.names
                },
                SystemEventKind::CollectionDropped { scope_id, collection_id } => if scope_id
                    == r.scope_id {
                    &&& !names.contains_key(collection_id)
                    &&& id != collection_id ==> (names.contains_key(id) <==> r.names.contains_key(
                        id,
                    )) && (r.names.contains_key(id) ==> names[id] == r.names[id])
                } else {
                    names == r.names
                },
                SystemEventKind::ScopeDropped { scope_id } => if scope_id == r.scope_id {
                    !names.contains_key(id)
                } else {
                    names == r.names
                },
                _ => names == r.names,
            }
        },
        event.manifest_uid > observed ==> match event.kind {
            SystemEventKind::CollectionDropped { scope_id, collection_id } => result is Ok
                <==> scope_id != r.scope_id || r.names.contains_key(collection_id) || (
            r.collection_ids.len() > 0 && !r.collection_ids.contains(collection_id)),
            SystemEventKind::CollectionCreated { scope_id, .. } => scope_id != r.scope_id
                || r.collection_ids.len() > 0 ==> result is Ok,
            _ => result is Ok,
        },
        result matches Err(e) ==> e is Collection,
{
    if event.manifest_uid > observed && result is Ok {
        if let SystemEventKind::CollectionCreated { scope_id, collection_id, .. } = event.kind {
            if scope_id == r.scope_id && r.collection_ids.len() == 0 {
                let name = decode_utf8(event.key@);
                if id != collection_id && r.names.contains_key(id) && r.names[id] == name {
                    assert(crate::collections::taken(r.names, collection_id, name, id));
                }
            }
        }
    }
}

/// A stream without collections has no system events of theirs.
pub proof fn legacy_streams_have_no_system_events(
    registry: &mut CollectionRegistry,
    event: SystemEvent,
    result: Result<()>,
)
    requires
        call_ensures(CollectionRegistry::apply_system_event, (registry, &event), result),
        old(registry)@.selection.resolved is None,
    ensures
        result matches Err(e) && e is Collection,
{
}

} // verus!
