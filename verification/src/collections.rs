//! Collection manifests, stream selections and the collection-name registry.
use std::collections::BTreeMap;
use vstd::prelude::*;
use vstd::utf8::*;

use crate::address::{number_complaint, number_complaint_text};
use crate::auth::yields;
use crate::bootstrap::{BootstrapCapabilities, DcpControlFeature, HelloFeature};
use crate::config::CollectionFilter;
use crate::error::{agrees, checked, malformed_frame, malformed_frame_fault, DcpError, DcpFault, Outcome, Result};
use crate::event::{DcpDeletion, DcpEvent, DcpExpiration, DcpMutation, SystemEvent, SystemEventKind};
use crate::lists::{
    collected, collected_stops, first_fault, first_fault_found, first_where, first_where_is,
    first_where_is_none, no_first_fault,
};
use crate::maps::{ascending_ids, sorted_ids, sorted_keys};
use crate::naming::{is_valid_name, valid_name};
use crate::protocol::{copy_ids, opt_filter, FilterModel, StreamFilter};
use crate::text::{
    dec_opt, dec_opt_text, hex, hex_text, join2, join3, join4, join5, join6, opt_text,
    parse_number, parsed, quoted, quoted_text, same_text, texts, utf8_complaint, utf8_text,
};

verus! {

broadcast use {vstd::std_specs::btree::group_btree_axioms, vstd::laws_cmp::group_laws_cmp};

/// One collection in a Couchbase collection manifest.
#[derive(Debug, Eq, PartialEq)]
pub struct ManifestCollection {
    /// Numeric collection identifier decoded from hexadecimal text.
    pub uid: u32,
    /// Case-sensitive collection name.
    pub name: String,
    /// Collection maximum TTL in seconds; `0` inherits the bucket value.
    pub max_ttl: i32,
    /// Whether change history is enabled when reported by the server.
    pub history: Option<bool>,
}

/// One scope and its collections in a Couchbase manifest.
#[derive(Debug, Eq, PartialEq)]
pub struct ManifestScope {
    /// Numeric scope identifier decoded from hexadecimal text.
    pub uid: u32,
    /// Case-sensitive scope name.
    pub name: String,
    /// Collections currently present in the scope.
    pub collections: Vec<ManifestCollection>,
}

/// Parsed bucket-level collection manifest.
#[derive(Debug, Eq, PartialEq)]
pub struct CollectionManifest {
    /// Monotonic manifest identifier decoded from hexadecimal text.
    pub uid: u64,
    /// Scopes currently present in the bucket.
    pub scopes: Vec<ManifestScope>,
}

/// Collection as the server describes it.
#[derive(Debug)]
pub struct WireCollection {
    /// Hexadecimal identifier.
    pub uid: String,
    /// Collection name.
    pub name: String,
    /// Maximum TTL in seconds.
    pub max_ttl: i32,
    /// Change history, when reported.
    pub history: Option<bool>,
}

/// Scope as the server describes it.
#[derive(Debug)]
pub struct WireScope {
    /// Hexadecimal identifier.
    pub uid: String,
    /// Scope name.
    pub name: String,
    /// Collections of the scope.
    pub collections: Vec<WireCollection>,
}

/// Manifest as the server describes it.
#[derive(Debug)]
pub struct WireManifest {
    /// Hexadecimal identifier.
    pub uid: String,
    /// Scopes of the bucket.
    pub scopes: Vec<WireScope>,
}

/// Content of a collection.
pub struct CollectionModel {
    pub uid: u32,
    pub name: Seq<char>,
    pub max_ttl: i32,
    pub history: Option<bool>,
}

/// Content of a scope.
pub struct ScopeModel {
    pub uid: u32,
    pub name: Seq<char>,
    pub collections: Seq<CollectionModel>,
}

/// Content of a manifest.
pub struct ManifestModel {
    pub uid: u64,
    pub scopes: Seq<ScopeModel>,
}

impl View for ManifestCollection {
    type V = CollectionModel;

    open spec fn view(&self) -> CollectionModel {
        CollectionModel {
            uid: self.uid,
            name: self.name@,
            max_ttl: self.max_ttl,
            history: self.history,
        }
    }
}

/// Contents of a list of collections.
pub open spec fn collections_of(list: Seq<ManifestCollection>) -> Seq<CollectionModel> {
    list.map_values(|c: ManifestCollection| c@)
}

impl View for ManifestScope {
    type V = ScopeModel;

    open spec fn view(&self) -> ScopeModel {
        ScopeModel {
            uid: self.uid,
            name: self.name@,
            collections: collections_of(self.collections@),
        }
    }
}

/// Contents of a list of scopes.
pub open spec fn scopes_of(list: Seq<ManifestScope>) -> Seq<ScopeModel> {
    list.map_values(|s: ManifestScope| s@)
}

impl View for CollectionManifest {
    type V = ManifestModel;

    open spec fn view(&self) -> ManifestModel {
        ManifestModel { uid: self.uid, scopes: scopes_of(self.scopes@) }
    }
}

/// Identifier written in hexadecimal.
pub open spec fn hex_uid(kind: Seq<char>, text: Seq<char>, limit: nat) -> Outcome<nat> {
    match parsed(text, 16, limit) {
        Ok(n) => Ok(n),
        Err(fault) => Err(
            malformed_frame_fault(
                "invalid "@ + kind + " UID "@ + quoted(text) + ": "@ + number_complaint(fault),
            ),
        ),
    }
}

fn parse_hex(kind: &str, text: &str, limit: u64) -> (result: Result<u64>)
    ensures
        match (result, hex_uid(kind@, text@, limit as nat)) {
            (Ok(v), Ok(n)) => v == n && v <= limit,
            (Err(e), Err(fault)) => e@ == fault,
            _ => false,
        },
{
    match parse_number(text, 16, limit) {
        Ok(v) => Ok(v),
        Err(fault) => Err(
            malformed_frame(
                join6(
                    "invalid ",
                    kind,
                    " UID ",
                    quoted_text(text).as_str(),
                    ": ",
                    number_complaint_text(fault),
                ),
            ),
        ),
    }
}

/// Collection that a wire description denotes.
pub open spec fn wire_collection(w: WireCollection) -> Outcome<CollectionModel> {
    match hex_uid("collection"@, w.uid@, u32::MAX as nat) {
        Err(e) => Err(e),
        Ok(uid) => Ok(
            CollectionModel {
                uid: uid as u32,
                name: w.name@,
                max_ttl: w.max_ttl,
                history: w.history,
            },
        ),
    }
}

/// Scope that a wire description denotes.
pub open spec fn wire_scope(w: WireScope) -> Outcome<ScopeModel> {
    match hex_uid("scope"@, w.uid@, u32::MAX as nat) {
        Err(e) => Err(e),
        Ok(uid) => match collected(
            w.collections@.len(),
            |i: int| wire_collection(w.collections@[i]),
        ) {
            Err(e) => Err(e),
            Ok(collections) => Ok(ScopeModel { uid: uid as u32, name: w.name@, collections }),
        },
    }
}

/// Content of a manifest error.
pub open spec fn manifest_fault(message: Seq<char>) -> DcpFault {
    malformed_frame_fault("invalid collection manifest: "@ + message)
}

/// A collection listed before another one.
pub open spec fn listed_before(t: int, d: int, s: int, c: int) -> bool {
    t < s || (t == s && d < c)
}

/// Ambiguity of one collection of a manifest, if any.
pub open spec fn collection_fault(m: ManifestModel, s: int, c: int) -> Option<DcpFault> {
    let scope = m.scopes[s];
    let collection = scope.collections[c];
    if exists|t: int, d: int|
        #![trigger m.scopes[t].collections[d]]
        0 <= t <= s && 0 <= d < m.scopes[t].collections.len() && listed_before(t, d, s, c)
            && m.scopes[t].collections[d].uid == collection.uid {
        Some(manifest_fault("duplicate collection UID 0x"@ + hex(collection.uid as nat)))
    } else if exists|d: int|
        0 <= d < c && (#[trigger] scope.collections[d]).name == collection.name {
        Some(
            manifest_fault(
                "duplicate collection name "@ + quoted(collection.name) + " in scope "@ + quoted(
                    scope.name,
                ),
            ),
        )
    } else {
        None
    }
}

/// Ambiguity of one scope of a manifest, if any.
pub open spec fn scope_fault(m: ManifestModel, s: int) -> Option<DcpFault> {
    let scope = m.scopes[s];
    if exists|t: int| 0 <= t < s && (#[trigger] m.scopes[t]).uid == scope.uid {
        Some(manifest_fault("duplicate scope UID 0x"@ + hex(scope.uid as nat)))
    } else if exists|t: int| 0 <= t < s && (#[trigger] m.scopes[t]).name == scope.name {
        Some(manifest_fault("duplicate scope name "@ + quoted(scope.name)))
    } else {
        first_fault(scope.collections.len(), |c: int| collection_fault(m, s, c))
    }
}

impl ManifestModel {
    /// First ambiguity of the manifest, if any.
    pub open spec fn ambiguity(self) -> Option<DcpFault> {
        first_fault(self.scopes.len(), |s: int| scope_fault(self, s))
    }

    /// Scopes have identifiers and names of their own, and so have
    /// collections: identifiers across the bucket, names within their scope.
    pub open spec fn unambiguous(self) -> bool {
        &&& forall|t: int, s: int|
            0 <= t < s < self.scopes.len() ==> (#[trigger] self.scopes[t]).uid
                != (#[trigger] self.scopes[s]).uid && self.scopes[t].name != self.scopes[s].name
        &&& forall|t: int, d: int, s: int, c: int|
            #![trigger self.scopes[t].collections[d], self.scopes[s].collections[c]]
            0 <= t <= s < self.scopes.len() && 0 <= d < self.scopes[t].collections.len() && 0 <= c
                < self.scopes[s].collections.len() && listed_before(t, d, s, c)
                ==> self.scopes[t].collections[d].uid != self.scopes[s].collections[c].uid && (t
                == s ==> self.scopes[t].collections[d].name != self.scopes[s].collections[c].name)
    }
}

/// A manifest without a fault is unambiguous.
pub proof fn faultless_manifest_is_unambiguous(m: ManifestModel)
    requires
        m.ambiguity() is None,
    ensures
        m.unambiguous(),
{
    let check = |s: int| scope_fault(m, s);
    no_first_fault(m.scopes.len(), check);
    assert forall|t: int, s: int| 0 <= t < s < m.scopes.len() implies (
    #[trigger] m.scopes[t]).uid != (#[trigger] m.scopes[s]).uid && m.scopes[t].name
        != m.scopes[s].name by {
        assert(check(s) is None);
    }
    assert forall|t: int, d: int, s: int, c: int|
        #![trigger m.scopes[t].collections[d], m.scopes[s].collections[c]]
        0 <= t <= s < m.scopes.len() && 0 <= d < m.scopes[t].collections.len() && 0 <= c
            < m.scopes[s].collections.len() && listed_before(
            t,
            d,
            s,
            c,
        ) implies m.scopes[t].collections[d].uid != m.scopes[s].collections[c].uid && (t == s
        ==> m.scopes[t].collections[d].name != m.scopes[s].collections[c].name) by {
        assert(check(s) is None);
        let inner = |c: int| collection_fault(m, s, c);
        no_first_fault(m.scopes[s].collections.len(), inner);
        assert(inner(c) is None);
    }
}

/// Manifest that a wire description denotes.
pub open spec fn wire_manifest(w: WireManifest) -> Outcome<ManifestModel> {
    match hex_uid("manifest"@, w.uid@, u64::MAX as nat) {
        Err(e) => Err(e),
        Ok(uid) => match collected(w.scopes@.len(), |i: int| wire_scope(w.scopes@[i])) {
            Err(e) => Err(e),
            Ok(scopes) => {
                let m = ManifestModel { uid: uid as u64, scopes };
                match m.ambiguity() {
                    Some(fault) => Err(fault),
                    None => Ok(m),
                }
            },
        },
    }
}

impl ManifestCollection {
    fn from_wire(w: &WireCollection) -> (result: Result<Self>)
        ensures
            agrees(result, wire_collection(*w)),
    {
        let uid: u64 = parse_hex("collection", w.uid.as_str(), u32::MAX as u64)?;
        Ok(
            ManifestCollection {
                uid: uid as u32,
                name: w.name.clone(),
                max_ttl: w.max_ttl,
                history: w.history,
            },
        )
    }
}

impl ManifestScope {
    fn from_wire(w: &WireScope) -> (result: Result<Self>)
        ensures
            agrees(result, wire_scope(*w)),
    {
        let uid: u64 = parse_hex("scope", w.uid.as_str(), u32::MAX as u64)?;
        let ghost item = |i: int| wire_collection(w.collections@[i]);
        let mut collections: Vec<ManifestCollection> = Vec::new();
        let mut i: usize = 0;
        assert(collections_of(collections@) =~= Seq::empty());
        while i < w.collections.len()
            invariant
                i <= w.collections@.len(),
                item == (|i: int| wire_collection(w.collections@[i])),
                collected(i as nat, item) == Outcome::<Seq<CollectionModel>>::Ok(
                    collections_of(collections@),
                ),
                hex_uid("scope"@, w.uid@, u32::MAX as nat) == Outcome::<nat>::Ok(uid as nat),
            decreases w.collections@.len() - i,
        {
            match ManifestCollection::from_wire(&w.collections[i]) {
                Err(e) => {
                    proof {
                        assert(item(i as int) == Outcome::<CollectionModel>::Err(e@));
                        assert(collected((i + 1) as nat, item) == Outcome::<
                            Seq<CollectionModel>,
                        >::Err(e@));
                        collected_stops((i + 1) as nat, w.collections@.len(), item);
                    }
                    return Err(e);
                },
                Ok(c) => {
                    let ghost before = collections_of(collections@);
                    assert(item(i as int) == Outcome::<CollectionModel>::Ok(c@));
                    collections.push(c);
                    assert(collections_of(collections@) =~= before.push(c@));
                },
            }
            i = i + 1;
        }
        Ok(ManifestScope { uid: uid as u32, name: w.name.clone(), collections })
    }
}

/// Server-side stream filter resolved from case-sensitive collection names.
#[derive(Clone, Debug, Eq, PartialEq)]
pub struct ResolvedCollectionFilter {
    manifest_uid: u64,
    scope_id: u32,
    collection_ids: Vec<u32>,
    collection_names: BTreeMap<u32, String>,
    stream_filter: StreamFilter,
}

/// Content of a resolved filter.
pub struct ResolvedModel {
    pub manifest_uid: u64,
    pub scope_id: u32,
    pub collection_ids: Seq<u32>,
    pub names: Map<u32, Seq<char>>,
    pub filter: FilterModel,
}

/// Characters of each name of a map.
pub open spec fn name_texts(m: Map<u32, String>) -> Map<u32, Seq<char>> {
    m.map_values(|s: String| s@)
}

impl View for ResolvedCollectionFilter {
    type V = ResolvedModel;

    closed spec fn view(&self) -> ResolvedModel {
        ResolvedModel {
            manifest_uid: self.manifest_uid,
            scope_id: self.scope_id,
            collection_ids: self.collection_ids@,
            names: name_texts(self.collection_names@),
            filter: self.stream_filter@,
        }
    }
}

impl ResolvedCollectionFilter {
    /// Manifest generation used for the complete resolution.
    #[must_use]
    pub fn manifest_uid(&self) -> (result: u64)
        ensures
            result == self@.manifest_uid,
    {
        self.manifest_uid
    }

    /// Resolved scope identifier.
    #[must_use]
    pub fn scope_id(&self) -> (result: u32)
        ensures
            result == self@.scope_id,
    {
        self.scope_id
    }

    /// Collection identifiers in configured order.
    #[must_use]
    pub fn collection_ids(&self) -> (result: &[u32])
        ensures
            result@ == self@.collection_ids,
    {
        self.collection_ids.as_slice()
    }

    /// Resolves a selected collection ID back to its configured name.
    #[must_use]
    pub fn collection_name(&self, collection_id: u32) -> (result: Option<&str>)
        ensures
            match result {
                Some(name) => self@.names.contains_key(collection_id) && self@.names[collection_id]
                    == name@,
                None => !self@.names.contains_key(collection_id),
            },
    {
        match self.collection_names.get(&collection_id) {
            Some(name) => Some(name.as_str()),
            None => None,
        }
    }

    /// Wire-filter template supplied while resolving each vBucket request.
    /// Its manifest UID is deliberately empty until the checkpoint is known.
    #[must_use]
    pub fn stream_filter(&self) -> (result: &StreamFilter)
        ensures
            result@ == self@.filter,
    {
        &self.stream_filter
    }

    /// Consumes the resolved names and returns the wire-filter template.
    #[must_use]
    pub fn into_stream_filter(self) -> (result: StreamFilter)
        ensures
            result@ == self@.filter,
    {
        self.stream_filter
    }
}

/// Names of collections by identifier.
pub open spec fn names_by_id(list: Seq<CollectionModel>) -> Map<u32, Seq<char>>
    decreases list.len(),
{
    if list.len() == 0 {
        Map::empty()
    } else {
        names_by_id(list.drop_last()).insert(list.last().uid, list.last().name)
    }
}

/// Collection of a scope with a name, if there is one.
pub open spec fn named_collection(scope: ScopeModel, name: Seq<char>) -> Option<CollectionModel> {
    match first_where(scope.collections, |c: CollectionModel| c.name == name) {
        Some(i) => Some(scope.collections[i]),
        None => None,
    }
}

/// Collections of a scope with the configured names, in their order.
pub open spec fn named_collections(m: ManifestModel, scope: ScopeModel, names: Seq<Seq<char>>) -> Outcome<
    Seq<CollectionModel>,
> {
    collected(
        names.len(),
        |i: int|
            match named_collection(scope, names[i]) {
                Some(c) => Ok(c),
                None => Err(
                    DcpFault::InvalidConfiguration(
                        "collection "@ + quoted(scope.name) + "."@ + quoted(names[i])
                            + " is not present in manifest 0x"@ + hex(m.uid as nat),
                    ),
                ),
            },
    )
}

/// Identifiers of collections, in order.
pub open spec fn uids_of(list: Seq<CollectionModel>) -> Seq<u32> {
    list.map_values(|c: CollectionModel| c.uid)
}

/// Filter that a configuration resolves to.
pub open spec fn resolution(m: ManifestModel, configured: CollectionFilter, stream_id: Option<u16>) -> Outcome<
    ResolvedModel,
> {
    match configured.fault() {
        Some(fault) => Err(fault),
        None => match first_where(m.scopes, |s: ScopeModel| s.name == configured.scope@) {
            None => Err(
                DcpFault::InvalidConfiguration(
                    "scope "@ + quoted(configured.scope@)
                        + " is not present in collection manifest 0x"@ + hex(m.uid as nat),
                ),
            ),
            Some(i) => {
                let scope = m.scopes[i];
                if configured.collections@.len() == 0 {
                    Ok(
                        ResolvedModel {
                            manifest_uid: m.uid,
                            scope_id: scope.uid,
                            collection_ids: Seq::empty(),
                            names: names_by_id(scope.collections),
                            filter: FilterModel {
                                scope_id: Some(scope.uid),
                                collection_ids: Seq::empty(),
                                manifest_uid: None,
                                stream_id,
                            },
                        },
                    )
                } else {
                    match named_collections(m, scope, texts(configured.collections@)) {
                        Err(e) => Err(e),
                        Ok(list) => Ok(
                            ResolvedModel {
                                manifest_uid: m.uid,
                                scope_id: scope.uid,
                                collection_ids: uids_of(list),
                                names: names_by_id(list),
                                filter: FilterModel {
                                    scope_id: None,
                                    collection_ids: uids_of(list),
                                    manifest_uid: None,
                                    stream_id,
                                },
                            },
                        ),
                    }
                }
            },
        },
    }
}

/// A resolved filter claims no manifest, whichever manifest resolved it.
pub proof fn resolution_claims_no_manifest(
    m: ManifestModel,
    configured: CollectionFilter,
    stream_id: Option<u16>,
)
    requires
        resolution(m, configured, stream_id) is Ok,
    ensures
        resolution(m, configured, stream_id)->Ok_0.filter.manifest_uid is None,
        resolution(m, configured, stream_id)->Ok_0.manifest_uid == m.uid,
        resolution(m, configured, stream_id)->Ok_0.filter.stream_id == stream_id,
        resolution(m, configured, stream_id)->Ok_0.filter.collection_ids == resolution(
            m,
            configured,
            stream_id,
        )->Ok_0.collection_ids,
{
}

fn find_named<'a>(scope: &'a ManifestScope, name: &str) -> (result: Option<&'a ManifestCollection>)
    ensures
        match result {
            Some(c) => named_collection(scope@, name@) == Some(c@),
            None => named_collection(scope@, name@) is None,
        },
{
    let ghost models = collections_of(scope.collections@);
    let ghost p = |c: CollectionModel| c.name == name@;
    let mut i: usize = 0;
    while i < scope.collections.len()
        invariant
            i <= scope.collections@.len(),
            models == collections_of(scope.collections@),
            models == scope@.collections,
            p == (|c: CollectionModel| c.name == name@),
            forall|j: int| 0 <= j < i ==> !p(#[trigger] models[j]),
        decreases scope.collections@.len() - i,
    {
        assert(models[i as int] == scope.collections@[i as int]@);
        if same_text(scope.collections[i].name.as_str(), name) {
            proof {
                first_where_is(models, p, i as int);
            }
            return Some(&scope.collections[i]);
        }
        i = i + 1;
    }
    proof {
        first_where_is_none(models, p);
    }
    None
}

fn insert_name(names: &mut BTreeMap<u32, String>, collection: &ManifestCollection)
    ensures
        name_texts(final(names)@) == name_texts(old(names)@).insert(
            collection.uid,
            collection.name@,
        ),
{
    let ghost before = name_texts(names@);
    names.insert(collection.uid, collection.name.clone());
    assert(name_texts(names@) =~= before.insert(collection.uid, collection.name@));
}

impl CollectionManifest {
    /// Reads the manifest returned by the server.
    pub fn from_wire(w: &WireManifest) -> (result: Result<Self>)
        ensures
            agrees(result, wire_manifest(*w)),
    {
        let uid: u64 = parse_hex("manifest", w.uid.as_str(), u64::MAX)?;
        let ghost item = |i: int| wire_scope(w.scopes@[i]);
        let mut scopes: Vec<ManifestScope> = Vec::new();
        let mut i: usize = 0;
        assert(scopes_of(scopes@) =~= Seq::empty());
        while i < w.scopes.len()
            invariant
                i <= w.scopes@.len(),
                item == (|i: int| wire_scope(w.scopes@[i])),
                collected(i as nat, item) == Outcome::<Seq<ScopeModel>>::Ok(scopes_of(scopes@)),
                hex_uid("manifest"@, w.uid@, u64::MAX as nat) == Outcome::<nat>::Ok(uid as nat),
            decreases w.scopes@.len() - i,
        {
            match ManifestScope::from_wire(&w.scopes[i]) {
                Err(e) => {
                    proof {
                        assert(item(i as int) == Outcome::<ScopeModel>::Err(e@));
                        assert(collected((i + 1) as nat, item) == Outcome::<Seq<ScopeModel>>::Err(
                            e@,
                        ));
                        collected_stops((i + 1) as nat, w.scopes@.len(), item);
                    }
                    return Err(e);
                },
                Ok(s) => {
                    let ghost before = scopes_of(scopes@);
                    assert(item(i as int) == Outcome::<ScopeModel>::Ok(s@));
                    scopes.push(s);
                    assert(scopes_of(scopes@) =~= before.push(s@));
                },
            }
            i = i + 1;
        }
        let manifest = CollectionManifest { uid, scopes };
        manifest.validate_identity()?;
        Ok(manifest)
    }

    fn check_collection(&self, s: usize, c: usize) -> (result: Result<()>)
        requires
            s < self.scopes@.len(),
            c < self.scopes@[s as int].collections@.len(),
        ensures
            checked(result, collection_fault(self@, s as int, c as int)),
    {
        let ghost m = self@;
        assert forall|t: int| 0 <= t < self.scopes@.len() implies #[trigger] m.scopes[t]
            == self.scopes@[t]@ by {}
        let collection = &self.scopes[s].collections[c];
        assert(m.scopes[s as int].collections[c as int] == collection@);
        let count: usize = self.scopes.len();
        let mut t: usize = 0;
        while t <= s
            invariant
                t <= s + 1,
                s < count,
                s < self.scopes@.len(),
                c < self.scopes@[s as int].collections@.len(),
                m == self@,
                collection@ == m.scopes[s as int].collections[c as int],
                forall|x: int, d: int|
                    #![trigger m.scopes[x].collections[d]]
                    0 <= x < t && 0 <= d < m.scopes[x].collections.len() && listed_before(
                        x,
                        d,
                        s as int,
                        c as int,
                    ) ==> m.scopes[x].collections[d].uid != collection@.uid,
            decreases s + 1 - t,
        {
            let limit: usize = if t == s {
                c
            } else {
                self.scopes[t].collections.len()
            };
            let mut d: usize = 0;
            assert(m.scopes[t as int] == self.scopes@[t as int]@);
            while d < limit
                invariant
                    t <= s,
                    s < self.scopes@.len(),
                    c < self.scopes@[s as int].collections@.len(),
                    m == self@,
                    m.scopes[t as int] == self.scopes@[t as int]@,
                    collection@ == m.scopes[s as int].collections[c as int],
                    d <= limit <= self.scopes@[t as int].collections@.len(),
                    t == s ==> limit == c,
                    t < s ==> limit == self.scopes@[t as int].collections@.len(),
                    forall|k: int|
                        0 <= k < d ==> (#[trigger] m.scopes[t as int].collections[k]).uid
                            != collection@.uid,
                decreases limit - d,
            {
                assert(m.scopes[t as int].collections[d as int]
                    == self.scopes@[t as int].collections@[d as int]@);
                if self.scopes[t].collections[d].uid == collection.uid {
                    assert(listed_before(t as int, d as int, s as int, c as int));
                    assert(m.scopes[t as int].collections[d as int].uid == collection@.uid);
                    return Err(
                        manifest_error(
                            join2(
                                "duplicate collection UID 0x",
                                hex_text(collection.uid as u64).as_str(),
                            ),
                        ),
                    );
                }
                d = d + 1;
            }
            t = t + 1;
        }
        assert(!exists|x: int, d: int|
            #![trigger m.scopes[x].collections[d]]
            0 <= x <= s && 0 <= d < m.scopes[x].collections.len() && listed_before(
                x,
                d,
                s as int,
                c as int,
            ) && m.scopes[x].collections[d].uid == collection@.uid);
        let mut d: usize = 0;
        while d < c
            invariant
                d <= c,
                s < self.scopes@.len(),
                c < self.scopes@[s as int].collections@.len(),
                m == self@,
                m.scopes[s as int] == self.scopes@[s as int]@,
                collection@ == m.scopes[s as int].collections[c as int],
                forall|k: int|
                    0 <= k < d ==> (#[trigger] m.scopes[s as int].collections[k]).name
                        != collection@.name,
                !exists|x: int, d: int|
                    #![trigger m.scopes[x].collections[d]]
                    0 <= x <= s && 0 <= d < m.scopes[x].collections.len() && listed_before(
                        x,
                        d,
                        s as int,
                        c as int,
                    ) && m.scopes[x].collections[d].uid == collection@.uid,
            decreases c - d,
        {
            assert(m.scopes[s as int].collections[d as int]
                == self.scopes@[s as int].collections@[d as int]@);
            if same_text(
                self.scopes[s].collections[d].name.as_str(),
                collection.name.as_str(),
            ) {
                assert(m.scopes[s as int].collections[d as int].name == collection@.name);
                return Err(
                    manifest_error(
                        join4(
                            "duplicate collection name ",
                            quoted_text(collection.name.as_str()).as_str(),
                            " in scope ",
                            quoted_text(self.scopes[s].name.as_str()).as_str(),
                        ),
                    ),
                );
            }
            d = d + 1;
        }
        Ok(())
    }

    fn check_scope(&self, s: usize) -> (result: Result<()>)
        requires
            s < self.scopes@.len(),
        ensures
            checked(result, scope_fault(self@, s as int)),
    {
        let ghost m = self@;
        let scope = &self.scopes[s];
        assert(m.scopes[s as int] == scope@);
        let mut t: usize = 0;
        while t < s
            invariant
                t <= s < self.scopes@.len(),
                m == self@,
                m.scopes[s as int] == scope@,
                forall|x: int| 0 <= x < t ==> (#[trigger] m.scopes[x]).uid != scope@.uid,
            decreases s - t,
        {
            assert(m.scopes[t as int] == self.scopes@[t as int]@);
            if self.scopes[t].uid == scope.uid {
                assert(m.scopes[t as int].uid == scope@.uid);
                return Err(
                    manifest_error(
                        join2("duplicate scope UID 0x", hex_text(scope.uid as u64).as_str()),
                    ),
                );
            }
            t = t + 1;
        }
        t = 0;
        while t < s
            invariant
                t <= s < self.scopes@.len(),
                m == self@,
                m.scopes[s as int] == scope@,
                forall|x: int| 0 <= x < s ==> (#[trigger] m.scopes[x]).uid != scope@.uid,
                forall|x: int| 0 <= x < t ==> (#[trigger] m.scopes[x]).name != scope@.name,
            decreases s - t,
        {
            assert(m.scopes[t as int] == self.scopes@[t as int]@);
            if same_text(self.scopes[t].name.as_str(), scope.name.as_str()) {
                assert(m.scopes[t as int].name == scope@.name);
                return Err(
                    manifest_error(
                        join2(
                            "duplicate scope name ",
                            quoted_text(scope.name.as_str()).as_str(),
                        ),
                    ),
                );
            }
            t = t + 1;
        }
        let ghost check = |c: int| collection_fault(m, s as int, c);
        let mut c: usize = 0;
        while c < scope.collections.len()
            invariant
                c <= scope.collections@.len(),
                s < self.scopes@.len(),
                *scope == self.scopes@[s as int],
                m == self@,
                check == (|c: int| collection_fault(m, s as int, c)),
                first_fault(c as nat, check) is None,
                scope_fault(m, s as int) == first_fault(scope.collections@.len(), check),
            decreases scope.collections@.len() - c,
        {
            if let Err(e) = self.check_collection(s, c) {
                proof {
                    assert(check(c as int) == Some(e@));
                    first_fault_found(c as nat, scope.collections@.len(), check);
                }
                return Err(e);
            }
            assert(check(c as int) is None);
            c = c + 1;
        }
        Ok(())
    }

    /// Refuses a manifest with ambiguous identifiers or names.
    pub fn validate_identity(&self) -> (result: Result<()>)
        ensures
            checked(result, self@.ambiguity()),
    {
        let ghost m = self@;
        let ghost check = |s: int| scope_fault(m, s);
        let mut s: usize = 0;
        while s < self.scopes.len()
            invariant
                s <= self.scopes@.len(),
                m == self@,
                check == (|s: int| scope_fault(m, s)),
                first_fault(s as nat, check) is None,
            decreases self.scopes@.len() - s,
        {
            if let Err(e) = self.check_scope(s) {
                proof {
                    assert(check(s as int) == Some(e@));
                    first_fault_found(s as nat, self.scopes@.len(), check);
                }
                return Err(e);
            }
            assert(check(s as int) is None);
            s = s + 1;
        }
        Ok(())
    }

    /// Resolves a configured scope and collection list against this single
    /// manifest generation.
    pub fn resolve(&self, configured: &CollectionFilter, stream_id: Option<u16>) -> (result: Result<
        ResolvedCollectionFilter,
    >)
        ensures
            agrees(result, resolution(self@, *configured, stream_id)),
    {
        configured.validate()?;
        let ghost models = scopes_of(self.scopes@);
        let ghost p = |s: ScopeModel| s.name == configured.scope@;
        let mut at: usize = 0;
        while at < self.scopes.len() && !same_text(
            self.scopes[at].name.as_str(),
            configured.scope.as_str(),
        )
            invariant
                at <= self.scopes@.len(),
                models == scopes_of(self.scopes@),
                p == (|s: ScopeModel| s.name == configured.scope@),
                forall|j: int| 0 <= j < at ==> !p(#[trigger] models[j]),
            decreases self.scopes@.len() - at,
        {
            assert(models[at as int] == self.scopes@[at as int]@);
            at = at + 1;
        }
        if at == self.scopes.len() {
            proof {
                first_where_is_none(models, p);
            }
            return Err(
                DcpError::InvalidConfiguration(
                    join4(
                        "scope ",
                        quoted_text(configured.scope.as_str()).as_str(),
                        " is not present in collection manifest 0x",
                        hex_text(self.uid).as_str(),
                    ),
                ),
            );
        }
        let scope = &self.scopes[at];
        proof {
            assert(models[at as int] == scope@);
            first_where_is(models, p, at as int);
        }
        let mut collection_ids: Vec<u32> = Vec::new();
        let mut collection_names: BTreeMap<u32, String> = BTreeMap::new();
        assert(name_texts(collection_names@) =~= Map::empty());
        let mut i: usize = 0;
        if configured.collections.len() == 0 {
            let ghost all = collections_of(scope.collections@);
            assert(all.take(0) =~= Seq::empty());
            while i < scope.collections.len()
                invariant
                    i <= scope.collections@.len(),
                    all == collections_of(scope.collections@),
                    name_texts(collection_names@) == names_by_id(all.take(i as int)),
                decreases scope.collections@.len() - i,
            {
                assert(all[i as int] == scope.collections@[i as int]@);
                assert(all.take(i + 1).drop_last() =~= all.take(i as int));
                assert(all.take(i + 1).last() == all[i as int]);
                insert_name(&mut collection_names, &scope.collections[i]);
                i = i + 1;
            }
            assert(all.take(all.len() as int) =~= all);
            assert(collection_ids@ =~= Seq::empty());
            return Ok(
                ResolvedCollectionFilter {
                    manifest_uid: self.uid,
                    scope_id: scope.uid,
                    stream_filter: StreamFilter {
                        scope_id: Some(scope.uid),
                        collection_ids: copy_ids(&collection_ids),
                        manifest_uid: None,
                        stream_id,
                    },
                    collection_ids,
                    collection_names,
                },
            );
        }
        let ghost names = texts(configured.collections@);
        let ghost item = |i: int|
            match named_collection(scope@, names[i]) {
                Some(c) => Outcome::<CollectionModel>::Ok(c),
                None => Err(
                    DcpFault::InvalidConfiguration(
                        "collection "@ + quoted(scope@.name) + "."@ + quoted(names[i])
                            + " is not present in manifest 0x"@ + hex(self@.uid as nat),
                    ),
                ),
            };
        let ghost mut found: Seq<CollectionModel> = Seq::empty();
        assert(uids_of(found) =~= collection_ids@);
        proof {
            assert(named_collections(self@, scope@, names) == collected(names.len(), item)) by {
                let other = |i: int|
                    match named_collection(scope@, names[i]) {
                        Some(c) => Outcome::<CollectionModel>::Ok(c),
                        None => Err(
                            DcpFault::InvalidConfiguration(
                                "collection "@ + quoted(scope@.name) + "."@ + quoted(names[i])
                                    + " is not present in manifest 0x"@ + hex(self@.uid as nat),
                            ),
                        ),
                    };
                assert(other =~= item);
            }
        }
        while i < configured.collections.len()
            invariant
                i <= configured.collections@.len(),
                names == texts(configured.collections@),
                scope@.name == configured.scope@,
                item == (|i: int|
                    match named_collection(scope@, names[i]) {
                        Some(c) => Outcome::<CollectionModel>::Ok(c),
                        None => Err(
                            DcpFault::InvalidConfiguration(
                                "collection "@ + quoted(scope@.name) + "."@ + quoted(names[i])
                                    + " is not present in manifest 0x"@ + hex(self@.uid as nat),
                            ),
                        ),
                    }),
                collected(i as nat, item) == Outcome::<Seq<CollectionModel>>::Ok(found),
                collection_ids@ == uids_of(found),
                name_texts(collection_names@) == names_by_id(found),
                named_collections(self@, scope@, names) == collected(names.len(), item),
                configured.fault() is None,
                configured.collections@.len() > 0,
                first_where(self@.scopes, |s: ScopeModel| s.name == configured.scope@) == Some(
                    at as int,
                ),
                self@.scopes[at as int] == scope@,
            decreases configured.collections@.len() - i,
        {
            let name = configured.collections[i].as_str();
            assert(names[i as int] == name@);
            match find_named(scope, name) {
                None => {
                    let e = DcpError::InvalidConfiguration(
                        join6(
                            "collection ",
                            quoted_text(configured.scope.as_str()).as_str(),
                            ".",
                            quoted_text(name).as_str(),
                            " is not present in manifest 0x",
                            hex_text(self.uid).as_str(),
                        ),
                    );
                    proof {
                        assert(item(i as int) == Outcome::<CollectionModel>::Err(e@));
                        assert(collected((i + 1) as nat, item) == Outcome::<
                            Seq<CollectionModel>,
                        >::Err(e@));
                        collected_stops((i + 1) as nat, names.len(), item);
                    }
                    return Err(e);
                },
                Some(collection) => {
                    let ghost grown = found.push(collection@);
                    assert(item(i as int) == Outcome::<CollectionModel>::Ok(collection@));
                    collection_ids.push(collection.uid);
                    insert_name(&mut collection_names, collection);
                    proof {
                        assert(grown.drop_last() =~= found);
                        assert(uids_of(grown) =~= uids_of(found).push(collection@.uid));
                        found = grown;
                    }
                },
            }
            i = i + 1;
        }
        Ok(
            ResolvedCollectionFilter {
                manifest_uid: self.uid,
                scope_id: scope.uid,
                stream_filter: StreamFilter {
                    scope_id: None,
                    collection_ids: copy_ids(&collection_ids),
                    manifest_uid: None,
                    stream_id,
                },
                collection_ids,
                collection_names,
            },
        )
    }
}

fn manifest_error(message: String) -> (result: DcpError)
    ensures
        result@ == manifest_fault(message@),
{
    malformed_frame(join2("invalid collection manifest: ", message.as_str()))
}

/// Effective collection selection for either a collections-aware or legacy
/// server.
#[derive(Clone, Debug, Eq, PartialEq)]
pub struct CollectionSelection {
    resolved: Option<ResolvedCollectionFilter>,
    legacy_collection_name: Option<String>,
}

/// Content of a selection.
pub struct SelectionModel {
    pub resolved: Option<ResolvedModel>,
    pub legacy: Option<Seq<char>>,
}

/// Content of an optional resolved filter.
pub open spec fn opt_resolved(r: Option<ResolvedCollectionFilter>) -> Option<ResolvedModel> {
    match r {
        Some(f) => Some(f@),
        None => None,
    }
}

impl View for CollectionSelection {
    type V = SelectionModel;

    closed spec fn view(&self) -> SelectionModel {
        SelectionModel {
            resolved: opt_resolved(self.resolved),
            legacy: opt_text(self.legacy_collection_name),
        }
    }
}

impl SelectionModel {
    /// Name of the collection of an event; an absent identifier stands for the
    /// only collection of a legacy server.
    pub open spec fn name_of(self, collection_id: Option<u32>) -> Option<Seq<char>> {
        match (collection_id, self.resolved) {
            (Some(id), Some(r)) => if r.names.contains_key(id) {
                Some(r.names[id])
            } else {
                None
            },
            (None, None) => self.legacy,
            _ => None,
        }
    }

    /// Collections whose high sequence numbers bound a finite stream; none
    /// stands for the whole vBucket.
    pub open spec fn bounded_by(self) -> Option<Seq<u32>> {
        match self.resolved {
            Some(r) => if r.collection_ids.len() == 0 {
                None
            } else {
                Some(r.collection_ids)
            },
            None => None,
        }
    }
}

impl CollectionSelection {
    /// Selection of a collections-aware server.
    pub fn from_resolved(resolved: ResolvedCollectionFilter) -> (result: Self)
        ensures
            result@ == (SelectionModel { resolved: Some(resolved@), legacy: None }),
    {
        CollectionSelection { resolved: Some(resolved), legacy_collection_name: None }
    }

    /// Optional wire-filter template. Legacy `_default._default` streams have
    /// none. Resolving a stream request adds the manifest UID observed at each
    /// vBucket checkpoint.
    #[must_use]
    pub fn stream_filter(&self) -> (result: Option<&StreamFilter>)
        ensures
            match (result, self@.resolved) {
                (Some(f), Some(r)) => f@ == r.filter,
                (None, None) => true,
                _ => false,
            },
    {
        match &self.resolved {
            Some(r) => Some(r.stream_filter()),
            None => None,
        }
    }

    /// Resolves an event collection ID, or the absent legacy prefix, to a
    /// configured collection name.
    #[must_use]
    pub fn collection_name(&self, collection_id: Option<u32>) -> (result: Option<&str>)
        ensures
            match result {
                Some(name) => self@.name_of(collection_id) == Some(name@),
                None => self@.name_of(collection_id) is None,
            },
    {
        match (collection_id, &self.resolved) {
            (Some(id), Some(r)) => r.collection_name(id),
            (None, None) => match &self.legacy_collection_name {
                Some(name) => Some(name.as_str()),
                None => None,
            },
            _ => None,
        }
    }

    /// Consumes the selection and returns its optional wire-filter template.
    #[must_use]
    pub fn into_stream_filter(self) -> (result: Option<StreamFilter>)
        ensures
            opt_filter(result) == match self@.resolved {
                Some(r) => Some(r.filter),
                None => None,
            },
    {
        match self.resolved {
            Some(r) => Some(r.into_stream_filter()),
            None => None,
        }
    }

    /// Collections whose high sequence numbers bound a finite stream; none
    /// stands for the whole vBucket, so that system events and filtered
    /// progress can reach a deterministic end.
    pub fn high_seqno_collection_ids(&self) -> (result: Option<&[u32]>)
        ensures
            match result {
                Some(ids) => self@.bounded_by() == Some(ids@),
                None => self@.bounded_by() is None,
            },
    {
        match &self.resolved {
            Some(r) => if r.collection_ids.len() == 0 {
                None
            } else {
                Some(r.collection_ids.as_slice())
            },
            None => None,
        }
    }
}

/// How a selection is obtained.
#[derive(Debug)]
pub enum SelectionPlan {
    /// From the manifest, which has to be fetched.
    FetchManifest,
    /// Without one.
    Selected(CollectionSelection),
}

/// List of quoted names.
pub open spec fn quoted_names(names: Seq<Seq<char>>) -> Seq<char>
    decreases names.len(),
{
    if names.len() == 0 {
        Seq::empty()
    } else if names.len() == 1 {
        quoted(names[0])
    } else {
        quoted_names(names.drop_last()) + ", "@ + quoted(names.last())
    }
}

fn quoted_names_text(names: &Vec<String>) -> (result: String)
    ensures
        result@ == quoted_names(texts(names@)),
{
    let ghost models = texts(names@);
    let mut s = String::new();
    let mut i: usize = 0;
    assert(models.take(0) =~= Seq::empty());
    while i < names.len()
        invariant
            i <= names@.len(),
            models == texts(names@),
            s@ == quoted_names(models.take(i as int)),
        decreases names@.len() - i,
    {
        assert(models[i as int] == names@[i as int]@);
        assert(models.take(i + 1).drop_last() =~= models.take(i as int));
        assert(models.take(i + 1).last() == models[i as int]);
        if i == 0 {
            s = quoted_text(names[0].as_str());
        } else {
            s = join3(s.as_str(), ", ", quoted_text(names[i].as_str()).as_str());
        }
        i = i + 1;
    }
    assert(models.take(models.len() as int) =~= models);
    s
}

/// The configuration asks for the default collection alone.
pub open spec fn asks_default(configured: CollectionFilter) -> bool {
    configured.scope@ == "_default"@ && (configured.collections@.len() == 0 || texts(
        configured.collections@,
    ) == seq!["_default"@])
}

/// Why a selection cannot be obtained, if it cannot.
pub open spec fn selection_fault(
    capabilities: BootstrapCapabilities,
    configured: CollectionFilter,
    stream_id: Option<u16>,
) -> Option<DcpFault> {
    if configured.fault() is Some {
        configured.fault()
    } else if stream_id is Some && !capabilities.dcp_controls@.contains(
        DcpControlFeature::StreamId,
    ) {
        Some(
            DcpFault::Unsupported("stream ID requested but enable_stream_id was not accepted"@),
        )
    } else if capabilities.hello_features@.contains(HelloFeature::Collections) || asks_default(
        configured,
    ) {
        None
    } else {
        Some(
            DcpFault::Unsupported(
                "server did not negotiate collections required by scope "@ + quoted(
                    configured.scope@,
                ) + " and collections ["@ + quoted_names(texts(configured.collections@)) + "]"@,
            ),
        )
    }
}

/// Plans how to obtain a selection. A legacy server is accepted only for the
/// default collection, whose absent identifier is represented without a wire
/// filter.
pub fn plan_selection(
    capabilities: &BootstrapCapabilities,
    configured: &CollectionFilter,
    stream_id: Option<u16>,
) -> (result: Result<SelectionPlan>)
    ensures
        match selection_fault(*capabilities, *configured, stream_id) {
            Some(fault) => result is Err && result->Err_0@ == fault,
            None => if capabilities.hello_features@.contains(HelloFeature::Collections) {
                result matches Ok(SelectionPlan::FetchManifest)
            } else {
                result matches Ok(SelectionPlan::Selected(selection)) && selection@
                    == (SelectionModel { resolved: None, legacy: Some("_default"@) })
            },
        },
{
    configured.validate()?;
    if stream_id.is_some() && !capabilities.supports_control(DcpControlFeature::StreamId) {
        return Err(
            DcpError::Unsupported(
                "stream ID requested but enable_stream_id was not accepted".to_owned(),
            ),
        );
    }
    if capabilities.supports(HelloFeature::Collections) {
        return Ok(SelectionPlan::FetchManifest);
    }
    let ghost names = texts(configured.collections@);
    let default_names: bool = configured.collections.len() == 0 || (configured.collections.len()
        == 1 && same_text(configured.collections[0].as_str(), "_default"));
    proof {
        if names.len() == 1 {
            assert(names[0] == configured.collections@[0]@);
            if names[0] == "_default"@ {
                assert(names =~= seq!["_default"@]);
            }
            if names == seq!["_default"@] {
                assert(names[0] == "_default"@);
            }
        }
    }
    if !same_text(configured.scope.as_str(), "_default") || !default_names {
        return Err(
            DcpError::Unsupported(
                join5(
                    "server did not negotiate collections required by scope ",
                    quoted_text(configured.scope.as_str()).as_str(),
                    " and collections [",
                    quoted_names_text(&configured.collections).as_str(),
                    "]",
                ),
            ),
        );
    }
    Ok(
        SelectionPlan::Selected(
            CollectionSelection {
                resolved: None,
                legacy_collection_name: Some("_default".to_owned()),
            },
        ),
    )
}

/// Larger of two numbers.
pub open spec fn larger(a: u64, b: u64) -> u64 {
    if a < b {
        b
    } else {
        a
    }
}

/// High sequence numbers of both maps, the larger one where both have one.
pub open spec fn merged(a: Map<u16, u64>, b: Map<u16, u64>) -> Map<u16, u64> {
    Map::new(
        |v: u16| a.contains_key(v) || b.contains_key(v),
        |v: u16|
            if a.contains_key(v) && b.contains_key(v) {
                larger(a[v], b[v])
            } else if a.contains_key(v) {
                a[v]
            } else {
                b[v]
            },
    )
}

/// Merges the high sequence numbers of one more collection.
pub fn merge_high_seqnos(into: &mut BTreeMap<u16, u64>, more: &BTreeMap<u16, u64>)
    ensures
        final(into)@ == merged(old(into)@, more@),
{
    let keys = sorted_keys(more);
    let ghost before = into@;
    let mut i: usize = 0;
    while i < keys.len()
        invariant
            i <= keys@.len(),
            crate::maps::ascending(keys@),
            forall|v: u16| keys@.contains(v) <==> #[trigger] more@.contains_key(v),
            forall|v: u16|
                #[trigger] into@.contains_key(v) <==> (before.contains_key(v) || keys@.take(
                    i as int,
                ).contains(v)),
            forall|v: u16| #[trigger]
                into@.contains_key(v) ==> into@[v] == if keys@.take(i as int).contains(v) {
                    merged(before, more@)[v]
                } else {
                    before[v]
                },
        decreases keys@.len() - i,
    {
        let v: u16 = keys[i];
        let ghost done = keys@.take(i as int);
        let ghost next = keys@.take(i + 1);
        let ghost prior = into@;
        assert(keys@.contains(v));
        assert(!done.contains(v)) by {
            if done.contains(v) {
                let k = choose|k: int| 0 <= k < done.len() && done[k] == v;
                assert(keys@[k] < keys@[i as int]);
            }
        }
        match (more.get(&v), into.get(&v)) {
            (Some(seqno), Some(current)) => {
                let top: u64 = if *current < *seqno {
                    *seqno
                } else {
                    *current
                };
                into.insert(v, top);
            },
            (Some(seqno), None) => {
                let top: u64 = *seqno;
                into.insert(v, top);
            },
            _ => {},
        }
        proof {
            assert(next =~= done.push(v));
            assert forall|w: u16|
                #[trigger] into@.contains_key(w) <==> (before.contains_key(w) || next.contains(
                    w,
                )) by {
                if done.contains(w) {
                    let k = choose|k: int| 0 <= k < done.len() && done[k] == w;
                    assert(next[k] == w);
                }
                if w == v {
                    assert(next[i as int] == w);
                }
                if w != v {
                    assert(prior.contains_key(w) <==> into@.contains_key(w));
                }
            }
            assert forall|w: u16| #[trigger] into@.contains_key(w) implies into@[w] == if next.contains(
                w,
            ) {
                merged(before, more@)[w]
            } else {
                before[w]
            } by {
                if w == v {
                    assert(next[i as int] == w);
                } else {
                    assert(prior.contains_key(w));
                    if done.contains(w) {
                        let k = choose|k: int| 0 <= k < done.len() && done[k] == w;
                        assert(next[k] == w);
                    }
                }
            }
        }
        i = i + 1;
    }
    proof {
        assert(keys@.take(keys@.len() as int) =~= keys@);
        assert(into@ =~= merged(before, more@));
    }
}

/// A merge never loses a sequence number: it covers both maps, and none of
/// their values exceeds the merged one.
pub proof fn merge_takes_maximum(a: Map<u16, u64>, b: Map<u16, u64>, v: u16)
    ensures
        merged(a, b).contains_key(v) <==> a.contains_key(v) || b.contains_key(v),
        a.contains_key(v) ==> a[v] <= merged(a, b)[v],
        b.contains_key(v) ==> b[v] <= merged(a, b)[v],
{
}

/// Observable collection-registry freshness.
#[derive(Clone, Copy, Debug, PartialEq, Eq, Structural)]
pub struct CollectionRegistryStatus {
    /// Highest manifest UID applied or deliberately ignored as understood.
    pub manifest_uid: Option<u64>,
    /// Whether a newer unknown event made the name mapping incomplete.
    pub stale: bool,
}

/// Content of the registry.
pub struct RegistryModel {
    pub selection: SelectionModel,
    pub manifest_uid: Option<u64>,
    pub stale: bool,
}

/// Collection-name registry of one stream selection.
#[derive(Debug)]
pub struct CollectionRegistry {
    selection: CollectionSelection,
    observed_manifest_uid: Option<u64>,
    stale: bool,
}

impl View for CollectionRegistry {
    type V = RegistryModel;

    closed spec fn view(&self) -> RegistryModel {
        RegistryModel {
            selection: self.selection@,
            manifest_uid: self.observed_manifest_uid,
            stale: self.stale,
        }
    }
}

/// Content of a collection-state error.
pub open spec fn state_fault(message: Seq<char>) -> DcpFault {
    DcpFault::Collection(message)
}

/// Name in the key of a system event.
pub open spec fn event_name(key: Seq<u8>) -> Outcome<Seq<char>> {
    if !valid_utf8(key) {
        Err(state_fault("system-event name is not UTF-8: "@ + utf8_complaint(key)))
    } else if !valid_name(decode_utf8(key)) {
        Err(
            state_fault(
                "system-event collection name "@ + quoted(decode_utf8(key))
                    + " violates Couchbase naming rules"@,
            ),
        )
    } else {
        Ok(decode_utf8(key))
    }
}

fn parse_system_event_name(key: &Vec<u8>) -> (result: Result<String>)
    ensures
        agrees(result, event_name(key@)),
{
    match utf8_text(key.as_slice()) {
        Err(complaint) => Err(
            DcpError::Collection(
                join2("system-event name is not UTF-8: ", complaint.as_str()),
            ),
        ),
        Ok(name) => {
            if !is_valid_name(name.as_str()) {
                return Err(
                    DcpError::Collection(
                        join3(
                            "system-event collection name ",
                            quoted_text(name.as_str()).as_str(),
                            " violates Couchbase naming rules",
                        ),
                    ),
                );
            }
            Ok(name)
        },
    }
}

/// Another identifier has the name.
pub open spec fn taken(names: Map<u32, Seq<char>>, id: u32, name: Seq<char>, other: u32) -> bool {
    other != id && names.contains_key(other) && names[other] == name
}

/// Smallest other identifier with the name, if there is one.
pub open spec fn holder(names: Map<u32, Seq<char>>, id: u32, name: Seq<char>) -> Option<u32> {
    if exists|other: u32| taken(names, id, name, other) {
        Some(choose|other: u32| least_taken(names, id, name, other))
    } else {
        None
    }
}

/// The identifier is the smallest other one with the name.
pub open spec fn least_taken(
    names: Map<u32, Seq<char>>,
    id: u32,
    name: Seq<char>,
    other: u32,
) -> bool {
    taken(names, id, name, other) && forall|x: u32| #[trigger]
        taken(names, id, name, x) ==> other <= x
}

proof fn holder_is(names: Map<u32, Seq<char>>, id: u32, name: Seq<char>, other: u32)
    requires
        least_taken(names, id, name, other),
    ensures
        holder(names, id, name) == Some(other),
{
    let chosen = choose|o: u32| least_taken(names, id, name, o);
    assert(least_taken(names, id, name, chosen));
    assert(taken(names, id, name, chosen));
    assert(taken(names, id, name, other));
}

fn find_holder(names: &BTreeMap<u32, String>, id: u32, name: &str) -> (result: Option<u32>)
    ensures
        result == holder(name_texts(names@), id, name@),
{
    let ghost map = name_texts(names@);
    let ids = sorted_ids(names);
    let mut i: usize = 0;
    while i < ids.len()
        invariant
            i <= ids@.len(),
            map == name_texts(names@),
            ascending_ids(ids@),
            forall|v: u32| ids@.contains(v) <==> #[trigger] names@.contains_key(v),
            forall|j: int| 0 <= j < i ==> !taken(map, id, name@, #[trigger] ids@[j]),
        decreases ids@.len() - i,
    {
        let other: u32 = ids[i];
        assert(ids@.contains(other));
        if let Some(existing) = names.get(&other) {
            if other != id && same_text(existing.as_str(), name) {
                proof {
                    assert(taken(map, id, name@, other));
                    assert forall|x: u32| #[trigger] taken(map, id, name@, x) implies other
                        <= x by {
                        assert(names@.contains_key(x));
                        assert(ids@.contains(x));
                        let k = choose|k: int| 0 <= k < ids@.len() && ids@[k] == x;
                        if k < i {
                            assert(!taken(map, id, name@, ids@[k]));
                        } else if k > i {
                            assert(ids@[i as int] < ids@[k]);
                        }
                    }
                    holder_is(map, id, name@, other);
                }
                return Some(other);
            }
        }
        i = i + 1;
    }
    proof {
        assert forall|x: u32| !#[trigger] taken(map, id, name@, x) by {
            if taken(map, id, name@, x) {
                assert(names@.contains_key(x));
                assert(ids@.contains(x));
                let k = choose|k: int| 0 <= k < ids@.len() && ids@[k] == x;
                assert(!taken(map, id, name@, ids@[k]));
            }
        }
    }
    None
}

/// Names after the creation of a collection in the scope.
pub open spec fn created(names: Map<u32, Seq<char>>, id: u32, key: Seq<u8>) -> Outcome<
    Map<u32, Seq<char>>,
> {
    match event_name(key) {
        Err(e) => Err(e),
        Ok(name) => if names.contains_key(id) && names[id] != name {
            Err(
                state_fault(
                    "collection ID 0x"@ + hex(id as nat) + " changed name from "@ + quoted(
                        names[id],
                    ) + " to "@ + quoted(name),
                ),
            )
        } else {
            match holder(names, id, name) {
                Some(other) => Err(
                    state_fault(
                        "collection name "@ + quoted(name) + " is already mapped to ID 0x"@ + hex(
                            other as nat,
                        ),
                    ),
                ),
                None => Ok(names.insert(id, name)),
            }
        },
    }
}

/// Names of a resolved selection after a system event that is newer than all
/// before it.
pub open spec fn renamed(r: ResolvedModel, event: SystemEvent) -> Outcome<Map<u32, Seq<char>>> {
    match event.kind {
        SystemEventKind::CollectionCreated { scope_id, collection_id, max_ttl } => if scope_id
            == r.scope_id && r.collection_ids.len() == 0 {
            created(r.names, collection_id, event.key@)
        } else {
            Ok(r.names)
        },
        SystemEventKind::CollectionDropped { scope_id, collection_id } => if scope_id
            != r.scope_id {
            Ok(r.names)
        } else if !r.names.contains_key(collection_id) && (r.collection_ids.len() == 0
            || r.collection_ids.contains(collection_id)) {
            Err(
                state_fault(
                    "dropped collection ID 0x"@ + hex(collection_id as nat)
                        + " was absent from the registry"@,
                ),
            )
        } else {
            Ok(r.names.remove(collection_id))
        },
        SystemEventKind::ScopeDropped { scope_id } => if scope_id == r.scope_id {
            Ok(Map::empty())
        } else {
            Ok(r.names)
        },
        _ => Ok(r.names),
    }
}

/// Registry after a system event, or why the event contradicts it.
pub open spec fn applied(m: RegistryModel, event: SystemEvent) -> Outcome<RegistryModel> {
    match (m.manifest_uid, m.selection.resolved) {
        (Some(observed), Some(r)) => if event.manifest_uid <= observed {
            Ok(m)
        } else {
            match renamed(r, event) {
                Err(e) => Err(e),
                Ok(names) => Ok(
                    RegistryModel {
                        selection: SelectionModel {
                            resolved: Some(ResolvedModel { names, ..r }),
                            ..m.selection
                        },
                        manifest_uid: Some(event.manifest_uid),
                        stale: m.stale || event.kind is Unknown,
                    },
                ),
            }
        },
        _ => Err(state_fault("received a collection system event on a legacy stream"@)),
    }
}

/// The observed manifest never goes back, staleness is never forgotten, and an
/// event that is not newer changes nothing.
pub proof fn registry_moves_forward(m: RegistryModel, event: SystemEvent)
    requires
        applied(m, event) is Ok,
    ensures
        ({
            let n = applied(m, event)->Ok_0;
            &&& m.manifest_uid is Some && n.manifest_uid is Some
            &&& m.manifest_uid->0 <= n.manifest_uid->0
            &&& m.stale ==> n.stale
            &&& event.manifest_uid <= m.manifest_uid->0 ==> n == m
            &&& n.selection.resolved is Some
            &&& n.selection.resolved->0.filter == m.selection.resolved->0.filter
        }),
{
}

/// Name owed to an event.
pub open spec fn owed_name(selection: SelectionModel, collection_id: Option<u32>) -> Outcome<
    Seq<char>,
> {
    match selection.name_of(collection_id) {
        Some(name) => Ok(name),
        None => Err(
            state_fault(
                "event collection ID "@ + dec_opt(
                    match collection_id {
                        Some(id) => Some(id as nat),
                        None => None,
                    },
                ) + " is outside the resolved stream selection"@,
            ),
        ),
    }
}

fn required_collection_name(selection: &CollectionSelection, collection_id: Option<u32>) -> (result:
    Result<String>)
    ensures
        agrees(result, owed_name(selection@, collection_id)),
{
    match selection.collection_name(collection_id) {
        Some(name) => Ok(name.to_owned()),
        None => {
            let id: Option<u64> = match collection_id {
                Some(id) => Some(id as u64),
                None => None,
            };
            Err(
                DcpError::Collection(
                    join3(
                        "event collection ID ",
                        dec_opt_text(id).as_str(),
                        " is outside the resolved stream selection",
                    ),
                ),
            )
        },
    }
}

/// Collection identifier of a document event.
pub open spec fn document_collection(event: DcpEvent) -> Option<Option<u32>> {
    match event {
        DcpEvent::Mutation(e) => Some(e.collection_id),
        DcpEvent::Deletion(e) => Some(e.collection_id),
        DcpEvent::Expiration(e) => Some(e.collection_id),
        _ => None,
    }
}

/// Collection name attached to a document event.
pub open spec fn attached_name(event: DcpEvent) -> Option<Seq<char>> {
    match event {
        DcpEvent::Mutation(e) => opt_text(e.collection_name),
        DcpEvent::Deletion(e) => opt_text(e.collection_name),
        DcpEvent::Expiration(e) => opt_text(e.collection_name),
        _ => None,
    }
}

/// Two events are the same but for the name attached to a document.
pub open spec fn same_but_name(a: DcpEvent, b: DcpEvent) -> bool {
    match (a, b) {
        (DcpEvent::Mutation(x), DcpEvent::Mutation(y)) => x == (DcpMutation {
            collection_name: x.collection_name,
            ..y
        }),
        (DcpEvent::Deletion(x), DcpEvent::Deletion(y)) => x == (DcpDeletion {
            collection_name: x.collection_name,
            ..y
        }),
        (DcpEvent::Expiration(x), DcpEvent::Expiration(y)) => x == (DcpExpiration {
            collection_name: x.collection_name,
            ..y
        }),
        _ => a == b,
    }
}

/// What decorating an event does and yields.
pub open spec fn decoration(
    before: CollectionRegistry,
    after: CollectionRegistry,
    event: DcpEvent,
    result: Result<DcpEvent>,
) -> bool {
    match event {
        DcpEvent::SystemEvent(system_event) => match applied(before@, system_event) {
            Ok(next) => result is Ok && result->Ok_0 == event && after@ == next,
            Err(fault) => result is Err && result->Err_0@ == fault && after == before,
        },
        _ => after == before && match document_collection(event) {
            None => result is Ok && result->Ok_0 == event,
            Some(id) => match owed_name(before@.selection, id) {
                Err(fault) => result is Err && result->Err_0@ == fault,
                Ok(name) => result is Ok && same_but_name(result->Ok_0, event) && attached_name(
                    result->Ok_0,
                ) == Some(name),
            },
        },
    }
}

impl CollectionRegistry {
    /// Creates a registry from one resolved stream selection.
    #[must_use]
    pub fn new(selection: CollectionSelection) -> (result: Self)
        ensures
            result@ == (RegistryModel {
                selection: selection@,
                manifest_uid: match selection@.resolved {
                    Some(r) => Some(r.manifest_uid),
                    None => None,
                },
                stale: false,
            }),
    {
        let observed_manifest_uid: Option<u64> = match &selection.resolved {
            Some(r) => Some(r.manifest_uid()),
            None => None,
        };
        CollectionRegistry { selection, observed_manifest_uid, stale: false }
    }

    /// Returns the current manifest generation and freshness flag.
    pub fn status(&self) -> (result: CollectionRegistryStatus)
        ensures
            result.manifest_uid == self@.manifest_uid,
            result.stale == self@.stale,
    {
        CollectionRegistryStatus {
            manifest_uid: self.observed_manifest_uid,
            stale: self.stale,
        }
    }

    /// Applies a collection or scope event to the name mapping.
    pub fn apply_system_event(&mut self, event: &SystemEvent) -> (result: Result<()>)
        ensures
            match applied(old(self)@, *event) {
                Ok(next) => result is Ok && final(self)@ == next,
                Err(fault) => result is Err && result->Err_0@ == fault && *final(self) == *old(
                    self,
                ),
            },
    {
        let observed: u64 = match self.observed_manifest_uid {
            Some(observed) => observed,
            None => {
                return Err(legacy_error());
            },
        };
        if self.selection.resolved.is_none() {
            return Err(legacy_error());
        }
        if event.manifest_uid <= observed {
            return Ok(());
        }
        match &mut self.selection.resolved {
            None => {},
            Some(r) => {
                let ghost before = *r;
                match &event.kind {
                    SystemEventKind::CollectionCreated { scope_id, collection_id, .. } => {
                        if *scope_id == r.scope_id && r.collection_ids.len() == 0 {
                            let name = parse_system_event_name(&event.key)?;
                            if let Some(existing) = r.collection_names.get(collection_id) {
                                if !same_text(existing.as_str(), name.as_str()) {
                                    return Err(
                                        DcpError::Collection(
                                            join6(
                                                "collection ID 0x",
                                                hex_text(*collection_id as u64).as_str(),
                                                " changed name from ",
                                                quoted_text(existing.as_str()).as_str(),
                                                " to ",
                                                quoted_text(name.as_str()).as_str(),
                                            ),
                                        ),
                                    );
                                }
                            }
                            if let Some(other) = find_holder(
                                &r.collection_names,
                                *collection_id,
                                name.as_str(),
                            ) {
                                return Err(
                                    DcpError::Collection(
                                        join4(
                                            "collection name ",
                                            quoted_text(name.as_str()).as_str(),
                                            " is already mapped to ID 0x",
                                            hex_text(other as u64).as_str(),
                                        ),
                                    ),
                                );
                            }
                            let ghost shown = name@;
                            r.collection_names.insert(*collection_id, name);
                            assert(name_texts(r.collection_names@) =~= name_texts(
                                before.collection_names@,
                            ).insert(*collection_id, shown));
                        }
                    },
                    SystemEventKind::CollectionDropped { scope_id, collection_id } => {
                        if *scope_id == r.scope_id {
                            let was_selected: bool = r.collection_ids.len() == 0 || lists_id(
                                &r.collection_ids,
                                *collection_id,
                            );
                            if !r.collection_names.contains_key(collection_id) && was_selected {
                                return Err(
                                    DcpError::Collection(
                                        join3(
                                            "dropped collection ID 0x",
                                            hex_text(*collection_id as u64).as_str(),
                                            " was absent from the registry",
                                        ),
                                    ),
                                );
                            }
                            r.collection_names.remove(collection_id);
                            assert(name_texts(r.collection_names@) =~= name_texts(
                                before.collection_names@,
                            ).remove(*collection_id));
                        }
                    },
                    SystemEventKind::ScopeDropped { scope_id } => {
                        if *scope_id == r.scope_id {
                            r.collection_names.clear();
                            assert(name_texts(r.collection_names@) =~= Map::empty());
                        }
                    },
                    SystemEventKind::Unknown { .. } => {
                        self.stale = true;
                    },
                    _ => {},
                }
            },
        }
        self.observed_manifest_uid = Some(event.manifest_uid);
        Ok(())
    }

    /// Adds a resolved collection name to one document event, and applies a
    /// system event, which stays visible.
    pub fn decorate(&mut self, event: DcpEvent) -> (result: Result<DcpEvent>)
        ensures
            decoration(*old(self), *final(self), event, result),
    {
        match event {
            DcpEvent::SystemEvent(system_event) => {
                self.apply_system_event(&system_event)?;
                Ok(DcpEvent::SystemEvent(system_event))
            },
            DcpEvent::Mutation(mutation) => {
                let name = required_collection_name(&self.selection, mutation.collection_id)?;
                Ok(
                    DcpEvent::Mutation(DcpMutation { collection_name: Some(name), ..mutation }),
                )
            },
            DcpEvent::Deletion(deletion) => {
                let name = required_collection_name(&self.selection, deletion.collection_id)?;
                Ok(
                    DcpEvent::Deletion(DcpDeletion { collection_name: Some(name), ..deletion }),
                )
            },
            DcpEvent::Expiration(expiration) => {
                let name = required_collection_name(&self.selection, expiration.collection_id)?;
                Ok(
                    DcpEvent::Expiration(
                        DcpExpiration { collection_name: Some(name), ..expiration },
                    ),
                )
            },
            other => Ok(other),
        }
    }
}

fn legacy_error() -> (result: DcpError)
    ensures
        result@ == state_fault("received a collection system event on a legacy stream"@),
{
    DcpError::Collection("received a collection system event on a legacy stream".to_owned())
}

fn lists_id(ids: &Vec<u32>, id: u32) -> (result: bool)
    ensures
        result == ids@.contains(id),
{
    let mut i: usize = 0;
    while i < ids.len()
        invariant
            i <= ids@.len(),
            forall|j: int| 0 <= j < i ==> #[trigger] ids@[j] != id,
        decreases ids@.len() - i,
    {
        if ids[i] == id {
            assert(ids@[i as int] == id);
            return true;
        }
        i = i + 1;
    }
    false
}

} // verus!
