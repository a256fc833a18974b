//! Bucket topology: validated routes, selected endpoints and the impact of a
//! newer configuration.
use std::collections::{BTreeMap, BTreeSet};
use vstd::prelude::*;
use vstd::string::*;

use crate::checkpoint::FailoverEntry;
use crate::error::{
    agrees, checked, malformed_dcp, malformed_dcp_fault, DcpError, DcpFault, Outcome, Result,
};
use crate::lists::{first_where, first_where_is, first_where_is_none};
use crate::maps::{ascending, ascending_count, ascending_is_listed};
use crate::protocol::VBucketSeqno;
use crate::text::{
    dec, dec_text, is_less, join2, join3, join4, opt_text, quoted, quoted_text, same_text, text_less,
    text_less_irreflexive, text_less_total, text_less_transitive,
};

verus! {

broadcast use {vstd::std_specs::btree::group_btree_axioms, vstd::laws_cmp::group_laws_cmp};

/// Stable identity for one KV node across topology revisions.
#[derive(Debug, Eq, PartialEq)]
pub struct NodeId(String);

impl View for NodeId {
    type V = Seq<char>;

    closed spec fn view(&self) -> Seq<char> {
        self.0@
    }
}

impl Clone for NodeId {
    fn clone(&self) -> (result: Self)
        ensures
            result@ == self@,
    {
        NodeId(self.0.clone())
    }
}

impl NodeId {
    /// Identity with the given text.
    pub fn from_text(text: String) -> (result: Self)
        ensures
            result@ == text@,
    {
        NodeId(text)
    }

    /// Opaque node identity, normally a server UUID with a canonical endpoint
    /// fallback for older servers.
    #[must_use]
    pub fn as_str(&self) -> (result: &str)
        ensures
            result@ == self@,
    {
        self.0.as_str()
    }
}

/// Content of a selected endpoint.
pub struct Endpoint {
    pub id: Seq<char>,
    pub address: Seq<char>,
    pub canonical_address: Seq<char>,
    pub server_group: Option<Seq<char>>,
}

/// Selected KV endpoint for one topology node.
#[derive(Debug, Eq, PartialEq)]
pub struct KvEndpoint {
    id: NodeId,
    address: String,
    canonical_address: String,
    server_group: Option<String>,
}

impl View for KvEndpoint {
    type V = Endpoint;

    closed spec fn view(&self) -> Endpoint {
        Endpoint {
            id: self.id@,
            address: self.address@,
            canonical_address: self.canonical_address@,
            server_group: opt_text(self.server_group),
        }
    }
}

impl Clone for KvEndpoint {
    fn clone(&self) -> (result: Self)
        ensures
            result@ == self@,
    {
        KvEndpoint {
            id: self.id.clone(),
            address: self.address.clone(),
            canonical_address: self.canonical_address.clone(),
            server_group: crate::text::copy_opt_text(&self.server_group),
        }
    }
}

impl KvEndpoint {
    /// Endpoint with the given identity and addresses.
    pub fn assemble(
        id: NodeId,
        address: String,
        canonical_address: String,
        server_group: Option<String>,
    ) -> (result: Self)
        ensures
            result@ == (Endpoint {
                id: id@,
                address: address@,
                canonical_address: canonical_address@,
                server_group: opt_text(server_group),
            }),
    {
        KvEndpoint { id, address, canonical_address, server_group }
    }

    /// Stable node identity.
    #[must_use]
    pub fn id(&self) -> (result: &NodeId)
        ensures
            result@ == self@.id,
    {
        &self.id
    }

    /// Dial address selected for the configured network and TLS mode.
    #[must_use]
    pub fn address(&self) -> (result: &str)
        ensures
            result@ == self@.address,
    {
        self.address.as_str()
    }

    /// Default-network address for diagnostics and identity reconciliation.
    #[must_use]
    pub fn canonical_address(&self) -> (result: &str)
        ensures
            result@ == self@.canonical_address,
    {
        self.canonical_address.as_str()
    }

    /// Couchbase server group, when advertised by the cluster.
    #[must_use]
    pub fn server_group(&self) -> (result: Option<&str>)
        ensures
            match result {
                Some(g) => self@.server_group == Some(g@),
                None => self@.server_group is None,
            },
    {
        match &self.server_group {
            Some(g) => Some(g.as_str()),
            None => None,
        }
    }
}

/// Revision tuple used to reject stale topology updates.
#[derive(Clone, Copy, Debug, PartialEq, Eq, Structural)]
pub struct TopologyRevision {
    /// Revision epoch, compared first.
    pub epoch: u64,
    /// Revision number within the epoch.
    pub revision: u64,
}

impl TopologyRevision {
    /// Freshness: a later epoch, or a later or unversioned revision of the
    /// same epoch.
    pub open spec fn newer_than(self, current: Self) -> bool {
        self.epoch > current.epoch || (self.epoch == current.epoch && (self.revision == 0
            || self.revision > current.revision))
    }

    /// Creates a revision tuple.
    #[must_use]
    pub fn new(epoch: u64, revision: u64) -> (result: Self)
        ensures
            result.epoch == epoch,
            result.revision == revision,
    {
        TopologyRevision { epoch, revision }
    }

    /// Revision epoch, compared before the revision number.
    #[must_use]
    pub fn epoch(self) -> (result: u64)
        ensures
            result == self.epoch,
    {
        self.epoch
    }

    /// Revision number within the epoch.
    #[must_use]
    pub fn revision(self) -> (result: u64)
        ensures
            result == self.revision,
    {
        self.revision
    }

    /// Freshness comparison.
    ///
    /// Revision zero is unversioned and is accepted within an equal epoch.
    #[must_use]
    pub fn is_newer_than(self, current: Self) -> (result: bool)
        ensures
            result == self.newer_than(current),
    {
        self.epoch > current.epoch || (self.epoch == current.epoch && (self.revision == 0
            || self.revision > current.revision))
    }
}

/// Freshness of versioned revisions never holds both ways.
pub proof fn freshness_is_asymmetric(a: TopologyRevision, b: TopologyRevision)
    requires
        a.revision != 0,
        b.revision != 0,
        a.newer_than(b),
    ensures
        !b.newer_than(a),
{
}

/// Network address set selected from the alternate addresses.
#[derive(Clone, Debug, Default, Eq, PartialEq)]
pub enum TopologyNetwork {
    /// Use the source endpoint to choose default or external addresses.
    #[default]
    Auto,
    /// Use canonical/default node addresses.
    Default,
    /// Use the conventional `external` alternate address set.
    External,
    /// Use another named alternate address set.
    Named(String),
}

/// Route of one vBucket.
pub struct Route {
    pub active: Seq<char>,
    pub replicas: Seq<Seq<char>>,
}

/// Content of a bucket topology.
pub struct Topology {
    pub bucket: Seq<char>,
    pub bucket_uuid: Option<Seq<char>>,
    pub revision: TopologyRevision,
    pub network: Seq<char>,
    pub endpoints: Set<Endpoint>,
    pub routes: Seq<Route>,
}

impl Topology {
    /// Identities of the nodes.
    pub open spec fn nodes(self) -> Set<Seq<char>> {
        self.endpoints.map(|e: Endpoint| e.id)
    }

    /// The identity names an endpoint with the address.
    pub open spec fn reachable(self, node: Seq<char>, address: Seq<char>) -> bool {
        exists|e: Endpoint| #[trigger]
            self.endpoints.contains(e) && e.id == node && e.address == address
    }

    /// Active node of a vBucket.
    pub open spec fn active_at(self, vbucket: u16) -> Option<Seq<char>> {
        if (vbucket as int) < self.routes.len() {
            Some(self.routes[vbucket as int].active)
        } else {
            None
        }
    }

    /// Routes lead to known nodes, and node identities are unambiguous.
    pub open spec fn coherent(self) -> bool {
        &&& 0 < self.routes.len() <= 0x1_0000
        &&& forall|v: int|
            0 <= v < self.routes.len() ==> self.nodes().contains(#[trigger] self.routes[v].active)
        &&& forall|v: int, r: int|
            0 <= v < self.routes.len() && 0 <= r < self.routes[v].replicas.len()
                ==> self.nodes().contains(#[trigger] self.routes[v].replicas[r])
        &&& forall|a: Endpoint, b: Endpoint| #[trigger]
            self.endpoints.contains(a) && #[trigger] self.endpoints.contains(b) && a.id == b.id
                ==> a == b
    }
}

/// Active and replica nodes of one vBucket.
#[derive(Debug, Eq, PartialEq)]
pub struct VBucketRoute {
    /// Active node.
    pub active: NodeId,
    /// Replica nodes in server preference order.
    pub replicas: Vec<NodeId>,
}

/// Contents of a list of node identities.
pub open spec fn ids_of(nodes: Seq<NodeId>) -> Seq<Seq<char>> {
    nodes.map_values(|n: NodeId| n@)
}

/// Content of a route.
pub open spec fn route_of(route: VBucketRoute) -> Route {
    Route { active: route.active@, replicas: ids_of(route.replicas@) }
}

impl Clone for VBucketRoute {
    fn clone(&self) -> (result: Self)
        ensures
            route_of(result) == route_of(*self),
    {
        let mut replicas: Vec<NodeId> = Vec::new();
        let mut i: usize = 0;
        while i < self.replicas.len()
            invariant
                i <= self.replicas@.len(),
                replicas@.len() == i,
                forall|j: int| 0 <= j < i ==> (#[trigger] replicas@[j])@ == self.replicas@[j]@,
            decreases self.replicas@.len() - i,
        {
            replicas.push(self.replicas[i].clone());
            i = i + 1;
        }
        assert(ids_of(replicas@) =~= ids_of(self.replicas@));
        VBucketRoute { active: self.active.clone(), replicas }
    }
}

/// Contents of a list of routes.
pub open spec fn routes_of(routes: Seq<VBucketRoute>) -> Seq<Route> {
    routes.map_values(|r: VBucketRoute| route_of(r))
}

/// Contents of a list of endpoints.
pub open spec fn endpoints_of(list: Seq<KvEndpoint>) -> Seq<Endpoint> {
    list.map_values(|e: KvEndpoint| e@)
}

/// Endpoints in strictly increasing order of their identity.
pub open spec fn ordered_endpoints(list: Seq<KvEndpoint>) -> bool {
    forall|i: int, j: int|
        0 <= i < j < list.len() ==> text_less(#[trigger] list[i]@.id, #[trigger] list[j]@.id)
}

/// Validated Couchbase bucket topology and active vBucket routes.
#[derive(Debug, Eq, PartialEq)]
pub struct ClusterTopology {
    bucket: String,
    bucket_uuid: Option<String>,
    revision: TopologyRevision,
    network: String,
    endpoints: Vec<KvEndpoint>,
    vbuckets: Vec<VBucketRoute>,
}

impl View for ClusterTopology {
    type V = Topology;

    closed spec fn view(&self) -> Topology {
        Topology {
            bucket: self.bucket@,
            bucket_uuid: opt_text(self.bucket_uuid),
            revision: self.revision,
            network: self.network@,
            endpoints: endpoints_of(self.endpoints@).to_set(),
            routes: routes_of(self.vbuckets@),
        }
    }
}

/// Text of the complaint about a vBucket outside the map.
pub open spec fn absent_vbucket(vbucket: u16) -> DcpFault {
    DcpFault::Topology("vBucket "@ + dec(vbucket as nat) + " is not in the topology"@)
}

fn absent_vbucket_error(vbucket: u16) -> (result: DcpError)
    ensures
        result@ == absent_vbucket(vbucket),
{
    DcpError::Topology(
        join3("vBucket ", dec_text(vbucket as u64).as_str(), " is not in the topology"),
    )
}

/// vBuckets served by one node.
#[derive(Debug, Eq, PartialEq)]
pub struct NodeVBuckets {
    /// Active node.
    pub node: NodeId,
    /// Its vBuckets in increasing order.
    pub vbuckets: Vec<u16>,
}

/// Groups in strictly increasing order of their node, each non-empty and
/// increasing.
pub open spec fn ordered_groups(groups: Seq<NodeVBuckets>) -> bool {
    &&& forall|i: int, j: int|
        0 <= i < j < groups.len() ==> text_less(
            #[trigger] groups[i].node@,
            #[trigger] groups[j].node@,
        )
    &&& forall|i: int|
        0 <= i < groups.len() ==> ascending(#[trigger] groups[i].vbuckets@)
            && groups[i].vbuckets@.len() > 0
}

/// The groups place `vbucket` at `node`.
pub open spec fn places(groups: Seq<NodeVBuckets>, node: Seq<char>, vbucket: u16) -> bool {
    exists|i: int|
        0 <= i < groups.len() && #[trigger] groups[i].node@ == node
            && groups[i].vbuckets@.contains(vbucket)
}

/// Nodes and their vBuckets.
pub open spec fn groups_of(groups: Seq<NodeVBuckets>) -> Seq<(Seq<char>, Seq<u16>)> {
    groups.map_values(|g: NodeVBuckets| (g.node@, g.vbuckets@))
}

/// The groups hold the requested vBuckets, each at its active node.
pub open spec fn groups_requested(
    topology: Topology,
    vbuckets: Seq<u16>,
    groups: Seq<NodeVBuckets>,
) -> bool {
    &&& ordered_groups(groups)
    &&& forall|n: Seq<char>, v: u16|
        #[trigger] places(groups, n, v) <==> (vbuckets.contains(v) && topology.active_at(v)
            == Some(n))
}

/// The groups hold every vBucket at its active node.
pub open spec fn groups_everything(topology: Topology, groups: Seq<NodeVBuckets>) -> bool {
    &&& ordered_groups(groups)
    &&& forall|n: Seq<char>, v: u16|
        #[trigger] places(groups, n, v) <==> topology.active_at(v) == Some(n)
}

/// Number of vBuckets in all groups.
pub open spec fn grouped_count(groups: Seq<NodeVBuckets>) -> nat
    decreases groups.len(),
{
    if groups.len() == 0 {
        0
    } else {
        grouped_count(groups.drop_last()) + groups.last().vbuckets@.len()
    }
}

proof fn group_is_unique(groups: Seq<NodeVBuckets>, i: int, j: int)
    requires
        ordered_groups(groups),
        0 <= i < groups.len(),
        0 <= j < groups.len(),
        groups[i].node@ == groups[j].node@,
    ensures
        i == j,
{
    text_less_irreflexive(groups[i].node@);
    if i < j {
        assert(text_less(groups[i].node@, groups[j].node@));
    } else if j < i {
        assert(text_less(groups[j].node@, groups[i].node@));
    }
}

proof fn group_holds(groups: Seq<NodeVBuckets>, i: int, v: u16)
    requires
        ordered_groups(groups),
        0 <= i < groups.len(),
    ensures
        groups[i].vbuckets@.contains(v) <==> places(groups, groups[i].node@, v),
{
    if places(groups, groups[i].node@, v) {
        let j = choose|j: int|
            0 <= j < groups.len() && #[trigger] groups[j].node@ == groups[i].node@
                && groups[j].vbuckets@.contains(v);
        group_is_unique(groups, i, j);
    }
}

proof fn group_is_found(a: Seq<NodeVBuckets>, b: Seq<NodeVBuckets>, i: int) -> (x: int)
    requires
        ordered_groups(a),
        forall|n: Seq<char>, v: u16| #[trigger] places(a, n, v) ==> places(b, n, v),
        0 <= i < a.len(),
    ensures
        0 <= x < b.len(),
        b[x].node@ == a[i].node@,
{
    let v = a[i].vbuckets@[0];
    assert(ascending(a[i].vbuckets@));
    assert(a[i].vbuckets@.contains(v));
    group_holds(a, i, v);
    assert(places(b, a[i].node@, v));
    choose|x: int|
        0 <= x < b.len() && #[trigger] b[x].node@ == a[i].node@ && b[x].vbuckets@.contains(v)
}

proof fn groups_agree(a: Seq<NodeVBuckets>, b: Seq<NodeVBuckets>, k: int)
    requires
        ordered_groups(a),
        ordered_groups(b),
        forall|n: Seq<char>, v: u16| #[trigger] places(a, n, v) <==> places(b, n, v),
        0 <= k <= a.len(),
    ensures
        k <= b.len(),
        forall|i: int| 0 <= i < k ==> #[trigger] groups_of(a)[i] == groups_of(b)[i],
    decreases k,
{
    if k > 0 {
        let n: int = k - 1;
        groups_agree(a, b, n);
        assert forall|m: Seq<char>, v: u16| #[trigger] places(b, m, v) implies places(a, m, v) by {
            assert(places(a, m, v) <==> places(b, m, v));
        }
        let x = group_is_found(a, b, n);
        if x < n {
            assert(groups_of(a)[x] == groups_of(b)[x]);
            group_is_unique(a, x, n);
        }
        let y = group_is_found(b, a, n);
        if y < n {
            assert(groups_of(a)[y] == groups_of(b)[y]);
            group_is_unique(b, y, n);
        }
        if x > n && y > n {
            assert(text_less(b[n].node@, b[x].node@));
            assert(text_less(a[n].node@, a[y].node@));
            text_less_transitive(a[n].node@, b[n].node@, a[n].node@);
            text_less_irreflexive(a[n].node@);
        }
        assert(a[n].node@ == b[n].node@);
        let set = a[n].vbuckets@.to_set();
        assert forall|v: u16|
            b[n].vbuckets@.contains(v) <==> #[trigger] set.contains(v) by {
            group_holds(a, n, v);
            group_holds(b, n, v);
        }
        assert forall|v: u16|
            a[n].vbuckets@.contains(v) <==> #[trigger] set.contains(v) by {}
        ascending_is_listed(a[n].vbuckets@, set);
        ascending_is_listed(b[n].vbuckets@, set);
    }
}

/// Ordered groups are determined by where they place each vBucket.
pub proof fn groups_are_determined(a: Seq<NodeVBuckets>, b: Seq<NodeVBuckets>)
    requires
        ordered_groups(a),
        ordered_groups(b),
        forall|n: Seq<char>, v: u16| #[trigger] places(a, n, v) <==> places(b, n, v),
    ensures
        groups_of(a) == groups_of(b),
{
    groups_agree(a, b, a.len() as int);
    assert forall|n: Seq<char>, v: u16| #[trigger] places(b, n, v) <==> places(a, n, v) by {
        assert(places(a, n, v) <==> places(b, n, v));
    }
    groups_agree(b, a, b.len() as int);
    assert(groups_of(a) =~= groups_of(b));
}

/// Grouping every vBucket is grouping the vBuckets that a request for all of
/// them names.
pub proof fn everything_is_a_request_for_all(
    topology: Topology,
    vbuckets: Seq<u16>,
    requested: Seq<NodeVBuckets>,
    everything: Seq<NodeVBuckets>,
)
    requires
        forall|v: u16| #[trigger] vbuckets.contains(v) <==> (v as int) < topology.routes.len(),
        groups_requested(topology, vbuckets, requested),
        groups_everything(topology, everything),
    ensures
        groups_of(requested) == groups_of(everything),
{
    assert forall|n: Seq<char>, v: u16|
        #[trigger] places(requested, n, v) <==> places(everything, n, v) by {
        assert(vbuckets.contains(v) <==> (v as int) < topology.routes.len());
    }
    groups_are_determined(requested, everything);
}

/// One of the first groups holds the vBucket.
pub open spec fn grouped_within(groups: Seq<NodeVBuckets>, k: int, v: u16) -> bool {
    exists|i: int| 0 <= i < k && #[trigger] groups[i].vbuckets@.contains(v)
}

spec fn grouped_set(groups: Seq<NodeVBuckets>, k: int) -> Set<u16> {
    Set::new(|v: u16| grouped_within(groups, k, v))
}

proof fn grouped_set_is_counted(topology: Topology, groups: Seq<NodeVBuckets>, k: int)
    requires
        groups_everything(topology, groups),
        0 <= k <= groups.len(),
    ensures
        grouped_set(groups, k).finite(),
        grouped_set(groups, k).len() == grouped_count(groups.take(k)),
    decreases k,
{
    if k == 0 {
        assert(grouped_set(groups, 0) =~= Set::empty());
    } else {
        let n: int = k - 1;
        grouped_set_is_counted(topology, groups, n);
        assert(groups.take(k).drop_last() =~= groups.take(n));
        let list = groups[n].vbuckets@;
        let set = list.to_set();
        assert forall|v: u16| list.contains(v) <==> #[trigger] set.contains(v) by {}
        ascending_count(list, set);
        let before = grouped_set(groups, n);
        assert(before.disjoint(set)) by {
            assert forall|v: u16| before.contains(v) implies !set.contains(v) by {
                if set.contains(v) {
                    let i = choose|i: int| 0 <= i < n && #[trigger] groups[i].vbuckets@.contains(v);
                    group_holds(groups, i, v);
                    group_holds(groups, n, v);
                    group_is_unique(groups, i, n);
                }
            }
        }
        vstd::set_lib::lemma_set_disjoint_lens(before, set);
        assert(grouped_set(groups, k) =~= before + set) by {
            assert forall|v: u16|
                grouped_within(groups, k, v) <==> (grouped_within(groups, n, v) || set.contains(
                    v,
                )) by {
                if grouped_within(groups, k, v) {
                    let i = choose|i: int| 0 <= i < k && #[trigger] groups[i].vbuckets@.contains(v);
                    if i < n {
                        assert(grouped_within(groups, n, v));
                    }
                }
                if grouped_within(groups, n, v) {
                    let i = choose|i: int| 0 <= i < n && #[trigger] groups[i].vbuckets@.contains(v);
                    assert(grouped_within(groups, k, v));
                }
                if set.contains(v) {
                    assert(groups[n].vbuckets@.contains(v));
                }
            }
        }
    }
}

spec fn ids_below(n: nat) -> Set<u16> {
    Set::new(|v: u16| (v as nat) < n)
}

proof fn ids_below_are_counted(n: nat)
    requires
        n <= 0x1_0000,
    ensures
        ids_below(n).finite(),
        ids_below(n).len() == n,
    decreases n,
{
    if n == 0 {
        assert(ids_below(0) =~= Set::empty());
    } else {
        ids_below_are_counted((n - 1) as nat);
        assert(ids_below(n) =~= ids_below((n - 1) as nat).insert((n - 1) as u16));
    }
}

/// Where every vBucket is grouped, each vBucket of the bucket stands in exactly
/// one list, the lists increase strictly, and their lengths add up to the
/// number of vBuckets.
pub proof fn everything_is_grouped_once(topology: Topology, groups: Seq<NodeVBuckets>)
    requires
        topology.routes.len() <= 0x1_0000,
        groups_everything(topology, groups),
    ensures
        forall|i: int|
            0 <= i < groups.len() ==> ascending(#[trigger] groups[i].vbuckets@),
        forall|i: int, v: u16|
            0 <= i < groups.len() && #[trigger] groups[i].vbuckets@.contains(v) ==> (v as int)
                < topology.routes.len() && topology.routes[v as int].active == groups[i].node@,
        forall|v: u16|
            (v as nat) < topology.routes.len() <==> #[trigger] grouped_within(
                groups,
                groups.len() as int,
                v,
            ),
        forall|i: int, j: int, v: u16|
            0 <= i < groups.len() && 0 <= j < groups.len()
                && #[trigger] groups[i].vbuckets@.contains(v)
                && #[trigger] groups[j].vbuckets@.contains(v) ==> i == j,
        grouped_count(groups) == topology.routes.len(),
{
    assert forall|i: int, v: u16|
        0 <= i < groups.len() && #[trigger] groups[i].vbuckets@.contains(v) implies (v as int)
        < topology.routes.len() && topology.routes[v as int].active == groups[i].node@ by {
        group_holds(groups, i, v);
    }
    assert forall|i: int, j: int, v: u16|
        0 <= i < groups.len() && 0 <= j < groups.len()
            && #[trigger] groups[i].vbuckets@.contains(v)
            && #[trigger] groups[j].vbuckets@.contains(v) implies i == j by {
        group_is_unique(groups, i, j);
    }
    let n = groups.len() as int;
    assert forall|v: u16| (v as nat) < topology.routes.len() <==> #[trigger] grouped_within(
        groups,
        n,
        v,
    ) by {
        if (v as nat) < topology.routes.len() {
            let node = topology.routes[v as int].active;
            assert(places(groups, node, v));
            let i = choose|i: int|
                0 <= i < groups.len() && #[trigger] groups[i].node@ == node
                    && groups[i].vbuckets@.contains(v);
            assert(groups[i].vbuckets@.contains(v));
        }
        if grouped_within(groups, n, v) {
            let i = choose|i: int| 0 <= i < n && #[trigger] groups[i].vbuckets@.contains(v);
            group_holds(groups, i, v);
        }
    }
    grouped_set_is_counted(topology, groups, n);
    assert(groups.take(n) =~= groups);
    ids_below_are_counted(topology.routes.len());
    assert(grouped_set(groups, n) =~= ids_below(topology.routes.len()));
}

/// Adds an identifier to an increasing list, once.
pub fn insert_ascending(list: &mut Vec<u16>, id: u16)
    requires
        ascending(old(list)@),
    ensures
        ascending(final(list)@),
        final(list)@.len() > 0,
        forall|v: u16| #[trigger]
            final(list)@.contains(v) <==> (old(list)@.contains(v) || v == id),
{
    let mut at: usize = 0;
    while at < list.len() && list[at] < id
        invariant
            at <= list@.len(),
            list@ == old(list)@,
            forall|j: int| 0 <= j < at ==> #[trigger] list@[j] < id,
        decreases list@.len() - at,
    {
        at = at + 1;
    }
    if at < list.len() && list[at] == id {
        assert(list@.contains(list@[at as int]));
        return ;
    }
    let ghost before = list@;
    list.insert(at, id);
    proof {
        let after = list@;
        assert(before == old(list)@);
        assert(after == before.insert(at as int, id));
        assert forall|i: int, j: int| 0 <= i < j < after.len() implies #[trigger] after[i]
            < #[trigger] after[j] by {
            if at < before.len() {
                assert(before[at as int] > id);
            }
            if j < at {
                assert(before[i] < before[j]);
            } else if j == at {
                assert(before[i] < id);
            } else if i == at {
                assert(after[j] == before[j - 1]);
                if j - 1 > at {
                    assert(before[at as int] < before[j - 1]);
                }
            } else if i < at {
                assert(before[i] < before[j - 1]);
            } else {
                assert(before[i - 1] < before[j - 1]);
            }
        }
        assert forall|v: u16|
            #[trigger] list@.contains(v) <==> (old(list)@.contains(v) || v == id) by {
            inserted_holds(before, at as int, id, v);
        }
    }
}

proof fn inserted_holds(before: Seq<u16>, at: int, id: u16, v: u16)
    requires
        0 <= at <= before.len(),
    ensures
        before.insert(at, id).contains(v) <==> (before.contains(v) || v == id),
{
    let after = before.insert(at, id);
    if before.contains(v) {
        let k = choose|k: int| 0 <= k < before.len() && before[k] == v;
        if k < at {
            assert(after[k] == v);
        } else {
            assert(after[k + 1] == v);
        }
    }
    if v == id {
        assert(after[at] == v);
    }
    if after.contains(v) && v != id {
        let k = choose|k: int| 0 <= k < after.len() && after[k] == v;
        if k < at {
            assert(before[k] == v);
        } else {
            assert(before[k - 1] == v);
        }
    }
}

pub(crate) fn add_to_groups(groups: &mut Vec<NodeVBuckets>, node: &NodeId, vbucket: u16)
    requires
        ordered_groups(old(groups)@),
    ensures
        ordered_groups(final(groups)@),
        forall|n: Seq<char>, v: u16|
            #[trigger] places(final(groups)@, n, v) <==> (places(old(groups)@, n, v) || (n == node@
                && v == vbucket)),
{
    let ghost before = groups@;
    let mut at: usize = 0;
    while at < groups.len() && is_less(groups[at].node.as_str(), node.as_str())
        invariant
            at <= groups@.len(),
            groups@ == before,
            forall|j: int| 0 <= j < at ==> text_less(#[trigger] groups@[j].node@, node@),
        decreases groups@.len() - at,
    {
        at = at + 1;
    }
    proof {
        text_less_irreflexive(node@);
    }
    if at < groups.len() && same_text(groups[at].node.as_str(), node.as_str()) {
        let mut group = groups.remove(at);
        let ghost old_ids = group.vbuckets@;
        assert(ascending(before[at as int].vbuckets@));
        insert_ascending(&mut group.vbuckets, vbucket);
        groups.insert(at, group);
        proof {
            let after = groups@;
            assert(after =~= before.update(at as int, after[at as int]));
            assert forall|i: int, j: int| 0 <= i < j < after.len() implies text_less(
                #[trigger] after[i].node@,
                #[trigger] after[j].node@,
            ) by {
                assert(after[i].node@ == before[i].node@);
                assert(after[j].node@ == before[j].node@);
            }
            assert forall|n: Seq<char>, v: u16|
                #[trigger] places(after, n, v) <==> (places(before, n, v) || (n == node@ && v
                    == vbucket)) by {
                if places(before, n, v) {
                    let k = choose|k: int|
                        0 <= k < before.len() && #[trigger] before[k].node@ == n
                            && before[k].vbuckets@.contains(v);
                    assert(after[k].node@ == n);
                    assert(k == at ==> old_ids.contains(v));
                    assert(after[k].vbuckets@.contains(v));
                }
                if n == node@ && v == vbucket {
                    assert(before[at as int].node@ == n);
                    assert(after[at as int].node@ == n);
                    assert(old_ids.contains(v) || v == vbucket);
                    assert(after[at as int].vbuckets@.contains(v));
                }
                if places(after, n, v) {
                    let k = choose|k: int|
                        0 <= k < after.len() && #[trigger] after[k].node@ == n
                            && after[k].vbuckets@.contains(v);
                    assert(before[k].node@ == n);
                    if k == at {
                        assert(before[at as int].node@ == node@);
                        assert(old_ids.contains(v) || v == vbucket);
                        if old_ids.contains(v) {
                            assert(before[k].vbuckets@.contains(v));
                        }
                    } else {
                        assert(after[k] == before[k]);
                        assert(before[k].vbuckets@.contains(v));
                    }
                }
            }
        }
        return ;
    }
    let mut vbuckets: Vec<u16> = Vec::new();
    vbuckets.push(vbucket);
    let group = NodeVBuckets { node: node.clone(), vbuckets };
    groups.insert(at, group);
    proof {
        let after = groups@;
        let added = after[at as int];
        assert(after =~= before.insert(at as int, added));
        assert(added.vbuckets@ =~= seq![vbucket]);
        assert(added.vbuckets@[0] == vbucket);
        assert forall|i: int, j: int| 0 <= i < j < after.len() implies text_less(
            #[trigger] after[i].node@,
            #[trigger] after[j].node@,
        ) by {
            if at < before.len() {
                text_less_total(before[at as int].node@, node@);
            }
            if j < at {
                assert(text_less(before[i].node@, before[j].node@));
            } else if j == at {
                assert(text_less(before[i].node@, node@));
            } else if i < at {
                assert(text_less(before[i].node@, before[j - 1].node@));
            } else if i > at {
                assert(text_less(before[i - 1].node@, before[j - 1].node@));
            } else {
                assert(after[j] == before[j - 1]);
                if j - 1 > at {
                    assert(text_less(before[at as int].node@, before[j - 1].node@));
                    text_less_transitive(node@, before[at as int].node@, before[j - 1].node@);
                }
            }
        }
        assert forall|i: int| 0 <= i < after.len() implies ascending(#[trigger] after[i].vbuckets@)
            && after[i].vbuckets@.len() > 0 by {
            if i < at {
                assert(after[i] == before[i]);
            } else if i > at {
                assert(after[i] == before[i - 1]);
            }
        }
        assert forall|n: Seq<char>, v: u16|
            #[trigger] places(after, n, v) <==> (places(before, n, v) || (n == node@ && v
                == vbucket)) by {
            if places(before, n, v) {
                let k = choose|k: int|
                    0 <= k < before.len() && #[trigger] before[k].node@ == n
                        && before[k].vbuckets@.contains(v);
                if k < at {
                    assert(after[k].node@ == n && after[k].vbuckets@.contains(v));
                } else {
                    assert(after[k + 1].node@ == n && after[k + 1].vbuckets@.contains(v));
                }
            }
            if n == node@ && v == vbucket {
                assert(after[at as int].node@ == n && after[at as int].vbuckets@.contains(v));
            }
            if places(after, n, v) {
                let k = choose|k: int|
                    0 <= k < after.len() && #[trigger] after[k].node@ == n
                        && after[k].vbuckets@.contains(v);
                if k < at {
                    assert(before[k].node@ == n && before[k].vbuckets@.contains(v));
                } else if k > at {
                    assert(before[k - 1].node@ == n && before[k - 1].vbuckets@.contains(v));
                }
            }
        }
    }
}

/// Position of the first vBucket that the topology lacks, if there is one.
pub open spec fn first_absent(topology: Topology, vbuckets: Seq<u16>) -> Option<int> {
    first_where(vbuckets, |v: u16| topology.active_at(v) is None)
}

/// Every endpoint of the list has an identity of its own.
pub open spec fn distinct_ids(list: Seq<Endpoint>) -> bool {
    forall|i: int, j: int|
        0 <= i < j < list.len() ==> (#[trigger] list[i]).id != (#[trigger] list[j]).id
}

/// Adds an endpoint at its place in the order.
fn insert_endpoint(list: &mut Vec<KvEndpoint>, endpoint: KvEndpoint)
    requires
        ordered_endpoints(old(list)@),
        forall|i: int| 0 <= i < old(list)@.len() ==> (#[trigger] old(list)@[i])@.id != endpoint@.id,
    ensures
        ordered_endpoints(final(list)@),
        endpoints_of(final(list)@).to_set() == endpoints_of(old(list)@).to_set().insert(endpoint@),
{
    let ghost before = list@;
    let mut at: usize = 0;
    while at < list.len() && is_less(list[at].id.as_str(), endpoint.id.as_str())
        invariant
            at <= list@.len(),
            list@ == before,
            forall|j: int| 0 <= j < at ==> text_less((#[trigger] list@[j])@.id, endpoint@.id),
        decreases list@.len() - at,
    {
        at = at + 1;
    }
    let ghost added = endpoint;
    list.insert(at, endpoint);
    proof {
        let after = list@;
        assert(after =~= before.insert(at as int, added));
        assert forall|i: int, j: int| 0 <= i < j < after.len() implies text_less(
            #[trigger] after[i]@.id,
            #[trigger] after[j]@.id,
        ) by {
            if at < before.len() {
                text_less_total(before[at as int]@.id, added@.id);
            }
            if j < at {
                assert(text_less(before[i]@.id, before[j]@.id));
            } else if j == at {
                assert(text_less(before[i]@.id, added@.id));
            } else if i < at {
                assert(text_less(before[i]@.id, before[j - 1]@.id));
            } else if i > at {
                assert(text_less(before[i - 1]@.id, before[j - 1]@.id));
            } else {
                assert(after[j] == before[j - 1]);
                if j - 1 > at {
                    assert(text_less(before[at as int]@.id, before[j - 1]@.id));
                    text_less_transitive(added@.id, before[at as int]@.id, before[j - 1]@.id);
                }
            }
        }
        let models = endpoints_of(before);
        assert(endpoints_of(after) =~= models.insert(at as int, added@));
        let grown = endpoints_of(after);
        assert forall|e: Endpoint| #[trigger] grown.to_set().contains(e) <==> (
        models.to_set().contains(e) || e == added@) by {
            if models.contains(e) {
                let k = choose|k: int| 0 <= k < models.len() && models[k] == e;
                if k < at {
                    assert(grown[k] == e);
                } else {
                    assert(grown[k + 1] == e);
                }
            }
            if e == added@ {
                assert(grown[at as int] == e);
            }
            if grown.contains(e) && e != added@ {
                let k = choose|k: int| 0 <= k < grown.len() && grown[k] == e;
                if k < at {
                    assert(models[k] == e);
                } else {
                    assert(models[k - 1] == e);
                }
            }
        }
        assert(grown.to_set() =~= models.to_set().insert(added@));
    }
}

/// Orders endpoints by identity.
fn sorted_endpoints(list: Vec<KvEndpoint>) -> (result: Vec<KvEndpoint>)
    requires
        distinct_ids(endpoints_of(list@)),
    ensures
        ordered_endpoints(result@),
        endpoints_of(result@).to_set() == endpoints_of(list@).to_set(),
{
    let ghost all = endpoints_of(list@);
    let mut rest = list;
    let mut sorted: Vec<KvEndpoint> = Vec::new();
    assert(endpoints_of(sorted@).to_set() =~= all.skip(rest@.len() as int).to_set());
    while rest.len() > 0
        invariant
            distinct_ids(all),
            rest@.len() <= all.len(),
            endpoints_of(rest@) =~= all.take(rest@.len() as int),
            ordered_endpoints(sorted@),
            endpoints_of(sorted@).to_set() == all.skip(rest@.len() as int).to_set(),
        decreases rest@.len(),
    {
        let ghost n = rest@.len() as int;
        let ghost done = all.skip(n);
        let ghost shorter = rest@.drop_last();
        assert(endpoints_of(rest@)[n - 1] == all[n - 1]);
        let endpoint = rest.pop().unwrap();
        proof {
            assert(endpoint@ == all[n - 1]);
            assert forall|i: int| 0 <= i < sorted@.len() implies (#[trigger] sorted@[i])@.id
                != endpoint@.id by {
                assert(endpoints_of(sorted@)[i] == sorted@[i]@);
                assert(endpoints_of(sorted@).to_set().contains(sorted@[i]@));
                assert(done.contains(sorted@[i]@));
                let k = choose|k: int| 0 <= k < done.len() && done[k] == sorted@[i]@;
                assert(all[n + k] == sorted@[i]@);
            }
        }
        insert_endpoint(&mut sorted, endpoint);
        proof {
            assert(endpoints_of(rest@) =~= all.take(n - 1));
            let grown = all.skip(n - 1);
            assert forall|e: Endpoint| grown.contains(e) <==> (done.contains(e) || e == all[n
                - 1]) by {
                if done.contains(e) {
                    let k = choose|k: int| 0 <= k < done.len() && done[k] == e;
                    assert(grown[k + 1] == e);
                }
                if e == all[n - 1] {
                    assert(grown[0] == e);
                }
                if grown.contains(e) {
                    let k = choose|k: int| 0 <= k < grown.len() && grown[k] == e;
                    if k > 0 {
                        assert(done[k - 1] == e);
                    }
                }
            }
            assert(grown.to_set() =~= done.to_set().insert(all[n - 1]));
        }
    }
    assert(all.skip(0) =~= all);
    sorted
}

impl Clone for ClusterTopology {
    fn clone(&self) -> (result: Self)
        ensures
            result@ == self@,
    {
        proof {
            use_type_invariant(self);
        }
        let mut endpoints: Vec<KvEndpoint> = Vec::new();
        let mut i: usize = 0;
        while i < self.endpoints.len()
            invariant
                i <= self.endpoints@.len(),
                endpoints@.len() == i,
                forall|j: int| 0 <= j < i ==> (#[trigger] endpoints@[j])@ == self.endpoints@[j]@,
            decreases self.endpoints@.len() - i,
        {
            endpoints.push(self.endpoints[i].clone());
            i = i + 1;
        }
        let mut vbuckets: Vec<VBucketRoute> = Vec::new();
        i = 0;
        while i < self.vbuckets.len()
            invariant
                i <= self.vbuckets@.len(),
                vbuckets@.len() == i,
                forall|j: int|
                    0 <= j < i ==> route_of(#[trigger] vbuckets@[j]) == route_of(self.vbuckets@[j]),
            decreases self.vbuckets@.len() - i,
        {
            vbuckets.push(self.vbuckets[i].clone());
            i = i + 1;
        }
        assert(endpoints_of(endpoints@) =~= endpoints_of(self.endpoints@));
        assert(routes_of(vbuckets@) =~= routes_of(self.vbuckets@));
        ClusterTopology {
            bucket: self.bucket.clone(),
            bucket_uuid: crate::text::copy_opt_text(&self.bucket_uuid),
            revision: self.revision,
            network: self.network.clone(),
            endpoints,
            vbuckets,
        }
    }
}

impl ClusterTopology {
    /// Assembles a topology from endpoints in index order and routes.
    pub fn assemble(
        bucket: String,
        bucket_uuid: Option<String>,
        revision: TopologyRevision,
        network: String,
        endpoints: Vec<KvEndpoint>,
        vbuckets: Vec<VBucketRoute>,
    ) -> (result: Self)
        requires
            distinct_ids(endpoints_of(endpoints@)),
            (Topology {
                bucket: bucket@,
                bucket_uuid: opt_text(bucket_uuid),
                revision,
                network: network@,
                endpoints: endpoints_of(endpoints@).to_set(),
                routes: routes_of(vbuckets@),
            }).coherent(),
        ensures
            result@ == (Topology {
                bucket: bucket@,
                bucket_uuid: opt_text(bucket_uuid),
                revision,
                network: network@,
                endpoints: endpoints_of(endpoints@).to_set(),
                routes: routes_of(vbuckets@),
            }),
    {
        let endpoints = sorted_endpoints(endpoints);
        ClusterTopology { bucket, bucket_uuid, revision, network, endpoints, vbuckets }
    }

    #[verifier::type_invariant]
    closed spec fn routed(&self) -> bool {
        &&& self@.coherent()
        &&& ordered_endpoints(self.endpoints@)
    }

    /// Bucket name carried by this config.
    #[must_use]
    pub fn bucket(&self) -> (result: &str)
        ensures
            result@ == self@.bucket,
    {
        self.bucket.as_str()
    }

    /// Stable bucket UUID, when present on the server version.
    #[must_use]
    pub fn bucket_uuid(&self) -> (result: Option<&str>)
        ensures
            match result {
                Some(uuid) => self@.bucket_uuid == Some(uuid@),
                None => self@.bucket_uuid is None,
            },
    {
        match &self.bucket_uuid {
            Some(uuid) => Some(uuid.as_str()),
            None => None,
        }
    }

    /// Revision tuple.
    #[must_use]
    pub fn revision(&self) -> (result: TopologyRevision)
        ensures
            result == self@.revision,
    {
        self.revision
    }

    /// Resolved address-set name (`default`, `external`, or custom).
    #[must_use]
    pub fn network(&self) -> (result: &str)
        ensures
            result@ == self@.network,
    {
        self.network.as_str()
    }

    /// KV endpoints in increasing order of their identity.
    #[must_use]
    pub fn endpoints(&self) -> (result: &Vec<KvEndpoint>)
        ensures
            ordered_endpoints(result@),
            endpoints_of(result@).to_set() == self@.endpoints,
            self@.coherent(),
    {
        proof {
            use_type_invariant(self);
        }
        &self.endpoints
    }

    /// Endpoint of a node, if the node is known.
    pub fn endpoint(&self, node: &str) -> (result: Option<&KvEndpoint>)
        ensures
            match result {
                Some(e) => self@.endpoints.contains(e@) && e@.id == node@,
                None => !self@.nodes().contains(node@),
            },
    {
        let mut i: usize = 0;
        while i < self.endpoints.len()
            invariant
                i <= self.endpoints@.len(),
                forall|j: int| 0 <= j < i ==> (#[trigger] self.endpoints@[j])@.id != node@,
            decreases self.endpoints@.len() - i,
        {
            if same_text(self.endpoints[i].id.as_str(), node) {
                proof {
                    assert(endpoints_of(self.endpoints@)[i as int] == self.endpoints@[i as int]@);
                }
                return Some(&self.endpoints[i]);
            }
            i = i + 1;
        }
        proof {
            assert forall|e: Endpoint| #[trigger] self@.endpoints.contains(e) implies e.id
                != node@ by {
                let list = endpoints_of(self.endpoints@);
                assert(list.contains(e));
                let k = choose|k: int| 0 <= k < list.len() && list[k] == e;
                assert(self.endpoints@[k]@ == e);
            }
        }
        None
    }

    /// Number of vBuckets in the bucket map.
    #[must_use]
    pub fn num_vbuckets(&self) -> (result: usize)
        ensures
            result == self@.routes.len(),
            0 < result <= 0x1_0000,
    {
        proof {
            use_type_invariant(self);
        }
        self.vbuckets.len()
    }

    /// Active node identity for one vBucket.
    pub fn active_node(&self, vbucket: u16) -> (result: Result<&NodeId>)
        ensures
            match result {
                Ok(node) => self@.active_at(vbucket) == Some(node@) && self@.nodes().contains(
                    node@,
                ),
                Err(e) => self@.active_at(vbucket) is None && e@ == absent_vbucket(vbucket),
            },
    {
        proof {
            use_type_invariant(self);
        }
        if (vbucket as usize) < self.vbuckets.len() {
            assert(self@.nodes().contains(self@.routes[vbucket as int].active));
            Ok(&self.vbuckets[vbucket as usize].active)
        } else {
            Err(absent_vbucket_error(vbucket))
        }
    }

    /// Replica node identities for one vBucket, in server preference order.
    pub fn replica_nodes(&self, vbucket: u16) -> (result: Result<&[NodeId]>)
        ensures
            match result {
                Ok(nodes) => {
                    &&& (vbucket as int) < self@.routes.len()
                    &&& ids_of(nodes@) == self@.routes[vbucket as int].replicas
                },
                Err(e) => vbucket as int >= self@.routes.len() && e@ == absent_vbucket(vbucket),
            },
    {
        if (vbucket as usize) < self.vbuckets.len() {
            proof {
                assert(self@.routes[vbucket as int] == route_of(self.vbuckets@[vbucket as int]));
            }
            Ok(self.vbuckets[vbucket as usize].replicas.as_slice())
        } else {
            Err(absent_vbucket_error(vbucket))
        }
    }

    /// Endpoint currently active for one vBucket.
    pub fn active_endpoint(&self, vbucket: u16) -> (result: Result<&KvEndpoint>)
        ensures
            match result {
                Ok(endpoint) => {
                    &&& self@.active_at(vbucket) == Some(endpoint@.id)
                    &&& self@.endpoints.contains(endpoint@)
                },
                Err(e) => self@.active_at(vbucket) is None && e@ == absent_vbucket(vbucket),
            },
    {
        let node = self.active_node(vbucket)?;
        match self.endpoint(node.as_str()) {
            Some(endpoint) => Ok(endpoint),
            None => Err(absent_vbucket_error(vbucket)),
        }
    }

    /// Groups a requested vBucket set by active KV node.
    pub fn active_vbuckets_by_node(&self, vbuckets: &[u16]) -> (result: Result<Vec<NodeVBuckets>>)
        ensures
            match result {
                Ok(groups) => {
                    &&& first_absent(self@, vbuckets@) is None
                    &&& groups_requested(self@, vbuckets@, groups@)
                },
                Err(e) => match first_absent(self@, vbuckets@) {
                    Some(i) => 0 <= i < vbuckets@.len() && e@ == absent_vbucket(vbuckets@[i]),
                    None => false,
                },
            },
    {
        let mut groups: Vec<NodeVBuckets> = Vec::new();
        let mut i: usize = 0;
        while i < vbuckets.len()
            invariant
                i <= vbuckets@.len(),
                forall|j: int|
                    0 <= j < i ==> self@.active_at(#[trigger] vbuckets@[j]) is Some,
                ordered_groups(groups@),
                forall|n: Seq<char>, v: u16|
                    #[trigger] places(groups@, n, v) <==> (vbuckets@.take(i as int).contains(v)
                        && self@.active_at(v) == Some(n)),
            decreases vbuckets@.len() - i,
        {
            let v: u16 = vbuckets[i];
            let ghost before = vbuckets@.take(i as int);
            let ghost after = vbuckets@.take(i + 1);
            assert(after.drop_last() =~= before);
            assert(after.last() == v);
            match self.active_node(v) {
                Err(e) => {
                    proof {
                        first_where_is(
                            vbuckets@,
                            |v: u16| self@.active_at(v) is None,
                            i as int,
                        );
                    }
                    return Err(e);
                },
                Ok(node) => {
                    add_to_groups(&mut groups, node, v);
                    proof {
                        assert forall|n: Seq<char>, w: u16|
                            #[trigger] places(groups@, n, w) <==> (after.contains(w)
                                && self@.active_at(w) == Some(n)) by {
                            assert(after =~= before.push(v));
                            if before.contains(w) {
                                let k = choose|k: int| 0 <= k < before.len() && before[k] == w;
                                assert(after[k] == w);
                            }
                            if w == v {
                                assert(after[i as int] == w);
                            }
                        }
                    }
                },
            }
            i = i + 1;
        }
        assert(vbuckets@.take(vbuckets@.len() as int) =~= vbuckets@);
        proof {
            first_where_is_none(vbuckets@, |v: u16| self@.active_at(v) is None);
        }
        Ok(groups)
    }

    /// Groups every vBucket by active KV node.
    #[must_use]
    pub fn all_active_vbuckets_by_node(&self) -> (result: Vec<NodeVBuckets>)
        ensures
            groups_everything(self@, result@),
            grouped_count(result@) == self@.routes.len(),
    {
        let mut groups: Vec<NodeVBuckets> = Vec::new();
        let count: usize = self.num_vbuckets();
        let mut v: usize = 0;
        while v < count
            invariant
                v <= count <= 0x1_0000,
                count == self.vbuckets@.len(),
                count == self@.routes.len(),
                ordered_groups(groups@),
                forall|n: Seq<char>, w: u16|
                    #[trigger] places(groups@, n, w) <==> (w < v && self@.active_at(w) == Some(n)),
            decreases count - v,
        {
            assert(self@.routes[v as int].active == self.vbuckets@[v as int].active@);
            add_to_groups(&mut groups, &self.vbuckets[v].active, v as u16);
            v = v + 1;
        }
        proof {
            everything_is_grouped_once(self@, groups@);
        }
        groups
    }
}

/// Identities in strictly increasing order.
pub open spec fn ordered_nodes(list: Seq<NodeId>) -> bool {
    forall|i: int, j: int|
        0 <= i < j < list.len() ==> text_less(#[trigger] list[i]@, #[trigger] list[j]@)
}

/// Work produced by a topology update.
pub struct Impact {
    pub added_nodes: Set<Seq<char>>,
    pub removed_nodes: Set<Seq<char>>,
    pub reconnect_nodes: Set<Seq<char>>,
    pub rerouted_vbuckets: Set<u16>,
}

/// Impact of replacing one topology by another.
pub open spec fn impact(current: Topology, candidate: Topology) -> Impact {
    Impact {
        added_nodes: candidate.nodes().difference(current.nodes()),
        removed_nodes: current.nodes().difference(candidate.nodes()),
        reconnect_nodes: candidate.nodes().filter(
            |n: Seq<char>|
                !exists|a: Seq<char>|
                    #![trigger current.reachable(n, a)]
                    current.reachable(n, a) && candidate.reachable(n, a),
        ),
        rerouted_vbuckets: Set::new(
            |v: u16| current.active_at(v) != candidate.active_at(v),
        ),
    }
}

/// Replacing a topology by one with the same endpoints and routes has no
/// impact.
pub proof fn same_topology_has_no_impact(current: Topology, candidate: Topology)
    requires
        current.endpoints == candidate.endpoints,
        current.routes == candidate.routes,
    ensures
        impact(current, candidate).added_nodes == Set::<Seq<char>>::empty(),
        impact(current, candidate).removed_nodes == Set::<Seq<char>>::empty(),
        impact(current, candidate).reconnect_nodes == Set::<Seq<char>>::empty(),
        impact(current, candidate).rerouted_vbuckets == Set::<u16>::empty(),
{
    let i = impact(current, candidate);
    assert(i.added_nodes =~= Set::empty());
    assert(i.removed_nodes =~= Set::empty());
    assert forall|n: Seq<char>| !#[trigger] i.reconnect_nodes.contains(n) by {
        if candidate.nodes().contains(n) {
            let e = choose|e: Endpoint| candidate.endpoints.contains(e) && e.id == n;
            assert(current.reachable(n, e.address));
        }
    }
    assert(i.reconnect_nodes =~= Set::empty());
    assert(i.rerouted_vbuckets =~= Set::empty());
}

/// Reconnection and stream-reopen work produced by a topology update.
#[derive(Debug, Eq, PartialEq)]
pub struct TopologyChange {
    generation: u64,
    added_nodes: Vec<NodeId>,
    removed_nodes: Vec<NodeId>,
    reconnect_nodes: Vec<NodeId>,
    rerouted_vbuckets: BTreeSet<u16>,
}

impl TopologyChange {
    /// Generation after the update.
    pub closed spec fn fence(&self) -> u64 {
        self.generation
    }

    /// Work produced by the update.
    pub closed spec fn work(&self) -> Impact {
        Impact {
            added_nodes: ids_of(self.added_nodes@).to_set(),
            removed_nodes: ids_of(self.removed_nodes@).to_set(),
            reconnect_nodes: ids_of(self.reconnect_nodes@).to_set(),
            rerouted_vbuckets: self.rerouted_vbuckets@,
        }
    }

    #[verifier::type_invariant]
    closed spec fn ordered(&self) -> bool {
        &&& ordered_nodes(self.added_nodes@)
        &&& ordered_nodes(self.removed_nodes@)
        &&& ordered_nodes(self.reconnect_nodes@)
    }

    /// Monotonic local topology generation after the update.
    #[must_use]
    pub fn generation(&self) -> (result: u64)
        ensures
            result == self.fence(),
    {
        self.generation
    }

    /// Nodes newly present in the config.
    #[must_use]
    pub fn added_nodes(&self) -> (result: &Vec<NodeId>)
        ensures
            ordered_nodes(result@),
            ids_of(result@).to_set() == self.work().added_nodes,
    {
        proof {
            use_type_invariant(self);
        }
        &self.added_nodes
    }

    /// Nodes no longer present in the config.
    #[must_use]
    pub fn removed_nodes(&self) -> (result: &Vec<NodeId>)
        ensures
            ordered_nodes(result@),
            ids_of(result@).to_set() == self.work().removed_nodes,
    {
        proof {
            use_type_invariant(self);
        }
        &self.removed_nodes
    }

    /// New nodes and existing nodes whose selected dial address changed.
    #[must_use]
    pub fn reconnect_nodes(&self) -> (result: &Vec<NodeId>)
        ensures
            ordered_nodes(result@),
            ids_of(result@).to_set() == self.work().reconnect_nodes,
    {
        proof {
            use_type_invariant(self);
        }
        &self.reconnect_nodes
    }

    /// vBuckets whose active node changed, appeared, or disappeared.
    #[must_use]
    pub fn rerouted_vbuckets(&self) -> (result: &BTreeSet<u16>)
        ensures
            result@ == self.work().rerouted_vbuckets,
    {
        &self.rerouted_vbuckets
    }
}

fn push_node(list: &mut Vec<NodeId>, node: NodeId)
    requires
        ordered_nodes(old(list)@),
        forall|i: int| 0 <= i < old(list)@.len() ==> text_less(#[trigger] old(list)@[i]@, node@),
    ensures
        ordered_nodes(final(list)@),
        ids_of(final(list)@).to_set() == ids_of(old(list)@).to_set().insert(node@),
        final(list)@ == old(list)@.push(node),
{
    let ghost before = ids_of(list@);
    list.push(node);
    proof {
        let after = ids_of(list@);
        assert(after =~= before.push(node@));
        assert forall|n: Seq<char>| after.contains(n) <==> (before.contains(n) || n == node@) by {
            if before.contains(n) {
                let k = choose|k: int| 0 <= k < before.len() && before[k] == n;
                assert(after[k] == n);
            }
            if n == node@ {
                assert(after[before.len() as int] == n);
            }
        }
        assert(after.to_set() =~= before.to_set().insert(node@));
    }
}

/// The nodes of a list of endpoints.
spec fn nodes_upto(list: Seq<KvEndpoint>, n: int) -> Set<Seq<char>> {
    Set::new(|id: Seq<char>| exists|j: int| 0 <= j < n && (#[trigger] list[j])@.id == id)
}

proof fn nodes_are_listed(topology: Topology, list: Seq<KvEndpoint>)
    requires
        topology.endpoints == endpoints_of(list).to_set(),
    ensures
        topology.nodes() == nodes_upto(list, list.len() as int),
{
    let models = endpoints_of(list);
    assert forall|id: Seq<char>| topology.nodes().contains(id) <==> nodes_upto(
        list,
        list.len() as int,
    ).contains(id) by {
        if topology.nodes().contains(id) {
            let e = choose|e: Endpoint| topology.endpoints.contains(e) && e.id == id;
            assert(models.contains(e));
            let k = choose|k: int| 0 <= k < models.len() && models[k] == e;
            assert(list[k]@.id == id);
        }
        if nodes_upto(list, list.len() as int).contains(id) {
            let j = choose|j: int| 0 <= j < list.len() && (#[trigger] list[j])@.id == id;
            assert(models[j] == list[j]@);
            assert(models.contains(list[j]@));
            assert(topology.endpoints.contains(list[j]@));
        }
    }
    assert(topology.nodes() =~= nodes_upto(list, list.len() as int));
}

proof fn listed_before(list: Seq<KvEndpoint>, i: int, ids: Seq<NodeId>)
    requires
        ordered_endpoints(list),
        0 <= i < list.len(),
        ids_of(ids).to_set().subset_of(nodes_upto(list, i)),
    ensures
        forall|k: int| 0 <= k < ids.len() ==> text_less(#[trigger] ids[k]@, list[i]@.id),
{
    assert forall|k: int| 0 <= k < ids.len() implies text_less(
        #[trigger] ids[k]@,
        list[i]@.id,
    ) by {
        assert(ids_of(ids)[k] == ids[k]@);
        assert(ids_of(ids).to_set().contains(ids[k]@));
        let j = choose|j: int| 0 <= j < i && (#[trigger] list[j])@.id == ids[k]@;
        assert(text_less(list[j]@.id, list[i]@.id));
    }
}

/// What forbids a candidate topology from replacing the current one, if
/// anything.
pub open spec fn identity_fault(current: Topology, candidate: Topology) -> Option<DcpFault> {
    if current.bucket != candidate.bucket {
        Some(
            DcpFault::Topology(
                "topology bucket changed from "@ + quoted(current.bucket) + " to "@ + quoted(
                    candidate.bucket,
                ),
            ),
        )
    } else {
        match (current.bucket_uuid, candidate.bucket_uuid) {
            (Some(a), Some(b)) => if a != b {
                Some(
                    DcpFault::Topology("topology bucket UUID changed from "@ + a + " to "@ + b),
                )
            } else {
                None
            },
            _ => None,
        }
    }
}

fn validate_bucket_identity(current: &ClusterTopology, candidate: &ClusterTopology) -> (result:
    Result<()>)
    ensures
        checked(result, identity_fault(current@, candidate@)),
{
    if !same_text(current.bucket.as_str(), candidate.bucket.as_str()) {
        return Err(
            DcpError::Topology(
                join4(
                    "topology bucket changed from ",
                    quoted_text(current.bucket.as_str()).as_str(),
                    " to ",
                    quoted_text(candidate.bucket.as_str()).as_str(),
                ),
            ),
        );
    }
    match (&current.bucket_uuid, &candidate.bucket_uuid) {
        (Some(a), Some(b)) => {
            if !same_text(a.as_str(), b.as_str()) {
                return Err(
                    DcpError::Topology(
                        join4(
                            "topology bucket UUID changed from ",
                            a.as_str(),
                            " to ",
                            b.as_str(),
                        ),
                    ),
                );
            }
            Ok(())
        },
        _ => Ok(()),
    }
}

/// Current topology plus a monotonic local generation fence.
#[derive(Debug)]
pub struct TopologyState {
    generation: u64,
    topology: ClusterTopology,
}

impl TopologyState {
    /// Local generation.
    pub closed spec fn fence(&self) -> u64 {
        self.generation
    }

    /// Accepted topology.
    pub closed spec fn current(&self) -> Topology {
        self.topology@
    }

    /// Creates state at local generation one.
    #[must_use]
    pub fn new(topology: ClusterTopology) -> (result: Self)
        ensures
            result.fence() == 1,
            result.current() == topology@,
    {
        TopologyState { generation: 1, topology }
    }

    /// Current local generation.
    #[must_use]
    pub fn generation(&self) -> (result: u64)
        ensures
            result == self.fence(),
    {
        self.generation
    }

    /// Current accepted topology.
    #[must_use]
    pub fn topology(&self) -> (result: &ClusterTopology)
        ensures
            result@ == self.current(),
    {
        &self.topology
    }

    /// Applies a newer config and returns the exact connection/stream impact.
    /// Stale or identical revisions return `Ok(None)`.
    pub fn apply(&mut self, candidate: ClusterTopology) -> (result: Result<Option<TopologyChange>>)
        ensures
            match result {
                Err(e) => {
                    &&& *final(self) == *old(self)
                    &&& match identity_fault(old(self).current(), candidate@) {
                        Some(fault) => e@ == fault,
                        None => {
                            &&& candidate@.revision.newer_than(old(self).current().revision)
                            &&& old(self).fence() == u64::MAX
                            &&& e@ == DcpFault::Topology("topology generation overflow"@)
                        },
                    }
                },
                Ok(None) => {
                    &&& *final(self) == *old(self)
                    &&& identity_fault(old(self).current(), candidate@) is None
                    &&& !candidate@.revision.newer_than(old(self).current().revision)
                },
                Ok(Some(change)) => {
                    &&& identity_fault(old(self).current(), candidate@) is None
                    &&& candidate@.revision.newer_than(old(self).current().revision)
                    &&& final(self).fence() == old(self).fence() + 1
                    &&& final(self).current() == candidate@
                    &&& change.fence() == final(self).fence()
                    &&& change.work() == impact(old(self).current(), candidate@)
                },
            },
    {
        validate_bucket_identity(&self.topology, &candidate)?;
        if !candidate.revision.is_newer_than(self.topology.revision) {
            return Ok(None);
        }
        let (added_nodes, reconnect_nodes) = added_and_reconnect(&self.topology, &candidate);
        let removed_nodes = missing_nodes(&candidate, &self.topology);
        let rerouted_vbuckets = rerouted(&self.topology, &candidate);
        if self.generation == u64::MAX {
            return Err(DcpError::Topology("topology generation overflow".to_owned()));
        }
        self.generation = self.generation + 1;
        let ghost before = self.topology@;
        self.topology = candidate;
        let change = TopologyChange {
            generation: self.generation,
            added_nodes,
            removed_nodes,
            reconnect_nodes,
            rerouted_vbuckets,
        };
        Ok(Some(change))
    }
}

/// An accepted update never lowers the generation, and a topology of another
/// bucket is never accepted.
pub proof fn accepted_updates_are_fenced(
    before: Topology,
    candidate: Topology,
    generation: u64,
    next: u64,
)
    requires
        identity_fault(before, candidate) is None,
        next == generation + 1,
    ensures
        next > generation,
        before.bucket == candidate.bucket,
        before.bucket_uuid is Some && candidate.bucket_uuid is Some ==> before.bucket_uuid
            == candidate.bucket_uuid,
{
}

/// Nodes of `topology` that `other` lacks.
fn missing_nodes(other: &ClusterTopology, topology: &ClusterTopology) -> (result: Vec<NodeId>)
    ensures
        ordered_nodes(result@),
        ids_of(result@).to_set() == topology@.nodes().difference(other@.nodes()),
{
    proof {
        use_type_invariant(topology);
    }
    let mut nodes: Vec<NodeId> = Vec::new();
    let list = &topology.endpoints;
    let mut i: usize = 0;
    assert(ids_of(nodes@).to_set() =~= nodes_upto(list@, 0).difference(other@.nodes()));
    while i < list.len()
        invariant
            i <= list@.len(),
            ordered_endpoints(list@),
            ordered_nodes(nodes@),
            ids_of(nodes@).to_set() == nodes_upto(list@, i as int).difference(other@.nodes()),
        decreases list@.len() - i,
    {
        let ghost before = nodes_upto(list@, i as int);
        let ghost after = nodes_upto(list@, i + 1);
        let ghost id = list@[i as int]@.id;
        proof {
            assert forall|n: Seq<char>| after.contains(n) <==> (before.contains(n) || n == id) by {
                if n == id {
                    assert(list@[i as int]@.id == n);
                }
            }
            listed_before(list@, i as int, nodes@);
        }
        if other.endpoint(list[i].id.as_str()).is_none() {
            push_node(&mut nodes, list[i].id.clone());
            assert(ids_of(nodes@).to_set() =~= after.difference(other@.nodes()));
        } else {
            proof {
                assert(other@.nodes().contains(id)) by {
                    let e = choose|e: Endpoint| other@.endpoints.contains(e) && e.id == id;
                    assert(other@.endpoints.contains(e) && e.id == id);
                }
            }
            assert(ids_of(nodes@).to_set() =~= after.difference(other@.nodes()));
        }
        i = i + 1;
    }
    proof {
        nodes_are_listed(topology@, list@);
    }
    nodes
}

/// Nodes that are new in `candidate`, and those to connect to again.
fn added_and_reconnect(current: &ClusterTopology, candidate: &ClusterTopology) -> (result: (
    Vec<NodeId>,
    Vec<NodeId>,
))
    ensures
        ordered_nodes(result.0@),
        ordered_nodes(result.1@),
        ids_of(result.0@).to_set() == impact(current@, candidate@).added_nodes,
        ids_of(result.1@).to_set() == impact(current@, candidate@).reconnect_nodes,
{
    let added = missing_nodes(current, candidate);
    proof {
        use_type_invariant(current);
        use_type_invariant(candidate);
    }
    let mut reconnect: Vec<NodeId> = Vec::new();
    let list = &candidate.endpoints;
    let ghost keep = |n: Seq<char>|
        !exists|a: Seq<char>|
            #![trigger current@.reachable(n, a)]
            current@.reachable(n, a) && candidate@.reachable(n, a);
    let mut i: usize = 0;
    assert(ids_of(reconnect@).to_set() =~= nodes_upto(list@, 0).filter(keep));
    while i < list.len()
        invariant
            i <= list@.len(),
            list@ == candidate.endpoints@,
            current@.coherent(),
            candidate@.coherent(),
            ordered_endpoints(list@),
            ordered_nodes(reconnect@),
            keep == (|n: Seq<char>|
                !exists|a: Seq<char>|
                    #![trigger current@.reachable(n, a)]
                    current@.reachable(n, a) && candidate@.reachable(n, a)),
            ids_of(reconnect@).to_set() == nodes_upto(list@, i as int).filter(keep),
        decreases list@.len() - i,
    {
        let ghost before = nodes_upto(list@, i as int);
        let ghost after = nodes_upto(list@, i + 1);
        let ghost new = list@[i as int]@;
        proof {
            assert forall|n: Seq<char>| after.contains(n) <==> (before.contains(n) || n
                == new.id) by {
                if n == new.id {
                    assert(list@[i as int]@.id == n);
                }
            }
            listed_before(list@, i as int, reconnect@);
            assert(endpoints_of(list@)[i as int] == new);
            assert(endpoints_of(list@).contains(new));
            assert(candidate@.endpoints.contains(new));
            assert(candidate@.reachable(new.id, new.address));
        }
        let changed: bool = match current.endpoint(list[i].id.as_str()) {
            None => {
                proof {
                    assert forall|a: Seq<char>| !current@.reachable(new.id, a) by {
                        if current@.reachable(new.id, a) {
                            let e = choose|e: Endpoint| #[trigger]
                                current@.endpoints.contains(e) && e.id == new.id && e.address == a;
                            assert(current@.nodes().contains(e.id));
                        }
                    }
                }
                true
            },
            Some(old) => {
                let ghost e = old@;
                proof {
                    assert(current@.reachable(new.id, e.address));
                }
                if same_text(old.address.as_str(), list[i].address.as_str()) {
                    false
                } else {
                    proof {
                        assert forall|a: Seq<char>|
                            !(#[trigger] current@.reachable(new.id, a) && candidate@.reachable(
                                new.id,
                                a,
                            )) by {
                            if current@.reachable(new.id, a) && candidate@.reachable(new.id, a) {
                                let x = choose|x: Endpoint| #[trigger]
                                    current@.endpoints.contains(x) && x.id == new.id && x.address
                                        == a;
                                let y = choose|y: Endpoint| #[trigger]
                                    candidate@.endpoints.contains(y) && y.id == new.id && y.address
                                        == a;
                                assert(x == e);
                                assert(y == new);
                            }
                        }
                    }
                    true
                }
            },
        };
        assert(changed == keep(new.id));
        if changed {
            push_node(&mut reconnect, list[i].id.clone());
        }
        assert(ids_of(reconnect@).to_set() =~= after.filter(keep));
        i = i + 1;
    }
    proof {
        nodes_are_listed(candidate@, list@);
        assert(ids_of(reconnect@).to_set() =~= impact(current@, candidate@).reconnect_nodes);
    }
    (added, reconnect)
}

/// vBuckets whose active node differs between two topologies.
fn rerouted(current: &ClusterTopology, candidate: &ClusterTopology) -> (result: BTreeSet<u16>)
    ensures
        result@ == impact(current@, candidate@).rerouted_vbuckets,
{
    let mut set: BTreeSet<u16> = BTreeSet::new();
    let a: usize = current.num_vbuckets();
    let b: usize = candidate.num_vbuckets();
    let count: usize = if a > b {
        a
    } else {
        b
    };
    let mut v: usize = 0;
    while v < count
        invariant
            v <= count <= 0x1_0000,
            a == current@.routes.len(),
            b == candidate@.routes.len(),
            a <= count && b <= count,
            forall|w: u16| #[trigger] set@.contains(w) <==> (w < v && current@.active_at(w)
                != candidate@.active_at(w)),
        decreases count - v,
    {
        let same: bool = match (current.active_node(v as u16), candidate.active_node(v as u16)) {
            (Ok(x), Ok(y)) => same_text(x.as_str(), y.as_str()),
            (Err(_), Err(_)) => true,
            _ => false,
        };
        if !same {
            set.insert(v as u16);
        }
        v = v + 1;
    }
    assert(set@ =~= impact(current@, candidate@).rerouted_vbuckets);
    set
}

/// Why a discovered topology is not that of the selected bucket, if it is not.
pub open spec fn discovery_fault(topology: Topology, expected_bucket: Seq<char>) -> Option<
    DcpFault,
> {
    if topology.bucket != expected_bucket {
        Some(
            DcpFault::Topology(
                "cluster config bucket "@ + quoted(topology.bucket)
                    + " does not match selected bucket "@ + quoted(expected_bucket),
            ),
        )
    } else {
        None
    }
}

/// Accepts a discovered topology for the selected bucket.
pub fn accept_discovered(topology: ClusterTopology, expected_bucket: &str) -> (result: Result<
    ClusterTopology,
>)
    ensures
        match result {
            Ok(accepted) => discovery_fault(topology@, expected_bucket@) is None && accepted@
                == topology@,
            Err(e) => discovery_fault(topology@, expected_bucket@) == Some(e@),
        },
{
    if !same_text(topology.bucket.as_str(), expected_bucket) {
        return Err(
            DcpError::Topology(
                join4(
                    "cluster config bucket ",
                    quoted_text(topology.bucket.as_str()).as_str(),
                    " does not match selected bucket ",
                    quoted_text(expected_bucket).as_str(),
                ),
            ),
        );
    }
    Ok(topology)
}

/// High sequence numbers by vBucket, or the first vBucket listed twice.
pub open spec fn high_seqnos(entries: Seq<VBucketSeqno>) -> Outcome<Map<u16, u64>>
    decreases entries.len(),
{
    if entries.len() == 0 {
        Ok(Map::empty())
    } else {
        match high_seqnos(entries.drop_last()) {
            Err(e) => Err(e),
            Ok(map) => {
                let entry = entries.last();
                if map.contains_key(entry.vbucket) {
                    Err(
                        malformed_dcp_fault(
                            "duplicate high-seqno entry for vBucket "@ + dec(entry.vbucket as nat),
                        ),
                    )
                } else {
                    Ok(map.insert(entry.vbucket, entry.seqno))
                }
            },
        }
    }
}

proof fn high_seqnos_stop(entries: Seq<VBucketSeqno>, k: int)
    requires
        0 <= k <= entries.len(),
        high_seqnos(entries.take(k)) is Err,
    ensures
        high_seqnos(entries) == high_seqnos(entries.take(k)),
    decreases entries.len(),
{
    if k == entries.len() {
        assert(entries.take(k) =~= entries);
    } else {
        assert(entries.drop_last().take(k) =~= entries.take(k));
        high_seqnos_stop(entries.drop_last(), k);
    }
}

/// Indexes high sequence numbers by vBucket.
pub fn collect_high_seqnos(entries: &[VBucketSeqno]) -> (result: Result<BTreeMap<u16, u64>>)
    ensures
        agrees(result, high_seqnos(entries@)),
{
    let mut map: BTreeMap<u16, u64> = BTreeMap::new();
    let mut i: usize = 0;
    assert(entries@.take(0) =~= Seq::empty());
    while i < entries.len()
        invariant
            i <= entries@.len(),
            high_seqnos(entries@.take(i as int)) == Outcome::<Map<u16, u64>>::Ok(map@),
        decreases entries@.len() - i,
    {
        let entry: VBucketSeqno = entries[i];
        assert(entries@.take(i + 1).drop_last() =~= entries@.take(i as int));
        assert(entries@.take(i + 1).last() == entry);
        if map.contains_key(&entry.vbucket) {
            proof {
                high_seqnos_stop(entries@, i + 1);
            }
            return Err(
                malformed_dcp(
                    join2(
                        "duplicate high-seqno entry for vBucket ",
                        dec_text(entry.vbucket as u64).as_str(),
                    ),
                ),
            );
        }
        map.insert(entry.vbucket, entry.seqno);
        i = i + 1;
    }
    assert(entries@.take(entries@.len() as int) =~= entries@);
    Ok(map)
}

/// Refuses an empty failover log.
pub fn require_failover_log(entries: Vec<FailoverEntry>, vbucket: u16) -> (result: Result<
    Vec<FailoverEntry>,
>)
    ensures
        match result {
            Ok(log) => entries@.len() > 0 && log@ == entries@,
            Err(e) => entries@.len() == 0 && e@ == DcpFault::Topology(
                "server returned an empty failover log for vBucket "@ + dec(vbucket as nat),
            ),
        },
{
    if entries.len() == 0 {
        return Err(
            DcpError::Topology(
                join2(
                    "server returned an empty failover log for vBucket ",
                    dec_text(vbucket as u64).as_str(),
                ),
            ),
        );
    }
    Ok(entries)
}

} // verus!
