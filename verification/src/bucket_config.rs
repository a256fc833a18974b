//! Bucket configurations as servers publish them, and the topology they
//! describe.
use vstd::prelude::*;
use vstd::string::*;

use crate::address::{
    addresses_equal, canonical, format_endpoint, formatted, same_endpoint, split, split_endpoint,
    validated_endpoint,
};
use crate::error::{agrees, DcpError, DcpFault, Outcome, Result};
use crate::lists::{
    collected, collected_items, collected_stops, first_where, first_where_is, first_where_is_none,
    present, present_items,
};
use crate::text::{
    blank, dec, dec_count, is_blank, is_solid, join2, join3, join4, join6, opt_text, quoted,
    quoted_opt, quoted_opt_text, quoted_text, same_text, signed_dec, signed_dec_text, solid,
};
use crate::topology::{
    distinct_ids, endpoints_of, ids_of, route_of, routes_of, ClusterTopology, Endpoint, KvEndpoint,
    NodeId, Route, Topology, TopologyNetwork, TopologyRevision, VBucketRoute,
};

verus! {

/// KV ports advertised by a node.
#[derive(Clone, Copy, Debug, Default)]
pub struct RawNodeServices {
    /// Plain port, or zero.
    pub kv: u16,
    /// TLS port, or zero.
    pub kv_ssl: u16,
}

/// Alternate address of a node.
#[derive(Debug)]
pub struct RawAlternateAddress {
    /// Name of the address set.
    pub network: String,
    /// Alternate host name.
    pub hostname: Option<String>,
    /// Alternate ports.
    pub ports: Option<RawNodeServices>,
}

/// One node of the extended node list.
#[derive(Debug)]
pub struct RawNodeExt {
    /// Host name; absent or empty stands for the source host.
    pub hostname: Option<String>,
    /// Ports of the default network.
    pub services: RawNodeServices,
    /// Alternate address sets, each name at most once.
    pub alternate_addresses: Vec<RawAlternateAddress>,
    /// Server UUID.
    pub node_uuid: Option<String>,
    /// Server group.
    pub server_group: Option<String>,
}

/// Server list and vBucket map.
#[derive(Debug)]
pub struct RawVBucketServerMap {
    /// Key hash; only `CRC` is supported.
    pub hash_algorithm: String,
    /// Replicas per vBucket.
    pub num_replicas: i64,
    /// Legacy server identities in index order.
    pub server_list: Vec<String>,
    /// For each vBucket the index of the active node and of each replica.
    pub v_bucket_map: Vec<Vec<i64>>,
}

/// Bucket configuration as decoded from the server's document.
#[derive(Debug)]
pub struct RawBucketConfig {
    /// Revision number.
    pub rev: i64,
    /// Revision epoch.
    pub rev_epoch: i64,
    /// Bucket name.
    pub name: String,
    /// Bucket UUID, or empty.
    pub uuid: String,
    /// Node locator; only `vbucket` is supported.
    pub node_locator: String,
    /// Extended node list.
    pub nodes_ext: Vec<RawNodeExt>,
    /// Server list and vBucket map.
    pub v_bucket_server_map: RawVBucketServerMap,
}


/// The node serves documents.
pub open spec fn serves_kv(node: RawNodeExt) -> bool {
    node.services.kv != 0 || node.services.kv_ssl != 0
}

/// Nodes that serve documents, in order.
pub open spec fn kv_nodes(nodes: Seq<RawNodeExt>) -> Seq<RawNodeExt> {
    nodes.filter(|n: RawNodeExt| serves_kv(n))
}

fn pick_kv_nodes(nodes: &Vec<RawNodeExt>) -> (result: Vec<&RawNodeExt>)
    ensures
        result@.len() == kv_nodes(nodes@).len(),
        forall|i: int| 0 <= i < result@.len() ==> *(#[trigger] result@[i]) == kv_nodes(nodes@)[i],
{
    let mut picked: Vec<&RawNodeExt> = Vec::new();
    let ghost p = |n: RawNodeExt| serves_kv(n);
    let mut i: usize = 0;
    proof {
        reveal(Seq::filter);
    }
    while i < nodes.len()
        invariant
            i <= nodes@.len(),
            p == (|n: RawNodeExt| serves_kv(n)),
            picked@.len() == nodes@.take(i as int).filter(p).len(),
            forall|j: int|
                0 <= j < picked@.len() ==> *(#[trigger] picked@[j]) == nodes@.take(i as int).filter(
                    p,
                )[j],
        decreases nodes@.len() - i,
    {
        proof {
            reveal(Seq::filter);
            assert(nodes@.take(i + 1).drop_last() =~= nodes@.take(i as int));
            assert(nodes@.take(i + 1).last() == nodes@[i as int]);
        }
        let node = &nodes[i];
        if node.services.kv != 0 || node.services.kv_ssl != 0 {
            picked.push(node);
        }
        i = i + 1;
    }
    assert(nodes@.take(nodes@.len() as int) =~= nodes@);
    picked
}

/// The alternate address of a node in a named address set.
pub open spec fn alternate(node: RawNodeExt, network: Seq<char>) -> Option<RawAlternateAddress> {
    match first_where(
        node.alternate_addresses@,
        |a: RawAlternateAddress| a.network@ == network,
    ) {
        Some(i) => Some(node.alternate_addresses@[i]),
        None => None,
    }
}

fn find_alternate<'a>(node: &'a RawNodeExt, network: &str) -> (result: Option<
    &'a RawAlternateAddress,
>)
    ensures
        match result {
            Some(a) => alternate(*node, network@) == Some(*a),
            None => alternate(*node, network@) is None,
        },
{
    let ghost p = |a: RawAlternateAddress| a.network@ == network@;
    let mut i: usize = 0;
    while i < node.alternate_addresses.len()
        invariant
            i <= node.alternate_addresses@.len(),
            forall|j: int|
                0 <= j < i ==> (#[trigger] node.alternate_addresses@[j]).network@ != network@,
        decreases node.alternate_addresses@.len() - i,
    {
        if same_text(node.alternate_addresses[i].network.as_str(), network) {
            proof {
                first_where_is(
                    node.alternate_addresses@,
                    |a: RawAlternateAddress| a.network@ == network@,
                    i as int,
                );
            }
            return Some(&node.alternate_addresses[i]);
        }
        i = i + 1;
    }
    proof {
        first_where_is_none(
            node.alternate_addresses@,
            |a: RawAlternateAddress| a.network@ == network@,
        );
    }
    None
}

/// Optional text, with the empty text for none.
pub open spec fn or_empty(s: Option<String>) -> Seq<char> {
    match s {
        Some(t) => t@,
        None => Seq::empty(),
    }
}

/// Host name and ports of a node in an address set.
pub open spec fn node_services(node: RawNodeExt, network: Seq<char>) -> Option<
    (Seq<char>, RawNodeServices),
> {
    if network == "default"@ {
        Some((or_empty(node.hostname), node.services))
    } else {
        match alternate(node, network) {
            None => None,
            Some(a) => Some(
                (
                    or_empty(a.hostname),
                    match a.ports {
                        Some(ports) => ports,
                        None => node.services,
                    },
                ),
            ),
        }
    }
}

/// Dial address of a node in an address set.
pub open spec fn node_address(
    node: RawNodeExt,
    network: Seq<char>,
    source_host: Seq<char>,
    tls: bool,
) -> Outcome<Seq<char>> {
    match node_services(node, network) {
        None => Err(
            DcpFault::Topology(
                "KV node "@ + quoted_opt(opt_text(node.node_uuid))
                    + " has no alternate address for network "@ + quoted(network),
            ),
        ),
        Some((hostname, services)) => {
            let port = if tls {
                services.kv_ssl
            } else {
                services.kv
            };
            if port == 0 {
                Err(
                    DcpFault::Topology(
                        "KV node "@ + quoted_opt(opt_text(node.node_uuid)) + " has no "@ + (if tls {
                            "kvSSL"@
                        } else {
                            "kv"@
                        }) + " port for network "@ + quoted(network),
                    ),
                )
            } else {
                formatted(
                    if hostname.len() == 0 {
                        source_host
                    } else {
                        hostname
                    },
                    port,
                )
            }
        },
    }
}

fn text_or_empty(s: &Option<String>) -> (result: &str)
    ensures
        result@ == or_empty(*s),
{
    match s {
        Some(t) => t.as_str(),
        None => {
            proof {
                reveal_strlit("");
                assert(""@ =~= Seq::<char>::empty());
            }
            ""
        },
    }
}

/// Computes the dial address of a node in an address set.
pub fn node_endpoint(node: &RawNodeExt, network: &str, source_host: &str, tls: bool) -> (result:
    Result<String>)
    ensures
        agrees(result, node_address(*node, network@, source_host@, tls)),
{
    let hostname: &str;
    let services: RawNodeServices;
    if same_text(network, "default") {
        hostname = text_or_empty(&node.hostname);
        services = node.services;
    } else {
        match find_alternate(node, network) {
            None => {
                return Err(
                    DcpError::Topology(
                        join4(
                            "KV node ",
                            quoted_opt_text(&node.node_uuid).as_str(),
                            " has no alternate address for network ",
                            quoted_text(network).as_str(),
                        ),
                    ),
                );
            },
            Some(a) => {
                hostname = text_or_empty(&a.hostname);
                services = match a.ports {
                    Some(ports) => ports,
                    None => node.services,
                };
            },
        }
    }
    let port: u16 = if tls {
        services.kv_ssl
    } else {
        services.kv
    };
    if port == 0 {
        return Err(
            DcpError::Topology(
                join6(
                    "KV node ",
                    quoted_opt_text(&node.node_uuid).as_str(),
                    " has no ",
                    if tls {
                        "kvSSL"
                    } else {
                        "kv"
                    },
                    " port for network ",
                    quoted_text(network).as_str(),
                ),
            ),
        );
    }
    format_endpoint(
        if hostname.is_empty() {
            source_host
        } else {
            hostname
        },
        port,
    )
}

/// The nodes considered when the address set is chosen by the source.
pub open spec fn candidate_nodes(nodes: Seq<RawNodeExt>, server_count: nat) -> Seq<RawNodeExt> {
    let all = kv_nodes(nodes);
    if all.len() <= server_count {
        all
    } else {
        all.take(server_count as int)
    }
}

/// The source address is the default address of the node.
pub open spec fn is_default_source(
    node: RawNodeExt,
    source_address: Seq<char>,
    source_host: Seq<char>,
    tls: bool,
) -> bool {
    match node_address(node, "default"@, source_host, tls) {
        Ok(address) => same_endpoint(address, source_address),
        Err(_) => false,
    }
}

/// The address set to dial.
pub open spec fn chosen_network(
    requested: TopologyNetwork,
    nodes: Seq<RawNodeExt>,
    server_count: nat,
    source_address: Seq<char>,
    source_host: Seq<char>,
    tls: bool,
) -> Outcome<Seq<char>> {
    match requested {
        TopologyNetwork::Default => Ok("default"@),
        TopologyNetwork::External => Ok("external"@),
        TopologyNetwork::Named(name) => if blank(name@) || !solid(name@) {
            Err(
                DcpFault::Topology(
                    "alternate network name must be non-empty and contain no whitespace"@,
                ),
            )
        } else {
            Ok(name@)
        },
        TopologyNetwork::Auto => {
            let candidates = candidate_nodes(nodes, server_count);
            if nodes.len() == 0 || (exists|i: int|
                0 <= i < candidates.len() && is_default_source(
                    #[trigger] candidates[i],
                    source_address,
                    source_host,
                    tls,
                )) {
                Ok("default"@)
            } else if candidates.len() == server_count && (forall|i: int|
                0 <= i < candidates.len() ==> alternate(
                    #[trigger] candidates[i],
                    "external"@,
                ) is Some) {
                Ok("external"@)
            } else {
                Ok("default"@)
            }
        },
    }
}

/// Chooses the address set to dial.
pub fn resolve_network(
    requested: &TopologyNetwork,
    nodes: &Vec<RawNodeExt>,
    server_count: usize,
    source_address: &str,
    source_host: &str,
    tls: bool,
) -> (result: Result<String>)
    ensures
        agrees(
            result,
            chosen_network(
                *requested,
                nodes@,
                server_count as nat,
                source_address@,
                source_host@,
                tls,
            ),
        ),
{
    match requested {
        TopologyNetwork::Default => Ok("default".to_owned()),
        TopologyNetwork::External => Ok("external".to_owned()),
        TopologyNetwork::Named(name) => {
            if is_blank(name.as_str()) || !is_solid(name.as_str()) {
                return Err(
                    DcpError::Topology(
                        "alternate network name must be non-empty and contain no whitespace".to_owned(),
                    ),
                );
            }
            Ok(name.clone())
        },
        TopologyNetwork::Auto => {
            if nodes.len() == 0 {
                return Ok("default".to_owned());
            }
            let ghost candidates = candidate_nodes(nodes@, server_count as nat);
            let picked = pick_kv_nodes(nodes);
            let count: usize = if picked.len() <= server_count {
                picked.len()
            } else {
                server_count
            };
            let mut all_external: bool = true;
            let mut i: usize = 0;
            while i < count
                invariant
                    i <= count,
                    count == candidates.len(),
                    count <= picked@.len(),
                    forall|j: int| 0 <= j < count ==> *(#[trigger] picked@[j]) == candidates[j],
                    forall|j: int|
                        0 <= j < i ==> !is_default_source(
                            #[trigger] candidates[j],
                            source_address@,
                            source_host@,
                            tls,
                        ),
                    all_external == (forall|j: int|
                        0 <= j < i ==> alternate(#[trigger] candidates[j], "external"@) is Some),
                    nodes@.len() > 0,
                    candidates == candidate_nodes(nodes@, server_count as nat),
                    *requested == TopologyNetwork::Auto,
                decreases count - i,
            {
                let node = picked[i];
                assert(*node == candidates[i as int]);
                if let Ok(address) = node_endpoint(node, "default", source_host, tls) {
                    if addresses_equal(address.as_str(), source_address) {
                        assert(is_default_source(
                            candidates[i as int],
                            source_address@,
                            source_host@,
                            tls,
                        ));
                        return Ok("default".to_owned());
                    }
                }
                if find_alternate(node, "external").is_none() {
                    all_external = false;
                }
                i = i + 1;
            }
            if count == server_count && all_external {
                return Ok("external".to_owned());
            }
            Ok("default".to_owned())
        },
    }
}

/// Endpoint of a server known only by its legacy identity.
pub open spec fn legacy_endpoint(server: Seq<char>) -> Outcome<Endpoint> {
    match canonical(server) {
        Ok(address) => Ok(
            Endpoint {
                id: address,
                address,
                canonical_address: address,
                server_group: None,
            },
        ),
        Err(e) => Err(e),
    }
}

/// Endpoint of a node of the extended list.
pub open spec fn node_entry(
    node: RawNodeExt,
    legacy: Seq<char>,
    source_host: Seq<char>,
    tls: bool,
    network: Seq<char>,
) -> Outcome<Endpoint> {
    match node_address(node, "default"@, source_host, tls) {
        Err(e) => Err(e),
        Ok(canonical_address) => match node_address(node, network, source_host, tls) {
            Err(e) => Err(e),
            Ok(address) => {
                let id: Outcome<Seq<char>> = if blank(or_empty(node.node_uuid)) {
                    canonical(legacy)
                } else {
                    Ok(or_empty(node.node_uuid))
                };
                match id {
                    Err(e) => Err(e),
                    Ok(id) => Ok(
                        Endpoint {
                            id,
                            address,
                            canonical_address,
                            server_group: if or_empty(node.server_group).len() == 0 {
                                None
                            } else {
                                opt_text(node.server_group)
                            },
                        },
                    ),
                }
            },
        },
    }
}

/// Endpoints in server-list order.
pub open spec fn endpoint_list(
    nodes: Seq<RawNodeExt>,
    servers: Seq<String>,
    source_host: Seq<char>,
    tls: bool,
    network: Seq<char>,
) -> Outcome<Seq<Endpoint>> {
    if servers.len() == 0 {
        Err(DcpFault::Topology("cluster config has no KV servers"@))
    } else if nodes.len() == 0 {
        if tls {
            Err(DcpFault::Topology("TLS topology requires nodesExt with kvSSL ports"@))
        } else if network != "default"@ {
            Err(
                DcpFault::Topology(
                    "network "@ + quoted(network) + " requires nodesExt alternate addresses"@,
                ),
            )
        } else {
            collected(servers.len(), |i: int| legacy_endpoint(servers[i]@))
        }
    } else if kv_nodes(nodes).len() < servers.len() {
        Err(
            DcpFault::Topology(
                "nodesExt has "@ + dec(kv_nodes(nodes).len())
                    + " KV nodes but vBucket serverList has "@ + dec(servers.len()),
            ),
        )
    } else {
        collected(
            servers.len(),
            |i: int| node_entry(kv_nodes(nodes)[i], servers[i]@, source_host, tls, network),
        )
    }
}

fn make_legacy_endpoint(server: &str) -> (result: Result<KvEndpoint>)
    ensures
        agrees(result, legacy_endpoint(server@)),
{
    match validated_endpoint(server) {
        Ok(address) => Ok(
            KvEndpoint::assemble(
                NodeId::from_text(address.clone()),
                address.clone(),
                address,
                None,
            ),
        ),
        Err(e) => Err(e),
    }
}

fn make_node_entry(
    node: &RawNodeExt,
    legacy: &str,
    source_host: &str,
    tls: bool,
    network: &str,
) -> (result: Result<KvEndpoint>)
    ensures
        agrees(result, node_entry(*node, legacy@, source_host@, tls, network@)),
{
    let canonical_address = node_endpoint(node, "default", source_host, tls)?;
    let address = node_endpoint(node, network, source_host, tls)?;
    let uuid = text_or_empty(&node.node_uuid);
    let id: String = if is_blank(uuid) {
        validated_endpoint(legacy)?
    } else {
        uuid.to_owned()
    };
    let server_group: Option<String> = match &node.server_group {
        Some(group) => if group.as_str().is_empty() {
            None
        } else {
            Some(group.clone())
        },
        None => None,
    };
    Ok(KvEndpoint::assemble(NodeId::from_text(id), address, canonical_address, server_group))
}

fn build_endpoints(
    nodes: &Vec<RawNodeExt>,
    servers: &Vec<String>,
    source_host: &str,
    tls: bool,
    network: &str,
) -> (result: Result<Vec<KvEndpoint>>)
    ensures
        match (result, endpoint_list(nodes@, servers@, source_host@, tls, network@)) {
            (Ok(list), Ok(models)) => endpoints_of(list@) == models,
            (Err(e), Err(fault)) => e@ == fault,
            _ => false,
        },
{
    if servers.len() == 0 {
        return Err(DcpError::Topology("cluster config has no KV servers".to_owned()));
    }
    let mut list: Vec<KvEndpoint> = Vec::new();
    let mut i: usize = 0;
    if nodes.len() == 0 {
        if tls {
            return Err(
                DcpError::Topology("TLS topology requires nodesExt with kvSSL ports".to_owned()),
            );
        }
        if !same_text(network, "default") {
            return Err(
                DcpError::Topology(
                    join3(
                        "network ",
                        quoted_text(network).as_str(),
                        " requires nodesExt alternate addresses",
                    ),
                ),
            );
        }
        let ghost item = |i: int| legacy_endpoint(servers@[i]@);
        assert(endpoints_of(list@) =~= Seq::empty());
        while i < servers.len()
            invariant
                i <= servers@.len(),
                item == (|i: int| legacy_endpoint(servers@[i]@)),
                collected(i as nat, item) == Outcome::<Seq<Endpoint>>::Ok(endpoints_of(list@)),
                endpoint_list(nodes@, servers@, source_host@, tls, network@) == collected(
                    servers@.len(),
                    item,
                ),
            decreases servers@.len() - i,
        {
            match make_legacy_endpoint(servers[i].as_str()) {
                Err(e) => {
                    proof {
                        assert(item(i as int) == Outcome::<Endpoint>::Err(e@));
                        assert(collected((i + 1) as nat, item) == Outcome::<Seq<Endpoint>>::Err(e@));
                        collected_stops((i + 1) as nat, servers@.len(), item);
                    }
                    return Err(e);
                },
                Ok(endpoint) => {
                    let ghost before = endpoints_of(list@);
                    assert(item(i as int) == Outcome::<Endpoint>::Ok(endpoint@));
                    list.push(endpoint);
                    assert(endpoints_of(list@) =~= before.push(endpoint@));
                },
            }
            i = i + 1;
        }
        return Ok(list);
    }
    let picked = pick_kv_nodes(nodes);
    if picked.len() < servers.len() {
        return Err(
            DcpError::Topology(
                join4(
                    "nodesExt has ",
                    dec_count(picked.len()).as_str(),
                    " KV nodes but vBucket serverList has ",
                    dec_count(servers.len()).as_str(),
                ),
            ),
        );
    }
    let ghost all = kv_nodes(nodes@);
    let ghost item = |i: int|
        node_entry(kv_nodes(nodes@)[i], servers@[i]@, source_host@, tls, network@);
    assert(endpoints_of(list@) =~= Seq::empty());
    while i < servers.len()
        invariant
            i <= servers@.len(),
            servers@.len() <= picked@.len(),
            picked@.len() == all.len(),
            all == kv_nodes(nodes@),
            forall|j: int| 0 <= j < picked@.len() ==> *(#[trigger] picked@[j]) == all[j],
            item == (|i: int|
                node_entry(kv_nodes(nodes@)[i], servers@[i]@, source_host@, tls, network@)),
            collected(i as nat, item) == Outcome::<Seq<Endpoint>>::Ok(endpoints_of(list@)),
            endpoint_list(nodes@, servers@, source_host@, tls, network@) == collected(
                servers@.len(),
                item,
            ),
        decreases servers@.len() - i,
    {
        assert(*(picked@[i as int]) == all[i as int]);
        match make_node_entry(picked[i], servers[i].as_str(), source_host, tls, network) {
            Err(e) => {
                proof {
                    assert(item(i as int) == Outcome::<Endpoint>::Err(e@));
                    assert(collected((i + 1) as nat, item) == Outcome::<Seq<Endpoint>>::Err(e@));
                    collected_stops((i + 1) as nat, servers@.len(), item);
                }
                return Err(e);
            },
            Ok(endpoint) => {
                let ghost before = endpoints_of(list@);
                assert(item(i as int) == Outcome::<Endpoint>::Ok(endpoint@));
                list.push(endpoint);
                assert(endpoints_of(list@) =~= before.push(endpoint@));
            },
        }
        i = i + 1;
    }
    Ok(list)
}

/// Node at an index of a vBucket row; `-1` stands for none.
pub open spec fn node_at(
    index: i64,
    endpoints: Seq<Endpoint>,
    vbucket: nat,
    role: Seq<char>,
) -> Outcome<Option<Seq<char>>> {
    if index == -1 {
        Ok(None)
    } else if index < 0 {
        Err(
            DcpFault::Topology(
                "vBucket "@ + dec(vbucket) + " has invalid "@ + role + " node index "@ + signed_dec(
                    index as int,
                ),
            ),
        )
    } else if index >= endpoints.len() {
        Err(
            DcpFault::Topology(
                "vBucket "@ + dec(vbucket) + " "@ + role + " node index "@ + signed_dec(
                    index as int,
                ) + " exceeds "@ + dec(endpoints.len()) + " endpoints"@,
            ),
        )
    } else {
        Ok(Some(endpoints[index as int].id))
    }
}

/// The replicas of a row, with the missing ones.
pub open spec fn replica_slots(row: Seq<i64>, endpoints: Seq<Endpoint>, vbucket: nat) -> Outcome<
    Seq<Option<Seq<char>>>,
> {
    collected(
        (row.len() - 1) as nat,
        |j: int| node_at(row[j + 1], endpoints, vbucket, "replica"@),
    )
}

/// Route described by one row of the vBucket map.
pub open spec fn route_at(row: Seq<i64>, replicas: nat, endpoints: Seq<Endpoint>, vbucket: nat) -> Outcome<
    Route,
> {
    if row.len() != replicas + 1 {
        Err(
            DcpFault::Topology(
                "vBucket "@ + dec(vbucket) + " has "@ + dec(row.len())
                    + " route entries; expected "@ + dec(replicas + 1),
            ),
        )
    } else {
        match node_at(row[0], endpoints, vbucket, "active"@) {
            Err(e) => Err(e),
            Ok(None) => Err(
                DcpFault::Topology("vBucket "@ + dec(vbucket) + " has no active node"@),
            ),
            Ok(Some(active)) => match replica_slots(row, endpoints, vbucket) {
                Err(e) => Err(e),
                Ok(slots) => Ok(Route { active, replicas: present(slots) }),
            },
        }
    }
}

/// Routes described by the vBucket map.
pub open spec fn route_list(map: RawVBucketServerMap, endpoints: Seq<Endpoint>) -> Outcome<
    Seq<Route>,
> {
    if map.num_replicas < 0 {
        Err(DcpFault::Topology("negative replica count "@ + signed_dec(map.num_replicas as int)))
    } else if map.v_bucket_map@.len() == 0 {
        Err(DcpFault::Topology("cluster config has no vBucket map"@))
    } else if map.v_bucket_map@.len() > 0x1_0000 {
        Err(
            DcpFault::Topology(
                "vBucket map has "@ + dec(map.v_bucket_map@.len())
                    + " entries, exceeding the u16 identifier space"@,
            ),
        )
    } else {
        collected(
            map.v_bucket_map@.len(),
            |v: int|
                route_at(map.v_bucket_map@[v]@, map.num_replicas as nat, endpoints, v as nat),
        )
    }
}

/// Content of an optional node identity.
pub open spec fn opt_id(node: Option<NodeId>) -> Option<Seq<char>> {
    match node {
        Some(n) => Some(n@),
        None => None,
    }
}

fn route_node(index: i64, endpoints: &Vec<KvEndpoint>, vbucket: usize, role: &str) -> (result:
    Result<Option<NodeId>>)
    ensures
        match (result, node_at(index, endpoints_of(endpoints@), vbucket as nat, role@)) {
            (Ok(node), Ok(id)) => opt_id(node) == id,
            (Err(e), Err(fault)) => e@ == fault,
            _ => false,
        },
{
    if index == -1 {
        return Ok(None);
    }
    if index < 0 {
        return Err(
            DcpError::Topology(
                join6(
                    "vBucket ",
                    dec_count(vbucket).as_str(),
                    " has invalid ",
                    role,
                    " node index ",
                    signed_dec_text(index).as_str(),
                ),
            ),
        );
    }
    if index as u64 >= endpoints.len() as u64 {
        let head = join6(
            "vBucket ",
            dec_count(vbucket).as_str(),
            " ",
            role,
            " node index ",
            signed_dec_text(index).as_str(),
        );
        return Err(
            DcpError::Topology(
                join4(
                    head.as_str(),
                    " exceeds ",
                    dec_count(endpoints.len()).as_str(),
                    " endpoints",
                ),
            ),
        );
    }
    assert(endpoints_of(endpoints@)[index as int] == endpoints@[index as int]@);
    Ok(Some(endpoints[index as usize].id().clone()))
}

fn build_route(row: &Vec<i64>, replicas: u64, endpoints: &Vec<KvEndpoint>, vbucket: usize) -> (result:
    Result<VBucketRoute>)
    requires
        replicas <= i64::MAX,
    ensures
        match (result, route_at(row@, replicas as nat, endpoints_of(endpoints@), vbucket as nat)) {
            (Ok(route), Ok(model)) => route_of(route) == model,
            (Err(e), Err(fault)) => e@ == fault,
            _ => false,
        },
{
    if row.len() as u64 != replicas + 1 {
        return Err(
            DcpError::Topology(
                join6(
                    "vBucket ",
                    dec_count(vbucket).as_str(),
                    " has ",
                    dec_count(row.len()).as_str(),
                    " route entries; expected ",
                    crate::text::dec_text(replicas + 1).as_str(),
                ),
            ),
        );
    }
    let active = match route_node(row[0], endpoints, vbucket, "active")? {
        Some(node) => node,
        None => {
            return Err(
                DcpError::Topology(
                    join3("vBucket ", dec_count(vbucket).as_str(), " has no active node"),
                ),
            );
        },
    };
    let mut nodes: Vec<NodeId> = Vec::new();
    let ghost models = endpoints_of(endpoints@);
    let ghost item = |j: int| node_at(row@[j + 1], models, vbucket as nat, "replica"@);
    let mut j: usize = 1;
    let ghost mut slots: Seq<Option<Seq<char>>> = Seq::empty();
    assert(ids_of(nodes@) =~= present(slots));
    while j < row.len()
        invariant
            1 <= j <= row@.len(),
            models == endpoints_of(endpoints@),
            item == (|j: int| node_at(row@[j + 1], models, vbucket as nat, "replica"@)),
            collected((j - 1) as nat, item) == Outcome::<Seq<Option<Seq<char>>>>::Ok(slots),
            ids_of(nodes@) == present(slots),
            replica_slots(row@, models, vbucket as nat) == collected((row@.len() - 1) as nat, item),
            route_at(row@, replicas as nat, models, vbucket as nat) == match replica_slots(
                row@,
                models,
                vbucket as nat,
            ) {
                Outcome::<Seq<Option<Seq<char>>>>::Err(e) => Outcome::<Route>::Err(e),
                Ok(slots) => Ok(Route { active: active@, replicas: present(slots) }),
            },
        decreases row@.len() - j,
    {
        match route_node(row[j], endpoints, vbucket, "replica") {
            Err(e) => {
                proof {
                    assert(item(j - 1) == Outcome::<Option<Seq<char>>>::Err(e@));
                    assert(collected(j as nat, item) == Outcome::<Seq<Option<Seq<char>>>>::Err(e@));
                    collected_stops(j as nat, (row@.len() - 1) as nat, item);
                }
                return Err(e);
            },
            Ok(slot) => {
                let ghost grown = slots.push(opt_id(slot));
                assert(item(j - 1) == Outcome::<Option<Seq<char>>>::Ok(opt_id(slot)));
                assert(grown.drop_last() =~= slots);
                if let Some(node) = slot {
                    let ghost before = ids_of(nodes@);
                    nodes.push(node);
                    assert(ids_of(nodes@) =~= before.push(node@));
                }
                proof {
                    slots = grown;
                }
            },
        }
        j = j + 1;
    }
    let route = VBucketRoute { active, replicas: nodes };
    Ok(route)
}

fn build_vbucket_routes(map: &RawVBucketServerMap, endpoints: &Vec<KvEndpoint>) -> (result: Result<
    Vec<VBucketRoute>,
>)
    ensures
        match (result, route_list(*map, endpoints_of(endpoints@))) {
            (Ok(routes), Ok(models)) => routes_of(routes@) == models,
            (Err(e), Err(fault)) => e@ == fault,
            _ => false,
        },
{
    if map.num_replicas < 0 {
        return Err(
            DcpError::Topology(
                join2("negative replica count ", signed_dec_text(map.num_replicas).as_str()),
            ),
        );
    }
    if map.v_bucket_map.len() == 0 {
        return Err(DcpError::Topology("cluster config has no vBucket map".to_owned()));
    }
    if map.v_bucket_map.len() > 0x1_0000 {
        return Err(
            DcpError::Topology(
                join3(
                    "vBucket map has ",
                    dec_count(map.v_bucket_map.len()).as_str(),
                    " entries, exceeding the u16 identifier space",
                ),
            ),
        );
    }
    let ghost models = endpoints_of(endpoints@);
    let ghost item = |v: int|
        route_at(map.v_bucket_map@[v]@, map.num_replicas as nat, models, v as nat);
    let mut routes: Vec<VBucketRoute> = Vec::new();
    let mut v: usize = 0;
    assert(routes_of(routes@) =~= Seq::empty());
    while v < map.v_bucket_map.len()
        invariant
            v <= map.v_bucket_map@.len(),
            map.num_replicas >= 0,
            models == endpoints_of(endpoints@),
            item == (|v: int|
                route_at(map.v_bucket_map@[v]@, map.num_replicas as nat, models, v as nat)),
            collected(v as nat, item) == Outcome::<Seq<Route>>::Ok(routes_of(routes@)),
            route_list(*map, models) == collected(map.v_bucket_map@.len(), item),
        decreases map.v_bucket_map@.len() - v,
    {
        match build_route(&map.v_bucket_map[v], map.num_replicas as u64, endpoints, v) {
            Err(e) => {
                proof {
                    assert(item(v as int) == Outcome::<Route>::Err(e@));
                    assert(collected((v + 1) as nat, item) == Outcome::<Seq<Route>>::Err(e@));
                    collected_stops((v + 1) as nat, map.v_bucket_map@.len(), item);
                }
                return Err(e);
            },
            Ok(route) => {
                let ghost before = routes_of(routes@);
                assert(item(v as int) == Outcome::<Route>::Ok(route_of(route)));
                routes.push(route);
                assert(routes_of(routes@) =~= before.push(route_of(route)));
            },
        }
        v = v + 1;
    }
    Ok(routes)
}

/// The topology that a configuration describes.
pub open spec fn described(
    config: RawBucketConfig,
    source_address: Seq<char>,
    tls: bool,
    requested: TopologyNetwork,
) -> Outcome<Topology> {
    let map = config.v_bucket_server_map;
    if config.rev < 0 || config.rev_epoch < 0 {
        Err(
            DcpFault::Topology(
                "negative topology revision "@ + signed_dec(config.rev_epoch as int) + "/"@
                    + signed_dec(config.rev as int),
            ),
        )
    } else if blank(config.name@) {
        Err(DcpFault::Topology("cluster config has no bucket name"@))
    } else if config.node_locator@ != "vbucket"@ {
        Err(
            DcpFault::Topology(
                "unsupported node locator "@ + quoted(config.node_locator@)
                    + "; DCP requires vbucket routing"@,
            ),
        )
    } else if map.hash_algorithm@ != "CRC"@ {
        Err(
            DcpFault::Topology(
                "unsupported vBucket hash algorithm "@ + quoted(map.hash_algorithm@),
            ),
        )
    } else {
        match split(source_address) {
            Err(e) => Err(e),
            Ok((source_host, _)) => match chosen_network(
                requested,
                config.nodes_ext@,
                map.server_list@.len(),
                source_address,
                source_host,
                tls,
            ) {
                Err(e) => Err(e),
                Ok(network) => match endpoint_list(
                    config.nodes_ext@,
                    map.server_list@,
                    source_host,
                    tls,
                    network,
                ) {
                    Err(e) => Err(e),
                    Ok(endpoints) => if !distinct_ids(endpoints) {
                        Err(
                            DcpFault::Topology(
                                "cluster config contains duplicate KV node identities"@,
                            ),
                        )
                    } else {
                        match route_list(map, endpoints) {
                            Err(e) => Err(e),
                            Ok(routes) => Ok(
                                Topology {
                                    bucket: config.name@,
                                    bucket_uuid: if config.uuid@.len() == 0 {
                                        None
                                    } else {
                                        Some(config.uuid@)
                                    },
                                    revision: TopologyRevision {
                                        epoch: config.rev_epoch as u64,
                                        revision: config.rev as u64,
                                    },
                                    network,
                                    endpoints: endpoints.to_set(),
                                    routes,
                                },
                            ),
                        }
                    },
                },
            },
        }
    }
}

proof fn routes_lead_to_nodes(map: RawVBucketServerMap, endpoints: Seq<Endpoint>, topology: Topology)
    requires
        route_list(map, endpoints) == Outcome::<Seq<Route>>::Ok(topology.routes),
        topology.endpoints == endpoints.to_set(),
        distinct_ids(endpoints),
    ensures
        topology.coherent(),
{
    let n = map.v_bucket_map@.len();
    let item = |v: int|
        route_at(map.v_bucket_map@[v]@, map.num_replicas as nat, endpoints, v as nat);
    collected_items(n, item);
    assert forall|i: int| 0 <= i < endpoints.len() implies topology.nodes().contains(
        (#[trigger] endpoints[i]).id,
    ) by {
        assert(endpoints.contains(endpoints[i]));
        assert(topology.endpoints.contains(endpoints[i]));
    }
    assert forall|v: int| 0 <= v < topology.routes.len() implies topology.nodes().contains(
        #[trigger] topology.routes[v].active,
    ) by {
        assert(item(v) == Outcome::<Route>::Ok(topology.routes[v]));
    }
    assert forall|v: int, r: int|
        0 <= v < topology.routes.len() && 0 <= r < topology.routes[v].replicas.len() implies topology.nodes().contains(
        #[trigger] topology.routes[v].replicas[r]) by {
        assert(item(v) == Outcome::<Route>::Ok(topology.routes[v]));
        let row = map.v_bucket_map@[v]@;
        let slot = |j: int| node_at(row[j + 1], endpoints, v as nat, "replica"@);
        let slots = replica_slots(row, endpoints, v as nat)->Ok_0;
        collected_items((row.len() - 1) as nat, slot);
        present_items(slots);
        let id = topology.routes[v].replicas[r];
        assert(present(slots)[r] == id);
        assert(slots.contains(Some(id)));
        let k = choose|k: int| 0 <= k < slots.len() && slots[k] == Some(id);
        assert(slot(k) == Outcome::<Option<Seq<char>>>::Ok(slots[k]));
    }
    assert forall|a: Endpoint, b: Endpoint| #[trigger]
        topology.endpoints.contains(a) && #[trigger] topology.endpoints.contains(b) && a.id
            == b.id implies a == b by {
        let i = choose|i: int| 0 <= i < endpoints.len() && endpoints[i] == a;
        let j = choose|j: int| 0 <= j < endpoints.len() && endpoints[j] == b;
        if i < j {
            assert(endpoints[i].id != endpoints[j].id);
        } else if j < i {
            assert(endpoints[j].id != endpoints[i].id);
        }
    }
}

/// Whatever configuration is accepted describes routes that lead to known,
/// unambiguous nodes.
pub proof fn described_topology_is_coherent(
    config: RawBucketConfig,
    source_address: Seq<char>,
    tls: bool,
    requested: TopologyNetwork,
)
    requires
        described(config, source_address, tls, requested) is Ok,
    ensures
        described(config, source_address, tls, requested)->Ok_0.coherent(),
{
    let topology = described(config, source_address, tls, requested)->Ok_0;
    let source_host = split(source_address)->Ok_0.0;
    let endpoints = endpoint_list(
        config.nodes_ext@,
        config.v_bucket_server_map.server_list@,
        source_host,
        tls,
        topology.network,
    )->Ok_0;
    routes_lead_to_nodes(config.v_bucket_server_map, endpoints, topology);
}

fn identities_differ(list: &Vec<KvEndpoint>) -> (result: bool)
    ensures
        result == distinct_ids(endpoints_of(list@)),
{
    let ghost models = endpoints_of(list@);
    let mut i: usize = 0;
    while i < list.len()
        invariant
            i <= list@.len(),
            models == endpoints_of(list@),
            forall|a: int, b: int|
                0 <= a < b < list@.len() && a < i ==> (#[trigger] models[a]).id
                    != (#[trigger] models[b]).id,
        decreases list@.len() - i,
    {
        let mut j: usize = i + 1;
        while j < list.len()
            invariant
                i < j <= list@.len(),
                models == endpoints_of(list@),
                forall|b: int| i < b < j ==> models[i as int].id != (#[trigger] models[b]).id,
            decreases list@.len() - j,
        {
            assert(models[i as int] == list@[i as int]@);
            assert(models[j as int] == list@[j as int]@);
            if same_text(list[i].id().as_str(), list[j].id().as_str()) {
                return false;
            }
            j = j + 1;
        }
        i = i + 1;
    }
    true
}

impl RawBucketConfig {
    /// Validates the configuration and builds the topology it describes.
    pub fn build(self, source_address: &str, tls: bool, requested_network: &TopologyNetwork) -> (result:
        Result<ClusterTopology>)
        ensures
            agrees(result, described(self, source_address@, tls, *requested_network)),
    {
        if self.rev < 0 || self.rev_epoch < 0 {
            return Err(
                DcpError::Topology(
                    join4(
                        "negative topology revision ",
                        signed_dec_text(self.rev_epoch).as_str(),
                        "/",
                        signed_dec_text(self.rev).as_str(),
                    ),
                ),
            );
        }
        if is_blank(self.name.as_str()) {
            return Err(DcpError::Topology("cluster config has no bucket name".to_owned()));
        }
        if !same_text(self.node_locator.as_str(), "vbucket") {
            return Err(
                DcpError::Topology(
                    join3(
                        "unsupported node locator ",
                        quoted_text(self.node_locator.as_str()).as_str(),
                        "; DCP requires vbucket routing",
                    ),
                ),
            );
        }
        if !same_text(self.v_bucket_server_map.hash_algorithm.as_str(), "CRC") {
            return Err(
                DcpError::Topology(
                    join2(
                        "unsupported vBucket hash algorithm ",
                        quoted_text(self.v_bucket_server_map.hash_algorithm.as_str()).as_str(),
                    ),
                ),
            );
        }
        let (source_host, _) = match split_endpoint(source_address) {
            Ok(parts) => parts,
            Err(e) => {
                return Err(e);
            },
        };
        let network = resolve_network(
            requested_network,
            &self.nodes_ext,
            self.v_bucket_server_map.server_list.len(),
            source_address,
            source_host,
            tls,
        )?;
        let endpoints = build_endpoints(
            &self.nodes_ext,
            &self.v_bucket_server_map.server_list,
            source_host,
            tls,
            network.as_str(),
        )?;
        if !identities_differ(&endpoints) {
            return Err(
                DcpError::Topology(
                    "cluster config contains duplicate KV node identities".to_owned(),
                ),
            );
        }
        let routes = build_vbucket_routes(&self.v_bucket_server_map, &endpoints)?;
        let ghost models = endpoints_of(endpoints@);
        let uuid: Option<String> = if self.uuid.as_str().is_empty() {
            None
        } else {
            Some(self.uuid.clone())
        };
        let revision = TopologyRevision::new(self.rev_epoch as u64, self.rev as u64);
        proof {
            routes_lead_to_nodes(
                self.v_bucket_server_map,
                models,
                Topology {
                    bucket: self.name@,
                    bucket_uuid: opt_text(uuid),
                    revision,
                    network: network@,
                    endpoints: models.to_set(),
                    routes: routes_of(routes@),
                },
            );
        }
        Ok(ClusterTopology::assemble(self.name, uuid, revision, network, endpoints, routes))
    }
}

} // verus!
