//! Laws of cluster topologies and of their changes.
use std::collections::BTreeMap;
use vstd::prelude::*;

use crate::address::{canonical, split, split_endpoint};
use crate::bucket_config::{
    alternate, candidate_nodes, chosen_network, endpoint_list, is_default_source, kv_nodes,
    legacy_endpoint, node_at, node_entry, or_empty, replica_slots, resolve_network, route_at,
    RawBucketConfig, RawNodeExt, RawNodeServices,
};
use crate::checkpoint::FailoverEntry;
use crate::error::{Outcome, Result};
use crate::laws::addresses::{
    advertises, dialled_host, dials, first_alternate, names_host, node_address_is_advertised,
};
use crate::lists::{
    collected, collected_fault_is_of_an_item, collected_items, first_where_ensures, present,
};
use crate::protocol::VBucketSeqno;
use crate::text::{blank, solid};
use crate::topology::{
    accept_discovered, collect_high_seqnos, high_seqnos, ids_of, places, require_failover_log,
    ClusterTopology, Endpoint, KvEndpoint, NodeId, NodeVBuckets, Route, Topology, TopologyChange,
    TopologyNetwork, TopologyRevision, TopologyState,
};

verus! {

broadcast use {vstd::std_specs::btree::group_btree_axioms, vstd::laws_cmp::group_laws_cmp};

/// The node is dialled where it advertises itself: on the network, under its
/// own host or the source's, at the TLS port with TLS and at the plain port
/// without.
pub open spec fn dialled(
    address: Seq<char>,
    node: RawNodeExt,
    network: Seq<char>,
    source_host: Seq<char>,
    tls: bool,
) -> bool {
    forall|hostname: Option<String>, services: RawNodeServices, host: Seq<char>|
        #![trigger advertises(node, network, hostname, services), names_host(
            dialled_host(hostname, source_host),
            host,
        )]
        advertises(node, network, hostname, services) && names_host(
            dialled_host(hostname, source_host),
            host,
        ) ==> {
            &&& tls ==> services.kv_ssl != 0 && dials(address, host, services.kv_ssl)
            &&& !tls ==> services.kv != 0 && dials(address, host, services.kv)
        }
}

/// The endpoint is the node: dialled on the network, known by its address on
/// the default network, and named by its UUID, or by its place in the list
/// where it has none.
pub open spec fn stands_for(
    e: Endpoint,
    node: RawNodeExt,
    server: Seq<char>,
    network: Seq<char>,
    source_host: Seq<char>,
    tls: bool,
) -> bool {
    &&& dialled(e.address, node, network, source_host, tls)
    &&& dialled(e.canonical_address, node, "default"@, source_host, tls)
    &&& match node.node_uuid {
        Some(uuid) => if blank(uuid@) {
            canonical(server) is Ok && e.id == canonical(server)->Ok_0
        } else {
            e.id == uuid@
        },
        None => canonical(server) is Ok && e.id == canonical(server)->Ok_0,
    }
    &&& match node.server_group {
        Some(group) => if group@.len() == 0 {
            e.server_group is None
        } else {
            e.server_group == Some(group@)
        },
        None => e.server_group is None,
    }
}

/// The endpoints of a configuration, in the order of its server list: its
/// key-value nodes, or the servers themselves where no nodes are described.
pub open spec fn laid_out(
    config: RawBucketConfig,
    source_host: Seq<char>,
    tls: bool,
    network: Seq<char>,
    list: Seq<Endpoint>,
) -> bool {
    let servers = config.v_bucket_server_map.server_list@;
    &&& list.len() == servers.len()
    &&& forall|i: int|
        0 <= i < list.len() ==> if config.nodes_ext@.len() == 0 {
            &&& canonical(servers[i]@) is Ok
            &&& (#[trigger] list[i]).id == canonical(servers[i]@)->Ok_0
            &&& list[i].address == list[i].id
            &&& list[i].canonical_address == list[i].id
            &&& list[i].server_group is None
        } else {
            stands_for(
                list[i],
                kv_nodes(config.nodes_ext@)[i],
                servers[i]@,
                network,
                source_host,
                tls,
            )
        }
    &&& forall|i: int, j: int|
        0 <= i < j < list.len() ==> (#[trigger] list[i]).id != (#[trigger] list[j]).id
}

/// The route follows its row: the first index names the active node, the
/// others, but for those that are absent, the replicas in their order.
pub open spec fn follows(row: Seq<i64>, list: Seq<Endpoint>, route: Route) -> bool {
    &&& row.len() > 0
    &&& 0 <= row[0] < list.len()
    &&& route.active == list[row[0] as int].id
    &&& forall|j: int| 0 < j < row.len() ==> -1 <= #[trigger] row[j] < list.len()
    &&& route.replicas == named(row.skip(1), list)
}

/// Nodes that the indices name, in their order, without the absent ones.
pub open spec fn named(indices: Seq<i64>, list: Seq<Endpoint>) -> Seq<Seq<char>>
    decreases indices.len(),
{
    if indices.len() == 0 {
        Seq::empty()
    } else if indices.last() == -1 {
        named(indices.drop_last(), list)
    } else {
        named(indices.drop_last(), list).push(list[indices.last() as int].id)
    }
}

proof fn slots_are_named(row: Seq<i64>, list: Seq<Endpoint>, vbucket: nat, n: nat)
    requires
        n < row.len(),
        collected(n, |j: int| node_at(row[j + 1], list, vbucket, "replica"@)) is Ok,
    ensures
        ({
            let slots = collected(
                n,
                |j: int| node_at(row[j + 1], list, vbucket, "replica"@),
            )->Ok_0;
            &&& slots.len() == n
            &&& present(slots) == named(row.subrange(1, n as int + 1), list)
            &&& forall|j: int| 0 < j <= n ==> -1 <= #[trigger] row[j] < list.len()
        }),
    decreases n,
{
    let item = |j: int| node_at(row[j + 1], list, vbucket, "replica"@);
    if n > 0 {
        let m = (n - 1) as nat;
        slots_are_named(row, list, vbucket, m);
        let shorter = collected(m, item)->Ok_0;
        let slots = collected(n, item)->Ok_0;
        assert(item(n - 1) == node_at(row[n as int], list, vbucket, "replica"@));
        assert(slots == shorter.push(item(n - 1)->Ok_0));
        assert(slots.drop_last() =~= shorter);
        let indices = row.subrange(1, n as int + 1);
        assert(indices.drop_last() =~= row.subrange(1, m as int + 1));
        assert(indices.last() == row[n as int]);
    }
}

proof fn rows_are_followed(row: Seq<i64>, replicas: nat, list: Seq<Endpoint>, vbucket: nat)
    requires
        route_at(row, replicas, list, vbucket) is Ok,
    ensures
        follows(row, list, route_at(row, replicas, list, vbucket)->Ok_0),
        row.len() == replicas + 1,
{
    slots_are_named(row, list, vbucket, (row.len() - 1) as nat);
    assert(row.subrange(1, row.len() as int) =~= row.skip(1));
}

proof fn entries_stand_for_nodes(
    node: RawNodeExt,
    server: Seq<char>,
    source_host: Seq<char>,
    tls: bool,
    network: Seq<char>,
)
    requires
        node_entry(node, server, source_host, tls, network) is Ok,
    ensures
        stands_for(
            node_entry(node, server, source_host, tls, network)->Ok_0,
            node,
            server,
            network,
            source_host,
            tls,
        ),
{
    let e = node_entry(node, server, source_host, tls, network)->Ok_0;
    assert forall|hostname: Option<String>, services: RawNodeServices, host: Seq<char>|
        #![trigger advertises(node, network, hostname, services), names_host(
            dialled_host(hostname, source_host),
            host,
        )]
        advertises(node, network, hostname, services) && names_host(
            dialled_host(hostname, source_host),
            host,
        ) implies {
        &&& tls ==> services.kv_ssl != 0 && dials(e.address, host, services.kv_ssl)
        &&& !tls ==> services.kv != 0 && dials(e.address, host, services.kv)
    } by {
        node_address_is_advertised(node, network, source_host, tls, hostname, services, host);
    }
    assert forall|hostname: Option<String>, services: RawNodeServices, host: Seq<char>|
        #![trigger advertises(node, "default"@, hostname, services), names_host(
            dialled_host(hostname, source_host),
            host,
        )]
        advertises(node, "default"@, hostname, services) && names_host(
            dialled_host(hostname, source_host),
            host,
        ) implies {
        &&& tls ==> services.kv_ssl != 0 && dials(e.canonical_address, host, services.kv_ssl)
        &&& !tls ==> services.kv != 0 && dials(e.canonical_address, host, services.kv)
    } by {
        node_address_is_advertised(node, "default"@, source_host, tls, hostname, services, host);
    }
    match node.node_uuid {
        Some(uuid) => {
            assert(or_empty(node.node_uuid) == uuid@);
        },
        None => {
            assert(or_empty(node.node_uuid).len() == 0);
            assert(blank(or_empty(node.node_uuid)));
        },
    }
}

/// The endpoints of a topology are those of the configuration that it was
/// built from, each dialled at the port that it advertises; every vBucket is
/// routed as its row says; and the names and the revision are kept.
pub proof fn topologies_are_as_configured(
    config: RawBucketConfig,
    source_address: &str,
    tls: bool,
    requested: TopologyNetwork,
    topology: ClusterTopology,
    source_host: &str,
    source_port: u16,
)
    requires
        call_ensures(
            RawBucketConfig::build,
            (config, source_address, tls, &requested),
            Ok(topology),
        ),
        call_ensures(split_endpoint, (source_address,), Ok((source_host, source_port))),
    ensures
        exists|list: Seq<Endpoint>| #[trigger]
            laid_out(config, source_host@, tls, topology@.network, list) && list.to_set()
                == topology@.endpoints && forall|v: int|
                0 <= v < topology@.routes.len() ==> follows(
                    config.v_bucket_server_map.v_bucket_map@[v]@,
                    list,
                    #[trigger] topology@.routes[v],
                ),
        topology@.routes.len() == config.v_bucket_server_map.v_bucket_map@.len(),
        topology@.bucket == config.name@,
        config.uuid@.len() > 0 ==> topology@.bucket_uuid == Some(config.uuid@),
        config.uuid@.len() == 0 ==> topology@.bucket_uuid is None,
        topology@.revision.epoch == config.rev_epoch,
        topology@.revision.revision == config.rev,
        !blank(config.name@),
        config.node_locator@ == "vbucket"@,
        config.v_bucket_server_map.hash_algorithm@ == "CRC"@,
        config.nodes_ext@.len() == 0 ==> !tls && topology@.network == "default"@,
        forall|v: int|
            0 <= v < topology@.routes.len() ==> (
            #[trigger] config.v_bucket_server_map.v_bucket_map@[v])@.len()
                == config.v_bucket_server_map.num_replicas + 1,
{
    let map = config.v_bucket_server_map;
    let servers = map.server_list@;
    let nodes = config.nodes_ext@;
    let network = topology@.network;
    let list = endpoint_list(nodes, servers, source_host@, tls, network)->Ok_0;
    if nodes.len() == 0 {
        let item = |i: int| legacy_endpoint(servers[i]@);
        collected_items(servers.len(), item);
        assert forall|i: int| 0 <= i < list.len() implies {
            &&& canonical(servers[i]@) is Ok
            &&& (#[trigger] list[i]).id == canonical(servers[i]@)->Ok_0
            &&& list[i].address == list[i].id
            &&& list[i].canonical_address == list[i].id
            &&& list[i].server_group is None
        } by {
            assert(item(i) == Outcome::<Endpoint>::Ok(list[i]));
        }
    } else {
        let item = |i: int|
            node_entry(kv_nodes(nodes)[i], servers[i]@, source_host@, tls, network);
        collected_items(servers.len(), item);
        assert forall|i: int| 0 <= i < list.len() implies stands_for(
            #[trigger] list[i],
            kv_nodes(nodes)[i],
            servers[i]@,
            network,
            source_host@,
            tls,
        ) by {
            assert(item(i) == Outcome::<Endpoint>::Ok(list[i]));
            entries_stand_for_nodes(
                kv_nodes(nodes)[i],
                servers[i]@,
                source_host@,
                tls,
                network,
            );
        }
    }
    assert(laid_out(config, source_host@, tls, network, list));
    let rows = map.v_bucket_map@;
    let route = |v: int| route_at(rows[v]@, map.num_replicas as nat, list, v as nat);
    collected_items(rows.len(), route);
    assert forall|v: int| 0 <= v < topology@.routes.len() implies follows(
        rows[v]@,
        list,
        #[trigger] topology@.routes[v],
    ) by {
        assert(route(v) == Outcome::<Route>::Ok(topology@.routes[v]));
        rows_are_followed(rows[v]@, map.num_replicas as nat, list, v as nat);
    }
    assert forall|v: int| 0 <= v < topology@.routes.len() implies (#[trigger] rows[v])@.len()
        == map.num_replicas + 1 by {
        assert(route(v) == Outcome::<Route>::Ok(topology@.routes[v]));
        rows_are_followed(rows[v]@, map.num_replicas as nat, list, v as nat);
    }
}

/// The nodes that are dialled are those of the configuration that serve
/// documents, with TLS or without, in their order.
pub proof fn dialled_nodes_serve_documents(nodes: Seq<RawNodeExt>, node: RawNodeExt)
    ensures
        kv_nodes(Seq::empty()).len() == 0,
        kv_nodes(nodes.push(node)) == if node.services.kv != 0 || node.services.kv_ssl != 0 {
            kv_nodes(nodes).push(node)
        } else {
            kv_nodes(nodes)
        },
{
    reveal(Seq::filter);
    assert(nodes.push(node).drop_last() =~= nodes);
}

/// A configuration that cannot be routed is refused.
pub proof fn unroutable_configurations_are_refused(
    config: RawBucketConfig,
    source_address: &str,
    tls: bool,
    requested: TopologyNetwork,
    result: Result<ClusterTopology>,
)
    requires
        call_ensures(RawBucketConfig::build, (config, source_address, tls, &requested), result),
    ensures
        config.rev < 0 || config.rev_epoch < 0 ==> result is Err,
        blank(config.name@) ==> result is Err,
        config.node_locator@ != "vbucket"@ ==> result is Err,
        config.v_bucket_server_map.hash_algorithm@ != "CRC"@ ==> result is Err,
        config.v_bucket_server_map.server_list@.len() == 0 ==> result is Err,
        config.v_bucket_server_map.v_bucket_map@.len() == 0 ==> result is Err,
        config.v_bucket_server_map.v_bucket_map@.len() > 0x1_0000 ==> result is Err,
        config.v_bucket_server_map.num_replicas < 0 ==> result is Err,
        config.nodes_ext@.len() == 0 && tls ==> result is Err,
        config.nodes_ext@.len() > 0 && kv_nodes(config.nodes_ext@).len()
            < config.v_bucket_server_map.server_list@.len() ==> result is Err,
        result matches Err(e) ==> e is Topology,
{
    if result is Err {
        let map = config.v_bucket_server_map;
        if split(source_address@) is Ok {
            let host = split(source_address@)->Ok_0.0;
            let picked = chosen_network(
                requested,
                config.nodes_ext@,
                map.server_list@.len(),
                source_address@,
                host,
                tls,
            );
            if picked is Ok {
                faults_are_of_topology(config, host, tls, picked->Ok_0);
            }
        }
    }
}

proof fn faults_are_of_topology(
    config: RawBucketConfig,
    host: Seq<char>,
    tls: bool,
    network: Seq<char>,
)
    ensures
        endpoint_list(
            config.nodes_ext@,
            config.v_bucket_server_map.server_list@,
            host,
            tls,
            network,
        ) matches Err(e) ==> e is Topology,
        forall|list: Seq<Endpoint>|
            (#[trigger] crate::bucket_config::route_list(config.v_bucket_server_map, list))
                matches Err(e) ==> e is Topology,
{
    let servers = config.v_bucket_server_map.server_list@;
    let nodes = config.nodes_ext@;
    let legacy = |i: int| legacy_endpoint(servers[i]@);
    let entry = |i: int| node_entry(kv_nodes(nodes)[i], servers[i]@, host, tls, network);
    if collected(servers.len(), legacy) is Err {
        collected_fault_is_of_an_item(servers.len(), legacy);
    }
    if collected(servers.len(), entry) is Err {
        collected_fault_is_of_an_item(servers.len(), entry);
    }
    let map = config.v_bucket_server_map;
    assert forall|list: Seq<Endpoint>|
        (#[trigger] crate::bucket_config::route_list(map, list)) is Err implies crate::bucket_config::route_list(map, list)->Err_0 is Topology by {
        let rows = map.v_bucket_map@;
        let route = |v: int| route_at(rows[v]@, map.num_replicas as nat, list, v as nat);
        if collected(rows.len(), route) is Err {
            collected_fault_is_of_an_item(rows.len(), route);
            let v = choose|v: int|
                0 <= v < rows.len() && (#[trigger] route(v)) is Err && route(v)->Err_0 == collected(
                    rows.len(),
                    route,
                )->Err_0;
            let row = rows[v]@;
            let slot = |j: int| node_at(row[j + 1], list, v as nat, "replica"@);
            if replica_slots(row, list, v as nat) is Err {
                collected_fault_is_of_an_item((row.len() - 1) as nat, slot);
            }
        }
    }
}

/// The candidate's address on the default network is the source.
pub open spec fn is_the_source(
    node: RawNodeExt,
    source_address: Seq<char>,
    source_host: Seq<char>,
    tls: bool,
) -> bool {
    is_default_source(node, source_address, source_host, tls)
}

/// A named network is used under its name. Where none is asked for, the
/// external network is used exactly when no node's default address is the
/// source and every node has an external address.
pub proof fn networks_are_used_as_asked(
    requested: TopologyNetwork,
    nodes: Vec<RawNodeExt>,
    server_count: usize,
    source_address: &str,
    source_host: &str,
    tls: bool,
    result: Result<String>,
)
    requires
        call_ensures(
            resolve_network,
            (&requested, &nodes, server_count, source_address, source_host, tls),
            result,
        ),
    ensures
        requested is Default ==> (result matches Ok(name) && name@ == "default"@),
        requested is External ==> (result matches Ok(name) && name@ == "external"@),
        requested matches TopologyNetwork::Named(wanted) ==> {
            &&& result is Ok <==> wanted@.len() > 0 && solid(wanted@)
            &&& result matches Ok(name) ==> name@ == wanted@
        },
        requested is Auto ==> (result matches Ok(name) && (name@ == "external"@ || name@
            == "default"@)),
        requested is Auto && nodes@.len() == 0 ==> result->Ok_0@ == "default"@,
        requested is Auto && (exists|i: int|
            0 <= i < server_count && i < kv_nodes(nodes@).len() && is_the_source(
                #[trigger] kv_nodes(nodes@)[i],
                source_address@,
                source_host@,
                tls,
            )) ==> result->Ok_0@ == "default"@,
        requested is Auto && nodes@.len() > 0 && kv_nodes(nodes@).len() >= server_count && (forall|
            i: int,
        |
            0 <= i < server_count ==> !is_the_source(
                #[trigger] kv_nodes(nodes@)[i],
                source_address@,
                source_host@,
                tls,
            ) && exists|k: int| #[trigger]
                first_alternate(kv_nodes(nodes@)[i].alternate_addresses@, "external"@, k))
            ==> result->Ok_0@ == "external"@,
        requested is Auto && (exists|i: int|
            0 <= i < server_count && i < kv_nodes(nodes@).len() && forall|k: int|
                0 <= k < (#[trigger] kv_nodes(nodes@)[i]).alternate_addresses@.len() ==> (
                #[trigger] kv_nodes(nodes@)[i].alternate_addresses@[k]).network@ != "external"@)
            ==> result->Ok_0@ == "default"@,
{
    let all = kv_nodes(nodes@);
    let candidates = candidate_nodes(nodes@, server_count as nat);
    reveal_strlit("default");
    reveal_strlit("external");
    assert(requested is Auto ==> result is Ok);
    assert forall|i: int| 0 <= i < candidates.len() implies candidates[i] == all[i] by {}
    assert forall|i: int| 0 <= i < all.len() implies {
        &&& alternate(#[trigger] all[i], "external"@) is Some ==> exists|k: int|
            first_alternate(all[i].alternate_addresses@, "external"@, k)
        &&& (exists|k: int| first_alternate(all[i].alternate_addresses@, "external"@, k))
            ==> alternate(all[i], "external"@) is Some
    } by {
        let list = all[i].alternate_addresses@;
        let named = |a: crate::bucket_config::RawAlternateAddress| a.network@ == "external"@;
        first_where_ensures(list, named);
        if alternate(all[i], "external"@) is Some {
            let k = crate::lists::first_where(list, named)->0;
            assert forall|j: int| 0 <= j < k implies (#[trigger] list[j]).network@ != "external"@ by {
                assert(!named(list[j]));
            }
            assert(named(list[k]));
            assert(first_alternate(list, "external"@, k));
        }
        if exists|k: int| first_alternate(list, "external"@, k) {
            let k = choose|k: int| first_alternate(list, "external"@, k);
            assert(named(list[k]));
        }
    }
    if let TopologyNetwork::Named(wanted) = requested {
        if wanted@.len() > 0 && solid(wanted@) {
            assert(!crate::text::white_space(wanted@[0]));
            assert(!blank(wanted@));
        }
    }
    if requested is Auto {
        if exists|i: int|
            0 <= i < server_count && i < all.len() && is_the_source(
                #[trigger] all[i],
                source_address@,
                source_host@,
                tls,
            ) {
            let i = choose|i: int|
                0 <= i < server_count && i < all.len() && is_the_source(
                    #[trigger] all[i],
                    source_address@,
                    source_host@,
                    tls,
                );
            assert(candidates[i] == all[i]);
            assert(is_default_source(candidates[i], source_address@, source_host@, tls));
        }
        if exists|i: int|
            0 <= i < server_count && i < all.len() && forall|k: int|
                0 <= k < (#[trigger] all[i]).alternate_addresses@.len() ==> (
                #[trigger] all[i].alternate_addresses@[k]).network@ != "external"@ {
            let i = choose|i: int|
                0 <= i < server_count && i < all.len() && forall|k: int|
                    0 <= k < (#[trigger] all[i]).alternate_addresses@.len() ==> (
                    #[trigger] all[i].alternate_addresses@[k]).network@ != "external"@;
            assert(candidates[i] == all[i]);
            assert(alternate(candidates[i], "external"@) is None);
        }
    }
}

/// A revision is newer in a later epoch, and within an epoch with a greater
/// number or none.
pub proof fn newer_revisions_come_later(a: TopologyRevision, b: TopologyRevision, newer: bool)
    requires
        call_ensures(TopologyRevision::is_newer_than, (a, b), newer),
    ensures
        a.epoch > b.epoch ==> newer,
        a.epoch < b.epoch ==> !newer,
        a.epoch == b.epoch && a.revision > b.revision ==> newer,
        a.epoch == b.epoch && 0 < a.revision <= b.revision ==> !newer,
        a.epoch == b.epoch && a.revision == 0 ==> newer,
{
}

/// Requested vBuckets are grouped by their active nodes, each with the node
/// that its route names, and none is left out or added.
pub proof fn vbuckets_go_to_their_active_node(
    topology: ClusterTopology,
    vbuckets: &[u16],
    result: Result<Vec<NodeVBuckets>>,
    v: u16,
    node: Seq<char>,
)
    requires
        call_ensures(ClusterTopology::active_vbuckets_by_node, (&topology, vbuckets), result),
    ensures
        result is Ok <==> forall|i: int|
            0 <= i < vbuckets@.len() ==> (#[trigger] vbuckets@[i] as int) < topology@.routes.len(),
        result matches Ok(groups) ==> ((exists|i: int|
            0 <= i < groups@.len() && #[trigger] groups@[i].node@ == node
                && groups@[i].vbuckets@.contains(v)) <==> vbuckets@.contains(v)
            && topology@.routes[v as int].active == node),
        result matches Err(e) ==> e is Topology,
{
    first_where_ensures(vbuckets@, |w: u16| topology@.active_at(w) is None);
    if result is Ok {
        assert forall|i: int| 0 <= i < vbuckets@.len() implies (#[trigger] vbuckets@[i] as int)
            < topology@.routes.len() by {
            let absent = |w: u16| topology@.active_at(w) is None;
            assert(!absent(vbuckets@[i]));
        }
        assert(places(result->Ok_0@, node, v) <==> vbuckets@.contains(v)
            && topology@.routes[v as int].active == node);
    }
}

/// All vBuckets are grouped by their active nodes.
pub proof fn all_vbuckets_go_to_their_active_node(
    topology: ClusterTopology,
    groups: Vec<NodeVBuckets>,
    v: u16,
    node: Seq<char>,
)
    requires
        call_ensures(ClusterTopology::all_active_vbuckets_by_node, (&topology,), groups),
    ensures
        (exists|i: int|
            0 <= i < groups@.len() && #[trigger] groups@[i].node@ == node
                && groups@[i].vbuckets@.contains(v)) <==> (v as int) < topology@.routes.len()
            && topology@.routes[v as int].active == node,
{
    assert(places(groups@, node, v) <==> (v as int) < topology@.routes.len()
        && topology@.routes[v as int].active == node);
}

/// The nodes of a vBucket are those of its route.
pub proof fn routes_are_looked_up(
    topology: ClusterTopology,
    v: u16,
    active: Result<&NodeId>,
    replicas: Result<&[NodeId]>,
    endpoint: Result<&KvEndpoint>,
    count: usize,
)
    requires
        call_ensures(ClusterTopology::active_node, (&topology, v), active),
        call_ensures(ClusterTopology::replica_nodes, (&topology, v), replicas),
        call_ensures(ClusterTopology::active_endpoint, (&topology, v), endpoint),
        call_ensures(ClusterTopology::num_vbuckets, (&topology,), count),
    ensures
        count == topology@.routes.len(),
        active is Ok <==> v < count,
        replicas is Ok <==> v < count,
        endpoint is Ok <==> v < count,
        active matches Ok(node) ==> node@ == topology@.routes[v as int].active,
        replicas matches Ok(nodes) ==> {
            &&& nodes@.len() == topology@.routes[v as int].replicas.len()
            &&& forall|i: int|
                0 <= i < nodes@.len() ==> (#[trigger] nodes@[i])@
                    == topology@.routes[v as int].replicas[i]
        },
        endpoint matches Ok(e) ==> e@.id == topology@.routes[v as int].active
            && topology@.endpoints.contains(e@),
        active matches Err(e) ==> e is Topology,
{
    if replicas is Ok {
        let nodes = replicas->Ok_0@;
        assert forall|i: int| 0 <= i < nodes.len() implies (#[trigger] nodes[i])@
            == topology@.routes[v as int].replicas[i] by {
            assert(ids_of(nodes)[i] == nodes[i]@);
        }
    }
}

/// An endpoint is found under its identity, and is an endpoint of the topology.
pub proof fn endpoints_are_found_by_identity(
    topology: ClusterTopology,
    node: &str,
    found: Option<&KvEndpoint>,
    e: Endpoint,
)
    requires
        call_ensures(ClusterTopology::endpoint, (&topology, node), found),
        topology@.endpoints.contains(e),
        e.id == node@,
    ensures
        found is Some,
        found->0@.id == node@,
        topology@.endpoints.contains(found->0@),
{
    assert(topology@.nodes().contains(node@)) by {
        let id = |x: Endpoint| x.id;
        assert(topology@.endpoints.map(id).contains(id(e)));
    }
}

/// A node is known to the topology.
pub open spec fn has_node(t: Topology, node: Seq<char>) -> bool {
    exists|e: Endpoint| #[trigger] t.endpoints.contains(e) && e.id == node
}

/// A node is dialled at the address.
pub open spec fn dials_node(t: Topology, node: Seq<char>, address: Seq<char>) -> bool {
    exists|e: Endpoint| #[trigger]
        t.endpoints.contains(e) && e.id == node && e.address == address
}

proof fn nodes_are_known(t: Topology, node: Seq<char>)
    ensures
        t.nodes().contains(node) <==> has_node(t, node),
{
    let id = |x: Endpoint| x.id;
    if t.nodes().contains(node) {
        assert(exists|e: Endpoint| t.endpoints.contains(e) && node == id(e));
        let e = choose|e: Endpoint| t.endpoints.contains(e) && node == id(e);
        assert(t.endpoints.contains(e));
    }
    if has_node(t, node) {
        let e = choose|e: Endpoint| #[trigger] t.endpoints.contains(e) && e.id == node;
        assert(t.endpoints.map(id).contains(id(e)));
    }
}

proof fn listed_ids(list: Seq<NodeId>, node: Seq<char>)
    ensures
        ids_of(list).to_set().contains(node) <==> exists|i: int|
            0 <= i < list.len() && (#[trigger] list[i])@ == node,
{
    if ids_of(list).contains(node) {
        let i = choose|i: int| 0 <= i < ids_of(list).len() && ids_of(list)[i] == node;
        assert(list[i]@ == node);
    }
    if exists|i: int| 0 <= i < list.len() && (#[trigger] list[i])@ == node {
        let i = choose|i: int| 0 <= i < list.len() && (#[trigger] list[i])@ == node;
        assert(ids_of(list)[i] == node);
    }
}

/// A node stands in the list.
pub open spec fn in_list(list: Seq<NodeId>, node: Seq<char>) -> bool {
    exists|i: int| 0 <= i < list.len() && (#[trigger] list[i])@ == node
}

/// A newer topology of the same bucket takes the place of the current one
/// under the next generation; the change names exactly the nodes that came,
/// that went and that must be dialled anew, and the vBuckets that moved.
/// Anything else changes nothing.
pub proof fn topology_changes_are_told(
    state: &mut TopologyState,
    candidate: ClusterTopology,
    result: Result<Option<TopologyChange>>,
    before: ClusterTopology,
    after: ClusterTopology,
    was: u64,
    is: u64,
    newer: bool,
)
    requires
        call_ensures(TopologyState::apply, (state, candidate), result),
        call_ensures(TopologyState::topology, (old(state),), &before),
        call_ensures(TopologyState::topology, (final(state),), &after),
        call_ensures(TopologyState::generation, (old(state),), was),
        call_ensures(TopologyState::generation, (final(state),), is),
        call_ensures(
            TopologyRevision::is_newer_than,
            (candidate@.revision, before@.revision),
            newer,
        ),
    ensures
        before@.bucket != candidate@.bucket ==> result is Err,
        before@.bucket_uuid is Some && candidate@.bucket_uuid is Some && before@.bucket_uuid
            != candidate@.bucket_uuid ==> result is Err,
        before@.bucket == candidate@.bucket && (before@.bucket_uuid is None
            || candidate@.bucket_uuid is None || before@.bucket_uuid == candidate@.bucket_uuid) ==> {
            &&& !newer ==> (result matches Ok(None))
            &&& newer && was < u64::MAX ==> (result matches Ok(Some(_)))
            &&& newer && was == u64::MAX ==> result is Err
        },
        !(result matches Ok(Some(_))) ==> after@ == before@ && is == was,
        result matches Ok(Some(_)) ==> after@ == candidate@ && is == was + 1,
        result matches Err(e) ==> e is Topology,
{
}

/// The work of a topology change: the nodes that came and went, the nodes that
/// are dialled anew because they are new or moved, and the vBuckets whose
/// active node is another.
pub proof fn changes_name_what_moved(
    state: &mut TopologyState,
    candidate: ClusterTopology,
    change: TopologyChange,
    before: ClusterTopology,
    added: &Vec<NodeId>,
    removed: &Vec<NodeId>,
    reconnect: &Vec<NodeId>,
    node: Seq<char>,
    v: u16,
)
    requires
        call_ensures(TopologyState::apply, (state, candidate), Ok(Some(change))),
        call_ensures(TopologyState::topology, (old(state),), &before),
        call_ensures(TopologyChange::added_nodes, (&change,), added),
        call_ensures(TopologyChange::removed_nodes, (&change,), removed),
        call_ensures(TopologyChange::reconnect_nodes, (&change,), reconnect),
    ensures
        in_list(added@, node) <==> has_node(candidate@, node) && !has_node(before@, node),
        in_list(removed@, node) <==> has_node(before@, node) && !has_node(candidate@, node),
        in_list(reconnect@, node) <==> has_node(candidate@, node) && !exists|address: Seq<char>|
            #![trigger dials_node(before@, node, address)]
            dials_node(before@, node, address) && dials_node(candidate@, node, address),
{
    nodes_are_known(before@, node);
    nodes_are_known(candidate@, node);
    listed_ids(added@, node);
    listed_ids(removed@, node);
    listed_ids(reconnect@, node);
    assert forall|a: Seq<char>|
        dials_node(before@, node, a) == #[trigger] before@.reachable(node, a) by {}
    assert forall|a: Seq<char>|
        dials_node(candidate@, node, a) == #[trigger] candidate@.reachable(node, a) by {}
    if exists|a: Seq<char>|
        #![trigger before@.reachable(node, a)]
        before@.reachable(node, a) && candidate@.reachable(node, a) {
        let a = choose|a: Seq<char>|
            #![trigger before@.reachable(node, a)]
            before@.reachable(node, a) && candidate@.reachable(node, a);
        assert(dials_node(before@, node, a));
        assert(dials_node(candidate@, node, a));
    }
    if exists|a: Seq<char>|
        #![trigger dials_node(before@, node, a)]
        dials_node(before@, node, a) && dials_node(candidate@, node, a) {
        let a = choose|a: Seq<char>|
            #![trigger dials_node(before@, node, a)]
            dials_node(before@, node, a) && dials_node(candidate@, node, a);
        assert(before@.reachable(node, a));
        assert(candidate@.reachable(node, a));
    }
}

/// The vBuckets that a topology change reroutes are those whose active node
/// is another, or that are in one of the two topologies only.
pub proof fn rerouted_vbuckets_have_another_node(
    state: &mut TopologyState,
    candidate: ClusterTopology,
    change: TopologyChange,
    before: ClusterTopology,
    rerouted: &std::collections::BTreeSet<u16>,
    v: u16,
)
    requires
        call_ensures(TopologyState::apply, (state, candidate), Ok(Some(change))),
        call_ensures(TopologyState::topology, (old(state),), &before),
        call_ensures(TopologyChange::rerouted_vbuckets, (&change,), rerouted),
    ensures
        (v as int) < before@.routes.len() && (v as int) < candidate@.routes.len() ==> (
        rerouted@.contains(v) <==> before@.routes[v as int].active
            != candidate@.routes[v as int].active),
        (v as int) < before@.routes.len() && v as int >= candidate@.routes.len()
            ==> rerouted@.contains(v),
        v as int >= before@.routes.len() && (v as int) < candidate@.routes.len()
            ==> rerouted@.contains(v),
        v as int >= before@.routes.len() && v as int >= candidate@.routes.len()
            ==> !rerouted@.contains(v),
{
}

/// A fresh state holds its topology under generation one.
pub proof fn fresh_state_holds_its_topology(
    topology: ClusterTopology,
    state: TopologyState,
    held: ClusterTopology,
    generation: u64,
)
    requires
        call_ensures(TopologyState::new, (topology,), state),
        call_ensures(TopologyState::topology, (&state,), &held),
        call_ensures(TopologyState::generation, (&state,), generation),
    ensures
        held@ == topology@,
        generation == 1,
{
}

/// A discovered topology is taken as it is, for the bucket that was selected.
pub proof fn discovered_topology_is_of_the_bucket(
    topology: ClusterTopology,
    bucket: &str,
    result: Result<ClusterTopology>,
)
    requires
        call_ensures(accept_discovered, (topology, bucket), result),
    ensures
        result is Ok <==> topology@.bucket == bucket@,
        result matches Ok(accepted) ==> accepted@ == topology@,
        result matches Err(e) ==> e is Topology,
{
}

proof fn seqnos_are_those_of_entries(entries: Seq<VBucketSeqno>)
    ensures
        high_seqnos(entries) is Ok <==> forall|i: int, j: int|
            0 <= i < j < entries.len() ==> (#[trigger] entries[i]).vbucket != (
            #[trigger] entries[j]).vbucket,
        high_seqnos(entries) matches Ok(map) ==> {
            &&& forall|i: int|
                0 <= i < entries.len() ==> map.contains_key((#[trigger] entries[i]).vbucket) && map[
                entries[i].vbucket] == entries[i].seqno
            &&& forall|v: u16| #[trigger]
                map.contains_key(v) ==> exists|i: int|
                    0 <= i < entries.len() && (#[trigger] entries[i]).vbucket == v
        },
    decreases entries.len(),
{
    if entries.len() > 0 {
        let shorter = entries.drop_last();
        seqnos_are_those_of_entries(shorter);
        let n = entries.len() - 1;
        let last = entries.last();
        assert(entries[n] == last);
        if high_seqnos(shorter) is Ok {
            let map = high_seqnos(shorter)->Ok_0;
            if map.contains_key(last.vbucket) {
                let i = choose|i: int|
                    0 <= i < shorter.len() && (#[trigger] shorter[i]).vbucket == last.vbucket;
                assert(entries[i] == shorter[i]);
                assert(entries[i].vbucket == entries[n].vbucket);
            } else {
                assert forall|i: int, j: int| 0 <= i < j < entries.len() implies (
                #[trigger] entries[i]).vbucket != (#[trigger] entries[j]).vbucket by {
                    assert(shorter[i] == entries[i]);
                    if j < n {
                        assert(shorter[j] == entries[j]);
                    }
                }
                let whole = high_seqnos(entries)->Ok_0;
                assert forall|i: int| 0 <= i < entries.len() implies whole.contains_key(
                    (#[trigger] entries[i]).vbucket,
                ) && whole[entries[i].vbucket] == entries[i].seqno by {
                    if i < n {
                        assert(shorter[i] == entries[i]);
                    }
                }
                assert forall|v: u16| #[trigger] whole.contains_key(v) implies exists|i: int|
                    0 <= i < entries.len() && (#[trigger] entries[i]).vbucket == v by {
                    if v != last.vbucket {
                        let i = choose|i: int|
                            0 <= i < shorter.len() && (#[trigger] shorter[i]).vbucket == v;
                        assert(entries[i].vbucket == v);
                    }
                }
            }
        } else {
            let (i, j) = choose|i: int, j: int|
                0 <= i < j < shorter.len() && (#[trigger] shorter[i]).vbucket == (
                #[trigger] shorter[j]).vbucket;
            assert(entries[i] == shorter[i] && entries[j] == shorter[j]);
        }
    }
}

/// High sequence numbers are collected as they were reported, each vBucket
/// once.
pub proof fn high_seqnos_are_as_reported(
    entries: &[VBucketSeqno],
    result: Result<BTreeMap<u16, u64>>,
)
    requires
        call_ensures(collect_high_seqnos, (entries,), result),
    ensures
        result is Ok <==> forall|i: int, j: int|
            0 <= i < j < entries@.len() ==> (#[trigger] entries@[i]).vbucket != (
            #[trigger] entries@[j]).vbucket,
        result matches Ok(map) ==> {
            &&& forall|i: int|
                0 <= i < entries@.len() ==> map@.contains_key((#[trigger] entries@[i]).vbucket)
                    && map@[entries@[i].vbucket] == entries@[i].seqno
            &&& forall|v: u16| #[trigger]
                map@.contains_key(v) ==> exists|i: int|
                    0 <= i < entries@.len() && (#[trigger] entries@[i]).vbucket == v
        },
{
    seqnos_are_those_of_entries(entries@);
}

/// A failover log is taken as it is, and an empty one is refused.
pub proof fn failover_logs_are_not_empty(
    entries: Vec<FailoverEntry>,
    vbucket: u16,
    result: Result<Vec<FailoverEntry>>,
)
    requires
        call_ensures(require_failover_log, (entries, vbucket), result),
    ensures
        result is Ok <==> entries@.len() > 0,
        result matches Ok(log) ==> log@ == entries@,
        result matches Err(e) ==> e is Topology,
{
}

} // verus!
