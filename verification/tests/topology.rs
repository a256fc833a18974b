//! Bucket configurations and topology updates.
use std::collections::{BTreeMap, BTreeSet};

use rust_dcp::bucket_config::{
    RawAlternateAddress, RawBucketConfig, RawNodeExt, RawNodeServices, RawVBucketServerMap,
};
use rust_dcp::checkpoint::FailoverEntry;
use rust_dcp::error::{DcpError, Result};
use rust_dcp::protocol::{
    ensure_success_response, Frame, VBucketSeqno, OPCODE_GET_CLUSTER_CONFIG, STATUS_NOT_SUPPORTED,
};
use rust_dcp::topology::{
    accept_discovered, collect_high_seqnos, require_failover_log, ClusterTopology, TopologyNetwork,
    TopologyRevision, TopologyState,
};
use serde_json::Value;

const CONFIG: &str = r#"{
    "rev": 7,
    "revEpoch": 2,
    "name": "travel",
    "uuid": "bucket-uuid",
    "nodeLocator": "vbucket",
    "nodesExt": [
      {
        "hostname": "10.0.0.1",
        "nodeUUID": "node-a",
        "serverGroup": "group-a",
        "services": {"kv": 11210, "kvSSL": 11207},
        "alternateAddresses": {"external": {"hostname": "proxy.test", "ports": {"kv": 30101, "kvSSL": 31101}}}
      },
      {
        "hostname": "10.0.0.2",
        "nodeUUID": "node-b",
        "serverGroup": "group-b",
        "services": {"kv": 11210, "kvSSL": 11207},
        "alternateAddresses": {"external": {"hostname": "proxy.test", "ports": {"kv": 30102, "kvSSL": 31102}}}
      }
    ],
    "vBucketServerMap": {
      "hashAlgorithm": "CRC",
      "numReplicas": 1,
      "serverList": ["10.0.0.1:11210", "10.0.0.2:11210"],
      "vBucketMap": [[0, 1], [1, 0], [0, 1], [1, 0]]
    }
  }"#;

fn text(value: &Value) -> Option<String> {
    value.as_str().map(|s| s.to_string())
}

fn services(value: &Value) -> RawNodeServices {
    RawNodeServices {
        kv: value["kv"].as_u64().unwrap_or(0) as u16,
        kv_ssl: value["kvSSL"].as_u64().unwrap_or(0) as u16,
    }
}

fn raw(config: &str) -> RawBucketConfig {
    let value: Value = serde_json::from_str(config).unwrap();
    let mut nodes_ext = Vec::new();
    for node in value["nodesExt"].as_array().unwrap() {
        let mut alternate_addresses = Vec::new();
        if let Some(map) = node["alternateAddresses"].as_object() {
            for (network, address) in map {
                alternate_addresses.push(RawAlternateAddress {
                    network: network.clone(),
                    hostname: text(&address["hostname"]),
                    ports: address.get("ports").map(services),
                });
            }
        }
        nodes_ext.push(RawNodeExt {
            hostname: text(&node["hostname"]),
            services: services(&node["services"]),
            alternate_addresses,
            node_uuid: text(&node["nodeUUID"]),
            server_group: text(&node["serverGroup"]),
        });
    }
    let map = &value["vBucketServerMap"];
    RawBucketConfig {
        rev: value["rev"].as_i64().unwrap(),
        rev_epoch: value["revEpoch"].as_i64().unwrap_or(0),
        name: text(&value["name"]).unwrap(),
        uuid: text(&value["uuid"]).unwrap_or_default(),
        node_locator: text(&value["nodeLocator"]).unwrap_or_default(),
        nodes_ext,
        v_bucket_server_map: RawVBucketServerMap {
            hash_algorithm: text(&map["hashAlgorithm"]).unwrap_or_default(),
            num_replicas: map["numReplicas"].as_i64().unwrap_or(0),
            server_list: map["serverList"]
                .as_array()
                .unwrap()
                .iter()
                .map(|s| text(s).unwrap())
                .collect(),
            v_bucket_map: map["vBucketMap"]
                .as_array()
                .unwrap()
                .iter()
                .map(|row| row.as_array().unwrap().iter().map(|n| n.as_i64().unwrap()).collect())
                .collect(),
        },
    }
}

fn build(config: &str, source: &str, tls: bool, network: &TopologyNetwork) -> Result<ClusterTopology> {
    raw(config).build(source, tls, network)
}

fn config_with_revision_and_first_route(revision: u64, active: usize) -> String {
    CONFIG
        .replace("\"rev\": 7", &format!("\"rev\": {revision}"))
        .replace("[[0, 1]", &format!("[[{active}, {}]", 1 - active))
}

fn default_topology(config: &str) -> ClusterTopology {
    build(config, "10.0.0.1:11210", false, &TopologyNetwork::Default).unwrap()
}

#[test]
fn default_topology_routes_vbuckets_by_stable_node_id() {
    let topology = build(CONFIG, "10.0.0.1:11210", false, &TopologyNetwork::Auto).unwrap();

    assert_eq!(topology.network(), "default");
    assert_eq!(topology.revision(), TopologyRevision::new(2, 7));
    assert_eq!(topology.active_node(0).unwrap().as_str(), "node-a");
    assert_eq!(
        topology.active_endpoint(1).unwrap().address(),
        "10.0.0.2:11210"
    );
    assert_eq!(topology.replica_nodes(0).unwrap()[0].as_str(), "node-b");
    let groups = topology.all_active_vbuckets_by_node();
    assert_eq!(groups[0].node.as_str(), "node-a");
    assert_eq!(groups[0].vbuckets, vec![0, 2]);
}

#[test]
fn auto_network_uses_external_tls_addresses_for_external_source() {
    let topology = build(CONFIG, "proxy.test:31101", true, &TopologyNetwork::Auto).unwrap();

    assert_eq!(topology.network(), "external");
    assert_eq!(
        topology.endpoint("node-a").unwrap().address(),
        "proxy.test:31101"
    );
    assert_eq!(
        topology.endpoint("node-a").unwrap().canonical_address(),
        "10.0.0.1:11207"
    );
}

#[test]
fn nullable_hostnames_and_non_kv_nodes_preserve_server_indexes() {
    let config = CONFIG
        .replacen("\"hostname\": \"10.0.0.1\"", "\"hostname\": null", 1)
        .replacen(
            "\"nodesExt\": [",
            "\"nodesExt\": [{\"hostname\": \"query.test\", \"services\": {}},",
            1,
        );
    let topology = default_topology(&config);

    assert_eq!(topology.active_node(0).unwrap().as_str(), "node-a");
    assert_eq!(
        topology.endpoint("node-a").unwrap().address(),
        "10.0.0.1:11210"
    );
}

#[test]
fn topology_state_rejects_stale_revision_and_reports_reroutes() {
    let current = default_topology(CONFIG);
    let stale = default_topology(&config_with_revision_and_first_route(6, 1));
    let newer = default_topology(&config_with_revision_and_first_route(8, 1));
    let mut tracker = TopologyState::new(current);

    assert!(tracker.apply(stale).unwrap().is_none());
    let change = tracker.apply(newer).unwrap().unwrap();
    assert_eq!(change.generation(), 2);
    assert_eq!(change.rerouted_vbuckets(), &BTreeSet::from([0]));
    assert!(change.reconnect_nodes().is_empty());
}

#[test]
fn invalid_active_node_index_is_rejected() {
    let invalid = CONFIG.replace("[[0, 1]", "[[9, 1]");
    assert!(build(&invalid, "10.0.0.1:11210", false, &TopologyNetwork::Default).is_err());
}

#[test]
fn unsupported_configurations_are_rejected() {
    let cases = [
        CONFIG.replace("\"nodeLocator\": \"vbucket\"", "\"nodeLocator\": \"ketama\""),
        CONFIG.replace("\"hashAlgorithm\": \"CRC\"", "\"hashAlgorithm\": \"MD5\""),
        CONFIG.replace("\"rev\": 7", "\"rev\": -7"),
        CONFIG.replace("\"name\": \"travel\"", "\"name\": \" \""),
        CONFIG.replace("[[0, 1], [1, 0], [0, 1], [1, 0]]", "[]"),
        CONFIG.replace("[[0, 1]", "[[0, 9]"),
        CONFIG.replace("\"nodeUUID\": \"node-b\"", "\"nodeUUID\": \"node-a\""),
    ];
    for case in cases {
        assert!(matches!(
            build(&case, "10.0.0.1:11210", false, &TopologyNetwork::Default),
            Err(DcpError::Topology(_))
        ));
    }
    assert!(build(
        CONFIG,
        "10.0.0.1:11210",
        false,
        &TopologyNetwork::Named("nowhere".to_string()),
    )
    .is_err());
    assert!(build(
        CONFIG,
        "10.0.0.1:11210",
        false,
        &TopologyNetwork::Named("white space".to_string()),
    )
    .is_err());
}

#[test]
fn another_bucket_is_never_accepted() {
    let mut tracker = TopologyState::new(default_topology(CONFIG));
    let renamed = CONFIG
        .replace("\"rev\": 7", "\"rev\": 8")
        .replace("\"name\": \"travel\"", "\"name\": \"other\"");
    assert!(tracker.apply(default_topology(&renamed)).is_err());
    let recreated = CONFIG
        .replace("\"rev\": 7", "\"rev\": 8")
        .replace("bucket-uuid", "recreated-uuid");
    assert!(tracker.apply(default_topology(&recreated)).is_err());
    assert_eq!(tracker.generation(), 1);
    assert_eq!(tracker.topology().revision(), TopologyRevision::new(2, 7));
}

#[test]
fn changed_nodes_are_reported() {
    let mut tracker = TopologyState::new(default_topology(CONFIG));
    let moved = CONFIG
        .replace("\"rev\": 7", "\"rev\": 8")
        .replace("\"nodeUUID\": \"node-b\"", "\"nodeUUID\": \"node-c\"")
        .replacen("\"hostname\": \"10.0.0.1\"", "\"hostname\": \"10.0.0.9\"", 1)
        .replace("10.0.0.1:11210", "10.0.0.9:11210");
    let change = tracker
        .apply(build(&moved, "10.0.0.9:11210", false, &TopologyNetwork::Default).unwrap())
        .unwrap()
        .unwrap();
    assert_eq!(change.added_nodes()[0].as_str(), "node-c");
    assert_eq!(change.removed_nodes()[0].as_str(), "node-b");
    assert_eq!(change.reconnect_nodes()[0].as_str(), "node-a");
}

#[test]
fn asynchronous_metadata_queries_validate_and_decode_responses() {
    let topology = accept_discovered(default_topology(CONFIG), "travel").unwrap();
    let seqnos = collect_high_seqnos(&[
        VBucketSeqno {
            vbucket: 0,
            seqno: 101,
        },
        VBucketSeqno {
            vbucket: 2,
            seqno: 202,
        },
    ])
    .unwrap();
    let failover = require_failover_log(
        vec![FailoverEntry {
            vbucket_uuid: 0xfeed,
            seqno: 88,
        }],
        2,
    )
    .unwrap();

    assert_eq!(topology.num_vbuckets(), 4);
    assert_eq!(seqnos, BTreeMap::from([(0, 101), (2, 202)]));
    assert_eq!(
        failover,
        vec![FailoverEntry {
            vbucket_uuid: 0xfeed,
            seqno: 88,
        }]
    );
    assert!(accept_discovered(default_topology(CONFIG), "other").is_err());
    assert!(require_failover_log(Vec::new(), 2).is_err());
}

#[test]
fn high_seqno_query_rejects_duplicate_vbuckets() {
    assert!(collect_high_seqnos(&[
        VBucketSeqno {
            vbucket: 9,
            seqno: 1,
        },
        VBucketSeqno {
            vbucket: 9,
            seqno: 2,
        },
    ])
    .is_err());
}

#[test]
fn non_success_metadata_status_is_not_treated_as_valid_data() {
    let mut response = Frame::response(OPCODE_GET_CLUSTER_CONFIG, STATUS_NOT_SUPPORTED);
    response.value = b"not supported".to_vec();

    assert!(matches!(
        ensure_success_response(&response, OPCODE_GET_CLUSTER_CONFIG, "config"),
        Err(DcpError::ServerStatus { status: 0x83, .. })
    ));
}

#[test]
fn revisions_are_ordered_by_epoch_first() {
    assert!(TopologyRevision::new(3, 1).is_newer_than(TopologyRevision::new(2, 9)));
    assert!(!TopologyRevision::new(2, 7).is_newer_than(TopologyRevision::new(2, 7)));
    assert!(TopologyRevision::new(2, 8).is_newer_than(TopologyRevision::new(2, 7)));
}

#[test]
fn requested_vbuckets_are_grouped_by_active_node() {
    let topology = default_topology(CONFIG);
    let groups = topology.active_vbuckets_by_node(&[3, 1, 0]).unwrap();
    assert_eq!(groups.len(), 2);
    assert_eq!(groups[0].vbuckets, vec![0]);
    assert_eq!(groups[1].vbuckets, vec![1, 3]);
    assert!(topology.active_vbuckets_by_node(&[4]).is_err());
    assert_eq!(topology.clone(), topology);
}

#[test]
fn every_vbucket_is_grouped_once() {
    let topology = default_topology(CONFIG);
    let all: Vec<u16> = (0..u16::try_from(topology.num_vbuckets()).unwrap()).rev().collect();
    let groups = topology.all_active_vbuckets_by_node();
    assert_eq!(topology.active_vbuckets_by_node(&all).unwrap(), groups);
    let total: usize = groups.iter().map(|group| group.vbuckets.len()).sum();
    assert_eq!(total, topology.num_vbuckets());
    let mut seen: Vec<u16> = Vec::new();
    for group in &groups {
        assert!(group.vbuckets.windows(2).all(|pair| pair[0] < pair[1]));
        seen.extend(&group.vbuckets);
    }
    seen.sort_unstable();
    assert_eq!(seen, vec![0, 1, 2, 3]);
}
