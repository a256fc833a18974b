//! Collection manifests, selections and the name registry.
use std::collections::BTreeMap;

use rust_dcp::auth::SaslMechanism;
use rust_dcp::bootstrap::{BootstrapCapabilities, HelloFeature};
use rust_dcp::collections::{
    merge_high_seqnos, plan_selection, CollectionManifest, CollectionRegistry,
    CollectionSelection, SelectionPlan, WireCollection, WireManifest, WireScope,
};
use rust_dcp::config::CollectionFilter;
use rust_dcp::error::{DcpError, Result};
use rust_dcp::event::{
    DataType, DcpDeletion, DcpEvent, DcpExpiration, DcpMutation, SystemEvent, SystemEventKind,
};
use rust_dcp::stream::DcpStreamItem;
use serde_json::Value;

fn parse(json: &[u8]) -> Result<CollectionManifest> {
    let value: Value = serde_json::from_slice(json).unwrap();
    let text = |v: &Value| v.as_str().unwrap().to_string();
    let mut scopes = Vec::new();
    for scope in value["scopes"].as_array().unwrap() {
        let mut collections = Vec::new();
        for collection in scope["collections"].as_array().unwrap() {
            collections.push(WireCollection {
                uid: text(&collection["uid"]),
                name: text(&collection["name"]),
                max_ttl: collection["maxTTL"].as_i64().unwrap_or(0) as i32,
                history: collection["history"].as_bool(),
            });
        }
        scopes.push(WireScope {
            uid: text(&scope["uid"]),
            name: text(&scope["name"]),
            collections,
        });
    }
    CollectionManifest::from_wire(&WireManifest {
        uid: text(&value["uid"]),
        scopes,
    })
}

fn filter(scope: &str, names: &[&str]) -> CollectionFilter {
    CollectionFilter {
        scope: scope.to_string(),
        collections: names.iter().map(|name| name.to_string()).collect(),
    }
}

fn registry(json: &[u8], configured: &CollectionFilter) -> CollectionRegistry {
    CollectionRegistry::new(CollectionSelection::from_resolved(
        parse(json).unwrap().resolve(configured, None).unwrap(),
    ))
}

const AIRLINE: &[u8] = br#"{"uid":"2a","scopes":[{"uid":"8","name":"inventory","collections":[{"uid":"9","name":"airline"}]}]}"#;

fn airline_registry() -> CollectionRegistry {
    registry(AIRLINE, &filter("inventory", &["airline"]))
}

fn mutation(seqno: u64, cas: u64, collection_id: Option<u32>, key: &[u8]) -> DcpEvent {
    DcpEvent::Mutation(DcpMutation {
        vbucket: 7,
        seqno,
        rev_seqno: 1,
        flags: 0,
        expiry: 0,
        lock_time: 0,
        cas,
        datatype: DataType(DataType::JSON),
        collection_id,
        collection_name: None,
        key: key.to_vec(),
        value: Vec::new(),
    })
}

#[test]
fn manifest_parses_hex_ids_and_optional_collection_properties() {
    let manifest = parse(
        br#"{
          "uid":"a",
          "scopes":[{
            "uid":"8",
            "name":"inventory",
            "collections":[
              {"uid":"9","name":"airline","maxTTL":60,"history":true},
              {"uid":"a","name":"airport","history":false}
            ]
          }]
        }"#,
    )
    .unwrap();

    assert_eq!(manifest.uid, 0xa);
    assert_eq!(manifest.scopes.len(), 1);
    let scope = &manifest.scopes[0];
    assert_eq!(scope.uid, 0x8);
    assert_eq!(scope.name, "inventory");
    assert_eq!(scope.collections.len(), 2);
    assert_eq!(scope.collections[0].uid, 0x9);
    assert_eq!(scope.collections[0].name, "airline");
    assert_eq!(scope.collections[0].max_ttl, 60);
    assert_eq!(scope.collections[0].history, Some(true));
    assert_eq!(scope.collections[1].max_ttl, 0);
    assert_eq!(scope.collections[1].history, Some(false));
}

#[test]
fn manifest_rejects_ambiguous_scope_and_collection_identity() {
    let duplicate_scope_name = br#"{
      "uid":"4",
      "scopes":[
        {"uid":"8","name":"inventory","collections":[]},
        {"uid":"9","name":"inventory","collections":[]}
      ]
    }"#;
    let duplicate_scope_id = br#"{
      "uid":"4",
      "scopes":[
        {"uid":"8","name":"inventory","collections":[]},
        {"uid":"8","name":"archive","collections":[]}
      ]
    }"#;
    let duplicate_collection_name = br#"{
      "uid":"4",
      "scopes":[{"uid":"8","name":"inventory","collections":[
        {"uid":"9","name":"airline"},
        {"uid":"a","name":"airline"}
      ]}]
    }"#;
    let duplicate_collection_id = br#"{
      "uid":"4",
      "scopes":[
        {"uid":"8","name":"inventory","collections":[{"uid":"9","name":"airline"}]},
        {"uid":"a","name":"archive","collections":[{"uid":"9","name":"old-airline"}]}
      ]
    }"#;

    for ambiguous in [
        &duplicate_scope_name[..],
        &duplicate_scope_id[..],
        &duplicate_collection_name[..],
        &duplicate_collection_id[..],
    ] {
        assert!(parse(ambiguous).is_err());
    }
    assert!(parse(br#"{"uid":"xyz","scopes":[]}"#).is_err());
    assert!(parse(br#"{"uid":"10000000000000000","scopes":[]}"#).is_err());
}

#[test]
fn manifest_resolves_multi_collection_filter_at_one_uid() {
    let manifest = parse(
        br#"{
          "uid":"2a",
          "scopes":[{"uid":"8","name":"inventory","collections":[
            {"uid":"9","name":"airline"},
            {"uid":"a","name":"airport"},
            {"uid":"b","name":"hotel"}
          ]}]
        }"#,
    )
    .unwrap();
    let configured = filter("inventory", &["airport", "airline"]);

    let resolved = manifest.resolve(&configured, Some(7)).unwrap();

    assert_eq!(resolved.manifest_uid(), 0x2a);
    assert_eq!(resolved.scope_id(), 0x8);
    assert_eq!(resolved.collection_ids(), &[0xa, 0x9]);
    assert_eq!(resolved.collection_name(0xa), Some("airport"));
    assert_eq!(resolved.collection_name(0xb), None);
    assert_eq!(resolved.stream_filter().scope_id, None);
    assert_eq!(resolved.stream_filter().collection_ids, vec![0xa, 0x9]);
    assert_eq!(resolved.stream_filter().manifest_uid, None);
    assert_eq!(resolved.stream_filter().stream_id, Some(7));
    assert!(manifest.resolve(&filter("nowhere", &["airline"]), None).is_err());
    assert!(manifest.resolve(&filter("inventory", &["nothing"]), None).is_err());
}

#[test]
fn empty_collection_list_resolves_the_entire_scope() {
    let manifest = parse(
        br#"{
          "uid":"2a",
          "scopes":[{"uid":"8","name":"inventory","collections":[
            {"uid":"9","name":"airline"},
            {"uid":"a","name":"airport"}
          ]}]
        }"#,
    )
    .unwrap();

    let resolved = manifest.resolve(&filter("inventory", &[]), None).unwrap();

    assert!(resolved.collection_ids().is_empty());
    assert_eq!(resolved.collection_name(0x9), Some("airline"));
    assert_eq!(resolved.collection_name(0xa), Some("airport"));
    assert_eq!(resolved.stream_filter().scope_id, Some(0x8));
    assert!(resolved.stream_filter().collection_ids.is_empty());
    assert_eq!(resolved.stream_filter().manifest_uid, None);
}

fn capabilities(hello_features: Vec<HelloFeature>) -> BootstrapCapabilities {
    BootstrapCapabilities {
        hello_features,
        sasl_mechanism: SaslMechanism::Plain,
        dcp_controls: Vec::new(),
    }
}

#[test]
fn legacy_server_only_allows_the_default_collection_without_a_wire_filter() {
    let legacy = capabilities(Vec::new());
    let selection = match plan_selection(&legacy, &CollectionFilter::default(), None) {
        Ok(SelectionPlan::Selected(selection)) => selection,
        _ => panic!("the default collection needs no manifest"),
    };

    assert!(selection.stream_filter().is_none());
    assert_eq!(selection.collection_name(None), Some("_default"));
    assert_eq!(selection.collection_name(Some(0)), None);

    assert!(matches!(
        plan_selection(&legacy, &filter("inventory", &["airline"]), None),
        Err(DcpError::Unsupported(_))
    ));
}

#[test]
fn stream_id_resolution_requires_the_negotiated_dcp_control() {
    assert!(matches!(
        plan_selection(
            &capabilities(vec![HelloFeature::Collections]),
            &CollectionFilter::default(),
            Some(7),
        ),
        Err(DcpError::Unsupported(_))
    ));
    assert!(matches!(
        plan_selection(
            &capabilities(vec![HelloFeature::Collections]),
            &CollectionFilter::default(),
            None,
        ),
        Ok(SelectionPlan::FetchManifest)
    ));
}

#[test]
fn registry_decorates_document_events_from_the_resolved_manifest() {
    let mut registry = airline_registry();
    let decorated = match registry
        .decorate(mutation(10, 99, Some(0x9), b"flight::1"))
        .unwrap()
    {
        DcpEvent::Mutation(decorated) => decorated,
        _ => panic!("expected mutation"),
    };

    assert_eq!(decorated.collection_id, Some(0x9));
    assert_eq!(decorated.collection_name.as_deref(), Some("airline"));
}

#[test]
fn registry_decorates_deletion_and_expiration_events() {
    let mut registry = airline_registry();
    let deletion = DcpEvent::Deletion(DcpDeletion {
        vbucket: 7,
        seqno: 11,
        rev_seqno: 2,
        delete_time: Some(100),
        cas: 101,
        collection_id: Some(0x9),
        collection_name: None,
        key: b"flight::1".to_vec(),
        value: Vec::new(),
        datatype: DataType(0),
    });
    let expiration = DcpEvent::Expiration(DcpExpiration {
        vbucket: 7,
        seqno: 12,
        rev_seqno: 3,
        delete_time: Some(200),
        cas: 102,
        collection_id: Some(0x9),
        collection_name: None,
        key: b"flight::2".to_vec(),
        value: Vec::new(),
        datatype: DataType(0),
    });

    match registry.decorate(deletion).unwrap() {
        DcpEvent::Deletion(deletion) => {
            assert_eq!(deletion.collection_name.as_deref(), Some("airline"))
        }
        _ => panic!("expected deletion"),
    }
    match registry.decorate(expiration).unwrap() {
        DcpEvent::Expiration(expiration) => {
            assert_eq!(expiration.collection_name.as_deref(), Some("airline"))
        }
        _ => panic!("expected expiration"),
    }
}

#[test]
fn registry_rejects_an_unmapped_collection_id() {
    let mut registry = airline_registry();

    assert!(matches!(
        registry.decorate(mutation(10, 99, Some(0xa), b"flight::1")),
        Err(DcpError::Collection(_))
    ));
}

fn system(manifest_uid: u64, key: &[u8], kind: SystemEventKind) -> DcpEvent {
    DcpEvent::SystemEvent(SystemEvent {
        vbucket: 7,
        seqno: 10,
        manifest_uid,
        version: 1,
        key: key.to_vec(),
        kind,
    })
}

#[test]
fn scope_registry_applies_a_newer_collection_created_event() {
    let mut registry = registry(AIRLINE, &filter("inventory", &[]));
    registry
        .decorate(system(
            0x2b,
            b"hotel",
            SystemEventKind::CollectionCreated {
                scope_id: 0x8,
                collection_id: 0xa,
                max_ttl: Some(3600),
            },
        ))
        .unwrap();

    match registry
        .decorate(mutation(11, 100, Some(0xa), b"hotel::1"))
        .unwrap()
    {
        DcpEvent::Mutation(hotel) => {
            assert_eq!(hotel.collection_name.as_deref(), Some("hotel"))
        }
        _ => panic!("expected mutation"),
    }
}

#[test]
fn registry_removes_a_collection_after_a_newer_drop_event() {
    let mut registry = airline_registry();
    let drop_event = || {
        system(
            0x2b,
            b"airline",
            SystemEventKind::CollectionDropped {
                scope_id: 0x8,
                collection_id: 0x9,
            },
        )
    };
    registry.decorate(drop_event()).unwrap();
    registry.decorate(drop_event()).unwrap();

    assert!(matches!(
        registry.decorate(mutation(13, 100, Some(0x9), b"flight::1")),
        Err(DcpError::Collection(_))
    ));
}

#[test]
fn unknown_system_event_marks_the_registry_stale_but_remains_visible() {
    let mut registry = airline_registry();
    let visible = match registry
        .decorate(system(
            0x2b,
            b"future",
            SystemEventKind::Unknown {
                code: 99,
                data: b"future-data".to_vec(),
            },
        ))
        .unwrap()
    {
        DcpEvent::SystemEvent(visible) => visible,
        _ => panic!("expected system event"),
    };
    let status = registry.status();

    assert!(matches!(
        visible.kind,
        SystemEventKind::Unknown { code: 99, .. }
    ));
    assert_eq!(status.manifest_uid, Some(0x2b));
    assert!(status.stale);
}

#[test]
fn names_and_ids_never_change_silently() {
    let mut registry = registry(AIRLINE, &filter("inventory", &[]));
    let created = |manifest_uid, key: &[u8], collection_id| {
        system(
            manifest_uid,
            key,
            SystemEventKind::CollectionCreated {
                scope_id: 0x8,
                collection_id,
                max_ttl: None,
            },
        )
    };
    assert!(registry.decorate(created(0x2b, b"hotel", 0x9)).is_err());
    assert!(registry.decorate(created(0x2b, b"airline", 0xa)).is_err());
    assert!(registry.decorate(created(0x2b, b"\xff", 0xa)).is_err());
    assert_eq!(registry.status().manifest_uid, Some(0x2a));
    registry.decorate(created(0x2a, b"hotel", 0x9)).unwrap();
    assert!(registry
        .decorate(mutation(13, 100, Some(0x9), b"flight::1"))
        .is_ok());
}

#[test]
fn collection_stream_decorates_events_and_preserves_control_items() {
    let mut registry = airline_registry();

    assert!(matches!(
        registry
            .wrap(DcpStreamItem::TopologyConfig {
                source: "node-a".to_string(),
                payload: b"config".to_vec(),
            })
            .unwrap(),
        DcpStreamItem::TopologyConfig { .. }
    ));
    match registry
        .wrap(DcpStreamItem::Event(mutation(10, 99, Some(0x9), b"flight::1")))
        .unwrap()
    {
        DcpStreamItem::Event(DcpEvent::Mutation(mutation)) => {
            assert_eq!(mutation.collection_name.as_deref(), Some("airline"))
        }
        _ => panic!("expected decorated mutation"),
    }
}

#[test]
fn multi_collection_high_seqnos_take_the_per_vbucket_maximum() {
    let manifest = parse(
        br#"{"uid":"2a","scopes":[{"uid":"8","name":"inventory","collections":[{"uid":"9","name":"airline"},{"uid":"a","name":"airport"}]}]}"#,
    )
    .unwrap();
    let selection = CollectionSelection::from_resolved(
        manifest
            .resolve(&filter("inventory", &["airline", "airport"]), None)
            .unwrap(),
    );
    assert_eq!(
        selection.high_seqno_collection_ids().unwrap(),
        &[0x9, 0xa]
    );

    let mut seqnos = BTreeMap::new();
    merge_high_seqnos(&mut seqnos, &BTreeMap::from([(0, 10), (1, 20)]));
    merge_high_seqnos(&mut seqnos, &BTreeMap::from([(0, 15), (1, 18)]));

    assert_eq!(seqnos.get(&0), Some(&15));
    assert_eq!(seqnos.get(&1), Some(&20));
}
