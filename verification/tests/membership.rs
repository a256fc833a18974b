//! Membership registry, its runtime decisions and its store.
use rust_dcp::auth::SaslMechanism;
use rust_dcp::bootstrap::{BootstrapCapabilities, HelloFeature};
use rust_dcp::config::PositiveCount;
use rust_dcp::error::DcpError;
use rust_dcp::interval::Interval;
use rust_dcp::membership::error::CouchbaseMembershipError;
use rust_dcp::membership::registry::{
    MemberIdentity, MembershipSnapshot, RegistryDocument, RegistryEntry,
};
use rust_dcp::membership::runtime::{
    assignment_changed, cas_step, duration_millis, is_transient_runtime_error, plan_mutation,
    renewal_failure, timestamp_millis, CasStep, CouchbaseMembershipConfig, RegistryAction,
};
use rust_dcp::membership::store::{
    routing_step, validate_document_key, validate_response_envelope, CouchbaseRegistryCollection,
    KvOperation, KvResult, RegistryTarget, RoutingStep, StoreWriteResult,
};
use rust_dcp::protocol::{
    Frame, OPCODE_ADD, OPCODE_GET, OPCODE_REPLACE, OPCODE_SET, STATUS_KEY_EXISTS,
    STATUS_KEY_NOT_FOUND, STATUS_NOT_MY_VBUCKET, STATUS_NOT_SUPPORTED, STATUS_SUCCESS,
};
use rust_dcp::sdk::{
    sdk_checkpoint_error, sdk_create_result, sdk_load_is_absent, sdk_membership_error,
    sdk_removal_is_done, sdk_replace_result, sdk_xattr_is_absent, SdkFailure,
};

struct MemoryStore {
    document: Option<RegistryDocument>,
    conflicts_remaining: usize,
}

impl MemoryStore {
    fn with_conflicts(conflicts_remaining: usize) -> Self {
        MemoryStore {
            document: None,
            conflicts_remaining,
        }
    }

    fn run(
        &mut self,
        config: &CouchbaseMembershipConfig,
        action: RegistryAction,
        now: u64,
    ) -> Result<Option<MembershipSnapshot>, CouchbaseMembershipError> {
        let mut attempt: usize = 1;
        loop {
            let plan = plan_mutation(config, action, self.document.clone(), now)?;
            if !plan.write {
                return Ok(plan.snapshot);
            }
            let written = if self.conflicts_remaining > 0 {
                self.conflicts_remaining -= 1;
                StoreWriteResult::Conflict
            } else {
                self.document = Some(plan.document);
                StoreWriteResult::Stored
            };
            match cas_step(config, written, attempt)? {
                CasStep::Done => return Ok(plan.snapshot),
                CasStep::Retry => attempt += 1,
            }
        }
    }

    fn registered_member_count(&self) -> usize {
        match &self.document {
            Some(document) => document.entries().len(),
            None => 0,
        }
    }
}

fn identity(member: &str, incarnation: &str) -> MemberIdentity {
    MemberIdentity::new(member, incarnation).unwrap_or_else(|_| panic!("identity is valid"))
}

fn runtime_config(member: &str, incarnation: &str) -> CouchbaseMembershipConfig {
    CouchbaseMembershipConfig::new("runtime-test", identity(member, incarnation), 8)
        .unwrap_or_else(|_| panic!("settings are valid"))
        .heartbeat_interval(Interval::from_millis(10))
        .monitor_interval(Interval::from_millis(10))
        .stale_after(Interval::from_secs(2))
        .rebalance_delay(Interval::from_secs(0))
        .operation_timeout(Interval::from_secs(1))
}

fn all(count: u16) -> Vec<u16> {
    (0..count).collect()
}

#[test]
fn registry_generation_changes_only_for_membership_fences() {
    let mut registry = RegistryDocument::new(10, 100).unwrap();
    let alice = identity("alice", "incarnation-a");
    let bob = identity("bob", "incarnation-b");

    registry.register(&alice, 10).unwrap();
    registry.register(&bob, 20).unwrap();
    assert_eq!(registry.generation(), 2);
    registry.heartbeat(&alice, 30).unwrap();
    assert_eq!(registry.generation(), 2);

    let alice_view = registry.snapshot(&alice).unwrap();
    let bob_view = registry.snapshot(&bob).unwrap();
    assert_eq!(alice_view.assignment().vbuckets(), vec![0, 1, 2, 3, 4]);
    assert_eq!(bob_view.assignment().vbuckets(), vec![5, 6, 7, 8, 9]);

    registry.heartbeat(&bob, 150).unwrap();
    assert_eq!(registry.prune_stale(150).unwrap(), 1);
    assert_eq!(registry.generation(), 3);
    assert_eq!(
        registry.snapshot(&bob).unwrap().assignment().vbuckets(),
        all(10)
    );
}

#[test]
fn live_duplicate_is_rejected_but_stale_incarnation_is_fenced() {
    let mut registry = RegistryDocument::new(16, 100).unwrap();
    let original = identity("worker", "old");
    let replacement = identity("worker", "new");

    registry.register(&original, 10).unwrap();
    assert!(matches!(
        registry.register(&replacement, 50),
        Err(CouchbaseMembershipError::DuplicateMember { .. })
    ));
    registry.register(&replacement, 111).unwrap();

    assert_eq!(registry.generation(), 2);
    assert!(matches!(
        registry.heartbeat(&original, 112),
        Err(CouchbaseMembershipError::Fenced { .. })
    ));
}

#[test]
fn generation_overflow_never_partially_mutates_the_registry() {
    let worker = identity("worker", "incarnation");
    let entry = RegistryEntry {
        key: "worker".to_string(),
        member_id: "worker".to_string(),
        incarnation: "incarnation".to_string(),
        joined_at_millis: 1,
        heartbeat_at_millis: 1,
    };
    let mut registry = RegistryDocument::from_parts(1, 8, 100, u64::MAX, vec![entry]);
    let before = registry.clone();

    assert!(registry.prune_stale(101).is_err());
    assert!(registry.same(&before));
    assert!(registry.remove(&worker).is_err());
    assert!(registry.same(&before));

    let mut empty = RegistryDocument::from_parts(1, 8, 100, u64::MAX, Vec::new());
    let before = empty.clone();
    assert!(empty.register(&worker, 10).is_err());
    assert!(empty.same(&before));
}

#[test]
fn tokio_runtime_retries_a_cas_conflict_before_publishing_assignment() {
    let mut store = MemoryStore::with_conflicts(1);
    let config = runtime_config("worker-a", "incarnation-a");
    let snapshot = store
        .run(&config, RegistryAction::Register, 10)
        .unwrap()
        .unwrap();

    assert_eq!(snapshot.assignment().generation(), 1);
    assert_eq!(snapshot.assignment().vbuckets(), all(8));
}

#[test]
fn tokio_members_observe_non_overlapping_rebalanced_assignments_and_graceful_leave() {
    let mut store = MemoryStore::with_conflicts(0);
    let alice = runtime_config("alice", "incarnation-a");
    let bob = runtime_config("bob", "incarnation-b");
    let first = store.run(&alice, RegistryAction::Register, 10).unwrap().unwrap();
    let bob_view = store.run(&bob, RegistryAction::Register, 20).unwrap().unwrap();
    let alice_view = store.run(&alice, RegistryAction::Monitor, 30).unwrap().unwrap();

    assert!(assignment_changed(&first, &alice_view));
    assert_eq!(alice_view.members().len(), 2);
    assert_eq!(alice_view.assignment().vbuckets(), vec![0, 1, 2, 3]);
    assert_eq!(bob_view.assignment().vbuckets(), vec![4, 5, 6, 7]);

    assert!(store.run(&bob, RegistryAction::Remove, 40).unwrap().is_none());
    let alice_view = store.run(&alice, RegistryAction::Monitor, 50).unwrap().unwrap();
    assert_eq!(alice_view.members().len(), 1);
    assert_eq!(alice_view.assignment().vbuckets(), all(8));
}

#[test]
fn live_duplicate_incarnation_is_rejected_by_the_tokio_runtime() {
    let mut store = MemoryStore::with_conflicts(0);
    store
        .run(&runtime_config("worker", "original"), RegistryAction::Register, 10)
        .unwrap();

    let duplicate = store.run(&runtime_config("worker", "duplicate"), RegistryAction::Register, 20);
    assert!(matches!(
        duplicate,
        Err(CouchbaseMembershipError::DuplicateMember { .. })
    ));
}

#[test]
fn cas_retry_budget_is_bounded() {
    let mut store = MemoryStore::with_conflicts(3);
    let config = runtime_config("worker", "incarnation")
        .max_cas_attempts(PositiveCount::new(2).unwrap());

    let result = store.run(&config, RegistryAction::Register, 10);
    match result {
        Err(error) => {
            assert!(matches!(error, CouchbaseMembershipError::Store(_)));
            assert_eq!(
                error.to_text(),
                "Couchbase membership store error: membership CAS conflicted for all 2 attempts"
            );
        }
        Ok(_) => panic!("the budget must be exhausted"),
    }
}

#[test]
fn heartbeat_writes_do_not_publish_false_assignment_changes() {
    let mut store = MemoryStore::with_conflicts(0);
    let config = runtime_config("worker", "incarnation");
    let first = store.run(&config, RegistryAction::Register, 10).unwrap().unwrap();
    let second = store.run(&config, RegistryAction::Heartbeat, 20).unwrap().unwrap();
    assert!(!assignment_changed(&first, &second));
    assert_eq!(second.members()[0].heartbeat_at_millis(), 20);
    assert_eq!(second.members()[0].joined_at_millis(), 10);
    assert_eq!(second.members()[0].member_id(), "worker");
    assert_eq!(second.members()[0].incarnation(), "incarnation");
}

#[test]
fn transient_store_failure_recovers_before_the_membership_lease_expires() {
    let config = runtime_config("worker", "incarnation").stale_after(Interval::from_millis(100));
    let failure = CouchbaseMembershipError::Store("injected load failure".to_string());
    assert!(is_transient_runtime_error(&failure));
    assert!(renewal_failure(&config, failure, Interval::from_millis(35)).is_none());
}

#[test]
fn persistent_store_failure_expires_the_membership_lease_and_closes_updates() {
    let config = runtime_config("worker", "incarnation").stale_after(Interval::from_millis(45));
    let failure = CouchbaseMembershipError::Store("injected load failure".to_string());
    let error = renewal_failure(&config, failure, Interval::from_millis(45)).unwrap();
    assert!(matches!(error, CouchbaseMembershipError::LeaseExpired { .. }));
    assert_eq!(
        error.to_text(),
        "Couchbase membership lease expired after 45ms without a successful renewal: Couchbase membership store error: injected load failure"
    );
}

#[test]
fn terminal_membership_failures_are_not_tolerated() {
    let config = runtime_config("worker", "incarnation");
    let fenced = CouchbaseMembershipError::Fenced {
        member_id: "worker".to_string(),
    };
    assert!(!is_transient_runtime_error(&fenced));
    assert!(matches!(
        renewal_failure(&config, fenced, Interval::from_millis(1)),
        Some(CouchbaseMembershipError::Fenced { .. })
    ));
}

#[test]
fn cancelling_connect_during_rebalance_delay_removes_the_registered_incarnation() {
    let mut store = MemoryStore::with_conflicts(0);
    let config =
        runtime_config("worker", "incarnation").rebalance_delay(Interval::from_millis(200));
    store.run(&config, RegistryAction::Register, 10).unwrap();
    assert_eq!(store.registered_member_count(), 1);
    store.run(&config, RegistryAction::Remove, 20).unwrap();
    assert_eq!(store.registered_member_count(), 0);
}

#[test]
fn stored_registries_are_validated() {
    let entry = |key: &str, member: &str| RegistryEntry {
        key: key.to_string(),
        member_id: member.to_string(),
        incarnation: "incarnation".to_string(),
        joined_at_millis: 1,
        heartbeat_at_millis: 1,
    };
    assert!(RegistryDocument::from_parts(2, 8, 100, 1, Vec::new()).validate().is_err());
    assert!(RegistryDocument::from_parts(1, 0, 100, 1, Vec::new()).validate().is_err());
    assert!(RegistryDocument::from_parts(1, 8, 0, 1, Vec::new()).validate().is_err());
    assert!(RegistryDocument::from_parts(1, 8, 100, 1, vec![entry("a", "b")]).validate().is_err());
    let good = RegistryDocument::from_parts(1, 8, 100, 1, vec![entry("b", "b"), entry("a", "a")]);
    assert!(good.validate().is_ok());
    assert!(good.validate_settings(8, 100).is_ok());
    assert!(good.validate_settings(9, 100).is_err());
    assert!(good.validate_settings(8, 101).is_err());
    assert!(MemberIdentity::new("", "x").is_err());
    assert!(MemberIdentity::new("a b", "x").is_err());
}

#[test]
fn membership_times_are_milliseconds() {
    assert_eq!(duration_millis(&Interval::from_secs(2), "stale timeout").unwrap(), 2_000);
    assert_eq!(timestamp_millis(&Interval::from_millis(1_234)).unwrap(), 1_234);
    assert!(timestamp_millis(&Interval::from_secs(u64::MAX)).is_err());
    let config = runtime_config("worker", "incarnation");
    assert!(config.validate().is_ok());
    assert!(runtime_config("worker", "incarnation")
        .heartbeat_interval(Interval::from_secs(0))
        .validate()
        .is_err());
    assert!(config.registry_key().contains("runtime-test"));
}

#[test]
fn kv_results_preserve_cas_and_classify_conditional_conflicts() {
    let mut loaded = Frame::response(OPCODE_GET, STATUS_SUCCESS);
    loaded.value = br#"{"generation":1}"#.to_vec();
    loaded.cas = 42;
    match KvOperation::Load.parse_response(loaded).unwrap() {
        KvResult::Loaded(Some(document)) => {
            assert_eq!(document.cas, 42);
            assert_eq!(&document.value[..], br#"{"generation":1}"#);
        }
        _ => panic!("expected a loaded registry document"),
    }

    let create_conflict = Frame::response(OPCODE_ADD, STATUS_KEY_EXISTS);
    assert!(matches!(
        KvOperation::Create(Vec::new())
            .parse_response(create_conflict)
            .unwrap(),
        KvResult::Written(StoreWriteResult::Conflict)
    ));
    let replace_conflict = Frame::response(OPCODE_REPLACE, STATUS_KEY_NOT_FOUND);
    assert!(matches!(
        KvOperation::Replace {
            value: Vec::new(),
            cas: 7
        }
        .parse_response(replace_conflict)
        .unwrap(),
        KvResult::Written(StoreWriteResult::Conflict)
    ));
}

#[test]
fn kv_requests_carry_the_expected_revision() {
    let replace = KvOperation::Replace {
        value: b"{}".to_vec(),
        cas: 7,
    }
    .request("registry", Some(9), 12, true);
    assert_eq!(replace.cas, 7);
    assert_eq!(replace.mode.opcode(), OPCODE_REPLACE);
    assert_eq!(replace.collection_id, Some(9));
    assert_eq!(replace.vbucket, 12);
    assert_eq!(replace.key, b"registry".to_vec());
    let missing = Frame::response(OPCODE_GET, STATUS_KEY_NOT_FOUND);
    assert!(matches!(
        KvOperation::Load.parse_response(missing).unwrap(),
        KvResult::Loaded(None)
    ));
    assert!(KvOperation::Load
        .parse_response(Frame::response(OPCODE_GET, STATUS_NOT_SUPPORTED))
        .is_err());
}

#[test]
fn kv_response_envelope_rejects_wrong_direction_and_opcode() {
    assert!(validate_response_envelope(&Frame::request(OPCODE_GET), OPCODE_GET).is_err());
    assert!(
        validate_response_envelope(&Frame::response(OPCODE_SET, STATUS_SUCCESS), OPCODE_GET)
            .is_err()
    );
}

#[test]
fn registry_routing_is_retried_a_bounded_number_of_times() {
    let ok = Frame::response(OPCODE_GET, STATUS_SUCCESS);
    assert_eq!(routing_step(&ok, OPCODE_GET, 1, 3).unwrap(), RoutingStep::Accept);
    let moved = Frame::response(OPCODE_GET, STATUS_NOT_MY_VBUCKET);
    assert_eq!(
        routing_step(&moved, OPCODE_GET, 2, 3).unwrap(),
        RoutingStep::Rediscover
    );
    assert!(routing_step(&moved, OPCODE_GET, 3, 3).is_err());
}

#[test]
fn registry_collection_and_document_key_validation_is_bounded() {
    assert_eq!(CouchbaseRegistryCollection::default().scope(), "_default");
    assert!(CouchbaseRegistryCollection::new("inventory", "airline").is_ok());
    assert!(CouchbaseRegistryCollection::new("bad.scope", "airline").is_err());
    assert!(validate_document_key("").is_err());
    assert!(validate_document_key(&"x".repeat(251)).is_err());
    assert!(validate_document_key(&"x".repeat(250)).is_ok());
    assert!(validate_document_key("white space").is_err());
    let named = CouchbaseRegistryCollection::new("inventory", "airline").unwrap();
    assert_eq!(named.target(true).unwrap(), RegistryTarget::Lookup);
    assert!(named.target(false).is_err());
}

#[test]
fn missing_document_or_xattr_loads_as_absent_but_other_errors_surface() {
    assert!(sdk_xattr_is_absent(SdkFailure::DocumentNotFound));
    assert!(sdk_xattr_is_absent(SdkFailure::PathNotFound));
    assert!(!sdk_xattr_is_absent(SdkFailure::Other));
    assert!(matches!(
        sdk_checkpoint_error("authentication failure"),
        DcpError::CheckpointStore(_)
    ));
}

#[test]
fn writes_delegate_exact_values_and_only_missing_deletes_are_idempotent() {
    assert!(sdk_removal_is_done(Some(SdkFailure::DocumentNotFound)));
    assert!(sdk_removal_is_done(None));
    assert!(!sdk_removal_is_done(Some(SdkFailure::Other)));
    assert_eq!(
        sdk_checkpoint_error("authentication failure").to_text(),
        "checkpoint store error: official Couchbase SDK checkpoint operation failed: authentication failure"
    );
}

#[test]
fn missing_registry_loads_as_absent_but_other_errors_surface() {
    assert!(sdk_load_is_absent(SdkFailure::DocumentNotFound));
    assert!(!sdk_load_is_absent(SdkFailure::Other));
    assert!(matches!(
        sdk_membership_error("authentication failure"),
        CouchbaseMembershipError::Store(_)
    ));
}

#[test]
fn conditional_writes_preserve_conflicts_and_delegate_exact_cas() {
    assert_eq!(
        sdk_create_result(Some(SdkFailure::DocumentExists)),
        Some(StoreWriteResult::Conflict)
    );
    assert_eq!(sdk_create_result(None), Some(StoreWriteResult::Stored));
    assert_eq!(sdk_create_result(Some(SdkFailure::Other)), None);
    assert_eq!(
        sdk_replace_result(Some(SdkFailure::CasMismatch)),
        Some(StoreWriteResult::Conflict)
    );
    assert_eq!(
        sdk_replace_result(Some(SdkFailure::DocumentNotFound)),
        Some(StoreWriteResult::Conflict)
    );
    assert_eq!(sdk_replace_result(None), Some(StoreWriteResult::Stored));
    assert_eq!(sdk_replace_result(Some(SdkFailure::DocumentExists)), None);
}

#[test]
fn results_of_other_operations_are_refused() {
    assert!(KvResult::Loaded(None).into_loaded().unwrap().is_none());
    assert_eq!(
        KvResult::Written(StoreWriteResult::Conflict).into_written("create").unwrap(),
        StoreWriteResult::Conflict
    );
    assert!(matches!(
        KvResult::Written(StoreWriteResult::Stored).into_loaded(),
        Err(CouchbaseMembershipError::Store(text)) if text == "KV load returned a write result"
    ));
    assert!(matches!(
        KvResult::Loaded(None).into_written("replace"),
        Err(CouchbaseMembershipError::Store(text)) if text == "KV replace returned a load result"
    ));
}

#[test]
fn registry_node_must_understand_the_collection() {
    let mut capabilities = BootstrapCapabilities {
        hello_features: vec![HelloFeature::Json],
        sasl_mechanism: SaslMechanism::Plain,
        dcp_controls: Vec::new(),
    };
    let collection = CouchbaseRegistryCollection::new("app", "registry").unwrap();
    assert!(collection.check_node(&capabilities, None).is_ok());
    assert!(matches!(
        collection.check_node(&capabilities, Some(8)),
        Err(CouchbaseMembershipError::Dcp(DcpError::Unsupported(text)))
            if text == "registry collection requires Couchbase Collections on the active KV node"
    ));
    capabilities.hello_features.push(HelloFeature::Collections);
    assert!(collection.check_node(&capabilities, Some(8)).is_ok());
}

fn entry(key: &str, joined: u64, heartbeat: u64) -> RegistryEntry {
    RegistryEntry {
        key: key.to_string(),
        member_id: key.to_string(),
        incarnation: format!("{key}-1"),
        joined_at_millis: joined,
        heartbeat_at_millis: heartbeat,
    }
}

#[test]
fn stored_entries_are_listed_by_key_once() {
    let registry = RegistryDocument::from_parts(
        1,
        8,
        10,
        4,
        vec![entry("b", 1, 1), entry("a", 2, 2), entry("b", 3, 5)],
    );
    assert_eq!(registry.entries(), &vec![entry("a", 2, 2), entry("b", 3, 5)]);
    assert_eq!(registry.generation(), 4);
}

#[test]
fn pruning_removes_exactly_the_stale_members() {
    let entries = vec![entry("a", 1, 90), entry("b", 1, 91), entry("c", 1, 20)];
    let mut registry = RegistryDocument::from_parts(1, 8, 10, 4, entries);
    assert_eq!(registry.prune_stale(100).unwrap(), 2);
    assert_eq!(registry.entries(), &vec![entry("b", 1, 91)]);
    assert_eq!(registry.generation(), 5);
    assert_eq!(registry.prune_stale(100).unwrap(), 0);
    assert_eq!(registry.generation(), 5);

    let mut exhausted =
        RegistryDocument::from_parts(1, 8, 10, u64::MAX, vec![entry("a", 1, 1)]);
    assert!(matches!(
        exhausted.prune_stale(100),
        Err(CouchbaseMembershipError::Registry(_))
    ));
    assert_eq!(exhausted.entries(), &vec![entry("a", 1, 1)]);
    assert_eq!(exhausted.prune_stale(10).unwrap(), 0);
}

#[test]
fn members_share_one_view_and_split_the_bucket() {
    let mut registry = RegistryDocument::new(10, 1_000).unwrap();
    let members = ["late", "early", "middle"];
    for (member, now) in members.iter().zip([30, 10, 20]) {
        registry.register(&identity(member, "one"), now).unwrap();
    }
    let mut seen: Vec<u16> = Vec::new();
    let first = registry.snapshot(&identity("late", "one")).unwrap();
    let order: Vec<&str> = first.members().iter().map(|info| info.member_id()).collect();
    assert_eq!(order, vec!["early", "middle", "late"]);
    for member in members {
        let snapshot = registry.snapshot(&identity(member, "one")).unwrap();
        assert_eq!(snapshot.members(), first.members());
        assert_eq!(snapshot.assignment().generation(), registry.generation());
        seen.extend(snapshot.assignment().vbuckets());
    }
    seen.sort_unstable();
    assert_eq!(seen, all(10));
    assert!(matches!(
        registry.snapshot(&identity("late", "two")),
        Err(CouchbaseMembershipError::Fenced { .. })
    ));
    assert!(matches!(
        registry.snapshot(&identity("absent", "one")),
        Err(CouchbaseMembershipError::Fenced { .. })
    ));
}
