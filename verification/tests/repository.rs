use tachyon_application::domain::function::{
    Function, FunctionAlias, FunctionRevision, RevisionStatus,
};
use tachyon_application::domain::environment::{EnvironmentState, ExecutionEnvironment, ReuseKey};
use tachyon_application::domain::invocation::{
    AttemptStatus, Deadlines, ErrorClass, Invocation, InvocationAttempt, InvocationMode,
    InvocationStatus, StartKind,
};
use tachyon_application::domain::log::{LogPhase, LogRecord, LogStream};
use tachyon_application::domain::Limits;
use tachyon_application::repository::memory::InMemoryStore;
use tachyon_application::repository::outbox::ObjectRef;
use tachyon_application::repository::objects::{CollectDecision, CollectReason};
use tachyon_application::repository::restart::HOST_RESTARTED;
use tachyon_application::repository::{
    AppendOutcome, IdempotencyBinding, IdempotencyOutcome, RepoError,
};
use tachyon_application::time::{plus, STRIDE};

/// 2026-09-15T00:00:00Z.
const NOW: i128 = 1_789_430_400 * STRIDE;
const SECOND: i128 = 1_000_000_000;
const DAY: i128 = 86_400 * SECOND;

fn limits() -> Limits {
    Limits {
        max_response_bytes: 6 * 1024 * 1024,
        max_log_line_bytes: 16 * 1024,
        max_log_lines_per_invocation: 10_000,
        max_log_bytes_per_invocation: 1024 * 1024,
    }
}

fn function(id: &str, tenant: &str, name: &str) -> Function {
    Function {
        id: id.to_string(),
        tenant_id: tenant.to_string(),
        name: name.to_string(),
        description: String::new(),
        created_at: NOW,
        deleted_at: None,
    }
}

fn keyed_invocation(id: &str, tenant: &str, function: &str, key: Option<&str>) -> Invocation {
    Invocation {
        id: id.to_string(),
        tenant_id: tenant.to_string(),
        function_id: function.to_string(),
        alias: None,
        revision_id: "rev_1".to_string(),
        mode: InvocationMode::Sync,
        event_kind: "json".to_string(),
        deadlines: Deadlines {
            queue_deadline: NOW,
            init_deadline: None,
            execution_deadline: None,
            client_deadline: NOW,
        },
        idempotency_key: key.map(str::to_string),
        input_digest: "sha256:{}".to_string(),
        input_size_bytes: 2,
        trace_id: "trace".to_string(),
        accepted_at: NOW,
        status: InvocationStatus::Accepted,
        attempt_ids: Vec::new(),
        output: None,
        response_status: None,
        started_at: None,
        finished_at: None,
        dispatcher_id: None,
    }
}

fn revision(id: &str, tenant: &str, function: &str, number: u64) -> FunctionRevision {
    FunctionRevision {
        id: id.to_string(),
        function_id: function.to_string(),
        tenant_id: tenant.to_string(),
        number,
        spec: "{}".to_string(),
        spec_digest: "sha256:spec".to_string(),
        status: RevisionStatus::Ready,
        created_at: NOW,
    }
}

fn alias(function: &str, tenant: &str, revision: &str, generation: u64) -> FunctionAlias {
    FunctionAlias {
        function_id: function.to_string(),
        tenant_id: tenant.to_string(),
        name: "live".to_string(),
        revision_id: revision.to_string(),
        previous_revision_id: None,
        generation,
        created_at: NOW,
        updated_at: NOW,
    }
}

#[test]
fn function_name_unique_per_tenant() {
    let mut store = InMemoryStore::new(limits());
    store.insert_function(function("f1", "t", "hello")).unwrap();
    assert!(matches!(
        store.insert_function(function("f2", "t", "hello")),
        Err(RepoError::Conflict(_))
    ));
    store.insert_function(function("f3", "other", "hello")).unwrap();
    assert_eq!(store.list_functions("t").len(), 1);
}

#[test]
fn a_deleted_function_frees_its_name() {
    let mut store = InMemoryStore::new(limits());
    store.insert_function(function("f1", "t", "hello")).unwrap();
    let mut gone = function("f1", "t", "hello");
    gone.deleted_at = Some(NOW);
    store.update_function(gone).unwrap();
    assert!(store.find_by_name("t", "hello").is_none());
    store.insert_function(function("f2", "t", "hello")).unwrap();
    assert_eq!(store.find_by_name("t", "hello").unwrap().id, "f2");
    assert_eq!(
        store.insert_function(function("f2", "t", "again")),
        Err(RepoError::Conflict("function f2 already exists".to_string()))
    );
    assert_eq!(
        store.update_function(function("none", "t", "x")),
        Err(RepoError::NotFound("function none".to_string()))
    );
}

#[test]
fn a_function_keeps_its_tenant_and_its_name() {
    let mut store = InMemoryStore::new(limits());
    store.insert_function(function("f1", "t", "hello")).unwrap();
    assert!(matches!(
        store.update_function(function("f1", "other", "hello")),
        Err(RepoError::Refused(_))
    ));
    assert!(matches!(
        store.update_function(function("f1", "t", "renamed")),
        Err(RepoError::Refused(_))
    ));
    assert_eq!(store.get_function("f1").unwrap().name, "hello");
}

#[test]
fn logs_are_bounded_per_invocation() {
    let mut store = InMemoryStore::new(Limits { max_log_lines_per_invocation: 2, ..limits() });
    let rec = |line: &str| LogRecord {
        tenant_id: "t".to_string(),
        environment_id: "env".to_string(),
        invocation_id: Some("inv".to_string()),
        attempt_id: None,
        stream: LogStream::Stdout,
        phase: LogPhase::Handler,
        timestamp: NOW,
        line: line.to_string(),
        truncated: false,
    };
    assert_eq!(store.append(rec("a")), AppendOutcome::Stored);
    assert_eq!(store.append(rec("b")), AppendOutcome::Stored);
    assert_eq!(store.append(rec("c")), AppendOutcome::Dropped);
    let q = store.query("inv");
    assert_eq!(q.records.len(), 2);
    assert!(q.dropped);
}

#[test]
fn idempotency_key_is_bound_with_its_invocation() {
    let mut store = InMemoryStore::new(limits());
    assert_eq!(store.lookup("t", "f", "k", NOW), None);
    let first = keyed_invocation("inv_1", "t", "f", Some("k"));
    assert_eq!(store.insert_bound(first).unwrap(), IdempotencyOutcome::Inserted);
    let binding = IdempotencyBinding {
        invocation_id: "inv_1".to_string(),
        input_digest: "sha256:{}".to_string(),
        expires_at: None,
    };
    assert_eq!(store.lookup("t", "f", "k", NOW), Some(binding.clone()));
    assert!(store.get_invocation("inv_1").is_some());

    // A second invocation with the same key is not inserted.
    let second = keyed_invocation("inv_2", "t", "f", Some("k"));
    assert_eq!(store.insert_bound(second).unwrap(), IdempotencyOutcome::Existing(binding));
    assert!(store.get_invocation("inv_2").is_none());
    // Same key, other tenant: its own scope.
    assert_eq!(
        store.insert_bound(keyed_invocation("inv_3", "other", "f", Some("k"))).unwrap(),
        IdempotencyOutcome::Inserted
    );
    // No key: plain insert; a duplicate id conflicts.
    let plain = keyed_invocation("inv_4", "t", "f", None);
    assert_eq!(store.insert_bound(plain.clone()).unwrap(), IdempotencyOutcome::Inserted);
    assert!(matches!(store.insert_bound(plain), Err(RepoError::Conflict(_))));
}

#[test]
fn a_binding_expires_after_its_invocation_finished() {
    let mut store = InMemoryStore::new(limits()).with_idempotency_retention(Some(DAY));
    let inv = keyed_invocation("inv_1", "t", "f", Some("k"));
    store.insert_bound(inv.clone()).unwrap();
    // Never while it is in flight.
    assert!(store.lookup("t", "f", "k", plus(NOW, 1000 * DAY)).is_some());
    let mut done = inv.clone();
    done.status = InvocationStatus::Succeeded;
    done.finished_at = Some(plus(NOW, SECOND));
    store.update_invocation(done).unwrap();
    assert_eq!(
        store.lookup("t", "f", "k", plus(NOW, 2 * SECOND)).unwrap().expires_at,
        Some(plus(NOW, SECOND + DAY))
    );
    assert!(store.lookup("t", "f", "k", plus(NOW, DAY)).is_some());
    assert!(store.lookup("t", "f", "k", plus(NOW, SECOND + DAY)).is_none());
    assert_eq!(store.purge_expired_idempotency(plus(NOW, DAY)), 0);
    assert_eq!(store.purge_expired_idempotency(plus(NOW, SECOND + DAY)), 1);
    assert_eq!(store.purge_expired_idempotency(plus(NOW, SECOND + DAY)), 0);
}

#[test]
fn an_expired_key_can_be_bound_again() {
    let mut store = InMemoryStore::new(limits()).with_idempotency_retention(Some(DAY));
    store.insert_bound(keyed_invocation("inv_1", "t", "f", Some("k"))).unwrap();
    let mut done = keyed_invocation("inv_1", "t", "f", Some("k"));
    done.status = InvocationStatus::Succeeded;
    done.finished_at = Some(NOW);
    store.update_invocation(done).unwrap();
    let mut later = keyed_invocation("inv_2", "t", "f", Some("k"));
    later.accepted_at = plus(NOW, 2 * DAY);
    assert_eq!(store.insert_bound(later).unwrap(), IdempotencyOutcome::Inserted);
    assert_eq!(store.lookup("t", "f", "k", plus(NOW, 2 * DAY)).unwrap().invocation_id, "inv_2");
}

#[test]
fn dangling_idempotency_entries_are_dropped_on_restart() {
    let mut store = InMemoryStore::new(limits());
    store.insert_bound(keyed_invocation("inv_live", "t", "f", Some("live"))).unwrap();
    // A key bound to an invocation that never existed.
    store.insert_bound(keyed_invocation("inv_gone", "t", "f", Some("dangling"))).unwrap();
    let at = store
        .work
        .invocations
        .position(&tachyon_application::table::Key::one("inv_gone"))
        .unwrap();
    store.work.invocations.remove_at(at);
    let settled = store.reconcile_after_restart(NOW);
    assert_eq!(settled.idempotency_dropped, 1);
    assert_eq!(store.lookup("t", "f", "dangling", NOW), None);
    assert_eq!(store.lookup("t", "f", "live", NOW).unwrap().invocation_id, "inv_live");
    assert_eq!(
        store.insert_bound(keyed_invocation("inv_new", "t", "f", Some("dangling"))).unwrap(),
        IdempotencyOutcome::Inserted
    );
}

#[test]
fn artifact_ownership_is_per_tenant_and_persisted() {
    let mut store = InMemoryStore::new(limits());
    assert!(!store.is_owned_by("a", "sha256:binary"));
    store.claim("a", "sha256:binary");
    store.claim("a", "sha256:binary");
    assert!(store.is_owned_by("a", "sha256:binary"));
    assert!(!store.is_owned_by("b", "sha256:binary"));
    store.reconcile_after_restart(NOW);
    assert!(store.is_owned_by("a", "sha256:binary"));
    assert!(!store.is_owned_by("b", "sha256:binary"));
    store.claim("b", "sha256:binary");
    assert!(store.is_owned_by("b", "sha256:binary"));
}

fn environment(id: &str, tenant: &str, revision: &str) -> ExecutionEnvironment {
    ExecutionEnvironment {
        id: id.to_string(),
        tenant_id: tenant.to_string(),
        revision_id: revision.to_string(),
        provider: "fake".to_string(),
        reuse_key: ReuseKey {
            tenant_id: tenant.to_string(),
            revision_id: revision.to_string(),
            execution_role_version: 1,
            configuration_version: 1,
            resource_profile_digest: "d".to_string(),
            runtime_profile: "p".to_string(),
            network_policy_version: 1,
            secret_binding_generation: 1,
        },
        state: EnvironmentState::Requested,
        epoch: 1,
        created_at: NOW,
        updated_at: NOW,
        idle_since: None,
        owner: None,
        fenced_at: None,
    }
}

#[test]
fn repository_persistence_roundtrip_and_restart_reconcile() {
    let mut store = InMemoryStore::new(limits());
    store.insert_function(function("f", "t", "persisted")).unwrap();
    store.insert_invocation(keyed_invocation("inv", "t", "f", None)).unwrap();
    store.insert_environment(environment("env", "t", "rev_1")).unwrap();
    let settled = store.reconcile_after_restart(NOW);
    assert_eq!((settled.invocations, settled.environments), (1, 1));
    assert!(store.get_function("f").is_some());
    let invs = store.list_by_function("f", 10);
    assert_eq!(invs.len(), 1);
    assert!(invs[0].status.is_terminal(), "work that never started is failed on restart");
    assert!(store.list_active().is_empty());
    assert_eq!(store.get_function("f").unwrap().name, "persisted");
}

/// A restart may only report a failure for work that provably never started.
#[test]
fn repository_restart_separates_dispatched_work_from_work_that_never_started() {
    let mut store = InMemoryStore::new(limits());
    let mut queued = keyed_invocation("queued", "t", "f", None);
    assert!(queued.mark_queued());
    let mut running = keyed_invocation("running", "t", "f", None);
    running.status = InvocationStatus::Running;
    running.attempt_ids.push("att".to_string());
    running.started_at = Some(NOW);
    let mut finished = keyed_invocation("finished", "t", "f", None);
    finished.status = InvocationStatus::Succeeded;
    finished.attempt_ids.push("att_0".to_string());
    finished.finished_at = Some(NOW);
    let attempt = InvocationAttempt {
        id: "att".to_string(),
        invocation_id: "running".to_string(),
        tenant_id: "t".to_string(),
        number: 1,
        environment_id: "env".to_string(),
        epoch: 1,
        start_kind: StartKind::Cold,
        dispatched_at: NOW,
        status: AttemptStatus::Dispatched,
        finished_at: None,
    };
    for inv in [queued, running, finished] {
        store.insert_invocation(inv).unwrap();
    }
    store.insert_attempt(attempt).unwrap();
    store.reconcile_after_restart(NOW);

    match &store.get_invocation("queued").unwrap().status {
        InvocationStatus::Failed { error } => {
            assert_eq!(error.class, ErrorClass::PlatformError);
            assert_eq!(error.error_type, HOST_RESTARTED);
        }
        other => panic!("a queued invocation was never dispatched: {other:?}"),
    }
    match &store.get_invocation("running").unwrap().status {
        InvocationStatus::OutcomeUnknown { error } => {
            assert_eq!(error.class, ErrorClass::OutcomeUnknown);
            assert_eq!(error.error_type, HOST_RESTARTED);
        }
        other => panic!("a dispatched invocation may have run: {other:?}"),
    }
    assert_eq!(
        store.get_invocation("finished").unwrap().status,
        InvocationStatus::Succeeded,
        "terminal invocations are untouched"
    );
    match &store.get_attempt("att").unwrap().status {
        AttemptStatus::OutcomeUnknown { error } => {
            assert_eq!(error.error_type, HOST_RESTARTED);
        }
        other => panic!("the attempt follows its invocation: {other:?}"),
    }
    // Settling is done once.
    let again = store.reconcile_after_restart(NOW);
    assert_eq!((again.invocations, again.attempts), (0, 0));
}

#[test]
fn revision_numbers_count_up_per_function() {
    let mut store = InMemoryStore::new(limits());
    assert_eq!(store.allocate_number("f"), 1);
    assert_eq!(store.allocate_number("f"), 2);
    assert_eq!(store.allocate_number("g"), 1);
    store.insert_function(function("f", "t", "hello")).unwrap();
    store.insert_revision(revision("r2", "t", "f", 2)).unwrap();
    store.insert_revision(revision("r1", "t", "f", 1)).unwrap();
    let ids: Vec<&str> = store.list_revisions("f").iter().map(|r| r.id.as_str()).collect();
    assert_eq!(ids, vec!["r1", "r2"]);
    assert!(matches!(
        store.insert_revision(revision("r3", "t", "f", 2)),
        Err(RepoError::Conflict(_))
    ));
    assert!(matches!(
        store.insert_revision(revision("r4", "other", "f", 4)),
        Err(RepoError::Refused(_))
    ));
}

#[test]
fn an_alias_has_one_writer_per_generation() {
    let mut store = InMemoryStore::new(limits());
    store.insert_function(function("f", "t", "hello")).unwrap();
    store.insert_revision(revision("r1", "t", "f", 1)).unwrap();
    store.insert_revision(revision("r2", "t", "f", 2)).unwrap();
    store.insert_alias(alias("f", "t", "r1", 1)).unwrap();
    assert!(store.compare_and_set(alias("f", "t", "r2", 2), 1).unwrap());
    // The second writer read the same generation and loses.
    assert!(!store.compare_and_set(alias("f", "t", "r1", 2), 1).unwrap());
    assert_eq!(store.get_alias("f", "live").unwrap().revision_id, "r2");
    assert!(matches!(
        store.compare_and_set(alias("g", "t", "r1", 2), 1),
        Err(RepoError::NotFound(_))
    ));
}

fn object(tenant: &str) -> ObjectRef {
    ObjectRef { id: "obj_1".to_string(), tenant_id: tenant.to_string(), region: "r".to_string() }
}

const CREATED_MS: u64 = 1_789_430_400_000;

#[test]
fn a_referenced_object_is_not_collected() {
    let mut store = InMemoryStore::new(limits());
    store.insert_invocation(keyed_invocation("inv", "t", "f", None)).unwrap();
    store.attach_object(&object("t"), CREATED_MS, "inv", NOW).unwrap();
    assert_eq!(store.object_references("obj_1").len(), 1);
    assert_eq!(
        store.claim_for_collection(&object("t"), CollectReason::Expired, NOW),
        CollectDecision::InUse { invocations: 1 }
    );
    let mut done = keyed_invocation("inv", "t", "f", None);
    done.status = InvocationStatus::Succeeded;
    done.finished_at = Some(NOW);
    store.update_invocation(done).unwrap();
    // An orphan sweep still sees the reference; an expiry may take the object.
    assert_eq!(
        store.claim_for_collection(&object("t"), CollectReason::Orphan, NOW),
        CollectDecision::Referenced
    );
    assert_eq!(
        store.claim_for_collection(&object("t"), CollectReason::Expired, NOW),
        CollectDecision::Collect
    );
}

#[test]
fn a_collected_object_is_never_attached() {
    let mut store = InMemoryStore::new(limits());
    store.insert_invocation(keyed_invocation("inv", "t", "f", None)).unwrap();
    assert_eq!(
        store.claim_for_collection(&object("t"), CollectReason::Orphan, NOW),
        CollectDecision::Collect
    );
    assert!(matches!(
        store.attach_object(&object("t"), CREATED_MS, "inv", NOW),
        Err(RepoError::Refused(_))
    ));
    assert!(store.object_references("obj_1").is_empty());
    // Claiming again is answered the same way.
    assert_eq!(
        store.claim_for_collection(&object("t"), CollectReason::Orphan, NOW),
        CollectDecision::Collect
    );
}

#[test]
fn an_object_of_another_tenant_is_not_attached() {
    let mut store = InMemoryStore::new(limits());
    store.insert_invocation(keyed_invocation("inv", "t", "f", None)).unwrap();
    assert!(matches!(
        store.attach_object(&object("other"), CREATED_MS, "inv", NOW),
        Err(RepoError::Refused(_))
    ));
    assert!(matches!(
        store.attach_object(&object("t"), CREATED_MS, "none", NOW),
        Err(RepoError::NotFound(_))
    ));
}

#[test]
fn an_object_older_than_the_tombstones_is_refused() {
    let mut store = InMemoryStore::new(limits());
    store.insert_invocation(keyed_invocation("inv", "t", "f", None)).unwrap();
    assert!(store.attach_object(&object("t"), CREATED_MS, "inv", plus(NOW, 10_000 * DAY)).is_err());
    assert_eq!(store.purge_tombstones(NOW), 0);
}

#[test]
fn a_revision_and_the_aliases_of_a_function_are_found() {
    let mut store = InMemoryStore::new(limits());
    store.insert_function(function("f", "t", "hello")).unwrap();
    store.insert_revision(revision("r1", "t", "f", 1)).unwrap();
    assert_eq!(store.get_revision("r1").unwrap().number, 1);
    assert!(store.get_revision("r2").is_none());
    let mut beta = alias("f", "t", "r1", 1);
    beta.name = "beta".to_string();
    store.insert_alias(alias("f", "t", "r1", 1)).unwrap();
    store.insert_alias(beta).unwrap();
    let names: Vec<&str> = store.list_aliases("f").iter().map(|a| a.name.as_str()).collect();
    assert_eq!(names, vec!["beta", "live"]);
    assert!(store.list_aliases("g").is_empty());
}

#[test]
fn a_forgotten_object_has_no_references() {
    let mut store = InMemoryStore::new(limits());
    store.insert_invocation(keyed_invocation("inv", "t", "f", None)).unwrap();
    store.attach_object(&object("t"), CREATED_MS, "inv", NOW).unwrap();
    store.forget_object("another");
    assert_eq!(store.object_references("obj_1").len(), 1);
    store.forget_object("obj_1");
    assert!(store.object_references("obj_1").is_empty());
}
