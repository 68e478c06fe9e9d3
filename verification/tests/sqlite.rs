use chrono::{DateTime, TimeDelta, Utc};
use tachyon_application::domain::environment::{EnvironmentState, ExecutionEnvironment, ExecutionLease, ReuseKey};
use tachyon_application::domain::function::{Function, FunctionAlias, FunctionRevision, RevisionStatus};
use tachyon_application::domain::invocation::{
    AttemptStatus, Deadlines, ErrorClass, Invocation, InvocationAttempt, InvocationMode,
    InvocationStatus, PayloadRef, StartKind,
};
use tachyon_application::repository::guard::Write;
use tachyon_application::repository::reconcile::Work;
use tachyon_application::repository::restart::HOST_RESTARTED;
use tachyon_application::repository::sqlite::import::{
    import_legacy, imported_name, invalid_file, Import, LEDGER_TABLES,
};
use tachyon_application::repository::sqlite::migrations::{failed, pending, LATEST, MIGRATIONS};
use tachyon_application::repository::sqlite::outputs::{is_expired, keep_digest, output_bytes};
use tachyon_application::repository::sqlite::rows;
use tachyon_application::repository::sqlite::rows::BoundPlan;
use tachyon_application::repository::sqlite::{
    big, bits, failure, flag, idempotency_expires_at, live_binding, one_row, output_expires_at,
    output_kind, unsigned, Settled, SqliteOptions,
};
use tachyon_application::repository::{IdempotencyBinding, RepoError};
use tachyon_application::table::Key;
use tachyon_application::time::{
    between, checked_after, file_stamp, instant, is_date, ns, of_nanos, opt_ts, parse_opt_ts, parse_ts,
    plus, ts, LONGEST, MAX_TIMESTAMP, MIN_TIMESTAMP, SECOND, STRIDE,
};

const NOW: i128 = 1_789_430_400 * STRIDE;
const HOUR: i128 = 3_600_000_000_000;

fn message(e: RepoError) -> String {
    match e {
        RepoError::NotFound(m)
        | RepoError::Conflict(m)
        | RepoError::Refused(m)
        | RepoError::Io(m)
        | RepoError::Serialization(m)
        | RepoError::Store(m) => m,
    }
}

fn invocation(id: &str, key: Option<&str>) -> Invocation {
    Invocation {
        id: id.to_string(),
        tenant_id: "t".to_string(),
        function_id: "f".to_string(),
        alias: None,
        revision_id: "rev".to_string(),
        mode: InvocationMode::Sync,
        event_kind: "json".to_string(),
        deadlines: Deadlines {
            queue_deadline: NOW,
            init_deadline: None,
            execution_deadline: None,
            client_deadline: NOW,
        },
        idempotency_key: key.map(str::to_string),
        input_digest: "sha256:{}".to_string(),
        input_size_bytes: 2,
        trace_id: "trace".to_string(),
        accepted_at: NOW,
        status: InvocationStatus::Accepted,
        attempt_ids: Vec::new(),
        output: None,
        response_status: None,
        started_at: None,
        finished_at: None,
        dispatcher_id: None,
    }
}

fn finished(id: &str, body: &str, size: u64) -> Invocation {
    let mut inv = invocation(id, Some("k"));
    inv.status = InvocationStatus::Succeeded;
    inv.finished_at = Some(NOW);
    inv.output =
        Some(PayloadRef::Inline { bytes_base64: body.to_string(), size_bytes: size });
    inv
}

fn key() -> ReuseKey {
    ReuseKey {
        tenant_id: "t".to_string(),
        revision_id: "rev".to_string(),
        execution_role_version: 1,
        configuration_version: u64::MAX,
        resource_profile_digest: "rp".to_string(),
        runtime_profile: "v1".to_string(),
        network_policy_version: 3,
        secret_binding_generation: 11,
    }
}

fn environment(id: &str, state: EnvironmentState) -> ExecutionEnvironment {
    ExecutionEnvironment {
        id: id.to_string(),
        tenant_id: "t".to_string(),
        revision_id: "rev".to_string(),
        provider: "fake".to_string(),
        reuse_key: key(),
        state,
        epoch: 1,
        created_at: NOW,
        updated_at: NOW,
        idle_since: None,
        owner: None,
        fenced_at: None,
    }
}

fn attempt(id: &str, invocation: &str) -> InvocationAttempt {
    InvocationAttempt {
        id: id.to_string(),
        invocation_id: invocation.to_string(),
        tenant_id: "t".to_string(),
        number: 1,
        environment_id: "env".to_string(),
        epoch: 1,
        start_kind: StartKind::Cold,
        dispatched_at: NOW,
        status: AttemptStatus::Dispatched,
        finished_at: None,
    }
}

fn lease(id: &str) -> ExecutionLease {
    ExecutionLease {
        id: id.to_string(),
        environment_id: "env".to_string(),
        attempt_id: "att".to_string(),
        tenant_id: "t".to_string(),
        epoch: 1,
        execution_deadline: NOW,
        acquired_at: NOW,
        released_at: None,
        owner: None,
        expires_at: None,
    }
}

// -- migrations ---------------------------------------------------------------

#[test]
fn versions_are_contiguous_and_increasing() {
    for (i, m) in MIGRATIONS.iter().enumerate() {
        assert_eq!(m.0, i as i64 + 1, "{}", m.1);
    }
    assert_eq!(LATEST, MIGRATIONS.len() as i64);
}

#[test]
fn migrations_apply_to_an_empty_database() {
    let all: Vec<i64> = pending(0, LATEST).unwrap().iter().map(|m| m.version).collect();
    assert_eq!(all, MIGRATIONS.iter().map(|m| m.0).collect::<Vec<_>>());
    // Reopening applies nothing.
    assert!(pending(LATEST, LATEST).unwrap().is_empty());
}

#[test]
fn migrations_upgrade_a_database_at_an_older_version() {
    assert_eq!(pending(0, 1).unwrap().len(), 1);
    let rest = pending(1, 2).unwrap();
    assert_eq!(rest.iter().map(|m| m.version).collect::<Vec<_>>(), vec![2]);
    assert_eq!(rest[0].name, "output_retention");
    // The pre-existing inline output gets its expiry.
    let inv = finished("inv", "e30=", 2);
    assert_eq!(output_expires_at(&inv, Some(HOUR)), Some(plus(NOW, HOUR)));
}

#[test]
fn a_database_newer_than_the_binary_is_refused() {
    let msg = message(pending(99, LATEST).unwrap_err());
    assert!(msg.contains("schema version 99"), "{msg}");
    assert!(msg.contains("forward-only"), "{msg}");
}

#[test]
fn a_failing_migration_leaves_the_previous_schema_intact() {
    let step = pending(1, LATEST).unwrap()[0];
    let msg = message(failed(&step, "duplicate column name"));
    assert!(msg.contains("002_output_retention"), "{msg}");
    assert!(msg.ends_with("failed: duplicate column name"), "{msg}");
}

// -- restart ------------------------------------------------------------------

#[test]
fn tests_persistence_roundtrip_and_restart_reconcile() {
    let mut work = Work::new();
    work.invocations.set(Key::one("inv"), invocation("inv", Some("k")));
    work.idempotency.set(
        Key::three("t", "f", "k"),
        IdempotencyBinding {
            invocation_id: "inv".to_string(),
            input_digest: "sha256:{}".to_string(),
            expires_at: None,
        },
    );
    let mut pooled = environment("pooled", EnvironmentState::Busy);
    assert!(pooled.mark_idle(NOW));
    let done = environment("done", EnvironmentState::Stopped);
    work.environments.set(Key::one("pooled"), pooled);
    work.environments.set(Key::one("done"), done.clone());
    work.leases.set(Key::one("lease"), lease("lease"));

    let settled = work.reconcile_after_restart(NOW);
    assert_eq!((settled.invocations, settled.environments, settled.leases), (1, 1, 1));
    assert!(work.idempotency.get(&Key::three("t", "f", "k")).is_some());
    assert!(
        work.invocations.get(&Key::one("inv")).unwrap().status.is_terminal(),
        "work that never started is failed on restart"
    );
    assert!(matches!(
        work.environments.get(&Key::one("pooled")).unwrap().state,
        EnvironmentState::Lost { .. }
    ));
    assert_eq!(
        work.environments.get(&Key::one("done")).unwrap(),
        &done,
        "terminal environments are untouched"
    );
    // A third open finds nothing left to settle.
    assert_eq!(work.reconcile_after_restart(NOW), Settled::default());
}

#[test]
fn tests_restart_separates_dispatched_work_from_work_that_never_started() {
    let mut work = Work::new();
    let mut queued = invocation("queued", None);
    assert!(queued.mark_queued());
    let mut running = invocation("running", None);
    running.status = InvocationStatus::Running;
    running.attempt_ids.push("att".to_string());
    let mut done = invocation("finished", None);
    done.status = InvocationStatus::Succeeded;
    for inv in [queued, running, done] {
        let id = inv.id.clone();
        work.invocations.set(Key::one(&id), inv);
    }
    work.attempts.set(Key::one("att"), attempt("att", "running"));
    work.attempts.set(Key::one("queued_att"), attempt("queued_att", "queued"));
    // A dangling key left by an older version.
    work.idempotency.set(
        Key::three("t", "f", "dangling"),
        IdempotencyBinding {
            invocation_id: "never".to_string(),
            input_digest: "sha256:{}".to_string(),
            expires_at: None,
        },
    );

    let settled = work.reconcile_after_restart(NOW);
    assert_eq!(settled.idempotency_dropped, 1);
    assert!(work.idempotency.get(&Key::three("t", "f", "dangling")).is_none());
    let load = |id: &str| &work.invocations.get(&Key::one(id)).unwrap().status;
    match load("queued") {
        InvocationStatus::Failed { error } => {
            assert_eq!(error.class, ErrorClass::PlatformError);
            assert_eq!(error.error_type, HOST_RESTARTED);
        }
        other => panic!("a queued invocation was never dispatched: {other:?}"),
    }
    match load("running") {
        InvocationStatus::OutcomeUnknown { error } => {
            assert_eq!(error.class, ErrorClass::OutcomeUnknown);
            assert_eq!(error.error_type, HOST_RESTARTED);
        }
        other => panic!("a dispatched invocation may have run: {other:?}"),
    }
    assert_eq!(
        load("finished"),
        &InvocationStatus::Succeeded,
        "terminal invocations are untouched"
    );
    match &work.attempts.get(&Key::one("att")).unwrap().status {
        AttemptStatus::OutcomeUnknown { error } => assert_eq!(error.error_type, HOST_RESTARTED),
        other => panic!("the attempt follows its invocation: {other:?}"),
    }
    assert!(matches!(
        work.attempts.get(&Key::one("queued_att")).unwrap().status,
        AttemptStatus::Failed { .. }
    ));
}

#[test]
fn an_owned_row_and_a_durable_input_survive_a_restart() {
    let mut work = Work::new();
    let mut owned = invocation("owned", None);
    owned.dispatcher_id = Some("d1".to_string());
    work.invocations.set(Key::one("owned"), owned);
    work.invocations.set(Key::one("durable"), invocation("durable", None));
    work.inputs.set(Key::one("durable"), ());
    assert_eq!(work.reconcile_after_restart(NOW), Settled::default());
}

// -- import -------------------------------------------------------------------

#[test]
fn a_p1_state_json_is_imported_once_and_moved_aside() {
    let digest = "sha256:abc".to_string();
    assert_eq!(
        import_legacy(&digest, &None, false, "d/state.json", "d/state.db"),
        Ok(Import::Rows)
    );
    let stamp = file_stamp(&NOW);
    assert_eq!(stamp, "20260915T000000Z");
    let name = imported_name(&stamp, 0);
    assert!(name.starts_with("state.json.imported-"));
    assert_eq!(imported_name(&stamp, 1), format!("{name}.1"));
    assert_eq!(imported_name(&stamp, 12), format!("{name}.12"));
}

#[test]
fn an_interrupted_import_only_finishes_the_rename() {
    let digest = "sha256:abc".to_string();
    assert_eq!(
        import_legacy(&digest, &Some(digest.clone()), true, "d/state.json", "d/state.db"),
        Ok(Import::MoveOnly)
    );
}

#[test]
fn a_state_json_next_to_a_populated_database_is_refused() {
    let msg = message(
        import_legacy("sha256:new", &Some("sha256:old".to_string()), true, "d/state.json", "d/state.db")
            .unwrap_err(),
    );
    assert!(msg.contains("state.json"), "{msg}");
    assert!(msg.contains("state.db"), "{msg}");
    assert_eq!(
        msg,
        "both d/state.json and d/state.db hold a ledger. state.json is only imported into an empty \
         database: move d/state.json aside if it is already imported, or move d/state.db aside to \
         import the JSON ledger again"
    );
}

#[test]
fn tests_corrupt_state_file_is_refused_with_a_hint() {
    let msg = message(invalid_file("d/state.json", "expected value at line 1 column 1"));
    assert!(msg.contains("not a valid state file"), "{msg}");
    assert!(msg.contains("Move it aside"), "{msg}");
    assert_eq!(LEDGER_TABLES.len(), 8);
}

// -- outputs ------------------------------------------------------------------

#[test]
fn inline_output_is_replaced_by_its_digest_after_retention() {
    // {"secretless":"but private"}
    let body = "eyJzZWNyZXRsZXNzIjoiYnV0IHByaXZhdGUifQ==";
    let mut inv = finished("inv", body, 28);
    let expires = output_expires_at(&inv, Some(HOUR));
    assert_eq!(expires, Some(plus(NOW, HOUR)));
    assert!(!is_expired(expires, NOW), "not yet");
    assert!(!is_expired(expires, plus(NOW, HOUR - 1_000_000_000)));
    assert!(is_expired(expires, plus(NOW, HOUR)));
    assert_eq!(output_kind(&inv), Some("inline"));
    let bytes = output_bytes(&inv.output).unwrap();
    assert_eq!(bytes, b"{\"secretless\":\"but private\"}");
    keep_digest(&mut inv, "sha256:digest".to_string());
    assert_eq!(
        inv.output,
        Some(PayloadRef::Digest { digest: "sha256:digest".to_string(), size_bytes: 28 })
    );
    assert_eq!(inv.status, InvocationStatus::Succeeded);
    assert_eq!(output_kind(&inv), Some("digest"));
    assert_eq!(output_expires_at(&inv, Some(HOUR)), None, "purged once");
    assert_eq!(output_bytes(&inv.output), None);
    // Without retention nothing is purged.
    let kept = finished("other", body, 28);
    assert!(!is_expired(output_expires_at(&kept, None), plus(NOW, 3650 * 24 * HOUR)));
}

#[test]
fn what_is_no_base64_is_digested_as_it_stands() {
    let inv = finished("inv", "not base64!", 11);
    assert_eq!(output_bytes(&inv.output).unwrap(), b"not base64!");
    assert_eq!(output_bytes(&None), None);
}

// -- rows ---------------------------------------------------------------------

fn function(id: &str) -> Function {
    Function {
        id: id.to_string(),
        tenant_id: "t".to_string(),
        name: "hello".to_string(),
        description: String::new(),
        created_at: NOW,
        deleted_at: None,
    }
}

fn revision(number: u64) -> FunctionRevision {
    FunctionRevision {
        id: "rev".to_string(),
        function_id: "f".to_string(),
        tenant_id: "t".to_string(),
        number,
        spec: "{}".to_string(),
        spec_digest: "sha256:spec".to_string(),
        status: RevisionStatus::Ready,
        created_at: NOW,
    }
}

fn alias(generation: u64) -> FunctionAlias {
    FunctionAlias {
        function_id: "f".to_string(),
        tenant_id: "t".to_string(),
        name: "live".to_string(),
        revision_id: "rev".to_string(),
        previous_revision_id: None,
        generation,
        created_at: NOW,
        updated_at: NOW,
    }
}

#[test]
fn a_live_name_is_unique_and_a_deleted_one_is_free() {
    let f = function("f");
    let c = rows::function_columns(&f);
    assert_eq!(c.live_name.as_deref(), Some("hello"));
    assert_eq!(c.created_at, "2026-09-15T00:00:00.000000000Z");
    assert_eq!(rows::insert_function(false, false, &f), Ok(()));
    assert_eq!(
        rows::insert_function(true, false, &f),
        Err(RepoError::Conflict("function f already exists".to_string()))
    );
    assert_eq!(
        rows::insert_function(false, true, &f),
        Err(RepoError::Conflict("function name `hello` already exists".to_string()))
    );
    let mut gone = function("f");
    gone.deleted_at = Some(NOW);
    assert_eq!(rows::insert_function(false, true, &gone), Ok(()));
    assert_eq!(rows::function_columns(&gone).live_name, None);
    assert_eq!(rows::update_function(Some(&f), &gone), Ok(Write::Apply));
    assert_eq!(rows::update_function(Some(&f), &function("f")), Ok(Write::Unchanged));
    assert_eq!(
        rows::update_function(None, &f),
        Err(RepoError::NotFound("function f".to_string()))
    );
}

#[test]
fn numbers_count_up_and_a_lost_counter_is_refused() {
    assert_eq!(rows::allocate_number("f", None, 1), Ok(1));
    assert_eq!(rows::next_number(Some(4)), 5);
    assert_eq!(rows::allocate_number("f", Some(4), 1), Ok(5));
    assert_eq!(
        rows::allocate_number("f", Some(4), 0),
        Err(RepoError::Refused("revision counter of f changed concurrently".to_string()))
    );
    assert_eq!(
        rows::allocate_number("f", Some(-7), 1),
        Err(RepoError::Store("negative revision counter".to_string()))
    );
}

#[test]
fn a_taken_revision_number_is_a_conflict_of_its_function() {
    let c = rows::revision_columns(&revision(3)).unwrap();
    assert_eq!((c.number, c.status), (3, "ready"));
    assert_eq!(
        rows::revision_columns(&revision(u64::MAX)),
        Err(RepoError::Refused(
            "revision number 18446744073709551615 does not fit a BIGINT".to_string()
        ))
    );
    assert_eq!(
        rows::revision_conflict(RepoError::Conflict("UNIQUE".to_string()), &revision(3)),
        RepoError::Conflict("revision number 3 already exists for function f".to_string())
    );
    assert_eq!(
        rows::revision_conflict(RepoError::Store("disk".to_string()), &revision(3)),
        RepoError::Store("disk".to_string())
    );
    assert_eq!(rows::insert_revision(false, Some(&function("f")), &revision(3)), Ok(()));
    assert!(rows::insert_revision(true, None, &revision(3)).is_err());
    assert_eq!(
        rows::update_revision(None, &revision(3)),
        Err(RepoError::NotFound("revision rev".to_string()))
    );
}

#[test]
fn an_alias_is_set_by_the_generation_that_was_read() {
    let r = revision(1);
    let f = function("f");
    assert_eq!(rows::insert_alias(false, Some(&f), Some(&r), &alias(1)), Ok(()));
    assert_eq!(
        rows::insert_alias(true, Some(&f), Some(&r), &alias(1)),
        Err(RepoError::Conflict("alias `live` already exists".to_string()))
    );
    let now = alias(1);
    assert_eq!(rows::compare_and_set(Some(&now), Some(&f), Some(&r), &alias(2), 1), Ok(true));
    assert_eq!(rows::compare_and_set(Some(&now), Some(&f), Some(&r), &alias(3), 2), Ok(false));
    assert_eq!(
        rows::compare_and_set(None, Some(&f), Some(&r), &alias(2), 1),
        Err(RepoError::NotFound("alias `live`".to_string()))
    );
    assert_eq!(rows::alias_columns(&alias(2)).unwrap().generation, 2);
}

#[test]
fn an_invocation_is_inserted_with_its_key_or_answers_with_another() {
    let options =
        SqliteOptions { output_retention: Some(HOUR), idempotency_retention: Some(2 * HOUR) };
    let inv = invocation("inv", Some("k"));
    match rows::insert_bound(None, false, None, &inv, 1024, &options).unwrap() {
        BoundPlan::Insert(c, Some(b)) => {
            assert_eq!((c.status, c.terminal, c.output_kind), ("accepted", 0, None));
            assert_eq!((b.idem_key.as_str(), b.expires_at), ("k", None));
        }
        other => panic!("{other:?}"),
    }
    let binding = IdempotencyBinding {
        invocation_id: "first".to_string(),
        input_digest: "d".to_string(),
        expires_at: None,
    };
    assert_eq!(
        rows::insert_bound(Some(binding.clone()), false, None, &inv, 1024, &options).unwrap(),
        BoundPlan::Existing(binding.clone())
    );
    // Without a key nothing is bound.
    let plain = invocation("plain", None);
    assert!(matches!(
        rows::insert_bound(Some(binding), false, None, &plain, 1024, &options).unwrap(),
        BoundPlan::Insert(_, None)
    ));
    assert!(rows::insert_bound(None, true, None, &plain, 1024, &options).is_err());
    let done = rows::invocation_columns(&finished("inv", "e30=", 2), &options);
    assert_eq!((done.terminal, done.output_kind), (1, Some("inline")));
    assert_eq!(done.output_expires_at.as_deref(), Some("2026-09-15T01:00:00.000000000Z"));
    let b = rows::binding_columns(&finished("inv", "e30=", 2), &options).unwrap();
    assert_eq!(b.expires_at.as_deref(), Some("2026-09-15T02:00:00.000000000Z"));
    assert_eq!(
        rows::update_invocation(None, &inv, 1024),
        Err(RepoError::NotFound("invocation inv".to_string()))
    );
}

#[test]
fn a_binding_row_is_read_back() {
    let b = rows::binding_of(
        "inv".to_string(),
        "d".to_string(),
        Some("2026-09-15T02:00:00.000000000Z".to_string()),
    )
    .unwrap();
    assert_eq!(b.expires_at, Some(plus(NOW, 2 * HOUR)));
    assert!(matches!(
        rows::binding_of("inv".to_string(), "d".to_string(), Some("soon".to_string())),
        Err(RepoError::Serialization(_))
    ));
    assert_eq!(live_binding(Some(b.clone()), true, NOW), Some(b.clone()));
    assert_eq!(live_binding(Some(b.clone()), false, NOW), None);
    assert_eq!(live_binding(Some(b), true, plus(NOW, 2 * HOUR)), None);
}

#[test]
fn attempts_environments_and_leases_have_their_columns() {
    let a = rows::attempt_columns(&attempt("att", "inv")).unwrap();
    assert_eq!((a.number, a.epoch, a.status, a.terminal), (1, 1, "dispatched", 0));
    assert_eq!(
        rows::insert_attempt(true, None, &attempt("att", "inv")),
        Err(RepoError::Conflict("attempt att already exists".to_string()))
    );
    assert!(rows::update_attempt(None, &attempt("att", "inv")).is_err());
    let mut env = environment("env", EnvironmentState::Idle);
    env.idle_since = Some(NOW);
    env.owner = Some("d1".to_string());
    let c = rows::environment_columns(&env).unwrap();
    assert_eq!((c.state, c.terminal, c.epoch, c.fenced), ("idle", 0, 1, 0));
    assert_eq!(c.key.configuration_version, -1, "stored bit for bit");
    assert_eq!(c.idle_since.as_deref(), Some("2026-09-15T00:00:00.000000000Z"));
    env.epoch = u64::MAX;
    assert!(rows::environment_columns(&env).is_err());
    assert!(rows::insert_environment(true, None, &env).is_err());
    assert!(rows::update_environment(None, &env).is_err());
    let mut l = lease("lease");
    l.released_at = Some(NOW);
    assert_eq!(rows::lease_columns(&l).unwrap().released, 1);
    let mut other = key();
    other.configuration_version = u64::MAX - 1;
    assert_ne!(rows::reuse_key_params(&key()), rows::reuse_key_params(&other));
    assert_eq!(rows::reuse_key_params(&key()), rows::reuse_key_params(&key()));
    assert_eq!(rows::row_limit(10), 10);
}

#[test]
fn columns_hold_counters_bits_and_flags() {
    assert_eq!(big(7, "x"), Ok(7));
    assert_eq!(
        big(9_223_372_036_854_775_808, "x"),
        Err(RepoError::Refused("x 9223372036854775808 does not fit a BIGINT".to_string()))
    );
    for v in [0u64, 1, i64::MAX as u64, i64::MAX as u64 + 1, u64::MAX] {
        assert_eq!(bits(v), v as i64);
        assert_eq!(unsigned(bits(v)), v);
    }
    assert_eq!((flag(true), flag(false)), (1, 0));
    assert_eq!(one_row(1, "lease", "l"), Ok(()));
    assert_eq!(
        one_row(0, "lease", "l"),
        Err(RepoError::Refused("lease l changed concurrently".to_string()))
    );
    assert_eq!(
        failure(true, "UNIQUE".to_string()),
        RepoError::Conflict("UNIQUE".to_string())
    );
    assert_eq!(failure(false, "disk".to_string()), RepoError::Store("disk".to_string()));
    let inv = finished("inv", "e30=", 2);
    assert_eq!(idempotency_expires_at(&inv, None), None);
    assert_eq!(idempotency_expires_at(&invocation("x", None), Some(HOUR)), None);
}

#[test]
fn instants_are_fixed_width_and_read_back() {
    assert_eq!(ts(&NOW), "2026-09-15T00:00:00.000000000Z");
    assert_eq!(ts(&(plus(NOW, 1))), "2026-09-15T00:00:00.000000001Z");
    assert_eq!(ts(&of_nanos(-1)), "1969-12-31T23:59:59.999999999Z");
    for t in [NOW, plus(NOW, 123_456_789), 0, of_nanos(-1), -62_167_219_200 * STRIDE] {
        assert_eq!(parse_ts(&ts(&t)), Ok(t));
    }
    assert!(ts(&NOW) < ts(&(plus(NOW, 1))) && ts(&of_nanos(-1)) < ts(&0));
    assert_eq!(parse_ts("2026-09-15T09:00:00+09:00"), Ok(NOW));
    assert_eq!(opt_ts(&None), None);
    assert_eq!(parse_opt_ts(&None), Ok(None));
    let msg = message(parse_ts("yesterday").unwrap_err());
    assert!(msg.starts_with("timestamp `yesterday`: "), "{msg}");
}

/// A leap second is an instant of its own, after the second that ends its
/// minute and before the next one.
#[test]
fn a_leap_second_is_kept_apart() {
    let leap = parse_ts("2016-12-31T23:59:60.5Z").unwrap();
    let last = parse_ts("2016-12-31T23:59:59.999999999Z").unwrap();
    let next = parse_ts("2017-01-01T00:00:00Z").unwrap();
    assert!(last < leap && leap < next);
    assert_eq!(leap, instant(1_483_228_799, 1_500_000_000));
    assert_eq!(ts(&leap), "2016-12-31T23:59:60.500000000Z");
    assert_eq!(parse_ts(&ts(&leap)), Ok(leap));
    assert!(ts(&last) < ts(&leap) && ts(&leap) < ts(&next));
    assert_eq!(file_stamp(&leap), "20161231T235960Z");
    assert_eq!(parse_ts("2017-01-01T08:59:60.5+09:00"), Ok(leap));
    // Its nanoseconds are counted as those of the second after it.
    assert_eq!(ns(&leap), 1_483_228_800_500_000_000);
    assert_eq!(of_nanos(ns(&leap)), plus(next, SECOND / 2));
    // Only a second that ends a minute has one.
    assert!(is_date(leap) && !is_date(instant(1_483_228_798, 1_500_000_000)));
    assert!(parse_ts("2016-12-31T23:59:61Z").is_err());
}

/// Spans lead through and out of a leap second, and lengths are measured, as
/// dates do it.
#[test]
fn spans_from_a_leap_second() {
    let secs = 1_483_228_799i64;
    let dates: Vec<(i64, u32)> = vec![
        (secs, 0),
        (secs, 1_500_000_000),
        (secs, 1_000_000_000),
        (secs, 1_999_999_999),
        (secs - 1, 999_999_999),
        (secs + 1, 0),
        (secs + 1, 700_000_000),
        (secs + 61, 300_000_000),
        (secs - 60, 1_200_000_000),
        (secs + 7_200, 1_200_000_000),
        (secs - 86_400, 1_900_000_000),
        (0, 0),
        (-1, 1_000_000_001),
        (-86_401, 5),
    ];
    let spans: Vec<i64> = vec![
        0,
        1,
        -1,
        499_999_999,
        500_000_000,
        -500_000_001,
        999_999_999,
        1_000_000_000,
        -999_999_999,
        -1_000_000_000,
        -1_500_000_000,
        86_400_000_000_000,
        -86_400_000_000_000,
        2_592_000_000_000_000,
    ];
    let date = |d: &(i64, u32)| DateTime::<Utc>::from_timestamp(d.0, d.1).unwrap();
    let of = |d: &DateTime<Utc>| instant(d.timestamp(), d.timestamp_subsec_nanos());
    for a in &dates {
        assert_eq!(parse_ts(&ts(&of(&date(a)))), Ok(of(&date(a))));
        assert_eq!(Some(ns(&of(&date(a)))), date(a).timestamp_nanos_opt());
        for span in &spans {
            let there = date(a) + TimeDelta::nanoseconds(*span);
            assert_eq!(plus(of(&date(a)), i128::from(*span)), of(&there), "{a:?} {span}");
        }
        for b in &dates {
            let d = (date(a) - date(b)).num_nanoseconds().unwrap();
            assert_eq!(between(of(&date(a)), of(&date(b))), i128::from(d), "{a:?} {b:?}");
            assert_eq!(of(&date(a)) < of(&date(b)), date(a) < date(b), "{a:?} {b:?}");
        }
    }
}

#[test]
fn a_span_leads_no_further_than_the_calendar() {
    assert_eq!(of_nanos(i64::MIN), instant(-9_223_372_037, 145_224_192));
    assert!(is_date(MIN_TIMESTAMP) && is_date(MAX_TIMESTAMP));
    assert!(!is_date(MIN_TIMESTAMP - 1) && !is_date(MAX_TIMESTAMP + 1));
    assert_eq!(checked_after(MIN_TIMESTAMP, -1), None);
    assert_eq!(checked_after(MIN_TIMESTAMP, 1), Some(MIN_TIMESTAMP + 1));
    assert_eq!(checked_after(NOW, LONGEST), None);
    assert_eq!(checked_after(NOW, i128::MAX), None);
    assert_eq!(checked_after(NOW, i128::MIN), None);
}
