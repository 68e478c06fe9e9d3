use tachyon_application::domain::environment::{
    EnvironmentState, ExecutionEnvironment, ExecutionLease, ReuseKey,
};
use tachyon_application::domain::invocation::{
    AttemptStatus, Deadlines, ErrorClass, Invocation, InvocationAttempt, InvocationError,
    InvocationMode, InvocationStatus, PayloadRef, StartKind,
};
use tachyon_application::repository::restart::{
    settle_attempt, settle_invocation, HOST_LEASE_EXPIRED, HOST_RESTARTED,
};
use tachyon_application::repository::slot::{
    AcquireOutcome, CompletionOutcome, DispatcherRecord, HeartbeatOutcome, ReclaimReport,
    ReclaimRequest, SlotAcquire, SlotCompletion,
};
use tachyon_application::repository::slots::SlotLedger;
use tachyon_application::repository::{PoolLimits, RepoError};
use tachyon_application::table::Key;
use tachyon_application::time::{plus, STRIDE};

const NOW: i128 = 1_789_430_400 * STRIDE;
const SECOND: i128 = 1_000_000_000;
const MAX_INLINE: u64 = 1024;
const POOL: PoolLimits = PoolLimits { max_idle_per_key: 2, max_total_idle: 4 };

fn at(seconds: i128) -> i128 {
    plus(NOW, seconds * SECOND)
}

/// Register a dispatcher whose lease ends `ttl` seconds on.
fn dispatcher(s: &mut SlotLedger, id: &str, ttl: i128) {
    s.register_dispatcher(DispatcherRecord {
        id: id.to_string(),
        instance: id.to_string(),
        hostname: "host".to_string(),
        pid: 1,
        started_at: NOW,
        heartbeat_at: NOW,
        lease_expires_at: at(ttl),
        stopped_at: None,
        reclaimed_at: None,
    })
    .unwrap();
}

fn key(tenant: &str, revision: &str) -> ReuseKey {
    ReuseKey {
        tenant_id: tenant.to_string(),
        revision_id: revision.to_string(),
        execution_role_version: 1,
        configuration_version: 7,
        resource_profile_digest: "rp".to_string(),
        runtime_profile: "tachyon.runtime.v1".to_string(),
        network_policy_version: 3,
        secret_binding_generation: 11,
    }
}

fn environment(id: &str, key: &ReuseKey, owner: Option<&str>) -> ExecutionEnvironment {
    ExecutionEnvironment {
        id: id.to_string(),
        tenant_id: key.tenant_id.clone(),
        revision_id: key.revision_id.clone(),
        provider: "fake".to_string(),
        reuse_key: key.clone(),
        state: EnvironmentState::Ready,
        epoch: 0,
        created_at: NOW,
        updated_at: NOW,
        idle_since: None,
        owner: owner.map(|o| o.to_string()),
        fenced_at: None,
    }
}

/// An environment that served an attempt and is back in the pool.
fn idle(id: &str, key: &ReuseKey, owner: Option<&str>) -> ExecutionEnvironment {
    let mut env = environment(id, key, owner);
    env.state = EnvironmentState::Busy;
    env.epoch = 1;
    assert!(env.mark_idle(NOW));
    env
}

fn invocation(id: &str, owner: &str) -> Invocation {
    Invocation {
        id: id.to_string(),
        tenant_id: "t".to_string(),
        function_id: "f".to_string(),
        alias: None,
        revision_id: "r".to_string(),
        mode: InvocationMode::Sync,
        event_kind: "json".to_string(),
        deadlines: Deadlines {
            queue_deadline: at(60),
            init_deadline: None,
            execution_deadline: None,
            client_deadline: at(60),
        },
        idempotency_key: None,
        input_digest: "sha256:{}".to_string(),
        input_size_bytes: 2,
        trace_id: "trace".to_string(),
        accepted_at: NOW,
        status: InvocationStatus::Accepted,
        attempt_ids: Vec::new(),
        output: None,
        response_status: None,
        started_at: None,
        finished_at: None,
        dispatcher_id: Some(owner.to_string()),
    }
}

fn put_environment(s: &mut SlotLedger, env: ExecutionEnvironment) {
    s.work.environments.set(Key::one(&env.id), env);
}

fn put_invocation(s: &mut SlotLedger, inv: Invocation) {
    s.work.invocations.set(Key::one(&inv.id), inv);
}

fn stored_environment<'a>(s: &'a SlotLedger, id: &str) -> &'a ExecutionEnvironment {
    s.work.environments.get(&Key::one(id)).unwrap()
}

fn stored_invocation<'a>(s: &'a SlotLedger, id: &str) -> &'a Invocation {
    s.work.invocations.get(&Key::one(id)).unwrap()
}

fn stored_attempt<'a>(s: &'a SlotLedger, id: &str) -> Option<&'a InvocationAttempt> {
    s.work.attempts.get(&Key::one(id))
}

/// What an acquire of `env` as stored by `owner` for `inv` writes, with its
/// lease ending `ttl` seconds after `when`. Its lease and attempt are named
/// after `name`.
fn request(
    name: &str,
    env: &ExecutionEnvironment,
    inv: &Invocation,
    owner: &str,
    when: i128,
    ttl: i128,
) -> SlotAcquire {
    let mut assigned = env.clone();
    assigned.state = EnvironmentState::Busy;
    assigned.epoch += 1;
    assigned.updated_at = when;
    assigned.idle_since = None;
    let attempt = InvocationAttempt {
        id: format!("att-{name}"),
        invocation_id: inv.id.clone(),
        tenant_id: inv.tenant_id.clone(),
        number: 1,
        environment_id: env.id.clone(),
        epoch: assigned.epoch,
        start_kind: StartKind::Cold,
        dispatched_at: when,
        status: AttemptStatus::Dispatched,
        finished_at: None,
    };
    let lease = ExecutionLease {
        id: format!("lease-{name}"),
        environment_id: env.id.clone(),
        attempt_id: attempt.id.clone(),
        tenant_id: env.tenant_id.clone(),
        epoch: assigned.epoch,
        execution_deadline: plus(when, 600 * SECOND),
        acquired_at: when,
        released_at: None,
        owner: Some(owner.to_string()),
        expires_at: Some(plus(when, ttl * SECOND)),
    };
    let mut running = inv.clone();
    running.status = InvocationStatus::Running;
    running.started_at = Some(when);
    running.attempt_ids.push(attempt.id.clone());
    SlotAcquire { env: assigned, expected_epoch: env.epoch, lease, attempt, invocation: Some(running) }
}

/// A ready environment `env` of the owner and an accepted invocation `inv`.
fn ready_slot(s: &mut SlotLedger, env: &str, inv: &str, owner: &str) {
    put_environment(s, environment(env, &key("t", "r"), Some(owner)));
    put_invocation(s, invocation(inv, owner));
}

fn slot_request(
    s: &SlotLedger,
    name: &str,
    env: &str,
    inv: &str,
    owner: &str,
    when: i128,
    ttl: i128,
) -> SlotAcquire {
    request(name, stored_environment(s, env), stored_invocation(s, inv), owner, when, ttl)
}

/// The successful completion of what `name` acquired for `inv`.
fn completion(s: &SlotLedger, name: &str, inv: &str, when: i128) -> SlotCompletion {
    let mut attempt = stored_attempt(s, &format!("att-{name}")).unwrap().clone();
    attempt.status = AttemptStatus::Succeeded;
    attempt.finished_at = Some(when);
    let mut done = stored_invocation(s, inv).clone();
    done.status = InvocationStatus::Succeeded;
    done.finished_at = Some(when);
    done.output = Some(PayloadRef::Inline { bytes_base64: "e30=".to_string(), size_bytes: 2 });
    SlotCompletion { lease_id: format!("lease-{name}"), attempt, invocation: Some(done), now: when }
}

fn reclaim(s: &mut SlotLedger, reclaimer: &str, when: i128) -> ReclaimReport {
    s.reclaim_expired(ReclaimRequest {
        reclaimer: reclaimer.to_string(),
        now: when,
        skew: 2 * SECOND,
        presumed_dead: Vec::new(),
    })
}

#[test]
fn a_dispatcher_is_registered_once_and_listed_by_id() {
    let mut s = SlotLedger::new();
    dispatcher(&mut s, "b", 10);
    dispatcher(&mut s, "a", 20);
    let again = s.get_dispatcher("a").unwrap().clone();
    assert_eq!(
        s.register_dispatcher(again),
        Err(RepoError::Conflict("dispatcher a already exists".to_string()))
    );
    let ids: Vec<&str> = s.list_dispatchers().iter().map(|d| d.id.as_str()).collect();
    assert_eq!(ids, vec!["a", "b"]);
    assert!(s.get_dispatcher("c").is_none());
    assert!(matches!(s.stop_dispatcher("c", NOW), Err(RepoError::NotFound(_))));
    // The first stop counts.
    s.stop_dispatcher("a", at(1)).unwrap();
    s.stop_dispatcher("a", at(2)).unwrap();
    assert_eq!(s.get_dispatcher("a").unwrap().stopped_at, Some(at(1)));
}

#[test]
fn acquire_has_one_winner_per_epoch() {
    let mut s = SlotLedger::new();
    dispatcher(&mut s, "race", 3600);
    ready_slot(&mut s, "env", "inv", "race");
    let big = PoolLimits { max_idle_per_key: 100, max_total_idle: 100 };
    for (round, racers) in [2usize, 8, 16, 4].into_iter().enumerate() {
        let before = stored_environment(&s, "env").clone();
        let mut requests = Vec::new();
        for i in 0..racers {
            let inv = invocation(&format!("inv-{round}-{i}"), "race");
            put_invocation(&mut s, inv.clone());
            requests.push(request(&format!("{round}-{i}"), &before, &inv, "race", NOW, 30));
        }
        let mut winners = Vec::new();
        for (i, req) in requests.into_iter().enumerate() {
            if s.acquire(req, MAX_INLINE).unwrap() == AcquireOutcome::Acquired {
                winners.push(i);
            }
        }
        assert_eq!(winners, vec![0]);
        let after = stored_environment(&s, "env").clone();
        assert_eq!(after.epoch, before.epoch + 1);
        assert_eq!(after.state, EnvironmentState::Busy);
        for i in 0..racers {
            let lease = s.get_lease(&format!("lease-{round}-{i}"));
            let attempt = stored_attempt(&s, &format!("att-{round}-{i}"));
            let inv = stored_invocation(&s, &format!("inv-{round}-{i}"));
            if i == 0 {
                assert_eq!(lease.unwrap().released_at, None);
                assert!(attempt.is_some());
                assert_eq!(inv.status, InvocationStatus::Running);
            } else {
                assert!(lease.is_none(), "a loser's lease was written");
                assert!(attempt.is_none(), "a loser's attempt was written");
                assert_eq!(inv.status, InvocationStatus::Accepted);
            }
        }
        // Still leased: not for the pool.
        assert_eq!(s.release_to_pool(&after, big, NOW), Ok(None));
        let done = completion(&s, &format!("{round}-0"), &format!("inv-{round}-0"), NOW);
        assert_eq!(s.complete(done, MAX_INLINE), Ok(CompletionOutcome::Accepted));
        assert!(s.release_to_pool(&after, big, NOW).unwrap().is_some());
    }

    // What loses or is refused, one at a time.
    let before = stored_environment(&s, "env").clone();
    assert_eq!(before.epoch, 4);
    let mut wrong_epoch = slot_request(&s, "wrong", "env", "inv", "race", NOW, 30);
    wrong_epoch.expected_epoch -= 1;
    wrong_epoch.env.epoch -= 1;
    wrong_epoch.lease.epoch -= 1;
    wrong_epoch.attempt.epoch -= 1;
    assert_eq!(
        s.acquire(wrong_epoch, MAX_INLINE),
        Ok(AcquireOutcome::Lost("environment env moved to epoch 4 (expected 3)".to_string()))
    );
    dispatcher(&mut s, "stranger", 3600);
    let foreign = slot_request(&s, "foreign", "env", "inv", "stranger", NOW, 30);
    assert_eq!(
        s.acquire(foreign, MAX_INLINE),
        Ok(AcquireOutcome::Lost("environment env is owned by another dispatcher".to_string()))
    );
    let mut malformed = slot_request(&s, "bad", "env", "inv", "race", NOW, 30);
    malformed.lease.epoch += 1;
    assert!(matches!(s.acquire(malformed, MAX_INLINE), Err(RepoError::Refused(_))));
    let mut settled = stored_invocation(&s, "inv").clone();
    settled.status = InvocationStatus::Cancelled;
    put_invocation(&mut s, settled);
    let late = slot_request(&s, "late", "env", "inv", "race", NOW, 30);
    assert_eq!(
        s.acquire(late, MAX_INLINE),
        Ok(AcquireOutcome::Lost("invocation inv is already cancelled".to_string()))
    );
    assert_eq!(stored_environment(&s, "env"), &before, "nothing of a loser is written");
}

#[test]
fn a_stale_completion_never_overwrites_state() {
    let mut s = SlotLedger::new();
    dispatcher(&mut s, "late", 3600);
    ready_slot(&mut s, "env", "first", "late");
    let first = slot_request(&s, "1", "env", "first", "late", NOW, 30);
    assert_eq!(s.acquire(first, MAX_INLINE), Ok(AcquireOutcome::Acquired));
    let first_attempt = stored_attempt(&s, "att-1").unwrap().clone();
    let done = completion(&s, "1", "first", NOW);
    assert_eq!(s.complete(done, MAX_INLINE), Ok(CompletionOutcome::Accepted));
    let busy = stored_environment(&s, "env").clone();
    let limits = PoolLimits { max_idle_per_key: 4, max_total_idle: 4 };
    s.release_to_pool(&busy, limits, NOW).unwrap().unwrap();
    let reserved = s.claim_for_reuse(&busy.reuse_key, Some("late"), NOW).unwrap();
    let second_inv = invocation("second", "late");
    put_invocation(&mut s, second_inv.clone());
    let second = request("2", &reserved, &second_inv, "late", NOW, 30);
    assert_eq!(second.attempt.epoch, 2);
    assert_eq!(s.acquire(second, MAX_INLINE), Ok(AcquireOutcome::Acquired));

    // A delayed callback of the first assignment, replayed.
    let mut replayed = first_attempt;
    replayed.status =
        AttemptStatus::Failed { error: InvocationError::new(ErrorClass::Crash, "Late", "late frame") };
    let replay = SlotCompletion {
        lease_id: "lease-1".to_string(),
        attempt: replayed,
        invocation: None,
        now: NOW,
    };
    assert_eq!(
        s.complete(replay, MAX_INLINE),
        Ok(CompletionOutcome::Stale("lease lease-1 is already released".to_string()))
    );
    // The current lease, but a result of the previous epoch.
    let mut stale = completion(&s, "2", "second", NOW);
    stale.attempt.epoch = 1;
    assert_eq!(
        s.complete(stale, MAX_INLINE),
        Ok(CompletionOutcome::Stale(
            "lease lease-2 is for attempt att-2 at epoch 2, not att-2 at epoch 1".to_string()
        ))
    );
    assert!(!s.release_lease("lease-2", "att-1", 1, NOW), "a stale release is refused too");
    assert_eq!(s.get_lease("lease-2").unwrap().released_at, None);
    assert_eq!(stored_invocation(&s, "second").status, InvocationStatus::Running);
    assert_eq!(stored_invocation(&s, "first").status, InvocationStatus::Succeeded);
    assert_eq!(stored_environment(&s, "env").epoch, 2);

    // A completion after the reclaim leaves what the reclaim recorded.
    let too_late = completion(&s, "2", "second", at(41));
    dispatcher(&mut s, "reclaimer", 3600);
    assert_eq!(reclaim(&mut s, "reclaimer", at(40)).leases, 1);
    assert!(matches!(s.complete(too_late, MAX_INLINE), Ok(CompletionOutcome::Stale(_))));
    match &stored_invocation(&s, "second").status {
        InvocationStatus::OutcomeUnknown { error } => assert_eq!(error.error_type, HOST_LEASE_EXPIRED),
        other => panic!("{other:?}"),
    }
}

#[test]
fn a_lease_is_released_without_a_result_once() {
    let mut s = SlotLedger::new();
    dispatcher(&mut s, "d", 3600);
    ready_slot(&mut s, "env", "inv", "d");
    let req = slot_request(&s, "1", "env", "inv", "d", NOW, 30);
    s.acquire(req, MAX_INLINE).unwrap();
    assert!(s.release_lease("lease-1", "att-1", 1, at(3)));
    assert_eq!(s.get_lease("lease-1").unwrap().released_at, Some(at(3)));
    assert!(!s.release_lease("lease-1", "att-1", 1, at(4)));
    assert!(!s.release_lease("lease-9", "att-1", 1, at(4)));
}

#[test]
fn leases_renew_only_while_unexpired_and_expire_past_the_skew() {
    let mut s = SlotLedger::new();
    dispatcher(&mut s, "renew", 30);
    ready_slot(&mut s, "env", "inv", "renew");
    let req = slot_request(&s, "1", "env", "inv", "renew", NOW, 10);
    s.acquire(req, MAX_INLINE).unwrap();
    let ttl = 10 * SECOND;

    assert!(s.renew_lease("lease-1", "renew", 1, ttl, at(5)));
    assert_eq!(s.get_lease("lease-1").unwrap().expires_at, Some(at(15)));
    dispatcher(&mut s, "other", 3600);
    assert!(!s.renew_lease("lease-1", "other", 1, ttl, at(6)), "only the owner renews");
    assert!(!s.renew_lease("lease-1", "renew", 2, ttl, at(6)), "only at the lease's epoch");

    // One second past expiry, inside the two seconds of skew.
    assert!(reclaim(&mut s, "other", at(16)).is_empty());
    assert!(!s.renew_lease("lease-1", "renew", 1, ttl, at(16)));
    assert_eq!(
        s.heartbeat("renew", ttl, at(16)),
        HeartbeatOutcome::Renewed { leases: 0 },
        "the dispatcher is live; its expired slot lease is not renewed"
    );

    let first = reclaim(&mut s, "other", at(17));
    assert_eq!(first.leases, 1);
    assert_eq!(first.fenced.len(), 1);
    assert!(first.dispatchers.is_empty(), "the owner's own lease is fine");
    assert!(reclaim(&mut s, "other", at(18)).is_empty(), "exactly once");
    assert_eq!(s.get_lease("lease-1").unwrap().released_at, Some(at(17)));
}

#[test]
fn a_heartbeat_renews_every_unexpired_lease() {
    let mut s = SlotLedger::new();
    dispatcher(&mut s, "d", 30);
    ready_slot(&mut s, "env1", "inv1", "d");
    ready_slot(&mut s, "env2", "inv2", "d");
    let short = slot_request(&s, "1", "env1", "inv1", "d", NOW, 5);
    s.acquire(short, MAX_INLINE).unwrap();
    let long = slot_request(&s, "2", "env2", "inv2", "d", NOW, 20);
    s.acquire(long, MAX_INLINE).unwrap();
    assert_eq!(s.heartbeat("d", 30 * SECOND, at(5)), HeartbeatOutcome::Renewed { leases: 1 });
    assert_eq!(s.get_dispatcher("d").unwrap().heartbeat_at, at(5));
    assert_eq!(s.get_dispatcher("d").unwrap().lease_expires_at, at(35));
    assert_eq!(s.get_lease("lease-1").unwrap().expires_at, Some(at(5)));
    assert_eq!(s.get_lease("lease-2").unwrap().expires_at, Some(at(35)));
}

#[test]
fn after_a_store_outage_a_live_dispatcher_is_renewed_with_all_it_holds() {
    let mut s = SlotLedger::new();
    dispatcher(&mut s, "d", 10);
    ready_slot(&mut s, "env", "inv", "d");
    let req = slot_request(&s, "1", "env", "inv", "d", NOW, 5);
    s.acquire(req, MAX_INLINE).unwrap();
    assert_eq!(s.heartbeat("d", 10 * SECOND, at(60)), HeartbeatOutcome::Fenced);
    assert_eq!(
        s.renew_after_store_outage("d", 10 * SECOND, at(60)),
        HeartbeatOutcome::Renewed { leases: 1 }
    );
    assert_eq!(s.get_dispatcher("d").unwrap().lease_expires_at, at(70));
    assert_eq!(s.get_lease("lease-1").unwrap().expires_at, Some(at(70)));
    s.stop_dispatcher("d", at(61)).unwrap();
    assert_eq!(s.renew_after_store_outage("d", 10 * SECOND, at(62)), HeartbeatOutcome::Fenced);
    assert_eq!(s.renew_after_store_outage("nobody", 10 * SECOND, at(62)), HeartbeatOutcome::Fenced);
}

#[test]
fn reclaim_happens_once_fences_and_only_a_confirmed_terminate_settles() {
    let mut s = SlotLedger::new();
    dispatcher(&mut s, "dead", 10);
    ready_slot(&mut s, "busy", "running", "dead");
    let req = slot_request(&s, "1", "busy", "running", "dead", NOW, 10);
    s.acquire(req, MAX_INLINE).unwrap();
    // An accepted invocation that never reached a slot, and a pooled
    // environment.
    put_invocation(&mut s, invocation("queued", "dead"));
    let pool_key = key("t2", "r2");
    put_environment(&mut s, idle("idle", &pool_key, Some("dead")));

    dispatcher(&mut s, "reclaimer", 3600);
    assert!(reclaim(&mut s, "reclaimer", at(5)).is_empty(), "nothing expired yet");
    let report = reclaim(&mut s, "reclaimer", at(13));
    assert_eq!(report.dispatchers, vec!["dead".to_string()]);
    assert_eq!(report.leases, 1);
    assert_eq!(report.invocations, 2);
    assert_eq!(report.attempts, 1);
    assert_eq!(report.fenced.len(), 2);
    assert!(reclaim(&mut s, "reclaimer", at(14)).is_empty(), "exactly once");

    match &stored_invocation(&s, "running").status {
        InvocationStatus::OutcomeUnknown { error } => assert_eq!(error.error_type, HOST_LEASE_EXPIRED),
        other => panic!("{other:?}"),
    }
    match &stored_invocation(&s, "queued").status {
        InvocationStatus::Failed { error } => {
            assert_eq!(error.class, ErrorClass::PlatformError);
            assert_eq!(error.error_type, HOST_LEASE_EXPIRED);
        }
        other => panic!("{other:?}"),
    }
    assert!(matches!(
        stored_attempt(&s, "att-1").unwrap().status,
        AttemptStatus::OutcomeUnknown { .. }
    ));

    // Fenced: draining, one epoch further, out of every pool, not acquirable.
    let fenced = stored_environment(&s, "busy").clone();
    assert_eq!(fenced.fenced_at, Some(at(13)));
    assert_eq!(fenced.state, EnvironmentState::Draining);
    assert_eq!(fenced.epoch, 2);
    assert_eq!(stored_environment(&s, "idle").fenced_at, Some(at(13)));
    assert_eq!(stored_environment(&s, "idle").epoch, 2);
    assert!(s.list_idle(Some("dead")).is_empty());
    assert!(s.claim_for_reuse(&pool_key, Some("dead"), at(15)).is_none());
    let waiting: Vec<&str> = s.list_fenced().iter().map(|e| e.id.as_str()).collect();
    assert_eq!(waiting, vec!["busy", "idle"]);
    let again = invocation("again", "dead");
    put_invocation(&mut s, again.clone());
    let mut reuse = fenced.clone();
    reuse.fenced_at = None;
    reuse.state = EnvironmentState::Ready;
    let retry = request("2", &reuse, &again, "dead", at(15), 10);
    assert!(
        matches!(
            s.acquire(retry, MAX_INLINE),
            Err(RepoError::Refused(_)) | Ok(AcquireOutcome::Lost(_))
        ),
        "expiry alone never makes a fenced environment acquirable"
    );

    // Only a confirmed terminate, at the fenced epoch, settles it.
    assert!(!s.confirm_terminated("busy", 1, at(16)));
    assert!(s.confirm_terminated("busy", 2, at(16)));
    assert!(!s.confirm_terminated("busy", 2, at(16)), "settled once");
    assert!(matches!(stored_environment(&s, "busy").state, EnvironmentState::Lost { .. }));
    assert_eq!(s.list_fenced().len(), 1);
}

#[test]
fn a_live_dispatcher_is_never_reclaimed_and_a_stopped_one_is_at_once() {
    let mut s = SlotLedger::new();
    dispatcher(&mut s, "live", 30);
    ready_slot(&mut s, "env", "inv", "live");
    let req = slot_request(&s, "1", "env", "inv", "live", NOW, 30);
    s.acquire(req, MAX_INLINE).unwrap();
    dispatcher(&mut s, "second", 30);
    assert!(reclaim(&mut s, "second", at(20)).is_empty());
    assert_eq!(stored_invocation(&s, "inv").status, InvocationStatus::Running);
    assert_eq!(stored_environment(&s, "env").state, EnvironmentState::Busy);
    // The reclaimer never reclaims itself, however late its own lease is.
    ready_slot(&mut s, "own-env", "own-inv", "second");
    let own = slot_request(&s, "2", "own-env", "own-inv", "second", NOW, 1);
    s.acquire(own, MAX_INLINE).unwrap();
    assert!(reclaim(&mut s, "second", at(25)).is_empty());

    // A proven-dead previous incarnation is reclaimed without waiting.
    let report = s.reclaim_expired(ReclaimRequest {
        reclaimer: "second".to_string(),
        now: at(21),
        skew: 2 * SECOND,
        presumed_dead: vec!["live".to_string()],
    });
    assert_eq!(report.dispatchers, vec!["live".to_string()]);
    match &stored_invocation(&s, "inv").status {
        InvocationStatus::OutcomeUnknown { error } => assert_eq!(error.error_type, HOST_RESTARTED),
        other => panic!("{other:?}"),
    }

    // A dispatcher that stopped gracefully: at once.
    dispatcher(&mut s, "stopped", 3600);
    put_invocation(&mut s, invocation("left", "stopped"));
    s.stop_dispatcher("stopped", at(1)).unwrap();
    dispatcher(&mut s, "third", 3600);
    let report = reclaim(&mut s, "third", at(1));
    assert_eq!(report.dispatchers, vec!["stopped".to_string()]);
    assert!(stored_invocation(&s, "left").status.is_terminal());
}

#[test]
fn a_fenced_dispatcher_can_neither_renew_nor_acquire() {
    let mut s = SlotLedger::new();
    let ttl = 10 * SECOND;
    dispatcher(&mut s, "fenced", 10);
    assert_eq!(s.heartbeat("fenced", ttl, at(5)), HeartbeatOutcome::Renewed { leases: 0 });
    dispatcher(&mut s, "reclaimer", 3600);
    assert_eq!(reclaim(&mut s, "reclaimer", at(18)).dispatchers, vec!["fenced".to_string()]);
    assert_eq!(
        s.heartbeat("fenced", ttl, at(14)),
        HeartbeatOutcome::Fenced,
        "fenced even if its own clock is behind"
    );
    ready_slot(&mut s, "env", "inv", "fenced");
    let req = slot_request(&s, "1", "env", "inv", "fenced", at(14), 10);
    assert_eq!(
        s.acquire(req, MAX_INLINE),
        Ok(AcquireOutcome::Lost("dispatcher fenced is not live".to_string()))
    );

    // Expired but not reclaimed yet: still no renewal.
    dispatcher(&mut s, "late", 10);
    assert_eq!(s.heartbeat("late", ttl, at(10)), HeartbeatOutcome::Fenced);
    assert_eq!(s.get_dispatcher("late").unwrap().lease_expires_at, at(10));
}

#[test]
fn a_reclaimer_that_cannot_prove_its_own_lease_reclaims_nothing() {
    let mut s = SlotLedger::new();
    dispatcher(&mut s, "dead", 1);
    dispatcher(&mut s, "frozen", 10);
    dispatcher(&mut s, "gone", 3600);
    s.stop_dispatcher("gone", at(1)).unwrap();
    assert!(reclaim(&mut s, "frozen", at(10)).is_empty(), "its lease passed");
    assert!(reclaim(&mut s, "gone", at(5)).is_empty(), "it stopped");
    assert!(reclaim(&mut s, "nobody", at(5)).is_empty(), "it is not registered");
    assert_eq!(s.get_dispatcher("dead").unwrap().reclaimed_at, None);
    let report = reclaim(&mut s, "frozen", at(9));
    assert_eq!(report.dispatchers, vec!["dead".to_string(), "gone".to_string()]);
    assert_eq!(s.get_dispatcher("dead").unwrap().reclaimed_at, Some(at(9)));
}

#[test]
fn an_asynchronous_invocation_survives_its_dispatcher() {
    let mut s = SlotLedger::new();
    dispatcher(&mut s, "dead", 1);
    dispatcher(&mut s, "reclaimer", 3600);
    let mut inv = invocation("inv", "dead");
    inv.mode = InvocationMode::Async;
    put_invocation(&mut s, inv);
    assert_eq!(reclaim(&mut s, "reclaimer", at(5)).invocations, 0);
    assert_eq!(stored_invocation(&s, "inv").status, InvocationStatus::Accepted);
}

#[test]
fn the_pool_only_hands_out_and_sweeps_its_owners_environments() {
    let mut s = SlotLedger::new();
    let pool_key = key("t", "r");
    put_environment(&mut s, idle("env", &pool_key, Some("a")));
    assert!(s.list_idle(Some("b")).is_empty());
    assert!(s.list_idle(None).is_empty());
    assert!(s.claim_for_reuse(&pool_key, Some("b"), NOW).is_none());
    assert_eq!(s.list_idle(Some("a")).len(), 1);
    let claimed = s.claim_for_reuse(&pool_key, Some("a"), at(1)).unwrap();
    assert_eq!(claimed.id, "env");
    assert_eq!(claimed.state, EnvironmentState::Ready);
    assert_eq!(claimed.epoch, 1, "a claim reserves; the acquire advances the epoch");
    assert_eq!(claimed.updated_at, at(1));
    assert_eq!(claimed.idle_since, None);
    assert_eq!(stored_environment(&s, "env"), &claimed);
    assert!(s.claim_for_reuse(&pool_key, Some("a"), NOW).is_none(), "handed out once");
}

#[test]
fn the_longest_idle_environment_is_listed_first() {
    let mut s = SlotLedger::new();
    let pool_key = key("t", "r");
    for (id, since) in [("e1", 5), ("e2", 1), ("e3", 3)] {
        let mut env = idle(id, &pool_key, None);
        env.idle_since = Some(at(since));
        put_environment(&mut s, env);
    }
    let ids: Vec<&str> = s.list_idle(None).iter().map(|e| e.id.as_str()).collect();
    assert_eq!(ids, vec!["e2", "e3", "e1"]);
    // A claim takes the lowest id.
    assert_eq!(s.claim_for_reuse(&pool_key, None, NOW).unwrap().id, "e1");
    let mut other = pool_key.clone();
    other.secret_binding_generation += 1;
    assert!(s.claim_for_reuse(&other, None, NOW).is_none());
}

#[test]
fn a_release_respects_the_caps_and_the_stored_row() {
    let mut s = SlotLedger::new();
    let pool_key = key("t", "r");
    let mut busy = Vec::new();
    for i in 0..3 {
        let mut env = environment(&format!("e{i}"), &pool_key, None);
        env.state = EnvironmentState::Busy;
        env.epoch = 1;
        put_environment(&mut s, env.clone());
        busy.push(env);
    }
    assert!(s.release_to_pool(&busy[0], POOL, NOW).unwrap().is_some());
    assert!(s.release_to_pool(&busy[1], POOL, NOW).unwrap().is_some());
    assert_eq!(s.release_to_pool(&busy[2], POOL, NOW), Ok(None), "the cap per key");
    assert_eq!(stored_environment(&s, "e2").state, EnvironmentState::Busy);
    assert_eq!(s.release_to_pool(&busy[0], POOL, NOW), Ok(None), "the row is idle now");
    let mut wrong_epoch = busy[2].clone();
    wrong_epoch.epoch = 99;
    assert_eq!(s.release_to_pool(&wrong_epoch, POOL, NOW), Ok(None));
    assert_eq!(stored_environment(&s, "e0").state, EnvironmentState::Idle);
    assert_eq!(stored_environment(&s, "e0").idle_since, Some(NOW));

    // Two of another key still fit under the cap of all.
    let other_key = key("t", "r2");
    for i in 0..3 {
        let mut env = environment(&format!("f{i}"), &other_key, None);
        env.state = EnvironmentState::Busy;
        env.epoch = 1;
        put_environment(&mut s, env.clone());
        assert_eq!(s.release_to_pool(&env, POOL, NOW).unwrap().is_some(), i < 2);
    }
    assert_eq!(s.list_idle(None).len(), 4);
    let absent = environment("absent", &pool_key, None);
    assert_eq!(s.release_to_pool(&absent, POOL, NOW), Ok(None));
}

#[test]
fn an_environment_started_ahead_goes_straight_into_the_pool() {
    let mut s = SlotLedger::new();
    let pool_key = key("t", "r");
    let fresh = environment("env", &pool_key, None);
    put_environment(&mut s, fresh.clone());
    assert!(s.list_idle(None).is_empty(), "a ready environment is not in the pool");
    assert!(s.claim_for_reuse(&pool_key, None, NOW).is_none());
    let pooled = s.release_to_pool(&fresh, POOL, NOW).unwrap().unwrap();
    assert_eq!(pooled.state, EnvironmentState::Idle);
    assert_eq!(pooled.epoch, 0);
    let mut assigned = s.claim_for_reuse(&pool_key, None, NOW).unwrap();
    assigned.state = EnvironmentState::Busy;
    assigned.epoch = 1;
    assert_eq!(
        s.release_to_pool(&assigned, POOL, NOW),
        Ok(None),
        "a copy at another epoch than the stored row is refused"
    );
    // Ready again, but it has served an attempt.
    let mut used = environment("used", &pool_key, None);
    used.epoch = 1;
    put_environment(&mut s, used.clone());
    assert_eq!(s.release_to_pool(&used, POOL, NOW), Ok(None));
}

#[test]
fn an_environment_swept_from_the_pool_is_not_claimed() {
    let mut s = SlotLedger::new();
    let pool_key = key("t", "r");
    put_environment(&mut s, idle("e1", &pool_key, None));
    assert!(s.take_idle_for_termination("e1", at(1)));
    assert!(!s.take_idle_for_termination("e1", at(2)), "the second caller loses");
    assert!(s.claim_for_reuse(&pool_key, None, NOW).is_none());
    assert_eq!(stored_environment(&s, "e1").state, EnvironmentState::Draining);
    put_environment(&mut s, idle("e2", &pool_key, None));
    assert!(s.claim_for_reuse(&pool_key, None, NOW).is_some());
    assert!(!s.take_idle_for_termination("e2", NOW), "a claimed environment cannot be swept");
    assert!(!s.take_idle_for_termination("e3", NOW));
}

#[test]
fn a_restart_settles_an_invocation_and_its_attempt_alike() {
    let mut running = invocation("inv", "d");
    running.status = InvocationStatus::Running;
    assert!(settle_invocation(&mut running, at(1)));
    assert_eq!(
        running.status,
        InvocationStatus::OutcomeUnknown {
            error: InvocationError::new(
                ErrorClass::OutcomeUnknown,
                HOST_RESTARTED,
                "gateway restarted after the invocation was dispatched; the handler may have run",
            ),
        }
    );
    assert_eq!(running.finished_at, Some(at(1)));
    assert!(!settle_invocation(&mut running, at(2)), "settled once");
    assert_eq!(running.finished_at, Some(at(1)));
    let mut accepted = invocation("inv", "d");
    assert!(settle_invocation(&mut accepted, at(1)));
    assert_eq!(
        accepted.status,
        InvocationStatus::Failed {
            error: InvocationError::new(
                ErrorClass::PlatformError,
                HOST_RESTARTED,
                "gateway restarted while the invocation was in flight",
            ),
        }
    );

    let env = environment("env", &key("t", "r"), Some("d"));
    let mut unknown = request("1", &env, &accepted, "d", NOW, 5).attempt;
    let mut failed = unknown.clone();
    assert!(settle_attempt(&mut unknown, true, at(1)));
    assert!(matches!(&unknown.status, AttemptStatus::OutcomeUnknown { error }
        if error.error_type == HOST_RESTARTED));
    assert!(settle_attempt(&mut failed, false, at(1)));
    assert!(matches!(&failed.status, AttemptStatus::Failed { error }
        if error.message == "gateway restarted while the attempt was in flight"));
    assert!(!settle_attempt(&mut failed, true, at(2)));
}
