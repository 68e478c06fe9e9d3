use tachyon_application::domain::environment::{EnvironmentState, ExecutionEnvironment, ExecutionLease, ReuseKey};
use tachyon_application::domain::invocation::{
    AttemptStatus, Deadlines, ErrorClass, Invocation, InvocationAttempt, InvocationError,
    InvocationMode, InvocationStatus, StartKind,
};
use tachyon_application::repository::dispatch::{
    ClaimOutcome, ClaimRequest, DeadLetter, DeadLetterReason, DeadLetterStatus, DispatchFence,
    DispatchRecord, DispatchSettle, DispatchState, Redrive, RedriveWrite,
};
use tachyon_application::repository::guard::Write;
use tachyon_application::repository::outbox::{
    message_id_for, AsyncAcceptOutcome, AsyncInput, AsyncInputBody, BacklogLimits, ObjectRef,
    OutboxEvent, OutboxStats,
};
use tachyon_application::repository::slot::{
    acquire_preconditions, lease_is_current, DispatcherRecord, SlotAcquire,
};
use tachyon_application::repository::sqlite::dispatch::{
    check_poison, claim_dispatch, dispatch_candidates, record_columns, record_of, redrive,
    redrive_committed, renew_dispatch_claim, settle_dispatch, PendingRun, SettlePlan,
};
use tachyon_application::repository::sqlite::outbox as sql_outbox;
use tachyon_application::repository::sqlite::outbox::{
    accept_in, before_commit, check_accept, claim_outbox, event_columns, event_of, input_columns,
    input_of, mark_outbox_sent, retry_outbox, AcceptRows,
};
use tachyon_application::repository::sqlite::triggers as sql_triggers;
use tachyon_application::repository::sqlite::triggers::{
    accept_trigger_fire, acquire_scheduler_lease, advance_cron_cursor, check_insert,
    due_cron_triggers, fire_columns, fire_of, fire_written, held_by_another, kind_of,
    next_cron_fire_at, outcome_of, releases, trigger_columns, update_trigger, FireRows,
    SecretChange,
};
use tachyon_application::repository::triggers::{
    FireClaim, FireOutcome, FireRecord, SchedulerLease, Trigger, TriggerAcceptOutcome, TriggerKind,
    TriggerStatus,
};
use tachyon_application::repository::{IdempotencyBinding, RepoError};
use tachyon_application::time::{plus, STRIDE};

const NOW: i128 = 1_789_430_400 * STRIDE;
const SECOND: i128 = 1_000_000_000;
const TTL: i128 = 30 * SECOND;
const CREATED_MS: u64 = (NOW / 1_000_000) as u64;

fn invocation(id: &str) -> Invocation {
    Invocation {
        id: id.to_string(),
        tenant_id: "t".to_string(),
        function_id: "f".to_string(),
        alias: None,
        revision_id: "rev".to_string(),
        mode: InvocationMode::Async,
        event_kind: "json".to_string(),
        deadlines: Deadlines {
            queue_deadline: NOW,
            init_deadline: None,
            execution_deadline: None,
            client_deadline: NOW,
        },
        idempotency_key: None,
        input_digest: "sha256:{}".to_string(),
        input_size_bytes: 2,
        trace_id: "trace".to_string(),
        accepted_at: NOW,
        status: InvocationStatus::Accepted,
        attempt_ids: Vec::new(),
        output: None,
        response_status: None,
        started_at: None,
        finished_at: None,
        dispatcher_id: None,
    }
}

fn succeeded(id: &str) -> Invocation {
    let mut inv = invocation(id);
    inv.status = InvocationStatus::Succeeded;
    inv.finished_at = Some(NOW);
    inv
}

fn request(owner: &str, generation: u64, now: i128) -> ClaimRequest {
    ClaimRequest {
        invocation_id: "inv".to_string(),
        owner: owner.to_string(),
        generation,
        now,
        ttl: TTL,
    }
}

fn claim(owner: &str, now: i128, record: Option<DispatchRecord>) -> DispatchRecord {
    match claim_dispatch(&request(owner, 0, now), Some(invocation("inv")), true, record).unwrap() {
        ClaimOutcome::Claimed { record, .. } => *record,
        other => panic!("{other:?}"),
    }
}

#[test]
fn a_claim_is_held_until_it_expires_and_counts_one_attempt() {
    let record = claim("d1", NOW, None);
    assert_eq!(record.state, DispatchState::Running);
    assert_eq!(record.attempts, 1);
    assert_eq!(record.claim_expires_at, Some(plus(NOW, TTL)));
    assert_eq!(record.first_attempt_at, Some(NOW));
    let held = claim_dispatch(
        &request("d2", 0, plus(NOW, SECOND)),
        Some(invocation("inv")),
        true,
        Some(record.clone()),
    )
    .unwrap();
    assert!(matches!(held, ClaimOutcome::Held { owner, expires_at }
        if owner == "d1" && expires_at == plus(NOW, TTL)));
    // The claim of a run that disappeared is the next attempt.
    let second = claim("d2", plus(NOW, TTL), Some(record));
    assert_eq!(second.attempts, 2);
    assert_eq!(second.first_attempt_at, Some(NOW));
}

#[test]
fn what_cannot_be_claimed_says_why() {
    assert_eq!(
        claim_dispatch(&request("d1", 0, NOW), None, true, None),
        Err(RepoError::NotFound("invocation inv".to_string()))
    );
    assert!(matches!(
        claim_dispatch(&request("d1", 0, NOW), Some(succeeded("inv")), true, None),
        Ok(ClaimOutcome::Terminal(_))
    ));
    assert_eq!(
        claim_dispatch(&request("d1", 0, NOW), Some(invocation("inv")), false, None),
        Err(RepoError::Refused("invocation inv is not an asynchronous invocation".to_string()))
    );
    assert!(matches!(
        claim_dispatch(&request("d1", 3, NOW), Some(invocation("inv")), true, None),
        Ok(ClaimOutcome::Stale { current: 0 })
    ));
    let mut later = DispatchRecord::unclaimed(&invocation("inv"));
    later.state = DispatchState::Scheduled;
    later.next_attempt_at = Some(plus(NOW, SECOND));
    assert!(matches!(
        claim_dispatch(&request("d1", 0, NOW), Some(invocation("inv")), true, Some(later)),
        Ok(ClaimOutcome::NotDue { at }) if at == plus(NOW, SECOND)
    ));
}

/// A time to live that no timestamp can hold matters only to the claim that is
/// won.
#[test]
fn what_cannot_be_claimed_needs_no_time_to_live() {
    let endless = |generation: u64| ClaimRequest { ttl: i128::MAX / 2, ..request("d2", generation, NOW) };
    assert_eq!(
        claim_dispatch(&endless(0), None, true, None),
        Err(RepoError::NotFound("invocation inv".to_string()))
    );
    assert!(matches!(
        claim_dispatch(&endless(0), Some(succeeded("inv")), true, None),
        Ok(ClaimOutcome::Terminal(_))
    ));
    assert!(matches!(
        claim_dispatch(&endless(3), Some(invocation("inv")), true, None),
        Ok(ClaimOutcome::Stale { current: 0 })
    ));
    let record = claim("d1", NOW, None);
    assert!(matches!(
        claim_dispatch(&endless(0), Some(invocation("inv")), true, Some(record.clone())),
        Ok(ClaimOutcome::Held { owner, .. }) if owner == "d1"
    ));
    assert_eq!(renew_dispatch_claim(Some(record), "d2", 1, NOW, i128::MAX / 2), None);
    assert_eq!(renew_dispatch_claim(None, "d2", 1, NOW, i128::MAX / 2), None);
}

#[test]
fn only_the_run_that_holds_the_claim_renews_it() {
    let record = claim("d1", NOW, None);
    let renewed =
        renew_dispatch_claim(Some(record.clone()), "d1", 1, plus(NOW, SECOND), TTL).unwrap();
    assert_eq!(renewed.claim_expires_at, Some(plus(NOW, SECOND + TTL)));
    assert_eq!(renew_dispatch_claim(Some(record.clone()), "d2", 1, NOW, TTL), None);
    assert_eq!(renew_dispatch_claim(Some(record), "d1", 2, NOW, TTL), None);
    assert_eq!(renew_dispatch_claim(None, "d1", 1, NOW, TTL), None);
}

fn event(id: &str, generation: u64) -> OutboxEvent {
    let mut e = OutboxEvent::new(
        id.to_string(),
        "t".to_string(),
        "invocations".to_string(),
        "{}".to_string(),
        NOW,
    );
    e.generation = generation;
    e
}

fn settle(inv: Invocation, state: DispatchState, counted: bool) -> DispatchSettle {
    DispatchSettle {
        fence: DispatchFence::Claim { owner: "d1".to_string(), attempts: 1 },
        invocation: inv,
        state,
        next_attempt_at: None,
        last_error: None,
        counted,
        dead_letter: None,
        republish: None,
        now: plus(NOW, SECOND),
    }
}

#[test]
fn a_run_settles_once() {
    let record = claim("d1", NOW, None);
    let done = settle(succeeded("inv"), DispatchState::Done, true);
    match settle_dispatch(&done, Some(&invocation("inv")), Some(record.clone()), 1024).unwrap() {
        SettlePlan::Commit { write, record } => {
            assert_eq!(write, Write::Apply);
            assert_eq!(record.state, DispatchState::Done);
            assert_eq!(record.claimed_by, None);
            assert_eq!(record.attempts, 1);
        }
        other => panic!("{other:?}"),
    }
    assert_eq!(
        settle_dispatch(&done, Some(&succeeded("inv")), Some(record.clone()), 1024),
        Ok(SettlePlan::Lost("invocation inv is already succeeded".to_string()))
    );
    let mut other = settle(succeeded("inv"), DispatchState::Done, true);
    other.fence = DispatchFence::Claim { owner: "d2".to_string(), attempts: 1 };
    assert_eq!(
        settle_dispatch(&other, Some(&invocation("inv")), Some(record), 1024),
        Ok(SettlePlan::Lost(
            "the claim of invocation inv is no longer d2's attempt 1".to_string()
        ))
    );
}

#[test]
fn a_deferral_does_not_count_and_publishes_the_next_generation() {
    let record = claim("d1", NOW, None);
    let mut s = settle(invocation("inv"), DispatchState::Scheduled, false);
    s.next_attempt_at = Some(plus(NOW, TTL));
    s.republish = Some(event("inv", 1));
    s.last_error = Some(InvocationError::new(ErrorClass::PlatformError, "Host.Busy", "busy"));
    match settle_dispatch(&s, Some(&invocation("inv")), Some(record.clone()), 1024).unwrap() {
        SettlePlan::Commit { record, .. } => {
            assert_eq!((record.attempts, record.deferrals, record.generation), (0, 1, 1));
            assert_eq!(record.last_error.unwrap().error_type, "Host.Busy");
        }
        other => panic!("{other:?}"),
    }
    s.republish = Some(event("inv", 5));
    assert_eq!(
        settle_dispatch(&s, Some(&invocation("inv")), Some(record.clone()), 1024),
        Err(RepoError::Refused(
            "the next event of invocation inv must be its generation 1".to_string()
        ))
    );
    let running = settle(invocation("inv"), DispatchState::Done, true);
    assert!(settle_dispatch(&running, Some(&invocation("inv")), Some(record), 1024).is_err());
}

#[test]
fn a_dispatch_row_is_read_back() {
    let record = claim("d1", NOW, None);
    let columns = record_columns(&record).unwrap();
    assert_eq!((columns.state.as_str(), columns.attempts), ("running", 1));
    assert_eq!(record_of(columns).unwrap(), record);
    let mut bad = record_columns(&record).unwrap();
    bad.state = "asleep".to_string();
    assert!(matches!(record_of(bad), Err(RepoError::Serialization(_))));
    for s in [
        DispatchState::Running,
        DispatchState::Scheduled,
        DispatchState::Done,
        DispatchState::Dead,
    ] {
        assert_eq!(DispatchState::parse(s.as_str()), Some(s));
    }
}

#[test]
fn the_reaper_sees_expired_runs_and_forgotten_ones() {
    let expired = claim("d1", plus(NOW, -2 * TTL), None);
    let live = claim("d1", NOW, None);
    let run = |id: &str, record: Option<DispatchRecord>| PendingRun {
        invocation: invocation(id),
        record,
        outbox: None,
    };
    let found = dispatch_candidates(
        vec![run("a", Some(expired)), run("b", Some(live)), run("c", None)],
        plus(NOW, SECOND),
        NOW,
        plus(NOW, -1000 * SECOND),
        10,
    );
    let ids: Vec<&str> = found.iter().map(|c| c.invocation.id.as_str()).collect();
    assert_eq!(ids, ["a", "c"]);
}

fn dead_letter(status: DeadLetterStatus) -> DeadLetter {
    DeadLetter {
        id: "dl".to_string(),
        tenant_id: "t".to_string(),
        function_id: Some("f".to_string()),
        invocation_id: Some("old".to_string()),
        revision_id: Some("rev".to_string()),
        reason: DeadLetterReason::AttemptsExhausted,
        status,
        attempts: 3,
        deferrals: 0,
        last_error: None,
        accepted_at: Some(NOW),
        first_attempt_at: None,
        last_attempt_at: None,
        created_at: NOW,
        input_digest: None,
        input_size_bytes: None,
        input_storage: None,
        message_id: None,
        message_sequence: None,
        detail: None,
        redrive_count: 0,
        redriven_at: None,
    }
}

fn input(id: &str, body: AsyncInputBody) -> AsyncInput {
    AsyncInput {
        invocation_id: id.to_string(),
        tenant_id: "t".to_string(),
        size_bytes: 2,
        digest: "sha256:{}".to_string(),
        body,
    }
}

fn redrive_write() -> RedriveWrite {
    RedriveWrite {
        dead_letter_id: "dl".to_string(),
        invocation: invocation("new"),
        input: input("new", AsyncInputBody::Inline(b"{}".to_vec())),
        event: event("new", 0),
        redrive: Redrive {
            id: "rd".to_string(),
            dead_letter_id: "dl".to_string(),
            tenant_id: "t".to_string(),
            function_id: "f".to_string(),
            source_invocation_id: "old".to_string(),
            invocation_id: "new".to_string(),
            revision_id: "rev".to_string(),
            revision_overridden: false,
            requested_by: "operator".to_string(),
            reason: None,
            created_at: NOW,
        },
    }
}

#[test]
fn a_dead_letter_is_redriven_once_within_its_tenant() {
    let w = redrive_write();
    let dead = redrive(&w, Some(dead_letter(DeadLetterStatus::Open)), false, None, 1024).unwrap();
    assert_eq!((dead.status, dead.redrive_count), (DeadLetterStatus::Redriven, 1));
    assert_eq!(dead.redriven_at, Some(NOW));
    assert_eq!(
        redrive(&w, Some(dead), false, None, 1024),
        Err(RepoError::Conflict("dead letter dl is redriven".to_string()))
    );
    let mut foreign = redrive_write();
    foreign.redrive.tenant_id = "other".to_string();
    assert_eq!(
        redrive(&foreign, Some(dead_letter(DeadLetterStatus::Redriven)), true, None, 0),
        Err(RepoError::Conflict("dead letter dl is redriven".to_string()))
    );
    assert_eq!(
        redrive(&w, None, false, None, 1024),
        Err(RepoError::NotFound("dead letter dl".to_string()))
    );
    let mut foreign = redrive_write();
    foreign.redrive.tenant_id = "other".to_string();
    assert_eq!(
        redrive(&foreign, Some(dead_letter(DeadLetterStatus::Open)), false, None, 1024),
        Err(RepoError::Refused(
            "a redrive must stay within its dead letter's tenant and function".to_string()
        ))
    );
    assert!(redrive(&w, Some(dead_letter(DeadLetterStatus::Open)), true, None, 1024).is_err());
    assert_eq!(redrive_committed(1, "dl"), Ok(()));
    assert_eq!(
        redrive_committed(0, "dl"),
        Err(RepoError::Conflict("dead letter dl was redriven concurrently".to_string()))
    );
    assert!(check_poison(&dead_letter(DeadLetterStatus::Open)).is_err());
    let mut poison = dead_letter(DeadLetterStatus::Open);
    poison.invocation_id = None;
    assert_eq!(check_poison(&poison), Ok(()));
}

// -- outbox -------------------------------------------------------------------

fn accept_rows() -> AcceptRows {
    AcceptRows {
        binding: None,
        stats: OutboxStats { pending: 0, oldest_pending_at: None, sent: 0 },
        backlog: BacklogLimits { max_pending: 10, max_pending_age: TTL },
        exists: false,
        function: None,
        max_inline: 1024,
        tombstone: None,
    }
}

#[test]
fn an_acceptance_answers_replays_first_and_refuses_over_the_backlog() {
    let inv = invocation("inv");
    let body = || input("inv", AsyncInputBody::Inline(b"{}".to_vec()));
    assert_eq!(accept_in(&inv, &body(), &accept_rows()), Ok(AsyncAcceptOutcome::Accepted));
    let mut full = accept_rows();
    full.stats.pending = 10;
    assert_eq!(accept_in(&inv, &body(), &full), Ok(AsyncAcceptOutcome::Backlog(full.stats)));
    let mut old = accept_rows();
    old.stats.pending = 1;
    old.stats.oldest_pending_at = Some(plus(NOW, -TTL));
    assert!(matches!(accept_in(&inv, &body(), &old), Ok(AsyncAcceptOutcome::Backlog(_))));
    // A replay answers even under backlog.
    let binding = IdempotencyBinding {
        invocation_id: "first".to_string(),
        input_digest: "d".to_string(),
        expires_at: None,
    };
    full.binding = Some(binding.clone());
    let mut keyed = invocation("inv");
    keyed.idempotency_key = Some("k".to_string());
    assert_eq!(
        accept_in(&keyed, &body(), &full),
        Ok(AsyncAcceptOutcome::Existing(binding))
    );
    let mut taken = accept_rows();
    taken.exists = true;
    assert!(matches!(accept_in(&inv, &body(), &taken), Err(RepoError::Conflict(_))));
    assert!(before_commit(AsyncAcceptOutcome::Accepted, true).is_err());
    assert_eq!(
        before_commit(AsyncAcceptOutcome::Accepted, false),
        Ok(AsyncAcceptOutcome::Accepted)
    );
}

#[test]
fn input_event_and_invocation_must_fit_together() {
    let inv = invocation("inv");
    let body = input("inv", AsyncInputBody::Inline(b"{}".to_vec()));
    assert_eq!(check_accept(&inv, &body, &event("inv", 0), CREATED_MS), Ok(()));
    assert!(check_accept(&inv, &body, &event("other", 0), CREATED_MS).is_err());
    let object = input(
        "inv",
        AsyncInputBody::Object(ObjectRef {
            id: "obj".to_string(),
            tenant_id: "t".to_string(),
            region: "local".to_string(),
        }),
    );
    assert_eq!(check_accept(&inv, &object, &event("inv", 0), CREATED_MS), Ok(()));
    assert!(check_accept(&inv, &object, &event("inv", 0), 0).is_err(), "too old to attach");
    let mut collected = accept_rows();
    collected.tombstone = Some("orphan".to_string());
    assert!(matches!(accept_in(&inv, &object, &collected), Err(RepoError::Refused(_))));
}

#[test]
fn inputs_and_events_are_read_back() {
    for body in [
        AsyncInputBody::Inline(b"{}".to_vec()),
        AsyncInputBody::Object(ObjectRef {
            id: "obj".to_string(),
            tenant_id: "t".to_string(),
            region: "local".to_string(),
        }),
    ] {
        let i = input("inv", body);
        let c = input_columns(&i).unwrap();
        assert_eq!(c.storage, i.storage());
        assert!(input_of("inv".to_string(), c).unwrap() == i);
    }
    let mut c = input_columns(&input("inv", AsyncInputBody::Inline(b"{}".to_vec()))).unwrap();
    c.storage = "object".to_string();
    assert_eq!(
        input_of("inv".to_string(), c).err(),
        Some(RepoError::Serialization("invocation_inputs row of inv is inconsistent".to_string()))
    );
    let e = event("inv", 2);
    assert_eq!(event_of(event_columns(&e).unwrap()).unwrap(), e);
    assert_eq!(e.message_id(), message_id_for("inv", 2));
    assert_ne!(message_id_for("inv", 0), message_id_for("inv", 1));
}

#[test]
fn an_input_is_printed_without_its_bytes() {
    assert_eq!(AsyncInputBody::Inline(b"secret".to_vec()).summary(), "Inline(6 bytes)");
    let object = ObjectRef {
        id: "obj".to_string(),
        tenant_id: "t".to_string(),
        region: "local".to_string(),
    };
    assert_eq!(AsyncInputBody::Object(object).summary(), "Object(obj)");
}

#[test]
fn errors_are_shown_with_their_kind() {
    let m = || "it".to_string();
    assert_eq!(RepoError::NotFound(m()).message(), "it not found");
    assert_eq!(RepoError::Conflict(m()).message(), "conflict: it");
    assert_eq!(RepoError::Refused(m()).message(), "refused: it");
    assert_eq!(RepoError::Io(m()).message(), "io: it");
    assert_eq!(RepoError::Serialization(m()).message(), "serialization: it");
    assert_eq!(RepoError::Store(m()).message(), "store: it");
}

#[test]
fn an_event_has_one_publisher_at_a_time() {
    let owner = "p1".to_string();
    let claimed = claim_outbox(vec![event("a", 0), event("b", 0)], &owner, NOW, TTL, 1);
    assert_eq!(claimed.len(), 1);
    assert_eq!((claimed[0].event_id.as_str(), claimed[0].publish_attempts), ("a", 1));
    assert!(claim_outbox(claimed.clone(), &"p2".to_string(), NOW, TTL, 10).is_empty());
    assert_eq!(claim_outbox(claimed.clone(), &"p2".to_string(), plus(NOW, TTL), TTL, 10).len(), 1);
    let e = claimed[0].clone();
    assert_eq!(mark_outbox_sent(Some(e.clone()), "p2", 7, NOW), Ok(None));
    let sent = mark_outbox_sent(Some(e.clone()), "p1", 7, NOW).unwrap().unwrap();
    assert_eq!((sent.sent_at, sent.queue_sequence), (Some(NOW), Some(7)));
    assert!(sql_outbox::is_purgeable(&sent, plus(NOW, 1)) && !sql_outbox::is_purgeable(&sent, NOW));
    assert!(mark_outbox_sent(Some(e.clone()), "p1", u64::MAX, NOW).is_err());
    let again = retry_outbox(Some(e.clone()), "p1", plus(NOW, SECOND), &"x".repeat(600)).unwrap();
    assert_eq!(again.last_error.unwrap().len(), 512);
    assert_eq!(again.next_attempt_at, plus(NOW, SECOND));
    assert_eq!(retry_outbox(Some(e), "p2", NOW, "x"), None);
}

// -- triggers -----------------------------------------------------------------

fn trigger(kind: TriggerKind, status: TriggerStatus) -> Trigger {
    Trigger {
        id: "tr".to_string(),
        tenant_id: "t".to_string(),
        function_id: "f".to_string(),
        kind,
        status,
        generation: 1,
        next_fire_at: Some(NOW),
        last_scheduled_at: None,
        created_at: NOW,
        updated_at: NOW,
    }
}

fn fire(key: &str) -> FireRecord {
    FireRecord {
        trigger_id: "tr".to_string(),
        tenant_id: "t".to_string(),
        fire_key: key.to_string(),
        kind: TriggerKind::Cron,
        scheduled_at: Some(NOW),
        event_id: None,
        signature_digest: None,
        invocation_id: Some("inv".to_string()),
        outcome: FireOutcome::Accepted,
        reason: None,
        created_at: NOW,
    }
}

fn fire_rows() -> FireRows {
    FireRows {
        trigger: Some(trigger(TriggerKind::Cron, TriggerStatus::Enabled)),
        fired: None,
        signed: None,
        accept: accept_rows(),
    }
}

fn fires(rows: FireRows, generation: Option<u64>) -> Result<TriggerAcceptOutcome, RepoError> {
    accept_trigger_fire(
        &invocation("inv"),
        &input("inv", AsyncInputBody::Inline(b"{}".to_vec())),
        &event("inv", 0),
        CREATED_MS,
        &FireClaim { record: fire("k"), expected_generation: generation },
        rows,
    )
}

#[test]
fn a_trigger_fires_once_per_key_while_it_is_active() {
    assert_eq!(fires(fire_rows(), Some(1)), Ok(TriggerAcceptOutcome::Accepted));
    assert!(matches!(fires(fire_rows(), Some(2)), Ok(TriggerAcceptOutcome::Inactive(Some(_)))));
    let mut gone = fire_rows();
    gone.trigger = None;
    assert_eq!(fires(gone, None), Ok(TriggerAcceptOutcome::Inactive(None)));
    let mut fired = fire_rows();
    fired.fired = Some(fire("k"));
    assert_eq!(fires(fired, None), Ok(TriggerAcceptOutcome::AlreadyFired(fire("k"))));
    let mut full = fire_rows();
    full.accept.stats.pending = 10;
    assert!(matches!(fires(full, None), Ok(TriggerAcceptOutcome::Backlog(_))));
    assert_eq!(fire_written(1, &fire("k"), false), Ok(TriggerAcceptOutcome::Accepted));
    assert!(matches!(fire_written(0, &fire("k"), false), Err(RepoError::Conflict(_))));
    assert!(matches!(fire_written(1, &fire("k"), true), Err(RepoError::Store(_))));
}

#[test]
fn a_trigger_is_rewritten_by_the_next_generation_only() {
    let stored = trigger(TriggerKind::Webhook, TriggerStatus::Enabled);
    let mut next = stored.clone();
    next.generation = 2;
    assert_eq!(update_trigger(&next, 1, Some(&stored), false), Ok(Some(SecretChange::Keep)));
    assert_eq!(update_trigger(&next, 1, Some(&stored), true), Ok(Some(SecretChange::Replace)));
    assert!(update_trigger(&next, 5, Some(&stored), false).is_err());
    assert_eq!(
        update_trigger(&next, 1, None, false),
        Err(RepoError::NotFound("trigger tr".to_string()))
    );
    let mut moved = next.clone();
    moved.function_id = "g".to_string();
    assert!(matches!(
        update_trigger(&moved, 1, Some(&stored), false),
        Err(RepoError::Refused(_))
    ));
    let mut deleted = next.clone();
    deleted.status = TriggerStatus::Deleted;
    assert_eq!(update_trigger(&deleted, 1, Some(&stored), true), Ok(Some(SecretChange::Erase)));
    let mut third = next.clone();
    third.generation = 3;
    assert_eq!(update_trigger(&third, 2, Some(&deleted), false), Ok(None));
}

#[test]
fn schedules_are_found_by_their_due_time() {
    let due = trigger(TriggerKind::Cron, TriggerStatus::Enabled);
    let mut later = due.clone();
    later.next_fire_at = Some(plus(NOW, SECOND));
    let off = trigger(TriggerKind::Cron, TriggerStatus::Disabled);
    let hook = trigger(TriggerKind::Webhook, TriggerStatus::Enabled);
    let all = vec![later.clone(), off, hook, due.clone()];
    assert_eq!(next_cron_fire_at(&all), Some(NOW));
    assert_eq!(due_cron_triggers(all, NOW, 10), vec![due.clone()]);
    assert_eq!(trigger_columns(&due).unwrap().next_fire_at.as_deref(), Some("2026-09-15T00:00:00.000000000Z"));
    let moved = advance_cron_cursor(Some(due.clone()), 1, plus(NOW, SECOND), Some(NOW)).unwrap();
    assert_eq!((moved.next_fire_at, moved.last_scheduled_at), (Some(plus(NOW, SECOND)), Some(NOW)));
    assert_eq!(advance_cron_cursor(Some(moved), 1, NOW, None), None, "never backwards");
    assert_eq!(advance_cron_cursor(Some(due), 2, plus(NOW, SECOND), None), None);
    assert_eq!(
        check_insert("f", 3, 3),
        Err(RepoError::Refused("function f already has 3 triggers (max 3)".to_string()))
    );
    assert_eq!(check_insert("f", 2, 3), Ok(()));
}

#[test]
fn fires_are_read_back_and_purged_by_kind() {
    let mut f = fire("k");
    f.reason = Some("why".to_string());
    assert_eq!(fire_of(fire_columns(&f)).unwrap(), f);
    let mut c = fire_columns(&f);
    c.kind = "email".to_string();
    assert!(matches!(fire_of(c), Err(RepoError::Serialization(_))));
    assert_eq!(kind_of("webhook"), Ok(TriggerKind::Webhook));
    assert_eq!(outcome_of("refused"), Ok(FireOutcome::Refused));
    assert!(outcome_of("maybe").is_err());
    assert!(sql_triggers::is_purgeable(&f, NOW, plus(NOW, 1)));
    assert!(!sql_triggers::is_purgeable(&f, plus(NOW, 1), NOW));
}

#[test]
fn one_scheduler_at_a_time() {
    let d1 = "d1".to_string();
    let d2 = "d2".to_string();
    let lease = acquire_scheduler_lease(None, &d1, NOW, TTL, false).unwrap();
    assert_eq!((lease.acquired_at, lease.expires_at), (NOW, plus(NOW, TTL)));
    let copy = || SchedulerLease {
        owner_id: d1.clone(),
        acquired_at: NOW,
        expires_at: plus(NOW, TTL),
    };
    assert!(held_by_another(&Some(copy()), "d2", NOW, false));
    assert_eq!(acquire_scheduler_lease(Some(copy()), &d2, plus(NOW, SECOND), TTL, false), None);
    let renewed = acquire_scheduler_lease(Some(copy()), &d1, plus(NOW, SECOND), TTL, false).unwrap();
    assert_eq!((renewed.acquired_at, renewed.expires_at), (NOW, plus(NOW, SECOND + TTL)));
    let taken = acquire_scheduler_lease(Some(copy()), &d2, plus(NOW, TTL), TTL, false).unwrap();
    assert_eq!((taken.owner_id.as_str(), taken.acquired_at), ("d2", plus(NOW, TTL)));
    assert!(acquire_scheduler_lease(Some(copy()), &d2, NOW, TTL, true).is_some());
    assert!(releases(&lease, "d1") && !releases(&lease, "d2"));
}

// -- slots --------------------------------------------------------------------

fn environment(state: EnvironmentState, epoch: u64) -> ExecutionEnvironment {
    ExecutionEnvironment {
        id: "env".to_string(),
        tenant_id: "t".to_string(),
        revision_id: "rev".to_string(),
        provider: "fake".to_string(),
        reuse_key: ReuseKey {
            tenant_id: "t".to_string(),
            revision_id: "rev".to_string(),
            execution_role_version: 1,
            configuration_version: 1,
            resource_profile_digest: "d".to_string(),
            runtime_profile: "p".to_string(),
            network_policy_version: 1,
            secret_binding_generation: 1,
        },
        state,
        epoch,
        created_at: NOW,
        updated_at: NOW,
        idle_since: None,
        owner: Some("d1".to_string()),
        fenced_at: None,
    }
}

fn lease(epoch: u64) -> ExecutionLease {
    ExecutionLease {
        id: "lease".to_string(),
        environment_id: "env".to_string(),
        attempt_id: "att".to_string(),
        tenant_id: "t".to_string(),
        epoch,
        execution_deadline: plus(NOW, TTL),
        acquired_at: NOW,
        released_at: None,
        owner: Some("d1".to_string()),
        expires_at: Some(plus(NOW, TTL)),
    }
}

fn acquire() -> SlotAcquire {
    SlotAcquire {
        env: environment(EnvironmentState::Busy, 2),
        expected_epoch: 1,
        lease: lease(2),
        attempt: InvocationAttempt {
            id: "att".to_string(),
            invocation_id: "inv".to_string(),
            tenant_id: "t".to_string(),
            number: 1,
            environment_id: "env".to_string(),
            epoch: 2,
            start_kind: StartKind::Cold,
            dispatched_at: NOW,
            status: AttemptStatus::Dispatched,
            finished_at: None,
        },
        invocation: None,
    }
}

#[test]
fn acquire_is_a_cas_with_exactly_one_winner_per_epoch() {
    let stored = environment(EnvironmentState::Ready, 1);
    assert_eq!(acquire_preconditions(&acquire(), Some(&stored)), Ok(None));
    // Once it is written the second caller finds the epoch moved.
    let written = environment(EnvironmentState::Busy, 2);
    assert_eq!(
        acquire_preconditions(&acquire(), Some(&written)),
        Ok(Some("environment env moved to epoch 2 (expected 1)".to_string()))
    );
    let busy = environment(EnvironmentState::Busy, 1);
    assert_eq!(
        acquire_preconditions(&acquire(), Some(&busy)),
        Ok(Some("environment env is busy, not ready or idle".to_string()))
    );
    let mut foreign = environment(EnvironmentState::Ready, 1);
    foreign.owner = Some("d2".to_string());
    assert_eq!(
        acquire_preconditions(&acquire(), Some(&foreign)),
        Ok(Some("environment env is owned by another dispatcher".to_string()))
    );
    let mut fenced = environment(EnvironmentState::Ready, 1);
    fenced.fenced_at = Some(NOW);
    assert_eq!(
        acquire_preconditions(&acquire(), Some(&fenced)),
        Ok(Some("environment env is fenced".to_string()))
    );
    assert_eq!(
        acquire_preconditions(&acquire(), None),
        Err(RepoError::NotFound("environment env".to_string()))
    );
    let mut bad = acquire();
    bad.lease.epoch = 7;
    assert_eq!(
        acquire_preconditions(&bad, Some(&stored)),
        Err(RepoError::Refused(
            "acquire of environment env: environment, lease and attempt must all be at epoch 2"
                .to_string()
        ))
    );
}

#[test]
fn a_completion_with_a_stale_epoch_is_told_so() {
    let env = environment(EnvironmentState::Busy, 2);
    assert_eq!(lease_is_current(Some(&lease(2)), "att", 2, Some(&env)), None);
    assert_eq!(lease_is_current(None, "att", 2, None), Some("lease not found".to_string()));
    let mut released = lease(2);
    released.released_at = Some(NOW);
    assert_eq!(
        lease_is_current(Some(&released), "att", 2, None),
        Some("lease lease is already released".to_string())
    );
    assert_eq!(
        lease_is_current(Some(&lease(2)), "att", 3, None),
        Some("lease lease is for attempt att at epoch 2, not att at epoch 3".to_string())
    );
    let moved = environment(EnvironmentState::Busy, 3);
    assert_eq!(
        lease_is_current(Some(&lease(2)), "att", 2, Some(&moved)),
        Some("environment env moved to epoch 3 (completion carries 2)".to_string())
    );
}

#[test]
fn a_dispatcher_expires_past_the_clock_skew() {
    let mut d = DispatcherRecord {
        id: "d1".to_string(),
        instance: "gw".to_string(),
        hostname: "h".to_string(),
        pid: 1,
        started_at: NOW,
        heartbeat_at: NOW,
        lease_expires_at: plus(NOW, TTL),
        stopped_at: None,
        reclaimed_at: None,
    };
    assert!(d.is_live());
    assert!(!d.is_expired(plus(NOW, TTL), SECOND));
    assert!(d.is_expired(plus(NOW, TTL + SECOND), SECOND));
    d.stopped_at = Some(NOW);
    assert!(!d.is_live());
}

#[test]
fn a_dead_letter_names_its_origin() {
    let mut letter = dead_letter(DeadLetterStatus::Open);
    assert_eq!(letter.origin_key(), "inv:old");
    letter.invocation_id = None;
    assert_eq!(letter.origin_key(), "dlq:dl");
    letter.message_id = Some("m".to_string());
    assert_eq!(letter.origin_key(), "msg:m:0");
    letter.message_sequence = Some(7);
    assert_eq!(letter.origin_key(), "msg:m:7");
}
