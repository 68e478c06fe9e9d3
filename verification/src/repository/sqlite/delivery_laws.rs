//! What accepting, publishing and firing promise, event by event and trigger by
//! trigger.

use vstd::prelude::*;

use crate::domain::invocation::Invocation;
use crate::repository::guard;
use crate::repository::outbox::{
    AsyncAcceptOutcome, AsyncInput, AsyncInputBody, BacklogLimits, ObjectRef, OutboxEvent,
    OutboxStats,
};
use crate::repository::sqlite::outbox;
use crate::repository::sqlite::outbox::{AcceptRows, EventColumns, InputColumns};
use crate::repository::sqlite::triggers;
use crate::repository::sqlite::triggers::{FireColumns, FireRows, SecretChange, TriggerColumns};
use crate::repository::triggers::{
    FireClaim, FireRecord, SchedulerLease, Trigger, TriggerAcceptOutcome,
};
use crate::repository::RepoErrorView;
use crate::text;
use crate::time;
use crate::time::{Span, Timestamp};

verus! {

/// The event is not sent, it is due, and nobody claims it or the claim has
/// ended.
pub open spec fn may_be_claimed(e: OutboxEvent, now: Timestamp) -> bool {
    &&& e.sent_at is None
    &&& e.next_attempt_at <= now
    &&& e.claimed_by is None || (e.claim_expires_at is Some && e.claim_expires_at->0 <= now)
}

/// The owner claims the event, and it is not sent.
pub open spec fn is_claimed_by(e: OutboxEvent, owner: Seq<char>) -> bool {
    e.sent_at is None && e.claimed_by is Some && e.claimed_by->0@ == owner
}

/// A claimed event counts one attempt more and is its claimant's until the claim
/// ends.
pub open spec fn claimed(e: OutboxEvent, owner: String, expires: Timestamp) -> OutboxEvent {
    OutboxEvent {
        claimed_by: Some(owner),
        claim_expires_at: Some(expires),
        publish_attempts: if e.publish_attempts < u32::MAX {
            (e.publish_attempts + 1) as u32
        } else {
            u32::MAX
        },
        ..e
    }
}

/// The first of some.
pub open spec fn first<T>(list: Seq<T>, max: nat) -> Seq<T> {
    if list.len() <= max {
        list
    } else {
        list.take(max as int)
    }
}

/// A claim takes the first `max` of the events that may be claimed, in their
/// order.
pub proof fn law_which_events_are_claimed(
    rows: Seq<OutboxEvent>,
    owner: String,
    now: Timestamp,
    expires: Timestamp,
    max: nat,
)
    ensures
        outbox::claimed_of(rows, rows.len(), owner, now, expires, max) == first(
            rows.filter(|e: OutboxEvent| may_be_claimed(e, now)),
            max,
        ).map_values(|e: OutboxEvent| claimed(e, owner, expires)),
{
    lemma_claimed(rows, rows.len(), owner, now, expires, max);
    assert(rows.take(rows.len() as int) =~= rows);
}

proof fn lemma_claimed(
    rows: Seq<OutboxEvent>,
    n: nat,
    owner: String,
    now: Timestamp,
    expires: Timestamp,
    max: nat,
)
    requires
        n <= rows.len(),
    ensures
        outbox::claimed_of(rows, n, owner, now, expires, max) =~= first(
            rows.take(n as int).filter(|e: OutboxEvent| may_be_claimed(e, now)),
            max,
        ).map_values(|e: OutboxEvent| claimed(e, owner, expires)),
    decreases n,
{
    reveal(Seq::filter);
    let p = |e: OutboxEvent| may_be_claimed(e, now);
    if n > 0 {
        lemma_claimed(rows, (n - 1) as nat, owner, now, expires, max);
        let head = rows.take(n as int);
        assert(head.drop_last() =~= rows.take(n - 1));
        assert(head.last() == rows[n - 1]);
        let before = head.drop_last().filter(p);
        if p(rows[n - 1]) {
            assert(head.filter(p) == before.push(rows[n - 1]));
        } else {
            assert(head.filter(p) == before);
        }
    }
}

/// An event is marked as sent by its claimant only. It then keeps the number
/// that the queue gave it and no claim.
pub proof fn law_what_marking_an_event_sent_does(
    event: Option<OutboxEvent>,
    owner: Seq<char>,
    sequence: u64,
    now: Timestamp,
)
    ensures
        sequence <= i64::MAX ==> outbox::sent_rule(event, owner, sequence, now) == Ok::<
            Option<OutboxEvent>,
            RepoErrorView,
        >(
            if event is Some && is_claimed_by(event->0, owner) {
                Some(
                    OutboxEvent {
                        sent_at: Some(now),
                        queue_sequence: Some(sequence),
                        claimed_by: None,
                        claim_expires_at: None,
                        last_error: None,
                        ..event->0
                    },
                )
            } else {
                None
            },
        ),
        sequence > i64::MAX ==> outbox::sent_rule(event, owner, sequence, now) is Err,
{
}

/// An event is given back by its claimant only. It is tried again at the given
/// time, not before, and says why it failed, in at most 512 bytes.
pub proof fn law_what_giving_an_event_back_does(
    event: Option<OutboxEvent>,
    owner: Seq<char>,
    next_attempt_at: Timestamp,
    error: Seq<char>,
    r: Option<OutboxEvent>,
    now: Timestamp,
)
    requires
        outbox::retried(event, owner, next_attempt_at, error, r),
    ensures
        r is Some <==> event is Some && is_claimed_by(event->0, owner),
        r is Some ==> ({
            &&& r->0.next_attempt_at == next_attempt_at
            &&& r->0.claimed_by is None
            &&& r->0.claim_expires_at is None
            &&& r->0.sent_at is None
            &&& r->0.publish_attempts == event->0.publish_attempts
            &&& r->0.generation == event->0.generation
            &&& r->0.event_id == event->0.event_id
            &&& r->0.payload == event->0.payload
            &&& r->0.topic == event->0.topic
            &&& r->0.created_at == event->0.created_at
            &&& r->0.last_error is Some
            &&& r->0.last_error->0@.is_prefix_of(error)
            &&& vstd::utf8::encode_utf8(r->0.last_error->0@).len() <= 512
            &&& vstd::utf8::encode_utf8(error).len() <= 512 ==> r->0.last_error->0@ == error
            &&& r->0.claimable(now) <==> next_attempt_at <= now
        }),
{
    text::law_a_cut_text_is_the_longest_prefix_that_fits(error, 512);
}

/// Which events may be claimed, which are somebody's, and which are purged:
/// those sent before the time.
pub proof fn law_which_events_are_whose(
    e: OutboxEvent,
    owner: Seq<char>,
    now: Timestamp,
    expires: Timestamp,
    name: String,
)
    ensures
        e.claimable(now) <==> may_be_claimed(e, now),
        e.held_by(owner) <==> is_claimed_by(e, owner),
        outbox::purgeable(e, now) <==> e.sent_at is Some && e.sent_at->0 < now,
        outbox::claimed_event(e, name, expires) == claimed(e, name, expires),
{
}

/// The backlog refuses another event once as many are pending as may be, or the
/// oldest has been pending for as long as it may be.
pub proof fn law_when_the_backlog_refuses(stats: OutboxStats, limits: BacklogLimits, now: Timestamp)
    ensures
        stats.over(limits, now) <==> stats.pending >= limits.max_pending || (stats.oldest_pending_at
            is Some && time::since(now, stats.oldest_pending_at->0) >= limits.max_pending_age),
{
}

/// The input, the event and the invocation name one invocation and one tenant,
/// and the input is the one that the invocation was accepted with.
pub open spec fn belong_together(inv: Invocation, input: AsyncInput, event: OutboxEvent) -> bool {
    &&& input.invocation_id@ == inv.id@
    &&& event.event_id@ == inv.id@
    &&& input.tenant_id@ == inv.tenant_id@
    &&& event.tenant_id@ == inv.tenant_id@
    &&& input.digest@ == inv.input_digest@
    &&& input.size_bytes == inv.input_size_bytes
}

/// An acceptance is well-formed where its parts belong together and an input
/// that is an object is no older than thirty days.
pub proof fn law_when_an_acceptance_is_well_formed(
    inv: Invocation,
    input: AsyncInput,
    event: OutboxEvent,
    created_at_ms: u64,
)
    ensures
        outbox::check_accept_rule(inv, input, event, created_at_ms) is Ok <==> belong_together(
            inv,
            input,
            event,
        ) && (input.body is Object ==> created_at_ms >= time::count(
            time::after(inv.accepted_at, (-(30 * 86_400 * 1_000_000_000)) as Span),
        ) / 1_000_000),
        outbox::check_accept_rule(inv, input, event, created_at_ms) is Err
            ==> outbox::check_accept_rule(inv, input, event, created_at_ms)->Err_0 is Refused,
{
}

/// An invocation is accepted exactly where its key does not answer, the backlog
/// has room, its id is new, it is of its function's tenant, its output fits, and
/// an input that is an object is of its tenant and not being collected.
pub proof fn law_when_an_invocation_is_accepted(inv: Invocation, input: AsyncInput, rows: AcceptRows)
    ensures
        ({
            let replay = inv.idempotency_key is Some && rows.binding is Some;
            let full = rows.stats.pending >= rows.backlog.max_pending || (
            rows.stats.oldest_pending_at is Some && time::since(
                inv.accepted_at,
                rows.stats.oldest_pending_at->0,
            ) >= rows.backlog.max_pending_age);
            let rule = outbox::accept_rule(inv, input, rows);
            &&& replay ==> rule == Ok::<AsyncAcceptOutcome, RepoErrorView>(
                AsyncAcceptOutcome::Existing(rows.binding->0),
            )
            &&& !replay && full ==> rule == Ok::<AsyncAcceptOutcome, RepoErrorView>(
                AsyncAcceptOutcome::Backlog(rows.stats),
            )
            &&& rule == Ok::<AsyncAcceptOutcome, RepoErrorView>(AsyncAcceptOutcome::Accepted)
                <==> !replay && !full && !rows.exists && (rows.function is Some
                ==> rows.function->0.tenant_id@ == inv.tenant_id@) && guard::output_rule(
                inv,
                rows.max_inline,
            ) is Ok && (input.body is Object ==> input.body->Object_0.tenant_id@ == inv.tenant_id@
                && rows.tombstone is None) && input.size_bytes <= i64::MAX
        }),
{
}

/// What a transaction that is to fail before it commits comes to: an acceptance
/// becomes an error, every other outcome stays.
pub proof fn law_what_a_failed_commit_comes_to(
    outcome: AsyncAcceptOutcome,
    record: FireRecord,
    n: usize,
    fail: bool,
)
    ensures
        outbox::commit_rule(outcome, fail) is Err <==> fail && outcome is Accepted,
        outbox::commit_rule(outcome, fail) is Err ==> outbox::commit_rule(outcome, fail)->Err_0
            is Store,
        outbox::commit_rule(outcome, fail) is Ok ==> outbox::commit_rule(outcome, fail)->Ok_0
            == outcome,
        triggers::fire_commit_rule(n, record, fail) is Ok <==> n == 1 && !fail,
        n == 1 && !fail ==> triggers::fire_commit_rule(n, record, fail) == Ok::<
            TriggerAcceptOutcome,
            RepoErrorView,
        >(TriggerAcceptOutcome::Accepted),
        n != 1 ==> triggers::fire_commit_rule(n, record, fail)->Err_0 is Conflict,
        n == 1 && fail ==> triggers::fire_commit_rule(n, record, fail)->Err_0 is Store,
{
}

/// A row of the outbox is read by its columns: the times as they are written, a
/// count of attempts outside its range as the largest, a generation below zero
/// as zero.
pub proof fn law_an_event_is_read_by_its_columns(raw: EventColumns)
    ensures
        outbox::event_rule(raw) is Ok <==> time::parsed_ts(raw.created_at@) is Ok
            && time::parsed_opt_ts(text::opt_view(raw.sent_at)) is Ok && time::parsed_ts(
            raw.next_attempt_at@,
        ) is Ok && time::parsed_opt_ts(text::opt_view(raw.claim_expires_at)) is Ok,
        outbox::event_rule(raw) is Ok ==> ({
            let e = outbox::event_rule(raw)->Ok_0;
            &&& e.event_id == raw.event_id
            &&& e.tenant_id == raw.tenant_id
            &&& e.topic == raw.topic
            &&& e.payload == raw.payload
            &&& e.created_at == time::parsed_ts(raw.created_at@)->Ok_0
            &&& e.sent_at == time::parsed_opt_ts(text::opt_view(raw.sent_at))->Ok_0
            &&& e.publish_attempts == if 0 <= raw.publish_attempts <= u32::MAX {
                raw.publish_attempts as u32
            } else {
                u32::MAX
            }
            &&& e.next_attempt_at == time::parsed_ts(raw.next_attempt_at@)->Ok_0
            &&& e.claimed_by == raw.claimed_by
            &&& e.claim_expires_at == time::parsed_opt_ts(
                text::opt_view(raw.claim_expires_at),
            )->Ok_0
            &&& e.last_error == raw.last_error
            &&& e.queue_sequence is Some <==> raw.queue_sequence is Some
            &&& raw.queue_sequence is Some && raw.queue_sequence->0 >= 0 ==> e.queue_sequence->0
                == raw.queue_sequence->0
            &&& e.generation == if raw.generation >= 0 {
                raw.generation as u64
            } else {
                0
            }
        }),
{
}

/// A stored input is read as inline where it has a body and names no object, as
/// an object where it names one and its region and has no body, and not at all
/// else.
pub proof fn law_an_input_is_read_by_its_columns(invocation: String, raw: InputColumns)
    ensures
        ({
            let rule = outbox::input_rule(invocation, raw);
            let inline = raw.storage@ == "inline"@ && raw.inline_body is Some && raw.object_id
                is None && raw.region is None;
            let object = raw.storage@ == "object"@ && raw.inline_body is None && raw.object_id
                is Some && raw.region is Some;
            &&& rule is Ok <==> inline || object
            &&& rule is Err ==> rule->Err_0 is Serialization
            &&& rule is Ok ==> rule->Ok_0.invocation_id == invocation && rule->Ok_0.tenant_id
                == raw.tenant_id && rule->Ok_0.digest == raw.digest && (raw.size_bytes >= 0
                ==> rule->Ok_0.size_bytes == raw.size_bytes)
            &&& inline ==> rule->Ok_0.body == AsyncInputBody::Inline(raw.inline_body->0)
            &&& object && !inline ==> rule->Ok_0.body is Object && rule->Ok_0.body->Object_0.id
                == raw.object_id->0 && rule->Ok_0.body->Object_0.tenant_id == raw.tenant_id
                && rule->Ok_0.body->Object_0.region == raw.region->0
        }),
{
}

/// When a trigger is due: a cron trigger that is enabled, at its next time.
pub open spec fn due_at(t: Trigger) -> Option<Timestamp> {
    if t.kind is Cron && t.status is Enabled {
        t.next_fire_at
    } else {
        None
    }
}

/// The triggers that are due are the first `limit` of the enabled cron triggers
/// whose time has come, in their order; the next fire is at the earliest time of
/// an enabled cron trigger.
pub proof fn law_which_triggers_are_due(rows: Seq<Trigger>, now: Timestamp, limit: nat)
    ensures
        triggers::due_of(rows, rows.len(), now, limit) == first(
            rows.filter(|t: Trigger| due_at(t) is Some && due_at(t)->0 <= now),
            limit,
        ),
{
    lemma_due(rows, rows.len(), now, limit);
    assert(rows.take(rows.len() as int) =~= rows);
}

proof fn lemma_due(rows: Seq<Trigger>, n: nat, now: Timestamp, limit: nat)
    requires
        n <= rows.len(),
    ensures
        triggers::due_of(rows, n, now, limit) =~= first(
            rows.take(n as int).filter(|t: Trigger| due_at(t) is Some && due_at(t)->0 <= now),
            limit,
        ),
    decreases n,
{
    reveal(Seq::filter);
    let p = |t: Trigger| due_at(t) is Some && due_at(t)->0 <= now;
    if n > 0 {
        lemma_due(rows, (n - 1) as nat, now, limit);
        let head = rows.take(n as int);
        assert(head.drop_last() =~= rows.take(n - 1));
        assert(head.last() == rows[n - 1]);
        let before = head.drop_last().filter(p);
        if p(rows[n - 1]) {
            assert(head.filter(p) == before.push(rows[n - 1]));
        } else {
            assert(head.filter(p) == before);
        }
    }
}

/// The next time at which any trigger fires is the earliest of those that are
/// due some time, and none where none is.
pub proof fn law_when_the_next_trigger_fires(rows: Seq<Trigger>, at: Option<Timestamp>, i: int)
    requires
        triggers::is_earliest(rows, at),
    ensures
        0 <= i < rows.len() && due_at(rows[i]) is Some ==> at is Some && at->0 <= due_at(rows[i])->0,
        at is Some ==> exists|k: int|
            0 <= k < rows.len() && due_at(#[trigger] rows[k]) == Some(at->0),
{
    if at is Some {
        let k = choose|k: int|
            0 <= k < rows.len() && triggers::due_time(#[trigger] rows[k]) == Some(at->0);
        assert(due_at(rows[k]) == Some(at->0));
    }
    if 0 <= i < rows.len() {
        assert(triggers::due_time(rows[i]) == due_at(rows[i]));
    }
}

/// The cursor of a trigger moves exactly where it is an enabled cron trigger at
/// the generation and the new time is not before the old one. The last scheduled
/// time only moves forward, and nothing else changes.
pub proof fn law_when_a_cursor_moves(
    stored: Option<Trigger>,
    generation: u64,
    next_fire_at: Timestamp,
    last_scheduled_at: Option<Timestamp>,
)
    ensures
        ({
            let r = triggers::advanced(stored, generation, next_fire_at, last_scheduled_at);
            let t = stored->0;
            &&& r is Some <==> stored is Some && t.generation == generation && t.status is Enabled
                && t.kind is Cron && (t.next_fire_at is None || t.next_fire_at->0 <= next_fire_at)
            &&& r is Some ==> r->0 == (Trigger {
                next_fire_at: Some(next_fire_at),
                last_scheduled_at: r->0.last_scheduled_at,
                ..t
            })
            &&& r is Some ==> r->0.last_scheduled_at == if last_scheduled_at is None {
                t.last_scheduled_at
            } else if t.last_scheduled_at is None || t.last_scheduled_at->0 < last_scheduled_at->0 {
                last_scheduled_at
            } else {
                t.last_scheduled_at
            }
        }),
{
}

/// A function gets another trigger while it has fewer than it may have.
pub proof fn law_when_a_trigger_is_inserted(function: Seq<char>, live: u64, max: u64)
    ensures
        triggers::insert_rule(function, live, max) is Ok <==> live < max,
        triggers::insert_rule(function, live, max) is Err ==> triggers::insert_rule(
            function,
            live,
            max,
        )->Err_0 is Refused,
{
}

/// A trigger is rewritten exactly where the copy is of the generation after the
/// expected one, the stored trigger is of the expected one and not deleted, and
/// its tenant, function and kind stay. Its secret is erased with the trigger,
/// replaced where there is a new one, and kept else.
pub proof fn law_when_a_trigger_is_rewritten(
    trigger: Trigger,
    expected: u64,
    stored: Option<&Trigger>,
    new_secret: bool,
)
    ensures
        ({
            let rule = triggers::update_rule(trigger, expected, stored, new_secret);
            let old = *stored->0;
            let kept = old.tenant_id@ == trigger.tenant_id@ && old.function_id@
                == trigger.function_id@ && old.kind == trigger.kind;
            &&& rule is Ok && rule->Ok_0 is Some <==> trigger.generation == expected + 1 && stored
                is Some && kept && !(old.status is Deleted) && trigger.generation <= i64::MAX
                && old.generation == expected
            &&& rule is Ok && rule->Ok_0 is Some ==> rule->Ok_0->0 == if trigger.status
                is Deleted {
                SecretChange::Erase
            } else if new_secret {
                SecretChange::Replace
            } else {
                SecretChange::Keep
            }
            &&& rule is Ok && rule->Ok_0 is None <==> trigger.generation == expected + 1 && stored
                is Some && kept && (old.status is Deleted || (trigger.generation <= i64::MAX
                && old.generation != expected))
            &&& trigger.generation == expected + 1 && stored is None ==> rule == Err::<
                Option<SecretChange>,
                RepoErrorView,
            >(RepoErrorView::NotFound("trigger"@ + " "@ + trigger.id@))
        }),
{
}

/// The claim of a fire names the invocation that it accepts.
pub open spec fn names(claim: FireClaim, inv: Invocation) -> bool {
    &&& claim.record.invocation_id is Some
    &&& claim.record.invocation_id->0@ == inv.id@
    &&& claim.record.tenant_id@ == inv.tenant_id@
    &&& claim.record.outcome is Accepted
}

/// The trigger fires for the invocation: it is enabled, of its tenant and
/// function, and at the expected generation where one is expected.
pub open spec fn fires_for(t: Trigger, claim: FireClaim, inv: Invocation) -> bool {
    &&& t.status is Enabled
    &&& t.tenant_id@ == inv.tenant_id@
    &&& t.function_id@ == inv.function_id@
    &&& claim.expected_generation is Some ==> claim.expected_generation->0 == t.generation
}

/// A fire is accepted exactly where the acceptance is well-formed, the claim
/// names it, the trigger fires for it, neither the same fire nor the same signed
/// delivery came before, and the invocation is accepted. Each other answer comes
/// for its own reason.
pub proof fn law_when_a_fire_is_accepted(
    inv: Invocation,
    input: AsyncInput,
    event: OutboxEvent,
    created_at_ms: u64,
    claim: FireClaim,
    rows: FireRows,
)
    requires
        outbox::check_accept_rule(inv, input, event, created_at_ms) is Ok,
        names(claim, inv),
    ensures
        ({
            let rule = triggers::fire_accept_rule(inv, input, event, created_at_ms, claim, rows);
            let active = rows.trigger is Some && fires_for(rows.trigger->0, claim, inv);
            let signed = claim.record.signature_digest is Some && rows.signed is Some;
            let accepted = outbox::accept_rule(inv, input, rows.accept);
            &&& !active <==> rule is Ok && rule->Ok_0 is Inactive
            &&& active && rows.fired is Some ==> rule == Ok::<TriggerAcceptOutcome, RepoErrorView>(
                TriggerAcceptOutcome::AlreadyFired(rows.fired->0),
            )
            &&& active && rows.fired is None && signed ==> rule == Ok::<
                TriggerAcceptOutcome,
                RepoErrorView,
            >(TriggerAcceptOutcome::AlreadyFired(rows.signed->0))
            &&& active && rows.fired is None && !signed ==> match accepted {
                Err(e) => rule == Err::<TriggerAcceptOutcome, RepoErrorView>(e),
                Ok(AsyncAcceptOutcome::Accepted) => rule == Ok::<
                    TriggerAcceptOutcome,
                    RepoErrorView,
                >(TriggerAcceptOutcome::Accepted),
                Ok(AsyncAcceptOutcome::Existing(b)) => rule == Ok::<
                    TriggerAcceptOutcome,
                    RepoErrorView,
                >(TriggerAcceptOutcome::Existing(b)),
                Ok(AsyncAcceptOutcome::Backlog(s)) => rule == Ok::<
                    TriggerAcceptOutcome,
                    RepoErrorView,
                >(TriggerAcceptOutcome::Backlog(s)),
            }
        }),
{
}

/// A fire whose acceptance is malformed, or whose claim names another
/// invocation, is refused.
pub proof fn law_a_malformed_fire_is_refused(
    inv: Invocation,
    input: AsyncInput,
    event: OutboxEvent,
    created_at_ms: u64,
    claim: FireClaim,
    rows: FireRows,
)
    requires
        outbox::check_accept_rule(inv, input, event, created_at_ms) is Err || !names(claim, inv),
    ensures
        triggers::fire_accept_rule(inv, input, event, created_at_ms, claim, rows) is Err,
        triggers::fire_accept_rule(inv, input, event, created_at_ms, claim, rows)->Err_0 is Refused,
{
}

/// Fires are purged by the time of their kind. The scheduler's lease is taken by
/// whoever holds it, by anybody once it has ended or its holder is gone; its
/// holder keeps the time since which it holds it.
pub proof fn law_who_schedules(
    fire: FireRecord,
    webhook_before: Timestamp,
    cron_before: Timestamp,
    current: Option<SchedulerLease>,
    owner: String,
    now: Timestamp,
    ttl: Span,
    gone: bool,
)
    ensures
        triggers::purgeable(fire, webhook_before, cron_before) <==> (fire.kind is Webhook
            && fire.created_at < webhook_before) || (fire.kind is Cron && fire.created_at
            < cron_before),
        triggers::may_take(current, owner@, now, gone) <==> current is None
            || current->0.owner_id@ == owner@ || current->0.expires_at <= now || gone,
        ({
            let r = triggers::scheduler_lease(current, owner, now, ttl, gone);
            &&& r is Some <==> current is None || current->0.owner_id@ == owner@
                || current->0.expires_at <= now || gone
            &&& r is Some ==> r->0.owner_id@ == owner@ && r->0.expires_at == time::after(now, ttl)
                && r->0.acquired_at == if current is Some && current->0.owner_id@ == owner@ {
                current->0.acquired_at
            } else {
                now
            }
        }),
{
}

/// The columns of a trigger hold what it is, and its next time only while it is
/// due some time; the columns of a fire hold what it is, and its reason in at
/// most 512 bytes.
pub proof fn law_what_trigger_columns_hold(
    t: Trigger,
    c: TriggerColumns,
    f: FireRecord,
    d: FireColumns,
)
    requires
        triggers::trigger_written_as(t, c),
        triggers::written_as(f, d),
    ensures
        c.kind@ == if t.kind is Cron {
            "cron"@
        } else {
            "webhook"@
        },
        c.status@ == if t.status is Enabled {
            "enabled"@
        } else if t.status is Disabled {
            "disabled"@
        } else {
            "deleted"@
        },
        c.generation == t.generation,
        text::opt_view(c.next_fire_at) == time::opt_ts_text(due_at(t)),
        c.created_at@ == time::ts_text(t.created_at),
        c.updated_at@ == time::ts_text(t.updated_at),
        d.trigger_id@ == f.trigger_id@,
        d.tenant_id@ == f.tenant_id@,
        d.fire_key@ == f.fire_key@,
        d.kind@ == if f.kind is Cron {
            "cron"@
        } else {
            "webhook"@
        },
        d.outcome@ == if f.outcome is Accepted {
            "accepted"@
        } else {
            "refused"@
        },
        d.event_id == f.event_id,
        d.signature_digest == f.signature_digest,
        d.invocation_id == f.invocation_id,
        text::opt_view(d.scheduled_at) == time::opt_ts_text(f.scheduled_at),
        d.created_at@ == time::ts_text(f.created_at),
        d.reason is Some <==> f.reason is Some,
        f.reason is Some ==> d.reason->0@.is_prefix_of(f.reason->0@) && vstd::utf8::encode_utf8(
            d.reason->0@,
        ).len() <= 512 && (vstd::utf8::encode_utf8(f.reason->0@).len() <= 512 ==> d.reason->0@
            == f.reason->0@),
{
    if f.reason is Some {
        text::law_a_cut_text_is_the_longest_prefix_that_fits(f.reason->0@, 512);
    }
}

/// A fire is read by its columns, each name as it is written.
pub proof fn law_a_fire_is_read_by_its_columns(raw: FireColumns)
    ensures
        triggers::fire_rule(raw) is Ok <==> (raw.kind@ == "cron"@ || raw.kind@ == "webhook"@) && (
        raw.outcome@ == "accepted"@ || raw.outcome@ == "refused"@) && time::parsed_opt_ts(
            text::opt_view(raw.scheduled_at),
        ) is Ok && time::parsed_ts(raw.created_at@) is Ok,
        triggers::fire_rule(raw) is Ok ==> ({
            let f = triggers::fire_rule(raw)->Ok_0;
            &&& f.trigger_id == raw.trigger_id
            &&& f.tenant_id == raw.tenant_id
            &&& f.fire_key == raw.fire_key
            &&& f.kind is Cron <==> raw.kind@ == "cron"@
            &&& f.scheduled_at == time::parsed_opt_ts(text::opt_view(raw.scheduled_at))->Ok_0
            &&& f.event_id == raw.event_id
            &&& f.signature_digest == raw.signature_digest
            &&& f.invocation_id == raw.invocation_id
            &&& f.outcome is Accepted <==> raw.outcome@ == "accepted"@
            &&& f.reason == raw.reason
            &&& f.created_at == time::parsed_ts(raw.created_at@)->Ok_0
        }),
{
}

/// A new event is due at once, belongs to nobody and was never sent or tried.
pub proof fn law_what_a_new_event_is(
    event_id: String,
    tenant_id: String,
    topic: String,
    payload: String,
    now: Timestamp,
)
    ensures
        ({
            let e = crate::repository::outbox::new_event(event_id, tenant_id, topic, payload, now);
            &&& e.event_id == event_id
            &&& e.tenant_id == tenant_id
            &&& e.topic == topic
            &&& e.payload == payload
            &&& e.created_at == now
            &&& e.next_attempt_at == now
            &&& may_be_claimed(e, now)
            &&& e.publish_attempts == 0
            &&& e.generation == 0
            &&& e.claimed_by is None
            &&& e.claim_expires_at is None
            &&& e.last_error is None
            &&& e.queue_sequence is None
        }),
{
}

/// The message of the first generation has the id of the event; a later one
/// has the generation behind it.
pub proof fn law_how_a_message_is_named(event: Seq<char>, generation: nat)
    ensures
        crate::repository::outbox::message_id_text(event, 0) == event,
        generation > 0 ==> crate::repository::outbox::message_id_text(event, generation) == event
            + ".g"@ + text::dec(generation),
{
}

/// What may be shown of an input: how many bytes it has, or which object holds
/// it; never the bytes.
pub proof fn law_an_input_shows_no_bytes(a: AsyncInputBody, b: AsyncInputBody, i: AsyncInput)
    ensures
        a is Inline ==> a.summary_text() == "Inline("@ + text::dec(a->Inline_0@.len())
            + " bytes)"@,
        a is Object ==> a.summary_text() == "Object("@ + a->Object_0.id@ + ")"@,
        a is Inline && b is Inline && a->Inline_0@.len() == b->Inline_0@.len() ==> a.summary_text()
            == b.summary_text(),
        i.body is Inline ==> i.storage_name() == "inline"@,
        i.body is Object ==> i.storage_name() == "object"@,
{
}

/// Objects are the same where they agree in all they hold, and so are events.
pub proof fn law_when_objects_and_events_are_the_same(
    o: (ObjectRef, ObjectRef),
    e: (OutboxEvent, OutboxEvent),
)
    ensures
        o.0.same(o.1) <==> (o.0.id@ == o.1.id@ && o.0.tenant_id@ == o.1.tenant_id@ && o.0.region@
            == o.1.region@),
        e.0.same(e.1) <==> (e.0.event_id@ == e.1.event_id@ && e.0.tenant_id@ == e.1.tenant_id@
            && e.0.topic@ == e.1.topic@ && e.0.payload@ == e.1.payload@ && e.0.created_at
            == e.1.created_at && e.0.sent_at == e.1.sent_at && e.0.publish_attempts
            == e.1.publish_attempts && e.0.next_attempt_at == e.1.next_attempt_at && text::opt_view(
            e.0.claimed_by,
        ) == text::opt_view(e.1.claimed_by) && e.0.claim_expires_at == e.1.claim_expires_at
            && text::opt_view(e.0.last_error) == text::opt_view(e.1.last_error)
            && e.0.queue_sequence == e.1.queue_sequence && e.0.generation == e.1.generation),
{
}

/// The columns of an event hold what it is; those of an input hold its size and
/// digest, and its bytes or the object that has them, never both.
pub proof fn law_what_event_columns_hold(
    e: OutboxEvent,
    c: EventColumns,
    i: AsyncInput,
    d: InputColumns,
)
    requires
        outbox::written_as(e, c),
        outbox::input_written_as(i, d),
    ensures
        c.event_id@ == e.event_id@,
        c.tenant_id@ == e.tenant_id@,
        c.topic@ == e.topic@,
        c.payload@ == e.payload@,
        c.created_at@ == time::ts_text(e.created_at),
        text::opt_view(c.sent_at) == time::opt_ts_text(e.sent_at),
        c.publish_attempts == e.publish_attempts,
        c.next_attempt_at@ == time::ts_text(e.next_attempt_at),
        text::opt_view(c.claimed_by) == text::opt_view(e.claimed_by),
        text::opt_view(c.claim_expires_at) == time::opt_ts_text(e.claim_expires_at),
        text::opt_view(c.last_error) == text::opt_view(e.last_error),
        c.queue_sequence is Some <==> e.queue_sequence is Some,
        e.queue_sequence is Some ==> c.queue_sequence->0 == e.queue_sequence->0,
        c.generation == e.generation,
        d.tenant_id@ == i.tenant_id@,
        d.size_bytes == i.size_bytes,
        d.digest@ == i.digest@,
        i.body is Inline ==> d.storage@ == "inline"@ && d.inline_body is Some && d.inline_body->0@
            == i.body->Inline_0@ && d.object_id is None && d.region is None,
        i.body is Object ==> d.storage@ == "object"@ && d.inline_body is None && d.object_id is Some
            && d.object_id->0@ == i.body->Object_0.id@ && d.region is Some && d.region->0@
            == i.body->Object_0.region@,
{
}

} // verus!
