//! Triggers, their fires and the lease of the scheduler: what each
//! transaction decides from the rows it read and what it writes.

use vstd::prelude::*;

use crate::domain::invocation::Invocation;
use crate::repository::objects;
use crate::repository::outbox::{AsyncAcceptOutcome, AsyncInput, OutboxEvent};
use crate::repository::sqlite;
use crate::repository::sqlite::outbox;
use crate::repository::sqlite::outbox::AcceptRows;
use crate::repository::triggers::{
    FireClaim, FireOutcome, FireRecord, SchedulerLease, Trigger, TriggerAcceptOutcome, TriggerKind,
    TriggerStatus,
};
use crate::repository::{RepoError, RepoErrorView};
use crate::text;
use crate::time;
use crate::time::{Span, Timestamp};

verus! {

/// Longest reason kept of a fire, in bytes.
pub const MAX_REASON_BYTES: usize = 512;

// ---------------------------------------------------------------------------
// rows
// ---------------------------------------------------------------------------
/// The kind a column names.
pub open spec fn kind_rule(raw: Seq<char>) -> Result<TriggerKind, RepoErrorView> {
    if raw == "cron"@ {
        Ok(TriggerKind::Cron)
    } else if raw == "webhook"@ {
        Ok(TriggerKind::Webhook)
    } else {
        Err(RepoErrorView::Serialization("trigger kind `"@ + raw + "`"@))
    }
}

/// The kind a column names.
pub fn kind_of(raw: &str) -> (r: Result<TriggerKind, RepoError>)
    ensures
        crate::repository::agrees(r, kind_rule(raw@)),
{
    if text::same_text(raw, "cron") {
        Ok(TriggerKind::Cron)
    } else if text::same_text(raw, "webhook") {
        Ok(TriggerKind::Webhook)
    } else {
        let mut m = text::owned("trigger kind `");
        m.append(raw);
        m.append("`");
        Err(RepoError::Serialization(m))
    }
}

/// The outcome a column names.
pub open spec fn outcome_rule(raw: Seq<char>) -> Result<FireOutcome, RepoErrorView> {
    if raw == "accepted"@ {
        Ok(FireOutcome::Accepted)
    } else if raw == "refused"@ {
        Ok(FireOutcome::Refused)
    } else {
        Err(RepoErrorView::Serialization("fire outcome `"@ + raw + "`"@))
    }
}

/// The outcome a column names.
pub fn outcome_of(raw: &str) -> (r: Result<FireOutcome, RepoError>)
    ensures
        crate::repository::agrees(r, outcome_rule(raw@)),
{
    if text::same_text(raw, "accepted") {
        Ok(FireOutcome::Accepted)
    } else if text::same_text(raw, "refused") {
        Ok(FireOutcome::Refused)
    } else {
        let mut m = text::owned("fire outcome `");
        m.append(raw);
        m.append("`");
        Err(RepoError::Serialization(m))
    }
}

/// The columns of a fire.
#[derive(Debug, PartialEq, Eq)]
pub struct FireColumns {
    pub trigger_id: String,
    pub fire_key: String,
    pub tenant_id: String,
    pub kind: String,
    pub scheduled_at: Option<String>,
    pub event_id: Option<String>,
    pub signature_digest: Option<String>,
    pub invocation_id: Option<String>,
    pub outcome: String,
    pub reason: Option<String>,
    pub created_at: String,
}

/// The fire a row holds, or the first column that cannot be read.
pub open spec fn fire_rule(raw: FireColumns) -> Result<FireRecord, RepoErrorView> {
    match kind_rule(raw.kind@) {
        Err(e) => Err(e),
        Ok(kind) => match time::parsed_opt_ts(text::opt_view(raw.scheduled_at)) {
            Err(e) => Err(e),
            Ok(scheduled_at) => match outcome_rule(raw.outcome@) {
                Err(e) => Err(e),
                Ok(outcome) => match time::parsed_ts(raw.created_at@) {
                    Err(e) => Err(e),
                    Ok(created_at) => Ok(
                        FireRecord {
                            trigger_id: raw.trigger_id,
                            tenant_id: raw.tenant_id,
                            fire_key: raw.fire_key,
                            kind,
                            scheduled_at,
                            event_id: raw.event_id,
                            signature_digest: raw.signature_digest,
                            invocation_id: raw.invocation_id,
                            outcome,
                            reason: raw.reason,
                            created_at,
                        },
                    ),
                },
            },
        },
    }
}

/// The fire a row holds.
pub fn fire_of(raw: FireColumns) -> (r: Result<FireRecord, RepoError>)
    ensures
        crate::repository::agrees(r, fire_rule(raw)),
{
    let kind = match kind_of(raw.kind.as_str()) {
        Ok(k) => k,
        Err(e) => return Err(e),
    };
    let scheduled_at = match time::parse_opt_ts(&raw.scheduled_at) {
        Ok(t) => t,
        Err(e) => return Err(e),
    };
    let outcome = match outcome_of(raw.outcome.as_str()) {
        Ok(o) => o,
        Err(e) => return Err(e),
    };
    let created_at: Timestamp = match time::parse_ts(raw.created_at.as_str()) {
        Ok(t) => t,
        Err(e) => return Err(e),
    };
    Ok(
        FireRecord {
            trigger_id: raw.trigger_id,
            tenant_id: raw.tenant_id,
            fire_key: raw.fire_key,
            kind,
            scheduled_at,
            event_id: raw.event_id,
            signature_digest: raw.signature_digest,
            invocation_id: raw.invocation_id,
            outcome,
            reason: raw.reason,
            created_at,
        },
    )
}

/// What is kept of a reason.
pub open spec fn kept_reason(reason: Option<String>) -> Option<Seq<char>> {
    match reason {
        Some(m) => Some(text::cut_text(m@, MAX_REASON_BYTES as nat)),
        None => None,
    }
}

/// Every instant of a fire is in a year of four digits.
pub open spec fn four_digits(f: FireRecord) -> bool {
    (f.scheduled_at is Some ==> time::four_digit_year(f.scheduled_at->0)) && time::four_digit_year(
        f.created_at,
    )
}

/// The columns a fire is written into.
pub open spec fn written_as(f: FireRecord, c: FireColumns) -> bool {
    &&& c.trigger_id == f.trigger_id
    &&& c.fire_key == f.fire_key
    &&& c.tenant_id == f.tenant_id
    &&& c.kind@ == f.kind.spec_name()
    &&& text::opt_view(c.scheduled_at) == time::opt_ts_text(f.scheduled_at)
    &&& c.event_id == f.event_id
    &&& c.signature_digest == f.signature_digest
    &&& c.invocation_id == f.invocation_id
    &&& c.outcome@ == f.outcome.spec_name()
    &&& text::opt_view(c.reason) == kept_reason(f.reason)
    &&& c.created_at@ == time::ts_text(f.created_at)
}

/// The columns of a fire. What is written is read back, with the reason cut
/// to what is kept of it.
pub fn fire_columns(fire: &FireRecord) -> (r: FireColumns)
    requires
        time::opt_in_calendar(fire.scheduled_at),
        time::in_calendar(fire.created_at),
    ensures
        written_as(*fire, r),
        four_digits(*fire) ==> fire_rule(r) == Ok::<FireRecord, RepoErrorView>(
            FireRecord { reason: r.reason, ..*fire },
        ),
{
    let c = FireColumns {
        trigger_id: fire.trigger_id.clone(),
        fire_key: fire.fire_key.clone(),
        tenant_id: fire.tenant_id.clone(),
        kind: text::owned(fire.kind.as_str()),
        scheduled_at: time::opt_ts(&fire.scheduled_at),
        event_id: text::clone_opt(&fire.event_id),
        signature_digest: text::clone_opt(&fire.signature_digest),
        invocation_id: text::clone_opt(&fire.invocation_id),
        outcome: text::owned(fire.outcome.as_str()),
        reason: match &fire.reason {
            Some(m) => Some(text::truncate(m.as_str(), MAX_REASON_BYTES)),
            None => None,
        },
        created_at: time::ts(&fire.created_at),
    };
    proof {
        reveal_strlit("cron");
        reveal_strlit("webhook");
        reveal_strlit("accepted");
        reveal_strlit("refused");
        assert("cron"@.len() == 4 && "webhook"@.len() == 7);
        assert("accepted"@.len() == 8 && "refused"@.len() == 7);
    }
    c
}

/// The due time a trigger is found by: only an enabled schedule has one.
pub open spec fn due_time(t: Trigger) -> Option<Timestamp> {
    if t.kind is Cron && t.status is Enabled {
        t.next_fire_at
    } else {
        None
    }
}

/// The due time a trigger is found by.
pub fn next_fire_column(t: &Trigger) -> (r: Option<Timestamp>)
    ensures
        r == due_time(*t),
{
    if t.kind() == TriggerKind::Cron && t.is_enabled() {
        t.next_fire_at
    } else {
        None
    }
}

/// The columns of a trigger.
#[derive(Debug, PartialEq, Eq)]
pub struct TriggerColumns {
    pub kind: &'static str,
    pub status: &'static str,
    pub generation: i64,
    pub next_fire_at: Option<String>,
    pub created_at: String,
    pub updated_at: String,
}

/// The columns that a trigger is written in.
pub open spec fn trigger_written_as(t: Trigger, c: TriggerColumns) -> bool {
    &&& c.kind@ == t.kind.spec_name()
    &&& c.status@ == t.status.spec_name()
    &&& c.generation == t.generation
    &&& text::opt_view(c.next_fire_at) == time::opt_ts_text(due_time(t))
    &&& c.created_at@ == time::ts_text(t.created_at)
    &&& c.updated_at@ == time::ts_text(t.updated_at)
}

/// The columns of a trigger, or the generation that no column holds.
pub fn trigger_columns(t: &Trigger) -> (r: Result<TriggerColumns, RepoError>)
    requires
        time::opt_in_calendar(t.next_fire_at),
        time::in_calendar(t.created_at),
        time::in_calendar(t.updated_at),
    ensures
        r is Ok <==> t.generation <= sqlite::BIGINT_MAX,
        r is Err ==> r->Err_0@ == sqlite::too_big("trigger generation"@, t.generation as nat),
        r is Ok ==> trigger_written_as(*t, r->Ok_0),
{
    let generation: i64 = match sqlite::big(t.generation, "trigger generation") {
        Ok(g) => g,
        Err(e) => return Err(e),
    };
    Ok(
        TriggerColumns {
            kind: t.kind.as_str(),
            status: t.status.as_str(),
            generation,
            next_fire_at: time::opt_ts(&next_fire_column(t)),
            created_at: time::ts(&t.created_at),
            updated_at: time::ts(&t.updated_at),
        },
    )
}

// ---------------------------------------------------------------------------
// triggers
// ---------------------------------------------------------------------------
/// Whether a function may have one more trigger.
pub open spec fn insert_rule(function: Seq<char>, live: u64, max_per_function: u64) -> Result<
    (),
    RepoErrorView,
> {
    if live >= max_per_function {
        Err(
            RepoErrorView::Refused(
                "function "@ + function + " already has "@ + text::dec(live as nat)
                    + " triggers (max "@ + text::dec(max_per_function as nat) + ")"@,
            ),
        )
    } else {
        Ok(())
    }
}

/// Whether a function that has `live` triggers may get another one.
pub fn check_insert(function: &str, live: u64, max_per_function: u64) -> (r: Result<(), RepoError>)
    ensures
        crate::repository::agrees(r, insert_rule(function@, live, max_per_function)),
{
    if live >= max_per_function {
        let mut m = text::owned("function ");
        m.append(function);
        m.append(" already has ");
        text::push_u64(&mut m, live);
        m.append(" triggers (max ");
        text::push_u64(&mut m, max_per_function);
        m.append(")");
        return Err(RepoError::Refused(m));
    }
    Ok(())
}

/// What becomes of a trigger's sealed secret when the trigger is rewritten.
#[derive(Debug, Clone, Copy, PartialEq, Eq, Structural)]
pub enum SecretChange {
    /// It stays as it is.
    Keep,
    /// The new one takes its place.
    Replace,
    /// A deleted trigger keeps none.
    Erase,
}

/// What rewriting a trigger comes to. `None` means that somebody else got
/// there first, or that the trigger was deleted.
pub open spec fn update_rule(
    trigger: Trigger,
    expected_generation: u64,
    stored: Option<&Trigger>,
    new_secret: bool,
) -> Result<Option<SecretChange>, RepoErrorView> {
    if trigger.generation != expected_generation + 1 {
        Err(RepoErrorView::Refused("a trigger update carries expected_generation + 1"@))
    } else {
        match stored {
            None => Err(sqlite::missing_row("trigger"@, trigger.id@)),
            Some(old) => if old.tenant_id@ != trigger.tenant_id@ || old.function_id@
                != trigger.function_id@ || old.kind != trigger.kind {
                Err(RepoErrorView::Refused("a trigger keeps its tenant, function and kind"@))
            } else if old.status is Deleted {
                Ok(None)
            } else if trigger.generation > sqlite::BIGINT_MAX {
                Err(sqlite::too_big("trigger generation"@, trigger.generation as nat))
            } else if old.generation != expected_generation {
                Ok(None)
            } else if trigger.status is Deleted {
                Ok(Some(SecretChange::Erase))
            } else if new_secret {
                Ok(Some(SecretChange::Replace))
            } else {
                Ok(Some(SecretChange::Keep))
            },
        }
    }
}

/// Decide rewriting a trigger: the generation must be the next one, the
/// trigger keeps what it is of, and a deleted one stays deleted.
pub fn update_trigger(
    trigger: &Trigger,
    expected_generation: u64,
    stored: Option<&Trigger>,
    new_secret: bool,
) -> (r: Result<Option<SecretChange>, RepoError>)
    requires
        expected_generation < u64::MAX,
    ensures
        crate::repository::agrees(
            r,
            update_rule(*trigger, expected_generation, stored, new_secret),
        ),
{
    if trigger.generation != expected_generation + 1 {
        return Err(
            RepoError::Refused(text::owned("a trigger update carries expected_generation + 1")),
        );
    }
    let old = match stored {
        Some(o) => o,
        None => return Err(sqlite::missing("trigger", trigger.id.as_str())),
    };
    if !text::same_text(old.tenant_id.as_str(), trigger.tenant_id.as_str()) || !text::same_text(
        old.function_id.as_str(),
        trigger.function_id.as_str(),
    ) || old.kind != trigger.kind {
        return Err(
            RepoError::Refused(text::owned("a trigger keeps its tenant, function and kind")),
        );
    }
    if old.status == TriggerStatus::Deleted {
        return Ok(None);
    }
    match sqlite::big(trigger.generation, "trigger generation") {
        Ok(_) => {},
        Err(e) => return Err(e),
    }
    if old.generation != expected_generation {
        return Ok(None);
    }
    if trigger.status == TriggerStatus::Deleted {
        return Ok(Some(SecretChange::Erase));
    }
    if new_secret {
        return Ok(Some(SecretChange::Replace));
    }
    Ok(Some(SecretChange::Keep))
}

/// A schedule is due at `now`.
pub open spec fn is_due(t: Trigger, now: Timestamp) -> bool {
    due_time(t) is Some && due_time(t)->0 <= now
}

/// The first `limit` of the first `n` triggers that are due.
pub open spec fn due_of(rows: Seq<Trigger>, n: nat, now: Timestamp, limit: nat) -> Seq<Trigger>
    decreases n,
{
    if n == 0 {
        Seq::empty()
    } else {
        let head = due_of(rows, (n - 1) as nat, now, limit);
        if head.len() < limit && is_due(rows[n - 1], now) {
            head.push(rows[n - 1])
        } else {
            head
        }
    }
}

/// The schedules that are due at `now`, at most `limit` of them, in the order
/// of `rows`.
pub fn due_cron_triggers(rows: Vec<Trigger>, now: Timestamp, limit: usize) -> (r: Vec<Trigger>)
    ensures
        r@ == due_of(rows@, rows@.len(), now, limit as nat),
{
    let ghost all = rows@;
    let mut out: Vec<Trigger> = Vec::new();
    for t in it: rows.into_iter()
        invariant
            it.seq() == all,
            out@ == due_of(all, it.index() as nat, now, limit as nat),
    {
        assert(t == all[it.index() as int]);
        let due = match next_fire_column(&t) {
            Some(at) => at <= now,
            None => false,
        };
        if out.len() < limit && due {
            out.push(t);
        }
    }
    out
}

/// `at` is the earliest due time of the triggers.
pub open spec fn is_earliest(rows: Seq<Trigger>, at: Option<Timestamp>) -> bool {
    match at {
        Some(t) => {
            &&& exists|i: int| 0 <= i < rows.len() && due_time(#[trigger] rows[i]) == Some(t)
            &&& forall|i: int|
                0 <= i < rows.len() && due_time(#[trigger] rows[i]) is Some ==> t <= due_time(
                    rows[i],
                )->0
        },
        None => forall|i: int| 0 <= i < rows.len() ==> due_time(#[trigger] rows[i]) is None,
    }
}

/// When the next schedule is due.
pub fn next_cron_fire_at(rows: &Vec<Trigger>) -> (r: Option<Timestamp>)
    ensures
        is_earliest(rows@, r),
{
    let mut best: Option<Timestamp> = None;
    let mut i: usize = 0;
    while i < rows.len()
        invariant
            i <= rows@.len(),
            is_earliest(rows@.take(i as int), best),
        decreases rows@.len() - i,
    {
        let ghost before = best;
        let ghost done = rows@.take(i as int);
        let ghost next = rows@.take(i as int + 1);
        let due = next_fire_column(&rows[i]);
        match due {
            Some(at) => {
                let earlier = match best {
                    Some(b) => at < b,
                    None => true,
                };
                if earlier {
                    best = Some(at);
                }
            },
            None => {},
        }
        proof {
            assert(next[i as int] == rows@[i as int]);
            assert(forall|j: int| 0 <= j < i ==> next[j] == #[trigger] done[j]);
            assert forall|j: int| 0 <= j < next.len() && best is None implies due_time(
                #[trigger] next[j],
            ) is None by {
                if j < i {
                    assert(next[j] == done[j]);
                }
            }
            assert forall|j: int|
                0 <= j < next.len() && due_time(#[trigger] next[j]) is Some && best is Some implies best->0
                <= due_time(next[j])->0 by {
                if j < i {
                    assert(next[j] == done[j]);
                }
            }
            if best is Some {
                if best == due {
                    assert(due_time(next[i as int]) == best);
                } else {
                    let j = choose|j: int|
                        0 <= j < done.len() && due_time(#[trigger] done[j]) == Some(before->0);
                    assert(due_time(next[j]) == best);
                }
            }
        }
        i += 1;
    }
    assert(rows@.take(i as int) =~= rows@);
    best
}

/// The trigger after its cursor moved on to `next_fire_at`, or `None` where
/// it changed, is not an enabled schedule, or would move backwards.
pub open spec fn advanced(
    stored: Option<Trigger>,
    generation: u64,
    next_fire_at: Timestamp,
    last_scheduled_at: Option<Timestamp>,
) -> Option<Trigger> {
    match stored {
        None => None,
        Some(t) => if t.generation != generation || !(t.status is Enabled) || !(t.kind is Cron) || (
        t.next_fire_at is Some && next_fire_at < t.next_fire_at->0) {
            None
        } else {
            Some(
                Trigger {
                    next_fire_at: Some(next_fire_at),
                    last_scheduled_at: if last_scheduled_at is Some && (t.last_scheduled_at is None
                        || last_scheduled_at->0 > t.last_scheduled_at->0) {
                        last_scheduled_at
                    } else {
                        t.last_scheduled_at
                    },
                    ..t
                },
            )
        },
    }
}

/// Move the cursor of a schedule. It never moves backwards.
pub fn advance_cron_cursor(
    stored: Option<Trigger>,
    generation: u64,
    next_fire_at: Timestamp,
    last_scheduled_at: Option<Timestamp>,
) -> (r: Option<Trigger>)
    ensures
        r == advanced(stored, generation, next_fire_at, last_scheduled_at),
{
    let mut t = match stored {
        Some(t) => t,
        None => return None,
    };
    if t.generation != generation || !t.is_enabled() || t.kind() != TriggerKind::Cron {
        return None;
    }
    let backwards = match t.next_fire_at {
        Some(cur) => next_fire_at < cur,
        None => false,
    };
    if backwards {
        return None;
    }
    t.next_fire_at = Some(next_fire_at);
    if let Some(last) = last_scheduled_at {
        let later = match t.last_scheduled_at {
            Some(prev) => last > prev,
            None => true,
        };
        if later {
            t.last_scheduled_at = Some(last);
        }
    }
    Some(t)
}

// ---------------------------------------------------------------------------
// fires
// ---------------------------------------------------------------------------
/// A claim names its accepted invocation and tenant.
pub open spec fn claims(claim: FireClaim, inv: Invocation) -> bool {
    &&& text::opt_view(claim.record.invocation_id) == Some(inv.id@)
    &&& claim.record.tenant_id@ == inv.tenant_id@
    &&& claim.record.outcome is Accepted
}

/// A trigger still fires what the claim is for: enabled, of the invocation's
/// tenant and function, and unchanged since the caller read it.
pub open spec fn is_active(t: Trigger, claim: FireClaim, inv: Invocation) -> bool {
    &&& t.status is Enabled
    &&& t.tenant_id@ == inv.tenant_id@
    &&& t.function_id@ == inv.function_id@
    &&& (claim.expected_generation is None || claim.expected_generation->0 == t.generation)
}

/// What the transaction of a fire read.
#[derive(Debug, PartialEq, Eq)]
pub struct FireRows {
    /// The trigger as it is now.
    pub trigger: Option<Trigger>,
    /// The fire of the same key.
    pub fired: Option<FireRecord>,
    /// The fire of the same signed delivery.
    pub signed: Option<FireRecord>,
    /// What the acceptance of the invocation read.
    pub accept: AcceptRows,
}

/// What a fire comes to: its arguments, the trigger, the same fire again, and
/// then exactly what the acceptance of its invocation comes to.
pub open spec fn fire_accept_rule(
    inv: Invocation,
    input: AsyncInput,
    event: OutboxEvent,
    object_created_at_ms: u64,
    claim: FireClaim,
    rows: FireRows,
) -> Result<TriggerAcceptOutcome, RepoErrorView> {
    let checked = outbox::check_accept_rule(inv, input, event, object_created_at_ms);
    if checked is Err {
        Err(checked->Err_0)
    } else if !claims(claim, inv) {
        Err(RepoErrorView::Refused("a fire claim names its accepted invocation and tenant"@))
    } else if !(rows.trigger is Some && is_active(rows.trigger->0, claim, inv)) {
        Ok(
            TriggerAcceptOutcome::Inactive(
                match rows.trigger {
                    Some(t) => Some(Box::new(t)),
                    None => None,
                },
            ),
        )
    } else if rows.fired is Some {
        Ok(TriggerAcceptOutcome::AlreadyFired(rows.fired->0))
    } else if claim.record.signature_digest is Some && rows.signed is Some {
        Ok(TriggerAcceptOutcome::AlreadyFired(rows.signed->0))
    } else {
        match outbox::accept_rule(inv, input, rows.accept) {
            Err(e) => Err(e),
            Ok(AsyncAcceptOutcome::Existing(b)) => Ok(TriggerAcceptOutcome::Existing(b)),
            Ok(AsyncAcceptOutcome::Backlog(s)) => Ok(TriggerAcceptOutcome::Backlog(s)),
            Ok(AsyncAcceptOutcome::Accepted) => Ok(TriggerAcceptOutcome::Accepted),
        }
    }
}

fn names_invocation(claim: &FireClaim, inv: &Invocation) -> (r: bool)
    ensures
        r == claims(*claim, *inv),
{
    let named = match &claim.record.invocation_id {
        Some(i) => text::same_text(i.as_str(), inv.id.as_str()),
        None => false,
    };
    named && text::same_text(claim.record.tenant_id.as_str(), inv.tenant_id.as_str())
        && claim.record.outcome == FireOutcome::Accepted
}

fn still_active(t: &Trigger, claim: &FireClaim, inv: &Invocation) -> (r: bool)
    ensures
        r == is_active(*t, *claim, *inv),
{
    let current = match claim.expected_generation {
        Some(g) => g == t.generation,
        None => true,
    };
    t.is_enabled() && text::same_text(t.tenant_id.as_str(), inv.tenant_id.as_str())
        && text::same_text(t.function_id.as_str(), inv.function_id.as_str()) && current
}

/// Decide a fire. An accepted one writes its record beside everything that
/// the acceptance of its invocation writes.
pub fn accept_trigger_fire(
    inv: &Invocation,
    input: &AsyncInput,
    event: &OutboxEvent,
    object_created_at_ms: u64,
    claim: &FireClaim,
    rows: FireRows,
) -> (r: Result<TriggerAcceptOutcome, RepoError>)
    requires
        time::in_calendar(inv.accepted_at),
        time::in_reach(inv.accepted_at, (-objects::TOMBSTONE_RETENTION) as Span),
        time::opt_in_calendar(rows.accept.stats.oldest_pending_at),
    ensures
        crate::repository::agrees(
            r,
            fire_accept_rule(*inv, *input, *event, object_created_at_ms, *claim, rows),
        ),
{
    match outbox::check_accept(inv, input, event, object_created_at_ms) {
        Ok(_) => {},
        Err(e) => return Err(e),
    }
    if !names_invocation(claim, inv) {
        return Err(
            RepoError::Refused(text::owned("a fire claim names its accepted invocation and tenant")),
        );
    }
    match rows.trigger {
        Some(t) => {
            if !still_active(&t, claim, inv) {
                return Ok(TriggerAcceptOutcome::Inactive(Some(Box::new(t))));
            }
        },
        None => return Ok(TriggerAcceptOutcome::Inactive(None)),
    }
    if let Some(existing) = rows.fired {
        return Ok(TriggerAcceptOutcome::AlreadyFired(existing));
    }
    if claim.record.signature_digest.is_some() {
        if let Some(existing) = rows.signed {
            return Ok(TriggerAcceptOutcome::AlreadyFired(existing));
        }
    }
    match outbox::accept_in(inv, input, &rows.accept) {
        Ok(AsyncAcceptOutcome::Accepted) => Ok(TriggerAcceptOutcome::Accepted),
        Ok(AsyncAcceptOutcome::Existing(b)) => Ok(TriggerAcceptOutcome::Existing(b)),
        Ok(AsyncAcceptOutcome::Backlog(s)) => Ok(TriggerAcceptOutcome::Backlog(s)),
        Err(e) => Err(e),
    }
}

/// What comes of a fire whose record was written `n` times.
pub open spec fn fire_commit_rule(n: usize, record: FireRecord, fail: bool) -> Result<
    TriggerAcceptOutcome,
    RepoErrorView,
> {
    if n != 1 {
        Err(
            RepoErrorView::Conflict(
                "fire "@ + record.fire_key@ + " of trigger "@ + record.trigger_id@
                    + " was recorded concurrently"@,
            ),
        )
    } else if fail {
        Err(
            RepoErrorView::Store(
                "failpoint accept.before_commit: the transaction is rolled back"@,
            ),
        )
    } else {
        Ok(TriggerAcceptOutcome::Accepted)
    }
}

/// What writing the record of an accepted fire as `n` new rows comes to, when
/// a failpoint may ask for it to be rolled back before it commits.
pub fn fire_written(n: usize, record: &FireRecord, fail: bool) -> (r: Result<
    TriggerAcceptOutcome,
    RepoError,
>)
    ensures
        crate::repository::agrees(r, fire_commit_rule(n, *record, fail)),
{
    if n != 1 {
        let mut m = text::owned("fire ");
        m.append(record.fire_key.as_str());
        m.append(" of trigger ");
        m.append(record.trigger_id.as_str());
        m.append(" was recorded concurrently");
        return Err(RepoError::Conflict(m));
    }
    if fail {
        return Err(
            RepoError::Store(
                text::owned("failpoint accept.before_commit: the transaction is rolled back"),
            ),
        );
    }
    Ok(TriggerAcceptOutcome::Accepted)
}

/// The fire was recorded before the time of its kind.
pub open spec fn purgeable(
    fire: FireRecord,
    webhook_before: Timestamp,
    cron_before: Timestamp,
) -> bool {
    match fire.kind {
        TriggerKind::Webhook => fire.created_at < webhook_before,
        TriggerKind::Cron => fire.created_at < cron_before,
    }
}

/// Whether a fire is past the retention of its kind.
pub fn is_purgeable(fire: &FireRecord, webhook_before: Timestamp, cron_before: Timestamp) -> (r:
    bool)
    ensures
        r == purgeable(*fire, webhook_before, cron_before),
{
    match fire.kind {
        TriggerKind::Webhook => fire.created_at < webhook_before,
        TriggerKind::Cron => fire.created_at < cron_before,
    }
}

// ---------------------------------------------------------------------------
// the scheduler
// ---------------------------------------------------------------------------
/// `owner` may take the scheduler's lease: nobody holds it, or the caller
/// does, or it expired, or its holder stopped or was reclaimed.
pub open spec fn may_take(
    current: Option<SchedulerLease>,
    owner: Seq<char>,
    now: Timestamp,
    holder_gone: bool,
) -> bool {
    match current {
        None => true,
        Some(l) => l.owner_id@ == owner || l.expires_at <= now || holder_gone,
    }
}

/// Whether another live dispatcher holds the scheduler's lease. The answer of
/// a read that asks for no write; the write decides again.
pub fn held_by_another(
    current: &Option<SchedulerLease>,
    owner: &str,
    now: Timestamp,
    holder_gone: bool,
) -> (r: bool)
    ensures
        r == !may_take(*current, owner@, now, holder_gone),
{
    match current {
        None => false,
        Some(l) => !text::same_text(l.owner_id.as_str(), owner) && l.expires_at > now
            && !holder_gone,
    }
}

/// The lease that an owner gets, where it may take it.
pub open spec fn scheduler_lease(
    current: Option<SchedulerLease>,
    owner: String,
    now: Timestamp,
    ttl: Span,
    holder_gone: bool,
) -> Option<SchedulerLease> {
    if may_take(current, owner@, now, holder_gone) {
        Some(
            SchedulerLease {
                owner_id: owner,
                acquired_at: if current is Some && current->0.owner_id@ == owner@ {
                    current->0.acquired_at
                } else {
                    now
                },
                expires_at: time::after(now, ttl),
            },
        )
    } else {
        None
    }
}

/// The scheduler's lease once `owner` holds it until `now + ttl`, or `None`
/// where another live dispatcher does. A renewal keeps the time since which
/// the owner holds it.
pub fn acquire_scheduler_lease(
    current: Option<SchedulerLease>,
    owner: &String,
    now: Timestamp,
    ttl: Span,
    holder_gone: bool,
) -> (r: Option<SchedulerLease>)
    requires
        time::in_reach(now, ttl),
    ensures
        r == scheduler_lease(current, *owner, now, ttl, holder_gone),
{
    let acquired_at: Timestamp = match &current {
        None => now,
        Some(l) => {
            let own = text::same_text(l.owner_id.as_str(), owner.as_str());
            if !own && l.expires_at > now && !holder_gone {
                return None;
            }
            if own {
                l.acquired_at
            } else {
                now
            }
        },
    };
    Some(SchedulerLease { owner_id: owner.clone(), acquired_at, expires_at: time::plus(now, ttl) })
}

/// Whether a release by `owner` drops the lease: only its holder's does.
pub fn releases(current: &SchedulerLease, owner: &str) -> (r: bool)
    ensures
        r == (current.owner_id@ == owner@),
{
    text::same_text(current.owner_id.as_str(), owner)
}

// ---------------------------------------------------------------------------
// laws
// ---------------------------------------------------------------------------
/// A trigger fires once per key and once per signed delivery.
pub proof fn law_a_trigger_fires_once(
    inv: Invocation,
    input: AsyncInput,
    event: OutboxEvent,
    object_created_at_ms: u64,
    claim: FireClaim,
    rows: FireRows,
)
    requires
        rows.fired is Some || (claim.record.signature_digest is Some && rows.signed is Some),
    ensures
        fire_accept_rule(inv, input, event, object_created_at_ms, claim, rows) != Ok::<
            TriggerAcceptOutcome,
            RepoErrorView,
        >(TriggerAcceptOutcome::Accepted),
{
}

/// A fire is an acceptance: whatever fires would have been accepted as it is,
/// by an enabled trigger of the same tenant and function.
pub proof fn law_a_fire_is_an_acceptance(
    inv: Invocation,
    input: AsyncInput,
    event: OutboxEvent,
    object_created_at_ms: u64,
    claim: FireClaim,
    rows: FireRows,
)
    requires
        fire_accept_rule(inv, input, event, object_created_at_ms, claim, rows) == Ok::<
            TriggerAcceptOutcome,
            RepoErrorView,
        >(TriggerAcceptOutcome::Accepted),
    ensures
        outbox::check_accept_rule(inv, input, event, object_created_at_ms) is Ok,
        outbox::accept_rule(inv, input, rows.accept) == Ok::<AsyncAcceptOutcome, RepoErrorView>(
            AsyncAcceptOutcome::Accepted,
        ),
        rows.trigger is Some,
        rows.trigger->0.status is Enabled,
        rows.trigger->0.tenant_id@ == inv.tenant_id@,
        rows.trigger->0.function_id@ == inv.function_id@,
{
}

/// A deleted trigger is never written again.
pub proof fn law_a_deleted_trigger_stays_deleted(
    trigger: Trigger,
    expected_generation: u64,
    stored: Trigger,
    new_secret: bool,
    next_fire_at: Timestamp,
    last_scheduled_at: Option<Timestamp>,
)
    requires
        stored.status is Deleted,
    ensures
        !(update_rule(trigger, expected_generation, Some(&stored), new_secret) is Ok
            && update_rule(trigger, expected_generation, Some(&stored), new_secret)->Ok_0 is Some),
        advanced(Some(stored), expected_generation, next_fire_at, last_scheduled_at) is None,
{
}

/// Of two updates from the same generation one wins: the winner's generation
/// is not what the other one expects.
pub proof fn law_one_update_per_generation(
    first: Trigger,
    second: Trigger,
    expected_generation: u64,
    stored: Trigger,
    new_secret: bool,
)
    requires
        update_rule(first, expected_generation, Some(&stored), new_secret) is Ok,
        update_rule(first, expected_generation, Some(&stored), new_secret)->Ok_0 is Some,
    ensures
        !(update_rule(second, expected_generation, Some(&first), new_secret) is Ok && update_rule(
            second,
            expected_generation,
            Some(&first),
            new_secret,
        )->Ok_0 is Some),
{
}

/// The cursor of a schedule only moves forwards.
pub proof fn law_the_cursor_never_moves_back(
    stored: Trigger,
    generation: u64,
    next_fire_at: Timestamp,
    last_scheduled_at: Option<Timestamp>,
)
    requires
        advanced(Some(stored), generation, next_fire_at, last_scheduled_at) is Some,
    ensures
        ({
            let t = advanced(Some(stored), generation, next_fire_at, last_scheduled_at)->0;
            &&& t.next_fire_at is Some
            &&& (stored.next_fire_at is Some ==> stored.next_fire_at->0 <= t.next_fire_at->0)
            &&& (stored.last_scheduled_at is Some ==> t.last_scheduled_at is Some
                && stored.last_scheduled_at->0 <= t.last_scheduled_at->0)
        }),
{
}

/// One dispatcher runs the schedules: while a live holder's lease has not
/// expired, nobody else takes it.
pub proof fn law_one_scheduler_at_a_time(lease: SchedulerLease, other: Seq<char>, now: Timestamp)
    requires
        other != lease.owner_id@,
        now < lease.expires_at,
    ensures
        !may_take(Some(lease), other, now, false),
        may_take(Some(lease), lease.owner_id@, now, false),
{
}

} // verus!
