//! Asynchronous acceptance and the outbox: what each transaction decides from
//! the rows it read and what it writes.

use vstd::prelude::*;

use crate::domain::function::Function;
use crate::domain::invocation::Invocation;
use crate::repository::objects;
use crate::repository::outbox::{
    AsyncAcceptOutcome, AsyncInput, AsyncInputBody, BacklogLimits, ObjectRef, OutboxEvent,
    OutboxStats,
};
use crate::repository::sqlite;
use crate::repository::{IdempotencyBinding, RepoError, RepoErrorView};
use crate::text;
use crate::time;
use crate::time::{Span, Timestamp};

verus! {

/// Longest error kept on an outbox row, in bytes.
pub const MAX_ERROR_BYTES: usize = 512;

// ---------------------------------------------------------------------------
// rows
// ---------------------------------------------------------------------------
/// The columns of an outbox row.
#[derive(Debug, PartialEq, Eq)]
pub struct EventColumns {
    pub event_id: String,
    pub tenant_id: String,
    pub topic: String,
    pub payload: String,
    pub created_at: String,
    pub sent_at: Option<String>,
    pub publish_attempts: i64,
    pub next_attempt_at: String,
    pub claimed_by: Option<String>,
    pub claim_expires_at: Option<String>,
    pub last_error: Option<String>,
    pub queue_sequence: Option<i64>,
    pub generation: i64,
}

/// A count of publish attempts as a column keeps it. What is no count at all
/// is read as the largest one.
pub open spec fn attempts_of(v: i64) -> u32 {
    if 0 <= v <= u32::MAX {
        v as u32
    } else {
        u32::MAX
    }
}

/// The event a row holds, or the first column that cannot be read.
pub open spec fn event_rule(raw: EventColumns) -> Result<OutboxEvent, RepoErrorView> {
    match time::parsed_ts(raw.created_at@) {
        Err(e) => Err(e),
        Ok(created_at) => match time::parsed_opt_ts(text::opt_view(raw.sent_at)) {
            Err(e) => Err(e),
            Ok(sent_at) => match time::parsed_ts(raw.next_attempt_at@) {
                Err(e) => Err(e),
                Ok(next_attempt_at) => match time::parsed_opt_ts(
                    text::opt_view(raw.claim_expires_at),
                ) {
                    Err(e) => Err(e),
                    Ok(claim_expires_at) => Ok(
                        OutboxEvent {
                            event_id: raw.event_id,
                            tenant_id: raw.tenant_id,
                            topic: raw.topic,
                            payload: raw.payload,
                            created_at,
                            sent_at,
                            publish_attempts: attempts_of(raw.publish_attempts),
                            next_attempt_at,
                            claimed_by: raw.claimed_by,
                            claim_expires_at,
                            last_error: raw.last_error,
                            queue_sequence: match raw.queue_sequence {
                                Some(s) => Some(sqlite::spec_unsigned(s) as u64),
                                None => None,
                            },
                            generation: if raw.generation < 0 {
                                0
                            } else {
                                raw.generation as u64
                            },
                        },
                    ),
                },
            },
        },
    }
}

/// The event a row holds.
pub fn event_of(raw: EventColumns) -> (r: Result<OutboxEvent, RepoError>)
    ensures
        crate::repository::agrees(r, event_rule(raw)),
{
    let created_at: Timestamp = match time::parse_ts(raw.created_at.as_str()) {
        Ok(t) => t,
        Err(e) => return Err(e),
    };
    let sent_at = match time::parse_opt_ts(&raw.sent_at) {
        Ok(t) => t,
        Err(e) => return Err(e),
    };
    let next_attempt_at: Timestamp = match time::parse_ts(raw.next_attempt_at.as_str()) {
        Ok(t) => t,
        Err(e) => return Err(e),
    };
    let claim_expires_at = match time::parse_opt_ts(&raw.claim_expires_at) {
        Ok(t) => t,
        Err(e) => return Err(e),
    };
    Ok(
        OutboxEvent {
            event_id: raw.event_id,
            tenant_id: raw.tenant_id,
            topic: raw.topic,
            payload: raw.payload,
            created_at,
            sent_at,
            publish_attempts: if 0 <= raw.publish_attempts && raw.publish_attempts
                <= u32::MAX as i64 {
                raw.publish_attempts as u32
            } else {
                u32::MAX
            },
            next_attempt_at,
            claimed_by: raw.claimed_by,
            claim_expires_at,
            last_error: raw.last_error,
            queue_sequence: match raw.queue_sequence {
                Some(s) => Some(sqlite::unsigned(s)),
                None => None,
            },
            generation: if raw.generation < 0 {
                0
            } else {
                raw.generation as u64
            },
        },
    )
}

/// Every instant of an event is one that dates can name.
pub open spec fn dated(e: OutboxEvent) -> bool {
    &&& time::in_calendar(e.created_at)
    &&& time::opt_in_calendar(e.sent_at)
    &&& time::in_calendar(e.next_attempt_at)
    &&& time::opt_in_calendar(e.claim_expires_at)
}

/// Every instant of an event is in a year of four digits.
pub open spec fn four_digits(e: OutboxEvent) -> bool {
    &&& time::four_digit_year(e.created_at)
    &&& (e.sent_at is Some ==> time::four_digit_year(e.sent_at->0))
    &&& time::four_digit_year(e.next_attempt_at)
    &&& (e.claim_expires_at is Some ==> time::four_digit_year(e.claim_expires_at->0))
}

/// The columns an event is written into.
pub open spec fn written_as(e: OutboxEvent, c: EventColumns) -> bool {
    &&& c.event_id@ == e.event_id@
    &&& c.tenant_id@ == e.tenant_id@
    &&& c.topic@ == e.topic@
    &&& c.payload@ == e.payload@
    &&& c.created_at@ == time::ts_text(e.created_at)
    &&& text::opt_view(c.sent_at) == time::opt_ts_text(e.sent_at)
    &&& c.publish_attempts == e.publish_attempts
    &&& c.next_attempt_at@ == time::ts_text(e.next_attempt_at)
    &&& text::opt_view(c.claimed_by) == text::opt_view(e.claimed_by)
    &&& text::opt_view(c.claim_expires_at) == time::opt_ts_text(e.claim_expires_at)
    &&& text::opt_view(c.last_error) == text::opt_view(e.last_error)
    &&& match (c.queue_sequence, e.queue_sequence) {
        (Some(a), Some(b)) => a == b,
        (None, None) => true,
        _ => false,
    }
    &&& c.generation == e.generation
}

/// The columns of an event. A queue sequence or a generation that no column
/// holds is refused; whatever is written is read back as the event it was
/// written for.
pub fn event_columns(event: &OutboxEvent) -> (r: Result<EventColumns, RepoError>)
    requires
        dated(*event),
    ensures
        r is Ok <==> (event.queue_sequence is Some ==> event.queue_sequence->0
            <= sqlite::BIGINT_MAX) && event.generation <= sqlite::BIGINT_MAX,
        r is Ok ==> written_as(*event, r->Ok_0),
        r is Ok && four_digits(*event) ==> event_rule(r->Ok_0) == Ok::<OutboxEvent, RepoErrorView>(
            *event,
        ),
        r is Err ==> r->Err_0@ == if event.queue_sequence is Some && event.queue_sequence->0
            > sqlite::BIGINT_MAX {
            sqlite::too_big("queue sequence"@, event.queue_sequence->0 as nat)
        } else {
            sqlite::too_big("outbox generation"@, event.generation as nat)
        },
{
    let queue_sequence: Option<i64> = match event.queue_sequence {
        Some(s) => match sqlite::big(s, "queue sequence") {
            Ok(v) => Some(v),
            Err(e) => return Err(e),
        },
        None => None,
    };
    let generation: i64 = match sqlite::big(event.generation, "outbox generation") {
        Ok(v) => v,
        Err(e) => return Err(e),
    };
    Ok(
        EventColumns {
            event_id: event.event_id.clone(),
            tenant_id: event.tenant_id.clone(),
            topic: event.topic.clone(),
            payload: event.payload.clone(),
            created_at: time::ts(&event.created_at),
            sent_at: time::opt_ts(&event.sent_at),
            publish_attempts: event.publish_attempts as i64,
            next_attempt_at: time::ts(&event.next_attempt_at),
            claimed_by: text::clone_opt(&event.claimed_by),
            claim_expires_at: time::opt_ts(&event.claim_expires_at),
            last_error: text::clone_opt(&event.last_error),
            queue_sequence,
            generation,
        },
    )
}

/// The columns of an input row.
#[derive(PartialEq, Eq)]
pub struct InputColumns {
    pub tenant_id: String,
    pub storage: String,
    pub size_bytes: i64,
    pub digest: String,
    pub inline_body: Option<Vec<u8>>,
    pub object_id: Option<String>,
    pub region: Option<String>,
}

/// The columns hold an inline body and nothing of an object.
pub open spec fn is_inline(raw: InputColumns) -> bool {
    raw.storage@ == "inline"@ && raw.inline_body is Some && raw.object_id is None && raw.region is None
}

/// The columns name an object and hold no inline body.
pub open spec fn is_object(raw: InputColumns) -> bool {
    raw.storage@ == "object"@ && raw.inline_body is None && raw.object_id is Some
        && raw.region is Some
}

/// The input a row holds: exactly one of an inline body and an object, as its
/// storage says.
pub open spec fn input_rule(invocation: String, raw: InputColumns) -> Result<
    AsyncInput,
    RepoErrorView,
> {
    let input = AsyncInput {
        invocation_id: invocation,
        tenant_id: raw.tenant_id,
        size_bytes: sqlite::spec_unsigned(raw.size_bytes) as u64,
        digest: raw.digest,
        body: if is_inline(raw) {
            AsyncInputBody::Inline(raw.inline_body->0)
        } else {
            AsyncInputBody::Object(
                ObjectRef {
                    id: raw.object_id->0,
                    tenant_id: raw.tenant_id,
                    region: raw.region->0,
                },
            )
        },
    };
    if is_inline(raw) || is_object(raw) {
        Ok(input)
    } else {
        Err(
            RepoErrorView::Serialization(
                "invocation_inputs row of "@ + invocation@ + " is inconsistent"@,
            ),
        )
    }
}

/// The input a row of `invocation` holds.
pub fn input_of(invocation: String, raw: InputColumns) -> (r: Result<AsyncInput, RepoError>)
    ensures
        crate::repository::agrees(r, input_rule(invocation, raw)),
{
    proof {
        reveal_strlit("inline");
        reveal_strlit("object");
        assert("inline"@[0] != "object"@[0]);
    }
    let inline = text::same_text(raw.storage.as_str(), "inline");
    let object = text::same_text(raw.storage.as_str(), "object");
    let body = match (raw.inline_body, raw.object_id, raw.region) {
        (Some(bytes), None, None) => if inline {
            Some(AsyncInputBody::Inline(bytes))
        } else {
            None
        },
        (None, Some(id), Some(region)) => if object {
            Some(
                AsyncInputBody::Object(
                    ObjectRef { id, tenant_id: raw.tenant_id.clone(), region },
                ),
            )
        } else {
            None
        },
        _ => None,
    };
    match body {
        Some(body) => Ok(
            AsyncInput {
                invocation_id: invocation,
                tenant_id: raw.tenant_id,
                size_bytes: sqlite::unsigned(raw.size_bytes),
                digest: raw.digest,
                body,
            },
        ),
        None => {
            let mut m = text::owned("invocation_inputs row of ");
            m.append(invocation.as_str());
            m.append(" is inconsistent");
            Err(RepoError::Serialization(m))
        },
    }
}

/// The columns an input is written into.
pub open spec fn input_written_as(input: AsyncInput, c: InputColumns) -> bool {
    &&& c.tenant_id@ == input.tenant_id@
    &&& c.size_bytes == input.size_bytes
    &&& c.digest@ == input.digest@
    &&& match input.body {
        AsyncInputBody::Inline(bytes) => {
            &&& is_inline(c)
            &&& c.inline_body->0@ == bytes@
        },
        AsyncInputBody::Object(o) => {
            &&& is_object(c)
            &&& c.object_id->0@ == o.id@
            &&& c.region->0@ == o.region@
        },
    }
}

/// The columns of an input, or the size that no column holds.
pub fn input_columns(input: &AsyncInput) -> (r: Result<InputColumns, RepoError>)
    ensures
        r is Ok <==> input.size_bytes <= sqlite::BIGINT_MAX,
        r is Ok ==> input_written_as(*input, r->Ok_0),
        r is Err ==> r->Err_0@ == sqlite::too_big("input size"@, input.size_bytes as nat),
{
    let size_bytes: i64 = match sqlite::big(input.size_bytes, "input size") {
        Ok(v) => v,
        Err(e) => return Err(e),
    };
    let (inline_body, object_id, region) = match &input.body {
        AsyncInputBody::Inline(bytes) => (Some(bytes.clone()), None, None),
        AsyncInputBody::Object(o) => (None, Some(o.id.clone()), Some(o.region.clone())),
    };
    let c = InputColumns {
        tenant_id: input.tenant_id.clone(),
        storage: text::owned(input.storage()),
        size_bytes,
        digest: input.digest.clone(),
        inline_body,
        object_id,
        region,
    };
    proof {
        if input.body is Inline {
            assert(c.inline_body->0@ =~= input.body->Inline_0@);
        }
    }
    Ok(c)
}

/// What is read back from the columns of an input is that input: its body,
/// its size and its digest.
pub proof fn law_an_input_is_read_back(input: AsyncInput, c: InputColumns)
    requires
        input_written_as(input, c),
        input.body is Object ==> input.body->Object_0.tenant_id@ == input.tenant_id@,
    ensures
        input_rule(input.invocation_id, c) is Ok,
        ({
            let read = input_rule(input.invocation_id, c)->Ok_0;
            &&& read.invocation_id == input.invocation_id
            &&& read.tenant_id@ == input.tenant_id@
            &&& read.size_bytes == input.size_bytes
            &&& read.digest@ == input.digest@
            &&& match (read.body, input.body) {
                (AsyncInputBody::Inline(a), AsyncInputBody::Inline(b)) => a@ == b@,
                (AsyncInputBody::Object(a), AsyncInputBody::Object(b)) => a.same(b),
                _ => false,
            }
        }),
{
    reveal_strlit("inline");
    reveal_strlit("object");
    assert("inline"@[0] != "object"@[0]);
}

// ---------------------------------------------------------------------------
// acceptance
// ---------------------------------------------------------------------------
/// Input, event and invocation name the same invocation, tenant and digest.
pub open spec fn fits(inv: Invocation, input: AsyncInput, event: OutboxEvent) -> bool {
    &&& input.invocation_id@ == inv.id@
    &&& event.event_id@ == inv.id@
    &&& input.tenant_id@ == inv.tenant_id@
    &&& event.tenant_id@ == inv.tenant_id@
    &&& input.digest@ == inv.input_digest@
    &&& input.size_bytes == inv.input_size_bytes
}

/// What the arguments of an acceptance must hold to.
pub open spec fn check_accept_rule(
    inv: Invocation,
    input: AsyncInput,
    event: OutboxEvent,
    object_created_at_ms: u64,
) -> Result<(), RepoErrorView> {
    if !fits(inv, input, event) {
        Err(
            RepoErrorView::Refused(
                "input, outbox event and invocation must name the same invocation, tenant and digest"@,
            ),
        )
    } else {
        match input.body {
            AsyncInputBody::Object(o) => objects::attachable_rule(
                o.id@,
                object_created_at_ms,
                inv.accepted_at,
            ),
            AsyncInputBody::Inline(_) => Ok(()),
        }
    }
}

/// The argument checks of an acceptance. `object_created_at_ms` is when the
/// input object, if it is one, was created.
pub fn check_accept(
    inv: &Invocation,
    input: &AsyncInput,
    event: &OutboxEvent,
    object_created_at_ms: u64,
) -> (r: Result<(), RepoError>)
    requires
        time::in_calendar(inv.accepted_at),
        time::in_reach(inv.accepted_at, (-objects::TOMBSTONE_RETENTION) as Span),
    ensures
        crate::repository::agrees(
            r,
            check_accept_rule(*inv, *input, *event, object_created_at_ms),
        ),
{
    let id = inv.id.as_str();
    let tenant = inv.tenant_id.as_str();
    if !(text::same_text(input.invocation_id.as_str(), id) && text::same_text(
        event.event_id.as_str(),
        id,
    ) && text::same_text(input.tenant_id.as_str(), tenant) && text::same_text(
        event.tenant_id.as_str(),
        tenant,
    ) && text::same_text(input.digest.as_str(), inv.input_digest.as_str()) && input.size_bytes
        == inv.input_size_bytes) {
        return Err(
            RepoError::Refused(
                text::owned(
                    "input, outbox event and invocation must name the same invocation, tenant and digest",
                ),
            ),
        );
    }
    match &input.body {
        AsyncInputBody::Object(o) => objects::check_attachable(
            o.id.as_str(),
            object_created_at_ms,
            inv.accepted_at,
        ),
        AsyncInputBody::Inline(_) => Ok(()),
    }
}

/// What the transaction of an acceptance read.
#[derive(Debug, PartialEq, Eq)]
pub struct AcceptRows {
    /// The live binding of the invocation's key.
    pub binding: Option<IdempotencyBinding>,
    pub stats: OutboxStats,
    pub backlog: BacklogLimits,
    /// The invocation's id is taken.
    pub exists: bool,
    pub function: Option<Function>,
    /// Largest inline output, in bytes.
    pub max_inline: u64,
    /// The reason for which the input object, if it is one, is being
    /// collected.
    pub tombstone: Option<String>,
}

/// The function an acceptance read.
pub open spec fn function_of(rows: &AcceptRows) -> Option<&Function> {
    match &rows.function {
        Some(f) => Some(f),
        None => None,
    }
}

/// What an acceptance comes to. Idempotency comes first, so that a replay
/// answers even under backlog; then the bound of the outbox; then the
/// invocation and, where the input is an object, its reference.
pub open spec fn accept_rule(inv: Invocation, input: AsyncInput, rows: AcceptRows) -> Result<
    AsyncAcceptOutcome,
    RepoErrorView,
> {
    if inv.idempotency_key is Some && rows.binding is Some {
        Ok(AsyncAcceptOutcome::Existing(rows.binding->0))
    } else if rows.stats.over(rows.backlog, inv.accepted_at) {
        Ok(AsyncAcceptOutcome::Backlog(rows.stats))
    } else {
        match sqlite::insert_rule(rows.exists, function_of(&rows), inv, rows.max_inline) {
            Err(e) => Err(e),
            Ok(_) => {
                let attached = match input.body {
                    AsyncInputBody::Object(o) => objects::attach_rule(
                        o,
                        inv.id@,
                        Some(&inv),
                        text::opt_view(rows.tombstone),
                    ),
                    AsyncInputBody::Inline(_) => Ok(()),
                };
                if attached is Err {
                    Err(attached->Err_0)
                } else if input.size_bytes > sqlite::BIGINT_MAX {
                    Err(sqlite::too_big("input size"@, input.size_bytes as nat))
                } else {
                    Ok(AsyncAcceptOutcome::Accepted)
                }
            },
        }
    }
}

/// Decide an acceptance. One that is accepted writes the invocation, its key,
/// its input, the object's reference and the event.
pub fn accept_in(inv: &Invocation, input: &AsyncInput, rows: &AcceptRows) -> (r: Result<
    AsyncAcceptOutcome,
    RepoError,
>)
    requires
        time::in_calendar(inv.accepted_at),
        time::opt_in_calendar(rows.stats.oldest_pending_at),
    ensures
        crate::repository::agrees(r, accept_rule(*inv, *input, *rows)),
{
    if inv.idempotency_key.is_some() {
        if let Some(existing) = &rows.binding {
            return Ok(AsyncAcceptOutcome::Existing(existing.clone()));
        }
    }
    if rows.stats.exceeds(&rows.backlog, inv.accepted_at) {
        return Ok(AsyncAcceptOutcome::Backlog(rows.stats));
    }
    let function = match &rows.function {
        Some(f) => Some(f),
        None => None,
    };
    match sqlite::insert_invocation_checked(rows.exists, function, inv, rows.max_inline) {
        Ok(_) => {},
        Err(e) => return Err(e),
    }
    if let AsyncInputBody::Object(o) = &input.body {
        match objects::check_attach(o, inv.id.as_str(), Some(inv), &rows.tombstone) {
            Ok(_) => {},
            Err(e) => return Err(e),
        }
    }
    match sqlite::big(input.size_bytes, "input size") {
        Ok(_) => {},
        Err(e) => return Err(e),
    }
    Ok(AsyncAcceptOutcome::Accepted)
}

/// What comes of an acceptance when the transaction is to fail before it
/// commits.
pub open spec fn commit_rule(outcome: AsyncAcceptOutcome, fail: bool) -> Result<
    AsyncAcceptOutcome,
    RepoErrorView,
> {
    if outcome is Accepted && fail {
        Err(
            RepoErrorView::Store(
                "failpoint accept.before_commit: the transaction is rolled back"@,
            ),
        )
    } else {
        Ok(outcome)
    }
}

/// What an acceptance is answered when a failpoint asks for it to be rolled
/// back before it commits.
pub fn before_commit(outcome: AsyncAcceptOutcome, fail: bool) -> (r: Result<
    AsyncAcceptOutcome,
    RepoError,
>)
    ensures
        crate::repository::agrees(r, commit_rule(outcome, fail)),
{
    match outcome {
        AsyncAcceptOutcome::Accepted => if fail {
            Err(
                RepoError::Store(
                    text::owned("failpoint accept.before_commit: the transaction is rolled back"),
                ),
            )
        } else {
            Ok(AsyncAcceptOutcome::Accepted)
        },
        other => Ok(other),
    }
}

/// A replay of a bound key is answered with its binding, whatever the
/// backlog, and writes nothing.
pub proof fn law_a_replay_answers_even_under_backlog(
    inv: Invocation,
    input: AsyncInput,
    rows: AcceptRows,
)
    requires
        inv.idempotency_key is Some,
        rows.binding is Some,
    ensures
        accept_rule(inv, input, rows) == Ok::<AsyncAcceptOutcome, RepoErrorView>(
            AsyncAcceptOutcome::Existing(rows.binding->0),
        ),
{
}

/// Nothing is accepted over the bound of the outbox.
pub proof fn law_the_backlog_is_bounded(inv: Invocation, input: AsyncInput, rows: AcceptRows)
    requires
        accept_rule(inv, input, rows) == Ok::<AsyncAcceptOutcome, RepoErrorView>(
            AsyncAcceptOutcome::Accepted,
        ),
    ensures
        rows.stats.pending < rows.backlog.max_pending,
        rows.stats.oldest_pending_at is Some ==> time::since(
            inv.accepted_at,
            rows.stats.oldest_pending_at->0,
        ) < rows.backlog.max_pending_age,
{
}

// ---------------------------------------------------------------------------
// publishing
// ---------------------------------------------------------------------------
/// An event once `owner` claimed it until `expires`.
pub open spec fn claimed_event(e: OutboxEvent, owner: String, expires: Timestamp) -> OutboxEvent {
    OutboxEvent {
        claimed_by: Some(owner),
        claim_expires_at: Some(expires),
        publish_attempts: if e.publish_attempts == u32::MAX {
            u32::MAX
        } else {
            (e.publish_attempts + 1) as u32
        },
        ..e
    }
}

/// The first `max` of the first `n` events that may be claimed, claimed.
pub open spec fn claimed_of(
    rows: Seq<OutboxEvent>,
    n: nat,
    owner: String,
    now: Timestamp,
    expires: Timestamp,
    max: nat,
) -> Seq<OutboxEvent>
    decreases n,
{
    if n == 0 {
        Seq::empty()
    } else {
        let head = claimed_of(rows, (n - 1) as nat, owner, now, expires, max);
        if head.len() < max && rows[n - 1].claimable(now) {
            head.push(claimed_event(rows[n - 1], owner, expires))
        } else {
            head
        }
    }
}

/// Claim up to `max` due, unsent events that nobody holds for `owner` until
/// `now + ttl`, in the order of `rows`. Counts one publish attempt each.
pub fn claim_outbox(
    rows: Vec<OutboxEvent>,
    owner: &String,
    now: Timestamp,
    ttl: Span,
    max: usize,
) -> (r: Vec<OutboxEvent>)
    requires
        time::in_reach(now, ttl),
    ensures
        r@ == claimed_of(
            rows@,
            rows@.len(),
            *owner,
            now,
            time::after(now, ttl),
            max as nat,
        ),
{
    let ghost all = rows@;
    let mut out: Vec<OutboxEvent> = Vec::new();
    for e in it: rows.into_iter()
        invariant
            time::in_reach(now, ttl),
            it.seq() == all,
            out@ == claimed_of(
                all,
                it.index() as nat,
                *owner,
                now,
                time::after(now, ttl),
                max as nat,
            ),
    {
        assert(e == all[it.index() as int]);
        if out.len() < max && e.is_claimable(now) {
            let mut e = e;
            e.claimed_by = Some(owner.clone());
            e.claim_expires_at = Some(time::plus(now, ttl));
            e.publish_attempts = if e.publish_attempts == u32::MAX {
                u32::MAX
            } else {
                e.publish_attempts + 1
            };
            out.push(e);
        }
    }
    out
}

/// The event once it is sent, where its claimant says so.
pub open spec fn sent_rule(
    event: Option<OutboxEvent>,
    owner: Seq<char>,
    sequence: u64,
    now: Timestamp,
) -> Result<Option<OutboxEvent>, RepoErrorView> {
    if sequence > sqlite::BIGINT_MAX {
        Err(sqlite::too_big("queue sequence"@, sequence as nat))
    } else if event is Some && event->0.held_by(owner) {
        Ok(
            Some(
                OutboxEvent {
                    sent_at: Some(now),
                    queue_sequence: Some(sequence),
                    claimed_by: None,
                    claim_expires_at: None,
                    last_error: None,
                    ..event->0
                },
            ),
        )
    } else {
        Ok(None)
    }
}

/// The event once it was published at `now` under `sequence`, or `None` where
/// the claim is no longer `owner`'s or the event was already sent. A sequence
/// that no column holds is refused.
pub fn mark_outbox_sent(event: Option<OutboxEvent>, owner: &str, sequence: u64, now: Timestamp) -> (r:
    Result<Option<OutboxEvent>, RepoError>)
    ensures
        crate::repository::agrees(r, sent_rule(event, owner@, sequence, now)),
{
    match sqlite::big(sequence, "queue sequence") {
        Ok(_) => {},
        Err(e) => return Err(e),
    }
    match event {
        Some(e) => if e.is_held_by(owner) {
            let mut e = e;
            e.sent_at = Some(now);
            e.queue_sequence = Some(sequence);
            e.claimed_by = None;
            e.claim_expires_at = None;
            e.last_error = None;
            Ok(Some(e))
        } else {
            Ok(None)
        },
        None => Ok(None),
    }
}

/// `r` is the event once it is given back to be tried again, where its claimant
/// says so.
pub open spec fn retried(
    event: Option<OutboxEvent>,
    owner: Seq<char>,
    next_attempt_at: Timestamp,
    error: Seq<char>,
    r: Option<OutboxEvent>,
) -> bool {
    &&& r is Some <==> event is Some && event->0.held_by(owner)
    &&& r is Some ==> ({
        &&& r->0.last_error is Some
        &&& r->0.last_error->0@ == text::cut_text(error, MAX_ERROR_BYTES as nat)
        &&& r->0 == (OutboxEvent {
            claimed_by: None,
            claim_expires_at: None,
            next_attempt_at,
            last_error: r->0.last_error,
            ..event->0
        })
    })
}

/// The event after a failed publish, due again at `next_attempt_at` with the
/// error cut to what is kept of it, or `None` where the claim is no longer
/// `owner`'s.
pub fn retry_outbox(
    event: Option<OutboxEvent>,
    owner: &str,
    next_attempt_at: Timestamp,
    error: &str,
) -> (r: Option<OutboxEvent>)
    ensures
        retried(event, owner@, next_attempt_at, error@, r),
{
    match event {
        Some(e) => if e.is_held_by(owner) {
            let mut e = e;
            e.claimed_by = None;
            e.claim_expires_at = None;
            e.next_attempt_at = next_attempt_at;
            e.last_error = Some(text::truncate(error, MAX_ERROR_BYTES));
            Some(e)
        } else {
            None
        },
        None => None,
    }
}

/// The event was sent before a time.
pub open spec fn purgeable(event: OutboxEvent, before: Timestamp) -> bool {
    event.sent_at is Some && event.sent_at->0 < before
}

/// Whether a sent event is past its retention.
pub fn is_purgeable(event: &OutboxEvent, before: Timestamp) -> (r: bool)
    ensures
        r == purgeable(*event, before),
{
    match event.sent_at {
        Some(t) => t < before,
        None => false,
    }
}

/// A row is handed to one publisher at a time: what was claimed is not
/// claimable until the claim expires, and nobody else can mark it sent.
pub proof fn law_one_publisher_at_a_time(
    event: OutboxEvent,
    owner: String,
    now: Timestamp,
    expires: Timestamp,
    later: Timestamp,
    other: Seq<char>,
)
    requires
        event.claimable(now),
        later < expires,
        other != owner@,
    ensures
        !claimed_event(event, owner, expires).claimable(later),
        claimed_event(event, owner, expires).held_by(owner@),
        !claimed_event(event, owner, expires).held_by(other),
{
}

/// At most `max` events are claimed, and each was claimable.
pub proof fn law_a_claim_is_bounded(
    rows: Seq<OutboxEvent>,
    n: nat,
    owner: String,
    now: Timestamp,
    expires: Timestamp,
    max: nat,
)
    requires
        n <= rows.len(),
    ensures
        claimed_of(rows, n, owner, now, expires, max).len() <= max,
        claimed_of(rows, n, owner, now, expires, max).len() <= n,
        forall|i: int|
            0 <= i < claimed_of(rows, n, owner, now, expires, max).len() ==> (
            #[trigger] claimed_of(rows, n, owner, now, expires, max)[i]).held_by(owner@),
    decreases n,
{
    if n > 0 {
        law_a_claim_is_bounded(rows, (n - 1) as nat, owner, now, expires, max);
    }
}

} // verus!
