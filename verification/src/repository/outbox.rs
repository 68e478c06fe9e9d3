//! Asynchronous acceptance and the transactional outbox.
//!
//! An acceptance is one transaction: the invocation row, its idempotency
//! binding, its input and the outbox event. Publishing is claim, publish,
//! mark: a claim hands due rows to exactly one publisher, marking a row sent
//! is a compare-and-set on that claim, and a retry releases it with a backoff.

use vstd::prelude::*;

use crate::repository::IdempotencyBinding;
use crate::text;
use crate::time;
use crate::time::{Span, Timestamp};

verus! {

/// A stored object and the tenant and region it belongs to.
#[derive(Debug, PartialEq, Eq)]
pub struct ObjectRef {
    pub id: String,
    pub tenant_id: String,
    pub region: String,
}

impl Clone for ObjectRef {
    fn clone(&self) -> (r: Self)
        ensures
            r == *self,
    {
        ObjectRef {
            id: self.id.clone(),
            tenant_id: self.tenant_id.clone(),
            region: self.region.clone(),
        }
    }
}

impl ObjectRef {
    /// The same content, field by field.
    pub open spec fn same(self, other: ObjectRef) -> bool {
        &&& self.id@ == other.id@
        &&& self.tenant_id@ == other.tenant_id@
        &&& self.region@ == other.region@
    }

    /// Whether two rows have the same content.
    pub fn is_same(&self, other: &ObjectRef) -> (r: bool)
        ensures
            r == self.same(*other),
    {
        text::same_text(self.id.as_str(), other.id.as_str())
            && text::same_text(self.tenant_id.as_str(), other.tenant_id.as_str())
            && text::same_text(self.region.as_str(), other.region.as_str())
    }
}

/// Where an asynchronous input is kept. It has no `Debug`: the bytes of an
/// input are never printed.
#[derive(PartialEq, Eq)]
pub enum AsyncInputBody {
    Inline(Vec<u8>),
    Object(ObjectRef),
}

impl AsyncInputBody {
    /// What may be printed of the input: its size, or the object that holds it.
    pub open spec fn summary_text(self) -> Seq<char> {
        match self {
            AsyncInputBody::Inline(bytes) => "Inline("@ + text::dec(bytes@.len()) + " bytes)"@,
            AsyncInputBody::Object(o) => "Object("@ + o.id@ + ")"@,
        }
    }

    /// What may be printed of the input: its size, or the object that holds it.
    pub fn summary(&self) -> (r: String)
        ensures
            r@ == self.summary_text(),
    {
        match self {
            AsyncInputBody::Inline(bytes) => {
                let mut s = text::owned("Inline(");
                text::push_u64(&mut s, bytes.len() as u64);
                s.append(" bytes)");
                s
            },
            AsyncInputBody::Object(o) => {
                let mut s = text::owned("Object(");
                s.append(o.id.as_str());
                s.append(")");
                s
            },
        }
    }
}

/// The input of an asynchronous invocation.
#[derive(PartialEq, Eq)]
pub struct AsyncInput {
    pub invocation_id: String,
    pub tenant_id: String,
    pub size_bytes: u64,
    /// Digest of the input bytes, equal to the invocation's.
    pub digest: String,
    pub body: AsyncInputBody,
}

impl AsyncInput {
    /// Name of where the input is kept.
    pub open spec fn storage_name(self) -> Seq<char> {
        match self.body {
            AsyncInputBody::Inline(_) => "inline"@,
            AsyncInputBody::Object(_) => "object"@,
        }
    }

    /// Name of where the input is kept.
    pub fn storage(&self) -> (r: &'static str)
        ensures
            r@ == self.storage_name(),
    {
        match self.body {
            AsyncInputBody::Inline(_) => "inline",
            AsyncInputBody::Object(_) => "object",
        }
    }
}

/// One outbox row.
#[derive(Debug, PartialEq, Eq)]
pub struct OutboxEvent {
    /// The invocation id: also the queue message id.
    pub event_id: String,
    pub tenant_id: String,
    pub topic: String,
    /// The routing envelope. Never the input body.
    pub payload: String,
    pub created_at: Timestamp,
    pub sent_at: Option<Timestamp>,
    pub publish_attempts: u32,
    pub next_attempt_at: Timestamp,
    pub claimed_by: Option<String>,
    pub claim_expires_at: Option<Timestamp>,
    pub last_error: Option<String>,
    pub queue_sequence: Option<u64>,
    /// Delivery generation: 0 for the acceptance, n after the nth retry was scheduled.
    pub generation: u64,
}

impl Clone for OutboxEvent {
    fn clone(&self) -> (r: Self)
        ensures
            r == *self,
    {
        OutboxEvent {
            event_id: self.event_id.clone(),
            tenant_id: self.tenant_id.clone(),
            topic: self.topic.clone(),
            payload: self.payload.clone(),
            created_at: self.created_at,
            sent_at: self.sent_at,
            publish_attempts: self.publish_attempts,
            next_attempt_at: self.next_attempt_at,
            claimed_by: text::clone_opt(&self.claimed_by),
            claim_expires_at: self.claim_expires_at,
            last_error: text::clone_opt(&self.last_error),
            queue_sequence: self.queue_sequence,
            generation: self.generation,
        }
    }
}

impl OutboxEvent {
    /// The same content, field by field.
    pub open spec fn same(self, other: OutboxEvent) -> bool {
        &&& self.event_id@ == other.event_id@
        &&& self.tenant_id@ == other.tenant_id@
        &&& self.topic@ == other.topic@
        &&& self.payload@ == other.payload@
        &&& self.created_at == other.created_at
        &&& self.sent_at == other.sent_at
        &&& self.publish_attempts == other.publish_attempts
        &&& self.next_attempt_at == other.next_attempt_at
        &&& text::opt_view(self.claimed_by) == text::opt_view(other.claimed_by)
        &&& self.claim_expires_at == other.claim_expires_at
        &&& text::opt_view(self.last_error) == text::opt_view(other.last_error)
        &&& self.queue_sequence == other.queue_sequence
        &&& self.generation == other.generation
    }

    /// Whether two rows have the same content.
    pub fn is_same(&self, other: &OutboxEvent) -> (r: bool)
        ensures
            r == self.same(*other),
    {
        text::same_text(self.event_id.as_str(), other.event_id.as_str())
            && text::same_text(self.tenant_id.as_str(), other.tenant_id.as_str())
            && text::same_text(self.topic.as_str(), other.topic.as_str())
            && text::same_text(self.payload.as_str(), other.payload.as_str())
            && self.created_at == other.created_at
            && crate::domain::same_time(self.sent_at, other.sent_at)
            && self.publish_attempts == other.publish_attempts
            && self.next_attempt_at == other.next_attempt_at
            && text::same_opt(&self.claimed_by, &other.claimed_by)
            && crate::domain::same_time(self.claim_expires_at, other.claim_expires_at)
            && text::same_opt(&self.last_error, &other.last_error)
            && crate::domain::same_u64(self.queue_sequence, other.queue_sequence)
            && self.generation == other.generation
    }
}

/// The event of a new acceptance, due at once.
pub open spec fn new_event(
    event_id: String,
    tenant_id: String,
    topic: String,
    payload: String,
    now: Timestamp,
) -> OutboxEvent {
    OutboxEvent {
        event_id,
        tenant_id,
        topic,
        payload,
        created_at: now,
        sent_at: None,
        publish_attempts: 0,
        next_attempt_at: now,
        claimed_by: None,
        claim_expires_at: None,
        last_error: None,
        queue_sequence: None,
        generation: 0,
    }
}

impl OutboxEvent {
    /// The event of a new acceptance, due at once.
    pub fn new(
        event_id: String,
        tenant_id: String,
        topic: String,
        payload: String,
        now: Timestamp,
    ) -> (r: Self)
        ensures
            r == new_event(event_id, tenant_id, topic, payload, now),
    {
        OutboxEvent {
            event_id,
            tenant_id,
            topic,
            payload,
            created_at: now,
            sent_at: None,
            publish_attempts: 0,
            next_attempt_at: now,
            claimed_by: None,
            claim_expires_at: None,
            last_error: None,
            queue_sequence: None,
            generation: 0,
        }
    }

    /// The queue message id.
    pub fn message_id(&self) -> (r: String)
        ensures
            r@ == message_id_text(self.event_id@, self.generation as nat),
    {
        message_id_for(self.event_id.as_str(), self.generation)
    }

    /// Due, unsent and held by nobody (or by a claim that expired).
    pub open spec fn claimable(self, now: Timestamp) -> bool {
        self.sent_at is None && self.next_attempt_at <= now && self.free(now)
    }

    /// Held by nobody, or by a claim that expired.
    pub open spec fn free(self, now: Timestamp) -> bool {
        self.claimed_by is None || (self.claim_expires_at is Some && self.claim_expires_at->0
            <= now)
    }

    /// Unsent and claimed by `owner`.
    pub open spec fn held_by(self, owner: Seq<char>) -> bool {
        self.sent_at is None && text::opt_view(self.claimed_by) == Some(owner)
    }

    /// Whether a publisher may claim the row.
    pub fn is_claimable(&self, now: Timestamp) -> (r: bool)
        ensures
            r == self.claimable(now),
    {
        let free = match (&self.claimed_by, self.claim_expires_at) {
            (None, _) => true,
            (Some(_), Some(at)) => at <= now,
            (Some(_), None) => false,
        };
        self.sent_at.is_none() && self.next_attempt_at <= now && free
    }

    /// Whether the row is unsent and claimed by `owner`.
    pub fn is_held_by(&self, owner: &str) -> (r: bool)
        ensures
            r == self.held_by(owner@),
    {
        self.sent_at.is_none() && match &self.claimed_by {
            Some(c) => text::same_text(c.as_str(), owner),
            None => false,
        }
    }
}

/// The queue message id: the invocation id, with the generation from the
/// first retry on (a new message, never taken for the previous one).
pub open spec fn message_id_text(event: Seq<char>, generation: nat) -> Seq<char> {
    if generation == 0 {
        event
    } else {
        event + ".g"@ + text::dec(generation)
    }
}

/// The queue message id of a generation.
pub fn message_id_for(event: &str, generation: u64) -> (r: String)
    ensures
        r@ == message_id_text(event@, generation as nat),
{
    let mut m = text::owned(event);
    if generation > 0 {
        m.append(".g");
        text::push_u64(&mut m, generation);
    }
    m
}

/// Two generations of one event are two messages to the queue.
pub proof fn law_every_generation_is_a_message_of_its_own(event: Seq<char>, a: nat, b: nat)
    requires
        message_id_text(event, a) == message_id_text(event, b),
    ensures
        a == b,
{
    reveal_strlit(".g");
    let x = message_id_text(event, a);
    let y = message_id_text(event, b);
    text::lemma_dec_nonempty(a);
    text::lemma_dec_nonempty(b);
    if a != 0 && b != 0 {
        let n = event.len() + 2;
        assert(x.subrange(n as int, x.len() as int) =~= text::dec(a));
        assert(y.subrange(n as int, y.len() as int) =~= text::dec(b));
        text::lemma_dec_injective(a, b);
    }
}

/// Bounds checked inside the acceptance transaction.
#[derive(Debug, Clone, Copy, PartialEq, Eq, Structural)]
pub struct BacklogLimits {
    pub max_pending: u64,
    pub max_pending_age: Span,
}

/// How full the outbox is.
#[derive(Debug, Clone, Copy, PartialEq, Eq, Structural)]
pub struct OutboxStats {
    /// Events not published yet.
    pub pending: u64,
    pub oldest_pending_at: Option<Timestamp>,
    /// Published events still kept.
    pub sent: u64,
}

impl OutboxStats {
    /// `limits` refuse another event at `now`.
    pub open spec fn over(self, limits: BacklogLimits, now: Timestamp) -> bool {
        self.pending >= limits.max_pending || (self.oldest_pending_at is Some && time::since(
            now,
            self.oldest_pending_at->0,
        ) >= limits.max_pending_age)
    }

    /// Whether `limits` refuse another event at `now`.
    pub fn exceeds(&self, limits: &BacklogLimits, now: Timestamp) -> (r: bool)
        requires
            time::in_calendar(now),
            self.oldest_pending_at is Some ==> time::in_calendar(self.oldest_pending_at->0),
        ensures
            r == self.over(*limits, now),
    {
        self.pending >= limits.max_pending || match self.oldest_pending_at {
            Some(t) => time::between(now, t) >= limits.max_pending_age,
            None => false,
        }
    }
}

/// How an acceptance ended.
#[derive(Debug, PartialEq, Eq)]
pub enum AsyncAcceptOutcome {
    /// Everything committed.
    Accepted,
    /// The idempotency key is already bound; nothing was written.
    Existing(IdempotencyBinding),
    /// The outbox is over its bound; nothing was written.
    Backlog(OutboxStats),
}

} // verus!
