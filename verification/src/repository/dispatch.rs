//! Asynchronous dispatch state, dead letters and redrives.
//!
//! The ledger, not the queue, decides what happens to an asynchronous
//! invocation. A delivery is only a hint that something may be due:
//!
//! - a claim takes ownership of the next run of one invocation. Exactly one
//!   dispatcher holds a claim at a time; a claim expires unless its holder
//!   renews it;
//! - a settle ends a run: the invocation (terminal, or queued again), the
//!   dispatch row, the dead letter (if any) and the event of the next try (if
//!   any). It is fenced, so a run whose claim was taken over can never write a
//!   second outcome.

use vstd::prelude::*;

use crate::domain::invocation::{Invocation, InvocationError};
use crate::repository::outbox::{AsyncInput, OutboxEvent};
use crate::text;
use crate::time::{Span, Timestamp};

verus! {

/// Where the dispatch of an asynchronous invocation stands.
#[derive(Debug, Clone, Copy, PartialEq, Eq, Structural)]
pub enum DispatchState {
    /// A dispatcher holds the claim and runs (or is about to run) it.
    Running,
    /// Waiting for the next try.
    Scheduled,
    /// Terminal (succeeded or cancelled).
    Done,
    /// Terminal and dead-lettered.
    Dead,
}

impl DispatchState {
    /// Name in the ledger.
    pub open spec fn spec_name(self) -> Seq<char> {
        match self {
            DispatchState::Running => "running"@,
            DispatchState::Scheduled => "scheduled"@,
            DispatchState::Done => "done"@,
            DispatchState::Dead => "dead"@,
        }
    }

    /// Name in the ledger.
    pub fn as_str(&self) -> (r: &'static str)
        ensures
            r@ == self.spec_name(),
    {
        match self {
            DispatchState::Running => "running",
            DispatchState::Scheduled => "scheduled",
            DispatchState::Done => "done",
            DispatchState::Dead => "dead",
        }
    }

    /// The state a name stands for.
    pub open spec fn spec_parse(raw: Seq<char>) -> Option<DispatchState> {
        if raw == "running"@ {
            Some(DispatchState::Running)
        } else if raw == "scheduled"@ {
            Some(DispatchState::Scheduled)
        } else if raw == "done"@ {
            Some(DispatchState::Done)
        } else if raw == "dead"@ {
            Some(DispatchState::Dead)
        } else {
            None
        }
    }

    /// The state a name stands for.
    pub fn parse(raw: &str) -> (r: Option<DispatchState>)
        ensures
            r == Self::spec_parse(raw@),
    {
        if text::same_text(raw, "running") {
            Some(DispatchState::Running)
        } else if text::same_text(raw, "scheduled") {
            Some(DispatchState::Scheduled)
        } else if text::same_text(raw, "done") {
            Some(DispatchState::Done)
        } else if text::same_text(raw, "dead") {
            Some(DispatchState::Dead)
        } else {
            None
        }
    }
}

/// A state's name stands for that state and no other.
pub proof fn law_a_state_is_read_back_from_its_name(state: DispatchState)
    ensures
        DispatchState::spec_parse(state.spec_name()) == Some(state),
{
    reveal_strlit("running");
    reveal_strlit("scheduled");
    reveal_strlit("done");
    reveal_strlit("dead");
    assert("running"@.len() == 7 && "scheduled"@.len() == 9);
    assert("done"@.len() == 4 && "dead"@.len() == 4);
    assert("done"@[1] != "dead"@[1]);
}

/// The dispatch of one asynchronous invocation.
#[derive(Debug, PartialEq, Eq)]
pub struct DispatchRecord {
    pub invocation_id: String,
    pub tenant_id: String,
    pub function_id: String,
    pub state: DispatchState,
    pub generation: u64,
    /// Runs that counted as attempts.
    pub attempts: u32,
    /// Runs deferred without counting.
    pub deferrals: u32,
    pub claimed_by: Option<String>,
    pub claim_expires_at: Option<Timestamp>,
    pub next_attempt_at: Option<Timestamp>,
    pub first_attempt_at: Option<Timestamp>,
    pub last_attempt_at: Option<Timestamp>,
    pub updated_at: Timestamp,
    pub last_error: Option<InvocationError>,
}

impl Clone for DispatchRecord {
    fn clone(&self) -> (r: Self)
        ensures
            r == *self,
    {
        DispatchRecord {
            invocation_id: self.invocation_id.clone(),
            tenant_id: self.tenant_id.clone(),
            function_id: self.function_id.clone(),
            state: self.state,
            generation: self.generation,
            attempts: self.attempts,
            deferrals: self.deferrals,
            claimed_by: text::clone_opt(&self.claimed_by),
            claim_expires_at: self.claim_expires_at,
            next_attempt_at: self.next_attempt_at,
            first_attempt_at: self.first_attempt_at,
            last_attempt_at: self.last_attempt_at,
            updated_at: self.updated_at,
            last_error: match &self.last_error {
                Some(x) => Some(x.clone()),
                None => None,
            },
        }
    }
}

impl DispatchRecord {
    /// The record of an invocation that was never claimed.
    pub open spec fn spec_unclaimed(invocation: Invocation) -> DispatchRecord {
        DispatchRecord {
            invocation_id: invocation.id,
            tenant_id: invocation.tenant_id,
            function_id: invocation.function_id,
            state: DispatchState::Scheduled,
            generation: 0,
            attempts: 0,
            deferrals: 0,
            claimed_by: None,
            claim_expires_at: None,
            next_attempt_at: None,
            first_attempt_at: None,
            last_attempt_at: None,
            updated_at: invocation.accepted_at,
            last_error: None,
        }
    }

    /// The record of an invocation that was never claimed.
    pub fn unclaimed(invocation: &Invocation) -> (r: Self)
        ensures
            r == Self::spec_unclaimed(*invocation),
    {
        DispatchRecord {
            invocation_id: invocation.id.clone(),
            tenant_id: invocation.tenant_id.clone(),
            function_id: invocation.function_id.clone(),
            state: DispatchState::Scheduled,
            generation: 0,
            attempts: 0,
            deferrals: 0,
            claimed_by: None,
            claim_expires_at: None,
            next_attempt_at: None,
            first_attempt_at: None,
            last_attempt_at: None,
            updated_at: invocation.accepted_at,
            last_error: None,
        }
    }

    /// A claim is held and has not expired at `now`.
    pub open spec fn held(self, now: Timestamp) -> bool {
        self.state is Running && self.claimed_by is Some && self.claim_expires_at is Some
            && self.claim_expires_at->0 > now
    }

    /// Whether a claim is held and has not expired at `now`.
    pub fn claim_live(&self, now: Timestamp) -> (r: bool)
        ensures
            r == self.held(now),
    {
        self.state == DispatchState::Running && self.claimed_by.is_some() && match self.claim_expires_at {
            Some(t) => t > now,
            None => false,
        }
    }

    /// `owner` runs attempt `attempts`.
    pub open spec fn runs(self, owner: Seq<char>, attempts: u32) -> bool {
        self.state is Running && text::opt_view(self.claimed_by) == Some(owner) && self.attempts
            == attempts
    }

    /// Whether `owner` runs attempt `attempts`.
    pub fn is_run_of(&self, owner: &str, attempts: u32) -> (r: bool)
        ensures
            r == self.runs(owner@, attempts),
    {
        self.state == DispatchState::Running && self.attempts == attempts && match &self.claimed_by {
            Some(c) => text::same_text(c.as_str(), owner),
            None => false,
        }
    }
}

/// A delivery that asks for a claim.
#[derive(Debug, PartialEq, Eq)]
pub struct ClaimRequest {
    pub invocation_id: String,
    /// The claiming dispatcher.
    pub owner: String,
    /// The generation of the delivery that asks.
    pub generation: u64,
    pub now: Timestamp,
    pub ttl: Span,
}

impl Clone for ClaimRequest {
    fn clone(&self) -> (r: Self)
        ensures
            r == *self,
    {
        ClaimRequest {
            invocation_id: self.invocation_id.clone(),
            owner: self.owner.clone(),
            generation: self.generation,
            now: self.now,
            ttl: self.ttl,
        }
    }
}

/// How a claim ended.
#[derive(Debug, PartialEq, Eq)]
pub enum ClaimOutcome {
    /// The claim is the caller's; `record.attempts` counts this run.
    Claimed { invocation: Box<Invocation>, record: Box<DispatchRecord> },
    /// The invocation is already terminal: nothing to run.
    Terminal(Box<Invocation>),
    /// The delivery's generation is not the current one.
    Stale { current: u64 },
    /// Another run holds a live claim.
    Held { owner: String, expires_at: Timestamp },
    /// The next try is not due yet.
    NotDue { at: Timestamp },
}

/// What a settle is fenced by.
#[derive(Debug, PartialEq, Eq)]
pub enum DispatchFence {
    /// The run that holds the claim.
    Claim { owner: String, attempts: u32 },
    /// Nobody may hold a live claim, and the row must still be at
    /// `generation`.
    Unclaimed { generation: u64 },
}

/// Why an invocation was dead-lettered.
#[derive(Debug, Clone, Copy, PartialEq, Eq, Structural)]
pub enum DeadLetterReason {
    /// Retrying cannot help.
    NonRetryable,
    /// Every allowed run ended with a retryable error.
    AttemptsExhausted,
    /// Too old, or past its queue deadline.
    Expired,
    /// The function was deleted before the invocation could finish.
    FunctionDeleted,
    /// The pinned revision is gone or no longer runnable.
    RevisionUnavailable,
    /// The event could not be decoded or does not match the ledger.
    Poison,
}

impl DeadLetterReason {
    /// Name in the ledger.
    pub open spec fn spec_name(self) -> Seq<char> {
        match self {
            DeadLetterReason::NonRetryable => "non_retryable"@,
            DeadLetterReason::AttemptsExhausted => "attempts_exhausted"@,
            DeadLetterReason::Expired => "expired"@,
            DeadLetterReason::FunctionDeleted => "function_deleted"@,
            DeadLetterReason::RevisionUnavailable => "revision_unavailable"@,
            DeadLetterReason::Poison => "poison"@,
        }
    }

    /// Name in the ledger.
    pub fn as_str(&self) -> (r: &'static str)
        ensures
            r@ == self.spec_name(),
    {
        match self {
            DeadLetterReason::NonRetryable => "non_retryable",
            DeadLetterReason::AttemptsExhausted => "attempts_exhausted",
            DeadLetterReason::Expired => "expired",
            DeadLetterReason::FunctionDeleted => "function_deleted",
            DeadLetterReason::RevisionUnavailable => "revision_unavailable",
            DeadLetterReason::Poison => "poison",
        }
    }
}

/// Where a dead letter stands.
#[derive(Debug, Clone, Copy, PartialEq, Eq, Structural)]
pub enum DeadLetterStatus {
    /// Waiting for somebody to redrive it.
    Open,
    /// Redriven into a new invocation.
    Redriven,
}

impl DeadLetterStatus {
    /// Name in the ledger.
    pub open spec fn spec_name(self) -> Seq<char> {
        match self {
            DeadLetterStatus::Open => "open"@,
            DeadLetterStatus::Redriven => "redriven"@,
        }
    }

    /// Name in the ledger.
    pub fn as_str(&self) -> (r: &'static str)
        ensures
            r@ == self.spec_name(),
    {
        match self {
            DeadLetterStatus::Open => "open",
            DeadLetterStatus::Redriven => "redriven",
        }
    }
}

/// One dead letter. The input is not copied.
#[derive(Debug, PartialEq, Eq)]
pub struct DeadLetter {
    pub id: String,
    pub tenant_id: String,
    pub function_id: Option<String>,
    pub invocation_id: Option<String>,
    pub revision_id: Option<String>,
    pub reason: DeadLetterReason,
    pub status: DeadLetterStatus,
    pub attempts: u32,
    pub deferrals: u32,
    pub last_error: Option<InvocationError>,
    pub accepted_at: Option<Timestamp>,
    pub first_attempt_at: Option<Timestamp>,
    pub last_attempt_at: Option<Timestamp>,
    pub created_at: Timestamp,
    pub input_digest: Option<String>,
    pub input_size_bytes: Option<u64>,
    pub input_storage: Option<String>,
    /// Poison only: the queue message id and sequence.
    pub message_id: Option<String>,
    pub message_sequence: Option<u64>,
    /// Poison only: why the event could not be read.
    pub detail: Option<String>,
    pub redrive_count: u32,
    pub redriven_at: Option<Timestamp>,
}

impl Clone for DeadLetter {
    fn clone(&self) -> (r: Self)
        ensures
            r == *self,
    {
        DeadLetter {
            id: self.id.clone(),
            tenant_id: self.tenant_id.clone(),
            function_id: text::clone_opt(&self.function_id),
            invocation_id: text::clone_opt(&self.invocation_id),
            revision_id: text::clone_opt(&self.revision_id),
            reason: self.reason,
            status: self.status,
            attempts: self.attempts,
            deferrals: self.deferrals,
            last_error: match &self.last_error {
                Some(x) => Some(x.clone()),
                None => None,
            },
            accepted_at: self.accepted_at,
            first_attempt_at: self.first_attempt_at,
            last_attempt_at: self.last_attempt_at,
            created_at: self.created_at,
            input_digest: text::clone_opt(&self.input_digest),
            input_size_bytes: self.input_size_bytes,
            input_storage: text::clone_opt(&self.input_storage),
            message_id: text::clone_opt(&self.message_id),
            message_sequence: self.message_sequence,
            detail: text::clone_opt(&self.detail),
            redrive_count: self.redrive_count,
            redriven_at: self.redriven_at,
        }
    }
}

impl DeadLetter {
    /// The key that one origin has at most once.
    pub open spec fn spec_origin_key(self) -> Seq<char> {
        match (self.invocation_id, self.message_id) {
            (Some(inv), _) => "inv:"@ + inv@,
            (None, Some(msg)) => "msg:"@ + msg@ + ":"@ + text::dec(
                match self.message_sequence {
                    Some(n) => n as nat,
                    None => 0,
                },
            ),
            (None, None) => "dlq:"@ + self.id@,
        }
    }

    /// The key that one origin has at most once.
    pub fn origin_key(&self) -> (r: String)
        ensures
            r@ == self.spec_origin_key(),
    {
        match (&self.invocation_id, &self.message_id) {
            (Some(inv), _) => {
                let mut m = text::owned("inv:");
                m.append(inv.as_str());
                m
            },
            (None, Some(msg)) => {
                let mut m = text::owned("msg:");
                m.append(msg.as_str());
                m.append(":");
                let n: u64 = match self.message_sequence {
                    Some(n) => n,
                    None => 0,
                };
                text::push_u64(&mut m, n);
                m
            },
            (None, None) => {
                let mut m = text::owned("dlq:");
                m.append(self.id.as_str());
                m
            },
        }
    }
}

/// Two dead letters of invocations share a key only if they are of the same
/// invocation, and never share one with a poison message.
pub proof fn law_an_invocation_is_dead_lettered_under_one_key(a: DeadLetter, b: DeadLetter)
    requires
        a.invocation_id is Some,
        a.spec_origin_key() == b.spec_origin_key(),
    ensures
        text::opt_view(a.invocation_id) == text::opt_view(b.invocation_id),
{
    reveal_strlit("inv:");
    reveal_strlit("msg:");
    reveal_strlit("dlq:");
    let k = a.spec_origin_key();
    assert(k[0] == 'i');
    match b.invocation_id {
        Some(inv) => {
            assert(k.subrange(4, k.len() as int) =~= a.invocation_id->0@);
            assert(b.spec_origin_key().subrange(4, k.len() as int) =~= inv@);
        },
        None => {
            assert(b.spec_origin_key()[0] != 'i');
        },
    }
}

/// The audit record of one redrive.
#[derive(Debug, PartialEq, Eq)]
pub struct Redrive {
    pub id: String,
    pub dead_letter_id: String,
    pub tenant_id: String,
    pub function_id: String,
    /// The dead-lettered invocation.
    pub source_invocation_id: String,
    /// The new invocation the redrive created.
    pub invocation_id: String,
    /// The revision the new invocation is pinned to.
    pub revision_id: String,
    /// The caller chose another revision than the original one.
    pub revision_overridden: bool,
    /// Who asked, and why.
    pub requested_by: String,
    pub reason: Option<String>,
    pub created_at: Timestamp,
}

impl Clone for Redrive {
    fn clone(&self) -> (r: Self)
        ensures
            r == *self,
    {
        Redrive {
            id: self.id.clone(),
            dead_letter_id: self.dead_letter_id.clone(),
            tenant_id: self.tenant_id.clone(),
            function_id: self.function_id.clone(),
            source_invocation_id: self.source_invocation_id.clone(),
            invocation_id: self.invocation_id.clone(),
            revision_id: self.revision_id.clone(),
            revision_overridden: self.revision_overridden,
            requested_by: self.requested_by.clone(),
            reason: text::clone_opt(&self.reason),
            created_at: self.created_at,
        }
    }
}

/// Everything a settle writes in one transaction.
#[derive(Debug, PartialEq, Eq)]
pub struct DispatchSettle {
    pub fence: DispatchFence,
    /// The invocation after the run: terminal, or queued again.
    pub invocation: Invocation,
    pub state: DispatchState,
    /// When the next try of a scheduled invocation is due.
    pub next_attempt_at: Option<Timestamp>,
    pub last_error: Option<InvocationError>,
    /// False when the run that ends did not count as an attempt.
    pub counted: bool,
    pub dead_letter: Option<DeadLetter>,
    /// The event of the next try, one generation on.
    pub republish: Option<OutboxEvent>,
    pub now: Timestamp,
}

/// How a settle ended.
#[derive(Debug, PartialEq, Eq)]
pub enum SettleOutcome {
    Committed,
    /// The fence did not hold. Nothing was written.
    Lost(String),
}

/// A non-terminal asynchronous invocation the reaper looks at.
#[derive(Debug, PartialEq, Eq)]
pub struct DispatchCandidate {
    pub invocation: Invocation,
    pub record: DispatchRecord,
    /// The outbox row, if one is still kept.
    pub outbox: Option<OutboxEvent>,
}

/// Everything a redrive writes in one transaction.
#[derive(PartialEq, Eq)]
pub struct RedriveWrite {
    pub dead_letter_id: String,
    /// The new invocation, accepted and without an idempotency key.
    pub invocation: Invocation,
    /// Its input: the same inline bytes or the same object.
    pub input: AsyncInput,
    pub event: OutboxEvent,
    pub redrive: Redrive,
}

} // verus!
