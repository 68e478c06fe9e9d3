//! Invocations and their attempts.

use vstd::prelude::*;

use crate::text;
use crate::time::Timestamp;

verus! {

/// Who an error is to be blamed on.
#[derive(Debug, Clone, Copy, PartialEq, Eq, Structural)]
pub enum ErrorClass {
    UserError,
    Crash,
    PlatformError,
    OutcomeUnknown,
}

/// Whether the caller waits for the outcome.
#[derive(Debug, Clone, Copy, PartialEq, Eq, Structural)]
pub enum InvocationMode {
    Sync,
    Async,
}

/// How an attempt got its environment.
#[derive(Debug, Clone, Copy, PartialEq, Eq, Structural)]
pub enum StartKind {
    Cold,
    Warm,
    Restored,
}

/// Why an invocation or an attempt did not succeed.
#[derive(Debug, PartialEq, Eq)]
pub struct InvocationError {
    pub class: ErrorClass,
    pub error_type: String,
    pub message: String,
}

impl Clone for InvocationError {
    fn clone(&self) -> (r: Self)
        ensures
            r == *self,
    {
        InvocationError {
            class: self.class,
            error_type: self.error_type.clone(),
            message: self.message.clone(),
        }
    }
}

impl InvocationError {
    /// The same content, field by field.
    pub open spec fn same(self, other: InvocationError) -> bool {
        &&& self.class == other.class
        &&& self.error_type@ == other.error_type@
        &&& self.message@ == other.message@
    }

    /// Whether two rows have the same content.
    pub fn is_same(&self, other: &InvocationError) -> (r: bool)
        ensures
            r == self.same(*other),
    {
        self.class == other.class
            && text::same_text(self.error_type.as_str(), other.error_type.as_str())
            && text::same_text(self.message.as_str(), other.message.as_str())
    }
}

impl InvocationError {
    /// An error of `class`.
    pub fn new(class: ErrorClass, error_type: &str, message: &str) -> (r: Self)
        ensures
            r.class == class,
            r.error_type@ == error_type@,
            r.message@ == message@,
    {
        InvocationError {
            class,
            error_type: text::owned(error_type),
            message: text::owned(message),
        }
    }
}

/// A body, kept in the ledger or known by its digest only.
#[derive(Debug, PartialEq, Eq)]
pub enum PayloadRef {
    Inline { bytes_base64: String, size_bytes: u64 },
    Digest { digest: String, size_bytes: u64 },
}

impl Clone for PayloadRef {
    fn clone(&self) -> (r: Self)
        ensures
            r == *self,
    {
        match self {
            PayloadRef::Inline { bytes_base64, size_bytes } => PayloadRef::Inline {
                bytes_base64: bytes_base64.clone(),
                size_bytes: *size_bytes,
            },
            PayloadRef::Digest { digest, size_bytes } => PayloadRef::Digest {
                digest: digest.clone(),
                size_bytes: *size_bytes,
            },
        }
    }
}

impl PayloadRef {
    /// The same content.
    pub open spec fn same(self, other: PayloadRef) -> bool {
        match (self, other) {
            (
                PayloadRef::Inline { bytes_base64: a, size_bytes: m },
                PayloadRef::Inline { bytes_base64: b, size_bytes: n },
            ) => a@ == b@ && m == n,
            (
                PayloadRef::Digest { digest: a, size_bytes: m },
                PayloadRef::Digest { digest: b, size_bytes: n },
            ) => a@ == b@ && m == n,
            _ => false,
        }
    }

    /// Whether two bodies have the same content.
    pub fn is_same(&self, other: &PayloadRef) -> (r: bool)
        ensures
            r == self.same(*other),
    {
        match (self, other) {
            (
                PayloadRef::Inline { bytes_base64: a, size_bytes: m },
                PayloadRef::Inline { bytes_base64: b, size_bytes: n },
            ) => text::same_text(a.as_str(), b.as_str()) && *m == *n,
            (
                PayloadRef::Digest { digest: a, size_bytes: m },
                PayloadRef::Digest { digest: b, size_bytes: n },
            ) => text::same_text(a.as_str(), b.as_str()) && *m == *n,
            _ => false,
        }
    }
}

/// Where an invocation stands.
#[derive(Debug, PartialEq, Eq)]
pub enum InvocationStatus {
    Accepted,
    Queued,
    Running,
    Succeeded,
    Failed { error: InvocationError },
    Cancelled,
    OutcomeUnknown { error: InvocationError },
}

impl Clone for InvocationStatus {
    fn clone(&self) -> (r: Self)
        ensures
            r == *self,
    {
        match self {
            InvocationStatus::Accepted => InvocationStatus::Accepted,
            InvocationStatus::Queued => InvocationStatus::Queued,
            InvocationStatus::Running => InvocationStatus::Running,
            InvocationStatus::Succeeded => InvocationStatus::Succeeded,
            InvocationStatus::Failed { error } => InvocationStatus::Failed { error: error.clone() },
            InvocationStatus::Cancelled => InvocationStatus::Cancelled,
            InvocationStatus::OutcomeUnknown { error } => InvocationStatus::OutcomeUnknown {
                error: error.clone(),
            },
        }
    }
}

impl InvocationStatus {
    /// The same content.
    pub open spec fn same(self, other: InvocationStatus) -> bool {
        match (self, other) {
            (InvocationStatus::Accepted, InvocationStatus::Accepted) => true,
            (InvocationStatus::Queued, InvocationStatus::Queued) => true,
            (InvocationStatus::Running, InvocationStatus::Running) => true,
            (InvocationStatus::Succeeded, InvocationStatus::Succeeded) => true,
            (InvocationStatus::Failed { error: a }, InvocationStatus::Failed { error: b }) => a.same(b),
            (InvocationStatus::Cancelled, InvocationStatus::Cancelled) => true,
            (
                InvocationStatus::OutcomeUnknown { error: a },
                InvocationStatus::OutcomeUnknown { error: b },
            ) => a.same(b),
            _ => false,
        }
    }

    /// Whether two statuses have the same content.
    pub fn is_same(&self, other: &InvocationStatus) -> (r: bool)
        ensures
            r == self.same(*other),
    {
        match (self, other) {
            (InvocationStatus::Accepted, InvocationStatus::Accepted) => true,
            (InvocationStatus::Queued, InvocationStatus::Queued) => true,
            (InvocationStatus::Running, InvocationStatus::Running) => true,
            (InvocationStatus::Succeeded, InvocationStatus::Succeeded) => true,
            (InvocationStatus::Failed { error: a }, InvocationStatus::Failed { error: b }) => {
                a.is_same(b)
            },
            (InvocationStatus::Cancelled, InvocationStatus::Cancelled) => true,
            (
                InvocationStatus::OutcomeUnknown { error: a },
                InvocationStatus::OutcomeUnknown { error: b },
            ) => a.is_same(b),
            _ => false,
        }
    }

    /// A status that no invocation leaves again.
    pub open spec fn terminal(self) -> bool {
        !(self is Accepted || self is Queued || self is Running)
    }

    /// Whether no invocation leaves this status again.
    pub fn is_terminal(&self) -> (r: bool)
        ensures
            r == self.terminal(),
    {
        !matches!(
            self,
            InvocationStatus::Accepted | InvocationStatus::Queued | InvocationStatus::Running
        )
    }

    /// Name of the status.
    pub open spec fn spec_name(self) -> Seq<char> {
        match self {
            InvocationStatus::Accepted => "accepted"@,
            InvocationStatus::Queued => "queued"@,
            InvocationStatus::Running => "running"@,
            InvocationStatus::Succeeded => "succeeded"@,
            InvocationStatus::Failed { .. } => "failed"@,
            InvocationStatus::Cancelled => "cancelled"@,
            InvocationStatus::OutcomeUnknown { .. } => "outcome_unknown"@,
        }
    }

    /// Name of the status.
    pub fn name(&self) -> (r: &'static str)
        ensures
            r@ == self.spec_name(),
    {
        match self {
            InvocationStatus::Accepted => "accepted",
            InvocationStatus::Queued => "queued",
            InvocationStatus::Running => "running",
            InvocationStatus::Succeeded => "succeeded",
            InvocationStatus::Failed { .. } => "failed",
            InvocationStatus::Cancelled => "cancelled",
            InvocationStatus::OutcomeUnknown { .. } => "outcome_unknown",
        }
    }
}

/// The times by which the stages of an invocation have to be over.
#[derive(Debug, Clone, Copy, PartialEq, Eq, Structural)]
pub struct Deadlines {
    pub queue_deadline: Timestamp,
    pub init_deadline: Option<Timestamp>,
    pub execution_deadline: Option<Timestamp>,
    pub client_deadline: Timestamp,
}

/// One invocation of a function.
#[derive(Debug, PartialEq, Eq)]
pub struct Invocation {
    pub id: String,
    pub tenant_id: String,
    pub function_id: String,
    pub alias: Option<String>,
    pub revision_id: String,
    pub mode: InvocationMode,
    pub event_kind: String,
    pub deadlines: Deadlines,
    pub idempotency_key: Option<String>,
    pub input_digest: String,
    pub input_size_bytes: u64,
    pub trace_id: String,
    pub accepted_at: Timestamp,
    pub status: InvocationStatus,
    pub attempt_ids: Vec<String>,
    pub output: Option<PayloadRef>,
    pub response_status: Option<u16>,
    pub started_at: Option<Timestamp>,
    pub finished_at: Option<Timestamp>,
    /// The dispatcher that accepted it.
    pub dispatcher_id: Option<String>,
}

impl Clone for Invocation {
    fn clone(&self) -> (r: Self)
        ensures
            r.same(*self),
    {
        Invocation {
            id: self.id.clone(),
            tenant_id: self.tenant_id.clone(),
            function_id: self.function_id.clone(),
            alias: text::clone_opt(&self.alias),
            revision_id: self.revision_id.clone(),
            mode: self.mode,
            event_kind: self.event_kind.clone(),
            deadlines: self.deadlines,
            idempotency_key: text::clone_opt(&self.idempotency_key),
            input_digest: self.input_digest.clone(),
            input_size_bytes: self.input_size_bytes,
            trace_id: self.trace_id.clone(),
            accepted_at: self.accepted_at,
            status: self.status.clone(),
            attempt_ids: text::clone_texts(&self.attempt_ids),
            output: match &self.output {
                Some(x) => Some(x.clone()),
                None => None,
            },
            response_status: self.response_status,
            started_at: self.started_at,
            finished_at: self.finished_at,
            dispatcher_id: text::clone_opt(&self.dispatcher_id),
        }
    }
}

impl Invocation {
    /// The same content, field by field.
    pub open spec fn same(self, other: Invocation) -> bool {
        &&& self.id@ == other.id@
        &&& self.tenant_id@ == other.tenant_id@
        &&& self.function_id@ == other.function_id@
        &&& text::opt_view(self.alias) == text::opt_view(other.alias)
        &&& self.revision_id@ == other.revision_id@
        &&& self.mode == other.mode
        &&& self.event_kind@ == other.event_kind@
        &&& self.deadlines == other.deadlines
        &&& text::opt_view(self.idempotency_key) == text::opt_view(other.idempotency_key)
        &&& self.input_digest@ == other.input_digest@
        &&& self.input_size_bytes == other.input_size_bytes
        &&& self.trace_id@ == other.trace_id@
        &&& self.accepted_at == other.accepted_at
        &&& self.status.same(other.status)
        &&& text::texts_view(self.attempt_ids@) == text::texts_view(other.attempt_ids@)
        &&& (match (self.output, other.output) {
            (Some(a), Some(b)) => a.same(b),
            (None, None) => true,
            _ => false,
        })
        &&& self.response_status == other.response_status
        &&& self.started_at == other.started_at
        &&& self.finished_at == other.finished_at
        &&& text::opt_view(self.dispatcher_id) == text::opt_view(other.dispatcher_id)
    }

    /// Whether two rows have the same content.
    pub fn is_same(&self, other: &Invocation) -> (r: bool)
        ensures
            r == self.same(*other),
    {
        text::same_text(self.id.as_str(), other.id.as_str())
            && text::same_text(self.tenant_id.as_str(), other.tenant_id.as_str())
            && text::same_text(self.function_id.as_str(), other.function_id.as_str())
            && text::same_opt(&self.alias, &other.alias)
            && text::same_text(self.revision_id.as_str(), other.revision_id.as_str())
            && self.mode == other.mode
            && text::same_text(self.event_kind.as_str(), other.event_kind.as_str())
            && self.deadlines == other.deadlines
            && text::same_opt(&self.idempotency_key, &other.idempotency_key)
            && text::same_text(self.input_digest.as_str(), other.input_digest.as_str())
            && self.input_size_bytes == other.input_size_bytes
            && text::same_text(self.trace_id.as_str(), other.trace_id.as_str())
            && self.accepted_at == other.accepted_at
            && self.status.is_same(&other.status)
            && text::same_texts(&self.attempt_ids, &other.attempt_ids)
            && (match (&self.output, &other.output) {
            (Some(a), Some(b)) => a.is_same(b),
            (None, None) => true,
            _ => false,
        })
            && crate::domain::same_u16(self.response_status, other.response_status)
            && crate::domain::same_time(self.started_at, other.started_at)
            && crate::domain::same_time(self.finished_at, other.finished_at)
            && text::same_opt(&self.dispatcher_id, &other.dispatcher_id)
    }
}

impl Invocation {
    /// Move from accepted to queued.
    pub fn mark_queued(&mut self) -> (r: bool)
        ensures
            r == (old(self).status is Accepted),
            r ==> *final(self) == (Invocation { status: InvocationStatus::Queued, ..*old(self) }),
            !r ==> *final(self) == *old(self),
    {
        if !matches!(self.status, InvocationStatus::Accepted) {
            return false;
        }
        self.status = InvocationStatus::Queued;
        true
    }

    /// End with an error.
    pub fn mark_failed(&mut self, error: InvocationError, now: Timestamp) -> (r: bool)
        ensures
            r == !old(self).status.terminal(),
            r ==> *final(self) == (Invocation {
                status: InvocationStatus::Failed { error },
                finished_at: Some(now),
                ..*old(self)
            }),
            !r ==> *final(self) == *old(self),
    {
        if self.status.is_terminal() {
            return false;
        }
        self.status = InvocationStatus::Failed { error };
        self.finished_at = Some(now);
        true
    }

    /// End without knowing whether the handler ran. Only what was dispatched
    /// can end so.
    pub fn mark_outcome_unknown(&mut self, error: InvocationError, now: Timestamp) -> (r: bool)
        ensures
            r == (old(self).status is Running),
            r ==> *final(self) == (Invocation {
                status: InvocationStatus::OutcomeUnknown { error },
                finished_at: Some(now),
                ..*old(self)
            }),
            !r ==> *final(self) == *old(self),
    {
        if !matches!(self.status, InvocationStatus::Running) {
            return false;
        }
        self.status = InvocationStatus::OutcomeUnknown { error };
        self.finished_at = Some(now);
        true
    }
}

/// Where an attempt stands.
#[derive(Debug, PartialEq, Eq)]
pub enum AttemptStatus {
    Dispatched,
    Succeeded,
    Failed { error: InvocationError },
    OutcomeUnknown { error: InvocationError },
}

impl Clone for AttemptStatus {
    fn clone(&self) -> (r: Self)
        ensures
            r == *self,
    {
        match self {
            AttemptStatus::Dispatched => AttemptStatus::Dispatched,
            AttemptStatus::Succeeded => AttemptStatus::Succeeded,
            AttemptStatus::Failed { error } => AttemptStatus::Failed { error: error.clone() },
            AttemptStatus::OutcomeUnknown { error } => AttemptStatus::OutcomeUnknown {
                error: error.clone(),
            },
        }
    }
}

impl AttemptStatus {
    /// The same content.
    pub open spec fn same(self, other: AttemptStatus) -> bool {
        match (self, other) {
            (AttemptStatus::Dispatched, AttemptStatus::Dispatched) => true,
            (AttemptStatus::Succeeded, AttemptStatus::Succeeded) => true,
            (AttemptStatus::Failed { error: a }, AttemptStatus::Failed { error: b }) => a.same(b),
            (
                AttemptStatus::OutcomeUnknown { error: a },
                AttemptStatus::OutcomeUnknown { error: b },
            ) => a.same(b),
            _ => false,
        }
    }

    /// Whether two statuses have the same content.
    pub fn is_same(&self, other: &AttemptStatus) -> (r: bool)
        ensures
            r == self.same(*other),
    {
        match (self, other) {
            (AttemptStatus::Dispatched, AttemptStatus::Dispatched) => true,
            (AttemptStatus::Succeeded, AttemptStatus::Succeeded) => true,
            (AttemptStatus::Failed { error: a }, AttemptStatus::Failed { error: b }) => a.is_same(b),
            (
                AttemptStatus::OutcomeUnknown { error: a },
                AttemptStatus::OutcomeUnknown { error: b },
            ) => a.is_same(b),
            _ => false,
        }
    }

    /// A status that no attempt leaves again.
    pub open spec fn terminal(self) -> bool {
        !(self is Dispatched)
    }

    /// Whether no attempt leaves this status again.
    pub fn is_terminal(&self) -> (r: bool)
        ensures
            r == self.terminal(),
    {
        !matches!(self, AttemptStatus::Dispatched)
    }

    /// Name of the status.
    pub open spec fn spec_name(self) -> Seq<char> {
        match self {
            AttemptStatus::Dispatched => "dispatched"@,
            AttemptStatus::Succeeded => "succeeded"@,
            AttemptStatus::Failed { .. } => "failed"@,
            AttemptStatus::OutcomeUnknown { .. } => "outcome_unknown"@,
        }
    }

    /// Name of the status.
    pub fn name(&self) -> (r: &'static str)
        ensures
            r@ == self.spec_name(),
    {
        match self {
            AttemptStatus::Dispatched => "dispatched",
            AttemptStatus::Succeeded => "succeeded",
            AttemptStatus::Failed { .. } => "failed",
            AttemptStatus::OutcomeUnknown { .. } => "outcome_unknown",
        }
    }
}

/// One run of an invocation on an environment.
#[derive(Debug, PartialEq, Eq)]
pub struct InvocationAttempt {
    pub id: String,
    pub invocation_id: String,
    pub tenant_id: String,
    pub number: u32,
    pub environment_id: String,
    /// Epoch of the environment when it was dispatched.
    pub epoch: u64,
    pub start_kind: StartKind,
    pub dispatched_at: Timestamp,
    pub status: AttemptStatus,
    pub finished_at: Option<Timestamp>,
}

impl Clone for InvocationAttempt {
    fn clone(&self) -> (r: Self)
        ensures
            r == *self,
    {
        InvocationAttempt {
            id: self.id.clone(),
            invocation_id: self.invocation_id.clone(),
            tenant_id: self.tenant_id.clone(),
            number: self.number,
            environment_id: self.environment_id.clone(),
            epoch: self.epoch,
            start_kind: self.start_kind,
            dispatched_at: self.dispatched_at,
            status: self.status.clone(),
            finished_at: self.finished_at,
        }
    }
}

impl InvocationAttempt {
    /// The same content, field by field.
    pub open spec fn same(self, other: InvocationAttempt) -> bool {
        &&& self.id@ == other.id@
        &&& self.invocation_id@ == other.invocation_id@
        &&& self.tenant_id@ == other.tenant_id@
        &&& self.number == other.number
        &&& self.environment_id@ == other.environment_id@
        &&& self.epoch == other.epoch
        &&& self.start_kind == other.start_kind
        &&& self.dispatched_at == other.dispatched_at
        &&& self.status.same(other.status)
        &&& self.finished_at == other.finished_at
    }

    /// Whether two rows have the same content.
    pub fn is_same(&self, other: &InvocationAttempt) -> (r: bool)
        ensures
            r == self.same(*other),
    {
        text::same_text(self.id.as_str(), other.id.as_str())
            && text::same_text(self.invocation_id.as_str(), other.invocation_id.as_str())
            && text::same_text(self.tenant_id.as_str(), other.tenant_id.as_str())
            && self.number == other.number
            && text::same_text(self.environment_id.as_str(), other.environment_id.as_str())
            && self.epoch == other.epoch
            && self.start_kind == other.start_kind
            && self.dispatched_at == other.dispatched_at
            && self.status.is_same(&other.status)
            && crate::domain::same_time(self.finished_at, other.finished_at)
    }
}

impl InvocationAttempt {
    /// End with a status.
    pub fn settle(&mut self, status: AttemptStatus, now: Timestamp) -> (r: bool)
        ensures
            r == !old(self).status.terminal(),
            r ==> *final(self) == (InvocationAttempt {
                status,
                finished_at: Some(now),
                ..*old(self)
            }),
            !r ==> *final(self) == *old(self),
    {
        if self.status.is_terminal() {
            return false;
        }
        self.status = status;
        self.finished_at = Some(now);
        true
    }
}

} // verus!
