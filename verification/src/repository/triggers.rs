//! Triggers: what fires an asynchronous invocation of a function, and the
//! record of every time it did.

use vstd::prelude::*;

use crate::repository::outbox::OutboxStats;
use crate::repository::IdempotencyBinding;
use crate::text;
use crate::time::Timestamp;

verus! {

/// What makes a trigger fire.
#[derive(Debug, Clone, Copy, PartialEq, Eq, Structural)]
pub enum TriggerKind {
    /// A schedule.
    Cron,
    /// A signed delivery from outside.
    Webhook,
}

impl TriggerKind {
    /// Name in the ledger.
    pub open spec fn spec_name(self) -> Seq<char> {
        match self {
            TriggerKind::Cron => "cron"@,
            TriggerKind::Webhook => "webhook"@,
        }
    }

    /// Name in the ledger.
    pub fn as_str(&self) -> (r: &'static str)
        ensures
            r@ == self.spec_name(),
    {
        match self {
            TriggerKind::Cron => "cron",
            TriggerKind::Webhook => "webhook",
        }
    }
}

/// Where a trigger stands.
#[derive(Debug, Clone, Copy, PartialEq, Eq, Structural)]
pub enum TriggerStatus {
    Enabled,
    Disabled,
    Deleted,
}

impl TriggerStatus {
    /// Name in the ledger.
    pub open spec fn spec_name(self) -> Seq<char> {
        match self {
            TriggerStatus::Enabled => "enabled"@,
            TriggerStatus::Disabled => "disabled"@,
            TriggerStatus::Deleted => "deleted"@,
        }
    }

    /// Name in the ledger.
    pub fn as_str(&self) -> (r: &'static str)
        ensures
            r@ == self.spec_name(),
    {
        match self {
            TriggerStatus::Enabled => "enabled",
            TriggerStatus::Disabled => "disabled",
            TriggerStatus::Deleted => "deleted",
        }
    }
}

/// One trigger of a function.
#[derive(Debug, PartialEq, Eq)]
pub struct Trigger {
    pub id: String,
    pub tenant_id: String,
    pub function_id: String,
    pub kind: TriggerKind,
    pub status: TriggerStatus,
    pub generation: u64,
    /// When a schedule is due next.
    pub next_fire_at: Option<Timestamp>,
    /// The last scheduled time that was handled.
    pub last_scheduled_at: Option<Timestamp>,
    pub created_at: Timestamp,
    pub updated_at: Timestamp,
}

impl Clone for Trigger {
    fn clone(&self) -> (r: Self)
        ensures
            r == *self,
    {
        Trigger {
            id: self.id.clone(),
            tenant_id: self.tenant_id.clone(),
            function_id: self.function_id.clone(),
            kind: self.kind,
            status: self.status,
            generation: self.generation,
            next_fire_at: self.next_fire_at,
            last_scheduled_at: self.last_scheduled_at,
            created_at: self.created_at,
            updated_at: self.updated_at,
        }
    }
}

impl Trigger {
    /// What makes it fire.
    pub fn kind(&self) -> (r: TriggerKind)
        ensures
            r == self.kind,
    {
        self.kind
    }

    /// Whether it fires at all.
    pub fn is_enabled(&self) -> (r: bool)
        ensures
            r == (self.status is Enabled),
    {
        self.status == TriggerStatus::Enabled
    }
}

/// What a fire came to.
#[derive(Debug, Clone, Copy, PartialEq, Eq, Structural)]
pub enum FireOutcome {
    Accepted,
    Refused,
}

impl FireOutcome {
    /// Name in the ledger.
    pub open spec fn spec_name(self) -> Seq<char> {
        match self {
            FireOutcome::Accepted => "accepted"@,
            FireOutcome::Refused => "refused"@,
        }
    }

    /// Name in the ledger.
    pub fn as_str(&self) -> (r: &'static str)
        ensures
            r@ == self.spec_name(),
    {
        match self {
            FireOutcome::Accepted => "accepted",
            FireOutcome::Refused => "refused",
        }
    }
}

/// One time a trigger fired.
#[derive(Debug, PartialEq, Eq)]
pub struct FireRecord {
    pub trigger_id: String,
    pub tenant_id: String,
    /// The scheduled time or the event: a trigger fires once per key.
    pub fire_key: String,
    pub kind: TriggerKind,
    pub scheduled_at: Option<Timestamp>,
    pub event_id: Option<String>,
    pub signature_digest: Option<String>,
    pub invocation_id: Option<String>,
    pub outcome: FireOutcome,
    pub reason: Option<String>,
    pub created_at: Timestamp,
}

impl Clone for FireRecord {
    fn clone(&self) -> (r: Self)
        ensures
            r == *self,
    {
        FireRecord {
            trigger_id: self.trigger_id.clone(),
            tenant_id: self.tenant_id.clone(),
            fire_key: self.fire_key.clone(),
            kind: self.kind,
            scheduled_at: self.scheduled_at,
            event_id: text::clone_opt(&self.event_id),
            signature_digest: text::clone_opt(&self.signature_digest),
            invocation_id: text::clone_opt(&self.invocation_id),
            outcome: self.outcome,
            reason: text::clone_opt(&self.reason),
            created_at: self.created_at,
        }
    }
}

/// What a fire claims: its record, and the generation of the trigger that the
/// caller read, if it matters.
#[derive(Debug, PartialEq, Eq)]
pub struct FireClaim {
    pub record: FireRecord,
    pub expected_generation: Option<u64>,
}

/// How a fire ended.
#[derive(Debug, PartialEq, Eq)]
pub enum TriggerAcceptOutcome {
    /// Everything committed.
    Accepted,
    /// The trigger is gone, not enabled or changed: nothing was written.
    Inactive(Option<Box<Trigger>>),
    /// The same scheduled time, event or signed delivery already fired.
    AlreadyFired(FireRecord),
    /// The idempotency key is already bound.
    Existing(IdempotencyBinding),
    /// The outbox is over its bound.
    Backlog(OutboxStats),
}

/// Who runs the schedules.
#[derive(Debug, PartialEq, Eq)]
pub struct SchedulerLease {
    pub owner_id: String,
    pub acquired_at: Timestamp,
    pub expires_at: Timestamp,
}

} // verus!
