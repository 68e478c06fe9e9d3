//! Execution environments and the leases on them.

use vstd::prelude::*;

use crate::text;
use crate::time::Timestamp;

verus! {

/// What two environments must have in common to stand in for each other.
#[derive(Debug, PartialEq, Eq)]
pub struct ReuseKey {
    pub tenant_id: String,
    pub revision_id: String,
    pub execution_role_version: u64,
    pub configuration_version: u64,
    pub resource_profile_digest: String,
    pub runtime_profile: String,
    pub network_policy_version: u64,
    pub secret_binding_generation: u64,
}

impl Clone for ReuseKey {
    fn clone(&self) -> (r: Self)
        ensures
            r == *self,
    {
        ReuseKey {
            tenant_id: self.tenant_id.clone(),
            revision_id: self.revision_id.clone(),
            execution_role_version: self.execution_role_version,
            configuration_version: self.configuration_version,
            resource_profile_digest: self.resource_profile_digest.clone(),
            runtime_profile: self.runtime_profile.clone(),
            network_policy_version: self.network_policy_version,
            secret_binding_generation: self.secret_binding_generation,
        }
    }
}

impl ReuseKey {
    /// The same content, field by field.
    pub open spec fn same(self, other: ReuseKey) -> bool {
        &&& self.tenant_id@ == other.tenant_id@
        &&& self.revision_id@ == other.revision_id@
        &&& self.execution_role_version == other.execution_role_version
        &&& self.configuration_version == other.configuration_version
        &&& self.resource_profile_digest@ == other.resource_profile_digest@
        &&& self.runtime_profile@ == other.runtime_profile@
        &&& self.network_policy_version == other.network_policy_version
        &&& self.secret_binding_generation == other.secret_binding_generation
    }

    /// Whether two rows have the same content.
    pub fn is_same(&self, other: &ReuseKey) -> (r: bool)
        ensures
            r == self.same(*other),
    {
        text::same_text(self.tenant_id.as_str(), other.tenant_id.as_str())
            && text::same_text(self.revision_id.as_str(), other.revision_id.as_str())
            && self.execution_role_version == other.execution_role_version
            && self.configuration_version == other.configuration_version
            && text::same_text(self.resource_profile_digest.as_str(), other.resource_profile_digest.as_str())
            && text::same_text(self.runtime_profile.as_str(), other.runtime_profile.as_str())
            && self.network_policy_version == other.network_policy_version
            && self.secret_binding_generation == other.secret_binding_generation
    }
}

/// Where an environment stands.
#[derive(Debug, PartialEq, Eq)]
pub enum EnvironmentState {
    Requested,
    Provisioning,
    Initializing,
    Ready,
    Busy,
    Idle,
    Draining,
    Stopped,
    Lost { reason: String },
}

impl Clone for EnvironmentState {
    fn clone(&self) -> (r: Self)
        ensures
            r == *self,
    {
        match self {
            EnvironmentState::Requested => EnvironmentState::Requested,
            EnvironmentState::Provisioning => EnvironmentState::Provisioning,
            EnvironmentState::Initializing => EnvironmentState::Initializing,
            EnvironmentState::Ready => EnvironmentState::Ready,
            EnvironmentState::Busy => EnvironmentState::Busy,
            EnvironmentState::Idle => EnvironmentState::Idle,
            EnvironmentState::Draining => EnvironmentState::Draining,
            EnvironmentState::Stopped => EnvironmentState::Stopped,
            EnvironmentState::Lost { reason } => EnvironmentState::Lost { reason: reason.clone() },
        }
    }
}

impl EnvironmentState {
    /// The same content.
    pub open spec fn same(self, other: EnvironmentState) -> bool {
        match (self, other) {
            (EnvironmentState::Lost { reason: a }, EnvironmentState::Lost { reason: b }) => a@ == b@,
            (EnvironmentState::Lost { .. }, _) => false,
            (_, EnvironmentState::Lost { .. }) => false,
            _ => self == other,
        }
    }

    /// Whether two states have the same content.
    pub fn is_same(&self, other: &EnvironmentState) -> (r: bool)
        ensures
            r == self.same(*other),
    {
        match (self, other) {
            (EnvironmentState::Requested, EnvironmentState::Requested) => true,
            (EnvironmentState::Provisioning, EnvironmentState::Provisioning) => true,
            (EnvironmentState::Initializing, EnvironmentState::Initializing) => true,
            (EnvironmentState::Ready, EnvironmentState::Ready) => true,
            (EnvironmentState::Busy, EnvironmentState::Busy) => true,
            (EnvironmentState::Idle, EnvironmentState::Idle) => true,
            (EnvironmentState::Draining, EnvironmentState::Draining) => true,
            (EnvironmentState::Stopped, EnvironmentState::Stopped) => true,
            (EnvironmentState::Lost { reason: a }, EnvironmentState::Lost { reason: b }) => {
                text::same_text(a.as_str(), b.as_str())
            },
            _ => false,
        }
    }

    /// A state that no environment leaves again.
    pub open spec fn terminal(self) -> bool {
        self is Stopped || self is Lost
    }

    /// Whether no environment leaves this state again.
    pub fn is_terminal(&self) -> (r: bool)
        ensures
            r == self.terminal(),
    {
        matches!(self, EnvironmentState::Stopped | EnvironmentState::Lost { .. })
    }

    /// Name of the state.
    pub open spec fn spec_name(self) -> Seq<char> {
        match self {
            EnvironmentState::Requested => "requested"@,
            EnvironmentState::Provisioning => "provisioning"@,
            EnvironmentState::Initializing => "initializing"@,
            EnvironmentState::Ready => "ready"@,
            EnvironmentState::Busy => "busy"@,
            EnvironmentState::Idle => "idle"@,
            EnvironmentState::Draining => "draining"@,
            EnvironmentState::Stopped => "stopped"@,
            EnvironmentState::Lost { .. } => "lost"@,
        }
    }

    /// Name of the state.
    pub fn name(&self) -> (r: &'static str)
        ensures
            r@ == self.spec_name(),
    {
        match self {
            EnvironmentState::Requested => "requested",
            EnvironmentState::Provisioning => "provisioning",
            EnvironmentState::Initializing => "initializing",
            EnvironmentState::Ready => "ready",
            EnvironmentState::Busy => "busy",
            EnvironmentState::Idle => "idle",
            EnvironmentState::Draining => "draining",
            EnvironmentState::Stopped => "stopped",
            EnvironmentState::Lost { .. } => "lost",
        }
    }
}

/// A place where attempts run, one at a time.
#[derive(Debug, PartialEq, Eq)]
pub struct ExecutionEnvironment {
    pub id: String,
    pub tenant_id: String,
    pub revision_id: String,
    pub provider: String,
    pub reuse_key: ReuseKey,
    pub state: EnvironmentState,
    /// Advances with every assignment and with fencing.
    pub epoch: u64,
    pub created_at: Timestamp,
    pub updated_at: Timestamp,
    pub idle_since: Option<Timestamp>,
    /// The dispatcher that holds its session.
    pub owner: Option<String>,
    /// Set once its owner lost it.
    pub fenced_at: Option<Timestamp>,
}

impl Clone for ExecutionEnvironment {
    fn clone(&self) -> (r: Self)
        ensures
            r == *self,
    {
        ExecutionEnvironment {
            id: self.id.clone(),
            tenant_id: self.tenant_id.clone(),
            revision_id: self.revision_id.clone(),
            provider: self.provider.clone(),
            reuse_key: self.reuse_key.clone(),
            state: self.state.clone(),
            epoch: self.epoch,
            created_at: self.created_at,
            updated_at: self.updated_at,
            idle_since: self.idle_since,
            owner: text::clone_opt(&self.owner),
            fenced_at: self.fenced_at,
        }
    }
}

impl ExecutionEnvironment {
    /// The same content, field by field.
    pub open spec fn same(self, other: ExecutionEnvironment) -> bool {
        &&& self.id@ == other.id@
        &&& self.tenant_id@ == other.tenant_id@
        &&& self.revision_id@ == other.revision_id@
        &&& self.provider@ == other.provider@
        &&& self.reuse_key.same(other.reuse_key)
        &&& self.state.same(other.state)
        &&& self.epoch == other.epoch
        &&& self.created_at == other.created_at
        &&& self.updated_at == other.updated_at
        &&& self.idle_since == other.idle_since
        &&& text::opt_view(self.owner) == text::opt_view(other.owner)
        &&& self.fenced_at == other.fenced_at
    }

    /// Whether two rows have the same content.
    pub fn is_same(&self, other: &ExecutionEnvironment) -> (r: bool)
        ensures
            r == self.same(*other),
    {
        text::same_text(self.id.as_str(), other.id.as_str())
            && text::same_text(self.tenant_id.as_str(), other.tenant_id.as_str())
            && text::same_text(self.revision_id.as_str(), other.revision_id.as_str())
            && text::same_text(self.provider.as_str(), other.provider.as_str())
            && self.reuse_key.is_same(&other.reuse_key)
            && self.state.is_same(&other.state)
            && self.epoch == other.epoch
            && self.created_at == other.created_at
            && self.updated_at == other.updated_at
            && crate::domain::same_time(self.idle_since, other.idle_since)
            && text::same_opt(&self.owner, &other.owner)
            && crate::domain::same_time(self.fenced_at, other.fenced_at)
    }
}

impl ExecutionEnvironment {
    /// Whether its owner lost it.
    pub fn is_fenced(&self) -> (r: bool)
        ensures
            r == (self.fenced_at is Some),
    {
        self.fenced_at.is_some()
    }

    /// Whether an attempt could be assigned to it.
    pub fn is_reusable(&self) -> (r: bool)
        ensures
            r == (self.state is Ready || self.state is Idle),
    {
        matches!(self.state, EnvironmentState::Ready | EnvironmentState::Idle)
    }

    /// Assign a free environment to another attempt, one epoch further on.
    pub fn reassign(&mut self, now: Timestamp) -> (r: bool)
        requires
            old(self).epoch < u64::MAX,
        ensures
            r == (old(self).state is Ready || old(self).state is Idle),
            r ==> *final(self) == (ExecutionEnvironment {
                state: EnvironmentState::Busy,
                epoch: (old(self).epoch + 1) as u64,
                updated_at: now,
                idle_since: None,
                ..*old(self)
            }),
            !r ==> *final(self) == *old(self),
    {
        if !self.is_reusable() {
            return false;
        }
        self.state = EnvironmentState::Busy;
        self.epoch = self.epoch + 1;
        self.updated_at = now;
        self.idle_since = None;
        true
    }

    /// Put an environment that served an attempt into the pool.
    pub fn mark_idle(&mut self, now: Timestamp) -> (r: bool)
        ensures
            r == (old(self).state is Busy),
            r ==> *final(self) == (ExecutionEnvironment {
                state: EnvironmentState::Idle,
                updated_at: now,
                idle_since: Some(now),
                ..*old(self)
            }),
            !r ==> *final(self) == *old(self),
    {
        if !matches!(self.state, EnvironmentState::Busy) {
            return false;
        }
        self.state = EnvironmentState::Idle;
        self.updated_at = now;
        self.idle_since = Some(now);
        true
    }

    /// Take an environment out of service.
    pub fn mark_draining(&mut self, now: Timestamp) -> (r: bool)
        ensures
            r == (!old(self).state.terminal() && !(old(self).state is Draining)),
            r ==> *final(self) == (ExecutionEnvironment {
                state: EnvironmentState::Draining,
                updated_at: now,
                idle_since: None,
                ..*old(self)
            }),
            !r ==> *final(self) == *old(self),
    {
        if self.state.is_terminal() || matches!(self.state, EnvironmentState::Draining) {
            return false;
        }
        self.state = EnvironmentState::Draining;
        self.updated_at = now;
        self.idle_since = None;
        true
    }

    /// Give an environment up.
    pub fn mark_lost(&mut self, reason: &str, now: Timestamp) -> (r: bool)
        ensures
            r == !old(self).state.terminal(),
            r ==> *final(self) == (ExecutionEnvironment {
                state: final(self).state,
                updated_at: now,
                idle_since: None,
                ..*old(self)
            }) && (final(self).state matches EnvironmentState::Lost { reason: why } && why@
                == reason@),
            !r ==> *final(self) == *old(self),
    {
        if self.state.is_terminal() {
            return false;
        }
        self.state = EnvironmentState::Lost { reason: text::owned(reason) };
        self.updated_at = now;
        self.idle_since = None;
        true
    }
}

/// The right of one attempt to complete on an environment at one epoch.
#[derive(Debug, PartialEq, Eq)]
pub struct ExecutionLease {
    pub id: String,
    pub environment_id: String,
    pub attempt_id: String,
    pub tenant_id: String,
    pub epoch: u64,
    pub execution_deadline: Timestamp,
    pub acquired_at: Timestamp,
    pub released_at: Option<Timestamp>,
    pub owner: Option<String>,
    /// When the ownership ends unless it is renewed.
    pub expires_at: Option<Timestamp>,
}

impl Clone for ExecutionLease {
    fn clone(&self) -> (r: Self)
        ensures
            r == *self,
    {
        ExecutionLease {
            id: self.id.clone(),
            environment_id: self.environment_id.clone(),
            attempt_id: self.attempt_id.clone(),
            tenant_id: self.tenant_id.clone(),
            epoch: self.epoch,
            execution_deadline: self.execution_deadline,
            acquired_at: self.acquired_at,
            released_at: self.released_at,
            owner: text::clone_opt(&self.owner),
            expires_at: self.expires_at,
        }
    }
}

impl ExecutionLease {
    /// The same content, field by field.
    pub open spec fn same(self, other: ExecutionLease) -> bool {
        &&& self.id@ == other.id@
        &&& self.environment_id@ == other.environment_id@
        &&& self.attempt_id@ == other.attempt_id@
        &&& self.tenant_id@ == other.tenant_id@
        &&& self.epoch == other.epoch
        &&& self.execution_deadline == other.execution_deadline
        &&& self.acquired_at == other.acquired_at
        &&& self.released_at == other.released_at
        &&& text::opt_view(self.owner) == text::opt_view(other.owner)
        &&& self.expires_at == other.expires_at
    }

    /// Whether two rows have the same content.
    pub fn is_same(&self, other: &ExecutionLease) -> (r: bool)
        ensures
            r == self.same(*other),
    {
        text::same_text(self.id.as_str(), other.id.as_str())
            && text::same_text(self.environment_id.as_str(), other.environment_id.as_str())
            && text::same_text(self.attempt_id.as_str(), other.attempt_id.as_str())
            && text::same_text(self.tenant_id.as_str(), other.tenant_id.as_str())
            && self.epoch == other.epoch
            && self.execution_deadline == other.execution_deadline
            && self.acquired_at == other.acquired_at
            && crate::domain::same_time(self.released_at, other.released_at)
            && text::same_opt(&self.owner, &other.owner)
            && crate::domain::same_time(self.expires_at, other.expires_at)
    }
}

impl ExecutionLease {
    /// A completion of `attempt` at `epoch` may still be taken under it.
    pub open spec fn takes(self, attempt: Seq<char>, epoch: u64) -> bool {
        self.released_at is None && self.attempt_id@ == attempt && self.epoch == epoch
    }

    /// Whether a completion of `attempt` at `epoch` may still be taken.
    pub fn accepts(&self, attempt: &str, epoch: u64) -> (r: bool)
        ensures
            r == self.takes(attempt@, epoch),
    {
        self.released_at.is_none() && text::same_text(self.attempt_id.as_str(), attempt)
            && self.epoch == epoch
    }

    /// Give the lease back.
    pub fn release(&mut self, now: Timestamp) -> (r: bool)
        ensures
            r == (old(self).released_at is None),
            r ==> *final(self) == (ExecutionLease { released_at: Some(now), ..*old(self) }),
            !r ==> *final(self) == *old(self),
    {
        if self.released_at.is_some() {
            return false;
        }
        self.released_at = Some(now);
        true
    }
}

} // verus!
