//! Who may run what on which environment right now: dispatchers, slot leases
//! and the fencing of late completions.
//!
//! - A **dispatcher** is one gateway process incarnation. It renews its own
//!   lease with a heartbeat and marks itself stopped on a graceful shutdown.
//! - A **slot lease** binds one attempt to one environment at one epoch, with
//!   an owner and an ownership expiry.
//! - **Fencing**: a completion is accepted only for the unreleased lease of
//!   the exact attempt and epoch on an environment still at that epoch.

use vstd::prelude::*;

use crate::domain::environment::{EnvironmentState, ExecutionEnvironment, ExecutionLease};
use crate::domain::invocation::{Invocation, InvocationAttempt};
use crate::repository::guard;
use crate::repository::{RepoError, RepoErrorView};
use crate::text;
use crate::time;
use crate::time::{Span, Timestamp};

verus! {

/// One gateway process incarnation.
#[derive(Debug, PartialEq, Eq)]
pub struct DispatcherRecord {
    pub id: String,
    /// Stable name of the gateway instance.
    pub instance: String,
    pub hostname: String,
    pub pid: u32,
    pub started_at: Timestamp,
    pub heartbeat_at: Timestamp,
    /// The dispatcher's own lease. Renewed only while it has not passed.
    pub lease_expires_at: Timestamp,
    /// Set by a graceful shutdown: everything it still owns may be reclaimed
    /// at once.
    pub stopped_at: Option<Timestamp>,
    /// Set (once) by the dispatcher that reclaimed it. A reclaimed dispatcher
    /// can neither renew nor acquire again.
    pub reclaimed_at: Option<Timestamp>,
}

impl Clone for DispatcherRecord {
    fn clone(&self) -> (r: Self)
        ensures
            r == *self,
    {
        DispatcherRecord {
            id: self.id.clone(),
            instance: self.instance.clone(),
            hostname: self.hostname.clone(),
            pid: self.pid,
            started_at: self.started_at,
            heartbeat_at: self.heartbeat_at,
            lease_expires_at: self.lease_expires_at,
            stopped_at: self.stopped_at,
            reclaimed_at: self.reclaimed_at,
        }
    }
}

impl DispatcherRecord {
    /// Neither stopped nor reclaimed.
    pub open spec fn live(self) -> bool {
        self.stopped_at is None && self.reclaimed_at is None
    }

    /// Still allowed to hold and take slots: not stopped, not reclaimed.
    /// Expiry is decided by whoever reclaims, not here.
    pub fn is_live(&self) -> (r: bool)
        ensures
            r == self.live(),
    {
        self.stopped_at.is_none() && self.reclaimed_at.is_none()
    }

    /// Whether another dispatcher whose clock reads `now` may reclaim it.
    /// `skew` is the clock difference tolerated, in nanoseconds.
    pub fn is_expired(&self, now: Timestamp, skew: Span) -> (r: bool)
        requires
            time::in_reach(self.lease_expires_at, skew),
        ensures
            r == (now >= time::after(self.lease_expires_at, skew)),
    {
        now >= time::plus(self.lease_expires_at, skew)
    }
}

/// Everything an acquire writes in one transaction.
#[derive(Debug, PartialEq, Eq)]
pub struct SlotAcquire {
    /// The caller's copy after it was assigned: busy, one epoch further on.
    pub env: ExecutionEnvironment,
    /// The epoch the caller read.
    pub expected_epoch: u64,
    /// Owned, with an ownership expiry, at the new epoch.
    pub lease: ExecutionLease,
    /// The attempt dispatched under the lease, at the new epoch.
    pub attempt: InvocationAttempt,
    /// The invocation moved to running (or pointed at a retry).
    pub invocation: Option<Invocation>,
}

/// How an acquire ended.
#[derive(Debug, PartialEq, Eq)]
pub enum AcquireOutcome {
    /// Everything was written.
    Acquired,
    /// Someone else got there first, or the slot is not in a state that can
    /// be acquired. Nothing was written.
    Lost(String),
}

/// A completion: the terminal attempt and invocation of one lease.
#[derive(Debug, PartialEq, Eq)]
pub struct SlotCompletion {
    pub lease_id: String,
    /// Terminal, at the attempt and epoch of the lease.
    pub attempt: InvocationAttempt,
    /// Terminal, when the attempt settles the invocation.
    pub invocation: Option<Invocation>,
    pub now: Timestamp,
}

/// How a completion ended.
#[derive(Debug, PartialEq, Eq)]
pub enum CompletionOutcome {
    /// Lease released, attempt and invocation written.
    Accepted,
    /// The lease is not the current one for this attempt any more. Nothing
    /// was written.
    Stale(String),
}

/// How a heartbeat ended.
#[derive(Debug, Clone, Copy, PartialEq, Eq, Structural)]
pub enum HeartbeatOutcome {
    /// The dispatcher lease and `leases` unexpired slot leases were renewed.
    Renewed { leases: usize },
    /// The dispatcher is stopped, reclaimed or already expired: it must not
    /// take new work.
    Fenced,
}

/// What a dispatcher asks to reclaim.
#[derive(Debug, PartialEq, Eq)]
pub struct ReclaimRequest {
    pub reclaimer: String,
    pub now: Timestamp,
    /// Clock difference tolerated between dispatchers, in nanoseconds.
    pub skew: Span,
    /// Dispatchers the caller proved dead without waiting for their lease.
    pub presumed_dead: Vec<String>,
}

/// What a reclaim did.
#[derive(Debug, PartialEq, Eq)]
pub struct ReclaimReport {
    /// Dispatchers marked reclaimed by this pass.
    pub dispatchers: Vec<String>,
    /// Slot leases released by this pass.
    pub leases: usize,
    pub invocations: usize,
    pub attempts: usize,
    /// Environments fenced by this pass.
    pub fenced: Vec<ExecutionEnvironment>,
}

impl ReclaimReport {
    /// Whether the pass did nothing.
    pub fn is_empty(&self) -> (r: bool)
        ensures
            r == (self.dispatchers@.len() == 0 && self.leases == 0 && self.invocations == 0
                && self.attempts == 0 && self.fenced@.len() == 0),
    {
        self.dispatchers.len() == 0 && self.leases == 0 && self.invocations == 0 && self.attempts
            == 0 && self.fenced.len() == 0
    }
}

/// What an acquire comes to before anything is written.
pub ghost enum AcquireCheck {
    /// The request is malformed, or names no environment.
    Bad(RepoErrorView),
    /// Somebody else got there first.
    Lost(Seq<char>),
    /// The environment may be taken.
    Free,
}

/// A malformed request.
pub open spec fn malformed(env: Seq<char>, what: Seq<char>) -> AcquireCheck {
    AcquireCheck::Bad(RepoErrorView::Refused("acquire of environment "@ + env + ": "@ + what))
}

/// What an acquire comes to: the request must fit together, and the stored
/// environment must be free, of the same owner and at the epoch the caller
/// read.
pub open spec fn acquire_check(
    request: SlotAcquire,
    stored: Option<&ExecutionEnvironment>,
) -> AcquireCheck {
    let env = request.env;
    let lease = request.lease;
    let attempt = request.attempt;
    let epoch = request.expected_epoch + 1;
    if env.epoch != epoch || lease.epoch != epoch || attempt.epoch != epoch {
        malformed(
            env.id@,
            "environment, lease and attempt must all be at epoch "@ + text::dec(epoch as nat),
        )
    } else if lease.environment_id@ != env.id@ || attempt.environment_id@ != env.id@ {
        malformed(env.id@, "lease or attempt names another environment"@)
    } else if lease.attempt_id@ != attempt.id@ {
        malformed(env.id@, "lease is for another attempt"@)
    } else if lease.owner is None || lease.expires_at is None || lease.released_at is Some {
        malformed(env.id@, "the lease needs an owner and an expiry"@)
    } else if !(env.state is Busy) {
        malformed(env.id@, "the written row must be busy"@)
    } else {
        match stored {
            None => AcquireCheck::Bad(RepoErrorView::NotFound("environment "@ + env.id@)),
            Some(row) => if guard::environment_identity_rule(*row, env) is Err {
                AcquireCheck::Bad(guard::environment_identity_rule(*row, env)->Err_0)
            } else if text::opt_view(row.owner) != text::opt_view(lease.owner) {
                AcquireCheck::Lost(
                    "environment "@ + env.id@ + " is owned by another dispatcher"@,
                )
            } else if row.fenced_at is Some {
                AcquireCheck::Lost("environment "@ + env.id@ + " is "@ + "fenced"@)
            } else if row.state.terminal() {
                AcquireCheck::Lost("environment "@ + env.id@ + " is "@ + row.state.spec_name())
            } else if row.epoch != request.expected_epoch {
                AcquireCheck::Lost(
                    "environment "@ + env.id@ + " moved to epoch "@ + text::dec(row.epoch as nat)
                        + " (expected "@ + text::dec(request.expected_epoch as nat) + ")"@,
                )
            } else if !(row.state is Ready || row.state is Idle) {
                AcquireCheck::Lost(
                    "environment "@ + env.id@ + " is "@ + row.state.spec_name()
                        + ", not ready or idle"@,
                )
            } else {
                AcquireCheck::Free
            },
        }
    }
}

fn malformed_acquire(env: &str, what: &str) -> (r: RepoError)
    ensures
        r@ == RepoErrorView::Refused("acquire of environment "@ + env@ + ": "@ + what@),
{
    let mut m = text::owned("acquire of environment ");
    m.append(env);
    m.append(": ");
    m.append(what);
    RepoError::Refused(m)
}

fn environment_text(env: &str, what: &str) -> (r: String)
    ensures
        r@ == "environment "@ + env@ + what@,
{
    let mut m = text::owned("environment ");
    m.append(env);
    m.append(what);
    m
}

/// Checks shared by every store for an acquire. `Err` is a malformed request
/// (a programming error), `Ok(Some(reason))` a lost race.
pub fn acquire_preconditions(
    request: &SlotAcquire,
    stored: Option<&ExecutionEnvironment>,
) -> (r: Result<Option<String>, RepoError>)
    requires
        request.expected_epoch < u64::MAX,
    ensures
        match r {
            Err(e) => acquire_check(*request, stored) == AcquireCheck::Bad(e@),
            Ok(Some(reason)) => acquire_check(*request, stored) == AcquireCheck::Lost(reason@),
            Ok(None) => acquire_check(*request, stored) == AcquireCheck::Free,
        },
{
    let env = &request.env;
    let lease = &request.lease;
    let attempt = &request.attempt;
    let id = env.id.as_str();
    let epoch: u64 = request.expected_epoch + 1;
    if env.epoch != epoch || lease.epoch != epoch || attempt.epoch != epoch {
        let mut what = text::owned("environment, lease and attempt must all be at epoch ");
        text::push_u64(&mut what, epoch);
        return Err(malformed_acquire(id, what.as_str()));
    }
    if !text::same_text(lease.environment_id.as_str(), id) || !text::same_text(
        attempt.environment_id.as_str(),
        id,
    ) {
        return Err(malformed_acquire(id, "lease or attempt names another environment"));
    }
    if !text::same_text(lease.attempt_id.as_str(), attempt.id.as_str()) {
        return Err(malformed_acquire(id, "lease is for another attempt"));
    }
    if lease.owner.is_none() || lease.expires_at.is_none() || lease.released_at.is_some() {
        return Err(malformed_acquire(id, "the lease needs an owner and an expiry"));
    }
    if !matches!(env.state, EnvironmentState::Busy) {
        return Err(malformed_acquire(id, "the written row must be busy"));
    }
    let stored = match stored {
        Some(row) => row,
        None => {
            let mut m = text::owned("environment ");
            m.append(id);
            return Err(RepoError::NotFound(m));
        },
    };
    match guard::environment_identity(stored, env) {
        Ok(_) => {},
        Err(e) => {
            return Err(e);
        },
    }
    if !text::same_opt(&stored.owner, &lease.owner) {
        return Ok(Some(environment_text(id, " is owned by another dispatcher")));
    }
    if stored.is_fenced() {
        let mut m = environment_text(id, " is ");
        m.append("fenced");
        return Ok(Some(m));
    }
    if stored.state.is_terminal() {
        let mut m = environment_text(id, " is ");
        m.append(stored.state.name());
        return Ok(Some(m));
    }
    if stored.epoch != request.expected_epoch {
        let mut m = environment_text(id, " moved to epoch ");
        text::push_u64(&mut m, stored.epoch);
        m.append(" (expected ");
        text::push_u64(&mut m, request.expected_epoch);
        m.append(")");
        return Ok(Some(m));
    }
    if !stored.is_reusable() {
        let mut m = environment_text(id, " is ");
        m.append(stored.state.name());
        m.append(", not ready or idle");
        return Ok(Some(m));
    }
    Ok(None)
}

/// Why a lease is not the current one of an attempt and epoch, if it is not.
pub open spec fn staleness(
    lease: Option<&ExecutionLease>,
    attempt: Seq<char>,
    epoch: u64,
    env: Option<&ExecutionEnvironment>,
) -> Option<Seq<char>> {
    match lease {
        None => Some("lease not found"@),
        Some(l) => if l.released_at is Some {
            Some("lease "@ + l.id@ + " is already released"@)
        } else if !l.takes(attempt, epoch) {
            Some(
                "lease "@ + l.id@ + " is for attempt "@ + l.attempt_id@ + " at epoch "@ + text::dec(
                    l.epoch as nat,
                ) + ", not "@ + attempt + " at epoch "@ + text::dec(epoch as nat),
            )
        } else {
            match env {
                Some(e) => if e.epoch != epoch {
                    Some(
                        "environment "@ + e.id@ + " moved to epoch "@ + text::dec(e.epoch as nat)
                            + " (completion carries "@ + text::dec(epoch as nat) + ")"@,
                    )
                } else if e.fenced_at is Some {
                    Some("environment "@ + e.id@ + " is fenced"@)
                } else {
                    None
                },
                None => None,
            }
        },
    }
}

/// Checks shared by every store for a completion and a release: is `lease`
/// still the current lease of `attempt` at `epoch` on `env`? `Some(reason)`
/// when it is stale.
pub fn lease_is_current(
    lease: Option<&ExecutionLease>,
    attempt: &str,
    epoch: u64,
    env: Option<&ExecutionEnvironment>,
) -> (r: Option<String>)
    ensures
        text::opt_view(r) == staleness(lease, attempt@, epoch, env),
{
    let lease = match lease {
        Some(l) => l,
        None => {
            return Some(text::owned("lease not found"));
        },
    };
    if lease.released_at.is_some() {
        let mut m = text::owned("lease ");
        m.append(lease.id.as_str());
        m.append(" is already released");
        return Some(m);
    }
    if !lease.accepts(attempt, epoch) {
        let mut m = text::owned("lease ");
        m.append(lease.id.as_str());
        m.append(" is for attempt ");
        m.append(lease.attempt_id.as_str());
        m.append(" at epoch ");
        text::push_u64(&mut m, lease.epoch);
        m.append(", not ");
        m.append(attempt);
        m.append(" at epoch ");
        text::push_u64(&mut m, epoch);
        return Some(m);
    }
    match env {
        Some(e) => {
            if e.epoch != epoch {
                let mut m = environment_text(e.id.as_str(), " moved to epoch ");
                text::push_u64(&mut m, e.epoch);
                m.append(" (completion carries ");
                text::push_u64(&mut m, epoch);
                m.append(")");
                return Some(m);
            }
            if e.is_fenced() {
                return Some(environment_text(e.id.as_str(), " is fenced"));
            }
            None
        },
        None => None,
    }
}

/// Of two acquires of one environment at one epoch only one can win: once the
/// first is written, the environment is busy at the next epoch and the second
/// is lost or refused.
pub proof fn law_an_acquire_has_one_winner(
    first: SlotAcquire,
    second: SlotAcquire,
    stored: ExecutionEnvironment,
)
    requires
        acquire_check(first, Some(&stored)) == AcquireCheck::Free,
        second.env.id@ == first.env.id@,
        second.expected_epoch == first.expected_epoch,
    ensures
        acquire_check(second, Some(&first.env)) != AcquireCheck::Free,
{
}

/// A fenced environment is never acquired, whatever its state and epoch.
pub proof fn law_a_fenced_environment_is_never_acquired(
    request: SlotAcquire,
    stored: ExecutionEnvironment,
)
    requires
        stored.fenced_at is Some,
    ensures
        acquire_check(request, Some(&stored)) != AcquireCheck::Free,
{
}

/// A completion that carries another epoch than the lease, or comes when the
/// lease is released or the environment moved on or was fenced, is stale.
pub proof fn law_a_late_completion_is_stale(
    lease: ExecutionLease,
    attempt: Seq<char>,
    epoch: u64,
    env: ExecutionEnvironment,
)
    requires
        lease.released_at is Some || lease.epoch != epoch || lease.attempt_id@ != attempt
            || env.epoch != epoch || env.fenced_at is Some,
    ensures
        staleness(Some(&lease), attempt, epoch, Some(&env)) is Some,
{
}

} // verus!
