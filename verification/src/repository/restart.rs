//! What happens to rows whose driver is gone.
//!
//! A store that opens settles the rows without an owner; a reclaim settles
//! the rows of a dispatcher whose lease expired or that stopped. Rows of a
//! live dispatcher are never touched.

use vstd::prelude::*;

use crate::domain::environment::{EnvironmentState, ExecutionEnvironment, ExecutionLease};
use crate::domain::invocation::{
    AttemptStatus, ErrorClass, Invocation, InvocationAttempt, InvocationError, InvocationMode,
    InvocationStatus,
};
use crate::time::Timestamp;

verus! {

/// Error type carried by everything the restart reconcile settles.
pub const HOST_RESTARTED: &'static str = "Host.Restarted";

/// Error type carried by everything a lease-expiry reclaim settles.
pub const HOST_LEASE_EXPIRED: &'static str = "Host.LeaseExpired";

/// Why rows are settled: the error type and the messages they get.
#[derive(Debug, Clone, Copy, PartialEq, Eq)]
pub struct Cause {
    pub error_type: &'static str,
    /// For an invocation that was never dispatched.
    pub not_started: &'static str,
    /// For an invocation (and attempt) that was dispatched.
    pub unknown: &'static str,
    /// For an attempt of an invocation that was not dispatched.
    pub attempt: &'static str,
}

impl Cause {
    /// The process that drove the rows was restarted.
    pub fn restarted() -> (r: Cause)
        ensures
            r.error_type@ == HOST_RESTARTED@,
            r.not_started@ == "gateway restarted while the invocation was in flight"@,
            r.unknown@
                == "gateway restarted after the invocation was dispatched; the handler may have run"@,
            r.attempt@ == "gateway restarted while the attempt was in flight"@,
    {
        Cause {
            error_type: HOST_RESTARTED,
            not_started: "gateway restarted while the invocation was in flight",
            unknown:
                "gateway restarted after the invocation was dispatched; the handler may have run",
            attempt: "gateway restarted while the attempt was in flight",
        }
    }

    /// The dispatcher that drove the rows lost its lease.
    pub fn lease_expired() -> (r: Cause)
        ensures
            r.error_type@ == HOST_LEASE_EXPIRED@,
            r.not_started@
                == "the dispatcher that accepted the invocation lost its lease before dispatching it"@,
            r.unknown@
                == "the dispatcher lost its lease after the invocation was dispatched; the handler may have run"@,
            r.attempt@ == "the dispatcher lost its lease while the attempt was in flight"@,
    {
        Cause {
            error_type: HOST_LEASE_EXPIRED,
            not_started:
                "the dispatcher that accepted the invocation lost its lease before dispatching it",
            unknown:
                "the dispatcher lost its lease after the invocation was dispatched; the handler may have run",
            attempt: "the dispatcher lost its lease while the attempt was in flight",
        }
    }
}

/// `e` is an error of `class` with the given texts.
pub open spec fn is_error(
    e: InvocationError,
    class: ErrorClass,
    error_type: Seq<char>,
    message: Seq<char>,
) -> bool {
    e.class == class && e.error_type@ == error_type && e.message@ == message
}

/// What settling makes of an invocation: one that was running may have run,
/// so its outcome is unknown; one that was never dispatched failed; a
/// terminal one stays as it is.
pub open spec fn settled_invocation(
    old: Invocation,
    new: Invocation,
    cause: Cause,
    now: Timestamp,
) -> bool {
    if old.status.terminal() {
        new == old
    } else {
        &&& new == (Invocation { status: new.status, finished_at: Some(now), ..old })
        &&& if old.status is Running {
            new.status matches InvocationStatus::OutcomeUnknown { error } && is_error(
                error,
                ErrorClass::OutcomeUnknown,
                cause.error_type@,
                cause.unknown@,
            )
        } else {
            new.status matches InvocationStatus::Failed { error } && is_error(
                error,
                ErrorClass::PlatformError,
                cause.error_type@,
                cause.not_started@,
            )
        }
    }
}

/// Settle an invocation whose driver is gone. One that was already running
/// had its request written, so the handler may have run: its outcome is
/// unknown and must never be reported as a plain failure. One that was never
/// dispatched provably did not start and fails. Returns whether the
/// invocation changed.
pub fn settle_invocation_with(inv: &mut Invocation, cause: Cause, now: Timestamp) -> (r: bool)
    ensures
        r == !old(inv).status.terminal(),
        settled_invocation(*old(inv), *final(inv), cause, now),
{
    if inv.status.is_terminal() {
        return false;
    }
    if matches!(inv.status, InvocationStatus::Running) {
        let error = InvocationError::new(
            ErrorClass::OutcomeUnknown,
            cause.error_type,
            cause.unknown,
        );
        inv.mark_outcome_unknown(error, now)
    } else {
        let error = InvocationError::new(
            ErrorClass::PlatformError,
            cause.error_type,
            cause.not_started,
        );
        inv.mark_failed(error, now)
    }
}

/// Settle an invocation after a restart.
pub fn settle_invocation(inv: &mut Invocation, now: Timestamp) -> (r: bool)
    ensures
        r == !old(inv).status.terminal(),
        exists|cause: Cause|
            #![trigger settled_invocation(*old(inv), *final(inv), cause, now)]
            is_restarted(cause) && settled_invocation(*old(inv), *final(inv), cause, now),
{
    let cause = Cause::restarted();
    assert(is_restarted(cause));
    settle_invocation_with(inv, cause, now)
}

/// The cause of a restart.
pub open spec fn is_restarted(cause: Cause) -> bool {
    &&& cause.error_type@ == HOST_RESTARTED@
    &&& cause.not_started@ == "gateway restarted while the invocation was in flight"@
    &&& cause.unknown@
        == "gateway restarted after the invocation was dispatched; the handler may have run"@
    &&& cause.attempt@ == "gateway restarted while the attempt was in flight"@
}

/// The cause of a lost lease.
pub open spec fn is_lease_expired(cause: Cause) -> bool {
    &&& cause.error_type@ == HOST_LEASE_EXPIRED@
    &&& cause.not_started@
        == "the dispatcher that accepted the invocation lost its lease before dispatching it"@
    &&& cause.unknown@
        == "the dispatcher lost its lease after the invocation was dispatched; the handler may have run"@
    &&& cause.attempt@ == "the dispatcher lost its lease while the attempt was in flight"@
}

/// What settling makes of an attempt: it follows its invocation.
pub open spec fn settled_attempt(
    old: InvocationAttempt,
    new: InvocationAttempt,
    invocation_outcome_unknown: bool,
    cause: Cause,
    now: Timestamp,
) -> bool {
    if old.status.terminal() {
        new == old
    } else {
        &&& new == (InvocationAttempt { status: new.status, finished_at: Some(now), ..old })
        &&& if invocation_outcome_unknown {
            new.status matches AttemptStatus::OutcomeUnknown { error } && is_error(
                error,
                ErrorClass::OutcomeUnknown,
                cause.error_type@,
                cause.unknown@,
            )
        } else {
            new.status matches AttemptStatus::Failed { error } && is_error(
                error,
                ErrorClass::PlatformError,
                cause.error_type@,
                cause.attempt@,
            )
        }
    }
}

/// An attempt is settled like the invocation it belongs to, so a caller never
/// sees a failed attempt under an unknown outcome.
pub fn settle_attempt_with(
    att: &mut InvocationAttempt,
    invocation_outcome_unknown: bool,
    cause: Cause,
    now: Timestamp,
) -> (r: bool)
    ensures
        r == !old(att).status.terminal(),
        settled_attempt(*old(att), *final(att), invocation_outcome_unknown, cause, now),
{
    if att.status.is_terminal() {
        return false;
    }
    if invocation_outcome_unknown {
        let error = InvocationError::new(
            ErrorClass::OutcomeUnknown,
            cause.error_type,
            cause.unknown,
        );
        att.settle(AttemptStatus::OutcomeUnknown { error }, now)
    } else {
        let error = InvocationError::new(
            ErrorClass::PlatformError,
            cause.error_type,
            cause.attempt,
        );
        att.settle(AttemptStatus::Failed { error }, now)
    }
}

/// Settle an attempt after a restart.
pub fn settle_attempt(
    att: &mut InvocationAttempt,
    invocation_outcome_unknown: bool,
    now: Timestamp,
) -> (r: bool)
    ensures
        r == !old(att).status.terminal(),
        exists|cause: Cause|
            #![trigger settled_attempt(*old(att), *final(att), invocation_outcome_unknown, cause, now)]
            is_restarted(cause) && settled_attempt(
                *old(att),
                *final(att),
                invocation_outcome_unknown,
                cause,
                now,
            ),
{
    let cause = Cause::restarted();
    assert(is_restarted(cause));
    settle_attempt_with(att, invocation_outcome_unknown, cause, now)
}

/// What settling makes of an environment.
pub open spec fn settled_environment(
    old: ExecutionEnvironment,
    new: ExecutionEnvironment,
    now: Timestamp,
) -> bool {
    if old.state.terminal() {
        new == old
    } else {
        &&& new == (ExecutionEnvironment {
            state: new.state,
            updated_at: now,
            idle_since: None,
            ..old
        })
        &&& new.state matches EnvironmentState::Lost { reason } && reason@ == "gateway restarted"@
    }
}

/// Every environment that was not terminal is lost: the session that drove it
/// died with the process.
pub fn settle_environment(env: &mut ExecutionEnvironment, now: Timestamp) -> (r: bool)
    ensures
        r == !old(env).state.terminal(),
        settled_environment(*old(env), *final(env), now),
{
    if env.state.is_terminal() {
        return false;
    }
    env.mark_lost("gateway restarted", now)
}

/// A lease held by a driver of the previous process is released: nothing can
/// complete under it any more.
pub fn settle_lease(lease: &mut ExecutionLease, now: Timestamp) -> (r: bool)
    ensures
        r == (old(lease).released_at is None),
        *final(lease) == if r {
            ExecutionLease { released_at: Some(now), ..*old(lease) }
        } else {
            *old(lease)
        },
{
    lease.release(now)
}

/// An asynchronous invocation outlives the dispatcher that runs it: its input
/// and its dispatch state are durable. A reclaim or a restart therefore
/// settles only its attempts, never the invocation itself.
pub fn survives_dispatcher(inv: &Invocation) -> (r: bool)
    ensures
        r == (inv.mode == InvocationMode::Async),
{
    matches!(inv.mode, InvocationMode::Async)
}

/// Whether the outcome of an invocation is unknown.
pub fn is_outcome_unknown(inv: &Invocation) -> (r: bool)
    ensures
        r == (inv.status is OutcomeUnknown),
{
    matches!(inv.status, InvocationStatus::OutcomeUnknown { .. })
}

/// Whether the attempts of `inv` that are not terminal are settled as outcome
/// unknown: the invocation was, or still is, dispatched.
pub fn attempts_unknown(inv: &Invocation) -> (r: bool)
    ensures
        r == (inv.status is OutcomeUnknown || inv.status is Running),
{
    is_outcome_unknown(inv) || matches!(inv.status, InvocationStatus::Running)
}

/// Work that was dispatched is never reported as a plain failure.
pub proof fn law_dispatched_work_is_never_reported_as_failed(
    old: Invocation,
    new: Invocation,
    cause: Cause,
    now: Timestamp,
)
    requires
        old.status is Running,
        settled_invocation(old, new, cause, now),
    ensures
        new.status is OutcomeUnknown,
{
}

/// Settling ends everything and a second pass finds nothing left to settle.
pub proof fn law_settling_is_done_once(
    old: Invocation,
    new: Invocation,
    again: Invocation,
    cause: Cause,
    now: Timestamp,
    later: Timestamp,
)
    requires
        settled_invocation(old, new, cause, now),
        settled_invocation(new, again, cause, later),
    ensures
        new.status.terminal(),
        again == new,
{
}

} // verus!
