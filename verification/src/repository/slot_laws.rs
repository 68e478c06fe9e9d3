//! What the operations on slots promise, row by row.

use vstd::prelude::*;

use crate::domain::environment::{
    EnvironmentState, ExecutionEnvironment, ExecutionLease, ReuseKey,
};
use crate::domain::invocation::{
    AttemptStatus, ErrorClass, Invocation, InvocationAttempt, InvocationError, InvocationMode,
    InvocationStatus,
};
use crate::listing;
use crate::listing::Rows;
use crate::repository::guard;
use crate::repository::guard_laws;
use crate::repository::memory;
use crate::repository::reconcile::WorkView;
use crate::repository::restart;
use crate::repository::restart::Cause;
use crate::repository::slot::{
    DispatcherRecord, ReclaimReport, ReclaimRequest, SlotAcquire, SlotCompletion,
};
use crate::repository::slots;
use crate::repository::slots::SlotView;
use crate::repository::{PoolLimits, RepoErrorView};
use crate::table;
use crate::text;
use crate::time;
use crate::time::{Span, Timestamp};

verus! {

/// The row names `id` as its owner.
pub open spec fn owned_by(owner: Option<String>, id: Seq<char>) -> bool {
    owner is Some && owner->0@ == id
}

/// The invocation has not ended.
pub open spec fn is_open(inv: Invocation) -> bool {
    inv.status is Accepted || inv.status is Queued || inv.status is Running
}

/// The environment has not ended.
pub open spec fn is_up(env: ExecutionEnvironment) -> bool {
    !(env.state is Stopped) && !(env.state is Lost)
}

/// The time and the tolerated clock difference after it are over.
pub open spec fn is_over(t: Timestamp, request: ReclaimRequest) -> bool {
    request.now >= time::reach(t, request.skew)
}

/// The caller says that the dispatcher is dead.
pub open spec fn is_presumed_dead(id: Seq<char>, request: ReclaimRequest) -> bool {
    exists|i: int|
        0 <= i < request.presumed_dead@.len() && #[trigger] request.presumed_dead@[i]@ == id
}

/// The dispatcher stopped, or the caller says that it is dead.
pub open spec fn is_down(d: DispatcherRecord, request: ReclaimRequest) -> bool {
    d.stopped_at is Some || is_presumed_dead(d.id@, request)
}

/// The dispatcher is another one than the reclaimer, nobody reclaimed it yet,
/// and it is down or lost its lease.
pub open spec fn is_gone(d: DispatcherRecord, request: ReclaimRequest) -> bool {
    &&& d.id@ != request.reclaimer@
    &&& d.reclaimed_at is None
    &&& is_down(d, request) || is_over(d.lease_expires_at, request)
}

/// The owner of a row is registered, and gone.
pub open spec fn owner_is_gone(
    dispatchers: Rows<DispatcherRecord>,
    owner: Option<String>,
    request: ReclaimRequest,
) -> bool {
    owner is Some && dispatchers.contains_key(seq![owner->0@]) && is_gone(
        dispatchers[seq![owner->0@]],
        request,
    )
}

/// The lease is unreleased, not the reclaimer's, and it is over or its owner
/// is gone.
pub open spec fn is_forfeit(
    dispatchers: Rows<DispatcherRecord>,
    l: ExecutionLease,
    request: ReclaimRequest,
) -> bool {
    &&& l.released_at is None
    &&& !owned_by(l.owner, request.reclaimer@)
    &&& owner_is_gone(dispatchers, l.owner, request) || (l.expires_at is Some && is_over(
        l.expires_at->0,
        request,
    ))
}

/// The dispatcher that drives the invocation of an attempt.
pub open spec fn driven_by(s: SlotView, att: InvocationAttempt) -> Option<String> {
    if s.work.invocations.contains_key(seq![att.invocation_id@]) {
        s.work.invocations[seq![att.invocation_id@]].dispatcher_id
    } else {
        None
    }
}

/// Some forfeit lease is for the attempt.
pub open spec fn attempt_is_forfeit(
    s: SlotView,
    att: InvocationAttempt,
    request: ReclaimRequest,
) -> bool {
    exists|k: Seq<Seq<char>>| #[trigger]
        s.work.leases.contains_key(k) && s.work.leases[k].attempt_id@ == att.id@ && is_forfeit(
            s.dispatchers,
            s.work.leases[k],
            request,
        )
}

/// Some forfeit lease is for an attempt of the invocation.
pub open spec fn run_is_forfeit(s: SlotView, inv: Invocation, request: ReclaimRequest) -> bool {
    exists|k: Seq<Seq<char>>| #[trigger]
        s.work.leases.contains_key(k) && is_forfeit(s.dispatchers, s.work.leases[k], request)
            && s.work.attempts.contains_key(seq![s.work.leases[k].attempt_id@])
            && s.work.attempts[seq![s.work.leases[k].attempt_id@]].invocation_id@ == inv.id@
}

/// Some forfeit lease is on the environment.
pub open spec fn environment_is_forfeit(
    s: SlotView,
    env: ExecutionEnvironment,
    request: ReclaimRequest,
) -> bool {
    exists|k: Seq<Seq<char>>| #[trigger]
        s.work.leases.contains_key(k) && s.work.leases[k].environment_id@ == env.id@ && is_forfeit(
            s.dispatchers,
            s.work.leases[k],
            request,
        )
}

proof fn lemma_dispatcher_fate(d: DispatcherRecord, request: ReclaimRequest)
    ensures
        slots::dispatcher_fate(d, request) is Some <==> is_gone(d, request),
        slots::dispatcher_fate(d, request) == Some(slots::Fate::Restarted) <==> is_gone(d, request)
            && is_down(d, request),
{
    let dead = text::texts_view(request.presumed_dead@);
    if dead.contains(d.id@) {
        let i = choose|i: int| 0 <= i < dead.len() && dead[i] == d.id@;
        assert(request.presumed_dead@[i]@ == d.id@);
    }
    if is_presumed_dead(d.id@, request) {
        let i = choose|i: int|
            0 <= i < request.presumed_dead@.len() && #[trigger] request.presumed_dead@[i]@ == d.id@;
        assert(dead[i] == d.id@);
    }
}

proof fn lemma_owner_fate(
    dispatchers: Rows<DispatcherRecord>,
    owner: Option<String>,
    request: ReclaimRequest,
)
    ensures
        slots::owner_fate(dispatchers, owner, request) is Some <==> owner_is_gone(
            dispatchers,
            owner,
            request,
        ),
        slots::owner_fate(dispatchers, owner, request) == Some(slots::Fate::Restarted)
            <==> owner_is_gone(dispatchers, owner, request) && is_down(
            dispatchers[seq![owner->0@]],
            request,
        ),
{
    if owner is Some && dispatchers.contains_key(table::k1(owner->0@)) {
        lemma_dispatcher_fate(dispatchers[table::k1(owner->0@)], request);
    }
}

proof fn lemma_lease_fate(
    dispatchers: Rows<DispatcherRecord>,
    l: ExecutionLease,
    request: ReclaimRequest,
)
    ensures
        slots::lease_fate(dispatchers, l, request) is Some <==> is_forfeit(
            dispatchers,
            l,
            request,
        ),
        slots::lease_fate(dispatchers, l, request) == Some(slots::Fate::Restarted) <==> is_forfeit(
            dispatchers,
            l,
            request,
        ) && owner_is_gone(dispatchers, l.owner, request) && is_down(
            dispatchers[seq![l.owner->0@]],
            request,
        ),
{
    lemma_owner_fate(dispatchers, l.owner, request);
}

/// A dispatcher may act, that is renew its lease and reclaim, exactly while it
/// is registered, has neither stopped nor been reclaimed, and its lease has not
/// ended.
pub proof fn law_who_may_renew(
    dispatchers: Rows<DispatcherRecord>,
    id: Seq<char>,
    now: Timestamp,
)
    ensures
        slots::is_live(dispatchers, id) <==> dispatchers.contains_key(seq![id])
            && dispatchers[seq![id]].stopped_at is None && dispatchers[seq![id]].reclaimed_at
            is None,
        slots::may_renew(dispatchers, id, now) <==> dispatchers.contains_key(seq![id])
            && dispatchers[seq![id]].stopped_at is None && dispatchers[seq![id]].reclaimed_at
            is None && now < dispatchers[seq![id]].lease_expires_at,
{
}

/// A reclaim marks exactly the dispatchers that are gone.
pub proof fn law_a_reclaim_takes_over_the_gone(
    s: SlotView,
    t: SlotView,
    request: ReclaimRequest,
    key: Seq<Seq<char>>,
)
    requires
        slots::reclaimed(s, t, request),
        s.dispatchers.contains_key(key),
    ensures
        t.dispatchers.dom() == s.dispatchers.dom(),
        t.dispatchers[key] == if is_gone(s.dispatchers[key], request) {
            DispatcherRecord { reclaimed_at: Some(request.now), ..s.dispatchers[key] }
        } else {
            s.dispatchers[key]
        },
{
    lemma_dispatcher_fate(s.dispatchers[key], request);
}

/// A reclaim releases exactly the leases that are over or whose owner is gone,
/// but for the reclaimer's own.
pub proof fn law_a_reclaim_releases_the_forfeit(
    s: SlotView,
    t: SlotView,
    request: ReclaimRequest,
    key: Seq<Seq<char>>,
)
    requires
        slots::reclaimed(s, t, request),
        s.work.leases.contains_key(key),
    ensures
        t.work.leases.dom() == s.work.leases.dom(),
        t.work.leases[key] == if is_forfeit(s.dispatchers, s.work.leases[key], request) {
            ExecutionLease { released_at: Some(request.now), ..s.work.leases[key] }
        } else {
            s.work.leases[key]
        },
{
    lemma_lease_fate(s.dispatchers, s.work.leases[key], request);
}

proof fn lemma_attempt_fate(s: SlotView, att: InvocationAttempt, request: ReclaimRequest)
    ensures
        !slots::attempt_fate(s, att, request, None) <==> (att.status is Dispatched && !owned_by(
            driven_by(s, att),
            request.reclaimer@,
        ) && (owner_is_gone(s.dispatchers, driven_by(s, att), request) || attempt_is_forfeit(
            s,
            att,
            request,
        ))),
{
    let p = slots::lost_lease_of(s, att.id@, request);
    lemma_owner_fate(s.dispatchers, driven_by(s, att), request);
    assert forall|k: Seq<Seq<char>>| #[trigger] s.work.leases.contains_key(k) implies p(
        s.work.leases[k],
    ) == (s.work.leases[k].attempt_id@ == att.id@ && is_forfeit(
        s.dispatchers,
        s.work.leases[k],
        request,
    )) by {
        lemma_lease_fate(s.dispatchers, s.work.leases[k], request);
    }
}

proof fn lemma_invocation_fate(s: SlotView, inv: Invocation, request: ReclaimRequest)
    ensures
        !slots::invocation_fate(s, inv, request, None) <==> (is_open(inv) && inv.mode
            != InvocationMode::Async && !owned_by(inv.dispatcher_id, request.reclaimer@) && (
        owner_is_gone(s.dispatchers, inv.dispatcher_id, request) || run_is_forfeit(
            s,
            inv,
            request,
        ))),
{
    let p = slots::lost_run_of(s, inv.id@, request);
    lemma_owner_fate(s.dispatchers, inv.dispatcher_id, request);
    assert forall|k: Seq<Seq<char>>| #[trigger] s.work.leases.contains_key(k) implies p(
        s.work.leases[k],
    ) == (is_forfeit(s.dispatchers, s.work.leases[k], request) && s.work.attempts.contains_key(
        seq![s.work.leases[k].attempt_id@],
    ) && s.work.attempts[seq![s.work.leases[k].attempt_id@]].invocation_id@ == inv.id@) by {
        lemma_lease_fate(s.dispatchers, s.work.leases[k], request);
    }
}

/// The error of a run whose dispatcher is gone: the handler may have run.
pub open spec fn tells_unknown(e: InvocationError, down: bool) -> bool {
    &&& e.class == ErrorClass::OutcomeUnknown
    &&& e.error_type@ == if down {
        "Host.Restarted"@
    } else {
        "Host.LeaseExpired"@
    }
    &&& e.message@ == if down {
        "gateway restarted after the invocation was dispatched; the handler may have run"@
    } else {
        "the dispatcher lost its lease after the invocation was dispatched; the handler may have run"@
    }
}

/// The error of an invocation that had not been dispatched.
pub open spec fn tells_not_started(e: InvocationError, down: bool) -> bool {
    &&& e.class == ErrorClass::PlatformError
    &&& e.error_type@ == if down {
        "Host.Restarted"@
    } else {
        "Host.LeaseExpired"@
    }
    &&& e.message@ == if down {
        "gateway restarted while the invocation was in flight"@
    } else {
        "the dispatcher that accepted the invocation lost its lease before dispatching it"@
    }
}

/// The error of an attempt whose invocation did not run.
pub open spec fn tells_lost_attempt(e: InvocationError, down: bool) -> bool {
    &&& e.class == ErrorClass::PlatformError
    &&& e.error_type@ == if down {
        "Host.Restarted"@
    } else {
        "Host.LeaseExpired"@
    }
    &&& e.message@ == if down {
        "gateway restarted while the attempt was in flight"@
    } else {
        "the dispatcher lost its lease while the attempt was in flight"@
    }
}

/// The attempt ended at `now`: with an unknown outcome where its invocation may
/// have run, else as failed.
pub open spec fn attempt_ended(
    old: InvocationAttempt,
    new: InvocationAttempt,
    may_have_run: bool,
    down: bool,
    now: Timestamp,
) -> bool {
    &&& new == (InvocationAttempt { status: new.status, finished_at: Some(now), ..old })
    &&& if may_have_run {
        new.status matches AttemptStatus::OutcomeUnknown { error } && tells_unknown(error, down)
    } else {
        new.status matches AttemptStatus::Failed { error } && tells_lost_attempt(error, down)
    }
}

/// The invocation ended at `now`: with an unknown outcome where it was running,
/// else as failed.
pub open spec fn invocation_ended(
    old: Invocation,
    new: Invocation,
    down: bool,
    now: Timestamp,
) -> bool {
    &&& new == (Invocation { status: new.status, finished_at: Some(now), ..old })
    &&& if old.status is Running {
        new.status matches InvocationStatus::OutcomeUnknown { error } && tells_unknown(error, down)
    } else {
        new.status matches InvocationStatus::Failed { error } && tells_not_started(error, down)
    }
}

/// A reclaim ends exactly the dispatched attempts of others whose driver is
/// gone or that a forfeit lease is for. The outcome is unknown where the
/// invocation may have run, that is where it is running still, its outcome is
/// unknown or it is not there.
pub proof fn law_a_reclaim_ends_the_attempts_it_takes(
    s: SlotView,
    t: SlotView,
    request: ReclaimRequest,
    key: Seq<Seq<char>>,
)
    requires
        slots::reclaimed(s, t, request),
        s.work.attempts.contains_key(key),
    ensures
        t.work.attempts.dom() == s.work.attempts.dom(),
        ({
            let a = s.work.attempts[key];
            let b = t.work.attempts[key];
            let at = seq![a.invocation_id@];
            let may_have_run = !t.work.invocations.contains_key(at)
                || t.work.invocations[at].status is OutcomeUnknown
                || t.work.invocations[at].status is Running;
            if a.status is Dispatched && !owned_by(driven_by(s, a), request.reclaimer@) && (
            owner_is_gone(s.dispatchers, driven_by(s, a), request) || attempt_is_forfeit(
                s,
                a,
                request,
            )) {
                &&& attempt_ended(a, b, may_have_run, true, request.now) || attempt_ended(
                    a,
                    b,
                    may_have_run,
                    false,
                    request.now,
                )
                &&& owner_is_gone(s.dispatchers, driven_by(s, a), request) ==> attempt_ended(
                    a,
                    b,
                    may_have_run,
                    is_down(s.dispatchers[seq![driven_by(s, a)->0@]], request),
                    request.now,
                )
            } else {
                b == a
            }
        }),
{
    let a = s.work.attempts[key];
    lemma_attempt_fate(s, a, request);
    lemma_owner_fate(s.dispatchers, driven_by(s, a), request);
}

/// A reclaim ends exactly the open, synchronous invocations of others whose
/// driver is gone or that a forfeit lease is for.
pub proof fn law_a_reclaim_ends_the_invocations_it_takes(
    s: SlotView,
    t: SlotView,
    request: ReclaimRequest,
    key: Seq<Seq<char>>,
)
    requires
        slots::reclaimed(s, t, request),
        s.work.invocations.contains_key(key),
    ensures
        t.work.invocations.dom() == s.work.invocations.dom(),
        t.work.idempotency == s.work.idempotency,
        t.work.inputs == s.work.inputs,
        ({
            let i = s.work.invocations[key];
            let j = t.work.invocations[key];
            if is_open(i) && i.mode != InvocationMode::Async && !owned_by(
                i.dispatcher_id,
                request.reclaimer@,
            ) && (owner_is_gone(s.dispatchers, i.dispatcher_id, request) || run_is_forfeit(
                s,
                i,
                request,
            )) {
                &&& invocation_ended(i, j, true, request.now) || invocation_ended(
                    i,
                    j,
                    false,
                    request.now,
                )
                &&& owner_is_gone(s.dispatchers, i.dispatcher_id, request) ==> invocation_ended(
                    i,
                    j,
                    is_down(s.dispatchers[seq![i.dispatcher_id->0@]], request),
                    request.now,
                )
            } else {
                j == i
            }
        }),
{
    let i = s.work.invocations[key];
    lemma_invocation_fate(s, i, request);
    lemma_owner_fate(s.dispatchers, i.dispatcher_id, request);
}

/// A reclaim fences exactly the environments of others that are up and unfenced
/// and whose owner is gone or that a forfeit lease is on.
pub proof fn law_a_reclaim_fences_what_it_takes(
    s: SlotView,
    t: SlotView,
    request: ReclaimRequest,
    key: Seq<Seq<char>>,
)
    requires
        slots::reclaimed(s, t, request),
        s.work.environments.contains_key(key),
    ensures
        t.work.environments.dom() == s.work.environments.dom(),
        ({
            let e = s.work.environments[key];
            t.work.environments[key] == if is_up(e) && e.fenced_at is None && !owned_by(
                e.owner,
                request.reclaimer@,
            ) && (owner_is_gone(s.dispatchers, e.owner, request) || environment_is_forfeit(
                s,
                e,
                request,
            )) {
                ExecutionEnvironment {
                    state: EnvironmentState::Draining,
                    epoch: (e.epoch + 1) as u64,
                    updated_at: request.now,
                    idle_since: None,
                    fenced_at: Some(request.now),
                    ..e
                }
            } else {
                e
            }
        }),
{
    let e = s.work.environments[key];
    let p = slots::lost_slot_of(s, e.id@, request);
    lemma_owner_fate(s.dispatchers, e.owner, request);
    assert forall|k: Seq<Seq<char>>| #[trigger] s.work.leases.contains_key(k) implies p(
        s.work.leases[k],
    ) == (s.work.leases[k].environment_id@ == e.id@ && is_forfeit(
        s.dispatchers,
        s.work.leases[k],
        request,
    )) by {
        lemma_lease_fate(s.dispatchers, s.work.leases[k], request);
    }
}

/// Whatever lease a reclaim releases, it leaves nothing of it behind: the
/// attempt of the lease has ended and so has its invocation, unless the
/// reclaimer drives them or, for the invocation, somebody claims it later; and
/// the environment has ended or is fenced, unless it is the reclaimer's.
pub proof fn law_a_reclaim_leaves_nothing_behind(
    s: SlotView,
    t: SlotView,
    request: ReclaimRequest,
    key: Seq<Seq<char>>,
)
    requires
        slots::reclaimed(s, t, request),
        s.work.leases.contains_key(key),
        s.work.leases[key].released_at is None,
        t.work.leases[key].released_at is Some,
        forall|k: Seq<Seq<char>>| #[trigger]
            s.work.attempts.contains_key(k) ==> k == seq![s.work.attempts[k].id@],
        forall|k: Seq<Seq<char>>| #[trigger]
            s.work.invocations.contains_key(k) ==> k == seq![s.work.invocations[k].id@],
        forall|k: Seq<Seq<char>>| #[trigger]
            s.work.environments.contains_key(k) ==> k == seq![s.work.environments[k].id@],
    ensures
        ({
            let l = s.work.leases[key];
            let a = s.work.attempts[seq![l.attempt_id@]];
            let i = s.work.invocations[seq![a.invocation_id@]];
            let e = s.work.environments[seq![l.environment_id@]];
            &&& s.work.attempts.contains_key(seq![l.attempt_id@]) && !owned_by(
                driven_by(s, a),
                request.reclaimer@,
            ) ==> !(t.work.attempts[seq![l.attempt_id@]].status is Dispatched)
            &&& s.work.attempts.contains_key(seq![l.attempt_id@])
                && s.work.invocations.contains_key(seq![a.invocation_id@]) && !owned_by(
                i.dispatcher_id,
                request.reclaimer@,
            ) && i.mode != InvocationMode::Async ==> !is_open(
                t.work.invocations[seq![a.invocation_id@]],
            )
            &&& s.work.environments.contains_key(seq![l.environment_id@]) && !owned_by(
                e.owner,
                request.reclaimer@,
            ) ==> !is_up(t.work.environments[seq![l.environment_id@]])
                || t.work.environments[seq![l.environment_id@]].fenced_at is Some
        }),
{
    let l = s.work.leases[key];
    law_a_reclaim_releases_the_forfeit(s, t, request, key);
    if s.work.attempts.contains_key(seq![l.attempt_id@]) {
        let a = s.work.attempts[seq![l.attempt_id@]];
        assert(seq![l.attempt_id@][0] == seq![a.id@][0]);
        law_a_reclaim_ends_the_attempts_it_takes(s, t, request, seq![l.attempt_id@]);
        if s.work.invocations.contains_key(seq![a.invocation_id@]) {
            let i = s.work.invocations[seq![a.invocation_id@]];
            assert(seq![a.invocation_id@][0] == seq![i.id@][0]);
            law_a_reclaim_ends_the_invocations_it_takes(s, t, request, seq![a.invocation_id@]);
        }
    }
    if s.work.environments.contains_key(seq![l.environment_id@]) {
        let e = s.work.environments[seq![l.environment_id@]];
        assert(seq![l.environment_id@][0] == seq![e.id@][0]);
        law_a_reclaim_fences_what_it_takes(s, t, request, seq![l.environment_id@]);
    }
}

/// The keys whose rows differ.
pub open spec fn changed<V>(old: Rows<V>, new: Rows<V>) -> Set<Seq<Seq<char>>> {
    old.dom().filter(|k: Seq<Seq<char>>| new[k] != old[k])
}

/// The report of a reclaim names the dispatchers and the environments whose
/// rows the reclaim changed, by key, and counts the leases, the invocations
/// and the attempts whose rows it changed.
pub proof fn law_a_reclaim_reports_what_it_changed(
    s: SlotView,
    t: SlotView,
    request: ReclaimRequest,
    r: ReclaimReport,
)
    requires
        slots::reclaimed(s, t, request),
        slots::reports(s, t, request, r),
    ensures
        r.leases == changed(s.work.leases, t.work.leases).len(),
        r.invocations == changed(s.work.invocations, t.work.invocations).len(),
        r.attempts == changed(s.work.attempts, t.work.attempts).len(),
        forall|k: Seq<Seq<char>>|
            r.dispatchers@.map_values(|id: String| seq![id@]).contains(k) <==> #[trigger] changed(
                s.dispatchers,
                t.dispatchers,
            ).contains(k),
        forall|k: Seq<Seq<char>>|
            r.fenced@.map_values(|e: ExecutionEnvironment| seq![e.id@]).contains(k)
                <==> #[trigger] changed(s.work.environments, t.work.environments).contains(k),
        forall|i: int|
            0 <= i < r.fenced@.len() ==> t.work.environments[seq![(#[trigger] r.fenced@[i]).id@]]
                == r.fenced@[i],
{
    lemma_reported_leases(s, t, request);
    lemma_reported_work(s, t, request);
    lemma_reported_rows(s, t, request);
    assert(r.dispatchers@.map_values(|id: String| seq![id@]) =~= r.dispatchers@.map_values(
        |id: String| table::k1(id@),
    ));
    assert(r.fenced@.map_values(|e: ExecutionEnvironment| seq![e.id@]) =~= r.fenced@.map_values(
        |e: ExecutionEnvironment| table::k1(e.id@),
    ));
}

proof fn lemma_reported_leases(s: SlotView, t: SlotView, request: ReclaimRequest)
    requires
        slots::reclaimed(s, t, request),
    ensures
        listing::matching(s.work.leases, slots::to_release(s, request)) == changed(
            s.work.leases,
            t.work.leases,
        ),
{
    assert forall|k: Seq<Seq<char>>| #[trigger] s.work.leases.contains_key(k) implies (
    slots::to_release(s, request)(s.work.leases[k]) <==> t.work.leases[k] != s.work.leases[k]) by {
    }
    assert(listing::matching(s.work.leases, slots::to_release(s, request)) =~= changed(
        s.work.leases,
        t.work.leases,
    ));
}

proof fn lemma_reported_work(s: SlotView, t: SlotView, request: ReclaimRequest)
    requires
        slots::reclaimed(s, t, request),
    ensures
        listing::matching(s.work.invocations, slots::to_settle(s, request)) == changed(
            s.work.invocations,
            t.work.invocations,
        ),
        listing::matching(s.work.attempts, slots::attempts_to_settle(s, request)) == changed(
            s.work.attempts,
            t.work.attempts,
        ),
{
    assert forall|k: Seq<Seq<char>>| #[trigger] s.work.invocations.contains_key(k) implies (
    slots::to_settle(s, request)(s.work.invocations[k]) <==> t.work.invocations[k]
        != s.work.invocations[k]) by {
        law_a_reclaim_ends_the_invocations_it_takes(s, t, request, k);
        lemma_invocation_fate(s, s.work.invocations[k], request);
    }
    assert(listing::matching(s.work.invocations, slots::to_settle(s, request)) =~= changed(
        s.work.invocations,
        t.work.invocations,
    ));
    assert forall|k: Seq<Seq<char>>| #[trigger] s.work.attempts.contains_key(k) implies (
    slots::attempts_to_settle(s, request)(s.work.attempts[k]) <==> t.work.attempts[k]
        != s.work.attempts[k]) by {
        law_a_reclaim_ends_the_attempts_it_takes(s, t, request, k);
        lemma_attempt_fate(s, s.work.attempts[k], request);
    }
    assert(listing::matching(s.work.attempts, slots::attempts_to_settle(s, request)) =~= changed(
        s.work.attempts,
        t.work.attempts,
    ));
}

proof fn lemma_reported_rows(s: SlotView, t: SlotView, request: ReclaimRequest)
    requires
        slots::reclaimed(s, t, request),
    ensures
        listing::matching(s.dispatchers, slots::to_reclaim(request)) == changed(
            s.dispatchers,
            t.dispatchers,
        ),
        listing::matching(s.work.environments, slots::to_fence(s, request)) == changed(
            s.work.environments,
            t.work.environments,
        ),
{
    assert forall|k: Seq<Seq<char>>| #[trigger] s.dispatchers.contains_key(k) implies (
    slots::to_reclaim(request)(s.dispatchers[k]) <==> t.dispatchers[k] != s.dispatchers[k]) by {
    }
    assert(listing::matching(s.dispatchers, slots::to_reclaim(request)) =~= changed(
        s.dispatchers,
        t.dispatchers,
    ));
    assert forall|k: Seq<Seq<char>>| #[trigger] s.work.environments.contains_key(k) implies (
    slots::to_fence(s, request)(s.work.environments[k]) <==> t.work.environments[k]
        != s.work.environments[k]) by {
    }
    assert(listing::matching(s.work.environments, slots::to_fence(s, request)) =~= changed(
        s.work.environments,
        t.work.environments,
    ));
}

/// A heartbeat moves the dispatcher's own lease and the slot leases it holds
/// that have not ended to `ttl` after now, and nothing else.
pub proof fn law_a_heartbeat_extends_what_has_not_ended(
    old: SlotView,
    new: SlotView,
    id: Seq<char>,
    now: Timestamp,
    ttl: Span,
    key: Seq<Seq<char>>,
)
    requires
        slots::renewal(old, new, id, slots::unexpired(id, now), now, ttl),
    ensures
        new.dispatchers == old.dispatchers.insert(
            seq![id],
            DispatcherRecord {
                heartbeat_at: now,
                lease_expires_at: time::after(now, ttl),
                ..old.dispatchers[seq![id]]
            },
        ),
        new.work.leases.dom() == old.work.leases.dom(),
        old.work.leases.contains_key(key) ==> new.work.leases[key] == ({
            let l = old.work.leases[key];
            if l.released_at is None && owned_by(l.owner, id) && l.expires_at is Some && now
                < l.expires_at->0 {
                ExecutionLease { expires_at: Some(time::after(now, ttl)), ..l }
            } else {
                l
            }
        }),
        new.work.environments == old.work.environments,
        new.work.invocations == old.work.invocations,
        new.work.attempts == old.work.attempts,
        new.work.idempotency == old.work.idempotency,
        new.work.inputs == old.work.inputs,
        listing::matching(old.work.leases, slots::unexpired(id, now)) == old.work.leases.dom().filter(
            |k: Seq<Seq<char>>|
                old.work.leases[k].released_at is None && owned_by(old.work.leases[k].owner, id)
                    && old.work.leases[k].expires_at is Some && now
                    < old.work.leases[k].expires_at->0,
        ),
{
    assert(listing::matching(old.work.leases, slots::unexpired(id, now))
        =~= old.work.leases.dom().filter(
        |k: Seq<Seq<char>>|
            old.work.leases[k].released_at is None && owned_by(old.work.leases[k].owner, id)
                && old.work.leases[k].expires_at is Some && now < old.work.leases[k].expires_at->0,
    ));
}

/// After an outage of the store, a dispatcher's own lease and every unreleased
/// slot lease it holds move to `ttl` after now, ended or not.
pub proof fn law_an_outage_ends_no_lease(
    old: SlotView,
    new: SlotView,
    id: Seq<char>,
    now: Timestamp,
    ttl: Span,
    key: Seq<Seq<char>>,
)
    requires
        slots::renewal(old, new, id, slots::held_by(id), now, ttl),
    ensures
        new.dispatchers == old.dispatchers.insert(
            seq![id],
            DispatcherRecord {
                heartbeat_at: now,
                lease_expires_at: time::after(now, ttl),
                ..old.dispatchers[seq![id]]
            },
        ),
        new.work.leases.dom() == old.work.leases.dom(),
        old.work.leases.contains_key(key) ==> new.work.leases[key] == ({
            let l = old.work.leases[key];
            if l.released_at is None && owned_by(l.owner, id) {
                ExecutionLease { expires_at: Some(time::after(now, ttl)), ..l }
            } else {
                l
            }
        }),
        listing::matching(old.work.leases, slots::held_by(id)) == old.work.leases.dom().filter(
            |k: Seq<Seq<char>>|
                old.work.leases[k].released_at is None && owned_by(old.work.leases[k].owner, id),
        ),
{
    assert(listing::matching(old.work.leases, slots::held_by(id))
        =~= old.work.leases.dom().filter(
        |k: Seq<Seq<char>>|
            old.work.leases[k].released_at is None && owned_by(old.work.leases[k].owner, id),
    ));
}

/// Stopping sets the time of the stop, once, and nothing else.
pub proof fn law_a_stop_is_recorded_once(d: DispatcherRecord, now: Timestamp, later: Timestamp)
    ensures
        d.stopped_at is None ==> slots::stopped(d, now) == (DispatcherRecord {
            stopped_at: Some(now),
            ..d
        }),
        d.stopped_at is Some ==> slots::stopped(d, now) == d,
        slots::stopped(slots::stopped(d, now), later) == slots::stopped(d, now),
{
}

/// The request names one environment, one attempt and one epoch throughout, and
/// asks for a busy row under an owned, dated and unreleased lease.
pub open spec fn is_well_formed(request: SlotAcquire) -> bool {
    &&& request.env.epoch == request.expected_epoch + 1
    &&& request.lease.epoch == request.expected_epoch + 1
    &&& request.attempt.epoch == request.expected_epoch + 1
    &&& request.lease.environment_id@ == request.env.id@
    &&& request.attempt.environment_id@ == request.env.id@
    &&& request.lease.attempt_id@ == request.attempt.id@
    &&& request.lease.owner is Some
    &&& request.lease.expires_at is Some
    &&& request.lease.released_at is None
    &&& request.env.state is Busy
}

/// The stored environment may be taken: it is the owner's, unfenced, at the
/// expected epoch, and ready or idle.
pub open spec fn may_be_taken(row: ExecutionEnvironment, request: SlotAcquire) -> bool {
    &&& guard_laws::same_option(row.owner, request.lease.owner)
    &&& row.fenced_at is None
    &&& row.epoch == request.expected_epoch
    &&& row.state is Ready || row.state is Idle
}

/// Nobody holds a lease on the environment.
pub open spec fn is_unleased(leases: Rows<ExecutionLease>, env: Seq<char>) -> bool {
    forall|k: Seq<Seq<char>>| #[trigger]
        leases.contains_key(k) ==> leases[k].released_at is Some || leases[k].environment_id@ != env
}

/// The invocation that moves along, if any, is stored and open, and the guard
/// lets the new row through.
pub open spec fn may_move(
    invocations: Rows<Invocation>,
    inv: Option<Invocation>,
    max_inline: u64,
) -> bool {
    inv is Some ==> invocations.contains_key(seq![inv->0.id@]) && is_open(
        invocations[seq![inv->0.id@]],
    ) && guard::invocation_rule(invocations[seq![inv->0.id@]], inv->0, max_inline) is Ok
}

/// The dispatcher is registered, has not stopped and was not reclaimed.
pub open spec fn is_registered(dispatchers: Rows<DispatcherRecord>, id: Seq<char>) -> bool {
    dispatchers.contains_key(seq![id]) && dispatchers[seq![id]].stopped_at is None
        && dispatchers[seq![id]].reclaimed_at is None
}

/// A slot is acquired exactly where the request is well-formed, the environment
/// may be taken and nobody holds it, the owner is live, the invocation may move
/// along, and the attempt and the lease are new and of their parents' tenants.
pub proof fn law_when_a_slot_is_acquired(s: SlotView, request: SlotAcquire, max_inline: u64)
    ensures
        slots::acquire_rule(s, request, max_inline) is Done <==> ({
            let env = request.env;
            let row = s.work.environments[seq![env.id@]];
            &&& is_well_formed(request)
            &&& s.work.environments.contains_key(seq![env.id@])
            &&& guard_laws::environment_kept(row, env)
            &&& may_be_taken(row, request)
            &&& is_unleased(s.work.leases, env.id@)
            &&& is_registered(s.dispatchers, request.lease.owner->0@)
            &&& may_move(s.work.invocations, request.invocation, max_inline)
            &&& !s.work.attempts.contains_key(seq![request.attempt.id@])
            &&& !s.work.leases.contains_key(seq![request.lease.id@])
            &&& s.work.invocations.contains_key(seq![request.attempt.invocation_id@])
                ==> s.work.invocations[seq![request.attempt.invocation_id@]].tenant_id@
                == request.attempt.tenant_id@
            &&& request.lease.tenant_id@ == env.tenant_id@
        }),
{
    let p = slots::lease_of(request.env.id@);
    assert(listing::none_of(s.work.leases, p) <==> is_unleased(s.work.leases, request.env.id@)) by {
        if is_unleased(s.work.leases, request.env.id@) {
            assert forall|j: Seq<Seq<char>>| s.work.leases.contains_key(j) implies !p(
                #[trigger] s.work.leases[j],
            ) by {
                assert(s.work.leases.contains_key(j));
            }
        }
    }
}

/// Where a request is well-formed and the environment is there and is the one
/// that the request names, the answer is that the slot is lost, and no error, if
/// the environment may not be taken, somebody holds it, the owner is not live,
/// or the invocation has ended.
pub proof fn law_when_a_slot_is_lost(s: SlotView, request: SlotAcquire, max_inline: u64)
    requires
        is_well_formed(request),
        s.work.environments.contains_key(seq![request.env.id@]),
        guard_laws::environment_kept(
            s.work.environments[seq![request.env.id@]],
            request.env,
        ),
    ensures
        slots::acquire_rule(s, request, max_inline) is Lost <==> ({
            let row = s.work.environments[seq![request.env.id@]];
            ||| !may_be_taken(row, request)
            ||| !is_unleased(s.work.leases, request.env.id@)
            ||| !is_registered(s.dispatchers, request.lease.owner->0@)
            ||| request.invocation is Some && s.work.invocations.contains_key(
                seq![request.invocation->0.id@],
            ) && !is_open(s.work.invocations[seq![request.invocation->0.id@]])
        }),
{
    let p = slots::lease_of(request.env.id@);
    assert(listing::none_of(s.work.leases, p) <==> is_unleased(s.work.leases, request.env.id@)) by {
        if is_unleased(s.work.leases, request.env.id@) {
            assert forall|j: Seq<Seq<char>>| s.work.leases.contains_key(j) implies !p(
                #[trigger] s.work.leases[j],
            ) by {
                assert(s.work.leases.contains_key(j));
            }
        }
    }
}

/// An acquire writes the environment, the lease, the attempt and, where one
/// moves along, the invocation, each as the request has it, and nothing else.
pub proof fn law_what_an_acquire_writes(s: SlotView, request: SlotAcquire)
    ensures
        ({
            let t = slots::acquired(s, request);
            &&& t.work.environments == s.work.environments.insert(
                seq![request.env.id@],
                request.env,
            )
            &&& t.work.leases == s.work.leases.insert(seq![request.lease.id@], request.lease)
            &&& t.work.attempts == s.work.attempts.insert(
                seq![request.attempt.id@],
                request.attempt,
            )
            &&& t.work.invocations == if request.invocation is Some {
                s.work.invocations.insert(
                    seq![request.invocation->0.id@],
                    request.invocation->0,
                )
            } else {
                s.work.invocations
            }
            &&& t.work.idempotency == s.work.idempotency
            &&& t.work.inputs == s.work.inputs
            &&& t.dispatchers == s.dispatchers
        }),
{
}

/// A lease still holds for an attempt at an epoch: it is unreleased and for that
/// attempt and epoch, and its environment, where it is there, is unfenced and at
/// that epoch.
pub open spec fn still_holds(s: SlotView, lease: Seq<char>, attempt: Seq<char>, epoch: u64) -> bool {
    let l = s.work.leases[seq![lease]];
    let e = s.work.environments[seq![l.environment_id@]];
    &&& s.work.leases.contains_key(seq![lease])
    &&& l.released_at is None
    &&& l.attempt_id@ == attempt
    &&& l.epoch == epoch
    &&& s.work.environments.contains_key(seq![l.environment_id@]) ==> e.epoch == epoch
        && e.fenced_at is None
}

/// A completion is accepted exactly where its lease still holds, its attempt is
/// stored, has not ended and may be rewritten, and its invocation may move
/// along. It is stale where the lease no longer holds, or else the attempt or,
/// once the attempt may be rewritten, the invocation has ended.
pub proof fn law_when_a_completion_is_accepted(s: SlotView, c: SlotCompletion, max_inline: u64)
    ensures
        slots::current(s, c.lease_id@, c.attempt.id@, c.attempt.epoch) is None <==> still_holds(
            s,
            c.lease_id@,
            c.attempt.id@,
            c.attempt.epoch,
        ),
        ({
            let holds = still_holds(s, c.lease_id@, c.attempt.id@, c.attempt.epoch);
            let a = s.work.attempts[seq![c.attempt.id@]];
            let stored = s.work.attempts.contains_key(seq![c.attempt.id@]);
            let ended = c.invocation is Some && s.work.invocations.contains_key(
                seq![c.invocation->0.id@],
            ) && !is_open(s.work.invocations[seq![c.invocation->0.id@]]);
            let rule = slots::completion_rule(s, c, max_inline);
            &&& rule is Done <==> holds && stored && a.status is Dispatched && guard::attempt_rule(
                a,
                c.attempt,
            ) is Ok && may_move(s.work.invocations, c.invocation, max_inline)
            &&& rule is Lost <==> !holds || (stored && !(a.status is Dispatched)) || (stored
                && guard::attempt_rule(a, c.attempt) is Ok && ended)
        }),
{
}

/// A completion releases its lease and writes the attempt and, where one moves
/// along, the invocation, and nothing else.
pub proof fn law_what_a_completion_writes(s: SlotView, c: SlotCompletion)
    ensures
        ({
            let t = slots::completed(s, c);
            &&& t.work.leases == s.work.leases.insert(
                seq![c.lease_id@],
                ExecutionLease {
                    released_at: Some(c.now),
                    ..s.work.leases[seq![c.lease_id@]]
                },
            )
            &&& t.work.attempts == s.work.attempts.insert(seq![c.attempt.id@], c.attempt)
            &&& t.work.invocations == if c.invocation is Some {
                s.work.invocations.insert(seq![c.invocation->0.id@], c.invocation->0)
            } else {
                s.work.invocations
            }
            &&& t.work.environments == s.work.environments
            &&& t.work.idempotency == s.work.idempotency
            &&& t.work.inputs == s.work.inputs
            &&& t.dispatchers == s.dispatchers
        }),
{
}

/// Releasing a lease dates its release and changes nothing else of it.
pub proof fn law_what_a_release_writes(
    leases: Rows<ExecutionLease>,
    id: Seq<char>,
    now: Timestamp,
    owner: Seq<char>,
)
    ensures
        slots::released(leases, id, now) == leases.insert(
            seq![id],
            ExecutionLease { released_at: Some(now), ..leases[seq![id]] },
        ),
        slots::unexpired(owner, now)(leases[seq![id]]) <==> leases[seq![id]].released_at is None
            && owned_by(leases[seq![id]].owner, owner) && leases[seq![id]].expires_at is Some && now
            < leases[seq![id]].expires_at->0,
{
}

/// Which environments wait for somebody to confirm that they are gone, which are
/// idle, and which may be reused: those of the asked owner, none where none is
/// asked for, that are idle under an equal key.
pub proof fn law_which_environments_are_listed(
    e: ExecutionEnvironment,
    key: ReuseKey,
    owner: Option<&str>,
)
    ensures
        slots::awaiting()(e) <==> e.fenced_at is Some && is_up(e),
        slots::idle_of(slots::asked(owner))(e) <==> e.state is Idle && (if owner is Some {
            owned_by(e.owner, owner->0@)
        } else {
            e.owner is None
        }),
        slots::reusable(key, slots::asked(owner))(e) <==> e.state is Idle
            && guard_laws::same_key(e.reuse_key, key) && (if owner is Some {
            owned_by(e.owner, owner->0@)
        } else {
            e.owner is None
        }),
{
}

/// An environment that is claimed for reuse is ready again at the same epoch; one
/// that goes to the pool is idle since now.
pub proof fn law_what_the_pool_writes(e: ExecutionEnvironment, now: Timestamp)
    ensures
        slots::reserved(e, now) == (ExecutionEnvironment {
            state: EnvironmentState::Ready,
            updated_at: now,
            idle_since: None,
            ..e
        }),
        memory::pooled(e, now) == (ExecutionEnvironment {
            state: EnvironmentState::Idle,
            updated_at: now,
            idle_since: Some(now),
            ..e
        }),
{
}

/// The row may go to the pool: it is busy, or ready and never used.
pub open spec fn may_be_pooled(e: ExecutionEnvironment) -> bool {
    e.state is Busy || (e.state is Ready && e.epoch == 0)
}

/// An environment goes to the pool exactly where the copy is of the stored
/// epoch, the stored row is unfenced and both may be pooled, nobody holds a
/// lease on it, the pool has room, in all and under its key, and the guard lets
/// the idle row through.
pub proof fn law_when_an_environment_is_pooled(
    s: SlotView,
    env: ExecutionEnvironment,
    limits: PoolLimits,
    now: Timestamp,
)
    ensures
        ({
            let row = s.work.environments[seq![env.id@]];
            let idle = s.work.environments.dom().filter(
                |k: Seq<Seq<char>>| s.work.environments[k].state is Idle,
            );
            let alike = s.work.environments.dom().filter(
                |k: Seq<Seq<char>>|
                    s.work.environments[k].state is Idle && guard_laws::same_key(
                        s.work.environments[k].reuse_key,
                        env.reuse_key,
                    ),
            );
            let fits = s.work.environments.contains_key(seq![env.id@]) && row.epoch == env.epoch
                && row.fenced_at is None && may_be_pooled(row) && may_be_pooled(env) && is_unleased(
                s.work.leases,
                env.id@,
            ) && idle.len() < limits.max_total_idle && alike.len() < limits.max_idle_per_key;
            let rule = slots::pool_rule(s, env, limits, now);
            &&& !fits <==> rule == Ok::<Option<ExecutionEnvironment>, RepoErrorView>(None)
            &&& fits && guard::environment_rule(row, memory::pooled(env, now)) is Ok ==> rule == Ok::<
                Option<ExecutionEnvironment>,
                RepoErrorView,
            >(Some(memory::pooled(env, now)))
            &&& fits && guard::environment_rule(row, memory::pooled(env, now)) is Err ==> rule
                is Err
        }),
{
    let p = slots::lease_of(env.id@);
    assert(listing::none_of(s.work.leases, p) <==> is_unleased(s.work.leases, env.id@)) by {
        if is_unleased(s.work.leases, env.id@) {
            assert forall|j: Seq<Seq<char>>| s.work.leases.contains_key(j) implies !p(
                #[trigger] s.work.leases[j],
            ) by {
                assert(s.work.leases.contains_key(j));
            }
        }
    }
    assert(listing::matching(s.work.environments, memory::idle())
        =~= s.work.environments.dom().filter(
        |k: Seq<Seq<char>>| s.work.environments[k].state is Idle,
    ));
    assert(listing::matching(s.work.environments, memory::idle_for(env.reuse_key))
        =~= s.work.environments.dom().filter(
        |k: Seq<Seq<char>>|
            s.work.environments[k].state is Idle && guard_laws::same_key(
                s.work.environments[k].reuse_key,
                env.reuse_key,
            ),
    ));
}

/// A dispatcher is registered under a new id only, and stopped where it is
/// registered; neither touches another dispatcher or any work.
pub proof fn law_dispatchers_come_and_go(
    s: SlotView,
    record: DispatcherRecord,
    id: Seq<char>,
    now: Timestamp,
)
    ensures
        slots::register_rule(s, record) is Ok <==> !s.dispatchers.contains_key(seq![record.id@]),
        slots::register_rule(s, record) is Err ==> slots::register_rule(s, record) == Err::<
            (),
            RepoErrorView,
        >(RepoErrorView::Conflict("dispatcher"@ + " "@ + record.id@ + " already exists"@)),
        slots::registered(s, record).dispatchers == s.dispatchers.insert(
            seq![record.id@],
            record,
        ),
        slots::registered(s, record).work == s.work,
        slots::stop_rule(s, id) is Ok <==> s.dispatchers.contains_key(seq![id]),
        slots::stop_rule(s, id) is Err ==> slots::stop_rule(s, id) == Err::<(), RepoErrorView>(
            RepoErrorView::NotFound("dispatcher"@ + " "@ + id),
        ),
        slots::with_stopped(s, id, now).work == s.work,
        slots::with_stopped(s, id, now).dispatchers == s.dispatchers.insert(
            seq![id],
            DispatcherRecord {
                stopped_at: if s.dispatchers[seq![id]].stopped_at is Some {
                    s.dispatchers[seq![id]].stopped_at
                } else {
                    Some(now)
                },
                ..s.dispatchers[seq![id]]
            },
        ),
{
}

/// A single lease is renewed exactly where it is unreleased, the owner's, at the
/// epoch and has not ended; it then lasts `ttl` from now.
pub proof fn law_when_a_lease_is_renewed(
    s: SlotView,
    id: Seq<char>,
    owner: Seq<char>,
    epoch: u64,
    now: Timestamp,
    ttl: Span,
)
    ensures
        slots::is_renewable(s, id, owner, epoch, now) <==> ({
            let l = s.work.leases[seq![id]];
            s.work.leases.contains_key(seq![id]) && l.released_at is None && owned_by(l.owner, owner)
                && l.epoch == epoch && l.expires_at is Some && now < l.expires_at->0
        }),
        ({
            let t = slots::with_renewed(s, id, now, ttl);
            &&& t.dispatchers == s.dispatchers
            &&& t.work.environments == s.work.environments
            &&& t.work.invocations == s.work.invocations
            &&& t.work.attempts == s.work.attempts
            &&& t.work.leases == s.work.leases.insert(
                seq![id],
                ExecutionLease {
                    expires_at: Some(time::after(now, ttl)),
                    ..s.work.leases[seq![id]]
                },
            )
        }),
        slots::with_released(s, id, now).work.leases == s.work.leases.insert(
            seq![id],
            ExecutionLease { released_at: Some(now), ..s.work.leases[seq![id]] },
        ),
        slots::with_released(s, id, now).work.environments == s.work.environments,
        slots::with_released(s, id, now).work.attempts == s.work.attempts,
        slots::with_released(s, id, now).work.invocations == s.work.invocations,
        slots::with_released(s, id, now).dispatchers == s.dispatchers,
{
}

/// The end of an environment is confirmed where it is fenced, up and at the
/// epoch; an idle one is taken for termination; and what goes to the pool, or
/// out of it, changes its own row only.
pub proof fn law_how_an_environment_leaves(
    s: SlotView,
    id: Seq<char>,
    epoch: u64,
    env: ExecutionEnvironment,
    now: Timestamp,
)
    ensures
        slots::is_awaited(s, id, epoch) <==> ({
            let e = s.work.environments[seq![id]];
            s.work.environments.contains_key(seq![id]) && e.fenced_at is Some && is_up(e) && e.epoch
                == epoch
        }),
        slots::is_idle(s, id) <==> s.work.environments.contains_key(seq![id])
            && s.work.environments[seq![id]].state is Idle,
        slots::with_drained(s, id, now) == (SlotView {
            work: WorkView {
                environments: s.work.environments.insert(
                    seq![id],
                    ExecutionEnvironment {
                        state: EnvironmentState::Draining,
                        updated_at: now,
                        idle_since: None,
                        ..s.work.environments[seq![id]]
                    },
                ),
                ..s.work
            },
            ..s
        }),
        slots::with_pooled(s, env, now) == (SlotView {
            work: WorkView {
                environments: s.work.environments.insert(
                    seq![env.id@],
                    ExecutionEnvironment {
                        state: EnvironmentState::Idle,
                        updated_at: now,
                        idle_since: Some(now),
                        ..env
                    },
                ),
                ..s.work
            },
            ..s
        }),
{
}

/// What a restart leaves of a row: an open invocation ends, with an unknown
/// outcome where it was running; a dispatched attempt ends, with an unknown
/// outcome where its invocation's is; an environment that is up is lost; what
/// has ended stays as it was.
pub proof fn law_what_a_restart_settles(
    i: (Invocation, Invocation),
    a: (InvocationAttempt, InvocationAttempt),
    e: (ExecutionEnvironment, ExecutionEnvironment),
    unknown: bool,
    cause: Cause,
    now: Timestamp,
)
    requires
        restart::is_restarted(cause),
    ensures
        restart::settled_invocation(i.0, i.1, cause, now) <==> if is_open(i.0) {
            invocation_ended(i.0, i.1, true, now)
        } else {
            i.1 == i.0
        },
        restart::settled_attempt(a.0, a.1, unknown, cause, now) <==> if a.0.status is Dispatched {
            attempt_ended(a.0, a.1, unknown, true, now)
        } else {
            a.1 == a.0
        },
        restart::settled_environment(e.0, e.1, now) <==> if is_up(e.0) {
            &&& e.1 == (ExecutionEnvironment {
                state: e.1.state,
                updated_at: now,
                idle_since: None,
                ..e.0
            })
            &&& e.1.state is Lost && e.1.state->reason@ == "gateway restarted"@
        } else {
            e.1 == e.0
        },
{
}

} // verus!
