//! The slots: which dispatchers are live, which leases they hold, and what
//! becomes of the work of a dispatcher that can no longer be trusted.
//!
//! A reclaim happens once. It releases the leases, settles the attempts and
//! invocations and fences the environments of dispatchers that stopped or
//! whose lease passed. Expiry alone never frees or reuses an environment: a
//! fenced one is settled by a confirmed terminate only.

use vstd::prelude::*;

use crate::domain::environment::{
    EnvironmentState, ExecutionEnvironment, ExecutionLease, ReuseKey,
};
use crate::domain::invocation::{Invocation, InvocationAttempt, InvocationMode};
use crate::listing;
use crate::listing::Rows;
use crate::repository::guard;
use crate::repository::memory;
use crate::repository::reconcile::{Work, WorkView};
use crate::repository::restart;
use crate::repository::restart::Cause;
use crate::repository::slot;
use crate::repository::slot::{
    AcquireOutcome, CompletionOutcome, DispatcherRecord, HeartbeatOutcome, ReclaimReport,
    ReclaimRequest, SlotAcquire, SlotCompletion,
};
use crate::repository::sqlite;
use crate::repository::{PoolLimits, RepoError, RepoErrorView};
use crate::table;
use crate::table::{Key, Table};
use crate::text;
use crate::time;
use crate::time::{Span, Timestamp};

verus! {

/// The dispatchers by id, and the rows they work on.
pub struct SlotLedger {
    pub dispatchers: Table<DispatcherRecord>,
    pub work: Work,
}

/// Content of the slots.
pub ghost struct SlotView {
    pub dispatchers: Rows<DispatcherRecord>,
    pub work: WorkView,
}

impl View for SlotLedger {
    type V = SlotView;

    open spec fn view(&self) -> SlotView {
        SlotView { dispatchers: self.dispatchers@, work: self.work@ }
    }
}

/// The row of an id.
pub open spec fn row_of<V>(rows: Rows<V>, id: Seq<char>) -> Option<V> {
    if rows.contains_key(table::k1(id)) {
        Some(rows[table::k1(id)])
    } else {
        None
    }
}

/// The dispatcher is registered and neither stopped nor reclaimed.
pub open spec fn is_live(dispatchers: Rows<DispatcherRecord>, id: Seq<char>) -> bool {
    match row_of(dispatchers, id) {
        Some(d) => d.live(),
        None => false,
    }
}

/// The dispatcher is live and its own lease has not passed.
pub open spec fn may_renew(dispatchers: Rows<DispatcherRecord>, id: Seq<char>, now: Timestamp) -> bool {
    is_live(dispatchers, id) && now < dispatchers[table::k1(id)].lease_expires_at
}

/// Dispatchers by id.
pub open spec fn dispatcher_order() -> spec_fn(DispatcherRecord, DispatcherRecord) -> bool {
    |d: DispatcherRecord, e: DispatcherRecord| text::text_lt(d.id@, e.id@)
}

/// A dispatcher whose lease was renewed.
pub open spec fn renewed(d: DispatcherRecord, now: Timestamp, ttl: Span) -> DispatcherRecord {
    DispatcherRecord { heartbeat_at: now, lease_expires_at: time::after(now, ttl), ..d }
}

/// A lease that `owner` holds.
pub open spec fn held_by(owner: Seq<char>) -> spec_fn(ExecutionLease) -> bool {
    |l: ExecutionLease| l.released_at is None && text::opt_view(l.owner) == Some(owner)
}

/// A lease that `owner` holds and whose expiry has not come.
pub open spec fn unexpired(owner: Seq<char>, now: Timestamp) -> spec_fn(ExecutionLease) -> bool {
    |l: ExecutionLease|
        held_by(owner)(l) && l.expires_at is Some && now < l.expires_at->0
}

/// A lease with its expiry moved to `ttl` after `now`.
pub open spec fn extended(now: Timestamp, ttl: Span) -> spec_fn(ExecutionLease, ExecutionLease) -> bool {
    |l: ExecutionLease, m: ExecutionLease|
        m == (ExecutionLease { expires_at: Some(time::after(now, ttl)), ..l })
}

/// A dispatcher that stopped; the first stop counts.
pub open spec fn stopped(d: DispatcherRecord, now: Timestamp) -> DispatcherRecord {
    if d.stopped_at is Some {
        d
    } else {
        DispatcherRecord { stopped_at: Some(now), ..d }
    }
}

/// What a renewal writes: the dispatcher's lease and the leases that match.
pub open spec fn renewal(
    old: SlotView,
    new: SlotView,
    id: Seq<char>,
    p: spec_fn(ExecutionLease) -> bool,
    now: Timestamp,
    ttl: Span,
) -> bool {
    &&& new.dispatchers == old.dispatchers.insert(
        table::k1(id),
        renewed(old.dispatchers[table::k1(id)], now, ttl),
    )
    &&& new.work == (WorkView { leases: new.work.leases, ..old.work })
    &&& listing::rewritten(old.work.leases, new.work.leases, p, extended(now, ttl))
}

/// Whether a dispatcher is registered: its id is new.
pub open spec fn register_rule(s: SlotView, record: DispatcherRecord) -> Result<(), RepoErrorView> {
    if s.dispatchers.contains_key(table::k1(record.id@)) {
        Err(sqlite::duplicate_row("dispatcher"@, record.id@))
    } else {
        Ok(())
    }
}

/// The dispatcher is registered.
pub open spec fn registered(s: SlotView, record: DispatcherRecord) -> SlotView {
    SlotView { dispatchers: s.dispatchers.insert(table::k1(record.id@), record), ..s }
}

/// Whether a dispatcher is stopped: it is registered.
pub open spec fn stop_rule(s: SlotView, id: Seq<char>) -> Result<(), RepoErrorView> {
    if s.dispatchers.contains_key(table::k1(id)) {
        Ok(())
    } else {
        Err(sqlite::missing_row("dispatcher"@, id))
    }
}

/// The dispatcher is stopped.
pub open spec fn with_stopped(s: SlotView, id: Seq<char>, now: Timestamp) -> SlotView {
    SlotView {
        dispatchers: s.dispatchers.insert(
            table::k1(id),
            stopped(s.dispatchers[table::k1(id)], now),
        ),
        ..s
    }
}

/// Whether a lease is renewed: it is there, its owner's, unreleased, at the epoch
/// and has not ended.
pub open spec fn is_renewable(
    s: SlotView,
    id: Seq<char>,
    owner: Seq<char>,
    epoch: u64,
    now: Timestamp,
) -> bool {
    match row_of(s.work.leases, id) {
        Some(l) => unexpired(owner, now)(l) && l.epoch == epoch,
        None => false,
    }
}

/// The lease is renewed.
pub open spec fn with_renewed(s: SlotView, id: Seq<char>, now: Timestamp, ttl: Span) -> SlotView {
    SlotView {
        work: WorkView {
            leases: s.work.leases.insert(
                table::k1(id),
                ExecutionLease {
                    expires_at: Some(time::after(now, ttl)),
                    ..s.work.leases[table::k1(id)]
                },
            ),
            ..s.work
        },
        ..s
    }
}

/// The lease is released.
pub open spec fn with_released(s: SlotView, id: Seq<char>, now: Timestamp) -> SlotView {
    SlotView { work: WorkView { leases: released(s.work.leases, id, now), ..s.work }, ..s }
}

/// Whether an environment waits for its end to be confirmed at the epoch.
pub open spec fn is_awaited(s: SlotView, id: Seq<char>, epoch: u64) -> bool {
    match row_of(s.work.environments, id) {
        Some(e) => awaiting()(e) && e.epoch == epoch,
        None => false,
    }
}

/// Whether an environment is there, and idle.
pub open spec fn is_idle(s: SlotView, id: Seq<char>) -> bool {
    match row_of(s.work.environments, id) {
        Some(e) => e.state is Idle,
        None => false,
    }
}

/// The environment is taken out of the pool to be terminated.
pub open spec fn with_drained(s: SlotView, id: Seq<char>, now: Timestamp) -> SlotView {
    SlotView {
        work: WorkView {
            environments: s.work.environments.insert(
                table::k1(id),
                ExecutionEnvironment {
                    state: EnvironmentState::Draining,
                    updated_at: now,
                    idle_since: None,
                    ..s.work.environments[table::k1(id)]
                },
            ),
            ..s.work
        },
        ..s
    }
}

/// The environment is in the pool.
pub open spec fn with_pooled(s: SlotView, env: ExecutionEnvironment, now: Timestamp) -> SlotView {
    SlotView {
        work: WorkView {
            environments: s.work.environments.insert(
                table::k1(env.id@),
                memory::pooled(env, now),
            ),
            ..s.work
        },
        ..s
    }
}

fn is_held_by(l: &ExecutionLease, owner: &str) -> (r: bool)
    ensures
        r == held_by(owner@)(*l),
{
    l.released_at.is_none() && match &l.owner {
        Some(o) => text::same_text(o.as_str(), owner),
        None => false,
    }
}

fn is_unexpired(l: &ExecutionLease, owner: &str, now: Timestamp) -> (r: bool)
    ensures
        r == unexpired(owner@, now)(*l),
{
    is_held_by(l, owner) && match l.expires_at {
        Some(t) => now < t,
        None => false,
    }
}

impl SlotLedger {
    /// Rows are kept under their ids.
    pub open spec fn wf(&self) -> bool {
        &&& self.dispatchers.wf()
        &&& self.work.wf()
        &&& forall|k: Seq<Seq<char>>| #[trigger]
            self.dispatchers@.contains_key(k) ==> k == table::k1(self.dispatchers@[k].id@)
    }

    /// No dispatcher, no work.
    pub fn new() -> (r: SlotLedger)
        ensures
            r.wf(),
            r@.dispatchers == Map::<Seq<Seq<char>>, DispatcherRecord>::empty(),
            r@.work.environments == Map::<Seq<Seq<char>>, ExecutionEnvironment>::empty(),
            r@.work.leases == Map::<Seq<Seq<char>>, ExecutionLease>::empty(),
            r@.work.attempts == Map::<Seq<Seq<char>>, InvocationAttempt>::empty(),
            r@.work.invocations == Map::<Seq<Seq<char>>, Invocation>::empty(),
    {
        SlotLedger { dispatchers: Table::new(), work: Work::new() }
    }

    /// Register a new dispatcher incarnation.
    pub fn register_dispatcher(&mut self, record: DispatcherRecord) -> (r: Result<(), RepoError>)
        requires
            old(self).wf(),
        ensures
            final(self).wf(),
            crate::repository::agrees(r, register_rule(old(self)@, record)),
            final(self)@ == if r is Ok {
                registered(old(self)@, record)
            } else {
                old(self)@
            },
    {
        let key = Key::one(record.id.as_str());
        if self.dispatchers.contains(&key) {
            return Err(sqlite::duplicate("dispatcher", record.id.as_str()));
        }
        self.dispatchers.set(key, record);
        Ok(())
    }

    /// The dispatcher of an id.
    pub fn get_dispatcher(&self, id: &str) -> (r: Option<&DispatcherRecord>)
        requires
            self.wf(),
        ensures
            match r {
                Some(d) => row_of(self@.dispatchers, id@) == Some(*d),
                None => row_of(self@.dispatchers, id@) is None,
            },
    {
        self.dispatchers.get(&Key::one(id))
    }

    /// Every dispatcher, by id.
    pub fn list_dispatchers(&self) -> (r: Vec<&DispatcherRecord>)
        requires
            self.wf(),
        ensures
            listing::lists(
                r@,
                self@.dispatchers,
                |d: DispatcherRecord| true,
                dispatcher_order(),
            ),
    {
        let keep = |d: &DispatcherRecord| -> (b: bool)
            ensures
                b,
        {
            true
        };
        let before = |d: &DispatcherRecord, e: &DispatcherRecord| -> (b: bool)
            ensures
                b == dispatcher_order()(*d, *e),
        {
            text::text_before(d.id.as_str(), e.id.as_str())
        };
        proof {
            self.lemma_dispatcher_order();
        }
        listing::pick(
            &self.dispatchers,
            keep,
            before,
            Ghost(|d: DispatcherRecord| true),
            Ghost(dispatcher_order()),
        )
    }

    proof fn lemma_dispatcher_order(self)
        requires
            self.wf(),
        ensures
            listing::orders(self@.dispatchers, dispatcher_order()),
    {
        let lt = dispatcher_order();
        let rows = self@.dispatchers;
        assert forall|a: DispatcherRecord, b: DispatcherRecord, c: DispatcherRecord| #[trigger]
            lt(a, b) && #[trigger] lt(b, c) implies lt(a, c) by {
            text::lemma_text_order(a.id@, b.id@, c.id@);
        }
        assert forall|a: DispatcherRecord| !#[trigger] lt(a, a) by {
            text::lemma_text_order(a.id@, a.id@, a.id@);
        }
        assert forall|j: Seq<Seq<char>>, k: Seq<Seq<char>>|
            rows.contains_key(j) && rows.contains_key(k) && j != k implies lt(
            #[trigger] rows[j],
            #[trigger] rows[k],
        ) || lt(rows[k], rows[j]) by {
            text::lemma_text_order(rows[j].id@, rows[k].id@, rows[j].id@);
        }
    }

    /// The lease of an id.
    pub fn get_lease(&self, id: &str) -> (r: Option<&ExecutionLease>)
        requires
            self.wf(),
        ensures
            match r {
                Some(l) => row_of(self@.work.leases, id@) == Some(*l),
                None => row_of(self@.work.leases, id@) is None,
            },
    {
        self.work.leases.get(&Key::one(id))
    }

    fn renew_leases(&mut self, owner: &str, now: Timestamp, ttl: Span, all: bool) -> (r: usize)
        requires
            old(self).wf(),
            time::in_reach(now, ttl),
        ensures
            final(self).wf(),
            final(self).dispatchers == old(self).dispatchers,
            final(self)@.work == (WorkView {
                leases: final(self)@.work.leases,
                ..old(self)@.work
            }),
            ({
                let p = if all {
                    held_by(owner@)
                } else {
                    unexpired(owner@, now)
                };
                &&& listing::rewritten(
                    old(self)@.work.leases,
                    final(self)@.work.leases,
                    p,
                    extended(now, ttl),
                )
                &&& r == listing::matching(old(self)@.work.leases, p).len()
            }),
    {
        let ghost was = *self;
        let ghost p = if all {
            held_by(owner@)
        } else {
            unexpired(owner@, now)
        };
        let change = |l: &ExecutionLease| -> (o: Option<ExecutionLease>)
            requires
                time::in_reach(now, ttl),
            ensures
                match o {
                    Some(m) => p(*l) && extended(now, ttl)(*l, m),
                    None => !p(*l),
                },
        {
            if is_unexpired(l, owner, now) || (all && is_held_by(l, owner)) {
                let mut m = l.clone();
                m.expires_at = Some(time::plus(now, ttl));
                Some(m)
            } else {
                None
            }
        };
        let at = listing::rewrite(
            &mut self.work.leases,
            change,
            Ghost(p),
            Ghost(extended(now, ttl)),
        );
        proof {
            lemma_same_ids(was.work.leases@, self.work.leases@, p, extended(now, ttl));
        }
        at.len()
    }

    fn renew(&mut self, id: &str, now: Timestamp, ttl: Span, all: bool) -> (r: usize)
        requires
            old(self).wf(),
            time::in_reach(now, ttl),
            is_live(old(self)@.dispatchers, id@),
        ensures
            final(self).wf(),
            final(self)@ == (SlotView {
                dispatchers: old(self)@.dispatchers.insert(
                    table::k1(id@),
                    renewed(old(self)@.dispatchers[table::k1(id@)], now, ttl),
                ),
                work: WorkView { leases: final(self)@.work.leases, ..old(self)@.work },
            }),
            ({
                let p = if all {
                    held_by(id@)
                } else {
                    unexpired(id@, now)
                };
                &&& listing::rewritten(
                    old(self)@.work.leases,
                    final(self)@.work.leases,
                    p,
                    extended(now, ttl),
                )
                &&& r == listing::matching(old(self)@.work.leases, p).len()
            }),
    {
        let key = Key::one(id);
        let mut record = match self.dispatchers.get(&key) {
            Some(d) => d.clone(),
            None => return 0,
        };
        record.heartbeat_at = now;
        record.lease_expires_at = time::plus(now, ttl);
        self.dispatchers.set(key, record);
        self.renew_leases(id, now, ttl, all)
    }

    /// Renew the dispatcher's lease and every slot lease it holds that has not
    /// expired yet, to `ttl` after `now`. Only a live dispatcher whose own
    /// lease has not passed is renewed.
    pub fn heartbeat(&mut self, id: &str, ttl: Span, now: Timestamp) -> (r: HeartbeatOutcome)
        requires
            old(self).wf(),
            time::in_reach(now, ttl),
        ensures
            final(self).wf(),
            if may_renew(old(self)@.dispatchers, id@, now) {
                let p = unexpired(id@, now);
                &&& r matches HeartbeatOutcome::Renewed { leases } && leases == listing::matching(
                    old(self)@.work.leases,
                    p,
                ).len()
                &&& renewal(old(self)@, final(self)@, id@, p, now, ttl)
            } else {
                r == HeartbeatOutcome::Fenced && final(self)@ == old(self)@
            },
    {
        match self.dispatchers.get(&Key::one(id)) {
            Some(d) => {
                if !d.is_live() || now >= d.lease_expires_at {
                    return HeartbeatOutcome::Fenced;
                }
            },
            None => return HeartbeatOutcome::Fenced,
        }
        let leases: usize = self.renew(id, now, ttl, false);
        HeartbeatOutcome::Renewed { leases }
    }

    /// The heartbeat of a dispatcher whose previous renewals failed because
    /// the store did not answer: its lease may have passed meanwhile. It and
    /// every unreleased slot lease it owns are renewed anyway, as long as
    /// nobody stopped or reclaimed it.
    pub fn renew_after_store_outage(&mut self, id: &str, ttl: Span, now: Timestamp) -> (r:
        HeartbeatOutcome)
        requires
            old(self).wf(),
            time::in_reach(now, ttl),
        ensures
            final(self).wf(),
            if is_live(old(self)@.dispatchers, id@) {
                let p = held_by(id@);
                &&& r matches HeartbeatOutcome::Renewed { leases } && leases == listing::matching(
                    old(self)@.work.leases,
                    p,
                ).len()
                &&& renewal(old(self)@, final(self)@, id@, p, now, ttl)
            } else {
                r == HeartbeatOutcome::Fenced && final(self)@ == old(self)@
            },
    {
        match self.dispatchers.get(&Key::one(id)) {
            Some(d) => {
                if !d.is_live() {
                    return HeartbeatOutcome::Fenced;
                }
            },
            None => return HeartbeatOutcome::Fenced,
        }
        let leases: usize = self.renew(id, now, ttl, true);
        HeartbeatOutcome::Renewed { leases }
    }

    /// A graceful shutdown: whatever the dispatcher still owns may be
    /// reclaimed at once.
    pub fn stop_dispatcher(&mut self, id: &str, now: Timestamp) -> (r: Result<(), RepoError>)
        requires
            old(self).wf(),
        ensures
            final(self).wf(),
            crate::repository::agrees(r, stop_rule(old(self)@, id@)),
            final(self)@ == if r is Ok {
                with_stopped(old(self)@, id@, now)
            } else {
                old(self)@
            },
    {
        let key = Key::one(id);
        let mut record = match self.dispatchers.get(&key) {
            Some(d) => d.clone(),
            None => return Err(sqlite::missing("dispatcher", id)),
        };
        if record.stopped_at.is_none() {
            record.stopped_at = Some(now);
        }
        self.dispatchers.set(key, record);
        Ok(())
    }

    /// Renew one lease to `ttl` after `now`, only while it is unreleased, not
    /// expired and still held by `owner` at `epoch`.
    pub fn renew_lease(
        &mut self,
        id: &str,
        owner: &str,
        epoch: u64,
        ttl: Span,
        now: Timestamp,
    ) -> (r: bool)
        requires
            old(self).wf(),
            time::in_reach(now, ttl),
        ensures
            final(self).wf(),
            r == is_renewable(old(self)@, id@, owner@, epoch, now),
            final(self)@ == if r {
                with_renewed(old(self)@, id@, now, ttl)
            } else {
                old(self)@
            },
    {
        let key = Key::one(id);
        let mut lease = match self.work.leases.get(&key) {
            Some(l) => {
                if !is_unexpired(l, owner, now) || l.epoch != epoch {
                    return false;
                }
                l.clone()
            },
            None => return false,
        };
        lease.expires_at = Some(time::plus(now, ttl));
        self.work.leases.set(key, lease);
        true
    }
}

/// An unreleased lease of the environment.
pub open spec fn lease_of(env: Seq<char>) -> spec_fn(ExecutionLease) -> bool {
    |l: ExecutionLease| l.released_at is None && l.environment_id@ == env
}

/// How an acquire or a completion ends.
pub ghost enum SlotAnswer {
    /// The request is malformed or breaks a row invariant.
    Bad(RepoErrorView),
    /// Somebody else got there first. Nothing is written.
    Lost(Seq<char>),
    /// Everything is written.
    Done,
}

/// What moving an invocation along comes to: a settled one is lost, and the
/// row invariants hold.
pub open spec fn move_invocation(
    invocations: Rows<Invocation>,
    inv: Option<Invocation>,
    max_inline: u64,
) -> SlotAnswer {
    match inv {
        None => SlotAnswer::Done,
        Some(new) => match row_of(invocations, new.id@) {
            None => SlotAnswer::Bad(sqlite::missing_row("invocation"@, new.id@)),
            Some(old) => if old.status.terminal() {
                SlotAnswer::Lost(
                    "invocation "@ + new.id@ + " is already "@ + old.status.spec_name(),
                )
            } else {
                match guard::invocation_rule(old, new, max_inline) {
                    Err(e) => SlotAnswer::Bad(e),
                    Ok(_) => SlotAnswer::Done,
                }
            },
        },
    }
}

/// The invocations once one of them was moved along.
pub open spec fn moved(invocations: Rows<Invocation>, inv: Option<Invocation>) -> Rows<Invocation> {
    match inv {
        None => invocations,
        Some(new) => invocations.insert(table::k1(new.id@), new),
    }
}

/// What adding the attempt and the lease of an acquire comes to.
pub open spec fn add_rows(s: SlotView, request: SlotAcquire) -> SlotAnswer {
    let attempt = request.attempt;
    let lease = request.lease;
    if s.work.attempts.contains_key(table::k1(attempt.id@)) {
        SlotAnswer::Bad(sqlite::duplicate_row("attempt"@, attempt.id@))
    } else if s.work.leases.contains_key(table::k1(lease.id@)) {
        SlotAnswer::Bad(sqlite::duplicate_row("lease"@, lease.id@))
    } else {
        let of_invocation = match row_of(s.work.invocations, attempt.invocation_id@) {
            Some(i) => guard::tenant_rule(
                "attempt"@,
                attempt.id@,
                attempt.tenant_id@,
                i.tenant_id@,
            ),
            None => Ok(()),
        };
        let of_environment = guard::tenant_rule(
            "lease"@,
            lease.id@,
            lease.tenant_id@,
            request.env.tenant_id@,
        );
        match (of_invocation, of_environment) {
            (Err(e), _) => SlotAnswer::Bad(e),
            (_, Err(e)) => SlotAnswer::Bad(e),
            _ => SlotAnswer::Done,
        }
    }
}

/// What an acquire comes to: the stored environment is free, at the epoch the
/// caller read and under no lease, its owner is live, and the rows fit.
pub open spec fn acquire_rule(s: SlotView, request: SlotAcquire, max_inline: u64) -> SlotAnswer {
    let id = request.env.id@;
    let stored = row_of(s.work.environments, id);
    let check = match stored {
        Some(row) => slot::acquire_check(request, Some(&row)),
        None => slot::acquire_check(request, None),
    };
    match check {
        slot::AcquireCheck::Bad(e) => SlotAnswer::Bad(e),
        slot::AcquireCheck::Lost(why) => SlotAnswer::Lost(why),
        slot::AcquireCheck::Free => if !listing::none_of(s.work.leases, lease_of(id)) {
            SlotAnswer::Lost("environment "@ + id + " is already leased"@)
        } else if !is_live(s.dispatchers, request.lease.owner->0@) {
            SlotAnswer::Lost("dispatcher "@ + request.lease.owner->0@ + " is not live"@)
        } else {
            match move_invocation(s.work.invocations, request.invocation, max_inline) {
                SlotAnswer::Done => add_rows(s, request),
                other => other,
            }
        },
    }
}

/// The slots once an acquire was written.
pub open spec fn acquired(s: SlotView, request: SlotAcquire) -> SlotView {
    SlotView {
        work: WorkView {
            environments: s.work.environments.insert(table::k1(request.env.id@), request.env),
            leases: s.work.leases.insert(table::k1(request.lease.id@), request.lease),
            attempts: s.work.attempts.insert(table::k1(request.attempt.id@), request.attempt),
            invocations: moved(s.work.invocations, request.invocation),
            ..s.work
        },
        ..s
    }
}

/// What a completion comes to: the lease is still the current one of that
/// attempt and epoch, and neither the attempt nor the invocation is settled.
pub open spec fn completion_rule(s: SlotView, c: SlotCompletion, max_inline: u64) -> SlotAnswer {
    match current(s, c.lease_id@, c.attempt.id@, c.attempt.epoch) {
        Some(why) => SlotAnswer::Lost(why),
        None => match row_of(s.work.attempts, c.attempt.id@) {
            None => SlotAnswer::Bad(sqlite::missing_row("attempt"@, c.attempt.id@)),
            Some(old) => if old.status.terminal() {
                SlotAnswer::Lost(
                    "attempt "@ + c.attempt.id@ + " is already "@ + old.status.spec_name(),
                )
            } else {
                match guard::attempt_rule(old, c.attempt) {
                    Err(e) => SlotAnswer::Bad(e),
                    Ok(_) => move_invocation(s.work.invocations, c.invocation, max_inline),
                }
            },
        },
    }
}

/// Why the lease is not the current one of the attempt and epoch, if it is not.
pub open spec fn current(s: SlotView, lease: Seq<char>, attempt: Seq<char>, epoch: u64) -> Option<
    Seq<char>,
> {
    match row_of(s.work.leases, lease) {
        None => slot::staleness(None, attempt, epoch, None),
        Some(l) => match row_of(s.work.environments, l.environment_id@) {
            None => slot::staleness(Some(&l), attempt, epoch, None),
            Some(e) => slot::staleness(Some(&l), attempt, epoch, Some(&e)),
        },
    }
}

/// The leases once one of them was released.
pub open spec fn released(leases: Rows<ExecutionLease>, id: Seq<char>, now: Timestamp) -> Rows<
    ExecutionLease,
> {
    leases.insert(
        table::k1(id),
        ExecutionLease { released_at: Some(now), ..leases[table::k1(id)] },
    )
}

/// The slots once a completion was written.
pub open spec fn completed(s: SlotView, c: SlotCompletion) -> SlotView {
    SlotView {
        work: WorkView {
            leases: released(s.work.leases, c.lease_id@, c.now),
            attempts: s.work.attempts.insert(table::k1(c.attempt.id@), c.attempt),
            invocations: moved(s.work.invocations, c.invocation),
            ..s.work
        },
        ..s
    }
}

fn words(kind: &str, id: &str, what: &str) -> (r: String)
    ensures
        r@ == kind@ + id@ + what@,
{
    let mut m = text::owned(kind);
    m.append(id);
    m.append(what);
    m
}

fn check_move(invocations: &Table<Invocation>, inv: &Option<Invocation>, max_inline: u64) -> (r: Result<
    Option<String>,
    RepoError,
>)
    requires
        invocations.wf(),
    ensures
        match r {
            Err(e) => move_invocation(invocations@, *inv, max_inline) == SlotAnswer::Bad(e@),
            Ok(Some(why)) => move_invocation(invocations@, *inv, max_inline) == SlotAnswer::Lost(why@),
            Ok(None) => move_invocation(invocations@, *inv, max_inline) == SlotAnswer::Done,
        },
{
    match inv {
        None => Ok(None),
        Some(new) => match invocations.get(&Key::one(new.id.as_str())) {
            None => Err(sqlite::missing("invocation", new.id.as_str())),
            Some(old) => if old.status.is_terminal() {
                let mut m = words("invocation ", new.id.as_str(), " is already ");
                m.append(old.status.name());
                Ok(Some(m))
            } else {
                match guard::invocation_update(old, new, max_inline) {
                    Err(e) => Err(e),
                    Ok(_) => Ok(None),
                }
            },
        },
    }
}

impl SlotLedger {
    fn move_along(&mut self, inv: Option<Invocation>)
        requires
            old(self).wf(),
        ensures
            final(self).wf(),
            final(self)@ == (SlotView {
                work: WorkView {
                    invocations: moved(old(self)@.work.invocations, inv),
                    ..old(self)@.work
                },
                ..old(self)@
            }),
    {
        match inv {
            None => {},
            Some(new) => {
                let key = Key::one(new.id.as_str());
                self.work.invocations.set(key, new);
            },
        }
    }

    fn check_rows(&self, request: &SlotAcquire) -> (r: Result<(), RepoError>)
        requires
            self.wf(),
        ensures
            match r {
                Err(e) => add_rows(self@, *request) == SlotAnswer::Bad(e@),
                Ok(_) => add_rows(self@, *request) == SlotAnswer::Done,
            },
    {
        let attempt = &request.attempt;
        let lease = &request.lease;
        if self.work.attempts.contains(&Key::one(attempt.id.as_str())) {
            return Err(sqlite::duplicate("attempt", attempt.id.as_str()));
        }
        if self.work.leases.contains(&Key::one(lease.id.as_str())) {
            return Err(sqlite::duplicate("lease", lease.id.as_str()));
        }
        let invocation = self.work.invocations.get(&Key::one(attempt.invocation_id.as_str()));
        match guard::attempt_insert(invocation, attempt) {
            Ok(_) => {},
            Err(e) => return Err(e),
        }
        guard::lease_insert(Some(&request.env), lease)
    }

    /// Take a slot: in one step the environment becomes busy one epoch further
    /// on, its lease and attempt are added and the invocation is moved along.
    pub fn acquire(&mut self, request: SlotAcquire, max_inline: u64) -> (r: Result<
        AcquireOutcome,
        RepoError,
    >)
        requires
            old(self).wf(),
            request.expected_epoch < u64::MAX,
        ensures
            final(self).wf(),
            match r {
                Err(e) => acquire_rule(old(self)@, request, max_inline) == SlotAnswer::Bad(e@),
                Ok(AcquireOutcome::Lost(why)) => acquire_rule(old(self)@, request, max_inline)
                    == SlotAnswer::Lost(why@),
                Ok(AcquireOutcome::Acquired) => acquire_rule(old(self)@, request, max_inline)
                    == SlotAnswer::Done,
            },
            final(self)@ == if acquire_rule(old(self)@, request, max_inline) == SlotAnswer::Done {
                acquired(old(self)@, request)
            } else {
                old(self)@
            },
    {
        let key = Key::one(request.env.id.as_str());
        let stored = self.work.environments.get(&key);
        match slot::acquire_preconditions(&request, stored) {
            Err(e) => return Err(e),
            Ok(Some(why)) => return Ok(AcquireOutcome::Lost(why)),
            Ok(None) => {},
        }
        let id = request.env.id.as_str();
        let is_leased = |l: &ExecutionLease| -> (b: bool)
            ensures
                b == lease_of(id@)(*l),
        {
            l.released_at.is_none() && text::same_text(l.environment_id.as_str(), id)
        };
        match listing::find(&self.work.leases, is_leased, Ghost(lease_of(id@))) {
            Some(_) => return Ok(
                AcquireOutcome::Lost(words("environment ", id, " is already leased")),
            ),
            None => {},
        }
        match &request.lease.owner {
            Some(owner) => {
                let live = match self.dispatchers.get(&Key::one(owner.as_str())) {
                    Some(d) => d.is_live(),
                    None => false,
                };
                if !live {
                    return Ok(
                        AcquireOutcome::Lost(words("dispatcher ", owner.as_str(), " is not live")),
                    );
                }
            },
            None => {},
        }
        match check_move(&self.work.invocations, &request.invocation, max_inline) {
            Err(e) => return Err(e),
            Ok(Some(why)) => return Ok(AcquireOutcome::Lost(why)),
            Ok(None) => {},
        }
        match self.check_rows(&request) {
            Err(e) => return Err(e),
            Ok(_) => {},
        }
        let SlotAcquire { env, expected_epoch: _, lease, attempt, invocation } = request;
        self.work.environments.set(key, env);
        let lease_key = Key::one(lease.id.as_str());
        self.work.leases.set(lease_key, lease);
        let attempt_key = Key::one(attempt.id.as_str());
        self.work.attempts.set(attempt_key, attempt);
        self.move_along(invocation);
        Ok(AcquireOutcome::Acquired)
    }

    fn staleness_of(&self, lease: &str, attempt: &str, epoch: u64) -> (r: Option<String>)
        requires
            self.wf(),
        ensures
            text::opt_view(r) == current(self@, lease@, attempt@, epoch),
    {
        match self.work.leases.get(&Key::one(lease)) {
            None => slot::lease_is_current(None, attempt, epoch, None),
            Some(l) => {
                let env = self.work.environments.get(&Key::one(l.environment_id.as_str()));
                slot::lease_is_current(Some(l), attempt, epoch, env)
            },
        }
    }

    fn release(&mut self, lease: &str, now: Timestamp)
        requires
            old(self).wf(),
            old(self)@.work.leases.contains_key(table::k1(lease@)),
        ensures
            final(self).wf(),
            final(self)@ == (SlotView {
                work: WorkView {
                    leases: released(old(self)@.work.leases, lease@, now),
                    ..old(self)@.work
                },
                ..old(self)@
            }),
    {
        let key = Key::one(lease);
        let mut l = match self.work.leases.get(&key) {
            Some(l) => l.clone(),
            None => return,
        };
        l.released_at = Some(now);
        self.work.leases.set(key, l);
    }

    /// The fenced callback: release the lease and write the terminal attempt
    /// and invocation, only if the lease is still the unreleased lease of that
    /// attempt and epoch and the environment is still at that epoch.
    pub fn complete(&mut self, completion: SlotCompletion, max_inline: u64) -> (r: Result<
        CompletionOutcome,
        RepoError,
    >)
        requires
            old(self).wf(),
        ensures
            final(self).wf(),
            match r {
                Err(e) => completion_rule(old(self)@, completion, max_inline) == SlotAnswer::Bad(e@),
                Ok(CompletionOutcome::Stale(why)) => completion_rule(
                    old(self)@,
                    completion,
                    max_inline,
                ) == SlotAnswer::Lost(why@),
                Ok(CompletionOutcome::Accepted) => completion_rule(
                    old(self)@,
                    completion,
                    max_inline,
                ) == SlotAnswer::Done,
            },
            final(self)@ == if completion_rule(old(self)@, completion, max_inline)
                == SlotAnswer::Done {
                completed(old(self)@, completion)
            } else {
                old(self)@
            },
    {
        let attempt = &completion.attempt;
        match self.staleness_of(
            completion.lease_id.as_str(),
            attempt.id.as_str(),
            attempt.epoch,
        ) {
            Some(why) => return Ok(CompletionOutcome::Stale(why)),
            None => {},
        }
        match self.work.attempts.get(&Key::one(attempt.id.as_str())) {
            None => return Err(sqlite::missing("attempt", attempt.id.as_str())),
            Some(old) => {
                if old.status.is_terminal() {
                    let mut m = words("attempt ", attempt.id.as_str(), " is already ");
                    m.append(old.status.name());
                    return Ok(CompletionOutcome::Stale(m));
                }
                match guard::attempt_update(old, attempt) {
                    Err(e) => return Err(e),
                    Ok(_) => {},
                }
            },
        }
        match check_move(&self.work.invocations, &completion.invocation, max_inline) {
            Err(e) => return Err(e),
            Ok(Some(why)) => return Ok(CompletionOutcome::Stale(why)),
            Ok(None) => {},
        }
        let SlotCompletion { lease_id, attempt, invocation, now } = completion;
        self.release(lease_id.as_str(), now);
        let key = Key::one(attempt.id.as_str());
        self.work.attempts.set(key, attempt);
        self.move_along(invocation);
        Ok(CompletionOutcome::Accepted)
    }

    /// Release a lease without a result, fenced like a completion. False when
    /// it was not the current lease.
    pub fn release_lease(&mut self, id: &str, attempt: &str, epoch: u64, now: Timestamp) -> (r: bool)
        requires
            old(self).wf(),
        ensures
            final(self).wf(),
            r == (current(old(self)@, id@, attempt@, epoch) is None),
            final(self)@ == if r {
                with_released(old(self)@, id@, now)
            } else {
                old(self)@
            },
    {
        match self.staleness_of(id, attempt, epoch) {
            Some(_) => false,
            None => {
                self.release(id, now);
                true
            },
        }
    }
}

/// Why the work of a dispatcher, or under a lease, is settled.
#[derive(Debug, Clone, Copy, PartialEq, Eq, Structural)]
pub enum Fate {
    /// The process that drove it stopped or is gone.
    Restarted,
    /// Its lease passed.
    Expired,
}

/// The cause that settled rows of a fate carry.
pub open spec fn is_cause(fate: Fate, cause: Cause) -> bool {
    match fate {
        Fate::Restarted => restart::is_restarted(cause),
        Fate::Expired => restart::is_lease_expired(cause),
    }
}

fn cause_of(fate: Fate) -> (r: Cause)
    ensures
        is_cause(fate, r),
{
    match fate {
        Fate::Restarted => Cause::restarted(),
        Fate::Expired => Cause::lease_expired(),
    }
}

/// What has passed can be told: now is a date, and the tolerated clock
/// difference a span.
pub open spec fn can_tell(now: Timestamp, skew: Span) -> bool {
    time::in_calendar(now) && time::is_span(skew)
}

/// An instant passed by more than the tolerated clock difference.
pub open spec fn passed(t: Timestamp, request: ReclaimRequest) -> bool {
    request.now >= time::reach(t, request.skew)
}

/// Whether a dispatcher is reclaimed, and why: it is not the reclaimer, was
/// not reclaimed before, and it stopped, is proven dead or its lease passed.
pub open spec fn dispatcher_fate(d: DispatcherRecord, request: ReclaimRequest) -> Option<Fate> {
    if d.id@ == request.reclaimer@ || d.reclaimed_at is Some {
        None
    } else if d.stopped_at is Some || text::texts_view(request.presumed_dead@).contains(d.id@) {
        Some(Fate::Restarted)
    } else if passed(d.lease_expires_at, request) {
        Some(Fate::Expired)
    } else {
        None
    }
}

/// The fate of what a dispatcher owns.
pub open spec fn owner_fate(
    dispatchers: Rows<DispatcherRecord>,
    owner: Option<String>,
    request: ReclaimRequest,
) -> Option<Fate> {
    match owner {
        Some(o) => match row_of(dispatchers, o@) {
            Some(d) => dispatcher_fate(d, request),
            None => None,
        },
        None => None,
    }
}

/// It is the reclaimer's own.
pub open spec fn is_own(owner: Option<String>, request: ReclaimRequest) -> bool {
    text::opt_view(owner) == Some(request.reclaimer@)
}

/// Whether a lease is reclaimed, and why: it is unreleased and not the
/// reclaimer's, and its owner is reclaimed or it passed itself.
pub open spec fn lease_fate(
    dispatchers: Rows<DispatcherRecord>,
    l: ExecutionLease,
    request: ReclaimRequest,
) -> Option<Fate> {
    if l.released_at is Some || is_own(l.owner, request) {
        None
    } else if owner_fate(dispatchers, l.owner, request) is Some {
        owner_fate(dispatchers, l.owner, request)
    } else if l.expires_at is Some && passed(l.expires_at->0, request) {
        Some(Fate::Expired)
    } else {
        None
    }
}

/// A reclaimed lease of the attempt.
pub open spec fn lost_lease_of(s: SlotView, attempt: Seq<char>, request: ReclaimRequest) -> spec_fn(
    ExecutionLease,
) -> bool {
    |l: ExecutionLease|
        l.attempt_id@ == attempt && lease_fate(s.dispatchers, l, request) is Some
}

/// A reclaimed lease of an attempt of the invocation.
pub open spec fn lost_run_of(s: SlotView, inv: Seq<char>, request: ReclaimRequest) -> spec_fn(
    ExecutionLease,
) -> bool {
    |l: ExecutionLease|
        lease_fate(s.dispatchers, l, request) is Some && match row_of(
            s.work.attempts,
            l.attempt_id@,
        ) {
            Some(a) => a.invocation_id@ == inv,
            None => false,
        }
}

/// A reclaimed lease of the environment.
pub open spec fn lost_slot_of(s: SlotView, env: Seq<char>, request: ReclaimRequest) -> spec_fn(
    ExecutionLease,
) -> bool {
    |l: ExecutionLease|
        l.environment_id@ == env && lease_fate(s.dispatchers, l, request) is Some
}

/// The fate of the first reclaimed lease that matches.
pub open spec fn lost_fate(
    s: SlotView,
    p: spec_fn(ExecutionLease) -> bool,
    request: ReclaimRequest,
    fate: Option<Fate>,
) -> bool {
    match fate {
        None => listing::none_of(s.work.leases, p),
        Some(_) => exists|k: Seq<Seq<char>>| #[trigger]
            listing::first_of(s.work.leases, p, k) && fate == lease_fate(
                s.dispatchers,
                s.work.leases[k],
                request,
            ),
    }
}

/// Whether an invocation is settled, and why: it is not settled yet, its
/// dispatcher is reclaimed or one of its runs lost its lease. One that
/// survives its dispatcher, and the reclaimer's own, stay.
pub open spec fn invocation_fate(
    s: SlotView,
    inv: Invocation,
    request: ReclaimRequest,
    fate: Option<Fate>,
) -> bool {
    if inv.status.terminal() || inv.mode == InvocationMode::Async || is_own(
        inv.dispatcher_id,
        request,
    ) {
        fate is None
    } else if owner_fate(s.dispatchers, inv.dispatcher_id, request) is Some {
        fate == owner_fate(s.dispatchers, inv.dispatcher_id, request)
    } else {
        lost_fate(s, lost_run_of(s, inv.id@, request), request, fate)
    }
}

/// The dispatcher of the invocation that the attempt belongs to.
pub open spec fn driver(s: SlotView, att: InvocationAttempt) -> Option<String> {
    match row_of(s.work.invocations, att.invocation_id@) {
        Some(i) => i.dispatcher_id,
        None => None,
    }
}

/// Whether an attempt is settled, and why: it is not settled yet, and its
/// lease is reclaimed or the dispatcher of its invocation is.
pub open spec fn attempt_fate(
    s: SlotView,
    att: InvocationAttempt,
    request: ReclaimRequest,
    fate: Option<Fate>,
) -> bool {
    if att.status.terminal() || is_own(driver(s, att), request) {
        fate is None
    } else if owner_fate(s.dispatchers, driver(s, att), request) is Some {
        fate == owner_fate(s.dispatchers, driver(s, att), request)
    } else {
        lost_fate(s, lost_lease_of(s, att.id@, request), request, fate)
    }
}

/// The outcome of the attempt is unknown: its invocation was, or still is,
/// dispatched, or is not in the ledger.
pub open spec fn unknown_outcome(invocations: Rows<Invocation>, att: InvocationAttempt) -> bool {
    match row_of(invocations, att.invocation_id@) {
        Some(i) => i.status is OutcomeUnknown || i.status is Running,
        None => true,
    }
}

/// The environment is fenced: its owner is reclaimed or a lease of it is.
pub open spec fn to_fence(s: SlotView, request: ReclaimRequest) -> spec_fn(
    ExecutionEnvironment,
) -> bool {
    |e: ExecutionEnvironment|
        !e.state.terminal() && e.fenced_at is None && !is_own(e.owner, request) && (owner_fate(
            s.dispatchers,
            e.owner,
            request,
        ) is Some || !listing::none_of(s.work.leases, lost_slot_of(s, e.id@, request)))
}

/// An environment once it was fenced: draining, one epoch further on.
pub open spec fn fenced(now: Timestamp) -> spec_fn(
    ExecutionEnvironment,
    ExecutionEnvironment,
) -> bool {
    |e: ExecutionEnvironment, f: ExecutionEnvironment|
        f == (ExecutionEnvironment {
            state: EnvironmentState::Draining,
            epoch: (e.epoch + 1) as u64,
            updated_at: now,
            idle_since: None,
            fenced_at: Some(now),
            ..e
        })
}

/// The leases that are reclaimed.
pub open spec fn to_release(s: SlotView, request: ReclaimRequest) -> spec_fn(ExecutionLease) -> bool {
    |l: ExecutionLease| lease_fate(s.dispatchers, l, request) is Some
}

/// A lease once it was released.
pub open spec fn given_back(now: Timestamp) -> spec_fn(ExecutionLease, ExecutionLease) -> bool {
    |l: ExecutionLease, m: ExecutionLease|
        m == (ExecutionLease { released_at: Some(now), ..l })
}

/// The dispatchers that are reclaimed.
pub open spec fn to_reclaim(request: ReclaimRequest) -> spec_fn(DispatcherRecord) -> bool {
    |d: DispatcherRecord| dispatcher_fate(d, request) is Some
}

/// A dispatcher once it was reclaimed.
pub open spec fn taken_over(now: Timestamp) -> spec_fn(DispatcherRecord, DispatcherRecord) -> bool {
    |d: DispatcherRecord, e: DispatcherRecord|
        e == (DispatcherRecord { reclaimed_at: Some(now), ..d })
}

/// The invocations that are settled.
pub open spec fn to_settle(s: SlotView, request: ReclaimRequest) -> spec_fn(Invocation) -> bool {
    |inv: Invocation| !invocation_fate(s, inv, request, None)
}

/// An invocation once it was settled for its fate.
pub open spec fn settled(s: SlotView, request: ReclaimRequest) -> spec_fn(
    Invocation,
    Invocation,
) -> bool {
    |old: Invocation, new: Invocation|
        exists|fate: Fate, cause: Cause|
            invocation_fate(s, old, request, Some(fate)) && #[trigger] is_cause(fate, cause)
                && restart::settled_invocation(old, new, cause, request.now)
}

/// The attempts that are settled.
pub open spec fn attempts_to_settle(s: SlotView, request: ReclaimRequest) -> spec_fn(
    InvocationAttempt,
) -> bool {
    |att: InvocationAttempt| !attempt_fate(s, att, request, None)
}

/// An attempt once it was settled for its fate, like its invocation.
pub open spec fn attempt_settled(
    s: SlotView,
    invocations: Rows<Invocation>,
    request: ReclaimRequest,
) -> spec_fn(InvocationAttempt, InvocationAttempt) -> bool {
    |old: InvocationAttempt, new: InvocationAttempt|
        exists|fate: Fate, cause: Cause|
            attempt_fate(s, old, request, Some(fate)) && #[trigger] is_cause(fate, cause)
                && restart::settled_attempt(
                old,
                new,
                unknown_outcome(invocations, old),
                cause,
                request.now,
            )
}

/// What a reclaim writes.
pub open spec fn reclaimed(s: SlotView, t: SlotView, request: ReclaimRequest) -> bool {
    &&& listing::rewritten(
        s.work.invocations,
        t.work.invocations,
        to_settle(s, request),
        settled(s, request),
    )
    &&& listing::rewritten(
        s.work.attempts,
        t.work.attempts,
        attempts_to_settle(s, request),
        attempt_settled(s, t.work.invocations, request),
    )
    &&& listing::rewritten(
        s.work.environments,
        t.work.environments,
        to_fence(s, request),
        fenced(request.now),
    )
    &&& listing::rewritten(
        s.work.leases,
        t.work.leases,
        to_release(s, request),
        given_back(request.now),
    )
    &&& listing::rewritten(
        s.dispatchers,
        t.dispatchers,
        to_reclaim(request),
        taken_over(request.now),
    )
    &&& t.work.idempotency == s.work.idempotency
    &&& t.work.inputs == s.work.inputs
}

/// What a reclaim reports.
pub open spec fn reports(
    s: SlotView,
    t: SlotView,
    request: ReclaimRequest,
    r: ReclaimReport,
) -> bool {
    &&& listing::in_key_order(
        r.dispatchers@.map_values(|id: String| table::k1(id@)),
        listing::matching(s.dispatchers, to_reclaim(request)),
    )
    &&& r.leases == listing::matching(s.work.leases, to_release(s, request)).len()
    &&& r.invocations == listing::matching(s.work.invocations, to_settle(s, request)).len()
    &&& r.attempts == listing::matching(s.work.attempts, attempts_to_settle(s, request)).len()
    &&& listing::in_key_order(
        r.fenced@.map_values(|e: ExecutionEnvironment| table::k1(e.id@)),
        listing::matching(s.work.environments, to_fence(s, request)),
    )
    &&& forall|i: int|
        0 <= i < r.fenced@.len() ==> t.work.environments[table::k1((#[trigger] r.fenced@[i]).id@)]
            == r.fenced@[i]
}

fn has_passed(t: Timestamp, request: &ReclaimRequest) -> (r: bool)
    requires
        can_tell(request.now, request.skew),
    ensures
        r == passed(t, *request),
{
    time::has_passed(request.now, t, request.skew)
}

fn fate_of_dispatcher(d: &DispatcherRecord, request: &ReclaimRequest) -> (r: Option<Fate>)
    requires
        can_tell(request.now, request.skew),
    ensures
        r == dispatcher_fate(*d, *request),
{
    if text::same_text(d.id.as_str(), request.reclaimer.as_str()) || d.reclaimed_at.is_some() {
        None
    } else if d.stopped_at.is_some() || text::has_text(&request.presumed_dead, d.id.as_str()) {
        Some(Fate::Restarted)
    } else if has_passed(d.lease_expires_at, request) {
        Some(Fate::Expired)
    } else {
        None
    }
}

fn fate_of_owner(
    dispatchers: &Table<DispatcherRecord>,
    owner: &Option<String>,
    request: &ReclaimRequest,
) -> (r: Option<Fate>)
    requires
        dispatchers.wf(),
        can_tell(request.now, request.skew),
    ensures
        r == owner_fate(dispatchers@, *owner, *request),
{
    match owner {
        Some(o) => match dispatchers.get(&Key::one(o.as_str())) {
            Some(d) => fate_of_dispatcher(d, request),
            None => None,
        },
        None => None,
    }
}

fn is_reclaimers(owner: &Option<String>, request: &ReclaimRequest) -> (r: bool)
    ensures
        r == is_own(*owner, *request),
{
    match owner {
        Some(o) => text::same_text(o.as_str(), request.reclaimer.as_str()),
        None => false,
    }
}

fn fate_of_lease(
    dispatchers: &Table<DispatcherRecord>,
    l: &ExecutionLease,
    request: &ReclaimRequest,
) -> (r: Option<Fate>)
    requires
        dispatchers.wf(),
        can_tell(request.now, request.skew),
    ensures
        r == lease_fate(dispatchers@, *l, *request),
{
    if l.released_at.is_some() || is_reclaimers(&l.owner, request) {
        return None;
    }
    match fate_of_owner(dispatchers, &l.owner, request) {
        Some(fate) => Some(fate),
        None => match l.expires_at {
            Some(t) => if has_passed(t, request) {
                Some(Fate::Expired)
            } else {
                None
            },
            None => None,
        },
    }
}

fn fate_of_run(
    dispatchers: &Table<DispatcherRecord>,
    attempts: &Table<InvocationAttempt>,
    leases: &Table<ExecutionLease>,
    inv: &str,
    request: &ReclaimRequest,
    Ghost(s): Ghost<SlotView>,
) -> (r: Option<Fate>)
    requires
        dispatchers.wf() && s.dispatchers == dispatchers@,
        attempts.wf() && s.work.attempts == attempts@,
        leases.wf() && s.work.leases == leases@,
        can_tell(request.now, request.skew),
    ensures
        lost_fate(s, lost_run_of(s, inv@, *request), *request, r),
{
    let ghost p = lost_run_of(s, inv@, *request);
    let keep = |l: &ExecutionLease| -> (b: bool)
        requires
            dispatchers.wf(),
            attempts.wf(),
            can_tell(request.now, request.skew),
        ensures
            b == (lease_fate(dispatchers@, *l, *request) is Some && match row_of(
                attempts@,
                l.attempt_id@,
            ) {
                Some(a) => a.invocation_id@ == inv@,
                None => false,
            }),
    {
        fate_of_lease(dispatchers, l, request).is_some() && match attempts.get(
            &Key::one(l.attempt_id.as_str()),
        ) {
            Some(a) => text::same_text(a.invocation_id.as_str(), inv),
            None => false,
        }
    };
    match listing::find(leases, keep, Ghost(p)) {
        Some(i) => fate_of_lease(dispatchers, &leases.values[i], request),
        None => None,
    }
}

fn fate_of_attempts_lease(
    dispatchers: &Table<DispatcherRecord>,
    leases: &Table<ExecutionLease>,
    attempt: &str,
    request: &ReclaimRequest,
    Ghost(s): Ghost<SlotView>,
) -> (r: Option<Fate>)
    requires
        dispatchers.wf() && s.dispatchers == dispatchers@,
        leases.wf() && s.work.leases == leases@,
        can_tell(request.now, request.skew),
    ensures
        lost_fate(s, lost_lease_of(s, attempt@, *request), *request, r),
{
    let ghost p = lost_lease_of(s, attempt@, *request);
    let keep = |l: &ExecutionLease| -> (b: bool)
        requires
            dispatchers.wf(),
            can_tell(request.now, request.skew),
        ensures
            b == (l.attempt_id@ == attempt@ && lease_fate(dispatchers@, *l, *request) is Some),
    {
        text::same_text(l.attempt_id.as_str(), attempt) && fate_of_lease(
            dispatchers,
            l,
            request,
        ).is_some()
    };
    match listing::find(leases, keep, Ghost(p)) {
        Some(i) => fate_of_lease(dispatchers, &leases.values[i], request),
        None => None,
    }
}

fn lost_its_slot(
    dispatchers: &Table<DispatcherRecord>,
    leases: &Table<ExecutionLease>,
    env: &str,
    request: &ReclaimRequest,
    Ghost(s): Ghost<SlotView>,
) -> (r: bool)
    requires
        dispatchers.wf() && s.dispatchers == dispatchers@,
        leases.wf() && s.work.leases == leases@,
        can_tell(request.now, request.skew),
    ensures
        r == !listing::none_of(s.work.leases, lost_slot_of(s, env@, *request)),
{
    let ghost p = lost_slot_of(s, env@, *request);
    let keep = |l: &ExecutionLease| -> (b: bool)
        requires
            dispatchers.wf(),
            can_tell(request.now, request.skew),
        ensures
            b == (l.environment_id@ == env@ && lease_fate(dispatchers@, *l, *request) is Some),
    {
        text::same_text(l.environment_id.as_str(), env) && fate_of_lease(
            dispatchers,
            l,
            request,
        ).is_some()
    };
    listing::find(leases, keep, Ghost(p)).is_some()
}

fn fate_of_invocation(
    dispatchers: &Table<DispatcherRecord>,
    attempts: &Table<InvocationAttempt>,
    leases: &Table<ExecutionLease>,
    inv: &Invocation,
    request: &ReclaimRequest,
    Ghost(s): Ghost<SlotView>,
) -> (r: Option<Fate>)
    requires
        dispatchers.wf() && s.dispatchers == dispatchers@,
        attempts.wf() && s.work.attempts == attempts@,
        leases.wf() && s.work.leases == leases@,
        can_tell(request.now, request.skew),
    ensures
        invocation_fate(s, *inv, *request, r),
        r is Some ==> !invocation_fate(s, *inv, *request, None),
{
    if inv.status.is_terminal() || restart::survives_dispatcher(inv) || is_reclaimers(
        &inv.dispatcher_id,
        request,
    ) {
        return None;
    }
    match fate_of_owner(dispatchers, &inv.dispatcher_id, request) {
        Some(fate) => Some(fate),
        None => fate_of_run(
            dispatchers,
            attempts,
            leases,
            inv.id.as_str(),
            request,
            Ghost(s),
        ),
    }
}

fn fate_of_attempt(
    dispatchers: &Table<DispatcherRecord>,
    leases: &Table<ExecutionLease>,
    driver_id: &Option<String>,
    att: &InvocationAttempt,
    request: &ReclaimRequest,
    Ghost(s): Ghost<SlotView>,
) -> (r: Option<Fate>)
    requires
        dispatchers.wf() && s.dispatchers == dispatchers@,
        leases.wf() && s.work.leases == leases@,
        *driver_id == driver(s, *att),
        can_tell(request.now, request.skew),
    ensures
        attempt_fate(s, *att, *request, r),
        r is Some ==> !attempt_fate(s, *att, *request, None),
{
    if att.status.is_terminal() || is_reclaimers(driver_id, request) {
        return None;
    }
    match fate_of_owner(dispatchers, driver_id, request) {
        Some(fate) => Some(fate),
        None => fate_of_attempts_lease(
            dispatchers,
            leases,
            att.id.as_str(),
            request,
            Ghost(s),
        ),
    }
}

impl SlotLedger {
    fn settle_invocations(&mut self, request: &ReclaimRequest) -> (r: usize)
        requires
            old(self).wf(),
            can_tell(request.now, request.skew),
        ensures
            final(self).wf(),
            final(self)@ == (SlotView {
                work: WorkView {
                    invocations: final(self)@.work.invocations,
                    ..old(self)@.work
                },
                ..old(self)@
            }),
            listing::rewritten(
                old(self)@.work.invocations,
                final(self)@.work.invocations,
                to_settle(old(self)@, *request),
                settled(old(self)@, *request),
            ),
            r == listing::matching(
                old(self)@.work.invocations,
                to_settle(old(self)@, *request),
            ).len(),
    {
        let ghost s = self@;
        let ghost was = *self;
        let dispatchers = &self.dispatchers;
        let attempts = &self.work.attempts;
        let leases = &self.work.leases;
        let gs: Ghost<SlotView> = Ghost(s);
        let keep = |inv: &Invocation| -> (b: bool)
            requires
                dispatchers.wf() && gs@.dispatchers == dispatchers@,
                attempts.wf() && gs@.work.attempts == attempts@,
                leases.wf() && gs@.work.leases == leases@,
                can_tell(request.now, request.skew),
            ensures
                b == to_settle(gs@, *request)(*inv),
        {
            fate_of_invocation(dispatchers, attempts, leases, inv, request, gs).is_some()
        };
        let n: usize = listing::count(&self.work.invocations, keep, Ghost(to_settle(s, *request)));
        let ghost both = |a: Invocation, b: Invocation|
            if to_settle(s, *request)(a) {
                settled(s, *request)(a, b)
            } else {
                b == a
            };
        let mut i: usize = 0;
        while i < self.work.invocations.values.len()
            invariant
                was.wf(),
                s == was@,
                both == (|a: Invocation, b: Invocation|
                    if to_settle(s, *request)(a) {
                        settled(s, *request)(a, b)
                    } else {
                        b == a
                    }),
                can_tell(request.now, request.skew),
                self.dispatchers == was.dispatchers,
                self.work.invocations.wf(),
                self.work.attempts == was.work.attempts,
                self.work.environments == was.work.environments,
                self.work.leases == was.work.leases,
                self.work.idempotency == was.work.idempotency,
                self.work.inputs == was.work.inputs,
                i <= self.work.invocations.values@.len(),
                self.work.invocations.order() == was.work.invocations.order(),
                self.work.invocations.values@.len() == was.work.invocations.values@.len(),
                forall|x: int|
                    i <= x < self.work.invocations.values@.len()
                        ==> #[trigger] self.work.invocations.values@[x]
                        == was.work.invocations.values@[x],
                forall|x: int|
                    0 <= x < i ==> both(
                        #[trigger] was.work.invocations.values@[x],
                        self.work.invocations.values@[x],
                    ),
            decreases self.work.invocations.values@.len() - i,
        {
            let ghost before = self.work.invocations.values@[i as int];
            let fate = fate_of_invocation(
                &self.dispatchers,
                &self.work.attempts,
                &self.work.leases,
                &self.work.invocations.values[i],
                request,
                Ghost(s),
            );
            match fate {
                Some(fate) => {
                    let cause = cause_of(fate);
                    let inv = self.work.invocations.row_mut(i);
                    restart::settle_invocation_with(inv, cause, request.now);
                    proof {
                        assert(invocation_fate(s, before, *request, Some(fate)) && is_cause(
                            fate,
                            cause,
                        ));
                    }
                },
                None => {},
            }
            i += 1;
        }
        proof {
            listing::lemma_related(was.work.invocations, self.work.invocations, both);
            assert forall|k: Seq<Seq<char>>| #[trigger] s.work.invocations.contains_key(k) implies if to_settle(
                s,
                *request,
            )(s.work.invocations[k]) {
                settled(s, *request)(s.work.invocations[k], self@.work.invocations[k])
            } else {
                self@.work.invocations[k] == s.work.invocations[k]
            } by {
                assert(both(was.work.invocations@[k], self.work.invocations@[k]));
            }
            assert forall|k: Seq<Seq<char>>| #[trigger] self.work.invocations@.contains_key(k) implies k
                == table::k1(self.work.invocations@[k].id@) by {
                assert(s.work.invocations.contains_key(k));
            }
        }
        n
    }

    fn settle_attempts(&mut self, request: &ReclaimRequest, Ghost(s): Ghost<SlotView>) -> (r: usize)
        requires
            old(self).wf(),
            can_tell(request.now, request.skew),
            s.dispatchers == old(self)@.dispatchers,
            s.work.leases == old(self)@.work.leases,
            s.work.invocations.dom() == old(self)@.work.invocations.dom(),
            forall|k: Seq<Seq<char>>| #[trigger]
                s.work.invocations.contains_key(k) ==> s.work.invocations[k].dispatcher_id
                    == old(self)@.work.invocations[k].dispatcher_id,
        ensures
            final(self).wf(),
            final(self)@ == (SlotView {
                work: WorkView { attempts: final(self)@.work.attempts, ..old(self)@.work },
                ..old(self)@
            }),
            listing::rewritten(
                old(self)@.work.attempts,
                final(self)@.work.attempts,
                attempts_to_settle(s, *request),
                attempt_settled(s, old(self)@.work.invocations, *request),
            ),
            r == listing::matching(
                old(self)@.work.attempts,
                attempts_to_settle(s, *request),
            ).len(),
    {
        let ghost was = *self;
        let dispatchers = &self.dispatchers;
        let invocations = &self.work.invocations;
        let leases = &self.work.leases;
        let ghost rel = attempt_settled(s, self@.work.invocations, *request);
        let gs: Ghost<SlotView> = Ghost(s);
        let change = |att: &InvocationAttempt| -> (o: Option<InvocationAttempt>)
            requires
                dispatchers.wf() && gs@.dispatchers == dispatchers@,
                leases.wf() && gs@.work.leases == leases@,
                invocations.wf(),
                gs@.work.invocations.dom() == invocations@.dom(),
                forall|k: Seq<Seq<char>>| #[trigger]
                    gs@.work.invocations.contains_key(k) ==> gs@.work.invocations[k].dispatcher_id
                        == invocations@[k].dispatcher_id,
                can_tell(request.now, request.skew),
            ensures
                match o {
                    Some(new) => attempts_to_settle(gs@, *request)(*att) && attempt_settled(
                        gs@,
                        invocations@,
                        *request,
                    )(*att, new),
                    None => !attempts_to_settle(gs@, *request)(*att),
                },
        {
            let (driver_id, unknown) = match invocations.get(
                &Key::one(att.invocation_id.as_str()),
            ) {
                Some(inv) => (text::clone_opt(&inv.dispatcher_id), restart::attempts_unknown(inv)),
                None => (None, true),
            };
            proof {
                let k = table::k1(att.invocation_id@);
                assert(gs@.work.invocations.contains_key(k) <==> invocations@.contains_key(k));
            }
            match fate_of_attempt(dispatchers, leases, &driver_id, att, request, gs) {
                Some(fate) => {
                    let cause = cause_of(fate);
                    let mut new = att.clone();
                    restart::settle_attempt_with(&mut new, unknown, cause, request.now);
                    proof {
                        assert(is_cause(fate, cause));
                    }
                    Some(new)
                },
                None => None,
            }
        };
        let at = listing::rewrite(
            &mut self.work.attempts,
            change,
            Ghost(attempts_to_settle(s, *request)),
            Ghost(rel),
        );
        proof {
            assert forall|k: Seq<Seq<char>>| #[trigger] self.work.attempts@.contains_key(k) implies k
                == table::k1(self.work.attempts@[k].id@) by {
                assert(was.work.attempts@.contains_key(k));
                if attempts_to_settle(s, *request)(was.work.attempts@[k]) {
                    assert(rel(was.work.attempts@[k], self.work.attempts@[k]));
                }
            }
        }
        at.len()
    }
}

impl SlotLedger {
    fn fence_environments(&mut self, request: &ReclaimRequest, Ghost(s): Ghost<SlotView>) -> (r: Vec<
        ExecutionEnvironment,
    >)
        requires
            old(self).wf(),
            can_tell(request.now, request.skew),
            s.dispatchers == old(self)@.dispatchers,
            s.work.leases == old(self)@.work.leases,
            forall|k: Seq<Seq<char>>| #[trigger]
                old(self)@.work.environments.contains_key(k)
                    ==> old(self)@.work.environments[k].epoch < u64::MAX,
        ensures
            final(self).wf(),
            final(self)@ == (SlotView {
                work: WorkView { environments: final(self)@.work.environments, ..old(self)@.work },
                ..old(self)@
            }),
            listing::rewritten(
                old(self)@.work.environments,
                final(self)@.work.environments,
                to_fence(s, *request),
                fenced(request.now),
            ),
            listing::in_key_order(
                r@.map_values(|e: ExecutionEnvironment| table::k1(e.id@)),
                listing::matching(old(self)@.work.environments, to_fence(s, *request)),
            ),
            forall|i: int|
                0 <= i < r@.len() ==> final(self)@.work.environments[table::k1(
                    (#[trigger] r@[i]).id@,
                )] == r@[i],
    {
        let ghost was = *self;
        let dispatchers = &self.dispatchers;
        let leases = &self.work.leases;
        let gs: Ghost<SlotView> = Ghost(s);
        let change = |e: &ExecutionEnvironment| -> (o: Option<ExecutionEnvironment>)
            requires
                dispatchers.wf() && gs@.dispatchers == dispatchers@,
                leases.wf() && gs@.work.leases == leases@,
                e.epoch < u64::MAX,
                can_tell(request.now, request.skew),
            ensures
                match o {
                    Some(f) => to_fence(gs@, *request)(*e) && fenced(request.now)(*e, f),
                    None => !to_fence(gs@, *request)(*e),
                },
        {
            if e.state.is_terminal() || e.is_fenced() || is_reclaimers(&e.owner, request) {
                return None;
            }
            if fate_of_owner(dispatchers, &e.owner, request).is_none() && !lost_its_slot(
                dispatchers,
                leases,
                e.id.as_str(),
                request,
                gs,
            ) {
                return None;
            }
            let mut f = e.clone();
            f.state = EnvironmentState::Draining;
            f.epoch = e.epoch + 1;
            f.updated_at = request.now;
            f.idle_since = None;
            f.fenced_at = Some(request.now);
            Some(f)
        };
        proof {
            assert forall|x: int|
                0 <= x < self.work.environments.values@.len() implies (#[trigger] self.work.environments.values@[x]).epoch
                < u64::MAX by {
                table::lemma_row_at(
                    self.work.environments.order(),
                    self.work.environments.values@,
                    x,
                );
                assert(self@.work.environments.contains_key(self.work.environments.order()[x]));
            }
        }
        let at = listing::rewrite(
            &mut self.work.environments,
            change,
            Ghost(to_fence(s, *request)),
            Ghost(fenced(request.now)),
        );
        let ghost now_fenced = fenced(request.now);
        proof {
            assert forall|k: Seq<Seq<char>>| #[trigger] self.work.environments@.contains_key(k) implies k
                == table::k1(self.work.environments@[k].id@) by {
                assert(was.work.environments@.contains_key(k));
                if to_fence(s, *request)(was.work.environments@[k]) {
                    assert(now_fenced(was.work.environments@[k], self.work.environments@[k]));
                }
            }
        }
        let mut out: Vec<ExecutionEnvironment> = Vec::new();
        let mut i: usize = 0;
        let ghost keys = was.work.environments.order();
        while i < at.len()
            invariant
                self.wf(),
                keys == self.work.environments.order(),
                i <= at@.len(),
                out@.len() == i,
                forall|x: int| 0 <= x < at@.len() ==> #[trigger] at@[x] < self.work.environments.values@.len(),
                forall|x: int|
                    0 <= x < i ==> table::k1((#[trigger] out@[x]).id@) == keys[at@[x] as int]
                        && self@.work.environments[keys[at@[x] as int]] == out@[x],
            decreases at@.len() - i,
        {
            proof {
                table::lemma_row_at(keys, self.work.environments.values@, at@[i as int] as int);
                assert(self@.work.environments.contains_key(keys[at@[i as int] as int]));
            }
            out.push(self.work.environments.values[at[i]].clone());
            i += 1;
        }
        proof {
            assert(out@.map_values(|e: ExecutionEnvironment| table::k1(e.id@)) =~= listing::keys_at(
                keys,
                at@,
            ));
        }
        out
    }

    fn release_leases(&mut self, request: &ReclaimRequest, Ghost(s): Ghost<SlotView>) -> (r: usize)
        requires
            old(self).wf(),
            can_tell(request.now, request.skew),
            s.dispatchers == old(self)@.dispatchers,
        ensures
            final(self).wf(),
            final(self)@ == (SlotView {
                work: WorkView { leases: final(self)@.work.leases, ..old(self)@.work },
                ..old(self)@
            }),
            listing::rewritten(
                old(self)@.work.leases,
                final(self)@.work.leases,
                to_release(s, *request),
                given_back(request.now),
            ),
            r == listing::matching(old(self)@.work.leases, to_release(s, *request)).len(),
    {
        let ghost was = *self;
        let dispatchers = &self.dispatchers;
        let gs: Ghost<SlotView> = Ghost(s);
        let change = |l: &ExecutionLease| -> (o: Option<ExecutionLease>)
            requires
                dispatchers.wf() && gs@.dispatchers == dispatchers@,
                can_tell(request.now, request.skew),
            ensures
                match o {
                    Some(m) => to_release(gs@, *request)(*l) && given_back(request.now)(*l, m),
                    None => !to_release(gs@, *request)(*l),
                },
        {
            match fate_of_lease(dispatchers, l, request) {
                Some(_) => {
                    let mut m = l.clone();
                    m.released_at = Some(request.now);
                    Some(m)
                },
                None => None,
            }
        };
        let at = listing::rewrite(
            &mut self.work.leases,
            change,
            Ghost(to_release(s, *request)),
            Ghost(given_back(request.now)),
        );
        proof {
            lemma_same_ids(
                was.work.leases@,
                self.work.leases@,
                to_release(s, *request),
                given_back(request.now),
            );
        }
        at.len()
    }

    fn take_over(&mut self, request: &ReclaimRequest) -> (r: Vec<String>)
        requires
            old(self).wf(),
            can_tell(request.now, request.skew),
        ensures
            final(self).wf(),
            final(self).work == old(self).work,
            listing::rewritten(
                old(self)@.dispatchers,
                final(self)@.dispatchers,
                to_reclaim(*request),
                taken_over(request.now),
            ),
            listing::in_key_order(
                r@.map_values(|id: String| table::k1(id@)),
                listing::matching(old(self)@.dispatchers, to_reclaim(*request)),
            ),
    {
        let ghost was = *self;
        let change = |d: &DispatcherRecord| -> (o: Option<DispatcherRecord>)
            requires
                can_tell(request.now, request.skew),
            ensures
                match o {
                    Some(e) => to_reclaim(*request)(*d) && taken_over(request.now)(*d, e),
                    None => !to_reclaim(*request)(*d),
                },
        {
            match fate_of_dispatcher(d, request) {
                Some(_) => {
                    let mut e = d.clone();
                    e.reclaimed_at = Some(request.now);
                    Some(e)
                },
                None => None,
            }
        };
        let at = listing::rewrite(
            &mut self.dispatchers,
            change,
            Ghost(to_reclaim(*request)),
            Ghost(taken_over(request.now)),
        );
        let ghost rel = taken_over(request.now);
        proof {
            assert forall|k: Seq<Seq<char>>| #[trigger] self.dispatchers@.contains_key(k) implies k
                == table::k1(self.dispatchers@[k].id@) by {
                assert(was.dispatchers@.contains_key(k));
                if to_reclaim(*request)(was.dispatchers@[k]) {
                    assert(rel(was.dispatchers@[k], self.dispatchers@[k]));
                }
            }
        }
        let mut out: Vec<String> = Vec::new();
        let mut i: usize = 0;
        let ghost keys = was.dispatchers.order();
        while i < at.len()
            invariant
                self.wf(),
                keys == self.dispatchers.order(),
                i <= at@.len(),
                out@.len() == i,
                forall|x: int| 0 <= x < at@.len() ==> #[trigger] at@[x] < self.dispatchers.values@.len(),
                forall|x: int|
                    0 <= x < i ==> table::k1((#[trigger] out@[x])@) == keys[at@[x] as int],
            decreases at@.len() - i,
        {
            proof {
                table::lemma_row_at(keys, self.dispatchers.values@, at@[i as int] as int);
                assert(self@.dispatchers.contains_key(keys[at@[i as int] as int]));
            }
            out.push(self.dispatchers.values[at[i]].id.clone());
            i += 1;
        }
        proof {
            assert(out@.map_values(|id: String| table::k1(id@)) =~= listing::keys_at(keys, at@));
        }
        out
    }

    /// Reclaim everything whose owner can no longer be trusted. A reclaimer
    /// that can no longer prove its own lease reclaims nothing: one that was
    /// frozen past its lease must not reclaim the dispatchers that kept
    /// running while it was away.
    pub fn reclaim_expired(&mut self, request: ReclaimRequest) -> (r: ReclaimReport)
        requires
            old(self).wf(),
            can_tell(request.now, request.skew),
            forall|k: Seq<Seq<char>>| #[trigger]
                old(self)@.work.environments.contains_key(k)
                    ==> old(self)@.work.environments[k].epoch < u64::MAX,
        ensures
            final(self).wf(),
            if may_renew(old(self)@.dispatchers, request.reclaimer@, request.now) {
                &&& reclaimed(old(self)@, final(self)@, request)
                &&& reports(old(self)@, final(self)@, request, r)
            } else {
                &&& final(self)@ == old(self)@
                &&& r.dispatchers@.len() == 0 && r.leases == 0 && r.invocations == 0 && r.attempts
                    == 0 && r.fenced@.len() == 0
            },
    {
        let may = match self.dispatchers.get(&Key::one(request.reclaimer.as_str())) {
            Some(d) => d.is_live() && request.now < d.lease_expires_at,
            None => false,
        };
        if !may {
            return ReclaimReport {
                dispatchers: Vec::new(),
                leases: 0,
                invocations: 0,
                attempts: 0,
                fenced: Vec::new(),
            };
        }
        let ghost s = self@;
        let invocations: usize = self.settle_invocations(&request);
        proof {
            assert forall|k: Seq<Seq<char>>| #[trigger]
                s.work.invocations.contains_key(k) implies s.work.invocations[k].dispatcher_id
                == self@.work.invocations[k].dispatcher_id by {
                if to_settle(s, request)(s.work.invocations[k]) {
                    assert(settled(s, request)(
                        s.work.invocations[k],
                        self@.work.invocations[k],
                    ));
                }
            }
        }
        let attempts: usize = self.settle_attempts(&request, Ghost(s));
        let fenced = self.fence_environments(&request, Ghost(s));
        let leases: usize = self.release_leases(&request, Ghost(s));
        let dispatchers = self.take_over(&request);
        ReclaimReport { dispatchers, leases, invocations, attempts, fenced }
    }

    /// The fenced environments whose terminate is not confirmed yet, by id.
    pub fn list_fenced(&self) -> (r: Vec<&ExecutionEnvironment>)
        requires
            self.wf(),
        ensures
            listing::lists(r@, self@.work.environments, awaiting(), memory::environment_order()),
    {
        let keep = |e: &ExecutionEnvironment| -> (b: bool)
            ensures
                b == awaiting()(*e),
        {
            e.is_fenced() && !e.state.is_terminal()
        };
        let before = |e: &ExecutionEnvironment, f: &ExecutionEnvironment| -> (b: bool)
            ensures
                b == memory::environment_order()(*e, *f),
        {
            text::text_before(e.id.as_str(), f.id.as_str())
        };
        proof {
            memory::lemma_environment_order(self.work);
        }
        listing::pick(
            &self.work.environments,
            keep,
            before,
            Ghost(awaiting()),
            Ghost(memory::environment_order()),
        )
    }

    /// A terminate of the fenced environment `id` at `epoch` succeeded: settle
    /// it. False when it is not that fenced environment any more.
    pub fn confirm_terminated(&mut self, id: &str, epoch: u64, now: Timestamp) -> (r: bool)
        requires
            old(self).wf(),
        ensures
            final(self).wf(),
            r == is_awaited(old(self)@, id@, epoch),
            if r {
                let e = old(self)@.work.environments[table::k1(id@)];
                let f = final(self)@.work.environments[table::k1(id@)];
                &&& restart::settled_environment(e, f, now)
                &&& final(self)@ == (SlotView {
                    work: WorkView {
                        environments: old(self)@.work.environments.insert(table::k1(id@), f),
                        ..old(self)@.work
                    },
                    ..old(self)@
                })
            } else {
                final(self)@ == old(self)@
            },
    {
        let key = Key::one(id);
        let mut env = match self.work.environments.get(&key) {
            Some(e) => {
                if !e.is_fenced() || e.state.is_terminal() || e.epoch != epoch {
                    return false;
                }
                e.clone()
            },
            None => return false,
        };
        restart::settle_environment(&mut env, now);
        self.work.environments.set(key, env);
        true
    }
}

/// A fenced environment that is not settled.
pub open spec fn awaiting() -> spec_fn(ExecutionEnvironment) -> bool {
    |e: ExecutionEnvironment| e.fenced_at is Some && !e.state.terminal()
}

/// An idle environment of the owner.
pub open spec fn idle_of(owner: Option<Seq<char>>) -> spec_fn(ExecutionEnvironment) -> bool {
    |e: ExecutionEnvironment| e.state is Idle && text::opt_view(e.owner) == owner
}

/// An idle environment of the owner that fits the key in every field.
pub open spec fn reusable(key: ReuseKey, owner: Option<Seq<char>>) -> spec_fn(
    ExecutionEnvironment,
) -> bool {
    |e: ExecutionEnvironment| idle_of(owner)(e) && e.reuse_key.same(key)
}

/// The owner asked for.
pub open spec fn asked(owner: Option<&str>) -> Option<Seq<char>> {
    match owner {
        Some(o) => Some(o@),
        None => None,
    }
}

/// An environment once it was taken out of the pool for an attempt.
pub open spec fn reserved(e: ExecutionEnvironment, now: Timestamp) -> ExecutionEnvironment {
    ExecutionEnvironment {
        state: EnvironmentState::Ready,
        updated_at: now,
        idle_since: None,
        ..e
    }
}

/// An environment that an attempt just left, or that was started ahead and
/// never served one.
pub open spec fn poolable(e: ExecutionEnvironment) -> bool {
    e.state is Busy || (e.state is Ready && e.epoch == 0)
}

/// What putting an environment into the pool comes to: turned down where the
/// stored row moved on, is fenced or still leased, or a cap is reached.
pub open spec fn pool_rule(
    s: SlotView,
    env: ExecutionEnvironment,
    limits: PoolLimits,
    now: Timestamp,
) -> Result<Option<ExecutionEnvironment>, RepoErrorView> {
    match row_of(s.work.environments, env.id@) {
        None => Ok(None),
        Some(row) => if row.epoch != env.epoch || row.fenced_at is Some || !poolable(row)
            || !poolable(env) || !listing::none_of(s.work.leases, lease_of(env.id@))
            || listing::matching(s.work.environments, memory::idle()).len()
            >= limits.max_total_idle || listing::matching(
            s.work.environments,
            memory::idle_for(env.reuse_key),
        ).len() >= limits.max_idle_per_key {
            Ok(None)
        } else {
            match guard::environment_rule(row, memory::pooled(env, now)) {
                Err(e) => Err(e),
                Ok(_) => Ok(Some(memory::pooled(env, now))),
            }
        },
    }
}

fn is_owned(owner: &Option<String>, wanted: Option<&str>) -> (r: bool)
    ensures
        r == (text::opt_view(*owner) == asked(wanted)),
{
    match (owner, wanted) {
        (Some(o), Some(w)) => text::same_text(o.as_str(), w),
        (None, None) => true,
        _ => false,
    }
}

fn is_poolable(e: &ExecutionEnvironment) -> (r: bool)
    ensures
        r == poolable(*e),
{
    matches!(e.state, EnvironmentState::Busy) || (matches!(e.state, EnvironmentState::Ready)
        && e.epoch == 0)
}

impl SlotLedger {
    /// The owner's environments in the pool, the longest idle first. Only the
    /// owner holds their sessions, so only the owner sweeps them.
    pub fn list_idle(&self, owner: Option<&str>) -> (r: Vec<&ExecutionEnvironment>)
        requires
            self.wf(),
        ensures
            listing::lists(
                r@,
                self@.work.environments,
                idle_of(asked(owner)),
                memory::longest_idle(),
            ),
    {
        let keep = |e: &ExecutionEnvironment| -> (b: bool)
            ensures
                b == idle_of(asked(owner))(*e),
        {
            matches!(e.state, EnvironmentState::Idle) && is_owned(&e.owner, owner)
        };
        let before = |v: &ExecutionEnvironment, w: &ExecutionEnvironment| -> (b: bool)
            ensures
                b == memory::longest_idle()(*v, *w),
        {
            match (v.idle_since, w.idle_since) {
                (None, Some(_)) => true,
                (Some(x), Some(y)) => x < y || (x == y && text::text_before(
                    v.id.as_str(),
                    w.id.as_str(),
                )),
                (None, None) => text::text_before(v.id.as_str(), w.id.as_str()),
                (Some(_), None) => false,
            }
        };
        proof {
            memory::lemma_longest_idle(self.work);
        }
        listing::pick(
            &self.work.environments,
            keep,
            before,
            Ghost(idle_of(asked(owner))),
            Ghost(memory::longest_idle()),
        )
    }

    /// Take the owner's pooled environment with the lowest id whose reuse key
    /// equals `key` in every field out of the pool: it becomes ready at the
    /// same epoch. `None` where no environment fits.
    pub fn claim_for_reuse(&mut self, key: &ReuseKey, owner: Option<&str>, now: Timestamp) -> (r: Option<
        ExecutionEnvironment,
    >)
        requires
            old(self).wf(),
        ensures
            final(self).wf(),
            match r {
                None => {
                    &&& listing::none_of(
                        old(self)@.work.environments,
                        reusable(*key, asked(owner)),
                    )
                    &&& final(self)@ == old(self)@
                },
                Some(env) => {
                    let rows = old(self)@.work.environments;
                    let at = table::k1(env.id@);
                    &&& listing::first_of(rows, reusable(*key, asked(owner)), at)
                    &&& env == reserved(rows[at], now)
                    &&& final(self)@ == (SlotView {
                        work: WorkView {
                            environments: rows.insert(at, env),
                            ..old(self)@.work
                        },
                        ..old(self)@
                    })
                },
            },
    {
        let keep = |e: &ExecutionEnvironment| -> (b: bool)
            ensures
                b == reusable(*key, asked(owner))(*e),
        {
            matches!(e.state, EnvironmentState::Idle) && is_owned(&e.owner, owner)
                && e.reuse_key.is_same(key)
        };
        match listing::find(
            &self.work.environments,
            keep,
            Ghost(reusable(*key, asked(owner))),
        ) {
            None => None,
            Some(i) => {
                let mut env = self.work.environments.values[i].clone();
                proof {
                    let k = self.work.environments.order()[i as int];
                    assert(self.work.environments@.contains_key(k));
                }
                env.state = EnvironmentState::Ready;
                env.updated_at = now;
                env.idle_since = None;
                let out = env.clone();
                self.work.environments.replace_at(i, env);
                Some(out)
            },
        }
    }

    /// Put a finished environment back into the pool.
    pub fn release_to_pool(
        &mut self,
        env: &ExecutionEnvironment,
        limits: PoolLimits,
        now: Timestamp,
    ) -> (r: Result<Option<ExecutionEnvironment>, RepoError>)
        requires
            old(self).wf(),
        ensures
            final(self).wf(),
            crate::repository::agrees(r, pool_rule(old(self)@, *env, limits, now)),
            final(self)@ == if r is Ok && r->Ok_0 is Some {
                with_pooled(old(self)@, *env, now)
            } else {
                old(self)@
            },
    {
        let at = Key::one(env.id.as_str());
        let row = match self.work.environments.get(&at) {
            Some(row) => row,
            None => return Ok(None),
        };
        if row.epoch != env.epoch || row.is_fenced() || !is_poolable(row) || !is_poolable(env) {
            return Ok(None);
        }
        let id = env.id.as_str();
        let is_leased = |l: &ExecutionLease| -> (b: bool)
            ensures
                b == lease_of(id@)(*l),
        {
            l.released_at.is_none() && text::same_text(l.environment_id.as_str(), id)
        };
        if listing::find(&self.work.leases, is_leased, Ghost(lease_of(id@))).is_some() {
            return Ok(None);
        }
        let is_idle = |e: &ExecutionEnvironment| -> (b: bool)
            ensures
                b == memory::idle()(*e),
        {
            matches!(e.state, EnvironmentState::Idle)
        };
        let key = &env.reuse_key;
        let is_idle_for = |e: &ExecutionEnvironment| -> (b: bool)
            ensures
                b == memory::idle_for(*key)(*e),
        {
            matches!(e.state, EnvironmentState::Idle) && e.reuse_key.is_same(key)
        };
        let total: usize = listing::count(&self.work.environments, is_idle, Ghost(memory::idle()));
        let per_key: usize = listing::count(
            &self.work.environments,
            is_idle_for,
            Ghost(memory::idle_for(*key)),
        );
        if total >= limits.max_total_idle || per_key >= limits.max_idle_per_key {
            return Ok(None);
        }
        let mut pooled = env.clone();
        pooled.state = EnvironmentState::Idle;
        pooled.updated_at = now;
        pooled.idle_since = Some(now);
        match guard::environment_update(row, &pooled) {
            Ok(_) => {},
            Err(e) => return Err(e),
        }
        let out = pooled.clone();
        self.work.environments.set(at, pooled);
        Ok(Some(out))
    }

    /// Take an idle environment out of the pool for termination. False when
    /// it is not idle any more.
    pub fn take_idle_for_termination(&mut self, id: &str, now: Timestamp) -> (r: bool)
        requires
            old(self).wf(),
        ensures
            final(self).wf(),
            r == is_idle(old(self)@, id@),
            final(self)@ == if r {
                with_drained(old(self)@, id@, now)
            } else {
                old(self)@
            },
    {
        let key = Key::one(id);
        let mut env = match self.work.environments.get(&key) {
            Some(e) => {
                if !matches!(e.state, EnvironmentState::Idle) {
                    return false;
                }
                e.clone()
            },
            None => return false,
        };
        let taken = env.mark_draining(now);
        self.work.environments.set(key, env);
        taken
    }
}

/// Of two acquires of one environment at one epoch only one is written.
pub proof fn law_one_acquire_is_written(
    s: SlotView,
    first: SlotAcquire,
    second: SlotAcquire,
    max_inline: u64,
)
    requires
        acquire_rule(s, first, max_inline) == SlotAnswer::Done,
        second.env.id@ == first.env.id@,
        second.expected_epoch == first.expected_epoch,
    ensures
        acquire_rule(acquired(s, first), second, max_inline) != SlotAnswer::Done,
{
}

/// A renewal never revives an expired lease: a heartbeat leaves it as it is.
pub proof fn law_an_expired_lease_is_never_revived(
    old: SlotView,
    new: SlotView,
    id: Seq<char>,
    now: Timestamp,
    ttl: Span,
    key: Seq<Seq<char>>,
)
    requires
        renewal(old, new, id, unexpired(id, now), now, ttl),
        old.work.leases.contains_key(key),
        old.work.leases[key].expires_at is Some ==> old.work.leases[key].expires_at->0 <= now,
    ensures
        new.work.leases[key] == old.work.leases[key],
{
}

/// A dispatcher that was reclaimed is fenced: it is live no more, so it can
/// neither renew nor acquire again.
pub proof fn law_a_reclaimed_dispatcher_is_fenced(
    s: SlotView,
    t: SlotView,
    request: ReclaimRequest,
    id: Seq<char>,
    acquire: SlotAcquire,
    max_inline: u64,
)
    requires
        reclaimed(s, t, request),
        s.dispatchers.contains_key(table::k1(id)),
        dispatcher_fate(s.dispatchers[table::k1(id)], request) is Some,
        text::opt_view(acquire.lease.owner) == Some(id),
    ensures
        !is_live(t.dispatchers, id),
        acquire_rule(t, acquire, max_inline) != SlotAnswer::Done,
{
    assert(to_reclaim(request)(s.dispatchers[table::k1(id)]));
    assert(taken_over(request.now)(s.dispatchers[table::k1(id)], t.dispatchers[table::k1(id)]));
}

/// Nothing completes under a lease that was reclaimed, and it is not renewed.
pub proof fn law_a_reclaimed_lease_is_over(
    s: SlotView,
    t: SlotView,
    request: ReclaimRequest,
    lease: Seq<char>,
    attempt: Seq<char>,
    epoch: u64,
    owner: Seq<char>,
    now: Timestamp,
)
    requires
        reclaimed(s, t, request),
        s.work.leases.contains_key(table::k1(lease)),
        lease_fate(s.dispatchers, s.work.leases[table::k1(lease)], request) is Some,
    ensures
        current(t, lease, attempt, epoch) is Some,
        !unexpired(owner, now)(t.work.leases[table::k1(lease)]),
{
    let k = table::k1(lease);
    assert(to_release(s, request)(s.work.leases[k]));
    assert(given_back(request.now)(s.work.leases[k], t.work.leases[k]));
}

/// Expiry alone never frees an environment: once its lease is reclaimed, it is
/// in no pool, nobody acquires it, and it only waits for its terminate.
pub proof fn law_expiry_frees_no_environment(
    s: SlotView,
    t: SlotView,
    request: ReclaimRequest,
    env: Seq<char>,
    acquire: SlotAcquire,
    max_inline: u64,
    copy: ExecutionEnvironment,
    limits: PoolLimits,
    now: Timestamp,
)
    requires
        reclaimed(s, t, request),
        s.work.environments.contains_key(table::k1(env)),
        to_fence(s, request)(s.work.environments[table::k1(env)]),
        acquire.env.id@ == env,
        copy.id@ == env,
    ensures
        awaiting()(t.work.environments[table::k1(env)]),
        !memory::idle()(t.work.environments[table::k1(env)]),
        acquire_rule(t, acquire, max_inline) != SlotAnswer::Done,
        pool_rule(t, copy, limits, now) == Ok::<Option<ExecutionEnvironment>, RepoErrorView>(None),
{
    let k = table::k1(env);
    assert(fenced(request.now)(s.work.environments[k], t.work.environments[k]));
}

/// Nothing of the reclaimer itself is touched.
pub proof fn law_the_reclaimer_keeps_its_own(
    s: SlotView,
    t: SlotView,
    request: ReclaimRequest,
    key: Seq<Seq<char>>,
)
    requires
        reclaimed(s, t, request),
    ensures
        s.dispatchers.contains_key(key) && s.dispatchers[key].id@ == request.reclaimer@
            ==> t.dispatchers[key] == s.dispatchers[key],
        s.work.leases.contains_key(key) && is_own(s.work.leases[key].owner, request)
            ==> t.work.leases[key] == s.work.leases[key],
        s.work.environments.contains_key(key) && is_own(s.work.environments[key].owner, request)
            ==> t.work.environments[key] == s.work.environments[key],
        s.work.invocations.contains_key(key) && is_own(
            s.work.invocations[key].dispatcher_id,
            request,
        ) ==> t.work.invocations[key] == s.work.invocations[key],
        s.work.attempts.contains_key(key) && is_own(driver(s, s.work.attempts[key]), request)
            ==> t.work.attempts[key] == s.work.attempts[key],
{
}

/// A dispatcher that neither stopped nor is proven dead, and whose lease has
/// not passed, is never reclaimed, and neither is a lease of it that has not
/// passed.
pub proof fn law_a_live_dispatcher_is_never_reclaimed(
    s: SlotView,
    t: SlotView,
    request: ReclaimRequest,
    id: Seq<char>,
    lease: Seq<Seq<char>>,
)
    requires
        reclaimed(s, t, request),
        s.dispatchers.contains_key(table::k1(id)),
        s.dispatchers[table::k1(id)].live(),
        !text::texts_view(request.presumed_dead@).contains(s.dispatchers[table::k1(id)].id@),
        !passed(s.dispatchers[table::k1(id)].lease_expires_at, request),
    ensures
        t.dispatchers[table::k1(id)] == s.dispatchers[table::k1(id)],
        s.work.leases.contains_key(lease) && text::opt_view(s.work.leases[lease].owner) == Some(id)
            && !(s.work.leases[lease].expires_at is Some && passed(
            s.work.leases[lease].expires_at->0,
            request,
        )) ==> t.work.leases[lease] == s.work.leases[lease],
{
    assert(!to_reclaim(request)(s.dispatchers[table::k1(id)]));
}

/// A reclaim happens once: the same request again finds nothing to do.
pub proof fn law_a_reclaim_happens_once(
    s: SlotView,
    t: SlotView,
    u: SlotView,
    request: ReclaimRequest,
)
    requires
        reclaimed(s, t, request),
        reclaimed(t, u, request),
    ensures
        forall|k: Seq<Seq<char>>| #[trigger]
            t.dispatchers.contains_key(k) ==> dispatcher_fate(t.dispatchers[k], request) is None,
        forall|k: Seq<Seq<char>>| #[trigger]
            t.work.leases.contains_key(k) ==> lease_fate(
                t.dispatchers,
                t.work.leases[k],
                request,
            ) is None,
        u == t,
{
    assert forall|k: Seq<Seq<char>>| #[trigger] t.dispatchers.contains_key(k) implies dispatcher_fate(
        t.dispatchers[k],
        request,
    ) is None by {
        assert(s.dispatchers.contains_key(k));
        if to_reclaim(request)(s.dispatchers[k]) {
            assert(taken_over(request.now)(s.dispatchers[k], t.dispatchers[k]));
        }
    }
    assert forall|k: Seq<Seq<char>>| #[trigger] t.work.leases.contains_key(k) implies lease_fate(
        t.dispatchers,
        t.work.leases[k],
        request,
    ) is None by {
        assert(s.work.leases.contains_key(k));
        let l = s.work.leases[k];
        if to_release(s, request)(l) {
            assert(given_back(request.now)(l, t.work.leases[k]));
        } else {
            assert(owner_fate(t.dispatchers, l.owner, request) is None);
        }
    }
    assert(u.dispatchers =~= t.dispatchers);
    assert(u.work.leases =~= t.work.leases);
    assert forall|k: Seq<Seq<char>>| #[trigger] t.work.invocations.contains_key(k) implies u.work.invocations[k]
        == t.work.invocations[k] by {
        let inv = t.work.invocations[k];
        assert(owner_fate(t.dispatchers, inv.dispatcher_id, request) is None);
        assert(listing::none_of(t.work.leases, lost_run_of(t, inv.id@, request)));
        assert(invocation_fate(t, inv, request, None));
    }
    assert(u.work.invocations =~= t.work.invocations);
    assert forall|k: Seq<Seq<char>>| #[trigger] t.work.attempts.contains_key(k) implies u.work.attempts[k]
        == t.work.attempts[k] by {
        let att = t.work.attempts[k];
        assert(owner_fate(t.dispatchers, driver(t, att), request) is None);
        assert(listing::none_of(t.work.leases, lost_lease_of(t, att.id@, request)));
        assert(attempt_fate(t, att, request, None));
    }
    assert(u.work.attempts =~= t.work.attempts);
    assert forall|k: Seq<Seq<char>>| #[trigger] t.work.environments.contains_key(k) implies u.work.environments[k]
        == t.work.environments[k] by {
        let e = t.work.environments[k];
        assert(owner_fate(t.dispatchers, e.owner, request) is None);
        assert(listing::none_of(t.work.leases, lost_slot_of(t, e.id@, request)));
    }
    assert(u.work.environments =~= t.work.environments);
}

/// Rows that are changed without their ids stay under their ids.
proof fn lemma_same_ids(
    old: Rows<ExecutionLease>,
    new: Rows<ExecutionLease>,
    p: spec_fn(ExecutionLease) -> bool,
    rel: spec_fn(ExecutionLease, ExecutionLease) -> bool,
)
    requires
        listing::rewritten(old, new, p, rel),
        forall|a: ExecutionLease, b: ExecutionLease| #[trigger] rel(a, b) ==> b.id == a.id,
        forall|k: Seq<Seq<char>>| #[trigger] old.contains_key(k) ==> k == table::k1(old[k].id@),
    ensures
        forall|k: Seq<Seq<char>>| #[trigger] new.contains_key(k) ==> k == table::k1(new[k].id@),
{
    assert forall|k: Seq<Seq<char>>| #[trigger] new.contains_key(k) implies k == table::k1(
        new[k].id@,
    ) by {
        assert(old.contains_key(k));
        if p(old[k]) {
            assert(rel(old[k], new[k]));
        }
    }
}

} // verus!
