//! What a store that opens does with the work its previous process left in
//! flight.

use vstd::prelude::*;

use crate::domain::environment::{ExecutionEnvironment, ExecutionLease};
use crate::domain::invocation::{Invocation, InvocationAttempt};
use crate::listing;
use crate::listing::Rows;
use crate::repository::restart;
use crate::repository::restart::Cause;
use crate::repository::sqlite::Settled;
use crate::repository::IdempotencyBinding;
use crate::table;
use crate::table::{Key, Table};
use crate::time::Timestamp;

verus! {

/// The rows that work moves: invocations, attempts, environments and leases by
/// id, idempotency bindings by tenant, function and key, and the ids of the
/// invocations that have a durable input.
pub struct Work {
    pub invocations: Table<Invocation>,
    pub attempts: Table<InvocationAttempt>,
    pub environments: Table<ExecutionEnvironment>,
    pub leases: Table<ExecutionLease>,
    pub idempotency: Table<IdempotencyBinding>,
    pub inputs: Table<()>,
}

/// Content of the work.
pub ghost struct WorkView {
    pub invocations: Rows<Invocation>,
    pub attempts: Rows<InvocationAttempt>,
    pub environments: Rows<ExecutionEnvironment>,
    pub leases: Rows<ExecutionLease>,
    pub idempotency: Rows<IdempotencyBinding>,
    pub inputs: Set<Seq<Seq<char>>>,
}

impl View for Work {
    type V = WorkView;

    open spec fn view(&self) -> WorkView {
        WorkView {
            invocations: self.invocations@,
            attempts: self.attempts@,
            environments: self.environments@,
            leases: self.leases@,
            idempotency: self.idempotency@,
            inputs: self.inputs@.dom(),
        }
    }
}

impl Work {
    /// Rows are kept under their ids.
    pub open spec fn wf(&self) -> bool {
        &&& self.invocations.wf()
        &&& self.attempts.wf()
        &&& self.environments.wf()
        &&& self.leases.wf()
        &&& self.idempotency.wf()
        &&& self.inputs.wf()
        &&& forall|k: Seq<Seq<char>>| #[trigger]
            self.invocations@.contains_key(k) ==> k == table::k1(self.invocations@[k].id@)
        &&& forall|k: Seq<Seq<char>>| #[trigger]
            self.attempts@.contains_key(k) ==> k == table::k1(self.attempts@[k].id@)
        &&& forall|k: Seq<Seq<char>>| #[trigger]
            self.environments@.contains_key(k) ==> k == table::k1(self.environments@[k].id@)
        &&& forall|k: Seq<Seq<char>>| #[trigger]
            self.leases@.contains_key(k) ==> k == table::k1(self.leases@[k].id@)
    }

    /// No work.
    pub fn new() -> (r: Work)
        ensures
            r.wf(),
            r@ == (WorkView {
                invocations: Map::empty(),
                attempts: Map::empty(),
                environments: Map::empty(),
                leases: Map::empty(),
                idempotency: Map::empty(),
                inputs: Set::empty(),
            }),
    {
        let r = Work {
            invocations: Table::new(),
            attempts: Table::new(),
            environments: Table::new(),
            leases: Table::new(),
            idempotency: Table::new(),
            inputs: Table::new(),
        };
        proof {
            assert(r.inputs@.dom() =~= Set::<Seq<Seq<char>>>::empty());
        }
        r
    }
}

/// An invocation that nobody drives any more: not terminal, accepted by no
/// dispatcher, and without a durable input to be run again from.
pub open spec fn orphaned(inputs: Set<Seq<Seq<char>>>) -> spec_fn(Invocation) -> bool {
    |inv: Invocation|
        !inv.status.terminal() && inv.dispatcher_id is None && !inputs.contains(
            table::k1(inv.id@),
        )
}

/// An attempt that nobody drives any more: not terminal, of an invocation that
/// no dispatcher accepted.
pub open spec fn orphaned_attempt(invocations: Rows<Invocation>) -> spec_fn(InvocationAttempt) -> bool {
    |att: InvocationAttempt|
        !att.status.terminal() && invocations.contains_key(table::k1(att.invocation_id@))
            && invocations[table::k1(att.invocation_id@)].dispatcher_id is None
}

/// An environment that is not terminal and has no owner.
pub open spec fn orphaned_environment() -> spec_fn(ExecutionEnvironment) -> bool {
    |env: ExecutionEnvironment| !env.state.terminal() && env.owner is None
}

/// A lease that is not released and has no owner.
pub open spec fn orphaned_lease() -> spec_fn(ExecutionLease) -> bool {
    |lease: ExecutionLease| lease.released_at is None && lease.owner is None
}

/// A binding whose invocation is in the ledger.
pub open spec fn bound(invocations: Rows<Invocation>) -> spec_fn(IdempotencyBinding) -> bool {
    |b: IdempotencyBinding| invocations.contains_key(table::k1(b.invocation_id@))
}

/// What a restart makes of an invocation.
pub open spec fn restarted_invocation(
    inputs: Set<Seq<Seq<char>>>,
    old: Invocation,
    new: Invocation,
    cause: Cause,
    now: Timestamp,
) -> bool {
    if orphaned(inputs)(old) {
        restart::settled_invocation(old, new, cause, now)
    } else {
        new == old
    }
}

/// What a restart makes of an attempt, given the invocations once they were
/// settled: it follows its invocation.
pub open spec fn restarted_attempt(
    invocations: Rows<Invocation>,
    old: InvocationAttempt,
    new: InvocationAttempt,
    cause: Cause,
    now: Timestamp,
) -> bool {
    if orphaned_attempt(invocations)(old) {
        let inv = invocations[table::k1(old.invocation_id@)];
        restart::settled_attempt(
            old,
            new,
            inv.status is OutcomeUnknown || inv.status is Running,
            cause,
            now,
        )
    } else {
        new == old
    }
}

/// What a restart makes of an environment.
pub open spec fn restarted_environment(
    old: ExecutionEnvironment,
    new: ExecutionEnvironment,
    now: Timestamp,
) -> bool {
    if orphaned_environment()(old) {
        restart::settled_environment(old, new, now)
    } else {
        new == old
    }
}

/// What a restart makes of a lease.
pub open spec fn restarted_lease(old: ExecutionLease, now: Timestamp) -> ExecutionLease {
    if orphaned_lease()(old) {
        ExecutionLease { released_at: Some(now), ..old }
    } else {
        old
    }
}

/// What a restart makes of the work.
pub open spec fn reconciled(old: WorkView, new: WorkView, cause: Cause, now: Timestamp) -> bool {
    &&& new.invocations.dom() == old.invocations.dom()
    &&& forall|k: Seq<Seq<char>>| #[trigger]
        old.invocations.contains_key(k) ==> restarted_invocation(
            old.inputs,
            old.invocations[k],
            new.invocations[k],
            cause,
            now,
        )
    &&& new.attempts.dom() == old.attempts.dom()
    &&& forall|k: Seq<Seq<char>>| #[trigger]
        old.attempts.contains_key(k) ==> restarted_attempt(
            new.invocations,
            old.attempts[k],
            new.attempts[k],
            cause,
            now,
        )
    &&& new.environments.dom() == old.environments.dom()
    &&& forall|k: Seq<Seq<char>>| #[trigger]
        old.environments.contains_key(k) ==> restarted_environment(
            old.environments[k],
            new.environments[k],
            now,
        )
    &&& new.leases.dom() == old.leases.dom()
    &&& forall|k: Seq<Seq<char>>| #[trigger]
        old.leases.contains_key(k) ==> new.leases[k] == restarted_lease(old.leases[k], now)
    &&& new.idempotency == listing::kept(old.idempotency, bound(old.invocations))
    &&& new.inputs == old.inputs
}

/// How many rows of each kind a restart changes.
pub open spec fn counts(old: WorkView, s: Settled) -> bool {
    &&& s.invocations == listing::matching(old.invocations, orphaned(old.inputs)).len()
    &&& s.attempts == listing::matching(old.attempts, orphaned_attempt(old.invocations)).len()
    &&& s.environments == listing::matching(old.environments, orphaned_environment()).len()
    &&& s.leases == listing::matching(old.leases, orphaned_lease()).len()
    &&& s.idempotency_dropped == old.idempotency.dom().len() - listing::kept(
        old.idempotency,
        bound(old.invocations),
    ).dom().len()
    &&& s.idempotency_purged == 0
}

impl Work {
    fn reconcile_invocations(&mut self, cause: Cause, now: Timestamp) -> (r: usize)
        requires
            old(self).wf(),
        ensures
            final(self).wf(),
            r == listing::matching(old(self)@.invocations, orphaned(old(self)@.inputs)).len(),
            final(self)@ == (WorkView { invocations: final(self)@.invocations, ..old(self)@ }),
            final(self)@.invocations.dom() == old(self)@.invocations.dom(),
            forall|k: Seq<Seq<char>>| #[trigger]
                old(self)@.invocations.contains_key(k) ==> restarted_invocation(
                    old(self)@.inputs,
                    old(self)@.invocations[k],
                    final(self)@.invocations[k],
                    cause,
                    now,
                ),
    {
        let ghost was = *self;
        let inputs = &self.inputs;
        let keep = |row: &Invocation| -> (b: bool)
            requires
                inputs.wf(),
            ensures
                b == orphaned(inputs@.dom())(*row),
        {
            is_orphaned(row, inputs)
        };
        let n: usize = listing::count(&self.invocations, keep, Ghost(orphaned(inputs@.dom())));
        let mut i: usize = 0;
        while i < self.invocations.values.len()
            invariant
                was.wf(),
                self.invocations.wf(),
                self.attempts == was.attempts,
                self.environments == was.environments,
                self.leases == was.leases,
                self.idempotency == was.idempotency,
                self.inputs == was.inputs,
                i <= self.invocations.values@.len(),
                self.invocations.order() == was.invocations.order(),
                self.invocations.values@.len() == was.invocations.values@.len(),
                forall|x: int|
                    i <= x < self.invocations.values@.len() ==> #[trigger] self.invocations.values@[x]
                        == was.invocations.values@[x],
                forall|x: int|
                    0 <= x < i ==> restarted_invocation(
                    was@.inputs,
                    #[trigger] was.invocations.values@[x],
                    self.invocations.values@[x],
                    cause,
                    now,
                ),
            decreases self.invocations.values@.len() - i,
        {
            if is_orphaned(&self.invocations.values[i], &self.inputs) {
                let inv = self.invocations.row_mut(i);
                restart::settle_invocation_with(inv, cause, now);
            }
            i += 1;
        }
        proof {
            let rel = |a: Invocation, b: Invocation| restarted_invocation(
                    was@.inputs,
                    a,
                    b,
                    cause,
                    now,
                );
            listing::lemma_related(was.invocations, self.invocations, rel);
            assert forall|k: Seq<Seq<char>>| #[trigger] self.invocations@.contains_key(k) implies k
                == table::k1(self.invocations@[k].id@) by {
                assert(was.invocations@.contains_key(k));
                assert(rel(was.invocations@[k], self.invocations@[k]));
            }
            assert forall|k: Seq<Seq<char>>| #[trigger] was@.invocations.contains_key(k) implies restarted_invocation(
                    was@.inputs,
                    was@.invocations[k],
                    self@.invocations[k],
                    cause,
                    now,
                ) by {
                assert(rel(was.invocations@[k], self.invocations@[k]));
            }
        }
        n
    }

    fn reconcile_attempts(&mut self, cause: Cause, now: Timestamp) -> (r: usize)
        requires
            old(self).wf(),
        ensures
            final(self).wf(),
            r == listing::matching(
                old(self)@.attempts,
                orphaned_attempt(old(self)@.invocations),
            ).len(),
            final(self)@ == (WorkView { attempts: final(self)@.attempts, ..old(self)@ }),
            final(self)@.attempts.dom() == old(self)@.attempts.dom(),
            forall|k: Seq<Seq<char>>| #[trigger]
                old(self)@.attempts.contains_key(k) ==> restarted_attempt(
                    old(self)@.invocations,
                    old(self)@.attempts[k],
                    final(self)@.attempts[k],
                    cause,
                    now,
                ),
    {
        let ghost was = *self;
        let invocations = &self.invocations;
        let keep = |row: &InvocationAttempt| -> (b: bool)
            requires
                invocations.wf(),
            ensures
                b == orphaned_attempt(invocations@)(*row),
        {
            is_orphaned_attempt(row, invocations)
        };
        let n: usize = listing::count(&self.attempts, keep, Ghost(orphaned_attempt(invocations@)));
        let mut i: usize = 0;
        while i < self.attempts.values.len()
            invariant
                was.wf(),
                self.attempts.wf(),
                self.invocations == was.invocations,
                self.environments == was.environments,
                self.leases == was.leases,
                self.idempotency == was.idempotency,
                self.inputs == was.inputs,
                i <= self.attempts.values@.len(),
                self.attempts.order() == was.attempts.order(),
                self.attempts.values@.len() == was.attempts.values@.len(),
                forall|x: int|
                    i <= x < self.attempts.values@.len() ==> #[trigger] self.attempts.values@[x]
                        == was.attempts.values@[x],
                forall|x: int|
                    0 <= x < i ==> restarted_attempt(
                    was@.invocations,
                    #[trigger] was.attempts.values@[x],
                    self.attempts.values@[x],
                    cause,
                    now,
                ),
            decreases self.attempts.values@.len() - i,
        {
            if is_orphaned_attempt(&self.attempts.values[i], &self.invocations) {
                let key = Key::one(self.attempts.values[i].invocation_id.as_str());
                let unknown = match self.invocations.get(&key) {
                    Some(inv) => restart::attempts_unknown(inv),
                    None => false,
                };
                let att = self.attempts.row_mut(i);
                restart::settle_attempt_with(att, unknown, cause, now);
            }
            i += 1;
        }
        proof {
            let rel = |a: InvocationAttempt, b: InvocationAttempt| restarted_attempt(
                    was@.invocations,
                    a,
                    b,
                    cause,
                    now,
                );
            listing::lemma_related(was.attempts, self.attempts, rel);
            assert forall|k: Seq<Seq<char>>| #[trigger] self.attempts@.contains_key(k) implies k
                == table::k1(self.attempts@[k].id@) by {
                assert(was.attempts@.contains_key(k));
                assert(rel(was.attempts@[k], self.attempts@[k]));
            }
            assert forall|k: Seq<Seq<char>>| #[trigger] was@.attempts.contains_key(k) implies restarted_attempt(
                    was@.invocations,
                    was@.attempts[k],
                    self@.attempts[k],
                    cause,
                    now,
                ) by {
                assert(rel(was.attempts@[k], self.attempts@[k]));
            }
        }
        n
    }

    fn reconcile_environments(&mut self, now: Timestamp) -> (r: usize)
        requires
            old(self).wf(),
        ensures
            final(self).wf(),
            r == listing::matching(old(self)@.environments, orphaned_environment()).len(),
            final(self)@ == (WorkView { environments: final(self)@.environments, ..old(self)@ }),
            final(self)@.environments.dom() == old(self)@.environments.dom(),
            forall|k: Seq<Seq<char>>| #[trigger]
                old(self)@.environments.contains_key(k) ==> restarted_environment(
                    old(self)@.environments[k],
                    final(self)@.environments[k],
                    now,
                ),
    {
        let ghost was = *self;
        let keep = |row: &ExecutionEnvironment| -> (b: bool)
            ensures
                b == orphaned_environment()(*row),
        {
            is_orphaned_environment(row)
        };
        let n: usize = listing::count(&self.environments, keep, Ghost(orphaned_environment()));
        let mut i: usize = 0;
        while i < self.environments.values.len()
            invariant
                was.wf(),
                self.environments.wf(),
                self.invocations == was.invocations,
                self.attempts == was.attempts,
                self.leases == was.leases,
                self.idempotency == was.idempotency,
                self.inputs == was.inputs,
                i <= self.environments.values@.len(),
                self.environments.order() == was.environments.order(),
                self.environments.values@.len() == was.environments.values@.len(),
                forall|x: int|
                    i <= x < self.environments.values@.len() ==> #[trigger] self.environments.values@[x]
                        == was.environments.values@[x],
                forall|x: int|
                    0 <= x < i ==> restarted_environment(
                    #[trigger] was.environments.values@[x],
                    self.environments.values@[x],
                    now,
                ),
            decreases self.environments.values@.len() - i,
        {
            if is_orphaned_environment(&self.environments.values[i]) {
                let env = self.environments.row_mut(i);
                restart::settle_environment(env, now);
            }
            i += 1;
        }
        proof {
            let rel = |a: ExecutionEnvironment, b: ExecutionEnvironment| restarted_environment(
                    a,
                    b,
                    now,
                );
            listing::lemma_related(was.environments, self.environments, rel);
            assert forall|k: Seq<Seq<char>>| #[trigger] self.environments@.contains_key(k) implies k
                == table::k1(self.environments@[k].id@) by {
                assert(was.environments@.contains_key(k));
                assert(rel(was.environments@[k], self.environments@[k]));
            }
            assert forall|k: Seq<Seq<char>>| #[trigger] was@.environments.contains_key(k) implies restarted_environment(
                    was@.environments[k],
                    self@.environments[k],
                    now,
                ) by {
                assert(rel(was.environments@[k], self.environments@[k]));
            }
        }
        n
    }

    fn reconcile_leases(&mut self, now: Timestamp) -> (r: usize)
        requires
            old(self).wf(),
        ensures
            final(self).wf(),
            r == listing::matching(old(self)@.leases, orphaned_lease()).len(),
            final(self)@ == (WorkView { leases: final(self)@.leases, ..old(self)@ }),
            final(self)@.leases.dom() == old(self)@.leases.dom(),
            forall|k: Seq<Seq<char>>| #[trigger]
                old(self)@.leases.contains_key(k) ==> final(self)@.leases[k] == restarted_lease(old(self)@.leases[k], now),
    {
        let ghost was = *self;
        let keep = |row: &ExecutionLease| -> (b: bool)
            ensures
                b == orphaned_lease()(*row),
        {
            is_orphaned_lease(row)
        };
        let n: usize = listing::count(&self.leases, keep, Ghost(orphaned_lease()));
        let mut i: usize = 0;
        while i < self.leases.values.len()
            invariant
                was.wf(),
                self.leases.wf(),
                self.invocations == was.invocations,
                self.attempts == was.attempts,
                self.environments == was.environments,
                self.idempotency == was.idempotency,
                self.inputs == was.inputs,
                i <= self.leases.values@.len(),
                self.leases.order() == was.leases.order(),
                self.leases.values@.len() == was.leases.values@.len(),
                forall|x: int|
                    i <= x < self.leases.values@.len() ==> #[trigger] self.leases.values@[x]
                        == was.leases.values@[x],
                forall|x: int|
                    0 <= x < i ==> self.leases.values@[x] == restarted_lease(#[trigger] was.leases.values@[x], now),
            decreases self.leases.values@.len() - i,
        {
            if is_orphaned_lease(&self.leases.values[i]) {
                let lease = self.leases.row_mut(i);
                restart::settle_lease(lease, now);
            }
            i += 1;
        }
        proof {
            let rel = |a: ExecutionLease, b: ExecutionLease| b == restarted_lease(a, now);
            listing::lemma_related(was.leases, self.leases, rel);
            assert forall|k: Seq<Seq<char>>| #[trigger] self.leases@.contains_key(k) implies k
                == table::k1(self.leases@[k].id@) by {
                assert(was.leases@.contains_key(k));
                assert(rel(was.leases@[k], self.leases@[k]));
            }
            assert forall|k: Seq<Seq<char>>| #[trigger]
                was@.leases.contains_key(k) implies self@.leases[k] == restarted_lease(
                was@.leases[k],
                now,
            ) by {
                assert(rel(was.leases@[k], self.leases@[k]));
            }
        }
        n
    }

    /// Settle what the previous process left in flight: everything that no
    /// dispatcher owns, but for invocations with a durable input. Bindings of
    /// invocations that are not in the ledger are dropped.
    pub fn reconcile_after_restart(&mut self, now: Timestamp) -> (r: Settled)
        requires
            old(self).wf(),
        ensures
            final(self).wf(),
            counts(old(self)@, r),
            exists|cause: Cause| #[trigger]
                restart::is_restarted(cause) && reconciled(old(self)@, final(self)@, cause, now),
    {
        let ghost was = self@;
        let cause = Cause::restarted();
        let invocations = &self.invocations;
        let keep = |row: &IdempotencyBinding| -> (b: bool)
            requires
                invocations.wf(),
            ensures
                b == bound(invocations@)(*row),
        {
            invocations.contains(&Key::one(row.invocation_id.as_str()))
        };
        let idempotency_dropped: usize = listing::retain(
            &mut self.idempotency,
            keep,
            Ghost(bound(invocations@)),
        );
        let n_invocations: usize = self.reconcile_invocations(cause, now);
        let ghost middle = self@;
        let n_attempts: usize = self.reconcile_attempts(cause, now);
        let n_environments: usize = self.reconcile_environments(now);
        let n_leases: usize = self.reconcile_leases(now);
        proof {
            assert(restart::is_restarted(cause));
            lemma_same_attempts(was, middle, cause, now);
            assert(reconciled(was, self@, cause, now));
        }
        Settled {
            invocations: n_invocations,
            attempts: n_attempts,
            environments: n_environments,
            leases: n_leases,
            idempotency_dropped,
            idempotency_purged: 0,
        }
    }
}

/// Settling invocations leaves the attempts to be settled the same ones.
proof fn lemma_same_attempts(old: WorkView, new: WorkView, cause: Cause, now: Timestamp)
    requires
        new.attempts == old.attempts,
        new.invocations.dom() == old.invocations.dom(),
        forall|k: Seq<Seq<char>>| #[trigger]
            old.invocations.contains_key(k) ==> restarted_invocation(
                old.inputs,
                old.invocations[k],
                new.invocations[k],
                cause,
                now,
            ),
    ensures
        listing::matching(new.attempts, orphaned_attempt(new.invocations)) == listing::matching(
            old.attempts,
            orphaned_attempt(old.invocations),
        ),
{
    let a = listing::matching(new.attempts, orphaned_attempt(new.invocations));
    let b = listing::matching(old.attempts, orphaned_attempt(old.invocations));
    assert forall|k: Seq<Seq<char>>| a.contains(k) == b.contains(k) by {
        if old.attempts.contains_key(k) {
            let parent = table::k1(old.attempts[k].invocation_id@);
            if old.invocations.contains_key(parent) {
                assert(new.invocations[parent].dispatcher_id
                    == old.invocations[parent].dispatcher_id);
            } else {
                assert(!new.invocations.contains_key(parent));
            }
        }
    }
    assert(a =~= b);
}

fn is_orphaned(inv: &Invocation, inputs: &Table<()>) -> (r: bool)
    requires
        inputs.wf(),
    ensures
        r == orphaned(inputs@.dom())(*inv),
{
    !inv.status.is_terminal() && inv.dispatcher_id.is_none() && !inputs.contains(
        &Key::one(inv.id.as_str()),
    )
}

fn is_orphaned_attempt(att: &InvocationAttempt, invocations: &Table<Invocation>) -> (r: bool)
    requires
        invocations.wf(),
    ensures
        r == orphaned_attempt(invocations@)(*att),
{
    !att.status.is_terminal() && match invocations.get(&Key::one(att.invocation_id.as_str())) {
        Some(inv) => inv.dispatcher_id.is_none(),
        None => false,
    }
}

fn is_orphaned_environment(env: &ExecutionEnvironment) -> (r: bool)
    ensures
        r == orphaned_environment()(*env),
{
    !env.state.is_terminal() && env.owner.is_none()
}

fn is_orphaned_lease(lease: &ExecutionLease) -> (r: bool)
    ensures
        r == orphaned_lease()(*lease),
{
    lease.released_at.is_none() && lease.owner.is_none()
}

/// Work that may have run is never reported as a plain failure, and work that
/// never started is never left open: of what no dispatcher owns, what was
/// running ends with an unknown outcome and the rest as failed.
pub proof fn law_a_restart_separates_dispatched_work_from_the_rest(
    old: WorkView,
    new: WorkView,
    cause: Cause,
    now: Timestamp,
    k: Seq<Seq<char>>,
)
    requires
        reconciled(old, new, cause, now),
        old.invocations.contains_key(k),
    ensures
        orphaned(old.inputs)(old.invocations[k]) ==> new.invocations[k].status.terminal() && (
        old.invocations[k].status is Running <==> new.invocations[k].status is OutcomeUnknown),
        old.invocations[k].status.terminal() ==> new.invocations[k] == old.invocations[k],
        old.invocations[k].dispatcher_id is Some ==> new.invocations[k] == old.invocations[k],
{
    assert(restarted_invocation(
        old.inputs,
        old.invocations[k],
        new.invocations[k],
        cause,
        now,
    ));
}

/// An attempt follows its invocation: a caller never sees a failed attempt
/// under an unknown outcome that the restart settled.
pub proof fn law_an_attempt_follows_its_invocation(
    old: WorkView,
    new: WorkView,
    cause: Cause,
    now: Timestamp,
    k: Seq<Seq<char>>,
)
    requires
        reconciled(old, new, cause, now),
        old.attempts.contains_key(k),
        orphaned_attempt(new.invocations)(old.attempts[k]),
    ensures
        new.attempts[k].status.terminal(),
        new.invocations[table::k1(old.attempts[k].invocation_id@)].status is OutcomeUnknown
            ==> new.attempts[k].status is OutcomeUnknown,
{
    assert(restarted_attempt(new.invocations, old.attempts[k], new.attempts[k], cause, now));
}

} // verus!
