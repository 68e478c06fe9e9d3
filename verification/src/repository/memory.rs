//! Volatile store: the whole ledger in memory, with the same row rules as the
//! durable one.

use vstd::prelude::*;

use crate::domain::environment::{EnvironmentState, ExecutionEnvironment, ExecutionLease, ReuseKey};
use crate::domain::function::{Function, FunctionAlias, FunctionRevision};
use crate::domain::invocation::{Invocation, InvocationAttempt};
use crate::domain::log::LogRecord;
use crate::domain::Limits;
use crate::listing;
use crate::listing::Rows;
use crate::repository::guard;
use crate::repository::guard::Write;
use crate::repository::logs::LogBuffer;
use crate::repository::objects;
use crate::repository::objects::{CollectDecision, CollectReason};
use crate::repository::outbox::ObjectRef;
use crate::repository::reconcile;
use crate::repository::reconcile::{Work, WorkView};
use crate::repository::restart;
use crate::repository::restart::Cause;
use crate::repository::sqlite;
use crate::repository::sqlite::Settled;
use crate::repository::{
    AppendOutcome, IdempotencyBinding, IdempotencyOutcome, LogQuery, PoolLimits, RepoError,
    RepoErrorView,
};
use crate::table;
use crate::table::{Key, Table};
use crate::text;
use crate::time;
use crate::time::{Span, Timestamp};

verus! {

/// An invocation that uses an object.
#[derive(Debug, PartialEq, Eq)]
pub struct ObjectReference {
    pub object_id: String,
    pub invocation_id: String,
    pub attached_at: Timestamp,
}

/// An object that is being collected, or was.
#[derive(Debug, Clone, Copy, PartialEq, Eq, Structural)]
pub struct Tombstone {
    pub reason: CollectReason,
    pub tombstoned_at: Timestamp,
}

/// A ledger in memory.
pub struct InMemoryStore {
    pub functions: Table<Function>,
    pub revisions: Table<FunctionRevision>,
    pub revision_counters: Table<u64>,
    /// By function and name.
    pub aliases: Table<FunctionAlias>,
    pub work: Work,
    /// By digest and tenant.
    pub artifact_owners: Table<()>,
    /// By object and invocation.
    pub object_refs: Table<ObjectReference>,
    pub tombstones: Table<Tombstone>,
    pub logs: LogBuffer,
    pub limits: Limits,
    pub idempotency_retention: Option<Span>,
}

/// Content of a ledger.
pub ghost struct Ledger {
    pub functions: Rows<Function>,
    pub revisions: Rows<FunctionRevision>,
    pub revision_counters: Rows<u64>,
    pub aliases: Rows<FunctionAlias>,
    pub work: WorkView,
    pub artifact_owners: Set<Seq<Seq<char>>>,
    pub object_refs: Rows<ObjectReference>,
    pub tombstones: Rows<Tombstone>,
}

/// A function of a tenant that is not deleted and has the name.
pub open spec fn live_named(tenant: Seq<char>, name: Seq<char>) -> spec_fn(Function) -> bool {
    |f: Function| f.tenant_id@ == tenant && f.name@ == name && !f.deleted()
}

/// A function of a tenant.
pub open spec fn of_tenant(tenant: Seq<char>) -> spec_fn(Function) -> bool {
    |f: Function| f.tenant_id@ == tenant
}

/// The oldest function first.
pub open spec fn older_function() -> spec_fn(Function, Function) -> bool {
    |a: Function, b: Function|
        a.created_at < b.created_at || (a.created_at == b.created_at && text::text_lt(a.id@, b.id@))
}

/// A revision of a function.
pub open spec fn of_function(function: Seq<char>) -> spec_fn(FunctionRevision) -> bool {
    |r: FunctionRevision| r.function_id@ == function
}

/// A revision of a function that has the number.
pub open spec fn numbered(function: Seq<char>, number: u64) -> spec_fn(FunctionRevision) -> bool {
    |r: FunctionRevision| r.function_id@ == function && r.number == number
}

/// The revision with the smaller number first.
pub open spec fn earlier_revision() -> spec_fn(FunctionRevision, FunctionRevision) -> bool {
    |a: FunctionRevision, b: FunctionRevision|
        a.number < b.number || (a.number == b.number && text::text_lt(a.id@, b.id@))
}

/// An alias of a function.
pub open spec fn alias_of(function: Seq<char>) -> spec_fn(FunctionAlias) -> bool {
    |a: FunctionAlias| a.function_id@ == function
}

/// Aliases by name.
pub open spec fn alias_order() -> spec_fn(FunctionAlias, FunctionAlias) -> bool {
    |a: FunctionAlias, b: FunctionAlias|
        text::text_lt(a.name@, b.name@) || (a.name@ == b.name@ && text::text_lt(
            a.function_id@,
            b.function_id@,
        ))
}

/// An invocation of a function.
pub open spec fn invocation_of(function: Seq<char>) -> spec_fn(Invocation) -> bool {
    |i: Invocation| i.function_id@ == function
}

/// The newest invocation first.
pub open spec fn newer_invocation() -> spec_fn(Invocation, Invocation) -> bool {
    |a: Invocation, b: Invocation|
        a.accepted_at > b.accepted_at || (a.accepted_at == b.accepted_at && text::text_lt(
            b.id@,
            a.id@,
        ))
}

/// An attempt of an invocation.
pub open spec fn attempt_of(invocation: Seq<char>) -> spec_fn(InvocationAttempt) -> bool {
    |a: InvocationAttempt| a.invocation_id@ == invocation
}

/// The attempt with the smaller number first.
pub open spec fn earlier_attempt() -> spec_fn(InvocationAttempt, InvocationAttempt) -> bool {
    |a: InvocationAttempt, b: InvocationAttempt|
        a.number < b.number || (a.number == b.number && text::text_lt(a.id@, b.id@))
}

/// An environment that is not terminal.
pub open spec fn active() -> spec_fn(ExecutionEnvironment) -> bool {
    |e: ExecutionEnvironment| !e.state.terminal()
}

/// Environments by id.
pub open spec fn environment_order() -> spec_fn(ExecutionEnvironment, ExecutionEnvironment) -> bool {
    |a: ExecutionEnvironment, b: ExecutionEnvironment| text::text_lt(a.id@, b.id@)
}

/// An environment in the pool.
pub open spec fn idle() -> spec_fn(ExecutionEnvironment) -> bool {
    |e: ExecutionEnvironment| e.state is Idle
}

/// An environment in the pool that fits the key in every field.
pub open spec fn idle_for(key: ReuseKey) -> spec_fn(ExecutionEnvironment) -> bool {
    |e: ExecutionEnvironment| e.state is Idle && e.reuse_key.same(key)
}

/// `a` is before `b`, and nothing is before everything.
pub open spec fn time_lt(a: Option<Timestamp>, b: Option<Timestamp>) -> bool {
    match (a, b) {
        (None, Some(_)) => true,
        (Some(x), Some(y)) => x < y,
        _ => false,
    }
}

/// The environment that is idle for the longest time first.
pub open spec fn longest_idle() -> spec_fn(ExecutionEnvironment, ExecutionEnvironment) -> bool {
    |a: ExecutionEnvironment, b: ExecutionEnvironment|
        time_lt(a.idle_since, b.idle_since) || (a.idle_since == b.idle_since && text::text_lt(
            a.id@,
            b.id@,
        ))
}

/// A reference to an object.
pub open spec fn reference_to(object: Seq<char>) -> spec_fn(ObjectReference) -> bool {
    |r: ObjectReference| r.object_id@ == object
}

/// A reference to an object by an invocation that is not terminal, or not in
/// the ledger.
pub open spec fn live_reference(object: Seq<char>, invocations: Rows<Invocation>) -> spec_fn(
    ObjectReference,
) -> bool {
    |r: ObjectReference|
        r.object_id@ == object && !(invocations.contains_key(table::k1(r.invocation_id@))
            && invocations[table::k1(r.invocation_id@)].status.terminal())
}

/// References by invocation.
pub open spec fn reference_order() -> spec_fn(ObjectReference, ObjectReference) -> bool {
    |a: ObjectReference, b: ObjectReference|
        text::text_lt(a.invocation_id@, b.invocation_id@) || (a.invocation_id@ == b.invocation_id@
            && text::text_lt(a.object_id@, b.object_id@))
}

/// A binding that has not expired at `now`.
pub open spec fn unexpired(now: Timestamp) -> spec_fn(IdempotencyBinding) -> bool {
    |b: IdempotencyBinding| sqlite::answers(b, now)
}

/// A tombstone that is kept past `before`.
pub open spec fn fresh_tombstone(before: Timestamp) -> spec_fn(Tombstone) -> bool {
    |t: Tombstone| t.tombstoned_at >= before
}

/// No two live functions of a tenant share a name, and no two revisions of a
/// function share a number.
pub open spec fn unique_names(functions: Rows<Function>) -> bool {
    forall|j: Seq<Seq<char>>, k: Seq<Seq<char>>|
        #![trigger functions[j], functions[k]]
        functions.contains_key(j) && functions.contains_key(k) && !functions[j].deleted()
            && !functions[k].deleted() && functions[j].tenant_id@ == functions[k].tenant_id@
            && functions[j].name@ == functions[k].name@ ==> j == k
}

/// No two revisions of a function share a number.
pub open spec fn unique_numbers(revisions: Rows<FunctionRevision>) -> bool {
    forall|j: Seq<Seq<char>>, k: Seq<Seq<char>>|
        #![trigger revisions[j], revisions[k]]
        revisions.contains_key(j) && revisions.contains_key(k) && revisions[j].function_id@
            == revisions[k].function_id@ && revisions[j].number == revisions[k].number ==> j == k
}

impl InMemoryStore {
    /// Content of the ledger.
    pub open spec fn ledger(&self) -> Ledger {
        Ledger {
            functions: self.functions@,
            revisions: self.revisions@,
            revision_counters: self.revision_counters@,
            aliases: self.aliases@,
            work: self.work@,
            artifact_owners: self.artifact_owners@.dom(),
            object_refs: self.object_refs@,
            tombstones: self.tombstones@,
        }
    }

    /// Rows are kept under their ids, names of live functions are unique per
    /// tenant, and numbers of revisions per function.
    pub open spec fn wf(&self) -> bool {
        &&& self.functions.wf()
        &&& self.revisions.wf()
        &&& self.revision_counters.wf()
        &&& self.aliases.wf()
        &&& self.work.wf()
        &&& self.artifact_owners.wf()
        &&& self.object_refs.wf()
        &&& self.tombstones.wf()
        &&& self.logs.wf()
        &&& forall|k: Seq<Seq<char>>| #[trigger]
            self.functions@.contains_key(k) ==> k == table::k1(self.functions@[k].id@)
        &&& forall|k: Seq<Seq<char>>| #[trigger]
            self.revisions@.contains_key(k) ==> k == table::k1(self.revisions@[k].id@)
        &&& forall|k: Seq<Seq<char>>| #[trigger]
            self.aliases@.contains_key(k) ==> k == table::k2(
                self.aliases@[k].function_id@,
                self.aliases@[k].name@,
            )
        &&& forall|k: Seq<Seq<char>>| #[trigger]
            self.object_refs@.contains_key(k) ==> k == table::k2(
                self.object_refs@[k].object_id@,
                self.object_refs@[k].invocation_id@,
            )
        &&& unique_names(self.functions@)
        &&& unique_numbers(self.revisions@)
    }

    /// An empty ledger that keeps idempotency keys for as long as their
    /// invocations.
    pub fn new(limits: Limits) -> (r: Self)
        ensures
            r.wf(),
            r.limits == limits,
            r.idempotency_retention is None,
            r.ledger() == (Ledger {
                functions: Map::empty(),
                revisions: Map::empty(),
                revision_counters: Map::empty(),
                aliases: Map::empty(),
                work: WorkView {
                    invocations: Map::empty(),
                    attempts: Map::empty(),
                    environments: Map::empty(),
                    leases: Map::empty(),
                    idempotency: Map::empty(),
                    inputs: Set::empty(),
                },
                artifact_owners: Set::empty(),
                object_refs: Map::empty(),
                tombstones: Map::empty(),
            }),
            forall|name: Seq<char>| #[trigger]
                r.logs.bucket(name) == crate::repository::logs::empty_bucket(),
    {
        let r = InMemoryStore {
            functions: Table::new(),
            revisions: Table::new(),
            revision_counters: Table::new(),
            aliases: Table::new(),
            work: Work::new(),
            artifact_owners: Table::new(),
            object_refs: Table::new(),
            tombstones: Table::new(),
            logs: LogBuffer::new(),
            limits,
            idempotency_retention: None,
        };
        proof {
            assert(r.artifact_owners@.dom() =~= Set::<Seq<Seq<char>>>::empty());
        }
        r
    }

    /// The same ledger, with a retention for idempotency keys.
    pub fn with_idempotency_retention(self, retention: Option<Span>) -> (r: Self)
        ensures
            r == (InMemoryStore { idempotency_retention: retention, ..self }),
    {
        let mut r = self;
        r.idempotency_retention = retention;
        r
    }

    /// The limits of the ledger.
    pub fn limits(&self) -> (r: &Limits)
        ensures
            *r == self.limits,
    {
        &self.limits
    }

    /// Name of the store.
    pub fn backend(&self) -> (r: &'static str)
        ensures
            r@ == "memory"@,
    {
        "memory"
    }
}

// ---------------------------------------------------------------------------
// functions
// ---------------------------------------------------------------------------
/// A name that a live function of the tenant has.
pub open spec fn name_taken(functions: Rows<Function>, tenant: Seq<char>, name: Seq<char>) -> bool {
    !listing::none_of(functions, live_named(tenant, name))
}

/// Whether a function may be added.
pub open spec fn function_insert_rule(functions: Rows<Function>, function: Function) -> Result<
    (),
    RepoErrorView,
> {
    if functions.contains_key(table::k1(function.id@)) {
        Err(sqlite::duplicate_row("function"@, function.id@))
    } else if !function.deleted() && name_taken(functions, function.tenant_id@, function.name@) {
        Err(
            RepoErrorView::Conflict(
                "function name `"@ + function.name@ + "` already exists"@,
            ),
        )
    } else {
        Ok(())
    }
}

/// What writing a row over the stored one comes to.
pub open spec fn written<T>(
    rows: Rows<T>,
    key: Seq<Seq<char>>,
    row: T,
    rule: Result<Write, RepoErrorView>,
) -> Rows<T> {
    if rule == Ok::<Write, RepoErrorView>(Write::Apply) {
        rows.insert(key, row)
    } else {
        rows
    }
}

/// The outcome of writing a row: the row must be there, and the rule must
/// allow it.
pub open spec fn write_rule<T>(
    rows: Rows<T>,
    key: Seq<Seq<char>>,
    kind: Seq<char>,
    id: Seq<char>,
    rule: Result<Write, RepoErrorView>,
) -> Result<(), RepoErrorView> {
    if !rows.contains_key(key) {
        Err(sqlite::missing_row(kind, id))
    } else {
        match rule {
            Ok(_) => Ok(()),
            Err(e) => Err(e),
        }
    }
}

impl InMemoryStore {
    /// Add a function. `Conflict` when its id, or the name of a live function
    /// of its tenant, is taken.
    pub fn insert_function(&mut self, function: Function) -> (r: Result<(), RepoError>)
        requires
            old(self).wf(),
        ensures
            final(self).wf(),
            final(self).limits == old(self).limits,
            final(self).idempotency_retention == old(self).idempotency_retention,
            final(self).logs == old(self).logs,
            crate::repository::agrees(
                r,
                function_insert_rule(old(self).ledger().functions, function),
            ),
            final(self).ledger() == if r is Ok {
                Ledger {
                    functions: old(self).ledger().functions.insert(
                        table::k1(function.id@),
                        function,
                    ),
                    ..old(self).ledger()
                }
            } else {
                old(self).ledger()
            },
    {
        let key = Key::one(function.id.as_str());
        if self.functions.contains(&key) {
            return Err(sqlite::duplicate("function", function.id.as_str()));
        }
        if !function.is_deleted() {
            if self.find_by_name(function.tenant_id.as_str(), function.name.as_str()).is_some() {
                let mut m = text::owned("function name `");
                m.append(function.name.as_str());
                m.append("` already exists");
                return Err(RepoError::Conflict(m));
            }
        }
        let ghost rows = self.functions@;
        let ghost at = key@;
        self.functions.set(key, function);
        proof {
            assert forall|j: Seq<Seq<char>>, k: Seq<Seq<char>>|
                #![trigger self.functions@[j], self.functions@[k]]
                self.functions@.contains_key(j) && self.functions@.contains_key(k)
                    && !self.functions@[j].deleted() && !self.functions@[k].deleted()
                    && self.functions@[j].tenant_id@ == self.functions@[k].tenant_id@
                    && self.functions@[j].name@ == self.functions@[k].name@ implies j == k by {
                if j != at && k != at {
                    assert(rows[j] == self.functions@[j] && rows[k] == self.functions@[k]);
                } else if j != at {
                    assert(!live_named(function.tenant_id@, function.name@)(rows[j]));
                } else if k != at {
                    assert(!live_named(function.tenant_id@, function.name@)(rows[k]));
                }
            }
        }
        Ok(())
    }

    /// The function of an id.
    pub fn get_function(&self, id: &str) -> (r: Option<&Function>)
        requires
            self.wf(),
        ensures
            match r {
                Some(v) => self.ledger().functions.contains_key(table::k1(id@)) && *v
                    == self.ledger().functions[table::k1(id@)],
                None => !self.ledger().functions.contains_key(table::k1(id@)),
            },
    {
        self.functions.get(&Key::one(id))
    }

    /// The live function of a tenant that has the name.
    pub fn find_by_name(&self, tenant: &str, name: &str) -> (r: Option<&Function>)
        requires
            self.wf(),
        ensures
            match r {
                Some(f) => {
                    &&& live_named(tenant@, name@)(*f)
                    &&& self.ledger().functions.contains_key(table::k1(f.id@))
                    &&& self.ledger().functions[table::k1(f.id@)] == *f
                    &&& name_taken(self.ledger().functions, tenant@, name@)
                },
                None => !name_taken(self.ledger().functions, tenant@, name@),
            },
    {
        let keep = |f: &Function| -> (b: bool)
            ensures
                b == live_named(tenant@, name@)(*f),
        {
            text::same_text(f.tenant_id.as_str(), tenant) && text::same_text(f.name.as_str(), name)
                && !f.is_deleted()
        };
        match listing::find(&self.functions, keep, Ghost(live_named(tenant@, name@))) {
            Some(i) => {
                proof {
                    table::lemma_row_at(self.functions.order(), self.functions.values@, i as int);
                    let k = self.functions.order()[i as int];
                    assert(live_named(tenant@, name@)(self.functions@[k]));
                }
                Some(&self.functions.values[i])
            },
            None => None,
        }
    }

    /// The functions of a tenant, the oldest first.
    pub fn list_functions(&self, tenant: &str) -> (r: Vec<&Function>)
        requires
            self.wf(),
        ensures
            listing::lists(
                r@,
                self.ledger().functions,
                of_tenant(tenant@),
                older_function(),
            ),
    {
        let keep = |v: &Function| -> (b: bool)
            ensures
                b == of_tenant(tenant@)(*v),
        {
            text::same_text(v.tenant_id.as_str(), tenant)
        };
        let before = |v: &Function, w: &Function| -> (b: bool)
            ensures
                b == older_function()(*v, *w),
        {
            v.created_at < w.created_at || (v.created_at == w.created_at && text::text_before(
                v.id.as_str(),
                w.id.as_str(),
            ))
        };
        proof {
            lemma_older_function(*self);
        }
        listing::pick(
            &self.functions,
            keep,
            before,
            Ghost(of_tenant(tenant@)),
            Ghost(older_function()),
        )
    }

    /// Rewrite a function.
    pub fn update_function(&mut self, function: Function) -> (r: Result<(), RepoError>)
        requires
            old(self).wf(),
        ensures
            final(self).wf(),
            final(self).limits == old(self).limits,
            final(self).idempotency_retention == old(self).idempotency_retention,
            final(self).logs == old(self).logs,
            crate::repository::agrees(
                r,
                write_rule(
                    old(self).ledger().functions,
                    table::k1(function.id@),
                    "function"@,
                    function.id@,
                    guard::function_rule(
                        old(self).ledger().functions[table::k1(function.id@)],
                        function,
                    ),
                ),
            ),
            final(self).ledger() == if r is Ok {
                Ledger { functions: written(
                    old(self).ledger().functions,
                    table::k1(function.id@),
                    function,
                    guard::function_rule(
                        old(self).ledger().functions[table::k1(function.id@)],
                        function,
                    ),
                ), ..old(self).ledger() }
            } else {
                old(self).ledger()
            },
    {
        let i: usize = match self.functions.position(&Key::one(function.id.as_str())) {
            Some(i) => i,
            None => return Err(sqlite::missing("function", function.id.as_str())),
        };
        let write = match guard::function_update(&self.functions.values[i], &function) {
            Ok(w) => w,
            Err(e) => return Err(e),
        };
        if write == Write::Apply {
            let ghost rows = self.functions@;
            let ghost at = table::k1(function.id@);
            self.functions.replace_at(i, function);
            proof {
                assert forall|j: Seq<Seq<char>>, k: Seq<Seq<char>>|
                    #![trigger self.functions@[j], self.functions@[k]]
                    self.functions@.contains_key(j) && self.functions@.contains_key(k)
                        && !self.functions@[j].deleted() && !self.functions@[k].deleted()
                        && self.functions@[j].tenant_id@ == self.functions@[k].tenant_id@
                        && self.functions@[j].name@ == self.functions@[k].name@ implies j == k by {
                    assert(rows.contains_key(j) && rows.contains_key(k));
                    assert(!rows[j].deleted() && !rows[k].deleted());
                    assert(rows[j].tenant_id@ == rows[k].tenant_id@);
                    assert(rows[j].name@ == rows[k].name@);
                }
            }
        }
        Ok(())
    }
}

proof fn lemma_older_function(s: InMemoryStore)
    requires
        s.wf(),
    ensures
        listing::orders(s.functions@, older_function()),
{
    assert forall|a: Function, b: Function, c: Function| #[trigger]
        older_function()(a, b) && #[trigger] older_function()(b, c) implies older_function()(a, c) by {
        text::lemma_text_order(a.id@, b.id@, c.id@);
    }
    assert forall|a: Function| !#[trigger] older_function()(a, a) by {
        text::lemma_text_order(a.id@, a.id@, a.id@);
    }
    assert forall|j: Seq<Seq<char>>, k: Seq<Seq<char>>|
        s.functions@.contains_key(j) && s.functions@.contains_key(k) && j != k implies older_function()(
        #[trigger] s.functions@[j],
        #[trigger] s.functions@[k],
    ) || older_function()(s.functions@[k], s.functions@[j]) by {
        text::lemma_text_order(s.functions@[j].id@, s.functions@[k].id@, s.functions@[j].id@);
    }
}

// ---------------------------------------------------------------------------
// revisions
// ---------------------------------------------------------------------------
/// What the parent of a row says about it, where the parent exists.
pub open spec fn parent<T>(rows: Rows<T>, key: Seq<Seq<char>>) -> Option<T> {
    if rows.contains_key(key) {
        Some(rows[key])
    } else {
        None
    }
}

/// Whether a revision may be added.
pub open spec fn revision_insert_rule(l: Ledger, revision: FunctionRevision) -> Result<
    (),
    RepoErrorView,
> {
    let function = parent(l.functions, table::k1(revision.function_id@));
    if l.revisions.contains_key(table::k1(revision.id@)) {
        Err(sqlite::duplicate_row("revision"@, revision.id@))
    } else if function is Some && guard::tenant_rule(
        "revision"@,
        revision.id@,
        revision.tenant_id@,
        function->0.tenant_id@,
    ) is Err {
        guard::tenant_rule(
            "revision"@,
            revision.id@,
            revision.tenant_id@,
            function->0.tenant_id@,
        )
    } else if !listing::none_of(l.revisions, numbered(revision.function_id@, revision.number)) {
        Err(
            RepoErrorView::Conflict(
                "revision number "@ + text::dec(revision.number as nat)
                    + " already exists for function "@ + revision.function_id@,
            ),
        )
    } else {
        Ok(())
    }
}

impl InMemoryStore {
    /// Allocate the next revision number of a function: 1, 2, 3, and so on.
    pub fn allocate_number(&mut self, function: &str) -> (r: u64)
        requires
            old(self).wf(),
            old(self).ledger().revision_counters.contains_key(table::k1(function@))
                ==> old(self).ledger().revision_counters[table::k1(function@)] < u64::MAX,
        ensures
            final(self).wf(),
            final(self).limits == old(self).limits,
            final(self).idempotency_retention == old(self).idempotency_retention,
            final(self).logs == old(self).logs,
            r == match parent(old(self).ledger().revision_counters, table::k1(function@)) {
                Some(n) => n + 1,
                None => 1,
            },
            final(self).ledger() == (Ledger {
                revision_counters: old(self).ledger().revision_counters.insert(
                    table::k1(function@),
                    r,
                ),
                ..old(self).ledger()
            }),
    {
        let key = Key::one(function);
        let next: u64 = match self.revision_counters.get(&key) {
            Some(n) => *n + 1,
            None => 1,
        };
        self.revision_counters.set(key, next);
        next
    }

    /// Add a revision. It carries the tenant of its function, and a number that no
    /// other revision of the function has.
    pub fn insert_revision(&mut self, revision: FunctionRevision) -> (r: Result<(), RepoError>)
        requires
            old(self).wf(),
        ensures
            final(self).wf(),
            final(self).limits == old(self).limits,
            final(self).idempotency_retention == old(self).idempotency_retention,
            final(self).logs == old(self).logs,
            crate::repository::agrees(r, revision_insert_rule(old(self).ledger(), revision)),
            final(self).ledger() == if r is Ok {
                Ledger { revisions: old(self).ledger().revisions.insert(
                    table::k1(revision.id@),
                    revision,
                ), ..old(self).ledger() }
            } else {
                old(self).ledger()
            },
    {
        let key = Key::one(revision.id.as_str());
        if self.revisions.contains(&key) {
            return Err(sqlite::duplicate("revision", revision.id.as_str()));
        }
        let function = self.functions.get(&Key::one(revision.function_id.as_str()));
        match guard::revision_insert(function, &revision) {
            Ok(_) => {},
            Err(e) => return Err(e),
        }
        let number: u64 = revision.number;
        let of = revision.function_id.as_str();
        let keep = |r: &FunctionRevision| -> (b: bool)
            ensures
                b == numbered(of@, number)(*r),
        {
            text::same_text(r.function_id.as_str(), of) && r.number == number
        };
        if listing::find(&self.revisions, keep, Ghost(numbered(of@, number))).is_some() {
            let mut m = text::owned("revision number ");
            text::push_u64(&mut m, revision.number);
            m.append(" already exists for function ");
            m.append(revision.function_id.as_str());
            return Err(RepoError::Conflict(m));
        }
        let ghost rows = self.revisions@;
        let ghost at = key@;
        self.revisions.set(key, revision);
        proof {
            assert forall|j: Seq<Seq<char>>, k: Seq<Seq<char>>|
                #![trigger self.revisions@[j], self.revisions@[k]]
                self.revisions@.contains_key(j) && self.revisions@.contains_key(k)
                    && self.revisions@[j].function_id@ == self.revisions@[k].function_id@
                    && self.revisions@[j].number == self.revisions@[k].number implies j == k by {
                if j != at && k != at {
                    assert(rows[j] == self.revisions@[j] && rows[k] == self.revisions@[k]);
                } else if j != at {
                    assert(!numbered(revision.function_id@, revision.number)(rows[j]));
                } else if k != at {
                    assert(!numbered(revision.function_id@, revision.number)(rows[k]));
                }
            }
        }
        Ok(())
    }

    /// The revision of an id.
    pub fn get_revision(&self, id: &str) -> (r: Option<&FunctionRevision>)
        requires
            self.wf(),
        ensures
            match r {
                Some(v) => self.ledger().revisions.contains_key(table::k1(id@)) && *v
                    == self.ledger().revisions[table::k1(id@)],
                None => !self.ledger().revisions.contains_key(table::k1(id@)),
            },
    {
        self.revisions.get(&Key::one(id))
    }

    /// The revisions of a function by their numbers.
    pub fn list_revisions(&self, function: &str) -> (r: Vec<&FunctionRevision>)
        requires
            self.wf(),
        ensures
            listing::lists(
                r@,
                self.ledger().revisions,
                of_function(function@),
                earlier_revision(),
            ),
    {
        let keep = |v: &FunctionRevision| -> (b: bool)
            ensures
                b == of_function(function@)(*v),
        {
            text::same_text(v.function_id.as_str(), function)
        };
        let before = |v: &FunctionRevision, w: &FunctionRevision| -> (b: bool)
            ensures
                b == earlier_revision()(*v, *w),
        {
            v.number < w.number || (v.number == w.number && text::text_before(
                v.id.as_str(),
                w.id.as_str(),
            ))
        };
        proof {
            lemma_earlier_revision(*self);
        }
        listing::pick(
            &self.revisions,
            keep,
            before,
            Ghost(of_function(function@)),
            Ghost(earlier_revision()),
        )
    }

    /// Rewrite a revision.
    pub fn update_revision(&mut self, revision: FunctionRevision) -> (r: Result<(), RepoError>)
        requires
            old(self).wf(),
        ensures
            final(self).wf(),
            final(self).limits == old(self).limits,
            final(self).idempotency_retention == old(self).idempotency_retention,
            final(self).logs == old(self).logs,
            crate::repository::agrees(
                r,
                write_rule(
                    old(self).ledger().revisions,
                    table::k1(revision.id@),
                    "revision"@,
                    revision.id@,
                    guard::revision_rule(
                        old(self).ledger().revisions[table::k1(revision.id@)],
                        revision,
                    ),
                ),
            ),
            final(self).ledger() == if r is Ok {
                Ledger { revisions: written(
                    old(self).ledger().revisions,
                    table::k1(revision.id@),
                    revision,
                    guard::revision_rule(
                        old(self).ledger().revisions[table::k1(revision.id@)],
                        revision,
                    ),
                ), ..old(self).ledger() }
            } else {
                old(self).ledger()
            },
    {
        let i: usize = match self.revisions.position(&Key::one(revision.id.as_str())) {
            Some(i) => i,
            None => return Err(sqlite::missing("revision", revision.id.as_str())),
        };
        let write = match guard::revision_update(&self.revisions.values[i], &revision) {
            Ok(w) => w,
            Err(e) => return Err(e),
        };
        if write == Write::Apply {
            let ghost rows = self.revisions@;
            self.revisions.replace_at(i, revision);
            proof {
                assert forall|j: Seq<Seq<char>>, k: Seq<Seq<char>>|
                    #![trigger self.revisions@[j], self.revisions@[k]]
                    self.revisions@.contains_key(j) && self.revisions@.contains_key(k)
                        && self.revisions@[j].function_id@ == self.revisions@[k].function_id@
                        && self.revisions@[j].number == self.revisions@[k].number implies j == k by {
                    assert(rows.contains_key(j) && rows.contains_key(k));
                    assert(rows[j].function_id@ == rows[k].function_id@);
                    assert(rows[j].number == rows[k].number);
                }
            }
        }
        Ok(())
    }
}

proof fn lemma_earlier_revision(s: InMemoryStore)
    requires
        s.wf(),
    ensures
        listing::orders(s.revisions@, earlier_revision()),
{
    assert forall|a: FunctionRevision, b: FunctionRevision, c: FunctionRevision| #[trigger]
        earlier_revision()(a, b) && #[trigger] earlier_revision()(b, c) implies earlier_revision()(a, c) by {
        text::lemma_text_order(a.id@, b.id@, c.id@);
    }
    assert forall|a: FunctionRevision| !#[trigger] earlier_revision()(a, a) by {
        text::lemma_text_order(a.id@, a.id@, a.id@);
    }
    assert forall|j: Seq<Seq<char>>, k: Seq<Seq<char>>|
        s.revisions@.contains_key(j) && s.revisions@.contains_key(k) && j != k implies earlier_revision()(
        #[trigger] s.revisions@[j],
        #[trigger] s.revisions@[k],
    ) || earlier_revision()(s.revisions@[k], s.revisions@[j]) by {
        text::lemma_text_order(s.revisions@[j].id@, s.revisions@[k].id@, s.revisions@[j].id@);
    }
}

// ---------------------------------------------------------------------------
// aliases
// ---------------------------------------------------------------------------
/// What the function and the revision of an alias say about it.
pub open spec fn target_rule(l: Ledger, alias: FunctionAlias) -> Result<(), RepoErrorView> {
    let function = parent(l.functions, table::k1(alias.function_id@));
    let revision = parent(l.revisions, table::k1(alias.revision_id@));
    guard::alias_target_rule(
        match function {
            Some(f) => Some(&f),
            None => None,
        },
        match revision {
            Some(r) => Some(&r),
            None => None,
        },
        alias,
    )
}

/// The key of an alias.
pub open spec fn alias_key(alias: FunctionAlias) -> Seq<Seq<char>> {
    table::k2(alias.function_id@, alias.name@)
}

/// Whether an alias may be added.
pub open spec fn alias_insert_rule(l: Ledger, alias: FunctionAlias) -> Result<(), RepoErrorView> {
    if l.aliases.contains_key(alias_key(alias)) {
        Err(RepoErrorView::Conflict("alias `"@ + alias.name@ + "` already exists"@))
    } else {
        target_rule(l, alias)
    }
}

/// What replacing an alias comes to: whether it was written.
pub open spec fn compare_and_set_rule(l: Ledger, alias: FunctionAlias, expected: u64) -> Result<
    bool,
    RepoErrorView,
> {
    if !l.aliases.contains_key(alias_key(alias)) {
        Err(RepoErrorView::NotFound("alias `"@ + alias.name@ + "`"@))
    } else if l.aliases[alias_key(alias)].generation != expected {
        Ok(false)
    } else {
        match guard::alias_rule(l.aliases[alias_key(alias)], alias) {
            Err(e) => Err(e),
            Ok(_) => match target_rule(l, alias) {
                Err(e) => Err(e),
                Ok(_) => Ok(true),
            },
        }
    }
}

impl InMemoryStore {
    /// The alias of a function that has the name.
    pub fn get_alias(&self, function: &str, name: &str) -> (r: Option<&FunctionAlias>)
        requires
            self.wf(),
        ensures
            match r {
                Some(v) => self.ledger().aliases.contains_key(table::k2(function@, name@)) && *v
                    == self.ledger().aliases[table::k2(function@, name@)],
                None => !self.ledger().aliases.contains_key(table::k2(function@, name@)),
            },
    {
        self.aliases.get(&Key::two(function, name))
    }

    /// The aliases of a function by their names.
    pub fn list_aliases(&self, function: &str) -> (r: Vec<&FunctionAlias>)
        requires
            self.wf(),
        ensures
            listing::lists(
                r@,
                self.ledger().aliases,
                alias_of(function@),
                alias_order(),
            ),
    {
        let keep = |v: &FunctionAlias| -> (b: bool)
            ensures
                b == alias_of(function@)(*v),
        {
            text::same_text(v.function_id.as_str(), function)
        };
        let before = |v: &FunctionAlias, w: &FunctionAlias| -> (b: bool)
            ensures
                b == alias_order()(*v, *w),
        {
            text::text_before(v.name.as_str(), w.name.as_str()) || (text::same_text(
                v.name.as_str(),
                w.name.as_str(),
            ) && text::text_before(v.function_id.as_str(), w.function_id.as_str()))
        };
        proof {
            lemma_alias_order(*self);
        }
        listing::pick(
            &self.aliases,
            keep,
            before,
            Ghost(alias_of(function@)),
            Ghost(alias_order()),
        )
    }

    /// Create an alias. The revision must exist and belong to the same function
    /// and tenant.
    pub fn insert_alias(&mut self, alias: FunctionAlias) -> (r: Result<(), RepoError>)
        requires
            old(self).wf(),
        ensures
            final(self).wf(),
            final(self).limits == old(self).limits,
            final(self).idempotency_retention == old(self).idempotency_retention,
            final(self).logs == old(self).logs,
            crate::repository::agrees(r, alias_insert_rule(old(self).ledger(), alias)),
            final(self).ledger() == if r is Ok {
                Ledger { aliases: old(self).ledger().aliases.insert(
                    alias_key(alias),
                    alias,
                ), ..old(self).ledger() }
            } else {
                old(self).ledger()
            },
    {
        let key = Key::two(alias.function_id.as_str(), alias.name.as_str());
        if self.aliases.contains(&key) {
            let mut m = text::owned("alias `");
            m.append(alias.name.as_str());
            m.append("` already exists");
            return Err(RepoError::Conflict(m));
        }
        let function = self.functions.get(&Key::one(alias.function_id.as_str()));
        let revision = self.revisions.get(&Key::one(alias.revision_id.as_str()));
        match guard::alias_target(function, revision, &alias) {
            Ok(_) => {},
            Err(e) => return Err(e),
        }
        self.aliases.set(key, alias);
        Ok(())
    }

    /// Replace the stored alias only if its generation is still `expected`.
    /// `Ok(false)` means that another writer got there first and nothing was
    /// written.
    pub fn compare_and_set(&mut self, alias: FunctionAlias, expected: u64) -> (r: Result<
        bool,
        RepoError,
    >)
        requires
            old(self).wf(),
        ensures
            final(self).wf(),
            final(self).limits == old(self).limits,
            final(self).idempotency_retention == old(self).idempotency_retention,
            final(self).logs == old(self).logs,
            crate::repository::agrees(r, compare_and_set_rule(old(self).ledger(), alias, expected)),
            final(self).ledger() == if compare_and_set_rule(old(self).ledger(), alias, expected)
                == Ok::<bool, RepoErrorView>(true) {
                Ledger {
                    aliases: old(self).ledger().aliases.insert(alias_key(alias), alias),
                    ..old(self).ledger()
                }
            } else {
                old(self).ledger()
            },
    {
        let key = Key::two(alias.function_id.as_str(), alias.name.as_str());
        let i: usize = match self.aliases.position(&key) {
            Some(i) => i,
            None => {
                let mut m = text::owned("alias `");
                m.append(alias.name.as_str());
                m.append("`");
                return Err(RepoError::NotFound(m));
            },
        };
        let current = &self.aliases.values[i];
        if current.generation != expected {
            return Ok(false);
        }
        match guard::alias_update(current, &alias) {
            Ok(_) => {},
            Err(e) => return Err(e),
        }
        let function = self.functions.get(&Key::one(alias.function_id.as_str()));
        let revision = self.revisions.get(&Key::one(alias.revision_id.as_str()));
        match guard::alias_target(function, revision, &alias) {
            Ok(_) => {},
            Err(e) => return Err(e),
        }
        self.aliases.replace_at(i, alias);
        Ok(true)
    }
}

proof fn lemma_alias_order(s: InMemoryStore)
    requires
        s.wf(),
    ensures
        listing::orders(s.aliases@, alias_order()),
{
    assert forall|a: FunctionAlias, b: FunctionAlias, c: FunctionAlias| #[trigger]
        alias_order()(a, b) && #[trigger] alias_order()(b, c) implies alias_order()(a, c) by {
        text::lemma_text_order(a.name@, b.name@, c.name@);
        text::lemma_text_order(a.function_id@, b.function_id@, c.function_id@);
    }
    assert forall|a: FunctionAlias| !#[trigger] alias_order()(a, a) by {
        text::lemma_text_order(a.name@, a.name@, a.name@);
        text::lemma_text_order(a.function_id@, a.function_id@, a.function_id@);
    }
    assert forall|j: Seq<Seq<char>>, k: Seq<Seq<char>>|
        s.aliases@.contains_key(j) && s.aliases@.contains_key(k) && j != k implies alias_order()(
        #[trigger] s.aliases@[j],
        #[trigger] s.aliases@[k],
    ) || alias_order()(s.aliases@[k], s.aliases@[j]) by {
        text::lemma_text_order(s.aliases@[j].name@, s.aliases@[k].name@, s.aliases@[j].name@);
        text::lemma_text_order(s.aliases@[j].function_id@, s.aliases@[k].function_id@, s.aliases@[j].function_id@);
    }
}

// ---------------------------------------------------------------------------
// invocations and attempts
// ---------------------------------------------------------------------------
/// Whether an invocation may be added.
pub open spec fn invocation_insert_rule(l: Ledger, limits: Limits, inv: Invocation) -> Result<
    (),
    RepoErrorView,
> {
    let function = parent(l.functions, table::k1(inv.function_id@));
    sqlite::insert_rule(
        l.work.invocations.contains_key(table::k1(inv.id@)),
        match function {
            Some(f) => Some(&f),
            None => None,
        },
        inv,
        limits.max_response_bytes,
    )
}

/// The key that an invocation's idempotency key is bound under.
pub open spec fn binding_key(inv: Invocation) -> Seq<Seq<char>> {
    table::k3(inv.tenant_id@, inv.function_id@, inv.idempotency_key->0@)
}

/// The bindings once `inv` was written: that of a terminal invocation gets
/// its expiry.
pub open spec fn expiring(
    bindings: Rows<IdempotencyBinding>,
    inv: Invocation,
    retention: Option<Span>,
) -> Rows<IdempotencyBinding> {
    if inv.status.terminal() && inv.idempotency_key is Some && bindings.contains_key(
        binding_key(inv),
    ) && bindings[binding_key(inv)].invocation_id@ == inv.id@ {
        bindings.insert(
            binding_key(inv),
            IdempotencyBinding {
                expires_at: sqlite::binding_expiry(inv, retention),
                ..bindings[binding_key(inv)]
            },
        )
    } else {
        bindings
    }
}

/// The rule of writing an invocation.
pub open spec fn invocation_write(l: Ledger, limits: Limits, inv: Invocation) -> Result<
    Write,
    RepoErrorView,
> {
    guard::invocation_rule(
        l.work.invocations[table::k1(inv.id@)],
        inv,
        limits.max_response_bytes,
    )
}

impl InMemoryStore {
    /// Add an invocation. It carries the tenant of its function, and a bounded
    /// output.
    pub fn insert_invocation(&mut self, invocation: Invocation) -> (r: Result<(), RepoError>)
        requires
            old(self).wf(),
        ensures
            final(self).wf(),
            final(self).limits == old(self).limits,
            final(self).idempotency_retention == old(self).idempotency_retention,
            final(self).logs == old(self).logs,
            crate::repository::agrees(r, invocation_insert_rule(old(self).ledger(), old(self).limits, invocation)),
            final(self).ledger() == if r is Ok {
                Ledger {
                work: WorkView { invocations: old(self).ledger().work.invocations.insert(
                    table::k1(invocation.id@),
                    invocation,
                ), ..old(self).ledger().work },
                ..old(self).ledger()
            }
            } else {
                old(self).ledger()
            },
    {
        let key = Key::one(invocation.id.as_str());
        let exists = self.work.invocations.contains(&key);
        let function = self.functions.get(&Key::one(invocation.function_id.as_str()));
        match sqlite::insert_invocation_checked(
            exists,
            function,
            &invocation,
            self.limits.max_response_bytes,
        ) {
            Ok(_) => {},
            Err(e) => return Err(e),
        }
        self.work.invocations.set(key, invocation);
        Ok(())
    }

    /// The invocation of an id.
    pub fn get_invocation(&self, id: &str) -> (r: Option<&Invocation>)
        requires
            self.wf(),
        ensures
            match r {
                Some(v) => self.ledger().work.invocations.contains_key(table::k1(id@)) && *v
                    == self.ledger().work.invocations[table::k1(id@)],
                None => !self.ledger().work.invocations.contains_key(table::k1(id@)),
            },
    {
        self.work.invocations.get(&Key::one(id))
    }

    /// Rewrite an invocation. A terminal one is final, unless the rewrite
    /// changes nothing. The binding of an invocation that ended gets its
    /// expiry.
    pub fn update_invocation(&mut self, invocation: Invocation) -> (r: Result<(), RepoError>)
        requires
            old(self).wf(),
            sqlite::retained(invocation, old(self).idempotency_retention),
        ensures
            final(self).wf(),
            final(self).limits == old(self).limits,
            final(self).idempotency_retention == old(self).idempotency_retention,
            final(self).logs == old(self).logs,
            crate::repository::agrees(
                r,
                write_rule(
                    old(self).ledger().work.invocations,
                    table::k1(invocation.id@),
                    "invocation"@,
                    invocation.id@,
                    invocation_write(old(self).ledger(), old(self).limits, invocation),
                ),
            ),
            final(self).ledger() == if r is Ok && invocation_write(
                old(self).ledger(),
                old(self).limits,
                invocation,
            ) == Ok::<Write, RepoErrorView>(Write::Apply) {
                Ledger {
                    work: WorkView {
                        invocations: old(self).ledger().work.invocations.insert(
                            table::k1(invocation.id@),
                            invocation,
                        ),
                        idempotency: expiring(
                            old(self).ledger().work.idempotency,
                            invocation,
                            old(self).idempotency_retention,
                        ),
                        ..old(self).ledger().work
                    },
                    ..old(self).ledger()
                }
            } else {
                old(self).ledger()
            },
    {
        let i: usize = match self.work.invocations.position(&Key::one(invocation.id.as_str())) {
            Some(i) => i,
            None => return Err(sqlite::missing("invocation", invocation.id.as_str())),
        };
        let write = match guard::invocation_update(
            &self.work.invocations.values[i],
            &invocation,
            self.limits.max_response_bytes,
        ) {
            Ok(w) => w,
            Err(e) => return Err(e),
        };
        if write == Write::Apply {
            if invocation.status.is_terminal() {
                if let Some(name) = &invocation.idempotency_key {
                    let key = Key::three(
                        invocation.tenant_id.as_str(),
                        invocation.function_id.as_str(),
                        name.as_str(),
                    );
                    if let Some(at) = self.work.idempotency.position(&key) {
                        let own = text::same_text(
                            self.work.idempotency.values[at].invocation_id.as_str(),
                            invocation.id.as_str(),
                        );
                        if own {
                            let mut b = self.work.idempotency.values[at].clone();
                            b.expires_at = sqlite::idempotency_expires_at(
                                &invocation,
                                self.idempotency_retention,
                            );
                            self.work.idempotency.replace_at(at, b);
                        }
                    }
                }
            }
            self.work.invocations.replace_at(i, invocation);
        }
        Ok(())
    }

    /// The invocations of a function, the newest first, at most `limit` of
    /// them.
    pub fn list_by_function(&self, function: &str, limit: usize) -> (r: Vec<&Invocation>)
        requires
            self.wf(),
        ensures
            exists|all: Seq<&Invocation>| #[trigger]
                listing::lists(
                    all,
                    self.ledger().work.invocations,
                    invocation_of(function@),
                    newer_invocation(),
                ) && r@ == if all.len() <= limit {
                    all
                } else {
                    all.take(limit as int)
                },
    {
        let keep = |v: &Invocation| -> (b: bool)
            ensures
                b == invocation_of(function@)(*v),
        {
            text::same_text(v.function_id.as_str(), function)
        };
        let before = |v: &Invocation, w: &Invocation| -> (b: bool)
            ensures
                b == newer_invocation()(*v, *w),
        {
            v.accepted_at > w.accepted_at || (v.accepted_at == w.accepted_at && text::text_before(
                w.id.as_str(),
                v.id.as_str(),
            ))
        };
        proof {
            lemma_newer_invocation(*self);
        }
        let mut list = listing::pick(
            &self.work.invocations,
            keep,
            before,
            Ghost(invocation_of(function@)),
            Ghost(newer_invocation()),
        );
        let ghost all = list@;
        list.truncate(limit);
        proof {
            assert(listing::lists(
                all,
                self.ledger().work.invocations,
                invocation_of(function@),
                newer_invocation(),
            ));
            if all.len() > limit {
                assert(list@ =~= all.take(limit as int));
            } else {
                assert(list@ =~= all);
            }
        }
        list
    }

    /// Add an attempt. It carries the tenant of its invocation.
    pub fn insert_attempt(&mut self, attempt: InvocationAttempt) -> (r: Result<(), RepoError>)
        requires
            old(self).wf(),
        ensures
            final(self).wf(),
            final(self).limits == old(self).limits,
            final(self).idempotency_retention == old(self).idempotency_retention,
            final(self).logs == old(self).logs,
            crate::repository::agrees(r, attempt_insert_rule(old(self).ledger(), attempt)),
            final(self).ledger() == if r is Ok {
                Ledger {
                work: WorkView { attempts: old(self).ledger().work.attempts.insert(
                    table::k1(attempt.id@),
                    attempt,
                ), ..old(self).ledger().work },
                ..old(self).ledger()
            }
            } else {
                old(self).ledger()
            },
    {
        let key = Key::one(attempt.id.as_str());
        if self.work.attempts.contains(&key) {
            return Err(sqlite::duplicate("attempt", attempt.id.as_str()));
        }
        let invocation = self.work.invocations.get(&Key::one(attempt.invocation_id.as_str()));
        match guard::attempt_insert(invocation, &attempt) {
            Ok(_) => {},
            Err(e) => return Err(e),
        }
        self.work.attempts.set(key, attempt);
        Ok(())
    }

    /// The attempt of an id.
    pub fn get_attempt(&self, id: &str) -> (r: Option<&InvocationAttempt>)
        requires
            self.wf(),
        ensures
            match r {
                Some(v) => self.ledger().work.attempts.contains_key(table::k1(id@)) && *v
                    == self.ledger().work.attempts[table::k1(id@)],
                None => !self.ledger().work.attempts.contains_key(table::k1(id@)),
            },
    {
        self.work.attempts.get(&Key::one(id))
    }

    /// Rewrite an attempt. A settled one is final.
    pub fn update_attempt(&mut self, attempt: InvocationAttempt) -> (r: Result<(), RepoError>)
        requires
            old(self).wf(),
        ensures
            final(self).wf(),
            final(self).limits == old(self).limits,
            final(self).idempotency_retention == old(self).idempotency_retention,
            final(self).logs == old(self).logs,
            crate::repository::agrees(
                r,
                write_rule(
                    old(self).ledger().work.attempts,
                    table::k1(attempt.id@),
                    "attempt"@,
                    attempt.id@,
                    guard::attempt_rule(
                        old(self).ledger().work.attempts[table::k1(attempt.id@)],
                        attempt,
                    ),
                ),
            ),
            final(self).ledger() == if r is Ok {
                Ledger {
                work: WorkView { attempts: written(
                    old(self).ledger().work.attempts,
                    table::k1(attempt.id@),
                    attempt,
                    guard::attempt_rule(
                        old(self).ledger().work.attempts[table::k1(attempt.id@)],
                        attempt,
                    ),
                ), ..old(self).ledger().work },
                ..old(self).ledger()
            }
            } else {
                old(self).ledger()
            },
    {
        let i: usize = match self.work.attempts.position(&Key::one(attempt.id.as_str())) {
            Some(i) => i,
            None => return Err(sqlite::missing("attempt", attempt.id.as_str())),
        };
        let write = match guard::attempt_update(&self.work.attempts.values[i], &attempt) {
            Ok(w) => w,
            Err(e) => return Err(e),
        };
        if write == Write::Apply {
            self.work.attempts.replace_at(i, attempt);
        }
        Ok(())
    }

    /// The attempts of an invocation by their numbers.
    pub fn attempts_of(&self, invocation: &str) -> (r: Vec<&InvocationAttempt>)
        requires
            self.wf(),
        ensures
            listing::lists(
                r@,
                self.ledger().work.attempts,
                attempt_of(invocation@),
                earlier_attempt(),
            ),
    {
        let keep = |v: &InvocationAttempt| -> (b: bool)
            ensures
                b == attempt_of(invocation@)(*v),
        {
            text::same_text(v.invocation_id.as_str(), invocation)
        };
        let before = |v: &InvocationAttempt, w: &InvocationAttempt| -> (b: bool)
            ensures
                b == earlier_attempt()(*v, *w),
        {
            v.number < w.number || (v.number == w.number && text::text_before(
                v.id.as_str(),
                w.id.as_str(),
            ))
        };
        proof {
            lemma_earlier_attempt(*self);
        }
        listing::pick(
            &self.work.attempts,
            keep,
            before,
            Ghost(attempt_of(invocation@)),
            Ghost(earlier_attempt()),
        )
    }
}

/// Whether an attempt may be added.
pub open spec fn attempt_insert_rule(l: Ledger, attempt: InvocationAttempt) -> Result<
    (),
    RepoErrorView,
> {
    if l.work.attempts.contains_key(table::k1(attempt.id@)) {
        Err(sqlite::duplicate_row("attempt"@, attempt.id@))
    } else {
        match parent(l.work.invocations, table::k1(attempt.invocation_id@)) {
            Some(i) => guard::tenant_rule(
                "attempt"@,
                attempt.id@,
                attempt.tenant_id@,
                i.tenant_id@,
            ),
            None => Ok(()),
        }
    }
}

proof fn lemma_newer_invocation(s: InMemoryStore)
    requires
        s.wf(),
    ensures
        listing::orders(s.work.invocations@, newer_invocation()),
{
    assert forall|a: Invocation, b: Invocation, c: Invocation| #[trigger]
        newer_invocation()(a, b) && #[trigger] newer_invocation()(b, c) implies newer_invocation()(a, c) by {
        text::lemma_text_order(c.id@, b.id@, a.id@);
    }
    assert forall|a: Invocation| !#[trigger] newer_invocation()(a, a) by {
        text::lemma_text_order(a.id@, a.id@, a.id@);
    }
    assert forall|j: Seq<Seq<char>>, k: Seq<Seq<char>>|
        s.work.invocations@.contains_key(j) && s.work.invocations@.contains_key(k) && j != k implies newer_invocation()(
        #[trigger] s.work.invocations@[j],
        #[trigger] s.work.invocations@[k],
    ) || newer_invocation()(s.work.invocations@[k], s.work.invocations@[j]) by {
        text::lemma_text_order(s.work.invocations@[k].id@, s.work.invocations@[j].id@, s.work.invocations@[k].id@);
    }
}

proof fn lemma_earlier_attempt(s: InMemoryStore)
    requires
        s.wf(),
    ensures
        listing::orders(s.work.attempts@, earlier_attempt()),
{
    assert forall|a: InvocationAttempt, b: InvocationAttempt, c: InvocationAttempt| #[trigger]
        earlier_attempt()(a, b) && #[trigger] earlier_attempt()(b, c) implies earlier_attempt()(a, c) by {
        text::lemma_text_order(a.id@, b.id@, c.id@);
    }
    assert forall|a: InvocationAttempt| !#[trigger] earlier_attempt()(a, a) by {
        text::lemma_text_order(a.id@, a.id@, a.id@);
    }
    assert forall|j: Seq<Seq<char>>, k: Seq<Seq<char>>|
        s.work.attempts@.contains_key(j) && s.work.attempts@.contains_key(k) && j != k implies earlier_attempt()(
        #[trigger] s.work.attempts@[j],
        #[trigger] s.work.attempts@[k],
    ) || earlier_attempt()(s.work.attempts@[k], s.work.attempts@[j]) by {
        text::lemma_text_order(s.work.attempts@[j].id@, s.work.attempts@[k].id@, s.work.attempts@[j].id@);
    }
}

// ---------------------------------------------------------------------------
// environments and leases
// ---------------------------------------------------------------------------
/// Whether an environment may be added.
pub open spec fn environment_insert_rule(l: Ledger, env: ExecutionEnvironment) -> Result<
    (),
    RepoErrorView,
> {
    let revision = parent(l.revisions, table::k1(env.revision_id@));
    if l.work.environments.contains_key(table::k1(env.id@)) {
        Err(sqlite::duplicate_row("environment"@, env.id@))
    } else {
        guard::environment_insert_rule(
            match revision {
                Some(r) => Some(&r),
                None => None,
            },
            env,
        )
    }
}

/// Whether a lease may be added.
pub open spec fn lease_insert_rule(l: Ledger, lease: ExecutionLease) -> Result<(), RepoErrorView> {
    if l.work.leases.contains_key(table::k1(lease.id@)) {
        Err(sqlite::duplicate_row("lease"@, lease.id@))
    } else {
        match parent(l.work.environments, table::k1(lease.environment_id@)) {
            Some(e) => guard::tenant_rule("lease"@, lease.id@, lease.tenant_id@, e.tenant_id@),
            None => Ok(()),
        }
    }
}

/// An environment that was handed out.
pub open spec fn handed_out(env: ExecutionEnvironment, now: Timestamp) -> ExecutionEnvironment {
    ExecutionEnvironment {
        state: EnvironmentState::Busy,
        epoch: (env.epoch + 1) as u64,
        updated_at: now,
        idle_since: None,
        ..env
    }
}

/// An environment that was put into the pool.
pub open spec fn pooled(env: ExecutionEnvironment, now: Timestamp) -> ExecutionEnvironment {
    ExecutionEnvironment {
        state: EnvironmentState::Idle,
        updated_at: now,
        idle_since: Some(now),
        ..env
    }
}

/// Putting a finished environment back into the pool is turned down: its row
/// moved on, a cap is reached, or the copy is not of a busy environment.
pub open spec fn not_pooled(
    environments: Rows<ExecutionEnvironment>,
    env: ExecutionEnvironment,
    limits: PoolLimits,
) -> bool {
    let key = table::k1(env.id@);
    ||| !environments.contains_key(key)
    ||| environments[key].epoch != env.epoch
    ||| !(environments[key].state is Busy)
    ||| listing::matching(environments, idle()).len() >= limits.max_total_idle
    ||| listing::matching(environments, idle_for(env.reuse_key)).len() >= limits.max_idle_per_key
    ||| !(env.state is Busy)
}

/// What putting a finished environment back into the pool comes to.
pub open spec fn release_rule(
    environments: Rows<ExecutionEnvironment>,
    env: ExecutionEnvironment,
    limits: PoolLimits,
    now: Timestamp,
) -> Result<Option<ExecutionEnvironment>, RepoErrorView> {
    if not_pooled(environments, env, limits) {
        Ok(None)
    } else {
        match guard::environment_rule(environments[table::k1(env.id@)], pooled(env, now)) {
            Err(e) => Err(e),
            Ok(_) => Ok(Some(pooled(env, now))),
        }
    }
}

impl InMemoryStore {
    /// Add an environment. It carries the tenant of its revision.
    pub fn insert_environment(&mut self, env: ExecutionEnvironment) -> (r: Result<(), RepoError>)
        requires
            old(self).wf(),
        ensures
            final(self).wf(),
            final(self).limits == old(self).limits,
            final(self).idempotency_retention == old(self).idempotency_retention,
            final(self).logs == old(self).logs,
            crate::repository::agrees(r, environment_insert_rule(old(self).ledger(), env)),
            final(self).ledger() == if r is Ok {
                Ledger {
                work: WorkView { environments: old(self).ledger().work.environments.insert(
                    table::k1(env.id@),
                    env,
                ), ..old(self).ledger().work },
                ..old(self).ledger()
            }
            } else {
                old(self).ledger()
            },
    {
        let key = Key::one(env.id.as_str());
        if self.work.environments.contains(&key) {
            return Err(sqlite::duplicate("environment", env.id.as_str()));
        }
        let revision = self.revisions.get(&Key::one(env.revision_id.as_str()));
        match guard::environment_insert(revision, &env) {
            Ok(_) => {},
            Err(e) => return Err(e),
        }
        self.work.environments.set(key, env);
        Ok(())
    }

    /// The environment of an id.
    pub fn get_environment(&self, id: &str) -> (r: Option<&ExecutionEnvironment>)
        requires
            self.wf(),
        ensures
            match r {
                Some(v) => self.ledger().work.environments.contains_key(table::k1(id@)) && *v
                    == self.ledger().work.environments[table::k1(id@)],
                None => !self.ledger().work.environments.contains_key(table::k1(id@)),
            },
    {
        self.work.environments.get(&Key::one(id))
    }

    /// Rewrite an environment. A terminal one is final, and a copy of another
    /// epoch is refused.
    pub fn update_environment(&mut self, env: ExecutionEnvironment) -> (r: Result<(), RepoError>)
        requires
            old(self).wf(),
        ensures
            final(self).wf(),
            final(self).limits == old(self).limits,
            final(self).idempotency_retention == old(self).idempotency_retention,
            final(self).logs == old(self).logs,
            crate::repository::agrees(
                r,
                write_rule(
                    old(self).ledger().work.environments,
                    table::k1(env.id@),
                    "environment"@,
                    env.id@,
                    guard::environment_rule(
                        old(self).ledger().work.environments[table::k1(env.id@)],
                        env,
                    ),
                ),
            ),
            final(self).ledger() == if r is Ok {
                Ledger {
                work: WorkView { environments: written(
                    old(self).ledger().work.environments,
                    table::k1(env.id@),
                    env,
                    guard::environment_rule(
                        old(self).ledger().work.environments[table::k1(env.id@)],
                        env,
                    ),
                ), ..old(self).ledger().work },
                ..old(self).ledger()
            }
            } else {
                old(self).ledger()
            },
    {
        let i: usize = match self.work.environments.position(&Key::one(env.id.as_str())) {
            Some(i) => i,
            None => return Err(sqlite::missing("environment", env.id.as_str())),
        };
        let write = match guard::environment_update(&self.work.environments.values[i], &env) {
            Ok(w) => w,
            Err(e) => return Err(e),
        };
        if write == Write::Apply {
            self.work.environments.replace_at(i, env);
        }
        Ok(())
    }

    /// The environments that are not terminal by their ids.
    pub fn list_active(&self) -> (r: Vec<&ExecutionEnvironment>)
        requires
            self.wf(),
        ensures
            listing::lists(
                r@,
                self.ledger().work.environments,
                active(),
                environment_order(),
            ),
    {
        let keep = |v: &ExecutionEnvironment| -> (b: bool)
            ensures
                b == active()(*v),
        {
            !v.state.is_terminal()
        };
        let before = |v: &ExecutionEnvironment, w: &ExecutionEnvironment| -> (b: bool)
            ensures
                b == environment_order()(*v, *w),
        {
            text::text_before(v.id.as_str(), w.id.as_str())
        };
        proof {
            lemma_environment_order(self.work);
        }
        listing::pick(
            &self.work.environments,
            keep,
            before,
            Ghost(active()),
            Ghost(environment_order()),
        )
    }

    /// The environments in the pool, the longest idle first.
    pub fn list_idle(&self) -> (r: Vec<&ExecutionEnvironment>)
        requires
            self.wf(),
        ensures
            listing::lists(
                r@,
                self.ledger().work.environments,
                idle(),
                longest_idle(),
            ),
    {
        let keep = |v: &ExecutionEnvironment| -> (b: bool)
            ensures
                b == idle()(*v),
        {
            matches!(v.state, EnvironmentState::Idle)
        };
        let before = |v: &ExecutionEnvironment, w: &ExecutionEnvironment| -> (b: bool)
            ensures
                b == longest_idle()(*v, *w),
        {
            match (v.idle_since, w.idle_since) {
                (None, Some(_)) => true,
                (Some(x), Some(y)) => x < y || (x == y && text::text_before(
                    v.id.as_str(),
                    w.id.as_str(),
                )),
                (None, None) => text::text_before(v.id.as_str(), w.id.as_str()),
                (Some(_), None) => false,
            }
        };
        proof {
            lemma_longest_idle(self.work);
        }
        listing::pick(
            &self.work.environments,
            keep,
            before,
            Ghost(idle()),
            Ghost(longest_idle()),
        )
    }

    /// Hand out the pooled environment with the lowest id whose reuse key
    /// equals `key` in every field, one epoch further on. `None` where no
    /// environment fits.
    pub fn claim_for_reuse(&mut self, key: &ReuseKey, now: Timestamp) -> (r: Option<
        ExecutionEnvironment,
    >)
        requires
            old(self).wf(),
            forall|k: Seq<Seq<char>>| #[trigger]
                old(self).ledger().work.environments.contains_key(k)
                    && old(self).ledger().work.environments[k].state is Idle
                    ==> old(self).ledger().work.environments[k].epoch < u64::MAX,
        ensures
            final(self).wf(),
            final(self).limits == old(self).limits,
            final(self).idempotency_retention == old(self).idempotency_retention,
            final(self).logs == old(self).logs,
            match r {
                None => {
                    &&& listing::none_of(old(self).ledger().work.environments, idle_for(*key))
                    &&& final(self).ledger() == old(self).ledger()
                },
                Some(env) => {
                    let rows = old(self).ledger().work.environments;
                    let at = table::k1(env.id@);
                    &&& listing::first_of(rows, idle_for(*key), at)
                    &&& env == handed_out(rows[at], now)
                    &&& final(self).ledger() == (Ledger {
                        work: WorkView {
                            environments: rows.insert(at, env),
                            ..old(self).ledger().work
                        },
                        ..old(self).ledger()
                    })
                },
            },
    {
        let keep = |e: &ExecutionEnvironment| -> (b: bool)
            ensures
                b == idle_for(*key)(*e),
        {
            matches!(e.state, EnvironmentState::Idle) && e.reuse_key.is_same(key)
        };
        match listing::find(&self.work.environments, keep, Ghost(idle_for(*key))) {
            None => None,
            Some(i) => {
                let mut env = self.work.environments.values[i].clone();
                proof {
                    let k = self.work.environments.order()[i as int];
                    assert(idle_for(*key)(self.work.environments@[k]));
                    assert(self.work.environments@.contains_key(k));
                }
                if !env.reassign(now) {
                    return None;
                }
                let out = env.clone();
                self.work.environments.replace_at(i, env);
                Some(out)
            },
        }
    }

    /// Put a finished environment back into the pool. `env` is the caller's
    /// copy of the busy row; it is turned down (`None`) when the stored row
    /// moved on since, and when a cap is reached.
    pub fn release_to_pool(
        &mut self,
        env: &ExecutionEnvironment,
        limits: PoolLimits,
        now: Timestamp,
    ) -> (r: Result<Option<ExecutionEnvironment>, RepoError>)
        requires
            old(self).wf(),
        ensures
            final(self).wf(),
            final(self).limits == old(self).limits,
            final(self).idempotency_retention == old(self).idempotency_retention,
            final(self).logs == old(self).logs,
            crate::repository::agrees(
                r,
                release_rule(old(self).ledger().work.environments, *env, limits, now),
            ),
            final(self).ledger() == if r is Ok && r->Ok_0 is Some {
                Ledger {
                    work: WorkView {
                        environments: old(self).ledger().work.environments.insert(
                            table::k1(env.id@),
                            pooled(*env, now),
                        ),
                        ..old(self).ledger().work
                    },
                    ..old(self).ledger()
                }
            } else {
                old(self).ledger()
            },
    {
        let i: usize = match self.work.environments.position(&Key::one(env.id.as_str())) {
            Some(i) => i,
            None => return Ok(None),
        };
        let current = &self.work.environments.values[i];
        if current.epoch != env.epoch || !matches!(current.state, EnvironmentState::Busy) {
            return Ok(None);
        }
        let is_idle = |e: &ExecutionEnvironment| -> (b: bool)
            ensures
                b == idle()(*e),
        {
            matches!(e.state, EnvironmentState::Idle)
        };
        let key = &env.reuse_key;
        let is_idle_for = |e: &ExecutionEnvironment| -> (b: bool)
            ensures
                b == idle_for(*key)(*e),
        {
            matches!(e.state, EnvironmentState::Idle) && e.reuse_key.is_same(key)
        };
        let total: usize = listing::count(&self.work.environments, is_idle, Ghost(idle()));
        let per_key: usize = listing::count(
            &self.work.environments,
            is_idle_for,
            Ghost(idle_for(*key)),
        );
        if total >= limits.max_total_idle || per_key >= limits.max_idle_per_key {
            return Ok(None);
        }
        let mut row = env.clone();
        if !row.mark_idle(now) {
            return Ok(None);
        }
        match guard::environment_update(current, &row) {
            Ok(_) => {},
            Err(e) => return Err(e),
        }
        let out = row.clone();
        self.work.environments.replace_at(i, row);
        Ok(Some(out))
    }

    /// Take an idle environment out of the pool for termination. False when
    /// it is not idle any more.
    pub fn take_idle_for_termination(&mut self, id: &str, now: Timestamp) -> (r: bool)
        requires
            old(self).wf(),
        ensures
            final(self).wf(),
            final(self).limits == old(self).limits,
            final(self).idempotency_retention == old(self).idempotency_retention,
            final(self).logs == old(self).logs,
            r == (old(self).ledger().work.environments.contains_key(table::k1(id@))
                && old(self).ledger().work.environments[table::k1(id@)].state is Idle),
            final(self).ledger() == if r {
                Ledger {
                    work: WorkView {
                        environments: old(self).ledger().work.environments.insert(
                            table::k1(id@),
                            ExecutionEnvironment {
                                state: EnvironmentState::Draining,
                                updated_at: now,
                                idle_since: None,
                                ..old(self).ledger().work.environments[table::k1(id@)]
                            },
                        ),
                        ..old(self).ledger().work
                    },
                    ..old(self).ledger()
                }
            } else {
                old(self).ledger()
            },
    {
        let i: usize = match self.work.environments.position(&Key::one(id)) {
            Some(i) => i,
            None => return false,
        };
        if !matches!(self.work.environments.values[i].state, EnvironmentState::Idle) {
            return false;
        }
        let mut env = self.work.environments.values[i].clone();
        let taken = env.mark_draining(now);
        self.work.environments.replace_at(i, env);
        taken
    }

    /// Add a lease. It carries the tenant of its environment.
    pub fn insert_lease(&mut self, lease: ExecutionLease) -> (r: Result<(), RepoError>)
        requires
            old(self).wf(),
        ensures
            final(self).wf(),
            final(self).limits == old(self).limits,
            final(self).idempotency_retention == old(self).idempotency_retention,
            final(self).logs == old(self).logs,
            crate::repository::agrees(r, lease_insert_rule(old(self).ledger(), lease)),
            final(self).ledger() == if r is Ok {
                Ledger {
                work: WorkView { leases: old(self).ledger().work.leases.insert(
                    table::k1(lease.id@),
                    lease,
                ), ..old(self).ledger().work },
                ..old(self).ledger()
            }
            } else {
                old(self).ledger()
            },
    {
        let key = Key::one(lease.id.as_str());
        if self.work.leases.contains(&key) {
            return Err(sqlite::duplicate("lease", lease.id.as_str()));
        }
        let env = self.work.environments.get(&Key::one(lease.environment_id.as_str()));
        match guard::lease_insert(env, &lease) {
            Ok(_) => {},
            Err(e) => return Err(e),
        }
        self.work.leases.set(key, lease);
        Ok(())
    }

    /// The lease of an id.
    pub fn get_lease(&self, id: &str) -> (r: Option<&ExecutionLease>)
        requires
            self.wf(),
        ensures
            match r {
                Some(v) => self.ledger().work.leases.contains_key(table::k1(id@)) && *v
                    == self.ledger().work.leases[table::k1(id@)],
                None => !self.ledger().work.leases.contains_key(table::k1(id@)),
            },
    {
        self.work.leases.get(&Key::one(id))
    }

    /// Rewrite a lease. A released one is final.
    pub fn update_lease(&mut self, lease: ExecutionLease) -> (r: Result<(), RepoError>)
        requires
            old(self).wf(),
        ensures
            final(self).wf(),
            final(self).limits == old(self).limits,
            final(self).idempotency_retention == old(self).idempotency_retention,
            final(self).logs == old(self).logs,
            crate::repository::agrees(
                r,
                write_rule(
                    old(self).ledger().work.leases,
                    table::k1(lease.id@),
                    "lease"@,
                    lease.id@,
                    guard::lease_rule(
                        old(self).ledger().work.leases[table::k1(lease.id@)],
                        lease,
                    ),
                ),
            ),
            final(self).ledger() == if r is Ok {
                Ledger {
                work: WorkView { leases: written(
                    old(self).ledger().work.leases,
                    table::k1(lease.id@),
                    lease,
                    guard::lease_rule(
                        old(self).ledger().work.leases[table::k1(lease.id@)],
                        lease,
                    ),
                ), ..old(self).ledger().work },
                ..old(self).ledger()
            }
            } else {
                old(self).ledger()
            },
    {
        let i: usize = match self.work.leases.position(&Key::one(lease.id.as_str())) {
            Some(i) => i,
            None => return Err(sqlite::missing("lease", lease.id.as_str())),
        };
        let write = match guard::lease_update(&self.work.leases.values[i], &lease) {
            Ok(w) => w,
            Err(e) => return Err(e),
        };
        if write == Write::Apply {
            self.work.leases.replace_at(i, lease);
        }
        Ok(())
    }
}

/// The ids order the environments.
pub proof fn lemma_environment_order(work: Work)
    requires
        work.wf(),
    ensures
        listing::orders(work.environments@, environment_order()),
{
    assert forall|a: ExecutionEnvironment, b: ExecutionEnvironment, c: ExecutionEnvironment| #[trigger]
        environment_order()(a, b) && #[trigger] environment_order()(b, c) implies environment_order()(a, c) by {
        text::lemma_text_order(a.id@, b.id@, c.id@);
    }
    assert forall|a: ExecutionEnvironment| !#[trigger] environment_order()(a, a) by {
        text::lemma_text_order(a.id@, a.id@, a.id@);
    }
    assert forall|j: Seq<Seq<char>>, k: Seq<Seq<char>>|
        work.environments@.contains_key(j) && work.environments@.contains_key(k) && j != k implies environment_order()(
        #[trigger] work.environments@[j],
        #[trigger] work.environments@[k],
    ) || environment_order()(work.environments@[k], work.environments@[j]) by {
        text::lemma_text_order(work.environments@[j].id@, work.environments@[k].id@, work.environments@[j].id@);
    }
}

/// Idle time, then the id, orders the environments.
pub proof fn lemma_longest_idle(work: Work)
    requires
        work.wf(),
    ensures
        listing::orders(work.environments@, longest_idle()),
{
    assert forall|a: ExecutionEnvironment, b: ExecutionEnvironment, c: ExecutionEnvironment| #[trigger]
        longest_idle()(a, b) && #[trigger] longest_idle()(b, c) implies longest_idle()(a, c) by {
        text::lemma_text_order(a.id@, b.id@, c.id@);
    }
    assert forall|a: ExecutionEnvironment| !#[trigger] longest_idle()(a, a) by {
        text::lemma_text_order(a.id@, a.id@, a.id@);
    }
    assert forall|j: Seq<Seq<char>>, k: Seq<Seq<char>>|
        work.environments@.contains_key(j) && work.environments@.contains_key(k) && j != k implies longest_idle()(
        #[trigger] work.environments@[j],
        #[trigger] work.environments@[k],
    ) || longest_idle()(work.environments@[k], work.environments@[j]) by {
        text::lemma_text_order(work.environments@[j].id@, work.environments@[k].id@, work.environments@[j].id@);
    }
}

// ---------------------------------------------------------------------------
// idempotency
// ---------------------------------------------------------------------------
/// The binding that answers for a key at `now`.
pub open spec fn looked_up(
    work: WorkView,
    tenant: Seq<char>,
    function: Seq<char>,
    key: Seq<char>,
    now: Timestamp,
) -> Option<IdempotencyBinding> {
    let binding = parent(work.idempotency, table::k3(tenant, function, key));
    sqlite::live_rule(
        binding,
        binding is Some && work.invocations.contains_key(table::k1(binding->0.invocation_id@)),
        now,
    )
}

/// The binding of an invocation.
pub open spec fn binding_of(inv: Invocation, retention: Option<Span>) -> IdempotencyBinding {
    IdempotencyBinding {
        invocation_id: inv.id,
        input_digest: inv.input_digest,
        expires_at: sqlite::binding_expiry(inv, retention),
    }
}

/// What inserting an invocation with its key comes to.
pub open spec fn insert_bound_rule(l: Ledger, limits: Limits, inv: Invocation) -> Result<
    IdempotencyOutcome,
    RepoErrorView,
> {
    let live = looked_up(
        l.work,
        inv.tenant_id@,
        inv.function_id@,
        inv.idempotency_key->0@,
        inv.accepted_at,
    );
    if inv.idempotency_key is Some && live is Some {
        Ok(IdempotencyOutcome::Existing(live->0))
    } else {
        match invocation_insert_rule(l, limits, inv) {
            Err(e) => Err(e),
            Ok(_) => Ok(IdempotencyOutcome::Inserted),
        }
    }
}

/// The ledger once an invocation was inserted with its key.
pub open spec fn bound_ledger(l: Ledger, inv: Invocation, retention: Option<Span>) -> Ledger {
    Ledger {
        work: WorkView {
            invocations: l.work.invocations.insert(table::k1(inv.id@), inv),
            idempotency: if inv.idempotency_key is Some {
                l.work.idempotency.insert(binding_key(inv), binding_of(inv, retention))
            } else {
                l.work.idempotency
            },
            ..l.work
        },
        ..l
    }
}

impl InMemoryStore {
    /// The invocation a key is bound to, if that invocation exists and the
    /// binding has not expired at `now`.
    pub fn lookup(&self, tenant: &str, function: &str, key: &str, now: Timestamp) -> (r: Option<
        IdempotencyBinding,
    >)
        requires
            self.wf(),
        ensures
            r == looked_up(self.ledger().work, tenant@, function@, key@, now),
    {
        match self.work.idempotency.get(&Key::three(tenant, function, key)) {
            Some(b) => {
                let exists = self.work.invocations.contains(&Key::one(b.invocation_id.as_str()));
                sqlite::live_binding(Some(b.clone()), exists, now)
            },
            None => None,
        }
    }

    /// Insert an invocation and bind its idempotency key in one step. When the
    /// key is already bound to an existing invocation, and the binding has
    /// not expired, nothing is written and that binding is returned instead.
    pub fn insert_bound(&mut self, invocation: Invocation) -> (r: Result<
        IdempotencyOutcome,
        RepoError,
    >)
        requires
            old(self).wf(),
            sqlite::retained(invocation, old(self).idempotency_retention),
        ensures
            final(self).wf(),
            final(self).limits == old(self).limits,
            final(self).idempotency_retention == old(self).idempotency_retention,
            final(self).logs == old(self).logs,
            crate::repository::agrees(
                r,
                insert_bound_rule(old(self).ledger(), old(self).limits, invocation),
            ),
            final(self).ledger() == if r is Ok && r->Ok_0 is Inserted {
                bound_ledger(old(self).ledger(), invocation, old(self).idempotency_retention)
            } else {
                old(self).ledger()
            },
    {
        if let Some(name) = &invocation.idempotency_key {
            if let Some(existing) = self.lookup(
                invocation.tenant_id.as_str(),
                invocation.function_id.as_str(),
                name.as_str(),
                invocation.accepted_at,
            ) {
                return Ok(IdempotencyOutcome::Existing(existing));
            }
        }
        let binding = IdempotencyBinding {
            invocation_id: invocation.id.clone(),
            input_digest: invocation.input_digest.clone(),
            expires_at: sqlite::idempotency_expires_at(&invocation, self.idempotency_retention),
        };
        let key = match &invocation.idempotency_key {
            Some(name) => Some(
                Key::three(
                    invocation.tenant_id.as_str(),
                    invocation.function_id.as_str(),
                    name.as_str(),
                ),
            ),
            None => None,
        };
        match self.insert_invocation(invocation) {
            Ok(_) => {},
            Err(e) => return Err(e),
        }
        if let Some(key) = key {
            self.work.idempotency.set(key, binding);
        }
        Ok(IdempotencyOutcome::Inserted)
    }

    /// Drop the bindings that expired at `now`. Returns how many.
    pub fn purge_expired_idempotency(&mut self, now: Timestamp) -> (r: usize)
        requires
            old(self).wf(),
        ensures
            final(self).wf(),
            final(self).limits == old(self).limits,
            final(self).idempotency_retention == old(self).idempotency_retention,
            final(self).logs == old(self).logs,
            final(self).ledger() == (Ledger {
                work: WorkView {
                    idempotency: listing::kept(
                        old(self).ledger().work.idempotency,
                        unexpired(now),
                    ),
                    ..old(self).ledger().work
                },
                ..old(self).ledger()
            }),
            r == old(self).ledger().work.idempotency.dom().len() - final(self).ledger().work.idempotency.dom().len(),
    {
        let keep = |b: &IdempotencyBinding| -> (kept: bool)
            ensures
                kept == unexpired(now)(*b),
        {
            match b.expires_at {
                Some(t) => t > now,
                None => true,
            }
        };
        listing::retain(&mut self.work.idempotency, keep, Ghost(unexpired(now)))
    }
}

// ---------------------------------------------------------------------------
// artifacts
// ---------------------------------------------------------------------------
impl InMemoryStore {
    /// Record that a tenant uploaded a digest.
    pub fn claim(&mut self, tenant: &str, digest: &str)
        requires
            old(self).wf(),
        ensures
            final(self).wf(),
            final(self).limits == old(self).limits,
            final(self).idempotency_retention == old(self).idempotency_retention,
            final(self).logs == old(self).logs,
            final(self).ledger() == (Ledger {
                artifact_owners: old(self).ledger().artifact_owners.insert(
                    table::k2(digest@, tenant@),
                ),
                ..old(self).ledger()
            }),
    {
        let ghost before = self.artifact_owners@;
        self.artifact_owners.set(Key::two(digest, tenant), ());
        proof {
            assert(self.artifact_owners@.dom() =~= before.dom().insert(table::k2(digest@, tenant@)));
        }
    }

    /// Whether a tenant uploaded a digest.
    pub fn is_owned_by(&self, tenant: &str, digest: &str) -> (r: bool)
        requires
            self.wf(),
        ensures
            r == self.ledger().artifact_owners.contains(table::k2(digest@, tenant@)),
    {
        self.artifact_owners.contains(&Key::two(digest, tenant))
    }
}

// ---------------------------------------------------------------------------
// objects
// ---------------------------------------------------------------------------
/// What attaching an object comes to.
pub open spec fn attach_object_rule(
    l: Ledger,
    object: ObjectRef,
    created_at_ms: u64,
    invocation: Seq<char>,
    now: Timestamp,
) -> Result<(), RepoErrorView> {
    let attachable = objects::attachable_rule(object.id@, created_at_ms, now);
    let stored = parent(l.work.invocations, table::k1(invocation));
    let tombstone = parent(l.tombstones, table::k1(object.id@));
    if attachable is Err {
        attachable
    } else {
        objects::attach_rule(
            object,
            invocation,
            match stored {
                Some(i) => Some(&i),
                None => None,
            },
            match tombstone {
                Some(t) => Some(t.reason.spec_name()),
                None => None,
            },
        )
    }
}

/// What a claim of an object for collection comes to.
pub open spec fn collection_rule(l: Ledger, object: Seq<char>, reason: CollectReason) -> CollectDecision {
    objects::collect_rule(
        l.tombstones.contains_key(table::k1(object)),
        listing::matching(
            l.object_refs,
            live_reference(object, l.work.invocations),
        ).len() as usize,
        listing::matching(l.object_refs, reference_to(object)).len() as usize,
        reason,
    )
}

impl InMemoryStore {
    /// Record that `invocation` uses `object`, created at `created_at_ms`.
    pub fn attach_object(
        &mut self,
        object: &ObjectRef,
        created_at_ms: u64,
        invocation: &str,
        now: Timestamp,
    ) -> (r: Result<(), RepoError>)
        requires
            old(self).wf(),
            time::in_calendar(now),
            time::in_reach(now, (-objects::TOMBSTONE_RETENTION) as Span),
        ensures
            final(self).wf(),
            final(self).limits == old(self).limits,
            final(self).idempotency_retention == old(self).idempotency_retention,
            final(self).logs == old(self).logs,
            crate::repository::agrees(
                r,
                attach_object_rule(
                    old(self).ledger(),
                    *object,
                    created_at_ms,
                    invocation@,
                    now,
                ),
            ),
            ({
                let key = table::k2(object.id@, invocation@);
                let rows = old(self).ledger().object_refs;
                &&& final(self).ledger() == (Ledger {
                    object_refs: final(self).ledger().object_refs,
                    ..old(self).ledger()
                })
                &&& if r is Err || rows.contains_key(key) {
                    final(self).ledger().object_refs == rows
                } else {
                    &&& final(self).ledger().object_refs == rows.insert(
                        key,
                        final(self).ledger().object_refs[key],
                    )
                    &&& final(self).ledger().object_refs[key].attached_at == now
                }
            }),
    {
        match objects::check_attachable(object.id.as_str(), created_at_ms, now) {
            Ok(_) => {},
            Err(e) => return Err(e),
        }
        let tombstone = match self.tombstones.get(&Key::one(object.id.as_str())) {
            Some(t) => Some(text::owned(t.reason.as_str())),
            None => None,
        };
        let stored = self.work.invocations.get(&Key::one(invocation));
        match objects::check_attach(object, invocation, stored, &tombstone) {
            Ok(_) => {},
            Err(e) => return Err(e),
        }
        let key = Key::two(object.id.as_str(), invocation);
        if !self.object_refs.contains(&key) {
            let row = ObjectReference {
                object_id: object.id.clone(),
                invocation_id: text::owned(invocation),
                attached_at: now,
            };
            self.object_refs.set(key, row);
        }
        Ok(())
    }

    /// The references to an object by their invocations.
    pub fn object_references(&self, object: &str) -> (r: Vec<&ObjectReference>)
        requires
            self.wf(),
        ensures
            listing::lists(
                r@,
                self.ledger().object_refs,
                reference_to(object@),
                reference_order(),
            ),
    {
        let keep = |v: &ObjectReference| -> (b: bool)
            ensures
                b == reference_to(object@)(*v),
        {
            text::same_text(v.object_id.as_str(), object)
        };
        let before = |v: &ObjectReference, w: &ObjectReference| -> (b: bool)
            ensures
                b == reference_order()(*v, *w),
        {
            text::text_before(v.invocation_id.as_str(), w.invocation_id.as_str())
                || (text::same_text(v.invocation_id.as_str(), w.invocation_id.as_str())
                && text::text_before(v.object_id.as_str(), w.object_id.as_str()))
        };
        proof {
            lemma_reference_order(*self);
        }
        listing::pick(
            &self.object_refs,
            keep,
            before,
            Ghost(reference_to(object@)),
            Ghost(reference_order()),
        )
    }

    /// Decide whether an object may be collected and, if so, mark it with a
    /// tombstone.
    pub fn claim_for_collection(
        &mut self,
        object: &ObjectRef,
        reason: CollectReason,
        now: Timestamp,
    ) -> (r: CollectDecision)
        requires
            old(self).wf(),
        ensures
            final(self).wf(),
            final(self).limits == old(self).limits,
            final(self).idempotency_retention == old(self).idempotency_retention,
            final(self).logs == old(self).logs,
            r == collection_rule(old(self).ledger(), object.id@, reason),
            final(self).ledger() == if r is Collect && !old(self).ledger().tombstones.contains_key(table::k1(object.id@)) {
                Ledger {
                    tombstones: old(self).ledger().tombstones.insert(
                        table::k1(object.id@),
                        Tombstone { reason, tombstoned_at: now },
                    ),
                    ..old(self).ledger()
                }
            } else {
                old(self).ledger()
            },
    {
        let key = Key::one(object.id.as_str());
        let tombstoned = self.tombstones.contains(&key);
        let id = object.id.as_str();
        let invocations = &self.work.invocations;
        let is_live = |r: &ObjectReference| -> (b: bool)
            requires
                invocations.wf(),
            ensures
                b == live_reference(id@, invocations@)(*r),
        {
            text::same_text(r.object_id.as_str(), id) && match invocations.get(
                &Key::one(r.invocation_id.as_str()),
            ) {
                Some(inv) => !inv.status.is_terminal(),
                None => true,
            }
        };
        let is_reference = |r: &ObjectReference| -> (b: bool)
            ensures
                b == reference_to(id@)(*r),
        {
            text::same_text(r.object_id.as_str(), id)
        };
        let live: usize = listing::count(
            &self.object_refs,
            is_live,
            Ghost(live_reference(id@, invocations@)),
        );
        let references: usize = listing::count(
            &self.object_refs,
            is_reference,
            Ghost(reference_to(id@)),
        );
        let decision = objects::claim_for_collection(tombstoned, live, references, reason);
        if decision == CollectDecision::Collect && !tombstoned {
            self.tombstones.set(key, Tombstone { reason, tombstoned_at: now });
        }
        decision
    }

    /// Drop every reference to a collected object. Its tombstone stays.
    pub fn forget_object(&mut self, object: &str)
        requires
            old(self).wf(),
        ensures
            final(self).wf(),
            final(self).limits == old(self).limits,
            final(self).idempotency_retention == old(self).idempotency_retention,
            final(self).logs == old(self).logs,
            final(self).ledger() == (Ledger {
                object_refs: listing::kept(
                    old(self).ledger().object_refs,
                    reference_to_another(object@),
                ),
                ..old(self).ledger()
            }),
    {
        let keep = |r: &ObjectReference| -> (b: bool)
            ensures
                b == reference_to_another(object@)(*r),
        {
            !text::same_text(r.object_id.as_str(), object)
        };
        let _dropped: usize = listing::retain(
            &mut self.object_refs,
            keep,
            Ghost(reference_to_another(object@)),
        );
    }

    /// Drop the tombstones older than `before`. Returns how many.
    pub fn purge_tombstones(&mut self, before: Timestamp) -> (r: usize)
        requires
            old(self).wf(),
        ensures
            final(self).wf(),
            final(self).limits == old(self).limits,
            final(self).idempotency_retention == old(self).idempotency_retention,
            final(self).logs == old(self).logs,
            final(self).ledger() == (Ledger {
                tombstones: listing::kept(
                    old(self).ledger().tombstones,
                    fresh_tombstone(before),
                ),
                ..old(self).ledger()
            }),
            r == old(self).ledger().tombstones.dom().len() - final(self).ledger().tombstones.dom().len(),
    {
        let keep = |t: &Tombstone| -> (b: bool)
            ensures
                b == fresh_tombstone(before)(*t),
        {
            t.tombstoned_at >= before
        };
        listing::retain(&mut self.tombstones, keep, Ghost(fresh_tombstone(before)))
    }
}

/// A reference to another object.
pub open spec fn reference_to_another(object: Seq<char>) -> spec_fn(ObjectReference) -> bool {
    |r: ObjectReference| r.object_id@ != object
}

proof fn lemma_reference_order(s: InMemoryStore)
    requires
        s.wf(),
    ensures
        listing::orders(s.object_refs@, reference_order()),
{
    assert forall|a: ObjectReference, b: ObjectReference, c: ObjectReference| #[trigger]
        reference_order()(a, b) && #[trigger] reference_order()(b, c) implies reference_order()(a, c) by {
        text::lemma_text_order(a.invocation_id@, b.invocation_id@, c.invocation_id@);
        text::lemma_text_order(a.object_id@, b.object_id@, c.object_id@);
    }
    assert forall|a: ObjectReference| !#[trigger] reference_order()(a, a) by {
        text::lemma_text_order(a.invocation_id@, a.invocation_id@, a.invocation_id@);
        text::lemma_text_order(a.object_id@, a.object_id@, a.object_id@);
    }
    assert forall|j: Seq<Seq<char>>, k: Seq<Seq<char>>|
        s.object_refs@.contains_key(j) && s.object_refs@.contains_key(k) && j != k implies reference_order()(
        #[trigger] s.object_refs@[j],
        #[trigger] s.object_refs@[k],
    ) || reference_order()(s.object_refs@[k], s.object_refs@[j]) by {
        text::lemma_text_order(
            s.object_refs@[j].invocation_id@,
            s.object_refs@[k].invocation_id@,
            s.object_refs@[j].invocation_id@,
        );
        text::lemma_text_order(
            s.object_refs@[j].object_id@,
            s.object_refs@[k].object_id@,
            s.object_refs@[j].object_id@,
        );
    }
}

// ---------------------------------------------------------------------------
// logs and restarts
// ---------------------------------------------------------------------------
impl InMemoryStore {
    /// Keep a log line, unless the lines of its invocation are at their
    /// limit.
    pub fn append(&mut self, record: LogRecord) -> (r: AppendOutcome)
        requires
            old(self).wf(),
        ensures
            final(self).wf(),
            final(self).ledger() == old(self).ledger(),
            final(self).limits == old(self).limits,
            final(self).idempotency_retention == old(self).idempotency_retention,
            ({
                let name = crate::repository::logs::bucket_name(
                    record@.invocation_id,
                    record@.environment_id,
                );
                let bucket = old(self).logs.bucket(name);
                &&& r == if crate::repository::logs::fits(bucket, old(self).limits, record) {
                    AppendOutcome::Stored
                } else {
                    AppendOutcome::Dropped
                }
                &&& final(self).logs.bucket(name) == crate::repository::logs::after(
                    bucket,
                    old(self).limits,
                    record,
                )
                &&& forall|other: Seq<char>|
                    other != name ==> #[trigger] final(self).logs.bucket(other) == old(self).logs.bucket(other)
            }),
    {
        let limits = self.limits;
        self.logs.append(&limits, record)
    }

    /// The log lines of an invocation.
    pub fn query(&self, invocation: &str) -> (r: LogQuery)
        requires
            self.wf(),
        ensures
            r.records@ == self.logs.bucket("inv:"@ + invocation@).records,
            r.dropped == self.logs.bucket("inv:"@ + invocation@).dropped,
    {
        self.logs.query(invocation)
    }

    /// Settle what the previous process left in flight.
    pub fn reconcile_after_restart(&mut self, now: Timestamp) -> (r: Settled)
        requires
            old(self).wf(),
        ensures
            final(self).wf(),
            final(self).limits == old(self).limits,
            final(self).idempotency_retention == old(self).idempotency_retention,
            final(self).logs == old(self).logs,
            reconcile::counts(old(self).ledger().work, r),
            final(self).ledger() == (Ledger { work: final(self).ledger().work, ..old(self).ledger() }),
            exists|cause: Cause| #[trigger]
                restart::is_restarted(cause) && reconcile::reconciled(
                    old(self).ledger().work,
                    final(self).ledger().work,
                    cause,
                    now,
                ),
    {
        self.work.reconcile_after_restart(now)
    }
}

} // verus!
