//! What the store of record promises, table by table.

use vstd::prelude::*;

use crate::domain::environment::{
    EnvironmentState, ExecutionEnvironment, ExecutionLease, ReuseKey,
};
use crate::domain::function::{Function, FunctionAlias, FunctionRevision};
use crate::domain::invocation::{Invocation, InvocationAttempt};
use crate::domain::log::LogRecord;
use crate::domain::Limits;
use crate::listing;
use crate::listing::Rows;
use crate::repository::dispatch::{DeadLetterReason, DeadLetterStatus};
use crate::repository::guard;
use crate::repository::guard::Write;
use crate::repository::guard_laws;
use crate::repository::logs;
use crate::repository::logs::Bucket;
use crate::repository::memory;
use crate::repository::memory::{Ledger, ObjectReference, Tombstone};
use crate::repository::objects::{CollectDecision, CollectReason};
use crate::repository::outbox::ObjectRef;
use crate::repository::reconcile;
use crate::repository::reconcile::WorkView;
use crate::repository::restart;
use crate::repository::restart::Cause;
use crate::repository::slot::DispatcherRecord;
use crate::repository::slot_laws;
use crate::repository::slots;
use crate::repository::sqlite;
use crate::repository::sqlite::Settled;
use crate::repository::{
    IdempotencyBinding, IdempotencyOutcome, PoolLimits, RepoError, RepoErrorView,
};
use crate::text;
use crate::time;
use crate::time::{Span, Timestamp};

verus! {

/// Which rows the listings of functions, revisions and aliases have, and in
/// which order: functions by age, revisions by number, aliases by name, each by
/// id where those are equal.
pub proof fn law_how_functions_are_listed(
    f: (Function, Function),
    r: (FunctionRevision, FunctionRevision),
    a: (FunctionAlias, FunctionAlias),
    id: Seq<char>,
    name: Seq<char>,
    number: u64,
)
    ensures
        memory::of_tenant(id)(f.0) <==> f.0.tenant_id@ == id,
        memory::live_named(id, name)(f.0) <==> f.0.tenant_id@ == id && f.0.name@ == name
            && f.0.deleted_at is None,
        memory::older_function()(f.0, f.1) <==> f.0.created_at < f.1.created_at || (f.0.created_at
            == f.1.created_at && text::text_lt(f.0.id@, f.1.id@)),
        memory::of_function(id)(r.0) <==> r.0.function_id@ == id,
        memory::numbered(id, number)(r.0) <==> r.0.function_id@ == id && r.0.number == number,
        memory::earlier_revision()(r.0, r.1) <==> r.0.number < r.1.number || (r.0.number
            == r.1.number && text::text_lt(r.0.id@, r.1.id@)),
        memory::alias_of(id)(a.0) <==> a.0.function_id@ == id,
        memory::alias_order()(a.0, a.1) <==> text::text_lt(a.0.name@, a.1.name@) || (a.0.name@
            == a.1.name@ && text::text_lt(a.0.function_id@, a.1.function_id@)),
{
}

/// One time is before another; none is before all.
pub open spec fn is_before(a: Option<Timestamp>, b: Option<Timestamp>) -> bool {
    b is Some && (a is None || a->0 < b->0)
}

/// Which rows the listings of invocations, attempts, environments and references
/// have, and in which order: invocations newest first, attempts by number, idle
/// environments longest idle first, each by id where those are equal.
pub proof fn law_how_work_is_listed(
    i: (Invocation, Invocation),
    a: (InvocationAttempt, InvocationAttempt),
    e: (ExecutionEnvironment, ExecutionEnvironment),
    r: (ObjectReference, ObjectReference),
    id: Seq<char>,
    key: ReuseKey,
)
    ensures
        memory::invocation_of(id)(i.0) <==> i.0.function_id@ == id,
        memory::newer_invocation()(i.0, i.1) <==> i.0.accepted_at > i.1.accepted_at || (
        i.0.accepted_at == i.1.accepted_at && text::text_lt(i.1.id@, i.0.id@)),
        memory::attempt_of(id)(a.0) <==> a.0.invocation_id@ == id,
        memory::earlier_attempt()(a.0, a.1) <==> a.0.number < a.1.number || (a.0.number
            == a.1.number && text::text_lt(a.0.id@, a.1.id@)),
        memory::active()(e.0) <==> !(e.0.state is Stopped) && !(e.0.state is Lost),
        memory::idle()(e.0) <==> e.0.state is Idle,
        memory::idle_for(key)(e.0) <==> e.0.state is Idle && guard_laws::same_key(
            e.0.reuse_key,
            key,
        ),
        memory::environment_order()(e.0, e.1) <==> text::text_lt(e.0.id@, e.1.id@),
        memory::longest_idle()(e.0, e.1) <==> is_before(e.0.idle_since, e.1.idle_since) || (
        e.0.idle_since == e.1.idle_since && text::text_lt(e.0.id@, e.1.id@)),
        memory::reference_to(id)(r.0) <==> r.0.object_id@ == id,
        memory::reference_to_another(id)(r.0) <==> r.0.object_id@ != id,
        memory::reference_order()(r.0, r.1) <==> text::text_lt(
            r.0.invocation_id@,
            r.1.invocation_id@,
        ) || (r.0.invocation_id@ == r.1.invocation_id@ && text::text_lt(
            r.0.object_id@,
            r.1.object_id@,
        )),
{
}

/// A name of a tenant is free: every function of the tenant under that name is
/// deleted.
pub open spec fn is_free(functions: Rows<Function>, tenant: Seq<char>, name: Seq<char>) -> bool {
    forall|k: Seq<Seq<char>>| #[trigger]
        functions.contains_key(k) && functions[k].tenant_id@ == tenant && functions[k].name@ == name
            ==> functions[k].deleted_at is Some
}

/// A function is inserted where its id is new and its name is free; a name is
/// taken where it is not free.
pub proof fn law_when_a_function_is_inserted(
    functions: Rows<Function>,
    f: Function,
    tenant: Seq<char>,
    name: Seq<char>,
)
    ensures
        memory::name_taken(functions, tenant, name) <==> !is_free(functions, tenant, name),
        memory::function_insert_rule(functions, f) is Ok <==> !functions.contains_key(seq![f.id@])
            && (f.deleted_at is Some || is_free(functions, f.tenant_id@, f.name@)),
        functions.contains_key(seq![f.id@]) ==> memory::function_insert_rule(functions, f) == Err::<
            (),
            RepoErrorView,
        >(RepoErrorView::Conflict("function"@ + " "@ + f.id@ + " already exists"@)),
        !functions.contains_key(seq![f.id@]) && memory::function_insert_rule(functions, f) is Err
            ==> memory::function_insert_rule(functions, f) == Err::<(), RepoErrorView>(
            RepoErrorView::Conflict("function name `"@ + f.name@ + "` already exists"@),
        ),
{
    lemma_free(functions, tenant, name);
    lemma_free(functions, f.tenant_id@, f.name@);
}

proof fn lemma_free(functions: Rows<Function>, tenant: Seq<char>, name: Seq<char>)
    ensures
        memory::name_taken(functions, tenant, name) <==> !is_free(functions, tenant, name),
{
    let p = memory::live_named(tenant, name);
    if is_free(functions, tenant, name) {
        assert forall|j: Seq<Seq<char>>| functions.contains_key(j) implies !p(
            #[trigger] functions[j],
        ) by {
            assert(functions.contains_key(j));
        }
    } else {
        let k = choose|k: Seq<Seq<char>>| #[trigger]
            functions.contains_key(k) && functions[k].tenant_id@ == tenant && functions[k].name@
                == name && functions[k].deleted_at is None;
        assert(p(functions[k]));
    }
}

/// What an update does in every table: it fails where the row is not there and
/// where the guard refuses it; else the row is replaced where the guard applies
/// it and stays where it is the same.
pub proof fn law_what_an_update_does<T>(
    rows: Rows<T>,
    key: Seq<Seq<char>>,
    row: T,
    kind: Seq<char>,
    id: Seq<char>,
    rule: Result<Write, RepoErrorView>,
)
    ensures
        memory::write_rule(rows, key, kind, id, rule) is Ok <==> rows.contains_key(key) && rule
            is Ok,
        !rows.contains_key(key) ==> memory::write_rule(rows, key, kind, id, rule) == Err::<
            (),
            RepoErrorView,
        >(RepoErrorView::NotFound(kind + " "@ + id)),
        rows.contains_key(key) && rule is Err ==> memory::write_rule(rows, key, kind, id, rule)
            == Err::<(), RepoErrorView>(rule->Err_0),
        memory::written(rows, key, row, rule) == if guard_laws::applies(rule) {
            rows.insert(key, row)
        } else {
            rows
        },
{
}

/// A revision is inserted where its id and its number are new and it is of its
/// function's tenant.
pub proof fn law_when_a_revision_is_inserted(l: Ledger, r: FunctionRevision)
    ensures
        memory::revision_insert_rule(l, r) is Ok <==> !l.revisions.contains_key(seq![r.id@]) && (
        l.functions.contains_key(seq![r.function_id@]) ==> l.functions[seq![
            r.function_id@,
        ]].tenant_id@ == r.tenant_id@) && (forall|k: Seq<Seq<char>>| #[trigger]
            l.revisions.contains_key(k) ==> l.revisions[k].function_id@ != r.function_id@
                || l.revisions[k].number != r.number),
{
    let p = memory::numbered(r.function_id@, r.number);
    if forall|k: Seq<Seq<char>>| #[trigger]
        l.revisions.contains_key(k) ==> l.revisions[k].function_id@ != r.function_id@
            || l.revisions[k].number != r.number {
        assert forall|j: Seq<Seq<char>>| l.revisions.contains_key(j) implies !p(
            #[trigger] l.revisions[j],
        ) by {
            assert(l.revisions.contains_key(j));
        }
    }
}

/// The alias may point where it does.
pub open spec fn points_well(l: Ledger, a: FunctionAlias) -> bool {
    let r = l.revisions[seq![a.revision_id@]];
    &&& l.functions.contains_key(seq![a.function_id@]) ==> l.functions[seq![
        a.function_id@,
    ]].tenant_id@ == a.tenant_id@
    &&& l.revisions.contains_key(seq![a.revision_id@])
    &&& r.function_id@ == a.function_id@
    &&& r.tenant_id@ == a.tenant_id@
}

/// An alias is inserted where its function has none of that name and it points
/// at a revision of that function. A compare-and-set moves it exactly where it
/// is at the expected generation, advances it, keeps its identity and points
/// well; at another generation nothing is moved and nothing fails.
pub proof fn law_when_an_alias_moves(l: Ledger, a: FunctionAlias, expected: u64)
    ensures
        memory::alias_insert_rule(l, a) is Ok <==> !l.aliases.contains_key(
            seq![a.function_id@, a.name@],
        ) && points_well(l, a),
        ({
            let key = seq![a.function_id@, a.name@];
            let old = l.aliases[key];
            let rule = memory::compare_and_set_rule(l, a, expected);
            &&& rule == Ok::<bool, RepoErrorView>(true) <==> l.aliases.contains_key(key)
                && old.generation == expected && old.function_id@ == a.function_id@
                && old.tenant_id@ == a.tenant_id@ && old.name@ == a.name@ && old.created_at
                == a.created_at && a.generation > expected && points_well(l, a)
            &&& rule == Ok::<bool, RepoErrorView>(false) <==> l.aliases.contains_key(key)
                && old.generation != expected
            &&& !l.aliases.contains_key(key) ==> rule == Err::<bool, RepoErrorView>(
                RepoErrorView::NotFound("alias `"@ + a.name@ + "`"@),
            )
        }),
{
}

/// An invocation, an attempt, an environment and a lease are inserted where
/// their id is new and they are of their parent's tenant; an invocation's output
/// fits, and an environment's key names its own tenant and revision.
pub proof fn law_when_work_is_inserted(
    l: Ledger,
    limits: Limits,
    i: Invocation,
    a: InvocationAttempt,
    e: ExecutionEnvironment,
    lease: ExecutionLease,
)
    ensures
        memory::invocation_insert_rule(l, limits, i) is Ok <==> !l.work.invocations.contains_key(
            seq![i.id@],
        ) && (l.functions.contains_key(seq![i.function_id@]) ==> l.functions[seq![
            i.function_id@,
        ]].tenant_id@ == i.tenant_id@) && guard::output_rule(i, limits.max_response_bytes) is Ok,
        memory::attempt_insert_rule(l, a) is Ok <==> !l.work.attempts.contains_key(seq![a.id@]) && (
        l.work.invocations.contains_key(seq![a.invocation_id@]) ==> l.work.invocations[seq![
            a.invocation_id@,
        ]].tenant_id@ == a.tenant_id@),
        memory::environment_insert_rule(l, e) is Ok <==> !l.work.environments.contains_key(
            seq![e.id@],
        ) && e.reuse_key.tenant_id@ == e.tenant_id@ && e.reuse_key.revision_id@ == e.revision_id@
            && (l.revisions.contains_key(seq![e.revision_id@]) ==> l.revisions[seq![
            e.revision_id@,
        ]].tenant_id@ == e.tenant_id@),
        memory::lease_insert_rule(l, lease) is Ok <==> !l.work.leases.contains_key(seq![lease.id@])
            && (l.work.environments.contains_key(seq![lease.environment_id@])
            ==> l.work.environments[seq![lease.environment_id@]].tenant_id@ == lease.tenant_id@),
        l.work.invocations.contains_key(seq![i.id@]) ==> memory::invocation_insert_rule(
            l,
            limits,
            i,
        ) == Err::<(), RepoErrorView>(
            RepoErrorView::Conflict("invocation"@ + " "@ + i.id@ + " already exists"@),
        ),
        memory::invocation_write(l, limits, i) == guard::invocation_rule(
            l.work.invocations[seq![i.id@]],
            i,
            limits.max_response_bytes,
        ),
{
}

/// The end of an invocation, or its acceptance where no end is recorded.
pub open spec fn end_of(i: Invocation) -> Timestamp {
    if i.finished_at is Some {
        i.finished_at->0
    } else {
        i.accepted_at
    }
}

/// Until when the key of an invocation is bound: without end while it is open or
/// keys are kept for good, else as long as keys are kept after its end.
pub open spec fn bound_until(i: Invocation, retention: Option<Span>) -> Option<Timestamp> {
    if slot_laws::is_open(i) || retention is None {
        None
    } else {
        Some(time::after(end_of(i), retention->0))
    }
}

/// A key answers with its binding while the bound invocation is there and the
/// binding has not ended.
pub proof fn law_when_a_key_answers(
    work: WorkView,
    tenant: Seq<char>,
    function: Seq<char>,
    key: Seq<char>,
    now: Timestamp,
)
    ensures
        memory::looked_up(work, tenant, function, key, now) == ({
            let at = seq![tenant, function, key];
            let b = work.idempotency[at];
            if work.idempotency.contains_key(at) && work.invocations.contains_key(
                seq![b.invocation_id@],
            ) && (b.expires_at is None || now < b.expires_at->0) {
                Some(b)
            } else {
                None
            }
        }),
        forall|b: IdempotencyBinding| #[trigger]
            memory::unexpired(now)(b) <==> b.expires_at is None || now < b.expires_at->0,
{
}

/// An invocation with a key that still answers is not inserted: the answer is
/// what the key is bound to. Else it is inserted as any other, and its key is
/// bound to it with the digest of its input.
pub proof fn law_when_a_bound_invocation_is_inserted(
    l: Ledger,
    limits: Limits,
    i: Invocation,
    retention: Option<Span>,
)
    ensures
        ({
            let live = memory::looked_up(
                l.work,
                i.tenant_id@,
                i.function_id@,
                i.idempotency_key->0@,
                i.accepted_at,
            );
            let rule = memory::insert_bound_rule(l, limits, i);
            let plain = memory::invocation_insert_rule(l, limits, i);
            if i.idempotency_key is Some && live is Some {
                rule == Ok::<IdempotencyOutcome, RepoErrorView>(
                    IdempotencyOutcome::Existing(live->0),
                )
            } else {
                &&& plain is Ok ==> rule == Ok::<IdempotencyOutcome, RepoErrorView>(
                    IdempotencyOutcome::Inserted,
                )
                &&& plain is Err ==> rule == Err::<IdempotencyOutcome, RepoErrorView>(plain->Err_0)
            }
        }),
        ({
            let after = memory::bound_ledger(l, i, retention);
            let at = seq![i.tenant_id@, i.function_id@, i.idempotency_key->0@];
            &&& after.work.invocations == l.work.invocations.insert(seq![i.id@], i)
            &&& i.idempotency_key is None ==> after.work.idempotency == l.work.idempotency
            &&& i.idempotency_key is Some ==> after.work.idempotency == l.work.idempotency.insert(
                at,
                after.work.idempotency[at],
            ) && after.work.idempotency[at].invocation_id@ == i.id@
                && after.work.idempotency[at].input_digest@ == i.input_digest@
                && after.work.idempotency[at].expires_at == bound_until(i, retention)
            &&& after == (Ledger {
                work: WorkView {
                    invocations: after.work.invocations,
                    idempotency: after.work.idempotency,
                    ..l.work
                },
                ..l
            })
        }),
{
}

/// Once an invocation ends, its own binding gets its end, and no other binding
/// changes.
pub proof fn law_a_binding_ends_with_its_invocation(
    bindings: Rows<IdempotencyBinding>,
    i: Invocation,
    retention: Option<Span>,
)
    ensures
        ({
            let at = seq![i.tenant_id@, i.function_id@, i.idempotency_key->0@];
            memory::expiring(bindings, i, retention) == if !slot_laws::is_open(i)
                && i.idempotency_key is Some && bindings.contains_key(at)
                && bindings[at].invocation_id@ == i.id@ {
                bindings.insert(
                    at,
                    IdempotencyBinding { expires_at: bound_until(i, retention), ..bindings[at] },
                )
            } else {
                bindings
            }
        }),
        sqlite::binding_expiry(i, retention) == bound_until(i, retention),
        sqlite::output_expiry(i, retention) == if i.output is Some && i.output->0 is Inline {
            bound_until(i, retention)
        } else {
            None
        },
{
}

/// What is handed out is busy at the next epoch. A busy environment goes back to
/// the pool where the copy is of the stored epoch, both are busy, and the pool
/// has room, in all and under its key.
pub proof fn law_how_the_pool_of_record_works(
    rows: Rows<ExecutionEnvironment>,
    env: ExecutionEnvironment,
    limits: PoolLimits,
    now: Timestamp,
)
    ensures
        memory::handed_out(env, now) == (ExecutionEnvironment {
            state: EnvironmentState::Busy,
            epoch: (env.epoch + 1) as u64,
            updated_at: now,
            idle_since: None,
            ..env
        }),
        ({
            let row = rows[seq![env.id@]];
            let idle = rows.dom().filter(|k: Seq<Seq<char>>| rows[k].state is Idle);
            let alike = rows.dom().filter(
                |k: Seq<Seq<char>>|
                    rows[k].state is Idle && guard_laws::same_key(
                        rows[k].reuse_key,
                        env.reuse_key,
                    ),
            );
            let fits = rows.contains_key(seq![env.id@]) && row.epoch == env.epoch && row.state
                is Busy && env.state is Busy && idle.len() < limits.max_total_idle && alike.len()
                < limits.max_idle_per_key;
            let rule = memory::release_rule(rows, env, limits, now);
            &&& !fits <==> rule == Ok::<Option<ExecutionEnvironment>, RepoErrorView>(None)
            &&& fits && guard::environment_rule(row, memory::pooled(env, now)) is Ok ==> rule == Ok::<
                Option<ExecutionEnvironment>,
                RepoErrorView,
            >(Some(memory::pooled(env, now)))
            &&& fits && guard::environment_rule(row, memory::pooled(env, now)) is Err ==> rule
                is Err
        }),
{
    assert(listing::matching(rows, memory::idle()) =~= rows.dom().filter(
        |k: Seq<Seq<char>>| rows[k].state is Idle,
    ));
    assert(listing::matching(rows, memory::idle_for(env.reuse_key)) =~= rows.dom().filter(
        |k: Seq<Seq<char>>|
            rows[k].state is Idle && guard_laws::same_key(rows[k].reuse_key, env.reuse_key),
    ));
}

/// An object is attached to a stored invocation of its own tenant, where it is
/// no older than thirty days and is not being collected.
pub proof fn law_when_an_object_is_attached(
    l: Ledger,
    object: ObjectRef,
    created_at_ms: u64,
    invocation: Seq<char>,
    now: Timestamp,
)
    ensures
        memory::attach_object_rule(l, object, created_at_ms, invocation, now) is Ok <==> (
        created_at_ms >= time::count(
            time::after(now, (-(30 * 86_400 * 1_000_000_000)) as Span),
        ) / 1_000_000) && l.work.invocations.contains_key(seq![invocation])
            && l.work.invocations[seq![invocation]].tenant_id@ == object.tenant_id@
            && !l.tombstones.contains_key(seq![object.id@]),
{
}

/// An object is collected where its collection has begun, or else no invocation
/// that has not ended refers to it and, for an orphan, none at all does.
pub proof fn law_when_an_object_is_collected(l: Ledger, object: Seq<char>, reason: CollectReason)
    requires
        l.object_refs.dom().finite(),
        l.object_refs.dom().len() <= usize::MAX,
    ensures
        ({
            let refs = l.object_refs.dom().filter(
                |k: Seq<Seq<char>>| l.object_refs[k].object_id@ == object,
            );
            let live = refs.filter(
                |k: Seq<Seq<char>>|
                    !l.work.invocations.contains_key(seq![l.object_refs[k].invocation_id@])
                        || slot_laws::is_open(
                        l.work.invocations[seq![l.object_refs[k].invocation_id@]],
                    ),
            );
            memory::collection_rule(l, object, reason) == if l.tombstones.contains_key(
                seq![object],
            ) {
                CollectDecision::Collect
            } else if live.len() > 0 {
                CollectDecision::InUse { invocations: live.len() as usize }
            } else if reason is Orphan && refs.len() > 0 {
                CollectDecision::Referenced
            } else {
                CollectDecision::Collect
            }
        }),
{
    let all = l.object_refs.dom();
    let refs = all.filter(|k: Seq<Seq<char>>| l.object_refs[k].object_id@ == object);
    let live = refs.filter(
        |k: Seq<Seq<char>>|
            !l.work.invocations.contains_key(seq![l.object_refs[k].invocation_id@])
                || slot_laws::is_open(
                l.work.invocations[seq![l.object_refs[k].invocation_id@]],
            ),
    );
    assert(listing::matching(l.object_refs, memory::reference_to(object)) =~= refs);
    assert(listing::matching(
        l.object_refs,
        memory::live_reference(object, l.work.invocations),
    ) =~= live);
    vstd::set_lib::lemma_len_subset(refs, all);
    vstd::set_lib::lemma_len_subset(live, all);
}

/// What a purge keeps: a tombstone that is not older than the limit, and a
/// binding that has not ended.
pub proof fn law_what_a_purge_keeps(
    tombstones: Rows<Tombstone>,
    bindings: Rows<IdempotencyBinding>,
    before: Timestamp,
    now: Timestamp,
    k: Seq<Seq<char>>,
)
    ensures
        ({
            let kept = listing::kept(tombstones, memory::fresh_tombstone(before));
            &&& kept.contains_key(k) <==> tombstones.contains_key(k) && tombstones[k].tombstoned_at
                >= before
            &&& kept.contains_key(k) ==> kept[k] == tombstones[k]
        }),
        ({
            let kept = listing::kept(bindings, memory::unexpired(now));
            &&& kept.contains_key(k) <==> bindings.contains_key(k) && (bindings[k].expires_at
                is None || now < bindings[k].expires_at->0)
            &&& kept.contains_key(k) ==> kept[k] == bindings[k]
        }),
{
}

/// A line goes to the bucket of its invocation, or of its environment where it
/// is of none. It is stored where the bucket has room for one more line and its
/// bytes; else the bucket says that lines were dropped.
pub proof fn law_where_a_line_of_record_goes(b: Bucket, limits: Limits, record: LogRecord)
    ensures
        logs::bucket_name(record@.invocation_id, record@.environment_id) == if record.invocation_id
            is Some {
            "inv:"@ + record.invocation_id->0@
        } else {
            "env:"@ + record.environment_id@
        },
        ({
            let size = vstd::utf8::encode_utf8(record.line@).len();
            let fits = b.records.len() + 1 <= limits.max_log_lines_per_invocation && b.bytes + size
                <= limits.max_log_bytes_per_invocation;
            let after = logs::after(b, limits, record);
            &&& logs::fits(b, limits, record) == fits
            &&& fits ==> after.records == b.records.push(record) && after.bytes == b.bytes + size
                && after.dropped == b.dropped
            &&& !fits ==> after.records == b.records && after.bytes == b.bytes && after.dropped
        }),
{
}

/// A restart settles what nobody drives: open invocations without a dispatcher
/// whose input is gone, dispatched attempts of invocations without a dispatcher,
/// and environments and leases without an owner. Bindings to invocations that
/// are not there are dropped.
pub proof fn law_what_a_restart_touches(
    old: WorkView,
    new: WorkView,
    cause: Cause,
    now: Timestamp,
    k: Seq<Seq<char>>,
)
    requires
        restart::is_restarted(cause),
        reconcile::reconciled(old, new, cause, now),
    ensures
        new.inputs == old.inputs,
        old.invocations.contains_key(k) ==> ({
            let i = old.invocations[k];
            if slot_laws::is_open(i) && i.dispatcher_id is None && !old.inputs.contains(
                seq![i.id@],
            ) {
                slot_laws::invocation_ended(i, new.invocations[k], true, now)
            } else {
                new.invocations[k] == i
            }
        }),
        old.attempts.contains_key(k) ==> ({
            let a = old.attempts[k];
            let at = seq![a.invocation_id@];
            let i = new.invocations[at];
            if a.status is Dispatched && new.invocations.contains_key(at) && i.dispatcher_id
                is None {
                slot_laws::attempt_ended(
                    a,
                    new.attempts[k],
                    i.status is OutcomeUnknown || i.status is Running,
                    true,
                    now,
                )
            } else {
                new.attempts[k] == a
            }
        }),
        old.environments.contains_key(k) ==> ({
            let e = old.environments[k];
            let f = new.environments[k];
            if slot_laws::is_up(e) && e.owner is None {
                &&& f == (ExecutionEnvironment {
                    state: f.state,
                    updated_at: now,
                    idle_since: None,
                    ..e
                })
                &&& f.state is Lost && f.state->reason@ == "gateway restarted"@
            } else {
                f == e
            }
        }),
        old.leases.contains_key(k) ==> new.leases[k] == if old.leases[k].released_at is None
            && old.leases[k].owner is None {
            ExecutionLease { released_at: Some(now), ..old.leases[k] }
        } else {
            old.leases[k]
        },
        new.idempotency.contains_key(k) <==> old.idempotency.contains_key(k)
            && old.invocations.contains_key(seq![old.idempotency[k].invocation_id@]),
        new.idempotency.contains_key(k) ==> new.idempotency[k] == old.idempotency[k],
{
}

/// A restart counts the rows that it changed, table by table, and the bindings
/// that it dropped.
pub proof fn law_a_restart_counts_what_it_changed(
    old: WorkView,
    new: WorkView,
    cause: Cause,
    now: Timestamp,
    s: Settled,
)
    requires
        restart::is_restarted(cause),
        reconcile::reconciled(old, new, cause, now),
        reconcile::counts(old, s),
    ensures
        s.invocations == slot_laws::changed(old.invocations, new.invocations).len(),
        s.attempts == slot_laws::changed(old.attempts, new.attempts).len(),
        s.environments == slot_laws::changed(old.environments, new.environments).len(),
        s.leases == slot_laws::changed(old.leases, new.leases).len(),
        s.idempotency_dropped == old.idempotency.dom().len() - new.idempotency.dom().len(),
        s.idempotency_purged == 0,
{
    assert(listing::matching(old.invocations, reconcile::orphaned(old.inputs))
        =~= slot_laws::changed(old.invocations, new.invocations)) by {
        assert forall|k: Seq<Seq<char>>| #[trigger] old.invocations.contains_key(k) implies (
        reconcile::orphaned(old.inputs)(old.invocations[k]) <==> new.invocations[k]
            != old.invocations[k]) by {
            law_what_a_restart_touches(old, new, cause, now, k);
        }
    }
    assert(listing::matching(old.attempts, reconcile::orphaned_attempt(old.invocations))
        =~= slot_laws::changed(old.attempts, new.attempts)) by {
        assert forall|k: Seq<Seq<char>>| #[trigger] old.attempts.contains_key(k) implies (
        reconcile::orphaned_attempt(old.invocations)(old.attempts[k]) <==> new.attempts[k]
            != old.attempts[k]) by {
            law_what_a_restart_touches(old, new, cause, now, k);
            law_what_a_restart_touches(
                old,
                new,
                cause,
                now,
                seq![old.attempts[k].invocation_id@],
            );
        }
    }
    assert(listing::matching(old.environments, reconcile::orphaned_environment())
        =~= slot_laws::changed(old.environments, new.environments)) by {
        assert forall|k: Seq<Seq<char>>| #[trigger] old.environments.contains_key(k) implies (
        reconcile::orphaned_environment()(old.environments[k]) <==> new.environments[k]
            != old.environments[k]) by {
            law_what_a_restart_touches(old, new, cause, now, k);
        }
    }
    assert(listing::matching(old.leases, reconcile::orphaned_lease()) =~= slot_laws::changed(
        old.leases,
        new.leases,
    )) by {
        assert forall|k: Seq<Seq<char>>| #[trigger] old.leases.contains_key(k) implies (
        reconcile::orphaned_lease()(old.leases[k]) <==> new.leases[k] != old.leases[k]) by {
            law_what_a_restart_touches(old, new, cause, now, k);
        }
    }
}

/// Dispatchers are listed by id.
pub proof fn law_how_dispatchers_are_listed(d: DispatcherRecord, e: DispatcherRecord)
    ensures
        slots::dispatcher_order()(d, e) <==> text::text_lt(d.id@, e.id@),
{
}

/// A row is found under its id alone.
pub proof fn law_a_row_is_found_by_its_id<V>(rows: Rows<V>, id: Seq<char>)
    ensures
        slots::row_of(rows, id) == if rows.contains_key(seq![id]) {
            Some(rows[seq![id]])
        } else {
            None
        },
{
}

/// How an error is shown: each kind with its own words.
pub proof fn law_how_an_error_is_shown(m: Seq<char>)
    ensures
        RepoErrorView::NotFound(m).message() == m + " not found"@,
        RepoErrorView::Conflict(m).message() == "conflict: "@ + m,
        RepoErrorView::Refused(m).message() == "refused: "@ + m,
        RepoErrorView::Io(m).message() == "io: "@ + m,
        RepoErrorView::Serialization(m).message() == "serialization: "@ + m,
        RepoErrorView::Store(m).message() == "store: "@ + m,
{
}

/// A result is the one wanted exactly where both are the same success, or both
/// are errors of one kind with the same words.
pub proof fn law_when_results_agree<T>(
    r: Result<T, RepoError>,
    want: Result<T, RepoErrorView>,
)
    requires
        crate::repository::agrees(r, want),
    ensures
        r is Ok <==> want is Ok,
        r is Ok ==> r->Ok_0 == want->Ok_0,
        r is Err ==> match (r->Err_0, want->Err_0) {
            (RepoError::NotFound(m), RepoErrorView::NotFound(n)) => m@ == n,
            (RepoError::Conflict(m), RepoErrorView::Conflict(n)) => m@ == n,
            (RepoError::Refused(m), RepoErrorView::Refused(n)) => m@ == n,
            (RepoError::Io(m), RepoErrorView::Io(n)) => m@ == n,
            (RepoError::Serialization(m), RepoErrorView::Serialization(n)) => m@ == n,
            (RepoError::Store(m), RepoErrorView::Store(n)) => m@ == n,
            _ => false,
        },
{
}

/// Why an object is collected and why and how far a dead letter came, by name.
pub proof fn law_how_reasons_are_named()
    ensures
        CollectReason::Expired.spec_name() == "expired"@,
        CollectReason::Orphan.spec_name() == "orphan"@,
        DeadLetterReason::NonRetryable.spec_name() == "non_retryable"@,
        DeadLetterReason::AttemptsExhausted.spec_name() == "attempts_exhausted"@,
        DeadLetterReason::Expired.spec_name() == "expired"@,
        DeadLetterReason::FunctionDeleted.spec_name() == "function_deleted"@,
        DeadLetterReason::RevisionUnavailable.spec_name() == "revision_unavailable"@,
        DeadLetterReason::Poison.spec_name() == "poison"@,
        DeadLetterStatus::Open.spec_name() == "open"@,
        DeadLetterStatus::Redriven.spec_name() == "redriven"@,
{
}

} // verus!
