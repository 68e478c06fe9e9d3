//! What a ledger promises over more than one call.

use vstd::prelude::*;

use crate::domain::environment::{EnvironmentState, ExecutionEnvironment, ReuseKey};
use crate::domain::function::FunctionAlias;
use crate::domain::invocation::Invocation;
use crate::listing;
use crate::listing::Rows;
use crate::repository::memory;
use crate::repository::memory::Ledger;
use crate::repository::objects::CollectReason;
use crate::repository::outbox::ObjectRef;
use crate::repository::sqlite;
use crate::repository::{PoolLimits, RepoErrorView};
use crate::table;
use crate::time;
use crate::time::{Span, Timestamp};

verus! {

/// An environment is handed out to one caller: once it was, no key finds it,
/// and its epoch is one further on.
pub proof fn law_an_environment_is_handed_out_once(
    rows: Rows<ExecutionEnvironment>,
    key: ReuseKey,
    other: ReuseKey,
    at: Seq<Seq<char>>,
    now: Timestamp,
)
    requires
        listing::first_of(rows, memory::idle_for(key), at),
        rows[at].epoch < u64::MAX,
    ensures
        ({
            let env = memory::handed_out(rows[at], now);
            let after = rows.insert(at, env);
            &&& env.epoch == rows[at].epoch + 1
            &&& env.state is Busy
            &&& !listing::first_of(after, memory::idle_for(other), at)
            &&& !memory::idle()(after[at])
        }),
{
    let after = rows.insert(at, memory::handed_out(rows[at], now));
    assert(!memory::idle_for(other)(after[at]));
}

/// Only an environment whose reuse key equals the asked one in every field is
/// handed out.
pub proof fn law_only_an_equal_key_is_reused(
    rows: Rows<ExecutionEnvironment>,
    key: ReuseKey,
    at: Seq<Seq<char>>,
)
    requires
        listing::first_of(rows, memory::idle_for(key), at),
    ensures
        rows[at].reuse_key.same(key),
        rows[at].state is Idle,
{
}

/// What is taken for termination is never handed out, and what was handed out
/// is never taken.
pub proof fn law_a_claim_and_a_termination_exclude_each_other(
    env: ExecutionEnvironment,
    key: ReuseKey,
    now: Timestamp,
)
    ensures
        !memory::idle_for(key)(
            ExecutionEnvironment {
                state: EnvironmentState::Draining,
                updated_at: now,
                idle_since: None,
                ..env
            },
        ),
        !(memory::handed_out(env, now).state is Idle),
{
}

/// A release never takes the pool over its caps.
pub proof fn law_the_pool_stays_within_its_caps(
    rows: Rows<ExecutionEnvironment>,
    env: ExecutionEnvironment,
    limits: PoolLimits,
    now: Timestamp,
)
    requires
        listing::matching(rows, memory::idle()).finite(),
        listing::matching(rows, memory::idle_for(env.reuse_key)).finite(),
        !memory::not_pooled(rows, env, limits),
    ensures
        ({
            let after = rows.insert(table::k1(env.id@), memory::pooled(env, now));
            &&& listing::matching(after, memory::idle()).len() <= limits.max_total_idle
            &&& listing::matching(after, memory::idle_for(env.reuse_key)).len()
                <= limits.max_idle_per_key
        }),
{
    let k = table::k1(env.id@);
    let row = memory::pooled(env, now);
    let after = rows.insert(k, row);
    lemma_one_more(rows, k, row, memory::idle());
    lemma_one_more(rows, k, row, memory::idle_for(env.reuse_key));
}

proof fn lemma_one_more(
    rows: Rows<ExecutionEnvironment>,
    k: Seq<Seq<char>>,
    row: ExecutionEnvironment,
    p: spec_fn(ExecutionEnvironment) -> bool,
)
    requires
        rows.contains_key(k),
        !p(rows[k]),
        p(row),
        listing::matching(rows, p).finite(),
    ensures
        listing::matching(rows.insert(k, row), p).len() == listing::matching(rows, p).len() + 1,
{
    let before = listing::matching(rows, p);
    let after = listing::matching(rows.insert(k, row), p);
    assert(after =~= before.insert(k));
    assert(!before.contains(k));
}

/// A key is bound together with its invocation: right after the insert the
/// key answers with that invocation, for as long as the binding has not
/// expired, and the invocation is in the ledger.
pub proof fn law_a_key_is_bound_with_its_invocation(
    l: Ledger,
    inv: Invocation,
    retention: Option<Span>,
    now: Timestamp,
)
    requires
        inv.idempotency_key is Some,
        sqlite::answers(memory::binding_of(inv, retention), now),
    ensures
        ({
            let after = memory::bound_ledger(l, inv, retention);
            &&& after.work.invocations.contains_key(table::k1(inv.id@))
            &&& memory::looked_up(
                after.work,
                inv.tenant_id@,
                inv.function_id@,
                inv.idempotency_key->0@,
                now,
            ) == Some(memory::binding_of(inv, retention))
        }),
{
}

/// A key never answers for an invocation that is not in the ledger.
pub proof fn law_a_key_never_answers_without_its_invocation(
    l: Ledger,
    tenant: Seq<char>,
    function: Seq<char>,
    key: Seq<char>,
    now: Timestamp,
)
    requires
        memory::looked_up(l.work, tenant, function, key, now) is Some,
    ensures
        l.work.invocations.contains_key(
            table::k1(memory::looked_up(l.work, tenant, function, key, now)->0.invocation_id@),
        ),
{
}

/// While an invocation is in flight its key does not expire; once it ended,
/// the key answers for the retention and no longer.
pub proof fn law_a_binding_expires_after_its_invocation(
    inv: Invocation,
    retention: Span,
    now: Timestamp,
)
    requires
        time::in_reach(sqlite::finished(inv), retention),
    ensures
        !inv.status.terminal() ==> sqlite::answers(memory::binding_of(inv, Some(retention)), now),
        inv.status.terminal() ==> (sqlite::answers(memory::binding_of(inv, Some(retention)), now)
            <==> now < time::after(sqlite::finished(inv), retention)),
        sqlite::answers(memory::binding_of(inv, None), now),
{
}

/// Binding a key of one tenant and function changes nothing for another key
/// whose invocation is in the ledger, or that is not bound.
pub proof fn law_keys_are_scoped(
    l: Ledger,
    inv: Invocation,
    retention: Option<Span>,
    tenant: Seq<char>,
    function: Seq<char>,
    key: Seq<char>,
    now: Timestamp,
)
    requires
        inv.idempotency_key is Some,
        tenant != inv.tenant_id@ || function != inv.function_id@ || key != inv.idempotency_key->0@,
        l.work.idempotency.contains_key(table::k3(tenant, function, key)) ==> memory::parent(
            l.work.invocations,
            table::k1(l.work.idempotency[table::k3(tenant, function, key)].invocation_id@),
        ) is Some,
    ensures
        memory::looked_up(
            memory::bound_ledger(l, inv, retention).work,
            tenant,
            function,
            key,
            now,
        ) == memory::looked_up(l.work, tenant, function, key, now),
{
    table::lemma_k3(
        tenant,
        function,
        key,
        inv.tenant_id@,
        inv.function_id@,
        inv.idempotency_key->0@,
    );
}

/// Ownership of an artifact is per tenant: a claim of one tenant says nothing
/// about another.
pub proof fn law_ownership_is_per_tenant(
    owners: Set<Seq<Seq<char>>>,
    digest: Seq<char>,
    a: Seq<char>,
    b: Seq<char>,
)
    requires
        a != b,
    ensures
        owners.insert(table::k2(digest, a)).contains(table::k2(digest, a)),
        owners.insert(table::k2(digest, a)).contains(table::k2(digest, b)) == owners.contains(
            table::k2(digest, b),
        ),
{
    table::lemma_k2(digest, a, digest, b);
}

/// An object that a non-terminal invocation references is never collected,
/// and once it is collected it is never attached again.
pub proof fn law_a_referenced_object_is_never_collected(
    l: Ledger,
    object: ObjectRef,
    reference: Seq<Seq<char>>,
    reason: CollectReason,
)
    requires
        !l.tombstones.contains_key(table::k1(object.id@)),
        l.object_refs.contains_key(reference),
        memory::live_reference(object.id@, l.work.invocations)(l.object_refs[reference]),
        listing::matching(
            l.object_refs,
            memory::live_reference(object.id@, l.work.invocations),
        ).finite(),
        listing::matching(
            l.object_refs,
            memory::live_reference(object.id@, l.work.invocations),
        ).len() <= usize::MAX,
    ensures
        memory::collection_rule(l, object.id@, reason) is InUse,
{
    let live = listing::matching(
        l.object_refs,
        memory::live_reference(object.id@, l.work.invocations),
    );
    assert(live.contains(reference));
    if live.len() == 0 {
        live.lemma_len0_is_empty();
    }
}

/// An object that was claimed for collection is never attached again, for as
/// long as its tombstone is kept.
pub proof fn law_a_collected_object_is_never_attached(
    l: Ledger,
    object: ObjectRef,
    created_at_ms: u64,
    invocation: Seq<char>,
    now: Timestamp,
)
    requires
        l.tombstones.contains_key(table::k1(object.id@)),
    ensures
        memory::attach_object_rule(l, object, created_at_ms, invocation, now) is Err,
{
}

/// Of two writers that read the same generation of an alias one wins: its
/// generation advances, and the other one writes nothing.
pub proof fn law_an_alias_has_one_writer_per_generation(
    l: Ledger,
    alias: FunctionAlias,
    other: FunctionAlias,
    expected: u64,
)
    requires
        memory::compare_and_set_rule(l, alias, expected) == Ok::<bool, RepoErrorView>(true),
        memory::alias_key(other) == memory::alias_key(alias),
    ensures
        l.aliases[memory::alias_key(alias)].generation == expected,
        alias.generation > expected,
        memory::compare_and_set_rule(
            Ledger { aliases: l.aliases.insert(memory::alias_key(alias), alias), ..l },
            other,
            expected,
        ) == Ok::<bool, RepoErrorView>(false),
{
}

} // verus!
