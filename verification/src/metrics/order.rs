//! Every family is announced once: the samples of an exposition come family
//! by family.

use vstd::prelude::*;

use crate::metrics::caps;
use crate::metrics::caps::{RevisionRowView, TenantRowView};
use crate::metrics::catalog;
use crate::metrics::exposition::ItemView;
use crate::metrics::input::{
    AdmissionMetrics, EnvironmentUsage, MetricsInput, OutboxMetrics, TriggerMetricsSnapshot,
    UsageMetrics,
};
use crate::metrics::dispatch::{AsyncDispatchSnapshot, QUEUE_OPERATIONS};
use crate::metrics::render;
use crate::metrics::render::{RevisionField, StatField, TenantField, SCALE_KINDS, START_KINDS};
use crate::metrics::tally::{Entry, Tally};
use crate::metrics::{Histogram, MetricsSnapshot, PHASES};
use crate::table::Table;

verus! {

/// Place of a family in the exposition: that of the catalog, but for the
/// triggers, which come before the outbox.
pub open spec fn place(family: usize) -> int {
    if 62 <= family <= 65 {
        family + 4
    } else if 66 <= family <= 69 {
        family - 4
    } else {
        family as int
    }
}

/// The samples' families do not go back, and lie between two places.
pub open spec fn in_order(items: Seq<ItemView>, lo: int, hi: int) -> bool {
    &&& forall|i: int| 0 <= i < items.len() ==> lo <= place(#[trigger] items[i].family) <= hi
    &&& forall|i: int, j: int|
        0 <= i < j < items.len() ==> place(#[trigger] items[i].family) <= place(
            #[trigger] items[j].family,
        )
}

pub(crate) proof fn lemma_join(a: Seq<ItemView>, b: Seq<ItemView>, lo: int, mid: int, next: int, hi: int)
    requires
        in_order(a, lo, mid),
        in_order(b, next, hi),
        lo <= mid <= next <= hi,
    ensures
        in_order(a + b, lo, hi),
{
    let c = a + b;
    assert forall|i: int| 0 <= i < c.len() implies lo <= place(#[trigger] c[i].family) <= hi by {
        if i < a.len() {
            assert(c[i] == a[i]);
        } else {
            assert(c[i] == b[i - a.len()]);
        }
    }
    assert forall|i: int, j: int| 0 <= i < j < c.len() implies place(#[trigger] c[i].family)
        <= place(#[trigger] c[j].family) by {
        if j < a.len() {
            assert(c[i] == a[i] && c[j] == a[j]);
        } else if i < a.len() {
            assert(c[i] == a[i] && c[j] == b[j - a.len()]);
            assert(place(a[i].family) <= mid);
            assert(place(b[j - a.len()].family) >= next);
        } else {
            assert(c[i] == b[i - a.len()] && c[j] == b[j - a.len()]);
        }
    }
}

pub(crate) proof fn lemma_flat<T>(list: Seq<T>, f: spec_fn(T) -> Seq<ItemView>, at: int)
    requires
        forall|x: T| in_order(#[trigger] f(x), at, at),
    ensures
        in_order(render::flat(list, f), at, at),
    decreases list.len(),
{
    if list.len() > 0 {
        lemma_flat(list.drop_last(), f, at);
        assert(in_order(f(list.last()), at, at));
        lemma_join(render::flat(list.drop_last(), f), f(list.last()), at, at, at, at);
    }
}

pub(crate) proof fn lemma_kind(
    family: usize,
    k: Seq<char>,
    k2: Seq<char>,
    kind: Seq<char>,
    rows: Seq<Entry>,
)
    ensures
        in_order(
            render::kind_rows(family, k, k2, kind, rows),
            place(family),
            place(family),
        ),
    decreases rows.len(),
{
    if rows.len() > 0 {
        lemma_kind(family, k, k2, kind, rows.drop_last());
        let rest = render::kind_rows(family, k, k2, kind, rows.drop_last());
        let all = render::kind_rows(family, k, k2, kind, rows);
        if rows.last().first@ == kind {
            assert(all =~= rest + seq![all.last()]);
            assert(in_order(seq![all.last()], place(family), place(family)));
            lemma_join(
                rest,
                seq![all.last()],
                place(family),
                place(family),
                place(family),
                place(family),
            );
        }
    }
}

pub(crate) proof fn lemma_by_kind(
    family: usize,
    k: Seq<char>,
    k2: Seq<char>,
    none: Seq<char>,
    kinds: Seq<&'static str>,
    counts: &Tally,
)
    ensures
        in_order(
            render::by_kind(family, k, k2, none, kinds, counts),
            place(family),
            place(family),
        ),
{
    let f = |kind: &'static str| render::kind_items(family, k, k2, none, kind@, counts);
    assert forall|kind: &'static str| in_order(#[trigger] f(kind), place(family), place(family)) by {
        lemma_kind(family, k, k2, kind@, counts.rows.values@);
    }
    lemma_flat(kinds, f, place(family));
}

pub(crate) proof fn lemma_revisions(rows: Seq<RevisionRowView>)
    ensures
        in_order(render::revisions(rows), 16, 21),
{
    let f = |r: RevisionRowView| render::revision_states(r);
    lemma_flat(rows, f, 16);
    let a = render::flat(rows, f);
    let b = render::revision_family(
        catalog::REVISION_DESIRED_ENVIRONMENTS,
        RevisionField::Desired,
        rows,
    );
    let c = render::revision_family(
        catalog::REVISION_MAX_ENVIRONMENTS,
        RevisionField::MaxEnvironments,
        rows,
    );
    let d = render::revision_family(catalog::REVISION_MIN_READY, RevisionField::MinReady, rows);
    let e = render::revision_family(catalog::REVISION_QUEUE_LENGTH, RevisionField::Queued, rows);
    let g = render::revision_family(
        catalog::REVISION_CIRCUIT_BREAKER_STATE,
        RevisionField::Breaker,
        rows,
    );
    assert(in_order(b, 17, 17));
    assert(in_order(c, 18, 18));
    assert(in_order(d, 19, 19));
    assert(in_order(e, 20, 20));
    assert(in_order(g, 21, 21));
    lemma_join(a, b, 16, 16, 17, 17);
    lemma_join(a + b, c, 16, 17, 18, 18);
    lemma_join(a + b + c, d, 16, 18, 19, 19);
    lemma_join(a + b + c + d, e, 16, 19, 20, 20);
    lemma_join(a + b + c + d + e, g, 16, 20, 21, 21);
}

pub(crate) proof fn lemma_tenant_family(family: usize, field: TenantField, rows: Seq<TenantRowView>)
    ensures
        in_order(render::tenant_family(family, field, rows), place(family), place(family)),
{
    lemma_flat(
        rows,
        |t: TenantRowView| render::tenant_item(family, field, t),
        place(family),
    );
}

pub(crate) proof fn lemma_tenants(rows: Seq<TenantRowView>)
    ensures
        in_order(render::tenants(rows), 27, 31),
{
    lemma_tenant_family(catalog::TENANT_QUEUE_LENGTH, TenantField::Queued, rows);
    lemma_tenant_family(catalog::TENANT_QUEUE_OLDEST_AGE_SECONDS, TenantField::OldestWait, rows);
    lemma_tenant_family(catalog::TENANT_IN_FLIGHT, TenantField::InFlight, rows);
    lemma_tenant_family(catalog::TENANT_MAX_CONCURRENCY, TenantField::MaxConcurrency, rows);
    lemma_tenant_family(catalog::TENANT_GRANTS_TOTAL, TenantField::Grants, rows);
    let a = render::tenant_family(catalog::TENANT_QUEUE_LENGTH, TenantField::Queued, rows);
    let b = render::tenant_family(
        catalog::TENANT_QUEUE_OLDEST_AGE_SECONDS,
        TenantField::OldestWait,
        rows,
    );
    let c = render::tenant_family(catalog::TENANT_IN_FLIGHT, TenantField::InFlight, rows);
    let d = render::tenant_family(
        catalog::TENANT_MAX_CONCURRENCY,
        TenantField::MaxConcurrency,
        rows,
    );
    let e = render::tenant_family(catalog::TENANT_GRANTS_TOTAL, TenantField::Grants, rows);
    lemma_join(a, b, 27, 27, 28, 28);
    lemma_join(a + b, c, 27, 28, 29, 29);
    lemma_join(a + b + c, d, 27, 29, 30, 30);
    lemma_join(a + b + c + d, e, 27, 30, 31, 31);
}

pub(crate) proof fn lemma_phase(phases: Table<Histogram>, phase: Seq<char>, n: nat)
    ensures
        in_order(render::phase_histograms(phases, phase, n), 43, 43),
    decreases n,
{
    if n > 0 {
        lemma_phase(phases, phase, (n - 1) as nat);
        let rest = render::phase_histograms(phases, phase, (n - 1) as nat);
        let key = phases.order()[n - 1];
        if key[0] == phase {
            let h = render::histogram(phase, key[1], phases.values@[n - 1]@);
            assert(in_order(h, 43, 43));
            lemma_join(rest, h, 43, 43, 43, 43);
        }
    }
}

pub(crate) proof fn lemma_phases(phases: Table<Histogram>)
    ensures
        in_order(render::phases_of(phases), 43, 43),
{
    let n = phases.values@.len();
    let f = |phase: &'static str| render::phase_histograms(phases, phase@, n);
    assert forall|phase: &'static str| in_order(#[trigger] f(phase), 43, 43) by {
        lemma_phase(phases, phase@, n);
    }
    lemma_flat(PHASES@, f, 43);
    let g = |i: int| render::other_histogram(phases, i);
    lemma_flat(render::other_places(phases, n), g, 43);
    let h = seq![render::header(catalog::ATTEMPT_PHASE_SECONDS)];
    assert(in_order(h, 43, 43));
    let a = render::flat(PHASES@, f);
    lemma_join(h, a, 43, 43, 43, 43);
    lemma_join(h + a, render::flat(render::other_places(phases, n), g), 43, 43, 43, 43);
}

pub(crate) proof fn lemma_stat_family(family: usize, field: StatField, list: Seq<&EnvironmentUsage>)
    ensures
        in_order(render::stat_family(family, field, list), place(family), place(family)),
{
    lemma_flat(
        list,
        |e: &EnvironmentUsage| render::stat_item(family, field, e),
        place(family),
    );
}

pub(crate) proof fn lemma_stats(list: Seq<EnvironmentUsage>, limit: usize)
    ensures
        in_order(render::stats_of(list, limit), 45, 48),
{
    let listed = render::shown(list, limit);
    lemma_stat_family(catalog::ENVIRONMENT_CPU_SECONDS_TOTAL, StatField::Cpu, listed);
    lemma_stat_family(catalog::ENVIRONMENT_MEMORY_BYTES, StatField::Memory, listed);
    lemma_stat_family(catalog::ENVIRONMENT_MEMORY_PEAK_BYTES, StatField::MemoryPeak, listed);
    let a = render::stat_family(catalog::ENVIRONMENT_CPU_SECONDS_TOTAL, StatField::Cpu, listed);
    let b = render::stat_family(catalog::ENVIRONMENT_MEMORY_BYTES, StatField::Memory, listed);
    let c = render::stat_family(
        catalog::ENVIRONMENT_MEMORY_PEAK_BYTES,
        StatField::MemoryPeak,
        listed,
    );
    let all = render::stats_of(list, limit);
    let d = all.skip((a + b + c).len() as int);
    assert(all =~= a + b + c + d);
    assert(in_order(d, 48, 48));
    lemma_join(a, b, 45, 45, 46, 46);
    lemma_join(a + b, c, 45, 46, 47, 47);
    lemma_join(a + b + c, d, 45, 47, 48, 48);
}

pub(crate) proof fn lemma_about(input: &MetricsInput)
    ensures
        in_order(render::about(input), 0, 4),
{
}

pub(crate) proof fn lemma_node(a: &AdmissionMetrics)
    ensures
        in_order(render::node(a), 5, 15),
{
}

pub(crate) proof fn lemma_queue(a: &AdmissionMetrics)
    ensures
        in_order(render::queue(a), 22, 26),
{
}

pub(crate) proof fn lemma_admission(a: &AdmissionMetrics)
    ensures
        in_order(render::admission(a), 32, 40),
{
    let events = render::by_kind(
        catalog::SCALE_EVENTS_TOTAL,
        "kind"@,
        "reason"@,
        "none"@,
        SCALE_KINDS@,
        &a.counters.scale_events,
    );
    lemma_by_kind(
        catalog::SCALE_EVENTS_TOTAL,
        "kind"@,
        "reason"@,
        "none"@,
        SCALE_KINDS@,
        &a.counters.scale_events,
    );
    let all = render::admission(a);
    let rest = all.take(all.len() - events.len());
    assert(all =~= rest + events);
    assert(in_order(rest, 32, 39));
    lemma_join(rest, events, 32, 39, 40, 40);
}

pub(crate) proof fn lemma_attempts(e: &MetricsSnapshot)
    ensures
        in_order(render::attempts(e), 41, 44),
{
    let a = render::refusals(&e.gate_refusals);
    assert(in_order(a, 41, 41));
    let b = render::by_kind(
        catalog::ATTEMPTS_TOTAL,
        "start_kind"@,
        "status"@,
        "succeeded"@,
        START_KINDS@,
        &e.attempts,
    );
    lemma_by_kind(
        catalog::ATTEMPTS_TOTAL,
        "start_kind"@,
        "status"@,
        "succeeded"@,
        START_KINDS@,
        &e.attempts,
    );
    let c = render::phases_of(e.phases);
    lemma_phases(e.phases);
    let all = render::attempts(e);
    let d = all.skip((a + b + c).len() as int);
    assert(all =~= a + b + c + d);
    assert(in_order(d, 44, 44));
    lemma_join(a, b, 41, 41, 42, 42);
    lemma_join(a + b, c, 41, 42, 43, 43);
    lemma_join(a + b + c, d, 41, 43, 44, 44);
}

pub(crate) proof fn lemma_host(input: &MetricsInput)
    ensures
        in_order(render::host(input), 45, 51),
{
    lemma_stats(input.environments@, input.limits.environments);
    let a = render::stats_of(input.environments@, input.limits.environments);
    let all = render::host(input);
    let b = all.skip(a.len() as int);
    assert(all =~= a + b);
    assert(in_order(b, 49, 51));
    lemma_join(a, b, 45, 48, 49, 51);
}

pub(crate) proof fn lemma_dispatcher(input: &MetricsInput)
    ensures
        in_order(render::dispatcher(input), 52, 61),
{
}

pub(crate) proof fn lemma_triggers(t: &TriggerMetricsSnapshot)
    ensures
        in_order(render::triggers(t), 62, 65),
{
}

pub(crate) proof fn lemma_outbox(o: &OutboxMetrics, now: crate::time::Timestamp)
    ensures
        in_order(render::outbox(o, now), 66, 69),
{
}

pub(crate) proof fn lemma_usage(u: &UsageMetrics, now: crate::time::Timestamp)
    ensures
        in_order(render::usage(u, now), 70, 82),
{
}

pub(crate) proof fn lemma_dispatch(d: &AsyncDispatchSnapshot)
    ensures
        in_order(render::dispatch(d), 83, 89),
{
    let f = |name: &'static str| render::operation(&d.queue_operations, name@);
    lemma_flat(QUEUE_OPERATIONS@, f, 84);
    let all = render::dispatch(d);
    let b = render::operations(&d.queue_operations);
    let a = render::counts(
        catalog::ASYNC_DISPATCH_DELIVERIES_TOTAL,
        "outcome"@,
        crate::metrics::dispatch::DELIVERY_OUTCOMES@,
        &d.deliveries,
    );
    let c = all.skip((a + b).len() as int);
    assert(all =~= a + b + c);
    assert(in_order(a, 83, 83));
    assert(in_order(c, 85, 89));
    lemma_join(a, b, 83, 83, 84, 84);
    lemma_join(a + b, c, 83, 84, 85, 89);
}

pub(crate) proof fn lemma_optional(input: &MetricsInput)
    ensures
        in_order(render::optional(input), 62, 89),
{
    let a = render::triggers_of(input);
    let b = render::outbox_of(input);
    let c = render::usage_of(input);
    let d = render::dispatch_of(input);
    if let Some(t) = input.triggers {
        lemma_triggers(&t);
    }
    if let Some(o) = input.outbox {
        lemma_outbox(&o, input.now);
    }
    if let Some(u) = input.usage {
        lemma_usage(&u, input.now);
    }
    if let Some(x) = input.dispatch {
        lemma_dispatch(&x);
    }
    lemma_join(a, b, 62, 65, 66, 69);
    lemma_join(a + b, c, 62, 69, 70, 82);
    lemma_join(a + b + c, d, 62, 82, 83, 89);
}

pub(crate) proof fn lemma_samples(input: &MetricsInput)
    ensures
        in_order(render::samples_of(input), 0, 90),
{
    let rows = caps::revision_rows(input.admission.revisions@, input.limits.revisions);
    let tenant_rows = caps::tenant_rows(input.admission.tenants@, input.limits.tenants);
    lemma_about(input);
    lemma_node(&input.admission);
    lemma_revisions(rows);
    lemma_queue(&input.admission);
    lemma_tenants(tenant_rows);
    lemma_admission(&input.admission);
    lemma_attempts(&input.events);
    lemma_host(input);
    lemma_dispatcher(input);
    lemma_optional(input);
    assert(in_order(render::truncated(input), 90, 90));
    let a = render::about(input);
    let b = a + render::node(&input.admission);
    let c = b + render::revisions(rows);
    let d = c + render::queue(&input.admission);
    let e = d + render::tenants(tenant_rows);
    let f = e + render::admission(&input.admission);
    let g = f + render::attempts(&input.events);
    let h = g + render::host(input);
    let i = h + render::dispatcher(input);
    let j = i + render::optional(input);
    lemma_join(a, render::node(&input.admission), 0, 4, 5, 15);
    lemma_join(b, render::revisions(rows), 0, 15, 16, 21);
    lemma_join(c, render::queue(&input.admission), 0, 21, 22, 26);
    lemma_join(d, render::tenants(tenant_rows), 0, 26, 27, 31);
    lemma_join(e, render::admission(&input.admission), 0, 31, 32, 40);
    lemma_join(f, render::attempts(&input.events), 0, 40, 41, 44);
    lemma_join(g, render::host(input), 0, 44, 45, 51);
    lemma_join(h, render::dispatcher(input), 0, 51, 52, 61);
    lemma_join(i, render::optional(input), 0, 61, 62, 89);
    lemma_join(j, render::truncated(input), 0, 89, 90, 90);
}

/// A family's samples follow each other: the header that is written where a
/// sample's family differs from the one before it is written once per family.
/// And every family is in the catalog.
pub proof fn law_every_family_is_announced_once(input: &MetricsInput, i: int, j: int)
    requires
        0 <= i < j < render::samples_of(input).len(),
    ensures
        render::samples_of(input)[j].family < catalog::FAMILY_COUNT,
        render::samples_of(input)[i].family == render::samples_of(input)[j].family
            ==> render::samples_of(input)[j - 1].family == render::samples_of(input)[j].family,
{
    lemma_samples(input);
    let s = render::samples_of(input);
    assert(place(s[j].family) <= 90);
    if s[i].family == s[j].family {
        if i < j - 1 {
            assert(place(s[i].family) <= place(s[j - 1].family));
        }
        assert(place(s[j - 1].family) <= place(s[j].family));
    }
}

pub(crate) proof fn lemma_families_are_known(input: &MetricsInput)
    ensures
        forall|i: int|
            0 <= i < render::samples_of(input).len() ==> (#[trigger] render::samples_of(
                input,
            )[i]).family < catalog::FAMILY_COUNT,
{
    lemma_samples(input);
    let s = render::samples_of(input);
    assert forall|i: int| 0 <= i < s.len() implies (#[trigger] s[i]).family
        < catalog::FAMILY_COUNT by {
        assert(place(s[i].family) <= 90);
    }
}

} // verus!
