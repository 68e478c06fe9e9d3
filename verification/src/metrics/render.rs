//! The exposition of [`MetricsInput`]: which samples there are, in which
//! order, under which labels.

use vstd::prelude::*;

use crate::metrics::caps;
use crate::metrics::caps::{RevisionRow, RevisionRowView, TenantRow, TenantRowView};
use crate::metrics::catalog;
use crate::metrics::dispatch::{
    AsyncDispatchSnapshot, DEAD_LETTER_REASONS, DELIVERY_OUTCOMES, QUEUE_OPERATIONS, REAPER_ACTIONS,
    RETRY_KINDS,
};
use crate::metrics::exposition;
use crate::metrics::exposition::{Item, ItemView, Labels, LabelsView, Line, LineView, Suffix, Value};
use crate::metrics::input::{
    AdmissionMetrics, EnvironmentCounts, EnvironmentStats, EnvironmentUsage, MetricsInput,
    OutboxMetrics, TriggerMetricsSnapshot, UsageMetrics,
};
use crate::metrics::order;
use crate::metrics::sorting;
use crate::metrics::tally;
use crate::metrics::tally::{Entry, Tally};
use crate::metrics::{Histogram, HistogramView, MetricsSnapshot, PHASES, PHASE_BOUNDS};
use crate::table::Table;
use crate::text;
use crate::time;
use crate::time::Timestamp;

verus! {

/// Bytes of a MiB.
pub const MIB: u64 = 1_048_576;

/// Why admission refuses.
pub const REJECT_REASONS: [&'static str; 7] = [
    "queue_full",
    "quota",
    "capacity",
    "queue_deadline",
    "circuit_open",
    "placement",
    "function_deleted",
];

/// Kinds of scale decisions.
pub const SCALE_KINDS: [&'static str; 6] = [
    "activation",
    "scale_up",
    "prestart",
    "scale_down",
    "scale_to_zero",
    "drain",
];

/// Kinds of starts.
pub const START_KINDS: [&'static str; 3] = ["cold", "warm", "restored"];

/// Results of a heartbeat.
pub const HEARTBEAT_RESULTS: [&'static str; 3] = ["renewed", "fenced", "error"];

/// What becomes of a scheduled time.
pub const CRON_RESULTS: [&'static str; 5] = [
    "accepted",
    "already_fired",
    "refused",
    "deferred",
    "inactive",
];

/// What is done about a late scheduled time.
pub const MISSED_ACTIONS: [&'static str; 2] = ["run", "skipped"];

/// What becomes of a delivery.
pub const WEBHOOK_RESULTS: [&'static str; 9] = [
    "accepted",
    "replayed",
    "signature_refused",
    "timestamp_refused",
    "too_large",
    "invalid_event_id",
    "disabled",
    "not_found",
    "refused",
];

/// The bounds of the phase buckets, in seconds.
pub const BOUND_TEXTS: [&'static str; 14] = [
    "0.005",
    "0.01",
    "0.025",
    "0.05",
    "0.1",
    "0.25",
    "0.5",
    "1",
    "2.5",
    "5",
    "10",
    "30",
    "60",
    "300",
];

// ---------------------------------------------------------------------------
// values
// ---------------------------------------------------------------------------
/// One or zero.
pub open spec fn flag(b: bool) -> Value {
    if b {
        Value::Count(1)
    } else {
        Value::Count(0)
    }
}

fn flag_of(b: bool) -> (r: Value)
    ensures
        r == flag(b),
{
    if b {
        Value::Count(1)
    } else {
        Value::Count(0)
    }
}

/// Bytes of `n` MiB, or the largest count where they exceed it.
pub open spec fn mib_of(n: u64) -> Value {
    if n * MIB > u64::MAX {
        Value::Count(u64::MAX)
    } else {
        Value::Count((n * MIB) as u64)
    }
}

fn mib(n: u64) -> (r: Value)
    ensures
        r == mib_of(n),
{
    if n > 17_592_186_044_415 {
        Value::Count(u64::MAX)
    } else {
        Value::Count(n * MIB)
    }
}

/// A wait; none is zero.
pub open spec fn wait(bits: Option<u64>) -> Value {
    match bits {
        Some(b) => Value::Real(b),
        None => Value::Count(0),
    }
}

fn wait_of(bits: Option<u64>) -> (r: Value)
    ensures
        r == wait(bits),
{
    match bits {
        Some(b) => Value::Real(b),
        None => Value::Count(0),
    }
}

/// The whole milliseconds of a span, cut toward zero.
pub open spec fn millis(span: int) -> int {
    if span >= 0 {
        span / 1_000_000
    } else {
        -((-span) / 1_000_000)
    }
}

/// The time left until an instant, negative once it has passed.
pub open spec fn until(at: Timestamp, now: Timestamp) -> Value {
    Value::Millis(millis(time::since(at, now)) as i128)
}

fn until_of(at: Timestamp, now: Timestamp) -> (r: Value)
    requires
        time::in_calendar(at),
        time::in_calendar(now),
    ensures
        r == until(at, now),
{
    let span: i128 = time::between(at, now);
    if span >= 0 {
        Value::Millis(span / 1_000_000)
    } else {
        let back: i128 = -span;
        Value::Millis(-(back / 1_000_000))
    }
}

/// The age of what happened at an instant; nothing, and what is still to come,
/// has none.
pub open spec fn age(at: Option<Timestamp>, now: Timestamp) -> Value {
    match at {
        None => Value::Count(0),
        Some(t) => if time::since(now, t) > 0 {
            Value::Millis(millis(time::since(now, t)) as i128)
        } else {
            Value::Millis(0)
        },
    }
}

fn age_of(at: Option<Timestamp>, now: Timestamp) -> (r: Value)
    requires
        time::opt_in_calendar(at),
        time::in_calendar(now),
    ensures
        r == age(at, now),
{
    match at {
        None => Value::Count(0),
        Some(t) => if time::between(now, t) > 0 {
            until_of(now, t)
        } else {
            Value::Millis(0)
        },
    }
}

// ---------------------------------------------------------------------------
// samples
// ---------------------------------------------------------------------------
/// A sample.
pub open spec fn sample(family: usize, suffix: Suffix, labels: LabelsView, value: Value) -> ItemView {
    ItemView { family, line: Some(LineView { suffix, labels, value }) }
}

/// A header alone.
pub open spec fn header(family: usize) -> ItemView {
    ItemView { family, line: None }
}

/// A sample without labels.
pub open spec fn plain(family: usize, value: Value) -> ItemView {
    sample(family, Suffix::Plain, Seq::empty(), value)
}

/// A sample with one label.
pub open spec fn one(family: usize, k: Seq<char>, v: Seq<char>, value: Value) -> ItemView {
    sample(family, Suffix::Plain, seq![(k, v)], value)
}

/// A sample with two labels.
pub open spec fn two(
    family: usize,
    k: Seq<char>,
    v: Seq<char>,
    k2: Seq<char>,
    v2: Seq<char>,
    value: Value,
) -> ItemView {
    sample(family, Suffix::Plain, seq![(k, v), (k2, v2)], value)
}

fn put(out: &mut Vec<Item>, family: usize, suffix: Suffix, labels: Labels, value: Value)
    ensures
        exposition::item_views(final(out)@) == exposition::item_views(old(out)@).push(
            sample(family, suffix, exposition::labels_view(labels@), value),
        ),
{
    let ghost before = out@;
    out.push(Item { family, line: Some(Line { suffix, labels, value }) });
    assert(exposition::item_views(out@) =~= exposition::item_views(before).push(
        sample(family, suffix, exposition::labels_view(labels@), value),
    ));
}

fn put_plain(out: &mut Vec<Item>, family: usize, value: Value)
    ensures
        exposition::item_views(final(out)@) == exposition::item_views(old(out)@).push(
            plain(family, value),
        ),
{
    let labels: Labels = Vec::new();
    assert(exposition::labels_view(labels@) =~= Seq::empty());
    put(out, family, Suffix::Plain, labels, value);
}

fn put_one(out: &mut Vec<Item>, family: usize, k: &'static str, v: &str, value: Value)
    ensures
        exposition::item_views(final(out)@) == exposition::item_views(old(out)@).push(
            one(family, k@, v@, value),
        ),
{
    let mut labels: Labels = Vec::new();
    labels.push((k, text::owned(v)));
    assert(exposition::labels_view(labels@) =~= seq![(k@, v@)]);
    put(out, family, Suffix::Plain, labels, value);
}

fn labels_of_two(k: &'static str, v: &str, k2: &'static str, v2: &str) -> (r: Labels)
    ensures
        exposition::labels_view(r@) == seq![(k@, v@), (k2@, v2@)],
{
    let mut labels: Labels = Vec::new();
    labels.push((k, text::owned(v)));
    labels.push((k2, text::owned(v2)));
    assert(exposition::labels_view(labels@) =~= seq![(k@, v@), (k2@, v2@)]);
    labels
}

fn labels_of_three(
    k: &'static str,
    v: &str,
    k2: &'static str,
    v2: &str,
    k3: &'static str,
    v3: &str,
) -> (r: Labels)
    ensures
        exposition::labels_view(r@) == seq![(k@, v@), (k2@, v2@), (k3@, v3@)],
{
    let mut labels: Labels = Vec::new();
    labels.push((k, text::owned(v)));
    labels.push((k2, text::owned(v2)));
    labels.push((k3, text::owned(v3)));
    assert(exposition::labels_view(labels@) =~= seq![(k@, v@), (k2@, v2@), (k3@, v3@)]);
    labels
}

fn put_two(
    out: &mut Vec<Item>,
    family: usize,
    k: &'static str,
    v: &str,
    k2: &'static str,
    v2: &str,
    value: Value,
)
    ensures
        exposition::item_views(final(out)@) == exposition::item_views(old(out)@).push(
            two(family, k@, v@, k2@, v2@, value),
        ),
{
    put(out, family, Suffix::Plain, labels_of_two(k, v, k2, v2), value);
}

/// The samples of every element of a list.
pub open spec fn flat<T>(list: Seq<T>, f: spec_fn(T) -> Seq<ItemView>) -> Seq<ItemView>
    decreases list.len(),
{
    if list.len() == 0 {
        Seq::empty()
    } else {
        flat(list.drop_last(), f) + f(list.last())
    }
}

proof fn lemma_flat_step<T>(list: Seq<T>, f: spec_fn(T) -> Seq<ItemView>, i: int)
    requires
        0 <= i < list.len(),
    ensures
        flat(list.take(i + 1), f) == flat(list.take(i), f) + f(list[i]),
{
    assert(list.take(i + 1).drop_last() =~= list.take(i));
}

// ---------------------------------------------------------------------------
// counters by label
// ---------------------------------------------------------------------------
/// A counter of a tally.
pub open spec fn count_item(
    family: usize,
    label: Seq<char>,
    name: Seq<char>,
    counts: &Tally,
) -> ItemView {
    one(family, label, name, Value::Count(counts.count(name, ""@) as u64))
}

/// The counters of the names, zero where there is none.
pub open spec fn counts(
    family: usize,
    label: Seq<char>,
    names: Seq<&'static str>,
    counts: &Tally,
) -> Seq<ItemView> {
    Seq::new(names.len(), |i: int| count_item(family, label, names[i]@, counts))
}

fn put_counts<const N: usize>(
    out: &mut Vec<Item>,
    family: usize,
    label: &'static str,
    names: &[&'static str; N],
    tallied: &Tally,
)
    requires
        tallied.wf(),
    ensures
        exposition::item_views(final(out)@) == exposition::item_views(old(out)@) + counts(
            family,
            label@,
            names@,
            tallied,
        ),
{
    let ghost before = exposition::item_views(out@);
    let ghost all = counts(family, label@, names@, tallied);
    let mut i: usize = 0;
    assert(before + all.take(0) =~= before);
    while i < N
        invariant
            i <= N,
            names@.len() == N,
            tallied.wf(),
            all == counts(family, label@, names@, tallied),
            exposition::item_views(out@) == before + all.take(i as int),
        decreases N - i,
    {
        let n: u64 = tallied.get(names[i], "");
        put_one(out, family, label, names[i], Value::Count(n));
        proof {
            assert(all[i as int] == count_item(family, label@, names@[i as int]@, tallied));
            assert(before + all.take(i as int + 1) =~= (before + all.take(i as int)).push(
                all[i as int],
            ));
        }
        i += 1;
    }
    assert(all.take(N as int) =~= all);
}

/// The counters of the first label `kind`, in the order of the second.
pub open spec fn kind_rows(
    family: usize,
    k: Seq<char>,
    k2: Seq<char>,
    kind: Seq<char>,
    rows: Seq<Entry>,
) -> Seq<ItemView>
    decreases rows.len(),
{
    if rows.len() == 0 {
        Seq::empty()
    } else {
        let rest = kind_rows(family, k, k2, kind, rows.drop_last());
        let row = rows.last();
        if row.first@ == kind {
            rest.push(two(family, k, row.first@, k2, row.second@, Value::Count(row.n)))
        } else {
            rest
        }
    }
}

/// The counters of the first label `kind`, or a zero under `none`.
pub open spec fn kind_items(
    family: usize,
    k: Seq<char>,
    k2: Seq<char>,
    none: Seq<char>,
    kind: Seq<char>,
    counts: &Tally,
) -> Seq<ItemView> {
    let rows = kind_rows(family, k, k2, kind, counts.rows.values@);
    if rows.len() == 0 {
        seq![two(family, k, kind, k2, none, Value::Count(0))]
    } else {
        rows
    }
}

/// The counters of all kinds, kind by kind.
pub open spec fn by_kind(
    family: usize,
    k: Seq<char>,
    k2: Seq<char>,
    none: Seq<char>,
    kinds: Seq<&'static str>,
    counts: &Tally,
) -> Seq<ItemView> {
    flat(kinds, |kind: &'static str| kind_items(family, k, k2, none, kind@, counts))
}

fn put_kind(
    out: &mut Vec<Item>,
    family: usize,
    k: &'static str,
    k2: &'static str,
    none: &str,
    kind: &str,
    tallied: &Tally,
)
    ensures
        exposition::item_views(final(out)@) == exposition::item_views(old(out)@) + kind_items(
            family,
            k@,
            k2@,
            none@,
            kind@,
            tallied,
        ),
{
    let ghost before = exposition::item_views(out@);
    let rows = &tallied.rows.values;
    let mut any: bool = false;
    let mut i: usize = 0;
    assert(before + kind_rows(family, k@, k2@, kind@, rows@.take(0)) =~= before);
    while i < rows.len()
        invariant
            i <= rows@.len(),
            exposition::item_views(out@) == before + kind_rows(
                family,
                k@,
                k2@,
                kind@,
                rows@.take(i as int),
            ),
            any == (kind_rows(family, k@, k2@, kind@, rows@.take(i as int)).len() > 0),
        decreases rows@.len() - i,
    {
        let row = &rows[i];
        proof {
            assert(rows@.take(i as int + 1).drop_last() =~= rows@.take(i as int));
        }
        if text::same_text(row.first.as_str(), kind) {
            any = true;
            put_two(
                out,
                family,
                k,
                row.first.as_str(),
                k2,
                row.second.as_str(),
                Value::Count(row.n),
            );
        }
        proof {
            assert(exposition::item_views(out@) =~= before + kind_rows(
                family,
                k@,
                k2@,
                kind@,
                rows@.take(i as int + 1),
            ));
        }
        i += 1;
    }
    assert(rows@.take(i as int) =~= rows@);
    if !any {
        put_two(out, family, k, kind, k2, none, Value::Count(0));
        assert(exposition::item_views(out@) =~= before + kind_items(
            family,
            k@,
            k2@,
            none@,
            kind@,
            tallied,
        ));
    }
}

fn put_by_kind<const N: usize>(
    out: &mut Vec<Item>,
    family: usize,
    k: &'static str,
    k2: &'static str,
    none: &'static str,
    kinds: &[&'static str; N],
    tallied: &Tally,
)
    ensures
        exposition::item_views(final(out)@) == exposition::item_views(old(out)@) + by_kind(
            family,
            k@,
            k2@,
            none@,
            kinds@,
            tallied,
        ),
{
    let ghost before = exposition::item_views(out@);
    let ghost f = |kind: &'static str| kind_items(family, k@, k2@, none@, kind@, tallied);
    let mut i: usize = 0;
    assert(before + flat(kinds@.take(0), f) =~= before);
    while i < N
        invariant
            i <= N,
            kinds@.len() == N,
            f == (|kind: &'static str| kind_items(family, k@, k2@, none@, kind@, tallied)),
            exposition::item_views(out@) == before + flat(kinds@.take(i as int), f),
        decreases N - i,
    {
        put_kind(out, family, k, k2, none, kinds[i], tallied);
        proof {
            lemma_flat_step(kinds@, f, i as int);
            assert(exposition::item_views(out@) =~= before + flat(kinds@.take(i as int + 1), f));
        }
        i += 1;
    }
    assert(kinds@.take(N as int) =~= kinds@);
}

/// A refusal counter.
pub open spec fn refusal(row: Entry) -> ItemView {
    one(catalog::GATE_REFUSALS_TOTAL, "error_type"@, row.first@, Value::Count(row.n))
}

/// Refusals by error type, or a zero where there was none.
pub open spec fn refusals(counts: &Tally) -> Seq<ItemView> {
    let rows = counts.rows.values@;
    if rows.len() == 0 {
        seq![one(catalog::GATE_REFUSALS_TOTAL, "error_type"@, "none"@, Value::Count(0))]
    } else {
        Seq::new(rows.len(), |i: int| refusal(rows[i]))
    }
}

fn put_refusals(out: &mut Vec<Item>, tallied: &Tally)
    ensures
        exposition::item_views(final(out)@) == exposition::item_views(old(out)@) + refusals(tallied),
{
    let ghost before = exposition::item_views(out@);
    let rows = &tallied.rows.values;
    if rows.len() == 0 {
        put_one(out, catalog::GATE_REFUSALS_TOTAL, "error_type", "none", Value::Count(0));
        assert(exposition::item_views(out@) =~= before + refusals(tallied));
        return ;
    }
    let ghost all = refusals(tallied);
    let mut i: usize = 0;
    assert(before + all.take(0) =~= before);
    while i < rows.len()
        invariant
            i <= rows@.len(),
            all == Seq::new(rows@.len(), |j: int| refusal(rows@[j])),
            exposition::item_views(out@) == before + all.take(i as int),
        decreases rows@.len() - i,
    {
        let row = &rows[i];
        put_one(
            out,
            catalog::GATE_REFUSALS_TOTAL,
            "error_type",
            row.first.as_str(),
            Value::Count(row.n),
        );
        assert(before + all.take(i as int + 1) =~= (before + all.take(i as int)).push(
            all[i as int],
        ));
        i += 1;
    }
    assert(all.take(i as int) =~= all);
}

/// Operations on the queue by result.
pub open spec fn operations(counts: &Tally) -> Seq<ItemView> {
    flat(QUEUE_OPERATIONS@, |name: &'static str| operation(counts, name@))
}

/// One operation on the queue by result.
pub open spec fn operation(counts: &Tally, name: Seq<char>) -> Seq<ItemView> {
    seq![
        two(
            catalog::ASYNC_DISPATCH_QUEUE_OPERATIONS_TOTAL,
            "operation"@,
            name,
            "result"@,
            "ok"@,
            Value::Count(counts.count(name, "ok"@) as u64),
        ),
        two(
            catalog::ASYNC_DISPATCH_QUEUE_OPERATIONS_TOTAL,
            "operation"@,
            name,
            "result"@,
            "error"@,
            Value::Count(counts.count(name, "error"@) as u64),
        ),
    ]
}

fn put_operations(out: &mut Vec<Item>, tallied: &Tally)
    requires
        tallied.wf(),
    ensures
        exposition::item_views(final(out)@) == exposition::item_views(old(out)@) + operations(
            tallied,
        ),
{
    let ghost before = exposition::item_views(out@);
    let ghost names = QUEUE_OPERATIONS@;
    let ghost f = |name: &'static str| operation(tallied, name@);
    let mut i: usize = 0;
    assert(before + flat(names.take(0), f) =~= before);
    while i < 3
        invariant
            i <= 3,
            names == QUEUE_OPERATIONS@,
            names.len() == 3,
            tallied.wf(),
            f == (|name: &'static str| operation(tallied, name@)),
            exposition::item_views(out@) == before + flat(names.take(i as int), f),
        decreases 3 - i,
    {
        let name: &'static str = QUEUE_OPERATIONS[i];
        let ghost had = exposition::item_views(out@);
        put_two(
            out,
            catalog::ASYNC_DISPATCH_QUEUE_OPERATIONS_TOTAL,
            "operation",
            name,
            "result",
            "ok",
            Value::Count(tallied.get(name, "ok")),
        );
        put_two(
            out,
            catalog::ASYNC_DISPATCH_QUEUE_OPERATIONS_TOTAL,
            "operation",
            name,
            "result",
            "error",
            Value::Count(tallied.get(name, "error")),
        );
        proof {
            lemma_flat_step(names, f, i as int);
            assert(exposition::item_views(out@) =~= had + operation(tallied, name@));
            assert(exposition::item_views(out@) =~= before + flat(names.take(i as int + 1), f));
        }
        i += 1;
    }
    assert(names.take(3) =~= names);
}

// ---------------------------------------------------------------------------
// environments, revisions, tenants
// ---------------------------------------------------------------------------
/// The node's environments in one state.
pub open spec fn node_state(state: Seq<char>, n: u64) -> ItemView {
    one(catalog::ENVIRONMENTS, "state"@, state, Value::Count(n))
}

/// The node's environments by state.
pub open spec fn node_states(c: EnvironmentCounts) -> Seq<ItemView> {
    seq![
        node_state("promised"@, c.promised),
        node_state("starting"@, c.starting),
        node_state("busy"@, c.busy),
        node_state("parking"@, c.parking),
        node_state("idle"@, c.idle),
        node_state("draining"@, c.draining),
    ]
}

fn put_node_states(out: &mut Vec<Item>, c: &EnvironmentCounts)
    ensures
        exposition::item_views(final(out)@) == exposition::item_views(old(out)@) + node_states(*c),
{
    let ghost before = exposition::item_views(out@);
    put_one(out, catalog::ENVIRONMENTS, "state", "promised", Value::Count(c.promised));
    put_one(out, catalog::ENVIRONMENTS, "state", "starting", Value::Count(c.starting));
    put_one(out, catalog::ENVIRONMENTS, "state", "busy", Value::Count(c.busy));
    put_one(out, catalog::ENVIRONMENTS, "state", "parking", Value::Count(c.parking));
    put_one(out, catalog::ENVIRONMENTS, "state", "idle", Value::Count(c.idle));
    put_one(out, catalog::ENVIRONMENTS, "state", "draining", Value::Count(c.draining));
    assert(exposition::item_views(out@) =~= before + node_states(*c));
}

/// A revision's environments in one state.
pub open spec fn revision_state(r: RevisionRowView, state: Seq<char>, n: u64) -> ItemView {
    sample(
        catalog::REVISION_ENVIRONMENTS,
        Suffix::Plain,
        seq![("tenant"@, r.tenant), ("revision"@, r.revision), ("state"@, state)],
        Value::Count(n),
    )
}

/// A revision's environments by state.
pub open spec fn revision_states(r: RevisionRowView) -> Seq<ItemView> {
    seq![
        revision_state(r, "promised"@, r.environments.promised),
        revision_state(r, "starting"@, r.environments.starting),
        revision_state(r, "busy"@, r.environments.busy),
        revision_state(r, "parking"@, r.environments.parking),
        revision_state(r, "idle"@, r.environments.idle),
        revision_state(r, "draining"@, r.environments.draining),
    ]
}

fn put_revision_state(out: &mut Vec<Item>, r: &RevisionRow, state: &'static str, n: u64)
    ensures
        exposition::item_views(final(out)@) == exposition::item_views(old(out)@).push(
            revision_state(r@, state@, n),
        ),
{
    let labels = labels_of_three(
        "tenant",
        r.tenant.as_str(),
        "revision",
        r.revision.as_str(),
        "state",
        state,
    );
    put(out, catalog::REVISION_ENVIRONMENTS, Suffix::Plain, labels, Value::Count(n));
}

/// A number of a revision that a family of its own shows.
#[derive(Debug, Clone, Copy, PartialEq, Eq, Structural)]
pub enum RevisionField {
    Desired,
    MaxEnvironments,
    MinReady,
    Queued,
    Breaker,
}

/// The number.
pub open spec fn revision_value(r: RevisionRowView, field: RevisionField) -> u64 {
    match field {
        RevisionField::Desired => r.desired as u64,
        RevisionField::MaxEnvironments => r.max_environments as u64,
        RevisionField::MinReady => r.min_ready as u64,
        RevisionField::Queued => r.queued as u64,
        RevisionField::Breaker => caps::spec_breaker_value(r.breaker),
    }
}

/// A sample of a revision.
pub open spec fn revision_item(family: usize, field: RevisionField, r: RevisionRowView) -> ItemView {
    two(
        family,
        "tenant"@,
        r.tenant,
        "revision"@,
        r.revision,
        Value::Count(revision_value(r, field)),
    )
}

/// A family of all revisions.
pub open spec fn revision_family(
    family: usize,
    field: RevisionField,
    rows: Seq<RevisionRowView>,
) -> Seq<ItemView> {
    Seq::new(rows.len(), |i: int| revision_item(family, field, rows[i]))
}

/// The revisions.
pub open spec fn revisions(rows: Seq<RevisionRowView>) -> Seq<ItemView> {
    flat(rows, |r: RevisionRowView| revision_states(r)) + revision_family(
        catalog::REVISION_DESIRED_ENVIRONMENTS,
        RevisionField::Desired,
        rows,
    ) + revision_family(
        catalog::REVISION_MAX_ENVIRONMENTS,
        RevisionField::MaxEnvironments,
        rows,
    ) + revision_family(catalog::REVISION_MIN_READY, RevisionField::MinReady, rows)
        + revision_family(catalog::REVISION_QUEUE_LENGTH, RevisionField::Queued, rows)
        + revision_family(
        catalog::REVISION_CIRCUIT_BREAKER_STATE,
        RevisionField::Breaker,
        rows,
    )
}

fn put_revision_family(
    out: &mut Vec<Item>,
    family: usize,
    field: RevisionField,
    rows: &Vec<RevisionRow>,
)
    ensures
        exposition::item_views(final(out)@) == exposition::item_views(old(out)@) + revision_family(
            family,
            field,
            caps::row_views(rows@),
        ),
{
    let ghost before = exposition::item_views(out@);
    let ghost views = caps::row_views(rows@);
    let ghost all = revision_family(family, field, views);
    let mut i: usize = 0;
    assert(before + all.take(0) =~= before);
    while i < rows.len()
        invariant
            i <= rows@.len(),
            views == caps::row_views(rows@),
            all == revision_family(family, field, views),
            exposition::item_views(out@) == before + all.take(i as int),
        decreases rows@.len() - i,
    {
        let r = &rows[i];
        let n: u64 = match field {
            RevisionField::Desired => r.desired as u64,
            RevisionField::MaxEnvironments => r.max_environments as u64,
            RevisionField::MinReady => r.min_ready as u64,
            RevisionField::Queued => r.queued as u64,
            RevisionField::Breaker => caps::breaker_value(r.breaker),
        };
        put_two(
            out,
            family,
            "tenant",
            r.tenant.as_str(),
            "revision",
            r.revision.as_str(),
            Value::Count(n),
        );
        proof {
            assert(views[i as int] == r@);
            assert(all[i as int] == revision_item(family, field, r@));
            assert(before + all.take(i as int + 1) =~= (before + all.take(i as int)).push(
                all[i as int],
            ));
        }
        i += 1;
    }
    assert(all.take(i as int) =~= all);
}

fn put_revision_states(out: &mut Vec<Item>, rows: &Vec<RevisionRow>)
    ensures
        exposition::item_views(final(out)@) == exposition::item_views(old(out)@) + flat(
            caps::row_views(rows@),
            |r: RevisionRowView| revision_states(r),
        ),
{
    let ghost before = exposition::item_views(out@);
    let ghost views = caps::row_views(rows@);
    let ghost f = |r: RevisionRowView| revision_states(r);
    let mut i: usize = 0;
    assert(before + flat(views.take(0), f) =~= before);
    while i < rows.len()
        invariant
            i <= rows@.len(),
            views == caps::row_views(rows@),
            f == (|r: RevisionRowView| revision_states(r)),
            exposition::item_views(out@) == before + flat(views.take(i as int), f),
        decreases rows@.len() - i,
    {
        let r = &rows[i];
        let ghost had = exposition::item_views(out@);
        put_revision_state(out, r, "promised", r.environments.promised);
        put_revision_state(out, r, "starting", r.environments.starting);
        put_revision_state(out, r, "busy", r.environments.busy);
        put_revision_state(out, r, "parking", r.environments.parking);
        put_revision_state(out, r, "idle", r.environments.idle);
        put_revision_state(out, r, "draining", r.environments.draining);
        proof {
            assert(views[i as int] == r@);
            lemma_flat_step(views, f, i as int);
            assert(exposition::item_views(out@) =~= had + revision_states(r@));
            assert(exposition::item_views(out@) =~= before + flat(views.take(i as int + 1), f));
        }
        i += 1;
    }
    assert(views.take(i as int) =~= views);
}

fn put_revisions(out: &mut Vec<Item>, rows: &Vec<RevisionRow>)
    ensures
        exposition::item_views(final(out)@) == exposition::item_views(old(out)@) + revisions(
            caps::row_views(rows@),
        ),
{
    let ghost before = exposition::item_views(out@);
    put_revision_states(out, rows);
    put_revision_family(
        out,
        catalog::REVISION_DESIRED_ENVIRONMENTS,
        RevisionField::Desired,
        rows,
    );
    put_revision_family(
        out,
        catalog::REVISION_MAX_ENVIRONMENTS,
        RevisionField::MaxEnvironments,
        rows,
    );
    put_revision_family(out, catalog::REVISION_MIN_READY, RevisionField::MinReady, rows);
    put_revision_family(out, catalog::REVISION_QUEUE_LENGTH, RevisionField::Queued, rows);
    put_revision_family(
        out,
        catalog::REVISION_CIRCUIT_BREAKER_STATE,
        RevisionField::Breaker,
        rows,
    );
    assert(exposition::item_views(out@) =~= before + revisions(caps::row_views(rows@)));
}

/// A number of a tenant that a family of its own shows.
#[derive(Debug, Clone, Copy, PartialEq, Eq, Structural)]
pub enum TenantField {
    Queued,
    OldestWait,
    InFlight,
    MaxConcurrency,
    Grants,
}

/// The number, where there is one.
pub open spec fn tenant_value(t: TenantRowView, field: TenantField) -> Option<Value> {
    match field {
        TenantField::Queued => Some(Value::Count(t.queued)),
        TenantField::OldestWait => Some(wait(t.oldest_wait_seconds)),
        TenantField::InFlight => Some(Value::Count(t.in_flight)),
        TenantField::MaxConcurrency => match t.max_concurrency {
            Some(m) => Some(Value::Count(m)),
            None => None,
        },
        TenantField::Grants => Some(Value::Count(t.grants)),
    }
}

/// The sample of a tenant, where there is one.
pub open spec fn tenant_item(family: usize, field: TenantField, t: TenantRowView) -> Seq<ItemView> {
    match tenant_value(t, field) {
        Some(v) => seq![one(family, "tenant"@, t.tenant, v)],
        None => Seq::empty(),
    }
}

/// A family of all tenants.
pub open spec fn tenant_family(
    family: usize,
    field: TenantField,
    rows: Seq<TenantRowView>,
) -> Seq<ItemView> {
    flat(rows, |t: TenantRowView| tenant_item(family, field, t))
}

/// The tenants.
pub open spec fn tenants(rows: Seq<TenantRowView>) -> Seq<ItemView> {
    tenant_family(catalog::TENANT_QUEUE_LENGTH, TenantField::Queued, rows) + tenant_family(
        catalog::TENANT_QUEUE_OLDEST_AGE_SECONDS,
        TenantField::OldestWait,
        rows,
    ) + tenant_family(catalog::TENANT_IN_FLIGHT, TenantField::InFlight, rows) + tenant_family(
        catalog::TENANT_MAX_CONCURRENCY,
        TenantField::MaxConcurrency,
        rows,
    ) + tenant_family(catalog::TENANT_GRANTS_TOTAL, TenantField::Grants, rows)
}

fn put_tenant_family(
    out: &mut Vec<Item>,
    family: usize,
    field: TenantField,
    rows: &Vec<TenantRow>,
)
    ensures
        exposition::item_views(final(out)@) == exposition::item_views(old(out)@) + tenant_family(
            family,
            field,
            caps::tenant_views(rows@),
        ),
{
    let ghost before = exposition::item_views(out@);
    let ghost views = caps::tenant_views(rows@);
    let ghost f = |t: TenantRowView| tenant_item(family, field, t);
    let mut i: usize = 0;
    assert(before + flat(views.take(0), f) =~= before);
    while i < rows.len()
        invariant
            i <= rows@.len(),
            views == caps::tenant_views(rows@),
            f == (|t: TenantRowView| tenant_item(family, field, t)),
            exposition::item_views(out@) == before + flat(views.take(i as int), f),
        decreases rows@.len() - i,
    {
        let t = &rows[i];
        let v: Option<Value> = match field {
            TenantField::Queued => Some(Value::Count(t.queued)),
            TenantField::OldestWait => Some(wait_of(t.oldest_wait_seconds)),
            TenantField::InFlight => Some(Value::Count(t.in_flight)),
            TenantField::MaxConcurrency => match t.max_concurrency {
                Some(m) => Some(Value::Count(m)),
                None => None,
            },
            TenantField::Grants => Some(Value::Count(t.grants)),
        };
        if let Some(v) = v {
            put_one(out, family, "tenant", t.tenant.as_str(), v);
        }
        proof {
            assert(views[i as int] == t@);
            lemma_flat_step(views, f, i as int);
            assert(exposition::item_views(out@) =~= before + flat(views.take(i as int + 1), f));
        }
        i += 1;
    }
    assert(views.take(i as int) =~= views);
}

fn put_tenants(out: &mut Vec<Item>, rows: &Vec<TenantRow>)
    ensures
        exposition::item_views(final(out)@) == exposition::item_views(old(out)@) + tenants(
            caps::tenant_views(rows@),
        ),
{
    let ghost before = exposition::item_views(out@);
    put_tenant_family(out, catalog::TENANT_QUEUE_LENGTH, TenantField::Queued, rows);
    put_tenant_family(
        out,
        catalog::TENANT_QUEUE_OLDEST_AGE_SECONDS,
        TenantField::OldestWait,
        rows,
    );
    put_tenant_family(out, catalog::TENANT_IN_FLIGHT, TenantField::InFlight, rows);
    put_tenant_family(out, catalog::TENANT_MAX_CONCURRENCY, TenantField::MaxConcurrency, rows);
    put_tenant_family(out, catalog::TENANT_GRANTS_TOTAL, TenantField::Grants, rows);
    assert(exposition::item_views(out@) =~= before + tenants(caps::tenant_views(rows@)));
}

// ---------------------------------------------------------------------------
// attempt phases
// ---------------------------------------------------------------------------
/// What the first `n` buckets count in all.
pub open spec fn cumulative(h: HistogramView, n: nat) -> u64 {
    tally::grown(0, crate::metrics::total(h.buckets, n)) as u64
}

/// A bucket of a phase.
pub open spec fn bucket(phase: Seq<char>, kind: Seq<char>, bound: Seq<char>, n: u64) -> ItemView {
    sample(
        catalog::ATTEMPT_PHASE_SECONDS,
        Suffix::Bucket,
        seq![("phase"@, phase), ("start_kind"@, kind), ("le"@, bound)],
        Value::Count(n),
    )
}

/// The bounded buckets of a phase.
pub open spec fn buckets(phase: Seq<char>, kind: Seq<char>, h: HistogramView) -> Seq<ItemView> {
    Seq::new(
        PHASE_BOUNDS as nat,
        |i: int| bucket(phase, kind, BOUND_TEXTS[i]@, cumulative(h, (i + 1) as nat)),
    )
}

/// The histogram of a phase of one kind of start.
pub open spec fn histogram(phase: Seq<char>, kind: Seq<char>, h: HistogramView) -> Seq<ItemView> {
    buckets(phase, kind, h) + seq![
        bucket(phase, kind, "+Inf"@, h.count),
        sample(
            catalog::ATTEMPT_PHASE_SECONDS,
            Suffix::Sum,
            seq![("phase"@, phase), ("start_kind"@, kind)],
            Value::Millis(h.sum_ms as i128),
        ),
        sample(
            catalog::ATTEMPT_PHASE_SECONDS,
            Suffix::Count,
            seq![("phase"@, phase), ("start_kind"@, kind)],
            Value::Count(h.count),
        ),
    ]
}

/// Whether a phase is one of an attempt's.
pub open spec fn is_phase(phase: Seq<char>) -> bool {
    exists|i: int| 0 <= i < PHASES@.len() && (#[trigger] PHASES@[i])@ == phase
}

/// The histograms of a phase by kind of start, of the first `n` of the recorded
/// ones.
pub open spec fn phase_histograms(phases: Table<Histogram>, phase: Seq<char>, n: nat) -> Seq<ItemView>
    decreases n,
{
    if n == 0 {
        Seq::empty()
    } else {
        let rest = phase_histograms(phases, phase, (n - 1) as nat);
        let key = phases.order()[n - 1];
        if key[0] == phase {
            rest + histogram(phase, key[1], phases.values@[n - 1]@)
        } else {
            rest
        }
    }
}

/// `list` holds places of histograms by kind of start: with that of the
/// histogram at `i` in its place, or in place of that of the same kind.
pub open spec fn placed_kind(phases: Table<Histogram>, list: Seq<int>, i: int) -> Seq<int>
    decreases list.len(),
{
    if list.len() == 0 {
        seq![i]
    } else {
        let kind = phases.order()[i][1];
        let last = phases.order()[list.last()][1];
        if kind == last {
            list.drop_last().push(i)
        } else if text::text_lt(kind, last) {
            placed_kind(phases, list.drop_last(), i).push(list.last())
        } else {
            list.push(i)
        }
    }
}

/// The places of the histograms, among the first `n`, of what is no phase of an
/// attempt: one for each kind of start, the last one there is.
pub open spec fn other_places(phases: Table<Histogram>, n: nat) -> Seq<int>
    decreases n,
{
    if n == 0 {
        Seq::empty()
    } else {
        let list = other_places(phases, (n - 1) as nat);
        if is_phase(phases.order()[n - 1][0]) {
            list
        } else {
            placed_kind(phases, list, n - 1)
        }
    }
}

/// The histogram of what is no phase of an attempt, at a place.
pub open spec fn other_histogram(phases: Table<Histogram>, i: int) -> Seq<ItemView> {
    histogram("other"@, phases.order()[i][1], phases.values@[i]@)
}

/// The histograms of all phases, in the order of an attempt, and then of what
/// is none.
pub open spec fn phases_of(phases: Table<Histogram>) -> Seq<ItemView> {
    let n = phases.values@.len();
    seq![header(catalog::ATTEMPT_PHASE_SECONDS)] + flat(
        PHASES@,
        |phase: &'static str| phase_histograms(phases, phase@, n),
    ) + flat(other_places(phases, n), |i: int| other_histogram(phases, i))
}

/// The buckets add up: no bucket counts less than the one below it, and the
/// last one no more than the histogram where every duration is in one bucket.
pub proof fn law_buckets_are_cumulative(h: HistogramView, n: nat)
    requires
        h.buckets.len() == 15,
        n < 14,
    ensures
        cumulative(h, n) <= cumulative(h, n + 1),
        crate::metrics::total(h.buckets, 15) == h.count ==> cumulative(h, 14) <= h.count,
{
}

fn put_bucket(out: &mut Vec<Item>, phase: &str, kind: &str, bound: &str, n: u64)
    ensures
        exposition::item_views(final(out)@) == exposition::item_views(old(out)@).push(
            bucket(phase@, kind@, bound@, n),
        ),
{
    let labels = labels_of_three("phase", phase, "start_kind", kind, "le", bound);
    put(out, catalog::ATTEMPT_PHASE_SECONDS, Suffix::Bucket, labels, Value::Count(n));
}

fn put_histogram(out: &mut Vec<Item>, phase: &str, kind: &str, h: &Histogram)
    requires
        h.wf(),
    ensures
        exposition::item_views(final(out)@) == exposition::item_views(old(out)@) + histogram(
            phase@,
            kind@,
            h@,
        ),
{
    let ghost before = exposition::item_views(out@);
    let ghost all = buckets(phase@, kind@, h@);
    let mut n: u64 = 0;
    let mut i: usize = 0;
    assert(before + all.take(0) =~= before);
    while i < PHASE_BOUNDS
        invariant
            i <= PHASE_BOUNDS,
            h.wf(),
            all == buckets(phase@, kind@, h@),
            n == cumulative(h@, i as nat),
            exposition::item_views(out@) == before + all.take(i as int),
        decreases PHASE_BOUNDS - i,
    {
        n = tally::grow(n, h.buckets[i]);
        put_bucket(out, phase, kind, BOUND_TEXTS[i], n);
        proof {
            assert(all[i as int] == bucket(
                phase@,
                kind@,
                BOUND_TEXTS[i as int]@,
                cumulative(h@, (i + 1) as nat),
            ));
            assert(before + all.take(i as int + 1) =~= (before + all.take(i as int)).push(
                all[i as int],
            ));
        }
        i += 1;
    }
    assert(all.take(i as int) =~= all);
    put_bucket(out, phase, kind, "+Inf", h.count);
    put(
        out,
        catalog::ATTEMPT_PHASE_SECONDS,
        Suffix::Sum,
        labels_of_two("phase", phase, "start_kind", kind),
        Value::Millis(h.sum_ms as i128),
    );
    put(
        out,
        catalog::ATTEMPT_PHASE_SECONDS,
        Suffix::Count,
        labels_of_two("phase", phase, "start_kind", kind),
        Value::Count(h.count),
    );
    assert(exposition::item_views(out@) =~= before + histogram(phase@, kind@, h@));
}

fn put_phase(out: &mut Vec<Item>, phases: &Table<Histogram>, phase: &str)
    requires
        crate::metrics::are_phases(*phases),
    ensures
        exposition::item_views(final(out)@) == exposition::item_views(old(out)@)
            + phase_histograms(*phases, phase@, phases.values@.len()),
{
    let ghost before = exposition::item_views(out@);
    let mut i: usize = 0;
    assert(before + phase_histograms(*phases, phase@, 0) =~= before);
    while i < phases.values.len()
        invariant
            i <= phases.values@.len(),
            crate::metrics::are_phases(*phases),
            exposition::item_views(out@) == before + phase_histograms(*phases, phase@, i as nat),
        decreases phases.values@.len() - i,
    {
        proof {
            crate::metrics::lemma_phase_at(*phases, i as int);
        }
        let parts = &phases.keys[i].parts;
        if text::same_text(parts[0].as_str(), phase) {
            put_histogram(out, phase, parts[1].as_str(), &phases.values[i]);
        }
        assert(exposition::item_views(out@) =~= before + phase_histograms(
            *phases,
            phase@,
            (i + 1) as nat,
        ));
        i += 1;
    }
}

fn is_known_phase(phase: &str) -> (r: bool)
    ensures
        r == is_phase(phase@),
{
    let mut i: usize = 0;
    while i < 6
        invariant
            i <= 6,
            forall|j: int| 0 <= j < i ==> (#[trigger] PHASES@[j])@ != phase@,
        decreases 6 - i,
    {
        if text::same_text(PHASES[i], phase) {
            assert(PHASES@[i as int]@ == phase@);
            return true;
        }
        i += 1;
    }
    false
}

/// Places as numbers.
spec fn places(list: Seq<usize>) -> Seq<int> {
    list.map_values(|i: usize| i as int)
}

proof fn lemma_placed_kind(phases: Table<Histogram>, list: Seq<int>, i: int, p: int)
    requires
        0 <= p <= list.len(),
        forall|n: int|
            p <= n < list.len() ==> text::text_lt(
                phases.order()[i][1],
                phases.order()[#[trigger] list[n]][1],
            ),
        p > 0 ==> !text::text_lt(phases.order()[i][1], phases.order()[list[p - 1]][1]),
    ensures
        placed_kind(phases, list, i) == if p > 0 && phases.order()[list[p - 1]][1]
            == phases.order()[i][1] {
            list.update(p - 1, i)
        } else {
            list.insert(p, i)
        },
    decreases list.len(),
{
    let kind = phases.order()[i][1];
    if list.len() == 0 {
        assert(list.insert(0, i) =~= seq![i]);
    } else if p < list.len() {
        let head = list.drop_last();
        assert(text::text_lt(kind, phases.order()[list[list.len() - 1]][1]));
        text::lemma_text_order(kind, kind, kind);
        lemma_placed_kind(phases, head, i, p);
        if p > 0 && phases.order()[list[p - 1]][1] == kind {
            assert(head.update(p - 1, i).push(list.last()) =~= list.update(p - 1, i));
        } else {
            assert(head.insert(p, i).push(list.last()) =~= list.insert(p, i));
        }
    } else if phases.order()[list.last()][1] == kind {
        assert(list.drop_last().push(i) =~= list.update(p - 1, i));
    } else {
        assert(list.push(i) =~= list.insert(p, i));
    }
}

fn place_kind(list: &mut Vec<usize>, phases: &Table<Histogram>, i: usize)
    requires
        crate::metrics::are_phases(*phases),
        i < phases.values@.len(),
        forall|n: int| 0 <= n < old(list)@.len() ==> #[trigger] old(list)@[n] < phases.values@.len(),
    ensures
        places(final(list)@) == placed_kind(*phases, places(old(list)@), i as int),
        forall|n: int|
            0 <= n < final(list)@.len() ==> #[trigger] final(list)@[n] < phases.values@.len(),
{
    let ghost was = list@;
    proof {
        crate::metrics::lemma_phase_at(*phases, i as int);
    }
    let kind = phases.keys[i].parts[1].as_str();
    let mut p: usize = list.len();
    while p > 0
        invariant_except_break
            p <= list@.len(),
        invariant
            list@ == was,
            p <= was.len(),
            kind@ == phases.order()[i as int][1],
            crate::metrics::are_phases(*phases),
            forall|n: int| 0 <= n < was.len() ==> #[trigger] was[n] < phases.values@.len(),
            forall|n: int|
                p <= n < was.len() ==> text::text_lt(
                    kind@,
                    phases.order()[(#[trigger] was[n]) as int][1],
                ),
        ensures
            p > 0 ==> !text::text_lt(kind@, phases.order()[was[p - 1] as int][1]),
        decreases p,
    {
        let at: usize = list[p - 1];
        proof {
            crate::metrics::lemma_phase_at(*phases, at as int);
        }
        if !text::text_before(kind, phases.keys[at].parts[1].as_str()) {
            break;
        }
        p -= 1;
    }
    proof {
        assert forall|n: int| p <= n < places(was).len() implies text::text_lt(
            phases.order()[i as int][1],
            phases.order()[#[trigger] places(was)[n]][1],
        ) by {
            assert(places(was)[n] == was[n] as int);
        }
        lemma_placed_kind(*phases, places(was), i as int, p as int);
        if p > 0 {
            crate::metrics::lemma_phase_at(*phases, was[p - 1] as int);
        }
    }
    if p > 0 && text::same_text(phases.keys[list[p - 1]].parts[1].as_str(), kind) {
        list.set(p - 1, i);
        assert(places(list@) =~= places(was).update(p - 1, i as int));
    } else {
        list.insert(p, i);
        assert(places(list@) =~= places(was).insert(p as int, i as int));
    }
}

fn other_phases(phases: &Table<Histogram>) -> (r: Vec<usize>)
    requires
        crate::metrics::are_phases(*phases),
    ensures
        places(r@) == other_places(*phases, phases.values@.len()),
        forall|n: int| 0 <= n < r@.len() ==> #[trigger] r@[n] < phases.values@.len(),
{
    let mut list: Vec<usize> = Vec::new();
    let mut i: usize = 0;
    assert(places(list@) =~= Seq::<int>::empty());
    while i < phases.values.len()
        invariant
            i <= phases.values@.len(),
            crate::metrics::are_phases(*phases),
            places(list@) == other_places(*phases, i as nat),
            forall|n: int| 0 <= n < list@.len() ==> #[trigger] list@[n] < phases.values@.len(),
        decreases phases.values@.len() - i,
    {
        proof {
            crate::metrics::lemma_phase_at(*phases, i as int);
        }
        if !is_known_phase(phases.keys[i].parts[0].as_str()) {
            place_kind(&mut list, phases, i);
        }
        i += 1;
    }
    list
}

fn put_other_phases(out: &mut Vec<Item>, phases: &Table<Histogram>)
    requires
        crate::metrics::are_phases(*phases),
    ensures
        exposition::item_views(final(out)@) == exposition::item_views(old(out)@) + flat(
            other_places(*phases, phases.values@.len()),
            |i: int| other_histogram(*phases, i),
        ),
{
    let list = other_phases(phases);
    let ghost before = exposition::item_views(out@);
    let ghost f = |i: int| other_histogram(*phases, i);
    let ghost all = places(list@);
    let mut n: usize = 0;
    assert(before + flat(all.take(0), f) =~= before);
    while n < list.len()
        invariant
            n <= list@.len(),
            crate::metrics::are_phases(*phases),
            all == places(list@),
            f == (|i: int| other_histogram(*phases, i)),
            forall|m: int| 0 <= m < list@.len() ==> #[trigger] list@[m] < phases.values@.len(),
            exposition::item_views(out@) == before + flat(all.take(n as int), f),
        decreases list@.len() - n,
    {
        let i: usize = list[n];
        proof {
            crate::metrics::lemma_phase_at(*phases, i as int);
            lemma_flat_step(all, f, n as int);
        }
        put_histogram(out, "other", phases.keys[i].parts[1].as_str(), &phases.values[i]);
        assert(exposition::item_views(out@) =~= before + flat(all.take(n as int + 1), f));
        n += 1;
    }
    assert(all.take(n as int) =~= all);
}

fn put_phases(out: &mut Vec<Item>, phases: &Table<Histogram>)
    requires
        crate::metrics::are_phases(*phases),
    ensures
        exposition::item_views(final(out)@) == exposition::item_views(old(out)@) + phases_of(
            *phases,
        ),
{
    let ghost before = exposition::item_views(out@);
    let ghost names = PHASES@;
    let ghost f = |phase: &'static str| phase_histograms(*phases, phase@, phases.values@.len());
    out.push(Item { family: catalog::ATTEMPT_PHASE_SECONDS, line: None });
    let ghost headed = exposition::item_views(out@);
    assert(headed =~= before + seq![header(catalog::ATTEMPT_PHASE_SECONDS)]);
    let mut i: usize = 0;
    assert(headed + flat(names.take(0), f) =~= headed);
    while i < 6
        invariant
            i <= 6,
            names == PHASES@,
            names.len() == 6,
            crate::metrics::are_phases(*phases),
            f == (|phase: &'static str| phase_histograms(*phases, phase@, phases.values@.len())),
            exposition::item_views(out@) == headed + flat(names.take(i as int), f),
        decreases 6 - i,
    {
        put_phase(out, phases, PHASES[i]);
        proof {
            lemma_flat_step(names, f, i as int);
            assert(exposition::item_views(out@) =~= headed + flat(names.take(i as int + 1), f));
        }
        i += 1;
    }
    assert(names.take(6) =~= names);
    put_other_phases(out, phases);
    assert(exposition::item_views(out@) =~= before + phases_of(*phases));
}

// ---------------------------------------------------------------------------
// host usage
// ---------------------------------------------------------------------------
/// Busy environments first, idle ones next.
pub open spec fn state_rank(state: Seq<char>) -> int {
    if state == "busy"@ {
        0
    } else if state == "idle"@ {
        1
    } else {
        2
    }
}

/// The order in which environments are shown: by state, then by their ids.
pub open spec fn shown_before<'a>() -> spec_fn(&'a EnvironmentUsage, &'a EnvironmentUsage) -> bool {
    |a: &'a EnvironmentUsage, b: &'a EnvironmentUsage|
        state_rank(a.state@) < state_rank(b.state@) || (state_rank(a.state@) == state_rank(b.state@)
            && text::text_lt(a.environment@, b.environment@))
}

/// The environments that have series.
pub open spec fn shown<'a>(list: Seq<EnvironmentUsage>, limit: usize) -> Seq<&'a EnvironmentUsage> {
    sorting::stable(caps::refs(list), shown_before()).take(caps::kept(list.len(), limit))
}

/// A measure of an environment that a family of its own shows.
#[derive(Debug, Clone, Copy, PartialEq, Eq, Structural)]
pub enum StatField {
    Cpu,
    Memory,
    MemoryPeak,
}

/// The measure, where there is one.
pub open spec fn stat_value(s: EnvironmentStats, field: StatField) -> Option<Value> {
    match field {
        StatField::Cpu => match s.cpu_seconds {
            Some(v) => Some(Value::Real(v)),
            None => None,
        },
        StatField::Memory => match s.memory_current_bytes {
            Some(v) => Some(Value::Count(v)),
            None => None,
        },
        StatField::MemoryPeak => match s.memory_peak_bytes {
            Some(v) => Some(Value::Count(v)),
            None => None,
        },
    }
}

/// The sample of an environment, where there is one.
pub open spec fn stat_item(family: usize, field: StatField, e: &EnvironmentUsage) -> Seq<ItemView> {
    match e.stats {
        Some(s) => match stat_value(s, field) {
            Some(v) => seq![
                sample(
                    family,
                    Suffix::Plain,
                    seq![
                        ("environment"@, e.environment@),
                        ("tenant"@, e.tenant@),
                        ("revision"@, e.revision@),
                        ("state"@, e.state@),
                        ("scope"@, s.scope@),
                    ],
                    v,
                ),
            ],
            None => Seq::empty(),
        },
        None => Seq::empty(),
    }
}

/// A family of the shown environments.
pub open spec fn stat_family(
    family: usize,
    field: StatField,
    list: Seq<&EnvironmentUsage>,
) -> Seq<ItemView> {
    flat(list, |e: &EnvironmentUsage| stat_item(family, field, e))
}

/// How many environments were measured.
pub open spec fn measured(list: Seq<EnvironmentUsage>) -> nat
    decreases list.len(),
{
    if list.len() == 0 {
        0
    } else if list.last().stats is Some {
        measured(list.drop_last()) + 1
    } else {
        measured(list.drop_last())
    }
}

/// Host usage of the shown environments, and how many could be measured.
pub open spec fn stats_of(list: Seq<EnvironmentUsage>, limit: usize) -> Seq<ItemView> {
    let listed = shown(list, limit);
    stat_family(catalog::ENVIRONMENT_CPU_SECONDS_TOTAL, StatField::Cpu, listed) + stat_family(
        catalog::ENVIRONMENT_MEMORY_BYTES,
        StatField::Memory,
        listed,
    ) + stat_family(catalog::ENVIRONMENT_MEMORY_PEAK_BYTES, StatField::MemoryPeak, listed) + seq![
        one(
            catalog::ENVIRONMENT_STATS,
            "result"@,
            "available"@,
            Value::Count(measured(list) as u64),
        ),
        one(
            catalog::ENVIRONMENT_STATS,
            "result"@,
            "unavailable"@,
            Value::Count((list.len() - measured(list)) as u64),
        ),
    ]
}

fn rank(state: &str) -> (r: u8)
    ensures
        r == state_rank(state@),
{
    if text::same_text(state, "busy") {
        0
    } else if text::same_text(state, "idle") {
        1
    } else {
        2
    }
}

fn put_stat_family(
    out: &mut Vec<Item>,
    family: usize,
    field: StatField,
    list: &Vec<&EnvironmentUsage>,
)
    ensures
        exposition::item_views(final(out)@) == exposition::item_views(old(out)@) + stat_family(
            family,
            field,
            list@,
        ),
{
    let ghost before = exposition::item_views(out@);
    let ghost f = |e: &EnvironmentUsage| stat_item(family, field, e);
    let mut i: usize = 0;
    assert(before + flat(list@.take(0), f) =~= before);
    while i < list.len()
        invariant
            i <= list@.len(),
            f == (|e: &EnvironmentUsage| stat_item(family, field, e)),
            exposition::item_views(out@) == before + flat(list@.take(i as int), f),
        decreases list@.len() - i,
    {
        let e = list[i];
        if let Some(s) = &e.stats {
            let v: Option<Value> = match field {
                StatField::Cpu => match s.cpu_seconds {
                    Some(v) => Some(Value::Real(v)),
                    None => None,
                },
                StatField::Memory => match s.memory_current_bytes {
                    Some(v) => Some(Value::Count(v)),
                    None => None,
                },
                StatField::MemoryPeak => match s.memory_peak_bytes {
                    Some(v) => Some(Value::Count(v)),
                    None => None,
                },
            };
            if let Some(v) = v {
                let mut labels: Labels = Vec::new();
                labels.push(("environment", e.environment.clone()));
                labels.push(("tenant", e.tenant.clone()));
                labels.push(("revision", e.revision.clone()));
                labels.push(("state", text::owned(e.state)));
                labels.push(("scope", s.scope.clone()));
                assert(exposition::labels_view(labels@) =~= seq![
                    ("environment"@, e.environment@),
                    ("tenant"@, e.tenant@),
                    ("revision"@, e.revision@),
                    ("state"@, e.state@),
                    ("scope"@, s.scope@),
                ]);
                put(out, family, Suffix::Plain, labels, v);
            }
        }
        proof {
            lemma_flat_step(list@, f, i as int);
            assert(exposition::item_views(out@) =~= before + flat(list@.take(i as int + 1), f));
        }
        i += 1;
    }
    assert(list@.take(i as int) =~= list@);
}

fn count_measured(list: &Vec<EnvironmentUsage>) -> (r: usize)
    ensures
        r == measured(list@),
        r <= list@.len(),
{
    let mut n: usize = 0;
    let mut i: usize = 0;
    while i < list.len()
        invariant
            i <= list@.len(),
            n <= i,
            n == measured(list@.take(i as int)),
        decreases list@.len() - i,
    {
        proof {
            assert(list@.take(i as int + 1).drop_last() =~= list@.take(i as int));
        }
        if list[i].stats.is_some() {
            n += 1;
        }
        i += 1;
    }
    assert(list@.take(i as int) =~= list@);
    n
}

fn put_stats(out: &mut Vec<Item>, list: &Vec<EnvironmentUsage>, limit: usize)
    ensures
        exposition::item_views(final(out)@) == exposition::item_views(old(out)@) + stats_of(
            list@,
            limit,
        ),
{
    let ghost before = exposition::item_views(out@);
    let earlier = |a: &EnvironmentUsage, b: &EnvironmentUsage| -> (c: bool)
        ensures
            c == shown_before()(a, b),
    {
        let x: u8 = rank(a.state);
        let y: u8 = rank(b.state);
        x < y || (x == y && text::text_before(a.environment.as_str(), b.environment.as_str()))
    };
    let all = caps::references(list);
    let mut listed = sorting::sort(&all, earlier, Ghost(shown_before()));
    proof {
        sorting::lemma_stable_total(
            caps::refs(list@),
            shown_before(),
            |e: &EnvironmentUsage| 0nat,
        );
    }
    let ghost sorted = listed@;
    if listed.len() > limit {
        listed.truncate(limit);
    }
    assert(listed@ =~= shown(list@, limit));
    put_stat_family(out, catalog::ENVIRONMENT_CPU_SECONDS_TOTAL, StatField::Cpu, &listed);
    put_stat_family(out, catalog::ENVIRONMENT_MEMORY_BYTES, StatField::Memory, &listed);
    put_stat_family(out, catalog::ENVIRONMENT_MEMORY_PEAK_BYTES, StatField::MemoryPeak, &listed);
    let available: usize = count_measured(list);
    put_one(
        out,
        catalog::ENVIRONMENT_STATS,
        "result",
        "available",
        Value::Count(available as u64),
    );
    put_one(
        out,
        catalog::ENVIRONMENT_STATS,
        "result",
        "unavailable",
        Value::Count((list.len() - available) as u64),
    );
    assert(exposition::item_views(out@) =~= before + stats_of(list@, limit));
}

// ---------------------------------------------------------------------------
// sections
// ---------------------------------------------------------------------------
/// The instants that remaining times are reckoned from.
pub open spec fn times_fit(input: &MetricsInput) -> bool {
    &&& time::in_calendar(input.now)
    &&& time::opt_in_calendar(input.config.config_valid_until)
    &&& time::opt_in_calendar(input.config.auth_valid_until)
}

/// The gateway and its pool.
pub open spec fn about(input: &MetricsInput) -> Seq<ItemView> {
    seq![
        one(catalog::BUILD_INFO, "version"@, input.version@, Value::Count(1)),
        two(
            catalog::ENVIRONMENT_REUSE_MODE,
            "provider"@,
            input.provider@,
            "mode"@,
            "warm_reuse"@,
            flag(input.reuse_enabled),
        ),
        two(
            catalog::ENVIRONMENT_REUSE_MODE,
            "provider"@,
            input.provider@,
            "mode"@,
            "every_invocation_boots"@,
            flag(!input.reuse_enabled),
        ),
        plain(catalog::POOL_REUSE_ENABLED, flag(input.reuse_enabled)),
        plain(catalog::POOL_HELD_ENVIRONMENTS, Value::Count(input.pool_held)),
        plain(catalog::POOL_QUIESCING_ENVIRONMENTS, Value::Count(input.pool_quiescing)),
    ]
}

fn put_about(out: &mut Vec<Item>, input: &MetricsInput)
    ensures
        exposition::item_views(final(out)@) == exposition::item_views(old(out)@) + about(input),
{
    let ghost before = exposition::item_views(out@);
    put_one(out, catalog::BUILD_INFO, "version", input.version.as_str(), Value::Count(1));
    put_two(
        out,
        catalog::ENVIRONMENT_REUSE_MODE,
        "provider",
        input.provider.as_str(),
        "mode",
        "warm_reuse",
        flag_of(input.reuse_enabled),
    );
    put_two(
        out,
        catalog::ENVIRONMENT_REUSE_MODE,
        "provider",
        input.provider.as_str(),
        "mode",
        "every_invocation_boots",
        flag_of(!input.reuse_enabled),
    );
    put_plain(out, catalog::POOL_REUSE_ENABLED, flag_of(input.reuse_enabled));
    put_plain(out, catalog::POOL_HELD_ENVIRONMENTS, Value::Count(input.pool_held));
    put_plain(out, catalog::POOL_QUIESCING_ENVIRONMENTS, Value::Count(input.pool_quiescing));
    assert(exposition::item_views(out@) =~= before + about(input));
}

/// The node: its capacity, what is reserved of it and its environments.
pub open spec fn node(a: &AdmissionMetrics) -> Seq<ItemView> {
    seq![
            one(catalog::NODE_INFO, "node"@, a.node_name@, Value::Count(1)),
        ]
        + (match a.capacity.cpu_millis {
            Some(v) => seq![plain(catalog::NODE_CAPACITY_CPU_MILLICORES, Value::Count(v))],
            None => Seq::empty(),
        })
        + (match a.capacity.memory_mib {
            Some(v) => seq![plain(catalog::NODE_CAPACITY_MEMORY_BYTES, mib_of(v))],
            None => Seq::empty(),
        })
        + (match a.capacity.ephemeral_storage_mib {
            Some(v) => seq![plain(catalog::NODE_CAPACITY_EPHEMERAL_STORAGE_BYTES, mib_of(v))],
            None => Seq::empty(),
        })
        + seq![
            plain(catalog::NODE_RESERVED_CPU_MILLICORES, Value::Count(a.reserved.cpu_millis)),
            plain(catalog::NODE_RESERVED_MEMORY_BYTES, mib_of(a.reserved.memory_mib)),
            plain(catalog::NODE_RESERVED_EPHEMERAL_STORAGE_BYTES, mib_of(a.reserved.ephemeral_storage_mib)),
            plain(catalog::NODE_ENVIRONMENT_OVERHEAD_MEMORY_BYTES, mib_of(a.overhead.memory_mib)),
            plain(catalog::NODE_MAX_CONCURRENCY, Value::Count(a.max_concurrency)),
            plain(catalog::NODE_IN_FLIGHT, Value::Count(a.in_flight)),
        ]
        + node_states(a.environments)
}

fn put_node(out: &mut Vec<Item>, a: &AdmissionMetrics)
    ensures
        exposition::item_views(final(out)@) == exposition::item_views(old(out)@) + node(a),
{
    let ghost before = exposition::item_views(out@);
    put_one(out, catalog::NODE_INFO, "node", a.node_name.as_str(), Value::Count(1));
    if let Some(v) = a.capacity.cpu_millis {
        put_plain(out, catalog::NODE_CAPACITY_CPU_MILLICORES, Value::Count(v));
    }
    if let Some(v) = a.capacity.memory_mib {
        put_plain(out, catalog::NODE_CAPACITY_MEMORY_BYTES, mib(v));
    }
    if let Some(v) = a.capacity.ephemeral_storage_mib {
        put_plain(out, catalog::NODE_CAPACITY_EPHEMERAL_STORAGE_BYTES, mib(v));
    }
    put_plain(out, catalog::NODE_RESERVED_CPU_MILLICORES, Value::Count(a.reserved.cpu_millis));
    put_plain(out, catalog::NODE_RESERVED_MEMORY_BYTES, mib(a.reserved.memory_mib));
    put_plain(
        out,
        catalog::NODE_RESERVED_EPHEMERAL_STORAGE_BYTES,
        mib(a.reserved.ephemeral_storage_mib),
    );
    put_plain(out, catalog::NODE_ENVIRONMENT_OVERHEAD_MEMORY_BYTES, mib(a.overhead.memory_mib));
    put_plain(out, catalog::NODE_MAX_CONCURRENCY, Value::Count(a.max_concurrency));
    put_plain(out, catalog::NODE_IN_FLIGHT, Value::Count(a.in_flight));
    put_node_states(out, &a.environments);
    assert(exposition::item_views(out@) =~= before + node(a));
}

/// The admission queue.
pub open spec fn queue(a: &AdmissionMetrics) -> Seq<ItemView> {
    seq![
            plain(catalog::QUEUE_LENGTH, Value::Count(a.queue_length)),
            plain(catalog::QUEUE_BYTES, Value::Count(a.queue_bytes)),
            plain(catalog::QUEUE_MAX_LENGTH, Value::Count(a.max_queue)),
            plain(catalog::QUEUE_MAX_BYTES, Value::Count(a.max_queue_bytes)),
            plain(catalog::QUEUE_OLDEST_AGE_SECONDS, wait(a.oldest_wait_seconds)),
        ]
}

fn put_queue(out: &mut Vec<Item>, a: &AdmissionMetrics)
    ensures
        exposition::item_views(final(out)@) == exposition::item_views(old(out)@) + queue(a),
{
    let ghost before = exposition::item_views(out@);
    put_plain(out, catalog::QUEUE_LENGTH, Value::Count(a.queue_length));
    put_plain(out, catalog::QUEUE_BYTES, Value::Count(a.queue_bytes));
    put_plain(out, catalog::QUEUE_MAX_LENGTH, Value::Count(a.max_queue));
    put_plain(out, catalog::QUEUE_MAX_BYTES, Value::Count(a.max_queue_bytes));
    put_plain(out, catalog::QUEUE_OLDEST_AGE_SECONDS, wait_of(a.oldest_wait_seconds));
    assert(exposition::item_views(out@) =~= before + queue(a));
}

/// Admission events.
pub open spec fn admission(a: &AdmissionMetrics) -> Seq<ItemView> {
    seq![
            plain(catalog::START_RATE_TOKENS, Value::Count(a.start_tokens as u64)),
            plain(catalog::ADMISSION_ARRIVALS_TOTAL, Value::Count(a.counters.arrivals)),
            one(catalog::ADMISSION_GRANTS_TOTAL, "kind"@, "cold"@, Value::Count(a.counters.grants_cold)),
            one(catalog::ADMISSION_GRANTS_TOTAL, "kind"@, "warm"@, Value::Count(a.counters.grants_warm)),
        ]
        + counts(catalog::ADMISSION_REJECTIONS_TOTAL, "reason"@, REJECT_REASONS@, &a.rejections)
        + seq![
            plain(catalog::ADMISSION_COALESCED_WAITS_TOTAL, Value::Count(a.counters.coalesced_waits)),
            plain(catalog::ADMISSION_STARTS_AVOIDED_TOTAL, Value::Count(a.counters.starts_avoided)),
            one(catalog::ENVIRONMENT_STARTS_TOTAL, "result"@, "success"@, Value::Count(a.counters.start_successes)),
            one(catalog::ENVIRONMENT_STARTS_TOTAL, "result"@, "failure"@, Value::Count(a.counters.start_failures)),
            plain(catalog::CIRCUIT_BREAKER_OPENS_TOTAL, Value::Count(a.counters.breaker_opens)),
        ]
        + by_kind(catalog::SCALE_EVENTS_TOTAL, "kind"@, "reason"@, "none"@, SCALE_KINDS@, &a.counters.scale_events)
}

fn put_admission(out: &mut Vec<Item>, a: &AdmissionMetrics)
    requires
        a.rejections.wf(),
        a.counters.scale_events.wf(),
    ensures
        exposition::item_views(final(out)@) == exposition::item_views(old(out)@) + admission(a),
{
    let ghost before = exposition::item_views(out@);
    put_plain(out, catalog::START_RATE_TOKENS, Value::Count(a.start_tokens as u64));
    put_plain(out, catalog::ADMISSION_ARRIVALS_TOTAL, Value::Count(a.counters.arrivals));
    put_one(
        out,
        catalog::ADMISSION_GRANTS_TOTAL,
        "kind",
        "cold",
        Value::Count(a.counters.grants_cold),
    );
    put_one(
        out,
        catalog::ADMISSION_GRANTS_TOTAL,
        "kind",
        "warm",
        Value::Count(a.counters.grants_warm),
    );
    put_counts(out, catalog::ADMISSION_REJECTIONS_TOTAL, "reason", &REJECT_REASONS, &a.rejections);
    put_plain(
        out,
        catalog::ADMISSION_COALESCED_WAITS_TOTAL,
        Value::Count(a.counters.coalesced_waits),
    );
    put_plain(
        out,
        catalog::ADMISSION_STARTS_AVOIDED_TOTAL,
        Value::Count(a.counters.starts_avoided),
    );
    put_one(
        out,
        catalog::ENVIRONMENT_STARTS_TOTAL,
        "result",
        "success",
        Value::Count(a.counters.start_successes),
    );
    put_one(
        out,
        catalog::ENVIRONMENT_STARTS_TOTAL,
        "result",
        "failure",
        Value::Count(a.counters.start_failures),
    );
    put_plain(out, catalog::CIRCUIT_BREAKER_OPENS_TOTAL, Value::Count(a.counters.breaker_opens));
    put_by_kind(
        out,
        catalog::SCALE_EVENTS_TOTAL,
        "kind",
        "reason",
        "none",
        &SCALE_KINDS,
        &a.counters.scale_events,
    );
    assert(exposition::item_views(out@) =~= before + admission(a));
}

/// Refused invocations, attempts, their phases and the boots they ran in.
pub open spec fn attempts(e: &MetricsSnapshot) -> Seq<ItemView> {
    refusals(&e.gate_refusals)
        + by_kind(catalog::ATTEMPTS_TOTAL, "start_kind"@, "status"@, "succeeded"@, START_KINDS@, &e.attempts)
        + phases_of(e.phases)
        + seq![
            one(catalog::BOOT_IDENTITY_CHECKS_TOTAL, "result"@, "first_boot"@, Value::Count(e.boot_checks.first_boot)),
            one(catalog::BOOT_IDENTITY_CHECKS_TOTAL, "result"@, "same_boot"@, Value::Count(e.boot_checks.same_boot)),
            one(catalog::BOOT_IDENTITY_CHECKS_TOTAL, "result"@, "boot_changed"@, Value::Count(e.boot_checks.boot_changed)),
            one(catalog::BOOT_IDENTITY_CHECKS_TOTAL, "result"@, "unreported"@, Value::Count(e.boot_checks.unreported)),
        ]
}

fn put_attempts(out: &mut Vec<Item>, e: &MetricsSnapshot)
    requires
        e.wf(),
    ensures
        exposition::item_views(final(out)@) == exposition::item_views(old(out)@) + attempts(e),
{
    let ghost before = exposition::item_views(out@);
    put_refusals(out, &e.gate_refusals);
    put_by_kind(
        out,
        catalog::ATTEMPTS_TOTAL,
        "start_kind",
        "status",
        "succeeded",
        &START_KINDS,
        &e.attempts,
    );
    put_phases(out, &e.phases);
    put_one(
        out,
        catalog::BOOT_IDENTITY_CHECKS_TOTAL,
        "result",
        "first_boot",
        Value::Count(e.boot_checks.first_boot),
    );
    put_one(
        out,
        catalog::BOOT_IDENTITY_CHECKS_TOTAL,
        "result",
        "same_boot",
        Value::Count(e.boot_checks.same_boot),
    );
    put_one(
        out,
        catalog::BOOT_IDENTITY_CHECKS_TOTAL,
        "result",
        "boot_changed",
        Value::Count(e.boot_checks.boot_changed),
    );
    put_one(
        out,
        catalog::BOOT_IDENTITY_CHECKS_TOTAL,
        "result",
        "unreported",
        Value::Count(e.boot_checks.unreported),
    );
    assert(exposition::item_views(out@) =~= before + attempts(e));
}

/// Host usage of the environments.
pub open spec fn host(input: &MetricsInput) -> Seq<ItemView> {
    stats_of(input.environments@, input.limits.environments)
        + seq![
            plain(catalog::IDLE_ENVIRONMENT_CPU_SECONDS_TOTAL, Value::Real(input.events.idle_cpu_seconds)),
            plain(catalog::IDLE_ENVIRONMENT_CPU_RATIO_MAX, Value::Real(input.events.idle_round.max_ratio)),
            plain(catalog::IDLE_ENVIRONMENTS_SAMPLED, Value::Count(input.events.idle_round.sampled)),
        ]
}

fn put_host(out: &mut Vec<Item>, input: &MetricsInput)
    ensures
        exposition::item_views(final(out)@) == exposition::item_views(old(out)@) + host(input),
{
    let ghost before = exposition::item_views(out@);
    put_stats(out, &input.environments, input.limits.environments);
    put_plain(
        out,
        catalog::IDLE_ENVIRONMENT_CPU_SECONDS_TOTAL,
        Value::Real(input.events.idle_cpu_seconds),
    );
    put_plain(
        out,
        catalog::IDLE_ENVIRONMENT_CPU_RATIO_MAX,
        Value::Real(input.events.idle_round.max_ratio),
    );
    put_plain(
        out,
        catalog::IDLE_ENVIRONMENTS_SAMPLED,
        Value::Count(input.events.idle_round.sampled),
    );
    assert(exposition::item_views(out@) =~= before + host(input));
}

/// The dispatcher and its configuration.
pub open spec fn dispatcher(input: &MetricsInput) -> Seq<ItemView> {
    seq![
            plain(catalog::DISPATCHER_FENCED, flag(input.dispatcher_fenced)),
        ]
        + counts(catalog::DISPATCHER_HEARTBEATS_TOTAL, "result"@, HEARTBEAT_RESULTS@, &input.events.heartbeats)
        + seq![
            plain(catalog::DISPATCHER_SLOT_LEASE_RENEWALS_TOTAL, Value::Count(input.events.slot_lease_renewals)),
            plain(catalog::CONFIG_GENERATION, Value::Count(input.config.generation)),
            plain(catalog::CONFIG_SYNCED, flag(input.config.ever_synced)),
            plain(catalog::CONFIG_CONSECUTIVE_FAILURES, Value::Count(input.config.consecutive_failures as u64)),
        ]
        + (match input.config.config_valid_until {
            Some(v) => seq![plain(catalog::CONFIG_VALID_REMAINING_SECONDS, until(v, input.now))],
            None => Seq::empty(),
        })
        + (match input.config.auth_valid_until {
            Some(v) => seq![plain(catalog::AUTH_LEASE_REMAINING_SECONDS, until(v, input.now))],
            None => Seq::empty(),
        })
        + seq![
            plain(catalog::CONFIG_RECONNECTS_TOTAL, Value::Count(input.config.reconnects)),
            plain(catalog::CONFIG_ENTRIES, Value::Count(input.config.entries)),
        ]
}

fn put_dispatcher(out: &mut Vec<Item>, input: &MetricsInput)
    requires
        input.events.wf(),
        times_fit(input),
    ensures
        exposition::item_views(final(out)@) == exposition::item_views(old(out)@) + dispatcher(input),
{
    let ghost before = exposition::item_views(out@);
    put_plain(out, catalog::DISPATCHER_FENCED, flag_of(input.dispatcher_fenced));
    put_counts(
        out,
        catalog::DISPATCHER_HEARTBEATS_TOTAL,
        "result",
        &HEARTBEAT_RESULTS,
        &input.events.heartbeats,
    );
    put_plain(
        out,
        catalog::DISPATCHER_SLOT_LEASE_RENEWALS_TOTAL,
        Value::Count(input.events.slot_lease_renewals),
    );
    put_plain(out, catalog::CONFIG_GENERATION, Value::Count(input.config.generation));
    put_plain(out, catalog::CONFIG_SYNCED, flag_of(input.config.ever_synced));
    put_plain(
        out,
        catalog::CONFIG_CONSECUTIVE_FAILURES,
        Value::Count(input.config.consecutive_failures as u64),
    );
    if let Some(v) = input.config.config_valid_until {
        put_plain(out, catalog::CONFIG_VALID_REMAINING_SECONDS, until_of(v, input.now));
    }
    if let Some(v) = input.config.auth_valid_until {
        put_plain(out, catalog::AUTH_LEASE_REMAINING_SECONDS, until_of(v, input.now));
    }
    put_plain(out, catalog::CONFIG_RECONNECTS_TOTAL, Value::Count(input.config.reconnects));
    put_plain(out, catalog::CONFIG_ENTRIES, Value::Count(input.config.entries));
    assert(exposition::item_views(out@) =~= before + dispatcher(input));
}

/// The triggers.
pub open spec fn triggers(t: &TriggerMetricsSnapshot) -> Seq<ItemView> {
    seq![
            plain(catalog::TRIGGER_SCHEDULER_OWNER, flag(t.scheduler_owner)),
        ]
        + counts(catalog::TRIGGER_CRON_FIRES_TOTAL, "result"@, CRON_RESULTS@, &t.cron)
        + counts(catalog::TRIGGER_CRON_MISSED_RUNS_TOTAL, "action"@, MISSED_ACTIONS@, &t.missed)
        + counts(catalog::TRIGGER_WEBHOOK_DELIVERIES_TOTAL, "result"@, WEBHOOK_RESULTS@, &t.webhook)
}

fn put_triggers(out: &mut Vec<Item>, t: &TriggerMetricsSnapshot)
    requires
        t.cron.wf(),
        t.missed.wf(),
        t.webhook.wf(),
    ensures
        exposition::item_views(final(out)@) == exposition::item_views(old(out)@) + triggers(t),
{
    let ghost before = exposition::item_views(out@);
    put_plain(out, catalog::TRIGGER_SCHEDULER_OWNER, flag_of(t.scheduler_owner));
    put_counts(out, catalog::TRIGGER_CRON_FIRES_TOTAL, "result", &CRON_RESULTS, &t.cron);
    put_counts(out, catalog::TRIGGER_CRON_MISSED_RUNS_TOTAL, "action", &MISSED_ACTIONS, &t.missed);
    put_counts(
        out,
        catalog::TRIGGER_WEBHOOK_DELIVERIES_TOTAL,
        "result",
        &WEBHOOK_RESULTS,
        &t.webhook,
    );
    assert(exposition::item_views(out@) =~= before + triggers(t));
}

/// The outbox and the queue behind it.
pub open spec fn outbox(o: &OutboxMetrics, now: Timestamp) -> Seq<ItemView> {
    seq![
            plain(catalog::ASYNC_OUTBOX_PENDING_EVENTS, Value::Count(o.pending)),
            plain(catalog::ASYNC_OUTBOX_OLDEST_PENDING_AGE_SECONDS, age(o.oldest_pending_at, now)),
            plain(catalog::ASYNC_OUTBOX_SENT_RETAINED_EVENTS, Value::Count(o.sent_retained)),
            one(catalog::ASYNC_QUEUE_CONDITION, "condition"@, "healthy"@, flag(o.queue_condition@ == "healthy"@)),
            one(catalog::ASYNC_QUEUE_CONDITION, "condition"@, "full"@, flag(o.queue_condition@ == "full"@)),
            one(catalog::ASYNC_QUEUE_CONDITION, "condition"@, "unavailable"@, flag(o.queue_condition@ == "unavailable"@)),
        ]
}

fn put_outbox(out: &mut Vec<Item>, o: &OutboxMetrics, now: Timestamp)
    requires
        time::in_calendar(now),
        time::opt_in_calendar(o.oldest_pending_at),
    ensures
        exposition::item_views(final(out)@) == exposition::item_views(old(out)@) + outbox(o, now),
{
    let ghost before = exposition::item_views(out@);
    put_plain(out, catalog::ASYNC_OUTBOX_PENDING_EVENTS, Value::Count(o.pending));
    put_plain(
        out,
        catalog::ASYNC_OUTBOX_OLDEST_PENDING_AGE_SECONDS,
        age_of(o.oldest_pending_at, now),
    );
    put_plain(out, catalog::ASYNC_OUTBOX_SENT_RETAINED_EVENTS, Value::Count(o.sent_retained));
    put_one(
        out,
        catalog::ASYNC_QUEUE_CONDITION,
        "condition",
        "healthy",
        flag_of(text::same_text(o.queue_condition, "healthy")),
    );
    put_one(
        out,
        catalog::ASYNC_QUEUE_CONDITION,
        "condition",
        "full",
        flag_of(text::same_text(o.queue_condition, "full")),
    );
    put_one(
        out,
        catalog::ASYNC_QUEUE_CONDITION,
        "condition",
        "unavailable",
        flag_of(text::same_text(o.queue_condition, "unavailable")),
    );
    assert(exposition::item_views(out@) =~= before + outbox(o, now));
}

/// The journal of the usage metering.
pub open spec fn usage_journal(u: &UsageMetrics) -> Seq<ItemView> {
    seq![
        plain(catalog::USAGE_JOURNAL_HEALTHY, flag(u.journal_healthy)),
        plain(catalog::USAGE_JOURNAL_ADMITTING, flag(u.journal_admitting)),
        plain(catalog::USAGE_JOURNAL_PENDING_EVENTS, Value::Count(u.journal_pending_events)),
        plain(catalog::USAGE_JOURNAL_PENDING_BYTES, Value::Count(u.journal_pending_bytes)),
        plain(catalog::USAGE_JOURNAL_MAX_EVENTS, Value::Count(u.journal_max_events)),
        plain(catalog::USAGE_JOURNAL_MAX_BYTES, Value::Count(u.journal_max_bytes)),
        plain(catalog::USAGE_UNJOURNALED_EVENTS_TOTAL, Value::Count(u.unjournaled_events)),
    ]
}

/// The collector of the usage metering.
pub open spec fn usage_collector(u: &UsageMetrics, now: Timestamp) -> Seq<ItemView> {
    seq![
        plain(catalog::USAGE_COLLECTOR_RUNS_TOTAL, Value::Count(u.collector_runs)),
        plain(catalog::USAGE_COLLECTOR_FAILING, flag(u.collector_failing)),
    ] + (match u.collector_last_success_at {
        Some(v) => seq![
            plain(catalog::USAGE_COLLECTOR_LAST_SUCCESS_AGE_SECONDS, age(Some(v), now)),
        ],
        None => Seq::empty(),
    }) + seq![
        plain(catalog::USAGE_COLLECTOR_DELIVERED_EVENTS_TOTAL, Value::Count(u.collector_delivered)),
    ]
}

/// The ledger of the usage metering.
pub open spec fn usage_ledger(u: &UsageMetrics) -> Seq<ItemView> {
    (match u.ledger_events {
        Some(v) => seq![plain(catalog::USAGE_LEDGER_EVENTS, Value::Count(v))],
        None => Seq::empty(),
    }) + (match u.ledger_duplicates_ignored {
        Some(v) => seq![plain(catalog::USAGE_LEDGER_DUPLICATES_IGNORED_TOTAL, Value::Count(v))],
        None => Seq::empty(),
    })
}

/// Usage metering.
pub open spec fn usage(u: &UsageMetrics, now: Timestamp) -> Seq<ItemView> {
    usage_journal(u) + usage_collector(u, now) + usage_ledger(u)
}

fn put_usage_journal(out: &mut Vec<Item>, u: &UsageMetrics)
    ensures
        exposition::item_views(final(out)@) == exposition::item_views(old(out)@) + usage_journal(u),
{
    let ghost before = exposition::item_views(out@);
    put_plain(out, catalog::USAGE_JOURNAL_HEALTHY, flag_of(u.journal_healthy));
    put_plain(out, catalog::USAGE_JOURNAL_ADMITTING, flag_of(u.journal_admitting));
    put_plain(out, catalog::USAGE_JOURNAL_PENDING_EVENTS, Value::Count(u.journal_pending_events));
    put_plain(out, catalog::USAGE_JOURNAL_PENDING_BYTES, Value::Count(u.journal_pending_bytes));
    put_plain(out, catalog::USAGE_JOURNAL_MAX_EVENTS, Value::Count(u.journal_max_events));
    put_plain(out, catalog::USAGE_JOURNAL_MAX_BYTES, Value::Count(u.journal_max_bytes));
    put_plain(out, catalog::USAGE_UNJOURNALED_EVENTS_TOTAL, Value::Count(u.unjournaled_events));
    assert(exposition::item_views(out@) =~= before + usage_journal(u));
}

fn put_usage_collector(out: &mut Vec<Item>, u: &UsageMetrics, now: Timestamp)
    requires
        time::in_calendar(now),
        time::opt_in_calendar(u.collector_last_success_at),
    ensures
        exposition::item_views(final(out)@) == exposition::item_views(old(out)@) + usage_collector(
            u,
            now,
        ),
{
    let ghost before = exposition::item_views(out@);
    put_plain(out, catalog::USAGE_COLLECTOR_RUNS_TOTAL, Value::Count(u.collector_runs));
    put_plain(out, catalog::USAGE_COLLECTOR_FAILING, flag_of(u.collector_failing));
    if let Some(v) = u.collector_last_success_at {
        put_plain(out, catalog::USAGE_COLLECTOR_LAST_SUCCESS_AGE_SECONDS, age_of(Some(v), now));
    }
    put_plain(
        out,
        catalog::USAGE_COLLECTOR_DELIVERED_EVENTS_TOTAL,
        Value::Count(u.collector_delivered),
    );
    assert(exposition::item_views(out@) =~= before + usage_collector(u, now));
}

fn put_usage(out: &mut Vec<Item>, u: &UsageMetrics, now: Timestamp)
    requires
        time::in_calendar(now),
        time::opt_in_calendar(u.collector_last_success_at),
    ensures
        exposition::item_views(final(out)@) == exposition::item_views(old(out)@) + usage(u, now),
{
    let ghost before = exposition::item_views(out@);
    put_usage_journal(out, u);
    put_usage_collector(out, u, now);
    let ghost middle = exposition::item_views(out@);
    if let Some(v) = u.ledger_events {
        put_plain(out, catalog::USAGE_LEDGER_EVENTS, Value::Count(v));
    }
    if let Some(v) = u.ledger_duplicates_ignored {
        put_plain(out, catalog::USAGE_LEDGER_DUPLICATES_IGNORED_TOTAL, Value::Count(v));
    }
    assert(exposition::item_views(out@) =~= middle + usage_ledger(u));
    assert(exposition::item_views(out@) =~= before + usage(u, now));
}

/// The asynchronous dispatcher.
pub open spec fn dispatch(d: &AsyncDispatchSnapshot) -> Seq<ItemView> {
    counts(catalog::ASYNC_DISPATCH_DELIVERIES_TOTAL, "outcome"@, DELIVERY_OUTCOMES@, &d.deliveries)
        + operations(&d.queue_operations)
        + seq![
            plain(catalog::ASYNC_DISPATCH_RUNS_IN_FLIGHT, Value::Count(d.in_flight)),
        ]
        + counts(catalog::ASYNC_RETRIES_SCHEDULED_TOTAL, "kind"@, RETRY_KINDS@, &d.retries)
        + counts(catalog::ASYNC_DEAD_LETTERS_TOTAL, "reason"@, DEAD_LETTER_REASONS@, &d.dead_letters)
        + seq![
            plain(catalog::ASYNC_REDRIVES_TOTAL, Value::Count(d.redrives)),
        ]
        + counts(catalog::ASYNC_REAPER_ACTIONS_TOTAL, "action"@, REAPER_ACTIONS@, &d.reaper)
}

fn put_dispatch(out: &mut Vec<Item>, d: &AsyncDispatchSnapshot)
    requires
        d.wf(),
    ensures
        exposition::item_views(final(out)@) == exposition::item_views(old(out)@) + dispatch(d),
{
    let ghost before = exposition::item_views(out@);
    put_counts(
        out,
        catalog::ASYNC_DISPATCH_DELIVERIES_TOTAL,
        "outcome",
        &DELIVERY_OUTCOMES,
        &d.deliveries,
    );
    put_operations(out, &d.queue_operations);
    put_plain(out, catalog::ASYNC_DISPATCH_RUNS_IN_FLIGHT, Value::Count(d.in_flight));
    put_counts(out, catalog::ASYNC_RETRIES_SCHEDULED_TOTAL, "kind", &RETRY_KINDS, &d.retries);
    put_counts(
        out,
        catalog::ASYNC_DEAD_LETTERS_TOTAL,
        "reason",
        &DEAD_LETTER_REASONS,
        &d.dead_letters,
    );
    put_plain(out, catalog::ASYNC_REDRIVES_TOTAL, Value::Count(d.redrives));
    put_counts(out, catalog::ASYNC_REAPER_ACTIONS_TOTAL, "action", &REAPER_ACTIONS, &d.reaper);
    assert(exposition::item_views(out@) =~= before + dispatch(d));
}

/// The series that the caps folded away.
pub open spec fn truncated(input: &MetricsInput) -> Seq<ItemView> {
    let folded = |len: nat, limit: usize| Value::Count((len - caps::kept(len, limit)) as u64);
    seq![
        one(
            catalog::METRICS_SERIES_TRUNCATED,
            "dimension"@,
            "revision"@,
            folded(input.admission.revisions@.len(), input.limits.revisions),
        ),
        one(
            catalog::METRICS_SERIES_TRUNCATED,
            "dimension"@,
            "tenant"@,
            folded(input.admission.tenants@.len(), input.limits.tenants),
        ),
        one(
            catalog::METRICS_SERIES_TRUNCATED,
            "dimension"@,
            "environment"@,
            folded(input.environments@.len(), input.limits.environments),
        ),
    ]
}

/// The triggers of a gateway that has them.
pub open spec fn triggers_of(input: &MetricsInput) -> Seq<ItemView> {
    match input.triggers {
        Some(t) => triggers(&t),
        None => Seq::empty(),
    }
}

/// The outbox of a gateway that has one.
pub open spec fn outbox_of(input: &MetricsInput) -> Seq<ItemView> {
    match input.outbox {
        Some(o) => outbox(&o, input.now),
        None => Seq::empty(),
    }
}

/// The usage of a gateway that reports it.
pub open spec fn usage_of(input: &MetricsInput) -> Seq<ItemView> {
    match input.usage {
        Some(u) => usage(&u, input.now),
        None => Seq::empty(),
    }
}

/// The asynchronous dispatch of a gateway that has it.
pub open spec fn dispatch_of(input: &MetricsInput) -> Seq<ItemView> {
    match input.dispatch {
        Some(d) => dispatch(&d),
        None => Seq::empty(),
    }
}

/// Everything that a gateway does not always have.
pub open spec fn optional(input: &MetricsInput) -> Seq<ItemView> {
    triggers_of(input) + outbox_of(input) + usage_of(input) + dispatch_of(input)
}

/// The samples of one exposition.
pub open spec fn samples_of(input: &MetricsInput) -> Seq<ItemView> {
    about(input) + node(&input.admission) + revisions(
        caps::revision_rows(input.admission.revisions@, input.limits.revisions),
    ) + queue(&input.admission) + tenants(
        caps::tenant_rows(input.admission.tenants@, input.limits.tenants),
    ) + admission(&input.admission) + attempts(&input.events) + host(input) + dispatcher(input)
        + optional(input) + truncated(input)
}

/// What can be rendered: counters are tallies, the numbers of what is folded
/// add up, and every instant is one that dates can name.
pub open spec fn renderable(input: &MetricsInput) -> bool {
    &&& input.events.wf()
    &&& input.admission.rejections.wf()
    &&& input.admission.counters.scale_events.wf()
    &&& caps::revisions_fit(
        caps::ranked_revisions(input.admission.revisions@).skip(
            caps::kept(input.admission.revisions@.len(), input.limits.revisions),
        ),
    )
    &&& caps::tenants_fit(
        caps::ranked_tenants(input.admission.tenants@).skip(
            caps::kept(input.admission.tenants@.len(), input.limits.tenants),
        ),
    )
    &&& times_fit(input)
    &&& match input.triggers {
        Some(t) => t.cron.wf() && t.missed.wf() && t.webhook.wf(),
        None => true,
    }
    &&& match input.outbox {
        Some(o) => time::opt_in_calendar(o.oldest_pending_at),
        None => true,
    }
    &&& match input.usage {
        Some(u) => time::opt_in_calendar(u.collector_last_success_at),
        None => true,
    }
    &&& match input.dispatch {
        Some(d) => d.wf(),
        None => true,
    }
}

fn put_optional(out: &mut Vec<Item>, input: &MetricsInput)
    requires
        renderable(input),
    ensures
        exposition::item_views(final(out)@) == exposition::item_views(old(out)@) + optional(input),
{
    let ghost before = exposition::item_views(out@);
    if let Some(t) = &input.triggers {
        put_triggers(out, t);
    }
    assert(exposition::item_views(out@) =~= before + triggers_of(input));
    let ghost before_outbox = exposition::item_views(out@);
    if let Some(o) = &input.outbox {
        put_outbox(out, o, input.now);
    }
    assert(exposition::item_views(out@) =~= before_outbox + outbox_of(input));
    let ghost before_usage = exposition::item_views(out@);
    if let Some(u) = &input.usage {
        put_usage(out, u, input.now);
    }
    assert(exposition::item_views(out@) =~= before_usage + usage_of(input));
    let ghost before_dispatch = exposition::item_views(out@);
    if let Some(d) = &input.dispatch {
        put_dispatch(out, d);
    }
    assert(exposition::item_views(out@) =~= before_dispatch + dispatch_of(input));
    assert(exposition::item_views(out@) =~= before + optional(input));
}

fn put_truncated(
    out: &mut Vec<Item>,
    input: &MetricsInput,
    folded_revisions: usize,
    folded_tenants: usize,
)
    requires
        folded_revisions == input.admission.revisions@.len() - caps::kept(
            input.admission.revisions@.len(),
            input.limits.revisions,
        ),
        folded_tenants == input.admission.tenants@.len() - caps::kept(
            input.admission.tenants@.len(),
            input.limits.tenants,
        ),
    ensures
        exposition::item_views(final(out)@) == exposition::item_views(old(out)@) + truncated(input),
{
    let ghost before = exposition::item_views(out@);
    let folded_environments: usize = if input.environments.len() > input.limits.environments {
        input.environments.len() - input.limits.environments
    } else {
        0
    };
    put_one(
        out,
        catalog::METRICS_SERIES_TRUNCATED,
        "dimension",
        "revision",
        Value::Count(folded_revisions as u64),
    );
    put_one(
        out,
        catalog::METRICS_SERIES_TRUNCATED,
        "dimension",
        "tenant",
        Value::Count(folded_tenants as u64),
    );
    put_one(
        out,
        catalog::METRICS_SERIES_TRUNCATED,
        "dimension",
        "environment",
        Value::Count(folded_environments as u64),
    );
    assert(exposition::item_views(out@) =~= before + truncated(input));
}

/// The samples of one exposition.
pub fn samples(input: &MetricsInput) -> (r: Vec<Item>)
    requires
        renderable(input),
    ensures
        exposition::item_views(r@) == samples_of(input),
{
    let mut items: Vec<Item> = Vec::new();
    put_about(&mut items, input);
    assert(exposition::item_views(items@) =~= about(input));
    put_node(&mut items, &input.admission);
    let (rows, folded_revisions) = caps::cap_revisions(
        &input.admission.revisions,
        input.limits.revisions,
    );
    put_revisions(&mut items, &rows);
    put_queue(&mut items, &input.admission);
    let (tenant_rows, folded_tenants) = caps::cap_tenants(
        &input.admission.tenants,
        input.limits.tenants,
    );
    put_tenants(&mut items, &tenant_rows);
    put_admission(&mut items, &input.admission);
    put_attempts(&mut items, &input.events);
    put_host(&mut items, input);
    put_dispatcher(&mut items, input);
    put_optional(&mut items, input);
    put_truncated(&mut items, input, folded_revisions, folded_tenants);
    items
}

/// Render one exposition. Values other than small counts are written by
/// `number`.
pub fn render<N: Fn(Value) -> String>(input: &MetricsInput, number: N) -> (r: String)
    requires
        renderable(input),
        forall|v: Value| #[trigger] number.requires((v,)),
    ensures
        exists|numbers: Seq<Seq<char>>| #[trigger]
            exposition::are_numbers(number, samples_of(input), numbers) && r@
                == exposition::written(samples_of(input), numbers, samples_of(input).len()),
{
    let items = samples(input);
    proof {
        order::lemma_families_are_known(input);
        assert forall|i: int| 0 <= i < items@.len() implies (#[trigger] items@[i]).family
            < catalog::FAMILY_COUNT by {
            assert(exposition::item_views(items@)[i] == items@[i]@);
        }
    }
    exposition::write(&items, number)
}

} // verus!
