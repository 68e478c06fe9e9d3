//! What is counted, in which bucket a duration falls, which rows are folded and
//! how a sample is written.

use vstd::prelude::*;

use crate::domain::invocation::StartKind;
use crate::metrics;
use crate::metrics::caps;
use crate::metrics::catalog;
use crate::metrics::dispatch;
use crate::metrics::exposition;
use crate::metrics::exposition::{ItemView, LabelsView, Suffix, Value};
use crate::metrics::idle;
use crate::metrics::idle::RoundEntry;
use crate::metrics::input::{RevisionMetrics, TenantMetrics};
use crate::metrics::tally;
use crate::metrics::tally::Tally;
use crate::metrics::{
    AttemptTimings, BootCheck, BootCounts, Boots, HistogramView, Phases, PHASE_BUCKETS_MS,
};
use crate::table;
use crate::text;

verus! {

/// A counter that stays at the largest number.
pub open spec fn capped(n: int) -> int {
    if n <= u64::MAX {
        n
    } else {
        u64::MAX as int
    }
}

/// A counter grows by what is added and stays at the largest number.
pub proof fn law_a_counter_never_wraps(count: nat, n: nat)
    ensures
        tally::grown(count, n) == capped((count + n) as int),
{
}

proof fn lemma_bounds_ascend(i: int, j: int)
    requires
        0 <= i <= j < 14,
    ensures
        PHASE_BUCKETS_MS[i] <= PHASE_BUCKETS_MS[j],
    decreases j - i,
{
    if i < j {
        lemma_bounds_ascend(i, j - 1);
        let b = PHASE_BUCKETS_MS@;
        assert(b[0] <= b[1] && b[1] <= b[2] && b[2] <= b[3] && b[3] <= b[4] && b[4] <= b[5]);
        assert(b[5] <= b[6] && b[6] <= b[7] && b[7] <= b[8] && b[8] <= b[9] && b[9] <= b[10]);
        assert(b[10] <= b[11] && b[11] <= b[12] && b[12] <= b[13]);
    }
}

proof fn lemma_total_grows(buckets: Seq<u64>, slot: int, n: nat)
    requires
        0 <= slot < buckets.len(),
        n <= buckets.len(),
        buckets[slot] < u64::MAX,
    ensures
        metrics::total(buckets.update(slot, (buckets[slot] + 1) as u64), n) == metrics::total(
            buckets,
            n,
        ) + if slot < n {
            1int
        } else {
            0int
        },
    decreases n,
{
    if n > 0 {
        lemma_total_grows(buckets, slot, (n - 1) as nat);
    }
}

/// A duration counts in every bucket whose bound it does not exceed, and in no
/// other; it adds to the sum and to the count.
pub proof fn law_a_duration_counts_where_it_fits(h: HistogramView, ms: u64, b: int)
    requires
        h.buckets.len() == 15,
        forall|i: int| 0 <= i < 15 ==> #[trigger] h.buckets[i] < u64::MAX,
        0 <= b < 14,
    ensures
        ({
            let after = metrics::observed(h, ms);
            &&& metrics::total(after.buckets, (b + 1) as nat) == metrics::total(
                h.buckets,
                (b + 1) as nat,
            ) + if ms <= PHASE_BUCKETS_MS[b] {
                1int
            } else {
                0int
            }
            &&& metrics::total(after.buckets, 15) == metrics::total(h.buckets, 15) + 1
            &&& after.buckets.len() == 15
            &&& after.sum_ms == capped(h.sum_ms + ms)
            &&& after.count == capped(h.count + 1)
        }),
{
    metrics::lemma_slot_exists(ms);
    let slot = metrics::slot_of(ms);
    lemma_total_grows(h.buckets, slot, (b + 1) as nat);
    lemma_total_grows(h.buckets, slot, 15);
    if slot <= b {
        lemma_bounds_ascend(slot, b);
    } else {
        assert(ms > PHASE_BUCKETS_MS[b]);
    }
}

/// The bounds of the buckets, in milliseconds.
pub proof fn law_the_bounds_of_the_buckets()
    ensures
        PHASE_BUCKETS_MS@ == seq![
            5u64,
            10,
            25,
            50,
            100,
            250,
            500,
            1000,
            2500,
            5000,
            10000,
            30000,
            60000,
            300000,
        ],
{
    assert(PHASE_BUCKETS_MS@ =~= seq![
        5u64,
        10,
        25,
        50,
        100,
        250,
        500,
        1000,
        2500,
        5000,
        10000,
        30000,
        60000,
        300000,
    ]);
}

/// How a kind of start is labelled.
pub open spec fn label_of(kind: StartKind) -> Seq<char> {
    if kind is Cold {
        "cold"@
    } else if kind is Warm {
        "warm"@
    } else {
        "restored"@
    }
}

/// The histogram of a phase of a kind of start.
pub open spec fn of_phase(phases: Phases, phase: Seq<char>, kind: StartKind) -> HistogramView {
    if phases.contains_key(seq![phase, label_of(kind)]) {
        phases[seq![phase, label_of(kind)]]
    } else {
        HistogramView { buckets: Seq::new(15, |i: int| 0u64), sum_ms: 0, count: 0 }
    }
}

/// The histogram took the duration, where there is one.
pub open spec fn took(before: HistogramView, after: HistogramView, ms: Option<u64>) -> bool {
    after == if ms is Some {
        metrics::observed(before, ms->0)
    } else {
        before
    }
}

proof fn lemma_phases_differ()
    ensures
        "queue_wait"@ != "boot"@,
        "queue_wait"@ != "init"@,
        "queue_wait"@ != "resume"@,
        "queue_wait"@ != "handler"@,
        "queue_wait"@ != "total"@,
        "boot"@ != "init"@,
        "boot"@ != "resume"@,
        "boot"@ != "handler"@,
        "boot"@ != "total"@,
        "init"@ != "resume"@,
        "init"@ != "handler"@,
        "init"@ != "total"@,
        "resume"@ != "handler"@,
        "resume"@ != "total"@,
        "handler"@ != "total"@,
{
    reveal_strlit("queue_wait");
    reveal_strlit("boot");
    reveal_strlit("init");
    reveal_strlit("resume");
    reveal_strlit("handler");
    reveal_strlit("total");
    assert("boot"@[0] != "init"@[0]);
    assert("queue_wait"@.len() == 10 && "boot"@.len() == 4 && "init"@.len() == 4 && "resume"@.len()
        == 6 && "handler"@.len() == 7 && "total"@.len() == 5);
}

proof fn lemma_recorded(
    phases: Phases,
    phase: Seq<char>,
    kind: StartKind,
    ms: Option<u64>,
    other: Seq<char>,
)
    ensures
        ({
            let after = metrics::recorded(phases, phase, label_of(kind), ms);
            &&& took(of_phase(phases, phase, kind), of_phase(after, phase, kind), ms)
            &&& other != phase ==> of_phase(after, other, kind) == of_phase(phases, other, kind)
        }),
{
    table::lemma_k2(phase, label_of(kind), other, label_of(kind));
}

/// An attempt's timings go each to the histogram of its own phase and kind of
/// start. Where nothing was booted, boot and init take nothing.
pub proof fn law_where_timings_go(phases: Phases, kind: StartKind, t: AttemptTimings)
    ensures
        ({
            let after = metrics::attempt_recorded(phases, kind, t);
            let booted = |ms: Option<u64>|
                if kind is Warm {
                    None
                } else {
                    ms
                };
            &&& took(
                of_phase(phases, "queue_wait"@, kind),
                of_phase(after, "queue_wait"@, kind),
                t.queue_wait_ms,
            )
            &&& took(
                of_phase(phases, "boot"@, kind),
                of_phase(after, "boot"@, kind),
                booted(t.environment_boot_ms),
            )
            &&& took(
                of_phase(phases, "init"@, kind),
                of_phase(after, "init"@, kind),
                booted(t.runtime_init_ms),
            )
            &&& took(
                of_phase(phases, "resume"@, kind),
                of_phase(after, "resume"@, kind),
                t.resume_ms,
            )
            &&& took(
                of_phase(phases, "handler"@, kind),
                of_phase(after, "handler"@, kind),
                t.handler_ms,
            )
            &&& took(
                of_phase(phases, "total"@, kind),
                of_phase(after, "total"@, kind),
                t.total_ms,
            )
        }),
{
    lemma_phases_differ();
    let k = label_of(kind);
    assert(metrics::kind_label(kind) == k);
    let names = seq!["queue_wait"@, "boot"@, "init"@, "resume"@, "handler"@, "total"@];
    let b = metrics::if_booted(t.environment_boot_ms, kind);
    let i = metrics::if_booted(t.runtime_init_ms, kind);
    let p1 = metrics::recorded(phases, "queue_wait"@, k, t.queue_wait_ms);
    let p2 = metrics::recorded(p1, "boot"@, k, b);
    let p3 = metrics::recorded(p2, "init"@, k, i);
    let p4 = metrics::recorded(p3, "resume"@, k, t.resume_ms);
    let p5 = metrics::recorded(p4, "handler"@, k, t.handler_ms);
    assert forall|n: int| 0 <= n < 6 implies ({
        let name = #[trigger] names[n];
        let after = metrics::attempt_recorded(phases, kind, t);
        let ms = if n == 0 {
            t.queue_wait_ms
        } else if n == 1 {
            b
        } else if n == 2 {
            i
        } else if n == 3 {
            t.resume_ms
        } else if n == 4 {
            t.handler_ms
        } else {
            t.total_ms
        };
        took(of_phase(phases, name, kind), of_phase(after, name, kind), ms)
    }) by {
        let name = names[n];
        lemma_recorded(phases, "queue_wait"@, kind, t.queue_wait_ms, name);
        lemma_recorded(p1, "boot"@, kind, b, name);
        lemma_recorded(p2, "init"@, kind, i, name);
        lemma_recorded(p3, "resume"@, kind, t.resume_ms, name);
        lemma_recorded(p4, "handler"@, kind, t.handler_ms, name);
        lemma_recorded(p5, "total"@, kind, t.total_ms, name);
    }
    assert(names[0] == "queue_wait"@ && names[1] == "boot"@ && names[2] == "init"@ && names[3]
        == "resume"@ && names[4] == "handler"@ && names[5] == "total"@);
}

/// What a reported boot id tells: nothing where none is reported; a first boot
/// where the environment is not tracked; else whether it is still the first one.
/// Only a first boot is remembered; where 4096 are, the oldest is forgotten.
pub proof fn law_what_a_boot_id_tells(b: Boots, environment: Seq<char>, id: Option<Seq<char>>)
    ensures
        ({
            let known = b.first.contains_key(seq![environment]);
            let check = metrics::boot_check(b, environment, id);
            let after = metrics::boots_after(b, environment, id);
            &&& check is Unreported <==> id is None
            &&& check is FirstBoot <==> id is Some && !known
            &&& check is SameBoot <==> id is Some && known && b.first[seq![environment]] == id->0
            &&& check is BootChanged <==> id is Some && known && b.first[seq![environment]] != id->0
            &&& !(check is FirstBoot) ==> after == b
            &&& check is FirstBoot && b.first.dom().len() < 4096 ==> after.first == b.first.insert(
                seq![environment],
                id->0,
            ) && after.order == b.order.push(environment)
            &&& check is FirstBoot && b.first.dom().len() >= 4096 && b.order.len() > 0
                ==> after.first == b.first.remove(seq![b.order[0]]).insert(
                seq![environment],
                id->0,
            ) && after.order == b.order.drop_first().push(environment)
        }),
{
}

/// A boot check is counted under its own result.
pub proof fn law_a_boot_check_is_counted_once(c: BootCounts, check: BootCheck)
    ensures
        ({
            let d = c.after(check);
            &&& d.first_boot == if check is FirstBoot {
                capped(c.first_boot + 1)
            } else {
                c.first_boot as int
            }
            &&& d.same_boot == if check is SameBoot {
                capped(c.same_boot + 1)
            } else {
                c.same_boot as int
            }
            &&& d.boot_changed == if check is BootChanged {
                capped(c.boot_changed + 1)
            } else {
                c.boot_changed as int
            }
            &&& d.unreported == if check is Unreported {
                capped(c.unreported + 1)
            } else {
                c.unreported as int
            }
        }),
{
}

/// What a round says of an environment: its last entry, where it has one.
proof fn lemma_round(round: Seq<RoundEntry>, n: nat, environment: Seq<char>, i: int)
    requires
        0 <= i < n <= round.len(),
        round[i].environment@ == environment,
        forall|j: int| i < j < n ==> (#[trigger] round[j]).environment@ != environment,
    ensures
        idle::round_of(round, n).contains_key(seq![environment]),
        idle::round_of(round, n)[seq![environment]] == round[i].idle,
    decreases n,
{
    if i < n - 1 {
        lemma_round(round, (n - 1) as nat, environment, i);
        assert(round[n - 1].environment@ != environment);
        table::lemma_k1(round[n - 1].environment@, environment);
    }
}

/// An environment stayed idle exactly where it is idle and was so in the last
/// round, by its last entry there; one that was not in the last round did not.
pub proof fn law_who_stayed_idle(round: Seq<RoundEntry>, entry: RoundEntry, i: int)
    requires
        0 <= i < round.len(),
        round[i].environment@ == entry.environment@,
        forall|j: int| i < j < round.len() ==> (#[trigger] round[j]).environment@
            != entry.environment@,
    ensures
        idle::stayed_idle(idle::round_of(round, round.len()), entry) <==> entry.idle
            && round[i].idle,
{
    lemma_round(round, round.len(), entry.environment@, i);
}

/// How active a revision is: all its environments and all that wait for it.
pub open spec fn activity(r: &RevisionMetrics) -> int {
    r.environments.promised + r.environments.starting + r.environments.busy + r.environments.parking
        + r.environments.idle + r.environments.draining + r.queued
}

/// Revisions are ranked by activity and tenants by what waits, what runs and
/// what was granted, then by id; the rows that are shown are by id.
pub proof fn law_how_rows_are_ranked(
    a: &RevisionMetrics,
    b: &RevisionMetrics,
    s: &TenantMetrics,
    t: &TenantMetrics,
)
    ensures
        caps::heavier()(a, b) <==> activity(a) > activity(b) || (activity(a) == activity(b)
            && text::text_lt(a.revision@, b.revision@)),
        caps::by_revision()(a, b) <==> text::text_lt(a.revision@, b.revision@),
        caps::busier()(s, t) <==> s.queued > t.queued || (s.queued == t.queued && (s.in_flight
            > t.in_flight || (s.in_flight == t.in_flight && (s.grants > t.grants || (s.grants
            == t.grants && text::text_lt(s.tenant@, t.tenant@)))))),
        caps::by_tenant()(s, t) <==> text::text_lt(s.tenant@, t.tenant@),
{
}

/// A row shows its revision, or its tenant, as it is.
pub proof fn law_a_row_shows_what_it_is_of(r: &RevisionMetrics, t: &TenantMetrics)
    ensures
        ({
            let row = caps::revision_row(r);
            &&& row.tenant == r.tenant@
            &&& row.revision == r.revision@
            &&& row.environments == r.environments
            &&& row.desired == r.desired
            &&& row.max_environments == r.max_environments
            &&& row.min_ready == r.min_ready
            &&& row.queued == r.queued
            &&& row.breaker == r.breaker@
        }),
        ({
            let row = caps::tenant_row(t);
            &&& row.tenant == t.tenant@
            &&& row.in_flight == t.in_flight
            &&& row.queued == t.queued
            &&& row.oldest_wait_seconds == t.oldest_wait_seconds
            &&& row.grants == t.grants
            &&& row.max_concurrency == t.max_concurrency
        }),
{
}

/// A circuit breaker shows as two where it is open, one where it is half open
/// and zero else.
pub proof fn law_how_a_breaker_shows(name: Seq<char>)
    ensures
        name == "open"@ ==> caps::spec_breaker_value(name) == 2,
        name == "half_open"@ ==> caps::spec_breaker_value(name) == 1,
        name != "open"@ && name != "half_open"@ ==> caps::spec_breaker_value(name) == 0,
{
    reveal_strlit("open");
    reveal_strlit("half_open");
    assert("open"@.len() != "half_open"@.len());
}

/// Folding one row more adds its counts and keeps the worst breaker and the
/// longest wait; the folded row is named so and has no limit of its own.
pub proof fn law_what_folding_adds(
    rest: Seq<&RevisionMetrics>,
    r: &RevisionMetrics,
    tenants: Seq<&TenantMetrics>,
    t: &TenantMetrics,
)
    ensures
        ({
            let o = caps::folded_revisions(rest);
            let f = caps::folded_revisions(rest.push(r));
            &&& f.environments.starting == (o.environments.starting + r.environments.starting) as u64
            &&& f.environments.busy == (o.environments.busy + r.environments.busy) as u64
            &&& f.environments.promised == (o.environments.promised + r.environments.promised) as u64
            &&& f.environments.parking == (o.environments.parking + r.environments.parking) as u64
            &&& f.environments.idle == (o.environments.idle + r.environments.idle) as u64
            &&& f.environments.draining == (o.environments.draining + r.environments.draining) as u64
            &&& f.desired == (o.desired + r.desired) as u32
            &&& f.max_environments == (o.max_environments + r.max_environments) as u32
            &&& f.min_ready == (o.min_ready + r.min_ready) as u32
            &&& f.queued == (o.queued + r.queued) as u32
            &&& f.tenant == o.tenant && f.revision == o.revision
            &&& f.breaker == r.breaker@ || f.breaker == o.breaker
            &&& caps::spec_breaker_value(f.breaker) >= caps::spec_breaker_value(r.breaker@)
            &&& caps::spec_breaker_value(f.breaker) >= caps::spec_breaker_value(o.breaker)
        }),
        ({
            let none = caps::folded_revisions(Seq::<&RevisionMetrics>::empty());
            none.tenant == "_other"@ && none.revision == "_other"@ && none.breaker == "closed"@
        }),
        ({
            let o = caps::folded_tenants(tenants);
            let f = caps::folded_tenants(tenants.push(t));
            &&& f.in_flight == (o.in_flight + t.in_flight) as u64
            &&& f.queued == (o.queued + t.queued) as u64
            &&& f.grants == (o.grants + t.grants) as u64
            &&& f.tenant == o.tenant
            &&& f.max_concurrency == o.max_concurrency
            &&& f.oldest_wait_seconds == caps::longer(o.oldest_wait_seconds, t.oldest_wait_seconds)
        }),
        ({
            let none = caps::folded_tenants(Seq::<&TenantMetrics>::empty());
            none.tenant == "_other"@ && none.max_concurrency is None && none.oldest_wait_seconds
                is None
        }),
{
    assert(rest.push(r).drop_last() =~= rest);
    assert(tenants.push(t).drop_last() =~= tenants);
}

/// The longer of two waits, where both are plain positive numbers or one is
/// missing: a larger number has larger bits.
pub proof fn law_the_longer_wait_is_kept(a: Option<u64>, b: Option<u64>)
    requires
        a is Some ==> a->0 <= 0x7ff0_0000_0000_0000,
        b is Some ==> b->0 <= 0x7ff0_0000_0000_0000,
    ensures
        a is None ==> caps::longer(a, b) == b,
        b is None ==> caps::longer(a, b) == a,
        a is Some && b is Some ==> caps::longer(a, b) == Some(
            if a->0 >= b->0 {
                a->0
            } else {
                b->0
            },
        ),
{
}

/// The rows that are shown: all of them where they are within the limit; else
/// the first by rank, as many as the limit says, and one for the rest.
pub proof fn law_how_many_rows_are_shown(len: nat, limit: usize)
    ensures
        caps::kept(len, limit) == if len <= limit {
            len as int
        } else {
            limit as int
        },
{
}

/// How labels are written: in braces, each as its name and its quoted and
/// escaped value, with commas between; without any, not at all.
pub proof fn law_how_labels_are_written(labels: LabelsView)
    ensures
        labels.len() == 0 ==> exposition::labels_text(labels) == Seq::<char>::empty(),
        labels.len() == 1 ==> exposition::labels_text(labels) == "{"@ + (labels[0].0 + "=\""@
            + exposition::escaped(labels[0].1) + "\""@) + "}"@,
        labels.len() == 2 ==> exposition::labels_text(labels) == "{"@ + (labels[0].0 + "=\""@
            + exposition::escaped(labels[0].1) + "\""@ + ","@ + (labels[1].0 + "=\""@
            + exposition::escaped(labels[1].1) + "\""@)) + "}"@,
{
    reveal_with_fuel(exposition::pairs_text, 3);
}

/// How a sample is written: the name of its family with its suffix, its labels,
/// its number and the end of the line. The help and the type of a family stand
/// before its first sample, and nowhere else.
pub proof fn law_how_a_sample_is_written(items: Seq<ItemView>, i: int, number: Seq<char>)
    requires
        0 <= i < items.len(),
    ensures
        ({
            let name = catalog::name_of(items[i].family as int);
            let first = i == 0 || items[i - 1].family != items[i].family;
            let head = if first {
                "# HELP "@ + name + " "@ + catalog::help_of(items[i].family as int) + "\n# TYPE "@
                    + name + " "@ + catalog::kind_of(items[i].family as int) + "\n"@
            } else {
                Seq::empty()
            };
            let line = items[i].line->0;
            let suffix = match line.suffix {
                Suffix::Plain => Seq::empty(),
                Suffix::Bucket => "_bucket"@,
                Suffix::Sum => "_sum"@,
                Suffix::Count => "_count"@,
            };
            &&& items[i].line is None ==> exposition::item_text(items, i, number) == head
            &&& items[i].line is Some ==> exposition::item_text(items, i, number) == head + (name
                + suffix + exposition::labels_text(line.labels) + " "@ + number + "\n"@)
        }),
{
}

/// Counting under a label grows that count and no other.
pub proof fn law_only_the_label_counts(
    before: Tally,
    after: Tally,
    first: Seq<char>,
    second: Seq<char>,
    n: nat,
    other: (Seq<char>, Seq<char>),
)
    requires
        dispatch::bumped(before, after, first, second, n),
    ensures
        after.count(first, second) == capped((before.count(first, second) + n) as int),
        other != (first, second) ==> after.count(other.0, other.1) == before.count(
            other.0,
            other.1,
        ),
        after.count(first, second) == if after.rows@.contains_key(seq![first, second]) {
            after.rows@[seq![first, second]].n as int
        } else {
            0
        },
{
}

/// The queue's calls are counted as gone well or not, next tries as counted
/// ones or not, and a run that ended is no longer in flight.
pub proof fn law_how_dispatching_is_labelled(n: u64)
    ensures
        dispatch::result_of(true) == "ok"@,
        dispatch::result_of(false) == "error"@,
        dispatch::kind_of_retry(true) == "retry"@,
        dispatch::kind_of_retry(false) == "deferral"@,
        n < u64::MAX ==> dispatch::one_more(n) == n + 1,
        n > 0 ==> dispatch::one_less(n) == n - 1,
        dispatch::one_less(dispatch::one_more(n)) == n,
{
}

/// A boot check is shown by the name of its result.
pub proof fn law_how_boot_checks_are_named()
    ensures
        BootCheck::FirstBoot.spec_name() == "first_boot"@,
        BootCheck::SameBoot.spec_name() == "same_boot"@,
        BootCheck::BootChanged.spec_name() == "boot_changed"@,
        BootCheck::Unreported.spec_name() == "unreported"@,
{
}

/// A count below ten to the fifteenth is written by its digits; every other
/// value as it is told to be.
pub proof fn law_how_a_value_is_written<N: Fn(Value) -> String>(
    number: N,
    value: Value,
    t: Seq<char>,
)
    requires
        exposition::is_number(number, value, t),
    ensures
        value is Count && value->Count_0 < 1_000_000_000_000_000 ==> t == text::dec(
            value->Count_0 as nat,
        ),
        !(value is Count && value->Count_0 < 1_000_000_000_000_000) ==> exists|s: String| #[trigger]
            number.ensures((value,), s) && s@ == t,
{
}

} // verus!
