//! No series is written twice: any two samples of an exposition differ in the
//! name they are written under or in their labels.

use vstd::prelude::*;

use crate::metrics::caps;
use crate::metrics::caps::{RevisionRowView, TenantRowView};
use crate::metrics::catalog;
use crate::metrics::dispatch::{
    AsyncDispatchSnapshot, DEAD_LETTER_REASONS, DELIVERY_OUTCOMES, QUEUE_OPERATIONS, REAPER_ACTIONS,
    RETRY_KINDS,
};
use crate::metrics::exposition::{ItemView, Suffix, Value};
use crate::metrics::input::{
    AdmissionMetrics, EnvironmentUsage, MetricsInput, OutboxMetrics, RevisionMetrics,
    TenantMetrics, TriggerMetricsSnapshot, UsageMetrics,
};
use crate::metrics::names;
use crate::metrics::order;
use crate::metrics::render;
use crate::metrics::render::{
    RevisionField, StatField, TenantField, BOUND_TEXTS, CRON_RESULTS, HEARTBEAT_RESULTS,
    MISSED_ACTIONS, REJECT_REASONS, SCALE_KINDS, START_KINDS, WEBHOOK_RESULTS,
};
use crate::metrics::sorting;
use crate::metrics::tally::{Entry, Tally};
use crate::metrics::{Histogram, HistogramView, MetricsSnapshot, PHASES};
use crate::table;
use crate::table::Table;
use crate::text;

verus! {

/// Two samples of one series: the same family, suffix and labels.
pub open spec fn same_series(a: ItemView, b: ItemView) -> bool {
    match (a.line, b.line) {
        (Some(x), Some(y)) => a.family == b.family && x.suffix == y.suffix && x.labels == y.labels,
        _ => false,
    }
}

/// No series has two samples.
pub open spec fn all_differ(items: Seq<ItemView>) -> bool {
    forall|i: int, j: int|
        0 <= i < j < items.len() ==> !same_series(#[trigger] items[i], #[trigger] items[j])
}

/// No series has a sample in both lists.
spec fn apart(a: Seq<ItemView>, b: Seq<ItemView>) -> bool {
    forall|i: int, j: int|
        0 <= i < a.len() && 0 <= j < b.len() ==> !same_series(#[trigger] a[i], #[trigger] b[j])
}

proof fn lemma_join(a: Seq<ItemView>, b: Seq<ItemView>)
    requires
        all_differ(a),
        all_differ(b),
        apart(a, b),
    ensures
        all_differ(a + b),
{
    let c = a + b;
    assert forall|i: int, j: int| 0 <= i < j < c.len() implies !same_series(
        #[trigger] c[i],
        #[trigger] c[j],
    ) by {
        if j < a.len() {
            assert(c[i] == a[i] && c[j] == a[j]);
        } else if i < a.len() {
            assert(c[i] == a[i] && c[j] == b[j - a.len()]);
        } else {
            assert(c[i] == b[i - a.len()] && c[j] == b[j - a.len()]);
        }
    }
}

proof fn lemma_apart_join(a: Seq<ItemView>, b: Seq<ItemView>, c: Seq<ItemView>)
    requires
        apart(a, c),
        apart(b, c),
    ensures
        apart(a + b, c),
{
    let d = a + b;
    assert forall|i: int, j: int| 0 <= i < d.len() && 0 <= j < c.len() implies !same_series(
        #[trigger] d[i],
        #[trigger] c[j],
    ) by {
        if i < a.len() {
            assert(d[i] == a[i]);
        } else {
            assert(d[i] == b[i - a.len()]);
        }
    }
}

/// Lists of different families.
proof fn lemma_next(a: Seq<ItemView>, b: Seq<ItemView>, lo: int, mid: int, next: int, hi: int)
    requires
        all_differ(a),
        all_differ(b),
        order::in_order(a, lo, mid),
        order::in_order(b, next, hi),
        lo <= mid < next <= hi,
    ensures
        all_differ(a + b),
        order::in_order(a + b, lo, hi),
{
    assert forall|i: int, j: int| 0 <= i < a.len() && 0 <= j < b.len() implies !same_series(
        #[trigger] a[i],
        #[trigger] b[j],
    ) by {
        assert(order::place(a[i].family) <= mid);
        assert(order::place(b[j].family) >= next);
    }
    lemma_join(a, b);
    order::lemma_join(a, b, lo, mid, next, hi);
}

/// One sample per family.
spec fn rises(items: Seq<ItemView>, lo: int, hi: int) -> bool {
    &&& forall|i: int| 0 <= i < items.len() ==> lo <= order::place(#[trigger] items[i].family) <= hi
    &&& forall|i: int, j: int|
        0 <= i < j < items.len() ==> order::place(#[trigger] items[i].family) < order::place(
            #[trigger] items[j].family,
        )
}

proof fn lemma_rises(items: Seq<ItemView>, lo: int, hi: int)
    requires
        rises(items, lo, hi),
    ensures
        all_differ(items),
        order::in_order(items, lo, hi),
{
    assert forall|i: int, j: int| 0 <= i < j < items.len() implies !same_series(
        #[trigger] items[i],
        #[trigger] items[j],
    ) by {
        assert(order::place(items[i].family) < order::place(items[j].family));
    }
    assert forall|i: int, j: int| 0 <= i < j < items.len() implies order::place(#[trigger] items[i].family)
        <= order::place(#[trigger] items[j].family) by {
        assert(order::place(items[i].family) < order::place(items[j].family));
    }
}

proof fn lemma_flat_apart<T>(list: Seq<T>, f: spec_fn(T) -> Seq<ItemView>, b: Seq<ItemView>)
    requires
        forall|i: int| 0 <= i < list.len() ==> apart(f(#[trigger] list[i]), b),
    ensures
        apart(render::flat(list, f), b),
    decreases list.len(),
{
    if list.len() > 0 {
        let t = list.drop_last();
        assert forall|i: int| 0 <= i < t.len() implies apart(f(#[trigger] t[i]), b) by {
            assert(t[i] == list[i]);
        }
        lemma_flat_apart(t, f, b);
        assert(apart(f(list[list.len() - 1]), b));
        lemma_apart_join(render::flat(t, f), f(list.last()), b);
    }
}

proof fn lemma_flat<T>(list: Seq<T>, f: spec_fn(T) -> Seq<ItemView>)
    requires
        forall|i: int| 0 <= i < list.len() ==> all_differ(f(#[trigger] list[i])),
        forall|i: int, j: int|
            0 <= i < j < list.len() ==> apart(f(#[trigger] list[i]), f(#[trigger] list[j])),
    ensures
        all_differ(render::flat(list, f)),
    decreases list.len(),
{
    if list.len() > 0 {
        let t = list.drop_last();
        let last = list[list.len() - 1];
        assert forall|i: int| 0 <= i < t.len() implies all_differ(f(#[trigger] t[i])) && apart(
            f(t[i]),
            f(last),
        ) by {
            assert(t[i] == list[i]);
        }
        assert forall|i: int, j: int| 0 <= i < j < t.len() implies apart(
            f(#[trigger] t[i]),
            f(#[trigger] t[j]),
        ) by {
            assert(t[i] == list[i] && t[j] == list[j]);
        }
        lemma_flat(t, f);
        lemma_flat_apart(t, f, f(last));
        assert(all_differ(f(last)));
        lemma_join(render::flat(t, f), f(last));
    }
}

/// The value of the label at `n`.
spec fn label(item: ItemView, n: int) -> Seq<char> {
    item.line->0.labels[n].1
}

/// Samples of two series differ where a label does.
proof fn lemma_label(a: ItemView, b: ItemView, n: int)
    requires
        label(a, n) != label(b, n),
    ensures
        !same_series(a, b),
{
}

/// Any two texts are different.
spec fn names_differ(names: Seq<&'static str>) -> bool {
    forall|i: int, j: int|
        0 <= i < j < names.len() ==> (#[trigger] names[i])@ != (#[trigger] names[j])@
}

proof fn lemma_reject_reasons()
    ensures
        names_differ(REJECT_REASONS@),
{
    reveal_strlit("queue_full");
    reveal_strlit("quota");
    reveal_strlit("capacity");
    reveal_strlit("queue_deadline");
    reveal_strlit("circuit_open");
    reveal_strlit("placement");
    reveal_strlit("function_deleted");
    assert("queue_full"@.len() == 10 && "quota"@.len() == 5 && "capacity"@.len() == 8
        && "queue_deadline"@.len() == 14 && "circuit_open"@.len() == 12
        && "placement"@.len() == 9 && "function_deleted"@.len() == 16);
    assert forall|i: int, j: int| 0 <= i < j < 7 implies (#[trigger] REJECT_REASONS@[i])@ != (
    #[trigger] REJECT_REASONS@[j])@ by {
        assert(i == 0 || i == 1 || i == 2 || i == 3 || i == 4 || i == 5 || i == 6);
        assert(j == 0 || j == 1 || j == 2 || j == 3 || j == 4 || j == 5 || j == 6);
    }
}

proof fn lemma_scale_kinds()
    ensures
        names_differ(SCALE_KINDS@),
{
    reveal_strlit("activation");
    reveal_strlit("scale_up");
    reveal_strlit("prestart");
    reveal_strlit("scale_down");
    reveal_strlit("scale_to_zero");
    reveal_strlit("drain");
    assert("activation"@.len() == 10 && "scale_up"@.len() == 8 && "prestart"@.len() == 8
        && "scale_down"@.len() == 10 && "scale_to_zero"@.len() == 13 && "drain"@.len() == 5);
    assert("activation"@[0] != "scale_down"@[0]);
    assert("scale_up"@[0] != "prestart"@[0]);
    assert forall|i: int, j: int| 0 <= i < j < 6 implies (#[trigger] SCALE_KINDS@[i])@ != (
    #[trigger] SCALE_KINDS@[j])@ by {
        assert(i == 0 || i == 1 || i == 2 || i == 3 || i == 4 || i == 5);
        assert(j == 0 || j == 1 || j == 2 || j == 3 || j == 4 || j == 5);
    }
}

proof fn lemma_start_kinds()
    ensures
        names_differ(START_KINDS@),
{
    reveal_strlit("cold");
    reveal_strlit("warm");
    reveal_strlit("restored");
    assert("cold"@.len() == 4 && "warm"@.len() == 4 && "restored"@.len() == 8);
    assert("cold"@[0] != "warm"@[0]);
    assert forall|i: int, j: int| 0 <= i < j < 3 implies (#[trigger] START_KINDS@[i])@ != (
    #[trigger] START_KINDS@[j])@ by {
        assert(i == 0 || i == 1 || i == 2);
        assert(j == 0 || j == 1 || j == 2);
    }
}

proof fn lemma_heartbeat_results()
    ensures
        names_differ(HEARTBEAT_RESULTS@),
{
    reveal_strlit("renewed");
    reveal_strlit("fenced");
    reveal_strlit("error");
    assert("renewed"@.len() == 7 && "fenced"@.len() == 6 && "error"@.len() == 5);
    assert forall|i: int, j: int| 0 <= i < j < 3 implies (#[trigger] HEARTBEAT_RESULTS@[i])@ != (
    #[trigger] HEARTBEAT_RESULTS@[j])@ by {
        assert(i == 0 || i == 1 || i == 2);
        assert(j == 0 || j == 1 || j == 2);
    }
}

proof fn lemma_cron_results()
    ensures
        names_differ(CRON_RESULTS@),
{
    reveal_strlit("accepted");
    reveal_strlit("already_fired");
    reveal_strlit("refused");
    reveal_strlit("deferred");
    reveal_strlit("inactive");
    assert("accepted"@.len() == 8 && "already_fired"@.len() == 13 && "refused"@.len() == 7
        && "deferred"@.len() == 8 && "inactive"@.len() == 8);
    assert("accepted"@[0] != "deferred"@[0]);
    assert("accepted"@[0] != "inactive"@[0]);
    assert("deferred"@[0] != "inactive"@[0]);
    assert forall|i: int, j: int| 0 <= i < j < 5 implies (#[trigger] CRON_RESULTS@[i])@ != (
    #[trigger] CRON_RESULTS@[j])@ by {
        assert(i == 0 || i == 1 || i == 2 || i == 3 || i == 4);
        assert(j == 0 || j == 1 || j == 2 || j == 3 || j == 4);
    }
}

proof fn lemma_missed_actions()
    ensures
        names_differ(MISSED_ACTIONS@),
{
    reveal_strlit("run");
    reveal_strlit("skipped");
    assert("run"@.len() == 3 && "skipped"@.len() == 7);
    assert forall|i: int, j: int| 0 <= i < j < 2 implies (#[trigger] MISSED_ACTIONS@[i])@ != (
    #[trigger] MISSED_ACTIONS@[j])@ by {
        assert(i == 0 || i == 1);
        assert(j == 0 || j == 1);
    }
}

proof fn lemma_webhook_results()
    ensures
        names_differ(WEBHOOK_RESULTS@),
{
    reveal_strlit("accepted");
    reveal_strlit("replayed");
    reveal_strlit("signature_refused");
    reveal_strlit("timestamp_refused");
    reveal_strlit("too_large");
    reveal_strlit("invalid_event_id");
    reveal_strlit("disabled");
    reveal_strlit("not_found");
    reveal_strlit("refused");
    assert("accepted"@.len() == 8 && "replayed"@.len() == 8 && "signature_refused"@.len() == 17
        && "timestamp_refused"@.len() == 17 && "too_large"@.len() == 9
        && "invalid_event_id"@.len() == 16 && "disabled"@.len() == 8 && "not_found"@.len() == 9
        && "refused"@.len() == 7);
    assert("accepted"@[0] != "replayed"@[0]);
    assert("accepted"@[0] != "disabled"@[0]);
    assert("replayed"@[0] != "disabled"@[0]);
    assert("signature_refused"@[0] != "timestamp_refused"@[0]);
    assert("too_large"@[0] != "not_found"@[0]);
    assert forall|i: int, j: int| 0 <= i < j < 9 implies (#[trigger] WEBHOOK_RESULTS@[i])@ != (
    #[trigger] WEBHOOK_RESULTS@[j])@ by {
        assert(i == 0 || i == 1 || i == 2 || i == 3 || i == 4 || i == 5 || i == 6 || i == 7
            || i == 8);
        assert(j == 0 || j == 1 || j == 2 || j == 3 || j == 4 || j == 5 || j == 6 || j == 7
            || j == 8);
    }
}

proof fn lemma_bound_texts()
    ensures
        names_differ(BOUND_TEXTS@),
{
    reveal_strlit("0.005");
    reveal_strlit("0.01");
    reveal_strlit("0.025");
    reveal_strlit("0.05");
    reveal_strlit("0.1");
    reveal_strlit("0.25");
    reveal_strlit("0.5");
    reveal_strlit("1");
    reveal_strlit("2.5");
    reveal_strlit("5");
    reveal_strlit("10");
    reveal_strlit("30");
    reveal_strlit("60");
    reveal_strlit("300");
    assert("0.005"@.len() == 5 && "0.01"@.len() == 4 && "0.025"@.len() == 5
        && "0.05"@.len() == 4 && "0.1"@.len() == 3 && "0.25"@.len() == 4 && "0.5"@.len() == 3
        && "1"@.len() == 1 && "2.5"@.len() == 3 && "5"@.len() == 1 && "10"@.len() == 2
        && "30"@.len() == 2 && "60"@.len() == 2 && "300"@.len() == 3);
    assert("0.005"@[3] != "0.025"@[3]);
    assert("0.01"@[3] != "0.05"@[3]);
    assert("0.01"@[2] != "0.25"@[2]);
    assert("0.05"@[2] != "0.25"@[2]);
    assert("0.1"@[2] != "0.5"@[2]);
    assert("0.1"@[0] != "2.5"@[0]);
    assert("0.1"@[0] != "300"@[0]);
    assert("0.5"@[0] != "2.5"@[0]);
    assert("0.5"@[0] != "300"@[0]);
    assert("1"@[0] != "5"@[0]);
    assert("2.5"@[0] != "300"@[0]);
    assert("10"@[0] != "30"@[0]);
    assert("10"@[0] != "60"@[0]);
    assert("30"@[0] != "60"@[0]);
    assert forall|i: int, j: int| 0 <= i < j < 14 implies (#[trigger] BOUND_TEXTS@[i])@ != (
    #[trigger] BOUND_TEXTS@[j])@ by {
        assert(i == 0 || i == 1 || i == 2 || i == 3 || i == 4 || i == 5 || i == 6 || i == 7
            || i == 8 || i == 9 || i == 10 || i == 11 || i == 12 || i == 13);
        assert(j == 0 || j == 1 || j == 2 || j == 3 || j == 4 || j == 5 || j == 6 || j == 7
            || j == 8 || j == 9 || j == 10 || j == 11 || j == 12 || j == 13);
    }
}

proof fn lemma_delivery_outcomes()
    ensures
        names_differ(DELIVERY_OUTCOMES@),
{
    reveal_strlit("completed");
    reveal_strlit("rescheduled");
    reveal_strlit("dead_lettered");
    reveal_strlit("skipped_terminal");
    reveal_strlit("skipped_stale");
    reveal_strlit("skipped_claimed");
    reveal_strlit("not_due");
    reveal_strlit("poison");
    reveal_strlit("failed");
    reveal_strlit("lost_claim");
    assert("completed"@.len() == 9 && "rescheduled"@.len() == 11 && "dead_lettered"@.len() == 13
        && "skipped_terminal"@.len() == 16 && "skipped_stale"@.len() == 13
        && "skipped_claimed"@.len() == 15 && "not_due"@.len() == 7 && "poison"@.len() == 6
        && "failed"@.len() == 6 && "lost_claim"@.len() == 10);
    assert("dead_lettered"@[0] != "skipped_stale"@[0]);
    assert("poison"@[0] != "failed"@[0]);
    assert forall|i: int, j: int| 0 <= i < j < 10 implies (#[trigger] DELIVERY_OUTCOMES@[i])@ != (
    #[trigger] DELIVERY_OUTCOMES@[j])@ by {
        assert(i == 0 || i == 1 || i == 2 || i == 3 || i == 4 || i == 5 || i == 6 || i == 7
            || i == 8 || i == 9);
        assert(j == 0 || j == 1 || j == 2 || j == 3 || j == 4 || j == 5 || j == 6 || j == 7
            || j == 8 || j == 9);
    }
}

proof fn lemma_queue_operations()
    ensures
        names_differ(QUEUE_OPERATIONS@),
{
    reveal_strlit("ack");
    reveal_strlit("nak");
    reveal_strlit("term");
    assert("ack"@.len() == 3 && "nak"@.len() == 3 && "term"@.len() == 4);
    assert("ack"@[0] != "nak"@[0]);
    assert forall|i: int, j: int| 0 <= i < j < 3 implies (#[trigger] QUEUE_OPERATIONS@[i])@ != (
    #[trigger] QUEUE_OPERATIONS@[j])@ by {
        assert(i == 0 || i == 1 || i == 2);
        assert(j == 0 || j == 1 || j == 2);
    }
}

proof fn lemma_retry_kinds()
    ensures
        names_differ(RETRY_KINDS@),
{
    reveal_strlit("retry");
    reveal_strlit("deferral");
    assert("retry"@.len() == 5 && "deferral"@.len() == 8);
    assert forall|i: int, j: int| 0 <= i < j < 2 implies (#[trigger] RETRY_KINDS@[i])@ != (
    #[trigger] RETRY_KINDS@[j])@ by {
        assert(i == 0 || i == 1);
        assert(j == 0 || j == 1);
    }
}

proof fn lemma_dead_letter_reasons()
    ensures
        names_differ(DEAD_LETTER_REASONS@),
{
    reveal_strlit("non_retryable");
    reveal_strlit("attempts_exhausted");
    reveal_strlit("expired");
    reveal_strlit("function_deleted");
    reveal_strlit("revision_unavailable");
    reveal_strlit("poison");
    assert("non_retryable"@.len() == 13 && "attempts_exhausted"@.len() == 18
        && "expired"@.len() == 7 && "function_deleted"@.len() == 16
        && "revision_unavailable"@.len() == 20 && "poison"@.len() == 6);
    assert forall|i: int, j: int| 0 <= i < j < 6 implies (#[trigger] DEAD_LETTER_REASONS@[i])@ != (
    #[trigger] DEAD_LETTER_REASONS@[j])@ by {
        assert(i == 0 || i == 1 || i == 2 || i == 3 || i == 4 || i == 5);
        assert(j == 0 || j == 1 || j == 2 || j == 3 || j == 4 || j == 5);
    }
}

proof fn lemma_reaper_actions()
    ensures
        names_differ(REAPER_ACTIONS@),
{
    reveal_strlit("abandoned");
    reveal_strlit("republished");
    reveal_strlit("dead_lettered");
    reveal_strlit("lost");
    reveal_strlit("failed");
    assert("abandoned"@.len() == 9 && "republished"@.len() == 11 && "dead_lettered"@.len() == 13
        && "lost"@.len() == 4 && "failed"@.len() == 6);
    assert forall|i: int, j: int| 0 <= i < j < 5 implies (#[trigger] REAPER_ACTIONS@[i])@ != (
    #[trigger] REAPER_ACTIONS@[j])@ by {
        assert(i == 0 || i == 1 || i == 2 || i == 3 || i == 4);
        assert(j == 0 || j == 1 || j == 2 || j == 3 || j == 4);
    }
}

proof fn lemma_phase_names()
    ensures
        names_differ(PHASES@),
{
    reveal_strlit("queue_wait");
    reveal_strlit("boot");
    reveal_strlit("init");
    reveal_strlit("resume");
    reveal_strlit("handler");
    reveal_strlit("total");
    assert("queue_wait"@.len() == 10 && "boot"@.len() == 4 && "init"@.len() == 4
        && "resume"@.len() == 6 && "handler"@.len() == 7 && "total"@.len() == 5);
    assert("boot"@[0] != "init"@[0]);
    assert forall|i: int, j: int| 0 <= i < j < 6 implies (#[trigger] PHASES@[i])@ != (
    #[trigger] PHASES@[j])@ by {
        assert(i == 0 || i == 1 || i == 2 || i == 3 || i == 4 || i == 5);
        assert(j == 0 || j == 1 || j == 2 || j == 3 || j == 4 || j == 5);
    }
}

proof fn lemma_counts(family: usize, k: Seq<char>, names: Seq<&'static str>, counts: &Tally)
    requires
        names_differ(names),
    ensures
        all_differ(render::counts(family, k, names, counts)),
        order::in_order(render::counts(family, k, names, counts), order::place(family), order::place(family)),
{
    let items = render::counts(family, k, names, counts);
    assert forall|i: int, j: int| 0 <= i < j < items.len() implies !same_series(
        #[trigger] items[i],
        #[trigger] items[j],
    ) by {
        assert(label(items[i], 0) == names[i]@ && label(items[j], 0) == names[j]@);
        lemma_label(items[i], items[j], 0);
    }
}

/// Any two texts are different.
spec fn texts_differ(texts: Seq<Seq<char>>) -> bool {
    forall|i: int, j: int| 0 <= i < j < texts.len() ==> #[trigger] texts[i] != #[trigger] texts[j]
}

/// Samples of which one label is another for each.
proof fn lemma_labels(items: Seq<ItemView>, n: int, texts: Seq<Seq<char>>)
    requires
        items.len() == texts.len(),
        texts_differ(texts),
        forall|i: int| 0 <= i < items.len() ==> label(#[trigger] items[i], n) == texts[i],
    ensures
        all_differ(items),
{
    assert forall|i: int, j: int| 0 <= i < j < items.len() implies !same_series(
        #[trigger] items[i],
        #[trigger] items[j],
    ) by {
        assert(texts[i] != texts[j]);
        lemma_label(items[i], items[j], n);
    }
}

proof fn lemma_two_texts(a: Seq<char>, b: Seq<char>)
    requires
        a != b,
    ensures
        texts_differ(seq![a, b]),
{
    let t = seq![a, b];
    assert forall|i: int, j: int| 0 <= i < j < 2 implies #[trigger] t[i] != #[trigger] t[j] by {
        assert(i == 0 && j == 1);
    }
}

proof fn lemma_states()
    ensures
        texts_differ(
            seq!["promised"@, "starting"@, "busy"@, "parking"@, "idle"@, "draining"@],
        ),
{
    reveal_strlit("promised");
    reveal_strlit("starting");
    reveal_strlit("busy");
    reveal_strlit("parking");
    reveal_strlit("idle");
    reveal_strlit("draining");
    assert("promised"@.len() == 8 && "starting"@.len() == 8 && "busy"@.len() == 4
        && "parking"@.len() == 7 && "idle"@.len() == 4 && "draining"@.len() == 8);
    assert("promised"@[0] != "starting"@[0]);
    assert("promised"@[0] != "draining"@[0]);
    assert("starting"@[0] != "draining"@[0]);
    assert("busy"@[0] != "idle"@[0]);
    let t = seq!["promised"@, "starting"@, "busy"@, "parking"@, "idle"@, "draining"@];
    assert forall|i: int, j: int| 0 <= i < j < 6 implies #[trigger] t[i] != #[trigger] t[j] by {
        assert(i == 0 || i == 1 || i == 2 || i == 3 || i == 4 || i == 5);
        assert(j == 0 || j == 1 || j == 2 || j == 3 || j == 4 || j == 5);
    }
}

// ---------------------------------------------------------------------------
// counters by two labels
// ---------------------------------------------------------------------------
/// No two counters have the same labels.
spec fn rows_differ(rows: Seq<Entry>) -> bool {
    forall|i: int, j: int|
        0 <= i < j < rows.len() ==> !((#[trigger] rows[i]).first@ == (#[trigger] rows[j]).first@
            && rows[i].second@ == rows[j].second@)
}

proof fn lemma_tally(t: &Tally)
    requires
        t.wf(),
    ensures
        rows_differ(t.rows.values@),
{
    let order = t.rows.order();
    let rows = t.rows.values@;
    table::lemma_sorted_unique(order);
    assert forall|i: int, j: int| 0 <= i < j < rows.len() implies !((#[trigger] rows[i]).first@ == (
    #[trigger] rows[j]).first@ && rows[i].second@ == rows[j].second@) by {
        table::lemma_row_at(order, rows, i);
        table::lemma_row_at(order, rows, j);
        assert(t.rows@.contains_key(order[i]) && t.rows@.contains_key(order[j]));
        assert(order[i] == table::k2(rows[i].first@, rows[i].second@));
        assert(order[j] == table::k2(rows[j].first@, rows[j].second@));
    }
}

proof fn lemma_kind_apart(
    family: usize,
    k: Seq<char>,
    k2: Seq<char>,
    kind: Seq<char>,
    rows: Seq<Entry>,
    x: ItemView,
)
    requires
        forall|i: int|
            0 <= i < rows.len() && (#[trigger] rows[i]).first@ == kind ==> rows[i].second@ != label(
                x,
                1,
            ),
    ensures
        apart(render::kind_rows(family, k, k2, kind, rows), seq![x]),
    decreases rows.len(),
{
    if rows.len() > 0 {
        let t = rows.drop_last();
        let rest = render::kind_rows(family, k, k2, kind, t);
        let all = render::kind_rows(family, k, k2, kind, rows);
        assert forall|i: int| 0 <= i < t.len() && (#[trigger] t[i]).first@ == kind implies t[i].second@
            != label(x, 1) by {
            assert(t[i] == rows[i]);
        }
        lemma_kind_apart(family, k, k2, kind, t, x);
        let row = rows[rows.len() - 1];
        if row.first@ == kind {
            let item = render::two(family, k, row.first@, k2, row.second@, Value::Count(row.n));
            assert(label(item, 1) == row.second@);
            lemma_label(item, x, 1);
            assert(all =~= rest + seq![item]);
            assert(apart(seq![item], seq![x]));
            lemma_apart_join(rest, seq![item], seq![x]);
        }
    }
}

proof fn lemma_kind_rows(
    family: usize,
    k: Seq<char>,
    k2: Seq<char>,
    kind: Seq<char>,
    rows: Seq<Entry>,
)
    requires
        rows_differ(rows),
    ensures
        all_differ(render::kind_rows(family, k, k2, kind, rows)),
        forall|i: int|
            0 <= i < render::kind_rows(family, k, k2, kind, rows).len() ==> label(
                #[trigger] render::kind_rows(family, k, k2, kind, rows)[i],
                0,
            ) == kind,
    decreases rows.len(),
{
    if rows.len() > 0 {
        let t = rows.drop_last();
        let rest = render::kind_rows(family, k, k2, kind, t);
        let all = render::kind_rows(family, k, k2, kind, rows);
        assert forall|i: int, j: int| 0 <= i < j < t.len() implies !((#[trigger] t[i]).first@ == (
        #[trigger] t[j]).first@ && t[i].second@ == t[j].second@) by {
            assert(t[i] == rows[i] && t[j] == rows[j]);
        }
        lemma_kind_rows(family, k, k2, kind, t);
        let row = rows[rows.len() - 1];
        if row.first@ == kind {
            let item = render::two(family, k, row.first@, k2, row.second@, Value::Count(row.n));
            assert(label(item, 0) == kind && label(item, 1) == row.second@);
            assert forall|i: int| 0 <= i < t.len() && (#[trigger] t[i]).first@ == kind implies t[i].second@
                != label(item, 1) by {
                assert(t[i] == rows[i]);
            }
            lemma_kind_apart(family, k, k2, kind, t, item);
            assert(all =~= rest + seq![item]);
            lemma_join(rest, seq![item]);
            assert forall|i: int| 0 <= i < all.len() implies label(#[trigger] all[i], 0) == kind by {
                if i < rest.len() {
                    assert(all[i] == rest[i]);
                }
            }
        }
    }
}

proof fn lemma_by_kind(
    family: usize,
    k: Seq<char>,
    k2: Seq<char>,
    none: Seq<char>,
    kinds: Seq<&'static str>,
    counts: &Tally,
)
    requires
        names_differ(kinds),
        counts.wf(),
    ensures
        all_differ(render::by_kind(family, k, k2, none, kinds, counts)),
        order::in_order(
            render::by_kind(family, k, k2, none, kinds, counts),
            order::place(family),
            order::place(family),
        ),
{
    let rows = counts.rows.values@;
    let f = |kind: &'static str| render::kind_items(family, k, k2, none, kind@, counts);
    lemma_tally(counts);
    assert forall|i: int| 0 <= i < kinds.len() implies all_differ(f(#[trigger] kinds[i])) by {
        lemma_kind_rows(family, k, k2, kinds[i]@, rows);
    }
    assert forall|i: int, j: int| 0 <= i < j < kinds.len() implies apart(
        f(#[trigger] kinds[i]),
        f(#[trigger] kinds[j]),
    ) by {
        lemma_kind_rows(family, k, k2, kinds[i]@, rows);
        lemma_kind_rows(family, k, k2, kinds[j]@, rows);
        let a = f(kinds[i]);
        let b = f(kinds[j]);
        assert forall|m: int, n: int| 0 <= m < a.len() && 0 <= n < b.len() implies !same_series(
            #[trigger] a[m],
            #[trigger] b[n],
        ) by {
            assert(label(a[m], 0) == kinds[i]@ && label(b[n], 0) == kinds[j]@);
            lemma_label(a[m], b[n], 0);
        }
    }
    lemma_flat(kinds, f);
    order::lemma_by_kind(family, k, k2, none, kinds, counts);
}

proof fn lemma_refusals(counts: &Tally)
    requires
        counts.wf(),
        counts.one_label(),
    ensures
        all_differ(render::refusals(counts)),
        order::in_order(render::refusals(counts), 41, 41),
{
    let rows = counts.rows.values@;
    let items = render::refusals(counts);
    lemma_tally(counts);
    assert forall|i: int, j: int| 0 <= i < j < items.len() implies !same_series(
        #[trigger] items[i],
        #[trigger] items[j],
    ) by {
        table::lemma_row_at(counts.rows.order(), rows, i);
        table::lemma_row_at(counts.rows.order(), rows, j);
        assert(counts.rows@.contains_key(counts.rows.order()[i]));
        assert(counts.rows@.contains_key(counts.rows.order()[j]));
        assert(label(items[i], 0) == rows[i].first@ && label(items[j], 0) == rows[j].first@);
        lemma_label(items[i], items[j], 0);
    }
}

proof fn lemma_operations(counts: &Tally)
    ensures
        all_differ(render::operations(counts)),
        order::in_order(render::operations(counts), 84, 84),
{
    let names = QUEUE_OPERATIONS@;
    let f = |name: &'static str| render::operation(counts, name@);
    lemma_queue_operations();
    reveal_strlit("ok");
    reveal_strlit("error");
    assert("ok"@.len() == 2 && "error"@.len() == 5);
    assert forall|i: int| 0 <= i < names.len() implies all_differ(f(#[trigger] names[i])) by {
        lemma_two_texts("ok"@, "error"@);
        lemma_labels(f(names[i]), 1, seq!["ok"@, "error"@]);
    }
    assert forall|i: int, j: int| 0 <= i < j < names.len() implies apart(
        f(#[trigger] names[i]),
        f(#[trigger] names[j]),
    ) by {
        let a = f(names[i]);
        let b = f(names[j]);
        assert forall|m: int, n: int| 0 <= m < a.len() && 0 <= n < b.len() implies !same_series(
            #[trigger] a[m],
            #[trigger] b[n],
        ) by {
            assert(label(a[m], 0) == names[i]@ && label(b[n], 0) == names[j]@);
            lemma_label(a[m], b[n], 0);
        }
    }
    lemma_flat(names, f);
    order::lemma_flat(names, f, 84);
}

// ---------------------------------------------------------------------------
// revisions, tenants and environments
// ---------------------------------------------------------------------------
/// No two revisions have the same ids, and none has those of the series that
/// folds the rest.
pub open spec fn revisions_differ(list: Seq<RevisionMetrics>) -> bool {
    &&& forall|i: int, j: int|
        0 <= i < j < list.len() ==> !((#[trigger] list[i]).tenant@ == (#[trigger] list[j]).tenant@
            && list[i].revision@ == list[j].revision@)
    &&& forall|i: int|
        0 <= i < list.len() ==> !((#[trigger] list[i]).tenant@ == caps::OTHER@ && list[i].revision@
            == caps::OTHER@)
}

/// No two tenants have the same id, and none has that of the series that folds
/// the rest.
pub open spec fn tenants_differ(list: Seq<TenantMetrics>) -> bool {
    &&& forall|i: int, j: int|
        0 <= i < j < list.len() ==> (#[trigger] list[i]).tenant@ != (#[trigger] list[j]).tenant@
    &&& forall|i: int| 0 <= i < list.len() ==> (#[trigger] list[i]).tenant@ != caps::OTHER@
}

/// No two environments have the same id.
pub open spec fn environments_differ(list: Seq<EnvironmentUsage>) -> bool {
    forall|i: int, j: int|
        0 <= i < j < list.len() ==> (#[trigger] list[i]).environment@ != (
        #[trigger] list[j]).environment@
}

/// No two revision series have the same ids.
pub open spec fn revision_rows_differ(rows: Seq<RevisionRowView>) -> bool {
    forall|i: int, j: int|
        0 <= i < j < rows.len() ==> !((#[trigger] rows[i]).tenant == (#[trigger] rows[j]).tenant
            && rows[i].revision == rows[j].revision)
}

proof fn lemma_folded_revision(rest: Seq<&RevisionMetrics>)
    ensures
        caps::folded_revisions(rest).tenant == caps::OTHER@,
        caps::folded_revisions(rest).revision == caps::OTHER@,
    decreases rest.len(),
{
    if rest.len() > 0 {
        lemma_folded_revision(rest.drop_last());
    }
}

pub(crate) proof fn lemma_revision_rows(list: Seq<RevisionMetrics>, limit: usize)
    requires
        revisions_differ(list),
    ensures
        revision_rows_differ(caps::revision_rows(list, limit)),
{
    let p = |a: &RevisionMetrics, b: &RevisionMetrics|
        !(a.tenant@ == b.tenant@ && a.revision@ == b.revision@);
    let q = |a: &RevisionMetrics| !(a.tenant@ == caps::OTHER@ && a.revision@ == caps::OTHER@);
    let refs = caps::refs(list);
    assert forall|i: int, j: int|
        0 <= i < refs.len() && 0 <= j < refs.len() && i != j implies p(
        #[trigger] refs[i],
        #[trigger] refs[j],
    ) by {
        assert(list[i] == *refs[i] && list[j] == *refs[j]);
    }
    assert forall|i: int| 0 <= i < refs.len() implies q(#[trigger] refs[i]) by {
        assert(list[i] == *refs[i]);
    }
    sorting::lemma_stable_pairs(refs, caps::heavier(), p, q);
    let n = caps::kept(list.len(), limit);
    let ranked = caps::ranked_revisions(list);
    let head = ranked.take(n);
    assert forall|i: int, j: int|
        0 <= i < head.len() && 0 <= j < head.len() && i != j implies p(
        #[trigger] head[i],
        #[trigger] head[j],
    ) by {
        assert(head[i] == ranked[i] && head[j] == ranked[j]);
    }
    assert forall|i: int| 0 <= i < head.len() implies q(#[trigger] head[i]) by {
        assert(head[i] == ranked[i]);
    }
    sorting::lemma_stable_pairs(head, caps::by_revision(), p, q);
    let named = sorting::stable(head, caps::by_revision());
    lemma_folded_revision(ranked.skip(n));
    let rows = caps::revision_rows(list, limit);
    assert forall|i: int, j: int| 0 <= i < j < rows.len() implies !((#[trigger] rows[i]).tenant == (
    #[trigger] rows[j]).tenant && rows[i].revision == rows[j].revision) by {
        assert(rows[i] == caps::revision_row(named[i]));
        assert(q(named[i]));
        if j < named.len() {
            assert(rows[j] == caps::revision_row(named[j]));
            assert(p(named[i], named[j]));
        }
    }
}

/// No two tenant series have the same id.
pub open spec fn tenant_rows_differ(rows: Seq<TenantRowView>) -> bool {
    forall|i: int, j: int|
        0 <= i < j < rows.len() ==> (#[trigger] rows[i]).tenant != (#[trigger] rows[j]).tenant
}

proof fn lemma_folded_tenant(rest: Seq<&TenantMetrics>)
    ensures
        caps::folded_tenants(rest).tenant == caps::OTHER@,
    decreases rest.len(),
{
    if rest.len() > 0 {
        lemma_folded_tenant(rest.drop_last());
    }
}

pub(crate) proof fn lemma_tenant_rows(list: Seq<TenantMetrics>, limit: usize)
    requires
        tenants_differ(list),
    ensures
        tenant_rows_differ(caps::tenant_rows(list, limit)),
{
    let p = |a: &TenantMetrics, b: &TenantMetrics| a.tenant@ != b.tenant@;
    let q = |a: &TenantMetrics| a.tenant@ != caps::OTHER@;
    let refs = caps::refs(list);
    assert forall|i: int, j: int|
        0 <= i < refs.len() && 0 <= j < refs.len() && i != j implies p(
        #[trigger] refs[i],
        #[trigger] refs[j],
    ) by {
        assert(list[i] == *refs[i] && list[j] == *refs[j]);
    }
    assert forall|i: int| 0 <= i < refs.len() implies q(#[trigger] refs[i]) by {
        assert(list[i] == *refs[i]);
    }
    sorting::lemma_stable_pairs(refs, caps::busier(), p, q);
    let n = caps::kept(list.len(), limit);
    let ranked = caps::ranked_tenants(list);
    let head = ranked.take(n);
    assert forall|i: int, j: int|
        0 <= i < head.len() && 0 <= j < head.len() && i != j implies p(
        #[trigger] head[i],
        #[trigger] head[j],
    ) by {
        assert(head[i] == ranked[i] && head[j] == ranked[j]);
    }
    assert forall|i: int| 0 <= i < head.len() implies q(#[trigger] head[i]) by {
        assert(head[i] == ranked[i]);
    }
    sorting::lemma_stable_pairs(head, caps::by_tenant(), p, q);
    let named = sorting::stable(head, caps::by_tenant());
    lemma_folded_tenant(ranked.skip(n));
    let rows = caps::tenant_rows(list, limit);
    assert forall|i: int, j: int| 0 <= i < j < rows.len() implies (#[trigger] rows[i]).tenant != (
    #[trigger] rows[j]).tenant by {
        assert(rows[i] == caps::tenant_row(named[i]));
        assert(q(named[i]));
        if j < named.len() {
            assert(rows[j] == caps::tenant_row(named[j]));
            assert(p(named[i], named[j]));
        }
    }
}

proof fn lemma_revision_family(family: usize, field: RevisionField, rows: Seq<RevisionRowView>)
    requires
        revision_rows_differ(rows),
    ensures
        all_differ(render::revision_family(family, field, rows)),
        order::in_order(render::revision_family(family, field, rows), order::place(family), order::place(family)),
{
    let items = render::revision_family(family, field, rows);
    assert forall|i: int, j: int| 0 <= i < j < items.len() implies !same_series(
        #[trigger] items[i],
        #[trigger] items[j],
    ) by {
        assert(label(items[i], 0) == rows[i].tenant && label(items[j], 0) == rows[j].tenant);
        assert(label(items[i], 1) == rows[i].revision && label(items[j], 1) == rows[j].revision);
    }
}

pub(crate) proof fn lemma_revisions(rows: Seq<RevisionRowView>)
    requires
        revision_rows_differ(rows),
    ensures
        all_differ(render::revisions(rows)),
{
    let f = |r: RevisionRowView| render::revision_states(r);
    assert forall|i: int| 0 <= i < rows.len() implies all_differ(f(#[trigger] rows[i])) by {
        lemma_states();
        lemma_labels(
            f(rows[i]),
            2,
            seq!["promised"@, "starting"@, "busy"@, "parking"@, "idle"@, "draining"@],
        );
    }
    assert forall|i: int, j: int| 0 <= i < j < rows.len() implies apart(
        f(#[trigger] rows[i]),
        f(#[trigger] rows[j]),
    ) by {
        let a = f(rows[i]);
        let b = f(rows[j]);
        assert forall|m: int, n: int| 0 <= m < a.len() && 0 <= n < b.len() implies !same_series(
            #[trigger] a[m],
            #[trigger] b[n],
        ) by {
            assert(label(a[m], 0) == rows[i].tenant && label(b[n], 0) == rows[j].tenant);
            assert(label(a[m], 1) == rows[i].revision && label(b[n], 1) == rows[j].revision);
        }
    }
    lemma_flat(rows, f);
    order::lemma_flat(rows, f, 16);
    lemma_revision_family(
        catalog::REVISION_DESIRED_ENVIRONMENTS,
        RevisionField::Desired,
        rows,
    );
    lemma_revision_family(
        catalog::REVISION_MAX_ENVIRONMENTS,
        RevisionField::MaxEnvironments,
        rows,
    );
    lemma_revision_family(catalog::REVISION_MIN_READY, RevisionField::MinReady, rows);
    lemma_revision_family(catalog::REVISION_QUEUE_LENGTH, RevisionField::Queued, rows);
    lemma_revision_family(
        catalog::REVISION_CIRCUIT_BREAKER_STATE,
        RevisionField::Breaker,
        rows,
    );
    let a = render::flat(rows, f);
    let b = render::revision_family(
        catalog::REVISION_DESIRED_ENVIRONMENTS,
        RevisionField::Desired,
        rows,
    );
    let c = render::revision_family(
        catalog::REVISION_MAX_ENVIRONMENTS,
        RevisionField::MaxEnvironments,
        rows,
    );
    let d = render::revision_family(catalog::REVISION_MIN_READY, RevisionField::MinReady, rows);
    let e = render::revision_family(catalog::REVISION_QUEUE_LENGTH, RevisionField::Queued, rows);
    let g = render::revision_family(
        catalog::REVISION_CIRCUIT_BREAKER_STATE,
        RevisionField::Breaker,
        rows,
    );
    lemma_next(a, b, 16, 16, 17, 17);
    lemma_next(a + b, c, 16, 17, 18, 18);
    lemma_next(a + b + c, d, 16, 18, 19, 19);
    lemma_next(a + b + c + d, e, 16, 19, 20, 20);
    lemma_next(a + b + c + d + e, g, 16, 20, 21, 21);
}

proof fn lemma_tenant_family(family: usize, field: TenantField, rows: Seq<TenantRowView>)
    requires
        tenant_rows_differ(rows),
    ensures
        all_differ(render::tenant_family(family, field, rows)),
        order::in_order(render::tenant_family(family, field, rows), order::place(family), order::place(family)),
{
    let f = |t: TenantRowView| render::tenant_item(family, field, t);
    assert forall|i: int, j: int| 0 <= i < j < rows.len() implies apart(
        f(#[trigger] rows[i]),
        f(#[trigger] rows[j]),
    ) by {
        let a = f(rows[i]);
        let b = f(rows[j]);
        assert forall|m: int, n: int| 0 <= m < a.len() && 0 <= n < b.len() implies !same_series(
            #[trigger] a[m],
            #[trigger] b[n],
        ) by {
            assert(label(a[m], 0) == rows[i].tenant && label(b[n], 0) == rows[j].tenant);
            lemma_label(a[m], b[n], 0);
        }
    }
    lemma_flat(rows, f);
    order::lemma_tenant_family(family, field, rows);
}

pub(crate) proof fn lemma_tenants(rows: Seq<TenantRowView>)
    requires
        tenant_rows_differ(rows),
    ensures
        all_differ(render::tenants(rows)),
{
    lemma_tenant_family(catalog::TENANT_QUEUE_LENGTH, TenantField::Queued, rows);
    lemma_tenant_family(catalog::TENANT_QUEUE_OLDEST_AGE_SECONDS, TenantField::OldestWait, rows);
    lemma_tenant_family(catalog::TENANT_IN_FLIGHT, TenantField::InFlight, rows);
    lemma_tenant_family(catalog::TENANT_MAX_CONCURRENCY, TenantField::MaxConcurrency, rows);
    lemma_tenant_family(catalog::TENANT_GRANTS_TOTAL, TenantField::Grants, rows);
    let a = render::tenant_family(catalog::TENANT_QUEUE_LENGTH, TenantField::Queued, rows);
    let b = render::tenant_family(
        catalog::TENANT_QUEUE_OLDEST_AGE_SECONDS,
        TenantField::OldestWait,
        rows,
    );
    let c = render::tenant_family(catalog::TENANT_IN_FLIGHT, TenantField::InFlight, rows);
    let d = render::tenant_family(
        catalog::TENANT_MAX_CONCURRENCY,
        TenantField::MaxConcurrency,
        rows,
    );
    let e = render::tenant_family(catalog::TENANT_GRANTS_TOTAL, TenantField::Grants, rows);
    lemma_next(a, b, 27, 27, 28, 28);
    lemma_next(a + b, c, 27, 28, 29, 29);
    lemma_next(a + b + c, d, 27, 29, 30, 30);
    lemma_next(a + b + c + d, e, 27, 30, 31, 31);
}

proof fn lemma_stat_family(family: usize, field: StatField, list: Seq<&EnvironmentUsage>)
    requires
        forall|i: int, j: int|
            0 <= i < j < list.len() ==> (#[trigger] list[i]).environment@ != (
            #[trigger] list[j]).environment@,
    ensures
        all_differ(render::stat_family(family, field, list)),
        order::in_order(render::stat_family(family, field, list), order::place(family), order::place(family)),
{
    let f = |e: &EnvironmentUsage| render::stat_item(family, field, e);
    assert forall|i: int, j: int| 0 <= i < j < list.len() implies apart(
        f(#[trigger] list[i]),
        f(#[trigger] list[j]),
    ) by {
        let a = f(list[i]);
        let b = f(list[j]);
        assert forall|m: int, n: int| 0 <= m < a.len() && 0 <= n < b.len() implies !same_series(
            #[trigger] a[m],
            #[trigger] b[n],
        ) by {
            assert(label(a[m], 0) == list[i].environment@ && label(b[n], 0)
                == list[j].environment@);
            lemma_label(a[m], b[n], 0);
        }
    }
    lemma_flat(list, f);
    order::lemma_stat_family(family, field, list);
}

proof fn lemma_stats(list: Seq<EnvironmentUsage>, limit: usize)
    requires
        environments_differ(list),
    ensures
        all_differ(render::stats_of(list, limit)),
        order::in_order(render::stats_of(list, limit), 45, 48),
{
    let p = |a: &EnvironmentUsage, b: &EnvironmentUsage| a.environment@ != b.environment@;
    let q = |a: &EnvironmentUsage| true;
    let refs = caps::refs(list);
    assert forall|i: int, j: int|
        0 <= i < refs.len() && 0 <= j < refs.len() && i != j implies p(
        #[trigger] refs[i],
        #[trigger] refs[j],
    ) by {
        assert(list[i] == *refs[i] && list[j] == *refs[j]);
    }
    sorting::lemma_stable_pairs(refs, render::shown_before(), p, q);
    let sorted = sorting::stable(refs, render::shown_before());
    let listed = render::shown(list, limit);
    assert forall|i: int, j: int| 0 <= i < j < listed.len() implies (
    #[trigger] listed[i]).environment@ != (#[trigger] listed[j]).environment@ by {
        assert(listed[i] == sorted[i] && listed[j] == sorted[j]);
        assert(p(sorted[i], sorted[j]));
    }
    lemma_stat_family(catalog::ENVIRONMENT_CPU_SECONDS_TOTAL, StatField::Cpu, listed);
    lemma_stat_family(catalog::ENVIRONMENT_MEMORY_BYTES, StatField::Memory, listed);
    lemma_stat_family(catalog::ENVIRONMENT_MEMORY_PEAK_BYTES, StatField::MemoryPeak, listed);
    let a = render::stat_family(catalog::ENVIRONMENT_CPU_SECONDS_TOTAL, StatField::Cpu, listed);
    let b = render::stat_family(catalog::ENVIRONMENT_MEMORY_BYTES, StatField::Memory, listed);
    let c = render::stat_family(
        catalog::ENVIRONMENT_MEMORY_PEAK_BYTES,
        StatField::MemoryPeak,
        listed,
    );
    let all = render::stats_of(list, limit);
    let d = all.skip((a + b + c).len() as int);
    assert(all =~= a + b + c + d);
    reveal_strlit("available");
    reveal_strlit("unavailable");
    assert("available"@.len() == 9 && "unavailable"@.len() == 11);
    lemma_two_texts("available"@, "unavailable"@);
    lemma_labels(d, 0, seq!["available"@, "unavailable"@]);
    assert(order::in_order(d, 48, 48));
    lemma_next(a, b, 45, 45, 46, 46);
    lemma_next(a + b, c, 45, 46, 47, 47);
    lemma_next(a + b + c, d, 45, 47, 48, 48);
}

// ---------------------------------------------------------------------------
// phases
// ---------------------------------------------------------------------------
/// Samples of one phase and one kind of start.
spec fn of_run(items: Seq<ItemView>, phase: Seq<char>, kind: Seq<char>) -> bool {
    forall|i: int|
        0 <= i < items.len() ==> label(#[trigger] items[i], 0) == phase && label(items[i], 1) == kind
}

proof fn lemma_runs_apart(
    a: Seq<ItemView>,
    phase: Seq<char>,
    kind: Seq<char>,
    b: Seq<ItemView>,
    phase2: Seq<char>,
    kind2: Seq<char>,
)
    requires
        of_run(a, phase, kind),
        of_run(b, phase2, kind2),
        phase != phase2 || kind != kind2,
    ensures
        apart(a, b),
{
    assert forall|i: int, j: int| 0 <= i < a.len() && 0 <= j < b.len() implies !same_series(
        #[trigger] a[i],
        #[trigger] b[j],
    ) by {
        if phase != phase2 {
            lemma_label(a[i], b[j], 0);
        } else {
            lemma_label(a[i], b[j], 1);
        }
    }
}

proof fn lemma_no_bound_is_endless(i: int)
    requires
        0 <= i < 14,
    ensures
        BOUND_TEXTS@[i]@ != "+Inf"@,
{
    reveal_strlit("+Inf");
    assert("+Inf"@.len() == 4 && "+Inf"@[0] == '+');
    reveal_strlit("0.005");
    reveal_strlit("0.01");
    reveal_strlit("0.025");
    reveal_strlit("0.05");
    reveal_strlit("0.1");
    reveal_strlit("0.25");
    reveal_strlit("0.5");
    reveal_strlit("1");
    reveal_strlit("2.5");
    reveal_strlit("5");
    reveal_strlit("10");
    reveal_strlit("30");
    reveal_strlit("60");
    reveal_strlit("300");
    assert("0.005"@.len() == 5 && "0.01"@.len() == 4 && "0.025"@.len() == 5
        && "0.05"@.len() == 4 && "0.1"@.len() == 3 && "0.25"@.len() == 4 && "0.5"@.len() == 3
        && "1"@.len() == 1 && "2.5"@.len() == 3 && "5"@.len() == 1 && "10"@.len() == 2
        && "30"@.len() == 2 && "60"@.len() == 2 && "300"@.len() == 3);
    assert("0.01"@[0] != '+');
    assert("0.05"@[0] != '+');
    assert("0.25"@[0] != '+');
    assert(i == 0 || i == 1 || i == 2 || i == 3 || i == 4 || i == 5 || i == 6 || i == 7
        || i == 8 || i == 9 || i == 10 || i == 11 || i == 12 || i == 13);
}

proof fn lemma_histogram(phase: Seq<char>, kind: Seq<char>, h: HistogramView)
    ensures
        all_differ(render::histogram(phase, kind, h)),
        of_run(render::histogram(phase, kind, h), phase, kind),
        order::in_order(render::histogram(phase, kind, h), 43, 43),
{
    let a = render::buckets(phase, kind, h);
    let all = render::histogram(phase, kind, h);
    lemma_bound_texts();
    assert forall|i: int, j: int| 0 <= i < j < all.len() implies !same_series(
        #[trigger] all[i],
        #[trigger] all[j],
    ) by {
        if j < 14 {
            assert(label(all[i], 2) == BOUND_TEXTS@[i]@ && label(all[j], 2) == BOUND_TEXTS@[j]@);
            lemma_label(all[i], all[j], 2);
        } else if i < 14 && j == 14 {
            lemma_no_bound_is_endless(i);
            assert(label(all[i], 2) == BOUND_TEXTS@[i]@ && label(all[j], 2) == "+Inf"@);
            lemma_label(all[i], all[j], 2);
        } else if i < 14 {
            assert(all[i] == a[i]);
            assert(all[i].line->0.suffix == Suffix::Bucket);
            assert(all[j].line->0.suffix != Suffix::Bucket);
        }
    }
    assert forall|i: int| 0 <= i < all.len() implies label(#[trigger] all[i], 0) == phase && label(
        all[i],
        1,
    ) == kind by {
        if i < 14 {
            assert(all[i] == a[i]);
        }
    }
}

/// Samples of one phase.
spec fn of_phase(items: Seq<ItemView>, phase: Seq<char>) -> bool {
    forall|i: int| 0 <= i < items.len() ==> label(#[trigger] items[i], 0) == phase
}

proof fn lemma_phases_apart(a: Seq<ItemView>, phase: Seq<char>, b: Seq<ItemView>, other: Seq<char>)
    requires
        of_phase(a, phase),
        of_phase(b, other),
        phase != other,
    ensures
        apart(a, b),
{
    assert forall|i: int, j: int| 0 <= i < a.len() && 0 <= j < b.len() implies !same_series(
        #[trigger] a[i],
        #[trigger] b[j],
    ) by {
        lemma_label(a[i], b[j], 0);
    }
}

proof fn lemma_phase_apart(
    phases: Table<Histogram>,
    phase: Seq<char>,
    n: nat,
    kind: Seq<char>,
    b: Seq<ItemView>,
)
    requires
        of_run(b, phase, kind),
        forall|m: int|
            0 <= m < n && (#[trigger] phases.order()[m])[0] == phase ==> phases.order()[m][1] != kind,
    ensures
        apart(render::phase_histograms(phases, phase, n), b),
    decreases n,
{
    if n > 0 {
        lemma_phase_apart(phases, phase, (n - 1) as nat, kind, b);
        let key = phases.order()[n - 1];
        if key[0] == phase {
            let h = render::histogram(phase, key[1], phases.values@[n - 1]@);
            lemma_histogram(phase, key[1], phases.values@[n - 1]@);
            lemma_runs_apart(h, phase, key[1], b, phase, kind);
            lemma_apart_join(render::phase_histograms(phases, phase, (n - 1) as nat), h, b);
        }
    }
}

proof fn lemma_phase(phases: Table<Histogram>, phase: Seq<char>, n: nat)
    requires
        crate::metrics::are_phases(phases),
        n <= phases.values@.len(),
    ensures
        all_differ(render::phase_histograms(phases, phase, n)),
        of_phase(render::phase_histograms(phases, phase, n), phase),
    decreases n,
{
    if n > 0 {
        lemma_phase(phases, phase, (n - 1) as nat);
        let order = phases.order();
        let key = order[n - 1];
        let rest = render::phase_histograms(phases, phase, (n - 1) as nat);
        let all = render::phase_histograms(phases, phase, n);
        if key[0] == phase {
            let h = render::histogram(phase, key[1], phases.values@[n - 1]@);
            lemma_histogram(phase, key[1], phases.values@[n - 1]@);
            table::lemma_sorted_unique(order);
            assert forall|m: int|
                0 <= m < n - 1 && (#[trigger] order[m])[0] == phase implies order[m][1] != key[1] by {
                crate::metrics::lemma_phase_at(phases, m);
                crate::metrics::lemma_phase_at(phases, n - 1);
                if order[m][1] == key[1] {
                    assert(order[m] =~= key);
                }
            }
            lemma_phase_apart(phases, phase, (n - 1) as nat, key[1], h);
            lemma_join(rest, h);
            assert forall|i: int| 0 <= i < all.len() implies label(#[trigger] all[i], 0) == phase by {
                if i < rest.len() {
                    assert(all[i] == rest[i]);
                } else {
                    assert(all[i] == h[i - rest.len()]);
                }
            }
        }
    }
}

/// The kinds of start at the places ascend.
spec fn kinds_ascend(phases: Table<Histogram>, list: Seq<int>) -> bool {
    forall|i: int, j: int|
        0 <= i < j < list.len() ==> text::text_lt(
            phases.order()[#[trigger] list[i]][1],
            phases.order()[#[trigger] list[j]][1],
        )
}

proof fn lemma_placed(phases: Table<Histogram>, list: Seq<int>, i: int)
    requires
        kinds_ascend(phases, list),
    ensures
        kinds_ascend(phases, render::placed_kind(phases, list, i)),
        forall|m: int|
            0 <= m < render::placed_kind(phases, list, i).len() ==> (
            #[trigger] render::placed_kind(phases, list, i)[m] == i || list.contains(
                render::placed_kind(phases, list, i)[m],
            )),
    decreases list.len(),
{
    let r = render::placed_kind(phases, list, i);
    if list.len() > 0 {
        let t = list.drop_last();
        let last = list[list.len() - 1];
        let kind = phases.order()[i][1];
        let end = phases.order()[last][1];
        text::lemma_text_order(kind, end, kind);
        assert forall|a: int, b: int| 0 <= a < b < t.len() implies text::text_lt(
            phases.order()[#[trigger] t[a]][1],
            phases.order()[#[trigger] t[b]][1],
        ) by {
            assert(t[a] == list[a] && t[b] == list[b]);
        }
        if kind == end {
            assert forall|a: int, b: int| 0 <= a < b < r.len() implies text::text_lt(
                phases.order()[#[trigger] r[a]][1],
                phases.order()[#[trigger] r[b]][1],
            ) by {
                assert(r[a] == list[a]);
                if b < t.len() {
                    assert(r[b] == list[b]);
                } else {
                    assert(text::text_lt(phases.order()[list[a]][1], phases.order()[last][1]));
                }
            }
            assert forall|m: int| 0 <= m < r.len() implies (#[trigger] r[m] == i || list.contains(
                r[m],
            )) by {
                if m < t.len() {
                    assert(list[m] == r[m]);
                }
            }
        } else if text::text_lt(kind, end) {
            lemma_placed(phases, t, i);
            let p = render::placed_kind(phases, t, i);
            assert forall|m: int| 0 <= m < p.len() implies (p[m] == i || t.contains(p[m]))
                && text::text_lt(phases.order()[#[trigger] p[m]][1], end) by {
                if p[m] != i {
                    let k = choose|k: int| 0 <= k < t.len() && t[k] == p[m];
                    assert(list[k] == t[k]);
                    assert(text::text_lt(phases.order()[list[k]][1], phases.order()[last][1]));
                }
            }
            assert forall|a: int, b: int| 0 <= a < b < r.len() implies text::text_lt(
                phases.order()[#[trigger] r[a]][1],
                phases.order()[#[trigger] r[b]][1],
            ) by {
                assert(r[a] == p[a]);
                if b < p.len() {
                    assert(r[b] == p[b]);
                }
            }
            assert forall|m: int| 0 <= m < r.len() implies (#[trigger] r[m] == i || list.contains(
                r[m],
            )) by {
                if m < p.len() {
                    assert(r[m] == p[m]);
                    if p[m] != i {
                        let k = choose|k: int| 0 <= k < t.len() && t[k] == p[m];
                        assert(list[k] == p[m]);
                    }
                } else {
                    assert(list[list.len() - 1] == r[m]);
                }
            }
        } else {
            assert forall|a: int, b: int| 0 <= a < b < r.len() implies text::text_lt(
                phases.order()[#[trigger] r[a]][1],
                phases.order()[#[trigger] r[b]][1],
            ) by {
                assert(r[a] == list[a]);
                if b < list.len() {
                    assert(r[b] == list[b]);
                } else if a < list.len() - 1 {
                    assert(text::text_lt(phases.order()[list[a]][1], phases.order()[last][1]));
                    text::lemma_text_order(phases.order()[list[a]][1], end, kind);
                }
            }
            assert forall|m: int| 0 <= m < r.len() implies (#[trigger] r[m] == i || list.contains(
                r[m],
            )) by {
                if m < list.len() {
                    assert(list[m] == r[m]);
                }
            }
        }
    }
}

proof fn lemma_other_places(phases: Table<Histogram>, n: nat)
    ensures
        kinds_ascend(phases, render::other_places(phases, n)),
    decreases n,
{
    if n > 0 {
        lemma_other_places(phases, (n - 1) as nat);
        lemma_placed(phases, render::other_places(phases, (n - 1) as nat), n - 1);
    }
}

proof fn lemma_other_is_no_phase(i: int)
    requires
        0 <= i < 6,
    ensures
        PHASES@[i]@ != "other"@,
{
    reveal_strlit("queue_wait");
    reveal_strlit("boot");
    reveal_strlit("init");
    reveal_strlit("resume");
    reveal_strlit("handler");
    reveal_strlit("total");
    reveal_strlit("other");
    assert("queue_wait"@.len() == 10 && "boot"@.len() == 4 && "init"@.len() == 4
        && "resume"@.len() == 6 && "handler"@.len() == 7 && "total"@.len() == 5
        && "other"@.len() == 5);
    assert("boot"@[0] != "init"@[0]);
    assert("total"@[0] != "other"@[0]);
    assert(i == 0 || i == 1 || i == 2 || i == 3 || i == 4 || i == 5);
}

proof fn lemma_of_phase<T>(list: Seq<T>, f: spec_fn(T) -> Seq<ItemView>, phase: Seq<char>)
    requires
        forall|i: int| 0 <= i < list.len() ==> of_phase(f(#[trigger] list[i]), phase),
    ensures
        of_phase(render::flat(list, f), phase),
    decreases list.len(),
{
    if list.len() > 0 {
        let t = list.drop_last();
        assert forall|i: int| 0 <= i < t.len() implies of_phase(f(#[trigger] t[i]), phase) by {
            assert(t[i] == list[i]);
        }
        lemma_of_phase(t, f, phase);
        let a = render::flat(t, f);
        let b = f(list[list.len() - 1]);
        let c = a + b;
        assert(of_phase(b, phase));
        assert forall|i: int| 0 <= i < c.len() implies label(#[trigger] c[i], 0) == phase by {
            if i < a.len() {
                assert(c[i] == a[i]);
            } else {
                assert(c[i] == b[i - a.len()]);
            }
        }
    }
}

proof fn lemma_phases(phases: Table<Histogram>)
    requires
        crate::metrics::are_phases(phases),
    ensures
        all_differ(render::phases_of(phases)),
        order::in_order(render::phases_of(phases), 43, 43),
{
    let n = phases.values@.len();
    let f = |phase: &'static str| render::phase_histograms(phases, phase@, n);
    let g = |i: int| render::other_histogram(phases, i);
    let names = PHASES@;
    let list = render::other_places(phases, n);
    lemma_phase_names();
    assert forall|i: int| 0 <= i < names.len() implies all_differ(f(#[trigger] names[i])) && of_phase(
        f(names[i]),
        names[i]@,
    ) by {
        lemma_phase(phases, names[i]@, n);
    }
    assert forall|i: int, j: int| 0 <= i < j < names.len() implies apart(
        f(#[trigger] names[i]),
        f(#[trigger] names[j]),
    ) by {
        lemma_phases_apart(f(names[i]), names[i]@, f(names[j]), names[j]@);
    }
    lemma_flat(names, f);
    lemma_other_places(phases, n);
    assert forall|i: int| 0 <= i < list.len() implies all_differ(g(#[trigger] list[i])) && of_phase(
        g(list[i]),
        "other"@,
    ) by {
        lemma_histogram("other"@, phases.order()[list[i]][1], phases.values@[list[i]]@);
    }
    assert forall|i: int, j: int| 0 <= i < j < list.len() implies apart(
        g(#[trigger] list[i]),
        g(#[trigger] list[j]),
    ) by {
        let x = phases.order()[list[i]][1];
        let y = phases.order()[list[j]][1];
        text::lemma_text_order(x, y, x);
        lemma_histogram("other"@, x, phases.values@[list[i]]@);
        lemma_histogram("other"@, y, phases.values@[list[j]]@);
        lemma_runs_apart(g(list[i]), "other"@, x, g(list[j]), "other"@, y);
    }
    lemma_flat(list, g);
    lemma_of_phase(list, g, "other"@);
    let head = seq![render::header(catalog::ATTEMPT_PHASE_SECONDS)];
    let a = render::flat(names, f);
    let b = render::flat(list, g);
    assert forall|i: int| 0 <= i < names.len() implies apart(f(#[trigger] names[i]), b) by {
        lemma_other_is_no_phase(i);
        lemma_phases_apart(f(names[i]), names[i]@, b, "other"@);
    }
    lemma_flat_apart(names, f, b);
    lemma_join(head, a);
    lemma_apart_join(head, a, b);
    lemma_join(head + a, b);
    order::lemma_phases(phases);
}

// ---------------------------------------------------------------------------
// the exposition
// ---------------------------------------------------------------------------
pub(crate) proof fn lemma_about(input: &MetricsInput)
    ensures
        all_differ(render::about(input)),
{
    let all = render::about(input);
    let a = seq![all[0]];
    let b = seq![all[1], all[2]];
    let c = seq![all[3], all[4], all[5]];
    assert(all =~= a + b + c);
    reveal_strlit("warm_reuse");
    reveal_strlit("every_invocation_boots");
    assert("warm_reuse"@.len() == 10 && "every_invocation_boots"@.len() == 22);
    lemma_two_texts("warm_reuse"@, "every_invocation_boots"@);
    lemma_labels(b, 1, seq!["warm_reuse"@, "every_invocation_boots"@]);
    lemma_rises(a, 0, 0);
    lemma_rises(c, 2, 4);
    assert(order::in_order(b, 1, 1));
    lemma_next(a, b, 0, 0, 1, 1);
    lemma_next(a + b, c, 0, 1, 2, 4);
}

pub(crate) proof fn lemma_node(a: &AdmissionMetrics)
    ensures
        all_differ(render::node(a)),
{
    let all = render::node(a);
    let states = render::node_states(a.environments);
    let head = all.take(all.len() - 6);
    assert(all =~= head + states);
    assert(rises(head, 5, 14));
    lemma_rises(head, 5, 14);
    lemma_states();
    lemma_labels(
        states,
        0,
        seq!["promised"@, "starting"@, "busy"@, "parking"@, "idle"@, "draining"@],
    );
    assert(order::in_order(states, 15, 15));
    lemma_next(head, states, 5, 14, 15, 15);
}

pub(crate) proof fn lemma_queue(a: &AdmissionMetrics)
    ensures
        all_differ(render::queue(a)),
{
    lemma_rises(render::queue(a), 22, 26);
}

pub(crate) proof fn lemma_admission(a: &AdmissionMetrics)
    requires
        a.counters.scale_events.wf(),
    ensures
        all_differ(render::admission(a)),
{
    let all = render::admission(a);
    let tokens = seq![all[0], all[1]];
    let grants = seq![all[2], all[3]];
    let rejections = render::counts(
        catalog::ADMISSION_REJECTIONS_TOTAL,
        "reason"@,
        REJECT_REASONS@,
        &a.rejections,
    );
    let waits = seq![all[11], all[12]];
    let starts = seq![all[13], all[14]];
    let opens = seq![all[15]];
    let events = render::by_kind(
        catalog::SCALE_EVENTS_TOTAL,
        "kind"@,
        "reason"@,
        "none"@,
        SCALE_KINDS@,
        &a.counters.scale_events,
    );
    assert(rejections.len() == 7);
    assert(all =~= tokens + grants + rejections + waits + starts + opens + events);
    reveal_strlit("cold");
    reveal_strlit("warm");
    assert("cold"@.len() == 4 && "warm"@.len() == 4);
    assert("cold"@[0] != "warm"@[0]);
    reveal_strlit("success");
    reveal_strlit("failure");
    assert("success"@.len() == 7 && "failure"@.len() == 7);
    assert("success"@[0] != "failure"@[0]);
    lemma_two_texts("cold"@, "warm"@);
    lemma_two_texts("success"@, "failure"@);
    lemma_labels(grants, 0, seq!["cold"@, "warm"@]);
    lemma_labels(starts, 0, seq!["success"@, "failure"@]);
    lemma_reject_reasons();
    lemma_counts(
        catalog::ADMISSION_REJECTIONS_TOTAL,
        "reason"@,
        REJECT_REASONS@,
        &a.rejections,
    );
    lemma_scale_kinds();
    lemma_by_kind(
        catalog::SCALE_EVENTS_TOTAL,
        "kind"@,
        "reason"@,
        "none"@,
        SCALE_KINDS@,
        &a.counters.scale_events,
    );
    lemma_rises(tokens, 32, 33);
    lemma_rises(waits, 36, 37);
    lemma_rises(opens, 39, 39);
    assert(order::in_order(grants, 34, 34));
    assert(order::in_order(starts, 38, 38));
    lemma_next(tokens, grants, 32, 33, 34, 34);
    lemma_next(tokens + grants, rejections, 32, 34, 35, 35);
    lemma_next(tokens + grants + rejections, waits, 32, 35, 36, 37);
    lemma_next(tokens + grants + rejections + waits, starts, 32, 37, 38, 38);
    lemma_next(tokens + grants + rejections + waits + starts, opens, 32, 38, 39, 39);
    lemma_next(tokens + grants + rejections + waits + starts + opens, events, 32, 39, 40, 40);
}

proof fn lemma_boot_results()
    ensures
        texts_differ(seq!["first_boot"@, "same_boot"@, "boot_changed"@, "unreported"@]),
{
    reveal_strlit("first_boot");
    reveal_strlit("same_boot");
    reveal_strlit("boot_changed");
    reveal_strlit("unreported");
    assert("first_boot"@.len() == 10 && "same_boot"@.len() == 9 && "boot_changed"@.len() == 12
        && "unreported"@.len() == 10);
    assert("first_boot"@[0] != "unreported"@[0]);
    let t = seq!["first_boot"@, "same_boot"@, "boot_changed"@, "unreported"@];
    assert forall|i: int, j: int| 0 <= i < j < 4 implies #[trigger] t[i] != #[trigger] t[j] by {
        assert(i == 0 || i == 1 || i == 2 || i == 3);
        assert(j == 0 || j == 1 || j == 2 || j == 3);
    }
}

pub(crate) proof fn lemma_attempts(e: &MetricsSnapshot)
    requires
        e.wf(),
    ensures
        all_differ(render::attempts(e)),
{
    let a = render::refusals(&e.gate_refusals);
    let b = render::by_kind(
        catalog::ATTEMPTS_TOTAL,
        "start_kind"@,
        "status"@,
        "succeeded"@,
        START_KINDS@,
        &e.attempts,
    );
    let c = render::phases_of(e.phases);
    let all = render::attempts(e);
    let d = all.skip((a + b + c).len() as int);
    assert(all =~= a + b + c + d);
    lemma_refusals(&e.gate_refusals);
    lemma_start_kinds();
    lemma_by_kind(
        catalog::ATTEMPTS_TOTAL,
        "start_kind"@,
        "status"@,
        "succeeded"@,
        START_KINDS@,
        &e.attempts,
    );
    lemma_phases(e.phases);
    lemma_boot_results();
    lemma_labels(d, 0, seq!["first_boot"@, "same_boot"@, "boot_changed"@, "unreported"@]);
    assert(order::in_order(d, 44, 44));
    lemma_next(a, b, 41, 41, 42, 42);
    lemma_next(a + b, c, 41, 42, 43, 43);
    lemma_next(a + b + c, d, 41, 43, 44, 44);
}

pub(crate) proof fn lemma_host(input: &MetricsInput)
    requires
        environments_differ(input.environments@),
    ensures
        all_differ(render::host(input)),
{
    let a = render::stats_of(input.environments@, input.limits.environments);
    let all = render::host(input);
    let b = all.skip(a.len() as int);
    assert(all =~= a + b);
    lemma_stats(input.environments@, input.limits.environments);
    lemma_rises(b, 49, 51);
    lemma_next(a, b, 45, 48, 49, 51);
}

pub(crate) proof fn lemma_dispatcher(input: &MetricsInput)
    ensures
        all_differ(render::dispatcher(input)),
{
    let all = render::dispatcher(input);
    let a = seq![all[0]];
    let b = render::counts(
        catalog::DISPATCHER_HEARTBEATS_TOTAL,
        "result"@,
        HEARTBEAT_RESULTS@,
        &input.events.heartbeats,
    );
    assert(b.len() == 3);
    let c = all.skip(4);
    assert(all =~= a + b + c);
    lemma_heartbeat_results();
    lemma_counts(
        catalog::DISPATCHER_HEARTBEATS_TOTAL,
        "result"@,
        HEARTBEAT_RESULTS@,
        &input.events.heartbeats,
    );
    lemma_rises(a, 52, 52);
    assert(rises(c, 54, 61));
    lemma_rises(c, 54, 61);
    lemma_next(a, b, 52, 52, 53, 53);
    lemma_next(a + b, c, 52, 53, 54, 61);
}

pub(crate) proof fn lemma_triggers(t: &TriggerMetricsSnapshot)
    ensures
        all_differ(render::triggers(t)),
{
    let all = render::triggers(t);
    let a = seq![all[0]];
    let b = render::counts(catalog::TRIGGER_CRON_FIRES_TOTAL, "result"@, CRON_RESULTS@, &t.cron);
    let c = render::counts(
        catalog::TRIGGER_CRON_MISSED_RUNS_TOTAL,
        "action"@,
        MISSED_ACTIONS@,
        &t.missed,
    );
    let d = render::counts(
        catalog::TRIGGER_WEBHOOK_DELIVERIES_TOTAL,
        "result"@,
        WEBHOOK_RESULTS@,
        &t.webhook,
    );
    assert(all =~= a + b + c + d);
    lemma_cron_results();
    lemma_missed_actions();
    lemma_webhook_results();
    lemma_counts(catalog::TRIGGER_CRON_FIRES_TOTAL, "result"@, CRON_RESULTS@, &t.cron);
    lemma_counts(
        catalog::TRIGGER_CRON_MISSED_RUNS_TOTAL,
        "action"@,
        MISSED_ACTIONS@,
        &t.missed,
    );
    lemma_counts(
        catalog::TRIGGER_WEBHOOK_DELIVERIES_TOTAL,
        "result"@,
        WEBHOOK_RESULTS@,
        &t.webhook,
    );
    lemma_rises(a, 62, 62);
    lemma_next(a, b, 62, 62, 63, 63);
    lemma_next(a + b, c, 62, 63, 64, 64);
    lemma_next(a + b + c, d, 62, 64, 65, 65);
}

pub(crate) proof fn lemma_outbox(o: &OutboxMetrics, now: crate::time::Timestamp)
    ensures
        all_differ(render::outbox(o, now)),
{
    let all = render::outbox(o, now);
    let a = seq![all[0], all[1], all[2]];
    let b = seq![all[3], all[4], all[5]];
    assert(all =~= a + b);
    reveal_strlit("healthy");
    reveal_strlit("full");
    reveal_strlit("unavailable");
    assert("healthy"@.len() == 7 && "full"@.len() == 4 && "unavailable"@.len() == 11);
    let t = seq!["healthy"@, "full"@, "unavailable"@];
    assert forall|i: int, j: int| 0 <= i < j < 3 implies #[trigger] t[i] != #[trigger] t[j] by {
        assert(i == 0 || i == 1);
        assert(j == 1 || j == 2);
    }
    lemma_labels(b, 0, t);
    lemma_rises(a, 66, 68);
    assert(order::in_order(b, 69, 69));
    lemma_next(a, b, 66, 68, 69, 69);
}

pub(crate) proof fn lemma_usage(u: &UsageMetrics, now: crate::time::Timestamp)
    ensures
        all_differ(render::usage(u, now)),
{
    assert(rises(render::usage(u, now), 70, 82));
    lemma_rises(render::usage(u, now), 70, 82);
}

pub(crate) proof fn lemma_dispatch(d: &AsyncDispatchSnapshot)
    ensures
        all_differ(render::dispatch(d)),
{
    let all = render::dispatch(d);
    let a = render::counts(
        catalog::ASYNC_DISPATCH_DELIVERIES_TOTAL,
        "outcome"@,
        DELIVERY_OUTCOMES@,
        &d.deliveries,
    );
    let b = render::operations(&d.queue_operations);
    let c = seq![render::plain(catalog::ASYNC_DISPATCH_RUNS_IN_FLIGHT, Value::Count(d.in_flight))];
    let e = render::counts(
        catalog::ASYNC_RETRIES_SCHEDULED_TOTAL,
        "kind"@,
        RETRY_KINDS@,
        &d.retries,
    );
    let f = render::counts(
        catalog::ASYNC_DEAD_LETTERS_TOTAL,
        "reason"@,
        DEAD_LETTER_REASONS@,
        &d.dead_letters,
    );
    let g = seq![render::plain(catalog::ASYNC_REDRIVES_TOTAL, Value::Count(d.redrives))];
    let h = render::counts(
        catalog::ASYNC_REAPER_ACTIONS_TOTAL,
        "action"@,
        REAPER_ACTIONS@,
        &d.reaper,
    );
    assert(all == a + b + c + e + f + g + h);
    lemma_delivery_outcomes();
    lemma_retry_kinds();
    lemma_dead_letter_reasons();
    lemma_reaper_actions();
    lemma_counts(
        catalog::ASYNC_DISPATCH_DELIVERIES_TOTAL,
        "outcome"@,
        DELIVERY_OUTCOMES@,
        &d.deliveries,
    );
    lemma_operations(&d.queue_operations);
    lemma_counts(catalog::ASYNC_RETRIES_SCHEDULED_TOTAL, "kind"@, RETRY_KINDS@, &d.retries);
    lemma_counts(
        catalog::ASYNC_DEAD_LETTERS_TOTAL,
        "reason"@,
        DEAD_LETTER_REASONS@,
        &d.dead_letters,
    );
    lemma_counts(catalog::ASYNC_REAPER_ACTIONS_TOTAL, "action"@, REAPER_ACTIONS@, &d.reaper);
    lemma_rises(c, 85, 85);
    lemma_rises(g, 88, 88);
    lemma_next(a, b, 83, 83, 84, 84);
    lemma_next(a + b, c, 83, 84, 85, 85);
    lemma_next(a + b + c, e, 83, 85, 86, 86);
    lemma_next(a + b + c + e, f, 83, 86, 87, 87);
    lemma_next(a + b + c + e + f, g, 83, 87, 88, 88);
    lemma_next(a + b + c + e + f + g, h, 83, 88, 89, 89);
}

pub(crate) proof fn lemma_optional(input: &MetricsInput)
    ensures
        all_differ(render::optional(input)),
{
    let a = render::triggers_of(input);
    let b = render::outbox_of(input);
    let c = render::usage_of(input);
    let d = render::dispatch_of(input);
    if let Some(t) = input.triggers {
        lemma_triggers(&t);
        order::lemma_triggers(&t);
    }
    if let Some(o) = input.outbox {
        lemma_outbox(&o, input.now);
        order::lemma_outbox(&o, input.now);
    }
    if let Some(u) = input.usage {
        lemma_usage(&u, input.now);
        order::lemma_usage(&u, input.now);
    }
    if let Some(x) = input.dispatch {
        lemma_dispatch(&x);
        order::lemma_dispatch(&x);
    }
    lemma_next(a, b, 62, 65, 66, 69);
    lemma_next(a + b, c, 62, 69, 70, 82);
    lemma_next(a + b + c, d, 62, 82, 83, 89);
}

pub(crate) proof fn lemma_truncated(input: &MetricsInput)
    ensures
        all_differ(render::truncated(input)),
        order::in_order(render::truncated(input), 90, 90),
{
    reveal_strlit("revision");
    reveal_strlit("tenant");
    reveal_strlit("environment");
    assert("revision"@.len() == 8 && "tenant"@.len() == 6 && "environment"@.len() == 11);
    let t = seq!["revision"@, "tenant"@, "environment"@];
    assert forall|i: int, j: int| 0 <= i < j < 3 implies #[trigger] t[i] != #[trigger] t[j] by {
        assert(i == 0 || i == 1);
        assert(j == 1 || j == 2);
    }
    lemma_labels(render::truncated(input), 0, t);
}

/// What is told apart by ids has different ones.
pub open spec fn ids_differ(input: &MetricsInput) -> bool {
    &&& revisions_differ(input.admission.revisions@)
    &&& tenants_differ(input.admission.tenants@)
    &&& environments_differ(input.environments@)
}

proof fn lemma_samples(input: &MetricsInput)
    requires
        render::renderable(input),
        ids_differ(input),
    ensures
        all_differ(render::samples_of(input)),
{
    let rows = caps::revision_rows(input.admission.revisions@, input.limits.revisions);
    let tenant_rows = caps::tenant_rows(input.admission.tenants@, input.limits.tenants);
    lemma_revision_rows(input.admission.revisions@, input.limits.revisions);
    lemma_tenant_rows(input.admission.tenants@, input.limits.tenants);
    lemma_about(input);
    order::lemma_about(input);
    lemma_node(&input.admission);
    order::lemma_node(&input.admission);
    lemma_revisions(rows);
    order::lemma_revisions(rows);
    lemma_queue(&input.admission);
    order::lemma_queue(&input.admission);
    lemma_tenants(tenant_rows);
    order::lemma_tenants(tenant_rows);
    lemma_admission(&input.admission);
    order::lemma_admission(&input.admission);
    lemma_attempts(&input.events);
    order::lemma_attempts(&input.events);
    lemma_host(input);
    order::lemma_host(input);
    lemma_dispatcher(input);
    order::lemma_dispatcher(input);
    lemma_optional(input);
    order::lemma_optional(input);
    lemma_truncated(input);
    let a = render::about(input);
    let b = a + render::node(&input.admission);
    let c = b + render::revisions(rows);
    let d = c + render::queue(&input.admission);
    let e = d + render::tenants(tenant_rows);
    let f = e + render::admission(&input.admission);
    let g = f + render::attempts(&input.events);
    let h = g + render::host(input);
    let k = h + render::dispatcher(input);
    let l = k + render::optional(input);
    lemma_next(a, render::node(&input.admission), 0, 4, 5, 15);
    lemma_next(b, render::revisions(rows), 0, 15, 16, 21);
    lemma_next(c, render::queue(&input.admission), 0, 21, 22, 26);
    lemma_next(d, render::tenants(tenant_rows), 0, 26, 27, 31);
    lemma_next(e, render::admission(&input.admission), 0, 31, 32, 40);
    lemma_next(f, render::attempts(&input.events), 0, 40, 41, 44);
    lemma_next(g, render::host(input), 0, 44, 45, 51);
    lemma_next(h, render::dispatcher(input), 0, 51, 52, 61);
    lemma_next(k, render::optional(input), 0, 61, 62, 89);
    lemma_next(l, render::truncated(input), 0, 89, 90, 90);
}

/// Two samples that are written under the same name with the same labels.
pub open spec fn written_alike(a: ItemView, b: ItemView) -> bool {
    match (a.line, b.line) {
        (Some(x), Some(y)) => catalog::name_of(a.family as int) + x.suffix.spec_text()
            == catalog::name_of(b.family as int) + y.suffix.spec_text() && x.labels == y.labels,
        _ => false,
    }
}

/// No series is written twice: where the ids are distinct, any two samples of
/// an exposition differ in their written name or in their labels.
pub proof fn law_no_series_is_written_twice(input: &MetricsInput, i: int, j: int)
    requires
        render::renderable(input),
        ids_differ(input),
        0 <= i < j < render::samples_of(input).len(),
    ensures
        !written_alike(render::samples_of(input)[i], render::samples_of(input)[j]),
{
    lemma_samples(input);
    order::lemma_samples(input);
    let a = render::samples_of(input)[i];
    let b = render::samples_of(input)[j];
    assert(order::place(a.family) <= 90 && order::place(b.family) <= 90);
    if let (Some(x), Some(y)) = (a.line, b.line) {
        if a.family != b.family || x.suffix != y.suffix {
            names::law_written_names_differ(
                a.family as int,
                x.suffix,
                b.family as int,
                y.suffix,
            );
        }
    }
}

} // verus!
