//! What a page shows: for every value of the input the sample that shows it,
//! by the name and the labels that it is written under.

use vstd::prelude::*;

use crate::metrics::caps;
use crate::metrics::caps::{RevisionRowView, TenantRowView};
use crate::metrics::catalog;
use crate::metrics::dispatch::QUEUE_OPERATIONS;
use crate::metrics::exposition::{ItemView, LabelsView, Suffix, Value};
use crate::metrics::input::{EnvironmentUsage, MetricsInput};
use crate::metrics::names;
use crate::metrics::order;
use crate::metrics::render;
use crate::metrics::render::TenantField;
use crate::metrics::series;
use crate::metrics::sorting;
use crate::metrics::tally::{Entry, Tally};
use crate::metrics::{Histogram, PHASES};
use crate::table::Table;
use crate::text;
use crate::time;
use crate::time::Timestamp;

verus! {

/// A sample of the family `name`.
pub open spec fn is_of(item: ItemView, name: Seq<char>) -> bool {
    catalog::name_of(item.family as int) == name
}

/// A sample written under a name, a suffix and labels.
pub open spec fn is_series(
    item: ItemView,
    name: Seq<char>,
    suffix: Suffix,
    labels: LabelsView,
) -> bool {
    &&& is_of(item, name)
    &&& item.line is Some
    &&& item.line->0.suffix == suffix
    &&& item.line->0.labels == labels
}

/// Exactly one of the samples is written under the name, the suffix and the
/// labels, and it has the value.
pub open spec fn shown_at(
    items: Seq<ItemView>,
    name: Seq<char>,
    suffix: Suffix,
    labels: LabelsView,
    value: Value,
    i: int,
) -> bool {
    &&& 0 <= i < items.len()
    &&& is_series(items[i], name, suffix, labels)
    &&& items[i].line->0.value == value
    &&& forall|j: int|
        0 <= j < items.len() && #[trigger] is_series(items[j], name, suffix, labels) ==> j == i
}

/// The samples show the value under the name and the labels, and nothing else
/// under them.
pub open spec fn shown_in(
    items: Seq<ItemView>,
    name: Seq<char>,
    labels: LabelsView,
    value: Value,
) -> bool {
    exists|i: int| #[trigger] shown_at(items, name, Suffix::Plain, labels, value, i)
}

/// No sample is of the family `name`.
pub open spec fn hidden_in(items: Seq<ItemView>, name: Seq<char>) -> bool {
    forall|i: int| 0 <= i < items.len() ==> !(#[trigger] is_of(items[i], name))
}

/// The page shows the value under the name and the labels, and shows nothing
/// else under them.
pub open spec fn shows(
    input: &MetricsInput,
    name: Seq<char>,
    labels: LabelsView,
    value: Value,
) -> bool {
    shown_in(render::samples_of(input), name, labels, value)
}

/// The page has no sample of the family `name`.
pub open spec fn hides(input: &MetricsInput, name: Seq<char>) -> bool {
    hidden_in(render::samples_of(input), name)
}

/// `part` stands among the samples from `at` on, and the families of those
/// outside it are none between two places.
spec fn stands_at(items: Seq<ItemView>, part: Seq<ItemView>, lo: int, hi: int, at: int) -> bool {
    &&& 0 <= at
    &&& at + part.len() <= items.len()
    &&& forall|i: int| 0 <= i < part.len() ==> #[trigger] part[i] == items[at + i]
    &&& forall|i: int|
        0 <= i < items.len() && lo <= order::place((#[trigger] items[i]).family) <= hi ==> at <= i
            < at + part.len()
}

proof fn lemma_stands(before: Seq<ItemView>, part: Seq<ItemView>, lo: int, hi: int)
    requires
        order::in_order(before, 0, lo - 1),
    ensures
        stands_at(before + part, part, lo, hi, before.len() as int),
{
    let items = before + part;
    assert forall|i: int| 0 <= i < part.len() implies #[trigger] part[i] == items[before.len() + i] by {
    }
    assert forall|i: int|
        0 <= i < items.len() && lo <= order::place((#[trigger] items[i]).family) <= hi implies before.len()
        <= i < before.len() + part.len() by {
        if i < before.len() {
            assert(items[i] == before[i]);
            assert(order::place(before[i].family) <= lo - 1);
        }
    }
}

proof fn lemma_still_stands(
    items: Seq<ItemView>,
    part: Seq<ItemView>,
    lo: int,
    hi: int,
    at: int,
    more: Seq<ItemView>,
    next: int,
    last: int,
)
    requires
        stands_at(items, part, lo, hi, at),
        order::in_order(more, next, last),
        hi < next,
    ensures
        stands_at(items + more, part, lo, hi, at),
{
    let all = items + more;
    assert forall|i: int| 0 <= i < part.len() implies #[trigger] part[i] == all[at + i] by {
        assert(all[at + i] == items[at + i]);
    }
    assert forall|i: int|
        0 <= i < all.len() && lo <= order::place((#[trigger] all[i]).family) <= hi implies at <= i < at
        + part.len() by {
        if i < items.len() {
            assert(all[i] == items[i]);
        } else {
            assert(all[i] == more[i - items.len()]);
            assert(order::place(more[i - items.len()].family) >= next);
        }
    }
}

/// A family is known by its name.
proof fn lemma_known_by_name(a: usize, b: usize)
    requires
        a < 91,
        b < 91,
        catalog::name_of(a as int) == catalog::name_of(b as int),
    ensures
        a == b,
{
    if a < b {
        names::law_family_names_differ(a as int, b as int);
    } else if b < a {
        names::law_family_names_differ(b as int, a as int);
    }
}

/// A sample of a part in which no series is written twice is shown.
proof fn lemma_shown(
    items: Seq<ItemView>,
    part: Seq<ItemView>,
    lo: int,
    hi: int,
    at: int,
    k: int,
    name: Seq<char>,
)
    requires
        stands_at(items, part, lo, hi, at),
        order::in_order(items, 0, 90),
        order::in_order(part, lo, hi),
        series::all_differ(part),
        0 <= k < part.len(),
        part[k].line is Some,
        is_of(part[k], name),
    ensures
        shown_at(
            items,
            name,
            part[k].line->0.suffix,
            part[k].line->0.labels,
            part[k].line->0.value,
            at + k,
        ),
{
    let suffix = part[k].line->0.suffix;
    let labels = part[k].line->0.labels;
    assert(part[k] == items[at + k]);
    assert(order::place(items[at + k].family) <= 90);
    assert forall|j: int|
        0 <= j < items.len() && #[trigger] is_series(items[j], name, suffix, labels) implies j == at
        + k by {
        assert(order::place(items[j].family) <= 90);
        lemma_known_by_name(items[j].family, part[k].family);
        assert(lo <= order::place(part[k].family) <= hi);
        assert(part[j - at] == items[at + (j - at)]);
        if j - at < k {
            assert(!series::same_series(part[j - at], part[k]));
        } else if j - at > k {
            assert(!series::same_series(part[k], part[j - at]));
        }
    }
}

/// A family that no sample of its part has is not shown.
proof fn lemma_hidden(
    items: Seq<ItemView>,
    part: Seq<ItemView>,
    lo: int,
    hi: int,
    at: int,
    family: usize,
    name: Seq<char>,
)
    requires
        stands_at(items, part, lo, hi, at),
        order::in_order(items, 0, 90),
        family < 91,
        lo <= order::place(family) <= hi,
        catalog::name_of(family as int) == name,
        forall|i: int| 0 <= i < part.len() ==> (#[trigger] part[i]).family != family,
    ensures
        hidden_in(items, name),
{
    assert forall|i: int| 0 <= i < items.len() implies !(#[trigger] is_of(items[i], name)) by {
        assert(order::place(items[i].family) <= 90);
        if is_of(items[i], name) {
            lemma_known_by_name(items[i].family, family);
            assert(part[i - at] == items[at + (i - at)]);
        }
    }
}

proof fn lemma_parts_in_order(input: &MetricsInput)
    ensures
        order::in_order(render::about(input), 0, 4),
        order::in_order(render::node(&input.admission), 5, 15),
        order::in_order(render::revisions(caps::revision_rows(input.admission.revisions@, input.limits.revisions)), 16, 21),
        order::in_order(render::queue(&input.admission), 22, 26),
        order::in_order(render::tenants(caps::tenant_rows(input.admission.tenants@, input.limits.tenants)), 27, 31),
        order::in_order(render::admission(&input.admission), 32, 40),
        order::in_order(render::attempts(&input.events), 41, 44),
        order::in_order(render::host(input), 45, 51),
        order::in_order(render::dispatcher(input), 52, 61),
        order::in_order(render::optional(input), 62, 89),
        order::in_order(render::truncated(input), 90, 90),
        order::in_order(render::samples_of(input), 0, 90),
{
    let rows = caps::revision_rows(input.admission.revisions@, input.limits.revisions);
    let tenant_rows = caps::tenant_rows(input.admission.tenants@, input.limits.tenants);
    order::lemma_about(input);
    order::lemma_node(&input.admission);
    order::lemma_revisions(rows);
    order::lemma_queue(&input.admission);
    order::lemma_tenants(tenant_rows);
    order::lemma_admission(&input.admission);
    order::lemma_attempts(&input.events);
    order::lemma_host(input);
    order::lemma_dispatcher(input);
    order::lemma_optional(input);
    series::lemma_truncated(input);
    order::lemma_samples(input);
}

/// What stands before a part of the page.
spec fn before(input: &MetricsInput, part: int) -> Seq<ItemView> {
    let rows = caps::revision_rows(input.admission.revisions@, input.limits.revisions);
    let tenant_rows = caps::tenant_rows(input.admission.tenants@, input.limits.tenants);
    let a = render::about(input);
    let b = a + render::node(&input.admission);
    let c = b + render::revisions(rows);
    let d = c + render::queue(&input.admission);
    let e = d + render::tenants(tenant_rows);
    let f = e + render::admission(&input.admission);
    let g = f + render::attempts(&input.events);
    let h = g + render::host(input);
    let i = h + render::dispatcher(input);
    let j = i + render::optional(input);
    if part == 0 {
        Seq::empty()
    } else if part == 1 {
        a
    } else if part == 2 {
        b
    } else if part == 3 {
        c
    } else if part == 4 {
        d
    } else if part == 5 {
        e
    } else if part == 6 {
        f
    } else if part == 7 {
        g
    } else if part == 8 {
        h
    } else if part == 9 {
        i
    } else {
        j
    }
}

proof fn lemma_before(input: &MetricsInput)
    ensures
        order::in_order(before(input, 1), 0, 4),
        order::in_order(before(input, 2), 0, 15),
        order::in_order(before(input, 3), 0, 21),
        order::in_order(before(input, 4), 0, 26),
        order::in_order(before(input, 5), 0, 31),
        order::in_order(before(input, 6), 0, 40),
        order::in_order(before(input, 7), 0, 44),
        order::in_order(before(input, 8), 0, 51),
        order::in_order(before(input, 9), 0, 61),
        order::in_order(before(input, 10), 0, 89),
{
    lemma_parts_in_order(input);
    let rows = caps::revision_rows(input.admission.revisions@, input.limits.revisions);
    let tenant_rows = caps::tenant_rows(input.admission.tenants@, input.limits.tenants);
    order::lemma_join(before(input, 1), render::node(&input.admission), 0, 4, 5, 15);
    order::lemma_join(before(input, 2), render::revisions(rows), 0, 15, 16, 21);
    order::lemma_join(before(input, 3), render::queue(&input.admission), 0, 21, 22, 26);
    order::lemma_join(before(input, 4), render::tenants(tenant_rows), 0, 26, 27, 31);
    order::lemma_join(before(input, 5), render::admission(&input.admission), 0, 31, 32, 40);
    order::lemma_join(before(input, 6), render::attempts(&input.events), 0, 40, 41, 44);
    order::lemma_join(before(input, 7), render::host(input), 0, 44, 45, 51);
    order::lemma_join(before(input, 8), render::dispatcher(input), 0, 51, 52, 61);
    order::lemma_join(before(input, 9), render::optional(input), 0, 61, 62, 89);
}

proof fn lemma_about_stands(input: &MetricsInput) -> (at: int)
    ensures
        stands_at(render::samples_of(input), render::about(input), 0, 4, at),
        order::in_order(render::samples_of(input), 0, 90),
        order::in_order(render::about(input), 0, 4),
{
    lemma_parts_in_order(input);
    lemma_before(input);
    let rows = caps::revision_rows(input.admission.revisions@, input.limits.revisions);
    let tenant_rows = caps::tenant_rows(input.admission.tenants@, input.limits.tenants);
    let part = render::about(input);
    let at = before(input, 0).len() as int;
    assert(Seq::<ItemView>::empty() + part =~= part);
    lemma_stands(before(input, 0), part, 0, 4);
    lemma_still_stands(before(input, 1), part, 0, 4, at, render::node(&input.admission), 5, 15);
    lemma_still_stands(before(input, 2), part, 0, 4, at, render::revisions(rows), 16, 21);
    lemma_still_stands(before(input, 3), part, 0, 4, at, render::queue(&input.admission), 22, 26);
    lemma_still_stands(before(input, 4), part, 0, 4, at, render::tenants(tenant_rows), 27, 31);
    lemma_still_stands(before(input, 5), part, 0, 4, at, render::admission(&input.admission), 32, 40);
    lemma_still_stands(before(input, 6), part, 0, 4, at, render::attempts(&input.events), 41, 44);
    lemma_still_stands(before(input, 7), part, 0, 4, at, render::host(input), 45, 51);
    lemma_still_stands(before(input, 8), part, 0, 4, at, render::dispatcher(input), 52, 61);
    lemma_still_stands(before(input, 9), part, 0, 4, at, render::optional(input), 62, 89);
    lemma_still_stands(before(input, 10), part, 0, 4, at, render::truncated(input), 90, 90);
    at
}

proof fn lemma_node_stands(input: &MetricsInput) -> (at: int)
    ensures
        stands_at(render::samples_of(input), render::node(&input.admission), 5, 15, at),
        order::in_order(render::samples_of(input), 0, 90),
        order::in_order(render::node(&input.admission), 5, 15),
{
    lemma_parts_in_order(input);
    lemma_before(input);
    let rows = caps::revision_rows(input.admission.revisions@, input.limits.revisions);
    let tenant_rows = caps::tenant_rows(input.admission.tenants@, input.limits.tenants);
    let part = render::node(&input.admission);
    let at = before(input, 1).len() as int;
    lemma_stands(before(input, 1), part, 5, 15);
    lemma_still_stands(before(input, 2), part, 5, 15, at, render::revisions(rows), 16, 21);
    lemma_still_stands(before(input, 3), part, 5, 15, at, render::queue(&input.admission), 22, 26);
    lemma_still_stands(before(input, 4), part, 5, 15, at, render::tenants(tenant_rows), 27, 31);
    lemma_still_stands(before(input, 5), part, 5, 15, at, render::admission(&input.admission), 32, 40);
    lemma_still_stands(before(input, 6), part, 5, 15, at, render::attempts(&input.events), 41, 44);
    lemma_still_stands(before(input, 7), part, 5, 15, at, render::host(input), 45, 51);
    lemma_still_stands(before(input, 8), part, 5, 15, at, render::dispatcher(input), 52, 61);
    lemma_still_stands(before(input, 9), part, 5, 15, at, render::optional(input), 62, 89);
    lemma_still_stands(before(input, 10), part, 5, 15, at, render::truncated(input), 90, 90);
    at
}

proof fn lemma_revisions_stands(input: &MetricsInput) -> (at: int)
    ensures
        stands_at(render::samples_of(input), render::revisions(caps::revision_rows(input.admission.revisions@, input.limits.revisions)), 16, 21, at),
        order::in_order(render::samples_of(input), 0, 90),
        order::in_order(render::revisions(caps::revision_rows(input.admission.revisions@, input.limits.revisions)), 16, 21),
{
    lemma_parts_in_order(input);
    lemma_before(input);
    let rows = caps::revision_rows(input.admission.revisions@, input.limits.revisions);
    let tenant_rows = caps::tenant_rows(input.admission.tenants@, input.limits.tenants);
    let part = render::revisions(rows);
    let at = before(input, 2).len() as int;
    lemma_stands(before(input, 2), part, 16, 21);
    lemma_still_stands(before(input, 3), part, 16, 21, at, render::queue(&input.admission), 22, 26);
    lemma_still_stands(before(input, 4), part, 16, 21, at, render::tenants(tenant_rows), 27, 31);
    lemma_still_stands(before(input, 5), part, 16, 21, at, render::admission(&input.admission), 32, 40);
    lemma_still_stands(before(input, 6), part, 16, 21, at, render::attempts(&input.events), 41, 44);
    lemma_still_stands(before(input, 7), part, 16, 21, at, render::host(input), 45, 51);
    lemma_still_stands(before(input, 8), part, 16, 21, at, render::dispatcher(input), 52, 61);
    lemma_still_stands(before(input, 9), part, 16, 21, at, render::optional(input), 62, 89);
    lemma_still_stands(before(input, 10), part, 16, 21, at, render::truncated(input), 90, 90);
    at
}

proof fn lemma_queue_stands(input: &MetricsInput) -> (at: int)
    ensures
        stands_at(render::samples_of(input), render::queue(&input.admission), 22, 26, at),
        order::in_order(render::samples_of(input), 0, 90),
        order::in_order(render::queue(&input.admission), 22, 26),
{
    lemma_parts_in_order(input);
    lemma_before(input);
    let rows = caps::revision_rows(input.admission.revisions@, input.limits.revisions);
    let tenant_rows = caps::tenant_rows(input.admission.tenants@, input.limits.tenants);
    let part = render::queue(&input.admission);
    let at = before(input, 3).len() as int;
    lemma_stands(before(input, 3), part, 22, 26);
    lemma_still_stands(before(input, 4), part, 22, 26, at, render::tenants(tenant_rows), 27, 31);
    lemma_still_stands(before(input, 5), part, 22, 26, at, render::admission(&input.admission), 32, 40);
    lemma_still_stands(before(input, 6), part, 22, 26, at, render::attempts(&input.events), 41, 44);
    lemma_still_stands(before(input, 7), part, 22, 26, at, render::host(input), 45, 51);
    lemma_still_stands(before(input, 8), part, 22, 26, at, render::dispatcher(input), 52, 61);
    lemma_still_stands(before(input, 9), part, 22, 26, at, render::optional(input), 62, 89);
    lemma_still_stands(before(input, 10), part, 22, 26, at, render::truncated(input), 90, 90);
    at
}

proof fn lemma_tenants_stands(input: &MetricsInput) -> (at: int)
    ensures
        stands_at(render::samples_of(input), render::tenants(caps::tenant_rows(input.admission.tenants@, input.limits.tenants)), 27, 31, at),
        order::in_order(render::samples_of(input), 0, 90),
        order::in_order(render::tenants(caps::tenant_rows(input.admission.tenants@, input.limits.tenants)), 27, 31),
{
    lemma_parts_in_order(input);
    lemma_before(input);
    let rows = caps::revision_rows(input.admission.revisions@, input.limits.revisions);
    let tenant_rows = caps::tenant_rows(input.admission.tenants@, input.limits.tenants);
    let part = render::tenants(tenant_rows);
    let at = before(input, 4).len() as int;
    lemma_stands(before(input, 4), part, 27, 31);
    lemma_still_stands(before(input, 5), part, 27, 31, at, render::admission(&input.admission), 32, 40);
    lemma_still_stands(before(input, 6), part, 27, 31, at, render::attempts(&input.events), 41, 44);
    lemma_still_stands(before(input, 7), part, 27, 31, at, render::host(input), 45, 51);
    lemma_still_stands(before(input, 8), part, 27, 31, at, render::dispatcher(input), 52, 61);
    lemma_still_stands(before(input, 9), part, 27, 31, at, render::optional(input), 62, 89);
    lemma_still_stands(before(input, 10), part, 27, 31, at, render::truncated(input), 90, 90);
    at
}

proof fn lemma_admission_stands(input: &MetricsInput) -> (at: int)
    ensures
        stands_at(render::samples_of(input), render::admission(&input.admission), 32, 40, at),
        order::in_order(render::samples_of(input), 0, 90),
        order::in_order(render::admission(&input.admission), 32, 40),
{
    lemma_parts_in_order(input);
    lemma_before(input);
    let rows = caps::revision_rows(input.admission.revisions@, input.limits.revisions);
    let tenant_rows = caps::tenant_rows(input.admission.tenants@, input.limits.tenants);
    let part = render::admission(&input.admission);
    let at = before(input, 5).len() as int;
    lemma_stands(before(input, 5), part, 32, 40);
    lemma_still_stands(before(input, 6), part, 32, 40, at, render::attempts(&input.events), 41, 44);
    lemma_still_stands(before(input, 7), part, 32, 40, at, render::host(input), 45, 51);
    lemma_still_stands(before(input, 8), part, 32, 40, at, render::dispatcher(input), 52, 61);
    lemma_still_stands(before(input, 9), part, 32, 40, at, render::optional(input), 62, 89);
    lemma_still_stands(before(input, 10), part, 32, 40, at, render::truncated(input), 90, 90);
    at
}

proof fn lemma_attempts_stands(input: &MetricsInput) -> (at: int)
    ensures
        stands_at(render::samples_of(input), render::attempts(&input.events), 41, 44, at),
        order::in_order(render::samples_of(input), 0, 90),
        order::in_order(render::attempts(&input.events), 41, 44),
{
    lemma_parts_in_order(input);
    lemma_before(input);
    let rows = caps::revision_rows(input.admission.revisions@, input.limits.revisions);
    let tenant_rows = caps::tenant_rows(input.admission.tenants@, input.limits.tenants);
    let part = render::attempts(&input.events);
    let at = before(input, 6).len() as int;
    lemma_stands(before(input, 6), part, 41, 44);
    lemma_still_stands(before(input, 7), part, 41, 44, at, render::host(input), 45, 51);
    lemma_still_stands(before(input, 8), part, 41, 44, at, render::dispatcher(input), 52, 61);
    lemma_still_stands(before(input, 9), part, 41, 44, at, render::optional(input), 62, 89);
    lemma_still_stands(before(input, 10), part, 41, 44, at, render::truncated(input), 90, 90);
    at
}

proof fn lemma_host_stands(input: &MetricsInput) -> (at: int)
    ensures
        stands_at(render::samples_of(input), render::host(input), 45, 51, at),
        order::in_order(render::samples_of(input), 0, 90),
        order::in_order(render::host(input), 45, 51),
{
    lemma_parts_in_order(input);
    lemma_before(input);
    let rows = caps::revision_rows(input.admission.revisions@, input.limits.revisions);
    let tenant_rows = caps::tenant_rows(input.admission.tenants@, input.limits.tenants);
    let part = render::host(input);
    let at = before(input, 7).len() as int;
    lemma_stands(before(input, 7), part, 45, 51);
    lemma_still_stands(before(input, 8), part, 45, 51, at, render::dispatcher(input), 52, 61);
    lemma_still_stands(before(input, 9), part, 45, 51, at, render::optional(input), 62, 89);
    lemma_still_stands(before(input, 10), part, 45, 51, at, render::truncated(input), 90, 90);
    at
}

proof fn lemma_dispatcher_stands(input: &MetricsInput) -> (at: int)
    ensures
        stands_at(render::samples_of(input), render::dispatcher(input), 52, 61, at),
        order::in_order(render::samples_of(input), 0, 90),
        order::in_order(render::dispatcher(input), 52, 61),
{
    lemma_parts_in_order(input);
    lemma_before(input);
    let rows = caps::revision_rows(input.admission.revisions@, input.limits.revisions);
    let tenant_rows = caps::tenant_rows(input.admission.tenants@, input.limits.tenants);
    let part = render::dispatcher(input);
    let at = before(input, 8).len() as int;
    lemma_stands(before(input, 8), part, 52, 61);
    lemma_still_stands(before(input, 9), part, 52, 61, at, render::optional(input), 62, 89);
    lemma_still_stands(before(input, 10), part, 52, 61, at, render::truncated(input), 90, 90);
    at
}

proof fn lemma_optional_stands(input: &MetricsInput) -> (at: int)
    ensures
        stands_at(render::samples_of(input), render::optional(input), 62, 89, at),
        order::in_order(render::samples_of(input), 0, 90),
        order::in_order(render::optional(input), 62, 89),
{
    lemma_parts_in_order(input);
    lemma_before(input);
    let rows = caps::revision_rows(input.admission.revisions@, input.limits.revisions);
    let tenant_rows = caps::tenant_rows(input.admission.tenants@, input.limits.tenants);
    let part = render::optional(input);
    let at = before(input, 9).len() as int;
    lemma_stands(before(input, 9), part, 62, 89);
    lemma_still_stands(before(input, 10), part, 62, 89, at, render::truncated(input), 90, 90);
    at
}

proof fn lemma_truncated_stands(input: &MetricsInput) -> (at: int)
    ensures
        stands_at(render::samples_of(input), render::truncated(input), 90, 90, at),
        order::in_order(render::samples_of(input), 0, 90),
        order::in_order(render::truncated(input), 90, 90),
{
    lemma_parts_in_order(input);
    lemma_before(input);
    let rows = caps::revision_rows(input.admission.revisions@, input.limits.revisions);
    let tenant_rows = caps::tenant_rows(input.admission.tenants@, input.limits.tenants);
    let part = render::truncated(input);
    let at = before(input, 10).len() as int;
    lemma_stands(before(input, 10), part, 90, 90);
    at
}

/// A part that goes from places before that of a family to places after it has
/// no sample of the family.
proof fn lemma_gap(part: Seq<ItemView>, lo: int, hi: int, k: int, family: usize)
    requires
        order::in_order(part, lo, hi),
        0 <= k <= part.len(),
        k > 0 ==> order::place(part[k - 1].family) < order::place(family),
        k < part.len() ==> order::place(part[k].family) > order::place(family),
    ensures
        forall|i: int| 0 <= i < part.len() ==> (#[trigger] part[i]).family != family,
{
    assert forall|i: int| 0 <= i < part.len() implies (#[trigger] part[i]).family != family by {
        if i < k - 1 {
            assert(order::place(part[i].family) <= order::place(part[k - 1].family));
        } else if i > k {
            assert(order::place(part[k].family) <= order::place(part[i].family));
        }
    }
}

/// A part of a part stands among the samples as well.
proof fn lemma_inner_stands(
    items: Seq<ItemView>,
    part: Seq<ItemView>,
    lo: int,
    hi: int,
    at: int,
    inner: Seq<ItemView>,
    from: int,
    to: int,
    within: int,
)
    requires
        stands_at(items, part, lo, hi, at),
        stands_at(part, inner, from, to, within),
        lo <= from,
        to <= hi,
    ensures
        stands_at(items, inner, from, to, at + within),
{
    assert forall|i: int| 0 <= i < inner.len() implies #[trigger] inner[i] == items[at + within + i] by {
        assert(inner[i] == part[within + i]);
        assert(part[within + i] == items[at + (within + i)]);
    }
    assert forall|i: int|
        0 <= i < items.len() && from <= order::place((#[trigger] items[i]).family) <= to implies at
        + within <= i < at + within + inner.len() by {
        assert(part[i - at] == items[at + (i - at)]);
    }
}

proof fn lemma_optional_parts_in_order(input: &MetricsInput)
    ensures
        order::in_order(render::triggers_of(input), 62, 65),
        order::in_order(render::outbox_of(input), 66, 69),
        order::in_order(render::usage_of(input), 70, 82),
        order::in_order(render::dispatch_of(input), 83, 89),
        order::in_order(render::triggers_of(input) + render::outbox_of(input), 62, 69),
        order::in_order(
            render::triggers_of(input) + render::outbox_of(input) + render::usage_of(input),
            62,
            82,
        ),
{
    if input.triggers is Some {
        order::lemma_triggers(&input.triggers->0);
    }
    if input.outbox is Some {
        order::lemma_outbox(&input.outbox->0, input.now);
    }
    if input.usage is Some {
        order::lemma_usage(&input.usage->0, input.now);
    }
    if input.dispatch is Some {
        order::lemma_dispatch(&input.dispatch->0);
    }
    let a = render::triggers_of(input);
    let b = render::outbox_of(input);
    let c = render::usage_of(input);
    order::lemma_join(a, b, 62, 65, 66, 69);
    order::lemma_join(a + b, c, 62, 69, 70, 82);
}

proof fn lemma_triggers_stands(input: &MetricsInput) -> (at: int)
    ensures
        stands_at(render::samples_of(input), render::triggers_of(input), 62, 65, at),
        order::in_order(render::samples_of(input), 0, 90),
        order::in_order(render::triggers_of(input), 62, 65),
{
    let at = lemma_optional_stands(input);
    lemma_optional_parts_in_order(input);
    let a = render::triggers_of(input);
    let b = render::outbox_of(input);
    let c = render::usage_of(input);
    let d = render::dispatch_of(input);
    let none = Seq::<ItemView>::empty();
    assert(none + a =~= a);
    lemma_stands(none, a, 62, 65);
    lemma_still_stands(a, a, 62, 65, 0, b, 66, 69);
    lemma_still_stands(a + b, a, 62, 65, 0, c, 70, 82);
    lemma_still_stands(a + b + c, a, 62, 65, 0, d, 83, 89);
    lemma_inner_stands(render::samples_of(input), a + b + c + d, 62, 89, at, a, 62, 65, 0);
    at
}

proof fn lemma_outbox_stands(input: &MetricsInput) -> (at: int)
    ensures
        stands_at(render::samples_of(input), render::outbox_of(input), 66, 69, at),
        order::in_order(render::samples_of(input), 0, 90),
        order::in_order(render::outbox_of(input), 66, 69),
{
    let at = lemma_optional_stands(input);
    lemma_optional_parts_in_order(input);
    let a = render::triggers_of(input);
    let b = render::outbox_of(input);
    let c = render::usage_of(input);
    let d = render::dispatch_of(input);
    let n = a.len() as int;
    lemma_stands(a, b, 66, 69);
    lemma_still_stands(a + b, b, 66, 69, n, c, 70, 82);
    lemma_still_stands(a + b + c, b, 66, 69, n, d, 83, 89);
    lemma_inner_stands(render::samples_of(input), a + b + c + d, 62, 89, at, b, 66, 69, n);
    at + n
}

proof fn lemma_usage_stands(input: &MetricsInput) -> (at: int)
    ensures
        stands_at(render::samples_of(input), render::usage_of(input), 70, 82, at),
        order::in_order(render::samples_of(input), 0, 90),
        order::in_order(render::usage_of(input), 70, 82),
{
    let at = lemma_optional_stands(input);
    lemma_optional_parts_in_order(input);
    let a = render::triggers_of(input);
    let b = render::outbox_of(input);
    let c = render::usage_of(input);
    let d = render::dispatch_of(input);
    let n = (a + b).len() as int;
    lemma_stands(a + b, c, 70, 82);
    lemma_still_stands(a + b + c, c, 70, 82, n, d, 83, 89);
    lemma_inner_stands(render::samples_of(input), a + b + c + d, 62, 89, at, c, 70, 82, n);
    at + n
}

proof fn lemma_dispatch_stands(input: &MetricsInput) -> (at: int)
    ensures
        stands_at(render::samples_of(input), render::dispatch_of(input), 83, 89, at),
        order::in_order(render::samples_of(input), 0, 90),
        order::in_order(render::dispatch_of(input), 83, 89),
{
    let at = lemma_optional_stands(input);
    lemma_optional_parts_in_order(input);
    let a = render::triggers_of(input);
    let b = render::outbox_of(input);
    let c = render::usage_of(input);
    let d = render::dispatch_of(input);
    let n = (a + b + c).len() as int;
    lemma_stands(a + b + c, d, 83, 89);
    lemma_inner_stands(render::samples_of(input), a + b + c + d, 62, 89, at, d, 83, 89, n);
    at + n
}

/// One for yes, zero for no.
pub open spec fn told(b: bool) -> Value {
    Value::Count(
        if b {
            1
        } else {
            0
        },
    )
}

/// Mebibytes as bytes, the largest number where they are more.
pub open spec fn in_bytes(mib: u64) -> Value {
    Value::Count(
        if mib * 1_048_576 <= u64::MAX {
            (mib * 1_048_576) as u64
        } else {
            u64::MAX
        },
    )
}

/// How long the oldest entry waits, zero where there is none.
pub open spec fn waited(seconds: Option<u64>) -> Value {
    if seconds is Some {
        Value::Real(seconds->0)
    } else {
        Value::Count(0)
    }
}

/// Nanoseconds as milliseconds, rounded toward zero.
pub open spec fn in_millis(span: int) -> i128 {
    (if span < 0 {
        -((-span) / 1_000_000)
    } else {
        span / 1_000_000
    }) as i128
}

/// How long it is until a time, negative once it is over.
pub open spec fn left(at: Timestamp, now: Timestamp) -> Value {
    Value::Millis(in_millis(time::since(at, now)))
}

/// How long ago a time was: zero where there was none or it is ahead.
pub open spec fn aged(at: Option<Timestamp>, now: Timestamp) -> Value {
    if at is None {
        Value::Count(0)
    } else if time::since(now, at->0) <= 0 {
        Value::Millis(0)
    } else {
        Value::Millis(in_millis(time::since(now, at->0)))
    }
}

/// The count of one label, zero where it was never counted.
pub open spec fn counted(t: Tally, name: Seq<char>) -> u64 {
    if t.rows@.contains_key(seq![name, ""@]) {
        t.rows@[seq![name, ""@]].n
    } else {
        0
    }
}

/// How many environments were measured.
pub open spec fn measured(list: Seq<EnvironmentUsage>) -> nat {
    list.filter(|e: EnvironmentUsage| e.stats is Some).len()
}

/// How many rows exceed the limit.
pub open spec fn folded(rows: nat, limit: usize) -> Value {
    Value::Count(
        if rows > limit {
            (rows - limit) as u64
        } else {
            0
        },
    )
}

proof fn lemma_measured(list: Seq<EnvironmentUsage>)
    ensures
        render::measured(list) == measured(list),
    decreases list.len(),
{
    reveal(Seq::filter);
    if list.len() > 0 {
        lemma_measured(list.drop_last());
    }
}

proof fn lemma_six_operations(input: &MetricsInput)
    ensures
        input.dispatch is Some ==> render::operations(&input.dispatch->0.queue_operations).len() == 6,
{
    if input.dispatch is Some {
        let t = input.dispatch->0.queue_operations;
        let names = QUEUE_OPERATIONS@;
        let f = |name: &'static str| render::operation(&t, name@);
        reveal_with_fuel(render::flat, 4);
        assert(names.len() == 3);
        assert(names.drop_last().len() == 2);
        assert(names.drop_last().drop_last().len() == 1);
        assert(render::flat(names, f).len() == 6);
    }
}

/// A sample of `tsls_environments` that is labelled with a state.
pub open spec fn is_state(item: ItemView, state: Seq<char>) -> bool {
    is_series(item, "tsls_environments"@, Suffix::Plain, seq![("state"@, state)])
}

proof fn lemma_states_shown(input: &MetricsInput, items: Seq<ItemView>, at: int)
    requires
        stands_at(items, render::node(&input.admission), 5, 15, at),
        order::in_order(items, 0, 90),
        order::in_order(render::node(&input.admission), 5, 15),
    ensures
        ({
            let c = input.admission.environments;
            let name = "tsls_environments"@;
            &&& shown_in(items, name, seq![("state"@, "promised"@)], Value::Count(c.promised))
            &&& shown_in(items, name, seq![("state"@, "starting"@)], Value::Count(c.starting))
            &&& shown_in(items, name, seq![("state"@, "busy"@)], Value::Count(c.busy))
            &&& shown_in(items, name, seq![("state"@, "parking"@)], Value::Count(c.parking))
            &&& shown_in(items, name, seq![("state"@, "idle"@)], Value::Count(c.idle))
            &&& shown_in(items, name, seq![("state"@, "draining"@)], Value::Count(c.draining))
        }),
{
    let part = render::node(&input.admission);
    series::lemma_node(&input.admission);
    let n = part.len() as int;
    catalog::lemma_family_at(15);
    let name = "tsls_environments"@;
    assert(catalog::FAMILIES@[15].0@ == name);
    lemma_shown(items, part, 5, 15, at, n - 6, name);
    lemma_shown(items, part, 5, 15, at, n - 5, name);
    lemma_shown(items, part, 5, 15, at, n - 4, name);
    lemma_shown(items, part, 5, 15, at, n - 3, name);
    lemma_shown(items, part, 5, 15, at, n - 2, name);
    lemma_shown(items, part, 5, 15, at, n - 1, name);
}

proof fn lemma_states_are_six(input: &MetricsInput, items: Seq<ItemView>, at: int, i: int)
    requires
        stands_at(items, render::node(&input.admission), 5, 15, at),
        order::in_order(items, 0, 90),
        order::in_order(render::node(&input.admission), 5, 15),
        0 <= i < items.len(),
        is_of(items[i], "tsls_environments"@),
    ensures
        ({
            ||| is_state(items[i], "promised"@)
            ||| is_state(items[i], "starting"@)
            ||| is_state(items[i], "busy"@)
            ||| is_state(items[i], "parking"@)
            ||| is_state(items[i], "idle"@)
            ||| is_state(items[i], "draining"@)
        }),
{
    let part = render::node(&input.admission);
    let n = part.len() as int;
    catalog::lemma_family_at(15);
    assert(catalog::FAMILIES@[15].0@ == "tsls_environments"@);
    assert(order::place(items[i].family) <= 90);
    lemma_known_by_name(items[i].family, 15);
    assert(part[i - at] == items[at + (i - at)]);
    assert(part[n - 7].family == 14);
    if i - at < n - 7 {
        assert(order::place(part[i - at].family) <= order::place(part[n - 7].family));
    }
}

/// For each of the six states, the page shows how many environments of the node
/// are in that state, and every sample of `tsls_environments` is labelled with
/// one of the six.
pub proof fn law_the_page_shows_every_environment_state(input: &MetricsInput)
    requires
        render::renderable(input),
    ensures
        ({
            let c = input.admission.environments;
            let name = "tsls_environments"@;
            &&& shows(input, name, seq![("state"@, "promised"@)], Value::Count(c.promised))
            &&& shows(input, name, seq![("state"@, "starting"@)], Value::Count(c.starting))
            &&& shows(input, name, seq![("state"@, "busy"@)], Value::Count(c.busy))
            &&& shows(input, name, seq![("state"@, "parking"@)], Value::Count(c.parking))
            &&& shows(input, name, seq![("state"@, "idle"@)], Value::Count(c.idle))
            &&& shows(input, name, seq![("state"@, "draining"@)], Value::Count(c.draining))
        }),
        forall|i: int|
            0 <= i < render::samples_of(input).len() && #[trigger] is_of(
                render::samples_of(input)[i],
                "tsls_environments"@,
            ) ==> ({
                ||| is_state(render::samples_of(input)[i], "promised"@)
                ||| is_state(render::samples_of(input)[i], "starting"@)
                ||| is_state(render::samples_of(input)[i], "busy"@)
                ||| is_state(render::samples_of(input)[i], "parking"@)
                ||| is_state(render::samples_of(input)[i], "idle"@)
                ||| is_state(render::samples_of(input)[i], "draining"@)
            }),
{
    let items = render::samples_of(input);
    let at = lemma_node_stands(input);
    lemma_states_shown(input, items, at);
    assert forall|i: int|
        0 <= i < items.len() && #[trigger] is_of(items[i], "tsls_environments"@) implies ({
        ||| is_state(items[i], "promised"@)
        ||| is_state(items[i], "starting"@)
        ||| is_state(items[i], "busy"@)
        ||| is_state(items[i], "parking"@)
        ||| is_state(items[i], "idle"@)
        ||| is_state(items[i], "draining"@)
    }) by {
        lemma_states_are_six(input, items, at, i);
    }
}

#[verifier::rlimit(60)]
#[verifier::spinoff_prover]
proof fn lemma_the_page_tells_about_the_gateway(input: &MetricsInput, items: Seq<ItemView>, at: int)
    requires
        render::renderable(input),
        stands_at(items, render::about(input), 0, 4, at),
        order::in_order(items, 0, 90),
        order::in_order(render::about(input), 0, 4),
    ensures
        shown_in(items, "tsls_build_info"@, seq![("version"@, input.version@)], Value::Count(1)),
        shown_in(items, "tsls_environment_reuse_mode"@, seq![("provider"@, input.provider@), ("mode"@, "warm_reuse"@)], told(input.reuse_enabled)),
        shown_in(items, "tsls_environment_reuse_mode"@, seq![("provider"@, input.provider@), ("mode"@, "every_invocation_boots"@)], told(!input.reuse_enabled)),
        shown_in(items, "tsls_pool_reuse_enabled"@, Seq::empty(), told(input.reuse_enabled)),
        shown_in(items, "tsls_pool_held_environments"@, Seq::empty(), Value::Count(input.pool_held)),
        shown_in(items, "tsls_pool_quiescing_environments"@, Seq::empty(), Value::Count(input.pool_quiescing)),
{
    let part = render::about(input);
    series::lemma_about(input);
    catalog::lemma_family_at(0);
    assert(catalog::FAMILIES@[0].0@ == "tsls_build_info"@);
    catalog::lemma_family_at(1);
    assert(catalog::FAMILIES@[1].0@ == "tsls_environment_reuse_mode"@);
    catalog::lemma_family_at(2);
    assert(catalog::FAMILIES@[2].0@ == "tsls_pool_reuse_enabled"@);
    catalog::lemma_family_at(3);
    assert(catalog::FAMILIES@[3].0@ == "tsls_pool_held_environments"@);
    catalog::lemma_family_at(4);
    assert(catalog::FAMILIES@[4].0@ == "tsls_pool_quiescing_environments"@);
    lemma_shown(items, part, 0, 4, at, 0, "tsls_build_info"@);
    lemma_shown(items, part, 0, 4, at, 1, "tsls_environment_reuse_mode"@);
    lemma_shown(items, part, 0, 4, at, 2, "tsls_environment_reuse_mode"@);
    lemma_shown(items, part, 0, 4, at, 3, "tsls_pool_reuse_enabled"@);
    lemma_shown(items, part, 0, 4, at, 4, "tsls_pool_held_environments"@);
    lemma_shown(items, part, 0, 4, at, 5, "tsls_pool_quiescing_environments"@);
}

/// The page shows the version, which mode of reuse is on, and the pool.
pub proof fn law_the_page_tells_about_the_gateway(input: &MetricsInput)
    requires
        render::renderable(input),
    ensures
        shows(input, "tsls_build_info"@, seq![("version"@, input.version@)], Value::Count(1)),
        shows(input, "tsls_environment_reuse_mode"@, seq![("provider"@, input.provider@), ("mode"@, "warm_reuse"@)], told(input.reuse_enabled)),
        shows(input, "tsls_environment_reuse_mode"@, seq![("provider"@, input.provider@), ("mode"@, "every_invocation_boots"@)], told(!input.reuse_enabled)),
        shows(input, "tsls_pool_reuse_enabled"@, Seq::empty(), told(input.reuse_enabled)),
        shows(input, "tsls_pool_held_environments"@, Seq::empty(), Value::Count(input.pool_held)),
        shows(input, "tsls_pool_quiescing_environments"@, Seq::empty(), Value::Count(input.pool_quiescing)),
{
    let at = lemma_about_stands(input);
    lemma_the_page_tells_about_the_gateway(input, render::samples_of(input), at);
}

#[verifier::rlimit(60)]
#[verifier::spinoff_prover]
proof fn lemma_the_page_shows_the_capacity_of_the_node(input: &MetricsInput, items: Seq<ItemView>, at: int)
    requires
        render::renderable(input),
        stands_at(items, render::node(&input.admission), 5, 15, at),
        order::in_order(items, 0, 90),
        order::in_order(render::node(&input.admission), 5, 15),
    ensures
        shown_in(items, "tsls_node_info"@, seq![("node"@, input.admission.node_name@)], Value::Count(1)),
        if input.admission.capacity.cpu_millis is Some {
            shown_in(items, "tsls_node_capacity_cpu_millicores"@, Seq::empty(), Value::Count(input.admission.capacity.cpu_millis->0))
        } else {
            hidden_in(items, "tsls_node_capacity_cpu_millicores"@)
        },
        if input.admission.capacity.memory_mib is Some {
            shown_in(items, "tsls_node_capacity_memory_bytes"@, Seq::empty(), in_bytes(input.admission.capacity.memory_mib->0))
        } else {
            hidden_in(items, "tsls_node_capacity_memory_bytes"@)
        },
        if input.admission.capacity.ephemeral_storage_mib is Some {
            shown_in(items, "tsls_node_capacity_ephemeral_storage_bytes"@, Seq::empty(), in_bytes(input.admission.capacity.ephemeral_storage_mib->0))
        } else {
            hidden_in(items, "tsls_node_capacity_ephemeral_storage_bytes"@)
        },
{
    let part = render::node(&input.admission);
    series::lemma_node(&input.admission);
    let cpu: int = if input.admission.capacity.cpu_millis is Some {
        1
    } else {
        0
    };
    let memory: int = if input.admission.capacity.memory_mib is Some {
        1
    } else {
        0
    };
    catalog::lemma_family_at(5);
    assert(catalog::FAMILIES@[5].0@ == "tsls_node_info"@);
    catalog::lemma_family_at(6);
    assert(catalog::FAMILIES@[6].0@ == "tsls_node_capacity_cpu_millicores"@);
    catalog::lemma_family_at(7);
    assert(catalog::FAMILIES@[7].0@ == "tsls_node_capacity_memory_bytes"@);
    catalog::lemma_family_at(8);
    assert(catalog::FAMILIES@[8].0@ == "tsls_node_capacity_ephemeral_storage_bytes"@);
    lemma_shown(items, part, 5, 15, at, 0, "tsls_node_info"@);
    if input.admission.capacity.cpu_millis is Some {
        lemma_shown(items, part, 5, 15, at, 1, "tsls_node_capacity_cpu_millicores"@);
    } else {
        lemma_gap(part, 5, 15, 1, 6);
        lemma_hidden(items, part, 5, 15, at, 6, "tsls_node_capacity_cpu_millicores"@);
    }
    if input.admission.capacity.memory_mib is Some {
        lemma_shown(items, part, 5, 15, at, 1 + cpu, "tsls_node_capacity_memory_bytes"@);
    } else {
        lemma_gap(part, 5, 15, 1 + cpu, 7);
        lemma_hidden(items, part, 5, 15, at, 7, "tsls_node_capacity_memory_bytes"@);
    }
    if input.admission.capacity.ephemeral_storage_mib is Some {
        lemma_shown(items, part, 5, 15, at, 1 + cpu + memory, "tsls_node_capacity_ephemeral_storage_bytes"@);
    } else {
        lemma_gap(part, 5, 15, 1 + cpu + memory, 8);
        lemma_hidden(items, part, 5, 15, at, 8, "tsls_node_capacity_ephemeral_storage_bytes"@);
    }
}

/// The page shows the node and what it has room for, as far as that is known.
/// Memory and storage are in bytes.
pub proof fn law_the_page_shows_the_capacity_of_the_node(input: &MetricsInput)
    requires
        render::renderable(input),
    ensures
        shows(input, "tsls_node_info"@, seq![("node"@, input.admission.node_name@)], Value::Count(1)),
        if input.admission.capacity.cpu_millis is Some {
            shows(input, "tsls_node_capacity_cpu_millicores"@, Seq::empty(), Value::Count(input.admission.capacity.cpu_millis->0))
        } else {
            hides(input, "tsls_node_capacity_cpu_millicores"@)
        },
        if input.admission.capacity.memory_mib is Some {
            shows(input, "tsls_node_capacity_memory_bytes"@, Seq::empty(), in_bytes(input.admission.capacity.memory_mib->0))
        } else {
            hides(input, "tsls_node_capacity_memory_bytes"@)
        },
        if input.admission.capacity.ephemeral_storage_mib is Some {
            shows(input, "tsls_node_capacity_ephemeral_storage_bytes"@, Seq::empty(), in_bytes(input.admission.capacity.ephemeral_storage_mib->0))
        } else {
            hides(input, "tsls_node_capacity_ephemeral_storage_bytes"@)
        },
{
    let at = lemma_node_stands(input);
    lemma_the_page_shows_the_capacity_of_the_node(input, render::samples_of(input), at);
}

#[verifier::rlimit(60)]
#[verifier::spinoff_prover]
proof fn lemma_the_page_shows_what_is_reserved_on_the_node(input: &MetricsInput, items: Seq<ItemView>, at: int)
    requires
        render::renderable(input),
        stands_at(items, render::node(&input.admission), 5, 15, at),
        order::in_order(items, 0, 90),
        order::in_order(render::node(&input.admission), 5, 15),
    ensures
        shown_in(items, "tsls_node_reserved_cpu_millicores"@, Seq::empty(), Value::Count(input.admission.reserved.cpu_millis)),
        shown_in(items, "tsls_node_reserved_memory_bytes"@, Seq::empty(), in_bytes(input.admission.reserved.memory_mib)),
        shown_in(items, "tsls_node_reserved_ephemeral_storage_bytes"@, Seq::empty(), in_bytes(input.admission.reserved.ephemeral_storage_mib)),
        shown_in(items, "tsls_node_environment_overhead_memory_bytes"@, Seq::empty(), in_bytes(input.admission.overhead.memory_mib)),
        shown_in(items, "tsls_node_max_concurrency"@, Seq::empty(), Value::Count(input.admission.max_concurrency)),
        shown_in(items, "tsls_node_in_flight"@, Seq::empty(), Value::Count(input.admission.in_flight)),
{
    let part = render::node(&input.admission);
    series::lemma_node(&input.admission);
    let n = part.len() as int;
    catalog::lemma_family_at(9);
    assert(catalog::FAMILIES@[9].0@ == "tsls_node_reserved_cpu_millicores"@);
    catalog::lemma_family_at(10);
    assert(catalog::FAMILIES@[10].0@ == "tsls_node_reserved_memory_bytes"@);
    catalog::lemma_family_at(11);
    assert(catalog::FAMILIES@[11].0@ == "tsls_node_reserved_ephemeral_storage_bytes"@);
    catalog::lemma_family_at(12);
    assert(catalog::FAMILIES@[12].0@ == "tsls_node_environment_overhead_memory_bytes"@);
    catalog::lemma_family_at(13);
    assert(catalog::FAMILIES@[13].0@ == "tsls_node_max_concurrency"@);
    catalog::lemma_family_at(14);
    assert(catalog::FAMILIES@[14].0@ == "tsls_node_in_flight"@);
    lemma_shown(items, part, 5, 15, at, n - 12, "tsls_node_reserved_cpu_millicores"@);
    lemma_shown(items, part, 5, 15, at, n - 11, "tsls_node_reserved_memory_bytes"@);
    lemma_shown(items, part, 5, 15, at, n - 10, "tsls_node_reserved_ephemeral_storage_bytes"@);
    lemma_shown(items, part, 5, 15, at, n - 9, "tsls_node_environment_overhead_memory_bytes"@);
    lemma_shown(items, part, 5, 15, at, n - 8, "tsls_node_max_concurrency"@);
    lemma_shown(items, part, 5, 15, at, n - 7, "tsls_node_in_flight"@);
}

/// The page shows what is reserved on the node and how busy it is.
pub proof fn law_the_page_shows_what_is_reserved_on_the_node(input: &MetricsInput)
    requires
        render::renderable(input),
    ensures
        shows(input, "tsls_node_reserved_cpu_millicores"@, Seq::empty(), Value::Count(input.admission.reserved.cpu_millis)),
        shows(input, "tsls_node_reserved_memory_bytes"@, Seq::empty(), in_bytes(input.admission.reserved.memory_mib)),
        shows(input, "tsls_node_reserved_ephemeral_storage_bytes"@, Seq::empty(), in_bytes(input.admission.reserved.ephemeral_storage_mib)),
        shows(input, "tsls_node_environment_overhead_memory_bytes"@, Seq::empty(), in_bytes(input.admission.overhead.memory_mib)),
        shows(input, "tsls_node_max_concurrency"@, Seq::empty(), Value::Count(input.admission.max_concurrency)),
        shows(input, "tsls_node_in_flight"@, Seq::empty(), Value::Count(input.admission.in_flight)),
{
    let at = lemma_node_stands(input);
    lemma_the_page_shows_what_is_reserved_on_the_node(input, render::samples_of(input), at);
}

#[verifier::rlimit(60)]
#[verifier::spinoff_prover]
proof fn lemma_the_page_shows_the_queue(input: &MetricsInput, items: Seq<ItemView>, at: int)
    requires
        render::renderable(input),
        stands_at(items, render::queue(&input.admission), 22, 26, at),
        order::in_order(items, 0, 90),
        order::in_order(render::queue(&input.admission), 22, 26),
    ensures
        shown_in(items, "tsls_queue_length"@, Seq::empty(), Value::Count(input.admission.queue_length)),
        shown_in(items, "tsls_queue_bytes"@, Seq::empty(), Value::Count(input.admission.queue_bytes)),
        shown_in(items, "tsls_queue_max_length"@, Seq::empty(), Value::Count(input.admission.max_queue)),
        shown_in(items, "tsls_queue_max_bytes"@, Seq::empty(), Value::Count(input.admission.max_queue_bytes)),
        shown_in(items, "tsls_queue_oldest_age_seconds"@, Seq::empty(), waited(input.admission.oldest_wait_seconds)),
{
    let part = render::queue(&input.admission);
    series::lemma_queue(&input.admission);
    catalog::lemma_family_at(22);
    assert(catalog::FAMILIES@[22].0@ == "tsls_queue_length"@);
    catalog::lemma_family_at(23);
    assert(catalog::FAMILIES@[23].0@ == "tsls_queue_bytes"@);
    catalog::lemma_family_at(24);
    assert(catalog::FAMILIES@[24].0@ == "tsls_queue_max_length"@);
    catalog::lemma_family_at(25);
    assert(catalog::FAMILIES@[25].0@ == "tsls_queue_max_bytes"@);
    catalog::lemma_family_at(26);
    assert(catalog::FAMILIES@[26].0@ == "tsls_queue_oldest_age_seconds"@);
    lemma_shown(items, part, 22, 26, at, 0, "tsls_queue_length"@);
    lemma_shown(items, part, 22, 26, at, 1, "tsls_queue_bytes"@);
    lemma_shown(items, part, 22, 26, at, 2, "tsls_queue_max_length"@);
    lemma_shown(items, part, 22, 26, at, 3, "tsls_queue_max_bytes"@);
    lemma_shown(items, part, 22, 26, at, 4, "tsls_queue_oldest_age_seconds"@);
}

/// The page shows the queue, its limits and how long the oldest entry waits.
pub proof fn law_the_page_shows_the_queue(input: &MetricsInput)
    requires
        render::renderable(input),
    ensures
        shows(input, "tsls_queue_length"@, Seq::empty(), Value::Count(input.admission.queue_length)),
        shows(input, "tsls_queue_bytes"@, Seq::empty(), Value::Count(input.admission.queue_bytes)),
        shows(input, "tsls_queue_max_length"@, Seq::empty(), Value::Count(input.admission.max_queue)),
        shows(input, "tsls_queue_max_bytes"@, Seq::empty(), Value::Count(input.admission.max_queue_bytes)),
        shows(input, "tsls_queue_oldest_age_seconds"@, Seq::empty(), waited(input.admission.oldest_wait_seconds)),
{
    let at = lemma_queue_stands(input);
    lemma_the_page_shows_the_queue(input, render::samples_of(input), at);
}

#[verifier::rlimit(60)]
#[verifier::spinoff_prover]
proof fn lemma_the_page_shows_admissions(input: &MetricsInput, items: Seq<ItemView>, at: int)
    requires
        render::renderable(input),
        stands_at(items, render::admission(&input.admission), 32, 40, at),
        order::in_order(items, 0, 90),
        order::in_order(render::admission(&input.admission), 32, 40),
    ensures
        shown_in(items, "tsls_start_rate_tokens"@, Seq::empty(), Value::Count(input.admission.start_tokens as u64)),
        shown_in(items, "tsls_admission_arrivals_total"@, Seq::empty(), Value::Count(input.admission.counters.arrivals)),
        shown_in(items, "tsls_admission_grants_total"@, seq![("kind"@, "cold"@)], Value::Count(input.admission.counters.grants_cold)),
        shown_in(items, "tsls_admission_grants_total"@, seq![("kind"@, "warm"@)], Value::Count(input.admission.counters.grants_warm)),
        forall|i: int|
            0 <= i < render::REJECT_REASONS@.len() ==> shown_in(
                items,
                "tsls_admission_rejections_total"@,
                seq![("reason"@, (#[trigger] render::REJECT_REASONS@[i])@)],
                Value::Count(counted(input.admission.rejections, render::REJECT_REASONS@[i]@)),
            ),
{
    let part = render::admission(&input.admission);
    series::lemma_admission(&input.admission);
    catalog::lemma_family_at(32);
    assert(catalog::FAMILIES@[32].0@ == "tsls_start_rate_tokens"@);
    catalog::lemma_family_at(33);
    assert(catalog::FAMILIES@[33].0@ == "tsls_admission_arrivals_total"@);
    catalog::lemma_family_at(34);
    assert(catalog::FAMILIES@[34].0@ == "tsls_admission_grants_total"@);
    catalog::lemma_family_at(35);
    assert(catalog::FAMILIES@[35].0@ == "tsls_admission_rejections_total"@);
    lemma_shown(items, part, 32, 40, at, 0, "tsls_start_rate_tokens"@);
    lemma_shown(items, part, 32, 40, at, 1, "tsls_admission_arrivals_total"@);
    lemma_shown(items, part, 32, 40, at, 2, "tsls_admission_grants_total"@);
    lemma_shown(items, part, 32, 40, at, 3, "tsls_admission_grants_total"@);
    assert forall|i: int| 0 <= i < render::REJECT_REASONS@.len() implies shown_in(
        items,
        "tsls_admission_rejections_total"@,
        seq![("reason"@, (#[trigger] render::REJECT_REASONS@[i])@)],
        Value::Count(counted(input.admission.rejections, render::REJECT_REASONS@[i]@)),
    ) by {
        let k = 4 + i;
        assert(part[k] == render::counts(35usize, "reason"@, render::REJECT_REASONS@, &input.admission.rejections)[i]);
        lemma_shown(items, part, 32, 40, at, k, "tsls_admission_rejections_total"@);
    }
}

/// The page shows arrivals, grants by kind and rejections by reason.
pub proof fn law_the_page_shows_admissions(input: &MetricsInput)
    requires
        render::renderable(input),
    ensures
        shows(input, "tsls_start_rate_tokens"@, Seq::empty(), Value::Count(input.admission.start_tokens as u64)),
        shows(input, "tsls_admission_arrivals_total"@, Seq::empty(), Value::Count(input.admission.counters.arrivals)),
        shows(input, "tsls_admission_grants_total"@, seq![("kind"@, "cold"@)], Value::Count(input.admission.counters.grants_cold)),
        shows(input, "tsls_admission_grants_total"@, seq![("kind"@, "warm"@)], Value::Count(input.admission.counters.grants_warm)),
        forall|i: int|
            0 <= i < render::REJECT_REASONS@.len() ==> shows(
                input,
                "tsls_admission_rejections_total"@,
                seq![("reason"@, (#[trigger] render::REJECT_REASONS@[i])@)],
                Value::Count(counted(input.admission.rejections, render::REJECT_REASONS@[i]@)),
            ),
{
    let at = lemma_admission_stands(input);
    lemma_the_page_shows_admissions(input, render::samples_of(input), at);
}

#[verifier::rlimit(60)]
#[verifier::spinoff_prover]
proof fn lemma_the_page_shows_starts(input: &MetricsInput, items: Seq<ItemView>, at: int)
    requires
        render::renderable(input),
        stands_at(items, render::admission(&input.admission), 32, 40, at),
        order::in_order(items, 0, 90),
        order::in_order(render::admission(&input.admission), 32, 40),
    ensures
        shown_in(items, "tsls_admission_coalesced_waits_total"@, Seq::empty(), Value::Count(input.admission.counters.coalesced_waits)),
        shown_in(items, "tsls_admission_starts_avoided_total"@, Seq::empty(), Value::Count(input.admission.counters.starts_avoided)),
        shown_in(items, "tsls_environment_starts_total"@, seq![("result"@, "success"@)], Value::Count(input.admission.counters.start_successes)),
        shown_in(items, "tsls_environment_starts_total"@, seq![("result"@, "failure"@)], Value::Count(input.admission.counters.start_failures)),
        shown_in(items, "tsls_circuit_breaker_opens_total"@, Seq::empty(), Value::Count(input.admission.counters.breaker_opens)),
{
    let part = render::admission(&input.admission);
    series::lemma_admission(&input.admission);
    catalog::lemma_family_at(36);
    assert(catalog::FAMILIES@[36].0@ == "tsls_admission_coalesced_waits_total"@);
    catalog::lemma_family_at(37);
    assert(catalog::FAMILIES@[37].0@ == "tsls_admission_starts_avoided_total"@);
    catalog::lemma_family_at(38);
    assert(catalog::FAMILIES@[38].0@ == "tsls_environment_starts_total"@);
    catalog::lemma_family_at(39);
    assert(catalog::FAMILIES@[39].0@ == "tsls_circuit_breaker_opens_total"@);
    lemma_shown(items, part, 32, 40, at, 11, "tsls_admission_coalesced_waits_total"@);
    lemma_shown(items, part, 32, 40, at, 12, "tsls_admission_starts_avoided_total"@);
    lemma_shown(items, part, 32, 40, at, 13, "tsls_environment_starts_total"@);
    lemma_shown(items, part, 32, 40, at, 14, "tsls_environment_starts_total"@);
    lemma_shown(items, part, 32, 40, at, 15, "tsls_circuit_breaker_opens_total"@);
}

/// The page shows the waits and starts that were saved, the starts by result, and
/// how often a circuit breaker opened.
pub proof fn law_the_page_shows_starts(input: &MetricsInput)
    requires
        render::renderable(input),
    ensures
        shows(input, "tsls_admission_coalesced_waits_total"@, Seq::empty(), Value::Count(input.admission.counters.coalesced_waits)),
        shows(input, "tsls_admission_starts_avoided_total"@, Seq::empty(), Value::Count(input.admission.counters.starts_avoided)),
        shows(input, "tsls_environment_starts_total"@, seq![("result"@, "success"@)], Value::Count(input.admission.counters.start_successes)),
        shows(input, "tsls_environment_starts_total"@, seq![("result"@, "failure"@)], Value::Count(input.admission.counters.start_failures)),
        shows(input, "tsls_circuit_breaker_opens_total"@, Seq::empty(), Value::Count(input.admission.counters.breaker_opens)),
{
    let at = lemma_admission_stands(input);
    lemma_the_page_shows_starts(input, render::samples_of(input), at);
}

#[verifier::rlimit(60)]
#[verifier::spinoff_prover]
proof fn lemma_the_page_shows_boot_checks(input: &MetricsInput, items: Seq<ItemView>, at: int)
    requires
        render::renderable(input),
        stands_at(items, render::attempts(&input.events), 41, 44, at),
        order::in_order(items, 0, 90),
        order::in_order(render::attempts(&input.events), 41, 44),
    ensures
        shown_in(items, "tsls_boot_identity_checks_total"@, seq![("result"@, "first_boot"@)], Value::Count(input.events.boot_checks.first_boot)),
        shown_in(items, "tsls_boot_identity_checks_total"@, seq![("result"@, "same_boot"@)], Value::Count(input.events.boot_checks.same_boot)),
        shown_in(items, "tsls_boot_identity_checks_total"@, seq![("result"@, "boot_changed"@)], Value::Count(input.events.boot_checks.boot_changed)),
        shown_in(items, "tsls_boot_identity_checks_total"@, seq![("result"@, "unreported"@)], Value::Count(input.events.boot_checks.unreported)),
{
    let part = render::attempts(&input.events);
    series::lemma_attempts(&input.events);
    let n = part.len() as int;
    catalog::lemma_family_at(44);
    assert(catalog::FAMILIES@[44].0@ == "tsls_boot_identity_checks_total"@);
    lemma_shown(items, part, 41, 44, at, n - 4, "tsls_boot_identity_checks_total"@);
    lemma_shown(items, part, 41, 44, at, n - 3, "tsls_boot_identity_checks_total"@);
    lemma_shown(items, part, 41, 44, at, n - 2, "tsls_boot_identity_checks_total"@);
    lemma_shown(items, part, 41, 44, at, n - 1, "tsls_boot_identity_checks_total"@);
}

/// The page shows the checks of boot identities by result.
pub proof fn law_the_page_shows_boot_checks(input: &MetricsInput)
    requires
        render::renderable(input),
    ensures
        shows(input, "tsls_boot_identity_checks_total"@, seq![("result"@, "first_boot"@)], Value::Count(input.events.boot_checks.first_boot)),
        shows(input, "tsls_boot_identity_checks_total"@, seq![("result"@, "same_boot"@)], Value::Count(input.events.boot_checks.same_boot)),
        shows(input, "tsls_boot_identity_checks_total"@, seq![("result"@, "boot_changed"@)], Value::Count(input.events.boot_checks.boot_changed)),
        shows(input, "tsls_boot_identity_checks_total"@, seq![("result"@, "unreported"@)], Value::Count(input.events.boot_checks.unreported)),
{
    let at = lemma_attempts_stands(input);
    lemma_the_page_shows_boot_checks(input, render::samples_of(input), at);
}

#[verifier::rlimit(60)]
#[verifier::spinoff_prover]
proof fn lemma_the_page_shows_measurements(input: &MetricsInput, items: Seq<ItemView>, at: int)
    requires
        render::renderable(input),
        series::environments_differ(input.environments@),
        stands_at(items, render::host(input), 45, 51, at),
        order::in_order(items, 0, 90),
        order::in_order(render::host(input), 45, 51),
    ensures
        shown_in(items, "tsls_environment_stats"@, seq![("result"@, "available"@)], Value::Count(measured(input.environments@) as u64)),
        shown_in(items, "tsls_environment_stats"@, seq![("result"@, "unavailable"@)], Value::Count((input.environments@.len() - measured(input.environments@)) as u64)),
        shown_in(items, "tsls_idle_environment_cpu_seconds_total"@, Seq::empty(), Value::Real(input.events.idle_cpu_seconds)),
        shown_in(items, "tsls_idle_environment_cpu_ratio_max"@, Seq::empty(), Value::Real(input.events.idle_round.max_ratio)),
        shown_in(items, "tsls_idle_environments_sampled"@, Seq::empty(), Value::Count(input.events.idle_round.sampled)),
{
    let part = render::host(input);
    series::lemma_host(input);
    let n = part.len() as int;
    lemma_measured(input.environments@);
    catalog::lemma_family_at(48);
    assert(catalog::FAMILIES@[48].0@ == "tsls_environment_stats"@);
    catalog::lemma_family_at(49);
    assert(catalog::FAMILIES@[49].0@ == "tsls_idle_environment_cpu_seconds_total"@);
    catalog::lemma_family_at(50);
    assert(catalog::FAMILIES@[50].0@ == "tsls_idle_environment_cpu_ratio_max"@);
    catalog::lemma_family_at(51);
    assert(catalog::FAMILIES@[51].0@ == "tsls_idle_environments_sampled"@);
    lemma_shown(items, part, 45, 51, at, n - 5, "tsls_environment_stats"@);
    lemma_shown(items, part, 45, 51, at, n - 4, "tsls_environment_stats"@);
    lemma_shown(items, part, 45, 51, at, n - 3, "tsls_idle_environment_cpu_seconds_total"@);
    lemma_shown(items, part, 45, 51, at, n - 2, "tsls_idle_environment_cpu_ratio_max"@);
    lemma_shown(items, part, 45, 51, at, n - 1, "tsls_idle_environments_sampled"@);
}

/// The page shows how many environments the host could measure, how many it could
/// not, and what idle environments cost.
pub proof fn law_the_page_shows_measurements(input: &MetricsInput)
    requires
        render::renderable(input),
        series::environments_differ(input.environments@),
    ensures
        shows(input, "tsls_environment_stats"@, seq![("result"@, "available"@)], Value::Count(measured(input.environments@) as u64)),
        shows(input, "tsls_environment_stats"@, seq![("result"@, "unavailable"@)], Value::Count((input.environments@.len() - measured(input.environments@)) as u64)),
        shows(input, "tsls_idle_environment_cpu_seconds_total"@, Seq::empty(), Value::Real(input.events.idle_cpu_seconds)),
        shows(input, "tsls_idle_environment_cpu_ratio_max"@, Seq::empty(), Value::Real(input.events.idle_round.max_ratio)),
        shows(input, "tsls_idle_environments_sampled"@, Seq::empty(), Value::Count(input.events.idle_round.sampled)),
{
    let at = lemma_host_stands(input);
    lemma_the_page_shows_measurements(input, render::samples_of(input), at);
}

#[verifier::rlimit(60)]
#[verifier::spinoff_prover]
proof fn lemma_the_page_shows_the_dispatcher(input: &MetricsInput, items: Seq<ItemView>, at: int)
    requires
        render::renderable(input),
        stands_at(items, render::dispatcher(input), 52, 61, at),
        order::in_order(items, 0, 90),
        order::in_order(render::dispatcher(input), 52, 61),
    ensures
        shown_in(items, "tsls_dispatcher_fenced"@, Seq::empty(), told(input.dispatcher_fenced)),
        forall|i: int|
            0 <= i < render::HEARTBEAT_RESULTS@.len() ==> shown_in(
                items,
                "tsls_dispatcher_heartbeats_total"@,
                seq![("result"@, (#[trigger] render::HEARTBEAT_RESULTS@[i])@)],
                Value::Count(counted(input.events.heartbeats, render::HEARTBEAT_RESULTS@[i]@)),
            ),
        shown_in(items, "tsls_dispatcher_slot_lease_renewals_total"@, Seq::empty(), Value::Count(input.events.slot_lease_renewals)),
{
    let part = render::dispatcher(input);
    series::lemma_dispatcher(input);
    catalog::lemma_family_at(52);
    assert(catalog::FAMILIES@[52].0@ == "tsls_dispatcher_fenced"@);
    catalog::lemma_family_at(53);
    assert(catalog::FAMILIES@[53].0@ == "tsls_dispatcher_heartbeats_total"@);
    catalog::lemma_family_at(54);
    assert(catalog::FAMILIES@[54].0@ == "tsls_dispatcher_slot_lease_renewals_total"@);
    lemma_shown(items, part, 52, 61, at, 0, "tsls_dispatcher_fenced"@);
    assert forall|i: int| 0 <= i < render::HEARTBEAT_RESULTS@.len() implies shown_in(
        items,
        "tsls_dispatcher_heartbeats_total"@,
        seq![("result"@, (#[trigger] render::HEARTBEAT_RESULTS@[i])@)],
        Value::Count(counted(input.events.heartbeats, render::HEARTBEAT_RESULTS@[i]@)),
    ) by {
        let k = 1 + i;
        assert(part[k] == render::counts(53usize, "result"@, render::HEARTBEAT_RESULTS@, &input.events.heartbeats)[i]);
        lemma_shown(items, part, 52, 61, at, k, "tsls_dispatcher_heartbeats_total"@);
    }
    lemma_shown(items, part, 52, 61, at, 4, "tsls_dispatcher_slot_lease_renewals_total"@);
}

/// The page shows whether the dispatcher is fenced, its heartbeats by result and
/// the slot leases it renewed.
pub proof fn law_the_page_shows_the_dispatcher(input: &MetricsInput)
    requires
        render::renderable(input),
    ensures
        shows(input, "tsls_dispatcher_fenced"@, Seq::empty(), told(input.dispatcher_fenced)),
        forall|i: int|
            0 <= i < render::HEARTBEAT_RESULTS@.len() ==> shows(
                input,
                "tsls_dispatcher_heartbeats_total"@,
                seq![("result"@, (#[trigger] render::HEARTBEAT_RESULTS@[i])@)],
                Value::Count(counted(input.events.heartbeats, render::HEARTBEAT_RESULTS@[i]@)),
            ),
        shows(input, "tsls_dispatcher_slot_lease_renewals_total"@, Seq::empty(), Value::Count(input.events.slot_lease_renewals)),
{
    let at = lemma_dispatcher_stands(input);
    lemma_the_page_shows_the_dispatcher(input, render::samples_of(input), at);
}

#[verifier::rlimit(60)]
#[verifier::spinoff_prover]
proof fn lemma_the_page_shows_the_configuration(input: &MetricsInput, items: Seq<ItemView>, at: int)
    requires
        render::renderable(input),
        stands_at(items, render::dispatcher(input), 52, 61, at),
        order::in_order(items, 0, 90),
        order::in_order(render::dispatcher(input), 52, 61),
    ensures
        shown_in(items, "tsls_config_generation"@, Seq::empty(), Value::Count(input.config.generation)),
        shown_in(items, "tsls_config_synced"@, Seq::empty(), told(input.config.ever_synced)),
        shown_in(items, "tsls_config_consecutive_failures"@, Seq::empty(), Value::Count(input.config.consecutive_failures as u64)),
        if input.config.config_valid_until is Some {
            shown_in(items, "tsls_config_valid_remaining_seconds"@, Seq::empty(), left(input.config.config_valid_until->0, input.now))
        } else {
            hidden_in(items, "tsls_config_valid_remaining_seconds"@)
        },
        if input.config.auth_valid_until is Some {
            shown_in(items, "tsls_auth_lease_remaining_seconds"@, Seq::empty(), left(input.config.auth_valid_until->0, input.now))
        } else {
            hidden_in(items, "tsls_auth_lease_remaining_seconds"@)
        },
        shown_in(items, "tsls_config_reconnects_total"@, Seq::empty(), Value::Count(input.config.reconnects)),
        shown_in(items, "tsls_config_entries"@, Seq::empty(), Value::Count(input.config.entries)),
{
    let part = render::dispatcher(input);
    series::lemma_dispatcher(input);
    let n = part.len() as int;
    catalog::lemma_family_at(55);
    assert(catalog::FAMILIES@[55].0@ == "tsls_config_generation"@);
    catalog::lemma_family_at(56);
    assert(catalog::FAMILIES@[56].0@ == "tsls_config_synced"@);
    catalog::lemma_family_at(57);
    assert(catalog::FAMILIES@[57].0@ == "tsls_config_consecutive_failures"@);
    catalog::lemma_family_at(58);
    assert(catalog::FAMILIES@[58].0@ == "tsls_config_valid_remaining_seconds"@);
    catalog::lemma_family_at(59);
    assert(catalog::FAMILIES@[59].0@ == "tsls_auth_lease_remaining_seconds"@);
    catalog::lemma_family_at(60);
    assert(catalog::FAMILIES@[60].0@ == "tsls_config_reconnects_total"@);
    catalog::lemma_family_at(61);
    assert(catalog::FAMILIES@[61].0@ == "tsls_config_entries"@);
    lemma_shown(items, part, 52, 61, at, 5, "tsls_config_generation"@);
    lemma_shown(items, part, 52, 61, at, 6, "tsls_config_synced"@);
    lemma_shown(items, part, 52, 61, at, 7, "tsls_config_consecutive_failures"@);
    if input.config.config_valid_until is Some {
        lemma_shown(items, part, 52, 61, at, 8, "tsls_config_valid_remaining_seconds"@);
    } else {
        lemma_gap(part, 52, 61, 8, 58);
        lemma_hidden(items, part, 52, 61, at, 58, "tsls_config_valid_remaining_seconds"@);
    }
    if input.config.auth_valid_until is Some {
        lemma_shown(items, part, 52, 61, at, n - 3, "tsls_auth_lease_remaining_seconds"@);
    } else {
        lemma_gap(part, 52, 61, n - 2, 59);
        lemma_hidden(items, part, 52, 61, at, 59, "tsls_auth_lease_remaining_seconds"@);
    }
    lemma_shown(items, part, 52, 61, at, n - 2, "tsls_config_reconnects_total"@);
    lemma_shown(items, part, 52, 61, at, n - 1, "tsls_config_entries"@);
}

/// The page shows the generation of the configuration, whether and how it is kept
/// up to date, and for how long it and the authorization are still valid.
pub proof fn law_the_page_shows_the_configuration(input: &MetricsInput)
    requires
        render::renderable(input),
    ensures
        shows(input, "tsls_config_generation"@, Seq::empty(), Value::Count(input.config.generation)),
        shows(input, "tsls_config_synced"@, Seq::empty(), told(input.config.ever_synced)),
        shows(input, "tsls_config_consecutive_failures"@, Seq::empty(), Value::Count(input.config.consecutive_failures as u64)),
        if input.config.config_valid_until is Some {
            shows(input, "tsls_config_valid_remaining_seconds"@, Seq::empty(), left(input.config.config_valid_until->0, input.now))
        } else {
            hides(input, "tsls_config_valid_remaining_seconds"@)
        },
        if input.config.auth_valid_until is Some {
            shows(input, "tsls_auth_lease_remaining_seconds"@, Seq::empty(), left(input.config.auth_valid_until->0, input.now))
        } else {
            hides(input, "tsls_auth_lease_remaining_seconds"@)
        },
        shows(input, "tsls_config_reconnects_total"@, Seq::empty(), Value::Count(input.config.reconnects)),
        shows(input, "tsls_config_entries"@, Seq::empty(), Value::Count(input.config.entries)),
{
    let at = lemma_dispatcher_stands(input);
    lemma_the_page_shows_the_configuration(input, render::samples_of(input), at);
}

#[verifier::rlimit(60)]
#[verifier::spinoff_prover]
proof fn lemma_the_page_shows_triggers(input: &MetricsInput, items: Seq<ItemView>, at: int)
    requires
        render::renderable(input),
        stands_at(items, render::triggers_of(input), 62, 65, at),
        order::in_order(items, 0, 90),
        order::in_order(render::triggers_of(input), 62, 65),
    ensures
        input.triggers is Some ==> ({
            &&& shown_in(items, "tsls_trigger_scheduler_owner"@, Seq::empty(), told(input.triggers->0.scheduler_owner))
            &&& forall|i: int|
                0 <= i < render::CRON_RESULTS@.len() ==> shown_in(
                    items,
                    "tsls_trigger_cron_fires_total"@,
                    seq![("result"@, (#[trigger] render::CRON_RESULTS@[i])@)],
                    Value::Count(counted(input.triggers->0.cron, render::CRON_RESULTS@[i]@)),
                )
            &&& forall|i: int|
                0 <= i < render::MISSED_ACTIONS@.len() ==> shown_in(
                    items,
                    "tsls_trigger_cron_missed_runs_total"@,
                    seq![("action"@, (#[trigger] render::MISSED_ACTIONS@[i])@)],
                    Value::Count(counted(input.triggers->0.missed, render::MISSED_ACTIONS@[i]@)),
                )
            &&& forall|i: int|
                0 <= i < render::WEBHOOK_RESULTS@.len() ==> shown_in(
                    items,
                    "tsls_trigger_webhook_deliveries_total"@,
                    seq![("result"@, (#[trigger] render::WEBHOOK_RESULTS@[i])@)],
                    Value::Count(counted(input.triggers->0.webhook, render::WEBHOOK_RESULTS@[i]@)),
                )
        }),
        input.triggers is None ==> ({
            &&& hidden_in(items, "tsls_trigger_scheduler_owner"@)
            &&& hidden_in(items, "tsls_trigger_cron_fires_total"@)
            &&& hidden_in(items, "tsls_trigger_cron_missed_runs_total"@)
            &&& hidden_in(items, "tsls_trigger_webhook_deliveries_total"@)
        }),
{
    let part = render::triggers_of(input);
    if input.triggers is Some {
        series::lemma_triggers(&input.triggers->0);
    }
    catalog::lemma_family_at(66);
    assert(catalog::FAMILIES@[66].0@ == "tsls_trigger_scheduler_owner"@);
    catalog::lemma_family_at(67);
    assert(catalog::FAMILIES@[67].0@ == "tsls_trigger_cron_fires_total"@);
    catalog::lemma_family_at(68);
    assert(catalog::FAMILIES@[68].0@ == "tsls_trigger_cron_missed_runs_total"@);
    catalog::lemma_family_at(69);
    assert(catalog::FAMILIES@[69].0@ == "tsls_trigger_webhook_deliveries_total"@);
    if input.triggers is Some {
        lemma_shown(items, part, 62, 65, at, 0, "tsls_trigger_scheduler_owner"@);
        assert forall|i: int| 0 <= i < render::CRON_RESULTS@.len() implies shown_in(
            items,
            "tsls_trigger_cron_fires_total"@,
            seq![("result"@, (#[trigger] render::CRON_RESULTS@[i])@)],
            Value::Count(counted(input.triggers->0.cron, render::CRON_RESULTS@[i]@)),
        ) by {
            let k = 1 + i;
            assert(part[k] == render::counts(67usize, "result"@, render::CRON_RESULTS@, &input.triggers->0.cron)[i]);
            lemma_shown(items, part, 62, 65, at, k, "tsls_trigger_cron_fires_total"@);
        }
        assert forall|i: int| 0 <= i < render::MISSED_ACTIONS@.len() implies shown_in(
            items,
            "tsls_trigger_cron_missed_runs_total"@,
            seq![("action"@, (#[trigger] render::MISSED_ACTIONS@[i])@)],
            Value::Count(counted(input.triggers->0.missed, render::MISSED_ACTIONS@[i]@)),
        ) by {
            let k = 6 + i;
            assert(part[k] == render::counts(68usize, "action"@, render::MISSED_ACTIONS@, &input.triggers->0.missed)[i]);
            lemma_shown(items, part, 62, 65, at, k, "tsls_trigger_cron_missed_runs_total"@);
        }
        assert forall|i: int| 0 <= i < render::WEBHOOK_RESULTS@.len() implies shown_in(
            items,
            "tsls_trigger_webhook_deliveries_total"@,
            seq![("result"@, (#[trigger] render::WEBHOOK_RESULTS@[i])@)],
            Value::Count(counted(input.triggers->0.webhook, render::WEBHOOK_RESULTS@[i]@)),
        ) by {
            let k = 8 + i;
            assert(part[k] == render::counts(69usize, "result"@, render::WEBHOOK_RESULTS@, &input.triggers->0.webhook)[i]);
            lemma_shown(items, part, 62, 65, at, k, "tsls_trigger_webhook_deliveries_total"@);
        }
    } else {
        lemma_hidden(items, part, 62, 65, at, 66, "tsls_trigger_scheduler_owner"@);
        lemma_hidden(items, part, 62, 65, at, 67, "tsls_trigger_cron_fires_total"@);
        lemma_hidden(items, part, 62, 65, at, 68, "tsls_trigger_cron_missed_runs_total"@);
        lemma_hidden(items, part, 62, 65, at, 69, "tsls_trigger_webhook_deliveries_total"@);
    }
}

/// Where there are triggers, the page shows them, by result.
pub proof fn law_the_page_shows_triggers(input: &MetricsInput)
    requires
        render::renderable(input),
    ensures
        input.triggers is Some ==> ({
            &&& shows(input, "tsls_trigger_scheduler_owner"@, Seq::empty(), told(input.triggers->0.scheduler_owner))
            &&& forall|i: int|
                0 <= i < render::CRON_RESULTS@.len() ==> shows(
                    input,
                    "tsls_trigger_cron_fires_total"@,
                    seq![("result"@, (#[trigger] render::CRON_RESULTS@[i])@)],
                    Value::Count(counted(input.triggers->0.cron, render::CRON_RESULTS@[i]@)),
                )
            &&& forall|i: int|
                0 <= i < render::MISSED_ACTIONS@.len() ==> shows(
                    input,
                    "tsls_trigger_cron_missed_runs_total"@,
                    seq![("action"@, (#[trigger] render::MISSED_ACTIONS@[i])@)],
                    Value::Count(counted(input.triggers->0.missed, render::MISSED_ACTIONS@[i]@)),
                )
            &&& forall|i: int|
                0 <= i < render::WEBHOOK_RESULTS@.len() ==> shows(
                    input,
                    "tsls_trigger_webhook_deliveries_total"@,
                    seq![("result"@, (#[trigger] render::WEBHOOK_RESULTS@[i])@)],
                    Value::Count(counted(input.triggers->0.webhook, render::WEBHOOK_RESULTS@[i]@)),
                )
        }),
        input.triggers is None ==> ({
            &&& hides(input, "tsls_trigger_scheduler_owner"@)
            &&& hides(input, "tsls_trigger_cron_fires_total"@)
            &&& hides(input, "tsls_trigger_cron_missed_runs_total"@)
            &&& hides(input, "tsls_trigger_webhook_deliveries_total"@)
        }),
{
    let at = lemma_triggers_stands(input);
    lemma_the_page_shows_triggers(input, render::samples_of(input), at);
}

#[verifier::rlimit(60)]
#[verifier::spinoff_prover]
proof fn lemma_the_page_shows_the_outbox(input: &MetricsInput, items: Seq<ItemView>, at: int)
    requires
        render::renderable(input),
        stands_at(items, render::outbox_of(input), 66, 69, at),
        order::in_order(items, 0, 90),
        order::in_order(render::outbox_of(input), 66, 69),
    ensures
        input.outbox is Some ==> ({
            &&& shown_in(items, "tsls_async_outbox_pending_events"@, Seq::empty(), Value::Count(input.outbox->0.pending))
            &&& shown_in(items, "tsls_async_outbox_oldest_pending_age_seconds"@, Seq::empty(), aged(input.outbox->0.oldest_pending_at, input.now))
            &&& shown_in(items, "tsls_async_outbox_sent_retained_events"@, Seq::empty(), Value::Count(input.outbox->0.sent_retained))
            &&& shown_in(items, "tsls_async_queue_condition"@, seq![("condition"@, "healthy"@)], told(input.outbox->0.queue_condition@ == "healthy"@))
            &&& shown_in(items, "tsls_async_queue_condition"@, seq![("condition"@, "full"@)], told(input.outbox->0.queue_condition@ == "full"@))
            &&& shown_in(items, "tsls_async_queue_condition"@, seq![("condition"@, "unavailable"@)], told(input.outbox->0.queue_condition@ == "unavailable"@))
        }),
        input.outbox is None ==> ({
            &&& hidden_in(items, "tsls_async_outbox_pending_events"@)
            &&& hidden_in(items, "tsls_async_outbox_oldest_pending_age_seconds"@)
            &&& hidden_in(items, "tsls_async_outbox_sent_retained_events"@)
            &&& hidden_in(items, "tsls_async_queue_condition"@)
        }),
{
    let part = render::outbox_of(input);
    if input.outbox is Some {
        series::lemma_outbox(&input.outbox->0, input.now);
    }
    catalog::lemma_family_at(62);
    assert(catalog::FAMILIES@[62].0@ == "tsls_async_outbox_pending_events"@);
    catalog::lemma_family_at(63);
    assert(catalog::FAMILIES@[63].0@ == "tsls_async_outbox_oldest_pending_age_seconds"@);
    catalog::lemma_family_at(64);
    assert(catalog::FAMILIES@[64].0@ == "tsls_async_outbox_sent_retained_events"@);
    catalog::lemma_family_at(65);
    assert(catalog::FAMILIES@[65].0@ == "tsls_async_queue_condition"@);
    if input.outbox is Some {
        lemma_shown(items, part, 66, 69, at, 0, "tsls_async_outbox_pending_events"@);
        lemma_shown(items, part, 66, 69, at, 1, "tsls_async_outbox_oldest_pending_age_seconds"@);
        lemma_shown(items, part, 66, 69, at, 2, "tsls_async_outbox_sent_retained_events"@);
        lemma_shown(items, part, 66, 69, at, 3, "tsls_async_queue_condition"@);
        lemma_shown(items, part, 66, 69, at, 4, "tsls_async_queue_condition"@);
        lemma_shown(items, part, 66, 69, at, 5, "tsls_async_queue_condition"@);
    } else {
        lemma_hidden(items, part, 66, 69, at, 62, "tsls_async_outbox_pending_events"@);
        lemma_hidden(items, part, 66, 69, at, 63, "tsls_async_outbox_oldest_pending_age_seconds"@);
        lemma_hidden(items, part, 66, 69, at, 64, "tsls_async_outbox_sent_retained_events"@);
        lemma_hidden(items, part, 66, 69, at, 65, "tsls_async_queue_condition"@);
    }
}

/// Where there is an outbox, the page shows what it holds, since when, and the
/// condition of the queue.
pub proof fn law_the_page_shows_the_outbox(input: &MetricsInput)
    requires
        render::renderable(input),
    ensures
        input.outbox is Some ==> ({
            &&& shows(input, "tsls_async_outbox_pending_events"@, Seq::empty(), Value::Count(input.outbox->0.pending))
            &&& shows(input, "tsls_async_outbox_oldest_pending_age_seconds"@, Seq::empty(), aged(input.outbox->0.oldest_pending_at, input.now))
            &&& shows(input, "tsls_async_outbox_sent_retained_events"@, Seq::empty(), Value::Count(input.outbox->0.sent_retained))
            &&& shows(input, "tsls_async_queue_condition"@, seq![("condition"@, "healthy"@)], told(input.outbox->0.queue_condition@ == "healthy"@))
            &&& shows(input, "tsls_async_queue_condition"@, seq![("condition"@, "full"@)], told(input.outbox->0.queue_condition@ == "full"@))
            &&& shows(input, "tsls_async_queue_condition"@, seq![("condition"@, "unavailable"@)], told(input.outbox->0.queue_condition@ == "unavailable"@))
        }),
        input.outbox is None ==> ({
            &&& hides(input, "tsls_async_outbox_pending_events"@)
            &&& hides(input, "tsls_async_outbox_oldest_pending_age_seconds"@)
            &&& hides(input, "tsls_async_outbox_sent_retained_events"@)
            &&& hides(input, "tsls_async_queue_condition"@)
        }),
{
    let at = lemma_outbox_stands(input);
    lemma_the_page_shows_the_outbox(input, render::samples_of(input), at);
}

#[verifier::rlimit(60)]
#[verifier::spinoff_prover]
proof fn lemma_the_page_shows_the_usage_journal(input: &MetricsInput, items: Seq<ItemView>, at: int)
    requires
        render::renderable(input),
        stands_at(items, render::usage_of(input), 70, 82, at),
        order::in_order(items, 0, 90),
        order::in_order(render::usage_of(input), 70, 82),
    ensures
        input.usage is Some ==> ({
            &&& shown_in(items, "tsls_usage_journal_healthy"@, Seq::empty(), told(input.usage->0.journal_healthy))
            &&& shown_in(items, "tsls_usage_journal_admitting"@, Seq::empty(), told(input.usage->0.journal_admitting))
            &&& shown_in(items, "tsls_usage_journal_pending_events"@, Seq::empty(), Value::Count(input.usage->0.journal_pending_events))
            &&& shown_in(items, "tsls_usage_journal_pending_bytes"@, Seq::empty(), Value::Count(input.usage->0.journal_pending_bytes))
            &&& shown_in(items, "tsls_usage_journal_max_events"@, Seq::empty(), Value::Count(input.usage->0.journal_max_events))
            &&& shown_in(items, "tsls_usage_journal_max_bytes"@, Seq::empty(), Value::Count(input.usage->0.journal_max_bytes))
            &&& shown_in(items, "tsls_usage_unjournaled_events_total"@, Seq::empty(), Value::Count(input.usage->0.unjournaled_events))
        }),
        input.usage is None ==> ({
            &&& hidden_in(items, "tsls_usage_journal_healthy"@)
            &&& hidden_in(items, "tsls_usage_journal_admitting"@)
            &&& hidden_in(items, "tsls_usage_journal_pending_events"@)
            &&& hidden_in(items, "tsls_usage_journal_pending_bytes"@)
            &&& hidden_in(items, "tsls_usage_journal_max_events"@)
            &&& hidden_in(items, "tsls_usage_journal_max_bytes"@)
            &&& hidden_in(items, "tsls_usage_unjournaled_events_total"@)
        }),
{
    let part = render::usage_of(input);
    if input.usage is Some {
        series::lemma_usage(&input.usage->0, input.now);
    }
    catalog::lemma_family_at(70);
    assert(catalog::FAMILIES@[70].0@ == "tsls_usage_journal_healthy"@);
    catalog::lemma_family_at(71);
    assert(catalog::FAMILIES@[71].0@ == "tsls_usage_journal_admitting"@);
    catalog::lemma_family_at(72);
    assert(catalog::FAMILIES@[72].0@ == "tsls_usage_journal_pending_events"@);
    catalog::lemma_family_at(73);
    assert(catalog::FAMILIES@[73].0@ == "tsls_usage_journal_pending_bytes"@);
    catalog::lemma_family_at(74);
    assert(catalog::FAMILIES@[74].0@ == "tsls_usage_journal_max_events"@);
    catalog::lemma_family_at(75);
    assert(catalog::FAMILIES@[75].0@ == "tsls_usage_journal_max_bytes"@);
    catalog::lemma_family_at(76);
    assert(catalog::FAMILIES@[76].0@ == "tsls_usage_unjournaled_events_total"@);
    if input.usage is Some {
        lemma_shown(items, part, 70, 82, at, 0, "tsls_usage_journal_healthy"@);
        lemma_shown(items, part, 70, 82, at, 1, "tsls_usage_journal_admitting"@);
        lemma_shown(items, part, 70, 82, at, 2, "tsls_usage_journal_pending_events"@);
        lemma_shown(items, part, 70, 82, at, 3, "tsls_usage_journal_pending_bytes"@);
        lemma_shown(items, part, 70, 82, at, 4, "tsls_usage_journal_max_events"@);
        lemma_shown(items, part, 70, 82, at, 5, "tsls_usage_journal_max_bytes"@);
        lemma_shown(items, part, 70, 82, at, 6, "tsls_usage_unjournaled_events_total"@);
    } else {
        lemma_hidden(items, part, 70, 82, at, 70, "tsls_usage_journal_healthy"@);
        lemma_hidden(items, part, 70, 82, at, 71, "tsls_usage_journal_admitting"@);
        lemma_hidden(items, part, 70, 82, at, 72, "tsls_usage_journal_pending_events"@);
        lemma_hidden(items, part, 70, 82, at, 73, "tsls_usage_journal_pending_bytes"@);
        lemma_hidden(items, part, 70, 82, at, 74, "tsls_usage_journal_max_events"@);
        lemma_hidden(items, part, 70, 82, at, 75, "tsls_usage_journal_max_bytes"@);
        lemma_hidden(items, part, 70, 82, at, 76, "tsls_usage_unjournaled_events_total"@);
    }
}

/// Where usage is metered, the page shows the journal.
pub proof fn law_the_page_shows_the_usage_journal(input: &MetricsInput)
    requires
        render::renderable(input),
    ensures
        input.usage is Some ==> ({
            &&& shows(input, "tsls_usage_journal_healthy"@, Seq::empty(), told(input.usage->0.journal_healthy))
            &&& shows(input, "tsls_usage_journal_admitting"@, Seq::empty(), told(input.usage->0.journal_admitting))
            &&& shows(input, "tsls_usage_journal_pending_events"@, Seq::empty(), Value::Count(input.usage->0.journal_pending_events))
            &&& shows(input, "tsls_usage_journal_pending_bytes"@, Seq::empty(), Value::Count(input.usage->0.journal_pending_bytes))
            &&& shows(input, "tsls_usage_journal_max_events"@, Seq::empty(), Value::Count(input.usage->0.journal_max_events))
            &&& shows(input, "tsls_usage_journal_max_bytes"@, Seq::empty(), Value::Count(input.usage->0.journal_max_bytes))
            &&& shows(input, "tsls_usage_unjournaled_events_total"@, Seq::empty(), Value::Count(input.usage->0.unjournaled_events))
        }),
        input.usage is None ==> ({
            &&& hides(input, "tsls_usage_journal_healthy"@)
            &&& hides(input, "tsls_usage_journal_admitting"@)
            &&& hides(input, "tsls_usage_journal_pending_events"@)
            &&& hides(input, "tsls_usage_journal_pending_bytes"@)
            &&& hides(input, "tsls_usage_journal_max_events"@)
            &&& hides(input, "tsls_usage_journal_max_bytes"@)
            &&& hides(input, "tsls_usage_unjournaled_events_total"@)
        }),
{
    let at = lemma_usage_stands(input);
    lemma_the_page_shows_the_usage_journal(input, render::samples_of(input), at);
}

#[verifier::rlimit(60)]
#[verifier::spinoff_prover]
proof fn lemma_the_page_shows_the_usage_collector(input: &MetricsInput, items: Seq<ItemView>, at: int)
    requires
        render::renderable(input),
        stands_at(items, render::usage_of(input), 70, 82, at),
        order::in_order(items, 0, 90),
        order::in_order(render::usage_of(input), 70, 82),
    ensures
        input.usage is Some ==> ({
            &&& shown_in(items, "tsls_usage_collector_runs_total"@, Seq::empty(), Value::Count(input.usage->0.collector_runs))
            &&& shown_in(items, "tsls_usage_collector_failing"@, Seq::empty(), told(input.usage->0.collector_failing))
            &&& if input.usage->0.collector_last_success_at is Some {
                shown_in(items, "tsls_usage_collector_last_success_age_seconds"@, Seq::empty(), aged(input.usage->0.collector_last_success_at, input.now))
            } else {
                hidden_in(items, "tsls_usage_collector_last_success_age_seconds"@)
            }
            &&& shown_in(items, "tsls_usage_collector_delivered_events_total"@, Seq::empty(), Value::Count(input.usage->0.collector_delivered))
            &&& if input.usage->0.ledger_events is Some {
                shown_in(items, "tsls_usage_ledger_events"@, Seq::empty(), Value::Count(input.usage->0.ledger_events->0))
            } else {
                hidden_in(items, "tsls_usage_ledger_events"@)
            }
            &&& if input.usage->0.ledger_duplicates_ignored is Some {
                shown_in(items, "tsls_usage_ledger_duplicates_ignored_total"@, Seq::empty(), Value::Count(input.usage->0.ledger_duplicates_ignored->0))
            } else {
                hidden_in(items, "tsls_usage_ledger_duplicates_ignored_total"@)
            }
        }),
        input.usage is None ==> ({
            &&& hidden_in(items, "tsls_usage_collector_runs_total"@)
            &&& hidden_in(items, "tsls_usage_collector_failing"@)
            &&& hidden_in(items, "tsls_usage_collector_last_success_age_seconds"@)
            &&& hidden_in(items, "tsls_usage_collector_delivered_events_total"@)
            &&& hidden_in(items, "tsls_usage_ledger_events"@)
            &&& hidden_in(items, "tsls_usage_ledger_duplicates_ignored_total"@)
        }),
{
    let part = render::usage_of(input);
    if input.usage is Some {
        series::lemma_usage(&input.usage->0, input.now);
    }
    let seen: int = if input.usage->0.collector_last_success_at is Some {
        1
    } else {
        0
    };
    catalog::lemma_family_at(77);
    assert(catalog::FAMILIES@[77].0@ == "tsls_usage_collector_runs_total"@);
    catalog::lemma_family_at(78);
    assert(catalog::FAMILIES@[78].0@ == "tsls_usage_collector_failing"@);
    catalog::lemma_family_at(79);
    assert(catalog::FAMILIES@[79].0@ == "tsls_usage_collector_last_success_age_seconds"@);
    catalog::lemma_family_at(80);
    assert(catalog::FAMILIES@[80].0@ == "tsls_usage_collector_delivered_events_total"@);
    catalog::lemma_family_at(81);
    assert(catalog::FAMILIES@[81].0@ == "tsls_usage_ledger_events"@);
    catalog::lemma_family_at(82);
    assert(catalog::FAMILIES@[82].0@ == "tsls_usage_ledger_duplicates_ignored_total"@);
    if input.usage is Some {
        lemma_shown(items, part, 70, 82, at, 7, "tsls_usage_collector_runs_total"@);
        lemma_shown(items, part, 70, 82, at, 8, "tsls_usage_collector_failing"@);
        if input.usage->0.collector_last_success_at is Some {
            lemma_shown(items, part, 70, 82, at, 9, "tsls_usage_collector_last_success_age_seconds"@);
        } else {
            lemma_gap(part, 70, 82, 9, 79);
            lemma_hidden(items, part, 70, 82, at, 79, "tsls_usage_collector_last_success_age_seconds"@);
        }
        lemma_shown(items, part, 70, 82, at, 9 + seen, "tsls_usage_collector_delivered_events_total"@);
        if input.usage->0.ledger_events is Some {
            lemma_shown(items, part, 70, 82, at, 10 + seen, "tsls_usage_ledger_events"@);
        } else {
            lemma_gap(part, 70, 82, 10 + seen, 81);
            lemma_hidden(items, part, 70, 82, at, 81, "tsls_usage_ledger_events"@);
        }
        if input.usage->0.ledger_duplicates_ignored is Some {
            lemma_shown(items, part, 70, 82, at, part.len() - 1, "tsls_usage_ledger_duplicates_ignored_total"@);
        } else {
            lemma_gap(part, 70, 82, part.len() as int, 82);
            lemma_hidden(items, part, 70, 82, at, 82, "tsls_usage_ledger_duplicates_ignored_total"@);
        }
    } else {
        lemma_hidden(items, part, 70, 82, at, 77, "tsls_usage_collector_runs_total"@);
        lemma_hidden(items, part, 70, 82, at, 78, "tsls_usage_collector_failing"@);
        lemma_hidden(items, part, 70, 82, at, 79, "tsls_usage_collector_last_success_age_seconds"@);
        lemma_hidden(items, part, 70, 82, at, 80, "tsls_usage_collector_delivered_events_total"@);
        lemma_hidden(items, part, 70, 82, at, 81, "tsls_usage_ledger_events"@);
        lemma_hidden(items, part, 70, 82, at, 82, "tsls_usage_ledger_duplicates_ignored_total"@);
    }
}

/// Where usage is metered, the page shows the collector and the ledger.
pub proof fn law_the_page_shows_the_usage_collector(input: &MetricsInput)
    requires
        render::renderable(input),
    ensures
        input.usage is Some ==> ({
            &&& shows(input, "tsls_usage_collector_runs_total"@, Seq::empty(), Value::Count(input.usage->0.collector_runs))
            &&& shows(input, "tsls_usage_collector_failing"@, Seq::empty(), told(input.usage->0.collector_failing))
            &&& if input.usage->0.collector_last_success_at is Some {
                shows(input, "tsls_usage_collector_last_success_age_seconds"@, Seq::empty(), aged(input.usage->0.collector_last_success_at, input.now))
            } else {
                hides(input, "tsls_usage_collector_last_success_age_seconds"@)
            }
            &&& shows(input, "tsls_usage_collector_delivered_events_total"@, Seq::empty(), Value::Count(input.usage->0.collector_delivered))
            &&& if input.usage->0.ledger_events is Some {
                shows(input, "tsls_usage_ledger_events"@, Seq::empty(), Value::Count(input.usage->0.ledger_events->0))
            } else {
                hides(input, "tsls_usage_ledger_events"@)
            }
            &&& if input.usage->0.ledger_duplicates_ignored is Some {
                shows(input, "tsls_usage_ledger_duplicates_ignored_total"@, Seq::empty(), Value::Count(input.usage->0.ledger_duplicates_ignored->0))
            } else {
                hides(input, "tsls_usage_ledger_duplicates_ignored_total"@)
            }
        }),
        input.usage is None ==> ({
            &&& hides(input, "tsls_usage_collector_runs_total"@)
            &&& hides(input, "tsls_usage_collector_failing"@)
            &&& hides(input, "tsls_usage_collector_last_success_age_seconds"@)
            &&& hides(input, "tsls_usage_collector_delivered_events_total"@)
            &&& hides(input, "tsls_usage_ledger_events"@)
            &&& hides(input, "tsls_usage_ledger_duplicates_ignored_total"@)
        }),
{
    let at = lemma_usage_stands(input);
    lemma_the_page_shows_the_usage_collector(input, render::samples_of(input), at);
}

#[verifier::rlimit(60)]
#[verifier::spinoff_prover]
proof fn lemma_the_page_shows_asynchronous_dispatch(input: &MetricsInput, items: Seq<ItemView>, at: int)
    requires
        render::renderable(input),
        stands_at(items, render::dispatch_of(input), 83, 89, at),
        order::in_order(items, 0, 90),
        order::in_order(render::dispatch_of(input), 83, 89),
    ensures
        input.dispatch is Some ==> ({
            &&& forall|i: int|
                0 <= i < crate::metrics::dispatch::DELIVERY_OUTCOMES@.len() ==> shown_in(
                    items,
                    "tsls_async_dispatch_deliveries_total"@,
                    seq![("outcome"@, (#[trigger] crate::metrics::dispatch::DELIVERY_OUTCOMES@[i])@)],
                    Value::Count(counted(input.dispatch->0.deliveries, crate::metrics::dispatch::DELIVERY_OUTCOMES@[i]@)),
                )
            &&& shown_in(items, "tsls_async_dispatch_runs_in_flight"@, Seq::empty(), Value::Count(input.dispatch->0.in_flight))
            &&& forall|i: int|
                0 <= i < crate::metrics::dispatch::RETRY_KINDS@.len() ==> shown_in(
                    items,
                    "tsls_async_retries_scheduled_total"@,
                    seq![("kind"@, (#[trigger] crate::metrics::dispatch::RETRY_KINDS@[i])@)],
                    Value::Count(counted(input.dispatch->0.retries, crate::metrics::dispatch::RETRY_KINDS@[i]@)),
                )
            &&& forall|i: int|
                0 <= i < crate::metrics::dispatch::DEAD_LETTER_REASONS@.len() ==> shown_in(
                    items,
                    "tsls_async_dead_letters_total"@,
                    seq![("reason"@, (#[trigger] crate::metrics::dispatch::DEAD_LETTER_REASONS@[i])@)],
                    Value::Count(counted(input.dispatch->0.dead_letters, crate::metrics::dispatch::DEAD_LETTER_REASONS@[i]@)),
                )
            &&& shown_in(items, "tsls_async_redrives_total"@, Seq::empty(), Value::Count(input.dispatch->0.redrives))
            &&& forall|i: int|
                0 <= i < crate::metrics::dispatch::REAPER_ACTIONS@.len() ==> shown_in(
                    items,
                    "tsls_async_reaper_actions_total"@,
                    seq![("action"@, (#[trigger] crate::metrics::dispatch::REAPER_ACTIONS@[i])@)],
                    Value::Count(counted(input.dispatch->0.reaper, crate::metrics::dispatch::REAPER_ACTIONS@[i]@)),
                )
        }),
        input.dispatch is None ==> ({
            &&& hidden_in(items, "tsls_async_dispatch_deliveries_total"@)
            &&& hidden_in(items, "tsls_async_dispatch_runs_in_flight"@)
            &&& hidden_in(items, "tsls_async_retries_scheduled_total"@)
            &&& hidden_in(items, "tsls_async_dead_letters_total"@)
            &&& hidden_in(items, "tsls_async_redrives_total"@)
            &&& hidden_in(items, "tsls_async_reaper_actions_total"@)
        }),
{
    let part = render::dispatch_of(input);
    if input.dispatch is Some {
        series::lemma_dispatch(&input.dispatch->0);
    }
    lemma_six_operations(input);
    catalog::lemma_family_at(83);
    assert(catalog::FAMILIES@[83].0@ == "tsls_async_dispatch_deliveries_total"@);
    catalog::lemma_family_at(85);
    assert(catalog::FAMILIES@[85].0@ == "tsls_async_dispatch_runs_in_flight"@);
    catalog::lemma_family_at(86);
    assert(catalog::FAMILIES@[86].0@ == "tsls_async_retries_scheduled_total"@);
    catalog::lemma_family_at(87);
    assert(catalog::FAMILIES@[87].0@ == "tsls_async_dead_letters_total"@);
    catalog::lemma_family_at(88);
    assert(catalog::FAMILIES@[88].0@ == "tsls_async_redrives_total"@);
    catalog::lemma_family_at(89);
    assert(catalog::FAMILIES@[89].0@ == "tsls_async_reaper_actions_total"@);
    if input.dispatch is Some {
        assert forall|i: int| 0 <= i < crate::metrics::dispatch::DELIVERY_OUTCOMES@.len() implies shown_in(
            items,
            "tsls_async_dispatch_deliveries_total"@,
            seq![("outcome"@, (#[trigger] crate::metrics::dispatch::DELIVERY_OUTCOMES@[i])@)],
            Value::Count(counted(input.dispatch->0.deliveries, crate::metrics::dispatch::DELIVERY_OUTCOMES@[i]@)),
        ) by {
            let k = 0 + i;
            assert(part[k] == render::counts(83usize, "outcome"@, crate::metrics::dispatch::DELIVERY_OUTCOMES@, &input.dispatch->0.deliveries)[i]);
            lemma_shown(items, part, 83, 89, at, k, "tsls_async_dispatch_deliveries_total"@);
        }
        lemma_shown(items, part, 83, 89, at, 16, "tsls_async_dispatch_runs_in_flight"@);
        assert forall|i: int| 0 <= i < crate::metrics::dispatch::RETRY_KINDS@.len() implies shown_in(
            items,
            "tsls_async_retries_scheduled_total"@,
            seq![("kind"@, (#[trigger] crate::metrics::dispatch::RETRY_KINDS@[i])@)],
            Value::Count(counted(input.dispatch->0.retries, crate::metrics::dispatch::RETRY_KINDS@[i]@)),
        ) by {
            let k = 17 + i;
            assert(part[k] == render::counts(86usize, "kind"@, crate::metrics::dispatch::RETRY_KINDS@, &input.dispatch->0.retries)[i]);
            lemma_shown(items, part, 83, 89, at, k, "tsls_async_retries_scheduled_total"@);
        }
        assert forall|i: int| 0 <= i < crate::metrics::dispatch::DEAD_LETTER_REASONS@.len() implies shown_in(
            items,
            "tsls_async_dead_letters_total"@,
            seq![("reason"@, (#[trigger] crate::metrics::dispatch::DEAD_LETTER_REASONS@[i])@)],
            Value::Count(counted(input.dispatch->0.dead_letters, crate::metrics::dispatch::DEAD_LETTER_REASONS@[i]@)),
        ) by {
            let k = 19 + i;
            assert(part[k] == render::counts(87usize, "reason"@, crate::metrics::dispatch::DEAD_LETTER_REASONS@, &input.dispatch->0.dead_letters)[i]);
            lemma_shown(items, part, 83, 89, at, k, "tsls_async_dead_letters_total"@);
        }
        lemma_shown(items, part, 83, 89, at, 25, "tsls_async_redrives_total"@);
        assert forall|i: int| 0 <= i < crate::metrics::dispatch::REAPER_ACTIONS@.len() implies shown_in(
            items,
            "tsls_async_reaper_actions_total"@,
            seq![("action"@, (#[trigger] crate::metrics::dispatch::REAPER_ACTIONS@[i])@)],
            Value::Count(counted(input.dispatch->0.reaper, crate::metrics::dispatch::REAPER_ACTIONS@[i]@)),
        ) by {
            let k = 26 + i;
            assert(part[k] == render::counts(89usize, "action"@, crate::metrics::dispatch::REAPER_ACTIONS@, &input.dispatch->0.reaper)[i]);
            lemma_shown(items, part, 83, 89, at, k, "tsls_async_reaper_actions_total"@);
        }
    } else {
        lemma_hidden(items, part, 83, 89, at, 83, "tsls_async_dispatch_deliveries_total"@);
        lemma_hidden(items, part, 83, 89, at, 85, "tsls_async_dispatch_runs_in_flight"@);
        lemma_hidden(items, part, 83, 89, at, 86, "tsls_async_retries_scheduled_total"@);
        lemma_hidden(items, part, 83, 89, at, 87, "tsls_async_dead_letters_total"@);
        lemma_hidden(items, part, 83, 89, at, 88, "tsls_async_redrives_total"@);
        lemma_hidden(items, part, 83, 89, at, 89, "tsls_async_reaper_actions_total"@);
    }
}

/// Where invocations are dispatched asynchronously, the page shows deliveries,
/// runs, retries, dead letters, redrives and the reaper.
pub proof fn law_the_page_shows_asynchronous_dispatch(input: &MetricsInput)
    requires
        render::renderable(input),
    ensures
        input.dispatch is Some ==> ({
            &&& forall|i: int|
                0 <= i < crate::metrics::dispatch::DELIVERY_OUTCOMES@.len() ==> shows(
                    input,
                    "tsls_async_dispatch_deliveries_total"@,
                    seq![("outcome"@, (#[trigger] crate::metrics::dispatch::DELIVERY_OUTCOMES@[i])@)],
                    Value::Count(counted(input.dispatch->0.deliveries, crate::metrics::dispatch::DELIVERY_OUTCOMES@[i]@)),
                )
            &&& shows(input, "tsls_async_dispatch_runs_in_flight"@, Seq::empty(), Value::Count(input.dispatch->0.in_flight))
            &&& forall|i: int|
                0 <= i < crate::metrics::dispatch::RETRY_KINDS@.len() ==> shows(
                    input,
                    "tsls_async_retries_scheduled_total"@,
                    seq![("kind"@, (#[trigger] crate::metrics::dispatch::RETRY_KINDS@[i])@)],
                    Value::Count(counted(input.dispatch->0.retries, crate::metrics::dispatch::RETRY_KINDS@[i]@)),
                )
            &&& forall|i: int|
                0 <= i < crate::metrics::dispatch::DEAD_LETTER_REASONS@.len() ==> shows(
                    input,
                    "tsls_async_dead_letters_total"@,
                    seq![("reason"@, (#[trigger] crate::metrics::dispatch::DEAD_LETTER_REASONS@[i])@)],
                    Value::Count(counted(input.dispatch->0.dead_letters, crate::metrics::dispatch::DEAD_LETTER_REASONS@[i]@)),
                )
            &&& shows(input, "tsls_async_redrives_total"@, Seq::empty(), Value::Count(input.dispatch->0.redrives))
            &&& forall|i: int|
                0 <= i < crate::metrics::dispatch::REAPER_ACTIONS@.len() ==> shows(
                    input,
                    "tsls_async_reaper_actions_total"@,
                    seq![("action"@, (#[trigger] crate::metrics::dispatch::REAPER_ACTIONS@[i])@)],
                    Value::Count(counted(input.dispatch->0.reaper, crate::metrics::dispatch::REAPER_ACTIONS@[i]@)),
                )
        }),
        input.dispatch is None ==> ({
            &&& hides(input, "tsls_async_dispatch_deliveries_total"@)
            &&& hides(input, "tsls_async_dispatch_runs_in_flight"@)
            &&& hides(input, "tsls_async_retries_scheduled_total"@)
            &&& hides(input, "tsls_async_dead_letters_total"@)
            &&& hides(input, "tsls_async_redrives_total"@)
            &&& hides(input, "tsls_async_reaper_actions_total"@)
        }),
{
    let at = lemma_dispatch_stands(input);
    lemma_the_page_shows_asynchronous_dispatch(input, render::samples_of(input), at);
}

#[verifier::rlimit(60)]
#[verifier::spinoff_prover]
proof fn lemma_the_page_shows_what_it_folds(input: &MetricsInput, items: Seq<ItemView>, at: int)
    requires
        render::renderable(input),
        stands_at(items, render::truncated(input), 90, 90, at),
        order::in_order(items, 0, 90),
        order::in_order(render::truncated(input), 90, 90),
    ensures
        shown_in(items, "tsls_metrics_series_truncated"@, seq![("dimension"@, "revision"@)], folded(input.admission.revisions@.len(), input.limits.revisions)),
        shown_in(items, "tsls_metrics_series_truncated"@, seq![("dimension"@, "tenant"@)], folded(input.admission.tenants@.len(), input.limits.tenants)),
        shown_in(items, "tsls_metrics_series_truncated"@, seq![("dimension"@, "environment"@)], folded(input.environments@.len(), input.limits.environments)),
{
    let part = render::truncated(input);
    series::lemma_truncated(input);
    catalog::lemma_family_at(90);
    assert(catalog::FAMILIES@[90].0@ == "tsls_metrics_series_truncated"@);
    lemma_shown(items, part, 90, 90, at, 0, "tsls_metrics_series_truncated"@);
    lemma_shown(items, part, 90, 90, at, 1, "tsls_metrics_series_truncated"@);
    lemma_shown(items, part, 90, 90, at, 2, "tsls_metrics_series_truncated"@);
}

/// The page shows, for each kind of row, how many rows were folded into one because
/// they exceed the limit.
pub proof fn law_the_page_shows_what_it_folds(input: &MetricsInput)
    requires
        render::renderable(input),
    ensures
        shows(input, "tsls_metrics_series_truncated"@, seq![("dimension"@, "revision"@)], folded(input.admission.revisions@.len(), input.limits.revisions)),
        shows(input, "tsls_metrics_series_truncated"@, seq![("dimension"@, "tenant"@)], folded(input.admission.tenants@.len(), input.limits.tenants)),
        shows(input, "tsls_metrics_series_truncated"@, seq![("dimension"@, "environment"@)], folded(input.environments@.len(), input.limits.environments)),
{
    let at = lemma_truncated_stands(input);
    lemma_the_page_shows_what_it_folds(input, render::samples_of(input), at);
}

/// Where an item of a flattened list stands.
proof fn lemma_flat_at<T>(list: Seq<T>, f: spec_fn(T) -> Seq<ItemView>, m: int, q: int) -> (at: int)
    requires
        0 <= m < list.len(),
        0 <= q < f(list[m]).len(),
    ensures
        0 <= at < render::flat(list, f).len(),
        render::flat(list, f)[at] == f(list[m])[q],
    decreases list.len(),
{
    let rest = render::flat(list.drop_last(), f);
    if m == list.len() - 1 {
        rest.len() + q
    } else {
        assert(list.drop_last()[m] == list[m]);
        let at = lemma_flat_at(list.drop_last(), f, m, q);
        at
    }
}

#[verifier::rlimit(60)]
#[verifier::spinoff_prover]
proof fn lemma_revision_shown(
    rows: Seq<RevisionRowView>,
    r: int,
    items: Seq<ItemView>,
    at: int,
)
    requires
        0 <= r < rows.len(),
        series::revision_rows_differ(rows),
        stands_at(items, render::revisions(rows), 16, 21, at),
        order::in_order(items, 0, 90),
        order::in_order(render::revisions(rows), 16, 21),
    ensures
        ({
            let row = rows[r];
            let own = seq![("tenant"@, row.tenant), ("revision"@, row.revision)];
            let e = row.environments;
            let name = "tsls_revision_environments"@;
            &&& shown_in(items, name, own.push(("state"@, "promised"@)), Value::Count(e.promised))
            &&& shown_in(items, name, own.push(("state"@, "starting"@)), Value::Count(e.starting))
            &&& shown_in(items, name, own.push(("state"@, "busy"@)), Value::Count(e.busy))
            &&& shown_in(items, name, own.push(("state"@, "parking"@)), Value::Count(e.parking))
            &&& shown_in(items, name, own.push(("state"@, "idle"@)), Value::Count(e.idle))
            &&& shown_in(items, name, own.push(("state"@, "draining"@)), Value::Count(e.draining))
        }),
{
    let part = render::revisions(rows);
    series::lemma_revisions(rows);
    let row = rows[r];
    let own = seq![("tenant"@, row.tenant), ("revision"@, row.revision)];
    let e = row.environments;
    let f = |r: RevisionRowView| render::revision_states(r);
    let flat = render::flat(rows, f);
    catalog::lemma_family_at(16);
    let name = "tsls_revision_environments"@;
    assert(catalog::FAMILIES@[16].0@ == name);
    let k0 = lemma_flat_at(rows, f, r, 0);
    let k1 = lemma_flat_at(rows, f, r, 1);
    let k2 = lemma_flat_at(rows, f, r, 2);
    let k3 = lemma_flat_at(rows, f, r, 3);
    let k4 = lemma_flat_at(rows, f, r, 4);
    let k5 = lemma_flat_at(rows, f, r, 5);
    assert(part[k0] == flat[k0] && part[k1] == flat[k1] && part[k2] == flat[k2] && part[k3]
        == flat[k3] && part[k4] == flat[k4] && part[k5] == flat[k5]);
    assert(own.push(("state"@, "promised"@)) =~= part[k0].line->0.labels);
    assert(own.push(("state"@, "starting"@)) =~= part[k1].line->0.labels);
    assert(own.push(("state"@, "busy"@)) =~= part[k2].line->0.labels);
    assert(own.push(("state"@, "parking"@)) =~= part[k3].line->0.labels);
    assert(own.push(("state"@, "idle"@)) =~= part[k4].line->0.labels);
    assert(own.push(("state"@, "draining"@)) =~= part[k5].line->0.labels);
    lemma_shown(items, part, 16, 21, at, k0, name);
    lemma_shown(items, part, 16, 21, at, k1, name);
    lemma_shown(items, part, 16, 21, at, k2, name);
    lemma_shown(items, part, 16, 21, at, k3, name);
    lemma_shown(items, part, 16, 21, at, k4, name);
    lemma_shown(items, part, 16, 21, at, k5, name);
}

#[verifier::rlimit(60)]
#[verifier::spinoff_prover]
proof fn lemma_revision_values_shown(
    rows: Seq<RevisionRowView>,
    r: int,
    items: Seq<ItemView>,
    at: int,
)
    requires
        0 <= r < rows.len(),
        series::revision_rows_differ(rows),
        stands_at(items, render::revisions(rows), 16, 21, at),
        order::in_order(items, 0, 90),
        order::in_order(render::revisions(rows), 16, 21),
    ensures
        ({
            let row = rows[r];
            let own = seq![("tenant"@, row.tenant), ("revision"@, row.revision)];
            &&& shown_in(
                items,
                "tsls_revision_desired_environments"@,
                own,
                Value::Count(row.desired as u64),
            )
            &&& shown_in(
                items,
                "tsls_revision_max_environments"@,
                own,
                Value::Count(row.max_environments as u64),
            )
            &&& shown_in(
                items,
                "tsls_revision_min_ready"@,
                own,
                Value::Count(row.min_ready as u64),
            )
            &&& shown_in(
                items,
                "tsls_revision_queue_length"@,
                own,
                Value::Count(row.queued as u64),
            )
            &&& shown_in(
                items,
                "tsls_revision_circuit_breaker_state"@,
                own,
                Value::Count(caps::spec_breaker_value(row.breaker)),
            )
        }),
{
    let part = render::revisions(rows);
    series::lemma_revisions(rows);
    let n = rows.len() as int;
    let o = render::flat(rows, |r: RevisionRowView| render::revision_states(r)).len() as int;
    catalog::lemma_family_at(17);
    assert(catalog::FAMILIES@[17].0@ == "tsls_revision_desired_environments"@);
    catalog::lemma_family_at(18);
    assert(catalog::FAMILIES@[18].0@ == "tsls_revision_max_environments"@);
    catalog::lemma_family_at(19);
    assert(catalog::FAMILIES@[19].0@ == "tsls_revision_min_ready"@);
    catalog::lemma_family_at(20);
    assert(catalog::FAMILIES@[20].0@ == "tsls_revision_queue_length"@);
    catalog::lemma_family_at(21);
    assert(catalog::FAMILIES@[21].0@ == "tsls_revision_circuit_breaker_state"@);
    lemma_shown(items, part, 16, 21, at, o + r, "tsls_revision_desired_environments"@);
    lemma_shown(items, part, 16, 21, at, o + n + r, "tsls_revision_max_environments"@);
    lemma_shown(items, part, 16, 21, at, o + 2 * n + r, "tsls_revision_min_ready"@);
    lemma_shown(items, part, 16, 21, at, o + 3 * n + r, "tsls_revision_queue_length"@);
    lemma_shown(items, part, 16, 21, at, o + 4 * n + r, "tsls_revision_circuit_breaker_state"@);
}

/// The page shows, for every revision that has a row, how many environments it
/// has in each of the six states and how many it wants, may have and keeps
/// ready, its queue and its circuit breaker.
pub proof fn law_the_page_shows_every_revision(input: &MetricsInput, r: int)
    requires
        render::renderable(input),
        series::revisions_differ(input.admission.revisions@),
        0 <= r < caps::revision_rows(input.admission.revisions@, input.limits.revisions).len(),
    ensures
        ({
            let row = caps::revision_rows(
                input.admission.revisions@,
                input.limits.revisions,
            )[r];
            let own = seq![("tenant"@, row.tenant), ("revision"@, row.revision)];
            let e = row.environments;
            let name = "tsls_revision_environments"@;
            &&& shows(input, name, own.push(("state"@, "promised"@)), Value::Count(e.promised))
            &&& shows(input, name, own.push(("state"@, "starting"@)), Value::Count(e.starting))
            &&& shows(input, name, own.push(("state"@, "busy"@)), Value::Count(e.busy))
            &&& shows(input, name, own.push(("state"@, "parking"@)), Value::Count(e.parking))
            &&& shows(input, name, own.push(("state"@, "idle"@)), Value::Count(e.idle))
            &&& shows(input, name, own.push(("state"@, "draining"@)), Value::Count(e.draining))
            &&& shows(
                input,
                "tsls_revision_desired_environments"@,
                own,
                Value::Count(row.desired as u64),
            )
            &&& shows(
                input,
                "tsls_revision_max_environments"@,
                own,
                Value::Count(row.max_environments as u64),
            )
            &&& shows(input, "tsls_revision_min_ready"@, own, Value::Count(row.min_ready as u64))
            &&& shows(input, "tsls_revision_queue_length"@, own, Value::Count(row.queued as u64))
            &&& shows(
                input,
                "tsls_revision_circuit_breaker_state"@,
                own,
                Value::Count(caps::spec_breaker_value(row.breaker)),
            )
        }),
{
    let rows = caps::revision_rows(input.admission.revisions@, input.limits.revisions);
    series::lemma_revision_rows(input.admission.revisions@, input.limits.revisions);
    let at = lemma_revisions_stands(input);
    lemma_revision_shown(rows, r, render::samples_of(input), at);
    lemma_revision_values_shown(rows, r, render::samples_of(input), at);
}

#[verifier::rlimit(60)]
#[verifier::spinoff_prover]
proof fn lemma_tenant_shown(
    rows: Seq<TenantRowView>,
    r: int,
    items: Seq<ItemView>,
    at: int,
)
    requires
        0 <= r < rows.len(),
        series::tenant_rows_differ(rows),
        stands_at(items, render::tenants(rows), 27, 31, at),
        order::in_order(items, 0, 90),
        order::in_order(render::tenants(rows), 27, 31),
    ensures
        ({
            let row = rows[r];
            let own = seq![("tenant"@, row.tenant)];
            &&& shown_in(items, "tsls_tenant_queue_length"@, own, Value::Count(row.queued))
            &&& shown_in(
                items,
                "tsls_tenant_queue_oldest_age_seconds"@,
                own,
                waited(row.oldest_wait_seconds),
            )
            &&& shown_in(items, "tsls_tenant_in_flight"@, own, Value::Count(row.in_flight))
            &&& row.max_concurrency is Some ==> shown_in(
                items,
                "tsls_tenant_max_concurrency"@,
                own,
                Value::Count(row.max_concurrency->0),
            )
            &&& shown_in(items, "tsls_tenant_grants_total"@, own, Value::Count(row.grants))
        }),
{
    let part = render::tenants(rows);
    series::lemma_tenants(rows);
    let row = rows[r];
    let f0 = |t: TenantRowView| render::tenant_item(27, TenantField::Queued, t);
    let f1 = |t: TenantRowView| render::tenant_item(28, TenantField::OldestWait, t);
    let f2 = |t: TenantRowView| render::tenant_item(29, TenantField::InFlight, t);
    let f3 = |t: TenantRowView| render::tenant_item(30, TenantField::MaxConcurrency, t);
    let f4 = |t: TenantRowView| render::tenant_item(31, TenantField::Grants, t);
    let a = render::tenant_family(27, TenantField::Queued, rows);
    let b = render::tenant_family(28, TenantField::OldestWait, rows);
    let c = render::tenant_family(29, TenantField::InFlight, rows);
    let d = render::tenant_family(30, TenantField::MaxConcurrency, rows);
    let e = render::tenant_family(31, TenantField::Grants, rows);
    assert(part == a + b + c + d + e);
    catalog::lemma_family_at(27);
    assert(catalog::FAMILIES@[27].0@ == "tsls_tenant_queue_length"@);
    catalog::lemma_family_at(28);
    assert(catalog::FAMILIES@[28].0@ == "tsls_tenant_queue_oldest_age_seconds"@);
    catalog::lemma_family_at(29);
    assert(catalog::FAMILIES@[29].0@ == "tsls_tenant_in_flight"@);
    catalog::lemma_family_at(30);
    assert(catalog::FAMILIES@[30].0@ == "tsls_tenant_max_concurrency"@);
    catalog::lemma_family_at(31);
    assert(catalog::FAMILIES@[31].0@ == "tsls_tenant_grants_total"@);
    let k0 = lemma_flat_at(rows, f0, r, 0);
    assert(part[k0] == a[k0]);
    lemma_shown(items, part, 27, 31, at, k0, "tsls_tenant_queue_length"@);
    let k1 = lemma_flat_at(rows, f1, r, 0);
    assert(part[a.len() + k1] == b[k1]);
    lemma_shown(items, part, 27, 31, at, a.len() + k1, "tsls_tenant_queue_oldest_age_seconds"@);
    let k2 = lemma_flat_at(rows, f2, r, 0);
    assert(part[a.len() + b.len() + k2] == c[k2]);
    lemma_shown(items, part, 27, 31, at, a.len() + b.len() + k2, "tsls_tenant_in_flight"@);
    if row.max_concurrency is Some {
        let k3 = lemma_flat_at(rows, f3, r, 0);
        assert(part[a.len() + b.len() + c.len() + k3] == d[k3]);
        lemma_shown(
            items,
            part,
            27,
            31,
            at,
            a.len() + b.len() + c.len() + k3,
            "tsls_tenant_max_concurrency"@,
        );
    }
    let k4 = lemma_flat_at(rows, f4, r, 0);
    assert(part[a.len() + b.len() + c.len() + d.len() + k4] == e[k4]);
    lemma_shown(
        items,
        part,
        27,
        31,
        at,
        a.len() + b.len() + c.len() + d.len() + k4,
        "tsls_tenant_grants_total"@,
    );
}

/// The page shows, for every tenant that has a row, its queue and how long the
/// oldest entry waits, what is in flight, its limit where it has one, and what
/// it was granted.
pub proof fn law_the_page_shows_every_tenant(input: &MetricsInput, r: int)
    requires
        render::renderable(input),
        series::tenants_differ(input.admission.tenants@),
        0 <= r < caps::tenant_rows(input.admission.tenants@, input.limits.tenants).len(),
    ensures
        ({
            let row = caps::tenant_rows(input.admission.tenants@, input.limits.tenants)[r];
            let own = seq![("tenant"@, row.tenant)];
            &&& shows(input, "tsls_tenant_queue_length"@, own, Value::Count(row.queued))
            &&& shows(
                input,
                "tsls_tenant_queue_oldest_age_seconds"@,
                own,
                waited(row.oldest_wait_seconds),
            )
            &&& shows(input, "tsls_tenant_in_flight"@, own, Value::Count(row.in_flight))
            &&& row.max_concurrency is Some ==> shows(
                input,
                "tsls_tenant_max_concurrency"@,
                own,
                Value::Count(row.max_concurrency->0),
            )
            &&& shows(input, "tsls_tenant_grants_total"@, own, Value::Count(row.grants))
        }),
{
    let rows = caps::tenant_rows(input.admission.tenants@, input.limits.tenants);
    series::lemma_tenant_rows(input.admission.tenants@, input.limits.tenants);
    let at = lemma_tenants_stands(input);
    lemma_tenant_shown(rows, r, render::samples_of(input), at);
}

/// Where the sample of a row of a kind stands.
proof fn lemma_kind_row_at(
    family: usize,
    k: Seq<char>,
    k2: Seq<char>,
    rows: Seq<Entry>,
    r: int,
) -> (at: int)
    requires
        0 <= r < rows.len(),
    ensures
        ({
            let list = render::kind_rows(family, k, k2, rows[r].first@, rows);
            &&& 0 <= at < list.len()
            &&& list[at] == render::two(
                family,
                k,
                rows[r].first@,
                k2,
                rows[r].second@,
                Value::Count(rows[r].n),
            )
        }),
    decreases rows.len(),
{
    let kind = rows[r].first@;
    let rest = render::kind_rows(family, k, k2, kind, rows.drop_last());
    if r == rows.len() - 1 {
        rest.len() as int
    } else {
        assert(rows.drop_last()[r] == rows[r]);
        let at = lemma_kind_row_at(family, k, k2, rows.drop_last(), r);
        at
    }
}

/// Without a row of a kind the kind has no samples of its own.
proof fn lemma_no_kind_rows(
    family: usize,
    k: Seq<char>,
    k2: Seq<char>,
    kind: Seq<char>,
    rows: Seq<Entry>,
)
    requires
        forall|i: int| 0 <= i < rows.len() ==> (#[trigger] rows[i]).first@ != kind,
    ensures
        render::kind_rows(family, k, k2, kind, rows).len() == 0,
    decreases rows.len(),
{
    if rows.len() > 0 {
        assert(rows[rows.len() - 1].first@ != kind);
        assert forall|i: int| 0 <= i < rows.drop_last().len() implies (
        #[trigger] rows.drop_last()[i]).first@ != kind by {
            assert(rows.drop_last()[i] == rows[i]);
        }
        lemma_no_kind_rows(family, k, k2, kind, rows.drop_last());
    }
}

#[verifier::spinoff_prover]
proof fn lemma_scale_event_shown(
    input: &MetricsInput,
    kind: int,
    r: int,
    items: Seq<ItemView>,
    at: int,
)
    requires
        render::renderable(input),
        stands_at(items, render::admission(&input.admission), 32, 40, at),
        order::in_order(items, 0, 90),
        order::in_order(render::admission(&input.admission), 32, 40),
        0 <= kind < render::SCALE_KINDS@.len(),
    ensures
        ({
            let rows = input.admission.counters.scale_events.rows.values@;
            let name = "tsls_scale_events_total"@;
            let of = render::SCALE_KINDS@[kind]@;
            &&& 0 <= r < rows.len() && rows[r].first@ == of ==> shown_in(
                items,
                name,
                seq![("kind"@, of), ("reason"@, rows[r].second@)],
                Value::Count(rows[r].n),
            )
            &&& (forall|i: int| 0 <= i < rows.len() ==> (#[trigger] rows[i]).first@ != of)
                ==> shown_in(
                items,
                name,
                seq![("kind"@, of), ("reason"@, "none"@)],
                Value::Count(0),
            )
        }),
{
    let part = render::admission(&input.admission);
    series::lemma_admission(&input.admission);
    let t = &input.admission.counters.scale_events;
    let rows = t.rows.values@;
    let of = render::SCALE_KINDS@[kind]@;
    let f = |kind: &'static str|
        render::kind_items(40, "kind"@, "reason"@, "none"@, kind@, t);
    let last = render::by_kind(40, "kind"@, "reason"@, "none"@, render::SCALE_KINDS@, t);
    let o = part.len() - last.len();
    catalog::lemma_family_at(40);
    assert(catalog::FAMILIES@[40].0@ == "tsls_scale_events_total"@);
    if 0 <= r < rows.len() && rows[r].first@ == of {
        let q = lemma_kind_row_at(40, "kind"@, "reason"@, rows, r);
        let m = lemma_flat_at(render::SCALE_KINDS@, f, kind, q);
        assert(part[o + m] == last[m]);
        lemma_shown(items, part, 32, 40, at, o + m, "tsls_scale_events_total"@);
    }
    if forall|i: int| 0 <= i < rows.len() ==> (#[trigger] rows[i]).first@ != of {
        lemma_no_kind_rows(40, "kind"@, "reason"@, of, rows);
        let m = lemma_flat_at(render::SCALE_KINDS@, f, kind, 0);
        assert(part[o + m] == last[m]);
        lemma_shown(items, part, 32, 40, at, o + m, "tsls_scale_events_total"@);
    }
}

/// The page shows every scale event of a known kind by kind and reason, and a
/// zero for a kind of which there was none.
pub proof fn law_the_page_shows_scale_events(input: &MetricsInput, kind: int, r: int)
    requires
        render::renderable(input),
        0 <= kind < render::SCALE_KINDS@.len(),
    ensures
        ({
            let rows = input.admission.counters.scale_events.rows.values@;
            let name = "tsls_scale_events_total"@;
            let of = render::SCALE_KINDS@[kind]@;
            &&& 0 <= r < rows.len() && rows[r].first@ == of ==> shows(
                input,
                name,
                seq![("kind"@, of), ("reason"@, rows[r].second@)],
                Value::Count(rows[r].n),
            )
            &&& (forall|i: int| 0 <= i < rows.len() ==> (#[trigger] rows[i]).first@ != of)
                ==> shows(
                input,
                name,
                seq![("kind"@, of), ("reason"@, "none"@)],
                Value::Count(0),
            )
        }),
{
    let at = lemma_admission_stands(input);
    lemma_scale_event_shown(input, kind, r, render::samples_of(input), at);
}

#[verifier::spinoff_prover]
proof fn lemma_attempt_shown(
    input: &MetricsInput,
    kind: int,
    r: int,
    items: Seq<ItemView>,
    at: int,
)
    requires
        render::renderable(input),
        stands_at(items, render::attempts(&input.events), 41, 44, at),
        order::in_order(items, 0, 90),
        order::in_order(render::attempts(&input.events), 41, 44),
        0 <= kind < render::START_KINDS@.len(),
    ensures
        ({
            let rows = input.events.attempts.rows.values@;
            let name = "tsls_attempts_total"@;
            let of = render::START_KINDS@[kind]@;
            &&& 0 <= r < rows.len() && rows[r].first@ == of ==> shown_in(
                items,
                name,
                seq![("start_kind"@, of), ("status"@, rows[r].second@)],
                Value::Count(rows[r].n),
            )
            &&& (forall|i: int| 0 <= i < rows.len() ==> (#[trigger] rows[i]).first@ != of)
                ==> shown_in(
                items,
                name,
                seq![("start_kind"@, of), ("status"@, "succeeded"@)],
                Value::Count(0),
            )
        }),
{
    let part = render::attempts(&input.events);
    series::lemma_attempts(&input.events);
    let t = &input.events.attempts;
    let rows = t.rows.values@;
    let of = render::START_KINDS@[kind]@;
    let f = |kind: &'static str|
        render::kind_items(42, "start_kind"@, "status"@, "succeeded"@, kind@, t);
    let mid = render::by_kind(42, "start_kind"@, "status"@, "succeeded"@, render::START_KINDS@, t);
    let o = render::refusals(&input.events.gate_refusals).len() as int;
    catalog::lemma_family_at(42);
    assert(catalog::FAMILIES@[42].0@ == "tsls_attempts_total"@);
    if 0 <= r < rows.len() && rows[r].first@ == of {
        let q = lemma_kind_row_at(42, "start_kind"@, "status"@, rows, r);
        let m = lemma_flat_at(render::START_KINDS@, f, kind, q);
        assert(part[o + m] == mid[m]);
        lemma_shown(items, part, 41, 44, at, o + m, "tsls_attempts_total"@);
    }
    if forall|i: int| 0 <= i < rows.len() ==> (#[trigger] rows[i]).first@ != of {
        lemma_no_kind_rows(42, "start_kind"@, "status"@, of, rows);
        let m = lemma_flat_at(render::START_KINDS@, f, kind, 0);
        assert(part[o + m] == mid[m]);
        lemma_shown(items, part, 41, 44, at, o + m, "tsls_attempts_total"@);
    }
}

/// The page shows the attempts of every known kind of start by kind and status,
/// and a zero for a kind of which there was none.
pub proof fn law_the_page_shows_attempts(input: &MetricsInput, kind: int, r: int)
    requires
        render::renderable(input),
        0 <= kind < render::START_KINDS@.len(),
    ensures
        ({
            let rows = input.events.attempts.rows.values@;
            let name = "tsls_attempts_total"@;
            let of = render::START_KINDS@[kind]@;
            &&& 0 <= r < rows.len() && rows[r].first@ == of ==> shows(
                input,
                name,
                seq![("start_kind"@, of), ("status"@, rows[r].second@)],
                Value::Count(rows[r].n),
            )
            &&& (forall|i: int| 0 <= i < rows.len() ==> (#[trigger] rows[i]).first@ != of)
                ==> shows(
                input,
                name,
                seq![("start_kind"@, of), ("status"@, "succeeded"@)],
                Value::Count(0),
            )
        }),
{
    let at = lemma_attempts_stands(input);
    lemma_attempt_shown(input, kind, r, render::samples_of(input), at);
}

#[verifier::spinoff_prover]
proof fn lemma_refusal_shown(input: &MetricsInput, r: int, items: Seq<ItemView>, at: int)
    requires
        render::renderable(input),
        stands_at(items, render::attempts(&input.events), 41, 44, at),
        order::in_order(items, 0, 90),
        order::in_order(render::attempts(&input.events), 41, 44),
    ensures
        ({
            let rows = input.events.gate_refusals.rows.values@;
            let name = "tsls_gate_refusals_total"@;
            &&& 0 <= r < rows.len() ==> shown_in(
                items,
                name,
                seq![("error_type"@, rows[r].first@)],
                Value::Count(rows[r].n),
            )
            &&& rows.len() == 0 ==> shown_in(
                items,
                name,
                seq![("error_type"@, "none"@)],
                Value::Count(0),
            )
        }),
{
    let part = render::attempts(&input.events);
    series::lemma_attempts(&input.events);
    let rows = input.events.gate_refusals.rows.values@;
    let first = render::refusals(&input.events.gate_refusals);
    catalog::lemma_family_at(41);
    assert(catalog::FAMILIES@[41].0@ == "tsls_gate_refusals_total"@);
    if 0 <= r < rows.len() {
        assert(part[r] == first[r]);
        lemma_shown(items, part, 41, 44, at, r, "tsls_gate_refusals_total"@);
    }
    if rows.len() == 0 {
        assert(part[0] == first[0]);
        lemma_shown(items, part, 41, 44, at, 0, "tsls_gate_refusals_total"@);
    }
}

/// The page shows what was refused by type of error, and a zero where nothing
/// was.
pub proof fn law_the_page_shows_refusals(input: &MetricsInput, r: int)
    requires
        render::renderable(input),
    ensures
        ({
            let rows = input.events.gate_refusals.rows.values@;
            let name = "tsls_gate_refusals_total"@;
            &&& 0 <= r < rows.len() ==> shows(
                input,
                name,
                seq![("error_type"@, rows[r].first@)],
                Value::Count(rows[r].n),
            )
            &&& rows.len() == 0 ==> shows(
                input,
                name,
                seq![("error_type"@, "none"@)],
                Value::Count(0),
            )
        }),
{
    let at = lemma_attempts_stands(input);
    lemma_refusal_shown(input, r, render::samples_of(input), at);
}

#[verifier::spinoff_prover]
proof fn lemma_operation_shown(input: &MetricsInput, i: int, items: Seq<ItemView>, at: int)
    requires
        render::renderable(input),
        input.dispatch is Some,
        stands_at(items, render::dispatch_of(input), 83, 89, at),
        order::in_order(items, 0, 90),
        order::in_order(render::dispatch_of(input), 83, 89),
        0 <= i < QUEUE_OPERATIONS@.len(),
    ensures
        ({
            let t = input.dispatch->0.queue_operations.rows@;
            let of = QUEUE_OPERATIONS@[i]@;
            let name = "tsls_async_dispatch_queue_operations_total"@;
            &&& shown_in(
                items,
                name,
                seq![("operation"@, of), ("result"@, "ok"@)],
                Value::Count(
                    if t.contains_key(seq![of, "ok"@]) {
                        t[seq![of, "ok"@]].n
                    } else {
                        0
                    },
                ),
            )
            &&& shown_in(
                items,
                name,
                seq![("operation"@, of), ("result"@, "error"@)],
                Value::Count(
                    if t.contains_key(seq![of, "error"@]) {
                        t[seq![of, "error"@]].n
                    } else {
                        0
                    },
                ),
            )
        }),
{
    let d = input.dispatch->0;
    let part = render::dispatch_of(input);
    series::lemma_dispatch(&d);
    let f = |name: &'static str| render::operation(&d.queue_operations, name@);
    let mid = render::operations(&d.queue_operations);
    let o = crate::metrics::dispatch::DELIVERY_OUTCOMES@.len() as int;
    catalog::lemma_family_at(84);
    let name = "tsls_async_dispatch_queue_operations_total"@;
    assert(catalog::FAMILIES@[84].0@ == name);
    let k0 = lemma_flat_at(QUEUE_OPERATIONS@, f, i, 0);
    let k1 = lemma_flat_at(QUEUE_OPERATIONS@, f, i, 1);
    assert(part[o + k0] == mid[k0]);
    assert(part[o + k1] == mid[k1]);
    lemma_shown(items, part, 83, 89, at, o + k0, name);
    lemma_shown(items, part, 83, 89, at, o + k1, name);
}

/// Where invocations are dispatched asynchronously, the page shows every queue
/// operation by result.
pub proof fn law_the_page_shows_queue_operations(input: &MetricsInput, i: int)
    requires
        render::renderable(input),
        input.dispatch is Some,
        0 <= i < QUEUE_OPERATIONS@.len(),
    ensures
        ({
            let t = input.dispatch->0.queue_operations.rows@;
            let of = QUEUE_OPERATIONS@[i]@;
            let name = "tsls_async_dispatch_queue_operations_total"@;
            &&& shows(
                input,
                name,
                seq![("operation"@, of), ("result"@, "ok"@)],
                Value::Count(
                    if t.contains_key(seq![of, "ok"@]) {
                        t[seq![of, "ok"@]].n
                    } else {
                        0
                    },
                ),
            )
            &&& shows(
                input,
                name,
                seq![("operation"@, of), ("result"@, "error"@)],
                Value::Count(
                    if t.contains_key(seq![of, "error"@]) {
                        t[seq![of, "error"@]].n
                    } else {
                        0
                    },
                ),
            )
        }),
{
    let at = lemma_dispatch_stands(input);
    lemma_operation_shown(input, i, render::samples_of(input), at);
}

/// The page shows the value under the name with the suffix and the labels, and
/// shows nothing else under them.
pub open spec fn shows_as(
    input: &MetricsInput,
    name: Seq<char>,
    suffix: Suffix,
    labels: LabelsView,
    value: Value,
) -> bool {
    shown_as(render::samples_of(input), name, suffix, labels, value)
}

/// The samples show the value under the name with the suffix and the labels, and
/// nothing else under them.
pub open spec fn shown_as(
    items: Seq<ItemView>,
    name: Seq<char>,
    suffix: Suffix,
    labels: LabelsView,
    value: Value,
) -> bool {
    exists|i: int| #[trigger] shown_at(items, name, suffix, labels, value, i)
}

proof fn lemma_histogram_at(
    phases: Table<Histogram>,
    phase: Seq<char>,
    n: nat,
    r: int,
    q: int,
) -> (at: int)
    requires
        0 <= r < n,
        phases.order()[r][0] == phase,
        0 <= q < render::histogram(phase, phases.order()[r][1], phases.values@[r]@).len(),
    ensures
        0 <= at < render::phase_histograms(phases, phase, n).len(),
        render::phase_histograms(phases, phase, n)[at] == render::histogram(
            phase,
            phases.order()[r][1],
            phases.values@[r]@,
        )[q],
    decreases n,
{
    let rest = render::phase_histograms(phases, phase, (n - 1) as nat);
    if r == n - 1 {
        rest.len() + q
    } else {
        let at = lemma_histogram_at(phases, phase, (n - 1) as nat, r, q);
        at
    }
}

#[verifier::spinoff_prover]
proof fn lemma_phase_item_shown(
    input: &MetricsInput,
    p: int,
    r: int,
    q: int,
    items: Seq<ItemView>,
    at: int,
)
    requires
        render::renderable(input),
        stands_at(items, render::attempts(&input.events), 41, 44, at),
        order::in_order(items, 0, 90),
        order::in_order(render::attempts(&input.events), 41, 44),
        0 <= p < PHASES@.len(),
        0 <= r < input.events.phases.values@.len(),
        input.events.phases.order()[r][0] == PHASES@[p]@,
        0 <= q < 17,
    ensures
        ({
            let phases = input.events.phases;
            let item = render::histogram(PHASES@[p]@, phases.order()[r][1], phases.values@[r]@)[q];
            shown_as(
                items,
                "tsls_attempt_phase_seconds"@,
                item.line->0.suffix,
                item.line->0.labels,
                item.line->0.value,
            )
        }),
{
    let part = render::attempts(&input.events);
    series::lemma_attempts(&input.events);
    let phases = input.events.phases;
    let n = phases.values@.len();
    let phase = PHASES@[p]@;
    let f = |phase: &'static str| render::phase_histograms(phases, phase@, n);
    let all = render::histogram(phase, phases.order()[r][1], phases.values@[r]@);
    let a = render::refusals(&input.events.gate_refusals);
    let b = render::by_kind(
        42,
        "start_kind"@,
        "status"@,
        "succeeded"@,
        render::START_KINDS@,
        &input.events.attempts,
    );
    let mid = render::phases_of(phases);
    assert(all.len() == 17);
    let k = lemma_histogram_at(phases, phase, n, r, q);
    let m = lemma_flat_at(PHASES@, f, p, k);
    assert(mid[m + 1] == render::flat(PHASES@, f)[m]);
    let o = (a.len() + b.len()) as int;
    assert(part[o + m + 1] == mid[m + 1]);
    catalog::lemma_family_at(43);
    assert(catalog::FAMILIES@[43].0@ == "tsls_attempt_phase_seconds"@);
    lemma_shown(items, part, 41, 44, at, o + m + 1, "tsls_attempt_phase_seconds"@);
}

/// Of every phase of an attempt and every kind of start, the page shows how many
/// durations were within each bound, how many there were, and what they add up
/// to.
pub proof fn law_the_page_shows_phases(input: &MetricsInput, p: int, r: int, b: int)
    requires
        render::renderable(input),
        0 <= p < PHASES@.len(),
        0 <= r < input.events.phases.values@.len(),
        input.events.phases.order()[r][0] == PHASES@[p]@,
        0 <= b < 14,
    ensures
        ({
            let h = input.events.phases.values@[r]@;
            let name = "tsls_attempt_phase_seconds"@;
            let kind = input.events.phases.order()[r][1];
            let labels = seq![("phase"@, PHASES@[p]@), ("start_kind"@, kind)];
            let within = crate::metrics::total(h.buckets, (b + 1) as nat);
            &&& shows_as(
                input,
                name,
                Suffix::Bucket,
                labels.push(("le"@, render::BOUND_TEXTS@[b]@)),
                Value::Count(
                    if within <= u64::MAX {
                        within as u64
                    } else {
                        u64::MAX
                    },
                ),
            )
            &&& shows_as(
                input,
                name,
                Suffix::Bucket,
                labels.push(("le"@, "+Inf"@)),
                Value::Count(h.count),
            )
            &&& shows_as(input, name, Suffix::Sum, labels, Value::Millis(h.sum_ms as i128))
            &&& shows_as(input, name, Suffix::Count, labels, Value::Count(h.count))
        }),
{
    let at = lemma_attempts_stands(input);
    let items = render::samples_of(input);
    lemma_phase_item_shown(input, p, r, b, items, at);
    lemma_phase_item_shown(input, p, r, 14, items, at);
    lemma_phase_item_shown(input, p, r, 15, items, at);
    lemma_phase_item_shown(input, p, r, 16, items, at);
    let kind = input.events.phases.order()[r][1];
    let labels = seq![("phase"@, PHASES@[p]@), ("start_kind"@, kind)];
    assert(seq![
        ("phase"@, PHASES@[p]@),
        ("start_kind"@, kind),
        ("le"@, render::BOUND_TEXTS@[b]@),
    ] =~= labels.push(("le"@, render::BOUND_TEXTS@[b]@)));
    assert(seq![("phase"@, PHASES@[p]@), ("start_kind"@, kind), ("le"@, "+Inf"@)]
        =~= labels.push(("le"@, "+Inf"@)));
}

/// The bounds and the phases are shown by these names.
pub proof fn law_how_bounds_and_phases_are_named()
    ensures
        render::BOUND_TEXTS@[0]@ == "0.005"@,
        render::BOUND_TEXTS@[1]@ == "0.01"@,
        render::BOUND_TEXTS@[2]@ == "0.025"@,
        render::BOUND_TEXTS@[3]@ == "0.05"@,
        render::BOUND_TEXTS@[4]@ == "0.1"@,
        render::BOUND_TEXTS@[5]@ == "0.25"@,
        render::BOUND_TEXTS@[6]@ == "0.5"@,
        render::BOUND_TEXTS@[7]@ == "1"@,
        render::BOUND_TEXTS@[8]@ == "2.5"@,
        render::BOUND_TEXTS@[9]@ == "5"@,
        render::BOUND_TEXTS@[10]@ == "10"@,
        render::BOUND_TEXTS@[11]@ == "30"@,
        render::BOUND_TEXTS@[12]@ == "60"@,
        render::BOUND_TEXTS@[13]@ == "300"@,
        PHASES@[0]@ == "queue_wait"@,
        PHASES@[1]@ == "boot"@,
        PHASES@[2]@ == "init"@,
        PHASES@[3]@ == "resume"@,
        PHASES@[4]@ == "handler"@,
        PHASES@[5]@ == "total"@,
{
}

/// The labels of an environment.
pub open spec fn labels_of(e: &EnvironmentUsage) -> LabelsView {
    seq![
        ("environment"@, e.environment@),
        ("tenant"@, e.tenant@),
        ("revision"@, e.revision@),
        ("state"@, e.state@),
        ("scope"@, e.stats->0.scope@),
    ]
}

#[verifier::spinoff_prover]
proof fn lemma_environment_shown(input: &MetricsInput, m: int, items: Seq<ItemView>, at: int)
    requires
        series::environments_differ(input.environments@),
        stands_at(items, render::host(input), 45, 51, at),
        order::in_order(items, 0, 90),
        order::in_order(render::host(input), 45, 51),
        0 <= m < render::shown(input.environments@, input.limits.environments).len(),
        render::shown(input.environments@, input.limits.environments)[m].stats is Some,
    ensures
        ({
            let e = render::shown(input.environments@, input.limits.environments)[m];
            let s = e.stats->0;
            &&& s.cpu_seconds is Some ==> shown_in(
                items,
                "tsls_environment_cpu_seconds_total"@,
                labels_of(e),
                Value::Real(s.cpu_seconds->0),
            )
            &&& s.memory_current_bytes is Some ==> shown_in(
                items,
                "tsls_environment_memory_bytes"@,
                labels_of(e),
                Value::Count(s.memory_current_bytes->0),
            )
            &&& s.memory_peak_bytes is Some ==> shown_in(
                items,
                "tsls_environment_memory_peak_bytes"@,
                labels_of(e),
                Value::Count(s.memory_peak_bytes->0),
            )
        }),
{
    let part = render::host(input);
    series::lemma_host(input);
    let list = render::shown(input.environments@, input.limits.environments);
    let s = list[m].stats->0;
    let f = |e: &EnvironmentUsage| render::stat_item(45, render::StatField::Cpu, e);
    let g = |e: &EnvironmentUsage| render::stat_item(46, render::StatField::Memory, e);
    let h = |e: &EnvironmentUsage| render::stat_item(47, render::StatField::MemoryPeak, e);
    let a = render::flat(list, f);
    let b = render::flat(list, g);
    let c = render::flat(list, h);
    assert(a == render::stat_family(45, render::StatField::Cpu, list));
    assert(b == render::stat_family(46, render::StatField::Memory, list));
    assert(c == render::stat_family(47, render::StatField::MemoryPeak, list));
    catalog::lemma_family_at(45);
    assert(catalog::FAMILIES@[45].0@ == "tsls_environment_cpu_seconds_total"@);
    catalog::lemma_family_at(46);
    assert(catalog::FAMILIES@[46].0@ == "tsls_environment_memory_bytes"@);
    catalog::lemma_family_at(47);
    assert(catalog::FAMILIES@[47].0@ == "tsls_environment_memory_peak_bytes"@);
    if s.cpu_seconds is Some {
        let k = lemma_flat_at(list, f, m, 0);
        assert(part[k] == a[k]);
        lemma_shown(items, part, 45, 51, at, k, "tsls_environment_cpu_seconds_total"@);
    }
    if s.memory_current_bytes is Some {
        let k = lemma_flat_at(list, g, m, 0);
        assert(part[a.len() + k] == b[k]);
        lemma_shown(items, part, 45, 51, at, a.len() + k, "tsls_environment_memory_bytes"@);
    }
    if s.memory_peak_bytes is Some {
        let k = lemma_flat_at(list, h, m, 0);
        let o = (a.len() + b.len()) as int;
        assert(part[o + k] == c[k]);
        lemma_shown(items, part, 45, 51, at, o + k, "tsls_environment_memory_peak_bytes"@);
    }
}

/// Of every environment that has series, the page shows what the host measured,
/// each measure under its own name and with the labels of the environment.
pub proof fn law_the_page_shows_every_environment(input: &MetricsInput, m: int)
    requires
        render::renderable(input),
        series::environments_differ(input.environments@),
        0 <= m < render::shown(input.environments@, input.limits.environments).len(),
        render::shown(input.environments@, input.limits.environments)[m].stats is Some,
    ensures
        ({
            let e = render::shown(input.environments@, input.limits.environments)[m];
            let s = e.stats->0;
            &&& s.cpu_seconds is Some ==> shows(
                input,
                "tsls_environment_cpu_seconds_total"@,
                labels_of(e),
                Value::Real(s.cpu_seconds->0),
            )
            &&& s.memory_current_bytes is Some ==> shows(
                input,
                "tsls_environment_memory_bytes"@,
                labels_of(e),
                Value::Count(s.memory_current_bytes->0),
            )
            &&& s.memory_peak_bytes is Some ==> shows(
                input,
                "tsls_environment_memory_peak_bytes"@,
                labels_of(e),
                Value::Count(s.memory_peak_bytes->0),
            )
        }),
{
    let at = lemma_host_stands(input);
    lemma_environment_shown(input, m, render::samples_of(input), at);
}

/// Busy environments come first, idle ones next and all others last, each by
/// id; as many have series as the limit allows.
pub proof fn law_which_environments_have_series(
    list: Seq<EnvironmentUsage>,
    limit: usize,
    a: &EnvironmentUsage,
    b: &EnvironmentUsage,
)
    ensures
        a.state@ == "busy"@ && b.state@ != "busy"@ ==> render::shown_before()(a, b),
        a.state@ == "idle"@ && b.state@ != "busy"@ && b.state@ != "idle"@
            ==> render::shown_before()(a, b),
        a.state@ == "idle"@ && b.state@ == "busy"@ ==> !render::shown_before()(a, b),
        a.state@ == b.state@ ==> (render::shown_before()(a, b) <==> text::text_lt(
            a.environment@,
            b.environment@,
        )),
        list.len() <= limit ==> render::shown(list, limit) == sorting::stable(
            caps::refs(list),
            render::shown_before(),
        ),
        list.len() > limit ==> render::shown(list, limit) == sorting::stable(
            caps::refs(list),
            render::shown_before(),
        ).take(limit as int),
{
    reveal_strlit("busy");
    reveal_strlit("idle");
    assert("busy"@[0] != "idle"@[0]);
    let sorted = sorting::stable(caps::refs(list), render::shown_before());
    sorting::lemma_stable_multiset(caps::refs(list), render::shown_before());
    sorted.to_multiset_ensures();
    caps::refs(list).to_multiset_ensures();
    assert(sorted.len() == list.len());
    assert(sorting::stable(caps::refs(list), render::shown_before()).take(list.len() as int)
        =~= sorting::stable(caps::refs(list), render::shown_before()));
}

} // verus!
