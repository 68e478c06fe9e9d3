//! Cardinality caps: label sets beyond a cap are folded into one series.

use vstd::prelude::*;

use crate::metrics::input::{EnvironmentCounts, RevisionMetrics, TenantMetrics};
use crate::metrics::sorting;
use crate::text;

verus! {

/// Label value of the series that aggregates what a cap folded away.
pub const OTHER: &'static str = "_other";

/// The sign bit of a floating-point number.
pub const SIGN: u64 = 0x8000_0000_0000_0000;

/// The bits of positive infinity; without their sign, only those of no number
/// are above.
pub const INFINITY: u64 = 0x7ff0_0000_0000_0000;

/// References to the elements of a list.
pub open spec fn refs<'a, T>(list: Seq<T>) -> Seq<&'a T> {
    Seq::new(list.len(), |i: int| &list[i])
}

pub(crate) fn references<T>(list: &Vec<T>) -> (r: Vec<&T>)
    ensures
        r@ == refs(list@),
{
    let mut out: Vec<&T> = Vec::new();
    let mut i: usize = 0;
    while i < list.len()
        invariant
            i <= list@.len(),
            out@ == refs(list@).take(i as int),
        decreases list@.len() - i,
    {
        out.push(&list[i]);
        proof {
            assert(refs(list@).take(i as int + 1) =~= refs(list@).take(i as int).push(
                refs(list@)[i as int],
            ));
        }
        i += 1;
    }
    proof {
        assert(refs(list@).take(i as int) =~= refs(list@));
    }
    out
}

/// Environments of a revision in all.
pub open spec fn provisioned(c: EnvironmentCounts) -> int {
    c.promised + c.starting + c.busy + c.parking + c.idle + c.draining
}

/// How active a revision is.
pub open spec fn weight(r: &RevisionMetrics) -> int {
    provisioned(r.environments) + r.queued
}

fn weight_of(r: &RevisionMetrics) -> (w: u128)
    ensures
        w == weight(r),
{
    let c = &r.environments;
    c.promised as u128 + c.starting as u128 + c.busy as u128 + c.parking as u128 + c.idle as u128
        + c.draining as u128 + r.queued as u128
}

/// The most active revision first; equals by their ids.
pub open spec fn heavier<'a>() -> spec_fn(&'a RevisionMetrics, &'a RevisionMetrics) -> bool {
    |a: &'a RevisionMetrics, b: &'a RevisionMetrics|
        weight(a) > weight(b) || (weight(a) == weight(b) && text::text_lt(
            a.revision@,
            b.revision@,
        ))
}

/// Revisions by their ids.
pub open spec fn by_revision<'a>() -> spec_fn(&'a RevisionMetrics, &'a RevisionMetrics) -> bool {
    |a: &'a RevisionMetrics, b: &'a RevisionMetrics| text::text_lt(a.revision@, b.revision@)
}

/// What a breaker's state counts as: the worst of several wins.
pub open spec fn spec_breaker_value(name: Seq<char>) -> u64 {
    if name == "open"@ {
        2
    } else if name == "half_open"@ {
        1
    } else {
        0
    }
}

/// What a breaker's state counts as.
pub fn breaker_value(name: &str) -> (r: u64)
    ensures
        r == spec_breaker_value(name@),
{
    if text::same_text(name, "open") {
        2
    } else if text::same_text(name, "half_open") {
        1
    } else {
        0
    }
}

/// A revision series after the cap.
#[derive(Debug, PartialEq, Eq)]
pub struct RevisionRow {
    pub tenant: String,
    pub revision: String,
    pub environments: EnvironmentCounts,
    pub desired: u32,
    pub max_environments: u32,
    pub min_ready: u32,
    pub queued: u32,
    pub breaker: &'static str,
}

/// Content of a revision series.
pub ghost struct RevisionRowView {
    pub tenant: Seq<char>,
    pub revision: Seq<char>,
    pub environments: EnvironmentCounts,
    pub desired: u32,
    pub max_environments: u32,
    pub min_ready: u32,
    pub queued: u32,
    pub breaker: Seq<char>,
}

impl View for RevisionRow {
    type V = RevisionRowView;

    open spec fn view(&self) -> RevisionRowView {
        RevisionRowView {
            tenant: self.tenant@,
            revision: self.revision@,
            environments: self.environments,
            desired: self.desired,
            max_environments: self.max_environments,
            min_ready: self.min_ready,
            queued: self.queued,
            breaker: self.breaker@,
        }
    }
}

/// The series of a revision.
pub open spec fn revision_row(r: &RevisionMetrics) -> RevisionRowView {
    RevisionRowView {
        tenant: r.tenant@,
        revision: r.revision@,
        environments: r.environments,
        desired: r.desired,
        max_environments: r.max_environments,
        min_ready: r.min_ready,
        queued: r.queued,
        breaker: r.breaker@,
    }
}

/// A series that folds nothing yet.
pub open spec fn no_revisions() -> RevisionRowView {
    RevisionRowView {
        tenant: OTHER@,
        revision: OTHER@,
        environments: EnvironmentCounts {
            starting: 0,
            busy: 0,
            promised: 0,
            parking: 0,
            idle: 0,
            draining: 0,
        },
        desired: 0,
        max_environments: 0,
        min_ready: 0,
        queued: 0,
        breaker: "closed"@,
    }
}

/// The series that folds a list of revisions: sums, and the worst breaker.
pub open spec fn folded_revisions(rest: Seq<&RevisionMetrics>) -> RevisionRowView
    decreases rest.len(),
{
    if rest.len() == 0 {
        no_revisions()
    } else {
        let o = folded_revisions(rest.drop_last());
        let r = rest.last();
        RevisionRowView {
            environments: EnvironmentCounts {
                starting: (o.environments.starting + r.environments.starting) as u64,
                busy: (o.environments.busy + r.environments.busy) as u64,
                promised: (o.environments.promised + r.environments.promised) as u64,
                parking: (o.environments.parking + r.environments.parking) as u64,
                idle: (o.environments.idle + r.environments.idle) as u64,
                draining: (o.environments.draining + r.environments.draining) as u64,
            },
            desired: (o.desired + r.desired) as u32,
            max_environments: (o.max_environments + r.max_environments) as u32,
            min_ready: (o.min_ready + r.min_ready) as u32,
            queued: (o.queued + r.queued) as u32,
            breaker: if spec_breaker_value(r.breaker@) > spec_breaker_value(o.breaker) {
                r.breaker@
            } else {
                o.breaker
            },
            ..o
        }
    }
}

/// One number of a revision.
pub open spec fn revision_number<'a>(n: int) -> spec_fn(&'a RevisionMetrics) -> nat {
    |r: &'a RevisionMetrics|
        if n == 0 {
            r.environments.starting as nat
        } else if n == 1 {
            r.environments.busy as nat
        } else if n == 2 {
            r.environments.promised as nat
        } else if n == 3 {
            r.environments.parking as nat
        } else if n == 4 {
            r.environments.idle as nat
        } else if n == 5 {
            r.environments.draining as nat
        } else if n == 6 {
            r.desired as nat
        } else if n == 7 {
            r.max_environments as nat
        } else if n == 8 {
            r.min_ready as nat
        } else {
            r.queued as nat
        }
}

/// One number of a revision series.
pub open spec fn row_number(n: int) -> spec_fn(RevisionRowView) -> nat {
    |r: RevisionRowView|
        if n == 0 {
            r.environments.starting as nat
        } else if n == 1 {
            r.environments.busy as nat
        } else if n == 2 {
            r.environments.promised as nat
        } else if n == 3 {
            r.environments.parking as nat
        } else if n == 4 {
            r.environments.idle as nat
        } else if n == 5 {
            r.environments.draining as nat
        } else if n == 6 {
            r.desired as nat
        } else if n == 7 {
            r.max_environments as nat
        } else if n == 8 {
            r.min_ready as nat
        } else {
            r.queued as nat
        }
}

/// Largest sum of a number that a series can hold.
pub open spec fn revision_bound(n: int) -> nat {
    if n <= 5 {
        u64::MAX as nat
    } else {
        u32::MAX as nat
    }
}

/// Every number of the revisions can be summed up.
pub open spec fn revisions_fit(list: Seq<&RevisionMetrics>) -> bool {
    forall|n: int|
        0 <= n <= 9 ==> #[trigger] sorting::total(list, revision_number(n)) <= revision_bound(n)
}

/// The revisions in the order in which they are kept.
pub open spec fn ranked_revisions<'a>(list: Seq<RevisionMetrics>) -> Seq<&'a RevisionMetrics> {
    sorting::stable(refs(list), heavier())
}

/// How many of `len` are kept.
pub open spec fn kept(len: nat, limit: usize) -> int {
    if len <= limit {
        len as int
    } else {
        limit as int
    }
}

/// The series of the revisions: the `limit` most active ones by their ids, and
/// one that folds the rest where there is a rest.
pub open spec fn revision_rows(list: Seq<RevisionMetrics>, limit: usize) -> Seq<RevisionRowView> {
    let ranked = ranked_revisions(list);
    let n = kept(list.len(), limit);
    let rows = rows_of(sorting::stable(ranked.take(n), by_revision()));
    if list.len() <= limit {
        rows
    } else {
        rows.push(folded_revisions(ranked.skip(n)))
    }
}

/// The series of a list of revisions.
pub open spec fn rows_of(list: Seq<&RevisionMetrics>) -> Seq<RevisionRowView> {
    Seq::new(list.len(), |i: int| revision_row(list[i]))
}

/// Content of a list of series.
pub open spec fn row_views(rows: Seq<RevisionRow>) -> Seq<RevisionRowView> {
    Seq::new(rows.len(), |i: int| rows[i]@)
}

fn rows_for(list: &Vec<&RevisionMetrics>) -> (r: Vec<RevisionRow>)
    ensures
        row_views(r@) == rows_of(list@),
{
    let mut out: Vec<RevisionRow> = Vec::new();
    let mut i: usize = 0;
    while i < list.len()
        invariant
            i <= list@.len(),
            out@.len() == i,
            forall|j: int| 0 <= j < i ==> (#[trigger] out@[j])@ == revision_row(list@[j]),
        decreases list@.len() - i,
    {
        let r = list[i];
        out.push(
            RevisionRow {
                tenant: r.tenant.clone(),
                revision: r.revision.clone(),
                environments: r.environments,
                desired: r.desired,
                max_environments: r.max_environments,
                min_ready: r.min_ready,
                queued: r.queued,
                breaker: r.breaker,
            },
        );
        i += 1;
    }
    proof {
        assert(row_views(out@) =~= rows_of(list@));
    }
    out
}

proof fn lemma_folded_revisions(rest: Seq<&RevisionMetrics>)
    requires
        revisions_fit(rest),
    ensures
        forall|n: int|
            0 <= n <= 9 ==> #[trigger] row_number(n)(folded_revisions(rest)) == sorting::total(
                rest,
                revision_number(n),
            ),
    decreases rest.len(),
{
    if rest.len() > 0 {
        lemma_revisions_fit_prefix(rest);
        lemma_folded_revisions(rest.drop_last());
        assert forall|n: int| 0 <= n <= 9 implies #[trigger] row_number(n)(folded_revisions(rest))
            == sorting::total(rest, revision_number(n)) by {
            assert(sorting::total(rest, revision_number(n)) <= revision_bound(n));
            assert(row_number(n)(folded_revisions(rest.drop_last())) == sorting::total(
                rest.drop_last(),
                revision_number(n),
            ));
        }
    }
}

proof fn lemma_revisions_fit_prefix(rest: Seq<&RevisionMetrics>)
    requires
        revisions_fit(rest),
        rest.len() > 0,
    ensures
        revisions_fit(rest.drop_last()),
{
    assert forall|n: int| 0 <= n <= 9 implies #[trigger] sorting::total(
        rest.drop_last(),
        revision_number(n),
    ) <= revision_bound(n) by {
        assert(sorting::total(rest, revision_number(n)) <= revision_bound(n));
    }
}

fn fold_revisions(rest: &Vec<&RevisionMetrics>) -> (r: RevisionRow)
    requires
        revisions_fit(rest@),
    ensures
        r@ == folded_revisions(rest@),
{
    let mut o = RevisionRow {
        tenant: text::owned(OTHER),
        revision: text::owned(OTHER),
        environments: EnvironmentCounts {
            starting: 0,
            busy: 0,
            promised: 0,
            parking: 0,
            idle: 0,
            draining: 0,
        },
        desired: 0,
        max_environments: 0,
        min_ready: 0,
        queued: 0,
        breaker: "closed",
    };
    let mut i: usize = 0;
    while i < rest.len()
        invariant
            revisions_fit(rest@),
            i <= rest@.len(),
            o@ == folded_revisions(rest@.take(i as int)),
        decreases rest@.len() - i,
    {
        let r = rest[i];
        proof {
            let next = rest@.take(i as int + 1);
            assert(next.drop_last() =~= rest@.take(i as int));
            assert forall|n: int| 0 <= n <= 9 implies #[trigger] sorting::total(
                next,
                revision_number(n),
            ) <= revision_bound(n) by {
                assert(rest@ =~= next + rest@.skip(i as int + 1));
                sorting::lemma_total_concat(next, rest@.skip(i as int + 1), revision_number(n));
                assert(sorting::total(rest@, revision_number(n)) <= revision_bound(n));
            }
            lemma_revisions_fit_prefix(next);
            lemma_folded_revisions(rest@.take(i as int));
            lemma_step_fits(next, o@);
        }
        o.environments = EnvironmentCounts {
            starting: o.environments.starting + r.environments.starting,
            busy: o.environments.busy + r.environments.busy,
            promised: o.environments.promised + r.environments.promised,
            parking: o.environments.parking + r.environments.parking,
            idle: o.environments.idle + r.environments.idle,
            draining: o.environments.draining + r.environments.draining,
        };
        o.desired = o.desired + r.desired;
        o.max_environments = o.max_environments + r.max_environments;
        o.min_ready = o.min_ready + r.min_ready;
        o.queued = o.queued + r.queued;
        if breaker_value(r.breaker) > breaker_value(o.breaker) {
            o.breaker = r.breaker;
        }
        i += 1;
    }
    proof {
        assert(rest@.take(i as int) =~= rest@);
    }
    o
}

proof fn lemma_step_fits(next: Seq<&RevisionMetrics>, o: RevisionRowView)
    requires
        next.len() > 0,
        revisions_fit(next),
        o == folded_revisions(next.drop_last()),
        forall|n: int|
            0 <= n <= 9 ==> #[trigger] row_number(n)(o) == sorting::total(
                next.drop_last(),
                revision_number(n),
            ),
    ensures
        o.environments.starting + next.last().environments.starting <= u64::MAX,
        o.environments.busy + next.last().environments.busy <= u64::MAX,
        o.environments.promised + next.last().environments.promised <= u64::MAX,
        o.environments.parking + next.last().environments.parking <= u64::MAX,
        o.environments.idle + next.last().environments.idle <= u64::MAX,
        o.environments.draining + next.last().environments.draining <= u64::MAX,
        o.desired + next.last().desired <= u32::MAX,
        o.max_environments + next.last().max_environments <= u32::MAX,
        o.min_ready + next.last().min_ready <= u32::MAX,
        o.queued + next.last().queued <= u32::MAX,
{
    lemma_step_number(next, o, 0);
    lemma_step_number(next, o, 1);
    lemma_step_number(next, o, 2);
    lemma_step_number(next, o, 3);
    lemma_step_number(next, o, 4);
    lemma_step_number(next, o, 5);
    lemma_step_number(next, o, 6);
    lemma_step_number(next, o, 7);
    lemma_step_number(next, o, 8);
    lemma_step_number(next, o, 9);
}

proof fn lemma_step_number(next: Seq<&RevisionMetrics>, o: RevisionRowView, n: int)
    requires
        0 <= n <= 9,
        next.len() > 0,
        revisions_fit(next),
        row_number(n)(o) == sorting::total(next.drop_last(), revision_number(n)),
    ensures
        row_number(n)(o) + revision_number(n)(next.last()) <= revision_bound(n),
{
    assert(sorting::total(next, revision_number(n)) <= revision_bound(n));
}

fn rank_revisions(revisions: &Vec<RevisionMetrics>) -> (r: Vec<&RevisionMetrics>)
    ensures
        r@ == ranked_revisions(revisions@),
        r@.len() == revisions@.len(),
{
    let heavy = |a: &RevisionMetrics, b: &RevisionMetrics| -> (c: bool)
        ensures
            c == heavier()(a, b),
    {
        let x: u128 = weight_of(a);
        let y: u128 = weight_of(b);
        x > y || (x == y && text::text_before(a.revision.as_str(), b.revision.as_str()))
    };
    let all = references(revisions);
    proof {
        sorting::lemma_stable_total(refs(revisions@), heavier(), revision_number(0));
    }
    sorting::sort(&all, heavy, Ghost(heavier()))
}

fn number_of_revision(r: &RevisionMetrics, n: u8) -> (v: u64)
    ensures
        v == revision_number(n as int)(r),
{
    match n {
        0 => r.environments.starting,
        1 => r.environments.busy,
        2 => r.environments.promised,
        3 => r.environments.parking,
        4 => r.environments.idle,
        5 => r.environments.draining,
        6 => r.desired as u64,
        7 => r.max_environments as u64,
        8 => r.min_ready as u64,
        _ => r.queued as u64,
    }
}

fn revision_total_fits(list: &Vec<&RevisionMetrics>, n: u8, bound: u64) -> (r: bool)
    ensures
        r == (sorting::total(list@, revision_number(n as int)) <= bound),
{
    let ghost f = revision_number(n as int);
    let mut sum: u64 = 0;
    let mut i: usize = 0;
    while i < list.len()
        invariant
            f == revision_number(n as int),
            i <= list@.len(),
            sum <= bound,
            sum == sorting::total(list@.take(i as int), f),
        decreases list@.len() - i,
    {
        let v: u64 = number_of_revision(list[i], n);
        proof {
            let next = list@.take(i + 1);
            assert(next.drop_last() =~= list@.take(i as int));
            assert(list@ =~= next + list@.skip(i + 1));
            sorting::lemma_total_concat(next, list@.skip(i + 1), f);
        }
        if v > bound - sum {
            return false;
        }
        sum = sum + v;
        i += 1;
    }
    proof {
        assert(list@.take(i as int) =~= list@);
    }
    true
}

/// Whether the numbers of the revisions that a cap of `limit` folds can be
/// summed up.
pub fn can_fold_revisions(revisions: &Vec<RevisionMetrics>, limit: usize) -> (r: bool)
    ensures
        r == revisions_fit(ranked_revisions(revisions@).skip(kept(revisions@.len(), limit))),
{
    let mut ranked = rank_revisions(revisions);
    let ghost list = ranked@;
    let k: usize = if ranked.len() <= limit {
        ranked.len()
    } else {
        limit
    };
    let rest = ranked.split_off(k);
    assert(rest@ =~= list.skip(k as int));
    let mut n: u8 = 0;
    while n < 10
        invariant
            n <= 10,
            rest@ == ranked_revisions(revisions@).skip(kept(revisions@.len(), limit)),
            forall|m: int|
                0 <= m < n ==> #[trigger] sorting::total(rest@, revision_number(m))
                    <= revision_bound(m),
        decreases 10 - n,
    {
        let bound: u64 = if n <= 5 {
            u64::MAX
        } else {
            u32::MAX as u64
        };
        if !revision_total_fits(&rest, n, bound) {
            assert(sorting::total(rest@, revision_number(n as int)) > revision_bound(n as int));
            return false;
        }
        n += 1;
    }
    true
}

/// Keep the `limit` most active revisions and fold the rest into one series.
/// Returns the series and how many revisions were folded.
pub fn cap_revisions(revisions: &Vec<RevisionMetrics>, limit: usize) -> (r: (Vec<RevisionRow>, usize))
    requires
        revisions_fit(ranked_revisions(revisions@).skip(kept(revisions@.len(), limit))),
    ensures
        row_views(r.0@) == revision_rows(revisions@, limit),
        r.1 == revisions@.len() - kept(revisions@.len(), limit),
{
    let by_id = |a: &RevisionMetrics, b: &RevisionMetrics| -> (c: bool)
        ensures
            c == by_revision()(a, b),
    {
        text::text_before(a.revision.as_str(), b.revision.as_str())
    };
    let mut ranked = rank_revisions(revisions);
    if ranked.len() <= limit {
        assert(ranked@.take(ranked@.len() as int) =~= ranked@);
        return (rows_for(&sorting::sort(&ranked, by_id, Ghost(by_revision()))), 0);
    }
    let ghost list = ranked@;
    let rest = ranked.split_off(limit);
    proof {
        assert(ranked@ =~= list.take(limit as int));
        assert(rest@ =~= list.skip(limit as int));
    }
    let mut rows = rows_for(&sorting::sort(&ranked, by_id, Ghost(by_revision())));
    let ghost named = row_views(rows@);
    let other = fold_revisions(&rest);
    rows.push(other);
    proof {
        assert(row_views(rows@) =~= named.push(other@));
    }
    (rows, rest.len())
}

/// Folding loses nothing: over all series, every number of the revisions adds
/// up to what it adds up to over the revisions.
pub proof fn law_folding_keeps_the_totals(list: Seq<RevisionMetrics>, limit: usize, n: int)
    requires
        revisions_fit(ranked_revisions(list).skip(kept(list.len(), limit))),
        0 <= n <= 9,
    ensures
        sorting::total(revision_rows(list, limit), row_number(n)) == sorting::total(
            refs(list),
            revision_number(n),
        ),
        revision_rows(list, limit).len() <= limit + 1,
{
    let ranked = ranked_revisions(list);
    let k = kept(list.len(), limit);
    sorting::lemma_stable_total(refs(list), heavier(), revision_number(n));
    let head = ranked.take(k);
    let rest = ranked.skip(k);
    assert(ranked =~= head + rest);
    sorting::lemma_total_concat(head, rest, revision_number(n));
    sorting::lemma_stable_total(head, by_revision(), revision_number(n));
    let named = sorting::stable(head, by_revision());
    lemma_rows_total(named, n);
    if list.len() > limit {
        lemma_folded_revisions(rest);
        let rows = rows_of(named);
        assert(rows.push(folded_revisions(rest)).drop_last() =~= rows);
        assert(row_number(n)(folded_revisions(rest)) == sorting::total(rest, revision_number(n)));
    } else {
        assert(rest =~= Seq::<&RevisionMetrics>::empty());
    }
}

/// What is kept comes before what is folded away: it is more active or, where
/// both are equally active, has the smaller id. All revisions are ranked, each
/// once.
pub proof fn law_the_most_active_revisions_are_kept(
    list: Seq<RevisionMetrics>,
    limit: usize,
    i: int,
    j: int,
)
    requires
        0 <= i < kept(list.len(), limit) <= j < list.len(),
    ensures
        ranked_revisions(list).len() == list.len(),
        ranked_revisions(list).to_multiset() == refs(list).to_multiset(),
        ({
            let a = ranked_revisions(list)[i];
            let b = ranked_revisions(list)[j];
            ||| weight(a) > weight(b)
            ||| weight(a) == weight(b) && text::text_lt(a.revision@, b.revision@)
            ||| weight(a) == weight(b) && a.revision@ == b.revision@
        }),
{
    assert(sorting::is_order(heavier())) by {
        assert forall|a: &RevisionMetrics, b: &RevisionMetrics| #[trigger]
            heavier()(a, b) implies !heavier()(b, a) by {
            text::lemma_text_order(a.revision@, b.revision@, a.revision@);
        }
        assert forall|a: &RevisionMetrics, b: &RevisionMetrics, c: &RevisionMetrics|
            !#[trigger] heavier()(b, a) && !#[trigger] heavier()(c, b) implies !heavier()(c, a) by {
            text::lemma_text_order(c.revision@, a.revision@, b.revision@);
            text::lemma_text_order(a.revision@, b.revision@, c.revision@);
            text::lemma_text_order(b.revision@, c.revision@, a.revision@);
        }
    }
    sorting::lemma_stable_ascends(refs(list), heavier());
    sorting::lemma_stable_total(refs(list), heavier(), revision_number(0));
    sorting::lemma_stable_multiset(refs(list), heavier());
    let ranked = ranked_revisions(list);
    assert(!heavier()(ranked[j], ranked[i]));
    text::lemma_text_order(ranked[i].revision@, ranked[j].revision@, ranked[i].revision@);
}

proof fn lemma_rows_total(list: Seq<&RevisionMetrics>, n: int)
    requires
        0 <= n <= 9,
    ensures
        sorting::total(rows_of(list), row_number(n)) == sorting::total(list, revision_number(n)),
    decreases list.len(),
{
    if list.len() > 0 {
        lemma_rows_total(list.drop_last(), n);
        assert(rows_of(list).drop_last() =~= rows_of(list.drop_last()));
        assert(row_number(n)(revision_row(list.last())) == revision_number(n)(list.last()));
    }
}

// ---------------------------------------------------------------------------
// tenants
// ---------------------------------------------------------------------------
/// The busiest tenant first (waiting, in flight, granted); equals by their
/// ids.
pub open spec fn busier<'a>() -> spec_fn(&'a TenantMetrics, &'a TenantMetrics) -> bool {
    |a: &'a TenantMetrics, b: &'a TenantMetrics|
        a.queued > b.queued || (a.queued == b.queued && (a.in_flight > b.in_flight || (a.in_flight
            == b.in_flight && (a.grants > b.grants || (a.grants == b.grants && text::text_lt(
            a.tenant@,
            b.tenant@,
        ))))))
}

/// Tenants by their ids.
pub open spec fn by_tenant<'a>() -> spec_fn(&'a TenantMetrics, &'a TenantMetrics) -> bool {
    |a: &'a TenantMetrics, b: &'a TenantMetrics| text::text_lt(a.tenant@, b.tenant@)
}

/// A tenant series after the cap.
#[derive(Debug, PartialEq, Eq)]
pub struct TenantRow {
    pub tenant: String,
    pub in_flight: u64,
    pub queued: u64,
    pub oldest_wait_seconds: Option<u64>,
    pub grants: u64,
    pub max_concurrency: Option<u64>,
}

/// Content of a tenant series.
pub ghost struct TenantRowView {
    pub tenant: Seq<char>,
    pub in_flight: u64,
    pub queued: u64,
    pub oldest_wait_seconds: Option<u64>,
    pub grants: u64,
    pub max_concurrency: Option<u64>,
}

impl View for TenantRow {
    type V = TenantRowView;

    open spec fn view(&self) -> TenantRowView {
        TenantRowView {
            tenant: self.tenant@,
            in_flight: self.in_flight,
            queued: self.queued,
            oldest_wait_seconds: self.oldest_wait_seconds,
            grants: self.grants,
            max_concurrency: self.max_concurrency,
        }
    }
}

/// The series of a tenant.
pub open spec fn tenant_row(t: &TenantMetrics) -> TenantRowView {
    TenantRowView {
        tenant: t.tenant@,
        in_flight: t.in_flight,
        queued: t.queued,
        oldest_wait_seconds: t.oldest_wait_seconds,
        grants: t.grants,
        max_concurrency: t.max_concurrency,
    }
}

/// The bits of a floating-point number without its sign.
pub open spec fn magnitude(bits: u64) -> u64 {
    if bits < SIGN {
        bits
    } else {
        (bits - SIGN) as u64
    }
}

/// The bits are those of no number.
pub open spec fn is_nan(bits: u64) -> bool {
    magnitude(bits) > INFINITY
}

/// Whether the number of `x` is less than that of `y`; a negative zero comes
/// before a positive one.
pub open spec fn shorter(x: u64, y: u64) -> bool {
    if x < SIGN {
        y < SIGN && x < y
    } else {
        y < SIGN || x > y
    }
}

/// The longer of two waits, which are given by their bits. One that is no
/// number gives way to the other.
pub open spec fn longer(a: Option<u64>, b: Option<u64>) -> Option<u64> {
    match (a, b) {
        (Some(x), Some(y)) => if is_nan(x) || (!is_nan(y) && shorter(x, y)) {
            Some(y)
        } else {
            Some(x)
        },
        (Some(x), None) => Some(x),
        (None, b) => b,
    }
}

fn bits_are_nan(bits: u64) -> (r: bool)
    ensures
        r == is_nan(bits),
{
    if bits < SIGN {
        bits > INFINITY
    } else {
        bits - SIGN > INFINITY
    }
}

fn longer_of(a: Option<u64>, b: Option<u64>) -> (r: Option<u64>)
    ensures
        r == longer(a, b),
{
    match (a, b) {
        (Some(x), Some(y)) => {
            let less = if x < SIGN {
                y < SIGN && x < y
            } else {
                y < SIGN || x > y
            };
            if bits_are_nan(x) || (!bits_are_nan(y) && less) {
                Some(y)
            } else {
                Some(x)
            }
        },
        (Some(x), None) => Some(x),
        (None, b) => b,
    }
}

/// The series that folds a list of tenants: sums, and the longest wait.
pub open spec fn folded_tenants(rest: Seq<&TenantMetrics>) -> TenantRowView
    decreases rest.len(),
{
    if rest.len() == 0 {
        TenantRowView {
            tenant: OTHER@,
            in_flight: 0,
            queued: 0,
            oldest_wait_seconds: None,
            grants: 0,
            max_concurrency: None,
        }
    } else {
        let o = folded_tenants(rest.drop_last());
        let t = rest.last();
        TenantRowView {
            in_flight: (o.in_flight + t.in_flight) as u64,
            queued: (o.queued + t.queued) as u64,
            grants: (o.grants + t.grants) as u64,
            oldest_wait_seconds: longer(o.oldest_wait_seconds, t.oldest_wait_seconds),
            ..o
        }
    }
}

/// One number of a tenant.
pub open spec fn tenant_number<'a>(n: int) -> spec_fn(&'a TenantMetrics) -> nat {
    |t: &'a TenantMetrics|
        if n == 0 {
            t.in_flight as nat
        } else if n == 1 {
            t.queued as nat
        } else {
            t.grants as nat
        }
}

/// One number of a tenant series.
pub open spec fn tenant_row_number(n: int) -> spec_fn(TenantRowView) -> nat {
    |t: TenantRowView|
        if n == 0 {
            t.in_flight as nat
        } else if n == 1 {
            t.queued as nat
        } else {
            t.grants as nat
        }
}

/// Every number of the tenants can be summed up.
pub open spec fn tenants_fit(list: Seq<&TenantMetrics>) -> bool {
    forall|n: int|
        0 <= n <= 2 ==> #[trigger] sorting::total(list, tenant_number(n)) <= u64::MAX
}

/// The tenants in the order in which they are kept.
pub open spec fn ranked_tenants<'a>(list: Seq<TenantMetrics>) -> Seq<&'a TenantMetrics> {
    sorting::stable(refs(list), busier())
}

/// The series of a list of tenants.
pub open spec fn tenant_rows_of(list: Seq<&TenantMetrics>) -> Seq<TenantRowView> {
    Seq::new(list.len(), |i: int| tenant_row(list[i]))
}

/// The series of the tenants: the `limit` busiest ones by their ids, and one
/// that folds the rest where there is a rest.
pub open spec fn tenant_rows(list: Seq<TenantMetrics>, limit: usize) -> Seq<TenantRowView> {
    let ranked = ranked_tenants(list);
    let n = kept(list.len(), limit);
    let rows = tenant_rows_of(sorting::stable(ranked.take(n), by_tenant()));
    if list.len() <= limit {
        rows
    } else {
        rows.push(folded_tenants(ranked.skip(n)))
    }
}

/// Content of a list of series.
pub open spec fn tenant_views(rows: Seq<TenantRow>) -> Seq<TenantRowView> {
    Seq::new(rows.len(), |i: int| rows[i]@)
}

fn tenant_rows_for(list: &Vec<&TenantMetrics>) -> (r: Vec<TenantRow>)
    ensures
        tenant_views(r@) == tenant_rows_of(list@),
{
    let mut out: Vec<TenantRow> = Vec::new();
    let mut i: usize = 0;
    while i < list.len()
        invariant
            i <= list@.len(),
            out@.len() == i,
            forall|j: int| 0 <= j < i ==> (#[trigger] out@[j])@ == tenant_row(list@[j]),
        decreases list@.len() - i,
    {
        let t = list[i];
        out.push(
            TenantRow {
                tenant: t.tenant.clone(),
                in_flight: t.in_flight,
                queued: t.queued,
                oldest_wait_seconds: t.oldest_wait_seconds,
                grants: t.grants,
                max_concurrency: t.max_concurrency,
            },
        );
        i += 1;
    }
    proof {
        assert(tenant_views(out@) =~= tenant_rows_of(list@));
    }
    out
}

proof fn lemma_folded_tenants(rest: Seq<&TenantMetrics>)
    requires
        tenants_fit(rest),
    ensures
        forall|n: int|
            0 <= n <= 2 ==> #[trigger] tenant_row_number(n)(folded_tenants(rest))
                == sorting::total(rest, tenant_number(n)),
    decreases rest.len(),
{
    if rest.len() > 0 {
        assert forall|n: int| 0 <= n <= 2 implies #[trigger] sorting::total(
            rest.drop_last(),
            tenant_number(n),
        ) <= u64::MAX by {
            assert(sorting::total(rest, tenant_number(n)) <= u64::MAX);
        }
        lemma_folded_tenants(rest.drop_last());
        assert forall|n: int| 0 <= n <= 2 implies #[trigger] tenant_row_number(n)(
            folded_tenants(rest),
        ) == sorting::total(rest, tenant_number(n)) by {
            assert(sorting::total(rest, tenant_number(n)) <= u64::MAX);
            assert(tenant_row_number(n)(folded_tenants(rest.drop_last())) == sorting::total(
                rest.drop_last(),
                tenant_number(n),
            ));
        }
    }
}

fn fold_tenants(rest: &Vec<&TenantMetrics>) -> (r: TenantRow)
    requires
        tenants_fit(rest@),
    ensures
        r@ == folded_tenants(rest@),
{
    let mut o = TenantRow {
        tenant: text::owned(OTHER),
        in_flight: 0,
        queued: 0,
        oldest_wait_seconds: None,
        grants: 0,
        max_concurrency: None,
    };
    let mut i: usize = 0;
    while i < rest.len()
        invariant
            tenants_fit(rest@),
            i <= rest@.len(),
            o@ == folded_tenants(rest@.take(i as int)),
        decreases rest@.len() - i,
    {
        let t = rest[i];
        proof {
            let done = rest@.take(i as int);
            let next = rest@.take(i as int + 1);
            assert(next.drop_last() =~= done);
            assert forall|n: int| 0 <= n <= 2 implies #[trigger] sorting::total(
                done,
                tenant_number(n),
            ) + tenant_number(n)(t) <= u64::MAX by {
                assert(rest@ =~= next + rest@.skip(i as int + 1));
                sorting::lemma_total_concat(next, rest@.skip(i as int + 1), tenant_number(n));
                assert(sorting::total(rest@, tenant_number(n)) <= u64::MAX);
            }
            lemma_folded_tenants(done);
            assert(tenant_row_number(0)(o@) == sorting::total(done, tenant_number(0)));
            assert(tenant_row_number(1)(o@) == sorting::total(done, tenant_number(1)));
            assert(tenant_row_number(2)(o@) == sorting::total(done, tenant_number(2)));
        }
        o.in_flight = o.in_flight + t.in_flight;
        o.queued = o.queued + t.queued;
        o.grants = o.grants + t.grants;
        o.oldest_wait_seconds = longer_of(o.oldest_wait_seconds, t.oldest_wait_seconds);
        i += 1;
    }
    proof {
        assert(rest@.take(i as int) =~= rest@);
    }
    o
}

fn rank_tenants(tenants: &Vec<TenantMetrics>) -> (r: Vec<&TenantMetrics>)
    ensures
        r@ == ranked_tenants(tenants@),
        r@.len() == tenants@.len(),
{
    let busy = |a: &TenantMetrics, b: &TenantMetrics| -> (c: bool)
        ensures
            c == busier()(a, b),
    {
        a.queued > b.queued || (a.queued == b.queued && (a.in_flight > b.in_flight || (a.in_flight
            == b.in_flight && (a.grants > b.grants || (a.grants == b.grants && text::text_before(
            a.tenant.as_str(),
            b.tenant.as_str(),
        ))))))
    };
    let all = references(tenants);
    proof {
        sorting::lemma_stable_total(refs(tenants@), busier(), tenant_number(0));
    }
    sorting::sort(&all, busy, Ghost(busier()))
}

fn number_of_tenant(t: &TenantMetrics, n: u8) -> (v: u64)
    ensures
        v == tenant_number(n as int)(t),
{
    match n {
        0 => t.in_flight,
        1 => t.queued,
        _ => t.grants,
    }
}

fn tenant_total_fits(list: &Vec<&TenantMetrics>, n: u8) -> (r: bool)
    ensures
        r == (sorting::total(list@, tenant_number(n as int)) <= u64::MAX),
{
    let ghost f = tenant_number(n as int);
    let mut sum: u64 = 0;
    let mut i: usize = 0;
    while i < list.len()
        invariant
            f == tenant_number(n as int),
            i <= list@.len(),
            sum == sorting::total(list@.take(i as int), f),
        decreases list@.len() - i,
    {
        let v: u64 = number_of_tenant(list[i], n);
        proof {
            let next = list@.take(i + 1);
            assert(next.drop_last() =~= list@.take(i as int));
            assert(list@ =~= next + list@.skip(i + 1));
            sorting::lemma_total_concat(next, list@.skip(i + 1), f);
        }
        if v > u64::MAX - sum {
            return false;
        }
        sum = sum + v;
        i += 1;
    }
    proof {
        assert(list@.take(i as int) =~= list@);
    }
    true
}

/// Whether the numbers of the tenants that a cap of `limit` folds can be
/// summed up.
pub fn can_fold_tenants(tenants: &Vec<TenantMetrics>, limit: usize) -> (r: bool)
    ensures
        r == tenants_fit(ranked_tenants(tenants@).skip(kept(tenants@.len(), limit))),
{
    let mut ranked = rank_tenants(tenants);
    let ghost list = ranked@;
    let k: usize = if ranked.len() <= limit {
        ranked.len()
    } else {
        limit
    };
    let rest = ranked.split_off(k);
    assert(rest@ =~= list.skip(k as int));
    let mut n: u8 = 0;
    while n < 3
        invariant
            n <= 3,
            rest@ == ranked_tenants(tenants@).skip(kept(tenants@.len(), limit)),
            forall|m: int|
                0 <= m < n ==> #[trigger] sorting::total(rest@, tenant_number(m)) <= u64::MAX,
        decreases 3 - n,
    {
        if !tenant_total_fits(&rest, n) {
            assert(sorting::total(rest@, tenant_number(n as int)) > u64::MAX);
            return false;
        }
        n += 1;
    }
    true
}

/// Keep the `limit` busiest tenants and fold the rest into one series. Returns
/// the series and how many tenants were folded.
pub fn cap_tenants(tenants: &Vec<TenantMetrics>, limit: usize) -> (r: (Vec<TenantRow>, usize))
    requires
        tenants_fit(ranked_tenants(tenants@).skip(kept(tenants@.len(), limit))),
    ensures
        tenant_views(r.0@) == tenant_rows(tenants@, limit),
        r.1 == tenants@.len() - kept(tenants@.len(), limit),
{
    let by_id = |a: &TenantMetrics, b: &TenantMetrics| -> (c: bool)
        ensures
            c == by_tenant()(a, b),
    {
        text::text_before(a.tenant.as_str(), b.tenant.as_str())
    };
    let mut ranked = rank_tenants(tenants);
    if ranked.len() <= limit {
        assert(ranked@.take(ranked@.len() as int) =~= ranked@);
        return (tenant_rows_for(&sorting::sort(&ranked, by_id, Ghost(by_tenant()))), 0);
    }
    let ghost list = ranked@;
    let rest = ranked.split_off(limit);
    proof {
        assert(ranked@ =~= list.take(limit as int));
        assert(rest@ =~= list.skip(limit as int));
    }
    let mut rows = tenant_rows_for(&sorting::sort(&ranked, by_id, Ghost(by_tenant())));
    let ghost named = tenant_views(rows@);
    let other = fold_tenants(&rest);
    rows.push(other);
    proof {
        assert(tenant_views(rows@) =~= named.push(other@));
    }
    (rows, rest.len())
}

/// Folding loses nothing: over all series, what the tenants wait for, have in
/// flight and were granted adds up to what it adds up to over the tenants.
pub proof fn law_folding_keeps_the_tenants_totals(
    list: Seq<TenantMetrics>,
    limit: usize,
    n: int,
)
    requires
        tenants_fit(ranked_tenants(list).skip(kept(list.len(), limit))),
        0 <= n <= 2,
    ensures
        sorting::total(tenant_rows(list, limit), tenant_row_number(n)) == sorting::total(
            refs(list),
            tenant_number(n),
        ),
        tenant_rows(list, limit).len() <= limit + 1,
{
    let ranked = ranked_tenants(list);
    let k = kept(list.len(), limit);
    sorting::lemma_stable_total(refs(list), busier(), tenant_number(n));
    let head = ranked.take(k);
    let rest = ranked.skip(k);
    assert(ranked =~= head + rest);
    sorting::lemma_total_concat(head, rest, tenant_number(n));
    sorting::lemma_stable_total(head, by_tenant(), tenant_number(n));
    let named = sorting::stable(head, by_tenant());
    lemma_tenant_rows_total(named, n);
    if list.len() > limit {
        lemma_folded_tenants(rest);
        let rows = tenant_rows_of(named);
        assert(rows.push(folded_tenants(rest)).drop_last() =~= rows);
        assert(tenant_row_number(n)(folded_tenants(rest)) == sorting::total(
            rest,
            tenant_number(n),
        ));
    } else {
        assert(rest =~= Seq::<&TenantMetrics>::empty());
    }
}

/// What is kept comes before what is folded away: it has more queued, else more
/// in flight, else more grants, else the smaller id. All tenants are ranked,
/// each once.
pub proof fn law_the_busiest_tenants_are_kept(
    list: Seq<TenantMetrics>,
    limit: usize,
    i: int,
    j: int,
)
    requires
        0 <= i < kept(list.len(), limit) <= j < list.len(),
    ensures
        ranked_tenants(list).len() == list.len(),
        ranked_tenants(list).to_multiset() == refs(list).to_multiset(),
        ({
            let a = ranked_tenants(list)[i];
            let b = ranked_tenants(list)[j];
            ||| a.queued > b.queued
            ||| a.queued == b.queued && a.in_flight > b.in_flight
            ||| a.queued == b.queued && a.in_flight == b.in_flight && a.grants > b.grants
            ||| a.queued == b.queued && a.in_flight == b.in_flight && a.grants == b.grants && (
            text::text_lt(a.tenant@, b.tenant@) || a.tenant@ == b.tenant@)
        }),
{
    assert(sorting::is_order(busier())) by {
        assert forall|a: &TenantMetrics, b: &TenantMetrics| #[trigger]
            busier()(a, b) implies !busier()(b, a) by {
            text::lemma_text_order(a.tenant@, b.tenant@, a.tenant@);
        }
        assert forall|a: &TenantMetrics, b: &TenantMetrics, c: &TenantMetrics|
            !#[trigger] busier()(b, a) && !#[trigger] busier()(c, b) implies !busier()(c, a) by {
            text::lemma_text_order(c.tenant@, a.tenant@, b.tenant@);
            text::lemma_text_order(a.tenant@, b.tenant@, c.tenant@);
            text::lemma_text_order(b.tenant@, c.tenant@, a.tenant@);
        }
    }
    sorting::lemma_stable_ascends(refs(list), busier());
    sorting::lemma_stable_total(refs(list), busier(), tenant_number(0));
    sorting::lemma_stable_multiset(refs(list), busier());
    let ranked = ranked_tenants(list);
    assert(!busier()(ranked[j], ranked[i]));
    text::lemma_text_order(ranked[i].tenant@, ranked[j].tenant@, ranked[i].tenant@);
}

proof fn lemma_tenant_rows_total(list: Seq<&TenantMetrics>, n: int)
    requires
        0 <= n <= 2,
    ensures
        sorting::total(tenant_rows_of(list), tenant_row_number(n)) == sorting::total(
            list,
            tenant_number(n),
        ),
    decreases list.len(),
{
    if list.len() > 0 {
        lemma_tenant_rows_total(list.drop_last(), n);
        assert(tenant_rows_of(list).drop_last() =~= tenant_rows_of(list.drop_last()));
        assert(tenant_row_number(n)(tenant_row(list.last())) == tenant_number(n)(list.last()));
    }
}

} // verus!
