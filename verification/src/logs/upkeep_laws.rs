//! What flushing and retention do to the log database and its counters.

use vstd::prelude::*;

use crate::logs::flush;
use crate::logs::queue;
use crate::logs::queue::{Drained, LogQueue, Loss};
use crate::logs::retention;
use crate::logs::retention::{Candidate, LedgerAnswer, SizeState, Victim};
use crate::logs::rows;
use crate::logs::rows::{BatchOutcome, InvocationCounts, LineView, LogRows, LogState};
use crate::logs::step_laws;
use crate::logs::store::{Counters, DropCounts, Health, RetentionReport, Settings};
use crate::table;
use crate::table::Table;
use crate::time;
use crate::time::{Span, Timestamp};

verus! {

/// A total moved by a difference, zero at the least.
pub open spec fn shifted(total: u64, by: i64) -> u64 {
    if total + by >= 0 {
        (total + by) as u64
    } else {
        0
    }
}

/// A committed batch adds what it did to the counters: lines and bytes written,
/// lines cut, markers, and lines dropped under each limit. The totals move by
/// what was stored, one more flush counts, and the lag is that of the batch
/// where it had one.
pub proof fn law_what_a_committed_batch_counts(c: Counters, out: BatchOutcome, lag_us: Option<u64>)
    ensures
        ({
            let d = flush::counted(c, out, lag_us);
            &&& d.written_lines == c.written_lines.wrapping_add(out.written_lines)
            &&& d.written_bytes == c.written_bytes.wrapping_add(out.written_bytes)
            &&& d.truncated_lines == c.truncated_lines.wrapping_add(out.truncated_lines)
            &&& d.markers == c.markers.wrapping_add(out.markers)
            &&& d.dropped.invocation_limit == c.dropped.invocation_limit.wrapping_add(
                out.invocation_limit,
            )
            &&& d.dropped.attempt_limit == c.dropped.attempt_limit.wrapping_add(out.attempt_limit)
            &&& d.dropped.queue_full == c.dropped.queue_full
            &&& d.dropped.store_unavailable == c.dropped.store_unavailable
            &&& d.dropped.unattributed == c.dropped.unattributed
            &&& d.flushes == c.flushes.wrapping_add(1)
            &&& d.flush_failures == c.flush_failures
            &&& d.last_flush_lag_us == if lag_us is Some {
                lag_us->0
            } else {
                c.last_flush_lag_us
            }
            &&& d.stored_lines == shifted(c.stored_lines, out.stored_lines)
            &&& d.stored_bytes == shifted(c.stored_bytes, out.stored_bytes)
            &&& d.retention_age_lines == c.retention_age_lines
            &&& d.retention_size_lines == c.retention_size_lines
            &&& d.retention_invocations == c.retention_invocations
            &&& d.retention_skipped_non_terminal == c.retention_skipped_non_terminal
        }),
{
}

/// A failed batch counts as a flush, a failure and as many lines dropped because
/// the store was unavailable; the store is unhealthy until a batch is committed.
pub proof fn law_what_a_failed_batch_counts(
    c: Counters,
    lines: nat,
    health: Health,
    error: String,
    now: Timestamp,
)
    requires
        lines <= u64::MAX,
    ensures
        flush::counted_failure(c, lines) == (Counters {
            flushes: c.flushes.wrapping_add(1),
            flush_failures: c.flush_failures.wrapping_add(1),
            dropped: DropCounts {
                store_unavailable: c.dropped.store_unavailable.wrapping_add(lines as u64),
                ..c.dropped
            },
            ..c
        }),
        flush::failing(health, error).last_flush_failed,
        flush::failing(health, error).last_error is Some,
        flush::failing(health, error).last_error->0@ == error@,
        flush::failing(health, error).last_flush_at == health.last_flush_at,
        flush::failing(health, error).writer_open == health.writer_open,
        flush::recovered(health, now) == (Health {
            last_flush_failed: false,
            last_error: None,
            last_flush_at: Some(now),
            ..health
        }),
{
}

/// Retention adds what it deleted to the counters and says how many it had to
/// leave this time. The totals are taken over where it deleted a line and they
/// could be read.
pub proof fn law_what_retention_counts(
    c: Counters,
    report: RetentionReport,
    totals: Option<(i64, i64)>,
)
    ensures
        ({
            let d = flush::counted_retention(c, report, totals);
            let deleted = report.age_lines > 0 || report.size_lines > 0;
            &&& d.retention_age_lines == c.retention_age_lines.wrapping_add(report.age_lines)
            &&& d.retention_size_lines == c.retention_size_lines.wrapping_add(report.size_lines)
            &&& d.retention_skipped_non_terminal == report.skipped_non_terminal
            &&& report.age_invocations + report.size_invocations <= u64::MAX
                ==> d.retention_invocations == c.retention_invocations.wrapping_add(
                (report.age_invocations + report.size_invocations) as u64,
            )
            &&& deleted && totals is Some ==> d.stored_lines == shifted(0, (totals->0).0)
                && d.stored_bytes == shifted(0, (totals->0).1)
            &&& !(deleted && totals is Some) ==> d.stored_lines == c.stored_lines && d.stored_bytes
                == c.stored_bytes
            &&& d.written_lines == c.written_lines
            &&& d.dropped == c.dropped
            &&& d.flushes == c.flushes
        }),
{
}

/// The writer waits on while it is not to stop, nobody asks for a flush and
/// fewer lines are queued than a batch has. It waits for its interval or until
/// retention is due, whichever is first, and a millisecond at the least.
pub proof fn law_when_the_writer_waits(q: LogQueue, settings: Settings, until_retention: u128)
    ensures
        queue::has_time(q, settings) <==> !q.shutdown && !q.flush_requested && q.items@.len()
            < settings.flush_max_lines,
        ({
            let wait = queue::wait_of(settings, until_retention);
            &&& wait >= 1_000_000
            &&& wait > 1_000_000 ==> wait <= settings.flush_interval_ms * 1_000_000 && wait
                <= until_retention
            &&& wait == 1_000_000 || wait == settings.flush_interval_ms * 1_000_000 || wait
                == until_retention
            &&& settings.flush_interval_ms * 1_000_000 >= 1_000_000 && until_retention >= 1_000_000
                ==> wait == settings.flush_interval_ms * 1_000_000 || wait == until_retention
        }),
{
}

/// Draining takes every line and every loss, in order, and leaves an empty queue
/// that counts on; a flush that is asked for waits for the last line queued,
/// unless all of them are committed and nothing is lost.
pub proof fn law_what_draining_takes(
    before: LogQueue,
    after: LogQueue,
    r: Drained,
    asked: LogQueue,
    committed: u64,
    target: Option<u64>,
    last: Option<u64>,
)
    requires
        queue::drained(before, after, r),
        queue::flush_asked(before, asked, committed, target),
    ensures
        r.items@ == before.items@,
        r.losses == before.losses,
        after.items@ == Seq::<queue::Pending>::empty(),
        after.losses@ == Map::<Seq<Seq<char>>, Loss>::empty(),
        after.bytes == 0,
        after.enqueued == before.enqueued,
        after.shutdown == before.shutdown,
        r.shutdown == before.shutdown,
        !after.flush_requested,
        r.last_seq is Some <==> before.items@.len() > 0,
        r.last_seq is Some ==> r.last_seq->0 == before.enqueued,
        target is None <==> before.items@.len() == 0 && before.losses@.dom().len() == 0
            && before.enqueued <= committed,
        target is Some ==> target->0 == before.enqueued && asked.flush_requested,
        target is None ==> asked.flush_requested == before.flush_requested,
        asked.items@ == before.items@,
        asked.losses == before.losses,
        queue::committed_with(committed, last) >= committed,
        last is Some ==> queue::committed_with(committed, last) >= last->0,
        queue::committed_with(committed, last) == committed || (last is Some
            && queue::committed_with(committed, last) == last->0),
{
    assert(after.items@ =~= Seq::<queue::Pending>::empty());
}

/// What is too old: nothing where lines are kept for good, else what was last
/// written longer ago than lines are kept.
pub proof fn law_what_is_too_old(settings: Settings, now: Timestamp)
    ensures
        retention::cutoff_of(settings, now) is None <==> settings.retention_seconds == 0,
        0 < settings.retention_seconds <= 9_223_372_036_854 ==> retention::cutoff_of(settings, now)
            == Some(
            time::spec_ns(
                time::after(now, (-(settings.retention_seconds * 1_000_000_000)) as Span),
            ),
        ),
{
}

/// The ledger holds an invocation's lines back: it could not be asked, or it
/// knows the invocation as one of the tenant's that has not ended.
pub open spec fn holds_back(answer: LedgerAnswer, tenant: Seq<char>) -> bool {
    answer is Failed || (answer is Found && answer->tenant@ == tenant && !answer->terminal)
}

/// Lines may be deleted unless the ledger holds them back. An invocation that
/// the ledger was not asked about is not held back.
pub proof fn law_whose_lines_may_go(
    answer: LedgerAnswer,
    ledger: Table<LedgerAnswer>,
    key: Seq<Seq<char>>,
)
    ensures
        retention::may_delete(answer, key[0]) <==> !holds_back(answer, key[0]),
        retention::let_go(ledger, key) <==> !(ledger@.contains_key(key) && holds_back(
            ledger@[key],
            key[0],
        )),
{
}

proof fn lemma_pruned(
    s: LogState,
    victims: Seq<Victim>,
    n: nat,
    tenant: Seq<char>,
    invocation: Seq<char>,
)
    requires
        n <= victims.len(),
    ensures
        ({
            let t = retention::pruned(s, victims, n);
            let hit = exists|i: int|
                0 <= i < n && (#[trigger] victims[i]).tenant == tenant && victims[i].invocation
                    == invocation;
            if hit {
                &&& rows::select(t.lines, tenant, invocation).len() == 0
                &&& t.invocation(table::k2(tenant, invocation)) == InvocationCounts::zero()
            } else {
                &&& rows::select(t.lines, tenant, invocation) == rows::select(
                    s.lines,
                    tenant,
                    invocation,
                )
                &&& t.invocation(table::k2(tenant, invocation)) == s.invocation(
                    table::k2(tenant, invocation),
                )
            }
        }),
    decreases n,
{
    if n > 0 {
        let m = (n - 1) as nat;
        lemma_pruned(s, victims, m, tenant, invocation);
        let v = victims[n - 1];
        retention::law_a_deletion_is_of_one_invocation(
            retention::pruned(s, victims, m),
            v.tenant,
            v.invocation,
            v.bytes,
            tenant,
            invocation,
        );
        if exists|i: int|
            0 <= i < m && (#[trigger] victims[i]).tenant == tenant && victims[i].invocation
                == invocation {
            let i = choose|i: int|
                0 <= i < m && (#[trigger] victims[i]).tenant == tenant && victims[i].invocation
                    == invocation;
            assert(victims[i].tenant == tenant);
        }
    }
}

/// Where an invocation that is too old stands among those that go.
proof fn lemma_aged_at(rows: LogRows, cutoff: i64, n: nat, i: int) -> (m: int)
    requires
        0 <= i < n <= rows.invocations.values@.len(),
        rows.invocations.values@[i].last_ts_ns < cutoff,
    ensures
        ({
            let list = retention::aged(rows, cutoff, n);
            &&& 0 <= m < list.len()
            &&& list[m].tenant == rows.invocations.order()[i][0]
            &&& list[m].invocation == rows.invocations.order()[i][1]
        }),
    decreases n,
{
    let head = retention::aged(rows, cutoff, (n - 1) as nat);
    if i == n - 1 {
        head.len() as int
    } else {
        let m = lemma_aged_at(rows, cutoff, (n - 1) as nat, i);
        assert(retention::aged(rows, cutoff, n)[m] == head[m]);
        m
    }
}

/// Which invocation one of those that go is.
proof fn lemma_aged_from(rows: LogRows, cutoff: i64, n: nat, m: int) -> (i: int)
    requires
        n <= rows.invocations.values@.len(),
        0 <= m < retention::aged(rows, cutoff, n).len(),
    ensures
        0 <= i < n,
        rows.invocations.values@[i].last_ts_ns < cutoff,
        retention::aged(rows, cutoff, n)[m].tenant == rows.invocations.order()[i][0],
        retention::aged(rows, cutoff, n)[m].invocation == rows.invocations.order()[i][1],
    decreases n,
{
    let head = retention::aged(rows, cutoff, (n - 1) as nat);
    if m < head.len() {
        assert(retention::aged(rows, cutoff, n)[m] == head[m]);
        let i = lemma_aged_from(rows, cutoff, (n - 1) as nat, m);
        i
    } else {
        n - 1
    }
}

/// Without an age limit and without a size limit retention deletes nothing.
pub proof fn law_without_limits_nothing_goes(
    before: LogRows,
    after: LogState,
    settings: Settings,
    now: Timestamp,
    ledger: Table<LedgerAnswer>,
    r: RetentionReport,
)
    requires
        retention::pruned_by_retention(before, after, settings, now, ledger, r),
        settings.retention_seconds == 0,
        settings.max_total_bytes == 0,
    ensures
        after == before@,
        r == (RetentionReport {
            age_invocations: 0,
            age_lines: 0,
            size_invocations: 0,
            size_lines: 0,
            skipped_non_terminal: 0,
        }),
{
}

/// Once retention ran, no line is left of an invocation whose last line is too
/// old, whatever the ledger says of it.
pub proof fn law_old_lines_go(
    before: LogRows,
    after: LogState,
    settings: Settings,
    now: Timestamp,
    ledger: Table<LedgerAnswer>,
    r: RetentionReport,
    i: int,
)
    requires
        retention::pruned_by_retention(before, after, settings, now, ledger, r),
        0 < settings.retention_seconds <= 9_223_372_036_854,
        0 <= i < before.invocations.values@.len(),
        before.invocations.values@[i].last_ts_ns < time::spec_ns(
            time::after(now, (-(settings.retention_seconds * 1_000_000_000)) as Span),
        ),
    ensures
        ({
            let key = before.invocations.order()[i];
            after.lines.filter(
                |l: LineView| l.tenant == key[0] && l.invocation == key[1],
            ).len() == 0
        }),
{
    let n = before.invocations.values@.len();
    let key = before.invocations.order()[i];
    let cutoff = time::spec_ns(time::after(now, retention::horizon(settings)));
    let old_ones = retention::aged(before, cutoff, n);
    let m = lemma_aged_at(before, cutoff, n, i);
    assert(old_ones[m].tenant == key[0]);
    lemma_pruned(before@, old_ones, old_ones.len(), key[0], key[1]);
    let (middle, candidates, at) = choose|middle: LogRows, candidates: Seq<Candidate>, at: Seq<int>|
        #![trigger retention::are_candidates(middle, ledger, candidates, at)]
        retention_step(before, after, settings, now, ledger, r, middle, candidates, at);
    let plan = plan_of(settings, middle, candidates);
    let big_ones = retention::size_victims(candidates, plan);
    lemma_pruned(middle@, big_ones, big_ones.len(), key[0], key[1]);
    assert(rows::select(after.lines, key[0], key[1]) == after.lines.filter(
        |l: LineView| l.tenant == key[0] && l.invocation == key[1],
    ));
}

/// What the size limit asks for.
spec fn plan_of(settings: Settings, middle: LogRows, candidates: Seq<Candidate>) -> SizeState {
    let max = if settings.max_total_bytes <= i64::MAX {
        settings.max_total_bytes as int
    } else {
        i64::MAX as int
    };
    let start = SizeState { stored: middle@.stored_bytes, victims: Seq::empty(), skipped: 0 };
    if settings.max_total_bytes == 0 {
        start
    } else {
        retention::size_plan(candidates, max, start, 0)
    }
}

/// The two steps of retention.
spec fn retention_step(
    before: LogRows,
    after: LogState,
    settings: Settings,
    now: Timestamp,
    ledger: Table<LedgerAnswer>,
    r: RetentionReport,
    middle: LogRows,
    candidates: Seq<Candidate>,
    at: Seq<int>,
) -> bool {
    let cutoff = time::spec_ns(time::after(now, retention::horizon(settings)));
    let old_ones = if settings.retention_seconds == 0 {
        Seq::empty()
    } else {
        retention::aged(before, cutoff, before.invocations.values@.len())
    };
    let plan = plan_of(settings, middle, candidates);
    let big_ones = retention::size_victims(candidates, plan);
    &&& middle.wf()
    &&& middle@ == retention::pruned(before@, old_ones, old_ones.len())
    &&& retention::are_candidates(middle, ledger, candidates, at)
    &&& after == retention::pruned(middle@, big_ones, big_ones.len())
}

/// What is not too old stays in the first step.
proof fn lemma_young_stays(before: LogRows, cutoff: i64, i: int)
    requires
        before.wf(),
        0 <= i < before.invocations.values@.len(),
        before.invocations.values@[i].last_ts_ns >= cutoff,
    ensures
        ({
            let key = before.invocations.order()[i];
            let old_ones = retention::aged(before, cutoff, before.invocations.values@.len());
            let t = retention::pruned(before@, old_ones, old_ones.len());
            &&& rows::select(t.lines, key[0], key[1]) == rows::select(before@.lines, key[0], key[1])
            &&& t.invocation(table::k2(key[0], key[1])) == before@.invocation(
                table::k2(key[0], key[1]),
            )
        }),
{
    let n = before.invocations.values@.len();
    let keys = before.invocations.order();
    let key = keys[i];
    let old_ones = retention::aged(before, cutoff, n);
    table::lemma_row_at(keys, before.invocations.values@, i);
    if exists|m: int|
        0 <= m < old_ones.len() && (#[trigger] old_ones[m]).tenant == key[0]
            && old_ones[m].invocation == key[1] {
        let m = choose|m: int|
            0 <= m < old_ones.len() && (#[trigger] old_ones[m]).tenant == key[0]
                && old_ones[m].invocation == key[1];
        let j = lemma_aged_from(before, cutoff, n, m);
        table::lemma_row_at(keys, before.invocations.values@, j);
        assert(before.invocations@.contains_key(key) && before.invocations@.contains_key(keys[j]));
        assert(key.len() == 2 && keys[j].len() == 2);
        assert(keys[j] =~= key);
        table::lemma_sorted_unique(keys);
    }
    lemma_pruned(before@, old_ones, old_ones.len(), key[0], key[1]);
}

/// What the ledger holds back stays in the second step.
proof fn lemma_held_back_stays(
    middle: LogRows,
    ledger: Table<LedgerAnswer>,
    candidates: Seq<Candidate>,
    at: Seq<int>,
    settings: Settings,
    key: Seq<Seq<char>>,
)
    requires
        middle.wf(),
        retention::are_candidates(middle, ledger, candidates, at),
        key.len() == 2,
        ledger@.contains_key(key),
        holds_back(ledger@[key], key[0]),
    ensures
        ({
            let big_ones = retention::size_victims(
                candidates,
                plan_of(settings, middle, candidates),
            );
            let t = retention::pruned(middle@, big_ones, big_ones.len());
            &&& rows::select(t.lines, key[0], key[1]) == rows::select(middle@.lines, key[0], key[1])
            &&& t.invocation(table::k2(key[0], key[1])) == middle@.invocation(
                table::k2(key[0], key[1]),
            )
        }),
{
    let plan = plan_of(settings, middle, candidates);
    let big_ones = retention::size_victims(candidates, plan);
    let max = if settings.max_total_bytes <= i64::MAX {
        settings.max_total_bytes as int
    } else {
        i64::MAX as int
    };
    retention::law_the_size_cap_keeps_running_invocations(
        candidates,
        max,
        middle@.stored_bytes,
    );
    assert forall|m: int| 0 <= m < big_ones.len() implies !((#[trigger] big_ones[m]).tenant == key[0]
        && big_ones[m].invocation == key[1]) by {
        let v = plan.victims[m];
        assert(candidates[v].deletable);
        let a = at[v];
        table::lemma_row_at(middle.invocations.order(), middle.invocations.values@, a);
        let other = middle.invocations.order()[a];
        if candidates[v].tenant@ == key[0] && candidates[v].invocation@ == key[1] {
            assert(other =~= key);
        }
    }
    lemma_pruned(middle@, big_ones, big_ones.len(), key[0], key[1]);
}

/// Retention leaves every line of an invocation that is not too old and that the
/// ledger holds back.
pub proof fn law_running_lines_stay(
    before: LogRows,
    after: LogState,
    settings: Settings,
    now: Timestamp,
    ledger: Table<LedgerAnswer>,
    r: RetentionReport,
    i: int,
)
    requires
        before.wf(),
        retention::pruned_by_retention(before, after, settings, now, ledger, r),
        settings.retention_seconds <= 9_223_372_036_854,
        0 <= i < before.invocations.values@.len(),
        settings.retention_seconds > 0 ==> before.invocations.values@[i].last_ts_ns
            >= time::spec_ns(
            time::after(now, (-(settings.retention_seconds * 1_000_000_000)) as Span),
        ),
        ledger@.contains_key(before.invocations.order()[i]),
        holds_back(
            ledger@[before.invocations.order()[i]],
            before.invocations.order()[i][0],
        ),
    ensures
        ({
            let key = before.invocations.order()[i];
            &&& after.lines.filter(|l: LineView| l.tenant == key[0] && l.invocation == key[1])
                == before@.lines.filter(|l: LineView| l.tenant == key[0] && l.invocation == key[1])
            &&& step_laws::counts_of(after, key[0], key[1]) == step_laws::counts_of(
                before@,
                key[0],
                key[1],
            )
        }),
{
    let key = before.invocations.order()[i];
    let cutoff = time::spec_ns(time::after(now, retention::horizon(settings)));
    let (middle, candidates, at) = choose|middle: LogRows, candidates: Seq<Candidate>, at: Seq<int>|
        #![trigger retention::are_candidates(middle, ledger, candidates, at)]
        retention_step(before, after, settings, now, ledger, r, middle, candidates, at);
    table::lemma_row_at(before.invocations.order(), before.invocations.values@, i);
    if settings.retention_seconds > 0 {
        lemma_young_stays(before, cutoff, i);
    }
    lemma_held_back_stays(middle, ledger, candidates, at, settings, key);
    assert(rows::select(after.lines, key[0], key[1]) == after.lines.filter(
        |l: LineView| l.tenant == key[0] && l.invocation == key[1],
    ));
    assert(rows::select(before@.lines, key[0], key[1]) == before@.lines.filter(
        |l: LineView| l.tenant == key[0] && l.invocation == key[1],
    ));
}

/// The bytes of the candidates at some places.
pub open spec fn bytes_at(candidates: Seq<Candidate>, places: Seq<int>) -> int
    decreases places.len(),
{
    if places.len() == 0 {
        0
    } else {
        bytes_at(candidates, places.drop_last()) + candidates[places.last()].stored_bytes
    }
}

/// Of the first `n` candidates the oldest are taken, and while one is left that
/// could be, the store is within the cap.
spec fn oldest_first(candidates: Seq<Candidate>, max: int, s: SizeState, n: int) -> bool {
    &&& forall|x: int|
        0 <= x < n && (#[trigger] candidates[x]).deletable && !s.victims.contains(x) ==> s.stored
            <= max
    &&& forall|x: int, y: int|
        0 <= x < y && (#[trigger] candidates[x]).deletable && #[trigger] s.victims.contains(y)
            ==> s.victims.contains(x)
    &&& forall|y: int| #[trigger] s.victims.contains(y) ==> 0 <= y < n
}

/// The last one taken was needed, and what was taken is what is gone.
spec fn frugal(candidates: Seq<Candidate>, max: int, stored: int, s: SizeState) -> bool {
    &&& s.stored + bytes_at(candidates, s.victims) == stored
    &&& s.victims.len() > 0 ==> s.stored + candidates[s.victims.last()].stored_bytes > max
}

proof fn lemma_shrunk_is_frugal(
    candidates: Seq<Candidate>,
    max: int,
    stored: int,
    s: SizeState,
    i: int,
    end: int,
)
    requires
        0 <= i <= end <= candidates.len(),
        forall|j: int| 0 <= j < candidates.len() ==> (#[trigger] candidates[j]).stored_bytes >= 0,
        frugal(candidates, max, stored, s),
        oldest_first(candidates, max, s, i),
    ensures
        frugal(candidates, max, stored, retention::shrunk(candidates, max, s, i, end)),
        oldest_first(candidates, max, retention::shrunk(candidates, max, s, i, end), end),
    decreases end - i,
{
    if i < end {
        lemma_shrunk_is_frugal(candidates, max, stored, s, i, end - 1);
        let before = retention::shrunk(candidates, max, s, i, end - 1);
        let t = retention::shrunk(candidates, max, s, i, end);
        if candidates[end - 1].deletable && before.stored > max {
            assert(t.victims.drop_last() =~= before.victims);
            assert forall|y: int| t.victims.contains(y) <==> before.victims.contains(y) || y == end
                - 1 by {
                if before.victims.contains(y) {
                    let k = before.victims.index_of(y);
                    assert(t.victims[k] == y);
                }
                if y == end - 1 {
                    assert(t.victims[before.victims.len() as int] == y);
                }
                if t.victims.contains(y) && y != end - 1 {
                    let k = t.victims.index_of(y);
                    assert(before.victims[k] == y);
                }
            }
        }
    }
}

proof fn lemma_plan_is_frugal(
    candidates: Seq<Candidate>,
    max: int,
    stored: int,
    s: SizeState,
    i: int,
)
    requires
        0 <= i <= candidates.len(),
        forall|j: int| 0 <= j < candidates.len() ==> (#[trigger] candidates[j]).stored_bytes >= 0,
        frugal(candidates, max, stored, s),
        oldest_first(candidates, max, s, i),
    ensures
        frugal(candidates, max, stored, retention::size_plan(candidates, max, s, i)),
        oldest_first(
            candidates,
            max,
            retention::size_plan(candidates, max, s, i),
            candidates.len() as int,
        ),
    decreases candidates.len() - i,
{
    if s.stored > max && i < candidates.len() {
        let end = retention::page_end(candidates.len(), i);
        let looked = SizeState {
            skipped: s.skipped + retention::held_back(candidates, i, end),
            ..s
        };
        lemma_shrunk_is_frugal(candidates, max, stored, looked, i, end);
        lemma_plan_is_frugal(
            candidates,
            max,
            stored,
            retention::shrunk(candidates, max, looked, i, end),
            end,
        );
    }
}

/// The size cap takes nothing while the store is within it, takes the oldest
/// that may go first, and no more than it needs: without the last one taken the
/// store would be over the cap. What is left is what was there without them.
pub proof fn law_the_size_cap_takes_no_more_than_it_needs(
    candidates: Seq<Candidate>,
    max: int,
    stored: int,
    x: int,
    y: int,
)
    requires
        forall|j: int| 0 <= j < candidates.len() ==> (#[trigger] candidates[j]).stored_bytes >= 0,
    ensures
        ({
            let start = SizeState { stored, victims: Seq::empty(), skipped: 0 };
            let plan = retention::size_plan(candidates, max, start, 0);
            &&& stored <= max ==> plan == start
            &&& plan.victims.len() > 0 ==> plan.stored
                + candidates[plan.victims.last()].stored_bytes > max
            &&& plan.stored + bytes_at(candidates, plan.victims) == stored
            &&& 0 <= x < y && candidates[x].deletable && plan.victims.contains(y)
                ==> plan.victims.contains(x)
            &&& 0 <= x < candidates.len() && candidates[x].deletable && plan.stored > max
                ==> plan.victims.contains(x)
        }),
{
    let start = SizeState { stored, victims: Seq::empty(), skipped: 0 };
    lemma_plan_is_frugal(candidates, max, stored, start, 0);
}

} // verus!
