//! Bookkeeping around a flush, a retention pass and opening the database.

use vstd::prelude::*;

use crate::logs::queue;
use crate::logs::queue::{Drained, LogQueue};
use crate::logs::rows::BatchOutcome;
use crate::logs::store::{Counters, DropCounts, Health, RetentionReport, SCHEMA_VERSION};
use crate::text;
use crate::time::Timestamp;

verus! {

/// `v + d`, but not below zero.
pub open spec fn moved(v: u64, d: i64) -> int {
    if v + d < 0 {
        0
    } else {
        v + d
    }
}

fn shift(v: u64, d: i64) -> (r: u64)
    requires
        v <= i64::MAX,
        v + d <= i64::MAX,
    ensures
        r == moved(v, d),
{
    let sum: i64 = v as i64 + d;
    if sum < 0 {
        0
    } else {
        sum as u64
    }
}

/// The counters after a batch was committed.
pub open spec fn counted(c: Counters, out: BatchOutcome, lag_us: Option<u64>) -> Counters {
    Counters {
        written_lines: c.written_lines.wrapping_add(out.written_lines),
        written_bytes: c.written_bytes.wrapping_add(out.written_bytes),
        truncated_lines: c.truncated_lines.wrapping_add(out.truncated_lines),
        markers: c.markers.wrapping_add(out.markers),
        dropped: DropCounts {
            invocation_limit: c.dropped.invocation_limit.wrapping_add(out.invocation_limit),
            attempt_limit: c.dropped.attempt_limit.wrapping_add(out.attempt_limit),
            ..c.dropped
        },
        flushes: c.flushes.wrapping_add(1),
        last_flush_lag_us: match lag_us {
            Some(us) => us,
            None => c.last_flush_lag_us,
        },
        stored_lines: moved(c.stored_lines, out.stored_lines) as u64,
        stored_bytes: moved(c.stored_bytes, out.stored_bytes) as u64,
        ..c
    }
}

/// The health once a batch is committed.
pub open spec fn recovered(health: Health, now: Timestamp) -> Health {
    Health { last_flush_failed: false, last_error: None, last_flush_at: Some(now), ..health }
}

/// Take over what a committed batch did. `lag_us` is how long its oldest line
/// waited, if it had one.
pub fn flush_committed(
    counters: &mut Counters,
    health: &mut Health,
    out: &BatchOutcome,
    now: Timestamp,
    lag_us: Option<u64>,
)
    requires
        old(counters).stored_lines <= i64::MAX,
        old(counters).stored_lines + out.stored_lines <= i64::MAX,
        old(counters).stored_bytes <= i64::MAX,
        old(counters).stored_bytes + out.stored_bytes <= i64::MAX,
    ensures
        *final(counters) == counted(*old(counters), *out, lag_us),
        *final(health) == recovered(*old(health), now),
{
    counters.flushes = counters.flushes.wrapping_add(1);
    counters.written_lines = counters.written_lines.wrapping_add(out.written_lines);
    counters.written_bytes = counters.written_bytes.wrapping_add(out.written_bytes);
    counters.truncated_lines = counters.truncated_lines.wrapping_add(out.truncated_lines);
    counters.markers = counters.markers.wrapping_add(out.markers);
    counters.dropped.invocation_limit =
    counters.dropped.invocation_limit.wrapping_add(out.invocation_limit);
    counters.dropped.attempt_limit = counters.dropped.attempt_limit.wrapping_add(out.attempt_limit);
    counters.stored_lines = shift(counters.stored_lines, out.stored_lines);
    counters.stored_bytes = shift(counters.stored_bytes, out.stored_bytes);
    match lag_us {
        Some(us) => {
            counters.last_flush_lag_us = us;
        },
        None => {},
    }
    health.last_flush_failed = false;
    health.last_error = None;
    health.last_flush_at = Some(now);
}

/// The counters once a batch of `lines` lines could not be stored.
pub open spec fn counted_failure(c: Counters, lines: nat) -> Counters {
    Counters {
        flushes: c.flushes.wrapping_add(1),
        flush_failures: c.flush_failures.wrapping_add(1),
        dropped: DropCounts {
            store_unavailable: c.dropped.store_unavailable.wrapping_add(lines as u64),
            ..c.dropped
        },
        ..c
    }
}

/// The health once a batch could not be stored.
pub open spec fn failing(health: Health, error: String) -> Health {
    Health { last_flush_failed: true, last_error: Some(error), ..health }
}

/// Take over that the store refused a batch: its lines are dropped and
/// counted, and they and the losses it carried stay remembered, so that their
/// invocations get a marker once the store answers again.
pub fn flush_failed(
    counters: &mut Counters,
    health: &mut Health,
    queue: &mut LogQueue,
    drained: &Drained,
    error: String,
)
    requires
        old(queue).wf(),
        drained.losses.wf(),
        queue::loss_keys(drained.losses),
        queue::losses_fit(
            queue::refused(
                queue::merged(
                    queue::losses_view(old(queue).losses),
                    drained.losses,
                    drained.losses.values@.len(),
                ),
                drained.items@,
                drained.items@.len(),
            ),
        ),
    ensures
        *final(counters) == counted_failure(*old(counters), drained.items@.len()),
        *final(health) == failing(*old(health), error),
        final(queue).wf(),
        final(queue).items@ == old(queue).items@,
        final(queue).enqueued == old(queue).enqueued,
        final(queue).flush_requested == old(queue).flush_requested,
        final(queue).shutdown == old(queue).shutdown,
        queue::losses_view(final(queue).losses) == queue::refused(
            queue::merged(
                queue::losses_view(old(queue).losses),
                drained.losses,
                drained.losses.values@.len(),
            ),
            drained.items@,
            drained.items@.len(),
        ),
{
    counters.flushes = counters.flushes.wrapping_add(1);
    counters.flush_failures = counters.flush_failures.wrapping_add(1);
    counters.dropped.store_unavailable =
    counters.dropped.store_unavailable.wrapping_add(drained.items.len() as u64);
    health.last_flush_failed = true;
    health.last_error = Some(error);
    queue.restore(&drained.losses, &drained.items);
}

/// The counters once retention ran. The totals are read again where it deleted
/// a line.
pub open spec fn counted_retention(
    c: Counters,
    report: RetentionReport,
    totals: Option<(i64, i64)>,
) -> Counters {
    Counters {
        stored_lines: match totals {
            Some((lines, _)) if report.age_lines + report.size_lines > 0 => if lines > 0 {
                lines as u64
            } else {
                0
            },
            _ => c.stored_lines,
        },
        stored_bytes: match totals {
            Some((_, bytes)) if report.age_lines + report.size_lines > 0 => if bytes > 0 {
                bytes as u64
            } else {
                0
            },
            _ => c.stored_bytes,
        },
        retention_age_lines: c.retention_age_lines.wrapping_add(report.age_lines),
        retention_size_lines: c.retention_size_lines.wrapping_add(report.size_lines),
        retention_invocations: c.retention_invocations.wrapping_add(
            (report.age_invocations + report.size_invocations) as u64,
        ),
        retention_skipped_non_terminal: report.skipped_non_terminal,
        ..c
    }
}

/// Take over what a retention pass did. `totals` are those the database
/// reports where something was deleted and it could be asked.
pub fn note_retention(
    counters: &mut Counters,
    health: &mut Health,
    report: &RetentionReport,
    now: Timestamp,
    totals: Option<(i64, i64)>,
)
    requires
        report.age_lines + report.size_lines <= u64::MAX,
        report.age_invocations + report.size_invocations <= u64::MAX,
    ensures
        *final(health) == (Health { last_retention_at: Some(now), ..*old(health) }),
        *final(counters) == counted_retention(*old(counters), *report, totals),
{
    if report.age_lines + report.size_lines > 0 {
        match totals {
            Some((lines, bytes)) => {
                counters.load_totals(lines, bytes);
            },
            None => {},
        }
    }
    counters.retention_age_lines = counters.retention_age_lines.wrapping_add(report.age_lines);
    counters.retention_size_lines = counters.retention_size_lines.wrapping_add(report.size_lines);
    counters.retention_invocations =
    counters.retention_invocations.wrapping_add(report.age_invocations + report.size_invocations);
    counters.retention_skipped_non_terminal = report.skipped_non_terminal;
    health.last_retention_at = Some(now);
}

/// Why a database is not written: its schema is newer.
pub open spec fn refusal_of(path: Seq<char>, existing: Option<i64>) -> Option<Seq<char>> {
    match existing {
        Some(v) if v > SCHEMA_VERSION => Some(
            path + " has schema version "@ + text::dec_int(v as int)
                + ", newer than this binary ("@ + text::dec_int(SCHEMA_VERSION as int)
                + "); logs are not written"@,
        ),
        _ => None,
    }
}

/// What opening a database with the schema `existing` is refused with. A
/// database without a schema, or with one this program knows, opens.
pub fn schema_refusal(path: &str, existing: Option<i64>) -> (r: Option<String>)
    ensures
        text::opt_view(r) == refusal_of(path@, existing),
{
    match existing {
        Some(v) => {
            if v > SCHEMA_VERSION {
                let mut m = text::owned(path);
                m.append(" has schema version ");
                text::push_i64(&mut m, v);
                m.append(", newer than this binary (");
                text::push_i64(&mut m, SCHEMA_VERSION);
                m.append("); logs are not written");
                Some(m)
            } else {
                None
            }
        },
        None => None,
    }
}

/// What a write to a database that is not open fails with.
pub open spec fn not_open_words(health: Health) -> Seq<char> {
    match health.last_error {
        Some(e) => e@,
        None => "logs.db is not open"@,
    }
}

/// What a write to a database that is not open and not due to be opened again
/// fails with: the last error, if there was one.
pub fn not_open(health: &Health) -> (r: String)
    ensures
        r@ == not_open_words(*health),
{
    match &health.last_error {
        Some(e) => e.clone(),
        None => text::owned("logs.db is not open"),
    }
}

} // verus!
