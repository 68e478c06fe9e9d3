//! What the settings of the log store mean, and what it reports of itself.

use vstd::prelude::*;

use crate::domain::log::{LogPhase, LogStream};
use crate::domain::Limits;
use crate::logs::flush;
use crate::logs::read;
use crate::logs::store;
use crate::logs::store::{Counters, DropCounts, DropReason, Health, DROP_REASONS};
use crate::logs::LogsConfig;
use crate::text;

verus! {

/// A section is accepted exactly where every number is within its bounds.
pub proof fn law_when_a_section_is_accepted(c: LogsConfig)
    ensures
        c.problem() is None <==> {
            &&& 1 <= c.flush_interval_ms <= 60_000
            &&& c.flush_max_lines >= 1
            &&& c.queue_max_lines >= 1
            &&& c.queue_max_bytes >= 65_536
            &&& c.retention_interval_seconds >= 1
            &&& c.read_flush_wait_ms <= 30_000
            &&& c.max_lines_per_attempt is Some ==> c.max_lines_per_attempt->0 >= 1
            &&& c.max_bytes_per_attempt is Some ==> c.max_bytes_per_attempt->0 >= 1
        },
{
}

/// A section that is refused is told a rule that it breaks.
pub proof fn law_the_rule_told_is_broken(c: LogsConfig)
    requires
        c.problem() is Some,
    ensures
        ({
            let words = c.problem()->0;
            ||| words == "[logs] flush_interval_ms must be within 1..=60000"@ && !(1
                <= c.flush_interval_ms <= 60_000)
            ||| words == "[logs] flush_max_lines and queue_max_lines must be >= 1"@ && (
            c.flush_max_lines == 0 || c.queue_max_lines == 0)
            ||| words == "[logs] queue_max_bytes must be >= 65536"@ && c.queue_max_bytes < 65_536
            ||| words == "[logs] retention_interval_seconds must be >= 1"@
                && c.retention_interval_seconds == 0
            ||| words == "[logs] read_flush_wait_ms must be <= 30000"@ && c.read_flush_wait_ms
                > 30_000
            ||| words == "[logs] max_lines_per_attempt and max_bytes_per_attempt must be >= 1"@ && (
            c.max_lines_per_attempt == Some(0u32) || c.max_bytes_per_attempt == Some(0u64))
        }),
{
}

/// The caps are those of the limits; an attempt's are its own where they are
/// configured and the invocation's else. Everything else is as configured.
pub proof fn law_where_the_caps_come_from(c: LogsConfig, l: Limits)
    ensures
        ({
            let s = store::settings_of(c, l);
            &&& s.max_line_bytes == l.max_log_line_bytes
            &&& s.invocation_lines == l.max_log_lines_per_invocation
            &&& l.max_log_bytes_per_invocation <= i64::MAX ==> s.invocation_bytes
                == l.max_log_bytes_per_invocation
            &&& l.max_log_bytes_per_invocation > i64::MAX ==> s.invocation_bytes == i64::MAX
            &&& c.max_lines_per_attempt is None ==> s.attempt_lines == s.invocation_lines
            &&& c.max_lines_per_attempt is Some ==> s.attempt_lines == c.max_lines_per_attempt->0
            &&& c.max_bytes_per_attempt is None ==> s.attempt_bytes == s.invocation_bytes
            &&& c.max_bytes_per_attempt is Some && c.max_bytes_per_attempt->0 <= i64::MAX
                ==> s.attempt_bytes == c.max_bytes_per_attempt->0
            &&& c.max_bytes_per_attempt is Some && c.max_bytes_per_attempt->0 > i64::MAX
                ==> s.attempt_bytes == i64::MAX
            &&& s.flush_interval_ms == c.flush_interval_ms
            &&& s.flush_max_lines == c.flush_max_lines
            &&& s.queue_max_lines == c.queue_max_lines
            &&& s.queue_max_bytes == c.queue_max_bytes
            &&& s.retention_seconds == c.retention_seconds
            &&& s.max_total_bytes == c.max_total_bytes
            &&& s.retention_interval_seconds == c.retention_interval_seconds
            &&& s.read_flush_wait_ms == c.read_flush_wait_ms
        }),
{
}

/// A number that fits is itself.
pub proof fn law_what_clamping_does(v: u64)
    ensures
        v <= i64::MAX ==> store::clamped(v) == v,
        v > i64::MAX ==> store::clamped(v) == i64::MAX,
{
}

/// Each reason has its counter and its name.
pub proof fn law_each_reason_has_its_counter(d: DropCounts)
    ensures
        d.spec_get(DropReason::QueueFull) == d.queue_full,
        d.spec_get(DropReason::StoreUnavailable) == d.store_unavailable,
        d.spec_get(DropReason::InvocationLimit) == d.invocation_limit,
        d.spec_get(DropReason::AttemptLimit) == d.attempt_limit,
        d.spec_get(DropReason::Unattributed) == d.unattributed,
        DROP_REASONS@[DropReason::QueueFull.place()]@ == "queue_full"@,
        DROP_REASONS@[DropReason::StoreUnavailable.place()]@ == "store_unavailable"@,
        DROP_REASONS@[DropReason::InvocationLimit.place()]@ == "invocation_limit"@,
        DROP_REASONS@[DropReason::AttemptLimit.place()]@ == "attempt_limit"@,
        DROP_REASONS@[DropReason::Unattributed.place()]@ == "unattributed"@,
{
}

/// The totals of the database are taken over, none where they are negative;
/// nothing else changes.
pub proof fn law_totals_are_taken_over(c: Counters, lines: i64, bytes: i64)
    ensures
        ({
            let d = store::with_totals(c, lines, bytes);
            &&& lines >= 0 ==> d.stored_lines == lines
            &&& lines < 0 ==> d.stored_lines == 0
            &&& bytes >= 0 ==> d.stored_bytes == bytes
            &&& bytes < 0 ==> d.stored_bytes == 0
            &&& d == (Counters {
                stored_lines: d.stored_lines,
                stored_bytes: d.stored_bytes,
                ..c
            })
        }),
{
}

/// A database is refused exactly where its schema is newer than the first one.
pub proof fn law_when_a_database_is_refused(path: Seq<char>, existing: Option<i64>)
    ensures
        flush::refusal_of(path, existing) is Some <==> existing is Some && existing->0 > 1,
        flush::refusal_of(path, existing) is Some ==> flush::refusal_of(path, existing)->0 == path
            + " has schema version "@ + text::dec_int(existing->0 as int)
            + ", newer than this binary ("@ + text::dec_int(1) + "); logs are not written"@,
{
}

/// A write to a database that is not open fails with the last error, where
/// there was one.
pub proof fn law_what_a_closed_database_says(h: Health)
    ensures
        h.last_error is Some ==> flush::not_open_words(h) == h.last_error->0@,
        h.last_error is None ==> flush::not_open_words(h) == "logs.db is not open"@,
{
}

/// Streams and phases have these names in the database.
pub proof fn law_how_streams_and_phases_are_named()
    ensures
        read::stream_name(LogStream::Stdout) == "stdout"@,
        read::stream_name(LogStream::Stderr) == "stderr"@,
        read::stream_name(LogStream::Platform) == "platform"@,
        read::phase_name(LogPhase::Boot) == "boot"@,
        read::phase_name(LogPhase::Init) == "init"@,
        read::phase_name(LogPhase::Handler) == "handler"@,
        read::phase_name(LogPhase::Shutdown) == "shutdown"@,
{
}

} // verus!
