//! Settings, counters, health and the operator's view of the log store.

use vstd::prelude::*;

use crate::domain::Limits;
use crate::logs::LogsConfig;
use crate::text;
use crate::time::Timestamp;

verus! {

/// Schema of the log database (its own numbering).
pub const SCHEMA_VERSION: i64 = 1;

/// Marker lines one invocation may carry (limit and loss markers together).
pub const MAX_MARKERS_PER_INVOCATION: i64 = 16;

/// Every line the platform writes about a log loss starts with this.
pub const MARKER_PREFIX: &'static str = "[tachyon] ";

/// Why a line was not stored.
#[derive(Debug, Clone, Copy, PartialEq, Eq, Structural)]
pub enum DropReason {
    QueueFull,
    StoreUnavailable,
    InvocationLimit,
    AttemptLimit,
    Unattributed,
}

/// The names of the reasons, in the order they are reported.
pub const DROP_REASONS: [&'static str; 5] = [
    "queue_full",
    "store_unavailable",
    "invocation_limit",
    "attempt_limit",
    "unattributed",
];

/// Position of a known reason in the report.
pub fn drop_index(reason: &str) -> (r: usize)
    requires
        exists|i: int| 0 <= i < 5 && (#[trigger] DROP_REASONS@[i])@ == reason@,
    ensures
        r < 5,
        DROP_REASONS@[r as int]@ == reason@,
        forall|i: int| 0 <= i < r ==> (#[trigger] DROP_REASONS@[i])@ != reason@,
{
    let names = DROP_REASONS;
    let mut i: usize = 0;
    while i < 4
        invariant
            i <= 4,
            names@ == DROP_REASONS@,
            names@.len() == 5,
            exists|j: int| i <= j < 5 && (#[trigger] DROP_REASONS@[j])@ == reason@,
            forall|j: int| 0 <= j < i ==> (#[trigger] DROP_REASONS@[j])@ != reason@,
        decreases 4 - i,
    {
        if text::same_text(names[i], reason) {
            return i;
        }
        i += 1;
    }
    4
}

impl DropReason {
    /// Position of the reason in the report.
    pub open spec fn place(self) -> int {
        match self {
            DropReason::QueueFull => 0,
            DropReason::StoreUnavailable => 1,
            DropReason::InvocationLimit => 2,
            DropReason::AttemptLimit => 3,
            DropReason::Unattributed => 4,
        }
    }

    /// Name of the reason.
    pub fn as_str(self) -> (r: &'static str)
        ensures
            r@ == DROP_REASONS@[self.place()]@,
    {
        match self {
            DropReason::QueueFull => DROP_REASONS[0],
            DropReason::StoreUnavailable => DROP_REASONS[1],
            DropReason::InvocationLimit => DROP_REASONS[2],
            DropReason::AttemptLimit => DROP_REASONS[3],
            DropReason::Unattributed => DROP_REASONS[4],
        }
    }
}

/// What the writer and the queue go by.
#[derive(Debug, Clone, Copy, PartialEq, Eq, Structural)]
pub struct Settings {
    pub max_line_bytes: usize,
    pub invocation_lines: i64,
    pub invocation_bytes: i64,
    pub attempt_lines: i64,
    pub attempt_bytes: i64,
    pub flush_interval_ms: u64,
    pub flush_max_lines: usize,
    pub queue_max_lines: usize,
    pub queue_max_bytes: u64,
    pub retention_seconds: u64,
    pub max_total_bytes: u64,
    pub retention_interval_seconds: u64,
    pub read_flush_wait_ms: u64,
}

/// `v`, or the largest signed number where it does not fit.
pub open spec fn clamped(v: u64) -> i64 {
    if v <= i64::MAX {
        v as i64
    } else {
        i64::MAX
    }
}

/// `v`, or the largest signed number where it does not fit.
pub fn clamp(v: u64) -> (r: i64)
    ensures
        r == clamped(v),
{
    if v <= i64::MAX as u64 {
        v as i64
    } else {
        i64::MAX
    }
}

/// The caps that `config` and `limits` give. A cap per attempt that is not
/// configured is the cap per invocation.
pub open spec fn settings_of(config: LogsConfig, limits: Limits) -> Settings {
    Settings {
        max_line_bytes: limits.max_log_line_bytes,
        invocation_lines: limits.max_log_lines_per_invocation as i64,
        invocation_bytes: clamped(limits.max_log_bytes_per_invocation),
        attempt_lines: match config.max_lines_per_attempt {
            Some(n) => n as i64,
            None => limits.max_log_lines_per_invocation as i64,
        },
        attempt_bytes: match config.max_bytes_per_attempt {
            Some(n) => clamped(n),
            None => clamped(limits.max_log_bytes_per_invocation),
        },
        flush_interval_ms: config.flush_interval_ms,
        flush_max_lines: config.flush_max_lines,
        queue_max_lines: config.queue_max_lines,
        queue_max_bytes: config.queue_max_bytes,
        retention_seconds: config.retention_seconds,
        max_total_bytes: config.max_total_bytes,
        retention_interval_seconds: config.retention_interval_seconds,
        read_flush_wait_ms: config.read_flush_wait_ms,
    }
}

impl Settings {
    /// The caps that `config` and `limits` give. A cap per attempt that is not
    /// configured is the cap per invocation.
    pub fn new(config: &LogsConfig, limits: &Limits) -> (r: Self)
        ensures
            r == settings_of(*config, *limits),
    {
        let attempt_lines: u32 = match config.max_lines_per_attempt {
            Some(n) => n,
            None => limits.max_log_lines_per_invocation,
        };
        let attempt_bytes: u64 = match config.max_bytes_per_attempt {
            Some(n) => n,
            None => limits.max_log_bytes_per_invocation,
        };
        Settings {
            max_line_bytes: limits.max_log_line_bytes,
            invocation_lines: limits.max_log_lines_per_invocation as i64,
            invocation_bytes: clamp(limits.max_log_bytes_per_invocation),
            attempt_lines: attempt_lines as i64,
            attempt_bytes: clamp(attempt_bytes),
            flush_interval_ms: config.flush_interval_ms,
            flush_max_lines: config.flush_max_lines,
            queue_max_lines: config.queue_max_lines,
            queue_max_bytes: config.queue_max_bytes,
            retention_seconds: config.retention_seconds,
            max_total_bytes: config.max_total_bytes,
            retention_interval_seconds: config.retention_interval_seconds,
            read_flush_wait_ms: config.read_flush_wait_ms,
        }
    }
}

/// Lines dropped, by reason.
#[derive(Debug, Clone, Copy, PartialEq, Eq, Structural)]
pub struct DropCounts {
    pub queue_full: u64,
    pub store_unavailable: u64,
    pub invocation_limit: u64,
    pub attempt_limit: u64,
    pub unattributed: u64,
}

impl DropCounts {
    /// Lines dropped for `reason`.
    pub open spec fn spec_get(self, reason: DropReason) -> u64 {
        match reason {
            DropReason::QueueFull => self.queue_full,
            DropReason::StoreUnavailable => self.store_unavailable,
            DropReason::InvocationLimit => self.invocation_limit,
            DropReason::AttemptLimit => self.attempt_limit,
            DropReason::Unattributed => self.unattributed,
        }
    }

    /// Lines dropped for `reason`.
    pub fn get(&self, reason: DropReason) -> (r: u64)
        ensures
            r == self.spec_get(reason),
    {
        match reason {
            DropReason::QueueFull => self.queue_full,
            DropReason::StoreUnavailable => self.store_unavailable,
            DropReason::InvocationLimit => self.invocation_limit,
            DropReason::AttemptLimit => self.attempt_limit,
            DropReason::Unattributed => self.unattributed,
        }
    }

    /// Count `n` more lines dropped for `reason`. Counters wrap around.
    pub fn bump(&mut self, reason: DropReason, n: u64)
        ensures
            forall|other: DropReason| #[trigger] final(self).spec_get(other) == if other == reason {
                old(self).spec_get(other).wrapping_add(n)
            } else {
                old(self).spec_get(other)
            },
    {
        match reason {
            DropReason::QueueFull => {
                self.queue_full = self.queue_full.wrapping_add(n);
            },
            DropReason::StoreUnavailable => {
                self.store_unavailable = self.store_unavailable.wrapping_add(n);
            },
            DropReason::InvocationLimit => {
                self.invocation_limit = self.invocation_limit.wrapping_add(n);
            },
            DropReason::AttemptLimit => {
                self.attempt_limit = self.attempt_limit.wrapping_add(n);
            },
            DropReason::Unattributed => {
                self.unattributed = self.unattributed.wrapping_add(n);
            },
        }
    }
}

/// Counters of the log store since it was opened.
#[derive(Debug, Clone, Copy, PartialEq, Eq, Structural)]
pub struct Counters {
    pub written_lines: u64,
    pub written_bytes: u64,
    pub truncated_lines: u64,
    pub markers: u64,
    pub dropped: DropCounts,
    pub flushes: u64,
    pub flush_failures: u64,
    pub last_flush_lag_us: u64,
    pub stored_lines: u64,
    pub stored_bytes: u64,
    pub retention_age_lines: u64,
    pub retention_size_lines: u64,
    pub retention_invocations: u64,
    pub retention_skipped_non_terminal: u64,
}

impl Default for Counters {
    fn default() -> (r: Self)
        ensures
            r == (Counters {
                written_lines: 0,
                written_bytes: 0,
                truncated_lines: 0,
                markers: 0,
                dropped: DropCounts {
                    queue_full: 0,
                    store_unavailable: 0,
                    invocation_limit: 0,
                    attempt_limit: 0,
                    unattributed: 0,
                },
                flushes: 0,
                flush_failures: 0,
                last_flush_lag_us: 0,
                stored_lines: 0,
                stored_bytes: 0,
                retention_age_lines: 0,
                retention_size_lines: 0,
                retention_invocations: 0,
                retention_skipped_non_terminal: 0,
            }),
    {
        Counters {
            written_lines: 0,
            written_bytes: 0,
            truncated_lines: 0,
            markers: 0,
            dropped: DropCounts {
                queue_full: 0,
                store_unavailable: 0,
                invocation_limit: 0,
                attempt_limit: 0,
                unattributed: 0,
            },
            flushes: 0,
            flush_failures: 0,
            last_flush_lag_us: 0,
            stored_lines: 0,
            stored_bytes: 0,
            retention_age_lines: 0,
            retention_size_lines: 0,
            retention_invocations: 0,
            retention_skipped_non_terminal: 0,
        }
    }
}

/// The counters with the totals of the database; negative ones count as none.
pub open spec fn with_totals(counters: Counters, lines: i64, bytes: i64) -> Counters {
    Counters {
        stored_lines: if lines > 0 {
            lines as u64
        } else {
            0
        },
        stored_bytes: if bytes > 0 {
            bytes as u64
        } else {
            0
        },
        ..counters
    }
}

impl Counters {
    /// Take over the totals the database reports; negative ones count as none.
    pub fn load_totals(&mut self, lines: i64, bytes: i64)
        ensures
            *final(self) == with_totals(*old(self), lines, bytes),
    {
        self.stored_lines = if lines > 0 {
            lines as u64
        } else {
            0
        };
        self.stored_bytes = if bytes > 0 {
            bytes as u64
        } else {
            0
        };
    }
}

/// Whether the log store works.
#[derive(Debug, PartialEq, Eq)]
pub struct Health {
    pub writer_open: bool,
    pub last_flush_failed: bool,
    pub last_error: Option<String>,
    pub last_flush_at: Option<Timestamp>,
    pub last_retention_at: Option<Timestamp>,
}

/// What one retention pass removed.
#[derive(Debug, Clone, Copy, PartialEq, Eq, Structural)]
pub struct RetentionReport {
    pub age_invocations: u64,
    pub age_lines: u64,
    pub size_invocations: u64,
    pub size_lines: u64,
    /// Invocations the size cap would have removed but the ledger reports as
    /// not terminal (or could not be asked).
    pub skipped_non_terminal: u64,
}

impl Default for RetentionReport {
    fn default() -> (r: Self)
        ensures
            r == (RetentionReport {
                age_invocations: 0,
                age_lines: 0,
                size_invocations: 0,
                size_lines: 0,
                skipped_non_terminal: 0,
            }),
    {
        RetentionReport {
            age_invocations: 0,
            age_lines: 0,
            size_invocations: 0,
            size_lines: 0,
            skipped_non_terminal: 0,
        }
    }
}

/// Operator facts of the log store. No tenant data.
#[derive(Debug, PartialEq, Eq)]
pub struct LogStoreStatus {
    pub backend: &'static str,
    pub durable: bool,
    /// The database is open and the last flush committed. `false` is a
    /// degraded log store: invocations still run, their lines are dropped and
    /// counted.
    pub healthy: bool,
    pub path: Option<String>,
    pub last_error: Option<String>,
    pub queued_lines: u64,
    pub queued_bytes: u64,
    pub queue_max_lines: u64,
    pub queue_max_bytes: u64,
    pub stored_lines: u64,
    pub stored_bytes: u64,
    pub max_total_bytes: u64,
    pub retention_seconds: u64,
    pub flush_interval_ms: u64,
    /// Microseconds the oldest line of the last batch waited, once a batch
    /// was flushed.
    pub last_flush_lag_us: Option<u64>,
    pub last_flush_at: Option<Timestamp>,
    pub last_retention_at: Option<Timestamp>,
    pub lines_written: u64,
    pub bytes_written: u64,
    pub lines_truncated: u64,
    pub marker_lines: u64,
    /// Lines dropped, by reason. The memory buffer reports none.
    pub lines_dropped: Option<DropCounts>,
    pub flushes: u64,
    pub flush_failures: u64,
    /// Lines retention deleted by age and by size. The memory buffer reports
    /// none.
    pub retention_deleted_lines: Option<(u64, u64)>,
    pub retention_deleted_invocations: u64,
    pub retention_skipped_non_terminal: u64,
}

/// The metrics view is the status itself.
pub type LogStoreMetrics = LogStoreStatus;

impl LogStoreStatus {
    /// The status of the memory buffer.
    pub fn memory() -> (r: Self)
        ensures
            r.backend@ == "memory"@,
            !r.durable,
            r.healthy,
            r.path is None,
            r.last_error is None,
            r.queued_lines == 0,
            r.queued_bytes == 0,
            r.queue_max_lines == 0,
            r.queue_max_bytes == 0,
            r.stored_lines == 0,
            r.stored_bytes == 0,
            r.max_total_bytes == 0,
            r.retention_seconds == 0,
            r.flush_interval_ms == 0,
            r.last_flush_lag_us is None,
            r.last_flush_at is None,
            r.last_retention_at is None,
            r.lines_written == 0,
            r.bytes_written == 0,
            r.lines_truncated == 0,
            r.marker_lines == 0,
            r.lines_dropped is None,
            r.flushes == 0,
            r.flush_failures == 0,
            r.retention_deleted_lines is None,
            r.retention_deleted_invocations == 0,
            r.retention_skipped_non_terminal == 0,
    {
        LogStoreStatus {
            backend: "memory",
            durable: false,
            healthy: true,
            path: None,
            last_error: None,
            queued_lines: 0,
            queued_bytes: 0,
            queue_max_lines: 0,
            queue_max_bytes: 0,
            stored_lines: 0,
            stored_bytes: 0,
            max_total_bytes: 0,
            retention_seconds: 0,
            flush_interval_ms: 0,
            last_flush_lag_us: None,
            last_flush_at: None,
            last_retention_at: None,
            lines_written: 0,
            bytes_written: 0,
            lines_truncated: 0,
            marker_lines: 0,
            lines_dropped: None,
            flushes: 0,
            flush_failures: 0,
            retention_deleted_lines: None,
            retention_deleted_invocations: 0,
            retention_skipped_non_terminal: 0,
        }
    }

    /// The status of the durable store.
    pub fn durable(
        path: &str,
        settings: &Settings,
        queued_lines: usize,
        queued_bytes: u64,
        counters: &Counters,
        health: &Health,
    ) -> (r: Self)
        ensures
            r.backend@ == "sqlite"@,
            r.durable,
            r.healthy == (health.writer_open && !health.last_flush_failed),
            text::opt_view(r.path) == Some(path@),
            r.last_error == health.last_error,
            r.queued_lines == queued_lines,
            r.queued_bytes == queued_bytes,
            r.queue_max_lines == settings.queue_max_lines,
            r.queue_max_bytes == settings.queue_max_bytes,
            r.stored_lines == counters.stored_lines,
            r.stored_bytes == counters.stored_bytes,
            r.max_total_bytes == settings.max_total_bytes,
            r.retention_seconds == settings.retention_seconds,
            r.flush_interval_ms == settings.flush_interval_ms,
            r.last_flush_lag_us == if counters.flushes > 0 {
                Some(counters.last_flush_lag_us)
            } else {
                None
            },
            r.last_flush_at == health.last_flush_at,
            r.last_retention_at == health.last_retention_at,
            r.lines_written == counters.written_lines,
            r.bytes_written == counters.written_bytes,
            r.lines_truncated == counters.truncated_lines,
            r.marker_lines == counters.markers,
            r.lines_dropped == Some(counters.dropped),
            r.flushes == counters.flushes,
            r.flush_failures == counters.flush_failures,
            r.retention_deleted_lines == Some(
                (counters.retention_age_lines, counters.retention_size_lines),
            ),
            r.retention_deleted_invocations == counters.retention_invocations,
            r.retention_skipped_non_terminal == counters.retention_skipped_non_terminal,
    {
        LogStoreStatus {
            backend: "sqlite",
            durable: true,
            healthy: health.writer_open && !health.last_flush_failed,
            path: Some(text::owned(path)),
            last_error: text::clone_opt(&health.last_error),
            queued_lines: queued_lines as u64,
            queued_bytes,
            queue_max_lines: settings.queue_max_lines as u64,
            queue_max_bytes: settings.queue_max_bytes,
            stored_lines: counters.stored_lines,
            stored_bytes: counters.stored_bytes,
            max_total_bytes: settings.max_total_bytes,
            retention_seconds: settings.retention_seconds,
            flush_interval_ms: settings.flush_interval_ms,
            last_flush_lag_us: if counters.flushes > 0 {
                Some(counters.last_flush_lag_us)
            } else {
                None
            },
            last_flush_at: health.last_flush_at,
            last_retention_at: health.last_retention_at,
            lines_written: counters.written_lines,
            bytes_written: counters.written_bytes,
            lines_truncated: counters.truncated_lines,
            marker_lines: counters.markers,
            lines_dropped: Some(counters.dropped),
            flushes: counters.flushes,
            flush_failures: counters.flush_failures,
            retention_deleted_lines: Some(
                (counters.retention_age_lines, counters.retention_size_lines),
            ),
            retention_deleted_invocations: counters.retention_invocations,
            retention_skipped_non_terminal: counters.retention_skipped_non_terminal,
        }
    }
}

} // verus!
