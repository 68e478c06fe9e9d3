//! Bounded invocation logs.
//!
//! Lines are appended to a bounded queue without waiting for storage. A
//! writer commits the queue in batches, enforces the caps per invocation and
//! per attempt, and runs retention by age and by total size.

use vstd::prelude::*;

use crate::text;
use crate::time;

pub mod flush;
pub mod laws;
pub mod queue;
pub mod read;
pub mod retention;
pub mod rows;
pub mod setting_laws;
pub mod step_laws;
pub mod store;
pub mod upkeep_laws;

verus! {

/// `[logs]`: retention, size cap, caps per attempt and the writer queue.
#[derive(Debug, Clone, Copy)]
pub struct LogsConfig {
    /// Seconds the lines of an invocation are kept after its last line.
    /// `0` keeps them until the size cap removes them.
    pub retention_seconds: u64,
    /// Line bytes (the text of every stored line, markers included) above
    /// which the retention pass deletes the oldest terminal invocations'
    /// logs. `0` disables the size cap.
    pub max_total_bytes: u64,
    /// Lines one attempt may store. Defaults to the cap per invocation.
    pub max_lines_per_attempt: Option<u32>,
    /// Line bytes one attempt may store. Defaults to the cap per invocation.
    pub max_bytes_per_attempt: Option<u64>,
    /// The writer commits whatever is queued at least this often.
    pub flush_interval_ms: u64,
    /// The writer commits early once this many lines are queued.
    pub flush_max_lines: usize,
    /// Lines the queue holds before new lines are dropped (and counted).
    pub queue_max_lines: usize,
    /// Line bytes the queue holds before new lines are dropped.
    pub queue_max_bytes: u64,
    /// Seconds between two retention passes of the writer.
    pub retention_interval_seconds: u64,
    /// How long a read waits for the lines queued before it to be committed.
    pub read_flush_wait_ms: u64,
}

impl Default for LogsConfig {
    fn default() -> (r: Self)
        ensures
            r.retention_seconds == 604_800,
            r.max_total_bytes == 1_073_741_824,
            r.max_lines_per_attempt is None,
            r.max_bytes_per_attempt is None,
            r.flush_interval_ms == 200,
            r.flush_max_lines == 1000,
            r.queue_max_lines == 20_000,
            r.queue_max_bytes == 16_777_216,
            r.retention_interval_seconds == 60,
            r.read_flush_wait_ms == 1000,
    {
        LogsConfig {
            retention_seconds: 7 * 24 * 60 * 60,
            max_total_bytes: 1024 * 1024 * 1024,
            max_lines_per_attempt: None,
            max_bytes_per_attempt: None,
            flush_interval_ms: 200,
            flush_max_lines: 1000,
            queue_max_lines: 20_000,
            queue_max_bytes: 16 * 1024 * 1024,
            retention_interval_seconds: 60,
            read_flush_wait_ms: 1000,
        }
    }
}

impl LogsConfig {
    /// What is wrong with the section, if anything: the first rule it breaks.
    pub open spec fn problem(&self) -> Option<Seq<char>> {
        if !(1 <= self.flush_interval_ms <= 60_000) {
            Some("[logs] flush_interval_ms must be within 1..=60000"@)
        } else if self.flush_max_lines == 0 || self.queue_max_lines == 0 {
            Some("[logs] flush_max_lines and queue_max_lines must be >= 1"@)
        } else if self.queue_max_bytes < 65536 {
            Some("[logs] queue_max_bytes must be >= 65536"@)
        } else if self.retention_interval_seconds == 0 {
            Some("[logs] retention_interval_seconds must be >= 1"@)
        } else if self.read_flush_wait_ms > 30_000 {
            Some("[logs] read_flush_wait_ms must be <= 30000"@)
        } else if self.max_lines_per_attempt == Some(0u32) || self.max_bytes_per_attempt == Some(0u64) {
            Some("[logs] max_lines_per_attempt and max_bytes_per_attempt must be >= 1"@)
        } else {
            None
        }
    }

    /// Refuse a section that breaks a rule, with the first rule it breaks.
    pub fn validate(&self) -> (r: Result<(), String>)
        ensures
            match r {
                Ok(_) => self.problem() is None,
                Err(e) => self.problem() == Some(e@),
            },
    {
        if self.flush_interval_ms < 1 || self.flush_interval_ms > 60_000 {
            return Err(text::owned("[logs] flush_interval_ms must be within 1..=60000"));
        }
        if self.flush_max_lines == 0 || self.queue_max_lines == 0 {
            return Err(text::owned("[logs] flush_max_lines and queue_max_lines must be >= 1"));
        }
        if self.queue_max_bytes < 64 * 1024 {
            return Err(text::owned("[logs] queue_max_bytes must be >= 65536"));
        }
        if self.retention_interval_seconds == 0 {
            return Err(text::owned("[logs] retention_interval_seconds must be >= 1"));
        }
        if self.read_flush_wait_ms > 30_000 {
            return Err(text::owned("[logs] read_flush_wait_ms must be <= 30000"));
        }
        let no_lines = match self.max_lines_per_attempt {
            Some(n) => n == 0,
            None => false,
        };
        let no_bytes = match self.max_bytes_per_attempt {
            Some(n) => n == 0,
            None => false,
        };
        if no_lines || no_bytes {
            return Err(
                text::owned(
                    "[logs] max_lines_per_attempt and max_bytes_per_attempt must be >= 1",
                ),
            );
        }
        Ok(())
    }

    /// How often the writer commits at least.
    pub fn flush_interval(&self) -> (r: core::time::Duration)
        ensures
            r == time::duration_of_millis(self.flush_interval_ms),
    {
        core::time::Duration::from_millis(self.flush_interval_ms)
    }

    /// Time between two retention passes.
    pub fn retention_interval(&self) -> (r: core::time::Duration)
        ensures
            r == time::duration_of_secs(self.retention_interval_seconds),
    {
        core::time::Duration::from_secs(self.retention_interval_seconds)
    }

    /// How long a read waits for queued lines.
    pub fn read_flush_wait(&self) -> (r: core::time::Duration)
        ensures
            r == time::duration_of_millis(self.read_flush_wait_ms),
    {
        core::time::Duration::from_millis(self.read_flush_wait_ms)
    }
}

} // verus!
