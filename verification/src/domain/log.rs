//! Log lines.

use vstd::prelude::*;

use crate::text;
use crate::time::Timestamp;

verus! {

/// Where a line was written to.
#[derive(Debug, Clone, Copy, PartialEq, Eq, Structural)]
pub enum LogStream {
    Stdout,
    Stderr,
    Platform,
}

/// What the environment was doing when the line was written.
#[derive(Debug, Clone, Copy, PartialEq, Eq, Structural)]
pub enum LogPhase {
    Boot,
    Init,
    Handler,
    Shutdown,
}

/// One log line.
#[derive(Debug, PartialEq, Eq)]
pub struct LogRecord {
    pub tenant_id: String,
    pub environment_id: String,
    pub invocation_id: Option<String>,
    pub attempt_id: Option<String>,
    pub stream: LogStream,
    pub phase: LogPhase,
    pub timestamp: Timestamp,
    pub line: String,
    pub truncated: bool,
}

/// Content of a log line.
pub ghost struct LogRecordView {
    pub tenant_id: Seq<char>,
    pub environment_id: Seq<char>,
    pub invocation_id: Option<Seq<char>>,
    pub attempt_id: Option<Seq<char>>,
    pub stream: LogStream,
    pub phase: LogPhase,
    pub timestamp: Timestamp,
    pub line: Seq<char>,
    pub truncated: bool,
}

impl View for LogRecord {
    type V = LogRecordView;

    open spec fn view(&self) -> LogRecordView {
        LogRecordView {
            tenant_id: self.tenant_id@,
            environment_id: self.environment_id@,
            invocation_id: text::opt_view(self.invocation_id),
            attempt_id: text::opt_view(self.attempt_id),
            stream: self.stream,
            phase: self.phase,
            timestamp: self.timestamp,
            line: self.line@,
            truncated: self.truncated,
        }
    }
}

impl Clone for LogRecord {
    fn clone(&self) -> (r: Self)
        ensures
            r == *self,
    {
        LogRecord {
            tenant_id: self.tenant_id.clone(),
            environment_id: self.environment_id.clone(),
            invocation_id: text::clone_opt(&self.invocation_id),
            attempt_id: text::clone_opt(&self.attempt_id),
            stream: self.stream,
            phase: self.phase,
            timestamp: self.timestamp,
            line: self.line.clone(),
            truncated: self.truncated,
        }
    }
}

impl LogRecord {
    /// `line` cut to `max` bytes, and whether anything was cut off.
    pub fn bounded_line(line: &str, max: usize) -> (r: (String, bool))
        ensures
            r.0@ == text::cut_text(line@, max as nat),
            r.1 == (vstd::utf8::encode_utf8(line@).len() > max),
    {
        (text::truncate(line, max), text::byte_len(line) > max)
    }
}

} // verus!
