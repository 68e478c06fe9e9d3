//! The entities of the ledger, as plain values.

use vstd::prelude::*;

pub mod environment;
pub mod function;
pub mod invocation;
pub mod log;

verus! {

/// Whether two optional times are the same.
pub fn same_time(a: Option<i128>, b: Option<i128>) -> (r: bool)
    ensures
        r == (a == b),
{
    match (a, b) {
        (Some(x), Some(y)) => x == y,
        (None, None) => true,
        _ => false,
    }
}

/// Whether two optional numbers are the same.
pub fn same_u16(a: Option<u16>, b: Option<u16>) -> (r: bool)
    ensures
        r == (a == b),
{
    match (a, b) {
        (Some(x), Some(y)) => x == y,
        (None, None) => true,
        _ => false,
    }
}

/// Whether two optional numbers are the same.
pub fn same_u64(a: Option<u64>, b: Option<u64>) -> (r: bool)
    ensures
        r == (a == b),
{
    match (a, b) {
        (Some(x), Some(y)) => x == y,
        (None, None) => true,
        _ => false,
    }
}

/// Bounds on what the ledger and the log store accept.
#[derive(Debug, Clone, Copy, PartialEq, Eq, Structural)]
pub struct Limits {
    /// Bytes of one inline response body.
    pub max_response_bytes: u64,
    /// Bytes of one log line.
    pub max_log_line_bytes: usize,
    /// Log lines of one invocation.
    pub max_log_lines_per_invocation: u32,
    /// Log line bytes of one invocation.
    pub max_log_bytes_per_invocation: u64,
}

} // verus!
