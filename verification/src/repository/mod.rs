//! The repositories of the ledger.

use vstd::prelude::*;

use crate::domain::log::LogRecord;
use crate::text;
use crate::time::Timestamp;

pub mod config;
pub mod dispatch;
pub mod guard;
pub mod guard_laws;
pub mod laws;
pub mod logs;
pub mod memory;
pub mod objects;
pub mod outbox;
pub mod reconcile;
pub mod restart;
pub mod slot;
pub mod slot_laws;
pub mod slots;
pub mod sqlite;
pub mod store_laws;
pub mod triggers;

verus! {

/// Why a repository did not do what it was asked for.
#[derive(Debug, PartialEq, Eq)]
pub enum RepoError {
    NotFound(String),
    /// The row already exists (duplicate id or unique key).
    Conflict(String),
    /// The write would break a row invariant: crossing a tenant, changing an
    /// identity field, rewriting a terminal row or writing a stale copy.
    Refused(String),
    /// A file could not be read or written.
    Io(String),
    Serialization(String),
    /// The database failed (not a constraint the caller can act on).
    Store(String),
}

/// Content of an error.
pub ghost enum RepoErrorView {
    NotFound(Seq<char>),
    Conflict(Seq<char>),
    Refused(Seq<char>),
    Io(Seq<char>),
    Serialization(Seq<char>),
    Store(Seq<char>),
}

impl View for RepoError {
    type V = RepoErrorView;

    open spec fn view(&self) -> RepoErrorView {
        match self {
            RepoError::NotFound(m) => RepoErrorView::NotFound(m@),
            RepoError::Conflict(m) => RepoErrorView::Conflict(m@),
            RepoError::Refused(m) => RepoErrorView::Refused(m@),
            RepoError::Io(m) => RepoErrorView::Io(m@),
            RepoError::Serialization(m) => RepoErrorView::Serialization(m@),
            RepoError::Store(m) => RepoErrorView::Store(m@),
        }
    }
}

impl RepoErrorView {
    /// The words an error is shown with.
    pub open spec fn message(self) -> Seq<char> {
        match self {
            RepoErrorView::NotFound(m) => m + " not found"@,
            RepoErrorView::Conflict(m) => "conflict: "@ + m,
            RepoErrorView::Refused(m) => "refused: "@ + m,
            RepoErrorView::Io(m) => "io: "@ + m,
            RepoErrorView::Serialization(m) => "serialization: "@ + m,
            RepoErrorView::Store(m) => "store: "@ + m,
        }
    }
}

impl RepoError {
    /// The words the error is shown with.
    pub fn message(&self) -> (r: String)
        ensures
            r@ == self@.message(),
    {
        match self {
            RepoError::NotFound(m) => {
                let mut s = text::owned(m.as_str());
                s.append(" not found");
                s
            },
            RepoError::Conflict(m) => labelled("conflict: ", m),
            RepoError::Refused(m) => labelled("refused: ", m),
            RepoError::Io(m) => labelled("io: ", m),
            RepoError::Serialization(m) => labelled("serialization: ", m),
            RepoError::Store(m) => labelled("store: ", m),
        }
    }
}

fn labelled(label: &str, m: &String) -> (r: String)
    ensures
        r@ == label@ + m@,
{
    let mut s = text::owned(label);
    s.append(m.as_str());
    s
}

/// A result says what is wanted of it.
pub open spec fn agrees<T>(r: Result<T, RepoError>, want: Result<T, RepoErrorView>) -> bool {
    match r {
        Ok(v) => want == Ok::<T, RepoErrorView>(v),
        Err(e) => want == Err::<T, RepoErrorView>(e@),
    }
}

/// What became of an appended log line.
#[derive(Debug, Clone, Copy, PartialEq, Eq, Structural)]
pub enum AppendOutcome {
    Stored,
    Dropped,
}

/// The lines of one invocation.
#[derive(Debug, PartialEq, Eq)]
pub struct LogQuery {
    pub records: Vec<LogRecord>,
    /// At least one line was dropped.
    pub dropped: bool,
}

/// Caps the pool enforces when an environment is released back into it.
#[derive(Debug, Clone, Copy, PartialEq, Eq, Structural)]
pub struct PoolLimits {
    /// Idle environments kept per reuse key.
    pub max_idle_per_key: usize,
    /// Idle environments kept across every reuse key.
    pub max_total_idle: usize,
}

/// An idempotency key bound to an invocation that exists in the ledger.
#[derive(Debug, PartialEq, Eq)]
pub struct IdempotencyBinding {
    pub invocation_id: String,
    pub input_digest: String,
    /// When the binding stops answering. `None` while the invocation is in
    /// flight or when retention is unlimited.
    pub expires_at: Option<Timestamp>,
}

impl Clone for IdempotencyBinding {
    fn clone(&self) -> (r: Self)
        ensures
            r == *self,
    {
        IdempotencyBinding {
            invocation_id: self.invocation_id.clone(),
            input_digest: self.input_digest.clone(),
            expires_at: self.expires_at,
        }
    }
}

/// How inserting an invocation with a key ended.
#[derive(Debug, PartialEq, Eq)]
pub enum IdempotencyOutcome {
    /// The invocation was inserted and its key (if any) is now bound to it.
    Inserted,
    /// The key is already bound to another invocation; nothing was inserted.
    Existing(IdempotencyBinding),
}

} // verus!
