//! The ledger in SQLite: what every transaction decides and what it writes
//! into the columns beside the stored documents.

use vstd::prelude::*;

use crate::domain::function::Function;
use crate::domain::invocation::{Invocation, PayloadRef};
use crate::repository::guard;
use crate::repository::{IdempotencyBinding, RepoError, RepoErrorView};
use crate::text;
use crate::time;
use crate::time::{Span, Timestamp};

pub mod delivery_laws;
pub mod dispatch;
pub mod dispatch_laws;
pub mod import;
pub mod migrations;
pub mod outbox;
pub mod outputs;
pub mod publication;
pub mod row_laws;
pub mod rows;
pub mod triggers;

verus! {

/// Largest number a signed 64-bit column holds.
pub const BIGINT_MAX: u64 = 9_223_372_036_854_775_807;

/// A number no column holds.
pub open spec fn too_big(what: Seq<char>, v: nat) -> RepoErrorView {
    RepoErrorView::Refused(what + " "@ + text::dec(v) + " does not fit a BIGINT"@)
}

/// The column of a counter.
pub open spec fn big_rule(v: u64, what: Seq<char>) -> Result<i64, RepoErrorView> {
    if v <= BIGINT_MAX {
        Ok(v as i64)
    } else {
        Err(too_big(what, v as nat))
    }
}

/// The column of a counter.
pub fn big(v: u64, what: &str) -> (r: Result<i64, RepoError>)
    ensures
        crate::repository::agrees(r, big_rule(v, what@)),
{
    if v <= BIGINT_MAX {
        Ok(v as i64)
    } else {
        let mut m = text::owned(what);
        m.append(" ");
        text::push_u64(&mut m, v);
        m.append(" does not fit a BIGINT");
        Err(RepoError::Refused(m))
    }
}

/// The signed number with the same bits.
pub open spec fn spec_bits(v: u64) -> int {
    if v <= BIGINT_MAX {
        v as int
    } else {
        v - 0x1_0000_0000_0000_0000
    }
}

/// The column of an opaque 64-bit value: stored bit for bit, so that equality
/// survives the signed column. A counter goes through [`big`] instead.
pub fn bits(v: u64) -> (r: i64)
    ensures
        r as int == spec_bits(v),
{
    if v <= BIGINT_MAX {
        v as i64
    } else {
        -((u64::MAX - v) as i64) - 1
    }
}

/// The unsigned number with the same bits.
pub open spec fn spec_unsigned(v: i64) -> int {
    if v >= 0 {
        v as int
    } else {
        v + 0x1_0000_0000_0000_0000
    }
}

/// The unsigned number with the same bits.
pub fn unsigned(v: i64) -> (r: u64)
    ensures
        r as int == spec_unsigned(v),
{
    if v >= 0 {
        v as u64
    } else {
        u64::MAX - (-(v + 1)) as u64
    }
}

/// A value stored bit for bit is read back, and two values share a column
/// only if they are equal.
pub proof fn law_bits_are_read_back(a: u64, b: u64)
    ensures
        i64::MIN <= spec_bits(a) <= i64::MAX,
        spec_unsigned(spec_bits(a) as i64) == a,
        spec_bits(a) == spec_bits(b) ==> a == b,
{
}

/// The column of a flag.
pub fn flag(b: bool) -> (r: i64)
    ensures
        r == if b { 1int } else { 0 },
{
    if b {
        1
    } else {
        0
    }
}

/// How long finished invocations keep what they hold.
#[derive(Debug, Clone, Copy, PartialEq, Eq, Structural)]
pub struct SqliteOptions {
    /// How long an inline output is kept after the invocation finished. After
    /// that the body is replaced by its digest. `None` keeps it for as long
    /// as the row exists.
    pub output_retention: Option<Span>,
    /// How long an idempotency key keeps answering after its invocation
    /// finished. `None` keeps it for as long as the row exists.
    pub idempotency_retention: Option<Span>,
}

impl Default for SqliteOptions {
    fn default() -> (r: Self)
        ensures
            r == (SqliteOptions { output_retention: None, idempotency_retention: None }),
    {
        SqliteOptions { output_retention: None, idempotency_retention: None }
    }
}

/// Rows a restart changed.
#[derive(Debug, Clone, Copy, PartialEq, Eq, Structural)]
pub struct Settled {
    pub invocations: usize,
    pub attempts: usize,
    pub environments: usize,
    pub leases: usize,
    pub idempotency_dropped: usize,
    /// Expired idempotency bindings purged on open.
    pub idempotency_purged: usize,
}

impl Default for Settled {
    fn default() -> (r: Self)
        ensures
            r == (Settled {
                invocations: 0,
                attempts: 0,
                environments: 0,
                leases: 0,
                idempotency_dropped: 0,
                idempotency_purged: 0,
            }),
    {
        Settled {
            invocations: 0,
            attempts: 0,
            environments: 0,
            leases: 0,
            idempotency_dropped: 0,
            idempotency_purged: 0,
        }
    }
}

/// What opening the store did.
#[derive(Debug, PartialEq, Eq)]
pub struct OpenReport {
    pub schema_version: i64,
    pub migrations_applied: Vec<i64>,
    /// Where an imported ledger file was moved.
    pub imported_state_json: Option<String>,
    pub settled: Settled,
    pub outputs_purged: usize,
}

/// Name of how an output is kept.
pub open spec fn spec_output_kind(inv: Invocation) -> Option<Seq<char>> {
    match inv.output {
        Some(PayloadRef::Inline { .. }) => Some("inline"@),
        Some(PayloadRef::Digest { .. }) => Some("digest"@),
        None => None,
    }
}

/// Name of how an output is kept.
pub fn output_kind(inv: &Invocation) -> (r: Option<&'static str>)
    ensures
        match r {
            Some(k) => spec_output_kind(*inv) == Some(k@),
            None => spec_output_kind(*inv) is None,
        },
{
    match &inv.output {
        Some(PayloadRef::Inline { .. }) => Some("inline"),
        Some(PayloadRef::Digest { .. }) => Some("digest"),
        None => None,
    }
}

/// When a finished invocation ended.
pub open spec fn finished(inv: Invocation) -> Timestamp {
    match inv.finished_at {
        Some(t) => t,
        None => inv.accepted_at,
    }
}

/// When a binding of `inv` stops answering: `retention` after its end once
/// the invocation is terminal, never while it is in flight.
pub open spec fn binding_expiry(inv: Invocation, retention: Option<Span>) -> Option<Timestamp> {
    if retention is Some && inv.status.terminal() {
        Some(time::after(finished(inv), retention->0))
    } else {
        None
    }
}

/// When the inline output of `inv` is replaced by its digest.
pub open spec fn output_expiry(inv: Invocation, retention: Option<Span>) -> Option<Timestamp> {
    if retention is Some && inv.status.terminal() && inv.output is Some && inv.output->0 is Inline {
        Some(time::after(finished(inv), retention->0))
    } else {
        None
    }
}

/// A date can name the end of every retention of `inv`.
pub open spec fn retained(inv: Invocation, retention: Option<Span>) -> bool {
    retention is Some ==> time::in_reach(finished(inv), retention->0)
}

fn end_of(inv: &Invocation) -> (r: Timestamp)
    ensures
        r == finished(*inv),
{
    match inv.finished_at {
        Some(t) => t,
        None => inv.accepted_at,
    }
}

/// When a binding of `inv` stops answering.
pub fn idempotency_expires_at(inv: &Invocation, retention: Option<Span>) -> (r: Option<Timestamp>)
    requires
        retained(*inv, retention),
    ensures
        r == binding_expiry(*inv, retention),
{
    match retention {
        Some(span) => if inv.status.is_terminal() {
            Some(time::plus(end_of(inv), span))
        } else {
            None
        },
        None => None,
    }
}

/// When the inline output of `inv` is replaced by its digest.
pub fn output_expires_at(inv: &Invocation, retention: Option<Span>) -> (r: Option<Timestamp>)
    requires
        retained(*inv, retention),
    ensures
        r == output_expiry(*inv, retention),
{
    match (retention, &inv.output) {
        (Some(span), Some(PayloadRef::Inline { .. })) => if inv.status.is_terminal() {
            Some(time::plus(end_of(inv), span))
        } else {
            None
        },
        _ => None,
    }
}

/// What a failure of the database means.
pub open spec fn failure_of(constraint: bool, words: Seq<char>) -> RepoErrorView {
    if constraint {
        RepoErrorView::Conflict(words)
    } else {
        RepoErrorView::Store(words)
    }
}

/// What a failure of the database means: a violated constraint is a conflict,
/// everything else is the store's own.
pub fn failure(constraint: bool, message: String) -> (r: RepoError)
    ensures
        r@ == failure_of(constraint, message@),
{
    if constraint {
        RepoError::Conflict(message)
    } else {
        RepoError::Store(message)
    }
}

/// A row that exists already.
pub open spec fn duplicate_row(kind: Seq<char>, id: Seq<char>) -> RepoErrorView {
    RepoErrorView::Conflict(kind + " "@ + id + " already exists"@)
}

/// A row that exists already.
pub fn duplicate(kind: &str, id: &str) -> (r: RepoError)
    ensures
        r@ == duplicate_row(kind@, id@),
{
    let mut m = text::owned(kind);
    m.append(" ");
    m.append(id);
    m.append(" already exists");
    RepoError::Conflict(m)
}

/// A row somebody else wrote meanwhile.
pub open spec fn lost_row(kind: Seq<char>, id: Seq<char>) -> RepoErrorView {
    RepoErrorView::Refused(kind + " "@ + id + " changed concurrently"@)
}

/// A row somebody else wrote meanwhile.
pub fn lost_race(kind: &str, id: &str) -> (r: RepoError)
    ensures
        r@ == lost_row(kind@, id@),
{
    let mut m = text::owned(kind);
    m.append(" ");
    m.append(id);
    m.append(" changed concurrently");
    RepoError::Refused(m)
}

/// What a compare-and-set that wrote `n` rows comes to.
pub open spec fn one_row_rule(n: usize, kind: Seq<char>, id: Seq<char>) -> Result<
    (),
    RepoErrorView,
> {
    if n == 1 {
        Ok(())
    } else {
        Err(lost_row(kind, id))
    }
}

/// What a compare-and-set that wrote `n` rows comes to: exactly one row, or
/// somebody else won.
pub fn one_row(n: usize, kind: &str, id: &str) -> (r: Result<(), RepoError>)
    ensures
        crate::repository::agrees(r, one_row_rule(n, kind@, id@)),
{
    if n == 1 {
        Ok(())
    } else {
        Err(lost_race(kind, id))
    }
}

/// A row that is not there.
pub open spec fn missing_row(kind: Seq<char>, id: Seq<char>) -> RepoErrorView {
    RepoErrorView::NotFound(kind + " "@ + id)
}

/// A row that is not there.
pub fn missing(kind: &str, id: &str) -> (r: RepoError)
    ensures
        r@ == missing_row(kind@, id@),
{
    let mut m = text::owned(kind);
    m.append(" ");
    m.append(id);
    RepoError::NotFound(m)
}

/// Whether a new invocation may be written: no row has its id, and its
/// function takes it.
pub open spec fn insert_rule(
    exists: bool,
    function: Option<&Function>,
    inv: Invocation,
    max_inline: u64,
) -> Result<(), RepoErrorView> {
    if exists {
        Err(duplicate_row("invocation"@, inv.id@))
    } else {
        guard::invocation_insert_rule(function, inv, max_inline)
    }
}

/// Whether a new invocation may be written.
pub fn insert_invocation_checked(
    exists: bool,
    function: Option<&Function>,
    inv: &Invocation,
    max_inline: u64,
) -> (r: Result<(), RepoError>)
    ensures
        crate::repository::agrees(r, insert_rule(exists, function, *inv, max_inline)),
{
    if exists {
        return Err(duplicate("invocation", inv.id.as_str()));
    }
    guard::invocation_insert(function, inv, max_inline)
}

/// A binding answers at `now`.
pub open spec fn answers(binding: IdempotencyBinding, now: Timestamp) -> bool {
    binding.expires_at is None || binding.expires_at->0 > now
}

/// The binding that answers for a key at `now`: its invocation exists and it
/// has not expired.
pub open spec fn live_rule(
    binding: Option<IdempotencyBinding>,
    exists: bool,
    now: Timestamp,
) -> Option<IdempotencyBinding> {
    if binding is Some && exists && answers(binding->0, now) {
        binding
    } else {
        None
    }
}

/// The binding that answers for a key at `now`.
pub fn live_binding(
    binding: Option<IdempotencyBinding>,
    exists: bool,
    now: Timestamp,
) -> (r: Option<IdempotencyBinding>)
    ensures
        r == live_rule(binding, exists, now),
{
    match binding {
        Some(b) => {
            let answering = match b.expires_at {
                Some(t) => t > now,
                None => true,
            };
            if exists && answering {
                Some(b)
            } else {
                None
            }
        },
        None => None,
    }
}

} // verus!
