//! The ledger's rows: the columns beside each stored document, and what every
//! insert and update decides from the rows it read.

use vstd::prelude::*;

use crate::domain::environment::{ExecutionEnvironment, ExecutionLease, ReuseKey};
use crate::domain::function::{Function, FunctionAlias, FunctionRevision};
use crate::domain::invocation::{Invocation, InvocationAttempt};
use crate::repository::guard;
use crate::repository::guard::Write;
use crate::repository::sqlite;
use crate::repository::sqlite::SqliteOptions;
use crate::repository::{IdempotencyBinding, RepoError, RepoErrorView};
use crate::text;
use crate::time;

verus! {

// ---------------------------------------------------------------------------
// functions
// ---------------------------------------------------------------------------
/// The columns of a function.
#[derive(Debug, PartialEq, Eq)]
pub struct FunctionColumns {
    pub id: String,
    pub tenant_id: String,
    pub name: String,
    /// The name while the function is not deleted: unique per tenant.
    pub live_name: Option<String>,
    pub created_at: String,
}

/// The name a function occupies.
pub open spec fn live_name(f: Function) -> Option<Seq<char>> {
    if f.deleted() {
        None
    } else {
        Some(f.name@)
    }
}

/// The columns of `f`.
pub open spec fn is_function_row(c: FunctionColumns, f: Function) -> bool {
    &&& c.id@ == f.id@
    &&& c.tenant_id@ == f.tenant_id@
    &&& c.name@ == f.name@
    &&& text::opt_view(c.live_name) == live_name(f)
    &&& c.created_at@ == time::ts_text(f.created_at)
}

/// The columns of a function.
pub fn function_columns(f: &Function) -> (r: FunctionColumns)
    requires
        time::in_calendar(f.created_at),
    ensures
        is_function_row(r, *f),
{
    FunctionColumns {
        id: f.id.clone(),
        tenant_id: f.tenant_id.clone(),
        name: f.name.clone(),
        live_name: if f.is_deleted() {
            None
        } else {
            Some(f.name.clone())
        },
        created_at: time::ts(&f.created_at),
    }
}

/// Whether a new function may be written: no row has its id, and no live
/// function of the tenant has its name.
pub open spec fn function_insert_rule(exists: bool, name_taken: bool, f: Function) -> Result<
    (),
    RepoErrorView,
> {
    if exists {
        Err(sqlite::duplicate_row("function"@, f.id@))
    } else if !f.deleted() && name_taken {
        Err(RepoErrorView::Conflict("function name `"@ + f.name@ + "` already exists"@))
    } else {
        Ok(())
    }
}

/// Whether a new function may be written.
pub fn insert_function(exists: bool, name_taken: bool, f: &Function) -> (r: Result<(), RepoError>)
    ensures
        crate::repository::agrees(r, function_insert_rule(exists, name_taken, *f)),
{
    if exists {
        return Err(sqlite::duplicate("function", f.id.as_str()));
    }
    if !f.is_deleted() && name_taken {
        let mut m = text::owned("function name `");
        m.append(f.name.as_str());
        m.append("` already exists");
        return Err(RepoError::Conflict(m));
    }
    Ok(())
}

/// What updating a function comes to.
pub open spec fn function_update_rule(old: Option<&Function>, f: Function) -> Result<
    Write,
    RepoErrorView,
> {
    match old {
        Some(o) => guard::function_rule(*o, f),
        None => Err(sqlite::missing_row("function"@, f.id@)),
    }
}

/// What updating a function comes to.
pub fn update_function(old: Option<&Function>, f: &Function) -> (r: Result<Write, RepoError>)
    ensures
        crate::repository::agrees(r, function_update_rule(old, *f)),
{
    match old {
        Some(o) => guard::function_update(o, f),
        None => Err(sqlite::missing("function", f.id.as_str())),
    }
}

// ---------------------------------------------------------------------------
// revisions
// ---------------------------------------------------------------------------
/// The columns of a revision.
#[derive(Debug, PartialEq, Eq)]
pub struct RevisionColumns {
    pub id: String,
    pub function_id: String,
    pub tenant_id: String,
    pub number: i64,
    pub status: &'static str,
    pub spec_digest: String,
    pub created_at: String,
}

/// The columns of `v`.
pub open spec fn is_revision_row(c: RevisionColumns, v: FunctionRevision) -> bool {
    &&& c.id@ == v.id@
    &&& c.function_id@ == v.function_id@
    &&& c.tenant_id@ == v.tenant_id@
    &&& c.number == v.number
    &&& c.status@ == v.status.spec_name()
    &&& c.spec_digest@ == v.spec_digest@
    &&& c.created_at@ == time::ts_text(v.created_at)
}

/// The columns of a revision.
pub fn revision_columns(v: &FunctionRevision) -> (r: Result<RevisionColumns, RepoError>)
    requires
        time::in_calendar(v.created_at),
    ensures
        match r {
            Ok(c) => is_revision_row(c, *v),
            Err(e) => v.number > sqlite::BIGINT_MAX && e@ == sqlite::too_big(
                "revision number"@,
                v.number as nat,
            ),
        },
{
    let number: i64 = match sqlite::big(v.number, "revision number") {
        Ok(n) => n,
        Err(e) => return Err(e),
    };
    Ok(
        RevisionColumns {
            id: v.id.clone(),
            function_id: v.function_id.clone(),
            tenant_id: v.tenant_id.clone(),
            number,
            status: v.status.name(),
            spec_digest: v.spec_digest.clone(),
            created_at: time::ts(&v.created_at),
        },
    )
}

/// Whether a new revision may be written.
pub open spec fn revision_insert_rule(
    exists: bool,
    function: Option<&Function>,
    v: FunctionRevision,
) -> Result<(), RepoErrorView> {
    if exists {
        Err(sqlite::duplicate_row("revision"@, v.id@))
    } else {
        match function {
            Some(f) => guard::tenant_rule("revision"@, v.id@, v.tenant_id@, f.tenant_id@),
            None => Ok(()),
        }
    }
}

/// Whether a new revision may be written.
pub fn insert_revision(
    exists: bool,
    function: Option<&Function>,
    v: &FunctionRevision,
) -> (r: Result<(), RepoError>)
    ensures
        crate::repository::agrees(r, revision_insert_rule(exists, function, *v)),
{
    if exists {
        return Err(sqlite::duplicate("revision", v.id.as_str()));
    }
    guard::revision_insert(function, v)
}

/// A revision whose number is taken.
pub open spec fn number_taken(v: FunctionRevision) -> RepoErrorView {
    RepoErrorView::Conflict(
        "revision number "@ + text::dec(v.number as nat) + " already exists for function "@
            + v.function_id@,
    )
}

/// How a failed insert of a revision is told.
pub open spec fn conflict_told(e: RepoErrorView, v: FunctionRevision) -> RepoErrorView {
    if e is Conflict {
        number_taken(v)
    } else {
        e
    }
}

/// What the failure to write a revision's row means: a constraint that was
/// violated is the number of another revision.
pub fn revision_conflict(e: RepoError, v: &FunctionRevision) -> (r: RepoError)
    ensures
        r@ == conflict_told(e@, *v),
{
    match e {
        RepoError::Conflict(_) => {
            let mut m = text::owned("revision number ");
            text::push_u64(&mut m, v.number);
            m.append(" already exists for function ");
            m.append(v.function_id.as_str());
            RepoError::Conflict(m)
        },
        other => other,
    }
}

/// What updating a revision comes to.
pub open spec fn revision_update_rule(old: Option<&FunctionRevision>, v: FunctionRevision) -> Result<
    Write,
    RepoErrorView,
> {
    match old {
        Some(o) => guard::revision_rule(*o, v),
        None => Err(sqlite::missing_row("revision"@, v.id@)),
    }
}

/// What updating a revision comes to. The row is written only where it still
/// has the status that was read.
pub fn update_revision(old: Option<&FunctionRevision>, v: &FunctionRevision) -> (r: Result<
    Write,
    RepoError,
>)
    ensures
        crate::repository::agrees(r, revision_update_rule(old, *v)),
{
    match old {
        Some(o) => guard::revision_update(o, v),
        None => Err(sqlite::missing("revision", v.id.as_str())),
    }
}

/// The number after the last one.
pub open spec fn number_after(last: Option<i64>) -> int {
    match last {
        Some(n) => n + 1,
        None => 1,
    }
}

/// The number after the last one.
pub fn next_number(last: Option<i64>) -> (r: i64)
    requires
        last is Some ==> last->0 < i64::MAX,
    ensures
        r == number_after(last),
{
    match last {
        Some(n) => n + 1,
        None => 1,
    }
}

/// The number that is handed out once `written` rows of the counter were
/// written.
pub open spec fn number_rule(function: Seq<char>, last: Option<i64>, written: usize) -> Result<
    u64,
    RepoErrorView,
> {
    if last is Some && written != 1 {
        Err(sqlite::lost_row("revision counter of"@, function))
    } else if number_after(last) < 0 {
        Err(RepoErrorView::Store("negative revision counter"@))
    } else {
        Ok(number_after(last) as u64)
    }
}

/// The number that is handed out once `written` rows of the counter were
/// written.
pub fn allocate_number(function: &str, last: Option<i64>, written: usize) -> (r: Result<u64, RepoError>)
    requires
        last is Some ==> last->0 < i64::MAX,
    ensures
        crate::repository::agrees(r, number_rule(function@, last, written)),
{
    if last.is_some() && written != 1 {
        return Err(sqlite::lost_race("revision counter of", function));
    }
    let next: i64 = next_number(last);
    if next < 0 {
        Err(RepoError::Store(text::owned("negative revision counter")))
    } else {
        Ok(next as u64)
    }
}

/// The numbers of a function count up from 1 and none is handed out twice.
pub proof fn law_numbers_count_up(function: Seq<char>, last: i64)
    requires
        1 <= last < i64::MAX,
    ensures
        number_rule(function, None, 1) == Ok::<u64, RepoErrorView>(1),
        number_rule(function, Some(last), 1) == Ok::<u64, RepoErrorView>((last + 1) as u64),
{
}

// ---------------------------------------------------------------------------
// aliases
// ---------------------------------------------------------------------------
/// The columns of an alias.
#[derive(Debug, PartialEq, Eq)]
pub struct AliasColumns {
    pub function_id: String,
    pub name: String,
    pub tenant_id: String,
    pub revision_id: String,
    pub generation: i64,
    pub updated_at: String,
}

/// The columns of `a`.
pub open spec fn is_alias_row(c: AliasColumns, a: FunctionAlias) -> bool {
    &&& c.function_id@ == a.function_id@
    &&& c.name@ == a.name@
    &&& c.tenant_id@ == a.tenant_id@
    &&& c.revision_id@ == a.revision_id@
    &&& c.generation == a.generation
    &&& c.updated_at@ == time::ts_text(a.updated_at)
}

/// The columns of an alias.
pub fn alias_columns(a: &FunctionAlias) -> (r: Result<AliasColumns, RepoError>)
    requires
        time::in_calendar(a.updated_at),
    ensures
        match r {
            Ok(c) => is_alias_row(c, *a),
            Err(e) => a.generation > sqlite::BIGINT_MAX && e@ == sqlite::too_big(
                "alias generation"@,
                a.generation as nat,
            ),
        },
{
    let generation: i64 = match sqlite::big(a.generation, "alias generation") {
        Ok(n) => n,
        Err(e) => return Err(e),
    };
    Ok(
        AliasColumns {
            function_id: a.function_id.clone(),
            name: a.name.clone(),
            tenant_id: a.tenant_id.clone(),
            revision_id: a.revision_id.clone(),
            generation,
            updated_at: time::ts(&a.updated_at),
        },
    )
}

/// Whether a new alias may be written.
pub open spec fn alias_insert_rule(
    exists: bool,
    function: Option<&Function>,
    revision: Option<&FunctionRevision>,
    a: FunctionAlias,
) -> Result<(), RepoErrorView> {
    if exists {
        Err(RepoErrorView::Conflict("alias `"@ + a.name@ + "` already exists"@))
    } else {
        guard::alias_target_rule(function, revision, a)
    }
}

/// Whether a new alias may be written.
pub fn insert_alias(
    exists: bool,
    function: Option<&Function>,
    revision: Option<&FunctionRevision>,
    a: &FunctionAlias,
) -> (r: Result<(), RepoError>)
    ensures
        crate::repository::agrees(r, alias_insert_rule(exists, function, revision, *a)),
{
    if exists {
        let mut m = text::owned("alias `");
        m.append(a.name.as_str());
        m.append("` already exists");
        return Err(RepoError::Conflict(m));
    }
    guard::alias_target(function, revision, a)
}

/// Whether a compare-and-set goes on to write: the alias exists, has the
/// expected generation, and the change and its target are allowed.
pub open spec fn alias_set_rule(
    current: Option<&FunctionAlias>,
    function: Option<&Function>,
    revision: Option<&FunctionRevision>,
    a: FunctionAlias,
    expected: u64,
) -> Result<bool, RepoErrorView> {
    match current {
        None => Err(RepoErrorView::NotFound("alias `"@ + a.name@ + "`"@)),
        Some(c) => if c.generation != expected {
            Ok(false)
        } else {
            match guard::alias_rule(*c, a) {
                Err(e) => Err(e),
                Ok(_) => match guard::alias_target_rule(function, revision, a) {
                    Err(e) => Err(e),
                    Ok(_) => Ok(true),
                },
            }
        },
    }
}

/// Whether a compare-and-set goes on to write. It then writes the row that
/// still has the expected generation; no row written is no change.
pub fn compare_and_set(
    current: Option<&FunctionAlias>,
    function: Option<&Function>,
    revision: Option<&FunctionRevision>,
    a: &FunctionAlias,
    expected: u64,
) -> (r: Result<bool, RepoError>)
    ensures
        crate::repository::agrees(r, alias_set_rule(current, function, revision, *a, expected)),
{
    match current {
        None => {
            let mut m = text::owned("alias `");
            m.append(a.name.as_str());
            m.append("`");
            Err(RepoError::NotFound(m))
        },
        Some(c) => {
            if c.generation != expected {
                return Ok(false);
            }
            match guard::alias_update(c, a) {
                Ok(_) => {},
                Err(e) => return Err(e),
            }
            match guard::alias_target(function, revision, a) {
                Ok(_) => Ok(true),
                Err(e) => Err(e),
            }
        },
    }
}

// ---------------------------------------------------------------------------
// invocations
// ---------------------------------------------------------------------------
/// The columns of an invocation.
#[derive(Debug, PartialEq, Eq)]
pub struct InvocationColumns {
    pub id: String,
    pub tenant_id: String,
    pub function_id: String,
    pub revision_id: String,
    pub status: &'static str,
    pub terminal: i64,
    pub accepted_at: String,
    pub finished_at: Option<String>,
    pub input_digest: String,
    pub output_kind: Option<&'static str>,
    pub output_expires_at: Option<String>,
    pub owner_id: Option<String>,
}

/// Content of an optional name.
pub open spec fn name_view(s: Option<&'static str>) -> Option<Seq<char>> {
    match s {
        Some(s) => Some(s@),
        None => None,
    }
}

/// The columns of `inv`.
pub open spec fn is_invocation_row(
    c: InvocationColumns,
    inv: Invocation,
    options: SqliteOptions,
) -> bool {
    &&& c.id@ == inv.id@
    &&& c.tenant_id@ == inv.tenant_id@
    &&& c.function_id@ == inv.function_id@
    &&& c.revision_id@ == inv.revision_id@
    &&& c.status@ == inv.status.spec_name()
    &&& c.terminal == if inv.status.terminal() {
        1int
    } else {
        0
    }
    &&& c.accepted_at@ == time::ts_text(inv.accepted_at)
    &&& text::opt_view(c.finished_at) == time::opt_ts_text(inv.finished_at)
    &&& c.input_digest@ == inv.input_digest@
    &&& name_view(c.output_kind) == sqlite::spec_output_kind(inv)
    &&& text::opt_view(c.output_expires_at) == time::opt_ts_text(
        sqlite::output_expiry(inv, options.output_retention),
    )
    &&& text::opt_view(c.owner_id) == text::opt_view(inv.dispatcher_id)
}

/// Dates can name the times of `inv` and the ends of its retentions.
pub open spec fn dated(inv: Invocation, options: SqliteOptions) -> bool {
    &&& time::in_calendar(inv.accepted_at)
    &&& time::opt_in_calendar(inv.finished_at)
    &&& sqlite::retained(inv, options.output_retention)
    &&& sqlite::retained(inv, options.idempotency_retention)
}

/// The columns of an invocation.
pub fn invocation_columns(inv: &Invocation, options: &SqliteOptions) -> (r: InvocationColumns)
    requires
        dated(*inv, *options),
    ensures
        is_invocation_row(r, *inv, *options),
{
    let expires = sqlite::output_expires_at(inv, options.output_retention);
    InvocationColumns {
        id: inv.id.clone(),
        tenant_id: inv.tenant_id.clone(),
        function_id: inv.function_id.clone(),
        revision_id: inv.revision_id.clone(),
        status: inv.status.name(),
        terminal: sqlite::flag(inv.status.is_terminal()),
        accepted_at: time::ts(&inv.accepted_at),
        finished_at: time::opt_ts(&inv.finished_at),
        input_digest: inv.input_digest.clone(),
        output_kind: sqlite::output_kind(inv),
        output_expires_at: time::opt_ts(&expires),
        owner_id: text::clone_opt(&inv.dispatcher_id),
    }
}

/// What updating an invocation comes to.
pub open spec fn invocation_update_rule(
    old: Option<&Invocation>,
    inv: Invocation,
    max_inline: u64,
) -> Result<Write, RepoErrorView> {
    match old {
        Some(o) => guard::invocation_rule(*o, inv, max_inline),
        None => Err(sqlite::missing_row("invocation"@, inv.id@)),
    }
}

/// What updating an invocation comes to. The row is written only where it is
/// not terminal yet.
pub fn update_invocation(old: Option<&Invocation>, inv: &Invocation, max_inline: u64) -> (r: Result<
    Write,
    RepoError,
>)
    ensures
        crate::repository::agrees(r, invocation_update_rule(old, *inv, max_inline)),
{
    match old {
        Some(o) => guard::invocation_update(o, inv, max_inline),
        None => Err(sqlite::missing("invocation", inv.id.as_str())),
    }
}

/// The columns of the binding of an invocation's key.
#[derive(Debug, PartialEq, Eq)]
pub struct BindingColumns {
    pub tenant_id: String,
    pub function_id: String,
    pub idem_key: String,
    pub invocation_id: String,
    pub input_digest: String,
    pub expires_at: Option<String>,
}

/// The columns of the binding of `inv`'s key.
pub open spec fn is_binding_row(c: BindingColumns, inv: Invocation, options: SqliteOptions) -> bool {
    &&& c.tenant_id@ == inv.tenant_id@
    &&& c.function_id@ == inv.function_id@
    &&& inv.idempotency_key is Some && c.idem_key@ == inv.idempotency_key->0@
    &&& c.invocation_id@ == inv.id@
    &&& c.input_digest@ == inv.input_digest@
    &&& text::opt_view(c.expires_at) == time::opt_ts_text(
        sqlite::binding_expiry(inv, options.idempotency_retention),
    )
}

/// The binding of an invocation's key, where it has one.
pub fn binding_columns(inv: &Invocation, options: &SqliteOptions) -> (r: Option<BindingColumns>)
    requires
        dated(*inv, *options),
    ensures
        match r {
            Some(c) => is_binding_row(c, *inv, *options),
            None => inv.idempotency_key is None,
        },
{
    match &inv.idempotency_key {
        Some(key) => {
            let expires = sqlite::idempotency_expires_at(inv, options.idempotency_retention);
            Some(
                BindingColumns {
                    tenant_id: inv.tenant_id.clone(),
                    function_id: inv.function_id.clone(),
                    idem_key: key.clone(),
                    invocation_id: inv.id.clone(),
                    input_digest: inv.input_digest.clone(),
                    expires_at: time::opt_ts(&expires),
                },
            )
        },
        None => None,
    }
}

/// The binding that a row holds, or why its expiry cannot be read.
pub open spec fn binding_rule(
    invocation_id: String,
    input_digest: String,
    expires_at: Option<Seq<char>>,
) -> Result<IdempotencyBinding, RepoErrorView> {
    match expires_at {
        None => Ok(IdempotencyBinding { invocation_id, input_digest, expires_at: None }),
        Some(raw) => match time::read_ts(raw) {
            Ok(t) => Ok(IdempotencyBinding { invocation_id, input_digest, expires_at: Some(t) }),
            Err(words) => Err(RepoErrorView::Serialization(words)),
        },
    }
}

/// The binding that a row holds.
pub fn binding_of(
    invocation_id: String,
    input_digest: String,
    expires_at: Option<String>,
) -> (r: Result<IdempotencyBinding, RepoError>)
    ensures
        crate::repository::agrees(
            r,
            binding_rule(invocation_id, input_digest, text::opt_view(expires_at)),
        ),
{
    match expires_at {
        None => Ok(IdempotencyBinding { invocation_id, input_digest, expires_at: None }),
        Some(raw) => match time::instant_of(raw.as_str()) {
            Ok(t) => Ok(IdempotencyBinding { invocation_id, input_digest, expires_at: Some(t) }),
            Err(words) => Err(RepoError::Serialization(words)),
        },
    }
}

/// What inserting an invocation with its key does.
#[derive(Debug, PartialEq, Eq)]
pub enum BoundPlan {
    /// The key already answers with another invocation: nothing is written.
    Existing(IdempotencyBinding),
    /// The invocation is written, and its key replaces whatever was bound
    /// under it.
    Insert(InvocationColumns, Option<BindingColumns>),
}

/// What inserting an invocation with its key comes to.
pub open spec fn bound_plan(
    binding: Option<IdempotencyBinding>,
    exists: bool,
    function: Option<&Function>,
    inv: Invocation,
    max_inline: u64,
    options: SqliteOptions,
    r: Result<BoundPlan, RepoError>,
) -> bool {
    match r {
        Ok(BoundPlan::Existing(b)) => inv.idempotency_key is Some && binding == Some(b),
        Ok(BoundPlan::Insert(c, k)) => {
            &&& inv.idempotency_key is None || binding is None
            &&& sqlite::insert_rule(exists, function, inv, max_inline) is Ok
            &&& is_invocation_row(c, inv, options)
            &&& match k {
                Some(k) => is_binding_row(k, inv, options),
                None => inv.idempotency_key is None,
            }
        },
        Err(e) => {
            &&& inv.idempotency_key is None || binding is None
            &&& sqlite::insert_rule(exists, function, inv, max_inline) == Err::<
                (),
                RepoErrorView,
            >(e@)
        },
    }
}

/// Insert an invocation with its key. `binding` is what the key answers with
/// at the time the invocation was accepted.
pub fn insert_bound(
    binding: Option<IdempotencyBinding>,
    exists: bool,
    function: Option<&Function>,
    inv: &Invocation,
    max_inline: u64,
    options: &SqliteOptions,
) -> (r: Result<BoundPlan, RepoError>)
    requires
        dated(*inv, *options),
    ensures
        bound_plan(binding, exists, function, *inv, max_inline, *options, r),
{
    if inv.idempotency_key.is_some() {
        if let Some(b) = binding {
            return Ok(BoundPlan::Existing(b));
        }
    }
    match sqlite::insert_invocation_checked(exists, function, inv, max_inline) {
        Ok(_) => Ok(
            BoundPlan::Insert(invocation_columns(inv, options), binding_columns(inv, options)),
        ),
        Err(e) => Err(e),
    }
}

/// How many rows a list asks for at most.
pub open spec fn limit_of(limit: usize) -> int {
    if limit <= i64::MAX {
        limit as int
    } else {
        i64::MAX as int
    }
}

/// How many rows a list asks for at most.
pub fn row_limit(limit: usize) -> (r: i64)
    ensures
        r == limit_of(limit),
{
    if limit as u128 <= i64::MAX as u128 {
        limit as i64
    } else {
        i64::MAX
    }
}

// ---------------------------------------------------------------------------
// attempts
// ---------------------------------------------------------------------------
/// The columns of an attempt.
#[derive(Debug, PartialEq, Eq)]
pub struct AttemptColumns {
    pub id: String,
    pub invocation_id: String,
    pub tenant_id: String,
    pub number: i64,
    pub environment_id: String,
    pub epoch: i64,
    pub status: &'static str,
    pub terminal: i64,
}

/// The columns of `a`.
pub open spec fn is_attempt_row(c: AttemptColumns, a: InvocationAttempt) -> bool {
    &&& c.id@ == a.id@
    &&& c.invocation_id@ == a.invocation_id@
    &&& c.tenant_id@ == a.tenant_id@
    &&& c.number == a.number
    &&& c.environment_id@ == a.environment_id@
    &&& c.epoch == a.epoch
    &&& c.status@ == a.status.spec_name()
    &&& c.terminal == if a.status.terminal() {
        1int
    } else {
        0
    }
}

/// The columns of an attempt.
pub fn attempt_columns(a: &InvocationAttempt) -> (r: Result<AttemptColumns, RepoError>)
    ensures
        match r {
            Ok(c) => is_attempt_row(c, *a),
            Err(e) => a.epoch > sqlite::BIGINT_MAX && e@ == sqlite::too_big(
                "attempt epoch"@,
                a.epoch as nat,
            ),
        },
{
    let epoch: i64 = match sqlite::big(a.epoch, "attempt epoch") {
        Ok(n) => n,
        Err(e) => return Err(e),
    };
    Ok(
        AttemptColumns {
            id: a.id.clone(),
            invocation_id: a.invocation_id.clone(),
            tenant_id: a.tenant_id.clone(),
            number: a.number as i64,
            environment_id: a.environment_id.clone(),
            epoch,
            status: a.status.name(),
            terminal: sqlite::flag(a.status.is_terminal()),
        },
    )
}

/// Whether a new attempt may be written.
pub open spec fn attempt_insert_rule(
    exists: bool,
    inv: Option<&Invocation>,
    a: InvocationAttempt,
) -> Result<(), RepoErrorView> {
    if exists {
        Err(sqlite::duplicate_row("attempt"@, a.id@))
    } else {
        match inv {
            Some(i) => guard::tenant_rule("attempt"@, a.id@, a.tenant_id@, i.tenant_id@),
            None => Ok(()),
        }
    }
}

/// Whether a new attempt may be written.
pub fn insert_attempt(exists: bool, inv: Option<&Invocation>, a: &InvocationAttempt) -> (r: Result<
    (),
    RepoError,
>)
    ensures
        crate::repository::agrees(r, attempt_insert_rule(exists, inv, *a)),
{
    if exists {
        return Err(sqlite::duplicate("attempt", a.id.as_str()));
    }
    guard::attempt_insert(inv, a)
}

/// What updating an attempt comes to.
pub open spec fn attempt_update_rule(
    old: Option<&InvocationAttempt>,
    a: InvocationAttempt,
) -> Result<Write, RepoErrorView> {
    match old {
        Some(o) => guard::attempt_rule(*o, a),
        None => Err(sqlite::missing_row("attempt"@, a.id@)),
    }
}

/// What updating an attempt comes to. The row is written only where it is not
/// terminal yet.
pub fn update_attempt(old: Option<&InvocationAttempt>, a: &InvocationAttempt) -> (r: Result<
    Write,
    RepoError,
>)
    ensures
        crate::repository::agrees(r, attempt_update_rule(old, *a)),
{
    match old {
        Some(o) => guard::attempt_update(o, a),
        None => Err(sqlite::missing("attempt", a.id.as_str())),
    }
}

// ---------------------------------------------------------------------------
// environments
// ---------------------------------------------------------------------------
/// The columns of a reuse key, which an idle environment is looked up by.
#[derive(Debug, PartialEq, Eq)]
pub struct KeyColumns {
    pub tenant_id: String,
    pub revision_id: String,
    pub execution_role_version: i64,
    pub configuration_version: i64,
    pub resource_profile_digest: String,
    pub runtime_profile: String,
    pub network_policy_version: i64,
    pub secret_binding_generation: i64,
}

impl KeyColumns {
    /// The same values, column by column.
    pub open spec fn same(self, other: KeyColumns) -> bool {
        &&& self.tenant_id@ == other.tenant_id@
        &&& self.revision_id@ == other.revision_id@
        &&& self.execution_role_version == other.execution_role_version
        &&& self.configuration_version == other.configuration_version
        &&& self.resource_profile_digest@ == other.resource_profile_digest@
        &&& self.runtime_profile@ == other.runtime_profile@
        &&& self.network_policy_version == other.network_policy_version
        &&& self.secret_binding_generation == other.secret_binding_generation
    }
}

/// The columns of `k`.
pub open spec fn is_key_row(c: KeyColumns, k: ReuseKey) -> bool {
    &&& c.tenant_id@ == k.tenant_id@
    &&& c.revision_id@ == k.revision_id@
    &&& c.execution_role_version as int == sqlite::spec_bits(k.execution_role_version)
    &&& c.configuration_version as int == sqlite::spec_bits(k.configuration_version)
    &&& c.resource_profile_digest@ == k.resource_profile_digest@
    &&& c.runtime_profile@ == k.runtime_profile@
    &&& c.network_policy_version as int == sqlite::spec_bits(k.network_policy_version)
    &&& c.secret_binding_generation as int == sqlite::spec_bits(k.secret_binding_generation)
}

/// The columns of a reuse key.
pub fn reuse_key_params(k: &ReuseKey) -> (r: KeyColumns)
    ensures
        is_key_row(r, *k),
{
    KeyColumns {
        tenant_id: k.tenant_id.clone(),
        revision_id: k.revision_id.clone(),
        execution_role_version: sqlite::bits(k.execution_role_version),
        configuration_version: sqlite::bits(k.configuration_version),
        resource_profile_digest: k.resource_profile_digest.clone(),
        runtime_profile: k.runtime_profile.clone(),
        network_policy_version: sqlite::bits(k.network_policy_version),
        secret_binding_generation: sqlite::bits(k.secret_binding_generation),
    }
}

/// A lookup by columns finds the environments of an equal key and no others.
pub proof fn law_equal_columns_are_equal_keys(a: KeyColumns, b: KeyColumns, k: ReuseKey, l: ReuseKey)
    requires
        is_key_row(a, k),
        is_key_row(b, l),
    ensures
        a.same(b) <==> k.same(l),
{
    sqlite::law_bits_are_read_back(k.execution_role_version, l.execution_role_version);
    sqlite::law_bits_are_read_back(k.configuration_version, l.configuration_version);
    sqlite::law_bits_are_read_back(k.network_policy_version, l.network_policy_version);
    sqlite::law_bits_are_read_back(k.secret_binding_generation, l.secret_binding_generation);
}

/// The columns of an environment.
#[derive(Debug, PartialEq, Eq)]
pub struct EnvironmentColumns {
    pub id: String,
    pub provider: String,
    pub state: &'static str,
    pub terminal: i64,
    pub epoch: i64,
    pub key: KeyColumns,
    pub idle_since: Option<String>,
    pub created_at: String,
    pub owner_id: Option<String>,
    pub fenced: i64,
}

/// The columns of `e`. Its tenant and its revision are those of its key.
pub open spec fn is_environment_row(c: EnvironmentColumns, e: ExecutionEnvironment) -> bool {
    &&& c.id@ == e.id@
    &&& c.provider@ == e.provider@
    &&& c.state@ == e.state.spec_name()
    &&& c.terminal == if e.state.terminal() {
        1int
    } else {
        0
    }
    &&& c.epoch == e.epoch
    &&& is_key_row(c.key, e.reuse_key)
    &&& text::opt_view(c.idle_since) == time::opt_ts_text(e.idle_since)
    &&& c.created_at@ == time::ts_text(e.created_at)
    &&& text::opt_view(c.owner_id) == text::opt_view(e.owner)
    &&& c.fenced == if e.fenced_at is Some {
        1int
    } else {
        0
    }
}

/// The columns of an environment.
pub fn environment_columns(e: &ExecutionEnvironment) -> (r: Result<EnvironmentColumns, RepoError>)
    requires
        time::in_calendar(e.created_at),
        time::opt_in_calendar(e.idle_since),
    ensures
        match r {
            Ok(c) => is_environment_row(c, *e),
            Err(x) => e.epoch > sqlite::BIGINT_MAX && x@ == sqlite::too_big(
                "environment epoch"@,
                e.epoch as nat,
            ),
        },
{
    let epoch: i64 = match sqlite::big(e.epoch, "environment epoch") {
        Ok(n) => n,
        Err(x) => return Err(x),
    };
    Ok(
        EnvironmentColumns {
            id: e.id.clone(),
            provider: e.provider.clone(),
            state: e.state.name(),
            terminal: sqlite::flag(e.state.is_terminal()),
            epoch,
            key: reuse_key_params(&e.reuse_key),
            idle_since: time::opt_ts(&e.idle_since),
            created_at: time::ts(&e.created_at),
            owner_id: text::clone_opt(&e.owner),
            fenced: sqlite::flag(e.is_fenced()),
        },
    )
}

/// Whether a new environment may be written.
pub open spec fn environment_insert_rule(
    exists: bool,
    revision: Option<&FunctionRevision>,
    e: ExecutionEnvironment,
) -> Result<(), RepoErrorView> {
    if exists {
        Err(sqlite::duplicate_row("environment"@, e.id@))
    } else {
        guard::environment_insert_rule(revision, e)
    }
}

/// Whether a new environment may be written.
pub fn insert_environment(
    exists: bool,
    revision: Option<&FunctionRevision>,
    e: &ExecutionEnvironment,
) -> (r: Result<(), RepoError>)
    ensures
        crate::repository::agrees(r, environment_insert_rule(exists, revision, *e)),
{
    if exists {
        return Err(sqlite::duplicate("environment", e.id.as_str()));
    }
    guard::environment_insert(revision, e)
}

/// What updating an environment comes to.
pub open spec fn environment_update_rule(
    old: Option<&ExecutionEnvironment>,
    e: ExecutionEnvironment,
) -> Result<Write, RepoErrorView> {
    match old {
        Some(o) => guard::environment_rule(*o, e),
        None => Err(sqlite::missing_row("environment"@, e.id@)),
    }
}

/// What updating an environment comes to. The row is written only where it
/// still has the epoch that was read and is not terminal yet.
pub fn update_environment(
    old: Option<&ExecutionEnvironment>,
    e: &ExecutionEnvironment,
) -> (r: Result<Write, RepoError>)
    ensures
        crate::repository::agrees(r, environment_update_rule(old, *e)),
{
    match old {
        Some(o) => guard::environment_update(o, e),
        None => Err(sqlite::missing("environment", e.id.as_str())),
    }
}

// ---------------------------------------------------------------------------
// leases
// ---------------------------------------------------------------------------
/// The columns of a lease.
#[derive(Debug, PartialEq, Eq)]
pub struct LeaseColumns {
    pub id: String,
    pub environment_id: String,
    pub attempt_id: String,
    pub tenant_id: String,
    pub epoch: i64,
    pub deadline: String,
    pub released: i64,
    pub owner_id: Option<String>,
    pub expires_at: Option<String>,
}

/// The columns of `l`.
pub open spec fn is_lease_row(c: LeaseColumns, l: ExecutionLease) -> bool {
    &&& c.id@ == l.id@
    &&& c.environment_id@ == l.environment_id@
    &&& c.attempt_id@ == l.attempt_id@
    &&& c.tenant_id@ == l.tenant_id@
    &&& c.epoch == l.epoch
    &&& c.deadline@ == time::ts_text(l.execution_deadline)
    &&& c.released == if l.released_at is Some {
        1int
    } else {
        0
    }
    &&& text::opt_view(c.owner_id) == text::opt_view(l.owner)
    &&& text::opt_view(c.expires_at) == time::opt_ts_text(l.expires_at)
}

/// The columns of a lease. Its row is rewritten only where it is not released
/// yet.
pub fn lease_columns(l: &ExecutionLease) -> (r: Result<LeaseColumns, RepoError>)
    requires
        time::in_calendar(l.execution_deadline),
        time::opt_in_calendar(l.expires_at),
    ensures
        match r {
            Ok(c) => is_lease_row(c, *l),
            Err(e) => l.epoch > sqlite::BIGINT_MAX && e@ == sqlite::too_big(
                "lease epoch"@,
                l.epoch as nat,
            ),
        },
{
    let epoch: i64 = match sqlite::big(l.epoch, "lease epoch") {
        Ok(n) => n,
        Err(e) => return Err(e),
    };
    Ok(
        LeaseColumns {
            id: l.id.clone(),
            environment_id: l.environment_id.clone(),
            attempt_id: l.attempt_id.clone(),
            tenant_id: l.tenant_id.clone(),
            epoch,
            deadline: time::ts(&l.execution_deadline),
            released: sqlite::flag(l.released_at.is_some()),
            owner_id: text::clone_opt(&l.owner),
            expires_at: time::opt_ts(&l.expires_at),
        },
    )
}

} // verus!
