//! Row invariants every store enforces, whatever the service layer checked
//! before. They are functions of the stored row and the row being written, so
//! every store refuses exactly the same writes.
//!
//! - **Tenant boundary**: a row that names a parent which exists must carry
//!   the parent's tenant. Parents are not required to exist (the ledger
//!   outlives a deleted function), except that an alias must point at an
//!   existing revision of its own function.
//! - **Identity is immutable**: ids, tenant, parent ids, numbers, specs,
//!   digests and creation times never change on update.
//! - **Terminal is final**: a terminal invocation, attempt or environment, a
//!   ready or failed revision, a released lease and a deleted function are
//!   never rewritten. Writing the identical row again is a no-op.
//! - **Fencing**: an environment update must carry the stored epoch, and
//!   neither makes the environment busy nor changes its owner or its fencing.
//! - **Bounded bodies**: inline output never exceeds the response limit.

use vstd::prelude::*;

use crate::domain::environment::{EnvironmentState, ExecutionEnvironment, ExecutionLease};
use crate::domain::function::{Function, FunctionAlias, FunctionRevision};
use crate::domain::invocation::{Invocation, InvocationAttempt, PayloadRef};
use crate::repository;
use crate::repository::{RepoError, RepoErrorView};
use crate::text;

verus! {

/// Whether the write changes anything. `Unchanged` means the caller must not
/// write (and must not fail).
#[derive(Debug, Clone, Copy, PartialEq, Eq, Structural)]
pub enum Write {
    Apply,
    Unchanged,
}

/// The refusal to change an identity field.
pub open spec fn immutable(kind: Seq<char>, id: Seq<char>, field: Seq<char>) -> RepoErrorView {
    RepoErrorView::Refused(kind + " "@ + id + ": `"@ + field + "` is immutable"@)
}

fn is_immutable(kind: &str, id: &str, field: &str) -> (r: RepoError)
    ensures
        r@ == immutable(kind@, id@, field@),
{
    let mut m = text::owned(kind);
    m.append(" ");
    m.append(id);
    m.append(": `");
    m.append(field);
    m.append("` is immutable");
    RepoError::Refused(m)
}

/// The refusal to rewrite a final row.
pub open spec fn final_row(kind: Seq<char>, id: Seq<char>, status: Seq<char>) -> RepoErrorView {
    RepoErrorView::Refused(kind + " "@ + id + " is "@ + status + " and final"@)
}

fn is_final(kind: &str, id: &str, status: &str) -> (r: RepoError)
    ensures
        r@ == final_row(kind@, id@, status@),
{
    let mut m = text::owned(kind);
    m.append(" ");
    m.append(id);
    m.append(" is ");
    m.append(status);
    m.append(" and final");
    RepoError::Refused(m)
}

/// A row and the parent it names must be of one tenant.
pub open spec fn tenant_rule(
    kind: Seq<char>,
    id: Seq<char>,
    row: Seq<char>,
    parent: Seq<char>,
) -> Result<(), RepoErrorView> {
    if row == parent {
        Ok(())
    } else {
        Err(
            RepoErrorView::Refused(
                kind + " "@ + id + " belongs to another tenant than its parent"@,
            ),
        )
    }
}

/// Refuse a row of another tenant than its parent.
pub fn same_tenant(kind: &str, id: &str, row: &str, parent: &str) -> (r: Result<(), RepoError>)
    ensures
        repository::agrees(r, tenant_rule(kind@, id@, row@, parent@)),
{
    if text::same_text(row, parent) {
        Ok(())
    } else {
        let mut m = text::owned(kind);
        m.append(" ");
        m.append(id);
        m.append(" belongs to another tenant than its parent");
        Err(RepoError::Refused(m))
    }
}

/// What writing `new` over `old` does: a function keeps its identity, and a deleted one stays deleted.
pub open spec fn function_rule(old: Function, new: Function) -> Result<Write, RepoErrorView> {
    if old.id@ != new.id@ {
        Err(immutable("function"@, old.id@, "id"@))
    } else if old.tenant_id@ != new.tenant_id@ {
        Err(immutable("function"@, old.id@, "tenant_id"@))
    } else if old.name@ != new.name@ {
        Err(immutable("function"@, old.id@, "name"@))
    } else if old.created_at != new.created_at {
        Err(immutable("function"@, old.id@, "created_at"@))
    } else if old.same(new) {
        Ok(Write::Unchanged)
    } else if old.deleted() {
        Err(RepoErrorView::Refused("function "@ + old.id@ + " is deleted"@))
    } else {
        Ok(Write::Apply)
    }
}

/// What writing `new` over `old` does: a function keeps its identity, and a deleted one stays deleted.
pub fn function_update(old: &Function, new: &Function) -> (r: Result<Write, RepoError>)
    ensures
        repository::agrees(r, function_rule(*old, *new)),
{
    if !text::same_text(old.id.as_str(), new.id.as_str()) {
        return Err(is_immutable("function", old.id.as_str(), "id"));
    }
    if !text::same_text(old.tenant_id.as_str(), new.tenant_id.as_str()) {
        return Err(is_immutable("function", old.id.as_str(), "tenant_id"));
    }
    if !text::same_text(old.name.as_str(), new.name.as_str()) {
        return Err(is_immutable("function", old.id.as_str(), "name"));
    }
    if old.created_at != new.created_at {
        return Err(is_immutable("function", old.id.as_str(), "created_at"));
    }
    if old.is_same(new) {
        return Ok(Write::Unchanged);
    }
    if old.is_deleted() {
        let mut m = text::owned("function ");
        m.append(old.id.as_str());
        m.append(" is deleted");
        return Err(RepoError::Refused(m));
    }
    Ok(Write::Apply)
}

/// A revision carries the tenant of its function, if that exists.
pub fn revision_insert(function: Option<&Function>, revision: &FunctionRevision) -> (r: Result<
    (),
    RepoError,
>)
    ensures
        repository::agrees(
            r,
            match function {
                Some(f) => tenant_rule(
                    "revision"@,
                    revision.id@,
                    revision.tenant_id@,
                    f.tenant_id@,
                ),
                None => Ok(()),
            },
        ),
{
    match function {
        Some(f) => same_tenant(
            "revision",
            revision.id.as_str(),
            revision.tenant_id.as_str(),
            f.tenant_id.as_str(),
        ),
        None => Ok(()),
    }
}

/// What writing `new` over `old` does: only the status of a revision changes, and a ready or failed one is final.
pub open spec fn revision_rule(old: FunctionRevision, new: FunctionRevision) -> Result<Write, RepoErrorView> {
    if old.id@ != new.id@ {
        Err(immutable("revision"@, old.id@, "id"@))
    } else if old.function_id@ != new.function_id@ {
        Err(immutable("revision"@, old.id@, "function_id"@))
    } else if old.tenant_id@ != new.tenant_id@ {
        Err(immutable("revision"@, old.id@, "tenant_id"@))
    } else if old.number != new.number {
        Err(immutable("revision"@, old.id@, "number"@))
    } else if old.spec@ != new.spec@ {
        Err(immutable("revision"@, old.id@, "spec"@))
    } else if old.spec_digest@ != new.spec_digest@ {
        Err(immutable("revision"@, old.id@, "spec_digest"@))
    } else if old.created_at != new.created_at {
        Err(immutable("revision"@, old.id@, "created_at"@))
    } else if old.same(new) {
        Ok(Write::Unchanged)
    } else if old.status.terminal() {
        Err(final_row("revision"@, old.id@, old.status.spec_name()))
    } else {
        Ok(Write::Apply)
    }
}

/// What writing `new` over `old` does: only the status of a revision changes, and a ready or failed one is final.
pub fn revision_update(old: &FunctionRevision, new: &FunctionRevision) -> (r: Result<Write, RepoError>)
    ensures
        repository::agrees(r, revision_rule(*old, *new)),
{
    if !text::same_text(old.id.as_str(), new.id.as_str()) {
        return Err(is_immutable("revision", old.id.as_str(), "id"));
    }
    if !text::same_text(old.function_id.as_str(), new.function_id.as_str()) {
        return Err(is_immutable("revision", old.id.as_str(), "function_id"));
    }
    if !text::same_text(old.tenant_id.as_str(), new.tenant_id.as_str()) {
        return Err(is_immutable("revision", old.id.as_str(), "tenant_id"));
    }
    if old.number != new.number {
        return Err(is_immutable("revision", old.id.as_str(), "number"));
    }
    if !text::same_text(old.spec.as_str(), new.spec.as_str()) {
        return Err(is_immutable("revision", old.id.as_str(), "spec"));
    }
    if !text::same_text(old.spec_digest.as_str(), new.spec_digest.as_str()) {
        return Err(is_immutable("revision", old.id.as_str(), "spec_digest"));
    }
    if old.created_at != new.created_at {
        return Err(is_immutable("revision", old.id.as_str(), "created_at"));
    }
    if old.is_same(new) {
        return Ok(Write::Unchanged);
    }
    if old.status.is_terminal() {
        return Err(is_final("revision", old.id.as_str(), old.status.name()));
    }
    Ok(Write::Apply)
}

/// Where an alias may point: at an existing revision of its own function, in
/// its own tenant.
pub open spec fn alias_target_rule(
    function: Option<&Function>,
    revision: Option<&FunctionRevision>,
    alias: FunctionAlias,
) -> Result<(), RepoErrorView> {
    let tenant = match function {
        Some(f) => tenant_rule("alias"@, alias.name@, alias.tenant_id@, f.tenant_id@),
        None => Ok(()),
    };
    if tenant is Err {
        tenant
    } else {
        match revision {
            None => Err(
                RepoErrorView::Refused(
                    "alias `"@ + alias.name@ + "` points at revision "@ + alias.revision_id@
                        + " which does not exist"@,
                ),
            ),
            Some(r) => if r.function_id@ != alias.function_id@ || r.tenant_id@ != alias.tenant_id@ {
                Err(
                    RepoErrorView::Refused(
                        "alias `"@ + alias.name@ + "` cannot point at revision "@
                            + alias.revision_id@ + " of another function"@,
                    ),
                )
            } else {
                Ok(())
            },
        }
    }
}

/// Refuse an alias that points anywhere but at an existing revision of its
/// own function, in its own tenant.
pub fn alias_target(
    function: Option<&Function>,
    revision: Option<&FunctionRevision>,
    alias: &FunctionAlias,
) -> (r: Result<(), RepoError>)
    ensures
        repository::agrees(r, alias_target_rule(function, revision, *alias)),
{
    match function {
        Some(f) => {
            match same_tenant(
                "alias",
                alias.name.as_str(),
                alias.tenant_id.as_str(),
                f.tenant_id.as_str(),
            ) {
                Ok(_) => {},
                Err(e) => {
                    return Err(e);
                },
            }
        },
        None => {},
    }
    match revision {
        None => {
            let mut m = text::owned("alias `");
            m.append(alias.name.as_str());
            m.append("` points at revision ");
            m.append(alias.revision_id.as_str());
            m.append(" which does not exist");
            Err(RepoError::Refused(m))
        },
        Some(r) => {
            if !text::same_text(r.function_id.as_str(), alias.function_id.as_str())
                || !text::same_text(r.tenant_id.as_str(), alias.tenant_id.as_str()) {
                let mut m = text::owned("alias `");
                m.append(alias.name.as_str());
                m.append("` cannot point at revision ");
                m.append(alias.revision_id.as_str());
                m.append(" of another function");
                return Err(RepoError::Refused(m));
            }
            Ok(())
        },
    }
}

/// What an alias keeps across a compare-and-set, and that its generation
/// advances.
pub open spec fn alias_rule(old: FunctionAlias, new: FunctionAlias) -> Result<(), RepoErrorView> {
    if old.function_id@ != new.function_id@ {
        Err(immutable("alias"@, old.name@, "function_id"@))
    } else if old.tenant_id@ != new.tenant_id@ {
        Err(immutable("alias"@, old.name@, "tenant_id"@))
    } else if old.name@ != new.name@ {
        Err(immutable("alias"@, old.name@, "name"@))
    } else if old.created_at != new.created_at {
        Err(immutable("alias"@, old.name@, "created_at"@))
    } else if new.generation <= old.generation {
        Err(
            RepoErrorView::Refused(
                "alias `"@ + old.name@ + "`: generation must advance ("@ + text::dec(
                    old.generation as nat,
                ) + " -> "@ + text::dec(new.generation as nat) + ")"@,
            ),
        )
    } else {
        Ok(())
    }
}

/// Identity of an alias across a compare-and-set. Whether the generation
/// still matches is the store's compare-and-set, not a refusal.
pub fn alias_update(old: &FunctionAlias, new: &FunctionAlias) -> (r: Result<(), RepoError>)
    ensures
        repository::agrees(r, alias_rule(*old, *new)),
{
    if !text::same_text(old.function_id.as_str(), new.function_id.as_str()) {
        return Err(is_immutable("alias", old.name.as_str(), "function_id"));
    }
    if !text::same_text(old.tenant_id.as_str(), new.tenant_id.as_str()) {
        return Err(is_immutable("alias", old.name.as_str(), "tenant_id"));
    }
    if !text::same_text(old.name.as_str(), new.name.as_str()) {
        return Err(is_immutable("alias", old.name.as_str(), "name"));
    }
    if old.created_at != new.created_at {
        return Err(is_immutable("alias", old.name.as_str(), "created_at"));
    }
    if new.generation <= old.generation {
        let mut m = text::owned("alias `");
        m.append(old.name.as_str());
        m.append("`: generation must advance (");
        text::push_u64(&mut m, old.generation);
        m.append(" -> ");
        text::push_u64(&mut m, new.generation);
        m.append(")");
        return Err(RepoError::Refused(m));
    }
    Ok(())
}

/// Characters that `max` bytes take in Base64, or the largest count where that
/// does not fit.
pub open spec fn encoded_max(max: u64) -> int {
    let chars = (max + 2) / 3 * 4;
    if chars > u64::MAX {
        u64::MAX as int
    } else {
        chars
    }
}

/// Inline output within the response limit, both as claimed and as encoded.
pub open spec fn output_rule(invocation: Invocation, max_inline_bytes: u64) -> Result<
    (),
    RepoErrorView,
> {
    match invocation.output {
        Some(PayloadRef::Inline { bytes_base64, size_bytes }) => if size_bytes > max_inline_bytes
            || vstd::utf8::encode_utf8(bytes_base64@).len() > encoded_max(max_inline_bytes) {
            Err(
                RepoErrorView::Refused(
                    "invocation "@ + invocation.id@ + ": inline output of "@ + text::dec(
                        size_bytes as nat,
                    ) + " bytes exceeds "@ + text::dec(max_inline_bytes as nat) + " bytes"@,
                ),
            )
        } else {
            Ok(())
        },
        _ => Ok(()),
    }
}

/// Inline output is the only body the ledger holds; anything larger is
/// recorded by digest. The store refuses an inline body above the response
/// limit whatever the caller decided.
pub fn bounded_output(invocation: &Invocation, max_inline_bytes: u64) -> (r: Result<(), RepoError>)
    ensures
        repository::agrees(r, output_rule(*invocation, max_inline_bytes)),
{
    match &invocation.output {
        Some(PayloadRef::Inline { bytes_base64, size_bytes }) => {
            let chars: u128 = (max_inline_bytes as u128 + 2) / 3 * 4;
            let bound: u64 = if chars > u64::MAX as u128 {
                u64::MAX
            } else {
                chars as u64
            };
            if *size_bytes > max_inline_bytes || text::byte_len(bytes_base64.as_str()) as u64
                > bound {
                let mut m = text::owned("invocation ");
                m.append(invocation.id.as_str());
                m.append(": inline output of ");
                text::push_u64(&mut m, *size_bytes);
                m.append(" bytes exceeds ");
                text::push_u64(&mut m, max_inline_bytes);
                m.append(" bytes");
                return Err(RepoError::Refused(m));
            }
            Ok(())
        },
        _ => Ok(()),
    }
}

/// What a new invocation must hold to.
pub open spec fn invocation_insert_rule(
    function: Option<&Function>,
    invocation: Invocation,
    max_inline_bytes: u64,
) -> Result<(), RepoErrorView> {
    let tenant = match function {
        Some(f) => tenant_rule(
            "invocation"@,
            invocation.id@,
            invocation.tenant_id@,
            f.tenant_id@,
        ),
        None => Ok(()),
    };
    if tenant is Err {
        tenant
    } else {
        output_rule(invocation, max_inline_bytes)
    }
}

/// An invocation carries the tenant of its function, if that exists, and a
/// bounded output.
pub fn invocation_insert(
    function: Option<&Function>,
    invocation: &Invocation,
    max_inline_bytes: u64,
) -> (r: Result<(), RepoError>)
    ensures
        repository::agrees(
            r,
            invocation_insert_rule(function, *invocation, max_inline_bytes),
        ),
{
    match function {
        Some(f) => {
            match same_tenant(
                "invocation",
                invocation.id.as_str(),
                invocation.tenant_id.as_str(),
                f.tenant_id.as_str(),
            ) {
                Ok(_) => {},
                Err(e) => {
                    return Err(e);
                },
            }
        },
        None => {},
    }
    bounded_output(invocation, max_inline_bytes)
}

/// What writing `new` over `old` does: an invocation keeps its identity, a terminal one is final, and its output is bounded.
pub open spec fn invocation_rule(old: Invocation, new: Invocation, max_inline_bytes: u64) -> Result<Write, RepoErrorView> {
    if old.id@ != new.id@ {
        Err(immutable("invocation"@, old.id@, "id"@))
    } else if old.tenant_id@ != new.tenant_id@ {
        Err(immutable("invocation"@, old.id@, "tenant_id"@))
    } else if old.function_id@ != new.function_id@ {
        Err(immutable("invocation"@, old.id@, "function_id"@))
    } else if text::opt_view(old.alias) != text::opt_view(new.alias) {
        Err(immutable("invocation"@, old.id@, "alias"@))
    } else if old.mode != new.mode {
        Err(immutable("invocation"@, old.id@, "mode"@))
    } else if old.event_kind@ != new.event_kind@ {
        Err(immutable("invocation"@, old.id@, "event_kind"@))
    } else if text::opt_view(old.idempotency_key) != text::opt_view(new.idempotency_key) {
        Err(immutable("invocation"@, old.id@, "idempotency_key"@))
    } else if old.input_digest@ != new.input_digest@ {
        Err(immutable("invocation"@, old.id@, "input_digest"@))
    } else if old.input_size_bytes != new.input_size_bytes {
        Err(immutable("invocation"@, old.id@, "input_size_bytes"@))
    } else if old.trace_id@ != new.trace_id@ {
        Err(immutable("invocation"@, old.id@, "trace_id"@))
    } else if old.accepted_at != new.accepted_at {
        Err(immutable("invocation"@, old.id@, "accepted_at"@))
    } else if old.same(new) {
        Ok(Write::Unchanged)
    } else if old.status.terminal() {
        Err(final_row("invocation"@, old.id@, old.status.spec_name()))
    } else if output_rule(new, max_inline_bytes) is Err {
        Err(output_rule(new, max_inline_bytes)->Err_0)
    } else {
        Ok(Write::Apply)
    }
}

/// What writing `new` over `old` does: an invocation keeps its identity, a terminal one is final, and its output is bounded.
pub fn invocation_update(old: &Invocation, new: &Invocation, max_inline_bytes: u64) -> (r: Result<Write, RepoError>)
    ensures
        repository::agrees(r, invocation_rule(*old, *new, max_inline_bytes)),
{
    if !text::same_text(old.id.as_str(), new.id.as_str()) {
        return Err(is_immutable("invocation", old.id.as_str(), "id"));
    }
    if !text::same_text(old.tenant_id.as_str(), new.tenant_id.as_str()) {
        return Err(is_immutable("invocation", old.id.as_str(), "tenant_id"));
    }
    if !text::same_text(old.function_id.as_str(), new.function_id.as_str()) {
        return Err(is_immutable("invocation", old.id.as_str(), "function_id"));
    }
    if !text::same_opt(&old.alias, &new.alias) {
        return Err(is_immutable("invocation", old.id.as_str(), "alias"));
    }
    if old.mode != new.mode {
        return Err(is_immutable("invocation", old.id.as_str(), "mode"));
    }
    if !text::same_text(old.event_kind.as_str(), new.event_kind.as_str()) {
        return Err(is_immutable("invocation", old.id.as_str(), "event_kind"));
    }
    if !text::same_opt(&old.idempotency_key, &new.idempotency_key) {
        return Err(is_immutable("invocation", old.id.as_str(), "idempotency_key"));
    }
    if !text::same_text(old.input_digest.as_str(), new.input_digest.as_str()) {
        return Err(is_immutable("invocation", old.id.as_str(), "input_digest"));
    }
    if old.input_size_bytes != new.input_size_bytes {
        return Err(is_immutable("invocation", old.id.as_str(), "input_size_bytes"));
    }
    if !text::same_text(old.trace_id.as_str(), new.trace_id.as_str()) {
        return Err(is_immutable("invocation", old.id.as_str(), "trace_id"));
    }
    if old.accepted_at != new.accepted_at {
        return Err(is_immutable("invocation", old.id.as_str(), "accepted_at"));
    }
    if old.is_same(new) {
        return Ok(Write::Unchanged);
    }
    if old.status.is_terminal() {
        return Err(is_final("invocation", old.id.as_str(), old.status.name()));
    }
    match bounded_output(new, max_inline_bytes) {
        Ok(_) => {},
        Err(e) => {
            return Err(e);
        },
    }
    Ok(Write::Apply)
}

/// An attempt carries the tenant of its invocation, if that exists.
pub fn attempt_insert(invocation: Option<&Invocation>, attempt: &InvocationAttempt) -> (r: Result<
    (),
    RepoError,
>)
    ensures
        repository::agrees(
            r,
            match invocation {
                Some(i) => tenant_rule("attempt"@, attempt.id@, attempt.tenant_id@, i.tenant_id@),
                None => Ok(()),
            },
        ),
{
    match invocation {
        Some(i) => same_tenant(
            "attempt",
            attempt.id.as_str(),
            attempt.tenant_id.as_str(),
            i.tenant_id.as_str(),
        ),
        None => Ok(()),
    }
}

/// What writing `new` over `old` does: an attempt keeps its identity, and a settled one is final.
pub open spec fn attempt_rule(old: InvocationAttempt, new: InvocationAttempt) -> Result<Write, RepoErrorView> {
    if old.id@ != new.id@ {
        Err(immutable("attempt"@, old.id@, "id"@))
    } else if old.invocation_id@ != new.invocation_id@ {
        Err(immutable("attempt"@, old.id@, "invocation_id"@))
    } else if old.tenant_id@ != new.tenant_id@ {
        Err(immutable("attempt"@, old.id@, "tenant_id"@))
    } else if old.number != new.number {
        Err(immutable("attempt"@, old.id@, "number"@))
    } else if old.environment_id@ != new.environment_id@ {
        Err(immutable("attempt"@, old.id@, "environment_id"@))
    } else if old.epoch != new.epoch {
        Err(immutable("attempt"@, old.id@, "epoch"@))
    } else if old.start_kind != new.start_kind {
        Err(immutable("attempt"@, old.id@, "start_kind"@))
    } else if old.dispatched_at != new.dispatched_at {
        Err(immutable("attempt"@, old.id@, "dispatched_at"@))
    } else if old.same(new) {
        Ok(Write::Unchanged)
    } else if old.status.terminal() {
        Err(final_row("attempt"@, old.id@, old.status.spec_name()))
    } else {
        Ok(Write::Apply)
    }
}

/// What writing `new` over `old` does: an attempt keeps its identity, and a settled one is final.
pub fn attempt_update(old: &InvocationAttempt, new: &InvocationAttempt) -> (r: Result<Write, RepoError>)
    ensures
        repository::agrees(r, attempt_rule(*old, *new)),
{
    if !text::same_text(old.id.as_str(), new.id.as_str()) {
        return Err(is_immutable("attempt", old.id.as_str(), "id"));
    }
    if !text::same_text(old.invocation_id.as_str(), new.invocation_id.as_str()) {
        return Err(is_immutable("attempt", old.id.as_str(), "invocation_id"));
    }
    if !text::same_text(old.tenant_id.as_str(), new.tenant_id.as_str()) {
        return Err(is_immutable("attempt", old.id.as_str(), "tenant_id"));
    }
    if old.number != new.number {
        return Err(is_immutable("attempt", old.id.as_str(), "number"));
    }
    if !text::same_text(old.environment_id.as_str(), new.environment_id.as_str()) {
        return Err(is_immutable("attempt", old.id.as_str(), "environment_id"));
    }
    if old.epoch != new.epoch {
        return Err(is_immutable("attempt", old.id.as_str(), "epoch"));
    }
    if old.start_kind != new.start_kind {
        return Err(is_immutable("attempt", old.id.as_str(), "start_kind"));
    }
    if old.dispatched_at != new.dispatched_at {
        return Err(is_immutable("attempt", old.id.as_str(), "dispatched_at"));
    }
    if old.is_same(new) {
        return Ok(Write::Unchanged);
    }
    if old.status.is_terminal() {
        return Err(is_final("attempt", old.id.as_str(), old.status.name()));
    }
    Ok(Write::Apply)
}

/// What a new environment must hold to.
pub open spec fn environment_insert_rule(
    revision: Option<&FunctionRevision>,
    env: ExecutionEnvironment,
) -> Result<(), RepoErrorView> {
    if env.reuse_key.tenant_id@ != env.tenant_id@ || env.reuse_key.revision_id@
        != env.revision_id@ {
        Err(
            RepoErrorView::Refused(
                "environment "@ + env.id@
                    + ": its reuse key names another tenant or revision"@,
            ),
        )
    } else {
        match revision {
            Some(r) => tenant_rule("environment"@, env.id@, env.tenant_id@, r.tenant_id@),
            None => Ok(()),
        }
    }
}

/// An environment carries the tenant of its revision, if that exists, and a
/// reuse key of its own tenant and revision.
pub fn environment_insert(revision: Option<&FunctionRevision>, env: &ExecutionEnvironment) -> (r:
    Result<(), RepoError>)
    ensures
        repository::agrees(r, environment_insert_rule(revision, *env)),
{
    if !text::same_text(env.reuse_key.tenant_id.as_str(), env.tenant_id.as_str())
        || !text::same_text(env.reuse_key.revision_id.as_str(), env.revision_id.as_str()) {
        let mut m = text::owned("environment ");
        m.append(env.id.as_str());
        m.append(": its reuse key names another tenant or revision");
        return Err(RepoError::Refused(m));
    }
    match revision {
        Some(r) => same_tenant(
            "environment",
            env.id.as_str(),
            env.tenant_id.as_str(),
            r.tenant_id.as_str(),
        ),
        None => Ok(()),
    }
}

/// The identity of an environment.
pub open spec fn environment_identity_rule(
    old: ExecutionEnvironment,
    new: ExecutionEnvironment,
) -> Result<(), RepoErrorView> {
    if old.id@ != new.id@ {
        Err(immutable("environment"@, old.id@, "id"@))
    } else if old.tenant_id@ != new.tenant_id@ {
        Err(immutable("environment"@, old.id@, "tenant_id"@))
    } else if old.revision_id@ != new.revision_id@ {
        Err(immutable("environment"@, old.id@, "revision_id"@))
    } else if old.provider@ != new.provider@ {
        Err(immutable("environment"@, old.id@, "provider"@))
    } else if !old.reuse_key.same(new.reuse_key) {
        Err(immutable("environment"@, old.id@, "reuse_key"@))
    } else if old.created_at != new.created_at {
        Err(immutable("environment"@, old.id@, "created_at"@))
    } else {
        Ok(())
    }
}

/// Refuse a write that changes the identity of an environment.
pub fn environment_identity(old: &ExecutionEnvironment, new: &ExecutionEnvironment) -> (r: Result<
    (),
    RepoError,
>)
    ensures
        repository::agrees(r, environment_identity_rule(*old, *new)),
{
    if !text::same_text(old.id.as_str(), new.id.as_str()) {
        return Err(is_immutable("environment", old.id.as_str(), "id"));
    }
    if !text::same_text(old.tenant_id.as_str(), new.tenant_id.as_str()) {
        return Err(is_immutable("environment", old.id.as_str(), "tenant_id"));
    }
    if !text::same_text(old.revision_id.as_str(), new.revision_id.as_str()) {
        return Err(is_immutable("environment", old.id.as_str(), "revision_id"));
    }
    if !text::same_text(old.provider.as_str(), new.provider.as_str()) {
        return Err(is_immutable("environment", old.id.as_str(), "provider"));
    }
    if !old.reuse_key.is_same(&new.reuse_key) {
        return Err(is_immutable("environment", old.id.as_str(), "reuse_key"));
    }
    if old.created_at != new.created_at {
        return Err(is_immutable("environment", old.id.as_str(), "created_at"));
    }
    Ok(())
}

/// What writing `new` over `old` does: an environment keeps its identity, a
/// terminal one is final, and the copy must be of the stored epoch. A plain
/// write neither makes an environment busy nor changes its owner or fencing.
pub open spec fn environment_rule(old: ExecutionEnvironment, new: ExecutionEnvironment) -> Result<
    Write,
    RepoErrorView,
> {
    if environment_identity_rule(old, new) is Err {
        Err(environment_identity_rule(old, new)->Err_0)
    } else if old.same(new) {
        Ok(Write::Unchanged)
    } else if old.state.terminal() {
        Err(final_row("environment"@, old.id@, old.state.spec_name()))
    } else if old.epoch != new.epoch {
        Err(
            RepoErrorView::Refused(
                "environment "@ + old.id@ + ": stale copy at epoch "@ + text::dec(
                    new.epoch as nat,
                ) + " (stored epoch "@ + text::dec(old.epoch as nat) + ")"@,
            ),
        )
    } else if new.state is Busy && !(old.state is Busy) {
        Err(
            RepoErrorView::Refused(
                "environment "@ + old.id@ + ": only an acquire makes it busy"@,
            ),
        )
    } else if text::opt_view(old.owner) != text::opt_view(new.owner) {
        Err(immutable("environment"@, old.id@, "owner"@))
    } else if old.fenced_at != new.fenced_at {
        Err(immutable("environment"@, old.id@, "fenced_at"@))
    } else {
        Ok(Write::Apply)
    }
}

/// What writing `new` over `old` does.
pub fn environment_update(old: &ExecutionEnvironment, new: &ExecutionEnvironment) -> (r: Result<
    Write,
    RepoError,
>)
    ensures
        repository::agrees(r, environment_rule(*old, *new)),
{
    match environment_identity(old, new) {
        Ok(_) => {},
        Err(e) => {
            return Err(e);
        },
    }
    if old.is_same(new) {
        return Ok(Write::Unchanged);
    }
    if old.state.is_terminal() {
        return Err(is_final("environment", old.id.as_str(), old.state.name()));
    }
    if old.epoch != new.epoch {
        let mut m = text::owned("environment ");
        m.append(old.id.as_str());
        m.append(": stale copy at epoch ");
        text::push_u64(&mut m, new.epoch);
        m.append(" (stored epoch ");
        text::push_u64(&mut m, old.epoch);
        m.append(")");
        return Err(RepoError::Refused(m));
    }
    if matches!(new.state, EnvironmentState::Busy) && !matches!(old.state, EnvironmentState::Busy) {
        let mut m = text::owned("environment ");
        m.append(old.id.as_str());
        m.append(": only an acquire makes it busy");
        return Err(RepoError::Refused(m));
    }
    if !text::same_opt(&old.owner, &new.owner) {
        return Err(is_immutable("environment", old.id.as_str(), "owner"));
    }
    if !crate::domain::same_time(old.fenced_at, new.fenced_at) {
        return Err(is_immutable("environment", old.id.as_str(), "fenced_at"));
    }
    Ok(Write::Apply)
}

/// A lease carries the tenant of its environment, if that exists.
pub fn lease_insert(env: Option<&ExecutionEnvironment>, lease: &ExecutionLease) -> (r: Result<
    (),
    RepoError,
>)
    ensures
        repository::agrees(
            r,
            match env {
                Some(e) => tenant_rule("lease"@, lease.id@, lease.tenant_id@, e.tenant_id@),
                None => Ok(()),
            },
        ),
{
    match env {
        Some(e) => same_tenant(
            "lease",
            lease.id.as_str(),
            lease.tenant_id.as_str(),
            e.tenant_id.as_str(),
        ),
        None => Ok(()),
    }
}

/// What writing `new` over `old` does: a lease keeps its identity, and a released one is final.
pub open spec fn lease_rule(old: ExecutionLease, new: ExecutionLease) -> Result<Write, RepoErrorView> {
    if old.id@ != new.id@ {
        Err(immutable("lease"@, old.id@, "id"@))
    } else if old.environment_id@ != new.environment_id@ {
        Err(immutable("lease"@, old.id@, "environment_id"@))
    } else if old.attempt_id@ != new.attempt_id@ {
        Err(immutable("lease"@, old.id@, "attempt_id"@))
    } else if old.tenant_id@ != new.tenant_id@ {
        Err(immutable("lease"@, old.id@, "tenant_id"@))
    } else if old.epoch != new.epoch {
        Err(immutable("lease"@, old.id@, "epoch"@))
    } else if old.acquired_at != new.acquired_at {
        Err(immutable("lease"@, old.id@, "acquired_at"@))
    } else if old.same(new) {
        Ok(Write::Unchanged)
    } else if old.released_at is Some {
        Err(RepoErrorView::Refused("lease "@ + old.id@ + " is released"@))
    } else {
        Ok(Write::Apply)
    }
}

/// What writing `new` over `old` does: a lease keeps its identity, and a released one is final.
pub fn lease_update(old: &ExecutionLease, new: &ExecutionLease) -> (r: Result<Write, RepoError>)
    ensures
        repository::agrees(r, lease_rule(*old, *new)),
{
    if !text::same_text(old.id.as_str(), new.id.as_str()) {
        return Err(is_immutable("lease", old.id.as_str(), "id"));
    }
    if !text::same_text(old.environment_id.as_str(), new.environment_id.as_str()) {
        return Err(is_immutable("lease", old.id.as_str(), "environment_id"));
    }
    if !text::same_text(old.attempt_id.as_str(), new.attempt_id.as_str()) {
        return Err(is_immutable("lease", old.id.as_str(), "attempt_id"));
    }
    if !text::same_text(old.tenant_id.as_str(), new.tenant_id.as_str()) {
        return Err(is_immutable("lease", old.id.as_str(), "tenant_id"));
    }
    if old.epoch != new.epoch {
        return Err(is_immutable("lease", old.id.as_str(), "epoch"));
    }
    if old.acquired_at != new.acquired_at {
        return Err(is_immutable("lease", old.id.as_str(), "acquired_at"));
    }
    if old.is_same(new) {
        return Ok(Write::Unchanged);
    }
    if old.released_at.is_some() {
        let mut m = text::owned("lease ");
        m.append(old.id.as_str());
        m.append(" is released");
        return Err(RepoError::Refused(m));
    }
    Ok(Write::Apply)
}

// ---------------------------------------------------------------------------
// what the guards promise
// ---------------------------------------------------------------------------

/// No write moves a row to another tenant.
pub proof fn law_a_row_never_changes_its_tenant(
    f: (Function, Function),
    r: (FunctionRevision, FunctionRevision),
    a: (FunctionAlias, FunctionAlias),
    i: (Invocation, Invocation),
    t: (InvocationAttempt, InvocationAttempt),
    e: (ExecutionEnvironment, ExecutionEnvironment),
    l: (ExecutionLease, ExecutionLease),
    max: u64,
)
    ensures
        function_rule(f.0, f.1) is Ok ==> f.0.tenant_id@ == f.1.tenant_id@,
        revision_rule(r.0, r.1) is Ok ==> r.0.tenant_id@ == r.1.tenant_id@,
        alias_rule(a.0, a.1) is Ok ==> a.0.tenant_id@ == a.1.tenant_id@,
        invocation_rule(i.0, i.1, max) is Ok ==> i.0.tenant_id@ == i.1.tenant_id@,
        attempt_rule(t.0, t.1) is Ok ==> t.0.tenant_id@ == t.1.tenant_id@,
        environment_rule(e.0, e.1) is Ok ==> e.0.tenant_id@ == e.1.tenant_id@,
        lease_rule(l.0, l.1) is Ok ==> l.0.tenant_id@ == l.1.tenant_id@,
{
}

/// A final row is never rewritten: the only write it takes is the identical
/// one, which changes nothing.
pub proof fn law_final_rows_are_never_rewritten(
    f: (Function, Function),
    r: (FunctionRevision, FunctionRevision),
    i: (Invocation, Invocation),
    t: (InvocationAttempt, InvocationAttempt),
    e: (ExecutionEnvironment, ExecutionEnvironment),
    l: (ExecutionLease, ExecutionLease),
    max: u64,
)
    ensures
        f.0.deleted() ==> function_rule(f.0, f.1) != Ok::<Write, RepoErrorView>(Write::Apply),
        r.0.status.terminal() ==> revision_rule(r.0, r.1) != Ok::<Write, RepoErrorView>(
            Write::Apply,
        ),
        i.0.status.terminal() ==> invocation_rule(i.0, i.1, max) != Ok::<Write, RepoErrorView>(
            Write::Apply,
        ),
        t.0.status.terminal() ==> attempt_rule(t.0, t.1) != Ok::<Write, RepoErrorView>(
            Write::Apply,
        ),
        e.0.state.terminal() ==> environment_rule(e.0, e.1) != Ok::<Write, RepoErrorView>(
            Write::Apply,
        ),
        l.0.released_at is Some ==> lease_rule(l.0, l.1) != Ok::<Write, RepoErrorView>(
            Write::Apply,
        ),
{
}

/// Writing the identical row again is a no-op, and nothing else is.
pub proof fn law_only_the_identical_row_is_a_no_op(
    f: (Function, Function),
    r: (FunctionRevision, FunctionRevision),
    i: (Invocation, Invocation),
    t: (InvocationAttempt, InvocationAttempt),
    e: (ExecutionEnvironment, ExecutionEnvironment),
    l: (ExecutionLease, ExecutionLease),
    max: u64,
)
    ensures
        f.0.same(f.1) == (function_rule(f.0, f.1) == Ok::<Write, RepoErrorView>(Write::Unchanged)),
        r.0.same(r.1) == (revision_rule(r.0, r.1) == Ok::<Write, RepoErrorView>(Write::Unchanged)),
        i.0.same(i.1) == (invocation_rule(i.0, i.1, max) == Ok::<Write, RepoErrorView>(
            Write::Unchanged,
        )),
        t.0.same(t.1) == (attempt_rule(t.0, t.1) == Ok::<Write, RepoErrorView>(Write::Unchanged)),
        e.0.same(e.1) == (environment_rule(e.0, e.1) == Ok::<Write, RepoErrorView>(
            Write::Unchanged,
        )),
        l.0.same(l.1) == (lease_rule(l.0, l.1) == Ok::<Write, RepoErrorView>(Write::Unchanged)),
{
}

/// A stale copy never overwrites a reassigned environment.
pub proof fn law_a_copy_of_another_epoch_is_refused(
    old: ExecutionEnvironment,
    new: ExecutionEnvironment,
)
    requires
        old.epoch != new.epoch,
    ensures
        environment_rule(old, new) is Err,
{
}

} // verus!
