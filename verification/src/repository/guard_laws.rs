//! Which writes the guards let through, and which content is the same.

use vstd::prelude::*;

use crate::domain::environment::{
    EnvironmentState, ExecutionEnvironment, ExecutionLease, ReuseKey,
};
use crate::domain::function::{Function, FunctionAlias, FunctionRevision, RevisionStatus};
use crate::domain::invocation::{
    AttemptStatus, Invocation, InvocationAttempt, InvocationError, InvocationStatus, PayloadRef,
};
use crate::repository::guard;
use crate::repository::guard::Write;
use crate::repository::RepoErrorView;
use crate::text;

verus! {

/// Two optional texts are both absent, or both there and equal.
pub open spec fn same_option(a: Option<String>, b: Option<String>) -> bool {
    (a is None && b is None) || (a is Some && b is Some && a->0@ == b->0@)
}

/// The write goes through and changes the row.
pub open spec fn applies(rule: Result<Write, RepoErrorView>) -> bool {
    rule is Ok && rule->Ok_0 is Apply
}

/// The write goes through and leaves the row as it is.
pub open spec fn is_no_op(rule: Result<Write, RepoErrorView>) -> bool {
    rule is Ok && rule->Ok_0 is Unchanged
}

/// Functions and aliases are the same where every field is.
pub proof fn law_equal_functions_agree_in_every_field(
    f: (Function, Function),
    a: (FunctionAlias, FunctionAlias),
)
    ensures
        f.0.same(f.1) <==> (f.0.id@ == f.1.id@ && f.0.tenant_id@ == f.1.tenant_id@ && f.0.name@
            == f.1.name@ && f.0.description@ == f.1.description@ && f.0.created_at
            == f.1.created_at && f.0.deleted_at == f.1.deleted_at),
        a.0.same(a.1) <==> (a.0.function_id@ == a.1.function_id@ && a.0.tenant_id@
            == a.1.tenant_id@ && a.0.name@ == a.1.name@ && a.0.revision_id@ == a.1.revision_id@
            && same_option(a.0.previous_revision_id, a.1.previous_revision_id) && a.0.generation
            == a.1.generation && a.0.created_at == a.1.created_at && a.0.updated_at
            == a.1.updated_at),
        f.0.deleted() <==> f.0.deleted_at is Some,
{
}

/// Two statuses of a revision are the same: the same variant, and the same
/// reason where it failed.
pub open spec fn same_revision_status(a: RevisionStatus, b: RevisionStatus) -> bool {
    ||| a is Pending && b is Pending
    ||| a is Preparing && b is Preparing
    ||| a is Validating && b is Validating
    ||| a is Ready && b is Ready
    ||| a is Failed && b is Failed && a->Failed_reason@ == b->Failed_reason@
}

/// Revisions are the same where every field is.
pub proof fn law_equal_revisions_agree_in_every_field(a: FunctionRevision, b: FunctionRevision)
    ensures
        a.status.same(b.status) <==> same_revision_status(a.status, b.status),
        a.same(b) <==> (a.id@ == b.id@ && a.function_id@ == b.function_id@ && a.tenant_id@
            == b.tenant_id@ && a.number == b.number && a.spec@ == b.spec@ && a.spec_digest@
            == b.spec_digest@ && same_revision_status(a.status, b.status) && a.created_at
            == b.created_at),
        a.status.terminal() <==> a.status is Ready || a.status is Failed,
{
}

/// Two errors are the same.
pub open spec fn same_error(a: InvocationError, b: InvocationError) -> bool {
    a.class == b.class && a.error_type@ == b.error_type@ && a.message@ == b.message@
}

/// Two statuses of an invocation are the same: the same variant, and the same
/// error where there is one.
pub open spec fn same_invocation_status(a: InvocationStatus, b: InvocationStatus) -> bool {
    ||| a is Accepted && b is Accepted
    ||| a is Queued && b is Queued
    ||| a is Running && b is Running
    ||| a is Succeeded && b is Succeeded
    ||| a is Cancelled && b is Cancelled
    ||| a is Failed && b is Failed && same_error(a->Failed_error, b->Failed_error)
    ||| a is OutcomeUnknown && b is OutcomeUnknown && same_error(
        a->OutcomeUnknown_error,
        b->OutcomeUnknown_error,
    )
}

/// Two outputs are the same.
pub open spec fn same_output(a: Option<PayloadRef>, b: Option<PayloadRef>) -> bool {
    match (a, b) {
        (None, None) => true,
        (
            Some(PayloadRef::Inline { bytes_base64: x, size_bytes: m }),
            Some(PayloadRef::Inline { bytes_base64: y, size_bytes: n }),
        ) => x@ == y@ && m == n,
        (
            Some(PayloadRef::Digest { digest: x, size_bytes: m }),
            Some(PayloadRef::Digest { digest: y, size_bytes: n }),
        ) => x@ == y@ && m == n,
        _ => false,
    }
}

/// Invocations are the same where every field is.
pub proof fn law_equal_invocations_agree_in_every_field(a: Invocation, b: Invocation)
    ensures
        a.status.same(b.status) <==> same_invocation_status(a.status, b.status),
        a.same(b) <==> (a.id@ == b.id@ && a.tenant_id@ == b.tenant_id@ && a.function_id@
            == b.function_id@ && same_option(a.alias, b.alias) && a.revision_id@ == b.revision_id@
            && a.mode == b.mode && a.event_kind@ == b.event_kind@ && a.deadlines == b.deadlines
            && same_option(a.idempotency_key, b.idempotency_key) && a.input_digest@
            == b.input_digest@ && a.input_size_bytes == b.input_size_bytes && a.trace_id@
            == b.trace_id@ && a.accepted_at == b.accepted_at && same_invocation_status(
            a.status,
            b.status,
        ) && text::texts_view(a.attempt_ids@) == text::texts_view(b.attempt_ids@) && same_output(
            a.output,
            b.output,
        ) && a.response_status == b.response_status && a.started_at == b.started_at && a.finished_at
            == b.finished_at && same_option(a.dispatcher_id, b.dispatcher_id)),
        a.status.terminal() <==> a.status is Succeeded || a.status is Failed || a.status is Cancelled
            || a.status is OutcomeUnknown,
{
}

/// Two statuses of an attempt are the same.
pub open spec fn same_attempt_status(a: AttemptStatus, b: AttemptStatus) -> bool {
    ||| a is Dispatched && b is Dispatched
    ||| a is Succeeded && b is Succeeded
    ||| a is Failed && b is Failed && same_error(a->Failed_error, b->Failed_error)
    ||| a is OutcomeUnknown && b is OutcomeUnknown && same_error(
        a->OutcomeUnknown_error,
        b->OutcomeUnknown_error,
    )
}

/// Attempts are the same where every field is.
pub proof fn law_equal_attempts_agree_in_every_field(a: InvocationAttempt, b: InvocationAttempt)
    ensures
        a.status.same(b.status) <==> same_attempt_status(a.status, b.status),
        a.same(b) <==> (a.id@ == b.id@ && a.invocation_id@ == b.invocation_id@ && a.tenant_id@
            == b.tenant_id@ && a.number == b.number && a.environment_id@ == b.environment_id@
            && a.epoch == b.epoch && a.start_kind == b.start_kind && a.dispatched_at
            == b.dispatched_at && same_attempt_status(a.status, b.status) && a.finished_at
            == b.finished_at),
        a.status.terminal() <==> a.status is Succeeded || a.status is Failed || a.status
            is OutcomeUnknown,
{
}

/// Two states of an environment are the same: the same variant, and the same
/// reason where it is lost.
pub open spec fn same_state(a: EnvironmentState, b: EnvironmentState) -> bool {
    ||| a is Requested && b is Requested
    ||| a is Provisioning && b is Provisioning
    ||| a is Initializing && b is Initializing
    ||| a is Ready && b is Ready
    ||| a is Busy && b is Busy
    ||| a is Idle && b is Idle
    ||| a is Draining && b is Draining
    ||| a is Stopped && b is Stopped
    ||| a is Lost && b is Lost && a->reason@ == b->reason@
}

/// Two reuse keys are the same.
pub open spec fn same_key(a: ReuseKey, b: ReuseKey) -> bool {
    &&& a.tenant_id@ == b.tenant_id@
    &&& a.revision_id@ == b.revision_id@
    &&& a.execution_role_version == b.execution_role_version
    &&& a.configuration_version == b.configuration_version
    &&& a.resource_profile_digest@ == b.resource_profile_digest@
    &&& a.runtime_profile@ == b.runtime_profile@
    &&& a.network_policy_version == b.network_policy_version
    &&& a.secret_binding_generation == b.secret_binding_generation
}

/// Environments are the same where every field is, and so are their reuse keys.
pub proof fn law_equal_environments_agree_in_every_field(
    a: ExecutionEnvironment,
    b: ExecutionEnvironment,
)
    ensures
        a.reuse_key.same(b.reuse_key) <==> same_key(a.reuse_key, b.reuse_key),
        a.state.same(b.state) <==> same_state(a.state, b.state),
        a.same(b) <==> (a.id@ == b.id@ && a.tenant_id@ == b.tenant_id@ && a.revision_id@
            == b.revision_id@ && a.provider@ == b.provider@ && same_key(a.reuse_key, b.reuse_key)
            && same_state(a.state, b.state) && a.epoch == b.epoch && a.created_at == b.created_at
            && a.updated_at == b.updated_at && a.idle_since == b.idle_since && same_option(
            a.owner,
            b.owner,
        ) && a.fenced_at == b.fenced_at),
        a.state.terminal() <==> a.state is Stopped || a.state is Lost,
{
}

/// Leases are the same where every field is. A lease takes the completion of
/// its own attempt at its own epoch only, and none once it is released.
pub proof fn law_equal_leases_agree_in_every_field(
    a: ExecutionLease,
    b: ExecutionLease,
    attempt: Seq<char>,
    epoch: u64,
)
    ensures
        a.same(b) <==> (a.id@ == b.id@ && a.environment_id@ == b.environment_id@ && a.attempt_id@
            == b.attempt_id@ && a.tenant_id@ == b.tenant_id@ && a.epoch == b.epoch
            && a.execution_deadline == b.execution_deadline && a.acquired_at == b.acquired_at
            && a.released_at == b.released_at && same_option(a.owner, b.owner) && a.expires_at
            == b.expires_at),
        a.takes(attempt, epoch) <==> a.released_at is None && a.attempt_id@ == attempt && a.epoch
            == epoch,
{
}

/// A row may have a parent of its own tenant only.
pub proof fn law_a_row_is_of_its_parents_tenant(
    kind: Seq<char>,
    id: Seq<char>,
    row: Seq<char>,
    parent: Seq<char>,
)
    ensures
        guard::tenant_rule(kind, id, row, parent) is Ok <==> row == parent,
        row != parent ==> guard::tenant_rule(kind, id, row, parent) == Err::<(), RepoErrorView>(
            RepoErrorView::Refused(kind + " "@ + id + " belongs to another tenant than its parent"@),
        ),
{
}

/// A function is rewritten where it is not deleted and keeps its id, its tenant,
/// its name and its age; every other change is refused.
pub proof fn law_which_function_writes_apply(old: Function, new: Function)
    ensures
        ({
            let rule = guard::function_rule(old, new);
            let kept = old.id@ == new.id@ && old.tenant_id@ == new.tenant_id@ && old.name@
                == new.name@ && old.created_at == new.created_at;
            &&& is_no_op(rule) <==> old.same(new)
            &&& applies(rule) <==> kept && !old.same(new) && old.deleted_at is None
            &&& rule is Err ==> rule->Err_0 is Refused
            &&& kept && !old.same(new) && old.deleted_at is Some ==> rule == Err::<
                Write,
                RepoErrorView,
            >(RepoErrorView::Refused("function "@ + old.id@ + " is deleted"@))
        }),
{
}

/// A revision is rewritten where it is not final and keeps everything but its
/// status.
pub proof fn law_which_revision_writes_apply(old: FunctionRevision, new: FunctionRevision)
    ensures
        ({
            let rule = guard::revision_rule(old, new);
            let kept = old.id@ == new.id@ && old.function_id@ == new.function_id@ && old.tenant_id@
                == new.tenant_id@ && old.number == new.number && old.spec@ == new.spec@
                && old.spec_digest@ == new.spec_digest@ && old.created_at == new.created_at;
            &&& is_no_op(rule) <==> old.same(new)
            &&& applies(rule) <==> kept && !same_revision_status(old.status, new.status) && !(
            old.status is Ready) && !(old.status is Failed)
            &&& rule is Err ==> rule->Err_0 is Refused
            &&& kept && !same_revision_status(old.status, new.status) && old.status is Ready
                ==> rule == Err::<Write, RepoErrorView>(
                RepoErrorView::Refused(
                    "revision"@ + " "@ + old.id@ + " is "@ + "ready"@ + " and final"@,
                ),
            )
        }),
{
}

/// An alias may point at an existing revision of its own function and tenant
/// only.
pub proof fn law_where_an_alias_may_point(
    function: Option<&Function>,
    revision: Option<&FunctionRevision>,
    alias: FunctionAlias,
)
    ensures
        guard::alias_target_rule(function, revision, alias) is Ok <==> (function is Some
            ==> function->0.tenant_id@ == alias.tenant_id@) && revision is Some
            && revision->0.function_id@ == alias.function_id@ && revision->0.tenant_id@
            == alias.tenant_id@,
        guard::alias_target_rule(function, revision, alias) is Err ==> guard::alias_target_rule(
            function,
            revision,
            alias,
        )->Err_0 is Refused,
{
}

/// An alias is rewritten where it keeps its function, its tenant, its name and
/// its age and its generation advances.
pub proof fn law_which_alias_writes_apply(old: FunctionAlias, new: FunctionAlias)
    ensures
        guard::alias_rule(old, new) is Ok <==> old.function_id@ == new.function_id@
            && old.tenant_id@ == new.tenant_id@ && old.name@ == new.name@ && old.created_at
            == new.created_at && new.generation > old.generation,
        guard::alias_rule(old, new) is Err ==> guard::alias_rule(old, new)->Err_0 is Refused,
{
}

/// An inline output is bounded: neither its size nor its encoding, at four
/// characters for every three bytes begun, may exceed the limit.
pub proof fn law_which_outputs_fit(inv: Invocation, max: u64)
    ensures
        guard::output_rule(inv, max) is Ok <==> match inv.output {
            Some(PayloadRef::Inline { bytes_base64, size_bytes }) => size_bytes <= max && (
            vstd::utf8::encode_utf8(bytes_base64@).len() <= (max + 2) / 3 * 4
                && vstd::utf8::encode_utf8(bytes_base64@).len() <= u64::MAX),
            _ => true,
        },
        guard::output_rule(inv, max) is Err ==> guard::output_rule(inv, max)->Err_0 is Refused,
{
}

/// What an invocation keeps whatever is written.
pub open spec fn identity_kept(old: Invocation, new: Invocation) -> bool {
    &&& old.id@ == new.id@
    &&& old.tenant_id@ == new.tenant_id@
    &&& old.function_id@ == new.function_id@
    &&& same_option(old.alias, new.alias)
    &&& old.mode == new.mode
    &&& old.event_kind@ == new.event_kind@
    &&& same_option(old.idempotency_key, new.idempotency_key)
    &&& old.input_digest@ == new.input_digest@
    &&& old.input_size_bytes == new.input_size_bytes
    &&& old.trace_id@ == new.trace_id@
    &&& old.accepted_at == new.accepted_at
}

/// An invocation is rewritten where it has not ended, keeps what it was accepted
/// with, and its output fits. It is inserted under a function of its tenant,
/// with an output that fits.
pub proof fn law_which_invocation_writes_apply(
    function: Option<&Function>,
    old: Invocation,
    new: Invocation,
    max: u64,
)
    ensures
        ({
            let rule = guard::invocation_rule(old, new, max);
            &&& is_no_op(rule) <==> old.same(new)
            &&& applies(rule) <==> identity_kept(old, new) && !old.same(new) && (old.status
                is Accepted || old.status is Queued || old.status is Running)
                && guard::output_rule(new, max) is Ok
            &&& rule is Err ==> rule->Err_0 is Refused
        }),
        guard::invocation_insert_rule(function, new, max) is Ok <==> (function is Some
            ==> function->0.tenant_id@ == new.tenant_id@) && guard::output_rule(new, max) is Ok,
        guard::invocation_insert_rule(function, new, max) is Err ==> guard::invocation_insert_rule(
            function,
            new,
            max,
        )->Err_0 is Refused,
{
}

/// An attempt is rewritten where it has not ended and keeps everything but its
/// status and its end.
pub proof fn law_which_attempt_writes_apply(old: InvocationAttempt, new: InvocationAttempt)
    ensures
        ({
            let rule = guard::attempt_rule(old, new);
            let kept = old.id@ == new.id@ && old.invocation_id@ == new.invocation_id@
                && old.tenant_id@ == new.tenant_id@ && old.number == new.number
                && old.environment_id@ == new.environment_id@ && old.epoch == new.epoch
                && old.start_kind == new.start_kind && old.dispatched_at == new.dispatched_at;
            &&& is_no_op(rule) <==> old.same(new)
            &&& applies(rule) <==> kept && !old.same(new) && old.status is Dispatched
            &&& rule is Err ==> rule->Err_0 is Refused
        }),
{
}

/// What an environment keeps whatever is written.
pub open spec fn environment_kept(old: ExecutionEnvironment, new: ExecutionEnvironment) -> bool {
    &&& old.id@ == new.id@
    &&& old.tenant_id@ == new.tenant_id@
    &&& old.revision_id@ == new.revision_id@
    &&& old.provider@ == new.provider@
    &&& same_key(old.reuse_key, new.reuse_key)
    &&& old.created_at == new.created_at
}

/// An environment is rewritten where it has not ended and the copy is of the
/// stored epoch and keeps its identity, its owner and its fence. Nobody is made
/// busy by a write. It is inserted under its own reuse key and a revision of
/// its tenant.
pub proof fn law_which_environment_writes_apply(
    revision: Option<&FunctionRevision>,
    old: ExecutionEnvironment,
    new: ExecutionEnvironment,
)
    ensures
        ({
            let rule = guard::environment_rule(old, new);
            &&& is_no_op(rule) <==> old.same(new)
            &&& applies(rule) <==> environment_kept(old, new) && !old.same(new) && !(old.state
                is Stopped) && !(old.state is Lost) && old.epoch == new.epoch && (new.state is Busy
                ==> old.state is Busy) && same_option(old.owner, new.owner) && old.fenced_at
                == new.fenced_at
            &&& rule is Err ==> rule->Err_0 is Refused
        }),
        guard::environment_identity_rule(old, new) is Ok <==> environment_kept(old, new),
        guard::environment_identity_rule(old, new) is Err ==> guard::environment_identity_rule(
            old,
            new,
        )->Err_0 is Refused,
        guard::environment_insert_rule(revision, new) is Ok <==> new.reuse_key.tenant_id@
            == new.tenant_id@ && new.reuse_key.revision_id@ == new.revision_id@ && (revision is Some
            ==> revision->0.tenant_id@ == new.tenant_id@),
        guard::environment_insert_rule(revision, new) is Err ==> guard::environment_insert_rule(
            revision,
            new,
        )->Err_0 is Refused,
{
}

/// A lease is rewritten where it is not released and keeps what it was acquired
/// with.
pub proof fn law_which_lease_writes_apply(old: ExecutionLease, new: ExecutionLease)
    ensures
        ({
            let rule = guard::lease_rule(old, new);
            let kept = old.id@ == new.id@ && old.environment_id@ == new.environment_id@
                && old.attempt_id@ == new.attempt_id@ && old.tenant_id@ == new.tenant_id@
                && old.epoch == new.epoch && old.acquired_at == new.acquired_at;
            &&& is_no_op(rule) <==> old.same(new)
            &&& applies(rule) <==> kept && !old.same(new) && old.released_at is None
            &&& rule is Err ==> rule->Err_0 is Refused
        }),
{
}

/// How a refused write is told: which field of which row may not change, or in
/// which status the row is final.
pub proof fn law_how_a_refusal_is_told(
    f: (Function, Function),
    i: (Invocation, Invocation),
    e: (ExecutionEnvironment, ExecutionEnvironment),
    max: u64,
)
    ensures
        f.0.id@ == f.1.id@ && f.0.tenant_id@ != f.1.tenant_id@ ==> guard::function_rule(f.0, f.1)
            == Err::<Write, RepoErrorView>(
            RepoErrorView::Refused(
                "function"@ + " "@ + f.0.id@ + ": `"@ + "tenant_id"@ + "` is immutable"@,
            ),
        ),
        identity_kept(i.0, i.1) && !i.0.same(i.1) && i.0.status is Succeeded
            ==> guard::invocation_rule(i.0, i.1, max) == Err::<Write, RepoErrorView>(
            RepoErrorView::Refused(
                "invocation"@ + " "@ + i.0.id@ + " is "@ + "succeeded"@ + " and final"@,
            ),
        ),
        environment_kept(e.0, e.1) && !e.0.same(e.1) && e.0.state is Lost
            ==> guard::environment_rule(e.0, e.1) == Err::<Write, RepoErrorView>(
            RepoErrorView::Refused(
                "environment"@ + " "@ + e.0.id@ + " is "@ + "lost"@ + " and final"@,
            ),
        ),
{
}

} // verus!
