//! Which rows are written, and what their columns hold.

use vstd::prelude::*;

use crate::domain::environment::{EnvironmentState, ExecutionEnvironment, ExecutionLease, ReuseKey};
use crate::domain::function::{Function, FunctionAlias, FunctionRevision, RevisionStatus};
use crate::domain::invocation::{
    AttemptStatus, Invocation, InvocationAttempt, InvocationStatus, PayloadRef,
};
use crate::repository::guard;
use crate::repository::guard::Write;
use crate::repository::guard_laws;
use crate::repository::sqlite;
use crate::repository::sqlite::import;
use crate::repository::sqlite::import::Import;
use crate::repository::sqlite::migrations;
use crate::repository::sqlite::migrations::{Migration, MIGRATIONS};
use crate::repository::sqlite::outputs;
use crate::repository::sqlite::publication;
use crate::repository::sqlite::publication::PublishedColumns;
use crate::repository::sqlite::rows;
use crate::repository::sqlite::rows::{
    AliasColumns, AttemptColumns, BindingColumns, BoundPlan, EnvironmentColumns, FunctionColumns,
    InvocationColumns, KeyColumns, LeaseColumns, RevisionColumns,
};
use crate::repository::sqlite::SqliteOptions;
use crate::repository::store_laws;
use crate::repository::{IdempotencyBinding, RepoError, RepoErrorView};
use crate::text;
use crate::time;
use crate::time::Timestamp;

verus! {

/// A function is inserted where its id is new and its name is free, and
/// rewritten where it is there and the guard allows it. Its row holds its name
/// as a live one while it is not deleted.
pub proof fn law_how_function_rows_are_written(
    exists: bool,
    taken: bool,
    old: Option<&Function>,
    f: Function,
    c: FunctionColumns,
)
    ensures
        rows::function_insert_rule(exists, taken, f) is Ok <==> !exists && (f.deleted_at is Some
            || !taken),
        rows::function_insert_rule(exists, taken, f) is Err ==> rows::function_insert_rule(
            exists,
            taken,
            f,
        )->Err_0 is Conflict,
        old is Some ==> rows::function_update_rule(old, f) == guard::function_rule(*old->0, f),
        old is None ==> rows::function_update_rule(old, f) == Err::<Write, RepoErrorView>(
            RepoErrorView::NotFound("function"@ + " "@ + f.id@),
        ),
        rows::is_function_row(c, f) <==> c.id@ == f.id@ && c.tenant_id@ == f.tenant_id@ && c.name@
            == f.name@ && (c.live_name is Some <==> f.deleted_at is None) && (f.deleted_at is None
            ==> c.live_name->0@ == f.name@) && c.created_at@ == time::ts_text(f.created_at),
{
}

/// A revision is inserted where its id is new and it is of its function's
/// tenant, and rewritten where it is there and the guard allows it. A number
/// that is taken is told as such.
pub proof fn law_how_revision_rows_are_written(
    exists: bool,
    function: Option<&Function>,
    old: Option<&FunctionRevision>,
    v: FunctionRevision,
    c: RevisionColumns,
    e: RepoErrorView,
)
    ensures
        rows::revision_insert_rule(exists, function, v) is Ok <==> !exists && (function is Some
            ==> function->0.tenant_id@ == v.tenant_id@),
        old is Some ==> rows::revision_update_rule(old, v) == guard::revision_rule(*old->0, v),
        old is None ==> rows::revision_update_rule(old, v) == Err::<Write, RepoErrorView>(
            RepoErrorView::NotFound("revision"@ + " "@ + v.id@),
        ),
        rows::is_revision_row(c, v) <==> c.id@ == v.id@ && c.function_id@ == v.function_id@
            && c.tenant_id@ == v.tenant_id@ && c.number == v.number && c.status@ == (
        match v.status {
            RevisionStatus::Pending => "pending"@,
            RevisionStatus::Preparing => "preparing"@,
            RevisionStatus::Validating => "validating"@,
            RevisionStatus::Ready => "ready"@,
            RevisionStatus::Failed { .. } => "failed"@,
        }) && c.spec_digest@ == v.spec_digest@ && c.created_at@ == time::ts_text(v.created_at),
        e is Conflict ==> rows::conflict_told(e, v) == RepoErrorView::Conflict(
            "revision number "@ + text::dec(v.number as nat) + " already exists for function "@
                + v.function_id@,
        ),
        !(e is Conflict) ==> rows::conflict_told(e, v) == e,
{
}

/// The numbers of a function's revisions count up from one; a number is given
/// out only where the counter was written once.
pub proof fn law_which_number_comes_next(function: Seq<char>, last: Option<i64>, written: usize)
    ensures
        rows::number_after(last) == if last is Some {
            last->0 + 1
        } else {
            1
        },
        rows::number_rule(function, last, written) is Ok <==> (last is Some ==> written == 1 && last->0
            >= -1),
        rows::number_rule(function, last, written) is Ok ==> rows::number_rule(
            function,
            last,
            written,
        )->Ok_0 == if last is Some {
            last->0 + 1
        } else {
            1
        },
{
}

/// An alias is inserted where there is none of its name and it points well; a
/// compare-and-set moves it where it is at the expected generation, the guard
/// allows it and it points well.
pub proof fn law_how_alias_rows_are_written(
    exists: bool,
    current: Option<&FunctionAlias>,
    function: Option<&Function>,
    revision: Option<&FunctionRevision>,
    a: FunctionAlias,
    expected: u64,
    c: AliasColumns,
)
    ensures
        rows::alias_insert_rule(exists, function, revision, a) is Ok <==> !exists
            && guard::alias_target_rule(function, revision, a) is Ok,
        exists ==> rows::alias_insert_rule(exists, function, revision, a) == Err::<
            (),
            RepoErrorView,
        >(RepoErrorView::Conflict("alias `"@ + a.name@ + "` already exists"@)),
        rows::alias_set_rule(current, function, revision, a, expected) == Ok::<bool, RepoErrorView>(
            true,
        ) <==> current is Some && current->0.generation == expected && guard::alias_rule(
            *current->0,
            a,
        ) is Ok && guard::alias_target_rule(function, revision, a) is Ok,
        rows::alias_set_rule(current, function, revision, a, expected) == Ok::<bool, RepoErrorView>(
            false,
        ) <==> current is Some && current->0.generation != expected,
        rows::is_alias_row(c, a) <==> c.function_id@ == a.function_id@ && c.name@ == a.name@
            && c.tenant_id@ == a.tenant_id@ && c.revision_id@ == a.revision_id@ && c.generation
            == a.generation && c.updated_at@ == time::ts_text(a.updated_at),
{
}

/// The kind of an output, as a column names it.
pub open spec fn kind_of(output: Option<PayloadRef>) -> Option<Seq<char>> {
    match output {
        None => None,
        Some(PayloadRef::Inline { .. }) => Some("inline"@),
        Some(PayloadRef::Digest { .. }) => Some("digest"@),
    }
}

/// The row of an invocation holds what it is, whether it has ended, and until
/// when an inline output is kept.
pub proof fn law_what_an_invocation_row_holds(
    c: InvocationColumns,
    inv: Invocation,
    options: SqliteOptions,
)
    requires
        rows::is_invocation_row(c, inv, options),
    ensures
        c.id@ == inv.id@,
        c.tenant_id@ == inv.tenant_id@,
        c.function_id@ == inv.function_id@,
        c.revision_id@ == inv.revision_id@,
        c.status@ == match inv.status {
            InvocationStatus::Accepted => "accepted"@,
            InvocationStatus::Queued => "queued"@,
            InvocationStatus::Running => "running"@,
            InvocationStatus::Succeeded => "succeeded"@,
            InvocationStatus::Failed { .. } => "failed"@,
            InvocationStatus::Cancelled => "cancelled"@,
            InvocationStatus::OutcomeUnknown { .. } => "outcome_unknown"@,
        },
        c.terminal == if inv.status is Accepted || inv.status is Queued || inv.status is Running {
            0int
        } else {
            1
        },
        c.accepted_at@ == time::ts_text(inv.accepted_at),
        text::opt_view(c.finished_at) == time::opt_ts_text(inv.finished_at),
        c.input_digest@ == inv.input_digest@,
        rows::name_view(c.output_kind) == kind_of(inv.output),
        text::opt_view(c.output_expires_at) == time::opt_ts_text(
            if inv.output is Some && inv.output->0 is Inline {
                store_laws::bound_until(inv, options.output_retention)
            } else {
                None
            },
        ),
        guard_laws::same_option(c.owner_id, inv.dispatcher_id),
{
}

/// The row of a key holds the invocation that it is bound to and until when.
pub proof fn law_what_a_binding_row_holds(
    c: BindingColumns,
    inv: Invocation,
    options: SqliteOptions,
    id: String,
    digest: String,
    raw: Option<Seq<char>>,
)
    ensures
        rows::is_binding_row(c, inv, options) ==> inv.idempotency_key is Some && c.tenant_id@
            == inv.tenant_id@ && c.function_id@ == inv.function_id@ && c.idem_key@
            == inv.idempotency_key->0@ && c.invocation_id@ == inv.id@ && c.input_digest@
            == inv.input_digest@ && text::opt_view(c.expires_at) == time::opt_ts_text(
            store_laws::bound_until(inv, options.idempotency_retention),
        ),
        raw is None ==> rows::binding_rule(id, digest, raw) == Ok::<
            IdempotencyBinding,
            RepoErrorView,
        >(IdempotencyBinding { invocation_id: id, input_digest: digest, expires_at: None }),
        raw is Some && time::read_ts(raw->0) is Ok ==> rows::binding_rule(id, digest, raw) == Ok::<
            IdempotencyBinding,
            RepoErrorView,
        >(
            IdempotencyBinding {
                invocation_id: id,
                input_digest: digest,
                expires_at: Some(time::read_ts(raw->0)->Ok_0),
            },
        ),
        raw is Some && time::read_ts(raw->0) is Err ==> rows::binding_rule(id, digest, raw) is Err,
{
}

/// An invocation whose key answers is not inserted; any other is inserted where
/// its id is new, it is of its function's tenant and its output fits, together
/// with its key where it has one.
pub proof fn law_when_a_bound_row_is_inserted(
    binding: Option<IdempotencyBinding>,
    exists: bool,
    function: Option<&Function>,
    inv: Invocation,
    max_inline: u64,
    options: SqliteOptions,
    r: Result<BoundPlan, RepoError>,
)
    requires
        rows::bound_plan(binding, exists, function, inv, max_inline, options, r),
    ensures
        ({
            let replay = inv.idempotency_key is Some && binding is Some;
            let fits = !exists && (function is Some ==> function->0.tenant_id@ == inv.tenant_id@)
                && guard::output_rule(inv, max_inline) is Ok;
            &&& replay <==> r is Ok && r->Ok_0 is Existing
            &&& replay ==> r->Ok_0->Existing_0 == binding->0
            &&& !replay && fits <==> r is Ok && r->Ok_0 is Insert
            &&& !replay && !fits <==> r is Err
            &&& r is Ok && r->Ok_0 is Insert ==> r->Ok_0->Insert_0.id@ == inv.id@ && (
            r->Ok_0->Insert_1 is Some <==> inv.idempotency_key is Some)
        }),
{
}

/// An invocation, an attempt, an environment and a lease are rewritten where
/// they are there and the guard allows it, and inserted where their id is new
/// and they are of their parent's tenant.
pub proof fn law_how_work_rows_are_written(
    exists: bool,
    i: (Option<&Invocation>, Invocation),
    a: (Option<&InvocationAttempt>, InvocationAttempt),
    e: (Option<&ExecutionEnvironment>, ExecutionEnvironment),
    revision: Option<&FunctionRevision>,
    function: Option<&Function>,
    max_inline: u64,
)
    ensures
        sqlite::insert_rule(exists, function, i.1, max_inline) is Ok <==> !exists && (function
            is Some ==> function->0.tenant_id@ == i.1.tenant_id@) && guard::output_rule(
            i.1,
            max_inline,
        ) is Ok,
        i.0 is Some ==> rows::invocation_update_rule(i.0, i.1, max_inline)
            == guard::invocation_rule(*i.0->0, i.1, max_inline),
        i.0 is None ==> rows::invocation_update_rule(i.0, i.1, max_inline) == Err::<
            Write,
            RepoErrorView,
        >(RepoErrorView::NotFound("invocation"@ + " "@ + i.1.id@)),
        rows::attempt_insert_rule(exists, i.0, a.1) is Ok <==> !exists && (i.0 is Some
            ==> i.0->0.tenant_id@ == a.1.tenant_id@),
        a.0 is Some ==> rows::attempt_update_rule(a.0, a.1) == guard::attempt_rule(*a.0->0, a.1),
        a.0 is None ==> rows::attempt_update_rule(a.0, a.1) == Err::<Write, RepoErrorView>(
            RepoErrorView::NotFound("attempt"@ + " "@ + a.1.id@),
        ),
        rows::environment_insert_rule(exists, revision, e.1) is Ok <==> !exists
            && guard::environment_insert_rule(revision, e.1) is Ok,
        e.0 is Some ==> rows::environment_update_rule(e.0, e.1) == guard::environment_rule(
            *e.0->0,
            e.1,
        ),
        e.0 is None ==> rows::environment_update_rule(e.0, e.1) == Err::<Write, RepoErrorView>(
            RepoErrorView::NotFound("environment"@ + " "@ + e.1.id@),
        ),
{
}

/// The row of an attempt holds what it is and whether it has ended.
pub proof fn law_what_an_attempt_row_holds(c: AttemptColumns, a: InvocationAttempt)
    requires
        rows::is_attempt_row(c, a),
    ensures
        c.id@ == a.id@,
        c.invocation_id@ == a.invocation_id@,
        c.tenant_id@ == a.tenant_id@,
        c.number == a.number,
        c.environment_id@ == a.environment_id@,
        c.epoch == a.epoch,
        c.status@ == match a.status {
            AttemptStatus::Dispatched => "dispatched"@,
            AttemptStatus::Succeeded => "succeeded"@,
            AttemptStatus::Failed { .. } => "failed"@,
            AttemptStatus::OutcomeUnknown { .. } => "outcome_unknown"@,
        },
        c.terminal == if a.status is Dispatched {
            0int
        } else {
            1
        },
{
}

/// The columns of a reuse key hold the key, its counters as the same bits.
pub open spec fn holds_key(c: KeyColumns, k: ReuseKey) -> bool {
    &&& c.tenant_id@ == k.tenant_id@
    &&& c.revision_id@ == k.revision_id@
    &&& sqlite::spec_unsigned(c.execution_role_version) == k.execution_role_version
    &&& sqlite::spec_unsigned(c.configuration_version) == k.configuration_version
    &&& c.resource_profile_digest@ == k.resource_profile_digest@
    &&& c.runtime_profile@ == k.runtime_profile@
    &&& sqlite::spec_unsigned(c.network_policy_version) == k.network_policy_version
    &&& sqlite::spec_unsigned(c.secret_binding_generation) == k.secret_binding_generation
}

/// The row of an environment holds what it is, its key, whether it has ended and
/// whether it is fenced.
pub proof fn law_what_an_environment_row_holds(c: EnvironmentColumns, e: ExecutionEnvironment)
    requires
        rows::is_environment_row(c, e),
    ensures
        c.id@ == e.id@,
        c.provider@ == e.provider@,
        c.state@ == match e.state {
            EnvironmentState::Requested => "requested"@,
            EnvironmentState::Provisioning => "provisioning"@,
            EnvironmentState::Initializing => "initializing"@,
            EnvironmentState::Ready => "ready"@,
            EnvironmentState::Busy => "busy"@,
            EnvironmentState::Idle => "idle"@,
            EnvironmentState::Draining => "draining"@,
            EnvironmentState::Stopped => "stopped"@,
            EnvironmentState::Lost { .. } => "lost"@,
        },
        c.terminal == if e.state is Stopped || e.state is Lost {
            1int
        } else {
            0
        },
        c.epoch == e.epoch,
        holds_key(c.key, e.reuse_key),
        text::opt_view(c.idle_since) == time::opt_ts_text(e.idle_since),
        c.created_at@ == time::ts_text(e.created_at),
        guard_laws::same_option(c.owner_id, e.owner),
        c.fenced == if e.fenced_at is Some {
            1int
        } else {
            0
        },
{
}

/// The row of a lease holds what it is, whether it is released, whose it is and
/// until when.
pub proof fn law_what_a_lease_row_holds(c: LeaseColumns, l: ExecutionLease)
    requires
        rows::is_lease_row(c, l),
    ensures
        c.id@ == l.id@,
        c.environment_id@ == l.environment_id@,
        c.attempt_id@ == l.attempt_id@,
        c.tenant_id@ == l.tenant_id@,
        c.epoch == l.epoch,
        c.deadline@ == time::ts_text(l.execution_deadline),
        c.released == if l.released_at is Some {
            1int
        } else {
            0
        },
        guard_laws::same_option(c.owner_id, l.owner),
        text::opt_view(c.expires_at) == time::opt_ts_text(l.expires_at),
{
}

/// A number that fits a signed column is stored as it is; a larger one is
/// refused.
pub proof fn law_which_numbers_fit(v: u64, what: Seq<char>)
    ensures
        v <= i64::MAX ==> sqlite::big_rule(v, what) == Ok::<i64, RepoErrorView>(v as i64),
        v > i64::MAX ==> sqlite::big_rule(v, what) == Err::<i64, RepoErrorView>(
            RepoErrorView::Refused(what + " "@ + text::dec(v as nat) + " does not fit a BIGINT"@),
        ),
{
}

/// The body of an inline output is what it decodes to, or its own text where it
/// does not decode; once its time is over, its digest takes its place and its
/// size stays.
pub proof fn law_what_becomes_of_an_output(
    inv: Invocation,
    digest: String,
    raw: Seq<char>,
    expires_at: Option<Timestamp>,
    now: Timestamp,
)
    ensures
        outputs::bytes_of(inv.output) is Some <==> inv.output is Some && inv.output->0 is Inline,
        inv.output is Some && inv.output->0 is Inline ==> outputs::bytes_of(inv.output)->0 == ({
            let text = inv.output->0->bytes_base64@;
            if outputs::decoded(text) is Some {
                outputs::decoded(text)->0
            } else {
                vstd::utf8::encode_utf8(text)
            }
        }),
        inv.output is Some && inv.output->0 is Inline ==> outputs::digested(inv, digest) == (
        Invocation {
            output: Some(
                PayloadRef::Digest { digest, size_bytes: inv.output->0->Inline_size_bytes },
            ),
            ..inv
        }),
        !(inv.output is Some && inv.output->0 is Inline) ==> outputs::digested(inv, digest) == inv,
        outputs::is_over(expires_at, now) <==> expires_at is Some && expires_at->0 <= now,
{
}

/// A state file is imported into an empty database only. One that was imported
/// before is only moved aside; beside rows of another origin it is refused.
pub proof fn law_when_a_state_file_is_imported(
    digest: Seq<char>,
    imported: Option<Seq<char>>,
    has_rows: bool,
    json: Seq<char>,
    db: Seq<char>,
)
    ensures
        ({
            let rule = import::import_rule(digest, imported, has_rows, json, db);
            let known = imported is Some && imported->0 == digest;
            &&& known <==> rule == Ok::<Import, RepoErrorView>(Import::MoveOnly)
            &&& !known && !has_rows <==> rule == Ok::<Import, RepoErrorView>(Import::Rows)
            &&& !known && has_rows <==> rule is Err
            &&& rule is Err ==> rule->Err_0 is Refused
        }),
{
}

/// The migrations that are pending are those above the stored version, up to
/// the target or the latest, one after the other.
pub proof fn law_which_migrations_are_pending(
    steps: Seq<Migration>,
    current: i64,
    target: i64,
    version: int,
)
    requires
        migrations::is_pending(steps, current, target),
    ensures
        (exists|i: int| 0 <= i < steps.len() && (#[trigger] steps[i]).version == version) <==> (1
            <= version <= MIGRATIONS@.len() && current < version <= target),
        forall|i: int|
            0 <= i < steps.len() ==> (#[trigger] steps[i]).name@
                == MIGRATIONS@[steps[i].version - 1].1@,
{
    migrations::law_versions_are_contiguous(0);
    let first: int = if current < 0 {
        0
    } else {
        current as int
    };
    if 1 <= version <= MIGRATIONS@.len() && current < version <= target {
        assert(steps[version - first - 1].version == version);
    }
}

/// A published row is read as it was stored, and a counter that was never
/// written is zero.
pub proof fn law_how_publications_are_read(c: PublishedColumns, raw: Option<Seq<char>>)
    ensures
        ({
            let row = publication::published_rule(c);
            &&& c.generation >= 0 ==> row.generation == c.generation
            &&& c.natural_version >= 0 ==> row.natural_version == c.natural_version
            &&& row.digest == c.digest
            &&& row.body == c.body
        }),
        raw is None ==> publication::counter_rule(raw) == Ok::<u64, RepoErrorView>(0),
        raw is Some && text::read_u64(raw->0) is Some ==> publication::counter_rule(raw) == Ok::<
            u64,
            RepoErrorView,
        >(text::read_u64(raw->0)->0),
        raw is Some && text::read_u64(raw->0) is None ==> publication::counter_rule(raw) is Err
            && publication::counter_rule(raw)->Err_0 is Serialization,
{
}

/// A violated constraint is a conflict; every other failure is the store's own.
pub proof fn law_what_a_failure_means(words: Seq<char>)
    ensures
        sqlite::failure_of(true, words) == RepoErrorView::Conflict(words),
        sqlite::failure_of(false, words) == RepoErrorView::Store(words),
{
}

/// A compare-and-set goes through where it wrote one row; else the row changed
/// meanwhile.
pub proof fn law_one_row_is_written(n: usize, kind: Seq<char>, id: Seq<char>)
    ensures
        sqlite::one_row_rule(n, kind, id) is Ok <==> n == 1,
        n != 1 ==> sqlite::one_row_rule(n, kind, id) == Err::<(), RepoErrorView>(
            RepoErrorView::Refused(kind + " "@ + id + " changed concurrently"@),
        ),
{
}

/// A list asks for as many rows as it is told to, as far as the database can
/// count.
pub proof fn law_how_many_rows_are_asked_for(limit: usize)
    ensures
        rows::limit_of(limit) == limit || (limit > i64::MAX && rows::limit_of(limit) == i64::MAX),
{
}

/// A step that failed is named by its number, in three digits at least, and by
/// its name; a database of a newer schema is refused.
pub proof fn law_how_a_failed_step_is_told(step: Migration, words: Seq<char>, current: int)
    ensures
        0 <= step.version < 10 ==> migrations::failed_step(step, words) == RepoErrorView::Store(
            "migration "@ + ("0"@ + "0"@ + text::dec(step.version as nat)) + "_"@ + step.name@
                + " failed: "@ + words,
        ),
        10 <= step.version < 100 ==> migrations::failed_step(step, words) == RepoErrorView::Store(
            "migration "@ + ("0"@ + text::dec(step.version as nat)) + "_"@ + step.name@
                + " failed: "@ + words,
        ),
        100 <= step.version ==> migrations::failed_step(step, words) == RepoErrorView::Store(
            "migration "@ + text::dec(step.version as nat) + "_"@ + step.name@ + " failed: "@
                + words,
        ),
        migrations::too_new(current) is Refused,
        migrations::LATEST == 5,
{
    let d = text::dec(step.version as nat);
    let none = Seq::<char>::empty();
    assert("0"@ + none + d =~= "0"@ + d);
    assert(none + none + d =~= d);
}

/// Two reuse keys are the same row where they agree in every column.
pub proof fn law_when_reuse_keys_are_the_same_row(a: KeyColumns, b: KeyColumns)
    ensures
        a.same(b) <==> (a.tenant_id@ == b.tenant_id@ && a.revision_id@ == b.revision_id@
            && a.execution_role_version == b.execution_role_version && a.configuration_version
            == b.configuration_version && a.resource_profile_digest@ == b.resource_profile_digest@
            && a.runtime_profile@ == b.runtime_profile@ && a.network_policy_version
            == b.network_policy_version && a.secret_binding_generation
            == b.secret_binding_generation),
{
}

} // verus!
