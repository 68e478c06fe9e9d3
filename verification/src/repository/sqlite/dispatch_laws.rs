//! What claiming, settling, reaping and redriving asynchronous invocations
//! promise, row by row.

use vstd::prelude::*;

use crate::domain::function::Function;
use crate::domain::invocation::{Invocation, InvocationMode, InvocationStatus};
use crate::repository::dispatch::{
    ClaimOutcome, ClaimRequest, DeadLetter, DeadLetterStatus, DispatchFence, DispatchRecord,
    DispatchSettle, DispatchState, RedriveWrite,
};
use crate::repository::guard;
use crate::repository::guard::Write;
use crate::repository::sqlite;
use crate::repository::sqlite::dispatch;
use crate::repository::sqlite::dispatch::{PendingRun, SettleCheck};
use crate::repository::RepoErrorView;
use crate::text;
use crate::time;
use crate::time::{Span, Timestamp};

verus! {

/// The invocation has not ended.
pub open spec fn is_open(inv: Invocation) -> bool {
    inv.status is Accepted || inv.status is Queued || inv.status is Running
}

/// The row of an invocation that was never claimed waits for its first run.
pub proof fn law_an_unclaimed_row_waits_for_its_first_run(inv: Invocation)
    ensures
        ({
            let row = dispatch::current(None, inv);
            &&& row.invocation_id@ == inv.id@
            &&& row.tenant_id@ == inv.tenant_id@
            &&& row.function_id@ == inv.function_id@
            &&& row.state == DispatchState::Scheduled
            &&& row.generation == 0
            &&& row.attempts == 0
            &&& row.deferrals == 0
            &&& row.claimed_by is None
            &&& row.claim_expires_at is None
            &&& row.next_attempt_at is None
            &&& row.first_attempt_at is None
            &&& row.last_attempt_at is None
            &&& row.updated_at == inv.accepted_at
            &&& row.last_error is None
        }),
        forall|row: DispatchRecord| dispatch::current(Some(row), inv) == row,
{
}

/// A due delivery is claimed: where the invocation has not ended, is
/// asynchronous and has an input, the delivery is of the row's generation, no
/// claim is live, and the row is not waiting for a later try, the caller wins.
/// The row runs until the time to live is over, counts one more attempt, and
/// keeps the rest.
pub proof fn law_a_due_delivery_is_claimed(
    request: ClaimRequest,
    inv: Invocation,
    row: DispatchRecord,
)
    requires
        is_open(inv),
        inv.mode == InvocationMode::Async,
        request.generation == row.generation,
        row.state is Running && row.claimed_by is Some && row.claim_expires_at is Some
            ==> row.claim_expires_at->0 <= request.now,
        row.state is Scheduled && row.next_attempt_at is Some ==> row.next_attempt_at->0
            <= request.now,
    ensures
        ({
            let r = dispatch::claim_rule(request, Some(inv), true, Some(row));
            &&& r is Ok
            &&& r->Ok_0 is Claimed
            &&& *r->Ok_0->Claimed_invocation == inv
            &&& ({
                let won = *r->Ok_0->Claimed_record;
                &&& won.state == DispatchState::Running
                &&& won.claimed_by == Some(request.owner)
                &&& won.claim_expires_at == Some(time::after(request.now, request.ttl))
                &&& row.attempts < u32::MAX ==> won.attempts == row.attempts + 1
                &&& row.attempts == u32::MAX ==> won.attempts == u32::MAX
                &&& won.generation == row.generation
                &&& won.deferrals == row.deferrals
                &&& won.invocation_id == row.invocation_id
                &&& won.tenant_id == row.tenant_id
                &&& won.function_id == row.function_id
                &&& won.next_attempt_at == row.next_attempt_at
                &&& row.first_attempt_at is Some ==> won.first_attempt_at == row.first_attempt_at
                &&& row.first_attempt_at is None ==> won.first_attempt_at == Some(request.now)
                &&& won.last_attempt_at == Some(request.now)
                &&& won.updated_at == request.now
                &&& won.last_error == row.last_error
            })
        }),
{
}

/// The first delivery of an invocation that was never claimed is claimed, as
/// its first attempt.
pub proof fn law_the_first_delivery_is_claimed(request: ClaimRequest, inv: Invocation)
    requires
        is_open(inv),
        inv.mode == InvocationMode::Async,
    ensures
        ({
            let r = dispatch::claim_rule(request, Some(inv), true, None);
            &&& r is Ok
            &&& request.generation == 0 ==> r->Ok_0 is Claimed
                && r->Ok_0->Claimed_record.state == DispatchState::Running
                && r->Ok_0->Claimed_record.attempts == 1
                && r->Ok_0->Claimed_record.claimed_by == Some(request.owner)
                && r->Ok_0->Claimed_record.invocation_id@ == inv.id@
            &&& request.generation != 0 ==> r->Ok_0 == (ClaimOutcome::Stale { current: 0 })
        }),
{
}

/// Whoever does not win a claim is told why: there is no such invocation, it
/// ended, it is not asynchronous or has no input, the delivery is of another
/// generation, another run holds the claim, or the next try is not due.
pub proof fn law_a_refused_claim_says_why(
    request: ClaimRequest,
    inv: Invocation,
    has_input: bool,
    row: DispatchRecord,
)
    ensures
        dispatch::claim_rule(request, None, has_input, Some(row)) == Err::<
            ClaimOutcome,
            RepoErrorView,
        >(RepoErrorView::NotFound("invocation"@ + " "@ + request.invocation_id@)),
        ({
            let r = dispatch::claim_rule(request, Some(inv), has_input, Some(row));
            let held = row.state is Running && row.claimed_by is Some && row.claim_expires_at is Some
                && row.claim_expires_at->0 > request.now;
            &&& !is_open(inv) ==> r == Ok::<ClaimOutcome, RepoErrorView>(
                ClaimOutcome::Terminal(Box::new(inv)),
            )
            &&& is_open(inv) && (inv.mode != InvocationMode::Async || !has_input) ==> r == Err::<
                ClaimOutcome,
                RepoErrorView,
            >(
                RepoErrorView::Refused(
                    "invocation "@ + request.invocation_id@ + " is not an asynchronous invocation"@,
                ),
            )
            &&& is_open(inv) && inv.mode == InvocationMode::Async && has_input ==> {
                &&& request.generation != row.generation ==> r == Ok::<ClaimOutcome, RepoErrorView>(
                    ClaimOutcome::Stale { current: row.generation },
                )
                &&& request.generation == row.generation && held ==> r == Ok::<
                    ClaimOutcome,
                    RepoErrorView,
                >(
                    ClaimOutcome::Held {
                        owner: row.claimed_by->0,
                        expires_at: row.claim_expires_at->0,
                    },
                )
                &&& request.generation == row.generation && row.state is Scheduled
                    && row.next_attempt_at is Some && row.next_attempt_at->0 > request.now ==> r
                    == Ok::<ClaimOutcome, RepoErrorView>(
                    ClaimOutcome::NotDue { at: row.next_attempt_at->0 },
                )
            }
        }),
{
}

/// A claim is renewed by the run that holds it, and by no other: the row runs,
/// under that owner, and is at that attempt.
pub proof fn law_a_run_is_told_by_owner_and_attempt(
    row: DispatchRecord,
    owner: Seq<char>,
    attempts: u32,
    now: Timestamp,
)
    ensures
        row.runs(owner, attempts) <==> row.state is Running && row.claimed_by is Some
            && row.claimed_by->0@ == owner && row.attempts == attempts,
        row.held(now) <==> row.state is Running && row.claimed_by is Some
            && row.claim_expires_at is Some && row.claim_expires_at->0 > now,
{
}

/// The fence of a settle holds: the run still has its claim, or nobody has one
/// and the row is still at the generation.
pub open spec fn fence_holds(fence: DispatchFence, row: DispatchRecord, now: Timestamp) -> bool {
    match fence {
        DispatchFence::Claim { owner, attempts } => row.state is Running && row.claimed_by is Some
            && row.claimed_by->0@ == owner@ && row.attempts == attempts,
        DispatchFence::Unclaimed { generation } => row.generation == generation && !(
        row.state is Running && row.claimed_by is Some && row.claim_expires_at is Some
            && row.claim_expires_at->0 > now),
    }
}

/// A settle commits exactly where its fence holds on an invocation that has
/// not ended, it ends the invocation or schedules a retry, the change of the
/// invocation is in order, the next event is the invocation's own and one
/// generation on, the generation fits, and a dead letter is the invocation's
/// own.
pub proof fn law_when_a_settle_commits(
    settle: DispatchSettle,
    old: Invocation,
    row: DispatchRecord,
    max_inline: u64,
)
    ensures
        dispatch::settle_rule(settle, Some(&old), Some(row), max_inline) is Commit <==> {
            let inv = settle.invocation;
            &&& is_open(old)
            &&& fence_holds(settle.fence, row, settle.now)
            &&& is_open(inv) ==> settle.state == DispatchState::Scheduled
            &&& guard::invocation_rule(old, inv, max_inline) is Ok
            &&& settle.republish is Some ==> settle.republish->0.event_id@ == inv.id@
                && settle.republish->0.tenant_id@ == inv.tenant_id@
                && settle.republish->0.generation == row.generation + 1
            &&& settle.republish is Some ==> settle.republish->0.generation <= i64::MAX
            &&& settle.republish is None ==> row.generation <= i64::MAX
            &&& settle.dead_letter is Some ==> settle.dead_letter->0.tenant_id@ == inv.tenant_id@
                && settle.dead_letter->0.invocation_id is Some
                && settle.dead_letter->0.invocation_id->0@ == inv.id@
        },
        dispatch::settle_rule(settle, Some(&old), Some(row), max_inline) is Commit
            ==> guard::invocation_rule(old, settle.invocation, max_inline) == Ok::<
            Write,
            RepoErrorView,
        >(dispatch::settle_rule(settle, Some(&old), Some(row), max_inline)->Commit_write),
        dispatch::settle_rule(settle, Some(&old), None, max_inline) == dispatch::settle_rule(
            settle,
            Some(&old),
            Some(dispatch::current(None, old)),
            max_inline,
        ),
{
}

/// Nothing is lost without a lost fence: a settle is answered as lost exactly
/// where the invocation ended or the fence does not hold.
pub proof fn law_when_a_settle_is_lost(
    settle: DispatchSettle,
    old: Invocation,
    row: DispatchRecord,
    max_inline: u64,
)
    ensures
        dispatch::settle_rule(settle, Some(&old), Some(row), max_inline) is Lost <==> !is_open(old)
            || !fence_holds(settle.fence, row, settle.now),
        dispatch::settle_rule(settle, None, Some(row), max_inline) == SettleCheck::Bad(
            RepoErrorView::NotFound("invocation"@ + " "@ + settle.invocation.id@),
        ),
        !is_open(old) ==> dispatch::settle_rule(settle, Some(&old), Some(row), max_inline)
            == SettleCheck::Lost("invocation "@ + old.id@ + " is already "@ + match old.status {
            InvocationStatus::Succeeded => "succeeded"@,
            InvocationStatus::Failed { .. } => "failed"@,
            InvocationStatus::Cancelled => "cancelled"@,
            _ => "outcome_unknown"@,
        }),
{
}

/// What a settle writes into the row: the state and the due time it asks for,
/// no claim, its error where it has one, the next generation where it
/// republishes. A run that counts keeps its attempt; one that does not gives
/// it back where it held a claim, and is a deferral.
pub proof fn law_what_a_settle_writes(
    settle: DispatchSettle,
    old: Invocation,
    row: DispatchRecord,
    max_inline: u64,
)
    requires
        dispatch::settle_rule(settle, Some(&old), Some(row), max_inline) is Commit,
    ensures
        ({
            let r = dispatch::settle_rule(settle, Some(&old), Some(row), max_inline)->Commit_record;
            &&& r.state == settle.state
            &&& r.next_attempt_at == settle.next_attempt_at
            &&& r.claimed_by is None
            &&& r.claim_expires_at is None
            &&& r.updated_at == settle.now
            &&& settle.last_error is Some ==> r.last_error == settle.last_error
            &&& settle.last_error is None ==> r.last_error == row.last_error
            &&& settle.republish is Some ==> r.generation == row.generation + 1
            &&& settle.republish is None ==> r.generation == row.generation
            &&& settle.counted ==> r.attempts == row.attempts && r.deferrals == row.deferrals
            &&& !settle.counted && settle.fence is Claim && row.attempts > 0 ==> r.attempts
                == row.attempts - 1
            &&& !settle.counted && settle.fence is Claim && row.attempts == 0 ==> r.attempts == 0
            &&& !settle.counted && settle.fence is Unclaimed ==> r.attempts == row.attempts
            &&& !settle.counted && row.deferrals < u32::MAX ==> r.deferrals == row.deferrals + 1
            &&& !settle.counted && row.deferrals == u32::MAX ==> r.deferrals == u32::MAX
            &&& r.invocation_id == row.invocation_id
            &&& r.tenant_id == row.tenant_id
            &&& r.function_id == row.function_id
            &&& r.first_attempt_at == row.first_attempt_at
            &&& r.last_attempt_at == row.last_attempt_at
        }),
{
}

/// A scheduled retry is not run before it is due, and is run from then on: a
/// claim of the settled row's generation is answered that it is not due before
/// the time the settle asked for, and is won at any time from it on.
pub proof fn law_a_scheduled_retry_waits_until_it_is_due(
    settle: DispatchSettle,
    old: Invocation,
    row: DispatchRecord,
    max_inline: u64,
    due: Timestamp,
    inv: Invocation,
    request: ClaimRequest,
)
    requires
        dispatch::settle_rule(settle, Some(&old), Some(row), max_inline) is Commit,
        settle.state == DispatchState::Scheduled,
        settle.next_attempt_at == Some(due),
        is_open(inv),
        inv.mode == InvocationMode::Async,
        request.generation == dispatch::settle_rule(
            settle,
            Some(&old),
            Some(row),
            max_inline,
        )->Commit_record.generation,
    ensures
        ({
            let r = dispatch::settle_rule(settle, Some(&old), Some(row), max_inline)->Commit_record;
            let again = dispatch::claim_rule(request, Some(inv), true, Some(r));
            &&& r.next_attempt_at == Some(due)
            &&& request.now < due ==> again == Ok::<ClaimOutcome, RepoErrorView>(
                ClaimOutcome::NotDue { at: due },
            )
            &&& request.now >= due ==> again is Ok && again->Ok_0 is Claimed
                && again->Ok_0->Claimed_record.claimed_by == Some(request.owner)
        }),
{
}

/// A retry without a due time is run at once.
pub proof fn law_a_retry_without_a_due_time_is_run_at_once(
    settle: DispatchSettle,
    old: Invocation,
    row: DispatchRecord,
    max_inline: u64,
    inv: Invocation,
    request: ClaimRequest,
)
    requires
        dispatch::settle_rule(settle, Some(&old), Some(row), max_inline) is Commit,
        settle.state == DispatchState::Scheduled,
        settle.next_attempt_at is None,
        is_open(inv),
        inv.mode == InvocationMode::Async,
        request.generation == dispatch::settle_rule(
            settle,
            Some(&old),
            Some(row),
            max_inline,
        )->Commit_record.generation,
    ensures
        ({
            let r = dispatch::settle_rule(settle, Some(&old), Some(row), max_inline)->Commit_record;
            let again = dispatch::claim_rule(request, Some(inv), true, Some(r));
            again is Ok && again->Ok_0 is Claimed
        }),
{
}

/// A refused settle says what is wrong with it, in this order: it neither ends
/// the invocation nor schedules a retry, the change of the invocation is
/// refused, the next event does not follow, the generation does not fit, the
/// dead letter is not the invocation's own.
pub proof fn law_a_refused_settle_says_why(
    settle: DispatchSettle,
    old: Invocation,
    row: DispatchRecord,
    max_inline: u64,
)
    requires
        is_open(old),
        fence_holds(settle.fence, row, settle.now),
    ensures
        ({
            let inv = settle.invocation;
            let r = dispatch::settle_rule(settle, Some(&old), Some(row), max_inline);
            let in_order = !is_open(inv) || settle.state == DispatchState::Scheduled;
            let change = guard::invocation_rule(old, inv, max_inline);
            let follows = settle.republish is Some ==> settle.republish->0.event_id@ == inv.id@
                && settle.republish->0.tenant_id@ == inv.tenant_id@
                && settle.republish->0.generation == row.generation + 1;
            let g = match settle.republish {
                Some(e) => e.generation,
                None => row.generation,
            };
            &&& !in_order ==> r == SettleCheck::Bad(
                RepoErrorView::Refused(
                    "only a scheduled retry leaves the invocation non-terminal"@,
                ),
            )
            &&& in_order && change is Err ==> r == SettleCheck::Bad(change->Err_0)
            &&& in_order && change is Ok && !follows ==> r == SettleCheck::Bad(
                RepoErrorView::Refused(
                    "the next event of invocation "@ + inv.id@ + " must be its generation "@
                        + text::dec((row.generation + 1) as nat),
                ),
            )
            &&& in_order && change is Ok && follows && g > i64::MAX ==> r == SettleCheck::Bad(
                sqlite::too_big("dispatch generation"@, g as nat),
            )
            &&& in_order && change is Ok && follows && g <= i64::MAX && settle.dead_letter is Some
                && !(settle.dead_letter->0.tenant_id@ == inv.tenant_id@
                && settle.dead_letter->0.invocation_id is Some
                && settle.dead_letter->0.invocation_id->0@ == inv.id@) ==> r == SettleCheck::Bad(
                RepoErrorView::Refused("a dead letter must name its own invocation and tenant"@),
            )
        }),
{
}

/// A pending run is due for the reaper: its claim expired; or it is past its
/// maximum age and nobody runs it; or it waits for a try that became due long
/// ago, its event went out long ago or is gone, and it was accepted long ago.
pub open spec fn is_abandoned(
    p: PendingRun,
    now: Timestamp,
    quiet_before: Timestamp,
    accepted_before: Timestamp,
) -> bool {
    let inv = p.invocation;
    match p.record {
        None => {
            ||| inv.accepted_at <= accepted_before
            ||| inv.accepted_at <= quiet_before && (p.outbox is Some ==> p.outbox->0.sent_at is Some
                && p.outbox->0.sent_at->0 <= quiet_before)
        },
        Some(d) => {
            let expired = d.claim_expires_at is Some && d.claim_expires_at->0 <= now;
            ||| d.state == DispatchState::Running && expired
            ||| d.state != DispatchState::Running && inv.accepted_at <= accepted_before
            ||| d.state == DispatchState::Scheduled && inv.accepted_at <= quiet_before && (
            p.outbox is Some ==> p.outbox->0.sent_at is Some && p.outbox->0.sent_at->0
                <= quiet_before) && (d.next_attempt_at is Some ==> d.next_attempt_at->0
                <= quiet_before)
        },
    }
}

/// `at` are the places of the first `limit` abandoned runs, in order.
pub open spec fn first_abandoned(
    rows: Seq<PendingRun>,
    n: nat,
    now: Timestamp,
    quiet_before: Timestamp,
    accepted_before: Timestamp,
    limit: nat,
    at: Seq<int>,
) -> bool {
    &&& at.len() <= limit
    &&& forall|i: int|
        0 <= i < at.len() ==> 0 <= #[trigger] at[i] < n && is_abandoned(
            rows[at[i]],
            now,
            quiet_before,
            accepted_before,
        )
    &&& forall|i: int, j: int| 0 <= i < j < at.len() ==> #[trigger] at[i] < #[trigger] at[j]
    &&& forall|k: int|
        0 <= k < n && is_abandoned(#[trigger] rows[k], now, quiet_before, accepted_before)
            ==> at.contains(k) || (at.len() == limit && forall|i: int|
            0 <= i < at.len() ==> #[trigger] at[i] < k)
}

/// The reaper is handed the abandoned runs and no other, the first ones where
/// there are more than it asked for, each with its row, or that of a run never
/// claimed, and its event.
pub proof fn law_the_reaper_gets_the_abandoned_runs(
    rows: Seq<PendingRun>,
    n: nat,
    now: Timestamp,
    quiet_before: Timestamp,
    accepted_before: Timestamp,
    limit: nat,
) -> (at: Seq<int>)
    requires
        n <= rows.len(),
    ensures
        first_abandoned(rows, n, now, quiet_before, accepted_before, limit, at),
        ({
            let r = dispatch::candidates_of(
                rows,
                n,
                now,
                quiet_before,
                accepted_before,
                limit,
            );
            &&& r.len() == at.len()
            &&& forall|i: int|
                0 <= i < r.len() ==> (#[trigger] r[i]).invocation == rows[at[i]].invocation
                    && r[i].outbox == rows[at[i]].outbox && (rows[at[i]].record is Some
                    ==> r[i].record == rows[at[i]].record->0) && (rows[at[i]].record is None
                    ==> r[i].record.attempts == 0 && r[i].record.generation == 0
                    && r[i].record.invocation_id@ == rows[at[i]].invocation.id@)
        }),
    decreases n,
{
    if n == 0 {
        Seq::empty()
    } else {
        let had = law_the_reaper_gets_the_abandoned_runs(
            rows,
            (n - 1) as nat,
            now,
            quiet_before,
            accepted_before,
            limit,
        );
        let p = rows[n - 1];
        if had.len() < limit && is_abandoned(p, now, quiet_before, accepted_before) {
            let at = had.push(n - 1);
            assert(at[had.len() as int] == n - 1);
            assert forall|k: int|
                0 <= k < n && is_abandoned(
                    #[trigger] rows[k],
                    now,
                    quiet_before,
                    accepted_before,
                ) implies at.contains(k) by {
                if k < n - 1 {
                    assert(had.contains(k));
                    let i = had.index_of(k);
                    assert(at[i] == k);
                }
            }
            at
        } else {
            had
        }
    }
}

/// A redrive succeeds exactly on an open dead letter, within its tenant,
/// function and invocation, with an invocation that can be inserted. The dead
/// letter is then redriven, once more and at the time of the new acceptance,
/// and otherwise as it was.
pub proof fn law_what_a_redrive_does(
    write: RedriveWrite,
    dead: DeadLetter,
    exists: bool,
    function: Option<&Function>,
    max_inline: u64,
)
    ensures
        ({
            let r = dispatch::redrive_rule(write, Some(dead), exists, function, max_inline);
            let own = write.invocation.tenant_id@ == dead.tenant_id@ && write.input.tenant_id@
                == dead.tenant_id@ && write.event.tenant_id@ == dead.tenant_id@
                && write.redrive.tenant_id@ == dead.tenant_id@ && write.input.invocation_id@
                == write.invocation.id@ && write.event.event_id@ == write.invocation.id@
                && write.redrive.invocation_id@ == write.invocation.id@ && dead.function_id is Some
                && dead.function_id->0@ == write.invocation.function_id@
                && dead.invocation_id is Some && dead.invocation_id->0@
                == write.redrive.source_invocation_id@;
            let inserted = sqlite::insert_rule(exists, function, write.invocation, max_inline);
            &&& r is Ok <==> dead.status == DeadLetterStatus::Open && own && inserted is Ok
            &&& dead.status == DeadLetterStatus::Open && !own ==> r == Err::<
                DeadLetter,
                RepoErrorView,
            >(
                RepoErrorView::Refused(
                    "a redrive must stay within its dead letter's tenant and function"@,
                ),
            )
            &&& dead.status == DeadLetterStatus::Open && own && inserted is Err ==> r == Err::<
                DeadLetter,
                RepoErrorView,
            >(inserted->Err_0)
            &&& r is Ok ==> {
                let d = r->Ok_0;
                &&& d.status == DeadLetterStatus::Redriven
                &&& d.redriven_at == Some(write.invocation.accepted_at)
                &&& dead.redrive_count < u32::MAX ==> d.redrive_count == dead.redrive_count + 1
                &&& dead.redrive_count == u32::MAX ==> d.redrive_count == u32::MAX
                &&& d == (DeadLetter {
                    status: d.status,
                    redrive_count: d.redrive_count,
                    redriven_at: d.redriven_at,
                    ..dead
                })
            }
        }),
        dispatch::redrive_rule(write, None, exists, function, max_inline) == Err::<
            DeadLetter,
            RepoErrorView,
        >(RepoErrorView::NotFound("dead letter"@ + " "@ + write.dead_letter_id@)),
{
}

/// A row is read column by column: the ids, the state by its name, the counts,
/// the instants and the error stand where they were written.
pub proof fn law_a_dispatch_row_is_read_by_its_columns(raw: dispatch::RecordColumns)
    requires
        dispatch::record_rule(raw) is Ok,
    ensures
        ({
            let r = dispatch::record_rule(raw)->Ok_0;
            &&& r.invocation_id@ == raw.invocation_id@
            &&& r.tenant_id@ == raw.tenant_id@
            &&& r.function_id@ == raw.function_id@
            &&& raw.state@ == match r.state {
                DispatchState::Running => "running"@,
                DispatchState::Scheduled => "scheduled"@,
                DispatchState::Done => "done"@,
                DispatchState::Dead => "dead"@,
            }
            &&& raw.generation >= 0 ==> r.generation == raw.generation
            &&& 0 <= raw.attempts <= u32::MAX ==> r.attempts == raw.attempts
            &&& 0 <= raw.deferrals <= u32::MAX ==> r.deferrals == raw.deferrals
            &&& r.claimed_by == raw.claimed_by
            &&& time::parsed_opt_ts(text::opt_view(raw.claim_expires_at)) == Ok::<
                Option<Timestamp>,
                RepoErrorView,
            >(r.claim_expires_at)
            &&& time::parsed_opt_ts(text::opt_view(raw.next_attempt_at)) == Ok::<
                Option<Timestamp>,
                RepoErrorView,
            >(r.next_attempt_at)
            &&& time::parsed_opt_ts(text::opt_view(raw.first_attempt_at)) == Ok::<
                Option<Timestamp>,
                RepoErrorView,
            >(r.first_attempt_at)
            &&& time::parsed_opt_ts(text::opt_view(raw.last_attempt_at)) == Ok::<
                Option<Timestamp>,
                RepoErrorView,
            >(r.last_attempt_at)
            &&& time::parsed_ts(raw.updated_at@) == Ok::<Timestamp, RepoErrorView>(r.updated_at)
            &&& raw.last_error is None ==> r.last_error is None
            &&& raw.last_error is Some ==> raw.last_error->0 is Ok && r.last_error == Some(
                raw.last_error->0->Ok_0,
            )
        }),
{
}

/// A claim is renewed by the run that holds it only: its owner, at its attempt,
/// while it runs. It then lasts `ttl` from now, and nothing else changes.
pub proof fn law_who_renews_a_claim(
    record: Option<DispatchRecord>,
    owner: Seq<char>,
    attempts: u32,
    now: Timestamp,
    ttl: Span,
)
    ensures
        ({
            let r = dispatch::renewed(record, owner, attempts, now, ttl);
            let row = record->0;
            &&& r is Some <==> record is Some && row.state is Running && row.claimed_by is Some
                && row.claimed_by->0@ == owner && row.attempts == attempts
            &&& r is Some ==> r->0 == (DispatchRecord {
                claim_expires_at: Some(time::after(now, ttl)),
                updated_at: now,
                ..row
            })
        }),
{
}

/// A dead letter of an unreadable message names no invocation, and a redrive
/// that did not mark exactly its dead letter came too late.
pub proof fn law_when_a_dead_letter_is_refused(dead: DeadLetter, n: usize, id: Seq<char>)
    ensures
        dispatch::poison_rule(dead) is Ok <==> dead.invocation_id is None,
        dispatch::poison_rule(dead) is Err ==> dispatch::poison_rule(dead)->Err_0 is Refused,
        dispatch::redrive_commit_rule(n, id) is Ok <==> n == 1,
        dispatch::redrive_commit_rule(n, id) is Err ==> dispatch::redrive_commit_rule(n, id)->Err_0
            is Conflict,
{
}

/// A row of the dispatch table is written by its columns: every field under its
/// own name, each state by its name.
pub proof fn law_a_dispatch_row_is_written_by_its_columns(
    r: DispatchRecord,
    c: dispatch::RecordColumns,
)
    requires
        dispatch::written_as(r, c),
    ensures
        c.invocation_id@ == r.invocation_id@,
        c.tenant_id@ == r.tenant_id@,
        c.function_id@ == r.function_id@,
        c.state@ == match r.state {
            DispatchState::Running => "running"@,
            DispatchState::Scheduled => "scheduled"@,
            DispatchState::Done => "done"@,
            DispatchState::Dead => "dead"@,
        },
        c.generation == r.generation,
        c.attempts == r.attempts,
        c.deferrals == r.deferrals,
        text::opt_view(c.claimed_by) == text::opt_view(r.claimed_by),
        text::opt_view(c.claim_expires_at) == time::opt_ts_text(r.claim_expires_at),
        text::opt_view(c.next_attempt_at) == time::opt_ts_text(r.next_attempt_at),
        text::opt_view(c.first_attempt_at) == time::opt_ts_text(r.first_attempt_at),
        text::opt_view(c.last_attempt_at) == time::opt_ts_text(r.last_attempt_at),
        c.updated_at@ == time::ts_text(r.updated_at),
        c.last_error is Some <==> r.last_error is Some,
        r.last_error is Some ==> c.last_error->0 is Ok && c.last_error->0->Ok_0 == r.last_error->0,
{
}

} // verus!
