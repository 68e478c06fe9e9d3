//! Claims, settles, dead letters and redrives: what each transaction decides
//! from the rows it read and what it writes.

use vstd::prelude::*;

use crate::domain::function::Function;
use crate::domain::invocation::{Invocation, InvocationError, InvocationMode};
use crate::repository::dispatch::{
    ClaimOutcome, ClaimRequest, DeadLetter, DeadLetterStatus, DispatchCandidate, DispatchFence,
    DispatchRecord, DispatchSettle, DispatchState, RedriveWrite,
};
use crate::repository::guard;
use crate::repository::guard::Write;
use crate::repository::outbox::OutboxEvent;
use crate::repository::sqlite;
use crate::repository::{RepoError, RepoErrorView};
use crate::text;
use crate::time;
use crate::time::{Span, Timestamp};

verus! {

/// The columns of a dispatch row. The last error is a document of its own:
/// what reading it gave.
#[derive(Debug, PartialEq, Eq)]
pub struct RecordColumns {
    pub invocation_id: String,
    pub tenant_id: String,
    pub function_id: String,
    pub state: String,
    pub generation: i64,
    pub attempts: i64,
    pub deferrals: i64,
    pub claimed_by: Option<String>,
    pub claim_expires_at: Option<String>,
    pub next_attempt_at: Option<String>,
    pub first_attempt_at: Option<String>,
    pub last_attempt_at: Option<String>,
    pub updated_at: String,
    pub last_error: Option<Result<InvocationError, String>>,
}

/// A count as a column keeps it.
pub open spec fn count_of(v: i64) -> u32 {
    if v < 0 {
        0
    } else if v > u32::MAX {
        u32::MAX
    } else {
        v as u32
    }
}

fn count(v: i64) -> (r: u32)
    ensures
        r == count_of(v),
{
    if v < 0 {
        0
    } else if v > u32::MAX as i64 {
        u32::MAX
    } else {
        v as u32
    }
}

/// A column that names no dispatch state.
pub open spec fn bad_state(raw: Seq<char>) -> RepoErrorView {
    RepoErrorView::Serialization("dispatch state `"@ + raw + "`"@)
}

/// The record of a row, but for its last error.
pub open spec fn record_body(
    raw: RecordColumns,
    state: DispatchState,
    claim_expires_at: Option<Timestamp>,
    next_attempt_at: Option<Timestamp>,
    first_attempt_at: Option<Timestamp>,
    last_attempt_at: Option<Timestamp>,
    updated_at: Timestamp,
) -> Result<DispatchRecord, RepoErrorView> {
    let record = DispatchRecord {
        invocation_id: raw.invocation_id,
        tenant_id: raw.tenant_id,
        function_id: raw.function_id,
        state,
        generation: if raw.generation < 0 {
            0
        } else {
            raw.generation as u64
        },
        attempts: count_of(raw.attempts),
        deferrals: count_of(raw.deferrals),
        claimed_by: raw.claimed_by,
        claim_expires_at,
        next_attempt_at,
        first_attempt_at,
        last_attempt_at,
        updated_at,
        last_error: None,
    };
    match raw.last_error {
        None => Ok(record),
        Some(Ok(e)) => Ok(DispatchRecord { last_error: Some(e), ..record }),
        Some(Err(m)) => Err(RepoErrorView::Serialization(m@)),
    }
}

/// The record a row holds, or the first column that cannot be read.
pub open spec fn record_rule(raw: RecordColumns) -> Result<DispatchRecord, RepoErrorView> {
    match DispatchState::spec_parse(raw.state@) {
        None => Err(bad_state(raw.state@)),
        Some(state) => match time::parsed_opt_ts(text::opt_view(raw.claim_expires_at)) {
            Err(e) => Err(e),
            Ok(claim) => match time::parsed_opt_ts(text::opt_view(raw.next_attempt_at)) {
                Err(e) => Err(e),
                Ok(next) => match time::parsed_opt_ts(text::opt_view(raw.first_attempt_at)) {
                    Err(e) => Err(e),
                    Ok(first) => match time::parsed_opt_ts(text::opt_view(raw.last_attempt_at)) {
                        Err(e) => Err(e),
                        Ok(last) => match time::parsed_ts(raw.updated_at@) {
                            Err(e) => Err(e),
                            Ok(updated) => record_body(
                                raw,
                                state,
                                claim,
                                next,
                                first,
                                last,
                                updated,
                            ),
                        },
                    },
                },
            },
        },
    }
}

/// The record a row holds.
pub fn record_of(raw: RecordColumns) -> (r: Result<DispatchRecord, RepoError>)
    ensures
        crate::repository::agrees(r, record_rule(raw)),
{
    let state = match DispatchState::parse(raw.state.as_str()) {
        Some(s) => s,
        None => {
            let mut m = text::owned("dispatch state `");
            m.append(raw.state.as_str());
            m.append("`");
            return Err(RepoError::Serialization(m));
        },
    };
    let claim_expires_at = match time::parse_opt_ts(&raw.claim_expires_at) {
        Ok(t) => t,
        Err(e) => return Err(e),
    };
    let next_attempt_at = match time::parse_opt_ts(&raw.next_attempt_at) {
        Ok(t) => t,
        Err(e) => return Err(e),
    };
    let first_attempt_at = match time::parse_opt_ts(&raw.first_attempt_at) {
        Ok(t) => t,
        Err(e) => return Err(e),
    };
    let last_attempt_at = match time::parse_opt_ts(&raw.last_attempt_at) {
        Ok(t) => t,
        Err(e) => return Err(e),
    };
    let updated_at: Timestamp = match time::parse_ts(raw.updated_at.as_str()) {
        Ok(t) => t,
        Err(e) => return Err(e),
    };
    let last_error = match raw.last_error {
        None => None,
        Some(Ok(e)) => Some(e),
        Some(Err(m)) => return Err(RepoError::Serialization(m)),
    };
    Ok(
        DispatchRecord {
            invocation_id: raw.invocation_id,
            tenant_id: raw.tenant_id,
            function_id: raw.function_id,
            state,
            generation: if raw.generation < 0 {
                0
            } else {
                raw.generation as u64
            },
            attempts: count(raw.attempts),
            deferrals: count(raw.deferrals),
            claimed_by: raw.claimed_by,
            claim_expires_at,
            next_attempt_at,
            first_attempt_at,
            last_attempt_at,
            updated_at,
            last_error,
        },
    )
}

/// Every instant of a record is one that dates can name.
pub open spec fn dated(r: DispatchRecord) -> bool {
    &&& time::opt_in_calendar(r.claim_expires_at)
    &&& time::opt_in_calendar(r.next_attempt_at)
    &&& time::opt_in_calendar(r.first_attempt_at)
    &&& time::opt_in_calendar(r.last_attempt_at)
    &&& time::in_calendar(r.updated_at)
}

/// Every instant of a record is in a year of four digits.
pub open spec fn four_digits(r: DispatchRecord) -> bool {
    &&& (r.claim_expires_at is Some ==> time::four_digit_year(r.claim_expires_at->0))
    &&& (r.next_attempt_at is Some ==> time::four_digit_year(r.next_attempt_at->0))
    &&& (r.first_attempt_at is Some ==> time::four_digit_year(r.first_attempt_at->0))
    &&& (r.last_attempt_at is Some ==> time::four_digit_year(r.last_attempt_at->0))
    &&& time::four_digit_year(r.updated_at)
}

/// The columns a record is written into.
pub open spec fn written_as(r: DispatchRecord, c: RecordColumns) -> bool {
    &&& c.invocation_id@ == r.invocation_id@
    &&& c.tenant_id@ == r.tenant_id@
    &&& c.function_id@ == r.function_id@
    &&& c.state@ == r.state.spec_name()
    &&& c.generation == r.generation
    &&& c.attempts == r.attempts
    &&& c.deferrals == r.deferrals
    &&& text::opt_view(c.claimed_by) == text::opt_view(r.claimed_by)
    &&& text::opt_view(c.claim_expires_at) == time::opt_ts_text(r.claim_expires_at)
    &&& text::opt_view(c.next_attempt_at) == time::opt_ts_text(r.next_attempt_at)
    &&& text::opt_view(c.first_attempt_at) == time::opt_ts_text(r.first_attempt_at)
    &&& text::opt_view(c.last_attempt_at) == time::opt_ts_text(r.last_attempt_at)
    &&& c.updated_at@ == time::ts_text(r.updated_at)
    &&& c.last_error == match r.last_error {
        Some(e) => Some(Ok::<InvocationError, String>(e)),
        None => None,
    }
}

/// The columns of a record. A generation that no column holds is refused;
/// whatever is written is read back as the record it was written for.
pub fn record_columns(record: &DispatchRecord) -> (r: Result<RecordColumns, RepoError>)
    requires
        dated(*record),
    ensures
        r is Ok <==> record.generation <= sqlite::BIGINT_MAX,
        r is Ok ==> written_as(*record, r->Ok_0),
        r is Ok && four_digits(*record) ==> record_rule(r->Ok_0) == Ok::<
            DispatchRecord,
            RepoErrorView,
        >(*record),
        r is Err ==> r->Err_0@ == sqlite::too_big(
            "dispatch generation"@,
            record.generation as nat,
        ),
{
    let generation: i64 = match sqlite::big(record.generation, "dispatch generation") {
        Ok(g) => g,
        Err(e) => return Err(e),
    };
    let c = RecordColumns {
        invocation_id: record.invocation_id.clone(),
        tenant_id: record.tenant_id.clone(),
        function_id: record.function_id.clone(),
        state: text::owned(record.state.as_str()),
        generation,
        attempts: record.attempts as i64,
        deferrals: record.deferrals as i64,
        claimed_by: text::clone_opt(&record.claimed_by),
        claim_expires_at: time::opt_ts(&record.claim_expires_at),
        next_attempt_at: time::opt_ts(&record.next_attempt_at),
        first_attempt_at: time::opt_ts(&record.first_attempt_at),
        last_attempt_at: time::opt_ts(&record.last_attempt_at),
        updated_at: time::ts(&record.updated_at),
        last_error: match &record.last_error {
            Some(e) => Some(Ok(e.clone())),
            None => None,
        },
    };
    proof {
        crate::repository::dispatch::law_a_state_is_read_back_from_its_name(record.state);
        if four_digits(*record) {
            assert(time::parsed_opt_ts(text::opt_view(c.claim_expires_at)) == Ok::<
                Option<Timestamp>,
                RepoErrorView,
            >(record.claim_expires_at));
        }
    }
    Ok(c)
}

// ---------------------------------------------------------------------------
// claims
// ---------------------------------------------------------------------------
/// The stored record, or the one of an invocation that was never claimed.
pub open spec fn current(record: Option<DispatchRecord>, inv: Invocation) -> DispatchRecord {
    match record {
        Some(r) => r,
        None => DispatchRecord::spec_unclaimed(inv),
    }
}

/// The record once `request` holds the claim.
pub open spec fn claimed(record: DispatchRecord, request: ClaimRequest) -> DispatchRecord {
    DispatchRecord {
        state: DispatchState::Running,
        claimed_by: Some(request.owner),
        claim_expires_at: Some(time::after(request.now, request.ttl)),
        attempts: if record.attempts == u32::MAX {
            u32::MAX
        } else {
            (record.attempts + 1) as u32
        },
        first_attempt_at: if record.first_attempt_at is Some {
            record.first_attempt_at
        } else {
            Some(request.now)
        },
        last_attempt_at: Some(request.now),
        updated_at: request.now,
        ..record
    }
}

/// What a claim comes to. A running row whose claim expired was abandoned by
/// a run that already counted: the claim is the next attempt.
pub open spec fn claim_rule(
    request: ClaimRequest,
    invocation: Option<Invocation>,
    has_input: bool,
    record: Option<DispatchRecord>,
) -> Result<ClaimOutcome, RepoErrorView> {
    match invocation {
        None => Err(sqlite::missing_row("invocation"@, request.invocation_id@)),
        Some(inv) => if inv.status.terminal() {
            Ok(ClaimOutcome::Terminal(Box::new(inv)))
        } else if !(inv.mode is Async && has_input) {
            Err(
                RepoErrorView::Refused(
                    "invocation "@ + request.invocation_id@ + " is not an asynchronous invocation"@,
                ),
            )
        } else {
            let row = current(record, inv);
            if request.generation != row.generation {
                Ok(ClaimOutcome::Stale { current: row.generation })
            } else if row.held(request.now) {
                Ok(
                    ClaimOutcome::Held {
                        owner: row.claimed_by->0,
                        expires_at: row.claim_expires_at->0,
                    },
                )
            } else if row.state is Scheduled && row.next_attempt_at is Some
                && row.next_attempt_at->0 > request.now {
                Ok(ClaimOutcome::NotDue { at: row.next_attempt_at->0 })
            } else {
                Ok(
                    ClaimOutcome::Claimed {
                        invocation: Box::new(inv),
                        record: Box::new(claimed(row, request)),
                    },
                )
            }
        },
    }
}

/// Decide a claim from the invocation, whether it has an input, and its
/// dispatch row. The record of a claim that was won is to be written.
pub fn claim_dispatch(
    request: &ClaimRequest,
    invocation: Option<Invocation>,
    has_input: bool,
    record: Option<DispatchRecord>,
) -> (r: Result<ClaimOutcome, RepoError>)
    requires
        claim_rule(*request, invocation, has_input, record) matches Ok(ClaimOutcome::Claimed { .. })
            ==> time::in_reach(request.now, request.ttl),
    ensures
        crate::repository::agrees(r, claim_rule(*request, invocation, has_input, record)),
{
    let invocation = match invocation {
        Some(inv) => inv,
        None => return Err(sqlite::missing("invocation", request.invocation_id.as_str())),
    };
    if invocation.status.is_terminal() {
        return Ok(ClaimOutcome::Terminal(Box::new(invocation)));
    }
    if !(invocation.mode == InvocationMode::Async && has_input) {
        let mut m = text::owned("invocation ");
        m.append(request.invocation_id.as_str());
        m.append(" is not an asynchronous invocation");
        return Err(RepoError::Refused(m));
    }
    let mut record = match record {
        Some(r) => r,
        None => DispatchRecord::unclaimed(&invocation),
    };
    if request.generation != record.generation {
        return Ok(ClaimOutcome::Stale { current: record.generation });
    }
    if record.claim_live(request.now) {
        return Ok(
            ClaimOutcome::Held {
                owner: record.claimed_by.unwrap(),
                expires_at: record.claim_expires_at.unwrap(),
            },
        );
    }
    if record.state == DispatchState::Scheduled {
        if let Some(at) = record.next_attempt_at {
            if at > request.now {
                return Ok(ClaimOutcome::NotDue { at });
            }
        }
    }
    record.state = DispatchState::Running;
    record.claimed_by = Some(request.owner.clone());
    record.claim_expires_at = Some(time::plus(request.now, request.ttl));
    record.attempts = if record.attempts == u32::MAX {
        u32::MAX
    } else {
        record.attempts + 1
    };
    if record.first_attempt_at.is_none() {
        record.first_attempt_at = Some(request.now);
    }
    record.last_attempt_at = Some(request.now);
    record.updated_at = request.now;
    Ok(ClaimOutcome::Claimed { invocation: Box::new(invocation), record: Box::new(record) })
}

/// The row of a run whose claim is renewed, where it is still that run.
pub open spec fn renewed(
    record: Option<DispatchRecord>,
    owner: Seq<char>,
    attempts: u32,
    now: Timestamp,
    ttl: Span,
) -> Option<DispatchRecord> {
    if record is Some && record->0.runs(owner, attempts) {
        Some(
            DispatchRecord {
                claim_expires_at: Some(time::after(now, ttl)),
                updated_at: now,
                ..record->0
            },
        )
    } else {
        None
    }
}

/// The record after `owner` renewed the claim of attempt `attempts`, or
/// `None` where the claim is not the caller's any more.
pub fn renew_dispatch_claim(
    record: Option<DispatchRecord>,
    owner: &str,
    attempts: u32,
    now: Timestamp,
    ttl: Span,
) -> (r: Option<DispatchRecord>)
    requires
        record is Some && record->0.runs(owner@, attempts) ==> time::in_reach(now, ttl),
    ensures
        r == renewed(record, owner@, attempts, now, ttl),
{
    match record {
        Some(row) => if row.is_run_of(owner, attempts) {
            let mut row = row;
            row.claim_expires_at = Some(time::plus(now, ttl));
            row.updated_at = now;
            Some(row)
        } else {
            None
        },
        None => None,
    }
}

// ---------------------------------------------------------------------------
// settles
// ---------------------------------------------------------------------------
/// What a settle comes to before anything is written.
pub ghost enum SettleCheck {
    /// The request is malformed, or would break a row.
    Bad(RepoErrorView),
    /// The fence did not hold.
    Lost(Seq<char>),
    /// The row and the record to write, and whether the invocation changes.
    Commit { write: Write, record: DispatchRecord },
}

/// What a settle writes: the invocation where it changes, and the record.
#[derive(Debug, PartialEq, Eq)]
pub enum SettlePlan {
    /// The fence did not hold. Nothing is written.
    Lost(String),
    Commit { write: Write, record: DispatchRecord },
}

impl SettlePlan {
    /// A plan is what the check comes to.
    pub open spec fn is_plan(r: Result<SettlePlan, RepoError>, want: SettleCheck) -> bool {
        match r {
            Err(e) => want == SettleCheck::Bad(e@),
            Ok(SettlePlan::Lost(m)) => want == SettleCheck::Lost(m@),
            Ok(SettlePlan::Commit { write, record }) => want == (SettleCheck::Commit {
                write,
                record,
            }),
        }
    }
}

/// Why the fence of a settle does not hold.
pub open spec fn fence_lost(
    fence: DispatchFence,
    record: DispatchRecord,
    id: Seq<char>,
    now: Timestamp,
) -> Option<Seq<char>> {
    match fence {
        DispatchFence::Claim { owner, attempts } => if record.runs(owner@, attempts) {
            None
        } else {
            Some(
                "the claim of invocation "@ + id + " is no longer "@ + owner@ + "'s attempt "@
                    + text::dec(attempts as nat),
            )
        },
        DispatchFence::Unclaimed { generation } => if record.generation == generation
            && !record.held(now) {
            None
        } else {
            Some(
                "invocation "@ + id + " moved on (generation "@ + text::dec(
                    record.generation as nat,
                ) + ", state "@ + record.state.spec_name() + ")"@,
            )
        },
    }
}

/// The record after a run ended.
pub open spec fn settled_record(settle: DispatchSettle, record: DispatchRecord) -> DispatchRecord {
    DispatchRecord {
        attempts: if !settle.counted && settle.fence is Claim && record.attempts > 0 {
            (record.attempts - 1) as u32
        } else {
            record.attempts
        },
        deferrals: if !settle.counted && record.deferrals < u32::MAX {
            (record.deferrals + 1) as u32
        } else {
            record.deferrals
        },
        state: settle.state,
        claimed_by: None,
        claim_expires_at: None,
        next_attempt_at: settle.next_attempt_at,
        last_error: if settle.last_error is Some {
            settle.last_error
        } else {
            record.last_error
        },
        updated_at: settle.now,
        generation: match settle.republish {
            Some(e) => e.generation,
            None => record.generation,
        },
        ..record
    }
}

/// The event of the next try is the invocation's own, one generation on.
pub open spec fn follows(event: OutboxEvent, inv: Invocation, record: DispatchRecord) -> bool {
    event.event_id@ == inv.id@ && event.tenant_id@ == inv.tenant_id@ && event.generation
        == record.generation + 1
}

/// What a settle comes to.
pub open spec fn settle_rule(
    settle: DispatchSettle,
    old: Option<&Invocation>,
    record: Option<DispatchRecord>,
    max_inline: u64,
) -> SettleCheck {
    let inv = settle.invocation;
    match old {
        None => SettleCheck::Bad(sqlite::missing_row("invocation"@, inv.id@)),
        Some(old) => {
            let row = current(record, *old);
            if old.status.terminal() {
                SettleCheck::Lost(
                    "invocation "@ + old.id@ + " is already "@ + old.status.spec_name(),
                )
            } else if fence_lost(settle.fence, row, old.id@, settle.now) is Some {
                SettleCheck::Lost(fence_lost(settle.fence, row, old.id@, settle.now)->0)
            } else if !inv.status.terminal() && !(settle.state is Scheduled) {
                SettleCheck::Bad(
                    RepoErrorView::Refused(
                        "only a scheduled retry leaves the invocation non-terminal"@,
                    ),
                )
            } else {
                match guard::invocation_rule(*old, inv, max_inline) {
                    Err(e) => SettleCheck::Bad(e),
                    Ok(write) => if settle.republish is Some && !follows(
                        settle.republish->0,
                        inv,
                        row,
                    ) {
                        SettleCheck::Bad(
                            RepoErrorView::Refused(
                                "the next event of invocation "@ + inv.id@
                                    + " must be its generation "@ + text::dec(
                                    (row.generation + 1) as nat,
                                ),
                            ),
                        )
                    } else if settled_record(settle, row).generation > sqlite::BIGINT_MAX {
                        SettleCheck::Bad(
                            sqlite::too_big(
                                "dispatch generation"@,
                                settled_record(settle, row).generation as nat,
                            ),
                        )
                    } else if settle.dead_letter is Some && !(settle.dead_letter->0.tenant_id@
                        == inv.tenant_id@ && text::opt_view(settle.dead_letter->0.invocation_id)
                        == Some(inv.id@)) {
                        SettleCheck::Bad(
                            RepoErrorView::Refused(
                                "a dead letter must name its own invocation and tenant"@,
                            ),
                        )
                    } else {
                        SettleCheck::Commit { write, record: settled_record(settle, row) }
                    },
                }
            }
        },
    }
}

fn fence_failure(
    fence: &DispatchFence,
    record: &DispatchRecord,
    id: &str,
    now: Timestamp,
) -> (r: Option<String>)
    ensures
        text::opt_view(r) == fence_lost(*fence, *record, id@, now),
{
    match fence {
        DispatchFence::Claim { owner, attempts } => {
            if record.is_run_of(owner.as_str(), *attempts) {
                return None;
            }
            let mut m = text::owned("the claim of invocation ");
            m.append(id);
            m.append(" is no longer ");
            m.append(owner.as_str());
            m.append("'s attempt ");
            text::push_u64(&mut m, *attempts as u64);
            Some(m)
        },
        DispatchFence::Unclaimed { generation } => {
            if record.generation == *generation && !record.claim_live(now) {
                return None;
            }
            let mut m = text::owned("invocation ");
            m.append(id);
            m.append(" moved on (generation ");
            text::push_u64(&mut m, record.generation);
            m.append(", state ");
            m.append(record.state.as_str());
            m.append(")");
            Some(m)
        },
    }
}

/// Decide a settle from the stored invocation and its dispatch row. A commit
/// writes the record and, where it changes, the invocation; drops the event
/// of this generation; and adds the next event and the dead letter.
pub fn settle_dispatch(
    settle: &DispatchSettle,
    old: Option<&Invocation>,
    record: Option<DispatchRecord>,
    max_inline: u64,
) -> (r: Result<SettlePlan, RepoError>)
    requires
        record is Some && settle.republish is Some ==> record->0.generation < u64::MAX,
    ensures
        SettlePlan::is_plan(r, settle_rule(*settle, old, record, max_inline)),
{
    let inv = &settle.invocation;
    let old = match old {
        Some(o) => o,
        None => return Err(sqlite::missing("invocation", inv.id.as_str())),
    };
    if old.status.is_terminal() {
        let mut m = text::owned("invocation ");
        m.append(old.id.as_str());
        m.append(" is already ");
        m.append(old.status.name());
        return Ok(SettlePlan::Lost(m));
    }
    let mut record = match record {
        Some(r) => r,
        None => DispatchRecord::unclaimed(old),
    };
    let ghost row = record;
    if let Some(m) = fence_failure(&settle.fence, &record, old.id.as_str(), settle.now) {
        return Ok(SettlePlan::Lost(m));
    }
    if !inv.status.is_terminal() && settle.state != DispatchState::Scheduled {
        return Err(
            RepoError::Refused(
                text::owned("only a scheduled retry leaves the invocation non-terminal"),
            ),
        );
    }
    let write = match guard::invocation_update(old, inv, max_inline) {
        Ok(w) => w,
        Err(e) => return Err(e),
    };
    if !settle.counted {
        if matches!(settle.fence, DispatchFence::Claim { .. }) && record.attempts > 0 {
            record.attempts = record.attempts - 1;
        }
        if record.deferrals < u32::MAX {
            record.deferrals = record.deferrals + 1;
        }
    }
    record.state = settle.state;
    record.claimed_by = None;
    record.claim_expires_at = None;
    record.next_attempt_at = settle.next_attempt_at;
    if let Some(e) = &settle.last_error {
        record.last_error = Some(e.clone());
    }
    record.updated_at = settle.now;
    if let Some(event) = &settle.republish {
        if !(text::same_text(event.event_id.as_str(), inv.id.as_str()) && text::same_text(
            event.tenant_id.as_str(),
            inv.tenant_id.as_str(),
        ) && event.generation == record.generation + 1) {
            let mut m = text::owned("the next event of invocation ");
            m.append(inv.id.as_str());
            m.append(" must be its generation ");
            text::push_u64(&mut m, record.generation + 1);
            return Err(RepoError::Refused(m));
        }
        record.generation = event.generation;
    }
    assert(record == settled_record(*settle, row));
    match sqlite::big(record.generation, "dispatch generation") {
        Ok(_) => {},
        Err(e) => return Err(e),
    }
    if let Some(d) = &settle.dead_letter {
        let own = match &d.invocation_id {
            Some(i) => text::same_text(i.as_str(), inv.id.as_str()),
            None => false,
        };
        if !(own && text::same_text(d.tenant_id.as_str(), inv.tenant_id.as_str())) {
            return Err(
                RepoError::Refused(
                    text::owned("a dead letter must name its own invocation and tenant"),
                ),
            );
        }
    }
    Ok(SettlePlan::Commit { write, record })
}

// ---------------------------------------------------------------------------
// the reaper
// ---------------------------------------------------------------------------
/// A non-terminal asynchronous invocation needs the reaper: a run whose claim
/// expired; or one past its maximum age that nobody runs; or one whose last
/// event went out, and whose last try became due, long ago.
pub open spec fn needs_reaper(
    inv: Invocation,
    record: Option<DispatchRecord>,
    outbox: Option<OutboxEvent>,
    now: Timestamp,
    quiet_before: Timestamp,
    accepted_before: Timestamp,
) -> bool {
    let expired = record is Some && record->0.claim_expires_at is Some
        && record->0.claim_expires_at->0 <= now;
    let running = record is Some && record->0.state is Running;
    ||| running && expired
    ||| inv.accepted_at <= accepted_before && (!running || expired)
    ||| {
        &&& (record is None || record->0.state is Scheduled)
        &&& (outbox is None || (outbox->0.sent_at is Some && outbox->0.sent_at->0 <= quiet_before))
        &&& (record is None || record->0.next_attempt_at is None || record->0.next_attempt_at->0
            <= quiet_before)
        &&& inv.accepted_at <= quiet_before
    }
}

/// Whether a non-terminal asynchronous invocation needs the reaper.
pub fn is_candidate(
    inv: &Invocation,
    record: &Option<DispatchRecord>,
    outbox: &Option<OutboxEvent>,
    now: Timestamp,
    quiet_before: Timestamp,
    accepted_before: Timestamp,
) -> (r: bool)
    ensures
        r == needs_reaper(*inv, *record, *outbox, now, quiet_before, accepted_before),
{
    let (running, expired, scheduled, due) = match record {
        Some(d) => (
            d.state == DispatchState::Running,
            match d.claim_expires_at {
                Some(t) => t <= now,
                None => false,
            },
            d.state == DispatchState::Scheduled,
            match d.next_attempt_at {
                Some(t) => t <= quiet_before,
                None => true,
            },
        ),
        None => (false, false, true, true),
    };
    let out = match outbox {
        Some(o) => match o.sent_at {
            Some(t) => t <= quiet_before,
            None => false,
        },
        None => true,
    };
    (running && expired) || (inv.accepted_at <= accepted_before && (!running || expired)) || (
    scheduled && out && due && inv.accepted_at <= quiet_before)
}

/// A non-terminal asynchronous invocation with its dispatch row and its
/// outbox row.
#[derive(Debug, PartialEq, Eq)]
pub struct PendingRun {
    pub invocation: Invocation,
    pub record: Option<DispatchRecord>,
    pub outbox: Option<OutboxEvent>,
}

/// What the reaper is handed for a pending run.
pub open spec fn candidate_of(p: PendingRun) -> DispatchCandidate {
    DispatchCandidate {
        invocation: p.invocation,
        record: current(p.record, p.invocation),
        outbox: p.outbox,
    }
}

/// The first `limit` of the first `n` pending runs that need the reaper, in
/// their order.
pub open spec fn candidates_of(
    rows: Seq<PendingRun>,
    n: nat,
    now: Timestamp,
    quiet_before: Timestamp,
    accepted_before: Timestamp,
    limit: nat,
) -> Seq<DispatchCandidate>
    decreases n,
{
    if n == 0 {
        Seq::empty()
    } else {
        let head = candidates_of(
            rows,
            (n - 1) as nat,
            now,
            quiet_before,
            accepted_before,
            limit,
        );
        let p = rows[n - 1];
        if head.len() < limit && needs_reaper(
            p.invocation,
            p.record,
            p.outbox,
            now,
            quiet_before,
            accepted_before,
        ) {
            head.push(candidate_of(p))
        } else {
            head
        }
    }
}

/// The pending runs the reaper looks at, oldest acceptance first where `rows`
/// is so ordered.
pub fn dispatch_candidates(
    rows: Vec<PendingRun>,
    now: Timestamp,
    quiet_before: Timestamp,
    accepted_before: Timestamp,
    limit: usize,
) -> (r: Vec<DispatchCandidate>)
    ensures
        r@ == candidates_of(
            rows@,
            rows@.len(),
            now,
            quiet_before,
            accepted_before,
            limit as nat,
        ),
{
    let ghost all = rows@;
    let mut out: Vec<DispatchCandidate> = Vec::new();
    for p in it: rows.into_iter()
        invariant
            it.seq() == all,
            out@ == candidates_of(
                all,
                it.index() as nat,
                now,
                quiet_before,
                accepted_before,
                limit as nat,
            ),
    {
        assert(p == all[it.index() as int]);
        if out.len() < limit && is_candidate(
            &p.invocation,
            &p.record,
            &p.outbox,
            now,
            quiet_before,
            accepted_before,
        ) {
            let record = match p.record {
                Some(r) => r,
                None => DispatchRecord::unclaimed(&p.invocation),
            };
            out.push(DispatchCandidate { invocation: p.invocation, record, outbox: p.outbox });
        }
    }
    out
}

// ---------------------------------------------------------------------------
// dead letters and redrives
// ---------------------------------------------------------------------------
/// Whether a dead letter is one of a message that nobody can read.
pub open spec fn poison_rule(dead_letter: DeadLetter) -> Result<(), RepoErrorView> {
    if dead_letter.invocation_id is Some {
        Err(RepoErrorView::Refused("a poison dead letter names no invocation"@))
    } else {
        Ok(())
    }
}

/// Whether a dead letter may be recorded as poison: it belongs to no
/// invocation.
pub fn check_poison(dead_letter: &DeadLetter) -> (r: Result<(), RepoError>)
    ensures
        crate::repository::agrees(r, poison_rule(*dead_letter)),
{
    if dead_letter.invocation_id.is_some() {
        return Err(RepoError::Refused(text::owned("a poison dead letter names no invocation")));
    }
    Ok(())
}

/// Nothing of a redrive crosses its dead letter's tenant, function or
/// invocation.
pub open spec fn within(write: RedriveWrite, dead: DeadLetter) -> bool {
    &&& write.invocation.tenant_id@ == dead.tenant_id@
    &&& write.input.tenant_id@ == dead.tenant_id@
    &&& write.event.tenant_id@ == dead.tenant_id@
    &&& write.redrive.tenant_id@ == dead.tenant_id@
    &&& write.input.invocation_id@ == write.invocation.id@
    &&& write.event.event_id@ == write.invocation.id@
    &&& write.redrive.invocation_id@ == write.invocation.id@
    &&& text::opt_view(dead.function_id) == Some(write.invocation.function_id@)
    &&& text::opt_view(dead.invocation_id) == Some(write.redrive.source_invocation_id@)
}

fn is_within(write: &RedriveWrite, dead: &DeadLetter) -> (r: bool)
    ensures
        r == within(*write, *dead),
{
    let tenant = dead.tenant_id.as_str();
    let id = write.invocation.id.as_str();
    let function = match &dead.function_id {
        Some(f) => text::same_text(f.as_str(), write.invocation.function_id.as_str()),
        None => false,
    };
    let source = match &dead.invocation_id {
        Some(i) => text::same_text(i.as_str(), write.redrive.source_invocation_id.as_str()),
        None => false,
    };
    text::same_text(write.invocation.tenant_id.as_str(), tenant) && text::same_text(
        write.input.tenant_id.as_str(),
        tenant,
    ) && text::same_text(write.event.tenant_id.as_str(), tenant) && text::same_text(
        write.redrive.tenant_id.as_str(),
        tenant,
    ) && text::same_text(write.input.invocation_id.as_str(), id) && text::same_text(
        write.event.event_id.as_str(),
        id,
    ) && text::same_text(write.redrive.invocation_id.as_str(), id) && function && source
}

/// The dead letter once it was redriven.
pub open spec fn redriven(dead: DeadLetter, at: Timestamp) -> DeadLetter {
    DeadLetter {
        status: DeadLetterStatus::Redriven,
        redrive_count: if dead.redrive_count == u32::MAX {
            u32::MAX
        } else {
            (dead.redrive_count + 1) as u32
        },
        redriven_at: Some(at),
        ..dead
    }
}

/// What a redrive comes to: the dead letter as it is to be written.
pub open spec fn redrive_rule(
    write: RedriveWrite,
    dead: Option<DeadLetter>,
    exists: bool,
    function: Option<&Function>,
    max_inline: u64,
) -> Result<DeadLetter, RepoErrorView> {
    match dead {
        None => Err(sqlite::missing_row("dead letter"@, write.dead_letter_id@)),
        Some(d) => if !(d.status is Open) {
            Err(
                RepoErrorView::Conflict(
                    "dead letter "@ + write.dead_letter_id@ + " is "@ + d.status.spec_name(),
                ),
            )
        } else if !within(write, d) {
            Err(
                RepoErrorView::Refused(
                    "a redrive must stay within its dead letter's tenant and function"@,
                ),
            )
        } else {
            match sqlite::insert_rule(exists, function, write.invocation, max_inline) {
                Err(e) => Err(e),
                Ok(_) => Ok(redriven(d, write.invocation.accepted_at)),
            }
        },
    }
}

/// Decide a redrive from its dead letter, whether the new invocation's id is
/// taken, and the function. The dead letter is to be written where it is
/// still open, together with the invocation, its input, its event and the
/// audit record.
pub fn redrive(
    write: &RedriveWrite,
    dead: Option<DeadLetter>,
    exists: bool,
    function: Option<&Function>,
    max_inline: u64,
) -> (r: Result<DeadLetter, RepoError>)
    ensures
        crate::repository::agrees(r, redrive_rule(*write, dead, exists, function, max_inline)),
{
    let mut dead = match dead {
        Some(d) => d,
        None => return Err(sqlite::missing("dead letter", write.dead_letter_id.as_str())),
    };
    if dead.status != DeadLetterStatus::Open {
        let mut m = text::owned("dead letter ");
        m.append(write.dead_letter_id.as_str());
        m.append(" is ");
        m.append(dead.status.as_str());
        return Err(RepoError::Conflict(m));
    }
    if !is_within(write, &dead) {
        return Err(
            RepoError::Refused(
                text::owned("a redrive must stay within its dead letter's tenant and function"),
            ),
        );
    }
    match sqlite::insert_invocation_checked(exists, function, &write.invocation, max_inline) {
        Ok(_) => {},
        Err(e) => return Err(e),
    }
    dead.status = DeadLetterStatus::Redriven;
    dead.redrive_count = if dead.redrive_count == u32::MAX {
        u32::MAX
    } else {
        dead.redrive_count + 1
    };
    dead.redriven_at = Some(write.invocation.accepted_at);
    Ok(dead)
}

/// What comes of a redrive that marked `n` dead letters.
pub open spec fn redrive_commit_rule(n: usize, dead_letter: Seq<char>) -> Result<(), RepoErrorView> {
    if n == 1 {
        Ok(())
    } else {
        Err(
            RepoErrorView::Conflict(
                "dead letter "@ + dead_letter + " was redriven concurrently"@,
            ),
        )
    }
}

/// What writing the redriven dead letter into `n` open rows comes to.
pub fn redrive_committed(n: usize, dead_letter: &str) -> (r: Result<(), RepoError>)
    ensures
        crate::repository::agrees(r, redrive_commit_rule(n, dead_letter@)),
{
    if n == 1 {
        return Ok(());
    }
    let mut m = text::owned("dead letter ");
    m.append(dead_letter);
    m.append(" was redriven concurrently");
    Err(RepoError::Conflict(m))
}

// ---------------------------------------------------------------------------
// laws
// ---------------------------------------------------------------------------
/// At most one dispatcher holds a claim: until the claim expires, nobody else
/// wins one on the same invocation.
pub proof fn law_one_claim_at_a_time(
    first: ClaimRequest,
    inv: Invocation,
    record: Option<DispatchRecord>,
    second: ClaimRequest,
)
    requires
        claim_rule(first, Some(inv), true, record) is Ok,
        claim_rule(first, Some(inv), true, record)->Ok_0 is Claimed,
        time::in_reach(first.now, first.ttl),
        second.now < time::after(first.now, first.ttl),
    ensures
        ({
            let held = *claim_rule(first, Some(inv), true, record)->Ok_0->Claimed_record;
            let again = claim_rule(second, Some(inv), true, Some(held));
            again is Ok && (if second.generation == held.generation {
                again->Ok_0 == (ClaimOutcome::Held {
                    owner: first.owner,
                    expires_at: time::after(first.now, first.ttl),
                })
            } else {
                again->Ok_0 == (ClaimOutcome::Stale { current: held.generation })
            })
        }),
{
}

/// A delivery of another generation than the row's never runs, and changes
/// nothing.
pub proof fn law_a_stale_delivery_never_runs(
    request: ClaimRequest,
    inv: Invocation,
    has_input: bool,
    record: DispatchRecord,
)
    requires
        request.generation != record.generation,
    ensures
        !(claim_rule(request, Some(inv), has_input, Some(record)) is Ok && claim_rule(
            request,
            Some(inv),
            has_input,
            Some(record),
        )->Ok_0 is Claimed),
{
}

/// A run whose claim another one took over can neither settle nor renew.
pub proof fn law_a_superseded_run_cannot_settle(
    taken: ClaimRequest,
    record: DispatchRecord,
    late: DispatchSettle,
    stored: Invocation,
    owner: String,
    max_inline: u64,
)
    requires
        record.attempts < u32::MAX,
        late.fence == (DispatchFence::Claim { owner, attempts: record.attempts }),
    ensures
        settle_rule(late, Some(&stored), Some(claimed(record, taken)), max_inline) is Lost,
        !claimed(record, taken).runs(owner@, record.attempts),
{
}

/// A run settles once: whoever settles under the same claim again finds the
/// claim gone.
pub proof fn law_a_run_settles_once(
    settle: DispatchSettle,
    again: DispatchSettle,
    old: Invocation,
    record: Option<DispatchRecord>,
    stored: Invocation,
    max_inline: u64,
)
    requires
        settle_rule(settle, Some(&old), record, max_inline) is Commit,
        settle.fence is Claim,
        again.fence == settle.fence,
    ensures
        settle_rule(
            again,
            Some(&stored),
            Some(settle_rule(settle, Some(&old), record, max_inline)->Commit_record),
            max_inline,
        ) is Lost,
{
}

/// A terminal invocation is never settled, claimed or run again.
pub proof fn law_a_terminal_invocation_stays(
    inv: Invocation,
    request: ClaimRequest,
    has_input: bool,
    settle: DispatchSettle,
    record: Option<DispatchRecord>,
    max_inline: u64,
)
    requires
        inv.status.terminal(),
    ensures
        claim_rule(request, Some(inv), has_input, record) == Ok::<ClaimOutcome, RepoErrorView>(
            ClaimOutcome::Terminal(Box::new(inv)),
        ),
        settle_rule(settle, Some(&inv), record, max_inline) is Lost,
{
}

/// A run that is deferred leaves the count of attempts as it was before its
/// claim.
pub proof fn law_a_deferral_does_not_count(
    request: ClaimRequest,
    record: DispatchRecord,
    settle: DispatchSettle,
)
    requires
        record.attempts < u32::MAX,
        settle.fence is Claim,
        !settle.counted,
    ensures
        settled_record(settle, claimed(record, request)).attempts == record.attempts,
{
}

/// A dead letter is redriven once: whatever is written again, to whatever
/// function and under whatever bound, conflicts.
pub proof fn law_a_dead_letter_is_redriven_once(
    write: RedriveWrite,
    dead: DeadLetter,
    exists: bool,
    function: Option<&Function>,
    max_inline: u64,
    again: RedriveWrite,
    exists_again: bool,
    function_again: Option<&Function>,
    max_inline_again: u64,
)
    requires
        redrive_rule(write, Some(dead), exists, function, max_inline) is Ok,
    ensures
        redrive_rule(
            again,
            Some(redrive_rule(write, Some(dead), exists, function, max_inline)->Ok_0),
            exists_again,
            function_again,
            max_inline_again,
        ) == Err::<DeadLetter, RepoErrorView>(
            RepoErrorView::Conflict("dead letter "@ + again.dead_letter_id@ + " is "@ + "redriven"@),
        ),
        redrive_rule(write, Some(dead), exists, function, max_inline)->Ok_0.status is Redriven,
{
}

/// A redrive stays with the tenant whose invocation was dead-lettered.
pub proof fn law_a_redrive_stays_with_its_tenant(
    write: RedriveWrite,
    dead: DeadLetter,
    exists: bool,
    function: Option<&Function>,
    max_inline: u64,
)
    requires
        redrive_rule(write, Some(dead), exists, function, max_inline) is Ok,
    ensures
        write.invocation.tenant_id@ == dead.tenant_id@,
        write.input.tenant_id@ == dead.tenant_id@,
        write.event.tenant_id@ == dead.tenant_id@,
        write.redrive.tenant_id@ == dead.tenant_id@,
{
}

} // verus!
