//! Retention by age and by total size, and the bookkeeping after a flush.

use vstd::prelude::*;

use crate::logs::rows;
use crate::logs::rows::{LineRow, LineView, LogRows, LogState};
use crate::logs::store::{RetentionReport, Settings};
use crate::table;
use crate::table::{Key, Table};
use crate::text;
use crate::time;
use crate::time::{Span, Timestamp};

verus! {

/// Invocations looked at in one step of the size cap.
pub const RETENTION_PAGE: usize = 256;

/// A line belongs to the invocation.
pub open spec fn is_of(line: LineView, tenant: Seq<char>, invocation: Seq<char>) -> bool {
    line.tenant == tenant && line.invocation == invocation
}

/// An attempt key belongs to the invocation.
pub open spec fn attempt_is_of(k: Seq<Seq<char>>, tenant: Seq<char>, invocation: Seq<char>) -> bool {
    k.len() == 3 && k[0] == tenant && k[1] == invocation
}

/// The lines of every other invocation.
pub open spec fn other_lines(
    lines: Seq<LineView>,
    tenant: Seq<char>,
    invocation: Seq<char>,
) -> Seq<LineView> {
    lines.filter(|l: LineView| !is_of(l, tenant, invocation))
}

/// `a`, but not below zero.
pub open spec fn at_least_zero(a: int) -> int {
    if a < 0 {
        0
    } else {
        a
    }
}

/// Everything of one invocation deleted, with `bytes` taken off the total.
pub open spec fn without(s: LogState, tenant: Seq<char>, invocation: Seq<char>, bytes: int) -> LogState {
    let kept = other_lines(s.lines, tenant, invocation);
    LogState {
        lines: kept,
        invocations: s.invocations.remove(table::k2(tenant, invocation)),
        attempts: s.attempts.restrict(Set::new(|k: Seq<Seq<char>>| !attempt_is_of(k, tenant, invocation))),
        stored_lines: at_least_zero(s.stored_lines - (s.lines.len() - kept.len())),
        stored_bytes: at_least_zero(s.stored_bytes - bytes),
        ..s
    }
}

fn minus(a: i64, b: i64) -> (r: i64)
    ensures
        b >= 0 && a >= 0 ==> r == at_least_zero(a - b),
{
    if a >= 0 && b >= 0 {
        if a < b {
            0
        } else {
            a - b
        }
    } else {
        a
    }
}

impl LogRows {
    fn drop_lines(&mut self, tenant: &str, invocation: &str) -> (r: u64)
        requires
            old(self).wf(),
        ensures
            final(self).wf(),
            final(self)@ == (LogState {
                lines: other_lines(old(self)@.lines, tenant@, invocation@),
                ..old(self)@
            }),
            r == old(self)@.lines.len() - other_lines(old(self)@.lines, tenant@, invocation@).len(),
    {
        let ghost start = self@;
        let ghost t = tenant@;
        let ghost v = invocation@;
        let mut i: usize = self.lines.len();
        let mut gone: u64 = 0;
        proof {
            reveal(Seq::filter);
            assert(start.lines.skip(i as int) =~= Seq::empty());
            assert(start.lines.take(i as int) =~= start.lines);
            assert(self@.lines =~= start.lines.take(i as int) + other_lines(
                start.lines.skip(i as int),
                t,
                v,
            ));
        }
        while i > 0
            invariant
                self.wf(),
                i <= start.lines.len(),
                t == tenant@,
                v == invocation@,
                self@ == (LogState { lines: self@.lines, ..start }),
                self@.lines == start.lines.take(i as int) + other_lines(
                    start.lines.skip(i as int),
                    t,
                    v,
                ),
                gone == start.lines.len() - self@.lines.len(),
                start.lines.len() <= usize::MAX,
            decreases i,
        {
            i -= 1;
            let ghost rest = start.lines.skip(i + 1);
            let ghost line = start.lines[i as int];
            let ghost before = self@.lines;
            proof {
                assert(self@.lines[i as int] == line);
                assert(self.lines@[i as int]@ == line);
                assert(start.lines.skip(i as int) =~= seq![line] + rest);
                Seq::filter_distributes_over_add(
                    seq![line],
                    rest,
                    |l: LineView| !is_of(l, t, v),
                );
                reveal(Seq::filter);
                assert(seq![line].drop_last() =~= Seq::empty());
                assert(Seq::<LineView>::empty().filter(|l: LineView| !is_of(l, t, v)) =~= Seq::empty());
            }
            let here = &self.lines[i];
            if text::same_text(here.tenant.as_str(), tenant) && text::same_text(
                here.invocation.as_str(),
                invocation,
            ) {
                let ghost raw = self.lines@;
                let _line: LineRow = self.lines.remove(i);
                gone += 1;
                proof {
                    assert(rows::lines_view(self.lines@) =~= rows::lines_view(raw).remove(i as int));
                    assert(seq![line].filter(|l: LineView| !is_of(l, t, v)) =~= Seq::empty());
                    assert(self@.lines =~= start.lines.take(i as int) + other_lines(
                        start.lines.skip(i as int),
                        t,
                        v,
                    ));
                }
            } else {
                proof {
                    assert(seq![line].filter(|l: LineView| !is_of(l, t, v)) =~= seq![line]);
                    assert(self@.lines =~= start.lines.take(i as int) + other_lines(
                        start.lines.skip(i as int),
                        t,
                        v,
                    ));
                }
            }
        }
        proof {
            assert(start.lines.skip(0) =~= start.lines);
            assert(self@.lines =~= other_lines(start.lines, t, v));
        }
        gone
    }

    fn drop_attempts(&mut self, tenant: &str, invocation: &str)
        requires
            old(self).wf(),
        ensures
            final(self).wf(),
            final(self)@ == (LogState {
                attempts: old(self)@.attempts.restrict(
                    Set::new(|k: Seq<Seq<char>>| !attempt_is_of(k, tenant@, invocation@)),
                ),
                ..old(self)@
            }),
    {
        let ghost start = self@;
        let ghost orig = self.attempts@;
        let ghost t = tenant@;
        let ghost v = invocation@;
        let mut i: usize = self.attempts.len();
        while i > 0
            invariant
                self.wf(),
                i <= self.attempts.values@.len(),
                t == tenant@,
                v == invocation@,
                self@ == (LogState { attempts: self@.attempts, ..start }),
                forall|k: Seq<Seq<char>>| #[trigger]
                    self.attempts@.contains_key(k) ==> orig.contains_key(k) && self.attempts@[k]
                        == orig[k],
                forall|k: Seq<Seq<char>>| #[trigger]
                    orig.contains_key(k) && !attempt_is_of(k, t, v) ==> self.attempts@.contains_key(
                        k,
                    ),
                forall|j: int|
                    i <= j < self.attempts.order().len() ==> !attempt_is_of(
                        #[trigger] self.attempts.order()[j],
                        t,
                        v,
                    ),
            decreases i,
        {
            i -= 1;
            let key = &self.attempts.keys[i];
            assert(key@ == self.attempts.order()[i as int]);
            if key.parts.len() == 3 && text::same_text(key.parts[0].as_str(), tenant)
                && text::same_text(key.parts[1].as_str(), invocation) {
                assert(key@[0] == key.parts@[0]@ && key@[1] == key.parts@[1]@);
                let ghost order = self.attempts.order();
                let _row = self.attempts.remove_at(i);
                assert forall|j: int| i <= j < self.attempts.order().len() implies !attempt_is_of(
                    #[trigger] self.attempts.order()[j],
                    t,
                    v,
                ) by {
                    assert(self.attempts.order()[j] == order[j + 1]);
                }
            } else {
                proof {
                    if key@.len() == 3 {
                        assert(key@[0] == key.parts@[0]@ && key@[1] == key.parts@[1]@);
                    }
                }
            }
        }
        proof {
            let want = start.attempts.restrict(
                Set::new(|k: Seq<Seq<char>>| !attempt_is_of(k, t, v)),
            );
            assert forall|k: Seq<Seq<char>>| #[trigger] self@.attempts.contains_key(k) implies !attempt_is_of(
                k,
                t,
                v,
            ) by {
                assert(self.attempts.order().contains(k));
            }
            assert(self@.attempts =~= want);
        }
    }

    /// Delete everything of one invocation and take it off the totals.
    /// Returns the lines deleted.
    pub fn delete_invocation(&mut self, tenant: &str, invocation: &str, stored_bytes: i64) -> (r: u64)
        requires
            old(self).wf(),
            old(self).stored_lines >= 0,
            old(self).stored_bytes >= 0,
            old(self).lines@.len() <= i64::MAX,
            stored_bytes >= 0,
        ensures
            final(self).wf(),
            final(self)@ == without(old(self)@, tenant@, invocation@, stored_bytes as int),
            r == old(self)@.lines.len() - final(self)@.lines.len(),
    {
        let ghost start = self@;
        let gone: u64 = self.drop_lines(tenant, invocation);
        self.drop_attempts(tenant, invocation);
        let key = Key::two(tenant, invocation);
        let ghost middle = self@;
        let _row = self.invocations.remove(&key);
        assert(self@.invocations =~= middle.invocations.remove(key@));
        self.stored_lines = minus(self.stored_lines, gone as i64);
        self.stored_bytes = minus(self.stored_bytes, stored_bytes);
        gone
    }
}

/// Deleting an invocation leaves nothing of it and everything of the others.
pub proof fn law_a_deletion_is_of_one_invocation(
    s: LogState,
    tenant: Seq<char>,
    invocation: Seq<char>,
    bytes: int,
    other_tenant: Seq<char>,
    other: Seq<char>,
)
    ensures
        ({
            let t = without(s, tenant, invocation, bytes);
            if other_tenant == tenant && other == invocation {
                rows::select(t.lines, other_tenant, other).len() == 0 && t.invocation(
                    table::k2(other_tenant, other),
                ) == rows::InvocationCounts::zero()
            } else {
                rows::select(t.lines, other_tenant, other) == rows::select(
                    s.lines,
                    other_tenant,
                    other,
                ) && t.invocation(table::k2(other_tenant, other)) == s.invocation(
                    table::k2(other_tenant, other),
                )
            }
        }),
{
    table::lemma_k2(tenant, invocation, other_tenant, other);
    lemma_select_other(s.lines, tenant, invocation, other_tenant, other);
}

proof fn lemma_select_other(
    lines: Seq<LineView>,
    tenant: Seq<char>,
    invocation: Seq<char>,
    other_tenant: Seq<char>,
    other: Seq<char>,
)
    ensures
        rows::select(other_lines(lines, tenant, invocation), other_tenant, other) == if other_tenant
            == tenant && other == invocation {
            Seq::empty()
        } else {
            rows::select(lines, other_tenant, other)
        },
    decreases lines.len(),
{
    reveal(Seq::filter);
    if lines.len() > 0 {
        let head = lines.drop_last();
        lemma_select_other(head, tenant, invocation, other_tenant, other);
        assert(lines =~= head.push(lines.last()));
        rows::lemma_select_push(head, lines.last(), other_tenant, other);
        if !is_of(lines.last(), tenant, invocation) {
            rows::lemma_select_push(
                other_lines(head, tenant, invocation),
                lines.last(),
                other_tenant,
                other,
            );
        }
    } else {
        assert(rows::select(other_lines(lines, tenant, invocation), other_tenant, other) =~= Seq::empty());
    }
}

/// Seconds that a line is kept, bounded so that they fit a time span.
pub open spec fn horizon_seconds(settings: Settings) -> int {
    if settings.retention_seconds < 9_223_372_036_854 {
        settings.retention_seconds as int
    } else {
        9_223_372_036_854
    }
}

/// The way back from now to the oldest line that is kept.
pub open spec fn horizon(settings: Settings) -> Span {
    (-(horizon_seconds(settings) * time::SECOND)) as Span
}

/// What was last written before this time is too old.
pub open spec fn cutoff_of(settings: Settings, now: Timestamp) -> Option<i64> {
    if settings.retention_seconds == 0 {
        None
    } else {
        Some(time::spec_ns(time::after(now, horizon(settings))))
    }
}

/// Invocations whose last line is older than this are deleted by age. `None`
/// where lines are kept whatever their age.
pub fn age_cutoff(settings: &Settings, now: Timestamp) -> (r: Option<i64>)
    requires
        time::in_calendar(now),
        settings.retention_seconds > 0 ==> time::in_reach(
            now,
            horizon(*settings),
        ),
    ensures
        r == cutoff_of(*settings, now),
{
    if settings.retention_seconds == 0 {
        return None;
    }
    let bound: u64 = 9_223_372_036_854;
    let seconds: u64 = if settings.retention_seconds < bound {
        settings.retention_seconds
    } else {
        bound
    };
    let cutoff: Timestamp = time::plus(now, -(seconds as i128 * time::SECOND));
    Some(time::ns(&cutoff))
}

/// What the ledger says of an invocation.
#[derive(Debug, PartialEq, Eq)]
pub enum LedgerAnswer {
    /// There is no ledger to ask.
    NoLedger,
    /// The id is not one the ledger could know.
    BadId,
    /// The invocation, with its tenant and whether it is over.
    Found { tenant: String, terminal: bool },
    Missing,
    /// The ledger could not be asked.
    Failed,
}

/// An invocation's lines may be deleted: the ledger does not know it as one of
/// the tenant that has not ended.
pub open spec fn may_delete(answer: LedgerAnswer, tenant: Seq<char>) -> bool {
    match answer {
        LedgerAnswer::Found { tenant: owner, terminal } => owner@ != tenant || terminal,
        LedgerAnswer::Failed => false,
        _ => true,
    }
}

/// Whether the size cap may delete the logs of `tenant`'s invocation: it is
/// over, is another tenant's, or the ledger does not know it.
pub fn deletable(answer: &LedgerAnswer, tenant: &str) -> (r: bool)
    ensures
        r == may_delete(*answer, tenant@),
{
    match answer {
        LedgerAnswer::Found { tenant: owner, terminal } => !text::same_text(owner.as_str(), tenant)
            || *terminal,
        LedgerAnswer::Failed => false,
        _ => true,
    }
}

/// An invocation with stored lines, as the size cap looks at it.
#[derive(Debug, PartialEq, Eq)]
pub struct Candidate {
    pub tenant: String,
    pub invocation: String,
    pub first_seq: i64,
    pub stored_bytes: i64,
    /// The ledger lets it go.
    pub deletable: bool,
}

/// What the size cap decides.
#[derive(Debug, PartialEq, Eq)]
pub struct SizePlan {
    /// Positions of the candidates to delete, oldest first.
    pub victims: Vec<usize>,
    /// Candidates looked at that the ledger does not let go.
    pub skipped: u64,
    /// Bytes left once the victims are gone.
    pub stored: i64,
}

/// The decision so far.
pub ghost struct SizeState {
    pub stored: int,
    pub victims: Seq<int>,
    pub skipped: int,
}

/// End of the page that starts at `i`.
pub open spec fn page_end(len: nat, i: int) -> int {
    if i + RETENTION_PAGE <= len {
        i + RETENTION_PAGE
    } else {
        len as int
    }
}

/// Candidates of `i..end` that the ledger does not let go.
pub open spec fn held_back(candidates: Seq<Candidate>, i: int, end: int) -> int
    decreases end - i,
{
    if i >= end {
        0
    } else {
        held_back(candidates, i, end - 1) + (if candidates[end - 1].deletable {
            0int
        } else {
            1int
        })
    }
}

/// The deletable candidates of `i..end` deleted in order while the store is
/// over `max`.
pub open spec fn shrunk(candidates: Seq<Candidate>, max: int, s: SizeState, i: int, end: int) -> SizeState
    decreases end - i,
{
    if i >= end {
        s
    } else {
        let before = shrunk(candidates, max, s, i, end - 1);
        if candidates[end - 1].deletable && before.stored > max {
            SizeState {
                stored: before.stored - candidates[end - 1].stored_bytes,
                victims: before.victims.push(end - 1),
                ..before
            }
        } else {
            before
        }
    }
}

/// The size cap from the page at `i` on: page by page, oldest first, while
/// the store is over `max`. Every candidate of a page is looked at before any
/// of it is deleted.
pub open spec fn size_plan(candidates: Seq<Candidate>, max: int, s: SizeState, i: int) -> SizeState
    decreases candidates.len() - i,
{
    if s.stored <= max || i >= candidates.len() {
        s
    } else {
        let end = page_end(candidates.len(), i);
        let looked = SizeState { skipped: s.skipped + held_back(candidates, i, end), ..s };
        size_plan(candidates, max, shrunk(candidates, max, looked, i, end), end)
    }
}

/// Bytes of all candidates.
pub open spec fn bytes_from(candidates: Seq<Candidate>, i: int) -> int
    decreases candidates.len() - i,
{
    if i >= candidates.len() {
        0
    } else {
        candidates[i].stored_bytes + bytes_from(candidates, i + 1)
    }
}

proof fn lemma_held_back_bounds(candidates: Seq<Candidate>, i: int, end: int)
    requires
        i <= end,
    ensures
        0 <= held_back(candidates, i, end) <= end - i,
    decreases end - i,
{
    if i < end {
        lemma_held_back_bounds(candidates, i, end - 1);
    }
}

/// Which invocations the size cap deletes: the oldest ones that the ledger
/// lets go, while the store holds more than `max` bytes.
pub fn plan_size(candidates: &Vec<Candidate>, stored: i64, max: i64) -> (r: SizePlan)
    requires
        max >= 0,
        forall|i: int| 0 <= i < candidates@.len() ==> (#[trigger] candidates@[i]).stored_bytes >= 0,
    ensures
        ({
            let plan = size_plan(
                candidates@,
                max as int,
                SizeState { stored: stored as int, victims: Seq::empty(), skipped: 0 },
                0,
            );
            &&& r.stored == plan.stored
            &&& r.skipped == plan.skipped
            &&& r.victims@.map_values(|i: usize| i as int) == plan.victims
        }),
{
    let ghost start = SizeState { stored: stored as int, victims: Seq::empty(), skipped: 0 };
    let ghost whole = size_plan(candidates@, max as int, start, 0);
    let mut left: i64 = stored;
    let mut victims: Vec<usize> = Vec::new();
    let mut skipped: u64 = 0;
    let mut i: usize = 0;
    assert(victims@.map_values(|i: usize| i as int) =~= start.victims);
    while i < candidates.len() && left > max
        invariant
            max >= 0,
            forall|j: int| 0 <= j < candidates@.len() ==> (#[trigger] candidates@[j]).stored_bytes >= 0,
            i <= candidates@.len(),
            skipped <= i,
            size_plan(
                candidates@,
                max as int,
                SizeState {
                    stored: left as int,
                    victims: victims@.map_values(|i: usize| i as int),
                    skipped: skipped as int,
                },
                i as int,
            ) == whole,
        decreases candidates@.len() - i,
    {
        let ghost s = SizeState {
            stored: left as int,
            victims: victims@.map_values(|i: usize| i as int),
            skipped: skipped as int,
        };
        let end: usize = if candidates.len() - i <= RETENTION_PAGE {
            candidates.len()
        } else {
            i + RETENTION_PAGE
        };
        assert(end == page_end(candidates@.len(), i as int));
        let mut j: usize = i;
        while j < end
            invariant
                i <= j <= end <= candidates@.len(),
                s.skipped <= i,
                skipped == s.skipped + held_back(candidates@, i as int, j as int),
                skipped <= j,
            decreases end - j,
        {
            proof {
                lemma_held_back_bounds(candidates@, i as int, j as int);
            }
            if !candidates[j].deletable {
                skipped += 1;
            }
            j += 1;
        }
        let ghost looked = SizeState {
            skipped: s.skipped + held_back(candidates@, i as int, end as int),
            ..s
        };
        let mut k: usize = i;
        while k < end
            invariant
                max >= 0,
                forall|j: int| 0 <= j < candidates@.len() ==> (#[trigger] candidates@[j]).stored_bytes >= 0,
                i <= k <= end <= candidates@.len(),
                skipped == looked.skipped,
                (SizeState {
                    stored: left as int,
                    victims: victims@.map_values(|i: usize| i as int),
                    skipped: skipped as int,
                }) == shrunk(candidates@, max as int, looked, i as int, k as int),
            decreases end - k,
        {
            if candidates[k].deletable && left > max {
                let ghost before = victims@;
                left = left - candidates[k].stored_bytes;
                victims.push(k);
                assert(victims@.map_values(|i: usize| i as int) =~= before.map_values(
                    |i: usize| i as int,
                ).push(k as int));
            }
            k += 1;
        }
        i = end;
    }
    SizePlan { victims, skipped, stored: left }
}

/// The size cap never deletes an invocation that the ledger reports as
/// running, and it deletes each candidate once, oldest first.
pub proof fn law_the_size_cap_keeps_running_invocations(
    candidates: Seq<Candidate>,
    max: int,
    stored: int,
)
    ensures
        ({
            let plan = size_plan(
                candidates,
                max,
                SizeState { stored, victims: Seq::empty(), skipped: 0 },
                0,
            );
            &&& forall|n: int|
                0 <= n < plan.victims.len() ==> 0 <= #[trigger] plan.victims[n] < candidates.len()
                    && candidates[plan.victims[n]].deletable
            &&& forall|m: int, n: int|
                0 <= m < n < plan.victims.len() ==> plan.victims[m] < plan.victims[n]
        }),
{
    lemma_plan_victims(
        candidates,
        max,
        SizeState { stored, victims: Seq::empty(), skipped: 0 },
        0,
    );
}

/// Victims found so far lie before `i`, ascend and are deletable.
pub open spec fn victims_ok(candidates: Seq<Candidate>, s: SizeState, i: int) -> bool {
    &&& forall|n: int|
        0 <= n < s.victims.len() ==> 0 <= #[trigger] s.victims[n] < i
            && candidates[s.victims[n]].deletable
    &&& forall|m: int, n: int| 0 <= m < n < s.victims.len() ==> s.victims[m] < s.victims[n]
}

proof fn lemma_shrunk_victims(candidates: Seq<Candidate>, max: int, s: SizeState, i: int, end: int)
    requires
        0 <= i <= end <= candidates.len(),
        victims_ok(candidates, s, i),
    ensures
        victims_ok(candidates, shrunk(candidates, max, s, i, end), end),
    decreases end - i,
{
    if i < end {
        lemma_shrunk_victims(candidates, max, s, i, end - 1);
    }
}

proof fn lemma_plan_victims(candidates: Seq<Candidate>, max: int, s: SizeState, i: int)
    requires
        0 <= i <= candidates.len(),
        victims_ok(candidates, s, i),
    ensures
        victims_ok(candidates, size_plan(candidates, max, s, i), candidates.len() as int),
    decreases candidates.len() - i,
{
    if s.stored > max && i < candidates.len() {
        let end = page_end(candidates.len(), i);
        let looked = SizeState { skipped: s.skipped + held_back(candidates, i, end), ..s };
        assert(victims_ok(candidates, looked, i));
        lemma_shrunk_victims(candidates, max, looked, i, end);
        lemma_plan_victims(candidates, max, shrunk(candidates, max, looked, i, end), end);
    }
}

/// When the store is still over the cap afterwards, everything the ledger
/// lets go was deleted.
pub proof fn law_the_size_cap_deletes_enough(candidates: Seq<Candidate>, max: int, stored: int, i: int)
    requires
        0 <= i < candidates.len(),
        candidates[i].deletable,
        forall|j: int| 0 <= j < candidates.len() ==> (#[trigger] candidates[j]).stored_bytes >= 0,
        size_plan(
            candidates,
            max,
            SizeState { stored, victims: Seq::empty(), skipped: 0 },
            0,
        ).stored > max,
    ensures
        size_plan(
            candidates,
            max,
            SizeState { stored, victims: Seq::empty(), skipped: 0 },
            0,
        ).victims.contains(i),
{
    lemma_plan_complete(
        candidates,
        max,
        SizeState { stored, victims: Seq::empty(), skipped: 0 },
        0,
        i,
    );
}

proof fn lemma_shrunk_complete(
    candidates: Seq<Candidate>,
    max: int,
    s: SizeState,
    i: int,
    end: int,
    at: int,
)
    requires
        0 <= i <= end <= candidates.len(),
        0 <= at < end,
        candidates[at].deletable,
        forall|j: int| 0 <= j < candidates.len() ==> (#[trigger] candidates[j]).stored_bytes >= 0,
        s.victims.contains(at) || i <= at,
        shrunk(candidates, max, s, i, end).stored > max,
    ensures
        shrunk(candidates, max, s, i, end).victims.contains(at),
        s.stored > max,
    decreases end - i,
{
    if i < end {
        let before = shrunk(candidates, max, s, i, end - 1);
        let after = shrunk(candidates, max, s, i, end);
        if at < end - 1 {
            lemma_shrunk_complete(candidates, max, s, i, end - 1, at);
            let n = choose|n: int| 0 <= n < before.victims.len() && before.victims[n] == at;
            assert(after.victims[n] == at);
        } else {
            lemma_shrunk_stored(candidates, max, s, i, end - 1);
            assert(after.victims.last() == at);
        }
    }
}

proof fn lemma_shrunk_stored(candidates: Seq<Candidate>, max: int, s: SizeState, i: int, end: int)
    requires
        0 <= i <= end <= candidates.len(),
        forall|j: int| 0 <= j < candidates.len() ==> (#[trigger] candidates[j]).stored_bytes >= 0,
    ensures
        shrunk(candidates, max, s, i, end).stored <= s.stored,
    decreases end - i,
{
    if i < end {
        lemma_shrunk_stored(candidates, max, s, i, end - 1);
    }
}

proof fn lemma_plan_complete(candidates: Seq<Candidate>, max: int, s: SizeState, i: int, at: int)
    requires
        0 <= i <= candidates.len(),
        0 <= at < candidates.len(),
        candidates[at].deletable,
        forall|j: int| 0 <= j < candidates.len() ==> (#[trigger] candidates[j]).stored_bytes >= 0,
        s.victims.contains(at) || i <= at,
        size_plan(candidates, max, s, i).stored > max,
    ensures
        size_plan(candidates, max, s, i).victims.contains(at),
        s.stored > max,
    decreases candidates.len() - i,
{
    if s.stored > max && i < candidates.len() {
        let end = page_end(candidates.len(), i);
        let looked = SizeState { skipped: s.skipped + held_back(candidates, i, end), ..s };
        let next = shrunk(candidates, max, looked, i, end);
        if at < end {
            if next.stored > max {
                lemma_shrunk_complete(candidates, max, looked, i, end, at);
            }
            lemma_plan_complete_or_done(candidates, max, next, end);
        }
        if next.victims.contains(at) || end <= at {
            lemma_plan_complete(candidates, max, next, end, at);
        }
    }
}

proof fn lemma_plan_complete_or_done(candidates: Seq<Candidate>, max: int, s: SizeState, i: int)
    requires
        0 <= i <= candidates.len(),
    ensures
        s.stored <= max ==> size_plan(candidates, max, s, i) == s,
{
}

/// An invocation to delete.
pub ghost struct Victim {
    pub tenant: Seq<char>,
    pub invocation: Seq<char>,
    pub bytes: int,
}

/// The first `n` victims deleted.
pub open spec fn pruned(s: LogState, victims: Seq<Victim>, n: nat) -> LogState
    decreases n,
{
    if n == 0 {
        s
    } else {
        let v = victims[n - 1];
        without(pruned(s, victims, (n - 1) as nat), v.tenant, v.invocation, v.bytes)
    }
}

/// The invocation of a row, to be deleted.
pub open spec fn victim_at(rows: LogRows, i: int) -> Victim {
    Victim {
        tenant: rows.invocations.order()[i][0],
        invocation: rows.invocations.order()[i][1],
        bytes: rows.invocations.values@[i].stored_bytes as int,
    }
}

/// Of the first `n` invocations, in key order, those whose last line is older
/// than `cutoff`.
pub open spec fn aged(rows: LogRows, cutoff: i64, n: nat) -> Seq<Victim>
    decreases n,
{
    if n == 0 {
        Seq::empty()
    } else if rows.invocations.values@[n - 1].last_ts_ns < cutoff {
        aged(rows, cutoff, (n - 1) as nat).push(victim_at(rows, n - 1))
    } else {
        aged(rows, cutoff, (n - 1) as nat)
    }
}

/// Whether the size cap may delete what stands at a row.
pub open spec fn let_go(ledger: Table<LedgerAnswer>, key: Seq<Seq<char>>) -> bool {
    if ledger@.contains_key(key) {
        match ledger@[key] {
            LedgerAnswer::Found { tenant: owner, terminal } => owner@ != key[0] || terminal,
            LedgerAnswer::Failed => false,
            _ => true,
        }
    } else {
        true
    }
}

/// `c` is the row at `i`, as the size cap looks at it.
pub open spec fn is_candidate(rows: LogRows, ledger: Table<LedgerAnswer>, c: Candidate, i: int) -> bool {
    let row = rows.invocations.values@[i];
    let key = rows.invocations.order()[i];
    &&& c.tenant@ == key[0]
    &&& c.invocation@ == key[1]
    &&& c.first_seq == row.first_seq
    &&& c.stored_bytes == row.stored_bytes
    &&& c.deletable == let_go(ledger, key)
}

/// The rows with stored lines, one candidate each, oldest first.
pub open spec fn are_candidates(
    rows: LogRows,
    ledger: Table<LedgerAnswer>,
    candidates: Seq<Candidate>,
    at: Seq<int>,
) -> bool {
    &&& candidates.len() == at.len()
    &&& at.no_duplicates()
    &&& forall|n: int|
        0 <= n < at.len() ==> 0 <= #[trigger] at[n] < rows.invocations.values@.len()
            && rows.invocations.values@[at[n]].first_seq > 0 && is_candidate(
            rows,
            ledger,
            candidates[n],
            at[n],
        )
    &&& forall|i: int|
        0 <= i < rows.invocations.values@.len() && (#[trigger] rows.invocations.values@[i]).first_seq
            > 0 ==> at.contains(i)
    &&& forall|m: int, n: int|
        0 <= m < n < candidates.len() ==> (#[trigger] candidates[m]).first_seq <= (
        #[trigger] candidates[n]).first_seq
}

/// The victims of a size plan.
pub open spec fn size_victims(candidates: Seq<Candidate>, plan: SizeState) -> Seq<Victim> {
    Seq::new(
        plan.victims.len(),
        |n: int|
            Victim {
                tenant: candidates[plan.victims[n]].tenant@,
                invocation: candidates[plan.victims[n]].invocation@,
                bytes: candidates[plan.victims[n]].stored_bytes as int,
            },
    )
}

proof fn lemma_without_counts_up(s: LogState, tenant: Seq<char>, invocation: Seq<char>, bytes: int)
    requires
        rows::counts_up(s),
    ensures
        rows::counts_up(without(s, tenant, invocation, bytes)),
        without(s, tenant, invocation, bytes).lines.len() <= s.lines.len(),
{
    s.lines.lemma_filter_len(|l: LineView| !is_of(l, tenant, invocation));
}

proof fn lemma_pruned_counts_up(s: LogState, victims: Seq<Victim>, n: nat)
    requires
        rows::counts_up(s),
    ensures
        rows::counts_up(pruned(s, victims, n)),
        pruned(s, victims, n).lines.len() <= s.lines.len(),
    decreases n,
{
    if n > 0 {
        lemma_pruned_counts_up(s, victims, (n - 1) as nat);
        let v = victims[n - 1];
        lemma_without_counts_up(
            pruned(s, victims, (n - 1) as nat),
            v.tenant,
            v.invocation,
            v.bytes,
        );
    }
}

/// What retention leaves: first the invocations that are too old go, then, oldest
/// first, those that may, until what is stored fits.
pub open spec fn pruned_by_retention(
    before: LogRows,
    after: LogState,
    settings: Settings,
    now: Timestamp,
    ledger: Table<LedgerAnswer>,
    r: RetentionReport,
) -> bool {
    exists|middle: LogRows, candidates: Seq<Candidate>, at: Seq<int>|
        #![trigger are_candidates(middle, ledger, candidates, at)]
        {
            let cutoff = time::spec_ns(time::after(now, horizon(settings)));
            let old_ones = if settings.retention_seconds == 0 {
                Seq::empty()
            } else {
                aged(before, cutoff, before.invocations.values@.len())
            };
            let max = if settings.max_total_bytes <= i64::MAX {
                settings.max_total_bytes as int
            } else {
                i64::MAX as int
            };
            let start = SizeState {
                stored: middle@.stored_bytes,
                victims: Seq::empty(),
                skipped: 0,
            };
            let plan = if settings.max_total_bytes == 0 {
                start
            } else {
                size_plan(candidates, max, start, 0)
            };
            let big_ones = size_victims(candidates, plan);
            &&& middle.wf()
            &&& middle@ == pruned(before@, old_ones, old_ones.len())
            &&& are_candidates(middle, ledger, candidates, at)
            &&& after == pruned(middle@, big_ones, big_ones.len())
            &&& r == (RetentionReport {
                age_invocations: old_ones.len() as u64,
                age_lines: (before@.lines.len() - middle@.lines.len()) as u64,
                size_invocations: big_ones.len() as u64,
                size_lines: (middle@.lines.len() - after.lines.len()) as u64,
                skipped_non_terminal: plan.skipped as u64,
            })
            &&& plan.skipped <= u64::MAX
        }
}

impl LogRows {
    fn prune_aged(&mut self, cutoff: i64) -> (r: (u64, u64))
        requires
            old(self).wf(),
            rows::counts_up(old(self)@),
            old(self).lines@.len() <= i64::MAX,
        ensures
            final(self).wf(),
            ({
                let victims = aged(*old(self), cutoff, old(self).invocations.values@.len());
                &&& final(self)@ == pruned(old(self)@, victims, victims.len())
                &&& r.0 == victims.len()
                &&& r.1 == old(self)@.lines.len() - final(self)@.lines.len()
            }),
    {
        let ghost start = *self;
        let mut keys: Vec<Key> = Vec::new();
        let mut bytes: Vec<i64> = Vec::new();
        let mut i: usize = 0;
        while i < self.invocations.values.len()
            invariant
                *self == start,
                self.wf(),
                rows::counts_up(self@),
                i <= self.invocations.values@.len(),
                keys@.len() == bytes@.len(),
                keys@.len() == aged(start, cutoff, i as nat).len(),
                keys@.len() <= i,
                forall|j: int|
                    0 <= j < keys@.len() ==> (#[trigger] keys@[j])@.len() == 2 && bytes@[j] >= 0
                        && aged(start, cutoff, i as nat)[j] == (Victim {
                        tenant: keys@[j]@[0],
                        invocation: keys@[j]@[1],
                        bytes: bytes@[j] as int,
                    }),
            decreases self.invocations.values@.len() - i,
        {
            proof {
                table::lemma_row_at(self.invocations.order(), self.invocations.values@, i as int);
                let k = self.invocations.order()[i as int];
                assert(self.invocations@.contains_key(k));
                assert(self@.invocations.contains_key(k));
                assert(self@.invocations[k] == self.invocations.values@[i as int]@);
            }
            if self.invocations.values[i].last_ts_ns < cutoff {
                keys.push(self.invocations.keys[i].copy());
                bytes.push(self.invocations.values[i].stored_bytes);
            }
            i += 1;
        }
        let ghost victims = aged(start, cutoff, start.invocations.values@.len());
        let mut gone: u64 = 0;
        let mut j: usize = 0;
        while j < keys.len()
            invariant
                self.wf(),
                start.wf(),
                rows::counts_up(start@),
                start@.lines.len() <= i64::MAX,
                j <= keys@.len(),
                keys@.len() == victims.len(),
                keys@.len() == bytes@.len(),
                forall|j: int|
                    0 <= j < keys@.len() ==> (#[trigger] keys@[j])@.len() == 2 && bytes@[j] >= 0
                        && victims[j] == (Victim {
                        tenant: keys@[j]@[0],
                        invocation: keys@[j]@[1],
                        bytes: bytes@[j] as int,
                    }),
                self@ == pruned(start@, victims, j as nat),
                gone == start@.lines.len() - self@.lines.len(),
            decreases keys@.len() - j,
        {
            proof {
                lemma_pruned_counts_up(start@, victims, j as nat);
                lemma_pruned_counts_up(start@, victims, (j + 1) as nat);
                assert(self@.lines.len() == self.lines@.len());
            }
            let key = &keys[j];
            assert(key@[0] == key.parts@[0]@ && key@[1] == key.parts@[1]@);
            let n: u64 = self.delete_invocation(
                key.parts[0].as_str(),
                key.parts[1].as_str(),
                bytes[j],
            );
            gone = gone + n;
            j += 1;
        }
        (keys.len() as u64, gone)
    }

    /// The invocations with stored lines, oldest first, each with what the
    /// ledger says of it.
    fn candidates(&self, ledger: &Table<LedgerAnswer>) -> (r: Vec<Candidate>)
        requires
            self.wf(),
            ledger.wf(),
            rows::counts_up(self@),
        ensures
            exists|at: Seq<int>| #[trigger] are_candidates(*self, *ledger, r@, at),
            forall|i: int| 0 <= i < r@.len() ==> (#[trigger] r@[i]).stored_bytes >= 0,
    {
        let mut out: Vec<Candidate> = Vec::new();
        let ghost mut at: Seq<int> = Seq::empty();
        let mut i: usize = 0;
        while i < self.invocations.values.len()
            invariant
                self.wf(),
                ledger.wf(),
                rows::counts_up(self@),
                i <= self.invocations.values@.len(),
                out@.len() == at.len(),
                out@.len() <= i,
                at.no_duplicates(),
                forall|n: int|
                    0 <= n < at.len() ==> 0 <= #[trigger] at[n] < i && self.invocations.values@[at[n]].first_seq
                        > 0 && is_candidate(*self, *ledger, out@[n], at[n]),
                forall|j: int|
                    0 <= j < i && (#[trigger] self.invocations.values@[j]).first_seq > 0
                        ==> at.contains(j),
                forall|m: int, n: int|
                    0 <= m < n < out@.len() ==> (#[trigger] out@[m]).first_seq <= (
                    #[trigger] out@[n]).first_seq,
                forall|n: int| 0 <= n < out@.len() ==> (#[trigger] out@[n]).stored_bytes >= 0,
            decreases self.invocations.values@.len() - i,
        {
            let row = self.invocations.values[i];
            let key = &self.invocations.keys[i];
            proof {
                table::lemma_row_at(self.invocations.order(), self.invocations.values@, i as int);
                let k = self.invocations.order()[i as int];
                assert(self.invocations@.contains_key(k));
                assert(self@.invocations.contains_key(k));
                assert(self@.invocations[k] == row@);
                assert(key@ == k && k.len() == 2);
                assert(key@[0] == key.parts@[0]@ && key@[1] == key.parts@[1]@);
            }
            if row.first_seq > 0 {
                let tenant = key.parts[0].as_str();
                let go = match ledger.get(key) {
                    Some(answer) => deletable(answer, tenant),
                    None => true,
                };
                let c = Candidate {
                    tenant: text::owned(tenant),
                    invocation: key.parts[1].clone(),
                    first_seq: row.first_seq,
                    stored_bytes: row.stored_bytes,
                    deletable: go,
                };
                let ghost cand = c;
                let mut p: usize = out.len();
                while p > 0 && out[p - 1].first_seq > row.first_seq
                    invariant
                        p <= out@.len(),
                        forall|n: int|
                            p <= n < out@.len() ==> (#[trigger] out@[n]).first_seq > row.first_seq,
                    decreases p,
                {
                    p -= 1;
                }
                let ghost before = out@;
                let ghost was = at;
                out.insert(p, c);
                proof {
                    at = at.insert(p as int, i as int);
                    assert forall|n: int| 0 <= n < at.len() implies 0 <= #[trigger] at[n] < i + 1
                        && self.invocations.values@[at[n]].first_seq > 0 && is_candidate(
                        *self,
                        *ledger,
                        out@[n],
                        at[n],
                    ) by {
                        if n < p {
                            assert(at[n] == was[n]);
                        } else if n > p {
                            assert(at[n] == was[n - 1]);
                        }
                    }
                    assert forall|j: int| 0 <= j < i + 1 && (#[trigger] self.invocations.values@[j]).first_seq
                        > 0 implies at.contains(j) by {
                        if j < i {
                            let n = choose|n: int| 0 <= n < was.len() && was[n] == j;
                            if n < p {
                                assert(at[n] == j);
                            } else {
                                assert(at[n + 1] == j);
                            }
                        } else {
                            assert(at[p as int] == j);
                        }
                    }
                    assert forall|m: int, n: int|
                        0 <= m < at.len() && 0 <= n < at.len() && m != n implies at[m] != at[n] by {
                        let a = if m < p { m } else { m - 1 };
                        let b = if n < p { n } else { n - 1 };
                        if m != p {
                            assert(at[m] == was[a]);
                        }
                        if n != p {
                            assert(at[n] == was[b]);
                        }
                    }
                    assert forall|m: int, n: int| 0 <= m < n < out@.len() implies (
                    #[trigger] out@[m]).first_seq <= (#[trigger] out@[n]).first_seq by {
                        if m < p {
                            assert(out@[m] == before[m]);
                            if p > 0 {
                                assert(before[p - 1].first_seq <= row.first_seq);
                                if m < p - 1 {
                                    assert(before[m].first_seq <= before[p - 1].first_seq);
                                }
                            }
                        } else if m > p {
                            assert(out@[m] == before[m - 1]);
                        }
                        if n < p {
                            assert(out@[n] == before[n]);
                        } else if n > p {
                            assert(out@[n] == before[n - 1]);
                        }
                    }
                    assert forall|n: int| 0 <= n < out@.len() implies (#[trigger] out@[n]).stored_bytes
                        >= 0 by {
                        if n < p {
                            assert(out@[n] == before[n]);
                        } else if n > p {
                            assert(out@[n] == before[n - 1]);
                        }
                    }
                }
            }
            i += 1;
        }
        proof {
            assert(are_candidates(*self, *ledger, out@, at));
        }
        out
    }

    fn prune_victims(&mut self, candidates: &Vec<Candidate>, plan: &SizePlan, Ghost(decision): Ghost<SizeState>) -> (r: u64)
        requires
            old(self).wf(),
            rows::counts_up(old(self)@),
            old(self).lines@.len() <= i64::MAX,
            plan.victims@.map_values(|i: usize| i as int) == decision.victims,
            forall|n: int| 0 <= n < decision.victims.len() ==> 0 <= #[trigger] decision.victims[n] < candidates@.len(),
            forall|i: int| 0 <= i < candidates@.len() ==> (#[trigger] candidates@[i]).stored_bytes >= 0,
        ensures
            final(self).wf(),
            ({
                let victims = size_victims(candidates@, decision);
                &&& final(self)@ == pruned(old(self)@, victims, victims.len())
                &&& r == old(self)@.lines.len() - final(self)@.lines.len()
            }),
    {
        let ghost start = *self;
        let ghost victims = size_victims(candidates@, decision);
        let mut gone: u64 = 0;
        let mut j: usize = 0;
        while j < plan.victims.len()
            invariant
                self.wf(),
                start.wf(),
                rows::counts_up(start@),
                start@.lines.len() <= i64::MAX,
                j <= plan.victims@.len(),
                victims == size_victims(candidates@, decision),
                plan.victims@.map_values(|i: usize| i as int) == decision.victims,
                forall|n: int| 0 <= n < decision.victims.len() ==> 0 <= #[trigger] decision.victims[n] < candidates@.len(),
                forall|i: int| 0 <= i < candidates@.len() ==> (#[trigger] candidates@[i]).stored_bytes >= 0,
                self@ == pruned(start@, victims, j as nat),
                gone == start@.lines.len() - self@.lines.len(),
            decreases plan.victims@.len() - j,
        {
            proof {
                lemma_pruned_counts_up(start@, victims, j as nat);
                lemma_pruned_counts_up(start@, victims, (j + 1) as nat);
                assert(self@.lines.len() == self.lines@.len());
                assert(decision.victims[j as int] == plan.victims@[j as int] as int);
            }
            let c = &candidates[plan.victims[j]];
            let n: u64 = self.delete_invocation(
                c.tenant.as_str(),
                c.invocation.as_str(),
                c.stored_bytes,
            );
            gone = gone + n;
            j += 1;
        }
        gone
    }

    /// One retention pass: first every invocation whose last line is past the
    /// horizon, then the oldest invocations that the ledger lets go while the
    /// stored line bytes exceed the cap.
    pub fn run_retention(
        &mut self,
        settings: &Settings,
        now: Timestamp,
        ledger: &Table<LedgerAnswer>,
    ) -> (r: RetentionReport)
        requires
            old(self).wf(),
            ledger.wf(),
            rows::counts_up(old(self)@),
            old(self).lines@.len() <= i64::MAX,
            time::in_calendar(now),
            settings.retention_seconds > 0 ==> time::in_reach(
                now,
                horizon(*settings),
            ),
        ensures
            final(self).wf(),
            pruned_by_retention(*old(self), final(self)@, *settings, now, *ledger, r),
    {
        let ghost start = *self;
        let mut report = RetentionReport::default();
        match age_cutoff(settings, now) {
            Some(cutoff) => {
                let (invocations, lines) = self.prune_aged(cutoff);
                report.age_invocations = invocations;
                report.age_lines = lines;
                proof {
                    let victims = aged(start, cutoff, start.invocations.values@.len());
                    lemma_pruned_counts_up(start@, victims, victims.len());
                }
            },
            None => {},
        }
        let ghost middle = *self;
        assert(middle@.lines.len() == middle.lines@.len());
        let candidates = self.candidates(ledger);
        let ghost at = choose|at: Seq<int>| #[trigger] are_candidates(*self, *ledger, candidates@, at);
        let ghost none = SizeState {
            stored: middle@.stored_bytes,
            victims: Seq::empty(),
            skipped: 0,
        };
        if settings.max_total_bytes > 0 {
            let max: i64 = crate::logs::store::clamp(settings.max_total_bytes);
            let plan = plan_size(&candidates, self.stored_bytes, max);
            let ghost decision = size_plan(candidates@, max as int, none, 0);
            proof {
                law_the_size_cap_keeps_running_invocations(
                    candidates@,
                    max as int,
                    middle@.stored_bytes,
                );
            }
            let lines: u64 = self.prune_victims(&candidates, &plan, Ghost(decision));
            report.size_invocations = plan.victims.len() as u64;
            report.size_lines = lines;
            report.skipped_non_terminal = plan.skipped;
        } else {
            assert(size_victims(candidates@, none) =~= Seq::empty());
        }
        assert(are_candidates(middle, *ledger, candidates@, at));
        report
    }
}

} // verus!
