//! What holds of the log database whatever is written to it.

use vstd::prelude::*;

use crate::domain::log::LogRecordView;
use crate::logs::queue::{Loss, LossView, Pending};
use crate::logs::read;
use crate::logs::rows;
use crate::logs::rows::{InvocationCounts, LineView, LogState};
use crate::logs::store::{Settings, MAX_MARKERS_PER_INVOCATION};
use crate::table;
use crate::table::Table;
use crate::time;

verus! {

/// What holds before a batch and survives each of its steps holds after it.
pub proof fn lemma_batch_keeps(
    s: LogState,
    settings: Settings,
    now_ns: int,
    batch: Seq<Pending>,
    losses: Table<Loss>,
    keeps: spec_fn(LogState) -> bool,
)
    requires
        keeps(s),
        forall|t: LogState, i: int|
            0 <= i < losses.values@.len() && keeps(t) ==> keeps(
                #[trigger] rows::loss_step(t, now_ns, losses.order()[i], losses.values@[i]@),
            ),
        forall|t: LogState, i: int|
            0 <= i < batch.len() && keeps(t) ==> keeps(
                #[trigger] rows::record_step(t, settings, batch[i].record@),
            ),
    ensures
        keeps(rows::after_batch(s, settings, now_ns, batch, losses)),
{
    lemma_losses_keep(s, now_ns, losses, losses.values@.len(), keeps);
    lemma_records_keep(
        rows::after_losses(s, now_ns, losses, losses.values@.len()),
        settings,
        batch,
        batch.len(),
        keeps,
    );
}

proof fn lemma_losses_keep(
    s: LogState,
    now_ns: int,
    losses: Table<Loss>,
    n: nat,
    keeps: spec_fn(LogState) -> bool,
)
    requires
        keeps(s),
        n <= losses.values@.len(),
        forall|t: LogState, i: int|
            0 <= i < losses.values@.len() && keeps(t) ==> keeps(
                #[trigger] rows::loss_step(t, now_ns, losses.order()[i], losses.values@[i]@),
            ),
    ensures
        keeps(rows::after_losses(s, now_ns, losses, n)),
    decreases n,
{
    if n > 0 {
        lemma_losses_keep(s, now_ns, losses, (n - 1) as nat, keeps);
    }
}

proof fn lemma_records_keep(
    s: LogState,
    settings: Settings,
    batch: Seq<Pending>,
    n: nat,
    keeps: spec_fn(LogState) -> bool,
)
    requires
        keeps(s),
        n <= batch.len(),
        forall|t: LogState, i: int|
            0 <= i < batch.len() && keeps(t) ==> keeps(
                #[trigger] rows::record_step(t, settings, batch[i].record@),
            ),
    ensures
        keeps(rows::after_records(s, settings, batch, n)),
    decreases n,
{
    if n > 0 {
        lemma_records_keep(s, settings, batch, (n - 1) as nat, keeps);
    }
}

/// No invocation and no attempt holds more than its caps, and no invocation
/// more markers than it may.
pub open spec fn capped(settings: Settings, s: LogState) -> bool {
    &&& forall|k: Seq<Seq<char>>| #[trigger]
        s.invocations.contains_key(k) ==> {
            &&& s.invocations[k].lines <= settings.invocation_lines
            &&& s.invocations[k].bytes <= settings.invocation_bytes
            &&& s.invocations[k].markers <= MAX_MARKERS_PER_INVOCATION
        }
    &&& forall|k: Seq<Seq<char>>| #[trigger]
        s.attempts.contains_key(k) ==> {
            &&& s.attempts[k].lines <= settings.attempt_lines
            &&& s.attempts[k].bytes <= settings.attempt_bytes
        }
}

/// The caps are kept by every batch, so they hold however many batches are
/// written and across restarts on the same database.
pub proof fn law_caps_hold(
    s: LogState,
    settings: Settings,
    now_ns: int,
    batch: Seq<Pending>,
    losses: Table<Loss>,
)
    requires
        capped(settings, s),
        settings.invocation_lines >= 0,
        settings.invocation_bytes >= 0,
        settings.attempt_lines >= 0,
        settings.attempt_bytes >= 0,
    ensures
        capped(settings, rows::after_batch(s, settings, now_ns, batch, losses)),
{
    lemma_batch_keeps(s, settings, now_ns, batch, losses, |t: LogState| capped(settings, t));
}

/// Stored lines stay where they are, new ones are numbered on from the last
/// one, and a reader that walks them by number sees them in writing order.
pub open spec fn appended(s: LogState, t: LogState) -> bool {
    &&& s.last_seq <= t.last_seq
    &&& t.last_seq - s.last_seq == t.lines.len() - s.lines.len()
    &&& s.lines.is_prefix_of(t.lines)
    &&& forall|i: int|
        s.lines.len() <= i < t.lines.len() ==> (#[trigger] t.lines[i]).seq == s.last_seq + 1 + i
            - s.lines.len()
}

/// A batch only appends lines, in order.
pub proof fn law_lines_keep_their_order(
    s: LogState,
    settings: Settings,
    now_ns: int,
    batch: Seq<Pending>,
    losses: Table<Loss>,
)
    ensures
        appended(s, rows::after_batch(s, settings, now_ns, batch, losses)),
{
    let keeps = |t: LogState| appended(s, t);
    assert(s.lines.is_prefix_of(s.lines));
    assert forall|t: LogState, i: int| 0 <= i < losses.values@.len() && keeps(t) implies keeps(
        #[trigger] rows::loss_step(t, now_ns, losses.order()[i], losses.values@[i]@),
    ) by {
        lemma_prefix_push(s, t);
    }
    assert forall|t: LogState, i: int| 0 <= i < batch.len() && keeps(t) implies keeps(
        #[trigger] rows::record_step(t, settings, batch[i].record@),
    ) by {
        lemma_prefix_push(s, t);
    }
    lemma_batch_keeps(s, settings, now_ns, batch, losses, keeps);
}

proof fn lemma_prefix_push(s: LogState, t: LogState)
    requires
        appended(s, t),
    ensures
        forall|line: LineView| #[trigger] s.lines.is_prefix_of(t.lines.push(line)),
{
    assert forall|line: LineView| #[trigger] s.lines.is_prefix_of(t.lines.push(line)) by {
        assert(t.lines.push(line).subrange(0, s.lines.len() as int) =~= t.lines.subrange(
            0,
            s.lines.len() as int,
        ));
    }
}

/// A batch names the invocation: one of its lines or losses belongs to it.
pub open spec fn names(
    batch: Seq<Pending>,
    losses: Table<Loss>,
    tenant: Seq<char>,
    invocation: Seq<char>,
) -> bool {
    ||| exists|i: int|
        0 <= i < batch.len() && (#[trigger] batch[i]).record@.tenant_id == tenant
            && batch[i].record@.invocation_id == Some(invocation)
    ||| exists|i: int|
        0 <= i < losses.order().len() && (#[trigger] losses.order()[i])[0] == tenant
            && losses.order()[i][1] == invocation
}

/// The lines of one invocation of one tenant.
pub open spec fn lines_of(s: LogState, tenant: Seq<char>, invocation: Seq<char>) -> Seq<LineView> {
    rows::select(s.lines, tenant, invocation)
}

/// `t` holds of the invocation what `s` does.
pub open spec fn untouched(
    s: LogState,
    t: LogState,
    tenant: Seq<char>,
    invocation: Seq<char>,
) -> bool {
    let key = table::k2(tenant, invocation);
    &&& t.invocation(key) == s.invocation(key)
    &&& lines_of(t, tenant, invocation) == lines_of(s, tenant, invocation)
    &&& forall|attempt: Seq<char>|
        t.attempt(#[trigger] table::k3(tenant, invocation, attempt)) == s.attempt(
            table::k3(tenant, invocation, attempt),
        )
}

/// A batch leaves the counts and the lines of every invocation it does not
/// name as they were; in particular a tenant never sees what another tenant
/// writes under the same invocation id.
pub proof fn law_other_invocations_are_untouched(
    s: LogState,
    settings: Settings,
    now_ns: int,
    batch: Seq<Pending>,
    losses: Table<Loss>,
    tenant: Seq<char>,
    invocation: Seq<char>,
)
    requires
        losses.keys@.len() == losses.values@.len(),
        !names(batch, losses, tenant, invocation),
    ensures
        untouched(
            s,
            rows::after_batch(s, settings, now_ns, batch, losses),
            tenant,
            invocation,
        ),
{
    let keeps = |t: LogState| untouched(s, t, tenant, invocation);
    assert forall|t: LogState, i: int| 0 <= i < losses.values@.len() && keeps(t) implies keeps(
        #[trigger] rows::loss_step(t, now_ns, losses.order()[i], losses.values@[i]@),
    ) by {
        let k = losses.order()[i];
        assert(!(k[0] == tenant && k[1] == invocation));
        lemma_loss_untouched(t, now_ns, k, losses.values@[i]@, tenant, invocation);
    }
    assert forall|t: LogState, i: int| 0 <= i < batch.len() && keeps(t) implies keeps(
        #[trigger] rows::record_step(t, settings, batch[i].record@),
    ) by {
        assert(!(batch[i].record@.tenant_id == tenant && batch[i].record@.invocation_id == Some(
            invocation,
        )));
        lemma_record_untouched(t, settings, batch[i].record@, tenant, invocation);
    }
    lemma_batch_keeps(s, settings, now_ns, batch, losses, keeps);
}

proof fn lemma_loss_untouched(
    s: LogState,
    now_ns: int,
    key: Seq<Seq<char>>,
    loss: LossView,
    tenant: Seq<char>,
    invocation: Seq<char>,
)
    requires
        !(key[0] == tenant && key[1] == invocation),
    ensures
        untouched(s, rows::loss_step(s, now_ns, key, loss), tenant, invocation),
{
    table::lemma_k2(key[0], key[1], tenant, invocation);
    lemma_push_other(s, tenant, invocation);
}

proof fn lemma_record_untouched(
    s: LogState,
    settings: Settings,
    rec: LogRecordView,
    tenant: Seq<char>,
    invocation: Seq<char>,
)
    requires
        !(rec.tenant_id == tenant && rec.invocation_id == Some(invocation)),
    ensures
        untouched(s, rows::record_step(s, settings, rec), tenant, invocation),
{
    if rec.invocation_id is Some {
        let inv = rec.invocation_id->0;
        let att = rows::attempt_text(rec.attempt_id);
        table::lemma_k2(rec.tenant_id, inv, tenant, invocation);
        assert forall|attempt: Seq<char>| table::k3(rec.tenant_id, inv, att) != #[trigger] table::k3(
            tenant,
            invocation,
            attempt,
        ) by {
            table::lemma_k3(rec.tenant_id, inv, att, tenant, invocation, attempt);
        }
        lemma_push_other(s, tenant, invocation);
    }
}

proof fn lemma_push_other(t: LogState, tenant: Seq<char>, invocation: Seq<char>)
    ensures
        forall|line: LineView|
            !(line.tenant == tenant && line.invocation == invocation) ==> rows::select(
                #[trigger] t.lines.push(line),
                tenant,
                invocation,
            ) == lines_of(t, tenant, invocation),
{
    assert forall|line: LineView|
        !(line.tenant == tenant && line.invocation == invocation) implies rows::select(
        #[trigger] t.lines.push(line),
        tenant,
        invocation,
    ) == lines_of(t, tenant, invocation) by {
        rows::lemma_select_push(t.lines, line, tenant, invocation);
    }
}

/// Number of queued lines that belong to an invocation.
pub open spec fn attributed(batch: Seq<Pending>, n: nat) -> int
    decreases n,
{
    if n == 0 {
        0
    } else {
        attributed(batch, (n - 1) as nat) + (if batch[n - 1].record@.invocation_id is Some {
            1int
        } else {
            0int
        })
    }
}

/// Every queued line of an invocation is stored, or dropped and counted under
/// exactly one cap; each stored row is a line or a marker.
pub proof fn law_every_line_is_accounted_for(
    s: LogState,
    settings: Settings,
    now_ns: int,
    batch: Seq<Pending>,
    losses: Table<Loss>,
)
    requires
        s.out == rows::no_outcome(),
    ensures
        ({
            let t = rows::after_batch(s, settings, now_ns, batch, losses);
            &&& t.out.written_lines + t.out.invocation_limit + t.out.attempt_limit == attributed(
                batch,
                batch.len(),
            )
            &&& t.out.stored_lines == t.out.written_lines + t.out.markers
            &&& t.out.stored_lines == t.lines.len() - s.lines.len()
            &&& t.stored_lines - s.stored_lines == t.out.stored_lines
            &&& t.stored_bytes - s.stored_bytes == t.out.stored_bytes
        }),
{
    let balance = |t: LogState|
        {
            &&& t.out.stored_lines == t.out.written_lines + t.out.markers
            &&& t.out.stored_lines == t.lines.len() - s.lines.len()
            &&& t.stored_lines - s.stored_lines == t.out.stored_lines
            &&& t.stored_bytes - s.stored_bytes == t.out.stored_bytes
        };
    lemma_batch_keeps(s, settings, now_ns, batch, losses, balance);
    let quiet = |t: LogState|
        t.out.written_lines + t.out.invocation_limit + t.out.attempt_limit == 0;
    lemma_losses_keep(s, now_ns, losses, losses.values@.len(), quiet);
    lemma_records_counted(
        rows::after_losses(s, now_ns, losses, losses.values@.len()),
        settings,
        batch,
        batch.len(),
    );
}

proof fn lemma_records_counted(s: LogState, settings: Settings, batch: Seq<Pending>, n: nat)
    requires
        s.out.written_lines + s.out.invocation_limit + s.out.attempt_limit == 0,
        n <= batch.len(),
    ensures
        ({
            let t = rows::after_records(s, settings, batch, n);
            t.out.written_lines + t.out.invocation_limit + t.out.attempt_limit == attributed(batch, n)
        }),
    decreases n,
{
    if n > 0 {
        lemma_records_counted(s, settings, batch, (n - 1) as nat);
    }
}

/// A line that is dropped for a cap shows on its invocation.
pub proof fn law_a_dropped_line_shows(s: LogState, settings: Settings, rec: LogRecordView)
    requires
        rows::counts_up(s),
        rec.invocation_id is Some,
        rows::record_step(s, settings, rec).out.written_lines == s.out.written_lines,
    ensures
        rows::record_step(s, settings, rec).invocation(
            table::k2(rec.tenant_id, rec.invocation_id->0),
        ).dropped_lines > 0,
{
}

/// A record of the invocation.
pub open spec fn is_of(rec: LogRecordView, tenant: Seq<char>, invocation: Seq<char>) -> bool {
    rec.tenant_id == tenant && rec.invocation_id == Some(invocation)
}

/// How many of the first `n` queued lines are the invocation's.
pub open spec fn queued(
    batch: Seq<Pending>,
    n: nat,
    tenant: Seq<char>,
    invocation: Seq<char>,
) -> int
    decreases n,
{
    if n == 0 {
        0
    } else {
        queued(batch, (n - 1) as nat, tenant, invocation) + (if is_of(
            batch[n - 1].record@,
            tenant,
            invocation,
        ) {
            1int
        } else {
            0int
        })
    }
}

/// How many lines of the invocation the first `n` remembered losses are of.
pub open spec fn lost(
    losses: Table<Loss>,
    n: nat,
    tenant: Seq<char>,
    invocation: Seq<char>,
) -> int
    decreases n,
{
    if n == 0 {
        0
    } else {
        let k = losses.order()[n - 1];
        lost(losses, (n - 1) as nat, tenant, invocation) + (if k[0] == tenant && k[1]
            == invocation {
            losses.values@[n - 1]@.lines as int
        } else {
            0int
        })
    }
}

/// The lines that are no markers.
pub open spec fn unmarked(lines: Seq<LineView>) -> Seq<LineView> {
    lines.filter(|l: LineView| !l.marker)
}

/// The line that a record of an invocation is stored as.
pub open spec fn stored_as(rec: LogRecordView, seq: int) -> LineView {
    LineView {
        seq,
        tenant: rec.tenant_id,
        invocation: rec.invocation_id->0,
        attempt: rows::attempt_text(rec.attempt_id),
        environment: rec.environment_id,
        stream: rec.stream,
        phase: rec.phase,
        ts_ns: time::spec_ns(rec.timestamp) as int,
        text: rec.line,
        truncated: rec.truncated,
        marker: false,
    }
}

/// `after` is `before`, and then the lines of the invocation's records at the
/// places `at` among the first `n` queued ones, in the order they were queued.
pub open spec fn follow_in_order(
    before: Seq<LineView>,
    after: Seq<LineView>,
    batch: Seq<Pending>,
    n: nat,
    tenant: Seq<char>,
    invocation: Seq<char>,
    at: Seq<int>,
) -> bool {
    &&& after.len() == before.len() + at.len()
    &&& after.take(before.len() as int) == before
    &&& forall|i: int|
        0 <= i < at.len() ==> 0 <= #[trigger] at[i] < n && is_of(
            batch[at[i]].record@,
            tenant,
            invocation,
        ) && after[before.len() + i] == stored_as(
            batch[at[i]].record@,
            after[before.len() + i].seq,
        )
    &&& forall|i: int, j: int| 0 <= i < j < at.len() ==> #[trigger] at[i] < #[trigger] at[j]
}

proof fn lemma_unmarked_push(lines: Seq<LineView>, line: LineView)
    ensures
        unmarked(lines.push(line)) == if line.marker {
            unmarked(lines)
        } else {
            unmarked(lines).push(line)
        },
{
    reveal(Seq::filter);
    assert(lines.push(line).drop_last() =~= lines);
}

proof fn lemma_losses_mark(
    s: LogState,
    now_ns: int,
    losses: Table<Loss>,
    n: nat,
    tenant: Seq<char>,
    invocation: Seq<char>,
)
    ensures
        ({
            let t = rows::after_losses(s, now_ns, losses, n);
            let k = table::k2(tenant, invocation);
            &&& unmarked(lines_of(t, tenant, invocation)) == unmarked(
                lines_of(s, tenant, invocation),
            )
            &&& t.invocation(k).dropped_lines == s.invocation(k).dropped_lines + lost(
                losses,
                n,
                tenant,
                invocation,
            )
        }),
    decreases n,
{
    if n > 0 {
        lemma_losses_mark(s, now_ns, losses, (n - 1) as nat, tenant, invocation);
        let u = rows::after_losses(s, now_ns, losses, (n - 1) as nat);
        let t = rows::after_losses(s, now_ns, losses, n);
        let key = losses.order()[n - 1];
        table::lemma_k2(key[0], key[1], tenant, invocation);
        if t.lines.len() > u.lines.len() {
            let line = t.lines.last();
            assert(t.lines =~= u.lines.push(line));
            rows::lemma_select_push(u.lines, line, tenant, invocation);
            lemma_unmarked_push(lines_of(u, tenant, invocation), line);
        }
    }
}

proof fn lemma_records_follow(
    s: LogState,
    settings: Settings,
    batch: Seq<Pending>,
    n: nat,
    tenant: Seq<char>,
    invocation: Seq<char>,
) -> (at: Seq<int>)
    requires
        n <= batch.len(),
    ensures
        ({
            let t = rows::after_records(s, settings, batch, n);
            let k = table::k2(tenant, invocation);
            &&& follow_in_order(
                unmarked(lines_of(s, tenant, invocation)),
                unmarked(lines_of(t, tenant, invocation)),
                batch,
                n,
                tenant,
                invocation,
                at,
            )
            &&& t.invocation(k).dropped_lines == s.invocation(k).dropped_lines + queued(
                batch,
                n,
                tenant,
                invocation,
            ) - at.len()
        }),
    decreases n,
{
    let before = unmarked(lines_of(s, tenant, invocation));
    if n == 0 {
        assert(before.take(before.len() as int) =~= before);
        Seq::empty()
    } else {
        let had = lemma_records_follow(s, settings, batch, (n - 1) as nat, tenant, invocation);
        let u = rows::after_records(s, settings, batch, (n - 1) as nat);
        let t = rows::after_records(s, settings, batch, n);
        let rec = batch[n - 1].record@;
        if !is_of(rec, tenant, invocation) {
            lemma_record_untouched(u, settings, rec, tenant, invocation);
            had
        } else {
            let mine = unmarked(lines_of(u, tenant, invocation));
            if t.lines.len() > u.lines.len() {
                let line = t.lines.last();
                assert(t.lines =~= u.lines.push(line));
                rows::lemma_select_push(u.lines, line, tenant, invocation);
                lemma_unmarked_push(lines_of(u, tenant, invocation), line);
                if line.marker {
                    had
                } else {
                    let now = unmarked(lines_of(t, tenant, invocation));
                    assert(now == mine.push(line));
                    assert(line == stored_as(rec, line.seq));
                    assert(now.take(before.len() as int) =~= mine.take(before.len() as int));
                    had.push(n - 1)
                }
            } else {
                assert(t.lines =~= u.lines);
                had
            }
        }
    }
}

/// A tenant reads its own lines and nothing of another tenant's. Of an
/// invocation id that `other` has written nothing under, and a batch writes
/// nothing of, `other` gets no record, nor that anything was dropped. A reader
/// of `tenant`'s gets its records only; those that were stored follow what was
/// there in the order they were queued, and read back as they were written
/// where the database can hold them; the lines that were not stored, and those
/// lost before, are counted as dropped, so that the reader is told.
pub proof fn law_a_tenant_reads_its_own_lines(
    s: LogState,
    settings: Settings,
    now_ns: int,
    batch: Seq<Pending>,
    losses: Table<Loss>,
    tenant: Seq<char>,
    other: Seq<char>,
    invocation: Seq<char>,
)
    requires
        losses.wf(),
        lines_of(s, other, invocation).len() == 0,
        s.invocation(table::k2(other, invocation)).dropped_lines == 0,
        !names(batch, losses, other, invocation),
        read::read_limit(settings) >= 0,
    ensures
        ({
            let t = rows::after_batch(s, settings, now_ns, batch, losses);
            let k = table::k2(tenant, invocation);
            let mine = read::answer(t, settings, tenant, invocation, false);
            &&& read::answer(t, settings, other, invocation, false) == (
                Seq::<LogRecordView>::empty(),
                false,
            )
            &&& forall|i: int|
                0 <= i < mine.0.len() ==> is_of(#[trigger] mine.0[i], tenant, invocation)
            &&& exists|at: Seq<int>| #[trigger]
                follow_in_order(
                    unmarked(lines_of(s, tenant, invocation)),
                    unmarked(lines_of(t, tenant, invocation)),
                    batch,
                    batch.len(),
                    tenant,
                    invocation,
                    at,
                ) && t.invocation(k).dropped_lines == s.invocation(k).dropped_lines + lost(
                    losses,
                    losses.values@.len(),
                    tenant,
                    invocation,
                ) + queued(batch, batch.len(), tenant, invocation) - at.len()
            &&& mine.1 == (t.invocation(k).dropped_lines > 0)
            &&& forall|i: int, seq: int|
                0 <= i < batch.len() && is_of(batch[i].record@, tenant, invocation)
                    && read::storable(batch[i].record@) ==> read::read_back(
                    #[trigger] stored_as(batch[i].record@, seq),
                ) == batch[i].record@
        }),
{
    let t = rows::after_batch(s, settings, now_ns, batch, losses);
    let k = table::k2(tenant, invocation);
    let middle = rows::after_losses(s, now_ns, losses, losses.values@.len());
    law_other_invocations_are_untouched(s, settings, now_ns, batch, losses, other, invocation);
    let theirs = read::answer(t, settings, other, invocation, false);
    assert(lines_of(t, other, invocation) =~= Seq::empty());
    assert(theirs.0 =~= Seq::empty());
    let mine = read::answer(t, settings, tenant, invocation, false);
    let all = lines_of(t, tenant, invocation);
    assert forall|i: int| 0 <= i < mine.0.len() implies is_of(
        #[trigger] mine.0[i],
        tenant,
        invocation,
    ) by {
        reveal(Seq::filter);
        let f = |l: LineView| l.tenant == tenant && l.invocation == invocation;
        t.lines.lemma_filter_pred(f, i);
    }
    lemma_losses_mark(s, now_ns, losses, losses.values@.len(), tenant, invocation);
    let at = lemma_records_follow(middle, settings, batch, batch.len(), tenant, invocation);
    assert(follow_in_order(
        unmarked(lines_of(s, tenant, invocation)),
        unmarked(lines_of(t, tenant, invocation)),
        batch,
        batch.len(),
        tenant,
        invocation,
        at,
    ));
    assert forall|i: int, seq: int|
        0 <= i < batch.len() && is_of(batch[i].record@, tenant, invocation) && read::storable(
            batch[i].record@,
        ) implies read::read_back(#[trigger] stored_as(batch[i].record@, seq))
        == batch[i].record@ by {
        let rec = batch[i].record@;
        if rec.attempt_id is Some {
            assert(rec.attempt_id->0 =~= Seq::empty() || rec.attempt_id->0.len() > 0);
        }
    }
}

/// The stored counts of an invocation are those of its lines.
pub open spec fn tallies(s: LogState, tenant: Seq<char>, invocation: Seq<char>) -> bool {
    let counts = s.invocation(table::k2(tenant, invocation));
    &&& counts.stored_lines == lines_of(s, tenant, invocation).len()
    &&& counts.stored_bytes == bytes_of(lines_of(s, tenant, invocation))
}

/// The stored lines and bytes of each invocation and of the whole database
/// are those of the lines that are there.
pub open spec fn consistent(s: LogState) -> bool {
    &&& s.stored_lines == s.lines.len()
    &&& s.stored_bytes == bytes_of(s.lines)
    &&& forall|tenant: Seq<char>, invocation: Seq<char>| #[trigger] tallies(s, tenant, invocation)
}

/// Line bytes of stored lines.
pub open spec fn bytes_of(lines: Seq<LineView>) -> int
    decreases lines.len(),
{
    if lines.len() == 0 {
        0
    } else {
        bytes_of(lines.drop_last()) + vstd::utf8::encode_utf8(lines.last().text).len()
    }
}

proof fn lemma_with_line_consistent(s: LogState, line: LineView, counts: InvocationCounts)
    requires
        consistent(s),
        counts.stored_lines == s.invocation(table::k2(line.tenant, line.invocation)).stored_lines,
        counts.stored_bytes == s.invocation(table::k2(line.tenant, line.invocation)).stored_bytes,
    ensures
        consistent(s.with_line(line, counts)),
{
    let t = s.with_line(line, counts);
    assert(t.lines.drop_last() =~= s.lines);
    let added = t.lines.last();
    assert forall|tenant: Seq<char>, invocation: Seq<char>| #[trigger] tallies(t, tenant, invocation) by {
        table::lemma_k2(tenant, invocation, line.tenant, line.invocation);
        rows::lemma_select_push(s.lines, added, tenant, invocation);
        assert(tallies(s, tenant, invocation));
        let was = lines_of(s, tenant, invocation);
        assert(was.push(added).drop_last() =~= was);
    }
}

/// Writing a batch keeps the totals consistent with the lines.
pub proof fn law_totals_stay_consistent(
    s: LogState,
    settings: Settings,
    now_ns: int,
    batch: Seq<Pending>,
    losses: Table<Loss>,
)
    requires
        consistent(s),
    ensures
        consistent(rows::after_batch(s, settings, now_ns, batch, losses)),
{
    let keeps = |t: LogState| consistent(t);
    assert forall|t: LogState, i: int| 0 <= i < losses.values@.len() && keeps(t) implies keeps(
        #[trigger] rows::loss_step(t, now_ns, losses.order()[i], losses.values@[i]@),
    ) by {
        lemma_loss_consistent(t, now_ns, losses.order()[i], losses.values@[i]@);
    }
    assert forall|t: LogState, i: int| 0 <= i < batch.len() && keeps(t) implies keeps(
        #[trigger] rows::record_step(t, settings, batch[i].record@),
    ) by {
        lemma_record_consistent(t, settings, batch[i].record@);
    }
    lemma_batch_keeps(s, settings, now_ns, batch, losses, keeps);
}

proof fn lemma_same_consistent(s: LogState, t: LogState)
    requires
        consistent(s),
        t.lines == s.lines,
        t.stored_lines == s.stored_lines,
        t.stored_bytes == s.stored_bytes,
        forall|k: Seq<Seq<char>>|
            {
                &&& (#[trigger] t.invocation(k)).stored_lines == s.invocation(k).stored_lines
                &&& t.invocation(k).stored_bytes == s.invocation(k).stored_bytes
            },
    ensures
        consistent(t),
{
    assert forall|tenant: Seq<char>, invocation: Seq<char>| #[trigger] tallies(t, tenant, invocation) by {
        assert(tallies(s, tenant, invocation));
        let now = t.invocation(table::k2(tenant, invocation));
    }
}

proof fn lemma_loss_consistent(
    s: LogState,
    now_ns: int,
    key: Seq<Seq<char>>,
    loss: LossView,
)
    requires
        consistent(s),
    ensures
        consistent(rows::loss_step(s, now_ns, key, loss)),
{
    let ikey = table::k2(key[0], key[1]);
    let counts = s.invocation(ikey).with_dropped(loss.lines as int, loss.bytes as int);
    if counts.markers < MAX_MARKERS_PER_INVOCATION {
        let marked = LogState {
            out: rows::OutcomeView { markers: s.out.markers + 1, ..s.out },
            ..s
        };
        lemma_same_consistent(s, marked);
        let t = rows::loss_step(s, now_ns, key, loss);
        let line = LineView { seq: 0, ..t.lines.last() };
        let with = InvocationCounts { markers: counts.markers + 1, ..counts };
        lemma_with_line_consistent(marked, line, with);
        assert(t == marked.with_line(line, with));
    } else {
        lemma_same_consistent(s, s.with_counts(ikey, counts));
    }
}

proof fn lemma_record_consistent(
    s: LogState,
    settings: Settings,
    rec: LogRecordView,
)
    requires
        consistent(s),
    ensures
        consistent(rows::record_step(s, settings, rec)),
{
    let t = rows::record_step(s, settings, rec);
    if rec.invocation_id is Some {
        let ikey = table::k2(rec.tenant_id, rec.invocation_id->0);
        let base = LogState { attempts: t.attempts, out: t.out, ..s };
        lemma_same_consistent(s, base);
        if t.lines.len() == s.lines.len() {
            lemma_same_consistent(s, t);
        } else {
            let line = t.lines.last();
            let was = s.invocation(ikey);
            let counts = InvocationCounts {
                first_seq: was.first_seq,
                last_ts_ns: was.last_ts_ns,
                stored_lines: was.stored_lines,
                stored_bytes: was.stored_bytes,
                ..t.invocation(ikey)
            };
            lemma_with_line_consistent(base, line, counts);
            let u = base.with_line(line, counts);
            assert(u.lines =~= t.lines);
            assert(u.invocations =~= t.invocations);
            lemma_same_consistent(u, t);
        }
    }
}

} // verus!
