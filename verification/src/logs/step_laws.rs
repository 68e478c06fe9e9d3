//! What queueing, storing, losing and reading one log line does, field by
//! field.

use vstd::prelude::*;

use crate::domain::log::{LogRecordView, LogStream};
use crate::logs::queue;
use crate::logs::queue::{Appended, LogQueue, Loss, LossView, Pending};
use crate::logs::read;
use crate::logs::rows;
use crate::logs::rows::{AttemptCounts, InvocationCounts, LineView, LogState};
use crate::logs::store::{Counters, DropCounts, DropReason, Settings};
use crate::table::Table;
use crate::text;
use crate::time;
use crate::time::Timestamp;

verus! {

/// Bytes of a text.
pub open spec fn size(line: Seq<char>) -> int {
    vstd::utf8::encode_utf8(line).len() as int
}

/// The counts of an invocation, all zero where nothing was written of it.
pub open spec fn counts_of(s: LogState, tenant: Seq<char>, invocation: Seq<char>) -> InvocationCounts {
    if s.invocations.contains_key(seq![tenant, invocation]) {
        s.invocations[seq![tenant, invocation]]
    } else {
        InvocationCounts {
            first_seq: 0,
            last_ts_ns: 0,
            lines: 0,
            bytes: 0,
            stored_lines: 0,
            stored_bytes: 0,
            dropped_lines: 0,
            dropped_bytes: 0,
            markers: 0,
            limit_marked: false,
        }
    }
}

/// The key of the attempt that a record is of. One of no attempt counts under
/// an empty name.
pub open spec fn attempt_key(rec: LogRecordView) -> Seq<Seq<char>> {
    seq![
        rec.tenant_id,
        rec.invocation_id->0,
        if rec.attempt_id is Some {
            rec.attempt_id->0
        } else {
            Seq::empty()
        },
    ]
}

/// The counts of the attempt that a record is of.
pub open spec fn attempt_counts(s: LogState, rec: LogRecordView) -> AttemptCounts {
    if s.attempts.contains_key(attempt_key(rec)) {
        s.attempts[attempt_key(rec)]
    } else {
        AttemptCounts { lines: 0, bytes: 0, dropped_lines: 0, limit_marked: false }
    }
}

/// The record fits in what its invocation may still write.
pub open spec fn invocation_has_room(s: LogState, settings: Settings, rec: LogRecordView) -> bool {
    let inv = counts_of(s, rec.tenant_id, rec.invocation_id->0);
    inv.lines + 1 <= settings.invocation_lines && inv.bytes + size(rec.line)
        <= settings.invocation_bytes
}

/// The record fits in what its attempt may still write.
pub open spec fn attempt_has_room(s: LogState, settings: Settings, rec: LogRecordView) -> bool {
    let att = attempt_counts(s, rec);
    att.lines + 1 <= settings.attempt_lines && att.bytes + size(rec.line) <= settings.attempt_bytes
}

/// The counts once a row of `bytes` bytes at `ts_ns` is stored as number `seq`.
pub open spec fn row_added(
    before: InvocationCounts,
    after: InvocationCounts,
    seq: int,
    ts_ns: int,
    bytes: int,
) -> bool {
    &&& after.first_seq == if before.first_seq == 0 {
        seq
    } else {
        before.first_seq
    }
    &&& after.last_ts_ns == if ts_ns > before.last_ts_ns {
        ts_ns
    } else {
        before.last_ts_ns
    }
    &&& after.stored_lines == before.stored_lines + 1
    &&& after.stored_bytes == before.stored_bytes + bytes
}

/// `t` is `s` with the row `line`, of `bytes` bytes, at the end.
pub open spec fn row_appended(s: LogState, t: LogState, line: LineView, bytes: int) -> bool {
    &&& t.lines == s.lines.push(line)
    &&& line.seq == s.last_seq + 1
    &&& t.last_seq == s.last_seq + 1
    &&& t.stored_lines == s.stored_lines + 1
    &&& t.stored_bytes == s.stored_bytes + bytes
    &&& t.out.stored_lines == s.out.stored_lines + 1
    &&& t.out.stored_bytes == s.out.stored_bytes + bytes
}

/// `t` has the rows of `s`.
pub open spec fn no_row_appended(s: LogState, t: LogState) -> bool {
    &&& t.lines == s.lines
    &&& t.last_seq == s.last_seq
    &&& t.stored_lines == s.stored_lines
    &&& t.stored_bytes == s.stored_bytes
    &&& t.out.stored_lines == s.out.stored_lines
    &&& t.out.stored_bytes == s.out.stored_bytes
}

/// The marker with `words` that stands in for `rec`.
pub open spec fn marker_for(rec: LogRecordView, words: Seq<char>, seq: int) -> LineView {
    LineView {
        seq,
        tenant: rec.tenant_id,
        invocation: rec.invocation_id->0,
        attempt: attempt_key(rec)[2],
        environment: rec.environment_id,
        stream: LogStream::Platform,
        phase: rec.phase,
        ts_ns: time::spec_ns(rec.timestamp) as int,
        text: words,
        truncated: false,
        marker: true,
    }
}

/// A line that fits in what its invocation and its attempt may still write is
/// stored as it is, whatever stream it is on, and counted as written; nothing
/// is dropped and no marker is written.
pub proof fn law_a_line_within_the_caps_is_stored(
    s: LogState,
    settings: Settings,
    rec: LogRecordView,
)
    requires
        rec.invocation_id is Some,
        invocation_has_room(s, settings, rec),
        attempt_has_room(s, settings, rec),
    ensures
        ({
            let t = rows::record_step(s, settings, rec);
            let before = counts_of(s, rec.tenant_id, rec.invocation_id->0);
            let after = counts_of(t, rec.tenant_id, rec.invocation_id->0);
            let ts_ns = time::spec_ns(rec.timestamp) as int;
            &&& row_appended(
                s,
                t,
                LineView {
                    seq: s.last_seq + 1,
                    tenant: rec.tenant_id,
                    invocation: rec.invocation_id->0,
                    attempt: attempt_key(rec)[2],
                    environment: rec.environment_id,
                    stream: rec.stream,
                    phase: rec.phase,
                    ts_ns,
                    text: rec.line,
                    truncated: rec.truncated,
                    marker: false,
                },
                size(rec.line),
            )
            &&& t.out.written_lines == s.out.written_lines + 1
            &&& t.out.written_bytes == s.out.written_bytes + size(rec.line)
            &&& t.out.truncated_lines == s.out.truncated_lines + if rec.truncated {
                1int
            } else {
                0int
            }
            &&& t.out.markers == s.out.markers
            &&& t.out.invocation_limit == s.out.invocation_limit
            &&& t.out.attempt_limit == s.out.attempt_limit
            &&& row_added(before, after, s.last_seq + 1, ts_ns, size(rec.line))
            &&& after.lines == before.lines + 1
            &&& after.bytes == before.bytes + size(rec.line)
            &&& after.dropped_lines == before.dropped_lines
            &&& after.dropped_bytes == before.dropped_bytes
            &&& after.markers == before.markers
            &&& after.limit_marked == before.limit_marked
            &&& attempt_counts(t, rec) == (AttemptCounts {
                lines: attempt_counts(s, rec).lines + 1,
                bytes: attempt_counts(s, rec).bytes + size(rec.line),
                ..attempt_counts(s, rec)
            })
        }),
{
}

/// A line that is dropped adds one line and its bytes to what its invocation
/// dropped. `mark` says whether a marker with `words` is written for it.
pub open spec fn line_dropped(
    s: LogState,
    t: LogState,
    rec: LogRecordView,
    mark: bool,
    words: Seq<char>,
) -> bool {
    let before = counts_of(s, rec.tenant_id, rec.invocation_id->0);
    let after = counts_of(t, rec.tenant_id, rec.invocation_id->0);
    &&& t.out.written_lines == s.out.written_lines
    &&& t.out.written_bytes == s.out.written_bytes
    &&& t.out.truncated_lines == s.out.truncated_lines
    &&& after.lines == before.lines
    &&& after.bytes == before.bytes
    &&& after.dropped_lines == before.dropped_lines + 1
    &&& after.dropped_bytes == before.dropped_bytes + size(rec.line)
    &&& if mark {
        &&& row_appended(s, t, marker_for(rec, words, s.last_seq + 1), size(words))
        &&& row_added(
            before,
            after,
            s.last_seq + 1,
            time::spec_ns(rec.timestamp) as int,
            size(words),
        )
        &&& after.markers == before.markers + 1
        &&& t.out.markers == s.out.markers + 1
    } else {
        &&& no_row_appended(s, t)
        &&& after.first_seq == before.first_seq
        &&& after.last_ts_ns == before.last_ts_ns
        &&& after.stored_lines == before.stored_lines
        &&& after.stored_bytes == before.stored_bytes
        &&& after.markers == before.markers
        &&& t.out.markers == s.out.markers
    }
}

/// A line for which its invocation has no room is dropped and counted under
/// that limit. The first time, and while the invocation has fewer than sixteen
/// markers, a marker tells so.
pub proof fn law_a_line_over_the_invocation_limit_is_dropped(
    s: LogState,
    settings: Settings,
    rec: LogRecordView,
)
    requires
        rec.invocation_id is Some,
        !invocation_has_room(s, settings, rec),
    ensures
        ({
            let t = rows::record_step(s, settings, rec);
            let before = counts_of(s, rec.tenant_id, rec.invocation_id->0);
            let after = counts_of(t, rec.tenant_id, rec.invocation_id->0);
            let mark = !before.limit_marked && before.markers < 16;
            &&& line_dropped(
                s,
                t,
                rec,
                mark,
                "[tachyon] "@ + "log limit of this invocation reached ("@ + text::dec_int(
                    settings.invocation_lines as int,
                ) + " lines / "@ + text::dec_int(settings.invocation_bytes as int)
                    + " bytes): further lines are dropped"@,
            )
            &&& t.out.invocation_limit == s.out.invocation_limit + 1
            &&& t.out.attempt_limit == s.out.attempt_limit
            &&& after.limit_marked == (before.limit_marked || mark)
            &&& t.attempts == s.attempts
        }),
{
}

/// A line for which its invocation has room and its attempt has none is dropped
/// and counted under the attempt's limit. The first time, and while the
/// invocation has fewer than sixteen markers, a marker tells so.
pub proof fn law_a_line_over_the_attempt_limit_is_dropped(
    s: LogState,
    settings: Settings,
    rec: LogRecordView,
)
    requires
        rec.invocation_id is Some,
        invocation_has_room(s, settings, rec),
        !attempt_has_room(s, settings, rec),
    ensures
        ({
            let t = rows::record_step(s, settings, rec);
            let before = counts_of(s, rec.tenant_id, rec.invocation_id->0);
            let after = counts_of(t, rec.tenant_id, rec.invocation_id->0);
            let att = attempt_counts(s, rec);
            let mark = !att.limit_marked && before.markers < 16;
            &&& line_dropped(
                s,
                t,
                rec,
                mark,
                "[tachyon] "@ + "log limit of this attempt reached ("@ + text::dec_int(
                    settings.attempt_lines as int,
                ) + " lines / "@ + text::dec_int(settings.attempt_bytes as int)
                    + " bytes): further lines of this attempt are dropped"@,
            )
            &&& t.out.invocation_limit == s.out.invocation_limit
            &&& t.out.attempt_limit == s.out.attempt_limit + 1
            &&& after.limit_marked == before.limit_marked
            &&& attempt_counts(t, rec) == (AttemptCounts {
                dropped_lines: att.dropped_lines + 1,
                limit_marked: att.limit_marked || mark,
                ..att
            })
        }),
{
}

/// A line of no invocation is not stored, and storing a line leaves the counts
/// of every other invocation and every other attempt as they were.
pub proof fn law_a_line_touches_its_own_counts(
    s: LogState,
    settings: Settings,
    rec: LogRecordView,
    other: Seq<Seq<char>>,
)
    ensures
        rec.invocation_id is None ==> rows::record_step(s, settings, rec) == s,
        ({
            let t = rows::record_step(s, settings, rec);
            &&& other != seq![rec.tenant_id, rec.invocation_id->0] ==> (t.invocations.contains_key(
                other,
            ) <==> s.invocations.contains_key(other)) && (s.invocations.contains_key(other)
                ==> t.invocations[other] == s.invocations[other])
            &&& other != attempt_key(rec) ==> (t.attempts.contains_key(other)
                <==> s.attempts.contains_key(other)) && (s.attempts.contains_key(other)
                ==> t.attempts[other] == s.attempts[other])
        }),
{
}

/// Lines that were lost before they could be stored are counted as dropped
/// under their invocation. While it has fewer than sixteen markers, a marker
/// tells how many lines and bytes were lost, and why.
pub proof fn law_a_loss_is_counted_and_told(
    s: LogState,
    now_ns: int,
    key: Seq<Seq<char>>,
    loss: LossView,
)
    requires
        key.len() == 3,
    ensures
        ({
            let t = rows::loss_step(s, now_ns, key, loss);
            let before = counts_of(s, key[0], key[1]);
            let after = counts_of(t, key[0], key[1]);
            let why = if key[2] == "queue_full"@ {
                "the log writer queue was full"@
            } else {
                "the log store was unavailable"@
            };
            let words = "[tachyon] "@ + text::dec(loss.lines) + " log line(s) ("@ + text::dec(
                loss.bytes,
            ) + " bytes) of this invocation were dropped: "@ + why;
            let line = LineView {
                seq: s.last_seq + 1,
                tenant: key[0],
                invocation: key[1],
                attempt: if loss.attempt_id is Some {
                    loss.attempt_id->0
                } else {
                    Seq::empty()
                },
                environment: loss.environment_id,
                stream: LogStream::Platform,
                phase: loss.phase,
                ts_ns: now_ns,
                text: words,
                truncated: false,
                marker: true,
            };
            &&& after.dropped_lines == before.dropped_lines + loss.lines
            &&& after.dropped_bytes == before.dropped_bytes + loss.bytes
            &&& after.lines == before.lines
            &&& after.bytes == before.bytes
            &&& after.limit_marked == before.limit_marked
            &&& t.attempts == s.attempts
            &&& t.out.written_lines == s.out.written_lines
            &&& t.out.written_bytes == s.out.written_bytes
            &&& t.out.truncated_lines == s.out.truncated_lines
            &&& t.out.invocation_limit == s.out.invocation_limit
            &&& t.out.attempt_limit == s.out.attempt_limit
            &&& if before.markers < 16 {
                &&& row_appended(s, t, line, size(words))
                &&& row_added(before, after, s.last_seq + 1, now_ns, size(words))
                &&& after.markers == before.markers + 1
                &&& t.out.markers == s.out.markers + 1
            } else {
                &&& no_row_appended(s, t)
                &&& after == (InvocationCounts {
                    dropped_lines: after.dropped_lines,
                    dropped_bytes: after.dropped_bytes,
                    ..before
                })
                &&& t.out.markers == s.out.markers
            }
        }),
{
}

/// A batch with one more line does what the batch does, then stores the line.
pub proof fn law_a_batch_is_stored_line_by_line(
    s: LogState,
    settings: Settings,
    now_ns: int,
    batch: Seq<Pending>,
    losses: Table<Loss>,
    next: Pending,
)
    ensures
        rows::after_batch(s, settings, now_ns, batch.push(next), losses) == rows::record_step(
            rows::after_batch(s, settings, now_ns, batch, losses),
            settings,
            next.record@,
        ),
        losses.values@.len() == 0 ==> rows::after_batch(
            s,
            settings,
            now_ns,
            Seq::<Pending>::empty(),
            losses,
        ) == s,
{
    let start = rows::after_losses(s, now_ns, losses, losses.values@.len());
    lemma_same_records(start, settings, batch, batch.push(next), batch.len());
    assert(batch.push(next)[batch.len() as int] == next);
}

proof fn lemma_same_records(
    s: LogState,
    settings: Settings,
    a: Seq<Pending>,
    b: Seq<Pending>,
    n: nat,
)
    requires
        n <= a.len(),
        n <= b.len(),
        forall|i: int| 0 <= i < n ==> #[trigger] a[i] == b[i],
    ensures
        rows::after_records(s, settings, a, n) == rows::after_records(s, settings, b, n),
    decreases n,
{
    if n > 0 {
        lemma_same_records(s, settings, a, b, (n - 1) as nat);
        assert(a[n - 1] == b[n - 1]);
    }
}

/// The losses of a batch are told before its lines are stored, each once, in
/// the order of their keys.
pub proof fn law_losses_are_told_first(
    s: LogState,
    settings: Settings,
    now_ns: int,
    losses: Table<Loss>,
    n: nat,
)
    requires
        n < losses.values@.len(),
    ensures
        rows::after_batch(s, settings, now_ns, Seq::<Pending>::empty(), losses)
            == rows::after_losses(s, now_ns, losses, losses.values@.len()),
        rows::after_losses(s, now_ns, losses, 0) == s,
        rows::after_losses(s, now_ns, losses, n + 1) == rows::loss_step(
            rows::after_losses(s, now_ns, losses, n),
            now_ns,
            losses.order()[n as int],
            losses.values@[n as int]@,
        ),
{
}

/// What a queued line is cut to: a longer line loses its end, no more of it than
/// the limit asks, and is marked as truncated; nothing else changes.
pub proof fn law_a_long_line_is_cut(record: LogRecordView, max: nat)
    ensures
        ({
            let cut = queue::bounded(record, max);
            &&& cut == (LogRecordView { line: cut.line, truncated: cut.truncated, ..record })
            &&& cut.line.is_prefix_of(record.line)
            &&& size(cut.line) <= max
            &&& forall|n: int|
                cut.line.len() < n <= record.line.len() ==> size(
                    #[trigger] record.line.subrange(0, n),
                ) > max
            &&& size(record.line) <= max ==> cut == record
            &&& size(record.line) > max ==> cut.truncated
        }),
{
    text::law_a_cut_text_is_the_longest_prefix_that_fits(record.line, max);
}

/// Where a line that is appended goes. One of no invocation is dropped; so is
/// every line once the queue is shut down, and one for which the queue has no
/// room, which is remembered as a loss. Every other line is queued last.
pub proof fn law_where_an_appended_line_goes(
    before: LogQueue,
    after: LogQueue,
    counters: Counters,
    counted: Counters,
    settings: Settings,
    cut: LogRecordView,
    at: u64,
    r: Appended,
)
    requires
        queue::append_result(before, after, counters, counted, settings, cut, at, r),
    ensures
        ({
            let has_room = before.items@.len() < settings.queue_max_lines && before.bytes + size(
                cut.line,
            ) <= settings.queue_max_bytes;
            if cut.invocation_id is Some && !before.shutdown && has_room {
                let item = after.items@.last();
                &&& r.outcome is Stored
                &&& r.notify == (before.items@.len() + 1 >= settings.flush_max_lines)
                &&& after.items@ == before.items@.push(item)
                &&& item.record@ == cut
                &&& item.at == at
                &&& item.seq == before.enqueued + 1
                &&& after.enqueued == before.enqueued + 1
                &&& after.losses == before.losses
                &&& counted == counters
            } else {
                &&& r.outcome is Dropped
                &&& !r.notify
                &&& after.items@ == before.items@
                &&& after.enqueued == before.enqueued
                &&& counted == (Counters {
                    dropped: DropCounts {
                        unattributed: counters.dropped.unattributed.wrapping_add(
                            if cut.invocation_id is None {
                                1
                            } else {
                                0
                            },
                        ),
                        store_unavailable: counters.dropped.store_unavailable.wrapping_add(
                            if cut.invocation_id is Some && before.shutdown {
                                1
                            } else {
                                0
                            },
                        ),
                        queue_full: counters.dropped.queue_full.wrapping_add(
                            if cut.invocation_id is Some && !before.shutdown {
                                1
                            } else {
                                0
                            },
                        ),
                        ..counters.dropped
                    },
                    ..counters
                })
                &&& if cut.invocation_id is Some && !before.shutdown {
                    queue::losses_view(after.losses) == queue::remembered(
                        queue::losses_view(before.losses),
                        "queue_full"@,
                        cut,
                    )
                } else {
                    after.losses == before.losses
                }
            }
        }),
{
    lemma_drop_counts(counted.dropped);
    lemma_drop_counts(counters.dropped);
    if after.items@.len() > 0 {
        assert(after.items@ =~= after.items@.drop_last().push(after.items@.last()));
    }
}

proof fn lemma_drop_counts(d: DropCounts)
    ensures
        d.spec_get(DropReason::QueueFull) == d.queue_full,
        d.spec_get(DropReason::StoreUnavailable) == d.store_unavailable,
        d.spec_get(DropReason::InvocationLimit) == d.invocation_limit,
        d.spec_get(DropReason::AttemptLimit) == d.attempt_limit,
        d.spec_get(DropReason::Unattributed) == d.unattributed,
{
}

/// A lost line of an invocation is counted under the invocation and the reason,
/// beside what was lost before; a new entry is made for it while there are
/// fewer than 4096. A lost line of no invocation is not.
pub proof fn law_a_lost_line_is_remembered(
    losses: Map<Seq<Seq<char>>, LossView>,
    reason: Seq<char>,
    record: LogRecordView,
)
    ensures
        record.invocation_id is None ==> queue::remembered(losses, reason, record) == losses,
        record.invocation_id is Some ==> ({
            let key = seq![record.tenant_id, record.invocation_id->0, reason];
            let after = queue::remembered(losses, reason, record);
            if losses.contains_key(key) {
                after == losses.insert(
                    key,
                    LossView {
                        lines: losses[key].lines + 1,
                        bytes: losses[key].bytes + vstd::utf8::encode_utf8(record.line).len(),
                        ..losses[key]
                    },
                )
            } else if losses.dom().len() < 4096 {
                after == losses.insert(
                    key,
                    LossView {
                        environment_id: record.environment_id,
                        attempt_id: record.attempt_id,
                        phase: record.phase,
                        lines: 1,
                        bytes: vstd::utf8::encode_utf8(record.line).len(),
                    },
                )
            } else {
                after == losses
            }
        }),
{
}

/// A line of a batch that could not be stored is remembered as lost because the
/// store was unavailable, after those before it.
pub proof fn law_a_refused_batch_is_remembered(
    losses: Map<Seq<Seq<char>>, LossView>,
    batch: Seq<Pending>,
    n: nat,
)
    requires
        n < batch.len(),
    ensures
        queue::refused(losses, batch, 0) == losses,
        queue::refused(losses, batch, n + 1) == queue::remembered(
            queue::refused(losses, batch, n),
            "store_unavailable"@,
            batch[n as int].record@,
        ),
{
}

/// Losses that come back to the queue are added to those that it has: where
/// there is one of the same key the counts add up, else it is put back while
/// there are fewer than 4096.
pub proof fn law_losses_come_back(
    losses: Map<Seq<Seq<char>>, LossView>,
    back: Table<Loss>,
    n: nat,
)
    requires
        n < back.values@.len(),
    ensures
        queue::merged(losses, back, 0) == losses,
        ({
            let before = queue::merged(losses, back, n);
            let after = queue::merged(losses, back, n + 1);
            let key = back.order()[n as int];
            let loss = back.values@[n as int]@;
            if before.contains_key(key) {
                after == before.insert(
                    key,
                    LossView {
                        lines: before[key].lines + loss.lines,
                        bytes: before[key].bytes + loss.bytes,
                        ..before[key]
                    },
                )
            } else if before.dom().len() < 4096 {
                after == before.insert(key, loss)
            } else {
                after == before
            }
        }),
{
}

/// What a reader of an invocation gets: the rows of that tenant and invocation,
/// in the order they were stored, as many as lines and markers can be; and
/// whether any line of it was dropped.
pub proof fn law_what_a_reader_gets(
    s: LogState,
    settings: Settings,
    tenant: Seq<char>,
    invocation: Seq<char>,
    pending_loss: bool,
    i: int,
)
    requires
        settings.invocation_lines >= 0,
    ensures
        ({
            let mine = s.lines.filter(
                |l: LineView| l.tenant == tenant && l.invocation == invocation,
            );
            let (records, dropped) = read::answer(s, settings, tenant, invocation, pending_loss);
            &&& records.len() == if mine.len() <= settings.invocation_lines + 16 {
                mine.len() as int
            } else {
                settings.invocation_lines + 16
            }
            &&& dropped == (pending_loss || counts_of(s, tenant, invocation).dropped_lines > 0)
            &&& 0 <= i < records.len() ==> records[i] == (LogRecordView {
                tenant_id: mine[i].tenant,
                environment_id: mine[i].environment,
                invocation_id: Some(mine[i].invocation),
                attempt_id: if mine[i].attempt.len() == 0 {
                    None
                } else {
                    Some(mine[i].attempt)
                },
                stream: mine[i].stream,
                phase: mine[i].phase,
                timestamp: time::of_count(mine[i].ts_ns) as Timestamp,
                line: mine[i].text,
                truncated: mine[i].truncated,
            })
        }),
{
    assert(rows::select(s.lines, tenant, invocation) == s.lines.filter(
        |l: LineView| l.tenant == tenant && l.invocation == invocation,
    ));
}

} // verus!
