//! The bounded queue between the callers and the writer.

use vstd::prelude::*;

use crate::domain::log::{LogPhase, LogRecord, LogRecordView};
use crate::logs::store::{Counters, DropReason, Settings};
use crate::repository::AppendOutcome;
use crate::table;
use crate::table::{Key, Table};
use crate::text;

verus! {

/// Invocations whose losses are remembered for a marker; beyond that losses
/// are only counted.
pub const MAX_LOSS_KEYS: usize = 4096;

/// Lines of one invocation that were dropped for one reason, waiting for a
/// marker.
#[derive(Debug, PartialEq, Eq)]
pub struct Loss {
    pub environment_id: String,
    pub attempt_id: Option<String>,
    pub phase: LogPhase,
    pub lines: u64,
    pub bytes: u64,
}

impl Clone for Loss {
    fn clone(&self) -> (r: Self)
        ensures
            r == *self,
    {
        Loss {
            environment_id: self.environment_id.clone(),
            attempt_id: text::clone_opt(&self.attempt_id),
            phase: self.phase,
            lines: self.lines,
            bytes: self.bytes,
        }
    }
}

/// Content of a loss.
pub ghost struct LossView {
    pub environment_id: Seq<char>,
    pub attempt_id: Option<Seq<char>>,
    pub phase: LogPhase,
    pub lines: nat,
    pub bytes: nat,
}

impl View for Loss {
    type V = LossView;

    open spec fn view(&self) -> LossView {
        LossView {
            environment_id: self.environment_id@,
            attempt_id: text::opt_view(self.attempt_id),
            phase: self.phase,
            lines: self.lines as nat,
            bytes: self.bytes as nat,
        }
    }
}

/// The losses by tenant, invocation and reason.
pub open spec fn losses_view(losses: Table<Loss>) -> Map<Seq<Seq<char>>, LossView> {
    losses@.map_values(|l: Loss| l@)
}

/// `losses` after more lines were lost under `key`: added to what is
/// remembered there, or remembered anew while there is room.
pub open spec fn noted(
    losses: Map<Seq<Seq<char>>, LossView>,
    key: Seq<Seq<char>>,
    loss: LossView,
) -> Map<Seq<Seq<char>>, LossView> {
    if losses.contains_key(key) {
        losses.insert(
            key,
            LossView {
                lines: losses[key].lines + loss.lines,
                bytes: losses[key].bytes + loss.bytes,
                ..losses[key]
            },
        )
    } else if losses.dom().len() < MAX_LOSS_KEYS {
        losses.insert(key, loss)
    } else {
        losses
    }
}

/// `losses` after `record` was lost for `reason`.
pub open spec fn remembered(
    losses: Map<Seq<Seq<char>>, LossView>,
    reason: Seq<char>,
    record: LogRecordView,
) -> Map<Seq<Seq<char>>, LossView> {
    match record.invocation_id {
        None => losses,
        Some(invocation) => noted(
            losses,
            table::k3(record.tenant_id, invocation, reason),
            LossView {
                environment_id: record.environment_id,
                attempt_id: record.attempt_id,
                phase: record.phase,
                lines: 1,
                bytes: vstd::utf8::encode_utf8(record.line).len(),
            },
        ),
    }
}

/// Losses are kept by tenant, invocation and reason.
pub open spec fn loss_keys(losses: Table<Loss>) -> bool {
    forall|k: Seq<Seq<char>>| #[trigger] losses@.contains_key(k) ==> k.len() == 3
}

/// The counts of every loss are 64-bit numbers.
pub open spec fn losses_fit(losses: Map<Seq<Seq<char>>, LossView>) -> bool {
    forall|k: Seq<Seq<char>>| #[trigger]
        losses.contains_key(k) ==> losses[k].lines <= u64::MAX && losses[k].bytes <= u64::MAX
}

fn note_loss(losses: &mut Table<Loss>, key: Key, loss: Loss)
    requires
        old(losses).wf(),
        loss_keys(*old(losses)),
        key@.len() == 3,
        losses_fit(noted(losses_view(*old(losses)), key@, loss@)),
    ensures
        final(losses).wf(),
        loss_keys(*final(losses)),
        losses_view(*final(losses)) == noted(losses_view(*old(losses)), key@, loss@),
{
    let ghost before = losses_view(*losses);
    let count: usize = losses.len();
    assert(before.dom() =~= losses@.dom());
    match losses.position(&key) {
        Some(i) => {
            let ghost after = noted(before, key@, loss@);
            assert(before.contains_key(key@));
            assert(after.contains_key(key@));
            let old_loss = &losses.values[i];
            let merged = Loss {
                environment_id: old_loss.environment_id.clone(),
                attempt_id: text::clone_opt(&old_loss.attempt_id),
                phase: old_loss.phase,
                lines: old_loss.lines + loss.lines,
                bytes: old_loss.bytes + loss.bytes,
            };
            losses.set(key, merged);
            assert(losses_view(*losses) =~= after);
        },
        None => {
            if count < MAX_LOSS_KEYS {
                losses.set(key, loss);
                assert(losses_view(*losses) =~= noted(before, key@, loss@));
            }
        },
    }
}

/// Remember that `record` was lost for `reason`.
pub fn remember_loss(losses: &mut Table<Loss>, reason: &str, record: &LogRecord)
    requires
        old(losses).wf(),
        loss_keys(*old(losses)),
        losses_fit(remembered(losses_view(*old(losses)), reason@, record@)),
    ensures
        final(losses).wf(),
        loss_keys(*final(losses)),
        losses_view(*final(losses)) == remembered(losses_view(*old(losses)), reason@, record@),
{
    match &record.invocation_id {
        None => {},
        Some(invocation) => {
            let loss = Loss {
                environment_id: record.environment_id.clone(),
                attempt_id: text::clone_opt(&record.attempt_id),
                phase: record.phase,
                lines: 1,
                bytes: text::byte_len(record.line.as_str()) as u64,
            };
            let key = Key::three(record.tenant_id.as_str(), invocation.as_str(), reason);
            note_loss(losses, key, loss);
        },
    }
}

/// `losses` after the first `n` of the losses `back` were noted again.
pub open spec fn merged(
    losses: Map<Seq<Seq<char>>, LossView>,
    back: Table<Loss>,
    n: nat,
) -> Map<Seq<Seq<char>>, LossView>
    decreases n,
{
    if n == 0 {
        losses
    } else {
        noted(merged(losses, back, (n - 1) as nat), back.order()[n - 1], back.values@[n - 1]@)
    }
}

/// `losses` after the first `n` lines of a batch the store refused were
/// remembered.
pub open spec fn refused(
    losses: Map<Seq<Seq<char>>, LossView>,
    batch: Seq<Pending>,
    n: nat,
) -> Map<Seq<Seq<char>>, LossView>
    decreases n,
{
    if n == 0 {
        losses
    } else {
        remembered(
            refused(losses, batch, (n - 1) as nat),
            "store_unavailable"@,
            batch[n - 1].record@,
        )
    }
}

proof fn lemma_noted_fit(
    losses: Map<Seq<Seq<char>>, LossView>,
    key: Seq<Seq<char>>,
    loss: LossView,
)
    requires
        losses_fit(noted(losses, key, loss)),
    ensures
        losses_fit(losses),
{
    let after = noted(losses, key, loss);
    assert forall|k: Seq<Seq<char>>| #[trigger] losses.contains_key(k) implies losses[k].lines
        <= u64::MAX && losses[k].bytes <= u64::MAX by {
        assert(after.contains_key(k));
        if k != key {
            assert(after[k] == losses[k]);
        }
    }
}

proof fn lemma_refused_fit(
    losses: Map<Seq<Seq<char>>, LossView>,
    batch: Seq<Pending>,
    n: nat,
    m: nat,
)
    requires
        n <= m,
        losses_fit(refused(losses, batch, m)),
    ensures
        losses_fit(refused(losses, batch, n)),
    decreases m,
{
    if n < m {
        let before = refused(losses, batch, (m - 1) as nat);
        let record = batch[m - 1].record@;
        if record.invocation_id is Some {
            lemma_noted_fit(
                before,
                table::k3(record.tenant_id, record.invocation_id->0, "store_unavailable"@),
                LossView {
                    environment_id: record.environment_id,
                    attempt_id: record.attempt_id,
                    phase: record.phase,
                    lines: 1,
                    bytes: vstd::utf8::encode_utf8(record.line).len(),
                },
            );
        }
        lemma_refused_fit(losses, batch, n, (m - 1) as nat);
    }
}

proof fn lemma_merged_fit(
    losses: Map<Seq<Seq<char>>, LossView>,
    back: Table<Loss>,
    n: nat,
    m: nat,
)
    requires
        n <= m,
        losses_fit(merged(losses, back, m)),
    ensures
        losses_fit(merged(losses, back, n)),
    decreases m,
{
    if n < m {
        lemma_noted_fit(
            merged(losses, back, (m - 1) as nat),
            back.order()[m - 1],
            back.values@[m - 1]@,
        );
        lemma_merged_fit(losses, back, n, (m - 1) as nat);
    }
}

/// A queued line.
#[derive(Debug, PartialEq, Eq)]
pub struct Pending {
    pub seq: u64,
    pub record: LogRecord,
    /// Monotonic nanoseconds at which the line was queued.
    pub at: u64,
}

/// Line bytes of the queued lines.
pub open spec fn queued_bytes(items: Seq<Pending>) -> nat
    decreases items.len(),
{
    if items.len() == 0 {
        0
    } else {
        queued_bytes(items.drop_last()) + vstd::utf8::encode_utf8(items.last().record.line@).len()
    }
}

/// The lines waiting for the writer.
pub struct LogQueue {
    pub items: Vec<Pending>,
    pub bytes: u64,
    /// Sequence number of the last line accepted.
    pub enqueued: u64,
    pub flush_requested: bool,
    pub shutdown: bool,
    pub losses: Table<Loss>,
}

/// `record` with a line longer than `max` bytes cut to it and marked.
pub open spec fn bounded(record: LogRecordView, max: nat) -> LogRecordView {
    if vstd::utf8::encode_utf8(record.line).len() > max {
        LogRecordView { line: text::cut_text(record.line, max), truncated: true, ..record }
    } else {
        record
    }
}

/// What became of a line handed to the queue.
#[derive(Debug, Clone, Copy, PartialEq, Eq, Structural)]
pub struct Appended {
    pub outcome: AppendOutcome,
    /// The writer should run now.
    pub notify: bool,
}

impl LogQueue {
    /// The byte count is that of the queued lines, and their numbers run up
    /// to the last one handed out.
    pub open spec fn wf(&self) -> bool {
        &&& self.losses.wf()
        &&& loss_keys(self.losses)
        &&& self.bytes == queued_bytes(self.items@)
        &&& self.items@.len() <= self.enqueued
        &&& forall|i: int|
            0 <= i < self.items@.len() ==> (#[trigger] self.items@[i]).seq == self.enqueued
                - self.items@.len() + i + 1
    }

    /// No line queued, none lost.
    pub fn new() -> (r: Self)
        ensures
            r.wf(),
            r.items@.len() == 0,
            r.enqueued == 0,
            !r.flush_requested,
            !r.shutdown,
            r.losses@ == Map::<Seq<Seq<char>>, Loss>::empty(),
    {
        LogQueue {
            items: Vec::new(),
            bytes: 0,
            enqueued: 0,
            flush_requested: false,
            shutdown: false,
            losses: Table::new(),
        }
    }

    /// No room for `bytes` more line bytes.
    pub open spec fn is_full(&self, settings: Settings, bytes: nat) -> bool {
        self.items@.len() >= settings.queue_max_lines || self.bytes + bytes
            > settings.queue_max_bytes
    }

    /// Queue a line. It never waits: a line without an invocation, a line
    /// after the shutdown and a line that finds the queue full are dropped
    /// and counted, and the last is remembered as a loss of its invocation. A
    /// line over the line limit is cut first.
    pub fn append(
        &mut self,
        counters: &mut Counters,
        settings: &Settings,
        record: LogRecord,
        at: u64,
    ) -> (r: Appended)
        requires
            old(self).wf(),
            old(self).enqueued < u64::MAX,
            losses_fit(
                remembered(
                    losses_view(old(self).losses),
                    "queue_full"@,
                    bounded(record@, settings.max_line_bytes as nat),
                ),
            ),
        ensures
            final(self).wf(),
            final(self).flush_requested == old(self).flush_requested,
            final(self).shutdown == old(self).shutdown,
            append_result(
                *old(self),
                *final(self),
                *old(counters),
                *final(counters),
                *settings,
                bounded(record@, settings.max_line_bytes as nat),
                at,
                r,
            ),
    {
        let max: usize = settings.max_line_bytes;
        let mut record = record;
        let ghost given = record@;
        if record.invocation_id.is_none() {
            counters.dropped.bump(DropReason::Unattributed, 1);
            return Appended { outcome: AppendOutcome::Dropped, notify: false };
        }
        if text::byte_len(record.line.as_str()) > max {
            let (line, _) = LogRecord::bounded_line(record.line.as_str(), max);
            record.line = line;
            record.truncated = true;
        }
        assert(record@ == bounded(given, max as nat));
        let bytes: u64 = text::byte_len(record.line.as_str()) as u64;
        if self.shutdown {
            counters.dropped.bump(DropReason::StoreUnavailable, 1);
            return Appended { outcome: AppendOutcome::Dropped, notify: false };
        }
        let full = self.items.len() >= settings.queue_max_lines || self.bytes
            > settings.queue_max_bytes || bytes > settings.queue_max_bytes - self.bytes;
        if full {
            remember_loss(&mut self.losses, "queue_full", &record);
            counters.dropped.bump(DropReason::QueueFull, 1);
            return Appended { outcome: AppendOutcome::Dropped, notify: false };
        }
        self.enqueued = self.enqueued + 1;
        self.bytes = self.bytes + bytes;
        let ghost items = self.items@;
        let pending = Pending { seq: self.enqueued, record, at };
        self.items.push(pending);
        assert(self.items@.drop_last() =~= items);
        let notify = self.items.len() >= settings.flush_max_lines;
        Appended { outcome: AppendOutcome::Stored, notify }
    }
}

impl LogQueue {
    /// Whether the writer may wait for more lines.
    pub fn may_wait(&self, settings: &Settings) -> (r: bool)
        ensures
            r == has_time(*self, *settings),
    {
        !self.shutdown && !self.flush_requested && self.items.len() < settings.flush_max_lines
    }

    /// Everything queued and every loss, handed to the writer.
    pub fn drain(&mut self) -> (r: Drained)
        requires
            old(self).wf(),
        ensures
            final(self).wf(),
            drained(*old(self), *final(self), r),
            r.losses.wf(),
            loss_keys(r.losses),
    {
        let mut items: Vec<Pending> = Vec::new();
        let mut losses: Table<Loss> = Table::new();
        core::mem::swap(&mut items, &mut self.items);
        core::mem::swap(&mut losses, &mut self.losses);
        self.flush_requested = false;
        self.bytes = 0;
        let last_seq: Option<u64> = if items.len() == 0 {
            None
        } else {
            Some(items[items.len() - 1].seq)
        };
        Drained { items, losses, shutdown: self.shutdown, last_seq }
    }

    /// Ask the writer to run for a reader that waits. `None` when nothing
    /// queued or lost so far is outstanding, else the number that has to be
    /// committed.
    pub fn request_flush(&mut self, committed: u64) -> (r: Option<u64>)
        requires
            old(self).wf(),
        ensures
            final(self).wf(),
            flush_asked(*old(self), *final(self), committed, r),
    {
        if self.items.len() == 0 && self.losses.len() == 0 && committed >= self.enqueued {
            return None;
        }
        self.flush_requested = true;
        Some(self.enqueued)
    }

    /// Whether lines of the invocation were lost and have no marker yet.
    pub fn has_loss(&self, tenant: &str, invocation: &str) -> (r: bool)
        requires
            self.wf(),
        ensures
            r == exists|reason: Seq<char>|
                self.losses@.contains_key(#[trigger] table::k3(tenant@, invocation@, reason)),
    {
        let mut i: usize = 0;
        while i < self.losses.keys.len()
            invariant
                self.wf(),
                i <= self.losses.keys@.len(),
                forall|j: int, reason: Seq<char>|
                    0 <= j < i ==> #[trigger] self.losses.order()[j] != #[trigger] table::k3(
                        tenant@,
                        invocation@,
                        reason,
                    ),
            decreases self.losses.keys@.len() - i,
        {
            let key = &self.losses.keys[i];
            if key.parts.len() == 3 && text::same_text(key.parts[0].as_str(), tenant)
                && text::same_text(key.parts[1].as_str(), invocation) {
                proof {
                    let reason = key.parts@[2]@;
                    assert(key@ =~= table::k3(tenant@, invocation@, reason));
                    assert(self.losses.order()[i as int] == table::k3(tenant@, invocation@, reason));
                }
                return true;
            }
            proof {
                assert forall|reason: Seq<char>| self.losses.order()[i as int] != #[trigger] table::k3(
                    tenant@,
                    invocation@,
                    reason,
                ) by {
                    let k = table::k3(tenant@, invocation@, reason);
                    assert(k.len() == 3 && k[0] == tenant@ && k[1] == invocation@);
                    if key@ == k {
                        assert(key@.len() == 3);
                        assert(key@[0] == key.parts@[0]@);
                        assert(key@[1] == key.parts@[1]@);
                    }
                }
            }
            i += 1;
        }
        false
    }

    /// Take back the losses of a batch the store refused, and count its lines
    /// as lost too, so that their invocations get a marker later.
    pub fn restore(&mut self, losses: &Table<Loss>, batch: &Vec<Pending>)
        requires
            old(self).wf(),
            losses.wf(),
            loss_keys(*losses),
            losses_fit(
                refused(
                    merged(losses_view(old(self).losses), *losses, losses.values@.len()),
                    batch@,
                    batch@.len(),
                ),
            ),
        ensures
            final(self).wf(),
            final(self).items@ == old(self).items@,
            final(self).enqueued == old(self).enqueued,
            final(self).flush_requested == old(self).flush_requested,
            final(self).shutdown == old(self).shutdown,
            losses_view(final(self).losses) == refused(
                merged(losses_view(old(self).losses), *losses, losses.values@.len()),
                batch@,
                batch@.len(),
            ),
    {
        let ghost start = losses_view(self.losses);
        let ghost total = merged(start, *losses, losses.values@.len());
        proof {
            lemma_refused_fit(total, batch@, 0, batch@.len());
        }
        let mut i: usize = 0;
        while i < losses.keys.len()
            invariant
                self.wf(),
                losses.wf(),
                loss_keys(*losses),
                i <= losses.keys@.len(),
                self.items@ == old(self).items@,
                self.enqueued == old(self).enqueued,
                self.flush_requested == old(self).flush_requested,
                self.shutdown == old(self).shutdown,
                losses_view(self.losses) == merged(start, *losses, i as nat),
                losses_fit(merged(start, *losses, losses.values@.len())),
            decreases losses.keys@.len() - i,
        {
            proof {
                lemma_merged_fit(start, *losses, (i + 1) as nat, losses.values@.len());
                table::lemma_row_at(losses.order(), losses.values@, i as int);
                assert(losses@.contains_key(losses.order()[i as int]));
            }
            let key = losses.keys[i].copy();
            let loss = losses.values[i].clone();
            note_loss(&mut self.losses, key, loss);
            i += 1;
        }
        let mut j: usize = 0;
        while j < batch.len()
            invariant
                self.wf(),
                j <= batch@.len(),
                self.items@ == old(self).items@,
                self.enqueued == old(self).enqueued,
                self.flush_requested == old(self).flush_requested,
                self.shutdown == old(self).shutdown,
                losses_view(self.losses) == refused(total, batch@, j as nat),
                losses_fit(refused(total, batch@, batch@.len())),
            decreases batch@.len() - j,
        {
            proof {
                lemma_refused_fit(total, batch@, (j + 1) as nat, batch@.len());
            }
            remember_loss(&mut self.losses, "store_unavailable", &batch[j].record);
            j += 1;
        }
    }
}

/// What the writer takes from the queue.
pub struct Drained {
    pub items: Vec<Pending>,
    pub losses: Table<Loss>,
    pub shutdown: bool,
    /// Number of the last line taken.
    pub last_seq: Option<u64>,
}

/// The writer has nothing to do before its interval is over.
pub open spec fn has_time(queue: LogQueue, settings: Settings) -> bool {
    !queue.shutdown && !queue.flush_requested && queue.items@.len() < settings.flush_max_lines
}

/// The queue once everything is taken out of it, and what was.
pub open spec fn drained(before: LogQueue, after: LogQueue, r: Drained) -> bool {
    &&& after.items@.len() == 0
    &&& after.bytes == 0
    &&& after.enqueued == before.enqueued
    &&& !after.flush_requested
    &&& after.shutdown == before.shutdown
    &&& after.losses@ == Map::<Seq<Seq<char>>, Loss>::empty()
    &&& r.items@ == before.items@
    &&& r.losses == before.losses
    &&& r.shutdown == before.shutdown
    &&& r.last_seq == if before.items@.len() == 0 {
        None
    } else {
        Some(before.enqueued)
    }
}

/// The queue once a flush is asked for, and the line to wait for.
pub open spec fn flush_asked(
    before: LogQueue,
    after: LogQueue,
    committed: u64,
    r: Option<u64>,
) -> bool {
    let done = before.items@.len() == 0 && before.losses@.dom().len() == 0 && committed
        >= before.enqueued;
    &&& after.items@ == before.items@
    &&& after.losses == before.losses
    &&& after.enqueued == before.enqueued
    &&& after.shutdown == before.shutdown
    &&& r == if done {
        None
    } else {
        Some(before.enqueued)
    }
    &&& after.flush_requested == (before.flush_requested || !done)
}

/// How long the writer waits, in nanoseconds.
pub open spec fn wait_of(settings: Settings, until_retention: u128) -> int {
    let flush = settings.flush_interval_ms * 1_000_000;
    let least = if flush < until_retention {
        flush
    } else {
        until_retention as int
    };
    if least > 1_000_000 {
        least
    } else {
        1_000_000
    }
}

/// The last committed line once a batch is committed.
pub open spec fn committed_with(committed: u64, last_seq: Option<u64>) -> u64 {
    match last_seq {
        Some(seq) => if seq > committed {
            seq
        } else {
            committed
        },
        None => committed,
    }
}

/// Nanoseconds the writer waits for more lines: until the next flush or the
/// next retention pass, at least one millisecond.
pub fn writer_wait(settings: &Settings, until_retention: u128) -> (r: u128)
    ensures
        r == wait_of(*settings, until_retention),
{
    let flush: u128 = settings.flush_interval_ms as u128 * 1_000_000;
    let least: u128 = if flush < until_retention {
        flush
    } else {
        until_retention
    };
    if least > 1_000_000 {
        least
    } else {
        1_000_000
    }
}

/// The number up to which lines are committed or dropped after a batch.
pub fn committed_after(committed: u64, last_seq: Option<u64>) -> (r: u64)
    ensures
        r == committed_with(committed, last_seq),
{
    match last_seq {
        Some(seq) => if seq > committed {
            seq
        } else {
            committed
        },
        None => committed,
    }
}

/// What handing `cut`, a line within the line limit, to a queue does.
pub open spec fn append_result(
    before: LogQueue,
    after: LogQueue,
    counters: Counters,
    counted: Counters,
    settings: Settings,
    cut: LogRecordView,
    at: u64,
    r: Appended,
) -> bool {
    let unchanged = after.items@ == before.items@ && after.enqueued == before.enqueued;
    let only = |reason: DropReason|
        {
            &&& counted == (Counters { dropped: counted.dropped, ..counters })
            &&& forall|other: DropReason| #[trigger] counted.dropped.spec_get(other) == if other == reason {
                counters.dropped.spec_get(other).wrapping_add(1)
            } else {
                counters.dropped.spec_get(other)
            }
        };
    let dropped = Appended { outcome: AppendOutcome::Dropped, notify: false };
    if cut.invocation_id is None {
        r == dropped && unchanged && after.losses == before.losses && only(DropReason::Unattributed)
    } else if before.shutdown {
        r == dropped && unchanged && after.losses == before.losses && only(
            DropReason::StoreUnavailable,
        )
    } else if before.is_full(settings, vstd::utf8::encode_utf8(cut.line).len()) {
        &&& r == dropped
        &&& unchanged
        &&& losses_view(after.losses) == remembered(
            losses_view(before.losses),
            "queue_full"@,
            cut,
        )
        &&& only(DropReason::QueueFull)
    } else {
        &&& r.outcome == AppendOutcome::Stored
        &&& r.notify == (after.items@.len() >= settings.flush_max_lines)
        &&& after.losses == before.losses
        &&& counted == counters
        &&& after.enqueued == before.enqueued + 1
        &&& after.items@.len() == before.items@.len() + 1
        &&& after.items@.drop_last() == before.items@
        &&& after.items@.last().seq == after.enqueued
        &&& after.items@.last().record@ == cut
        &&& after.items@.last().at == at
    }
}

} // verus!
