//! The rows of the log database and what one committed batch does to them.

use vstd::prelude::*;

use crate::domain::log::{LogPhase, LogRecord, LogRecordView, LogStream};
use crate::logs::queue;
use crate::logs::queue::{Loss, LossView, Pending};
use crate::logs::store::{Settings, MARKER_PREFIX, MAX_MARKERS_PER_INVOCATION};
use crate::table;
use crate::table::{Key, Table};
use crate::text;
use crate::time;
use crate::time::Timestamp;

verus! {

/// What one batch did.
#[derive(Debug, Clone, Copy, PartialEq, Eq, Structural)]
pub struct BatchOutcome {
    pub written_lines: u64,
    pub written_bytes: u64,
    pub truncated_lines: u64,
    pub markers: u64,
    pub invocation_limit: u64,
    pub attempt_limit: u64,
    pub stored_lines: i64,
    pub stored_bytes: i64,
}

/// Counters of one invocation. `lines` and `bytes` are those that count
/// against the caps; the stored ones hold the markers too.
#[derive(Debug, Clone, Copy, PartialEq, Eq, Structural)]
pub struct InvocationRow {
    pub first_seq: i64,
    pub last_ts_ns: i64,
    pub lines: i64,
    pub bytes: i64,
    pub stored_lines: i64,
    pub stored_bytes: i64,
    pub dropped_lines: i64,
    pub dropped_bytes: i64,
    pub markers: i64,
    pub limit_marked: bool,
}

/// Counters of one attempt.
#[derive(Debug, Clone, Copy, PartialEq, Eq, Structural)]
pub struct AttemptRow {
    pub lines: i64,
    pub bytes: i64,
    pub dropped_lines: i64,
    pub limit_marked: bool,
}

/// A stored line. An attempt that is not known is the empty text.
#[derive(Debug, PartialEq, Eq)]
pub struct LineRow {
    pub seq: i64,
    pub tenant: String,
    pub invocation: String,
    pub attempt: String,
    pub environment: String,
    pub stream: LogStream,
    pub phase: LogPhase,
    pub ts_ns: i64,
    pub text: String,
    pub truncated: bool,
    pub marker: bool,
}

/// The rows a batch works on.
pub struct LogRows {
    /// Number of the last line ever stored.
    pub last_seq: i64,
    pub lines: Vec<LineRow>,
    /// By tenant and invocation.
    pub invocations: Table<InvocationRow>,
    /// By tenant, invocation and attempt.
    pub attempts: Table<AttemptRow>,
    pub stored_lines: i64,
    pub stored_bytes: i64,
}

/// Counts of what one batch did.
pub ghost struct OutcomeView {
    pub written_lines: int,
    pub written_bytes: int,
    pub truncated_lines: int,
    pub markers: int,
    pub invocation_limit: int,
    pub attempt_limit: int,
    pub stored_lines: int,
    pub stored_bytes: int,
}

/// Counts of one invocation.
pub ghost struct InvocationCounts {
    pub first_seq: int,
    pub last_ts_ns: int,
    pub lines: int,
    pub bytes: int,
    pub stored_lines: int,
    pub stored_bytes: int,
    pub dropped_lines: int,
    pub dropped_bytes: int,
    pub markers: int,
    pub limit_marked: bool,
}

/// Counts of one attempt.
pub ghost struct AttemptCounts {
    pub lines: int,
    pub bytes: int,
    pub dropped_lines: int,
    pub limit_marked: bool,
}

/// Content of a stored line.
pub ghost struct LineView {
    pub seq: int,
    pub tenant: Seq<char>,
    pub invocation: Seq<char>,
    pub attempt: Seq<char>,
    pub environment: Seq<char>,
    pub stream: LogStream,
    pub phase: LogPhase,
    pub ts_ns: int,
    pub text: Seq<char>,
    pub truncated: bool,
    pub marker: bool,
}

/// The log database, and what the batch in progress did to it.
pub ghost struct LogState {
    pub last_seq: int,
    pub lines: Seq<LineView>,
    pub invocations: Map<Seq<Seq<char>>, InvocationCounts>,
    pub attempts: Map<Seq<Seq<char>>, AttemptCounts>,
    pub stored_lines: int,
    pub stored_bytes: int,
    pub out: OutcomeView,
}

impl View for BatchOutcome {
    type V = OutcomeView;

    open spec fn view(&self) -> OutcomeView {
        OutcomeView {
            written_lines: self.written_lines as int,
            written_bytes: self.written_bytes as int,
            truncated_lines: self.truncated_lines as int,
            markers: self.markers as int,
            invocation_limit: self.invocation_limit as int,
            attempt_limit: self.attempt_limit as int,
            stored_lines: self.stored_lines as int,
            stored_bytes: self.stored_bytes as int,
        }
    }
}

impl View for InvocationRow {
    type V = InvocationCounts;

    open spec fn view(&self) -> InvocationCounts {
        InvocationCounts {
            first_seq: self.first_seq as int,
            last_ts_ns: self.last_ts_ns as int,
            lines: self.lines as int,
            bytes: self.bytes as int,
            stored_lines: self.stored_lines as int,
            stored_bytes: self.stored_bytes as int,
            dropped_lines: self.dropped_lines as int,
            dropped_bytes: self.dropped_bytes as int,
            markers: self.markers as int,
            limit_marked: self.limit_marked,
        }
    }
}

impl View for AttemptRow {
    type V = AttemptCounts;

    open spec fn view(&self) -> AttemptCounts {
        AttemptCounts {
            lines: self.lines as int,
            bytes: self.bytes as int,
            dropped_lines: self.dropped_lines as int,
            limit_marked: self.limit_marked,
        }
    }
}

impl View for LineRow {
    type V = LineView;

    open spec fn view(&self) -> LineView {
        LineView {
            seq: self.seq as int,
            tenant: self.tenant@,
            invocation: self.invocation@,
            attempt: self.attempt@,
            environment: self.environment@,
            stream: self.stream,
            phase: self.phase,
            ts_ns: self.ts_ns as int,
            text: self.text@,
            truncated: self.truncated,
            marker: self.marker,
        }
    }
}

/// The batch has done nothing yet.
pub open spec fn no_outcome() -> OutcomeView {
    OutcomeView {
        written_lines: 0,
        written_bytes: 0,
        truncated_lines: 0,
        markers: 0,
        invocation_limit: 0,
        attempt_limit: 0,
        stored_lines: 0,
        stored_bytes: 0,
    }
}

/// Content of stored lines.
pub open spec fn lines_view(lines: Seq<LineRow>) -> Seq<LineView> {
    lines.map_values(|l: LineRow| l@)
}

impl LogRows {
    /// One row per invocation and per attempt.
    pub open spec fn wf(&self) -> bool {
        &&& self.invocations.wf()
        &&& self.attempts.wf()
        &&& forall|k: Seq<Seq<char>>| #[trigger] self.invocations@.contains_key(k) ==> k.len() == 2
    }

    /// The rows together with what the batch in progress did.
    pub open spec fn state(&self, out: OutcomeView) -> LogState {
        LogState {
            last_seq: self.last_seq as int,
            lines: lines_view(self.lines@),
            invocations: self.invocations@.map_values(|r: InvocationRow| r@),
            attempts: self.attempts@.map_values(|r: AttemptRow| r@),
            stored_lines: self.stored_lines as int,
            stored_bytes: self.stored_bytes as int,
            out,
        }
    }
}

impl View for LogRows {
    type V = LogState;

    open spec fn view(&self) -> LogState {
        self.state(no_outcome())
    }
}

/// A count that the database can hold.
pub open spec fn is_count(n: int) -> bool {
    0 <= n <= i64::MAX
}

impl OutcomeView {
    pub open spec fn fits(self) -> bool {
        &&& is_count(self.written_lines)
        &&& is_count(self.written_bytes)
        &&& is_count(self.truncated_lines)
        &&& is_count(self.markers)
        &&& is_count(self.invocation_limit)
        &&& is_count(self.attempt_limit)
        &&& is_count(self.stored_lines)
        &&& is_count(self.stored_bytes)
    }
}

impl InvocationCounts {
    pub open spec fn fits(self) -> bool {
        &&& is_count(self.first_seq)
        &&& is_count(self.lines)
        &&& is_count(self.bytes)
        &&& is_count(self.stored_lines)
        &&& is_count(self.stored_bytes)
        &&& is_count(self.dropped_lines)
        &&& is_count(self.dropped_bytes)
        &&& is_count(self.markers)
    }

    pub open spec fn zero() -> InvocationCounts {
        InvocationCounts {
            first_seq: 0,
            last_ts_ns: 0,
            lines: 0,
            bytes: 0,
            stored_lines: 0,
            stored_bytes: 0,
            dropped_lines: 0,
            dropped_bytes: 0,
            markers: 0,
            limit_marked: false,
        }
    }

    /// The counts after a line or a marker of the invocation was stored.
    pub open spec fn with_stored(self, seq: int, ts_ns: int, bytes: int) -> InvocationCounts {
        InvocationCounts {
            first_seq: if self.first_seq == 0 {
                seq
            } else {
                self.first_seq
            },
            last_ts_ns: if self.last_ts_ns < ts_ns {
                ts_ns
            } else {
                self.last_ts_ns
            },
            stored_lines: self.stored_lines + 1,
            stored_bytes: self.stored_bytes + bytes,
            ..self
        }
    }

    /// The counts after lines of the invocation were dropped.
    pub open spec fn with_dropped(self, lines: int, bytes: int) -> InvocationCounts {
        InvocationCounts {
            dropped_lines: self.dropped_lines + lines,
            dropped_bytes: self.dropped_bytes + bytes,
            ..self
        }
    }
}

impl AttemptCounts {
    pub open spec fn fits(self) -> bool {
        &&& is_count(self.lines)
        &&& is_count(self.bytes)
        &&& is_count(self.dropped_lines)
    }

    pub open spec fn zero() -> AttemptCounts {
        AttemptCounts { lines: 0, bytes: 0, dropped_lines: 0, limit_marked: false }
    }
}

impl LogState {
    /// Every count is one that the database can hold.
    pub open spec fn fits(self) -> bool {
        &&& is_count(self.last_seq)
        &&& is_count(self.stored_lines)
        &&& is_count(self.stored_bytes)
        &&& self.out.fits()
        &&& forall|k: Seq<Seq<char>>| #[trigger]
            self.invocations.contains_key(k) ==> self.invocations[k].fits()
        &&& forall|k: Seq<Seq<char>>| #[trigger]
            self.attempts.contains_key(k) ==> self.attempts[k].fits()
    }

    /// Counts of an invocation; none where it has no row.
    pub open spec fn invocation(self, key: Seq<Seq<char>>) -> InvocationCounts {
        if self.invocations.contains_key(key) {
            self.invocations[key]
        } else {
            InvocationCounts::zero()
        }
    }

    /// Counts of an attempt; none where it has no row.
    pub open spec fn attempt(self, key: Seq<Seq<char>>) -> AttemptCounts {
        if self.attempts.contains_key(key) {
            self.attempts[key]
        } else {
            AttemptCounts::zero()
        }
    }

    /// `line` stored, with `counts` those of its invocation otherwise.
    pub open spec fn with_line(self, line: LineView, counts: InvocationCounts) -> LogState {
        let bytes = vstd::utf8::encode_utf8(line.text).len() as int;
        let seq = self.last_seq + 1;
        LogState {
            last_seq: seq,
            lines: self.lines.push(LineView { seq, ..line }),
            invocations: self.invocations.insert(
                table::k2(line.tenant, line.invocation),
                counts.with_stored(seq, line.ts_ns, bytes),
            ),
            stored_lines: self.stored_lines + 1,
            stored_bytes: self.stored_bytes + bytes,
            out: OutcomeView {
                stored_lines: self.out.stored_lines + 1,
                stored_bytes: self.out.stored_bytes + bytes,
                ..self.out
            },
            ..self
        }
    }

    /// A marker stored in place of what `line` says.
    pub open spec fn with_marker(
        self,
        line: LineView,
        text: Seq<char>,
        counts: InvocationCounts,
    ) -> LogState {
        let marked = LogState {
            out: OutcomeView { markers: self.out.markers + 1, ..self.out },
            ..self
        };
        marked.with_line(
            LineView {
                stream: LogStream::Platform,
                text,
                truncated: false,
                marker: true,
                ..line
            },
            InvocationCounts { markers: counts.markers + 1, ..counts },
        )
    }

    /// The counts of an invocation replaced.
    pub open spec fn with_counts(self, key: Seq<Seq<char>>, counts: InvocationCounts) -> LogState {
        LogState { invocations: self.invocations.insert(key, counts), ..self }
    }
}

/// The lines of one invocation of one tenant, in order.
pub open spec fn select(
    lines: Seq<LineView>,
    tenant: Seq<char>,
    invocation: Seq<char>,
) -> Seq<LineView> {
    lines.filter(|l: LineView| l.tenant == tenant && l.invocation == invocation)
}

/// One more line shows in the selection of its own invocation only.
pub proof fn lemma_select_push(
    lines: Seq<LineView>,
    line: LineView,
    tenant: Seq<char>,
    invocation: Seq<char>,
)
    ensures
        select(lines.push(line), tenant, invocation) == if line.tenant == tenant && line.invocation
            == invocation {
            select(lines, tenant, invocation).push(line)
        } else {
            select(lines, tenant, invocation)
        },
{
    reveal(Seq::filter);
    assert(lines.push(line).drop_last() =~= lines);
}

/// What a marker says about lost lines.
pub open spec fn loss_words(reason: Seq<char>, lines: nat, bytes: nat) -> Seq<char> {
    let why = if reason == "queue_full"@ {
        "the log writer queue was full"@
    } else {
        "the log store was unavailable"@
    };
    MARKER_PREFIX@ + text::dec(lines) + " log line(s) ("@ + text::dec(bytes)
        + " bytes) of this invocation were dropped: "@ + why
}

/// What a marker says about the cap of an invocation.
pub open spec fn invocation_words(settings: Settings) -> Seq<char> {
    MARKER_PREFIX@ + "log limit of this invocation reached ("@ + text::dec_int(
        settings.invocation_lines as int,
    ) + " lines / "@ + text::dec_int(settings.invocation_bytes as int)
        + " bytes): further lines are dropped"@
}

/// What a marker says about the cap of an attempt.
pub open spec fn attempt_words(settings: Settings) -> Seq<char> {
    MARKER_PREFIX@ + "log limit of this attempt reached ("@ + text::dec_int(
        settings.attempt_lines as int,
    ) + " lines / "@ + text::dec_int(settings.attempt_bytes as int)
        + " bytes): further lines of this attempt are dropped"@
}

/// The empty text where the attempt is not known.
pub open spec fn attempt_text(attempt: Option<Seq<char>>) -> Seq<char> {
    match attempt {
        Some(a) => a,
        None => Seq::empty(),
    }
}

/// One remembered loss written: counted on its invocation, with a marker
/// while the invocation may carry one more.
pub open spec fn loss_step(s: LogState, now_ns: int, key: Seq<Seq<char>>, loss: LossView) -> LogState {
    let ikey = table::k2(key[0], key[1]);
    let counts = s.invocation(ikey).with_dropped(loss.lines as int, loss.bytes as int);
    if counts.markers < MAX_MARKERS_PER_INVOCATION {
        s.with_marker(
            LineView {
                seq: 0,
                tenant: key[0],
                invocation: key[1],
                attempt: attempt_text(loss.attempt_id),
                environment: loss.environment_id,
                stream: LogStream::Platform,
                phase: loss.phase,
                ts_ns: now_ns,
                text: Seq::empty(),
                truncated: false,
                marker: true,
            },
            loss_words(key[2], loss.lines, loss.bytes),
            counts,
        )
    } else {
        s.with_counts(ikey, counts)
    }
}

/// Whether one more line of `bytes` bytes goes over a cap.
pub open spec fn over(lines: int, bytes: int, more: int, max_lines: int, max_bytes: int) -> bool {
    lines + 1 > max_lines || bytes + more > max_bytes
}

/// One queued line written: stored within the caps, else dropped and counted,
/// with a marker for the first line over a cap.
pub open spec fn record_step(s: LogState, settings: Settings, rec: LogRecordView) -> LogState {
    match rec.invocation_id {
        None => s,
        Some(invocation) => {
            let ikey = table::k2(rec.tenant_id, invocation);
            let attempt = attempt_text(rec.attempt_id);
            let akey = table::k3(rec.tenant_id, invocation, attempt);
            let bytes = vstd::utf8::encode_utf8(rec.line).len() as int;
            let line = LineView {
                seq: 0,
                tenant: rec.tenant_id,
                invocation,
                attempt,
                environment: rec.environment_id,
                stream: rec.stream,
                phase: rec.phase,
                ts_ns: time::spec_ns(rec.timestamp) as int,
                text: rec.line,
                truncated: rec.truncated,
                marker: false,
            };
            let inv = s.invocation(ikey);
            let att = s.attempt(akey);
            if over(
                inv.lines,
                inv.bytes,
                bytes,
                settings.invocation_lines as int,
                settings.invocation_bytes as int,
            ) {
                let dropped = inv.with_dropped(1, bytes);
                let t = LogState {
                    out: OutcomeView { invocation_limit: s.out.invocation_limit + 1, ..s.out },
                    ..s
                };
                if !inv.limit_marked && inv.markers < MAX_MARKERS_PER_INVOCATION {
                    t.with_marker(
                        line,
                        invocation_words(settings),
                        InvocationCounts { limit_marked: true, ..dropped },
                    )
                } else {
                    t.with_counts(ikey, dropped)
                }
            } else if over(
                att.lines,
                att.bytes,
                bytes,
                settings.attempt_lines as int,
                settings.attempt_bytes as int,
            ) {
                let dropped = inv.with_dropped(1, bytes);
                let mark = !att.limit_marked && inv.markers < MAX_MARKERS_PER_INVOCATION;
                let t = LogState {
                    attempts: s.attempts.insert(
                        akey,
                        AttemptCounts {
                            dropped_lines: att.dropped_lines + 1,
                            limit_marked: att.limit_marked || mark,
                            ..att
                        },
                    ),
                    out: OutcomeView { attempt_limit: s.out.attempt_limit + 1, ..s.out },
                    ..s
                };
                if mark {
                    t.with_marker(line, attempt_words(settings), dropped)
                } else {
                    t.with_counts(ikey, dropped)
                }
            } else {
                let t = LogState {
                    attempts: s.attempts.insert(
                        akey,
                        AttemptCounts { lines: att.lines + 1, bytes: att.bytes + bytes, ..att },
                    ),
                    out: OutcomeView {
                        written_lines: s.out.written_lines + 1,
                        written_bytes: s.out.written_bytes + bytes,
                        truncated_lines: s.out.truncated_lines + (if rec.truncated {
                            1int
                        } else {
                            0int
                        }),
                        ..s.out
                    },
                    ..s
                };
                t.with_line(
                    line,
                    InvocationCounts { lines: inv.lines + 1, bytes: inv.bytes + bytes, ..inv },
                )
            }
        },
    }
}

/// The first `n` remembered losses written.
pub open spec fn after_losses(s: LogState, now_ns: int, losses: Table<Loss>, n: nat) -> LogState
    decreases n,
{
    if n == 0 {
        s
    } else {
        loss_step(
            after_losses(s, now_ns, losses, (n - 1) as nat),
            now_ns,
            losses.order()[n - 1],
            losses.values@[n - 1]@,
        )
    }
}

/// The first `n` queued lines written.
pub open spec fn after_records(s: LogState, settings: Settings, batch: Seq<Pending>, n: nat) -> LogState
    decreases n,
{
    if n == 0 {
        s
    } else {
        record_step(
            after_records(s, settings, batch, (n - 1) as nat),
            settings,
            batch[n - 1].record@,
        )
    }
}

/// A whole batch written: the losses, then the lines, each in order.
pub open spec fn after_batch(
    s: LogState,
    settings: Settings,
    now_ns: int,
    batch: Seq<Pending>,
    losses: Table<Loss>,
) -> LogState {
    after_records(
        after_losses(s, now_ns, losses, losses.values@.len()),
        settings,
        batch,
        batch.len(),
    )
}

/// What a marker says about lost lines.
pub fn loss_text(reason: &str, lines: u64, bytes: u64) -> (r: String)
    ensures
        r@ == loss_words(reason@, lines as nat, bytes as nat),
{
    let why = if text::same_text(reason, "queue_full") {
        "the log writer queue was full"
    } else {
        "the log store was unavailable"
    };
    let mut out = text::owned(MARKER_PREFIX);
    text::push_u64(&mut out, lines);
    out.append(" log line(s) (");
    text::push_u64(&mut out, bytes);
    out.append(" bytes) of this invocation were dropped: ");
    out.append(why);
    out
}

fn invocation_text(settings: &Settings) -> (r: String)
    ensures
        r@ == invocation_words(*settings),
{
    let mut out = text::owned(MARKER_PREFIX);
    out.append("log limit of this invocation reached (");
    text::push_i64(&mut out, settings.invocation_lines);
    out.append(" lines / ");
    text::push_i64(&mut out, settings.invocation_bytes);
    out.append(" bytes): further lines are dropped");
    out
}

fn attempt_limit_text(settings: &Settings) -> (r: String)
    ensures
        r@ == attempt_words(*settings),
{
    let mut out = text::owned(MARKER_PREFIX);
    out.append("log limit of this attempt reached (");
    text::push_i64(&mut out, settings.attempt_lines);
    out.append(" lines / ");
    text::push_i64(&mut out, settings.attempt_bytes);
    out.append(" bytes): further lines of this attempt are dropped");
    out
}

fn attempt_of(attempt: &Option<String>) -> (r: String)
    ensures
        r@ == attempt_text(text::opt_view(*attempt)),
{
    match attempt {
        Some(a) => a.clone(),
        None => String::new(),
    }
}

/// Record a stored row (a line or a marker) on its invocation row.
pub fn account_stored(inv: &mut InvocationRow, seq: i64, ts_ns: i64, bytes: i64)
    requires
        old(inv).stored_lines < i64::MAX,
        i64::MIN <= old(inv).stored_bytes + bytes <= i64::MAX,
    ensures
        final(inv)@ == old(inv)@.with_stored(seq as int, ts_ns as int, bytes as int),
{
    if inv.first_seq == 0 {
        inv.first_seq = seq;
    }
    if inv.last_ts_ns < ts_ns {
        inv.last_ts_ns = ts_ns;
    }
    inv.stored_lines = inv.stored_lines + 1;
    inv.stored_bytes = inv.stored_bytes + bytes;
}

impl InvocationRow {
    fn zero() -> (r: InvocationRow)
        ensures
            r@ == InvocationCounts::zero(),
    {
        InvocationRow {
            first_seq: 0,
            last_ts_ns: 0,
            lines: 0,
            bytes: 0,
            stored_lines: 0,
            stored_bytes: 0,
            dropped_lines: 0,
            dropped_bytes: 0,
            markers: 0,
            limit_marked: false,
        }
    }
}

impl LogRows {
    /// An empty database.
    pub fn new() -> (r: Self)
        ensures
            r.wf(),
            r@ == (LogState {
                last_seq: 0,
                lines: Seq::empty(),
                invocations: Map::empty(),
                attempts: Map::empty(),
                stored_lines: 0,
                stored_bytes: 0,
                out: no_outcome(),
            }),
    {
        let r = LogRows {
            last_seq: 0,
            lines: Vec::new(),
            invocations: Table::new(),
            attempts: Table::new(),
            stored_lines: 0,
            stored_bytes: 0,
        };
        assert(r@.lines =~= Seq::empty());
        assert(r@.invocations =~= Map::empty());
        assert(r@.attempts =~= Map::empty());
        r
    }

    fn invocation_row(&self, key: &Key) -> (r: InvocationRow)
        requires
            self.wf(),
        ensures
            r@ == self@.invocation(key@),
    {
        match self.invocations.get(key) {
            Some(row) => *row,
            None => InvocationRow::zero(),
        }
    }

    fn attempt_row(&self, key: &Key) -> (r: AttemptRow)
        requires
            self.wf(),
        ensures
            r@ == self@.attempt(key@),
    {
        match self.attempts.get(key) {
            Some(row) => *row,
            None => AttemptRow { lines: 0, bytes: 0, dropped_lines: 0, limit_marked: false },
        }
    }

    fn set_counts(&mut self, key: Key, row: InvocationRow, Ghost(out): Ghost<OutcomeView>)
        requires
            old(self).wf(),
            key@.len() == 2,
        ensures
            final(self).wf(),
            final(self).state(out) == old(self).state(out).with_counts(key@, row@),
    {
        let ghost before = self.state(out);
        let ghost k = key@;
        self.invocations.set(key, row);
        assert(self.state(out).invocations =~= before.with_counts(k, row@).invocations);
    }

    fn set_attempt(&mut self, key: Key, row: AttemptRow)
        requires
            old(self).wf(),
        ensures
            final(self).wf(),
            final(self)@ == (LogState {
                attempts: old(self)@.attempts.insert(key@, row@),
                ..old(self)@
            }),
    {
        let ghost before = self@;
        let ghost k = key@;
        self.attempts.set(key, row);
        assert(self@.attempts =~= before.attempts.insert(k, row@));
    }

    fn store_line(&mut self, out: &mut BatchOutcome, line: LineRow, row: InvocationRow)
        requires
            old(self).wf(),
            old(self).state(old(out)@).with_line(line@, row@).fits(),
            old(out)@.fits(),
            is_count(old(self).last_seq as int),
            is_count(old(self).stored_lines as int),
            is_count(old(self).stored_bytes as int),
            row@.fits(),
        ensures
            final(self).wf(),
            final(self).state(final(out)@) == old(self).state(old(out)@).with_line(line@, row@),
    {
        let ghost before = self.state(out@);
        let ghost after = before.with_line(line@, row@);
        let key = Key::two(line.tenant.as_str(), line.invocation.as_str());
        let ghost k = key@;
        assert(after.invocations.contains_key(k));
        let bytes: i64 = text::byte_len(line.text.as_str()) as i64;
        let mut line = line;
        let ghost given = line@;
        self.last_seq = self.last_seq + 1;
        line.seq = self.last_seq;
        let mut row = row;
        account_stored(&mut row, line.seq, line.ts_ns, bytes);
        self.invocations.set(key, row);
        let ghost lines = self.lines@;
        let ghost stored = line@;
        self.lines.push(line);
        self.stored_lines = self.stored_lines + 1;
        self.stored_bytes = self.stored_bytes + bytes;
        out.stored_lines = out.stored_lines + 1;
        out.stored_bytes = out.stored_bytes + bytes;
        proof {
            assert(lines_view(self.lines@) =~= lines_view(lines).push(stored));
            assert(self.state(out@).invocations =~= after.invocations);
            assert(self.state(out@) == after);
        }
    }
}

/// Every count of `t` is at least that of `s`.
pub open spec fn grows(s: LogState, t: LogState) -> bool {
    &&& s.last_seq <= t.last_seq
    &&& s.stored_lines <= t.stored_lines
    &&& s.stored_bytes <= t.stored_bytes
    &&& s.out.written_lines <= t.out.written_lines
    &&& s.out.written_bytes <= t.out.written_bytes
    &&& s.out.truncated_lines <= t.out.truncated_lines
    &&& s.out.markers <= t.out.markers
    &&& s.out.invocation_limit <= t.out.invocation_limit
    &&& s.out.attempt_limit <= t.out.attempt_limit
    &&& s.out.stored_lines <= t.out.stored_lines
    &&& s.out.stored_bytes <= t.out.stored_bytes
    &&& forall|k: Seq<Seq<char>>| #[trigger]
        s.invocations.contains_key(k) ==> t.invocations.contains_key(k) && invocation_grows(
            s.invocations[k],
            t.invocations[k],
        )
    &&& forall|k: Seq<Seq<char>>| #[trigger]
        s.attempts.contains_key(k) ==> t.attempts.contains_key(k) && s.attempts[k].lines
            <= t.attempts[k].lines && s.attempts[k].bytes <= t.attempts[k].bytes
            && s.attempts[k].dropped_lines <= t.attempts[k].dropped_lines
}

pub open spec fn invocation_grows(a: InvocationCounts, b: InvocationCounts) -> bool {
    &&& a.first_seq <= b.first_seq
    &&& a.lines <= b.lines
    &&& a.bytes <= b.bytes
    &&& a.stored_lines <= b.stored_lines
    &&& a.stored_bytes <= b.stored_bytes
    &&& a.dropped_lines <= b.dropped_lines
    &&& a.dropped_bytes <= b.dropped_bytes
    &&& a.markers <= b.markers
}

/// Every count of `s` is at least zero.
pub open spec fn counts_up(s: LogState) -> bool {
    &&& 0 <= s.last_seq
    &&& 0 <= s.stored_lines
    &&& 0 <= s.stored_bytes
    &&& 0 <= s.out.written_lines
    &&& 0 <= s.out.written_bytes
    &&& 0 <= s.out.truncated_lines
    &&& 0 <= s.out.markers
    &&& 0 <= s.out.invocation_limit
    &&& 0 <= s.out.attempt_limit
    &&& 0 <= s.out.stored_lines
    &&& 0 <= s.out.stored_bytes
    &&& forall|k: Seq<Seq<char>>| #[trigger]
        s.invocations.contains_key(k) ==> invocation_grows(
            InvocationCounts::zero(),
            s.invocations[k],
        )
    &&& forall|k: Seq<Seq<char>>| #[trigger]
        s.attempts.contains_key(k) ==> 0 <= s.attempts[k].lines && 0 <= s.attempts[k].bytes && 0
            <= s.attempts[k].dropped_lines
}

proof fn lemma_fits_back(s: LogState, t: LogState)
    requires
        counts_up(s),
        grows(s, t),
        t.fits(),
    ensures
        s.fits(),
{
    assert forall|k: Seq<Seq<char>>| #[trigger] s.invocations.contains_key(k) implies s.invocations[k].fits() by {
        assert(t.invocations.contains_key(k));
    }
    assert forall|k: Seq<Seq<char>>| #[trigger] s.attempts.contains_key(k) implies s.attempts[k].fits() by {
        assert(t.attempts.contains_key(k));
    }
}

proof fn lemma_grows_trans(s: LogState, t: LogState, u: LogState)
    requires
        grows(s, t),
        grows(t, u),
    ensures
        grows(s, u),
{
    assert forall|k: Seq<Seq<char>>| #[trigger] s.invocations.contains_key(k) implies u.invocations.contains_key(k)
        && invocation_grows(s.invocations[k], u.invocations[k]) by {
        assert(t.invocations.contains_key(k));
    }
    assert forall|k: Seq<Seq<char>>| #[trigger] s.attempts.contains_key(k) implies u.attempts.contains_key(k)
        && s.attempts[k].lines <= u.attempts[k].lines && s.attempts[k].bytes <= u.attempts[k].bytes
        && s.attempts[k].dropped_lines <= u.attempts[k].dropped_lines by {
        assert(t.attempts.contains_key(k));
    }
}

proof fn lemma_loss_grows(s: LogState, now_ns: int, key: Seq<Seq<char>>, loss: LossView)
    requires
        counts_up(s),
    ensures
        grows(s, loss_step(s, now_ns, key, loss)),
        counts_up(loss_step(s, now_ns, key, loss)),
{
}

proof fn lemma_record_grows(s: LogState, settings: Settings, rec: LogRecordView)
    requires
        counts_up(s),
    ensures
        grows(s, record_step(s, settings, rec)),
        counts_up(record_step(s, settings, rec)),
{
}

proof fn lemma_losses_grow(s: LogState, now_ns: int, losses: Table<Loss>, n: nat, m: nat)
    requires
        counts_up(s),
        n <= m,
    ensures
        counts_up(after_losses(s, now_ns, losses, n)),
        counts_up(after_losses(s, now_ns, losses, m)),
        grows(after_losses(s, now_ns, losses, n), after_losses(s, now_ns, losses, m)),
    decreases m,
{
    if n < m {
        let before = after_losses(s, now_ns, losses, (m - 1) as nat);
        lemma_losses_grow(s, now_ns, losses, n, (m - 1) as nat);
        lemma_loss_grows(before, now_ns, losses.order()[m - 1], losses.values@[m - 1]@);
        lemma_grows_trans(
            after_losses(s, now_ns, losses, n),
            before,
            after_losses(s, now_ns, losses, m),
        );
    } else if m > 0 {
        let before = after_losses(s, now_ns, losses, (m - 1) as nat);
        lemma_losses_grow(s, now_ns, losses, (m - 1) as nat, (m - 1) as nat);
        lemma_loss_grows(before, now_ns, losses.order()[m - 1], losses.values@[m - 1]@);
    }
}

proof fn lemma_records_grow(s: LogState, settings: Settings, batch: Seq<Pending>, n: nat, m: nat)
    requires
        counts_up(s),
        n <= m,
    ensures
        counts_up(after_records(s, settings, batch, n)),
        counts_up(after_records(s, settings, batch, m)),
        grows(after_records(s, settings, batch, n), after_records(s, settings, batch, m)),
    decreases m,
{
    if n < m {
        let before = after_records(s, settings, batch, (m - 1) as nat);
        lemma_records_grow(s, settings, batch, n, (m - 1) as nat);
        lemma_record_grows(before, settings, batch[m - 1].record@);
        lemma_grows_trans(
            after_records(s, settings, batch, n),
            before,
            after_records(s, settings, batch, m),
        );
    } else if m > 0 {
        let before = after_records(s, settings, batch, (m - 1) as nat);
        lemma_records_grow(s, settings, batch, (m - 1) as nat, (m - 1) as nat);
        lemma_record_grows(before, settings, batch[m - 1].record@);
    }
}

impl LogRows {
    fn write_loss(&mut self, out: &mut BatchOutcome, now_ns: i64, key: &Key, loss: &Loss)
        requires
            old(self).wf(),
            key@.len() == 3,
            old(self).state(old(out)@).fits(),
            loss_step(old(self).state(old(out)@), now_ns as int, key@, loss@).fits(),
        ensures
            final(self).wf(),
            final(self).state(final(out)@) == loss_step(
                old(self).state(old(out)@),
                now_ns as int,
                key@,
                loss@,
            ),
    {
        let ghost before = self.state(out@);
        let ghost after = loss_step(before, now_ns as int, key@, loss@);
        assert(key.parts@.len() == 3);
        let tenant = key.parts[0].as_str();
        let invocation = key.parts[1].as_str();
        let reason = key.parts[2].as_str();
        assert(tenant@ == key@[0] && invocation@ == key@[1] && reason@ == key@[2]);
        let ikey = Key::two(tenant, invocation);
        let ghost ik = ikey@;
        let mut row = self.invocation_row(&ikey);
        assert(row@ == before.invocation(ik));
        assert(row@.fits());
        assert(after.invocations.contains_key(ik));
        row.dropped_lines = row.dropped_lines + loss.lines as i64;
        row.dropped_bytes = row.dropped_bytes + loss.bytes as i64;
        if row.markers < MAX_MARKERS_PER_INVOCATION {
            let words = loss_text(reason, loss.lines, loss.bytes);
            let line = LineRow {
                seq: 0,
                tenant: text::owned(tenant),
                invocation: text::owned(invocation),
                attempt: attempt_of(&loss.attempt_id),
                environment: loss.environment_id.clone(),
                stream: LogStream::Platform,
                phase: loss.phase,
                ts_ns: now_ns,
                text: words,
                truncated: false,
                marker: true,
            };
            row.markers = row.markers + 1;
            out.markers = out.markers + 1;
            self.store_line(out, line, row);
        } else {
            self.set_counts(ikey, row, Ghost(out@));
        }
    }

    fn write_record(&mut self, out: &mut BatchOutcome, settings: &Settings, rec: &LogRecord)
        requires
            old(self).wf(),
            old(self).state(old(out)@).fits(),
            record_step(old(self).state(old(out)@), *settings, rec@).fits(),
            settings.invocation_bytes >= 0,
            settings.attempt_bytes >= 0,
        ensures
            final(self).wf(),
            final(self).state(final(out)@) == record_step(
                old(self).state(old(out)@),
                *settings,
                rec@,
            ),
    {
        let ghost before = self.state(out@);
        let ghost after = record_step(before, *settings, rec@);
        let invocation = match &rec.invocation_id {
            None => {
                return ;
            },
            Some(invocation) => invocation,
        };
        let ikey = Key::two(rec.tenant_id.as_str(), invocation.as_str());
        let attempt = attempt_of(&rec.attempt_id);
        let akey = Key::three(rec.tenant_id.as_str(), invocation.as_str(), attempt.as_str());
        let ghost ik = ikey@;
        let ghost ak = akey@;
        let mut inv = self.invocation_row(&ikey);
        let mut att = self.attempt_row(&akey);
        assert(inv@ == before.invocation(ik) && inv@.fits());
        assert(att@ == before.attempt(ak) && att@.fits());
        assert(after.invocations.contains_key(ik));
        let bytes: i64 = text::byte_len(rec.line.as_str()) as i64;
        let line = LineRow {
            seq: 0,
            tenant: rec.tenant_id.clone(),
            invocation: invocation.clone(),
            attempt,
            environment: rec.environment_id.clone(),
            stream: rec.stream,
            phase: rec.phase,
            ts_ns: time::ns(&rec.timestamp),
            text: rec.line.clone(),
            truncated: rec.truncated,
            marker: false,
        };
        if inv.lines >= settings.invocation_lines || inv.bytes > settings.invocation_bytes - bytes {
            inv.dropped_lines = inv.dropped_lines + 1;
            inv.dropped_bytes = inv.dropped_bytes + bytes;
            out.invocation_limit = out.invocation_limit + 1;
            if !inv.limit_marked && inv.markers < MAX_MARKERS_PER_INVOCATION {
                let words = invocation_text(settings);
                inv.limit_marked = true;
                inv.markers = inv.markers + 1;
                out.markers = out.markers + 1;
                self.store_line(
                    out,
                    LineRow {
                        stream: LogStream::Platform,
                        text: words,
                        truncated: false,
                        marker: true,
                        ..line
                    },
                    inv,
                );
            } else {
                self.set_counts(ikey, inv, Ghost(out@));
            }
            return ;
        }
        assert(after.attempts.contains_key(ak));
        if att.lines >= settings.attempt_lines || att.bytes > settings.attempt_bytes - bytes {
            att.dropped_lines = att.dropped_lines + 1;
            inv.dropped_lines = inv.dropped_lines + 1;
            inv.dropped_bytes = inv.dropped_bytes + bytes;
            out.attempt_limit = out.attempt_limit + 1;
            if !att.limit_marked && inv.markers < MAX_MARKERS_PER_INVOCATION {
                let words = attempt_limit_text(settings);
                att.limit_marked = true;
                self.set_attempt(akey, att);
                inv.markers = inv.markers + 1;
                out.markers = out.markers + 1;
                self.store_line(
                    out,
                    LineRow {
                        stream: LogStream::Platform,
                        text: words,
                        truncated: false,
                        marker: true,
                        ..line
                    },
                    inv,
                );
            } else {
                self.set_attempt(akey, att);
                self.set_counts(ikey, inv, Ghost(out@));
            }
            return ;
        }
        att.lines = att.lines + 1;
        att.bytes = att.bytes + bytes;
        self.set_attempt(akey, att);
        inv.lines = inv.lines + 1;
        inv.bytes = inv.bytes + bytes;
        out.written_lines = out.written_lines + 1;
        out.written_bytes = out.written_bytes + bytes as u64;
        if rec.truncated {
            out.truncated_lines = out.truncated_lines + 1;
        }
        self.store_line(out, line, inv);
    }

    /// Write a batch: the remembered losses first, then the queued lines. A
    /// line within the caps of its invocation and its attempt is stored; one
    /// over a cap is dropped and counted, and the first one over a cap leaves
    /// a marker. The rows must have room for what is counted.
    pub fn write_batch(
        &mut self,
        settings: &Settings,
        now: &Timestamp,
        batch: &Vec<Pending>,
        losses: &Table<Loss>,
    ) -> (r: BatchOutcome)
        requires
            old(self).wf(),
            losses.wf(),
            queue::loss_keys(*losses),
            counts_up(old(self)@),
            settings.invocation_bytes >= 0,
            settings.attempt_bytes >= 0,
            after_batch(
                old(self)@,
                *settings,
                time::spec_ns(*now) as int,
                batch@,
                *losses,
            ).fits(),
        ensures
            final(self).wf(),
            final(self).state(r@) == after_batch(
                old(self)@,
                *settings,
                time::spec_ns(*now) as int,
                batch@,
                *losses,
            ),
    {
        let now_ns: i64 = time::ns(now);
        let ghost start = self@;
        let ghost middle = after_losses(start, now_ns as int, *losses, losses.values@.len());
        let ghost end = after_records(middle, *settings, batch@, batch@.len());
        let mut out = BatchOutcome {
            written_lines: 0,
            written_bytes: 0,
            truncated_lines: 0,
            markers: 0,
            invocation_limit: 0,
            attempt_limit: 0,
            stored_lines: 0,
            stored_bytes: 0,
        };
        proof {
            lemma_losses_grow(start, now_ns as int, *losses, 0, losses.values@.len());
            lemma_records_grow(middle, *settings, batch@, 0, batch@.len());
            lemma_fits_back(middle, end);
        }
        let mut i: usize = 0;
        while i < losses.keys.len()
            invariant
                self.wf(),
                losses.wf(),
                queue::loss_keys(*losses),
                counts_up(start),
                i <= losses.keys@.len(),
                self.state(out@) == after_losses(start, now_ns as int, *losses, i as nat),
                middle == after_losses(start, now_ns as int, *losses, losses.values@.len()),
                middle.fits(),
            decreases losses.keys@.len() - i,
        {
            proof {
                lemma_losses_grow(start, now_ns as int, *losses, i as nat, losses.values@.len());
                lemma_losses_grow(
                    start,
                    now_ns as int,
                    *losses,
                    (i + 1) as nat,
                    losses.values@.len(),
                );
                lemma_fits_back(after_losses(start, now_ns as int, *losses, i as nat), middle);
                lemma_fits_back(
                    after_losses(start, now_ns as int, *losses, (i + 1) as nat),
                    middle,
                );
                table::lemma_row_at(losses.order(), losses.values@, i as int);
                assert(losses@.contains_key(losses.order()[i as int]));
            }
            self.write_loss(&mut out, now_ns, &losses.keys[i], &losses.values[i]);
            i += 1;
        }
        let mut j: usize = 0;
        while j < batch.len()
            invariant
                self.wf(),
                counts_up(middle),
                j <= batch@.len(),
                settings.invocation_bytes >= 0,
                settings.attempt_bytes >= 0,
                self.state(out@) == after_records(middle, *settings, batch@, j as nat),
                end == after_records(middle, *settings, batch@, batch@.len()),
                end.fits(),
            decreases batch@.len() - j,
        {
            proof {
                lemma_records_grow(middle, *settings, batch@, j as nat, batch@.len());
                lemma_records_grow(middle, *settings, batch@, (j + 1) as nat, batch@.len());
                lemma_fits_back(after_records(middle, *settings, batch@, j as nat), end);
                lemma_fits_back(after_records(middle, *settings, batch@, (j + 1) as nat), end);
            }
            self.write_record(&mut out, settings, &batch[j].record);
            j += 1;
        }
        out
    }
}

} // verus!
