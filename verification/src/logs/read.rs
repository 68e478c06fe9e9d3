//! Reading stored lines back.

use vstd::prelude::*;

use crate::domain::log::{LogPhase, LogRecord, LogRecordView, LogStream};
use crate::logs::rows;
use crate::logs::rows::{LineView, LogRows, LogState};
use crate::logs::store::{Settings, MAX_MARKERS_PER_INVOCATION};
use crate::repository::{LogQuery, RepoError, RepoErrorView};
use crate::table;
use crate::table::Key;
use crate::text;
use crate::time;
use crate::time::Timestamp;

verus! {

/// Name of a stream in the database.
pub open spec fn stream_name(s: LogStream) -> Seq<char> {
    match s {
        LogStream::Stdout => "stdout"@,
        LogStream::Stderr => "stderr"@,
        LogStream::Platform => "platform"@,
    }
}

/// Name of a phase in the database.
pub open spec fn phase_name(p: LogPhase) -> Seq<char> {
    match p {
        LogPhase::Boot => "boot"@,
        LogPhase::Init => "init"@,
        LogPhase::Handler => "handler"@,
        LogPhase::Shutdown => "shutdown"@,
    }
}

/// Name of a stream in the database.
pub fn stream_str(s: LogStream) -> (r: &'static str)
    ensures
        r@ == stream_name(s),
{
    match s {
        LogStream::Stdout => "stdout",
        LogStream::Stderr => "stderr",
        LogStream::Platform => "platform",
    }
}

/// Name of a phase in the database.
pub fn phase_str(p: LogPhase) -> (r: &'static str)
    ensures
        r@ == phase_name(p),
{
    match p {
        LogPhase::Boot => "boot",
        LogPhase::Init => "init",
        LogPhase::Handler => "handler",
        LogPhase::Shutdown => "shutdown",
    }
}

/// Every stream has a name of its own.
pub proof fn law_stream_names_differ(a: LogStream, b: LogStream)
    ensures
        stream_name(a) == stream_name(b) ==> a == b,
{
    reveal_strlit("stdout");
    reveal_strlit("stderr");
    reveal_strlit("platform");
    assert("stdout"@[3] != "stderr"@[3]);
    assert("stdout"@.len() != "platform"@.len());
    assert("stderr"@.len() != "platform"@.len());
}

/// Every phase has a name of its own.
pub proof fn law_phase_names_differ(a: LogPhase, b: LogPhase)
    ensures
        phase_name(a) == phase_name(b) ==> a == b,
{
    reveal_strlit("boot");
    reveal_strlit("init");
    reveal_strlit("handler");
    reveal_strlit("shutdown");
    assert("boot"@[0] != "init"@[0]);
    assert("boot"@.len() == 4 && "init"@.len() == 4 && "handler"@.len() == 7 && "shutdown"@.len()
        == 8);
}

/// The stream a name stands for.
pub open spec fn stream_of(name: Seq<char>) -> Option<LogStream> {
    if name == "stdout"@ {
        Some(LogStream::Stdout)
    } else if name == "stderr"@ {
        Some(LogStream::Stderr)
    } else if name == "platform"@ {
        Some(LogStream::Platform)
    } else {
        None
    }
}

/// The phase a name stands for.
pub open spec fn phase_of(name: Seq<char>) -> Option<LogPhase> {
    if name == "boot"@ {
        Some(LogPhase::Boot)
    } else if name == "init"@ {
        Some(LogPhase::Init)
    } else if name == "handler"@ {
        Some(LogPhase::Handler)
    } else if name == "shutdown"@ {
        Some(LogPhase::Shutdown)
    } else {
        None
    }
}

/// The stream a name stands for.
pub fn parse_stream(name: &str) -> (r: Option<LogStream>)
    ensures
        r == stream_of(name@),
{
    if text::same_text(name, "stdout") {
        Some(LogStream::Stdout)
    } else if text::same_text(name, "stderr") {
        Some(LogStream::Stderr)
    } else if text::same_text(name, "platform") {
        Some(LogStream::Platform)
    } else {
        None
    }
}

/// The phase a name stands for.
pub fn parse_phase(name: &str) -> (r: Option<LogPhase>)
    ensures
        r == phase_of(name@),
{
    if text::same_text(name, "boot") {
        Some(LogPhase::Boot)
    } else if text::same_text(name, "init") {
        Some(LogPhase::Init)
    } else if text::same_text(name, "handler") {
        Some(LogPhase::Handler)
    } else if text::same_text(name, "shutdown") {
        Some(LogPhase::Shutdown)
    } else {
        None
    }
}

/// Names read back as what they were written for.
pub proof fn law_names_read_back(s: LogStream, p: LogPhase)
    ensures
        stream_of(stream_name(s)) == Some(s),
        phase_of(phase_name(p)) == Some(p),
{
    law_stream_names_differ(s, LogStream::Stdout);
    law_stream_names_differ(s, LogStream::Stderr);
    law_stream_names_differ(s, LogStream::Platform);
    law_phase_names_differ(p, LogPhase::Boot);
    law_phase_names_differ(p, LogPhase::Init);
    law_phase_names_differ(p, LogPhase::Handler);
    law_phase_names_differ(p, LogPhase::Shutdown);
}

/// A line as the database returns it. Whether a text is a well-formed id is
/// decided by the id's own parser.
#[derive(Debug, PartialEq, Eq)]
pub struct RawLine {
    pub attempt: String,
    pub attempt_is_id: bool,
    pub environment: String,
    pub environment_is_id: bool,
    pub stream: String,
    pub phase: String,
    pub ts_ns: i64,
    pub line: String,
    pub truncated: bool,
}

/// A value the database should not hold.
pub open spec fn bad(what: Seq<char>, value: Seq<char>) -> RepoErrorView {
    RepoErrorView::Serialization("logs.db "@ + what + ": "@ + value)
}

/// The record a line of `tenant`'s `invocation` stands for.
pub open spec fn decoded(
    tenant: Seq<char>,
    invocation: Seq<char>,
    raw: RawLine,
) -> Result<LogRecordView, RepoErrorView> {
    if !raw.environment_is_id {
        Err(bad("environment"@, raw.environment@))
    } else if raw.attempt@.len() > 0 && !raw.attempt_is_id {
        Err(bad("attempt"@, raw.attempt@))
    } else if stream_of(raw.stream@) is None {
        Err(bad("stream"@, raw.stream@))
    } else if phase_of(raw.phase@) is None {
        Err(bad("phase"@, raw.phase@))
    } else {
        Ok(
            LogRecordView {
                tenant_id: tenant,
                environment_id: raw.environment@,
                invocation_id: Some(invocation),
                attempt_id: if raw.attempt@.len() == 0 {
                    None
                } else {
                    Some(raw.attempt@)
                },
                stream: stream_of(raw.stream@)->0,
                phase: phase_of(raw.phase@)->0,
                timestamp: time::of_count(raw.ts_ns as int) as Timestamp,
                line: raw.line@,
                truncated: raw.truncated,
            },
        )
    }
}

fn bad_value(what: &str, value: &str) -> (r: RepoError)
    ensures
        r@ == bad(what@, value@),
{
    let mut m = text::owned("logs.db ");
    m.append(what);
    m.append(": ");
    m.append(value);
    RepoError::Serialization(m)
}

/// The record a line of `tenant`'s `invocation` stands for, or the first
/// column that holds no known value.
pub fn decode_line(tenant: &str, invocation: &str, raw: &RawLine) -> (r: Result<
    LogRecord,
    RepoError,
>)
    ensures
        match r {
            Ok(rec) => decoded(tenant@, invocation@, *raw) == Ok::<LogRecordView, RepoErrorView>(
                rec@,
            ),
            Err(e) => decoded(tenant@, invocation@, *raw) == Err::<LogRecordView, RepoErrorView>(
                e@,
            ),
        },
{
    if !raw.environment_is_id {
        return Err(bad_value("environment", raw.environment.as_str()));
    }
    let no_attempt = raw.attempt.as_str().is_empty();
    if !no_attempt && !raw.attempt_is_id {
        return Err(bad_value("attempt", raw.attempt.as_str()));
    }
    let stream = match parse_stream(raw.stream.as_str()) {
        Some(s) => s,
        None => {
            return Err(bad_value("stream", raw.stream.as_str()));
        },
    };
    let phase = match parse_phase(raw.phase.as_str()) {
        Some(p) => p,
        None => {
            return Err(bad_value("phase", raw.phase.as_str()));
        },
    };
    let attempt_id: Option<String> = if no_attempt {
        None
    } else {
        Some(raw.attempt.clone())
    };
    Ok(
        LogRecord {
            tenant_id: text::owned(tenant),
            environment_id: raw.environment.clone(),
            invocation_id: Some(text::owned(invocation)),
            attempt_id,
            stream,
            phase,
            timestamp: time::of_nanos(raw.ts_ns),
            line: raw.line.clone(),
            truncated: raw.truncated,
        },
    )
}

/// The records of lines, in order.
pub open spec fn records_view(records: Seq<LogRecord>) -> Seq<LogRecordView> {
    records.map_values(|r: LogRecord| r@)
}

/// What a reader gets of an invocation: its lines, unless one of them cannot
/// be read, and whether any line was dropped.
pub fn decode_lines(
    tenant: &str,
    invocation: &str,
    lines: &Vec<RawLine>,
    dropped_lines: i64,
    pending_loss: bool,
) -> (r: Result<LogQuery, RepoError>)
    ensures
        match r {
            Ok(q) => {
                &&& q.records@.len() == lines@.len()
                &&& forall|i: int|
                    0 <= i < lines@.len() ==> #[trigger] decoded(tenant@, invocation@, lines@[i])
                        == Ok::<LogRecordView, RepoErrorView>(q.records@[i]@)
                &&& q.dropped == (dropped_lines > 0 || pending_loss)
            },
            Err(e) => exists|i: int|
                #![trigger lines@[i]]
                {
                    &&& 0 <= i < lines@.len()
                    &&& decoded(tenant@, invocation@, lines@[i]) == Err::<
                        LogRecordView,
                        RepoErrorView,
                    >(e@)
                    &&& forall|j: int|
                        0 <= j < i ==> (#[trigger] decoded(tenant@, invocation@, lines@[j])) is Ok
                },
        },
{
    let mut records: Vec<LogRecord> = Vec::new();
    let mut i: usize = 0;
    while i < lines.len()
        invariant
            i <= lines@.len(),
            records@.len() == i,
            forall|j: int|
                0 <= j < i ==> #[trigger] decoded(tenant@, invocation@, lines@[j]) == Ok::<
                    LogRecordView,
                    RepoErrorView,
                >(records@[j]@),
        decreases lines@.len() - i,
    {
        match decode_line(tenant, invocation, &lines[i]) {
            Ok(rec) => {
                records.push(rec);
            },
            Err(e) => {
                assert(decoded(tenant@, invocation@, lines@[i as int]) == Err::<
                    LogRecordView,
                    RepoErrorView,
                >(e@));
                return Err(e);
            },
        }
        i += 1;
    }
    Ok(LogQuery { records, dropped: dropped_lines > 0 || pending_loss })
}

/// The record a stored line stands for.
pub open spec fn read_back(line: LineView) -> LogRecordView {
    LogRecordView {
        tenant_id: line.tenant,
        environment_id: line.environment,
        invocation_id: Some(line.invocation),
        attempt_id: if line.attempt.len() == 0 {
            None
        } else {
            Some(line.attempt)
        },
        stream: line.stream,
        phase: line.phase,
        timestamp: time::of_count(line.ts_ns as int) as Timestamp,
        line: line.text,
        truncated: line.truncated,
    }
}

/// Lines a reader gets at most: those within the cap, and the markers.
pub open spec fn read_limit(settings: Settings) -> int {
    settings.invocation_lines + MAX_MARKERS_PER_INVOCATION
}

/// The first `limit` lines of an invocation.
pub open spec fn first_lines(s: LogState, tenant: Seq<char>, invocation: Seq<char>, limit: int) -> Seq<
    LineView,
> {
    let all = rows::select(s.lines, tenant, invocation);
    if all.len() <= limit {
        all
    } else {
        all.take(limit)
    }
}

/// What a reader of `tenant`'s invocation gets: the records, and whether lines
/// were dropped.
pub open spec fn answer(
    s: LogState,
    settings: Settings,
    tenant: Seq<char>,
    invocation: Seq<char>,
    pending_loss: bool,
) -> (Seq<LogRecordView>, bool) {
    (
        first_lines(s, tenant, invocation, read_limit(settings)).map_values(
            |l: LineView| read_back(l),
        ),
        pending_loss || s.invocation(table::k2(tenant, invocation)).dropped_lines > 0,
    )
}

impl LogRows {
    /// The lines of `tenant`'s invocation, and whether any were dropped. A
    /// reader of another tenant gets none of them.
    pub fn query(
        &self,
        settings: &Settings,
        tenant: &str,
        invocation: &str,
        pending_loss: bool,
    ) -> (r: LogQuery)
        requires
            self.wf(),
            0 <= settings.invocation_lines,
            read_limit(*settings) <= i64::MAX,
        ensures
            (records_view(r.records@), r.dropped) == answer(
                self@,
                *settings,
                tenant@,
                invocation@,
                pending_loss,
            ),
    {
        let limit: i64 = settings.invocation_lines + MAX_MARKERS_PER_INVOCATION;
        let mut records: Vec<LogRecord> = Vec::new();
        let ghost all = rows::select(self@.lines, tenant@, invocation@);
        let mut i: usize = 0;
        assert(self@.lines.take(0) =~= Seq::empty());
        proof {
            reveal(Seq::filter);
        }
        while i < self.lines.len() && (records.len() as u64) < (limit as u64)
            invariant
                i <= self.lines@.len(),
                limit == read_limit(*settings),
                0 <= limit,
                records@.len() <= limit,
                records_view(records@) == rows::select(
                    self@.lines.take(i as int),
                    tenant@,
                    invocation@,
                ).map_values(|l: LineView| read_back(l)),
            decreases self.lines@.len() - i,
        {
            let line = &self.lines[i];
            let ghost before = records@;
            let ghost taken = self@.lines.take(i as int);
            proof {
                assert(self@.lines.take(i + 1) =~= taken.push(self@.lines[i as int]));
                assert(self@.lines[i as int] == line@);
                rows::lemma_select_push(taken, line@, tenant@, invocation@);
            }
            if text::same_text(line.tenant.as_str(), tenant) && text::same_text(
                line.invocation.as_str(),
                invocation,
            ) {
                let attempt_id: Option<String> = if line.attempt.as_str().is_empty() {
                    None
                } else {
                    Some(line.attempt.clone())
                };
                let rec = LogRecord {
                    tenant_id: text::owned(tenant),
                    environment_id: line.environment.clone(),
                    invocation_id: Some(text::owned(invocation)),
                    attempt_id,
                    stream: line.stream,
                    phase: line.phase,
                    timestamp: time::of_nanos(line.ts_ns),
                    line: line.text.clone(),
                    truncated: line.truncated,
                };
                assert(rec@ == read_back(line@));
                records.push(rec);
                let ghost picked = rows::select(taken, tenant@, invocation@);
                assert(records_view(records@) =~= records_view(before).push(read_back(line@)));
                assert(picked.push(line@).map_values(|l: LineView| read_back(l))
                    =~= picked.map_values(|l: LineView| read_back(l)).push(read_back(line@)));
            }
            i += 1;
        }
        proof {
            let taken = self@.lines.take(i as int);
            let rest = self@.lines.skip(i as int);
            assert(self@.lines =~= taken + rest);
            Seq::filter_distributes_over_add(
                taken,
                rest,
                |l: LineView| l.tenant == tenant@ && l.invocation == invocation@,
            );
            let picked = rows::select(taken, tenant@, invocation@);
            assert(picked.len() == records_view(records@).len());
            assert(all == picked + rows::select(rest, tenant@, invocation@));
            if i == self.lines@.len() {
                assert(taken =~= self@.lines);
            }
            assert(first_lines(self@, tenant@, invocation@, limit as int) =~= picked);
        }
        let key = Key::two(tenant, invocation);
        let dropped_lines: i64 = match self.invocations.get(&key) {
            Some(row) => row.dropped_lines,
            None => 0,
        };
        LogQuery { records, dropped: pending_loss || dropped_lines > 0 }
    }
}

/// The database holds all there is to a record: its timestamp fits and is in
/// no leap second, and an attempt has an id.
pub open spec fn storable(rec: LogRecordView) -> bool {
    &&& rec.attempt_id != Some(Seq::<char>::empty())
    &&& i64::MIN <= time::count(rec.timestamp) <= i64::MAX
    &&& time::nanos_of(rec.timestamp) < time::SECOND
}

/// A line that is stored reads back as it was written, up to a timestamp that
/// the database cannot hold (a leap second is counted as the one after it) and
/// an attempt without an id.
pub proof fn law_a_stored_line_reads_back(s: LogState, settings: Settings, rec: LogRecordView)
    requires
        rec.invocation_id is Some,
        storable(rec),
        rows::record_step(s, settings, rec).out.written_lines == s.out.written_lines + 1,
    ensures
        ({
            let t = rows::record_step(s, settings, rec);
            let mine = rows::select(t.lines, rec.tenant_id, rec.invocation_id->0);
            mine.len() > 0 && read_back(mine.last()) == rec
        }),
{
    let t = rows::record_step(s, settings, rec);
    rows::lemma_select_push(s.lines, t.lines.last(), rec.tenant_id, rec.invocation_id->0);
    if rec.attempt_id is Some {
        assert(rec.attempt_id->0 =~= Seq::empty() || rec.attempt_id->0.len() > 0);
    }
}

} // verus!
