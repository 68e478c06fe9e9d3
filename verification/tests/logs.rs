use tachyon_application::domain::invocation::{
    Deadlines, Invocation, InvocationMode, InvocationStatus,
};
use tachyon_application::domain::log::{LogPhase, LogRecord, LogStream};
use tachyon_application::domain::Limits;
use tachyon_application::logs::flush::{
    flush_committed, flush_failed, not_open, note_retention, schema_refusal,
};
use tachyon_application::logs::queue::{committed_after, writer_wait, LogQueue};
use tachyon_application::logs::read::{
    decode_line, decode_lines, parse_phase, parse_stream, phase_str, stream_str, RawLine,
};
use tachyon_application::logs::retention::{deletable, plan_size, Candidate, LedgerAnswer};
use tachyon_application::logs::rows::LogRows;
use tachyon_application::logs::store::{
    drop_index, Counters, Health, LogStoreStatus, RetentionReport, Settings, MARKER_PREFIX,
    MAX_MARKERS_PER_INVOCATION,
};
use tachyon_application::logs::LogsConfig;
use tachyon_application::repository::memory::InMemoryStore;
use tachyon_application::repository::{AppendOutcome, LogQuery, RepoError};
use tachyon_application::table::{Key, Table};
use tachyon_application::time::{plus, STRIDE};

const NOW: i128 = 1_789_430_400 * STRIDE;
const DAY: i128 = 86_400_000_000_000;

fn limits() -> Limits {
    Limits {
        max_response_bytes: 6 * 1024 * 1024,
        max_log_line_bytes: 16 * 1024,
        max_log_lines_per_invocation: 10_000,
        max_log_bytes_per_invocation: 1024 * 1024,
    }
}

fn config() -> LogsConfig {
    LogsConfig { flush_interval_ms: 10, retention_interval_seconds: 3600, ..LogsConfig::default() }
}

/// The log store with its rows in memory.
struct Store {
    settings: Settings,
    queue: LogQueue,
    counters: Counters,
    health: Health,
    rows: LogRows,
    committed: u64,
}

impl Store {
    fn open(config: &LogsConfig, limits: &Limits) -> Self {
        Store::on(config, limits, LogRows::new())
    }

    fn on(config: &LogsConfig, limits: &Limits, rows: LogRows) -> Self {
        let mut counters = Counters::default();
        counters.load_totals(rows.stored_lines, rows.stored_bytes);
        Store {
            settings: Settings::new(config, limits),
            queue: LogQueue::new(),
            counters,
            health: Health {
                writer_open: true,
                last_flush_failed: false,
                last_error: None,
                last_flush_at: None,
                last_retention_at: None,
            },
            rows,
            committed: 0,
        }
    }

    fn append(&mut self, record: LogRecord) -> AppendOutcome {
        self.queue.append(&mut self.counters, &self.settings, record, 0).outcome
    }

    fn flush(&mut self) {
        let drained = self.queue.drain();
        let out = self.rows.write_batch(&self.settings, &NOW, &drained.items, &drained.losses);
        flush_committed(&mut self.counters, &mut self.health, &out, NOW, Some(0));
        self.committed = committed_after(self.committed, drained.last_seq);
    }

    fn fail(&mut self, error: &str) {
        let drained = self.queue.drain();
        flush_failed(
            &mut self.counters,
            &mut self.health,
            &mut self.queue,
            &drained,
            error.to_string(),
        );
        self.committed = committed_after(self.committed, drained.last_seq);
    }

    fn query(&mut self, tenant: &str, invocation: &str) -> LogQuery {
        if self.queue.request_flush(self.committed).is_some() {
            self.flush();
        }
        self.read(tenant, invocation)
    }

    fn read(&self, tenant: &str, invocation: &str) -> LogQuery {
        let loss = self.queue.has_loss(tenant, invocation);
        self.rows.query(&self.settings, tenant, invocation, loss)
    }

    fn lines(&mut self, tenant: &str, invocation: &str) -> Vec<String> {
        self.query(tenant, invocation).records.into_iter().map(|r| r.line).collect()
    }

    fn user_lines(&mut self, tenant: &str, invocation: &str) -> Vec<String> {
        self.lines(tenant, invocation).into_iter().filter(|l| !l.starts_with(MARKER_PREFIX)).collect()
    }

    fn status(&self) -> LogStoreStatus {
        LogStoreStatus::durable(
            "logs/logs.db",
            &self.settings,
            self.queue.items.len(),
            self.queue.bytes,
            &self.counters,
            &self.health,
        )
    }

    fn run_retention(&mut self, now: i128, ledger: &Table<LedgerAnswer>) -> RetentionReport {
        let report = self.rows.run_retention(&self.settings, now, ledger);
        let totals = Some((self.rows.stored_lines, self.rows.stored_bytes));
        note_retention(&mut self.counters, &mut self.health, &report, now, totals);
        report
    }
}

fn record(tenant: &str, invocation: &str, attempt: Option<&str>, line: &str) -> LogRecord {
    LogRecord {
        tenant_id: tenant.to_string(),
        environment_id: "env_01hzzzzzzzzzzzzzzzzzzzzzza".to_string(),
        invocation_id: Some(invocation.to_string()),
        attempt_id: attempt.map(str::to_string),
        stream: LogStream::Stdout,
        phase: LogPhase::Handler,
        timestamp: NOW,
        line: line.to_string(),
        truncated: false,
    }
}

#[test]
fn logs_survive_a_restart_on_the_same_data_dir() {
    let mut store = Store::open(&config(), &limits());
    for i in 0..5 {
        assert_eq!(
            store.append(record("t", "inv", Some("att"), &format!("line {i}"))),
            AppendOutcome::Stored
        );
    }
    store.flush();
    let mut store = Store::on(&config(), &limits(), store.rows);
    let q = store.query("t", "inv");
    assert_eq!(
        q.records.iter().map(|r| r.line.as_str()).collect::<Vec<_>>(),
        ["line 0", "line 1", "line 2", "line 3", "line 4"]
    );
    assert!(q.records.iter().all(|r| r.attempt_id.as_deref() == Some("att")
        && r.stream == LogStream::Stdout
        && r.phase == LogPhase::Handler));
    assert!(!q.dropped);
    assert_eq!(store.status().stored_lines, 5);
}

#[test]
fn lines_keep_their_order_across_many_flushes() {
    let mut store = Store::open(&LogsConfig { flush_max_lines: 7, ..config() }, &limits());
    let expected: Vec<String> = (0..500).map(|i| format!("{i:04}")).collect();
    for (i, l) in expected.iter().enumerate() {
        store.append(record("t", "inv", None, l));
        if i % 50 == 0 {
            store.flush();
        }
    }
    store.flush();
    assert!(store.status().flushes > 1, "more than one batch");
    assert_eq!(store.lines("t", "inv"), expected);
}

#[test]
fn a_long_line_is_cut_at_the_line_limit_and_marked_truncated() {
    let mut store = Store::open(&config(), &Limits { max_log_line_bytes: 8, ..limits() });
    store.append(record("t", "inv", None, "a very long line"));
    store.append(record("t", "inv", None, "short"));
    let q = store.query("t", "inv");
    assert_eq!(q.records[0].line, "a very l");
    assert!(q.records[0].truncated);
    assert_eq!(q.records[1].line, "short");
    assert!(!q.records[1].truncated);
    assert_eq!(store.status().lines_truncated, 1);
}

#[test]
fn a_line_is_cut_between_characters() {
    let mut store = Store::open(&config(), &Limits { max_log_line_bytes: 4, ..limits() });
    store.append(record("t", "inv", None, "a\u{e9}\u{e9}\u{e9}"));
    let q = store.query("t", "inv");
    assert_eq!(q.records[0].line, "a\u{e9}");
    assert!(q.records[0].truncated);
}

#[test]
fn the_invocation_cap_drops_counts_and_marks_once() {
    let mut store =
        Store::open(&config(), &Limits { max_log_lines_per_invocation: 3, ..limits() });
    for i in 0..10 {
        store.append(record("t", "inv", None, &format!("l{i}")));
    }
    let q = store.query("t", "inv");
    assert!(q.dropped);
    let got: Vec<&str> = q.records.iter().map(|r| r.line.as_str()).collect();
    assert_eq!(&got[..3], ["l0", "l1", "l2"]);
    assert_eq!(got.len(), 4, "three lines and one marker: {got:?}");
    assert!(got[3].starts_with(MARKER_PREFIX) && got[3].contains("limit of this invocation"));
    assert_eq!(q.records[3].stream, LogStream::Platform);
    let s = store.status();
    assert_eq!(s.lines_dropped.unwrap().invocation_limit, 7);
    assert_eq!(s.marker_lines, 1);
    assert_eq!(s.lines_written, 3);

    // The byte cap too.
    let mut store =
        Store::open(&config(), &Limits { max_log_bytes_per_invocation: 10, ..limits() });
    for l in ["12345", "12345", "1"] {
        store.append(record("t", "inv", None, l));
    }
    assert_eq!(store.user_lines("t", "inv"), ["12345", "12345"]);
    assert!(store.query("t", "inv").dropped);
}

#[test]
fn the_attempt_cap_is_applied_per_attempt() {
    let mut store =
        Store::open(&LogsConfig { max_lines_per_attempt: Some(2), ..config() }, &limits());
    for i in 0..4 {
        store.append(record("t", "inv", Some("a1"), &format!("a1-{i}")));
    }
    for i in 0..4 {
        store.append(record("t", "inv", Some("a2"), &format!("a2-{i}")));
    }
    let q = store.query("t", "inv");
    assert!(q.dropped);
    let got: Vec<&str> = q.records.iter().map(|r| r.line.as_str()).collect();
    assert_eq!(got.len(), 6, "{got:?}");
    assert_eq!(&got[..2], ["a1-0", "a1-1"]);
    assert!(got[2].contains("limit of this attempt"));
    assert_eq!(&got[3..5], ["a2-0", "a2-1"]);
    assert!(got[5].contains("limit of this attempt"));
    assert_eq!(q.records[2].attempt_id.as_deref(), Some("a1"));
    assert_eq!(store.status().lines_dropped.unwrap().attempt_limit, 4);
}

#[test]
fn caps_hold_across_a_restart() {
    let limits = Limits { max_log_lines_per_invocation: 3, ..limits() };
    let mut store = Store::open(&config(), &limits);
    store.append(record("t", "inv", None, "before-1"));
    store.append(record("t", "inv", None, "before-2"));
    store.flush();
    let mut store = Store::on(&config(), &limits, store.rows);
    for i in 0..5 {
        store.append(record("t", "inv", None, &format!("after-{i}")));
    }
    assert_eq!(store.user_lines("t", "inv"), ["before-1", "before-2", "after-0"]);
    assert!(store.query("t", "inv").dropped);
}

#[test]
fn markers_per_invocation_are_bounded() {
    let mut store =
        Store::open(&LogsConfig { max_lines_per_attempt: Some(1), ..config() }, &limits());
    for i in 0..40 {
        let a = format!("att-{i}");
        store.append(record("t", "inv", Some(&a), "x"));
        store.append(record("t", "inv", Some(&a), "over"));
    }
    let all = store.lines("t", "inv");
    let markers = all.iter().filter(|l| l.starts_with(MARKER_PREFIX)).count();
    assert_eq!(markers as i64, MAX_MARKERS_PER_INVOCATION);
    assert_eq!(all.len() - markers, 40);
}

#[test]
fn another_tenant_never_reads_the_lines() {
    let mut store =
        Store::open(&config(), &Limits { max_log_lines_per_invocation: 1, ..limits() });
    store.append(record("a", "inv", None, "tenant a secret output"));
    store.append(record("a", "inv", None, "dropped"));
    assert_eq!(store.lines("a", "inv").len(), 2);
    let q = store.query("b", "inv");
    assert!(q.records.is_empty(), "cross-tenant read refused");
    assert!(!q.dropped, "nothing about the other tenant's invocation leaks");
    // A line attributed to tenant B under the same id stays B's own.
    store.append(record("b", "inv", None, "tenant b line"));
    assert_eq!(store.lines("b", "inv"), ["tenant b line"]);
    assert!(!store.lines("a", "inv").iter().any(|l| l.contains("tenant b")));
}

/// A reader gets its own records only, in the order they were appended, and is
/// told of what was dropped.
#[test]
fn a_tenant_reads_its_own_lines_in_order() {
    let mut store =
        Store::open(&config(), &Limits { max_log_lines_per_invocation: 3, ..limits() });
    for line in ["1", "2", "3", "4"] {
        store.append(record("a", "inv", None, line));
    }
    let q = store.query("a", "inv");
    assert!(q.dropped);
    assert!(q.records.iter().all(|r| r.tenant_id == "a"));
    assert!(q.records.iter().all(|r| r.invocation_id.as_deref() == Some("inv")));
    let lines: Vec<&str> = q.records.iter().take(3).map(|r| r.line.as_str()).collect();
    assert_eq!(lines, ["1", "2", "3"]);
    assert_eq!(q.records[0].timestamp, NOW);
    let q = store.query("b", "inv");
    assert!(q.records.is_empty() && !q.dropped);
}

#[test]
fn lines_without_an_invocation_are_not_stored() {
    let mut store = Store::open(&config(), &limits());
    let mut r = record("t", "inv", None, "boot");
    r.invocation_id = None;
    assert_eq!(store.append(r), AppendOutcome::Dropped);
    store.flush();
    let s = store.status();
    assert_eq!(s.lines_dropped.unwrap().unattributed, 1);
    assert_eq!(s.stored_lines, 0);
}

#[test]
fn a_full_queue_drops_and_counts_without_blocking_the_caller() {
    let cfg = LogsConfig {
        queue_max_lines: 10,
        flush_max_lines: 1000,
        read_flush_wait_ms: 10_000,
        ..config()
    };
    let mut store = Store::open(&cfg, &limits());
    let mut stored = 0;
    for i in 0..2000 {
        if store.append(record("t", "inv", None, &format!("{i}"))) == AppendOutcome::Stored {
            stored += 1;
        }
    }
    let dropped = store.status().lines_dropped.unwrap().queue_full;
    assert_eq!(stored + dropped, 2000);
    assert!(dropped >= 1990 - 10, "{dropped}");
    let q = store.query("t", "inv");
    assert!(q.dropped);
    let markers: Vec<&str> = q
        .records
        .iter()
        .map(|r| r.line.as_str())
        .filter(|l| l.starts_with(MARKER_PREFIX))
        .collect();
    assert_eq!(markers.len(), 1, "{markers:?}");
    assert!(markers[0].contains("writer queue was full"), "{markers:?}");
    assert_eq!(q.records.len() as u64, stored + 1);
}

#[test]
fn a_locked_database_degrades_the_store_and_recovers() {
    let mut store = Store::open(&LogsConfig { read_flush_wait_ms: 5000, ..config() }, &limits());
    store.append(record("t", "inv", None, "before"));
    store.flush();
    assert!(store.status().healthy);

    // Another process holds the write lock.
    for i in 0..50 {
        assert_eq!(
            store.append(record("t", "inv", None, &format!("lost {i}"))),
            AppendOutcome::Stored
        );
    }
    store.fail("database is locked");
    let s = store.status();
    assert!(!s.healthy, "degraded while locked");
    assert!(s.last_error.is_some());
    assert_eq!(s.lines_dropped.unwrap().store_unavailable, 50);
    assert!(s.flush_failures >= 1);
    // Reads still answer.
    let q = store.read("t", "inv");
    assert_eq!(q.records.len(), 1);
    assert_eq!(q.records[0].line, "before");
    assert!(q.dropped, "the lost lines show before their marker is stored");

    store.append(record("t", "inv", None, "after"));
    store.flush();
    assert!(store.status().healthy, "recovered");
    let q = store.query("t", "inv");
    assert!(q.dropped);
    let got: Vec<&str> = q.records.iter().map(|r| r.line.as_str()).collect();
    assert_eq!(got.len(), 3, "{got:?}");
    assert_eq!(got[0], "before");
    assert!(got.iter().any(|l| l.contains("50 log line(s)") && l.contains("unavailable")));
    assert!(got.contains(&"after"));
}

#[test]
fn a_database_that_cannot_be_opened_drops_lines_and_never_fails_the_caller() {
    let mut store = Store::open(&config(), &limits());
    store.health.writer_open = false;
    assert_eq!(store.append(record("t", "inv", None, "x")), AppendOutcome::Stored);
    let words = not_open(&store.health);
    assert_eq!(words, "logs.db is not open");
    store.fail(&words);
    let s = store.status();
    assert!(!s.healthy);
    assert_eq!(s.lines_dropped.unwrap().store_unavailable, 1);
    assert_eq!(s.last_error.as_deref(), Some("logs.db is not open"));
}

#[test]
fn appends_to_many_invocations_keep_every_line_in_order() {
    let mut store = Store::open(&LogsConfig { flush_max_lines: 64, ..config() }, &limits());
    for i in 0..300 {
        for inv in 0..8 {
            assert_eq!(
                store.append(record("t", &format!("inv-{inv}"), None, &format!("{i:03}"))),
                AppendOutcome::Stored
            );
        }
        if i % 40 == 0 {
            store.flush();
        }
    }
    let expected: Vec<String> = (0..300).map(|i| format!("{i:03}")).collect();
    for inv in 0..8 {
        assert_eq!(store.lines("t", &format!("inv-{inv}")), expected);
    }
    assert_eq!(store.status().stored_lines, 2400);
}

#[test]
fn retention_by_age_removes_whole_invocations_past_the_horizon() {
    let mut store =
        Store::open(&LogsConfig { retention_seconds: 7 * 24 * 3600, ..config() }, &limits());
    store.append(record("t", "old", None, "old"));
    let mut r = record("t", "young", None, "young");
    r.timestamp = plus(NOW, 6 * DAY);
    store.append(r);
    store.flush();
    let report = store.run_retention(plus(NOW, 8 * DAY), &Table::new());
    assert_eq!((report.age_invocations, report.age_lines), (1, 1));
    assert!(store.lines("t", "old").is_empty());
    assert_eq!(store.lines("t", "young"), ["young"]);
    let s = store.status();
    assert_eq!(s.retention_deleted_lines.unwrap().0, 1);
    assert_eq!(s.stored_lines, 1);
    assert_eq!(s.stored_bytes, 5);
}

fn invocation(id: &str, status: InvocationStatus) -> Invocation {
    Invocation {
        id: id.to_string(),
        tenant_id: "t".to_string(),
        function_id: "f".to_string(),
        alias: None,
        revision_id: "rev".to_string(),
        mode: InvocationMode::Sync,
        event_kind: "json".to_string(),
        deadlines: Deadlines {
            queue_deadline: NOW,
            init_deadline: None,
            execution_deadline: None,
            client_deadline: NOW,
        },
        idempotency_key: None,
        input_digest: "sha256:{}".to_string(),
        input_size_bytes: 2,
        trace_id: "trace".to_string(),
        accepted_at: NOW,
        status,
        attempt_ids: Vec::new(),
        output: None,
        response_status: None,
        started_at: None,
        finished_at: None,
        dispatcher_id: None,
    }
}

fn answers(ledger: &InMemoryStore, ids: &[String]) -> Table<LedgerAnswer> {
    let mut out = Table::new();
    for id in ids {
        let answer = match ledger.get_invocation(id) {
            Some(inv) => LedgerAnswer::Found {
                tenant: inv.tenant_id.clone(),
                terminal: inv.status.is_terminal(),
            },
            None => LedgerAnswer::Missing,
        };
        out.set(Key::two("t", id), answer);
    }
    out
}

#[test]
fn the_size_cap_removes_the_oldest_terminal_invocations_and_keeps_running_ones() {
    let cfg = LogsConfig { retention_seconds: 0, max_total_bytes: 250, ..config() };
    let mut store = Store::open(&cfg, &limits());
    let mut ledger = InMemoryStore::new(limits());
    // Oldest first: running, done, done, done (100 bytes each).
    let mut ids = Vec::new();
    for i in 0..4 {
        let status =
            if i > 0 { InvocationStatus::Cancelled } else { InvocationStatus::Accepted };
        let id = format!("inv-{i}");
        ledger.insert_invocation(invocation(&id, status)).unwrap();
        store.append(record("t", &id, None, &"x".repeat(100)));
        store.flush();
        ids.push(id);
    }
    assert_eq!(store.status().stored_bytes, 400);
    let report = store.run_retention(NOW, &answers(&ledger, &ids));
    assert_eq!(report.size_invocations, 2, "{report:?}");
    assert!(report.skipped_non_terminal >= 1);
    assert_eq!(store.lines("t", &ids[0]).len(), 1, "running: kept");
    assert!(store.lines("t", &ids[1]).is_empty(), "oldest terminal: deleted");
    assert!(store.lines("t", &ids[2]).is_empty());
    assert_eq!(store.lines("t", &ids[3]).len(), 1, "newest: kept");
    let s = store.status();
    assert_eq!(s.stored_bytes, 200);
    assert_eq!(s.retention_deleted_lines.unwrap().1, 2);
    assert!(s.retention_skipped_non_terminal >= 1);

    // Over the cap with only a running invocation left: it is kept until the
    // ledger reports it terminal.
    let cfg = LogsConfig { max_total_bytes: 50, ..cfg };
    let mut store = Store::on(&cfg, &limits(), store.rows);
    store.run_retention(NOW, &answers(&ledger, &ids));
    assert_eq!(store.lines("t", &ids[0]).len(), 1);
    assert!(store.lines("t", &ids[3]).is_empty());
    let mut running = ledger.get_invocation(&ids[0]).unwrap().clone();
    running.status = InvocationStatus::Cancelled;
    running.finished_at = Some(NOW);
    ledger.update_invocation(running).unwrap();
    store.run_retention(NOW, &answers(&ledger, &ids));
    assert!(store.lines("t", &ids[0]).is_empty());
    assert_eq!(store.status().stored_bytes, 0);
}

#[test]
fn a_newer_schema_is_refused_and_the_store_stays_degraded() {
    assert_eq!(schema_refusal("logs.db", None), None);
    assert_eq!(schema_refusal("logs.db", Some(1)), None);
    let words = schema_refusal("logs.db", Some(99)).unwrap();
    assert!(words.contains("schema version 99"));
    let mut store = Store::open(&config(), &limits());
    store.health.writer_open = false;
    store.health.last_error = Some(words);
    let s = store.status();
    assert!(!s.healthy);
    assert!(s.last_error.unwrap().contains("schema version 99"));
}

#[test]
fn config_is_validated() {
    assert!(LogsConfig::default().validate().is_ok());
    for bad in [
        LogsConfig { flush_interval_ms: 0, ..LogsConfig::default() },
        LogsConfig { queue_max_lines: 0, ..LogsConfig::default() },
        LogsConfig { queue_max_bytes: 1, ..LogsConfig::default() },
        LogsConfig { max_lines_per_attempt: Some(0), ..LogsConfig::default() },
        LogsConfig { retention_interval_seconds: 0, ..LogsConfig::default() },
    ] {
        assert!(bad.validate().is_err(), "{bad:?}");
    }
}

#[test]
fn the_first_broken_rule_is_named() {
    let two = LogsConfig { flush_interval_ms: 60_001, queue_max_lines: 0, ..LogsConfig::default() };
    assert_eq!(
        two.validate(),
        Err("[logs] flush_interval_ms must be within 1..=60000".to_string())
    );
    let slow = LogsConfig { read_flush_wait_ms: 30_001, ..LogsConfig::default() };
    assert_eq!(slow.validate(), Err("[logs] read_flush_wait_ms must be <= 30000".to_string()));
}

#[test]
fn intervals_are_durations() {
    let c = LogsConfig::default();
    assert_eq!(c.flush_interval().as_millis(), 200);
    assert_eq!(c.retention_interval().as_secs(), 60);
    assert_eq!(c.read_flush_wait().as_millis(), 1000);
}

#[test]
fn the_writer_waits_for_the_nearer_deadline() {
    let s = Settings::new(&config(), &limits());
    assert_eq!(writer_wait(&s, 3_600_000_000_000), 10_000_000);
    assert_eq!(writer_wait(&s, 5_000_000), 5_000_000);
    assert_eq!(writer_wait(&s, 0), 1_000_000);
}

#[test]
fn a_restored_batch_leaves_one_marker_per_invocation() {
    let mut store = Store::open(&config(), &limits());
    store.append(record("t", "a", None, "12345"));
    store.append(record("t", "b", None, "1"));
    store.append(record("t", "a", None, "678"));
    store.fail("gone");
    assert!(store.queue.has_loss("t", "a") && store.queue.has_loss("t", "b"));
    store.flush();
    assert_eq!(
        store.lines("t", "a"),
        [format!(
            "{MARKER_PREFIX}2 log line(s) (8 bytes) of this invocation were dropped: the log store was unavailable"
        )]
    );
    assert_eq!(store.lines("t", "b").len(), 1);
    assert!(!store.queue.has_loss("t", "a"));
}

#[test]
fn drop_reasons_have_their_place() {
    let places: Vec<usize> =
        ["queue_full", "store_unavailable", "invocation_limit", "attempt_limit", "unattributed"]
            .iter()
            .map(|r| drop_index(r))
            .collect();
    assert_eq!(places, [0, 1, 2, 3, 4]);
}

#[test]
fn stored_names_read_back() {
    for s in [LogStream::Stdout, LogStream::Stderr, LogStream::Platform] {
        assert_eq!(parse_stream(stream_str(s)), Some(s));
    }
    for p in [LogPhase::Boot, LogPhase::Init, LogPhase::Handler, LogPhase::Shutdown] {
        assert_eq!(parse_phase(phase_str(p)), Some(p));
    }
    assert_eq!(parse_stream("tty"), None);
    assert_eq!(parse_phase(""), None);
}

#[test]
fn a_row_that_cannot_be_read_is_an_error() {
    let raw = |stream: &str, phase: &str| RawLine {
        attempt: String::new(),
        attempt_is_id: false,
        environment: "env".to_string(),
        environment_is_id: true,
        stream: stream.to_string(),
        phase: phase.to_string(),
        ts_ns: 5,
        line: "x".to_string(),
        truncated: false,
    };
    let rec = decode_line("t", "inv", &raw("stdout", "handler")).unwrap();
    assert_eq!((rec.attempt_id, rec.timestamp, rec.line.as_str()), (None, 5, "x"));
    assert!(matches!(
        decode_line("t", "inv", &raw("tty", "handler")),
        Err(RepoError::Serialization(_))
    ));
    assert!(matches!(
        decode_line("t", "inv", &raw("stdout", "nap")),
        Err(RepoError::Serialization(_))
    ));
}

#[test]
fn the_ledger_decides_what_the_size_cap_may_delete() {
    assert!(deletable(&LedgerAnswer::NoLedger, "t"));
    assert!(deletable(&LedgerAnswer::Missing, "t"));
    assert!(deletable(&LedgerAnswer::BadId, "t"));
    assert!(!deletable(&LedgerAnswer::Failed, "t"));
    let found = |tenant: &str, terminal: bool| LedgerAnswer::Found {
        tenant: tenant.to_string(),
        terminal,
    };
    assert!(deletable(&found("t", true), "t"));
    assert!(!deletable(&found("t", false), "t"));
    assert!(deletable(&found("other", false), "t"));
}

#[test]
fn the_size_plan_deletes_just_enough() {
    let c = |id: &str, first_seq: i64, deletable: bool| Candidate {
        tenant: "t".to_string(),
        invocation: id.to_string(),
        first_seq,
        stored_bytes: 100,
        deletable,
    };
    let all = vec![c("a", 1, true), c("b", 2, false), c("c", 3, true), c("d", 4, true)];
    let plan = plan_size(&all, 400, 250);
    assert_eq!(plan.victims, vec![0, 2]);
    assert_eq!((plan.skipped, plan.stored), (1, 200));
    let none = plan_size(&all, 400, 400);
    assert!(none.victims.is_empty());
}

#[test]
fn the_memory_buffer_reports_no_database() {
    let s = LogStoreStatus::memory();
    assert_eq!((s.backend, s.durable, s.healthy), ("memory", false, true));
    assert!(s.path.is_none() && s.lines_dropped.is_none());
}

#[test]
fn lines_are_read_in_order_or_not_at_all() {
    let raw = |line: &str, stream: &str| RawLine {
        attempt: String::new(),
        attempt_is_id: false,
        environment: "env".to_string(),
        environment_is_id: true,
        stream: stream.to_string(),
        phase: "handler".to_string(),
        ts_ns: 7,
        line: line.to_string(),
        truncated: false,
    };
    let lines = vec![raw("a", "stdout"), raw("b", "stderr")];
    let read = decode_lines("t", "inv", &lines, 0, false).unwrap();
    let texts: Vec<&str> = read.records.iter().map(|r| r.line.as_str()).collect();
    assert_eq!(texts, vec!["a", "b"]);
    assert_eq!(read.records[1].attempt_id, None);
    assert!(!read.dropped);
    assert!(decode_lines("t", "inv", &lines, 1, false).unwrap().dropped);
    assert!(decode_lines("t", "inv", &lines, 0, true).unwrap().dropped);
    let broken = vec![raw("a", "stdout"), raw("b", "tty"), raw("c", "pty")];
    assert!(matches!(
        decode_lines("t", "inv", &broken, 0, false),
        Err(RepoError::Serialization(m)) if m == "logs.db stream: tty"
    ));
}

#[test]
fn the_writer_waits_for_more_lines_only_with_nothing_pressing() {
    let mut store = Store::open(&config(), &limits());
    assert!(store.queue.may_wait(&store.settings));
    store.queue.flush_requested = true;
    assert!(!store.queue.may_wait(&store.settings));
    store.queue.flush_requested = false;
    store.queue.shutdown = true;
    assert!(!store.queue.may_wait(&store.settings));
    store.queue.shutdown = false;
    store.settings.flush_max_lines = 0;
    assert!(!store.queue.may_wait(&store.settings));
}
