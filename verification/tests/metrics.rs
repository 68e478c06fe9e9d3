use std::collections::{BTreeMap, HashMap, HashSet};

use tachyon_application::domain::invocation::StartKind;
use tachyon_application::metrics::caps::{
    can_fold_revisions, can_fold_tenants, cap_revisions, cap_tenants, OTHER,
};
use tachyon_application::metrics::catalog;
use tachyon_application::metrics::dispatch::AsyncDispatchMetrics;
use tachyon_application::metrics::exposition::{escape, Value};
use tachyon_application::metrics::idle::{sample_round, RoundEntry};
use tachyon_application::metrics::input::{
    AdmissionCounters, AdmissionMetrics, CacheStatus, EnvironmentCounts, EnvironmentStats,
    EnvironmentUsage, MetricsInput, NodeCapacity, OutboxMetrics, Resources, RevisionMetrics,
    SeriesLimits, TenantMetrics, TriggerMetricsSnapshot, UsageMetrics,
};
use tachyon_application::metrics::render::render;
use tachyon_application::metrics::tally::Tally;
use tachyon_application::metrics::{
    AttemptTimings, BootCheck, Histogram, IdleCpuRound, Metrics, PHASE_BUCKETS_MS,
};
use tachyon_application::table::{Key, Table};
use tachyon_application::time::of_nanos;

fn t(ms: i64) -> i128 {
    of_nanos((1_900_000_000_000 + ms) * 1_000_000)
}

fn timings(boot_ms: u64, handler_ms: u64) -> AttemptTimings {
    AttemptTimings {
        queue_wait_ms: Some(2),
        environment_boot_ms: Some(boot_ms),
        runtime_init_ms: Some(boot_ms / 10),
        resume_ms: None,
        readiness_ms: None,
        handler_ms: Some(handler_ms),
        response_ms: Some(1),
        total_ms: Some(boot_ms + handler_ms + 3),
    }
}

#[test]
fn histograms_bucket_by_upper_bound_and_count_everything() {
    let mut h = Histogram::new();
    for ms in [1, 5, 6, 3_000, 1_000_000] {
        h.observe(ms);
    }
    assert_eq!(h.count, 5);
    assert_eq!(h.buckets[0], 2, "<= 5 ms, the bound is inclusive");
    assert_eq!(h.buckets[1], 1);
    assert_eq!(h.buckets[PHASE_BUCKETS_MS.len()], 1, "+Inf");
    assert!((h.sum_ms as f64 / 1000.0 - 1_003.012).abs() < 1e-9);
}

#[test]
fn boot_identity_is_checked_per_environment_and_warm_starts_skip_boot_phases() {
    let mut m = Metrics::new();
    assert_eq!(
        m.observe_attempt("env", StartKind::Cold, "succeeded", &timings(900, 20), Some("boot-1")),
        BootCheck::FirstBoot
    );
    let warm = AttemptTimings {
        environment_boot_ms: Some(0),
        runtime_init_ms: Some(0),
        resume_ms: Some(3),
        ..timings(0, 10)
    };
    for _ in 0..3 {
        assert_eq!(
            m.observe_attempt("env", StartKind::Warm, "succeeded", &warm, Some("boot-1")),
            BootCheck::SameBoot
        );
    }
    assert_eq!(
        m.observe_attempt("env", StartKind::Warm, "succeeded", &warm, Some("boot-2")),
        BootCheck::BootChanged
    );
    assert_eq!(
        m.observe_attempt("process_env", StartKind::Cold, "failed", &timings(40, 5), None),
        BootCheck::Unreported
    );
    let snap = m.snapshot(0, IdleCpuRound { sampled: 0, max_ratio: 0 });
    assert_eq!(snap.boot_checks.first_boot, 1);
    assert_eq!(snap.boot_checks.same_boot, 3);
    assert_eq!(snap.boot_checks.boot_changed, 1);
    assert_eq!(snap.boot_checks.unreported, 1);
    assert_eq!(snap.attempts.get("warm", "succeeded"), 4);
    assert_eq!(snap.attempts.get("cold", "failed"), 1);
    let phase = |p: &str, k: &str| snap.phases.get(&Key::two(p, k)).map(|h| h.count);
    assert_eq!(phase("boot", "cold"), Some(2));
    assert_eq!(phase("boot", "warm"), None);
    assert_eq!(phase("init", "warm"), None);
    assert_eq!(phase("resume", "warm"), Some(4));
    assert_eq!(phase("handler", "warm"), Some(4));
}

#[test]
fn the_oldest_boot_is_forgotten_first() {
    let mut m = Metrics::new();
    for i in 0..4097 {
        let env = format!("env-{i}");
        m.observe_attempt(&env, StartKind::Cold, "succeeded", &timings(1, 1), Some("b"));
    }
    assert_eq!(m.boot_order.len(), 4096);
    assert_eq!(
        m.observe_attempt("env-1", StartKind::Warm, "succeeded", &timings(1, 1), Some("b2")),
        BootCheck::BootChanged
    );
    assert_eq!(
        m.observe_attempt("env-0", StartKind::Warm, "succeeded", &timings(1, 1), Some("b2")),
        BootCheck::FirstBoot
    );
}

/// CPU is attributed to "idle" only between two samples that both saw the
/// environment idle.
#[test]
fn idle_cpu_is_measured_between_two_idle_samples_only() {
    let mut last = Table::new();
    let entry = |environment: &str, idle: bool| RoundEntry {
        environment: environment.to_string(),
        idle,
    };
    let first = sample_round(
        &mut last,
        &vec![entry("quiet", true), entry("noisy", true), entry("busy", false)],
    );
    assert_eq!(first, [false, false, false], "one sample measures nothing");
    let second = sample_round(
        &mut last,
        &vec![entry("quiet", true), entry("noisy", true), entry("busy", true)],
    );
    assert_eq!(second, [true, true, false]);
    // An environment that is gone is forgotten: no stale delta later.
    let third = sample_round(&mut last, &vec![entry("quiet", true)]);
    assert_eq!(third, [true]);
    let fourth = sample_round(&mut last, &vec![entry("noisy", true)]);
    assert_eq!(fourth, [false], "no previous sample after it disappeared");
}

#[test]
fn dispatch_counters_count_by_label() {
    let mut m = AsyncDispatchMetrics::new();
    m.delivery("settled");
    m.delivery("settled");
    m.queue_operation("ack", true);
    m.queue_operation("ack", false);
    m.retry_scheduled(true);
    m.retry_scheduled(false);
    m.dead_letter("exhausted");
    m.redrive();
    m.reaper("claims_expired", 0);
    m.reaper("claims_expired", 3);
    m.run_started();
    m.run_started();
    m.run_finished();
    let s = m.snapshot();
    assert_eq!(s.deliveries.get("settled", ""), 2);
    assert_eq!(s.queue_operations.get("ack", "ok"), 1);
    assert_eq!(s.queue_operations.get("ack", "error"), 1);
    assert_eq!(s.retries.get("retry", ""), 1);
    assert_eq!(s.retries.get("deferral", ""), 1);
    assert_eq!(s.dead_letters.get("exhausted", ""), 1);
    assert_eq!(s.redrives, 1);
    assert_eq!(s.reaper.get("claims_expired", ""), 3);
    assert_eq!(s.in_flight, 1);
}

#[test]
fn a_counter_stays_at_its_largest_value() {
    let mut c = Tally::new();
    c.bump("a", "b", u64::MAX);
    c.bump("a", "b", 1);
    assert_eq!(c.get("a", "b"), u64::MAX);
    assert_eq!(c.get("b", "a"), 0);
}

// ---------------------------------------------------------------------------
// the exposition
// ---------------------------------------------------------------------------

fn number(v: Value) -> String {
    let v = match v {
        Value::Count(n) => n as f64,
        Value::Millis(ms) => ms as f64 / 1000.0,
        Value::Real(bits) => f64::from_bits(bits),
    };
    if v.is_nan() {
        "NaN".to_string()
    } else if v == f64::INFINITY {
        "+Inf".to_string()
    } else if v == f64::NEG_INFINITY {
        "-Inf".to_string()
    } else if v.fract() == 0.0 && v.abs() < 1e15 {
        format!("{}", v as i64)
    } else {
        format!("{v}")
    }
}

fn counts(starting: u64) -> EnvironmentCounts {
    EnvironmentCounts { starting, busy: 0, promised: 0, parking: 0, idle: 0, draining: 0 }
}

fn tenant(n: usize) -> String {
    format!("tn_01hzzzzzzzzzzzzzzzzzzzzz{n:02}")
}

/// Every tenant enqueued two invocations of one revision; the node runs three
/// environments at a time, and the first tenants got them.
fn admission(tenants: usize) -> AdmissionMetrics {
    let granted = |n: usize| -> u64 {
        let before = 2 * (n - 1);
        if before >= 3 {
            0
        } else {
            (3 - before).min(2) as u64
        }
    };
    let mut revisions = Vec::new();
    let mut list = Vec::new();
    for n in 1..=tenants {
        let waiting = 2 - granted(n);
        revisions.push(RevisionMetrics {
            tenant: tenant(n),
            revision: format!("rev_{n:02}"),
            environments: counts(granted(n)),
            desired: 2,
            max_environments: 10,
            min_ready: 0,
            queued: waiting as u32,
            breaker: "closed",
        });
        list.push(TenantMetrics {
            tenant: tenant(n),
            in_flight: granted(n),
            queued: waiting,
            oldest_wait_seconds: if waiting > 0 { Some(2.5f64.to_bits()) } else { None },
            grants: granted(n),
            max_concurrency: None,
        });
    }
    AdmissionMetrics {
        node_name: "node-a".to_string(),
        capacity: NodeCapacity {
            cpu_millis: None,
            memory_mib: Some(4096),
            ephemeral_storage_mib: None,
        },
        reserved: Resources { cpu_millis: 0, memory_mib: 3 * 280, ephemeral_storage_mib: 0 },
        overhead: Resources { cpu_millis: 0, memory_mib: 24, ephemeral_storage_mib: 0 },
        max_concurrency: 3,
        in_flight: 3,
        environments: counts(3),
        revisions,
        queue_length: (2 * tenants - 3) as u64,
        queue_bytes: 0,
        max_queue: 100,
        max_queue_bytes: 1 << 20,
        oldest_wait_seconds: Some(2.5f64.to_bits()),
        tenants: list,
        start_tokens: 97,
        counters: AdmissionCounters {
            arrivals: 2 * tenants as u64,
            grants_cold: 3,
            grants_warm: 0,
            coalesced_waits: 0,
            starts_avoided: 0,
            start_successes: 0,
            start_failures: 0,
            breaker_opens: 0,
            scale_events: Tally::new(),
        },
        rejections: Tally::new(),
    }
}

fn input(admission: AdmissionMetrics, limits: SeriesLimits, events: &Metrics) -> MetricsInput {
    let env = |id: &str, state: &'static str, cpu: f64| EnvironmentUsage {
        environment: id.to_string(),
        tenant: tenant(1),
        revision: "rev_01".to_string(),
        state,
        stats: Some(EnvironmentStats {
            cpu_seconds: Some(cpu.to_bits()),
            memory_current_bytes: Some(64 << 20),
            memory_peak_bytes: Some(96 << 20),
            scope: "fake".to_string(),
        }),
    };
    MetricsInput {
        version: "0.0.0-test".to_string(),
        provider: "fake".to_string(),
        reuse_enabled: false,
        pool_held: 0,
        pool_quiescing: 0,
        admission,
        events: events.snapshot(0f64.to_bits(), IdleCpuRound { sampled: 0, max_ratio: 0 }),
        environments: vec![
            env("env_1", "busy", 1.5),
            env("env_2", "idle", 0.25),
            EnvironmentUsage { stats: None, ..env("env_3", "ready", 0.0) },
        ],
        dispatcher_fenced: false,
        config: CacheStatus {
            generation: 7,
            ever_synced: true,
            consecutive_failures: 0,
            config_valid_until: Some(t(62_500)),
            auth_valid_until: Some(t(32_500)),
            reconnects: 1,
            entries: 12,
        },
        now: t(2_500),
        limits,
        outbox: Some(OutboxMetrics {
            pending: 2,
            oldest_pending_at: Some(t(500)),
            sent_retained: 5,
            queue_condition: "full",
        }),
        triggers: None,
        usage: None,
        dispatch: None,
    }
}

/// A parsed exposition: `(name, labels) -> value`.
struct Exposition {
    samples: HashMap<(String, BTreeMap<String, String>), f64>,
}

impl Exposition {
    fn parse(text: &str) -> Self {
        let mut samples = HashMap::new();
        let mut typed: HashMap<String, String> = HashMap::new();
        let mut helped: HashSet<String> = HashSet::new();
        let mut closed: HashSet<String> = HashSet::new();
        let mut current: Option<String> = None;
        for line in text.lines() {
            if let Some(rest) = line.strip_prefix("# HELP ") {
                let name = rest.split(' ').next().unwrap().to_string();
                assert!(helped.insert(name.clone()), "HELP twice for {name}");
                if let Some(prev) = current.replace(name.clone()) {
                    if prev != name {
                        closed.insert(prev);
                    }
                }
                assert!(!closed.contains(&name), "family {name} is not contiguous");
                continue;
            }
            if let Some(rest) = line.strip_prefix("# TYPE ") {
                let mut it = rest.split(' ');
                let name = it.next().unwrap().to_string();
                let kind = it.next().unwrap().to_string();
                assert!(helped.contains(&name), "TYPE before HELP for {name}");
                typed.insert(name, kind);
                continue;
            }
            assert!(!line.starts_with('#'), "unexpected comment {line}");
            let (series, value) = line.rsplit_once(' ').expect("sample line");
            let value: f64 = match value {
                "+Inf" => f64::INFINITY,
                v => v.parse().unwrap_or_else(|_| panic!("value in {line}")),
            };
            let (name, labels) = match series.split_once('{') {
                None => (series.to_string(), BTreeMap::new()),
                Some((name, rest)) => {
                    let body = rest.strip_suffix('}').expect("closing brace");
                    let mut labels = BTreeMap::new();
                    for pair in body.split("\",") {
                        let (k, v) = pair.split_once("=\"").expect("label");
                        labels.insert(k.to_string(), v.trim_end_matches('"').to_string());
                    }
                    (name.to_string(), labels)
                }
            };
            let family = ["_bucket", "_sum", "_count"]
                .iter()
                .find_map(|s| name.strip_suffix(s))
                .filter(|f| typed.get(*f).map(String::as_str) == Some("histogram"))
                .unwrap_or(&name)
                .to_string();
            assert_eq!(
                current.as_deref(),
                Some(family.as_str()),
                "sample {name} outside its family block"
            );
            assert!(catalog::family(&family).is_some(), "{family} is not in the catalog");
            assert!(
                samples.insert((name, labels), value).is_none(),
                "duplicate series: {line}"
            );
        }
        Self { samples }
    }

    fn get(&self, name: &str, labels: &[(&str, &str)]) -> Option<f64> {
        let labels: BTreeMap<String, String> =
            labels.iter().map(|(k, v)| (k.to_string(), v.to_string())).collect();
        self.samples.get(&(name.to_string(), labels)).copied()
    }

    fn series_of(&self, name: &str) -> Vec<&BTreeMap<String, String>> {
        self.samples.keys().filter(|(n, _)| n == name).map(|(_, l)| l).collect()
    }
}

#[test]
fn the_exposition_is_well_formed_and_carries_admission_attempts_and_host_usage() {
    let mut events = Metrics::new();
    events.observe_attempt("env", StartKind::Cold, "succeeded", &timings(120, 30), None);
    events.gate_refusal("Host.ConfigExpired");
    events.heartbeat("renewed", 2);
    let text = render(&input(admission(2), SeriesLimits::default(), &events), number);
    let x = Exposition::parse(&text);

    assert_eq!(x.get("tsls_node_in_flight", &[]), Some(3.0));
    assert_eq!(x.get("tsls_queue_length", &[]), Some(1.0));
    assert_eq!(x.get("tsls_queue_oldest_age_seconds", &[]), Some(2.5));
    assert_eq!(x.get("tsls_node_capacity_memory_bytes", &[]), Some(4096.0 * 1024.0 * 1024.0));
    assert_eq!(x.get("tsls_node_capacity_cpu_millicores", &[]), None);
    assert_eq!(
        x.get("tsls_node_reserved_memory_bytes", &[]),
        Some(3.0 * 280.0 * 1024.0 * 1024.0)
    );
    assert_eq!(x.get("tsls_environments", &[("state", "starting")]), Some(3.0));
    assert_eq!(x.get("tsls_admission_grants_total", &[("kind", "cold")]), Some(3.0));
    assert_eq!(
        x.get("tsls_admission_rejections_total", &[("reason", "queue_full")]),
        Some(0.0),
        "every reason starts at zero"
    );
    assert_eq!(
        x.get("tsls_tenant_queue_oldest_age_seconds", &[("tenant", &tenant(2))]),
        Some(2.5)
    );
    assert_eq!(x.get("tsls_tenant_grants_total", &[("tenant", &tenant(1))]), Some(2.0));
    assert_eq!(
        x.get(
            "tsls_environment_reuse_mode",
            &[("provider", "fake"), ("mode", "every_invocation_boots")]
        ),
        Some(1.0)
    );
    assert_eq!(
        x.get("tsls_attempts_total", &[("start_kind", "cold"), ("status", "succeeded")]),
        Some(1.0)
    );
    let bucket = |le: &str| {
        x.get(
            "tsls_attempt_phase_seconds_bucket",
            &[("phase", "boot"), ("start_kind", "cold"), ("le", le)],
        )
    };
    assert_eq!(bucket("0.1"), Some(0.0));
    assert_eq!(bucket("0.25"), Some(1.0));
    assert_eq!(bucket("+Inf"), Some(1.0));
    assert_eq!(x.get("tsls_boot_identity_checks_total", &[("result", "unreported")]), Some(1.0));
    assert_eq!(
        x.get("tsls_gate_refusals_total", &[("error_type", "Host.ConfigExpired")]),
        Some(1.0)
    );
    assert_eq!(x.get("tsls_dispatcher_slot_lease_renewals_total", &[]), Some(2.0));
    assert_eq!(x.get("tsls_environment_stats", &[("result", "unavailable")]), Some(1.0));
    assert_eq!(x.series_of("tsls_environment_cpu_seconds_total").len(), 2);
    assert_eq!(x.get("tsls_config_valid_remaining_seconds", &[]), Some(60.0));
    assert_eq!(x.get("tsls_auth_lease_remaining_seconds", &[]), Some(30.0));
    assert_eq!(x.get("tsls_async_outbox_pending_events", &[]), Some(2.0));
    assert_eq!(x.get("tsls_async_outbox_oldest_pending_age_seconds", &[]), Some(2.0));
    assert_eq!(x.get("tsls_async_queue_condition", &[("condition", "full")]), Some(1.0));
    // Histogram buckets are cumulative and end at the count.
    let mut les: Vec<(f64, f64)> = x
        .samples
        .iter()
        .filter(|((n, l), _)| n == "tsls_attempt_phase_seconds_bucket" && l["phase"] == "total")
        .map(|((_, l), v)| {
            let le = if l["le"] == "+Inf" { f64::INFINITY } else { l["le"].parse().unwrap() };
            (le, *v)
        })
        .collect();
    les.sort_by(|a, b| a.0.partial_cmp(&b.0).unwrap());
    assert!(les.windows(2).all(|w| w[0].1 <= w[1].1));
}

/// Label cardinality is bounded: beyond the caps, tenants and revisions are
/// folded into one `_other` series and the number folded is reported.
#[test]
fn tenant_and_revision_series_beyond_the_caps_fold_into_other() {
    let events = Metrics::new();
    let limits = SeriesLimits { revisions: 2, tenants: 2, environments: 1 };
    let text = render(&input(admission(5), limits, &events), number);
    let x = Exposition::parse(&text);
    let tenant_series = x.series_of("tsls_tenant_queue_length");
    assert_eq!(tenant_series.len(), 3, "2 tenants + _other");
    assert!(tenant_series.iter().any(|l| l["tenant"] == OTHER));
    let revision_series = x.series_of("tsls_revision_desired_environments");
    assert_eq!(revision_series.len(), 3);
    assert_eq!(x.get("tsls_metrics_series_truncated", &[("dimension", "tenant")]), Some(3.0));
    assert_eq!(x.get("tsls_metrics_series_truncated", &[("dimension", "revision")]), Some(3.0));
    assert_eq!(
        x.get("tsls_metrics_series_truncated", &[("dimension", "environment")]),
        Some(2.0),
        "3 environments capped at 1 series"
    );
    // The folded sums keep the node-wide totals.
    let total: f64 = x
        .samples
        .iter()
        .filter(|((n, _), _)| n == "tsls_tenant_queue_length")
        .map(|(_, v)| v)
        .sum();
    assert_eq!(Some(total), x.get("tsls_queue_length", &[]));
}

/// Label values are escaped (a quote, a backslash or a newline in a node name
/// cannot break the exposition).
#[test]
fn label_values_are_escaped() {
    let mut a = admission(2);
    a.node_name = "odd\"node\\\nname".to_string();
    let text = render(&input(a, SeriesLimits::default(), &Metrics::new()), number);
    assert!(text.contains(r#"tsls_node_info{node="odd\"node\\\nname"} 1"#));
    assert_eq!(text.lines().filter(|l| l.contains("odd")).count(), 1);
}

#[test]
fn everything_optional_is_rendered_in_one_well_formed_exposition() {
    let mut i = input(admission(2), SeriesLimits::default(), &Metrics::new());
    let mut cron = Tally::new();
    cron.bump("accepted", "", 4);
    i.triggers = Some(TriggerMetricsSnapshot {
        scheduler_owner: true,
        cron,
        missed: Tally::new(),
        webhook: Tally::new(),
    });
    i.usage = Some(UsageMetrics {
        journal_healthy: true,
        journal_admitting: false,
        journal_pending_events: 3,
        journal_pending_bytes: 4,
        journal_max_events: 5,
        journal_max_bytes: 6,
        unjournaled_events: 7,
        collector_runs: 8,
        collector_failing: false,
        collector_last_success_at: Some(t(5_000)),
        collector_delivered: 9,
        ledger_events: Some(10),
        ledger_duplicates_ignored: None,
    });
    let mut d = AsyncDispatchMetrics::new();
    d.queue_operation("nak", false);
    i.dispatch = Some(d.snapshot());
    i.admission.counters.scale_events.bump("scale_up", "queue", 2);
    i.admission.counters.scale_events.bump("scale_up", "burst", 1);
    i.admission.max_queue_bytes = 1_000_000_000_000_000_000;
    let x = Exposition::parse(&render(&i, number));
    assert_eq!(x.get("tsls_trigger_scheduler_owner", &[]), Some(1.0));
    assert_eq!(x.get("tsls_trigger_cron_fires_total", &[("result", "accepted")]), Some(4.0));
    assert_eq!(x.get("tsls_trigger_webhook_deliveries_total", &[("result", "refused")]), Some(0.0));
    assert_eq!(x.get("tsls_usage_journal_admitting", &[]), Some(0.0));
    assert_eq!(
        x.get("tsls_usage_collector_last_success_age_seconds", &[]),
        Some(0.0),
        "an age is never negative"
    );
    assert_eq!(x.get("tsls_usage_ledger_events", &[]), Some(10.0));
    assert_eq!(x.get("tsls_usage_ledger_duplicates_ignored_total", &[]), None);
    assert_eq!(
        x.get(
            "tsls_async_dispatch_queue_operations_total",
            &[("operation", "nak"), ("result", "error")]
        ),
        Some(1.0)
    );
    assert_eq!(
        x.get("tsls_scale_events_total", &[("kind", "scale_up"), ("reason", "queue")]),
        Some(2.0)
    );
    assert_eq!(
        x.get("tsls_scale_events_total", &[("kind", "drain"), ("reason", "none")]),
        Some(0.0)
    );
    assert_eq!(x.get("tsls_queue_max_bytes", &[]), Some(1e18));
    // Every family of the catalog but those without a value is announced.
    for (name, _, _) in catalog::FAMILIES {
        assert_eq!(catalog::family(name).is_some(), true);
    }
    assert_eq!(catalog::family("tsls_nothing"), None);
}

#[test]
fn the_first_lines_of_an_exposition() {
    let text = render(&input(admission(2), SeriesLimits::default(), &Metrics::new()), number);
    let head: Vec<&str> = text.lines().take(6).collect();
    assert_eq!(
        head,
        [
            "# HELP tsls_build_info Gateway version (value is always 1).",
            "# TYPE tsls_build_info gauge",
            "tsls_build_info{version=\"0.0.0-test\"} 1",
            "# HELP tsls_environment_reuse_mode 1 for the active mode: warm_reuse (pooled environments are reused) or every_invocation_boots (no warm stage: every invocation boots its own environment).",
            "# TYPE tsls_environment_reuse_mode gauge",
            "tsls_environment_reuse_mode{provider=\"fake\",mode=\"warm_reuse\"} 0",
        ]
    );
    assert!(text.contains("# TYPE tsls_attempt_phase_seconds histogram\n"));
    assert!(text.ends_with("tsls_metrics_series_truncated{dimension=\"environment\"} 0\n"));
}

#[test]
fn the_busiest_rows_are_kept_and_sorted_by_id() {
    let a = admission(5);
    let (rows, folded) = cap_tenants(&a.tenants, 2);
    assert_eq!(folded, 3);
    let names: Vec<&str> = rows.iter().map(|r| r.tenant.as_str()).collect();
    // 3, 4 and 5 wait for two invocations each: the first two of them stay.
    assert_eq!(names, [tenant(3).as_str(), tenant(4).as_str(), OTHER]);
    assert_eq!(rows[2].queued, 3);
    assert_eq!(rows[2].grants, 3);
    assert_eq!(rows[2].oldest_wait_seconds, Some(2.5f64.to_bits()));

    let mut b = a.revisions;
    b[4].breaker = "half_open";
    b[3].breaker = "open";
    let (rows, folded) = cap_revisions(&b, 2);
    assert_eq!(folded, 3);
    assert_eq!(rows[2].revision, OTHER);
    assert_eq!(rows[2].breaker, "open", "the worst breaker of the folded ones");
    assert_eq!(rows[2].desired, 6);
    let (rows, folded) = cap_revisions(&b, 5);
    assert_eq!((rows.len(), folded), (5, 0));
}

/// Totals that do not fit matter only where rows are folded.
#[test]
fn only_folded_rows_have_to_add_up() {
    let mut a = admission(3);
    for r in &mut a.revisions {
        r.max_environments = u32::MAX;
    }
    for r in &mut a.tenants {
        r.grants = u64::MAX;
    }
    let (rows, folded) = cap_revisions(&a.revisions, 10);
    assert_eq!((rows.len(), folded), (3, 0));
    assert_eq!(rows[0].max_environments, u32::MAX);
    let (rows, folded) = cap_tenants(&a.tenants, 3);
    assert_eq!((rows.len(), folded), (3, 0));
    assert_eq!(rows[2].grants, u64::MAX);

    assert!(can_fold_revisions(&a.revisions, 10));
    assert!(can_fold_revisions(&a.revisions, 2), "one row folds into itself");
    assert!(!can_fold_revisions(&a.revisions, 1));
    assert!(can_fold_tenants(&a.tenants, 3));
    assert!(can_fold_tenants(&a.tenants, 2));
    assert!(!can_fold_tenants(&a.tenants, 1));

    let x = Exposition::parse(&render(&input(a, SeriesLimits::default(), &Metrics::new()), number));
    assert_eq!(
        x.get(
            "tsls_revision_max_environments",
            &[("tenant", &tenant(1)), ("revision", "rev_01")]
        ),
        Some(f64::from(u32::MAX))
    );
}

/// The folded wait is the longest one, as numbers go.
#[test]
fn the_longest_folded_wait_is_kept() {
    let folded = |waits: &[Option<f64>]| -> Option<u64> {
        let rows: Vec<TenantMetrics> = waits
            .iter()
            .enumerate()
            .map(|(n, w)| TenantMetrics {
                tenant: tenant(n),
                in_flight: 0,
                queued: 0,
                oldest_wait_seconds: w.map(f64::to_bits),
                grants: 0,
                max_concurrency: None,
            })
            .collect();
        cap_tenants(&rows, 0).0[0].oldest_wait_seconds
    };
    assert_eq!(folded(&[None, None]), None);
    assert_eq!(folded(&[Some(2.5), None, Some(10.0)]), Some(10.0f64.to_bits()));
    assert_eq!(folded(&[Some(-1.0), Some(0.5)]), Some(0.5f64.to_bits()));
    assert_eq!(folded(&[Some(-1.0), Some(-2.0)]), Some((-1.0f64).to_bits()));
    assert_eq!(folded(&[Some(f64::NAN), Some(1.0)]), Some(1.0f64.to_bits()));
    assert_eq!(folded(&[Some(1.0), Some(f64::NAN)]), Some(1.0f64.to_bits()));
}

/// A phase that is not in the list is shown as `other`; of two with the same
/// kind of start the last one is.
#[test]
fn an_unknown_phase_is_shown_as_other() {
    let mut events = Metrics::new();
    events.observe_attempt("env", StartKind::Cold, "succeeded", &timings(120, 30), None);
    let mut i = input(admission(1), SeriesLimits::default(), &events);
    for (phase, kind, ms) in
        [("alpha", "cold", 1u64), ("zeta", "cold", 7), ("alpha", "thawed", 9), ("boot", "thawed", 2)]
    {
        let mut h = Histogram::new();
        h.observe(ms);
        i.events.phases.set(Key::two(phase, kind), h);
    }
    let text = render(&i, number);
    let x = Exposition::parse(&text);
    let sum = |phase: &str, kind: &str| {
        x.get("tsls_attempt_phase_seconds_sum", &[("phase", phase), ("start_kind", kind)])
    };
    assert_eq!(sum("other", "cold"), Some(0.007));
    assert_eq!(sum("other", "thawed"), Some(0.009));
    assert_eq!(sum("boot", "thawed"), Some(0.002));
    assert_eq!(sum("boot", "cold"), Some(0.12));
    assert_eq!(sum("alpha", "cold"), None);
    let last = text.rfind("{phase=\"total\"").unwrap();
    assert!(last < text.find("{phase=\"other\"").unwrap(), "other comes last");
}

#[test]
fn no_two_families_have_one_name() {
    let names: HashSet<&str> = catalog::FAMILIES.iter().map(|f| f.0).collect();
    assert_eq!(names.len(), catalog::FAMILY_COUNT);
    for name in names {
        assert!(!["_bucket", "_sum", "_count"].iter().any(|s| name.ends_with(s)));
    }
}

#[test]
fn an_escaped_value_grows_by_what_is_escaped() {
    assert_eq!(escape("plain \u{e9} text"), "plain \u{e9} text");
    assert_eq!(escape(""), "");
    let odd = "a\\b\"c\nd\\n";
    assert_eq!(escape(odd), "a\\\\b\\\"c\\nd\\\\n");
    assert_eq!(escape(odd).len(), odd.len() + 4);
    assert!(!escape(odd).contains('\n'));
    assert_ne!(escape("\\n"), escape("\n"));
}

/// Tenants are ranked by what they have queued, then in flight, then granted,
/// then by their ids.
#[test]
fn ties_between_tenants_are_broken_in_order() {
    let row = |tenant: &str, queued: u64, in_flight: u64, grants: u64| TenantMetrics {
        tenant: tenant.to_string(),
        in_flight,
        queued,
        oldest_wait_seconds: None,
        grants,
        max_concurrency: None,
    };
    let rows = vec![
        row("f", 0, 9, 9),
        row("e", 1, 0, 9),
        row("d", 1, 1, 0),
        row("c", 1, 1, 1),
        row("b", 1, 1, 1),
        row("a", 2, 0, 0),
    ];
    for (limit, want) in [
        (1, vec!["a"]),
        (2, vec!["a", "b"]),
        (3, vec!["a", "b", "c"]),
        (4, vec!["a", "b", "c", "d"]),
        (5, vec!["a", "b", "c", "d", "e"]),
    ] {
        let (kept, folded) = cap_tenants(&rows, limit);
        let names: Vec<&str> = kept.iter().take(limit).map(|r| r.tenant.as_str()).collect();
        assert_eq!((names, folded), (want, 6 - limit));
    }
}
