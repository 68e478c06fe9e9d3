//! Everything one exposition is made of. Real numbers are given by the bits
//! of their double-precision value.

use vstd::prelude::*;

use crate::metrics::dispatch::AsyncDispatchSnapshot;
use crate::metrics::tally::Tally;
use crate::metrics::MetricsSnapshot;
use crate::time::Timestamp;

verus! {

/// Cardinality caps.
#[derive(Debug, Clone, Copy, PartialEq, Eq, Structural)]
pub struct SeriesLimits {
    pub revisions: usize,
    pub tenants: usize,
    pub environments: usize,
}

impl Default for SeriesLimits {
    fn default() -> (r: Self)
        ensures
            r == (SeriesLimits { revisions: 64, tenants: 32, environments: 128 }),
    {
        SeriesLimits { revisions: 64, tenants: 32, environments: 128 }
    }
}

/// Environments by admission state.
#[derive(Debug, Clone, Copy, PartialEq, Eq, Structural)]
pub struct EnvironmentCounts {
    pub starting: u64,
    pub busy: u64,
    pub promised: u64,
    pub parking: u64,
    pub idle: u64,
    pub draining: u64,
}

/// One revision as admission sees it.
#[derive(Debug, PartialEq, Eq)]
pub struct RevisionMetrics {
    pub tenant: String,
    pub revision: String,
    pub environments: EnvironmentCounts,
    pub desired: u32,
    pub max_environments: u32,
    pub min_ready: u32,
    pub queued: u32,
    /// State of the start-failure breaker.
    pub breaker: &'static str,
}

/// One tenant as admission sees it.
#[derive(Debug, PartialEq, Eq)]
pub struct TenantMetrics {
    pub tenant: String,
    pub in_flight: u64,
    pub queued: u64,
    /// Bits of the seconds its oldest invocation waits.
    pub oldest_wait_seconds: Option<u64>,
    pub grants: u64,
    pub max_concurrency: Option<u64>,
}

/// Capacity of the node; `None` where it is unbounded.
#[derive(Debug, Clone, Copy, PartialEq, Eq, Structural)]
pub struct NodeCapacity {
    pub cpu_millis: Option<u64>,
    pub memory_mib: Option<u64>,
    pub ephemeral_storage_mib: Option<u64>,
}

/// Resources in use.
#[derive(Debug, Clone, Copy, PartialEq, Eq, Structural)]
pub struct Resources {
    pub cpu_millis: u64,
    pub memory_mib: u64,
    pub ephemeral_storage_mib: u64,
}

/// Admission events.
pub struct AdmissionCounters {
    pub arrivals: u64,
    pub grants_cold: u64,
    pub grants_warm: u64,
    pub coalesced_waits: u64,
    pub starts_avoided: u64,
    pub start_successes: u64,
    pub start_failures: u64,
    pub breaker_opens: u64,
    /// Scale decisions by kind and reason.
    pub scale_events: Tally,
}

/// The state of admission.
pub struct AdmissionMetrics {
    pub node_name: String,
    pub capacity: NodeCapacity,
    pub reserved: Resources,
    /// What every environment costs on top of its reservation.
    pub overhead: Resources,
    pub max_concurrency: u64,
    pub in_flight: u64,
    pub environments: EnvironmentCounts,
    pub revisions: Vec<RevisionMetrics>,
    pub queue_length: u64,
    pub queue_bytes: u64,
    pub max_queue: u64,
    pub max_queue_bytes: u64,
    /// Bits of the seconds the oldest invocation waits.
    pub oldest_wait_seconds: Option<u64>,
    pub tenants: Vec<TenantMetrics>,
    pub start_tokens: u32,
    pub counters: AdmissionCounters,
    /// Refusals by reason.
    pub rejections: Tally,
}

/// Host usage of an environment as its provider measures it.
#[derive(Debug, PartialEq, Eq)]
pub struct EnvironmentStats {
    /// Bits of the CPU seconds.
    pub cpu_seconds: Option<u64>,
    pub memory_current_bytes: Option<u64>,
    pub memory_peak_bytes: Option<u64>,
    /// What was measured.
    pub scope: String,
}

/// One live environment and its host usage.
#[derive(Debug, PartialEq, Eq)]
pub struct EnvironmentUsage {
    pub environment: String,
    pub tenant: String,
    pub revision: String,
    /// State in the ledger.
    pub state: &'static str,
    pub stats: Option<EnvironmentStats>,
}

/// The configuration cache.
#[derive(Debug, Clone, Copy, PartialEq, Eq, Structural)]
pub struct CacheStatus {
    pub generation: u64,
    pub ever_synced: bool,
    pub consecutive_failures: u32,
    pub config_valid_until: Option<Timestamp>,
    pub auth_valid_until: Option<Timestamp>,
    pub reconnects: u64,
    pub entries: u64,
}

/// Usage metering.
#[derive(Debug, Clone, Copy, PartialEq, Eq, Structural)]
pub struct UsageMetrics {
    pub journal_healthy: bool,
    /// New invocations are admitted metered.
    pub journal_admitting: bool,
    pub journal_pending_events: u64,
    pub journal_pending_bytes: u64,
    pub journal_max_events: u64,
    pub journal_max_bytes: u64,
    pub unjournaled_events: u64,
    pub collector_runs: u64,
    pub collector_failing: bool,
    pub collector_last_success_at: Option<Timestamp>,
    pub collector_delivered: u64,
    pub ledger_events: Option<u64>,
    pub ledger_duplicates_ignored: Option<u64>,
}

/// The outbox's backlog and the queue as its publisher last saw it.
#[derive(Debug, PartialEq, Eq)]
pub struct OutboxMetrics {
    pub pending: u64,
    pub oldest_pending_at: Option<Timestamp>,
    pub sent_retained: u64,
    /// `healthy`, `full` or `unavailable`.
    pub queue_condition: &'static str,
}

/// Trigger counters.
pub struct TriggerMetricsSnapshot {
    pub scheduler_owner: bool,
    /// Scheduled times by result.
    pub cron: Tally,
    /// Late scheduled times by what was done.
    pub missed: Tally,
    /// Deliveries by result.
    pub webhook: Tally,
}

/// Everything one exposition renders.
pub struct MetricsInput {
    pub version: String,
    pub provider: String,
    pub reuse_enabled: bool,
    pub pool_held: u64,
    pub pool_quiescing: u64,
    pub admission: AdmissionMetrics,
    pub events: MetricsSnapshot,
    pub environments: Vec<EnvironmentUsage>,
    pub dispatcher_fenced: bool,
    pub config: CacheStatus,
    pub now: Timestamp,
    pub limits: SeriesLimits,
    /// Present where there is an outbox.
    pub outbox: Option<OutboxMetrics>,
    /// Present where there are triggers.
    pub triggers: Option<TriggerMetricsSnapshot>,
    pub usage: Option<UsageMetrics>,
    /// Present where the dispatcher runs.
    pub dispatch: Option<AsyncDispatchSnapshot>,
}

} // verus!
