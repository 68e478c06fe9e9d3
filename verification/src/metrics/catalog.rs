//! The metric families of the exposition, with their type and help text.

use vstd::prelude::*;

use crate::text;

verus! {

/// Number of families.
pub const FAMILY_COUNT: usize = 91;

/// Name, type and help of every family. Units are in the names.
pub const FAMILIES: [(&'static str, &'static str, &'static str); 91] = [
    (
        "tsls_build_info",
        "gauge",
        "Gateway version (value is always 1).",
    ),
    (
        "tsls_environment_reuse_mode",
        "gauge",
        "1 for the active mode: warm_reuse (pooled environments are reused) or every_invocation_boots (no warm stage: every invocation boots its own environment).",
    ),
    (
        "tsls_pool_reuse_enabled",
        "gauge",
        "1 when the provider's idle capabilities and [pool] enabled allow environment reuse.",
    ),
    (
        "tsls_pool_held_environments",
        "gauge",
        "Environments whose bridge session the pool holds (idle or being quiesced).",
    ),
    (
        "tsls_pool_quiescing_environments",
        "gauge",
        "Environments on their way into the pool (being quiesced).",
    ),
    (
        "tsls_node_info",
        "gauge",
        "The node this gateway schedules on (value is always 1).",
    ),
    (
        "tsls_node_capacity_cpu_millicores",
        "gauge",
        "Configured node CPU ([capacity.node] cpu_millis). Absent when unbounded.",
    ),
    (
        "tsls_node_capacity_memory_bytes",
        "gauge",
        "Configured node memory. Absent when unbounded.",
    ),
    (
        "tsls_node_capacity_ephemeral_storage_bytes",
        "gauge",
        "Configured node ephemeral storage. Absent when unbounded.",
    ),
    (
        "tsls_node_reserved_cpu_millicores",
        "gauge",
        "CPU reserved by live reservations (starting, busy, parking, idle, draining) including per-environment overhead.",
    ),
    (
        "tsls_node_reserved_memory_bytes",
        "gauge",
        "Memory reserved by live reservations including per-environment overhead.",
    ),
    (
        "tsls_node_reserved_ephemeral_storage_bytes",
        "gauge",
        "Ephemeral storage reserved by live reservations.",
    ),
    (
        "tsls_node_environment_overhead_memory_bytes",
        "gauge",
        "Per-environment VMM + bridge memory overhead added to every reservation.",
    ),
    (
        "tsls_node_max_concurrency",
        "gauge",
        "[capacity] max_concurrency: the cap on promised + starting + busy.",
    ),
    (
        "tsls_node_in_flight",
        "gauge",
        "Promised + starting + busy reservations on the node.",
    ),
    (
        "tsls_environments",
        "gauge",
        "Environments on the node by admission state (promised, starting, busy, parking, idle, draining). idle is the ready pool.",
    ),
    (
        "tsls_revision_environments",
        "gauge",
        "Environments of a revision by admission state.",
    ),
    (
        "tsls_revision_desired_environments",
        "gauge",
        "The autoscaler's desired environments for a revision.",
    ),
    (
        "tsls_revision_max_environments",
        "gauge",
        "A revision's max_concurrency (its environment cap).",
    ),
    (
        "tsls_revision_min_ready",
        "gauge",
        "A revision's min_ready.",
    ),
    (
        "tsls_revision_queue_length",
        "gauge",
        "Invocations of a revision waiting for admission.",
    ),
    (
        "tsls_revision_circuit_breaker_state",
        "gauge",
        "Start-failure breaker of a revision: 0 closed, 1 half_open, 2 open.",
    ),
    (
        "tsls_queue_length",
        "gauge",
        "Invocations waiting for admission.",
    ),
    (
        "tsls_queue_bytes",
        "gauge",
        "Payload bytes held by waiting invocations.",
    ),
    (
        "tsls_queue_max_length",
        "gauge",
        "[capacity] max_queue.",
    ),
    (
        "tsls_queue_max_bytes",
        "gauge",
        "[capacity] max_queue_bytes.",
    ),
    (
        "tsls_queue_oldest_age_seconds",
        "gauge",
        "Age of the oldest waiting invocation (0 when the queue is empty).",
    ),
    (
        "tsls_tenant_queue_length",
        "gauge",
        "Invocations of a tenant waiting for admission.",
    ),
    (
        "tsls_tenant_queue_oldest_age_seconds",
        "gauge",
        "Age of a tenant's oldest waiting invocation (0 when none).",
    ),
    (
        "tsls_tenant_in_flight",
        "gauge",
        "Promised + starting + busy of a tenant.",
    ),
    (
        "tsls_tenant_max_concurrency",
        "gauge",
        "A tenant's concurrency quota. Absent when unlimited.",
    ),
    (
        "tsls_tenant_grants_total",
        "counter",
        "Admission grants to a tenant (cold and warm).",
    ),
    (
        "tsls_start_rate_tokens",
        "gauge",
        "Cold-start tokens available now.",
    ),
    (
        "tsls_admission_arrivals_total",
        "counter",
        "Invocations that asked admission for the first time.",
    ),
    (
        "tsls_admission_grants_total",
        "counter",
        "Admission grants by kind: cold (a new environment reserved) or warm (a pooled environment promised).",
    ),
    (
        "tsls_admission_rejections_total",
        "counter",
        "Admission refusals by reason (queue_full, quota, capacity, queue_deadline, circuit_open, placement, function_deleted).",
    ),
    (
        "tsls_admission_coalesced_waits_total",
        "counter",
        "Grants to invocations the autoscaler gate held back while enough environments were ready or starting (activation coalescing).",
    ),
    (
        "tsls_admission_starts_avoided_total",
        "counter",
        "Coalesced waits served by an existing environment instead of a new boot.",
    ),
    (
        "tsls_environment_starts_total",
        "counter",
        "Cold start results reported to the circuit breakers (success, failure).",
    ),
    (
        "tsls_circuit_breaker_opens_total",
        "counter",
        "Times a revision's start-failure breaker opened.",
    ),
    (
        "tsls_scale_events_total",
        "counter",
        "Scale decisions by kind (activation, scale_up, prestart, scale_down, scale_to_zero, drain) and reason.",
    ),
    (
        "tsls_gate_refusals_total",
        "counter",
        "Invocations or cold starts the invoke gate refused (configuration, authorization, control-plane outage), by error_type.",
    ),
    (
        "tsls_attempts_total",
        "counter",
        "Finished attempts by start kind (cold, warm, restored) and status.",
    ),
    (
        "tsls_attempt_phase_seconds",
        "histogram",
        "Host-measured phase durations by phase (queue_wait, boot, init, resume, handler, total) and start kind. boot and init are recorded for starts that booted only.",
    ),
    (
        "tsls_boot_identity_checks_total",
        "counter",
        "Attempt guest boot ids compared with the first boot id of their environment: first_boot, same_boot (reuse of the same guest), boot_changed (must stay 0), unreported (no guest kernel).",
    ),
    (
        "tsls_environment_cpu_seconds_total",
        "counter",
        "Host CPU time of a live environment as its provider measures it (scope label says what was measured).",
    ),
    (
        "tsls_environment_memory_bytes",
        "gauge",
        "Memory currently charged to a live environment.",
    ),
    (
        "tsls_environment_memory_peak_bytes",
        "gauge",
        "Highest memory charged to a live environment.",
    ),
    (
        "tsls_environment_stats",
        "gauge",
        "Live environments of this dispatcher whose host usage was available or unavailable in this scrape.",
    ),
    (
        "tsls_idle_environment_cpu_seconds_total",
        "counter",
        "Host CPU spent by environments that were idle in two successive samples (scrapes).",
    ),
    (
        "tsls_idle_environment_cpu_ratio_max",
        "gauge",
        "Highest CPU seconds per wall second among environments idle in the last two samples (0 when none).",
    ),
    (
        "tsls_idle_environments_sampled",
        "gauge",
        "Environments the last idle CPU round measured.",
    ),
    (
        "tsls_dispatcher_fenced",
        "gauge",
        "1 when this dispatcher lost its lease and takes no new work.",
    ),
    (
        "tsls_dispatcher_heartbeats_total",
        "counter",
        "Dispatcher lease heartbeats by result (renewed, fenced, error).",
    ),
    (
        "tsls_dispatcher_slot_lease_renewals_total",
        "counter",
        "Slot leases renewed by heartbeats.",
    ),
    (
        "tsls_config_generation",
        "gauge",
        "Highest configuration generation applied to the cache.",
    ),
    (
        "tsls_config_synced",
        "gauge",
        "1 once the configuration cache received a delivery.",
    ),
    (
        "tsls_config_consecutive_failures",
        "gauge",
        "Failed configuration refreshes since the last success (>0: control plane unreachable).",
    ),
    (
        "tsls_config_valid_remaining_seconds",
        "gauge",
        "Seconds the delivered configuration stays valid without a refresh (negative: expired).",
    ),
    (
        "tsls_auth_lease_remaining_seconds",
        "gauge",
        "Seconds the delivered authorization grants stay valid (negative: expired).",
    ),
    (
        "tsls_config_reconnects_total",
        "counter",
        "Refreshes that succeeded after at least one failure.",
    ),
    (
        "tsls_config_entries",
        "gauge",
        "Entries in the configuration cache.",
    ),
    (
        "tsls_async_outbox_pending_events",
        "gauge",
        "Accepted asynchronous invocations whose event is not published to the queue yet.",
    ),
    (
        "tsls_async_outbox_oldest_pending_age_seconds",
        "gauge",
        "Age of the oldest unpublished outbox event (0 when none).",
    ),
    (
        "tsls_async_outbox_sent_retained_events",
        "gauge",
        "Published outbox events still retained (sent_retention_seconds).",
    ),
    (
        "tsls_async_queue_condition",
        "gauge",
        "1 for the queue condition the outbox publisher last saw (healthy, full, unavailable).",
    ),
    (
        "tsls_trigger_scheduler_owner",
        "gauge",
        "1 when this gateway held the cron scheduler lease on its last pass.",
    ),
    (
        "tsls_trigger_cron_fires_total",
        "counter",
        "Scheduled cron times handled by result (accepted, already_fired, refused, deferred, inactive).",
    ),
    (
        "tsls_trigger_cron_missed_runs_total",
        "counter",
        "Late scheduled cron times by what the missed-run policy did (run, skipped).",
    ),
    (
        "tsls_trigger_webhook_deliveries_total",
        "counter",
        "Webhook deliveries by result (accepted, replayed, signature_refused, timestamp_refused, too_large, invalid_event_id, disabled, not_found, refused).",
    ),
    (
        "tsls_usage_journal_healthy",
        "gauge",
        "1 when the usage journal can be read and written (PLT-4642).",
    ),
    (
        "tsls_usage_journal_admitting",
        "gauge",
        "1 when the usage journal has more than its admission headroom left: new invocations are admitted metered.",
    ),
    (
        "tsls_usage_journal_pending_events",
        "gauge",
        "Usage events written to the journal and not yet delivered to the usage ledger.",
    ),
    (
        "tsls_usage_journal_pending_bytes",
        "gauge",
        "Bytes of the pending usage events.",
    ),
    (
        "tsls_usage_journal_max_events",
        "gauge",
        "[usage] journal_max_events.",
    ),
    (
        "tsls_usage_journal_max_bytes",
        "gauge",
        "[usage] journal_max_bytes.",
    ),
    (
        "tsls_usage_unjournaled_events_total",
        "counter",
        "Usage events the journal refused (full or unavailable): unmetered, never estimated.",
    ),
    (
        "tsls_usage_collector_runs_total",
        "counter",
        "Usage collector runs of this process.",
    ),
    (
        "tsls_usage_collector_failing",
        "gauge",
        "1 when the last usage collector run failed (ledger unavailable, journal integrity).",
    ),
    (
        "tsls_usage_collector_last_success_age_seconds",
        "gauge",
        "Seconds since the usage collector last delivered successfully (collector lag). Absent before the first success.",
    ),
    (
        "tsls_usage_collector_delivered_events_total",
        "counter",
        "Journal entries this process's collector delivered to the ledger (re-deliveries included).",
    ),
    (
        "tsls_usage_ledger_events",
        "gauge",
        "Distinct usage events in the usage ledger.",
    ),
    (
        "tsls_usage_ledger_duplicates_ignored_total",
        "counter",
        "Deliveries the usage ledger dropped because it already had the event id.",
    ),
    (
        "tsls_async_dispatch_deliveries_total",
        "counter",
        "Queue deliveries the dispatcher handled, by outcome (completed, rescheduled, dead_lettered, skipped_terminal, skipped_stale, skipped_claimed, not_due, poison, failed, lost_claim).",
    ),
    (
        "tsls_async_dispatch_queue_operations_total",
        "counter",
        "ack / nak / term calls on the queue, by result (ok, error). An ack is only sent after the ledger commit.",
    ),
    (
        "tsls_async_dispatch_runs_in_flight",
        "gauge",
        "Asynchronous deliveries being handled by this gateway now.",
    ),
    (
        "tsls_async_retries_scheduled_total",
        "counter",
        "Next tries committed with the next outbox generation: retry (counted against max_attempts) or deferral (capacity, retry budget, shutdown; not counted).",
    ),
    (
        "tsls_async_dead_letters_total",
        "counter",
        "Dead letters committed by this gateway, by reason.",
    ),
    (
        "tsls_async_redrives_total",
        "counter",
        "Dead letters redriven into a new asynchronous invocation.",
    ),
    (
        "tsls_async_reaper_actions_total",
        "counter",
        "What the reaper committed: abandoned (a run whose claim expired, rescheduled), republished (an event the broker lost), dead_lettered, lost (fence moved on), failed.",
    ),
    (
        "tsls_metrics_series_truncated",
        "gauge",
        "Label sets folded into the _other series of a family because of the [metrics] cardinality caps.",
    ),
];

/// Place of `tsls_build_info`.
pub const BUILD_INFO: usize = 0;

/// Place of `tsls_environment_reuse_mode`.
pub const ENVIRONMENT_REUSE_MODE: usize = 1;

/// Place of `tsls_pool_reuse_enabled`.
pub const POOL_REUSE_ENABLED: usize = 2;

/// Place of `tsls_pool_held_environments`.
pub const POOL_HELD_ENVIRONMENTS: usize = 3;

/// Place of `tsls_pool_quiescing_environments`.
pub const POOL_QUIESCING_ENVIRONMENTS: usize = 4;

/// Place of `tsls_node_info`.
pub const NODE_INFO: usize = 5;

/// Place of `tsls_node_capacity_cpu_millicores`.
pub const NODE_CAPACITY_CPU_MILLICORES: usize = 6;

/// Place of `tsls_node_capacity_memory_bytes`.
pub const NODE_CAPACITY_MEMORY_BYTES: usize = 7;

/// Place of `tsls_node_capacity_ephemeral_storage_bytes`.
pub const NODE_CAPACITY_EPHEMERAL_STORAGE_BYTES: usize = 8;

/// Place of `tsls_node_reserved_cpu_millicores`.
pub const NODE_RESERVED_CPU_MILLICORES: usize = 9;

/// Place of `tsls_node_reserved_memory_bytes`.
pub const NODE_RESERVED_MEMORY_BYTES: usize = 10;

/// Place of `tsls_node_reserved_ephemeral_storage_bytes`.
pub const NODE_RESERVED_EPHEMERAL_STORAGE_BYTES: usize = 11;

/// Place of `tsls_node_environment_overhead_memory_bytes`.
pub const NODE_ENVIRONMENT_OVERHEAD_MEMORY_BYTES: usize = 12;

/// Place of `tsls_node_max_concurrency`.
pub const NODE_MAX_CONCURRENCY: usize = 13;

/// Place of `tsls_node_in_flight`.
pub const NODE_IN_FLIGHT: usize = 14;

/// Place of `tsls_environments`.
pub const ENVIRONMENTS: usize = 15;

/// Place of `tsls_revision_environments`.
pub const REVISION_ENVIRONMENTS: usize = 16;

/// Place of `tsls_revision_desired_environments`.
pub const REVISION_DESIRED_ENVIRONMENTS: usize = 17;

/// Place of `tsls_revision_max_environments`.
pub const REVISION_MAX_ENVIRONMENTS: usize = 18;

/// Place of `tsls_revision_min_ready`.
pub const REVISION_MIN_READY: usize = 19;

/// Place of `tsls_revision_queue_length`.
pub const REVISION_QUEUE_LENGTH: usize = 20;

/// Place of `tsls_revision_circuit_breaker_state`.
pub const REVISION_CIRCUIT_BREAKER_STATE: usize = 21;

/// Place of `tsls_queue_length`.
pub const QUEUE_LENGTH: usize = 22;

/// Place of `tsls_queue_bytes`.
pub const QUEUE_BYTES: usize = 23;

/// Place of `tsls_queue_max_length`.
pub const QUEUE_MAX_LENGTH: usize = 24;

/// Place of `tsls_queue_max_bytes`.
pub const QUEUE_MAX_BYTES: usize = 25;

/// Place of `tsls_queue_oldest_age_seconds`.
pub const QUEUE_OLDEST_AGE_SECONDS: usize = 26;

/// Place of `tsls_tenant_queue_length`.
pub const TENANT_QUEUE_LENGTH: usize = 27;

/// Place of `tsls_tenant_queue_oldest_age_seconds`.
pub const TENANT_QUEUE_OLDEST_AGE_SECONDS: usize = 28;

/// Place of `tsls_tenant_in_flight`.
pub const TENANT_IN_FLIGHT: usize = 29;

/// Place of `tsls_tenant_max_concurrency`.
pub const TENANT_MAX_CONCURRENCY: usize = 30;

/// Place of `tsls_tenant_grants_total`.
pub const TENANT_GRANTS_TOTAL: usize = 31;

/// Place of `tsls_start_rate_tokens`.
pub const START_RATE_TOKENS: usize = 32;

/// Place of `tsls_admission_arrivals_total`.
pub const ADMISSION_ARRIVALS_TOTAL: usize = 33;

/// Place of `tsls_admission_grants_total`.
pub const ADMISSION_GRANTS_TOTAL: usize = 34;

/// Place of `tsls_admission_rejections_total`.
pub const ADMISSION_REJECTIONS_TOTAL: usize = 35;

/// Place of `tsls_admission_coalesced_waits_total`.
pub const ADMISSION_COALESCED_WAITS_TOTAL: usize = 36;

/// Place of `tsls_admission_starts_avoided_total`.
pub const ADMISSION_STARTS_AVOIDED_TOTAL: usize = 37;

/// Place of `tsls_environment_starts_total`.
pub const ENVIRONMENT_STARTS_TOTAL: usize = 38;

/// Place of `tsls_circuit_breaker_opens_total`.
pub const CIRCUIT_BREAKER_OPENS_TOTAL: usize = 39;

/// Place of `tsls_scale_events_total`.
pub const SCALE_EVENTS_TOTAL: usize = 40;

/// Place of `tsls_gate_refusals_total`.
pub const GATE_REFUSALS_TOTAL: usize = 41;

/// Place of `tsls_attempts_total`.
pub const ATTEMPTS_TOTAL: usize = 42;

/// Place of `tsls_attempt_phase_seconds`.
pub const ATTEMPT_PHASE_SECONDS: usize = 43;

/// Place of `tsls_boot_identity_checks_total`.
pub const BOOT_IDENTITY_CHECKS_TOTAL: usize = 44;

/// Place of `tsls_environment_cpu_seconds_total`.
pub const ENVIRONMENT_CPU_SECONDS_TOTAL: usize = 45;

/// Place of `tsls_environment_memory_bytes`.
pub const ENVIRONMENT_MEMORY_BYTES: usize = 46;

/// Place of `tsls_environment_memory_peak_bytes`.
pub const ENVIRONMENT_MEMORY_PEAK_BYTES: usize = 47;

/// Place of `tsls_environment_stats`.
pub const ENVIRONMENT_STATS: usize = 48;

/// Place of `tsls_idle_environment_cpu_seconds_total`.
pub const IDLE_ENVIRONMENT_CPU_SECONDS_TOTAL: usize = 49;

/// Place of `tsls_idle_environment_cpu_ratio_max`.
pub const IDLE_ENVIRONMENT_CPU_RATIO_MAX: usize = 50;

/// Place of `tsls_idle_environments_sampled`.
pub const IDLE_ENVIRONMENTS_SAMPLED: usize = 51;

/// Place of `tsls_dispatcher_fenced`.
pub const DISPATCHER_FENCED: usize = 52;

/// Place of `tsls_dispatcher_heartbeats_total`.
pub const DISPATCHER_HEARTBEATS_TOTAL: usize = 53;

/// Place of `tsls_dispatcher_slot_lease_renewals_total`.
pub const DISPATCHER_SLOT_LEASE_RENEWALS_TOTAL: usize = 54;

/// Place of `tsls_config_generation`.
pub const CONFIG_GENERATION: usize = 55;

/// Place of `tsls_config_synced`.
pub const CONFIG_SYNCED: usize = 56;

/// Place of `tsls_config_consecutive_failures`.
pub const CONFIG_CONSECUTIVE_FAILURES: usize = 57;

/// Place of `tsls_config_valid_remaining_seconds`.
pub const CONFIG_VALID_REMAINING_SECONDS: usize = 58;

/// Place of `tsls_auth_lease_remaining_seconds`.
pub const AUTH_LEASE_REMAINING_SECONDS: usize = 59;

/// Place of `tsls_config_reconnects_total`.
pub const CONFIG_RECONNECTS_TOTAL: usize = 60;

/// Place of `tsls_config_entries`.
pub const CONFIG_ENTRIES: usize = 61;

/// Place of `tsls_async_outbox_pending_events`.
pub const ASYNC_OUTBOX_PENDING_EVENTS: usize = 62;

/// Place of `tsls_async_outbox_oldest_pending_age_seconds`.
pub const ASYNC_OUTBOX_OLDEST_PENDING_AGE_SECONDS: usize = 63;

/// Place of `tsls_async_outbox_sent_retained_events`.
pub const ASYNC_OUTBOX_SENT_RETAINED_EVENTS: usize = 64;

/// Place of `tsls_async_queue_condition`.
pub const ASYNC_QUEUE_CONDITION: usize = 65;

/// Place of `tsls_trigger_scheduler_owner`.
pub const TRIGGER_SCHEDULER_OWNER: usize = 66;

/// Place of `tsls_trigger_cron_fires_total`.
pub const TRIGGER_CRON_FIRES_TOTAL: usize = 67;

/// Place of `tsls_trigger_cron_missed_runs_total`.
pub const TRIGGER_CRON_MISSED_RUNS_TOTAL: usize = 68;

/// Place of `tsls_trigger_webhook_deliveries_total`.
pub const TRIGGER_WEBHOOK_DELIVERIES_TOTAL: usize = 69;

/// Place of `tsls_usage_journal_healthy`.
pub const USAGE_JOURNAL_HEALTHY: usize = 70;

/// Place of `tsls_usage_journal_admitting`.
pub const USAGE_JOURNAL_ADMITTING: usize = 71;

/// Place of `tsls_usage_journal_pending_events`.
pub const USAGE_JOURNAL_PENDING_EVENTS: usize = 72;

/// Place of `tsls_usage_journal_pending_bytes`.
pub const USAGE_JOURNAL_PENDING_BYTES: usize = 73;

/// Place of `tsls_usage_journal_max_events`.
pub const USAGE_JOURNAL_MAX_EVENTS: usize = 74;

/// Place of `tsls_usage_journal_max_bytes`.
pub const USAGE_JOURNAL_MAX_BYTES: usize = 75;

/// Place of `tsls_usage_unjournaled_events_total`.
pub const USAGE_UNJOURNALED_EVENTS_TOTAL: usize = 76;

/// Place of `tsls_usage_collector_runs_total`.
pub const USAGE_COLLECTOR_RUNS_TOTAL: usize = 77;

/// Place of `tsls_usage_collector_failing`.
pub const USAGE_COLLECTOR_FAILING: usize = 78;

/// Place of `tsls_usage_collector_last_success_age_seconds`.
pub const USAGE_COLLECTOR_LAST_SUCCESS_AGE_SECONDS: usize = 79;

/// Place of `tsls_usage_collector_delivered_events_total`.
pub const USAGE_COLLECTOR_DELIVERED_EVENTS_TOTAL: usize = 80;

/// Place of `tsls_usage_ledger_events`.
pub const USAGE_LEDGER_EVENTS: usize = 81;

/// Place of `tsls_usage_ledger_duplicates_ignored_total`.
pub const USAGE_LEDGER_DUPLICATES_IGNORED_TOTAL: usize = 82;

/// Place of `tsls_async_dispatch_deliveries_total`.
pub const ASYNC_DISPATCH_DELIVERIES_TOTAL: usize = 83;

/// Place of `tsls_async_dispatch_queue_operations_total`.
pub const ASYNC_DISPATCH_QUEUE_OPERATIONS_TOTAL: usize = 84;

/// Place of `tsls_async_dispatch_runs_in_flight`.
pub const ASYNC_DISPATCH_RUNS_IN_FLIGHT: usize = 85;

/// Place of `tsls_async_retries_scheduled_total`.
pub const ASYNC_RETRIES_SCHEDULED_TOTAL: usize = 86;

/// Place of `tsls_async_dead_letters_total`.
pub const ASYNC_DEAD_LETTERS_TOTAL: usize = 87;

/// Place of `tsls_async_redrives_total`.
pub const ASYNC_REDRIVES_TOTAL: usize = 88;

/// Place of `tsls_async_reaper_actions_total`.
pub const ASYNC_REAPER_ACTIONS_TOTAL: usize = 89;

/// Place of `tsls_metrics_series_truncated`.
pub const METRICS_SERIES_TRUNCATED: usize = 90;

/// Name of a family.
pub closed spec fn name_of(family: int) -> Seq<char> {
    FAMILIES@[family].0@
}

/// Type of a family.
pub closed spec fn kind_of(family: int) -> Seq<char> {
    FAMILIES@[family].1@
}

/// Help text of a family.
pub closed spec fn help_of(family: int) -> Seq<char> {
    FAMILIES@[family].2@
}

/// The name, the type and the help text of a family are those that stand at
/// its place.
pub proof fn lemma_family_at(family: int)
    requires
        0 <= family < FAMILY_COUNT,
    ensures
        name_of(family) == FAMILIES@[family].0@,
        kind_of(family) == FAMILIES@[family].1@,
        help_of(family) == FAMILIES@[family].2@,
{
}

/// Name, type and help text of the family at a place.
pub fn entry(family: usize) -> (r: (&'static str, &'static str, &'static str))
    requires
        family < FAMILY_COUNT,
    ensures
        r.0@ == name_of(family as int),
        r.1@ == kind_of(family as int),
        r.2@ == help_of(family as int),
{
    FAMILIES[family]
}

/// The first family that has the name.
pub open spec fn place_of(name: Seq<char>, family: int) -> bool {
    &&& 0 <= family < FAMILY_COUNT
    &&& name_of(family) == name
    &&& forall|j: int| 0 <= j < family ==> #[trigger] name_of(j) != name
}

/// The type and the help text of a family.
pub fn family(name: &str) -> (r: Option<(&'static str, &'static str)>)
    ensures
        match r {
            Some((kind, help)) => exists|i: int| #[trigger]
                place_of(name@, i) && kind@ == kind_of(i) && help@ == help_of(i),
            None => forall|i: int| 0 <= i < FAMILY_COUNT ==> #[trigger] name_of(i) != name@,
        },
{
    let mut i: usize = 0;
    while i < FAMILY_COUNT
        invariant
            i <= FAMILY_COUNT,
            forall|j: int| 0 <= j < i ==> #[trigger] name_of(j) != name@,
        decreases FAMILY_COUNT - i,
    {
        let (n, kind, help) = entry(i);
        if text::same_text(n, name) {
            assert(place_of(name@, i as int));
            return Some((kind, help));
        }
        i += 1;
    }
    None
}

} // verus!
