//! The names of the families differ, and so do the names that samples are
//! written under.

use vstd::prelude::*;

use crate::metrics::catalog;
use crate::metrics::exposition::Suffix;

verus! {

/// The family that a name of the catalog belongs to: the length, the twelfth
/// character and the seventh from the end tell the names apart.
spec fn owner(name: Seq<char>) -> int {
    let n = name.len();
    let a = name[11];
    let b = name[n - 7];
    if n == 14 {
        5
    } else if n == 15 {
        0
    } else if n == 16 {
        23
    } else if n == 17 {
        if a == 'n' {
            15
        } else {
            22
        }
    } else if n == 18 {
        56
    } else if n == 19 {
        if a == 'n' {
            14
        } else if a == 't' {
            42
        } else {
            61
        }
    } else if n == 20 {
        25
    } else if n == 21 {
        if a == 'm' {
            24
        } else {
            29
        }
    } else if n == 22 {
        if a == 'r' {
            32
        } else if a == 'n' {
            48
        } else if a == 'c' {
            52
        } else {
            55
        }
    } else if n == 23 {
        if b == 'e' {
            2
        } else if a == 'o' {
            19
        } else {
            40
        }
    } else if n == 24 {
        if a == '_' && b == '_' {
            27
        } else if a == '_' {
            31
        } else if a == 'e' {
            41
        } else {
            81
        }
    } else if n == 25 {
        if a == 'a' {
            13
        } else {
            88
        }
    } else if n == 26 {
        if b == 'o' {
            16
        } else if a == 'o' {
            20
        } else if a == 't' {
            43
        } else if a == 'q' {
            65
        } else {
            70
        }
    } else if n == 27 {
        if a == 'n' {
            1
        } else if a == 'e' {
            3
        } else if a == '_' {
            30
        } else {
            34
        }
    } else if n == 28 {
        if a == '_' {
            60
        } else if a == 'r' {
            66
        } else if b == 'm' {
            71
        } else if a == 'j' {
            75
        } else {
            78
        }
    } else if n == 29 {
        if a == 'o' {
            26
        } else if a == 'i' {
            33
        } else if a == 'n' && b == 's' {
            38
        } else if a == 'n' {
            46
        } else if a == 'r' {
            67
        } else if a == 'j' {
            74
        } else if a == 'd' {
            87
        } else {
            90
        }
    } else if n == 30 {
        if a == 'o' {
            18
        } else {
            51
        }
    } else if n == 31 {
        if a == 'a' {
            7
        } else if a == 'e' {
            10
        } else if a == 'i' {
            35
        } else if a == 'd' {
            44
        } else if a == 'c' {
            77
        } else {
            89
        }
    } else if n == 32 {
        if a == 'u' {
            4
        } else if a == 't' {
            39
        } else if a == 'c' {
            53
        } else if a == '_' {
            57
        } else if a == 'o' {
            62
        } else {
            73
        }
    } else if n == 33 {
        if a == 'a' {
            6
        } else if b == 'l' {
            9
        } else if a == 'e' {
            59
        } else {
            72
        }
    } else if n == 34 {
        if a == 'o' {
            17
        } else if b == 's' {
            45
        } else if a == 'n' {
            47
        } else if a == 'd' {
            85
        } else {
            86
        }
    } else if n == 35 {
        if a == 'o' {
            21
        } else if a == 'i' {
            37
        } else if a == 'n' {
            50
        } else if a == '_' {
            58
        } else if a == 'r' {
            68
        } else {
            76
        }
    } else if n == 36 {
        if a == '_' {
            28
        } else if a == 'i' {
            36
        } else {
            83
        }
    } else if n == 37 {
        69
    } else if n == 38 {
        64
    } else if n == 39 {
        49
    } else if n == 41 {
        54
    } else if n == 42 {
        if a == 'a' {
            8
        } else if a == 'e' {
            11
        } else if a == 'l' {
            82
        } else {
            84
        }
    } else if n == 43 {
        if a == 'n' {
            12
        } else {
            80
        }
    } else if n == 44 {
        63
    } else if n == 45 {
        79
    } else {
        -1
    }
}

/// Told apart from the other names, and from a name with a suffix.
spec fn is_told(family: int) -> bool {
    let name = catalog::name_of(family);
    &&& name.len() >= 14
    &&& owner(name) == family
    &&& name[name.len() - 1] != 'm'
    &&& name[name.len() - 1] == 't' ==> name[name.len() - 2] == 'h'
}

proof fn lemma_told_0(family: int)
    requires
        0 <= family < 7,
    ensures
        is_told(family),
{
    catalog::lemma_family_at(family);
    reveal_strlit("tsls_build_info");
    reveal_strlit("tsls_environment_reuse_mode");
    reveal_strlit("tsls_pool_reuse_enabled");
    reveal_strlit("tsls_pool_held_environments");
    reveal_strlit("tsls_pool_quiescing_environments");
    reveal_strlit("tsls_node_info");
    reveal_strlit("tsls_node_capacity_cpu_millicores");
    assert(family == 0 || family == 1 || family == 2 || family == 3 || family == 4 || family == 5 || family == 6);
}

proof fn lemma_told_7(family: int)
    requires
        7 <= family < 14,
    ensures
        is_told(family),
{
    catalog::lemma_family_at(family);
    reveal_strlit("tsls_node_capacity_memory_bytes");
    reveal_strlit("tsls_node_capacity_ephemeral_storage_bytes");
    reveal_strlit("tsls_node_reserved_cpu_millicores");
    reveal_strlit("tsls_node_reserved_memory_bytes");
    reveal_strlit("tsls_node_reserved_ephemeral_storage_bytes");
    reveal_strlit("tsls_node_environment_overhead_memory_bytes");
    reveal_strlit("tsls_node_max_concurrency");
    assert(family == 7 || family == 8 || family == 9 || family == 10 || family == 11 || family == 12 || family == 13);
}

proof fn lemma_told_14(family: int)
    requires
        14 <= family < 21,
    ensures
        is_told(family),
{
    catalog::lemma_family_at(family);
    reveal_strlit("tsls_node_in_flight");
    reveal_strlit("tsls_environments");
    reveal_strlit("tsls_revision_environments");
    reveal_strlit("tsls_revision_desired_environments");
    reveal_strlit("tsls_revision_max_environments");
    reveal_strlit("tsls_revision_min_ready");
    reveal_strlit("tsls_revision_queue_length");
    assert(family == 14 || family == 15 || family == 16 || family == 17 || family == 18 || family == 19 || family == 20);
}

proof fn lemma_told_21(family: int)
    requires
        21 <= family < 28,
    ensures
        is_told(family),
{
    catalog::lemma_family_at(family);
    reveal_strlit("tsls_revision_circuit_breaker_state");
    reveal_strlit("tsls_queue_length");
    reveal_strlit("tsls_queue_bytes");
    reveal_strlit("tsls_queue_max_length");
    reveal_strlit("tsls_queue_max_bytes");
    reveal_strlit("tsls_queue_oldest_age_seconds");
    reveal_strlit("tsls_tenant_queue_length");
    assert(family == 21 || family == 22 || family == 23 || family == 24 || family == 25 || family == 26 || family == 27);
}

proof fn lemma_told_28(family: int)
    requires
        28 <= family < 35,
    ensures
        is_told(family),
{
    catalog::lemma_family_at(family);
    reveal_strlit("tsls_tenant_queue_oldest_age_seconds");
    reveal_strlit("tsls_tenant_in_flight");
    reveal_strlit("tsls_tenant_max_concurrency");
    reveal_strlit("tsls_tenant_grants_total");
    reveal_strlit("tsls_start_rate_tokens");
    reveal_strlit("tsls_admission_arrivals_total");
    reveal_strlit("tsls_admission_grants_total");
    assert(family == 28 || family == 29 || family == 30 || family == 31 || family == 32 || family == 33 || family == 34);
}

proof fn lemma_told_35(family: int)
    requires
        35 <= family < 42,
    ensures
        is_told(family),
{
    catalog::lemma_family_at(family);
    reveal_strlit("tsls_admission_rejections_total");
    reveal_strlit("tsls_admission_coalesced_waits_total");
    reveal_strlit("tsls_admission_starts_avoided_total");
    reveal_strlit("tsls_environment_starts_total");
    reveal_strlit("tsls_circuit_breaker_opens_total");
    reveal_strlit("tsls_scale_events_total");
    reveal_strlit("tsls_gate_refusals_total");
    assert(family == 35 || family == 36 || family == 37 || family == 38 || family == 39 || family == 40 || family == 41);
}

proof fn lemma_told_42(family: int)
    requires
        42 <= family < 49,
    ensures
        is_told(family),
{
    catalog::lemma_family_at(family);
    reveal_strlit("tsls_attempts_total");
    reveal_strlit("tsls_attempt_phase_seconds");
    reveal_strlit("tsls_boot_identity_checks_total");
    reveal_strlit("tsls_environment_cpu_seconds_total");
    reveal_strlit("tsls_environment_memory_bytes");
    reveal_strlit("tsls_environment_memory_peak_bytes");
    reveal_strlit("tsls_environment_stats");
    assert(family == 42 || family == 43 || family == 44 || family == 45 || family == 46 || family == 47 || family == 48);
}

proof fn lemma_told_49(family: int)
    requires
        49 <= family < 56,
    ensures
        is_told(family),
{
    catalog::lemma_family_at(family);
    reveal_strlit("tsls_idle_environment_cpu_seconds_total");
    reveal_strlit("tsls_idle_environment_cpu_ratio_max");
    reveal_strlit("tsls_idle_environments_sampled");
    reveal_strlit("tsls_dispatcher_fenced");
    reveal_strlit("tsls_dispatcher_heartbeats_total");
    reveal_strlit("tsls_dispatcher_slot_lease_renewals_total");
    reveal_strlit("tsls_config_generation");
    assert(family == 49 || family == 50 || family == 51 || family == 52 || family == 53 || family == 54 || family == 55);
}

proof fn lemma_told_56(family: int)
    requires
        56 <= family < 63,
    ensures
        is_told(family),
{
    catalog::lemma_family_at(family);
    reveal_strlit("tsls_config_synced");
    reveal_strlit("tsls_config_consecutive_failures");
    reveal_strlit("tsls_config_valid_remaining_seconds");
    reveal_strlit("tsls_auth_lease_remaining_seconds");
    reveal_strlit("tsls_config_reconnects_total");
    reveal_strlit("tsls_config_entries");
    reveal_strlit("tsls_async_outbox_pending_events");
    assert(family == 56 || family == 57 || family == 58 || family == 59 || family == 60 || family == 61 || family == 62);
}

proof fn lemma_told_63(family: int)
    requires
        63 <= family < 70,
    ensures
        is_told(family),
{
    catalog::lemma_family_at(family);
    reveal_strlit("tsls_async_outbox_oldest_pending_age_seconds");
    reveal_strlit("tsls_async_outbox_sent_retained_events");
    reveal_strlit("tsls_async_queue_condition");
    reveal_strlit("tsls_trigger_scheduler_owner");
    reveal_strlit("tsls_trigger_cron_fires_total");
    reveal_strlit("tsls_trigger_cron_missed_runs_total");
    reveal_strlit("tsls_trigger_webhook_deliveries_total");
    assert(family == 63 || family == 64 || family == 65 || family == 66 || family == 67 || family == 68 || family == 69);
}

proof fn lemma_told_70(family: int)
    requires
        70 <= family < 77,
    ensures
        is_told(family),
{
    catalog::lemma_family_at(family);
    reveal_strlit("tsls_usage_journal_healthy");
    reveal_strlit("tsls_usage_journal_admitting");
    reveal_strlit("tsls_usage_journal_pending_events");
    reveal_strlit("tsls_usage_journal_pending_bytes");
    reveal_strlit("tsls_usage_journal_max_events");
    reveal_strlit("tsls_usage_journal_max_bytes");
    reveal_strlit("tsls_usage_unjournaled_events_total");
    assert(family == 70 || family == 71 || family == 72 || family == 73 || family == 74 || family == 75 || family == 76);
}

proof fn lemma_told_77(family: int)
    requires
        77 <= family < 84,
    ensures
        is_told(family),
{
    catalog::lemma_family_at(family);
    reveal_strlit("tsls_usage_collector_runs_total");
    reveal_strlit("tsls_usage_collector_failing");
    reveal_strlit("tsls_usage_collector_last_success_age_seconds");
    reveal_strlit("tsls_usage_collector_delivered_events_total");
    reveal_strlit("tsls_usage_ledger_events");
    reveal_strlit("tsls_usage_ledger_duplicates_ignored_total");
    reveal_strlit("tsls_async_dispatch_deliveries_total");
    assert(family == 77 || family == 78 || family == 79 || family == 80 || family == 81 || family == 82 || family == 83);
}

proof fn lemma_told_84(family: int)
    requires
        84 <= family < 91,
    ensures
        is_told(family),
{
    catalog::lemma_family_at(family);
    reveal_strlit("tsls_async_dispatch_queue_operations_total");
    reveal_strlit("tsls_async_dispatch_runs_in_flight");
    reveal_strlit("tsls_async_retries_scheduled_total");
    reveal_strlit("tsls_async_dead_letters_total");
    reveal_strlit("tsls_async_redrives_total");
    reveal_strlit("tsls_async_reaper_actions_total");
    reveal_strlit("tsls_metrics_series_truncated");
    assert(family == 84 || family == 85 || family == 86 || family == 87 || family == 88 || family == 89 || family == 90);
}

proof fn lemma_told(family: int)
    requires
        0 <= family < catalog::FAMILY_COUNT,
    ensures
        is_told(family),
{
    if family < 7 {
        lemma_told_0(family);
    } else if family < 14 {
        lemma_told_7(family);
    } else if family < 21 {
        lemma_told_14(family);
    } else if family < 28 {
        lemma_told_21(family);
    } else if family < 35 {
        lemma_told_28(family);
    } else if family < 42 {
        lemma_told_35(family);
    } else if family < 49 {
        lemma_told_42(family);
    } else if family < 56 {
        lemma_told_49(family);
    } else if family < 63 {
        lemma_told_56(family);
    } else if family < 70 {
        lemma_told_63(family);
    } else if family < 77 {
        lemma_told_70(family);
    } else if family < 84 {
        lemma_told_77(family);
    } else {
        lemma_told_84(family);
    }
}

/// No two families have the same name.
pub proof fn law_family_names_differ(a: int, b: int)
    requires
        0 <= a < b < catalog::FAMILY_COUNT,
    ensures
        catalog::name_of(a) != catalog::name_of(b),
{
    lemma_told(a);
    lemma_told(b);
}

/// Two families, or one with two suffixes, are never written under the same
/// name.
pub proof fn law_written_names_differ(a: int, s: Suffix, b: int, t: Suffix)
    requires
        0 <= a < catalog::FAMILY_COUNT,
        0 <= b < catalog::FAMILY_COUNT,
        a != b || s != t,
    ensures
        catalog::name_of(a) + s.spec_text() != catalog::name_of(b) + t.spec_text(),
{
    lemma_told(a);
    lemma_told(b);
    reveal_strlit("_bucket");
    reveal_strlit("_sum");
    reveal_strlit("_count");
    let x = catalog::name_of(a) + s.spec_text();
    let y = catalog::name_of(b) + t.spec_text();
    if x == y {
        if s == t {
            assert(catalog::name_of(a) =~= x.take(x.len() - s.spec_text().len()));
            assert(catalog::name_of(b) =~= y.take(y.len() - t.spec_text().len()));
        } else {
            assert(x[x.len() - 1] == y[y.len() - 1]);
            assert(x[x.len() - 2] == y[y.len() - 2]);
        }
    }
}

} // verus!
