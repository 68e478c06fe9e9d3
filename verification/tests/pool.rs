use tachyon_application::domain::environment::{
    EnvironmentState, ExecutionEnvironment, ExecutionLease, ReuseKey,
};
use tachyon_application::domain::Limits;
use tachyon_application::repository::memory::InMemoryStore;
use tachyon_application::repository::{PoolLimits, RepoError};
use tachyon_application::time::STRIDE;

const NOW: i128 = 1_789_430_400 * STRIDE;

const POOL: PoolLimits = PoolLimits { max_idle_per_key: 2, max_total_idle: 4 };

fn store() -> InMemoryStore {
    InMemoryStore::new(Limits {
        max_response_bytes: 6 * 1024 * 1024,
        max_log_line_bytes: 16 * 1024,
        max_log_lines_per_invocation: 10_000,
        max_log_bytes_per_invocation: 1024 * 1024,
    })
}

fn pool_key(tenant: &str, revision: &str) -> ReuseKey {
    ReuseKey {
        tenant_id: tenant.to_string(),
        revision_id: revision.to_string(),
        execution_role_version: 1,
        configuration_version: 7,
        resource_profile_digest: "rp".to_string(),
        runtime_profile: "tachyon.runtime.v1".to_string(),
        network_policy_version: 3,
        secret_binding_generation: 11,
    }
}

fn in_state(id: &str, key: &ReuseKey, state: EnvironmentState) -> ExecutionEnvironment {
    ExecutionEnvironment {
        id: id.to_string(),
        tenant_id: key.tenant_id.clone(),
        revision_id: key.revision_id.clone(),
        provider: "fake".to_string(),
        reuse_key: key.clone(),
        state,
        epoch: 1,
        created_at: NOW,
        updated_at: NOW,
        idle_since: None,
        owner: None,
        fenced_at: None,
    }
}

/// An environment that served an attempt and went back into the pool.
fn pooled(store: &mut InMemoryStore, id: &str, key: &ReuseKey) {
    let mut env = in_state(id, key, EnvironmentState::Busy);
    assert!(env.mark_idle(NOW));
    store.insert_environment(env).unwrap();
}

/// One differing field of the reuse key is enough to make two environments
/// incompatible.
#[test]
fn only_an_exactly_matching_reuse_key_is_reused() {
    let mut store = store();
    let key = pool_key("t", "r");
    pooled(&mut store, "env", &key);

    let dimensions: [(&str, fn(&mut ReuseKey)); 8] = [
        ("tenant", |k| k.tenant_id = "t2".to_string()),
        ("revision", |k| k.revision_id = "r2".to_string()),
        ("execution role version", |k| k.execution_role_version += 1),
        ("configuration version", |k| k.configuration_version += 1),
        ("resource profile", |k| k.resource_profile_digest = "other".to_string()),
        ("runtime profile", |k| k.runtime_profile = "tachyon.runtime.v2".to_string()),
        ("network policy version", |k| k.network_policy_version += 1),
        ("secret binding generation", |k| k.secret_binding_generation += 1),
    ];
    for (name, change) in dimensions {
        let mut other = key.clone();
        change(&mut other);
        assert_ne!(other, key, "{name} must actually differ");
        assert!(
            store.claim_for_reuse(&other, NOW).is_none(),
            "a differing {name} must never reuse the environment"
        );
    }
    // Nothing above touched the pooled environment.
    assert_eq!(store.list_idle().len(), 1);
    let claimed = store.claim_for_reuse(&key, NOW).expect("the exact key hits");
    assert_eq!(claimed.id, "env");
    assert_eq!(claimed.state, EnvironmentState::Busy);
    assert_eq!(claimed.epoch, 2, "a reassignment advances the epoch");
    assert!(store.claim_for_reuse(&key, NOW).is_none(), "it was handed out once");
}

#[test]
fn nothing_is_dispatched_before_ready_and_busy_is_never_handed_out() {
    let mut store = store();
    let key = pool_key("t", "r");
    for (id, state) in [
        ("fresh", EnvironmentState::Requested),
        ("provisioning", EnvironmentState::Provisioning),
        ("initializing", EnvironmentState::Initializing),
        ("busy", EnvironmentState::Busy),
        ("draining", EnvironmentState::Draining),
        ("stopped", EnvironmentState::Stopped),
    ] {
        store.insert_environment(in_state(id, &key, state)).unwrap();
    }
    assert!(
        store.claim_for_reuse(&key, NOW).is_none(),
        "only an environment that reported ready and is free may be handed out"
    );
    assert_eq!(
        store.get_environment("busy").unwrap().epoch,
        1,
        "a refused claim never advances an epoch"
    );
    assert!(store.list_idle().is_empty());

    // The same key hits as soon as one is actually pooled.
    pooled(&mut store, "pooled", &key);
    assert_eq!(store.claim_for_reuse(&key, NOW).map(|e| e.id), Some("pooled".to_string()));
}

#[test]
fn claims_never_hand_the_same_environment_to_two_callers() {
    for (idle, claimers) in [(1usize, 2usize), (1, 16), (3, 8), (8, 3), (4, 4)] {
        let mut store = store();
        let key = pool_key("t", "r");
        for i in 0..idle {
            pooled(&mut store, &format!("env_{i}"), &key);
        }
        let mut winners = Vec::new();
        for _ in 0..claimers {
            if let Some(env) = store.claim_for_reuse(&key, NOW) {
                winners.push(env);
            }
        }
        let case = format!("idle={idle} claimers={claimers}");
        assert_eq!(winners.len(), idle.min(claimers), "{case}");
        let mut ids: Vec<String> = winners.iter().map(|e| e.id.to_string()).collect();
        ids.sort();
        ids.dedup();
        assert_eq!(ids.len(), winners.len(), "{case}: an environment was handed out twice");
        for w in &winners {
            assert_eq!(w.state, EnvironmentState::Busy, "{case}");
            assert_eq!(w.epoch, 2, "{case}: every reassignment advances the epoch");
        }
        assert_eq!(
            store.list_idle().len(),
            idle.saturating_sub(claimers),
            "{case}: the losers' environments stay pooled"
        );
    }
}

#[test]
fn releasing_respects_the_pool_caps_and_refuses_a_stale_copy() {
    let mut store = store();
    let key = pool_key("t", "r");
    let other_key = pool_key("t", "r2");

    // Two per key is the cap: the third stays Busy for the caller to kill.
    let mut busy = Vec::new();
    for i in 0..3 {
        let env = in_state(&format!("env_{i}"), &key, EnvironmentState::Busy);
        store.insert_environment(env.clone()).unwrap();
        busy.push(env);
    }
    assert!(store.release_to_pool(&busy[0], POOL, NOW).unwrap().is_some());
    assert!(store.release_to_pool(&busy[1], POOL, NOW).unwrap().is_some());
    assert!(
        store.release_to_pool(&busy[2], POOL, NOW).unwrap().is_none(),
        "max_idle_per_key is enforced"
    );
    assert_eq!(
        store.get_environment(&busy[2].id).unwrap().state,
        EnvironmentState::Busy,
        "a refused release leaves the environment for the caller to terminate"
    );

    // A stale copy (the row moved on since) is refused.
    let pooled_row = store.get_environment(&busy[0].id).unwrap().clone();
    assert!(
        store.release_to_pool(&busy[0], POOL, NOW).unwrap().is_none(),
        "the row is Idle now, not Busy"
    );
    let mut wrong_epoch = busy[2].clone();
    wrong_epoch.epoch = 99;
    assert!(
        store.release_to_pool(&wrong_epoch, POOL, NOW).unwrap().is_none(),
        "a copy from another epoch never goes back into the pool"
    );
    assert_eq!(pooled_row.state, EnvironmentState::Idle);
    assert_eq!(pooled_row.idle_since, Some(NOW));

    // Two more keys still fit under max_total_idle (4).
    for i in 0..2 {
        let env = in_state(&format!("other_{i}"), &other_key, EnvironmentState::Busy);
        store.insert_environment(env.clone()).unwrap();
        assert!(store.release_to_pool(&env, POOL, NOW).unwrap().is_some());
    }
    let env = in_state("other_2", &other_key, EnvironmentState::Busy);
    store.insert_environment(env.clone()).unwrap();
    assert!(
        store.release_to_pool(&env, POOL, NOW).unwrap().is_none(),
        "max_total_idle is enforced across keys"
    );
    assert_eq!(store.list_idle().len(), 4);
}

#[test]
fn taking_an_idle_environment_for_termination_excludes_a_claim() {
    let mut store = store();
    let key = pool_key("t", "r");
    pooled(&mut store, "env", &key);

    assert!(store.take_idle_for_termination("env", NOW));
    assert!(
        !store.take_idle_for_termination("env", NOW),
        "taking it is idempotent-safe: the second caller loses"
    );
    assert!(
        store.claim_for_reuse(&key, NOW).is_none(),
        "an environment the sweeper owns is never handed to an attempt"
    );
    assert_eq!(store.get_environment("env").unwrap().state, EnvironmentState::Draining);

    // The other way round: a claimed environment cannot be swept.
    pooled(&mut store, "claimed", &key);
    assert!(store.claim_for_reuse(&key, NOW).is_some());
    assert!(!store.take_idle_for_termination("claimed", NOW));
}

#[test]
fn an_environment_keeps_its_identity() {
    let mut store = store();
    let key = pool_key("t", "r");
    store.insert_environment(in_state("env", &key, EnvironmentState::Ready)).unwrap();
    assert!(matches!(
        store.insert_environment(in_state("env", &key, EnvironmentState::Ready)),
        Err(RepoError::Conflict(_))
    ));
    let mut moved = in_state("env", &key, EnvironmentState::Ready);
    moved.provider = "other".to_string();
    assert!(matches!(store.update_environment(moved), Err(RepoError::Refused(_))));
    assert!(matches!(
        store.update_environment(in_state("none", &key, EnvironmentState::Ready)),
        Err(RepoError::NotFound(_))
    ));
    let mut foreign = in_state("env2", &key, EnvironmentState::Ready);
    foreign.tenant_id = "t2".to_string();
    assert!(matches!(store.insert_environment(foreign), Err(RepoError::Refused(_))));
    assert_eq!(store.list_active().len(), 1);
}

#[test]
fn a_released_lease_stays_released() {
    let mut store = store();
    let lease = ExecutionLease {
        id: "lease".to_string(),
        environment_id: "env".to_string(),
        attempt_id: "att".to_string(),
        tenant_id: "t".to_string(),
        epoch: 1,
        execution_deadline: NOW,
        acquired_at: NOW,
        released_at: None,
        owner: None,
        expires_at: None,
    };
    store.insert_lease(lease.clone()).unwrap();
    assert!(matches!(store.insert_lease(lease.clone()), Err(RepoError::Conflict(_))));
    let mut released = lease.clone();
    assert!(released.release(NOW));
    assert!(!released.release(NOW), "once");
    store.update_lease(released).unwrap();
    assert!(matches!(store.update_lease(lease), Err(RepoError::Refused(_))));
    assert_eq!(store.get_lease("lease").unwrap().released_at, Some(NOW));
}
