use std::collections::hash_map::DefaultHasher;
use std::hash::{Hash, Hasher};

use bytes::{Bytes, BytesMut};
use sha2::{Digest, Sha256};

use pg_kinetic_proxy::address::SocketAddress;
use pg_kinetic_proxy::audit::{
    opaque_id, record_query, sample, sample_hash, AuditConfig, AuditDispatcher, AuditRecord, AuditedQuery,
};
use pg_kinetic_proxy::buffers::{
    append_frame, frames_decision, trim_decision, BufferReusePolicy, OversizedBufferPolicy, ProxyBufferPool,
};
use pg_kinetic_proxy::cancel::{encode_cancel_request, key_from_digest, CancelRegistry, CancelTarget};
use pg_kinetic_proxy::clock::Duration;
use pg_kinetic_proxy::double::Double;
use pg_kinetic_proxy::drain::{state_from_u8, state_to_u8, DrainController, DrainOutcome};
use pg_kinetic_proxy::guardrails::{
    load_allowlist, AllowlistFile, GuardrailDecision, GuardrailMode, GuardrailRegistry,
    GuardrailRule, GuardrailsConfig, StatementFacts,
};
use pg_kinetic_proxy::health::{
    backoff_delay, observed_role, probe_once, request_path, respond_to, role_outcome, snapshot,
    status_from_u8, status_to_u8, BackendRole, EndpointHealth, EndpointHealthSnapshot, ProbeOutcome,
};
use pg_kinetic_proxy::lifecycle::{LifecycleController, ShutdownStep};
use pg_kinetic_proxy::limits::{limits_from, parse_cpu_max, parse_memory_max, CpuQuota};
use pg_kinetic_proxy::pause::PauseController;
use pg_kinetic_proxy::runtime::{ReadinessState, RuntimeLifecycleState, ShutdownReason};
use pg_kinetic_proxy::security::{DrainState, HealthStatus};

fn audit_config() -> AuditConfig {
    AuditConfig {
        enabled: true,
        sink: None,
        sample_rate: Double::one(),
        include_reads: true,
    }
}

fn audit_record(query_class: &str, rows: u64) -> AuditRecord {
    AuditRecord {
        route: String::from("route"),
        identity: String::from("identity"),
        fingerprint: String::from("select ?"),
        template: String::from("select ?"),
        query_class: String::from(query_class),
        outcome: String::from("ok"),
        latency_ms: 1,
        rows,
    }
}

fn audited() -> AuditedQuery {
    AuditedQuery {
        route_label: "db/user".to_string(),
        database: "db".to_string(),
        user: "user".to_string(),
        application_name: None,
        query_class: "write".to_string(),
        routes_to_replica: true,
        fingerprint: "select * from users where id = ?".to_string(),
        outcome: "ok".to_string(),
        latency: Duration::from_millis(3),
        rows: 2,
    }
}

#[test]
fn record_contains_metadata_without_literals() {
    let mut dispatcher = AuditDispatcher::with_capacity(1);
    record_query(&mut dispatcher, &audit_config(), &audited(), true);
    let record = dispatcher.take().expect("record sent");
    assert_eq!(record.fingerprint, "select * from users where id = ?");
    assert!(!format!("{:?}", record).contains("123"));
    assert!(!record.identity.contains("user"));
    assert_eq!(record.latency_ms, 3);
    assert_eq!(record.rows, 2);
}

#[test]
fn overflow_is_nonblocking_and_counted() {
    let mut dispatcher = AuditDispatcher::with_capacity(1);
    let record = audit_record("read", 1);
    assert!(dispatcher.record(record.clone()));
    assert!(!dispatcher.record(record));
    assert_eq!(dispatcher.dropped(), 1);
}

#[test]
fn disconnected_enqueue_is_dropped_and_not_accepted() {
    let mut dispatcher = AuditDispatcher::with_capacity(1);
    dispatcher.disconnect();
    assert!(!dispatcher.record(audit_record("write", 0)));
    assert_eq!(dispatcher.dropped(), 1);
}

#[test]
fn lost_records_are_those_that_were_turned_away() {
    let mut dispatcher = AuditDispatcher::with_capacity(2);
    let mut turned_away: u64 = 0;
    for step in 0..12 {
        if step % 4 == 3 {
            dispatcher.take();
        } else if !dispatcher.record(audit_record("read", step)) {
            turned_away += 1;
        }
        if step == 9 {
            dispatcher.disconnect();
        }
        assert_eq!(dispatcher.dropped(), turned_away);
    }
    assert!(turned_away > 0);
}

#[test]
fn disabled_by_default() {
    assert!(!AuditConfig::default().enabled);
    assert!(AuditDispatcher::from_config(&AuditConfig::default()).is_none());
}

#[test]
fn reads_and_unsampled_queries_are_left_out() {
    let mut dispatcher = AuditDispatcher::with_capacity(4);
    let mut config = audit_config();
    config.include_reads = false;
    assert!(!record_query(&mut dispatcher, &config, &audited(), true));
    config.include_reads = true;
    config.sample_rate = Double::zero();
    assert!(!record_query(&mut dispatcher, &config, &audited(), true));
    assert!(dispatcher.take().is_none());
    assert!(sample(Double::one(), false));
    assert!(!sample(Double::zero(), true));
    let half = Double::from_bits(0.5f64.to_bits());
    assert!(sample(half, true));
    assert!(!sample(half, false));
}

#[test]
fn opaque_ids_are_stable_and_tell_nothing() {
    let id = opaque_id("alice");
    assert_eq!(id, opaque_id("alice"));
    assert_ne!(id, opaque_id("bob"));
    assert!(!id.contains("alice"));
    let mut hasher = DefaultHasher::new();
    "alice".hash(&mut hasher);
    let mut query = audited();
    query.fingerprint = "alice".to_string();
    assert_eq!(sample_hash(&query), hasher.finish());
    assert_eq!(id, format!("h{:016x}", hasher.finish()));
}

fn guardrails(mode: GuardrailMode, allowlist_file: Option<String>) -> GuardrailsConfig {
    GuardrailsConfig {
        mode,
        block_unqualified_dml: true,
        block_ddl: true,
        allowlist_file,
    }
}

#[test]
fn a_configured_allowlist_has_to_be_there() {
    let error = GuardrailRegistry::from_config(
        guardrails(GuardrailMode::Observe, Some("list".to_string())),
        None,
    )
    .err();
    assert_eq!(error.as_deref(), Some("guardrail allowlist could not be read"));
}

fn statement(fingerprint: &str, write: bool, unqualified: bool, ddl: bool) -> StatementFacts {
    StatementFacts {
        fingerprint: fingerprint.to_string(),
        is_write: write,
        is_unqualified_dml: unqualified,
        is_ddl: ddl,
    }
}

#[test]
fn hard_rules_are_conservative() {
    let mut registry =
        GuardrailRegistry::from_config(guardrails(GuardrailMode::Enforce, None), None).unwrap();
    assert_eq!(
        registry.evaluate(&statement("DELETE FROM t", true, true, false)),
        GuardrailDecision::Deny(GuardrailRule::UnqualifiedDml)
    );
    assert_eq!(
        GuardrailRegistry::from_config(guardrails(GuardrailMode::Observe, None), None)
            .unwrap()
            .evaluate(&statement("DELETE FROM t WHERE id=1", true, false, false)),
        GuardrailDecision::Allow
    );
}

#[test]
fn allowlist_reload_is_bounded_and_replaces_atomically() {
    let first = AllowlistFile { bytes: 9, content: "select ?\n".to_string(), modified: 1 };
    let mut registry = GuardrailRegistry::from_config(
        guardrails(GuardrailMode::Enforce, Some("list".to_string())),
        Some(first),
    )
    .unwrap();
    assert_eq!(registry.allowlist_len(), 1);
    assert_eq!(registry.observation_len(), 0);
    assert!(!registry.allowlist_changed(1));
    assert!(registry.allowlist_changed(2));
    let second =
        AllowlistFile { bytes: 18, content: "select ?\nselect 2\n".to_string(), modified: 2 };
    registry.reload_allowlist(&second).unwrap();
    assert_eq!(registry.allowlist_len(), 2);
    let huge = AllowlistFile { bytes: 131_073, content: String::new(), modified: 3 };
    assert!(registry.reload_allowlist(&huge).is_err());
    assert_eq!(registry.allowlist_len(), 2);
}

#[test]
fn nothing_is_reloaded_where_no_list_is_configured() {
    let list = AllowlistFile { bytes: 9, content: "select ?\n".to_string(), modified: 1 };
    let mut registry =
        GuardrailRegistry::from_config(guardrails(GuardrailMode::Enforce, None), None).unwrap();
    assert!(!registry.allowlist_changed(1));
    assert!(registry.reload_allowlist(&list).is_ok());
    assert_eq!(registry.allowlist_len(), 0);
}

#[test]
fn observe_allows_hard_rules_and_enforce_requires_known_fingerprints() {
    let mut observe =
        GuardrailRegistry::from_config(guardrails(GuardrailMode::Observe, None), None).unwrap();
    assert_eq!(
        observe.evaluate(&statement("DROP TABLE t", true, false, true)),
        GuardrailDecision::Allow
    );
    let mut enforce =
        GuardrailRegistry::from_config(guardrails(GuardrailMode::Enforce, None), None).unwrap();
    assert_eq!(
        enforce.evaluate(&statement("SELECT 1", false, false, false)),
        GuardrailDecision::Deny(GuardrailRule::UnknownFingerprint)
    );
    assert_eq!(
        enforce.evaluate(&statement("DROP TABLE t", true, false, true)),
        GuardrailDecision::Deny(GuardrailRule::Ddl)
    );
}

#[test]
fn allowlists_are_bounded() {
    let many: String = (0..257).map(|n| format!("select {}\n", n)).collect();
    assert!(load_allowlist(many.len() as u64, &many).is_err());
    let long = "x".repeat(257);
    assert!(load_allowlist(257, &long).is_err());
    assert_eq!(load_allowlist(3, " a \n").unwrap(), vec!["a".to_string()]);
}

#[test]
fn bind_lookup_unbind_cycle() {
    let mut registry = CancelRegistry::new();
    let key = registry.issue_client_key("nonce").expect("client key");
    assert_eq!(registry.lookup(key), None);

    let target = CancelTarget {
        backend_addr: SocketAddress::v4(0x7f00_0001, 5432),
        process_id: 7,
        secret_key: 9,
    };
    registry.bind(key, target);
    assert_eq!(registry.lookup(key), Some(target));
    registry.unbind(key);
    assert_eq!(registry.lookup(key), None);
    registry.remove_session(key);
    registry.bind(key, target);
    assert_eq!(registry.lookup(key), None);
}

#[test]
fn unbind_waits_for_forwarding_lease() {
    let mut registry = CancelRegistry::new();
    let key = registry.issue_client_key("nonce").expect("client key");
    registry.bind(
        key,
        CancelTarget {
            backend_addr: SocketAddress::v4(0x7f00_0001, 5432),
            process_id: 7,
            secret_key: 9,
        },
    );
    let lease = registry.acquire_forwarding(key).expect("forwarding lease");
    assert!(registry.unbind(key));
    assert!(registry.acquire_forwarding(key).is_none());
    registry.release_forwarding(lease);
    assert!(!registry.unbind(key));
    assert_eq!(registry.lookup(key), None);
}

#[test]
fn cancel_packet_uses_target_credentials() {
    let packet = encode_cancel_request(7, 9);
    assert_eq!(
        &packet[..],
        &[0, 0, 0, 16, 4, 210, 22, 46, 0, 0, 0, 7, 0, 0, 0, 9]
    );
}

#[test]
fn client_keys_differ_and_are_never_zero() {
    let mut registry = CancelRegistry::new();
    let a = registry.issue_client_key("same").expect("key");
    assert_eq!(registry.issue_client_key("same"), None);
    let b = registry.issue_client_key("other").expect("key");
    assert_ne!(a, b);
    assert_ne!(a.0, 0);
    let digest = Sha256::digest(b"same");
    let process = i32::from_be_bytes([digest[0], digest[1], digest[2], digest[3]]) & 0x7fff_ffff;
    let secret = i32::from_be_bytes([digest[4], digest[5], digest[6], digest[7]]);
    assert_eq!(a, (process, secret));
    assert_eq!(key_from_digest(&[0u8; 32]), None);
}

#[test]
fn parses_cgroup_v2_cpu_max_quota() {
    let share = |quota: Option<CpuQuota>| quota.map(|q| q.quota as f64 / q.period as f64);
    assert_eq!(share(parse_cpu_max("200000 100000\n")), Some(2.0));
    assert_eq!(share(parse_cpu_max("150000 100000\n")), Some(1.5));
    assert_eq!(parse_cpu_max("max 100000\n"), None);
    assert_eq!(parse_cpu_max("0 100000\n"), None);
    assert_eq!(parse_cpu_max("100000 0\n"), None);
    assert_eq!(parse_cpu_max("not-a-number 100000\n"), None);
}

#[test]
fn parses_cgroup_v2_memory_max_limit() {
    assert_eq!(parse_memory_max("536870912\n"), Some(536_870_912));
    assert_eq!(parse_memory_max("max\n"), None);
    assert_eq!(parse_memory_max("0\n"), None);
    assert_eq!(parse_memory_max("bad\n"), None);
}

#[test]
fn detects_limits_from_fixture_root() {
    let limits =
        limits_from(Some("200000 100000\n".to_string()), Some("536870912\n".to_string()));
    assert_eq!(limits.cpu_quota, Some(CpuQuota { quota: 200_000, period: 100_000 }));
    assert_eq!(limits.mem_limit_bytes, Some(536_870_912));
    let none = limits_from(None, None);
    assert_eq!(none.cpu_quota, None);
    assert_eq!(none.mem_limit_bytes, None);
}

#[test]
fn resume_releases_waiters() {
    let mut controller = PauseController::default();
    assert!(!controller.is_paused());
    controller.pause();
    assert!(controller.is_paused());
    controller.resume();
    assert!(!controller.is_paused());
}

#[test]
fn draining_goes_one_way() {
    for state in [DrainState::Accepting, DrainState::Draining, DrainState::Drained] {
        assert_eq!(state_from_u8(state_to_u8(state)), state);
    }
    let mut drain = DrainController::new();
    let guard = drain.try_enter_client().expect("accepting");
    assert_eq!(drain.active_clients(), 1);
    let now = Duration::from_secs(10);
    assert!(drain.begin_drain(Duration::from_secs(5), now));
    assert!(!drain.begin_drain(Duration::from_secs(5), now));
    assert!(drain.try_enter_client().is_none());
    assert_eq!(drain.drain_deadline(), Some(Duration::from_secs(15)));
    assert_eq!(drain.completion(now), None);
    assert_eq!(drain.completion(Duration::from_secs(15)), Some(DrainOutcome::TimedOut));
    drain.leave_client(guard);
    assert_eq!(drain.completion(now), Some(DrainOutcome::Completed));
}

#[test]
fn a_process_lives_forward() {
    let mut life = LifecycleController::new(
        DrainController::new(),
        Duration::from_secs(5),
        Duration::from_secs(3),
        true,
    );
    assert_eq!(life.state().lifecycle(), RuntimeLifecycleState::Starting);
    life.mark_listeners_initialized();
    assert_eq!(life.state().readiness(), ReadinessState::NotReady);
    life.mark_backend_pools_initialized();
    assert_eq!(life.state().lifecycle(), RuntimeLifecycleState::Ready);
    assert_eq!(life.state().readiness(), ReadinessState::Ready);
    let guard = life.try_enter().expect("ready");
    assert!(life.begin_drain(ShutdownReason::Signal, Duration::zero()));
    assert!(life.try_enter().is_none());
    assert!(!life.begin_drain(ShutdownReason::StartupFailure, Duration::zero()));
    assert_eq!(life.state().shutdown_reason(), Some(ShutdownReason::Signal));
    match life.after_drain(DrainOutcome::TimedOut) {
        ShutdownStep::WaitGrace(grace) => assert_eq!(grace, Duration::from_secs(3)),
        other => panic!("no grace: {:?}", other),
    }
    let outcome = life.after_grace();
    assert_eq!(outcome.forced_sessions(), 1);
    assert_eq!(life.state().lifecycle(), RuntimeLifecycleState::Stopping);
    life.leave(guard);
    life.mark_stopped();
    assert_eq!(life.state().lifecycle(), RuntimeLifecycleState::Stopped);
}

#[test]
fn health_is_told_over_http() {
    for status in [
        HealthStatus::Ready,
        HealthStatus::NotReady,
        HealthStatus::Live,
        HealthStatus::Degraded,
    ] {
        assert_eq!(status_from_u8(status_to_u8(status)), status);
    }
    assert_eq!(request_path(b"GET /ready HTTP/1.1\r\n\r\n"), Some("/ready".to_string()));
    let drain = DrainController::new();
    let report = snapshot(&drain, HealthStatus::Ready);
    let answer = respond_to(b"GET /nowhere HTTP/1.1\r\n\r\n", &report);
    assert!(answer.starts_with(b"HTTP/1.1 404"));
}

#[test]
fn servers_fail_by_degrees_and_heal_at_once() {
    let address = SocketAddress::v4(1, 5432);
    let start = EndpointHealthSnapshot::new(1, address, BackendRole::Primary);
    let fail = || ProbeOutcome::Failed { error: "no".to_string() };
    let one = probe_once(&start, BackendRole::Primary, fail());
    let two = probe_once(&one, BackendRole::Primary, fail());
    let three = probe_once(&two, BackendRole::Primary, ProbeOutcome::TimedOut);
    assert_eq!(three.health.state, EndpointHealth::Unavailable);
    assert_eq!(three.health.consecutive_failures, 3);
    assert_eq!(
        backoff_delay(&three.health, Duration::from_secs(1)),
        Duration::from_secs(4)
    );
    let healed =
        probe_once(&three, BackendRole::Primary, ProbeOutcome::Observed(BackendRole::Primary));
    assert_eq!(healed.health.state, EndpointHealth::Healthy);
    assert!(role_outcome(BackendRole::Primary, BackendRole::Replica).warning.is_some());
    assert!(role_outcome(BackendRole::Primary, BackendRole::Primary).warning.is_none());
    assert_eq!(observed_role(&Some("t".to_string())), Ok(BackendRole::Replica));
    assert_eq!(observed_role(&Some("f".to_string())), Ok(BackendRole::Primary));
    assert!(observed_role(&None).is_err());
}

#[test]
fn buffers_are_kept_and_given_up() {
    let mut pool = ProxyBufferPool::new(
        BufferReusePolicy { initial_capacity: 64, max_cached_sessions: 1 },
        OversizedBufferPolicy { max_retained_capacity: 128 },
    );
    let mut first = pool.acquire();
    let second = pool.acquire();
    assert_eq!(pool.stats().sessions_created, 2);
    let mut stats = pool.stats();
    first.append_frontend_frame(b'Q', b"select 1\0", &mut stats);
    assert_eq!(first.backend_write(), b"Q\0\0\0\x0dselect 1\0");
    assert_eq!(stats.frontend_to_backend_copies, 1);
    pool.recycle(first);
    pool.recycle(second);
    let again = pool.acquire();
    assert_eq!(again.backend_write(), b"");
    assert_eq!(pool.stats().sessions_reused, 1);

    let mut known: usize = 1_000;
    let mut stats = pool.stats();
    let before = stats.oversized_buffers_released;
    let policy = OversizedBufferPolicy { max_retained_capacity: 128 };
    assert!(!trim_decision(1, 1_000, &mut known, 64, policy, &mut stats));
    assert!(!trim_decision(0, 128, &mut known, 64, policy, &mut stats));
    assert!(trim_decision(0, 129, &mut known, 64, policy, &mut stats));
    assert_eq!(stats.oversized_buffers_released, before + 1);
    assert_eq!(known, 64);

    let mut bytes = BytesMut::new();
    append_frame(&mut bytes, b'S', b"");
    assert_eq!(bytes.freeze(), Bytes::from_static(b"S\0\0\0\x04"));
}

#[test]
fn oversized_buffers_are_given_up_once_they_are_empty() {
    let mut pool = ProxyBufferPool::new(
        BufferReusePolicy { initial_capacity: 64, max_cached_sessions: 1 },
        OversizedBufferPolicy { max_retained_capacity: 128 },
    );
    let mut buffers = pool.acquire();
    let mut stats = pool.stats();
    buffers.append_frontend_frame(b'Q', &[0; 4_096], &mut stats);
    assert_eq!(stats.allocations, 1);
    assert!(stats.allocation_bytes >= 4_101);
    buffers.trim_empty_buffers(&mut stats);
    assert_eq!(stats.oversized_buffers_released, 0);
    assert_eq!(buffers.backend_write().len(), 4_101);
    let before = stats.allocation_bytes;
    buffers.clear_backend_write(&mut stats);
    assert_eq!(stats.oversized_buffers_released, 1);
    assert_eq!(stats.allocations, 2);
    assert_eq!(stats.allocation_bytes, before + 64);
    buffers.client_read_mut().extend_from_slice(&[1; 300]);
    buffers.observe_client_read(&mut stats);
    assert_eq!(stats.allocations, 3);
    buffers.client_read_mut().clear();
    buffers.trim_empty_buffers(&mut stats);
    assert_eq!(stats.oversized_buffers_released, 2);
}

#[test]
fn large_lists_of_frames_are_shrunk() {
    assert_eq!(frames_decision(1_024), None);
    assert_eq!(frames_decision(1_025), Some(64));
    let mut pool = ProxyBufferPool::default();
    let mut buffers = pool.acquire();
    let mut frames = Vec::with_capacity(4_096);
    frames.push(([0u8; 5], Bytes::from_static(b"x")));
    buffers.restore_backend_frames(frames);
    let taken = buffers.take_backend_frames();
    assert!(taken.is_empty());
    assert!((64..1_024).contains(&taken.capacity()));
    let mut frames = Vec::with_capacity(512);
    frames.push(([0u8; 5], Bytes::from_static(b"x")));
    buffers.restore_backend_frames(frames);
    buffers.clear_backend_frames();
    assert!(buffers.take_backend_frames().capacity() >= 512);
}

#[test]
fn sessions_count_in_their_pool() {
    let mut pool = ProxyBufferPool::default();
    let mut buffers = pool.acquire();
    assert_eq!(buffers.capacities(), [0, 0, 0, 0]);
    buffers.append_backend_frame(b'Z', b"I", pool.stats_mut());
    let [client_read, backend_read, backend_write, client_write] = buffers.capacities();
    assert_eq!((client_read, backend_read, backend_write), (0, 0, 0));
    assert!(client_write >= 6);
    assert_eq!(pool.stats().backend_to_client_copied_bytes, 1);
    assert_eq!(pool.stats().allocation_bytes, client_write as u64);
    assert!(pool.lends(&buffers));
    let mut other = ProxyBufferPool::new(
        BufferReusePolicy { initial_capacity: 64, max_cached_sessions: 1 },
        OversizedBufferPolicy { max_retained_capacity: 128 },
    );
    assert!(!pool.lends(&other.acquire()));
}
