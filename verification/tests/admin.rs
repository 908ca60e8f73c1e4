use bytes::BytesMut;

use pg_kinetic_proxy::admin::response::{admin_table_response, ready_for_query};
use pg_kinetic_proxy::admin::tables::{
    clients_table, latest_route_map_generation, mirroring_table, policy_audit_table,
    policy_decisions_table, pools_table, shards_table, AdminView,
};
use pg_kinetic_proxy::admin::{
    admit_client, after_read, answer_missing_startup, answer_request, check_admin_tls,
    next_request, parse_admin_command, reject_during_drain, render_admin_view, startup_user,
    AdminCommand, AdminOpening, AdminRequest, AdminState,
};
use pg_kinetic_proxy::benchmark::MeasuredValue;
use pg_kinetic_proxy::clock::Duration;
use pg_kinetic_proxy::config::{
    AdminConfig, Config, RouteMapConfig, ShardScopeConfig, ShardStrategyConfig, ShardTargetConfig,
    ShardingConfig,
};
use pg_kinetic_proxy::modes::{MirrorMode, PolicyHookPoint, RecoveryMode};
use pg_kinetic_proxy::policy::{PolicyAction, PolicyAuditEvent, PolicyContext, PolicyContextField};
use pg_kinetic_proxy::security::{AuthMode, BackendTlsMode, ClientTlsMode};
use pg_kinetic_proxy::snapshot::{
    ClientSnapshot, LimitsSnapshot, MirrorSummarySnapshot, PerformanceSnapshot, PoolSnapshot,
    RouteMapReloadSnapshot, SettingsSnapshot, ShardLifecycleSnapshot, ShardLifecycleState,
};
use pg_kinetic_proxy::wire::{parse_backend_frame, tagged_message, BackendFrame};

fn pool() -> PoolSnapshot {
    PoolSnapshot { configured_backends: 4, active_backends: 3, idle_backends: 1, waiting_clients: 2 }
}

fn performance() -> PerformanceSnapshot {
    PerformanceSnapshot {
        budgets: vec![],
        regressions: vec![],
        comparisons: vec![],
        profile_status: "off".to_string(),
        process_status: "complete".to_string(),
        process_cpu_seconds: None,
        process_resident_memory_bytes: None,
        cpu_per_query: None,
        memory_per_client_bytes: None,
        protocol_buffer_copies: 0,
        pool_checkout_lock_wait_ms: Some(MeasuredValue {
            exact: "0.25".to_string(),
            shown: "0.250".to_string(),
        }),
        prepared_cache_hits: 0,
        prepared_cache_misses: 0,
        observability_hot_path_allocations: 0,
        idle_clients: 0,
    }
}

fn mirror() -> MirrorSummarySnapshot {
    MirrorSummarySnapshot {
        mode: MirrorMode::ReadOnly,
        sample_rate: "0.500".to_string(),
        in_flight: 1,
        dropped_total: 2,
        timed_out_total: 3,
        mirrored_total: 4,
        skipped_total: 5,
        rejected_total: 6,
        last_duration: None,
    }
}

fn settings() -> SettingsSnapshot {
    SettingsSnapshot {
        listen_addr: "127.0.0.1:6432".to_string(),
        backend_addr: "127.0.0.1:5432".to_string(),
        client_tls_mode: ClientTlsMode::Disable,
        backend_tls_mode: BackendTlsMode::Disable,
        auth_mode: AuthMode::Trust,
        auth_failure_message_mode: "generic".to_string(),
        backend_user: None,
        backend_reset_query: "discard all".to_string(),
        recovery_mode: RecoveryMode::RollbackOnly,
        reload_enabled: false,
        config_reload_interval: Duration::zero(),
        drain_timeout: Duration::zero(),
        reject_new_clients_during_drain: true,
        health_addr: None,
        readiness_backend_check_interval: Duration::zero(),
        readiness_timeout: Duration::zero(),
        metrics_addr: None,
        tcp_nodelay: true,
        tcp_keepalive: false,
        tcp_keepalive_idle: None,
        tcp_keepalive_interval: None,
        tcp_keepalive_retries: None,
        tcp_user_timeout: None,
        tcp_send_buffer_bytes: None,
        tcp_recv_buffer_bytes: None,
        strict_socket_option_mode: false,
    }
}

fn limits() -> LimitsSnapshot {
    LimitsSnapshot {
        max_clients: 10,
        max_backends: 8,
        max_checkout_waiters: 4,
        max_route_in_flight: 4,
        max_route_waiters: 4,
        checkout_timeout: Duration::from_millis(250),
        query_timeout: Duration::zero(),
        idle_client_timeout: Duration::zero(),
        idle_transaction_timeout: Duration::zero(),
        max_client_buffer_bytes: 1,
        max_backend_buffer_bytes: 1,
        recovery_timeout: Duration::zero(),
        drain_timeout: Duration::zero(),
        readiness_backend_check_interval: Duration::zero(),
        readiness_timeout: Duration::zero(),
        config_reload_interval: Duration::zero(),
        overload_error_code: "53300".to_string(),
    }
}

fn client() -> ClientSnapshot {
    ClientSnapshot {
        client_id: 7,
        user: Some("alice".to_string()),
        database: None,
        application_name: None,
        route_key: None,
        state: "idle".to_string(),
        connected_duration: Duration::from_millis(1_250),
    }
}

fn state() -> AdminState {
    AdminState {
        now: Duration::from_secs(100),
        config: Config::default(),
        clients: vec![client()],
        route_checkouts: vec![],
        pool: pool(),
        performance: performance(),
        servers: vec![],
        replica_health: vec![],
        runtime: None,
        nodes: vec![],
        mirror: Some(mirror()),
        adaptive_recommendations: vec![],
        adaptive_outcomes: vec![],
        benchmark_runs: vec![],
        prepared: vec![],
        pinnings: vec![],
        recoveries: vec![],
        queues: vec![],
        policy_status: None,
        policy_reloads: vec![],
        policy_decisions: vec![],
        policy_audit: vec![],
        routes: vec![],
        route_policies: vec![],
        route_map_reloads: vec![],
        sharding: ShardingConfig::default(),
        shard_states: vec![],
        migrations: vec![],
        settings: settings(),
        limits: limits(),
    }
}

fn frames(bytes: &[u8]) -> Vec<BackendFrame> {
    let mut buffer = BytesMut::from(bytes);
    let mut list = vec![];
    while let Some(frame) = parse_backend_frame(&mut buffer).expect("valid") {
        list.push(frame);
    }
    assert!(buffer.is_empty());
    list
}

fn tags(bytes: &[u8]) -> String {
    frames(bytes).iter().map(|frame| frame.tag as char).collect()
}

const VIEWS: [AdminView; 22] = [
    AdminView::Clients,
    AdminView::Pools,
    AdminView::Servers,
    AdminView::Runtime,
    AdminView::Nodes,
    AdminView::Mirroring,
    AdminView::Adaptive,
    AdminView::Benchmarks,
    AdminView::Performance,
    AdminView::Prepared,
    AdminView::Pinning,
    AdminView::Recovery,
    AdminView::Backpressure,
    AdminView::Policies,
    AdminView::PolicyDecisions,
    AdminView::PolicyAudit,
    AdminView::Routes,
    AdminView::RouteMaps,
    AdminView::Shards,
    AdminView::Migrations,
    AdminView::Settings,
    AdminView::Limits,
];

#[test]
fn every_view_is_asked_for_and_answered() {
    let state = state();
    for view in VIEWS {
        let asked = parse_admin_command(&format!(" SHOW {};", view.as_str().to_uppercase()));
        assert!(matches!(asked, AdminCommand::Show(found) if found == view), "{:?}", view);
        let found = tags(&render_admin_view(&state, view));
        assert!(found.starts_with('T') && found.ends_with("CZ"), "{:?} {}", view, found);
    }
    assert!(matches!(parse_admin_command("show odd"), AdminCommand::Unknown(sql) if sql == "show odd"));
    assert!(matches!(parse_admin_command("select 1"), AdminCommand::Unknown(_)));
}

#[test]
fn clients_are_shown_one_per_row() {
    let table = clients_table(&vec![client()], &vec![]);
    assert_eq!(table.columns.len(), 9);
    assert_eq!(table.rows.len(), 1);
    let row = &table.rows[0].values;
    assert_eq!(row[0], "7");
    assert_eq!(row[1], "alice");
    assert_eq!(row[5], "idle");
    assert_eq!(row[6], "1250");
}

#[test]
fn pools_and_mirrors_are_shown_in_one_row() {
    let table = pools_table(&pool(), &performance());
    assert_eq!(table.rows.len(), 1);
    assert_eq!(table.rows[0].values.len(), table.columns.len());
    assert_eq!(table.rows[0].values[0], "global");
    assert_eq!(table.rows[0].values.last().map(String::as_str), Some("0.250"));
    let table = mirroring_table(&Some(mirror()));
    assert_eq!(
        table.rows[0].values,
        vec!["read_only", "0.500", "1", "2", "3", "20", "4", "5", "6"]
    );
    let table = mirroring_table(&None);
    assert_eq!(table.rows[0].values[1], "0.000");
}

#[test]
fn audit_rows_say_what_happened_before_the_decision() {
    let event = PolicyAuditEvent {
        kind: "decision".to_string(),
        policy_id: "p".to_string(),
        policy_version: 3,
        hook_point: PolicyHookPoint::BeforeRouting,
        action: PolicyAction::Allow,
        outcome: "allowed".to_string(),
        reason: None,
        route: None,
        shard: None,
        target_role: None,
        context: PolicyContext::new(vec![PolicyContextField::public("user", "u")]),
    };
    let decisions = policy_decisions_table(&vec![event.clone()]);
    let audit = policy_audit_table(&vec![event]);
    let plain = &decisions.rows[0].values;
    let full = &audit.rows[0].values;
    assert_eq!(full.len(), plain.len() + 1);
    assert_eq!(full[0], "decision");
    assert_eq!(&full[1..], &plain[..]);
    assert_eq!(full[full.len() - 1], "user=u");
}

#[test]
fn the_latest_route_map_is_the_last_that_was_taken() {
    let reload = |success: bool, id: u64| RouteMapReloadSnapshot {
        success,
        route_map_generation_id: id,
        error_code: None,
    };
    assert_eq!(latest_route_map_generation(&vec![reload(true, 4), reload(true, 9)]), 9);
}

fn startup(parameters: &[u8]) -> Vec<u8> {
    let mut bytes = ((parameters.len() + 8) as i32).to_be_bytes().to_vec();
    bytes.extend_from_slice(&196_608i32.to_be_bytes());
    bytes.extend_from_slice(parameters);
    bytes
}

#[test]
fn only_the_allowed_get_in() {
    let packet = startup(b"user\0alice\0\0");
    assert_eq!(startup_user(&packet), Ok("alice".to_string()));
    assert!(startup_user(&startup(b"database\0x\0\0")).is_err());
    let mut admin = AdminConfig::default();
    let reply = admit_client(&admin, &packet, false).expect("reply");
    assert!(!reply.ends);
    assert!(tags(&reply.bytes).starts_with('R'));
    admin.admin_allowed_user = Some("bob".to_string());
    let reply = admit_client(&admin, &packet, false).expect("reply");
    assert!(reply.ends);
    assert!(tags(&reply.bytes).starts_with('E'));
    admin.admin_allowed_user = None;
    admin.admin_require_tls = true;
    assert!(admit_client(&admin, &packet, false).expect("reply").ends);
    assert!(!admit_client(&admin, &packet, true).expect("reply").ends);
    assert!(check_admin_tls(true, false).is_err());
    assert!(check_admin_tls(true, true).is_ok());
}

#[test]
fn requests_are_answered_in_turn() {
    let state = state();
    let mut buffer = BytesMut::from(&tagged_message(b'Q', b"show clients\0")[..]);
    buffer.extend_from_slice(&tagged_message(b'X', b""));
    let first = next_request(&mut buffer, 1_024).expect("valid").expect("request");
    let reply = answer_request(&state, &first).expect("reply");
    assert_eq!(tags(&reply.bytes), "TDCZ");
    assert!(!reply.ends);
    let second = next_request(&mut buffer, 1_024).expect("valid").expect("request");
    assert!(matches!(second, AdminRequest::Terminate));
    assert!(answer_request(&state, &second).expect("reply").ends);
    assert!(next_request(&mut buffer, 1_024).expect("valid").is_none());
    let mut odd = BytesMut::from(&tagged_message(b'Q', b"select 1\0")[..]);
    let odd = next_request(&mut odd, 1_024).expect("valid").expect("request");
    assert_eq!(tags(&answer_request(&state, &odd).expect("reply").bytes), "EZ");
    assert!(after_read(1, 10, 1_024).is_none());
    assert!(matches!(
        after_read(1, 2_000, 1_024),
        Some(AdminRequest::BufferLimitExceeded)
    ));
    assert!(reject_during_drain().ends);
    assert!(answer_missing_startup(AdminOpening::TimedOut).ends);
    assert_eq!(&ready_for_query()[..], b"Z\0\0\0\x05I");
    let table = admin_table_response(&clients_table(&vec![], &vec![]));
    assert_eq!(tags(&table), "TCZ");
}

#[test]
fn settings_show_no_passwords() {
    let shown = format!("{:?}", settings());
    assert!(!shown.contains("password"));
}

#[test]
fn shards_are_shown_once_each_in_order() {
    let mut sharding = ShardingConfig::default();
    sharding.route_maps = vec![RouteMapConfig {
        scope: ShardScopeConfig::TenantKey { tenant_key: "t".to_string() },
        strategy: ShardStrategyConfig::Hash,
        targets: vec![
            ShardTargetConfig::Primary { shard_id: "b".to_string() },
            ShardTargetConfig::Replicas { shard_id: "b".to_string() },
        ],
        priority: None,
    }];
    let states = vec![
        ShardLifecycleSnapshot {
            shard_id: "a".to_string(),
            lifecycle_state: ShardLifecycleState::Draining,
        },
        ShardLifecycleSnapshot {
            shard_id: "c".to_string(),
            lifecycle_state: ShardLifecycleState::Active,
        },
    ];
    let table = shards_table(&sharding, &states);
    let shown: Vec<(&str, &str, &str, &str)> = table
        .rows
        .iter()
        .map(|row| {
            let values = &row.values;
            (values[0].as_str(), values[3].as_str(), values[4].as_str(), values[5].as_str())
        })
        .collect();
    assert_eq!(
        shown,
        vec![
            ("a", "0", "0", "draining"),
            ("b", "1", "1", "healthy"),
            ("c", "0", "0", "unassigned"),
        ]
    );
    assert_eq!(table.rows[0].values[1], "<none>");
}
