use pg_kinetic_proxy::address::SocketAddress;
use pg_kinetic_proxy::clock::Duration;
use pg_kinetic_proxy::config::{
    default_node_id, parse_duration_ms, AuthFailureMessageMode, AuthMode, BackendEndpointConfig,
    BackendTlsMode, ClientTlsMode, Config, FreshnessConfig, HaConfig, NodeId, PoolConfig,
    PoolLifecycleConfig, PoolMode, RouteConfig, RuntimeEngineConfig, ShardScopeConfig, SocketConfig,
};
use pg_kinetic_proxy::modes::{
    parse_adaptive_mode, parse_fallback_policy, parse_freshness_policy, parse_mirror_mode,
    parse_policy_hook_point, parse_policy_mode, parse_read_routing_mode, parse_recovery_mode,
    parse_runtime_engine, AdaptiveMode, FallbackPolicy, FreshnessPolicy, MirrorMode,
    PolicyHookPoint, PolicyMode, ReadRoutingMode, RecoveryMode, RuntimeEngine,
};
use pg_kinetic_proxy::security;

fn millis(n: u64) -> Duration {
    Duration::from_millis(n)
}

fn command_line() -> Config {
    Config::for_command_line(default_node_id("host", 7))
}

#[test]
fn config_parses_defaults() {
    let config = command_line();

    assert_eq!(config.connection.listen_addr, SocketAddress::v4(0x7f00_0001, 6543));
    assert_eq!(config.connection.backend_addr, SocketAddress::v4(0x7f00_0001, 5432));
    assert_eq!(config.capacity.max_clients, 10_000);
    assert_eq!(config.capacity.max_backends, 100);
    assert_eq!(config.capacity.max_checkout_waiters, 1_000);
    assert_eq!(config.pool_lifecycle, PoolLifecycleConfig::default());
    assert_eq!(config.routes.len(), 0);
    assert_eq!(config.pools.len(), 0);
    assert!(!config.runtime.node.node_id.as_str().is_empty());
    assert_eq!(config.runtime.engine.runtime_engine, RuntimeEngine::ThreadPerCore);
    assert!(!config.runtime.engine.experimental_runtime_enabled);
    assert_eq!(config.runtime.engine.runtime_shards, None);
    assert_eq!(config.runtime.lifecycle.startup_grace_ms, 30_000);
    assert_eq!(config.drain.drain_grace(), Duration::from_secs(30));
    assert_eq!(config.runtime.lifecycle.shutdown_grace_ms, 30_000);
    assert!(config.runtime.lifecycle.readiness_fail_during_drain);
    assert!(config.runtime.lifecycle.pre_stop_drain_enabled);
    assert_eq!(config.runtime.lifecycle.pre_stop_drain_endpoint, "/drain");
    assert!(config.runtime.lifecycle.startup_backend_checks_enabled);
    assert_eq!(
        config.runtime.lifecycle.termination_grace_period(),
        Duration::from_secs(65)
    );
    assert!(!config.runtime.production.control_plane_enabled);
    assert!(!config.runtime.production.mirroring_enabled);
    assert!(!config.runtime.production.adaptive_enabled);
    assert_eq!(config.performance.checkout_timeout(), Duration::from_secs(1));
    assert_eq!(config.performance.pool_mode, PoolMode::Transaction);
    assert_eq!(config.performance.recovery_mode, RecoveryMode::Recover);
    assert_eq!(config.performance.recovery_timeout(), Duration::from_secs(5));
    assert_eq!(config.performance.backend_reset_query, "DISCARD ALL");
    assert_eq!(config.qos.max_route_in_flight, 100);
    assert_eq!(config.qos.max_route_waiters, 1_000);
    assert_eq!(config.qos.query_timeout(), Duration::from_secs(30));
    assert_eq!(config.qos.idle_client_timeout(), Duration::from_secs(300));
    assert_eq!(config.qos.idle_transaction_timeout(), Duration::from_secs(60));
    assert_eq!(config.qos.max_client_buffer_bytes, 1_048_576);
    assert_eq!(config.qos.max_backend_buffer_bytes, 4_194_304);
    assert_eq!(config.qos.overload_error_code, "53300");
    assert_eq!(config.admin.admin_addr, None);
    assert!(!config.admin.admin_require_tls);
    assert_eq!(config.admin.admin_allowed_user, None);
    assert_eq!(config.admin.admin_query_timeout_ms, 1_000);
    assert_eq!(config.admin.admin_max_clients, 8);
    assert_eq!(config.observability.metrics_addr, None);
    assert_eq!(f64::from_bits(config.observability.debug_trace_sampling_rate.bits), 0.0);
    assert_eq!(f64::from_bits(config.observability.phase_timing_sample_rate.bits), 0.0);
    assert!(!config.observability.otel_enabled);
    assert_eq!(config.observability.otel_endpoint, None);
    assert_eq!(config.observability.otel_service_name, "pg-kinetic");

    assert_eq!(config.tls.client_tls_mode, ClientTlsMode::Disable);
    assert_eq!(config.tls.client_cert_path, None);
    assert_eq!(config.tls.client_key_path, None);
    assert_eq!(config.tls.client_ca_path, None);
    assert_eq!(config.tls.backend_tls_mode, BackendTlsMode::Disable);
    assert_eq!(config.tls.backend_ca_path, None);
    assert_eq!(config.tls.backend_server_name, None);

    assert_eq!(config.auth.auth_mode, AuthMode::PassThrough);
    assert_eq!(config.auth.auth_users_file, None);
    assert_eq!(config.auth.backend_user, None);
    assert_eq!(config.auth.backend_password_env_var_name, None);
    assert_eq!(config.auth.auth_failure_message_mode, AuthFailureMessageMode::Generic);

    assert_eq!(config.reload.config_file, None);
    assert_eq!(config.reload.config_reload_interval_ms, 5_000);
    assert!(!config.reload.reload_enabled);

    assert_eq!(config.drain.drain_timeout_ms, 30_000);
    assert!(!config.drain.reject_new_clients_during_drain);

    assert_eq!(config.health.health_addr, None);
    assert_eq!(config.health.readiness_backend_check_interval_ms, 1_000);
    assert_eq!(config.health.readiness_timeout_ms, 5_000);

    assert!(config.socket.tcp_nodelay);
    assert!(!config.socket.tcp_keepalive);
    assert_eq!(config.socket.tcp_keepalive_idle_ms, None);
    assert_eq!(config.socket.tcp_keepalive_interval_ms, None);
    assert_eq!(config.socket.tcp_keepalive_retries, None);
    assert_eq!(config.socket.tcp_user_timeout_ms, None);
    assert_eq!(config.socket.tcp_send_buffer_bytes, None);
    assert_eq!(config.socket.tcp_recv_buffer_bytes, None);
    assert!(!config.socket.strict_socket_option_mode);
}

#[test]
fn reload_compatibility_rejects_restart_required_pool_settings() {
    let current = Config::default();

    let mut next = current.clone();
    next.pool_lifecycle.max_size += 1;
    assert!(!current.is_reload_compatible_with(&next));

    let mut next = current.clone();
    next.performance.checkout_timeout_ms += 1;
    assert!(!current.is_reload_compatible_with(&next));

    let mut next = current.clone();
    next.qos.max_route_in_flight += 1;
    assert!(!current.is_reload_compatible_with(&next));

    let mut next = current.clone();
    next.tls.client_cert_path = Some("changed-cert.pem".to_string());
    assert!(!current.is_reload_compatible_with(&next));

    let mut next = current.clone();
    next.tls.client_key_path = Some("changed-key.pem".to_string());
    assert!(!current.is_reload_compatible_with(&next));

    let mut next = current.clone();
    next.tls.client_ca_path = Some("changed-ca.pem".to_string());
    assert!(!current.is_reload_compatible_with(&next));
}

#[test]
fn reload_compatibility_allows_query_timeout_changes() {
    let current = Config::default();
    let mut next = current.clone();
    next.qos.query_timeout_ms += 1;

    assert!(current.is_reload_compatible_with(&next));
}

#[test]
fn reload_compatibility_is_mutual() {
    let a = Config::default();
    let mut b = Config::default();
    b.qos.query_timeout_ms = 7;
    let mut c = Config::default();
    c.capacity.max_backends = 3;
    for (x, y) in [(&a, &b), (&a, &c), (&b, &c)] {
        assert_eq!(x.is_reload_compatible_with(y), y.is_reload_compatible_with(x));
    }
}

#[test]
fn rejects_zero_global_backend_capacity() {
    let mut config = Config::default();
    config.capacity.max_backends = 0;

    let error = config.validate().expect_err("zero backend capacity must fail");

    assert_eq!(error, "capacity.max_backends must be greater than zero");
}

#[test]
fn experimental_runtime_engines_require_explicit_config_gate() {
    let error = RuntimeEngineConfig {
        runtime_engine: parse_runtime_engine("experimental_io_uring").expect("engine"),
        experimental_runtime_enabled: false,
        runtime_shards: None,
    }
    .validate()
    .expect_err("ungated experimental runtime is rejected");
    assert!(error.contains("experimental_runtime_enabled"));

    let error = RuntimeEngineConfig {
        runtime_engine: parse_runtime_engine("thread_per_core").expect("engine"),
        experimental_runtime_enabled: false,
        runtime_shards: Some(0),
    }
    .validate()
    .expect_err("zero runtime shards are rejected");
    assert!(error.contains("runtime_shards"));
}

#[test]
fn stable_thread_per_core_parses_without_experimental_config_gate() {
    let engine = RuntimeEngineConfig {
        runtime_engine: parse_runtime_engine("thread_per_core").expect("engine"),
        experimental_runtime_enabled: false,
        runtime_shards: Some(2),
    };
    engine.validate().expect("stable thread-per-core runtime parses");

    assert_eq!(engine.runtime_engine, RuntimeEngine::ThreadPerCore);
    assert!(!engine.experimental_runtime_enabled);
    assert_eq!(engine.runtime_shards, Some(2));
}

#[test]
fn config_maps_single_backend_to_default_route() {
    let config = command_line();

    let routes = config.route_configs();
    assert_eq!(routes.len(), 1);

    let route = &routes[0];
    assert_eq!(
        route.primary,
        BackendEndpointConfig {
            address: config.connection.backend_addr,
            connect_timeout_ms: 1_000,
            tls_mode: BackendTlsMode::Disable,
        }
    );
    assert!(route.replicas.is_empty());
    assert_eq!(route.read_routing.read_routing_mode, ReadRoutingMode::Off);
    assert_eq!(route.read_routing.fallback_policy, FallbackPolicy::Primary);
    assert_eq!(
        route.freshness,
        FreshnessConfig {
            freshness_policy: FreshnessPolicy::SessionWriteLsn,
            max_replica_lag_ms: 1_000,
            read_after_write_timeout_ms: 500,
        }
    );
    assert_eq!(
        route.ha,
        HaConfig {
            replica_health_interval_ms: 1_000,
            replica_health_timeout_ms: 500,
        }
    );
}

#[test]
fn rejects_zero_pool_max_backends() {
    let mut config = Config::default();
    config.pools = vec![PoolConfig {
        database: "db_a".to_string(),
        user: "user_a".to_string(),
        backend_addr: SocketAddress::v4(0x7f00_0001, 5433),
        max_backends: Some(0),
    }];
    let error = config
        .validate_pool_configs()
        .expect_err("zero pool capacity must be rejected");

    assert!(error.contains("max_backends must be greater than zero"));
}

#[test]
fn config_converts_named_modes() {
    let mut config = command_line();
    config.tls.client_tls_mode = ClientTlsMode::Require;
    config.tls.backend_tls_mode = BackendTlsMode::Prefer;
    config.auth.auth_mode = AuthMode::Trust;

    assert_eq!(config.tls.client_tls_mode_core(), security::ClientTlsMode::Require);
    assert_eq!(config.tls.backend_tls_mode_core(), security::BackendTlsMode::Prefer);
    assert_eq!(config.auth.auth_mode_core(), security::AuthMode::Trust);
}

#[test]
fn socket_config_helpers_convert_millis() {
    let socket = SocketConfig {
        tcp_nodelay: true,
        tcp_keepalive: true,
        tcp_keepalive_idle_ms: Some(1_500),
        tcp_keepalive_interval_ms: Some(2_500),
        tcp_keepalive_retries: Some(4),
        tcp_user_timeout_ms: Some(3_500),
        tcp_send_buffer_bytes: Some(4_500),
        tcp_recv_buffer_bytes: Some(5_500),
        strict_socket_option_mode: false,
    };

    assert_eq!(socket.tcp_keepalive_idle(), Some(millis(1_500)));
    assert_eq!(socket.tcp_keepalive_interval(), Some(millis(2_500)));
    assert_eq!(socket.tcp_user_timeout(), Some(millis(3_500)));
}

#[test]
fn two_pools_for_one_database_and_user_are_refused() {
    let pool = PoolConfig {
        database: "db".to_string(),
        user: "u".to_string(),
        backend_addr: SocketAddress::v4(1, 1),
        max_backends: None,
    };
    let mut config = Config::default();
    config.pools = vec![pool.clone(), pool.clone()];
    assert!(config.validate_pool_configs().is_err());
    let mut other = pool.clone();
    other.user = "v".to_string();
    config.pools = vec![pool, other];
    assert!(config.validate_pool_configs().is_ok());
}

#[test]
fn node_names_are_cleaned() {
    let name = default_node_id("my host/1", 42);
    assert_eq!(name.as_str(), "my-host-1-42");
    assert_eq!(NodeId::new("proxy-a").as_str(), "proxy-a");
}

#[test]
fn durations_are_read_in_millis() {
    assert_eq!(parse_duration_ms("1500").expect("number"), millis(1_500));
    assert!(parse_duration_ms("soon").is_err());
}

#[test]
fn names_of_modes_are_read() {
    assert_eq!(parse_recovery_mode("rollback_only"), Ok(RecoveryMode::RollbackOnly));
    assert_eq!(parse_read_routing_mode("prefer_replica"), Ok(ReadRoutingMode::PreferReplica));
    assert_eq!(parse_fallback_policy("wait"), Ok(FallbackPolicy::Wait));
    assert_eq!(
        parse_freshness_policy("session_write_lsn_and_max_lag"),
        Ok(FreshnessPolicy::SessionWriteLsnAndMaxLag)
    );
    assert_eq!(parse_policy_mode("disabled"), Ok(PolicyMode::Disabled));
    assert_eq!(parse_policy_hook_point("before_routing"), Ok(PolicyHookPoint::BeforeRouting));
    assert_eq!(parse_mirror_mode("read_only"), Ok(MirrorMode::ReadOnly));
    assert_eq!(parse_adaptive_mode("apply"), Ok(AdaptiveMode::Apply));
    assert!(parse_recovery_mode("nothing").is_err());
    assert!(parse_mirror_mode("ReadOnly").is_err());
}

#[test]
fn a_route_of_one_server_has_defaults() {
    let route = RouteConfig::from_backend_addr(SocketAddress::v4(9, 9));
    assert_eq!(route.primary.address, SocketAddress::v4(9, 9));
    assert_eq!(route.primary.connect_timeout_ms, 1_000);
}

#[test]
fn scopes_are_shown_without_tenants() {
    let tenant = ShardScopeConfig::TenantKey { tenant_key: "acme".to_string() };
    assert_eq!(tenant.shown(), "TenantKey { tenant_key: \"<redacted>\" }");
    let table = ShardScopeConfig::SchemaTable { schema: "s".to_string(), table: "t".to_string() };
    assert_eq!(table.shown(), "SchemaTable { schema: \"s\", table: \"t\" }");
}
