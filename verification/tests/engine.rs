use pg_kinetic_proxy::address::SocketAddress;
use pg_kinetic_proxy::clock::Duration;
use pg_kinetic_proxy::config::{
    AuthMode, BackendTlsMode, ClientTlsMode, Config, PoolConfig, ReadRoutingConfig, RouteConfig,
    SocketConfig, TlsConfig,
};
use pg_kinetic_proxy::engine::io_uring::{
    accept_step, direct_backend_addr, direct_backend_addr_for_test,
    session_lifecycle_summary_for_test, session_wait, shard_count, validate_supported_config,
    validate_supported_config_for_test, wake_attempts, waits_for_start, AcceptStep, SessionWait,
    ShardEvent, ShardStartup,
};
use pg_kinetic_proxy::engine::io_uring_transport::{
    BackendConnectionKey, MonoioBackendPoolSelector, PoolChoice, ReplicaPool, RoutePools,
};
use pg_kinetic_proxy::modes::ReadRoutingMode;
use pg_kinetic_proxy::routing::{RoutingReason, RoutingTarget};

fn local(port: u16) -> SocketAddress {
    SocketAddress::v4(0x7f00_0001, port)
}

#[test]
fn supported_config_accepts_plain_pass_through_defaults() {
    let config = Config::default();

    validate_supported_config(&config).expect("default config is supported");
}

#[test]
fn supported_config_accepts_managed_auth() {
    let mut config = Config::default();
    config.auth.auth_mode = AuthMode::Trust;

    validate_supported_config(&config).expect("managed auth uses shared auth path");
}

#[test]
fn supported_config_rejects_tls() {
    let mut config = Config::default();
    config.tls.client_tls_mode = ClientTlsMode::VerifyClient;

    let error = validate_supported_config(&config).expect_err("client TLS is rejected");

    assert!(error.to_string().contains("client_tls_mode=disable"));
}

#[test]
fn supported_config_accepts_single_primary_route_configuration() {
    let mut config = Config::default();
    config.routes = vec![RouteConfig::from_backend_addr(local(6544))];

    let addr = direct_backend_addr(&config).expect("single primary route is supported");

    assert_eq!(addr, local(6544));
}

#[test]
fn supported_config_rejects_multiple_route_configurations() {
    let mut config = Config::default();
    config.routes = vec![
        RouteConfig::from_backend_addr(local(6544)),
        RouteConfig::from_backend_addr(local(6545)),
    ];

    let error = validate_supported_config(&config).expect_err("multiple routes are rejected");

    assert!(error.to_string().contains("single primary route"));
}

#[test]
fn supported_config_accepts_pool_configuration() {
    let mut config = Config::default();
    config.pools = vec![PoolConfig {
        database: "app".to_string(),
        user: "app".to_string(),
        backend_addr: local(6544),
        max_backends: None,
    }];

    validate_supported_config(&config).expect("pool configuration is supported");
}

#[test]
fn supported_config_rejects_read_routing() {
    let mut config = Config::default();
    let mut route = RouteConfig::from_backend_addr(local(6544));
    route.read_routing = ReadRoutingConfig {
        read_routing_mode: ReadRoutingMode::PreferReplica,
        ..ReadRoutingConfig::default()
    };
    config.routes = vec![route];

    let error = validate_supported_config(&config).expect_err("read routing is rejected");

    assert!(error.to_string().contains("read routing"));
}

#[test]
fn every_other_unsupported_setting_is_named() {
    let mut config = Config::default();
    config.tls.backend_tls_mode = BackendTlsMode::Require;
    assert_eq!(
        validate_supported_config_for_test(&config),
        Err("experimental_io_uring currently requires backend_tls_mode=disable".to_string())
    );

    let mut route = RouteConfig::from_backend_addr(local(1));
    route.freshness.max_replica_lag_ms = 1;
    let mut config = Config::default();
    config.routes = vec![route];
    assert!(direct_backend_addr_for_test(&config).unwrap_err().contains("freshness policy"));

    let mut route = RouteConfig::from_backend_addr(local(1));
    route.ha.replica_health_timeout_ms = 1;
    config.routes = vec![route];
    assert!(direct_backend_addr_for_test(&config).unwrap_err().contains("route HA"));

    let mut route = RouteConfig::from_backend_addr(local(1));
    route.primary.tls_mode = BackendTlsMode::Prefer;
    config.routes = vec![route];
    assert!(direct_backend_addr_for_test(&config).unwrap_err().contains("tls_mode=disable"));

    let summary = session_lifecycle_summary_for_test(&Config::default()).expect("supported");
    assert_eq!(summary.client_transport, "monoio");
    assert_eq!(summary.backend_checkout, "shared_pool");
    assert_eq!(summary.session_lifecycle, "shared_proxy");
}

#[test]
fn shards_start_one_by_one() {
    let mut startup = ShardStartup::new(2);
    assert!(!startup.is_done());
    assert_eq!(startup.accept(&ShardEvent::Ready, "1s"), Ok(()));
    assert_eq!(
        startup.accept(&ShardEvent::Failed("no ring".to_string()), "1s"),
        Err("io_uring shard startup failed: no ring".to_string())
    );
    assert_eq!(
        startup.accept(&ShardEvent::TimedOut, "1s"),
        Err("io_uring shard startup timed out after 1s".to_string())
    );
    assert_eq!(
        startup.accept(&ShardEvent::Disconnected, "1s"),
        Err("io_uring shard startup channel closed before all shards were ready".to_string())
    );
    assert_eq!(startup.accept(&ShardEvent::Ready, "1s"), Ok(()));
    assert!(startup.is_done());
    assert_eq!(shard_count(Some(3), Some(8)), 3);
    assert_eq!(shard_count(None, Some(8)), 8);
    assert_eq!(shard_count(None, None), 1);
    assert_eq!(wake_attempts(3), 48);
    assert_eq!(wake_attempts(usize::MAX), usize::MAX);
    assert!(waits_for_start(false, false));
    assert!(!waits_for_start(false, true));
    assert_eq!(accept_step(true, true, true), AcceptStep::Stop);
    assert_eq!(accept_step(false, true, true), AcceptStep::Serve);
    assert_eq!(accept_step(false, false, true), AcceptStep::Drop);
    let second = Duration::from_secs(1);
    assert_eq!(session_wait(0, &Duration::zero(), &second), SessionWait::Done);
    assert_eq!(session_wait(1, &Duration::zero(), &second), SessionWait::Wait);
    assert_eq!(session_wait(1, &second, &second), SessionWait::GiveUp);
}

#[test]
fn selector_reuses_default_pool_and_keeps_route_pools_separate() {
    let default_addr = local(5432);
    let alternate_addr = local(5433);
    let alternate_addr_again = local(5434);
    let mut selector = MonoioBackendPoolSelector::new(
        default_addr,
        TlsConfig::default(),
        SocketConfig::default(),
    );
    let route = "app/app";

    let default_pool = selector.pool_for_route(
        route,
        default_addr,
        TlsConfig::default(),
        SocketConfig::default(),
    );
    let alternate_pool = selector.pool_for_route(
        route,
        alternate_addr,
        TlsConfig::default(),
        SocketConfig::default(),
    );
    let alternate_pool_again = selector.pool_for_route(
        route,
        alternate_addr,
        TlsConfig::default(),
        SocketConfig::default(),
    );
    let alternate_pool_for_new_endpoint = selector.pool_for_route(
        route,
        alternate_addr_again,
        TlsConfig::default(),
        SocketConfig::default(),
    );

    assert_eq!(default_pool, PoolChoice::Default);
    assert_eq!(selector.connection(default_pool).backend_addr, default_addr);
    assert_eq!(selector.connection(alternate_pool).backend_addr, alternate_addr);
    assert_eq!(alternate_pool, alternate_pool_again);
    assert_eq!(
        selector.connection(alternate_pool_for_new_endpoint).backend_addr,
        alternate_addr_again
    );
    assert_ne!(alternate_pool, alternate_pool_for_new_endpoint);
    assert_ne!(default_pool, alternate_pool);
}

#[test]
fn selector_keeps_backend_tls_and_socket_settings_separate() {
    let default_addr = local(5432);
    let route = "app/app";
    let mut selector = MonoioBackendPoolSelector::new(
        default_addr,
        TlsConfig::default(),
        SocketConfig::default(),
    );
    let mut require_tls = TlsConfig::default();
    require_tls.backend_tls_mode = BackendTlsMode::Require;
    let mut tuned_socket = SocketConfig::default();
    tuned_socket.tcp_recv_buffer_bytes = Some(65_536);

    let default_pool = selector.pool_for_route(
        route,
        default_addr,
        TlsConfig::default(),
        SocketConfig::default(),
    );
    let tls_pool =
        selector.pool_for_route(route, default_addr, require_tls.clone(), SocketConfig::default());
    let socket_pool =
        selector.pool_for_route(route, default_addr, TlsConfig::default(), tuned_socket);
    let tls_pool_again =
        selector.pool_for_route(route, default_addr, require_tls.clone(), SocketConfig::default());

    assert_eq!(tls_pool, tls_pool_again);
    assert_ne!(default_pool, tls_pool);
    assert_ne!(default_pool, socket_pool);
    assert_eq!(selector.connection(tls_pool).tls, require_tls);
    assert_eq!(selector.connection(socket_pool).socket, tuned_socket);
}

fn route_pools(primary: SocketAddress, replica: SocketAddress) -> RoutePools {
    RoutePools {
        primary: BackendConnectionKey::new(primary, TlsConfig::default(), SocketConfig::default()),
        replicas: vec![ReplicaPool {
            endpoint_id: 7,
            connection: BackendConnectionKey::new(
                replica,
                TlsConfig::default(),
                SocketConfig::default(),
            ),
        }],
    }
}

#[test]
fn selector_maps_primary_and_replica_targets_to_reusable_endpoint_pools() {
    let default_addr = local(5432);
    let replica_addr = local(5433);
    let mut selector = MonoioBackendPoolSelector::new(
        default_addr,
        TlsConfig::default(),
        SocketConfig::default(),
    );
    let route = "app/app";
    let route_pools = route_pools(default_addr, replica_addr);
    let primary_target = RoutingTarget::Primary { reason: RoutingReason::Off };
    let replica_target = RoutingTarget::Replica {
        endpoint_id: 7,
        reason: RoutingReason::ReadCandidateQuery,
    };

    let primary_pool = selector
        .pool_for_target(route, &route_pools, primary_target)
        .expect("primary target pool");
    let primary_pool_again = selector
        .pool_for_target(route, &route_pools, primary_target)
        .expect("primary target pool reuse");
    let replica_pool = selector
        .pool_for_target(route, &route_pools, replica_target)
        .expect("replica target pool");
    let replica_pool_again = selector
        .pool_for_target(route, &route_pools, replica_target)
        .expect("replica target pool reuse");

    assert_eq!(selector.connection(primary_pool).backend_addr, default_addr);
    assert_eq!(primary_pool, primary_pool_again);
    assert_eq!(selector.connection(replica_pool).backend_addr, replica_addr);
    assert_eq!(replica_pool, replica_pool_again);
    assert_ne!(primary_pool, replica_pool);
}

#[test]
fn selector_does_not_create_pool_for_missing_or_non_checkout_targets() {
    let primary_addr = local(5432);
    let replica_addr = local(5433);
    let mut selector = MonoioBackendPoolSelector::new(
        primary_addr,
        TlsConfig::default(),
        SocketConfig::default(),
    );
    let route = "app/app";
    let route_pools = route_pools(primary_addr, replica_addr);

    let unknown_replica = RoutingTarget::Replica {
        endpoint_id: 99,
        reason: RoutingReason::ReplicaUnavailable,
    };
    let wait_target = RoutingTarget::Wait { reason: RoutingReason::FallbackWait };
    let reject_target = RoutingTarget::Reject { reason: RoutingReason::FallbackReject };

    assert!(selector.pool_for_target(route, &route_pools, unknown_replica).is_none());
    assert!(selector.pool_for_target(route, &route_pools, wait_target).is_none());
    assert!(selector.pool_for_target(route, &route_pools, reject_target).is_none());
}
