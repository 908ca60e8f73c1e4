use bytes::{Bytes, BytesMut};

use pg_kinetic_proxy::adaptive::{
    parse_tunable_knob, AdaptiveApplyEngine, AdaptiveController, AdaptiveOutcome,
    AdaptiveRecommendationEngine, AdaptiveSignal, AdaptiveSignalCollector, AdaptiveSignalSnapshot,
    AdaptiveTuningSnapshot, KnobChange, TickValues, TunableKnob,
};
use pg_kinetic_proxy::address::SocketAddress;
use pg_kinetic_proxy::backend::{
    negotiate_backend_tls, negotiates_tls, ssl_request_packet, Backend, BackendChannel, BackendIds,
};
use pg_kinetic_proxy::clock::Duration;
use pg_kinetic_proxy::config::{
    BackendTlsMode, Config, MirrorConfig, MirrorSafetyConfig, NodeId, SocketConfig, TlsConfig,
};
use pg_kinetic_proxy::control::{
    ClusterViewStore, ControlEventKind, HeartbeatObserver, HeartbeatPublisher,
    LocalControlEventSink, NodeLifecycleSummary, NodeRegistry, NodeStatus, PeerHealth,
};
use pg_kinetic_proxy::double::Double;
use pg_kinetic_proxy::engine::io_uring_transport::{
    BackendConnectionKey, MonoioBackendPoolSelector, PoolChoice, ReplicaPool, RoutePools,
};
use pg_kinetic_proxy::metrics::{
    endpoint_label, lifecycle_gauges, metric_outcome_index, mirror_increments,
    protocol_phase_index, record_pool_snapshot, shard_bucket, shard_bucket_label, MetricOutcome, MirrorCounter,
    ProtocolPhase,
};
use pg_kinetic_proxy::mirror::{
    auth_request_code, auth_request_expects_client_response, check_mirror_room,
    drain_mirror_bytes, finished_status, MirrorDispatchConfig, MirrorDispatcher, MirrorOutcome,
    MirrorOutcomeRecorder, MirrorReason, MirrorSafetyClassifier, MirrorSafetyGate, MirrorSampler,
    MirrorTarget, MirrorTask, MirrorTaskStatus,
};
use pg_kinetic_proxy::modes::{AdaptiveMode, MirrorMode};
use pg_kinetic_proxy::routing::{
    PinReason, QueryClass, RouteKey, RoutingReason, RoutingTarget, SqlCommand,
};
use pg_kinetic_proxy::runtime::{ReadinessState, RuntimeLifecycleState};
use pg_kinetic_proxy::snapshot::{
    BackpressureSnapshot, LimitsSnapshot, MirrorSummarySnapshot, PoolSnapshot,
};
use pg_kinetic_proxy::snapshot_store::SnapshotStore;
use pg_kinetic_proxy::wire::{tagged_message, FrontendFrame};

fn route(class: QueryClass) -> RouteKey {
    RouteKey {
        database: "db".to_string(),
        user: "u".to_string(),
        application_name: None,
        query_class: class,
        label: "db/u".to_string(),
    }
}

fn frame(tag: u8, payload: &'static [u8]) -> FrontendFrame {
    FrontendFrame { tag, payload: Bytes::from_static(payload) }
}

fn task(class: QueryClass, command: SqlCommand, pin: Option<PinReason>) -> MirrorTask {
    MirrorTask::new(
        1,
        2,
        route(class),
        RoutingTarget::Primary { reason: RoutingReason::Off },
        command,
        Bytes::from_static(b"startup"),
        vec![frame(b'Q', b"set x\0")],
        vec![frame(b'Q', b"select 1\0")],
        pin,
    )
}

fn classifier(mode: MirrorMode, isolated: bool) -> MirrorSafetyClassifier {
    MirrorSafetyClassifier::new(
        SocketAddress::loopback(5432),
        Some(MirrorTarget { address: SocketAddress::loopback(5432), isolated }),
        mode,
        MirrorSafetyConfig::default(),
    )
}

#[test]
fn mirroring_passes_its_gates_in_order() {
    let read = task(QueryClass::Read, SqlCommand::Query, None);
    let off = classifier(MirrorMode::Off, true).classify(&read);
    assert_eq!(off.outcome, MirrorOutcome::Skipped);
    assert_eq!(off.reason, Some(MirrorReason::Disabled));
    let shared = classifier(MirrorMode::ReadOnly, false).classify(&read);
    assert_eq!(shared.outcome, MirrorOutcome::Rejected);
    assert_eq!(shared.gate, MirrorSafetyGate::TargetIsolated);
    let only = classifier(MirrorMode::ReadOnly, true);
    assert_eq!(only.classify(&read).outcome, MirrorOutcome::Mirrored);
    let reason = |class, command, pin| only.classify(&task(class, command, pin)).reason;
    assert_eq!(
        reason(QueryClass::Write, SqlCommand::Query, None),
        Some(MirrorReason::WritesDisabled)
    );
    assert_eq!(
        reason(QueryClass::Read, SqlCommand::Begin, None),
        Some(MirrorReason::TransactionsDisabled)
    );
    assert_eq!(
        reason(QueryClass::Read, SqlCommand::Copy, None),
        Some(MirrorReason::CopyDisabled)
    );
    assert_eq!(
        reason(QueryClass::Read, SqlCommand::Listen, None),
        Some(MirrorReason::ListenNotifyDisabled)
    );
    assert_eq!(
        reason(QueryClass::Read, SqlCommand::Reset, None),
        Some(MirrorReason::SessionMutationDisabled)
    );
    assert_eq!(
        reason(QueryClass::Read, SqlCommand::Query, Some(PinReason::TempTable)),
        Some(MirrorReason::TempTableDisabled)
    );
    let nowhere = MirrorSafetyClassifier::new(
        SocketAddress::loopback(1),
        None,
        MirrorMode::Explicit,
        MirrorSafetyConfig::default(),
    );
    assert_eq!(nowhere.classify(&read).reason, Some(MirrorReason::TargetMissing));
}

fn dispatcher(max_in_flight: usize) -> MirrorDispatcher {
    MirrorDispatcher::new(
        MirrorDispatchConfig {
            production_target: SocketAddress::loopback(5432),
            target: Some(MirrorTarget { address: SocketAddress::loopback(1), isolated: true }),
            mode: MirrorMode::ReadOnly,
            sample_rate: Double::one(),
            safety: MirrorSafetyConfig::default(),
            timeout: Duration::from_millis(100),
            max_in_flight,
            tls: TlsConfig::default(),
            socket: SocketConfig::default(),
        },
        MirrorOutcomeRecorder::new(),
    )
}

#[test]
fn mirrored_requests_are_bounded_and_recorded() {
    let mut dispatcher = dispatcher(1);
    let read = task(QueryClass::Read, SqlCommand::Query, None);
    let (first, flight) = dispatcher.dispatch(&read, true);
    assert_eq!(first.outcome, MirrorOutcome::Mirrored);
    assert_eq!(dispatcher.in_flight(), 1);
    let (_, none) = dispatcher.dispatch(&read, true);
    assert!(none.is_none());
    assert_eq!(dispatcher.recorder().len(), 1);
    assert!(matches!(
        dispatcher.recorder().snapshot()[0].status,
        MirrorTaskStatus::Dropped { .. }
    ));
    dispatcher.finish(
        flight.expect("in flight"),
        finished_status(true, false),
        Duration::from_millis(5),
    );
    assert_eq!(dispatcher.in_flight(), 0);
    assert!(dispatcher.recorder().has_count(2));
    assert_eq!(dispatcher.recorder().snapshot()[1].status.as_str(), "completed");
    assert_eq!(finished_status(false, false).as_str(), MirrorTaskStatus::TimedOut.as_str());
    assert_eq!(finished_status(true, true).as_str(), MirrorTaskStatus::Error.as_str());
    let (sampled_out, none) = dispatcher.dispatch(&read, false);
    assert_eq!(sampled_out.reason, Some(MirrorReason::SampledOut));
    assert!(none.is_none());
}

#[test]
fn a_mirrored_request_is_replayed_behind_its_session() {
    let read = task(QueryClass::Read, SqlCommand::Query, None);
    let mut expected = tagged_message(b'Q', b"set x\0").to_vec();
    expected.extend_from_slice(&tagged_message(b'Q', b"select 1\0"));
    assert_eq!(&read.query_bytes()[..], &expected[..]);
    let telemetry = read.telemetry(MirrorMode::ReadOnly);
    assert_eq!(telemetry.frame_count, 1);
    assert_eq!(telemetry.replay_count, 1);
    assert_eq!(telemetry.route_label, "db/u");
}

#[test]
fn samples_are_drawn_from_the_ids() {
    let sampler = MirrorSampler::with_seed(Double::one(), 7);
    let one = sampler.sample_mantissa(1, 2);
    assert_eq!(one, sampler.sample_mantissa(1, 2));
    assert_ne!(one, sampler.sample_mantissa(1, 3));
    assert!(one < (1u64 << 53));
}

#[test]
fn a_dispatcher_takes_its_share_from_the_settings() {
    let mut mirror = MirrorConfig::default();
    mirror.sampling.mirror_sample_rate = Double::from_bits(0.5f64.to_bits());
    let built = MirrorDispatcher::from_mirror_config(
        SocketAddress::loopback(1),
        &mirror,
        TlsConfig::default(),
        SocketConfig::default(),
        MirrorOutcomeRecorder::new(),
    );
    assert_eq!(built.sampler().rate(), Double::from_bits(0.5f64.to_bits()));
    let off = MirrorDispatcher::disabled(
        SocketAddress::loopback(1),
        TlsConfig::default(),
        SocketConfig::default(),
        MirrorOutcomeRecorder::new(),
    );
    assert_eq!(off.sampler().rate(), Double::zero());
}

#[test]
fn what_a_mirror_answers_is_drained() {
    assert_eq!(auth_request_code(&[0, 0, 0, 5, 9]), Ok(5));
    assert!(auth_request_code(&[0, 0]).is_err());
    assert_eq!(auth_request_expects_client_response(&[0, 0, 0, 0]), Ok(false));
    assert_eq!(auth_request_expects_client_response(&[0, 0, 0, 3]), Ok(true));
    let mut buffer = BytesMut::from(&tagged_message(b'1', b"")[..]);
    assert_eq!(drain_mirror_bytes(&mut buffer, 5, "mirror"), Ok(false));
    assert!(buffer.is_empty());
    let mut buffer = BytesMut::from(&tagged_message(b'Z', b"I")[..]);
    assert_eq!(drain_mirror_bytes(&mut buffer, 6, "mirror"), Ok(true));
    let mut buffer = BytesMut::from(&tagged_message(b'1', b"")[..]);
    buffer.extend_from_slice(b"Z\0\0");
    assert_eq!(drain_mirror_bytes(&mut buffer, 8, "mirror"), Ok(false));
    assert_eq!(&buffer[..], b"Z\0\0");
    buffer.extend_from_slice(b"\0\x05Irest");
    assert_eq!(drain_mirror_bytes(&mut buffer, 7, "mirror"), Ok(true));
    assert_eq!(&buffer[..], b"rest");
    assert!(drain_mirror_bytes(&mut BytesMut::new(), 0, "mirror").is_err());
    assert!(check_mirror_room(0, "mirror").is_ok());
}

fn pool(waiting_clients: usize) -> PoolSnapshot {
    PoolSnapshot { configured_backends: 8, active_backends: 8, idle_backends: 0, waiting_clients }
}

fn limits() -> LimitsSnapshot {
    let zero = Duration::zero;
    LimitsSnapshot {
        max_clients: 10,
        max_backends: 8,
        max_checkout_waiters: 4,
        max_route_in_flight: 4,
        max_route_waiters: 4,
        checkout_timeout: Duration::from_millis(250),
        query_timeout: zero(),
        idle_client_timeout: zero(),
        idle_transaction_timeout: zero(),
        max_client_buffer_bytes: 1,
        max_backend_buffer_bytes: 1,
        recovery_timeout: zero(),
        drain_timeout: zero(),
        readiness_backend_check_interval: zero(),
        readiness_timeout: zero(),
        config_reload_interval: zero(),
        overload_error_code: "53300".to_string(),
    }
}

fn queue(rejected: u64) -> BackpressureSnapshot {
    BackpressureSnapshot {
        route_key: route(QueryClass::Default),
        waiting: 2,
        in_flight: 1,
        rejected,
        timed_out: 3,
        canceled: 4,
    }
}

fn collect(waiting: usize, rejected: u64) -> AdaptiveSignalSnapshot {
    AdaptiveSignalCollector::collect(
        &pool(waiting),
        &limits(),
        &vec![queue(rejected), queue(rejected)],
        &vec![],
    )
}

fn values(confidence: f64) -> TickValues {
    let change = |before: f64, after: f64| KnobChange {
        before: Double::from_bits(before.to_bits()),
        after: Double::from_bits(after.to_bits()),
    };
    TickValues {
        confidence: Double::from_bits(confidence.to_bits()),
        confidence_text: "0.90".to_string(),
        minimum_text: "0.80".to_string(),
        rate_text: "0.500".to_string(),
        pool_size: change(8.0, 9.0),
        backpressure_thresholds: change(4.0, 3.0),
        mirror_sampling: change(0.5, 0.4),
        timeout: change(250.0, 300.0),
    }
}

#[test]
fn signals_are_summed_over_the_queues() {
    let signals = collect(3, 5);
    assert_eq!(signals.backpressure_waiting, 4);
    assert_eq!(signals.backpressure_rejected, 10);
    assert_eq!(signals.backpressure_timed_out, 6);
    assert_eq!(signals.backpressure_canceled, 8);
    assert_eq!(signals.checkout_timeout_ms, 250);
    assert_eq!(signals.overload_events(), 24);
}

#[test]
fn pressure_is_answered_by_recommendations() {
    let mut controller = AdaptiveController::new();
    let mut config = Config::default();
    assert!(controller.tick(&config, &collect(1_000, 1_000), &values(0.9)).is_empty());
    config.runtime.production.adaptive_enabled = true;
    let quiet = controller.tick(&config, &collect(0, 0), &values(0.9));
    assert!(quiet.iter().all(|item| item.signal != AdaptiveSignal::PoolSizePressure));
    let found = controller.tick(&config, &collect(1_000, 1_000), &values(0.9));
    assert_eq!(found[0].signal, AdaptiveSignal::PoolSizePressure);
    assert_eq!(found[0].knob, TunableKnob::PoolSize);
    assert_eq!(
        found[0].reason,
        "1000 checkout waiters are elevated; review pool sizing and backpressure thresholds"
    );
    let last = controller.history().outcomes().last().expect("outcome");
    assert!(last.before_value.is_none());
    config.runtime.production.adaptive.adaptive_mode = AdaptiveMode::Apply;
    config.runtime.production.adaptive.apply.adaptive_apply_enabled = true;
    controller.tick(&config, &collect(1_000, 0), &values(0.9));
    controller.tick(&config, &collect(1_000, 0), &values(0.1));
    let outcomes = controller.history().outcomes();
    assert_eq!(outcomes[outcomes.len() - 1].outcome, AdaptiveOutcome::Rejected);
}

#[test]
fn engines_recommend_and_apply() {
    let mut config = Config::default();
    let tuning = AdaptiveTuningSnapshot::from_config(&config);
    let values = values(0.9);
    let found = AdaptiveRecommendationEngine::new().recommend(
        &collect(1_000, 0),
        &tuning,
        &config.runtime.production.adaptive,
        values.confidence,
        &values.rate_text,
    );
    assert_eq!(found[0].knob, TunableKnob::PoolSize);
    let kept = AdaptiveApplyEngine::new().apply(&config, &found[0], &values);
    assert!(kept.after_value.is_none());
    assert!(kept.disabled_by_reload);
    config.runtime.production.adaptive.adaptive_mode = AdaptiveMode::Apply;
    config.runtime.production.adaptive.apply.adaptive_apply_enabled = true;
    let refused = AdaptiveApplyEngine::new().apply(&config, &found[0], &values);
    assert_eq!(refused.outcome, AdaptiveOutcome::Rejected);
    config.runtime.production.adaptive.apply.adaptive_apply_allowlist = vec![TunableKnob::PoolSize];
    let turned = AdaptiveApplyEngine::new().apply(&config, &found[0], &values);
    assert_eq!(turned.outcome, AdaptiveOutcome::Applied);
    assert_eq!(turned.after_value.map(|value| value.bits), Some(9.0f64.to_bits()));
}

#[test]
fn knobs_are_read_by_name() {
    for knob in [
        TunableKnob::PoolSize,
        TunableKnob::BackpressureThresholds,
        TunableKnob::MirrorSampling,
        TunableKnob::Timeout,
    ] {
        assert_eq!(parse_tunable_knob(knob.as_str()), Ok(knob));
    }
    assert_eq!(
        parse_tunable_knob("x"),
        Err("unsupported tunable knob 'x'".to_string())
    );
}

fn node(name: &str) -> NodeId {
    NodeId::new(name)
}

fn summary() -> NodeLifecycleSummary {
    NodeLifecycleSummary {
        lifecycle_state: RuntimeLifecycleState::Ready,
        readiness_state: ReadinessState::Ready,
    }
}

#[test]
fn heartbeats_make_peers_known_and_silence_unknown() {
    let registry = NodeRegistry::new(node("a"));
    let mut publisher = HeartbeatPublisher::new(&registry);
    let mut sink = LocalControlEventSink::new();
    let first = publisher.publish(&mut sink, summary(), PeerHealth::Healthy);
    let second = publisher.publish(&mut sink, summary(), PeerHealth::Healthy);
    assert_eq!(second.generation, first.generation + 1);
    assert!(!sink.requires_consensus());
    assert_eq!(sink.drain().len(), 2);

    let mut store = ClusterViewStore::new(NodeStatus {
        node_id: node("b"),
        lifecycle: summary(),
        health: PeerHealth::Healthy,
    });
    let observer = HeartbeatObserver::new(Duration::from_secs(5));
    let peer = observer.observe(&mut store, &mut sink, second, Duration::from_secs(4));
    assert!(!peer.unknown);
    let events = sink.drain();
    assert_eq!(events[0].kind, ControlEventKind::PeerHeartbeatObserved);
    assert!(store.snapshot().peers().get("a").is_some());
    assert!(observer.mark_stale(&mut store, &mut sink, &node("a"), 9));
    assert!(store.snapshot().peers().get("a").expect("peer").unknown);
    assert!(!observer.mark_stale(&mut store, &mut sink, &node("c"), 9));
}

#[test]
fn encryption_towards_servers_is_negotiated() {
    assert_eq!(&ssl_request_packet()[..], &[0, 0, 0, 8, 4, 210, 22, 47]);
    assert!(!negotiates_tls(BackendTlsMode::Disable));
    assert!(negotiates_tls(BackendTlsMode::Require));
    assert!(matches!(
        negotiate_backend_tls(BackendTlsMode::Require, b'S'),
        Ok(BackendChannel::Tls)
    ));
    assert!(matches!(
        negotiate_backend_tls(BackendTlsMode::Prefer, b'N'),
        Ok(BackendChannel::Plain)
    ));
    assert!(negotiate_backend_tls(BackendTlsMode::Require, b'N').is_err());
    assert!(negotiate_backend_tls(BackendTlsMode::Prefer, b'E').is_err());
}

#[test]
fn a_server_connection_keeps_what_the_server_said() {
    let mut ids = BackendIds::new();
    let first = ids.take();
    assert_eq!(ids.take(), first + 1);
    let mut backend = Backend::new(first, SocketAddress::loopback(5432), BackendChannel::Tls);
    assert!(backend.is_tls());
    backend.push_parameter_status("a".to_string(), "1".to_string());
    backend.push_parameter_status("b".to_string(), "2".to_string());
    assert_eq!(backend.parameter_status().len(), 2);
    backend.set_key_data(3, 4);
    assert_eq!(backend.key_data(), Some((3, 4)));
    let snapshot =
        backend.server_snapshot("idle", Duration::from_secs(1), Some(route(QueryClass::Read)));
    assert_eq!(snapshot.backend_id, first);
    assert_eq!(snapshot.state, "idle");
    let mut store = SnapshotStore::new(pool(0));
    backend.mark_idle(&mut store, Duration::zero(), None);
    backend.mark_checked_out(&mut store, Duration::from_secs(2), None);
    assert_eq!(store.server_snapshots().len(), 1);
    assert_eq!(store.server_snapshots()[0].state, "checked_out");
    let other = Backend::new(99, SocketAddress::loopback(5432), BackendChannel::Plain);
    other.mark_idle(&mut store, Duration::zero(), None);
    backend.mark_discarded(&mut store);
    assert_eq!(store.server_snapshots().len(), 1);
    assert_eq!(store.server_snapshots()[0].backend_id, 99);
    record_pool_snapshot(&mut store, pool(7));
    assert_eq!(store.pool_snapshot().waiting_clients, 7);
}

fn key(port: u16) -> BackendConnectionKey {
    BackendConnectionKey::new(
        SocketAddress::loopback(port),
        TlsConfig::default(),
        SocketConfig::default(),
    )
}

#[test]
fn connections_are_shared_by_routes_with_one_key() {
    let mut selector = MonoioBackendPoolSelector::new(
        SocketAddress::loopback(1),
        TlsConfig::default(),
        SocketConfig::default(),
    );
    let tls = TlsConfig::default;
    let socket = SocketConfig::default;
    let same = selector.pool_for_route("r", SocketAddress::loopback(1), tls(), socket());
    assert_eq!(same, PoolChoice::Default);
    let other = selector.pool_for_route("r", SocketAddress::loopback(2), tls(), socket());
    assert_eq!(other, PoolChoice::Route(0));
    let again = selector.pool_for_route("r", SocketAddress::loopback(2), tls(), socket());
    assert_eq!(again, other);
    assert_eq!(selector.connection(again).backend_addr, SocketAddress::loopback(2));
    let pools = RoutePools {
        primary: key(1),
        replicas: vec![ReplicaPool { endpoint_id: 9, connection: key(3) }],
    };
    let replica =
        RoutingTarget::Replica { endpoint_id: 9, reason: RoutingReason::ReadCandidateQuery };
    let choice = selector.pool_for_target("r", &pools, replica).expect("replica");
    assert_eq!(selector.connection(choice).backend_addr, SocketAddress::loopback(3));
    let rejected = RoutingTarget::Reject { reason: RoutingReason::FallbackReject };
    assert!(selector.pool_for_target("r", &pools, rejected).is_none());
}

#[test]
fn labels_of_metrics_are_few() {
    assert_eq!(shard_bucket(""), (0xcbf2_9ce4_8422_2325u64 % 8) as u8);
    assert_eq!(shard_bucket("a"), (0xaf63_dc4c_8601_ec8cu64 % 8) as u8);
    assert_eq!(shard_bucket_label(None), "unassigned");
    assert_eq!(shard_bucket_label(Some("a")), "bucket_4");
    assert_eq!(endpoint_label(17), "17");
    assert_ne!(
        protocol_phase_index(ProtocolPhase::Parse),
        protocol_phase_index(ProtocolPhase::Bind)
    );
    assert_ne!(
        metric_outcome_index(MetricOutcome::Error),
        metric_outcome_index(MetricOutcome::Success)
    );
}

#[test]
fn one_gauge_of_a_state_is_set() {
    let gauges = lifecycle_gauges(RuntimeLifecycleState::Draining);
    assert_eq!(gauges.len(), 5);
    let set: Vec<&str> = gauges.iter().filter(|g| g.set).map(|g| g.label).collect();
    assert_eq!(set, vec!["draining"]);
}

#[test]
fn mirror_totals_become_increments() {
    let snapshot = MirrorSummarySnapshot {
        mode: MirrorMode::ReadOnly,
        sample_rate: "1.000".to_string(),
        in_flight: 0,
        dropped_total: 0,
        timed_out_total: 2,
        mirrored_total: 3,
        skipped_total: 0,
        rejected_total: 0,
        last_duration: None,
    };
    let found = mirror_increments(&snapshot);
    let amount = |counter: MirrorCounter| {
        found.iter().filter(|i| i.counter == counter).map(|i| i.amount).sum::<u64>()
    };
    assert_eq!(amount(MirrorCounter::TimedOut), 2);
    assert_eq!(amount(MirrorCounter::Mirrored), 3);
    assert_eq!(amount(MirrorCounter::Dropped), 0);
}
