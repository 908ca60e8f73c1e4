//! What the proxy tells of itself at one moment. A number that is not whole is held as it
//! is shown, with three digits behind the point, and exactly beside that where it is recorded too.
use vstd::prelude::*;

use crate::benchmark::{
    BenchmarkComparison, BenchmarkResult, BenchmarkScenario, MeasuredValue,
    PerformanceBudgetOutcome, PerformanceMetric,
};
use crate::clock::Duration;
use crate::config::NodeId;
use crate::control::PeerHealth;
use crate::health::{BackendRole, EndpointHealth, EndpointRoleState};
use crate::modes::{
    FallbackPolicy, FreshnessPolicy, MirrorMode, PolicyMode, ReadRoutingMode, RecoveryMode,
    RuntimeEngine,
};
use crate::policy::{FreshnessStatus, PolicyReloadErrorCode};
use crate::routing::{RouteKey, RoutingTarget};
use crate::runtime::{ReadinessState, RuntimeLifecycleState, ShutdownReason};
use crate::security::{AuthMode, BackendTlsMode, ClientTlsMode};

verus! {

/// Whether a node is the one that tells, or another.
#[derive(Clone, Copy, Debug, PartialEq, Eq, Structural)]
pub enum NodeSummaryRole {
    Local,
    Peer,
}

impl NodeSummaryRole {
    /// The name under which the value is written.
    pub open spec fn name(self) -> Seq<char> {
        match self {
            NodeSummaryRole::Local => "local"@,
            NodeSummaryRole::Peer => "peer"@,
        }
    }

    /// The name under which the value is written.
    pub fn as_str(self) -> (r: &'static str)
        ensures
            r@ == self.name(),
    {
        match self {
            NodeSummaryRole::Local => "local",
            NodeSummaryRole::Peer => "peer",
        }
    }

    /// What each value is written as.
    pub proof fn law_written_as(self)
        ensures
            self is Local ==> self.name() == "local"@,
            self is Peer ==> self.name() == "peer"@,
    {
    }

    /// No two values have the same name.
    pub proof fn law_names_differ(a: NodeSummaryRole, b: NodeSummaryRole)
        requires
            a.name() == b.name(),
        ensures
            a == b,
    {
        reveal_strlit("local");
        reveal_strlit("peer");
        assert("local"@.len() == 5);
        assert("peer"@.len() == 4);
    }
}

/// Whether a shard takes requests.
#[derive(Clone, Copy, Debug, PartialEq, Eq, Structural)]
pub enum ShardLifecycleState {
    Active,
    Draining,
    Readonly,
    Disabled,
}

impl ShardLifecycleState {
    /// The name under which the value is written.
    pub open spec fn name(self) -> Seq<char> {
        match self {
            ShardLifecycleState::Active => "active"@,
            ShardLifecycleState::Draining => "draining"@,
            ShardLifecycleState::Readonly => "readonly"@,
            ShardLifecycleState::Disabled => "disabled"@,
        }
    }

    /// The name under which the value is written.
    pub fn as_str(self) -> (r: &'static str)
        ensures
            r@ == self.name(),
    {
        match self {
            ShardLifecycleState::Active => "active",
            ShardLifecycleState::Draining => "draining",
            ShardLifecycleState::Readonly => "readonly",
            ShardLifecycleState::Disabled => "disabled",
        }
    }

    /// What each value is written as.
    pub proof fn law_written_as(self)
        ensures
            self is Active ==> self.name() == "active"@,
            self is Draining ==> self.name() == "draining"@,
            self is Readonly ==> self.name() == "readonly"@,
            self is Disabled ==> self.name() == "disabled"@,
    {
    }

    /// No two values have the same name.
    pub proof fn law_names_differ(a: ShardLifecycleState, b: ShardLifecycleState)
        requires
            a.name() == b.name(),
        ensures
            a == b,
    {
        reveal_strlit("active");
        reveal_strlit("draining");
        reveal_strlit("readonly");
        reveal_strlit("disabled");
        assert("active"@.len() == 6 && "active"@[0] == 'a' && "active"@[1] == 'c');
        assert("draining"@.len() == 8 && "draining"@[0] == 'd' && "draining"@[1] == 'r');
        assert("readonly"@.len() == 8 && "readonly"@[0] == 'r' && "readonly"@[1] == 'e');
        assert("disabled"@.len() == 8 && "disabled"@[0] == 'd' && "disabled"@[1] == 'i');
    }
}

impl Default for ShardLifecycleState {
    fn default() -> (r: ShardLifecycleState)
        ensures
            r == ShardLifecycleState::Active,
    {
        ShardLifecycleState::Active
    }
}

/// Why a client keeps its server.
#[derive(Clone, Copy, Debug, PartialEq, Eq, Structural)]
pub enum SessionPinReason {
    OpenTransaction,
    FailedTransaction,
    SessionState,
    Copy,
    ListenNotify,
    ExtendedQueryCycle,
    UnknownProtocolState,
}

impl SessionPinReason {
    /// The name under which the value is written.
    pub open spec fn name(self) -> Seq<char> {
        match self {
            SessionPinReason::OpenTransaction => "open_transaction"@,
            SessionPinReason::FailedTransaction => "failed_transaction"@,
            SessionPinReason::SessionState => "session_state"@,
            SessionPinReason::Copy => "copy"@,
            SessionPinReason::ListenNotify => "listen_notify"@,
            SessionPinReason::ExtendedQueryCycle => "extended_query_cycle"@,
            SessionPinReason::UnknownProtocolState => "unknown_protocol_state"@,
        }
    }

    /// The name under which the value is written.
    pub fn as_str(self) -> (r: &'static str)
        ensures
            r@ == self.name(),
    {
        match self {
            SessionPinReason::OpenTransaction => "open_transaction",
            SessionPinReason::FailedTransaction => "failed_transaction",
            SessionPinReason::SessionState => "session_state",
            SessionPinReason::Copy => "copy",
            SessionPinReason::ListenNotify => "listen_notify",
            SessionPinReason::ExtendedQueryCycle => "extended_query_cycle",
            SessionPinReason::UnknownProtocolState => "unknown_protocol_state",
        }
    }

    /// What each value is written as.
    pub proof fn law_written_as(self)
        ensures
            self is OpenTransaction ==> self.name() == "open_transaction"@,
            self is FailedTransaction ==> self.name() == "failed_transaction"@,
            self is SessionState ==> self.name() == "session_state"@,
            self is Copy ==> self.name() == "copy"@,
            self is ListenNotify ==> self.name() == "listen_notify"@,
            self is ExtendedQueryCycle ==> self.name() == "extended_query_cycle"@,
            self is UnknownProtocolState ==> self.name() == "unknown_protocol_state"@,
    {
    }

    /// No two values have the same name.
    pub proof fn law_names_differ(a: SessionPinReason, b: SessionPinReason)
        requires
            a.name() == b.name(),
        ensures
            a == b,
    {
        reveal_strlit("open_transaction");
        reveal_strlit("failed_transaction");
        reveal_strlit("session_state");
        reveal_strlit("copy");
        reveal_strlit("listen_notify");
        reveal_strlit("extended_query_cycle");
        reveal_strlit("unknown_protocol_state");
        assert("open_transaction"@.len() == 16 && "open_transaction"@[0] == 'o');
        assert("failed_transaction"@.len() == 18 && "failed_transaction"@[0] == 'f');
        assert("session_state"@.len() == 13 && "session_state"@[0] == 's');
        assert("copy"@.len() == 4 && "copy"@[0] == 'c');
        assert("listen_notify"@.len() == 13 && "listen_notify"@[0] == 'l');
        assert("extended_query_cycle"@.len() == 20 && "extended_query_cycle"@[0] == 'e');
        assert("unknown_protocol_state"@.len() == 22 && "unknown_protocol_state"@[0] == 'u');
    }
}

/// Why a server's session had to be put in order.
#[derive(Clone, Copy, Debug, PartialEq, Eq, Structural)]
pub enum RecoveryTrigger {
    FailedTransaction,
    AbandonedTransaction,
    AbandonedResponse,
    UnknownProtocolState,
}

impl RecoveryTrigger {
    /// The name under which the value is written.
    pub open spec fn name(self) -> Seq<char> {
        match self {
            RecoveryTrigger::FailedTransaction => "failed_transaction"@,
            RecoveryTrigger::AbandonedTransaction => "abandoned_transaction"@,
            RecoveryTrigger::AbandonedResponse => "abandoned_response"@,
            RecoveryTrigger::UnknownProtocolState => "unknown_protocol_state"@,
        }
    }

    /// The name under which the value is written.
    pub fn as_str(self) -> (r: &'static str)
        ensures
            r@ == self.name(),
    {
        match self {
            RecoveryTrigger::FailedTransaction => "failed_transaction",
            RecoveryTrigger::AbandonedTransaction => "abandoned_transaction",
            RecoveryTrigger::AbandonedResponse => "abandoned_response",
            RecoveryTrigger::UnknownProtocolState => "unknown_protocol_state",
        }
    }

    /// What each value is written as.
    pub proof fn law_written_as(self)
        ensures
            self is FailedTransaction ==> self.name() == "failed_transaction"@,
            self is AbandonedTransaction ==> self.name() == "abandoned_transaction"@,
            self is AbandonedResponse ==> self.name() == "abandoned_response"@,
            self is UnknownProtocolState ==> self.name() == "unknown_protocol_state"@,
    {
    }

    /// No two values have the same name.
    pub proof fn law_names_differ(a: RecoveryTrigger, b: RecoveryTrigger)
        requires
            a.name() == b.name(),
        ensures
            a == b,
    {
        reveal_strlit("failed_transaction");
        reveal_strlit("abandoned_transaction");
        reveal_strlit("abandoned_response");
        reveal_strlit("unknown_protocol_state");
        assert("failed_transaction"@.len() == 18 && "failed_transaction"@[0] == 'f');
        assert("abandoned_transaction"@.len() == 21 && "abandoned_transaction"@[0] == 'a');
        assert("abandoned_response"@.len() == 18 && "abandoned_response"@[0] == 'a');
        assert("unknown_protocol_state"@.len() == 22 && "unknown_protocol_state"@[0] == 'u');
    }
}

/// What was done to put a server's session in order.
#[derive(Clone, Copy, Debug, PartialEq, Eq, Structural)]
pub enum RecoveryAction {
    Nothing,
    Rollback,
    DrainAndSync,
    RollbackAndDrain,
    Discard,
}

impl RecoveryAction {
    /// The name under which the value is written.
    pub open spec fn name(self) -> Seq<char> {
        match self {
            RecoveryAction::Nothing => "none"@,
            RecoveryAction::Rollback => "rollback"@,
            RecoveryAction::DrainAndSync => "drain_and_sync"@,
            RecoveryAction::RollbackAndDrain => "rollback_and_drain"@,
            RecoveryAction::Discard => "discard"@,
        }
    }

    /// The name under which the value is written.
    pub fn as_str(self) -> (r: &'static str)
        ensures
            r@ == self.name(),
    {
        match self {
            RecoveryAction::Nothing => "none",
            RecoveryAction::Rollback => "rollback",
            RecoveryAction::DrainAndSync => "drain_and_sync",
            RecoveryAction::RollbackAndDrain => "rollback_and_drain",
            RecoveryAction::Discard => "discard",
        }
    }

    /// What each value is written as.
    pub proof fn law_written_as(self)
        ensures
            self is Nothing ==> self.name() == "none"@,
            self is Rollback ==> self.name() == "rollback"@,
            self is DrainAndSync ==> self.name() == "drain_and_sync"@,
            self is RollbackAndDrain ==> self.name() == "rollback_and_drain"@,
            self is Discard ==> self.name() == "discard"@,
    {
    }

    /// No two values have the same name.
    pub proof fn law_names_differ(a: RecoveryAction, b: RecoveryAction)
        requires
            a.name() == b.name(),
        ensures
            a == b,
    {
        reveal_strlit("none");
        reveal_strlit("rollback");
        reveal_strlit("drain_and_sync");
        reveal_strlit("rollback_and_drain");
        reveal_strlit("discard");
        assert("none"@.len() == 4);
        assert("rollback"@.len() == 8);
        assert("drain_and_sync"@.len() == 14);
        assert("rollback_and_drain"@.len() == 18);
        assert("discard"@.len() == 7);
    }
}

/// A client.
#[derive(Clone, Debug)]
pub struct ClientSnapshot {
    pub client_id: u64,
    pub user: Option<String>,
    pub database: Option<String>,
    pub application_name: Option<String>,
    pub route_key: Option<RouteKey>,
    pub state: String,
    pub connected_duration: Duration,
}

/// Where a route's last request was sent.
#[derive(Clone, Debug)]
pub struct RouteCheckoutSnapshot {
    pub route_key: RouteKey,
    pub decision: RoutingTarget,
    pub required_session_write_lsn: Option<String>,
    pub freshness_outcome: Option<FreshnessStatus>,
}

/// The pool of servers.
#[derive(Clone, Copy, Debug, PartialEq, Eq, Structural)]
pub struct PoolSnapshot {
    pub configured_backends: usize,
    pub active_backends: usize,
    pub idle_backends: usize,
    pub waiting_clients: usize,
}

/// A connection to a server.
#[derive(Clone, Debug)]
pub struct ServerSnapshot {
    pub backend_id: u64,
    pub route_key: Option<RouteKey>,
    pub state: String,
    pub age: Duration,
    pub in_transaction: bool,
}

/// What probes have found of a server.
#[derive(Clone, Debug)]
pub struct ReplicaHealthSnapshot {
    pub endpoint_id: u64,
    pub expected_role: BackendRole,
    pub role_state: EndpointRoleState,
    pub health_state: EndpointHealth,
    pub lag_duration: Option<Duration>,
    pub replay_lsn: Option<String>,
    pub last_successful_probe_at: Option<Duration>,
}

/// The process.
#[derive(Clone, Debug)]
pub struct RuntimeSnapshot {
    pub node_id: NodeId,
    pub lifecycle_state: RuntimeLifecycleState,
    pub readiness_state: ReadinessState,
    pub runtime_engine: RuntimeEngine,
    pub uptime: Duration,
    pub shutdown_reason: Option<ShutdownReason>,
}

/// A node of the cluster.
#[derive(Clone, Debug)]
pub struct NodeSummarySnapshot {
    pub role: NodeSummaryRole,
    pub node_id: NodeId,
    pub lifecycle_state: RuntimeLifecycleState,
    pub readiness_state: ReadinessState,
    pub health: PeerHealth,
    pub route_map_generation: u64,
    pub policy_generation: u64,
    pub heartbeat_age: Duration,
    pub overloaded: bool,
}

/// What became of requests that might be mirrored.
#[derive(Clone, Debug)]
pub struct MirrorSummarySnapshot {
    pub mode: MirrorMode,
    pub sample_rate: String,
    pub in_flight: usize,
    pub dropped_total: u64,
    pub timed_out_total: u64,
    pub mirrored_total: u64,
    pub skipped_total: u64,
    pub rejected_total: u64,
    pub last_duration: Option<Duration>,
}

/// A route's queue.
#[derive(Clone, Debug)]
pub struct BackpressureSnapshot {
    pub route_key: RouteKey,
    pub waiting: usize,
    pub in_flight: usize,
    pub rejected: u64,
    pub timed_out: u64,
    pub canceled: u64,
}

/// A prepared statement.
#[derive(Clone, Debug)]
pub struct PreparedStatementSnapshot {
    pub session_id: u64,
    pub client_statement_name: String,
    pub backend_statement_name: String,
    pub materialized_backend_count: usize,
    pub invalidation_count: u64,
}

/// A client that keeps its server.
#[derive(Clone, Debug)]
pub struct PinningSnapshot {
    pub client_id: u64,
    pub backend_id: Option<u64>,
    pub route_key: Option<RouteKey>,
    pub reason: SessionPinReason,
    pub duration: Duration,
}

/// How often servers' sessions were put in order in one way.
#[derive(Clone, Debug)]
pub struct RecoverySnapshot {
    pub trigger: RecoveryTrigger,
    pub action: RecoveryAction,
    pub outcome: String,
    pub count: u64,
    pub last_error: Option<String>,
}

/// The policies in force.
#[derive(Clone, Debug)]
pub struct PolicyStatusSnapshot {
    pub policy_id: String,
    pub policy_version: u64,
    pub policy_mode: PolicyMode,
    pub source: String,
    pub enabled: bool,
}

/// What came of new policies.
#[derive(Clone, Copy, Debug)]
pub struct PolicyReloadSnapshot {
    pub success: bool,
    pub error_code: Option<PolicyReloadErrorCode>,
}

/// A route's clients and servers.
#[derive(Clone, Debug)]
pub struct RouteSnapshot {
    pub route_key: RouteKey,
    pub client_count: usize,
    pub backend_count: usize,
}

/// How a route's requests are sent to servers.
#[derive(Clone, Debug)]
pub struct RoutePolicySnapshot {
    pub route_key: RouteKey,
    pub primary_count: usize,
    pub replica_count: usize,
    pub read_routing_mode: ReadRoutingMode,
    pub fallback_policy: FallbackPolicy,
    pub freshness_policy: FreshnessPolicy,
    pub read_after_write_timeout_ms: u64,
}

/// What came of new route maps.
#[derive(Clone, Debug)]
pub struct RouteMapReloadSnapshot {
    pub success: bool,
    pub route_map_generation_id: u64,
    pub error_code: Option<String>,
}

/// Whether a shard takes requests.
#[derive(Clone, Debug)]
pub struct ShardLifecycleSnapshot {
    pub shard_id: String,
    pub lifecycle_state: ShardLifecycleState,
}

/// What stands in the way of moving a shard.
#[derive(Clone, Debug)]
pub struct MigrationSafetyReport {
    pub active_clients: usize,
    pub prepared_statements: usize,
    pub open_transactions: usize,
    pub last_required_lsn: Option<String>,
}

/// A plan to move shards.
#[derive(Clone, Debug)]
pub struct ShardMigrationSafetySnapshot {
    pub migration_state: String,
    pub migration_override_explicit: bool,
    pub source_shard_ids: Vec<String>,
    pub target_shard_ids: Vec<String>,
    pub safety_report: Option<MigrationSafetyReport>,
}

/// The settings in force.
#[derive(Clone, Debug)]
pub struct SettingsSnapshot {
    pub listen_addr: String,
    pub backend_addr: String,
    pub client_tls_mode: ClientTlsMode,
    pub backend_tls_mode: BackendTlsMode,
    pub auth_mode: AuthMode,
    pub auth_failure_message_mode: String,
    pub backend_user: Option<String>,
    pub backend_reset_query: String,
    pub recovery_mode: RecoveryMode,
    pub reload_enabled: bool,
    pub config_reload_interval: Duration,
    pub drain_timeout: Duration,
    pub reject_new_clients_during_drain: bool,
    pub health_addr: Option<String>,
    pub readiness_backend_check_interval: Duration,
    pub readiness_timeout: Duration,
    pub metrics_addr: Option<String>,
    pub tcp_nodelay: bool,
    pub tcp_keepalive: bool,
    pub tcp_keepalive_idle: Option<Duration>,
    pub tcp_keepalive_interval: Option<Duration>,
    pub tcp_keepalive_retries: Option<u32>,
    pub tcp_user_timeout: Option<Duration>,
    pub tcp_send_buffer_bytes: Option<usize>,
    pub tcp_recv_buffer_bytes: Option<usize>,
    pub strict_socket_option_mode: bool,
}

/// The limits in force.
#[derive(Clone, Debug)]
pub struct LimitsSnapshot {
    pub max_clients: usize,
    pub max_backends: usize,
    pub max_checkout_waiters: usize,
    pub max_route_in_flight: usize,
    pub max_route_waiters: usize,
    pub checkout_timeout: Duration,
    pub query_timeout: Duration,
    pub idle_client_timeout: Duration,
    pub idle_transaction_timeout: Duration,
    pub max_client_buffer_bytes: usize,
    pub max_backend_buffer_bytes: usize,
    pub recovery_timeout: Duration,
    pub drain_timeout: Duration,
    pub readiness_backend_check_interval: Duration,
    pub readiness_timeout: Duration,
    pub config_reload_interval: Duration,
    pub overload_error_code: String,
}

/// A run of a benchmark.
#[derive(Clone, Debug)]
pub struct BenchmarkRunSnapshot {
    pub scenario: BenchmarkScenario,
    pub results: Vec<BenchmarkResult>,
}

/// From where on a value is too high or too low: the kind of bound, and the bound.
#[derive(Clone, Debug)]
pub struct PerformanceThreshold {
    pub kind: String,
    pub value: String,
}

/// What is allowed of a metric.
#[derive(Clone, Debug)]
pub struct PerformanceBudget {
    pub metric: PerformanceMetric,
    pub warning: PerformanceThreshold,
    pub failure: PerformanceThreshold,
}

/// How a metric kept to what is allowed.
#[derive(Clone, Debug)]
pub struct PerformanceRegression {
    pub metric: PerformanceMetric,
    pub observed_value: String,
    pub baseline_value: Option<String>,
    pub outcome: PerformanceBudgetOutcome,
}

/// How a scenario's target compared.
#[derive(Clone, Debug)]
pub struct BenchmarkComparisonOutcome {
    pub scenario: String,
    pub comparison: BenchmarkComparison,
    pub outcome: PerformanceBudgetOutcome,
}

/// How much work the proxy does, and how it keeps to what is allowed.
#[derive(Clone, Debug)]
pub struct PerformanceSnapshot {
    pub budgets: Vec<PerformanceBudget>,
    pub regressions: Vec<PerformanceRegression>,
    pub comparisons: Vec<BenchmarkComparisonOutcome>,
    pub profile_status: String,
    pub process_status: String,
    pub process_cpu_seconds: Option<MeasuredValue>,
    pub process_resident_memory_bytes: Option<MeasuredValue>,
    pub cpu_per_query: Option<MeasuredValue>,
    pub memory_per_client_bytes: Option<MeasuredValue>,
    pub protocol_buffer_copies: u64,
    pub pool_checkout_lock_wait_ms: Option<MeasuredValue>,
    pub prepared_cache_hits: u64,
    pub prepared_cache_misses: u64,
    pub observability_hot_path_allocations: u64,
    pub idle_clients: usize,
}

} // verus!
