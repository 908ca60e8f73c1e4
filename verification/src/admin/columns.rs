//! The console's tables, column by column: each value stands under the column that names it.
use vstd::prelude::*;

use crate::admin::tables::{
    audit_row, backpressure_columns, backpressure_row, benchmark_row, benchmarks_columns,
    bool_text, client_row, clients_columns, comparison_names, decision_row,
    limits_columns, limits_row, migration_row, migrations_columns, mirroring_columns,
    mirroring_row, node_row, nodes_columns, opt_id, pinning_columns, pinning_row, policies_columns,
    policy_audit_columns, policy_decisions_columns, policy_row, pool_row, pools_columns,
    prepared_columns, prepared_row, recovery_columns, recovery_row, reload_code_text, reload_text,
    route_map_row, route_maps_columns, route_row, routes_columns, runtime_columns, runtime_row,
    scope_text, server_row, servers_columns, settings_columns, settings_row, shown_comparison,
    shown_ids, shown_lsn, shown_measure, shown_millis, shown_number, shown_opt_millis,
    shown_priority, shown_role, shown_route, shown_text, benchmarks_rows, count_mentions, last_checkout,
    last_health, last_regression, last_state, nodes_rows, run_rows, shard_row, shards_columns,
    RoutePolicyFacts, ShardMentionFacts,
};
use crate::benchmark::{BenchmarkResult, MeasuredValue};
use crate::clock::Duration;
use crate::config::{Config, RouteMapConfig, ShardingConfig};
use crate::policy::{rendered_context, PolicyAuditEvent};
use crate::snapshot::{
    BackpressureSnapshot, BenchmarkRunSnapshot, ClientSnapshot, LimitsSnapshot,
    MirrorSummarySnapshot, NodeSummarySnapshot, PerformanceRegression, PerformanceSnapshot, PinningSnapshot,
    PolicyReloadSnapshot, PolicyStatusSnapshot, PoolSnapshot, PreparedStatementSnapshot,
    RecoverySnapshot, ReplicaHealthSnapshot, RouteCheckoutSnapshot, RouteSnapshot, RuntimeSnapshot,
    ServerSnapshot, SettingsSnapshot, ShardLifecycleSnapshot, ShardMigrationSafetySnapshot,
};
use crate::text::{decimal, joined};

verus! {

/// How single values are shown: times in whole milliseconds, truth values as words, and what is
/// not there as `<none>` or, for a measure, as zero.
pub proof fn law_values_shown(
    flag: bool,
    text: Option<String>,
    span: Duration,
    number: Option<nat>,
    measure: Option<MeasuredValue>,
)
    ensures
        bool_text(flag) == if flag {
            "true"@
        } else {
            "false"@
        },
        text matches Some(value) ==> shown_text(text) == value@,
        text is None ==> shown_text(text) == "<none>"@,
        shown_millis(span) == decimal(span@ / 1_000_000),
        shown_opt_millis(Some(span)) == decimal(span@ / 1_000_000),
        shown_opt_millis(None) == "<none>"@,
        number matches Some(value) ==> shown_number(number) == decimal(value),
        number is None ==> shown_number(number) == "<none>"@,
        measure matches Some(value) ==> shown_measure(measure) == value.shown@,
        measure is None ==> shown_measure(measure) == "0.000"@,
{
}

/// A client's row holds each value under the column that names it.
pub proof fn law_client_values_by_column(s: ClientSnapshot, checkout: Option<RouteCheckoutSnapshot>)
    ensures
        ({
            let columns = clients_columns();
            let row = client_row(s, checkout);
            &&& columns.len() == 9 && row.len() == 9
            &&& columns[0].name == "client_id"@ && row[0] == decimal(s.client_id as nat)
            &&& columns[1].name == "user"@ && row[1] == shown_text(s.user)
            &&& columns[2].name == "database"@ && row[2] == shown_text(s.database)
            &&& columns[3].name == "application_name"@ && row[3] == shown_text(s.application_name)
            &&& columns[4].name == "route_key"@ && row[4] == shown_route(s.route_key)
            &&& columns[5].name == "state"@ && row[5] == s.state@
            &&& columns[6].name == "connected_duration_ms"@ && row[6] == shown_millis(s.connected_duration)
            &&& columns[7].name == "current_target_role"@ && row[7] == shown_role(checkout)
            &&& columns[8].name == "required_session_write_lsn"@ && row[8] == shown_lsn(checkout)
        }),
{
}

/// The pool's row holds each value under the column that names it.
pub proof fn law_pool_values_by_column(s: PoolSnapshot, performance: PerformanceSnapshot)
    ensures
        ({
            let columns = pools_columns();
            let row = pool_row(s, performance);
            &&& columns.len() == 6 && row.len() == 6
            &&& columns[0].name == "route_key"@ && row[0] == "global"@
            &&& columns[1].name == "max_backends"@ && row[1] == decimal(s.configured_backends as nat)
            &&& columns[2].name == "active_backends"@ && row[2] == decimal(s.active_backends as nat)
            &&& columns[3].name == "idle_backends"@ && row[3] == decimal(s.idle_backends as nat)
            &&& columns[4].name == "waiting_clients"@ && row[4] == decimal(s.waiting_clients as nat)
            &&& columns[5].name == "checkout_lock_wait_ms"@ && row[5] == shown_measure(performance.pool_checkout_lock_wait_ms)
        }),
{
}

/// A node's row holds each value under the column that names it.
pub proof fn law_node_values_by_column(s: NodeSummarySnapshot)
    ensures
        ({
            let columns = nodes_columns();
            let row = node_row(s);
            &&& columns.len() == 9 && row.len() == 9
            &&& columns[0].name == "role"@ && row[0] == s.role.name()
            &&& columns[1].name == "node_id"@ && row[1] == s.node_id@
            &&& columns[2].name == "lifecycle_state"@ && row[2] == s.lifecycle_state.name()
            &&& columns[3].name == "readiness_state"@ && row[3] == s.readiness_state.name()
            &&& columns[4].name == "health"@ && row[4] == s.health.name()
            &&& columns[5].name == "route_map_generation_id"@ && row[5] == decimal(s.route_map_generation as nat)
            &&& columns[6].name == "policy_generation_id"@ && row[6] == decimal(s.policy_generation as nat)
            &&& columns[7].name == "heartbeat_age_ms"@ && row[7] == shown_millis(s.heartbeat_age)
            &&& columns[8].name == "overloaded"@ && row[8] == bool_text(s.overloaded)
        }),
{
}

/// A queue's row holds each value under the column that names it.
pub proof fn law_backpressure_values_by_column(s: BackpressureSnapshot)
    ensures
        ({
            let columns = backpressure_columns();
            let row = backpressure_row(s);
            &&& columns.len() == 6 && row.len() == 6
            &&& columns[0].name == "route_key"@ && row[0] == s.route_key@.label
            &&& columns[1].name == "waiting"@ && row[1] == decimal(s.waiting as nat)
            &&& columns[2].name == "in_flight"@ && row[2] == decimal(s.in_flight as nat)
            &&& columns[3].name == "rejected"@ && row[3] == decimal(s.rejected as nat)
            &&& columns[4].name == "timed_out"@ && row[4] == decimal(s.timed_out as nat)
            &&& columns[5].name == "canceled"@ && row[5] == decimal(s.canceled as nat)
        }),
{
}

/// A prepared statement's row holds each value under the column that names it.
pub proof fn law_prepared_values_by_column(s: PreparedStatementSnapshot, performance: PerformanceSnapshot)
    ensures
        ({
            let columns = prepared_columns();
            let row = prepared_row(s, performance);
            &&& columns.len() == 7 && row.len() == 7
            &&& columns[0].name == "session_id"@ && row[0] == decimal(s.session_id as nat)
            &&& columns[1].name == "client_statement_name"@ && row[1] == s.client_statement_name@
            &&& columns[2].name == "backend_statement_name"@ && row[2] == s.backend_statement_name@
            &&& columns[3].name == "materialized_backend_count"@ && row[3] == decimal(s.materialized_backend_count as nat)
            &&& columns[4].name == "invalidation_count"@ && row[4] == decimal(s.invalidation_count as nat)
            &&& columns[5].name == "prepared_cache_hits"@ && row[5] == decimal(performance.prepared_cache_hits as nat)
            &&& columns[6].name == "prepared_cache_misses"@ && row[6] == decimal(performance.prepared_cache_misses as nat)
        }),
{
}

/// A pinned session's row holds each value under the column that names it.
pub proof fn law_pinning_values_by_column(s: PinningSnapshot)
    ensures
        ({
            let columns = pinning_columns();
            let row = pinning_row(s);
            &&& columns.len() == 5 && row.len() == 5
            &&& columns[0].name == "client_id"@ && row[0] == decimal(s.client_id as nat)
            &&& columns[1].name == "backend_id"@ && row[1] == shown_number(opt_id(s.backend_id))
            &&& columns[2].name == "route_key"@ && row[2] == shown_route(s.route_key)
            &&& columns[3].name == "reason"@ && row[3] == s.reason.name()
            &&& columns[4].name == "duration_ms"@ && row[4] == shown_millis(s.duration)
        }),
{
}

/// A recovery's row holds each value under the column that names it.
pub proof fn law_recovery_values_by_column(s: RecoverySnapshot)
    ensures
        ({
            let columns = recovery_columns();
            let row = recovery_row(s);
            &&& columns.len() == 5 && row.len() == 5
            &&& columns[0].name == "trigger"@ && row[0] == s.trigger.name()
            &&& columns[1].name == "action"@ && row[1] == s.action.name()
            &&& columns[2].name == "outcome"@ && row[2] == s.outcome@
            &&& columns[3].name == "count"@ && row[3] == decimal(s.count as nat)
            &&& columns[4].name == "last_error"@ && row[4] == shown_text(s.last_error)
        }),
{
}

/// An audit event's row holds each value under the column that names it.
pub proof fn law_audit_values_by_column(s: PolicyAuditEvent)
    ensures
        ({
            let columns = policy_audit_columns();
            let row = audit_row(s);
            &&& columns.len() == 11 && row.len() == 11
            &&& columns[0].name == "kind"@ && row[0] == s.kind@
            &&& columns[1].name == "policy_id"@ && row[1] == s.policy_id@
            &&& columns[2].name == "policy_version"@ && row[2] == decimal(s.policy_version as nat)
            &&& columns[3].name == "hook_point"@ && row[3] == s.hook_point.name()
            &&& columns[4].name == "action"@ && row[4] == s.action@.name()
            &&& columns[5].name == "outcome"@ && row[5] == s.outcome@
            &&& columns[6].name == "reason"@ && row[6] == shown_text(s.reason)
            &&& columns[7].name == "route"@ && row[7] == shown_text(s.route)
            &&& columns[8].name == "shard"@ && row[8] == shown_text(s.shard)
            &&& columns[9].name == "target_role"@ && row[9] == shown_text(s.target_role)
            &&& columns[10].name == "context"@ && row[10] == rendered_context(s.context@)
        }),
{
}

/// A decision's row holds each value under the column that names it.
pub proof fn law_decision_values_by_column(s: PolicyAuditEvent)
    ensures
        ({
            let columns = policy_decisions_columns();
            let row = decision_row(s);
            &&& columns.len() == 10 && row.len() == 10
            &&& columns[0].name == "policy_id"@ && row[0] == s.policy_id@
            &&& columns[1].name == "policy_version"@ && row[1] == decimal(s.policy_version as nat)
            &&& columns[2].name == "hook_point"@ && row[2] == s.hook_point.name()
            &&& columns[3].name == "action"@ && row[3] == s.action@.name()
            &&& columns[4].name == "outcome"@ && row[4] == s.outcome@
            &&& columns[5].name == "reason"@ && row[5] == shown_text(s.reason)
            &&& columns[6].name == "route"@ && row[6] == shown_text(s.route)
            &&& columns[7].name == "shard"@ && row[7] == shown_text(s.shard)
            &&& columns[8].name == "target_role"@ && row[8] == shown_text(s.target_role)
            &&& columns[9].name == "context"@ && row[9] == rendered_context(s.context@)
        }),
{
}

/// A route's row holds each value under the column that names it.
pub proof fn law_route_values_by_column(s: RouteSnapshot, policy: RoutePolicyFacts, generation: u64, sharding: bool)
    ensures
        ({
            let columns = routes_columns();
            let row = route_row(s, policy, generation, sharding);
            &&& columns.len() == 14 && row.len() == 14
            &&& columns[0].name == "database"@ && row[0] == s.route_key.database@
            &&& columns[1].name == "user"@ && row[1] == s.route_key.user@
            &&& columns[2].name == "application_name"@ && row[2] == shown_text(s.route_key.application_name)
            &&& columns[3].name == "query_class"@ && row[3] == s.route_key.query_class.name()
            &&& columns[4].name == "client_count"@ && row[4] == decimal(s.client_count as nat)
            &&& columns[5].name == "backend_count"@ && row[5] == decimal(s.backend_count as nat)
            &&& columns[6].name == "primary_count"@ && row[6] == decimal(policy.primary_count as nat)
            &&& columns[7].name == "replica_count"@ && row[7] == decimal(policy.replica_count as nat)
            &&& columns[8].name == "read_routing_mode"@ && row[8] == policy.read_routing_mode.name()
            &&& columns[9].name == "fallback_policy"@ && row[9] == policy.fallback_policy.name()
            &&& columns[10].name == "freshness_policy"@ && row[10] == policy.freshness_policy.name()
            &&& columns[11].name == "read_after_write_timeout_ms"@ && row[11] == decimal(policy.timeout_ms as nat)
            &&& columns[12].name == "route_map_generation_id"@ && row[12] == decimal(generation as nat)
            &&& columns[13].name == "sharding_enabled"@ && row[13] == bool_text(sharding)
        }),
{
}

/// A route map's row holds each value under the column that names it.
pub proof fn law_route_map_values_by_column(s: RouteMapConfig, sharding: ShardingConfig)
    ensures
        ({
            let columns = route_maps_columns();
            let row = route_map_row(s, sharding);
            &&& columns.len() == 4 && row.len() == 4
            &&& columns[0].name == "scope"@ && row[0] == scope_text(s.scope)
            &&& columns[1].name == "strategy"@ && row[1] == s.strategy.name()
            &&& columns[2].name == "priority"@ && row[2] == shown_priority(s.priority)
            &&& columns[3].name == "multi_shard_policy"@ && row[3] == sharding.multi_shard_policy.name()
        }),
{
}

/// A migration's row holds each value under the column that names it.
pub proof fn law_migration_values_by_column(s: ShardMigrationSafetySnapshot)
    ensures
        ({
            let columns = migrations_columns();
            let row = migration_row(s);
            &&& columns.len() == 8 && row.len() == 8
            &&& columns[0].name == "migration_state"@ && row[0] == s.migration_state@
            &&& columns[1].name == "migration_override_explicit"@ && row[1] == bool_text(s.migration_override_explicit)
            &&& columns[2].name == "source_shard_ids"@ && row[2] == shown_ids(s.source_shard_ids@)
            &&& columns[3].name == "target_shard_ids"@ && row[3] == shown_ids(s.target_shard_ids@)
            &&& columns[4].name == "active_client_count"@ && row[4] == decimal(match s.safety_report { Some(report) => report.active_clients as nat, None => 0, })
            &&& columns[5].name == "prepared_statement_count"@ && row[5] == decimal(match s.safety_report { Some(report) => report.prepared_statements as nat, None => 0, })
            &&& columns[6].name == "open_transaction_count"@ && row[6] == decimal(match s.safety_report { Some(report) => report.open_transactions as nat, None => 0, })
            &&& columns[7].name == "last_required_lsn"@ && row[7] == match s.safety_report { Some(report) => shown_text(report.last_required_lsn), None => "<none>"@, }
        }),
{
}

/// The settings' row holds each value under the column that names it.
pub proof fn law_settings_values_by_column(s: SettingsSnapshot)
    ensures
        ({
            let columns = settings_columns();
            let row = settings_row(s);
            &&& columns.len() == 26 && row.len() == 26
            &&& columns[0].name == "listen_addr"@ && row[0] == s.listen_addr@
            &&& columns[1].name == "backend_addr"@ && row[1] == s.backend_addr@
            &&& columns[2].name == "client_tls_mode"@ && row[2] == s.client_tls_mode.name()
            &&& columns[3].name == "backend_tls_mode"@ && row[3] == s.backend_tls_mode.name()
            &&& columns[4].name == "auth_mode"@ && row[4] == s.auth_mode.name()
            &&& columns[5].name == "auth_failure_message_mode"@ && row[5] == s.auth_failure_message_mode@
            &&& columns[6].name == "backend_user"@ && row[6] == shown_text(s.backend_user)
            &&& columns[7].name == "backend_reset_query"@ && row[7] == s.backend_reset_query@
            &&& columns[8].name == "recovery_mode"@ && row[8] == s.recovery_mode.name()
            &&& columns[9].name == "reload_enabled"@ && row[9] == bool_text(s.reload_enabled)
            &&& columns[10].name == "config_reload_interval_ms"@ && row[10] == shown_millis(s.config_reload_interval)
            &&& columns[11].name == "drain_timeout_ms"@ && row[11] == shown_millis(s.drain_timeout)
            &&& columns[12].name == "reject_new_clients_during_drain"@ && row[12] == bool_text(s.reject_new_clients_during_drain)
            &&& columns[13].name == "health_addr"@ && row[13] == shown_text(s.health_addr)
            &&& columns[14].name == "readiness_backend_check_interval_ms"@ && row[14] == shown_millis(s.readiness_backend_check_interval)
            &&& columns[15].name == "readiness_timeout_ms"@ && row[15] == shown_millis(s.readiness_timeout)
            &&& columns[16].name == "metrics_addr"@ && row[16] == shown_text(s.metrics_addr)
            &&& columns[17].name == "tcp_nodelay"@ && row[17] == bool_text(s.tcp_nodelay)
            &&& columns[18].name == "tcp_keepalive"@ && row[18] == bool_text(s.tcp_keepalive)
            &&& columns[19].name == "tcp_keepalive_idle_ms"@ && row[19] == shown_opt_millis(s.tcp_keepalive_idle)
            &&& columns[20].name == "tcp_keepalive_interval_ms"@ && row[20] == shown_opt_millis(s.tcp_keepalive_interval)
            &&& columns[21].name == "tcp_keepalive_retries"@ && row[21] == match s.tcp_keepalive_retries { Some(number) => shown_number(Some(number as nat)), None => shown_number(None), }
            &&& columns[22].name == "tcp_user_timeout_ms"@ && row[22] == shown_opt_millis(s.tcp_user_timeout)
            &&& columns[23].name == "tcp_send_buffer_bytes"@ && row[23] == match s.tcp_send_buffer_bytes { Some(number) => shown_number(Some(number as nat)), None => shown_number(None), }
            &&& columns[24].name == "tcp_recv_buffer_bytes"@ && row[24] == match s.tcp_recv_buffer_bytes { Some(number) => shown_number(Some(number as nat)), None => shown_number(None), }
            &&& columns[25].name == "strict_socket_option_mode"@ && row[25] == bool_text(s.strict_socket_option_mode)
        }),
{
}

/// The limits' row holds each value under the column that names it.
pub proof fn law_limits_values_by_column(s: LimitsSnapshot, config: Config)
    ensures
        ({
            let columns = limits_columns();
            let row = limits_row(s, config);
            &&& columns.len() == 19 && row.len() == 19
            &&& columns[0].name == "max_clients"@ && row[0] == decimal(s.max_clients as nat)
            &&& columns[1].name == "max_backends"@ && row[1] == decimal(s.max_backends as nat)
            &&& columns[2].name == "max_checkout_waiters"@ && row[2] == decimal(s.max_checkout_waiters as nat)
            &&& columns[3].name == "max_route_in_flight"@ && row[3] == decimal(s.max_route_in_flight as nat)
            &&& columns[4].name == "max_route_waiters"@ && row[4] == decimal(s.max_route_waiters as nat)
            &&& columns[5].name == "checkout_timeout_ms"@ && row[5] == shown_millis(s.checkout_timeout)
            &&& columns[6].name == "query_timeout_ms"@ && row[6] == shown_millis(s.query_timeout)
            &&& columns[7].name == "idle_client_timeout_ms"@ && row[7] == shown_millis(s.idle_client_timeout)
            &&& columns[8].name == "idle_transaction_timeout_ms"@ && row[8] == shown_millis(s.idle_transaction_timeout)
            &&& columns[9].name == "max_client_buffer_bytes"@ && row[9] == decimal(s.max_client_buffer_bytes as nat)
            &&& columns[10].name == "max_backend_buffer_bytes"@ && row[10] == decimal(s.max_backend_buffer_bytes as nat)
            &&& columns[11].name == "recovery_timeout_ms"@ && row[11] == shown_millis(s.recovery_timeout)
            &&& columns[12].name == "drain_timeout_ms"@ && row[12] == shown_millis(s.drain_timeout)
            &&& columns[13].name == "readiness_backend_check_interval_ms"@ && row[13] == shown_millis(s.readiness_backend_check_interval)
            &&& columns[14].name == "readiness_timeout_ms"@ && row[14] == shown_millis(s.readiness_timeout)
            &&& columns[15].name == "config_reload_interval_ms"@ && row[15] == shown_millis(s.config_reload_interval)
            &&& columns[16].name == "admin_query_timeout_ms"@ && row[16] == decimal(config.admin.admin_query_timeout_ms as nat)
            &&& columns[17].name == "admin_max_clients"@ && row[17] == decimal(config.admin.admin_max_clients as nat)
            &&& columns[18].name == "overload_error_code"@ && row[18] == s.overload_error_code@
        }),
{
}

/// A benchmark result's row holds each value under the column that names it.
pub proof fn law_benchmark_values_by_column(run: BenchmarkRunSnapshot, result: BenchmarkResult, performance: PerformanceSnapshot)
    ensures
        ({
            let columns = benchmarks_columns();
            let row = benchmark_row(run, result, performance);
            &&& columns.len() == 15 && row.len() == 15
            &&& columns[0].name == "scenario"@ && row[0] == run.scenario.metric_label@
            &&& columns[1].name == "target"@ && row[1] == result.target.metric_label@
            &&& columns[2].name == "comparison"@ && row[2] == result.target.comparison.name()
            &&& columns[3].name == "driver"@ && row[3] == result.driver@
            &&& columns[4].name == "duration_ms"@ && row[4] == decimal(result.duration_ms as nat)
            &&& columns[5].name == "p50_ms"@ && row[5] == result.metrics.p50_ms.shown@
            &&& columns[6].name == "p95_ms"@ && row[6] == result.metrics.p95_ms.shown@
            &&& columns[7].name == "p99_ms"@ && row[7] == result.metrics.p99_ms.shown@
            &&& columns[8].name == "throughput_qps"@ && row[8] == result.metrics.throughput_qps.shown@
            &&& columns[9].name == "error_rate"@ && row[9] == result.metrics.error_rate.shown@
            &&& columns[10].name == "cpu_label"@ && row[10] == "redacted"@
            &&& columns[11].name == "memory_label"@ && row[11] == "redacted"@
            &&& columns[12].name == "workload"@ && row[12] == run.scenario.workload@
            &&& columns[13].name == "matrix_targets"@ && row[13] == joined(comparison_names(run.scenario.targets@), ","@)
            &&& columns[14].name == "comparison_outcome"@ && row[14] == shown_comparison( performance.comparisons@, run.scenario.name@, result.target.comparison, )
        }),
{
}

/// A policy's row holds each value under the column that names it.
pub proof fn law_policy_values_by_column(s: PolicyStatusSnapshot, reload: Option<PolicyReloadSnapshot>)
    ensures
        ({
            let columns = policies_columns();
            let row = policy_row(s, reload);
            &&& columns.len() == 7 && row.len() == 7
            &&& columns[0].name == "policy_id"@ && row[0] == s.policy_id@
            &&& columns[1].name == "policy_version"@ && row[1] == decimal(s.policy_version as nat)
            &&& columns[2].name == "policy_mode"@ && row[2] == s.policy_mode.name()
            &&& columns[3].name == "source"@ && row[3] == s.source@
            &&& columns[4].name == "enabled"@ && row[4] == bool_text(s.enabled)
            &&& columns[5].name == "last_reload_outcome"@ && row[5] == reload_text(reload)
            &&& columns[6].name == "error_code"@ && row[6] == reload_code_text(reload)
        }),
{
}

/// The mirror's row holds each value under the column that names it.
pub proof fn law_mirroring_values_by_column(s: MirrorSummarySnapshot)
    ensures
        ({
            let columns = mirroring_columns();
            let row = mirroring_row(Some(s));
            &&& columns.len() == 9 && row.len() == 9
            &&& columns[0].name == "mode"@ && row[0] == s.mode.name()
            &&& columns[1].name == "sample_rate"@ && row[1] == s.sample_rate@
            &&& columns[2].name == "in_flight"@ && row[2] == decimal(s.in_flight as nat)
            &&& columns[3].name == "dropped"@ && row[3] == decimal(s.dropped_total as nat)
            &&& columns[4].name == "timeout_total"@ && row[4] == decimal(s.timed_out_total as nat)
            &&& columns[5].name == "decisions_total"@ && row[5] == decimal(
                (s.dropped_total + s.timed_out_total + s.mirrored_total + s.skipped_total
                    + s.rejected_total) as nat,
            )
            &&& columns[6].name == "mirrored_total"@ && row[6] == decimal(s.mirrored_total as nat)
            &&& columns[7].name == "skipped_total"@ && row[7] == decimal(s.skipped_total as nat)
            &&& columns[8].name == "rejected_total"@ && row[8] == decimal(s.rejected_total as nat)
        }),
{
}

/// The process's row holds each value under the column that names it.
pub proof fn law_runtime_values_by_column(s: RuntimeSnapshot, config: Config)
    ensures
        ({
            let columns = runtime_columns();
            let row = runtime_row(Some(s), config);
            &&& columns.len() == 5 && row.len() == 5
            &&& columns[0].name == "node_id"@ && row[0] == s.node_id@
            &&& columns[1].name == "lifecycle_state"@ && row[1] == s.lifecycle_state.name()
            &&& columns[2].name == "readiness_state"@ && row[2] == s.readiness_state.name()
            &&& columns[3].name == "runtime_engine"@ && row[3] == s.runtime_engine.name()
            &&& columns[4].name == "uptime_ms"@ && row[4] == shown_millis(s.uptime)
        }),
{
}

/// A server connection's row holds each value under the column that names it.
pub proof fn law_server_values_by_column(s: ServerSnapshot, health: Option<ReplicaHealthSnapshot>, now: Duration)
    ensures
        ({
            let columns = servers_columns();
            let row = server_row(s, health, now);
            &&& columns[0].name == "backend_id"@ && row[0] == decimal(s.backend_id as nat)
            &&& columns[1].name == "route_key"@ && row[1] == shown_route(s.route_key)
            &&& columns[2].name == "state"@ && row[2] == s.state@
            &&& columns[3].name == "last_checkout_age_ms"@ && row[3] == shown_millis(s.age)
            &&& columns[4].name == "in_transaction"@ && row[4] == bool_text(s.in_transaction)
        }),
{
}

/// Behind a server connection's own values stand those of its last probe, or that there was none.
pub proof fn law_server_probe_by_column(
    s: ServerSnapshot,
    health: Option<ReplicaHealthSnapshot>,
    now: Duration,
)
    ensures
        ({
            let columns = servers_columns();
            let row = server_row(s, health, now);
            &&& columns.len() == 11 && row.len() == 11
            &&& health matches Some(h) ==> {
                &&& columns[5].name == "endpoint_role"@ && row[5] == h.expected_role.name()
                &&& columns[6].name == "detected_role"@ && row[6] == h.role_state.name()
                &&& columns[7].name == "health"@ && row[7] == h.health_state.name()
                &&& columns[8].name == "lag_ms"@ && row[8] == shown_opt_millis(h.lag_duration)
                &&& columns[9].name == "replay_lsn"@ && row[9] == shown_text(h.replay_lsn)
                &&& columns[10].name == "last_probe_age_ms"@ && (h.last_successful_probe_at
                    is None ==> row[10] == "<none>"@) && (
                h.last_successful_probe_at matches Some(at) ==> at@ <= now@ ==> row[10] == decimal(
                    ((now@ - at@) / 1_000_000) as nat,
                ))
            }
            &&& health is None ==> forall|i: int| 5 <= i < 11 ==> #[trigger] row[i] == "<none>"@
        }),
{
}

/// The newest entry of a list holds: the last health of a server, the last checkout of a route, the
/// last regression of a metric and the last state of a shard.
pub proof fn law_newest_entry_shown(
    health: Seq<ReplicaHealthSnapshot>,
    h: ReplicaHealthSnapshot,
    checkouts: Seq<RouteCheckoutSnapshot>,
    c: RouteCheckoutSnapshot,
    regressions: Seq<PerformanceRegression>,
    g: PerformanceRegression,
    states: Seq<ShardLifecycleSnapshot>,
    t: ShardLifecycleSnapshot,
)
    ensures
        last_health(health.push(h), h.endpoint_id) == Some(h),
        forall|other: u64|
            other != h.endpoint_id ==> #[trigger] last_health(health.push(h), other)
                == last_health(health, other),
        last_checkout(checkouts.push(c), c.route_key@) == Some(c),
        last_regression(regressions.push(g), g.metric) == Some(g),
        last_state(states.push(t), t.shard_id@) == t.lifecycle_state,
        forall|other: Seq<char>|
            other != t.shard_id@ ==> #[trigger] last_state(states.push(t), other) == last_state(
                states,
                other,
            ),
{
    assert(health.push(h).drop_last() =~= health);
    assert(states.push(t).drop_last() =~= states);
}

/// A shard's row: its name, its state, how many primaries and replicas it has, and its health, which
/// its state decides unless it is active.
pub proof fn law_shard_values_by_column(
    mentions: Seq<ShardMentionFacts>,
    states: Seq<ShardLifecycleSnapshot>,
    shard: Seq<char>,
)
    ensures
        ({
            let columns = shards_columns();
            let row = shard_row(mentions, states, shard);
            let state = last_state(states, shard);
            let primaries = mentions.filter(
                |mention: ShardMentionFacts| mention.shard_id == shard && mention.primary,
            ).len();
            let replicas = mentions.filter(
                |mention: ShardMentionFacts| mention.shard_id == shard && !mention.primary,
            ).len();
            &&& columns.len() == 6 && row.len() == 6
            &&& columns[0].name == "shard_id"@ && row[0] == shard
            &&& row[2] == state.name()
            &&& row[3] == decimal(primaries)
            &&& row[4] == decimal(replicas)
            &&& state is Active && primaries + replicas > 0 ==> row[5] == "healthy"@
            &&& state is Active && primaries + replicas == 0 ==> row[5] == "unassigned"@
            &&& state is Draining ==> row[5] == "draining"@
            &&& state is Readonly ==> row[5] == "readonly"@
            &&& state is Disabled ==> row[5] == "disabled"@
        }),
{
    lemma_primaries_counted(mentions, shard);
    lemma_replicas_counted(mentions, shard);
}

proof fn lemma_primaries_counted(mentions: Seq<ShardMentionFacts>, shard: Seq<char>)
    ensures
        count_mentions(mentions, shard, true) == mentions.filter(
            |mention: ShardMentionFacts| mention.shard_id == shard && mention.primary,
        ).len(),
    decreases mentions.len(),
{
    reveal(Seq::filter);
    if mentions.len() > 0 {
        lemma_primaries_counted(mentions.drop_last(), shard);
    }
}

proof fn lemma_replicas_counted(mentions: Seq<ShardMentionFacts>, shard: Seq<char>)
    ensures
        count_mentions(mentions, shard, false) == mentions.filter(
            |mention: ShardMentionFacts| mention.shard_id == shard && !mention.primary,
        ).len(),
    decreases mentions.len(),
{
    reveal(Seq::filter);
    if mentions.len() > 0 {
        lemma_replicas_counted(mentions.drop_last(), shard);
    }
}

/// The newest benchmark runs come first, and eight of them at most.
pub proof fn law_newest_runs_first(
    runs: Seq<BenchmarkRunSnapshot>,
    run: BenchmarkRunSnapshot,
    performance: PerformanceSnapshot,
    most: nat,
)
    requires
        most > 0,
    ensures
        benchmarks_rows(runs.push(run), performance, most) == run_rows(run, performance)
            + benchmarks_rows(runs, performance, (most - 1) as nat),
        benchmarks_rows(runs, performance, 0).len() == 0,
{
    assert(runs.push(run).drop_last() =~= runs);
}

/// Where nodes are known each has a row; otherwise the process itself has one.
pub proof fn law_nodes_or_own_row(nodes: Seq<NodeSummarySnapshot>, own: RuntimeSnapshot, i: int)
    ensures
        0 <= i < nodes.len() ==> nodes_rows(nodes, Some(own)).len() == nodes.len() && nodes_rows(
            nodes,
            Some(own),
        )[i] == node_row(nodes[i]),
        nodes.len() == 0 ==> nodes_rows(nodes, Some(own)).len() == 1 && nodes_rows(
            nodes,
            Some(own),
        )[0][1] == own.node_id@ && nodes_rows(nodes, Some(own))[0][2] == own.lifecycle_state.name(),
        nodes.len() == 0 ==> nodes_rows(nodes, None).len() == 0,
{
}

} // verus!
