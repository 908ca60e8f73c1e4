//! The admin endpoint: who may use it, what it is asked, and what it answers.
use vstd::prelude::*;

use crate::adaptive::{AdaptiveOutcomeSnapshot, AdaptiveRecommendationSnapshot};
use crate::admin::response::{
    admin_table_response, error_bytes, error_response_and_ready, startup_ok_bytes,
    startup_ok_response, table_bytes, table_countable,
};
use crate::admin::tables::{
    AdminTable, AdminView, TableFacts, adaptive_columns, adaptive_rows, adaptive_table,
    backpressure_columns, backpressure_rows, backpressure_table, benchmarks_columns,
    benchmarks_rows, benchmarks_table, clients_columns, clients_rows, clients_table, is_rectangular,
    latest_generation, latest_route_map_generation, limits_columns, limits_row, limits_table,
    migrations_columns, migrations_rows, migrations_table, mirror_countable, mirroring_columns,
    mirroring_row, mirroring_table, nodes_columns, nodes_rows, nodes_table, performance_columns,
    performance_rows, performance_table, pinning_columns, pinning_rows, pinning_table,
    policies_columns, policies_rows, policies_table, policy_audit_columns, policy_audit_rows,
    policy_audit_table, policy_decisions_columns, policy_decisions_rows, policy_decisions_table,
    pool_row, pools_columns, pools_table, prepared_columns, prepared_rows, prepared_table,
    recovery_columns, recovery_rows, recovery_table, route_maps_columns, route_maps_rows,
    route_maps_table, routes_columns, routes_rows, routes_table, run_rows, runtime_columns,
    runtime_row, runtime_table, servers_columns, servers_rows, servers_table, settings_columns,
    settings_row, settings_table, shards_columns, shards_rows, shards_table,
};
use crate::buffer::{buffer_bytes, find_zero, frozen_slice, new_buffer, zero_at};
use crate::clock::Duration;
use crate::config::{AdminConfig, Config, ShardingConfig};
use crate::policy::PolicyAuditEvent;
use crate::snapshot::{
    BackpressureSnapshot, BenchmarkRunSnapshot, ClientSnapshot, LimitsSnapshot,
    MirrorSummarySnapshot, NodeSummarySnapshot, PerformanceSnapshot, PinningSnapshot,
    PolicyReloadSnapshot, PolicyStatusSnapshot, PoolSnapshot, PreparedStatementSnapshot,
    RecoverySnapshot, ReplicaHealthSnapshot, RouteCheckoutSnapshot, RouteMapReloadSnapshot,
    RoutePolicySnapshot, RouteSnapshot, RuntimeSnapshot, ServerSnapshot, SettingsSnapshot,
    ShardLifecycleSnapshot, ShardMigrationSafetySnapshot,
};
use crate::text::{
    eq_ignore_ascii_case, join2, same_ignoring_case, same_text, string_of_range, text_from_utf8,
    texts, trim, trimmed, utf8_text, words, words_of,
};
use crate::wire::{
    frame_of, pair_texts, parse_frontend_frame, parse_startup_packet, read_startup, scan_frame,
    Frame, FrameLengthError, FrameScan, FrontendFrame, FrontendTag, StartupFacts, StartupPacket,
};

pub mod columns;
pub mod response;
pub mod tables;

verus! {

/// The code of an error for a client that may not use the endpoint.
pub const ADMIN_AUTH_SQLSTATE: &'static str = "28000";

/// The code of an error for something that the endpoint does not do.
pub const ADMIN_UNSUPPORTED_SQLSTATE: &'static str = "0A000";

/// The code of an error for something that took too long.
pub const QUERY_CANCELED_SQLSTATE: &'static str = "57014";

/// The code of an error for a client that comes while the proxy is draining.
pub const OPERATOR_INTERVENTION_SQLSTATE: &'static str = "57000";

// ---------------------------------------------------------------------------
// What is shown
// ---------------------------------------------------------------------------

/// What the endpoint can show: the settings, and what the proxy tells of itself at one moment.
pub struct AdminState {
    pub now: Duration,
    pub config: Config,
    pub clients: Vec<ClientSnapshot>,
    pub route_checkouts: Vec<RouteCheckoutSnapshot>,
    pub pool: PoolSnapshot,
    pub performance: PerformanceSnapshot,
    pub servers: Vec<ServerSnapshot>,
    pub replica_health: Vec<ReplicaHealthSnapshot>,
    pub runtime: Option<RuntimeSnapshot>,
    pub nodes: Vec<NodeSummarySnapshot>,
    pub mirror: Option<MirrorSummarySnapshot>,
    pub adaptive_recommendations: Vec<AdaptiveRecommendationSnapshot>,
    pub adaptive_outcomes: Vec<AdaptiveOutcomeSnapshot>,
    pub benchmark_runs: Vec<BenchmarkRunSnapshot>,
    pub prepared: Vec<PreparedStatementSnapshot>,
    pub pinnings: Vec<PinningSnapshot>,
    pub recoveries: Vec<RecoverySnapshot>,
    pub queues: Vec<BackpressureSnapshot>,
    pub policy_status: Option<PolicyStatusSnapshot>,
    pub policy_reloads: Vec<PolicyReloadSnapshot>,
    pub policy_decisions: Vec<PolicyAuditEvent>,
    pub policy_audit: Vec<PolicyAuditEvent>,
    pub routes: Vec<RouteSnapshot>,
    pub route_policies: Vec<RoutePolicySnapshot>,
    pub route_map_reloads: Vec<RouteMapReloadSnapshot>,
    pub sharding: ShardingConfig,
    pub shard_states: Vec<ShardLifecycleSnapshot>,
    pub migrations: Vec<ShardMigrationSafetySnapshot>,
    pub settings: SettingsSnapshot,
    pub limits: LimitsSnapshot,
}

impl AdminState {
    /// The table of a view.
    pub open spec fn table(self, view: AdminView) -> TableFacts {
        match view {
            AdminView::Clients => TableFacts {
                view,
                columns: clients_columns(),
                rows: clients_rows(self.clients@, self.route_checkouts@),
            },
            AdminView::Pools => TableFacts {
                view,
                columns: pools_columns(),
                rows: seq![pool_row(self.pool, self.performance)],
            },
            AdminView::Servers => TableFacts {
                view,
                columns: servers_columns(),
                rows: servers_rows(self.servers@, self.replica_health@, self.now),
            },
            AdminView::Runtime => TableFacts {
                view,
                columns: runtime_columns(),
                rows: seq![runtime_row(self.runtime, self.config)],
            },
            AdminView::Nodes => TableFacts {
                view,
                columns: nodes_columns(),
                rows: nodes_rows(self.nodes@, self.runtime),
            },
            AdminView::Mirroring => TableFacts {
                view,
                columns: mirroring_columns(),
                rows: seq![mirroring_row(self.mirror)],
            },
            AdminView::Adaptive => TableFacts {
                view,
                columns: adaptive_columns(),
                rows: adaptive_rows(
                    self.config.runtime.production.adaptive.adaptive_mode,
                    self.config.runtime.production.adaptive.apply,
                    self.config.runtime.production.adaptive.guardrail,
                    self.adaptive_recommendations@,
                    self.adaptive_outcomes@,
                ),
            },
            AdminView::Benchmarks => TableFacts {
                view,
                columns: benchmarks_columns(),
                rows: benchmarks_rows(self.benchmark_runs@, self.performance, 8),
            },
            AdminView::Performance => TableFacts {
                view,
                columns: performance_columns(),
                rows: performance_rows(self.performance),
            },
            AdminView::Prepared => TableFacts {
                view,
                columns: prepared_columns(),
                rows: prepared_rows(self.prepared@, self.performance),
            },
            AdminView::Pinning => TableFacts {
                view,
                columns: pinning_columns(),
                rows: pinning_rows(self.pinnings@),
            },
            AdminView::Recovery => TableFacts {
                view,
                columns: recovery_columns(),
                rows: recovery_rows(self.recoveries@),
            },
            AdminView::Backpressure => TableFacts {
                view,
                columns: backpressure_columns(),
                rows: backpressure_rows(self.queues@),
            },
            AdminView::Policies => TableFacts {
                view,
                columns: policies_columns(),
                rows: policies_rows(self.policy_status, self.policy_reloads@),
            },
            AdminView::PolicyDecisions => TableFacts {
                view,
                columns: policy_decisions_columns(),
                rows: policy_decisions_rows(self.policy_decisions@),
            },
            AdminView::PolicyAudit => TableFacts {
                view,
                columns: policy_audit_columns(),
                rows: policy_audit_rows(self.policy_audit@),
            },
            AdminView::Routes => TableFacts {
                view,
                columns: routes_columns(),
                rows: routes_rows(
                    self.routes@,
                    self.route_policies@,
                    latest_generation(self.route_map_reloads@),
                    self.sharding.sharding_enabled,
                ),
            },
            AdminView::RouteMaps => TableFacts {
                view,
                columns: route_maps_columns(),
                rows: route_maps_rows(self.sharding),
            },
            AdminView::Shards => TableFacts {
                view,
                columns: shards_columns(),
                rows: shards_rows(self.sharding, self.shard_states@),
            },
            AdminView::Migrations => TableFacts {
                view,
                columns: migrations_columns(),
                rows: migrations_rows(self.migrations@),
            },
            AdminView::Settings => TableFacts {
                view,
                columns: settings_columns(),
                rows: seq![settings_row(self.settings)],
            },
            AdminView::Limits => TableFacts {
                view,
                columns: limits_columns(),
                rows: seq![limits_row(self.limits, self.config)],
            },
        }
    }

    /// Every row of every table has a value for each of the table's columns.
    pub proof fn law_tables_rectangular(self, view: AdminView)
        ensures
            is_rectangular(self.table(view)),
            0 < self.table(view).columns.len() <= 26,
    {
        match view {
            AdminView::Clients => lemma_clients_shape(self),
            AdminView::Pools => lemma_pools_shape(self),
            AdminView::Servers => lemma_servers_shape(self),
            AdminView::Runtime => lemma_runtime_shape(self),
            AdminView::Nodes => lemma_nodes_shape(self),
            AdminView::Mirroring => lemma_mirroring_shape(self),
            AdminView::Adaptive => lemma_adaptive_shape(self),
            AdminView::Benchmarks => lemma_benchmarks_shape(self),
            AdminView::Performance => lemma_performance_shape(self),
            AdminView::Prepared => lemma_prepared_shape(self),
            AdminView::Pinning => lemma_pinning_shape(self),
            AdminView::Recovery => lemma_recovery_shape(self),
            AdminView::Backpressure => lemma_backpressure_shape(self),
            AdminView::Policies => lemma_policies_shape(self),
            AdminView::PolicyDecisions => lemma_policy_decisions_shape(self),
            AdminView::PolicyAudit => lemma_policy_audit_shape(self),
            AdminView::Routes => lemma_routes_shape(self),
            AdminView::RouteMaps => lemma_route_maps_shape(self),
            AdminView::Shards => lemma_shards_shape(self),
            AdminView::Migrations => lemma_migrations_shape(self),
            AdminView::Settings => lemma_settings_shape(self),
            AdminView::Limits => lemma_limits_shape(self),
        }
    }

    fn build_table(&self, view: AdminView) -> (r: AdminTable)
        requires
            mirror_countable(self.mirror),
        ensures
            r@ == self.table(view),
    {
        match view {
            AdminView::Clients => clients_table(&self.clients, &self.route_checkouts),
            AdminView::Pools => pools_table(&self.pool, &self.performance),
            AdminView::Servers => servers_table(&self.servers, &self.replica_health, &self.now),
            AdminView::Runtime => runtime_table(&self.runtime, &self.config),
            AdminView::Nodes => nodes_table(&self.nodes, &self.runtime),
            AdminView::Mirroring => mirroring_table(&self.mirror),
            AdminView::Adaptive => adaptive_table(
                self.config.runtime.production.adaptive.adaptive_mode,
                &self.config.runtime.production.adaptive.apply,
                &self.config.runtime.production.adaptive.guardrail,
                &self.adaptive_recommendations,
                &self.adaptive_outcomes,
            ),
            AdminView::Benchmarks => benchmarks_table(&self.benchmark_runs, &self.performance),
            AdminView::Performance => performance_table(&self.performance),
            AdminView::Prepared => prepared_table(&self.prepared, &self.performance),
            AdminView::Pinning => pinning_table(&self.pinnings),
            AdminView::Recovery => recovery_table(&self.recoveries),
            AdminView::Backpressure => backpressure_table(&self.queues),
            AdminView::Policies => policies_table(&self.policy_status, &self.policy_reloads),
            AdminView::PolicyDecisions => policy_decisions_table(&self.policy_decisions),
            AdminView::PolicyAudit => policy_audit_table(&self.policy_audit),
            AdminView::Routes => routes_table(
                &self.routes,
                &self.route_policies,
                latest_route_map_generation(&self.route_map_reloads),
                self.sharding.sharding_enabled,
            ),
            AdminView::RouteMaps => route_maps_table(&self.sharding),
            AdminView::Shards => shards_table(&self.sharding, &self.shard_states),
            AdminView::Migrations => migrations_table(&self.migrations),
            AdminView::Settings => settings_table(&self.settings),
            AdminView::Limits => limits_table(&self.limits, &self.config),
        }
    }
}

proof fn lemma_clients_shape(state: AdminState)
    ensures
        is_rectangular(state.table(AdminView::Clients)),
        state.table(AdminView::Clients).columns.len() == 9,
{
}

proof fn lemma_pools_shape(state: AdminState)
    ensures
        is_rectangular(state.table(AdminView::Pools)),
        state.table(AdminView::Pools).columns.len() == 6,
{
}

proof fn lemma_servers_shape(state: AdminState)
    ensures
        is_rectangular(state.table(AdminView::Servers)),
        state.table(AdminView::Servers).columns.len() == 11,
{
}

proof fn lemma_runtime_shape(state: AdminState)
    ensures
        is_rectangular(state.table(AdminView::Runtime)),
        state.table(AdminView::Runtime).columns.len() == 5,
{
}

proof fn lemma_nodes_shape(state: AdminState)
    ensures
        is_rectangular(state.table(AdminView::Nodes)),
        state.table(AdminView::Nodes).columns.len() == 9,
{
}

proof fn lemma_mirroring_shape(state: AdminState)
    ensures
        is_rectangular(state.table(AdminView::Mirroring)),
        state.table(AdminView::Mirroring).columns.len() == 9,
{
}

proof fn lemma_adaptive_shape(state: AdminState)
    ensures
        is_rectangular(state.table(AdminView::Adaptive)),
        state.table(AdminView::Adaptive).columns.len() == 4,
{
}

proof fn lemma_benchmarks_shape(state: AdminState)
    ensures
        is_rectangular(state.table(AdminView::Benchmarks)),
        state.table(AdminView::Benchmarks).columns.len() == 15,
{
    lemma_benchmarks_rows(state.benchmark_runs@, state.performance, 8);
}

proof fn lemma_performance_shape(state: AdminState)
    ensures
        is_rectangular(state.table(AdminView::Performance)),
        state.table(AdminView::Performance).columns.len() == 18,
{
}

proof fn lemma_prepared_shape(state: AdminState)
    ensures
        is_rectangular(state.table(AdminView::Prepared)),
        state.table(AdminView::Prepared).columns.len() == 7,
{
}

proof fn lemma_pinning_shape(state: AdminState)
    ensures
        is_rectangular(state.table(AdminView::Pinning)),
        state.table(AdminView::Pinning).columns.len() == 5,
{
}

proof fn lemma_recovery_shape(state: AdminState)
    ensures
        is_rectangular(state.table(AdminView::Recovery)),
        state.table(AdminView::Recovery).columns.len() == 5,
{
}

proof fn lemma_backpressure_shape(state: AdminState)
    ensures
        is_rectangular(state.table(AdminView::Backpressure)),
        state.table(AdminView::Backpressure).columns.len() == 6,
{
}

proof fn lemma_policies_shape(state: AdminState)
    ensures
        is_rectangular(state.table(AdminView::Policies)),
        state.table(AdminView::Policies).columns.len() == 7,
{
}

proof fn lemma_policy_decisions_shape(state: AdminState)
    ensures
        is_rectangular(state.table(AdminView::PolicyDecisions)),
        state.table(AdminView::PolicyDecisions).columns.len() == 10,
{
}

proof fn lemma_policy_audit_shape(state: AdminState)
    ensures
        is_rectangular(state.table(AdminView::PolicyAudit)),
        state.table(AdminView::PolicyAudit).columns.len() == 11,
{
}

proof fn lemma_routes_shape(state: AdminState)
    ensures
        is_rectangular(state.table(AdminView::Routes)),
        state.table(AdminView::Routes).columns.len() == 14,
{
}

proof fn lemma_route_maps_shape(state: AdminState)
    ensures
        is_rectangular(state.table(AdminView::RouteMaps)),
        state.table(AdminView::RouteMaps).columns.len() == 4,
{
}

proof fn lemma_shards_shape(state: AdminState)
    ensures
        is_rectangular(state.table(AdminView::Shards)),
        state.table(AdminView::Shards).columns.len() == 6,
{
}

proof fn lemma_migrations_shape(state: AdminState)
    ensures
        is_rectangular(state.table(AdminView::Migrations)),
        state.table(AdminView::Migrations).columns.len() == 8,
{
}

proof fn lemma_settings_shape(state: AdminState)
    ensures
        is_rectangular(state.table(AdminView::Settings)),
        state.table(AdminView::Settings).columns.len() == 26,
{
}

proof fn lemma_limits_shape(state: AdminState)
    ensures
        is_rectangular(state.table(AdminView::Limits)),
        state.table(AdminView::Limits).columns.len() == 19,
{
}

proof fn lemma_benchmarks_rows(
    runs: Seq<BenchmarkRunSnapshot>,
    performance: PerformanceSnapshot,
    most: nat,
)
    ensures
        forall|i: int|
            0 <= i < benchmarks_rows(runs, performance, most).len() ==> (
            #[trigger] benchmarks_rows(runs, performance, most)[i]).len() == 15,
    decreases runs.len(),
{
    if runs.len() > 0 && most > 0 {
        lemma_benchmarks_rows(runs.drop_last(), performance, (most - 1) as nat);
        let own = run_rows(runs.last(), performance);
        let rest = benchmarks_rows(runs.drop_last(), performance, (most - 1) as nat);
        let all = benchmarks_rows(runs, performance, most);
        assert(all == own + rest);
        assert forall|i: int| 0 <= i < all.len() implies (#[trigger] all[i]).len() == 15 by {
            if i < own.len() {
                assert(all[i] == own[i]);
            } else {
                assert(all[i] == rest[i - own.len()]);
            }
        }
    }
}

/// The messages of a view's table.
pub fn render_admin_view(state: &AdminState, view: AdminView) -> (r: bytes::BytesMut)
    requires
        mirror_countable(state.mirror),
    ensures
        buffer_bytes(r) == table_bytes(state.table(view)),
{
    let table = state.build_table(view);
    proof {
        state.law_tables_rectangular(view);
        assert(table_countable(table@));
    }
    admin_table_response(&table)
}

// ---------------------------------------------------------------------------
// Commands
// ---------------------------------------------------------------------------

/// What a client asks for.
#[derive(Clone, Debug, PartialEq, Eq)]
pub enum AdminCommand {
    Show(AdminView),
    Unknown(String),
}

/// The view that a word names, whatever the case of its letters.
pub open spec fn view_named(word: Seq<char>) -> Option<AdminView> {
    if same_ignoring_case(word, "clients"@) {
        Some(AdminView::Clients)
    } else if same_ignoring_case(word, "pools"@) {
        Some(AdminView::Pools)
    } else if same_ignoring_case(word, "servers"@) {
        Some(AdminView::Servers)
    } else if same_ignoring_case(word, "runtime"@) {
        Some(AdminView::Runtime)
    } else if same_ignoring_case(word, "nodes"@) {
        Some(AdminView::Nodes)
    } else if same_ignoring_case(word, "mirroring"@) {
        Some(AdminView::Mirroring)
    } else if same_ignoring_case(word, "adaptive"@) {
        Some(AdminView::Adaptive)
    } else if same_ignoring_case(word, "benchmarks"@) {
        Some(AdminView::Benchmarks)
    } else if same_ignoring_case(word, "performance"@) {
        Some(AdminView::Performance)
    } else if same_ignoring_case(word, "prepared"@) {
        Some(AdminView::Prepared)
    } else if same_ignoring_case(word, "pinning"@) {
        Some(AdminView::Pinning)
    } else if same_ignoring_case(word, "recovery"@) {
        Some(AdminView::Recovery)
    } else if same_ignoring_case(word, "backpressure"@) {
        Some(AdminView::Backpressure)
    } else if same_ignoring_case(word, "policies"@) {
        Some(AdminView::Policies)
    } else if same_ignoring_case(word, "policy_decisions"@) {
        Some(AdminView::PolicyDecisions)
    } else if same_ignoring_case(word, "policy_audit"@) {
        Some(AdminView::PolicyAudit)
    } else if same_ignoring_case(word, "routes"@) {
        Some(AdminView::Routes)
    } else if same_ignoring_case(word, "route_maps"@) {
        Some(AdminView::RouteMaps)
    } else if same_ignoring_case(word, "shards"@) {
        Some(AdminView::Shards)
    } else if same_ignoring_case(word, "migrations"@) {
        Some(AdminView::Migrations)
    } else if same_ignoring_case(word, "settings"@) {
        Some(AdminView::Settings)
    } else if same_ignoring_case(word, "limits"@) {
        Some(AdminView::Limits)
    } else {
        None
    }
}

fn parse_view(word: &str) -> (r: Option<AdminView>)
    ensures
        r == view_named(word@),
{
    if eq_ignore_ascii_case(word, "clients") {
        Some(AdminView::Clients)
    } else if eq_ignore_ascii_case(word, "pools") {
        Some(AdminView::Pools)
    } else if eq_ignore_ascii_case(word, "servers") {
        Some(AdminView::Servers)
    } else if eq_ignore_ascii_case(word, "runtime") {
        Some(AdminView::Runtime)
    } else if eq_ignore_ascii_case(word, "nodes") {
        Some(AdminView::Nodes)
    } else if eq_ignore_ascii_case(word, "mirroring") {
        Some(AdminView::Mirroring)
    } else if eq_ignore_ascii_case(word, "adaptive") {
        Some(AdminView::Adaptive)
    } else if eq_ignore_ascii_case(word, "benchmarks") {
        Some(AdminView::Benchmarks)
    } else if eq_ignore_ascii_case(word, "performance") {
        Some(AdminView::Performance)
    } else if eq_ignore_ascii_case(word, "prepared") {
        Some(AdminView::Prepared)
    } else if eq_ignore_ascii_case(word, "pinning") {
        Some(AdminView::Pinning)
    } else if eq_ignore_ascii_case(word, "recovery") {
        Some(AdminView::Recovery)
    } else if eq_ignore_ascii_case(word, "backpressure") {
        Some(AdminView::Backpressure)
    } else if eq_ignore_ascii_case(word, "policies") {
        Some(AdminView::Policies)
    } else if eq_ignore_ascii_case(word, "policy_decisions") {
        Some(AdminView::PolicyDecisions)
    } else if eq_ignore_ascii_case(word, "policy_audit") {
        Some(AdminView::PolicyAudit)
    } else if eq_ignore_ascii_case(word, "routes") {
        Some(AdminView::Routes)
    } else if eq_ignore_ascii_case(word, "route_maps") {
        Some(AdminView::RouteMaps)
    } else if eq_ignore_ascii_case(word, "shards") {
        Some(AdminView::Shards)
    } else if eq_ignore_ascii_case(word, "migrations") {
        Some(AdminView::Migrations)
    } else if eq_ignore_ascii_case(word, "settings") {
        Some(AdminView::Settings)
    } else if eq_ignore_ascii_case(word, "limits") {
        Some(AdminView::Limits)
    } else {
        None
    }
}

/// A statement without white space around it and without a semicolon at its end.
pub open spec fn bare_statement(sql: Seq<char>) -> Seq<char> {
    let text = trimmed(sql);
    if text.len() > 0 && text.last() == ';' {
        text.drop_last()
    } else {
        text
    }
}

/// The view that a statement asks for: `SHOW` and the view's name.
pub open spec fn asked_view(sql: Seq<char>) -> Option<AdminView> {
    let list = words_of(bare_statement(sql));
    if list.len() == 2 && same_ignoring_case(list[0], "show"@) {
        view_named(list[1])
    } else {
        None
    }
}

/// Reads what a client asks for.
pub fn parse_admin_command(sql: &str) -> (r: AdminCommand)
    ensures
        match asked_view(sql@) {
            Some(view) => r == AdminCommand::Show(view),
            None => r is Unknown && r->Unknown_0@ == sql@,
        },
{
    let text = trim(sql);
    let chars = crate::text::chars_of(text.as_str());
    let end: usize = if chars.len() > 0 && chars[chars.len() - 1] == ';' {
        chars.len() - 1
    } else {
        chars.len()
    };
    let bare = string_of_range(&chars, 0, end);
    assert(bare@ =~= bare_statement(sql@));
    let list = words(bare.as_str());
    assert(texts(list@).len() == list@.len());
    if list.len() == 2 {
        assert(texts(list@)[0] == list@[0]@);
        assert(texts(list@)[1] == list@[1]@);
        if eq_ignore_ascii_case(list[0].as_str(), "show") {
            match parse_view(list[1].as_str()) {
                Some(view) => {
                    return AdminCommand::Show(view);
                },
                None => {},
            }
        }
    }
    AdminCommand::Unknown(sql.to_owned())
}

/// The statement of a query message, or what is wrong with the message.
pub open spec fn query_text(payload: Seq<u8>) -> Result<Seq<char>, Seq<char>> {
    if zero_at(payload) >= payload.len() {
        Err("simple query is not terminated"@)
    } else {
        match utf8_text(payload.take(zero_at(payload))) {
            Some(text) => Ok(text),
            None => Err("simple query is not valid utf-8"@),
        }
    }
}

/// Reads the statement of a message; none where the message is no query.
pub fn parse_simple_query(frame: &FrontendFrame) -> (r: Result<Option<String>, String>)
    ensures
        match r {
            Ok(None) => frame@.tag != FrontendTag::Query.byte(),
            Ok(Some(sql)) => frame@.tag == FrontendTag::Query.byte() && query_text(frame@.payload)
                == Ok::<Seq<char>, Seq<char>>(sql@),
            Err(message) => frame@.tag == FrontendTag::Query.byte() && query_text(frame@.payload)
                == Err::<Seq<char>, Seq<char>>(message@),
        },
{
    if frame.tag != FrontendTag::Query.as_byte() {
        return Ok(None);
    }
    let payload = frozen_slice(&frame.payload);
    let end: usize = find_zero(payload);
    if end >= payload.len() {
        return Err("simple query is not terminated".to_owned());
    }
    let body = vstd::slice::slice_subrange(payload, 0, end);
    assert(body@ =~= payload@.take(end as int));
    match text_from_utf8(body) {
        Some(text) => Ok(Some(text)),
        None => Err("simple query is not valid utf-8".to_owned()),
    }
}

// ---------------------------------------------------------------------------
// Sessions
// ---------------------------------------------------------------------------

/// Whether the endpoint may be opened: where it asks for TLS, there has to be any.
pub fn check_admin_tls(require_tls: bool, tls_configured: bool) -> (r: Result<(), String>)
    ensures
        match r {
            Ok(()) => !require_tls || tls_configured,
            Err(message) => require_tls && !tls_configured && message@
                == "admin TLS is required but client TLS is disabled"@,
        },
{
    if require_tls && !tls_configured {
        Err("admin TLS is required but client TLS is disabled".to_owned())
    } else {
        Ok(())
    }
}

/// The value of the first parameter with a name, whatever the case of its letters.
pub open spec fn parameter(pairs: Seq<(Seq<char>, Seq<char>)>, name: Seq<char>) -> Option<Seq<char>>
    decreases pairs.len(),
{
    if pairs.len() == 0 {
        None
    } else if same_ignoring_case(pairs[0].0, name) {
        Some(pairs[0].1)
    } else {
        parameter(pairs.skip(1), name)
    }
}

/// The user that a first packet names, or what is wrong with the packet.
pub open spec fn named_user(packet: Seq<u8>) -> Result<Seq<char>, Seq<char>> {
    match read_startup(packet) {
        Err(_) => Err("parse admin startup packet"@),
        Ok(StartupFacts::Startup(pairs)) => match parameter(pairs, "user"@) {
            Some(user) => Ok(user),
            None => Err("admin startup packet missing user"@),
        },
        Ok(_) => Err("unexpected startup packet kind"@),
    }
}

/// The user that a first packet names.
pub fn startup_user(packet: &[u8]) -> (r: Result<String, String>)
    ensures
        match r {
            Ok(user) => named_user(packet@) == Ok::<Seq<char>, Seq<char>>(user@),
            Err(message) => named_user(packet@) == Err::<Seq<char>, Seq<char>>(message@),
        },
{
    let parameters = match parse_startup_packet(packet) {
        Err(_) => {
            return Err("parse admin startup packet".to_owned());
        },
        Ok(StartupPacket::Startup { parameters }) => parameters,
        Ok(_) => {
            return Err("unexpected startup packet kind".to_owned());
        },
    };
    let ghost pairs = pair_texts(parameters@);
    let mut i: usize = 0;
    assert(pairs.skip(0) =~= pairs);
    while i < parameters.len()
        invariant
            i <= parameters@.len(),
            pairs == pair_texts(parameters@),
            read_startup(packet@) is Ok,
            read_startup(packet@)->Ok_0 == StartupFacts::Startup(pairs),
            parameter(pairs, "user"@) == parameter(pairs.skip(i as int), "user"@),
        decreases parameters@.len() - i,
    {
        assert(pairs.skip(i as int)[0] == pairs[i as int]);
        if eq_ignore_ascii_case(parameters[i].0.as_str(), "user") {
            return Ok(parameters[i].1.clone());
        }
        assert(pairs.skip(i as int).skip(1) =~= pairs.skip(i + 1));
        i += 1;
    }
    Err("admin startup packet missing user".to_owned())
}

/// What is sent to a client, and whether its session ends with that.
#[derive(Debug)]
pub struct AdminReply {
    pub bytes: bytes::BytesMut,
    pub ends: bool,
}

/// What is sent to a client, as plain values.
pub struct ReplyFacts {
    pub bytes: Seq<u8>,
    pub ends: bool,
}

impl View for AdminReply {
    type V = ReplyFacts;

    open spec fn view(&self) -> ReplyFacts {
        ReplyFacts { bytes: buffer_bytes(self.bytes), ends: self.ends }
    }
}

fn silent_end() -> (r: AdminReply)
    ensures
        r@ == (ReplyFacts { bytes: Seq::empty(), ends: true }),
{
    let bytes = new_buffer();
    assert(buffer_bytes(bytes) =~= Seq::empty());
    AdminReply { bytes, ends: true }
}

fn error_reply(sqlstate: &str, message: &str, ends: bool) -> (r: AdminReply)
    ensures
        r@ == (ReplyFacts { bytes: error_bytes(sqlstate@, message@), ends }),
{
    AdminReply { bytes: error_response_and_ready(sqlstate, message), ends }
}

/// What a client is answered that comes while the proxy is draining.
pub fn reject_during_drain() -> (r: AdminReply)
    ensures
        r@ == (ReplyFacts {
            bytes: error_bytes(OPERATOR_INTERVENTION_SQLSTATE@, "proxy is draining"@),
            ends: true,
        }),
{
    error_reply(OPERATOR_INTERVENTION_SQLSTATE, "proxy is draining", true)
}

/// What came of waiting for a client's first packet.
#[derive(Clone, Copy, Debug)]
pub enum AdminOpening {
    ClientClosed,
    TimedOut,
    BufferLimitExceeded,
}

/// What a client is answered that sent no first packet.
pub fn answer_missing_startup(opening: AdminOpening) -> (r: AdminReply)
    ensures
        r@ == match opening {
            AdminOpening::TimedOut => ReplyFacts {
                bytes: error_bytes(QUERY_CANCELED_SQLSTATE@, "admin startup timed out"@),
                ends: true,
            },
            _ => ReplyFacts { bytes: Seq::empty(), ends: true },
        },
{
    match opening {
        AdminOpening::TimedOut => error_reply(
            QUERY_CANCELED_SQLSTATE,
            "admin startup timed out",
            true,
        ),
        AdminOpening::ClientClosed | AdminOpening::BufferLimitExceeded => silent_end(),
    }
}

/// What a client is answered after its first packet: it is let in where it is the user that may
/// use the endpoint, and comes over TLS where that is asked for.
pub open spec fn admission(admin: AdminConfig, user: Seq<char>, is_tls: bool) -> ReplyFacts {
    if admin.admin_allowed_user is Some && admin.admin_allowed_user->0@ != user {
        ReplyFacts {
            bytes: error_bytes(
                ADMIN_AUTH_SQLSTATE@,
                "admin access restricted to user "@ + admin.admin_allowed_user->0@,
            ),
            ends: true,
        }
    } else if admin.admin_require_tls && !is_tls {
        ReplyFacts {
            bytes: error_bytes(ADMIN_AUTH_SQLSTATE@, "admin endpoint requires TLS"@),
            ends: true,
        }
    } else {
        ReplyFacts { bytes: startup_ok_bytes(), ends: false }
    }
}

/// Nobody is let in but the user that may use the endpoint, nor without TLS where that is asked
/// for.
pub proof fn law_only_the_allowed_get_in(admin: AdminConfig, user: Seq<char>, is_tls: bool)
    ensures
        !admission(admin, user, is_tls).ends <==> {
            &&& admin.admin_allowed_user matches Some(allowed) ==> allowed@ == user
            &&& admin.admin_require_tls ==> is_tls
        },
{
}

/// Answers a client's first packet.
pub fn admit_client(admin: &AdminConfig, packet: &[u8], is_tls: bool) -> (r: Result<
    AdminReply,
    String,
>)
    ensures
        match r {
            Ok(reply) => named_user(packet@) is Ok && reply@ == admission(
                *admin,
                named_user(packet@)->Ok_0,
                is_tls,
            ),
            Err(message) => named_user(packet@) == Err::<Seq<char>, Seq<char>>(message@),
        },
{
    let user = match startup_user(packet) {
        Ok(user) => user,
        Err(message) => {
            return Err(message);
        },
    };
    match &admin.admin_allowed_user {
        Some(allowed) => {
            if !same_text(user.as_str(), allowed.as_str()) {
                return Ok(
                    error_reply(
                        ADMIN_AUTH_SQLSTATE,
                        join2("admin access restricted to user ", allowed.as_str()).as_str(),
                        true,
                    ),
                );
            }
        },
        None => {},
    }
    if admin.admin_require_tls && !is_tls {
        return Ok(error_reply(ADMIN_AUTH_SQLSTATE, "admin endpoint requires TLS", true));
    }
    Ok(AdminReply { bytes: startup_ok_response(), ends: false })
}

/// What a client sent, or that nothing came.
#[derive(Debug)]
pub enum AdminRequest {
    Query(FrontendFrame),
    Terminate,
    Unsupported,
    BufferLimitExceeded,
    TimedOut,
}

/// What a client sent, as plain values.
pub enum RequestFacts {
    Query(Frame),
    Terminate,
    Unsupported,
    BufferLimitExceeded,
    TimedOut,
}

impl View for AdminRequest {
    type V = RequestFacts;

    open spec fn view(&self) -> RequestFacts {
        match *self {
            AdminRequest::Query(frame) => RequestFacts::Query(frame@),
            AdminRequest::Terminate => RequestFacts::Terminate,
            AdminRequest::Unsupported => RequestFacts::Unsupported,
            AdminRequest::BufferLimitExceeded => RequestFacts::BufferLimitExceeded,
            AdminRequest::TimedOut => RequestFacts::TimedOut,
        }
    }
}

/// What a message is.
pub open spec fn request_of(frame: Frame) -> RequestFacts {
    if frame.tag == FrontendTag::Query.byte() {
        RequestFacts::Query(frame)
    } else if frame.tag == FrontendTag::Terminate.byte() {
        RequestFacts::Terminate
    } else {
        RequestFacts::Unsupported
    }
}

/// Takes the next request from what has been read; none where more has to be read.
pub fn next_request(buffer: &mut bytes::BytesMut, max_client_buffer_bytes: usize) -> (r: Result<
    Option<AdminRequest>,
    FrameLengthError,
>)
    ensures
        ({
            let bytes = buffer_bytes(*old(buffer));
            match scan_frame(bytes) {
                FrameScan::Complete(size) => {
                    &&& r is Ok
                    &&& r->Ok_0 is Some
                    &&& r->Ok_0->0@ == request_of(frame_of(bytes, size))
                    &&& buffer_bytes(*final(buffer)) == bytes.skip(size)
                },
                FrameScan::Incomplete => {
                    &&& r is Ok
                    &&& buffer_bytes(*final(buffer)) == bytes
                    &&& r->Ok_0 is Some <==> bytes.len() >= max_client_buffer_bytes
                    &&& r->Ok_0 is Some ==> r->Ok_0->0@ == RequestFacts::BufferLimitExceeded
                },
                FrameScan::Invalid(length) => {
                    &&& r is Err
                    &&& r->Err_0.length == length
                    &&& buffer_bytes(*final(buffer)) == bytes
                },
            }
        }),
{
    match parse_frontend_frame(buffer) {
        Err(error) => Err(error),
        Ok(Some(frame)) => {
            let request = if frame.tag == FrontendTag::Query.as_byte() {
                AdminRequest::Query(frame)
            } else if frame.tag == FrontendTag::Terminate.as_byte() {
                AdminRequest::Terminate
            } else {
                AdminRequest::Unsupported
            };
            Ok(Some(request))
        },
        Ok(None) => if crate::buffer::buffer_len(buffer) >= max_client_buffer_bytes {
            Ok(Some(AdminRequest::BufferLimitExceeded))
        } else {
            Ok(None)
        },
    }
}

/// What follows from a read that brought some bytes: the client is gone where there were none, and
/// has sent too much where more is held than may be.
pub fn after_read(read: usize, buffered: usize, max_client_buffer_bytes: usize) -> (r: Option<
    AdminRequest,
>)
    ensures
        if read == 0 {
            r is Some && r->0@ == RequestFacts::Terminate
        } else if buffered > max_client_buffer_bytes {
            r is Some && r->0@ == RequestFacts::BufferLimitExceeded
        } else {
            r is None
        },
        r is None <==> read > 0 && buffered <= max_client_buffer_bytes,
{
    if read == 0 {
        Some(AdminRequest::Terminate)
    } else if buffered > max_client_buffer_bytes {
        Some(AdminRequest::BufferLimitExceeded)
    } else {
        None
    }
}

/// What a request is answered, or what is wrong with it.
pub open spec fn answer(state: AdminState, request: RequestFacts) -> Result<ReplyFacts, Seq<char>> {
    match request {
        RequestFacts::Query(frame) => if frame.tag != FrontendTag::Query.byte() {
            Ok(unsupported())
        } else {
            match query_text(frame.payload) {
                Err(message) => Err(message),
                Ok(sql) => Ok(
                    ReplyFacts {
                        bytes: match asked_view(sql) {
                            Some(view) => table_bytes(state.table(view)),
                            None => error_bytes(
                                ADMIN_UNSUPPORTED_SQLSTATE@,
                                "unsupported admin command: "@ + sql,
                            ),
                        },
                        ends: false,
                    },
                ),
            }
        },
        RequestFacts::Unsupported => Ok(unsupported()),
        RequestFacts::TimedOut => Ok(
            ReplyFacts {
                bytes: error_bytes(QUERY_CANCELED_SQLSTATE@, "admin query timed out"@),
                ends: true,
            },
        ),
        RequestFacts::Terminate | RequestFacts::BufferLimitExceeded => Ok(
            ReplyFacts { bytes: Seq::empty(), ends: true },
        ),
    }
}

/// What a message is answered that is no query.
pub open spec fn unsupported() -> ReplyFacts {
    ReplyFacts {
        bytes: error_bytes(
            ADMIN_UNSUPPORTED_SQLSTATE@,
            "admin endpoint only supports simple query protocol"@,
        ),
        ends: false,
    }
}

/// No query ends a session, and none is left without an answer.
pub proof fn law_queries_are_answered(state: AdminState, frame: Frame)
    requires
        frame.tag == FrontendTag::Query.byte(),
        query_text(frame.payload) is Ok,
    ensures
        answer(state, RequestFacts::Query(frame)) matches Ok(reply) && !reply.ends
            && reply.bytes.len() > 0,
{
    let sql = query_text(frame.payload)->Ok_0;
    match asked_view(sql) {
        Some(view) => {
            assert(table_bytes(state.table(view)).len() > 0);
        },
        None => {},
    }
}

/// Answers a request.
#[verifier::spinoff_prover]
#[verifier::rlimit(60)]
pub fn answer_request(state: &AdminState, request: &AdminRequest) -> (r: Result<AdminReply, String>)
    requires
        mirror_countable(state.mirror),
    ensures
        match r {
            Ok(reply) => answer(*state, request@) == Ok::<ReplyFacts, Seq<char>>(reply@),
            Err(message) => answer(*state, request@) == Err::<ReplyFacts, Seq<char>>(message@),
        },
{
    match request {
        AdminRequest::Query(frame) => {
            let sql = match parse_simple_query(frame) {
                Err(message) => {
                    return Err(message);
                },
                Ok(None) => {
                    return Ok(
                        error_reply(
                            ADMIN_UNSUPPORTED_SQLSTATE,
                            "admin endpoint only supports simple query protocol",
                            false,
                        ),
                    );
                },
                Ok(Some(sql)) => sql,
            };
            match parse_admin_command(sql.as_str()) {
                AdminCommand::Show(view) => Ok(
                    AdminReply { bytes: render_admin_view(state, view), ends: false },
                ),
                AdminCommand::Unknown(text) => Ok(
                    error_reply(
                        ADMIN_UNSUPPORTED_SQLSTATE,
                        join2("unsupported admin command: ", text.as_str()).as_str(),
                        false,
                    ),
                ),
            }
        },
        AdminRequest::Unsupported => Ok(
            error_reply(
                ADMIN_UNSUPPORTED_SQLSTATE,
                "admin endpoint only supports simple query protocol",
                false,
            ),
        ),
        AdminRequest::TimedOut => Ok(
            error_reply(QUERY_CANCELED_SQLSTATE, "admin query timed out", true),
        ),
        AdminRequest::Terminate | AdminRequest::BufferLimitExceeded => Ok(silent_end()),
    }
}

/// What a client of the console asks for, by the byte that its message begins with: a simple query
/// (`Q`), the end (`X`), or something that is not supported.
pub proof fn law_console_request_by_tag(frame: Frame)
    ensures
        request_of(frame) == RequestFacts::Query(frame) <==> frame.tag == 81u8,
        request_of(frame) is Terminate <==> frame.tag == 88u8,
        request_of(frame) is Unsupported <==> frame.tag != 81u8 && frame.tag != 88u8,
{
}

/// What the console answers: the table that is asked for, or an error that names the statement; and
/// it goes on unless the client ends, takes too long or sends too much.
#[verifier::spinoff_prover]
#[verifier::rlimit(60)]
pub proof fn law_console_answers(state: AdminState, frame: Frame, sql: Seq<char>)
    requires
        frame.tag == 81u8,
        query_text(frame.payload) == Ok::<Seq<char>, Seq<char>>(sql),
    ensures
        ({
            let reply = answer(state, RequestFacts::Query(frame));
            &&& reply is Ok && !reply->Ok_0.ends
            &&& asked_view(sql) matches Some(view) ==> reply->Ok_0.bytes == table_bytes(
                state.table(view),
            )
            &&& asked_view(sql) is None ==> reply->Ok_0.bytes == error_bytes(
                "0A000"@,
                "unsupported admin command: "@ + sql,
            )
        }),
        answer(state, RequestFacts::Terminate) matches Ok(reply) && reply.ends && reply.bytes.len()
            == 0,
        answer(state, RequestFacts::BufferLimitExceeded) matches Ok(reply) && reply.ends
            && reply.bytes.len() == 0,
        answer(state, RequestFacts::TimedOut) matches Ok(reply) && reply.ends && reply.bytes
            == error_bytes("57014"@, "admin query timed out"@),
        answer(state, RequestFacts::Unsupported) matches Ok(reply) && !reply.ends && reply.bytes
            == error_bytes("0A000"@, "admin endpoint only supports simple query protocol"@),
{
}

/// The table of a view is that view's.
#[verifier::spinoff_prover]
#[verifier::rlimit(60)]
pub proof fn law_table_is_of_its_view(state: AdminState, view: AdminView)
    ensures
        state.table(view).view == view,
{
}

/// A view is asked for by two words, of which the first is `show`, in any case, with or without a
/// semicolon behind them.
pub proof fn law_view_asked_by_two_words(sql: Seq<char>)
    ensures
        asked_view(sql) is Some ==> {
            let list = words_of(bare_statement(sql));
            &&& list.len() == 2
            &&& same_ignoring_case(list[0], "show"@)
            &&& asked_view(sql) == view_named(list[1])
        },
        ({
            let text = trimmed(sql);
            bare_statement(sql) == text || text == bare_statement(sql) + seq![';']
        }),
{
    let text = trimmed(sql);
    if text.len() > 0 && text.last() == ';' {
        assert(text =~= bare_statement(sql) + seq![';']);
    }
}

/// Who may use the console is told why not: first the wrong user, then the missing encryption.
pub proof fn law_console_refusals(admin: AdminConfig, user: Seq<char>, is_tls: bool)
    ensures
        admin.admin_allowed_user is Some && admin.admin_allowed_user->0@ != user ==> admission(
            admin,
            user,
            is_tls,
        ).bytes == error_bytes(
            "28000"@,
            "admin access restricted to user "@ + admin.admin_allowed_user->0@,
        ),
        !(admin.admin_allowed_user is Some && admin.admin_allowed_user->0@ != user)
            && admin.admin_require_tls && !is_tls ==> admission(admin, user, is_tls).bytes
            == error_bytes("28000"@, "admin endpoint requires TLS"@),
        !admission(admin, user, is_tls).ends ==> admission(admin, user, is_tls).bytes
            == startup_ok_bytes(),
{
}

/// The console's user is the one that its first packet names.
pub proof fn law_console_user_is_named(packet: Seq<u8>, user: Seq<char>)
    requires
        named_user(packet) == Ok::<Seq<char>, Seq<char>>(user),
    ensures
        read_startup(packet) matches Ok(StartupFacts::Startup(pairs)) && parameter(pairs, "user"@)
            == Some(user),
{
}

} // verus!
