//! The tables that the admin endpoint shows.
use vstd::prelude::*;

use crate::adaptive::{AdaptiveOutcomeSnapshot, AdaptiveRecommendationSnapshot, TunableKnob};
use crate::benchmark::{
    BenchmarkComparison, BenchmarkResult, BenchmarkScenario, BenchmarkTarget, MeasuredValue,
};
use crate::clock::Duration;
use crate::config::{
    AdaptiveApplyConfig, AdaptiveGuardrailConfig, Config, RouteMapConfig, ShardScopeConfig,
    ShardTargetConfig, ShardingConfig,
};
use crate::modes::{AdaptiveMode, FallbackPolicy, FreshnessPolicy, MirrorMode, ReadRoutingMode};
use crate::order::{in_order, ordered};
use crate::policy::{rendered_context, PolicyAuditEvent};
use crate::routing::{RouteFacts, RouteKey};
use crate::runtime::{ReadinessState, RuntimeLifecycleState};
use crate::snapshot::{
    BackpressureSnapshot, BenchmarkRunSnapshot, ClientSnapshot, LimitsSnapshot,
    MirrorSummarySnapshot, NodeSummarySnapshot, PerformanceBudget, PerformanceRegression,
    PerformanceSnapshot, PerformanceThreshold, PinningSnapshot, PolicyReloadSnapshot,
    PolicyStatusSnapshot, PoolSnapshot, PreparedStatementSnapshot, RecoverySnapshot,
    ReplicaHealthSnapshot, RouteCheckoutSnapshot, RouteMapReloadSnapshot, RoutePolicySnapshot,
    RouteSnapshot, RuntimeSnapshot, ServerSnapshot, SettingsSnapshot, ShardLifecycleSnapshot,
    ShardLifecycleState, ShardMigrationSafetySnapshot,
};
use crate::text::{
    decimal, decimal_text, join2, join3, join5, join_all, joined, lemma_texts_push, opt_or,
    same_text, text_or, texts, u64_text, usize_text,
};

verus! {

/// What the admin endpoint can show.
#[derive(Clone, Copy, Debug, PartialEq, Eq, Structural)]
pub enum AdminView {
    Clients,
    Pools,
    Servers,
    Runtime,
    Nodes,
    Mirroring,
    Adaptive,
    Benchmarks,
    Performance,
    Prepared,
    Pinning,
    Recovery,
    Backpressure,
    Policies,
    PolicyDecisions,
    PolicyAudit,
    Routes,
    RouteMaps,
    Shards,
    Migrations,
    Settings,
    Limits,
}

impl AdminView {
    /// The name under which the value is written.
    pub open spec fn name(self) -> Seq<char> {
        match self {
            AdminView::Clients => "clients"@,
            AdminView::Pools => "pools"@,
            AdminView::Servers => "servers"@,
            AdminView::Runtime => "runtime"@,
            AdminView::Nodes => "nodes"@,
            AdminView::Mirroring => "mirroring"@,
            AdminView::Adaptive => "adaptive"@,
            AdminView::Benchmarks => "benchmarks"@,
            AdminView::Performance => "performance"@,
            AdminView::Prepared => "prepared"@,
            AdminView::Pinning => "pinning"@,
            AdminView::Recovery => "recovery"@,
            AdminView::Backpressure => "backpressure"@,
            AdminView::Policies => "policies"@,
            AdminView::PolicyDecisions => "policy_decisions"@,
            AdminView::PolicyAudit => "policy_audit"@,
            AdminView::Routes => "routes"@,
            AdminView::RouteMaps => "route_maps"@,
            AdminView::Shards => "shards"@,
            AdminView::Migrations => "migrations"@,
            AdminView::Settings => "settings"@,
            AdminView::Limits => "limits"@,
        }
    }

    /// The name under which the value is written.
    pub fn as_str(self) -> (r: &'static str)
        ensures
            r@ == self.name(),
    {
        match self {
            AdminView::Clients => "clients",
            AdminView::Pools => "pools",
            AdminView::Servers => "servers",
            AdminView::Runtime => "runtime",
            AdminView::Nodes => "nodes",
            AdminView::Mirroring => "mirroring",
            AdminView::Adaptive => "adaptive",
            AdminView::Benchmarks => "benchmarks",
            AdminView::Performance => "performance",
            AdminView::Prepared => "prepared",
            AdminView::Pinning => "pinning",
            AdminView::Recovery => "recovery",
            AdminView::Backpressure => "backpressure",
            AdminView::Policies => "policies",
            AdminView::PolicyDecisions => "policy_decisions",
            AdminView::PolicyAudit => "policy_audit",
            AdminView::Routes => "routes",
            AdminView::RouteMaps => "route_maps",
            AdminView::Shards => "shards",
            AdminView::Migrations => "migrations",
            AdminView::Settings => "settings",
            AdminView::Limits => "limits",
        }
    }

    /// What each value is written as.
    pub proof fn law_written_as(self)
        ensures
            self is Clients ==> self.name() == "clients"@,
            self is Pools ==> self.name() == "pools"@,
            self is Servers ==> self.name() == "servers"@,
            self is Runtime ==> self.name() == "runtime"@,
            self is Nodes ==> self.name() == "nodes"@,
            self is Mirroring ==> self.name() == "mirroring"@,
            self is Adaptive ==> self.name() == "adaptive"@,
            self is Benchmarks ==> self.name() == "benchmarks"@,
            self is Performance ==> self.name() == "performance"@,
            self is Prepared ==> self.name() == "prepared"@,
            self is Pinning ==> self.name() == "pinning"@,
            self is Recovery ==> self.name() == "recovery"@,
            self is Backpressure ==> self.name() == "backpressure"@,
            self is Policies ==> self.name() == "policies"@,
            self is PolicyDecisions ==> self.name() == "policy_decisions"@,
            self is PolicyAudit ==> self.name() == "policy_audit"@,
            self is Routes ==> self.name() == "routes"@,
            self is RouteMaps ==> self.name() == "route_maps"@,
            self is Shards ==> self.name() == "shards"@,
            self is Migrations ==> self.name() == "migrations"@,
            self is Settings ==> self.name() == "settings"@,
            self is Limits ==> self.name() == "limits"@,
    {
    }

    /// No two values have the same name.
    pub proof fn law_names_differ(a: AdminView, b: AdminView)
        requires
            a.name() == b.name(),
        ensures
            a == b,
    {
        reveal_strlit("clients");
        reveal_strlit("pools");
        reveal_strlit("servers");
        reveal_strlit("runtime");
        reveal_strlit("nodes");
        reveal_strlit("mirroring");
        reveal_strlit("adaptive");
        reveal_strlit("benchmarks");
        reveal_strlit("performance");
        reveal_strlit("prepared");
        reveal_strlit("pinning");
        reveal_strlit("recovery");
        reveal_strlit("backpressure");
        reveal_strlit("policies");
        reveal_strlit("policy_decisions");
        reveal_strlit("policy_audit");
        reveal_strlit("routes");
        reveal_strlit("route_maps");
        reveal_strlit("shards");
        reveal_strlit("migrations");
        reveal_strlit("settings");
        reveal_strlit("limits");
        assert("clients"@.len() == 7 && "clients"@[0] == 'c' && "clients"@[1] == 'l');
        assert("pools"@.len() == 5 && "pools"@[0] == 'p' && "pools"@[1] == 'o');
        assert("servers"@.len() == 7 && "servers"@[0] == 's' && "servers"@[1] == 'e');
        assert("runtime"@.len() == 7 && "runtime"@[0] == 'r' && "runtime"@[1] == 'u');
        assert("nodes"@.len() == 5 && "nodes"@[0] == 'n' && "nodes"@[1] == 'o');
        assert("mirroring"@.len() == 9 && "mirroring"@[0] == 'm' && "mirroring"@[1] == 'i');
        assert("adaptive"@.len() == 8 && "adaptive"@[0] == 'a' && "adaptive"@[1] == 'd');
        assert("benchmarks"@.len() == 10 && "benchmarks"@[0] == 'b' && "benchmarks"@[1] == 'e');
        assert("performance"@.len() == 11 && "performance"@[0] == 'p' && "performance"@[1] == 'e');
        assert("prepared"@.len() == 8 && "prepared"@[0] == 'p' && "prepared"@[1] == 'r');
        assert("pinning"@.len() == 7 && "pinning"@[0] == 'p' && "pinning"@[1] == 'i');
        assert("recovery"@.len() == 8 && "recovery"@[0] == 'r' && "recovery"@[1] == 'e');
        assert("backpressure"@.len() == 12 && "backpressure"@[0] == 'b' && "backpressure"@[1] == 'a');
        assert("policies"@.len() == 8 && "policies"@[0] == 'p' && "policies"@[1] == 'o');
        assert("policy_decisions"@.len() == 16 && "policy_decisions"@[0] == 'p' && "policy_decisions"@[1] == 'o');
        assert("policy_audit"@.len() == 12 && "policy_audit"@[0] == 'p' && "policy_audit"@[1] == 'o');
        assert("routes"@.len() == 6 && "routes"@[0] == 'r' && "routes"@[1] == 'o');
        assert("route_maps"@.len() == 10 && "route_maps"@[0] == 'r' && "route_maps"@[1] == 'o');
        assert("shards"@.len() == 6 && "shards"@[0] == 's' && "shards"@[1] == 'h');
        assert("migrations"@.len() == 10 && "migrations"@[0] == 'm' && "migrations"@[1] == 'i');
        assert("settings"@.len() == 8 && "settings"@[0] == 's' && "settings"@[1] == 'e');
        assert("limits"@.len() == 6 && "limits"@[0] == 'l' && "limits"@[1] == 'i');
    }
}

/// What a column holds.
#[derive(Clone, Copy, Debug, PartialEq, Eq, Structural)]
pub enum AdminColumnType {
    Text,
    Int8,
    Float8,
    Bool,
    Timestamp,
}

impl AdminColumnType {
    /// The name under which the value is written.
    pub open spec fn name(self) -> Seq<char> {
        match self {
            AdminColumnType::Text => "text"@,
            AdminColumnType::Int8 => "int8"@,
            AdminColumnType::Float8 => "float8"@,
            AdminColumnType::Bool => "bool"@,
            AdminColumnType::Timestamp => "timestamp"@,
        }
    }

    /// The name under which the value is written.
    pub fn as_str(self) -> (r: &'static str)
        ensures
            r@ == self.name(),
    {
        match self {
            AdminColumnType::Text => "text",
            AdminColumnType::Int8 => "int8",
            AdminColumnType::Float8 => "float8",
            AdminColumnType::Bool => "bool",
            AdminColumnType::Timestamp => "timestamp",
        }
    }

    /// What each value is written as.
    pub proof fn law_written_as(self)
        ensures
            self is Text ==> self.name() == "text"@,
            self is Int8 ==> self.name() == "int8"@,
            self is Float8 ==> self.name() == "float8"@,
            self is Bool ==> self.name() == "bool"@,
            self is Timestamp ==> self.name() == "timestamp"@,
    {
    }

    /// No two values have the same name.
    pub proof fn law_names_differ(a: AdminColumnType, b: AdminColumnType)
        requires
            a.name() == b.name(),
        ensures
            a == b,
    {
        reveal_strlit("text");
        reveal_strlit("int8");
        reveal_strlit("float8");
        reveal_strlit("bool");
        reveal_strlit("timestamp");
        assert("text"@.len() == 4 && "text"@[0] == 't');
        assert("int8"@.len() == 4 && "int8"@[0] == 'i');
        assert("float8"@.len() == 6 && "float8"@[0] == 'f');
        assert("bool"@.len() == 4 && "bool"@[0] == 'b');
        assert("timestamp"@.len() == 9 && "timestamp"@[0] == 't');
    }
}


/// A column of a table.
#[derive(Clone, Copy, Debug)]
pub struct AdminColumn {
    pub name: &'static str,
    pub column_type: AdminColumnType,
}

/// A column as plain values.
pub struct ColumnFacts {
    pub name: Seq<char>,
    pub column_type: AdminColumnType,
}

impl View for AdminColumn {
    type V = ColumnFacts;

    open spec fn view(&self) -> ColumnFacts {
        ColumnFacts { name: self.name@, column_type: self.column_type }
    }
}

/// A row of a table.
#[derive(Clone, Debug)]
pub struct AdminRow {
    pub values: Vec<String>,
}

impl View for AdminRow {
    type V = Seq<Seq<char>>;

    open spec fn view(&self) -> Seq<Seq<char>> {
        texts(self.values@)
    }
}

/// Columns as plain values.
pub open spec fn column_facts(columns: Seq<AdminColumn>) -> Seq<ColumnFacts> {
    columns.map_values(|column: AdminColumn| column@)
}

/// Rows as plain values.
pub open spec fn row_facts(rows: Seq<AdminRow>) -> Seq<Seq<Seq<char>>> {
    rows.map_values(|row: AdminRow| row@)
}

/// A table.
#[derive(Clone, Debug)]
pub struct AdminTable {
    pub view: AdminView,
    pub columns: Vec<AdminColumn>,
    pub rows: Vec<AdminRow>,
}

/// A table as plain values.
pub struct TableFacts {
    pub view: AdminView,
    pub columns: Seq<ColumnFacts>,
    pub rows: Seq<Seq<Seq<char>>>,
}

impl View for AdminTable {
    type V = TableFacts;

    open spec fn view(&self) -> TableFacts {
        TableFacts {
            view: self.view,
            columns: column_facts(self.columns@),
            rows: row_facts(self.rows@),
        }
    }
}

/// Whether every row has a value for every column.
pub open spec fn is_rectangular(table: TableFacts) -> bool {
    forall|i: int|
        0 <= i < table.rows.len() ==> (#[trigger] table.rows[i]).len() == table.columns.len()
}

fn push_column(columns: &mut Vec<AdminColumn>, name: &'static str, column_type: AdminColumnType)
    ensures
        column_facts(final(columns)@) == column_facts(old(columns)@).push(
            ColumnFacts { name: name@, column_type },
        ),
{
    columns.push(AdminColumn { name, column_type });
    assert(column_facts(columns@) =~= column_facts(old(columns)@).push(
        ColumnFacts { name: name@, column_type },
    ));
}

fn push_row(rows: &mut Vec<AdminRow>, row: AdminRow)
    ensures
        row_facts(final(rows)@) == row_facts(old(rows)@).push(row@),
{
    rows.push(row);
    assert(row_facts(rows@) =~= row_facts(old(rows)@).push(row@));
}

fn push_value(values: &mut Vec<String>, value: String)
    ensures
        texts(final(values)@) == texts(old(values)@).push(value@),
{
    proof {
        lemma_texts_push(values@, value);
    }
    values.push(value);
}

// ---------------------------------------------------------------------------
// Values
// ---------------------------------------------------------------------------

/// A truth value as it is shown.
pub open spec fn bool_text(value: bool) -> Seq<char> {
    if value {
        "true"@
    } else {
        "false"@
    }
}

fn bool_string(value: bool) -> (r: String)
    ensures
        r@ == bool_text(value),
{
    if value {
        "true".to_owned()
    } else {
        "false".to_owned()
    }
}

/// A text that may be absent, as it is shown.
pub open spec fn shown_text(value: Option<String>) -> Seq<char> {
    text_or(value, "<none>"@)
}

fn optional_text(value: &Option<String>) -> (r: String)
    ensures
        r@ == shown_text(*value),
{
    opt_or(value, "<none>")
}

/// A route that may be absent, as it is shown: the name under which it is counted.
pub open spec fn shown_route(key: Option<RouteKey>) -> Seq<char> {
    match key {
        Some(key) => key@.label,
        None => "<none>"@,
    }
}

fn optional_route_key(key: &Option<RouteKey>) -> (r: String)
    ensures
        r@ == shown_route(*key),
{
    match key {
        Some(key) => key.label.clone(),
        None => "<none>".to_owned(),
    }
}

/// A number that may be absent, as it is shown.
pub open spec fn shown_number(value: Option<nat>) -> Seq<char> {
    match value {
        Some(number) => decimal(number),
        None => "<none>"@,
    }
}

fn optional_u64(value: Option<u64>) -> (r: String)
    ensures
        r@ == match value {
            Some(number) => shown_number(Some(number as nat)),
            None => shown_number(None),
        },
{
    match value {
        Some(number) => u64_text(number),
        None => "<none>".to_owned(),
    }
}

fn optional_u32(value: Option<u32>) -> (r: String)
    ensures
        r@ == match value {
            Some(number) => shown_number(Some(number as nat)),
            None => shown_number(None),
        },
{
    match value {
        Some(number) => u64_text(number as u64),
        None => "<none>".to_owned(),
    }
}

fn optional_usize(value: Option<usize>) -> (r: String)
    ensures
        r@ == match value {
            Some(number) => shown_number(Some(number as nat)),
            None => shown_number(None),
        },
{
    match value {
        Some(number) => usize_text(number),
        None => "<none>".to_owned(),
    }
}

/// A span of time as it is shown: in whole milliseconds.
pub open spec fn shown_millis(duration: Duration) -> Seq<char> {
    decimal(duration@ / 1_000_000)
}

fn duration_millis(duration: &Duration) -> (r: String)
    ensures
        r@ == shown_millis(*duration),
{
    decimal_text(duration.as_millis())
}

/// A span of time that may be absent, as it is shown.
pub open spec fn shown_opt_millis(duration: Option<Duration>) -> Seq<char> {
    match duration {
        Some(duration) => shown_millis(duration),
        None => "<none>"@,
    }
}

fn optional_duration(duration: &Option<Duration>) -> (r: String)
    ensures
        r@ == shown_opt_millis(*duration),
{
    match duration {
        Some(duration) => duration_millis(duration),
        None => "<none>".to_owned(),
    }
}

/// How long ago something was, as it is shown: nothing where it lies ahead.
pub open spec fn shown_age(at: Option<Duration>, now: Duration) -> Seq<char> {
    match at {
        None => "<none>"@,
        Some(at) => if at@ > now@ {
            "0"@
        } else {
            decimal(((now@ - at@) / 1_000_000) as nat)
        },
    }
}

fn optional_probe_age(at: &Option<Duration>, now: &Duration) -> (r: String)
    ensures
        r@ == shown_age(*at, *now),
{
    match at {
        None => "<none>".to_owned(),
        Some(at) => if at.longer_than(now) {
            "0".to_owned()
        } else {
            decimal_text((now.as_nanos() - at.as_nanos()) / 1_000_000)
        },
    }
}

/// A measured value that may be absent, as it is shown.
pub open spec fn shown_metric(value: Option<String>) -> Seq<char> {
    text_or(value, "0.000"@)
}

fn optional_metric_value(value: &Option<String>) -> (r: String)
    ensures
        r@ == shown_metric(*value),
{
    opt_or(value, "0.000")
}

/// A number that was measured as it is shown, where there is one.
pub open spec fn shown_measure(value: Option<MeasuredValue>) -> Seq<char> {
    match value {
        Some(value) => value.shown@,
        None => "0.000"@,
    }
}

fn measured_text(value: &Option<MeasuredValue>) -> (r: String)
    ensures
        r@ == shown_measure(*value),
{
    match value {
        Some(value) => value.shown.clone(),
        None => "0.000".to_owned(),
    }
}

// ---------------------------------------------------------------------------
// Clients, pools and servers
// ---------------------------------------------------------------------------

/// The columns of the table of clients.
pub open spec fn clients_columns() -> Seq<ColumnFacts> {
    seq![
        ColumnFacts { name: "client_id"@, column_type: AdminColumnType::Int8 },
        ColumnFacts { name: "user"@, column_type: AdminColumnType::Text },
        ColumnFacts { name: "database"@, column_type: AdminColumnType::Text },
        ColumnFacts { name: "application_name"@, column_type: AdminColumnType::Text },
        ColumnFacts { name: "route_key"@, column_type: AdminColumnType::Text },
        ColumnFacts { name: "state"@, column_type: AdminColumnType::Text },
        ColumnFacts { name: "connected_duration_ms"@, column_type: AdminColumnType::Int8 },
        ColumnFacts { name: "current_target_role"@, column_type: AdminColumnType::Text },
        ColumnFacts { name: "required_session_write_lsn"@, column_type: AdminColumnType::Text },
    ]
}

fn clients_header() -> (r: Vec<AdminColumn>)
    ensures
        column_facts(r@) == clients_columns(),
{
    let mut columns: Vec<AdminColumn> = Vec::new();
    assert(column_facts(columns@) =~= Seq::empty());
    push_column(&mut columns, "client_id", AdminColumnType::Int8);
    push_column(&mut columns, "user", AdminColumnType::Text);
    push_column(&mut columns, "database", AdminColumnType::Text);
    push_column(&mut columns, "application_name", AdminColumnType::Text);
    push_column(&mut columns, "route_key", AdminColumnType::Text);
    push_column(&mut columns, "state", AdminColumnType::Text);
    push_column(&mut columns, "connected_duration_ms", AdminColumnType::Int8);
    push_column(&mut columns, "current_target_role", AdminColumnType::Text);
    push_column(&mut columns, "required_session_write_lsn", AdminColumnType::Text);
    assert(column_facts(columns@) =~= clients_columns());
    columns
}

/// The last checkout of a route.
pub open spec fn last_checkout(checkouts: Seq<RouteCheckoutSnapshot>, route: RouteFacts) -> Option<
    RouteCheckoutSnapshot,
>
    decreases checkouts.len(),
{
    if checkouts.len() == 0 {
        None
    } else if checkouts.last().route_key@ == route {
        Some(checkouts.last())
    } else {
        last_checkout(checkouts.drop_last(), route)
    }
}

/// The last checkout of a client's route.
pub open spec fn client_checkout(
    client: ClientSnapshot,
    checkouts: Seq<RouteCheckoutSnapshot>,
) -> Option<RouteCheckoutSnapshot> {
    match client.route_key {
        Some(key) => last_checkout(checkouts, key@),
        None => None,
    }
}

fn find_checkout<'a>(
    client: &ClientSnapshot,
    checkouts: &'a Vec<RouteCheckoutSnapshot>,
) -> (r: Option<&'a RouteCheckoutSnapshot>)
    ensures
        match r {
            Some(checkout) => client_checkout(*client, checkouts@) == Some(*checkout),
            None => client_checkout(*client, checkouts@) is None,
        },
{
    let key = match &client.route_key {
        Some(key) => key,
        None => {
            return None;
        },
    };
    let mut i: usize = checkouts.len();
    assert(checkouts@.take(i as int) =~= checkouts@);
    while i > 0
        invariant
            i <= checkouts@.len(),
            client.route_key == Some(*key),
            last_checkout(checkouts@, key@) == last_checkout(checkouts@.take(i as int), key@),
        decreases i,
    {
        let at: usize = i - 1;
        assert(checkouts@.take(i as int).drop_last() =~= checkouts@.take(at as int));
        if checkouts[at].route_key.same_as(key) {
            return Some(&checkouts[at]);
        }
        i = at;
    }
    None
}

/// The server's role that a client's route was last sent to, as it is shown.
pub open spec fn shown_role(checkout: Option<RouteCheckoutSnapshot>) -> Seq<char> {
    match checkout {
        Some(checkout) => match checkout.decision.role() {
            Some(role) => role.name(),
            None => "<none>"@,
        },
        None => "<none>"@,
    }
}

fn role_text(checkout: Option<&RouteCheckoutSnapshot>) -> (r: String)
    ensures
        r@ == match checkout {
            Some(checkout) => shown_role(Some(*checkout)),
            None => shown_role(None),
        },
{
    match checkout {
        Some(checkout) => match checkout.decision.target_role() {
            Some(role) => role.as_str().to_owned(),
            None => "<none>".to_owned(),
        },
        None => "<none>".to_owned(),
    }
}

/// How far the session of a client's route must have been replayed, as it is shown.
pub open spec fn shown_lsn(checkout: Option<RouteCheckoutSnapshot>) -> Seq<char> {
    match checkout {
        Some(checkout) => shown_text(checkout.required_session_write_lsn),
        None => "<none>"@,
    }
}

fn lsn_text(checkout: Option<&RouteCheckoutSnapshot>) -> (r: String)
    ensures
        r@ == match checkout {
            Some(checkout) => shown_lsn(Some(*checkout)),
            None => shown_lsn(None),
        },
{
    match checkout {
        Some(checkout) => optional_text(&checkout.required_session_write_lsn),
        None => "<none>".to_owned(),
    }
}

/// A client's row.
pub open spec fn client_row(
    s: ClientSnapshot,
    checkout: Option<RouteCheckoutSnapshot>,
) -> Seq<Seq<char>> {
    seq![
        decimal(s.client_id as nat),
        shown_text(s.user),
        shown_text(s.database),
        shown_text(s.application_name),
        shown_route(s.route_key),
        s.state@,
        shown_millis(s.connected_duration),
        shown_role(checkout),
        shown_lsn(checkout),
    ]
}

fn client_row_of(s: &ClientSnapshot, checkouts: &Vec<RouteCheckoutSnapshot>) -> (r: AdminRow)
    ensures
        r@ == client_row(*s, client_checkout(*s, checkouts@)),
{
    let mut values: Vec<String> = Vec::new();
    assert(texts(values@) =~= Seq::empty());
    push_value(&mut values, u64_text(s.client_id));
    push_value(&mut values, optional_text(&s.user));
    push_value(&mut values, optional_text(&s.database));
    push_value(&mut values, optional_text(&s.application_name));
    push_value(&mut values, optional_route_key(&s.route_key));
    push_value(&mut values, s.state.clone());
    push_value(&mut values, duration_millis(&s.connected_duration));
    push_value(&mut values, role_text(find_checkout(s, checkouts)));
    push_value(&mut values, lsn_text(find_checkout(s, checkouts)));
    assert(texts(values@) =~= client_row(*s, client_checkout(*s, checkouts@)));
    AdminRow { values }
}

/// The clients, each with the last checkout of its route.
pub open spec fn clients_rows(
    clients: Seq<ClientSnapshot>,
    checkouts: Seq<RouteCheckoutSnapshot>,
) -> Seq<Seq<Seq<char>>> {
    Seq::new(clients.len(), |i: int| client_row(clients[i], client_checkout(clients[i], checkouts)))
}

/// The clients, each with the last checkout of its route.
pub fn clients_table(clients: &Vec<ClientSnapshot>, checkouts: &Vec<RouteCheckoutSnapshot>) -> (r: AdminTable)
    ensures
        r@ == (TableFacts {
            view: AdminView::Clients,
            columns: clients_columns(),
            rows: clients_rows(clients@, checkouts@),
        }),
{
    let mut rows: Vec<AdminRow> = Vec::new();
    let ghost all = clients_rows(clients@, checkouts@);
    let mut i: usize = 0;
    assert(row_facts(rows@) =~= all.take(0));
    while i < clients.len()
        invariant
            i <= clients@.len(),
            all == clients_rows(clients@, checkouts@),
            row_facts(rows@) == all.take(i as int),
        decreases clients@.len() - i,
    {
        push_row(&mut rows, client_row_of(&clients[i], checkouts));
        assert(row_facts(rows@) =~= all.take(i + 1));
        i += 1;
    }
    assert(all.take(i as int) =~= all);
    AdminTable { view: AdminView::Clients, columns: clients_header(), rows }
}

/// The columns of the table of pools.
pub open spec fn pools_columns() -> Seq<ColumnFacts> {
    seq![
        ColumnFacts { name: "route_key"@, column_type: AdminColumnType::Text },
        ColumnFacts { name: "max_backends"@, column_type: AdminColumnType::Int8 },
        ColumnFacts { name: "active_backends"@, column_type: AdminColumnType::Int8 },
        ColumnFacts { name: "idle_backends"@, column_type: AdminColumnType::Int8 },
        ColumnFacts { name: "waiting_clients"@, column_type: AdminColumnType::Int8 },
        ColumnFacts { name: "checkout_lock_wait_ms"@, column_type: AdminColumnType::Float8 },
    ]
}

fn pools_header() -> (r: Vec<AdminColumn>)
    ensures
        column_facts(r@) == pools_columns(),
{
    let mut columns: Vec<AdminColumn> = Vec::new();
    assert(column_facts(columns@) =~= Seq::empty());
    push_column(&mut columns, "route_key", AdminColumnType::Text);
    push_column(&mut columns, "max_backends", AdminColumnType::Int8);
    push_column(&mut columns, "active_backends", AdminColumnType::Int8);
    push_column(&mut columns, "idle_backends", AdminColumnType::Int8);
    push_column(&mut columns, "waiting_clients", AdminColumnType::Int8);
    push_column(&mut columns, "checkout_lock_wait_ms", AdminColumnType::Float8);
    assert(column_facts(columns@) =~= pools_columns());
    columns
}

/// The row of the pool.
pub open spec fn pool_row(s: PoolSnapshot, performance: PerformanceSnapshot) -> Seq<Seq<char>> {
    seq![
        "global"@,
        decimal(s.configured_backends as nat),
        decimal(s.active_backends as nat),
        decimal(s.idle_backends as nat),
        decimal(s.waiting_clients as nat),
        shown_measure(performance.pool_checkout_lock_wait_ms),
    ]
}

fn pool_row_of(s: &PoolSnapshot, performance: &PerformanceSnapshot) -> (r: AdminRow)
    ensures
        r@ == pool_row(*s, *performance),
{
    let mut values: Vec<String> = Vec::new();
    assert(texts(values@) =~= Seq::empty());
    push_value(&mut values, "global".to_owned());
    push_value(&mut values, usize_text(s.configured_backends));
    push_value(&mut values, usize_text(s.active_backends));
    push_value(&mut values, usize_text(s.idle_backends));
    push_value(&mut values, usize_text(s.waiting_clients));
    push_value(&mut values, measured_text(&performance.pool_checkout_lock_wait_ms));
    assert(texts(values@) =~= pool_row(*s, *performance));
    AdminRow { values }
}

/// The pool.
pub fn pools_table(pool: &PoolSnapshot, performance: &PerformanceSnapshot) -> (r: AdminTable)
    ensures
        r@ == (TableFacts {
            view: AdminView::Pools,
            columns: pools_columns(),
            rows: seq![pool_row(*pool, *performance)],
        }),
{
    let mut rows: Vec<AdminRow> = Vec::new();
    assert(row_facts(rows@) =~= Seq::empty());
    push_row(&mut rows, pool_row_of(pool, performance));
    assert(row_facts(rows@) =~= seq![pool_row(*pool, *performance)]);
    AdminTable { view: AdminView::Pools, columns: pools_header(), rows }
}

/// The columns of the table of servers.
pub open spec fn servers_columns() -> Seq<ColumnFacts> {
    seq![
        ColumnFacts { name: "backend_id"@, column_type: AdminColumnType::Int8 },
        ColumnFacts { name: "route_key"@, column_type: AdminColumnType::Text },
        ColumnFacts { name: "state"@, column_type: AdminColumnType::Text },
        ColumnFacts { name: "last_checkout_age_ms"@, column_type: AdminColumnType::Int8 },
        ColumnFacts { name: "in_transaction"@, column_type: AdminColumnType::Bool },
        ColumnFacts { name: "endpoint_role"@, column_type: AdminColumnType::Text },
        ColumnFacts { name: "detected_role"@, column_type: AdminColumnType::Text },
        ColumnFacts { name: "health"@, column_type: AdminColumnType::Text },
        ColumnFacts { name: "lag_ms"@, column_type: AdminColumnType::Text },
        ColumnFacts { name: "replay_lsn"@, column_type: AdminColumnType::Text },
        ColumnFacts { name: "last_probe_age_ms"@, column_type: AdminColumnType::Text },
    ]
}

fn servers_header() -> (r: Vec<AdminColumn>)
    ensures
        column_facts(r@) == servers_columns(),
{
    let mut columns: Vec<AdminColumn> = Vec::new();
    assert(column_facts(columns@) =~= Seq::empty());
    push_column(&mut columns, "backend_id", AdminColumnType::Int8);
    push_column(&mut columns, "route_key", AdminColumnType::Text);
    push_column(&mut columns, "state", AdminColumnType::Text);
    push_column(&mut columns, "last_checkout_age_ms", AdminColumnType::Int8);
    push_column(&mut columns, "in_transaction", AdminColumnType::Bool);
    push_column(&mut columns, "endpoint_role", AdminColumnType::Text);
    push_column(&mut columns, "detected_role", AdminColumnType::Text);
    push_column(&mut columns, "health", AdminColumnType::Text);
    push_column(&mut columns, "lag_ms", AdminColumnType::Text);
    push_column(&mut columns, "replay_lsn", AdminColumnType::Text);
    push_column(&mut columns, "last_probe_age_ms", AdminColumnType::Text);
    assert(column_facts(columns@) =~= servers_columns());
    columns
}

/// What was last found of a server.
pub open spec fn last_health(list: Seq<ReplicaHealthSnapshot>, endpoint_id: u64) -> Option<
    ReplicaHealthSnapshot,
>
    decreases list.len(),
{
    if list.len() == 0 {
        None
    } else if list.last().endpoint_id == endpoint_id {
        Some(list.last())
    } else {
        last_health(list.drop_last(), endpoint_id)
    }
}

fn find_health(list: &Vec<ReplicaHealthSnapshot>, endpoint_id: u64) -> (r: Option<
    &ReplicaHealthSnapshot,
>)
    ensures
        match r {
            Some(health) => last_health(list@, endpoint_id) == Some(*health),
            None => last_health(list@, endpoint_id) is None,
        },
{
    let mut i: usize = list.len();
    assert(list@.take(i as int) =~= list@);
    while i > 0
        invariant
            i <= list@.len(),
            last_health(list@, endpoint_id) == last_health(list@.take(i as int), endpoint_id),
        decreases i,
    {
        let at: usize = i - 1;
        assert(list@.take(i as int).drop_last() =~= list@.take(at as int));
        if list[at].endpoint_id == endpoint_id {
            return Some(&list[at]);
        }
        i = at;
    }
    None
}

/// What was found of a server, as it is shown.
pub open spec fn health_values(
    health: Option<ReplicaHealthSnapshot>,
    now: Duration,
) -> Seq<Seq<char>> {
    match health {
        Some(h) => seq![
            h.expected_role.name(),
            h.role_state.name(),
            h.health_state.name(),
            shown_opt_millis(h.lag_duration),
            shown_text(h.replay_lsn),
            shown_age(h.last_successful_probe_at, now),
        ],
        None => seq!["<none>"@, "<none>"@, "<none>"@, "<none>"@, "<none>"@, "<none>"@],
    }
}

/// A server's row.
pub open spec fn server_row(s: ServerSnapshot, health: Option<ReplicaHealthSnapshot>, now: Duration)
    -> Seq<Seq<char>> {
    seq![
        decimal(s.backend_id as nat),
        shown_route(s.route_key),
        s.state@,
        shown_millis(s.age),
        bool_text(s.in_transaction),
    ] + health_values(health, now)
}

fn server_row_of(s: &ServerSnapshot, list: &Vec<ReplicaHealthSnapshot>, now: &Duration) -> (r:
    AdminRow)
    ensures
        r@ == server_row(*s, last_health(list@, s.backend_id), *now),
{
    let mut values: Vec<String> = Vec::new();
    assert(texts(values@) =~= Seq::empty());
    push_value(&mut values, u64_text(s.backend_id));
    push_value(&mut values, optional_route_key(&s.route_key));
    push_value(&mut values, s.state.clone());
    push_value(&mut values, duration_millis(&s.age));
    push_value(&mut values, bool_string(s.in_transaction));
    match find_health(list, s.backend_id) {
        Some(h) => {
            push_value(&mut values, h.expected_role.as_str().to_owned());
            push_value(&mut values, h.role_state.as_str().to_owned());
            push_value(&mut values, h.health_state.as_str().to_owned());
            push_value(&mut values, optional_duration(&h.lag_duration));
            push_value(&mut values, optional_text(&h.replay_lsn));
            push_value(&mut values, optional_probe_age(&h.last_successful_probe_at, now));
        },
        None => {
            push_value(&mut values, "<none>".to_owned());
            push_value(&mut values, "<none>".to_owned());
            push_value(&mut values, "<none>".to_owned());
            push_value(&mut values, "<none>".to_owned());
            push_value(&mut values, "<none>".to_owned());
            push_value(&mut values, "<none>".to_owned());
        },
    }
    assert(texts(values@) =~= server_row(*s, last_health(list@, s.backend_id), *now));
    AdminRow { values }
}

/// The servers, each with what probes last found of it.
pub open spec fn servers_rows(
    servers: Seq<ServerSnapshot>,
    health: Seq<ReplicaHealthSnapshot>,
    now: Duration,
) -> Seq<Seq<Seq<char>>> {
    Seq::new(servers.len(), |i: int| server_row(servers[i], last_health(health, servers[i].backend_id), now))
}

/// The servers, each with what probes last found of it.
pub fn servers_table(servers: &Vec<ServerSnapshot>, health: &Vec<ReplicaHealthSnapshot>, now: &Duration) -> (r: AdminTable)
    ensures
        r@ == (TableFacts {
            view: AdminView::Servers,
            columns: servers_columns(),
            rows: servers_rows(servers@, health@, *now),
        }),
{
    let mut rows: Vec<AdminRow> = Vec::new();
    let ghost all = servers_rows(servers@, health@, *now);
    let mut i: usize = 0;
    assert(row_facts(rows@) =~= all.take(0));
    while i < servers.len()
        invariant
            i <= servers@.len(),
            all == servers_rows(servers@, health@, *now),
            row_facts(rows@) == all.take(i as int),
        decreases servers@.len() - i,
    {
        push_row(&mut rows, server_row_of(&servers[i], health, now));
        assert(row_facts(rows@) =~= all.take(i + 1));
        i += 1;
    }
    assert(all.take(i as int) =~= all);
    AdminTable { view: AdminView::Servers, columns: servers_header(), rows }
}

// ---------------------------------------------------------------------------
// The process and its cluster
// ---------------------------------------------------------------------------

/// The columns of the table of the process.
pub open spec fn runtime_columns() -> Seq<ColumnFacts> {
    seq![
        ColumnFacts { name: "node_id"@, column_type: AdminColumnType::Text },
        ColumnFacts { name: "lifecycle_state"@, column_type: AdminColumnType::Text },
        ColumnFacts { name: "readiness_state"@, column_type: AdminColumnType::Text },
        ColumnFacts { name: "runtime_engine"@, column_type: AdminColumnType::Text },
        ColumnFacts { name: "uptime_ms"@, column_type: AdminColumnType::Int8 },
    ]
}

fn runtime_header() -> (r: Vec<AdminColumn>)
    ensures
        column_facts(r@) == runtime_columns(),
{
    let mut columns: Vec<AdminColumn> = Vec::new();
    assert(column_facts(columns@) =~= Seq::empty());
    push_column(&mut columns, "node_id", AdminColumnType::Text);
    push_column(&mut columns, "lifecycle_state", AdminColumnType::Text);
    push_column(&mut columns, "readiness_state", AdminColumnType::Text);
    push_column(&mut columns, "runtime_engine", AdminColumnType::Text);
    push_column(&mut columns, "uptime_ms", AdminColumnType::Int8);
    assert(column_facts(columns@) =~= runtime_columns());
    columns
}

/// The row of the process; before it has told anything of itself, what its settings say.
pub open spec fn runtime_row(runtime: Option<RuntimeSnapshot>, config: Config) -> Seq<Seq<char>> {
    match runtime {
        Some(s) => seq![
            s.node_id@,
            s.lifecycle_state.name(),
            s.readiness_state.name(),
            s.runtime_engine.name(),
            shown_millis(s.uptime),
        ],
        None => seq![
            config.runtime.node.node_id@,
            RuntimeLifecycleState::Starting.name(),
            ReadinessState::NotReady.name(),
            config.runtime.engine.runtime_engine.name(),
            decimal(0),
        ],
    }
}

/// The process.
pub fn runtime_table(runtime: &Option<RuntimeSnapshot>, config: &Config) -> (r: AdminTable)
    ensures
        r@ == (TableFacts {
            view: AdminView::Runtime,
            columns: runtime_columns(),
            rows: seq![runtime_row(*runtime, *config)],
        }),
{
    let mut values: Vec<String> = Vec::new();
    assert(texts(values@) =~= Seq::empty());
    match runtime {
        Some(s) => {
            push_value(&mut values, s.node_id.as_str().to_owned());
            push_value(&mut values, s.lifecycle_state.as_str().to_owned());
            push_value(&mut values, s.readiness_state.as_str().to_owned());
            push_value(&mut values, s.runtime_engine.as_str().to_owned());
            push_value(&mut values, duration_millis(&s.uptime));
        },
        None => {
            push_value(&mut values, config.runtime.node.node_id.as_str().to_owned());
            push_value(&mut values, RuntimeLifecycleState::Starting.as_str().to_owned());
            push_value(&mut values, ReadinessState::NotReady.as_str().to_owned());
            push_value(&mut values, config.runtime.engine.runtime_engine.as_str().to_owned());
            push_value(&mut values, u64_text(0));
        },
    }
    assert(texts(values@) =~= runtime_row(*runtime, *config));
    let mut rows: Vec<AdminRow> = Vec::new();
    assert(row_facts(rows@) =~= Seq::empty());
    push_row(&mut rows, AdminRow { values });
    assert(row_facts(rows@) =~= seq![runtime_row(*runtime, *config)]);
    AdminTable { view: AdminView::Runtime, columns: runtime_header(), rows }
}

/// The columns of the table of nodes.
pub open spec fn nodes_columns() -> Seq<ColumnFacts> {
    seq![
        ColumnFacts { name: "role"@, column_type: AdminColumnType::Text },
        ColumnFacts { name: "node_id"@, column_type: AdminColumnType::Text },
        ColumnFacts { name: "lifecycle_state"@, column_type: AdminColumnType::Text },
        ColumnFacts { name: "readiness_state"@, column_type: AdminColumnType::Text },
        ColumnFacts { name: "health"@, column_type: AdminColumnType::Text },
        ColumnFacts { name: "route_map_generation_id"@, column_type: AdminColumnType::Int8 },
        ColumnFacts { name: "policy_generation_id"@, column_type: AdminColumnType::Int8 },
        ColumnFacts { name: "heartbeat_age_ms"@, column_type: AdminColumnType::Int8 },
        ColumnFacts { name: "overloaded"@, column_type: AdminColumnType::Bool },
    ]
}

fn nodes_header() -> (r: Vec<AdminColumn>)
    ensures
        column_facts(r@) == nodes_columns(),
{
    let mut columns: Vec<AdminColumn> = Vec::new();
    assert(column_facts(columns@) =~= Seq::empty());
    push_column(&mut columns, "role", AdminColumnType::Text);
    push_column(&mut columns, "node_id", AdminColumnType::Text);
    push_column(&mut columns, "lifecycle_state", AdminColumnType::Text);
    push_column(&mut columns, "readiness_state", AdminColumnType::Text);
    push_column(&mut columns, "health", AdminColumnType::Text);
    push_column(&mut columns, "route_map_generation_id", AdminColumnType::Int8);
    push_column(&mut columns, "policy_generation_id", AdminColumnType::Int8);
    push_column(&mut columns, "heartbeat_age_ms", AdminColumnType::Int8);
    push_column(&mut columns, "overloaded", AdminColumnType::Bool);
    assert(column_facts(columns@) =~= nodes_columns());
    columns
}

/// A node's row.
pub open spec fn node_row(s: NodeSummarySnapshot) -> Seq<Seq<char>> {
    seq![
        s.role.name(),
        s.node_id@,
        s.lifecycle_state.name(),
        s.readiness_state.name(),
        s.health.name(),
        decimal(s.route_map_generation as nat),
        decimal(s.policy_generation as nat),
        shown_millis(s.heartbeat_age),
        bool_text(s.overloaded),
    ]
}

fn node_row_of(s: &NodeSummarySnapshot) -> (r: AdminRow)
    ensures
        r@ == node_row(*s),
{
    let mut values: Vec<String> = Vec::new();
    assert(texts(values@) =~= Seq::empty());
    push_value(&mut values, s.role.as_str().to_owned());
    push_value(&mut values, s.node_id.as_str().to_owned());
    push_value(&mut values, s.lifecycle_state.as_str().to_owned());
    push_value(&mut values, s.readiness_state.as_str().to_owned());
    push_value(&mut values, s.health.as_str().to_owned());
    push_value(&mut values, u64_text(s.route_map_generation));
    push_value(&mut values, u64_text(s.policy_generation));
    push_value(&mut values, duration_millis(&s.heartbeat_age));
    push_value(&mut values, bool_string(s.overloaded));
    assert(texts(values@) =~= node_row(*s));
    AdminRow { values }
}

/// The row of a node that knows of no cluster.
pub open spec fn own_node_row(s: RuntimeSnapshot) -> Seq<Seq<char>> {
    seq![
        "local"@,
        s.node_id@,
        s.lifecycle_state.name(),
        s.readiness_state.name(),
        "healthy"@,
        "0"@,
        "0"@,
        shown_millis(s.uptime),
        "false"@,
    ]
}

fn own_node_row_of(s: &RuntimeSnapshot) -> (r: AdminRow)
    ensures
        r@ == own_node_row(*s),
{
    let mut values: Vec<String> = Vec::new();
    assert(texts(values@) =~= Seq::empty());
    push_value(&mut values, "local".to_owned());
    push_value(&mut values, s.node_id.as_str().to_owned());
    push_value(&mut values, s.lifecycle_state.as_str().to_owned());
    push_value(&mut values, s.readiness_state.as_str().to_owned());
    push_value(&mut values, "healthy".to_owned());
    push_value(&mut values, "0".to_owned());
    push_value(&mut values, "0".to_owned());
    push_value(&mut values, duration_millis(&s.uptime));
    push_value(&mut values, "false".to_owned());
    assert(texts(values@) =~= own_node_row(*s));
    AdminRow { values }
}

/// The nodes; the process alone where no others are known.
pub open spec fn nodes_rows(
    nodes: Seq<NodeSummarySnapshot>,
    runtime: Option<RuntimeSnapshot>,
) -> Seq<
    Seq<Seq<char>>,
> {
    if nodes.len() > 0 {
        Seq::new(nodes.len(), |i: int| node_row(nodes[i]))
    } else {
        match runtime {
            Some(runtime) => seq![own_node_row(runtime)],
            None => Seq::empty(),
        }
    }
}

/// The nodes; the process alone where no others are known.
pub fn nodes_table(nodes: &Vec<NodeSummarySnapshot>, runtime: &Option<RuntimeSnapshot>) -> (r:
    AdminTable)
    ensures
        r@ == (TableFacts {
            view: AdminView::Nodes,
            columns: nodes_columns(),
            rows: nodes_rows(nodes@, *runtime),
        }),
{
    let mut rows: Vec<AdminRow> = Vec::new();
    let ghost all = nodes_rows(nodes@, *runtime);
    assert(row_facts(rows@) =~= Seq::empty());
    if nodes.len() == 0 {
        match runtime {
            Some(runtime) => {
                push_row(&mut rows, own_node_row_of(runtime));
            },
            None => {},
        }
        assert(row_facts(rows@) =~= all);
    } else {
        let mut i: usize = 0;
        assert(row_facts(rows@) =~= all.take(0));
        while i < nodes.len()
            invariant
                0 < nodes@.len(),
                i <= nodes@.len(),
                all == nodes_rows(nodes@, *runtime),
                row_facts(rows@) == all.take(i as int),
            decreases nodes@.len() - i,
        {
            push_row(&mut rows, node_row_of(&nodes[i]));
            assert(row_facts(rows@) =~= all.take(i + 1));
            i += 1;
        }
        assert(all.take(i as int) =~= all);
    }
    AdminTable { view: AdminView::Nodes, columns: nodes_header(), rows }
}

// ---------------------------------------------------------------------------
// Mirroring and the adaptive controller
// ---------------------------------------------------------------------------

/// The columns of the table of mirrored requests.
pub open spec fn mirroring_columns() -> Seq<ColumnFacts> {
    seq![
        ColumnFacts { name: "mode"@, column_type: AdminColumnType::Text },
        ColumnFacts { name: "sample_rate"@, column_type: AdminColumnType::Float8 },
        ColumnFacts { name: "in_flight"@, column_type: AdminColumnType::Int8 },
        ColumnFacts { name: "dropped"@, column_type: AdminColumnType::Int8 },
        ColumnFacts { name: "timeout_total"@, column_type: AdminColumnType::Int8 },
        ColumnFacts { name: "decisions_total"@, column_type: AdminColumnType::Int8 },
        ColumnFacts { name: "mirrored_total"@, column_type: AdminColumnType::Int8 },
        ColumnFacts { name: "skipped_total"@, column_type: AdminColumnType::Int8 },
        ColumnFacts { name: "rejected_total"@, column_type: AdminColumnType::Int8 },
    ]
}

fn mirroring_header() -> (r: Vec<AdminColumn>)
    ensures
        column_facts(r@) == mirroring_columns(),
{
    let mut columns: Vec<AdminColumn> = Vec::new();
    assert(column_facts(columns@) =~= Seq::empty());
    push_column(&mut columns, "mode", AdminColumnType::Text);
    push_column(&mut columns, "sample_rate", AdminColumnType::Float8);
    push_column(&mut columns, "in_flight", AdminColumnType::Int8);
    push_column(&mut columns, "dropped", AdminColumnType::Int8);
    push_column(&mut columns, "timeout_total", AdminColumnType::Int8);
    push_column(&mut columns, "decisions_total", AdminColumnType::Int8);
    push_column(&mut columns, "mirrored_total", AdminColumnType::Int8);
    push_column(&mut columns, "skipped_total", AdminColumnType::Int8);
    push_column(&mut columns, "rejected_total", AdminColumnType::Int8);
    assert(column_facts(columns@) =~= mirroring_columns());
    columns
}

/// How many requests were decided about.
pub open spec fn decisions_total(s: MirrorSummarySnapshot) -> int {
    s.dropped_total + s.timed_out_total + s.mirrored_total + s.skipped_total + s.rejected_total
}

/// How many requests were decided about.
pub fn mirror_decisions_total(snapshot: &MirrorSummarySnapshot) -> (r: u64)
    requires
        decisions_total(*snapshot) <= u64::MAX,
    ensures
        r == decisions_total(*snapshot),
{
    snapshot.dropped_total + snapshot.timed_out_total + snapshot.mirrored_total
        + snapshot.skipped_total + snapshot.rejected_total
}

/// That the requests can be counted.
pub open spec fn mirror_countable(snapshot: Option<MirrorSummarySnapshot>) -> bool {
    match snapshot {
        Some(s) => decisions_total(s) <= u64::MAX,
        None => true,
    }
}

/// The row of mirrored requests; nothing is mirrored where nothing is told.
pub open spec fn mirroring_row(snapshot: Option<MirrorSummarySnapshot>) -> Seq<Seq<char>> {
    match snapshot {
        Some(s) => seq![
            s.mode.name(),
            s.sample_rate@,
            decimal(s.in_flight as nat),
            decimal(s.dropped_total as nat),
            decimal(s.timed_out_total as nat),
            decimal(decisions_total(s) as nat),
            decimal(s.mirrored_total as nat),
            decimal(s.skipped_total as nat),
            decimal(s.rejected_total as nat),
        ],
        None => seq![
            MirrorMode::Off.name(),
            "0.000"@,
            "0"@,
            "0"@,
            "0"@,
            "0"@,
            "0"@,
            "0"@,
            "0"@,
        ],
    }
}

/// Mirrored requests.
pub fn mirroring_table(snapshot: &Option<MirrorSummarySnapshot>) -> (r: AdminTable)
    requires
        mirror_countable(*snapshot),
    ensures
        r@ == (TableFacts {
            view: AdminView::Mirroring,
            columns: mirroring_columns(),
            rows: seq![mirroring_row(*snapshot)],
        }),
{
    let mut values: Vec<String> = Vec::new();
    assert(texts(values@) =~= Seq::empty());
    match snapshot {
        Some(s) => {
            push_value(&mut values, s.mode.as_str().to_owned());
            push_value(&mut values, s.sample_rate.clone());
            push_value(&mut values, usize_text(s.in_flight));
            push_value(&mut values, u64_text(s.dropped_total));
            push_value(&mut values, u64_text(s.timed_out_total));
            push_value(&mut values, u64_text(mirror_decisions_total(s)));
            push_value(&mut values, u64_text(s.mirrored_total));
            push_value(&mut values, u64_text(s.skipped_total));
            push_value(&mut values, u64_text(s.rejected_total));
        },
        None => {
            push_value(&mut values, MirrorMode::Off.as_str().to_owned());
            push_value(&mut values, "0.000".to_owned());
            push_value(&mut values, "0".to_owned());
            push_value(&mut values, "0".to_owned());
            push_value(&mut values, "0".to_owned());
            push_value(&mut values, "0".to_owned());
            push_value(&mut values, "0".to_owned());
            push_value(&mut values, "0".to_owned());
            push_value(&mut values, "0".to_owned());
        },
    }
    assert(texts(values@) =~= mirroring_row(*snapshot));
    let mut rows: Vec<AdminRow> = Vec::new();
    assert(row_facts(rows@) =~= Seq::empty());
    push_row(&mut rows, AdminRow { values });
    assert(row_facts(rows@) =~= seq![mirroring_row(*snapshot)]);
    AdminTable { view: AdminView::Mirroring, columns: mirroring_header(), rows }
}

/// The columns of the table of the adaptive controller.
pub open spec fn adaptive_columns() -> Seq<ColumnFacts> {
    seq![
        ColumnFacts { name: "mode"@, column_type: AdminColumnType::Text },
        ColumnFacts { name: "latest_recommendation"@, column_type: AdminColumnType::Text },
        ColumnFacts { name: "apply_status"@, column_type: AdminColumnType::Text },
        ColumnFacts { name: "guardrails"@, column_type: AdminColumnType::Text },
    ]
}

fn adaptive_header() -> (r: Vec<AdminColumn>)
    ensures
        column_facts(r@) == adaptive_columns(),
{
    let mut columns: Vec<AdminColumn> = Vec::new();
    assert(column_facts(columns@) =~= Seq::empty());
    push_column(&mut columns, "mode", AdminColumnType::Text);
    push_column(&mut columns, "latest_recommendation", AdminColumnType::Text);
    push_column(&mut columns, "apply_status", AdminColumnType::Text);
    push_column(&mut columns, "guardrails", AdminColumnType::Text);
    assert(column_facts(columns@) =~= adaptive_columns());
    columns
}

/// A recommendation in short.
pub open spec fn recommendation_text(
    snapshot: Option<AdaptiveRecommendationSnapshot>,
) -> Seq<char> {
    match snapshot {
        None => "<none>"@,
        Some(s) => s.signal.name() + ":"@ + s.knob.name() + ":"@ + s.confidence@,
    }
}

fn recommendation_summary(snapshot: Option<&AdaptiveRecommendationSnapshot>) -> (r: String)
    ensures
        r@ == match snapshot {
            Some(s) => recommendation_text(Some(*s)),
            None => recommendation_text(None),
        },
{
    match snapshot {
        None => "<none>".to_owned(),
        Some(s) => join5(s.signal.as_str(), ":", s.knob.as_str(), ":", s.confidence.as_str()),
    }
}

/// What became of a recommendation, in short.
pub open spec fn apply_text(snapshot: Option<AdaptiveOutcomeSnapshot>) -> Seq<char> {
    match snapshot {
        None => "<none>"@,
        Some(s) => s.outcome.name() + if s.disabled_by_reload {
            ":disabled"@
        } else {
            ""@
        },
    }
}

fn apply_status_summary(snapshot: Option<&AdaptiveOutcomeSnapshot>) -> (r: String)
    ensures
        r@ == match snapshot {
            Some(s) => apply_text(Some(*s)),
            None => apply_text(None),
        },
{
    match snapshot {
        None => "<none>".to_owned(),
        Some(s) => join2(
            s.outcome.as_str(),
            if s.disabled_by_reload {
                ":disabled"
            } else {
                ""
            },
        ),
    }
}

/// The names of some knobs.
pub open spec fn knob_names(knobs: Seq<TunableKnob>) -> Seq<Seq<char>> {
    knobs.map_values(|knob: TunableKnob| knob.name())
}

/// What the controller may do, in short.
pub open spec fn guardrails_text(
    mode: AdaptiveMode,
    apply: AdaptiveApplyConfig,
    guardrail: AdaptiveGuardrailConfig,
) -> Seq<char> {
    let knobs = apply.adaptive_apply_allowlist@;
    "mode="@ + mode.name() + ";apply="@ + bool_text(apply.adaptive_apply_enabled) + ";allowlist="@ + (
    if knobs.len() == 0 {
        "<none>"@
    } else {
        joined(knob_names(knobs), ","@)
    }) + ";max_change="@ + decimal(guardrail.adaptive_max_change_percent as nat) + "%"@
}

fn adaptive_guardrails_label(
    mode: AdaptiveMode,
    apply: &AdaptiveApplyConfig,
    guardrail: &AdaptiveGuardrailConfig,
) -> (r: String)
    ensures
        r@ == guardrails_text(mode, *apply, *guardrail),
{
    let knobs = &apply.adaptive_apply_allowlist;
    let allowlist = if knobs.len() == 0 {
        "<none>".to_owned()
    } else {
        let mut names: Vec<String> = Vec::new();
        let mut i: usize = 0;
        while i < knobs.len()
            invariant
                i <= knobs@.len(),
                names@.len() == i,
                forall|j: int| 0 <= j < i ==> (#[trigger] names@[j])@ == knobs@[j].name(),
            decreases knobs@.len() - i,
        {
            names.push(knobs[i].as_str().to_owned());
            i += 1;
        }
        assert(texts(names@) =~= knob_names(knobs@));
        join_all(&names, ",")
    };
    let head = join5(
        "mode=",
        mode.as_str(),
        ";apply=",
        bool_string(apply.adaptive_apply_enabled).as_str(),
        ";allowlist=",
    );
    join5(
        head.as_str(),
        allowlist.as_str(),
        ";max_change=",
        u64_text(guardrail.adaptive_max_change_percent as u64).as_str(),
        "%",
    )
}

/// The item of a list that is so far from its end, among the last five.
pub open spec fn from_end<T>(list: Seq<T>, i: int) -> Option<T> {
    if 0 <= i < list.len() && i < 5 {
        Some(list[list.len() - 1 - i])
    } else {
        None
    }
}

/// How many rows two lists have side by side: as many as the longer one, up to five, and one at
/// least.
pub open spec fn side_by_side(a: nat, b: nat) -> nat {
    let longer = if a > b {
        a
    } else {
        b
    };
    if longer == 0 {
        1
    } else if longer > 5 {
        5
    } else {
        longer
    }
}

/// The latest recommendations next to the latest outcomes, the newest first.
pub open spec fn adaptive_rows(
    mode: AdaptiveMode,
    apply: AdaptiveApplyConfig,
    guardrail: AdaptiveGuardrailConfig,
    recommendations: Seq<AdaptiveRecommendationSnapshot>,
    outcomes: Seq<AdaptiveOutcomeSnapshot>,
) -> Seq<Seq<Seq<char>>> {
    Seq::new(
        side_by_side(recommendations.len(), outcomes.len()),
        |i: int|
            seq![
                mode.name(),
                recommendation_text(from_end(recommendations, i)),
                apply_text(from_end(outcomes, i)),
                guardrails_text(mode, apply, guardrail),
            ],
    )
}

/// The latest recommendations next to the latest outcomes, the newest first.
pub fn adaptive_table(
    mode: AdaptiveMode,
    apply: &AdaptiveApplyConfig,
    guardrail: &AdaptiveGuardrailConfig,
    recommendations: &Vec<AdaptiveRecommendationSnapshot>,
    outcomes: &Vec<AdaptiveOutcomeSnapshot>,
) -> (r: AdminTable)
    ensures
        r@ == (TableFacts {
            view: AdminView::Adaptive,
            columns: adaptive_columns(),
            rows: adaptive_rows(mode, *apply, *guardrail, recommendations@, outcomes@),
        }),
{
    let guardrails = adaptive_guardrails_label(mode, apply, guardrail);
    let longer: usize = if recommendations.len() > outcomes.len() {
        recommendations.len()
    } else {
        outcomes.len()
    };
    let count: usize = if longer == 0 {
        1
    } else if longer > 5 {
        5
    } else {
        longer
    };
    let mut rows: Vec<AdminRow> = Vec::new();
    let ghost all = adaptive_rows(mode, *apply, *guardrail, recommendations@, outcomes@);
    let mut i: usize = 0;
    assert(row_facts(rows@) =~= all.take(0));
    while i < count
        invariant
            i <= count <= 5,
            count == all.len(),
            guardrails@ == guardrails_text(mode, *apply, *guardrail),
            all == adaptive_rows(mode, *apply, *guardrail, recommendations@, outcomes@),
            row_facts(rows@) == all.take(i as int),
        decreases count - i,
    {
        let recommendation = if i < recommendations.len() {
            recommendation_summary(Some(&recommendations[recommendations.len() - 1 - i]))
        } else {
            recommendation_summary(None)
        };
        let outcome = if i < outcomes.len() {
            apply_status_summary(Some(&outcomes[outcomes.len() - 1 - i]))
        } else {
            apply_status_summary(None)
        };
        let mut values: Vec<String> = Vec::new();
        assert(texts(values@) =~= Seq::empty());
        push_value(&mut values, mode.as_str().to_owned());
        push_value(&mut values, recommendation);
        push_value(&mut values, outcome);
        push_value(&mut values, guardrails.clone());
        assert(texts(values@) =~= all[i as int]);
        push_row(&mut rows, AdminRow { values });
        assert(row_facts(rows@) =~= all.take(i + 1));
        i += 1;
    }
    assert(all.take(i as int) =~= all);
    AdminTable { view: AdminView::Adaptive, columns: adaptive_header(), rows }
}

// ---------------------------------------------------------------------------
// Benchmarks and performance
// ---------------------------------------------------------------------------

/// The columns of the table of benchmarks.
pub open spec fn benchmarks_columns() -> Seq<ColumnFacts> {
    seq![
        ColumnFacts { name: "scenario"@, column_type: AdminColumnType::Text },
        ColumnFacts { name: "target"@, column_type: AdminColumnType::Text },
        ColumnFacts { name: "comparison"@, column_type: AdminColumnType::Text },
        ColumnFacts { name: "driver"@, column_type: AdminColumnType::Text },
        ColumnFacts { name: "duration_ms"@, column_type: AdminColumnType::Int8 },
        ColumnFacts { name: "p50_ms"@, column_type: AdminColumnType::Float8 },
        ColumnFacts { name: "p95_ms"@, column_type: AdminColumnType::Float8 },
        ColumnFacts { name: "p99_ms"@, column_type: AdminColumnType::Float8 },
        ColumnFacts { name: "throughput_qps"@, column_type: AdminColumnType::Float8 },
        ColumnFacts { name: "error_rate"@, column_type: AdminColumnType::Float8 },
        ColumnFacts { name: "cpu_label"@, column_type: AdminColumnType::Text },
        ColumnFacts { name: "memory_label"@, column_type: AdminColumnType::Text },
        ColumnFacts { name: "workload"@, column_type: AdminColumnType::Text },
        ColumnFacts { name: "matrix_targets"@, column_type: AdminColumnType::Text },
        ColumnFacts { name: "comparison_outcome"@, column_type: AdminColumnType::Text },
    ]
}

fn benchmarks_header() -> (r: Vec<AdminColumn>)
    ensures
        column_facts(r@) == benchmarks_columns(),
{
    let mut columns: Vec<AdminColumn> = Vec::new();
    assert(column_facts(columns@) =~= Seq::empty());
    push_column(&mut columns, "scenario", AdminColumnType::Text);
    push_column(&mut columns, "target", AdminColumnType::Text);
    push_column(&mut columns, "comparison", AdminColumnType::Text);
    push_column(&mut columns, "driver", AdminColumnType::Text);
    push_column(&mut columns, "duration_ms", AdminColumnType::Int8);
    push_column(&mut columns, "p50_ms", AdminColumnType::Float8);
    push_column(&mut columns, "p95_ms", AdminColumnType::Float8);
    push_column(&mut columns, "p99_ms", AdminColumnType::Float8);
    push_column(&mut columns, "throughput_qps", AdminColumnType::Float8);
    push_column(&mut columns, "error_rate", AdminColumnType::Float8);
    push_column(&mut columns, "cpu_label", AdminColumnType::Text);
    push_column(&mut columns, "memory_label", AdminColumnType::Text);
    push_column(&mut columns, "workload", AdminColumnType::Text);
    push_column(&mut columns, "matrix_targets", AdminColumnType::Text);
    push_column(&mut columns, "comparison_outcome", AdminColumnType::Text);
    assert(column_facts(columns@) =~= benchmarks_columns());
    columns
}

/// What is shown in place of a detail of a benchmark.
pub const REDACTED_BENCHMARK_DETAIL_LABEL: &'static str = "redacted";

/// What some targets are.
pub open spec fn comparison_names(targets: Seq<BenchmarkTarget>) -> Seq<Seq<char>> {
    targets.map_values(|target: BenchmarkTarget| target.comparison.name())
}

fn benchmark_matrix_targets(scenario: &BenchmarkScenario) -> (r: String)
    ensures
        r@ == joined(comparison_names(scenario.targets@), ","@),
{
    let mut names: Vec<String> = Vec::new();
    let mut i: usize = 0;
    while i < scenario.targets.len()
        invariant
            i <= scenario.targets@.len(),
            names@.len() == i,
            forall|j: int|
                0 <= j < i ==> (#[trigger] names@[j])@ == scenario.targets@[j].comparison.name(),
        decreases scenario.targets@.len() - i,
    {
        names.push(scenario.targets[i].comparison.as_str().to_owned());
        i += 1;
    }
    assert(texts(names@) =~= comparison_names(scenario.targets@));
    join_all(&names, ",")
}

/// How a scenario's target last compared, as it is shown.
pub open spec fn shown_comparison(
    list: Seq<crate::snapshot::BenchmarkComparisonOutcome>,
    scenario: Seq<char>,
    comparison: BenchmarkComparison,
) -> Seq<char>
    decreases list.len(),
{
    if list.len() == 0 {
        "unknown"@
    } else if list.last().scenario@ == scenario && list.last().comparison == comparison {
        list.last().outcome.name()
    } else {
        shown_comparison(list.drop_last(), scenario, comparison)
    }
}

fn comparison_text(
    list: &Vec<crate::snapshot::BenchmarkComparisonOutcome>,
    scenario: &str,
    comparison: BenchmarkComparison,
) -> (r: String)
    ensures
        r@ == shown_comparison(list@, scenario@, comparison),
{
    let mut i: usize = list.len();
    assert(list@.take(i as int) =~= list@);
    while i > 0
        invariant
            i <= list@.len(),
            shown_comparison(list@, scenario@, comparison) == shown_comparison(
                list@.take(i as int),
                scenario@,
                comparison,
            ),
        decreases i,
    {
        let at: usize = i - 1;
        assert(list@.take(i as int).drop_last() =~= list@.take(at as int));
        if same_text(list[at].scenario.as_str(), scenario) && list[at].comparison == comparison {
            return list[at].outcome.as_str().to_owned();
        }
        i = at;
    }
    "unknown".to_owned()
}

/// The row of a result.
pub open spec fn benchmark_row(
    run: BenchmarkRunSnapshot,
    result: BenchmarkResult,
    performance: PerformanceSnapshot,
) -> Seq<Seq<char>> {
    seq![
        run.scenario.metric_label@,
        result.target.metric_label@,
        result.target.comparison.name(),
        result.driver@,
        decimal(result.duration_ms as nat),
        result.metrics.p50_ms.shown@,
        result.metrics.p95_ms.shown@,
        result.metrics.p99_ms.shown@,
        result.metrics.throughput_qps.shown@,
        result.metrics.error_rate.shown@,
        REDACTED_BENCHMARK_DETAIL_LABEL@,
        REDACTED_BENCHMARK_DETAIL_LABEL@,
        run.scenario.workload@,
        joined(comparison_names(run.scenario.targets@), ","@),
        shown_comparison(
            performance.comparisons@,
            run.scenario.name@,
            result.target.comparison,
        ),
    ]
}

fn benchmark_row_of(run: &BenchmarkRunSnapshot, result: &BenchmarkResult, performance: &PerformanceSnapshot) -> (r: AdminRow)
    ensures
        r@ == benchmark_row(*run, *result, *performance),
{
    let mut values: Vec<String> = Vec::new();
    assert(texts(values@) =~= Seq::empty());
    push_value(&mut values, run.scenario.metric_label.clone());
    push_value(&mut values, result.target.metric_label.clone());
    push_value(&mut values, result.target.comparison.as_str().to_owned());
    push_value(&mut values, result.driver.clone());
    push_value(&mut values, u64_text(result.duration_ms));
    push_value(&mut values, result.metrics.p50_ms.shown.clone());
    push_value(&mut values, result.metrics.p95_ms.shown.clone());
    push_value(&mut values, result.metrics.p99_ms.shown.clone());
    push_value(&mut values, result.metrics.throughput_qps.shown.clone());
    push_value(&mut values, result.metrics.error_rate.shown.clone());
    push_value(&mut values, REDACTED_BENCHMARK_DETAIL_LABEL.to_owned());
    push_value(&mut values, REDACTED_BENCHMARK_DETAIL_LABEL.to_owned());
    push_value(&mut values, run.scenario.workload.clone());
    push_value(&mut values, benchmark_matrix_targets(&run.scenario));
    push_value(&mut values, comparison_text(
            &performance.comparisons,
            run.scenario.name.as_str(),
            result.target.comparison,
        ));
    assert(texts(values@) =~= benchmark_row(*run, *result, *performance));
    AdminRow { values }
}

/// The rows of a run.
pub open spec fn run_rows(run: BenchmarkRunSnapshot, performance: PerformanceSnapshot) -> Seq<
    Seq<Seq<char>>,
> {
    Seq::new(run.results@.len(), |i: int| benchmark_row(run, run.results@[i], performance))
}

/// The rows of the last runs, the newest run first.
pub open spec fn benchmarks_rows(
    runs: Seq<BenchmarkRunSnapshot>,
    performance: PerformanceSnapshot,
    most: nat,
) -> Seq<Seq<Seq<char>>>
    decreases runs.len(),
{
    if runs.len() == 0 || most == 0 {
        Seq::empty()
    } else {
        run_rows(runs.last(), performance) + benchmarks_rows(
            runs.drop_last(),
            performance,
            (most - 1) as nat,
        )
    }
}

/// The results of the last eight runs, the newest run first.
pub fn benchmarks_table(runs: &Vec<BenchmarkRunSnapshot>, performance: &PerformanceSnapshot) -> (r:
    AdminTable)
    ensures
        r@ == (TableFacts {
            view: AdminView::Benchmarks,
            columns: benchmarks_columns(),
            rows: benchmarks_rows(runs@, *performance, 8),
        }),
{
    let mut rows: Vec<AdminRow> = Vec::new();
    let mut i: usize = runs.len();
    let mut left: usize = 8;
    let ghost all = benchmarks_rows(runs@, *performance, 8);
    proof {
        assert(runs@.take(i as int) =~= runs@);
        assert(row_facts(rows@) =~= Seq::empty());
        assert(row_facts(rows@) + all =~= all);
    }
    while i > 0 && left > 0
        invariant
            i <= runs@.len(),
            all == row_facts(rows@) + benchmarks_rows(
                runs@.take(i as int),
                *performance,
                left as nat,
            ),
        decreases i,
    {
        let at: usize = i - 1;
        let run = &runs[at];
        let ghost held = row_facts(rows@);
        let ghost own = run_rows(*run, *performance);
        let mut j: usize = 0;
        proof {
            assert(runs@.take(i as int).drop_last() =~= runs@.take(at as int));
            assert(runs@.take(i as int).last() == *run);
            assert(held + own.take(0) =~= held);
        }
        while j < run.results.len()
            invariant
                j <= run.results@.len(),
                own == run_rows(*run, *performance),
                row_facts(rows@) == held + own.take(j as int),
            decreases run.results@.len() - j,
        {
            push_row(&mut rows, benchmark_row_of(run, &run.results[j], performance));
            assert(row_facts(rows@) =~= held + own.take(j + 1));
            j += 1;
        }
        proof {
            assert(own.take(j as int) =~= own);
            assert(all =~= row_facts(rows@) + benchmarks_rows(
                runs@.take(at as int),
                *performance,
                (left - 1) as nat,
            ));
        }
        i = at;
        left -= 1;
    }
    assert(row_facts(rows@) =~= all);
    AdminTable { view: AdminView::Benchmarks, columns: benchmarks_header(), rows }
}

/// The columns of the table of performance.
pub open spec fn performance_columns() -> Seq<ColumnFacts> {
    seq![
        ColumnFacts { name: "metric"@, column_type: AdminColumnType::Text },
        ColumnFacts { name: "warning_threshold"@, column_type: AdminColumnType::Text },
        ColumnFacts { name: "failure_threshold"@, column_type: AdminColumnType::Text },
        ColumnFacts { name: "observed_value"@, column_type: AdminColumnType::Float8 },
        ColumnFacts { name: "baseline_value"@, column_type: AdminColumnType::Float8 },
        ColumnFacts { name: "regression_outcome"@, column_type: AdminColumnType::Text },
        ColumnFacts { name: "profile_status"@, column_type: AdminColumnType::Text },
        ColumnFacts { name: "process_status"@, column_type: AdminColumnType::Text },
        ColumnFacts { name: "process_cpu_seconds"@, column_type: AdminColumnType::Float8 },
        ColumnFacts { name: "process_resident_memory_bytes"@, column_type: AdminColumnType::Float8 },
        ColumnFacts { name: "cpu_per_query"@, column_type: AdminColumnType::Float8 },
        ColumnFacts { name: "memory_per_client_bytes"@, column_type: AdminColumnType::Float8 },
        ColumnFacts { name: "protocol_buffer_copies"@, column_type: AdminColumnType::Int8 },
        ColumnFacts { name: "pool_checkout_lock_wait_ms"@, column_type: AdminColumnType::Float8 },
        ColumnFacts { name: "prepared_cache_hits"@, column_type: AdminColumnType::Int8 },
        ColumnFacts { name: "prepared_cache_misses"@, column_type: AdminColumnType::Int8 },
        ColumnFacts { name: "observability_hot_path_allocations"@, column_type: AdminColumnType::Int8 },
        ColumnFacts { name: "idle_clients"@, column_type: AdminColumnType::Int8 },
    ]
}

fn performance_header() -> (r: Vec<AdminColumn>)
    ensures
        column_facts(r@) == performance_columns(),
{
    let mut columns: Vec<AdminColumn> = Vec::new();
    assert(column_facts(columns@) =~= Seq::empty());
    push_column(&mut columns, "metric", AdminColumnType::Text);
    push_column(&mut columns, "warning_threshold", AdminColumnType::Text);
    push_column(&mut columns, "failure_threshold", AdminColumnType::Text);
    push_column(&mut columns, "observed_value", AdminColumnType::Float8);
    push_column(&mut columns, "baseline_value", AdminColumnType::Float8);
    push_column(&mut columns, "regression_outcome", AdminColumnType::Text);
    push_column(&mut columns, "profile_status", AdminColumnType::Text);
    push_column(&mut columns, "process_status", AdminColumnType::Text);
    push_column(&mut columns, "process_cpu_seconds", AdminColumnType::Float8);
    push_column(&mut columns, "process_resident_memory_bytes", AdminColumnType::Float8);
    push_column(&mut columns, "cpu_per_query", AdminColumnType::Float8);
    push_column(&mut columns, "memory_per_client_bytes", AdminColumnType::Float8);
    push_column(&mut columns, "protocol_buffer_copies", AdminColumnType::Int8);
    push_column(&mut columns, "pool_checkout_lock_wait_ms", AdminColumnType::Float8);
    push_column(&mut columns, "prepared_cache_hits", AdminColumnType::Int8);
    push_column(&mut columns, "prepared_cache_misses", AdminColumnType::Int8);
    push_column(&mut columns, "observability_hot_path_allocations", AdminColumnType::Int8);
    push_column(&mut columns, "idle_clients", AdminColumnType::Int8);
    assert(column_facts(columns@) =~= performance_columns());
    columns
}

/// The last finding on a metric.
pub open spec fn last_regression(
    list: Seq<PerformanceRegression>,
    metric: crate::benchmark::PerformanceMetric,
) -> Option<PerformanceRegression>
    decreases list.len(),
{
    if list.len() == 0 {
        None
    } else if list.last().metric == metric {
        Some(list.last())
    } else {
        last_regression(list.drop_last(), metric)
    }
}

fn find_regression(
    list: &Vec<PerformanceRegression>,
    metric: crate::benchmark::PerformanceMetric,
) -> (r: Option<&PerformanceRegression>)
    ensures
        match r {
            Some(found) => last_regression(list@, metric) == Some(*found),
            None => last_regression(list@, metric) is None,
        },
{
    let mut i: usize = list.len();
    assert(list@.take(i as int) =~= list@);
    while i > 0
        invariant
            i <= list@.len(),
            last_regression(list@, metric) == last_regression(list@.take(i as int), metric),
        decreases i,
    {
        let at: usize = i - 1;
        assert(list@.take(i as int).drop_last() =~= list@.take(at as int));
        if list[at].metric == metric {
            return Some(&list[at]);
        }
        i = at;
    }
    None
}

/// A bound as it is shown.
pub open spec fn threshold_text(threshold: PerformanceThreshold) -> Seq<char> {
    threshold.kind@ + ":"@ + threshold.value@
}

fn performance_threshold_label(threshold: &PerformanceThreshold) -> (r: String)
    ensures
        r@ == threshold_text(*threshold),
{
    join3(threshold.kind.as_str(), ":", threshold.value.as_str())
}

/// What is allowed of a metric and what was found, as it is shown.
pub open spec fn budget_values(budget: Option<PerformanceBudget>, performance: PerformanceSnapshot)
    -> Seq<Seq<char>> {
    match budget {
        None => seq!["none"@, "none"@, "none"@, "0.000"@, "0.000"@, "unknown"@],
        Some(budget) => {
            let found = last_regression(performance.regressions@, budget.metric);
            seq![
                budget.metric.name(),
                threshold_text(budget.warning),
                threshold_text(budget.failure),
                match found {
                    Some(found) => found.observed_value@,
                    None => "0.000"@,
                },
                match found {
                    Some(found) => shown_metric(found.baseline_value),
                    None => "0.000"@,
                },
                match found {
                    Some(found) => found.outcome.name(),
                    None => "unknown"@,
                },
            ]
        },
    }
}

/// The row of what is allowed of a metric.
pub open spec fn performance_row(budget: Option<PerformanceBudget>, s: PerformanceSnapshot) -> Seq<
    Seq<char>,
> {
    budget_values(budget, s) + seq![
        s.profile_status@,
        s.process_status@,
        shown_measure(s.process_cpu_seconds),
        shown_measure(s.process_resident_memory_bytes),
        shown_measure(s.cpu_per_query),
        shown_measure(s.memory_per_client_bytes),
        decimal(s.protocol_buffer_copies as nat),
        shown_measure(s.pool_checkout_lock_wait_ms),
        decimal(s.prepared_cache_hits as nat),
        decimal(s.prepared_cache_misses as nat),
        decimal(s.observability_hot_path_allocations as nat),
        decimal(s.idle_clients as nat),
    ]
}

fn performance_row_of(budget: Option<&PerformanceBudget>, s: &PerformanceSnapshot) -> (r: AdminRow)
    ensures
        r@ == match budget {
            Some(budget) => performance_row(Some(*budget), *s),
            None => performance_row(None, *s),
        },
{
    let mut values: Vec<String> = Vec::new();
    assert(texts(values@) =~= Seq::empty());
    match budget {
        None => {
            push_value(&mut values, "none".to_owned());
            push_value(&mut values, "none".to_owned());
            push_value(&mut values, "none".to_owned());
            push_value(&mut values, "0.000".to_owned());
            push_value(&mut values, "0.000".to_owned());
            push_value(&mut values, "unknown".to_owned());
            assert(texts(values@) =~= budget_values(None, *s));
        },
        Some(budget) => {
            push_value(&mut values, budget.metric.as_str().to_owned());
            push_value(&mut values, performance_threshold_label(&budget.warning));
            push_value(&mut values, performance_threshold_label(&budget.failure));
            match find_regression(&s.regressions, budget.metric) {
                Some(found) => {
                    push_value(&mut values, found.observed_value.clone());
                    push_value(&mut values, optional_metric_value(&found.baseline_value));
                    push_value(&mut values, found.outcome.as_str().to_owned());
                },
                None => {
                    push_value(&mut values, "0.000".to_owned());
                    push_value(&mut values, "0.000".to_owned());
                    push_value(&mut values, "unknown".to_owned());
                },
            }
            assert(texts(values@) =~= budget_values(Some(*budget), *s));
        },
    }
    let ghost head = texts(values@);
    push_value(&mut values, s.profile_status.clone());
    push_value(&mut values, s.process_status.clone());
    push_value(&mut values, measured_text(&s.process_cpu_seconds));
    push_value(&mut values, measured_text(&s.process_resident_memory_bytes));
    push_value(&mut values, measured_text(&s.cpu_per_query));
    push_value(&mut values, measured_text(&s.memory_per_client_bytes));
    push_value(&mut values, u64_text(s.protocol_buffer_copies));
    push_value(&mut values, measured_text(&s.pool_checkout_lock_wait_ms));
    push_value(&mut values, u64_text(s.prepared_cache_hits));
    push_value(&mut values, u64_text(s.prepared_cache_misses));
    push_value(&mut values, u64_text(s.observability_hot_path_allocations));
    push_value(&mut values, usize_text(s.idle_clients));
    assert(texts(values@) =~= head + seq![
        s.profile_status@,
        s.process_status@,
        shown_measure(s.process_cpu_seconds),
        shown_measure(s.process_resident_memory_bytes),
        shown_measure(s.cpu_per_query),
        shown_measure(s.memory_per_client_bytes),
        decimal(s.protocol_buffer_copies as nat),
        shown_measure(s.pool_checkout_lock_wait_ms),
        decimal(s.prepared_cache_hits as nat),
        decimal(s.prepared_cache_misses as nat),
        decimal(s.observability_hot_path_allocations as nat),
        decimal(s.idle_clients as nat),
    ]);
    AdminRow { values }
}

/// The rows of performance: one of each metric that anything is allowed of, or one without.
pub open spec fn performance_rows(s: PerformanceSnapshot) -> Seq<Seq<Seq<char>>> {
    if s.budgets@.len() == 0 {
        seq![performance_row(None, s)]
    } else {
        Seq::new(s.budgets@.len(), |i: int| performance_row(Some(s.budgets@[i]), s))
    }
}

/// Performance: one row of each metric that anything is allowed of, or one without.
pub fn performance_table(performance: &PerformanceSnapshot) -> (r: AdminTable)
    ensures
        r@ == (TableFacts {
            view: AdminView::Performance,
            columns: performance_columns(),
            rows: performance_rows(*performance),
        }),
{
    let mut rows: Vec<AdminRow> = Vec::new();
    let ghost all = performance_rows(*performance);
    assert(row_facts(rows@) =~= Seq::empty());
    if performance.budgets.len() == 0 {
        push_row(&mut rows, performance_row_of(None, performance));
        assert(row_facts(rows@) =~= all);
    } else {
        let mut i: usize = 0;
        assert(row_facts(rows@) =~= all.take(0));
        while i < performance.budgets.len()
            invariant
                0 < performance.budgets@.len(),
                i <= performance.budgets@.len(),
                all == performance_rows(*performance),
                row_facts(rows@) == all.take(i as int),
            decreases performance.budgets@.len() - i,
        {
            push_row(&mut rows, performance_row_of(Some(&performance.budgets[i]), performance));
            assert(row_facts(rows@) =~= all.take(i + 1));
            i += 1;
        }
        assert(all.take(i as int) =~= all);
    }
    AdminTable { view: AdminView::Performance, columns: performance_header(), rows }
}

// ---------------------------------------------------------------------------
// Sessions
// ---------------------------------------------------------------------------

/// The columns of the table of prepared statements.
pub open spec fn prepared_columns() -> Seq<ColumnFacts> {
    seq![
        ColumnFacts { name: "session_id"@, column_type: AdminColumnType::Int8 },
        ColumnFacts { name: "client_statement_name"@, column_type: AdminColumnType::Text },
        ColumnFacts { name: "backend_statement_name"@, column_type: AdminColumnType::Text },
        ColumnFacts { name: "materialized_backend_count"@, column_type: AdminColumnType::Int8 },
        ColumnFacts { name: "invalidation_count"@, column_type: AdminColumnType::Int8 },
        ColumnFacts { name: "prepared_cache_hits"@, column_type: AdminColumnType::Int8 },
        ColumnFacts { name: "prepared_cache_misses"@, column_type: AdminColumnType::Int8 },
    ]
}

fn prepared_header() -> (r: Vec<AdminColumn>)
    ensures
        column_facts(r@) == prepared_columns(),
{
    let mut columns: Vec<AdminColumn> = Vec::new();
    assert(column_facts(columns@) =~= Seq::empty());
    push_column(&mut columns, "session_id", AdminColumnType::Int8);
    push_column(&mut columns, "client_statement_name", AdminColumnType::Text);
    push_column(&mut columns, "backend_statement_name", AdminColumnType::Text);
    push_column(&mut columns, "materialized_backend_count", AdminColumnType::Int8);
    push_column(&mut columns, "invalidation_count", AdminColumnType::Int8);
    push_column(&mut columns, "prepared_cache_hits", AdminColumnType::Int8);
    push_column(&mut columns, "prepared_cache_misses", AdminColumnType::Int8);
    assert(column_facts(columns@) =~= prepared_columns());
    columns
}

/// The row of a prepared statement.
pub open spec fn prepared_row(
    s: PreparedStatementSnapshot,
    performance: PerformanceSnapshot,
) -> Seq<Seq<char>> {
    seq![
        decimal(s.session_id as nat),
        s.client_statement_name@,
        s.backend_statement_name@,
        decimal(s.materialized_backend_count as nat),
        decimal(s.invalidation_count as nat),
        decimal(performance.prepared_cache_hits as nat),
        decimal(performance.prepared_cache_misses as nat),
    ]
}

fn prepared_row_of(s: &PreparedStatementSnapshot, performance: &PerformanceSnapshot) -> (r: AdminRow)
    ensures
        r@ == prepared_row(*s, *performance),
{
    let mut values: Vec<String> = Vec::new();
    assert(texts(values@) =~= Seq::empty());
    push_value(&mut values, u64_text(s.session_id));
    push_value(&mut values, s.client_statement_name.clone());
    push_value(&mut values, s.backend_statement_name.clone());
    push_value(&mut values, usize_text(s.materialized_backend_count));
    push_value(&mut values, u64_text(s.invalidation_count));
    push_value(&mut values, u64_text(performance.prepared_cache_hits));
    push_value(&mut values, u64_text(performance.prepared_cache_misses));
    assert(texts(values@) =~= prepared_row(*s, *performance));
    AdminRow { values }
}

/// The prepared statements.
pub open spec fn prepared_rows(
    statements: Seq<PreparedStatementSnapshot>,
    performance: PerformanceSnapshot,
) -> Seq<Seq<Seq<char>>> {
    Seq::new(statements.len(), |i: int| prepared_row(statements[i], performance))
}

/// The prepared statements.
pub fn prepared_table(statements: &Vec<PreparedStatementSnapshot>, performance: &PerformanceSnapshot) -> (r: AdminTable)
    ensures
        r@ == (TableFacts {
            view: AdminView::Prepared,
            columns: prepared_columns(),
            rows: prepared_rows(statements@, *performance),
        }),
{
    let mut rows: Vec<AdminRow> = Vec::new();
    let ghost all = prepared_rows(statements@, *performance);
    let mut i: usize = 0;
    assert(row_facts(rows@) =~= all.take(0));
    while i < statements.len()
        invariant
            i <= statements@.len(),
            all == prepared_rows(statements@, *performance),
            row_facts(rows@) == all.take(i as int),
        decreases statements@.len() - i,
    {
        push_row(&mut rows, prepared_row_of(&statements[i], performance));
        assert(row_facts(rows@) =~= all.take(i + 1));
        i += 1;
    }
    assert(all.take(i as int) =~= all);
    AdminTable { view: AdminView::Prepared, columns: prepared_header(), rows }
}

/// The columns of the table of kept servers.
pub open spec fn pinning_columns() -> Seq<ColumnFacts> {
    seq![
        ColumnFacts { name: "client_id"@, column_type: AdminColumnType::Int8 },
        ColumnFacts { name: "backend_id"@, column_type: AdminColumnType::Int8 },
        ColumnFacts { name: "route_key"@, column_type: AdminColumnType::Text },
        ColumnFacts { name: "reason"@, column_type: AdminColumnType::Text },
        ColumnFacts { name: "duration_ms"@, column_type: AdminColumnType::Int8 },
    ]
}

fn pinning_header() -> (r: Vec<AdminColumn>)
    ensures
        column_facts(r@) == pinning_columns(),
{
    let mut columns: Vec<AdminColumn> = Vec::new();
    assert(column_facts(columns@) =~= Seq::empty());
    push_column(&mut columns, "client_id", AdminColumnType::Int8);
    push_column(&mut columns, "backend_id", AdminColumnType::Int8);
    push_column(&mut columns, "route_key", AdminColumnType::Text);
    push_column(&mut columns, "reason", AdminColumnType::Text);
    push_column(&mut columns, "duration_ms", AdminColumnType::Int8);
    assert(column_facts(columns@) =~= pinning_columns());
    columns
}

/// A server's number that may be absent.
pub open spec fn opt_id(value: Option<u64>) -> Option<nat> {
    match value {
        Some(number) => Some(number as nat),
        None => None,
    }
}

/// The row of a client that keeps its server.
pub open spec fn pinning_row(s: PinningSnapshot) -> Seq<Seq<char>> {
    seq![
        decimal(s.client_id as nat),
        shown_number(opt_id(s.backend_id)),
        shown_route(s.route_key),
        s.reason.name(),
        shown_millis(s.duration),
    ]
}

fn pinning_row_of(s: &PinningSnapshot) -> (r: AdminRow)
    ensures
        r@ == pinning_row(*s),
{
    let mut values: Vec<String> = Vec::new();
    assert(texts(values@) =~= Seq::empty());
    push_value(&mut values, u64_text(s.client_id));
    push_value(&mut values, optional_u64(s.backend_id));
    push_value(&mut values, optional_route_key(&s.route_key));
    push_value(&mut values, s.reason.as_str().to_owned());
    push_value(&mut values, duration_millis(&s.duration));
    assert(texts(values@) =~= pinning_row(*s));
    AdminRow { values }
}

/// The clients that keep their servers.
pub open spec fn pinning_rows(pinnings: Seq<PinningSnapshot>) -> Seq<Seq<Seq<char>>> {
    Seq::new(pinnings.len(), |i: int| pinning_row(pinnings[i]))
}

/// The clients that keep their servers.
pub fn pinning_table(pinnings: &Vec<PinningSnapshot>) -> (r: AdminTable)
    ensures
        r@ == (TableFacts {
            view: AdminView::Pinning,
            columns: pinning_columns(),
            rows: pinning_rows(pinnings@),
        }),
{
    let mut rows: Vec<AdminRow> = Vec::new();
    let ghost all = pinning_rows(pinnings@);
    let mut i: usize = 0;
    assert(row_facts(rows@) =~= all.take(0));
    while i < pinnings.len()
        invariant
            i <= pinnings@.len(),
            all == pinning_rows(pinnings@),
            row_facts(rows@) == all.take(i as int),
        decreases pinnings@.len() - i,
    {
        push_row(&mut rows, pinning_row_of(&pinnings[i]));
        assert(row_facts(rows@) =~= all.take(i + 1));
        i += 1;
    }
    assert(all.take(i as int) =~= all);
    AdminTable { view: AdminView::Pinning, columns: pinning_header(), rows }
}

/// The columns of the table of repairs.
pub open spec fn recovery_columns() -> Seq<ColumnFacts> {
    seq![
        ColumnFacts { name: "trigger"@, column_type: AdminColumnType::Text },
        ColumnFacts { name: "action"@, column_type: AdminColumnType::Text },
        ColumnFacts { name: "outcome"@, column_type: AdminColumnType::Text },
        ColumnFacts { name: "count"@, column_type: AdminColumnType::Int8 },
        ColumnFacts { name: "last_error"@, column_type: AdminColumnType::Text },
    ]
}

fn recovery_header() -> (r: Vec<AdminColumn>)
    ensures
        column_facts(r@) == recovery_columns(),
{
    let mut columns: Vec<AdminColumn> = Vec::new();
    assert(column_facts(columns@) =~= Seq::empty());
    push_column(&mut columns, "trigger", AdminColumnType::Text);
    push_column(&mut columns, "action", AdminColumnType::Text);
    push_column(&mut columns, "outcome", AdminColumnType::Text);
    push_column(&mut columns, "count", AdminColumnType::Int8);
    push_column(&mut columns, "last_error", AdminColumnType::Text);
    assert(column_facts(columns@) =~= recovery_columns());
    columns
}

/// The row of one way of repair.
pub open spec fn recovery_row(s: RecoverySnapshot) -> Seq<Seq<char>> {
    seq![
        s.trigger.name(),
        s.action.name(),
        s.outcome@,
        decimal(s.count as nat),
        shown_text(s.last_error),
    ]
}

fn recovery_row_of(s: &RecoverySnapshot) -> (r: AdminRow)
    ensures
        r@ == recovery_row(*s),
{
    let mut values: Vec<String> = Vec::new();
    assert(texts(values@) =~= Seq::empty());
    push_value(&mut values, s.trigger.as_str().to_owned());
    push_value(&mut values, s.action.as_str().to_owned());
    push_value(&mut values, s.outcome.clone());
    push_value(&mut values, u64_text(s.count));
    push_value(&mut values, optional_text(&s.last_error));
    assert(texts(values@) =~= recovery_row(*s));
    AdminRow { values }
}

/// How servers' sessions were put in order.
pub open spec fn recovery_rows(recoveries: Seq<RecoverySnapshot>) -> Seq<Seq<Seq<char>>> {
    Seq::new(recoveries.len(), |i: int| recovery_row(recoveries[i]))
}

/// How servers' sessions were put in order.
pub fn recovery_table(recoveries: &Vec<RecoverySnapshot>) -> (r: AdminTable)
    ensures
        r@ == (TableFacts {
            view: AdminView::Recovery,
            columns: recovery_columns(),
            rows: recovery_rows(recoveries@),
        }),
{
    let mut rows: Vec<AdminRow> = Vec::new();
    let ghost all = recovery_rows(recoveries@);
    let mut i: usize = 0;
    assert(row_facts(rows@) =~= all.take(0));
    while i < recoveries.len()
        invariant
            i <= recoveries@.len(),
            all == recovery_rows(recoveries@),
            row_facts(rows@) == all.take(i as int),
        decreases recoveries@.len() - i,
    {
        push_row(&mut rows, recovery_row_of(&recoveries[i]));
        assert(row_facts(rows@) =~= all.take(i + 1));
        i += 1;
    }
    assert(all.take(i as int) =~= all);
    AdminTable { view: AdminView::Recovery, columns: recovery_header(), rows }
}

/// The columns of the table of queues.
pub open spec fn backpressure_columns() -> Seq<ColumnFacts> {
    seq![
        ColumnFacts { name: "route_key"@, column_type: AdminColumnType::Text },
        ColumnFacts { name: "waiting"@, column_type: AdminColumnType::Int8 },
        ColumnFacts { name: "in_flight"@, column_type: AdminColumnType::Int8 },
        ColumnFacts { name: "rejected"@, column_type: AdminColumnType::Int8 },
        ColumnFacts { name: "timed_out"@, column_type: AdminColumnType::Int8 },
        ColumnFacts { name: "canceled"@, column_type: AdminColumnType::Int8 },
    ]
}

fn backpressure_header() -> (r: Vec<AdminColumn>)
    ensures
        column_facts(r@) == backpressure_columns(),
{
    let mut columns: Vec<AdminColumn> = Vec::new();
    assert(column_facts(columns@) =~= Seq::empty());
    push_column(&mut columns, "route_key", AdminColumnType::Text);
    push_column(&mut columns, "waiting", AdminColumnType::Int8);
    push_column(&mut columns, "in_flight", AdminColumnType::Int8);
    push_column(&mut columns, "rejected", AdminColumnType::Int8);
    push_column(&mut columns, "timed_out", AdminColumnType::Int8);
    push_column(&mut columns, "canceled", AdminColumnType::Int8);
    assert(column_facts(columns@) =~= backpressure_columns());
    columns
}

/// The row of a queue.
pub open spec fn backpressure_row(s: BackpressureSnapshot) -> Seq<Seq<char>> {
    seq![
        s.route_key@.label,
        decimal(s.waiting as nat),
        decimal(s.in_flight as nat),
        decimal(s.rejected as nat),
        decimal(s.timed_out as nat),
        decimal(s.canceled as nat),
    ]
}

fn backpressure_row_of(s: &BackpressureSnapshot) -> (r: AdminRow)
    ensures
        r@ == backpressure_row(*s),
{
    let mut values: Vec<String> = Vec::new();
    assert(texts(values@) =~= Seq::empty());
    push_value(&mut values, s.route_key.label.clone());
    push_value(&mut values, usize_text(s.waiting));
    push_value(&mut values, usize_text(s.in_flight));
    push_value(&mut values, u64_text(s.rejected));
    push_value(&mut values, u64_text(s.timed_out));
    push_value(&mut values, u64_text(s.canceled));
    assert(texts(values@) =~= backpressure_row(*s));
    AdminRow { values }
}

/// The queues.
pub open spec fn backpressure_rows(queues: Seq<BackpressureSnapshot>) -> Seq<Seq<Seq<char>>> {
    Seq::new(queues.len(), |i: int| backpressure_row(queues[i]))
}

/// The queues.
pub fn backpressure_table(queues: &Vec<BackpressureSnapshot>) -> (r: AdminTable)
    ensures
        r@ == (TableFacts {
            view: AdminView::Backpressure,
            columns: backpressure_columns(),
            rows: backpressure_rows(queues@),
        }),
{
    let mut rows: Vec<AdminRow> = Vec::new();
    let ghost all = backpressure_rows(queues@);
    let mut i: usize = 0;
    assert(row_facts(rows@) =~= all.take(0));
    while i < queues.len()
        invariant
            i <= queues@.len(),
            all == backpressure_rows(queues@),
            row_facts(rows@) == all.take(i as int),
        decreases queues@.len() - i,
    {
        push_row(&mut rows, backpressure_row_of(&queues[i]));
        assert(row_facts(rows@) =~= all.take(i + 1));
        i += 1;
    }
    assert(all.take(i as int) =~= all);
    AdminTable { view: AdminView::Backpressure, columns: backpressure_header(), rows }
}

// ---------------------------------------------------------------------------
// Policies
// ---------------------------------------------------------------------------

/// The columns of the table of policies.
pub open spec fn policies_columns() -> Seq<ColumnFacts> {
    seq![
        ColumnFacts { name: "policy_id"@, column_type: AdminColumnType::Text },
        ColumnFacts { name: "policy_version"@, column_type: AdminColumnType::Int8 },
        ColumnFacts { name: "policy_mode"@, column_type: AdminColumnType::Text },
        ColumnFacts { name: "source"@, column_type: AdminColumnType::Text },
        ColumnFacts { name: "enabled"@, column_type: AdminColumnType::Bool },
        ColumnFacts { name: "last_reload_outcome"@, column_type: AdminColumnType::Text },
        ColumnFacts { name: "error_code"@, column_type: AdminColumnType::Text },
    ]
}

fn policies_header() -> (r: Vec<AdminColumn>)
    ensures
        column_facts(r@) == policies_columns(),
{
    let mut columns: Vec<AdminColumn> = Vec::new();
    assert(column_facts(columns@) =~= Seq::empty());
    push_column(&mut columns, "policy_id", AdminColumnType::Text);
    push_column(&mut columns, "policy_version", AdminColumnType::Int8);
    push_column(&mut columns, "policy_mode", AdminColumnType::Text);
    push_column(&mut columns, "source", AdminColumnType::Text);
    push_column(&mut columns, "enabled", AdminColumnType::Bool);
    push_column(&mut columns, "last_reload_outcome", AdminColumnType::Text);
    push_column(&mut columns, "error_code", AdminColumnType::Text);
    assert(column_facts(columns@) =~= policies_columns());
    columns
}

/// What came of the last new policies, as it is shown.
pub open spec fn reload_text(reload: Option<PolicyReloadSnapshot>) -> Seq<char> {
    match reload {
        Some(reload) => if reload.success {
            "success"@
        } else {
            "failure"@
        },
        None => "<none>"@,
    }
}

fn policy_reload_outcome_label(reload: Option<PolicyReloadSnapshot>) -> (r: String)
    ensures
        r@ == reload_text(reload),
{
    match reload {
        Some(reload) => if reload.success {
            "success".to_owned()
        } else {
            "failure".to_owned()
        },
        None => "<none>".to_owned(),
    }
}

/// Why the last new policies were refused, as it is shown.
pub open spec fn reload_code_text(reload: Option<PolicyReloadSnapshot>) -> Seq<char> {
    match reload {
        Some(reload) => match reload.error_code {
            Some(code) => code.name(),
            None => "<none>"@,
        },
        None => "<none>"@,
    }
}

fn reload_code_label(reload: Option<PolicyReloadSnapshot>) -> (r: String)
    ensures
        r@ == reload_code_text(reload),
{
    match reload {
        Some(reload) => match reload.error_code {
            Some(code) => code.as_str().to_owned(),
            None => "<none>".to_owned(),
        },
        None => "<none>".to_owned(),
    }
}

/// The last of some reloads.
pub open spec fn last_reload(reloads: Seq<PolicyReloadSnapshot>) -> Option<PolicyReloadSnapshot> {
    if reloads.len() == 0 {
        None
    } else {
        Some(reloads.last())
    }
}

/// The row of the policies in force.
pub open spec fn policy_row(
    s: PolicyStatusSnapshot,
    reload: Option<PolicyReloadSnapshot>,
) -> Seq<Seq<char>> {
    seq![
        s.policy_id@,
        decimal(s.policy_version as nat),
        s.policy_mode.name(),
        s.source@,
        bool_text(s.enabled),
        reload_text(reload),
        reload_code_text(reload),
    ]
}

fn policy_row_of(s: &PolicyStatusSnapshot, reload: Option<PolicyReloadSnapshot>) -> (r: AdminRow)
    ensures
        r@ == policy_row(*s, reload),
{
    let mut values: Vec<String> = Vec::new();
    assert(texts(values@) =~= Seq::empty());
    push_value(&mut values, s.policy_id.clone());
    push_value(&mut values, u64_text(s.policy_version));
    push_value(&mut values, s.policy_mode.as_str().to_owned());
    push_value(&mut values, s.source.clone());
    push_value(&mut values, bool_string(s.enabled));
    push_value(&mut values, policy_reload_outcome_label(reload));
    push_value(&mut values, reload_code_label(reload));
    assert(texts(values@) =~= policy_row(*s, reload));
    AdminRow { values }
}

/// The row of the policies in force, where there are any.
pub open spec fn policies_rows(
    status: Option<PolicyStatusSnapshot>,
    reloads: Seq<PolicyReloadSnapshot>,
) -> Seq<Seq<Seq<char>>> {
    match status {
        Some(status) => seq![policy_row(status, last_reload(reloads))],
        None => Seq::empty(),
    }
}

/// The policies in force, and what came of the last new ones.
pub fn policies_table(status: &Option<PolicyStatusSnapshot>, reloads: &Vec<PolicyReloadSnapshot>)
    -> (r: AdminTable)
    ensures
        r@ == (TableFacts {
            view: AdminView::Policies,
            columns: policies_columns(),
            rows: policies_rows(*status, reloads@),
        }),
{
    let mut rows: Vec<AdminRow> = Vec::new();
    assert(row_facts(rows@) =~= Seq::empty());
    match status {
        Some(status) => {
            let reload = if reloads.len() == 0 {
                None
            } else {
                Some(reloads[reloads.len() - 1])
            };
            push_row(&mut rows, policy_row_of(status, reload));
        },
        None => {},
    }
    assert(row_facts(rows@) =~= policies_rows(*status, reloads@));
    AdminTable { view: AdminView::Policies, columns: policies_header(), rows }
}

/// The columns of the table of policy decisions.
pub open spec fn policy_decisions_columns() -> Seq<ColumnFacts> {
    seq![
        ColumnFacts { name: "policy_id"@, column_type: AdminColumnType::Text },
        ColumnFacts { name: "policy_version"@, column_type: AdminColumnType::Int8 },
        ColumnFacts { name: "hook_point"@, column_type: AdminColumnType::Text },
        ColumnFacts { name: "action"@, column_type: AdminColumnType::Text },
        ColumnFacts { name: "outcome"@, column_type: AdminColumnType::Text },
        ColumnFacts { name: "reason"@, column_type: AdminColumnType::Text },
        ColumnFacts { name: "route"@, column_type: AdminColumnType::Text },
        ColumnFacts { name: "shard"@, column_type: AdminColumnType::Text },
        ColumnFacts { name: "target_role"@, column_type: AdminColumnType::Text },
        ColumnFacts { name: "context"@, column_type: AdminColumnType::Text },
    ]
}

fn policy_decisions_header() -> (r: Vec<AdminColumn>)
    ensures
        column_facts(r@) == policy_decisions_columns(),
{
    let mut columns: Vec<AdminColumn> = Vec::new();
    assert(column_facts(columns@) =~= Seq::empty());
    push_column(&mut columns, "policy_id", AdminColumnType::Text);
    push_column(&mut columns, "policy_version", AdminColumnType::Int8);
    push_column(&mut columns, "hook_point", AdminColumnType::Text);
    push_column(&mut columns, "action", AdminColumnType::Text);
    push_column(&mut columns, "outcome", AdminColumnType::Text);
    push_column(&mut columns, "reason", AdminColumnType::Text);
    push_column(&mut columns, "route", AdminColumnType::Text);
    push_column(&mut columns, "shard", AdminColumnType::Text);
    push_column(&mut columns, "target_role", AdminColumnType::Text);
    push_column(&mut columns, "context", AdminColumnType::Text);
    assert(column_facts(columns@) =~= policy_decisions_columns());
    columns
}

/// The columns of the table of recorded decisions.
pub open spec fn policy_audit_columns() -> Seq<ColumnFacts> {
    seq![
        ColumnFacts { name: "kind"@, column_type: AdminColumnType::Text },
        ColumnFacts { name: "policy_id"@, column_type: AdminColumnType::Text },
        ColumnFacts { name: "policy_version"@, column_type: AdminColumnType::Int8 },
        ColumnFacts { name: "hook_point"@, column_type: AdminColumnType::Text },
        ColumnFacts { name: "action"@, column_type: AdminColumnType::Text },
        ColumnFacts { name: "outcome"@, column_type: AdminColumnType::Text },
        ColumnFacts { name: "reason"@, column_type: AdminColumnType::Text },
        ColumnFacts { name: "route"@, column_type: AdminColumnType::Text },
        ColumnFacts { name: "shard"@, column_type: AdminColumnType::Text },
        ColumnFacts { name: "target_role"@, column_type: AdminColumnType::Text },
        ColumnFacts { name: "context"@, column_type: AdminColumnType::Text },
    ]
}

fn policy_audit_header() -> (r: Vec<AdminColumn>)
    ensures
        column_facts(r@) == policy_audit_columns(),
{
    let mut columns: Vec<AdminColumn> = Vec::new();
    assert(column_facts(columns@) =~= Seq::empty());
    push_column(&mut columns, "kind", AdminColumnType::Text);
    push_column(&mut columns, "policy_id", AdminColumnType::Text);
    push_column(&mut columns, "policy_version", AdminColumnType::Int8);
    push_column(&mut columns, "hook_point", AdminColumnType::Text);
    push_column(&mut columns, "action", AdminColumnType::Text);
    push_column(&mut columns, "outcome", AdminColumnType::Text);
    push_column(&mut columns, "reason", AdminColumnType::Text);
    push_column(&mut columns, "route", AdminColumnType::Text);
    push_column(&mut columns, "shard", AdminColumnType::Text);
    push_column(&mut columns, "target_role", AdminColumnType::Text);
    push_column(&mut columns, "context", AdminColumnType::Text);
    assert(column_facts(columns@) =~= policy_audit_columns());
    columns
}

/// The row of a decision.
pub open spec fn decision_row(s: PolicyAuditEvent) -> Seq<Seq<char>> {
    seq![
        s.policy_id@,
        decimal(s.policy_version as nat),
        s.hook_point.name(),
        s.action@.name(),
        s.outcome@,
        shown_text(s.reason),
        shown_text(s.route),
        shown_text(s.shard),
        shown_text(s.target_role),
        rendered_context(s.context@),
    ]
}

fn decision_row_of(s: &PolicyAuditEvent) -> (r: AdminRow)
    ensures
        r@ == decision_row(*s),
{
    let mut values: Vec<String> = Vec::new();
    assert(texts(values@) =~= Seq::empty());
    push_value(&mut values, s.policy_id.clone());
    push_value(&mut values, u64_text(s.policy_version));
    push_value(&mut values, s.hook_point.as_str().to_owned());
    push_value(&mut values, s.action.as_str().to_owned());
    push_value(&mut values, s.outcome.clone());
    push_value(&mut values, optional_text(&s.reason));
    push_value(&mut values, optional_text(&s.route));
    push_value(&mut values, optional_text(&s.shard));
    push_value(&mut values, optional_text(&s.target_role));
    push_value(&mut values, s.context.render());
    assert(texts(values@) =~= decision_row(*s));
    AdminRow { values }
}

/// The row of a recorded decision: what kind of record it is, and the decision.
pub open spec fn audit_row(s: PolicyAuditEvent) -> Seq<Seq<char>> {
    seq![
        s.kind@,
        s.policy_id@,
        decimal(s.policy_version as nat),
        s.hook_point.name(),
        s.action@.name(),
        s.outcome@,
        shown_text(s.reason),
        shown_text(s.route),
        shown_text(s.shard),
        shown_text(s.target_role),
        rendered_context(s.context@),
    ]
}

fn audit_row_of(s: &PolicyAuditEvent) -> (r: AdminRow)
    ensures
        r@ == audit_row(*s),
{
    let mut values: Vec<String> = Vec::new();
    assert(texts(values@) =~= Seq::empty());
    push_value(&mut values, s.kind.clone());
    push_value(&mut values, s.policy_id.clone());
    push_value(&mut values, u64_text(s.policy_version));
    push_value(&mut values, s.hook_point.as_str().to_owned());
    push_value(&mut values, s.action.as_str().to_owned());
    push_value(&mut values, s.outcome.clone());
    push_value(&mut values, optional_text(&s.reason));
    push_value(&mut values, optional_text(&s.route));
    push_value(&mut values, optional_text(&s.shard));
    push_value(&mut values, optional_text(&s.target_role));
    push_value(&mut values, s.context.render());
    assert(texts(values@) =~= audit_row(*s));
    AdminRow { values }
}

/// A recorded decision shows what a decision shows, behind what kind of record it is.
pub proof fn law_audit_row_extends_decision_row(event: PolicyAuditEvent)
    ensures
        audit_row(event) == seq![event.kind@] + decision_row(event),
{
    assert(audit_row(event) =~= seq![event.kind@] + decision_row(event));
}

/// The decisions of policies.
pub open spec fn policy_decisions_rows(events: Seq<PolicyAuditEvent>) -> Seq<Seq<Seq<char>>> {
    Seq::new(events.len(), |i: int| decision_row(events[i]))
}

/// The decisions of policies.
pub fn policy_decisions_table(events: &Vec<PolicyAuditEvent>) -> (r: AdminTable)
    ensures
        r@ == (TableFacts {
            view: AdminView::PolicyDecisions,
            columns: policy_decisions_columns(),
            rows: policy_decisions_rows(events@),
        }),
{
    let mut rows: Vec<AdminRow> = Vec::new();
    let ghost all = policy_decisions_rows(events@);
    let mut i: usize = 0;
    assert(row_facts(rows@) =~= all.take(0));
    while i < events.len()
        invariant
            i <= events@.len(),
            all == policy_decisions_rows(events@),
            row_facts(rows@) == all.take(i as int),
        decreases events@.len() - i,
    {
        push_row(&mut rows, decision_row_of(&events[i]));
        assert(row_facts(rows@) =~= all.take(i + 1));
        i += 1;
    }
    assert(all.take(i as int) =~= all);
    AdminTable { view: AdminView::PolicyDecisions, columns: policy_decisions_header(), rows }
}

/// The recorded decisions of policies.
pub open spec fn policy_audit_rows(events: Seq<PolicyAuditEvent>) -> Seq<Seq<Seq<char>>> {
    Seq::new(events.len(), |i: int| audit_row(events[i]))
}

/// The recorded decisions of policies.
pub fn policy_audit_table(events: &Vec<PolicyAuditEvent>) -> (r: AdminTable)
    ensures
        r@ == (TableFacts {
            view: AdminView::PolicyAudit,
            columns: policy_audit_columns(),
            rows: policy_audit_rows(events@),
        }),
{
    let mut rows: Vec<AdminRow> = Vec::new();
    let ghost all = policy_audit_rows(events@);
    let mut i: usize = 0;
    assert(row_facts(rows@) =~= all.take(0));
    while i < events.len()
        invariant
            i <= events@.len(),
            all == policy_audit_rows(events@),
            row_facts(rows@) == all.take(i as int),
        decreases events@.len() - i,
    {
        push_row(&mut rows, audit_row_of(&events[i]));
        assert(row_facts(rows@) =~= all.take(i + 1));
        i += 1;
    }
    assert(all.take(i as int) =~= all);
    AdminTable { view: AdminView::PolicyAudit, columns: policy_audit_header(), rows }
}

// ---------------------------------------------------------------------------
// Routes and shards
// ---------------------------------------------------------------------------

/// The columns of the table of routes.
pub open spec fn routes_columns() -> Seq<ColumnFacts> {
    seq![
        ColumnFacts { name: "database"@, column_type: AdminColumnType::Text },
        ColumnFacts { name: "user"@, column_type: AdminColumnType::Text },
        ColumnFacts { name: "application_name"@, column_type: AdminColumnType::Text },
        ColumnFacts { name: "query_class"@, column_type: AdminColumnType::Text },
        ColumnFacts { name: "client_count"@, column_type: AdminColumnType::Int8 },
        ColumnFacts { name: "backend_count"@, column_type: AdminColumnType::Int8 },
        ColumnFacts { name: "primary_count"@, column_type: AdminColumnType::Int8 },
        ColumnFacts { name: "replica_count"@, column_type: AdminColumnType::Int8 },
        ColumnFacts { name: "read_routing_mode"@, column_type: AdminColumnType::Text },
        ColumnFacts { name: "fallback_policy"@, column_type: AdminColumnType::Text },
        ColumnFacts { name: "freshness_policy"@, column_type: AdminColumnType::Text },
        ColumnFacts { name: "read_after_write_timeout_ms"@, column_type: AdminColumnType::Int8 },
        ColumnFacts { name: "route_map_generation_id"@, column_type: AdminColumnType::Int8 },
        ColumnFacts { name: "sharding_enabled"@, column_type: AdminColumnType::Bool },
    ]
}

fn routes_header() -> (r: Vec<AdminColumn>)
    ensures
        column_facts(r@) == routes_columns(),
{
    let mut columns: Vec<AdminColumn> = Vec::new();
    assert(column_facts(columns@) =~= Seq::empty());
    push_column(&mut columns, "database", AdminColumnType::Text);
    push_column(&mut columns, "user", AdminColumnType::Text);
    push_column(&mut columns, "application_name", AdminColumnType::Text);
    push_column(&mut columns, "query_class", AdminColumnType::Text);
    push_column(&mut columns, "client_count", AdminColumnType::Int8);
    push_column(&mut columns, "backend_count", AdminColumnType::Int8);
    push_column(&mut columns, "primary_count", AdminColumnType::Int8);
    push_column(&mut columns, "replica_count", AdminColumnType::Int8);
    push_column(&mut columns, "read_routing_mode", AdminColumnType::Text);
    push_column(&mut columns, "fallback_policy", AdminColumnType::Text);
    push_column(&mut columns, "freshness_policy", AdminColumnType::Text);
    push_column(&mut columns, "read_after_write_timeout_ms", AdminColumnType::Int8);
    push_column(&mut columns, "route_map_generation_id", AdminColumnType::Int8);
    push_column(&mut columns, "sharding_enabled", AdminColumnType::Bool);
    assert(column_facts(columns@) =~= routes_columns());
    columns
}

/// The generation of the last route maps.
pub open spec fn latest_generation(reloads: Seq<RouteMapReloadSnapshot>) -> u64 {
    if reloads.len() == 0 {
        0
    } else {
        reloads.last().route_map_generation_id
    }
}

/// The generation of the last route maps.
pub fn latest_route_map_generation(reloads: &Vec<RouteMapReloadSnapshot>) -> (r: u64)
    ensures
        r == latest_generation(reloads@),
{
    if reloads.len() == 0 {
        0
    } else {
        reloads[reloads.len() - 1].route_map_generation_id
    }
}

/// How the requests of a route are sent, as it is shown.
pub struct RoutePolicyFacts {
    pub primary_count: usize,
    pub replica_count: usize,
    pub read_routing_mode: ReadRoutingMode,
    pub fallback_policy: FallbackPolicy,
    pub freshness_policy: FreshnessPolicy,
    pub timeout_ms: u64,
}

/// How the requests of a route are sent that nothing is told of.
pub open spec fn plain_policy() -> RoutePolicyFacts {
    RoutePolicyFacts {
        primary_count: 0,
        replica_count: 0,
        read_routing_mode: ReadRoutingMode::Off,
        fallback_policy: FallbackPolicy::Primary,
        freshness_policy: FreshnessPolicy::SessionWriteLsn,
        timeout_ms: 0,
    }
}

/// What is last told of how the requests of a route are sent.
pub open spec fn last_policy(
    policies: Seq<RoutePolicySnapshot>,
    route: RouteFacts,
) -> RoutePolicyFacts
    decreases policies.len(),
{
    if policies.len() == 0 {
        plain_policy()
    } else if policies.last().route_key@ == route {
        let policy = policies.last();
        RoutePolicyFacts {
            primary_count: policy.primary_count,
            replica_count: policy.replica_count,
            read_routing_mode: policy.read_routing_mode,
            fallback_policy: policy.fallback_policy,
            freshness_policy: policy.freshness_policy,
            timeout_ms: policy.read_after_write_timeout_ms,
        }
    } else {
        last_policy(policies.drop_last(), route)
    }
}

fn find_policy<'a>(policies: &'a Vec<RoutePolicySnapshot>, route: &RouteKey) -> (r: Option<
    &'a RoutePolicySnapshot,
>)
    ensures
        match r {
            Some(policy) => last_policy(policies@, route@) == (RoutePolicyFacts {
                primary_count: policy.primary_count,
                replica_count: policy.replica_count,
                read_routing_mode: policy.read_routing_mode,
                fallback_policy: policy.fallback_policy,
                freshness_policy: policy.freshness_policy,
                timeout_ms: policy.read_after_write_timeout_ms,
            }),
            None => last_policy(policies@, route@) == plain_policy(),
        },
{
    let mut i: usize = policies.len();
    assert(policies@.take(i as int) =~= policies@);
    while i > 0
        invariant
            i <= policies@.len(),
            last_policy(policies@, route@) == last_policy(policies@.take(i as int), route@),
        decreases i,
    {
        let at: usize = i - 1;
        assert(policies@.take(i as int).drop_last() =~= policies@.take(at as int));
        if policies[at].route_key.same_as(route) {
            return Some(&policies[at]);
        }
        i = at;
    }
    None
}

/// A route's row.
pub open spec fn route_row(
    s: RouteSnapshot,
    policy: RoutePolicyFacts,
    generation: u64,
    sharding: bool,
)
    -> Seq<Seq<char>> {
    seq![
        s.route_key.database@,
        s.route_key.user@,
        shown_text(s.route_key.application_name),
        s.route_key.query_class.name(),
        decimal(s.client_count as nat),
        decimal(s.backend_count as nat),
        decimal(policy.primary_count as nat),
        decimal(policy.replica_count as nat),
        policy.read_routing_mode.name(),
        policy.fallback_policy.name(),
        policy.freshness_policy.name(),
        decimal(policy.timeout_ms as nat),
        decimal(generation as nat),
        bool_text(sharding),
    ]
}

fn route_row_of(
    s: &RouteSnapshot,
    policies: &Vec<RoutePolicySnapshot>,
    generation: u64,
    sharding: bool,
) -> (r: AdminRow)
    ensures
        r@ == route_row(*s, last_policy(policies@, s.route_key@), generation, sharding),
{
    let mut values: Vec<String> = Vec::new();
    assert(texts(values@) =~= Seq::empty());
    push_value(&mut values, s.route_key.database.clone());
    push_value(&mut values, s.route_key.user.clone());
    push_value(&mut values, optional_text(&s.route_key.application_name));
    push_value(&mut values, s.route_key.query_class.as_str().to_owned());
    push_value(&mut values, usize_text(s.client_count));
    push_value(&mut values, usize_text(s.backend_count));
    match find_policy(policies, &s.route_key) {
        Some(policy) => {
            push_value(&mut values, usize_text(policy.primary_count));
            push_value(&mut values, usize_text(policy.replica_count));
            push_value(&mut values, policy.read_routing_mode.as_str().to_owned());
            push_value(&mut values, policy.fallback_policy.as_str().to_owned());
            push_value(&mut values, policy.freshness_policy.as_str().to_owned());
            push_value(&mut values, u64_text(policy.read_after_write_timeout_ms));
        },
        None => {
            push_value(&mut values, usize_text(0));
            push_value(&mut values, usize_text(0));
            push_value(&mut values, ReadRoutingMode::Off.as_str().to_owned());
            push_value(&mut values, FallbackPolicy::Primary.as_str().to_owned());
            push_value(&mut values, FreshnessPolicy::SessionWriteLsn.as_str().to_owned());
            push_value(&mut values, u64_text(0));
        },
    }
    push_value(&mut values, u64_text(generation));
    push_value(&mut values, bool_string(sharding));
    assert(texts(values@) =~= route_row(
        *s,
        last_policy(policies@, s.route_key@),
        generation,
        sharding,
    ));
    AdminRow { values }
}

/// The routes, each with how its requests are sent.
pub open spec fn routes_rows(
    routes: Seq<RouteSnapshot>,
    policies: Seq<RoutePolicySnapshot>,
    generation: u64,
    sharding: bool,
) -> Seq<Seq<Seq<char>>> {
    Seq::new(routes.len(), |i: int| route_row(
            routes[i],
            last_policy(policies, routes[i].route_key@),
            generation,
            sharding,
        ))
}

/// The routes, each with how its requests are sent.
pub fn routes_table(routes: &Vec<RouteSnapshot>, policies: &Vec<RoutePolicySnapshot>, generation: u64, sharding: bool) -> (r: AdminTable)
    ensures
        r@ == (TableFacts {
            view: AdminView::Routes,
            columns: routes_columns(),
            rows: routes_rows(routes@, policies@, generation, sharding),
        }),
{
    let mut rows: Vec<AdminRow> = Vec::new();
    let ghost all = routes_rows(routes@, policies@, generation, sharding);
    let mut i: usize = 0;
    assert(row_facts(rows@) =~= all.take(0));
    while i < routes.len()
        invariant
            i <= routes@.len(),
            all == routes_rows(routes@, policies@, generation, sharding),
            row_facts(rows@) == all.take(i as int),
        decreases routes@.len() - i,
    {
        push_row(&mut rows, route_row_of(&routes[i], policies, generation, sharding));
        assert(row_facts(rows@) =~= all.take(i + 1));
        i += 1;
    }
    assert(all.take(i as int) =~= all);
    AdminTable { view: AdminView::Routes, columns: routes_header(), rows }
}

/// The columns of the table of route maps.
pub open spec fn route_maps_columns() -> Seq<ColumnFacts> {
    seq![
        ColumnFacts { name: "scope"@, column_type: AdminColumnType::Text },
        ColumnFacts { name: "strategy"@, column_type: AdminColumnType::Text },
        ColumnFacts { name: "priority"@, column_type: AdminColumnType::Text },
        ColumnFacts { name: "multi_shard_policy"@, column_type: AdminColumnType::Text },
    ]
}

fn route_maps_header() -> (r: Vec<AdminColumn>)
    ensures
        column_facts(r@) == route_maps_columns(),
{
    let mut columns: Vec<AdminColumn> = Vec::new();
    assert(column_facts(columns@) =~= Seq::empty());
    push_column(&mut columns, "scope", AdminColumnType::Text);
    push_column(&mut columns, "strategy", AdminColumnType::Text);
    push_column(&mut columns, "priority", AdminColumnType::Text);
    push_column(&mut columns, "multi_shard_policy", AdminColumnType::Text);
    assert(column_facts(columns@) =~= route_maps_columns());
    columns
}

/// What a route map is for, in short.
pub open spec fn scope_text(scope: ShardScopeConfig) -> Seq<char> {
    match scope {
        ShardScopeConfig::DatabaseUser { database, user } => database@ + "/"@ + user@,
        ShardScopeConfig::ApplicationName { application_name } => application_name@,
        ShardScopeConfig::SchemaTable { schema, table } => schema@ + "."@ + table@,
        ShardScopeConfig::TenantKey { tenant_key } => tenant_key@,
    }
}

/// What a route map is for, in short.
pub fn route_map_scope_label(scope: &ShardScopeConfig) -> (r: String)
    ensures
        r@ == scope_text(*scope),
{
    match scope {
        ShardScopeConfig::DatabaseUser { database, user } => join3(
            database.as_str(),
            "/",
            user.as_str(),
        ),
        ShardScopeConfig::ApplicationName { application_name } => application_name.clone(),
        ShardScopeConfig::SchemaTable { schema, table } => join3(
            schema.as_str(),
            ".",
            table.as_str(),
        ),
        ShardScopeConfig::TenantKey { tenant_key } => tenant_key.clone(),
    }
}

/// A route map's rank, as it is shown.
pub open spec fn shown_priority(priority: Option<crate::config::RouteMapPriority>) -> Seq<char> {
    match priority {
        Some(priority) => decimal(priority.0 as nat),
        None => "<none>"@,
    }
}

fn priority_text(priority: &Option<crate::config::RouteMapPriority>) -> (r: String)
    ensures
        r@ == shown_priority(*priority),
{
    match priority {
        Some(priority) => u64_text(priority.0 as u64),
        None => "<none>".to_owned(),
    }
}

/// A route map's row.
pub open spec fn route_map_row(s: RouteMapConfig, sharding: ShardingConfig) -> Seq<Seq<char>> {
    seq![
        scope_text(s.scope),
        s.strategy.name(),
        shown_priority(s.priority),
        sharding.multi_shard_policy.name(),
    ]
}

fn route_map_row_of(s: &RouteMapConfig, sharding: &ShardingConfig) -> (r: AdminRow)
    ensures
        r@ == route_map_row(*s, *sharding),
{
    let mut values: Vec<String> = Vec::new();
    assert(texts(values@) =~= Seq::empty());
    push_value(&mut values, route_map_scope_label(&s.scope));
    push_value(&mut values, s.strategy.as_str().to_owned());
    push_value(&mut values, priority_text(&s.priority));
    push_value(&mut values, sharding.multi_shard_policy.as_str().to_owned());
    assert(texts(values@) =~= route_map_row(*s, *sharding));
    AdminRow { values }
}

/// The route maps.
pub open spec fn route_maps_rows(sharding: ShardingConfig) -> Seq<Seq<Seq<char>>> {
    Seq::new(sharding.route_maps@.len(), |i: int| route_map_row(sharding.route_maps@[i], sharding))
}

/// The route maps.
pub fn route_maps_table(sharding: &ShardingConfig) -> (r: AdminTable)
    ensures
        r@ == (TableFacts {
            view: AdminView::RouteMaps,
            columns: route_maps_columns(),
            rows: route_maps_rows(*sharding),
        }),
{
    let mut rows: Vec<AdminRow> = Vec::new();
    let ghost all = route_maps_rows(*sharding);
    let mut i: usize = 0;
    assert(row_facts(rows@) =~= all.take(0));
    while i < sharding.route_maps.len()
        invariant
            i <= sharding.route_maps@.len(),
            all == route_maps_rows(*sharding),
            row_facts(rows@) == all.take(i as int),
        decreases sharding.route_maps@.len() - i,
    {
        push_row(&mut rows, route_map_row_of(&sharding.route_maps[i], sharding));
        assert(row_facts(rows@) =~= all.take(i + 1));
        i += 1;
    }
    assert(all.take(i as int) =~= all);
    AdminTable { view: AdminView::RouteMaps, columns: route_maps_header(), rows }
}

/// The columns of the table of shards.
pub open spec fn shards_columns() -> Seq<ColumnFacts> {
    seq![
        ColumnFacts { name: "shard_id"@, column_type: AdminColumnType::Text },
        ColumnFacts { name: "route_key"@, column_type: AdminColumnType::Text },
        ColumnFacts { name: "lifecycle_state"@, column_type: AdminColumnType::Text },
        ColumnFacts { name: "primary_backend_count"@, column_type: AdminColumnType::Int8 },
        ColumnFacts { name: "replica_backend_count"@, column_type: AdminColumnType::Int8 },
        ColumnFacts { name: "health_summary"@, column_type: AdminColumnType::Text },
    ]
}

fn shards_header() -> (r: Vec<AdminColumn>)
    ensures
        column_facts(r@) == shards_columns(),
{
    let mut columns: Vec<AdminColumn> = Vec::new();
    assert(column_facts(columns@) =~= Seq::empty());
    push_column(&mut columns, "shard_id", AdminColumnType::Text);
    push_column(&mut columns, "route_key", AdminColumnType::Text);
    push_column(&mut columns, "lifecycle_state", AdminColumnType::Text);
    push_column(&mut columns, "primary_backend_count", AdminColumnType::Int8);
    push_column(&mut columns, "replica_backend_count", AdminColumnType::Int8);
    push_column(&mut columns, "health_summary", AdminColumnType::Text);
    assert(column_facts(columns@) =~= shards_columns());
    columns
}

/// A place where a route map names a shard.
#[derive(Debug)]
struct ShardMention {
    shard_id: String,
    scope: String,
    primary: bool,
}

/// A place where a route map names a shard, as plain values.
pub struct ShardMentionFacts {
    pub shard_id: Seq<char>,
    pub scope: Seq<char>,
    pub primary: bool,
}

impl View for ShardMention {
    type V = ShardMentionFacts;

    closed spec fn view(&self) -> ShardMentionFacts {
        ShardMentionFacts {
            shard_id: self.shard_id@,
            scope: self.scope@,
            primary: self.primary,
        }
    }
}

/// The shards that a route map names.
pub open spec fn map_mentions(scope: Seq<char>, targets: Seq<ShardTargetConfig>) -> Seq<
    ShardMentionFacts,
> {
    targets.map_values(
        |target: ShardTargetConfig|
            ShardMentionFacts {
                shard_id: target.shard_name(),
                scope,
                primary: target is Primary,
            },
    )
}

/// The shards that some route maps name, in the order in which they stand.
pub open spec fn shard_mentions(maps: Seq<RouteMapConfig>) -> Seq<ShardMentionFacts>
    decreases maps.len(),
{
    if maps.len() == 0 {
        Seq::empty()
    } else {
        shard_mentions(maps.drop_last()) + map_mentions(
            scope_text(maps.last().scope),
            maps.last().targets@,
        )
    }
}

/// The names of the shards that are named, or of which it is told whether they take requests.
pub open spec fn shard_names(
    mentions: Seq<ShardMentionFacts>,
    states: Seq<ShardLifecycleSnapshot>,
) -> Seq<Seq<char>> {
    mentions.map_values(|mention: ShardMentionFacts| mention.shard_id) + states.map_values(
        |state: ShardLifecycleSnapshot| state.shard_id@,
    )
}

/// What the first route map that names a shard is for, as it is shown.
pub open spec fn first_scope(mentions: Seq<ShardMentionFacts>, shard: Seq<char>) -> Seq<char>
    decreases mentions.len(),
{
    if mentions.len() == 0 {
        "<none>"@
    } else if mentions[0].shard_id == shard {
        mentions[0].scope
    } else {
        first_scope(mentions.skip(1), shard)
    }
}

/// How often a shard is named as a primary, or as replicas.
pub open spec fn count_mentions(
    mentions: Seq<ShardMentionFacts>,
    shard: Seq<char>,
    primary: bool,
) -> nat
    decreases mentions.len(),
{
    if mentions.len() == 0 {
        0
    } else {
        count_mentions(mentions.drop_last(), shard, primary) + if mentions.last().shard_id == shard
            && mentions.last().primary == primary {
            1nat
        } else {
            0nat
        }
    }
}

/// Whether a shard takes requests, as was last told; it does where nothing was.
pub open spec fn last_state(
    states: Seq<ShardLifecycleSnapshot>,
    shard: Seq<char>,
) -> ShardLifecycleState
    decreases states.len(),
{
    if states.len() == 0 {
        ShardLifecycleState::Active
    } else if states.last().shard_id@ == shard {
        states.last().lifecycle_state
    } else {
        last_state(states.drop_last(), shard)
    }
}

/// How a shard is doing, in a word.
pub open spec fn shard_health(
    state: ShardLifecycleState,
    primaries: nat,
    replicas: nat,
) -> Seq<char> {
    match state {
        ShardLifecycleState::Active => if primaries + replicas == 0 {
            "unassigned"@
        } else {
            "healthy"@
        },
        ShardLifecycleState::Draining => "draining"@,
        ShardLifecycleState::Readonly => "readonly"@,
        ShardLifecycleState::Disabled => "disabled"@,
    }
}

/// How a shard is doing, in a word.
pub fn shard_health_summary(
    lifecycle_state: ShardLifecycleState,
    primary_backend_count: usize,
    replica_backend_count: usize,
) -> (r: &'static str)
    ensures
        r@ == shard_health(
            lifecycle_state,
            primary_backend_count as nat,
            replica_backend_count as nat,
        ),
{
    match lifecycle_state {
        ShardLifecycleState::Active => if primary_backend_count == 0 && replica_backend_count == 0 {
            "unassigned"
        } else {
            "healthy"
        },
        ShardLifecycleState::Draining => "draining",
        ShardLifecycleState::Readonly => "readonly",
        ShardLifecycleState::Disabled => "disabled",
    }
}

/// A shard's row.
pub open spec fn shard_row(
    mentions: Seq<ShardMentionFacts>,
    states: Seq<ShardLifecycleSnapshot>,
    shard: Seq<char>,
) -> Seq<Seq<char>> {
    let state = last_state(states, shard);
    let primaries = count_mentions(mentions, shard, true);
    let replicas = count_mentions(mentions, shard, false);
    seq![
        shard,
        first_scope(mentions, shard),
        state.name(),
        decimal(primaries),
        decimal(replicas),
        shard_health(state, primaries, replicas),
    ]
}

/// The rows of the shards, in the order of their names, each shard once.
pub open spec fn shards_rows(sharding: ShardingConfig, states: Seq<ShardLifecycleSnapshot>) -> Seq<
    Seq<Seq<char>>,
> {
    let mentions = shard_mentions(sharding.route_maps@);
    in_order(shard_names(mentions, states)).map_values(
        |shard: Seq<char>| shard_row(mentions, states, shard),
    )
}

/// A shard is shown exactly where a route map names it or it is told whether it takes requests,
/// and no shard is shown twice.
pub proof fn law_shards_shown_once(sharding: ShardingConfig, states: Seq<ShardLifecycleSnapshot>)
    ensures
        ({
            let names = shard_names(shard_mentions(sharding.route_maps@), states);
            let rows = shards_rows(sharding, states);
            &&& forall|i: int, j: int|
                0 <= i < j < rows.len() ==> crate::order::text_before(
                    (#[trigger] rows[i])[0],
                    (#[trigger] rows[j])[0],
                )
            &&& forall|shard: Seq<char>|
                names.contains(shard) <==> exists|i: int|
                    0 <= i < rows.len() && (#[trigger] rows[i])[0] == shard
        }),
{
    let mentions = shard_mentions(sharding.route_maps@);
    let names = shard_names(mentions, states);
    let shown = in_order(names);
    let rows = shards_rows(sharding, states);
    crate::order::law_in_order(names);
    assert forall|i: int| 0 <= i < rows.len() implies (#[trigger] rows[i])[0] == shown[i] by {}
    assert forall|shard: Seq<char>|
        names.contains(shard) <==> exists|i: int|
            0 <= i < rows.len() && (#[trigger] rows[i])[0] == shard by {
        if names.contains(shard) {
            assert(shown.contains(shard));
            let i = choose|i: int| 0 <= i < shown.len() && shown[i] == shard;
            assert(rows[i][0] == shard);
        }
        if exists|i: int| 0 <= i < rows.len() && (#[trigger] rows[i])[0] == shard {
            let i = choose|i: int| 0 <= i < rows.len() && (#[trigger] rows[i])[0] == shard;
            assert(shown[i] == shard);
            assert(shown.contains(shard));
        }
    }
}

closed spec fn shard_mention_facts(list: Seq<ShardMention>) -> Seq<ShardMentionFacts> {
    list.map_values(|mention: ShardMention| mention@)
}

fn collect_shard_mentions(maps: &Vec<RouteMapConfig>) -> (r: Vec<ShardMention>)
    ensures
        shard_mention_facts(r@) == shard_mentions(maps@),
{
    let mut mentions: Vec<ShardMention> = Vec::new();
    let mut i: usize = 0;
    assert(maps@.take(0) =~= Seq::empty());
    assert(shard_mention_facts(mentions@) =~= Seq::empty());
    while i < maps.len()
        invariant
            i <= maps@.len(),
            shard_mention_facts(mentions@) == shard_mentions(maps@.take(i as int)),
        decreases maps@.len() - i,
    {
        let map = &maps[i];
        let scope = route_map_scope_label(&map.scope);
        let ghost held = shard_mention_facts(mentions@);
        let mut j: usize = 0;
        proof {
            assert(maps@.take(i + 1).drop_last() =~= maps@.take(i as int));
            assert(maps@.take(i + 1).last() == *map);
            assert(held + map_mentions(scope@, map.targets@.take(0)) =~= held);
        }
        while j < map.targets.len()
            invariant
                j <= map.targets@.len(),
                shard_mention_facts(mentions@) == held + map_mentions(
                    scope@,
                    map.targets@.take(j as int),
                ),
            decreases map.targets@.len() - j,
        {
            let ghost before = mentions@;
            let mention = match &map.targets[j] {
                ShardTargetConfig::Primary { shard_id } => ShardMention {
                    shard_id: shard_id.clone(),
                    scope: scope.clone(),
                    primary: true,
                },
                ShardTargetConfig::Replicas { shard_id } => ShardMention {
                    shard_id: shard_id.clone(),
                    scope: scope.clone(),
                    primary: false,
                },
            };
            mentions.push(mention);
            proof {
                assert(shard_mention_facts(mentions@) =~= shard_mention_facts(before).push(
                    mention@,
                ));
                assert(map_mentions(scope@, map.targets@.take(j + 1)) =~= map_mentions(
                    scope@,
                    map.targets@.take(j as int),
                ).push(mention@));
                assert(shard_mention_facts(mentions@) =~= held + map_mentions(
                    scope@,
                    map.targets@.take(j + 1),
                ));
            }
            j += 1;
        }
        assert(map.targets@.take(j as int) =~= map.targets@);
        i += 1;
    }
    assert(maps@.take(i as int) =~= maps@);
    mentions
}

fn find_scope(mentions: &Vec<ShardMention>, shard: &str) -> (r: String)
    ensures
        r@ == first_scope(shard_mention_facts(mentions@), shard@),
{
    let ghost all = shard_mention_facts(mentions@);
    let mut i: usize = 0;
    assert(all.skip(0) =~= all);
    while i < mentions.len()
        invariant
            i <= mentions@.len(),
            all == shard_mention_facts(mentions@),
            first_scope(all, shard@) == first_scope(all.skip(i as int), shard@),
        decreases mentions@.len() - i,
    {
        assert(all.skip(i as int)[0] == mentions@[i as int]@);
        if same_text(mentions[i].shard_id.as_str(), shard) {
            return mentions[i].scope.clone();
        }
        assert(all.skip(i as int).skip(1) =~= all.skip(i + 1));
        i += 1;
    }
    "<none>".to_owned()
}

fn count_shard(mentions: &Vec<ShardMention>, shard: &str, primary: bool) -> (r: usize)
    ensures
        r == count_mentions(shard_mention_facts(mentions@), shard@, primary),
{
    let ghost all = shard_mention_facts(mentions@);
    let mut count: usize = 0;
    let mut i: usize = 0;
    assert(all.take(0) =~= Seq::empty());
    while i < mentions.len()
        invariant
            i <= mentions@.len(),
            all == shard_mention_facts(mentions@),
            count <= i,
            count == count_mentions(all.take(i as int), shard@, primary),
        decreases mentions@.len() - i,
    {
        assert(all.take(i + 1).drop_last() =~= all.take(i as int));
        assert(all.take(i + 1).last() == mentions@[i as int]@);
        if same_text(mentions[i].shard_id.as_str(), shard) && mentions[i].primary == primary {
            count += 1;
        }
        i += 1;
    }
    assert(all.take(i as int) =~= all);
    count
}

fn find_state(states: &Vec<ShardLifecycleSnapshot>, shard: &str) -> (r: ShardLifecycleState)
    ensures
        r == last_state(states@, shard@),
{
    let mut i: usize = states.len();
    assert(states@.take(i as int) =~= states@);
    while i > 0
        invariant
            i <= states@.len(),
            last_state(states@, shard@) == last_state(states@.take(i as int), shard@),
        decreases i,
    {
        let at: usize = i - 1;
        assert(states@.take(i as int).drop_last() =~= states@.take(at as int));
        if same_text(states[at].shard_id.as_str(), shard) {
            return states[at].lifecycle_state;
        }
        i = at;
    }
    ShardLifecycleState::Active
}

/// The shards, in the order of their names: those that route maps name, and those of which it is
/// told whether they take requests.
pub fn shards_table(sharding: &ShardingConfig, states: &Vec<ShardLifecycleSnapshot>) -> (r:
    AdminTable)
    ensures
        r@ == (TableFacts {
            view: AdminView::Shards,
            columns: shards_columns(),
            rows: shards_rows(*sharding, states@),
        }),
{
    let mentions = collect_shard_mentions(&sharding.route_maps);
    let ghost told = shard_mention_facts(mentions@);
    let mut names: Vec<String> = Vec::new();
    let mut i: usize = 0;
    while i < mentions.len()
        invariant
            i <= mentions@.len(),
            names@.len() == i,
            forall|j: int| 0 <= j < i ==> (#[trigger] names@[j])@ == mentions@[j]@.shard_id,
        decreases mentions@.len() - i,
    {
        names.push(mentions[i].shard_id.clone());
        i += 1;
    }
    let mut k: usize = 0;
    while k < states.len()
        invariant
            k <= states@.len(),
            names@.len() == mentions@.len() + k,
            forall|j: int|
                0 <= j < mentions@.len() ==> (#[trigger] names@[j])@ == mentions@[j]@.shard_id,
            forall|j: int|
                mentions@.len() <= j < names@.len() ==> (#[trigger] names@[j])@ == states@[j
                    - mentions@.len()].shard_id@,
        decreases states@.len() - k,
    {
        names.push(states[k].shard_id.clone());
        k += 1;
    }
    assert(texts(names@) =~= shard_names(told, states@));
    let shown = ordered(&names);
    let ghost all = shards_rows(*sharding, states@);
    let mut rows: Vec<AdminRow> = Vec::new();
    let mut m: usize = 0;
    assert(row_facts(rows@) =~= all.take(0));
    while m < shown.len()
        invariant
            m <= shown@.len(),
            told == shard_mention_facts(mentions@),
            told == shard_mentions(sharding.route_maps@),
            texts(shown@) == in_order(shard_names(told, states@)),
            all == shards_rows(*sharding, states@),
            row_facts(rows@) == all.take(m as int),
        decreases shown@.len() - m,
    {
        let shard = shown[m].as_str();
        assert(texts(shown@)[m as int] == shard@);
        let state = find_state(states, shard);
        let primaries = count_shard(&mentions, shard, true);
        let replicas = count_shard(&mentions, shard, false);
        let mut values: Vec<String> = Vec::new();
        assert(texts(values@) =~= Seq::empty());
        push_value(&mut values, shard.to_owned());
        push_value(&mut values, find_scope(&mentions, shard));
        push_value(&mut values, state.as_str().to_owned());
        push_value(&mut values, usize_text(primaries));
        push_value(&mut values, usize_text(replicas));
        push_value(&mut values, shard_health_summary(state, primaries, replicas).to_owned());
        assert(texts(values@) =~= shard_row(told, states@, shard@));
        assert(all[m as int] == shard_row(told, states@, shard@));
        push_row(&mut rows, AdminRow { values });
        assert(row_facts(rows@) =~= all.take(m + 1));
        m += 1;
    }
    assert(all.len() == texts(shown@).len());
    assert(all.take(m as int) =~= all);
    AdminTable { view: AdminView::Shards, columns: shards_header(), rows }
}

/// The columns of the table of moves of shards.
pub open spec fn migrations_columns() -> Seq<ColumnFacts> {
    seq![
        ColumnFacts { name: "migration_state"@, column_type: AdminColumnType::Text },
        ColumnFacts { name: "migration_override_explicit"@, column_type: AdminColumnType::Bool },
        ColumnFacts { name: "source_shard_ids"@, column_type: AdminColumnType::Text },
        ColumnFacts { name: "target_shard_ids"@, column_type: AdminColumnType::Text },
        ColumnFacts { name: "active_client_count"@, column_type: AdminColumnType::Int8 },
        ColumnFacts { name: "prepared_statement_count"@, column_type: AdminColumnType::Int8 },
        ColumnFacts { name: "open_transaction_count"@, column_type: AdminColumnType::Int8 },
        ColumnFacts { name: "last_required_lsn"@, column_type: AdminColumnType::Text },
    ]
}

fn migrations_header() -> (r: Vec<AdminColumn>)
    ensures
        column_facts(r@) == migrations_columns(),
{
    let mut columns: Vec<AdminColumn> = Vec::new();
    assert(column_facts(columns@) =~= Seq::empty());
    push_column(&mut columns, "migration_state", AdminColumnType::Text);
    push_column(&mut columns, "migration_override_explicit", AdminColumnType::Bool);
    push_column(&mut columns, "source_shard_ids", AdminColumnType::Text);
    push_column(&mut columns, "target_shard_ids", AdminColumnType::Text);
    push_column(&mut columns, "active_client_count", AdminColumnType::Int8);
    push_column(&mut columns, "prepared_statement_count", AdminColumnType::Int8);
    push_column(&mut columns, "open_transaction_count", AdminColumnType::Int8);
    push_column(&mut columns, "last_required_lsn", AdminColumnType::Text);
    assert(column_facts(columns@) =~= migrations_columns());
    columns
}

/// Shards' names, as they are shown.
pub open spec fn shown_ids(ids: Seq<String>) -> Seq<char> {
    if ids.len() == 0 {
        "<none>"@
    } else {
        joined(texts(ids), ","@)
    }
}

fn join_shard_ids(ids: &Vec<String>) -> (r: String)
    ensures
        r@ == shown_ids(ids@),
{
    if ids.len() == 0 {
        "<none>".to_owned()
    } else {
        join_all(ids, ",")
    }
}

/// The row of a plan to move shards.
pub open spec fn migration_row(s: ShardMigrationSafetySnapshot) -> Seq<Seq<char>> {
    seq![
        s.migration_state@,
        bool_text(s.migration_override_explicit),
        shown_ids(s.source_shard_ids@),
        shown_ids(s.target_shard_ids@),
        decimal(match s.safety_report {
            Some(report) => report.active_clients as nat,
            None => 0,
        }),
        decimal(match s.safety_report {
            Some(report) => report.prepared_statements as nat,
            None => 0,
        }),
        decimal(match s.safety_report {
            Some(report) => report.open_transactions as nat,
            None => 0,
        }),
        match s.safety_report {
            Some(report) => shown_text(report.last_required_lsn),
            None => "<none>"@,
        },
    ]
}

fn migration_row_of(s: &ShardMigrationSafetySnapshot) -> (r: AdminRow)
    ensures
        r@ == migration_row(*s),
{
    let mut values: Vec<String> = Vec::new();
    assert(texts(values@) =~= Seq::empty());
    push_value(&mut values, s.migration_state.clone());
    push_value(&mut values, bool_string(s.migration_override_explicit));
    push_value(&mut values, join_shard_ids(&s.source_shard_ids));
    push_value(&mut values, join_shard_ids(&s.target_shard_ids));
    push_value(&mut values, usize_text(match &s.safety_report {
            Some(report) => report.active_clients,
            None => 0,
        }));
    push_value(&mut values, usize_text(match &s.safety_report {
            Some(report) => report.prepared_statements,
            None => 0,
        }));
    push_value(&mut values, usize_text(match &s.safety_report {
            Some(report) => report.open_transactions,
            None => 0,
        }));
    push_value(&mut values, match &s.safety_report {
            Some(report) => optional_text(&report.last_required_lsn),
            None => "<none>".to_owned(),
        });
    assert(texts(values@) =~= migration_row(*s));
    AdminRow { values }
}

/// The plans to move shards.
pub open spec fn migrations_rows(
    migrations: Seq<ShardMigrationSafetySnapshot>,
) -> Seq<Seq<Seq<char>>> {
    Seq::new(migrations.len(), |i: int| migration_row(migrations[i]))
}

/// The plans to move shards.
pub fn migrations_table(migrations: &Vec<ShardMigrationSafetySnapshot>) -> (r: AdminTable)
    ensures
        r@ == (TableFacts {
            view: AdminView::Migrations,
            columns: migrations_columns(),
            rows: migrations_rows(migrations@),
        }),
{
    let mut rows: Vec<AdminRow> = Vec::new();
    let ghost all = migrations_rows(migrations@);
    let mut i: usize = 0;
    assert(row_facts(rows@) =~= all.take(0));
    while i < migrations.len()
        invariant
            i <= migrations@.len(),
            all == migrations_rows(migrations@),
            row_facts(rows@) == all.take(i as int),
        decreases migrations@.len() - i,
    {
        push_row(&mut rows, migration_row_of(&migrations[i]));
        assert(row_facts(rows@) =~= all.take(i + 1));
        i += 1;
    }
    assert(all.take(i as int) =~= all);
    AdminTable { view: AdminView::Migrations, columns: migrations_header(), rows }
}

// ---------------------------------------------------------------------------
// Settings and limits
// ---------------------------------------------------------------------------

/// The columns of the table of settings.
pub open spec fn settings_columns() -> Seq<ColumnFacts> {
    seq![
        ColumnFacts { name: "listen_addr"@, column_type: AdminColumnType::Text },
        ColumnFacts { name: "backend_addr"@, column_type: AdminColumnType::Text },
        ColumnFacts { name: "client_tls_mode"@, column_type: AdminColumnType::Text },
        ColumnFacts { name: "backend_tls_mode"@, column_type: AdminColumnType::Text },
        ColumnFacts { name: "auth_mode"@, column_type: AdminColumnType::Text },
        ColumnFacts { name: "auth_failure_message_mode"@, column_type: AdminColumnType::Text },
        ColumnFacts { name: "backend_user"@, column_type: AdminColumnType::Text },
        ColumnFacts { name: "backend_reset_query"@, column_type: AdminColumnType::Text },
        ColumnFacts { name: "recovery_mode"@, column_type: AdminColumnType::Text },
        ColumnFacts { name: "reload_enabled"@, column_type: AdminColumnType::Bool },
        ColumnFacts { name: "config_reload_interval_ms"@, column_type: AdminColumnType::Int8 },
        ColumnFacts { name: "drain_timeout_ms"@, column_type: AdminColumnType::Int8 },
        ColumnFacts { name: "reject_new_clients_during_drain"@, column_type: AdminColumnType::Bool },
        ColumnFacts { name: "health_addr"@, column_type: AdminColumnType::Text },
        ColumnFacts { name: "readiness_backend_check_interval_ms"@, column_type: AdminColumnType::Int8 },
        ColumnFacts { name: "readiness_timeout_ms"@, column_type: AdminColumnType::Int8 },
        ColumnFacts { name: "metrics_addr"@, column_type: AdminColumnType::Text },
        ColumnFacts { name: "tcp_nodelay"@, column_type: AdminColumnType::Bool },
        ColumnFacts { name: "tcp_keepalive"@, column_type: AdminColumnType::Bool },
        ColumnFacts { name: "tcp_keepalive_idle_ms"@, column_type: AdminColumnType::Int8 },
        ColumnFacts { name: "tcp_keepalive_interval_ms"@, column_type: AdminColumnType::Int8 },
        ColumnFacts { name: "tcp_keepalive_retries"@, column_type: AdminColumnType::Int8 },
        ColumnFacts { name: "tcp_user_timeout_ms"@, column_type: AdminColumnType::Int8 },
        ColumnFacts { name: "tcp_send_buffer_bytes"@, column_type: AdminColumnType::Int8 },
        ColumnFacts { name: "tcp_recv_buffer_bytes"@, column_type: AdminColumnType::Int8 },
        ColumnFacts { name: "strict_socket_option_mode"@, column_type: AdminColumnType::Bool },
    ]
}

fn settings_header() -> (r: Vec<AdminColumn>)
    ensures
        column_facts(r@) == settings_columns(),
{
    let mut columns: Vec<AdminColumn> = Vec::new();
    assert(column_facts(columns@) =~= Seq::empty());
    push_column(&mut columns, "listen_addr", AdminColumnType::Text);
    push_column(&mut columns, "backend_addr", AdminColumnType::Text);
    push_column(&mut columns, "client_tls_mode", AdminColumnType::Text);
    push_column(&mut columns, "backend_tls_mode", AdminColumnType::Text);
    push_column(&mut columns, "auth_mode", AdminColumnType::Text);
    push_column(&mut columns, "auth_failure_message_mode", AdminColumnType::Text);
    push_column(&mut columns, "backend_user", AdminColumnType::Text);
    push_column(&mut columns, "backend_reset_query", AdminColumnType::Text);
    push_column(&mut columns, "recovery_mode", AdminColumnType::Text);
    push_column(&mut columns, "reload_enabled", AdminColumnType::Bool);
    push_column(&mut columns, "config_reload_interval_ms", AdminColumnType::Int8);
    push_column(&mut columns, "drain_timeout_ms", AdminColumnType::Int8);
    push_column(&mut columns, "reject_new_clients_during_drain", AdminColumnType::Bool);
    push_column(&mut columns, "health_addr", AdminColumnType::Text);
    push_column(&mut columns, "readiness_backend_check_interval_ms", AdminColumnType::Int8);
    push_column(&mut columns, "readiness_timeout_ms", AdminColumnType::Int8);
    push_column(&mut columns, "metrics_addr", AdminColumnType::Text);
    push_column(&mut columns, "tcp_nodelay", AdminColumnType::Bool);
    push_column(&mut columns, "tcp_keepalive", AdminColumnType::Bool);
    push_column(&mut columns, "tcp_keepalive_idle_ms", AdminColumnType::Int8);
    push_column(&mut columns, "tcp_keepalive_interval_ms", AdminColumnType::Int8);
    push_column(&mut columns, "tcp_keepalive_retries", AdminColumnType::Int8);
    push_column(&mut columns, "tcp_user_timeout_ms", AdminColumnType::Int8);
    push_column(&mut columns, "tcp_send_buffer_bytes", AdminColumnType::Int8);
    push_column(&mut columns, "tcp_recv_buffer_bytes", AdminColumnType::Int8);
    push_column(&mut columns, "strict_socket_option_mode", AdminColumnType::Bool);
    assert(column_facts(columns@) =~= settings_columns());
    columns
}

/// The row of the settings.
pub open spec fn settings_row(s: SettingsSnapshot) -> Seq<Seq<char>> {
    seq![
        s.listen_addr@,
        s.backend_addr@,
        s.client_tls_mode.name(),
        s.backend_tls_mode.name(),
        s.auth_mode.name(),
        s.auth_failure_message_mode@,
        shown_text(s.backend_user),
        s.backend_reset_query@,
        s.recovery_mode.name(),
        bool_text(s.reload_enabled),
        shown_millis(s.config_reload_interval),
        shown_millis(s.drain_timeout),
        bool_text(s.reject_new_clients_during_drain),
        shown_text(s.health_addr),
        shown_millis(s.readiness_backend_check_interval),
        shown_millis(s.readiness_timeout),
        shown_text(s.metrics_addr),
        bool_text(s.tcp_nodelay),
        bool_text(s.tcp_keepalive),
        shown_opt_millis(s.tcp_keepalive_idle),
        shown_opt_millis(s.tcp_keepalive_interval),
        match s.tcp_keepalive_retries {
            Some(number) => shown_number(Some(number as nat)),
            None => shown_number(None),
        },
        shown_opt_millis(s.tcp_user_timeout),
        match s.tcp_send_buffer_bytes {
            Some(number) => shown_number(Some(number as nat)),
            None => shown_number(None),
        },
        match s.tcp_recv_buffer_bytes {
            Some(number) => shown_number(Some(number as nat)),
            None => shown_number(None),
        },
        bool_text(s.strict_socket_option_mode),
    ]
}

fn settings_row_of(s: &SettingsSnapshot) -> (r: AdminRow)
    ensures
        r@ == settings_row(*s),
{
    let mut values: Vec<String> = Vec::new();
    assert(texts(values@) =~= Seq::empty());
    push_value(&mut values, s.listen_addr.clone());
    push_value(&mut values, s.backend_addr.clone());
    push_value(&mut values, s.client_tls_mode.as_str().to_owned());
    push_value(&mut values, s.backend_tls_mode.as_str().to_owned());
    push_value(&mut values, s.auth_mode.as_str().to_owned());
    push_value(&mut values, s.auth_failure_message_mode.clone());
    push_value(&mut values, optional_text(&s.backend_user));
    push_value(&mut values, s.backend_reset_query.clone());
    push_value(&mut values, s.recovery_mode.as_str().to_owned());
    push_value(&mut values, bool_string(s.reload_enabled));
    push_value(&mut values, duration_millis(&s.config_reload_interval));
    push_value(&mut values, duration_millis(&s.drain_timeout));
    push_value(&mut values, bool_string(s.reject_new_clients_during_drain));
    push_value(&mut values, optional_text(&s.health_addr));
    push_value(&mut values, duration_millis(&s.readiness_backend_check_interval));
    push_value(&mut values, duration_millis(&s.readiness_timeout));
    push_value(&mut values, optional_text(&s.metrics_addr));
    push_value(&mut values, bool_string(s.tcp_nodelay));
    push_value(&mut values, bool_string(s.tcp_keepalive));
    push_value(&mut values, optional_duration(&s.tcp_keepalive_idle));
    push_value(&mut values, optional_duration(&s.tcp_keepalive_interval));
    push_value(&mut values, optional_u32(s.tcp_keepalive_retries));
    push_value(&mut values, optional_duration(&s.tcp_user_timeout));
    push_value(&mut values, optional_usize(s.tcp_send_buffer_bytes));
    push_value(&mut values, optional_usize(s.tcp_recv_buffer_bytes));
    push_value(&mut values, bool_string(s.strict_socket_option_mode));
    assert(texts(values@) =~= settings_row(*s));
    AdminRow { values }
}

/// The settings in force.
pub fn settings_table(settings: &SettingsSnapshot) -> (r: AdminTable)
    ensures
        r@ == (TableFacts {
            view: AdminView::Settings,
            columns: settings_columns(),
            rows: seq![settings_row(*settings)],
        }),
{
    let mut rows: Vec<AdminRow> = Vec::new();
    assert(row_facts(rows@) =~= Seq::empty());
    push_row(&mut rows, settings_row_of(settings));
    assert(row_facts(rows@) =~= seq![settings_row(*settings)]);
    AdminTable { view: AdminView::Settings, columns: settings_header(), rows }
}

/// The columns of the table of limits.
pub open spec fn limits_columns() -> Seq<ColumnFacts> {
    seq![
        ColumnFacts { name: "max_clients"@, column_type: AdminColumnType::Int8 },
        ColumnFacts { name: "max_backends"@, column_type: AdminColumnType::Int8 },
        ColumnFacts { name: "max_checkout_waiters"@, column_type: AdminColumnType::Int8 },
        ColumnFacts { name: "max_route_in_flight"@, column_type: AdminColumnType::Int8 },
        ColumnFacts { name: "max_route_waiters"@, column_type: AdminColumnType::Int8 },
        ColumnFacts { name: "checkout_timeout_ms"@, column_type: AdminColumnType::Int8 },
        ColumnFacts { name: "query_timeout_ms"@, column_type: AdminColumnType::Int8 },
        ColumnFacts { name: "idle_client_timeout_ms"@, column_type: AdminColumnType::Int8 },
        ColumnFacts { name: "idle_transaction_timeout_ms"@, column_type: AdminColumnType::Int8 },
        ColumnFacts { name: "max_client_buffer_bytes"@, column_type: AdminColumnType::Int8 },
        ColumnFacts { name: "max_backend_buffer_bytes"@, column_type: AdminColumnType::Int8 },
        ColumnFacts { name: "recovery_timeout_ms"@, column_type: AdminColumnType::Int8 },
        ColumnFacts { name: "drain_timeout_ms"@, column_type: AdminColumnType::Int8 },
        ColumnFacts { name: "readiness_backend_check_interval_ms"@, column_type: AdminColumnType::Int8 },
        ColumnFacts { name: "readiness_timeout_ms"@, column_type: AdminColumnType::Int8 },
        ColumnFacts { name: "config_reload_interval_ms"@, column_type: AdminColumnType::Int8 },
        ColumnFacts { name: "admin_query_timeout_ms"@, column_type: AdminColumnType::Int8 },
        ColumnFacts { name: "admin_max_clients"@, column_type: AdminColumnType::Int8 },
        ColumnFacts { name: "overload_error_code"@, column_type: AdminColumnType::Text },
    ]
}

fn limits_header() -> (r: Vec<AdminColumn>)
    ensures
        column_facts(r@) == limits_columns(),
{
    let mut columns: Vec<AdminColumn> = Vec::new();
    assert(column_facts(columns@) =~= Seq::empty());
    push_column(&mut columns, "max_clients", AdminColumnType::Int8);
    push_column(&mut columns, "max_backends", AdminColumnType::Int8);
    push_column(&mut columns, "max_checkout_waiters", AdminColumnType::Int8);
    push_column(&mut columns, "max_route_in_flight", AdminColumnType::Int8);
    push_column(&mut columns, "max_route_waiters", AdminColumnType::Int8);
    push_column(&mut columns, "checkout_timeout_ms", AdminColumnType::Int8);
    push_column(&mut columns, "query_timeout_ms", AdminColumnType::Int8);
    push_column(&mut columns, "idle_client_timeout_ms", AdminColumnType::Int8);
    push_column(&mut columns, "idle_transaction_timeout_ms", AdminColumnType::Int8);
    push_column(&mut columns, "max_client_buffer_bytes", AdminColumnType::Int8);
    push_column(&mut columns, "max_backend_buffer_bytes", AdminColumnType::Int8);
    push_column(&mut columns, "recovery_timeout_ms", AdminColumnType::Int8);
    push_column(&mut columns, "drain_timeout_ms", AdminColumnType::Int8);
    push_column(&mut columns, "readiness_backend_check_interval_ms", AdminColumnType::Int8);
    push_column(&mut columns, "readiness_timeout_ms", AdminColumnType::Int8);
    push_column(&mut columns, "config_reload_interval_ms", AdminColumnType::Int8);
    push_column(&mut columns, "admin_query_timeout_ms", AdminColumnType::Int8);
    push_column(&mut columns, "admin_max_clients", AdminColumnType::Int8);
    push_column(&mut columns, "overload_error_code", AdminColumnType::Text);
    assert(column_facts(columns@) =~= limits_columns());
    columns
}

/// The row of the limits.
pub open spec fn limits_row(s: LimitsSnapshot, config: Config) -> Seq<Seq<char>> {
    seq![
        decimal(s.max_clients as nat),
        decimal(s.max_backends as nat),
        decimal(s.max_checkout_waiters as nat),
        decimal(s.max_route_in_flight as nat),
        decimal(s.max_route_waiters as nat),
        shown_millis(s.checkout_timeout),
        shown_millis(s.query_timeout),
        shown_millis(s.idle_client_timeout),
        shown_millis(s.idle_transaction_timeout),
        decimal(s.max_client_buffer_bytes as nat),
        decimal(s.max_backend_buffer_bytes as nat),
        shown_millis(s.recovery_timeout),
        shown_millis(s.drain_timeout),
        shown_millis(s.readiness_backend_check_interval),
        shown_millis(s.readiness_timeout),
        shown_millis(s.config_reload_interval),
        decimal(config.admin.admin_query_timeout_ms as nat),
        decimal(config.admin.admin_max_clients as nat),
        s.overload_error_code@,
    ]
}

fn limits_row_of(s: &LimitsSnapshot, config: &Config) -> (r: AdminRow)
    ensures
        r@ == limits_row(*s, *config),
{
    let mut values: Vec<String> = Vec::new();
    assert(texts(values@) =~= Seq::empty());
    push_value(&mut values, usize_text(s.max_clients));
    push_value(&mut values, usize_text(s.max_backends));
    push_value(&mut values, usize_text(s.max_checkout_waiters));
    push_value(&mut values, usize_text(s.max_route_in_flight));
    push_value(&mut values, usize_text(s.max_route_waiters));
    push_value(&mut values, duration_millis(&s.checkout_timeout));
    push_value(&mut values, duration_millis(&s.query_timeout));
    push_value(&mut values, duration_millis(&s.idle_client_timeout));
    push_value(&mut values, duration_millis(&s.idle_transaction_timeout));
    push_value(&mut values, usize_text(s.max_client_buffer_bytes));
    push_value(&mut values, usize_text(s.max_backend_buffer_bytes));
    push_value(&mut values, duration_millis(&s.recovery_timeout));
    push_value(&mut values, duration_millis(&s.drain_timeout));
    push_value(&mut values, duration_millis(&s.readiness_backend_check_interval));
    push_value(&mut values, duration_millis(&s.readiness_timeout));
    push_value(&mut values, duration_millis(&s.config_reload_interval));
    push_value(&mut values, u64_text(config.admin.admin_query_timeout_ms));
    push_value(&mut values, usize_text(config.admin.admin_max_clients));
    push_value(&mut values, s.overload_error_code.clone());
    assert(texts(values@) =~= limits_row(*s, *config));
    AdminRow { values }
}

/// The limits in force.
pub fn limits_table(limits: &LimitsSnapshot, config: &Config) -> (r: AdminTable)
    ensures
        r@ == (TableFacts {
            view: AdminView::Limits,
            columns: limits_columns(),
            rows: seq![limits_row(*limits, *config)],
        }),
{
    let mut rows: Vec<AdminRow> = Vec::new();
    assert(row_facts(rows@) =~= Seq::empty());
    push_row(&mut rows, limits_row_of(limits, config));
    assert(row_facts(rows@) =~= seq![limits_row(*limits, *config)]);
    AdminTable { view: AdminView::Limits, columns: limits_header(), rows }
}

} // verus!
