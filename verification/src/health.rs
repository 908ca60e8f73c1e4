//! Health: what the process reports of itself, and the watch over the servers.
use vstd::prelude::*;

use crate::address::SocketAddress;
use crate::backend_query::{
    encode_query_message, parameter_bytes, put_parameter, startup_bytes, startup_packet_of,
};
use crate::buffer::{be16_at, be_at, buffer_bytes, frozen_slice, new_buffer, read_be16, read_be32};
use crate::clock::Duration;
use crate::drain::{DrainController, DrainProgress};
use crate::security::{DrainState, HealthStatus};
use crate::text::{
    decimal, join2, join3, join4, join5, lines, lines_of, opt_text, same_text, text_from_utf8,
    texts, usize_text, u64_text, utf8_bytes, utf8_text, words, words_of,
};
use crate::wire::{BackendFrame, BackendTag, Frame, FrontendTag};

verus! {

/// What a server is in its cluster.
#[derive(Clone, Copy, Debug, PartialEq, Eq, Structural)]
pub enum BackendRole {
    Primary,
    Replica,
    Unknown,
}

impl BackendRole {
    /// The name under which the value is written.
    pub open spec fn name(self) -> Seq<char> {
        match self {
            BackendRole::Primary => "primary"@,
            BackendRole::Replica => "replica"@,
            BackendRole::Unknown => "unknown"@,
        }
    }

    /// The name under which the value is written.
    pub fn as_str(self) -> (r: &'static str)
        ensures
            r@ == self.name(),
    {
        match self {
            BackendRole::Primary => "primary",
            BackendRole::Replica => "replica",
            BackendRole::Unknown => "unknown",
        }
    }

    /// What each value is written as.
    pub proof fn law_written_as(self)
        ensures
            self is Primary ==> self.name() == "primary"@,
            self is Replica ==> self.name() == "replica"@,
            self is Unknown ==> self.name() == "unknown"@,
    {
    }

    /// No two values have the same name.
    pub proof fn law_names_differ(a: BackendRole, b: BackendRole)
        requires
            a.name() == b.name(),
        ensures
            a == b,
    {
        reveal_strlit("primary");
        reveal_strlit("replica");
        reveal_strlit("unknown");
        assert("primary"@.len() == 7 && "primary"@[0] == 'p');
        assert("replica"@.len() == 7 && "replica"@[0] == 'r');
        assert("unknown"@.len() == 7 && "unknown"@[0] == 'u');
    }
}

/// How a server is doing.
#[derive(Clone, Copy, Debug, PartialEq, Eq, Structural)]
pub enum EndpointHealth {
    Healthy,
    Degraded,
    Unhealthy,
    Unavailable,
}

impl EndpointHealth {
    /// The name under which the value is written.
    pub open spec fn name(self) -> Seq<char> {
        match self {
            EndpointHealth::Healthy => "healthy"@,
            EndpointHealth::Degraded => "degraded"@,
            EndpointHealth::Unhealthy => "unhealthy"@,
            EndpointHealth::Unavailable => "unavailable"@,
        }
    }

    /// The name under which the value is written.
    pub fn as_str(self) -> (r: &'static str)
        ensures
            r@ == self.name(),
    {
        match self {
            EndpointHealth::Healthy => "healthy",
            EndpointHealth::Degraded => "degraded",
            EndpointHealth::Unhealthy => "unhealthy",
            EndpointHealth::Unavailable => "unavailable",
        }
    }

    /// What each value is written as.
    pub proof fn law_written_as(self)
        ensures
            self is Healthy ==> self.name() == "healthy"@,
            self is Degraded ==> self.name() == "degraded"@,
            self is Unhealthy ==> self.name() == "unhealthy"@,
            self is Unavailable ==> self.name() == "unavailable"@,
    {
    }

    /// No two values have the same name.
    pub proof fn law_names_differ(a: EndpointHealth, b: EndpointHealth)
        requires
            a.name() == b.name(),
        ensures
            a == b,
    {
        reveal_strlit("healthy");
        reveal_strlit("degraded");
        reveal_strlit("unhealthy");
        reveal_strlit("unavailable");
        assert("healthy"@.len() == 7);
        assert("degraded"@.len() == 8);
        assert("unhealthy"@.len() == 9);
        assert("unavailable"@.len() == 11);
    }
}

/// Whether a server is what it should be.
#[derive(Clone, Copy, Debug, PartialEq, Eq, Structural)]
pub enum EndpointRoleState {
    Primary,
    Replica,
    Unknown,
    Warning,
}

impl EndpointRoleState {
    /// The name under which the value is written.
    pub open spec fn name(self) -> Seq<char> {
        match self {
            EndpointRoleState::Primary => "primary"@,
            EndpointRoleState::Replica => "replica"@,
            EndpointRoleState::Unknown => "unknown"@,
            EndpointRoleState::Warning => "warning"@,
        }
    }

    /// The name under which the value is written.
    pub fn as_str(self) -> (r: &'static str)
        ensures
            r@ == self.name(),
    {
        match self {
            EndpointRoleState::Primary => "primary",
            EndpointRoleState::Replica => "replica",
            EndpointRoleState::Unknown => "unknown",
            EndpointRoleState::Warning => "warning",
        }
    }

    /// What each value is written as.
    pub proof fn law_written_as(self)
        ensures
            self is Primary ==> self.name() == "primary"@,
            self is Replica ==> self.name() == "replica"@,
            self is Unknown ==> self.name() == "unknown"@,
            self is Warning ==> self.name() == "warning"@,
    {
    }

    /// No two values have the same name.
    pub proof fn law_names_differ(a: EndpointRoleState, b: EndpointRoleState)
        requires
            a.name() == b.name(),
        ensures
            a == b,
    {
        reveal_strlit("primary");
        reveal_strlit("replica");
        reveal_strlit("unknown");
        reveal_strlit("warning");
        assert("primary"@.len() == 7 && "primary"@[0] == 'p');
        assert("replica"@.len() == 7 && "replica"@[0] == 'r');
        assert("unknown"@.len() == 7 && "unknown"@[0] == 'u');
        assert("warning"@.len() == 7 && "warning"@[0] == 'w');
    }
}

/// How far a replica lags behind.
#[derive(Clone, Copy, Debug, PartialEq, Eq, Structural)]
pub enum ReplicaLagState {
    Unknown,
    Fresh,
    Lagging,
}

impl ReplicaLagState {
    /// The name under which the value is written.
    pub open spec fn name(self) -> Seq<char> {
        match self {
            ReplicaLagState::Unknown => "unknown"@,
            ReplicaLagState::Fresh => "fresh"@,
            ReplicaLagState::Lagging => "lagging"@,
        }
    }

    /// The name under which the value is written.
    pub fn as_str(self) -> (r: &'static str)
        ensures
            r@ == self.name(),
    {
        match self {
            ReplicaLagState::Unknown => "unknown",
            ReplicaLagState::Fresh => "fresh",
            ReplicaLagState::Lagging => "lagging",
        }
    }

    /// What each value is written as.
    pub proof fn law_written_as(self)
        ensures
            self is Unknown ==> self.name() == "unknown"@,
            self is Fresh ==> self.name() == "fresh"@,
            self is Lagging ==> self.name() == "lagging"@,
    {
    }

    /// No two values have the same name.
    pub proof fn law_names_differ(a: ReplicaLagState, b: ReplicaLagState)
        requires
            a.name() == b.name(),
        ensures
            a == b,
    {
        reveal_strlit("unknown");
        reveal_strlit("fresh");
        reveal_strlit("lagging");
        assert("unknown"@.len() == 7 && "unknown"@[0] == 'u');
        assert("fresh"@.len() == 5 && "fresh"@[0] == 'f');
        assert("lagging"@.len() == 7 && "lagging"@[0] == 'l');
    }
}

// ---------------------------------------------------------------------------
// What the process reports
// ---------------------------------------------------------------------------

/// What the process reports at one moment.
#[derive(Clone, Copy, Debug, PartialEq, Eq, Structural)]
pub struct HealthSnapshot {
    pub process: HealthStatus,
    pub ready: HealthStatus,
    pub drain_state: DrainState,
    pub active_clients: usize,
    pub backend_health: HealthStatus,
}

/// The number of a status.
pub open spec fn status_number(status: HealthStatus) -> u8 {
    match status {
        HealthStatus::Ready => 0,
        HealthStatus::NotReady => 1,
        HealthStatus::Live => 2,
        HealthStatus::Degraded => 3,
    }
}

/// The status of a number.
pub open spec fn numbered_status(number: u8) -> HealthStatus {
    if number == 0 {
        HealthStatus::Ready
    } else if number == 1 {
        HealthStatus::NotReady
    } else if number == 2 {
        HealthStatus::Live
    } else {
        HealthStatus::Degraded
    }
}

/// A status is found again by its number.
pub proof fn law_status_number_round_trip(status: HealthStatus)
    ensures
        numbered_status(status_number(status)) == status,
{
}

/// The number of a status.
pub fn status_to_u8(status: HealthStatus) -> (r: u8)
    ensures
        r == status_number(status),
{
    match status {
        HealthStatus::Ready => 0,
        HealthStatus::NotReady => 1,
        HealthStatus::Live => 2,
        HealthStatus::Degraded => 3,
    }
}

/// The status of a number.
pub fn status_from_u8(number: u8) -> (r: HealthStatus)
    ensures
        r == numbered_status(number),
{
    if number == 0 {
        HealthStatus::Ready
    } else if number == 1 {
        HealthStatus::NotReady
    } else if number == 2 {
        HealthStatus::Live
    } else {
        HealthStatus::Degraded
    }
}

/// The status that a check of the server gives: ready where it could be reached in time.
pub fn probe_status(reached: bool) -> (r: HealthStatus)
    ensures
        r == (if reached {
            HealthStatus::Ready
        } else {
            HealthStatus::NotReady
        }),
        r is Ready <==> reached,
        r is NotReady <==> !reached,
{
    if reached {
        HealthStatus::Ready
    } else {
        HealthStatus::NotReady
    }
}

/// Whether the process is ready: it admits clients, and its server can be reached.
pub open spec fn ready_for_clients(drain: DrainProgress, backend: HealthStatus) -> bool {
    drain.state == DrainState::Accepting && backend == HealthStatus::Ready
}

/// What the process reports.
pub fn snapshot(drain: &DrainController, backend_health: HealthStatus) -> (r: HealthSnapshot)
    ensures
        r.process == HealthStatus::Live,
        r.ready == (if ready_for_clients(drain@, backend_health) {
            HealthStatus::Ready
        } else {
            HealthStatus::NotReady
        }),
        r.drain_state == drain@.state,
        r.active_clients == drain@.clients,
        r.backend_health == backend_health,
        r.ready is Ready <==> drain@.state is Accepting && backend_health is Ready,
        r.ready is Ready || r.ready is NotReady,
{
    let ready = drain.is_accepting() && backend_health == HealthStatus::Ready;
    HealthSnapshot {
        process: HealthStatus::Live,
        ready: if ready {
            HealthStatus::Ready
        } else {
            HealthStatus::NotReady
        },
        drain_state: drain.state(),
        active_clients: drain.active_clients(),
        backend_health,
    }
}

// ---------------------------------------------------------------------------
// Requests over HTTP
// ---------------------------------------------------------------------------

/// Whether the head of a request has ended: with an empty line.
pub open spec fn head_ended(bytes: Seq<u8>) -> bool {
    exists|i: int|
        0 <= i <= bytes.len() - 4 && #[trigger] bytes[i] == 13 && bytes[i + 1] == 10 && bytes[i + 2]
            == 13 && bytes[i + 3] == 10
}

/// Whether no more of a request is read: its head has ended, or it is too long.
pub fn request_complete(buffer: &Vec<u8>) -> (r: bool)
    ensures
        r == (head_ended(buffer@) || buffer@.len() > 8192),
{
    if buffer.len() > 8192 {
        return true;
    }
    let mut i: usize = 0;
    while i < buffer.len() && buffer.len() - i >= 4
        invariant
            i <= buffer@.len(),
            forall|k: int|
                0 <= k < i && k <= buffer@.len() - 4 ==> !(#[trigger] buffer@[k] == 13 && buffer@[k
                    + 1] == 10 && buffer@[k + 2] == 13 && buffer@[k + 3] == 10),
        decreases buffer@.len() - i,
    {
        if buffer[i] == 13 && buffer[i + 1] == 10 && buffer[i + 2] == 13 && buffer[i + 3] == 10 {
            assert(buffer@[i as int] == 13);
            return true;
        }
        i += 1;
    }
    false
}

/// The path that a request asks for: the second word of its first line, where the first is `GET`.
pub open spec fn requested_path(request: Seq<u8>) -> Option<Seq<char>> {
    match utf8_text(request) {
        None => None,
        Some(text) => if lines_of(text).len() == 0 {
            None
        } else {
            let parts = words_of(lines_of(text)[0]);
            if parts.len() >= 2 && parts[0] == "GET"@ {
                Some(parts[1])
            } else {
                None
            }
        },
    }
}

/// The path that a request asks for.
pub fn request_path(request: &[u8]) -> (r: Option<String>)
    ensures
        opt_text(r) == requested_path(request@),
{
    let text = match text_from_utf8(request) {
        Some(text) => text,
        None => {
            return None;
        },
    };
    let all = lines(text.as_str());
    assert(texts(all@).len() == all@.len());
    if all.is_empty() {
        return None;
    }
    assert(texts(all@)[0] == all@[0]@);
    let mut parts = words(all[0].as_str());
    let ghost model = texts(parts@);
    assert(model.len() == parts@.len());
    if parts.len() < 2 {
        return None;
    }
    assert(model[0] == parts@[0]@ && model[1] == parts@[1]@);
    if same_text(parts[0].as_str(), "GET") {
        Some(parts.remove(1))
    } else {
        None
    }
}

/// The words for a status.
pub open spec fn reason_phrase(status: u16) -> Seq<char> {
    if status == 404 {
        "Not Found"@
    } else if status == 503 {
        "Service Unavailable"@
    } else {
        "OK"@
    }
}

/// A response over HTTP.
pub open spec fn response_text(status: u16, content_type: Seq<char>, body: Seq<char>) -> Seq<char> {
    "HTTP/1.1 "@ + decimal(status as nat) + " "@ + reason_phrase(status) + "\r\nContent-Type: "@
        + content_type + "\r\nContent-Length: "@ + decimal(utf8_bytes(body).len())
        + "\r\nConnection: close\r\n\r\n"@ + body
}

/// Writes a response over HTTP.
pub fn response(status: u16, content_type: &str, body: &str) -> (r: Vec<u8>)
    ensures
        r@ == utf8_bytes(response_text(status, content_type@, body@)),
{
    let reason = if status == 404 {
        "Not Found"
    } else if status == 503 {
        "Service Unavailable"
    } else {
        "OK"
    };
    let number = u64_text(status as u64);
    let length = usize_text(body.as_bytes().len());
    let head = join5("HTTP/1.1 ", number.as_str(), " ", reason, "\r\nContent-Type: ");
    let typed = join3(head.as_str(), content_type, "\r\nContent-Length: ");
    let sized = join3(typed.as_str(), length.as_str(), "\r\nConnection: close\r\n\r\n");
    let whole = join2(sized.as_str(), body);
    vstd::slice::slice_to_vec(whole.as_str().as_bytes())
}

/// Writes a response of plain text.
pub fn text_response(status: u16, body: &str) -> (r: Vec<u8>)
    ensures
        r@ == utf8_bytes(response_text(status, "text/plain; charset=utf-8"@, body@)),
{
    response(status, "text/plain; charset=utf-8", body)
}

/// Writes a response of JSON.
pub fn json_response(status: u16, body: &str) -> (r: Vec<u8>)
    ensures
        r@ == utf8_bytes(response_text(status, "application/json; charset=utf-8"@, body@)),
{
    response(status, "application/json; charset=utf-8", body)
}

/// A report as JSON.
pub open spec fn snapshot_text(report: HealthSnapshot) -> Seq<char> {
    "{\"process\":\""@ + report.process.name() + "\",\"ready\":\""@ + report.ready.name()
        + "\",\"drain_state\":\""@ + report.drain_state.name() + "\",\"active_clients\":"@ + decimal(
        report.active_clients as nat,
    ) + ",\"backend_health\":\""@ + report.backend_health.name() + "\"}"@
}

/// Writes a report as JSON.
pub fn snapshot_body(report: &HealthSnapshot) -> (r: String)
    ensures
        r@ == snapshot_text(*report),
{
    let first = join4(
        "{\"process\":\"",
        report.process.as_str(),
        "\",\"ready\":\"",
        report.ready.as_str(),
    );
    let second = join3(first.as_str(), "\",\"drain_state\":\"", report.drain_state.as_str());
    let clients = usize_text(report.active_clients);
    let third = join3(second.as_str(), "\",\"active_clients\":", clients.as_str());
    join4(third.as_str(), ",\"backend_health\":\"", report.backend_health.as_str(), "\"}")
}

/// The response to a path.
pub open spec fn path_response(path: Seq<char>, report: HealthSnapshot) -> Seq<char> {
    let plain = "text/plain; charset=utf-8"@;
    if path == "/healthz"@ {
        response_text(200, plain, report.process.name())
    } else if path == "/readyz"@ {
        response_text(
            if report.ready == HealthStatus::Ready {
                200
            } else {
                503
            },
            plain,
            report.ready.name(),
        )
    } else if path == "/state"@ {
        response_text(200, "application/json; charset=utf-8"@, snapshot_text(report))
    } else {
        response_text(404, plain, "not_found"@)
    }
}

/// Answers a request: for the process, for its readiness, or for the whole report.
pub fn respond_to(request: &[u8], report: &HealthSnapshot) -> (r: Vec<u8>)
    ensures
        r@ == utf8_bytes(
            path_response(
                match requested_path(request@) {
                    Some(path) => path,
                    None => "/"@,
                },
                *report,
            ),
        ),
{
    let path = match request_path(request) {
        Some(path) => path,
        None => "/".to_owned(),
    };
    if same_text(path.as_str(), "/healthz") {
        text_response(200, report.process.as_str())
    } else if same_text(path.as_str(), "/readyz") {
        if report.ready == HealthStatus::Ready {
            text_response(200, report.ready.as_str())
        } else {
            text_response(503, report.ready.as_str())
        }
    } else if same_text(path.as_str(), "/state") {
        json_response(200, snapshot_body(report).as_str())
    } else {
        text_response(404, "not_found")
    }
}

// ---------------------------------------------------------------------------
// The watch over a server
// ---------------------------------------------------------------------------

/// After so many failures in a row a server counts as gone.
pub const UNAVAILABLE_FAILURE_THRESHOLD: u32 = 3;

/// That a server is not what it should be.
#[derive(Clone, Copy, Debug, PartialEq, Eq, Structural)]
pub struct SplitBrainWarning {
    pub expected: BackendRole,
    pub observed: BackendRole,
}

/// How a server is doing, and how often in a row it failed.
#[derive(Clone, Copy, Debug, PartialEq, Eq, Structural)]
pub struct HealthProbeOutcome {
    pub state: EndpointHealth,
    pub recovered: bool,
    pub consecutive_failures: u32,
}

/// Whether a server is what it should be.
#[derive(Clone, Copy, Debug, PartialEq, Eq, Structural)]
pub struct RoleProbeOutcome {
    pub state: EndpointRoleState,
    pub warning: Option<SplitBrainWarning>,
}

/// What is known of a server.
#[derive(Clone, Debug, PartialEq, Eq)]
pub struct EndpointHealthSnapshot {
    pub endpoint_id: u64,
    pub endpoint_addr: SocketAddress,
    pub expected_role: BackendRole,
    pub health: HealthProbeOutcome,
    pub role: RoleProbeOutcome,
    pub lag_state: ReplicaLagState,
    pub last_error: Option<String>,
}

/// What is known of a server, as plain values.
pub struct EndpointFacts {
    pub id: u64,
    pub address: SocketAddress,
    pub expected: BackendRole,
    pub health: HealthProbeOutcome,
    pub role: RoleProbeOutcome,
    pub lag: ReplicaLagState,
    pub error: Option<Seq<char>>,
}

impl View for EndpointHealthSnapshot {
    type V = EndpointFacts;

    open spec fn view(&self) -> EndpointFacts {
        EndpointFacts {
            id: self.endpoint_id,
            address: self.endpoint_addr,
            expected: self.expected_role,
            health: self.health,
            role: self.role,
            lag: self.lag_state,
            error: opt_text(self.last_error),
        }
    }
}

impl EndpointHealthSnapshot {
    /// A server that was not looked at yet.
    pub fn new(endpoint_id: u64, endpoint_addr: SocketAddress, expected_role: BackendRole) -> (r:
        EndpointHealthSnapshot)
        ensures
            r@ == (EndpointFacts {
                id: endpoint_id,
                address: endpoint_addr,
                expected: expected_role,
                health: HealthProbeOutcome {
                    state: EndpointHealth::Unhealthy,
                    recovered: false,
                    consecutive_failures: 0,
                },
                role: RoleProbeOutcome { state: EndpointRoleState::Unknown, warning: None },
                lag: ReplicaLagState::Unknown,
                error: None,
            }),
    {
        EndpointHealthSnapshot {
            endpoint_id,
            endpoint_addr,
            expected_role,
            health: HealthProbeOutcome {
                state: EndpointHealth::Unhealthy,
                recovered: false,
                consecutive_failures: 0,
            },
            role: RoleProbeOutcome { state: EndpointRoleState::Unknown, warning: None },
            lag_state: ReplicaLagState::Unknown,
            last_error: None,
        }
    }
}

/// How a look at a server ended.
#[derive(Clone, Debug)]
pub enum ProbeOutcome {
    /// The server said what it is.
    Observed(BackendRole),
    /// The look failed.
    Failed { error: String },
    /// The look took too long.
    TimedOut,
}

/// Whether a server is what it should be: its role where it is, and a warning where it is not.
pub open spec fn role_judgement(expected: BackendRole, observed: BackendRole) -> RoleProbeOutcome {
    if expected == observed {
        RoleProbeOutcome {
            state: match observed {
                BackendRole::Primary => EndpointRoleState::Primary,
                BackendRole::Replica => EndpointRoleState::Replica,
                BackendRole::Unknown => EndpointRoleState::Unknown,
            },
            warning: None,
        }
    } else {
        RoleProbeOutcome {
            state: EndpointRoleState::Warning,
            warning: Some(SplitBrainWarning { expected, observed }),
        }
    }
}

/// Whether a server is what it should be.
pub fn role_outcome(expected_role: BackendRole, observed_role: BackendRole) -> (r: RoleProbeOutcome)
    ensures
        r == role_judgement(expected_role, observed_role),
{
    if expected_role == observed_role {
        let state = match observed_role {
            BackendRole::Primary => EndpointRoleState::Primary,
            BackendRole::Replica => EndpointRoleState::Replica,
            BackendRole::Unknown => EndpointRoleState::Unknown,
        };
        return RoleProbeOutcome { state, warning: None };
    }
    RoleProbeOutcome {
        state: EndpointRoleState::Warning,
        warning: Some(SplitBrainWarning { expected: expected_role, observed: observed_role }),
    }
}

/// One more failure in a row, as far as they can be counted.
pub open spec fn one_more_failure(count: u32) -> u32 {
    if count < u32::MAX {
        (count + 1) as u32
    } else {
        count
    }
}

/// What is known of a server after a look that failed, for a reason or by its time.
pub open spec fn after_failure(
    previous: EndpointFacts,
    below: EndpointHealth,
    error: Seq<char>,
) -> EndpointFacts {
    let failures = one_more_failure(previous.health.consecutive_failures);
    EndpointFacts {
        health: HealthProbeOutcome {
            state: if failures >= UNAVAILABLE_FAILURE_THRESHOLD {
                EndpointHealth::Unavailable
            } else {
                below
            },
            recovered: false,
            consecutive_failures: failures,
        },
        role: RoleProbeOutcome { state: EndpointRoleState::Unknown, warning: None },
        lag: ReplicaLagState::Unknown,
        error: Some(error),
        ..previous
    }
}

/// What is known of a server after a look at it.
pub open spec fn after_probe(
    previous: EndpointFacts,
    expected: BackendRole,
    outcome: ProbeOutcome,
) -> EndpointFacts {
    match outcome {
        ProbeOutcome::Observed(observed) => EndpointFacts {
            health: HealthProbeOutcome {
                state: EndpointHealth::Healthy,
                recovered: previous.health.state != EndpointHealth::Healthy,
                consecutive_failures: 0,
            },
            role: role_judgement(expected, observed),
            lag: ReplicaLagState::Unknown,
            error: None,
            ..previous
        },
        ProbeOutcome::Failed { error } => after_failure(
            previous,
            EndpointHealth::Unhealthy,
            error@,
        ),
        ProbeOutcome::TimedOut => after_failure(
            previous,
            EndpointHealth::Degraded,
            "probe timed out"@,
        ),
    }
}

/// What is known of a server after a look at it.
pub fn probe_once(
    previous: &EndpointHealthSnapshot,
    expected_role: BackendRole,
    outcome: ProbeOutcome,
) -> (r: EndpointHealthSnapshot)
    ensures
        r@ == after_probe(previous@, expected_role, outcome),
{
    let unknown = RoleProbeOutcome { state: EndpointRoleState::Unknown, warning: None };
    let failures: u32 = previous.health.consecutive_failures.saturating_add(1);
    let (health, role, last_error) = match outcome {
        ProbeOutcome::Observed(observed) => (
            HealthProbeOutcome {
                state: EndpointHealth::Healthy,
                recovered: previous.health.state != EndpointHealth::Healthy,
                consecutive_failures: 0,
            },
            role_outcome(expected_role, observed),
            None,
        ),
        ProbeOutcome::Failed { error } => (
            HealthProbeOutcome {
                state: if failures >= UNAVAILABLE_FAILURE_THRESHOLD {
                    EndpointHealth::Unavailable
                } else {
                    EndpointHealth::Unhealthy
                },
                recovered: false,
                consecutive_failures: failures,
            },
            unknown,
            Some(error),
        ),
        ProbeOutcome::TimedOut => (
            HealthProbeOutcome {
                state: if failures >= UNAVAILABLE_FAILURE_THRESHOLD {
                    EndpointHealth::Unavailable
                } else {
                    EndpointHealth::Degraded
                },
                recovered: false,
                consecutive_failures: failures,
            },
            unknown,
            Some("probe timed out".to_owned()),
        ),
    };
    EndpointHealthSnapshot {
        endpoint_id: previous.endpoint_id,
        endpoint_addr: previous.endpoint_addr,
        expected_role: previous.expected_role,
        health,
        role,
        lag_state: ReplicaLagState::Unknown,
        last_error,
    }
}

/// By how much the time between two looks is drawn out: twice as long after each failure in a
/// row but the first, up to sixteen times.
pub open spec fn backoff_factor(health: HealthProbeOutcome) -> u32 {
    if health.state == EndpointHealth::Healthy || health.consecutive_failures <= 1 {
        1
    } else if health.consecutive_failures == 2 {
        2
    } else if health.consecutive_failures == 3 {
        4
    } else if health.consecutive_failures == 4 {
        8
    } else {
        16
    }
}

/// How long the next look at a server waits.
pub fn backoff_delay(health: &HealthProbeOutcome, probe_interval: Duration) -> (r: Duration)
    ensures
        r@ == if probe_interval@ * backoff_factor(*health) <= u128::MAX {
            (probe_interval@ * backoff_factor(*health)) as nat
        } else {
            u128::MAX as nat
        },
{
    let factor: u32 = if health.state == EndpointHealth::Healthy || health.consecutive_failures
        <= 1 {
        1
    } else if health.consecutive_failures == 2 {
        2
    } else if health.consecutive_failures == 3 {
        4
    } else if health.consecutive_failures == 4 {
        8
    } else {
        16
    };
    probe_interval.times(factor)
}

/// The time between two looks is drawn out at most sixteen times, and is that of a healthy server
/// as soon as one look succeeds.
pub proof fn law_backoff_bounded(
    health: HealthProbeOutcome,
    previous: EndpointFacts,
    expected: BackendRole,
    observed: BackendRole,
)
    ensures
        1 <= backoff_factor(health) <= 16,
        backoff_factor(after_probe(previous, expected, ProbeOutcome::Observed(observed)).health)
            == 1,
{
}

/// Three failures in a row make a server unavailable, whatever they were.
pub proof fn law_three_failures_unavailable(
    start: EndpointFacts,
    expected: BackendRole,
    a: ProbeOutcome,
    b: ProbeOutcome,
    c: ProbeOutcome,
)
    requires
        !(a is Observed),
        !(b is Observed),
        !(c is Observed),
    ensures
        after_probe(
            after_probe(after_probe(start, expected, a), expected, b),
            expected,
            c,
        ).health.state == EndpointHealth::Unavailable,
{
}

/// One look that succeeds makes a server healthy again.
pub proof fn law_one_success_heals(
    start: EndpointFacts,
    expected: BackendRole,
    observed: BackendRole,
)
    ensures
        after_probe(start, expected, ProbeOutcome::Observed(observed)).health.state
            == EndpointHealth::Healthy,
        after_probe(start, expected, ProbeOutcome::Observed(observed)).error is None,
{
}

// ---------------------------------------------------------------------------
// Asking a server what it is
// ---------------------------------------------------------------------------

/// Whether the first value of a row can be read: a row that has columns has a length for the
/// first.
pub open spec fn row_readable(payload: Seq<u8>) -> bool {
    payload.len() >= 2 && be16_at(payload, 0) > 0 ==> payload.len() >= 6
}

/// Whether the first value of a row can be read.
pub fn probe_row_readable(payload: &[u8]) -> (r: bool)
    ensures
        r == row_readable(payload@),
{
    !(payload.len() >= 2 && read_be16(payload, 0) > 0) || payload.len() >= 6
}

/// The first value of a row, where it has one.
pub open spec fn first_value(payload: Seq<u8>) -> Result<Option<Seq<char>>, Seq<char>> {
    if payload.len() < 2 || be16_at(payload, 0) <= 0 {
        Ok(None)
    } else {
        let length = be_at(payload, 2);
        if length < 0 || payload.len() - 6 < length {
            Ok(None)
        } else {
            match utf8_text(payload.subrange(6, 6 + length)) {
                Some(text) => Ok(Some(text)),
                None => Err("probe row is not utf8"@),
            }
        }
    }
}

/// Whether an optional text says what a spec result says.
pub open spec fn value_says(
    r: Result<Option<String>, String>,
    model: Result<Option<Seq<char>>, Seq<char>>,
) -> bool {
    match (r, model) {
        (Ok(value), Ok(expected)) => opt_text(value) == expected,
        (Err(error), Err(expected)) => error@ == expected,
        _ => false,
    }
}

/// Reads the first value of a row.
pub fn parse_probe_row(payload: &[u8]) -> (r: Result<Option<String>, String>)
    requires
        row_readable(payload@),
    ensures
        value_says(r, first_value(payload@)),
{
    if payload.len() < 2 {
        return Ok(None);
    }
    let columns: i16 = read_be16(payload, 0);
    if columns <= 0 {
        return Ok(None);
    }
    let length: i32 = read_be32(payload, 2);
    if length < 0 || payload.len() - 6 < length as usize {
        return Ok(None);
    }
    match text_from_utf8(vstd::slice::slice_subrange(payload, 6, 6 + length as usize)) {
        Some(text) => Ok(Some(text)),
        None => Err("probe row is not utf8".to_owned()),
    }
}

/// How an answer goes on after a frame.
#[derive(Clone, Copy, Debug, PartialEq, Eq, Structural)]
pub enum ProbeStep {
    Wait,
    Done,
}

/// Takes in a frame of an answer. The first value that a row gives is kept.
pub fn probe_frame(frame: &BackendFrame, row_value: &mut Option<String>) -> (r: Result<
    ProbeStep,
    String,
>)
    requires
        frame@.tag == BackendTag::DataRow.byte() && *old(row_value) is None ==> row_readable(
            frame@.payload,
        ),
    ensures
        ({
            let tag = frame@.tag;
            if tag == BackendTag::DataRow.byte() && *old(row_value) is None {
                match first_value(frame@.payload) {
                    Ok(value) => r == Ok::<ProbeStep, String>(ProbeStep::Wait) && opt_text(
                        *final(row_value),
                    ) == value,
                    Err(expected) => (r matches Err(error) && error@ == expected)
                        && *final(row_value) is None,
                }
            } else {
                &&& *final(row_value) == *old(row_value)
                &&& if tag == BackendTag::ErrorResponse.byte() {
                    r matches Err(error) && error@ == "endpoint returned error during probe"@
                } else if tag == BackendTag::ReadyForQuery.byte() {
                    r == Ok::<ProbeStep, String>(ProbeStep::Done)
                } else {
                    r == Ok::<ProbeStep, String>(ProbeStep::Wait)
                }
            }
        }),
        r matches Ok(ProbeStep::Done) ==> frame@.tag == 90u8,
        frame@.tag == 69u8 ==> r is Err,
{
    let tag: u8 = frame.tag;
    if tag == BackendTag::DataRow.as_byte() {
        if row_value.is_none() {
            match parse_probe_row(frozen_slice(&frame.payload)) {
                Ok(value) => {
                    *row_value = value;
                },
                Err(error) => {
                    return Err(error);
                },
            }
        }
        Ok(ProbeStep::Wait)
    } else if tag == BackendTag::ErrorResponse.as_byte() {
        Err("endpoint returned error during probe".to_owned())
    } else if tag == BackendTag::ReadyForQuery.as_byte() {
        Ok(ProbeStep::Done)
    } else {
        Ok(ProbeStep::Wait)
    }
}

/// What a server is, by its answer to whether it is in recovery.
pub open spec fn role_of_answer(value: Option<Seq<char>>) -> Result<BackendRole, Seq<char>> {
    match value {
        None => Err("pg_is_in_recovery() returned no rows"@),
        Some(text) => if text == "t"@ || text == "true"@ || text == "1"@ {
            Ok(BackendRole::Replica)
        } else if text == "f"@ || text == "false"@ || text == "0"@ {
            Ok(BackendRole::Primary)
        } else {
            Err("unexpected pg_is_in_recovery() result: "@ + text)
        },
    }
}

/// What a server is, by its answer to whether it is in recovery.
pub fn observed_role(value: &Option<String>) -> (r: Result<BackendRole, String>)
    ensures
        match (r, role_of_answer(opt_text(*value))) {
            (Ok(role), Ok(expected)) => role == expected,
            (Err(error), Err(expected)) => error@ == expected,
            _ => false,
        },
{
    match value {
        None => Err("pg_is_in_recovery() returned no rows".to_owned()),
        Some(text) => {
            let text = text.as_str();
            if same_text(text, "t") || same_text(text, "true") || same_text(text, "1") {
                Ok(BackendRole::Replica)
            } else if same_text(text, "f") || same_text(text, "false") || same_text(text, "0") {
                Ok(BackendRole::Primary)
            } else {
                Err(join2("unexpected pg_is_in_recovery() result: ", text))
            }
        },
    }
}

/// The startup packet of a look at a server.
pub fn startup_packet(user: &str, database: &str) -> (r: bytes::BytesMut)
    ensures
        buffer_bytes(r) == startup_bytes(
            parameter_bytes("user"@, user@) + parameter_bytes("database"@, database@)
                + parameter_bytes("application_name"@, "pg-kinetic-health"@),
        ),
{
    let mut parameters = new_buffer();
    put_parameter(&mut parameters, "user", user);
    put_parameter(&mut parameters, "database", database);
    put_parameter(&mut parameters, "application_name", "pg-kinetic-health");
    assert(buffer_bytes(parameters) =~= parameter_bytes("user"@, user@) + parameter_bytes(
        "database"@,
        database@,
    ) + parameter_bytes("application_name"@, "pg-kinetic-health"@));
    startup_packet_of(&parameters)
}

/// The query message of a text.
pub fn simple_query_packet(sql: &str) -> (r: bytes::BytesMut)
    ensures
        buffer_bytes(r) == (Frame {
            tag: FrontendTag::Query.byte(),
            payload: utf8_bytes(sql@).push(0u8),
        }).encoded(),
{
    encode_query_message(sql)
}

/// The proxy is ready for clients exactly while it accepts them and its server is ready.
pub proof fn law_ready_exactly_where(drain: DrainProgress, backend: HealthStatus)
    ensures
        ready_for_clients(drain, backend) <==> drain.state is Accepting && backend is Ready,
{
}

/// What a probe that reached a server says: the server is healthy, has recovered where it was not
/// before, and has the role that it showed; a role that was not expected is warned of.
pub proof fn law_probe_reads_role(
    previous: EndpointFacts,
    expected: BackendRole,
    observed: BackendRole,
)
    ensures
        ({
            let next = after_probe(previous, expected, ProbeOutcome::Observed(observed));
            &&& next.id == previous.id
            &&& next.address == previous.address
            &&& next.expected == previous.expected
            &&& next.health.state is Healthy
            &&& next.health.recovered <==> !(previous.health.state is Healthy)
            &&& next.health.consecutive_failures == 0
            &&& next.error is None
            &&& next.lag is Unknown
            &&& expected != observed ==> next.role.state is Warning && next.role.warning == Some(
                SplitBrainWarning { expected, observed },
            )
            &&& expected == observed ==> next.role.warning is None
            &&& expected == observed && observed is Primary ==> next.role.state is Primary
            &&& expected == observed && observed is Replica ==> next.role.state is Replica
            &&& expected == observed && observed is Unknown ==> next.role.state is Unknown
        }),
{
}

/// What a probe that failed says: one failure more, and a server that is unavailable from the third
/// failure on. Before that it is unhealthy where it failed and degraded where it took too long.
pub proof fn law_failures_add_up(previous: EndpointFacts, expected: BackendRole, error: String)
    ensures
        ({
            let failed = after_probe(previous, expected, ProbeOutcome::Failed { error });
            let late = after_probe(previous, expected, ProbeOutcome::TimedOut);
            let count = previous.health.consecutive_failures;
            &&& count < u32::MAX ==> failed.health.consecutive_failures == count + 1
                && late.health.consecutive_failures == count + 1
            &&& failed.health.state is Unavailable <==> count >= 2
            &&& late.health.state is Unavailable <==> count >= 2
            &&& count < 2 ==> failed.health.state is Unhealthy && late.health.state is Degraded
            &&& !failed.health.recovered && !late.health.recovered
            &&& failed.error == Some(error@)
            &&& late.error == Some("probe timed out"@)
            &&& failed.role.state is Unknown && failed.role.warning is None
            &&& late.role.state is Unknown && late.role.warning is None
            &&& failed.id == previous.id && late.id == previous.id
            &&& failed.address == previous.address && late.address == previous.address
        }),
{
}

/// The pause between probes doubles with each failure after the first, up to sixteen times, and a
/// healthy server is probed without one.
pub proof fn law_backoff_doubles(health: HealthProbeOutcome, more: HealthProbeOutcome)
    requires
        !(health.state is Healthy),
        !(more.state is Healthy),
        health.consecutive_failures < u32::MAX,
        more.consecutive_failures == health.consecutive_failures + 1,
    ensures
        1 <= health.consecutive_failures < 5 ==> backoff_factor(more) == 2 * backoff_factor(health),
        health.consecutive_failures >= 5 ==> backoff_factor(more) == 16 && backoff_factor(health)
            == 16,
        health.consecutive_failures <= 1 ==> backoff_factor(health) == 1,
{
}

/// A healthy server is probed at the plain interval, whatever was counted.
pub proof fn law_healthy_waits_once(health: HealthProbeOutcome)
    requires
        health.state is Healthy,
    ensures
        backoff_factor(health) == 1,
{
}

/// What each page of the health endpoint answers: its own state, 200 or 503 by whether clients are
/// served, the state as JSON, and 404 for anything else.
pub proof fn law_pages_answer(path: Seq<char>, report: HealthSnapshot)
    ensures
        path == "/healthz"@ ==> path_response(path, report) == response_text(
            200,
            "text/plain; charset=utf-8"@,
            report.process.name(),
        ),
        path == "/readyz"@ && report.ready is Ready ==> path_response(path, report)
            == response_text(200, "text/plain; charset=utf-8"@, "ready"@),
        path == "/readyz"@ && !(report.ready is Ready) ==> path_response(path, report)
            == response_text(503, "text/plain; charset=utf-8"@, report.ready.name()),
        path == "/state"@ ==> path_response(path, report) == response_text(
            200,
            "application/json; charset=utf-8"@,
            snapshot_text(report),
        ),
        path != "/healthz"@ && path != "/readyz"@ && path != "/state"@ ==> path_response(
            path,
            report,
        ) == response_text(404, "text/plain; charset=utf-8"@, "not_found"@),
{
    reveal_strlit("/healthz");
    reveal_strlit("/readyz");
    reveal_strlit("/state");
    assert("/healthz"@.len() == 8 && "/readyz"@.len() == 7 && "/state"@.len() == 6);
}

/// A server in recovery is a replica, and one that is not is the primary, in each way that the
/// answer is written; any other answer says nothing.
pub proof fn law_recovery_means_replica(text: Seq<char>)
    ensures
        role_of_answer(Some(text)) == Ok::<BackendRole, Seq<char>>(BackendRole::Replica) <==> (text
            == seq!['t'] || text == "true"@ || text == seq!['1']),
        role_of_answer(Some(text)) == Ok::<BackendRole, Seq<char>>(BackendRole::Primary) <==> (text
            == seq!['f'] || text == "false"@ || text == seq!['0']),
        role_of_answer(None) is Err,
{
    reveal_strlit("t");
    reveal_strlit("1");
    reveal_strlit("f");
    reveal_strlit("0");
    reveal_strlit("true");
    reveal_strlit("false");
    assert("t"@ =~= seq!['t']);
    assert("1"@ =~= seq!['1']);
    assert("f"@ =~= seq!['f']);
    assert("0"@ =~= seq!['0']);
    assert("t"@[0] == 't' && "1"@[0] == '1' && "f"@[0] == 'f' && "0"@[0] == '0');
    assert("true"@.len() == 4 && "false"@.len() == 5);
}

/// A request asks for the second word of its first line, where its first word is `GET`.
pub proof fn law_path_of_request(request: Seq<u8>, path: Seq<char>)
    ensures
        requested_path(request) == Some(path) ==> {
            &&& utf8_text(request) is Some
            &&& lines_of(utf8_text(request)->0).len() > 0
            &&& words_of(lines_of(utf8_text(request)->0)[0]).len() >= 2
            &&& words_of(lines_of(utf8_text(request)->0)[0])[0] == "GET"@
            &&& words_of(lines_of(utf8_text(request)->0)[0])[1] == path
        },
        utf8_text(request) is Some && lines_of(utf8_text(request)->0).len() > 0 && words_of(
            lines_of(utf8_text(request)->0)[0],
        ).len() >= 2 && words_of(lines_of(utf8_text(request)->0)[0])[0] == "GET"@
            ==> requested_path(request) is Some,
{
}

/// An answer says how it went, what it holds and how long that is, and closes the connection.
pub proof fn law_response_head(status: u16, content_type: Seq<char>, body: Seq<char>)
    ensures
        status == 200 ==> response_text(status, content_type, body) == "HTTP/1.1 "@ + decimal(200)
            + " "@ + "OK"@ + "\r\nContent-Type: "@ + content_type + "\r\nContent-Length: "@ + decimal(
            utf8_bytes(body).len(),
        ) + "\r\nConnection: close\r\n\r\n"@ + body,
        status == 404 ==> reason_phrase(status) == "Not Found"@,
        status == 503 ==> reason_phrase(status) == "Service Unavailable"@,
        status != 404 && status != 503 ==> reason_phrase(status) == "OK"@,
{
}

/// The first value of a row is what stands behind its length, and nothing where there is none.
pub proof fn law_first_value_of_row(payload: Seq<u8>)
    requires
        payload.len() >= 6,
        be16_at(payload, 0) > 0,
    ensures
        ({
            let length = be_at(payload, 2);
            &&& length < 0 || payload.len() < 6 + length ==> first_value(payload) == Ok::<
                Option<Seq<char>>,
                Seq<char>,
            >(None)
            &&& 0 <= length <= payload.len() - 6 && utf8_text(
                payload.subrange(6, 6 + length),
            ) is Some ==> first_value(payload) == Ok::<Option<Seq<char>>, Seq<char>>(
                utf8_text(payload.subrange(6, 6 + length)),
            )
        }),
{
}

/// What the proxy says of itself: that it lives, whether it is ready, whether it drains, how many
/// clients it has and how its server is.
pub proof fn law_state_is_told(report: HealthSnapshot)
    ensures
        snapshot_text(report) == "{\"process\":\""@ + report.process.name() + "\",\"ready\":\""@
            + report.ready.name() + "\",\"drain_state\":\""@ + report.drain_state.name()
            + "\",\"active_clients\":"@ + decimal(report.active_clients as nat)
            + ",\"backend_health\":\""@ + report.backend_health.name() + "\"}"@,
{
}

} // verus!
