//! Metrics: under which labels things are counted, and what is counted when.
use vstd::prelude::*;

use crate::benchmark::PerformanceBudgetOutcome;
use crate::double::Double;
use crate::health::{BackendRole, EndpointHealth, ReplicaLagState};
use crate::modes::{FallbackPolicy, PolicyHookPoint, PolicyMode};
use crate::policy::{FreshnessStatus, PolicyAction, PolicyAuditEvent};
use crate::routing::{QueryClass, RoutingReason, RoutingTarget};
use crate::runtime::{ReadinessState, RuntimeLifecycleState};
use crate::security::{AuthMode, BackendTlsMode, ClientTlsMode, DrainState, HealthStatus};
use crate::snapshot::{
    MirrorSummarySnapshot, PoolSnapshot, RouteCheckoutSnapshot, RouteMapReloadSnapshot,
    ServerSnapshot, ShardLifecycleState, ShardMigrationSafetySnapshot,
};
use crate::snapshot_store::{SnapshotStore, StoreFacts};
use crate::text::{decimal, join2, opt_or, same_text, text_or, u64_text, utf8_bytes};

verus! {

/// How many phases of the protocol are timed.
pub const PROTOCOL_PHASE_COUNT: usize = 12;

/// How many ways there are in which a phase can end.
pub const METRIC_OUTCOME_COUNT: usize = 6;


/// The metrics on how the proxy is run.
#[derive(Clone, Copy, Debug, PartialEq, Eq, Structural)]
pub enum OperationalMetricName {
    TlsHandshakesTotal,
    TlsFailuresTotal,
    AuthAttemptsTotal,
    AuthFailuresTotal,
    ConfigReloadTotal,
    DrainState,
    HealthStatus,
    SocketOptionTotal,
}

impl OperationalMetricName {
    /// The name under which the value is written.
    pub open spec fn name(self) -> Seq<char> {
        match self {
            OperationalMetricName::TlsHandshakesTotal => "pg_kinetic_tls_handshakes_total"@,
            OperationalMetricName::TlsFailuresTotal => "pg_kinetic_tls_failures_total"@,
            OperationalMetricName::AuthAttemptsTotal => "pg_kinetic_auth_attempts_total"@,
            OperationalMetricName::AuthFailuresTotal => "pg_kinetic_auth_failures_total"@,
            OperationalMetricName::ConfigReloadTotal => "pg_kinetic_config_reload_total"@,
            OperationalMetricName::DrainState => "pg_kinetic_drain_state"@,
            OperationalMetricName::HealthStatus => "pg_kinetic_health_status"@,
            OperationalMetricName::SocketOptionTotal => "pg_kinetic_socket_option_total"@,
        }
    }

    /// The name under which the value is written.
    pub fn as_str(self) -> (r: &'static str)
        ensures
            r@ == self.name(),
    {
        match self {
            OperationalMetricName::TlsHandshakesTotal => "pg_kinetic_tls_handshakes_total",
            OperationalMetricName::TlsFailuresTotal => "pg_kinetic_tls_failures_total",
            OperationalMetricName::AuthAttemptsTotal => "pg_kinetic_auth_attempts_total",
            OperationalMetricName::AuthFailuresTotal => "pg_kinetic_auth_failures_total",
            OperationalMetricName::ConfigReloadTotal => "pg_kinetic_config_reload_total",
            OperationalMetricName::DrainState => "pg_kinetic_drain_state",
            OperationalMetricName::HealthStatus => "pg_kinetic_health_status",
            OperationalMetricName::SocketOptionTotal => "pg_kinetic_socket_option_total",
        }
    }

    /// What each value is written as.
    pub proof fn law_written_as(self)
        ensures
            self is TlsHandshakesTotal ==> self.name() == "pg_kinetic_tls_handshakes_total"@,
            self is TlsFailuresTotal ==> self.name() == "pg_kinetic_tls_failures_total"@,
            self is AuthAttemptsTotal ==> self.name() == "pg_kinetic_auth_attempts_total"@,
            self is AuthFailuresTotal ==> self.name() == "pg_kinetic_auth_failures_total"@,
            self is ConfigReloadTotal ==> self.name() == "pg_kinetic_config_reload_total"@,
            self is DrainState ==> self.name() == "pg_kinetic_drain_state"@,
            self is HealthStatus ==> self.name() == "pg_kinetic_health_status"@,
            self is SocketOptionTotal ==> self.name() == "pg_kinetic_socket_option_total"@,
    {
    }

    /// No two values have the same name.
    pub proof fn law_names_differ(a: OperationalMetricName, b: OperationalMetricName)
        requires
            a.name() == b.name(),
        ensures
            a == b,
    {
        reveal_strlit("pg_kinetic_tls_handshakes_total");
        reveal_strlit("pg_kinetic_tls_failures_total");
        reveal_strlit("pg_kinetic_auth_attempts_total");
        reveal_strlit("pg_kinetic_auth_failures_total");
        reveal_strlit("pg_kinetic_config_reload_total");
        reveal_strlit("pg_kinetic_drain_state");
        reveal_strlit("pg_kinetic_health_status");
        reveal_strlit("pg_kinetic_socket_option_total");
        assert("pg_kinetic_tls_handshakes_total"@.len() == 31 && "pg_kinetic_tls_handshakes_total"@[16] == 'a');
        assert("pg_kinetic_tls_failures_total"@.len() == 29 && "pg_kinetic_tls_failures_total"@[16] == 'a');
        assert("pg_kinetic_auth_attempts_total"@.len() == 30 && "pg_kinetic_auth_attempts_total"@[16] == 'a');
        assert("pg_kinetic_auth_failures_total"@.len() == 30 && "pg_kinetic_auth_failures_total"@[16] == 'f');
        assert("pg_kinetic_config_reload_total"@.len() == 30 && "pg_kinetic_config_reload_total"@[16] == 'g');
        assert("pg_kinetic_drain_state"@.len() == 22 && "pg_kinetic_drain_state"@[16] == '_');
        assert("pg_kinetic_health_status"@.len() == 24 && "pg_kinetic_health_status"@[16] == 'h');
        assert("pg_kinetic_socket_option_total"@.len() == 30 && "pg_kinetic_socket_option_total"@[16] == 't');
    }
}

/// Which side of the proxy TLS is spoken on.
#[derive(Clone, Copy, Debug, PartialEq, Eq, Structural)]
pub enum TlsScope {
    Client,
    Backend,
}

impl TlsScope {
    /// The name under which the value is written.
    pub open spec fn name(self) -> Seq<char> {
        match self {
            TlsScope::Client => "client"@,
            TlsScope::Backend => "backend"@,
        }
    }

    /// The name under which the value is written.
    pub fn as_str(self) -> (r: &'static str)
        ensures
            r@ == self.name(),
    {
        match self {
            TlsScope::Client => "client",
            TlsScope::Backend => "backend",
        }
    }

    /// What each value is written as.
    pub proof fn law_written_as(self)
        ensures
            self is Client ==> self.name() == "client"@,
            self is Backend ==> self.name() == "backend"@,
    {
    }

    /// No two values have the same name.
    pub proof fn law_names_differ(a: TlsScope, b: TlsScope)
        requires
            a.name() == b.name(),
        ensures
            a == b,
    {
        reveal_strlit("client");
        reveal_strlit("backend");
        assert("client"@.len() == 6);
        assert("backend"@.len() == 7);
    }
}

/// Why TLS could not be spoken.
#[derive(Clone, Copy, Debug, PartialEq, Eq, Structural)]
pub enum TlsFailureReason {
    Denied,
    HandshakeError,
    VerificationFailed,
    IoError,
}

impl TlsFailureReason {
    /// The name under which the value is written.
    pub open spec fn name(self) -> Seq<char> {
        match self {
            TlsFailureReason::Denied => "denied"@,
            TlsFailureReason::HandshakeError => "handshake_error"@,
            TlsFailureReason::VerificationFailed => "verification_failed"@,
            TlsFailureReason::IoError => "io_error"@,
        }
    }

    /// The name under which the value is written.
    pub fn as_str(self) -> (r: &'static str)
        ensures
            r@ == self.name(),
    {
        match self {
            TlsFailureReason::Denied => "denied",
            TlsFailureReason::HandshakeError => "handshake_error",
            TlsFailureReason::VerificationFailed => "verification_failed",
            TlsFailureReason::IoError => "io_error",
        }
    }

    /// What each value is written as.
    pub proof fn law_written_as(self)
        ensures
            self is Denied ==> self.name() == "denied"@,
            self is HandshakeError ==> self.name() == "handshake_error"@,
            self is VerificationFailed ==> self.name() == "verification_failed"@,
            self is IoError ==> self.name() == "io_error"@,
    {
    }

    /// No two values have the same name.
    pub proof fn law_names_differ(a: TlsFailureReason, b: TlsFailureReason)
        requires
            a.name() == b.name(),
        ensures
            a == b,
    {
        reveal_strlit("denied");
        reveal_strlit("handshake_error");
        reveal_strlit("verification_failed");
        reveal_strlit("io_error");
        assert("denied"@.len() == 6);
        assert("handshake_error"@.len() == 15);
        assert("verification_failed"@.len() == 19);
        assert("io_error"@.len() == 8);
    }
}

/// Why a client was not let in.
#[derive(Clone, Copy, Debug, PartialEq, Eq, Structural)]
pub enum AuthFailureReason {
    UnknownUser,
    PasswordRequired,
    InvalidPassword,
    ProtocolError,
    IoError,
}

impl AuthFailureReason {
    /// The name under which the value is written.
    pub open spec fn name(self) -> Seq<char> {
        match self {
            AuthFailureReason::UnknownUser => "unknown_user"@,
            AuthFailureReason::PasswordRequired => "password_required"@,
            AuthFailureReason::InvalidPassword => "invalid_password"@,
            AuthFailureReason::ProtocolError => "protocol_error"@,
            AuthFailureReason::IoError => "io_error"@,
        }
    }

    /// The name under which the value is written.
    pub fn as_str(self) -> (r: &'static str)
        ensures
            r@ == self.name(),
    {
        match self {
            AuthFailureReason::UnknownUser => "unknown_user",
            AuthFailureReason::PasswordRequired => "password_required",
            AuthFailureReason::InvalidPassword => "invalid_password",
            AuthFailureReason::ProtocolError => "protocol_error",
            AuthFailureReason::IoError => "io_error",
        }
    }

    /// What each value is written as.
    pub proof fn law_written_as(self)
        ensures
            self is UnknownUser ==> self.name() == "unknown_user"@,
            self is PasswordRequired ==> self.name() == "password_required"@,
            self is InvalidPassword ==> self.name() == "invalid_password"@,
            self is ProtocolError ==> self.name() == "protocol_error"@,
            self is IoError ==> self.name() == "io_error"@,
    {
    }

    /// No two values have the same name.
    pub proof fn law_names_differ(a: AuthFailureReason, b: AuthFailureReason)
        requires
            a.name() == b.name(),
        ensures
            a == b,
    {
        reveal_strlit("unknown_user");
        reveal_strlit("password_required");
        reveal_strlit("invalid_password");
        reveal_strlit("protocol_error");
        reveal_strlit("io_error");
        assert("unknown_user"@.len() == 12);
        assert("password_required"@.len() == 17);
        assert("invalid_password"@.len() == 16);
        assert("protocol_error"@.len() == 14);
        assert("io_error"@.len() == 8);
    }
}

/// What came of new settings.
#[derive(Clone, Copy, Debug, PartialEq, Eq, Structural)]
pub enum ReloadOutcome {
    Applied,
    Rejected,
    Unchanged,
    Error,
}

impl ReloadOutcome {
    /// The name under which the value is written.
    pub open spec fn name(self) -> Seq<char> {
        match self {
            ReloadOutcome::Applied => "applied"@,
            ReloadOutcome::Rejected => "rejected"@,
            ReloadOutcome::Unchanged => "unchanged"@,
            ReloadOutcome::Error => "error"@,
        }
    }

    /// The name under which the value is written.
    pub fn as_str(self) -> (r: &'static str)
        ensures
            r@ == self.name(),
    {
        match self {
            ReloadOutcome::Applied => "applied",
            ReloadOutcome::Rejected => "rejected",
            ReloadOutcome::Unchanged => "unchanged",
            ReloadOutcome::Error => "error",
        }
    }

    /// What each value is written as.
    pub proof fn law_written_as(self)
        ensures
            self is Applied ==> self.name() == "applied"@,
            self is Rejected ==> self.name() == "rejected"@,
            self is Unchanged ==> self.name() == "unchanged"@,
            self is Error ==> self.name() == "error"@,
    {
    }

    /// No two values have the same name.
    pub proof fn law_names_differ(a: ReloadOutcome, b: ReloadOutcome)
        requires
            a.name() == b.name(),
        ensures
            a == b,
    {
        reveal_strlit("applied");
        reveal_strlit("rejected");
        reveal_strlit("unchanged");
        reveal_strlit("error");
        assert("applied"@.len() == 7);
        assert("rejected"@.len() == 8);
        assert("unchanged"@.len() == 9);
        assert("error"@.len() == 5);
    }
}

/// What a health check is about.
#[derive(Clone, Copy, Debug, PartialEq, Eq, Structural)]
pub enum HealthKind {
    Process,
    Ready,
    Backend,
}

impl HealthKind {
    /// The name under which the value is written.
    pub open spec fn name(self) -> Seq<char> {
        match self {
            HealthKind::Process => "process"@,
            HealthKind::Ready => "ready"@,
            HealthKind::Backend => "backend"@,
        }
    }

    /// The name under which the value is written.
    pub fn as_str(self) -> (r: &'static str)
        ensures
            r@ == self.name(),
    {
        match self {
            HealthKind::Process => "process",
            HealthKind::Ready => "ready",
            HealthKind::Backend => "backend",
        }
    }

    /// What each value is written as.
    pub proof fn law_written_as(self)
        ensures
            self is Process ==> self.name() == "process"@,
            self is Ready ==> self.name() == "ready"@,
            self is Backend ==> self.name() == "backend"@,
    {
    }

    /// No two values have the same name.
    pub proof fn law_names_differ(a: HealthKind, b: HealthKind)
        requires
            a.name() == b.name(),
        ensures
            a == b,
    {
        reveal_strlit("process");
        reveal_strlit("ready");
        reveal_strlit("backend");
        assert("process"@.len() == 7 && "process"@[0] == 'p');
        assert("ready"@.len() == 5 && "ready"@[0] == 'r');
        assert("backend"@.len() == 7 && "backend"@[0] == 'b');
    }
}

/// Whose socket it is.
#[derive(Clone, Copy, Debug, PartialEq, Eq, Structural)]
pub enum SocketKind {
    Client,
    Backend,
}

impl SocketKind {
    /// The name under which the value is written.
    pub open spec fn name(self) -> Seq<char> {
        match self {
            SocketKind::Client => "client"@,
            SocketKind::Backend => "backend"@,
        }
    }

    /// The name under which the value is written.
    pub fn as_str(self) -> (r: &'static str)
        ensures
            r@ == self.name(),
    {
        match self {
            SocketKind::Client => "client",
            SocketKind::Backend => "backend",
        }
    }

    /// What each value is written as.
    pub proof fn law_written_as(self)
        ensures
            self is Client ==> self.name() == "client"@,
            self is Backend ==> self.name() == "backend"@,
    {
    }

    /// No two values have the same name.
    pub proof fn law_names_differ(a: SocketKind, b: SocketKind)
        requires
            a.name() == b.name(),
        ensures
            a == b,
    {
        reveal_strlit("client");
        reveal_strlit("backend");
        assert("client"@.len() == 6);
        assert("backend"@.len() == 7);
    }
}

/// An option of a socket.
#[derive(Clone, Copy, Debug, PartialEq, Eq, Structural)]
pub enum SocketOption {
    TcpNodelay,
    TcpKeepalive,
    TcpUserTimeout,
    TcpSendBufferBytes,
    TcpRecvBufferBytes,
}

impl SocketOption {
    /// The name under which the value is written.
    pub open spec fn name(self) -> Seq<char> {
        match self {
            SocketOption::TcpNodelay => "tcp_nodelay"@,
            SocketOption::TcpKeepalive => "tcp_keepalive"@,
            SocketOption::TcpUserTimeout => "tcp_user_timeout"@,
            SocketOption::TcpSendBufferBytes => "tcp_send_buffer_bytes"@,
            SocketOption::TcpRecvBufferBytes => "tcp_recv_buffer_bytes"@,
        }
    }

    /// The name under which the value is written.
    pub fn as_str(self) -> (r: &'static str)
        ensures
            r@ == self.name(),
    {
        match self {
            SocketOption::TcpNodelay => "tcp_nodelay",
            SocketOption::TcpKeepalive => "tcp_keepalive",
            SocketOption::TcpUserTimeout => "tcp_user_timeout",
            SocketOption::TcpSendBufferBytes => "tcp_send_buffer_bytes",
            SocketOption::TcpRecvBufferBytes => "tcp_recv_buffer_bytes",
        }
    }

    /// What each value is written as.
    pub proof fn law_written_as(self)
        ensures
            self is TcpNodelay ==> self.name() == "tcp_nodelay"@,
            self is TcpKeepalive ==> self.name() == "tcp_keepalive"@,
            self is TcpUserTimeout ==> self.name() == "tcp_user_timeout"@,
            self is TcpSendBufferBytes ==> self.name() == "tcp_send_buffer_bytes"@,
            self is TcpRecvBufferBytes ==> self.name() == "tcp_recv_buffer_bytes"@,
    {
    }

    /// No two values have the same name.
    pub proof fn law_names_differ(a: SocketOption, b: SocketOption)
        requires
            a.name() == b.name(),
        ensures
            a == b,
    {
        reveal_strlit("tcp_nodelay");
        reveal_strlit("tcp_keepalive");
        reveal_strlit("tcp_user_timeout");
        reveal_strlit("tcp_send_buffer_bytes");
        reveal_strlit("tcp_recv_buffer_bytes");
        assert("tcp_nodelay"@.len() == 11 && "tcp_nodelay"@[4] == 'n');
        assert("tcp_keepalive"@.len() == 13 && "tcp_keepalive"@[4] == 'k');
        assert("tcp_user_timeout"@.len() == 16 && "tcp_user_timeout"@[4] == 'u');
        assert("tcp_send_buffer_bytes"@.len() == 21 && "tcp_send_buffer_bytes"@[4] == 's');
        assert("tcp_recv_buffer_bytes"@.len() == 21 && "tcp_recv_buffer_bytes"@[4] == 'r');
    }
}

/// What came of setting an option.
#[derive(Clone, Copy, Debug, PartialEq, Eq, Structural)]
pub enum SocketOptionOutcome {
    Applied,
    Unsupported,
    Failed,
}

impl SocketOptionOutcome {
    /// The name under which the value is written.
    pub open spec fn name(self) -> Seq<char> {
        match self {
            SocketOptionOutcome::Applied => "applied"@,
            SocketOptionOutcome::Unsupported => "unsupported"@,
            SocketOptionOutcome::Failed => "failed"@,
        }
    }

    /// The name under which the value is written.
    pub fn as_str(self) -> (r: &'static str)
        ensures
            r@ == self.name(),
    {
        match self {
            SocketOptionOutcome::Applied => "applied",
            SocketOptionOutcome::Unsupported => "unsupported",
            SocketOptionOutcome::Failed => "failed",
        }
    }

    /// What each value is written as.
    pub proof fn law_written_as(self)
        ensures
            self is Applied ==> self.name() == "applied"@,
            self is Unsupported ==> self.name() == "unsupported"@,
            self is Failed ==> self.name() == "failed"@,
    {
    }

    /// No two values have the same name.
    pub proof fn law_names_differ(a: SocketOptionOutcome, b: SocketOptionOutcome)
        requires
            a.name() == b.name(),
        ensures
            a == b,
    {
        reveal_strlit("applied");
        reveal_strlit("unsupported");
        reveal_strlit("failed");
        assert("applied"@.len() == 7);
        assert("unsupported"@.len() == 11);
        assert("failed"@.len() == 6);
    }
}

/// What a queue is for.
#[derive(Clone, Copy, Debug, PartialEq, Eq, Structural)]
pub enum QueueScope {
    Route,
}

impl QueueScope {
    /// The name under which the value is written.
    pub open spec fn name(self) -> Seq<char> {
        match self {
            QueueScope::Route => "route"@,
        }
    }

    /// The name under which the value is written.
    pub fn as_str(self) -> (r: &'static str)
        ensures
            r@ == self.name(),
    {
        match self {
            QueueScope::Route => "route",
        }
    }

    /// What each value is written as.
    pub proof fn law_written_as(self)
        ensures
            self is Route ==> self.name() == "route"@,
    {
    }

    /// No two values have the same name.
    pub proof fn law_names_differ(a: QueueScope, b: QueueScope)
        requires
            a.name() == b.name(),
        ensures
            a == b,
    {
        reveal_strlit("route");
        assert("route"@.len() == 5);
    }
}

/// A phase of the protocol.
#[derive(Clone, Copy, Debug, PartialEq, Eq, Structural)]
pub enum ProtocolPhase {
    Startup,
    Auth,
    TlsHandshake,
    BackendCheckout,
    Parse,
    Bind,
    Execute,
    Rows,
    Drain,
    Reset,
    Cancel,
    Close,
}

impl ProtocolPhase {
    /// The name under which the value is written.
    pub open spec fn name(self) -> Seq<char> {
        match self {
            ProtocolPhase::Startup => "startup"@,
            ProtocolPhase::Auth => "auth"@,
            ProtocolPhase::TlsHandshake => "tls_handshake"@,
            ProtocolPhase::BackendCheckout => "backend_checkout"@,
            ProtocolPhase::Parse => "parse"@,
            ProtocolPhase::Bind => "bind"@,
            ProtocolPhase::Execute => "execute"@,
            ProtocolPhase::Rows => "rows"@,
            ProtocolPhase::Drain => "drain"@,
            ProtocolPhase::Reset => "reset"@,
            ProtocolPhase::Cancel => "cancel"@,
            ProtocolPhase::Close => "close"@,
        }
    }

    /// The name under which the value is written.
    pub fn as_str(self) -> (r: &'static str)
        ensures
            r@ == self.name(),
    {
        match self {
            ProtocolPhase::Startup => "startup",
            ProtocolPhase::Auth => "auth",
            ProtocolPhase::TlsHandshake => "tls_handshake",
            ProtocolPhase::BackendCheckout => "backend_checkout",
            ProtocolPhase::Parse => "parse",
            ProtocolPhase::Bind => "bind",
            ProtocolPhase::Execute => "execute",
            ProtocolPhase::Rows => "rows",
            ProtocolPhase::Drain => "drain",
            ProtocolPhase::Reset => "reset",
            ProtocolPhase::Cancel => "cancel",
            ProtocolPhase::Close => "close",
        }
    }

    /// What each value is written as.
    pub proof fn law_written_as(self)
        ensures
            self is Startup ==> self.name() == "startup"@,
            self is Auth ==> self.name() == "auth"@,
            self is TlsHandshake ==> self.name() == "tls_handshake"@,
            self is BackendCheckout ==> self.name() == "backend_checkout"@,
            self is Parse ==> self.name() == "parse"@,
            self is Bind ==> self.name() == "bind"@,
            self is Execute ==> self.name() == "execute"@,
            self is Rows ==> self.name() == "rows"@,
            self is Drain ==> self.name() == "drain"@,
            self is Reset ==> self.name() == "reset"@,
            self is Cancel ==> self.name() == "cancel"@,
            self is Close ==> self.name() == "close"@,
    {
    }

    /// No two values have the same name.
    pub proof fn law_names_differ(a: ProtocolPhase, b: ProtocolPhase)
        requires
            a.name() == b.name(),
        ensures
            a == b,
    {
        reveal_strlit("startup");
        reveal_strlit("auth");
        reveal_strlit("tls_handshake");
        reveal_strlit("backend_checkout");
        reveal_strlit("parse");
        reveal_strlit("bind");
        reveal_strlit("execute");
        reveal_strlit("rows");
        reveal_strlit("drain");
        reveal_strlit("reset");
        reveal_strlit("cancel");
        reveal_strlit("close");
        assert("startup"@.len() == 7 && "startup"@[0] == 's');
        assert("auth"@.len() == 4 && "auth"@[0] == 'a');
        assert("tls_handshake"@.len() == 13 && "tls_handshake"@[0] == 't');
        assert("backend_checkout"@.len() == 16 && "backend_checkout"@[0] == 'b');
        assert("parse"@.len() == 5 && "parse"@[0] == 'p');
        assert("bind"@.len() == 4 && "bind"@[0] == 'b');
        assert("execute"@.len() == 7 && "execute"@[0] == 'e');
        assert("rows"@.len() == 4 && "rows"@[0] == 'r');
        assert("drain"@.len() == 5 && "drain"@[0] == 'd');
        assert("reset"@.len() == 5 && "reset"@[0] == 'r');
        assert("cancel"@.len() == 6 && "cancel"@[0] == 'c');
        assert("close"@.len() == 5 && "close"@[0] == 'c');
    }
}

/// How a phase ended.
#[derive(Clone, Copy, Debug, PartialEq, Eq, Structural)]
pub enum MetricOutcome {
    Success,
    Error,
    Timeout,
    Rejected,
    Canceled,
    Discarded,
}

impl MetricOutcome {
    /// The name under which the value is written.
    pub open spec fn name(self) -> Seq<char> {
        match self {
            MetricOutcome::Success => "ok"@,
            MetricOutcome::Error => "error"@,
            MetricOutcome::Timeout => "timeout"@,
            MetricOutcome::Rejected => "rejected"@,
            MetricOutcome::Canceled => "canceled"@,
            MetricOutcome::Discarded => "discarded"@,
        }
    }

    /// The name under which the value is written.
    pub fn as_str(self) -> (r: &'static str)
        ensures
            r@ == self.name(),
    {
        match self {
            MetricOutcome::Success => "ok",
            MetricOutcome::Error => "error",
            MetricOutcome::Timeout => "timeout",
            MetricOutcome::Rejected => "rejected",
            MetricOutcome::Canceled => "canceled",
            MetricOutcome::Discarded => "discarded",
        }
    }

    /// What each value is written as.
    pub proof fn law_written_as(self)
        ensures
            self is Success ==> self.name() == "ok"@,
            self is Error ==> self.name() == "error"@,
            self is Timeout ==> self.name() == "timeout"@,
            self is Rejected ==> self.name() == "rejected"@,
            self is Canceled ==> self.name() == "canceled"@,
            self is Discarded ==> self.name() == "discarded"@,
    {
    }

    /// No two values have the same name.
    pub proof fn law_names_differ(a: MetricOutcome, b: MetricOutcome)
        requires
            a.name() == b.name(),
        ensures
            a == b,
    {
        reveal_strlit("ok");
        reveal_strlit("error");
        reveal_strlit("timeout");
        reveal_strlit("rejected");
        reveal_strlit("canceled");
        reveal_strlit("discarded");
        assert("ok"@.len() == 2 && "ok"@[0] == 'o');
        assert("error"@.len() == 5 && "error"@[0] == 'e');
        assert("timeout"@.len() == 7 && "timeout"@[0] == 't');
        assert("rejected"@.len() == 8 && "rejected"@[0] == 'r');
        assert("canceled"@.len() == 8 && "canceled"@[0] == 'c');
        assert("discarded"@.len() == 9 && "discarded"@[0] == 'd');
    }
}


// ---------------------------------------------------------------------------
// Labels
// ---------------------------------------------------------------------------

/// A value that metrics are counted by.
pub trait MetricLabelValue: Sized {
    /// The label under which things are counted.
    spec fn label(self) -> Seq<char>;

    /// The label under which things are counted.
    fn metric_label(self) -> (r: &'static str)
        ensures
            r@ == self.label(),
    ;
}

impl MetricLabelValue for TlsScope {
    open spec fn label(self) -> Seq<char> {
        self.name()
    }

    fn metric_label(self) -> (r: &'static str) {
        self.as_str()
    }
}

impl MetricLabelValue for ClientTlsMode {
    open spec fn label(self) -> Seq<char> {
        self.name()
    }

    fn metric_label(self) -> (r: &'static str) {
        self.as_str()
    }
}

impl MetricLabelValue for BackendTlsMode {
    open spec fn label(self) -> Seq<char> {
        self.name()
    }

    fn metric_label(self) -> (r: &'static str) {
        self.as_str()
    }
}

impl MetricLabelValue for AuthMode {
    open spec fn label(self) -> Seq<char> {
        self.name()
    }

    fn metric_label(self) -> (r: &'static str) {
        self.as_str()
    }
}

impl MetricLabelValue for PolicyMode {
    open spec fn label(self) -> Seq<char> {
        self.name()
    }

    fn metric_label(self) -> (r: &'static str) {
        self.as_str()
    }
}

impl MetricLabelValue for PolicyHookPoint {
    open spec fn label(self) -> Seq<char> {
        self.name()
    }

    fn metric_label(self) -> (r: &'static str) {
        self.as_str()
    }
}

impl MetricLabelValue for DrainState {
    open spec fn label(self) -> Seq<char> {
        self.name()
    }

    fn metric_label(self) -> (r: &'static str) {
        self.as_str()
    }
}

impl MetricLabelValue for HealthStatus {
    open spec fn label(self) -> Seq<char> {
        self.name()
    }

    fn metric_label(self) -> (r: &'static str) {
        self.as_str()
    }
}

impl MetricLabelValue for SocketOptionOutcome {
    open spec fn label(self) -> Seq<char> {
        self.name()
    }

    fn metric_label(self) -> (r: &'static str) {
        self.as_str()
    }
}

impl MetricLabelValue for TlsFailureReason {
    open spec fn label(self) -> Seq<char> {
        self.name()
    }

    fn metric_label(self) -> (r: &'static str) {
        self.as_str()
    }
}

impl MetricLabelValue for AuthFailureReason {
    open spec fn label(self) -> Seq<char> {
        self.name()
    }

    fn metric_label(self) -> (r: &'static str) {
        self.as_str()
    }
}

impl MetricLabelValue for ReloadOutcome {
    open spec fn label(self) -> Seq<char> {
        self.name()
    }

    fn metric_label(self) -> (r: &'static str) {
        self.as_str()
    }
}

impl MetricLabelValue for HealthKind {
    open spec fn label(self) -> Seq<char> {
        self.name()
    }

    fn metric_label(self) -> (r: &'static str) {
        self.as_str()
    }
}

impl MetricLabelValue for SocketKind {
    open spec fn label(self) -> Seq<char> {
        self.name()
    }

    fn metric_label(self) -> (r: &'static str) {
        self.as_str()
    }
}

impl MetricLabelValue for SocketOption {
    open spec fn label(self) -> Seq<char> {
        self.name()
    }

    fn metric_label(self) -> (r: &'static str) {
        self.as_str()
    }
}

impl MetricLabelValue for PolicyAction {
    open spec fn label(self) -> Seq<char> {
        self@.name()
    }

    fn metric_label(self) -> (r: &'static str) {
        self.as_str()
    }
}

/// The place of a phase among the phases.
pub open spec fn phase_place(value: ProtocolPhase) -> int {
    match value {
        ProtocolPhase::Startup => 0,
        ProtocolPhase::Auth => 1,
        ProtocolPhase::TlsHandshake => 2,
        ProtocolPhase::BackendCheckout => 3,
        ProtocolPhase::Parse => 4,
        ProtocolPhase::Bind => 5,
        ProtocolPhase::Execute => 6,
        ProtocolPhase::Rows => 7,
        ProtocolPhase::Drain => 8,
        ProtocolPhase::Reset => 9,
        ProtocolPhase::Cancel => 10,
        ProtocolPhase::Close => 11,
    }
}

/// The place of a phase among the phases.
pub fn protocol_phase_index(value: ProtocolPhase) -> (r: usize)
    ensures
        r == phase_place(value),
        r < PROTOCOL_PHASE_COUNT,
{
    match value {
        ProtocolPhase::Startup => 0,
        ProtocolPhase::Auth => 1,
        ProtocolPhase::TlsHandshake => 2,
        ProtocolPhase::BackendCheckout => 3,
        ProtocolPhase::Parse => 4,
        ProtocolPhase::Bind => 5,
        ProtocolPhase::Execute => 6,
        ProtocolPhase::Rows => 7,
        ProtocolPhase::Drain => 8,
        ProtocolPhase::Reset => 9,
        ProtocolPhase::Cancel => 10,
        ProtocolPhase::Close => 11,
    }
}

/// The place of an outcome among the outcomes.
pub open spec fn outcome_place(value: MetricOutcome) -> int {
    match value {
        MetricOutcome::Success => 0,
        MetricOutcome::Error => 1,
        MetricOutcome::Timeout => 2,
        MetricOutcome::Rejected => 3,
        MetricOutcome::Canceled => 4,
        MetricOutcome::Discarded => 5,
    }
}

/// The place of an outcome among the outcomes.
pub fn metric_outcome_index(value: MetricOutcome) -> (r: usize)
    ensures
        r == outcome_place(value),
        r < METRIC_OUTCOME_COUNT,
{
    match value {
        MetricOutcome::Success => 0,
        MetricOutcome::Error => 1,
        MetricOutcome::Timeout => 2,
        MetricOutcome::Rejected => 3,
        MetricOutcome::Canceled => 4,
        MetricOutcome::Discarded => 5,
    }
}

/// No two phases have the same place, nor have two outcomes: each pair of them is timed by itself.
pub proof fn law_places_differ(
    a: ProtocolPhase,
    b: ProtocolPhase,
    c: MetricOutcome,
    d: MetricOutcome,
)
    ensures
        0 <= phase_place(a) < PROTOCOL_PHASE_COUNT,
        0 <= outcome_place(c) < METRIC_OUTCOME_COUNT,
        phase_place(a) == phase_place(b) ==> a == b,
        outcome_place(c) == outcome_place(d) ==> c == d,
{
}

/// Which server a request was sent to, as it is counted.
pub open spec fn role_label(role: Option<BackendRole>) -> Seq<char> {
    match role {
        Some(role) => role.name(),
        None => "unknown"@,
    }
}

/// Which server a request was sent to, as it is counted.
pub fn target_role_label(role: Option<BackendRole>) -> (r: &'static str)
    ensures
        r@ == role_label(role),
{
    match role {
        Some(role) => role.as_str(),
        None => "unknown",
    }
}

/// The name of a class of requests, as it is counted.
pub fn route_query_class_label(query_class: QueryClass) -> (r: &'static str)
    ensures
        r@ == query_class.name(),
{
    query_class.as_str()
}

/// Whether a replica had caught up, as it is counted.
pub fn freshness_outcome_label(outcome: FreshnessStatus) -> (r: &'static str)
    ensures
        r@ == outcome.name(),
{
    outcome.as_str()
}

/// A server's number, as it is counted.
pub fn endpoint_label(endpoint_id: u64) -> (r: String)
    ensures
        r@ == decimal(endpoint_id as nat),
{
    u64_text(endpoint_id)
}

/// Which way out of a missing replica was taken, where one was.
pub open spec fn fallback_of(reason: RoutingReason) -> Option<FallbackPolicy> {
    match reason {
        RoutingReason::FallbackPrimary => Some(FallbackPolicy::Primary),
        RoutingReason::FallbackReject => Some(FallbackPolicy::Reject),
        RoutingReason::FallbackWait => Some(FallbackPolicy::Wait),
        _ => None,
    }
}

/// Which way out of a missing replica was taken, where one was.
pub fn fallback_policy_from_reason(reason: RoutingReason) -> (r: Option<FallbackPolicy>)
    ensures
        r == fallback_of(reason),
{
    match reason {
        RoutingReason::FallbackPrimary => Some(FallbackPolicy::Primary),
        RoutingReason::FallbackReject => Some(FallbackPolicy::Reject),
        RoutingReason::FallbackWait => Some(FallbackPolicy::Wait),
        _ => None,
    }
}

// ---------------------------------------------------------------------------
// Shards
// ---------------------------------------------------------------------------

/// The number that some bytes are turned into, byte by byte.
pub open spec fn mixed_bytes(bytes: Seq<u8>) -> u64
    decreases bytes.len(),
{
    if bytes.len() == 0 {
        0xcbf2_9ce4_8422_2325
    } else {
        vstd::wrapping::u64_specs::wrapping_mul(
            mixed_bytes(bytes.drop_last()) ^ (bytes.last() as u64),
            0x100_0000_01b3,
        )
    }
}

/// Which of eight buckets a shard is counted in.
pub open spec fn bucket_of(shard: Seq<char>) -> int {
    mixed_bytes(utf8_bytes(shard)) as int % 8
}

/// Which of eight buckets a shard is counted in: shards' names are not to be counted one by one.
pub fn shard_bucket(value: &str) -> (r: u8)
    ensures
        r == bucket_of(value@),
        r < 8,
{
    let bytes = value.as_bytes();
    let mut hash: u64 = 0xcbf2_9ce4_8422_2325;
    let mut i: usize = 0;
    assert(bytes@.take(0) =~= Seq::empty());
    while i < bytes.len()
        invariant
            i <= bytes@.len(),
            hash == mixed_bytes(bytes@.take(i as int)),
        decreases bytes@.len() - i,
    {
        proof {
            assert(bytes@.take(i + 1).drop_last() =~= bytes@.take(i as int));
            assert(bytes@.take(i + 1).last() == bytes@[i as int]);
        }
        hash = (hash ^ (bytes[i] as u64)).wrapping_mul(0x100_0000_01b3);
        i += 1;
    }
    assert(bytes@.take(i as int) =~= bytes@);
    (hash % 8) as u8
}

/// The label of a shard that may be absent.
pub open spec fn bucket_text(shard: Option<Seq<char>>) -> Seq<char> {
    match shard {
        Some(shard) => "bucket_"@ + decimal(bucket_of(shard) as nat),
        None => "unassigned"@,
    }
}

/// The label of a shard that may be absent.
pub fn shard_bucket_label(shard: Option<&str>) -> (r: String)
    ensures
        r@ == bucket_text(
            match shard {
                Some(shard) => Some(shard@),
                None => None,
            },
        ),
{
    match shard {
        Some(shard) => join2("bucket_", u64_text(shard_bucket(shard) as u64).as_str()),
        None => "unassigned".to_owned(),
    }
}

/// There are no more than eight labels of shards besides that of none.
pub proof fn law_few_shard_labels(shard: Seq<char>)
    ensures
        0 <= bucket_of(shard) < 8,
{
}

/// What is set for each shard that is to be moved.
#[derive(Clone, Debug)]
pub struct MigrationGauges {
    pub shards: Vec<String>,
    pub active_transactions: usize,
    pub prepared_statements: usize,
}

/// The labels of some shards.
pub open spec fn bucket_texts(shards: Seq<String>) -> Seq<Seq<char>> {
    shards.map_values(|shard: String| bucket_text(Some(shard@)))
}

/// What is set for a plan to move shards; nothing where its safety was not looked at.
pub fn migration_gauges(snapshot: &ShardMigrationSafetySnapshot) -> (r: Option<MigrationGauges>)
    ensures
        match (r, snapshot.safety_report) {
            (None, None) => true,
            (Some(gauges), Some(report)) => crate::text::texts(gauges.shards@) == bucket_texts(
                snapshot.source_shard_ids@,
            ) && gauges.active_transactions == report.open_transactions
                && gauges.prepared_statements == report.prepared_statements,
            _ => false,
        },
{
    let report = match &snapshot.safety_report {
        Some(report) => report,
        None => {
            return None;
        },
    };
    let ids = &snapshot.source_shard_ids;
    let mut shards: Vec<String> = Vec::new();
    let mut i: usize = 0;
    while i < ids.len()
        invariant
            i <= ids@.len(),
            shards@.len() == i,
            forall|j: int| 0 <= j < i ==> (#[trigger] shards@[j])@ == bucket_text(Some(ids@[j]@)),
        decreases ids@.len() - i,
    {
        shards.push(shard_bucket_label(Some(ids[i].as_str())));
        i += 1;
    }
    assert(crate::text::texts(shards@) =~= bucket_texts(ids@));
    Some(
        MigrationGauges {
            shards,
            active_transactions: report.open_transactions,
            prepared_statements: report.prepared_statements,
        },
    )
}

// ---------------------------------------------------------------------------
// States
// ---------------------------------------------------------------------------

/// A state's gauge: its label, and whether it is the state that holds.
#[derive(Clone, Copy, Debug)]
pub struct StateGauge {
    pub label: &'static str,
    pub set: bool,
}

/// A state's gauge as plain values.
pub struct GaugeFacts {
    pub label: Seq<char>,
    pub set: bool,
}

impl View for StateGauge {
    type V = GaugeFacts;

    open spec fn view(&self) -> GaugeFacts {
        GaugeFacts { label: self.label@, set: self.set }
    }
}

/// States' gauges as plain values.
pub open spec fn gauge_facts(gauges: Seq<StateGauge>) -> Seq<GaugeFacts> {
    gauges.map_values(|gauge: StateGauge| gauge@)
}

/// Whether exactly one of some gauges is set, and it is that of a label.
pub open spec fn only_set(gauges: Seq<GaugeFacts>, label: Seq<char>) -> bool {
    exists|i: int|
        0 <= i < gauges.len() && (#[trigger] gauges[i]).set && gauges[i].label == label && forall|j: int|
            0 <= j < gauges.len() && (#[trigger] gauges[j]).set ==> j == i
}

fn push_gauge(gauges: &mut Vec<StateGauge>, label: &'static str, set: bool)
    ensures
        gauge_facts(final(gauges)@) == gauge_facts(old(gauges)@).push(
            GaugeFacts { label: label@, set },
        ),
{
    gauges.push(StateGauge { label, set });
    assert(gauge_facts(gauges@) =~= gauge_facts(old(gauges)@).push(
        GaugeFacts { label: label@, set },
    ));
}

/// The gauges of how far the process has come.
pub open spec fn lifecycle_states(state: RuntimeLifecycleState) -> Seq<GaugeFacts> {
    seq![
        GaugeFacts {
            label: RuntimeLifecycleState::Starting.name(),
            set: state == RuntimeLifecycleState::Starting,
        },
        GaugeFacts {
            label: RuntimeLifecycleState::Ready.name(),
            set: state == RuntimeLifecycleState::Ready,
        },
        GaugeFacts {
            label: RuntimeLifecycleState::Draining.name(),
            set: state == RuntimeLifecycleState::Draining,
        },
        GaugeFacts {
            label: RuntimeLifecycleState::Stopping.name(),
            set: state == RuntimeLifecycleState::Stopping,
        },
        GaugeFacts {
            label: RuntimeLifecycleState::Stopped.name(),
            set: state == RuntimeLifecycleState::Stopped,
        },
    ]
}

/// The gauges of how far the process has come.
pub fn lifecycle_gauges(state: RuntimeLifecycleState) -> (r: Vec<StateGauge>)
    ensures
        gauge_facts(r@) == lifecycle_states(state),
        only_set(gauge_facts(r@), state.name()),
{
    let mut gauges: Vec<StateGauge> = Vec::new();
    assert(gauge_facts(gauges@) =~= Seq::empty());
    push_gauge(
        &mut gauges,
        RuntimeLifecycleState::Starting.as_str(),
        state == RuntimeLifecycleState::Starting,
    );
    push_gauge(
        &mut gauges,
        RuntimeLifecycleState::Ready.as_str(),
        state == RuntimeLifecycleState::Ready,
    );
    push_gauge(
        &mut gauges,
        RuntimeLifecycleState::Draining.as_str(),
        state == RuntimeLifecycleState::Draining,
    );
    push_gauge(
        &mut gauges,
        RuntimeLifecycleState::Stopping.as_str(),
        state == RuntimeLifecycleState::Stopping,
    );
    push_gauge(
        &mut gauges,
        RuntimeLifecycleState::Stopped.as_str(),
        state == RuntimeLifecycleState::Stopped,
    );
    proof {
        let all = gauge_facts(gauges@);
        assert(all =~= lifecycle_states(state));
        match state {
            RuntimeLifecycleState::Starting => {
                assert(all[0].set);
            },
            RuntimeLifecycleState::Ready => {
                assert(all[1].set);
            },
            RuntimeLifecycleState::Draining => {
                assert(all[2].set);
            },
            RuntimeLifecycleState::Stopping => {
                assert(all[3].set);
            },
            RuntimeLifecycleState::Stopped => {
                assert(all[4].set);
            },
        }
    }
    gauges
}

/// The gauges of whether the process can be sent clients.
pub open spec fn readiness_states(state: ReadinessState) -> Seq<GaugeFacts> {
    seq![
        GaugeFacts { label: ReadinessState::Ready.name(), set: state == ReadinessState::Ready },
        GaugeFacts {
            label: ReadinessState::NotReady.name(),
            set: state == ReadinessState::NotReady,
        },
        GaugeFacts {
            label: ReadinessState::Draining.name(),
            set: state == ReadinessState::Draining,
        },
    ]
}

/// The gauges of whether the process can be sent clients.
pub fn readiness_gauges(state: ReadinessState) -> (r: Vec<StateGauge>)
    ensures
        gauge_facts(r@) == readiness_states(state),
        only_set(gauge_facts(r@), state.name()),
{
    let mut gauges: Vec<StateGauge> = Vec::new();
    assert(gauge_facts(gauges@) =~= Seq::empty());
    push_gauge(&mut gauges, ReadinessState::Ready.as_str(), state == ReadinessState::Ready);
    push_gauge(&mut gauges, ReadinessState::NotReady.as_str(), state == ReadinessState::NotReady);
    push_gauge(&mut gauges, ReadinessState::Draining.as_str(), state == ReadinessState::Draining);
    proof {
        let all = gauge_facts(gauges@);
        assert(all =~= readiness_states(state));
        match state {
            ReadinessState::Ready => {
                assert(all[0].set);
            },
            ReadinessState::NotReady => {
                assert(all[1].set);
            },
            ReadinessState::Draining => {
                assert(all[2].set);
            },
        }
    }
    gauges
}

/// The gauges of whether clients are taken.
pub open spec fn drain_states(state: DrainState) -> Seq<GaugeFacts> {
    seq![
        GaugeFacts { label: DrainState::Accepting.name(), set: state == DrainState::Accepting },
        GaugeFacts { label: DrainState::Draining.name(), set: state == DrainState::Draining },
        GaugeFacts { label: DrainState::Drained.name(), set: state == DrainState::Drained },
    ]
}

/// The gauges of whether clients are taken.
pub fn drain_gauges(state: DrainState) -> (r: Vec<StateGauge>)
    ensures
        gauge_facts(r@) == drain_states(state),
        only_set(gauge_facts(r@), state.name()),
{
    let mut gauges: Vec<StateGauge> = Vec::new();
    assert(gauge_facts(gauges@) =~= Seq::empty());
    push_gauge(&mut gauges, DrainState::Accepting.as_str(), state == DrainState::Accepting);
    push_gauge(&mut gauges, DrainState::Draining.as_str(), state == DrainState::Draining);
    push_gauge(&mut gauges, DrainState::Drained.as_str(), state == DrainState::Drained);
    proof {
        let all = gauge_facts(gauges@);
        assert(all =~= drain_states(state));
        match state {
            DrainState::Accepting => {
                assert(all[0].set);
            },
            DrainState::Draining => {
                assert(all[1].set);
            },
            DrainState::Drained => {
                assert(all[2].set);
            },
        }
    }
    gauges
}

/// The gauges of a health check.
pub open spec fn health_states(state: HealthStatus) -> Seq<GaugeFacts> {
    seq![
        GaugeFacts { label: HealthStatus::Ready.name(), set: state == HealthStatus::Ready },
        GaugeFacts { label: HealthStatus::NotReady.name(), set: state == HealthStatus::NotReady },
        GaugeFacts { label: HealthStatus::Live.name(), set: state == HealthStatus::Live },
        GaugeFacts { label: HealthStatus::Degraded.name(), set: state == HealthStatus::Degraded },
    ]
}

/// The gauges of a health check.
pub fn health_gauges(state: HealthStatus) -> (r: Vec<StateGauge>)
    ensures
        gauge_facts(r@) == health_states(state),
        only_set(gauge_facts(r@), state.name()),
{
    let mut gauges: Vec<StateGauge> = Vec::new();
    assert(gauge_facts(gauges@) =~= Seq::empty());
    push_gauge(&mut gauges, HealthStatus::Ready.as_str(), state == HealthStatus::Ready);
    push_gauge(&mut gauges, HealthStatus::NotReady.as_str(), state == HealthStatus::NotReady);
    push_gauge(&mut gauges, HealthStatus::Live.as_str(), state == HealthStatus::Live);
    push_gauge(&mut gauges, HealthStatus::Degraded.as_str(), state == HealthStatus::Degraded);
    proof {
        let all = gauge_facts(gauges@);
        assert(all =~= health_states(state));
        match state {
            HealthStatus::Ready => {
                assert(all[0].set);
            },
            HealthStatus::NotReady => {
                assert(all[1].set);
            },
            HealthStatus::Live => {
                assert(all[2].set);
            },
            HealthStatus::Degraded => {
                assert(all[3].set);
            },
        }
    }
    gauges
}

/// The gauges of how a server is doing.
pub open spec fn endpoint_health_states(state: EndpointHealth) -> Seq<GaugeFacts> {
    seq![
        GaugeFacts { label: EndpointHealth::Healthy.name(), set: state == EndpointHealth::Healthy },
        GaugeFacts {
            label: EndpointHealth::Degraded.name(),
            set: state == EndpointHealth::Degraded,
        },
        GaugeFacts {
            label: EndpointHealth::Unhealthy.name(),
            set: state == EndpointHealth::Unhealthy,
        },
        GaugeFacts {
            label: EndpointHealth::Unavailable.name(),
            set: state == EndpointHealth::Unavailable,
        },
    ]
}

/// The gauges of how a server is doing.
pub fn endpoint_health_gauges(state: EndpointHealth) -> (r: Vec<StateGauge>)
    ensures
        gauge_facts(r@) == endpoint_health_states(state),
        only_set(gauge_facts(r@), state.name()),
{
    let mut gauges: Vec<StateGauge> = Vec::new();
    assert(gauge_facts(gauges@) =~= Seq::empty());
    push_gauge(&mut gauges, EndpointHealth::Healthy.as_str(), state == EndpointHealth::Healthy);
    push_gauge(&mut gauges, EndpointHealth::Degraded.as_str(), state == EndpointHealth::Degraded);
    push_gauge(&mut gauges, EndpointHealth::Unhealthy.as_str(), state == EndpointHealth::Unhealthy);
    push_gauge(
        &mut gauges,
        EndpointHealth::Unavailable.as_str(),
        state == EndpointHealth::Unavailable,
    );
    proof {
        let all = gauge_facts(gauges@);
        assert(all =~= endpoint_health_states(state));
        match state {
            EndpointHealth::Healthy => {
                assert(all[0].set);
            },
            EndpointHealth::Degraded => {
                assert(all[1].set);
            },
            EndpointHealth::Unhealthy => {
                assert(all[2].set);
            },
            EndpointHealth::Unavailable => {
                assert(all[3].set);
            },
        }
    }
    gauges
}

/// The gauges of whether a replica lags; the one that holds is set to the lag.
pub open spec fn lag_states(state: ReplicaLagState) -> Seq<GaugeFacts> {
    seq![
        GaugeFacts {
            label: ReplicaLagState::Unknown.name(),
            set: state == ReplicaLagState::Unknown,
        },
        GaugeFacts { label: ReplicaLagState::Fresh.name(), set: state == ReplicaLagState::Fresh },
        GaugeFacts {
            label: ReplicaLagState::Lagging.name(),
            set: state == ReplicaLagState::Lagging,
        },
    ]
}

/// The gauges of whether a replica lags; the one that holds is set to the lag.
pub fn lag_gauges(state: ReplicaLagState) -> (r: Vec<StateGauge>)
    ensures
        gauge_facts(r@) == lag_states(state),
        only_set(gauge_facts(r@), state.name()),
{
    let mut gauges: Vec<StateGauge> = Vec::new();
    assert(gauge_facts(gauges@) =~= Seq::empty());
    push_gauge(&mut gauges, ReplicaLagState::Unknown.as_str(), state == ReplicaLagState::Unknown);
    push_gauge(&mut gauges, ReplicaLagState::Fresh.as_str(), state == ReplicaLagState::Fresh);
    push_gauge(&mut gauges, ReplicaLagState::Lagging.as_str(), state == ReplicaLagState::Lagging);
    proof {
        let all = gauge_facts(gauges@);
        assert(all =~= lag_states(state));
        match state {
            ReplicaLagState::Unknown => {
                assert(all[0].set);
            },
            ReplicaLagState::Fresh => {
                assert(all[1].set);
            },
            ReplicaLagState::Lagging => {
                assert(all[2].set);
            },
        }
    }
    gauges
}

/// The gauges of whether a shard takes requests.
pub open spec fn shard_lifecycle_states(state: ShardLifecycleState) -> Seq<GaugeFacts> {
    seq![
        GaugeFacts {
            label: ShardLifecycleState::Active.name(),
            set: state == ShardLifecycleState::Active,
        },
        GaugeFacts {
            label: ShardLifecycleState::Draining.name(),
            set: state == ShardLifecycleState::Draining,
        },
        GaugeFacts {
            label: ShardLifecycleState::Readonly.name(),
            set: state == ShardLifecycleState::Readonly,
        },
        GaugeFacts {
            label: ShardLifecycleState::Disabled.name(),
            set: state == ShardLifecycleState::Disabled,
        },
    ]
}

/// The gauges of whether a shard takes requests.
pub fn shard_lifecycle_gauges(state: ShardLifecycleState) -> (r: Vec<StateGauge>)
    ensures
        gauge_facts(r@) == shard_lifecycle_states(state),
        only_set(gauge_facts(r@), state.name()),
{
    let mut gauges: Vec<StateGauge> = Vec::new();
    assert(gauge_facts(gauges@) =~= Seq::empty());
    push_gauge(
        &mut gauges,
        ShardLifecycleState::Active.as_str(),
        state == ShardLifecycleState::Active,
    );
    push_gauge(
        &mut gauges,
        ShardLifecycleState::Draining.as_str(),
        state == ShardLifecycleState::Draining,
    );
    push_gauge(
        &mut gauges,
        ShardLifecycleState::Readonly.as_str(),
        state == ShardLifecycleState::Readonly,
    );
    push_gauge(
        &mut gauges,
        ShardLifecycleState::Disabled.as_str(),
        state == ShardLifecycleState::Disabled,
    );
    proof {
        let all = gauge_facts(gauges@);
        assert(all =~= shard_lifecycle_states(state));
        match state {
            ShardLifecycleState::Active => {
                assert(all[0].set);
            },
            ShardLifecycleState::Draining => {
                assert(all[1].set);
            },
            ShardLifecycleState::Readonly => {
                assert(all[2].set);
            },
            ShardLifecycleState::Disabled => {
                assert(all[3].set);
            },
        }
    }
    gauges
}

/// The gauges of how a metric keeps to what is allowed.
pub open spec fn budget_states(state: PerformanceBudgetOutcome) -> Seq<GaugeFacts> {
    seq![
        GaugeFacts {
            label: PerformanceBudgetOutcome::Passed.name(),
            set: state == PerformanceBudgetOutcome::Passed,
        },
        GaugeFacts {
            label: PerformanceBudgetOutcome::Warning.name(),
            set: state == PerformanceBudgetOutcome::Warning,
        },
        GaugeFacts {
            label: PerformanceBudgetOutcome::Failed.name(),
            set: state == PerformanceBudgetOutcome::Failed,
        },
    ]
}

/// The gauges of how a metric keeps to what is allowed.
pub fn budget_gauges(state: PerformanceBudgetOutcome) -> (r: Vec<StateGauge>)
    ensures
        gauge_facts(r@) == budget_states(state),
        only_set(gauge_facts(r@), state.name()),
{
    let mut gauges: Vec<StateGauge> = Vec::new();
    assert(gauge_facts(gauges@) =~= Seq::empty());
    push_gauge(
        &mut gauges,
        PerformanceBudgetOutcome::Passed.as_str(),
        state == PerformanceBudgetOutcome::Passed,
    );
    push_gauge(
        &mut gauges,
        PerformanceBudgetOutcome::Warning.as_str(),
        state == PerformanceBudgetOutcome::Warning,
    );
    push_gauge(
        &mut gauges,
        PerformanceBudgetOutcome::Failed.as_str(),
        state == PerformanceBudgetOutcome::Failed,
    );
    proof {
        let all = gauge_facts(gauges@);
        assert(all =~= budget_states(state));
        match state {
            PerformanceBudgetOutcome::Passed => {
                assert(all[0].set);
            },
            PerformanceBudgetOutcome::Warning => {
                assert(all[1].set);
            },
            PerformanceBudgetOutcome::Failed => {
                assert(all[2].set);
            },
        }
    }
    gauges
}


// ---------------------------------------------------------------------------
// Counts
// ---------------------------------------------------------------------------

/// Whether the wait for a checkout is also counted as a wait for a lock.
pub fn counts_lock_wait(stage: &str) -> (r: bool)
    ensures
        r == (stage@ == "route_gate_registry"@),
{
    same_text(stage, "route_gate_registry")
}

/// Whether a benchmark's result counts as one with errors.
pub fn counts_benchmark_error(error_rate: Double) -> (r: bool)
    ensures
        r == (Double { bits: 0 }).less(error_rate),
{
    Double::zero().below(error_rate)
}

/// What mirrored requests are counted as.
#[derive(Clone, Copy, Debug, PartialEq, Eq, Structural)]
pub enum MirrorCounter {
    Dropped,
    TimedOut,
    Mirrored,
    Skipped,
    Rejected,
}

/// By how much a count of mirrored requests grows.
#[derive(Clone, Copy, Debug, PartialEq, Eq, Structural)]
pub struct MirrorIncrement {
    pub counter: MirrorCounter,
    pub amount: u64,
}

/// A count that grows, where it does.
pub open spec fn grown(counter: MirrorCounter, amount: u64) -> Seq<MirrorIncrement> {
    if amount > 0 {
        seq![MirrorIncrement { counter, amount }]
    } else {
        Seq::empty()
    }
}

/// The counts of mirrored requests that grow.
pub open spec fn mirror_growth(snapshot: MirrorSummarySnapshot) -> Seq<MirrorIncrement> {
    grown(MirrorCounter::Dropped, snapshot.dropped_total) + grown(
        MirrorCounter::TimedOut,
        snapshot.timed_out_total,
    ) + grown(MirrorCounter::Mirrored, snapshot.mirrored_total) + grown(
        MirrorCounter::Skipped,
        snapshot.skipped_total,
    ) + grown(MirrorCounter::Rejected, snapshot.rejected_total)
}

fn push_increment(list: &mut Vec<MirrorIncrement>, counter: MirrorCounter, amount: u64)
    ensures
        final(list)@ == old(list)@ + grown(counter, amount),
{
    if amount > 0 {
        list.push(MirrorIncrement { counter, amount });
    }
    assert(list@ =~= old(list)@ + grown(counter, amount));
}

/// The counts of mirrored requests that grow; those that stay as they are are left alone.
pub fn mirror_increments(snapshot: &MirrorSummarySnapshot) -> (r: Vec<MirrorIncrement>)
    ensures
        r@ == mirror_growth(*snapshot),
{
    let mut list: Vec<MirrorIncrement> = Vec::new();
    push_increment(&mut list, MirrorCounter::Dropped, snapshot.dropped_total);
    push_increment(&mut list, MirrorCounter::TimedOut, snapshot.timed_out_total);
    push_increment(&mut list, MirrorCounter::Mirrored, snapshot.mirrored_total);
    push_increment(&mut list, MirrorCounter::Skipped, snapshot.skipped_total);
    push_increment(&mut list, MirrorCounter::Rejected, snapshot.rejected_total);
    assert(list@ =~= mirror_growth(*snapshot));
    list
}

/// The label of a count of mirrored requests.
pub open spec fn mirror_label(counter: MirrorCounter) -> Seq<char> {
    match counter {
        MirrorCounter::Dropped => "sampled_out"@,
        MirrorCounter::TimedOut => "timeout"@,
        MirrorCounter::Mirrored => "mirrored"@,
        MirrorCounter::Skipped => "skipped"@,
        MirrorCounter::Rejected => "rejected"@,
    }
}

/// The label of a count of mirrored requests.
pub fn mirror_counter_label(counter: MirrorCounter) -> (r: &'static str)
    ensures
        r@ == mirror_label(counter),
{
    match counter {
        MirrorCounter::Dropped => "sampled_out",
        MirrorCounter::TimedOut => "timeout",
        MirrorCounter::Mirrored => "mirrored",
        MirrorCounter::Skipped => "skipped",
        MirrorCounter::Rejected => "rejected",
    }
}

/// Under which outcome the duration of mirrored requests is recorded.
pub fn mirror_duration_outcome(snapshot: &MirrorSummarySnapshot) -> (r: MirrorCounter)
    ensures
        r == if snapshot.mirrored_total > 0 {
            MirrorCounter::Mirrored
        } else if snapshot.skipped_total > 0 {
            MirrorCounter::Skipped
        } else if snapshot.rejected_total > 0 {
            MirrorCounter::Rejected
        } else {
            MirrorCounter::TimedOut
        },
        r is Mirrored <==> snapshot.mirrored_total > 0,
        r is TimedOut <==> snapshot.mirrored_total == 0 && snapshot.skipped_total == 0
            && snapshot.rejected_total == 0,
{
    if snapshot.mirrored_total > 0 {
        MirrorCounter::Mirrored
    } else if snapshot.skipped_total > 0 {
        MirrorCounter::Skipped
    } else if snapshot.rejected_total > 0 {
        MirrorCounter::Rejected
    } else {
        MirrorCounter::TimedOut
    }
}

/// What is counted of where a request was sent.
#[derive(Clone, Copy, Debug, PartialEq, Eq, Structural)]
pub struct RouteCounts {
    pub target_role: Option<BackendRole>,
    pub query_class: QueryClass,
    pub fallback: Option<FallbackPolicy>,
    pub rejection: Option<FreshnessStatus>,
}

/// What is counted of where a request was sent: the decision, the way out of a missing replica where
/// one was taken, and, where the request was turned away, how fresh the replicas were.
pub fn route_counts(snapshot: &RouteCheckoutSnapshot) -> (r: RouteCounts)
    ensures
        r.target_role == snapshot.decision.role(),
        r.query_class == snapshot.route_key.query_class,
        r.fallback == fallback_of(snapshot.decision.because()),
        r.rejection == if snapshot.decision is Reject {
            snapshot.freshness_outcome
        } else {
            None
        },
        r.rejection is Some ==> snapshot.decision is Reject,
{
    RouteCounts {
        target_role: snapshot.decision.target_role(),
        query_class: snapshot.route_key.query_class,
        fallback: fallback_policy_from_reason(snapshot.decision.reason()),
        rejection: match snapshot.decision {
            RoutingTarget::Reject { reason: _ } => snapshot.freshness_outcome,
            _ => None,
        },
    }
}

/// Whether something succeeded, as it is counted.
pub open spec fn success_label(success: bool) -> Seq<char> {
    if success {
        "success"@
    } else {
        "failure"@
    }
}

/// Whether something succeeded, as it is counted.
pub fn outcome_label(success: bool) -> (r: &'static str)
    ensures
        r@ == success_label(success),
{
    if success {
        "success"
    } else {
        "failure"
    }
}

/// Why new route maps were refused, as it is counted.
pub fn route_map_reload_error_code_label(snapshot: &RouteMapReloadSnapshot) -> (r: String)
    ensures
        r@ == text_or(snapshot.error_code, "none"@),
{
    opt_or(&snapshot.error_code, "none")
}

/// What is counted of a recorded decision of a policy.
#[derive(Clone, Copy, Debug, PartialEq, Eq, Structural)]
pub struct PolicyCounts {
    /// The decision itself is counted, besides its record.
    pub decision: bool,
    /// It was only tried out.
    pub dry_run: bool,
    /// It turned the request away.
    pub denied: bool,
}

/// What is counted of a decision of a policy.
pub fn policy_counts(event: &PolicyAuditEvent) -> (r: PolicyCounts)
    ensures
        r.decision == (event.kind@ == "decision"@),
        r.dry_run == (event.outcome@ == "dry_run"@),
        r.denied == (event.action is Deny),
{
    PolicyCounts {
        decision: same_text(event.kind.as_str(), "decision"),
        dry_run: same_text(event.outcome.as_str(), "dry_run"),
        denied: match event.action {
            PolicyAction::Deny => true,
            _ => false,
        },
    }
}

/// The reason of a recorded decision, as it is counted.
pub fn policy_reason_label(event: &PolicyAuditEvent) -> (r: String)
    ensures
        r@ == text_or(event.reason, "none"@),
{
    opt_or(&event.reason, "none")
}

/// Keeps the pool's snapshot.
pub fn record_pool_snapshot(store: &mut SnapshotStore, snapshot: PoolSnapshot)
    requires
        old(store).wf(),
    ensures
        final(store).wf(),
        final(store)@ == (StoreFacts { pool: snapshot, ..old(store)@ }),
{
    store.set_pool_snapshot(snapshot);
}

/// Keeps the snapshot of a server connection.
pub fn record_server_snapshot(store: &mut SnapshotStore, snapshot: ServerSnapshot)
    requires
        old(store).wf(),
    ensures
        final(store).wf(),
        final(store)@ == (StoreFacts {
            servers: old(store)@.servers.insert(snapshot.backend_id, snapshot),
            ..old(store)@
        }),
{
    store.set_server_snapshot(snapshot);
}

/// Forgets the snapshot of a server connection.
pub fn remove_server_snapshot(store: &mut SnapshotStore, backend_id: u64)
    requires
        old(store).wf(),
    ensures
        final(store).wf(),
        final(store)@ == (StoreFacts {
            servers: old(store)@.servers.remove(backend_id),
            ..old(store)@
        }),
{
    let _ = store.remove_server_snapshot(backend_id);
}

/// Each count of the mirror grows by its own number, and those that do not grow are left out.
pub proof fn law_mirror_counts_grow(snapshot: MirrorSummarySnapshot, i: int)
    requires
        0 <= i < mirror_growth(snapshot).len(),
    ensures
        mirror_growth(snapshot)[i].amount > 0,
        mirror_growth(snapshot)[i].amount == match mirror_growth(snapshot)[i].counter {
            MirrorCounter::Dropped => snapshot.dropped_total,
            MirrorCounter::TimedOut => snapshot.timed_out_total,
            MirrorCounter::Mirrored => snapshot.mirrored_total,
            MirrorCounter::Skipped => snapshot.skipped_total,
            MirrorCounter::Rejected => snapshot.rejected_total,
        },
{
}

/// A fallback is counted under the policy that its reason names.
pub proof fn law_fallback_by_reason(reason: RoutingReason)
    ensures
        fallback_of(reason) == Some(FallbackPolicy::Primary) <==> reason is FallbackPrimary,
        fallback_of(reason) == Some(FallbackPolicy::Reject) <==> reason is FallbackReject,
        fallback_of(reason) == Some(FallbackPolicy::Wait) <==> reason is FallbackWait,
        fallback_of(reason) is None <==> !(reason is FallbackPrimary) && !(
        reason is FallbackReject) && !(reason is FallbackWait),
{
}

/// Labels of counts.
pub proof fn law_count_labels(counter: MirrorCounter, success: bool)
    ensures
        counter is Dropped ==> mirror_label(counter) == "sampled_out"@,
        counter is TimedOut ==> mirror_label(counter) == "timeout"@,
        counter is Mirrored ==> mirror_label(counter) == "mirrored"@,
        counter is Skipped ==> mirror_label(counter) == "skipped"@,
        counter is Rejected ==> mirror_label(counter) == "rejected"@,
        success ==> success_label(success) == "success"@,
        !success ==> success_label(success) == "failure"@,
{
}

/// A shard's bucket is one of eight, by the FNV-1a hash of its name.
pub proof fn law_bucket_by_hash(bytes: Seq<u8>, byte: u8, shard: Seq<char>)
    ensures
        mixed_bytes(Seq::empty()) == 0xcbf2_9ce4_8422_2325u64,
        mixed_bytes(bytes.push(byte)) == vstd::wrapping::u64_specs::wrapping_mul(
            mixed_bytes(bytes) ^ (byte as u64),
            0x100_0000_01b3,
        ),
        bucket_text(Some(shard)) == "bucket_"@ + decimal((mixed_bytes(utf8_bytes(shard)) % 8) as nat),
        bucket_text(None) == "unassigned"@,
{
    assert(bytes.push(byte).drop_last() =~= bytes);
}

} // verus!
