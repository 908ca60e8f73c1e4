//! The security modes of a connection, and whether the proxy admits and serves clients.
use vstd::prelude::*;

verus! {

/// Whether clients may or must speak TLS.
#[derive(Clone, Copy, Debug, PartialEq, Eq, Structural)]
pub enum ClientTlsMode {
    Disable,
    Allow,
    Require,
    VerifyClient,
}

impl ClientTlsMode {
    /// The name under which the value is written.
    pub open spec fn name(self) -> Seq<char> {
        match self {
            ClientTlsMode::Disable => "disable"@,
            ClientTlsMode::Allow => "allow"@,
            ClientTlsMode::Require => "require"@,
            ClientTlsMode::VerifyClient => "verify_client"@,
        }
    }

    /// The name under which the value is written.
    pub fn as_str(self) -> (r: &'static str)
        ensures
            r@ == self.name(),
    {
        match self {
            ClientTlsMode::Disable => "disable",
            ClientTlsMode::Allow => "allow",
            ClientTlsMode::Require => "require",
            ClientTlsMode::VerifyClient => "verify_client",
        }
    }

    /// What each value is written as.
    pub proof fn law_written_as(self)
        ensures
            self is Disable ==> self.name() == "disable"@,
            self is Allow ==> self.name() == "allow"@,
            self is Require ==> self.name() == "require"@,
            self is VerifyClient ==> self.name() == "verify_client"@,
    {
    }

    /// No two values have the same name.
    pub proof fn law_names_differ(a: ClientTlsMode, b: ClientTlsMode)
        requires
            a.name() == b.name(),
        ensures
            a == b,
    {
        reveal_strlit("disable");
        reveal_strlit("allow");
        reveal_strlit("require");
        reveal_strlit("verify_client");
        assert("disable"@.len() == 7 && "disable"@[0] == 'd');
        assert("allow"@.len() == 5 && "allow"@[0] == 'a');
        assert("require"@.len() == 7 && "require"@[0] == 'r');
        assert("verify_client"@.len() == 13 && "verify_client"@[0] == 'v');
    }
}

/// Whether servers may or must speak TLS.
#[derive(Clone, Copy, Debug, PartialEq, Eq, Structural)]
pub enum BackendTlsMode {
    Disable,
    Prefer,
    Require,
    VerifyCa,
    VerifyFull,
}

impl BackendTlsMode {
    /// The name under which the value is written.
    pub open spec fn name(self) -> Seq<char> {
        match self {
            BackendTlsMode::Disable => "disable"@,
            BackendTlsMode::Prefer => "prefer"@,
            BackendTlsMode::Require => "require"@,
            BackendTlsMode::VerifyCa => "verify_ca"@,
            BackendTlsMode::VerifyFull => "verify_full"@,
        }
    }

    /// The name under which the value is written.
    pub fn as_str(self) -> (r: &'static str)
        ensures
            r@ == self.name(),
    {
        match self {
            BackendTlsMode::Disable => "disable",
            BackendTlsMode::Prefer => "prefer",
            BackendTlsMode::Require => "require",
            BackendTlsMode::VerifyCa => "verify_ca",
            BackendTlsMode::VerifyFull => "verify_full",
        }
    }

    /// What each value is written as.
    pub proof fn law_written_as(self)
        ensures
            self is Disable ==> self.name() == "disable"@,
            self is Prefer ==> self.name() == "prefer"@,
            self is Require ==> self.name() == "require"@,
            self is VerifyCa ==> self.name() == "verify_ca"@,
            self is VerifyFull ==> self.name() == "verify_full"@,
    {
    }

    /// No two values have the same name.
    pub proof fn law_names_differ(a: BackendTlsMode, b: BackendTlsMode)
        requires
            a.name() == b.name(),
        ensures
            a == b,
    {
        reveal_strlit("disable");
        reveal_strlit("prefer");
        reveal_strlit("require");
        reveal_strlit("verify_ca");
        reveal_strlit("verify_full");
        assert("disable"@.len() == 7 && "disable"@[0] == 'd');
        assert("prefer"@.len() == 6 && "prefer"@[0] == 'p');
        assert("require"@.len() == 7 && "require"@[0] == 'r');
        assert("verify_ca"@.len() == 9 && "verify_ca"@[0] == 'v');
        assert("verify_full"@.len() == 11 && "verify_full"@[0] == 'v');
    }
}

/// How clients prove who they are.
#[derive(Clone, Copy, Debug, PartialEq, Eq, Structural)]
pub enum AuthMode {
    PassThrough,
    Trust,
    ScramSha256,
    Md5,
}

impl AuthMode {
    /// The name under which the value is written.
    pub open spec fn name(self) -> Seq<char> {
        match self {
            AuthMode::PassThrough => "pass_through"@,
            AuthMode::Trust => "trust"@,
            AuthMode::ScramSha256 => "scram_sha_256"@,
            AuthMode::Md5 => "md5"@,
        }
    }

    /// The name under which the value is written.
    pub fn as_str(self) -> (r: &'static str)
        ensures
            r@ == self.name(),
    {
        match self {
            AuthMode::PassThrough => "pass_through",
            AuthMode::Trust => "trust",
            AuthMode::ScramSha256 => "scram_sha_256",
            AuthMode::Md5 => "md5",
        }
    }

    /// What each value is written as.
    pub proof fn law_written_as(self)
        ensures
            self is PassThrough ==> self.name() == "pass_through"@,
            self is Trust ==> self.name() == "trust"@,
            self is ScramSha256 ==> self.name() == "scram_sha_256"@,
            self is Md5 ==> self.name() == "md5"@,
    {
    }

    /// No two values have the same name.
    pub proof fn law_names_differ(a: AuthMode, b: AuthMode)
        requires
            a.name() == b.name(),
        ensures
            a == b,
    {
        reveal_strlit("pass_through");
        reveal_strlit("trust");
        reveal_strlit("scram_sha_256");
        reveal_strlit("md5");
        assert("pass_through"@.len() == 12);
        assert("trust"@.len() == 5);
        assert("scram_sha_256"@.len() == 13);
        assert("md5"@.len() == 3);
    }
}

/// How far the proxy has wound down.
#[derive(Clone, Copy, Debug, PartialEq, Eq, Structural)]
pub enum DrainState {
    Accepting,
    Draining,
    Drained,
}

impl DrainState {
    /// The name under which the value is written.
    pub open spec fn name(self) -> Seq<char> {
        match self {
            DrainState::Accepting => "accepting"@,
            DrainState::Draining => "draining"@,
            DrainState::Drained => "drained"@,
        }
    }

    /// The name under which the value is written.
    pub fn as_str(self) -> (r: &'static str)
        ensures
            r@ == self.name(),
    {
        match self {
            DrainState::Accepting => "accepting",
            DrainState::Draining => "draining",
            DrainState::Drained => "drained",
        }
    }

    /// What each value is written as.
    pub proof fn law_written_as(self)
        ensures
            self is Accepting ==> self.name() == "accepting"@,
            self is Draining ==> self.name() == "draining"@,
            self is Drained ==> self.name() == "drained"@,
    {
    }

    /// No two values have the same name.
    pub proof fn law_names_differ(a: DrainState, b: DrainState)
        requires
            a.name() == b.name(),
        ensures
            a == b,
    {
        reveal_strlit("accepting");
        reveal_strlit("draining");
        reveal_strlit("drained");
        assert("accepting"@.len() == 9);
        assert("draining"@.len() == 8);
        assert("drained"@.len() == 7);
    }
}

/// What a health check reports.
#[derive(Clone, Copy, Debug, PartialEq, Eq, Structural)]
pub enum HealthStatus {
    Ready,
    NotReady,
    Live,
    Degraded,
}

impl HealthStatus {
    /// The name under which the value is written.
    pub open spec fn name(self) -> Seq<char> {
        match self {
            HealthStatus::Ready => "ready"@,
            HealthStatus::NotReady => "not_ready"@,
            HealthStatus::Live => "live"@,
            HealthStatus::Degraded => "degraded"@,
        }
    }

    /// The name under which the value is written.
    pub fn as_str(self) -> (r: &'static str)
        ensures
            r@ == self.name(),
    {
        match self {
            HealthStatus::Ready => "ready",
            HealthStatus::NotReady => "not_ready",
            HealthStatus::Live => "live",
            HealthStatus::Degraded => "degraded",
        }
    }

    /// What each value is written as.
    pub proof fn law_written_as(self)
        ensures
            self is Ready ==> self.name() == "ready"@,
            self is NotReady ==> self.name() == "not_ready"@,
            self is Live ==> self.name() == "live"@,
            self is Degraded ==> self.name() == "degraded"@,
    {
    }

    /// No two values have the same name.
    pub proof fn law_names_differ(a: HealthStatus, b: HealthStatus)
        requires
            a.name() == b.name(),
        ensures
            a == b,
    {
        reveal_strlit("ready");
        reveal_strlit("not_ready");
        reveal_strlit("live");
        reveal_strlit("degraded");
        assert("ready"@.len() == 5);
        assert("not_ready"@.len() == 9);
        assert("live"@.len() == 4);
        assert("degraded"@.len() == 8);
    }
}

} // verus!
