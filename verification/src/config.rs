//! The settings of the proxy: their defaults, the checks that they must pass, and which of them
//! can change while it runs.
use vstd::prelude::*;

use crate::adaptive::{
    AdaptiveApplyError, AdaptiveOutcome, AdaptiveRecommendation, TunableKnob, TuningBound,
};
use crate::address::SocketAddress;
use crate::clock::Duration;
use crate::double::Double;
use crate::modes::{
    AdaptiveMode, FallbackPolicy, FreshnessPolicy, MirrorMode, PolicyHookPoint, PolicyMode,
    ReadRoutingMode, RecoveryMode, RuntimeEngine,
};
use crate::security;
use crate::text::{
    blank, clone_opt, count_pairs, decimal, is_blank, join2, join3, join4, join5, opt_text,
    pair_count, parse_unsigned, push_char, read_unsigned, same_opt, same_opt_path,
    same_opt_path_text, same_text, shown_text, shown_text_of, texts, u64_text, usize_text,
};

verus! {

/// What a check found wrong, where it found anything.
pub open spec fn complaint(r: Result<(), String>) -> Option<Seq<char>> {
    match r {
        Ok(_) => None,
        Err(message) => Some(message@),
    }
}

/// Whether clients may or must speak TLS.
#[derive(Clone, Copy, Debug, PartialEq, Eq, Structural)]
pub enum ClientTlsMode {
    Disable,
    Allow,
    Require,
    VerifyClient,
}

impl ClientTlsMode {
    /// The name under which the value is written.
    pub open spec fn name(self) -> Seq<char> {
        match self {
            ClientTlsMode::Disable => "disable"@,
            ClientTlsMode::Allow => "allow"@,
            ClientTlsMode::Require => "require"@,
            ClientTlsMode::VerifyClient => "verify_client"@,
        }
    }

    /// The name under which the value is written.
    pub fn as_str(self) -> (r: &'static str)
        ensures
            r@ == self.name(),
    {
        match self {
            ClientTlsMode::Disable => "disable",
            ClientTlsMode::Allow => "allow",
            ClientTlsMode::Require => "require",
            ClientTlsMode::VerifyClient => "verify_client",
        }
    }

    /// What each value is written as.
    pub proof fn law_written_as(self)
        ensures
            self is Disable ==> self.name() == "disable"@,
            self is Allow ==> self.name() == "allow"@,
            self is Require ==> self.name() == "require"@,
            self is VerifyClient ==> self.name() == "verify_client"@,
    {
    }

    /// No two values have the same name.
    pub proof fn law_names_differ(a: ClientTlsMode, b: ClientTlsMode)
        requires
            a.name() == b.name(),
        ensures
            a == b,
    {
        reveal_strlit("disable");
        reveal_strlit("allow");
        reveal_strlit("require");
        reveal_strlit("verify_client");
        assert("disable"@.len() == 7 && "disable"@[0] == 'd');
        assert("allow"@.len() == 5 && "allow"@[0] == 'a');
        assert("require"@.len() == 7 && "require"@[0] == 'r');
        assert("verify_client"@.len() == 13 && "verify_client"@[0] == 'v');
    }
}

/// Whether servers may or must speak TLS.
#[derive(Clone, Copy, Debug, PartialEq, Eq, Structural)]
pub enum BackendTlsMode {
    Disable,
    Prefer,
    Require,
    VerifyCa,
    VerifyFull,
}

impl BackendTlsMode {
    /// The name under which the value is written.
    pub open spec fn name(self) -> Seq<char> {
        match self {
            BackendTlsMode::Disable => "disable"@,
            BackendTlsMode::Prefer => "prefer"@,
            BackendTlsMode::Require => "require"@,
            BackendTlsMode::VerifyCa => "verify_ca"@,
            BackendTlsMode::VerifyFull => "verify_full"@,
        }
    }

    /// The name under which the value is written.
    pub fn as_str(self) -> (r: &'static str)
        ensures
            r@ == self.name(),
    {
        match self {
            BackendTlsMode::Disable => "disable",
            BackendTlsMode::Prefer => "prefer",
            BackendTlsMode::Require => "require",
            BackendTlsMode::VerifyCa => "verify_ca",
            BackendTlsMode::VerifyFull => "verify_full",
        }
    }

    /// What each value is written as.
    pub proof fn law_written_as(self)
        ensures
            self is Disable ==> self.name() == "disable"@,
            self is Prefer ==> self.name() == "prefer"@,
            self is Require ==> self.name() == "require"@,
            self is VerifyCa ==> self.name() == "verify_ca"@,
            self is VerifyFull ==> self.name() == "verify_full"@,
    {
    }

    /// No two values have the same name.
    pub proof fn law_names_differ(a: BackendTlsMode, b: BackendTlsMode)
        requires
            a.name() == b.name(),
        ensures
            a == b,
    {
        reveal_strlit("disable");
        reveal_strlit("prefer");
        reveal_strlit("require");
        reveal_strlit("verify_ca");
        reveal_strlit("verify_full");
        assert("disable"@.len() == 7 && "disable"@[0] == 'd');
        assert("prefer"@.len() == 6 && "prefer"@[0] == 'p');
        assert("require"@.len() == 7 && "require"@[0] == 'r');
        assert("verify_ca"@.len() == 9 && "verify_ca"@[0] == 'v');
        assert("verify_full"@.len() == 11 && "verify_full"@[0] == 'v');
    }
}

/// How clients prove who they are.
#[derive(Clone, Copy, Debug, PartialEq, Eq, Structural)]
pub enum AuthMode {
    PassThrough,
    Trust,
    ScramSha256,
    Md5,
}

impl AuthMode {
    /// The name under which the value is written.
    pub open spec fn name(self) -> Seq<char> {
        match self {
            AuthMode::PassThrough => "pass_through"@,
            AuthMode::Trust => "trust"@,
            AuthMode::ScramSha256 => "scram_sha_256"@,
            AuthMode::Md5 => "md5"@,
        }
    }

    /// The name under which the value is written.
    pub fn as_str(self) -> (r: &'static str)
        ensures
            r@ == self.name(),
    {
        match self {
            AuthMode::PassThrough => "pass_through",
            AuthMode::Trust => "trust",
            AuthMode::ScramSha256 => "scram_sha_256",
            AuthMode::Md5 => "md5",
        }
    }

    /// What each value is written as.
    pub proof fn law_written_as(self)
        ensures
            self is PassThrough ==> self.name() == "pass_through"@,
            self is Trust ==> self.name() == "trust"@,
            self is ScramSha256 ==> self.name() == "scram_sha_256"@,
            self is Md5 ==> self.name() == "md5"@,
    {
    }

    /// No two values have the same name.
    pub proof fn law_names_differ(a: AuthMode, b: AuthMode)
        requires
            a.name() == b.name(),
        ensures
            a == b,
    {
        reveal_strlit("pass_through");
        reveal_strlit("trust");
        reveal_strlit("scram_sha_256");
        reveal_strlit("md5");
        assert("pass_through"@.len() == 12);
        assert("trust"@.len() == 5);
        assert("scram_sha_256"@.len() == 13);
        assert("md5"@.len() == 3);
    }
}

/// How long a client keeps a server connection.
#[derive(Clone, Copy, Debug, PartialEq, Eq, Structural)]
pub enum PoolMode {
    Transaction,
    Session,
}

impl PoolMode {
    /// The name under which the value is written.
    pub open spec fn name(self) -> Seq<char> {
        match self {
            PoolMode::Transaction => "transaction"@,
            PoolMode::Session => "session"@,
        }
    }

    /// The name under which the value is written.
    pub fn as_str(self) -> (r: &'static str)
        ensures
            r@ == self.name(),
    {
        match self {
            PoolMode::Transaction => "transaction",
            PoolMode::Session => "session",
        }
    }

    /// What each value is written as.
    pub proof fn law_written_as(self)
        ensures
            self is Transaction ==> self.name() == "transaction"@,
            self is Session ==> self.name() == "session"@,
    {
    }

    /// No two values have the same name.
    pub proof fn law_names_differ(a: PoolMode, b: PoolMode)
        requires
            a.name() == b.name(),
        ensures
            a == b,
    {
        reveal_strlit("transaction");
        reveal_strlit("session");
        assert("transaction"@.len() == 11);
        assert("session"@.len() == 7);
    }
}

impl Default for PoolMode {
    fn default() -> (r: PoolMode)
        ensures
            r == PoolMode::Transaction,
    {
        PoolMode::Transaction
    }
}

/// How much a refused client is told.
#[derive(Clone, Copy, Debug, PartialEq, Eq, Structural)]
pub enum AuthFailureMessageMode {
    Generic,
    Detailed,
}

impl AuthFailureMessageMode {
    /// The name under which the value is written.
    pub open spec fn name(self) -> Seq<char> {
        match self {
            AuthFailureMessageMode::Generic => "generic"@,
            AuthFailureMessageMode::Detailed => "detailed"@,
        }
    }

    /// The name under which the value is written.
    pub fn as_str(self) -> (r: &'static str)
        ensures
            r@ == self.name(),
    {
        match self {
            AuthFailureMessageMode::Generic => "generic",
            AuthFailureMessageMode::Detailed => "detailed",
        }
    }

    /// What each value is written as.
    pub proof fn law_written_as(self)
        ensures
            self is Generic ==> self.name() == "generic"@,
            self is Detailed ==> self.name() == "detailed"@,
    {
    }

    /// No two values have the same name.
    pub proof fn law_names_differ(a: AuthFailureMessageMode, b: AuthFailureMessageMode)
        requires
            a.name() == b.name(),
        ensures
            a == b,
    {
        reveal_strlit("generic");
        reveal_strlit("detailed");
        assert("generic"@.len() == 7);
        assert("detailed"@.len() == 8);
    }
}

impl ClientTlsMode {
    /// The same mode as the security model names it.
    pub open spec fn core_mode(self) -> security::ClientTlsMode {
        match self {
            ClientTlsMode::Disable => security::ClientTlsMode::Disable,
            ClientTlsMode::Allow => security::ClientTlsMode::Allow,
            ClientTlsMode::Require => security::ClientTlsMode::Require,
            ClientTlsMode::VerifyClient => security::ClientTlsMode::VerifyClient,
        }
    }

    /// The same mode as the security model names it.
    pub fn to_core(self) -> (r: security::ClientTlsMode)
        ensures
            r == self.core_mode(),
    {
        match self {
            ClientTlsMode::Disable => security::ClientTlsMode::Disable,
            ClientTlsMode::Allow => security::ClientTlsMode::Allow,
            ClientTlsMode::Require => security::ClientTlsMode::Require,
            ClientTlsMode::VerifyClient => security::ClientTlsMode::VerifyClient,
        }
    }
}

impl BackendTlsMode {
    /// The same mode as the security model names it.
    pub open spec fn core_mode(self) -> security::BackendTlsMode {
        match self {
            BackendTlsMode::Disable => security::BackendTlsMode::Disable,
            BackendTlsMode::Prefer => security::BackendTlsMode::Prefer,
            BackendTlsMode::Require => security::BackendTlsMode::Require,
            BackendTlsMode::VerifyCa => security::BackendTlsMode::VerifyCa,
            BackendTlsMode::VerifyFull => security::BackendTlsMode::VerifyFull,
        }
    }

    /// The same mode as the security model names it.
    pub fn to_core(self) -> (r: security::BackendTlsMode)
        ensures
            r == self.core_mode(),
    {
        match self {
            BackendTlsMode::Disable => security::BackendTlsMode::Disable,
            BackendTlsMode::Prefer => security::BackendTlsMode::Prefer,
            BackendTlsMode::Require => security::BackendTlsMode::Require,
            BackendTlsMode::VerifyCa => security::BackendTlsMode::VerifyCa,
            BackendTlsMode::VerifyFull => security::BackendTlsMode::VerifyFull,
        }
    }
}

impl AuthMode {
    /// The same mode as the security model names it.
    pub open spec fn core_mode(self) -> security::AuthMode {
        match self {
            AuthMode::PassThrough => security::AuthMode::PassThrough,
            AuthMode::Trust => security::AuthMode::Trust,
            AuthMode::ScramSha256 => security::AuthMode::ScramSha256,
            AuthMode::Md5 => security::AuthMode::Md5,
        }
    }

    /// The same mode as the security model names it.
    pub fn to_core(self) -> (r: security::AuthMode)
        ensures
            r == self.core_mode(),
    {
        match self {
            AuthMode::PassThrough => security::AuthMode::PassThrough,
            AuthMode::Trust => security::AuthMode::Trust,
            AuthMode::ScramSha256 => security::AuthMode::ScramSha256,
            AuthMode::Md5 => security::AuthMode::Md5,
        }
    }
}

/// What mirrored traffic may do.
#[derive(Clone, Copy, Debug, PartialEq, Eq, Structural)]
pub struct MirrorSafetyConfig {
    pub mirror_writes_enabled: bool,
    pub mirror_transactions_enabled: bool,
    pub mirror_copy_enabled: bool,
    pub mirror_listen_notify_enabled: bool,
    pub mirror_temp_table_enabled: bool,
    pub mirror_session_mutation_enabled: bool,
    pub mirror_require_isolated_target: bool,
}

impl MirrorSafetyConfig {
    /// Whether every setting has its default.
    pub open spec fn is_default(self) -> bool {
        &&& self.mirror_writes_enabled == false
        &&& self.mirror_transactions_enabled == false
        &&& self.mirror_copy_enabled == false
        &&& self.mirror_listen_notify_enabled == false
        &&& self.mirror_temp_table_enabled == false
        &&& self.mirror_session_mutation_enabled == false
        &&& self.mirror_require_isolated_target == true
    }
}

impl Default for MirrorSafetyConfig {
    fn default() -> (r: MirrorSafetyConfig)
        ensures
            r.is_default(),
    {
        MirrorSafetyConfig {
            mirror_writes_enabled: false,
            mirror_transactions_enabled: false,
            mirror_copy_enabled: false,
            mirror_listen_notify_enabled: false,
            mirror_temp_table_enabled: false,
            mirror_session_mutation_enabled: false,
            mirror_require_isolated_target: true,
        }
    }
}

/// Where mirrored traffic goes.
#[derive(Clone, Copy, Debug, PartialEq, Eq, Structural)]
pub struct MirrorTargetConfig {
    pub address: Option<SocketAddress>,
    pub isolated: bool,
}

impl MirrorTargetConfig {
    /// Whether every setting has its default.
    pub open spec fn is_default(self) -> bool {
        &&& self.address is None
        &&& self.isolated == false
    }
}

impl Default for MirrorTargetConfig {
    fn default() -> (r: MirrorTargetConfig)
        ensures
            r.is_default(),
    {
        MirrorTargetConfig {
            address: None,
            isolated: false,
        }
    }
}

/// How much traffic is mirrored.
#[derive(Clone, Debug, PartialEq)]
pub struct MirrorSamplingConfig {
    pub mirror_sample_rate: Double,
}

impl MirrorSamplingConfig {
    /// Whether every setting has its default.
    pub open spec fn is_default(self) -> bool {
        &&& self.mirror_sample_rate.bits == 0
    }
}

impl MirrorSamplingConfig {
    /// The share of requests that are mirrored, between none and all of them.
    pub fn sample_rate(&self) -> (r: Double)
        ensures
            r == self.mirror_sample_rate.clamped(),
    {
        self.mirror_sample_rate.clamp_unit()
    }
}

impl Default for MirrorSamplingConfig {
    fn default() -> (r: MirrorSamplingConfig)
        ensures
            r.is_default(),
    {
        MirrorSamplingConfig {
            mirror_sample_rate: Double::zero(),
        }
    }
}

/// The mirroring of traffic to a second server.
#[derive(Clone, Debug, PartialEq)]
pub struct MirrorConfig {
    pub mirroring_enabled: bool,
    pub mirror_mode: MirrorMode,
    pub mirror_timeout_ms: u64,
    pub mirror_max_in_flight: usize,
    pub target: MirrorTargetConfig,
    pub sampling: MirrorSamplingConfig,
    pub safety: MirrorSafetyConfig,
}

impl MirrorConfig {
    /// Whether every setting has its default.
    pub open spec fn is_default(self) -> bool {
        &&& self.mirroring_enabled == false
        &&& self.mirror_mode == MirrorMode::Off
        &&& self.mirror_timeout_ms == 100
        &&& self.mirror_max_in_flight == 128
        &&& self.target.is_default()
        &&& self.sampling.is_default()
        &&& self.safety.is_default()
    }
}

impl Default for MirrorConfig {
    fn default() -> (r: MirrorConfig)
        ensures
            r.is_default(),
    {
        MirrorConfig {
            mirroring_enabled: false,
            mirror_mode: MirrorMode::Off,
            mirror_timeout_ms: 100,
            mirror_max_in_flight: 128,
            target: MirrorTargetConfig::default(),
            sampling: MirrorSamplingConfig::default(),
            safety: MirrorSafetyConfig::default(),
        }
    }
}

impl MirrorTargetConfig {
    /// Whether a target is set.
    pub fn is_configured(&self) -> (r: bool)
        ensures
            r == self.address is Some,
    {
        self.address.is_some()
    }

    /// What is wrong with the target next to the production server.
    pub open spec fn target_complaint(
        self,
        production: SocketAddress,
        isolated_only: bool,
    ) -> Option<
        Seq<char>,
    > {
        if isolated_only && !self.isolated && self.address == Some(production) {
            Some("mirror target must be marked isolated when it matches the production target"@)
        } else {
            None
        }
    }

    /// Checks that a target that is the production server itself is marked isolated, where that
    /// is asked for.
    pub fn validate_against(
        &self,
        production_target: SocketAddress,
        require_isolated_target: bool,
    ) -> (r: Result<(), String>)
        ensures
            complaint(r) == self.target_complaint(production_target, require_isolated_target),
    {
        match self.address {
            Some(address) => {
                if require_isolated_target && !self.isolated && address == production_target {
                    Err(
                        "mirror target must be marked isolated when it matches the production target".to_owned(),
                    )
                } else {
                    Ok(())
                }
            },
            None => Ok(()),
        }
    }
}

impl MirrorConfig {
    /// Whether traffic is mirrored.
    pub open spec fn enabled(self) -> bool {
        self.mirroring_enabled && self.mirror_mode.enabled()
    }

    /// Whether traffic is mirrored.
    pub fn is_enabled(&self) -> (r: bool)
        ensures
            r == self.enabled(),
    {
        self.mirroring_enabled && self.mirror_mode.is_enabled()
    }

    /// Checks that mirroring has a target that it may use.
    pub fn validate(&self, production_target: SocketAddress) -> (r: Result<(), String>)
        ensures
            complaint(r) == if self.enabled() && self.target.address is None {
                Some("mirror target must be explicitly configured"@)
            } else {
                self.target.target_complaint(
                    production_target,
                    self.safety.mirror_require_isolated_target,
                )
            },
            r is Ok <==> !(self.mirroring_enabled && !(self.mirror_mode is Off)
                && self.target.address is None) && !(self.safety.mirror_require_isolated_target
                && !self.target.isolated && self.target.address == Some(production_target)),
    {
        if self.is_enabled() && !self.target.is_configured() {
            return Err("mirror target must be explicitly configured".to_owned());
        }
        self.target.validate_against(production_target, self.safety.mirror_require_isolated_target)
    }
}

/// How the process starts and stops.
#[derive(Clone, Debug, PartialEq)]
pub struct LifecycleConfig {
    pub startup_grace_ms: u64,
    pub shutdown_grace_ms: u64,
    pub readiness_fail_during_drain: bool,
    pub pre_stop_drain_enabled: bool,
    pub pre_stop_drain_endpoint: String,
    pub startup_backend_checks_enabled: bool,
    pub termination_grace_period_seconds: u64,
}

impl LifecycleConfig {
    /// Whether every setting has its default.
    pub open spec fn is_default(self) -> bool {
        &&& self.startup_grace_ms == 30_000
        &&& self.shutdown_grace_ms == 30_000
        &&& self.readiness_fail_during_drain == true
        &&& self.pre_stop_drain_enabled == true
        &&& self.pre_stop_drain_endpoint@ == "/drain"@
        &&& self.startup_backend_checks_enabled == true
        &&& self.termination_grace_period_seconds == 65
    }
}

impl Default for LifecycleConfig {
    fn default() -> (r: LifecycleConfig)
        ensures
            r.is_default(),
    {
        LifecycleConfig {
            startup_grace_ms: 30_000,
            shutdown_grace_ms: 30_000,
            readiness_fail_during_drain: true,
            pre_stop_drain_enabled: true,
            pre_stop_drain_endpoint: "/drain".to_owned(),
            startup_backend_checks_enabled: true,
            termination_grace_period_seconds: 65,
        }
    }
}

impl LifecycleConfig {
    /// How long starting may take.
    pub fn startup_grace(&self) -> (r: Duration)
        ensures
            r@ == self.startup_grace_ms * 1_000_000,
    {
        Duration::from_millis(self.startup_grace_ms)
    }

    /// How long stopping may take.
    pub fn shutdown_grace(&self) -> (r: Duration)
        ensures
            r@ == self.shutdown_grace_ms * 1_000_000,
    {
        Duration::from_millis(self.shutdown_grace_ms)
    }
}

impl LifecycleConfig {
    /// How long the environment waits before it ends the process.
    pub fn termination_grace_period(&self) -> (r: Duration)
        ensures
            r@ == self.termination_grace_period_seconds * 1_000_000_000,
    {
        Duration::from_secs(self.termination_grace_period_seconds)
    }

    /// Whether two sets of these settings are the same.
    pub open spec fn same(self, other: LifecycleConfig) -> bool {
        &&& self.startup_grace_ms == other.startup_grace_ms
        &&& self.shutdown_grace_ms == other.shutdown_grace_ms
        &&& self.readiness_fail_during_drain == other.readiness_fail_during_drain
        &&& self.pre_stop_drain_enabled == other.pre_stop_drain_enabled
        &&& self.pre_stop_drain_endpoint@ == other.pre_stop_drain_endpoint@
        &&& self.startup_backend_checks_enabled == other.startup_backend_checks_enabled
        &&& self.termination_grace_period_seconds == other.termination_grace_period_seconds
    }

    fn same_as(&self, other: &LifecycleConfig) -> (r: bool)
        ensures
            r == self.same(*other),
    {
        self.startup_grace_ms == other.startup_grace_ms && self.shutdown_grace_ms
            == other.shutdown_grace_ms && self.readiness_fail_during_drain
            == other.readiness_fail_during_drain && self.pre_stop_drain_enabled
            == other.pre_stop_drain_enabled && same_text(
            self.pre_stop_drain_endpoint.as_str(),
            other.pre_stop_drain_endpoint.as_str(),
        ) && self.startup_backend_checks_enabled == other.startup_backend_checks_enabled
            && self.termination_grace_period_seconds == other.termination_grace_period_seconds
    }
}

/// The name of a node.
#[derive(Clone, Debug, PartialEq, Eq)]
pub struct NodeId {
    text: String,
}

impl View for NodeId {
    type V = Seq<char>;

    closed spec fn view(&self) -> Seq<char> {
        self.text@
    }
}

impl NodeId {
    /// A node's name.
    pub fn new(text: &str) -> (r: NodeId)
        ensures
            r@ == text@,
    {
        NodeId { text: text.to_owned() }
    }

    /// The name.
    pub fn as_str(&self) -> (r: &str)
        ensures
            r@ == self@,
    {
        self.text.as_str()
    }
}

/// Whether a character may stand in a node's name.
pub open spec fn in_node_name(c: char) -> bool {
    ||| 'a' <= c <= 'z'
    ||| 'A' <= c <= 'Z'
    ||| '0' <= c <= '9'
    ||| c == '-'
    ||| c == '_'
    ||| c == '.'
}

/// The name of a node on a host: the host's name with a dash for each character that may not
/// stand in a node's name, then the number of the process.
pub open spec fn node_name(host: Seq<char>, process: u32) -> Seq<char> {
    Seq::new(
        host.len(),
        |i: int|
            if in_node_name(host[i]) {
                host[i]
            } else {
                '-'
            },
    ) + "-"@ + decimal(process as nat)
}

/// The name of the node that runs as a process on a host.
pub fn default_node_id(hostname: &str, process_id: u32) -> (r: NodeId)
    ensures
        r@ == node_name(hostname@, process_id),
{
    let chars = crate::text::chars_of(hostname);
    let mut name = String::new();
    let mut i: usize = 0;
    while i < chars.len()
        invariant
            i <= chars@.len(),
            chars@ == hostname@,
            name@ == Seq::new(
                i as nat,
                |k: int|
                    if in_node_name(hostname@[k]) {
                        hostname@[k]
                    } else {
                        '-'
                    },
            ),
        decreases chars@.len() - i,
    {
        let c = chars[i];
        let fits = ('a' <= c && c <= 'z') || ('A' <= c && c <= 'Z') || ('0' <= c && c <= '9') || c
            == '-' || c == '_' || c == '.';
        push_char(
            &mut name,
            if fits {
                c
            } else {
                '-'
            },
        );
        i += 1;
        assert(name@ =~= Seq::new(
            i as nat,
            |k: int|
                if in_node_name(hostname@[k]) {
                    hostname@[k]
                } else {
                    '-'
                },
        ));
    }
    NodeId { text: join3(name.as_str(), "-", u64_text(process_id as u64).as_str()) }
}

/// Every character of a generated node name may stand in one.
pub proof fn law_node_name_is_clean(host: Seq<char>, process: u32)
    ensures
        forall|i: int|
            0 <= i < node_name(host, process).len() ==> in_node_name(
                #[trigger] node_name(host, process)[i],
            ),
{
    reveal_strlit("-");
    lemma_decimal_clean(process as nat);
    let name = node_name(host, process);
    assert forall|i: int| 0 <= i < name.len() implies in_node_name(#[trigger] name[i]) by {
        if i > host.len() {
            assert(name[i] == decimal(process as nat)[i - host.len() - 1]);
        } else if i == host.len() {
            assert(name[i] == "-"@[0]);
        }
    }
}

proof fn lemma_decimal_clean(n: nat)
    ensures
        forall|i: int| 0 <= i < decimal(n).len() ==> in_node_name(#[trigger] decimal(n)[i]),
    decreases n,
{
    if n >= 10 {
        lemma_decimal_clean(n / 10);
        assert forall|i: int| 0 <= i < decimal(n).len() implies in_node_name(
            #[trigger] decimal(n)[i],
        ) by {
            if i < decimal(n / 10).len() {
                assert(decimal(n)[i] == decimal(n / 10)[i]);
            }
        }
    }
}

/// Which node this is.
#[derive(Clone, Debug, PartialEq, Eq)]
pub struct NodeConfig {
    pub node_id: NodeId,
}

impl NodeConfig {
    /// Whether every setting has its default.
    pub open spec fn is_default(self) -> bool {
        self.node_id@ == node_name("localhost"@, 0)
    }
}

impl Default for NodeConfig {
    /// The node of a host without a name, before the process has taken its number.
    fn default() -> (r: NodeConfig)
        ensures
            r.is_default(),
    {
        NodeConfig { node_id: default_node_id("localhost", 0) }
    }
}

/// Which runtime drives the proxy.
#[derive(Clone, Copy, Debug, PartialEq, Eq, Structural)]
pub struct RuntimeEngineConfig {
    pub runtime_engine: RuntimeEngine,
    pub experimental_runtime_enabled: bool,
    pub runtime_shards: Option<usize>,
}

impl RuntimeEngineConfig {
    /// Whether every setting has its default.
    pub open spec fn is_default(self) -> bool {
        &&& self.runtime_engine == RuntimeEngine::TokioDefault
        &&& self.experimental_runtime_enabled == false
        &&& self.runtime_shards is None
    }
}

impl Default for RuntimeEngineConfig {
    fn default() -> (r: RuntimeEngineConfig)
        ensures
            r.is_default(),
    {
        RuntimeEngineConfig {
            runtime_engine: RuntimeEngine::TokioDefault,
            experimental_runtime_enabled: false,
            runtime_shards: None,
        }
    }
}

impl RuntimeEngineConfig {
    /// The first thing that is wrong with the settings.
    pub open spec fn engine_complaint(self) -> Option<Seq<char>> {
        if self.runtime_engine.experimental() && !self.experimental_runtime_enabled {
            Some(
                "runtime engine '"@ + self.runtime_engine.name()
                    + "' requires experimental_runtime_enabled = true"@,
            )
        } else if self.runtime_shards == Some(0usize) {
            Some("runtime_shards must be greater than zero"@)
        } else {
            None
        }
    }

    /// Checks that an experimental engine is asked for in so many words, and that there is a
    /// shard to run.
    pub fn validate(&self) -> (r: Result<(), String>)
        ensures
            complaint(r) == self.engine_complaint(),
    {
        if self.runtime_engine.is_experimental() && !self.experimental_runtime_enabled {
            return Err(
                join3(
                    "runtime engine '",
                    self.runtime_engine.as_str(),
                    "' requires experimental_runtime_enabled = true",
                ),
            );
        }
        match self.runtime_shards {
            Some(shards) => {
                if shards == 0 {
                    return Err("runtime_shards must be greater than zero".to_owned());
                }
            },
            None => {},
        }
        Ok(())
    }
}
// ---------------------------------------------------------------------------
// Adaptive tuning
// ---------------------------------------------------------------------------

/// How far one adaptive change may go.
#[derive(Clone, Copy, Debug, PartialEq, Eq, Structural)]
pub struct AdaptiveGuardrailConfig {
    pub adaptive_max_change_percent: u8,
}

impl AdaptiveGuardrailConfig {
    /// Whether every setting has its default.
    pub open spec fn is_default(self) -> bool {
        &&& self.adaptive_max_change_percent == 10
    }
}

impl Default for AdaptiveGuardrailConfig {
    fn default() -> (r: AdaptiveGuardrailConfig)
        ensures
            r.is_default(),
    {
        AdaptiveGuardrailConfig {
            adaptive_max_change_percent: 10,
        }
    }
}

impl AdaptiveGuardrailConfig {
    /// What is wrong with the limit.
    pub open spec fn guardrail_complaint(self) -> Option<Seq<char>> {
        if 1 <= self.adaptive_max_change_percent <= 100 {
            None
        } else {
            Some("adaptive_max_change_percent must be between 1 and 100"@)
        }
    }

    /// Checks that the limit is a percentage above zero.
    pub fn validate(&self) -> (r: Result<(), String>)
        ensures
            complaint(r) == self.guardrail_complaint(),
    {
        if self.adaptive_max_change_percent == 0 || self.adaptive_max_change_percent > 100 {
            return Err("adaptive_max_change_percent must be between 1 and 100".to_owned());
        }
        Ok(())
    }

    /// The bound that recommendations carry.
    pub fn safety_bound(&self) -> (r: TuningBound)
        ensures
            r == TuningBound::Percent(self.adaptive_max_change_percent),
    {
        TuningBound::Percent(self.adaptive_max_change_percent)
    }
}

/// Which adaptive changes may be made.
#[derive(Clone, Debug, PartialEq)]
pub struct AdaptiveApplyConfig {
    pub adaptive_apply_enabled: bool,
    pub adaptive_apply_allowlist: Vec<TunableKnob>,
}

impl AdaptiveApplyConfig {
    /// Whether every setting has its default.
    pub open spec fn is_default(self) -> bool {
        &&& self.adaptive_apply_enabled == false
        &&& self.adaptive_apply_allowlist@.len() == 0
    }
}

impl Default for AdaptiveApplyConfig {
    fn default() -> (r: AdaptiveApplyConfig)
        ensures
            r.is_default(),
    {
        AdaptiveApplyConfig {
            adaptive_apply_enabled: false,
            adaptive_apply_allowlist: Vec::new(),
        }
    }
}

/// Whether a list holds some value twice.
pub open spec fn has_repeat(knobs: Seq<TunableKnob>) -> bool {
    exists|i: int, j: int| 0 <= i < j < knobs.len() && knobs[i] == knobs[j]
}

impl AdaptiveApplyConfig {
    /// Whether changes may be made at all.
    pub fn is_enabled(&self) -> (r: bool)
        ensures
            r == self.adaptive_apply_enabled,
    {
        self.adaptive_apply_enabled
    }

    /// Whether a knob may be changed.
    pub fn allows(&self, knob: TunableKnob) -> (r: bool)
        ensures
            r == self.adaptive_apply_allowlist@.contains(knob),
    {
        let mut i: usize = 0;
        while i < self.adaptive_apply_allowlist.len()
            invariant
                i <= self.adaptive_apply_allowlist@.len(),
                forall|j: int| 0 <= j < i ==> self.adaptive_apply_allowlist@[j] != knob,
            decreases self.adaptive_apply_allowlist@.len() - i,
        {
            if self.adaptive_apply_allowlist[i] == knob {
                return true;
            }
            i += 1;
        }
        false
    }

    /// What is wrong with the list of knobs.
    pub open spec fn apply_complaint(self) -> Option<Seq<char>> {
        if has_repeat(self.adaptive_apply_allowlist@) {
            Some("adaptive_apply_allowlist cannot contain duplicate knobs"@)
        } else {
            None
        }
    }

    /// Checks that no knob is listed twice.
    pub fn validate(&self) -> (r: Result<(), String>)
        ensures
            complaint(r) == self.apply_complaint(),
    {
        let knobs = &self.adaptive_apply_allowlist;
        let mut i: usize = 0;
        while i < knobs.len()
            invariant
                i <= knobs@.len(),
                knobs@ == self.adaptive_apply_allowlist@,
                forall|a: int, b: int| 0 <= a < b < i ==> knobs@[a] != knobs@[b],
            decreases knobs@.len() - i,
        {
            let mut j: usize = 0;
            while j < i
                invariant
                    j <= i < knobs@.len(),
                    knobs@ == self.adaptive_apply_allowlist@,
                    forall|a: int| 0 <= a < j ==> knobs@[a] != knobs@[i as int],
                decreases i - j,
            {
                if knobs[j] == knobs[i] {
                    assert(has_repeat(self.adaptive_apply_allowlist@));
                    return Err("adaptive_apply_allowlist cannot contain duplicate knobs".to_owned());
                }
                j += 1;
            }
            i += 1;
        }
        Ok(())
    }

    /// What becomes of a recommendation under these settings.
    pub open spec fn judged(
        self,
        knob: TunableKnob,
        bound: TuningBound,
        guardrail: AdaptiveGuardrailConfig,
    ) -> Result<AdaptiveOutcome, AdaptiveApplyError> {
        if !self.adaptive_apply_enabled {
            Ok(AdaptiveOutcome::Skipped)
        } else if !self.adaptive_apply_allowlist@.contains(knob) {
            Err(AdaptiveApplyError::NotAllowed { knob })
        } else {
            match bound {
                TuningBound::Unbounded => Err(AdaptiveApplyError::UnboundedChange),
                TuningBound::Percent(percent) => if percent
                    > guardrail.adaptive_max_change_percent {
                    Err(
                        AdaptiveApplyError::MaxChangePercent {
                            percent,
                            limit: guardrail.adaptive_max_change_percent,
                        },
                    )
                } else {
                    Ok(AdaptiveOutcome::Applied)
                },
            }
        }
    }

    /// Judges a recommendation: skipped where changes are off, refused where its knob is not
    /// listed or its bound is too wide, and applied otherwise.
    pub fn evaluate(
        &self,
        recommendation: &AdaptiveRecommendation,
        guardrail: &AdaptiveGuardrailConfig,
    ) -> (r: Result<AdaptiveOutcome, AdaptiveApplyError>)
        ensures
            r == self.judged(recommendation.knob, recommendation.safety_bound, *guardrail),
    {
        if !self.adaptive_apply_enabled {
            return Ok(AdaptiveOutcome::Skipped);
        }
        if !self.allows(recommendation.knob) {
            return Err(AdaptiveApplyError::NotAllowed { knob: recommendation.knob });
        }
        match recommendation.safety_bound {
            TuningBound::Unbounded => Err(AdaptiveApplyError::UnboundedChange),
            TuningBound::Percent(percent) => {
                if percent > guardrail.adaptive_max_change_percent {
                    Err(
                        AdaptiveApplyError::MaxChangePercent {
                            percent,
                            limit: guardrail.adaptive_max_change_percent,
                        },
                    )
                } else {
                    Ok(AdaptiveOutcome::Applied)
                }
            },
        }
    }
}

/// The adaptive controller.
#[derive(Clone, Debug, PartialEq)]
pub struct AdaptiveConfig {
    pub adaptive_mode: AdaptiveMode,
    pub adaptive_window_ms: u64,
    pub adaptive_min_confidence: Double,
    pub apply: AdaptiveApplyConfig,
    pub guardrail: AdaptiveGuardrailConfig,
}

impl AdaptiveConfig {
    /// Whether every setting has its default.
    pub open spec fn is_default(self) -> bool {
        &&& self.adaptive_mode == AdaptiveMode::Recommend
        &&& self.adaptive_window_ms == 60_000
        &&& self.adaptive_min_confidence.bits == 0x3fe9_9999_9999_999a
        &&& self.apply.is_default()
        &&& self.guardrail.is_default()
    }
}

impl Default for AdaptiveConfig {
    fn default() -> (r: AdaptiveConfig)
        ensures
            r.is_default(),
    {
        AdaptiveConfig {
            adaptive_mode: AdaptiveMode::Recommend,
            adaptive_window_ms: 60_000,
            adaptive_min_confidence: Double::from_bits(0x3fe9_9999_9999_999a),
            apply: AdaptiveApplyConfig::default(),
            guardrail: AdaptiveGuardrailConfig::default(),
        }
    }
}

impl AdaptiveConfig {
    /// How often the controller looks.
    pub fn recommendation_window(&self) -> (r: Duration)
        ensures
            r@ == self.adaptive_window_ms * 1_000_000,
    {
        Duration::from_millis(self.adaptive_window_ms)
    }
}

impl AdaptiveConfig {
    /// The first thing that is wrong with the settings.
    pub open spec fn adaptive_complaint(self) -> Option<Seq<char>> {
        if !self.adaptive_min_confidence.in_unit_interval() {
            Some("adaptive_min_confidence must be between 0.0 and 1.0"@)
        } else if self.adaptive_window_ms == 0 {
            Some("adaptive_window_ms must be greater than zero"@)
        } else if self.guardrail.guardrail_complaint() is Some {
            self.guardrail.guardrail_complaint()
        } else if self.apply.apply_complaint() is Some {
            self.apply.apply_complaint()
        } else if self.adaptive_mode == AdaptiveMode::Apply && !self.apply.adaptive_apply_enabled {
            Some("adaptive mode 'apply' requires adaptive_apply_enabled = true"@)
        } else if self.adaptive_mode == AdaptiveMode::Apply
            && self.apply.adaptive_apply_allowlist@.len() == 0 {
            Some("adaptive mode 'apply' requires an explicit allowlist of tunable knobs"@)
        } else {
            None
        }
    }

    /// Checks the settings, in the order of `adaptive_complaint`.
    pub fn validate(&self) -> (r: Result<(), String>)
        ensures
            complaint(r) == self.adaptive_complaint(),
    {
        if !self.adaptive_min_confidence.within_unit() {
            return Err("adaptive_min_confidence must be between 0.0 and 1.0".to_owned());
        }
        if self.adaptive_window_ms == 0 {
            return Err("adaptive_window_ms must be greater than zero".to_owned());
        }
        match self.guardrail.validate() {
            Err(message) => {
                return Err(message);
            },
            Ok(()) => {},
        }
        match self.apply.validate() {
            Err(message) => {
                return Err(message);
            },
            Ok(()) => {},
        }
        if self.adaptive_mode.is_apply() {
            if !self.apply.adaptive_apply_enabled {
                return Err(
                    "adaptive mode 'apply' requires adaptive_apply_enabled = true".to_owned(),
                );
            }
            if self.apply.adaptive_apply_allowlist.is_empty() {
                return Err(
                    "adaptive mode 'apply' requires an explicit allowlist of tunable knobs".to_owned(),
                );
            }
        }
        Ok(())
    }

    /// What becomes of a recommendation under these settings.
    pub open spec fn judged(
        self,
        confidence: Double,
        knob: TunableKnob,
        bound: TuningBound,
    ) -> Result<AdaptiveOutcome, AdaptiveApplyError> {
        if confidence.less(self.adaptive_min_confidence) {
            Err(
                AdaptiveApplyError::ConfidenceFloor {
                    confidence,
                    minimum: self.adaptive_min_confidence,
                },
            )
        } else if self.adaptive_mode == AdaptiveMode::Apply {
            self.apply.judged(knob, bound, self.guardrail)
        } else {
            Ok(AdaptiveOutcome::Recommended)
        }
    }

    /// Judges a recommendation: refused below the least confidence, left as a recommendation
    /// unless changes are to be made, and otherwise judged by what may be applied.
    pub fn evaluate(&self, recommendation: &AdaptiveRecommendation) -> (r: Result<
        AdaptiveOutcome,
        AdaptiveApplyError,
    >)
        ensures
            r == self.judged(
                recommendation.confidence,
                recommendation.knob,
                recommendation.safety_bound,
            ),
    {
        if recommendation.confidence.below(self.adaptive_min_confidence) {
            return Err(
                AdaptiveApplyError::ConfidenceFloor {
                    confidence: recommendation.confidence,
                    minimum: self.adaptive_min_confidence,
                },
            );
        }
        if self.adaptive_mode.is_apply() {
            self.apply.evaluate(recommendation, &self.guardrail)
        } else {
            Ok(AdaptiveOutcome::Recommended)
        }
    }

    /// Whether two sets of these settings are the same.
    pub open spec fn same(self, other: AdaptiveConfig) -> bool {
        &&& self.adaptive_mode == other.adaptive_mode
        &&& self.adaptive_window_ms == other.adaptive_window_ms
        &&& self.adaptive_min_confidence.equal(other.adaptive_min_confidence)
        &&& self.apply.adaptive_apply_enabled == other.apply.adaptive_apply_enabled
        &&& self.apply.adaptive_apply_allowlist@ == other.apply.adaptive_apply_allowlist@
        &&& self.guardrail == other.guardrail
    }

    fn same_as(&self, other: &AdaptiveConfig) -> (r: bool)
        ensures
            r == self.same(*other),
    {
        self.adaptive_mode == other.adaptive_mode && self.adaptive_window_ms
            == other.adaptive_window_ms && self.adaptive_min_confidence.equals(
            other.adaptive_min_confidence,
        ) && self.apply.adaptive_apply_enabled == other.apply.adaptive_apply_enabled && same_knobs(
            &self.apply.adaptive_apply_allowlist,
            &other.apply.adaptive_apply_allowlist,
        ) && self.guardrail == other.guardrail
    }
}

fn same_knobs(a: &Vec<TunableKnob>, b: &Vec<TunableKnob>) -> (r: bool)
    ensures
        r == (a@ == b@),
{
    if a.len() != b.len() {
        return false;
    }
    let mut i: usize = 0;
    while i < a.len()
        invariant
            i <= a@.len(),
            a@.len() == b@.len(),
            forall|j: int| 0 <= j < i ==> a@[j] == b@[j],
        decreases a@.len() - i,
    {
        if a[i] != b[i] {
            return false;
        }
        i += 1;
    }
    assert(a@ =~= b@);
    true
}

/// The parts of the proxy that are off until they are asked for.
#[derive(Clone, Debug, PartialEq)]
pub struct ProductionConfig {
    pub control_plane_enabled: bool,
    pub mirroring_enabled: bool,
    pub adaptive_enabled: bool,
    pub adaptive: AdaptiveConfig,
}

impl ProductionConfig {
    /// Whether every setting has its default.
    pub open spec fn is_default(self) -> bool {
        &&& self.control_plane_enabled == false
        &&& self.mirroring_enabled == false
        &&& self.adaptive_enabled == false
        &&& self.adaptive.is_default()
    }
}

impl Default for ProductionConfig {
    fn default() -> (r: ProductionConfig)
        ensures
            r.is_default(),
    {
        ProductionConfig {
            control_plane_enabled: false,
            mirroring_enabled: false,
            adaptive_enabled: false,
            adaptive: AdaptiveConfig::default(),
        }
    }
}

/// The process, its node and its engine.
#[derive(Clone, Debug, PartialEq)]
pub struct RuntimeConfig {
    pub lifecycle: LifecycleConfig,
    pub node: NodeConfig,
    pub engine: RuntimeEngineConfig,
    pub production: ProductionConfig,
}

impl RuntimeConfig {
    /// Whether every setting has its default.
    pub open spec fn is_default(self) -> bool {
        &&& self.lifecycle.is_default()
        &&& self.node.is_default()
        &&& self.engine.is_default()
        &&& self.production.is_default()
    }
}

impl Default for RuntimeConfig {
    fn default() -> (r: RuntimeConfig)
        ensures
            r.is_default(),
    {
        RuntimeConfig {
            lifecycle: LifecycleConfig::default(),
            node: NodeConfig::default(),
            engine: RuntimeEngineConfig::default(),
            production: ProductionConfig::default(),
        }
    }
}

impl RuntimeConfig {
    /// Whether two sets of these settings are the same.
    pub open spec fn same(self, other: RuntimeConfig) -> bool {
        &&& self.lifecycle.same(other.lifecycle)
        &&& self.node.node_id@ == other.node.node_id@
        &&& self.engine == other.engine
        &&& self.production.control_plane_enabled == other.production.control_plane_enabled
        &&& self.production.mirroring_enabled == other.production.mirroring_enabled
        &&& self.production.adaptive_enabled == other.production.adaptive_enabled
        &&& self.production.adaptive.same(other.production.adaptive)
    }

    fn same_as(&self, other: &RuntimeConfig) -> (r: bool)
        ensures
            r == self.same(*other),
    {
        self.lifecycle.same_as(&other.lifecycle) && same_text(
            self.node.node_id.as_str(),
            other.node.node_id.as_str(),
        ) && self.engine == other.engine && self.production.control_plane_enabled
            == other.production.control_plane_enabled && self.production.mirroring_enabled
            == other.production.mirroring_enabled && self.production.adaptive_enabled
            == other.production.adaptive_enabled && self.production.adaptive.same_as(
            &other.production.adaptive,
        )
    }
}

// ---------------------------------------------------------------------------
// Connections, pools and routes
// ---------------------------------------------------------------------------

/// Where the proxy listens, and the server behind it.
#[derive(Clone, Copy, Debug, PartialEq, Eq, Structural)]
pub struct ConnectionConfig {
    pub listen_addr: SocketAddress,
    pub backend_addr: SocketAddress,
}

impl ConnectionConfig {
    /// Whether every setting has its default.
    pub open spec fn is_default(self) -> bool {
        &&& self.listen_addr == SocketAddress::local(6543)
        &&& self.backend_addr == SocketAddress::local(5432)
    }
}

impl Default for ConnectionConfig {
    fn default() -> (r: ConnectionConfig)
        ensures
            r.is_default(),
    {
        ConnectionConfig {
            listen_addr: SocketAddress::loopback(6543),
            backend_addr: SocketAddress::loopback(5432),
        }
    }
}

/// The server connections of one database and user.
#[derive(Clone, Debug, PartialEq, Eq)]
pub struct PoolConfig {
    pub database: String,
    pub user: String,
    pub backend_addr: SocketAddress,
    pub max_backends: Option<usize>,
}

impl PoolConfig {
    /// Whether two pools serve the same database and user.
    pub open spec fn same_identity(self, other: PoolConfig) -> bool {
        self.database@ == other.database@ && self.user@ == other.user@
    }

    /// Whether two pools are set up the same.
    pub open spec fn same(self, other: PoolConfig) -> bool {
        &&& self.same_identity(other)
        &&& self.backend_addr == other.backend_addr
        &&& self.max_backends == other.max_backends
    }

    fn identity_as(&self, other: &PoolConfig) -> (r: bool)
        ensures
            r == self.same_identity(*other),
    {
        same_text(self.database.as_str(), other.database.as_str()) && same_text(
            self.user.as_str(),
            other.user.as_str(),
        )
    }

    fn same_as(&self, other: &PoolConfig) -> (r: bool)
        ensures
            r == self.same(*other),
    {
        self.identity_as(other) && self.backend_addr == other.backend_addr && self.max_backends
            == other.max_backends
    }
}

/// Whether an earlier pool serves the database and user of the last one.
pub open spec fn repeats_identity(pools: Seq<PoolConfig>) -> bool {
    exists|j: int|
        0 <= j < pools.len() - 1 && (#[trigger] pools[j]).same_identity(pools[pools.len() - 1])
}

/// The first thing that is wrong with a list of pools: a pool without any connection, or one
/// whose database and user an earlier one has.
pub open spec fn pools_complaint(pools: Seq<PoolConfig>) -> Option<Seq<char>>
    decreases pools.len(),
{
    if pools.len() == 0 {
        None
    } else {
        let earlier = pools_complaint(pools.drop_last());
        let pool = pools.last();
        if earlier is Some {
            earlier
        } else if pool.max_backends == Some(0usize) {
            Some(
                "pool max_backends must be greater than zero for database/user "@ + pool.database@
                    + "/"@ + pool.user@,
            )
        } else if repeats_identity(pools) {
            Some("duplicate pool for database/user "@ + pool.database@ + "/"@ + pool.user@)
        } else {
            None
        }
    }
}

proof fn lemma_pools_complaint_stays(pools: Seq<PoolConfig>, k: int)
    requires
        0 <= k <= pools.len(),
        pools_complaint(pools.take(k)) is Some,
    ensures
        pools_complaint(pools) == pools_complaint(pools.take(k)),
    decreases pools.len() - k,
{
    if k < pools.len() {
        assert(pools.take(k + 1).drop_last() =~= pools.take(k));
        lemma_pools_complaint_stays(pools, k + 1);
    } else {
        assert(pools.take(k) =~= pools);
    }
}

/// Checks that every pool has a connection, and that no two serve the same database and user.
pub fn validate_pool_configs(pools: &Vec<PoolConfig>) -> (r: Result<(), String>)
    ensures
        complaint(r) == pools_complaint(pools@),
{
    let mut i: usize = 0;
    assert(pools@.take(0) =~= Seq::empty());
    while i < pools.len()
        invariant
            i <= pools@.len(),
            pools_complaint(pools@.take(i as int)) is None,
        decreases pools@.len() - i,
    {
        let ghost upto = pools@.take(i + 1);
        assert(upto.drop_last() =~= pools@.take(i as int));
        assert(upto.last() == pools@[i as int]);
        let pool = &pools[i];
        if pool.max_backends == Some(0usize) {
            proof {
                lemma_pools_complaint_stays(pools@, i + 1);
            }
            return Err(
                join4(
                    "pool max_backends must be greater than zero for database/user ",
                    pool.database.as_str(),
                    "/",
                    pool.user.as_str(),
                ),
            );
        }
        let mut j: usize = 0;
        while j < i
            invariant
                j <= i < pools@.len(),
                pool == pools@[i as int],
                upto == pools@.take(i + 1),
                pools_complaint(upto.drop_last()) is None,
                pool.max_backends != Some(0usize),
                forall|k: int| 0 <= k < j ==> !(#[trigger] pools@[k]).same_identity(*pool),
            decreases i - j,
        {
            if pools[j].identity_as(pool) {
                proof {
                    assert(upto[j as int].same_identity(upto[upto.len() - 1]));
                    assert(repeats_identity(upto));
                    lemma_pools_complaint_stays(pools@, i + 1);
                }
                return Err(
                    join4(
                        "duplicate pool for database/user ",
                        pool.database.as_str(),
                        "/",
                        pool.user.as_str(),
                    ),
                );
            }
            j += 1;
        }
        assert(!repeats_identity(upto)) by {
            assert forall|k: int| 0 <= k < upto.len() - 1 implies !(
            #[trigger] upto[k]).same_identity(upto[upto.len() - 1]) by {
                assert(upto[k] == pools@[k]);
            }
        }
        i += 1;
    }
    assert(pools@.take(i as int) =~= pools@);
    Ok(())
}

/// Pools pass the check exactly where each has a connection and no two serve the same database
/// and user.
pub proof fn law_pools_pass(pools: Seq<PoolConfig>)
    ensures
        pools_complaint(pools) is None <==> {
            &&& forall|i: int|
                0 <= i < pools.len() ==> (#[trigger] pools[i]).max_backends != Some(0usize)
            &&& forall|i: int, j: int|
                0 <= i < j < pools.len() ==> !(#[trigger] pools[i]).same_identity(
                    #[trigger] pools[j],
                )
        },
    decreases pools.len(),
{
    if pools.len() > 0 {
        let front = pools.drop_last();
        law_pools_pass(front);
        let n = pools.len() - 1;
        if pools_complaint(pools) is None {
            assert forall|i: int| 0 <= i < pools.len() implies (#[trigger] pools[i]).max_backends
                != Some(0usize) by {
                if i < n {
                    assert(front[i] == pools[i]);
                }
            }
            assert forall|i: int, j: int| 0 <= i < j < pools.len() implies !(
            #[trigger] pools[i]).same_identity(#[trigger] pools[j]) by {
                if j < n {
                    assert(front[i] == pools[i] && front[j] == pools[j]);
                }
            }
        } else if pools_complaint(front) is Some {
            if forall|i: int|
                0 <= i < front.len() ==> (#[trigger] front[i]).max_backends != Some(0usize) {
                let (i, j) = choose|i: int, j: int|
                    0 <= i < j < front.len() && (#[trigger] front[i]).same_identity(
                        #[trigger] front[j],
                    );
                assert(pools[i].same_identity(pools[j]));
            } else {
                let i = choose|i: int|
                    0 <= i < front.len() && (#[trigger] front[i]).max_backends == Some(0usize);
                assert(pools[i].max_backends == Some(0usize));
            }
        } else if pools.last().max_backends != Some(0usize) {
            let j = choose|j: int|
                0 <= j < pools.len() - 1 && (#[trigger] pools[j]).same_identity(
                    pools[pools.len() - 1],
                );
            assert(pools[j].same_identity(pools[n]));
        } else {
            assert(pools[n].max_backends == Some(0usize));
        }
    }
}

/// The primary of a route.
#[derive(Clone, Copy, Debug, PartialEq, Eq, Structural)]
pub struct BackendEndpointConfig {
    pub address: SocketAddress,
    pub connect_timeout_ms: u64,
    pub tls_mode: BackendTlsMode,
}

impl BackendEndpointConfig {
    /// Whether every setting has its default.
    pub open spec fn is_default(self) -> bool {
        &&& self.address == SocketAddress::local(5432)
        &&& self.connect_timeout_ms == 1_000
        &&& self.tls_mode == BackendTlsMode::Disable
    }
}

impl Default for BackendEndpointConfig {
    fn default() -> (r: BackendEndpointConfig)
        ensures
            r.is_default(),
    {
        BackendEndpointConfig {
            address: SocketAddress::loopback(5432),
            connect_timeout_ms: 1_000,
            tls_mode: BackendTlsMode::Disable,
        }
    }
}

/// A replica of a route.
#[derive(Clone, Copy, Debug, PartialEq, Eq, Structural)]
pub struct ReplicaConfig {
    pub address: SocketAddress,
    pub connect_timeout_ms: u64,
    pub tls_mode: BackendTlsMode,
    pub weight: u32,
}

impl ReplicaConfig {
    /// Whether every setting has its default.
    pub open spec fn is_default(self) -> bool {
        &&& self.address == SocketAddress::local(5432)
        &&& self.connect_timeout_ms == 1_000
        &&& self.tls_mode == BackendTlsMode::Disable
        &&& self.weight == 1
    }
}

impl Default for ReplicaConfig {
    fn default() -> (r: ReplicaConfig)
        ensures
            r.is_default(),
    {
        ReplicaConfig {
            address: SocketAddress::loopback(5432),
            connect_timeout_ms: 1_000,
            tls_mode: BackendTlsMode::Disable,
            weight: 1,
        }
    }
}

/// Where a route's reads go.
#[derive(Clone, Copy, Debug, PartialEq, Eq, Structural)]
pub struct ReadRoutingConfig {
    pub read_routing_mode: ReadRoutingMode,
    pub fallback_policy: FallbackPolicy,
}

impl ReadRoutingConfig {
    /// Whether every setting has its default.
    pub open spec fn is_default(self) -> bool {
        &&& self.read_routing_mode == ReadRoutingMode::Off
        &&& self.fallback_policy == FallbackPolicy::Primary
    }
}

impl Default for ReadRoutingConfig {
    fn default() -> (r: ReadRoutingConfig)
        ensures
            r.is_default(),
    {
        ReadRoutingConfig {
            read_routing_mode: ReadRoutingMode::Off,
            fallback_policy: FallbackPolicy::Primary,
        }
    }
}

/// How fresh a route's replicas must be.
#[derive(Clone, Copy, Debug, PartialEq, Eq, Structural)]
pub struct FreshnessConfig {
    pub freshness_policy: FreshnessPolicy,
    pub max_replica_lag_ms: u64,
    pub read_after_write_timeout_ms: u64,
}

impl FreshnessConfig {
    /// Whether every setting has its default.
    pub open spec fn is_default(self) -> bool {
        &&& self.freshness_policy == FreshnessPolicy::SessionWriteLsn
        &&& self.max_replica_lag_ms == 1_000
        &&& self.read_after_write_timeout_ms == 500
    }
}

impl Default for FreshnessConfig {
    fn default() -> (r: FreshnessConfig)
        ensures
            r.is_default(),
    {
        FreshnessConfig {
            freshness_policy: FreshnessPolicy::SessionWriteLsn,
            max_replica_lag_ms: 1_000,
            read_after_write_timeout_ms: 500,
        }
    }
}

/// How a route's replicas are watched.
#[derive(Clone, Copy, Debug, PartialEq, Eq, Structural)]
pub struct HaConfig {
    pub replica_health_interval_ms: u64,
    pub replica_health_timeout_ms: u64,
}

impl HaConfig {
    /// Whether every setting has its default.
    pub open spec fn is_default(self) -> bool {
        &&& self.replica_health_interval_ms == 1_000
        &&& self.replica_health_timeout_ms == 500
    }
}

impl Default for HaConfig {
    fn default() -> (r: HaConfig)
        ensures
            r.is_default(),
    {
        HaConfig {
            replica_health_interval_ms: 1_000,
            replica_health_timeout_ms: 500,
        }
    }
}

/// A primary, its replicas, and how reads are shared between them.
#[derive(Clone, Debug, PartialEq, Eq)]
pub struct RouteConfig {
    pub primary: BackendEndpointConfig,
    pub replicas: Vec<ReplicaConfig>,
    pub read_routing: ReadRoutingConfig,
    pub freshness: FreshnessConfig,
    pub ha: HaConfig,
}

impl RouteConfig {
    /// Whether two routes are set up the same.
    pub open spec fn same(self, other: RouteConfig) -> bool {
        &&& self.primary == other.primary
        &&& self.replicas@ == other.replicas@
        &&& self.read_routing == other.read_routing
        &&& self.freshness == other.freshness
        &&& self.ha == other.ha
    }

    /// Whether the route is one server and defaults.
    pub open spec fn only_primary(self, address: SocketAddress) -> bool {
        &&& self.primary.address == address
        &&& self.primary.connect_timeout_ms == 1_000
        &&& self.primary.tls_mode == BackendTlsMode::Disable
        &&& self.replicas@.len() == 0
        &&& self.read_routing.is_default()
        &&& self.freshness.is_default()
        &&& self.ha.is_default()
    }

    /// The route of one server, with defaults for the rest.
    pub fn from_backend_addr(address: SocketAddress) -> (r: RouteConfig)
        ensures
            r.only_primary(address),
    {
        let primary = BackendEndpointConfig::default();
        RouteConfig {
            primary: BackendEndpointConfig {
                address,
                connect_timeout_ms: primary.connect_timeout_ms,
                tls_mode: primary.tls_mode,
            },
            replicas: Vec::new(),
            read_routing: ReadRoutingConfig::default(),
            freshness: FreshnessConfig::default(),
            ha: HaConfig::default(),
        }
    }

    fn copied(&self) -> (r: RouteConfig)
        ensures
            r.same(*self),
    {
        let replicas = self.replicas.clone();
        assert(replicas@ =~= self.replicas@);
        RouteConfig {
            primary: self.primary,
            replicas,
            read_routing: self.read_routing,
            freshness: self.freshness,
            ha: self.ha,
        }
    }

    fn same_as(&self, other: &RouteConfig) -> (r: bool)
        ensures
            r == self.same(*other),
    {
        if self.primary != other.primary || self.read_routing != other.read_routing
            || self.freshness != other.freshness || self.ha != other.ha {
            return false;
        }
        if self.replicas.len() != other.replicas.len() {
            return false;
        }
        let mut i: usize = 0;
        while i < self.replicas.len()
            invariant
                i <= self.replicas@.len(),
                self.replicas@.len() == other.replicas@.len(),
                forall|j: int| 0 <= j < i ==> self.replicas@[j] == other.replicas@[j],
            decreases self.replicas@.len() - i,
        {
            if self.replicas[i] != other.replicas[i] {
                return false;
            }
            i += 1;
        }
        assert(self.replicas@ =~= other.replicas@);
        true
    }
}

impl Default for RouteConfig {
    fn default() -> (r: RouteConfig)
        ensures
            r.only_primary(SocketAddress::local(5432)),
    {
        RouteConfig::from_backend_addr(BackendEndpointConfig::default().address)
    }
}

/// Whether two lists of routes are the same, one by one.
pub open spec fn same_routes(a: Seq<RouteConfig>, b: Seq<RouteConfig>) -> bool {
    a.len() == b.len() && forall|i: int| 0 <= i < a.len() ==> (#[trigger] a[i]).same(b[i])
}

fn same_route_lists(a: &Vec<RouteConfig>, b: &Vec<RouteConfig>) -> (r: bool)
    ensures
        r == same_routes(a@, b@),
{
    if a.len() != b.len() {
        return false;
    }
    let mut i: usize = 0;
    while i < a.len()
        invariant
            i <= a@.len(),
            a@.len() == b@.len(),
            forall|j: int| 0 <= j < i ==> (#[trigger] a@[j]).same(b@[j]),
        decreases a@.len() - i,
    {
        if !a[i].same_as(&b[i]) {
            return false;
        }
        i += 1;
    }
    true
}

/// Whether two lists of pools are the same, one by one.
pub open spec fn same_pools(a: Seq<PoolConfig>, b: Seq<PoolConfig>) -> bool {
    a.len() == b.len() && forall|i: int| 0 <= i < a.len() ==> (#[trigger] a[i]).same(b[i])
}

fn same_pool_lists(a: &Vec<PoolConfig>, b: &Vec<PoolConfig>) -> (r: bool)
    ensures
        r == same_pools(a@, b@),
{
    if a.len() != b.len() {
        return false;
    }
    let mut i: usize = 0;
    while i < a.len()
        invariant
            i <= a@.len(),
            a@.len() == b@.len(),
            forall|j: int| 0 <= j < i ==> (#[trigger] a@[j]).same(b@[j]),
        decreases a@.len() - i,
    {
        if !a[i].same_as(&b[i]) {
            return false;
        }
        i += 1;
    }
    true
}
// ---------------------------------------------------------------------------
// Sharding
// ---------------------------------------------------------------------------

/// What happens to a statement that touches several shards.
#[derive(Clone, Copy, Debug, PartialEq, Eq, Structural)]
pub enum MultiShardPolicyConfig {
    Reject,
    FirstMatch,
    FanOut,
}

impl MultiShardPolicyConfig {
    /// The name under which the value is written.
    pub open spec fn name(self) -> Seq<char> {
        match self {
            MultiShardPolicyConfig::Reject => "reject"@,
            MultiShardPolicyConfig::FirstMatch => "first_match"@,
            MultiShardPolicyConfig::FanOut => "fan_out"@,
        }
    }

    /// The name under which the value is written.
    pub fn as_str(self) -> (r: &'static str)
        ensures
            r@ == self.name(),
    {
        match self {
            MultiShardPolicyConfig::Reject => "reject",
            MultiShardPolicyConfig::FirstMatch => "first_match",
            MultiShardPolicyConfig::FanOut => "fan_out",
        }
    }

    /// What each value is written as.
    pub proof fn law_written_as(self)
        ensures
            self is Reject ==> self.name() == "reject"@,
            self is FirstMatch ==> self.name() == "first_match"@,
            self is FanOut ==> self.name() == "fan_out"@,
    {
    }

    /// No two values have the same name.
    pub proof fn law_names_differ(a: MultiShardPolicyConfig, b: MultiShardPolicyConfig)
        requires
            a.name() == b.name(),
        ensures
            a == b,
    {
        reveal_strlit("reject");
        reveal_strlit("first_match");
        reveal_strlit("fan_out");
        assert("reject"@.len() == 6);
        assert("first_match"@.len() == 11);
        assert("fan_out"@.len() == 7);
    }
}

impl Default for MultiShardPolicyConfig {
    fn default() -> (r: MultiShardPolicyConfig)
        ensures
            r == MultiShardPolicyConfig::Reject,
    {
        MultiShardPolicyConfig::Reject
    }
}

/// How a key is turned into a shard.
#[derive(Clone, Copy, Debug, PartialEq, Eq, Structural)]
pub enum ShardStrategyConfig {
    Hash,
    Range,
    List,
}

impl ShardStrategyConfig {
    /// The name under which the value is written.
    pub open spec fn name(self) -> Seq<char> {
        match self {
            ShardStrategyConfig::Hash => "hash"@,
            ShardStrategyConfig::Range => "range"@,
            ShardStrategyConfig::List => "list"@,
        }
    }

    /// The name under which the value is written.
    pub fn as_str(self) -> (r: &'static str)
        ensures
            r@ == self.name(),
    {
        match self {
            ShardStrategyConfig::Hash => "hash",
            ShardStrategyConfig::Range => "range",
            ShardStrategyConfig::List => "list",
        }
    }

    /// What each value is written as.
    pub proof fn law_written_as(self)
        ensures
            self is Hash ==> self.name() == "hash"@,
            self is Range ==> self.name() == "range"@,
            self is List ==> self.name() == "list"@,
    {
    }

    /// No two values have the same name.
    pub proof fn law_names_differ(a: ShardStrategyConfig, b: ShardStrategyConfig)
        requires
            a.name() == b.name(),
        ensures
            a == b,
    {
        reveal_strlit("hash");
        reveal_strlit("range");
        reveal_strlit("list");
        assert("hash"@.len() == 4 && "hash"@[0] == 'h');
        assert("range"@.len() == 5 && "range"@[0] == 'r');
        assert("list"@.len() == 4 && "list"@[0] == 'l');
    }
}

/// Which of several overlapping route maps comes first.
#[derive(Clone, Copy, Debug, PartialEq, Eq, Structural)]
pub struct RouteMapPriority(pub u32);

/// What a route map is for.
#[derive(Clone, PartialEq, Eq)]
pub enum ShardScopeConfig {
    DatabaseUser { database: String, user: String },
    ApplicationName { application_name: String },
    SchemaTable { schema: String, table: String },
    TenantKey { tenant_key: String },
}

impl ShardScopeConfig {
    /// Whether two scopes are the same.
    pub open spec fn same(self, other: ShardScopeConfig) -> bool {
        match (self, other) {
            (
                ShardScopeConfig::DatabaseUser { database: d1, user: u1 },
                ShardScopeConfig::DatabaseUser { database: d2, user: u2 },
            ) => d1@ == d2@ && u1@ == u2@,
            (
                ShardScopeConfig::ApplicationName { application_name: a1 },
                ShardScopeConfig::ApplicationName { application_name: a2 },
            ) => a1@ == a2@,
            (
                ShardScopeConfig::SchemaTable { schema: s1, table: t1 },
                ShardScopeConfig::SchemaTable { schema: s2, table: t2 },
            ) => s1@ == s2@ && t1@ == t2@,
            (
                ShardScopeConfig::TenantKey { tenant_key: k1 },
                ShardScopeConfig::TenantKey { tenant_key: k2 },
            ) => k1@ == k2@,
            _ => false,
        }
    }

    /// The scope as it is shown.
    pub open spec fn shown_as(self) -> Seq<char> {
        match self {
            ShardScopeConfig::DatabaseUser { database, user } => "DatabaseUser { database: "@
                + shown_text_of(database@) + ", user: "@ + shown_text_of(user@) + " }"@,
            ShardScopeConfig::ApplicationName { application_name } =>
                "ApplicationName { application_name: "@ + shown_text_of(application_name@) + " }"@,
            ShardScopeConfig::SchemaTable { schema, table } => "SchemaTable { schema: "@
                + shown_text_of(schema@) + ", table: "@ + shown_text_of(table@) + " }"@,
            ShardScopeConfig::TenantKey { tenant_key } =>
                "TenantKey { tenant_key: \"<redacted>\" }"@,
        }
    }

    /// The scope as it is shown: a tenant's key is not.
    pub fn shown(&self) -> (r: String)
        ensures
            r@ == self.shown_as(),
    {
        match self {
            ShardScopeConfig::DatabaseUser { database, user } => join5(
                "DatabaseUser { database: ",
                shown_text(database.as_str()).as_str(),
                ", user: ",
                shown_text(user.as_str()).as_str(),
                " }",
            ),
            ShardScopeConfig::ApplicationName { application_name } => join3(
                "ApplicationName { application_name: ",
                shown_text(application_name.as_str()).as_str(),
                " }",
            ),
            ShardScopeConfig::SchemaTable { schema, table } => join5(
                "SchemaTable { schema: ",
                shown_text(schema.as_str()).as_str(),
                ", table: ",
                shown_text(table.as_str()).as_str(),
                " }",
            ),
            ShardScopeConfig::TenantKey { .. } => {
                "TenantKey { tenant_key: \"<redacted>\" }".to_owned()
            },
        }
    }

    /// What is shown tells nothing of a tenant's key: it is the same for every key.
    pub proof fn law_shown_hides_tenant(a: ShardScopeConfig, b: ShardScopeConfig)
        requires
            a is TenantKey,
            b is TenantKey,
        ensures
            a.shown_as() == b.shown_as(),
    {
    }

    /// Whether two scopes cover the same requests: they do where they are the same.
    pub fn overlaps(&self, other: &ShardScopeConfig) -> (r: bool)
        ensures
            r == self.same(*other),
    {
        match (self, other) {
            (
                ShardScopeConfig::DatabaseUser { database: d1, user: u1 },
                ShardScopeConfig::DatabaseUser { database: d2, user: u2 },
            ) => same_text(d1.as_str(), d2.as_str()) && same_text(u1.as_str(), u2.as_str()),
            (
                ShardScopeConfig::ApplicationName { application_name: a1 },
                ShardScopeConfig::ApplicationName { application_name: a2 },
            ) => same_text(a1.as_str(), a2.as_str()),
            (
                ShardScopeConfig::SchemaTable { schema: s1, table: t1 },
                ShardScopeConfig::SchemaTable { schema: s2, table: t2 },
            ) => same_text(s1.as_str(), s2.as_str()) && same_text(t1.as_str(), t2.as_str()),
            (
                ShardScopeConfig::TenantKey { tenant_key: k1 },
                ShardScopeConfig::TenantKey { tenant_key: k2 },
            ) => same_text(k1.as_str(), k2.as_str()),
            _ => false,
        }
    }
}

/// Where a shard's requests go.
#[derive(Clone, Debug, PartialEq, Eq)]
pub enum ShardTargetConfig {
    Primary { shard_id: String },
    Replicas { shard_id: String },
}

impl ShardTargetConfig {
    /// The name of the shard.
    pub open spec fn shard_name(self) -> Seq<char> {
        match self {
            ShardTargetConfig::Primary { shard_id } => shard_id@,
            ShardTargetConfig::Replicas { shard_id } => shard_id@,
        }
    }

    /// The name of the shard.
    pub fn shard_id(&self) -> (r: &str)
        ensures
            r@ == self.shard_name(),
    {
        match self {
            ShardTargetConfig::Primary { shard_id } => shard_id.as_str(),
            ShardTargetConfig::Replicas { shard_id } => shard_id.as_str(),
        }
    }
}

/// A scope, and the shards that its requests are spread over.
#[derive(Clone, PartialEq, Eq)]
pub struct RouteMapConfig {
    pub scope: ShardScopeConfig,
    pub strategy: ShardStrategyConfig,
    pub targets: Vec<ShardTargetConfig>,
    pub priority: Option<RouteMapPriority>,
}

/// Whether an earlier target has the shard of the last one.
pub open spec fn repeats_shard(targets: Seq<ShardTargetConfig>) -> bool {
    exists|j: int|
        0 <= j < targets.len() - 1 && (#[trigger] targets[j]).shard_name() == targets[targets.len()
            - 1].shard_name()
}

/// The first thing that is wrong with some targets, where `name_errors` holds what is wrong with
/// each shard's name.
pub open spec fn targets_complaint(
    targets: Seq<ShardTargetConfig>,
    name_errors: Seq<Option<String>>,
) -> Option<Seq<char>>
    decreases targets.len(),
{
    if targets.len() == 0 {
        None
    } else {
        let earlier = targets_complaint(targets.drop_last(), name_errors);
        if earlier is Some {
            earlier
        } else if name_errors[targets.len() - 1] is Some {
            opt_text(name_errors[targets.len() - 1])
        } else if repeats_shard(targets) {
            Some("duplicate shard id '"@ + targets.last().shard_name() + "'"@)
        } else {
            None
        }
    }
}

proof fn lemma_targets_complaint_stays(
    targets: Seq<ShardTargetConfig>,
    name_errors: Seq<Option<String>>,
    k: int,
)
    requires
        0 <= k <= targets.len(),
        targets_complaint(targets.take(k), name_errors) is Some,
    ensures
        targets_complaint(targets, name_errors) == targets_complaint(targets.take(k), name_errors),
    decreases targets.len() - k,
{
    if k < targets.len() {
        assert(targets.take(k + 1).drop_last() =~= targets.take(k));
        lemma_targets_complaint_stays(targets, name_errors, k + 1);
    } else {
        assert(targets.take(k) =~= targets);
    }
}

impl RouteMapConfig {
    /// The first thing that is wrong with the map, where `name_errors` holds what is wrong with
    /// each shard's name.
    pub open spec fn map_complaint(self, name_errors: Seq<Option<String>>) -> Option<Seq<char>> {
        if self.targets@.len() == 0 {
            Some("route map must define at least one target"@)
        } else {
            targets_complaint(self.targets@, name_errors)
        }
    }

    /// Checks that the map has targets, that their shards have proper names, and that no shard
    /// occurs twice. `name_errors` holds, for each target, what is wrong with its shard's name.
    pub fn validate(&self, name_errors: &Vec<Option<String>>) -> (r: Result<(), String>)
        requires
            name_errors@.len() == self.targets@.len(),
        ensures
            complaint(r) == self.map_complaint(name_errors@),
    {
        if self.targets.is_empty() {
            return Err("route map must define at least one target".to_owned());
        }
        let targets = &self.targets;
        let mut i: usize = 0;
        assert(targets@.take(0) =~= Seq::empty());
        while i < targets.len()
            invariant
                i <= targets@.len(),
                targets@ == self.targets@,
                targets@.len() > 0,
                name_errors@.len() == targets@.len(),
                targets_complaint(targets@.take(i as int), name_errors@) is None,
            decreases targets@.len() - i,
        {
            let ghost upto = targets@.take(i + 1);
            assert(upto.drop_last() =~= targets@.take(i as int));
            assert(upto.last() == targets@[i as int]);
            match &name_errors[i] {
                Some(message) => {
                    proof {
                        lemma_targets_complaint_stays(targets@, name_errors@, i + 1);
                    }
                    return Err(message.clone());
                },
                None => {},
            }
            let mut j: usize = 0;
            while j < i
                invariant
                    j <= i < targets@.len(),
                    targets@ == self.targets@,
                    upto == targets@.take(i + 1),
                    name_errors@.len() == targets@.len(),
                    name_errors@[i as int] is None,
                    targets_complaint(upto.drop_last(), name_errors@) is None,
                    forall|k: int|
                        0 <= k < j ==> (#[trigger] targets@[k]).shard_name()
                            != targets@[i as int].shard_name(),
                decreases i - j,
            {
                if same_text(targets[j].shard_id(), targets[i].shard_id()) {
                    proof {
                        assert(upto[j as int].shard_name() == upto[upto.len() - 1].shard_name());
                        assert(repeats_shard(upto));
                        lemma_targets_complaint_stays(targets@, name_errors@, i + 1);
                    }
                    return Err(join3("duplicate shard id '", targets[i].shard_id(), "'"));
                }
                j += 1;
            }
            assert(!repeats_shard(upto)) by {
                assert forall|k: int| 0 <= k < upto.len() - 1 implies (
                #[trigger] upto[k]).shard_name() != upto[upto.len() - 1].shard_name() by {
                    assert(upto[k] == targets@[k]);
                }
            }
            i += 1;
        }
        assert(targets@.take(i as int) =~= targets@);
        Ok(())
    }
}

/// How tables are spread over servers.
#[derive(Clone, PartialEq, Eq)]
pub struct ShardingConfig {
    pub sharding_enabled: bool,
    pub multi_shard_policy: MultiShardPolicyConfig,
    pub route_map_reload_strict: bool,
    pub route_preview_enabled: bool,
    pub route_maps: Vec<RouteMapConfig>,
}

impl Default for ShardingConfig {
    fn default() -> (r: ShardingConfig)
        ensures
            !r.sharding_enabled,
            r.multi_shard_policy == MultiShardPolicyConfig::Reject,
            r.route_map_reload_strict,
            !r.route_preview_enabled,
            r.route_maps@.len() == 0,
    {
        ShardingConfig {
            sharding_enabled: false,
            multi_shard_policy: MultiShardPolicyConfig::Reject,
            route_map_reload_strict: true,
            route_preview_enabled: false,
            route_maps: Vec::new(),
        }
    }
}

/// The first complaint about one of some route maps by itself.
pub open spec fn maps_complaint(
    maps: Seq<RouteMapConfig>,
    name_errors: Seq<Vec<Option<String>>>,
) -> Option<Seq<char>>
    decreases maps.len(),
{
    if maps.len() == 0 {
        None
    } else {
        let earlier = maps_complaint(maps.drop_last(), name_errors);
        if earlier is Some {
            earlier
        } else {
            maps.last().map_complaint(name_errors[maps.len() - 1]@)
        }
    }
}

proof fn lemma_maps_complaint_stays(
    maps: Seq<RouteMapConfig>,
    name_errors: Seq<Vec<Option<String>>>,
    k: int,
)
    requires
        0 <= k <= maps.len(),
        maps_complaint(maps.take(k), name_errors) is Some,
    ensures
        maps_complaint(maps, name_errors) == maps_complaint(maps.take(k), name_errors),
    decreases maps.len() - k,
{
    if k < maps.len() {
        assert(maps.take(k + 1).drop_last() =~= maps.take(k));
        lemma_maps_complaint_stays(maps, name_errors, k + 1);
    } else {
        assert(maps.take(k) =~= maps);
    }
}

/// Whether two route maps cover the same requests and neither says which comes first.
pub open spec fn maps_clash(a: RouteMapConfig, b: RouteMapConfig) -> bool {
    a.scope.same(b.scope) && a.priority is None && b.priority is None
}

/// Whether the maps at two places clash, and no pair before them does: pairs are looked at by
/// their first place, then by their second.
pub open spec fn first_clash(maps: Seq<RouteMapConfig>, left: int, right: int) -> bool {
    &&& 0 <= left < right < maps.len()
    &&& maps_clash(maps[left], maps[right])
    &&& forall|a: int, b: int|
        0 <= a < b < maps.len() && (a < left || (a == left && b < right)) ==> !maps_clash(
            #[trigger] maps[a],
            #[trigger] maps[b],
        )
}

/// Whether no two maps clash.
pub open spec fn no_clash(maps: Seq<RouteMapConfig>) -> bool {
    forall|a: int, b: int|
        0 <= a < b < maps.len() ==> !maps_clash(#[trigger] maps[a], #[trigger] maps[b])
}

impl ShardingConfig {
    /// Checks every route map, then that no two of them cover the same requests without a
    /// priority. `name_errors` holds, for each target of each map, what is wrong with the name
    /// of its shard.
    pub fn validate(&self, name_errors: &Vec<Vec<Option<String>>>) -> (r: Result<(), String>)
        requires
            name_errors@.len() == self.route_maps@.len(),
            forall|i: int|
                0 <= i < self.route_maps@.len() ==> (#[trigger] name_errors@[i])@.len()
                    == self.route_maps@[i].targets@.len(),
        ensures
            r is Ok <==> maps_complaint(self.route_maps@, name_errors@) is None && no_clash(
                self.route_maps@,
            ),
            r matches Err(message) ==> {
                ||| Some(message@) == maps_complaint(self.route_maps@, name_errors@)
                ||| maps_complaint(self.route_maps@, name_errors@) is None && exists|
                    left: int,
                    right: int,
                |
                    #![trigger first_clash(self.route_maps@, left, right)]
                    first_clash(self.route_maps@, left, right) && message@ == "route maps "@
                        + decimal(left as nat) + " and "@ + decimal(right as nat)
                        + " overlap without explicit priority"@
            },
    {
        let maps = &self.route_maps;
        let mut i: usize = 0;
        assert(maps@.take(0) =~= Seq::empty());
        while i < maps.len()
            invariant
                i <= maps@.len(),
                maps@ == self.route_maps@,
                name_errors@.len() == maps@.len(),
                forall|k: int|
                    0 <= k < maps@.len() ==> (#[trigger] name_errors@[k])@.len()
                        == maps@[k].targets@.len(),
                maps_complaint(maps@.take(i as int), name_errors@) is None,
            decreases maps@.len() - i,
        {
            let ghost upto = maps@.take(i + 1);
            assert(upto.drop_last() =~= maps@.take(i as int));
            assert(upto.last() == maps@[i as int]);
            match maps[i].validate(&name_errors[i]) {
                Err(message) => {
                    proof {
                        lemma_maps_complaint_stays(maps@, name_errors@, i + 1);
                    }
                    return Err(message);
                },
                Ok(()) => {},
            }
            i += 1;
        }
        assert(maps@.take(i as int) =~= maps@);
        let mut left: usize = 0;
        while left < maps.len()
            invariant
                left <= maps@.len(),
                maps@ == self.route_maps@,
                maps_complaint(maps@, name_errors@) is None,
                forall|a: int, b: int|
                    0 <= a < left && a < b < maps@.len() ==> !maps_clash(
                        #[trigger] maps@[a],
                        #[trigger] maps@[b],
                    ),
            decreases maps@.len() - left,
        {
            let mut right: usize = left + 1;
            while right < maps.len()
                invariant
                    left < right <= maps@.len(),
                    maps@ == self.route_maps@,
                    maps_complaint(maps@, name_errors@) is None,
                    forall|a: int, b: int|
                        0 <= a < left && a < b < maps@.len() ==> !maps_clash(
                            #[trigger] maps@[a],
                            #[trigger] maps@[b],
                        ),
                    forall|b: int|
                        left < b < right ==> !maps_clash(maps@[left as int], #[trigger] maps@[b]),
                decreases maps@.len() - right,
            {
                if maps[left].scope.overlaps(&maps[right].scope) && maps[left].priority.is_none()
                    && maps[right].priority.is_none() {
                    assert(first_clash(self.route_maps@, left as int, right as int));
                    let message = join5(
                        "route maps ",
                        usize_text(left).as_str(),
                        " and ",
                        usize_text(right).as_str(),
                        " overlap without explicit priority",
                    );
                    return Err(message);
                }
                right += 1;
            }
            left += 1;
        }
        Ok(())
    }
}

// ---------------------------------------------------------------------------
// Policies
// ---------------------------------------------------------------------------

/// A file with policies.
#[derive(Clone, Debug, PartialEq, Eq)]
pub struct PolicyFileConfig {
    pub path: String,
}

/// What a policy does.
#[derive(Clone, Debug, PartialEq, Eq)]
pub enum InlinePolicyActionConfig {
    Allow,
    Deny { reason: String },
    RequirePrimary,
    RequireReplica,
    RouteOverride { target_id: String },
    ShardOverride { target_id: String },
    Wasm { module_file: String },
}

/// A policy that stands in the settings themselves.
#[derive(Clone, Debug, PartialEq, Eq)]
pub struct InlinePolicyConfig {
    pub policy_id: String,
    pub hook_point: PolicyHookPoint,
    pub action: InlinePolicyActionConfig,
}

/// Which policy decisions are recorded.
#[derive(Clone, Debug, PartialEq)]
pub struct PolicyAuditConfig {
    pub policy_audit_enabled: bool,
    pub policy_audit_sample_rate: Double,
}

impl PolicyAuditConfig {
    /// Whether every setting has its default.
    pub open spec fn is_default(self) -> bool {
        &&& self.policy_audit_enabled == true
        &&& self.policy_audit_sample_rate.bits == crate::double::one_bits()
    }
}

impl Default for PolicyAuditConfig {
    fn default() -> (r: PolicyAuditConfig)
        ensures
            r.is_default(),
    {
        PolicyAuditConfig {
            policy_audit_enabled: true,
            policy_audit_sample_rate: Double::one(),
        }
    }
}

/// Whether policies may be WebAssembly modules.
#[derive(Clone, Copy, Debug, PartialEq, Eq, Structural)]
pub struct PolicyWasmConfig {
    pub policy_wasm_enabled: bool,
}

impl PolicyWasmConfig {
    /// Whether every setting has its default.
    pub open spec fn is_default(self) -> bool {
        &&& self.policy_wasm_enabled == false
    }
}

impl Default for PolicyWasmConfig {
    fn default() -> (r: PolicyWasmConfig)
        ensures
            r.is_default(),
    {
        PolicyWasmConfig {
            policy_wasm_enabled: false,
        }
    }
}

/// The policies and how they are evaluated.
#[derive(Clone, Debug, PartialEq)]
pub struct PolicyConfig {
    pub policy_mode: PolicyMode,
    pub policy_files: Vec<PolicyFileConfig>,
    pub inline_rules: Vec<InlinePolicyConfig>,
    pub policy_audit: PolicyAuditConfig,
    pub policy_wasm: PolicyWasmConfig,
    pub policy_eval_timeout_ms: u64,
    pub policy_max_context_bytes: usize,
}

impl PolicyConfig {
    /// Whether every setting has its default.
    pub open spec fn is_default(self) -> bool {
        &&& self.policy_mode == PolicyMode::Disabled
        &&& self.policy_files@.len() == 0
        &&& self.inline_rules@.len() == 0
        &&& self.policy_audit.is_default()
        &&& self.policy_wasm.is_default()
        &&& self.policy_eval_timeout_ms == 5
        &&& self.policy_max_context_bytes == 8_192
    }
}

impl Default for PolicyConfig {
    fn default() -> (r: PolicyConfig)
        ensures
            r.is_default(),
    {
        PolicyConfig {
            policy_mode: PolicyMode::Disabled,
            policy_files: Vec::new(),
            inline_rules: Vec::new(),
            policy_audit: PolicyAuditConfig::default(),
            policy_wasm: PolicyWasmConfig::default(),
            policy_eval_timeout_ms: 5,
            policy_max_context_bytes: 8_192,
        }
    }
}

/// What is wrong with an action by itself.
pub open spec fn action_complaint(action: InlinePolicyActionConfig, wasm_enabled: bool) -> Option<
    Seq<char>,
> {
    match action {
        InlinePolicyActionConfig::Deny { reason } => if is_blank(reason@) {
            Some("deny action requires a reason"@)
        } else {
            None
        },
        InlinePolicyActionConfig::Wasm { module_file } => if !wasm_enabled {
            Some("wasm policies require policy_wasm_enabled to be true"@)
        } else {
            Some("wasm policies require the crate feature 'policy-wasm' to be enabled"@)
        },
        _ => None,
    }
}

/// The first complaint about one of some rules by itself.
pub open spec fn rules_complaint(rules: Seq<InlinePolicyConfig>, wasm_enabled: bool) -> Option<
    Seq<char>,
>
    decreases rules.len(),
{
    if rules.len() == 0 {
        None
    } else {
        let earlier = rules_complaint(rules.drop_last(), wasm_enabled);
        if earlier is Some {
            earlier
        } else {
            action_complaint(rules.last().action, wasm_enabled)
        }
    }
}

proof fn lemma_rules_complaint_stays(rules: Seq<InlinePolicyConfig>, wasm_enabled: bool, k: int)
    requires
        0 <= k <= rules.len(),
        rules_complaint(rules.take(k), wasm_enabled) is Some,
    ensures
        rules_complaint(rules, wasm_enabled) == rules_complaint(rules.take(k), wasm_enabled),
    decreases rules.len() - k,
{
    if k < rules.len() {
        assert(rules.take(k + 1).drop_last() =~= rules.take(k));
        lemma_rules_complaint_stays(rules, wasm_enabled, k + 1);
    } else {
        assert(rules.take(k) =~= rules);
    }
}

/// What is wrong with where an action sends requests.
pub open spec fn override_complaint(
    action: InlinePolicyActionConfig,
    routes: Seq<Seq<char>>,
    sharding_enabled: bool,
    shards: Seq<Seq<char>>,
) -> Option<Seq<char>> {
    match action {
        InlinePolicyActionConfig::RouteOverride { target_id } => if !routes.contains(target_id@) {
            Some(
                "route override target '"@ + target_id@
                    + "' does not reference an existing route"@,
            )
        } else {
            None
        },
        InlinePolicyActionConfig::ShardOverride { target_id } => if sharding_enabled
            && !shards.contains(target_id@) {
            Some(
                "shard override target '"@ + target_id@
                    + "' does not reference an existing shard"@,
            )
        } else {
            None
        },
        _ => None,
    }
}

/// The first complaint about where one of some rules sends requests.
pub open spec fn overrides_complaint(
    rules: Seq<InlinePolicyConfig>,
    routes: Seq<Seq<char>>,
    sharding_enabled: bool,
    shards: Seq<Seq<char>>,
) -> Option<Seq<char>>
    decreases rules.len(),
{
    if rules.len() == 0 {
        None
    } else {
        let earlier = overrides_complaint(rules.drop_last(), routes, sharding_enabled, shards);
        if earlier is Some {
            earlier
        } else {
            override_complaint(rules.last().action, routes, sharding_enabled, shards)
        }
    }
}

proof fn lemma_overrides_complaint_stays(
    rules: Seq<InlinePolicyConfig>,
    routes: Seq<Seq<char>>,
    sharding_enabled: bool,
    shards: Seq<Seq<char>>,
    k: int,
)
    requires
        0 <= k <= rules.len(),
        overrides_complaint(rules.take(k), routes, sharding_enabled, shards) is Some,
    ensures
        overrides_complaint(rules, routes, sharding_enabled, shards) == overrides_complaint(
            rules.take(k),
            routes,
            sharding_enabled,
            shards,
        ),
    decreases rules.len() - k,
{
    if k < rules.len() {
        assert(rules.take(k + 1).drop_last() =~= rules.take(k));
        lemma_overrides_complaint_stays(rules, routes, sharding_enabled, shards, k + 1);
    } else {
        assert(rules.take(k) =~= rules);
    }
}

/// Whether a list holds a text.
pub(crate) fn holds_text(list: &Vec<String>, text: &str) -> (r: bool)
    ensures
        r == texts(list@).contains(text@),
{
    let mut i: usize = 0;
    while i < list.len()
        invariant
            i <= list@.len(),
            forall|j: int| 0 <= j < i ==> list@[j]@ != text@,
        decreases list@.len() - i,
    {
        if same_text(list[i].as_str(), text) {
            assert(texts(list@)[i as int] == text@);
            return true;
        }
        i += 1;
    }
    assert forall|j: int| 0 <= j < texts(list@).len() implies texts(list@)[j] != text@ by {
        assert(texts(list@)[j] == list@[j]@);
    }
    false
}

impl PolicyConfig {
    /// The first thing that is wrong with the rules by themselves.
    pub open spec fn policy_complaint(self) -> Option<Seq<char>> {
        rules_complaint(self.inline_rules@, self.policy_wasm.policy_wasm_enabled)
    }

    /// The first thing that is wrong with the rules next to the routes and shards that there are.
    pub open spec fn context_complaint(
        self,
        routes: Seq<Seq<char>>,
        sharding_enabled: bool,
        shards: Seq<Seq<char>>,
    ) -> Option<Seq<char>> {
        if self.policy_complaint() is Some {
            self.policy_complaint()
        } else {
            overrides_complaint(self.inline_rules@, routes, sharding_enabled, shards)
        }
    }

    /// Checks the rules by themselves: a refusal gives a reason, and no rule is a WebAssembly
    /// module, which this build does not run.
    pub fn validate(&self) -> (r: Result<(), String>)
        ensures
            complaint(r) == self.policy_complaint(),
    {
        let rules = &self.inline_rules;
        let wasm_enabled = self.policy_wasm.policy_wasm_enabled;
        let mut i: usize = 0;
        assert(rules@.take(0) =~= Seq::empty());
        while i < rules.len()
            invariant
                i <= rules@.len(),
                rules@ == self.inline_rules@,
                wasm_enabled == self.policy_wasm.policy_wasm_enabled,
                rules_complaint(rules@.take(i as int), wasm_enabled) is None,
            decreases rules@.len() - i,
        {
            let ghost upto = rules@.take(i + 1);
            assert(upto.drop_last() =~= rules@.take(i as int));
            assert(upto.last() == rules@[i as int]);
            let found = match &rules[i].action {
                InlinePolicyActionConfig::Deny { reason } => {
                    if blank(reason.as_str()) {
                        Some("deny action requires a reason")
                    } else {
                        None
                    }
                },
                InlinePolicyActionConfig::Wasm { module_file: _ } => {
                    if !wasm_enabled {
                        Some("wasm policies require policy_wasm_enabled to be true")
                    } else {
                        Some("wasm policies require the crate feature 'policy-wasm' to be enabled")
                    }
                },
                _ => None,
            };
            if let Some(message) = found {
                proof {
                    lemma_rules_complaint_stays(rules@, wasm_enabled, i + 1);
                }
                return Err(message.to_owned());
            }
            i += 1;
        }
        assert(rules@.take(i as int) =~= rules@);
        Ok(())
    }

    /// Checks the rules, and that every route that they send requests to exists.
    pub fn validate_routes(&self, existing_routes: &Vec<String>) -> (r: Result<(), String>)
        ensures
            complaint(r) == self.context_complaint(texts(existing_routes@), false, Seq::empty()),
    {
        let none: Vec<String> = Vec::new();
        assert(texts(none@) =~= Seq::empty());
        self.validate_with_context(existing_routes, false, &none)
    }

    /// Checks the rules, and that every shard that they send requests to exists, where there are
    /// shards. No route exists for this check.
    pub fn validate_shards(&self, sharding_enabled: bool, existing_shards: &Vec<String>) -> (r:
        Result<(), String>)
        ensures
            complaint(r) == self.context_complaint(
                Seq::empty(),
                sharding_enabled,
                texts(existing_shards@),
            ),
    {
        let none: Vec<String> = Vec::new();
        assert(texts(none@) =~= Seq::empty());
        self.validate_with_context(&none, sharding_enabled, existing_shards)
    }

    /// Checks the rules, and that every route and shard that they send requests to exists.
    pub fn validate_with_context(
        &self,
        existing_routes: &Vec<String>,
        sharding_enabled: bool,
        existing_shards: &Vec<String>,
    ) -> (r: Result<(), String>)
        ensures
            complaint(r) == self.context_complaint(
                texts(existing_routes@),
                sharding_enabled,
                texts(existing_shards@),
            ),
    {
        match self.validate() {
            Err(message) => {
                return Err(message);
            },
            Ok(()) => {},
        }
        let ghost routes = texts(existing_routes@);
        let ghost shards = texts(existing_shards@);
        let rules = &self.inline_rules;
        let mut i: usize = 0;
        assert(rules@.take(0) =~= Seq::empty());
        while i < rules.len()
            invariant
                i <= rules@.len(),
                rules@ == self.inline_rules@,
                routes == texts(existing_routes@),
                shards == texts(existing_shards@),
                self.policy_complaint() is None,
                overrides_complaint(rules@.take(i as int), routes, sharding_enabled, shards)
                    is None,
            decreases rules@.len() - i,
        {
            let ghost upto = rules@.take(i + 1);
            assert(upto.drop_last() =~= rules@.take(i as int));
            assert(upto.last() == rules@[i as int]);
            match &rules[i].action {
                InlinePolicyActionConfig::RouteOverride { target_id } => {
                    if !holds_text(existing_routes, target_id.as_str()) {
                        proof {
                            lemma_overrides_complaint_stays(
                                rules@,
                                routes,
                                sharding_enabled,
                                shards,
                                i + 1,
                            );
                        }
                        return Err(
                            join3(
                                "route override target '",
                                target_id.as_str(),
                                "' does not reference an existing route",
                            ),
                        );
                    }
                },
                InlinePolicyActionConfig::ShardOverride { target_id } => {
                    if sharding_enabled && !holds_text(existing_shards, target_id.as_str()) {
                        proof {
                            lemma_overrides_complaint_stays(
                                rules@,
                                routes,
                                sharding_enabled,
                                shards,
                                i + 1,
                            );
                        }
                        return Err(
                            join3(
                                "shard override target '",
                                target_id.as_str(),
                                "' does not reference an existing shard",
                            ),
                        );
                    }
                },
                _ => {},
            }
            i += 1;
        }
        assert(rules@.take(i as int) =~= rules@);
        Ok(())
    }
}

// ---------------------------------------------------------------------------
// Capacity, pools and performance
// ---------------------------------------------------------------------------

/// How many connections there may be.
#[derive(Clone, Copy, Debug, PartialEq, Eq, Structural)]
pub struct CapacityConfig {
    pub max_clients: usize,
    pub max_backends: usize,
    pub max_checkout_waiters: usize,
}

impl CapacityConfig {
    /// Whether every setting has its default.
    pub open spec fn is_default(self) -> bool {
        &&& self.max_clients == 10_000
        &&& self.max_backends == 100
        &&& self.max_checkout_waiters == 1_000
    }
}

impl Default for CapacityConfig {
    fn default() -> (r: CapacityConfig)
        ensures
            r.is_default(),
    {
        CapacityConfig {
            max_clients: 10_000,
            max_backends: 100,
            max_checkout_waiters: 1_000,
        }
    }
}

impl CapacityConfig {
    /// What is wrong with the limits.
    pub open spec fn capacity_complaint(self) -> Option<Seq<char>> {
        if self.max_backends == 0 {
            Some("capacity.max_backends must be greater than zero"@)
        } else {
            None
        }
    }

    /// Checks that there may be a server connection.
    pub fn validate(&self) -> (r: Result<(), String>)
        ensures
            complaint(r) == self.capacity_complaint(),
    {
        if self.max_backends == 0 {
            return Err("capacity.max_backends must be greater than zero".to_owned());
        }
        Ok(())
    }
}

/// How many pooled connections there are, and how long they live.
#[derive(Clone, Copy, Debug, PartialEq, Eq, Structural)]
pub struct PoolLifecycleConfig {
    pub max_size: usize,
    pub min_idle: usize,
    pub idle_timeout: Duration,
    pub max_lifetime: Duration,
}

impl PoolLifecycleConfig {
    /// Whether every setting has its default.
    pub open spec fn is_default(self) -> bool {
        &&& self.max_size == 100
        &&& self.min_idle == 0
        &&& self.idle_timeout@ == 1_800_000_000_000
        &&& self.max_lifetime@ == 0
    }
}

impl Default for PoolLifecycleConfig {
    fn default() -> (r: PoolLifecycleConfig)
        ensures
            r.is_default(),
    {
        PoolLifecycleConfig {
            max_size: 100,
            min_idle: 0,
            idle_timeout: Duration::from_millis(1_800_000),
            max_lifetime: Duration::zero(),
        }
    }
}

impl PoolLifecycleConfig {
    /// The first thing that is wrong with the limits.
    pub open spec fn lifecycle_complaint(self) -> Option<Seq<char>> {
        if self.max_size == 0 {
            Some("pool_max_size must be greater than zero"@)
        } else if self.min_idle > self.max_size {
            Some("pool_min_idle cannot exceed pool_max_size"@)
        } else {
            None
        }
    }

    /// Checks that a pool can hold a connection, and as many idle ones as it should keep.
    pub fn validate(&self) -> (r: Result<(), String>)
        ensures
            complaint(r) == self.lifecycle_complaint(),
    {
        if self.max_size == 0 {
            return Err("pool_max_size must be greater than zero".to_owned());
        }
        if self.min_idle > self.max_size {
            return Err("pool_min_idle cannot exceed pool_max_size".to_owned());
        }
        Ok(())
    }
}

/// Reads a span of time that is written as a number of milliseconds.
pub fn parse_duration_ms(value: &str) -> (r: Result<Duration, String>)
    ensures
        match r {
            Ok(span) => read_unsigned(value@, u64::MAX as nat) matches Ok(millis) && span@ == millis
                * 1_000_000,
            Err(message) => read_unsigned(value@, u64::MAX as nat) matches Err(error) && message@
                == "invalid duration in milliseconds: "@ + error.text(),
        },
{
    match parse_unsigned(value, u64::MAX) {
        Ok(millis) => Ok(Duration::from_millis(millis)),
        Err(error) => Err(join2("invalid duration in milliseconds: ", error.as_str())),
    }
}

/// How connections are handed out and taken back.
#[derive(Clone, Debug, PartialEq)]
pub struct PerformanceConfig {
    pub checkout_timeout_ms: u64,
    pub pool_mode: PoolMode,
    pub recovery_mode: RecoveryMode,
    pub recovery_timeout_ms: u64,
    pub backend_reset_query: String,
}

impl PerformanceConfig {
    /// Whether every setting has its default.
    pub open spec fn is_default(self) -> bool {
        &&& self.checkout_timeout_ms == 1_000
        &&& self.pool_mode == PoolMode::Transaction
        &&& self.recovery_mode == RecoveryMode::Recover
        &&& self.recovery_timeout_ms == 5_000
        &&& self.backend_reset_query@ == "DISCARD ALL"@
    }
}

impl Default for PerformanceConfig {
    fn default() -> (r: PerformanceConfig)
        ensures
            r.is_default(),
    {
        PerformanceConfig {
            checkout_timeout_ms: 1_000,
            pool_mode: PoolMode::Transaction,
            recovery_mode: RecoveryMode::Recover,
            recovery_timeout_ms: 5_000,
            backend_reset_query: "DISCARD ALL".to_owned(),
        }
    }
}

impl PerformanceConfig {
    /// How long a client waits for a connection.
    pub fn checkout_timeout(&self) -> (r: Duration)
        ensures
            r@ == self.checkout_timeout_ms * 1_000_000,
    {
        Duration::from_millis(self.checkout_timeout_ms)
    }

    /// How long a connection may take to recover.
    pub fn recovery_timeout(&self) -> (r: Duration)
        ensures
            r@ == self.recovery_timeout_ms * 1_000_000,
    {
        Duration::from_millis(self.recovery_timeout_ms)
    }
}

/// The admin listener.
#[derive(Clone, Debug, PartialEq)]
pub struct AdminConfig {
    pub admin_addr: Option<SocketAddress>,
    pub admin_require_tls: bool,
    pub admin_allowed_user: Option<String>,
    pub admin_query_timeout_ms: u64,
    pub admin_max_clients: usize,
}

impl AdminConfig {
    /// Whether every setting has its default.
    pub open spec fn is_default(self) -> bool {
        &&& self.admin_addr is None
        &&& self.admin_require_tls == false
        &&& self.admin_allowed_user is None
        &&& self.admin_query_timeout_ms == 0
        &&& self.admin_max_clients == 0
    }
}

impl Default for AdminConfig {
    fn default() -> (r: AdminConfig)
        ensures
            r.is_default(),
    {
        AdminConfig {
            admin_addr: None,
            admin_require_tls: false,
            admin_allowed_user: None,
            admin_query_timeout_ms: 0,
            admin_max_clients: 0,
        }
    }
}

/// The limits that keep one client from starving the others.
#[derive(Clone, Debug, PartialEq)]
pub struct QosConfig {
    pub max_route_in_flight: usize,
    pub max_route_waiters: usize,
    pub query_timeout_ms: u64,
    pub idle_client_timeout_ms: u64,
    pub idle_transaction_timeout_ms: u64,
    pub max_client_buffer_bytes: usize,
    pub max_backend_buffer_bytes: usize,
    pub overload_error_code: String,
}

impl QosConfig {
    /// Whether every setting has its default.
    pub open spec fn is_default(self) -> bool {
        &&& self.max_route_in_flight == 100
        &&& self.max_route_waiters == 1_000
        &&& self.query_timeout_ms == 30_000
        &&& self.idle_client_timeout_ms == 300_000
        &&& self.idle_transaction_timeout_ms == 60_000
        &&& self.max_client_buffer_bytes == 1_048_576
        &&& self.max_backend_buffer_bytes == 4_194_304
        &&& self.overload_error_code@ == "53300"@
    }
}

impl Default for QosConfig {
    fn default() -> (r: QosConfig)
        ensures
            r.is_default(),
    {
        QosConfig {
            max_route_in_flight: 100,
            max_route_waiters: 1_000,
            query_timeout_ms: 30_000,
            idle_client_timeout_ms: 300_000,
            idle_transaction_timeout_ms: 60_000,
            max_client_buffer_bytes: 1_048_576,
            max_backend_buffer_bytes: 4_194_304,
            overload_error_code: "53300".to_owned(),
        }
    }
}

impl QosConfig {
    /// How long a statement may run.
    pub fn query_timeout(&self) -> (r: Duration)
        ensures
            r@ == self.query_timeout_ms * 1_000_000,
    {
        Duration::from_millis(self.query_timeout_ms)
    }

    /// How long a client may be idle.
    pub fn idle_client_timeout(&self) -> (r: Duration)
        ensures
            r@ == self.idle_client_timeout_ms * 1_000_000,
    {
        Duration::from_millis(self.idle_client_timeout_ms)
    }

    /// How long a transaction may be idle.
    pub fn idle_transaction_timeout(&self) -> (r: Duration)
        ensures
            r@ == self.idle_transaction_timeout_ms * 1_000_000,
    {
        Duration::from_millis(self.idle_transaction_timeout_ms)
    }
}

/// What the proxy tells of itself.
#[derive(Clone, Debug, PartialEq)]
pub struct ObservabilityConfig {
    pub metrics_addr: Option<SocketAddress>,
    pub debug_trace_sampling_rate: Double,
    pub phase_timing_sample_rate: Double,
    pub otel_enabled: bool,
    pub otel_endpoint: Option<String>,
    pub otel_service_name: String,
}

impl ObservabilityConfig {
    /// Whether every setting has its default.
    pub open spec fn is_default(self) -> bool {
        &&& self.metrics_addr is None
        &&& self.debug_trace_sampling_rate.bits == 0
        &&& self.phase_timing_sample_rate.bits == 0
        &&& self.otel_enabled == false
        &&& self.otel_endpoint is None
        &&& self.otel_service_name@ == "pg-kinetic"@
    }
}

impl Default for ObservabilityConfig {
    fn default() -> (r: ObservabilityConfig)
        ensures
            r.is_default(),
    {
        ObservabilityConfig {
            metrics_addr: None,
            debug_trace_sampling_rate: Double::zero(),
            phase_timing_sample_rate: Double::zero(),
            otel_enabled: false,
            otel_endpoint: None,
            otel_service_name: "pg-kinetic".to_owned(),
        }
    }
}

impl ObservabilityConfig {
    /// The share of requests that are traced.
    pub fn trace_sampling_ratio(&self) -> (r: Double)
        ensures
            r == self.debug_trace_sampling_rate.clamped(),
    {
        self.debug_trace_sampling_rate.clamp_unit()
    }

    /// The share of requests whose phases are timed.
    pub fn phase_timing_sample_rate(&self) -> (r: Double)
        ensures
            r == self.phase_timing_sample_rate.clamped(),
    {
        self.phase_timing_sample_rate.clamp_unit()
    }
}

/// The keys and certificates of both sides.
#[derive(Clone, Debug, PartialEq)]
pub struct TlsConfig {
    pub client_tls_mode: ClientTlsMode,
    pub client_cert_path: Option<String>,
    pub client_key_path: Option<String>,
    pub client_ca_path: Option<String>,
    pub backend_tls_mode: BackendTlsMode,
    pub backend_ca_path: Option<String>,
    pub backend_server_name: Option<String>,
}

impl TlsConfig {
    /// Whether every setting has its default.
    pub open spec fn is_default(self) -> bool {
        &&& self.client_tls_mode == ClientTlsMode::Disable
        &&& self.client_cert_path is None
        &&& self.client_key_path is None
        &&& self.client_ca_path is None
        &&& self.backend_tls_mode == BackendTlsMode::Disable
        &&& self.backend_ca_path is None
        &&& self.backend_server_name is None
    }
}

impl Default for TlsConfig {
    fn default() -> (r: TlsConfig)
        ensures
            r.is_default(),
    {
        TlsConfig {
            client_tls_mode: ClientTlsMode::Disable,
            client_cert_path: None,
            client_key_path: None,
            client_ca_path: None,
            backend_tls_mode: BackendTlsMode::Disable,
            backend_ca_path: None,
            backend_server_name: None,
        }
    }
}

impl TlsConfig {
    /// How clients speak TLS, as the security model names it.
    pub fn client_tls_mode_core(&self) -> (r: security::ClientTlsMode)
        ensures
            r == self.client_tls_mode.core_mode(),
    {
        self.client_tls_mode.to_core()
    }

    /// How servers speak TLS, as the security model names it.
    pub fn backend_tls_mode_core(&self) -> (r: security::BackendTlsMode)
        ensures
            r == self.backend_tls_mode.core_mode(),
    {
        self.backend_tls_mode.to_core()
    }
}

/// How clients and the proxy itself prove who they are.
#[derive(Clone, Debug, PartialEq)]
pub struct AuthConfig {
    pub auth_mode: AuthMode,
    pub auth_users_file: Option<String>,
    pub backend_user: Option<String>,
    pub backend_password_env_var_name: Option<String>,
    pub auth_query_enabled: bool,
    pub auth_query: String,
    pub auth_query_cache_ttl_ms: u64,
    pub auth_failure_message_mode: AuthFailureMessageMode,
}

impl AuthConfig {
    /// Whether every setting has its default.
    pub open spec fn is_default(self) -> bool {
        &&& self.auth_mode == AuthMode::PassThrough
        &&& self.auth_users_file is None
        &&& self.backend_user is None
        &&& self.backend_password_env_var_name is None
        &&& self.auth_query_enabled == false
        &&& self.auth_query@ == "SELECT usename, passwd FROM pg_shadow WHERE usename = $1"@
        &&& self.auth_query_cache_ttl_ms == 60_000
        &&& self.auth_failure_message_mode == AuthFailureMessageMode::Generic
    }
}

impl Default for AuthConfig {
    fn default() -> (r: AuthConfig)
        ensures
            r.is_default(),
    {
        AuthConfig {
            auth_mode: AuthMode::PassThrough,
            auth_users_file: None,
            backend_user: None,
            backend_password_env_var_name: None,
            auth_query_enabled: false,
            auth_query: "SELECT usename, passwd FROM pg_shadow WHERE usename = $1".to_owned(),
            auth_query_cache_ttl_ms: 60_000,
            auth_failure_message_mode: AuthFailureMessageMode::Generic,
        }
    }
}

impl AuthConfig {
    /// How long a secret that was looked up stays known.
    pub fn auth_query_cache_ttl(&self) -> (r: Duration)
        ensures
            r@ == self.auth_query_cache_ttl_ms * 1_000_000,
    {
        Duration::from_millis(self.auth_query_cache_ttl_ms)
    }
}

impl AuthConfig {
    /// How clients prove who they are, as the security model names it.
    pub fn auth_mode_core(&self) -> (r: security::AuthMode)
        ensures
            r == self.auth_mode.core_mode(),
    {
        self.auth_mode.to_core()
    }

    /// The first thing that is wrong with the settings.
    pub open spec fn auth_complaint(self) -> Option<Seq<char>> {
        if self.backend_user is Some && self.backend_password_env_var_name is Some && self.auth_mode
            == AuthMode::PassThrough {
            Some("backend service credentials are incompatible with auth_mode=pass_through"@)
        } else if self.backend_user is Some && self.backend_password_env_var_name is None {
            Some("auth.backend_user requires auth.backend_password_env_var_name"@)
        } else if self.backend_user is None && self.backend_password_env_var_name is Some {
            Some("auth.backend_password_env_var_name requires auth.backend_user"@)
        } else if !self.auth_query_enabled {
            None
        } else if self.backend_user is None || self.backend_password_env_var_name is None {
            Some("auth_query_enabled requires backend service credentials"@)
        } else if is_blank(self.auth_query@) {
            Some("auth_query must not be empty"@)
        } else if pair_count(self.auth_query@, '$', '1') != 1 {
            Some("auth_query must contain exactly one $1 placeholder"@)
        } else {
            None
        }
    }

    /// Checks that the proxy's own credentials are complete, that they are not given beside a
    /// mode that has no use for them, and that a query for secrets has its one placeholder.
    pub fn validate(&self) -> (r: Result<(), String>)
        ensures
            complaint(r) == self.auth_complaint(),
    {
        let user = self.backend_user.is_some();
        let password = self.backend_password_env_var_name.is_some();
        if user && password && self.auth_mode == AuthMode::PassThrough {
            return Err(
                "backend service credentials are incompatible with auth_mode=pass_through".to_owned(),
            );
        }
        if user && !password {
            return Err(
                "auth.backend_user requires auth.backend_password_env_var_name".to_owned(),
            );
        }
        if !user && password {
            return Err(
                "auth.backend_password_env_var_name requires auth.backend_user".to_owned(),
            );
        }
        if self.auth_query_enabled {
            if !user || !password {
                return Err("auth_query_enabled requires backend service credentials".to_owned());
            }
            if blank(self.auth_query.as_str()) {
                return Err("auth_query must not be empty".to_owned());
            }
            if count_pairs(self.auth_query.as_str(), '$', '1') != 1 {
                return Err("auth_query must contain exactly one $1 placeholder".to_owned());
            }
        }
        Ok(())
    }
}

/// Where the settings come from, and how often they are read again.
#[derive(Clone, Debug, PartialEq)]
pub struct ReloadConfig {
    pub config_file: Option<String>,
    pub config_reload_interval_ms: u64,
    pub reload_enabled: bool,
}

impl ReloadConfig {
    /// Whether every setting has its default.
    pub open spec fn is_default(self) -> bool {
        &&& self.config_file is None
        &&& self.config_reload_interval_ms == 5_000
        &&& self.reload_enabled == false
    }
}

impl Default for ReloadConfig {
    fn default() -> (r: ReloadConfig)
        ensures
            r.is_default(),
    {
        ReloadConfig {
            config_file: None,
            config_reload_interval_ms: 5_000,
            reload_enabled: false,
        }
    }
}

impl ReloadConfig {
    /// How often the settings are read again.
    pub fn config_reload_interval(&self) -> (r: Duration)
        ensures
            r@ == self.config_reload_interval_ms * 1_000_000,
    {
        Duration::from_millis(self.config_reload_interval_ms)
    }
}

/// How the proxy winds down.
#[derive(Clone, Copy, Debug, PartialEq, Eq, Structural)]
pub struct DrainConfig {
    pub drain_timeout_ms: u64,
    pub reject_new_clients_during_drain: bool,
}

impl DrainConfig {
    /// Whether every setting has its default.
    pub open spec fn is_default(self) -> bool {
        &&& self.drain_timeout_ms == 30_000
        &&& self.reject_new_clients_during_drain == false
    }
}

impl Default for DrainConfig {
    fn default() -> (r: DrainConfig)
        ensures
            r.is_default(),
    {
        DrainConfig {
            drain_timeout_ms: 30_000,
            reject_new_clients_during_drain: false,
        }
    }
}

impl DrainConfig {
    /// How long winding down may take.
    pub fn drain_timeout(&self) -> (r: Duration)
        ensures
            r@ == self.drain_timeout_ms * 1_000_000,
    {
        Duration::from_millis(self.drain_timeout_ms)
    }

    /// How long winding down may take.
    pub fn drain_grace(&self) -> (r: Duration)
        ensures
            r@ == self.drain_timeout_ms * 1_000_000,
    {
        Duration::from_millis(self.drain_timeout_ms)
    }
}

/// The health listener.
#[derive(Clone, Copy, Debug, PartialEq, Eq, Structural)]
pub struct HealthConfig {
    pub health_addr: Option<SocketAddress>,
    pub readiness_backend_check_interval_ms: u64,
    pub readiness_timeout_ms: u64,
}

impl HealthConfig {
    /// Whether every setting has its default.
    pub open spec fn is_default(self) -> bool {
        &&& self.health_addr is None
        &&& self.readiness_backend_check_interval_ms == 1_000
        &&& self.readiness_timeout_ms == 5_000
    }
}

impl Default for HealthConfig {
    fn default() -> (r: HealthConfig)
        ensures
            r.is_default(),
    {
        HealthConfig {
            health_addr: None,
            readiness_backend_check_interval_ms: 1_000,
            readiness_timeout_ms: 5_000,
        }
    }
}

impl HealthConfig {
    /// How often the server is checked.
    pub fn readiness_backend_check_interval(&self) -> (r: Duration)
        ensures
            r@ == self.readiness_backend_check_interval_ms * 1_000_000,
    {
        Duration::from_millis(self.readiness_backend_check_interval_ms)
    }

    /// How long a check may take.
    pub fn readiness_timeout(&self) -> (r: Duration)
        ensures
            r@ == self.readiness_timeout_ms * 1_000_000,
    {
        Duration::from_millis(self.readiness_timeout_ms)
    }
}

/// The options of the sockets.
#[derive(Clone, Copy, Debug, PartialEq, Eq, Structural)]
pub struct SocketConfig {
    pub tcp_nodelay: bool,
    pub tcp_keepalive: bool,
    pub tcp_keepalive_idle_ms: Option<u64>,
    pub tcp_keepalive_interval_ms: Option<u64>,
    pub tcp_keepalive_retries: Option<u32>,
    pub tcp_user_timeout_ms: Option<u64>,
    pub tcp_send_buffer_bytes: Option<usize>,
    pub tcp_recv_buffer_bytes: Option<usize>,
    pub strict_socket_option_mode: bool,
}

impl SocketConfig {
    /// Whether every setting has its default.
    pub open spec fn is_default(self) -> bool {
        &&& self.tcp_nodelay == true
        &&& self.tcp_keepalive == false
        &&& self.tcp_keepalive_idle_ms is None
        &&& self.tcp_keepalive_interval_ms is None
        &&& self.tcp_keepalive_retries is None
        &&& self.tcp_user_timeout_ms is None
        &&& self.tcp_send_buffer_bytes is None
        &&& self.tcp_recv_buffer_bytes is None
        &&& self.strict_socket_option_mode == false
    }
}

impl Default for SocketConfig {
    fn default() -> (r: SocketConfig)
        ensures
            r.is_default(),
    {
        SocketConfig {
            tcp_nodelay: true,
            tcp_keepalive: false,
            tcp_keepalive_idle_ms: None,
            tcp_keepalive_interval_ms: None,
            tcp_keepalive_retries: None,
            tcp_user_timeout_ms: None,
            tcp_send_buffer_bytes: None,
            tcp_recv_buffer_bytes: None,
            strict_socket_option_mode: false,
        }
    }
}

/// The span of an optional number of milliseconds.
pub open spec fn millis_span(millis: Option<u64>, span: Option<Duration>) -> bool {
    match (millis, span) {
        (Some(m), Some(s)) => s@ == m * 1_000_000,
        (None, None) => true,
        _ => false,
    }
}

fn opt_millis(millis: Option<u64>) -> (r: Option<Duration>)
    ensures
        millis_span(millis, r),
{
    match millis {
        Some(m) => Some(Duration::from_millis(m)),
        None => None,
    }
}

impl SocketConfig {
    /// How long a connection is idle before it is probed.
    pub fn tcp_keepalive_idle(&self) -> (r: Option<Duration>)
        ensures
            millis_span(self.tcp_keepalive_idle_ms, r),
    {
        opt_millis(self.tcp_keepalive_idle_ms)
    }

    /// How long two probes are apart.
    pub fn tcp_keepalive_interval(&self) -> (r: Option<Duration>)
        ensures
            millis_span(self.tcp_keepalive_interval_ms, r),
    {
        opt_millis(self.tcp_keepalive_interval_ms)
    }

    /// How long written bytes may stay unacknowledged.
    pub fn tcp_user_timeout(&self) -> (r: Option<Duration>)
        ensures
            millis_span(self.tcp_user_timeout_ms, r),
    {
        opt_millis(self.tcp_user_timeout_ms)
    }
}

// ---------------------------------------------------------------------------
// All settings
// ---------------------------------------------------------------------------

/// All settings of the proxy.
#[derive(Clone, Debug, PartialEq)]
pub struct Config {
    pub connection: ConnectionConfig,
    pub routes: Vec<RouteConfig>,
    pub pools: Vec<PoolConfig>,
    pub runtime: RuntimeConfig,
    pub capacity: CapacityConfig,
    pub pool_lifecycle: PoolLifecycleConfig,
    pub performance: PerformanceConfig,
    pub qos: QosConfig,
    pub admin: AdminConfig,
    pub observability: ObservabilityConfig,
    pub tls: TlsConfig,
    pub auth: AuthConfig,
    pub reload: ReloadConfig,
    pub drain: DrainConfig,
    pub health: HealthConfig,
    pub socket: SocketConfig,
}

impl Config {
    /// Whether every setting has its default.
    pub open spec fn is_default(self) -> bool {
        &&& self.connection.is_default()
        &&& self.routes@.len() == 0
        &&& self.pools@.len() == 0
        &&& self.runtime.is_default()
        &&& self.capacity.is_default()
        &&& self.pool_lifecycle.is_default()
        &&& self.performance.is_default()
        &&& self.qos.is_default()
        &&& self.admin.is_default()
        &&& self.observability.is_default()
        &&& self.tls.is_default()
        &&& self.auth.is_default()
        &&& self.reload.is_default()
        &&& self.drain.is_default()
        &&& self.health.is_default()
        &&& self.socket.is_default()
    }
}

impl Default for Config {
    fn default() -> (r: Config)
        ensures
            r.is_default(),
    {
        Config {
            connection: ConnectionConfig::default(),
            routes: Vec::new(),
            pools: Vec::new(),
            runtime: RuntimeConfig::default(),
            capacity: CapacityConfig::default(),
            pool_lifecycle: PoolLifecycleConfig::default(),
            performance: PerformanceConfig::default(),
            qos: QosConfig::default(),
            admin: AdminConfig::default(),
            observability: ObservabilityConfig::default(),
            tls: TlsConfig::default(),
            auth: AuthConfig::default(),
            reload: ReloadConfig::default(),
            drain: DrainConfig::default(),
            health: HealthConfig::default(),
            socket: SocketConfig::default(),
        }
    }
}

impl Config {
    /// Whether the settings are those of a command line without arguments.
    pub open spec fn is_command_line_default(self) -> bool {
        &&& self.connection.is_default()
        &&& self.routes@.len() == 0
        &&& self.pools@.len() == 0
        &&& self.runtime.lifecycle.is_default()
        &&& self.runtime.engine == (RuntimeEngineConfig {
            runtime_engine: RuntimeEngine::ThreadPerCore,
            experimental_runtime_enabled: false,
            runtime_shards: None,
        })
        &&& self.runtime.production.is_default()
        &&& self.capacity.is_default()
        &&& self.pool_lifecycle.is_default()
        &&& self.performance.is_default()
        &&& self.qos.is_default()
        &&& self.admin.admin_addr is None
        &&& !self.admin.admin_require_tls
        &&& self.admin.admin_allowed_user is None
        &&& self.admin.admin_query_timeout_ms == 1_000
        &&& self.admin.admin_max_clients == 8
        &&& self.observability.is_default()
        &&& self.tls.is_default()
        &&& self.auth.is_default()
        &&& self.reload.is_default()
        &&& self.drain.is_default()
        &&& self.health.is_default()
        &&& self.socket.is_default()
    }

    /// The settings of a command line without arguments, on a node: one shard for each core, and
    /// an admin endpoint that is ready to be switched on.
    pub fn for_command_line(node_id: NodeId) -> (r: Config)
        ensures
            r.is_command_line_default(),
            r.runtime.node.node_id@ == node_id@,
    {
        let mut config = Config::default();
        config.runtime.node = NodeConfig { node_id };
        config.runtime.engine.runtime_engine = RuntimeEngine::ThreadPerCore;
        config.admin.admin_query_timeout_ms = 1_000;
        config.admin.admin_max_clients = 8;
        config
    }
}

impl PerformanceConfig {
    /// Whether two sets of these settings are the same.
    pub open spec fn same(self, other: PerformanceConfig) -> bool {
        &&& self.checkout_timeout_ms == other.checkout_timeout_ms
        &&& self.pool_mode == other.pool_mode
        &&& self.recovery_mode == other.recovery_mode
        &&& self.recovery_timeout_ms == other.recovery_timeout_ms
        &&& self.backend_reset_query@ == other.backend_reset_query@
    }

    fn same_as(&self, other: &PerformanceConfig) -> (r: bool)
        ensures
            r == self.same(*other),
    {
        self.checkout_timeout_ms == other.checkout_timeout_ms && self.pool_mode == other.pool_mode
            && self.recovery_mode == other.recovery_mode && self.recovery_timeout_ms
            == other.recovery_timeout_ms && same_text(
            self.backend_reset_query.as_str(),
            other.backend_reset_query.as_str(),
        )
    }
}

impl AdminConfig {
    /// Whether two sets of these settings are the same.
    pub open spec fn same(self, other: AdminConfig) -> bool {
        &&& self.admin_addr == other.admin_addr
        &&& self.admin_require_tls == other.admin_require_tls
        &&& opt_text(self.admin_allowed_user) == opt_text(other.admin_allowed_user)
        &&& self.admin_query_timeout_ms == other.admin_query_timeout_ms
        &&& self.admin_max_clients == other.admin_max_clients
    }

    fn same_as(&self, other: &AdminConfig) -> (r: bool)
        ensures
            r == self.same(*other),
    {
        self.admin_addr == other.admin_addr && self.admin_require_tls == other.admin_require_tls
            && same_opt(&self.admin_allowed_user, &other.admin_allowed_user)
            && self.admin_query_timeout_ms == other.admin_query_timeout_ms && self.admin_max_clients
            == other.admin_max_clients
    }
}

impl ObservabilityConfig {
    /// Whether two sets of these settings are the same.
    pub open spec fn same(self, other: ObservabilityConfig) -> bool {
        &&& self.metrics_addr == other.metrics_addr
        &&& self.debug_trace_sampling_rate.equal(other.debug_trace_sampling_rate)
        &&& self.phase_timing_sample_rate.equal(other.phase_timing_sample_rate)
        &&& self.otel_enabled == other.otel_enabled
        &&& opt_text(self.otel_endpoint) == opt_text(other.otel_endpoint)
        &&& self.otel_service_name@ == other.otel_service_name@
    }

    fn same_as(&self, other: &ObservabilityConfig) -> (r: bool)
        ensures
            r == self.same(*other),
    {
        self.metrics_addr == other.metrics_addr && self.debug_trace_sampling_rate.equals(
            other.debug_trace_sampling_rate,
        ) && self.phase_timing_sample_rate.equals(other.phase_timing_sample_rate)
            && self.otel_enabled == other.otel_enabled && same_opt(
            &self.otel_endpoint,
            &other.otel_endpoint,
        ) && same_text(self.otel_service_name.as_str(), other.otel_service_name.as_str())
    }
}

impl TlsConfig {
    /// Whether two sets of these settings are the same.
    pub open spec fn same(self, other: TlsConfig) -> bool {
        &&& self.client_tls_mode == other.client_tls_mode
        &&& same_opt_path_text(self.client_cert_path, other.client_cert_path)
        &&& same_opt_path_text(self.client_key_path, other.client_key_path)
        &&& same_opt_path_text(self.client_ca_path, other.client_ca_path)
        &&& self.backend_tls_mode == other.backend_tls_mode
        &&& same_opt_path_text(self.backend_ca_path, other.backend_ca_path)
        &&& opt_text(self.backend_server_name) == opt_text(other.backend_server_name)
    }

    pub(crate) fn same_as(&self, other: &TlsConfig) -> (r: bool)
        ensures
            r == self.same(*other),
    {
        self.client_tls_mode == other.client_tls_mode && same_opt_path(
            &self.client_cert_path,
            &other.client_cert_path,
        ) && same_opt_path(&self.client_key_path, &other.client_key_path) && same_opt_path(
            &self.client_ca_path,
            &other.client_ca_path,
        ) && self.backend_tls_mode == other.backend_tls_mode && same_opt_path(
            &self.backend_ca_path,
            &other.backend_ca_path,
        ) && same_opt(&self.backend_server_name, &other.backend_server_name)
    }

    /// Copies the settings.
    pub fn copied(&self) -> (r: TlsConfig)
        ensures
            r.same(*self),
            r.client_tls_mode == self.client_tls_mode,
            opt_text(r.client_cert_path) == opt_text(self.client_cert_path),
            opt_text(r.client_key_path) == opt_text(self.client_key_path),
            opt_text(r.client_ca_path) == opt_text(self.client_ca_path),
            r.backend_tls_mode == self.backend_tls_mode,
            opt_text(r.backend_ca_path) == opt_text(self.backend_ca_path),
            opt_text(r.backend_server_name) == opt_text(self.backend_server_name),
    {
        TlsConfig {
            client_tls_mode: self.client_tls_mode,
            client_cert_path: clone_opt(&self.client_cert_path),
            client_key_path: clone_opt(&self.client_key_path),
            client_ca_path: clone_opt(&self.client_ca_path),
            backend_tls_mode: self.backend_tls_mode,
            backend_ca_path: clone_opt(&self.backend_ca_path),
            backend_server_name: clone_opt(&self.backend_server_name),
        }
    }
}

impl Config {
    /// What the routes are: those that are set, or the one of the server behind the proxy.
    pub open spec fn routes_in_force(self, routes: Seq<RouteConfig>) -> bool {
        if self.routes@.len() == 0 {
            routes.len() == 1 && routes[0].only_primary(self.connection.backend_addr)
        } else {
            same_routes(routes, self.routes@)
        }
    }

    /// The routes in force.
    pub fn route_configs(&self) -> (r: Vec<RouteConfig>)
        ensures
            self.routes_in_force(r@),
    {
        self.effective_routes()
    }

    /// The routes in force.
    pub fn effective_routes(&self) -> (r: Vec<RouteConfig>)
        ensures
            self.routes_in_force(r@),
    {
        let mut out: Vec<RouteConfig> = Vec::new();
        if self.routes.is_empty() {
            out.push(RouteConfig::from_backend_addr(self.connection.backend_addr));
            return out;
        }
        let mut i: usize = 0;
        while i < self.routes.len()
            invariant
                i <= self.routes@.len(),
                out@.len() == i,
                forall|j: int| 0 <= j < i ==> (#[trigger] out@[j]).same(self.routes@[j]),
            decreases self.routes@.len() - i,
        {
            out.push(self.routes[i].copied());
            i += 1;
        }
        out
    }

    /// Checks that every pool has a connection, and that no two serve the same database and
    /// user.
    pub fn validate_pool_configs(&self) -> (r: Result<(), String>)
        ensures
            complaint(r) == pools_complaint(self.pools@),
    {
        validate_pool_configs(&self.pools)
    }

    /// The first thing that is wrong with the settings.
    pub open spec fn config_complaint(self) -> Option<Seq<char>> {
        if self.capacity.capacity_complaint() is Some {
            self.capacity.capacity_complaint()
        } else if self.auth.auth_complaint() is Some {
            self.auth.auth_complaint()
        } else {
            pools_complaint(self.pools@)
        }
    }

    /// Checks the limits, then the credentials, then the pools.
    pub fn validate(&self) -> (r: Result<(), String>)
        ensures
            complaint(r) == self.config_complaint(),
    {
        match self.capacity.validate() {
            Err(message) => {
                return Err(message);
            },
            Ok(()) => {},
        }
        match self.auth.validate() {
            Err(message) => {
                return Err(message);
            },
            Ok(()) => {},
        }
        self.validate_pool_configs()
    }

    /// The first thing that is wrong with settings from the command line.
    pub open spec fn argument_complaint(self) -> Option<Seq<char>> {
        if self.capacity.capacity_complaint() is Some {
            self.capacity.capacity_complaint()
        } else {
            self.runtime.engine.engine_complaint()
        }
    }

    /// Checks what settings from the command line must pass: the limits, then the engine.
    pub fn validate_arguments(&self) -> (r: Result<(), String>)
        ensures
            complaint(r) == self.argument_complaint(),
    {
        match self.capacity.validate() {
            Err(message) => {
                return Err(message);
            },
            Ok(()) => {},
        }
        self.runtime.engine.validate()
    }

    /// Whether a running proxy can take over other settings: all that would need a restart are
    /// the same. What may differ is how long a statement may run, the users file, the proxy's
    /// own credentials and the socket options.
    pub open spec fn reload_compatible(self, next: Config) -> bool {
        &&& self.connection == next.connection
        &&& same_routes(self.routes@, next.routes@)
        &&& same_pools(self.pools@, next.pools@)
        &&& self.capacity == next.capacity
        &&& self.pool_lifecycle == next.pool_lifecycle
        &&& self.performance.same(next.performance)
        &&& self.qos.max_route_in_flight == next.qos.max_route_in_flight
        &&& self.qos.max_route_waiters == next.qos.max_route_waiters
        &&& self.qos.idle_client_timeout_ms == next.qos.idle_client_timeout_ms
        &&& self.qos.idle_transaction_timeout_ms == next.qos.idle_transaction_timeout_ms
        &&& self.qos.max_client_buffer_bytes == next.qos.max_client_buffer_bytes
        &&& self.qos.max_backend_buffer_bytes == next.qos.max_backend_buffer_bytes
        &&& self.qos.overload_error_code@ == next.qos.overload_error_code@
        &&& self.admin.same(next.admin)
        &&& self.observability.same(next.observability)
        &&& self.tls.same(next.tls)
        &&& self.auth.auth_mode == next.auth.auth_mode
        &&& self.auth.auth_query_enabled == next.auth.auth_query_enabled
        &&& self.auth.auth_query@ == next.auth.auth_query@
        &&& self.auth.auth_query_cache_ttl_ms == next.auth.auth_query_cache_ttl_ms
        &&& self.auth.auth_failure_message_mode == next.auth.auth_failure_message_mode
        &&& same_opt_path_text(self.reload.config_file, next.reload.config_file)
        &&& self.reload.config_reload_interval_ms == next.reload.config_reload_interval_ms
        &&& self.reload.reload_enabled == next.reload.reload_enabled
        &&& self.drain == next.drain
        &&& self.health == next.health
        &&& self.runtime.same(next.runtime)
    }

    /// Whether a running proxy can take over other settings.
    pub fn is_reload_compatible_with(&self, next: &Config) -> (r: bool)
        ensures
            r == self.reload_compatible(*next),
    {
        self.connection == next.connection && same_route_lists(&self.routes, &next.routes)
            && same_pool_lists(&self.pools, &next.pools) && self.capacity == next.capacity
            && self.pool_lifecycle == next.pool_lifecycle && self.performance.same_as(
            &next.performance,
        ) && self.qos.max_route_in_flight == next.qos.max_route_in_flight
            && self.qos.max_route_waiters == next.qos.max_route_waiters
            && self.qos.idle_client_timeout_ms == next.qos.idle_client_timeout_ms
            && self.qos.idle_transaction_timeout_ms == next.qos.idle_transaction_timeout_ms
            && self.qos.max_client_buffer_bytes == next.qos.max_client_buffer_bytes
            && self.qos.max_backend_buffer_bytes == next.qos.max_backend_buffer_bytes && same_text(
            self.qos.overload_error_code.as_str(),
            next.qos.overload_error_code.as_str(),
        ) && self.admin.same_as(&next.admin) && self.observability.same_as(&next.observability)
            && self.tls.same_as(&next.tls) && self.auth.auth_mode == next.auth.auth_mode
            && self.auth.auth_query_enabled == next.auth.auth_query_enabled && same_text(
            self.auth.auth_query.as_str(),
            next.auth.auth_query.as_str(),
        ) && self.auth.auth_query_cache_ttl_ms == next.auth.auth_query_cache_ttl_ms
            && self.auth.auth_failure_message_mode == next.auth.auth_failure_message_mode
            && same_opt_path(&self.reload.config_file, &next.reload.config_file)
            && self.reload.config_reload_interval_ms == next.reload.config_reload_interval_ms
            && self.reload.reload_enabled == next.reload.reload_enabled && self.drain == next.drain
            && self.health == next.health && self.runtime.same_as(&next.runtime)
    }
}

/// A change of nothing but how long a statement may run can always be taken over, wherever the
/// rates among the settings are numbers.
pub proof fn law_query_timeout_reloads(current: Config, next: Config, millis: u64)
    requires
        next == (Config { qos: QosConfig { query_timeout_ms: millis, ..current.qos }, ..current }),
        !current.observability.debug_trace_sampling_rate.is_nan(),
        !current.observability.phase_timing_sample_rate.is_nan(),
        !current.runtime.production.adaptive.adaptive_min_confidence.is_nan(),
    ensures
        current.reload_compatible(next),
{
}

/// A running proxy keeps its limits: settings with another limit of clients, of server connections
/// or of clients that wait for one need a restart, whatever else they say.
pub proof fn law_other_limits_need_restart(current: Config, next: Config)
    requires
        current.capacity.max_clients != next.capacity.max_clients || current.capacity.max_backends
            != next.capacity.max_backends || current.capacity.max_checkout_waiters
            != next.capacity.max_checkout_waiters,
    ensures
        !current.reload_compatible(next),
{
}

/// Settings that can be taken over differ in nothing but how long a statement may run, the users
/// file, the proxy's own credentials and the socket options: addresses, routes, pools and limits
/// are the same.
pub proof fn law_reload_keeps_servers(current: Config, next: Config)
    requires
        current.reload_compatible(next),
    ensures
        current.connection.listen_addr == next.connection.listen_addr,
        current.connection.backend_addr == next.connection.backend_addr,
        current.routes@.len() == next.routes@.len(),
        forall|i: int|
            0 <= i < current.routes@.len() ==> {
                let a = #[trigger] current.routes@[i];
                let b = next.routes@[i];
                &&& a.primary.address == b.primary.address
                &&& a.primary.connect_timeout_ms == b.primary.connect_timeout_ms
                &&& a.primary.tls_mode == b.primary.tls_mode
                &&& a.replicas@ == b.replicas@
                &&& a.read_routing.read_routing_mode == b.read_routing.read_routing_mode
                &&& a.read_routing.fallback_policy == b.read_routing.fallback_policy
                &&& a.freshness.freshness_policy == b.freshness.freshness_policy
                &&& a.freshness.max_replica_lag_ms == b.freshness.max_replica_lag_ms
                &&& a.freshness.read_after_write_timeout_ms
                    == b.freshness.read_after_write_timeout_ms
                &&& a.ha.replica_health_interval_ms == b.ha.replica_health_interval_ms
                &&& a.ha.replica_health_timeout_ms == b.ha.replica_health_timeout_ms
            },
        current.pools@.len() == next.pools@.len(),
        forall|i: int|
            0 <= i < current.pools@.len() ==> {
                let a = #[trigger] current.pools@[i];
                let b = next.pools@[i];
                &&& a.database@ == b.database@
                &&& a.user@ == b.user@
                &&& a.backend_addr == b.backend_addr
                &&& a.max_backends == b.max_backends
            },
        current.capacity.max_clients == next.capacity.max_clients,
        current.capacity.max_backends == next.capacity.max_backends,
        current.capacity.max_checkout_waiters == next.capacity.max_checkout_waiters,
        current.pool_lifecycle.max_size == next.pool_lifecycle.max_size,
        current.pool_lifecycle.min_idle == next.pool_lifecycle.min_idle,
        current.pool_lifecycle.idle_timeout@ == next.pool_lifecycle.idle_timeout@,
        current.pool_lifecycle.max_lifetime@ == next.pool_lifecycle.max_lifetime@,
        current.performance.checkout_timeout_ms == next.performance.checkout_timeout_ms,
        current.performance.pool_mode == next.performance.pool_mode,
        current.performance.recovery_mode == next.performance.recovery_mode,
        current.performance.recovery_timeout_ms == next.performance.recovery_timeout_ms,
        current.performance.backend_reset_query@ == next.performance.backend_reset_query@,
        current.qos.max_route_in_flight == next.qos.max_route_in_flight,
        current.qos.max_route_waiters == next.qos.max_route_waiters,
        current.qos.idle_client_timeout_ms == next.qos.idle_client_timeout_ms,
        current.qos.idle_transaction_timeout_ms == next.qos.idle_transaction_timeout_ms,
        current.qos.max_client_buffer_bytes == next.qos.max_client_buffer_bytes,
        current.qos.max_backend_buffer_bytes == next.qos.max_backend_buffer_bytes,
        current.qos.overload_error_code@ == next.qos.overload_error_code@,
{
    assert(forall|i: int|
        0 <= i < current.routes@.len() ==> (#[trigger] current.routes@[i]).same(next.routes@[i]));
    assert(forall|i: int|
        0 <= i < current.pools@.len() ==> (#[trigger] current.pools@[i]).same(next.pools@[i]));
}

/// Settings that can be taken over keep the endpoints, the encryption and the way clients log in.
pub proof fn law_reload_keeps_access(current: Config, next: Config)
    requires
        current.reload_compatible(next),
    ensures
        current.admin.admin_addr == next.admin.admin_addr,
        current.admin.admin_require_tls == next.admin.admin_require_tls,
        opt_text(current.admin.admin_allowed_user) == opt_text(next.admin.admin_allowed_user),
        current.admin.admin_query_timeout_ms == next.admin.admin_query_timeout_ms,
        current.admin.admin_max_clients == next.admin.admin_max_clients,
        current.observability.metrics_addr == next.observability.metrics_addr,
        current.observability.debug_trace_sampling_rate.rank()
            == next.observability.debug_trace_sampling_rate.rank(),
        current.observability.phase_timing_sample_rate.rank()
            == next.observability.phase_timing_sample_rate.rank(),
        current.observability.otel_enabled == next.observability.otel_enabled,
        opt_text(current.observability.otel_endpoint) == opt_text(
            next.observability.otel_endpoint,
        ),
        current.observability.otel_service_name@ == next.observability.otel_service_name@,
        current.tls.client_tls_mode == next.tls.client_tls_mode,
        same_opt_path_text(current.tls.client_cert_path, next.tls.client_cert_path),
        same_opt_path_text(current.tls.client_key_path, next.tls.client_key_path),
        same_opt_path_text(current.tls.client_ca_path, next.tls.client_ca_path),
        current.tls.backend_tls_mode == next.tls.backend_tls_mode,
        same_opt_path_text(current.tls.backend_ca_path, next.tls.backend_ca_path),
        opt_text(current.tls.backend_server_name) == opt_text(next.tls.backend_server_name),
        current.auth.auth_mode == next.auth.auth_mode,
        current.auth.auth_query_enabled == next.auth.auth_query_enabled,
        current.auth.auth_query@ == next.auth.auth_query@,
        current.auth.auth_query_cache_ttl_ms == next.auth.auth_query_cache_ttl_ms,
        current.auth.auth_failure_message_mode == next.auth.auth_failure_message_mode,
{
}

/// Settings that can be taken over keep the way the process runs, starts and ends.
pub proof fn law_reload_keeps_process(current: Config, next: Config)
    requires
        current.reload_compatible(next),
    ensures
        same_opt_path_text(current.reload.config_file, next.reload.config_file),
        current.reload.config_reload_interval_ms == next.reload.config_reload_interval_ms,
        current.reload.reload_enabled == next.reload.reload_enabled,
        current.drain.drain_timeout_ms == next.drain.drain_timeout_ms,
        current.drain.reject_new_clients_during_drain
            == next.drain.reject_new_clients_during_drain,
        current.health.health_addr == next.health.health_addr,
        current.health.readiness_backend_check_interval_ms
            == next.health.readiness_backend_check_interval_ms,
        current.health.readiness_timeout_ms == next.health.readiness_timeout_ms,
        ({
            let a = current.runtime.lifecycle;
            let b = next.runtime.lifecycle;
            &&& a.startup_grace_ms == b.startup_grace_ms
            &&& a.shutdown_grace_ms == b.shutdown_grace_ms
            &&& a.readiness_fail_during_drain == b.readiness_fail_during_drain
            &&& a.pre_stop_drain_enabled == b.pre_stop_drain_enabled
            &&& a.pre_stop_drain_endpoint@ == b.pre_stop_drain_endpoint@
            &&& a.startup_backend_checks_enabled == b.startup_backend_checks_enabled
            &&& a.termination_grace_period_seconds == b.termination_grace_period_seconds
        }),
        current.runtime.node.node_id@ == next.runtime.node.node_id@,
        current.runtime.engine.runtime_engine == next.runtime.engine.runtime_engine,
        current.runtime.engine.experimental_runtime_enabled
            == next.runtime.engine.experimental_runtime_enabled,
        current.runtime.engine.runtime_shards == next.runtime.engine.runtime_shards,
        ({
            let a = current.runtime.production;
            let b = next.runtime.production;
            &&& a.control_plane_enabled == b.control_plane_enabled
            &&& a.mirroring_enabled == b.mirroring_enabled
            &&& a.adaptive_enabled == b.adaptive_enabled
            &&& a.adaptive.adaptive_mode == b.adaptive.adaptive_mode
            &&& a.adaptive.adaptive_window_ms == b.adaptive.adaptive_window_ms
            &&& a.adaptive.adaptive_min_confidence.rank()
                == b.adaptive.adaptive_min_confidence.rank()
            &&& a.adaptive.apply.adaptive_apply_enabled == b.adaptive.apply.adaptive_apply_enabled
            &&& a.adaptive.apply.adaptive_apply_allowlist@
                == b.adaptive.apply.adaptive_apply_allowlist@
            &&& a.adaptive.guardrail.adaptive_max_change_percent
                == b.adaptive.guardrail.adaptive_max_change_percent
        }),
{
}

/// How long a statement may run, the users file, the proxy's own credentials and the socket
/// options can be changed together, in any way, without a restart, wherever the rates among the
/// settings are numbers.
pub proof fn law_changeable_settings_reload(
    current: Config,
    next: Config,
    millis: u64,
    users_file: Option<String>,
    user: Option<String>,
    password_name: Option<String>,
    socket: SocketConfig,
)
    requires
        next == (Config {
            qos: QosConfig { query_timeout_ms: millis, ..current.qos },
            auth: AuthConfig {
                auth_users_file: users_file,
                backend_user: user,
                backend_password_env_var_name: password_name,
                ..current.auth
            },
            socket,
            ..current
        }),
        !current.observability.debug_trace_sampling_rate.is_nan(),
        !current.observability.phase_timing_sample_rate.is_nan(),
        !current.runtime.production.adaptive.adaptive_min_confidence.is_nan(),
    ensures
        current.reload_compatible(next),
{
}

/// Settings are valid exactly where there may be a server connection, the proxy's own credentials
/// are whole and fit the way clients log in, a query for secrets comes with credentials and asks
/// for one user, every pool may have a connection, and no two pools serve the same database and
/// user.
pub proof fn law_valid_exactly_where(config: Config)
    ensures
        config.config_complaint() is None <==> {
            &&& config.capacity.max_backends > 0
            &&& config.auth.backend_user is Some
                <==> config.auth.backend_password_env_var_name is Some
            &&& config.auth.backend_user is Some ==> config.auth.auth_mode != AuthMode::PassThrough
            &&& config.auth.auth_query_enabled ==> config.auth.backend_user is Some && !is_blank(
                config.auth.auth_query@,
            ) && pair_count(config.auth.auth_query@, '$', '1') == 1
            &&& forall|i: int|
                0 <= i < config.pools@.len() ==> (#[trigger] config.pools@[i]).max_backends != Some(
                    0usize,
                )
            &&& forall|i: int, j: int|
                0 <= i < j < config.pools@.len() ==> (#[trigger] config.pools@[i]).database@ != (
                #[trigger] config.pools@[j]).database@ || config.pools@[i].user@
                    != config.pools@[j].user@
        },
        config.argument_complaint() is None <==> {
            &&& config.capacity.max_backends > 0
            &&& config.runtime.engine.runtime_engine == RuntimeEngine::ExperimentalIoUring
                ==> config.runtime.engine.experimental_runtime_enabled
            &&& config.runtime.engine.runtime_shards != Some(0usize)
        },
{
    law_pools_pass(config.pools@);
}

/// What is said of settings names what is wrong with them, and the limit is looked at first.
pub proof fn law_first_complaint_is_told(config: Config)
    ensures
        config.capacity.max_backends == 0 ==> config.config_complaint() == Some(
            "capacity.max_backends must be greater than zero"@,
        ) && config.argument_complaint() == config.config_complaint(),
        config.capacity.max_backends > 0 ==> {
            let user = config.auth.backend_user is Some;
            let name = config.auth.backend_password_env_var_name is Some;
            &&& user && name && config.auth.auth_mode == AuthMode::PassThrough
                ==> config.config_complaint() == Some(
                "backend service credentials are incompatible with auth_mode=pass_through"@,
            )
            &&& user && !name ==> config.config_complaint() == Some(
                "auth.backend_user requires auth.backend_password_env_var_name"@,
            )
            &&& !user && name ==> config.config_complaint() == Some(
                "auth.backend_password_env_var_name requires auth.backend_user"@,
            )
            &&& !user && !name && config.auth.auth_query_enabled ==> config.config_complaint()
                == Some("auth_query_enabled requires backend service credentials"@)
        },
{
}

/// Compatibility does not depend on which settings are the running ones.
pub proof fn law_reload_symmetric(a: Config, b: Config)
    ensures
        a.reload_compatible(b) == b.reload_compatible(a),
{
    if a.reload_compatible(b) {
        lemma_reload_swapped(a, b);
    }
    if b.reload_compatible(a) {
        lemma_reload_swapped(b, a);
    }
}

proof fn lemma_reload_swapped(a: Config, b: Config)
    requires
        a.reload_compatible(b),
    ensures
        b.reload_compatible(a),
{
    assert forall|i: int| 0 <= i < b.routes@.len() implies (#[trigger] b.routes@[i]).same(
        a.routes@[i],
    ) by {
        assert(a.routes@[i].same(b.routes@[i]));
    }
    assert forall|i: int| 0 <= i < b.pools@.len() implies (#[trigger] b.pools@[i]).same(
        a.pools@[i],
    ) by {
        assert(a.pools@[i].same(b.pools@[i]));
    }
}

/// The settings that hold where nothing is said are valid, mirror nothing, change nothing of
/// themselves and ask for no encryption.
pub proof fn law_defaults_are_valid(config: Config, mirror: MirrorConfig, policy: PolicyConfig)
    requires
        config.is_default(),
        mirror.is_default(),
        policy.is_default(),
    ensures
        config.config_complaint() is None,
        config.argument_complaint() is None,
        config.pool_lifecycle.lifecycle_complaint() is None,
        config.runtime.production.adaptive.adaptive_complaint() is None,
        config.reload_compatible(config),
        !config.runtime.production.control_plane_enabled,
        !config.runtime.production.mirroring_enabled,
        !config.runtime.production.adaptive_enabled,
        !config.runtime.production.adaptive.apply.adaptive_apply_enabled,
        config.tls.client_tls_mode is Disable,
        config.tls.backend_tls_mode is Disable,
        config.auth.auth_mode is PassThrough,
        config.auth.backend_user is None,
        !config.auth.auth_query_enabled,
        config.admin.admin_addr is None,
        !mirror.enabled(),
        mirror.target.address is None,
        !mirror.safety.mirror_writes_enabled,
        !mirror.safety.mirror_transactions_enabled,
        !mirror.safety.mirror_copy_enabled,
        !mirror.safety.mirror_listen_notify_enabled,
        !mirror.safety.mirror_temp_table_enabled,
        !mirror.safety.mirror_session_mutation_enabled,
        mirror.safety.mirror_require_isolated_target,
        policy.policy_mode is Disabled,
        !policy.policy_wasm.policy_wasm_enabled,
        policy.policy_complaint() is None,
{
    law_pools_pass(config.pools@);
}

/// Requests are mirrored at all only where mirroring is switched on and has a mode. A mirror that
/// must be isolated is refused exactly where it is the production server and not marked as isolated.
pub proof fn law_mirror_settings(mirror: MirrorConfig, production: SocketAddress, isolated: bool)
    ensures
        mirror.enabled() <==> mirror.mirroring_enabled && (mirror.mirror_mode is ReadOnly
            || mirror.mirror_mode is Explicit),
        mirror.target.target_complaint(production, isolated) is Some <==> isolated
            && !mirror.target.isolated && mirror.target.address == Some(production),
{
}

/// Each mode is handed on as itself.
pub proof fn law_modes_handed_on(client: ClientTlsMode, backend: BackendTlsMode, auth: AuthMode)
    ensures
        client.core_mode() is Disable <==> client is Disable,
        client.core_mode() is Allow <==> client is Allow,
        client.core_mode() is Require <==> client is Require,
        client.core_mode() is VerifyClient <==> client is VerifyClient,
        backend.core_mode() is Disable <==> backend is Disable,
        backend.core_mode() is Prefer <==> backend is Prefer,
        backend.core_mode() is Require <==> backend is Require,
        backend.core_mode() is VerifyCa <==> backend is VerifyCa,
        backend.core_mode() is VerifyFull <==> backend is VerifyFull,
        auth.core_mode() is PassThrough <==> auth is PassThrough,
        auth.core_mode() is Trust <==> auth is Trust,
        auth.core_mode() is ScramSha256 <==> auth is ScramSha256,
        auth.core_mode() is Md5 <==> auth is Md5,
{
}

/// What the settings of the adaptive controller must hold: a confidence between zero and one, a
/// window, a change of 1 to 100 percent, no knob listed twice; and changes are made only where they
/// are allowed and knobs are listed.
pub proof fn law_adaptive_settings_valid(adaptive: AdaptiveConfig)
    ensures
        adaptive.adaptive_complaint() is None <==> {
            &&& adaptive.adaptive_min_confidence.bits <= 0x3ff0_0000_0000_0000
                || adaptive.adaptive_min_confidence.bits == 0x8000_0000_0000_0000
            &&& adaptive.adaptive_window_ms > 0
            &&& 1 <= adaptive.guardrail.adaptive_max_change_percent <= 100
            &&& adaptive.apply.adaptive_apply_allowlist@.no_duplicates()
            &&& adaptive.adaptive_mode is Apply ==> adaptive.apply.adaptive_apply_enabled
                && adaptive.apply.adaptive_apply_allowlist@.len() > 0
        },
{
    let knobs = adaptive.apply.adaptive_apply_allowlist@;
    crate::double::law_unit_interval_by_bits(adaptive.adaptive_min_confidence);
    if has_repeat(knobs) {
        let (i, j) = choose|i: int, j: int| 0 <= i < j < knobs.len() && knobs[i] == knobs[j];
        assert(knobs[i] == knobs[j]);
        assert(!knobs.no_duplicates());
    } else if !knobs.no_duplicates() {
        let (i, j) = choose|i: int, j: int|
            0 <= i < knobs.len() && 0 <= j < knobs.len() && i != j && knobs[i] == knobs[j];
        if i < j {
            assert(knobs[i] == knobs[j]);
        } else {
            assert(knobs[j] == knobs[i]);
        }
        assert(has_repeat(knobs));
    }
}

/// A pool may have connections, and no more idle ones than connections.
pub proof fn law_pool_bounds_valid(pool: PoolLifecycleConfig)
    ensures
        pool.lifecycle_complaint() is None <==> 0 < pool.max_size && pool.min_idle <= pool.max_size,
{
}

/// Two route maps clash exactly where they are for the same requests and neither has a priority.
pub proof fn law_maps_clash_exactly_where(a: RouteMapConfig, b: RouteMapConfig)
    ensures
        a.priority is Some || b.priority is Some ==> !maps_clash(a, b),
        maps_clash(a, b) == maps_clash(b, a),
        maps_clash(a, b) ==> match a.scope {
            ShardScopeConfig::DatabaseUser { database, user } => b.scope is DatabaseUser
                && b.scope->database@ == database@ && b.scope->user@ == user@,
            ShardScopeConfig::ApplicationName { application_name } => b.scope is ApplicationName
                && b.scope->application_name@ == application_name@,
            ShardScopeConfig::SchemaTable { schema, table } => b.scope is SchemaTable
                && b.scope->schema@ == schema@ && b.scope->table@ == table@,
            ShardScopeConfig::TenantKey { tenant_key } => b.scope is TenantKey
                && b.scope->tenant_key@ == tenant_key@,
        },
        a.scope == b.scope && a.priority is None && b.priority is None ==> maps_clash(a, b),
{
}

/// Targets are sound exactly where each shard has a name that is allowed and none comes twice.
pub proof fn law_sound_targets(targets: Seq<ShardTargetConfig>, name_errors: Seq<Option<String>>)
    requires
        name_errors.len() >= targets.len(),
    ensures
        targets_complaint(targets, name_errors) is None <==> {
            &&& forall|i: int| 0 <= i < targets.len() ==> #[trigger] name_errors[i] is None
            &&& forall|i: int, j: int|
                0 <= i < j < targets.len() ==> (#[trigger] targets[i]).shard_name() != (
                #[trigger] targets[j]).shard_name()
        },
    decreases targets.len(),
{
    if targets.len() > 0 {
        let front = targets.drop_last();
        let n = targets.len() - 1;
        law_sound_targets(front, name_errors);
        assert(forall|i: int| 0 <= i < front.len() ==> (#[trigger] front[i]) == targets[i]);
        if targets_complaint(targets, name_errors) is None {
            assert forall|i: int, j: int| 0 <= i < j < targets.len() implies (
            #[trigger] targets[i]).shard_name() != (#[trigger] targets[j]).shard_name() by {
                if j < n {
                    assert(front[i] == targets[i] && front[j] == targets[j]);
                }
            }
        } else if targets_complaint(front, name_errors) is Some {
            if forall|i: int| 0 <= i < front.len() ==> #[trigger] name_errors[i] is None {
                let (i, j) = choose|i: int, j: int|
                    0 <= i < j < front.len() && (#[trigger] front[i]).shard_name() == (
                    #[trigger] front[j]).shard_name();
                assert(targets[i].shard_name() == targets[j].shard_name());
            } else {
                let i = choose|i: int| 0 <= i < front.len() && !(#[trigger] name_errors[i] is None);
                assert(!(name_errors[i] is None));
            }
        } else if name_errors[n] is None {
            let j = choose|j: int|
                0 <= j < targets.len() - 1 && (#[trigger] targets[j]).shard_name()
                    == targets[targets.len() - 1].shard_name();
            assert(targets[j].shard_name() == targets[n].shard_name());
        }
    }
}

/// A node's name keeps what may stand in one and writes a dash for anything else; the process
/// stands behind it.
pub proof fn law_node_name_of_host(host: Seq<char>, process: u32, i: int)
    requires
        0 <= i < host.len(),
    ensures
        node_name(host, process) == node_name(host, process).take(host.len() as int) + "-"@
            + decimal(process as nat),
        'a' <= host[i] <= 'z' || 'A' <= host[i] <= 'Z' || '0' <= host[i] <= '9' || host[i] == '-'
            || host[i] == '_' || host[i] == '.' ==> node_name(host, process)[i] == host[i],
        !('a' <= host[i] <= 'z' || 'A' <= host[i] <= 'Z' || '0' <= host[i] <= '9' || host[i] == '-'
            || host[i] == '_' || host[i] == '.') ==> node_name(host, process)[i] == '-',
{
    reveal_strlit("-");
    assert(node_name(host, process) =~= node_name(host, process).take(host.len() as int) + "-"@
        + decimal(process as nat));
}

/// Without routes every request goes to the one server that is set, with no replica; otherwise the
/// routes are those that are set, in their order.
pub proof fn law_routes_in_force(config: Config, routes: Seq<RouteConfig>, i: int)
    requires
        config.routes_in_force(routes),
        0 <= i < routes.len(),
    ensures
        config.routes@.len() == 0 ==> routes.len() == 1 && routes[0].primary.address
            == config.connection.backend_addr && routes[0].replicas@.len() == 0,
        config.routes@.len() > 0 ==> routes.len() == config.routes@.len()
            && routes[i].primary.address == config.routes@[i].primary.address
            && routes[i].replicas@ == config.routes@[i].replicas@,
{
    if config.routes@.len() > 0 {
        assert(routes[i].same(config.routes@[i]));
    }
}

} // verus!
