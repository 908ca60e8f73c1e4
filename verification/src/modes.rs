//! The named modes of the proxy: what routes, pools, policies, mirroring and the runtime can be
//! set to.
use vstd::prelude::*;

use crate::text::{join3, same_text};

verus! {

/// What happens to a server connection that a client left in the middle of something.
#[derive(Clone, Copy, Debug, PartialEq, Eq, Structural)]
pub enum RecoveryMode {
    Recover,
    RollbackOnly,
    Drop,
}

impl RecoveryMode {
    /// The name under which the value is written.
    pub open spec fn name(self) -> Seq<char> {
        match self {
            RecoveryMode::Recover => "recover"@,
            RecoveryMode::RollbackOnly => "rollback_only"@,
            RecoveryMode::Drop => "drop"@,
        }
    }

    /// The name under which the value is written.
    pub fn as_str(self) -> (r: &'static str)
        ensures
            r@ == self.name(),
    {
        match self {
            RecoveryMode::Recover => "recover",
            RecoveryMode::RollbackOnly => "rollback_only",
            RecoveryMode::Drop => "drop",
        }
    }

    /// What each value is written as.
    pub proof fn law_written_as(self)
        ensures
            self is Recover ==> self.name() == "recover"@,
            self is RollbackOnly ==> self.name() == "rollback_only"@,
            self is Drop ==> self.name() == "drop"@,
    {
    }

    /// No two values have the same name.
    pub proof fn law_names_differ(a: RecoveryMode, b: RecoveryMode)
        requires
            a.name() == b.name(),
        ensures
            a == b,
    {
        reveal_strlit("recover");
        reveal_strlit("rollback_only");
        reveal_strlit("drop");
        assert("recover"@.len() == 7);
        assert("rollback_only"@.len() == 13);
        assert("drop"@.len() == 4);
    }
}

/// Reads the value that a name stands for.
pub fn parse_recovery_mode(value: &str) -> (r: Result<RecoveryMode, String>)
    ensures
        match r {
            Ok(parsed) => value@ == parsed.name(),
            Err(message) => (forall|other: RecoveryMode| value@ != #[trigger] other.name()) && message@
                == "invalid recovery mode '"@ + value@ + "'"@,
        },
{
    if same_text(value, "recover") {
        Ok(RecoveryMode::Recover)
    } else if same_text(value, "rollback_only") {
        Ok(RecoveryMode::RollbackOnly)
    } else if same_text(value, "drop") {
        Ok(RecoveryMode::Drop)
    } else {
        Err(join3("invalid recovery mode '", value, "'"))
    }
}

/// Where reads may go.
#[derive(Clone, Copy, Debug, PartialEq, Eq, Structural)]
pub enum ReadRoutingMode {
    Off,
    PreferReplica,
    RequireReplica,
    PrimaryOnly,
}

impl ReadRoutingMode {
    /// The name under which the value is written.
    pub open spec fn name(self) -> Seq<char> {
        match self {
            ReadRoutingMode::Off => "off"@,
            ReadRoutingMode::PreferReplica => "prefer_replica"@,
            ReadRoutingMode::RequireReplica => "require_replica"@,
            ReadRoutingMode::PrimaryOnly => "primary_only"@,
        }
    }

    /// The name under which the value is written.
    pub fn as_str(self) -> (r: &'static str)
        ensures
            r@ == self.name(),
    {
        match self {
            ReadRoutingMode::Off => "off",
            ReadRoutingMode::PreferReplica => "prefer_replica",
            ReadRoutingMode::RequireReplica => "require_replica",
            ReadRoutingMode::PrimaryOnly => "primary_only",
        }
    }

    /// What each value is written as.
    pub proof fn law_written_as(self)
        ensures
            self is Off ==> self.name() == "off"@,
            self is PreferReplica ==> self.name() == "prefer_replica"@,
            self is RequireReplica ==> self.name() == "require_replica"@,
            self is PrimaryOnly ==> self.name() == "primary_only"@,
    {
    }

    /// No two values have the same name.
    pub proof fn law_names_differ(a: ReadRoutingMode, b: ReadRoutingMode)
        requires
            a.name() == b.name(),
        ensures
            a == b,
    {
        reveal_strlit("off");
        reveal_strlit("prefer_replica");
        reveal_strlit("require_replica");
        reveal_strlit("primary_only");
        assert("off"@.len() == 3);
        assert("prefer_replica"@.len() == 14);
        assert("require_replica"@.len() == 15);
        assert("primary_only"@.len() == 12);
    }
}

/// Reads the value that a name stands for.
pub fn parse_read_routing_mode(value: &str) -> (r: Result<ReadRoutingMode, String>)
    ensures
        match r {
            Ok(parsed) => value@ == parsed.name(),
            Err(message) => (forall|other: ReadRoutingMode| value@ != #[trigger] other.name()) && message@
                == "invalid read routing mode '"@ + value@ + "'"@,
        },
{
    if same_text(value, "off") {
        Ok(ReadRoutingMode::Off)
    } else if same_text(value, "prefer_replica") {
        Ok(ReadRoutingMode::PreferReplica)
    } else if same_text(value, "require_replica") {
        Ok(ReadRoutingMode::RequireReplica)
    } else if same_text(value, "primary_only") {
        Ok(ReadRoutingMode::PrimaryOnly)
    } else {
        Err(join3("invalid read routing mode '", value, "'"))
    }
}

/// What happens to a read that no replica can serve.
#[derive(Clone, Copy, Debug, PartialEq, Eq, Structural)]
pub enum FallbackPolicy {
    Primary,
    Reject,
    Wait,
}

impl FallbackPolicy {
    /// The name under which the value is written.
    pub open spec fn name(self) -> Seq<char> {
        match self {
            FallbackPolicy::Primary => "primary"@,
            FallbackPolicy::Reject => "reject"@,
            FallbackPolicy::Wait => "wait"@,
        }
    }

    /// The name under which the value is written.
    pub fn as_str(self) -> (r: &'static str)
        ensures
            r@ == self.name(),
    {
        match self {
            FallbackPolicy::Primary => "primary",
            FallbackPolicy::Reject => "reject",
            FallbackPolicy::Wait => "wait",
        }
    }

    /// What each value is written as.
    pub proof fn law_written_as(self)
        ensures
            self is Primary ==> self.name() == "primary"@,
            self is Reject ==> self.name() == "reject"@,
            self is Wait ==> self.name() == "wait"@,
    {
    }

    /// No two values have the same name.
    pub proof fn law_names_differ(a: FallbackPolicy, b: FallbackPolicy)
        requires
            a.name() == b.name(),
        ensures
            a == b,
    {
        reveal_strlit("primary");
        reveal_strlit("reject");
        reveal_strlit("wait");
        assert("primary"@.len() == 7);
        assert("reject"@.len() == 6);
        assert("wait"@.len() == 4);
    }
}

/// Reads the value that a name stands for.
pub fn parse_fallback_policy(value: &str) -> (r: Result<FallbackPolicy, String>)
    ensures
        match r {
            Ok(parsed) => value@ == parsed.name(),
            Err(message) => (forall|other: FallbackPolicy| value@ != #[trigger] other.name()) && message@
                == "invalid fallback policy '"@ + value@ + "'"@,
        },
{
    if same_text(value, "primary") {
        Ok(FallbackPolicy::Primary)
    } else if same_text(value, "reject") {
        Ok(FallbackPolicy::Reject)
    } else if same_text(value, "wait") {
        Ok(FallbackPolicy::Wait)
    } else {
        Err(join3("invalid fallback policy '", value, "'"))
    }
}

/// How fresh a replica must be.
#[derive(Clone, Copy, Debug, PartialEq, Eq, Structural)]
pub enum FreshnessPolicy {
    Unconstrained,
    SessionWriteLsn,
    MaxReplicaLag,
    SessionWriteLsnAndMaxLag,
}

impl FreshnessPolicy {
    /// The name under which the value is written.
    pub open spec fn name(self) -> Seq<char> {
        match self {
            FreshnessPolicy::Unconstrained => "none"@,
            FreshnessPolicy::SessionWriteLsn => "session_write_lsn"@,
            FreshnessPolicy::MaxReplicaLag => "max_replica_lag"@,
            FreshnessPolicy::SessionWriteLsnAndMaxLag => "session_write_lsn_and_max_lag"@,
        }
    }

    /// The name under which the value is written.
    pub fn as_str(self) -> (r: &'static str)
        ensures
            r@ == self.name(),
    {
        match self {
            FreshnessPolicy::Unconstrained => "none",
            FreshnessPolicy::SessionWriteLsn => "session_write_lsn",
            FreshnessPolicy::MaxReplicaLag => "max_replica_lag",
            FreshnessPolicy::SessionWriteLsnAndMaxLag => "session_write_lsn_and_max_lag",
        }
    }

    /// What each value is written as.
    pub proof fn law_written_as(self)
        ensures
            self is Unconstrained ==> self.name() == "none"@,
            self is SessionWriteLsn ==> self.name() == "session_write_lsn"@,
            self is MaxReplicaLag ==> self.name() == "max_replica_lag"@,
            self is SessionWriteLsnAndMaxLag ==> self.name() == "session_write_lsn_and_max_lag"@,
    {
    }

    /// No two values have the same name.
    pub proof fn law_names_differ(a: FreshnessPolicy, b: FreshnessPolicy)
        requires
            a.name() == b.name(),
        ensures
            a == b,
    {
        reveal_strlit("none");
        reveal_strlit("session_write_lsn");
        reveal_strlit("max_replica_lag");
        reveal_strlit("session_write_lsn_and_max_lag");
        assert("none"@.len() == 4);
        assert("session_write_lsn"@.len() == 17);
        assert("max_replica_lag"@.len() == 15);
        assert("session_write_lsn_and_max_lag"@.len() == 29);
    }
}

/// Reads the value that a name stands for.
pub fn parse_freshness_policy(value: &str) -> (r: Result<FreshnessPolicy, String>)
    ensures
        match r {
            Ok(parsed) => value@ == parsed.name(),
            Err(message) => (forall|other: FreshnessPolicy| value@ != #[trigger] other.name()) && message@
                == "invalid freshness policy '"@ + value@ + "'"@,
        },
{
    if same_text(value, "none") {
        Ok(FreshnessPolicy::Unconstrained)
    } else if same_text(value, "session_write_lsn") {
        Ok(FreshnessPolicy::SessionWriteLsn)
    } else if same_text(value, "max_replica_lag") {
        Ok(FreshnessPolicy::MaxReplicaLag)
    } else if same_text(value, "session_write_lsn_and_max_lag") {
        Ok(FreshnessPolicy::SessionWriteLsnAndMaxLag)
    } else {
        Err(join3("invalid freshness policy '", value, "'"))
    }
}

/// Whether policies are evaluated, and whether they bind.
#[derive(Clone, Copy, Debug, PartialEq, Eq, Structural)]
pub enum PolicyMode {
    Disabled,
    Enforce,
    DryRun,
}

impl PolicyMode {
    /// The name under which the value is written.
    pub open spec fn name(self) -> Seq<char> {
        match self {
            PolicyMode::Disabled => "disabled"@,
            PolicyMode::Enforce => "enforce"@,
            PolicyMode::DryRun => "dry_run"@,
        }
    }

    /// The name under which the value is written.
    pub fn as_str(self) -> (r: &'static str)
        ensures
            r@ == self.name(),
    {
        match self {
            PolicyMode::Disabled => "disabled",
            PolicyMode::Enforce => "enforce",
            PolicyMode::DryRun => "dry_run",
        }
    }

    /// What each value is written as.
    pub proof fn law_written_as(self)
        ensures
            self is Disabled ==> self.name() == "disabled"@,
            self is Enforce ==> self.name() == "enforce"@,
            self is DryRun ==> self.name() == "dry_run"@,
    {
    }

    /// No two values have the same name.
    pub proof fn law_names_differ(a: PolicyMode, b: PolicyMode)
        requires
            a.name() == b.name(),
        ensures
            a == b,
    {
        reveal_strlit("disabled");
        reveal_strlit("enforce");
        reveal_strlit("dry_run");
        assert("disabled"@.len() == 8 && "disabled"@[0] == 'd');
        assert("enforce"@.len() == 7 && "enforce"@[0] == 'e');
        assert("dry_run"@.len() == 7 && "dry_run"@[0] == 'd');
    }
}

/// Reads the value that a name stands for.
pub fn parse_policy_mode(value: &str) -> (r: Result<PolicyMode, String>)
    ensures
        match r {
            Ok(parsed) => value@ == parsed.name(),
            Err(message) => (forall|other: PolicyMode| value@ != #[trigger] other.name()) && message@
                == "invalid policy mode '"@ + value@ + "'"@,
        },
{
    if same_text(value, "disabled") {
        Ok(PolicyMode::Disabled)
    } else if same_text(value, "enforce") {
        Ok(PolicyMode::Enforce)
    } else if same_text(value, "dry_run") {
        Ok(PolicyMode::DryRun)
    } else {
        Err(join3("invalid policy mode '", value, "'"))
    }
}

/// Where in a request a policy is evaluated.
#[derive(Clone, Copy, Debug, PartialEq, Eq, Structural)]
pub enum PolicyHookPoint {
    BeforeRouting,
    AfterRouting,
    BeforeCheckout,
}

impl PolicyHookPoint {
    /// The name under which the value is written.
    pub open spec fn name(self) -> Seq<char> {
        match self {
            PolicyHookPoint::BeforeRouting => "before_routing"@,
            PolicyHookPoint::AfterRouting => "after_routing"@,
            PolicyHookPoint::BeforeCheckout => "before_checkout"@,
        }
    }

    /// The name under which the value is written.
    pub fn as_str(self) -> (r: &'static str)
        ensures
            r@ == self.name(),
    {
        match self {
            PolicyHookPoint::BeforeRouting => "before_routing",
            PolicyHookPoint::AfterRouting => "after_routing",
            PolicyHookPoint::BeforeCheckout => "before_checkout",
        }
    }

    /// What each value is written as.
    pub proof fn law_written_as(self)
        ensures
            self is BeforeRouting ==> self.name() == "before_routing"@,
            self is AfterRouting ==> self.name() == "after_routing"@,
            self is BeforeCheckout ==> self.name() == "before_checkout"@,
    {
    }

    /// No two values have the same name.
    pub proof fn law_names_differ(a: PolicyHookPoint, b: PolicyHookPoint)
        requires
            a.name() == b.name(),
        ensures
            a == b,
    {
        reveal_strlit("before_routing");
        reveal_strlit("after_routing");
        reveal_strlit("before_checkout");
        assert("before_routing"@.len() == 14);
        assert("after_routing"@.len() == 13);
        assert("before_checkout"@.len() == 15);
    }
}

/// Reads the value that a name stands for.
pub fn parse_policy_hook_point(value: &str) -> (r: Result<PolicyHookPoint, String>)
    ensures
        match r {
            Ok(parsed) => value@ == parsed.name(),
            Err(message) => (forall|other: PolicyHookPoint| value@ != #[trigger] other.name()) && message@
                == "invalid policy hook point '"@ + value@ + "'"@,
        },
{
    if same_text(value, "before_routing") {
        Ok(PolicyHookPoint::BeforeRouting)
    } else if same_text(value, "after_routing") {
        Ok(PolicyHookPoint::AfterRouting)
    } else if same_text(value, "before_checkout") {
        Ok(PolicyHookPoint::BeforeCheckout)
    } else {
        Err(join3("invalid policy hook point '", value, "'"))
    }
}

/// Which traffic is mirrored.
#[derive(Clone, Copy, Debug, PartialEq, Eq, Structural)]
pub enum MirrorMode {
    Off,
    ReadOnly,
    Explicit,
}

impl MirrorMode {
    /// The name under which the value is written.
    pub open spec fn name(self) -> Seq<char> {
        match self {
            MirrorMode::Off => "off"@,
            MirrorMode::ReadOnly => "read_only"@,
            MirrorMode::Explicit => "explicit"@,
        }
    }

    /// The name under which the value is written.
    pub fn as_str(self) -> (r: &'static str)
        ensures
            r@ == self.name(),
    {
        match self {
            MirrorMode::Off => "off",
            MirrorMode::ReadOnly => "read_only",
            MirrorMode::Explicit => "explicit",
        }
    }

    /// What each value is written as.
    pub proof fn law_written_as(self)
        ensures
            self is Off ==> self.name() == "off"@,
            self is ReadOnly ==> self.name() == "read_only"@,
            self is Explicit ==> self.name() == "explicit"@,
    {
    }

    /// No two values have the same name.
    pub proof fn law_names_differ(a: MirrorMode, b: MirrorMode)
        requires
            a.name() == b.name(),
        ensures
            a == b,
    {
        reveal_strlit("off");
        reveal_strlit("read_only");
        reveal_strlit("explicit");
        assert("off"@.len() == 3);
        assert("read_only"@.len() == 9);
        assert("explicit"@.len() == 8);
    }
}

/// Reads the value that a name stands for.
pub fn parse_mirror_mode(value: &str) -> (r: Result<MirrorMode, String>)
    ensures
        match r {
            Ok(parsed) => value@ == parsed.name(),
            Err(message) => (forall|other: MirrorMode| value@ != #[trigger] other.name()) && message@
                == "invalid mirror mode '"@ + value@ + "'"@,
        },
{
    if same_text(value, "off") {
        Ok(MirrorMode::Off)
    } else if same_text(value, "read_only") {
        Ok(MirrorMode::ReadOnly)
    } else if same_text(value, "explicit") {
        Ok(MirrorMode::Explicit)
    } else {
        Err(join3("invalid mirror mode '", value, "'"))
    }
}

/// Which runtime drives the proxy.
#[derive(Clone, Copy, Debug, PartialEq, Eq, Structural)]
pub enum RuntimeEngine {
    TokioDefault,
    TokioCurrentThread,
    ThreadPerCore,
    ExperimentalIoUring,
}

impl RuntimeEngine {
    /// The name under which the value is written.
    pub open spec fn name(self) -> Seq<char> {
        match self {
            RuntimeEngine::TokioDefault => "tokio_default"@,
            RuntimeEngine::TokioCurrentThread => "tokio_current_thread"@,
            RuntimeEngine::ThreadPerCore => "thread_per_core"@,
            RuntimeEngine::ExperimentalIoUring => "experimental_io_uring"@,
        }
    }

    /// The name under which the value is written.
    pub fn as_str(self) -> (r: &'static str)
        ensures
            r@ == self.name(),
    {
        match self {
            RuntimeEngine::TokioDefault => "tokio_default",
            RuntimeEngine::TokioCurrentThread => "tokio_current_thread",
            RuntimeEngine::ThreadPerCore => "thread_per_core",
            RuntimeEngine::ExperimentalIoUring => "experimental_io_uring",
        }
    }

    /// What each value is written as.
    pub proof fn law_written_as(self)
        ensures
            self is TokioDefault ==> self.name() == "tokio_default"@,
            self is TokioCurrentThread ==> self.name() == "tokio_current_thread"@,
            self is ThreadPerCore ==> self.name() == "thread_per_core"@,
            self is ExperimentalIoUring ==> self.name() == "experimental_io_uring"@,
    {
    }

    /// No two values have the same name.
    pub proof fn law_names_differ(a: RuntimeEngine, b: RuntimeEngine)
        requires
            a.name() == b.name(),
        ensures
            a == b,
    {
        reveal_strlit("tokio_default");
        reveal_strlit("tokio_current_thread");
        reveal_strlit("thread_per_core");
        reveal_strlit("experimental_io_uring");
        assert("tokio_default"@.len() == 13);
        assert("tokio_current_thread"@.len() == 20);
        assert("thread_per_core"@.len() == 15);
        assert("experimental_io_uring"@.len() == 21);
    }
}

/// Reads the value that a name stands for.
pub fn parse_runtime_engine(value: &str) -> (r: Result<RuntimeEngine, String>)
    ensures
        match r {
            Ok(parsed) => value@ == parsed.name(),
            Err(message) => (forall|other: RuntimeEngine| value@ != #[trigger] other.name()) && message@
                == "unsupported runtime engine '"@ + value@ + "', expected one of: tokio_default, tokio_current_thread, thread_per_core, experimental_io_uring"@,
        },
{
    if same_text(value, "tokio_default") {
        Ok(RuntimeEngine::TokioDefault)
    } else if same_text(value, "tokio_current_thread") {
        Ok(RuntimeEngine::TokioCurrentThread)
    } else if same_text(value, "thread_per_core") {
        Ok(RuntimeEngine::ThreadPerCore)
    } else if same_text(value, "experimental_io_uring") {
        Ok(RuntimeEngine::ExperimentalIoUring)
    } else {
        Err(join3("unsupported runtime engine '", value, "', expected one of: tokio_default, tokio_current_thread, thread_per_core, experimental_io_uring"))
    }
}

impl RuntimeEngine {
    /// Whether the engine is still an experiment.
    pub open spec fn experimental(self) -> bool {
        self == RuntimeEngine::ExperimentalIoUring
    }

    /// Whether the engine is still an experiment.
    pub fn is_experimental(self) -> (r: bool)
        ensures
            r == self.experimental(),
    {
        self == RuntimeEngine::ExperimentalIoUring
    }
}

impl MirrorMode {
    /// Whether anything is mirrored.
    pub open spec fn enabled(self) -> bool {
        self != MirrorMode::Off
    }

    /// Whether anything is mirrored.
    pub fn is_enabled(self) -> (r: bool)
        ensures
            r == self.enabled(),
    {
        self != MirrorMode::Off
    }
}

/// Whether the controller recommends changes only, or also makes them.
#[derive(Clone, Copy, Debug, PartialEq, Eq, Structural)]
pub enum AdaptiveMode {
    Recommend,
    Apply,
}

impl AdaptiveMode {
    /// The name under which the value is written.
    pub open spec fn name(self) -> Seq<char> {
        match self {
            AdaptiveMode::Recommend => "recommend"@,
            AdaptiveMode::Apply => "apply"@,
        }
    }

    /// The name under which the value is written.
    pub fn as_str(self) -> (r: &'static str)
        ensures
            r@ == self.name(),
    {
        match self {
            AdaptiveMode::Recommend => "recommend",
            AdaptiveMode::Apply => "apply",
        }
    }

    /// What each value is written as.
    pub proof fn law_written_as(self)
        ensures
            self is Recommend ==> self.name() == "recommend"@,
            self is Apply ==> self.name() == "apply"@,
    {
    }

    /// No two values have the same name.
    pub proof fn law_names_differ(a: AdaptiveMode, b: AdaptiveMode)
        requires
            a.name() == b.name(),
        ensures
            a == b,
    {
        reveal_strlit("recommend");
        reveal_strlit("apply");
        assert("recommend"@.len() == 9);
        assert("apply"@.len() == 5);
    }

    /// Whether changes are made.
    pub fn is_apply(self) -> (r: bool)
        ensures
            r == (self == AdaptiveMode::Apply),
    {
        self == AdaptiveMode::Apply
    }
}

/// Reads the value that a name stands for.
pub fn parse_adaptive_mode(value: &str) -> (r: Result<AdaptiveMode, String>)
    ensures
        match r {
            Ok(parsed) => value@ == parsed.name(),
            Err(message) => (forall|other: AdaptiveMode| value@ != #[trigger] other.name()) && message@
                == "unsupported adaptive mode '"@ + value@ + "'"@,
        },
{
    if same_text(value, "recommend") {
        Ok(AdaptiveMode::Recommend)
    } else if same_text(value, "apply") {
        Ok(AdaptiveMode::Apply)
    } else {
        Err(join3("unsupported adaptive mode '", value, "'"))
    }
}

} // verus!
