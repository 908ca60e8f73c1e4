//! The stages of the process.
use vstd::prelude::*;

verus! {

/// How far the process has come.
#[derive(Clone, Copy, Debug, PartialEq, Eq, Structural)]
pub enum RuntimeLifecycleState {
    Starting,
    Ready,
    Draining,
    Stopping,
    Stopped,
}

impl RuntimeLifecycleState {
    /// The name under which the value is written.
    pub open spec fn name(self) -> Seq<char> {
        match self {
            RuntimeLifecycleState::Starting => "starting"@,
            RuntimeLifecycleState::Ready => "ready"@,
            RuntimeLifecycleState::Draining => "draining"@,
            RuntimeLifecycleState::Stopping => "stopping"@,
            RuntimeLifecycleState::Stopped => "stopped"@,
        }
    }

    /// The name under which the value is written.
    pub fn as_str(self) -> (r: &'static str)
        ensures
            r@ == self.name(),
    {
        match self {
            RuntimeLifecycleState::Starting => "starting",
            RuntimeLifecycleState::Ready => "ready",
            RuntimeLifecycleState::Draining => "draining",
            RuntimeLifecycleState::Stopping => "stopping",
            RuntimeLifecycleState::Stopped => "stopped",
        }
    }

    /// What each value is written as.
    pub proof fn law_written_as(self)
        ensures
            self is Starting ==> self.name() == "starting"@,
            self is Ready ==> self.name() == "ready"@,
            self is Draining ==> self.name() == "draining"@,
            self is Stopping ==> self.name() == "stopping"@,
            self is Stopped ==> self.name() == "stopped"@,
    {
    }

    /// No two values have the same name.
    pub proof fn law_names_differ(a: RuntimeLifecycleState, b: RuntimeLifecycleState)
        requires
            a.name() == b.name(),
        ensures
            a == b,
    {
        reveal_strlit("starting");
        reveal_strlit("ready");
        reveal_strlit("draining");
        reveal_strlit("stopping");
        reveal_strlit("stopped");
        assert("starting"@.len() == 8 && "starting"@[0] == 's' && "starting"@[2] == 'a');
        assert("ready"@.len() == 5 && "ready"@[0] == 'r' && "ready"@[2] == 'a');
        assert("draining"@.len() == 8 && "draining"@[0] == 'd' && "draining"@[2] == 'a');
        assert("stopping"@.len() == 8 && "stopping"@[0] == 's' && "stopping"@[2] == 'o');
        assert("stopped"@.len() == 7 && "stopped"@[0] == 's' && "stopped"@[2] == 'o');
    }
}

/// Whether the process can be sent clients.
#[derive(Clone, Copy, Debug, PartialEq, Eq, Structural)]
pub enum ReadinessState {
    Ready,
    NotReady,
    Draining,
}

impl ReadinessState {
    /// The name under which the value is written.
    pub open spec fn name(self) -> Seq<char> {
        match self {
            ReadinessState::Ready => "ready"@,
            ReadinessState::NotReady => "not_ready"@,
            ReadinessState::Draining => "draining"@,
        }
    }

    /// The name under which the value is written.
    pub fn as_str(self) -> (r: &'static str)
        ensures
            r@ == self.name(),
    {
        match self {
            ReadinessState::Ready => "ready",
            ReadinessState::NotReady => "not_ready",
            ReadinessState::Draining => "draining",
        }
    }

    /// What each value is written as.
    pub proof fn law_written_as(self)
        ensures
            self is Ready ==> self.name() == "ready"@,
            self is NotReady ==> self.name() == "not_ready"@,
            self is Draining ==> self.name() == "draining"@,
    {
    }

    /// No two values have the same name.
    pub proof fn law_names_differ(a: ReadinessState, b: ReadinessState)
        requires
            a.name() == b.name(),
        ensures
            a == b,
    {
        reveal_strlit("ready");
        reveal_strlit("not_ready");
        reveal_strlit("draining");
        assert("ready"@.len() == 5);
        assert("not_ready"@.len() == 9);
        assert("draining"@.len() == 8);
    }
}

/// Why the process stops.
#[derive(Clone, Copy, Debug, PartialEq, Eq, Structural)]
pub enum ShutdownReason {
    Signal,
    StartupFailure,
}

impl ShutdownReason {
    /// The name under which the value is written.
    pub open spec fn name(self) -> Seq<char> {
        match self {
            ShutdownReason::Signal => "signal"@,
            ShutdownReason::StartupFailure => "startup_failure"@,
        }
    }

    /// The name under which the value is written.
    pub fn as_str(self) -> (r: &'static str)
        ensures
            r@ == self.name(),
    {
        match self {
            ShutdownReason::Signal => "signal",
            ShutdownReason::StartupFailure => "startup_failure",
        }
    }

    /// What each value is written as.
    pub proof fn law_written_as(self)
        ensures
            self is Signal ==> self.name() == "signal"@,
            self is StartupFailure ==> self.name() == "startup_failure"@,
    {
    }

    /// No two values have the same name.
    pub proof fn law_names_differ(a: ShutdownReason, b: ShutdownReason)
        requires
            a.name() == b.name(),
        ensures
            a == b,
    {
        reveal_strlit("signal");
        reveal_strlit("startup_failure");
        assert("signal"@.len() == 6);
        assert("startup_failure"@.len() == 15);
    }
}

} // verus!
