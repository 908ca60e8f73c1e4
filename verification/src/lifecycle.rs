//! The life of the process: from starting, through serving and winding down, to its end.
use vstd::prelude::*;

use crate::clock::Duration;
use crate::drain::{
    begun, entered, finished, left, DrainClientGuard, DrainController, DrainOutcome, DrainProgress,
};
use crate::runtime::{ReadinessState, RuntimeLifecycleState, ShutdownReason};
use crate::security::DrainState;

verus! {

/// What is known of the process at one moment.
#[derive(Clone, Copy, Debug, PartialEq, Eq, Structural)]
pub struct LifecycleState {
    lifecycle: RuntimeLifecycleState,
    readiness: ReadinessState,
    listeners_initialized: bool,
    backend_pools_initialized: bool,
    active_sessions: usize,
    shutdown_reason: Option<ShutdownReason>,
    transition_count: u64,
    force_close_requested: bool,
}

/// What is known of the process, as plain values.
pub struct LifeFacts {
    pub lifecycle: RuntimeLifecycleState,
    pub readiness: ReadinessState,
    pub listeners: bool,
    pub pools: bool,
    pub sessions: int,
    pub reason: Option<ShutdownReason>,
    pub transitions: int,
    pub force_close: bool,
}

impl View for LifecycleState {
    type V = LifeFacts;

    closed spec fn view(&self) -> LifeFacts {
        LifeFacts {
            lifecycle: self.lifecycle,
            readiness: self.readiness,
            listeners: self.listeners_initialized,
            pools: self.backend_pools_initialized,
            sessions: self.active_sessions as int,
            reason: self.shutdown_reason,
            transitions: self.transition_count as int,
            force_close: self.force_close_requested,
        }
    }
}

impl LifecycleState {
    /// How far the process has come.
    pub fn lifecycle(&self) -> (r: RuntimeLifecycleState)
        ensures
            r == self@.lifecycle,
    {
        self.lifecycle
    }

    /// Whether the process can be sent clients.
    pub fn readiness(&self) -> (r: ReadinessState)
        ensures
            r == self@.readiness,
    {
        self.readiness
    }

    /// Whether the listeners are up.
    pub fn listeners_initialized(&self) -> (r: bool)
        ensures
            r == self@.listeners,
    {
        self.listeners_initialized
    }

    /// Whether the pools are up.
    pub fn backend_pools_initialized(&self) -> (r: bool)
        ensures
            r == self@.pools,
    {
        self.backend_pools_initialized
    }

    /// How many clients are served.
    pub fn active_sessions(&self) -> (r: usize)
        ensures
            r == self@.sessions,
    {
        self.active_sessions
    }

    /// Why the process stops, once it is to stop.
    pub fn shutdown_reason(&self) -> (r: Option<ShutdownReason>)
        ensures
            r == self@.reason,
    {
        self.shutdown_reason
    }

    /// How many steps the process has made.
    pub fn transition_count(&self) -> (r: u64)
        ensures
            r == self@.transitions,
    {
        self.transition_count
    }

    /// Whether the clients that are still served are to be cut off.
    pub fn force_close_requested(&self) -> (r: bool)
        ensures
            r == self@.force_close,
    {
        self.force_close_requested
    }
}

/// Decides whether the process can be sent clients.
#[derive(Debug)]
pub struct ReadinessGate {
    readiness_fail_during_drain: bool,
}

impl View for ReadinessGate {
    type V = bool;

    /// Whether winding down counts as not ready.
    closed spec fn view(&self) -> bool {
        self.readiness_fail_during_drain
    }
}

/// Whether a process can be sent clients: it is ready once it serves and both its listeners and
/// its pools are up; while it winds down it says so, unless that is to count as not ready.
pub open spec fn readiness_of(
    fail_during_drain: bool,
    lifecycle: RuntimeLifecycleState,
    listeners: bool,
    pools: bool,
) -> ReadinessState {
    if lifecycle == RuntimeLifecycleState::Ready && listeners && pools {
        ReadinessState::Ready
    } else if lifecycle == RuntimeLifecycleState::Draining && !fail_during_drain {
        ReadinessState::Draining
    } else {
        ReadinessState::NotReady
    }
}

impl ReadinessGate {
    /// A gate that says whether winding down counts as not ready.
    pub fn new(readiness_fail_during_drain: bool) -> (r: ReadinessGate)
        ensures
            r@ == readiness_fail_during_drain,
    {
        ReadinessGate { readiness_fail_during_drain }
    }

    /// Sets whether winding down counts as not ready.
    pub fn configure(&mut self, readiness_fail_during_drain: bool)
        ensures
            final(self)@ == readiness_fail_during_drain,
    {
        self.readiness_fail_during_drain = readiness_fail_during_drain;
    }

    /// Decides whether the process can be sent clients.
    pub fn evaluate(
        &self,
        lifecycle: RuntimeLifecycleState,
        listeners_initialized: bool,
        backend_pools_initialized: bool,
    ) -> (r: ReadinessState)
        ensures
            r == readiness_of(self@, lifecycle, listeners_initialized, backend_pools_initialized),
    {
        match lifecycle {
            RuntimeLifecycleState::Ready => {
                if listeners_initialized && backend_pools_initialized {
                    ReadinessState::Ready
                } else {
                    ReadinessState::NotReady
                }
            },
            RuntimeLifecycleState::Draining => {
                if !self.readiness_fail_during_drain {
                    ReadinessState::Draining
                } else {
                    ReadinessState::NotReady
                }
            },
            _ => ReadinessState::NotReady,
        }
    }
}

/// The life of the process, with the clients that it serves.
#[derive(Debug)]
pub struct LifecycleController {
    state: LifecycleState,
    gate: ReadinessGate,
    drain: DrainController,
    drain_grace: Duration,
    shutdown_grace: Duration,
}

/// The life of the process as plain values.
pub struct ControllerFacts {
    pub life: LifeFacts,
    pub fail_during_drain: bool,
    pub drain: DrainProgress,
    pub drain_grace: nat,
    pub shutdown_grace: nat,
}

impl View for LifecycleController {
    type V = ControllerFacts;

    /// The life of the process, with the number of clients that are served now.
    closed spec fn view(&self) -> ControllerFacts {
        ControllerFacts {
            life: LifeFacts { sessions: self.drain@.clients, ..self.state@ },
            fail_during_drain: self.gate@,
            drain: self.drain@,
            drain_grace: self.drain_grace@,
            shutdown_grace: self.shutdown_grace@,
        }
    }
}

/// A step of the process: one more is counted, as far as they can be.
pub open spec fn stepped(life: LifeFacts, to: RuntimeLifecycleState) -> LifeFacts {
    LifeFacts {
        lifecycle: to,
        transitions: if life.transitions < u64::MAX {
            life.transitions + 1
        } else {
            life.transitions
        },
        ..life
    }
}

/// The life of the process after a change, with its readiness decided anew.
pub open spec fn settled(facts: ControllerFacts, life: LifeFacts) -> ControllerFacts {
    ControllerFacts {
        life: LifeFacts {
            readiness: readiness_of(
                facts.fail_during_drain,
                life.lifecycle,
                life.listeners,
                life.pools,
            ),
            sessions: facts.drain.clients,
            ..life
        },
        ..facts
    }
}

/// The process becomes ready once it has started and both its listeners and its pools are up.
pub open spec fn after_maybe_ready(facts: ControllerFacts) -> ControllerFacts {
    settled(
        facts,
        if facts.life.lifecycle == RuntimeLifecycleState::Starting && facts.life.listeners
            && facts.life.pools {
            stepped(facts.life, RuntimeLifecycleState::Ready)
        } else {
            facts.life
        },
    )
}

/// The process once its listeners are up.
pub open spec fn after_listeners(facts: ControllerFacts) -> ControllerFacts {
    after_maybe_ready(settled(facts, LifeFacts { listeners: true, ..facts.life }))
}

/// The process once its pools are up.
pub open spec fn after_pools(facts: ControllerFacts) -> ControllerFacts {
    after_maybe_ready(settled(facts, LifeFacts { pools: true, ..facts.life }))
}

/// The process after it was told to wind down: a process that serves begins to, and the first
/// reason is kept.
pub open spec fn after_begin_drain(
    facts: ControllerFacts,
    reason: ShutdownReason,
    now: nat,
) -> ControllerFacts {
    let moved = if facts.life.lifecycle == RuntimeLifecycleState::Ready {
        stepped(facts.life, RuntimeLifecycleState::Draining)
    } else {
        facts.life
    };
    let told = LifeFacts {
        reason: if moved.reason is None {
            Some(reason)
        } else {
            moved.reason
        },
        ..moved
    };
    settled(
        ControllerFacts { drain: begun(facts.drain, facts.drain_grace, now), ..facts },
        told,
    )
}

/// The process once it stops.
pub open spec fn after_stopping(facts: ControllerFacts) -> ControllerFacts {
    settled(
        facts,
        if facts.life.lifecycle == RuntimeLifecycleState::Starting || facts.life.lifecycle
            == RuntimeLifecycleState::Ready || facts.life.lifecycle
            == RuntimeLifecycleState::Draining {
            stepped(facts.life, RuntimeLifecycleState::Stopping)
        } else {
            facts.life
        },
    )
}

/// The process once it has stopped.
pub open spec fn after_stopped(facts: ControllerFacts) -> ControllerFacts {
    settled(
        ControllerFacts { drain: finished(facts.drain), ..facts },
        if facts.life.lifecycle == RuntimeLifecycleState::Stopping {
            stepped(facts.life, RuntimeLifecycleState::Stopped)
        } else {
            facts.life
        },
    )
}

/// Whether the process admits clients.
pub open spec fn admits(facts: ControllerFacts) -> bool {
    facts.drain.state == DrainState::Accepting && facts.life.lifecycle
        == RuntimeLifecycleState::Ready
}

impl LifecycleController {
    /// A process that has just started.
    pub fn new(
        drain: DrainController,
        drain_grace: Duration,
        shutdown_grace: Duration,
        readiness_fail_during_drain: bool,
    ) -> (r: LifecycleController)
        ensures
            r@ == (ControllerFacts {
                life: LifeFacts {
                    lifecycle: RuntimeLifecycleState::Starting,
                    readiness: ReadinessState::NotReady,
                    listeners: false,
                    pools: false,
                    sessions: drain@.clients,
                    reason: None,
                    transitions: 0,
                    force_close: false,
                },
                fail_during_drain: readiness_fail_during_drain,
                drain: drain@,
                drain_grace: drain_grace@,
                shutdown_grace: shutdown_grace@,
            }),
    {
        LifecycleController {
            state: LifecycleState {
                lifecycle: RuntimeLifecycleState::Starting,
                readiness: ReadinessState::NotReady,
                listeners_initialized: false,
                backend_pools_initialized: false,
                active_sessions: 0,
                shutdown_reason: None,
                transition_count: 0,
                force_close_requested: false,
            },
            gate: ReadinessGate::new(readiness_fail_during_drain),
            drain,
            drain_grace,
            shutdown_grace,
        }
    }

    /// What is known of the process now.
    pub fn state(&self) -> (r: LifecycleState)
        ensures
            r@ == self@.life,
    {
        let mut state = self.state;
        state.active_sessions = self.drain.active_clients();
        state
    }

    /// The clients that are served.
    pub fn drain_controller(&self) -> (r: &DrainController)
        ensures
            r@ == self@.drain,
    {
        &self.drain
    }

    fn settle(&mut self, state: LifecycleState) -> (r: bool)
        ensures
            final(self)@ == settled(old(self)@, state@),
            r == (final(self)@.life != old(self)@.life),
    {
        let previous = self.state();
        let mut next = state;
        next.readiness = self.gate.evaluate(
            next.lifecycle,
            next.listeners_initialized,
            next.backend_pools_initialized,
        );
        next.active_sessions = self.drain.active_clients();
        self.state = next;
        next != previous
    }

    fn step(state: LifecycleState, to: RuntimeLifecycleState) -> (r: LifecycleState)
        ensures
            r@ == stepped(state@, to),
    {
        let mut next = state;
        next.lifecycle = to;
        next.transition_count = next.transition_count.saturating_add(1);
        next
    }

    fn maybe_mark_ready(&mut self)
        ensures
            final(self)@ == after_maybe_ready(old(self)@),
    {
        let state = self.state();
        let next = if state.lifecycle == RuntimeLifecycleState::Starting
            && state.listeners_initialized && state.backend_pools_initialized {
            Self::step(state, RuntimeLifecycleState::Ready)
        } else {
            state
        };
        let _ = self.settle(next);
    }

    /// Says that the listeners are up.
    pub fn mark_listeners_initialized(&mut self)
        ensures
            final(self)@ == after_listeners(old(self)@),
    {
        let mut next = self.state();
        next.listeners_initialized = true;
        let _ = self.settle(next);
        self.maybe_mark_ready();
    }

    /// Says that the pools are up.
    pub fn mark_backend_pools_initialized(&mut self)
        ensures
            final(self)@ == after_pools(old(self)@),
    {
        let mut next = self.state();
        next.backend_pools_initialized = true;
        let _ = self.settle(next);
        self.maybe_mark_ready();
    }

    /// Sets how long winding down and stopping may take, and whether winding down counts as not
    /// ready.
    pub fn configure(
        &mut self,
        drain_grace: Duration,
        shutdown_grace: Duration,
        readiness_fail_during_drain: bool,
    )
        ensures
            final(self)@ == settled(
                ControllerFacts {
                    fail_during_drain: readiness_fail_during_drain,
                    drain_grace: drain_grace@,
                    shutdown_grace: shutdown_grace@,
                    ..old(self)@
                },
                old(self)@.life,
            ),
    {
        self.drain_grace = drain_grace;
        self.shutdown_grace = shutdown_grace;
        self.gate.configure(readiness_fail_during_drain);
        let state = self.state();
        let _ = self.settle(state);
    }

    /// Tells the process to wind down. The answer is whether that changed anything.
    pub fn begin_drain(&mut self, reason: ShutdownReason, now: Duration) -> (r: bool)
        ensures
            final(self)@ == after_begin_drain(old(self)@, reason, now@),
            r == (old(self)@.drain.state == DrainState::Accepting || final(self)@.life
                != old(self)@.life),
    {
        let began = self.drain.begin_drain(self.drain_grace, now);
        let state = self.state();
        let mut next = if state.lifecycle == RuntimeLifecycleState::Ready {
            Self::step(state, RuntimeLifecycleState::Draining)
        } else {
            state
        };
        if next.shutdown_reason.is_none() {
            next.shutdown_reason = Some(reason);
        }
        let moved = self.settle(next);
        began || moved
    }

    /// Says that the process stops.
    pub fn mark_stopping(&mut self)
        ensures
            final(self)@ == after_stopping(old(self)@),
    {
        let state = self.state();
        let next = if state.lifecycle == RuntimeLifecycleState::Starting || state.lifecycle
            == RuntimeLifecycleState::Ready || state.lifecycle == RuntimeLifecycleState::Draining {
            Self::step(state, RuntimeLifecycleState::Stopping)
        } else {
            state
        };
        let _ = self.settle(next);
    }

    /// Asks for the clients that are still served to be cut off.
    pub fn request_force_close(&mut self)
        ensures
            final(self)@ == settled(
                old(self)@,
                LifeFacts { force_close: true, ..old(self)@.life },
            ),
    {
        let mut next = self.state();
        next.force_close_requested = true;
        let _ = self.settle(next);
    }

    /// Says that the process has stopped.
    pub fn mark_stopped(&mut self)
        ensures
            final(self)@ == after_stopped(old(self)@),
    {
        self.drain.finish_drain();
        let state = self.state();
        let next = if state.lifecycle == RuntimeLifecycleState::Stopping {
            Self::step(state, RuntimeLifecycleState::Stopped)
        } else {
            state
        };
        let _ = self.settle(next);
    }

    /// Whether the process admits clients.
    pub fn is_accepting(&self) -> (r: bool)
        ensures
            r == admits(self@),
    {
        self.drain.is_accepting() && self.state.lifecycle == RuntimeLifecycleState::Ready
    }

    /// Admits a client, where the process admits clients.
    pub fn try_enter(&mut self) -> (r: Option<DrainClientGuard>)
        requires
            old(self)@.drain.clients < usize::MAX,
        ensures
            r is Some <==> admits(old(self)@),
            final(self)@ == if admits(old(self)@) {
                ControllerFacts {
                    life: LifeFacts {
                        sessions: old(self)@.drain.clients + 1,
                        ..old(self)@.life
                    },
                    drain: entered(old(self)@.drain),
                    ..old(self)@
                }
            } else {
                old(self)@
            },
    {
        if !self.is_accepting() {
            return None;
        }
        self.drain.try_enter_client()
    }

    /// Says that a client is served no longer. The answer is whether it was the last one that
    /// winding down waited for.
    pub fn leave(&mut self, guard: DrainClientGuard) -> (r: bool)
        requires
            old(self)@.drain.clients > 0,
        ensures
            r == (old(self)@.drain.clients == 1 && old(self)@.drain.state == DrainState::Draining),
            final(self)@ == (ControllerFacts {
                life: LifeFacts { sessions: old(self)@.drain.clients - 1, ..old(self)@.life },
                drain: left(old(self)@.drain),
                ..old(self)@
            }),
    {
        self.drain.leave_client(guard)
    }
}

/// How the process was shut down.
#[derive(Clone, Copy, Debug, PartialEq, Eq, Structural)]
pub struct ShutdownOutcome {
    drain_outcome: DrainOutcome,
    forced_sessions: usize,
}

impl ShutdownOutcome {
    /// How winding down ended.
    pub closed spec fn ended(self) -> DrainOutcome {
        self.drain_outcome
    }

    /// How many clients were cut off.
    pub closed spec fn forced(self) -> int {
        self.forced_sessions as int
    }

    /// How winding down ended.
    pub fn drain_outcome(self) -> (r: DrainOutcome)
        ensures
            r == self.ended(),
    {
        self.drain_outcome
    }

    /// How many clients were cut off.
    pub fn forced_sessions(self) -> (r: usize)
        ensures
            r == self.forced(),
    {
        self.forced_sessions
    }
}

/// How a shutdown goes on once winding down has ended.
#[derive(Clone, Copy, Debug, PartialEq, Eq, Structural)]
pub enum ShutdownStep {
    /// It is over.
    Finished(ShutdownOutcome),
    /// The clients that are still served get this much time.
    WaitGrace(Duration),
}

impl LifecycleController {
    /// Goes on with a shutdown once winding down has ended: the process stops, at once where every
    /// client has finished, and after a time of grace otherwise.
    pub fn after_drain(&mut self, outcome: DrainOutcome) -> (r: ShutdownStep)
        ensures
            final(self)@ == after_stopping(old(self)@),
            match outcome {
                DrainOutcome::Completed => r matches ShutdownStep::Finished(end) && end.ended()
                    == outcome && end.forced() == 0,
                DrainOutcome::TimedOut => r matches ShutdownStep::WaitGrace(grace) && grace@
                    == old(self)@.shutdown_grace,
            },
            r is Finished <==> outcome is Completed,
            final(self)@.drain == old(self)@.drain,
    {
        let grace = self.shutdown_grace;
        self.mark_stopping();
        match outcome {
            DrainOutcome::Completed => ShutdownStep::Finished(
                ShutdownOutcome { drain_outcome: outcome, forced_sessions: 0 },
            ),
            DrainOutcome::TimedOut => ShutdownStep::WaitGrace(grace),
        }
    }

    /// Goes on with a shutdown once the time of grace is over: the clients that are still served
    /// are to be cut off.
    pub fn after_grace(&mut self) -> (r: ShutdownOutcome)
        ensures
            r.ended() == DrainOutcome::TimedOut,
            r.forced() == old(self)@.drain.clients,
            final(self)@ == if old(self)@.drain.clients > 0 {
                settled(old(self)@, LifeFacts { force_close: true, ..old(self)@.life })
            } else {
                old(self)@
            },
    {
        let active: usize = self.drain.active_clients();
        if active > 0 {
            self.request_force_close();
        }
        ShutdownOutcome { drain_outcome: DrainOutcome::TimedOut, forced_sessions: active }
    }
}

/// A stage's place in the life of the process.
pub open spec fn stage(state: RuntimeLifecycleState) -> int {
    match state {
        RuntimeLifecycleState::Starting => 0,
        RuntimeLifecycleState::Ready => 1,
        RuntimeLifecycleState::Draining => 2,
        RuntimeLifecycleState::Stopping => 3,
        RuntimeLifecycleState::Stopped => 4,
    }
}

/// The process never goes back to an earlier stage, and each step takes it to a later one.
pub proof fn law_life_goes_forward(facts: ControllerFacts, reason: ShutdownReason, now: nat)
    ensures
        stage(after_listeners(facts).life.lifecycle) >= stage(facts.life.lifecycle),
        stage(after_pools(facts).life.lifecycle) >= stage(facts.life.lifecycle),
        stage(after_begin_drain(facts, reason, now).life.lifecycle) >= stage(facts.life.lifecycle),
        stage(after_stopping(facts).life.lifecycle) >= stage(facts.life.lifecycle),
        stage(after_stopped(facts).life.lifecycle) >= stage(facts.life.lifecycle),
{
}

/// A process that has started is ready as soon as both its listeners and its pools are up, in
/// whichever order, and not before.
pub proof fn law_ready_when_both_up(facts: ControllerFacts)
    requires
        facts.life.lifecycle == RuntimeLifecycleState::Starting,
        !facts.life.listeners,
        !facts.life.pools,
    ensures
        after_listeners(facts).life.readiness == ReadinessState::NotReady,
        after_pools(facts).life.readiness == ReadinessState::NotReady,
        after_pools(after_listeners(facts)).life.readiness == ReadinessState::Ready,
        after_listeners(after_pools(facts)).life.readiness == ReadinessState::Ready,
{
}

/// Once it was told to wind down, the process is not ready and admits no client.
pub proof fn law_draining_admits_nobody(facts: ControllerFacts, reason: ShutdownReason, now: nat)
    ensures
        after_begin_drain(facts, reason, now).life.readiness != ReadinessState::Ready,
        !admits(after_begin_drain(facts, reason, now)),
{
}

/// The first reason to stop is kept.
pub proof fn law_first_reason_kept(
    facts: ControllerFacts,
    first: ShutdownReason,
    second: ShutdownReason,
    now: nat,
    later: nat,
)
    ensures
        after_begin_drain(after_begin_drain(facts, first, now), second, later).life.reason
            == after_begin_drain(facts, first, now).life.reason,
{
}

/// A process is ready exactly while it is in its ready state with its listeners and its pools up.
/// While it drains it says so, unless it is to fail its readiness then.
pub proof fn law_readiness_by_state(
    fail_during_drain: bool,
    lifecycle: RuntimeLifecycleState,
    listeners: bool,
    pools: bool,
)
    ensures
        ({
            let readiness = readiness_of(fail_during_drain, lifecycle, listeners, pools);
            &&& readiness is Ready <==> lifecycle is Ready && listeners && pools
            &&& readiness is Draining <==> lifecycle is Draining && !fail_during_drain
            &&& readiness is NotReady <==> !(lifecycle is Ready && listeners && pools) && !(
            lifecycle is Draining && !fail_during_drain)
        }),
{
}

/// Whatever a process goes through, what it says of its readiness fits its state, and it counts
/// the sessions that are open.
pub proof fn law_readiness_kept_up(facts: ControllerFacts, reason: ShutdownReason, now: nat)
    ensures
        ({
            let steps = seq![
                after_listeners(facts),
                after_pools(facts),
                after_begin_drain(facts, reason, now),
                after_stopping(facts),
                after_stopped(facts),
            ];
            forall|i: int|
                0 <= i < steps.len() ==> {
                    let next = #[trigger] steps[i];
                    &&& next.life.readiness is Ready <==> next.life.lifecycle is Ready
                        && next.life.listeners && next.life.pools
                    &&& next.life.readiness is Draining <==> next.life.lifecycle is Draining
                        && !next.fail_during_drain
                    &&& next.life.sessions == facts.drain.clients
                    &&& next.fail_during_drain == facts.fail_during_drain
                    &&& next.drain_grace == facts.drain_grace
                    &&& next.shutdown_grace == facts.shutdown_grace
                    &&& next.life.force_close == facts.life.force_close
                    &&& next.life.lifecycle != facts.life.lifecycle && facts.life.transitions
                        < u64::MAX ==> next.life.transitions > facts.life.transitions
                }
        }),
{
}

/// Which states follow which: a starting process gets ready once both its listeners and its pools
/// are up, a ready one drains, and a process stops only after it was told to.
pub proof fn law_states_that_follow(facts: ControllerFacts, reason: ShutdownReason, now: nat)
    ensures
        after_listeners(facts).life.listeners,
        after_pools(facts).life.pools,
        after_listeners(facts).life.pools == facts.life.pools,
        after_pools(facts).life.listeners == facts.life.listeners,
        facts.life.lifecycle is Starting ==> {
            &&& after_listeners(facts).life.lifecycle is Ready <==> facts.life.pools
            &&& after_pools(facts).life.lifecycle is Ready <==> facts.life.listeners
        },
        !(facts.life.lifecycle is Starting) ==> after_listeners(facts).life.lifecycle
            == facts.life.lifecycle && after_pools(facts).life.lifecycle == facts.life.lifecycle,
        facts.life.lifecycle is Ready ==> after_begin_drain(
            facts,
            reason,
            now,
        ).life.lifecycle is Draining,
        !(facts.life.lifecycle is Ready) ==> after_begin_drain(facts, reason, now).life.lifecycle
            == facts.life.lifecycle,
        facts.life.lifecycle is Starting || facts.life.lifecycle is Ready
            || facts.life.lifecycle is Draining ==> after_stopping(
            facts,
        ).life.lifecycle is Stopping,
        facts.life.lifecycle is Stopped ==> after_stopping(facts).life.lifecycle is Stopped,
        after_stopped(facts).life.lifecycle is Stopped <==> facts.life.lifecycle is Stopping
            || facts.life.lifecycle is Stopped,
        after_stopped(facts).drain.state == DrainState::Drained,
        after_stopped(facts).drain.clients == facts.drain.clients,
{
}

/// A drain ends the time of clients to come: its deadline is the grace after it began, and the
/// first reason is kept.
pub proof fn law_drain_has_its_grace(facts: ControllerFacts, reason: ShutdownReason, now: nat)
    ensures
        ({
            let next = after_begin_drain(facts, reason, now);
            &&& facts.drain.state == DrainState::Accepting ==> next.drain.state
                == DrainState::Draining && next.drain.started == Some(now)
            &&& facts.drain.state == DrainState::Accepting && now + facts.drain_grace <= u128::MAX
                ==> next.drain.deadline == Some((now + facts.drain_grace) as nat)
            &&& facts.drain.state != DrainState::Accepting ==> next.drain == facts.drain
            &&& facts.life.reason is None ==> next.life.reason == Some(reason)
            &&& facts.life.reason is Some ==> next.life.reason == facts.life.reason
            &&& next.drain.clients == facts.drain.clients
        }),
{
}

/// Clients are let in exactly while the process is ready and does not drain.
pub proof fn law_admits_exactly_while_ready(facts: ControllerFacts)
    ensures
        admits(facts) <==> facts.drain.state is Accepting && facts.life.lifecycle is Ready,
        !admits(after_stopping(facts)),
        !admits(after_stopped(facts)),
{
}

} // verus!
