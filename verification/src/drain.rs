//! Winding down: no client is admitted any more, and those that are served may finish.
use vstd::prelude::*;

use crate::clock::Duration;
use crate::security::DrainState;

verus! {

/// How winding down ended.
#[derive(Clone, Copy, Debug, PartialEq, Eq, Structural)]
pub enum DrainOutcome {
    Completed,
    TimedOut,
}

/// A client that is served. It is given back with `leave_client`.
#[derive(Debug)]
pub struct DrainClientGuard {
    entered: bool,
}

/// Whether clients are admitted, and how many are served.
#[derive(Debug)]
pub struct DrainController {
    state: DrainState,
    active_clients: usize,
    drain_started_at: Option<Duration>,
    drain_deadline: Option<Duration>,
}

/// Winding down as plain values.
pub struct DrainProgress {
    pub state: DrainState,
    pub clients: int,
    pub started: Option<nat>,
    pub deadline: Option<nat>,
}

/// The length of an optional span.
pub open spec fn opt_span(span: Option<Duration>) -> Option<nat> {
    match span {
        Some(length) => Some(length@),
        None => None,
    }
}

impl View for DrainController {
    type V = DrainProgress;

    closed spec fn view(&self) -> DrainProgress {
        DrainProgress {
            state: self.state,
            clients: self.active_clients as int,
            started: opt_span(self.drain_started_at),
            deadline: opt_span(self.drain_deadline),
        }
    }
}

/// The number of a state.
pub open spec fn state_number(state: DrainState) -> u8 {
    match state {
        DrainState::Accepting => 0,
        DrainState::Draining => 1,
        DrainState::Drained => 2,
    }
}

/// The state of a number.
pub open spec fn numbered_state(number: u8) -> DrainState {
    if number == 0 {
        DrainState::Accepting
    } else if number == 1 {
        DrainState::Draining
    } else {
        DrainState::Drained
    }
}

/// A state is found again by its number.
pub proof fn law_state_number_round_trip(state: DrainState)
    ensures
        numbered_state(state_number(state)) == state,
{
}

/// The number of a state.
pub fn state_to_u8(state: DrainState) -> (r: u8)
    ensures
        r == state_number(state),
{
    match state {
        DrainState::Accepting => 0,
        DrainState::Draining => 1,
        DrainState::Drained => 2,
    }
}

/// The state of a number.
pub fn state_from_u8(number: u8) -> (r: DrainState)
    ensures
        r == numbered_state(number),
{
    if number == 0 {
        DrainState::Accepting
    } else if number == 1 {
        DrainState::Draining
    } else {
        DrainState::Drained
    }
}

/// The sum of two spans, as far as a span can be long.
pub open spec fn span_sum(a: nat, b: nat) -> nat {
    if a + b <= u128::MAX {
        a + b
    } else {
        u128::MAX as nat
    }
}

/// After winding down was begun, or begun again.
pub open spec fn begun(progress: DrainProgress, timeout: nat, now: nat) -> DrainProgress {
    if progress.state == DrainState::Accepting {
        DrainProgress {
            state: DrainState::Draining,
            clients: progress.clients,
            started: Some(now),
            deadline: Some(span_sum(now, timeout)),
        }
    } else {
        progress
    }
}

/// After winding down was ended.
pub open spec fn finished(progress: DrainProgress) -> DrainProgress {
    DrainProgress { state: DrainState::Drained, ..progress }
}

/// After a client asked to be admitted.
pub open spec fn entered(progress: DrainProgress) -> DrainProgress {
    if progress.state == DrainState::Accepting {
        DrainProgress { clients: progress.clients + 1, ..progress }
    } else {
        progress
    }
}

/// After a client was served.
pub open spec fn left(progress: DrainProgress) -> DrainProgress {
    DrainProgress { clients: progress.clients - 1, ..progress }
}

/// Once clients are not admitted any more, nothing admits them again, and their number does not
/// grow.
pub proof fn law_never_accepts_again(progress: DrainProgress, timeout: nat, now: nat)
    requires
        progress.state != DrainState::Accepting,
    ensures
        begun(progress, timeout, now).state != DrainState::Accepting,
        finished(progress).state != DrainState::Accepting,
        entered(progress).state != DrainState::Accepting,
        left(progress).state != DrainState::Accepting,
        entered(progress).clients == progress.clients,
        begun(progress, timeout, now).clients == progress.clients,
{
}

/// Winding down begins once: a second beginning changes neither its start nor its deadline.
pub proof fn law_begins_once(
    progress: DrainProgress,
    timeout: nat,
    now: nat,
    other_timeout: nat,
    later: nat,
)
    ensures
        begun(begun(progress, timeout, now), other_timeout, later) == begun(progress, timeout, now),
{
}

/// A client that is admitted and then leaves changes nothing.
pub proof fn law_enter_then_leave(progress: DrainProgress)
    requires
        progress.state == DrainState::Accepting,
    ensures
        left(entered(progress)) == progress,
{
}

impl DrainController {
    /// Clients are admitted, and none is served.
    pub fn new() -> (r: DrainController)
        ensures
            r@ == (DrainProgress {
                state: DrainState::Accepting,
                clients: 0,
                started: None,
                deadline: None,
            }),
    {
        DrainController {
            state: DrainState::Accepting,
            active_clients: 0,
            drain_started_at: None,
            drain_deadline: None,
        }
    }

    /// How far winding down has come.
    pub fn state(&self) -> (r: DrainState)
        ensures
            r == self@.state,
    {
        self.state
    }

    /// Whether clients are admitted.
    pub fn is_accepting(&self) -> (r: bool)
        ensures
            r == (self@.state == DrainState::Accepting),
    {
        self.state == DrainState::Accepting
    }

    /// Whether the clients that are served may finish.
    pub fn is_draining(&self) -> (r: bool)
        ensures
            r == (self@.state == DrainState::Draining),
    {
        self.state == DrainState::Draining
    }

    /// Whether clients are admitted.
    pub fn is_ready(&self) -> (r: bool)
        ensures
            r == (self@.state == DrainState::Accepting),
    {
        self.is_accepting()
    }

    /// How many clients are served.
    pub fn active_clients(&self) -> (r: usize)
        ensures
            r == self@.clients,
    {
        self.active_clients
    }

    /// When winding down began.
    pub fn drain_started_at(&self) -> (r: Option<Duration>)
        ensures
            opt_span(r) == self@.started,
    {
        self.drain_started_at
    }

    /// When winding down has to have ended.
    pub fn drain_deadline(&self) -> (r: Option<Duration>)
        ensures
            opt_span(r) == self@.deadline,
    {
        self.drain_deadline
    }

    /// Begins to wind down, unless that was begun before. `now` is the time since the process
    /// began.
    pub fn begin_drain(&mut self, timeout: Duration, now: Duration) -> (r: bool)
        ensures
            r == (old(self)@.state == DrainState::Accepting),
            final(self)@ == begun(old(self)@, timeout@, now@),
    {
        if !self.is_accepting() {
            return false;
        }
        self.state = DrainState::Draining;
        self.drain_started_at = Some(now);
        self.drain_deadline = Some(now.plus(&timeout));
        true
    }

    /// Ends winding down.
    pub fn finish_drain(&mut self)
        ensures
            final(self)@ == finished(old(self)@),
    {
        self.state = DrainState::Drained;
    }

    /// Admits a client, where clients are admitted.
    pub fn try_enter_client(&mut self) -> (r: Option<DrainClientGuard>)
        requires
            old(self)@.clients < usize::MAX,
        ensures
            r is Some <==> old(self)@.state == DrainState::Accepting,
            final(self)@ == entered(old(self)@),
    {
        if !self.is_accepting() {
            return None;
        }
        self.active_clients += 1;
        Some(DrainClientGuard { entered: true })
    }

    /// Says that a client is served no longer. The answer is whether it was the last one that
    /// winding down waited for.
    pub fn leave_client(&mut self, guard: DrainClientGuard) -> (r: bool)
        requires
            old(self)@.clients > 0,
        ensures
            final(self)@ == left(old(self)@),
            r == (old(self)@.clients == 1 && old(self)@.state == DrainState::Draining),
            r ==> final(self)@.clients == 0 && old(self)@.state is Draining,
    {
        self.active_clients -= 1;
        self.active_clients == 0 && self.is_draining()
    }

    /// How winding down has ended, where it has: with the last client, or by its deadline.
    pub fn completion(&self, now: Duration) -> (r: Option<DrainOutcome>)
        requires
            self@.deadline is Some,
        ensures
            r == if self@.clients == 0 {
                Some(DrainOutcome::Completed)
            } else if now@ >= self@.deadline->Some_0 {
                Some(DrainOutcome::TimedOut)
            } else {
                None
            },
            r == Some(DrainOutcome::Completed) <==> self@.clients == 0,
            r is None <==> self@.clients != 0 && now@ < self@.deadline->Some_0,
    {
        if self.active_clients == 0 {
            return Some(DrainOutcome::Completed);
        }
        match self.drain_deadline {
            Some(deadline) => {
                if deadline.longer_than(&now) {
                    None
                } else {
                    Some(DrainOutcome::TimedOut)
                }
            },
            None => None,
        }
    }
}

impl Default for DrainController {
    fn default() -> (r: DrainController)
        ensures
            r@ == (DrainProgress {
                state: DrainState::Accepting,
                clients: 0,
                started: None,
                deadline: None,
            }),
    {
        DrainController::new()
    }
}

/// A drain begins where clients are still accepted: from then on none are, and the drain has until
/// its timeout after it began. One that has begun goes on as it is.
pub proof fn law_drain_runs_until_its_timeout(progress: DrainProgress, timeout: nat, now: nat)
    ensures
        ({
            let next = begun(progress, timeout, now);
            &&& next.clients == progress.clients
            &&& progress.state is Accepting ==> next.state is Draining && next.started == Some(now)
                && next.deadline is Some
            &&& progress.state is Accepting && now + timeout <= u128::MAX ==> next.deadline == Some(
                (now + timeout) as nat,
            )
            &&& progress.state is Accepting && now <= u128::MAX ==> now <= next.deadline->0
            &&& !(progress.state is Accepting) ==> next == progress
        }),
{
}

/// Each client that is let in counts for one until it leaves, and only those are let in that come
/// before the drain.
pub proof fn law_clients_counted(progress: DrainProgress)
    ensures
        progress.state is Accepting ==> entered(progress).clients == progress.clients + 1,
        progress.state is Draining || progress.state is Drained ==> entered(progress) == progress,
        entered(progress).state == progress.state,
        entered(progress).started == progress.started,
        entered(progress).deadline == progress.deadline,
        left(progress).clients == progress.clients - 1,
        left(progress).state == progress.state,
        left(progress).started == progress.started,
        left(progress).deadline == progress.deadline,
        finished(progress).state is Drained,
        finished(progress).clients == progress.clients,
        finished(progress).started == progress.started,
        finished(progress).deadline == progress.deadline,
{
}

/// The numbers of the states, and what other numbers stand for.
pub proof fn law_state_numbers(number: u8)
    ensures
        numbered_state(number) is Accepting <==> number == 0,
        numbered_state(number) is Draining <==> number == 1,
        numbered_state(number) is Drained <==> number >= 2,
        number <= 2 ==> state_number(numbered_state(number)) == number,
{
}

} // verus!
