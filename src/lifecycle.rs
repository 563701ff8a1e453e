//! The lifecycle of the capture: the controller's phases, and the
//! single-use shutdown request.
use vstd::prelude::*;

verus! {

/// The phases of the lifecycle controller.
#[derive(Copy, Clone, Debug, PartialEq, Eq, Structural)]
pub enum Phase {
    Starting,
    Active,
    ShuttingDown,
    Stopped,
}

/// What moves the controller on.
#[derive(Copy, Clone, Debug, PartialEq, Eq, Structural)]
pub enum LifeEvent {
    /// The callback was registered and runs.
    Registered,
    /// A shutdown signal was received.
    SignalReceived,
    /// Deactivation of the callback completed.
    Deactivated,
}

/// The position of a phase in the lifecycle.
pub open spec fn rank(p: Phase) -> nat {
    match p {
        Phase::Starting => 0,
        Phase::Active => 1,
        Phase::ShuttingDown => 2,
        Phase::Stopped => 3,
    }
}

/// The phase that `e` leads to from `p`, if `e` may happen in `p`.
pub open spec fn next_phase(p: Phase, e: LifeEvent) -> Option<Phase> {
    match (p, e) {
        (Phase::Starting, LifeEvent::Registered) => Some(Phase::Active),
        (Phase::Active, LifeEvent::SignalReceived) => Some(Phase::ShuttingDown),
        (Phase::ShuttingDown, LifeEvent::Deactivated) => Some(Phase::Stopped),
        _ => None,
    }
}

/// The lifecycle controller's state machine. A failed registration leaves it
/// in `Starting`: it never reaches `Active`.
pub struct Lifecycle {
    phase: Phase,
}

impl Lifecycle {
    pub closed spec fn spec_phase(self) -> Phase {
        self.phase
    }

    /// A controller that is starting.
    pub fn new() -> (r: Lifecycle)
        ensures
            r.spec_phase() == Phase::Starting,
    {
        Lifecycle { phase: Phase::Starting }
    }

    /// The current phase.
    pub fn phase(&self) -> (r: Phase)
        ensures
            r == self.spec_phase(),
    {
        self.phase
    }

    /// Takes the transition of `e` if it may happen in the current phase and
    /// says whether it did; otherwise the phase stays as it is.
    pub fn advance(&mut self, e: LifeEvent) -> (r: bool)
        ensures
            r == next_phase(old(self).spec_phase(), e).is_some(),
            r ==> Some(final(self).spec_phase()) == next_phase(old(self).spec_phase(), e),
            !r ==> final(self).spec_phase() == old(self).spec_phase(),
    {
        let next = match (self.phase, e) {
            (Phase::Starting, LifeEvent::Registered) => Some(Phase::Active),
            (Phase::Active, LifeEvent::SignalReceived) => Some(Phase::ShuttingDown),
            (Phase::ShuttingDown, LifeEvent::Deactivated) => Some(Phase::Stopped),
            _ => None,
        };
        match next {
            Some(p) => {
                self.phase = p;
                true
            },
            None => false,
        }
    }
}

/// No transition skips a phase: each moves exactly one phase on, and
/// `Stopped` has no way out.
pub proof fn lemma_transitions_skip_no_phase(p: Phase, e: LifeEvent)
    ensures
        next_phase(p, e) matches Some(q) ==> rank(q) == rank(p) + 1,
        p == Phase::Stopped ==> next_phase(p, e).is_none(),
{
}

/// The single-use shutdown request: the signal is sent at most once, and a
/// second request is a no-op.
pub struct ShutdownRequest {
    requested: bool,
}

impl ShutdownRequest {
    pub closed spec fn spec_requested(self) -> bool {
        self.requested
    }

    /// A request not yet made.
    pub fn new() -> (r: ShutdownRequest)
        ensures
            !r.spec_requested(),
    {
        ShutdownRequest { requested: false }
    }

    /// Whether the request was already made.
    pub fn is_requested(&self) -> (r: bool)
        ensures
            r == self.spec_requested(),
    {
        self.requested
    }

    /// Marks the request as made, and says whether the signal is to be sent
    /// now: only on the first call.
    pub fn request(&mut self) -> (r: bool)
        ensures
            r == !old(self).spec_requested(),
            final(self).spec_requested(),
    {
        let first = !self.requested;
        self.requested = true;
        first
    }
}

} // verus!
