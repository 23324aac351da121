//! The engine's runner as a state machine: find the DSH, use its address, clear what is
//! pending, open both event streams, poll, and find the DSH again after three failed polls
//! in a row. The application performs each action and reports how it went.
use vstd::prelude::*;

use crate::engine::MAX_POLL_FAILURES;

verus! {

/// Where the runner stands.
pub enum RunPhase {
    /// Looking for the DSH.
    Discovering,
    /// Remembering the address that was found.
    UsingAddress,
    /// Dropping the pending approvals and questions (the stream replays them).
    ClearingPending,
    /// Opening the host and event streams.
    OpeningStreams,
    /// Polling the session list, with the number of failed polls in a row.
    Polling(u32),
}

/// What the application reports.
pub enum RunEvent {
    /// Discovery found the DSH at this address.
    Found(String),
    /// Discovery found nothing.
    NotFound,
    /// The action asked for was carried out.
    StepDone,
    /// A poll answered (`true`) or failed (`false`).
    Polled(bool),
}

/// What the application does next.
pub enum RunAction {
    /// Look for the DSH.
    Discover,
    /// Record that no DSH was found, wait ten seconds, then look again.
    WaitThenDiscover,
    /// Remember this address for requests and streams.
    UseAddress(String),
    /// Drop every pending approval and question.
    ClearPending,
    /// Open the host and event streams.
    OpenStreams,
    /// Wait for the next poll tick and poll the session list.
    Poll,
    /// Close both streams and look for the DSH again.
    DropStreamsThenDiscover,
    /// Nothing: the event does not belong to this phase.
    Ignore,
}

/// One step of the runner: the phase after an event, and the action to take.
pub open spec fn run_step(phase: RunPhase, event: RunEvent) -> (RunPhase, RunAction) {
    match (phase, event) {
        (RunPhase::Discovering, RunEvent::Found(u)) => (RunPhase::UsingAddress, RunAction::UseAddress(u)),
        (RunPhase::Discovering, RunEvent::NotFound) => (
            RunPhase::Discovering,
            RunAction::WaitThenDiscover,
        ),
        (RunPhase::UsingAddress, RunEvent::StepDone) => (
            RunPhase::ClearingPending,
            RunAction::ClearPending,
        ),
        (RunPhase::ClearingPending, RunEvent::StepDone) => (
            RunPhase::OpeningStreams,
            RunAction::OpenStreams,
        ),
        (RunPhase::OpeningStreams, RunEvent::StepDone) => (RunPhase::Polling(0), RunAction::Poll),
        (RunPhase::Polling(_), RunEvent::Polled(true)) => (RunPhase::Polling(0), RunAction::Poll),
        (RunPhase::Polling(n), RunEvent::Polled(false)) => if n + 1 >= MAX_POLL_FAILURES {
            (RunPhase::Discovering, RunAction::DropStreamsThenDiscover)
        } else {
            (RunPhase::Polling((n + 1) as u32), RunAction::Poll)
        },
        (p, _) => (p, RunAction::Ignore),
    }
}

/// A phase the runner can be in: failures in a row stay below the limit.
pub open spec fn phase_ok(phase: RunPhase) -> bool {
    match phase {
        RunPhase::Polling(n) => n < MAX_POLL_FAILURES,
        _ => true,
    }
}

/// The runner's state.
pub struct Runner {
    phase: RunPhase,
}

impl View for Runner {
    type V = RunPhase;

    closed spec fn view(&self) -> RunPhase {
        self.phase
    }
}

impl Runner {
    #[verifier::type_invariant]
    spec fn valid(self) -> bool {
        phase_ok(self.phase)
    }

    /// A runner that starts by looking for the DSH; the first action is `Discover`.
    pub fn new() -> (r: Self)
        ensures
            r@ == RunPhase::Discovering,
    {
        Runner { phase: RunPhase::Discovering }
    }

    /// Takes an event and says what to do next (see `run_step`).
    pub fn step(&mut self, event: RunEvent) -> (a: RunAction)
        ensures
            (final(self)@, a) == run_step(old(self)@, event),
            phase_ok(final(self)@),
    {
        proof {
            use_type_invariant(&*self);
        }
        let (phase, action) = match (&self.phase, event) {
            (RunPhase::Discovering, RunEvent::Found(u)) => (RunPhase::UsingAddress, RunAction::UseAddress(u)),
            (RunPhase::Discovering, RunEvent::NotFound) => (
                RunPhase::Discovering,
                RunAction::WaitThenDiscover,
            ),
            (RunPhase::UsingAddress, RunEvent::StepDone) => (
                RunPhase::ClearingPending,
                RunAction::ClearPending,
            ),
            (RunPhase::ClearingPending, RunEvent::StepDone) => (
                RunPhase::OpeningStreams,
                RunAction::OpenStreams,
            ),
            (RunPhase::OpeningStreams, RunEvent::StepDone) => (RunPhase::Polling(0), RunAction::Poll),
            (RunPhase::Polling(_), RunEvent::Polled(true)) => (RunPhase::Polling(0), RunAction::Poll),
            (RunPhase::Polling(n), RunEvent::Polled(false)) => if *n + 1 >= MAX_POLL_FAILURES {
                (RunPhase::Discovering, RunAction::DropStreamsThenDiscover)
            } else {
                (RunPhase::Polling(*n + 1), RunAction::Poll)
            },
            (RunPhase::Discovering, _) => (RunPhase::Discovering, RunAction::Ignore),
            (RunPhase::UsingAddress, _) => (RunPhase::UsingAddress, RunAction::Ignore),
            (RunPhase::ClearingPending, _) => (RunPhase::ClearingPending, RunAction::Ignore),
            (RunPhase::OpeningStreams, _) => (RunPhase::OpeningStreams, RunAction::Ignore),
            (RunPhase::Polling(n), _) => (RunPhase::Polling(*n), RunAction::Ignore),
        };
        self.phase = phase;
        action
    }
}

/// Once the DSH is found, the runner remembers its address, then clears what is pending,
/// then opens both streams, then polls, in that order.
pub proof fn lemma_setup_order(u: String)
    ensures
        ({
            let (p1, a1) = run_step(RunPhase::Discovering, RunEvent::Found(u));
            let (p2, a2) = run_step(p1, RunEvent::StepDone);
            let (p3, a3) = run_step(p2, RunEvent::StepDone);
            let (p4, a4) = run_step(p3, RunEvent::StepDone);
            &&& a1 == RunAction::UseAddress(u)
            &&& a2 == RunAction::ClearPending
            &&& a3 == RunAction::OpenStreams
            &&& a4 == RunAction::Poll
            &&& p4 == RunPhase::Polling(0)
        }),
{
}

/// Three failed polls in a row close the streams and send the runner looking for the DSH
/// again; the first two only poll again.
pub proof fn lemma_rediscover_after_three_failures()
    ensures
        ({
            let (p1, a1) = run_step(RunPhase::Polling(0), RunEvent::Polled(false));
            let (p2, a2) = run_step(p1, RunEvent::Polled(false));
            let (p3, a3) = run_step(p2, RunEvent::Polled(false));
            &&& a1 == RunAction::Poll
            &&& a2 == RunAction::Poll
            &&& a3 == RunAction::DropStreamsThenDiscover
            &&& p3 == RunPhase::Discovering
        }),
{
}

/// A poll that answers starts the count of failures again: from any polling phase, an
/// answered poll leads to polling with no failure counted.
pub proof fn lemma_answer_resets(n: u32)
    ensures
        run_step(RunPhase::Polling(n), RunEvent::Polled(true)) == (RunPhase::Polling(0), RunAction::Poll),
{
}

/// The streams are opened only right after the pending items were cleared, which happens
/// only right after an address was taken into use, which happens only right after
/// discovery found one.
pub proof fn lemma_streams_follow_clearing(p: RunPhase, e: RunEvent)
    ensures
        run_step(p, e).1 == RunAction::OpenStreams ==> p == RunPhase::ClearingPending,
        run_step(p, e).1 == RunAction::ClearPending ==> p == RunPhase::UsingAddress,
        run_step(p, e).1 is UseAddress ==> p == RunPhase::Discovering,
{
}

} // verus!
