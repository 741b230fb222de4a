//! The loop that keeps a unit running: run, clean up after the run, wait,
//! run again.

use vstd::prelude::*;

verus! {

/// The seconds to wait after a run of the membership tracker or of the
/// facade has ended.
pub const SUSPEND_DURATION_SEC: u64 = 10;

/// The seconds between two cycles of the collector.
pub const POLL_DURATION_SEC: u64 = 10;

/// Where a supervised unit stands.
#[derive(Debug, Clone, Copy, PartialEq, Eq, Structural)]
pub enum LoopState {
    /// The unit runs.
    Running,
    /// The run has failed; what it owned is being emptied.
    Failed,
    /// The time before the next run passes.
    Backoff,
}

/// What happened to a supervised unit.
#[derive(Debug, Clone, Copy, PartialEq, Eq, Structural)]
pub enum LoopEvent {
    /// The run came to its end as it should.
    Finished,
    /// The run ended in a failure.
    Failed,
    /// What the unit owned is empty.
    Cleared,
    /// The time to wait has passed.
    Slept,
}

/// What the supervisor wants done.
#[derive(Debug, Clone, Copy, PartialEq, Eq, Structural)]
pub enum LoopAction {
    /// Start a run of the unit.
    Run,
    /// Empty what the unit owns, so that nothing stale is shown.
    Clear,
    /// Wait this many seconds.
    Sleep(u64),
    /// The event does not belong to the state: nothing is to be done.
    Nothing,
}

/// Restarts a unit for ever, with a fixed wait between runs.
#[derive(Debug, Clone, Copy, PartialEq, Eq, Structural)]
pub struct Supervisor {
    /// Where the unit stands.
    pub state: LoopState,
    /// The seconds to wait between runs.
    pub backoff_secs: u64,
    /// Whether the unit owns something that is emptied after a failed run.
    pub clears: bool,
}

impl Supervisor {
    /// A supervisor of a unit that is about to run.
    pub fn new(backoff_secs: u64, clears: bool) -> (supervisor: Supervisor)
        ensures
            supervisor == (Supervisor { state: LoopState::Running, backoff_secs, clears }),
    {
        Supervisor { state: LoopState::Running, backoff_secs, clears }
    }

    /// The state after `event`.
    pub open spec fn next_state(self, event: LoopEvent) -> LoopState {
        match (self.state, event) {
            (LoopState::Running, LoopEvent::Finished) => LoopState::Backoff,
            (LoopState::Running, LoopEvent::Failed) => if self.clears {
                LoopState::Failed
            } else {
                LoopState::Backoff
            },
            (LoopState::Failed, LoopEvent::Cleared) => LoopState::Backoff,
            (LoopState::Backoff, LoopEvent::Slept) => LoopState::Running,
            _ => self.state,
        }
    }

    /// What is to be done after `event`.
    pub open spec fn action(self, event: LoopEvent) -> LoopAction {
        match (self.state, event) {
            (LoopState::Running, LoopEvent::Finished) => LoopAction::Sleep(self.backoff_secs),
            (LoopState::Running, LoopEvent::Failed) => if self.clears {
                LoopAction::Clear
            } else {
                LoopAction::Sleep(self.backoff_secs)
            },
            (LoopState::Failed, LoopEvent::Cleared) => LoopAction::Sleep(self.backoff_secs),
            (LoopState::Backoff, LoopEvent::Slept) => LoopAction::Run,
            _ => LoopAction::Nothing,
        }
    }

    /// Takes what happened to the unit and says what is to be done.
    pub fn step(&mut self, event: LoopEvent) -> (action: LoopAction)
        ensures
            final(self).state == old(self).next_state(event),
            final(self).backoff_secs == old(self).backoff_secs,
            final(self).clears == old(self).clears,
            action == old(self).action(event),
    {
        match (self.state, event) {
            (LoopState::Running, LoopEvent::Finished) => {
                self.state = LoopState::Backoff;
                LoopAction::Sleep(self.backoff_secs)
            },
            (LoopState::Running, LoopEvent::Failed) => {
                if self.clears {
                    self.state = LoopState::Failed;
                    LoopAction::Clear
                } else {
                    self.state = LoopState::Backoff;
                    LoopAction::Sleep(self.backoff_secs)
                }
            },
            (LoopState::Failed, LoopEvent::Cleared) => {
                self.state = LoopState::Backoff;
                LoopAction::Sleep(self.backoff_secs)
            },
            (LoopState::Backoff, LoopEvent::Slept) => {
                self.state = LoopState::Running;
                LoopAction::Run
            },
            _ => LoopAction::Nothing,
        }
    }
}

/// Whatever way a run ends, the unit runs again: after a failed run come the
/// emptying, where the unit owns something, then the fixed wait and the next
/// run; after any other run the wait and the next run.
pub proof fn lemma_always_restarts(supervisor: Supervisor, failed: bool)
    requires
        supervisor.state == LoopState::Running,
    ensures
        ({
            let end = if failed {
                LoopEvent::Failed
            } else {
                LoopEvent::Finished
            };
            let ended = Supervisor { state: supervisor.next_state(end), ..supervisor };
            if failed && supervisor.clears {
                let cleared = Supervisor { state: ended.next_state(LoopEvent::Cleared), ..supervisor };
                &&& supervisor.action(end) == LoopAction::Clear
                &&& ended.action(LoopEvent::Cleared) == LoopAction::Sleep(supervisor.backoff_secs)
                &&& cleared.action(LoopEvent::Slept) == LoopAction::Run
                &&& cleared.next_state(LoopEvent::Slept) == LoopState::Running
            } else {
                &&& supervisor.action(end) == LoopAction::Sleep(supervisor.backoff_secs)
                &&& ended.action(LoopEvent::Slept) == LoopAction::Run
                &&& ended.next_state(LoopEvent::Slept) == LoopState::Running
            }
        }),
{
}

} // verus!
