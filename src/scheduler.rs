use vstd::prelude::*;

verus! {

/// How long the scheduler sleeps between passes: one hour, in milliseconds.
pub const SLEEP_MS: u64 = 3_600_000;

#[derive(Clone, Copy, Debug, PartialEq, Eq, Structural)]
pub enum SchedulerState {
    WaitingForReady,
    Sweeping,
    Sleeping,
    Exited,
}

#[derive(Clone, Copy, Debug, PartialEq, Eq, Structural)]
pub enum SchedulerEvent {
    /// The platform connection is ready.
    Ready,
    /// The pass under way finished.
    PassFinished,
    /// The sleep between passes ended.
    Woke,
}

#[derive(Clone, Copy, Debug, PartialEq, Eq, Structural)]
pub enum SchedulerAction {
    /// Run one pass, then report `PassFinished`.
    RunPass,
    /// Sleep this many milliseconds, then report `Woke`.
    Sleep(u64),
    /// Stop for good.
    Exit,
    /// Nothing to do: the event does not apply in this state.
    Wait,
}

/// The scheduler's move on `event` from `state`; `once` ends it after the first pass.
pub open spec fn transition(state: SchedulerState, once: bool, event: SchedulerEvent) -> (
    SchedulerState,
    SchedulerAction,
) {
    match (state, event) {
        (SchedulerState::WaitingForReady, SchedulerEvent::Ready) => (
            SchedulerState::Sweeping,
            SchedulerAction::RunPass,
        ),
        (SchedulerState::Sweeping, SchedulerEvent::PassFinished) => if once {
            (SchedulerState::Exited, SchedulerAction::Exit)
        } else {
            (SchedulerState::Sleeping, SchedulerAction::Sleep(SLEEP_MS))
        },
        (SchedulerState::Sleeping, SchedulerEvent::Woke) => (
            SchedulerState::Sweeping,
            SchedulerAction::RunPass,
        ),
        (SchedulerState::Exited, _) => (SchedulerState::Exited, SchedulerAction::Exit),
        _ => (state, SchedulerAction::Wait),
    }
}

/// Runs passes forever, one hour apart, once the platform is ready; or a
/// single pass when built with `once`.
pub struct SweepScheduler {
    pub state: SchedulerState,
    pub once: bool,
}

impl SweepScheduler {
    pub fn new(once: bool) -> (r: SweepScheduler)
        ensures
            r == (SweepScheduler { state: SchedulerState::WaitingForReady, once }),
    {
        SweepScheduler { state: SchedulerState::WaitingForReady, once }
    }

    pub fn step(&mut self, event: SchedulerEvent) -> (r: SchedulerAction)
        ensures
            (final(self).state, r) == transition(old(self).state, old(self).once, event),
            final(self).once == old(self).once,
    {
        let (state, action) = match (self.state, event) {
            (SchedulerState::WaitingForReady, SchedulerEvent::Ready) => (
                SchedulerState::Sweeping,
                SchedulerAction::RunPass,
            ),
            (SchedulerState::Sweeping, SchedulerEvent::PassFinished) => if self.once {
                (SchedulerState::Exited, SchedulerAction::Exit)
            } else {
                (SchedulerState::Sleeping, SchedulerAction::Sleep(SLEEP_MS))
            },
            (SchedulerState::Sleeping, SchedulerEvent::Woke) => (
                SchedulerState::Sweeping,
                SchedulerAction::RunPass,
            ),
            (SchedulerState::Exited, _) => (SchedulerState::Exited, SchedulerAction::Exit),
            _ => (self.state, SchedulerAction::Wait),
        };
        self.state = state;
        action
    }
}

} // verus!
