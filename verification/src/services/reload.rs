//! The reload coordinator: which change signals start a rescan, and what
//! happens to those that arrive while one is running.
//!
//! The coordinator decides; its caller waits for signals, scans the directory
//! and sleeps, and reports each event back.

use vstd::prelude::*;
use crate::utils::error::WatcherError;

verus! {

/// Seconds to wait before subscribing again after the signal stream closed.
pub const RESUBSCRIBE_BACKOFF_SECS: u64 = 1;

/// Whether a rescan is running.
#[derive(Clone, Copy, Debug, PartialEq, Eq, Structural)]
pub enum Phase {
    Idle,
    Reloading,
}

/// What the coordinator is told.
#[derive(Clone, Copy, Debug, PartialEq, Eq, Structural)]
pub enum ReloadEvent {
    /// The directory changed.
    Signal,
    /// The rescan that was started has ended, well or not.
    ReloadFinished,
    /// The stream of signals ended.
    StreamClosed,
}

/// What the caller is to do next.
#[derive(Clone, Copy, Debug, PartialEq, Eq, Structural)]
pub enum ReloadAction {
    /// Wait for the next event.
    Wait,
    /// Scan the directory and commit the result, then report `ReloadFinished`.
    Rescan,
    /// Wait `RESUBSCRIBE_BACKOFF_SECS` seconds, then subscribe again.
    Resubscribe,
}

/// The state of the coordinator: its phase, and whether a signal arrived
/// since the running rescan began.
#[derive(Clone, Copy, Debug, PartialEq, Eq, Structural)]
pub struct ReloadCoordinator {
    pub phase: Phase,
    pub pending: bool,
}

impl ReloadCoordinator {
    /// A signal can only be pending while a rescan runs.
    pub open spec fn wf(self) -> bool {
        self.phase == Phase::Idle ==> !self.pending
    }

    /// The state after `event`.
    pub open spec fn next(self, event: ReloadEvent) -> ReloadCoordinator {
        match (event, self.phase) {
            (ReloadEvent::Signal, Phase::Idle) => ReloadCoordinator {
                phase: Phase::Reloading,
                pending: false,
            },
            (ReloadEvent::Signal, Phase::Reloading) => ReloadCoordinator {
                phase: Phase::Reloading,
                pending: true,
            },
            (ReloadEvent::ReloadFinished, Phase::Reloading) => if self.pending {
                ReloadCoordinator { phase: Phase::Reloading, pending: false }
            } else {
                ReloadCoordinator { phase: Phase::Idle, pending: false }
            },
            (ReloadEvent::ReloadFinished, Phase::Idle) => self,
            (ReloadEvent::StreamClosed, _) => self,
        }
    }

    /// What `event` asks of the caller in this state.
    pub open spec fn action(self, event: ReloadEvent) -> ReloadAction {
        match (event, self.phase) {
            (ReloadEvent::Signal, Phase::Idle) => ReloadAction::Rescan,
            (ReloadEvent::Signal, Phase::Reloading) => ReloadAction::Wait,
            (ReloadEvent::ReloadFinished, Phase::Reloading) => if self.pending {
                ReloadAction::Rescan
            } else {
                ReloadAction::Wait
            },
            (ReloadEvent::ReloadFinished, Phase::Idle) => ReloadAction::Wait,
            (ReloadEvent::StreamClosed, _) => ReloadAction::Resubscribe,
        }
    }

    /// The event that a receive on the signal stream stands for: a signal, or
    /// the end of the stream where the watcher failed.
    pub open spec fn event_of(received: Result<(), WatcherError>) -> ReloadEvent {
        match received {
            Ok(_) => ReloadEvent::Signal,
            Err(_) => ReloadEvent::StreamClosed,
        }
    }

    /// An idle coordinator.
    pub fn new() -> (r: ReloadCoordinator)
        ensures
            r == (ReloadCoordinator { phase: Phase::Idle, pending: false }),
            r.wf(),
    {
        ReloadCoordinator { phase: Phase::Idle, pending: false }
    }

    /// Whether a rescan is running.
    pub fn is_reloading(&self) -> (r: bool)
        ensures
            r == (self.phase == Phase::Reloading),
    {
        match self.phase {
            Phase::Idle => false,
            Phase::Reloading => true,
        }
    }

    /// Takes what a receive on the signal stream gave and says what to do
    /// next.
    pub fn on_received(&mut self, received: Result<(), WatcherError>) -> (r: ReloadAction)
        ensures
            *final(self) == old(self).next(Self::event_of(received)),
            r == old(self).action(Self::event_of(received)),
            old(self).wf() ==> final(self).wf(),
    {
        match received {
            Ok(_) => self.step(ReloadEvent::Signal),
            Err(_) => self.step(ReloadEvent::StreamClosed),
        }
    }

    /// Takes one event and says what to do next.
    pub fn step(&mut self, event: ReloadEvent) -> (r: ReloadAction)
        ensures
            *final(self) == old(self).next(event),
            r == old(self).action(event),
            old(self).wf() ==> final(self).wf(),
    {
        match event {
            ReloadEvent::Signal => {
                match self.phase {
                    Phase::Idle => {
                        self.phase = Phase::Reloading;
                        self.pending = false;
                        ReloadAction::Rescan
                    },
                    Phase::Reloading => {
                        self.pending = true;
                        ReloadAction::Wait
                    },
                }
            },
            ReloadEvent::ReloadFinished => {
                match self.phase {
                    Phase::Idle => ReloadAction::Wait,
                    Phase::Reloading => {
                        if self.pending {
                            self.pending = false;
                            ReloadAction::Rescan
                        } else {
                            self.phase = Phase::Idle;
                            ReloadAction::Wait
                        }
                    },
                }
            },
            ReloadEvent::StreamClosed => ReloadAction::Resubscribe,
        }
    }
}

/// A rescan starts only from idle or when the running one has ended: never
/// two at a time.
pub proof fn lemma_one_reload_at_a_time(c: ReloadCoordinator, event: ReloadEvent)
    requires
        c.wf(),
        c.action(event) == ReloadAction::Rescan,
    ensures
        c.phase == Phase::Idle || event == ReloadEvent::ReloadFinished,
        c.next(event).phase == Phase::Reloading,
{
}

/// Signals that arrive while a rescan runs are folded into one, and that one
/// is not lost: when the rescan ends, another starts.
pub proof fn lemma_signal_during_reload_is_kept(c: ReloadCoordinator)
    requires
        c.wf(),
        c.phase == Phase::Reloading,
    ensures
        c.next(ReloadEvent::Signal).next(ReloadEvent::Signal) == c.next(ReloadEvent::Signal),
        c.next(ReloadEvent::Signal).action(ReloadEvent::ReloadFinished) == ReloadAction::Rescan,
        c.next(ReloadEvent::Signal).next(ReloadEvent::ReloadFinished).action(
            ReloadEvent::ReloadFinished,
        ) == ReloadAction::Wait,
        c.next(ReloadEvent::Signal).next(ReloadEvent::ReloadFinished).next(
            ReloadEvent::ReloadFinished,
        ).phase == Phase::Idle,
{
}

/// A closed stream changes no state and always asks to subscribe again.
pub proof fn lemma_closed_stream_is_survived(c: ReloadCoordinator)
    ensures
        c.next(ReloadEvent::StreamClosed) == c,
        c.action(ReloadEvent::StreamClosed) == ReloadAction::Resubscribe,
{
}

} // verus!
