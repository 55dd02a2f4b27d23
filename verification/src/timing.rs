//! What a timer shows at one moment.

use crate::run::Run;
use vstd::prelude::*;

verus! {

/// The phase a timer is in.
#[derive(Clone, Copy, Debug, PartialEq, Eq, Structural)]
pub enum TimerPhase {
    /// There is no active attempt.
    NotRunning,
    /// There is an active attempt and the timer is running.
    Running,
    /// The attempt has just been finished; it is not yet part of the history.
    Ended,
    /// There is an active attempt that is paused.
    Paused,
}

/// A timer at one moment: its phase, the split it is on, and the run with its
/// history.
#[derive(Clone, Debug, PartialEq, Eq)]
pub struct Snapshot {
    pub phase: TimerPhase,
    pub current_split_index: Option<usize>,
    pub run: Run,
}

impl Snapshot {
    /// The split that an active attempt is on: the current split index, or
    /// the first split where none is set.
    pub open spec fn cursor(&self) -> int {
        match self.current_split_index {
            Some(index) => index as int,
            None => 0,
        }
    }

    /// Whether the timer is in an active attempt.
    pub open spec fn is_active(&self) -> bool {
        self.phase == TimerPhase::Running || self.phase == TimerPhase::Paused
    }

    /// A snapshot is well formed when an active attempt is on a segment of
    /// the run and the history is within bounds.
    pub open spec fn wf(&self) -> bool {
        &&& self.run.within_bounds()
        &&& self.is_active() ==> self.cursor() < self.run.segments@.len()
    }

    /// Whether the snapshot is well formed.
    pub fn is_well_formed(&self) -> (well_formed: bool)
        ensures
            well_formed == self.wf(),
    {
        let cursor = match self.current_split_index {
            Some(index) => index,
            None => 0,
        };
        let active = self.phase == TimerPhase::Running || self.phase == TimerPhase::Paused;
        (!active || cursor < self.run.segments.len()) && self.run.is_within_bounds()
    }
}

} // verus!
