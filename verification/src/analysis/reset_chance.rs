//! Counts the attempts that reached the current split and those that went on
//! to complete it. Where there is no active attempt, the counts are those of
//! the whole run.

use crate::run::Run;
use crate::timing::{Snapshot, TimerPhase};
use vstd::prelude::*;

verus! {

/// The counts behind a chance: of `total_attempts` that got that far,
/// `successful_attempts` went on.
#[derive(Clone, Copy, Debug, PartialEq, Eq, Structural)]
pub struct SuccessCounts {
    /// The number of attempts which completed the split, or the run.
    pub successful_attempts: u32,
    /// The number of attempts which reached the split, or the number of
    /// attempts of the run.
    pub total_attempts: u32,
}

impl Default for SuccessCounts {
    fn default() -> (counts: Self)
        ensures
            counts.successful_attempts == 0,
            counts.total_attempts == 0,
    {
        SuccessCounts { successful_attempts: 0, total_attempts: 0 }
    }
}

impl SuccessCounts {
    /// Whether no more attempts succeeded than there were.
    pub open spec fn is_bounded(&self) -> bool {
        self.successful_attempts <= self.total_attempts
    }
}

/// Counts the attempts of the run that reached its end.
pub fn total_successful_attempts(run: &Run) -> (count: u32)
    requires
        run.completed_attempts().len() <= u32::MAX,
    ensures
        count == run.completed_attempts().len(),
{
    let count = run.completed_attempt_count();
    count as u32
}

/// The number of attempts that count as successful for the snapshot: during
/// an attempt, those that completed the current split; after the end of one,
/// the completed attempts on record and the one just finished; with no
/// attempt, the completed attempts on record.
pub open spec fn successful_attempts(timer: &Snapshot) -> nat {
    match timer.phase {
        TimerPhase::Running | TimerPhase::Paused => timer.run.segment_completions(timer.cursor()),
        TimerPhase::Ended => 1 + timer.run.completed_attempts().len(),
        TimerPhase::NotRunning => timer.run.completed_attempts().len(),
    }
}

/// The number of attempts that the successful ones are taken from: during an
/// attempt, those that completed the split before the current one, and every
/// attempt of the run where the current split is the first; after the end of
/// one, the same as the successful ones; with no attempt, every attempt of the
/// run.
pub open spec fn total_attempts(timer: &Snapshot) -> nat {
    match timer.phase {
        TimerPhase::Running | TimerPhase::Paused => if timer.cursor() == 0 {
            timer.run.attempt_count as nat
        } else {
            timer.run.segment_completions(timer.cursor() - 1)
        },
        TimerPhase::Ended => 1 + timer.run.completed_attempts().len(),
        TimerPhase::NotRunning => timer.run.attempt_count as nat,
    }
}

/// The success counts of a snapshot.
pub open spec fn success_counts(timer: &Snapshot) -> SuccessCounts {
    SuccessCounts {
        successful_attempts: successful_attempts(timer) as u32,
        total_attempts: total_attempts(timer) as u32,
    }
}

/// Calculates the success counts for a snapshot. During an attempt these are
/// the counts for the current split rather than for the whole run.
pub fn calculate(timer: &Snapshot) -> (counts: SuccessCounts)
    requires
        timer.wf(),
    ensures
        counts.successful_attempts == successful_attempts(timer),
        counts.total_attempts == total_attempts(timer),
        counts == success_counts(timer),
        timer.run.consistent() ==> counts.is_bounded(),
{
    let run = &timer.run;
    match timer.phase {
        TimerPhase::Running | TimerPhase::Paused => {
            let current_index = match timer.current_split_index {
                Some(index) => index,
                None => 0,
            };
            let total_attempts = if current_index == 0 {
                run.attempt_count
            } else {
                run.segments[current_index - 1].segment_history.actual_run_count() as u32
            };
            let successful_attempts =
                run.segments[current_index].segment_history.actual_run_count() as u32;
            SuccessCounts { successful_attempts, total_attempts }
        },
        TimerPhase::Ended => {
            let count = 1 + total_successful_attempts(run);
            SuccessCounts { successful_attempts: count, total_attempts: count }
        },
        TimerPhase::NotRunning => SuccessCounts {
            successful_attempts: total_successful_attempts(run),
            total_attempts: run.attempt_count,
        },
    }
}

/// In a consistent history no more attempts succeeded than there were,
/// whatever the phase of the timer.
pub proof fn lemma_counts_bounded(timer: &Snapshot)
    requires
        timer.wf(),
        timer.run.consistent(),
    ensures
        successful_attempts(timer) <= total_attempts(timer),
        success_counts(timer).is_bounded(),
{
    if timer.is_active() {
        if timer.cursor() > 0 {
        }
    }
}

} // verus!
