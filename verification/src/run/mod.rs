//! The history of a run: its past attempts and, for each segment, the times
//! that were achieved on it.

pub mod auto_splitter_settings;

use vstd::prelude::*;

verus! {

/// A span of time, in nanoseconds.
#[derive(Clone, Copy, Debug, PartialEq, Eq)]
pub struct TimeSpan {
    pub nanoseconds: i64,
}

/// A time, measured by both timing methods. Either may be missing.
#[derive(Clone, Copy, Debug, PartialEq, Eq)]
pub struct Time {
    pub real_time: Option<TimeSpan>,
    pub game_time: Option<TimeSpan>,
}

/// One past attempt of a run. Its time is the final time, and is missing
/// where the attempt was given up before the end.
#[derive(Clone, Copy, Debug, PartialEq, Eq)]
pub struct Attempt {
    pub index: i32,
    pub time: Time,
}

/// The times achieved on one segment, each with the index of the attempt it
/// belongs to. Entries with an index of zero or below did not come from an
/// attempt: they were added by editing or importing splits.
#[derive(Clone, Debug, PartialEq, Eq)]
pub struct SegmentHistory {
    pub entries: Vec<(i32, Time)>,
}

/// One segment of a run.
#[derive(Clone, Debug, PartialEq, Eq)]
pub struct Segment {
    pub segment_history: SegmentHistory,
}

/// A run: the number of attempts started so far, the attempts on record and
/// the segments.
#[derive(Clone, Debug, PartialEq, Eq)]
pub struct Run {
    pub attempt_count: u32,
    pub attempt_history: Vec<Attempt>,
    pub segments: Vec<Segment>,
}

impl Attempt {
    /// Whether the attempt reached the end of the run.
    pub open spec fn is_completed(self) -> bool {
        self.time.real_time is Some
    }
}

/// Whether an entry of a segment history was recorded during an attempt.
pub open spec fn is_actual_run(entry: (i32, Time)) -> bool {
    entry.0 > 0
}

impl SegmentHistory {
    /// The entries that were recorded during an attempt, in order.
    pub open spec fn actual_runs(&self) -> Seq<(i32, Time)> {
        self.entries@.filter(|entry: (i32, Time)| is_actual_run(entry))
    }

    /// Counts the entries that were recorded during an attempt.
    pub fn actual_run_count(&self) -> (count: usize)
        ensures
            count == self.actual_runs().len(),
    {
        let mut count: usize = 0;
        let mut i: usize = 0;
        while i < self.entries.len()
            invariant
                i <= self.entries.len(),
                count <= i,
                count == self.entries@.take(i as int).filter(
                    |entry: (i32, Time)| is_actual_run(entry),
                ).len(),
            decreases self.entries.len() - i,
        {
            proof {
                lemma_filter_take_next(
                    self.entries@,
                    |entry: (i32, Time)| is_actual_run(entry),
                    i as int,
                );
            }
            if self.entries[i].0 > 0 {
                count = count + 1;
            }
            i = i + 1;
        }
        assert(self.entries@.take(i as int) == self.entries@);
        count
    }
}

impl Run {
    /// The attempts on record that reached the end of the run, in order.
    pub open spec fn completed_attempts(&self) -> Seq<Attempt> {
        self.attempt_history@.filter(|attempt: Attempt| attempt.is_completed())
    }

    /// The number of times the segment at `index` was completed during an
    /// attempt.
    pub open spec fn segment_completions(&self, index: int) -> nat
        recommends
            0 <= index < self.segments@.len(),
    {
        self.segments@[index].segment_history.actual_runs().len()
    }

    /// The counts are held in 32 bits: a history is within bounds when each
    /// of them fits, with room for the attempt in progress.
    pub open spec fn within_bounds(&self) -> bool {
        &&& self.completed_attempts().len() < u32::MAX
        &&& forall|i: int|
            0 <= i < self.segments@.len() ==> #[trigger] self.segment_completions(i) <= u32::MAX
    }

    /// Counts the attempts on record that reached the end of the run.
    pub fn completed_attempt_count(&self) -> (count: usize)
        ensures
            count == self.completed_attempts().len(),
    {
        let mut count: usize = 0;
        let mut i: usize = 0;
        while i < self.attempt_history.len()
            invariant
                i <= self.attempt_history.len(),
                count <= i,
                count == self.attempt_history@.take(i as int).filter(
                    |attempt: Attempt| attempt.is_completed(),
                ).len(),
            decreases self.attempt_history.len() - i,
        {
            proof {
                lemma_filter_take_next(
                    self.attempt_history@,
                    |attempt: Attempt| attempt.is_completed(),
                    i as int,
                );
            }
            if self.attempt_history[i].time.real_time.is_some() {
                count = count + 1;
            }
            i = i + 1;
        }
        assert(self.attempt_history@.take(i as int) == self.attempt_history@);
        count
    }

    /// Whether the history is within bounds.
    pub fn is_within_bounds(&self) -> (within: bool)
        ensures
            within == self.within_bounds(),
    {
        if self.completed_attempt_count() >= u32::MAX as usize {
            return false;
        }
        let mut i: usize = 0;
        while i < self.segments.len()
            invariant
                i <= self.segments.len(),
                forall|j: int| 0 <= j < i ==> #[trigger] self.segment_completions(j) <= u32::MAX,
            decreases self.segments.len() - i,
        {
            if self.segments[i].segment_history.actual_run_count() > u32::MAX as usize {
                assert(self.segment_completions(i as int) > u32::MAX);
                return false;
            }
            i = i + 1;
        }
        true
    }

    /// A history is consistent when no count exceeds the count before it:
    /// an attempt that completed a segment had completed the one before, and
    /// had been started.
    pub open spec fn consistent(&self) -> bool {
        &&& self.completed_attempts().len() <= self.attempt_count
        &&& self.segments@.len() > 0 ==> self.segment_completions(0) <= self.attempt_count
        &&& forall|i: int|
            0 < i < self.segments@.len() ==> #[trigger] self.segment_completions(i)
                <= self.segment_completions(i - 1)
    }

    /// Whether the history is consistent.
    pub fn is_consistent(&self) -> (consistent: bool)
        ensures
            consistent == self.consistent(),
    {
        if self.completed_attempt_count() > self.attempt_count as usize {
            return false;
        }
        if self.segments.len() == 0 {
            return true;
        }
        let mut previous = self.segments[0].segment_history.actual_run_count();
        if previous > self.attempt_count as usize {
            return false;
        }
        let mut i: usize = 1;
        while i < self.segments.len()
            invariant
                1 <= i <= self.segments.len(),
                previous == self.segment_completions(i - 1),
                forall|j: int|
                    0 < j < i ==> #[trigger] self.segment_completions(j) <= self.segment_completions(
                        j - 1,
                    ),
            decreases self.segments.len() - i,
        {
            let current = self.segments[i].segment_history.actual_run_count();
            if current > previous {
                assert(self.segment_completions(i as int) > self.segment_completions(i - 1));
                return false;
            }
            previous = current;
            i = i + 1;
        }
        true
    }
}

/// Filtering one element more of a sequence keeps or drops that element.
proof fn lemma_filter_take_next<A>(s: Seq<A>, pred: spec_fn(A) -> bool, i: int)
    requires
        0 <= i < s.len(),
    ensures
        s.take(i + 1).filter(pred) == if pred(s[i]) {
            s.take(i).filter(pred).push(s[i])
        } else {
            s.take(i).filter(pred)
        },
        s.take(i).filter(pred).len() <= i,
{
    reveal(Seq::filter);
    assert(s.take(i + 1).drop_last() == s.take(i));
    s.take(i).lemma_filter_len(pred);
}

} // verus!
