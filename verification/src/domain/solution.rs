//! The outcome of an attempt.

use vstd::prelude::*;
use crate::domain::recording::Recording;
use crate::time::Duration;

verus! {

/// The outcome of an attempt: whether the target was reached, how long the
/// attempt took, and the recording of it where there is one.
#[derive(Debug)]
pub struct Solution {
    completed: bool,
    elapsed_time: Duration,
    recording: Option<Recording>,
}

impl Solution {
    /// Whether the target was reached.
    pub closed spec fn completed_spec(&self) -> bool {
        self.completed
    }

    /// How long the attempt took.
    pub closed spec fn elapsed(&self) -> Duration {
        self.elapsed_time
    }

    /// The recording of the attempt.
    pub closed spec fn recording_spec(&self) -> Option<Recording> {
        self.recording
    }

    /// The keystrokes of the attempt: the number of keys of its recording,
    /// unknown without one.
    pub open spec fn keystrokes(&self) -> Option<nat> {
        match self.recording_spec() {
            Some(recording) => Some(recording.keys().len()),
            None => None,
        }
    }

    /// A completed attempt that took `elapsed_time`, with no recording.
    pub fn completed(elapsed_time: Duration) -> (solution: Self)
        ensures
            solution.completed_spec(),
            solution.elapsed() == elapsed_time,
            solution.recording_spec() is None,
    {
        Solution { completed: true, elapsed_time, recording: None }
    }

    /// An attempt that took `elapsed_time` and was not completed, with no
    /// recording.
    pub fn incomplete(elapsed_time: Duration) -> (solution: Self)
        ensures
            !solution.completed_spec(),
            solution.elapsed() == elapsed_time,
            solution.recording_spec() is None,
    {
        Solution { completed: false, elapsed_time, recording: None }
    }

    /// The outcome with the recording attached.
    pub fn with_recording(self, recording: Recording) -> (solution: Self)
        ensures
            solution.completed_spec() == self.completed_spec(),
            solution.elapsed() == self.elapsed(),
            solution.recording_spec() == Some(recording),
    {
        let mut solution = self;
        solution.recording = Some(recording);
        solution
    }

    /// Whether the target was reached.
    pub fn is_completed(&self) -> (completed: bool)
        ensures
            completed == self.completed_spec(),
    {
        self.completed
    }

    /// How long the attempt took, in whole seconds.
    pub fn elapsed_seconds(&self) -> (secs: u64)
        ensures
            secs == self.elapsed().secs,
    {
        self.elapsed_time.as_secs()
    }

    /// How long the attempt took.
    pub fn elapsed_time(&self) -> (elapsed: Duration)
        ensures
            elapsed == self.elapsed(),
    {
        self.elapsed_time
    }

    /// The recording of the attempt, where there is one.
    pub fn recording(&self) -> (recording: Option<&Recording>)
        ensures
            recording is Some <==> self.recording_spec() is Some,
            recording is Some ==> *recording->0 == self.recording_spec()->0,
    {
        self.recording.as_ref()
    }
}

impl Clone for Solution {
    fn clone(&self) -> (copy: Self)
        ensures
            copy.completed_spec() == self.completed_spec(),
            copy.elapsed() == self.elapsed(),
            copy.keystrokes() == self.keystrokes(),
    {
        Solution {
            completed: self.completed,
            elapsed_time: self.elapsed_time,
            recording: match &self.recording {
                Some(recording) => Some(recording.clone()),
                None => None,
            },
        }
    }
}

} // verus!
