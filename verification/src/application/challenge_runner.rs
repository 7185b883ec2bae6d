//! The decisions of a challenge run. The run itself waits for the editor and
//! for changes of the file; what to make of each thing that happens is
//! decided here.

use vstd::prelude::*;
use vstd::string::*;
use crate::application::validator::{SolutionValidator, normalized};
use crate::domain::recording::Recording;
use crate::domain::solution::Solution;
use crate::time::Duration;

verus! {

/// What can happen while a challenge runs.
#[derive(Debug)]
pub enum RunEvent {
    /// The editor is no longer running.
    EditorExited,
    /// The file was changed, and this is what it holds now.
    FileChanged(String),
    /// Nothing happened since the last look.
    Nothing,
}

/// What the run does next.
#[derive(Debug, Clone, Copy, PartialEq, Eq, Structural)]
pub enum RunStep {
    /// Wait on.
    KeepWaiting,
    /// Stop; the challenge is completed or not.
    Finish { completed: bool },
}

/// What a run does after an event: it stops without completion when the
/// editor has exited, it stops with completion when the file has come to
/// match the target, and it waits on in every other case.
pub open spec fn step_after(event: RunEvent, target: Seq<char>) -> RunStep {
    match event {
        RunEvent::EditorExited => RunStep::Finish { completed: false },
        RunEvent::FileChanged(content) => if normalized(content@) == normalized(target) {
            RunStep::Finish { completed: true }
        } else {
            RunStep::KeepWaiting
        },
        RunEvent::Nothing => RunStep::KeepWaiting,
    }
}

/// What a run does after an event, for the challenge with the target
/// `target`.
pub fn decide_step(validator: &SolutionValidator, event: &RunEvent, target: &str) -> (step: RunStep)
    ensures
        step == step_after(*event, target@),
{
    match event {
        RunEvent::EditorExited => RunStep::Finish { completed: false },
        RunEvent::FileChanged(content) => {
            if validator.is_valid(content.as_str(), target) {
                RunStep::Finish { completed: true }
            } else {
                RunStep::KeepWaiting
            }
        },
        RunEvent::Nothing => RunStep::KeepWaiting,
    }
}

/// The outcome of a run that has stopped: completed or not, with the time
/// that it took and the recording, where one was made and could be read.
pub fn build_solution(completed: bool, elapsed: Duration, recording: Option<Recording>) -> (solution: Solution)
    ensures
        solution.completed_spec() == completed,
        solution.elapsed() == elapsed,
        solution.recording_spec() == recording,
{
    let solution = if completed {
        Solution::completed(elapsed)
    } else {
        Solution::incomplete(elapsed)
    };
    match recording {
        Some(recording) => solution.with_recording(recording),
        None => solution,
    }
}

} // verus!
