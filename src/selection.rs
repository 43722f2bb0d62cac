//! What to do with the operator's answer to the selection prompt.

use vstd::prelude::*;

verus! {

/// How the selection prompt ended.
#[derive(Clone, Copy, Debug, PartialEq, Eq, Structural)]
pub enum PromptOutcome {
    /// The operator chose the process with this id.
    Chosen(u32),
    /// The operator cancelled the prompt.
    Canceled,
    /// The prompt was interrupted.
    Interrupted,
    /// The prompt failed.
    Failed,
}

/// What follows an answer of the prompt.
#[derive(Clone, Copy, Debug, PartialEq, Eq, Structural)]
pub enum Reaction {
    /// Send the termination signal to this process id.
    Terminate(u32),
    /// Do nothing and report nothing.
    Nothing,
    /// Tell the operator that something went wrong and to try again.
    ReportFailure,
}

/// The interactive tool: lists processes with their listening ports and
/// terminates the one the operator picks.
pub struct App {}

impl App {
    /// A new session.
    pub fn new() -> (r: App) {
        App {}
    }

    /// The reaction to an answer of the prompt: the chosen process is
    /// terminated, a cancelled or interrupted prompt is no error, and a
    /// failed prompt is reported.
    pub fn reaction(&self, outcome: PromptOutcome) -> (r: Reaction)
        ensures
            r == match outcome {
                PromptOutcome::Chosen(pid) => Reaction::Terminate(pid),
                PromptOutcome::Canceled | PromptOutcome::Interrupted => Reaction::Nothing,
                PromptOutcome::Failed => Reaction::ReportFailure,
            },
    {
        match outcome {
            PromptOutcome::Chosen(pid) => Reaction::Terminate(pid),
            PromptOutcome::Canceled | PromptOutcome::Interrupted => Reaction::Nothing,
            PromptOutcome::Failed => Reaction::ReportFailure,
        }
    }
}

} // verus!
