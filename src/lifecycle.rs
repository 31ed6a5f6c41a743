use vstd::prelude::*;

verus! {

/// What the quit flow does next.
#[derive(Clone, Copy, Debug, PartialEq, Eq, Structural)]
pub enum QuitStep {
    /// Ask the user to confirm, and wait for the answer.
    AskConfirmation,
    /// End the process.
    Quit,
    /// Keep running.
    Stay,
}

/// How the quit confirmation prompt ended.
#[derive(Clone, Copy, Debug, PartialEq, Eq, Structural)]
pub enum PromptOutcome {
    /// No window could show the prompt.
    NotShown,
    /// The user picked the option at this index ("Quit" is the first).
    Answered(usize),
    /// The prompt went away without an answer.
    Dismissed,
}

/// The first step of quitting: ask for confirmation when it is wanted and a
/// workspace window can show the prompt, else quit at once.
pub fn begin_quit(should_confirm: bool, workspace_windows: usize) -> (r: QuitStep)
    ensures
        r == (if should_confirm && workspace_windows > 0 {
            QuitStep::AskConfirmation
        } else {
            QuitStep::Quit
        }),
{
    if should_confirm && workspace_windows > 0 {
        QuitStep::AskConfirmation
    } else {
        QuitStep::Quit
    }
}

/// The step after the confirmation prompt: quit when the affirmative option
/// was picked or no prompt could be shown; stay otherwise.
pub fn answer_quit(outcome: PromptOutcome) -> (r: QuitStep)
    ensures
        r == (if outcome == PromptOutcome::NotShown || outcome == PromptOutcome::Answered(0) {
            QuitStep::Quit
        } else {
            QuitStep::Stay
        }),
{
    match outcome {
        PromptOutcome::NotShown => QuitStep::Quit,
        PromptOutcome::Answered(0) => QuitStep::Quit,
        _ => QuitStep::Stay,
    }
}

/// Whether a window asked to close may close at once: only when its
/// workspace is gone. A live workspace vetoes and schedules the window's
/// removal itself.
pub fn window_should_close(workspace_alive: bool) -> (close_now: bool)
    ensures
        close_now == !workspace_alive,
{
    !workspace_alive
}

/// The window that the global close action closes: the first one that
/// holds input focus (`active[i]`), if any.
pub fn window_to_close(active: &Vec<bool>) -> (r: Option<usize>)
    ensures
        match r {
            Some(i) => i < active@.len() && active@[i as int] && forall|j: int|
                0 <= j < i ==> !active@[j],
            None => forall|j: int| 0 <= j < active@.len() ==> !active@[j],
        },
{
    let mut i: usize = 0;
    while i < active.len()
        invariant
            i <= active.len(),
            forall|j: int| 0 <= j < i ==> !active@[j],
        decreases active.len() - i,
    {
        if active[i] {
            return Some(i);
        }
        i += 1;
    }
    None
}

} // verus!
