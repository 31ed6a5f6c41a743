use tungsten_workspace::lifecycle::{
    answer_quit, begin_quit, window_should_close, window_to_close, PromptOutcome, QuitStep,
};

#[test]
fn quitting_asks_first_when_a_window_can_ask() {
    assert_eq!(begin_quit(true, 1), QuitStep::AskConfirmation);
    assert_eq!(begin_quit(true, 0), QuitStep::Quit);
    assert_eq!(begin_quit(false, 3), QuitStep::Quit);
}

#[test]
fn only_the_affirmative_answer_quits() {
    assert_eq!(answer_quit(PromptOutcome::Answered(0)), QuitStep::Quit);
    assert_eq!(answer_quit(PromptOutcome::Answered(1)), QuitStep::Stay);
    assert_eq!(answer_quit(PromptOutcome::Dismissed), QuitStep::Stay);
    assert_eq!(answer_quit(PromptOutcome::NotShown), QuitStep::Quit);
}

#[test]
fn a_live_workspace_vetoes_an_immediate_close() {
    assert!(!window_should_close(true));
    assert!(window_should_close(false));
}

#[test]
fn the_global_close_picks_the_first_focused_window() {
    assert_eq!(window_to_close(&vec![false, true, true]), Some(1));
    assert_eq!(window_to_close(&vec![false, false]), None);
    assert_eq!(window_to_close(&vec![]), None);
}
