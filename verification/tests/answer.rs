use shelldon::command::ask::{handle_ask, start_answer, AskAction, AskArgs, AskEvent, AskState};
use shelldon::command::CommonArgs;

fn args(copy: bool) -> AskArgs {
    AskArgs {
        common: CommonArgs {
            model: "gpt-4o".to_string(),
            temperature: 0,
            copy,
            prompt: None,
            set: Vec::new(),
            input: "why is the sky blue".to_string(),
        },
    }
}

fn fragment(text: &str) -> AskEvent {
    AskEvent::Fragment(text.to_string())
}

#[test]
fn the_answer_starts_empty() {
    assert_eq!(start_answer(), AskState::Streaming { answer: String::new() });
}

#[test]
fn each_fragment_is_printed_and_kept() {
    let args = args(false);
    let (state, action) = handle_ask(&args, start_answer(), fragment("The sky"));
    assert_eq!(action, AskAction::Print { text: "The sky".to_string() });
    assert_eq!(state, AskState::Streaming { answer: "The sky".to_string() });
    let (state, action) = handle_ask(&args, state, fragment(""));
    assert_eq!(action, AskAction::Print { text: "".to_string() });
    let (state, action) = handle_ask(&args, state, fragment(" is blue."));
    assert_eq!(action, AskAction::Print { text: " is blue.".to_string() });
    assert_eq!(state, AskState::Streaming { answer: "The sky is blue.".to_string() });
}

#[test]
fn the_whole_answer_goes_to_the_clipboard_when_asked() {
    let args = args(true);
    let mut state = start_answer();
    for text in ["a", "b", "", "cd"] {
        state = handle_ask(&args, state, fragment(text)).0;
    }
    let (state, action) = handle_ask(&args, state, AskEvent::End);
    assert_eq!(state, AskState::Done);
    assert_eq!(action, AskAction::Close { copy: Some("abcd".to_string()) });
}

#[test]
fn nothing_is_copied_unless_asked() {
    let args = args(false);
    let (state, _) = handle_ask(&args, start_answer(), fragment("text"));
    let (state, action) = handle_ask(&args, state, AskEvent::End);
    assert_eq!(state, AskState::Done);
    assert_eq!(action, AskAction::Close { copy: None });
}

#[test]
fn an_empty_answer_is_closed_too() {
    let (state, action) = handle_ask(&args(true), start_answer(), AskEvent::End);
    assert_eq!(state, AskState::Done);
    assert_eq!(action, AskAction::Close { copy: Some(String::new()) });
}

#[test]
fn nothing_happens_after_the_end() {
    let args = args(true);
    let (state, action) = handle_ask(&args, AskState::Done, fragment("late"));
    assert_eq!(state, AskState::Done);
    assert_eq!(action, AskAction::Nothing);
    let (state, action) = handle_ask(&args, state, AskEvent::End);
    assert_eq!(state, AskState::Done);
    assert_eq!(action, AskAction::Nothing);
}
