use shelldon::command::exec::{
    handle_exec, outcome, parse_decision, prompt_action_for_cmd, replace_text, shell_prompt,
    ConfirmationDecision, Effect, ExecArgs, LoopEvent, LoopState, ABORT, COPY, MODIFY, RUN,
    SHELL_PROMPT,
};
use shelldon::command::CommonArgs;
use shelldon::error::Error;

fn args(run: bool) -> ExecArgs {
    ExecArgs {
        common: CommonArgs {
            model: "gpt-4o".to_string(),
            temperature: 0,
            copy: false,
            prompt: None,
            set: Vec::new(),
            input: "list files".to_string(),
        },
        run,
    }
}

fn awaiting(command: &str) -> LoopState {
    LoopState::Awaiting { command: command.to_string() }
}

fn answered(answer: &str) -> LoopEvent {
    LoopEvent::Answered(answer.to_string())
}

/// Feeds the events to the loop and returns the last state with every
/// command that was handed to the shell.
fn drive(start: LoopState, events: Vec<LoopEvent>) -> (LoopState, Vec<String>) {
    let mut state = start;
    let mut executed = Vec::new();
    for event in events {
        let (next, effect) = prompt_action_for_cmd(state, event);
        if let Some(Effect::Execute { command }) = effect {
            executed.push(command);
        }
        state = next;
    }
    (state, executed)
}

#[test]
fn the_answers_are_single_letters() {
    assert_eq!(RUN, "r");
    assert_eq!(MODIFY, "m");
    assert_eq!(COPY, "c");
    assert_eq!(ABORT, "a");
}

#[test]
fn each_letter_spells_its_decision_in_either_case() {
    assert_eq!(parse_decision("r"), Some(ConfirmationDecision::Run));
    assert_eq!(parse_decision("R"), Some(ConfirmationDecision::Run));
    assert_eq!(parse_decision("m"), Some(ConfirmationDecision::Modify));
    assert_eq!(parse_decision("M"), Some(ConfirmationDecision::Modify));
    assert_eq!(parse_decision("c"), Some(ConfirmationDecision::Copy));
    assert_eq!(parse_decision("C"), Some(ConfirmationDecision::Copy));
    assert_eq!(parse_decision("a"), Some(ConfirmationDecision::Abort));
    assert_eq!(parse_decision("A"), Some(ConfirmationDecision::Abort));
}

#[test]
fn other_answers_spell_no_decision() {
    for answer in ["", "x", "run", "rr", " r", "r ", "1", "é", "yes"] {
        assert_eq!(parse_decision(answer), None);
    }
}

#[test]
fn decisions_agree_with_lower_casing() {
    for answer in ["r", "R", "m", "M", "c", "C", "a", "A", "x", "K", "İ", "ſ", "", "Rm"] {
        let lowered = answer.to_lowercase();
        let legal = [RUN, MODIFY, COPY, ABORT].contains(&lowered.as_str());
        assert_eq!(parse_decision(answer).is_some(), legal);
    }
}

#[test]
fn the_loop_starts_by_asking() {
    let (state, effect) = handle_exec(&args(false), "ls -la".to_string());
    assert_eq!(state, awaiting("ls -la"));
    assert_eq!(effect, None);
    assert_eq!(outcome(&state), None);
}

#[test]
fn the_run_flag_sends_the_command_to_the_shell_at_once() {
    let (state, effect) = handle_exec(&args(true), "ls -la".to_string());
    assert_eq!(state, LoopState::Running { command: "ls -la".to_string() });
    assert_eq!(effect, Some(Effect::Execute { command: "ls -la".to_string() }));
    let (state, effect) = prompt_action_for_cmd(state, LoopEvent::Exited { success: true });
    assert_eq!(state, LoopState::Ran);
    assert_eq!(effect, None);
    assert_eq!(outcome(&state), Some(Ok(())));
}

#[test]
fn run_executes_the_command_once() {
    let (state, executed) =
        drive(awaiting("ls -la"), vec![answered("r"), LoopEvent::Exited { success: true }]);
    assert_eq!(executed, vec!["ls -la".to_string()]);
    assert_eq!(state, LoopState::Ran);
    assert_eq!(outcome(&state), Some(Ok(())));
}

#[test]
fn a_failing_command_fails_the_loop() {
    let (state, executed) =
        drive(awaiting("false"), vec![answered("R"), LoopEvent::Exited { success: false }]);
    assert_eq!(executed, vec!["false".to_string()]);
    assert_eq!(
        outcome(&state),
        Some(Err(Error::CommandFailed { command: "false".to_string() }))
    );
}

#[test]
fn modify_then_run_executes_the_edited_text() {
    let (state, effect) = handle_exec(&args(false), "ls -la".to_string());
    assert_eq!(effect, None);
    let (state, effect) = prompt_action_for_cmd(state, answered("m"));
    assert_eq!(state, LoopState::Editing { command: "ls -la".to_string() });
    assert_eq!(effect, Some(Effect::Edit { command: "ls -la".to_string() }));
    let (state, effect) =
        prompt_action_for_cmd(state, LoopEvent::Edited(Some("ls -la | wc -l".to_string())));
    assert_eq!(state, awaiting("ls -la | wc -l"));
    assert_eq!(effect, None);
    let (state, effect) = prompt_action_for_cmd(state, answered("r"));
    assert_eq!(state, LoopState::Running { command: "ls -la | wc -l".to_string() });
    assert_eq!(effect, Some(Effect::Execute { command: "ls -la | wc -l".to_string() }));

    let (succeeded, _) = prompt_action_for_cmd(state.clone(), LoopEvent::Exited { success: true });
    assert_eq!(outcome(&succeeded), Some(Ok(())));
    let (failed, _) = prompt_action_for_cmd(state, LoopEvent::Exited { success: false });
    assert_eq!(
        outcome(&failed),
        Some(Err(Error::CommandFailed { command: "ls -la | wc -l".to_string() }))
    );
}

#[test]
fn many_edits_before_run_execute_only_the_last_text() {
    let mut events = Vec::new();
    for round in 0..25 {
        events.push(answered(if round % 2 == 0 { "m" } else { "M" }));
        events.push(LoopEvent::Edited(Some(format!("echo {}", round))));
    }
    events.push(answered("r"));
    events.push(LoopEvent::Exited { success: true });
    let (state, executed) = drive(awaiting("echo start"), events);
    assert_eq!(executed, vec!["echo 24".to_string()]);
    assert_eq!(state, LoopState::Ran);
}

#[test]
fn copy_never_executes() {
    let (state, effect) = prompt_action_for_cmd(awaiting("rm -rf build"), answered("c"));
    assert_eq!(state, LoopState::Copying { command: "rm -rf build".to_string() });
    assert_eq!(effect, Some(Effect::Copy { command: "rm -rf build".to_string() }));
    let (state, executed) = drive(state, vec![LoopEvent::CopyDone, answered("r")]);
    assert_eq!(executed, Vec::<String>::new());
    assert_eq!(state, LoopState::Copied);
    assert_eq!(outcome(&state), Some(Ok(())));
}

#[test]
fn abort_never_executes() {
    let (state, executed) = drive(
        awaiting("rm -rf build"),
        vec![answered("a"), answered("r"), LoopEvent::Exited { success: true }],
    );
    assert_eq!(executed, Vec::<String>::new());
    assert_eq!(state, LoopState::Aborted);
    assert_eq!(outcome(&state), Some(Ok(())));
}

#[test]
fn closing_the_editor_without_a_text_ends_the_loop() {
    let (state, executed) =
        drive(awaiting("ls"), vec![answered("m"), LoopEvent::Edited(None), answered("r")]);
    assert_eq!(executed, Vec::<String>::new());
    assert_eq!(state, LoopState::Aborted);
    assert_eq!(outcome(&state), Some(Ok(())));
}

#[test]
fn an_illegal_answer_is_asked_for_again() {
    let (state, effect) = prompt_action_for_cmd(awaiting("ls"), answered("yes"));
    assert_eq!(state, awaiting("ls"));
    assert_eq!(effect, None);
    assert_eq!(outcome(&state), None);
    let (state, executed) = drive(
        state,
        vec![answered(""), answered("q"), answered("r"), LoopEvent::Exited { success: true }],
    );
    assert_eq!(executed, vec!["ls".to_string()]);
    assert_eq!(state, LoopState::Ran);
}

#[test]
fn events_that_answer_nothing_change_nothing() {
    let states = vec![
        awaiting("ls"),
        LoopState::Editing { command: "ls".to_string() },
        LoopState::Running { command: "ls".to_string() },
        LoopState::Copying { command: "ls".to_string() },
        LoopState::Ran,
        LoopState::Failed { error: Error::CommandFailed { command: "ls".to_string() } },
        LoopState::Copied,
        LoopState::Aborted,
    ];
    for state in states {
        let fits = |event: &LoopEvent| {
            matches!(
                (&state, event),
                (LoopState::Awaiting { .. }, LoopEvent::Answered(_))
                    | (LoopState::Editing { .. }, LoopEvent::Edited(_))
                    | (LoopState::Running { .. }, LoopEvent::Exited { .. })
                    | (LoopState::Copying { .. }, LoopEvent::CopyDone)
            )
        };
        let events = vec![
            answered("r"),
            LoopEvent::Edited(Some("other".to_string())),
            LoopEvent::Edited(None),
            LoopEvent::Exited { success: true },
            LoopEvent::Exited { success: false },
            LoopEvent::CopyDone,
        ];
        for event in events {
            if !fits(&event) {
                let (next, effect) = prompt_action_for_cmd(state.clone(), event);
                assert_eq!(next, state);
                assert_eq!(effect, None);
            }
        }
    }
}

#[test]
fn the_loop_is_under_way_until_it_has_ended() {
    assert_eq!(outcome(&awaiting("ls")), None);
    assert_eq!(outcome(&LoopState::Editing { command: "ls".to_string() }), None);
    assert_eq!(outcome(&LoopState::Running { command: "ls".to_string() }), None);
    assert_eq!(outcome(&LoopState::Copying { command: "ls".to_string() }), None);
}

#[test]
fn every_occurrence_is_replaced() {
    assert_eq!(replace_text("a{x}b{x}", "{x}", "1"), "a1b1");
    assert_eq!(replace_text("aaa", "aa", "b"), "ba");
    assert_eq!(replace_text("abc", "abcd", "x"), "abc");
    assert_eq!(replace_text("abc", "abc", ""), "");
    assert_eq!(replace_text("", "a", "b"), "");
    assert_eq!(replace_text("ééé", "é", "ee"), "eeeeee");
    assert_eq!(replace_text("x", "x", "xx"), "xx");
    assert_eq!(replace_text("abc", "", "-"), "abc");
}

#[test]
fn replacing_agrees_with_the_standard_library() {
    let texts = ["", "abab", "aaaa", "{shell} {os}", "xx{osos}", "ünï{os}cödé"];
    let froms = ["a", "ab", "aa", "{os}", "{shell}", "os", "ï"];
    let tos = ["", "a", "zsh", "{os}"];
    for text in texts {
        for from in froms {
            for to in tos {
                assert_eq!(replace_text(text, from, to), text.replace(from, to));
            }
        }
    }
}

#[test]
fn the_shell_instruction_names_shell_and_system() {
    let expected = "Let's think step by step and act as /bin/zsh expert for linux.\n\
Provide only /bin/zsh commands without any descriptions.\n\
If details are insufficient, provide the most logical solution.\n\
Ensure the output is a valid shell command.\n\
If multiple steps are required, combine them using &&.\n\
Do not use Markdown formatting.";
    assert_eq!(shell_prompt("/bin/zsh", "linux"), expected);
}

#[test]
fn the_shell_instruction_is_filled_shell_first() {
    let prompt = shell_prompt("{os}", "macos");
    assert!(prompt.starts_with("Let's think step by step and act as macos expert for macos.\n"));
    assert_eq!(
        prompt,
        SHELL_PROMPT.replace("{shell}", "{os}").replace("{os}", "macos")
    );
}
