//! The `exec` subcommand: the instruction that asks for a shell command, and
//! the confirmation loop that decides what happens to the command that came
//! back.

use vstd::prelude::*;
use vstd::string::StringExecFns;
use vstd::string::StrSliceExecFns;
use crate::command::CommonArgs;
use crate::error::{Error, ErrorView};
use crate::system::{finished, run_cmd};

verus! {

/// The answer that runs the command.
pub const RUN: &'static str = "r";

/// The answer that copies the command.
pub const COPY: &'static str = "c";

/// The answer that leaves the loop.
pub const ABORT: &'static str = "a";

/// The answer that opens the command for editing.
pub const MODIFY: &'static str = "m";

/// The instruction that asks for a shell command, with `{shell}` and `{os}`
/// still to be filled in.
pub const SHELL_PROMPT: &'static str =
    "Let's think step by step and act as {shell} expert for {os}.\nProvide only {shell} commands without any descriptions.\nIf details are insufficient, provide the most logical solution.\nEnsure the output is a valid shell command.\nIf multiple steps are required, combine them using &&.\nDo not use Markdown formatting.";

/// The arguments of `exec`.
#[derive(Debug, Clone, PartialEq, Eq)]
pub struct ExecArgs {
    pub common: CommonArgs,
    pub run: bool,
}

/// `text` with every occurrence of `from` replaced by `to`, found from left
/// to right without overlap. An empty `from` occurs nowhere.
pub open spec fn replaced(text: Seq<char>, from: Seq<char>, to: Seq<char>) -> Seq<char>
    decreases text.len(),
{
    if from.len() == 0 || text.len() < from.len() {
        text
    } else if text.subrange(0, from.len() as int) == from {
        to + replaced(text.skip(from.len() as int), from, to)
    } else {
        seq![text[0]] + replaced(text.skip(1), from, to)
    }
}

/// The instruction for the given shell and operating system.
pub open spec fn shell_prompt_of(shell: Seq<char>, os: Seq<char>) -> Seq<char> {
    replaced(replaced(SHELL_PROMPT@, "{shell}"@, shell), "{os}"@, os)
}

/// Whether `from` stands in `text` at index `at`.
fn occurs_at(text: &str, text_len: usize, at: usize, from: &str, from_len: usize) -> (r: bool)
    requires
        text_len == text@.len(),
        from_len == from@.len(),
        at + from_len <= text_len,
    ensures
        r == (text@.subrange(at as int, at + from_len) == from@),
{
    let mut same: usize = 0;
    while same < from_len && text.get_char(at + same) == from.get_char(same)
        invariant
            same <= from_len,
            text_len == text@.len(),
            from_len == from@.len(),
            at + from_len <= text_len,
            forall|k: int| 0 <= k < same ==> text@[at + k] == from@[k],
        decreases from_len - same,
    {
        same += 1;
    }
    proof {
        let part = text@.subrange(at as int, at + from_len);
        if same == from_len {
            assert(part =~= from@);
        } else {
            assert(part[same as int] != from@[same as int]);
        }
    }
    same == from_len
}

/// Replaces every occurrence of `from` in `text` by `to`.
pub fn replace_text(text: &str, from: &str, to: &str) -> (r: String)
    ensures
        r@ == replaced(text@, from@, to@),
{
    let text_len = text.unicode_len();
    let from_len = from.unicode_len();
    if from_len == 0 {
        return String::from_str(text);
    }
    let mut out = String::new();
    let mut at: usize = 0;
    proof {
        assert(text@.skip(0) =~= text@);
        assert(out@ + replaced(text@, from@, to@) =~= replaced(text@, from@, to@));
    }
    while at < text_len && text_len - at >= from_len
        invariant
            at <= text_len,
            text_len == text@.len(),
            from_len == from@.len(),
            from_len > 0,
            replaced(text@, from@, to@) == out@ + replaced(text@.skip(at as int), from@, to@),
        decreases text_len - at,
    {
        let ghost rest = text@.skip(at as int);
        if occurs_at(text, text_len, at, from, from_len) {
            proof {
                assert(rest.subrange(0, from_len as int) =~= text@.subrange(
                    at as int,
                    at + from_len,
                ));
                assert(rest.skip(from_len as int) =~= text@.skip(at + from_len));
            }
            let ghost before = out@;
            out.append(to);
            at += from_len;
            assert(before + (to@ + replaced(text@.skip(at as int), from@, to@)) =~= out@
                + replaced(text@.skip(at as int), from@, to@));
        } else {
            proof {
                assert(rest.subrange(0, from_len as int) =~= text@.subrange(
                    at as int,
                    at + from_len,
                ));
                assert(rest.skip(1) =~= text@.skip(at + 1));
                assert(seq![rest[0]] =~= text@.subrange(at as int, at + 1));
            }
            let ghost before = out@;
            out.append(text.substring_char(at, at + 1));
            at += 1;
            assert(before + (text@.subrange(at - 1, at as int) + replaced(
                text@.skip(at as int),
                from@,
                to@,
            )) =~= out@ + replaced(text@.skip(at as int), from@, to@));
        }
    }
    proof {
        assert(text@.skip(at as int) =~= text@.subrange(at as int, text_len as int));
    }
    out.append(text.substring_char(at, text_len));
    out
}

/// The instruction that asks for a command of the given shell on the given
/// operating system.
pub fn shell_prompt(shell: &str, os: &str) -> (r: String)
    ensures
        r@ == shell_prompt_of(shell@, os@),
{
    let with_shell = replace_text(SHELL_PROMPT, "{shell}", shell);
    replace_text(with_shell.as_str(), "{os}", os)
}

/// What the operator decides about a generated command.
#[derive(Debug, Clone, Copy, PartialEq, Eq, Structural)]
pub enum ConfirmationDecision {
    Run,
    Modify,
    Copy,
    Abort,
}

/// The decision that an answer spells: one of the letters `r`, `m`, `c` and
/// `a`, in either case. Any other answer spells none.
pub open spec fn decision_of(answer: Seq<char>) -> Option<ConfirmationDecision> {
    if answer.len() != 1 {
        None
    } else if answer[0] == 'r' || answer[0] == 'R' {
        Some(ConfirmationDecision::Run)
    } else if answer[0] == 'm' || answer[0] == 'M' {
        Some(ConfirmationDecision::Modify)
    } else if answer[0] == 'c' || answer[0] == 'C' {
        Some(ConfirmationDecision::Copy)
    } else if answer[0] == 'a' || answer[0] == 'A' {
        Some(ConfirmationDecision::Abort)
    } else {
        None
    }
}

/// Reads the operator's answer. `None` means that the answer is no legal
/// choice and has to be asked for again.
pub fn parse_decision(answer: &str) -> (r: Option<ConfirmationDecision>)
    ensures
        r == decision_of(answer@),
{
    if answer.unicode_len() != 1 {
        return None;
    }
    let letter = answer.get_char(0);
    if letter == 'r' || letter == 'R' {
        Some(ConfirmationDecision::Run)
    } else if letter == 'm' || letter == 'M' {
        Some(ConfirmationDecision::Modify)
    } else if letter == 'c' || letter == 'C' {
        Some(ConfirmationDecision::Copy)
    } else if letter == 'a' || letter == 'A' {
        Some(ConfirmationDecision::Abort)
    } else {
        None
    }
}

/// Where the confirmation loop stands.
#[derive(Debug, Clone, PartialEq, Eq)]
pub enum LoopState {
    /// The command is shown and the operator's choice is awaited.
    Awaiting { command: String },
    /// The command is open in the editor.
    Editing { command: String },
    /// The command was handed to the shell, which has not finished yet.
    Running { command: String },
    /// The command was handed to the clipboard.
    Copying { command: String },
    /// The command ran and succeeded.
    Ran,
    /// The command ran and failed.
    Failed { error: Error },
    /// The command is on the clipboard.
    Copied,
    /// The operator left the loop, by choice or by closing the editor
    /// without a text.
    Aborted,
}

/// What the outside reports back to the loop.
#[derive(Debug, Clone, PartialEq, Eq)]
pub enum LoopEvent {
    /// The operator answered the question with this text.
    Answered(String),
    /// The editor was closed, with the new text if there is one.
    Edited(Option<String>),
    /// The shell finished the command.
    Exited { success: bool },
    /// The clipboard took the text.
    CopyDone,
}

/// What the loop asks the outside to do.
#[derive(Debug, Clone, PartialEq, Eq)]
pub enum Effect {
    /// Run this command in the shell.
    Execute { command: String },
    /// Open this command in the editor.
    Edit { command: String },
    /// Put this command on the clipboard.
    Copy { command: String },
}

/// A [`LoopState`] over character sequences.
pub enum LoopModel {
    Awaiting { command: Seq<char> },
    Editing { command: Seq<char> },
    Running { command: Seq<char> },
    Copying { command: Seq<char> },
    Ran,
    Failed { error: ErrorView },
    Copied,
    Aborted,
}

/// A [`LoopEvent`] over character sequences.
pub enum EventModel {
    Answered(Seq<char>),
    Edited(Option<Seq<char>>),
    Exited { success: bool },
    CopyDone,
}

/// An [`Effect`] over character sequences.
pub enum EffectModel {
    Execute { command: Seq<char> },
    Edit { command: Seq<char> },
    Copy { command: Seq<char> },
}

impl View for LoopState {
    type V = LoopModel;

    open spec fn view(&self) -> LoopModel {
        match *self {
            LoopState::Awaiting { command } => LoopModel::Awaiting { command: command@ },
            LoopState::Editing { command } => LoopModel::Editing { command: command@ },
            LoopState::Running { command } => LoopModel::Running { command: command@ },
            LoopState::Copying { command } => LoopModel::Copying { command: command@ },
            LoopState::Ran => LoopModel::Ran,
            LoopState::Failed { error } => LoopModel::Failed { error: error@ },
            LoopState::Copied => LoopModel::Copied,
            LoopState::Aborted => LoopModel::Aborted,
        }
    }
}

impl View for LoopEvent {
    type V = EventModel;

    open spec fn view(&self) -> EventModel {
        match *self {
            LoopEvent::Answered(answer) => EventModel::Answered(answer@),
            LoopEvent::Edited(Some(text)) => EventModel::Edited(Some(text@)),
            LoopEvent::Edited(None) => EventModel::Edited(None),
            LoopEvent::Exited { success } => EventModel::Exited { success },
            LoopEvent::CopyDone => EventModel::CopyDone,
        }
    }
}

impl View for Effect {
    type V = EffectModel;

    open spec fn view(&self) -> EffectModel {
        match *self {
            Effect::Execute { command } => EffectModel::Execute { command: command@ },
            Effect::Edit { command } => EffectModel::Edit { command: command@ },
            Effect::Copy { command } => EffectModel::Copy { command: command@ },
        }
    }
}

/// An optional effect over character sequences.
pub open spec fn effect_view(effect: Option<Effect>) -> Option<EffectModel> {
    match effect {
        Some(effect) => Some(effect@),
        None => None,
    }
}

/// How the loop starts: with the command handed to the shell at once where
/// the operator asked for that, and with the operator's choice awaited
/// otherwise.
pub open spec fn begin_model(command: Seq<char>, run: bool) -> (LoopModel, Option<EffectModel>) {
    if run {
        (LoopModel::Running { command }, Some(EffectModel::Execute { command }))
    } else {
        (LoopModel::Awaiting { command }, None)
    }
}

/// One transition of the loop: the state that follows, and what the outside
/// has to do next. An event that does not answer what the state waits for
/// changes nothing and asks for nothing.
pub open spec fn step_model(state: LoopModel, event: EventModel) -> (
    LoopModel,
    Option<EffectModel>,
) {
    match (state, event) {
        (LoopModel::Awaiting { command }, EventModel::Answered(answer)) => match decision_of(
            answer,
        ) {
            Some(ConfirmationDecision::Run) => (
                LoopModel::Running { command },
                Some(EffectModel::Execute { command }),
            ),
            Some(ConfirmationDecision::Modify) => (
                LoopModel::Editing { command },
                Some(EffectModel::Edit { command }),
            ),
            Some(ConfirmationDecision::Copy) => (
                LoopModel::Copying { command },
                Some(EffectModel::Copy { command }),
            ),
            Some(ConfirmationDecision::Abort) => (LoopModel::Aborted, None),
            None => (state, None),
        },
        (LoopModel::Editing { command }, EventModel::Edited(Some(text))) => (
            LoopModel::Awaiting { command: text },
            None,
        ),
        (LoopModel::Editing { command }, EventModel::Edited(None)) => (LoopModel::Aborted, None),
        (LoopModel::Running { command }, EventModel::Exited { success }) => match finished(
            command,
            success,
        ) {
            Ok(()) => (LoopModel::Ran, None),
            Err(error) => (LoopModel::Failed { error }, None),
        },
        (LoopModel::Copying { command }, EventModel::CopyDone) => (LoopModel::Copied, None),
        _ => (state, None),
    }
}

/// How the loop ended: nothing while it is still under way, the failure of
/// the command where it failed, and success in every other final state.
pub open spec fn outcome_model(state: LoopModel) -> Option<Result<(), ErrorView>> {
    match state {
        LoopModel::Ran | LoopModel::Copied | LoopModel::Aborted => Some(Ok(())),
        LoopModel::Failed { error } => Some(Err(error)),
        _ => None,
    }
}

/// The state after a run of events.
pub open spec fn state_after(state: LoopModel, events: Seq<EventModel>) -> LoopModel
    decreases events.len(),
{
    if events.len() == 0 {
        state
    } else {
        state_after(step_model(state, events[0]).0, events.drop_first())
    }
}

/// The commands that are handed to the shell during a run of events, in
/// order.
pub open spec fn executed(state: LoopModel, events: Seq<EventModel>) -> Seq<Seq<char>>
    decreases events.len(),
{
    if events.len() == 0 {
        Seq::empty()
    } else {
        let (next, effect) = step_model(state, events[0]);
        let later = executed(next, events.drop_first());
        match effect {
            Some(EffectModel::Execute { command }) => seq![command] + later,
            _ => later,
        }
    }
}

/// Starts the confirmation loop for a generated command. With `run` set the
/// command goes to the shell without a question.
pub fn handle_exec(args: &ExecArgs, command: String) -> (r: (LoopState, Option<Effect>))
    ensures
        (r.0@, effect_view(r.1)) == begin_model(command@, args.run),
{
    if args.run {
        let copy = command.clone();
        (LoopState::Running { command }, Some(Effect::Execute { command: copy }))
    } else {
        (LoopState::Awaiting { command }, None)
    }
}

/// Takes the loop one step further: `event` is what the outside reports, the
/// result is the next state and what the outside has to do now. While the
/// state is `Awaiting` and no effect is asked for, the command is to be shown
/// and the operator asked again.
pub fn prompt_action_for_cmd(state: LoopState, event: LoopEvent) -> (r: (
    LoopState,
    Option<Effect>,
))
    ensures
        (r.0@, effect_view(r.1)) == step_model(state@, event@),
{
    match (state, event) {
        (LoopState::Awaiting { command }, LoopEvent::Answered(answer)) => {
            match parse_decision(answer.as_str()) {
                Some(ConfirmationDecision::Run) => {
                    let copy = command.clone();
                    (LoopState::Running { command }, Some(Effect::Execute { command: copy }))
                },
                Some(ConfirmationDecision::Modify) => {
                    let copy = command.clone();
                    (LoopState::Editing { command }, Some(Effect::Edit { command: copy }))
                },
                Some(ConfirmationDecision::Copy) => {
                    let copy = command.clone();
                    (LoopState::Copying { command }, Some(Effect::Copy { command: copy }))
                },
                Some(ConfirmationDecision::Abort) => (LoopState::Aborted, None),
                None => (LoopState::Awaiting { command }, None),
            }
        },
        (LoopState::Editing { command }, LoopEvent::Edited(Some(text))) => (
            LoopState::Awaiting { command: text },
            None,
        ),
        (LoopState::Editing { command }, LoopEvent::Edited(None)) => (LoopState::Aborted, None),
        (LoopState::Running { command }, LoopEvent::Exited { success }) => {
            match run_cmd(command.as_str(), success) {
                Ok(()) => (LoopState::Ran, None),
                Err(error) => (LoopState::Failed { error }, None),
            }
        },
        (LoopState::Copying { command }, LoopEvent::CopyDone) => (LoopState::Copied, None),
        (state, _) => (state, None),
    }
}

/// How the loop ended, once it has: `None` while it is still under way.
pub fn outcome(state: &LoopState) -> (r: Option<Result<(), Error>>)
    ensures
        match r {
            Some(Ok(())) => outcome_model(state@) == Some(Ok::<(), ErrorView>(())),
            Some(Err(error)) => outcome_model(state@) == Some(Err::<(), ErrorView>(error@)),
            None => outcome_model(state@) is None,
        },
{
    match state {
        LoopState::Ran | LoopState::Copied | LoopState::Aborted => Some(Ok(())),
        LoopState::Failed { error } => Some(Err(error.duplicate())),
        _ => None,
    }
}

/// No command has gone to the shell, and the operator can still send one.
pub open spec fn undecided(state: LoopModel) -> bool {
    state is Awaiting || state is Editing
}

/// No answer among the events chooses `Run`.
pub open spec fn never_chooses_run(events: Seq<EventModel>) -> bool {
    forall|i: int|
        0 <= i < events.len() ==> (#[trigger] events[i] matches EventModel::Answered(answer)
            ==> decision_of(answer) != Some(ConfirmationDecision::Run))
}

/// The events of an operator who chooses `Modify` once for each of `texts`
/// and leaves the editor with that text.
pub open spec fn modify_rounds(texts: Seq<Seq<char>>, modify: Seq<char>) -> Seq<EventModel>
    decreases texts.len(),
{
    if texts.len() == 0 {
        Seq::empty()
    } else {
        seq![EventModel::Answered(modify), EventModel::Edited(Some(texts[0]))] + modify_rounds(
            texts.drop_first(),
            modify,
        )
    }
}

/// The command after the edits: the last of `texts`, or the command itself
/// where there was no edit.
pub open spec fn last_text(command: Seq<char>, texts: Seq<Seq<char>>) -> Seq<char> {
    if texts.len() == 0 {
        command
    } else {
        texts.last()
    }
}

/// Once the operator's choice is made, no further command goes to the shell.
pub proof fn decided_executes_nothing(state: LoopModel, events: Seq<EventModel>)
    requires
        !undecided(state),
    ensures
        executed(state, events) == Seq::<Seq<char>>::empty(),
    decreases events.len(),
{
    if events.len() > 0 {
        decided_executes_nothing(step_model(state, events[0]).0, events.drop_first());
    }
}

/// Whatever the outside reports, in whatever order, at most one command goes
/// to the shell.
pub proof fn executes_at_most_once(state: LoopModel, events: Seq<EventModel>)
    ensures
        executed(state, events).len() <= 1,
    decreases events.len(),
{
    if events.len() > 0 {
        let (next, effect) = step_model(state, events[0]);
        if effect is Some && effect->0 is Execute {
            decided_executes_nothing(next, events.drop_first());
        } else {
            executes_at_most_once(next, events.drop_first());
        }
    }
}

/// Without the choice `Run` nothing goes to the shell: not for `Copy`, not
/// for `Abort`, not for `Modify`, and not for answers that are no choice.
pub proof fn executes_only_on_run(state: LoopModel, events: Seq<EventModel>)
    requires
        never_chooses_run(events),
    ensures
        executed(state, events) == Seq::<Seq<char>>::empty(),
    decreases events.len(),
{
    if events.len() > 0 {
        let rest = events.drop_first();
        assert forall|i: int| 0 <= i < rest.len() implies (#[trigger] rest[i] matches EventModel::Answered(
            answer,
        ) ==> decision_of(answer) != Some(ConfirmationDecision::Run)) by {
            assert(rest[i] == events[i + 1]);
        }
        assert(events[0] == events[0]);
        executes_only_on_run(step_model(state, events[0]).0, rest);
    }
}

/// An operator who edits the command any number of times and then chooses
/// `Run` has exactly one command run: the text of the last edit. The loop
/// then ends as the shell reports: in success, or with the failure of that
/// very command.
pub proof fn runs_the_final_text_once(
    command: Seq<char>,
    texts: Seq<Seq<char>>,
    modify: Seq<char>,
    run: Seq<char>,
    success: bool,
)
    requires
        decision_of(modify) == Some(ConfirmationDecision::Modify),
        decision_of(run) == Some(ConfirmationDecision::Run),
    ensures
        executed(
            LoopModel::Awaiting { command },
            modify_rounds(texts, modify) + seq![EventModel::Answered(run)],
        ) == seq![last_text(command, texts)],
        state_after(
            LoopModel::Awaiting { command },
            modify_rounds(texts, modify) + seq![EventModel::Answered(run)],
        ) == (LoopModel::Running { command: last_text(command, texts) }),
        outcome_model(
            step_model(
                LoopModel::Running { command: last_text(command, texts) },
                EventModel::Exited { success },
            ).0,
        ) == Some(
            if success {
                Ok::<(), ErrorView>(())
            } else {
                Err::<(), ErrorView>(
                    ErrorView::CommandFailed { command: last_text(command, texts) },
                )
            },
        ),
    decreases texts.len(),
{
    let start = LoopModel::Awaiting { command };
    let answer = seq![EventModel::Answered(run)];
    let events = modify_rounds(texts, modify) + answer;
    if texts.len() == 0 {
        assert(events =~= answer);
        assert(events.drop_first() =~= Seq::<EventModel>::empty());
        assert(executed(LoopModel::Running { command }, events.drop_first()) =~= Seq::<
            Seq<char>,
        >::empty());
        assert(executed(start, events) =~= seq![command]);
        assert(state_after(LoopModel::Running { command }, events.drop_first())
            == (LoopModel::Running { command }));
        assert(state_after(start, events) == (LoopModel::Running { command }));
    } else {
        let later = modify_rounds(texts.drop_first(), modify) + answer;
        let edited = EventModel::Edited(Some(texts[0]));
        assert(events[0] == EventModel::Answered(modify));
        assert(events.drop_first() =~= seq![edited] + later);
        assert(events.drop_first()[0] == edited);
        assert(events.drop_first().drop_first() =~= later);
        runs_the_final_text_once(texts[0], texts.drop_first(), modify, run, success);
        if texts.len() == 1 {
            assert(texts.drop_first().len() == 0);
        } else {
            assert(texts.drop_first().last() == texts.last());
        }
        assert(last_text(texts[0], texts.drop_first()) == last_text(command, texts));
        let opened = LoopModel::Editing { command };
        assert(step_model(start, events[0]) == (
            opened,
            Some(EffectModel::Edit { command }),
        ));
        assert(step_model(opened, edited) == (
            LoopModel::Awaiting { command: texts[0] },
            None::<EffectModel>,
        ));
        assert(executed(opened, events.drop_first()) == executed(
            LoopModel::Awaiting { command: texts[0] },
            later,
        ));
        assert(state_after(opened, events.drop_first()) == state_after(
            LoopModel::Awaiting { command: texts[0] },
            later,
        ));
        assert(state_after(start, events) == state_after(opened, events.drop_first()));
    }
}

} // verus!
