//! The `ask` subcommand: an answer that arrives in fragments is shown as it
//! comes and kept for the clipboard.

use vstd::prelude::*;
use vstd::string::StringExecFns;
use crate::command::CommonArgs;

verus! {

/// The arguments of `ask`.
#[derive(Debug, Clone, PartialEq, Eq)]
pub struct AskArgs {
    pub common: CommonArgs,
}

/// Where the answer stands.
#[derive(Debug, Clone, PartialEq, Eq)]
pub enum AskState {
    /// Fragments are still arriving; `answer` is what has arrived.
    Streaming { answer: String },
    /// The answer is complete.
    Done,
}

/// What the stream reports.
#[derive(Debug, Clone, PartialEq, Eq)]
pub enum AskEvent {
    /// The next fragment of the answer.
    Fragment(String),
    /// The stream has ended.
    End,
}

/// What is to be done about the answer.
#[derive(Debug, Clone, PartialEq, Eq)]
pub enum AskAction {
    /// Print this fragment at once.
    Print { text: String },
    /// End the line, and put `copy` on the clipboard where it is there.
    Close { copy: Option<String> },
    /// Nothing.
    Nothing,
}

/// An [`AskState`] over character sequences.
pub enum AskModel {
    Streaming { answer: Seq<char> },
    Done,
}

/// An [`AskEvent`] over character sequences.
pub enum AskEventModel {
    Fragment(Seq<char>),
    End,
}

/// An [`AskAction`] over character sequences.
pub enum AskActionModel {
    Print { text: Seq<char> },
    Close { copy: Option<Seq<char>> },
    Nothing,
}

impl View for AskState {
    type V = AskModel;

    open spec fn view(&self) -> AskModel {
        match *self {
            AskState::Streaming { answer } => AskModel::Streaming { answer: answer@ },
            AskState::Done => AskModel::Done,
        }
    }
}

impl View for AskEvent {
    type V = AskEventModel;

    open spec fn view(&self) -> AskEventModel {
        match *self {
            AskEvent::Fragment(text) => AskEventModel::Fragment(text@),
            AskEvent::End => AskEventModel::End,
        }
    }
}

impl View for AskAction {
    type V = AskActionModel;

    open spec fn view(&self) -> AskActionModel {
        match *self {
            AskAction::Print { text } => AskActionModel::Print { text: text@ },
            AskAction::Close { copy: Some(text) } => AskActionModel::Close { copy: Some(text@) },
            AskAction::Close { copy: None } => AskActionModel::Close { copy: None },
            AskAction::Nothing => AskActionModel::Nothing,
        }
    }
}

/// One transition: a fragment is printed and joins the answer; the end of the
/// stream closes the output and hands the whole answer to the clipboard where
/// `copy` asks for it; after the end nothing happens any more.
pub open spec fn ask_step(state: AskModel, event: AskEventModel, copy: bool) -> (
    AskModel,
    AskActionModel,
) {
    match (state, event) {
        (AskModel::Streaming { answer }, AskEventModel::Fragment(text)) => (
            AskModel::Streaming { answer: answer + text },
            AskActionModel::Print { text },
        ),
        (AskModel::Streaming { answer }, AskEventModel::End) => (
            AskModel::Done,
            AskActionModel::Close {
                copy: if copy {
                    Some(answer)
                } else {
                    None
                },
            },
        ),
        (AskModel::Done, _) => (AskModel::Done, AskActionModel::Nothing),
    }
}

/// The fragments joined into one text.
pub open spec fn joined(fragments: Seq<Seq<char>>) -> Seq<char>
    decreases fragments.len(),
{
    if fragments.len() == 0 {
        Seq::empty()
    } else {
        joined(fragments.drop_last()) + fragments.last()
    }
}

/// The state after the given fragments have arrived, one after the other.
pub open spec fn after_fragments(state: AskModel, fragments: Seq<Seq<char>>, copy: bool) -> AskModel
    decreases fragments.len(),
{
    if fragments.len() == 0 {
        state
    } else {
        ask_step(
            after_fragments(state, fragments.drop_last(), copy),
            AskEventModel::Fragment(fragments.last()),
            copy,
        ).0
    }
}

/// The answer that is kept is the fragments that arrived, joined in their
/// order; it is what goes to the clipboard at the end.
pub proof fn answer_is_joined_fragments(fragments: Seq<Seq<char>>, copy: bool)
    ensures
        after_fragments(AskModel::Streaming { answer: Seq::empty() }, fragments, copy) == (
        AskModel::Streaming { answer: joined(fragments) }),
        ask_step(
            after_fragments(AskModel::Streaming { answer: Seq::empty() }, fragments, copy),
            AskEventModel::End,
            true,
        ).1 == (AskActionModel::Close { copy: Some(joined(fragments)) }),
    decreases fragments.len(),
{
    if fragments.len() > 0 {
        answer_is_joined_fragments(fragments.drop_last(), copy);
    }
}

/// The state in which no fragment has arrived yet.
pub fn start_answer() -> (r: AskState)
    ensures
        r@ == (AskModel::Streaming { answer: Seq::empty() }),
{
    AskState::Streaming { answer: String::new() }
}

/// Takes the answer one event further: the next state, and what is to be
/// done now. The finished answer goes to the clipboard where the arguments
/// ask for that.
pub fn handle_ask(args: &AskArgs, state: AskState, event: AskEvent) -> (r: (AskState, AskAction))
    ensures
        (r.0@, r.1@) == ask_step(state@, event@, args.common.copy),
{
    let copy = args.common.copy;
    match (state, event) {
        (AskState::Streaming { answer }, AskEvent::Fragment(text)) => {
            let mut answer = answer;
            answer.append(text.as_str());
            (AskState::Streaming { answer }, AskAction::Print { text })
        },
        (AskState::Streaming { answer }, AskEvent::End) => {
            if copy {
                (AskState::Done, AskAction::Close { copy: Some(answer) })
            } else {
                (AskState::Done, AskAction::Close { copy: None })
            }
        },
        (AskState::Done, _) => (AskState::Done, AskAction::Nothing),
    }
}

} // verus!
