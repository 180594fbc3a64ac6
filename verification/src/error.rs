//! The failures that the library reports.

use vstd::prelude::*;
use vstd::string::StringExecFns;

verus! {

/// Everything that can go wrong inside the library.
#[derive(Debug, Clone, PartialEq, Eq)]
pub enum Error {
    /// A prompt of this name is already stored.
    PromptAlreadyExists { name: String },
    /// No prompt of this name is stored.
    PromptNotFound { name: String },
    /// The shell command ended with a failure status.
    CommandFailed { command: String },
    /// The provider's credential is missing.
    APIKeyNotSet,
    /// The provider answered without any content.
    EmptyResponse,
    /// A placeholder pattern was rejected by the regular-expression engine;
    /// `message` is the engine's own description.
    Regex { message: String },
}

/// An [`Error`] with its texts as character sequences.
pub enum ErrorView {
    PromptAlreadyExists { name: Seq<char> },
    PromptNotFound { name: Seq<char> },
    CommandFailed { command: Seq<char> },
    APIKeyNotSet,
    EmptyResponse,
    Regex { message: Seq<char> },
}

impl View for Error {
    type V = ErrorView;

    open spec fn view(&self) -> ErrorView {
        match *self {
            Error::PromptAlreadyExists { name } => ErrorView::PromptAlreadyExists { name: name@ },
            Error::PromptNotFound { name } => ErrorView::PromptNotFound { name: name@ },
            Error::CommandFailed { command } => ErrorView::CommandFailed { command: command@ },
            Error::APIKeyNotSet => ErrorView::APIKeyNotSet,
            Error::EmptyResponse => ErrorView::EmptyResponse,
            Error::Regex { message } => ErrorView::Regex { message: message@ },
        }
    }
}

/// The line shown to the operator for an error.
pub open spec fn message_of(error: ErrorView) -> Seq<char> {
    match error {
        ErrorView::PromptAlreadyExists { name } => "Prompt '"@ + name + "' already exists"@,
        ErrorView::PromptNotFound { name } => "Prompt '"@ + name + "' not found"@,
        ErrorView::CommandFailed { command } => "Command '"@ + command + "' failed"@,
        ErrorView::APIKeyNotSet => "API key not set"@,
        ErrorView::EmptyResponse => "Empty response"@,
        ErrorView::Regex { message } => message,
    }
}

/// `head`, then `middle`, then `tail`.
fn framed(head: &str, middle: &str, tail: &str) -> (r: String)
    ensures
        r@ == head@ + middle@ + tail@,
{
    let mut text = String::from_str(head);
    text.append(middle);
    text.append(tail);
    text
}

impl Error {
    /// The line shown to the operator for this error.
    pub fn message(&self) -> (r: String)
        ensures
            r@ == message_of(self@),
    {
        match self {
            Error::PromptAlreadyExists { name } => framed(
                "Prompt '",
                name.as_str(),
                "' already exists",
            ),
            Error::PromptNotFound { name } => framed("Prompt '", name.as_str(), "' not found"),
            Error::CommandFailed { command } => framed("Command '", command.as_str(), "' failed"),
            Error::APIKeyNotSet => String::from_str("API key not set"),
            Error::EmptyResponse => String::from_str("Empty response"),
            Error::Regex { message } => message.clone(),
        }
    }

    /// A copy of this error.
    pub fn duplicate(&self) -> (r: Error)
        ensures
            r@ == self@,
    {
        match self {
            Error::PromptAlreadyExists { name } => Error::PromptAlreadyExists {
                name: name.clone(),
            },
            Error::PromptNotFound { name } => Error::PromptNotFound { name: name.clone() },
            Error::CommandFailed { command } => Error::CommandFailed { command: command.clone() },
            Error::APIKeyNotSet => Error::APIKeyNotSet,
            Error::EmptyResponse => Error::EmptyResponse,
            Error::Regex { message } => Error::Regex { message: message.clone() },
        }
    }
}

} // verus!
