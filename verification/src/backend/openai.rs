//! The provider that speaks to the OpenAI chat-completion service.

use vstd::prelude::*;
use crate::error::{Error, ErrorView};
use crate::processor::{
    build_request,
    completion_from,
    fragment_from,
    ChatReply,
    ChatRequest,
    CompletionGenerator,
    GenerationRequest,
    StreamEvent,
    StreamStep,
};

verus! {

/// The OpenAI provider, with the credential that it presents.
#[derive(Clone, PartialEq, Eq)]
pub struct OpenAI {
    api_key: String,
}

impl OpenAI {
    /// The credential that is presented.
    pub closed spec fn api_key_view(&self) -> Seq<char> {
        self.api_key@
    }

    /// The provider for the credential found in the environment. Without a
    /// credential there is no provider: the failure is `APIKeyNotSet`.
    pub fn new(api_key: Option<String>) -> (r: Result<OpenAI, Error>)
        ensures
            match r {
                Ok(provider) => api_key matches Some(key) && provider.api_key_view() == key@,
                Err(error) => api_key is None && error@ == ErrorView::APIKeyNotSet,
            },
    {
        match api_key {
            Some(api_key) => Ok(OpenAI { api_key }),
            None => Err(Error::APIKeyNotSet),
        }
    }

    /// The credential that is presented.
    pub fn api_key(&self) -> (r: &str)
        ensures
            r@ == self.api_key_view(),
    {
        self.api_key.as_str()
    }
}

impl CompletionGenerator for OpenAI {
    fn chat_request(&self, request: &GenerationRequest, stream: bool) -> (r: ChatRequest) {
        build_request(request, stream)
    }

    fn generate_completion(&self, reply: &ChatReply) -> (r: Result<String, Error>) {
        completion_from(reply)
    }

    fn stream_completion(&self, event: &StreamEvent) -> (r: StreamStep) {
        fragment_from(event)
    }
}

} // verus!
