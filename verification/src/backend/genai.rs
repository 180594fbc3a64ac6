//! The provider that reaches several services by the model's name, without
//! a credential of its own.

use vstd::prelude::*;
use crate::error::Error;
use crate::processor::{
    build_request,
    completion_from,
    fragment_from,
    ChatReply,
    ChatRequest,
    CompletionGenerator,
    GenerationRequest,
    StreamEvent,
    StreamStep,
};

verus! {

/// The provider-agnostic adapter.
#[derive(Debug, Clone, Copy, PartialEq, Eq)]
pub struct GenAI {}

impl GenAI {
    /// The adapter.
    pub fn new() -> (r: GenAI)
        ensures
            r == (GenAI {  }),
    {
        GenAI {  }
    }
}

impl CompletionGenerator for GenAI {
    fn chat_request(&self, request: &GenerationRequest, stream: bool) -> (r: ChatRequest) {
        build_request(request, stream)
    }

    fn generate_completion(&self, reply: &ChatReply) -> (r: Result<String, Error>) {
        completion_from(reply)
    }

    fn stream_completion(&self, event: &StreamEvent) -> (r: StreamStep) {
        fragment_from(event)
    }
}

} // verus!
