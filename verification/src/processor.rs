//! Completion requests and replies as plain values, the contract that every
//! provider keeps, and the processor that binds one provider.
//!
//! The network is outside. A provider here says what is sent for a request
//! and what a reply, or one event of a streamed reply, amounts to.

use vstd::prelude::*;
use vstd::string::StringExecFns;
use crate::error::{Error, ErrorView};

verus! {

/// One request for a completion. The temperature is carried as the bits of
/// its single-precision value.
#[derive(Debug, Clone, PartialEq, Eq)]
pub struct GenerationRequest {
    pub model: String,
    pub temperature: u32,
    pub system_prompt: String,
    pub user_input: String,
}

/// Who speaks in a message.
#[derive(Debug, Clone, Copy, PartialEq, Eq, Structural)]
pub enum Role {
    System,
    User,
}

/// One message of a chat.
#[derive(Debug, Clone, PartialEq, Eq)]
pub struct ChatMessage {
    pub role: Role,
    pub content: String,
}

/// What is sent to a provider. The temperature is carried as the bits of
/// its single-precision value.
#[derive(Debug, Clone, PartialEq, Eq)]
pub struct ChatRequest {
    pub model: String,
    pub temperature: u32,
    pub messages: Vec<ChatMessage>,
    pub stream: bool,
}

/// What a provider answered: the content of each choice, in its order;
/// `None` for a choice that carries none.
#[derive(Debug, Clone, PartialEq, Eq)]
pub struct ChatReply {
    pub choices: Vec<Option<String>>,
}

/// One event of a streamed reply.
#[derive(Debug, Clone, PartialEq, Eq)]
pub enum StreamEvent {
    /// A piece of the answer; `None` where the event carries no text.
    Chunk(Option<String>),
    /// An event that carries no part of the answer, such as the start or the
    /// end of the stream.
    Other,
    /// The event could not be received or decoded.
    Broken,
}

/// What an event of a streamed reply amounts to.
#[derive(Debug, Clone, PartialEq, Eq)]
pub enum StreamStep {
    /// Hand this fragment to the consumer.
    Yield(String),
    /// Go on to the next event.
    Skip,
    /// End the sequence.
    Stop,
}

/// A [`GenerationRequest`] over character sequences.
pub struct GenerationRequestView {
    pub model: Seq<char>,
    pub temperature: u32,
    pub system_prompt: Seq<char>,
    pub user_input: Seq<char>,
}

/// A [`ChatRequest`] over character sequences.
pub struct ChatRequestView {
    pub model: Seq<char>,
    pub temperature: u32,
    pub messages: Seq<(Role, Seq<char>)>,
    pub stream: bool,
}

/// A [`StreamEvent`] over character sequences.
pub enum StreamEventView {
    Chunk(Option<Seq<char>>),
    Other,
    Broken,
}

/// A [`StreamStep`] over character sequences.
pub enum StreamStepView {
    Yield(Seq<char>),
    Skip,
    Stop,
}

impl View for GenerationRequest {
    type V = GenerationRequestView;

    open spec fn view(&self) -> GenerationRequestView {
        GenerationRequestView {
            model: self.model@,
            temperature: self.temperature,
            system_prompt: self.system_prompt@,
            user_input: self.user_input@,
        }
    }
}

impl View for ChatMessage {
    type V = (Role, Seq<char>);

    open spec fn view(&self) -> (Role, Seq<char>) {
        (self.role, self.content@)
    }
}

impl View for ChatRequest {
    type V = ChatRequestView;

    open spec fn view(&self) -> ChatRequestView {
        ChatRequestView {
            model: self.model@,
            temperature: self.temperature,
            messages: Seq::new(self.messages@.len(), |i: int| self.messages@[i]@),
            stream: self.stream,
        }
    }
}

impl View for ChatReply {
    type V = Seq<Option<Seq<char>>>;

    open spec fn view(&self) -> Seq<Option<Seq<char>>> {
        Seq::new(
            self.choices@.len(),
            |i: int|
                match self.choices@[i] {
                    Some(content) => Some(content@),
                    None => None,
                },
        )
    }
}

impl View for StreamEvent {
    type V = StreamEventView;

    open spec fn view(&self) -> StreamEventView {
        match *self {
            StreamEvent::Chunk(Some(text)) => StreamEventView::Chunk(Some(text@)),
            StreamEvent::Chunk(None) => StreamEventView::Chunk(None),
            StreamEvent::Other => StreamEventView::Other,
            StreamEvent::Broken => StreamEventView::Broken,
        }
    }
}

impl View for StreamStep {
    type V = StreamStepView;

    open spec fn view(&self) -> StreamStepView {
        match *self {
            StreamStep::Yield(text) => StreamStepView::Yield(text@),
            StreamStep::Skip => StreamStepView::Skip,
            StreamStep::Stop => StreamStepView::Stop,
        }
    }
}

/// A list of events over character sequences.
pub open spec fn events_view(events: Seq<StreamEvent>) -> Seq<StreamEventView> {
    Seq::new(events.len(), |i: int| events[i]@)
}

/// What is sent for a request: the model, the temperature, and two
/// messages, the system prompt before the user's input.
pub open spec fn chat_request_of(request: GenerationRequestView, stream: bool) -> ChatRequestView {
    ChatRequestView {
        model: request.model,
        temperature: request.temperature,
        messages: seq![(Role::System, request.system_prompt), (Role::User, request.user_input)],
        stream,
    }
}

/// A reply has no content where it has no choice, or its first choice
/// carries no text or an empty one.
pub open spec fn no_content(reply: Seq<Option<Seq<char>>>) -> bool {
    reply.len() == 0 || reply[0] is None || reply[0]->0.len() == 0
}

/// The completion that a reply holds: the text of its first choice. A reply
/// without content is a failure, never an empty completion.
pub open spec fn completion_of(reply: Seq<Option<Seq<char>>>) -> Result<Seq<char>, ErrorView> {
    if no_content(reply) {
        Err(ErrorView::EmptyResponse)
    } else {
        Ok(reply[0]->0)
    }
}

/// What one event of a streamed reply amounts to: a chunk is a fragment, by
/// its text or empty where it carries none; a broken event ends the
/// sequence; any other event is passed over.
pub open spec fn stream_step(event: StreamEventView) -> StreamStepView {
    match event {
        StreamEventView::Chunk(Some(text)) => StreamStepView::Yield(text),
        StreamEventView::Chunk(None) => StreamStepView::Yield(Seq::empty()),
        StreamEventView::Other => StreamStepView::Skip,
        StreamEventView::Broken => StreamStepView::Stop,
    }
}

/// The fragments that a run of events yields: those of its chunks, in order,
/// up to the first broken event.
pub open spec fn fragments_of(events: Seq<StreamEventView>) -> Seq<Seq<char>>
    decreases events.len(),
{
    if events.len() == 0 {
        Seq::empty()
    } else {
        match stream_step(events[0]) {
            StreamStepView::Yield(text) => seq![text] + fragments_of(events.drop_first()),
            StreamStepView::Skip => fragments_of(events.drop_first()),
            StreamStepView::Stop => Seq::empty(),
        }
    }
}

/// No event of the run is broken.
pub open spec fn unbroken(events: Seq<StreamEventView>) -> bool {
    forall|i: int| 0 <= i < events.len() ==> !(#[trigger] events[i] is Broken)
}

/// The fragments of two runs, one after the other, where the first is
/// unbroken.
pub proof fn lemma_fragments_concat(first: Seq<StreamEventView>, second: Seq<StreamEventView>)
    requires
        unbroken(first),
    ensures
        fragments_of(first + second) == fragments_of(first) + fragments_of(second),
    decreases first.len(),
{
    if first.len() == 0 {
        assert(first + second =~= second);
        assert(fragments_of(first) + fragments_of(second) =~= fragments_of(second));
    } else {
        let rest = first.drop_first();
        assert forall|i: int| 0 <= i < rest.len() implies !(#[trigger] rest[i] is Broken) by {
            assert(rest[i] == first[i + 1]);
        }
        assert(!(first[0] is Broken));
        lemma_fragments_concat(rest, second);
        assert((first + second)[0] == first[0]);
        assert((first + second).drop_first() =~= rest + second);
        match stream_step(first[0]) {
            StreamStepView::Yield(text) => {
                assert(seq![text] + (fragments_of(rest) + fragments_of(second)) =~= (seq![text]
                    + fragments_of(rest)) + fragments_of(second));
            },
            _ => {},
        }
    }
}

/// A broken event ends the sequence without a failure and takes nothing
/// back: what the events before it yielded is the whole result, whatever
/// follows it.
pub proof fn broken_stream_keeps_earlier_fragments(
    before: Seq<StreamEventView>,
    after: Seq<StreamEventView>,
)
    requires
        unbroken(before),
    ensures
        fragments_of(before + seq![StreamEventView::Broken] + after) == fragments_of(before),
{
    let tail = seq![StreamEventView::Broken] + after;
    assert(before + seq![StreamEventView::Broken] + after =~= before + tail);
    lemma_fragments_concat(before, tail);
    assert(tail[0] is Broken);
    assert(fragments_of(tail) =~= Seq::<Seq<char>>::empty());
    assert(fragments_of(before) + fragments_of(tail) =~= fragments_of(before));
}

/// What is sent to a provider for `request`.
pub fn build_request(request: &GenerationRequest, stream: bool) -> (r: ChatRequest)
    ensures
        r@ == chat_request_of(request@, stream),
{
    let mut messages: Vec<ChatMessage> = Vec::new();
    messages.push(ChatMessage { role: Role::System, content: request.system_prompt.clone() });
    messages.push(ChatMessage { role: Role::User, content: request.user_input.clone() });
    let sent = ChatRequest {
        model: request.model.clone(),
        temperature: request.temperature,
        messages,
        stream,
    };
    assert(sent@.messages =~= chat_request_of(request@, stream).messages);
    sent
}

/// The completion that a reply holds, or `EmptyResponse` where it holds
/// none. A completion is never empty.
pub fn completion_from(reply: &ChatReply) -> (r: Result<String, Error>)
    ensures
        r is Err <==> no_content(reply@),
        match r {
            Ok(text) => completion_of(reply@) == Ok::<Seq<char>, ErrorView>(text@)
                && text@.len() > 0,
            Err(error) => error@ == ErrorView::EmptyResponse,
        },
{
    if reply.choices.len() == 0 {
        return Err(Error::EmptyResponse);
    }
    match &reply.choices[0] {
        Some(content) => {
            if content.as_str().is_empty() {
                Err(Error::EmptyResponse)
            } else {
                Ok(content.clone())
            }
        },
        None => Err(Error::EmptyResponse),
    }
}

/// What one event of a streamed reply amounts to.
pub fn fragment_from(event: &StreamEvent) -> (r: StreamStep)
    ensures
        r@ == stream_step(event@),
{
    match event {
        StreamEvent::Chunk(Some(text)) => StreamStep::Yield(text.clone()),
        StreamEvent::Chunk(None) => StreamStep::Yield(String::new()),
        StreamEvent::Other => StreamStep::Skip,
        StreamEvent::Broken => StreamStep::Stop,
    }
}

/// The fragments that a run of events yields, up to its first broken event.
pub fn collect_fragments(events: &Vec<StreamEvent>) -> (r: Vec<String>)
    ensures
        crate::config::strings_view(r@) == fragments_of(events_view(events@)),
{
    let ghost all = events_view(events@);
    let mut fragments: Vec<String> = Vec::new();
    let mut done: usize = 0;
    assert(all.take(0) =~= Seq::<StreamEventView>::empty());
    assert(crate::config::strings_view(fragments@) =~= fragments_of(all.take(0)));
    while done < events.len()
        invariant
            done <= events.len(),
            all == events_view(events@),
            unbroken(all.take(done as int)),
            crate::config::strings_view(fragments@) == fragments_of(all.take(done as int)),
        decreases events.len() - done,
    {
        let ghost seen = all.take(done as int);
        let ghost next = seq![all[done as int]];
        let ghost before = crate::config::strings_view(fragments@);
        proof {
            assert(all.take(done + 1) =~= seen + next);
            lemma_fragments_concat(seen, next);
            assert(next.drop_first() =~= Seq::<StreamEventView>::empty());
            assert(fragments_of(next.drop_first()) =~= Seq::<Seq<char>>::empty());
            assert(next[0] == events[done as int]@);
        }
        match fragment_from(&events[done]) {
            StreamStep::Yield(text) => {
                fragments.push(text);
                assert(crate::config::strings_view(fragments@) =~= before + seq![text@]);
                assert(fragments_of(next) =~= seq![text@]);
            },
            StreamStep::Skip => {
                assert(fragments_of(next) =~= Seq::<Seq<char>>::empty());
                assert(before + fragments_of(next) =~= before);
            },
            StreamStep::Stop => {
                proof {
                    let rest = all.skip(done + 1);
                    assert(all =~= seen + seq![StreamEventView::Broken] + rest);
                    broken_stream_keeps_earlier_fragments(seen, rest);
                }
                return fragments;
            },
        }
        assert(unbroken(all.take(done + 1))) by {
            assert forall|i: int| 0 <= i < done + 1 implies !(#[trigger] all.take(done + 1)[i]
                is Broken) by {
                if i < done {
                    assert(all.take(done + 1)[i] == seen[i]);
                }
            }
        }
        done += 1;
    }
    assert(all.take(done as int) =~= all);
    fragments
}

/// What every provider keeps, whichever service it speaks to. The caller
/// sends what `chat_request` gives and hands back what came: the whole reply
/// to `generate_completion`, the events of a streamed reply one by one to
/// `stream_completion`.
pub trait CompletionGenerator {
    /// What is sent for `request`, as a streamed request or a plain one: the
    /// same for every provider.
    fn chat_request(&self, request: &GenerationRequest, stream: bool) -> (r: ChatRequest)
        ensures
            r@ == chat_request_of(request@, stream),
    ;

    /// The completion that a reply holds. A reply without content fails with
    /// `EmptyResponse`; no other reply fails, and no completion is empty.
    fn generate_completion(&self, reply: &ChatReply) -> (r: Result<String, Error>)
        ensures
            r is Err <==> no_content(reply@),
            match r {
                Ok(text) => completion_of(reply@) == Ok::<Seq<char>, ErrorView>(text@)
                    && text@.len() > 0,
                Err(error) => error@ == ErrorView::EmptyResponse,
            },
    ;

    /// What one event of a streamed reply amounts to. A broken event ends the
    /// sequence; it is no failure.
    fn stream_completion(&self, event: &StreamEvent) -> (r: StreamStep)
        ensures
            r@ == stream_step(event@),
    ;
}

/// Binds one provider and forwards to it.
pub struct CompletionProcessor<T: CompletionGenerator> {
    generator: T,
}

impl<T: CompletionGenerator> CompletionProcessor<T> {
    /// The provider that is bound.
    pub closed spec fn generator(&self) -> T {
        self.generator
    }

    /// The processor bound to `generator`.
    pub fn new(generator: T) -> (r: Self)
        ensures
            r.generator() == generator,
    {
        Self { generator }
    }

    /// What is sent to the provider for the resolved prompt and the input.
    pub fn request(
        &self,
        prompt: &str,
        input: &str,
        model: &str,
        temperature: u32,
        stream: bool,
    ) -> (r: ChatRequest)
        ensures
            r@ == chat_request_of(
                GenerationRequestView {
                    model: model@,
                    temperature,
                    system_prompt: prompt@,
                    user_input: input@,
                },
                stream,
            ),
    {
        let request = GenerationRequest {
            model: String::from_str(model),
            temperature,
            system_prompt: String::from_str(prompt),
            user_input: String::from_str(input),
        };
        self.generator.chat_request(&request, stream)
    }

    /// The completion that the provider's reply holds, or `EmptyResponse`
    /// where it holds none. A completion is never empty.
    pub fn generate(&self, reply: &ChatReply) -> (r: Result<String, Error>)
        ensures
            r is Err <==> no_content(reply@),
            match r {
                Ok(text) => completion_of(reply@) == Ok::<Seq<char>, ErrorView>(text@)
                    && text@.len() > 0,
                Err(error) => error@ == ErrorView::EmptyResponse,
            },
    {
        self.generator.generate_completion(reply)
    }

    /// What one event of the provider's streamed reply amounts to.
    pub fn generate_stream(&self, event: &StreamEvent) -> (r: StreamStep)
        ensures
            r@ == stream_step(event@),
    {
        self.generator.stream_completion(event)
    }
}

} // verus!
