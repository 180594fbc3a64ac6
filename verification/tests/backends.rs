use shelldon::backend::genai::GenAI;
use shelldon::backend::openai::OpenAI;
use shelldon::error::Error;
use shelldon::processor::{
    build_request, collect_fragments, completion_from, fragment_from, ChatMessage, ChatReply,
    ChatRequest, CompletionGenerator, CompletionProcessor, GenerationRequest, Role, StreamEvent,
    StreamStep,
};

fn request() -> GenerationRequest {
    GenerationRequest {
        model: "gpt-4o".to_string(),
        temperature: 0.7f32.to_bits(),
        system_prompt: "Act as a shell expert.".to_string(),
        user_input: "list files".to_string(),
    }
}

fn messages() -> Vec<ChatMessage> {
    vec![
        ChatMessage { role: Role::System, content: "Act as a shell expert.".to_string() },
        ChatMessage { role: Role::User, content: "list files".to_string() },
    ]
}

fn reply(choices: Vec<Option<&str>>) -> ChatReply {
    ChatReply { choices: choices.into_iter().map(|c| c.map(|text| text.to_string())).collect() }
}

fn chunk(text: &str) -> StreamEvent {
    StreamEvent::Chunk(Some(text.to_string()))
}

/// A provider for tests that answers as every provider has to.
struct Canned;

impl CompletionGenerator for Canned {
    fn chat_request(&self, request: &GenerationRequest, stream: bool) -> ChatRequest {
        build_request(request, stream)
    }

    fn generate_completion(&self, reply: &ChatReply) -> Result<String, Error> {
        completion_from(reply)
    }

    fn stream_completion(&self, event: &StreamEvent) -> StreamStep {
        fragment_from(event)
    }
}

#[test]
fn openai_needs_a_credential() {
    assert!(matches!(OpenAI::new(None), Err(Error::APIKeyNotSet)));
}

#[test]
fn openai_presents_the_credential_it_was_given() {
    let provider = OpenAI::new(Some("key-for-tests".to_string())).unwrap();
    assert_eq!(provider.api_key(), "key-for-tests");
    let provider = OpenAI::new(Some(String::new())).unwrap();
    assert_eq!(provider.api_key(), "");
}

#[test]
fn openai_sends_model_temperature_and_both_messages() {
    let provider = OpenAI::new(Some("key-for-tests".to_string())).unwrap();
    assert_eq!(
        provider.chat_request(&request(), false),
        ChatRequest {
            model: "gpt-4o".to_string(),
            temperature: 0.7f32.to_bits(),
            messages: messages(),
            stream: false,
        }
    );
    assert_eq!(
        provider.chat_request(&request(), true),
        ChatRequest {
            model: "gpt-4o".to_string(),
            temperature: 0.7f32.to_bits(),
            messages: messages(),
            stream: true,
        }
    );
}

#[test]
fn every_provider_sends_the_same_request() {
    let openai = OpenAI::new(Some("key-for-tests".to_string())).unwrap();
    let genai = GenAI::new();
    for stream in [false, true] {
        let sent = genai.chat_request(&request(), stream);
        assert_eq!(
            sent,
            ChatRequest {
                model: "gpt-4o".to_string(),
                temperature: 0.7f32.to_bits(),
                messages: messages(),
                stream,
            }
        );
        assert_eq!(openai.chat_request(&request(), stream), sent);
        assert_eq!(Canned.chat_request(&request(), stream), sent);
    }
}

#[test]
fn the_temperature_survives_as_bits() {
    let sent = GenAI::new().chat_request(&request(), false);
    assert_eq!(f32::from_bits(sent.temperature), 0.7f32);
    let sent = OpenAI::new(Some("k".to_string())).unwrap().chat_request(&request(), true);
    assert_eq!(f32::from_bits(sent.temperature), 0.7f32);
}

#[test]
fn the_completion_is_the_first_choice() {
    let provider = OpenAI::new(Some("k".to_string())).unwrap();
    assert_eq!(provider.generate_completion(&reply(vec![Some("ls -la")])), Ok("ls -la".to_string()));
    assert_eq!(
        provider.generate_completion(&reply(vec![Some("ls -la"), Some("dir"), None])),
        Ok("ls -la".to_string())
    );
    assert_eq!(
        GenAI::new().generate_completion(&reply(vec![Some("ls -la")])),
        Ok("ls -la".to_string())
    );
}

#[test]
fn a_reply_without_content_is_an_empty_response() {
    let openai = OpenAI::new(Some("k".to_string())).unwrap();
    let genai = GenAI::new();
    let empties = [
        reply(vec![]),
        reply(vec![None]),
        reply(vec![None, Some("second")]),
        reply(vec![Some("")]),
        reply(vec![Some(""), Some("second")]),
    ];
    for empty in empties {
        assert_eq!(openai.generate_completion(&empty), Err(Error::EmptyResponse));
        assert_eq!(genai.generate_completion(&empty), Err(Error::EmptyResponse));
        assert_eq!(completion_from(&empty), Err(Error::EmptyResponse));
    }
}

#[test]
fn a_completion_is_never_empty() {
    assert_eq!(completion_from(&reply(vec![Some("")])), Err(Error::EmptyResponse));
    assert_eq!(GenAI::new().generate_completion(&reply(vec![Some("")])), Err(Error::EmptyResponse));
    assert_eq!(completion_from(&reply(vec![Some(" ")])), Ok(" ".to_string()));
}

#[test]
fn each_event_is_a_fragment_a_pause_or_the_end() {
    let provider = GenAI::new();
    assert_eq!(provider.stream_completion(&chunk("ls")), StreamStep::Yield("ls".to_string()));
    assert_eq!(
        provider.stream_completion(&StreamEvent::Chunk(None)),
        StreamStep::Yield(String::new())
    );
    assert_eq!(provider.stream_completion(&StreamEvent::Other), StreamStep::Skip);
    assert_eq!(provider.stream_completion(&StreamEvent::Broken), StreamStep::Stop);
    let provider = OpenAI::new(Some("k".to_string())).unwrap();
    assert_eq!(provider.stream_completion(&chunk("ls")), StreamStep::Yield("ls".to_string()));
    assert_eq!(provider.stream_completion(&StreamEvent::Broken), StreamStep::Stop);
}

#[test]
fn fragments_come_in_the_order_of_their_events() {
    let events =
        vec![StreamEvent::Other, chunk("ls"), StreamEvent::Chunk(None), chunk(" -la"), StreamEvent::Other];
    assert_eq!(
        collect_fragments(&events),
        vec!["ls".to_string(), String::new(), " -la".to_string()]
    );
    assert_eq!(collect_fragments(&events).concat(), "ls -la");
}

#[test]
fn a_broken_event_ends_the_sequence_and_keeps_what_came() {
    let events = vec![chunk("ls"), chunk(" -"), StreamEvent::Broken, chunk("la"), StreamEvent::Other];
    assert_eq!(collect_fragments(&events), vec!["ls".to_string(), " -".to_string()]);
    assert_eq!(collect_fragments(&vec![StreamEvent::Broken, chunk("x")]), Vec::<String>::new());
    assert_eq!(collect_fragments(&Vec::new()), Vec::<String>::new());
}

#[test]
fn the_processor_forwards_to_its_provider() {
    let processor = CompletionProcessor::new(OpenAI::new(Some("k".to_string())).unwrap());
    assert_eq!(
        processor.request("Act as a shell expert.", "list files", "gpt-4o", 0.7f32.to_bits(), false),
        ChatRequest {
            model: "gpt-4o".to_string(),
            temperature: 0.7f32.to_bits(),
            messages: messages(),
            stream: false,
        }
    );
    assert_eq!(processor.generate(&reply(vec![Some("ls")])), Ok("ls".to_string()));
    assert_eq!(processor.generate(&reply(vec![])), Err(Error::EmptyResponse));
    assert_eq!(processor.generate_stream(&chunk("l")), StreamStep::Yield("l".to_string()));
    assert_eq!(processor.generate_stream(&StreamEvent::Broken), StreamStep::Stop);

    let processor = CompletionProcessor::new(GenAI::new());
    let sent = processor.request("p", "i", "mistral-small", 1u32, true);
    assert_eq!(sent.temperature, 1u32);
    assert_eq!(sent.model, "mistral-small");
    assert!(sent.stream);
}

#[test]
fn a_provider_of_the_caller_can_be_bound() {
    let processor = CompletionProcessor::new(Canned);
    assert_eq!(processor.generate(&reply(vec![Some("echo hi")])), Ok("echo hi".to_string()));
    assert_eq!(processor.generate(&reply(vec![None])), Err(Error::EmptyResponse));
    assert_eq!(processor.generate_stream(&StreamEvent::Other), StreamStep::Skip);
    assert_eq!(processor.request("p", "i", "m", 0, false).messages.len(), 2);
}
