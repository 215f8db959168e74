//! The canonical data shapes shared by the gateway: chat messages, model
//! descriptors, streamed chunks, and the response bodies of the inbound API.

use vstd::prelude::*;

verus! {

use vstd::string::StringExecFns;

/// One chat message: a role ("user", "assistant" or "system") and its text.
#[derive(Clone, Debug)]
pub struct Message {
    pub role: String,
    pub content: String,
}

/// The mathematical shape of a chat message.
pub struct MessageView {
    pub role: Seq<char>,
    pub content: Seq<char>,
}

impl View for Message {
    type V = MessageView;

    open spec fn view(&self) -> MessageView {
        MessageView { role: self.role@, content: self.content@ }
    }
}

/// Optional metadata of a model, as the inbound catalog endpoint reports it.
#[derive(Clone, Debug)]
pub struct ModelDetails {
    pub format: String,
    pub family: String,
    pub families: Vec<String>,
    pub parameter_size: String,
    pub quantization_level: String,
}

/// The mathematical shape of a model's metadata.
pub struct ModelDetailsView {
    pub format: Seq<char>,
    pub family: Seq<char>,
    pub families: Seq<Seq<char>>,
    pub parameter_size: Seq<char>,
    pub quantization_level: Seq<char>,
}

impl View for ModelDetails {
    type V = ModelDetailsView;

    open spec fn view(&self) -> ModelDetailsView {
        ModelDetailsView {
            format: self.format@,
            family: self.family@,
            families: self.families@.map_values(|s: String| s@),
            parameter_size: self.parameter_size@,
            quantization_level: self.quantization_level@,
        }
    }
}

/// A model descriptor. `name` is the provider-local name; `model` is the
/// namespaced identifier visible to callers of the gateway.
#[derive(Clone, Debug)]
pub struct Model {
    pub name: String,
    pub model: String,
    pub modified_at: Option<String>,
    pub size: Option<u64>,
    pub digest: Option<String>,
    pub details: Option<ModelDetails>,
}

/// The mathematical shape of a model descriptor.
pub struct ModelView {
    pub name: Seq<char>,
    pub model: Seq<char>,
    pub modified_at: Option<Seq<char>>,
    pub size: Option<u64>,
    pub digest: Option<Seq<char>>,
    pub details: Option<ModelDetailsView>,
}

impl View for Model {
    type V = ModelView;

    open spec fn view(&self) -> ModelView {
        ModelView {
            name: self.name@,
            model: self.model@,
            modified_at: match self.modified_at {
                None => None,
                Some(s) => Some(s@),
            },
            size: self.size,
            digest: match self.digest {
                None => None,
                Some(s) => Some(s@),
            },
            details: match self.details {
                None => None,
                Some(d) => Some(d@),
            },
        }
    }
}

/// The views of a model catalog.
pub open spec fn models_view(v: Seq<Model>) -> Seq<ModelView> {
    v.map_values(|m: Model| m@)
}

/// The catalog returned by the inbound tags endpoint.
pub struct ModelsResponse {
    pub models: Vec<Model>,
}

/// The canonical streamed chunk every provider is normalized to: one piece
/// of assistant text, flagged `done` exactly on the terminal chunk.
#[derive(Clone, Debug)]
pub struct StreamChatChunk {
    pub model: String,
    pub message: Message,
    pub created_at: String,
    pub done: bool,
}

/// The mathematical shape of a streamed chunk.
pub struct StreamChatChunkView {
    pub model: Seq<char>,
    pub message: MessageView,
    pub created_at: Seq<char>,
    pub done: bool,
}

impl View for StreamChatChunk {
    type V = StreamChatChunkView;

    open spec fn view(&self) -> StreamChatChunkView {
        StreamChatChunkView {
            model: self.model@,
            message: self.message@,
            created_at: self.created_at@,
            done: self.done,
        }
    }
}

/// An inbound generate request: one prompt for a namespaced model, with an
/// optional streaming flag and an opaque option overlay for the upstream.
pub struct GenerateRequest {
    pub model: String,
    pub prompt: String,
    pub stream: Option<bool>,
    pub options: Option<serde_json::Value>,
}

/// An inbound chat request: a conversation for a namespaced model, with an
/// optional streaming flag and an opaque option overlay for the upstream.
pub struct ChatRequest {
    pub model: String,
    pub messages: Vec<Message>,
    pub stream: Option<bool>,
    pub options: Option<serde_json::Value>,
}

/// Whether a chat request asks for a streamed response: the caller's flag,
/// or streaming by default.
pub fn stream_mode(stream: &Option<bool>) -> (r: bool)
    ensures
        r == (match stream {
            Some(b) => *b,
            None => true,
        }),
{
    match stream {
        Some(b) => *b,
        None => true,
    }
}

/// The non-streaming response of the generate interface. The duration and
/// count fields are not measured by the gateway and are zero.
pub struct GenerateResponse {
    pub model: String,
    pub created_at: String,
    pub response: String,
    pub done: bool,
    pub context: Option<Vec<i32>>,
    pub total_duration: u64,
    pub load_duration: u64,
    pub prompt_eval_count: u64,
    pub eval_count: u64,
    pub eval_duration: u64,
}

/// The non-streaming response of the chat interface. The duration and count
/// fields are not measured by the gateway and are zero.
pub struct ChatResponse {
    pub model: String,
    pub created_at: String,
    pub message: Message,
    pub done: bool,
    pub total_duration: u64,
    pub load_duration: u64,
    pub prompt_eval_count: u64,
    pub eval_count: u64,
    pub eval_duration: u64,
}

/// Builds the chat message list of a generate request: one message with
/// the "user" role carrying the prompt.
pub fn prompt_messages(prompt: String) -> (r: Vec<Message>)
    ensures
        r@.len() == 1,
        r@[0].role@ == "user"@,
        r@[0].content@ == prompt@,
{
    let mut v: Vec<Message> = Vec::new();
    v.push(Message { role: String::from_str("user"), content: prompt });
    v
}

/// Wraps one decoded chunk event into the canonical streamed chunk: the
/// event's text as one assistant message, stamped with the request's model
/// name and a creation time, terminal exactly when the event was.
pub fn make_stream_chunk(model: &String, created_at: String, event: crate::decode::ChunkEvent)
    -> (r: StreamChatChunk)
    ensures
        r.model@ == model@,
        r.created_at@ == created_at@,
        r.message.role@ == "assistant"@,
        r.message.content@ == event@.content,
        r.done == event@.done,
{
    StreamChatChunk {
        model: model.clone(),
        message: Message { role: String::from_str("assistant"), content: event.content },
        created_at,
        done: event.done,
    }
}

/// Builds the non-streaming chat response around an aggregated answer: the
/// answer is carried as one assistant message, the response is final, and
/// the unmeasured duration and count fields are zero.
pub fn build_chat_response(model: String, created_at: String, content: String) -> (r:
    ChatResponse)
    ensures
        r.model@ == model@,
        r.created_at@ == created_at@,
        r.message.role@ == "assistant"@,
        r.message.content@ == content@,
        r.done,
        r.total_duration == 0,
        r.load_duration == 0,
        r.prompt_eval_count == 0,
        r.eval_count == 0,
        r.eval_duration == 0,
{
    ChatResponse {
        model,
        created_at,
        message: Message { role: String::from_str("assistant"), content },
        done: true,
        total_duration: 0,
        load_duration: 0,
        prompt_eval_count: 0,
        eval_count: 0,
        eval_duration: 0,
    }
}

/// Builds the non-streaming generate response around an aggregated answer,
/// with no context and the unmeasured duration and count fields zero.
pub fn build_generate_response(model: String, created_at: String, content: String) -> (r:
    GenerateResponse)
    ensures
        r.model@ == model@,
        r.created_at@ == created_at@,
        r.response@ == content@,
        r.done,
        r.context is None,
        r.total_duration == 0,
        r.load_duration == 0,
        r.prompt_eval_count == 0,
        r.eval_count == 0,
        r.eval_duration == 0,
{
    GenerateResponse {
        model,
        created_at,
        response: content,
        done: true,
        context: None,
        total_duration: 0,
        load_duration: 0,
        prompt_eval_count: 0,
        eval_count: 0,
        eval_duration: 0,
    }
}

} // verus!
