use ollama_proxy::aggregate::aggregate;
use ollama_proxy::config::ApiType;
use ollama_proxy::decode::WireDecoder;
use ollama_proxy::models::{build_chat_response, build_generate_response, make_stream_chunk,
    Message, StreamChatChunk};
use ollama_proxy::providers::ProviderError;

fn chunk(content: &str, done: bool) -> StreamChatChunk {
    StreamChatChunk {
        model: "m".to_string(),
        message: Message {
            role: "assistant".to_string(),
            content: content.to_string(),
        },
        created_at: "t".to_string(),
        done,
    }
}

#[test]
fn aggregate_concatenates_non_terminal_content() {
    let items = vec![
        Ok(chunk("a", false)),
        Ok(chunk("b", false)),
        Ok(chunk("", true)),
    ];
    assert_eq!(aggregate(items).unwrap(), "ab");
}

#[test]
fn aggregate_keeps_text_carried_by_a_terminal_chunk() {
    let items = vec![Ok(chunk("hel", false)), Ok(chunk("lo", true))];
    assert_eq!(aggregate(items).unwrap(), "hello");
}

#[test]
fn aggregate_of_empty_stream_is_empty() {
    assert_eq!(aggregate(vec![]).unwrap(), "");
}

#[test]
fn aggregate_surfaces_first_error_and_discards_partials() {
    let items = vec![
        Ok(chunk("a", false)),
        Err(ProviderError {
            message: "boom".to_string(),
        }),
        Ok(chunk("b", false)),
    ];
    let err = aggregate(items).unwrap_err();
    assert_eq!(err.message, "boom");
}

/// The non-streaming chat path: an OllamaStyle upstream that sends "hel"
/// and a terminal "lo" yields one final answer "hello".
#[test]
fn chat_scenario_non_streaming() {
    let mut d = WireDecoder::new(ApiType::Ollama);
    let body: Vec<u8> =
        b"{\"message\":{\"content\":\"hel\"},\"done\":false}\n{\"message\":{\"content\":\"lo\"},\"done\":true}\n"
            .to_vec();
    let events = d.feed(&body);
    let model = "llama3".to_string();
    let items: Vec<Result<StreamChatChunk, ProviderError>> = events
        .into_iter()
        .map(|r| match r {
            Ok(e) => Ok(make_stream_chunk(&model, "now".to_string(), e)),
            Err(e) => Err(ProviderError {
                message: format!("{:?}", e),
            }),
        })
        .collect();
    let content = aggregate(items).unwrap();
    let resp = build_chat_response("[demo]-llama3".to_string(), "now".to_string(), content);
    assert_eq!(resp.message.content, "hello");
    assert_eq!(resp.message.role, "assistant");
    assert!(resp.done);
    assert_eq!(resp.total_duration, 0);
}

/// The streaming chat path: the same upstream yields exactly two canonical
/// chunks, the second terminal.
#[test]
fn chat_scenario_streaming() {
    let mut d = WireDecoder::new(ApiType::Ollama);
    let body: Vec<u8> =
        b"{\"message\":{\"content\":\"hel\"},\"done\":false}\n{\"message\":{\"content\":\"lo\"},\"done\":true}\n"
            .to_vec();
    let events = d.feed(&body);
    assert_eq!(events.len(), 2);
    let model = "llama3".to_string();
    let chunks: Vec<StreamChatChunk> = events
        .into_iter()
        .map(|r| make_stream_chunk(&model, "now".to_string(), r.unwrap()))
        .collect();
    assert_eq!(chunks[0].message.content, "hel");
    assert!(!chunks[0].done);
    assert_eq!(chunks[1].message.content, "lo");
    assert!(chunks[1].done);
    assert_eq!(chunks[1].model, "llama3");
}

#[test]
fn generate_response_wraps_answer() {
    let r = build_generate_response("m".to_string(), "t".to_string(), "out".to_string());
    assert_eq!(r.response, "out");
    assert!(r.done);
    assert!(r.context.is_none());
    assert_eq!(r.eval_count, 0);
}

#[test]
fn streaming_is_the_default() {
    assert!(ollama_proxy::models::stream_mode(&None));
    assert!(ollama_proxy::models::stream_mode(&Some(true)));
    assert!(!ollama_proxy::models::stream_mode(&Some(false)));
}

#[test]
fn prompt_messages_is_one_user_message() {
    let v = ollama_proxy::models::prompt_messages("hi".to_string());
    assert_eq!(v.len(), 1);
    assert_eq!(v[0].role, "user");
    assert_eq!(v[0].content, "hi");
}
