use ollama_proxy::fake::{build_fake_response, FakeProvider};
use ollama_proxy::models::{Message, Model};

fn msg(role: &str, content: &str) -> Message {
    Message {
        role: role.to_string(),
        content: content.to_string(),
    }
}

fn model_named(name: &str) -> Model {
    Model {
        name: name.to_string(),
        model: name.to_string(),
        modified_at: None,
        size: None,
        digest: None,
        details: None,
    }
}

#[test]
fn fake_catalog_has_llama3() {
    let p = FakeProvider::new();
    let models = p.get_models();
    assert_eq!(models.len(), 1);
    assert_eq!(models[0].name, "llama3");
    assert_eq!(models[0].size, Some(4820852800));
    assert_eq!(models[0].details.as_ref().unwrap().format, "gguf");
}

#[test]
fn fake_chat_replies_to_last_message() {
    let p = FakeProvider::new();
    let messages = vec![msg("user", "first"), msg("user", "second")];
    let r = p.chat(&model_named("llama3"), &messages).unwrap();
    assert_eq!(r, "Replied to: second");
}

#[test]
fn fake_chat_unknown_model_is_error() {
    let p = FakeProvider::new();
    let err = p.chat(&model_named("other"), &vec![]).unwrap_err();
    assert_eq!(err.message, "Model not found");
}

#[test]
fn fake_chat_stream_is_ten_chunks_quoting_last() {
    let p = FakeProvider::new();
    let messages = vec![msg("user", "hi")];
    let chunks = p.chat_stream(&model_named("llama3"), &messages).unwrap();
    assert_eq!(chunks.len(), 10);
    assert_eq!(chunks[0], "Hello");
    assert_eq!(chunks[8], " 'hi'");
    assert_eq!(chunks[9], ".");
    assert_eq!(
        chunks.concat(),
        "Hello, this is a simulated stream reply to 'hi'."
    );
}

#[test]
fn fake_response_marks_only_last_chunk_done() {
    let model = "llama3".to_string();
    let first = build_fake_response(&model, "t".to_string(), "Hello".to_string(), 0);
    assert!(!first.done);
    assert_eq!(first.load_duration, 123456789);
    assert_eq!(first.prompt_eval_count, 10);
    assert_eq!(first.eval_count, 1);
    let last = build_fake_response(&model, "t".to_string(), ".".to_string(), 9);
    assert!(last.done);
    assert_eq!(last.total_duration, 1234567890);
    assert_eq!(last.eval_duration, 987654321);
    assert_eq!(last.eval_count, 10);
}
