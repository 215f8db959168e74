use ollama_proxy::config::ApiType;
use ollama_proxy::decode::{ChunkEvent, DecodeError, WireDecoder};

fn feed_all(kind: ApiType, frags: &[&[u8]]) -> Vec<Result<ChunkEvent, DecodeError>> {
    let mut d = WireDecoder::new(kind);
    let mut out = Vec::new();
    for f in frags {
        let v: Vec<u8> = f.to_vec();
        out.extend(d.feed(&v));
    }
    out
}

fn contents(out: &[Result<ChunkEvent, DecodeError>]) -> Vec<(String, bool)> {
    out.iter()
        .map(|r| match r {
            Ok(e) => (e.content.clone(), e.done),
            Err(e) => (format!("<error:{:?}>", e), false),
        })
        .collect()
}

const OLLAMA_STREAM: &[u8] =
    b"{\"message\":{\"content\":\"hel\"},\"done\":false}\n{\"message\":{\"content\":\"lo\"},\"done\":true}\n";

#[test]
fn ollama_two_lines() {
    let out = feed_all(ApiType::Ollama, &[OLLAMA_STREAM]);
    assert_eq!(
        contents(&out),
        vec![("hel".to_string(), false), ("lo".to_string(), true)]
    );
}

#[test]
fn ollama_every_split_point_same_chunks() {
    let whole = feed_all(ApiType::Ollama, &[OLLAMA_STREAM]);
    for cut in 0..=OLLAMA_STREAM.len() {
        let (a, b) = OLLAMA_STREAM.split_at(cut);
        let out = feed_all(ApiType::Ollama, &[a, b]);
        assert_eq!(contents(&out), contents(&whole), "split at {}", cut);
    }
}

#[test]
fn ollama_byte_by_byte_same_chunks() {
    let whole = feed_all(ApiType::Ollama, &[OLLAMA_STREAM]);
    let frags: Vec<&[u8]> = OLLAMA_STREAM.chunks(1).collect();
    let out = feed_all(ApiType::Ollama, &frags);
    assert_eq!(contents(&out), contents(&whole));
}

#[test]
fn ollama_multibyte_content_split_mid_character() {
    let line = "{\"message\":{\"content\":\"caf\u{e9} au lait\"},\"done\":true}\n".as_bytes();
    let whole = feed_all(ApiType::Ollama, &[line]);
    assert_eq!(
        contents(&whole),
        vec![("caf\u{e9} au lait".to_string(), true)]
    );
    for cut in 0..=line.len() {
        let (a, b) = line.split_at(cut);
        let out = feed_all(ApiType::Ollama, &[a, b]);
        assert_eq!(contents(&out), contents(&whole), "split at {}", cut);
    }
}

#[test]
fn ollama_line_without_message_is_skipped() {
    let out = feed_all(
        ApiType::Ollama,
        &[b"{\"done\":false}\n{\"message\":{\"content\":\"x\"},\"done\":true}\n"],
    );
    assert_eq!(contents(&out), vec![("x".to_string(), true)]);
}

#[test]
fn ollama_done_without_message_yields_synthetic_terminal() {
    let out = feed_all(ApiType::Ollama, &[b"{\"done\":true}\n"]);
    assert_eq!(contents(&out), vec![("".to_string(), true)]);
}

#[test]
fn ollama_bytes_after_done_are_discarded() {
    let out = feed_all(
        ApiType::Ollama,
        &[b"{\"message\":{\"content\":\"x\"},\"done\":true}\n{\"message\":{\"content\":\"y\"},\"done\":false}\n"],
    );
    assert_eq!(contents(&out), vec![("x".to_string(), true)]);
    let mut d = WireDecoder::new(ApiType::Ollama);
    let first: Vec<u8> = b"{\"message\":{\"content\":\"x\"},\"done\":true}\n".to_vec();
    assert_eq!(d.feed(&first).len(), 1);
    let late: Vec<u8> = b"{\"message\":{\"content\":\"y\"},\"done\":false}\n".to_vec();
    assert_eq!(d.feed(&late).len(), 0);
}

#[test]
fn ollama_malformed_json_is_final_error() {
    let out = feed_all(ApiType::Ollama, &[b"not json\nmore\n"]);
    assert_eq!(out.len(), 1);
    assert_eq!(out[0], Err(DecodeError::MalformedChunk));
}

#[test]
fn ollama_done_not_boolean_is_error() {
    let out = feed_all(ApiType::Ollama, &[b"{\"done\":\"yes\"}\n"]);
    assert_eq!(out, vec![Err(DecodeError::MalformedChunk)]);
}

#[test]
fn ollama_invalid_utf8_line_is_error() {
    let out = feed_all(ApiType::Ollama, &[b"\xff\xfe{\"done\":true}\n"]);
    assert_eq!(out, vec![Err(DecodeError::InvalidUtf8)]);
}

#[test]
fn ollama_blank_lines_are_skipped() {
    let out = feed_all(
        ApiType::Ollama,
        &[b"\n  \r\n{\"message\":{\"content\":\"a\"},\"done\":true}\n"],
    );
    assert_eq!(contents(&out), vec![("a".to_string(), true)]);
}

#[test]
fn ollama_incomplete_line_waits_for_more_bytes() {
    let mut d = WireDecoder::new(ApiType::Ollama);
    let part: Vec<u8> = b"{\"message\":{\"content\":\"a\"}".to_vec();
    assert!(d.feed(&part).is_empty());
    let rest: Vec<u8> = b",\"done\":true}\n".to_vec();
    let out = d.feed(&rest);
    assert_eq!(contents(&out), vec![("a".to_string(), true)]);
}

const OPENAI_STREAM: &[u8] =
    b"data: {\"choices\":[{\"delta\":{\"content\":\"Hi\"}}]}\n\ndata: [DONE]\n\n";

#[test]
fn openai_content_then_sentinel() {
    let out = feed_all(ApiType::Openai, &[OPENAI_STREAM]);
    assert_eq!(
        contents(&out),
        vec![("Hi".to_string(), false), ("".to_string(), true)]
    );
}

#[test]
fn openai_every_split_point_same_chunks() {
    let whole = feed_all(ApiType::Openai, &[OPENAI_STREAM]);
    for cut in 0..=OPENAI_STREAM.len() {
        let (a, b) = OPENAI_STREAM.split_at(cut);
        let out = feed_all(ApiType::Openai, &[a, b]);
        assert_eq!(contents(&out), contents(&whole), "split at {}", cut);
    }
}

#[test]
fn openai_byte_by_byte_same_chunks() {
    let whole = feed_all(ApiType::Openai, &[OPENAI_STREAM]);
    let frags: Vec<&[u8]> = OPENAI_STREAM.chunks(1).collect();
    let out = feed_all(ApiType::Openai, &frags);
    assert_eq!(contents(&out), contents(&whole));
}

#[test]
fn openai_sentinel_yields_exactly_one_terminal() {
    let out = feed_all(ApiType::Openai, &[OPENAI_STREAM]);
    let terminals = out
        .iter()
        .filter(|r| matches!(r, Ok(e) if e.done))
        .count();
    assert_eq!(terminals, 1);
    assert!(matches!(out.last().unwrap(), Ok(e) if e.done && e.content.is_empty()));
}

#[test]
fn openai_frame_without_content_is_skipped() {
    let out = feed_all(
        ApiType::Openai,
        &[b"data: {\"choices\":[{\"delta\":{}}]}\n\ndata: [DONE]\n\n"],
    );
    assert_eq!(contents(&out), vec![("".to_string(), true)]);
}

#[test]
fn openai_non_data_lines_are_skipped() {
    let out = feed_all(
        ApiType::Openai,
        &[b"event: ping\ndata: {\"choices\":[{\"delta\":{\"content\":\"a\"}}]}\n\ndata: [DONE]\n\n"],
    );
    assert_eq!(
        contents(&out),
        vec![("a".to_string(), false), ("".to_string(), true)]
    );
}

#[test]
fn openai_malformed_payload_is_final_error() {
    let out = feed_all(ApiType::Openai, &[b"data: {broken\n\n"]);
    assert_eq!(out, vec![Err(DecodeError::MalformedChunk)]);
}

#[test]
fn openai_finish_without_sentinel_yields_terminal() {
    let mut d = WireDecoder::new(ApiType::Openai);
    let frag: Vec<u8> = b"data: {\"choices\":[{\"delta\":{\"content\":\"Hi\"}}]}\n".to_vec();
    let out = d.feed(&frag);
    assert_eq!(contents(&out), vec![("Hi".to_string(), false)]);
    let fin = d.finish();
    assert!(matches!(fin, Some(e) if e.done && e.content.is_empty()));
}

#[test]
fn openai_finish_after_sentinel_yields_nothing() {
    let mut d = WireDecoder::new(ApiType::Openai);
    let frag: Vec<u8> = OPENAI_STREAM.to_vec();
    d.feed(&frag);
    assert!(d.finish().is_none());
}

#[test]
fn ollama_finish_yields_nothing() {
    let mut d = WireDecoder::new(ApiType::Ollama);
    let frag: Vec<u8> = b"{\"message\":{\"content\":\"a\"},\"done\":false}\n".to_vec();
    d.feed(&frag);
    assert!(d.finish().is_none());
}
