//! The trusted boundary to the outside routines the decoders build on:
//! UTF-8 decoding and per-line JSON parsing.
//!
//! Each line of an upstream response is interpreted by an outside parser.
//! What a parse returns is a function of the line's characters alone, so the
//! result of each parser is given a name (`ollama_line_of`,
//! `openai_payload_of`) that the decoders' contracts are stated over.

use vstd::prelude::*;

verus! {

use vstd::utf8::{valid_utf8, decode_utf8};

/// One parsed line of an OllamaStyle NDJSON response: the content of its
/// `message` field if the line carries one, and its `done` flag.
pub struct OllamaLine {
    pub content: Option<String>,
    pub done: bool,
}

/// The parse of an OllamaStyle response line: `None` for a line that is not
/// a JSON object of the expected shape, otherwise the optional message
/// content and the `done` flag.
pub uninterp spec fn ollama_line_of(line: Seq<char>) -> Option<(Option<Seq<char>>, bool)>;

/// The parse of the JSON payload of an OpenAIStyle `data:` frame: `None`
/// for a malformed payload, `Some(None)` for a well-formed payload without
/// delta content in its first choice, and `Some(Some(text))` for one with.
pub uninterp spec fn openai_payload_of(data: Seq<char>) -> Option<Option<Seq<char>>>;

/// The view of a parsed OllamaStyle line, the shape `ollama_line_of` names.
pub open spec fn ollama_line_view(r: Option<OllamaLine>) -> Option<(Option<Seq<char>>, bool)> {
    match r {
        None => None,
        Some(l) => Some(
            (
                match l.content {
                    None => None,
                    Some(c) => Some(c@),
                },
                l.done,
            ),
        ),
    }
}

/// The view of a parsed OpenAIStyle payload, the shape `openai_payload_of`
/// names.
pub open spec fn openai_payload_view(r: Option<Option<String>>) -> Option<Option<Seq<char>>> {
    match r {
        None => None,
        Some(None) => Some(None),
        Some(Some(c)) => Some(Some(c@)),
    }
}

/// Relies on `String::from_utf8`: it succeeds exactly on valid UTF-8 input
/// and returns its decoding.
#[verifier::external_body]
pub(crate) fn utf8_to_string(bytes: Vec<u8>) -> (r: Option<String>)
    ensures
        r matches Some(s) ==> valid_utf8(bytes@) && s@ == decode_utf8(bytes@),
        r is None ==> !valid_utf8(bytes@),
{
    match String::from_utf8(bytes) {
        Ok(s) => Some(s),
        Err(_) => None,
    }
}

/// Relies on `serde_json::from_str` and the `serde_json::Value` accessors
/// `get`, `as_bool`, `as_str` and `is_null`: a line parses to the value
/// `ollama_line_of` names, a function of the line alone. The line must be a
/// JSON object whose `done` field is a boolean; its `message` field may be
/// absent or null, and otherwise must be an object whose `content` field is
/// a string.
#[verifier::external_body]
pub(crate) fn parse_ollama_line(line: &str) -> (r: Option<OllamaLine>)
    ensures
        ollama_line_view(r) == ollama_line_of(line@),
{
    let v: serde_json::Value = serde_json::from_str(line).ok()?;
    let done = v.get("done")?.as_bool()?;
    let content = match v.get("message") {
        None => None,
        Some(m) if m.is_null() => None,
        Some(m) => Some(m.get("content")?.as_str()?.to_string()),
    };
    Some(OllamaLine { content, done })
}

/// Relies on `serde_json::from_str` and the `serde_json::Value` accessors
/// `get`, `as_array`, `as_object`, `as_str` and `is_null`: a payload parses
/// to the value `openai_payload_of` names, a function of the payload alone.
/// The payload must be a JSON object whose `choices` field is an array; only
/// the first choice is consulted, and its `delta.content` text, when
/// present, is the parse's content.
#[verifier::external_body]
pub(crate) fn parse_openai_payload(data: &str) -> (r: Option<Option<String>>)
    ensures
        openai_payload_view(r) == openai_payload_of(data@),
{
    let v: serde_json::Value = serde_json::from_str(data).ok()?;
    let choices = v.get("choices")?.as_array()?;
    let c = match choices.first() {
        Some(c) => c.as_object()?,
        None => return Some(None),
    };
    let d = match c.get("delta") {
        Some(d) if !d.is_null() => d.as_object()?,
        _ => return Some(None),
    };
    let t = match d.get("content") {
        Some(t) if !t.is_null() => t,
        _ => return Some(None),
    };
    Some(Some(t.as_str()?.to_string()))
}

} // verus!
