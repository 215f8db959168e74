//! The wire-format decoders: stateful line-buffering parsers that turn an
//! arbitrarily fragmented upstream byte stream into a sequence of canonical
//! chunk events.
//!
//! Everything a decoder emits is specified as a pure function of the
//! concatenation of the byte fragments fed to it (`decoded_events`), so the
//! emitted events do not depend on where the stream was cut into fragments.

use vstd::prelude::*;

verus! {

use vstd::utf8::{valid_utf8, decode_utf8};
use crate::config::ApiType;
use crate::lines;
use crate::wire;

/// Why a decoder terminated a stream abnormally.
#[derive(Clone, Copy, Debug, PartialEq, Eq, Structural)]
pub enum DecodeError {
    /// A line (or frame payload) was not valid UTF-8.
    InvalidUtf8,
    /// A line parsed as JSON of an unexpected shape, or not as JSON at all.
    MalformedChunk,
}

/// One canonical chunk event: a piece of assistant text and whether it is
/// the terminal chunk of the stream.
#[derive(Clone, Debug, PartialEq, Eq)]
pub struct ChunkEvent {
    pub content: String,
    pub done: bool,
}

/// The mathematical shape of a chunk event.
pub struct ChunkEventView {
    pub content: Seq<char>,
    pub done: bool,
}

impl View for ChunkEvent {
    type V = ChunkEventView;

    open spec fn view(&self) -> ChunkEventView {
        ChunkEventView { content: self.content@, done: self.done }
    }
}

/// The view of one emitted item: a chunk event or the error that ended the
/// stream.
pub open spec fn event_view(r: Result<ChunkEvent, DecodeError>) -> Result<
    ChunkEventView,
    DecodeError,
> {
    match r {
        Ok(e) => Ok(e@),
        Err(e) => Err(e),
    }
}

/// The synthetic terminal event: empty content, flagged done.
pub open spec fn terminal_event() -> ChunkEventView {
    ChunkEventView { content: seq![], done: true }
}

/// The events an OllamaStyle decoder emits for one complete line. A blank
/// line is skipped; a line with a message becomes one chunk; a line without
/// a message but flagged done becomes the synthetic terminal chunk, so that
/// the stream still ends in exactly one terminal chunk; invalid UTF-8 or a
/// malformed JSON object becomes the stream's final error.
pub open spec fn ollama_line_events(line: Seq<u8>) -> Seq<Result<ChunkEventView, DecodeError>> {
    let t = lines::trim(line);
    if t.len() == 0 {
        seq![]
    } else if !valid_utf8(t) {
        seq![Err(DecodeError::InvalidUtf8)]
    } else {
        match wire::ollama_line_of(decode_utf8(t)) {
            None => seq![Err(DecodeError::MalformedChunk)],
            Some(p) => match p.0 {
                None => if p.1 {
                    seq![Ok(terminal_event())]
                } else {
                    seq![]
                },
                Some(c) => seq![Ok(ChunkEventView { content: c, done: p.1 })],
            },
        }
    }
}

/// Whether one OllamaStyle line terminates the stream: a decode failure or
/// a line flagged done.
pub open spec fn ollama_line_stops(line: Seq<u8>) -> bool {
    let t = lines::trim(line);
    t.len() > 0 && (!valid_utf8(t) || match wire::ollama_line_of(decode_utf8(t)) {
        None => true,
        Some(p) => p.1,
    })
}

/// The bytes of the frame prefix `"data: "`.
pub open spec fn data_prefix() -> Seq<u8> {
    seq![100u8, 97u8, 116u8, 97u8, 58u8, 32u8]
}

/// The bytes of the sentinel line `"data: [DONE]"`.
pub open spec fn done_line() -> Seq<u8> {
    seq![100u8, 97u8, 116u8, 97u8, 58u8, 32u8, 91u8, 68u8, 79u8, 78u8, 69u8, 93u8]
}

/// The events an OpenAIStyle decoder emits for one complete line. The
/// sentinel line becomes the synthetic terminal chunk; a `data:` frame with
/// delta content becomes one non-terminal chunk; a well-formed frame without
/// content, a blank line and any other line are skipped; a frame payload
/// that is invalid UTF-8 or malformed JSON becomes the stream's final error.
pub open spec fn openai_line_events(line: Seq<u8>) -> Seq<Result<ChunkEventView, DecodeError>> {
    let t = lines::trim(line);
    if t.len() == 0 {
        seq![]
    } else if t == done_line() {
        seq![Ok(terminal_event())]
    } else if t.len() >= 6 && t.take(6) == data_prefix() {
        let p = t.skip(6);
        if !valid_utf8(p) {
            seq![Err(DecodeError::InvalidUtf8)]
        } else {
            match wire::openai_payload_of(decode_utf8(p)) {
                None => seq![Err(DecodeError::MalformedChunk)],
                Some(None) => seq![],
                Some(Some(c)) => seq![Ok(ChunkEventView { content: c, done: false })],
            }
        }
    } else {
        seq![]
    }
}

/// Whether one OpenAIStyle line terminates the stream: the sentinel line or
/// a failing `data:` frame.
pub open spec fn openai_line_stops(line: Seq<u8>) -> bool {
    let t = lines::trim(line);
    t == done_line() || (t.len() >= 6 && t.take(6) == data_prefix() && (!valid_utf8(t.skip(6))
        || wire::openai_payload_of(decode_utf8(t.skip(6))) is None))
}

/// The events one complete line contributes, per wire format.
pub open spec fn line_events(kind: ApiType, line: Seq<u8>) -> Seq<
    Result<ChunkEventView, DecodeError>,
> {
    match kind {
        ApiType::Ollama => ollama_line_events(line),
        ApiType::Openai => openai_line_events(line),
    }
}

/// Whether one complete line terminates the stream, per wire format.
pub open spec fn line_stops(kind: ApiType, line: Seq<u8>) -> bool {
    match kind {
        ApiType::Ollama => ollama_line_stops(line),
        ApiType::Openai => openai_line_stops(line),
    }
}

/// The events of a sequence of complete lines, processed in order until the
/// first line that terminates the stream; lines after it are discarded.
pub open spec fn stream_events(kind: ApiType, lns: Seq<Seq<u8>>) -> Seq<
    Result<ChunkEventView, DecodeError>,
>
    decreases lns.len(),
{
    if lns.len() == 0 {
        seq![]
    } else if line_stops(kind, lns[0]) {
        line_events(kind, lns[0])
    } else {
        line_events(kind, lns[0]) + stream_events(kind, lns.skip(1))
    }
}

/// Whether some line of `lns` terminates the stream.
pub open spec fn stream_stopped(kind: ApiType, lns: Seq<Seq<u8>>) -> bool
    decreases lns.len(),
{
    lns.len() > 0 && (line_stops(kind, lns[0]) || stream_stopped(kind, lns.skip(1)))
}

/// Processing lines stops at the first terminating line: the lines after a
/// terminated prefix contribute nothing, and after an unterminated prefix
/// exactly their own events.
pub proof fn lemma_stream_events_append(kind: ApiType, l1: Seq<Seq<u8>>, l2: Seq<Seq<u8>>)
    ensures
        !stream_stopped(kind, l1) ==> stream_events(kind, l1 + l2) == stream_events(kind, l1)
            + stream_events(kind, l2),
        !stream_stopped(kind, l1) ==> stream_stopped(kind, l1 + l2) == stream_stopped(kind, l2),
        stream_stopped(kind, l1) ==> stream_events(kind, l1 + l2) == stream_events(kind, l1),
        stream_stopped(kind, l1) ==> stream_stopped(kind, l1 + l2),
    decreases l1.len(),
{
    if l1.len() == 0 {
        assert(l1 + l2 =~= l2);
        assert(stream_events(kind, l1) + stream_events(kind, l2) =~= stream_events(kind, l2));
    } else {
        assert((l1 + l2)[0] == l1[0]);
        assert((l1 + l2).skip(1) =~= l1.skip(1) + l2);
        lemma_stream_events_append(kind, l1.skip(1), l2);
        if !line_stops(kind, l1[0]) && !stream_stopped(kind, l1.skip(1)) {
            assert(stream_events(kind, l1 + l2) =~= stream_events(kind, l1) + stream_events(
                kind,
                l2,
            ));
        }
    }
}

/// The events a decoder has emitted after receiving `input`, as a function
/// of the received bytes alone: the events of the complete lines of `input`.
/// Bytes after the last newline contribute nothing until their line is
/// completed by later input.
pub open spec fn decoded_events(kind: ApiType, input: Seq<u8>) -> Seq<
    Result<ChunkEventView, DecodeError>,
> {
    stream_events(kind, lines::line_split(input).0)
}

/// Whether the stream carried by `input` has terminated: some complete line
/// of `input` was terminal or failed to decode.
pub open spec fn decoded_stopped(kind: ApiType, input: Seq<u8>) -> bool {
    stream_stopped(kind, lines::line_split(input).0)
}

/// Growing the input only appends events; once the stream has terminated,
/// the events are frozen.
pub proof fn lemma_decoded_events_grow(kind: ApiType, a: Seq<u8>, b: Seq<u8>)
    ensures
        decoded_events(kind, a).is_prefix_of(decoded_events(kind, a + b)),
        decoded_stopped(kind, a) ==> decoded_events(kind, a + b) == decoded_events(kind, a)
            && decoded_stopped(kind, a + b),
{
    lines::lemma_line_split_append(a, b);
    let l1 = lines::line_split(a).0;
    let l2 = lines::line_split(lines::line_split(a).1 + b).0;
    lemma_stream_events_append(kind, l1, l2);
    if !stream_stopped(kind, l1) {
        assert(decoded_events(kind, a).is_prefix_of(decoded_events(kind, a) + stream_events(
            kind,
            l2,
        )));
    }
}

/// Decoding is insensitive to fragmentation. `WireDecoder::feed` emits the
/// events of `decoded_events` applied to the concatenated history, so two
/// ways of cutting one byte stream into fragments - at any byte offsets,
/// including mid-line - emit the same chunk events.
pub proof fn lemma_fragmentation_invariant(
    kind: ApiType,
    frags1: Seq<Seq<u8>>,
    frags2: Seq<Seq<u8>>,
)
    requires
        frags1.flatten() == frags2.flatten(),
    ensures
        decoded_events(kind, frags1.flatten()) == decoded_events(kind, frags2.flatten()),
{
}

/// Every event of a non-terminating OpenAIStyle line is a non-terminal
/// chunk.
proof fn lemma_openai_nonstop_events(l: Seq<u8>)
    requires
        !openai_line_stops(l),
    ensures
        forall|i: int| 0 <= i < openai_line_events(l).len() ==> (#[trigger] openai_line_events(
            l,
        )[i] matches Ok(e) ==> !e.done) && openai_line_events(l)[i] is Ok,
{
}

/// An OpenAIStyle stream that reaches the sentinel line yields exactly one
/// terminal chunk, as its last event, after only non-terminal chunks.
proof fn lemma_sentinel_lines(lns: Seq<Seq<u8>>, n: int)
    requires
        0 <= n < lns.len(),
        lines::trim(lns[n]) == done_line(),
        forall|j: int| 0 <= j < n ==> !openai_line_stops(#[trigger] lns[j]),
    ensures
        stream_events(ApiType::Openai, lns).len() >= 1,
        stream_events(ApiType::Openai, lns).last() == Ok::<ChunkEventView, DecodeError>(
            terminal_event(),
        ),
        forall|i: int| 0 <= i < stream_events(ApiType::Openai, lns).len() - 1
            ==> (#[trigger] stream_events(ApiType::Openai, lns)[i] matches Ok(e) && !e.done),
    decreases n,
{
    let k = ApiType::Openai;
    if n == 0 {
        assert(openai_line_stops(lns[0]));
        assert(stream_events(k, lns) == openai_line_events(lns[0]));
        assert(openai_line_events(lns[0]) =~= seq![
            Ok::<ChunkEventView, DecodeError>(terminal_event()),
        ]);
    } else {
        assert(!openai_line_stops(lns[0]));
        lemma_openai_nonstop_events(lns[0]);
        assert(lns.skip(1)[n - 1] == lns[n]);
        assert forall|j: int| 0 <= j < n - 1 implies !openai_line_stops(
            #[trigger] lns.skip(1)[j],
        ) by {
            assert(lns.skip(1)[j] == lns[j + 1]);
        }
        lemma_sentinel_lines(lns.skip(1), n - 1);
        let a = openai_line_events(lns[0]);
        let b = stream_events(k, lns.skip(1));
        assert(stream_events(k, lns) == a + b);
        assert((a + b).last() == b.last());
        assert forall|i: int| 0 <= i < (a + b).len() - 1 implies #[trigger] (a + b)[i] matches Ok(
            e,
        ) && !e.done by {
            if i < a.len() {
                assert((a + b)[i] == a[i]);
            } else {
                assert((a + b)[i] == b[i - a.len()]);
            }
        }
    }
}

/// A `data: [DONE]` sentinel in the received stream yields exactly one
/// terminal chunk, whatever the fragmentation: the events of the whole
/// stream are some non-terminal chunks followed by one terminal chunk.
pub proof fn lemma_done_sentinel_terminal(input: Seq<u8>, n: int)
    requires
        0 <= n < lines::line_split(input).0.len(),
        lines::trim(lines::line_split(input).0[n]) == done_line(),
        forall|j: int| 0 <= j < n ==> !openai_line_stops(
            #[trigger] lines::line_split(input).0[j],
        ),
    ensures
        decoded_events(ApiType::Openai, input).len() >= 1,
        decoded_events(ApiType::Openai, input).last() == Ok::<ChunkEventView, DecodeError>(
            terminal_event(),
        ),
        forall|i: int| 0 <= i < decoded_events(ApiType::Openai, input).len() - 1
            ==> (#[trigger] decoded_events(ApiType::Openai, input)[i] matches Ok(e) && !e.done),
{
    lemma_sentinel_lines(lines::line_split(input).0, n);
}

/// The views of a sequence of emitted items.
pub open spec fn events_view(s: Seq<Result<ChunkEvent, DecodeError>>) -> Seq<
    Result<ChunkEventView, DecodeError>,
> {
    s.map_values(|r: Result<ChunkEvent, DecodeError>| event_view(r))
}

/// The events of one processed line, as an optional emitted item.
pub open spec fn opt_event_view(o: Option<Result<ChunkEvent, DecodeError>>) -> Seq<
    Result<ChunkEventView, DecodeError>,
> {
    match o {
        None => seq![],
        Some(r) => seq![event_view(r)],
    }
}

proof fn lemma_events_view_push(s: Seq<Result<ChunkEvent, DecodeError>>, it: Result<
    ChunkEvent,
    DecodeError,
>)
    ensures
        events_view(s.push(it)) == events_view(s).push(event_view(it)),
{
    assert(events_view(s.push(it)) =~= events_view(s).push(event_view(it)));
}

proof fn lemma_stream_events_singleton(kind: ApiType, l: Seq<u8>)
    ensures
        stream_events(kind, seq![l]) == line_events(kind, l),
        stream_stopped(kind, seq![l]) == line_stops(kind, l),
{
    let s = seq![l];
    assert(s.len() == 1);
    assert(s[0] == l);
    assert(s.skip(1) =~= Seq::<Seq<u8>>::empty());
    assert(!stream_stopped(kind, Seq::<Seq<u8>>::empty()));
    if !line_stops(kind, l) {
        assert(stream_events(kind, Seq::<Seq<u8>>::empty()) =~= Seq::<
            Result<ChunkEventView, DecodeError>,
        >::empty());
        assert(stream_events(kind, s) =~= line_events(kind, l));
    }
}

/// Whether `t` is exactly the sentinel line `"data: [DONE]"`.
fn is_done_line(t: &Vec<u8>) -> (r: bool)
    ensures
        r == (t@ == done_line()),
{
    if t.len() != 12 {
        return false;
    }
    let r = t[0] == 100 && t[1] == 97 && t[2] == 116 && t[3] == 97 && t[4] == 58 && t[5] == 32
        && t[6] == 91 && t[7] == 68 && t[8] == 79 && t[9] == 78 && t[10] == 69 && t[11] == 93;
    proof {
        if r {
            assert(t@ =~= done_line());
        }
        if t@ == done_line() {
            assert(t@[0] == 100 && t@[1] == 97 && t@[2] == 116 && t@[3] == 97 && t@[4] == 58
                && t@[5] == 32 && t@[6] == 91 && t@[7] == 68 && t@[8] == 79 && t@[9] == 78
                && t@[10] == 69 && t@[11] == 93);
        }
    }
    r
}

/// Whether `t` begins with the frame prefix `"data: "`.
fn has_data_prefix(t: &Vec<u8>) -> (r: bool)
    ensures
        r == (t@.len() >= 6 && t@.take(6) == data_prefix()),
{
    if t.len() < 6 {
        return false;
    }
    let r = t[0] == 100 && t[1] == 97 && t[2] == 116 && t[3] == 97 && t[4] == 58 && t[5] == 32;
    proof {
        if r {
            assert(t@.take(6) =~= data_prefix());
        }
        if t@.take(6) == data_prefix() {
            assert(t@.take(6)[0] == 100 && t@.take(6)[1] == 97 && t@.take(6)[2] == 116
                && t@.take(6)[3] == 97 && t@.take(6)[4] == 58 && t@.take(6)[5] == 32);
        }
    }
    r
}

/// Interprets one complete line: at most one emitted item, and whether the
/// line terminates the stream.
fn process_line(kind: ApiType, line: &Vec<u8>) -> (r: (Option<Result<ChunkEvent, DecodeError>>,
    bool))
    ensures
        opt_event_view(r.0) == line_events(kind, line@),
        r.1 == line_stops(kind, line@),
{
    let mut t = lines::trim_bytes(line);
    if t.len() == 0 {
        return (None, false);
    }
    match kind {
        ApiType::Ollama => {
            match wire::utf8_to_string(t) {
                None => (Some(Err(DecodeError::InvalidUtf8)), true),
                Some(s) => match wire::parse_ollama_line(s.as_str()) {
                    None => (Some(Err(DecodeError::MalformedChunk)), true),
                    Some(l) => {
                        let done = l.done;
                        match l.content {
                            None => if done {
                                (Some(Ok(ChunkEvent { content: String::new(), done: true })), true)
                            } else {
                                (None, false)
                            },
                            Some(c) => (Some(Ok(ChunkEvent { content: c, done })), done),
                        }
                    },
                },
            }
        },
        ApiType::Openai => {
            if is_done_line(&t) {
                return (Some(Ok(ChunkEvent { content: String::new(), done: true })), true);
            }
            if !has_data_prefix(&t) {
                return (None, false);
            }
            let payload = t.split_off(6);
            match wire::utf8_to_string(payload) {
                None => (Some(Err(DecodeError::InvalidUtf8)), true),
                Some(s) => match wire::parse_openai_payload(s.as_str()) {
                    None => (Some(Err(DecodeError::MalformedChunk)), true),
                    Some(None) => (None, false),
                    Some(Some(c)) => (Some(Ok(ChunkEvent { content: c, done: false })), false),
                },
            }
        },
    }
}

/// A stateful wire decoder for one upstream response stream. Byte fragments
/// are fed in as they arrive; the decoder buffers them, interprets every
/// completed line, and emits canonical chunk events. Its whole behaviour is
/// a function of the concatenation of the fragments fed so far
/// (`decoded_events`), not of the fragment boundaries.
pub struct WireDecoder {
    kind: ApiType,
    buf: Vec<u8>,
    finished: bool,
    hist: Ghost<Seq<u8>>,
}

impl WireDecoder {
    /// The wire format this decoder speaks.
    pub closed spec fn api(&self) -> ApiType {
        self.kind
    }

    /// The concatenation of all byte fragments fed so far.
    pub closed spec fn history(&self) -> Seq<u8> {
        self.hist@
    }

    /// Well-formedness: the internal buffer holds exactly the bytes of the
    /// received stream after its last newline, and the decoder is finished
    /// exactly when some received line terminated the stream.
    pub closed spec fn inv(&self) -> bool {
        if self.finished {
            decoded_stopped(self.kind, self.hist@)
        } else {
            !decoded_stopped(self.kind, self.hist@) && self.buf@ == lines::line_split(
                self.hist@,
            ).1
        }
    }

    /// A fresh decoder with an empty history.
    pub fn new(kind: ApiType) -> (d: WireDecoder)
        ensures
            d.inv(),
            d.api() == kind,
            d.history() == Seq::<u8>::empty(),
    {
        let d = WireDecoder { kind, buf: Vec::new(), finished: false, hist: Ghost(Seq::empty()) };
        proof {
            lines::lemma_first_newline(d.hist@);
        }
        d
    }

    /// Feeds one byte fragment and returns the chunk events it completes.
    /// The events emitted across all calls are exactly `decoded_events` of
    /// the concatenated history, whatever the fragmentation; this call
    /// returns the events the new bytes add.
    pub fn feed(&mut self, frag: &Vec<u8>) -> (out: Vec<Result<ChunkEvent, DecodeError>>)
        requires
            old(self).inv(),
        ensures
            final(self).inv(),
            final(self).api() == old(self).api(),
            final(self).history() == old(self).history() + frag@,
            decoded_events(old(self).api(), old(self).history()).is_prefix_of(
                decoded_events(old(self).api(), old(self).history() + frag@),
            ),
            events_view(out@) == decoded_events(old(self).api(), old(self).history() + frag@)
                .skip(decoded_events(old(self).api(), old(self).history()).len() as int),
    {
        let ghost k = self.kind;
        let ghost old_hist = self.hist@;
        let ghost new_hist = old_hist + frag@;
        proof {
            self.hist@ = new_hist;
            lemma_decoded_events_grow(k, old_hist, frag@);
        }
        let mut out: Vec<Result<ChunkEvent, DecodeError>> = Vec::new();
        if self.finished {
            proof {
                assert(events_view(out@) =~= decoded_events(k, new_hist).skip(
                    decoded_events(k, old_hist).len() as int,
                ));
            }
            return out;
        }
        let ghost part = self.buf@;
        self.buf.extend_from_slice(frag.as_slice());
        let ghost nl = lines::line_split(part + frag@).0;
        let ghost nrest = lines::line_split(part + frag@).1;
        let ghost l_old = lines::line_split(old_hist).0;
        proof {
            lines::lemma_line_split_append(old_hist, frag@);
            lemma_stream_events_append(k, l_old, nl);
            assert(self.buf@ == part + frag@);
        }
        let ghost mut p: int = 0;
        loop
            invariant
                self.kind == k,
                k == old(self).api(),
                !self.finished,
                self.hist@ == new_hist,
                new_hist == old(self).history() + frag@,
                old_hist == old(self).history(),
                0 <= p <= nl.len(),
                lines::line_split(self.buf@).0 == nl.skip(p),
                lines::line_split(self.buf@).1 == nrest,
                events_view(out@) == stream_events(k, nl.take(p)),
                !stream_stopped(k, nl.take(p)),
                lines::line_split(new_hist).0 == l_old + nl,
                lines::line_split(new_hist).1 == nrest,
                !stream_stopped(k, l_old),
                decoded_events(k, old_hist) == stream_events(k, l_old),
            decreases self.buf@.len(),
        {
            let i = match lines::find_newline(&self.buf) {
                None => {
                    proof {
                        // no newline left: every line of the growth is done
                        assert(nl.skip(p) =~= lines::line_split(self.buf@).0);
                        assert(nl.skip(p).len() == 0);
                        assert(p == nl.len());
                        assert(nl.take(p) =~= nl);
                        assert(self.buf@ == lines::line_split(new_hist).1);
                        lemma_stream_events_append(k, l_old, nl);
                        assert(decoded_events(k, new_hist) =~= stream_events(k, l_old)
                            + stream_events(k, nl));
                        assert(decoded_events(k, new_hist).skip(
                            decoded_events(k, old_hist).len() as int,
                        ) =~= stream_events(k, nl));
                    }
                    return out;
                },
                Some(i) => i,
            };
            let ghost pre = self.buf@;
            let line = lines::take_first_line(&mut self.buf, i);
            proof {
                // the line taken is the next complete line of the growth
                assert(lines::line_split(pre).0 == seq![pre.take(i as int)] + lines::line_split(
                    pre.skip(i as int + 1),
                ).0);
                assert(lines::line_split(pre).1 == lines::line_split(pre.skip(i as int + 1)).1);
                assert(nl.skip(p).len() > 0);
                assert(p < nl.len());
                assert(line@ == nl.skip(p)[0]);
                assert(line@ == nl[p]);
                assert(lines::line_split(self.buf@).0 =~= nl.skip(p).skip(1));
                assert(nl.skip(p).skip(1) =~= nl.skip(p + 1));
            }
            let (item, stops) = process_line(self.kind, &line);
            if let Some(it) = item {
                proof {
                    lemma_events_view_push(out@, it);
                }
                out.push(it);
            }
            proof {
                assert(nl.take(p + 1) =~= nl.take(p) + seq![nl[p]]);
                lemma_stream_events_append(k, nl.take(p), seq![nl[p]]);
                lemma_stream_events_singleton(k, nl[p]);
                assert(events_view(out@) =~= stream_events(k, nl.take(p)) + line_events(k, nl[p]));
                assert(events_view(out@) == stream_events(k, nl.take(p + 1)));
                assert(stream_stopped(k, nl.take(p + 1)) == line_stops(k, nl[p]));
                p = p + 1;
            }
            if stops {
                self.finished = true;
                self.buf.clear();
                proof {
                    // the stream has terminated: later lines are discarded
                    assert(stream_stopped(k, nl.take(p)));
                    assert(nl =~= nl.take(p) + nl.skip(p));
                    lemma_stream_events_append(k, nl.take(p), nl.skip(p));
                    assert(stream_events(k, nl) == stream_events(k, nl.take(p)));
                    lemma_stream_events_append(k, l_old, nl);
                    assert(decoded_events(k, new_hist) =~= stream_events(k, l_old) + stream_events(
                        k,
                        nl,
                    ));
                    assert(decoded_events(k, new_hist).skip(
                        decoded_events(k, old_hist).len() as int,
                    ) =~= stream_events(k, nl));
                    assert(decoded_stopped(k, new_hist));
                }
                return out;
            }
        }
    }

    /// Ends the stream. An OpenAIStyle upstream that closes its response
    /// without a sentinel still owes its consumer a terminal chunk, so a
    /// decoder of that format whose stream has not already terminated yields
    /// the synthetic terminal event; an OllamaStyle stream just ends.
    pub fn finish(self) -> (r: Option<ChunkEvent>)
        requires
            self.inv(),
        ensures
            match r {
                Some(e) => self.api() is Openai && !decoded_stopped(self.api(), self.history())
                    && e@ == terminal_event(),
                None => !(self.api() is Openai) || decoded_stopped(self.api(), self.history()),
            },
    {
        match self.kind {
            ApiType::Openai => if self.finished {
                None
            } else {
                Some(ChunkEvent { content: String::new(), done: true })
            },
            ApiType::Ollama => None,
        }
    }
}

} // verus!
