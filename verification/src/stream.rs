//! Shaping what goes back to the client: replies replayed from the cache,
//! and upstream streams with the model's think block taken out.

use crate::error::AppError;
use crate::json::{choice_body, write_choice_body};
use crate::text::{
    chars_of, find_last_sub, find_sub, first_index_of, has_prefix, has_sub, last_index_of,
    lemma_first_occurrence_extends, lemma_first_occurrence_unique, lemma_last_occurrence_unique,
    lemma_occurrences_have_ends, matches_at,
};
use crate::trusted::json::{
    json_quoted, json_string_at, json_with_string_at, quote, string_at, with_string_at,
};
use vstd::prelude::*;

verus! {

/// The text that closes a think block.
pub open spec fn think_close() -> Seq<char> {
    "</think>\n\n"@
}

/// The text that a think block opens with.
pub open spec fn think_open() -> Seq<char> {
    "<th"@
}

/// The content type of a reply: an event stream where the request asked
/// for one, JSON otherwise.
pub fn content_type(stream: Option<bool>) -> (t: &'static str)
    ensures
        t@ == (if stream == Some(true) {
            "text/event-stream"@
        } else {
            "application/json"@
        }),
{
    match stream {
        Some(true) => "text/event-stream",
        _ => "application/json",
    }
}

/// A complete answer without its think block: what follows the last
/// `</think>\n\n`, or all of it where there is none.
pub open spec fn without_think(content: Seq<char>) -> Seq<char> {
    if has_sub(content, think_close()) {
        content.subrange(
            last_index_of(content, think_close()) + think_close().len(),
            content.len() as int,
        )
    } else {
        content
    }
}

/// Takes the think block out of a complete answer.
pub fn strip_think(content: &str) -> (answer: String)
    ensures
        answer@ == without_think(content@),
{
    let chars = chars_of(content);
    let close = chars_of("</think>\n\n");
    match find_last_sub(&chars, &close) {
        Some(at) => {
            let n = chars.len();
            let width = close.len();
            proof {
                lemma_last_occurrence_unique(content@, think_close(), at as int);
                assert(at + width <= n);
            }
            String::from_str(content.substring_char(at + width, n))
        },
        None => String::from_str(content),
    }
}

/// Mathematical value of a [`ThinkFilter`].
pub struct ThinkState {
    /// Whether the think block may still be open.
    pub still_thinking: bool,
    /// Everything received while it was.
    pub buffer: Seq<char>,
}

/// One step of the filter: the next state, and the content to pass on in
/// place of `content`.
///
/// While the think block may be open the content is held back. It ends
/// when the buffer holds `</think>\n\n`, whereupon what follows the first
/// one is passed on; or when the buffer is longer than three characters
/// and does not begin with `<th`, whereupon the whole buffer is passed on.
/// Afterwards content passes unchanged.
pub open spec fn think_step(s: ThinkState, content: Seq<char>) -> (ThinkState, Seq<char>) {
    if !s.still_thinking {
        (s, content)
    } else {
        let buffer = s.buffer + content;
        if has_sub(buffer, think_close()) {
            (
                ThinkState { still_thinking: false, buffer },
                buffer.subrange(
                    first_index_of(buffer, think_close()) + think_close().len(),
                    buffer.len() as int,
                ),
            )
        } else if buffer.len() > 3 && !has_prefix(buffer, think_open()) {
            (ThinkState { still_thinking: false, buffer }, buffer)
        } else {
            (ThinkState { still_thinking: true, buffer }, Seq::<char>::empty())
        }
    }
}

/// The state of a filter at the start of a stream.
pub open spec fn think_start() -> ThinkState {
    ThinkState { still_thinking: true, buffer: Seq::<char>::empty() }
}

/// Takes the think block out of a stream of content fragments.
#[derive(Debug)]
pub struct ThinkFilter {
    still_thinking: bool,
    buffer: String,
}

impl View for ThinkFilter {
    type V = ThinkState;

    closed spec fn view(&self) -> ThinkState {
        ThinkState { still_thinking: self.still_thinking, buffer: self.buffer@ }
    }
}

impl ThinkFilter {
    /// A filter at the start of a stream.
    pub fn new() -> (f: ThinkFilter)
        ensures
            f@ == think_start(),
    {
        ThinkFilter { still_thinking: true, buffer: String::new() }
    }

    /// Whether the think block may still be open.
    pub fn is_thinking(&self) -> (yes: bool)
        ensures
            yes == self@.still_thinking,
    {
        self.still_thinking
    }

    /// Takes the next fragment and returns the content to pass on.
    pub fn push(&mut self, content: &str) -> (out: String)
        ensures
            (final(self)@, out@) == think_step(old(self)@, content@),
    {
        if !self.still_thinking {
            return String::from_str(content);
        }
        self.buffer.append(content);
        let chars = chars_of(self.buffer.as_str());
        let close = chars_of("</think>\n\n");
        match find_sub(&chars, &close) {
            Some(at) => {
                let n = chars.len();
                let width = close.len();
                proof {
                    lemma_first_occurrence_unique(self.buffer@, think_close(), at as int);
                    assert(at + width <= n);
                }
                self.still_thinking = false;
                String::from_str(self.buffer.as_str().substring_char(at + width, n))
            },
            None => {
                let open = chars_of("<th");
                if chars.len() > 3 && !matches_at(&chars, &open, 0) {
                    self.still_thinking = false;
                    self.buffer.clone()
                } else {
                    String::new()
                }
            },
        }
    }
}

/// While the buffer begins like a think block and holds no `</think>\n\n`,
/// the filter stays in and passes on nothing, however long the buffer grows.
pub proof fn lemma_open_think_block_holds_back(s: ThinkState, content: Seq<char>)
    requires
        s.still_thinking,
        !has_sub(s.buffer + content, think_close()),
        has_prefix(s.buffer + content, think_open()),
    ensures
        think_step(s, content).0.still_thinking,
        think_step(s, content).0.buffer == s.buffer + content,
        think_step(s, content).1 == Seq::<char>::empty(),
{
}

/// Once the think block is over, the filter passes everything unchanged
/// and stays as it is.
pub proof fn lemma_after_think_passes(s: ThinkState, content: Seq<char>)
    requires
        !s.still_thinking,
    ensures
        think_step(s, content) == (s, content),
{
}

/// The fragments of a stream, joined in order.
pub open spec fn joined(fragments: Seq<Seq<char>>) -> Seq<char>
    decreases fragments.len(),
{
    if fragments.len() == 0 {
        Seq::<char>::empty()
    } else {
        joined(fragments.drop_last()) + fragments.last()
    }
}

/// The filter's state after the fragments went through it in turn, and
/// everything it passed on, joined.
pub open spec fn think_run(s: ThinkState, fragments: Seq<Seq<char>>) -> (ThinkState, Seq<char>)
    decreases fragments.len(),
{
    if fragments.len() == 0 {
        (s, Seq::<char>::empty())
    } else {
        let before = think_run(s, fragments.drop_last());
        let step = think_step(before.0, fragments.last());
        (step.0, before.1 + step.1)
    }
}

/// What follows the first `</think>\n\n` of a text; nothing where there is
/// none.
pub open spec fn after_think(text: Seq<char>) -> Seq<char> {
    if has_sub(text, think_close()) {
        text.subrange(
            first_index_of(text, think_close()) + think_close().len(),
            text.len() as int,
        )
    } else {
        Seq::<char>::empty()
    }
}

/// Of a stream that is the beginning of a text that opens like a think
/// block, the filter passes on exactly what follows the first
/// `</think>\n\n`, however the stream is cut into fragments; and it stays
/// in until that has come.
pub proof fn lemma_think_run_within(fragments: Seq<Seq<char>>, whole: Seq<char>)
    requires
        has_prefix(whole, think_open()),
        joined(fragments).len() <= whole.len(),
        joined(fragments) == whole.subrange(0, joined(fragments).len() as int),
    ensures
        think_run(think_start(), fragments).1 == after_think(joined(fragments)),
        think_run(think_start(), fragments).0.still_thinking == !has_sub(
            joined(fragments),
            think_close(),
        ),
        think_run(think_start(), fragments).0.still_thinking ==> think_run(
            think_start(),
            fragments,
        ).0.buffer == joined(fragments),
    decreases fragments.len(),
{
    reveal_strlit("<th");
    reveal_strlit("</think>\n\n");
    if fragments.len() > 0 {
        let earlier = fragments.drop_last();
        let last = fragments.last();
        let held = joined(earlier);
        let text = joined(fragments);
        assert(text == held + last);
        assert(held =~= whole.subrange(0, held.len() as int)) by {
            assert(held =~= text.subrange(0, held.len() as int));
        }
        lemma_think_run_within(earlier, whole);
        let before = think_run(think_start(), earlier);
        if has_sub(held, think_close()) {
            let at = first_index_of(held, think_close());
            lemma_occurrences_have_ends(held, think_close());
            lemma_first_occurrence_extends(held, last, think_close(), at);
            lemma_first_occurrence_unique(text, think_close(), at);
            assert(before.1 + last =~= after_think(text));
        } else {
            assert(before.0.buffer + last == text);
            assert(before.1 + think_step(before.0, last).1 =~= think_step(before.0, last).1);
            if !has_sub(text, think_close()) && text.len() > 3 {
                assert(text.subrange(0, 3) =~= whole.subrange(0, 3));
                assert(has_prefix(text, think_open()));
            }
        }
    }
}

/// Of a stream that opens like a think block, the filter passes on exactly
/// what follows the first `</think>\n\n`, however the stream is cut into
/// fragments.
pub proof fn lemma_think_block_is_cut(fragments: Seq<Seq<char>>)
    requires
        has_prefix(joined(fragments), think_open()),
    ensures
        think_run(think_start(), fragments).1 == after_think(joined(fragments)),
{
    let whole = joined(fragments);
    assert(whole =~= whole.subrange(0, whole.len() as int));
    lemma_think_run_within(fragments, whole);
}

/// An answer replayed from the cache.
#[derive(Debug)]
pub enum Replay {
    /// One JSON body.
    Json { body: String },
    /// The payloads of the events of a stream, in order.
    Events { payloads: Vec<String> },
}

/// The payload of the event that ends a stream.
pub open spec fn done_payload() -> Seq<char> {
    "[DONE]"@
}

/// Whether `r` replays an answer whose JSON string is `content`: for a
/// stream two events, the answer as a delta and then `[DONE]`; otherwise
/// one body with the answer as a message.
pub open spec fn replays(r: Replay, content: Seq<char>, stream: bool) -> bool {
    match r {
        Replay::Json { body } => !stream && body@ == choice_body("message"@, content),
        Replay::Events { payloads } => {
            &&& stream
            &&& payloads@.len() == 2
            &&& payloads@[0]@ == choice_body("delta"@, content)
            &&& payloads@[1]@ == done_payload()
        },
    }
}

/// Shapes the replay of an answer that is already written as a JSON string.
pub fn replay_quoted(content: &str, stream: bool) -> (r: Replay)
    ensures
        replays(r, content@, stream),
{
    if stream {
        let mut payloads: Vec<String> = Vec::new();
        payloads.push(write_choice_body("delta", content));
        payloads.push(String::from_str("[DONE]"));
        Replay::Events { payloads }
    } else {
        Replay::Json { body: write_choice_body("message", content) }
    }
}

/// Shapes the replay of a cached answer. `None` where the answer cannot be
/// written as JSON.
pub fn replay(cached: &str, stream: bool) -> (r: Option<Replay>)
    ensures
        match json_quoted(cached@) {
            Some(content) => r is Some && replays(r->0, content, stream),
            None => r is None,
        },
{
    match quote(cached) {
        Some(content) => Some(replay_quoted(content.as_str(), stream)),
        None => None,
    }
}

/// What one upstream event carries.
#[derive(Debug)]
pub enum Delta {
    /// The event's data is no JSON.
    Unparsed,
    /// The event's data is JSON without a content fragment.
    NoContent,
    /// The content fragment of the event.
    Content(String),
}

/// What to send to the client for one upstream event.
#[derive(Debug)]
pub enum Emit {
    /// The event as it came.
    Forward,
    /// The event with its content fragment replaced by this one.
    Rewrite(String),
}

/// Mathematical value of a [`Delta`].
pub enum DeltaView {
    Unparsed,
    NoContent,
    Content(Seq<char>),
}

/// Mathematical value of an [`Emit`].
pub enum EmitView {
    Forward,
    Rewrite(Seq<char>),
}

impl View for Delta {
    type V = DeltaView;

    open spec fn view(&self) -> DeltaView {
        match self {
            Delta::Unparsed => DeltaView::Unparsed,
            Delta::NoContent => DeltaView::NoContent,
            Delta::Content(c) => DeltaView::Content(c@),
        }
    }
}

impl View for Emit {
    type V = EmitView;

    open spec fn view(&self) -> EmitView {
        match self {
            Emit::Forward => EmitView::Forward,
            Emit::Rewrite(c) => EmitView::Rewrite(c@),
        }
    }
}

/// Mathematical value of a [`StreamProcessor`].
pub struct StreamView {
    /// The think filter, where the stream is stripped.
    pub filter: Option<ThinkState>,
    /// The content fragments received so far, joined.
    pub collected: Seq<char>,
    /// Whether the upstream has sent data that is no JSON, which ends the
    /// answer.
    pub finished: bool,
}

/// One step of a stream: the next state and what to send.
///
/// Data that is no JSON is forwarded and ends the answer. JSON without a
/// content fragment is forwarded. A content fragment joins the answer
/// unless that has ended; it is forwarded in a plain stream and rewritten
/// by the think filter in a stripped one.
pub open spec fn stream_step(s: StreamView, d: DeltaView) -> (StreamView, EmitView) {
    match d {
        DeltaView::Unparsed => (
            StreamView { filter: s.filter, collected: s.collected, finished: true },
            EmitView::Forward,
        ),
        DeltaView::NoContent => (s, EmitView::Forward),
        DeltaView::Content(c) => {
            let collected = if s.finished {
                s.collected
            } else {
                s.collected + c
            };
            match s.filter {
                None => (
                    StreamView { filter: None, collected, finished: s.finished },
                    EmitView::Forward,
                ),
                Some(f) => (
                    StreamView {
                        filter: Some(think_step(f, c).0),
                        collected,
                        finished: s.finished,
                    },
                    EmitView::Rewrite(think_step(f, c).1),
                ),
            }
        },
    }
}

/// Where an event of a stream carries its content fragment.
pub open spec fn delta_pointer() -> Seq<char> {
    "/choices/0/delta/content"@
}

/// Where a complete answer carries its content.
pub open spec fn message_pointer() -> Seq<char> {
    "/choices/0/message/content"@
}

/// What the data of one upstream event carries.
pub open spec fn delta_of(data: Seq<char>) -> DeltaView {
    match json_string_at(data, delta_pointer()) {
        None => DeltaView::Unparsed,
        Some(None) => DeltaView::NoContent,
        Some(Some(content)) => DeltaView::Content(content),
    }
}

/// One step of a stream on the data of an event: the next state and the
/// data to send. Forwarded data goes out as it came; rewritten data is the
/// same document with the new content in place.
pub open spec fn data_step(s: StreamView, data: Seq<char>) -> (StreamView, Seq<char>) {
    let step = stream_step(s, delta_of(data));
    (
        step.0,
        match step.1 {
            EmitView::Forward => data,
            EmitView::Rewrite(content) => match json_with_string_at(
                data,
                delta_pointer(),
                content,
            ) {
                Some(rewritten) => rewritten,
                None => data,
            },
        },
    )
}

/// Reads what the data of one upstream event carries.
pub fn read_delta(data: &str) -> (delta: Delta)
    ensures
        delta@ == delta_of(data@),
{
    match string_at(data, "/choices/0/delta/content") {
        None => Delta::Unparsed,
        Some(None) => Delta::NoContent,
        Some(Some(content)) => Delta::Content(content),
    }
}

/// A complete upstream answer, made ready for the client.
#[derive(Debug)]
pub struct Shaped {
    /// The body to send.
    pub body: String,
    /// The assistant's text as the upstream gave it, to be cached.
    pub answer: Option<String>,
}

/// The assistant's text in a complete answer, where it has one.
pub open spec fn answer_of(reply: Seq<char>) -> Option<Seq<char>> {
    match json_string_at(reply, message_pointer()) {
        Some(Some(content)) => Some(content),
        _ => None,
    }
}

/// The body to send for a complete answer: the answer itself, or, where
/// think blocks are stripped and the answer has a text, the same document
/// with the text after its think block in place.
pub open spec fn shaped_body(reply: Seq<char>, strip: bool) -> Seq<char> {
    if strip && answer_of(reply) is Some {
        match json_with_string_at(reply, message_pointer(), without_think(answer_of(reply)->0)) {
            Some(body) => body,
            None => reply,
        }
    } else {
        reply
    }
}

/// Whether `r` is what becomes of a complete upstream answer: an answer
/// that is no JSON is an internal error; any other is passed on, shaped,
/// together with the text to cache.
pub open spec fn reply_shaped(reply: Seq<char>, strip: bool, r: Result<Shaped, AppError>) -> bool {
    match json_string_at(reply, message_pointer()) {
        None => r is Err && r->Err_0 is Internal && r->Err_0->Internal_0@
            == "upstream answer is not valid JSON"@,
        Some(_) => {
            &&& r is Ok
            &&& r->Ok_0.body@ == shaped_body(reply, strip)
            &&& match r->Ok_0.answer {
                Some(text) => answer_of(reply) == Some(text@),
                None => answer_of(reply) is None,
            }
        },
    }
}

/// Makes a complete upstream answer ready for the client.
pub fn shape_reply(reply: &str, strip: bool) -> (r: Result<Shaped, AppError>)
    ensures
        reply_shaped(reply@, strip, r),
{
    match string_at(reply, "/choices/0/message/content") {
        None => Err(AppError::Internal(String::from_str("upstream answer is not valid JSON"))),
        Some(None) => Ok(Shaped { body: String::from_str(reply), answer: None }),
        Some(Some(content)) => {
            let body = if strip {
                let stripped = strip_think(content.as_str());
                match with_string_at(reply, "/choices/0/message/content", stripped.as_str()) {
                    Some(body) => body,
                    None => String::from_str(reply),
                }
            } else {
                String::from_str(reply)
            };
            Ok(Shaped { body, answer: Some(content) })
        },
    }
}

/// Follows one upstream stream: decides what goes to the client and
/// collects the answer for the cache.
#[derive(Debug)]
pub struct StreamProcessor {
    filter: Option<ThinkFilter>,
    collected: String,
    finished: bool,
}

impl View for StreamProcessor {
    type V = StreamView;

    closed spec fn view(&self) -> StreamView {
        StreamView {
            filter: match self.filter {
                Some(f) => Some(f@),
                None => None,
            },
            collected: self.collected@,
            finished: self.finished,
        }
    }
}

impl StreamProcessor {
    /// A processor at the start of a stream, stripping think blocks or not.
    pub fn new(strip_think: bool) -> (p: StreamProcessor)
        ensures
            p@.collected == Seq::<char>::empty(),
            !p@.finished,
            strip_think ==> p@.filter == Some(think_start()),
            !strip_think ==> p@.filter is None,
    {
        let filter = if strip_think {
            Some(ThinkFilter::new())
        } else {
            None
        };
        StreamProcessor { filter, collected: String::new(), finished: false }
    }

    /// Takes the next upstream event and says what to send for it.
    pub fn on_event(&mut self, delta: &Delta) -> (emit: Emit)
        ensures
            (final(self)@, emit@) == stream_step(old(self)@, delta@),
    {
        match delta {
            Delta::Unparsed => {
                self.finished = true;
                Emit::Forward
            },
            Delta::NoContent => Emit::Forward,
            Delta::Content(c) => {
                if !self.finished {
                    self.collected.append(c.as_str());
                }
                match &mut self.filter {
                    Some(f) => Emit::Rewrite(f.push(c.as_str())),
                    None => Emit::Forward,
                }
            },
        }
    }

    /// Takes the data of the next upstream event and returns the data to
    /// send for it.
    pub fn on_data(&mut self, data: &str) -> (out: String)
        ensures
            (final(self)@, out@) == data_step(old(self)@, data@),
    {
        let delta = read_delta(data);
        match self.on_event(&delta) {
            Emit::Forward => String::from_str(data),
            Emit::Rewrite(content) => {
                match with_string_at(data, "/choices/0/delta/content", content.as_str()) {
                    Some(rewritten) => rewritten,
                    None => String::from_str(data),
                }
            },
        }
    }

    /// Whether the answer has ended.
    pub fn is_finished(&self) -> (yes: bool)
        ensures
            yes == self@.finished,
    {
        self.finished
    }

    /// The answer to cache once the stream is over: everything collected,
    /// provided the upstream has ended the answer. A stream that broke off
    /// before leaves nothing to cache.
    pub fn into_answer(self) -> (answer: Option<String>)
        ensures
            match answer {
                Some(text) => self@.finished && text@ == self@.collected,
                None => !self@.finished,
            },
    {
        if self.finished {
            Some(self.collected)
        } else {
            None
        }
    }

    /// The answer collected so far.
    pub fn collected(&self) -> (text: &String)
        ensures
            text@ == self@.collected,
    {
        &self.collected
    }
}

} // verus!
