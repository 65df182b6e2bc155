//! Turns Kiro's answer into an OpenAI answer, as a stream of chunks or as one object.
//!
//! The events that count are pieces of text, `{"content": "Hello", "modelId": "glm-5"}`, and
//! those of tool calls. All others say how the answer came about and are passed over.
use vstd::prelude::*;

use vstd::utf8::{decode_utf8, encode_utf8, valid_utf8};

use crate::clock::{moment_now, LAST_SECOND};
use crate::ids::{completion_id, new_completion_id};
use crate::json::bridge::{compact_or_empty, parsed_json, signed_number};
use crate::json::{
    items_view, json_view, lemma_array_view, lemma_items_push, text_field, Json, JsonObject,
    JsonView,
};
use crate::provider::kiro::framing::{
    frames, lemma_frames_of_parts, lemma_object_bounds, remainder, FrameBuffer,
};
use crate::provider::kiro::tool_calls::{
    calls_after, calls_step, finished_call, lemma_calls_after_parts, no_calls, with_index,
    CallsView, ToolCallAccumulator,
};
use crate::text::{from_utf8_lossy, lossy_text};

verus! {

/// The events among the objects of a stream: those that are JSON.
pub open spec fn events_in(objects: Seq<Seq<u8>>) -> Seq<JsonView> {
    objects.filter_map(|f: Seq<u8>| parsed_json(decode_utf8(f)))
}

/// The events of a stream.
pub open spec fn events_of(bytes: Seq<u8>) -> Seq<JsonView> {
    events_in(frames(bytes))
}

/// The text that an event brings.
pub open spec fn event_content(v: JsonView) -> Seq<char> {
    match text_field(v, "content"@) {
        Some(s) => s,
        None => Seq::empty(),
    }
}

/// The text that all events bring.
pub open spec fn full_content(events: Seq<JsonView>) -> Seq<char>
    decreases events.len(),
{
    if events.len() == 0 {
        Seq::empty()
    } else {
        full_content(events.drop_last()) + event_content(events.last())
    }
}

/// What all parts of an answer have in common.
pub struct Head {
    pub id: Seq<char>,
    pub created: i64,
    pub model: Seq<char>,
}

/// An answer, or a part of one.
pub open spec fn completion(
    head: Head,
    object: Seq<char>,
    choice: Map<Seq<char>, JsonView>,
) -> JsonView {
    JsonView::Object(
        map![
            "id"@ => JsonView::Text(head.id),
            "object"@ => JsonView::Text(object),
            "created"@ => JsonView::Number(signed_number(head.created)),
            "model"@ => JsonView::Text(head.model),
            "choices"@ => JsonView::Array(seq![JsonView::Object(choice)])
        ],
    )
}

/// A part of an answer in a stream.
pub open spec fn chunk(
    head: Head,
    delta: Map<Seq<char>, JsonView>,
    finish_reason: JsonView,
) -> JsonView {
    completion(
        head,
        "chat.completion.chunk"@,
        map![
            "index"@ => JsonView::Number(signed_number(0)),
            "delta"@ => JsonView::Object(delta),
            "finish_reason"@ => finish_reason
        ],
    )
}

/// The chunk that brings a piece of text; the first one says who speaks.
pub open spec fn content_chunk(head: Head, content: Seq<char>, first: bool) -> JsonView {
    let delta = map!["content"@ => JsonView::Text(content)];
    chunk(
        head,
        if first {
            delta.insert("role"@, JsonView::Text("assistant"@))
        } else {
            delta
        },
        JsonView::Null,
    )
}

/// The chunks that bring the text of the events; `first` where none was sent before.
pub open spec fn content_chunks(head: Head, first: bool, events: Seq<JsonView>) -> Seq<JsonView>
    decreases events.len(),
{
    if events.len() == 0 {
        Seq::empty()
    } else {
        let sent = content_chunks(head, first, events.drop_last());
        let content = event_content(events.last());
        if content.len() == 0 {
            sent
        } else {
            sent.push(content_chunk(head, content, first && sent.len() == 0))
        }
    }
}

/// The chunk that brings the tool calls.
pub open spec fn tool_calls_chunk(head: Head, calls: Seq<JsonView>) -> JsonView {
    chunk(head, map!["tool_calls"@ => JsonView::Array(calls)], JsonView::Null)
}

/// Why an answer ends.
pub open spec fn finish_reason(calls: Seq<JsonView>) -> Seq<char> {
    if calls.len() == 0 {
        "stop"@
    } else {
        "tool_calls"@
    }
}

/// The chunk that ends an answer.
pub open spec fn finish_chunk(head: Head, reason: Seq<char>) -> JsonView {
    chunk(head, Map::empty(), JsonView::Text(reason))
}

/// The chunks after the last event: the tool calls, if there are any, and the end.
pub open spec fn closing_chunks(head: Head, calls: Seq<JsonView>) -> Seq<JsonView> {
    if calls.len() == 0 {
        seq![finish_chunk(head, finish_reason(calls))]
    } else {
        seq![tool_calls_chunk(head, calls), finish_chunk(head, finish_reason(calls))]
    }
}

/// The data of the events that carry these chunks.
pub open spec fn data_texts(chunks: Seq<JsonView>) -> Seq<Seq<char>> {
    chunks.map_values(|c: JsonView| compact_or_empty(c))
}

/// The texts of a list.
pub open spec fn texts(list: Seq<String>) -> Seq<Seq<char>> {
    list.map_values(|s: String| s@)
}

/// The message of an answer.
pub open spec fn answer_message(content: Seq<char>, calls: Seq<JsonView>) -> Map<
    Seq<char>,
    JsonView,
> {
    let message = map![
        "role"@ => JsonView::Text("assistant"@),
        "content"@ => if content.len() == 0 {
            JsonView::Null
        } else {
            JsonView::Text(content)
        }
    ];
    if calls.len() == 0 {
        message
    } else {
        message.insert("tool_calls"@, JsonView::Array(calls))
    }
}

/// The answer to the events as one object.
pub open spec fn json_answer(head: Head, events: Seq<JsonView>) -> JsonView {
    let calls = calls_after(no_calls(), events).finished;
    completion(
        head,
        "chat.completion"@,
        map![
            "index"@ => JsonView::Number(signed_number(0)),
            "message"@ => JsonView::Object(answer_message(full_content(events), calls)),
            "finish_reason"@ => JsonView::Text(finish_reason(calls))
        ],
    )
}

/// What arrived with the chunks, as it is read.
pub open spec fn received(chunks: Seq<Vec<u8>>) -> Seq<u8>
    decreases chunks.len(),
{
    if chunks.len() == 0 {
        Seq::empty()
    } else {
        received(chunks.drop_last()) + encode_utf8(lossy_text(chunks.last()@))
    }
}

/// Whether all chunks are UTF-8.
pub open spec fn all_utf8(chunks: Seq<Vec<u8>>) -> bool {
    forall|i: int| 0 <= i < chunks.len() ==> valid_utf8(#[trigger] chunks[i]@)
}

/// The bytes of the chunks, one after the other.
pub open spec fn joined(chunks: Seq<Vec<u8>>) -> Seq<u8>
    decreases chunks.len(),
{
    if chunks.len() == 0 {
        Seq::empty()
    } else {
        joined(chunks.drop_last()) + chunks.last()@
    }
}

/// The events of two lists of objects are those of the first and those of the second.
proof fn lemma_events_in_parts(a: Seq<Seq<u8>>, b: Seq<Seq<u8>>)
    ensures
        events_in(a + b) == events_in(a) + events_in(b),
    decreases b.len(),
{
    if b.len() == 0 {
        assert(a + b =~= a);
        assert(events_in(a) + events_in(b) =~= events_in(a));
    } else {
        assert((a + b).drop_last() =~= a + b.drop_last());
        lemma_events_in_parts(a, b.drop_last());
        assert(events_in(a + b) =~= events_in(a) + events_in(b));
    }
}

/// However the stream is cut, the same events come out.
pub proof fn lemma_events_of_parts(a: Seq<u8>, b: Seq<u8>)
    ensures
        events_of(a + b) == events_of(a) + events_of(remainder(a) + b),
{
    lemma_frames_of_parts(a, b);
    lemma_events_in_parts(frames(a), frames(remainder(a) + b));
}

proof fn lemma_full_content_parts(a: Seq<JsonView>, b: Seq<JsonView>)
    ensures
        full_content(a + b) == full_content(a) + full_content(b),
    decreases b.len(),
{
    if b.len() == 0 {
        assert(a + b =~= a);
        assert(full_content(a) + full_content(b) =~= full_content(a));
    } else {
        assert((a + b).drop_last() =~= a + b.drop_last());
        lemma_full_content_parts(a, b.drop_last());
        assert(full_content(a + b) =~= full_content(a) + full_content(b));
    }
}

/// The chunks of two lists of events are those of the first and then those of the second.
pub proof fn lemma_content_chunks_parts(head: Head, first: bool, a: Seq<JsonView>, b: Seq<JsonView>)
    ensures
        content_chunks(head, first, a + b) == content_chunks(head, first, a) + content_chunks(
            head,
            first && content_chunks(head, first, a).len() == 0,
            b,
        ),
    decreases b.len(),
{
    let sent = content_chunks(head, first, a);
    let later = first && sent.len() == 0;
    if b.len() == 0 {
        assert(a + b =~= a);
        assert(sent + content_chunks(head, later, b) =~= sent);
    } else {
        assert((a + b).drop_last() =~= a + b.drop_last());
        lemma_content_chunks_parts(head, first, a, b.drop_last());
        assert(content_chunks(head, first, a + b) =~= sent + content_chunks(head, later, b));
    }
}

impl FrameBuffer {
    /// Adds a chunk to the buffer and takes the events out that are complete now. A chunk that is
    /// UTF-8 is read as it is.
    pub fn read_events(&mut self, chunk: &[u8]) -> (r: Vec<Json>)
        ensures
            items_view(r@) == events_of(old(self).bytes() + encode_utf8(lossy_text(chunk@))),
            final(self).bytes() == remainder(
                old(self).bytes() + encode_utf8(lossy_text(chunk@)),
            ),
            valid_utf8(chunk@) ==> encode_utf8(lossy_text(chunk@)) == chunk@,
    {
        let text = from_utf8_lossy(chunk);
        proof {
            if valid_utf8(chunk@) {
                vstd::utf8::decode_utf8_encode_utf8(chunk@);
            }
        }
        self.push(text.as_str());
        let ghost all = self.bytes();
        let ghost mut done: Seq<Seq<u8>> = Seq::empty();
        let mut events: Vec<Json> = Vec::new();
        assert(done + frames(all) =~= frames(all));
        assert(items_view(events@) =~= events_in(done));
        loop
            invariant_except_break
                frames(all) == done + frames(self.bytes()),
                remainder(all) == remainder(self.bytes()),
                items_view(events@) == events_in(done),
            ensures
                frames(all) == done,
                remainder(all) == self.bytes(),
                items_view(events@) == events_in(done),
            decreases self.bytes().len(),
        {
            let ghost before = self.bytes();
            proof {
                lemma_object_bounds(before);
            }
            match self.take_frame() {
                None => {
                    assert(done + frames(before) =~= done);
                    break;
                },
                Some(frame) => {
                    let ghost object = encode_utf8(frame@);
                    proof {
                        vstd::utf8::encode_utf8_decode_utf8(frame@);
                        assert(done + (seq![object] + frames(self.bytes())) =~= done.push(object)
                            + frames(self.bytes()));
                        assert(done.push(object).drop_last() =~= done);
                        done = done.push(object);
                    }
                    match Json::parse(frame.as_str()) {
                        Some(event) => {
                            proof {
                                lemma_items_push(events@, event);
                            }
                            events.push(event);
                        },
                        None => {},
                    }
                },
            }
        }
        events
    }
}

/// The JSON text of a chunk.
fn chunk_text(
    completion_id: &str,
    created: i64,
    model: &str,
    delta: JsonObject,
    finish_reason: Json,
) -> (r: String)
    ensures
        r@ == compact_or_empty(
            chunk(Head { id: completion_id@, created, model: model@ }, delta@, finish_reason@),
        ),
{
    let choice = JsonObject::new().with("index", Json::signed(0)).with(
        "delta",
        Json::Object(delta),
    ).with("finish_reason", finish_reason);
    completion_object(
        completion_id,
        created,
        model,
        "chat.completion.chunk",
        choice,
    ).compact()
}

/// An answer, or a part of one.
fn completion_object(
    completion_id: &str,
    created: i64,
    model: &str,
    object: &str,
    choice: JsonObject,
) -> (r: Json)
    ensures
        r@ == completion(Head { id: completion_id@, created, model: model@ }, object@, choice@),
{
    let mut choices: Vec<Json> = Vec::new();
    choices.push(Json::Object(choice));
    proof {
        lemma_array_view(choices);
        assert(items_view(choices@) =~= seq![JsonView::Object(choice@)]);
    }
    Json::Object(
        JsonObject::new().with("id", Json::text(completion_id)).with(
            "object",
            Json::text(object),
        ).with("created", Json::signed(created)).with("model", Json::text(model)).with(
            "choices",
            Json::Array(choices),
        ),
    )
}

/// The data of the stream event for an event that brings text. The first one says who speaks.
/// There is none for an event without text.
pub fn handle_content_event(
    parsed: &Json,
    first_chunk: &mut bool,
    completion_id: &str,
    created: i64,
    model: &str,
) -> (r: Option<String>)
    ensures
        event_content(parsed@).len() == 0 ==> r is None && *final(first_chunk) == *old(first_chunk),
        event_content(parsed@).len() > 0 ==> r is Some && r->0@ == compact_or_empty(
            content_chunk(
                Head { id: completion_id@, created, model: model@ },
                event_content(parsed@),
                *old(first_chunk),
            ),
        ) && !*final(first_chunk),
{
    let content = match parsed.get_str("content") {
        Some(content) => content,
        None => {
            return None;
        },
    };
    if content.is_empty() {
        return None;
    }
    let mut delta = JsonObject::new().with("content", Json::text(content));
    if *first_chunk {
        delta.set("role", Json::text("assistant"));
        *first_chunk = false;
    }
    Some(chunk_text(completion_id, created, model, delta, Json::Null))
}

/// Copies of the values.
fn duplicates(values: &[Json]) -> (r: Vec<Json>)
    ensures
        items_view(r@) == items_view(values@),
{
    let mut out: Vec<Json> = Vec::new();
    let mut i: usize = 0;
    while i < values.len()
        invariant
            i <= values@.len(),
            out@.len() == i,
            forall|j: int| 0 <= j < i ==> json_view(#[trigger] out@[j]) == json_view(values@[j]),
        decreases values@.len() - i,
    {
        out.push(values[i].duplicate());
        i += 1;
    }
    assert(items_view(out@) =~= items_view(values@));
    out
}

/// The data of the stream event that brings the tool calls; there is none without calls.
pub fn build_tool_calls_event(
    tool_calls: &[Json],
    completion_id: &str,
    created: i64,
    model: &str,
) -> (r: Option<String>)
    ensures
        tool_calls@.len() == 0 ==> r is None,
        tool_calls@.len() > 0 ==> r is Some && r->0@ == compact_or_empty(
            tool_calls_chunk(
                Head { id: completion_id@, created, model: model@ },
                items_view(tool_calls@),
            ),
        ),
{
    if tool_calls.len() == 0 {
        return None;
    }
    let calls = duplicates(tool_calls);
    proof {
        lemma_array_view(calls);
    }
    let delta = JsonObject::new().with("tool_calls", Json::Array(calls));
    Some(chunk_text(completion_id, created, model, delta, Json::Null))
}

/// The data of the stream event that ends the answer.
pub fn build_finish_event(
    completion_id: &str,
    created: i64,
    model: &str,
    finish_reason: &str,
) -> (r: String)
    ensures
        r@ == compact_or_empty(
            finish_chunk(Head { id: completion_id@, created, model: model@ }, finish_reason@),
        ),
{
    chunk_text(completion_id, created, model, JsonObject::new(), Json::text(finish_reason))
}

/// The tool calls of an answer as they come in.
pub struct CallCollector {
    pub accumulator: ToolCallAccumulator,
    pub finished: Vec<Json>,
}

impl CallCollector {
    /// The tool calls so far.
    pub open spec fn calls(&self) -> CallsView {
        CallsView { open: self.accumulator.open_calls(), finished: items_view(self.finished@) }
    }

    /// No tool calls.
    pub fn new() -> (r: CallCollector)
        ensures
            r.calls() == no_calls(),
    {
        let r = CallCollector { accumulator: ToolCallAccumulator::new(), finished: Vec::new() };
        assert(r.calls() =~= no_calls());
        r
    }

    /// Takes an event in; a call that it finishes gets the next number.
    pub fn process(&mut self, event: &Json)
        ensures
            final(self).calls() == calls_step(old(self).calls(), event@),
    {
        let ghost before = self.calls();
        match self.accumulator.process(event) {
            Some(call) => {
                let numbered = with_index(call, self.finished.len());
                proof {
                    lemma_items_push(self.finished@, numbered);
                    let expected = finished_call(
                        before.open,
                        event@,
                        before.finished.len() as int,
                    );
                    assert(numbered@->Object_0 =~= expected->Object_0);
                }
                self.finished.push(numbered);
                assert(self.calls() =~= calls_step(before, event@));
            },
            None => {},
        }
    }
}

/// Why an answer with these tool calls ends.
fn reason_to_finish(tool_calls: &[Json]) -> (r: &'static str)
    ensures
        r@ == finish_reason(items_view(tool_calls@)),
{
    if tool_calls.len() == 0 {
        "stop"
    } else {
        "tool_calls"
    }
}

/// An answer on its way to the client as a stream of events.
pub struct SseStream {
    pub completion_id: String,
    pub created: i64,
    pub model: String,
    pub buffer: FrameBuffer,
    pub first_chunk: bool,
    pub calls: CallCollector,
}

/// What a stream has seen and sent so far.
#[verifier::ext_equal]
pub struct StreamView {
    pub buffer: Seq<u8>,
    pub first: bool,
    pub calls: CallsView,
}

/// A stream that has seen nothing.
pub open spec fn stream_start() -> StreamView {
    StreamView { buffer: Seq::empty(), first: true, calls: no_calls() }
}

/// The chunks that a stream sends when `bytes` arrive.
pub open spec fn stream_sends(head: Head, s: StreamView, bytes: Seq<u8>) -> Seq<JsonView> {
    content_chunks(head, s.first, events_of(s.buffer + bytes))
}

/// The stream after `bytes` arrived.
pub open spec fn stream_after(head: Head, s: StreamView, bytes: Seq<u8>) -> StreamView {
    StreamView {
        buffer: remainder(s.buffer + bytes),
        first: s.first && stream_sends(head, s, bytes).len() == 0,
        calls: calls_after(s.calls, events_of(s.buffer + bytes)),
    }
}

/// The data that ends a stream.
pub open spec fn closing_data(head: Head, s: StreamView) -> Seq<Seq<char>> {
    data_texts(closing_chunks(head, s.calls.finished)).push("[DONE]"@)
}

impl SseStream {
    /// What all chunks of the stream have in common.
    pub open spec fn head(&self) -> Head {
        Head { id: self.completion_id@, created: self.created, model: self.model@ }
    }

    /// What the stream has seen and sent so far.
    pub open spec fn state(&self) -> StreamView {
        StreamView {
            buffer: self.buffer.bytes(),
            first: self.first_chunk,
            calls: self.calls.calls(),
        }
    }

    /// Begins an answer with the given identifier and time.
    pub fn new(completion_id: String, created: i64, model: String) -> (r: SseStream)
        ensures
            r.head() == (Head { id: completion_id@, created, model: model@ }),
            r.state() == stream_start(),
    {
        SseStream {
            completion_id,
            created,
            model,
            buffer: FrameBuffer::new(),
            first_chunk: true,
            calls: CallCollector::new(),
        }
    }

    /// Takes a chunk of Kiro's answer in. Returns the data of the events to send now. A chunk that
    /// is UTF-8 is read as it is.
    pub fn on_chunk(&mut self, bytes: &[u8]) -> (r: Vec<String>)
        ensures
            final(self).head() == old(self).head(),
            final(self).state() == stream_after(
                old(self).head(),
                old(self).state(),
                encode_utf8(lossy_text(bytes@)),
            ),
            texts(r@) == data_texts(
                stream_sends(
                    old(self).head(),
                    old(self).state(),
                    encode_utf8(lossy_text(bytes@)),
                ),
            ),
            valid_utf8(bytes@) ==> encode_utf8(lossy_text(bytes@)) == bytes@,
    {
        let events = self.buffer.read_events(bytes);
        let ghost head = self.head();
        let ghost first = self.first_chunk;
        let ghost start = self.calls.calls();
        let ghost seen = items_view(events@);
        let mut out: Vec<String> = Vec::new();
        let mut i: usize = 0;
        assert(seen.take(0) =~= Seq::<JsonView>::empty());
        assert(texts(out@) =~= data_texts(content_chunks(head, first, seen.take(0))));
        while i < events.len()
            invariant
                i <= events@.len(),
                seen == items_view(events@),
                self.head() == head,
                self.buffer.bytes() == remainder(
                    old(self).buffer.bytes() + encode_utf8(lossy_text(bytes@)),
                ),
                texts(out@) == data_texts(content_chunks(head, first, seen.take(i as int))),
                self.first_chunk == (first && content_chunks(
                    head,
                    first,
                    seen.take(i as int),
                ).len() == 0),
                self.calls.calls() == calls_after(start, seen.take(i as int)),
            decreases events@.len() - i,
        {
            proof {
                assert(seen.take(i + 1).drop_last() =~= seen.take(i as int));
                assert(seen.take(i + 1).last() == events@[i as int]@);
            }
            let ghost sent = content_chunks(head, first, seen.take(i as int));
            let ghost out_before = out@;
            match handle_content_event(
                &events[i],
                &mut self.first_chunk,
                self.completion_id.as_str(),
                self.created,
                self.model.as_str(),
            ) {
                Some(data) => {
                    out.push(data);
                    assert(texts(out@) =~= texts(out_before).push(data@));
                    assert(texts(out@) =~= data_texts(
                        content_chunks(head, first, seen.take(i + 1)),
                    ));
                },
                None => {},
            }
            self.calls.process(&events[i]);
            i += 1;
        }
        assert(seen.take(seen.len() as int) =~= seen);
        out
    }

    /// Ends the answer. Returns the data of the events that are left to send.
    pub fn finish(&self) -> (r: Vec<String>)
        ensures
            texts(r@) == closing_data(self.head(), self.state()),
    {
        let mut out: Vec<String> = Vec::new();
        let calls = self.calls.finished.as_slice();
        match build_tool_calls_event(
            calls,
            self.completion_id.as_str(),
            self.created,
            self.model.as_str(),
        ) {
            Some(data) => {
                out.push(data);
            },
            None => {},
        }
        let reason = reason_to_finish(calls);
        out.push(
            build_finish_event(
                self.completion_id.as_str(),
                self.created,
                self.model.as_str(),
                reason,
            ),
        );
        out.push("[DONE]".to_string());
        assert(texts(out@) =~= closing_data(self.head(), self.state()));
        out
    }
}

/// Begins an answer as a stream, with a new identifier and the time of now.
pub fn build_sse_stream(model: String) -> (r: SseStream)
    ensures
        completion_id(r.head().id),
        0 <= r.head().created <= LAST_SECOND,
        r.head().model == model@,
        r.state() == stream_start(),
{
    SseStream::new(new_completion_id(), moment_now().secs, model)
}

/// The answer as one object, with the given identifier and time. Chunks that are UTF-8 are read
/// as they are.
pub fn json_response(
    chunks: &[Vec<u8>],
    model: &str,
    completion_id: &str,
    created: i64,
) -> (r: Json)
    ensures
        r@ == json_answer(
            Head { id: completion_id@, created, model: model@ },
            events_of(received(chunks@)),
        ),
        all_utf8(chunks@) ==> received(chunks@) == joined(chunks@),
{
    let mut buffer = FrameBuffer::new();
    let mut content = String::new();
    let mut calls = CallCollector::new();
    let mut n: usize = 0;
    proof {
        assert(chunks@.take(0) =~= Seq::<Vec<u8>>::empty());
        lemma_object_bounds(Seq::empty());
        assert(events_of(Seq::empty()) =~= Seq::<JsonView>::empty());
    }
    while n < chunks.len()
        invariant
            n <= chunks@.len(),
            buffer.bytes() == remainder(received(chunks@.take(n as int))),
            all_utf8(chunks@) ==> received(chunks@.take(n as int)) == joined(
                chunks@.take(n as int),
            ),
            content@ == full_content(events_of(received(chunks@.take(n as int)))),
            calls.calls() == calls_after(no_calls(), events_of(received(chunks@.take(n as int)))),
        decreases chunks@.len() - n,
    {
        let ghost before = received(chunks@.take(n as int));
        let ghost arrived = encode_utf8(lossy_text(chunks@[n as int]@));
        proof {
            assert(chunks@.take(n + 1).drop_last() =~= chunks@.take(n as int));
            lemma_frames_of_parts(before, arrived);
            lemma_events_of_parts(before, arrived);
        }
        let events = buffer.read_events(chunks[n].as_slice());
        let ghost seen = items_view(events@);
        let ghost text_before = content@;
        let ghost calls_before = calls.calls();
        let mut i: usize = 0;
        proof {
            assert(seen.take(0) =~= Seq::<JsonView>::empty());
            assert(text_before + full_content(seen.take(0)) =~= text_before);
        }
        while i < events.len()
            invariant
                i <= events@.len(),
                seen == items_view(events@),
                content@ == text_before + full_content(seen.take(i as int)),
                calls.calls() == calls_after(calls_before, seen.take(i as int)),
            decreases events@.len() - i,
        {
            proof {
                assert(seen.take(i + 1).drop_last() =~= seen.take(i as int));
                assert(seen.take(i + 1).last() == events@[i as int]@);
            }
            match events[i].get_str("content") {
                Some(piece) => {
                    content.append(piece);
                },
                None => {},
            }
            assert(content@ =~= text_before + full_content(seen.take(i + 1)));
            calls.process(&events[i]);
            i += 1;
        }
        proof {
            assert(seen.take(seen.len() as int) =~= seen);
            lemma_full_content_parts(events_of(before), seen);
            lemma_calls_after_parts(no_calls(), events_of(before), seen);
        }
        n += 1;
    }
    assert(chunks@.take(chunks@.len() as int) =~= chunks@);
    let reason = reason_to_finish(calls.finished.as_slice());
    let text = if content.as_str().is_empty() {
        Json::Null
    } else {
        Json::text(content.as_str())
    };
    let mut message = JsonObject::new().with("role", Json::text("assistant")).with(
        "content",
        text,
    );
    let finished = calls.finished;
    if finished.len() > 0 {
        proof {
            lemma_array_view(finished);
        }
        message.set("tool_calls", Json::Array(finished));
    }
    let choice = JsonObject::new().with("index", Json::signed(0)).with(
        "message",
        Json::Object(message),
    ).with("finish_reason", Json::text(reason));
    completion_object(completion_id, created, model, "chat.completion", choice)
}

/// The answer as one object, with a new identifier and the time of now.
pub fn build_json_response(chunks: &[Vec<u8>], model: &str) -> (r: Json)
    ensures
        exists|id: Seq<char>, created: i64| #[trigger]
            completion_id(id) && 0 <= created <= LAST_SECOND && r@ == #[trigger] json_answer(
                Head { id, created, model: model@ },
                events_of(received(chunks@)),
            ),
        all_utf8(chunks@) ==> received(chunks@) == joined(chunks@),
{
    let id = new_completion_id();
    let created = moment_now().secs;
    json_response(chunks, model, id.as_str(), created)
}

/// What is seen of a stream is what it holds.
pub proof fn lemma_stream_is_seen_whole(s: SseStream)
    ensures
        s.head().id == s.completion_id@,
        s.head().created == s.created,
        s.head().model == s.model@,
        s.state().buffer == encode_utf8(s.buffer.text@),
        s.state().first == s.first_chunk,
        s.state().calls.finished == items_view(s.calls.finished@),
        s.state().calls.open == s.calls.accumulator.open_calls(),
{
}

/// Every text of a list is seen, in its place.
pub proof fn lemma_texts_are_seen(list: Seq<String>, i: int)
    requires
        0 <= i < list.len(),
    ensures
        texts(list).len() == list.len(),
        texts(list)[i] == list[i]@,
{
}

/// The bytes of chunks stand one after the other, unchanged, and all chunks have to be UTF-8 for
/// them to be read so.
pub proof fn lemma_chunks_are_joined(chunks: Seq<Vec<u8>>, chunk: Vec<u8>)
    ensures
        joined(Seq::empty()) == Seq::<u8>::empty(),
        joined(chunks.push(chunk)) == joined(chunks) + chunk@,
        all_utf8(chunks.push(chunk)) <==> all_utf8(chunks) && valid_utf8(chunk@),
{
    let all = chunks.push(chunk);
    assert(all.drop_last() =~= chunks);
    assert(all[chunks.len() as int] == chunk);
    if all_utf8(all) {
        assert forall|i: int| 0 <= i < chunks.len() implies valid_utf8(#[trigger] chunks[i]@) by {
            assert(all[i] == chunks[i]);
        }
    }
}

} // verus!
