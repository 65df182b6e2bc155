//! How the two forms of an answer agree, however Kiro's answer arrives.
use vstd::prelude::*;

use vstd::utf8::encode_utf8;

use crate::json::{field, text_field, JsonView};
use crate::provider::kiro::framing::{lemma_frames_of_parts, lemma_object_bounds, remainder};
use crate::provider::kiro::response_builder::{
    answer_message, chunk, closing_chunks, content_chunk, content_chunks, event_content, events_of,
    finish_chunk, finish_reason, full_content, json_answer, lemma_content_chunks_parts,
    lemma_events_of_parts, received, stream_after, stream_sends, stream_start, tool_calls_chunk,
    Head, StreamView,
};
use crate::provider::kiro::tool_calls::{calls_after, lemma_calls_after_parts, no_calls};
use crate::text::lossy_text;

verus! {

/// A stream sends the same and ends in the same state whether bytes arrive at once or in two
/// parts.
pub proof fn lemma_stream_of_parts(head: Head, s: StreamView, a: Seq<u8>, b: Seq<u8>)
    ensures
        stream_after(head, stream_after(head, s, a), b) == stream_after(head, s, a + b),
        stream_sends(head, s, a) + stream_sends(head, stream_after(head, s, a), b) == stream_sends(
            head,
            s,
            a + b,
        ),
{
    let seen = s.buffer + a;
    assert(s.buffer + (a + b) =~= seen + b);
    lemma_frames_of_parts(seen, b);
    lemma_events_of_parts(seen, b);
    lemma_content_chunks_parts(head, s.first, events_of(seen), events_of(remainder(seen) + b));
    lemma_calls_after_parts(s.calls, events_of(seen), events_of(remainder(seen) + b));
}

/// A stream after all these chunks arrived.
pub open spec fn streamed(head: Head, chunks: Seq<Vec<u8>>) -> StreamView
    decreases chunks.len(),
{
    if chunks.len() == 0 {
        stream_start()
    } else {
        stream_after(
            head,
            streamed(head, chunks.drop_last()),
            encode_utf8(lossy_text(chunks.last()@)),
        )
    }
}

/// What a stream sends while these chunks arrive.
pub open spec fn stream_sent(head: Head, chunks: Seq<Vec<u8>>) -> Seq<JsonView>
    decreases chunks.len(),
{
    if chunks.len() == 0 {
        Seq::empty()
    } else {
        stream_sent(head, chunks.drop_last()) + stream_sends(
            head,
            streamed(head, chunks.drop_last()),
            encode_utf8(lossy_text(chunks.last()@)),
        )
    }
}

/// All that a stream sends rests on the text that arrived, not on how it was cut.
pub proof fn lemma_streamed(head: Head, chunks: Seq<Vec<u8>>)
    ensures
        streamed(head, chunks) == stream_after(head, stream_start(), received(chunks)),
        stream_sent(head, chunks) == stream_sends(head, stream_start(), received(chunks)),
    decreases chunks.len(),
{
    if chunks.len() == 0 {
        let none = Seq::<u8>::empty();
        assert(none + none =~= none);
        lemma_object_bounds(none);
        assert(events_of(none) =~= Seq::<JsonView>::empty());
    } else {
        lemma_streamed(head, chunks.drop_last());
        lemma_stream_of_parts(
            head,
            stream_start(),
            received(chunks.drop_last()),
            encode_utf8(lossy_text(chunks.last()@)),
        );
    }
}

/// The choice of an answer, or of a part of one.
pub open spec fn choice_of(v: JsonView) -> JsonView {
    match field(v, "choices"@) {
        Some(JsonView::Array(choices)) => choices[0],
        _ => JsonView::Null,
    }
}

/// What a chunk adds to the answer.
pub open spec fn delta_of(v: JsonView) -> JsonView {
    match field(choice_of(v), "delta"@) {
        Some(delta) => delta,
        None => JsonView::Null,
    }
}

/// The message of an answer.
pub open spec fn message_of(v: JsonView) -> JsonView {
    match field(choice_of(v), "message"@) {
        Some(message) => message,
        None => JsonView::Null,
    }
}

/// The text in a message, or in what a chunk adds.
pub open spec fn content_in(v: JsonView) -> Seq<char> {
    match text_field(v, "content"@) {
        Some(s) => s,
        None => Seq::empty(),
    }
}

/// The tool calls in a message, or in what a chunk adds.
pub open spec fn calls_in(v: JsonView) -> Seq<JsonView> {
    match field(v, "tool_calls"@) {
        Some(JsonView::Array(calls)) => calls,
        _ => Seq::empty(),
    }
}

/// The text that the chunks add.
pub open spec fn added_content(chunks: Seq<JsonView>) -> Seq<char>
    decreases chunks.len(),
{
    if chunks.len() == 0 {
        Seq::empty()
    } else {
        added_content(chunks.drop_last()) + content_in(delta_of(chunks.last()))
    }
}

/// The tool calls that the chunks add.
pub open spec fn added_calls(chunks: Seq<JsonView>) -> Seq<JsonView>
    decreases chunks.len(),
{
    if chunks.len() == 0 {
        Seq::empty()
    } else {
        added_calls(chunks.drop_last()) + calls_in(delta_of(chunks.last()))
    }
}

/// A chunk adds its delta and gives its reason to finish.
proof fn lemma_chunk(head: Head, delta: Map<Seq<char>, JsonView>, reason: JsonView)
    ensures
        delta_of(chunk(head, delta, reason)) == JsonView::Object(delta),
        field(choice_of(chunk(head, delta, reason)), "finish_reason"@) == Some(reason),
{
    reveal_strlit("delta");
    reveal_strlit("finish_reason");
    assert("delta"@.len() != "finish_reason"@.len());
}

proof fn lemma_content_chunk(head: Head, content: Seq<char>, first: bool)
    ensures
        content_in(delta_of(content_chunk(head, content, first))) == content,
        calls_in(delta_of(content_chunk(head, content, first))) == Seq::<JsonView>::empty(),
        field(delta_of(content_chunk(head, content, first)), "role"@) == if first {
            Some(JsonView::Text("assistant"@))
        } else {
            None
        },
{
    reveal_strlit("content");
    reveal_strlit("role");
    reveal_strlit("tool_calls");
    assert("content"@.len() == 7 && "role"@.len() == 4 && "tool_calls"@.len() == 10);
    let delta = map!["content"@ => JsonView::Text(content)];
    lemma_chunk(
        head,
        if first {
            delta.insert("role"@, JsonView::Text("assistant"@))
        } else {
            delta
        },
        JsonView::Null,
    );
}

/// Only the first chunk of a stream says who speaks.
pub proof fn lemma_role_is_sent_once(
    head: Head,
    first: bool,
    events: Seq<JsonView>,
    k: int,
)
    requires
        0 <= k < content_chunks(head, first, events).len(),
    ensures
        field(delta_of(content_chunks(head, first, events)[k]), "role"@) == if first && k == 0 {
            Some(JsonView::Text("assistant"@))
        } else {
            None
        },
    decreases events.len(),
{
    let sent = content_chunks(head, first, events.drop_last());
    if k < sent.len() {
        lemma_role_is_sent_once(head, first, events.drop_last(), k);
    } else {
        lemma_content_chunk(head, event_content(events.last()), first && sent.len() == 0);
    }
}

/// The chunks of the events add the text of the events and no tool call.
pub proof fn lemma_content_chunks_add(head: Head, first: bool, events: Seq<JsonView>)
    ensures
        added_content(content_chunks(head, first, events)) == full_content(events),
        added_calls(content_chunks(head, first, events)) == Seq::<JsonView>::empty(),
    decreases events.len(),
{
    if events.len() > 0 {
        lemma_content_chunks_add(head, first, events.drop_last());
        let sent = content_chunks(head, first, events.drop_last());
        let content = event_content(events.last());
        let after = content_chunks(head, first, events);
        if content.len() == 0 {
            assert(full_content(events) =~= full_content(events.drop_last()));
        } else {
            lemma_content_chunk(head, content, first && sent.len() == 0);
            assert(after.drop_last() =~= sent);
            assert(added_calls(after) =~= Seq::<JsonView>::empty());
        }
    }
}

/// The chunks of a whole answer.
pub open spec fn all_chunks(head: Head, chunks: Seq<Vec<u8>>) -> Seq<JsonView> {
    stream_sent(head, chunks) + closing_chunks(head, streamed(head, chunks).calls.finished)
}

proof fn lemma_closing_chunks(head: Head, sent: Seq<JsonView>, calls: Seq<JsonView>)
    ensures
        added_content(sent + closing_chunks(head, calls)) == added_content(sent),
        added_calls(sent + closing_chunks(head, calls)) == added_calls(sent) + calls,
        field(choice_of((sent + closing_chunks(head, calls)).last()), "finish_reason"@) == Some(
            JsonView::Text(finish_reason(calls)),
        ),
{
    reveal_strlit("content");
    reveal_strlit("tool_calls");
    assert("content"@.len() == 7 && "tool_calls"@.len() == 10);
    let none = Map::<Seq<char>, JsonView>::empty();
    let reason = finish_reason(calls);
    let end = finish_chunk(head, reason);
    let all = sent + closing_chunks(head, calls);
    lemma_chunk(head, none, JsonView::Text(reason));
    assert(all.last() == end);
    if calls.len() == 0 {
        assert(all.drop_last() =~= sent);
    } else {
        let with_calls = tool_calls_chunk(head, calls);
        lemma_chunk(head, map!["tool_calls"@ => JsonView::Array(calls)], JsonView::Null);
        assert(all.drop_last() =~= sent.push(with_calls));
        assert(sent.push(with_calls).drop_last() =~= sent);
        assert(added_content(sent.push(with_calls)) =~= added_content(sent));
        assert(added_calls(sent.push(with_calls)) =~= added_calls(sent) + calls);
    }
    assert(added_content(all) =~= added_content(sent));
    assert(added_calls(all) =~= added_calls(sent) + calls);
}

/// A client gets the same answer from the stream as from the one object: the same text, the
/// same tool calls and the same reason to finish.
pub proof fn lemma_answers_agree(head: Head, chunks: Seq<Vec<u8>>)
    ensures
        added_content(all_chunks(head, chunks)) == content_in(
            message_of(json_answer(head, events_of(received(chunks)))),
        ),
        added_calls(all_chunks(head, chunks)) == calls_in(
            message_of(json_answer(head, events_of(received(chunks)))),
        ),
        field(choice_of(all_chunks(head, chunks).last()), "finish_reason"@) == field(
            choice_of(json_answer(head, events_of(received(chunks)))),
            "finish_reason"@,
        ),
{
    let bytes = received(chunks);
    let events = events_of(bytes);
    let calls = calls_after(no_calls(), events).finished;
    assert(Seq::<u8>::empty() + bytes =~= bytes);
    lemma_streamed(head, chunks);
    assert(streamed(head, chunks).calls.finished == calls);
    lemma_content_chunks_add(head, true, events);
    lemma_closing_chunks(head, stream_sent(head, chunks), calls);
    assert(Seq::<JsonView>::empty() + calls =~= calls);
    reveal_strlit("content");
    reveal_strlit("tool_calls");
    reveal_strlit("message");
    reveal_strlit("finish_reason");
    reveal_strlit("role");
    assert("content"@.len() == 7 && "tool_calls"@.len() == 10 && "message"@.len() == 7);
    assert("finish_reason"@.len() == 13 && "role"@.len() == 4);
    let answer = json_answer(head, events);
    assert(message_of(answer) == JsonView::Object(answer_message(full_content(events), calls)));
    if full_content(events).len() == 0 {
        assert(full_content(events) =~= Seq::<char>::empty());
    }
    if calls.len() == 0 {
        assert(calls =~= Seq::<JsonView>::empty());
    }
}

} // verus!
