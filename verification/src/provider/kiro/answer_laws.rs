//! What a client gets out of Kiro's answer, said of the JSON itself.
use vstd::prelude::*;

use vstd::utf8::{decode_utf8, encode_utf8};

use crate::json::bridge::{compact_text, parsed_json, signed_number, unsigned_number};
use crate::json::objects::Piece;
use crate::json::{has_field, has_names, inner, items, lacks_field, JsonView};
use crate::provider::kiro::agreement::{lemma_streamed, stream_sent, streamed};
use crate::provider::kiro::framing::{
    frame_ok, framed, frames, lemma_framed_objects_are_read, remainder,
};
use crate::provider::kiro::response_builder::{
    chunk, closing_chunks, closing_data, content_chunk, content_chunks, data_texts, events_in,
    events_of, finish_chunk, full_content, json_answer, received, tool_calls_chunk, Head,
    StreamView,
};
use crate::provider::kiro::tool_calls::{
    call_id, call_name, call_piece, call_view, calls_after, calls_step, events_of_call, is_event_of,
    is_stop, is_tool_event, is_whole_call, joined_pieces, lemma_interleaved_call_finishes,
    lemma_whole_call_finishes, no_calls, CallsView,
};
use crate::text::lossy_text;

verus! {

/// The names of an answer's fields differ.
pub proof fn lemma_answer_names()
    ensures
        "id"@ != "object"@,
        "id"@ != "created"@,
        "id"@ != "model"@,
        "id"@ != "choices"@,
        "id"@ != "index"@,
        "id"@ != "delta"@,
        "id"@ != "message"@,
        "id"@ != "finish_reason"@,
        "id"@ != "role"@,
        "id"@ != "content"@,
        "id"@ != "tool_calls"@,
        "id"@ != "type"@,
        "id"@ != "function"@,
        "id"@ != "name"@,
        "id"@ != "arguments"@,
        "object"@ != "created"@,
        "object"@ != "model"@,
        "object"@ != "choices"@,
        "object"@ != "index"@,
        "object"@ != "delta"@,
        "object"@ != "message"@,
        "object"@ != "finish_reason"@,
        "object"@ != "role"@,
        "object"@ != "content"@,
        "object"@ != "tool_calls"@,
        "object"@ != "type"@,
        "object"@ != "function"@,
        "object"@ != "name"@,
        "object"@ != "arguments"@,
        "created"@ != "model"@,
        "created"@ != "choices"@,
        "created"@ != "index"@,
        "created"@ != "delta"@,
        "created"@ != "message"@,
        "created"@ != "finish_reason"@,
        "created"@ != "role"@,
        "created"@ != "content"@,
        "created"@ != "tool_calls"@,
        "created"@ != "type"@,
        "created"@ != "function"@,
        "created"@ != "name"@,
        "created"@ != "arguments"@,
        "model"@ != "choices"@,
        "model"@ != "index"@,
        "model"@ != "delta"@,
        "model"@ != "message"@,
        "model"@ != "finish_reason"@,
        "model"@ != "role"@,
        "model"@ != "content"@,
        "model"@ != "tool_calls"@,
        "model"@ != "type"@,
        "model"@ != "function"@,
        "model"@ != "name"@,
        "model"@ != "arguments"@,
        "choices"@ != "index"@,
        "choices"@ != "delta"@,
        "choices"@ != "message"@,
        "choices"@ != "finish_reason"@,
        "choices"@ != "role"@,
        "choices"@ != "content"@,
        "choices"@ != "tool_calls"@,
        "choices"@ != "type"@,
        "choices"@ != "function"@,
        "choices"@ != "name"@,
        "choices"@ != "arguments"@,
        "index"@ != "delta"@,
        "index"@ != "message"@,
        "index"@ != "finish_reason"@,
        "index"@ != "role"@,
        "index"@ != "content"@,
        "index"@ != "tool_calls"@,
        "index"@ != "type"@,
        "index"@ != "function"@,
        "index"@ != "name"@,
        "index"@ != "arguments"@,
        "delta"@ != "message"@,
        "delta"@ != "finish_reason"@,
        "delta"@ != "role"@,
        "delta"@ != "content"@,
        "delta"@ != "tool_calls"@,
        "delta"@ != "type"@,
        "delta"@ != "function"@,
        "delta"@ != "name"@,
        "delta"@ != "arguments"@,
        "message"@ != "finish_reason"@,
        "message"@ != "role"@,
        "message"@ != "content"@,
        "message"@ != "tool_calls"@,
        "message"@ != "type"@,
        "message"@ != "function"@,
        "message"@ != "name"@,
        "message"@ != "arguments"@,
        "finish_reason"@ != "role"@,
        "finish_reason"@ != "content"@,
        "finish_reason"@ != "tool_calls"@,
        "finish_reason"@ != "type"@,
        "finish_reason"@ != "function"@,
        "finish_reason"@ != "name"@,
        "finish_reason"@ != "arguments"@,
        "role"@ != "content"@,
        "role"@ != "tool_calls"@,
        "role"@ != "type"@,
        "role"@ != "function"@,
        "role"@ != "name"@,
        "role"@ != "arguments"@,
        "content"@ != "tool_calls"@,
        "content"@ != "type"@,
        "content"@ != "function"@,
        "content"@ != "name"@,
        "content"@ != "arguments"@,
        "tool_calls"@ != "type"@,
        "tool_calls"@ != "function"@,
        "tool_calls"@ != "name"@,
        "tool_calls"@ != "arguments"@,
        "type"@ != "function"@,
        "type"@ != "name"@,
        "type"@ != "arguments"@,
        "function"@ != "name"@,
        "function"@ != "arguments"@,
        "name"@ != "arguments"@,
{
    reveal_strlit("id");
    reveal_strlit("object");
    reveal_strlit("created");
    reveal_strlit("model");
    reveal_strlit("choices");
    reveal_strlit("index");
    reveal_strlit("delta");
    reveal_strlit("message");
    reveal_strlit("finish_reason");
    reveal_strlit("role");
    reveal_strlit("content");
    reveal_strlit("tool_calls");
    reveal_strlit("type");
    reveal_strlit("function");
    reveal_strlit("name");
    reveal_strlit("arguments");
    assert("id"@.len() != "object"@.len());
    assert("id"@.len() != "created"@.len());
    assert("id"@.len() != "model"@.len());
    assert("id"@.len() != "choices"@.len());
    assert("id"@.len() != "index"@.len());
    assert("id"@.len() != "delta"@.len());
    assert("id"@.len() != "message"@.len());
    assert("id"@.len() != "finish_reason"@.len());
    assert("id"@.len() != "role"@.len());
    assert("id"@.len() != "content"@.len());
    assert("id"@.len() != "tool_calls"@.len());
    assert("id"@.len() != "type"@.len());
    assert("id"@.len() != "function"@.len());
    assert("id"@.len() != "name"@.len());
    assert("id"@.len() != "arguments"@.len());
    assert("object"@.len() != "created"@.len());
    assert("object"@.len() != "model"@.len());
    assert("object"@.len() != "choices"@.len());
    assert("object"@.len() != "index"@.len());
    assert("object"@.len() != "delta"@.len());
    assert("object"@.len() != "message"@.len());
    assert("object"@.len() != "finish_reason"@.len());
    assert("object"@.len() != "role"@.len());
    assert("object"@.len() != "content"@.len());
    assert("object"@.len() != "tool_calls"@.len());
    assert("object"@.len() != "type"@.len());
    assert("object"@.len() != "function"@.len());
    assert("object"@.len() != "name"@.len());
    assert("object"@.len() != "arguments"@.len());
    assert("created"@.len() != "model"@.len());
    assert("created"@[1] != "choices"@[1]);
    assert("created"@.len() != "index"@.len());
    assert("created"@.len() != "delta"@.len());
    assert("created"@[0] != "message"@[0]);
    assert("created"@.len() != "finish_reason"@.len());
    assert("created"@.len() != "role"@.len());
    assert("created"@[1] != "content"@[1]);
    assert("created"@.len() != "tool_calls"@.len());
    assert("created"@.len() != "type"@.len());
    assert("created"@.len() != "function"@.len());
    assert("created"@.len() != "name"@.len());
    assert("created"@.len() != "arguments"@.len());
    assert("model"@.len() != "choices"@.len());
    assert("model"@[0] != "index"@[0]);
    assert("model"@[0] != "delta"@[0]);
    assert("model"@.len() != "message"@.len());
    assert("model"@.len() != "finish_reason"@.len());
    assert("model"@.len() != "role"@.len());
    assert("model"@.len() != "content"@.len());
    assert("model"@.len() != "tool_calls"@.len());
    assert("model"@.len() != "type"@.len());
    assert("model"@.len() != "function"@.len());
    assert("model"@.len() != "name"@.len());
    assert("model"@.len() != "arguments"@.len());
    assert("choices"@.len() != "index"@.len());
    assert("choices"@.len() != "delta"@.len());
    assert("choices"@[0] != "message"@[0]);
    assert("choices"@.len() != "finish_reason"@.len());
    assert("choices"@.len() != "role"@.len());
    assert("choices"@[1] != "content"@[1]);
    assert("choices"@.len() != "tool_calls"@.len());
    assert("choices"@.len() != "type"@.len());
    assert("choices"@.len() != "function"@.len());
    assert("choices"@.len() != "name"@.len());
    assert("choices"@.len() != "arguments"@.len());
    assert("index"@[0] != "delta"@[0]);
    assert("index"@.len() != "message"@.len());
    assert("index"@.len() != "finish_reason"@.len());
    assert("index"@.len() != "role"@.len());
    assert("index"@.len() != "content"@.len());
    assert("index"@.len() != "tool_calls"@.len());
    assert("index"@.len() != "type"@.len());
    assert("index"@.len() != "function"@.len());
    assert("index"@.len() != "name"@.len());
    assert("index"@.len() != "arguments"@.len());
    assert("delta"@.len() != "message"@.len());
    assert("delta"@.len() != "finish_reason"@.len());
    assert("delta"@.len() != "role"@.len());
    assert("delta"@.len() != "content"@.len());
    assert("delta"@.len() != "tool_calls"@.len());
    assert("delta"@.len() != "type"@.len());
    assert("delta"@.len() != "function"@.len());
    assert("delta"@.len() != "name"@.len());
    assert("delta"@.len() != "arguments"@.len());
    assert("message"@.len() != "finish_reason"@.len());
    assert("message"@.len() != "role"@.len());
    assert("message"@[0] != "content"@[0]);
    assert("message"@.len() != "tool_calls"@.len());
    assert("message"@.len() != "type"@.len());
    assert("message"@.len() != "function"@.len());
    assert("message"@.len() != "name"@.len());
    assert("message"@.len() != "arguments"@.len());
    assert("finish_reason"@.len() != "role"@.len());
    assert("finish_reason"@.len() != "content"@.len());
    assert("finish_reason"@.len() != "tool_calls"@.len());
    assert("finish_reason"@.len() != "type"@.len());
    assert("finish_reason"@.len() != "function"@.len());
    assert("finish_reason"@.len() != "name"@.len());
    assert("finish_reason"@.len() != "arguments"@.len());
    assert("role"@.len() != "content"@.len());
    assert("role"@.len() != "tool_calls"@.len());
    assert("role"@[0] != "type"@[0]);
    assert("role"@.len() != "function"@.len());
    assert("role"@[0] != "name"@[0]);
    assert("role"@.len() != "arguments"@.len());
    assert("content"@.len() != "tool_calls"@.len());
    assert("content"@.len() != "type"@.len());
    assert("content"@.len() != "function"@.len());
    assert("content"@.len() != "name"@.len());
    assert("content"@.len() != "arguments"@.len());
    assert("tool_calls"@.len() != "type"@.len());
    assert("tool_calls"@.len() != "function"@.len());
    assert("tool_calls"@.len() != "name"@.len());
    assert("tool_calls"@.len() != "arguments"@.len());
    assert("type"@.len() != "function"@.len());
    assert("type"@[0] != "name"@[0]);
    assert("type"@.len() != "arguments"@.len());
    assert("function"@.len() != "name"@.len());
    assert("function"@.len() != "arguments"@.len());
    assert("name"@.len() != "arguments"@.len());
}

/// Whether an event brings the text `s`: that is what its field `content` holds.
pub open spec fn brings(v: JsonView, s: Seq<char>) -> bool {
    has_field(v, "content"@, JsonView::Text(s))
}

/// Whether an event brings some text.
pub open spec fn brings_text(v: JsonView) -> bool {
    v matches JsonView::Object(m) && m.contains_key("content"@) && m["content"@] is Text
}

/// Whether `texts` are what the events bring, one by one; nothing for an event without text.
pub open spec fn bring(events: Seq<JsonView>, texts: Seq<Seq<char>>) -> bool {
    &&& events.len() == texts.len()
    &&& forall|i: int|
        0 <= i < events.len() ==> brings(#[trigger] events[i], texts[i]) || (texts[i].len() == 0
            && !brings_text(events[i]))
}

/// All texts that the events bring, one after the other and unchanged, are the text of the answer.
pub proof fn lemma_content_is_kept(events: Seq<JsonView>, texts: Seq<Seq<char>>)
    requires
        bring(events, texts),
    ensures
        full_content(events) == texts.flatten_alt(),
    decreases events.len(),
{
    if events.len() > 0 {
        let n = events.len() - 1;
        assert(brings(events[n], texts[n]) || !brings_text(events[n]));
        if !brings_text(events[n]) {
            if let JsonView::Object(m) = events[n] {
                if m.contains_key("content"@) {
                    if let JsonView::Text(s) = m["content"@] {
                        assert(brings(events[n], s));
                    }
                }
            }
        }
        assert forall|i: int| 0 <= i < n implies brings(
            #[trigger] events.drop_last()[i],
            texts.drop_last()[i],
        ) || (texts.drop_last()[i].len() == 0 && !brings_text(events.drop_last()[i])) by {
            assert(events.drop_last()[i] == events[i]);
        }
        lemma_content_is_kept(events.drop_last(), texts.drop_last());
        assert(full_content(events) =~= texts.flatten_alt());
    } else {
        assert(full_content(events) =~= texts.flatten_alt());
    }
}

/// Whether `v` is an answer, or a part of one, with the one choice `choice` and nothing else.
pub open spec fn is_completion(
    v: JsonView,
    head: Head,
    object: Seq<char>,
    choice: JsonView,
) -> bool {
    &&& has_names(v, set!["id"@, "object"@, "created"@, "model"@, "choices"@])
    &&& has_field(v, "id"@, JsonView::Text(head.id))
    &&& has_field(v, "object"@, JsonView::Text(object))
    &&& has_field(v, "created"@, JsonView::Number(signed_number(head.created)))
    &&& has_field(v, "model"@, JsonView::Text(head.model))
    &&& has_field(v, "choices"@, JsonView::Array(seq![choice]))
}

/// Whether `message` is an assistant's message with this text and these tool calls; without text
/// its content is null, and without calls it has no list of them.
pub open spec fn is_message(message: JsonView, text: Seq<char>, calls: Seq<JsonView>) -> bool {
    &&& has_field(message, "role"@, JsonView::Text("assistant"@))
    &&& text.len() > 0 ==> has_field(message, "content"@, JsonView::Text(text))
    &&& text.len() == 0 ==> has_field(message, "content"@, JsonView::Null)
    &&& calls.len() > 0 ==> has_field(message, "tool_calls"@, JsonView::Array(calls)) && has_names(
        message,
        set!["role"@, "content"@, "tool_calls"@],
    )
    &&& calls.len() == 0 ==> has_names(message, set!["role"@, "content"@])
}

/// Whether `choice` is the choice of an answer with this message and this reason to finish.
pub open spec fn is_answer_choice(
    choice: JsonView,
    message: JsonView,
    reason: Seq<char>,
) -> bool {
    &&& has_names(choice, set!["index"@, "message"@, "finish_reason"@])
    &&& has_field(choice, "index"@, JsonView::Number(signed_number(0)))
    &&& has_field(choice, "message"@, message)
    &&& has_field(choice, "finish_reason"@, JsonView::Text(reason))
}

/// The reason to finish: tool calls where there are any.
pub open spec fn reason_for(calls: Seq<JsonView>) -> Seq<char> {
    if calls.len() > 0 {
        "tool_calls"@
    } else {
        "stop"@
    }
}

/// The answer as one object has all texts of the events, unchanged and in their order, and all
/// their finished tool calls.
pub proof fn lemma_answer_has_all(
    head: Head,
    events: Seq<JsonView>,
    texts: Seq<Seq<char>>,
) -> (r: (JsonView, JsonView))
    requires
        bring(events, texts),
    ensures
        is_completion(json_answer(head, events), head, "chat.completion"@, r.0),
        is_answer_choice(r.0, r.1, reason_for(calls_after(no_calls(), events).finished)),
        is_message(r.1, texts.flatten_alt(), calls_after(no_calls(), events).finished),
{
    lemma_answer_names();
    lemma_content_is_kept(events, texts);
    let calls = calls_after(no_calls(), events).finished;
    let whole = json_answer(head, events)->Object_0;
    let choice = whole["choices"@]->Array_0[0];
    let message = choice->Object_0["message"@];
    assert(whole["choices"@]->Array_0 =~= seq![choice]);
    assert(whole.dom() =~= set!["id"@, "object"@, "created"@, "model"@, "choices"@]);
    assert(choice->Object_0.dom() =~= set!["index"@, "message"@, "finish_reason"@]);
    if calls.len() > 0 {
        assert(message->Object_0.dom() =~= set!["role"@, "content"@, "tool_calls"@]);
    } else {
        assert(message->Object_0.dom() =~= set!["role"@, "content"@]);
    }
    (choice, message)
}

/// Two events with the texts `a` and `b` give an answer with the text `a + b`, and a stream with
/// two chunks, one for each.
pub proof fn lemma_two_texts(head: Head, first: JsonView, second: JsonView, a: Seq<char>, b: Seq<char>)
    requires
        brings(first, a),
        brings(second, b),
        a.len() > 0,
        b.len() > 0,
    ensures
        ({
            let answer = json_answer(head, seq![first, second]);
            let choice = items(inner(answer, "choices"@))[0];
            has_field(inner(choice, "message"@), "content"@, JsonView::Text(a + b))
        }),
        content_chunks(head, true, seq![first, second]).len() == 2,
        ({
            let chunk = content_chunks(head, true, seq![first, second])[0];
            let choice = items(inner(chunk, "choices"@))[0];
            has_field(inner(choice, "delta"@), "content"@, JsonView::Text(a))
        }),
        ({
            let chunk = content_chunks(head, true, seq![first, second])[1];
            let choice = items(inner(chunk, "choices"@))[0];
            has_field(inner(choice, "delta"@), "content"@, JsonView::Text(b))
        }),
{
    let events = seq![first, second];
    let texts = seq![a, b];
    assert(bring(events, texts));
    assert(texts.drop_last() =~= seq![a]);
    assert(seq![a].drop_last() =~= Seq::<Seq<char>>::empty());
    assert(seq![a].flatten_alt() =~= a) by {
        assert(Seq::<Seq<char>>::empty().flatten_alt() =~= Seq::<char>::empty());
    }
    assert(texts.flatten_alt() =~= a + b);
    let (choice, message) = lemma_answer_has_all(head, events, texts);
    assert(items(inner(json_answer(head, events), "choices"@))[0] == choice);
    lemma_no_event_no_chunk(head, true);
    let delta = lemma_piece_is_sent(head, true, Seq::empty(), first, a);
    assert(Seq::<JsonView>::empty().push(first) =~= seq![first]);
    let later = lemma_piece_is_sent(head, true, seq![first], second, b);
    assert(seq![first].push(second) =~= events);
    let sent = content_chunks(head, true, events);
    assert(sent.drop_last()[0] == sent[0]);
    lemma_chunk_delta(sent[0], head, delta);
    lemma_chunk_delta(sent[1], head, later);
}

proof fn lemma_chunk_delta(v: JsonView, head: Head, delta: JsonView)
    requires
        is_chunk(v, head, delta, JsonView::Null),
    ensures
        inner(items(inner(v, "choices"@))[0], "delta"@) == delta,
{
    let choice = choose|choice: JsonView| #[trigger]
        is_completion(v, head, "chat.completion.chunk"@, choice) && is_chunk_choice(
            choice,
            delta,
            JsonView::Null,
        );
    assert(items(inner(v, "choices"@))[0] == choice);
}

/// Whether `v` is a chunk of a stream that adds `delta`, with this reason to finish.
pub open spec fn is_chunk(v: JsonView, head: Head, delta: JsonView, reason: JsonView) -> bool {
    exists|choice: JsonView| #[trigger]
        is_completion(v, head, "chat.completion.chunk"@, choice) && is_chunk_choice(
            choice,
            delta,
            reason,
        )
}

/// Whether `choice` is the choice of a chunk.
pub open spec fn is_chunk_choice(choice: JsonView, delta: JsonView, reason: JsonView) -> bool {
    &&& has_names(choice, set!["index"@, "delta"@, "finish_reason"@])
    &&& has_field(choice, "index"@, JsonView::Number(signed_number(0)))
    &&& has_field(choice, "delta"@, delta)
    &&& has_field(choice, "finish_reason"@, reason)
}

/// Whether `delta` adds the text `s`, and says who speaks where it is the first.
pub open spec fn is_text_delta(delta: JsonView, s: Seq<char>, first: bool) -> bool {
    &&& has_field(delta, "content"@, JsonView::Text(s))
    &&& first ==> has_field(delta, "role"@, JsonView::Text("assistant"@)) && has_names(
        delta,
        set!["content"@, "role"@],
    )
    &&& !first ==> has_names(delta, set!["content"@])
}

proof fn lemma_chunk_shape(v: JsonView, head: Head, delta: Map<Seq<char>, JsonView>, reason: JsonView)
    requires
        v == chunk(head, delta, reason),
    ensures
        is_chunk(v, head, JsonView::Object(delta), reason),
{
    lemma_answer_names();
    let whole = v->Object_0;
    let choice = whole["choices"@]->Array_0[0];
    assert(whole["choices"@]->Array_0 =~= seq![choice]);
    assert(whole.dom() =~= set!["id"@, "object"@, "created"@, "model"@, "choices"@]);
    assert(choice->Object_0.dom() =~= set!["index"@, "delta"@, "finish_reason"@]);
    assert(is_completion(v, head, "chat.completion.chunk"@, choice));
}

/// The chunk for a text adds that text, unchanged, and nothing but who speaks.
pub proof fn lemma_content_chunk_json(head: Head, s: Seq<char>, first: bool) -> (delta: JsonView)
    ensures
        is_chunk(content_chunk(head, s, first), head, delta, JsonView::Null),
        is_text_delta(delta, s, first),
{
    lemma_answer_names();
    let plain = map!["content"@ => JsonView::Text(s)];
    let delta = if first {
        plain.insert("role"@, JsonView::Text("assistant"@))
    } else {
        plain
    };
    lemma_chunk_shape(content_chunk(head, s, first), head, delta, JsonView::Null);
    if first {
        assert(delta.dom() =~= set!["content"@, "role"@]);
    } else {
        assert(delta.dom() =~= set!["content"@]);
    }
    JsonView::Object(delta)
}

/// The chunk for tool calls adds all of them.
pub proof fn lemma_tool_calls_chunk_json(head: Head, calls: Seq<JsonView>) -> (delta: JsonView)
    ensures
        is_chunk(tool_calls_chunk(head, calls), head, delta, JsonView::Null),
        has_names(delta, set!["tool_calls"@]),
        has_field(delta, "tool_calls"@, JsonView::Array(calls)),
{
    let delta = map!["tool_calls"@ => JsonView::Array(calls)];
    lemma_chunk_shape(tool_calls_chunk(head, calls), head, delta, JsonView::Null);
    assert(delta.dom() =~= set!["tool_calls"@]);
    JsonView::Object(delta)
}

/// The last chunk adds nothing and gives the reason to finish.
pub proof fn lemma_finish_chunk_json(head: Head, reason: Seq<char>)
    ensures
        is_chunk(
            finish_chunk(head, reason),
            head,
            JsonView::Object(Map::empty()),
            JsonView::Text(reason),
        ),
{
    lemma_chunk_shape(finish_chunk(head, reason), head, Map::empty(), JsonView::Text(reason));
}

/// No event, no chunk.
pub proof fn lemma_no_event_no_chunk(head: Head, first: bool)
    ensures
        content_chunks(head, first, Seq::empty()) == Seq::<JsonView>::empty(),
{
}

/// A further event with a text sends one more chunk, which adds that text, unchanged. Only the
/// first chunk says who speaks.
pub proof fn lemma_piece_is_sent(
    head: Head,
    first: bool,
    events: Seq<JsonView>,
    v: JsonView,
    s: Seq<char>,
) -> (delta: JsonView)
    requires
        brings(v, s),
        s.len() > 0,
    ensures
        content_chunks(head, first, events.push(v)).len() == content_chunks(
            head,
            first,
            events,
        ).len() + 1,
        content_chunks(head, first, events.push(v)).drop_last() == content_chunks(
            head,
            first,
            events,
        ),
        is_chunk(content_chunks(head, first, events.push(v)).last(), head, delta, JsonView::Null),
        is_text_delta(delta, s, first && content_chunks(head, first, events).len() == 0),
{
    assert(events.push(v).drop_last() =~= events);
    let sent = content_chunks(head, first, events);
    let after = content_chunks(head, first, events.push(v));
    assert(after.drop_last() =~= sent);
    lemma_content_chunk_json(head, s, first && sent.len() == 0)
}

/// A further event without a text sends nothing more.
pub proof fn lemma_no_piece_is_sent(
    head: Head,
    first: bool,
    events: Seq<JsonView>,
    v: JsonView,
)
    requires
        forall|s: Seq<char>| #[trigger] brings(v, s) ==> s.len() == 0,
    ensures
        content_chunks(head, first, events.push(v)) == content_chunks(head, first, events),
{
    assert(events.push(v).drop_last() =~= events);
    if let JsonView::Object(m) = v {
        if m.contains_key("content"@) {
            if let JsonView::Text(s) = m["content"@] {
                assert(brings(v, s));
            }
        }
    }
}

/// The end of a stream: all finished tool calls in one chunk where there are any, then the reason
/// to finish, then the mark that all is done. Each is sent as its JSON text.
pub proof fn lemma_stream_ends(head: Head, s: StreamView) -> (delta: JsonView)
    ensures
        closing_data(head, s).len() == closing_chunks(head, s.calls.finished).len() + 1,
        closing_data(head, s).last() == "[DONE]"@,
        closing_chunks(head, s.calls.finished).len() == if s.calls.finished.len() > 0 {
            2int
        } else {
            1int
        },
        forall|i: int|
            0 <= i < closing_chunks(head, s.calls.finished).len() ==> is_data(
                #[trigger] closing_data(head, s)[i],
                closing_chunks(head, s.calls.finished)[i],
            ),
        is_chunk(
            closing_chunks(head, s.calls.finished).last(),
            head,
            JsonView::Object(Map::empty()),
            JsonView::Text(reason_for(s.calls.finished)),
        ),
        s.calls.finished.len() > 0 ==> is_chunk(
            closing_chunks(head, s.calls.finished)[0],
            head,
            delta,
            JsonView::Null,
        ) && has_names(delta, set!["tool_calls"@]) && has_field(
            delta,
            "tool_calls"@,
            JsonView::Array(s.calls.finished),
        ),
{
    let calls = s.calls.finished;
    lemma_finish_chunk_json(head, reason_for(calls));
    lemma_tool_calls_chunk_json(head, calls)
}

/// Whether `text` is what is sent for a chunk: its JSON text.
pub open spec fn is_data(text: Seq<char>, chunk: JsonView) -> bool {
    match compact_text(chunk) {
        Some(t) => text == t,
        None => text.len() == 0,
    }
}

/// Every chunk is sent as its JSON text, in its place.
pub proof fn lemma_chunks_are_sent_as_text(chunks: Seq<JsonView>, i: int)
    requires
        0 <= i < chunks.len(),
    ensures
        data_texts(chunks).len() == chunks.len(),
        is_data(data_texts(chunks)[i], chunks[i]),
{
}

/// A stream sends the texts of all events that arrived, and keeps all their tool calls, from the
/// first chunk that arrived to the last.
pub proof fn lemma_stream_has_all(head: Head, chunks: Seq<Vec<u8>>)
    ensures
        stream_sent(head, chunks) == content_chunks(head, true, events_of(received(chunks))),
        streamed(head, chunks).calls == calls_after(
            CallsView { open: Map::empty(), finished: Seq::empty() },
            events_of(received(chunks)),
        ),
        streamed(head, chunks).buffer == remainder(received(chunks)),
        streamed(head, chunks).first == (stream_sent(head, chunks).len() == 0),
{
    lemma_streamed(head, chunks);
    assert(Seq::<u8>::empty() + received(chunks) =~= received(chunks));
}

/// A chunk that arrives is added behind those before it.
pub proof fn lemma_chunk_is_received(chunks: Seq<Vec<u8>>, chunk: Vec<u8>)
    ensures
        received(Seq::empty()) == Seq::<u8>::empty(),
        received(chunks.push(chunk)) == received(chunks) + encode_utf8(lossy_text(chunk@)),
{
    assert(chunks.push(chunk).drop_last() =~= chunks);
}

/// Every object that is JSON is an event; one that is not is passed over.
pub proof fn lemma_object_is_read(objects: Seq<Seq<u8>>, object: Seq<u8>)
    ensures
        events_in(Seq::empty()) == Seq::<JsonView>::empty(),
        parsed_json(decode_utf8(object)) matches Some(v) ==> events_in(objects.push(object))
            == events_in(objects).push(v),
        parsed_json(decode_utf8(object)) is None ==> events_in(objects.push(object)) == events_in(
            objects,
        ),
{
    assert(objects.push(object).drop_last() =~= objects);
    if let Some(v) = parsed_json(decode_utf8(object)) {
        assert(events_in(objects.push(object)) =~= events_in(objects).push(v));
    }
}

/// Whether `v` is an event of the tool call `id`: of the tool `name`, with the piece `piece` of
/// the arguments, and whether it ends the call.
pub open spec fn is_call_event(
    v: JsonView,
    id: Seq<char>,
    name: Seq<char>,
    piece: Seq<char>,
    stop: bool,
) -> bool {
    &&& has_field(v, "toolUseId"@, JsonView::Text(id))
    &&& has_field(v, "name"@, JsonView::Text(name))
    &&& lacks_field(v, "modelId"@)
    &&& has_field(v, "input"@, JsonView::Text(piece)) || (piece.len() == 0 && !has_text(v, "input"@))
    &&& stop == has_field(v, "stop"@, JsonView::Bool(true))
}

/// Whether the field `name` of `v` is a text.
pub open spec fn has_text(v: JsonView, name: Seq<char>) -> bool {
    v matches JsonView::Object(m) && m.contains_key(name) && m[name] is Text
}

/// The JSON that a text spells; an empty object where it spells none.
pub open spec fn spelled(text: Seq<char>) -> JsonView {
    match parsed_json(text) {
        Some(v) => v,
        None => JsonView::Object(Map::empty()),
    }
}

/// Whether `call` is a finished tool call: its number, its identifier, its tool, and as arguments
/// the JSON that `arguments` spells, written anew; an empty object where it spells none.
pub open spec fn is_finished_call(
    call: JsonView,
    index: int,
    id: Seq<char>,
    name: Seq<char>,
    arguments: Seq<char>,
) -> bool {
    &&& has_names(call, set!["index"@, "id"@, "type"@, "function"@])
    &&& has_field(call, "index"@, JsonView::Number(unsigned_number(index as u64)))
    &&& has_field(call, "id"@, JsonView::Text(id))
    &&& has_field(call, "type"@, JsonView::Text("function"@))
    &&& exists|function: JsonView, written: Seq<char>| #[trigger]
        has_field(call, "function"@, function) && #[trigger] is_data(
            written,
            spelled(arguments),
        ) && has_names(function, set!["name"@, "arguments"@]) && has_field(
            function,
            "name"@,
            JsonView::Text(name),
        ) && has_field(function, "arguments"@, JsonView::Text(written))
}

proof fn lemma_call_shape(index: int, id: Seq<char>, name: Seq<char>, arguments: Seq<char>)
    ensures
        is_finished_call(
            call_view(index, id, name, arguments),
            index,
            id,
            name,
            arguments,
        ),
{
    lemma_answer_names();
    let call = call_view(index, id, name, arguments);
    let function = call->Object_0["function"@];
    let value = spelled(arguments);
    let written = match compact_text(value) {
        Some(t) => t,
        None => Seq::empty(),
    };
    assert(is_data(written, value));
    assert(call->Object_0.dom() =~= set!["index"@, "id"@, "type"@, "function"@]);
    assert(function->Object_0.dom() =~= set!["name"@, "arguments"@]);
    assert(has_field(call, "function"@, function));
    assert(has_field(function, "arguments"@, JsonView::Text(written)));
}

/// A piece of a tool call is added, unchanged, to what there is of its arguments; the first event
/// of a call opens it. Nothing else changes.
pub proof fn lemma_piece_is_added(
    s: CallsView,
    v: JsonView,
    id: Seq<char>,
    name: Seq<char>,
    piece: Seq<char>,
)
    requires
        is_call_event(v, id, name, piece, false),
    ensures
        calls_step(s, v).finished == s.finished,
        s.open.contains_key(id) ==> calls_step(s, v).open == s.open.insert(
            id,
            (s.open[id].0, s.open[id].1 + piece),
        ),
        !s.open.contains_key(id) ==> calls_step(s, v).open == s.open.insert(id, (name, piece)),
{
    lemma_piece_of(v, id, name, piece, false);
}

proof fn lemma_piece_of(
    v: JsonView,
    id: Seq<char>,
    name: Seq<char>,
    piece: Seq<char>,
    stop: bool,
)
    requires
        is_call_event(v, id, name, piece, stop),
    ensures
        call_piece(v) == piece,
{
    if let JsonView::Object(m) = v {
        if m.contains_key("input"@) {
            if let JsonView::Text(t) = m["input"@] {
                assert(has_field(v, "input"@, JsonView::Text(t)));
            }
        }
    }
    if piece.len() == 0 {
        assert(piece =~= Seq::<char>::empty());
    }
}

/// The end of an open call finishes it, with the arguments that were collected; the end of any
/// other call changes nothing.
pub proof fn lemma_call_is_ended(
    s: CallsView,
    v: JsonView,
    id: Seq<char>,
    name: Seq<char>,
    piece: Seq<char>,
)
    requires
        is_call_event(v, id, name, piece, true),
    ensures
        calls_step(s, v).open == s.open.remove(id),
        !s.open.contains_key(id) ==> calls_step(s, v).finished == s.finished,
        s.open.contains_key(id) ==> {
            &&& calls_step(s, v).finished.len() == s.finished.len() + 1
            &&& calls_step(s, v).finished.drop_last() == s.finished
            &&& is_finished_call(
                calls_step(s, v).finished.last(),
                s.finished.len() as int,
                id,
                s.open[id].0,
                s.open[id].1,
            )
        },
{
    if s.open.contains_key(id) {
        lemma_call_shape(s.finished.len() as int, id, s.open[id].0, s.open[id].1);
        assert(calls_step(s, v).finished.drop_last() =~= s.finished);
    }
}

/// An event without identifier or name, or of the answer's text, changes no call.
pub proof fn lemma_other_events_change_no_call(s: CallsView, v: JsonView)
    requires
        !has_text(v, "toolUseId"@) || !has_text(v, "name"@) || !lacks_field(v, "modelId"@),
    ensures
        calls_step(s, v) == s,
{
    if let JsonView::Object(m) = v {
        if m.contains_key("toolUseId"@) {
            if let JsonView::Text(t) = m["toolUseId"@] {
                assert(has_field(v, "toolUseId"@, JsonView::Text(t)));
            }
        }
        if m.contains_key("name"@) {
            if let JsonView::Text(t) = m["name"@] {
                assert(has_field(v, "name"@, JsonView::Text(t)));
            }
        }
    }
}

/// Whether the events are one whole tool call with these names and pieces: the last event and no
/// other ends it.
pub open spec fn is_call(
    events: Seq<JsonView>,
    id: Seq<char>,
    names: Seq<Seq<char>>,
    pieces: Seq<Seq<char>>,
) -> bool {
    &&& events.len() >= 2
    &&& names.len() == events.len()
    &&& pieces.len() == events.len()
    &&& forall|k: int|
        0 <= k < events.len() ==> is_call_event(
            #[trigger] events[k],
            id,
            names[k],
            pieces[k],
            k == events.len() - 1,
        )
}

proof fn lemma_call_as_whole(
    events: Seq<JsonView>,
    id: Seq<char>,
    names: Seq<Seq<char>>,
    pieces: Seq<Seq<char>>,
    n: int,
)
    requires
        is_call(events, id, names, pieces),
        0 <= n <= events.len(),
    ensures
        is_whole_call(events, id),
        joined_pieces(events.take(n)) == pieces.take(n).flatten_alt(),
        call_name(events[0]) == names[0],
    decreases n,
{
    assert forall|k: int| 0 <= k < events.len() implies is_tool_event(
        #[trigger] events[k],
    ) && call_id(events[k]) == id && (
    is_stop(events[k]) <==> k == events.len() - 1) by {
        assert(is_call_event(events[k], id, names[k], pieces[k], k == events.len() - 1));
    }
    assert(is_call_event(events[0], id, names[0], pieces[0], 0 == events.len() - 1));
    if n > 0 {
        lemma_call_as_whole(events, id, names, pieces, n - 1);
        assert(events.take(n).drop_last() =~= events.take(n - 1));
        assert(pieces.take(n).drop_last() =~= pieces.take(n - 1));
        assert(events.take(n).last() == events[n - 1]);
        lemma_piece_of(events[n - 1], id, names[n - 1], pieces[n - 1], n == events.len());
        assert(joined_pieces(events.take(n)) =~= pieces.take(n).flatten_alt());
    } else {
        assert(joined_pieces(events.take(0)) =~= pieces.take(0).flatten_alt());
    }
}

/// A whole tool call finishes as one call: with the name that came first, and with all pieces of
/// its arguments, unchanged and in their order. No other call changes.
pub proof fn lemma_pieces_are_kept(
    s: CallsView,
    events: Seq<JsonView>,
    id: Seq<char>,
    names: Seq<Seq<char>>,
    pieces: Seq<Seq<char>>,
)
    requires
        is_call(events, id, names, pieces),
        !s.open.contains_key(id),
    ensures
        calls_after(s, events).open == s.open,
        calls_after(s, events).finished.len() == s.finished.len() + 1,
        calls_after(s, events).finished.drop_last() == s.finished,
        is_finished_call(
            calls_after(s, events).finished.last(),
            s.finished.len() as int,
            id,
            names[0],
            pieces.drop_last().flatten_alt(),
        ),
{
    let n = events.len() - 1;
    lemma_call_as_whole(events, id, names, pieces, n);
    lemma_whole_call_finishes(s, events, id);
    assert(events.drop_last() =~= events.take(n));
    assert(pieces.drop_last() =~= pieces.take(n));
    lemma_call_shape(s.finished.len() as int, id, names[0], pieces.drop_last().flatten_alt());
    assert(calls_after(s, events).finished.drop_last() =~= s.finished);
}

/// Whether `v` belongs to the tool call `id`.
pub open spec fn belongs_to(v: JsonView, id: Seq<char>) -> bool {
    has_field(v, "toolUseId"@, JsonView::Text(id)) && has_text(v, "name"@) && lacks_field(
        v,
        "modelId"@,
    )
}

/// The same holds of a tool call between whose events other events come.
pub proof fn lemma_pieces_are_kept_apart(
    s: CallsView,
    events: Seq<JsonView>,
    id: Seq<char>,
    names: Seq<Seq<char>>,
    pieces: Seq<Seq<char>>,
) -> (k: int)
    requires
        is_call(events.filter(|v: JsonView| belongs_to(v, id)), id, names, pieces),
        !s.open.contains_key(id),
    ensures
        0 <= k < calls_after(s, events).finished.len(),
        is_finished_call(
            calls_after(s, events).finished[k],
            k,
            id,
            names[0],
            pieces.drop_last().flatten_alt(),
        ),
{
    let own = events.filter(|v: JsonView| belongs_to(v, id));
    assert forall|v: JsonView| belongs_to(v, id) == is_event_of(v, id) by {
        if let JsonView::Object(m) = v {
            if m.contains_key("name"@) {
                if let JsonView::Text(t) = m["name"@] {
                    assert(has_field(v, "name"@, JsonView::Text(t)));
                }
            }
        }
    }
    assert((|v: JsonView| belongs_to(v, id)) =~= (|v: JsonView| is_event_of(v, id)));
    assert(own == events_of_call(events, id));
    let n = own.len() - 1;
    lemma_call_as_whole(own, id, names, pieces, n);
    lemma_interleaved_call_finishes(s, events, id);
    assert(own.drop_last() =~= own.take(n));
    assert(pieces.drop_last() =~= pieces.take(n));
    let after = calls_after(s, events).finished;
    let k = choose|k: int|
        0 <= k < after.len() && #[trigger] after[k]
            == call_view(
            k,
            id,
            names[0],
            pieces.drop_last().flatten_alt(),
        );
    lemma_call_shape(k, id, names[0], pieces.drop_last().flatten_alt());
    k
}

/// Events count one by one, in the order in which they come.
pub proof fn lemma_events_count_in_order(s: CallsView, events: Seq<JsonView>, v: JsonView)
    ensures
        calls_after(s, Seq::empty()) == s,
        calls_after(s, events.push(v)) == calls_step(calls_after(s, events), v),
{
    assert(events.push(v).drop_last() =~= events);
}

/// Every object that Kiro frames is read as an event, in its place: the value that its text
/// spells. Nothing is left over.
pub proof fn lemma_framed_events_are_read(
    written: Seq<(Seq<u8>, Seq<u8>)>,
    pieces: Seq<Seq<Piece>>,
    spellings: Seq<Seq<char>>,
    events: Seq<JsonView>,
)
    requires
        pieces.len() == written.len(),
        spellings.len() == written.len(),
        events.len() == written.len(),
        forall|k: int|
            0 <= k < written.len() ==> {
                &&& frame_ok(#[trigger] written[k], pieces[k])
                &&& written[k].1 == encode_utf8(spellings[k])
                &&& parsed_json(spellings[k]) == Some(events[k])
            },
    ensures
        events_of(framed(written)) == events,
        remainder(framed(written)) == Seq::<u8>::empty(),
{
    assert forall|k: int| 0 <= k < written.len() implies frame_ok(
        #[trigger] written[k],
        pieces[k],
    ) by {}
    lemma_framed_objects_are_read(written, pieces);
    let found = frames(framed(written));
    assert forall|k: int| 0 <= k < found.len() implies parsed_json(
        decode_utf8(#[trigger] found[k]),
    ) == Some(events[k]) by {
        assert(found[k] == written[k].1);
        vstd::utf8::encode_utf8_decode_utf8(spellings[k]);
    }
    lemma_objects_are_read(found, events);
}

proof fn lemma_objects_are_read(objects: Seq<Seq<u8>>, events: Seq<JsonView>)
    requires
        objects.len() == events.len(),
        forall|k: int|
            0 <= k < objects.len() ==> parsed_json(decode_utf8(#[trigger] objects[k])) == Some(
                events[k],
            ),
    ensures
        events_in(objects) == events,
    decreases objects.len(),
{
    if objects.len() > 0 {
        let n = objects.len() - 1;
        assert forall|k: int| 0 <= k < n implies parsed_json(
            decode_utf8(#[trigger] objects.drop_last()[k]),
        ) == Some(events.drop_last()[k]) by {
            assert(objects.drop_last()[k] == objects[k]);
        }
        lemma_objects_are_read(objects.drop_last(), events.drop_last());
        assert(parsed_json(decode_utf8(objects[n])) == Some(events[n]));
        lemma_object_is_read(objects.drop_last(), objects[n]);
        assert(objects.drop_last().push(objects[n]) =~= objects);
        assert(events.drop_last().push(events[n]) =~= events);
    } else {
        assert(events_in(objects) =~= events);
    }
}

} // verus!
