//! Puts the tool calls together that Kiro sends in pieces.
//!
//! A call begins with an event that names the tool, goes on with pieces of its arguments, and
//! ends with an event that says `stop`:
//!
//! ```text
//! {"name": "skill", "toolUseId": "tooluse_K3Yc"}
//! {"name": "skill", "toolUseId": "tooluse_K3Yc", "input": "{\"name\": \"grilling\"}"}
//! {"name": "skill", "toolUseId": "tooluse_K3Yc", "stop": true}
//! ```
use vstd::prelude::*;

use crate::json::bridge::{compact_or_empty, parse_or_empty, parsed_or_empty, unsigned_number};
use crate::json::{field, text_field, Json, JsonObject, JsonView};

verus! {

/// Whether an event belongs to a tool call: it has an identifier and the name of a tool, and it
/// is no piece of the answer's text.
pub open spec fn is_tool_event(v: JsonView) -> bool {
    text_field(v, "toolUseId"@) is Some && text_field(v, "name"@) is Some && field(
        v,
        "modelId"@,
    ) is None
}

/// The identifier of the tool call that an event belongs to.
pub open spec fn call_id(v: JsonView) -> Seq<char> {
    text_field(v, "toolUseId"@)->0
}

/// The name of the tool in an event of a tool call.
pub open spec fn call_name(v: JsonView) -> Seq<char> {
    text_field(v, "name"@)->0
}

/// Whether an event ends its tool call.
pub open spec fn is_stop(v: JsonView) -> bool {
    field(v, "stop"@) == Some(JsonView::Bool(true))
}

/// The piece of the arguments that an event brings.
pub open spec fn call_piece(v: JsonView) -> Seq<char> {
    match text_field(v, "input"@) {
        Some(s) => s,
        None => Seq::empty(),
    }
}

/// The open tool calls: by identifier, the name of the tool and the arguments so far.
pub type OpenCalls = Map<Seq<char>, (Seq<char>, Seq<char>)>;

/// The open tool calls after one more event.
pub open spec fn open_calls_after(open: OpenCalls, v: JsonView) -> OpenCalls {
    let id = call_id(v);
    if !is_tool_event(v) {
        open
    } else if is_stop(v) {
        open.remove(id)
    } else if open.contains_key(id) {
        open.insert(id, (open[id].0, open[id].1 + call_piece(v)))
    } else {
        open.insert(id, (call_name(v), call_piece(v)))
    }
}

/// A finished tool call. The arguments are written anew, without spaces; arguments that are no
/// JSON count as none.
pub open spec fn call_view(
    index: int,
    id: Seq<char>,
    name: Seq<char>,
    arguments: Seq<char>,
) -> JsonView {
    JsonView::Object(
        map![
            "id"@ => JsonView::Text(id),
            "type"@ => JsonView::Text("function"@),
            "function"@ => JsonView::Object(map![
                "name"@ => JsonView::Text(name),
                "arguments"@ => JsonView::Text(compact_or_empty(parsed_or_empty(arguments)))
            ]),
            "index"@ => JsonView::Number(unsigned_number(index as u64))
        ],
    )
}

/// Whether an event ends an open tool call.
pub open spec fn finishes(open: OpenCalls, v: JsonView) -> bool {
    is_tool_event(v) && is_stop(v) && open.contains_key(call_id(v))
}

/// The tool call that an event finishes, as the call number `index`.
pub open spec fn finished_call(open: OpenCalls, v: JsonView, index: int) -> JsonView {
    let id = call_id(v);
    call_view(index, id, open[id].0, open[id].1)
}

/// The tool calls of an answer: those that are open and those that are finished.
#[verifier::ext_equal]
pub struct CallsView {
    pub open: OpenCalls,
    pub finished: Seq<JsonView>,
}

/// The tool calls before the first event.
pub open spec fn no_calls() -> CallsView {
    CallsView { open: Map::empty(), finished: Seq::empty() }
}

/// The tool calls after one more event.
pub open spec fn calls_step(s: CallsView, v: JsonView) -> CallsView {
    CallsView {
        open: open_calls_after(s.open, v),
        finished: if finishes(s.open, v) {
            s.finished.push(finished_call(s.open, v, s.finished.len() as int))
        } else {
            s.finished
        },
    }
}

/// The tool calls after the events, from `s` on.
pub open spec fn calls_after(s: CallsView, events: Seq<JsonView>) -> CallsView
    decreases events.len(),
{
    if events.len() == 0 {
        s
    } else {
        calls_step(calls_after(s, events.drop_last()), events.last())
    }
}

/// Events may come in several parts.
pub proof fn lemma_calls_after_parts(s: CallsView, a: Seq<JsonView>, b: Seq<JsonView>)
    ensures
        calls_after(s, a + b) == calls_after(calls_after(s, a), b),
    decreases b.len(),
{
    if b.len() == 0 {
        assert(a + b =~= a);
    } else {
        assert((a + b).drop_last() =~= a + b.drop_last());
        lemma_calls_after_parts(s, a, b.drop_last());
    }
}

/// Whether the events are one tool call: all of them have the identifier `id`, and the last one
/// and no other ends the call.
pub open spec fn is_whole_call(events: Seq<JsonView>, id: Seq<char>) -> bool {
    &&& events.len() >= 2
    &&& forall|k: int|
        0 <= k < events.len() ==> is_tool_event(#[trigger] events[k]) && call_id(events[k]) == id
            && (is_stop(events[k]) <==> k == events.len() - 1)
}

/// The pieces of the arguments, one after the other.
pub open spec fn joined_pieces(events: Seq<JsonView>) -> Seq<char>
    decreases events.len(),
{
    if events.len() == 0 {
        Seq::empty()
    } else {
        joined_pieces(events.drop_last()) + call_piece(events.last())
    }
}

proof fn lemma_pieces_join(s: CallsView, events: Seq<JsonView>, id: Seq<char>, n: int)
    requires
        is_whole_call(events, id),
        !s.open.contains_key(id),
        1 <= n < events.len(),
    ensures
        calls_after(s, events.take(n)) == (CallsView {
            open: s.open.insert(id, (call_name(events[0]), joined_pieces(events.take(n)))),
            finished: s.finished,
        }),
    decreases n,
{
    let part = events.take(n);
    let shorter = part.drop_last();
    assert(part.last() == events[n - 1]);
    assert(shorter =~= events.take(n - 1));
    if n == 1 {
        assert(shorter =~= Seq::<JsonView>::empty());
        assert(calls_after(s, shorter) == s);
        assert(joined_pieces(shorter) == Seq::<char>::empty());
        assert(joined_pieces(part) =~= call_piece(events[0]));
    } else {
        lemma_pieces_join(s, events, id, n - 1);
        assert(calls_after(s, part).open =~= s.open.insert(
            id,
            (call_name(events[0]), joined_pieces(part)),
        ));
    }
}

/// The events of one tool call give one finished call: with the name from the first event and
/// with all pieces of the arguments in their order. No other call changes.
pub proof fn lemma_whole_call_finishes(s: CallsView, events: Seq<JsonView>, id: Seq<char>)
    requires
        is_whole_call(events, id),
        !s.open.contains_key(id),
    ensures
        calls_after(s, events) == (CallsView {
            open: s.open,
            finished: s.finished.push(
                call_view(
                    s.finished.len() as int,
                    id,
                    call_name(events[0]),
                    joined_pieces(events.drop_last()),
                ),
            ),
        }),
{
    let n = events.len() - 1;
    lemma_pieces_join(s, events, id, n);
    assert(events.drop_last() =~= events.take(n));
    assert(events.last() == events[n]);
    assert(s.open.insert(id, (call_name(events[0]), joined_pieces(events.take(n)))).remove(id)
        =~= s.open);
}

/// Whether an event is of the tool call `id`.
pub open spec fn is_event_of(v: JsonView, id: Seq<char>) -> bool {
    is_tool_event(v) && call_id(v) == id
}

/// The events of the tool call `id`.
pub open spec fn events_of_call(events: Seq<JsonView>, id: Seq<char>) -> Seq<JsonView> {
    events.filter(|v: JsonView| is_event_of(v, id))
}

/// Tool calls may run side by side: what is known of a call rests on its own events alone.
pub proof fn lemma_calls_are_apart(s: CallsView, events: Seq<JsonView>, id: Seq<char>)
    ensures
        calls_after(s, events).open.contains_key(id) == calls_after(
            s,
            events_of_call(events, id),
        ).open.contains_key(id),
        calls_after(s, events).open.contains_key(id) ==> calls_after(s, events).open[id]
            == calls_after(s, events_of_call(events, id)).open[id],
    decreases events.len(),
{
    reveal(Seq::filter);
    if events.len() > 0 {
        lemma_calls_are_apart(s, events.drop_last(), id);
        let own = events_of_call(events.drop_last(), id);
        if is_event_of(events.last(), id) {
            assert(events_of_call(events, id) == own.push(events.last()));
            assert(own.push(events.last()).drop_last() =~= own);
        }
    }
}

/// A tool call is finished as it would be alone, whatever other events come in between.
pub proof fn lemma_interleaved_call_finishes(
    s: CallsView,
    events: Seq<JsonView>,
    id: Seq<char>,
)
    requires
        is_whole_call(events_of_call(events, id), id),
        !s.open.contains_key(id),
    ensures
        exists|k: int|
            0 <= k < calls_after(s, events).finished.len() && #[trigger] calls_after(
                s,
                events,
            ).finished[k] == call_view(
                k,
                id,
                call_name(events_of_call(events, id)[0]),
                joined_pieces(events_of_call(events, id).drop_last()),
            ),
    decreases events.len(),
{
    reveal(Seq::filter);
    let own = events_of_call(events, id);
    let before = events.drop_last();
    let after = calls_after(s, events).finished;
    if is_event_of(events.last(), id) {
        let n = own.len() - 1;
        assert(own == events_of_call(before, id).push(events.last()));
        assert(own.drop_last() =~= events_of_call(before, id));
        assert(own.drop_last() =~= own.take(n));
        assert(own[n] == events.last());
        lemma_calls_are_apart(s, before, id);
        lemma_pieces_join(s, own, id, n);
        let k = calls_after(s, before).finished.len() as int;
        assert(after[k] == call_view(k, id, call_name(own[0]), joined_pieces(own.drop_last())));
    } else {
        assert(own == events_of_call(before, id));
        lemma_interleaved_call_finishes(s, before, id);
        let shorter = calls_after(s, before).finished;
        let k = choose|k: int|
            0 <= k < shorter.len() && #[trigger] shorter[k] == call_view(
                k,
                id,
                call_name(own[0]),
                joined_pieces(own.drop_last()),
            );
        assert(after[k] == shorter[k]);
    }
}

/// Collects the pieces of tool calls.
pub struct ToolCallAccumulator {
    pub calls: vstd::hash_map::StringHashMap<(String, String)>,
}

/// A call as the accumulator holds it.
pub open spec fn call_texts(c: (String, String)) -> (Seq<char>, Seq<char>) {
    (c.0@, c.1@)
}

impl ToolCallAccumulator {
    /// The open tool calls.
    pub open spec fn open_calls(&self) -> OpenCalls {
        self.calls@.map_values(|c: (String, String)| call_texts(c))
    }

    /// An accumulator without calls.
    pub fn new() -> (r: ToolCallAccumulator)
        ensures
            r.open_calls() == OpenCalls::empty(),
    {
        let r = ToolCallAccumulator { calls: vstd::hash_map::StringHashMap::new() };
        assert(r.open_calls() =~= OpenCalls::empty());
        r
    }

    /// Takes an event in. Returns the tool call that it finishes, as the call number zero.
    pub fn process(&mut self, parsed: &Json) -> (r: Option<Json>)
        ensures
            final(self).open_calls() == open_calls_after(old(self).open_calls(), parsed@),
            finishes(old(self).open_calls(), parsed@) ==> r is Some && r->0@ == finished_call(
                old(self).open_calls(),
                parsed@,
                0,
            ),
            !finishes(old(self).open_calls(), parsed@) ==> r is None,
    {
        let id = match parsed.get_str("toolUseId") {
            Some(id) => id,
            None => {
                return None;
            },
        };
        let name = match parsed.get_str("name") {
            Some(name) => name,
            None => {
                return None;
            },
        };
        if parsed.get("modelId").is_some() {
            return None;
        }
        let ghost open = self.open_calls();
        let known: Option<(String, String)> = match self.calls.get(id) {
            Some(c) => Some((c.0.clone(), c.1.clone())),
            None => None,
        };
        let stop = match parsed.get("stop") {
            Some(v) => match v.as_bool() {
                Some(b) => b,
                None => false,
            },
            None => false,
        };
        if stop {
            self.calls.remove(id);
            assert(self.open_calls() =~= open.remove(id@));
            return match known {
                Some((tool, arguments)) => {
                    let function = JsonObject::new().with("name", Json::text(tool.as_str())).with(
                        "arguments",
                        Json::text(parse_or_empty(arguments.as_str()).compact().as_str()),
                    );
                    Some(
                        Json::Object(
                            JsonObject::new().with("id", Json::text(id)).with(
                                "type",
                                Json::text("function"),
                            ).with("function", Json::Object(function)).with(
                                "index",
                                Json::unsigned(0),
                            ),
                        ),
                    )
                },
                None => None,
            };
        }
        let piece = match parsed.get_str("input") {
            Some(s) => s,
            None => "",
        };
        proof {
            reveal_strlit("");
            assert(piece@ =~= call_piece(parsed@));
        }
        let (tool, mut arguments) = match known {
            Some(c) => c,
            None => (name.to_string(), String::new()),
        };
        arguments.append(piece);
        let ghost entry = (tool, arguments);
        self.calls.insert(id.to_string(), (tool, arguments));
        proof {
            if !open.contains_key(id@) {
                assert(entry.1@ =~= piece@);
            }
            assert(self.open_calls() =~= open.insert(id@, call_texts(entry)));
        }
        None
    }
}

/// `call` as the call number `index`.
pub fn with_index(call: Json, index: usize) -> (r: Json)
    ensures
        r@ == match call@ {
            JsonView::Object(m) => JsonView::Object(
                m.insert("index"@, JsonView::Number(unsigned_number(index as u64))),
            ),
            other => other,
        },
{
    match call {
        Json::Object(o) => {
            let mut numbered = o;
            numbered.set("index", Json::unsigned(index as u64));
            Json::Object(numbered)
        },
        other => other,
    }
}

/// Every open call is seen, under its identifier, with its name and its arguments.
pub proof fn lemma_open_calls_are_seen(calls: ToolCallAccumulator, id: Seq<char>)
    ensures
        calls.open_calls().contains_key(id) <==> calls.calls@.contains_key(id),
        calls.calls@.contains_key(id) ==> calls.open_calls()[id].0 == calls.calls@[id].0@
            && calls.open_calls()[id].1 == calls.calls@[id].1@,
{
}

} // verus!
