//! Turns an OpenAI chat request into an Anthropic request, which is what DashScope takes.
//!
//! System messages become one text beside the messages. Tool calls become blocks of the
//! assistant's message, and tool results become blocks of a user message.
use vstd::prelude::*;

use crate::http::{
    header_text, header_values, lemma_header_text_joined, new_headers, set_header, sole_value,
};
use crate::json::bridge::{display_text, parse_or_empty, parsed_or_empty, unsigned_number};
use crate::json::{
    field, items_view, json_view, lemma_array_view, lemma_items_push, text_field, Json, JsonObject,
    JsonView,
};
use crate::provider::content::{extract_text_content, message_text, system_prompt};
use crate::text::{
    join2, split_at_first, split_once, starts_with, text_eq, trim_end, trim_end_matches, trim_start,
    trim_start_matches,
};
use crate::types::openai_request::{
    answered_call, content_view, ChatRequest, FunctionDefinition, Message, Tool, ToolCall,
};

verus! {

/// Who says a message.
#[derive(Debug, Clone, Copy, PartialEq, Eq, Structural)]
pub enum Speaker {
    User,
    Assistant,
}

/// The role of a speaker.
pub open spec fn role_name(s: Speaker) -> Seq<char> {
    match s {
        Speaker::User => "user"@,
        Speaker::Assistant => "assistant"@,
    }
}

/// A message of an Anthropic request.
pub struct Turn {
    pub speaker: Speaker,
    pub content: Json,
}

/// What a message of an Anthropic request says.
pub struct TurnView {
    pub speaker: Speaker,
    pub content: JsonView,
}

/// The JSON form of a message.
pub open spec fn turn_json(t: TurnView) -> JsonView {
    JsonView::Object(
        map!["role"@ => JsonView::Text(role_name(t.speaker)), "content"@ => t.content],
    )
}

/// A block of text.
pub open spec fn text_block_json(text: Seq<char>) -> JsonView {
    JsonView::Object(map!["type"@ => JsonView::Text("text"@), "text"@ => JsonView::Text(text)])
}

/// The kind of data that the head of a data URL names: what stands between `data:` and
/// `;base64`.
pub open spec fn media_type(head: Seq<char>) -> Seq<char> {
    trim_end(trim_start(head, "data:"@), ";base64"@)
}

/// Where the image of a URL comes from: from the URL itself where it is a data URL, and else
/// from its address. A data URL without a comma has no data.
pub open spec fn image_source(url: Seq<char>) -> Option<JsonView> {
    if "data:"@.is_prefix_of(url) {
        match split_at_first(url, ',') {
            Some((head, data)) => Some(
                JsonView::Object(
                    map![
                        "type"@ => JsonView::Text("base64"@),
                        "media_type"@ => JsonView::Text(media_type(head)),
                        "data"@ => JsonView::Text(data)
                    ],
                ),
            ),
            None => None,
        }
    } else {
        Some(
            JsonView::Object(
                map!["type"@ => JsonView::Text("url"@), "url"@ => JsonView::Text(url)],
            ),
        )
    }
}

/// The URL of an image block.
pub open spec fn image_url(block: JsonView) -> Option<Seq<char>> {
    match field(block, "image_url"@) {
        Some(image) => text_field(image, "url"@),
        None => None,
    }
}

/// A block of a user message in Anthropic's form; what is neither text nor image has none.
pub open spec fn user_block(block: JsonView) -> Option<JsonView> {
    if text_field(block, "type"@) == Some("text"@) {
        match text_field(block, "text"@) {
            Some(text) => Some(text_block_json(text)),
            None => None,
        }
    } else if text_field(block, "type"@) == Some("image_url"@) {
        match image_url(block) {
            Some(url) => match image_source(url) {
                Some(source) => Some(
                    JsonView::Object(
                        map!["type"@ => JsonView::Text("image"@), "source"@ => source],
                    ),
                ),
                None => None,
            },
            None => None,
        }
    } else {
        None
    }
}

/// The content of a user message in Anthropic's form.
pub open spec fn user_content(content: Option<JsonView>) -> JsonView {
    match content {
        None => JsonView::Text(Seq::empty()),
        Some(JsonView::Null) => JsonView::Text(Seq::empty()),
        Some(JsonView::Text(s)) => JsonView::Text(s),
        Some(JsonView::Array(blocks)) => JsonView::Array(
            blocks.filter_map(|b: JsonView| user_block(b)),
        ),
        Some(other) => JsonView::Text(display_text(other)),
    }
}

/// A tool call in Anthropic's form.
pub open spec fn tool_use_block(call: ToolCall) -> JsonView {
    JsonView::Object(
        map![
            "type"@ => JsonView::Text("tool_use"@),
            "id"@ => JsonView::Text(call.id@),
            "name"@ => JsonView::Text(call.function.name@),
            "input"@ => parsed_or_empty(call.function.arguments@)
        ],
    )
}

/// The blocks of an assistant message: its text, if it has one, and its tool calls. A message
/// with neither has an empty text.
pub open spec fn assistant_blocks(m: Message) -> Seq<JsonView> {
    let text = message_text(m);
    let said = if text.len() > 0 {
        seq![text_block_json(text)]
    } else {
        Seq::empty()
    };
    let blocks = said + match m.tool_calls {
        Some(calls) => Seq::new(calls@.len(), |i: int| tool_use_block(calls@[i])),
        None => Seq::empty(),
    };
    if blocks.len() == 0 {
        seq![text_block_json(Seq::empty())]
    } else {
        blocks
    }
}

/// The result of a tool call in Anthropic's form.
pub open spec fn tool_result_block(m: Message) -> JsonView {
    JsonView::Object(
        map![
            "type"@ => JsonView::Text("tool_result"@),
            "tool_use_id"@ => JsonView::Text(answered_call(m)),
            "content"@ => JsonView::Text(message_text(m))
        ],
    )
}

/// Whether a block is the result of a tool call.
pub open spec fn is_tool_result(block: JsonView) -> bool {
    text_field(block, "type"@) == Some("tool_result"@)
}

/// Whether a tool result may join a message: a user message of blocks that are tool results.
pub open spec fn takes_results(t: TurnView) -> bool {
    &&& t.speaker == Speaker::User
    &&& t.content matches JsonView::Array(blocks)
    &&& forall|i: int| 0 <= i < blocks.len() ==> is_tool_result(#[trigger] blocks[i])
}

/// The messages with one more tool result: it joins the results of the message before, or
/// begins a user message of its own.
pub open spec fn with_result(turns: Seq<TurnView>, result: JsonView) -> Seq<TurnView> {
    if turns.len() > 0 && takes_results(turns.last()) {
        turns.drop_last().push(
            TurnView {
                speaker: Speaker::User,
                content: JsonView::Array(turns.last().content->Array_0.push(result)),
            },
        )
    } else {
        turns.push(
            TurnView { speaker: Speaker::User, content: JsonView::Array(seq![result]) },
        )
    }
}

/// The messages with one more. System messages and those with an unknown role are passed over.
pub open spec fn with_message(turns: Seq<TurnView>, m: Message) -> Seq<TurnView> {
    if m.role@ == "user"@ {
        turns.push(TurnView { speaker: Speaker::User, content: user_content(content_view(m)) })
    } else if m.role@ == "assistant"@ {
        turns.push(
            TurnView {
                speaker: Speaker::Assistant,
                content: JsonView::Array(assistant_blocks(m)),
            },
        )
    } else if m.role@ == "tool"@ {
        with_result(turns, tool_result_block(m))
    } else {
        turns
    }
}

/// The messages of a conversation in Anthropic's form.
pub open spec fn turns_of(messages: Seq<Message>) -> Seq<TurnView>
    decreases messages.len(),
{
    if messages.len() == 0 {
        Seq::empty()
    } else {
        with_message(turns_of(messages.drop_last()), messages.last())
    }
}

/// The JSON form of the messages of a conversation.
pub open spec fn anthropic_messages(messages: Seq<Message>) -> Seq<JsonView> {
    turns_of(messages).map_values(|t: TurnView| turn_json(t))
}

/// The schema of a tool's arguments; that of an object without fields where none is given.
pub open spec fn input_schema(f: FunctionDefinition) -> JsonView {
    match f.parameters {
        Some(p) => json_view(p),
        None => JsonView::Object(
            map![
                "type"@ => JsonView::Text("object"@),
                "properties"@ => JsonView::Object(Map::empty())
            ],
        ),
    }
}

/// A tool in Anthropic's form, where it is a function.
pub open spec fn anthropic_tool(t: Tool) -> Option<JsonView> {
    if t.tool_type@ == "function"@ {
        match t.function {
            Some(f) => {
                let named = map!["name"@ => JsonView::Text(f.name@)];
                let described = match f.description {
                    Some(d) => named.insert("description"@, JsonView::Text(d@)),
                    None => named,
                };
                Some(JsonView::Object(described.insert("input_schema"@, input_schema(f))))
            },
            None => None,
        }
    } else {
        None
    }
}

/// The tools in Anthropic's form; what is no function is left out.
pub open spec fn anthropic_tools(tools: Option<Vec<Tool>>) -> Seq<JsonView> {
    match tools {
        Some(t) => t@.filter_map(|x: Tool| anthropic_tool(x)),
        None => Seq::empty(),
    }
}

/// How many tokens an answer may have where the request does not say.
pub const DEFAULT_MAX_TOKENS: u64 = 8192;

/// The Anthropic request for a chat request.
pub open spec fn anthropic_payload(request: ChatRequest, model: Seq<char>) -> JsonView {
    let system = system_prompt(request.messages@);
    let tools = anthropic_tools(request.tools);
    let max_tokens = match request.max_tokens {
        Some(n) => n,
        None => DEFAULT_MAX_TOKENS,
    };
    let plain = map![
        "model"@ => JsonView::Text(model),
        "messages"@ => JsonView::Array(anthropic_messages(request.messages@)),
        "stream"@ => JsonView::Bool(request.stream),
        "max_tokens"@ => JsonView::Number(unsigned_number(max_tokens))
    ];
    let with_system = if system.len() > 0 {
        plain.insert("system"@, JsonView::Text(system))
    } else {
        plain
    };
    let with_temperature = match request.temperature {
        Some(t) => with_system.insert("temperature"@, JsonView::Number(t)),
        None => with_system,
    };
    JsonView::Object(
        if tools.len() > 0 {
            with_temperature.insert("tools"@, JsonView::Array(tools))
        } else {
            with_temperature
        },
    )
}

impl Turn {
    /// What the message says.
    pub open spec fn says(&self) -> TurnView {
        TurnView { speaker: self.speaker, content: self.content@ }
    }
}

/// What the messages say.
pub open spec fn says_all(turns: Seq<Turn>) -> Seq<TurnView> {
    turns.map_values(|t: Turn| t.says())
}

/// A block of text.
fn text_block(text: &str) -> (r: Json)
    ensures
        r@ == text_block_json(text@),
{
    Json::Object(
        JsonObject::new().with("type", Json::text("text")).with("text", Json::text(text)),
    )
}

/// Where the image of a URL comes from.
fn convert_image_url(url: &str) -> (r: Option<Json>)
    ensures
        match r {
            Some(j) => image_source(url@) == Some(j@),
            None => image_source(url@) is None,
        },
{
    if starts_with(url, "data:") {
        match split_once(url, ',') {
            Some((head, data)) => {
                proof {
                    reveal_strlit("data:");
                    reveal_strlit(";base64");
                }
                let trimmed = trim_start_matches(head.as_str(), "data:");
                let kind = trim_end_matches(trimmed.as_str(), ";base64");
                Some(
                    Json::Object(
                        JsonObject::new().with("type", Json::text("base64")).with(
                            "media_type",
                            Json::text(kind.as_str()),
                        ).with("data", Json::text(data.as_str())),
                    ),
                )
            },
            None => None,
        }
    } else {
        Some(
            Json::Object(
                JsonObject::new().with("type", Json::text("url")).with("url", Json::text(url)),
            ),
        )
    }
}

/// A block of a user message in Anthropic's form.
fn convert_user_block(block: &Json) -> (r: Option<Json>)
    ensures
        match r {
            Some(j) => user_block(block@) == Some(j@),
            None => user_block(block@) is None,
        },
{
    let kind = match block.get_str("type") {
        Some(kind) => kind,
        None => {
            return None;
        },
    };
    if text_eq(kind, "text") {
        match block.get_str("text") {
            Some(text) => Some(text_block(text)),
            None => None,
        }
    } else if text_eq(kind, "image_url") {
        match block.get("image_url") {
            Some(image) => match image.get_str("url") {
                Some(url) => match convert_image_url(url) {
                    Some(source) => Some(
                        Json::Object(
                            JsonObject::new().with("type", Json::text("image")).with(
                                "source",
                                source,
                            ),
                        ),
                    ),
                    None => None,
                },
                None => None,
            },
            None => None,
        }
    } else {
        None
    }
}

/// Converts the content of a user message. Images are kept.
pub fn convert_user_content(content: &Option<Json>) -> (r: Json)
    ensures
        r@ == user_content(
            match *content {
                Some(j) => Some(j@),
                None => None,
            },
        ),
{
    match content {
        None => Json::Text(String::new()),
        Some(Json::Null) => Json::Text(String::new()),
        Some(Json::Text(s)) => Json::text(s.as_str()),
        Some(Json::Array(blocks)) => {
            let ghost all = items_view(blocks@);
            let ghost convert = |b: JsonView| user_block(b);
            let mut out: Vec<Json> = Vec::new();
            let mut i: usize = 0;
            proof {
                lemma_array_view(*blocks);
                assert(all.take(0) =~= Seq::<JsonView>::empty());
                assert(items_view(out@) =~= all.take(0).filter_map(convert));
            }
            while i < blocks.len()
                invariant
                    i <= blocks@.len(),
                    all == items_view(blocks@),
                    convert == (|b: JsonView| user_block(b)),
                    items_view(out@) == all.take(i as int).filter_map(convert),
                decreases blocks@.len() - i,
            {
                proof {
                    assert(all.take(i + 1).drop_last() =~= all.take(i as int));
                    assert(all.take(i + 1).last() == blocks@[i as int]@);
                }
                match convert_user_block(&blocks[i]) {
                    Some(block) => {
                        proof {
                            lemma_items_push(out@, block);
                        }
                        out.push(block);
                        assert(items_view(out@) =~= all.take(i + 1).filter_map(convert));
                    },
                    None => {},
                }
                i += 1;
            }
            proof {
                assert(all.take(all.len() as int) =~= all);
                lemma_array_view(out);
            }
            Json::Array(out)
        },
        Some(other) => Json::Text(other.display()),
    }
}

/// The blocks of an assistant message.
fn convert_assistant(message: &Message) -> (r: Vec<Json>)
    ensures
        items_view(r@) == assistant_blocks(*message),
{
    let mut blocks: Vec<Json> = Vec::new();
    let text = extract_text_content(&message.content);
    if !text.as_str().is_empty() {
        blocks.push(text_block(text.as_str()));
    }
    let ghost said = items_view(blocks@);
    if let Some(calls) = &message.tool_calls {
        let ghost uses = Seq::new(calls@.len(), |i: int| tool_use_block(calls@[i]));
        let mut i: usize = 0;
        assert(said + uses.take(0) =~= said);
        while i < calls.len()
            invariant
                i <= calls@.len(),
                uses == Seq::new(calls@.len(), |i: int| tool_use_block(calls@[i])),
                items_view(blocks@) == said + uses.take(i as int),
            decreases calls@.len() - i,
        {
            let call = &calls[i];
            let block = Json::Object(
                JsonObject::new().with("type", Json::text("tool_use")).with(
                    "id",
                    Json::text(call.id.as_str()),
                ).with("name", Json::text(call.function.name.as_str())).with(
                    "input",
                    parse_or_empty(call.function.arguments.as_str()),
                ),
            );
            proof {
                lemma_items_push(blocks@, block);
                assert(said + uses.take(i + 1) =~= (said + uses.take(i as int)).push(uses[i as int]));
            }
            blocks.push(block);
            i += 1;
        }
        assert(uses.take(uses.len() as int) =~= uses);
    }
    proof {
        if text@.len() > 0 {
            assert(said =~= seq![text_block_json(text@)]);
        } else {
            assert(said =~= Seq::<JsonView>::empty());
        }
        if message.tool_calls is None {
            assert(said + Seq::<JsonView>::empty() =~= said);
        }
    }
    if blocks.len() == 0 {
        blocks.push(text_block(""));
        proof {
            reveal_strlit("");
            assert(""@ =~= Seq::<char>::empty());
            assert(items_view(blocks@) =~= seq![text_block_json(Seq::empty())]);
        }
    }
    blocks
}

/// The result of a tool call in Anthropic's form.
fn convert_tool_result(message: &Message) -> (r: Json)
    ensures
        r@ == tool_result_block(*message),
{
    let id = message.answered_call();
    let content = extract_text_content(&message.content);
    Json::Object(
        JsonObject::new().with("type", Json::text("tool_result")).with(
            "tool_use_id",
            Json::text(id.as_str()),
        ).with("content", Json::text(content.as_str())),
    )
}

/// Whether a tool result may join a message.
fn may_take_results(turn: &Turn) -> (r: bool)
    ensures
        r == takes_results(turn.says()),
{
    if turn.speaker != Speaker::User {
        return false;
    }
    match &turn.content {
        Json::Array(blocks) => {
            proof {
                lemma_array_view(*blocks);
            }
            let ghost all = items_view(blocks@);
            let mut i: usize = 0;
            while i < blocks.len()
                invariant
                    i <= blocks@.len(),
                    all == items_view(blocks@),
                    turn.says().content == JsonView::Array(all),
                    forall|j: int| 0 <= j < i ==> is_tool_result(#[trigger] all[j]),
                decreases blocks@.len() - i,
            {
                let found = match blocks[i].get_str("type") {
                    Some(kind) => text_eq(kind, "tool_result"),
                    None => false,
                };
                assert(all[i as int] == blocks@[i as int]@);
                if !found {
                    assert(!is_tool_result(turn.says().content->Array_0[i as int]));
                    return false;
                }
                i += 1;
            }
            true
        },
        _ => false,
    }
}

/// Adds a tool result: it joins the results of the message before, or begins a message.
fn push_result(turns: &mut Vec<Turn>, result: Json)
    ensures
        says_all(final(turns)@) == with_result(says_all(old(turns)@), result@),
{
    let ghost before = turns@;
    let joins = turns.len() > 0 && may_take_results(&turns[turns.len() - 1]);
    assert(before.len() > 0 ==> says_all(before).last() == before.last().says());
    if joins {
        if let Some(last) = turns.pop() {
            if let Json::Array(blocks) = last.content {
                let mut joined = blocks;
                proof {
                    lemma_array_view(joined);
                    lemma_items_push(joined@, result);
                }
                joined.push(result);
                proof {
                    lemma_array_view(joined);
                }
                turns.push(Turn { speaker: Speaker::User, content: Json::Array(joined) });
                assert(says_all(turns@) =~= with_result(says_all(before), result@));
            }
        }
    } else {
        let mut blocks: Vec<Json> = Vec::new();
        blocks.push(result);
        proof {
            lemma_array_view(blocks);
            assert(items_view(blocks@) =~= seq![result@]);
        }
        turns.push(Turn { speaker: Speaker::User, content: Json::Array(blocks) });
        assert(says_all(turns@) =~= with_result(says_all(before), result@));
    }
}

/// The JSON form of the messages.
fn turns_json(turns: Vec<Turn>) -> (r: Vec<Json>)
    ensures
        items_view(r@) == says_all(turns@).map_values(|t: TurnView| turn_json(t)),
{
    let ghost all = turns@;
    let mut out: Vec<Json> = Vec::new();
    for turn in it: turns
        invariant
            it.seq() == all,
            out@.len() == it.index(),
            forall|j: int| 0 <= j < it.index() ==> json_view(#[trigger] out@[j]) == turn_json(
                all[j].says(),
            ),
    {
        let role = match turn.speaker {
            Speaker::User => "user",
            Speaker::Assistant => "assistant",
        };
        out.push(
            Json::Object(
                JsonObject::new().with("role", Json::text(role)).with("content", turn.content),
            ),
        );
    }
    assert(items_view(out@) =~= says_all(all).map_values(|t: TurnView| turn_json(t)));
    out
}

/// Converts the messages of a conversation. The system messages become one text, which is
/// returned beside the others.
pub fn convert_messages(messages: &[Message]) -> (r: (String, Vec<Json>))
    ensures
        r.0@ == system_prompt(messages@),
        items_view(r.1@) == anthropic_messages(messages@),
{
    let mut prompt = String::new();
    let mut turns: Vec<Turn> = Vec::new();
    let mut i: usize = 0;
    proof {
        assert(messages@.take(0) =~= Seq::<Message>::empty());
        assert(says_all(turns@) =~= turns_of(messages@.take(0)));
        reveal_strlit("system");
        reveal_strlit("user");
        reveal_strlit("assistant");
        reveal_strlit("tool");
        assert("system"@.len() == 6 && "user"@.len() == 4 && "assistant"@.len() == 9);
        assert("user"@[0] == 'u' && "tool"@[0] == 't');
    }
    while i < messages.len()
        invariant
            i <= messages@.len(),
            prompt@ == system_prompt(messages@.take(i as int)),
            says_all(turns@) == turns_of(messages@.take(i as int)),
            "system"@.len() == 6,
            "user"@.len() == 4,
            "assistant"@.len() == 9,
            "tool"@.len() == 4,
            "user"@ != "tool"@,
        decreases messages@.len() - i,
    {
        let message = &messages[i];
        let ghost before = turns@;
        proof {
            assert(messages@.take(i + 1).drop_last() =~= messages@.take(i as int));
            assert(messages@.take(i + 1).last() == *message);
        }
        if message.has_role("system") {
            if !prompt.as_str().is_empty() {
                prompt.append("\n");
            }
            let text = extract_text_content(&message.content);
            prompt.append(text.as_str());
            assert(prompt@ =~= system_prompt(messages@.take(i + 1)));
        } else if message.has_role("user") {
            let content = convert_user_content(&message.content);
            turns.push(Turn { speaker: Speaker::User, content });
            assert(says_all(turns@) =~= with_message(says_all(before), *message));
        } else if message.has_role("assistant") {
            let blocks = convert_assistant(message);
            proof {
                lemma_array_view(blocks);
            }
            turns.push(Turn { speaker: Speaker::Assistant, content: Json::Array(blocks) });
            assert(says_all(turns@) =~= with_message(says_all(before), *message));
        } else if message.has_role("tool") {
            push_result(&mut turns, convert_tool_result(message));
        }
        i += 1;
    }
    assert(messages@.take(messages@.len() as int) =~= messages@);
    (prompt, turns_json(turns))
}

/// A tool in Anthropic's form, where it is a function.
fn convert_tool(tool: &Tool) -> (r: Option<Json>)
    ensures
        match r {
            Some(j) => anthropic_tool(*tool) == Some(j@),
            None => anthropic_tool(*tool) is None,
        },
{
    if !text_eq(tool.tool_type.as_str(), "function") {
        return None;
    }
    match &tool.function {
        Some(f) => {
            let mut out = JsonObject::new().with("name", Json::text(f.name.as_str()));
            if let Some(d) = &f.description {
                out.set("description", Json::text(d.as_str()));
            }
            let schema = match &f.parameters {
                Some(p) => p.duplicate(),
                None => Json::Object(
                    JsonObject::new().with("type", Json::text("object")).with(
                        "properties",
                        Json::empty_object(),
                    ),
                ),
            };
            out.set("input_schema", schema);
            Some(Json::Object(out))
        },
        None => None,
    }
}

/// Converts the tools; what is no function is left out.
pub fn convert_tools(tools: &[Tool]) -> (r: Vec<Json>)
    ensures
        items_view(r@) == tools@.filter_map(|t: Tool| anthropic_tool(t)),
{
    let ghost convert = |t: Tool| anthropic_tool(t);
    let mut out: Vec<Json> = Vec::new();
    let mut i: usize = 0;
    proof {
        assert(tools@.take(0) =~= Seq::<Tool>::empty());
        assert(items_view(out@) =~= tools@.take(0).filter_map(convert));
    }
    while i < tools.len()
        invariant
            i <= tools@.len(),
            convert == (|t: Tool| anthropic_tool(t)),
            items_view(out@) == tools@.take(i as int).filter_map(convert),
        decreases tools@.len() - i,
    {
        proof {
            assert(tools@.take(i + 1).drop_last() =~= tools@.take(i as int));
        }
        match convert_tool(&tools[i]) {
            Some(tool) => {
                proof {
                    lemma_items_push(out@, tool);
                }
                out.push(tool);
                assert(items_view(out@) =~= tools@.take(i + 1).filter_map(convert));
            },
            None => {},
        }
        i += 1;
    }
    assert(tools@.take(tools@.len() as int) =~= tools@);
    out
}

/// Builds the Anthropic request for a chat request.
pub fn build_anthropic_payload(request: &ChatRequest, model: &str) -> (r: Json)
    ensures
        r@ == anthropic_payload(*request, model@),
{
    let (prompt, messages) = convert_messages(request.messages.as_slice());
    let max_tokens = match request.max_tokens {
        Some(n) => n,
        None => DEFAULT_MAX_TOKENS,
    };
    proof {
        lemma_array_view(messages);
    }
    let mut payload = JsonObject::new().with("model", Json::text(model)).with(
        "messages",
        Json::Array(messages),
    ).with("stream", Json::Bool(request.stream)).with("max_tokens", Json::unsigned(max_tokens));
    if !prompt.as_str().is_empty() {
        payload.set("system", Json::text(prompt.as_str()));
    }
    if let Some(t) = &request.temperature {
        payload.set("temperature", Json::Number(t.clone()));
    }
    if let Some(tools) = &request.tools {
        let converted = convert_tools(tools.as_slice());
        if converted.len() > 0 {
            proof {
                lemma_array_view(converted);
            }
            payload.set("tools", Json::Array(converted));
        }
    }
    Json::Object(payload)
}

/// The headers of a request to DashScope. `client` is the name of the coding agent as whose
/// command line the proxy presents itself.
pub open spec fn dashscope_headers(api_key: Seq<char>, client: Seq<char>) -> Map<Seq<char>, Seq<Seq<u8>>> {
    map![
        "x-api-key"@ => sole_value(api_key),
        "anthropic-version"@ => sole_value("2023-06-01"@),
        "anthropic-beta"@ => sole_value(client + "-code-20250219"@),
        "user-agent"@ => sole_value(client + "-cli/1.0.108 (external, cli)"@),
        "content-type"@ => sole_value("application/json"@)
    ]
}

/// Makes the headers of a request to DashScope.
pub fn get_dashscope_headers(
    api_key: &str,
    client: &str,
) -> (r: axum::http::HeaderMap<axum::http::HeaderValue>)
    requires
        header_text(api_key@),
        header_text(client@),
    ensures
        header_values(r) == dashscope_headers(api_key@, client@),
{
    proof {
        reveal_strlit("x-api-key");
        reveal_strlit("anthropic-version");
        reveal_strlit("anthropic-beta");
        reveal_strlit("user-agent");
        reveal_strlit("content-type");
        reveal_strlit("2023-06-01");
        reveal_strlit("-code-20250219");
        reveal_strlit("-cli/1.0.108 (external, cli)");
        reveal_strlit("application/json");
        lemma_header_text_joined(client@, "-code-20250219"@);
        lemma_header_text_joined(client@, "-cli/1.0.108 (external, cli)"@);
    }
    let beta = join2(client, "-code-20250219");
    let agent = join2(client, "-cli/1.0.108 (external, cli)");
    let mut headers = new_headers();
    set_header(&mut headers, "x-api-key", api_key);
    set_header(&mut headers, "anthropic-version", "2023-06-01");
    set_header(&mut headers, "anthropic-beta", beta.as_str());
    set_header(&mut headers, "user-agent", agent.as_str());
    set_header(&mut headers, "content-type", "application/json");
    headers
}

/// What messages say is what they hold, each in its place.
pub proof fn lemma_turns_are_seen(turns: Seq<Turn>, i: int)
    requires
        0 <= i < turns.len(),
    ensures
        says_all(turns).len() == turns.len(),
        says_all(turns)[i].speaker == turns[i].speaker,
        says_all(turns)[i].content == turns[i].content@,
{
}

} // verus!
