//! Turns an OpenAI chat request into a Kiro request.
//!
//! Kiro has no system role: the system messages become one prompt, which stands in front of the
//! first user message. All messages but the last become history; the last one becomes the
//! current message, which has to be a user message.
use vstd::prelude::*;

use crate::ids::{random_simple_id, simple_id};
use crate::json::bridge::{parse_or_empty, parsed_or_empty};
use crate::json::{
    fields_view, items_view, json_view, lemma_array_view, lemma_items_push, Json, JsonObject,
    JsonView,
};
use crate::provider::content::{extract_text_content, message_text, system_prompt};
use crate::text::{join2, join3, text_eq};
use crate::types::openai_request::{
    answered_call, ChatRequest, FunctionDefinition, Message, Tool, ToolCall,
};

verus! {

/// The message that Kiro is asked to answer.
pub struct CurrentMessage {
    pub content: String,
    pub tool_results: Vec<Json>,
}

/// The messages that are no system messages, in their order.
pub open spec fn conversation(messages: Seq<Message>) -> Seq<Message> {
    messages.filter(|m: Message| m.role@ != "system"@)
}

/// The content of a user message: the system prompt comes before the first one.
pub open spec fn prepended(is_first: bool, system: Seq<char>, content: Seq<char>) -> Seq<char> {
    if is_first && system.len() > 0 {
        system + "\n\n"@ + content
    } else {
        content
    }
}

/// `content`, or `default` where it is empty.
pub open spec fn normalized(content: Seq<char>, default: Seq<char>) -> Seq<char> {
    if content.len() == 0 {
        default
    } else {
        content
    }
}

/// A tool call in Kiro's form.
pub open spec fn tool_use(call: ToolCall) -> JsonView {
    JsonView::Object(
        map![
            "toolUseId"@ => JsonView::Text(call.id@),
            "name"@ => JsonView::Text(call.function.name@),
            "input"@ => parsed_or_empty(call.function.arguments@)
        ],
    )
}

/// The tool calls of a message in Kiro's form.
pub open spec fn tool_uses(calls: Option<Vec<ToolCall>>) -> Seq<JsonView> {
    match calls {
        Some(c) => Seq::new(c@.len(), |i: int| tool_use(c@[i])),
        None => Seq::empty(),
    }
}

/// An assistant message in Kiro's form.
pub open spec fn assistant_entry(m: Message) -> JsonView {
    let plain = map![
        "content"@ => JsonView::Text(normalized(message_text(m), "(empty placeholder)"@))
    ];
    let uses = tool_uses(m.tool_calls);
    JsonView::Object(
        map![
            "assistantResponseMessage"@ => JsonView::Object(
                if uses.len() > 0 {
                    plain.insert("toolUses"@, JsonView::Array(uses))
                } else {
                    plain
                }
            )
        ],
    )
}

/// The result of a tool call in Kiro's form.
pub open spec fn tool_result(m: Message) -> JsonView {
    JsonView::Object(
        map![
            "content"@ => JsonView::Array(
                seq![
                    JsonView::Object(
                        map![
                            "text"@ => JsonView::Text(normalized(message_text(m), "(empty result)"@))
                        ],
                    )
                ],
            ),
            "status"@ => JsonView::Text("success"@),
            "toolUseId"@ => JsonView::Text(answered_call(m))
        ],
    )
}

/// The fields of a user message in Kiro's form.
pub open spec fn user_input(content: Seq<char>, model: Seq<char>) -> Map<Seq<char>, JsonView> {
    map![
        "content"@ => JsonView::Text(content),
        "modelId"@ => JsonView::Text(model),
        "origin"@ => JsonView::Text("AI_EDITOR"@)
    ]
}

/// The history entry of a message; a message with an unknown role has none.
pub open spec fn history_entry(
    m: Message,
    system: Seq<char>,
    is_first: bool,
    model: Seq<char>,
) -> Option<JsonView> {
    if m.role@ == "user"@ {
        Some(
            JsonView::Object(
                map![
                    "userInputMessage"@ => JsonView::Object(
                        user_input(prepended(is_first, system, message_text(m)), model),
                    )
                ],
            ),
        )
    } else if m.role@ == "assistant"@ {
        Some(assistant_entry(m))
    } else if m.role@ == "tool"@ {
        Some(
            JsonView::Object(
                map![
                    "userInputMessage"@ => JsonView::Object(
                        user_input(Seq::empty(), model).insert(
                            "userInputMessageContext"@,
                            JsonView::Object(
                                map!["toolResults"@ => JsonView::Array(seq![tool_result(m)])],
                            ),
                        ),
                    )
                ],
            ),
        )
    } else {
        None
    }
}

/// Whether one of the messages is a user message.
pub open spec fn has_user(messages: Seq<Message>) -> bool {
    exists|i: int| 0 <= i < messages.len() && (#[trigger] messages[i]).role@ == "user"@
}

/// The history entries of the messages, in their order.
pub open spec fn history(messages: Seq<Message>, system: Seq<char>, model: Seq<char>) -> Seq<
    JsonView,
>
    decreases messages.len(),
{
    if messages.len() == 0 {
        Seq::empty()
    } else {
        let before = messages.drop_last();
        let entries = history(before, system, model);
        match history_entry(messages.last(), system, !has_user(before), model) {
            Some(e) => entries.push(e),
            None => entries,
        }
    }
}

/// The content of the current message that the last message gives.
pub open spec fn current_content(m: Message, system: Seq<char>, is_first: bool) -> Seq<char> {
    if m.role@ == "assistant"@ {
        "Continue"@
    } else if m.role@ == "tool"@ {
        Seq::empty()
    } else {
        prepended(is_first, system, message_text(m))
    }
}

/// The tool results of the current message that the last message gives.
pub open spec fn current_results(m: Message) -> Seq<JsonView> {
    if m.role@ == "tool"@ {
        seq![tool_result(m)]
    } else {
        Seq::empty()
    }
}

/// The history once the last message is in its place: an assistant message goes into it.
pub open spec fn history_with_last(m: Message, entries: Seq<JsonView>) -> Seq<JsonView> {
    if m.role@ == "assistant"@ {
        entries.push(assistant_entry(m))
    } else {
        entries
    }
}

/// What Kiro is told of a conversation: the content of the current message, its tool results,
/// and the history.
pub open spec fn kiro_conversation(
    messages: Seq<Message>,
    system: Seq<char>,
    model: Seq<char>,
) -> (Seq<char>, Seq<JsonView>, Seq<JsonView>) {
    if messages.len() == 0 {
        (prepended(true, system, "Hello"@), Seq::empty(), Seq::empty())
    } else {
        let before = messages.drop_last();
        let last = messages.last();
        (
            current_content(last, system, !has_user(before)),
            current_results(last),
            history_with_last(last, history(before, system, model)),
        )
    }
}

/// Whether Kiro accepts a schema field: not `additionalProperties`, and not a `required` that
/// lists nothing.
pub open spec fn schema_field_kept(name: Seq<char>, value: JsonView) -> bool {
    &&& name != "additionalProperties"@
    &&& !(name == "required"@ && value == JsonView::Array(Seq::empty()))
}

/// The schema without the fields that Kiro refuses, on every level.
pub open spec fn sanitized(schema: JsonView) -> JsonView
    decreases schema,
{
    match schema {
        JsonView::Object(m) => JsonView::Object(
            Map::new(
                |k: Seq<char>| m.dom().contains(k) && schema_field_kept(k, m[k]),
                |k: Seq<char>|
                    if m.dom().contains(k) {
                        sanitized(m[k])
                    } else {
                        JsonView::Null
                    },
            ),
        ),
        JsonView::Array(items) => JsonView::Array(
            Seq::new(
                items.len(),
                |i: int|
                    if 0 <= i < items.len() {
                        sanitized(items[i])
                    } else {
                        JsonView::Null
                    },
            ),
        ),
        _ => schema,
    }
}

/// The tool description that Kiro gets: the given one, or one made of the tool's name.
pub open spec fn tool_description(f: FunctionDefinition) -> Seq<char> {
    match f.description {
        Some(d) => d@,
        None => "Tool: "@ + f.name@,
    }
}

/// The schema of a tool's arguments; an empty one where none is given.
pub open spec fn tool_schema(f: FunctionDefinition) -> JsonView {
    match f.parameters {
        Some(p) => json_view(p),
        None => JsonView::Object(Map::empty()),
    }
}

/// A tool in Kiro's form, where it is a function.
pub open spec fn tool_specification(t: Tool) -> Option<JsonView> {
    if t.tool_type@ == "function"@ {
        match t.function {
            Some(f) => Some(
                JsonView::Object(
                    map![
                        "toolSpecification"@ => JsonView::Object(
                            map![
                                "name"@ => JsonView::Text(f.name@),
                                "description"@ => JsonView::Text(tool_description(f)),
                                "inputSchema"@ => JsonView::Object(
                                    map!["json"@ => sanitized(tool_schema(f))],
                                )
                            ],
                        )
                    ],
                ),
            ),
            None => None,
        }
    } else {
        None
    }
}

/// The tools in Kiro's form; what is no function is left out.
pub open spec fn kiro_tools(tools: Option<Vec<Tool>>) -> Seq<JsonView> {
    match tools {
        Some(t) => t@.filter_map(|x: Tool| tool_specification(x)),
        None => Seq::empty(),
    }
}

/// The context of the current message: the tools and the tool results, where there are any.
pub open spec fn user_context(tools: Seq<JsonView>, results: Seq<JsonView>) -> Map<
    Seq<char>,
    JsonView,
> {
    let with_tools = if tools.len() > 0 {
        map!["tools"@ => JsonView::Array(tools)]
    } else {
        Map::empty()
    };
    if results.len() > 0 {
        with_tools.insert("toolResults"@, JsonView::Array(results))
    } else {
        with_tools
    }
}

/// The Kiro request for a chat request, in the conversation `conversation_id`.
pub open spec fn chat_payload(
    request: ChatRequest,
    model: Seq<char>,
    profile_arn: Seq<char>,
    conversation_id: Seq<char>,
) -> JsonView {
    let (content, results, entries) = kiro_conversation(
        conversation(request.messages@),
        system_prompt(request.messages@),
        model,
    );
    let context = user_context(kiro_tools(request.tools), results);
    let input = if context == Map::<Seq<char>, JsonView>::empty() {
        user_input(content, model)
    } else {
        user_input(content, model).insert("userInputMessageContext"@, JsonView::Object(context))
    };
    let state = map![
        "chatTriggerType"@ => JsonView::Text("MANUAL"@),
        "conversationId"@ => JsonView::Text(conversation_id),
        "currentMessage"@ => JsonView::Object(map!["userInputMessage"@ => JsonView::Object(input)])
    ];
    let full_state = if entries.len() > 0 {
        state.insert("history"@, JsonView::Array(entries))
    } else {
        state
    };
    let payload = map!["conversationState"@ => JsonView::Object(full_state)];
    JsonView::Object(
        if profile_arn.len() > 0 {
            payload.insert("profileArn"@, JsonView::Text(profile_arn))
        } else {
            payload
        },
    )
}

/// Puts the system prompt before the content of the first user message.
pub fn prepend_system_if_first(is_first: bool, system_prompt: &str, content: &str) -> (r: String)
    ensures
        r@ == prepended(is_first, system_prompt@, content@),
{
    if is_first && !system_prompt.is_empty() {
        join3(system_prompt, "\n\n", content)
    } else {
        content.to_string()
    }
}

/// `content`, or `default_value` where it is empty.
pub fn normalize_content(content: &str, default_value: &str) -> (r: String)
    ensures
        r@ == normalized(content@, default_value@),
{
    if content.is_empty() {
        default_value.to_string()
    } else {
        content.to_string()
    }
}

/// Joins all system messages into one prompt and lists the other messages.
pub fn extract_system(messages: &[Message]) -> (r: (String, Vec<&Message>))
    ensures
        r.0@ == system_prompt(messages@),
        r.1@.unref() == conversation(messages@),
{
    let mut prompt = String::new();
    let mut others: Vec<&Message> = Vec::new();
    let mut i: usize = 0;
    let ghost keep = |m: Message| m.role@ != "system"@;
    proof {
        reveal(Seq::filter);
        assert(messages@.take(0) =~= Seq::<Message>::empty());
        assert(others@.unref() =~= messages@.take(0).filter(keep));
    }
    while i < messages.len()
        invariant
            i <= messages@.len(),
            keep == (|m: Message| m.role@ != "system"@),
            prompt@ == system_prompt(messages@.take(i as int)),
            others@.unref() == messages@.take(i as int).filter(keep),
        decreases messages@.len() - i,
    {
        let message = &messages[i];
        proof {
            reveal(Seq::filter);
            assert(messages@.take(i + 1).drop_last() =~= messages@.take(i as int));
        }
        if message.has_role("system") {
            if !prompt.as_str().is_empty() {
                prompt.append("\n");
            }
            let text = extract_text_content(&message.content);
            prompt.append(text.as_str());
            assert(prompt@ =~= system_prompt(messages@.take(i + 1)));
        } else {
            let ghost before = others@;
            others.push(message);
            assert(others@.unref() =~= before.unref().push(*message));
        }
        i += 1;
    }
    assert(messages@.take(messages@.len() as int) =~= messages@);
    (prompt, others)
}

/// The fields of a schema object without those that Kiro refuses.
spec fn sanitized_fields(m: Map<Seq<char>, JsonView>) -> Map<Seq<char>, JsonView> {
    sanitized(JsonView::Object(m))->Object_0
}

/// Setting one more field of a schema sets it in the sanitized schema, or takes it away.
proof fn lemma_sanitized_insert(m: Map<Seq<char>, JsonView>, k: Seq<char>, v: JsonView)
    ensures
        sanitized_fields(m.insert(k, v)) == if schema_field_kept(k, v) {
            sanitized_fields(m).insert(k, sanitized(v))
        } else {
            sanitized_fields(m).remove(k)
        },
{
    if schema_field_kept(k, v) {
        assert(sanitized_fields(m.insert(k, v)) =~= sanitized_fields(m).insert(k, sanitized(v)));
    } else {
        assert(sanitized_fields(m.insert(k, v)) =~= sanitized_fields(m).remove(k));
    }
}

/// Removes the fields that Kiro refuses from a schema, on every level: every
/// `additionalProperties`, and a `required` that lists nothing.
pub fn sanitize_json_schema(schema: &Json) -> (r: Json)
    ensures
        r@ == sanitized(schema@),
    decreases schema,
{
    match schema {
        Json::Object(o) => {
            let mut out = JsonObject::new();
            let mut i: usize = 0;
            proof {
                assert(o.fields@.take(0) =~= Seq::<(String, Json)>::empty());
                assert(out@ =~= sanitized_fields(fields_view(o.fields@.take(0))));
            }
            while i < o.fields.len()
                invariant
                    i <= o.fields@.len(),
                    *schema == Json::Object(*o),
                    out@ == sanitized_fields(fields_view(o.fields@.take(i as int))),
                decreases o.fields@.len() - i,
            {
                let name = o.fields[i].0.as_str();
                let value = &o.fields[i].1;
                let lists_nothing = match value {
                    Json::Array(items) => {
                        proof {
                            lemma_array_view(*items);
                            if items@.len() == 0 {
                                assert(items_view(items@) =~= Seq::<JsonView>::empty());
                            } else {
                                assert(items_view(items@).len() > 0);
                            }
                        }
                        items.len() == 0
                    },
                    _ => false,
                };
                proof {
                    assert(o.fields@.take(i + 1).drop_last() =~= o.fields@.take(i as int));
                    lemma_sanitized_insert(
                        fields_view(o.fields@.take(i as int)),
                        name@,
                        value@,
                    );
                    assert(decreases_to!(*schema => schema->Object_0));
                    assert(decreases_to!(schema->Object_0 => o.fields));
                    assert(decreases_to!(o.fields => o.fields@));
                    assert(decreases_to!(o.fields@ => o.fields@[i as int]));
                    assert(decreases_to!(o.fields@[i as int] => o.fields@[i as int].1));
                }
                if text_eq(name, "additionalProperties") || (text_eq(name, "required")
                    && lists_nothing) {
                    out.remove(name);
                } else {
                    out.set(name, sanitize_json_schema(value));
                }
                i += 1;
            }
            assert(o.fields@.take(o.fields@.len() as int) =~= o.fields@);
            Json::Object(out)
        },
        Json::Array(items) => {
            let mut out: Vec<Json> = Vec::new();
            let mut i: usize = 0;
            while i < items.len()
                invariant
                    i <= items@.len(),
                    out@.len() == i,
                    *schema == Json::Array(*items),
                    forall|j: int| 0 <= j < i ==> json_view(#[trigger] out@[j]) == sanitized(
                        json_view(items@[j]),
                    ),
                decreases items@.len() - i,
            {
                proof {
                    assert(decreases_to!(*schema => schema->Array_0));
                    assert(decreases_to!(schema->Array_0 => items@));
                    assert(decreases_to!(items@ => items@[i as int]));
                }
                out.push(sanitize_json_schema(&items[i]));
                i += 1;
            }
            proof {
                lemma_array_view(out);
                lemma_array_view(*items);
                assert(items_view(out@) =~= sanitized(schema@)->Array_0);
            }
            Json::Array(out)
        },
        _ => schema.duplicate(),
    }
}

/// The tool calls of an assistant message in Kiro's form; arguments that are no JSON become an
/// empty object.
pub fn convert_tool_calls(tool_calls: &[ToolCall]) -> (r: Vec<Json>)
    ensures
        items_view(r@) == Seq::new(tool_calls@.len(), |i: int| tool_use(tool_calls@[i])),
{
    let mut out: Vec<Json> = Vec::new();
    let mut i: usize = 0;
    while i < tool_calls.len()
        invariant
            i <= tool_calls@.len(),
            out@.len() == i,
            forall|j: int| 0 <= j < i ==> json_view(#[trigger] out@[j]) == tool_use(tool_calls@[j]),
        decreases tool_calls@.len() - i,
    {
        let call = &tool_calls[i];
        out.push(
            Json::Object(
                JsonObject::new().with("toolUseId", Json::text(call.id.as_str())).with(
                    "name",
                    Json::text(call.function.name.as_str()),
                ).with("input", parse_or_empty(call.function.arguments.as_str())),
            ),
        );
        i += 1;
    }
    assert(items_view(out@) =~= Seq::new(tool_calls@.len(), |i: int| tool_use(tool_calls@[i])));
    out
}

/// The tool description that Kiro gets.
fn describe_tool(f: &FunctionDefinition) -> (r: String)
    ensures
        r@ == tool_description(*f),
{
    match &f.description {
        Some(d) => d.clone(),
        None => join2("Tool: ", f.name.as_str()),
    }
}

/// A tool in Kiro's form, where it is a function.
fn convert_tool(t: &Tool) -> (r: Option<Json>)
    ensures
        match r {
            Some(j) => tool_specification(*t) == Some(j@),
            None => tool_specification(*t) is None,
        },
{
    if !text_eq(t.tool_type.as_str(), "function") {
        return None;
    }
    match &t.function {
        Some(f) => {
            let schema = match &f.parameters {
                Some(p) => sanitize_json_schema(p),
                None => sanitize_json_schema(&Json::empty_object()),
            };
            let input_schema = JsonObject::new().with("json", schema);
            let specification = JsonObject::new().with("name", Json::text(f.name.as_str())).with(
                "description",
                Json::text(describe_tool(f).as_str()),
            ).with("inputSchema", Json::Object(input_schema));
            Some(
                Json::Object(
                    JsonObject::new().with("toolSpecification", Json::Object(specification)),
                ),
            )
        },
        None => None,
    }
}

/// The tools in Kiro's form; what is no function is left out.
pub fn convert_tools(tools: &[Tool]) -> (r: Vec<Json>)
    ensures
        items_view(r@) == tools@.filter_map(|x: Tool| tool_specification(x)),
{
    let mut out: Vec<Json> = Vec::new();
    let mut i: usize = 0;
    let ghost pick = |x: Tool| tool_specification(x);
    assert(items_view(out@) =~= tools@.take(0).filter_map(pick));
    while i < tools.len()
        invariant
            i <= tools@.len(),
            pick == (|x: Tool| tool_specification(x)),
            items_view(out@) == tools@.take(i as int).filter_map(pick),
        decreases tools@.len() - i,
    {
        proof {
            let longer = tools@.take(i + 1);
            assert(longer.drop_last() =~= tools@.take(i as int));
        }
        match convert_tool(&tools[i]) {
            Some(j) => {
                proof {
                    lemma_items_push(out@, j);
                }
                out.push(j);
                assert(items_view(out@) =~= tools@.take(i + 1).filter_map(pick));
            },
            None => {
                assert(items_view(out@) =~= tools@.take(i + 1).filter_map(pick));
            },
        }
        i += 1;
    }
    assert(tools@.take(tools@.len() as int) =~= tools@);
    out
}

/// The fields of a user message in Kiro's form.
fn user_input_message(content: &str, model: &str) -> (r: JsonObject)
    ensures
        r@ == user_input(content@, model@),
{
    JsonObject::new().with("content", Json::text(content)).with("modelId", Json::text(model)).with(
        "origin",
        Json::text("AI_EDITOR"),
    )
}

/// A list of one value.
fn singleton(j: Json) -> (r: Vec<Json>)
    ensures
        items_view(r@) == seq![j@],
{
    let mut out: Vec<Json> = Vec::new();
    out.push(j);
    assert(items_view(out@) =~= seq![j@]);
    out
}

/// A JSON array of one value.
fn array_of_one(j: Json) -> (r: Json)
    ensures
        r@ == JsonView::Array(seq![j@]),
{
    let items = singleton(j);
    proof {
        lemma_array_view(items);
    }
    Json::Array(items)
}

/// An assistant message in Kiro's form.
fn assistant_response(message: &Message) -> (r: Json)
    ensures
        r@ == assistant_entry(*message),
{
    let text = extract_text_content(&message.content);
    let content = normalize_content(text.as_str(), "(empty placeholder)");
    let mut response = JsonObject::new().with("content", Json::text(content.as_str()));
    if let Some(calls) = &message.tool_calls {
        let uses = convert_tool_calls(calls.as_slice());
        if uses.len() > 0 {
            proof {
                lemma_array_view(uses);
            }
            response.set("toolUses", Json::Array(uses));
        }
    }
    Json::Object(JsonObject::new().with("assistantResponseMessage", Json::Object(response)))
}

/// The result of a tool call in Kiro's form.
fn tool_result_entry(message: &Message) -> (r: Json)
    ensures
        r@ == tool_result(*message),
{
    let text = extract_text_content(&message.content);
    let content = normalize_content(text.as_str(), "(empty result)");
    let block = Json::Object(JsonObject::new().with("text", Json::text(content.as_str())));
    Json::Object(
        JsonObject::new().with("content", array_of_one(block)).with(
            "status",
            Json::text("success"),
        ).with("toolUseId", Json::text(message.answered_call().as_str())),
    )
}

/// Turns a message into a history entry; a message with an unknown role is skipped.
pub fn convert_message_to_kiro_history(
    message: &Message,
    system_prompt: &str,
    is_first: bool,
    model: &str,
) -> (r: Option<Json>)
    ensures
        match r {
            Some(j) => history_entry(*message, system_prompt@, is_first, model@) == Some(j@),
            None => history_entry(*message, system_prompt@, is_first, model@) is None,
        },
{
    if message.has_role("user") {
        let text = extract_text_content(&message.content);
        let content = prepend_system_if_first(is_first, system_prompt, text.as_str());
        let input = user_input_message(content.as_str(), model);
        Some(Json::Object(JsonObject::new().with("userInputMessage", Json::Object(input))))
    } else if message.has_role("assistant") {
        Some(assistant_response(message))
    } else if message.has_role("tool") {
        let results = array_of_one(tool_result_entry(message));
        let context = JsonObject::new().with("toolResults", results);
        let empty = String::new();
        let input = user_input_message(empty.as_str(), model).with(
            "userInputMessageContext",
            Json::Object(context),
        );
        Some(Json::Object(JsonObject::new().with("userInputMessage", Json::Object(input))))
    } else {
        None
    }
}

/// Turns the last message into the current message. `is_first` says that no user message came
/// before it. An assistant message goes into the history, and the current message asks to
/// continue.
pub fn build_current(
    message: &Message,
    system_prompt: &str,
    is_first: bool,
    history: &mut Vec<Json>,
) -> (r: CurrentMessage)
    ensures
        r.content@ == current_content(*message, system_prompt@, is_first),
        items_view(r.tool_results@) == current_results(*message),
        items_view(final(history)@) == history_with_last(*message, items_view(old(history)@)),
{
    if message.has_role("assistant") {
        let entry = assistant_response(message);
        proof {
            lemma_items_push(history@, entry);
            reveal_strlit("assistant");
            reveal_strlit("tool");
            assert("assistant"@.len() != "tool"@.len());
        }
        history.push(entry);
        let none: Vec<Json> = Vec::new();
        assert(items_view(none@) =~= Seq::<JsonView>::empty());
        CurrentMessage { content: "Continue".to_string(), tool_results: none }
    } else if message.has_role("tool") {
        CurrentMessage {
            content: String::new(),
            tool_results: singleton(tool_result_entry(message)),
        }
    } else {
        let text = extract_text_content(&message.content);
        let content = prepend_system_if_first(is_first, system_prompt, text.as_str());
        let none: Vec<Json> = Vec::new();
        assert(items_view(none@) =~= Seq::<JsonView>::empty());
        CurrentMessage { content, tool_results: none }
    }
}

/// Turns the conversation into the current message and the history before it.
pub fn build_conversation(messages: &[&Message], system_prompt: &str, model_id: &str) -> (r: (
    CurrentMessage,
    Vec<Json>,
))
    ensures
        (r.0.content@, items_view(r.0.tool_results@), items_view(r.1@)) == kiro_conversation(
            messages@.unref(),
            system_prompt@,
            model_id@,
        ),
{
    let ghost all = messages@.unref();
    let mut entries: Vec<Json> = Vec::new();
    assert(items_view(entries@) =~= Seq::<JsonView>::empty());
    if messages.len() == 0 {
        let none: Vec<Json> = Vec::new();
        assert(items_view(none@) =~= Seq::<JsonView>::empty());
        let content = prepend_system_if_first(true, system_prompt, "Hello");
        return (CurrentMessage { content, tool_results: none }, entries);
    }
    let count = messages.len() - 1;
    let mut user_seen = false;
    let mut i: usize = 0;
    assert(all.take(0) =~= Seq::<Message>::empty());
    while i < count
        invariant
            i <= count,
            count + 1 == messages@.len(),
            all == messages@.unref(),
            user_seen == has_user(all.take(i as int)),
            items_view(entries@) == history(all.take(i as int), system_prompt@, model_id@),
        decreases count - i,
    {
        let message = messages[i];
        proof {
            let longer = all.take(i + 1);
            assert(longer.drop_last() =~= all.take(i as int));
            assert(longer.last() == *message);
        }
        match convert_message_to_kiro_history(message, system_prompt, !user_seen, model_id) {
            Some(entry) => {
                proof {
                    lemma_items_push(entries@, entry);
                }
                entries.push(entry);
            },
            None => {},
        }
        let is_user = message.has_role("user");
        proof {
            lemma_has_user_step(all, i as int);
        }
        user_seen = user_seen || is_user;
        i += 1;
    }
    assert(all.drop_last() =~= all.take(count as int));
    let current = build_current(messages[count], system_prompt, !user_seen, &mut entries);
    (current, entries)
}

proof fn lemma_has_user_step(messages: Seq<Message>, i: int)
    requires
        0 <= i < messages.len(),
    ensures
        has_user(messages.take(i + 1)) == (has_user(messages.take(i)) || messages[i].role@
            == "user"@),
{
    let shorter = messages.take(i);
    let longer = messages.take(i + 1);
    if has_user(shorter) {
        let k = choose|k: int| 0 <= k < shorter.len() && (#[trigger] shorter[k]).role@ == "user"@;
        assert(longer[k] == shorter[k]);
    }
    if messages[i].role@ == "user"@ {
        assert(longer[i] == messages[i]);
    }
    if has_user(longer) {
        let k = choose|k: int| 0 <= k < longer.len() && (#[trigger] longer[k]).role@ == "user"@;
        if k < i {
            assert(shorter[k] == longer[k]);
        }
    }
}

/// Builds the Kiro request for a chat request, in the conversation `conversation_id`.
pub fn build_chat_payload_in(
    request: &ChatRequest,
    model: &str,
    profile_arn: &str,
    conversation_id: &str,
) -> (r: Json)
    ensures
        r@ == chat_payload(*request, model@, profile_arn@, conversation_id@),
{
    let (prompt, others) = extract_system(request.messages.as_slice());
    let (current, entries) = build_conversation(others.as_slice(), prompt.as_str(), model);
    let mut context = JsonObject::new();
    if let Some(tools) = &request.tools {
        let kiro_tools = convert_tools(tools.as_slice());
        if kiro_tools.len() > 0 {
            proof {
                lemma_array_view(kiro_tools);
            }
            context.set("tools", Json::Array(kiro_tools));
        }
    }
    let CurrentMessage { content, tool_results } = current;
    if tool_results.len() > 0 {
        proof {
            lemma_array_view(tool_results);
        }
        context.set("toolResults", Json::Array(tool_results));
    }
    let mut input = user_input_message(content.as_str(), model);
    if !context.is_empty() {
        input.set("userInputMessageContext", Json::Object(context));
    }
    let current_message = JsonObject::new().with("userInputMessage", Json::Object(input));
    let mut state = JsonObject::new().with("chatTriggerType", Json::text("MANUAL")).with(
        "conversationId",
        Json::text(conversation_id),
    ).with("currentMessage", Json::Object(current_message));
    if entries.len() > 0 {
        proof {
            lemma_array_view(entries);
        }
        state.set("history", Json::Array(entries));
    }
    let mut payload = JsonObject::new().with("conversationState", Json::Object(state));
    if !profile_arn.is_empty() {
        payload.set("profileArn", Json::text(profile_arn));
    }
    Json::Object(payload)
}

/// Builds the Kiro request for a chat request, in a new conversation.
pub fn build_chat_payload(request: &ChatRequest, model: &str, profile_arn: &str) -> (r: Json)
    ensures
        exists|id: Seq<char>| #[trigger]
            simple_id(id) && r@ == chat_payload(*request, model@, profile_arn@, id),
{
    let conversation_id = random_simple_id();
    build_chat_payload_in(request, model, profile_arn, conversation_id.as_str())
}

} // verus!
