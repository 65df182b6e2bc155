//! What holds of every request to Kiro.
use vstd::prelude::*;

use crate::json::{field, text_field, JsonView};
use crate::provider::content::{message_text, system_prompt};
use crate::provider::kiro::request_builder::{
    assistant_entry, chat_payload, conversation, has_user, history, history_entry,
    kiro_conversation, kiro_tools, sanitized, schema_field_kept, tool_schema, tool_specification,
    user_context,
};
use crate::types::openai_request::{ChatRequest, Message, Tool};

verus! {

/// Whether a schema has no field that Kiro refuses, on any level.
pub open spec fn is_clean(schema: JsonView) -> bool
    decreases schema,
{
    match schema {
        JsonView::Object(m) => forall|k: Seq<char>|
            #[trigger] m.dom().contains(k) ==> schema_field_kept(k, m[k]) && is_clean(m[k]),
        JsonView::Array(items) => forall|i: int|
            0 <= i < items.len() ==> is_clean(#[trigger] items[i]),
        _ => true,
    }
}

/// A list stays as long as it is.
proof fn lemma_sanitized_is_empty(v: JsonView)
    ensures
        sanitized(v) == JsonView::Array(Seq::empty()) <==> v == JsonView::Array(Seq::empty()),
{
    if let JsonView::Array(items) = v {
        if items.len() == 0 {
            assert(items =~= Seq::<JsonView>::empty());
            assert(sanitized(v)->Array_0 =~= Seq::<JsonView>::empty());
        } else {
            assert(sanitized(v)->Array_0.len() == items.len());
        }
    }
}

/// Nothing that Kiro refuses is left in a sanitized schema.
pub proof fn lemma_sanitized_is_clean(schema: JsonView)
    ensures
        is_clean(sanitized(schema)),
    decreases schema,
{
    match schema {
        JsonView::Object(m) => {
            let out = sanitized(schema)->Object_0;
            assert forall|k: Seq<char>| #[trigger] out.dom().contains(k) implies schema_field_kept(
                k,
                out[k],
            ) && is_clean(out[k]) by {
                assert(m.dom().contains(k));
                lemma_sanitized_is_clean(m[k]);
                lemma_sanitized_is_empty(m[k]);
            }
        },
        JsonView::Array(items) => {
            let out = sanitized(schema)->Array_0;
            assert forall|i: int| 0 <= i < out.len() implies is_clean(#[trigger] out[i]) by {
                lemma_sanitized_is_clean(items[i]);
            }
        },
        _ => {},
    }
}

/// A schema without such fields stays as it is.
pub proof fn lemma_clean_stays(schema: JsonView)
    requires
        is_clean(schema),
    ensures
        sanitized(schema) == schema,
    decreases schema,
{
    match schema {
        JsonView::Object(m) => {
            let out = sanitized(schema)->Object_0;
            assert forall|k: Seq<char>| #[trigger] m.dom().contains(k) implies out.dom().contains(k)
                && out[k] == m[k] by {
                assert(is_clean(m[k]));
                lemma_clean_stays(m[k]);
            }
            assert(out =~= m);
        },
        JsonView::Array(items) => {
            let out = sanitized(schema)->Array_0;
            assert forall|i: int| 0 <= i < items.len() implies #[trigger] out[i] == items[i] by {
                assert(is_clean(items[i]));
                lemma_clean_stays(items[i]);
            }
            assert(out =~= items);
        },
        _ => {},
    }
}

/// Sanitizing a schema twice is sanitizing it once.
pub proof fn lemma_sanitized_twice(schema: JsonView)
    ensures
        sanitized(sanitized(schema)) == sanitized(schema),
{
    lemma_sanitized_is_clean(schema);
    lemma_clean_stays(sanitized(schema));
}

/// The schema of a tool in Kiro's form.
pub open spec fn schema_of(tool: JsonView) -> Option<JsonView> {
    match field(tool, "toolSpecification"@) {
        Some(specification) => match field(specification, "inputSchema"@) {
            Some(schema) => field(schema, "json"@),
            None => None,
        },
        None => None,
    }
}

/// Every tool that Kiro is told of has a schema that Kiro accepts.
pub proof fn lemma_tools_are_clean(tools: Seq<Tool>, k: int)
    requires
        0 <= k < tools.filter_map(|t: Tool| tool_specification(t)).len(),
    ensures
        schema_of(tools.filter_map(|t: Tool| tool_specification(t))[k]) matches Some(schema)
            && is_clean(schema),
    decreases tools.len(),
{
    let told = tools.filter_map(|t: Tool| tool_specification(t));
    let before = tools.drop_last().filter_map(|t: Tool| tool_specification(t));
    if k < before.len() {
        assert(told[k] == before[k]);
        lemma_tools_are_clean(tools.drop_last(), k);
    } else {
        let tool = tools.last();
        assert(Some(told[k]) == tool_specification(tool));
        lemma_sanitized_is_clean(tool_schema(tool.function->0));
    }
}

/// Whether a message gets an entry in the history.
pub open spec fn has_entry(m: Message) -> bool {
    m.role@ == "user"@ || m.role@ == "assistant"@ || m.role@ == "tool"@
}

/// The place in the history of the message at `i`.
pub open spec fn place(messages: Seq<Message>, i: int) -> nat {
    messages.take(i).filter(|m: Message| has_entry(m)).len()
}

/// The history has one entry for each message with a known role.
pub proof fn lemma_history_len(messages: Seq<Message>, system: Seq<char>, model: Seq<char>)
    ensures
        history(messages, system, model).len() == messages.filter(
            |m: Message| has_entry(m),
        ).len(),
    decreases messages.len(),
{
    reveal(Seq::filter);
    if messages.len() > 0 {
        lemma_history_len(messages.drop_last(), system, model);
    }
}

/// The entry of a message stands at its place in the history, in the order of the messages.
pub proof fn lemma_history_at(
    messages: Seq<Message>,
    system: Seq<char>,
    model: Seq<char>,
    i: int,
)
    requires
        0 <= i < messages.len(),
        has_entry(messages[i]),
    ensures
        place(messages, i) < history(messages, system, model).len(),
        history_entry(messages[i], system, !has_user(messages.take(i)), model) == Some(
            history(messages, system, model)[place(messages, i) as int],
        ),
    decreases messages.len(),
{
    let before = messages.drop_last();
    lemma_history_len(before, system, model);
    if i == messages.len() - 1 {
        assert(messages.take(i) =~= before);
    } else {
        assert(before.take(i) =~= messages.take(i));
        lemma_history_at(before, system, model, i);
    }
}

/// The content of a user message in Kiro's form.
pub open spec fn user_content(entry: JsonView) -> Option<Seq<char>> {
    match field(entry, "userInputMessage"@) {
        Some(m) => text_field(m, "content"@),
        None => None,
    }
}

/// The system prompt stands in front of the first user message of the history, and every later
/// one is passed on as it is.
pub proof fn lemma_prompt_goes_to_first_user(
    messages: Seq<Message>,
    system: Seq<char>,
    model: Seq<char>,
    i: int,
)
    requires
        0 <= i < messages.len(),
        messages[i].role@ == "user"@,
    ensures
        place(messages, i) < history(messages, system, model).len(),
        user_content(history(messages, system, model)[place(messages, i) as int]) == Some(
            if has_user(messages.take(i)) || system.len() == 0 {
                message_text(messages[i])
            } else {
                system + "\n\n"@ + message_text(messages[i])
            },
        ),
{
    lemma_history_at(messages, system, model, i);
    reveal_strlit("content");
    reveal_strlit("modelId");
    reveal_strlit("origin");
    assert("content"@[0] == 'c' && "modelId"@[0] == 'm' && "origin"@[0] == 'o');
}

/// The user message that a request asks Kiro to answer.
pub open spec fn current_input(payload: JsonView) -> JsonView {
    field(
        field(field(payload, "conversationState"@)->0, "currentMessage"@)->0,
        "userInputMessage"@,
    )->0
}

/// The history in a request.
pub open spec fn history_in(payload: JsonView) -> Seq<JsonView> {
    match field(field(payload, "conversationState"@)->0, "history"@) {
        Some(JsonView::Array(entries)) => entries,
        _ => Seq::empty(),
    }
}

/// The list `name` in the context of a user message.
pub open spec fn context_list(input: JsonView, name: Seq<char>) -> Seq<JsonView> {
    match field(input, "userInputMessageContext"@) {
        Some(context) => match field(context, name) {
            Some(JsonView::Array(list)) => list,
            _ => Seq::empty(),
        },
        None => Seq::empty(),
    }
}

/// The names of the fields of a request differ.
proof fn lemma_field_names()
    ensures
        "conversationState"@ != "profileArn"@,
        "currentMessage"@ != "history"@,
        "content"@ != "modelId"@,
        "content"@ != "origin"@,
        "content"@ != "userInputMessageContext"@,
        "userInputMessageContext"@ != "modelId"@,
        "userInputMessageContext"@ != "origin"@,
        "history"@ != "chatTriggerType"@,
        "history"@ != "conversationId"@,
        "tools"@ != "toolResults"@,
{
    reveal_strlit("conversationState");
    reveal_strlit("profileArn");
    reveal_strlit("currentMessage");
    reveal_strlit("history");
    reveal_strlit("content");
    reveal_strlit("modelId");
    reveal_strlit("origin");
    reveal_strlit("userInputMessageContext");
    reveal_strlit("chatTriggerType");
    reveal_strlit("conversationId");
    reveal_strlit("tools");
    reveal_strlit("toolResults");
    assert("conversationState"@[0] == 'c' && "profileArn"@[0] == 'p' && "history"@[0] == 'h');
    assert("currentMessage"@[0] == 'c' && "content"@[0] == 'c' && "modelId"@[0] == 'm');
    assert("origin"@[0] == 'o' && "userInputMessageContext"@[0] == 'u');
    assert("chatTriggerType"@[0] == 'c' && "conversationId"@[0] == 'c');
    assert("tools"@.len() == 5 && "toolResults"@.len() == 11);
}

/// Every request asks Kiro to answer a user message, with the content, the history, the tool
/// results and the tools of the chat request.
pub proof fn lemma_payload_parts(
    request: ChatRequest,
    model: Seq<char>,
    profile_arn: Seq<char>,
    conversation_id: Seq<char>,
)
    ensures
        ({
            let (content, results, entries) = kiro_conversation(
                conversation(request.messages@),
                system_prompt(request.messages@),
                model,
            );
            let payload = chat_payload(request, model, profile_arn, conversation_id);
            let input = current_input(payload);
            &&& text_field(input, "content"@) == Some(content)
            &&& history_in(payload) == entries
            &&& context_list(input, "toolResults"@) == results
            &&& context_list(input, "tools"@) == kiro_tools(request.tools)
        }),
{
    lemma_field_names();
    let (content, results, entries) = kiro_conversation(
        conversation(request.messages@),
        system_prompt(request.messages@),
        model,
    );
    let tools = kiro_tools(request.tools);
    let context = user_context(tools, results);
    if results.len() == 0 {
        assert(results =~= Seq::<JsonView>::empty());
    }
    if tools.len() == 0 {
        assert(tools =~= Seq::<JsonView>::empty());
    }
    if entries.len() == 0 {
        assert(entries =~= Seq::<JsonView>::empty());
    }
    if results.len() > 0 {
        assert(context.dom().contains("toolResults"@));
    }
    if tools.len() > 0 {
        assert(context.dom().contains("tools"@));
    }
    if context == Map::<Seq<char>, JsonView>::empty() {
        assert(!context.dom().contains("toolResults"@));
        assert(!context.dom().contains("tools"@));
    }
}

/// Whether all messages are system messages.
pub open spec fn only_system(messages: Seq<Message>) -> bool {
    forall|i: int| 0 <= i < messages.len() ==> (#[trigger] messages[i]).role@ == "system"@
}

proof fn lemma_only_system_has_no_conversation(messages: Seq<Message>)
    requires
        only_system(messages),
    ensures
        conversation(messages) == Seq::<Message>::empty(),
    decreases messages.len(),
{
    reveal(Seq::filter);
    if messages.len() > 0 {
        assert(messages[messages.len() - 1].role@ == "system"@);
        let before = messages.drop_last();
        assert forall|i: int| 0 <= i < before.len() implies (#[trigger] before[i]).role@
            == "system"@ by {
            assert(before[i] == messages[i]);
        }
        lemma_only_system_has_no_conversation(before);
    }
}

/// Without any message but system messages Kiro is greeted, after the system prompt if there is
/// one, and has no history.
pub proof fn lemma_greeting(
    request: ChatRequest,
    model: Seq<char>,
    profile_arn: Seq<char>,
    conversation_id: Seq<char>,
)
    requires
        only_system(request.messages@),
    ensures
        ({
            let payload = chat_payload(request, model, profile_arn, conversation_id);
            let prompt = system_prompt(request.messages@);
            &&& text_field(current_input(payload), "content"@) == Some(
                if prompt.len() == 0 {
                    "Hello"@
                } else {
                    prompt + "\n\n"@ + "Hello"@
                },
            )
            &&& history_in(payload) == Seq::<JsonView>::empty()
        }),
{
    lemma_only_system_has_no_conversation(request.messages@);
    lemma_payload_parts(request, model, profile_arn, conversation_id);
}

/// Where the assistant spoke last, what it said ends the history and Kiro is asked to continue.
pub proof fn lemma_assistant_spoke_last(
    request: ChatRequest,
    model: Seq<char>,
    profile_arn: Seq<char>,
    conversation_id: Seq<char>,
)
    requires
        conversation(request.messages@).len() > 0,
        conversation(request.messages@).last().role@ == "assistant"@,
    ensures
        ({
            let payload = chat_payload(request, model, profile_arn, conversation_id);
            &&& text_field(current_input(payload), "content"@) == Some("Continue"@)
            &&& history_in(payload).len() > 0
            &&& history_in(payload).last() == assistant_entry(
                conversation(request.messages@).last(),
            )
        }),
{
    lemma_payload_parts(request, model, profile_arn, conversation_id);
}

} // verus!
