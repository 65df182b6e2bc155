//! What reaches Kiro of a chat request, said of the JSON itself.
use vstd::prelude::*;

use crate::json::bridge::parsed_json;
use crate::json::{has_field, has_names, inner, items, JsonView};
use crate::provider::content::{lemma_roles, message_text, system_prompt};
use crate::provider::kiro::request_builder::{
    assistant_entry, chat_payload, conversation, current_content, current_results, has_user,
    history, history_entry, history_with_last, kiro_conversation, kiro_tools, normalized, prepended,
    sanitized, tool_result, tool_specification, tool_use, user_context, user_input,
};
use crate::provider::kiro::request_laws::{lemma_history_at, lemma_history_len, place};
use crate::types::openai_request::{
    answered_call, calls_of, function_tools, offered, ChatRequest, FunctionDefinition, Message,
    Tool, ToolCall,
};

verus! {

/// The names of a request's fields differ.
pub proof fn lemma_kiro_names()
    ensures
        "content"@ != "modelId"@,
        "content"@ != "origin"@,
        "content"@ != "userInputMessageContext"@,
        "content"@ != "status"@,
        "content"@ != "toolUseId"@,
        "content"@ != "name"@,
        "content"@ != "input"@,
        "content"@ != "toolUses"@,
        "content"@ != "tools"@,
        "content"@ != "toolResults"@,
        "content"@ != "description"@,
        "content"@ != "inputSchema"@,
        "content"@ != "chatTriggerType"@,
        "content"@ != "conversationId"@,
        "content"@ != "currentMessage"@,
        "content"@ != "history"@,
        "content"@ != "conversationState"@,
        "content"@ != "profileArn"@,
        "modelId"@ != "origin"@,
        "modelId"@ != "userInputMessageContext"@,
        "modelId"@ != "status"@,
        "modelId"@ != "toolUseId"@,
        "modelId"@ != "name"@,
        "modelId"@ != "input"@,
        "modelId"@ != "toolUses"@,
        "modelId"@ != "tools"@,
        "modelId"@ != "toolResults"@,
        "modelId"@ != "description"@,
        "modelId"@ != "inputSchema"@,
        "modelId"@ != "chatTriggerType"@,
        "modelId"@ != "conversationId"@,
        "modelId"@ != "currentMessage"@,
        "modelId"@ != "history"@,
        "modelId"@ != "conversationState"@,
        "modelId"@ != "profileArn"@,
        "origin"@ != "userInputMessageContext"@,
        "origin"@ != "status"@,
        "origin"@ != "toolUseId"@,
        "origin"@ != "name"@,
        "origin"@ != "input"@,
        "origin"@ != "toolUses"@,
        "origin"@ != "tools"@,
        "origin"@ != "toolResults"@,
        "origin"@ != "description"@,
        "origin"@ != "inputSchema"@,
        "origin"@ != "chatTriggerType"@,
        "origin"@ != "conversationId"@,
        "origin"@ != "currentMessage"@,
        "origin"@ != "history"@,
        "origin"@ != "conversationState"@,
        "origin"@ != "profileArn"@,
        "userInputMessageContext"@ != "status"@,
        "userInputMessageContext"@ != "toolUseId"@,
        "userInputMessageContext"@ != "name"@,
        "userInputMessageContext"@ != "input"@,
        "userInputMessageContext"@ != "toolUses"@,
        "userInputMessageContext"@ != "tools"@,
        "userInputMessageContext"@ != "toolResults"@,
        "userInputMessageContext"@ != "description"@,
        "userInputMessageContext"@ != "inputSchema"@,
        "userInputMessageContext"@ != "chatTriggerType"@,
        "userInputMessageContext"@ != "conversationId"@,
        "userInputMessageContext"@ != "currentMessage"@,
        "userInputMessageContext"@ != "history"@,
        "userInputMessageContext"@ != "conversationState"@,
        "userInputMessageContext"@ != "profileArn"@,
        "status"@ != "toolUseId"@,
        "status"@ != "name"@,
        "status"@ != "input"@,
        "status"@ != "toolUses"@,
        "status"@ != "tools"@,
        "status"@ != "toolResults"@,
        "status"@ != "description"@,
        "status"@ != "inputSchema"@,
        "status"@ != "chatTriggerType"@,
        "status"@ != "conversationId"@,
        "status"@ != "currentMessage"@,
        "status"@ != "history"@,
        "status"@ != "conversationState"@,
        "status"@ != "profileArn"@,
        "toolUseId"@ != "name"@,
        "toolUseId"@ != "input"@,
        "toolUseId"@ != "toolUses"@,
        "toolUseId"@ != "tools"@,
        "toolUseId"@ != "toolResults"@,
        "toolUseId"@ != "description"@,
        "toolUseId"@ != "inputSchema"@,
        "toolUseId"@ != "chatTriggerType"@,
        "toolUseId"@ != "conversationId"@,
        "toolUseId"@ != "currentMessage"@,
        "toolUseId"@ != "history"@,
        "toolUseId"@ != "conversationState"@,
        "toolUseId"@ != "profileArn"@,
        "name"@ != "input"@,
        "name"@ != "toolUses"@,
        "name"@ != "tools"@,
        "name"@ != "toolResults"@,
        "name"@ != "description"@,
        "name"@ != "inputSchema"@,
        "name"@ != "chatTriggerType"@,
        "name"@ != "conversationId"@,
        "name"@ != "currentMessage"@,
        "name"@ != "history"@,
        "name"@ != "conversationState"@,
        "name"@ != "profileArn"@,
        "input"@ != "toolUses"@,
        "input"@ != "tools"@,
        "input"@ != "toolResults"@,
        "input"@ != "description"@,
        "input"@ != "inputSchema"@,
        "input"@ != "chatTriggerType"@,
        "input"@ != "conversationId"@,
        "input"@ != "currentMessage"@,
        "input"@ != "history"@,
        "input"@ != "conversationState"@,
        "input"@ != "profileArn"@,
        "toolUses"@ != "tools"@,
        "toolUses"@ != "toolResults"@,
        "toolUses"@ != "description"@,
        "toolUses"@ != "inputSchema"@,
        "toolUses"@ != "chatTriggerType"@,
        "toolUses"@ != "conversationId"@,
        "toolUses"@ != "currentMessage"@,
        "toolUses"@ != "history"@,
        "toolUses"@ != "conversationState"@,
        "toolUses"@ != "profileArn"@,
        "tools"@ != "toolResults"@,
        "tools"@ != "description"@,
        "tools"@ != "inputSchema"@,
        "tools"@ != "chatTriggerType"@,
        "tools"@ != "conversationId"@,
        "tools"@ != "currentMessage"@,
        "tools"@ != "history"@,
        "tools"@ != "conversationState"@,
        "tools"@ != "profileArn"@,
        "toolResults"@ != "description"@,
        "toolResults"@ != "inputSchema"@,
        "toolResults"@ != "chatTriggerType"@,
        "toolResults"@ != "conversationId"@,
        "toolResults"@ != "currentMessage"@,
        "toolResults"@ != "history"@,
        "toolResults"@ != "conversationState"@,
        "toolResults"@ != "profileArn"@,
        "description"@ != "inputSchema"@,
        "description"@ != "chatTriggerType"@,
        "description"@ != "conversationId"@,
        "description"@ != "currentMessage"@,
        "description"@ != "history"@,
        "description"@ != "conversationState"@,
        "description"@ != "profileArn"@,
        "inputSchema"@ != "chatTriggerType"@,
        "inputSchema"@ != "conversationId"@,
        "inputSchema"@ != "currentMessage"@,
        "inputSchema"@ != "history"@,
        "inputSchema"@ != "conversationState"@,
        "inputSchema"@ != "profileArn"@,
        "chatTriggerType"@ != "conversationId"@,
        "chatTriggerType"@ != "currentMessage"@,
        "chatTriggerType"@ != "history"@,
        "chatTriggerType"@ != "conversationState"@,
        "chatTriggerType"@ != "profileArn"@,
        "conversationId"@ != "currentMessage"@,
        "conversationId"@ != "history"@,
        "conversationId"@ != "conversationState"@,
        "conversationId"@ != "profileArn"@,
        "currentMessage"@ != "history"@,
        "currentMessage"@ != "conversationState"@,
        "currentMessage"@ != "profileArn"@,
        "history"@ != "conversationState"@,
        "history"@ != "profileArn"@,
        "conversationState"@ != "profileArn"@,
{
    reveal_strlit("content");
    reveal_strlit("modelId");
    reveal_strlit("origin");
    reveal_strlit("userInputMessageContext");
    reveal_strlit("status");
    reveal_strlit("toolUseId");
    reveal_strlit("name");
    reveal_strlit("input");
    reveal_strlit("toolUses");
    reveal_strlit("tools");
    reveal_strlit("toolResults");
    reveal_strlit("description");
    reveal_strlit("inputSchema");
    reveal_strlit("chatTriggerType");
    reveal_strlit("conversationId");
    reveal_strlit("currentMessage");
    reveal_strlit("history");
    reveal_strlit("conversationState");
    reveal_strlit("profileArn");
    assert("content"@[0] != "modelId"@[0]);
    assert("content"@.len() != "origin"@.len());
    assert("content"@.len() != "userInputMessageContext"@.len());
    assert("content"@.len() != "status"@.len());
    assert("content"@.len() != "toolUseId"@.len());
    assert("content"@.len() != "name"@.len());
    assert("content"@.len() != "input"@.len());
    assert("content"@.len() != "toolUses"@.len());
    assert("content"@.len() != "tools"@.len());
    assert("content"@.len() != "toolResults"@.len());
    assert("content"@.len() != "description"@.len());
    assert("content"@.len() != "inputSchema"@.len());
    assert("content"@.len() != "chatTriggerType"@.len());
    assert("content"@.len() != "conversationId"@.len());
    assert("content"@.len() != "currentMessage"@.len());
    assert("content"@[0] != "history"@[0]);
    assert("content"@.len() != "conversationState"@.len());
    assert("content"@.len() != "profileArn"@.len());
    assert("modelId"@.len() != "origin"@.len());
    assert("modelId"@.len() != "userInputMessageContext"@.len());
    assert("modelId"@.len() != "status"@.len());
    assert("modelId"@.len() != "toolUseId"@.len());
    assert("modelId"@.len() != "name"@.len());
    assert("modelId"@.len() != "input"@.len());
    assert("modelId"@.len() != "toolUses"@.len());
    assert("modelId"@.len() != "tools"@.len());
    assert("modelId"@.len() != "toolResults"@.len());
    assert("modelId"@.len() != "description"@.len());
    assert("modelId"@.len() != "inputSchema"@.len());
    assert("modelId"@.len() != "chatTriggerType"@.len());
    assert("modelId"@.len() != "conversationId"@.len());
    assert("modelId"@.len() != "currentMessage"@.len());
    assert("modelId"@[0] != "history"@[0]);
    assert("modelId"@.len() != "conversationState"@.len());
    assert("modelId"@.len() != "profileArn"@.len());
    assert("origin"@.len() != "userInputMessageContext"@.len());
    assert("origin"@[0] != "status"@[0]);
    assert("origin"@.len() != "toolUseId"@.len());
    assert("origin"@.len() != "name"@.len());
    assert("origin"@.len() != "input"@.len());
    assert("origin"@.len() != "toolUses"@.len());
    assert("origin"@.len() != "tools"@.len());
    assert("origin"@.len() != "toolResults"@.len());
    assert("origin"@.len() != "description"@.len());
    assert("origin"@.len() != "inputSchema"@.len());
    assert("origin"@.len() != "chatTriggerType"@.len());
    assert("origin"@.len() != "conversationId"@.len());
    assert("origin"@.len() != "currentMessage"@.len());
    assert("origin"@.len() != "history"@.len());
    assert("origin"@.len() != "conversationState"@.len());
    assert("origin"@.len() != "profileArn"@.len());
    assert("userInputMessageContext"@.len() != "status"@.len());
    assert("userInputMessageContext"@.len() != "toolUseId"@.len());
    assert("userInputMessageContext"@.len() != "name"@.len());
    assert("userInputMessageContext"@.len() != "input"@.len());
    assert("userInputMessageContext"@.len() != "toolUses"@.len());
    assert("userInputMessageContext"@.len() != "tools"@.len());
    assert("userInputMessageContext"@.len() != "toolResults"@.len());
    assert("userInputMessageContext"@.len() != "description"@.len());
    assert("userInputMessageContext"@.len() != "inputSchema"@.len());
    assert("userInputMessageContext"@.len() != "chatTriggerType"@.len());
    assert("userInputMessageContext"@.len() != "conversationId"@.len());
    assert("userInputMessageContext"@.len() != "currentMessage"@.len());
    assert("userInputMessageContext"@.len() != "history"@.len());
    assert("userInputMessageContext"@.len() != "conversationState"@.len());
    assert("userInputMessageContext"@.len() != "profileArn"@.len());
    assert("status"@.len() != "toolUseId"@.len());
    assert("status"@.len() != "name"@.len());
    assert("status"@.len() != "input"@.len());
    assert("status"@.len() != "toolUses"@.len());
    assert("status"@.len() != "tools"@.len());
    assert("status"@.len() != "toolResults"@.len());
    assert("status"@.len() != "description"@.len());
    assert("status"@.len() != "inputSchema"@.len());
    assert("status"@.len() != "chatTriggerType"@.len());
    assert("status"@.len() != "conversationId"@.len());
    assert("status"@.len() != "currentMessage"@.len());
    assert("status"@.len() != "history"@.len());
    assert("status"@.len() != "conversationState"@.len());
    assert("status"@.len() != "profileArn"@.len());
    assert("toolUseId"@.len() != "name"@.len());
    assert("toolUseId"@.len() != "input"@.len());
    assert("toolUseId"@.len() != "toolUses"@.len());
    assert("toolUseId"@.len() != "tools"@.len());
    assert("toolUseId"@.len() != "toolResults"@.len());
    assert("toolUseId"@.len() != "description"@.len());
    assert("toolUseId"@.len() != "inputSchema"@.len());
    assert("toolUseId"@.len() != "chatTriggerType"@.len());
    assert("toolUseId"@.len() != "conversationId"@.len());
    assert("toolUseId"@.len() != "currentMessage"@.len());
    assert("toolUseId"@.len() != "history"@.len());
    assert("toolUseId"@.len() != "conversationState"@.len());
    assert("toolUseId"@.len() != "profileArn"@.len());
    assert("name"@.len() != "input"@.len());
    assert("name"@.len() != "toolUses"@.len());
    assert("name"@.len() != "tools"@.len());
    assert("name"@.len() != "toolResults"@.len());
    assert("name"@.len() != "description"@.len());
    assert("name"@.len() != "inputSchema"@.len());
    assert("name"@.len() != "chatTriggerType"@.len());
    assert("name"@.len() != "conversationId"@.len());
    assert("name"@.len() != "currentMessage"@.len());
    assert("name"@.len() != "history"@.len());
    assert("name"@.len() != "conversationState"@.len());
    assert("name"@.len() != "profileArn"@.len());
    assert("input"@.len() != "toolUses"@.len());
    assert("input"@[0] != "tools"@[0]);
    assert("input"@.len() != "toolResults"@.len());
    assert("input"@.len() != "description"@.len());
    assert("input"@.len() != "inputSchema"@.len());
    assert("input"@.len() != "chatTriggerType"@.len());
    assert("input"@.len() != "conversationId"@.len());
    assert("input"@.len() != "currentMessage"@.len());
    assert("input"@.len() != "history"@.len());
    assert("input"@.len() != "conversationState"@.len());
    assert("input"@.len() != "profileArn"@.len());
    assert("toolUses"@.len() != "tools"@.len());
    assert("toolUses"@.len() != "toolResults"@.len());
    assert("toolUses"@.len() != "description"@.len());
    assert("toolUses"@.len() != "inputSchema"@.len());
    assert("toolUses"@.len() != "chatTriggerType"@.len());
    assert("toolUses"@.len() != "conversationId"@.len());
    assert("toolUses"@.len() != "currentMessage"@.len());
    assert("toolUses"@.len() != "history"@.len());
    assert("toolUses"@.len() != "conversationState"@.len());
    assert("toolUses"@.len() != "profileArn"@.len());
    assert("tools"@.len() != "toolResults"@.len());
    assert("tools"@.len() != "description"@.len());
    assert("tools"@.len() != "inputSchema"@.len());
    assert("tools"@.len() != "chatTriggerType"@.len());
    assert("tools"@.len() != "conversationId"@.len());
    assert("tools"@.len() != "currentMessage"@.len());
    assert("tools"@.len() != "history"@.len());
    assert("tools"@.len() != "conversationState"@.len());
    assert("tools"@.len() != "profileArn"@.len());
    assert("toolResults"@[0] != "description"@[0]);
    assert("toolResults"@[0] != "inputSchema"@[0]);
    assert("toolResults"@.len() != "chatTriggerType"@.len());
    assert("toolResults"@.len() != "conversationId"@.len());
    assert("toolResults"@.len() != "currentMessage"@.len());
    assert("toolResults"@.len() != "history"@.len());
    assert("toolResults"@.len() != "conversationState"@.len());
    assert("toolResults"@.len() != "profileArn"@.len());
    assert("description"@[0] != "inputSchema"@[0]);
    assert("description"@.len() != "chatTriggerType"@.len());
    assert("description"@.len() != "conversationId"@.len());
    assert("description"@.len() != "currentMessage"@.len());
    assert("description"@.len() != "history"@.len());
    assert("description"@.len() != "conversationState"@.len());
    assert("description"@.len() != "profileArn"@.len());
    assert("inputSchema"@.len() != "chatTriggerType"@.len());
    assert("inputSchema"@.len() != "conversationId"@.len());
    assert("inputSchema"@.len() != "currentMessage"@.len());
    assert("inputSchema"@.len() != "history"@.len());
    assert("inputSchema"@.len() != "conversationState"@.len());
    assert("inputSchema"@.len() != "profileArn"@.len());
    assert("chatTriggerType"@.len() != "conversationId"@.len());
    assert("chatTriggerType"@.len() != "currentMessage"@.len());
    assert("chatTriggerType"@.len() != "history"@.len());
    assert("chatTriggerType"@.len() != "conversationState"@.len());
    assert("chatTriggerType"@.len() != "profileArn"@.len());
    assert("conversationId"@[1] != "currentMessage"@[1]);
    assert("conversationId"@.len() != "history"@.len());
    assert("conversationId"@.len() != "conversationState"@.len());
    assert("conversationId"@.len() != "profileArn"@.len());
    assert("currentMessage"@.len() != "history"@.len());
    assert("currentMessage"@.len() != "conversationState"@.len());
    assert("currentMessage"@.len() != "profileArn"@.len());
    assert("history"@.len() != "conversationState"@.len());
    assert("history"@.len() != "profileArn"@.len());
    assert("conversationState"@.len() != "profileArn"@.len());
}

/// `text`, or `otherwise` where it is empty.
pub open spec fn or_else(text: Seq<char>, otherwise: Seq<char>) -> Seq<char> {
    if text.len() > 0 {
        text
    } else {
        otherwise
    }
}

/// Whether none of the messages is a user message.
pub open spec fn no_user(messages: Seq<Message>) -> bool {
    forall|i: int| 0 <= i < messages.len() ==> (#[trigger] messages[i]).role@ != "user"@
}

/// What a user says to Kiro: the first user message has the system prompt before it.
pub open spec fn said(
    before: Seq<Message>,
    system: Seq<char>,
    text: Seq<char>,
) -> Seq<char> {
    if system.len() > 0 && no_user(before) {
        system + "\n\n"@ + text
    } else {
        text
    }
}

proof fn lemma_no_user(messages: Seq<Message>)
    ensures
        no_user(messages) == !has_user(messages),
{
}

/// Whether `u` holds the content, the model and the origin of a user message.
pub open spec fn is_input(u: JsonView, content: Seq<char>, model: Seq<char>) -> bool {
    &&& has_field(u, "content"@, JsonView::Text(content))
    &&& has_field(u, "modelId"@, JsonView::Text(model))
    &&& has_field(u, "origin"@, JsonView::Text("AI_EDITOR"@))
}

/// Whether `e` is the history entry of what a user said, and holds nothing else.
pub open spec fn is_user_entry(e: JsonView, content: Seq<char>, model: Seq<char>) -> bool {
    &&& has_names(e, set!["userInputMessage"@])
    &&& has_names(inner(e, "userInputMessage"@), set!["content"@, "modelId"@, "origin"@])
    &&& is_input(inner(e, "userInputMessage"@), content, model)
}

/// Whether `r` is the result of the tool call `id` with this text.
pub open spec fn is_result(r: JsonView, id: Seq<char>, text: Seq<char>) -> bool {
    &&& has_names(r, set!["content"@, "status"@, "toolUseId"@])
    &&& has_field(r, "status"@, JsonView::Text("success"@))
    &&& has_field(r, "toolUseId"@, JsonView::Text(id))
    &&& inner(r, "content"@) is Array
    &&& items(inner(r, "content"@)).len() == 1
    &&& has_names(items(inner(r, "content"@))[0], set!["text"@])
    &&& has_field(
        items(inner(r, "content"@))[0],
        "text"@,
        JsonView::Text(or_else(text, "(empty result)"@)),
    )
}

/// Whether `e` is the history entry of a tool's result.
pub open spec fn is_tool_entry(
    e: JsonView,
    id: Seq<char>,
    text: Seq<char>,
    model: Seq<char>,
) -> bool {
    let u = inner(e, "userInputMessage"@);
    let context = inner(u, "userInputMessageContext"@);
    &&& has_names(e, set!["userInputMessage"@])
    &&& has_names(u, set!["content"@, "modelId"@, "origin"@, "userInputMessageContext"@])
    &&& is_input(u, Seq::empty(), model)
    &&& has_names(context, set!["toolResults"@])
    &&& inner(context, "toolResults"@) is Array
    &&& items(inner(context, "toolResults"@)).len() == 1
    &&& is_result(items(inner(context, "toolResults"@))[0], id, text)
}

/// Whether `u` is the use of a tool that `call` asks for: its identifier, its name, and the input
/// that its arguments spell, or none.
pub open spec fn is_use(u: JsonView, call: ToolCall) -> bool {
    &&& has_names(u, set!["toolUseId"@, "name"@, "input"@])
    &&& has_field(u, "toolUseId"@, JsonView::Text(call.id@))
    &&& has_field(u, "name"@, JsonView::Text(call.function.name@))
    &&& parsed_json(call.function.arguments@) matches Some(v) ==> has_field(u, "input"@, v)
    &&& parsed_json(call.function.arguments@) is None ==> has_field(
        u,
        "input"@,
        JsonView::Object(Map::empty()),
    )
}

/// Whether `e` is the history entry of what the assistant said, with all its tool calls in their
/// order.
pub open spec fn is_assistant_entry(
    e: JsonView,
    text: Seq<char>,
    calls: Seq<ToolCall>,
) -> bool {
    let a = inner(e, "assistantResponseMessage"@);
    let uses = items(inner(a, "toolUses"@));
    &&& has_names(e, set!["assistantResponseMessage"@])
    &&& has_field(a, "content"@, JsonView::Text(or_else(text, "(empty placeholder)"@)))
    &&& calls.len() == 0 ==> has_names(a, set!["content"@])
    &&& calls.len() > 0 ==> {
        &&& has_names(a, set!["content"@, "toolUses"@])
        &&& inner(a, "toolUses"@) is Array
        &&& uses.len() == calls.len()
        &&& forall|i: int| 0 <= i < calls.len() ==> is_use(#[trigger] uses[i], calls[i])
    }
}

proof fn lemma_user_entry_shape(content: Seq<char>, model: Seq<char>)
    ensures
        is_user_entry(
            JsonView::Object(
                map!["userInputMessage"@ => JsonView::Object(
                    user_input(content, model),
                )],
            ),
            content,
            model,
        ),
{
    lemma_kiro_names();
    let u = user_input(content, model);
    assert(u.dom() =~= set!["content"@, "modelId"@, "origin"@]);
    let e = map!["userInputMessage"@ => JsonView::Object(u)];
    assert(e.dom() =~= set!["userInputMessage"@]);
}

proof fn lemma_result_shape(m: Message)
    ensures
        is_result(
            tool_result(m),
            answered_call(m),
            message_text(m),
        ),
{
    lemma_kiro_names();
    let r = tool_result(m)->Object_0;
    assert(r.dom() =~= set!["content"@, "status"@, "toolUseId"@]);
    assert(r["content"@]->Array_0[0]->Object_0.dom() =~= set!["text"@]);
}

proof fn lemma_assistant_shape(m: Message)
    ensures
        is_assistant_entry(
            assistant_entry(m),
            message_text(m),
            calls_of(m),
        ),
{
    lemma_kiro_names();
    let e = assistant_entry(m)->Object_0;
    let a = e["assistantResponseMessage"@]->Object_0;
    let calls = calls_of(m);
    assert(e.dom() =~= set!["assistantResponseMessage"@]);
    if calls.len() > 0 {
        assert(a.dom() =~= set!["content"@, "toolUses"@]);
        let uses = a["toolUses"@]->Array_0;
        assert forall|i: int| 0 <= i < calls.len() implies is_use(#[trigger] uses[i], calls[i]) by {
            assert(uses[i] == tool_use(calls[i]));
            assert(uses[i]->Object_0.dom() =~= set!["toolUseId"@, "name"@, "input"@]);
        }
    } else {
        assert(a.dom() =~= set!["content"@]);
    }
}

proof fn lemma_tool_entry_shape(m: Message, system: Seq<char>, first: bool, model: Seq<char>)
    requires
        m.role@ == "tool"@,
    ensures
        history_entry(m, system, first, model) matches Some(e) && is_tool_entry(
            e,
            answered_call(m),
            message_text(m),
            model,
        ),
{
    lemma_roles();
    lemma_kiro_names();
    lemma_result_shape(m);
    let e = history_entry(m, system, first, model)->0->Object_0;
    let u = e["userInputMessage"@]->Object_0;
    let context = u["userInputMessageContext"@]->Object_0;
    assert(e.dom() =~= set!["userInputMessage"@]);
    assert(u.dom() =~= set!["content"@, "modelId"@, "origin"@, "userInputMessageContext"@]);
    assert(context.dom() =~= set!["toolResults"@]);
}

/// Whether `after` is `before` with one more entry.
pub open spec fn one_more(before: Seq<JsonView>, after: Seq<JsonView>) -> bool {
    after.len() == before.len() + 1 && after.drop_last() == before
}

/// Every message goes into the history behind those before it, by its role and with its text
/// unchanged; one with an unknown role does not.
pub proof fn lemma_message_is_kept(
    messages: Seq<Message>,
    m: Message,
    system: Seq<char>,
    model: Seq<char>,
)
    ensures
        history(Seq::empty(), system, model) == Seq::<JsonView>::empty(),
        m.role@ == "user"@ ==> {
            let after = history(messages.push(m), system, model);
            one_more(history(messages, system, model), after) && is_user_entry(
                after.last(),
                said(messages, system, message_text(m)),
                model,
            )
        },
        m.role@ == "assistant"@ ==> {
            let after = history(messages.push(m), system, model);
            one_more(history(messages, system, model), after) && is_assistant_entry(
                after.last(),
                message_text(m),
                calls_of(m),
            )
        },
        m.role@ == "tool"@ ==> {
            let after = history(messages.push(m), system, model);
            one_more(history(messages, system, model), after) && is_tool_entry(
                after.last(),
                answered_call(m),
                message_text(m),
                model,
            )
        },
        m.role@ != "user"@ && m.role@ != "assistant"@ && m.role@ != "tool"@ ==> history(
            messages.push(m),
            system,
            model,
        ) == history(messages, system, model),
{
    lemma_roles();
    lemma_no_user(messages);
    assert(messages.push(m).drop_last() =~= messages);
    let before = history(messages, system, model);
    let after = history(messages.push(m), system, model);
    if m.role@ == "user"@ {
        lemma_user_entry_shape(said(messages, system, message_text(m)), model);
        assert(after.drop_last() =~= before);
    } else if m.role@ == "assistant"@ {
        lemma_assistant_shape(m);
        assert(after.drop_last() =~= before);
    } else if m.role@ == "tool"@ {
        lemma_tool_entry_shape(m, system, !has_user(messages), model);
        assert(after.drop_last() =~= before);
    }
}

/// What Kiro is asked to answer, by the last message: what a user said, a tool's result, or to
/// continue after the assistant, whose words then end the history. Without messages Kiro is
/// greeted. All other messages are the history.
pub proof fn lemma_last_message_counts(
    messages: Seq<Message>,
    m: Message,
    system: Seq<char>,
    model: Seq<char>,
)
    ensures
        kiro_conversation(Seq::empty(), system, model).0 == (if system.len() > 0 {
            system + "\n\n"@ + "Hello"@
        } else {
            "Hello"@
        }),
        kiro_conversation(Seq::empty(), system, model).1.len() == 0,
        kiro_conversation(Seq::empty(), system, model).2.len() == 0,
        m.role@ == "assistant"@ ==> {
            let (content, results, entries) = kiro_conversation(messages.push(m), system, model);
            &&& content == "Continue"@
            &&& results.len() == 0
            &&& one_more(history(messages, system, model), entries)
            &&& is_assistant_entry(entries.last(), message_text(m), calls_of(m))
        },
        m.role@ == "tool"@ ==> {
            let (content, results, entries) = kiro_conversation(messages.push(m), system, model);
            &&& content.len() == 0
            &&& results.len() == 1
            &&& is_result(results[0], answered_call(m), message_text(m))
            &&& entries == history(messages, system, model)
        },
        m.role@ != "assistant"@ && m.role@ != "tool"@ ==> {
            let (content, results, entries) = kiro_conversation(messages.push(m), system, model);
            &&& content == said(messages, system, message_text(m))
            &&& results.len() == 0
            &&& entries == history(messages, system, model)
        },
{
    lemma_roles();
    lemma_no_user(messages);
    assert(messages.push(m).drop_last() =~= messages);
    lemma_assistant_shape(m);
    lemma_result_shape(m);
    let (content, results, entries) = kiro_conversation(messages.push(m), system, model);
    if m.role@ == "assistant"@ {
        assert(entries.drop_last() =~= history(messages, system, model));
    }
}

/// Every message but a system message is part of the conversation, in its place.
pub proof fn lemma_conversation_keeps_messages(messages: Seq<Message>, m: Message)
    ensures
        conversation(Seq::empty()) == Seq::<Message>::empty(),
        m.role@ == "system"@ ==> conversation(messages.push(m)) == conversation(messages),
        m.role@ != "system"@ ==> conversation(messages.push(m)) == conversation(messages).push(m),
{
    reveal(Seq::filter);
    assert(messages.push(m).drop_last() =~= messages);
    assert(conversation(Seq::empty()) =~= Seq::<Message>::empty());
}

/// Whether `p` is a request to Kiro with these parts and no others.
pub open spec fn is_payload(
    p: JsonView,
    model: Seq<char>,
    profile_arn: Seq<char>,
    conversation_id: Seq<char>,
    content: Seq<char>,
    results: Seq<JsonView>,
    entries: Seq<JsonView>,
    tools: Seq<JsonView>,
) -> bool {
    let state = inner(p, "conversationState"@);
    let current = inner(state, "currentMessage"@);
    let u = inner(current, "userInputMessage"@);
    let context = inner(u, "userInputMessageContext"@);
    &&& profile_arn.len() == 0 ==> has_names(p, set!["conversationState"@])
    &&& profile_arn.len() > 0 ==> has_names(p, set!["conversationState"@, "profileArn"@])
        && has_field(p, "profileArn"@, JsonView::Text(profile_arn))
    &&& has_field(state, "chatTriggerType"@, JsonView::Text("MANUAL"@))
    &&& has_field(state, "conversationId"@, JsonView::Text(conversation_id))
    &&& entries.len() == 0 ==> has_names(
        state,
        set!["chatTriggerType"@, "conversationId"@, "currentMessage"@],
    )
    &&& entries.len() > 0 ==> has_names(
        state,
        set!["chatTriggerType"@, "conversationId"@, "currentMessage"@, "history"@],
    ) && has_field(state, "history"@, JsonView::Array(entries))
    &&& has_names(current, set!["userInputMessage"@])
    &&& is_input(u, content, model)
    &&& results.len() == 0 && tools.len() == 0 ==> has_names(
        u,
        set!["content"@, "modelId"@, "origin"@],
    )
    &&& results.len() > 0 || tools.len() > 0 ==> {
        &&& has_names(u, set!["content"@, "modelId"@, "origin"@, "userInputMessageContext"@])
        &&& tools.len() > 0 ==> has_field(context, "tools"@, JsonView::Array(tools))
        &&& results.len() > 0 ==> has_field(context, "toolResults"@, JsonView::Array(results))
        &&& context is Object
        &&& context->Object_0.contains_key("tools"@) == (tools.len() > 0)
        &&& context->Object_0.contains_key("toolResults"@) == (results.len() > 0)
    }
}

/// A request to Kiro holds all that was made of the chat request: the whole history, all tool
/// results and all tools.
pub proof fn lemma_payload_holds_all(
    request: ChatRequest,
    model: Seq<char>,
    profile_arn: Seq<char>,
    conversation_id: Seq<char>,
)
    ensures
        ({
            let (content, results, entries) = kiro_conversation(
                conversation(request.messages@),
                system_prompt(request.messages@),
                model,
            );
            is_payload(
                chat_payload(request, model, profile_arn, conversation_id),
                model,
                profile_arn,
                conversation_id,
                content,
                results,
                entries,
                kiro_tools(request.tools),
            )
        }),
{
    lemma_kiro_names();
    let (content, results, entries) = kiro_conversation(
        conversation(request.messages@),
        system_prompt(request.messages@),
        model,
    );
    let tools = kiro_tools(request.tools);
    let p = chat_payload(request, model, profile_arn, conversation_id)->Object_0;
    let state = p["conversationState"@]->Object_0;
    let current = state["currentMessage"@]->Object_0;
    let u = current["userInputMessage"@]->Object_0;
    let context = user_context(tools, results);
    if profile_arn.len() > 0 {
        assert(p.dom() =~= set!["conversationState"@, "profileArn"@]);
    } else {
        assert(p.dom() =~= set!["conversationState"@]);
    }
    if entries.len() > 0 {
        assert(state.dom() =~= set![
            "chatTriggerType"@,
            "conversationId"@,
            "currentMessage"@,
            "history"@,
        ]);
    } else {
        assert(state.dom() =~= set!["chatTriggerType"@, "conversationId"@, "currentMessage"@]);
    }
    assert(current.dom() =~= set!["userInputMessage"@]);
    if results.len() == 0 && tools.len() == 0 {
        assert(context =~= Map::<Seq<char>, JsonView>::empty());
        assert(u.dom() =~= set!["content"@, "modelId"@, "origin"@]);
    } else {
        if results.len() > 0 {
            assert(context.contains_key("toolResults"@));
        } else {
            assert(context.contains_key("tools"@));
        }
        assert(context != Map::<Seq<char>, JsonView>::empty());
        assert(u.dom() =~= set!["content"@, "modelId"@, "origin"@, "userInputMessageContext"@]);
    }
}

/// Every tool call of the assistant reaches Kiro: in the history of the request, at the place of
/// the message, with its identifier, its name and its input, in the order of the calls.
pub proof fn lemma_tool_calls_reach_kiro(
    request: ChatRequest,
    model: Seq<char>,
    profile_arn: Seq<char>,
    conversation_id: Seq<char>,
    i: int,
)
    requires
        0 <= i < conversation(request.messages@).len(),
        conversation(request.messages@)[i].role@ == "assistant"@,
    ensures
        ({
            let messages = conversation(request.messages@);
            let p = chat_payload(request, model, profile_arn, conversation_id);
            let entries = items(inner(inner(p, "conversationState"@), "history"@));
            &&& place(messages, i) < entries.len()
            &&& is_assistant_entry(
                entries[place(messages, i) as int],
                message_text(messages[i]),
                calls_of(messages[i]),
            )
        }),
{
    lemma_roles();
    lemma_payload_holds_all(request, model, profile_arn, conversation_id);
    let messages = conversation(request.messages@);
    let system = system_prompt(request.messages@);
    let before = messages.drop_last();
    lemma_assistant_shape(messages[i]);
    if i == messages.len() - 1 {
        lemma_history_len(before, system, model);
        assert(messages.take(i) =~= before);
    } else {
        assert(before[i] == messages[i]);
        lemma_history_at(before, system, model, i);
        assert(before.take(i) =~= messages.take(i));
    }
}

/// Whether `v` tells Kiro of the function `f`: its name, its description, and its schema without
/// what Kiro refuses.
pub open spec fn is_tool(v: JsonView, f: FunctionDefinition) -> bool {
    let t = inner(v, "toolSpecification"@);
    let schema = inner(t, "inputSchema"@);
    &&& has_names(v, set!["toolSpecification"@])
    &&& has_names(t, set!["name"@, "description"@, "inputSchema"@])
    &&& has_field(t, "name"@, JsonView::Text(f.name@))
    &&& f.description matches Some(d) ==> has_field(t, "description"@, JsonView::Text(d@))
    &&& f.description is None ==> has_field(
        t,
        "description"@,
        JsonView::Text("Tool: "@ + f.name@),
    )
    &&& has_names(schema, set!["json"@])
    &&& f.parameters matches Some(p) ==> has_field(schema, "json"@, sanitized(p@))
    &&& f.parameters is None ==> has_field(
        schema,
        "json"@,
        sanitized(JsonView::Object(Map::empty())),
    )
}

proof fn lemma_tool_shape(t: Tool)
    requires
        t.tool_type@ == "function"@,
        t.function is Some,
    ensures
        tool_specification(t) matches Some(v) && is_tool(v, t.function->0),
{
    lemma_kiro_names();
    let v = tool_specification(t)->0->Object_0;
    let s = v["toolSpecification"@]->Object_0;
    assert(v.dom() =~= set!["toolSpecification"@]);
    assert(s.dom() =~= set!["name"@, "description"@, "inputSchema"@]);
    assert(s["inputSchema"@]->Object_0.dom() =~= set!["json"@]);
}

proof fn lemma_tools_one_by_one(tools: Seq<Tool>)
    ensures
        tools.filter_map(|t: Tool| tool_specification(t)).len() == function_tools(tools).len(),
        forall|i: int|
            0 <= i < function_tools(tools).len() ==> is_tool(
                tools.filter_map(|t: Tool| tool_specification(t))[i],
                (#[trigger] function_tools(tools)[i]).function->0,
            ),
    decreases tools.len(),
{
    reveal(Seq::filter);
    if tools.len() > 0 {
        lemma_tools_one_by_one(tools.drop_last());
        let t = tools.last();
        let told = tools.filter_map(|t: Tool| tool_specification(t));
        let before = tools.drop_last().filter_map(|t: Tool| tool_specification(t));
        if t.tool_type@ == "function"@ && t.function is Some {
            lemma_tool_shape(t);
            let functions = function_tools(tools);
            assert(functions == function_tools(tools.drop_last()).push(t));
            assert forall|i: int| 0 <= i < functions.len() implies is_tool(
                told[i],
                (#[trigger] functions[i]).function->0,
            ) by {
                if i < before.len() {
                    assert(told[i] == before[i]);
                }
            }
        }
    }
}

/// Kiro is told of every function tool of a request, in their order, and of no other.
pub proof fn lemma_all_tools_reach_kiro(tools: Option<Vec<Tool>>)
    ensures
        kiro_tools(tools).len() == offered(tools).len(),
        forall|i: int|
            0 <= i < offered(tools).len() ==> is_tool(
                #[trigger] kiro_tools(tools)[i],
                offered(tools)[i].function->0,
            ),
{
    if let Some(t) = tools {
        lemma_tools_one_by_one(t@);
    }
}

/// A sanitized object keeps every field but `additionalProperties` and a `required` that lists
/// nothing, and what it keeps it sanitizes in turn.
pub proof fn lemma_only_two_fields_go(m: Map<Seq<char>, JsonView>, k: Seq<char>)
    ensures
        sanitized(JsonView::Object(m)) is Object,
        m.contains_key(k) && k != "additionalProperties"@ && !(k == "required"@ && m[k]
            == JsonView::Array(Seq::empty())) ==> has_field(
            sanitized(JsonView::Object(m)),
            k,
            sanitized(m[k]),
        ),
        !m.contains_key(k) || k == "additionalProperties"@ || (k == "required"@ && m[k]
            == JsonView::Array(Seq::empty())) ==> !sanitized(
            JsonView::Object(m),
        )->Object_0.contains_key(k),
{
}

/// A list keeps all its items, each of them sanitized; what is neither list nor object stays.
pub proof fn lemma_other_schemas_stay(
    list: Seq<JsonView>,
    t: Seq<char>,
    b: bool,
    n: serde_json::Number,
)
    ensures
        sanitized(JsonView::Array(list)) is Array,
        items(sanitized(JsonView::Array(list))).len() == list.len(),
        forall|i: int|
            0 <= i < list.len() ==> #[trigger] items(sanitized(JsonView::Array(list)))[i]
                == sanitized(list[i]),
        sanitized(JsonView::Text(t)) == JsonView::Text(t),
        sanitized(JsonView::Bool(b)) == JsonView::Bool(b),
        sanitized(JsonView::Number(n)) == JsonView::Number(n),
        sanitized(JsonView::Null) == JsonView::Null,
{
}

/// An empty content is replaced, and the prompt stands before the first message alone.
pub proof fn lemma_helpers_of_messages(content: Seq<char>, default: Seq<char>, system: Seq<char>)
    ensures
        normalized(content, default) == or_else(
            content,
            default,
        ),
        system.len() > 0 ==> prepended(
            true,
            system,
            content,
        ) == system + "\n\n"@ + content,
        prepended(false, system, content) == content,
        prepended(true, Seq::empty(), content) == content,
{
}

/// The last message adds to any history what the assistant said, and nothing else; a tool's
/// result is handed over as such, and what anyone else said is the content.
pub proof fn lemma_current_message_counts(
    m: Message,
    system: Seq<char>,
    first: bool,
    entries: Seq<JsonView>,
)
    ensures
        m.role@ == "assistant"@ ==> {
            &&& current_content(m, system, first) == "Continue"@
            &&& current_results(m).len() == 0
            &&& one_more(entries, history_with_last(m, entries))
            &&& is_assistant_entry(
                history_with_last(m, entries).last(),
                message_text(m),
                calls_of(m),
            )
        },
        m.role@ == "tool"@ ==> {
            &&& current_content(m, system, first).len() == 0
            &&& current_results(m).len() == 1
            &&& is_result(current_results(m)[0], answered_call(m), message_text(m))
            &&& history_with_last(m, entries) == entries
        },
        m.role@ != "assistant"@ && m.role@ != "tool"@ ==> {
            &&& current_content(m, system, first) == if first && system.len() > 0 {
                system + "\n\n"@ + message_text(m)
            } else {
                message_text(m)
            }
            &&& current_results(m).len() == 0
            &&& history_with_last(m, entries) == entries
        },
{
    lemma_roles();
    lemma_assistant_shape(m);
    lemma_result_shape(m);
    if m.role@ == "assistant"@ {
        assert(history_with_last(m, entries).drop_last() =~= entries);
    }
}

} // verus!
