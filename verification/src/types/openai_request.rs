//! The chat request of the OpenAI API.
use vstd::prelude::*;

use crate::json::{json_view, Json, JsonView};

verus! {

/// A chat request.
#[derive(Debug)]
pub struct ChatRequest {
    pub model: String,
    pub messages: Vec<Message>,
    pub stream: bool,
    pub temperature: Option<serde_json::Number>,
    pub max_tokens: Option<u64>,
    pub tools: Option<Vec<Tool>>,
}

/// One message of the conversation.
#[derive(Debug)]
pub struct Message {
    pub role: String,
    pub content: Option<Json>,
    pub tool_calls: Option<Vec<ToolCall>>,
    pub tool_call_id: Option<String>,
}

/// A tool call that the assistant made.
#[derive(Debug)]
pub struct ToolCall {
    pub id: String,
    pub function: FunctionCall,
}

/// The function that a tool call names, with its arguments as JSON text.
#[derive(Debug)]
pub struct FunctionCall {
    pub name: String,
    pub arguments: String,
}

/// A tool that the assistant may call.
#[derive(Debug)]
pub struct Tool {
    pub tool_type: String,
    pub function: Option<FunctionDefinition>,
}

/// A function that the assistant may call; `parameters` is the JSON schema of its arguments.
#[derive(Debug)]
pub struct FunctionDefinition {
    pub name: String,
    pub description: Option<String>,
    pub parameters: Option<Json>,
}

/// The model of a message's content.
pub open spec fn content_view(m: Message) -> Option<JsonView> {
    match m.content {
        Some(j) => Some(json_view(j)),
        None => None,
    }
}

/// The id of the tool call that a message answers; empty where it names none.
pub open spec fn answered_call(m: Message) -> Seq<char> {
    match m.tool_call_id {
        Some(id) => id@,
        None => Seq::empty(),
    }
}

/// The tool calls of a message.
pub open spec fn calls_of(m: Message) -> Seq<ToolCall> {
    match m.tool_calls {
        Some(c) => c@,
        None => Seq::empty(),
    }
}

/// The tools that are functions.
pub open spec fn function_tools(tools: Seq<Tool>) -> Seq<Tool> {
    tools.filter(|t: Tool| t.tool_type@ == "function"@ && t.function is Some)
}

/// The function tools of a request.
pub open spec fn offered(tools: Option<Vec<Tool>>) -> Seq<Tool> {
    match tools {
        Some(t) => function_tools(t@),
        None => Seq::empty(),
    }
}

impl Message {
    /// Whether the message has the role `role`.
    pub fn has_role(&self, role: &str) -> (r: bool)
        ensures
            r == (self.role@ == role@),
    {
        crate::text::text_eq(self.role.as_str(), role)
    }

    /// The id of the tool call that this message answers; empty where it names none.
    pub fn answered_call(&self) -> (r: String)
        ensures
            r@ == answered_call(*self),
            self.tool_call_id matches Some(id) ==> r@ == id@,
            self.tool_call_id is None ==> r@.len() == 0,
    {
        match &self.tool_call_id {
            Some(id) => id.clone(),
            None => String::new(),
        }
    }
}

/// A message answers the call that it names.
pub proof fn lemma_named_call_is_answered(m: Message)
    ensures
        m.tool_call_id matches Some(id) ==> answered_call(m) == id@,
        m.tool_call_id is None ==> answered_call(m).len() == 0,
{
}

} // verus!
