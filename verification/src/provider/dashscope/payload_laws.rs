//! What reaches DashScope of a chat request, said of the JSON itself.
use vstd::prelude::*;

use crate::json::bridge::{display_text, parsed_json, unsigned_number};
use crate::json::{has_field, has_names, inner, items, JsonView};
use crate::provider::content::{lemma_roles, message_text, system_prompt};
use crate::provider::dashscope::request_builder::{
    anthropic_messages, anthropic_payload, anthropic_tool, anthropic_tools, assistant_blocks,
    dashscope_headers, image_url, is_tool_result, media_type, takes_results, text_block_json,
    tool_result_block, tool_use_block, turn_json, turns_of, user_block, user_content, Speaker,
    TurnView,
};
use crate::text::{lemma_split, lemma_trimming};
use crate::types::openai_request::{
    answered_call, calls_of, function_tools, offered, ChatRequest, FunctionDefinition, Message,
    Tool, ToolCall,
};

verus! {

/// The names of a request's fields differ.
pub proof fn lemma_anthropic_names()
    ensures
        "type"@ != "text"@,
        "type"@ != "id"@,
        "type"@ != "name"@,
        "type"@ != "input"@,
        "type"@ != "tool_use_id"@,
        "type"@ != "content"@,
        "type"@ != "role"@,
        "type"@ != "source"@,
        "type"@ != "media_type"@,
        "type"@ != "data"@,
        "type"@ != "url"@,
        "type"@ != "description"@,
        "type"@ != "input_schema"@,
        "type"@ != "properties"@,
        "type"@ != "model"@,
        "type"@ != "messages"@,
        "type"@ != "stream"@,
        "type"@ != "max_tokens"@,
        "type"@ != "system"@,
        "type"@ != "temperature"@,
        "type"@ != "tools"@,
        "text"@ != "id"@,
        "text"@ != "name"@,
        "text"@ != "input"@,
        "text"@ != "tool_use_id"@,
        "text"@ != "content"@,
        "text"@ != "role"@,
        "text"@ != "source"@,
        "text"@ != "media_type"@,
        "text"@ != "data"@,
        "text"@ != "url"@,
        "text"@ != "description"@,
        "text"@ != "input_schema"@,
        "text"@ != "properties"@,
        "text"@ != "model"@,
        "text"@ != "messages"@,
        "text"@ != "stream"@,
        "text"@ != "max_tokens"@,
        "text"@ != "system"@,
        "text"@ != "temperature"@,
        "text"@ != "tools"@,
        "id"@ != "name"@,
        "id"@ != "input"@,
        "id"@ != "tool_use_id"@,
        "id"@ != "content"@,
        "id"@ != "role"@,
        "id"@ != "source"@,
        "id"@ != "media_type"@,
        "id"@ != "data"@,
        "id"@ != "url"@,
        "id"@ != "description"@,
        "id"@ != "input_schema"@,
        "id"@ != "properties"@,
        "id"@ != "model"@,
        "id"@ != "messages"@,
        "id"@ != "stream"@,
        "id"@ != "max_tokens"@,
        "id"@ != "system"@,
        "id"@ != "temperature"@,
        "id"@ != "tools"@,
        "name"@ != "input"@,
        "name"@ != "tool_use_id"@,
        "name"@ != "content"@,
        "name"@ != "role"@,
        "name"@ != "source"@,
        "name"@ != "media_type"@,
        "name"@ != "data"@,
        "name"@ != "url"@,
        "name"@ != "description"@,
        "name"@ != "input_schema"@,
        "name"@ != "properties"@,
        "name"@ != "model"@,
        "name"@ != "messages"@,
        "name"@ != "stream"@,
        "name"@ != "max_tokens"@,
        "name"@ != "system"@,
        "name"@ != "temperature"@,
        "name"@ != "tools"@,
        "input"@ != "tool_use_id"@,
        "input"@ != "content"@,
        "input"@ != "role"@,
        "input"@ != "source"@,
        "input"@ != "media_type"@,
        "input"@ != "data"@,
        "input"@ != "url"@,
        "input"@ != "description"@,
        "input"@ != "input_schema"@,
        "input"@ != "properties"@,
        "input"@ != "model"@,
        "input"@ != "messages"@,
        "input"@ != "stream"@,
        "input"@ != "max_tokens"@,
        "input"@ != "system"@,
        "input"@ != "temperature"@,
        "input"@ != "tools"@,
        "tool_use_id"@ != "content"@,
        "tool_use_id"@ != "role"@,
        "tool_use_id"@ != "source"@,
        "tool_use_id"@ != "media_type"@,
        "tool_use_id"@ != "data"@,
        "tool_use_id"@ != "url"@,
        "tool_use_id"@ != "description"@,
        "tool_use_id"@ != "input_schema"@,
        "tool_use_id"@ != "properties"@,
        "tool_use_id"@ != "model"@,
        "tool_use_id"@ != "messages"@,
        "tool_use_id"@ != "stream"@,
        "tool_use_id"@ != "max_tokens"@,
        "tool_use_id"@ != "system"@,
        "tool_use_id"@ != "temperature"@,
        "tool_use_id"@ != "tools"@,
        "content"@ != "role"@,
        "content"@ != "source"@,
        "content"@ != "media_type"@,
        "content"@ != "data"@,
        "content"@ != "url"@,
        "content"@ != "description"@,
        "content"@ != "input_schema"@,
        "content"@ != "properties"@,
        "content"@ != "model"@,
        "content"@ != "messages"@,
        "content"@ != "stream"@,
        "content"@ != "max_tokens"@,
        "content"@ != "system"@,
        "content"@ != "temperature"@,
        "content"@ != "tools"@,
        "role"@ != "source"@,
        "role"@ != "media_type"@,
        "role"@ != "data"@,
        "role"@ != "url"@,
        "role"@ != "description"@,
        "role"@ != "input_schema"@,
        "role"@ != "properties"@,
        "role"@ != "model"@,
        "role"@ != "messages"@,
        "role"@ != "stream"@,
        "role"@ != "max_tokens"@,
        "role"@ != "system"@,
        "role"@ != "temperature"@,
        "role"@ != "tools"@,
        "source"@ != "media_type"@,
        "source"@ != "data"@,
        "source"@ != "url"@,
        "source"@ != "description"@,
        "source"@ != "input_schema"@,
        "source"@ != "properties"@,
        "source"@ != "model"@,
        "source"@ != "messages"@,
        "source"@ != "stream"@,
        "source"@ != "max_tokens"@,
        "source"@ != "system"@,
        "source"@ != "temperature"@,
        "source"@ != "tools"@,
        "media_type"@ != "data"@,
        "media_type"@ != "url"@,
        "media_type"@ != "description"@,
        "media_type"@ != "input_schema"@,
        "media_type"@ != "properties"@,
        "media_type"@ != "model"@,
        "media_type"@ != "messages"@,
        "media_type"@ != "stream"@,
        "media_type"@ != "max_tokens"@,
        "media_type"@ != "system"@,
        "media_type"@ != "temperature"@,
        "media_type"@ != "tools"@,
        "data"@ != "url"@,
        "data"@ != "description"@,
        "data"@ != "input_schema"@,
        "data"@ != "properties"@,
        "data"@ != "model"@,
        "data"@ != "messages"@,
        "data"@ != "stream"@,
        "data"@ != "max_tokens"@,
        "data"@ != "system"@,
        "data"@ != "temperature"@,
        "data"@ != "tools"@,
        "url"@ != "description"@,
        "url"@ != "input_schema"@,
        "url"@ != "properties"@,
        "url"@ != "model"@,
        "url"@ != "messages"@,
        "url"@ != "stream"@,
        "url"@ != "max_tokens"@,
        "url"@ != "system"@,
        "url"@ != "temperature"@,
        "url"@ != "tools"@,
        "description"@ != "input_schema"@,
        "description"@ != "properties"@,
        "description"@ != "model"@,
        "description"@ != "messages"@,
        "description"@ != "stream"@,
        "description"@ != "max_tokens"@,
        "description"@ != "system"@,
        "description"@ != "temperature"@,
        "description"@ != "tools"@,
        "input_schema"@ != "properties"@,
        "input_schema"@ != "model"@,
        "input_schema"@ != "messages"@,
        "input_schema"@ != "stream"@,
        "input_schema"@ != "max_tokens"@,
        "input_schema"@ != "system"@,
        "input_schema"@ != "temperature"@,
        "input_schema"@ != "tools"@,
        "properties"@ != "model"@,
        "properties"@ != "messages"@,
        "properties"@ != "stream"@,
        "properties"@ != "max_tokens"@,
        "properties"@ != "system"@,
        "properties"@ != "temperature"@,
        "properties"@ != "tools"@,
        "model"@ != "messages"@,
        "model"@ != "stream"@,
        "model"@ != "max_tokens"@,
        "model"@ != "system"@,
        "model"@ != "temperature"@,
        "model"@ != "tools"@,
        "messages"@ != "stream"@,
        "messages"@ != "max_tokens"@,
        "messages"@ != "system"@,
        "messages"@ != "temperature"@,
        "messages"@ != "tools"@,
        "stream"@ != "max_tokens"@,
        "stream"@ != "system"@,
        "stream"@ != "temperature"@,
        "stream"@ != "tools"@,
        "max_tokens"@ != "system"@,
        "max_tokens"@ != "temperature"@,
        "max_tokens"@ != "tools"@,
        "system"@ != "temperature"@,
        "system"@ != "tools"@,
        "temperature"@ != "tools"@,
{
    reveal_strlit("type");
    reveal_strlit("text");
    reveal_strlit("id");
    reveal_strlit("name");
    reveal_strlit("input");
    reveal_strlit("tool_use_id");
    reveal_strlit("content");
    reveal_strlit("role");
    reveal_strlit("source");
    reveal_strlit("media_type");
    reveal_strlit("data");
    reveal_strlit("url");
    reveal_strlit("description");
    reveal_strlit("input_schema");
    reveal_strlit("properties");
    reveal_strlit("model");
    reveal_strlit("messages");
    reveal_strlit("stream");
    reveal_strlit("max_tokens");
    reveal_strlit("system");
    reveal_strlit("temperature");
    reveal_strlit("tools");
    assert("type"@[1] != "text"@[1]);
    assert("type"@.len() != "id"@.len());
    assert("type"@[0] != "name"@[0]);
    assert("type"@.len() != "input"@.len());
    assert("type"@.len() != "tool_use_id"@.len());
    assert("type"@.len() != "content"@.len());
    assert("type"@[0] != "role"@[0]);
    assert("type"@.len() != "source"@.len());
    assert("type"@.len() != "media_type"@.len());
    assert("type"@[0] != "data"@[0]);
    assert("type"@.len() != "url"@.len());
    assert("type"@.len() != "description"@.len());
    assert("type"@.len() != "input_schema"@.len());
    assert("type"@.len() != "properties"@.len());
    assert("type"@.len() != "model"@.len());
    assert("type"@.len() != "messages"@.len());
    assert("type"@.len() != "stream"@.len());
    assert("type"@.len() != "max_tokens"@.len());
    assert("type"@.len() != "system"@.len());
    assert("type"@.len() != "temperature"@.len());
    assert("type"@.len() != "tools"@.len());
    assert("text"@.len() != "id"@.len());
    assert("text"@[0] != "name"@[0]);
    assert("text"@.len() != "input"@.len());
    assert("text"@.len() != "tool_use_id"@.len());
    assert("text"@.len() != "content"@.len());
    assert("text"@[0] != "role"@[0]);
    assert("text"@.len() != "source"@.len());
    assert("text"@.len() != "media_type"@.len());
    assert("text"@[0] != "data"@[0]);
    assert("text"@.len() != "url"@.len());
    assert("text"@.len() != "description"@.len());
    assert("text"@.len() != "input_schema"@.len());
    assert("text"@.len() != "properties"@.len());
    assert("text"@.len() != "model"@.len());
    assert("text"@.len() != "messages"@.len());
    assert("text"@.len() != "stream"@.len());
    assert("text"@.len() != "max_tokens"@.len());
    assert("text"@.len() != "system"@.len());
    assert("text"@.len() != "temperature"@.len());
    assert("text"@.len() != "tools"@.len());
    assert("id"@.len() != "name"@.len());
    assert("id"@.len() != "input"@.len());
    assert("id"@.len() != "tool_use_id"@.len());
    assert("id"@.len() != "content"@.len());
    assert("id"@.len() != "role"@.len());
    assert("id"@.len() != "source"@.len());
    assert("id"@.len() != "media_type"@.len());
    assert("id"@.len() != "data"@.len());
    assert("id"@.len() != "url"@.len());
    assert("id"@.len() != "description"@.len());
    assert("id"@.len() != "input_schema"@.len());
    assert("id"@.len() != "properties"@.len());
    assert("id"@.len() != "model"@.len());
    assert("id"@.len() != "messages"@.len());
    assert("id"@.len() != "stream"@.len());
    assert("id"@.len() != "max_tokens"@.len());
    assert("id"@.len() != "system"@.len());
    assert("id"@.len() != "temperature"@.len());
    assert("id"@.len() != "tools"@.len());
    assert("name"@.len() != "input"@.len());
    assert("name"@.len() != "tool_use_id"@.len());
    assert("name"@.len() != "content"@.len());
    assert("name"@[0] != "role"@[0]);
    assert("name"@.len() != "source"@.len());
    assert("name"@.len() != "media_type"@.len());
    assert("name"@[0] != "data"@[0]);
    assert("name"@.len() != "url"@.len());
    assert("name"@.len() != "description"@.len());
    assert("name"@.len() != "input_schema"@.len());
    assert("name"@.len() != "properties"@.len());
    assert("name"@.len() != "model"@.len());
    assert("name"@.len() != "messages"@.len());
    assert("name"@.len() != "stream"@.len());
    assert("name"@.len() != "max_tokens"@.len());
    assert("name"@.len() != "system"@.len());
    assert("name"@.len() != "temperature"@.len());
    assert("name"@.len() != "tools"@.len());
    assert("input"@.len() != "tool_use_id"@.len());
    assert("input"@.len() != "content"@.len());
    assert("input"@.len() != "role"@.len());
    assert("input"@.len() != "source"@.len());
    assert("input"@.len() != "media_type"@.len());
    assert("input"@.len() != "data"@.len());
    assert("input"@.len() != "url"@.len());
    assert("input"@.len() != "description"@.len());
    assert("input"@.len() != "input_schema"@.len());
    assert("input"@.len() != "properties"@.len());
    assert("input"@[0] != "model"@[0]);
    assert("input"@.len() != "messages"@.len());
    assert("input"@.len() != "stream"@.len());
    assert("input"@.len() != "max_tokens"@.len());
    assert("input"@.len() != "system"@.len());
    assert("input"@.len() != "temperature"@.len());
    assert("input"@[0] != "tools"@[0]);
    assert("tool_use_id"@.len() != "content"@.len());
    assert("tool_use_id"@.len() != "role"@.len());
    assert("tool_use_id"@.len() != "source"@.len());
    assert("tool_use_id"@.len() != "media_type"@.len());
    assert("tool_use_id"@.len() != "data"@.len());
    assert("tool_use_id"@.len() != "url"@.len());
    assert("tool_use_id"@[0] != "description"@[0]);
    assert("tool_use_id"@.len() != "input_schema"@.len());
    assert("tool_use_id"@.len() != "properties"@.len());
    assert("tool_use_id"@.len() != "model"@.len());
    assert("tool_use_id"@.len() != "messages"@.len());
    assert("tool_use_id"@.len() != "stream"@.len());
    assert("tool_use_id"@.len() != "max_tokens"@.len());
    assert("tool_use_id"@.len() != "system"@.len());
    assert("tool_use_id"@[1] != "temperature"@[1]);
    assert("tool_use_id"@.len() != "tools"@.len());
    assert("content"@.len() != "role"@.len());
    assert("content"@.len() != "source"@.len());
    assert("content"@.len() != "media_type"@.len());
    assert("content"@.len() != "data"@.len());
    assert("content"@.len() != "url"@.len());
    assert("content"@.len() != "description"@.len());
    assert("content"@.len() != "input_schema"@.len());
    assert("content"@.len() != "properties"@.len());
    assert("content"@.len() != "model"@.len());
    assert("content"@.len() != "messages"@.len());
    assert("content"@.len() != "stream"@.len());
    assert("content"@.len() != "max_tokens"@.len());
    assert("content"@.len() != "system"@.len());
    assert("content"@.len() != "temperature"@.len());
    assert("content"@.len() != "tools"@.len());
    assert("role"@.len() != "source"@.len());
    assert("role"@.len() != "media_type"@.len());
    assert("role"@[0] != "data"@[0]);
    assert("role"@.len() != "url"@.len());
    assert("role"@.len() != "description"@.len());
    assert("role"@.len() != "input_schema"@.len());
    assert("role"@.len() != "properties"@.len());
    assert("role"@.len() != "model"@.len());
    assert("role"@.len() != "messages"@.len());
    assert("role"@.len() != "stream"@.len());
    assert("role"@.len() != "max_tokens"@.len());
    assert("role"@.len() != "system"@.len());
    assert("role"@.len() != "temperature"@.len());
    assert("role"@.len() != "tools"@.len());
    assert("source"@.len() != "media_type"@.len());
    assert("source"@.len() != "data"@.len());
    assert("source"@.len() != "url"@.len());
    assert("source"@.len() != "description"@.len());
    assert("source"@.len() != "input_schema"@.len());
    assert("source"@.len() != "properties"@.len());
    assert("source"@.len() != "model"@.len());
    assert("source"@.len() != "messages"@.len());
    assert("source"@[1] != "stream"@[1]);
    assert("source"@.len() != "max_tokens"@.len());
    assert("source"@[1] != "system"@[1]);
    assert("source"@.len() != "temperature"@.len());
    assert("source"@.len() != "tools"@.len());
    assert("media_type"@.len() != "data"@.len());
    assert("media_type"@.len() != "url"@.len());
    assert("media_type"@.len() != "description"@.len());
    assert("media_type"@.len() != "input_schema"@.len());
    assert("media_type"@[0] != "properties"@[0]);
    assert("media_type"@.len() != "model"@.len());
    assert("media_type"@.len() != "messages"@.len());
    assert("media_type"@.len() != "stream"@.len());
    assert("media_type"@[1] != "max_tokens"@[1]);
    assert("media_type"@.len() != "system"@.len());
    assert("media_type"@.len() != "temperature"@.len());
    assert("media_type"@.len() != "tools"@.len());
    assert("data"@.len() != "url"@.len());
    assert("data"@.len() != "description"@.len());
    assert("data"@.len() != "input_schema"@.len());
    assert("data"@.len() != "properties"@.len());
    assert("data"@.len() != "model"@.len());
    assert("data"@.len() != "messages"@.len());
    assert("data"@.len() != "stream"@.len());
    assert("data"@.len() != "max_tokens"@.len());
    assert("data"@.len() != "system"@.len());
    assert("data"@.len() != "temperature"@.len());
    assert("data"@.len() != "tools"@.len());
    assert("url"@.len() != "description"@.len());
    assert("url"@.len() != "input_schema"@.len());
    assert("url"@.len() != "properties"@.len());
    assert("url"@.len() != "model"@.len());
    assert("url"@.len() != "messages"@.len());
    assert("url"@.len() != "stream"@.len());
    assert("url"@.len() != "max_tokens"@.len());
    assert("url"@.len() != "system"@.len());
    assert("url"@.len() != "temperature"@.len());
    assert("url"@.len() != "tools"@.len());
    assert("description"@.len() != "input_schema"@.len());
    assert("description"@.len() != "properties"@.len());
    assert("description"@.len() != "model"@.len());
    assert("description"@.len() != "messages"@.len());
    assert("description"@.len() != "stream"@.len());
    assert("description"@.len() != "max_tokens"@.len());
    assert("description"@.len() != "system"@.len());
    assert("description"@[0] != "temperature"@[0]);
    assert("description"@.len() != "tools"@.len());
    assert("input_schema"@.len() != "properties"@.len());
    assert("input_schema"@.len() != "model"@.len());
    assert("input_schema"@.len() != "messages"@.len());
    assert("input_schema"@.len() != "stream"@.len());
    assert("input_schema"@.len() != "max_tokens"@.len());
    assert("input_schema"@.len() != "system"@.len());
    assert("input_schema"@.len() != "temperature"@.len());
    assert("input_schema"@.len() != "tools"@.len());
    assert("properties"@.len() != "model"@.len());
    assert("properties"@.len() != "messages"@.len());
    assert("properties"@.len() != "stream"@.len());
    assert("properties"@[0] != "max_tokens"@[0]);
    assert("properties"@.len() != "system"@.len());
    assert("properties"@.len() != "temperature"@.len());
    assert("properties"@.len() != "tools"@.len());
    assert("model"@.len() != "messages"@.len());
    assert("model"@.len() != "stream"@.len());
    assert("model"@.len() != "max_tokens"@.len());
    assert("model"@.len() != "system"@.len());
    assert("model"@.len() != "temperature"@.len());
    assert("model"@[0] != "tools"@[0]);
    assert("messages"@.len() != "stream"@.len());
    assert("messages"@.len() != "max_tokens"@.len());
    assert("messages"@.len() != "system"@.len());
    assert("messages"@.len() != "temperature"@.len());
    assert("messages"@.len() != "tools"@.len());
    assert("stream"@.len() != "max_tokens"@.len());
    assert("stream"@[1] != "system"@[1]);
    assert("stream"@.len() != "temperature"@.len());
    assert("stream"@.len() != "tools"@.len());
    assert("max_tokens"@.len() != "system"@.len());
    assert("max_tokens"@.len() != "temperature"@.len());
    assert("max_tokens"@.len() != "tools"@.len());
    assert("system"@.len() != "temperature"@.len());
    assert("system"@.len() != "tools"@.len());
    assert("temperature"@.len() != "tools"@.len());
}

/// The names of the headers differ.
pub proof fn lemma_header_names()
    ensures
        "x-api-key"@ != "anthropic-version"@,
        "x-api-key"@ != "anthropic-beta"@,
        "x-api-key"@ != "user-agent"@,
        "x-api-key"@ != "content-type"@,
        "anthropic-version"@ != "anthropic-beta"@,
        "anthropic-version"@ != "user-agent"@,
        "anthropic-version"@ != "content-type"@,
        "anthropic-beta"@ != "user-agent"@,
        "anthropic-beta"@ != "content-type"@,
        "user-agent"@ != "content-type"@,
{
    reveal_strlit("x-api-key");
    reveal_strlit("anthropic-version");
    reveal_strlit("anthropic-beta");
    reveal_strlit("user-agent");
    reveal_strlit("content-type");
    assert("x-api-key"@.len() != "anthropic-version"@.len());
    assert("x-api-key"@.len() != "anthropic-beta"@.len());
    assert("x-api-key"@.len() != "user-agent"@.len());
    assert("x-api-key"@.len() != "content-type"@.len());
    assert("anthropic-version"@.len() != "anthropic-beta"@.len());
    assert("anthropic-version"@.len() != "user-agent"@.len());
    assert("anthropic-version"@.len() != "content-type"@.len());
    assert("anthropic-beta"@.len() != "user-agent"@.len());
    assert("anthropic-beta"@.len() != "content-type"@.len());
    assert("user-agent"@.len() != "content-type"@.len());
}

/// The kinds of blocks of a user differ.
pub proof fn lemma_kinds()
    ensures
        "text"@ != "image_url"@,
{
    reveal_strlit("text");
    reveal_strlit("image_url");
    assert("text"@.len() != "image_url"@.len());
}

/// Whether `v` is a message with this role and this content.
pub open spec fn is_turn(v: JsonView, role: Seq<char>, content: JsonView) -> bool {
    &&& has_names(v, set!["role"@, "content"@])
    &&& has_field(v, "role"@, JsonView::Text(role))
    &&& has_field(v, "content"@, content)
}

/// Every message is written with its role and its content, in its place.
pub proof fn lemma_turns_are_written(messages: Seq<Message>, i: int)
    requires
        0 <= i < turns_of(messages).len(),
    ensures
        anthropic_messages(messages).len() == turns_of(messages).len(),
        turns_of(messages)[i].speaker == Speaker::User ==> is_turn(
            anthropic_messages(messages)[i],
            "user"@,
            turns_of(messages)[i].content,
        ),
        turns_of(messages)[i].speaker == Speaker::Assistant ==> is_turn(
            anthropic_messages(messages)[i],
            "assistant"@,
            turns_of(messages)[i].content,
        ),
{
    lemma_anthropic_names();
    let v = turn_json(turns_of(messages)[i])->Object_0;
    assert(v.dom() =~= set!["role"@, "content"@]);
}

/// Whether `v` is a block of text.
pub open spec fn is_text(v: JsonView, t: Seq<char>) -> bool {
    &&& has_names(v, set!["type"@, "text"@])
    &&& has_field(v, "type"@, JsonView::Text("text"@))
    &&& has_field(v, "text"@, JsonView::Text(t))
}

/// Whether `v` is the block of a tool call: its identifier, its name, and the input that its
/// arguments spell, or none.
pub open spec fn is_use(v: JsonView, call: ToolCall) -> bool {
    &&& has_names(v, set!["type"@, "id"@, "name"@, "input"@])
    &&& has_field(v, "type"@, JsonView::Text("tool_use"@))
    &&& has_field(v, "id"@, JsonView::Text(call.id@))
    &&& has_field(v, "name"@, JsonView::Text(call.function.name@))
    &&& parsed_json(call.function.arguments@) matches Some(j) ==> has_field(v, "input"@, j)
    &&& parsed_json(call.function.arguments@) is None ==> has_field(
        v,
        "input"@,
        JsonView::Object(Map::empty()),
    )
}

/// Whether `v` is the block of a tool's result.
pub open spec fn is_result(v: JsonView, id: Seq<char>, text: Seq<char>) -> bool {
    &&& has_names(v, set!["type"@, "tool_use_id"@, "content"@])
    &&& has_field(v, "type"@, JsonView::Text("tool_result"@))
    &&& has_field(v, "tool_use_id"@, JsonView::Text(id))
    &&& has_field(v, "content"@, JsonView::Text(text))
}

/// Whether the blocks are what the assistant said: its text, if there is one, and all its tool
/// calls in their order; an empty text where there is neither.
pub open spec fn are_blocks(
    blocks: Seq<JsonView>,
    text: Seq<char>,
    calls: Seq<ToolCall>,
) -> bool {
    let start: int = if text.len() > 0 {
        1
    } else {
        0
    };
    if text.len() == 0 && calls.len() == 0 {
        blocks.len() == 1 && is_text(blocks[0], Seq::empty())
    } else {
        &&& blocks.len() == start + calls.len()
        &&& text.len() > 0 ==> is_text(blocks[0], text)
        &&& forall|i: int| 0 <= i < calls.len() ==> is_use(blocks[start + i], #[trigger] calls[i])
    }
}

proof fn lemma_text_shape(t: Seq<char>)
    ensures
        is_text(text_block_json(t), t),
{
    lemma_anthropic_names();
    let v = text_block_json(t)->Object_0;
    assert(v.dom() =~= set!["type"@, "text"@]);
}

proof fn lemma_use_shape(call: ToolCall)
    ensures
        is_use(tool_use_block(call), call),
{
    lemma_anthropic_names();
    assert(tool_use_block(call)->Object_0.dom() =~= set!["type"@, "id"@, "name"@, "input"@]);
}

proof fn lemma_result_shape(m: Message)
    ensures
        is_result(tool_result_block(m), answered_call(m), message_text(m)),
{
    lemma_anthropic_names();
    assert(tool_result_block(m)->Object_0.dom() =~= set!["type"@, "tool_use_id"@, "content"@]);
}

/// The assistant's words and all its tool calls are kept.
pub proof fn lemma_assistant_is_kept(m: Message)
    ensures
        are_blocks(assistant_blocks(m), message_text(m), calls_of(m)),
{
    let text = message_text(m);
    let calls = calls_of(m);
    let blocks = assistant_blocks(m);
    lemma_text_shape(text);
    lemma_text_shape(Seq::empty());
    if text.len() > 0 || calls.len() > 0 {
        let start: int = if text.len() > 0 {
            1
        } else {
            0
        };
        assert forall|i: int| 0 <= i < calls.len() implies is_use(
            blocks[start + i],
            #[trigger] calls[i],
        ) by {
            lemma_use_shape(calls[i]);
        }
    }
}

/// Whether a message is a user's and consists of tool results alone.
pub open spec fn holds_results(t: TurnView) -> bool {
    &&& t.speaker == Speaker::User
    &&& t.content is Array
    &&& forall|i: int|
        0 <= i < items(t.content).len() ==> has_field(
            #[trigger] items(t.content)[i],
            "type"@,
            JsonView::Text("tool_result"@),
        )
}

/// Whether `after` is `before` with one more message.
pub open spec fn one_more(before: Seq<TurnView>, after: Seq<TurnView>) -> bool {
    after.len() == before.len() + 1 && after.drop_last() == before
}

/// Every message goes behind those before it, by its role: a user's content, all that the
/// assistant said, and a tool's result, which joins results before it. System messages and those
/// with an unknown role add none.
pub proof fn lemma_message_is_kept(messages: Seq<Message>, m: Message)
    ensures
        turns_of(Seq::empty()) == Seq::<TurnView>::empty(),
        m.role@ == "user"@ ==> {
            let after = turns_of(messages.push(m));
            &&& one_more(turns_of(messages), after)
            &&& after.last().speaker == Speaker::User
            &&& m.content matches Some(c) ==> after.last().content == user_content(Some(c@))
            &&& m.content is None ==> after.last().content == user_content(None)
        },
        m.role@ == "assistant"@ ==> {
            let after = turns_of(messages.push(m));
            &&& one_more(turns_of(messages), after)
            &&& after.last().speaker == Speaker::Assistant
            &&& after.last().content is Array
            &&& are_blocks(items(after.last().content), message_text(m), calls_of(m))
        },
        m.role@ == "tool"@ ==> {
            let before = turns_of(messages);
            let after = turns_of(messages.push(m));
            &&& after.len() > 0
            &&& after.last().speaker == Speaker::User
            &&& after.last().content is Array
            &&& items(after.last().content).len() > 0
            &&& is_result(items(after.last().content).last(), answered_call(m), message_text(m))
            &&& if before.len() > 0 && holds_results(before.last()) {
                &&& after.len() == before.len()
                &&& after.drop_last() == before.drop_last()
                &&& items(after.last().content).drop_last() == items(before.last().content)
            } else {
                &&& one_more(before, after)
                &&& items(after.last().content).len() == 1
            }
        },
        m.role@ != "user"@ && m.role@ != "assistant"@ && m.role@ != "tool"@ ==> turns_of(
            messages.push(m),
        ) == turns_of(messages),
{
    lemma_roles();
    assert(messages.push(m).drop_last() =~= messages);
    let before = turns_of(messages);
    let after = turns_of(messages.push(m));
    if m.role@ == "user"@ {
        assert(after.drop_last() =~= before);
    } else if m.role@ == "assistant"@ {
        lemma_assistant_is_kept(m);
        assert(after.drop_last() =~= before);
    } else if m.role@ == "tool"@ {
        lemma_result_shape(m);
        if before.len() > 0 {
            let last = before.last();
            assert(holds_results(last) == takes_results(
                last,
            )) by {
                if last.content is Array {
                    let blocks = items(last.content);
                    assert forall|i: int| 0 <= i < blocks.len() implies has_field(
                        #[trigger] blocks[i],
                        "type"@,
                        JsonView::Text("tool_result"@),
                    ) == is_tool_result(blocks[i]) by {}
                }
            }
        }
        if before.len() > 0 && holds_results(before.last()) {
            assert(after.drop_last() =~= before.drop_last());
            assert(items(after.last().content).drop_last() =~= items(before.last().content));
        } else {
            assert(after.drop_last() =~= before);
        }
    }
}

/// A user's text is passed on as it is; nothing and null are the empty text, and any other value
/// but a list is shown.
pub proof fn lemma_user_text_is_kept(
    t: Seq<char>,
    b: bool,
    n: serde_json::Number,
    m: Map<Seq<char>, JsonView>,
)
    ensures
        user_content(None) == JsonView::Text(Seq::empty()),
        user_content(Some(JsonView::Null)) == JsonView::Text(Seq::empty()),
        user_content(Some(JsonView::Text(t))) == JsonView::Text(t),
        user_content(Some(JsonView::Bool(b))) == JsonView::Text(display_text(JsonView::Bool(b))),
        user_content(Some(JsonView::Number(n))) == JsonView::Text(
            display_text(JsonView::Number(n)),
        ),
        user_content(Some(JsonView::Object(m))) == JsonView::Text(
            display_text(JsonView::Object(m)),
        ),
        user_content(Some(JsonView::Array(Seq::empty()))) == JsonView::Array(Seq::empty()),
{
    let none = Seq::<JsonView>::empty();
    assert(none.filter_map(|b: JsonView| user_block(b)) =~= none);
}

/// Every block of a user that can be passed on is, behind those before it.
pub proof fn lemma_user_block_is_kept(blocks: Seq<JsonView>, block: JsonView)
    ensures
        user_content(Some(JsonView::Array(blocks))) is Array,
        user_block(block) matches Some(b) ==> user_content(Some(JsonView::Array(blocks.push(block))))
            == JsonView::Array(items(user_content(Some(JsonView::Array(blocks)))).push(b)),
        user_block(block) is None ==> user_content(Some(JsonView::Array(blocks.push(block))))
            == user_content(Some(JsonView::Array(blocks))),
{
    let convert = |b: JsonView| user_block(b);
    assert(blocks.push(block).drop_last() =~= blocks);
    if let Some(b) = user_block(block) {
        assert(blocks.push(block).filter_map(convert) =~= blocks.filter_map(convert).push(b));
    }
}

/// Whether `block` is an image block for the address `url`.
pub open spec fn shows(block: JsonView, url: Seq<char>) -> bool {
    &&& has_field(block, "type"@, JsonView::Text("image_url"@))
    &&& block is Object
    &&& block->Object_0.contains_key("image_url"@)
    &&& has_field(inner(block, "image_url"@), "url"@, JsonView::Text(url))
}

/// Whether `v` is an image block with this source.
pub open spec fn is_image(v: JsonView, source: JsonView) -> bool {
    &&& has_names(v, set!["type"@, "source"@])
    &&& has_field(v, "type"@, JsonView::Text("image"@))
    &&& has_field(v, "source"@, source)
}

/// Whether `source` is an address.
pub open spec fn is_address(source: JsonView, url: Seq<char>) -> bool {
    &&& has_names(source, set!["type"@, "url"@])
    &&& has_field(source, "type"@, JsonView::Text("url"@))
    &&& has_field(source, "url"@, JsonView::Text(url))
}

/// Whether `source` is data of the type `kind`.
pub open spec fn is_data(source: JsonView, kind: Seq<char>, data: Seq<char>) -> bool {
    &&& has_names(source, set!["type"@, "media_type"@, "data"@])
    &&& has_field(source, "type"@, JsonView::Text("base64"@))
    &&& has_field(source, "media_type"@, JsonView::Text(kind))
    &&& has_field(source, "data"@, JsonView::Text(data))
}

/// A text block is passed on with its text as it is; a block of another kind, or one that lacks
/// what its kind needs, is not.
pub proof fn lemma_text_block_is_passed_on(block: JsonView, t: Seq<char>)
    ensures
        has_field(block, "type"@, JsonView::Text("text"@)) && has_field(
            block,
            "text"@,
            JsonView::Text(t),
        ) ==> (user_block(block) matches Some(b) && is_text(b, t)),
        has_field(block, "type"@, JsonView::Text("text"@)) && (forall|u: Seq<char>|
            !#[trigger] has_field(block, "text"@, JsonView::Text(u))) ==> user_block(block) is None,
        has_field(block, "type"@, JsonView::Text(t)) && t != "text"@ && t != "image_url"@
            ==> user_block(block) is None,
        (forall|u: Seq<char>| !#[trigger] has_field(block, "type"@, JsonView::Text(u)))
            ==> user_block(block) is None,
{
    lemma_text_shape(t);
    if let JsonView::Object(m) = block {
        if m.contains_key("text"@) {
            if let JsonView::Text(u) = m["text"@] {
                assert(has_field(block, "text"@, JsonView::Text(u)));
            }
        }
        if m.contains_key("type"@) {
            if let JsonView::Text(u) = m["type"@] {
                assert(has_field(block, "type"@, JsonView::Text(u)));
            }
        }
    }
}

/// An image at an address is passed on with that address.
pub proof fn lemma_image_at_address(block: JsonView, url: Seq<char>) -> (source: JsonView)
    requires
        shows(block, url),
        !"data:"@.is_prefix_of(url),
    ensures
        user_block(block) matches Some(b) && is_image(b, source),
        is_address(source, url),
{
    lemma_anthropic_names();
    lemma_kinds();
    let b = user_block(block)->0->Object_0;
    let source = b["source"@];
    assert(b.dom() =~= set!["type"@, "source"@]);
    assert(source->Object_0.dom() =~= set!["type"@, "url"@]);
    source
}

/// An image in a data URL is passed on with its data, unchanged. What stands before the first
/// comma names its type.
pub proof fn lemma_image_in_data_url(block: JsonView, head: Seq<char>, data: Seq<char>) -> (source:
    JsonView)
    requires
        shows(block, head.push(',') + data),
        "data:"@.is_prefix_of(head),
        forall|i: int| 0 <= i < head.len() ==> head[i] != ',',
    ensures
        user_block(block) matches Some(b) && is_image(b, source),
        is_data(source, media_type(head), data),
{
    lemma_anthropic_names();
    lemma_kinds();
    reveal_strlit("data:");
    let url = head.push(',') + data;
    assert("data:"@.is_prefix_of(url)) by {
        assert(url.take(5) =~= head.take(5));
    }
    lemma_split(head, ',', data);
    let b = user_block(block)->0->Object_0;
    let source = b["source"@];
    assert(b.dom() =~= set!["type"@, "source"@]);
    assert(source->Object_0.dom() =~= set!["type"@, "media_type"@, "data"@]);
    source
}

/// A data URL without a comma has no data, and an image block without an address shows nothing.
pub proof fn lemma_image_without_data(block: JsonView, url: Seq<char>)
    ensures
        shows(block, url) && "data:"@.is_prefix_of(url) && (forall|i: int|
            0 <= i < url.len() ==> url[i] != ',') ==> user_block(block) is None,
        has_field(block, "type"@, JsonView::Text("image_url"@)) && (forall|u: Seq<char>|
            !#[trigger] shows(block, u)) ==> user_block(block) is None,
{
    lemma_kinds();
    if forall|i: int| 0 <= i < url.len() ==> url[i] != ',' {
        lemma_split(url, ',', Seq::empty());
    }
    if let Some(u) = image_url(block) {
        if has_field(block, "type"@, JsonView::Text("image_url"@)) {
            assert(shows(block, u));
        }
    }
}

/// The type of data is what stands between `data:` and `;base64`, or all behind `data:` where
/// the latter is missing.
pub proof fn lemma_media_type(kind: Seq<char>)
    requires
        !"data:"@.is_prefix_of(kind),
        !"data:"@.is_prefix_of(kind + ";base64"@),
        !";base64"@.is_suffix_of(kind),
    ensures
        media_type("data:"@ + kind + ";base64"@) == kind,
        media_type("data:"@ + kind) == kind,
{
    reveal_strlit("data:");
    reveal_strlit(";base64");
    lemma_trimming(kind + ";base64"@, "data:"@);
    lemma_trimming(kind, "data:"@);
    lemma_trimming(kind, ";base64"@);
    assert("data:"@ + kind + ";base64"@ =~= "data:"@ + (kind + ";base64"@));
}

/// Whether `v` offers the function `f`: its name, its description if it has one, and its schema,
/// unchanged; that of an object without fields where it has none.
pub open spec fn is_tool(v: JsonView, f: FunctionDefinition) -> bool {
    &&& has_field(v, "name"@, JsonView::Text(f.name@))
    &&& f.description matches Some(d) ==> has_field(v, "description"@, JsonView::Text(d@))
        && has_names(v, set!["name"@, "description"@, "input_schema"@])
    &&& f.description is None ==> has_names(v, set!["name"@, "input_schema"@])
    &&& f.parameters matches Some(p) ==> has_field(v, "input_schema"@, p@)
    &&& f.parameters is None ==> {
        let schema = inner(v, "input_schema"@);
        &&& has_names(schema, set!["type"@, "properties"@])
        &&& has_field(schema, "type"@, JsonView::Text("object"@))
        &&& has_field(schema, "properties"@, JsonView::Object(Map::empty()))
    }
}

proof fn lemma_tool_shape(t: Tool)
    requires
        t.tool_type@ == "function"@,
        t.function is Some,
    ensures
        anthropic_tool(t) matches Some(v) && is_tool(v, t.function->0),
{
    lemma_anthropic_names();
    let f = t.function->0;
    let v = anthropic_tool(t)->0->Object_0;
    if f.description is Some {
        assert(v.dom() =~= set!["name"@, "description"@, "input_schema"@]);
    } else {
        assert(v.dom() =~= set!["name"@, "input_schema"@]);
    }
    if f.parameters is None {
        assert(v["input_schema"@]->Object_0.dom() =~= set!["type"@, "properties"@]);
    }
}

proof fn lemma_tools_one_by_one(tools: Seq<Tool>)
    ensures
        tools.filter_map(|t: Tool| anthropic_tool(t)).len() == function_tools(tools).len(),
        forall|i: int|
            0 <= i < function_tools(tools).len() ==> is_tool(
                tools.filter_map(|t: Tool| anthropic_tool(t))[i],
                (#[trigger] function_tools(tools)[i]).function->0,
            ),
    decreases tools.len(),
{
    reveal(Seq::filter);
    if tools.len() > 0 {
        lemma_tools_one_by_one(tools.drop_last());
        let t = tools.last();
        let told = tools.filter_map(|t: Tool| anthropic_tool(t));
        let before = tools.drop_last().filter_map(|t: Tool| anthropic_tool(t));
        if t.tool_type@ == "function"@ && t.function is Some {
            lemma_tool_shape(t);
            let functions = function_tools(tools);
            assert(functions == function_tools(tools.drop_last()).push(t));
            assert forall|i: int| 0 <= i < functions.len() implies is_tool(
                told[i],
                (#[trigger] functions[i]).function->0,
            ) by {
                if i < before.len() {
                    assert(told[i] == before[i]);
                }
            }
        }
    }
}

/// Whether `list` offers these tools, all of them and in their order.
pub open spec fn offers(list: Seq<JsonView>, tools: Seq<Tool>) -> bool {
    &&& list.len() == tools.len()
    &&& forall|i: int| 0 <= i < tools.len() ==> is_tool(list[i], (#[trigger] tools[i]).function->0)
}

/// Whether `p` is a request to DashScope for `request`, with these messages.
pub open spec fn is_payload(
    p: JsonView,
    request: ChatRequest,
    model: Seq<char>,
    messages: Seq<JsonView>,
    system: Seq<char>,
) -> bool {
    &&& p is Object
    &&& p->Object_0.dom().subset_of(
        set![
            "model"@,
            "messages"@,
            "stream"@,
            "max_tokens"@,
            "system"@,
            "temperature"@,
            "tools"@,
        ],
    )
    &&& has_field(p, "model"@, JsonView::Text(model))
    &&& has_field(p, "messages"@, JsonView::Array(messages))
    &&& has_field(p, "stream"@, JsonView::Bool(request.stream))
    &&& request.max_tokens matches Some(n) ==> has_field(
        p,
        "max_tokens"@,
        JsonView::Number(unsigned_number(n)),
    )
    &&& request.max_tokens is None ==> has_field(
        p,
        "max_tokens"@,
        JsonView::Number(unsigned_number(8192)),
    )
    &&& system.len() > 0 ==> has_field(p, "system"@, JsonView::Text(system))
    &&& p->Object_0.contains_key("system"@) == (system.len() > 0)
    &&& request.temperature matches Some(t) ==> has_field(
        p,
        "temperature"@,
        JsonView::Number(t),
    )
    &&& p->Object_0.contains_key("temperature"@) == (request.temperature is Some)
    &&& p->Object_0.contains_key("tools"@) == (offered(request.tools).len() > 0)
    &&& offered(request.tools).len() > 0 ==> inner(p, "tools"@) is Array && offers(
        items(inner(p, "tools"@)),
        offered(request.tools),
    )
}

/// A request to DashScope holds all messages and the system prompt, what the chat request says of
/// the answer, and all its function tools with their names, descriptions and schemas.
pub proof fn lemma_payload_holds_all(request: ChatRequest, model: Seq<char>)
    ensures
        is_payload(
            anthropic_payload(request, model),
            request,
            model,
            anthropic_messages(request.messages@),
            system_prompt(request.messages@),
        ),
{
    lemma_anthropic_names();
    if let Some(t) = request.tools {
        lemma_tools_one_by_one(t@);
    }
    let tools = anthropic_tools(request.tools);
    assert(tools.len() == offered(request.tools).len());
    assert(offers(tools, offered(request.tools)));
    let p = anthropic_payload(request, model)->Object_0;
    assert(p.dom().subset_of(
        set![
            "model"@,
            "messages"@,
            "stream"@,
            "max_tokens"@,
            "system"@,
            "temperature"@,
            "tools"@,
        ],
    ));
}

/// The headers of a request: the API key as it is, and four that say how it is meant.
pub proof fn lemma_headers_hold_all(api_key: Seq<char>, client: Seq<char>)
    ensures
        dashscope_headers(api_key, client).dom() == set![
            "x-api-key"@,
            "anthropic-version"@,
            "anthropic-beta"@,
            "user-agent"@,
            "content-type"@,
        ],
        dashscope_headers(api_key, client)["x-api-key"@] == seq![
            vstd::utf8::encode_utf8(api_key),
        ],
        dashscope_headers(api_key, client)["anthropic-version"@] == seq![
            vstd::utf8::encode_utf8("2023-06-01"@),
        ],
        dashscope_headers(api_key, client)["anthropic-beta"@] == seq![
            vstd::utf8::encode_utf8(client + "-code-20250219"@),
        ],
        dashscope_headers(api_key, client)["user-agent"@] == seq![
            vstd::utf8::encode_utf8(client + "-cli/1.0.108 (external, cli)"@),
        ],
        dashscope_headers(api_key, client)["content-type"@] == seq![
            vstd::utf8::encode_utf8("application/json"@),
        ],
{
    lemma_header_names();
    assert(dashscope_headers(api_key, client).dom() =~= set![
        "x-api-key"@,
        "anthropic-version"@,
        "anthropic-beta"@,
        "user-agent"@,
        "content-type"@,
    ]);
}

} // verus!
