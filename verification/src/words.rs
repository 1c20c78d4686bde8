//! The names that members of JSON objects have here, and the words that stand in them.

use vstd::prelude::*;
use vstd::string::*;

use crate::json::{Fields, JsonV};

verus! {

/// The object has `value` under `key`.
pub open spec fn member(object: Fields, key: Seq<char>, value: JsonV) -> bool {
    object.contains_key(key) && object[key] == value
}

/// The object has the string `text` under `key`.
pub open spec fn says(object: Fields, key: Seq<char>, text: Seq<char>) -> bool {
    member(object, key, JsonV::Str(text))
}

/// The object has some string under `key`.
pub open spec fn speaks(object: Fields, key: Seq<char>) -> bool {
    object.contains_key(key) && object[key] is Str
}

/// The string that the object has under `key`.
pub open spec fn said(object: Fields, key: Seq<char>) -> Seq<char> {
    object[key]->Str_0
}

/// The words that requests, answers and events are written with differ from each other.
pub proof fn lemma_words()
    ensures
        "id"@.len() == 2,
        "any"@.len() == 3 && "any"@[0] == 'a',
        "url"@.len() == 3 && "url"@[0] == 'u',
        "auto"@.len() == 4 && "auto"@[2] == 't' && "auto"@[0] == 'a',
        "code"@.len() == 4 && "code"@[2] == 'd' && "code"@[0] == 'c',
        "item"@.len() == 4 && "item"@[2] == 'e' && "item"@[0] == 'i',
        "name"@.len() == 4 && "name"@[2] == 'm' && "name"@[0] == 'n',
        "none"@.len() == 4 && "none"@[2] == 'n' && "none"@[0] == 'n',
        "role"@.len() == 4 && "role"@[2] == 'l' && "role"@[0] == 'r',
        "stop"@.len() == 4 && "stop"@[2] == 'o' && "stop"@[0] == 's',
        "text"@.len() == 4 && "text"@[2] == 'x' && "text"@[0] == 't',
        "tool"@.len() == 4 && "tool"@[2] == 'o' && "tool"@[0] == 't',
        "type"@.len() == 4 && "type"@[2] == 'p' && "type"@[0] == 't',
        "user"@.len() == 4 && "user"@[2] == 'e' && "user"@[0] == 'u',
        "delta"@.len() == 5 && "delta"@[0] == 'd' && "delta"@[2] == 'l',
        "error"@.len() == 5 && "error"@[0] == 'e' && "error"@[2] == 'r',
        "index"@.len() == 5 && "index"@[0] == 'i' && "index"@[2] == 'd',
        "input"@.len() == 5 && "input"@[0] == 'i' && "input"@[2] == 'p',
        "model"@.len() == 5 && "model"@[0] == 'm' && "model"@[2] == 'd',
        "param"@.len() == 5 && "param"@[0] == 'p' && "param"@[2] == 'r',
        "store"@.len() == 5 && "store"@[0] == 's' && "store"@[2] == 'o',
        "tools"@.len() == 5 && "tools"@[0] == 't' && "tools"@[2] == 'o',
        "usage"@.len() == 5 && "usage"@[0] == 'u' && "usage"@[2] == 'a',
        "call_0"@.len() == 6 && "call_0"@[3] == 'l' && "call_0"@[0] == 'c',
        "detail"@.len() == 6 && "detail"@[3] == 'a' && "detail"@[0] == 'd',
        "effort"@.len() == 6 && "effort"@[3] == 'o' && "effort"@[0] == 'e',
        "format"@.len() == 6 && "format"@[3] == 'm' && "format"@[0] == 'f',
        "length"@.len() == 6 && "length"@[3] == 'g' && "length"@[0] == 'l',
        "object"@.len() == 6 && "object"@[3] == 'e' && "object"@[0] == 'o',
        "output"@.len() == 6 && "output"@[3] == 'p' && "output"@[0] == 'o',
        "reason"@.len() == 6 && "reason"@[3] == 's' && "reason"@[0] == 'r',
        "stream"@.len() == 6 && "stream"@[3] == 'e' && "stream"@[0] == 's',
        "system"@.len() == 6 && "system"@[3] == 't' && "system"@[0] == 's',
        "call_id"@.len() == 7 && "call_id"@[1] == 'a',
        "choices"@.len() == 7 && "choices"@[1] == 'h',
        "content"@.len() == 7 && "content"@[1] == 'o',
        "created"@.len() == 7 && "created"@[1] == 'r',
        "include"@.len() == 7 && "include"@[1] == 'n',
        "message"@.len() == 7 && "message"@[1] == 'e',
        "function"@.len() == 8 && "function"@[3] == 'c',
        "is_error"@.len() == 8 && "is_error"@[3] == 'e',
        "messages"@.len() == 8 && "messages"@[3] == 's',
        "required"@.len() == 8 && "required"@[3] == 'u',
        "response"@.len() == 8 && "response"@[3] == 'p',
        "tool_use"@.len() == 8 && "tool_use"@[3] == 'l',
        "arguments"@.len() == 9 && "arguments"@[3] == 'u',
        "assistant"@.len() == 9 && "assistant"@[3] == 'i',
        "developer"@.len() == 9 && "developer"@[3] == 'e',
        "image_url"@.len() == 9 && "image_url"@[3] == 'g',
        "reasoning"@.len() == 9 && "reasoning"@[3] == 's',
        "input_text"@.len() == 10 && "input_text"@[3] == 'u',
        "max_tokens"@.len() == 10 && "max_tokens"@[3] == '_',
        "parameters"@.len() == 10 && "parameters"@[3] == 'a',
        "properties"@.len() == 10 && "properties"@[3] == 'p',
        "tool_calls"@.len() == 10 && "tool_calls"@[3] == 'l',
        "description"@.len() == 11 && "description"@[5] == 'i',
        "input_image"@.len() == 11 && "input_image"@[5] == '_',
        "output_text"@.len() == 11 && "output_text"@[5] == 't',
        "tool_choice"@.len() == 11 && "tool_choice"@[5] == 'c',
        "tool_result"@.len() == 11 && "tool_result"@[5] == 'r',
        "tool_use_id"@.len() == 11 && "tool_use_id"@[5] == 'u',
        "input_schema"@.len() == 12 && "input_schema"@[3] == 'u' && "input_schema"@[6] == 's',
        "input_tokens"@.len() == 12 && "input_tokens"@[3] == 'u' && "input_tokens"@[6] == 't',
        "instructions"@.len() == 12 && "instructions"@[3] == 't' && "instructions"@[6] == 'c',
        "output_index"@.len() == 12 && "output_index"@[3] == 'p' && "output_index"@[6] == '_',
        "tool_call_id"@.len() == 12 && "tool_call_id"@[3] == 'l' && "tool_call_id"@[6] == 'a',
        "total_tokens"@.len() == 12 && "total_tokens"@[3] == 'a' && "total_tokens"@[6] == 't',
        "finish_reason"@.len() == 13 && "finish_reason"@[3] == 'i',
        "function_call"@.len() == 13 && "function_call"@[3] == 'c',
        "output_tokens"@.len() == 13 && "output_tokens"@[3] == 'p',
        "prompt_tokens"@.len() == 13 && "prompt_tokens"@[3] == 'm',
        "status_details"@.len() == 14,
        "prompt_cache_key"@.len() == 16 && "prompt_cache_key"@[0] == 'p',
        "reasoning_effort"@.len() == 16 && "reasoning_effort"@[0] == 'r',
        "completion_tokens"@.len() == 17 && "completion_tokens"@[0] == 'c',
        "max_output_tokens"@.len() == 17 && "max_output_tokens"@[0] == 'm',
        "incomplete_details"@.len() == 18 && "incomplete_details"@[0] == 'i',
        "response.completed"@.len() == 18 && "response.completed"@[0] == 'r',
        "parallel_tool_calls"@.len() == 19,
        "function_call_output"@.len() == 20,
        "max_completion_tokens"@.len() == 21,
        "response.output_item.done"@.len() == 25,
        "response.output_text.delta"@.len() == 26,
{
    reveal_strlit("id");
    reveal_strlit("any");
    reveal_strlit("url");
    reveal_strlit("auto");
    reveal_strlit("code");
    reveal_strlit("item");
    reveal_strlit("name");
    reveal_strlit("none");
    reveal_strlit("role");
    reveal_strlit("stop");
    reveal_strlit("text");
    reveal_strlit("tool");
    reveal_strlit("type");
    reveal_strlit("user");
    reveal_strlit("delta");
    reveal_strlit("error");
    reveal_strlit("index");
    reveal_strlit("input");
    reveal_strlit("model");
    reveal_strlit("param");
    reveal_strlit("store");
    reveal_strlit("tools");
    reveal_strlit("usage");
    reveal_strlit("call_0");
    reveal_strlit("detail");
    reveal_strlit("effort");
    reveal_strlit("format");
    reveal_strlit("length");
    reveal_strlit("object");
    reveal_strlit("output");
    reveal_strlit("reason");
    reveal_strlit("stream");
    reveal_strlit("system");
    reveal_strlit("call_id");
    reveal_strlit("choices");
    reveal_strlit("content");
    reveal_strlit("created");
    reveal_strlit("include");
    reveal_strlit("message");
    reveal_strlit("function");
    reveal_strlit("is_error");
    reveal_strlit("messages");
    reveal_strlit("required");
    reveal_strlit("response");
    reveal_strlit("tool_use");
    reveal_strlit("arguments");
    reveal_strlit("assistant");
    reveal_strlit("developer");
    reveal_strlit("image_url");
    reveal_strlit("reasoning");
    reveal_strlit("input_text");
    reveal_strlit("max_tokens");
    reveal_strlit("parameters");
    reveal_strlit("properties");
    reveal_strlit("tool_calls");
    reveal_strlit("description");
    reveal_strlit("input_image");
    reveal_strlit("output_text");
    reveal_strlit("tool_choice");
    reveal_strlit("tool_result");
    reveal_strlit("tool_use_id");
    reveal_strlit("input_schema");
    reveal_strlit("input_tokens");
    reveal_strlit("instructions");
    reveal_strlit("output_index");
    reveal_strlit("tool_call_id");
    reveal_strlit("total_tokens");
    reveal_strlit("finish_reason");
    reveal_strlit("function_call");
    reveal_strlit("output_tokens");
    reveal_strlit("prompt_tokens");
    reveal_strlit("status_details");
    reveal_strlit("prompt_cache_key");
    reveal_strlit("reasoning_effort");
    reveal_strlit("completion_tokens");
    reveal_strlit("max_output_tokens");
    reveal_strlit("incomplete_details");
    reveal_strlit("response.completed");
    reveal_strlit("parallel_tool_calls");
    reveal_strlit("function_call_output");
    reveal_strlit("max_completion_tokens");
    reveal_strlit("response.output_item.done");
    reveal_strlit("response.output_text.delta");
}

} // verus!
