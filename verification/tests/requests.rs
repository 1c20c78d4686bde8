use codex_gateway::anthropic_request::{
    append_assistant_messages, append_tool_role_message, append_user_messages,
    convert_anthropic_messages_request, convert_chat_messages_to_responses_input,
    extract_text_content, extract_text_from_block, flush_user_text, map_anthropic_tool_choice,
    map_anthropic_tool_definition, resolve_anthropic_upstream_model, DEFAULT_ANTHROPIC_INSTRUCTIONS,
    DEFAULT_ANTHROPIC_MODEL,
};
use codex_gateway::codec::{json_from_value, value_from_json};
use codex_gateway::items::extract_tool_result_content;
use codex_gateway::json::{Json, JsonMap};
use codex_gateway::openai_request::{
    append_openai_assistant_message, append_openai_tool_message, append_openai_user_message,
    convert_openai_chat_completions_request, extract_openai_assistant_text_content,
    extract_openai_instruction_text, map_openai_reasoning, map_openai_tool_choice, map_openai_tools,
    reject_unsupported_openai_chat_fields,
};
use serde_json::Value;

fn parse(text: &str) -> Value {
    serde_json::from_str(text).expect("json")
}

fn json(text: &str) -> Json {
    json_from_value(parse(text))
}

fn fields(text: &str) -> JsonMap {
    match json(text) {
        Json::Object(map) => map,
        _ => panic!("object expected"),
    }
}

fn shown(value: &Json) -> Value {
    value_from_json(value)
}

fn shown_all(values: &Vec<Json>) -> Value {
    Value::Array(values.iter().map(value_from_json).collect())
}

fn normalize(raw: &str) -> Option<String> {
    let effort = raw.trim().to_ascii_lowercase();
    if effort == "low" || effort == "medium" || effort == "high" {
        Some(effort)
    } else {
        None
    }
}

fn no_key(_request: &JsonMap, _model: &str) -> Option<String> {
    None
}

fn openai(text: &str) -> Result<(Value, bool), String> {
    convert_openai_chat_completions_request(text.as_bytes(), &normalize)
        .map(|(body, stream)| (serde_json::from_slice(&body).expect("json"), stream))
}

fn openai_error(text: &str) -> String {
    openai(text).expect_err("refused")
}

fn anthropic(text: &str) -> Result<(Value, bool), String> {
    convert_anthropic_messages_request(text.as_bytes(), &normalize, &no_key)
        .map(|(body, stream)| (serde_json::from_slice(&body).expect("json"), stream))
}

fn anthropic_error(text: &str) -> String {
    anthropic(text).expect_err("refused")
}

#[test]
fn openai_chat_request_maps_text_images_and_tools_to_responses() {
    let source = parse(
        r#"{
            "model": "gpt-5.3-codex",
            "messages": [
                { "role": "system", "content": "Be precise." },
                { "role": "user", "content": [
                    { "type": "text", "text": "look at this" },
                    { "type": "image_url", "image_url": { "url": "https://example.com/a.png", "detail": "high" } }
                ]},
                { "role": "assistant", "content": "I'll inspect it." },
                { "role": "assistant", "content": null, "tool_calls": [{
                    "id": "call_1",
                    "type": "function",
                    "function": {
                        "name": "read_file",
                        "arguments": "{\"path\":\"README.md\"}"
                    }
                }]},
                { "role": "tool", "tool_call_id": "call_1", "content": "file content" }
            ],
            "tools": [{
                "type": "function",
                "function": {
                    "name": "read_file",
                    "description": "Read a file",
                    "parameters": {
                        "type": "object",
                        "properties": {
                            "path": { "type": "string" }
                        }
                    }
                }
            }],
            "tool_choice": {
                "type": "function",
                "function": { "name": "read_file" }
            },
            "stream": false
        }"#,
    );
    let (body, request_stream) = convert_openai_chat_completions_request(
        &serde_json::to_vec(&source).expect("serialize"),
        &normalize,
    )
    .expect("convert");
    assert!(!request_stream);
    let payload: Value = serde_json::from_slice(&body).expect("json");
    assert_eq!(payload["instructions"], "Be precise.");
    assert_eq!(payload["stream"], true);
    assert_eq!(payload["store"], false);
    assert_eq!(payload["input"][0]["content"][0]["type"], "input_text");
    assert_eq!(payload["input"][0]["content"][1]["type"], "input_image");
    assert_eq!(payload["input"][0]["content"][1]["detail"], "high");
    assert_eq!(payload["input"][2]["type"], "function_call");
    assert_eq!(payload["input"][3]["type"], "function_call_output");
    assert_eq!(payload["tools"][0]["name"], "read_file");
    assert_eq!(payload["tool_choice"]["name"], "read_file");
}

#[test]
fn openai_chat_request_rejects_unsupported_fields() {
    let source = parse(
        r#"{
            "model": "gpt-5.3-codex",
            "messages": [{ "role": "user", "content": "hello" }],
            "temperature": 0.5
        }"#,
    );
    let err = convert_openai_chat_completions_request(
        &serde_json::to_vec(&source).expect("serialize"),
        &normalize,
    )
    .expect_err("should reject");
    assert!(err.contains("unsupported openai chat field"));
    assert!(err.contains("temperature"));
}

#[test]
fn openai_request_comes_out_whole() {
    let (payload, stream) = openai(
        r#"{
            "model": " gpt-5.3-codex ",
            "messages": [
                { "role": "developer", "content": [{ "type": "text", "text": "a" }, { "type": "text", "text": "b" }] },
                { "role": "system", "content": "  " },
                { "role": "system", "content": "c" },
                { "role": "user", "content": "  hi  " },
                { "role": "user", "content": [] },
                { "role": "user" }
            ],
            "reasoning_effort": "HIGH",
            "max_tokens": 12,
            "stream": true
        }"#,
    )
    .expect("convert");
    assert!(stream);
    assert_eq!(
        payload,
        parse(
            r#"{
                "model": "gpt-5.3-codex",
                "instructions": "ab\n\nc",
                "text": { "format": { "type": "text" } },
                "reasoning": { "effort": "high" },
                "max_output_tokens": 12,
                "input": [{ "type": "message", "role": "user",
                    "content": [{ "type": "input_text", "text": "hi" }] }],
                "stream": true,
                "store": false,
                "include": ["reasoning.encrypted_content"]
            }"#
        )
    );
}

#[test]
fn openai_token_limit_counts_only_where_it_is_positive() {
    let base = r#"{"model":"m","messages":[],"max_completion_tokens":LIMIT,"max_tokens":9}"#;
    let with = |limit: &str| openai(&base.replace("LIMIT", limit)).expect("convert").0;
    assert_eq!(with("7")["max_output_tokens"], 7);
    assert!(with("0").get("max_output_tokens").is_none());
    assert!(with("-3").get("max_output_tokens").is_none());
    assert!(with("null").get("max_output_tokens").is_none());
    assert!(with("1.5").get("max_output_tokens").is_none());
}

#[test]
fn openai_parallel_calls_follow_the_request_or_its_tools() {
    let tool = r#"{"function":{"name":"f"}}"#;
    let with = |more: &str| {
        openai(&format!(r#"{{"model":"m","messages":[]{more}}}"#)).expect("convert").0
    };
    assert!(with("").get("parallel_tool_calls").is_none());
    assert_eq!(with(r#","parallel_tool_calls":false"#)["parallel_tool_calls"], false);
    assert_eq!(with(&format!(r#","tools":[{tool}]"#))["parallel_tool_calls"], true);
    assert_eq!(
        with(&format!(r#","tools":[{tool}],"parallel_tool_calls":false"#))["parallel_tool_calls"],
        false
    );
    assert!(with(r#","tools":[]"#).get("tools").is_none());
    assert!(with(r#","tool_choice":null"#).get("tool_choice").is_none());
}

#[test]
fn openai_tools_beyond_the_limit_are_not_looked_at() {
    let mut tools: Vec<String> = (0..16).map(|i| format!(r#"{{"function":{{"name":"t{i}"}}}}"#)).collect();
    tools.push("17".to_string());
    let (payload, _) = openai(&format!(
        r#"{{"model":"m","messages":[],"tools":[{}]}}"#,
        tools.join(",")
    ))
    .expect("convert");
    assert_eq!(payload["tools"].as_array().expect("tools").len(), 16);
    assert_eq!(
        payload["tools"][15],
        parse(r#"{"type":"function","name":"t15","parameters":{"type":"object","properties":{}}}"#)
    );
}

#[test]
fn openai_refusals_name_their_reason() {
    assert_eq!(openai_error("{"), "invalid openai chat request json");
    assert_eq!(openai_error("[]"), "openai chat request body must be an object");
    assert_eq!(openai_error("{}"), "openai chat request model is required");
    assert_eq!(openai_error(r#"{"model":"  "}"#), "openai chat request model is required");
    assert_eq!(openai_error(r#"{"model":"m"}"#), "openai chat request messages field is required");
    assert_eq!(
        openai_error(r#"{"stop":null,"audio":null}"#),
        "unsupported openai chat field for codex compatibility: audio"
    );
    let message = |inner: &str| openai_error(&format!(r#"{{"model":"m","messages":[{inner}]}}"#));
    assert_eq!(message("1"), "invalid openai chat message item");
    assert_eq!(message("{}"), "openai chat message role is required");
    assert_eq!(message(r#"{"role":"pet"}"#), "unsupported openai chat message role: pet");
    assert_eq!(
        message(r#"{"role":"system","content":7}"#),
        "unsupported openai instruction content"
    );
    assert_eq!(
        message(r#"{"role":"system","content":[7]}"#),
        "invalid openai instruction content item"
    );
    assert_eq!(
        message(r#"{"role":"system","content":[{"type":"text"}]}"#),
        "openai text content missing text"
    );
    assert_eq!(
        message(r#"{"role":"system","content":[{"type":"image"}]}"#),
        "unsupported openai instruction content block type: image"
    );
    assert_eq!(message(r#"{"role":"user","content":7}"#), "unsupported openai user content");
    assert_eq!(message(r#"{"role":"user","content":[7]}"#), "invalid openai user content item");
    assert_eq!(
        message(r#"{"role":"user","content":[{}]}"#),
        "unsupported openai user content block type: "
    );
    assert_eq!(
        message(r#"{"role":"user","content":[{"type":"image_url"}]}"#),
        "openai image_url content missing image_url object"
    );
    assert_eq!(
        message(r#"{"role":"user","content":[{"type":"image_url","image_url":{"url":" "}}]}"#),
        "openai image_url content missing url"
    );
    assert_eq!(
        message(r#"{"role":"assistant","content":7}"#),
        "unsupported openai assistant content"
    );
    assert_eq!(
        message(r#"{"role":"assistant","content":[7]}"#),
        "invalid openai assistant content item"
    );
    assert_eq!(
        message(r#"{"role":"assistant","content":[{"type":"text"}]}"#),
        "openai assistant text content missing text"
    );
    assert_eq!(
        message(r#"{"role":"assistant","content":[{"type":"x"}]}"#),
        "unsupported openai assistant content block type: x"
    );
    assert_eq!(
        message(r#"{"role":"assistant","tool_calls":[7]}"#),
        "invalid openai tool call item"
    );
    assert_eq!(
        message(r#"{"role":"assistant","tool_calls":[{"function":{"name":" "}}]}"#),
        "openai tool call missing function name"
    );
    assert_eq!(message(r#"{"role":"tool"}"#), "openai tool message missing tool_call_id");
    let with = |more: &str| openai_error(&format!(r#"{{"model":"m","messages":[],{more}}}"#));
    assert_eq!(with(r#""tools":{}"#), "openai tools field must be an array");
    assert_eq!(with(r#""tools":[7]"#), "invalid openai tool item");
    assert_eq!(with(r#""tools":[{"type":"web"}]"#), "unsupported openai tool type: web");
    assert_eq!(with(r#""tools":[{}]"#), "openai function tool missing function object");
    assert_eq!(with(r#""tools":[{"function":{}}]"#), "openai function tool missing name");
    assert_eq!(with(r#""tool_choice":7"#), "openai tool_choice must be a string or object");
    assert_eq!(
        with(r#""tool_choice":{"type":"x"}"#),
        "unsupported openai tool_choice type: x"
    );
    assert_eq!(with(r#""tool_choice":{}"#), "openai tool_choice missing function name");
}

#[test]
fn openai_pieces_are_mapped_one_by_one() {
    assert!(reject_unsupported_openai_chat_fields(&fields("{}")).is_ok());
    assert_eq!(
        reject_unsupported_openai_chat_fields(&fields(r#"{"n":1}"#)).expect_err("refused"),
        "unsupported openai chat field for codex compatibility: n"
    );
    let reasoning = |text: &str| map_openai_reasoning(&fields(text), &normalize).map(|r| shown(&r));
    assert_eq!(reasoning("{}"), None);
    assert_eq!(reasoning(r#"{"reasoning":{"effort":"odd"}}"#), None);
    assert_eq!(
        reasoning(r#"{"reasoning":{"effort":"low"},"reasoning_effort":"high"}"#),
        Some(parse(r#"{"effort":"low"}"#))
    );
    assert_eq!(
        reasoning(r#"{"reasoning":{"effort":"odd"},"reasoning_effort":"high"}"#),
        Some(parse(r#"{"effort":"high"}"#))
    );
    assert_eq!(extract_openai_instruction_text(&json("null")), Ok(String::new()));
    assert_eq!(
        extract_openai_assistant_text_content(&json(r#"[{"type":"text","text":"x"}]"#)),
        Ok("x".to_string())
    );
    assert_eq!(
        map_openai_tool_choice(&json(r#""required""#)).expect("choice").map(|c| shown(&c)),
        Some(parse(r#""required""#))
    );
    let mapped = map_openai_tools(&json(
        r#"[{"function":{"name":" f ","description":"d","parameters":7}}]"#,
    ))
    .expect("tools");
    assert_eq!(
        shown_all(&mapped),
        parse(r#"[{"type":"function","name":"f","description":"d","parameters":7}]"#)
    );
}

#[test]
fn openai_messages_append_their_items() {
    let mut items: Vec<Json> = Vec::new();
    append_openai_user_message(&mut items, &json(r#"[{"type":"text","text":" "}]"#)).expect("user");
    assert!(items.is_empty());
    append_openai_user_message(&mut items, &json(r#"" hi ""#)).expect("user");
    append_openai_assistant_message(
        &mut items,
        &fields(
            r#"{"tool_calls":[
                {"function":{"name":"a","arguments":{"x":1}}},
                {"id":"c","function":{"name":"b"}}]}"#,
        ),
        &json(r#"" ok ""#),
    )
    .expect("assistant");
    append_openai_assistant_message(
        &mut items,
        &fields(r#"{"function_call":{"name":"old","arguments":"{}"}}"#),
        &json("null"),
    )
    .expect("assistant");
    append_openai_tool_message(
        &mut items,
        &fields(r#"{"tool_call_id":" c "}"#),
        &json(r#"[{"type":"text","text":"x"},{"y":2}]"#),
    )
    .expect("tool");
    assert_eq!(
        shown_all(&items),
        parse(
            r#"[
                {"type":"message","role":"user","content":[{"type":"input_text","text":"hi"}]},
                {"type":"message","role":"assistant","content":[{"type":"output_text","text":"ok"}]},
                {"type":"function_call","call_id":"call_0","name":"a","arguments":"{\"x\":1}"},
                {"type":"function_call","call_id":"c","name":"b","arguments":"{}"},
                {"type":"function_call","call_id":"call_0","name":"old","arguments":"{}"},
                {"type":"function_call_output","call_id":"c","output":"x{\"y\":2}"}
            ]"#
        )
    );
    append_openai_assistant_message(
        &mut items,
        &fields(r#"{"tool_calls":[{"function":{"name":"last"}},7,{"function":{"name":"no"}}]}"#),
        &json("null"),
    )
    .expect_err("refused");
    assert_eq!(items.len(), 7);
    assert_eq!(shown(&items[6])["name"], "last");
}

#[test]
fn anthropic_request_comes_out_whole() {
    let (payload, stream) = anthropic(
        r#"{
            "model": "sonnet",
            "system": [{ "type": "text", "text": "Be" }, { "type": "text", "text": " kind." }],
            "messages": [
                { "role": "user", "content": [
                    { "type": "text", "text": "one " },
                    { "type": "text", "text": "two" },
                    { "type": "tool_result", "tool_use_id": "t1", "content": "bad", "is_error": true },
                    { "type": "image" },
                    { "type": "text", "text": "three" }
                ]},
                { "role": "assistant", "content": [
                    { "type": "text", "text": " fine " },
                    { "type": "tool_use", "name": "look", "input": { "at": "it" } },
                    { "type": "tool_use", "name": " " }
                ]},
                { "role": "tool", "tool_use_id": "t2", "content": { "type": "text", "text": "seen" } }
            ],
            "temperature": 0.5,
            "tools": [{ "name": "look", "input_schema": { "type": "object" } }, 7],
            "stream": false
        }"#,
    )
    .expect("convert");
    assert!(!stream);
    assert_eq!(
        payload,
        parse(
            r#"{
                "model": "gpt-5.3-codex",
                "instructions": "Be kind.",
                "text": { "format": { "type": "text" } },
                "reasoning": { "effort": "high" },
                "input": [
                    {"type":"message","role":"user","content":[{"type":"input_text","text":"one two"}]},
                    {"type":"function_call_output","call_id":"t1","output":"[tool_error] bad"},
                    {"type":"message","role":"user","content":[{"type":"input_text","text":"three"}]},
                    {"type":"message","role":"assistant","content":[{"type":"output_text","text":"fine"}]},
                    {"type":"function_call","call_id":"toolu_0","name":"look","arguments":"{\"at\":\"it\"}"},
                    {"type":"function_call_output","call_id":"t2","output":"seen"}
                ],
                "tools": [{"type":"function","name":"look","parameters":{"type":"object"}}],
                "tool_choice": "auto",
                "stream": true,
                "parallel_tool_calls": true,
                "store": false,
                "include": ["reasoning.encrypted_content"]
            }"#
        )
    );
}

#[test]
fn anthropic_defaults_fill_what_is_missing() {
    let (payload, stream) = anthropic(r#"{"messages":[],"reasoning":{"effort":"low"}}"#).expect("convert");
    assert!(stream);
    assert_eq!(payload["model"], DEFAULT_ANTHROPIC_MODEL);
    assert_eq!(payload["instructions"], DEFAULT_ANTHROPIC_INSTRUCTIONS);
    assert_eq!(payload["reasoning"]["effort"], "low");
    assert!(payload.get("tools").is_none());
    assert!(payload.get("tool_choice").is_none());
    assert!(payload.get("prompt_cache_key").is_none());
    let model = |text: &str| resolve_anthropic_upstream_model(&fields(text));
    assert_eq!(model(r#"{"model":" GPT-5-Codex "}"#), "GPT-5-Codex");
    assert_eq!(model(r#"{"model":"opus"}"#), "gpt-5.3-codex");
    assert_eq!(model("{}"), "gpt-5.3-codex");
}

#[test]
fn anthropic_prompt_cache_key_is_asked_for_the_upstream_model() {
    let seen = |request: &JsonMap, model: &str| -> Option<String> {
        Some(format!("{}:{}", request.get_str("user").unwrap_or("-"), model))
    };
    let (body, _) = convert_anthropic_messages_request(
        br#"{"messages":[],"model":"opus","user":"u1"}"#,
        &normalize,
        &seen,
    )
    .expect("convert");
    let payload: Value = serde_json::from_slice(&body).expect("json");
    assert_eq!(payload["prompt_cache_key"], "u1:gpt-5.3-codex");
}

#[test]
fn anthropic_tools_beyond_the_limit_are_left_out() {
    let mut tools: Vec<String> = vec!["7".to_string()];
    tools.extend((0..20).map(|i| format!(r#"{{"name":"t{i}"}}"#)));
    let (payload, _) =
        anthropic(&format!(r#"{{"messages":[],"tools":[{}]}}"#, tools.join(","))).expect("convert");
    let passed = payload["tools"].as_array().expect("tools");
    assert_eq!(passed.len(), 16);
    assert_eq!(passed[0]["name"], "t0");
    assert_eq!(passed[15]["name"], "t15");
}

#[test]
fn anthropic_refusals_name_their_reason() {
    assert_eq!(anthropic_error("nope"), "invalid anthropic request json");
    assert_eq!(anthropic_error("7"), "anthropic request body must be an object");
    assert_eq!(anthropic_error("{}"), "anthropic messages field is required");
    assert_eq!(anthropic_error(r#"{"system":7}"#), "unsupported anthropic content");
    assert_eq!(anthropic_error(r#"{"system":[7]}"#), "invalid anthropic content block");
    assert_eq!(anthropic_error(r#"{"system":{}}"#), "anthropic content block missing type");
    assert_eq!(
        anthropic_error(r#"{"system":{"type":"image"}}"#),
        "unsupported anthropic content block type: image"
    );
    assert_eq!(anthropic_error(r#"{"system":{"type":"text"}}"#), "anthropic text block missing text");
    let message = |inner: &str| anthropic_error(&format!(r#"{{"messages":[{inner}]}}"#));
    assert_eq!(message("7"), "invalid anthropic message item");
    assert_eq!(message("{}"), "anthropic message role is required");
    assert_eq!(message(r#"{"role":"user"}"#), "anthropic message content is required");
    assert_eq!(
        message(r#"{"role":"system","content":""}"#),
        "unsupported anthropic message role: system"
    );
    assert_eq!(message(r#"{"role":"assistant","content":7}"#), "unsupported assistant content");
    assert_eq!(message(r#"{"role":"assistant","content":[7]}"#), "invalid assistant content block");
    assert_eq!(
        message(r#"{"role":"assistant","content":{}}"#),
        "assistant content block missing type"
    );
    assert_eq!(message(r#"{"role":"user","content":7}"#), "unsupported user content");
    assert_eq!(message(r#"{"role":"user","content":[7]}"#), "invalid user content block");
    assert_eq!(message(r#"{"role":"user","content":{}}"#), "user content block missing type");
    assert_eq!(
        message(r#"{"role":"tool","content":"x"}"#),
        "tool role message missing tool_call_id"
    );
    assert_eq!(
        message(r#"{"role":"tool","tool_call_id":" ","content":"x"}"#),
        "tool role message missing tool_call_id"
    );
}

#[test]
fn anthropic_pieces_are_mapped_one_by_one() {
    let choice = |text: &str| map_anthropic_tool_choice(&json(text)).map(|c| shown(&c));
    assert_eq!(choice(r#""auto""#), Some(parse(r#""auto""#)));
    assert_eq!(choice("{}"), Some(parse(r#""auto""#)));
    assert_eq!(choice(r#"{"type":"any"}"#), Some(parse(r#""required""#)));
    assert_eq!(choice(r#"{"type":"none"}"#), Some(parse(r#""none""#)));
    assert_eq!(
        choice(r#"{"type":"tool","name":" f "}"#),
        Some(parse(r#"{"type":"function","name":"f"}"#))
    );
    assert_eq!(choice(r#"{"type":"tool"}"#), None);
    assert_eq!(choice(r#"{"type":"other"}"#), None);
    assert_eq!(choice("7"), None);
    let tool = |text: &str| map_anthropic_tool_definition(&json(text)).map(|t| shown(&t));
    assert_eq!(
        tool(r#"{"type":"bash_1","description":"d"}"#),
        Some(parse(
            r#"{"type":"function","name":"bash_1","description":"d",
                "parameters":{"type":"object","properties":{}}}"#
        ))
    );
    assert_eq!(tool(r#"{"name":" ","type":"x"}"#), None);
    assert_eq!(tool("{}"), None);
    assert_eq!(tool("7"), None);
    assert_eq!(extract_text_content(&json(r#""t""#)), Ok("t".to_string()));
    assert_eq!(
        extract_text_from_block(&fields(r#"{"type":"text","text":"t"}"#)),
        Ok("t".to_string())
    );
    let result = |text: &str| extract_tool_result_content(Some(&json(text))).expect("text");
    assert_eq!(extract_tool_result_content(None), Ok(String::new()));
    assert_eq!(result("null"), "");
    assert_eq!(result(r#""x""#), "x");
    assert_eq!(result("[1,\"a\",{\"type\":\"text\",\"text\":\"b\"}]"), "1ab");
    assert_eq!(result("true"), "true");
    assert_eq!(result(r#"{"b":1,"a":[]}"#), r#"{"a":[],"b":1}"#);
}

#[test]
fn anthropic_messages_append_chat_messages() {
    let mut messages: Vec<Json> = Vec::new();
    append_assistant_messages(&mut messages, &json(r#""said""#)).expect("assistant");
    append_user_messages(&mut messages, &json(r#"" ""#)).expect("user");
    append_user_messages(
        &mut messages,
        &json(r#"[{"type":"tool_result","id":"","content":"lost"},{"type":"text","text":"kept"}]"#),
    )
    .expect("user");
    append_tool_role_message(
        &mut messages,
        &fields(r#"{"tool_call_id":"t"}"#),
        &json("null"),
    )
    .expect("tool");
    assert_eq!(
        shown_all(&messages),
        parse(
            r#"[
                {"role":"assistant","content":"said"},
                {"role":"user","content":"kept"},
                {"role":"tool","tool_call_id":"t","content":""}
            ]"#
        )
    );
    let mut partial: Vec<Json> = Vec::new();
    append_user_messages(
        &mut partial,
        &json(r#"[{"type":"text","text":"a"},{"type":"tool_result","id":"t"},{"type":"text","text":"b"},7]"#),
    )
    .expect_err("refused");
    assert_eq!(
        shown_all(&partial),
        parse(r#"[{"role":"user","content":"a"},{"role":"tool","tool_call_id":"t","content":""}]"#)
    );
    let mut pending = "  ".to_string();
    flush_user_text(&mut messages, &mut pending);
    assert_eq!(pending, "");
    assert_eq!(messages.len(), 3);
    pending.push_str(" text ");
    flush_user_text(&mut messages, &mut pending);
    assert_eq!(pending, "");
    assert_eq!(shown(&messages[3]), parse(r#"{"role":"user","content":" text "}"#));
}

#[test]
fn chat_messages_become_instructions_and_input() {
    let messages = match json(
        r#"[
            7,
            {"content":"no role"},
            {"role":"system","content":"a"},
            {"role":"system","content":" "},
            {"role":"system","content":"b"},
            {"role":"assistant","tool_calls":[7,{"function":{"name":"f"}}]},
            {"role":"other","content":"x"}
        ]"#,
    ) {
        Json::Array(items) => items,
        _ => panic!("array expected"),
    };
    let (instructions, items) = convert_chat_messages_to_responses_input(&messages).expect("convert");
    assert_eq!(instructions, Some("a\n\nb".to_string()));
    assert_eq!(
        shown_all(&items),
        parse(r#"[{"type":"function_call","call_id":"call_1","name":"f","arguments":"{}"}]"#)
    );
    let (none, empty) = convert_chat_messages_to_responses_input(&Vec::new()).expect("convert");
    assert_eq!(none, None);
    assert!(empty.is_empty());
}

#[test]
fn stream_member_reaches_the_flag_alone() {
    let body = |stream: &str| {
        format!(
            r#"{{"messages":[{{"role":"user","content":"hi"}}],"temperature":0.5{stream}}}"#
        )
    };
    let (silent, default) = anthropic(&body("")).expect("convert");
    let (off, no) = anthropic(&body(r#","stream":false"#)).expect("convert");
    let (odd, other) = anthropic(&body(r#","stream":"x""#)).expect("convert");
    assert_eq!((default, no, other), (true, false, true));
    assert_eq!(silent, off);
    assert_eq!(silent, odd);
    assert_eq!(silent["stream"], true);
    assert_eq!(
        anthropic_error(r#"{"stream":false,"messages":[7]}"#),
        anthropic_error(r#"{"messages":[7]}"#)
    );
}

#[test]
fn chat_messages_put_together_convert_to_both() {
    let first = r#"{"role":"system","content":"a"},{"role":"user","content":"one"}"#;
    let second = r#"{"role":"tool","tool_call_id":"t","content":"two"},{"role":"developer","content":"b"}"#;
    let silent = r#"{"role":"user","content":"three"}"#;
    let convert = |messages: &str| {
        openai(&format!(r#"{{"model":"m","messages":[{messages}]}}"#)).expect("convert").0
    };
    let items = |payload: &Value| payload["input"].as_array().expect("input").clone();
    let both = convert(&format!("{first},{second}"));
    let mut input = items(&convert(first));
    input.extend(items(&convert(second)));
    assert_eq!(items(&both), input);
    assert_eq!(both["instructions"], "a\n\nb");
    assert_eq!(convert(&format!("{silent},{second}"))["instructions"], "b");
    assert_eq!(convert(&format!("{first},{silent}"))["instructions"], "a");
    assert_eq!(convert(silent)["instructions"], "");
}

#[test]
fn anthropic_messages_put_together_convert_to_both() {
    let first = r#"{"role":"user","content":"one"},{"role":"assistant","content":"two"}"#;
    let second = r#"{"role":"tool","tool_call_id":"t","content":"three"}"#;
    let convert = |messages: &str| {
        anthropic(&format!(r#"{{"system":"s","messages":[{messages}]}}"#)).expect("convert").0
    };
    let items = |payload: &Value| payload["input"].as_array().expect("input").clone();
    let both = convert(&format!("{first},{second}"));
    let mut input = items(&convert(first));
    input.extend(items(&convert(second)));
    assert_eq!(items(&both), input);
    assert_eq!(input.len(), 3);
    assert_eq!(both["instructions"], "s");
}
