use codex_gateway::chat_completion::{
    build_chat_completion_at, build_chat_completion_from_responses, build_openai_tool_call,
    build_openai_usage, extract_function_call_arguments_raw, extract_response_message_content,
    infer_finish_reason, map_responses_error_to_openai, saturating_sum,
};
use codex_gateway::chat_sse::{
    append_openai_sse_chunk, build_chat_sse_at, build_chat_sse_from_chat_completion,
    convert_json_to_json_at, convert_json_to_sse_at, convert_responses_json_to_chat_json,
    convert_responses_json_to_chat_sse, convert_responses_sse_to_chat_json,
    convert_responses_sse_to_chat_sse, convert_sse_to_json_at, convert_sse_to_sse_at,
};
use codex_gateway::clock::{current_unix_seconds, unix_seconds};
use codex_gateway::codec::{json_from_value, read_json, value_from_json, write_json, write_json_bytes};
use codex_gateway::json::{Json, JsonMap};
use codex_gateway::response_stream::{
    build_chat_completion_from_responses_stream, build_stream_completion_at, capture_stream,
    merge_stream_accumulator_into_response, synthesize_responses_payload_from_stream,
    StreamingResponsesState,
};
use serde_json::Value;

fn parse(text: &str) -> Value {
    serde_json::from_str(text).expect("json")
}

fn json(text: &str) -> Json {
    json_from_value(parse(text))
}

fn fields(text: &str) -> JsonMap {
    match json(text) {
        Json::Object(map) => map,
        _ => panic!("object expected"),
    }
}

fn shown(value: &Json) -> Value {
    value_from_json(value)
}

fn events(body: &[u8]) -> Vec<Value> {
    let text = std::str::from_utf8(body).expect("utf8");
    let mut events: Vec<&str> = text.split("\n\n").collect();
    assert_eq!(events.pop(), Some(""));
    assert_eq!(events.pop(), Some("data: [DONE]"));
    events
        .iter()
        .map(|event| parse(event.strip_prefix("data: ").expect("data")))
        .collect()
}

#[test]
fn responses_json_maps_to_chat_completion() {
    let source = json(
        r#"{
            "id": "resp_1",
            "model": "gpt-5.3-codex",
            "output_text": "hello",
            "usage": {
                "input_tokens": 7,
                "output_tokens": 3,
                "total_tokens": 10
            }
        }"#,
    );
    let payload = shown(&build_chat_completion_from_responses(&source).expect("convert"));
    assert_eq!(payload["object"], "chat.completion");
    assert_eq!(payload["choices"][0]["message"]["content"], "hello");
    assert_eq!(payload["choices"][0]["finish_reason"], "stop");
    assert_eq!(payload["usage"]["prompt_tokens"], 7);
    assert_eq!(payload["usage"]["completion_tokens"], 3);
}

#[test]
fn responses_json_maps_function_calls() {
    let source = json(
        r#"{
            "id": "resp_2",
            "model": "gpt-5.3-codex",
            "output": [{
                "type": "function_call",
                "call_id": "call_1",
                "name": "read_file",
                "input": { "path": "README.md" }
            }]
        }"#,
    );
    let payload = shown(&build_chat_completion_from_responses(&source).expect("convert"));
    assert_eq!(payload["choices"][0]["finish_reason"], "tool_calls");
    assert_eq!(
        payload["choices"][0]["message"]["tool_calls"][0]["id"],
        "call_1"
    );
    assert_eq!(
        payload["choices"][0]["message"]["tool_calls"][0]["function"]["arguments"],
        "{\"path\":\"README.md\"}"
    );
}

#[test]
fn responses_sse_maps_to_chat_completion_json() {
    let source = concat_parts(&[
        "data: {\"type\":\"response.output_text.delta\",\"delta\":\"hel\"}\n\n",
        "data: {\"type\":\"response.output_text.delta\",\"delta\":\"lo\"}\n\n",
        "data: {\"type\":\"response.completed\",\"response\":{\"id\":\"resp_1\",\"model\":\"gpt-5.3-codex\",\"usage\":{\"input_tokens\":4,\"output_tokens\":2,\"total_tokens\":6}}}\n\n",
        "data: [DONE]\n\n",
    ]);
    let (body, content_type) =
        convert_responses_sse_to_chat_json(source.as_bytes()).expect("convert");
    assert_eq!(content_type, "application/json");
    let payload: Value = serde_json::from_slice(&body).expect("json");
    assert_eq!(payload["choices"][0]["message"]["content"], "hello");
}

#[test]
fn responses_sse_maps_to_chat_completion_sse() {
    let source = concat_parts(&[
        "data: {\"type\":\"response.output_text.delta\",\"delta\":\"hello\"}\n\n",
        "data: {\"type\":\"response.completed\",\"response\":{\"id\":\"resp_1\",\"model\":\"gpt-5.3-codex\",\"usage\":{\"input_tokens\":4,\"output_tokens\":2,\"total_tokens\":6}}}\n\n",
        "data: [DONE]\n\n",
    ]);
    let (body, content_type) =
        convert_responses_sse_to_chat_sse(source.as_bytes()).expect("convert");
    assert_eq!(content_type, "text/event-stream");
    let text = String::from_utf8(body).expect("utf8");
    assert!(text.contains("\"object\":\"chat.completion.chunk\""));
    assert!(text.contains("\"content\":\"hello\""));
    assert!(text.contains("data: [DONE]"));
}

#[test]
fn responses_json_error_maps_to_openai_error() {
    let source = parse(
        r#"{
            "error": {
                "message": "Model not found",
                "type": "invalid_request_error",
                "code": "model_not_found"
            }
        }"#,
    );
    let (body, content_type) =
        convert_responses_json_to_chat_json(&serde_json::to_vec(&source).expect("serialize"))
            .expect("convert");
    assert_eq!(content_type, "application/json");
    let payload: Value = serde_json::from_slice(&body).expect("json");
    assert_eq!(payload["error"]["message"], "Model not found");
    assert_eq!(payload["error"]["code"], "model_not_found");
}

fn concat_parts(parts: &[&str]) -> String {
    parts.join("")
}

#[test]
fn completion_comes_out_whole() {
    let source = json(
        r#"{"response":{
            "output": [
                7,
                {"type":"reasoning"},
                {"type":"message","content":[
                    {"type":"output_text","text":"a"}, 7, {"type":"refusal","text":"no"},
                    {"type":"text","text":"b"}, {"type":"output_text"}]},
                {"type":"function_call","id":"x","name":" f ","arguments":"{\"k\":1}"},
                {"type":"function_call","name":"g","arguments":null}
            ],
            "output_text": "not shown",
            "error": null,
            "usage": {"prompt_tokens":5,"completion_tokens":"many"}
        }}"#,
    );
    let payload = shown(&build_chat_completion_at(&source, 77).expect("convert"));
    assert_eq!(
        payload,
        parse(
            r#"{
                "id": "chatcmpl_codexmanager",
                "object": "chat.completion",
                "created": 77,
                "model": "unknown",
                "choices": [{"index":0,"finish_reason":"tool_calls","message":{
                    "role":"assistant","content":"ab","tool_calls":[
                        {"id":"x","type":"function","function":{"name":"f","arguments":"{\"k\":1}"}},
                        {"id":"call_1","type":"function","function":{"name":"g","arguments":"{}"}}
                    ]}}],
                "usage": {"prompt_tokens":5,"completion_tokens":0,"total_tokens":5}
            }"#
        )
    );
    assert_eq!(
        build_chat_completion_at(&json(r#"{"output":[{"type":"function_call","name":" "}]}"#), 0)
            .err(),
        Some("missing responses function_call name".to_string())
    );
}

#[test]
fn errors_are_found_wherever_they_stand() {
    let mapped = |text: &str| map_responses_error_to_openai(&json(text)).map(|e| shown(&e));
    assert_eq!(mapped("{}"), None);
    assert_eq!(mapped(r#"{"error":null}"#), None);
    assert_eq!(mapped(r#"{"error":"text"}"#), None);
    assert_eq!(
        mapped(r#"{"error":{}}"#),
        Some(parse(r#"{"error":{"message":"upstream request failed","type":"api_error"}}"#))
    );
    assert_eq!(
        mapped(r#"{"type":"ERROR","error":null}"#),
        None
    );
    assert_eq!(
        mapped(r#"{"type":"Error","message":" m ","code":" c ","param":"p"}"#),
        Some(parse(r#"{"error":{"message":"m","type":"Error","code":"c","param":"p"}}"#))
    );
    assert_eq!(
        mapped(r#"{"response":{"error":{"error":"inner","code":" "}}}"#),
        Some(parse(r#"{"error":{"message":"inner","type":"api_error"}}"#))
    );
    assert_eq!(
        mapped(r#"{"response":{"status_details":{"error":{"message":"deep"}}}}"#),
        Some(parse(r#"{"error":{"message":"deep","type":"api_error"}}"#))
    );
}

#[test]
fn pieces_of_a_completion_are_made_one_by_one() {
    assert_eq!(
        extract_function_call_arguments_raw(&fields(r#"{"arguments":"raw","input":{}}"#)),
        Some("raw".to_string())
    );
    assert_eq!(
        extract_function_call_arguments_raw(&fields(r#"{"arguments":null,"input":[1]}"#)),
        Some("[1]".to_string())
    );
    assert_eq!(extract_function_call_arguments_raw(&fields("{}")), None);
    let call = build_openai_tool_call(&fields(r#"{"name":"f"}"#), 3).expect("call");
    assert_eq!(
        shown(&call),
        parse(r#"{"id":"call_3","type":"function","function":{"name":"f","arguments":"{}"}}"#)
    );
    let (text, calls) =
        extract_response_message_content(&json(r#"{"output_text":"t","output":{}}"#)).expect("text");
    assert_eq!(text, "t");
    assert!(calls.is_empty());
    let (silent, _) = extract_response_message_content(&json(
        r#"{"output_text":"t","output":[{"type":"message","content":[{"type":"text","text":""}]}]}"#,
    ))
    .expect("text");
    assert_eq!(silent, "");
    let reason = |text: &str, calls: bool| infer_finish_reason(&json(text), calls);
    assert_eq!(reason("{}", false), "stop");
    assert_eq!(reason(r#"{"incomplete_details":{"reason":"max_output_tokens"}}"#, false), "length");
    assert_eq!(reason(r#"{"status_details":{"reason":"over length"}}"#, false), "length");
    assert_eq!(
        reason(
            r#"{"incomplete_details":{"reason":"content_filter"},"status_details":{"reason":"length"}}"#,
            false
        ),
        "stop"
    );
    assert_eq!(reason(r#"{"incomplete_details":{"reason":"length"}}"#, true), "tool_calls");
}

#[test]
fn usage_adds_up_and_stays_in_range() {
    let usage = |text: &str| shown(&build_openai_usage(&json(text)));
    assert_eq!(
        usage("{}"),
        parse(r#"{"prompt_tokens":0,"completion_tokens":0,"total_tokens":0}"#)
    );
    assert_eq!(
        usage(r#"{"usage":{"input_tokens":2,"prompt_tokens":9,"output_tokens":3}}"#),
        parse(r#"{"prompt_tokens":2,"completion_tokens":3,"total_tokens":5}"#)
    );
    assert_eq!(
        usage(r#"{"usage":{"input_tokens":9223372036854775807,"output_tokens":3}}"#)["total_tokens"],
        9223372036854775807i64
    );
    assert_eq!(
        usage(r#"{"usage":{"input_tokens":-9223372036854775808,"output_tokens":-3}}"#)["total_tokens"],
        -9223372036854775808i64
    );
    assert_eq!(
        usage(r#"{"usage":{"input_tokens":18446744073709551615}}"#)["prompt_tokens"],
        0
    );
    assert_eq!(saturating_sum(-4, 9), 5);
}

#[test]
fn stream_is_put_together_again() {
    let text = concat_parts(&[
        ": comment\r\n",
        "event: x\n",
        "data: {\"id\":\"ev\",\"model\":\"m0\"}\n",
        "  data:data: {\"type\":\"response.output_text.delta\",\"delta\":\"a\"} \r\n",
        "data: not json\n",
        "data: {\"type\":\"response.output_text.delta\"}\n",
        "data: {\"type\":\"response.output_item.done\",\"output_index\":2,\"item\":{\"type\":\"function_call\",\"call_id\":\"c2\",\"name\":\"two\",\"arguments\":\"{}\"}}\n",
        "data: {\"type\":\"response.output_item.done\",\"item\":{\"type\":\"function_call\",\"index\":0}}\n",
        "data: {\"type\":\"response.output_item.done\",\"item\":{\"type\":\"message\"}}\n",
        "data: {\"type\":\"response.output_item.done\",\"item\":{\"type\":\"function_call\",\"name\":\"again\"}}\n",
        "data: {\"type\":\"response.in_progress\",\"response\":{\"id\":\"r\",\"usage\":{\"input_tokens\":4}}}\n",
        "data: {\"type\":\"response.output_text.delta\",\"delta\":\"b\"}\n",
        "data: [DONE]\n",
        "data: {\"type\":\"response.output_text.delta\",\"delta\":\"never\"}\n",
    ]);
    let state = capture_stream(&text);
    assert_eq!(state.content_text, "ab");
    assert_eq!(state.response_id.as_deref(), Some("r"));
    assert_eq!(state.model.as_deref(), Some("m0"));
    assert_eq!(state.input_tokens, Some(4));
    assert_eq!(state.output_tokens, None);
    let places: Vec<usize> = state.tool_calls.keys().copied().collect();
    assert_eq!(places, vec![0, 2]);
    assert_eq!(state.tool_calls[&2].name.as_deref(), Some("again"));
    assert_eq!(state.tool_calls[&2].id.as_deref(), Some("c2"));
    let payload = synthesize_responses_payload_from_stream(&state).expect("payload");
    assert_eq!(
        shown(&payload),
        parse(
            r#"{
                "id":"r","model":"m0","output_text":"ab",
                "output":[
                    {"type":"message","role":"assistant","content":[{"type":"output_text","text":"ab"}]},
                    {"type":"function_call","call_id":"call_0","name":"tool","arguments":""},
                    {"type":"function_call","call_id":"c2","name":"again","arguments":"{}"}
                ],
                "usage":{"input_tokens":4,"output_tokens":0,"total_tokens":4}
            }"#
        )
    );
    let completion = shown(&build_stream_completion_at(&text, 5).expect("completion"));
    assert_eq!(completion["choices"][0]["message"]["content"], "ab");
    assert_eq!(completion["choices"][0]["message"]["tool_calls"][1]["id"], "c2");
    assert_eq!(completion["created"], 5);
}

#[test]
fn empty_stream_is_an_empty_completion() {
    let payload = shown(&build_chat_completion_from_responses_stream("").expect("completion"));
    assert_eq!(payload["id"], "resp_codexmanager");
    assert_eq!(payload["model"], "unknown");
    assert_eq!(payload["choices"][0]["message"]["content"], "");
    assert_eq!(payload["choices"][0]["finish_reason"], "stop");
}

#[test]
fn stream_error_ends_the_stream() {
    let text = concat_parts(&[
        "data: {\"type\":\"response.output_text.delta\",\"delta\":\"a\"}\n",
        "data: {\"type\":\"error\",\"message\":\"boom\"}\n",
        "data: {\"type\":\"response.completed\",\"response\":{}}\n",
    ]);
    let expected = parse(r#"{"error":{"message":"boom","type":"error"}}"#);
    assert_eq!(shown(&build_stream_completion_at(&text, 1).expect("error")), expected);
    let (body, kind) = convert_responses_sse_to_chat_sse(text.as_bytes()).expect("reply");
    assert_eq!(kind, "application/json");
    assert_eq!(serde_json::from_slice::<Value>(&body).expect("json"), expected);
}

#[test]
fn completed_answer_is_filled_from_the_stream() {
    let text = concat_parts(&[
        "data: {\"type\":\"response.output_text.delta\",\"delta\":\"told\"}\n",
        "data: {\"type\":\"response.output_item.done\",\"item\":{\"type\":\"function_call\",\"call_id\":\"known\",\"name\":\"k\"}}\n",
        "data: {\"type\":\"response.output_item.done\",\"item\":{\"type\":\"function_call\",\"call_id\":\"new\",\"name\":\"n\"}}\n",
    ]);
    let state = capture_stream(&text);
    let mut response = json(r#"{"output_text":" ","output":[{"id":"known"},7]}"#);
    merge_stream_accumulator_into_response(&mut response, &state).expect("merge");
    assert_eq!(
        shown(&response),
        parse(
            r#"{"output_text":"told","output":[{"id":"known"},7,
                {"type":"function_call","call_id":"new","name":"n","arguments":""}]}"#
        )
    );
    let mut own = json(r#"{"output_text":"own"}"#);
    merge_stream_accumulator_into_response(&mut own, &StreamingResponsesState::new()).expect("merge");
    assert_eq!(shown(&own), parse(r#"{"output_text":"own","output":[]}"#));
    let mut wrong = json("7");
    assert_eq!(
        merge_stream_accumulator_into_response(&mut wrong, &state),
        Err("invalid response.completed payload".to_string())
    );
    assert_eq!(shown(&wrong), parse("7"));
    assert_eq!(
        build_chat_completion_from_responses_stream(
            "data: {\"type\":\"response.completed\",\"response\":[]}"
        )
        .err(),
        Some("invalid response.completed payload".to_string())
    );
}

#[test]
fn chunks_come_out_whole() {
    let completion = json(
        r#"{"id":"i","created":9,"model":"m","usage":{"total_tokens":1},"choices":[{
            "finish_reason":"tool_calls","message":{"content":"t","tool_calls":[
                {"id":"a","function":{"name":"f"}},{}]}}]}"#,
    );
    let (body, kind) = build_chat_sse_at(&completion, 0).expect("sse");
    assert_eq!(kind, "text/event-stream");
    let chunk = |delta: &str, reason: &str, usage: &str| {
        parse(&format!(
            r#"{{"id":"i","object":"chat.completion.chunk","created":9,"model":"m","choices":[
                {{"index":0,"delta":{delta},"finish_reason":{reason}}}]{usage}}}"#
        ))
    };
    assert_eq!(
        events(&body),
        vec![
            chunk(r#"{"role":"assistant"}"#, "null", ""),
            chunk(r#"{"content":"t"}"#, "null", ""),
            chunk(
                r#"{"tool_calls":[{"index":0,"id":"a","type":"function","function":{"name":"f"}}]}"#,
                "null",
                ""
            ),
            chunk(
                r#"{"tool_calls":[{"index":1,"id":"call_1","type":"function","function":{}}]}"#,
                "null",
                ""
            ),
            chunk("{}", r#""tool_calls""#, r#","usage":{"total_tokens":1}"#),
        ]
    );
}

#[test]
fn chunks_have_defaults_and_refusals() {
    let (body, _) = build_chat_sse_at(&json(r#"{"choices":[{"message":{"content":""}}]}"#), 33).expect("sse");
    let sent = events(&body);
    assert_eq!(sent.len(), 2);
    assert_eq!(sent[0]["id"], "chatcmpl_codexmanager");
    assert_eq!(sent[0]["model"], "unknown");
    assert_eq!(sent[0]["created"], 33);
    assert_eq!(sent[1]["choices"][0]["finish_reason"], "stop");
    assert_eq!(sent[1]["usage"], parse("{}"));
    let refused = |text: &str| build_chat_sse_from_chat_completion(&json(text)).expect_err("refused");
    assert_eq!(refused("{}"), "missing openai chat choice");
    assert_eq!(refused(r#"{"choices":[]}"#), "missing openai chat choice");
    assert_eq!(refused(r#"{"choices":[{}]}"#), "missing openai chat message");
    let mut buffer = "x".to_string();
    append_openai_sse_chunk(&mut buffer, &json(r#"{"b":1,"a":2}"#));
    assert_eq!(buffer, "xdata: {\"a\":2,\"b\":1}\n\n");
}

#[test]
fn replies_refuse_what_cannot_be_read() {
    assert_eq!(
        convert_responses_json_to_chat_json(b"{"),
        Err("invalid upstream json response".to_string())
    );
    assert_eq!(
        convert_responses_json_to_chat_sse(b"{"),
        Err("invalid upstream json response".to_string())
    );
    assert_eq!(
        convert_responses_sse_to_chat_json(&[0xff]),
        Err("invalid upstream sse bytes".to_string())
    );
    assert_eq!(
        convert_responses_sse_to_chat_sse(&[0xff]),
        Err("invalid upstream sse bytes".to_string())
    );
}

#[test]
fn json_and_stream_replies_agree() {
    let body = "{\"output_text\":\"gr\u{fc}n\",\"id\":\"r\"}".as_bytes();
    let (plain, kind) = convert_json_to_json_at(body, 4).expect("json");
    assert_eq!(kind, "application/json");
    let completion: Value = serde_json::from_slice(&plain).expect("json");
    assert_eq!(completion["choices"][0]["message"]["content"], "gr\u{fc}n");
    let (streamed, kind) = convert_json_to_sse_at(body, 4).expect("sse");
    assert_eq!(kind, "text/event-stream");
    let chunks = events(&streamed);
    assert_eq!(chunks[1]["choices"][0]["delta"]["content"], "gr\u{fc}n");
    assert_eq!(chunks[1]["created"], 4);
    let upstream = "data: {\"type\":\"response.output_text.delta\",\"delta\":\"gr\u{fc}n\"}\n".as_bytes();
    let (told, _) = convert_sse_to_json_at(upstream, 4).expect("json");
    let told: Value = serde_json::from_slice(&told).expect("json");
    assert_eq!(told["choices"], completion["choices"]);
    let (again, _) = convert_sse_to_sse_at(upstream, 4).expect("sse");
    assert_eq!(events(&again)[1]["choices"], chunks[1]["choices"]);
    let (error, kind) = convert_json_to_sse_at(b"{\"error\":{}}", 4).expect("error");
    assert_eq!(kind, "application/json");
    assert!(serde_json::from_slice::<Value>(&error).expect("json").get("error").is_some());
}

#[test]
fn json_text_is_read_and_written() {
    let text = r#"{"a":[1,-2,18446744073709551615,1.5,true,null],"b":{"c":"\u0007\"x"}}"#;
    let value = read_json(text.as_bytes()).expect("json");
    assert_eq!(write_json(&value), r#"{"a":[1,-2,18446744073709551615,1.5,true,null],"b":{"c":"\u0007\"x"}}"#);
    assert_eq!(write_json_bytes(&value), write_json(&value).into_bytes());
    assert_eq!(shown(&value.clone()), parse(text));
    assert!(read_json(b"[").is_none());
    let twice = read_json(br#"{"k":1,"k":2}"#).expect("json");
    assert_eq!(write_json(&twice), r#"{"k":2}"#);
    assert_eq!(value.get("a").and_then(|a| a.as_array()).map(|a| a[2].as_u64()), Some(Some(u64::MAX)));
    assert_eq!(value.get("a").and_then(|a| a.as_array()).map(|a| a[3].as_i64()), Some(None));
}

#[test]
fn clock_tells_unix_time() {
    assert_eq!(unix_seconds(None), 0);
    assert_eq!(unix_seconds(Some(12)), 12);
    let now = std::time::SystemTime::now()
        .duration_since(std::time::UNIX_EPOCH)
        .expect("clock")
        .as_secs() as i64;
    let told = current_unix_seconds();
    assert!(now <= told && told <= now + 10);
}

#[test]
fn nothing_after_done_and_no_silent_line_counts() {
    let told = "data: {\"type\":\"response.output_text.delta\",\"delta\":\"a\"}\n";
    let more = "data: {\"type\":\"response.output_text.delta\",\"delta\":\"b\"}\n";
    let silent = ": note\n\r\ndata: {broken\nevent: response.completed\n";
    let completion = |text: &str| shown(&build_stream_completion_at(text, 3).expect("completion"));
    assert_eq!(
        completion(&concat_parts(&[told, "data: [DONE]\n", more])),
        completion(told)
    );
    assert_eq!(
        completion(&concat_parts(&[told, silent, more])),
        completion(&concat_parts(&[told, more]))
    );
    assert_eq!(completion(&concat_parts(&["data: [DONE]\n", more])), completion(""));
}

#[test]
fn stream_replies_agree_whenever_they_are_made() {
    for body in [
        &b"data: {\"type\":\"error\",\"message\":\"m\"}\n"[..],
        &b"data: {\"type\":\"response.completed\",\"response\":7}\n"[..],
        &b"data: {\"type\":\"response.output_text.delta\",\"delta\":\"x\"}\n"[..],
        &b"\xff"[..],
    ] {
        let plain = convert_sse_to_json_at(body, 1);
        let streamed = convert_sse_to_sse_at(body, 2);
        match plain {
            Ok((bytes, kind)) => {
                let payload: Value = serde_json::from_slice(&bytes).expect("json");
                if payload.get("error").is_some() {
                    assert_eq!(streamed, Ok((bytes, kind)));
                } else {
                    assert_eq!(streamed.expect("stream").1, "text/event-stream");
                }
            }
            Err(e) => assert_eq!(streamed, Err(e)),
        }
    }
}
