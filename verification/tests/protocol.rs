use codex_gateway::json::JsonMap;
use codex_gateway::protocol_adapter::{
    adapt_request_for_protocol, adapt_upstream_response, build_anthropic_error_body,
    is_codex_upstream, maybe_adapt_openai_chat_compat, AdaptedGatewayRequest, ResponseAdapter,
    PROTOCOL_ANTHROPIC_NATIVE,
};

fn normalize(raw: &str) -> Option<String> {
    Some(raw.to_string())
}

fn no_key(_request: &JsonMap, _model: &str) -> Option<String> {
    None
}

fn resolve() -> String {
    "https://chatgpt.com/backend-api/codex/".to_string()
}

fn normalize_base(base: &str) -> String {
    base.trim_end_matches('/').to_string()
}

fn is_backend(base: &str) -> bool {
    base == "https://chatgpt.com/backend-api/codex"
}

fn chat(
    path: &str,
    body: Vec<u8>,
    request_stream: bool,
    base: Option<&str>,
) -> Result<Option<AdaptedGatewayRequest>, String> {
    maybe_adapt_openai_chat_compat(
        path,
        body,
        request_stream,
        base,
        &normalize,
        &resolve,
        &normalize_base,
        &is_backend,
    )
}

fn chat_body(stream: bool) -> Vec<u8> {
    let text = format!(
        r#"{{"model":"gpt-5.3-codex","messages":[{{"role":"user","content":"hello"}}],"stream":{stream}}}"#
    );
    let value: serde_json::Value = serde_json::from_str(&text).expect("json");
    serde_json::to_vec(&value).expect("serialize")
}

#[test]
fn codex_backend_rewrites_chat_completions_to_responses() {
    let body = chat_body(false);
    let adapted = chat(
        "/v1/chat/completions",
        body,
        false,
        Some("https://chatgpt.com/backend-api/codex"),
    )
    .expect("adapt")
    .expect("compat enabled");
    assert_eq!(adapted.path, "/v1/responses");
    assert_eq!(adapted.response_adapter, ResponseAdapter::OpenAiChatJson);
}

#[test]
fn openai_api_base_keeps_chat_completions_passthrough() {
    let body = chat_body(true);
    let adapted = chat(
        "/v1/chat/completions",
        body,
        true,
        Some("https://api.openai.com/v1"),
    )
    .expect("adapt");
    assert!(adapted.is_none());
}

#[test]
fn chat_rewrite_keeps_the_query_and_finds_the_upstream() {
    let adapted = chat("/v1/chat/completions?a=1?b", chat_body(false), true, None)
        .expect("adapt")
        .expect("compat enabled");
    assert_eq!(adapted.path, "/v1/responses?a=1?b");
    assert_eq!(adapted.response_adapter, ResponseAdapter::OpenAiChatSse);
    let payload: serde_json::Value = serde_json::from_slice(&adapted.body).expect("json");
    assert_eq!(payload["input"][0]["content"][0]["text"], "hello");
    let same = chat("/v1/chat/completions?", chat_body(false), false, None)
        .expect("adapt")
        .expect("compat enabled");
    assert_eq!(same.path, "/v1/responses?");
}

#[test]
fn other_paths_and_bad_requests_are_told_apart() {
    assert!(chat("/v1/chat/completionsx", b"{".to_vec(), false, None).expect("adapt").is_none());
    assert!(chat("/v1/models", b"{".to_vec(), false, None).expect("adapt").is_none());
    assert_eq!(
        chat("/v1/chat/completions", b"{".to_vec(), false, None).expect_err("refused"),
        "invalid openai chat request json"
    );
    assert!(is_codex_upstream(None, &resolve, &normalize_base, &is_backend));
    assert!(!is_codex_upstream(Some("x"), &resolve, &normalize_base, &is_backend));
}

#[test]
fn messages_requests_are_rewritten_for_their_protocol_alone() {
    let body = br#"{"messages":[{"role":"user","content":"hi"}],"stream":false}"#.to_vec();
    let adapted = adapt_request_for_protocol(
        PROTOCOL_ANTHROPIC_NATIVE,
        "/v1/messages?beta=true",
        body.clone(),
        &normalize,
        &no_key,
    )
    .expect("adapt");
    assert_eq!(adapted.path, "/v1/responses");
    assert_eq!(adapted.response_adapter, ResponseAdapter::AnthropicJson);
    assert_ne!(adapted.body, body);
    let streamed = adapt_request_for_protocol(
        PROTOCOL_ANTHROPIC_NATIVE,
        "/v1/messages",
        br#"{"messages":[]}"#.to_vec(),
        &normalize,
        &no_key,
    )
    .expect("adapt");
    assert_eq!(streamed.response_adapter, ResponseAdapter::AnthropicSse);
    for (protocol, path) in [
        ("openai_compat", "/v1/messages"),
        (PROTOCOL_ANTHROPIC_NATIVE, "/v1/messages/count_tokens"),
    ] {
        let passed = adapt_request_for_protocol(protocol, path, body.clone(), &normalize, &no_key)
            .expect("adapt");
        assert_eq!(passed.path, path);
        assert_eq!(passed.body, body);
        assert_eq!(passed.response_adapter, ResponseAdapter::Passthrough);
    }
    assert_eq!(
        adapt_request_for_protocol(
            PROTOCOL_ANTHROPIC_NATIVE,
            "/v1/messages",
            b"{}".to_vec(),
            &normalize,
            &no_key
        )
        .expect_err("refused"),
        "anthropic messages field is required"
    );
}

#[test]
fn responses_and_errors_are_handed_on() {
    let convert = |adapter: ResponseAdapter, kind: Option<&str>, body: &[u8]| {
        if adapter == ResponseAdapter::Passthrough && kind == Some("a/b") {
            Ok((body.to_vec(), "a/b"))
        } else {
            Err("no".to_string())
        }
    };
    assert_eq!(
        adapt_upstream_response(ResponseAdapter::Passthrough, Some("a/b"), b"xy", &convert),
        Ok((b"xy".to_vec(), "a/b"))
    );
    assert_eq!(
        adapt_upstream_response(ResponseAdapter::AnthropicSse, None, b"xy", &convert),
        Err("no".to_string())
    );
    let build = |message: &str| message.as_bytes().to_vec();
    assert_eq!(build_anthropic_error_body("oops", &build), b"oops".to_vec());
}
