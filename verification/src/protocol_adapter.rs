//! Which requests are rewritten for the Responses interface, and how.

use vstd::prelude::*;
use vstd::string::*;

use crate::anthropic_request::{anthropic_converted, convert_anthropic_messages_request};
use crate::json::JsonMap;
use crate::openai_request::{
    bytes_outcome, convert_openai_chat_completions_request, openai_converted,
};
use crate::sequence::Outcome;
use crate::text::{
    after_first, concat_text, first_at, has_prefix, lemma_first_at_is, opt_str, starts_with, str_eq,
};

verus! {

/// The protocol of clients that speak Anthropic's messages interface.
pub const PROTOCOL_ANTHROPIC_NATIVE: &'static str = "anthropic_native";

/// What becomes of the upstream's response.
#[derive(Debug, Clone, Copy, PartialEq, Eq, Structural)]
pub enum ResponseAdapter {
    Passthrough,
    AnthropicJson,
    AnthropicSse,
    OpenAiChatJson,
    OpenAiChatSse,
}

/// A request as it goes upstream.
#[derive(Debug)]
pub struct AdaptedGatewayRequest {
    pub path: String,
    pub body: Vec<u8>,
    pub response_adapter: ResponseAdapter,
}

/// What a request as it goes upstream holds.
pub struct AdaptedV {
    pub path: Seq<char>,
    pub body: Seq<u8>,
    pub response_adapter: ResponseAdapter,
}

impl AdaptedGatewayRequest {
    pub open spec fn view(&self) -> AdaptedV {
        AdaptedV {
            path: self.path@,
            body: self.body@,
            response_adapter: self.response_adapter,
        }
    }
}

/// What an adapted request that may fail to come holds.
pub open spec fn adapted_outcome(r: Result<AdaptedGatewayRequest, String>) -> Outcome<AdaptedV> {
    match r {
        Ok(request) => Ok(request@),
        Err(e) => Err(e@),
    }
}

/// What an adapted request that there may be, or that may fail to come, holds.
pub open spec fn optional_outcome(r: Result<Option<AdaptedGatewayRequest>, String>) -> Outcome<
    Option<AdaptedV>,
> {
    match r {
        Ok(Some(request)) => Ok(Some(request@)),
        Ok(None) => Ok(None),
        Err(e) => Err(e@),
    }
}

/// A path of the messages interface.
pub open spec fn is_messages_path(path: Seq<char>) -> bool {
    path == "/v1/messages"@ || has_prefix(path, "/v1/messages?"@)
}

/// A path of the chat completions interface.
pub open spec fn is_chat_path(path: Seq<char>) -> bool {
    path == "/v1/chat/completions"@ || has_prefix(path, "/v1/chat/completions?"@)
}

/// The path of the Responses interface with the query of `path`.
pub open spec fn responses_path(path: Seq<char>) -> Seq<char> {
    if first_at(path, '?') < path.len() {
        "/v1/responses?"@ + path.skip(first_at(path, '?') + 1)
    } else {
        "/v1/responses"@
    }
}

/// A request that goes upstream as it came.
pub open spec fn passed_through(path: Seq<char>, body: Seq<u8>) -> AdaptedV {
    AdaptedV { path, body, response_adapter: ResponseAdapter::Passthrough }
}

/// The request that a converted messages request comes to.
pub open spec fn adapted_messages(converted: Outcome<(Seq<u8>, bool)>) -> Outcome<AdaptedV> {
    match converted {
        Ok((body, stream)) => Ok(
            AdaptedV {
                path: "/v1/responses"@,
                body,
                response_adapter: if stream {
                    ResponseAdapter::AnthropicSse
                } else {
                    ResponseAdapter::AnthropicJson
                },
            },
        ),
        Err(e) => Err(e),
    }
}

/// The request that a converted chat request comes to. Whether the answer is wanted piece by piece
/// is `request_stream`, and not what the request itself says.
pub open spec fn adapted_chat(
    path: Seq<char>,
    request_stream: bool,
    converted: Outcome<(Seq<u8>, bool)>,
) -> Outcome<Option<AdaptedV>> {
    match converted {
        Ok((body, _)) => Ok(
            Some(
                AdaptedV {
                    path: responses_path(path),
                    body,
                    response_adapter: if request_stream {
                        ResponseAdapter::OpenAiChatSse
                    } else {
                        ResponseAdapter::OpenAiChatJson
                    },
                },
            ),
        ),
        Err(e) => Err(e),
    }
}

/// Whether a request is for the messages interface and comes from a client that speaks it.
pub fn wants_messages_conversion(protocol_type: &str, path: &str) -> (r: bool)
    ensures
        r == (protocol_type@ == PROTOCOL_ANTHROPIC_NATIVE@ && is_messages_path(path@)),
{
    str_eq(protocol_type, PROTOCOL_ANTHROPIC_NATIVE) && (str_eq(path, "/v1/messages")
        || starts_with(path, "/v1/messages?"))
}

/// Whether a request is for the chat completions interface.
pub fn wants_chat_conversion(path: &str) -> (r: bool)
    ensures
        r == is_chat_path(path@),
{
    str_eq(path, "/v1/chat/completions") || starts_with(path, "/v1/chat/completions?")
}

/// The request that a converted messages request comes to.
pub fn adapt_converted_messages(converted: Result<(Vec<u8>, bool), String>) -> (r: Result<
    AdaptedGatewayRequest,
    String,
>)
    ensures
        adapted_outcome(r) == adapted_messages(bytes_outcome(converted)),
{
    match converted {
        Ok((body, request_stream)) => {
            let response_adapter = if request_stream {
                ResponseAdapter::AnthropicSse
            } else {
                ResponseAdapter::AnthropicJson
            };
            Ok(AdaptedGatewayRequest { path: "/v1/responses".to_owned(), body, response_adapter })
        },
        Err(e) => Err(e),
    }
}

/// The request that a converted chat request comes to.
pub fn adapt_converted_chat(
    path: &str,
    request_stream: bool,
    converted: Result<(Vec<u8>, bool), String>,
) -> (r: Result<Option<AdaptedGatewayRequest>, String>)
    ensures
        optional_outcome(r) == adapted_chat(path@, request_stream, bytes_outcome(converted)),
{
    match converted {
        Ok((body, _)) => {
            let adapted_path = match after_first(path, '?') {
                Some(query) => concat_text("/v1/responses?", query),
                None => "/v1/responses".to_owned(),
            };
            let response_adapter = if request_stream {
                ResponseAdapter::OpenAiChatSse
            } else {
                ResponseAdapter::OpenAiChatJson
            };
            Ok(Some(AdaptedGatewayRequest { path: adapted_path, body, response_adapter }))
        },
        Err(e) => Err(e),
    }
}

/// Rewrites the messages requests of clients that speak that interface; every other request goes
/// upstream as it came.
pub fn adapt_request_for_protocol<
    N: Fn(&str) -> Option<String>,
    K: Fn(&JsonMap, &str) -> Option<String>,
>(
    protocol_type: &str,
    path: &str,
    body: Vec<u8>,
    normalize: &N,
    resolve_prompt_cache_key: &K,
) -> (r: Result<AdaptedGatewayRequest, String>)
    requires
        forall|arg: &str| call_requires(*normalize, (arg,)),
        forall|source: &JsonMap, model: &str| #[trigger]
            call_requires(*resolve_prompt_cache_key, (source, model)),
    ensures
        !(protocol_type@ == PROTOCOL_ANTHROPIC_NATIVE@ && is_messages_path(path@))
            ==> adapted_outcome(r) == Outcome::<AdaptedV>::Ok(passed_through(path@, body@)),
        protocol_type@ == PROTOCOL_ANTHROPIC_NATIVE@ && is_messages_path(path@) ==> exists|
            converted: Outcome<(Seq<u8>, bool)>,
        |
            {
                &&& #[trigger] anthropic_converted(
                    body@,
                    *normalize,
                    *resolve_prompt_cache_key,
                    converted,
                )
                &&& adapted_outcome(r) == adapted_messages(converted)
            },
{
    if wants_messages_conversion(protocol_type, path) {
        let converted = convert_anthropic_messages_request(
            body.as_slice(),
            normalize,
            resolve_prompt_cache_key,
        );
        assert(anthropic_converted(
            body@,
            *normalize,
            *resolve_prompt_cache_key,
            bytes_outcome(converted),
        ));
        return adapt_converted_messages(converted);
    }
    Ok(
        AdaptedGatewayRequest {
            path: path.to_owned(),
            body,
            response_adapter: ResponseAdapter::Passthrough,
        },
    )
}

/// `base` may be the address of the upstream: the one that is given, or else what `resolve` finds.
pub open spec fn resolved_base<R: Fn() -> String>(
    resolve: R,
    explicit: Option<Seq<char>>,
    base: Seq<char>,
) -> bool {
    match explicit {
        Some(given) => base == given,
        None => exists|ret: String| #[trigger] call_ensures(resolve, (), ret) && ret@ == base,
    }
}

/// `verdict` may be what `is_backend` says of the address `base` in the form that `normalize_base`
/// gives it.
pub open spec fn judged_base<B: Fn(&str) -> String, C: Fn(&str) -> bool>(
    normalize_base: B,
    is_backend: C,
    base: Seq<char>,
    verdict: bool,
) -> bool {
    exists|arg: &str, normal: String, again: &str|
        {
            &&& arg@ == base
            &&& #[trigger] call_ensures(normalize_base, (arg,), normal)
            &&& again@ == normal@
            &&& #[trigger] call_ensures(is_backend, (again,), verdict)
        }
}

/// Whether the upstream is one that only has the Responses interface.
pub fn is_codex_upstream<R: Fn() -> String, B: Fn(&str) -> String, C: Fn(&str) -> bool>(
    explicit_upstream_base: Option<&str>,
    resolve: &R,
    normalize_base: &B,
    is_backend: &C,
) -> (r: bool)
    requires
        call_requires(*resolve, ()),
        forall|arg: &str| call_requires(*normalize_base, (arg,)),
        forall|arg: &str| call_requires(*is_backend, (arg,)),
    ensures
        exists|base: Seq<char>|
            #[trigger] resolved_base(*resolve, opt_str(explicit_upstream_base), base)
                && judged_base(*normalize_base, *is_backend, base, r),
{
    let base = match explicit_upstream_base {
        Some(given) => given.to_owned(),
        None => resolve(),
    };
    assert(resolved_base(*resolve, opt_str(explicit_upstream_base), base@));
    let normal = normalize_base(base.as_str());
    let verdict = is_backend(normal.as_str());
    assert(judged_base(*normalize_base, *is_backend, base@, verdict));
    verdict
}

/// Rewrites a chat completions request for an upstream that only has the Responses interface.
/// Nothing is made of any other request, nor for any other upstream.
pub fn maybe_adapt_openai_chat_compat<
    N: Fn(&str) -> Option<String>,
    R: Fn() -> String,
    B: Fn(&str) -> String,
    C: Fn(&str) -> bool,
>(
    path: &str,
    body: Vec<u8>,
    request_stream: bool,
    explicit_upstream_base: Option<&str>,
    normalize: &N,
    resolve: &R,
    normalize_base: &B,
    is_backend: &C,
) -> (r: Result<Option<AdaptedGatewayRequest>, String>)
    requires
        forall|arg: &str| call_requires(*normalize, (arg,)),
        call_requires(*resolve, ()),
        forall|arg: &str| call_requires(*normalize_base, (arg,)),
        forall|arg: &str| call_requires(*is_backend, (arg,)),
    ensures
        !is_chat_path(path@) ==> optional_outcome(r) == Outcome::<Option<AdaptedV>>::Ok(None),
        is_chat_path(path@) ==> exists|base: Seq<char>, codex: bool|
            {
                &&& #[trigger] resolved_base(*resolve, opt_str(explicit_upstream_base), base)
                &&& #[trigger] judged_base(*normalize_base, *is_backend, base, codex)
                &&& !codex ==> optional_outcome(r) == Outcome::<Option<AdaptedV>>::Ok(None)
                &&& codex ==> exists|converted: Outcome<(Seq<u8>, bool)>|
                    #[trigger] openai_converted(body@, *normalize, converted)
                        && optional_outcome(r) == adapted_chat(path@, request_stream, converted)
            },
{
    if !wants_chat_conversion(path) {
        return Ok(None);
    }
    let codex = is_codex_upstream(explicit_upstream_base, resolve, normalize_base, is_backend);
    if !codex {
        return Ok(None);
    }
    let converted = convert_openai_chat_completions_request(body.as_slice(), normalize);
    assert(openai_converted(body@, *normalize, bytes_outcome(converted)));
    adapt_converted_chat(path, request_stream, converted)
}

/// Has the upstream's response converted as the request was adapted.
pub fn adapt_upstream_response<
    F: Fn(ResponseAdapter, Option<&str>, &[u8]) -> Result<(Vec<u8>, &'static str), String>,
>(
    adapter: ResponseAdapter,
    upstream_content_type: Option<&str>,
    body: &[u8],
    convert: &F,
) -> (r: Result<(Vec<u8>, &'static str), String>)
    requires
        call_requires(*convert, (adapter, upstream_content_type, body)),
    ensures
        call_ensures(*convert, (adapter, upstream_content_type, body), r),
{
    convert(adapter, upstream_content_type, body)
}

/// Has the body of an error built for a client that speaks the messages interface.
pub fn build_anthropic_error_body<F: Fn(&str) -> Vec<u8>>(message: &str, build: &F) -> (r: Vec<u8>)
    requires
        call_requires(*build, (message,)),
    ensures
        call_ensures(*build, (message,), r),
{
    build(message)
}

/// A chat completions request goes to the Responses interface with the query that it came with.
pub proof fn lemma_query_is_kept(query: Seq<char>)
    ensures
        is_chat_path("/v1/chat/completions?"@ + query),
        responses_path("/v1/chat/completions?"@ + query) == "/v1/responses?"@ + query,
{
    reveal_strlit("/v1/chat/completions?");
    let head = "/v1/chat/completions?"@;
    let path = head + query;
    assert(path.take(head.len() as int) =~= head);
    assert forall|k: int| 0 <= k < 20 implies path[k] != '?' by {
        assert(path[k] == head[k]);
    }
    assert(path[20] == head[20]);
    lemma_first_at_is(path, '?', 20);
    assert(path.skip(21) =~= query);
}

} // verus!
