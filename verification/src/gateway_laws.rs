//! Which requests are rewritten, and where they go.

use vstd::prelude::*;
use vstd::string::*;

use crate::clock::unix_time;
use crate::protocol_adapter::{
    adapted_chat, adapted_messages, is_chat_path, is_messages_path, judged_base, passed_through,
    resolved_base, responses_path, AdaptedV, ResponseAdapter, PROTOCOL_ANTHROPIC_NATIVE,
};
use crate::sequence::Outcome;
use crate::text::lemma_first_at_of;
use crate::text_laws::{lemma_first, lemma_prefix};

verus! {

/// Requests for the messages interface and for chat completions are known by their paths, with and
/// without a query.
pub proof fn lemma_paths_known(path: Seq<char>)
    ensures
        is_messages_path(path) <==> path == "/v1/messages"@ || exists|query: Seq<char>|
            path == #[trigger] ("/v1/messages?"@ + query),
        is_chat_path(path) <==> path == "/v1/chat/completions"@ || exists|query: Seq<char>|
            path == #[trigger] ("/v1/chat/completions?"@ + query),
        PROTOCOL_ANTHROPIC_NATIVE@ == "anthropic_native"@,
{
    lemma_prefix(path, "/v1/messages?"@);
    lemma_prefix(path, "/v1/chat/completions?"@);
}

/// A chat request goes to the Responses interface, with its query and nothing else of its path.
pub proof fn lemma_path_rewritten(path: Seq<char>, query: Seq<char>)
    requires
        !path.contains('?'),
    ensures
        responses_path(path + seq!['?'] + query) == "/v1/responses?"@ + query,
        responses_path(path) == "/v1/responses"@,
{
    let whole = path + seq!['?'] + query;
    lemma_first(whole, '?', path, query);
    assert(whole.skip(path.len() as int + 1) =~= query);
    lemma_first_at_of(path, '?');
}

/// A request that is not rewritten goes on as it came.
pub proof fn lemma_request_passed(path: Seq<char>, body: Seq<u8>)
    ensures
        passed_through(path, body).path == path,
        passed_through(path, body).body == body,
        passed_through(path, body).response_adapter == ResponseAdapter::Passthrough,
{
}

/// A rewritten request has the body that it was converted to, and its answer is rewritten in the
/// way that the client asked for: in events where it asked for a stream, and else in one piece.
pub proof fn lemma_request_rewritten(
    path: Seq<char>,
    wanted: bool,
    body: Seq<u8>,
    stream: bool,
    e: Seq<char>,
)
    ensures
        adapted_messages(Ok((body, stream))) matches Ok(sent) && sent.path == "/v1/responses"@
            && sent.body == body && sent.response_adapter == (if stream {
            ResponseAdapter::AnthropicSse
        } else {
            ResponseAdapter::AnthropicJson
        }),
        adapted_messages(Err(e)) == Outcome::<AdaptedV>::Err(e),
        adapted_chat(path, wanted, Ok((body, stream))) matches Ok(Some(sent)) && sent.path
            == responses_path(path) && sent.body == body && sent.response_adapter == (if wanted {
            ResponseAdapter::OpenAiChatSse
        } else {
            ResponseAdapter::OpenAiChatJson
        }),
        adapted_chat(path, wanted, Err(e)) == Outcome::<Option<AdaptedV>>::Err(e),
{
}

/// The address of the upstream is the one that was given, or where none was given the one that
/// `resolve` finds; `is_backend` judges it in the form that `normalize_base` gives it.
pub proof fn lemma_upstream_judged<R: Fn() -> String, B: Fn(&str) -> String, C: Fn(&str) -> bool>(
    resolve: R,
    normalize_base: B,
    is_backend: C,
    explicit: Option<Seq<char>>,
    found: Seq<char>,
    normal: Seq<char>,
    base: Seq<char>,
    verdict: bool,
    judged: bool,
)
    requires
        forall|ret: String| #[trigger] call_ensures(resolve, (), ret) ==> ret@ == found,
        forall|arg: &str, ret: String|
            arg@ == (match explicit {
                Some(given) => given,
                None => found,
            }) && #[trigger] call_ensures(normalize_base, (arg,), ret) ==> ret@ == normal,
        forall|arg: &str, said: bool|
            arg@ == normal && #[trigger] call_ensures(is_backend, (arg,), said) ==> said == verdict,
        resolved_base(resolve, explicit, base),
        judged_base(normalize_base, is_backend, base, judged),
    ensures
        judged == verdict,
{
}

/// The time of an answer is what the clock shows, and zero where it shows a time before all.
pub proof fn lemma_time_shown(seconds: u64)
    requires
        seconds <= i64::MAX,
    ensures
        unix_time(Some(seconds)) == seconds,
        unix_time(None) == 0,
{
}

} // verus!
