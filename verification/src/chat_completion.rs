//! Responses answers, turned into OpenAI chat completions.

use vstd::prelude::*;
use vstd::string::*;

use crate::anthropic_request::{chat_call, make_chat_call};
use crate::clock::current_unix_seconds;
use crate::codec::{lemma_plain_deeper, plain_within};
use crate::items::{default_call_id, make_default_call_id, make_raw_text, raw_text};
use crate::json::{
    fail, field, field_array, field_nonblank, field_or, field_str, group_values_view, i64_of, jint,
    js, json_outcome, no_fields, one, opt_owned, opt_view, or_else, put, str_of, values_view,
    Fields, Json, JsonMap, JsonV,
};
use crate::sequence::{lemma_try_fold_at, try_fold, Outcome};
use crate::text::{
    ascii_lowered, contains, eq_ignore_ascii_case, has_part, nonblank, nonblank_of, opt_str,
    opt_string, str_eq,
};

verus! {

broadcast use group_values_view;

/// The member `inner` of the member `outer`.
pub open spec fn member_of_member(value: JsonV, outer: Seq<char>, inner: Seq<char>) -> Option<
    JsonV,
> {
    match value.get(outer) {
        Some(member) => member.get(inner),
        None => None,
    }
}

/// The member `inner` of the member `outer`.
fn get_member_of_member<'a>(value: &'a Json, outer: &str, inner: &str) -> (r: Option<&'a Json>)
    ensures
        opt_view(r) == member_of_member(value@, outer@, inner@),
{
    match value.get(outer) {
        Some(member) => member.get(inner),
        None => None,
    }
}

/// The part of an upstream message that describes an error, if it describes one.
pub open spec fn error_part(value: JsonV) -> Option<JsonV> {
    match value.get("error"@) {
        Some(error) => Some(error),
        None => if is_error_event(value) {
            Some(value)
        } else {
            match member_of_member(value, "response"@, "error"@) {
                Some(error) => Some(error),
                None => match member_of_member(value, "response"@, "status_details"@) {
                    Some(details) => details.get("error"@),
                    None => None,
                },
            }
        },
    }
}

/// An event whose type is `error`, in whatever case.
pub open spec fn is_error_event(value: JsonV) -> bool {
    match value.get_str("type"@) {
        Some(kind) => ascii_lowered(kind) == ascii_lowered("error"@),
        None => false,
    }
}

/// An error as an OpenAI client reads it.
pub open spec fn openai_error(error: Fields) -> JsonV {
    let message = or_else(
        nonblank(str_of(field_or(error, "message"@, "error"@))),
        "upstream request failed"@,
    );
    let kind = or_else(field_str(error, "type"@), "api_error"@);
    let base = no_fields().insert("message"@, js(message)).insert("type"@, js(kind));
    let coded = put(base, "code"@, optional_text(field_nonblank(error, "code"@)));
    JsonV::Object(
        no_fields().insert(
            "error"@,
            JsonV::Object(put(coded, "param"@, optional_text(field_nonblank(error, "param"@)))),
        ),
    )
}

/// A JSON string, where there is a text.
pub open spec fn optional_text(text: Option<Seq<char>>) -> Option<JsonV> {
    match text {
        Some(t) => Some(js(t)),
        None => None,
    }
}

/// A JSON string, where there is a text.
fn make_optional_text(text: Option<&str>) -> (r: Option<Json>)
    ensures
        opt_owned(r) == optional_text(opt_str(text)),
{
    match text {
        Some(t) => Some(Json::text(t)),
        None => None,
    }
}

/// The error that an upstream message comes to, if it describes one.
pub open spec fn mapped_error(value: JsonV) -> Option<JsonV> {
    match error_part(value) {
        Some(JsonV::Object(error)) => Some(openai_error(error)),
        _ => None,
    }
}

/// The part of an upstream message that describes an error.
fn find_error_part(value: &Json) -> (r: Option<&Json>)
    ensures
        opt_view(r) == error_part(value@),
{
    if let Some(error) = value.get("error") {
        return Some(error);
    }
    if let Some(kind) = value.get_str("type") {
        if eq_ignore_ascii_case(kind, "error") {
            return Some(value);
        }
    }
    match get_member_of_member(value, "response", "error") {
        Some(error) => Some(error),
        None => match get_member_of_member(value, "response", "status_details") {
            Some(details) => details.get("error"),
            None => None,
        },
    }
}

/// The error that an upstream message comes to.
pub fn map_responses_error_to_openai(value: &Json) -> (r: Option<Json>)
    ensures
        opt_owned(r) == mapped_error(value@),
{
    let error = match find_error_part(value) {
        Some(part) => match part.as_object() {
            Some(error) => error,
            None => return None,
        },
        None => return None,
    };
    let given = match error.get_or("message", "error") {
        Some(text) => nonblank_of(text.as_str()),
        None => None,
    };
    let message = match given {
        Some(message) => message,
        None => "upstream request failed",
    };
    let kind = match error.get_str("type") {
        Some(kind) => kind,
        None => "api_error",
    };
    let mut mapped = JsonMap::new().with("message", Json::text(message)).with(
        "type",
        Json::text(kind),
    );
    mapped.put("code", make_optional_text(error.get_nonblank("code")));
    mapped.put("param", make_optional_text(error.get_nonblank("param")));
    Some(Json::Object(JsonMap::new().with("error", Json::Object(mapped))))
}

/// The arguments of a call as text: those under `arguments`, or where there are none those under
/// `input`.
pub open spec fn raw_arguments(item: Fields) -> Option<Seq<char>> {
    match present(field(item, "arguments"@)) {
        Some(arguments) => Some(raw_text(arguments)),
        None => match present(field(item, "input"@)) {
            Some(input) => Some(raw_text(input)),
            None => None,
        },
    }
}

/// A member that is not `null`.
pub open spec fn present(value: Option<JsonV>) -> Option<JsonV> {
    match value {
        Some(JsonV::Null) => None,
        _ => value,
    }
}

/// The arguments of a call as text.
pub fn extract_function_call_arguments_raw(item_obj: &JsonMap) -> (r: Option<String>)
    ensures
        opt_string(r) == raw_arguments(item_obj@),
{
    if let Some(arguments) = item_obj.get("arguments") {
        if !arguments.is_null() {
            return Some(make_raw_text(arguments));
        }
    }
    if let Some(input) = item_obj.get("input") {
        if !input.is_null() {
            return Some(make_raw_text(input));
        }
    }
    None
}

/// The call that an output item describes; `index` is its place among the calls.
pub open spec fn output_call(item: Fields, index: nat) -> Outcome<JsonV> {
    match field_nonblank(item, "name"@) {
        Some(name) => Ok(
            chat_call(
                or_else(str_of(field_or(item, "call_id"@, "id"@)), default_call_id(index)),
                name,
                or_else(raw_arguments(item), "{}"@),
            ),
        ),
        None => Err("missing responses function_call name"@),
    }
}

/// The call that an output item describes.
pub fn build_openai_tool_call(item_obj: &JsonMap, index: usize) -> (r: Result<Json, String>)
    ensures
        json_outcome(r) == output_call(item_obj@, index as nat),
{
    let named = match item_obj.get_or("call_id", "id") {
        Some(id) => id.as_str(),
        None => None,
    };
    let id = match named {
        Some(id) => id.to_owned(),
        None => make_default_call_id(index as u64),
    };
    let name = match item_obj.get_nonblank("name") {
        Some(name) => name,
        None => return fail("missing responses function_call name"),
    };
    let arguments = match extract_function_call_arguments_raw(item_obj) {
        Some(arguments) => arguments,
        None => "{}".to_owned(),
    };
    Ok(make_chat_call(id.as_str(), name, arguments.as_str()))
}

/// The text that a content block shows.
pub open spec fn shown_block(block: JsonV) -> Option<Seq<char>> {
    match block.as_object() {
        Some(fields) => {
            let kind = field_str(fields, "type"@);
            if kind == Some("output_text"@) || kind == Some("text"@) {
                field_str(fields, "text"@)
            } else {
                None
            }
        },
        None => None,
    }
}

/// The text shown so far, with more behind it.
pub open spec fn more_text(shown: Option<Seq<char>>, more: Option<Seq<char>>) -> Option<Seq<char>> {
    match more {
        Some(text) => Some(or_else(shown, Seq::empty()) + text),
        None => shown,
    }
}

/// The text shown so far, with that of the blocks behind it.
pub open spec fn shown_blocks(shown: Option<Seq<char>>, blocks: Seq<JsonV>) -> Option<Seq<char>>
    decreases blocks.len(),
{
    if blocks.len() == 0 {
        shown
    } else {
        more_text(shown_blocks(shown, blocks.drop_last()), shown_block(blocks.last()))
    }
}

/// What the output items have come to: the text they show, if any does, and the calls.
pub type OutputState = (Option<Seq<char>>, Seq<JsonV>);

/// What one more output item adds.
pub open spec fn output_item(state: OutputState, item: JsonV) -> Outcome<OutputState> {
    match item.as_object() {
        Some(fields) => {
            let kind = field_str(fields, "type"@);
            if kind == Some("message"@) {
                match field_array(fields, "content"@) {
                    Some(blocks) => Ok((shown_blocks(state.0, blocks), state.1)),
                    None => Ok(state),
                }
            } else if kind == Some("function_call"@) {
                match output_call(fields, state.1.len()) {
                    Ok(call) => Ok((state.0, state.1.push(call))),
                    Err(e) => Err(e),
                }
            } else {
                Ok(state)
            }
        },
        None => Ok(state),
    }
}

/// What the output of an answer comes to.
pub open spec fn output_items(answer: JsonV) -> Outcome<OutputState> {
    match answer.get_array("output"@) {
        Some(items) => try_fold(
            items,
            (None, Seq::empty()),
            |state: OutputState, i: int, item: JsonV| output_item(state, item),
        ),
        None => Ok((None, Seq::empty())),
    }
}

/// The text and the calls of an answer: where its output shows no text, `output_text` is the text.
pub open spec fn message_content(answer: JsonV) -> Outcome<(Seq<char>, Seq<JsonV>)> {
    match output_items(answer) {
        Ok((shown, calls)) => Ok(
            (
                match shown {
                    Some(text) => text,
                    None => or_else(answer.get_str("output_text"@), Seq::empty()),
                },
                calls,
            ),
        ),
        Err(e) => Err(e),
    }
}

/// What the text shown so far is, kept as a flag and a text.
spec fn shown_view(saw: bool, text: Seq<char>) -> Option<Seq<char>> {
    if saw {
        Some(text)
    } else {
        None
    }
}

/// Appends the text of content blocks.
fn append_shown_blocks(saw: &mut bool, text: &mut String, blocks: &Vec<Json>)
    requires
        !*old(saw) ==> old(text)@.len() == 0,
    ensures
        !*final(saw) ==> final(text)@.len() == 0,
        shown_view(*final(saw), final(text)@) == shown_blocks(
            shown_view(*old(saw), old(text)@),
            values_view(blocks@),
        ),
{
    let ghost all = values_view(blocks@);
    let ghost start = shown_view(*saw, text@);
    let mut i: usize = 0;
    assert(all.take(0) =~= Seq::empty());
    while i < blocks.len()
        invariant
            all == values_view(blocks@),
            i <= blocks@.len(),
            !*saw ==> text@.len() == 0,
            shown_view(*saw, text@) == shown_blocks(start, all.take(i as int)),
        decreases blocks@.len() - i,
    {
        assert(all.take(i + 1).drop_last() =~= all.take(i as int));
        if let Some(block) = blocks[i].as_object() {
            if let Some(kind) = block.get_str("type") {
                if str_eq(kind, "output_text") || str_eq(kind, "text") {
                    if let Some(more) = block.get_str("text") {
                        let ghost before = text@;
                        assert(!*saw ==> Seq::<char>::empty() + more@ =~= before + more@);
                        *saw = true;
                        text.append(more);
                    }
                }
            }
        }
        i += 1;
    }
    assert(all.take(all.len() as int) =~= all);
}

/// The text and the calls of an answer.
pub fn extract_response_message_content(value: &Json) -> (r: Result<(String, Vec<Json>), String>)
    ensures
        match message_content(value@) {
            Ok((text, calls)) => r matches Ok(content) && content.0@ == text && values_view(
                content.1@,
            ) == calls,
            Err(message) => r matches Err(e) && e@ == message,
        },
{
    let mut shown = String::new();
    let mut saw_output_text = false;
    let mut tool_calls: Vec<Json> = Vec::new();
    let output = match value.get("output") {
        Some(output) => output.as_array(),
        None => None,
    };
    if let Some(items) = output {
        let ghost all = values_view(items@);
        let ghost start: OutputState = (None, Seq::empty());
        let ghost step = |state: OutputState, i: int, item: JsonV| output_item(state, item);
        let mut i: usize = 0;
        assert(all.take(0) =~= Seq::empty());
        while i < items.len()
            invariant
                value@.get_array("output"@) == Some(all),
                all == values_view(items@),
                start == (None::<Seq<char>>, Seq::<JsonV>::empty()),
                step == (|state: OutputState, i: int, item: JsonV| output_item(state, item)),
                i <= items@.len(),
                !saw_output_text ==> shown@.len() == 0,
                try_fold(all.take(i as int), start, step) == Outcome::Ok(
                    (shown_view(saw_output_text, shown@), values_view(tool_calls@)),
                ),
            decreases items@.len() - i,
        {
            proof {
                lemma_try_fold_at(all, start, step, i as int);
            }
            if let Some(item_obj) = items[i].as_object() {
                if let Some(kind) = item_obj.get_str("type") {
                    if str_eq(kind, "message") {
                        if let Some(content) = item_obj.get_array("content") {
                            append_shown_blocks(&mut saw_output_text, &mut shown, content);
                        }
                    } else if str_eq(kind, "function_call") {
                        match build_openai_tool_call(item_obj, tool_calls.len()) {
                            Ok(call) => tool_calls.push(call),
                            Err(e) => return Err(e),
                        }
                    }
                }
            }
            i += 1;
        }
        assert(all.take(all.len() as int) =~= all);
    }
    let text_content = if saw_output_text {
        shown
    } else {
        match value.get_str("output_text") {
            Some(text) => text.to_owned(),
            None => String::new(),
        }
    };
    Ok((text_content, tool_calls))
}

/// The sum, held within the 64-bit integers.
pub open spec fn capped_sum(a: i64, b: i64) -> i64 {
    if a + b > i64::MAX {
        i64::MAX
    } else if a + b < i64::MIN {
        i64::MIN
    } else {
        (a + b) as i64
    }
}

/// The sum, held within the 64-bit integers.
pub fn saturating_sum(a: i64, b: i64) -> (r: i64)
    ensures
        r == capped_sum(a, b),
{
    match a.checked_add(b) {
        Some(sum) => sum,
        None => if a > 0 {
            i64::MAX
        } else {
            i64::MIN
        },
    }
}

/// The token counts of an answer, as an OpenAI client reads them.
pub open spec fn usage_object(prompt: i64, completion: i64, total: i64) -> JsonV {
    JsonV::Object(
        no_fields().insert("prompt_tokens"@, jint(prompt as int)).insert(
            "completion_tokens"@,
            jint(completion as int),
        ).insert("total_tokens"@, jint(total as int)),
    )
}

/// A token count of an answer, under its name or an older one; zero where there is none.
pub open spec fn token_count(answer: JsonV, name: Seq<char>, older: Seq<char>) -> i64 {
    match answer.get("usage"@) {
        Some(usage) => or_else(
            i64_of(
                match usage.get(name) {
                    Some(count) => Some(count),
                    None => usage.get(older),
                },
            ),
            0,
        ),
        None => 0,
    }
}

/// The token counts of an answer. Where it gives no total, the total is the sum.
pub open spec fn openai_usage(answer: JsonV) -> JsonV {
    let prompt = token_count(answer, "input_tokens"@, "prompt_tokens"@);
    let completion = token_count(answer, "output_tokens"@, "completion_tokens"@);
    let total = or_else(
        i64_of(member_of_member(answer, "usage"@, "total_tokens"@)),
        capped_sum(prompt, completion),
    );
    usage_object(prompt, completion, total)
}

/// A token count of an answer.
fn get_token_count(value: &Json, name: &str, older: &str) -> (r: i64)
    ensures
        r == token_count(value@, name@, older@),
{
    let usage = match value.get("usage") {
        Some(usage) => usage,
        None => return 0,
    };
    let found = match usage.get(name) {
        Some(count) => Some(count),
        None => usage.get(older),
    };
    match found {
        Some(count) => match count.as_i64() {
            Some(n) => n,
            None => 0,
        },
        None => 0,
    }
}

/// The token counts of an answer, as an OpenAI client reads them.
pub fn build_openai_usage(value: &Json) -> (r: Json)
    ensures
        r@ == openai_usage(value@),
{
    let prompt = get_token_count(value, "input_tokens", "prompt_tokens");
    let completion = get_token_count(value, "output_tokens", "completion_tokens");
    let given = match get_member_of_member(value, "usage", "total_tokens") {
        Some(total) => total.as_i64(),
        None => None,
    };
    let total = match given {
        Some(total) => total,
        None => saturating_sum(prompt, completion),
    };
    Json::Object(
        JsonMap::new().with("prompt_tokens", Json::integer(prompt)).with(
            "completion_tokens",
            Json::integer(completion),
        ).with("total_tokens", Json::integer(total)),
    )
}

/// Why an answer is incomplete, as it says itself.
pub open spec fn incomplete_reason(answer: JsonV) -> Seq<char> {
    or_else(
        str_of(
            match member_of_member(answer, "incomplete_details"@, "reason"@) {
                Some(reason) => Some(reason),
                None => member_of_member(answer, "status_details"@, "reason"@),
            },
        ),
        Seq::empty(),
    )
}

/// Why a completion ends where it ends.
pub open spec fn finish_reason(answer: JsonV, has_tool_calls: bool) -> Seq<char> {
    if has_tool_calls {
        "tool_calls"@
    } else if has_part(incomplete_reason(answer), "max_output_tokens"@) || has_part(
        incomplete_reason(answer),
        "length"@,
    ) {
        "length"@
    } else {
        "stop"@
    }
}

/// Why a completion ends where it ends.
pub fn infer_finish_reason(value: &Json, has_tool_calls: bool) -> (r: &'static str)
    ensures
        r@ == finish_reason(value@, has_tool_calls),
{
    if has_tool_calls {
        return "tool_calls";
    }
    let found = match get_member_of_member(value, "incomplete_details", "reason") {
        Some(reason) => Some(reason),
        None => get_member_of_member(value, "status_details", "reason"),
    };
    let said = match found {
        Some(reason) => reason.as_str(),
        None => None,
    };
    let reason = match said {
        Some(reason) => reason,
        None => {
            proof {
                reveal_strlit("");
                assert(""@ =~= Seq::empty());
            }
            ""
        },
    };
    if contains(reason, "max_output_tokens") || contains(reason, "length") {
        return "length";
    }
    "stop"
}

/// The answer itself: what stands under `response`, or all of the message.
pub open spec fn answer_of(value: JsonV) -> JsonV {
    or_else(value.get("response"@), value)
}

/// The message of a completion.
pub open spec fn completion_message(text: Seq<char>, calls: Seq<JsonV>) -> JsonV {
    JsonV::Object(
        put(
            no_fields().insert("role"@, js("assistant"@)).insert("content"@, js(text)),
            "tool_calls"@,
            if calls.len() > 0 {
                Some(JsonV::Array(calls))
            } else {
                None
            },
        ),
    )
}

/// A completion.
pub open spec fn completion_object(
    id: Seq<char>,
    created: i64,
    model: Seq<char>,
    message: JsonV,
    reason: Seq<char>,
    usage: JsonV,
) -> JsonV {
    JsonV::Object(
        no_fields().insert("id"@, js(id)).insert("object"@, js("chat.completion"@)).insert(
            "created"@,
            jint(created as int),
        ).insert("model"@, js(model)).insert(
            "choices"@,
            JsonV::Array(
                seq![
                    JsonV::Object(
                        no_fields().insert("index"@, jint(0)).insert("message"@, message).insert(
                            "finish_reason"@,
                            js(reason),
                        ),
                    ),
                ],
            ),
        ).insert("usage"@, usage),
    )
}

/// The completion that an upstream message comes to at the time `created`: the error it describes,
/// or else its answer.
pub open spec fn chat_completion(value: JsonV, created: i64) -> Outcome<JsonV> {
    let answer = answer_of(value);
    match mapped_error(answer) {
        Some(error) => Ok(error),
        None => match message_content(answer) {
            Ok((text, calls)) => Ok(
                completion_object(
                    or_else(answer.get_str("id"@), "chatcmpl_codexmanager"@),
                    created,
                    or_else(answer.get_str("model"@), "unknown"@),
                    completion_message(text, calls),
                    finish_reason(answer, calls.len() > 0),
                    openai_usage(answer),
                ),
            ),
            Err(e) => Err(e),
        },
    }
}

/// The completion that an upstream message comes to at the time `created`.
pub fn build_chat_completion_at(value: &Json, created: i64) -> (r: Result<Json, String>)
    ensures
        json_outcome(r) == chat_completion(value@, created),
{
    let source = match value.get("response") {
        Some(response) => response,
        None => value,
    };
    if let Some(error_payload) = map_responses_error_to_openai(source) {
        return Ok(error_payload);
    }
    let model = match source.get_str("model") {
        Some(model) => model,
        None => "unknown",
    };
    let id = match source.get_str("id") {
        Some(id) => id,
        None => "chatcmpl_codexmanager",
    };
    let (text_content, tool_calls) = match extract_response_message_content(source) {
        Ok(content) => content,
        Err(e) => return Err(e),
    };
    let has_tool_calls = tool_calls.len() > 0;
    let reason = infer_finish_reason(source, has_tool_calls);
    let mut message = JsonMap::new().with("role", Json::text("assistant")).with(
        "content",
        Json::Str(text_content),
    );
    if has_tool_calls {
        message.insert("tool_calls", Json::Array(tool_calls));
    }
    let choice = Json::Object(
        JsonMap::new().with("index", Json::integer(0)).with("message", Json::Object(message)).with(
            "finish_reason",
            Json::text(reason),
        ),
    );
    Ok(
        Json::Object(
            JsonMap::new().with("id", Json::text(id)).with(
                "object",
                Json::text("chat.completion"),
            ).with("created", Json::integer(created)).with("model", Json::text(model)).with(
                "choices",
                Json::Array(one(choice)),
            ).with("usage", build_openai_usage(source)),
        ),
    )
}

/// The completion that an upstream message comes to now.
pub fn build_chat_completion_from_responses(value: &Json) -> (r: Result<Json, String>)
    ensures
        exists|created: i64| json_outcome(r) == #[trigger] chat_completion(value@, created),
{
    build_chat_completion_at(value, current_unix_seconds())
}

/// How deep a completion goes.
pub open spec fn completion_depth() -> nat {
    7
}

proof fn lemma_call_plain(id: Seq<char>, name: Seq<char>, arguments: Seq<char>)
    ensures
        plain_within(chat_call(id, name, arguments), 2),
{
    reveal_with_fuel(plain_within, 4);
}

/// An error that was made out holds nothing but texts.
pub proof fn lemma_error_plain(value: JsonV)
    ensures
        mapped_error(value) matches Some(error) ==> plain_within(error, completion_depth()),
{
    if let Some(error) = mapped_error(value) {
        reveal_with_fuel(plain_within, 4);
        assert(plain_within(error, 2));
        lemma_plain_deeper(error, 2, completion_depth());
    }
}

proof fn lemma_output_calls_plain(
    items: Seq<JsonV>,
    step: spec_fn(OutputState, int, JsonV) -> Outcome<OutputState>,
)
    requires
        step == (|state: OutputState, i: int, item: JsonV| output_item(state, item)),
    ensures
        try_fold(items, (None, Seq::empty()), step) matches Ok((_, calls)) ==> forall|k: int|
            0 <= k < calls.len() ==> plain_within(#[trigger] calls[k], 2),
    decreases items.len(),
{
    if items.len() > 0 {
        lemma_output_calls_plain(items.drop_last(), step);
        if let Ok(state) = try_fold(items.drop_last(), (None, Seq::empty()), step) {
            if let Some(fields) = items.last().as_object() {
                if let Some(name) = field_nonblank(fields, "name"@) {
                    lemma_call_plain(
                        or_else(
                            str_of(field_or(fields, "call_id"@, "id"@)),
                            default_call_id(state.1.len()),
                        ),
                        name,
                        or_else(raw_arguments(fields), "{}"@),
                    );
                }
            }
        }
    }
}

/// A completion holds no floating-point number and is not deep: it survives being written and read.
pub proof fn lemma_completion_plain(value: JsonV, created: i64)
    ensures
        chat_completion(value, created) matches Ok(payload) ==> plain_within(
            payload,
            completion_depth(),
        ),
{
    reveal_with_fuel(plain_within, 2);
    let answer = answer_of(value);
    match mapped_error(answer) {
        Some(_) => {
            lemma_error_plain(answer);
        },
        None => {
            if let Ok((text, calls)) = message_content(answer) {
                if let Some(items) = answer.get_array("output"@) {
                    lemma_output_calls_plain(
                        items,
                        |state: OutputState, i: int, item: JsonV| output_item(state, item),
                    );
                }
                let message = completion_message(text, calls);
                assert(plain_within(JsonV::Array(calls), 3));
                assert(plain_within(message, 4));
                let usage = openai_usage(answer);
                assert(plain_within(usage, 1));
                lemma_plain_deeper(usage, 1, 6);
                let reason = finish_reason(answer, calls.len() > 0);
                let choice = JsonV::Object(
                    no_fields().insert("index"@, jint(0)).insert("message"@, message).insert(
                        "finish_reason"@,
                        js(reason),
                    ),
                );
                assert(plain_within(choice, 5));
                assert(plain_within(JsonV::Array(seq![choice]), 6));
            }
        },
    }
}

} // verus!
