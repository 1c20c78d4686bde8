//! OpenAI chat completion requests, turned into Responses requests.

use vstd::prelude::*;
use vstd::string::*;

use crate::codec::{holds_json, json_read, read_json, write_json_bytes};
use crate::items::{
    blocks_item, call_arguments_of, call_id_of, call_name_of, empty_schema,
    extract_tool_result_content, function_call_item, function_choice, function_output_item,
    function_tool, get_call_arguments, get_call_id, get_call_name, get_nested_effort,
    get_str_or_empty, included, make_blocks_item, make_function_call_item, make_function_choice,
    make_function_output_item, make_function_tool, make_included, make_message_item,
    make_reasoning_object, make_text_block, make_text_format, message_item, nested_effort,
    normalize_named, normalized, reasoning_object, text_format, tool_result_text,
    MAX_ANTHROPIC_TOOLS,
};
use crate::json::{
    appended, appended_so_far, clone_items, extend, fail, fail_about, field, field_array,
    field_bool, field_nonblank, field_object, field_or, field_str, group_values_view, i64_of,
    items_outcome, jint, js, no_fields, one, opt_owned, or_else, put, text_outcome, values_view,
    Fields, Json, JsonMap, JsonV,
};
use crate::sequence::{
    gather, gathered, lemma_gather_at, lemma_gathered_at, lemma_try_fold_at, try_fold, Outcome,
};
use crate::text::{is_blank, join, joined, opt_string, str_eq, texts, trim, trimmed};

verus! {

broadcast use group_values_view;

/// The members of a chat request that have no counterpart in a Responses request.
pub open spec fn unsupported_chat_fields() -> Seq<Seq<char>> {
    seq![
        "audio"@,
        "modalities"@,
        "logprobs"@,
        "top_logprobs"@,
        "n"@,
        "temperature"@,
        "top_p"@,
        "presence_penalty"@,
        "frequency_penalty"@,
        "seed"@,
        "logit_bias"@,
        "response_format"@,
        "stop"@,
    ]
}

/// The first of the names that is a member.
pub open spec fn first_member(fields: Fields, names: Seq<Seq<char>>) -> Option<Seq<char>>
    decreases names.len(),
{
    if names.len() == 0 {
        None
    } else if fields.contains_key(names[0]) {
        Some(names[0])
    } else {
        first_member(fields, names.drop_first())
    }
}

/// The refusal of a request that has an unsupported member.
pub open spec fn unsupported_field_error(request: Fields) -> Option<Seq<char>> {
    match first_member(request, unsupported_chat_fields()) {
        Some(name) => Some("unsupported openai chat field for codex compatibility: "@ + name),
        None => None,
    }
}

/// Refuses a request that has an unsupported member.
pub fn reject_unsupported_openai_chat_fields(obj: &JsonMap) -> (r: Result<(), String>)
    ensures
        match unsupported_field_error(obj@) {
            Some(message) => r matches Err(e) && e@ == message,
            None => r is Ok,
        },
{
    let names: [&str; 13] = [
        "audio",
        "modalities",
        "logprobs",
        "top_logprobs",
        "n",
        "temperature",
        "top_p",
        "presence_penalty",
        "frequency_penalty",
        "seed",
        "logit_bias",
        "response_format",
        "stop",
    ];
    let ghost all = unsupported_chat_fields();
    let mut i: usize = 0;
    assert(all.skip(0) =~= all);
    while i < 13
        invariant
            i <= 13,
            all == unsupported_chat_fields(),
            forall|k: int| 0 <= k < 13 ==> names@[k]@ == all[k],
            first_member(obj@, all) == first_member(obj@, all.skip(i as int)),
        decreases 13 - i,
    {
        assert(all.skip(i as int).drop_first() =~= all.skip(i + 1));
        if obj.contains_key(names[i]) {
            return fail_about(
                "unsupported openai chat field for codex compatibility: ",
                names[i],
            );
        }
        i += 1;
    }
    Ok(())
}

/// The effort that a request names on its own.
pub open spec fn flat_effort(request: Fields) -> Option<Seq<char>> {
    field_str(request, "reasoning_effort"@)
}

/// `effort` may come of the two efforts that a request can name: the normal form of the nested
/// one, or where that has none the normal form of the other.
pub open spec fn chosen_effort<N: Fn(&str) -> Option<String>>(
    request: Fields,
    normalize: N,
    effort: Option<Seq<char>>,
) -> bool {
    exists|nested: Option<Seq<char>>|
        {
            &&& #[trigger] normalized(normalize, nested_effort(request), nested)
            &&& match nested {
                Some(_) => effort == nested,
                None => normalized(normalize, flat_effort(request), effort),
            }
        }
}

/// `reasoning` may be the reasoning setting that a request comes to.
pub open spec fn openai_reasoning<N: Fn(&str) -> Option<String>>(
    request: Fields,
    normalize: N,
    reasoning: Option<JsonV>,
) -> bool {
    exists|effort: Option<Seq<char>>| #[trigger]
        chosen_effort(request, normalize, effort) && reasoning == (match effort {
            Some(e) => Some(reasoning_object(e)),
            None => None,
        })
}

/// The reasoning setting that a request comes to.
pub fn map_openai_reasoning<N: Fn(&str) -> Option<String>>(obj: &JsonMap, normalize: &N) -> (r:
    Option<Json>)
    requires
        forall|arg: &str| call_requires(*normalize, (arg,)),
    ensures
        openai_reasoning(obj@, *normalize, opt_owned(r)),
{
    let nested = normalize_named(normalize, get_nested_effort(obj));
    let ghost first = opt_string(nested);
    assert(normalized(*normalize, nested_effort(obj@), first));
    let effort = match nested {
        Some(effort) => Some(effort),
        None => normalize_named(normalize, obj.get_str("reasoning_effort")),
    };
    assert(chosen_effort(obj@, *normalize, opt_string(effort)));
    match effort {
        Some(effort) => Some(make_reasoning_object(effort.as_str())),
        None => None,
    }
}

/// The text of a content block that has to be a text block; the messages say what is wrong with
/// any other.
pub open spec fn text_block(
    item: JsonV,
    not_object: Seq<char>,
    no_text: Seq<char>,
    other_type: Seq<char>,
) -> Outcome<Seq<char>> {
    match item.as_object() {
        Some(block) => {
            let kind = or_else(field_str(block, "type"@), Seq::empty());
            if kind == "text"@ {
                match field_str(block, "text"@) {
                    Some(text) => Ok(text),
                    None => Err(no_text),
                }
            } else {
                Err(other_type + kind)
            }
        },
        None => Err(not_object),
    }
}

/// The texts of blocks that have to be text blocks, one after the other.
fn join_text_blocks(
    items: &Vec<Json>,
    not_object: &str,
    no_text: &str,
    other_type: &str,
) -> (r: Result<String, String>)
    ensures
        text_outcome(r) == gather(
            values_view(items@),
            |i: int, item: JsonV| text_block(item, not_object@, no_text@, other_type@),
        ),
{
    let ghost all = values_view(items@);
    let ghost part = |i: int, item: JsonV|
        text_block(item, not_object@, no_text@, other_type@);
    let mut out = String::new();
    let mut i: usize = 0;
    assert(all.take(0) =~= Seq::empty());
    while i < items.len()
        invariant
            all == values_view(items@),
            part == (|i: int, item: JsonV| text_block(item, not_object@, no_text@, other_type@)),
            i <= items@.len(),
            gather(all.take(i as int), part) == Outcome::Ok(out@),
        decreases items@.len() - i,
    {
        proof {
            lemma_gather_at(all, part, i as int);
        }
        let block = match items[i].as_object() {
            Some(block) => block,
            None => return fail(not_object),
        };
        let kind = get_str_or_empty(block, "type");
        if str_eq(kind, "text") {
            match block.get_str("text") {
                Some(text) => out.append(text),
                None => return fail(no_text),
            }
        } else {
            return fail_about(other_type, kind);
        }
        i += 1;
    }
    assert(all.take(all.len() as int) =~= all);
    Ok(out)
}

/// The text of a system or developer message.
pub open spec fn instruction_text(content: JsonV) -> Outcome<Seq<char>> {
    match content {
        JsonV::Str(text) => Ok(text),
        JsonV::Array(items) => gather(
            items,
            |i: int, item: JsonV|
                text_block(
                    item,
                    "invalid openai instruction content item"@,
                    "openai text content missing text"@,
                    "unsupported openai instruction content block type: "@,
                ),
        ),
        JsonV::Null => Ok(Seq::empty()),
        _ => Err("unsupported openai instruction content"@),
    }
}

/// The text of a system or developer message.
pub fn extract_openai_instruction_text(value: &Json) -> (r: Result<String, String>)
    ensures
        text_outcome(r) == instruction_text(value@),
{
    if let Some(text) = value.as_str() {
        return Ok(text.to_owned());
    }
    match value.as_array() {
        Some(items) => join_text_blocks(
            items,
            "invalid openai instruction content item",
            "openai text content missing text",
            "unsupported openai instruction content block type: ",
        ),
        None => {
            if value.is_null() {
                return Ok(String::new());
            }
            fail("unsupported openai instruction content")
        },
    }
}

/// The text of an assistant message.
pub open spec fn assistant_text(content: JsonV) -> Outcome<Seq<char>> {
    match content {
        JsonV::Null => Ok(Seq::empty()),
        JsonV::Str(text) => Ok(text),
        JsonV::Array(items) => gather(
            items,
            |i: int, item: JsonV|
                text_block(
                    item,
                    "invalid openai assistant content item"@,
                    "openai assistant text content missing text"@,
                    "unsupported openai assistant content block type: "@,
                ),
        ),
        _ => Err("unsupported openai assistant content"@),
    }
}

/// The text of an assistant message.
pub fn extract_openai_assistant_text_content(value: &Json) -> (r: Result<String, String>)
    ensures
        text_outcome(r) == assistant_text(value@),
{
    if value.is_null() {
        return Ok(String::new());
    }
    if let Some(text) = value.as_str() {
        return Ok(text.to_owned());
    }
    match value.as_array() {
        Some(items) => join_text_blocks(
            items,
            "invalid openai assistant content item",
            "openai assistant text content missing text",
            "unsupported openai assistant content block type: ",
        ),
        None => fail("unsupported openai assistant content"),
    }
}

/// What a block of a user message comes to: nothing for a blank text.
pub open spec fn user_block(item: JsonV) -> Outcome<Seq<JsonV>> {
    match item.as_object() {
        Some(block) => {
            let kind = or_else(field_str(block, "type"@), Seq::empty());
            if kind == "text"@ {
                match field_nonblank(block, "text"@) {
                    Some(text) => Ok(
                        seq![
                            JsonV::Object(
                                no_fields().insert("type"@, js("input_text"@)).insert(
                                    "text"@,
                                    js(text),
                                ),
                            ),
                        ],
                    ),
                    None => Ok(Seq::empty()),
                }
            } else if kind == "image_url"@ {
                match field_object(block, "image_url"@) {
                    Some(image) => match field_nonblank(image, "url"@) {
                        Some(url) => Ok(seq![image_block(url, field_nonblank(image, "detail"@))]),
                        None => Err("openai image_url content missing url"@),
                    },
                    None => Err("openai image_url content missing image_url object"@),
                }
            } else {
                Err("unsupported openai user content block type: "@ + kind)
            }
        },
        None => Err("invalid openai user content item"@),
    }
}

/// A block with an image.
pub open spec fn image_block(url: Seq<char>, detail: Option<Seq<char>>) -> JsonV {
    let image = no_fields().insert("type"@, js("input_image"@)).insert("image_url"@, js(url));
    match detail {
        Some(level) => JsonV::Object(image.insert("detail"@, js(level))),
        None => JsonV::Object(image),
    }
}

/// What the content of a user message comes to: one message, or none where nothing is left of it.
pub open spec fn user_items(content: JsonV) -> Outcome<Seq<JsonV>> {
    match content {
        JsonV::Str(text) => if is_blank(text) {
            Ok(Seq::empty())
        } else {
            Ok(seq![message_item("user"@, "input_text"@, trimmed(text))])
        },
        JsonV::Array(items) => match gather(items, |i: int, item: JsonV| user_block(item)) {
            Ok(blocks) => if blocks.len() == 0 {
                Ok(Seq::empty())
            } else {
                Ok(seq![blocks_item("user"@, blocks)])
            },
            Err(e) => Err(e),
        },
        JsonV::Null => Ok(Seq::empty()),
        _ => Err("unsupported openai user content"@),
    }
}

/// What a block of a user message comes to.
fn map_user_block(item: &Json) -> (r: Result<Vec<Json>, String>)
    ensures
        items_outcome(r) == user_block(item@),
{
    let block = match item.as_object() {
        Some(block) => block,
        None => return fail("invalid openai user content item"),
    };
    let kind = get_str_or_empty(block, "type");
    if str_eq(kind, "text") {
        match block.get_nonblank("text") {
            Some(text) => Ok(one(make_text_block("input_text", text))),
            None => Ok(Vec::new()),
        }
    } else if str_eq(kind, "image_url") {
        let image = match block.get_object("image_url") {
            Some(image) => image,
            None => return fail("openai image_url content missing image_url object"),
        };
        let url = match image.get_nonblank("url") {
            Some(url) => url,
            None => return fail("openai image_url content missing url"),
        };
        let mut mapped = JsonMap::new().with("type", Json::text("input_image")).with(
            "image_url",
            Json::text(url),
        );
        if let Some(detail) = image.get_nonblank("detail") {
            mapped.insert("detail", Json::text(detail));
        }
        Ok(one(Json::Object(mapped)))
    } else {
        fail_about("unsupported openai user content block type: ", kind)
    }
}

/// Appends what a user message comes to.
pub fn append_openai_user_message(input_items: &mut Vec<Json>, content: &Json) -> (r: Result<
    (),
    String,
>)
    ensures
        appended(old(input_items)@, final(input_items)@, r, user_items(content@)),
{
    let ghost before = values_view(input_items@);
    if let Some(text) = content.as_str() {
        let kept = trim(text);
        if !kept.is_empty() {
            input_items.push(make_message_item("user", "input_text", kept));
        }
        assert(before + Seq::<JsonV>::empty() =~= before);
        return Ok(());
    }
    let items = match content.as_array() {
        Some(items) => items,
        None => {
            if content.is_null() {
                assert(before + Seq::<JsonV>::empty() =~= before);
                return Ok(());
            }
            return fail("unsupported openai user content");
        },
    };
    let ghost all = values_view(items@);
    let ghost part = |i: int, item: JsonV| user_block(item);
    let mut blocks: Vec<Json> = Vec::new();
    let mut i: usize = 0;
    assert(all.take(0) =~= Seq::empty());
    while i < items.len()
        invariant
            *input_items == *old(input_items),
            content@ == JsonV::Array(all),
            all == values_view(items@),
            part == (|i: int, item: JsonV| user_block(item)),
            i <= items@.len(),
            gather(all.take(i as int), part) == Outcome::Ok(values_view(blocks@)),
        decreases items@.len() - i,
    {
        proof {
            lemma_gather_at(all, part, i as int);
        }
        match map_user_block(&items[i]) {
            Ok(more) => extend(&mut blocks, more),
            Err(e) => return Err(e),
        }
        i += 1;
    }
    assert(all.take(all.len() as int) =~= all);
    if blocks.len() > 0 {
        input_items.push(make_blocks_item("user", blocks));
    }
    assert(before + Seq::<JsonV>::empty() =~= before);
    Ok(())
}

/// What a tool call of an assistant message comes to.
pub open spec fn tool_call_item(index: int, call: JsonV) -> Outcome<Seq<JsonV>> {
    match call.as_object() {
        Some(fields) => match call_name_of(fields) {
            Some(name) => Ok(
                seq![
                    function_call_item(
                        call_id_of(fields, index as nat),
                        name,
                        call_arguments_of(fields),
                    ),
                ],
            ),
            None => Err("openai tool call missing function name"@),
        },
        None => Err("invalid openai tool call item"@),
    }
}

/// The tool calls of an assistant message; the one call of the older form counts as a list of one.
pub open spec fn tool_calls_of(message: Fields) -> Seq<JsonV> {
    match field_array(message, "tool_calls"@) {
        Some(calls) => calls,
        None => match field_object(message, "function_call"@) {
            Some(function) => seq![
                JsonV::Object(
                    no_fields().insert(
                        "id"@,
                        js(or_else(field_str(message, "tool_call_id"@), "call_0"@)),
                    ).insert("type"@, js("function"@)).insert(
                        "function"@,
                        JsonV::Object(function),
                    ),
                ),
            ],
            None => Seq::empty(),
        },
    }
}

/// What an assistant message comes to: its text, then its tool calls.
pub open spec fn assistant_items(message: Fields, content: JsonV) -> Outcome<Seq<JsonV>> {
    match assistant_text(content) {
        Ok(text) => match gather(
            tool_calls_of(message),
            |index: int, call: JsonV| tool_call_item(index, call),
        ) {
            Ok(calls) => if is_blank(text) {
                Ok(calls)
            } else {
                Ok(seq![message_item("assistant"@, "output_text"@, trimmed(text))] + calls)
            },
            Err(e) => Err(e),
        },
        Err(e) => Err(e),
    }
}

/// What an assistant message has come to where one of its tool calls is refused: its text, and the
/// calls before that one.
pub open spec fn assistant_items_made(message: Fields, content: JsonV) -> Seq<JsonV> {
    match assistant_text(content) {
        Ok(text) => {
            let calls = gathered(
                tool_calls_of(message),
                |index: int, call: JsonV| tool_call_item(index, call),
            );
            if is_blank(text) {
                calls
            } else {
                seq![message_item("assistant"@, "output_text"@, trimmed(text))] + calls
            }
        },
        Err(_) => Seq::empty(),
    }
}

/// The tool calls of an assistant message.
fn get_tool_calls(message_obj: &JsonMap) -> (r: Vec<Json>)
    ensures
        values_view(r@) == tool_calls_of(message_obj@),
{
    if let Some(calls) = message_obj.get_array("tool_calls") {
        return clone_items(calls);
    }
    match message_obj.get_object("function_call") {
        Some(function) => {
            let id = match message_obj.get_str("tool_call_id") {
                Some(id) => id,
                None => "call_0",
            };
            one(
                Json::Object(
                    JsonMap::new().with("id", Json::text(id)).with(
                        "type",
                        Json::text("function"),
                    ).with("function", Json::Object(function.clone())),
                ),
            )
        },
        None => Vec::new(),
    }
}

/// Appends what an assistant message comes to. Where one of its tool calls is refused, what came
/// before it stays.
pub fn append_openai_assistant_message(
    input_items: &mut Vec<Json>,
    message_obj: &JsonMap,
    content: &Json,
) -> (r: Result<(), String>)
    ensures
        appended_so_far(
            old(input_items)@,
            final(input_items)@,
            r,
            assistant_items(message_obj@, content@),
            assistant_items_made(message_obj@, content@),
        ),
{
    let ghost before = values_view(input_items@);
    assert(before + Seq::<JsonV>::empty() =~= before);
    let text = match extract_openai_assistant_text_content(content) {
        Ok(text) => text,
        Err(e) => return Err(e),
    };
    let ghost mut said: Seq<JsonV> = Seq::empty();
    let kept = trim(text.as_str());
    if !kept.is_empty() {
        let item = make_message_item("assistant", "output_text", kept);
        proof {
            said = seq![item@];
        }
        extend(input_items, one(item));
    }
    let tool_calls = get_tool_calls(message_obj);
    let ghost all = values_view(tool_calls@);
    let ghost part = |index: int, call: JsonV| tool_call_item(index, call);
    let ghost mut calls: Seq<JsonV> = Seq::empty();
    let mut index: usize = 0;
    assert(all.take(0) =~= Seq::empty());
    assert(before + (said + calls) =~= before + said);
    while index < tool_calls.len()
        invariant
            before == values_view(old(input_items)@),
            assistant_text(content@) == Outcome::Ok(text@),
            said == (if is_blank(text@) {
                Seq::empty()
            } else {
                seq![message_item("assistant"@, "output_text"@, trimmed(text@))]
            }),
            all == tool_calls_of(message_obj@),
            all == values_view(tool_calls@),
            part == (|index: int, call: JsonV| tool_call_item(index, call)),
            index <= tool_calls@.len(),
            gather(all.take(index as int), part) == Outcome::Ok(calls),
            values_view(input_items@) == before + (said + calls),
        decreases tool_calls@.len() - index,
    {
        proof {
            lemma_gather_at(all, part, index as int);
            if part(index as int, all[index as int]) is Err {
                lemma_gathered_at(all, part, index as int, all.len() as int);
                assert(all.take(all.len() as int) =~= all);
                assert(said + calls =~= assistant_items_made(message_obj@, content@));
            }
        }
        let tool_obj = match tool_calls[index].as_object() {
            Some(tool_obj) => tool_obj,
            None => return fail("invalid openai tool call item"),
        };
        let call_id = get_call_id(tool_obj, index as u64);
        let name = match get_call_name(tool_obj) {
            Some(name) => name,
            None => return fail("openai tool call missing function name"),
        };
        let arguments = get_call_arguments(tool_obj);
        let item = make_function_call_item(call_id.as_str(), name, arguments.as_str());
        proof {
            assert(before + (said + (calls + seq![item@])) =~= before + (said + calls) + seq![
                item@,
            ]);
            calls = calls + seq![item@];
        }
        extend(input_items, one(item));
        index += 1;
    }
    assert(all.take(all.len() as int) =~= all);
    assert(Seq::<JsonV>::empty() + calls =~= calls);
    Ok(())
}

/// What a tool message comes to.
pub open spec fn tool_items(message: Fields, content: JsonV) -> Outcome<Seq<JsonV>> {
    match field_nonblank(message, "tool_call_id"@) {
        Some(id) => Ok(seq![function_output_item(id, tool_result_text(Some(content)))]),
        None => Err("openai tool message missing tool_call_id"@),
    }
}

/// Appends what a tool message comes to.
pub fn append_openai_tool_message(
    input_items: &mut Vec<Json>,
    message_obj: &JsonMap,
    content: &Json,
) -> (r: Result<(), String>)
    ensures
        appended(
            old(input_items)@,
            final(input_items)@,
            r,
            tool_items(message_obj@, content@),
        ),
{
    let id = match message_obj.get_nonblank("tool_call_id") {
        Some(id) => id,
        None => return fail("openai tool message missing tool_call_id"),
    };
    let output = match extract_tool_result_content(Some(content)) {
        Ok(output) => output,
        Err(e) => return Err(e),
    };
    let ghost before = values_view(input_items@);
    input_items.push(make_function_output_item(id, output.as_str()));
    assert(values_view(input_items@) =~= before + seq![function_output_item(id@, output@)]);
    Ok(())
}

/// What a tool of the request comes to.
pub open spec fn openai_tool(item: JsonV) -> Outcome<Seq<JsonV>> {
    match item.as_object() {
        Some(tool) => {
            let kind = or_else(field_str(tool, "type"@), "function"@);
            if kind != "function"@ {
                Err("unsupported openai tool type: "@ + kind)
            } else {
                match field_object(tool, "function"@) {
                    Some(function) => match field_nonblank(function, "name"@) {
                        Some(name) => Ok(
                            seq![
                                function_tool(
                                    name,
                                    or_else(field_str(function, "description"@), Seq::empty()),
                                    or_else(field(function, "parameters"@), empty_schema()),
                                ),
                            ],
                        ),
                        None => Err("openai function tool missing name"@),
                    },
                    None => Err("openai function tool missing function object"@),
                }
            }
        },
        None => Err("invalid openai tool item"@),
    }
}

/// The first items, as many as are passed on.
pub open spec fn passed_on(items: Seq<JsonV>) -> Seq<JsonV> {
    if items.len() <= MAX_ANTHROPIC_TOOLS {
        items
    } else {
        items.take(MAX_ANTHROPIC_TOOLS as int)
    }
}

/// What the tools of a request come to; those beyond the limit are not looked at.
pub open spec fn openai_tools(value: JsonV) -> Outcome<Seq<JsonV>> {
    match value.as_array() {
        Some(items) => gather(passed_on(items), |i: int, item: JsonV| openai_tool(item)),
        None => Err("openai tools field must be an array"@),
    }
}

/// What a tool of the request comes to.
fn map_openai_tool(item: &Json) -> (r: Result<Vec<Json>, String>)
    ensures
        items_outcome(r) == openai_tool(item@),
{
    let tool = match item.as_object() {
        Some(tool) => tool,
        None => return fail("invalid openai tool item"),
    };
    let kind = match tool.get_str("type") {
        Some(kind) => kind,
        None => "function",
    };
    if !str_eq(kind, "function") {
        return fail_about("unsupported openai tool type: ", kind);
    }
    let function = match tool.get_object("function") {
        Some(function) => function,
        None => return fail("openai function tool missing function object"),
    };
    let name = match function.get_nonblank("name") {
        Some(name) => name,
        None => return fail("openai function tool missing name"),
    };
    let description = get_str_or_empty(function, "description");
    Ok(one(make_function_tool(name, description, function.get("parameters"))))
}

/// What the tools of a request come to.
pub fn map_openai_tools(value: &Json) -> (r: Result<Vec<Json>, String>)
    ensures
        items_outcome(r) == openai_tools(value@),
{
    let items = match value.as_array() {
        Some(items) => items,
        None => return fail("openai tools field must be an array"),
    };
    let ghost all = passed_on(values_view(items@));
    let ghost part = |i: int, item: JsonV| openai_tool(item);
    let count: usize = if items.len() <= MAX_ANTHROPIC_TOOLS {
        items.len()
    } else {
        MAX_ANTHROPIC_TOOLS
    };
    let mut mapped: Vec<Json> = Vec::new();
    let mut i: usize = 0;
    assert(all.take(0) =~= Seq::empty());
    while i < count
        invariant
            value@ == JsonV::Array(values_view(items@)),
            all == passed_on(values_view(items@)),
            part == (|i: int, item: JsonV| openai_tool(item)),
            count == all.len(),
            count <= items@.len(),
            i <= count,
            gather(all.take(i as int), part) == Outcome::Ok(values_view(mapped@)),
        decreases count - i,
    {
        proof {
            lemma_gather_at(all, part, i as int);
        }
        match map_openai_tool(&items[i]) {
            Ok(more) => extend(&mut mapped, more),
            Err(e) => return Err(e),
        }
        i += 1;
    }
    assert(all.take(all.len() as int) =~= all);
    Ok(mapped)
}

/// What the tool choice of a request comes to.
pub open spec fn openai_tool_choice(value: JsonV) -> Outcome<JsonV> {
    match value {
        JsonV::Str(text) => Ok(js(text)),
        JsonV::Object(choice) => {
            let kind = or_else(field_str(choice, "type"@), "function"@);
            if kind != "function"@ {
                Err("unsupported openai tool_choice type: "@ + kind)
            } else {
                match field_object(choice, "function"@) {
                    Some(function) => match field_nonblank(function, "name"@) {
                        Some(name) => Ok(function_choice(name)),
                        None => Err("openai tool_choice missing function name"@),
                    },
                    None => Err("openai tool_choice missing function name"@),
                }
            }
        },
        _ => Err("openai tool_choice must be a string or object"@),
    }
}

/// What the tool choice of a request comes to; where it does not fail there is one.
pub fn map_openai_tool_choice(value: &Json) -> (r: Result<Option<Json>, String>)
    ensures
        match openai_tool_choice(value@) {
            Ok(choice) => r matches Ok(given) && opt_owned(given) == Some(choice),
            Err(message) => r matches Err(e) && e@ == message,
        },
{
    if let Some(text) = value.as_str() {
        return Ok(Some(Json::text(text)));
    }
    let choice = match value.as_object() {
        Some(choice) => choice,
        None => return fail("openai tool_choice must be a string or object"),
    };
    let kind = match choice.get_str("type") {
        Some(kind) => kind,
        None => "function",
    };
    if !str_eq(kind, "function") {
        return fail_about("unsupported openai tool_choice type: ", kind);
    }
    let name = match choice.get_object("function") {
        Some(function) => function.get_nonblank("name"),
        None => None,
    };
    match name {
        Some(name) => Ok(Some(make_function_choice(name))),
        None => fail("openai tool_choice missing function name"),
    }
}

/// What the messages read so far have come to: the texts of the instructions, and the input items.
pub type ChatState = (Seq<Seq<char>>, Seq<JsonV>);

/// What one more message adds.
pub open spec fn openai_message(state: ChatState, message: JsonV) -> Outcome<ChatState> {
    match message.as_object() {
        Some(fields) => match field_str(fields, "role"@) {
            Some(role) => {
                let content = or_else(field(fields, "content"@), JsonV::Null);
                if role == "system"@ || role == "developer"@ {
                    match instruction_text(content) {
                        Ok(text) => if is_blank(text) {
                            Ok(state)
                        } else {
                            Ok((state.0.push(text), state.1))
                        },
                        Err(e) => Err(e),
                    }
                } else if role == "user"@ {
                    add_items(state, user_items(content))
                } else if role == "assistant"@ {
                    add_items(state, assistant_items(fields, content))
                } else if role == "tool"@ {
                    add_items(state, tool_items(fields, content))
                } else {
                    Err("unsupported openai chat message role: "@ + role)
                }
            },
            None => Err("openai chat message role is required"@),
        },
        None => Err("invalid openai chat message item"@),
    }
}

/// The state with more input items.
pub open spec fn add_items(state: ChatState, items: Outcome<Seq<JsonV>>) -> Outcome<ChatState> {
    match items {
        Ok(more) => Ok((state.0, state.1 + more)),
        Err(e) => Err(e),
    }
}

/// What the messages of a request come to.
pub open spec fn openai_messages(messages: Seq<JsonV>) -> Outcome<ChatState> {
    try_fold(
        messages,
        (Seq::empty(), Seq::empty()),
        |state: ChatState, i: int, message: JsonV| openai_message(state, message),
    )
}

/// What one more message adds.
fn append_openai_message(
    instructions_parts: &mut Vec<String>,
    input_items: &mut Vec<Json>,
    message: &Json,
) -> (r: Result<(), String>)
    ensures
        match openai_message(
            (texts(old(instructions_parts)@), values_view(old(input_items)@)),
            message@,
        ) {
            Ok(state) => r is Ok && texts(final(instructions_parts)@) == state.0 && values_view(
                final(input_items)@,
            ) == state.1,
            Err(message) => r matches Err(e) && e@ == message,
        },
{
    let message_obj = match message.as_object() {
        Some(message_obj) => message_obj,
        None => return fail("invalid openai chat message item"),
    };
    let role = match message_obj.get_str("role") {
        Some(role) => role,
        None => return fail("openai chat message role is required"),
    };
    let absent = Json::Null;
    let content = match message_obj.get("content") {
        Some(content) => content,
        None => &absent,
    };
    if str_eq(role, "system") || str_eq(role, "developer") {
        let text = match extract_openai_instruction_text(content) {
            Ok(text) => text,
            Err(e) => return Err(e),
        };
        if !trim(text.as_str()).is_empty() {
            let ghost before = texts(instructions_parts@);
            instructions_parts.push(text);
            assert(texts(instructions_parts@) =~= before.push(text@));
        }
        Ok(())
    } else if str_eq(role, "user") {
        append_openai_user_message(input_items, content)
    } else if str_eq(role, "assistant") {
        append_openai_assistant_message(input_items, message_obj, content)
    } else if str_eq(role, "tool") {
        append_openai_tool_message(input_items, message_obj, content)
    } else {
        fail_about("unsupported openai chat message role: ", role)
    }
}

/// The limit on output tokens, where a request names one that is positive.
pub open spec fn openai_token_limit(request: Fields) -> Option<JsonV> {
    match i64_of(field_or(request, "max_completion_tokens"@, "max_tokens"@)) {
        Some(limit) => if limit > 0 {
            Some(jint(limit as int))
        } else {
            None
        },
        None => None,
    }
}

/// What the tools of a request come to; none where it has none.
pub open spec fn openai_request_tools(request: Fields) -> Outcome<Seq<JsonV>> {
    match field(request, "tools"@) {
        Some(tools) => openai_tools(tools),
        None => Ok(Seq::empty()),
    }
}

/// What the tool choice of a request comes to; none where it has none or `null`.
pub open spec fn openai_request_choice(request: Fields) -> Outcome<Option<JsonV>> {
    match field(request, "tool_choice"@) {
        Some(JsonV::Null) => Ok(None),
        Some(choice) => match openai_tool_choice(choice) {
            Ok(mapped) => Ok(Some(mapped)),
            Err(e) => Err(e),
        },
        None => Ok(None),
    }
}

/// Whether tools may be called side by side: as the request says, else yes where it has tools.
pub open spec fn openai_parallel(request: Fields, tools: Seq<JsonV>) -> Option<JsonV> {
    match field_bool(request, "parallel_tool_calls"@) {
        Some(parallel) => Some(JsonV::Bool(parallel)),
        None => if tools.len() > 0 {
            Some(JsonV::Bool(true))
        } else {
            None
        },
    }
}

/// Whether a request asks for its answer piece by piece.
pub open spec fn openai_stream(request: Fields) -> bool {
    or_else(field_bool(request, "stream"@), false)
}

/// The members of the Responses request.
pub open spec fn openai_fields(
    request: Fields,
    model: Seq<char>,
    chat: ChatState,
    tools: Seq<JsonV>,
    choice: Option<JsonV>,
    reasoning: Option<JsonV>,
) -> Fields {
    let head = no_fields().insert("model"@, js(model)).insert(
        "instructions"@,
        js(joined(chat.0, "\n\n"@)),
    ).insert("text"@, text_format());
    let reasoned = put(head, "reasoning"@, reasoning);
    let limited = put(reasoned, "max_output_tokens"@, openai_token_limit(request)).insert(
        "input"@,
        JsonV::Array(chat.1),
    );
    let equipped = put(
        limited,
        "tools"@,
        if tools.len() > 0 {
            Some(JsonV::Array(tools))
        } else {
            None
        },
    );
    let chosen = put(equipped, "tool_choice"@, choice);
    put(chosen, "parallel_tool_calls"@, openai_parallel(request, tools)).insert(
        "stream"@,
        JsonV::Bool(true),
    ).insert("store"@, JsonV::Bool(false)).insert("include"@, included())
}

/// The Responses request that a chat request comes to, and whether the answer is wanted piece by
/// piece.
pub open spec fn openai_request(request: Fields, reasoning: Option<JsonV>) -> Outcome<
    (JsonV, bool),
> {
    match unsupported_field_error(request) {
        Some(message) => Err(message),
        None => match field_nonblank(request, "model"@) {
            Some(model) => match field_array(request, "messages"@) {
                Some(messages) => match openai_messages(messages) {
                    Ok(chat) => match openai_request_tools(request) {
                        Ok(tools) => match openai_request_choice(request) {
                            Ok(choice) => Ok(
                                (
                                    JsonV::Object(
                                        openai_fields(
                                            request,
                                            model,
                                            chat,
                                            tools,
                                            choice,
                                            reasoning,
                                        ),
                                    ),
                                    openai_stream(request),
                                ),
                            ),
                            Err(e) => Err(e),
                        },
                        Err(e) => Err(e),
                    },
                    Err(e) => Err(e),
                },
                None => Err("openai chat request messages field is required"@),
            },
            None => Err("openai chat request model is required"@),
        },
    }
}

/// What a request that may be refused comes to.
pub open spec fn request_outcome(r: Result<(Json, bool), String>) -> Outcome<(JsonV, bool)> {
    match r {
        Ok((request, stream)) => Ok((request@, stream)),
        Err(e) => Err(e@),
    }
}

/// The Responses request that a chat request comes to, and whether the answer is wanted piece by
/// piece. `reasoning` is its reasoning setting.
pub fn build_openai_chat_request(obj: &JsonMap, reasoning: Option<Json>) -> (r: Result<
    (Json, bool),
    String,
>)
    ensures
        request_outcome(r) == openai_request(obj@, opt_owned(reasoning)),
{
    if let Err(e) = reject_unsupported_openai_chat_fields(obj) {
        return Err(e);
    }
    let model = match obj.get_nonblank("model") {
        Some(model) => model,
        None => return fail("openai chat request model is required"),
    };
    let source_messages = match obj.get_array("messages") {
        Some(source_messages) => source_messages,
        None => return fail("openai chat request messages field is required"),
    };
    let ghost all = values_view(source_messages@);
    let ghost start: ChatState = (Seq::empty(), Seq::empty());
    let ghost step = |state: ChatState, i: int, message: JsonV| openai_message(state, message);
    let mut instructions_parts: Vec<String> = Vec::new();
    let mut input_items: Vec<Json> = Vec::new();
    let mut i: usize = 0;
    assert(all.take(0) =~= Seq::empty());
    assert(texts(instructions_parts@) =~= Seq::empty());
    while i < source_messages.len()
        invariant
            unsupported_field_error(obj@) is None,
            field_nonblank(obj@, "model"@) is Some,
            field_array(obj@, "messages"@) == Some(all),
            all == values_view(source_messages@),
            start == (Seq::<Seq<char>>::empty(), Seq::<JsonV>::empty()),
            step == (|state: ChatState, i: int, message: JsonV| openai_message(state, message)),
            i <= source_messages@.len(),
            try_fold(all.take(i as int), start, step) == Outcome::Ok(
                (texts(instructions_parts@), values_view(input_items@)),
            ),
        decreases source_messages@.len() - i,
    {
        proof {
            lemma_try_fold_at(all, start, step, i as int);
        }
        if let Err(e) = append_openai_message(
            &mut instructions_parts,
            &mut input_items,
            &source_messages[i],
        ) {
            return Err(e);
        }
        i += 1;
    }
    assert(all.take(all.len() as int) =~= all);

    let mut out = JsonMap::new();
    out.insert("model", Json::text(model));
    out.insert("instructions", Json::Str(join(&instructions_parts, "\n\n")));
    out.insert("text", make_text_format());
    out.put("reasoning", reasoning);
    if let Some(given) = obj.get_or("max_completion_tokens", "max_tokens") {
        if let Some(limit) = given.as_i64() {
            if limit > 0 {
                out.insert("max_output_tokens", Json::integer(limit));
            }
        }
    }
    out.insert("input", Json::Array(input_items));

    let mapped_tools = match obj.get("tools") {
        Some(tools) => match map_openai_tools(tools) {
            Ok(mapped_tools) => mapped_tools,
            Err(e) => return Err(e),
        },
        None => Vec::new(),
    };
    let has_tools = mapped_tools.len() > 0;
    if has_tools {
        out.insert("tools", Json::Array(mapped_tools));
    }
    if let Some(tool_choice) = obj.get("tool_choice") {
        if !tool_choice.is_null() {
            match map_openai_tool_choice(tool_choice) {
                Ok(choice) => out.put("tool_choice", choice),
                Err(e) => return Err(e),
            }
        }
    }
    match obj.get_bool("parallel_tool_calls") {
        Some(parallel) => out.insert("parallel_tool_calls", Json::Bool(parallel)),
        None => {
            if has_tools {
                out.insert("parallel_tool_calls", Json::Bool(true));
            }
        },
    }
    let request_stream = match obj.get_bool("stream") {
        Some(stream) => stream,
        None => false,
    };
    out.insert("stream", Json::Bool(true));
    out.insert("store", Json::Bool(false));
    out.insert("include", make_included());
    Ok((Json::Object(out), request_stream))
}

/// `r` is a converted request as bytes.
pub open spec fn written(request: Outcome<(JsonV, bool)>, r: Outcome<(Seq<u8>, bool)>) -> bool {
    match request {
        Ok((json, stream)) => r matches Ok((bytes, wanted)) && holds_json(bytes, json) && wanted
            == stream,
        Err(e) => r == Outcome::<(Seq<u8>, bool)>::Err(e),
    }
}

/// What bytes and a flag that may fail to come hold.
pub open spec fn bytes_outcome(r: Result<(Vec<u8>, bool), String>) -> Outcome<(Seq<u8>, bool)> {
    match r {
        Ok((bytes, stream)) => Ok((bytes@, stream)),
        Err(e) => Err(e@),
    }
}

/// `r` may come of the chat request that `body` holds.
pub open spec fn openai_converted<N: Fn(&str) -> Option<String>>(
    body: Seq<u8>,
    normalize: N,
    r: Outcome<(Seq<u8>, bool)>,
) -> bool {
    match json_read(body) {
        Some(JsonV::Object(request)) => exists|reasoning: Option<JsonV>|
            #[trigger] openai_reasoning(request, normalize, reasoning) && written(
                openai_request(request, reasoning),
                r,
            ),
        Some(_) => r == Outcome::<(Seq<u8>, bool)>::Err(
            "openai chat request body must be an object"@,
        ),
        None => r == Outcome::<(Seq<u8>, bool)>::Err("invalid openai chat request json"@),
    }
}

/// Turns the bytes of a chat request into those of a Responses request, and says whether the answer
/// is wanted piece by piece. `normalize` brings a reasoning effort into normal form.
pub fn convert_openai_chat_completions_request<N: Fn(&str) -> Option<String>>(
    body: &[u8],
    normalize: &N,
) -> (r: Result<(Vec<u8>, bool), String>)
    requires
        forall|arg: &str| call_requires(*normalize, (arg,)),
    ensures
        openai_converted(body@, *normalize, bytes_outcome(r)),
{
    let payload = match read_json(body) {
        Some(payload) => payload,
        None => return fail("invalid openai chat request json"),
    };
    let obj = match payload.as_object() {
        Some(obj) => obj,
        None => return fail("openai chat request body must be an object"),
    };
    let reasoning = map_openai_reasoning(obj, normalize);
    assert(openai_reasoning(obj@, *normalize, opt_owned(reasoning)));
    match build_openai_chat_request(obj, reasoning) {
        Ok((request, request_stream)) => Ok((write_json_bytes(&request), request_stream)),
        Err(e) => Err(e),
    }
}

} // verus!
