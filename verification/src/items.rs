//! The pieces of a Responses request that both request formats come down to.

use vstd::prelude::*;
use vstd::string::*;

use crate::codec::{json_text, write_json};
use crate::json::{
    field, field_object, field_str, group_values_view, js, no_fields, one, opt_view, or_else,
    text_outcome, values_view, Fields, Json, JsonMap, JsonV,
};
use crate::sequence::Outcome;
use crate::text::{
    concat_text, decimal, decimal_text, nonblank, nonblank_of, opt_str, opt_string, str_eq,
};

verus! {

broadcast use group_values_view;

/// No more tools than this are passed on.
pub const MAX_ANTHROPIC_TOOLS: usize = 16;

/// The text of member `key`, or the empty text where it is no string.
pub fn get_str_or_empty<'a>(fields: &'a JsonMap, key: &str) -> (r: &'a str)
    ensures
        r@ == or_else(field_str(fields@, key@), Seq::empty()),
{
    match fields.get_str(key) {
        Some(text) => text,
        None => {
            proof {
                reveal_strlit("");
                assert(""@ =~= Seq::empty());
            }
            ""
        },
    }
}

/// A message with one text block.
pub open spec fn message_item(role: Seq<char>, kind: Seq<char>, text: Seq<char>) -> JsonV {
    blocks_item(
        role,
        seq![JsonV::Object(no_fields().insert("type"@, js(kind)).insert("text"@, js(text)))],
    )
}

/// A message with the given content blocks.
pub open spec fn blocks_item(role: Seq<char>, blocks: Seq<JsonV>) -> JsonV {
    JsonV::Object(
        no_fields().insert("type"@, js("message"@)).insert("role"@, js(role)).insert(
            "content"@,
            JsonV::Array(blocks),
        ),
    )
}

/// A text block.
pub fn make_text_block(kind: &str, text: &str) -> (r: Json)
    ensures
        r@ == JsonV::Object(no_fields().insert("type"@, js(kind@)).insert("text"@, js(text@))),
{
    Json::Object(JsonMap::new().with("type", Json::text(kind)).with("text", Json::text(text)))
}

/// A message with the given content blocks.
pub fn make_blocks_item(role: &str, blocks: Vec<Json>) -> (r: Json)
    ensures
        r@ == blocks_item(role@, values_view(blocks@)),
{
    Json::Object(
        JsonMap::new().with("type", Json::text("message")).with("role", Json::text(role)).with(
            "content",
            Json::Array(blocks),
        ),
    )
}

/// A message with one text block.
pub fn make_message_item(role: &str, kind: &str, text: &str) -> (r: Json)
    ensures
        r@ == message_item(role@, kind@, text@),
{
    make_blocks_item(role, one(make_text_block(kind, text)))
}

/// A call of a tool.
pub open spec fn function_call_item(
    call_id: Seq<char>,
    name: Seq<char>,
    arguments: Seq<char>,
) -> JsonV {
    JsonV::Object(
        no_fields().insert("type"@, js("function_call"@)).insert("call_id"@, js(call_id)).insert(
            "name"@,
            js(name),
        ).insert("arguments"@, js(arguments)),
    )
}

/// A call of a tool.
pub fn make_function_call_item(call_id: &str, name: &str, arguments: &str) -> (r: Json)
    ensures
        r@ == function_call_item(call_id@, name@, arguments@),
{
    Json::Object(
        JsonMap::new().with("type", Json::text("function_call")).with(
            "call_id",
            Json::text(call_id),
        ).with("name", Json::text(name)).with("arguments", Json::text(arguments)),
    )
}

/// What a tool gave back.
pub open spec fn function_output_item(call_id: Seq<char>, output: Seq<char>) -> JsonV {
    JsonV::Object(
        no_fields().insert("type"@, js("function_call_output"@)).insert(
            "call_id"@,
            js(call_id),
        ).insert("output"@, js(output)),
    )
}

/// What a tool gave back.
pub fn make_function_output_item(call_id: &str, output: &str) -> (r: Json)
    ensures
        r@ == function_output_item(call_id@, output@),
{
    Json::Object(
        JsonMap::new().with("type", Json::text("function_call_output")).with(
            "call_id",
            Json::text(call_id),
        ).with("output", Json::text(output)),
    )
}

/// The identifier of the call at place `index` that brings none of its own.
pub open spec fn default_call_id(index: nat) -> Seq<char> {
    "call_"@ + decimal(index)
}

/// The identifier of the call at place `index` that brings none of its own.
pub fn make_default_call_id(index: u64) -> (r: String)
    ensures
        r@ == default_call_id(index as nat),
{
    concat_text("call_", decimal_text(index).as_str())
}

/// The identifier of a tool call.
pub open spec fn call_id_of(call: Fields, index: nat) -> Seq<char> {
    or_else(field_str(call, "id"@), default_call_id(index))
}

/// The identifier of a tool call.
pub fn get_call_id(call: &JsonMap, index: u64) -> (r: String)
    ensures
        r@ == call_id_of(call@, index as nat),
{
    match call.get_str("id") {
        Some(id) => id.to_owned(),
        None => make_default_call_id(index),
    }
}

/// The trimmed name of the function that a tool call is for.
pub open spec fn call_name_of(call: Fields) -> Option<Seq<char>> {
    match field(call, "function"@) {
        Some(function) => nonblank(function.get_str("name"@)),
        None => None,
    }
}

/// The trimmed name of the function that a tool call is for.
pub fn get_call_name(call: &JsonMap) -> (r: Option<&str>)
    ensures
        opt_str(r) == call_name_of(call@),
{
    match call.get("function") {
        Some(function) => nonblank_of(function.get_str("name")),
        None => None,
    }
}

/// A string as it is, any other value as JSON text.
pub open spec fn raw_text(value: JsonV) -> Seq<char> {
    match value {
        JsonV::Str(text) => text,
        _ => json_text(value),
    }
}

/// A string as it is, any other value as JSON text.
pub fn make_raw_text(value: &Json) -> (r: String)
    ensures
        r@ == raw_text(value@),
{
    match value.as_str() {
        Some(text) => text.to_owned(),
        None => write_json(value),
    }
}

/// The arguments of a tool call as text: an empty object where there are none.
pub open spec fn call_arguments_of(call: Fields) -> Seq<char> {
    match field(call, "function"@) {
        Some(function) => match function.get("arguments"@) {
            Some(arguments) => raw_text(arguments),
            None => "{}"@,
        },
        None => "{}"@,
    }
}

/// The arguments of a tool call as text.
pub fn get_call_arguments(call: &JsonMap) -> (r: String)
    ensures
        r@ == call_arguments_of(call@),
{
    match call.get("function") {
        Some(function) => match function.get("arguments") {
            Some(arguments) => make_raw_text(arguments),
            None => "{}".to_owned(),
        },
        None => "{}".to_owned(),
    }
}

/// The text of a block that holds text; every other value as JSON text.
pub open spec fn tool_result_part(item: JsonV) -> Seq<char> {
    match item {
        JsonV::Str(text) => text,
        JsonV::Object(block) => if field_str(block, "type"@) == Some("text"@) && field_str(
            block,
            "text"@,
        ) is Some {
            field_str(block, "text"@)->0
        } else {
            json_text(item)
        },
        _ => json_text(item),
    }
}

/// What a tool's result comes to as text: nothing for none, and an array item by item.
pub open spec fn tool_result_text(value: Option<JsonV>) -> Seq<char> {
    match value {
        None => Seq::empty(),
        Some(JsonV::Null) => Seq::empty(),
        Some(JsonV::Array(items)) => concat_parts(items),
        Some(other) => tool_result_part(other),
    }
}

/// The texts of the items, one after the other.
pub open spec fn concat_parts(items: Seq<JsonV>) -> Seq<char>
    decreases items.len(),
{
    if items.len() == 0 {
        Seq::empty()
    } else {
        concat_parts(items.drop_last()) + tool_result_part(items.last())
    }
}

fn get_tool_result_part(item: &Json) -> (r: String)
    ensures
        r@ == tool_result_part(item@),
{
    if let Some(text) = item.as_str() {
        return text.to_owned();
    }
    if let Some(block) = item.as_object() {
        if let Some(kind) = block.get_str("type") {
            if str_eq(kind, "text") {
                if let Some(text) = block.get_str("text") {
                    return text.to_owned();
                }
            }
        }
    }
    write_json(item)
}

/// What a tool's result comes to as text. Nothing here can fail: every JSON value has a text.
pub fn extract_tool_result_content(value: Option<&Json>) -> (r: Result<String, String>)
    ensures
        text_outcome(r) == Outcome::<Seq<char>>::Ok(
            tool_result_text(opt_view(value)),
        ),
{
    let value = match value {
        Some(value) => value,
        None => return Ok(String::new()),
    };
    if value.is_null() {
        return Ok(String::new());
    }
    if let Some(items) = value.as_array() {
        let ghost all = values_view(items@);
        let mut out = String::new();
        let mut i: usize = 0;
        assert(all.take(0) =~= Seq::empty());
        while i < items.len()
            invariant
                all == values_view(items@),
                i <= items@.len(),
                out@ == concat_parts(all.take(i as int)),
            decreases items@.len() - i,
        {
            assert(all.take(i + 1).drop_last() =~= all.take(i as int));
            out.append(get_tool_result_part(&items[i]).as_str());
            i += 1;
        }
        assert(all.take(all.len() as int) =~= all);
        return Ok(out);
    }
    Ok(get_tool_result_part(value))
}

/// The schema of a tool that brings none.
pub open spec fn empty_schema() -> JsonV {
    JsonV::Object(
        no_fields().insert("type"@, js("object"@)).insert("properties"@, JsonV::Object(no_fields())),
    )
}

/// A tool as a Responses request lists it.
pub open spec fn function_tool(
    name: Seq<char>,
    description: Seq<char>,
    parameters: JsonV,
) -> JsonV {
    let named = no_fields().insert("type"@, js("function"@)).insert("name"@, js(name));
    let described = if description.len() == 0 {
        named
    } else {
        named.insert("description"@, js(description))
    };
    JsonV::Object(described.insert("parameters"@, parameters))
}

/// A tool as a Responses request lists it.
pub fn make_function_tool(name: &str, description: &str, parameters: Option<&Json>) -> (r: Json)
    ensures
        r@ == function_tool(
            name@,
            description@,
            or_else(opt_view(parameters), empty_schema()),
        ),
{
    let mut tool = JsonMap::new().with("type", Json::text("function")).with(
        "name",
        Json::text(name),
    );
    if !description.is_empty() {
        tool.insert("description", Json::text(description));
    }
    let schema = match parameters {
        Some(given) => given.clone(),
        None => Json::Object(
            JsonMap::new().with("type", Json::text("object")).with(
                "properties",
                Json::Object(JsonMap::new()),
            ),
        ),
    };
    tool.insert("parameters", schema);
    Json::Object(tool)
}

/// A tool choice that names one function.
pub open spec fn function_choice(name: Seq<char>) -> JsonV {
    JsonV::Object(no_fields().insert("type"@, js("function"@)).insert("name"@, js(name)))
}

/// A tool choice that names one function.
pub fn make_function_choice(name: &str) -> (r: Json)
    ensures
        r@ == function_choice(name@),
{
    Json::Object(
        JsonMap::new().with("type", Json::text("function")).with("name", Json::text(name)),
    )
}

/// The text format of every request.
pub open spec fn text_format() -> JsonV {
    JsonV::Object(
        no_fields().insert(
            "format"@,
            JsonV::Object(no_fields().insert("type"@, js("text"@))),
        ),
    )
}

/// The text format of every request.
pub fn make_text_format() -> (r: Json)
    ensures
        r@ == text_format(),
{
    Json::Object(
        JsonMap::new().with("format", Json::Object(JsonMap::new().with("type", Json::text("text")))),
    )
}

/// What every request asks to have sent along.
pub open spec fn included() -> JsonV {
    JsonV::Array(seq![js("reasoning.encrypted_content"@)])
}

/// What every request asks to have sent along.
pub fn make_included() -> (r: Json)
    ensures
        r@ == included(),
{
    Json::Array(one(Json::text("reasoning.encrypted_content")))
}

/// The reasoning setting of a request.
pub open spec fn reasoning_object(effort: Seq<char>) -> JsonV {
    JsonV::Object(no_fields().insert("effort"@, js(effort)))
}

/// The reasoning setting of a request.
pub fn make_reasoning_object(effort: &str) -> (r: Json)
    ensures
        r@ == reasoning_object(effort@),
{
    Json::Object(JsonMap::new().with("effort", Json::text(effort)))
}

/// The effort that a request names under `reasoning`.
pub open spec fn nested_effort(request: Fields) -> Option<Seq<char>> {
    match field_object(request, "reasoning"@) {
        Some(reasoning) => field_str(reasoning, "effort"@),
        None => None,
    }
}

/// The effort that a request names under `reasoning`.
pub fn get_nested_effort(request: &JsonMap) -> (r: Option<&str>)
    ensures
        opt_str(r) == nested_effort(request@),
{
    match request.get_object("reasoning") {
        Some(reasoning) => reasoning.get_str("effort"),
        None => None,
    }
}

/// `out` is what `normalize` may give for the effort `raw`; it is not asked where none is named.
pub open spec fn normalized<N: Fn(&str) -> Option<String>>(
    normalize: N,
    raw: Option<Seq<char>>,
    out: Option<Seq<char>>,
) -> bool {
    match raw {
        Some(text) => exists|arg: &str, ret: Option<String>|
            {
                &&& arg@ == text
                &&& #[trigger] call_ensures(normalize, (arg,), ret)
                &&& opt_string(ret) == out
            },
        None => out is None,
    }
}

/// Asks `normalize` for the effort `raw`, where one is named.
pub fn normalize_named<N: Fn(&str) -> Option<String>>(normalize: &N, raw: Option<&str>) -> (r:
    Option<String>)
    requires
        forall|arg: &str| call_requires(*normalize, (arg,)),
    ensures
        normalized(*normalize, opt_str(raw), opt_string(r)),
{
    match raw {
        Some(text) => normalize(text),
        None => None,
    }
}

} // verus!
