//! What holds of every converted request.

use vstd::prelude::*;
use vstd::string::*;

use crate::anthropic_request::{
    anthropic_chat, anthropic_choice, anthropic_converted, anthropic_fields, anthropic_input,
    anthropic_message, anthropic_request_tools, anthropic_stream, anthropic_system, anthropic_tool,
    anthropic_tools, chat_call_item, chat_call_items, chat_input, chat_message_input,
    chat_text_items, content_blocks, flushed, joined_instructions, resolved_key, upstream_model,
    user_message_block, UserState, DEFAULT_ANTHROPIC_INSTRUCTIONS, DEFAULT_ANTHROPIC_MODEL,
    DEFAULT_ANTHROPIC_REASONING,
};
use crate::codec::{holds_json, json_read, lemma_plain_deeper, plain_within};
use crate::items::{
    call_arguments_of, call_id_of, call_name_of, empty_schema, function_call_item, function_choice,
    function_output_item, function_tool, included, message_item, nested_effort, normalized,
    reasoning_object, text_format, tool_result_text, MAX_ANTHROPIC_TOOLS,
};
use crate::json::{
    field, field_array, field_bool, field_nonblank, field_object, field_str, js, no_fields, or_else,
    Fields, JsonMap, JsonV,
};
use crate::openai_request::{
    assistant_items, assistant_text, first_member, instruction_text, openai_message,
    openai_messages, openai_request, openai_request_choice, openai_request_tools, openai_stream,
    openai_tool, openai_tools, passed_on, tool_call_item, tool_calls_of, tool_items,
    unsupported_chat_fields, unsupported_field_error, user_block, user_items, written, ChatState,
};
use crate::sequence::{gather, try_fold, Outcome};
use crate::text::{
    ascii_lowered, has_part, has_prefix, is_blank, is_space, joined, nonblank, trimmed, trimmed_end,
    trimmed_start,
};

verus! {

/// The names of the members of a Responses request differ from each other, and from those of the
/// sampling parameters.
proof fn lemma_member_names()
    ensures
        "model"@ != "input"@,
        "model"@ != "tools"@,
        "model"@ != "store"@,
        "input"@ != "tools"@,
        "input"@ != "store"@,
        "tools"@ != "store"@,
        "top_p"@ != "model"@,
        "top_p"@ != "input"@,
        "top_p"@ != "tools"@,
        "top_p"@ != "store"@,
        "temperature"@ != "tool_choice"@,
        "model"@.len() == 5,
        "input"@.len() == 5,
        "tools"@.len() == 5,
        "store"@.len() == 5,
        "top_p"@.len() == 5,
        "temperature"@.len() == 11,
        "tool_choice"@.len() == 11,
        "instructions"@.len() == 12,
        "text"@.len() == 4,
        "reasoning"@.len() == 9,
        "max_output_tokens"@.len() == 17,
        "prompt_cache_key"@.len() == 16,
        "parallel_tool_calls"@.len() == 19,
        "stream"@.len() == 6,
        "include"@.len() == 7,
{
    reveal_strlit("model");
    reveal_strlit("input");
    reveal_strlit("tools");
    reveal_strlit("store");
    reveal_strlit("top_p");
    reveal_strlit("temperature");
    reveal_strlit("tool_choice");
    reveal_strlit("instructions");
    reveal_strlit("text");
    reveal_strlit("reasoning");
    reveal_strlit("max_output_tokens");
    reveal_strlit("prompt_cache_key");
    reveal_strlit("parallel_tool_calls");
    reveal_strlit("stream");
    reveal_strlit("include");
    assert("model"@[0] == 'm');
    assert("input"@[0] == 'i');
    assert("tools"@[0] == 't' && "tools"@[2] == 'o');
    assert("store"@[0] == 's');
    assert("top_p"@[0] == 't' && "top_p"@[2] == 'p');
    assert("temperature"@[1] == 'e');
    assert("tool_choice"@[1] == 'o');
}

/// A converted chat request asks for its answer in a stream, is not stored, names the model that it
/// was made with, and brings the input items as a list.
pub proof fn lemma_openai_request_shape(request: Fields, reasoning: Option<JsonV>)
    ensures
        openai_request(request, reasoning) matches Ok((converted, stream)) ==> {
            &&& converted.get("stream"@) == Some(JsonV::Bool(true))
            &&& converted.get("store"@) == Some(JsonV::Bool(false))
            &&& converted.get("include"@) == Some(included())
            &&& converted.get("text"@) == Some(text_format())
            &&& converted.get("reasoning"@) == reasoning
            &&& converted.get_str("model"@) == field_nonblank(request, "model"@)
            &&& converted.get_str("instructions"@) is Some
            &&& converted.get_array("input"@) is Some
            &&& stream == openai_stream(request)
        },
{
    lemma_member_names();
}

/// A chat request with a member that has no counterpart is refused, and the refusal says so,
/// whatever else the request holds.
pub proof fn lemma_openai_unsupported_refused(
    request: Fields,
    reasoning: Option<JsonV>,
    name: Seq<char>,
)
    requires
        unsupported_chat_fields().contains(name),
        request.contains_key(name),
    ensures
        openai_request(request, reasoning) matches Err(message) && has_prefix(
            message,
            "unsupported openai chat field for codex compatibility: "@,
        ),
{
    let names = unsupported_chat_fields();
    lemma_first_member_found(request, names, name);
    let found = first_member(request, names)->0;
    let head = "unsupported openai chat field for codex compatibility: "@;
    assert((head + found).take(head.len() as int) =~= head);
}

pub proof fn lemma_first_member_found(fields: Fields, names: Seq<Seq<char>>, name: Seq<char>)
    requires
        names.contains(name),
        fields.contains_key(name),
    ensures
        first_member(fields, names) is Some,
    decreases names.len(),
{
    if !fields.contains_key(names[0]) {
        let i = choose|i: int| 0 <= i < names.len() && names[i] == name;
        assert(names.drop_first()[i - 1] == name);
        lemma_first_member_found(fields, names.drop_first(), name);
    }
}

proof fn lemma_one_tool_each(items: Seq<JsonV>)
    ensures
        gather(items, |i: int, item: JsonV| openai_tool(item)) matches Ok(tools) ==> tools.len()
            == items.len(),
    decreases items.len(),
{
    if items.len() > 0 {
        lemma_one_tool_each(items.drop_last());
    }
}

/// No more tools are passed on than the limit allows, and a list of tools is never empty.
pub proof fn lemma_openai_tools_limited(request: Fields, reasoning: Option<JsonV>)
    ensures
        openai_request(request, reasoning) matches Ok((converted, _)) ==> (
        converted.get_array("tools"@) matches Some(tools) ==> 0 < tools.len()
            <= MAX_ANTHROPIC_TOOLS),
{
    lemma_member_names();
    if let Some(tools) = field(request, "tools"@) {
        if let Some(items) = tools.as_array() {
            lemma_one_tool_each(passed_on(items));
        }
    }
}

/// A converted messages request asks for its answer in a stream, is not stored, allows calls side by
/// side, and says nothing of how to sample.
pub proof fn lemma_anthropic_request_shape(
    request: Fields,
    instructions: Option<Seq<char>>,
    input: Seq<JsonV>,
    effort: Option<Seq<char>>,
    cache_key: Option<Seq<char>>,
)
    ensures
        ({
            let converted = anthropic_fields(request, instructions, input, effort, cache_key);
            &&& field(converted, "stream"@) == Some(JsonV::Bool(true))
            &&& field(converted, "store"@) == Some(JsonV::Bool(false))
            &&& field(converted, "parallel_tool_calls"@) == Some(JsonV::Bool(true))
            &&& field(converted, "include"@) == Some(included())
            &&& field(converted, "text"@) == Some(text_format())
            &&& field_array(converted, "input"@) == Some(input)
            &&& field_str(converted, "model"@) == Some(upstream_model(request))
            &&& !converted.contains_key("temperature"@)
            &&& !converted.contains_key("top_p"@)
        }),
{
    lemma_member_names();
}

/// No more tools are passed on than the limit allows, and a list of tools is never empty.
pub proof fn lemma_anthropic_tools_limited(
    request: Fields,
    instructions: Option<Seq<char>>,
    input: Seq<JsonV>,
    effort: Option<Seq<char>>,
    cache_key: Option<Seq<char>>,
)
    ensures
        field_array(
            anthropic_fields(request, instructions, input, effort, cache_key),
            "tools"@,
        ) matches Some(tools) ==> 0 < tools.len() <= MAX_ANTHROPIC_TOOLS,
{
    lemma_member_names();
    assert(anthropic_request_tools(request).len() <= MAX_ANTHROPIC_TOOLS);
}

/// A messages request always goes to a model of the Codex family.
pub proof fn lemma_upstream_model_is_codex(request: Fields)
    ensures
        has_part(ascii_lowered(upstream_model(request)), "codex"@),
{
    reveal_strlit("gpt-5.3-codex");
    reveal_strlit("codex");
    let name = ascii_lowered(DEFAULT_ANTHROPIC_MODEL@);
    assert(name.skip(8).take(5) =~= "codex"@);
    assert(has_prefix(name.skip(8), "codex"@));
}

/// The instructions of a converted messages request are never blank.
pub proof fn lemma_anthropic_instructions_not_blank(
    request: Fields,
    instructions: Option<Seq<char>>,
    input: Seq<JsonV>,
    effort: Option<Seq<char>>,
    cache_key: Option<Seq<char>>,
)
    ensures
        field_str(
            anthropic_fields(request, instructions, input, effort, cache_key),
            "instructions"@,
        ) matches Some(text) && !is_blank(text),
{
    lemma_member_names();
    reveal_strlit("You are Codex, a coding assistant that responds clearly and safely.");
    let default = DEFAULT_ANTHROPIC_INSTRUCTIONS@;
    assert(default[0] == 'Y');
    assert(trimmed_start(default) == default);
    lemma_trimmed_end_keeps(default, 0);
    if let Some(text) = instructions {
        lemma_trimmed_twice(text);
    }
}

/// A character that is no white space stays.
proof fn lemma_trimmed_end_keeps(s: Seq<char>, i: int)
    requires
        0 <= i < s.len(),
        !is_space(s[i]),
    ensures
        trimmed_end(s).len() > i,
        trimmed_end(s)[i] == s[i],
    decreases s.len(),
{
    if is_space(s.last()) {
        lemma_trimmed_end_keeps(s.drop_last(), i);
    }
}

proof fn lemma_trimmed_end_stops(s: Seq<char>)
    ensures
        trimmed_end(s).len() > 0 ==> !is_space(trimmed_end(s).last()),
        trimmed_end(s).len() > 0 ==> trimmed_end(s)[0] == s[0],
        trimmed_end(s).len() <= s.len(),
    decreases s.len(),
{
    if s.len() > 0 && is_space(s.last()) {
        lemma_trimmed_end_stops(s.drop_last());
    }
}

proof fn lemma_trimmed_start_stops(s: Seq<char>)
    ensures
        trimmed_start(s).len() > 0 ==> !is_space(trimmed_start(s)[0]),
    decreases s.len(),
{
    if s.len() > 0 && is_space(s[0]) {
        lemma_trimmed_start_stops(s.drop_first());
    }
}

/// Taking white space off a second time takes nothing off.
pub proof fn lemma_trimmed_twice(s: Seq<char>)
    ensures
        trimmed(trimmed(s)) == trimmed(s),
{
    let start = trimmed_start(s);
    lemma_trimmed_start_stops(s);
    lemma_trimmed_end_stops(start);
    let once = trimmed(s);
    assert(trimmed_start(once) == once);
    assert(trimmed_end(once) == once);
}

/// Every value holds no floating-point number and goes no deeper than `depth`.
spec fn all_plain(values: Seq<JsonV>, depth: nat) -> bool {
    forall|i: int| 0 <= i < values.len() ==> plain_within(#[trigger] values[i], depth)
}

proof fn lemma_all_plain_concat(first: Seq<JsonV>, second: Seq<JsonV>, depth: nat)
    requires
        all_plain(first, depth),
        all_plain(second, depth),
    ensures
        all_plain(first + second, depth),
{
    let both = first + second;
    assert forall|i: int| 0 <= i < both.len() implies plain_within(#[trigger] both[i], depth) by {
        if i < first.len() {
            assert(plain_within(first[i], depth));
        } else {
            assert(plain_within(second[i - first.len()], depth));
        }
    }
}

/// What is gathered out of plain pieces is plain.
proof fn lemma_gather_plain(
    items: Seq<JsonV>,
    part: spec_fn(int, JsonV) -> Outcome<Seq<JsonV>>,
    depth: nat,
)
    requires
        forall|i: int| 0 <= i < items.len() ==> (#[trigger] part(i, items[i]) matches Ok(more)
            ==> all_plain(more, depth)),
    ensures
        gather(items, part) matches Ok(out) ==> all_plain(out, depth),
    decreases items.len(),
{
    if items.len() > 0 {
        let rest = items.drop_last();
        assert forall|i: int| 0 <= i < rest.len() implies (#[trigger] part(i, rest[i]) matches Ok(
            more,
        ) ==> all_plain(more, depth)) by {
            assert(part(i, items[i]) matches Ok(more) ==> all_plain(more, depth));
        }
        lemma_gather_plain(rest, part, depth);
        let last = items.len() - 1;
        if let Ok(before) = gather(rest, part) {
            if let Ok(more) = part(last, items[last]) {
                lemma_all_plain_concat(before, more, depth);
            }
        }
    }
}

/// The input items that plain steps come to are plain.
proof fn lemma_chat_fold_plain(
    messages: Seq<JsonV>,
    step: spec_fn(ChatState, int, JsonV) -> Outcome<ChatState>,
    depth: nat,
)
    requires
        forall|state: ChatState, i: int, message: JsonV|
            all_plain(state.1, depth) ==> (#[trigger] step(state, i, message) matches Ok(next)
                ==> all_plain(next.1, depth)),
    ensures
        try_fold(messages, (Seq::empty(), Seq::empty()), step) matches Ok(state) ==> all_plain(
            state.1,
            depth,
        ),
    decreases messages.len(),
{
    if messages.len() > 0 {
        lemma_chat_fold_plain(messages.drop_last(), step, depth);
    }
}

proof fn lemma_texts_plain(
    role: Seq<char>,
    kind: Seq<char>,
    text: Seq<char>,
    id: Seq<char>,
    name: Seq<char>,
)
    ensures
        plain_within(message_item(role, kind, text), 3),
        plain_within(function_call_item(id, name, text), 3),
        plain_within(function_output_item(id, text), 3),
{
    reveal_with_fuel(plain_within, 4);
    let block = JsonV::Object(no_fields().insert("type"@, js(kind)).insert("text"@, js(text)));
    assert(plain_within(block, 1));
    assert(plain_within(JsonV::Array(seq![block]), 2));
}

proof fn lemma_user_items_plain(content: JsonV)
    ensures
        user_items(content) matches Ok(items) ==> all_plain(items, 3),
{
    reveal_with_fuel(plain_within, 3);
    match content {
        JsonV::Str(text) => {
            lemma_texts_plain("user"@, "input_text"@, trimmed(text), text, text);
        },
        JsonV::Array(items) => {
            let part = |i: int, item: JsonV| user_block(item);
            assert forall|i: int| 0 <= i < items.len() implies (#[trigger] part(i, items[i])
                matches Ok(more) ==> all_plain(more, 1)) by {
                reveal_with_fuel(plain_within, 3);
            }
            lemma_gather_plain(items, part, 1);
            if let Ok(blocks) = gather(items, part) {
                assert(plain_within(JsonV::Array(blocks), 2));
            }
        },
        _ => {},
    }
}

proof fn lemma_assistant_items_plain(message: Fields, content: JsonV)
    ensures
        assistant_items(message, content) matches Ok(items) ==> all_plain(items, 3),
{
    let calls = tool_calls_of(message);
    let part = |index: int, call: JsonV| tool_call_item(index, call);
    assert forall|i: int| 0 <= i < calls.len() implies (#[trigger] part(i, calls[i]) matches Ok(
        more,
    ) ==> all_plain(more, 3)) by {
        if let Some(fields) = calls[i].as_object() {
            if let Some(name) = call_name_of(fields) {
                lemma_texts_plain(
                    name,
                    name,
                    call_arguments_of(fields),
                    call_id_of(fields, i as nat),
                    name,
                );
            }
        }
    }
    lemma_gather_plain(calls, part, 3);
    if let Ok(text) = assistant_text(content) {
        if let Ok(items) = gather(calls, part) {
            lemma_texts_plain("assistant"@, "output_text"@, trimmed(text), text, text);
            lemma_all_plain_concat(
                seq![message_item("assistant"@, "output_text"@, trimmed(text))],
                items,
                3,
            );
        }
    }
}

proof fn lemma_openai_message_plain(state: ChatState, message: JsonV)
    requires
        all_plain(state.1, 3),
    ensures
        openai_message(state, message) matches Ok(next) ==> all_plain(next.1, 3),
{
    if let Some(fields) = message.as_object() {
        let content = or_else(field(fields, "content"@), JsonV::Null);
        lemma_user_items_plain(content);
        lemma_assistant_items_plain(fields, content);
        if let Ok(items) = user_items(content) {
            lemma_all_plain_concat(state.1, items, 3);
        }
        if let Ok(items) = assistant_items(fields, content) {
            lemma_all_plain_concat(state.1, items, 3);
        }
        if let Some(id) = field_nonblank(fields, "tool_call_id"@) {
            let output = tool_result_text(Some(content));
            lemma_texts_plain(id, id, output, id, id);
            lemma_all_plain_concat(state.1, seq![function_output_item(id, output)], 3);
        }
    }
}

/// A tool is as plain as its parameters.
proof fn lemma_tool_plain(
    name: Seq<char>,
    description: Seq<char>,
    parameters: Option<JsonV>,
    depth: nat,
)
    requires
        depth >= 2,
        parameters matches Some(given) ==> plain_within(given, depth),
    ensures
        plain_within(
            function_tool(name, description, or_else(parameters, empty_schema())),
            depth + 1,
        ),
{
    reveal_with_fuel(plain_within, 3);
    assert(plain_within(empty_schema(), 2));
    lemma_plain_deeper(empty_schema(), 2, depth);
}

proof fn lemma_openai_tools_plain(tools: JsonV, depth: nat)
    requires
        depth >= 5,
        plain_within(tools, depth),
    ensures
        openai_tools(tools) matches Ok(mapped) ==> all_plain(mapped, (depth - 1) as nat),
{
    if let Some(items) = tools.as_array() {
        let passed = passed_on(items);
        let part = |i: int, item: JsonV| openai_tool(item);
        assert forall|i: int| 0 <= i < passed.len() implies (#[trigger] part(i, passed[i])
            matches Ok(more) ==> all_plain(more, (depth - 1) as nat)) by {
            assert(plain_within(items[i], (depth - 1) as nat));
            if let Some(tool) = passed[i].as_object() {
                if let Some(function) = field_object(tool, "function"@) {
                    assert(plain_within(tool["function"@], (depth - 2) as nat));
                    if let Some(given) = field(function, "parameters"@) {
                        assert(plain_within(function["parameters"@], (depth - 3) as nat));
                        lemma_plain_deeper(given, (depth - 3) as nat, (depth - 2) as nat);
                    }
                    if let Some(name) = field_nonblank(function, "name"@) {
                        lemma_tool_plain(
                            name,
                            or_else(field_str(function, "description"@), Seq::empty()),
                            field(function, "parameters"@),
                            (depth - 2) as nat,
                        );
                    }
                }
            }
        }
        lemma_gather_plain(passed, part, (depth - 1) as nat);
    }
}

/// A member of a plain object is plain.
proof fn lemma_member_plain(fields: Fields, key: Seq<char>, depth: nat)
    requires
        plain_within(JsonV::Object(fields), depth),
        fields.contains_key(key),
    ensures
        depth > 0,
        plain_within(fields[key], (depth - 1) as nat),
{
    let whole = JsonV::Object(fields);
    assert(whole->Object_0 == fields);
    assert(whole->Object_0.contains_key(key));
    assert(plain_within(whole->Object_0[key], (depth - 1) as nat));
}

/// What the upstream reads of a converted chat request is that request, as long as the client's holds
/// no floating-point number and is no deeper than can be read.
pub proof fn lemma_openai_request_reads_back(
    request: Fields,
    effort: Option<Seq<char>>,
    converted: Outcome<(Seq<u8>, bool)>,
)
    requires
        plain_within(JsonV::Object(request), 127),
        written(openai_request(request, reasoning_of(effort)), converted),
    ensures
        match openai_request(request, reasoning_of(effort)) {
            Ok((made, stream)) => converted matches Ok((bytes, wanted)) && json_read(bytes) == Some(
                made,
            ) && wanted == stream,
            Err(e) => converted == Outcome::<(Seq<u8>, bool)>::Err(e),
        },
{
    reveal_with_fuel(plain_within, 2);
    if let Ok((made, _)) = openai_request(request, reasoning_of(effort)) {
        let messages = field_array(request, "messages"@)->0;
        let chat = openai_messages(messages)->Ok_0;
        let tools = openai_request_tools(request)->Ok_0;
        let step = |state: ChatState, i: int, message: JsonV| openai_message(state, message);
        assert forall|state: ChatState, i: int, message: JsonV| all_plain(state.1, 3) implies (
        #[trigger] step(state, i, message) matches Ok(next) ==> all_plain(next.1, 3)) by {
            lemma_openai_message_plain(state, message);
        }
        lemma_chat_fold_plain(messages, step, 3);
        assert(plain_within(JsonV::Array(chat.1), 4));
        lemma_plain_deeper(JsonV::Array(chat.1), 4, 126);
        if let Some(given) = field(request, "tools"@) {
            lemma_member_plain(request, "tools"@, 127);
            lemma_openai_tools_plain(given, 126);
        }
        assert(plain_within(JsonV::Array(tools), 126));
        lemma_small_members_plain(effort, 126);
        if let Some(choice) = openai_request_choice(request)->Ok_0 {
            lemma_choice_plain(choice, 126);
        }
    }
}

proof fn lemma_chat_calls_plain(message: Fields)
    ensures
        chat_call_items(message) matches Ok(items) ==> all_plain(items, 3),
{
    if let Some(calls) = field_array(message, "tool_calls"@) {
        let part = |index: int, call: JsonV| chat_call_item(index, call);
        assert forall|i: int| 0 <= i < calls.len() implies (#[trigger] part(i, calls[i])
            matches Ok(more) ==> all_plain(more, 3)) by {
            if let Some(fields) = calls[i].as_object() {
                if let Some(name) = call_name_of(fields) {
                    lemma_texts_plain(
                        name,
                        name,
                        call_arguments_of(fields),
                        call_id_of(fields, i as nat),
                        name,
                    );
                }
            }
        }
        lemma_gather_plain(calls, part, 3);
    }
}

proof fn lemma_chat_message_plain(state: ChatState, message: JsonV)
    requires
        all_plain(state.1, 3),
    ensures
        chat_message_input(state, message) matches Ok(next) ==> all_plain(next.1, 3),
{
    if let Some(fields) = message.as_object() {
        lemma_chat_calls_plain(fields);
        let asked = chat_text_items(fields, "user"@, "input_text"@);
        let said = chat_text_items(fields, "assistant"@, "output_text"@);
        if let Some(text) = field_nonblank(fields, "content"@) {
            lemma_texts_plain("user"@, "input_text"@, text, text, text);
            lemma_texts_plain("assistant"@, "output_text"@, text, text, text);
        }
        lemma_all_plain_concat(state.1, asked, 3);
        if let Ok(calls) = chat_call_items(fields) {
            lemma_all_plain_concat(said, calls, 3);
            lemma_all_plain_concat(state.1, said + calls, 3);
        }
        if let Some(id) = field_nonblank(fields, "tool_call_id"@) {
            let output = or_else(field_str(fields, "content"@), Seq::empty());
            lemma_texts_plain(id, id, output, id, id);
            lemma_all_plain_concat(state.1, seq![function_output_item(id, output)], 3);
        }
    }
}

proof fn lemma_anthropic_tools_plain(items: Seq<JsonV>, depth: nat)
    requires
        depth >= 3,
        all_plain(items, depth),
    ensures
        all_plain(anthropic_tools(items), depth),
    decreases items.len(),
{
    if items.len() > 0 {
        let rest = items.drop_last();
        let last = items.len() - 1;
        assert forall|i: int| 0 <= i < rest.len() implies plain_within(
            #[trigger] rest[i],
            depth,
        ) by {
            assert(plain_within(items[i], depth));
        }
        lemma_anthropic_tools_plain(rest, depth);
        assert(plain_within(items[last], depth));
        if let Some(tool) = items[last].as_object() {
            let named = nonblank(
                match field_str(tool, "name"@) {
                    Some(name) => Some(name),
                    None => field_str(tool, "type"@),
                },
            );
            if let Some(given) = field(tool, "input_schema"@) {
                lemma_member_plain(tool, "input_schema"@, depth);
            }
            if let Some(name) = named {
                lemma_tool_plain(
                    name,
                    or_else(field_str(tool, "description"@), Seq::empty()),
                    field(tool, "input_schema"@),
                    (depth - 1) as nat,
                );
                lemma_all_plain_concat(
                    anthropic_tools(rest),
                    seq![anthropic_tool(items[last])->0],
                    depth,
                );
                assert(anthropic_tools(items) =~= anthropic_tools(rest) + seq![
                    anthropic_tool(items[last])->0,
                ]);
            }
        }
    }
}

/// What the upstream reads of a converted messages request is that request, as long as the client's
/// holds no floating-point number and is no deeper than can be read.
pub proof fn lemma_anthropic_request_reads_back(
    request: Fields,
    effort: Option<Seq<char>>,
    cache_key: Option<Seq<char>>,
    bytes: Seq<u8>,
)
    requires
        plain_within(JsonV::Object(request), 127),
        anthropic_input(request) is Ok,
        holds_json(
            bytes,
            JsonV::Object(
                anthropic_fields(
                    request,
                    joined_instructions(anthropic_input(request)->Ok_0.0),
                    anthropic_input(request)->Ok_0.1,
                    effort,
                    cache_key,
                ),
            ),
        ),
    ensures
        json_read(bytes) == Some(
            JsonV::Object(
                anthropic_fields(
                    request,
                    joined_instructions(anthropic_input(request)->Ok_0.0),
                    anthropic_input(request)->Ok_0.1,
                    effort,
                    cache_key,
                ),
            ),
        ),
{
    reveal_with_fuel(plain_within, 2);
    let messages = anthropic_chat(request)->Ok_0;
    let input = anthropic_input(request)->Ok_0.1;
    let step = |state: ChatState, i: int, message: JsonV| chat_message_input(state, message);
    assert forall|state: ChatState, i: int, message: JsonV| all_plain(state.1, 3) implies (
    #[trigger] step(state, i, message) matches Ok(next) ==> all_plain(next.1, 3)) by {
        lemma_chat_message_plain(state, message);
    }
    lemma_chat_fold_plain(messages, step, 3);
    assert(plain_within(JsonV::Array(input), 4));
    lemma_plain_deeper(JsonV::Array(input), 4, 126);
    let tools = anthropic_request_tools(request);
    if let Some(items) = field_array(request, "tools"@) {
        lemma_member_plain(request, "tools"@, 127);
        assert(all_plain(items, 125));
        lemma_anthropic_tools_plain(items, 125);
        assert(all_plain(tools, 125));
    }
    assert(plain_within(JsonV::Array(tools), 126));
    let resolved = or_else(effort, DEFAULT_ANTHROPIC_REASONING@);
    lemma_small_members_plain(Some(resolved), 126);
    if let Some(choice) = anthropic_choice(request, tools) {
        lemma_choice_plain(choice, 126);
    }
}

/// The reasoning setting that a chosen effort comes to.
pub open spec fn reasoning_of(effort: Option<Seq<char>>) -> Option<JsonV> {
    match effort {
        Some(chosen) => Some(reasoning_object(chosen)),
        None => None,
    }
}

proof fn lemma_small_members_plain(effort: Option<Seq<char>>, depth: nat)
    requires
        depth >= 5,
    ensures
        plain_within(text_format(), depth),
        plain_within(included(), depth),
        reasoning_of(effort) matches Some(setting) ==> plain_within(setting, depth),
{
    reveal_with_fuel(plain_within, 4);
    assert(plain_within(text_format(), 2));
    lemma_plain_deeper(text_format(), 2, depth);
    assert(plain_within(included(), 1));
    lemma_plain_deeper(included(), 1, depth);
    if let Some(setting) = reasoning_of(effort) {
        assert(plain_within(setting, 1));
        lemma_plain_deeper(setting, 1, depth);
    }
}

proof fn lemma_choice_plain(choice: JsonV, depth: nat)
    requires
        depth >= 1,
        choice is Str || exists|name: Seq<char>| choice == #[trigger] function_choice(name),
    ensures
        plain_within(choice, depth),
{
    reveal_with_fuel(plain_within, 3);
    assert(plain_within(choice, 1));
    lemma_plain_deeper(choice, 1, depth);
}

/// The state with that of earlier messages before it.
pub open spec fn behind(earlier: ChatState, state: ChatState) -> ChatState {
    (earlier.0 + state.0, earlier.1 + state.1)
}

/// What a message adds does not depend on the messages before it.
proof fn lemma_message_behind(earlier: ChatState, state: ChatState, message: JsonV)
    ensures
        openai_message(behind(earlier, state), message) == (match openai_message(state, message) {
            Ok(next) => Ok(behind(earlier, next)),
            Err(e) => Err(e),
        }),
{
    if let Some(fields) = message.as_object() {
        let content = or_else(field(fields, "content"@), JsonV::Null);
        if let Ok(text) = instruction_text(content) {
            assert((earlier.0 + state.0).push(text) =~= earlier.0 + state.0.push(text));
        }
        if let Ok(items) = user_items(content) {
            assert(earlier.1 + state.1 + items =~= earlier.1 + (state.1 + items));
        }
        if let Ok(items) = assistant_items(fields, content) {
            assert(earlier.1 + state.1 + items =~= earlier.1 + (state.1 + items));
        }
        if let Ok(items) = tool_items(fields, content) {
            assert(earlier.1 + state.1 + items =~= earlier.1 + (state.1 + items));
        }
    }
}

/// Messages behind others come to what they come to alone, behind what the others come to; a refusal
/// of one of them is a refusal of all.
pub proof fn lemma_openai_messages_joined(first: Seq<JsonV>, second: Seq<JsonV>)
    requires
        openai_messages(first) is Ok,
    ensures
        openai_messages(first + second) == (match openai_messages(second) {
            Ok(state) => Ok(
                (
                    openai_messages(first)->Ok_0.0 + state.0,
                    openai_messages(first)->Ok_0.1 + state.1,
                ),
            ),
            Err(e) => Err(e),
        }),
    decreases second.len(),
{
    let earlier = openai_messages(first)->Ok_0;
    if second.len() == 0 {
        assert(first + second =~= first);
        assert(earlier.0 + Seq::<Seq<char>>::empty() =~= earlier.0);
        assert(earlier.1 + Seq::<JsonV>::empty() =~= earlier.1);
    } else {
        lemma_openai_messages_joined(first, second.drop_last());
        assert((first + second).drop_last() =~= first + second.drop_last());
        assert((first + second).last() == second.last());
        if let Ok(state) = openai_messages(second.drop_last()) {
            lemma_message_behind(earlier, state, second.last());
        }
    }
}

/// Texts joined behind others are the two joined texts, with the separator between them.
proof fn lemma_joined_concat(
    first: Seq<Seq<char>>,
    second: Seq<Seq<char>>,
    separator: Seq<char>,
)
    requires
        first.len() > 0,
        second.len() > 0,
    ensures
        joined(first + second, separator) == joined(first, separator) + separator + joined(
            second,
            separator,
        ),
    decreases second.len(),
{
    let both = first + second;
    assert(both.drop_last() =~= first + second.drop_last());
    assert(both.last() == second.last());
    if second.len() == 1 {
        assert(both.drop_last() =~= first);
    } else {
        lemma_joined_concat(first, second.drop_last(), separator);
        assert(joined(both, separator) =~= joined(first, separator) + separator + joined(
            second,
            separator,
        ));
    }
}

/// None of the texts is empty.
spec fn none_empty(parts: Seq<Seq<char>>) -> bool {
    forall|i: int| 0 <= i < parts.len() ==> (#[trigger] parts[i]).len() > 0
}

proof fn lemma_instructions_not_empty(messages: Seq<JsonV>)
    ensures
        openai_messages(messages) matches Ok(state) ==> none_empty(state.0),
    decreases messages.len(),
{
    if messages.len() > 0 {
        lemma_instructions_not_empty(messages.drop_last());
        if let Some(fields) = messages.last().as_object() {
            let content = or_else(field(fields, "content"@), JsonV::Null);
            if let Ok(text) = instruction_text(content) {
                if text.len() == 0 {
                    assert(trimmed(text).len() == 0);
                }
            }
        }
    }
}

proof fn lemma_joined_empty(parts: Seq<Seq<char>>, separator: Seq<char>)
    requires
        none_empty(parts),
    ensures
        joined(parts, separator).len() == 0 <==> parts.len() == 0,
{
    if parts.len() > 0 {
        assert(parts[parts.len() - 1].len() > 0);
    }
}

/// A chat request with the given messages in place of its own.
pub open spec fn with_messages(request: Fields, messages: Seq<JsonV>) -> Fields {
    request.insert("messages"@, JsonV::Array(messages))
}

proof fn lemma_same_first_member(a: Fields, b: Fields, names: Seq<Seq<char>>)
    requires
        a.dom() == b.dom(),
    ensures
        first_member(a, names) == first_member(b, names),
    decreases names.len(),
{
    if names.len() > 0 {
        assert(a.dom().contains(names[0]) == b.dom().contains(names[0]));
        lemma_same_first_member(a, b, names.drop_first());
    }
}

/// What a request says apart from its messages does not depend on them.
proof fn lemma_messages_alone_differ(request: Fields, a: Seq<JsonV>, b: Seq<JsonV>)
    ensures
        ({
            let p = with_messages(request, a);
            let q = with_messages(request, b);
            &&& unsupported_field_error(p) == unsupported_field_error(q)
            &&& field_nonblank(p, "model"@) == field_nonblank(q, "model"@)
            &&& openai_request_tools(p) == openai_request_tools(q)
            &&& openai_request_choice(p) == openai_request_choice(q)
            &&& openai_stream(p) == openai_stream(q)
            &&& field_array(p, "messages"@) == Some(a)
            &&& field_array(q, "messages"@) == Some(b)
        }),
{
    lemma_member_names();
    reveal_strlit("messages");
    let p = with_messages(request, a);
    let q = with_messages(request, b);
    assert(p.dom() =~= q.dom());
    lemma_same_first_member(p, q, unsupported_chat_fields());
    assert("messages"@.len() == 8);
}

/// The conversion of two lists of messages put together is the two conversions put together: the
/// input items stand one behind the other, and so do the instructions, with a blank line between
/// them where both have any.
pub proof fn lemma_openai_requests_joined(
    request: Fields,
    first: Seq<JsonV>,
    second: Seq<JsonV>,
    reasoning: Option<JsonV>,
)
    requires
        openai_request(with_messages(request, first), reasoning) is Ok,
        openai_request(with_messages(request, second), reasoning) is Ok,
    ensures
        ({
            let a = openai_request(with_messages(request, first), reasoning)->Ok_0.0;
            let b = openai_request(with_messages(request, second), reasoning)->Ok_0.0;
            let told = a.get_str("instructions"@)->0;
            let more = b.get_str("instructions"@)->0;
            &&& a.get_str("instructions"@) is Some && b.get_str("instructions"@) is Some
            &&& a.get_array("input"@) is Some && b.get_array("input"@) is Some
            &&& openai_request(with_messages(request, first + second), reasoning) matches Ok(
                (both, _),
            )
            &&& both.get_array("input"@) == Some(
                a.get_array("input"@)->0 + b.get_array("input"@)->0,
            )
            &&& both.get_str("instructions"@) == Some(
                if told.len() > 0 && more.len() > 0 {
                    told + "\n\n"@ + more
                } else {
                    told + more
                },
            )
        }),
{
    lemma_member_names();
    lemma_messages_alone_differ(request, first, first + second);
    lemma_messages_alone_differ(request, first, second);
    lemma_openai_messages_joined(first, second);
    lemma_instructions_not_empty(first);
    lemma_instructions_not_empty(second);
    let told = openai_messages(first)->Ok_0.0;
    let more = openai_messages(second)->Ok_0.0;
    lemma_joined_empty(told, "\n\n"@);
    lemma_joined_empty(more, "\n\n"@);
    let told_text = joined(told, "\n\n"@);
    let more_text = joined(more, "\n\n"@);
    if told.len() > 0 && more.len() > 0 {
        lemma_joined_concat(told, more, "\n\n"@);
    } else if told.len() == 0 {
        assert(told + more =~= more);
        assert(told_text + more_text =~= more_text);
    } else {
        assert(told + more =~= told);
        assert(told_text + more_text =~= told_text);
    }
    lemma_openai_request_parts(with_messages(request, first), reasoning);
    lemma_openai_request_parts(with_messages(request, second), reasoning);
    lemma_openai_request_parts(with_messages(request, first + second), reasoning);
}

/// Where the instructions and the input items of a converted chat request come from.
proof fn lemma_openai_request_parts(request: Fields, reasoning: Option<JsonV>)
    ensures
        openai_request(request, reasoning) matches Ok((made, _)) ==> {
            let chat = openai_messages(field_array(request, "messages"@)->0)->Ok_0;
            &&& made.get_str("instructions"@) == Some(joined(chat.0, "\n\n"@))
            &&& made.get_array("input"@) == Some(chat.1)
        },
{
    lemma_member_names();
}

/// Two messages requests that differ in `stream` alone come to the same messages, model and effort,
/// and to the same Responses request; only what they say of how the answer is wanted differs.
pub proof fn lemma_stream_only_sets_the_flag(p: Fields, q: Fields)
    requires
        p.remove("stream"@) == q.remove("stream"@),
    ensures
        anthropic_input(p) == anthropic_input(q),
        upstream_model(p) == upstream_model(q),
        nested_effort(p) == nested_effort(q),
        forall|
            instructions: Option<Seq<char>>,
            input: Seq<JsonV>,
            effort: Option<Seq<char>>,
            key: Option<Seq<char>>,
        |
            #[trigger] anthropic_fields(p, instructions, input, effort, key) == anthropic_fields(
                q,
                instructions,
                input,
                effort,
                key,
            ),
{
    lemma_member_names();
    reveal_strlit("system");
    reveal_strlit("stream");
    reveal_strlit("messages");
    assert("system"@[1] == 'y' && "stream"@[1] == 't');
    lemma_field_apart(p, q, "system"@, "stream"@);
    lemma_field_apart(p, q, "messages"@, "stream"@);
    lemma_field_apart(p, q, "model"@, "stream"@);
    lemma_field_apart(p, q, "reasoning"@, "stream"@);
    lemma_field_apart(p, q, "tools"@, "stream"@);
    lemma_field_apart(p, q, "tool_choice"@, "stream"@);
}

/// Objects that differ in one member alone have the other members in common.
proof fn lemma_field_apart(p: Fields, q: Fields, key: Seq<char>, apart: Seq<char>)
    requires
        p.remove(apart) == q.remove(apart),
        key != apart,
    ensures
        field(p, key) == field(q, key),
{
    assert(field(p.remove(apart), key) == field(p, key));
    assert(field(q.remove(apart), key) == field(q, key));
}

/// The efforts that `normalize` gives depend on the text it is asked about alone.
pub open spec fn answers_alike<N: Fn(&str) -> Option<String>>(normalize: N) -> bool {
    forall|raw: Option<Seq<char>>, a: Option<Seq<char>>, b: Option<Seq<char>>|
        #[trigger] normalized(normalize, raw, a) && #[trigger] normalized(normalize, raw, b)
            ==> a == b
}

/// Two messages requests that differ in `stream` alone are refused alike, or come to the same
/// Responses request but for the key under which the prompt is kept, which is asked for anew; both
/// ask the upstream for a stream, and the flag handed back is what each says itself, or yes.
pub proof fn lemma_stream_only_sets_the_flag_of_bodies<
    N: Fn(&str) -> Option<String>,
    K: Fn(&JsonMap, &str) -> Option<String>,
>(
    p: Fields,
    q: Fields,
    p_body: Seq<u8>,
    q_body: Seq<u8>,
    normalize: N,
    resolve: K,
    p_converted: Outcome<(Seq<u8>, bool)>,
    q_converted: Outcome<(Seq<u8>, bool)>,
)
    requires
        json_read(p_body) == Some(JsonV::Object(p)),
        json_read(q_body) == Some(JsonV::Object(q)),
        p.remove("stream"@) == q.remove("stream"@),
        answers_alike(normalize),
        anthropic_converted(p_body, normalize, resolve, p_converted),
        anthropic_converted(q_body, normalize, resolve, q_converted),
    ensures
        match p_converted {
            Ok((p_bytes, p_flag)) => {
                &&& q_converted matches Ok((q_bytes, q_flag))
                &&& p_flag == or_else(field_bool(p, "stream"@), true)
                &&& q_flag == or_else(field_bool(q, "stream"@), true)
                &&& exists|p_made: Fields, q_made: Fields|
                    {
                        &&& #[trigger] holds_json(p_bytes, JsonV::Object(p_made))
                        &&& #[trigger] holds_json(q_bytes, JsonV::Object(q_made))
                        &&& p_made.remove("prompt_cache_key"@) == q_made.remove(
                            "prompt_cache_key"@,
                        )
                        &&& field(p_made, "stream"@) == Some(JsonV::Bool(true))
                        &&& field(q_made, "stream"@) == Some(JsonV::Bool(true))
                        &&& plain_within(JsonV::Object(p), 127) ==> {
                            &&& json_read(p_bytes) == Some(JsonV::Object(p_made))
                            &&& json_read(q_bytes) == Some(JsonV::Object(q_made))
                        }
                    }
            },
            Err(e) => q_converted == Outcome::<(Seq<u8>, bool)>::Err(e),
        },
{
    lemma_stream_only_sets_the_flag(p, q);
    if let Ok(chat) = anthropic_input(p) {
        let instructions = joined_instructions(chat.0);
        let (p_effort, p_key) = choose|effort: Option<Seq<char>>, key: Option<Seq<char>>|
            {
                &&& #[trigger] normalized(normalize, nested_effort(p), effort)
                &&& #[trigger] resolved_key(resolve, p, key)
                &&& written(
                    Ok(
                        (
                            JsonV::Object(
                                anthropic_fields(p, instructions, chat.1, effort, key),
                            ),
                            anthropic_stream(p),
                        ),
                    ),
                    p_converted,
                )
            };
        let (q_effort, q_key) = choose|effort: Option<Seq<char>>, key: Option<Seq<char>>|
            {
                &&& #[trigger] normalized(normalize, nested_effort(q), effort)
                &&& #[trigger] resolved_key(resolve, q, key)
                &&& written(
                    Ok(
                        (
                            JsonV::Object(
                                anthropic_fields(q, instructions, chat.1, effort, key),
                            ),
                            anthropic_stream(q),
                        ),
                    ),
                    q_converted,
                )
            };
        assert(normalized(normalize, nested_effort(p), q_effort));
        assert(p_effort == q_effort);
        let p_made = anthropic_fields(p, instructions, chat.1, p_effort, p_key);
        let q_made = anthropic_fields(p, instructions, chat.1, q_effort, q_key);
        assert(q_made == anthropic_fields(q, instructions, chat.1, q_effort, q_key));
        if plain_within(JsonV::Object(p), 127) {
            lemma_anthropic_request_reads_back(p, p_effort, p_key, p_converted->Ok_0.0);
            lemma_anthropic_request_reads_back(p, q_effort, q_key, q_converted->Ok_0.0);
        }
        lemma_anthropic_request_shape(p, instructions, chat.1, p_effort, p_key);
        lemma_anthropic_request_shape(p, instructions, chat.1, q_effort, q_key);
        lemma_key_alone_differs(p, instructions, chat.1, p_effort, p_key, q_key);
        assert(holds_json(p_converted->Ok_0.0, JsonV::Object(p_made)));
        assert(holds_json(q_converted->Ok_0.0, JsonV::Object(q_made)));
    }
}

/// The key under which the prompt is kept changes nothing else about a request.
proof fn lemma_key_alone_differs(
    request: Fields,
    instructions: Option<Seq<char>>,
    input: Seq<JsonV>,
    effort: Option<Seq<char>>,
    a: Option<Seq<char>>,
    b: Option<Seq<char>>,
)
    ensures
        anthropic_fields(request, instructions, input, effort, a).remove("prompt_cache_key"@)
            == anthropic_fields(request, instructions, input, effort, b).remove(
            "prompt_cache_key"@,
        ),
{
    lemma_member_names();
    assert(anthropic_fields(request, instructions, input, effort, a).remove("prompt_cache_key"@)
        =~= anthropic_fields(request, instructions, input, effort, b).remove(
        "prompt_cache_key"@,
    ));
}

/// What a chat message adds does not depend on those before it.
proof fn lemma_chat_message_behind(earlier: ChatState, state: ChatState, message: JsonV)
    ensures
        chat_message_input(behind(earlier, state), message) == (match chat_message_input(
            state,
            message,
        ) {
            Ok(next) => Ok(behind(earlier, next)),
            Err(e) => Err(e),
        }),
{
    if let Some(fields) = message.as_object() {
        if let Some(text) = field_str(fields, "content"@) {
            assert((earlier.0 + state.0).push(text) =~= earlier.0 + state.0.push(text));
        }
        let asked = chat_text_items(fields, "user"@, "input_text"@);
        assert(earlier.1 + state.1 + asked =~= earlier.1 + (state.1 + asked));
        if let Ok(calls) = chat_call_items(fields) {
            let said = chat_text_items(fields, "assistant"@, "output_text"@) + calls;
            assert(earlier.1 + state.1 + said =~= earlier.1 + (state.1 + said));
        }
        if let Some(id) = field_nonblank(fields, "tool_call_id"@) {
            let output = or_else(field_str(fields, "content"@), Seq::empty());
            let told = seq![function_output_item(id, output)];
            assert(earlier.1 + state.1 + told =~= earlier.1 + (state.1 + told));
        }
    }
}

/// Chat messages behind others come to what they come to alone, behind what the others come to.
pub proof fn lemma_chat_input_joined(first: Seq<JsonV>, second: Seq<JsonV>)
    requires
        chat_input(first) is Ok,
    ensures
        chat_input(first + second) == (match chat_input(second) {
            Ok(state) => Ok(behind(chat_input(first)->Ok_0, state)),
            Err(e) => Err(e),
        }),
    decreases second.len(),
{
    let earlier = chat_input(first)->Ok_0;
    if second.len() == 0 {
        assert(first + second =~= first);
        assert(earlier.0 + Seq::<Seq<char>>::empty() =~= earlier.0);
        assert(earlier.1 + Seq::<JsonV>::empty() =~= earlier.1);
    } else {
        lemma_chat_input_joined(first, second.drop_last());
        assert((first + second).drop_last() =~= first + second.drop_last());
        assert((first + second).last() == second.last());
        if let Ok(state) = chat_input(second.drop_last()) {
            lemma_chat_message_behind(earlier, state, second.last());
        }
    }
}

/// The chat messages that messages come to.
pub open spec fn chat_of(messages: Seq<JsonV>) -> Outcome<Seq<JsonV>> {
    gather(messages, |i: int, message: JsonV| anthropic_message(message))
}

pub proof fn lemma_chat_of_joined(first: Seq<JsonV>, second: Seq<JsonV>)
    requires
        chat_of(first) is Ok,
    ensures
        chat_of(first + second) == (match chat_of(second) {
            Ok(more) => Ok(chat_of(first)->Ok_0 + more),
            Err(e) => Err(e),
        }),
    decreases second.len(),
{
    let before = chat_of(first)->Ok_0;
    if second.len() == 0 {
        assert(first + second =~= first);
        assert(before + Seq::<JsonV>::empty() =~= before);
    } else {
        lemma_chat_of_joined(first, second.drop_last());
        assert((first + second).drop_last() =~= first + second.drop_last());
        assert((first + second).last() == second.last());
        if let Ok(rest) = chat_of(second.drop_last()) {
            if let Ok(more) = anthropic_message(second.last()) {
                assert(before + rest + more =~= before + (rest + more));
            }
        }
    }
}

/// None of the chat messages holds instructions.
pub open spec fn none_instructs(messages: Seq<JsonV>) -> bool {
    forall|i: int|
        0 <= i < messages.len() ==> (#[trigger] messages[i]).get_str("role"@) != Some("system"@)
}

proof fn lemma_role_names()
    ensures
        "system"@ != "user"@,
        "system"@ != "assistant"@,
        "system"@ != "tool"@,
        "role"@ != "content"@,
        "role"@ != "tool_calls"@,
        "role"@ != "tool_call_id"@,
{
    reveal_strlit("system");
    reveal_strlit("user");
    reveal_strlit("assistant");
    reveal_strlit("tool");
    reveal_strlit("role");
    reveal_strlit("content");
    reveal_strlit("tool_calls");
    reveal_strlit("tool_call_id");
    assert("system"@.len() == 6 && "user"@.len() == 4 && "assistant"@.len() == 9);
    assert("tool"@.len() == 4 && "role"@.len() == 4 && "content"@.len() == 7);
    assert("tool_calls"@.len() == 10 && "tool_call_id"@.len() == 12);
}

proof fn lemma_user_blocks_do_not_instruct(
    blocks: Seq<JsonV>,
    step: spec_fn(UserState, int, JsonV) -> Outcome<UserState>,
)
    requires
        step == (|state: UserState, i: int, item: JsonV| user_message_block(state, item)),
    ensures
        try_fold(blocks, (Seq::empty(), Seq::empty()), step) matches Ok(state) ==> none_instructs(
            state.0,
        ) && none_instructs(flushed(state).0),
    decreases blocks.len(),
{
    lemma_role_names();
    if blocks.len() > 0 {
        lemma_user_blocks_do_not_instruct(blocks.drop_last(), step);
    }
}

/// The messages of a client hold no instructions: those stand under `system` alone.
proof fn lemma_message_does_not_instruct(message: JsonV)
    ensures
        anthropic_message(message) matches Ok(made) ==> none_instructs(made),
{
    lemma_role_names();
    if let Some(fields) = message.as_object() {
        if let Some(content) = field(fields, "content"@) {
            if let Some(blocks) = content_blocks(content) {
                lemma_user_blocks_do_not_instruct(
                    blocks,
                    |state: UserState, i: int, item: JsonV| user_message_block(state, item),
                );
            }
        }
    }
}

pub proof fn lemma_chat_does_not_instruct(messages: Seq<JsonV>)
    ensures
        chat_of(messages) matches Ok(made) ==> none_instructs(made),
    decreases messages.len(),
{
    if messages.len() > 0 {
        lemma_chat_does_not_instruct(messages.drop_last());
        lemma_message_does_not_instruct(messages.last());
    }
}

pub proof fn lemma_no_instructions(messages: Seq<JsonV>)
    requires
        none_instructs(messages),
    ensures
        chat_input(messages) matches Ok(state) ==> state.0.len() == 0,
    decreases messages.len(),
{
    if messages.len() > 0 {
        let rest = messages.drop_last();
        assert forall|i: int| 0 <= i < rest.len() implies (#[trigger] rest[i]).get_str("role"@)
            != Some("system"@) by {
            assert(messages[i].get_str("role"@) != Some("system"@));
        }
        lemma_no_instructions(rest);
        assert(messages[messages.len() - 1].get_str("role"@) != Some("system"@));
    }
}

/// What the system text of a request comes to: instructions, and no input items.
proof fn lemma_system_input(request: Fields)
    ensures
        anthropic_system(request) matches Ok(system) ==> (chat_input(system) matches Ok(state)
            && state.1.len() == 0),
{
    lemma_role_names();
    if let Ok(system) = anthropic_system(request) {
        if system.len() > 0 {
            assert(system.drop_last().len() == 0);
            assert(chat_input(system.drop_last()) == Outcome::Ok(
                (Seq::<Seq<char>>::empty(), Seq::<JsonV>::empty()),
            ));
            assert(system.last().get_str("role"@) == Some("system"@));
        }
    }
}

/// What the messages of a request come to, taken apart: the instructions are those of its system
/// text, and the input items those of its messages.
pub proof fn lemma_anthropic_input_parts(request: Fields, messages: Seq<JsonV>)
    requires
        field_array(request, "messages"@) == Some(messages),
        anthropic_system(request) is Ok,
        chat_of(messages) is Ok,
    ensures
        anthropic_input(request) == (match chat_input(chat_of(messages)->Ok_0) {
            Ok(state) => Ok((chat_input(anthropic_system(request)->Ok_0)->Ok_0.0, state.1)),
            Err(e) => Err(e),
        }),
{
    let system = anthropic_system(request)->Ok_0;
    let chat = chat_of(messages)->Ok_0;
    lemma_system_input(request);
    lemma_chat_input_joined(system, chat);
    lemma_chat_does_not_instruct(messages);
    lemma_no_instructions(chat);
    if let Ok(state) = chat_input(chat) {
        let told = chat_input(system)->Ok_0;
        assert(told.0 + state.0 =~= told.0);
        assert(told.1 + state.1 =~= state.1);
    }
}

/// The conversion of two lists of messages put together is the two conversions put together: the
/// input items stand one behind the other, the instructions are those of each, and nothing else of
/// the request depends on its messages.
pub proof fn lemma_anthropic_requests_joined(
    request: Fields,
    first: Seq<JsonV>,
    second: Seq<JsonV>,
)
    requires
        anthropic_input(with_messages(request, first)) is Ok,
        anthropic_input(with_messages(request, second)) is Ok,
    ensures
        ({
            let a = anthropic_input(with_messages(request, first))->Ok_0;
            let b = anthropic_input(with_messages(request, second))->Ok_0;
            &&& a.0 == b.0
            &&& anthropic_input(with_messages(request, first + second)) == Outcome::Ok(
                (a.0, a.1 + b.1),
            )
        }),
        forall|
            instructions: Option<Seq<char>>,
            input: Seq<JsonV>,
            effort: Option<Seq<char>>,
            key: Option<Seq<char>>,
        |
            #[trigger] anthropic_fields(
                with_messages(request, first + second),
                instructions,
                input,
                effort,
                key,
            ) == anthropic_fields(
                with_messages(request, first),
                instructions,
                input,
                effort,
                key,
            ),
{
    lemma_member_names();
    reveal_strlit("messages");
    reveal_strlit("system");
    assert("messages"@.len() == 8 && "system"@.len() == 6);
    let p = with_messages(request, first);
    let q = with_messages(request, second);
    let r = with_messages(request, first + second);
    assert(anthropic_system(p) == anthropic_system(q));
    assert(anthropic_system(p) == anthropic_system(r));
    assert(field_array(p, "messages"@) == Some(first));
    assert(field_array(q, "messages"@) == Some(second));
    assert(field_array(r, "messages"@) == Some(first + second));
    assert(chat_of(first) is Ok);
    assert(chat_of(second) is Ok);
    lemma_chat_of_joined(first, second);
    lemma_anthropic_input_parts(p, first);
    lemma_anthropic_input_parts(q, second);
    lemma_anthropic_input_parts(r, first + second);
    lemma_chat_input_joined(chat_of(first)->Ok_0, chat_of(second)->Ok_0);
}

} // verus!
