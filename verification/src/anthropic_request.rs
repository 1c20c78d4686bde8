//! Anthropic messages requests, turned into Responses requests.

use vstd::prelude::*;
use vstd::string::*;

use crate::codec::{json_read, json_text, read_json, write_json, write_json_bytes};
use crate::items::{
    call_arguments_of, call_id_of, call_name_of, empty_schema, extract_tool_result_content,
    function_call_item, function_choice, function_output_item, function_tool, get_call_arguments,
    get_call_id, get_call_name, get_nested_effort, get_str_or_empty, included,
    make_function_call_item, make_function_choice, make_function_output_item, make_function_tool,
    make_included, make_message_item, make_reasoning_object, make_text_format, message_item,
    nested_effort, normalize_named, normalized, reasoning_object, text_format, tool_result_text,
    MAX_ANTHROPIC_TOOLS,
};
use crate::json::{
    appended, appended_so_far, clone_items, extend, fail, fail_about, field, field_array,
    field_bool, field_nonblank, field_or, field_str, group_values_view, items_outcome, js,
    no_fields, one, opt_owned, or_else, put, str_of, text_outcome, values_view, Fields, Json,
    JsonMap, JsonV,
};
use crate::openai_request::{add_items, bytes_outcome, passed_on, written, ChatState};
use crate::sequence::{
    gather, lemma_gather_at, lemma_reached_at, lemma_try_fold_at, reached, try_fold, Outcome,
};
use crate::text::{
    ascii_lowered, concat_text, contains_lowered, decimal, decimal_text, has_part, is_blank, join,
    joined, nonblank, nonblank_of, opt_string, str_eq, texts, trim,
};

verus! {

broadcast use group_values_view;

/// The model of a request that names none of the Codex family.
pub const DEFAULT_ANTHROPIC_MODEL: &'static str = "gpt-5.3-codex";

/// The reasoning effort of a request that names none.
pub const DEFAULT_ANTHROPIC_REASONING: &'static str = "high";

/// The instructions of a request that brings none.
pub const DEFAULT_ANTHROPIC_INSTRUCTIONS: &'static str =
    "You are Codex, a coding assistant that responds clearly and safely.";

/// The text of a block that has to be a text block.
pub open spec fn anthropic_block_text(block: Fields) -> Outcome<Seq<char>> {
    match field_str(block, "type"@) {
        Some(kind) => if kind != "text"@ {
            Err("unsupported anthropic content block type: "@ + kind)
        } else {
            match field_str(block, "text"@) {
                Some(text) => Ok(text),
                None => Err("anthropic text block missing text"@),
            }
        },
        None => Err("anthropic content block missing type"@),
    }
}

/// The text of a block that has to be a text block.
pub fn extract_text_from_block(block: &JsonMap) -> (r: Result<String, String>)
    ensures
        text_outcome(r) == anthropic_block_text(block@),
{
    let kind = match block.get_str("type") {
        Some(kind) => kind,
        None => return fail("anthropic content block missing type"),
    };
    if !str_eq(kind, "text") {
        return fail_about("unsupported anthropic content block type: ", kind);
    }
    match block.get_str("text") {
        Some(text) => Ok(text.to_owned()),
        None => fail("anthropic text block missing text"),
    }
}

/// The text of one item of a content list.
pub open spec fn anthropic_item_text(item: JsonV) -> Outcome<Seq<char>> {
    match item.as_object() {
        Some(block) => anthropic_block_text(block),
        None => Err("invalid anthropic content block"@),
    }
}

/// The text of content that may hold text only.
pub open spec fn anthropic_text(value: JsonV) -> Outcome<Seq<char>> {
    match value {
        JsonV::Str(text) => Ok(text),
        JsonV::Object(block) => anthropic_block_text(block),
        JsonV::Array(items) => gather(items, |i: int, item: JsonV| anthropic_item_text(item)),
        _ => Err("unsupported anthropic content"@),
    }
}

/// The text of content that may hold text only.
pub fn extract_text_content(value: &Json) -> (r: Result<String, String>)
    ensures
        text_outcome(r) == anthropic_text(value@),
{
    if let Some(text) = value.as_str() {
        return Ok(text.to_owned());
    }
    if let Some(block) = value.as_object() {
        return extract_text_from_block(block);
    }
    let items = match value.as_array() {
        Some(items) => items,
        None => return fail("unsupported anthropic content"),
    };
    let ghost all = values_view(items@);
    let ghost part = |i: int, item: JsonV| anthropic_item_text(item);
    let mut out = String::new();
    let mut i: usize = 0;
    assert(all.take(0) =~= Seq::empty());
    while i < items.len()
        invariant
            value@ == JsonV::Array(all),
            all == values_view(items@),
            part == (|i: int, item: JsonV| anthropic_item_text(item)),
            i <= items@.len(),
            gather(all.take(i as int), part) == Outcome::Ok(out@),
        decreases items@.len() - i,
    {
        proof {
            lemma_gather_at(all, part, i as int);
        }
        let block = match items[i].as_object() {
            Some(block) => block,
            None => return fail("invalid anthropic content block"),
        };
        match extract_text_from_block(block) {
            Ok(text) => out.append(text.as_str()),
            Err(e) => return Err(e),
        }
        i += 1;
    }
    assert(all.take(all.len() as int) =~= all);
    Ok(out)
}

/// The model that a request goes to: the one it names, if that is of the Codex family.
pub open spec fn upstream_model(request: Fields) -> Seq<char> {
    match field_nonblank(request, "model"@) {
        Some(model) => if has_part(ascii_lowered(model), "codex"@) {
            model
        } else {
            DEFAULT_ANTHROPIC_MODEL@
        },
        None => DEFAULT_ANTHROPIC_MODEL@,
    }
}

/// The model that a request goes to.
pub fn resolve_anthropic_upstream_model(source: &JsonMap) -> (r: String)
    ensures
        r@ == upstream_model(source@),
{
    match source.get_nonblank("model") {
        Some(model) => if contains_lowered(model, "codex") {
            model.to_owned()
        } else {
            DEFAULT_ANTHROPIC_MODEL.to_owned()
        },
        None => DEFAULT_ANTHROPIC_MODEL.to_owned(),
    }
}

/// A chat message with text.
pub open spec fn chat_message(role: Seq<char>, content: Seq<char>) -> JsonV {
    JsonV::Object(no_fields().insert("role"@, js(role)).insert("content"@, js(content)))
}

/// A chat message with text.
fn make_chat_message(role: &str, content: &str) -> (r: Json)
    ensures
        r@ == chat_message(role@, content@),
{
    Json::Object(JsonMap::new().with("role", Json::text(role)).with("content", Json::text(content)))
}

/// A chat message with what a tool gave back.
pub open spec fn chat_tool_message(id: Seq<char>, content: Seq<char>) -> JsonV {
    JsonV::Object(
        no_fields().insert("role"@, js("tool"@)).insert("tool_call_id"@, js(id)).insert(
            "content"@,
            js(content),
        ),
    )
}

/// A chat message with what a tool gave back.
fn make_chat_tool_message(id: &str, content: &str) -> (r: Json)
    ensures
        r@ == chat_tool_message(id@, content@),
{
    Json::Object(
        JsonMap::new().with("role", Json::text("tool")).with("tool_call_id", Json::text(id)).with(
            "content",
            Json::text(content),
        ),
    )
}

/// A tool call of a chat message.
pub open spec fn chat_call(id: Seq<char>, name: Seq<char>, arguments: Seq<char>) -> JsonV {
    JsonV::Object(
        no_fields().insert("id"@, js(id)).insert("type"@, js("function"@)).insert(
            "function"@,
            JsonV::Object(
                no_fields().insert("name"@, js(name)).insert("arguments"@, js(arguments)),
            ),
        ),
    )
}

/// A tool call of a chat message.
pub fn make_chat_call(id: &str, name: &str, arguments: &str) -> (r: Json)
    ensures
        r@ == chat_call(id@, name@, arguments@),
{
    Json::Object(
        JsonMap::new().with("id", Json::text(id)).with("type", Json::text("function")).with(
            "function",
            Json::Object(
                JsonMap::new().with("name", Json::text(name)).with(
                    "arguments",
                    Json::text(arguments),
                ),
            ),
        ),
    )
}

/// The blocks of a content list; an object is a list of one.
pub open spec fn content_blocks(content: JsonV) -> Option<Seq<JsonV>> {
    match content {
        JsonV::Array(items) => Some(items),
        JsonV::Object(_) => Some(seq![content]),
        _ => None,
    }
}

/// The blocks of a content list.
fn get_content_blocks(content: &Json) -> (r: Option<Vec<Json>>)
    ensures
        match r {
            Some(blocks) => content_blocks(content@) == Some(values_view(blocks@)),
            None => content_blocks(content@) is None,
        },
{
    match content {
        Json::Array(items) => Some(clone_items(items)),
        Json::Object(_) => Some(one(content.clone())),
        _ => None,
    }
}

/// What the blocks of an assistant message have come to: its text, and its tool calls.
pub type AssistantState = (Seq<char>, Seq<JsonV>);

/// What one more block adds. A tool use without a name, and a block of another type, add nothing.
pub open spec fn assistant_block(state: AssistantState, item: JsonV) -> Outcome<AssistantState> {
    match item.as_object() {
        Some(block) => match field_str(block, "type"@) {
            Some(kind) => if kind == "text"@ {
                Ok((state.0 + or_else(field_str(block, "text"@), Seq::empty()), state.1))
            } else if kind == "tool_use"@ {
                match field_str(block, "name"@) {
                    Some(name) => if is_blank(name) {
                        Ok(state)
                    } else {
                        Ok(
                            (
                                state.0,
                                state.1.push(
                                    chat_call(
                                        or_else(
                                            field_str(block, "id"@),
                                            "toolu_"@ + decimal(state.1.len()),
                                        ),
                                        name,
                                        json_text(
                                            or_else(
                                                field(block, "input"@),
                                                JsonV::Object(no_fields()),
                                            ),
                                        ),
                                    ),
                                ),
                            ),
                        )
                    },
                    None => Ok(state),
                }
            } else {
                Ok(state)
            },
            None => Err("assistant content block missing type"@),
        },
        None => Err("invalid assistant content block"@),
    }
}

/// The chat message that an assistant message comes to.
pub open spec fn assistant_messages(content: JsonV) -> Outcome<Seq<JsonV>> {
    match content {
        JsonV::Str(text) => Ok(seq![chat_message("assistant"@, text)]),
        _ => match content_blocks(content) {
            Some(blocks) => match try_fold(
                blocks,
                (Seq::empty(), Seq::empty()),
                |state: AssistantState, i: int, item: JsonV| assistant_block(state, item),
            ) {
                Ok((text, calls)) => Ok(
                    seq![
                        JsonV::Object(
                            put(
                                no_fields().insert("role"@, js("assistant"@)).insert(
                                    "content"@,
                                    js(text),
                                ),
                                "tool_calls"@,
                                if calls.len() > 0 {
                                    Some(JsonV::Array(calls))
                                } else {
                                    None
                                },
                            ),
                        ),
                    ],
                ),
                Err(e) => Err(e),
            },
            None => Err("unsupported assistant content"@),
        },
    }
}

/// What one more block adds.
fn append_assistant_block(text_content: &mut String, tool_calls: &mut Vec<Json>, block: &Json) -> (r:
    Result<(), String>)
    ensures
        match assistant_block((old(text_content)@, values_view(old(tool_calls)@)), block@) {
            Ok(state) => r is Ok && final(text_content)@ == state.0 && values_view(
                final(tool_calls)@,
            ) == state.1,
            Err(message) => r matches Err(e) && e@ == message,
        },
{
    let block_obj = match block.as_object() {
        Some(block_obj) => block_obj,
        None => return fail("invalid assistant content block"),
    };
    let kind = match block_obj.get_str("type") {
        Some(kind) => kind,
        None => return fail("assistant content block missing type"),
    };
    if str_eq(kind, "text") {
        text_content.append(get_str_or_empty(block_obj, "text"));
    } else if str_eq(kind, "tool_use") {
        if let Some(name) = block_obj.get_str("name") {
            if !trim(name).is_empty() {
                let id = match block_obj.get_str("id") {
                    Some(id) => id.to_owned(),
                    None => concat_text(
                        "toolu_",
                        decimal_text(tool_calls.len() as u64).as_str(),
                    ),
                };
                let arguments = match block_obj.get("input") {
                    Some(input) => write_json(input),
                    None => write_json(&Json::Object(JsonMap::new())),
                };
                tool_calls.push(make_chat_call(id.as_str(), name, arguments.as_str()));
            }
        }
    }
    Ok(())
}

/// Appends the chat message that an assistant message comes to.
pub fn append_assistant_messages(messages: &mut Vec<Json>, content: &Json) -> (r: Result<
    (),
    String,
>)
    ensures
        appended(old(messages)@, final(messages)@, r, assistant_messages(content@)),
{
    if let Some(text) = content.as_str() {
        extend(messages, one(make_chat_message("assistant", text)));
        return Ok(());
    }
    let blocks = match get_content_blocks(content) {
        Some(blocks) => blocks,
        None => return fail("unsupported assistant content"),
    };
    let ghost all = values_view(blocks@);
    let ghost start: AssistantState = (Seq::empty(), Seq::empty());
    let ghost step = |state: AssistantState, i: int, item: JsonV| assistant_block(state, item);
    let mut text_content = String::new();
    let mut tool_calls: Vec<Json> = Vec::new();
    let mut i: usize = 0;
    assert(all.take(0) =~= Seq::empty());
    while i < blocks.len()
        invariant
            *messages == *old(messages),
            !(content@ is Str),
            content_blocks(content@) == Some(all),
            all == values_view(blocks@),
            start == (Seq::<char>::empty(), Seq::<JsonV>::empty()),
            step == (|state: AssistantState, i: int, item: JsonV| assistant_block(state, item)),
            i <= blocks@.len(),
            try_fold(all.take(i as int), start, step) == Outcome::Ok(
                (text_content@, values_view(tool_calls@)),
            ),
        decreases blocks@.len() - i,
    {
        proof {
            lemma_try_fold_at(all, start, step, i as int);
        }
        if let Err(e) = append_assistant_block(&mut text_content, &mut tool_calls, &blocks[i]) {
            return Err(e);
        }
        i += 1;
    }
    assert(all.take(all.len() as int) =~= all);
    let mut message = JsonMap::new().with("role", Json::text("assistant")).with(
        "content",
        Json::Str(text_content),
    );
    if tool_calls.len() > 0 {
        message.insert("tool_calls", Json::Array(tool_calls));
    }
    extend(messages, one(Json::Object(message)));
    Ok(())
}

/// What the blocks of a user message have come to: the chat messages, and text that is still to
/// become one.
pub type UserState = (Seq<JsonV>, Seq<char>);

/// The pending text becomes a message, unless it is blank.
pub open spec fn flushed(state: UserState) -> UserState {
    if is_blank(state.1) {
        (state.0, Seq::empty())
    } else {
        (state.0.push(chat_message("user"@, state.1)), Seq::empty())
    }
}

/// The identifier of the tool use that a result belongs to.
pub open spec fn result_id(block: Fields) -> Seq<char> {
    match field_str(block, "tool_use_id"@) {
        Some(id) => id,
        None => or_else(field_str(block, "id"@), Seq::empty()),
    }
}

/// What a tool gave back, as a chat message shows it: an error is marked.
pub open spec fn result_text(block: Fields) -> Seq<char> {
    let text = tool_result_text(field(block, "content"@));
    if or_else(field_bool(block, "is_error"@), false) {
        "[tool_error] "@ + text
    } else {
        text
    }
}

/// What one more block adds. A result first makes a message of the text before it; one without an
/// identifier adds nothing more, and a block of another type nothing at all.
pub open spec fn user_message_block(state: UserState, item: JsonV) -> Outcome<UserState> {
    match item.as_object() {
        Some(block) => match field_str(block, "type"@) {
            Some(kind) => if kind == "text"@ {
                Ok((state.0, state.1 + or_else(field_str(block, "text"@), Seq::empty())))
            } else if kind == "tool_result"@ {
                let before = flushed(state);
                if result_id(block).len() == 0 {
                    Ok(before)
                } else {
                    Ok(
                        (
                            before.0.push(chat_tool_message(result_id(block), result_text(block))),
                            before.1,
                        ),
                    )
                }
            } else {
                Ok(state)
            },
            None => Err("user content block missing type"@),
        },
        None => Err("invalid user content block"@),
    }
}

/// The chat messages that a user message comes to.
pub open spec fn user_messages(content: JsonV) -> Outcome<Seq<JsonV>> {
    match content {
        JsonV::Str(text) => if is_blank(text) {
            Ok(Seq::empty())
        } else {
            Ok(seq![chat_message("user"@, text)])
        },
        _ => match content_blocks(content) {
            Some(blocks) => match try_fold(
                blocks,
                (Seq::empty(), Seq::empty()),
                |state: UserState, i: int, item: JsonV| user_message_block(state, item),
            ) {
                Ok(state) => Ok(flushed(state).0),
                Err(e) => Err(e),
            },
            None => Err("unsupported user content"@),
        },
    }
}

/// The chat messages that a user message has come to where one of its blocks is refused.
pub open spec fn user_messages_made(content: JsonV) -> Seq<JsonV> {
    match content_blocks(content) {
        Some(blocks) => reached(
            blocks,
            (Seq::empty(), Seq::empty()),
            |state: UserState, i: int, item: JsonV| user_message_block(state, item),
        ).0,
        None => Seq::empty(),
    }
}

/// Makes a message of the pending text, unless it is blank; no text is pending afterwards.
pub fn flush_user_text(messages: &mut Vec<Json>, pending_text: &mut String)
    ensures
        (values_view(final(messages)@), final(pending_text)@) == flushed(
            (values_view(old(messages)@), old(pending_text)@),
        ),
{
    if !trim(pending_text.as_str()).is_empty() {
        messages.push(make_chat_message("user", pending_text.as_str()));
    }
    *pending_text = String::new();
}

/// What one more block adds.
fn append_user_block(messages: &mut Vec<Json>, pending_text: &mut String, block: &Json) -> (r:
    Result<(), String>)
    ensures
        match user_message_block((values_view(old(messages)@), old(pending_text)@), block@) {
            Ok(state) => {
                &&& r is Ok
                &&& values_view(final(messages)@) == state.0
                &&& final(pending_text)@ == state.1
            },
            Err(message) => {
                &&& r matches Err(e) && e@ == message
                &&& *final(messages) == *old(messages)
            },
        },
{
    let block_obj = match block.as_object() {
        Some(block_obj) => block_obj,
        None => return fail("invalid user content block"),
    };
    let kind = match block_obj.get_str("type") {
        Some(kind) => kind,
        None => return fail("user content block missing type"),
    };
    if str_eq(kind, "text") {
        pending_text.append(get_str_or_empty(block_obj, "text"));
    } else if str_eq(kind, "tool_result") {
        flush_user_text(messages, pending_text);
        let id = match block_obj.get_str("tool_use_id") {
            Some(id) => id,
            None => get_str_or_empty(block_obj, "id"),
        };
        if id.is_empty() {
            return Ok(());
        }
        let mut tool_content = match extract_tool_result_content(block_obj.get("content")) {
            Ok(tool_content) => tool_content,
            Err(e) => return Err(e),
        };
        let is_error = match block_obj.get_bool("is_error") {
            Some(is_error) => is_error,
            None => false,
        };
        if is_error {
            tool_content = concat_text("[tool_error] ", tool_content.as_str());
        }
        messages.push(make_chat_tool_message(id, tool_content.as_str()));
    }
    Ok(())
}

/// Appends the chat messages that a user message comes to. Where one of its blocks is refused, what
/// came before it stays.
pub fn append_user_messages(messages: &mut Vec<Json>, content: &Json) -> (r: Result<(), String>)
    ensures
        appended_so_far(
            old(messages)@,
            final(messages)@,
            r,
            user_messages(content@),
            user_messages_made(content@),
        ),
{
    let ghost before = values_view(messages@);
    assert(before + Seq::<JsonV>::empty() =~= before);
    if let Some(text) = content.as_str() {
        if !trim(text).is_empty() {
            extend(messages, one(make_chat_message("user", text)));
        }
        return Ok(());
    }
    let blocks = match get_content_blocks(content) {
        Some(blocks) => blocks,
        None => return fail("unsupported user content"),
    };
    let ghost all = values_view(blocks@);
    let ghost start: UserState = (Seq::empty(), Seq::empty());
    let ghost step = |state: UserState, i: int, item: JsonV| user_message_block(state, item);
    let ghost mut made: Seq<JsonV> = Seq::empty();
    let mut pending_text = String::new();
    let mut i: usize = 0;
    assert(all.take(0) =~= Seq::empty());
    while i < blocks.len()
        invariant
            before == values_view(old(messages)@),
            !(content@ is Str),
            content_blocks(content@) == Some(all),
            all == values_view(blocks@),
            start == (Seq::<JsonV>::empty(), Seq::<char>::empty()),
            step == (|state: UserState, i: int, item: JsonV| user_message_block(state, item)),
            i <= blocks@.len(),
            try_fold(all.take(i as int), start, step) == Outcome::Ok((made, pending_text@)),
            values_view(messages@) == before + made,
        decreases blocks@.len() - i,
    {
        proof {
            lemma_try_fold_at(all, start, step, i as int);
            lemma_user_block_behind(before, made, pending_text@, all[i as int]);
            if step((made, pending_text@), i as int, all[i as int]) is Err {
                lemma_reached_at(all, start, step, i as int, all.len() as int);
                assert(all.take(all.len() as int) =~= all);
            }
        }
        let ghost pending = pending_text@;
        if let Err(e) = append_user_block(messages, &mut pending_text, &blocks[i]) {
            return Err(e);
        }
        proof {
            made = user_message_block((made, pending), all[i as int])->Ok_0.0;
        }
        i += 1;
    }
    assert(all.take(all.len() as int) =~= all);
    let ghost pending = pending_text@;
    flush_user_text(messages, &mut pending_text);
    assert(flushed((before + made, pending)).0 =~= before + flushed((made, pending)).0);
    Ok(())
}

/// Messages that stand before those of a user message change nothing about what a block adds.
proof fn lemma_user_block_behind(
    before: Seq<JsonV>,
    made: Seq<JsonV>,
    pending: Seq<char>,
    item: JsonV,
)
    ensures
        match user_message_block((made, pending), item) {
            Ok(state) => user_message_block((before + made, pending), item) == Outcome::<
                UserState,
            >::Ok((before + state.0, state.1)),
            Err(e) => user_message_block((before + made, pending), item) == Outcome::<
                UserState,
            >::Err(e),
        },
{
    if let Some(block) = item.as_object() {
        let plain = flushed((made, pending)).0;
        assert(flushed((before + made, pending)).0 =~= before + plain);
        let told = chat_tool_message(result_id(block), result_text(block));
        assert((before + plain).push(told) =~= before + plain.push(told));
    }
}

/// The chat message that a tool message comes to.
pub open spec fn tool_role_messages(message: Fields, content: JsonV) -> Outcome<Seq<JsonV>> {
    match str_of(field_or(message, "tool_call_id"@, "tool_use_id"@)) {
        Some(id) => Ok(seq![chat_tool_message(id, tool_result_text(Some(content)))]),
        None => Err("tool role message missing tool_call_id"@),
    }
}

/// Appends the chat message that a tool message comes to.
pub fn append_tool_role_message(
    messages: &mut Vec<Json>,
    message_obj: &JsonMap,
    content: &Json,
) -> (r: Result<(), String>)
    ensures
        appended(
            old(messages)@,
            final(messages)@,
            r,
            tool_role_messages(message_obj@, content@),
        ),
{
    let named = match message_obj.get_or("tool_call_id", "tool_use_id") {
        Some(value) => value.as_str(),
        None => None,
    };
    let id = match named {
        Some(id) => id,
        None => return fail("tool role message missing tool_call_id"),
    };
    let tool_content = match extract_tool_result_content(Some(content)) {
        Ok(tool_content) => tool_content,
        Err(e) => return Err(e),
    };
    extend(messages, one(make_chat_tool_message(id, tool_content.as_str())));
    Ok(())
}

/// What a tool call of a chat message comes to; nothing where it names no function.
pub open spec fn chat_call_item(index: int, call: JsonV) -> Outcome<Seq<JsonV>> {
    match call.as_object() {
        Some(fields) => match call_name_of(fields) {
            Some(name) => Ok(
                seq![
                    function_call_item(
                        call_id_of(fields, index as nat),
                        name,
                        call_arguments_of(fields),
                    ),
                ],
            ),
            None => Ok(Seq::empty()),
        },
        None => Ok(Seq::empty()),
    }
}

/// The text message that the content of a chat message comes to; nothing where it is blank.
pub open spec fn chat_text_items(message: Fields, role: Seq<char>, kind: Seq<char>) -> Seq<JsonV> {
    match field_nonblank(message, "content"@) {
        Some(text) => seq![message_item(role, kind, text)],
        None => Seq::empty(),
    }
}

/// What the tool calls of a chat message come to.
pub open spec fn chat_call_items(message: Fields) -> Outcome<Seq<JsonV>> {
    match field_array(message, "tool_calls"@) {
        Some(calls) => gather(calls, |index: int, call: JsonV| chat_call_item(index, call)),
        None => Ok(Seq::empty()),
    }
}

/// What one more chat message adds. What is no message of a known role adds nothing.
pub open spec fn chat_message_input(state: ChatState, message: JsonV) -> Outcome<ChatState> {
    match message.as_object() {
        Some(fields) => {
            let role = field_str(fields, "role"@);
            if role == Some("system"@) {
                match field_str(fields, "content"@) {
                    Some(text) => if is_blank(text) {
                        Ok(state)
                    } else {
                        Ok((state.0.push(text), state.1))
                    },
                    None => Ok(state),
                }
            } else if role == Some("user"@) {
                add_items(state, Ok(chat_text_items(fields, "user"@, "input_text"@)))
            } else if role == Some("assistant"@) {
                match chat_call_items(fields) {
                    Ok(calls) => add_items(
                        state,
                        Ok(chat_text_items(fields, "assistant"@, "output_text"@) + calls),
                    ),
                    Err(e) => Err(e),
                }
            } else if role == Some("tool"@) {
                match field_nonblank(fields, "tool_call_id"@) {
                    Some(id) => add_items(
                        state,
                        Ok(
                            seq![
                                function_output_item(
                                    id,
                                    or_else(field_str(fields, "content"@), Seq::empty()),
                                ),
                            ],
                        ),
                    ),
                    None => Err("tool role message missing tool_call_id"@),
                }
            } else {
                Ok(state)
            }
        },
        None => Ok(state),
    }
}

/// What chat messages come to: the texts of the instructions, and the input items.
pub open spec fn chat_input(messages: Seq<JsonV>) -> Outcome<ChatState> {
    try_fold(
        messages,
        (Seq::empty(), Seq::empty()),
        |state: ChatState, i: int, message: JsonV| chat_message_input(state, message),
    )
}

/// The instructions as one text, where there are any.
pub open spec fn joined_instructions(parts: Seq<Seq<char>>) -> Option<Seq<char>> {
    if parts.len() == 0 {
        None
    } else {
        Some(joined(parts, "\n\n"@))
    }
}

/// Appends what the tool calls of a chat message come to.
fn append_chat_calls(input_items: &mut Vec<Json>, message_obj: &JsonMap)
    ensures
        chat_call_items(message_obj@) matches Ok(calls) && values_view(final(input_items)@)
            == values_view(old(input_items)@) + calls,
{
    let ghost before = values_view(input_items@);
    let tool_calls = match message_obj.get_array("tool_calls") {
        Some(tool_calls) => tool_calls,
        None => {
            assert(before + Seq::<JsonV>::empty() =~= before);
            return ;
        },
    };
    let ghost all = values_view(tool_calls@);
    let ghost part = |index: int, call: JsonV| chat_call_item(index, call);
    let mut calls: Vec<Json> = Vec::new();
    let mut index: usize = 0;
    assert(all.take(0) =~= Seq::empty());
    while index < tool_calls.len()
        invariant
            *input_items == *old(input_items),
            all == values_view(tool_calls@),
            part == (|index: int, call: JsonV| chat_call_item(index, call)),
            index <= tool_calls@.len(),
            gather(all.take(index as int), part) == Outcome::Ok(values_view(calls@)),
        decreases tool_calls@.len() - index,
    {
        proof {
            lemma_gather_at(all, part, index as int);
            assert(values_view(calls@) + Seq::<JsonV>::empty() =~= values_view(calls@));
        }
        if let Some(tool_obj) = tool_calls[index].as_object() {
            if let Some(name) = get_call_name(tool_obj) {
                let call_id = get_call_id(tool_obj, index as u64);
                let arguments = get_call_arguments(tool_obj);
                extend(
                    &mut calls,
                    one(make_function_call_item(call_id.as_str(), name, arguments.as_str())),
                );
            }
        }
        index += 1;
    }
    assert(all.take(all.len() as int) =~= all);
    extend(input_items, calls);
}

/// Appends the text message that the content of a chat message comes to.
fn append_chat_text(input_items: &mut Vec<Json>, message_obj: &JsonMap, role: &str, kind: &str)
    ensures
        values_view(final(input_items)@) == values_view(old(input_items)@) + chat_text_items(
            message_obj@,
            role@,
            kind@,
        ),
{
    let ghost before = values_view(input_items@);
    match message_obj.get_nonblank("content") {
        Some(text) => extend(input_items, one(make_message_item(role, kind, text))),
        None => {
            assert(before + Seq::<JsonV>::empty() =~= before);
        },
    }
}

/// What one more chat message adds.
fn append_chat_input(
    instructions_parts: &mut Vec<String>,
    input_items: &mut Vec<Json>,
    message: &Json,
) -> (r: Result<(), String>)
    ensures
        match chat_message_input(
            (texts(old(instructions_parts)@), values_view(old(input_items)@)),
            message@,
        ) {
            Ok(state) => {
                &&& r is Ok
                &&& texts(final(instructions_parts)@) == state.0
                &&& values_view(final(input_items)@) == state.1
            },
            Err(message) => r matches Err(e) && e@ == message,
        },
{
    let message_obj = match message.as_object() {
        Some(message_obj) => message_obj,
        None => return Ok(()),
    };
    let role = match message_obj.get_str("role") {
        Some(role) => role,
        None => return Ok(()),
    };
    if str_eq(role, "system") {
        if let Some(content) = message_obj.get_str("content") {
            if !trim(content).is_empty() {
                let ghost before = texts(instructions_parts@);
                instructions_parts.push(content.to_owned());
                assert(texts(instructions_parts@) =~= before.push(content@));
            }
        }
    } else if str_eq(role, "user") {
        append_chat_text(input_items, message_obj, "user", "input_text");
    } else if str_eq(role, "assistant") {
        let ghost before = values_view(input_items@);
        append_chat_text(input_items, message_obj, "assistant", "output_text");
        let ghost middle = values_view(input_items@);
        append_chat_calls(input_items, message_obj);
        proof {
            let said = chat_text_items(message_obj@, "assistant"@, "output_text"@);
            let calls = chat_call_items(message_obj@)->Ok_0;
            assert(before + (said + calls) =~= before + said + calls);
        }
    } else if str_eq(role, "tool") {
        let call_id = match message_obj.get_nonblank("tool_call_id") {
            Some(call_id) => call_id,
            None => return fail("tool role message missing tool_call_id"),
        };
        let output = get_str_or_empty(message_obj, "content");
        extend(input_items, one(make_function_output_item(call_id, output)));
    }
    Ok(())
}

/// Turns chat messages into instructions and input items.
pub fn convert_chat_messages_to_responses_input(messages: &Vec<Json>) -> (r: Result<
    (Option<String>, Vec<Json>),
    String,
>)
    ensures
        match chat_input(values_view(messages@)) {
            Ok(state) => r matches Ok((instructions, items)) && opt_string(instructions)
                == joined_instructions(state.0) && values_view(items@) == state.1,
            Err(message) => r matches Err(e) && e@ == message,
        },
{
    let ghost all = values_view(messages@);
    let ghost start: ChatState = (Seq::empty(), Seq::empty());
    let ghost step = |state: ChatState, i: int, message: JsonV|
        chat_message_input(state, message);
    let mut instructions_parts: Vec<String> = Vec::new();
    let mut input_items: Vec<Json> = Vec::new();
    let mut i: usize = 0;
    assert(all.take(0) =~= Seq::empty());
    assert(texts(instructions_parts@) =~= Seq::empty());
    while i < messages.len()
        invariant
            all == values_view(messages@),
            start == (Seq::<Seq<char>>::empty(), Seq::<JsonV>::empty()),
            step == (|state: ChatState, i: int, message: JsonV|
                chat_message_input(state, message)),
            i <= messages@.len(),
            try_fold(all.take(i as int), start, step) == Outcome::Ok(
                (texts(instructions_parts@), values_view(input_items@)),
            ),
        decreases messages@.len() - i,
    {
        proof {
            lemma_try_fold_at(all, start, step, i as int);
        }
        if let Err(e) = append_chat_input(
            &mut instructions_parts,
            &mut input_items,
            &messages[i],
        ) {
            return Err(e);
        }
        i += 1;
    }
    assert(all.take(all.len() as int) =~= all);
    let instructions = if instructions_parts.len() == 0 {
        None
    } else {
        Some(join(&instructions_parts, "\n\n"))
    };
    Ok((instructions, input_items))
}

/// What a tool of the request comes to; nothing where it has neither a name nor a type.
pub open spec fn anthropic_tool(value: JsonV) -> Option<JsonV> {
    match value.as_object() {
        Some(tool) => match nonblank(
            match field_str(tool, "name"@) {
                Some(name) => Some(name),
                None => field_str(tool, "type"@),
            },
        ) {
            Some(name) => Some(
                function_tool(
                    name,
                    or_else(field_str(tool, "description"@), Seq::empty()),
                    or_else(field(tool, "input_schema"@), empty_schema()),
                ),
            ),
            None => None,
        },
        None => None,
    }
}

/// What a tool of the request comes to.
pub fn map_anthropic_tool_definition(value: &Json) -> (r: Option<Json>)
    ensures
        opt_owned(r) == anthropic_tool(value@),
{
    let tool = match value.as_object() {
        Some(tool) => tool,
        None => return None,
    };
    let named = match tool.get_str("name") {
        Some(name) => Some(name),
        None => tool.get_str("type"),
    };
    match nonblank_of(named) {
        Some(name) => {
            let description = get_str_or_empty(tool, "description");
            Some(make_function_tool(name, description, tool.get("input_schema")))
        },
        None => None,
    }
}

/// What the tools come to, those left out that come to nothing.
pub open spec fn anthropic_tools(items: Seq<JsonV>) -> Seq<JsonV>
    decreases items.len(),
{
    if items.len() == 0 {
        Seq::empty()
    } else {
        match anthropic_tool(items.last()) {
            Some(tool) => anthropic_tools(items.drop_last()).push(tool),
            None => anthropic_tools(items.drop_last()),
        }
    }
}

/// The tools of a request that are passed on.
pub open spec fn anthropic_request_tools(request: Fields) -> Seq<JsonV> {
    match field_array(request, "tools"@) {
        Some(items) => passed_on(anthropic_tools(items)),
        None => Seq::empty(),
    }
}

/// The tools of a request that are passed on.
fn map_anthropic_tools(obj: &JsonMap) -> (r: Vec<Json>)
    ensures
        values_view(r@) == anthropic_request_tools(obj@),
{
    let items = match obj.get_array("tools") {
        Some(items) => items,
        None => return Vec::new(),
    };
    let ghost all = values_view(items@);
    let mut mapped: Vec<Json> = Vec::new();
    let mut i: usize = 0;
    assert(all.take(0) =~= Seq::empty());
    while i < items.len()
        invariant
            all == values_view(items@),
            i <= items@.len(),
            values_view(mapped@) == anthropic_tools(all.take(i as int)),
        decreases items@.len() - i,
    {
        assert(all.take(i + 1).drop_last() =~= all.take(i as int));
        if let Some(tool) = map_anthropic_tool_definition(&items[i]) {
            mapped.push(tool);
        }
        i += 1;
    }
    assert(all.take(all.len() as int) =~= all);
    let ghost full = mapped@;
    mapped.truncate(MAX_ANTHROPIC_TOOLS);
    assert(values_view(mapped@) =~= passed_on(values_view(full)));
    mapped
}

/// What the tool choice of a request comes to; nothing where it is none that is known.
pub open spec fn anthropic_tool_choice(value: JsonV) -> Option<JsonV> {
    match value {
        JsonV::Str(text) => Some(js(text)),
        JsonV::Object(choice) => {
            let kind = or_else(field_str(choice, "type"@), "auto"@);
            if kind == "auto"@ {
                Some(js("auto"@))
            } else if kind == "any"@ {
                Some(js("required"@))
            } else if kind == "none"@ {
                Some(js("none"@))
            } else if kind == "tool"@ {
                match field_nonblank(choice, "name"@) {
                    Some(name) => Some(function_choice(name)),
                    None => None,
                }
            } else {
                None
            }
        },
        _ => None,
    }
}

/// What the tool choice of a request comes to.
pub fn map_anthropic_tool_choice(value: &Json) -> (r: Option<Json>)
    ensures
        opt_owned(r) == anthropic_tool_choice(value@),
{
    if let Some(text) = value.as_str() {
        return Some(Json::text(text));
    }
    let choice = match value.as_object() {
        Some(choice) => choice,
        None => return None,
    };
    let kind = match choice.get_str("type") {
        Some(kind) => kind,
        None => "auto",
    };
    if str_eq(kind, "auto") {
        Some(Json::text("auto"))
    } else if str_eq(kind, "any") {
        Some(Json::text("required"))
    } else if str_eq(kind, "none") {
        Some(Json::text("none"))
    } else if str_eq(kind, "tool") {
        match choice.get_nonblank("name") {
            Some(name) => Some(make_function_choice(name)),
            None => None,
        }
    } else {
        None
    }
}

/// The chat messages that one message comes to.
pub open spec fn anthropic_message(message: JsonV) -> Outcome<Seq<JsonV>> {
    match message.as_object() {
        Some(fields) => match field_str(fields, "role"@) {
            Some(role) => match field(fields, "content"@) {
                Some(content) => if role == "assistant"@ {
                    assistant_messages(content)
                } else if role == "user"@ {
                    user_messages(content)
                } else if role == "tool"@ {
                    tool_role_messages(fields, content)
                } else {
                    Err("unsupported anthropic message role: "@ + role)
                },
                None => Err("anthropic message content is required"@),
            },
            None => Err("anthropic message role is required"@),
        },
        None => Err("invalid anthropic message item"@),
    }
}

/// The chat message that the system text of a request comes to; nothing where it is blank.
pub open spec fn anthropic_system(request: Fields) -> Outcome<Seq<JsonV>> {
    match field(request, "system"@) {
        Some(system) => match anthropic_text(system) {
            Ok(text) => if is_blank(text) {
                Ok(Seq::empty())
            } else {
                Ok(seq![chat_message("system"@, text)])
            },
            Err(e) => Err(e),
        },
        None => Ok(Seq::empty()),
    }
}

/// The chat messages that a request comes to.
pub open spec fn anthropic_chat(request: Fields) -> Outcome<Seq<JsonV>> {
    match anthropic_system(request) {
        Ok(system) => match field_array(request, "messages"@) {
            Some(messages) => match gather(
                messages,
                |i: int, message: JsonV| anthropic_message(message),
            ) {
                Ok(rest) => Ok(system + rest),
                Err(e) => Err(e),
            },
            None => Err("anthropic messages field is required"@),
        },
        Err(e) => Err(e),
    }
}

/// Appends the chat messages that one message comes to.
fn append_anthropic_message(messages: &mut Vec<Json>, message: &Json) -> (r: Result<(), String>)
    ensures
        match anthropic_message(message@) {
            Ok(items) => {
                &&& r is Ok
                &&& values_view(final(messages)@) == values_view(old(messages)@) + items
            },
            Err(message) => r matches Err(e) && e@ == message,
        },
{
    let message_obj = match message.as_object() {
        Some(message_obj) => message_obj,
        None => return fail("invalid anthropic message item"),
    };
    let role = match message_obj.get_str("role") {
        Some(role) => role,
        None => return fail("anthropic message role is required"),
    };
    let content = match message_obj.get("content") {
        Some(content) => content,
        None => return fail("anthropic message content is required"),
    };
    if str_eq(role, "assistant") {
        append_assistant_messages(messages, content)
    } else if str_eq(role, "user") {
        append_user_messages(messages, content)
    } else if str_eq(role, "tool") {
        append_tool_role_message(messages, message_obj, content)
    } else {
        fail_about("unsupported anthropic message role: ", role)
    }
}

/// The chat messages that a request comes to.
fn collect_anthropic_chat(obj: &JsonMap) -> (r: Result<Vec<Json>, String>)
    ensures
        items_outcome(r) == anthropic_chat(obj@),
{
    let mut messages: Vec<Json> = Vec::new();
    if let Some(system) = obj.get("system") {
        let system_text = match extract_text_content(system) {
            Ok(system_text) => system_text,
            Err(e) => return Err(e),
        };
        if !trim(system_text.as_str()).is_empty() {
            extend(&mut messages, one(make_chat_message("system", system_text.as_str())));
        }
    }
    let ghost system = values_view(messages@);
    assert(anthropic_system(obj@) == Outcome::Ok(system));
    let source_messages = match obj.get_array("messages") {
        Some(source_messages) => source_messages,
        None => return fail("anthropic messages field is required"),
    };
    let ghost all = values_view(source_messages@);
    let ghost part = |i: int, message: JsonV| anthropic_message(message);
    let ghost mut rest: Seq<JsonV> = Seq::empty();
    let mut i: usize = 0;
    assert(all.take(0) =~= Seq::empty());
    assert(system + rest =~= system);
    while i < source_messages.len()
        invariant
            anthropic_system(obj@) == Outcome::Ok(system),
            field_array(obj@, "messages"@) == Some(all),
            all == values_view(source_messages@),
            part == (|i: int, message: JsonV| anthropic_message(message)),
            i <= source_messages@.len(),
            gather(all.take(i as int), part) == Outcome::Ok(rest),
            values_view(messages@) == system + rest,
        decreases source_messages@.len() - i,
    {
        proof {
            lemma_gather_at(all, part, i as int);
        }
        if let Err(e) = append_anthropic_message(&mut messages, &source_messages[i]) {
            return Err(e);
        }
        proof {
            let more = anthropic_message(all[i as int])->Ok_0;
            assert(system + rest + more =~= system + (rest + more));
            rest = rest + more;
        }
        i += 1;
    }
    assert(all.take(all.len() as int) =~= all);
    Ok(messages)
}

/// What the messages of a request come to.
pub open spec fn anthropic_input(request: Fields) -> Outcome<ChatState> {
    match anthropic_chat(request) {
        Ok(messages) => chat_input(messages),
        Err(e) => Err(e),
    }
}

/// Turns the messages of a request into instructions and input items.
pub fn collect_anthropic_input(obj: &JsonMap) -> (r: Result<(Option<String>, Vec<Json>), String>)
    ensures
        match anthropic_input(obj@) {
            Ok(state) => r matches Ok((instructions, items)) && opt_string(instructions)
                == joined_instructions(state.0) && values_view(items@) == state.1,
            Err(message) => r matches Err(e) && e@ == message,
        },
{
    match collect_anthropic_chat(obj) {
        Ok(messages) => convert_chat_messages_to_responses_input(&messages),
        Err(e) => Err(e),
    }
}

/// The tool choice that a request goes out with: its own, as far as it is known, else `auto` where
/// it has tools and says nothing of a choice.
pub open spec fn anthropic_choice(request: Fields, tools: Seq<JsonV>) -> Option<JsonV> {
    match field(request, "tool_choice"@) {
        Some(JsonV::Null) => None,
        Some(choice) => anthropic_tool_choice(choice),
        None => if tools.len() > 0 {
            Some(js("auto"@))
        } else {
            None
        },
    }
}

/// Whether a request asks for its answer piece by piece; it does unless it says otherwise.
pub open spec fn anthropic_stream(request: Fields) -> bool {
    or_else(field_bool(request, "stream"@), true)
}

/// The members of the Responses request. `effort` is the reasoning effort in normal form, and
/// `cache_key` the key under which the upstream keeps the prompt.
pub open spec fn anthropic_fields(
    request: Fields,
    instructions: Option<Seq<char>>,
    input: Seq<JsonV>,
    effort: Option<Seq<char>>,
    cache_key: Option<Seq<char>>,
) -> Fields {
    let tools = anthropic_request_tools(request);
    let head = no_fields().insert("model"@, js(upstream_model(request))).insert(
        "instructions"@,
        js(or_else(nonblank(instructions), DEFAULT_ANTHROPIC_INSTRUCTIONS@)),
    ).insert("text"@, text_format()).insert(
        "reasoning"@,
        reasoning_object(or_else(effort, DEFAULT_ANTHROPIC_REASONING@)),
    ).insert("input"@, JsonV::Array(input));
    let keyed = put(
        head,
        "prompt_cache_key"@,
        match cache_key {
            Some(key) => Some(js(key)),
            None => None,
        },
    );
    let equipped = put(
        keyed,
        "tools"@,
        if tools.len() > 0 {
            Some(JsonV::Array(tools))
        } else {
            None
        },
    );
    put(equipped, "tool_choice"@, anthropic_choice(request, tools)).insert(
        "stream"@,
        JsonV::Bool(true),
    ).insert("parallel_tool_calls"@, JsonV::Bool(true)).insert("store"@, JsonV::Bool(false)).insert(
        "include"@,
        included(),
    )
}

/// Makes the Responses request, once the messages have been converted.
pub fn build_anthropic_request(
    obj: &JsonMap,
    instructions: Option<String>,
    input_items: Vec<Json>,
    effort: Option<String>,
    cache_key: Option<String>,
) -> (r: (Json, bool))
    ensures
        r.0@ == JsonV::Object(
            anthropic_fields(
                obj@,
                opt_string(instructions),
                values_view(input_items@),
                opt_string(effort),
                opt_string(cache_key),
            ),
        ),
        r.1 == anthropic_stream(obj@),
{
    let mut out = JsonMap::new();
    out.insert("model", Json::Str(resolve_anthropic_upstream_model(obj)));
    let given = match &instructions {
        Some(text) => nonblank_of(Some(text.as_str())),
        None => None,
    };
    let resolved_instructions = match given {
        Some(text) => text,
        None => DEFAULT_ANTHROPIC_INSTRUCTIONS,
    };
    out.insert("instructions", Json::text(resolved_instructions));
    out.insert("text", make_text_format());
    let resolved_reasoning = match &effort {
        Some(effort) => effort.as_str(),
        None => DEFAULT_ANTHROPIC_REASONING,
    };
    out.insert("reasoning", make_reasoning_object(resolved_reasoning));
    out.insert("input", Json::Array(input_items));
    if let Some(key) = cache_key {
        out.insert("prompt_cache_key", Json::Str(key));
    }
    let mapped_tools = map_anthropic_tools(obj);
    let has_tools = mapped_tools.len() > 0;
    if has_tools {
        out.insert("tools", Json::Array(mapped_tools));
    }
    match obj.get("tool_choice") {
        Some(tool_choice) => {
            if !tool_choice.is_null() {
                out.put("tool_choice", map_anthropic_tool_choice(tool_choice));
            }
        },
        None => {
            if has_tools {
                out.insert("tool_choice", Json::text("auto"));
            }
        },
    }
    let request_stream = match obj.get_bool("stream") {
        Some(stream) => stream,
        None => true,
    };
    out.insert("stream", Json::Bool(true));
    out.insert("parallel_tool_calls", Json::Bool(true));
    out.insert("store", Json::Bool(false));
    out.insert("include", make_included());
    (Json::Object(out), request_stream)
}

/// `key` may be what `resolve` gives for a request and the model that it goes to.
pub open spec fn resolved_key<K: Fn(&JsonMap, &str) -> Option<String>>(
    resolve: K,
    request: Fields,
    key: Option<Seq<char>>,
) -> bool {
    exists|source: &JsonMap, model: &str, ret: Option<String>|
        {
            &&& source@ == request
            &&& model@ == upstream_model(request)
            &&& #[trigger] call_ensures(resolve, (source, model), ret)
            &&& opt_string(ret) == key
        }
}

/// `r` may come of the messages request that `body` holds.
pub open spec fn anthropic_converted<
    N: Fn(&str) -> Option<String>,
    K: Fn(&JsonMap, &str) -> Option<String>,
>(body: Seq<u8>, normalize: N, resolve: K, r: Outcome<(Seq<u8>, bool)>) -> bool {
    match json_read(body) {
        Some(JsonV::Object(request)) => match anthropic_input(request) {
            Ok(chat) => exists|effort: Option<Seq<char>>, key: Option<Seq<char>>|
                {
                    &&& #[trigger] normalized(normalize, nested_effort(request), effort)
                    &&& #[trigger] resolved_key(resolve, request, key)
                    &&& written(
                        Ok(
                            (
                                JsonV::Object(
                                    anthropic_fields(
                                        request,
                                        joined_instructions(chat.0),
                                        chat.1,
                                        effort,
                                        key,
                                    ),
                                ),
                                anthropic_stream(request),
                            ),
                        ),
                        r,
                    )
                },
            Err(e) => r == Outcome::<(Seq<u8>, bool)>::Err(e),
        },
        Some(_) => r == Outcome::<(Seq<u8>, bool)>::Err("anthropic request body must be an object"@),
        None => r == Outcome::<(Seq<u8>, bool)>::Err("invalid anthropic request json"@),
    }
}

/// Turns the bytes of a messages request into those of a Responses request, and says whether the
/// answer is wanted piece by piece. `normalize` brings a reasoning effort into normal form, and
/// `resolve_prompt_cache_key` finds the key under which the upstream keeps the prompt.
pub fn convert_anthropic_messages_request<
    N: Fn(&str) -> Option<String>,
    K: Fn(&JsonMap, &str) -> Option<String>,
>(body: &[u8], normalize: &N, resolve_prompt_cache_key: &K) -> (r: Result<(Vec<u8>, bool), String>)
    requires
        forall|arg: &str| call_requires(*normalize, (arg,)),
        forall|source: &JsonMap, model: &str| #[trigger]
            call_requires(*resolve_prompt_cache_key, (source, model)),
    ensures
        anthropic_converted(body@, *normalize, *resolve_prompt_cache_key, bytes_outcome(r)),
{
    let payload = match read_json(body) {
        Some(payload) => payload,
        None => return fail("invalid anthropic request json"),
    };
    let obj = match payload.as_object() {
        Some(obj) => obj,
        None => return fail("anthropic request body must be an object"),
    };
    let (instructions, input_items) = match collect_anthropic_input(obj) {
        Ok(converted) => converted,
        Err(e) => return Err(e),
    };
    let effort = normalize_named(normalize, get_nested_effort(obj));
    assert(normalized(*normalize, nested_effort(obj@), opt_string(effort)));
    let model = resolve_anthropic_upstream_model(obj);
    let cache_key = resolve_prompt_cache_key(obj, model.as_str());
    assert(resolved_key(*resolve_prompt_cache_key, obj@, opt_string(cache_key)));
    let (request, request_stream) = build_anthropic_request(
        obj,
        instructions,
        input_items,
        effort,
        cache_key,
    );
    Ok((write_json_bytes(&request), request_stream))
}

} // verus!
