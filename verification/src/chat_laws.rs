//! What the messages, the tools and the settings of an OpenAI chat request become, member by member.

use vstd::prelude::*;
use vstd::string::*;
use vstd::utf8::encode_utf8;

use crate::codec::{json_read, json_text};
use crate::items::{concat_parts, nested_effort, normalized, reasoning_object};
use crate::json::{Fields, JsonV, NumV};
use crate::openai_request::{
    assistant_items, assistant_items_made, assistant_text, chosen_effort, first_member, flat_effort,
    instruction_text, openai_converted, openai_message, openai_messages, openai_reasoning,
    openai_request, openai_request_choice, openai_request_tools, openai_tool, openai_tools,
    passed_on, text_block, tool_call_item, tool_calls_of, unsupported_chat_fields,
    unsupported_field_error, user_block, user_items, written, ChatState,
};
use crate::request_laws::lemma_first_member_found;
use crate::sequence::{
    gather, lemma_gather_flat, lemma_gather_ok, lemma_gather_ones, lemma_gathered_until, try_fold,
    Outcome,
};
use crate::text::{decimal, joined, trimmed};
use crate::words::{lemma_words, member, said, says, speaks};

verus! {

/// A chat of one message comes to what the message comes to.
proof fn lemma_one_message(message: JsonV)
    ensures
        openai_messages(seq![message]) == openai_message((Seq::empty(), Seq::empty()), message),
{
    let step = |state: ChatState, i: int, item: JsonV| openai_message(state, item);
    let all = seq![message];
    let init: ChatState = (Seq::empty(), Seq::empty());
    assert(all.drop_last().len() == 0);
    assert(try_fold(all.drop_last(), init, step) == Outcome::<ChatState>::Ok(init));
    assert(all.last() == message);
}

/// Something is left of `text` without the white space around it.
pub open spec fn shows(text: Seq<char>) -> bool {
    trimmed(text).len() > 0
}

/// A message of the Responses interface with one block of text.
pub open spec fn one_text(role: Seq<char>, kind: Seq<char>, text: Seq<char>) -> JsonV {
    JsonV::Object(
        map![
            "type"@ => JsonV::Str("message"@),
            "role"@ => JsonV::Str(role),
            "content"@ => JsonV::Array(
                seq![JsonV::Object(map!["type"@ => JsonV::Str(kind), "text"@ => JsonV::Str(text)])],
            ),
        ],
    )
}

/// A call of a function in the Responses interface.
pub open spec fn one_call(id: Seq<char>, name: Seq<char>, arguments: Seq<char>) -> JsonV {
    JsonV::Object(
        map![
            "type"@ => JsonV::Str("function_call"@),
            "call_id"@ => JsonV::Str(id),
            "name"@ => JsonV::Str(name),
            "arguments"@ => JsonV::Str(arguments),
        ],
    )
}

/// What a call of a function came to, in the Responses interface.
pub open spec fn one_output(id: Seq<char>, output: Seq<char>) -> JsonV {
    JsonV::Object(
        map![
            "type"@ => JsonV::Str("function_call_output"@),
            "call_id"@ => JsonV::Str(id),
            "output"@ => JsonV::Str(output),
        ],
    )
}

/// What a user says in one string is passed on without the white space around it; a string of
/// nothing but white space is not passed on.
pub proof fn lemma_user_string(message: Fields, text: Seq<char>)
    requires
        says(message, "role"@, "user"@),
        says(message, "content"@, text),
    ensures
        openai_messages(seq![JsonV::Object(message)]) == Outcome::<ChatState>::Ok(
            (
                Seq::empty(),
                if shows(text) {
                    seq![one_text("user"@, "input_text"@, trimmed(text))]
                } else {
                    Seq::empty()
                },
            ),
        ),
{
    lemma_words();
    lemma_one_message(JsonV::Object(message));
    let none = Seq::<JsonV>::empty();
    let item = one_text("user"@, "input_text"@, trimmed(text));
    assert(none + none =~= none);
    assert(none + seq![item] =~= seq![item]);
}

/// A block of text that is not blank.
pub open spec fn is_text(block: JsonV) -> bool {
    block matches JsonV::Object(fields) && says(fields, "type"@, "text"@) && speaks(
        fields,
        "text"@,
    ) && shows(said(fields, "text"@))
}

/// A block of text that is blank.
pub open spec fn is_blank_text(block: JsonV) -> bool {
    block matches JsonV::Object(fields) && says(fields, "type"@, "text"@) && !(speaks(
        fields,
        "text"@,
    ) && shows(said(fields, "text"@)))
}

/// A block with an image that has an address.
pub open spec fn is_image(block: JsonV) -> bool {
    block matches JsonV::Object(fields) && says(fields, "type"@, "image_url"@)
        && fields.contains_key("image_url"@) && fields["image_url"@] is Object && speaks(
        image_of(block),
        "url"@,
    ) && shows(said(image_of(block), "url"@))
}

/// The image of a block.
pub open spec fn image_of(block: JsonV) -> Fields {
    block->Object_0["image_url"@]->Object_0
}

/// What the i-th block of a user becomes: text without the white space around it, or an image with
/// its address and how closely to look at it.
pub open spec fn user_block_passed(block: JsonV, made: JsonV) -> bool {
    &&& is_text(block) ==> made == JsonV::Object(
        map![
            "type"@ => JsonV::Str("input_text"@),
            "text"@ => JsonV::Str(trimmed(said(block->Object_0, "text"@))),
        ],
    )
    &&& is_image(block) ==> {
        let image = image_of(block);
        let plain = map![
            "type"@ => JsonV::Str("input_image"@),
            "image_url"@ => JsonV::Str(trimmed(said(image, "url"@))),
        ];
        made == JsonV::Object(
            if speaks(image, "detail"@) && shows(said(image, "detail"@)) {
                plain.insert("detail"@, JsonV::Str(trimmed(said(image, "detail"@))))
            } else {
                plain
            },
        )
    }
}

/// The blocks of a user are passed on in one message, each as it is and in their order.
pub proof fn lemma_user_blocks(message: Fields, blocks: Seq<JsonV>)
    requires
        says(message, "role"@, "user"@),
        member(message, "content"@, JsonV::Array(blocks)),
        blocks.len() > 0,
        forall|i: int|
            0 <= i < blocks.len() ==> is_text(#[trigger] blocks[i]) || is_image(blocks[i]),
    ensures
        ({
            &&& openai_messages(seq![JsonV::Object(message)]) matches Ok((told, items))
            &&& told.len() == 0
            &&& items.len() == 1
            &&& items[0] matches JsonV::Object(made)
            &&& made.dom() == set!["type"@, "role"@, "content"@]
            &&& says(made, "type"@, "message"@)
            &&& says(made, "role"@, "user"@)
            &&& made["content"@] matches JsonV::Array(passed)
            &&& passed.len() == blocks.len()
            &&& forall|i: int|
                0 <= i < blocks.len() ==> user_block_passed(blocks[i], #[trigger] passed[i])
        }),
{
    lemma_words();
    lemma_one_message(JsonV::Object(message));
    let part = |i: int, item: JsonV| user_block(item);
    let each = |i: int| user_block(blocks[i])->Ok_0[0];
    assert forall|i: int| 0 <= i < blocks.len() implies part(i, #[trigger] blocks[i]) == Outcome::<
        Seq<JsonV>,
    >::Ok(seq![each(i)]) && user_block_passed(blocks[i], each(i)) by {
        assert(is_text(blocks[i]) || is_image(blocks[i]));
        assert(user_block(blocks[i]) matches Ok(made) && made.len() == 1);
        assert(user_block(blocks[i])->Ok_0 =~= seq![each(i)]);
    }
    lemma_gather_ones(blocks, part, each);
    let items = user_items(JsonV::Array(blocks))->Ok_0;
    assert(Seq::<JsonV>::empty() + items =~= items);
    assert(items[0]->Object_0.dom() =~= set!["type"@, "role"@, "content"@]);
}

/// A blank block of text among the blocks of a user makes no difference.
pub proof fn lemma_user_blank_block(
    message: Fields,
    plain: Fields,
    before: Seq<JsonV>,
    blank: JsonV,
    after: Seq<JsonV>,
)
    requires
        says(message, "role"@, "user"@),
        says(plain, "role"@, "user"@),
        member(message, "content"@, JsonV::Array(before + seq![blank] + after)),
        member(plain, "content"@, JsonV::Array(before + after)),
        is_blank_text(blank),
    ensures
        openai_messages(seq![JsonV::Object(message)]) == openai_messages(
            seq![JsonV::Object(plain)],
        ),
{
    lemma_words();
    lemma_one_message(JsonV::Object(message));
    lemma_one_message(JsonV::Object(plain));
    lemma_blank_block_adds_nothing(before, blank, after);
}

proof fn lemma_blank_block_adds_nothing(before: Seq<JsonV>, blank: JsonV, after: Seq<JsonV>)
    requires
        is_blank_text(blank),
    ensures
        gather(before + seq![blank] + after, |i: int, item: JsonV| user_block(item)) == gather(
            before + after,
            |i: int, item: JsonV| user_block(item),
        ),
    decreases after.len(),
{
    lemma_words();
    let part = |i: int, item: JsonV| user_block(item);
    let all = before + seq![blank] + after;
    let rest = before + after;
    if after.len() == 0 {
        assert(all.drop_last() =~= before);
        assert(rest =~= before);
        if let Ok(made) = gather(before, part) {
            assert(made + Seq::<JsonV>::empty() =~= made);
        }
    } else {
        lemma_blank_block_adds_nothing(before, blank, after.drop_last());
        assert(all.drop_last() =~= before + seq![blank] + after.drop_last());
        assert(rest.drop_last() =~= before + after.drop_last());
        assert(all.last() == after.last() && rest.last() == after.last());
    }
}

/// A tool call of an assistant that names its function.
pub open spec fn is_call(call: JsonV) -> bool {
    call matches JsonV::Object(fields) && fields.contains_key("function"@)
        && fields["function"@] is Object && speaks(function_of(call), "name"@) && shows(
        said(function_of(call), "name"@),
    )
}

/// The function of a tool call.
pub open spec fn function_of(call: JsonV) -> Fields {
    call->Object_0["function"@]->Object_0
}

/// What the call at place `i` becomes: a call with the same identifier, or a numbered one where it
/// has none, the name without the white space around it, and the arguments as they are.
pub open spec fn call_passed(call: JsonV, i: int, made: JsonV) -> bool {
    let fields = call->Object_0;
    let function = function_of(call);
    made == one_call(
        if speaks(fields, "id"@) {
            said(fields, "id"@)
        } else {
            "call_"@ + decimal(i as nat)
        },
        trimmed(said(function, "name"@)),
        if speaks(function, "arguments"@) {
            said(function, "arguments"@)
        } else if function.contains_key("arguments"@) {
            json_text(function["arguments"@])
        } else {
            "{}"@
        },
    )
}

/// What an assistant has said in one string is passed on without the white space around it, and
/// behind it each of its calls, in their order.
pub proof fn lemma_assistant_message(message: Fields, text: Seq<char>, calls: Seq<JsonV>)
    requires
        says(message, "role"@, "assistant"@),
        says(message, "content"@, text) || (text.len() == 0 && (!message.contains_key("content"@)
            || member(message, "content"@, JsonV::Null))),
        member(message, "tool_calls"@, JsonV::Array(calls)) || (calls.len() == 0
            && !message.contains_key("tool_calls"@) && !message.contains_key("function_call"@)),
        forall|i: int| 0 <= i < calls.len() ==> is_call(#[trigger] calls[i]),
    ensures
        ({
            let head: int = if shows(text) {
                1
            } else {
                0
            };
            &&& openai_messages(seq![JsonV::Object(message)]) matches Ok((told, items))
            &&& told.len() == 0
            &&& items.len() == head + calls.len()
            &&& shows(text) ==> items[0] == one_text("assistant"@, "output_text"@, trimmed(text))
            &&& forall|i: int|
                0 <= i < calls.len() ==> call_passed(#[trigger] calls[i], i, items[head + i])
        }),
{
    lemma_words();
    lemma_one_message(JsonV::Object(message));
    let part = |i: int, call: JsonV| tool_call_item(i, call);
    let each = |i: int| tool_call_item(i, calls[i])->Ok_0[0];
    assert forall|i: int| 0 <= i < calls.len() implies part(i, #[trigger] calls[i]) == Outcome::<
        Seq<JsonV>,
    >::Ok(seq![each(i)]) && call_passed(calls[i], i, each(i)) by {
        assert(is_call(calls[i]));
        assert(tool_call_item(i, calls[i])->Ok_0 =~= seq![each(i)]);
    }
    lemma_gather_ones(calls, part, each);
    if text.len() == 0 {
        assert(trimmed(text).len() == 0);
    }
}

/// A call in the older form, outside a list, is passed on like the one call of a list: with the
/// identifier that the message gives it.
pub proof fn lemma_assistant_older_call(message: Fields, function: Fields)
    requires
        says(message, "role"@, "assistant"@),
        !message.contains_key("content"@) || member(message, "content"@, JsonV::Null),
        !message.contains_key("tool_calls"@),
        member(message, "function_call"@, JsonV::Object(function)),
        speaks(function, "name"@),
        shows(said(function, "name"@)),
    ensures
        ({
            &&& openai_messages(seq![JsonV::Object(message)]) matches Ok((told, items))
            &&& told.len() == 0
            &&& items == seq![
                one_call(
                    if speaks(message, "tool_call_id"@) {
                        said(message, "tool_call_id"@)
                    } else {
                        "call_0"@
                    },
                    trimmed(said(function, "name"@)),
                    if speaks(function, "arguments"@) {
                        said(function, "arguments"@)
                    } else if function.contains_key("arguments"@) {
                        json_text(function["arguments"@])
                    } else {
                        "{}"@
                    },
                ),
            ]
        }),
{
    lemma_words();
    lemma_one_message(JsonV::Object(message));
    let calls = tool_calls_of(message);
    let part = |i: int, call: JsonV| tool_call_item(i, call);
    let each = |i: int| tool_call_item(i, calls[i])->Ok_0[0];
    assert(calls.len() == 1);
    assert(tool_call_item(0, calls[0])->Ok_0 =~= seq![each(0)]);
    lemma_gather_ones(calls, part, each);
    assert(trimmed(Seq::<char>::empty()).len() == 0);
    let items = openai_messages(seq![JsonV::Object(message)])->Ok_0.1;
    assert(items =~= seq![each(0)]);
}

/// Every block is a block of text, whatever the text.
pub open spec fn all_text(blocks: Seq<JsonV>) -> bool {
    forall|i: int|
        0 <= i < blocks.len() ==> (#[trigger] blocks[i] matches JsonV::Object(fields) && says(
            fields,
            "type"@,
            "text"@,
        ) && speaks(fields, "text"@))
}

/// The texts of blocks of text, one behind the other.
pub open spec fn whole_text(blocks: Seq<JsonV>) -> Seq<char> {
    Seq::new(blocks.len(), |i: int| said(blocks[i]->Object_0, "text"@)).flatten()
}

/// What an assistant or an instruction says in blocks of text counts as one string.
pub proof fn lemma_text_in_blocks(message: Fields, whole: Fields, blocks: Seq<JsonV>)
    requires
        all_text(blocks),
        member(message, "content"@, JsonV::Array(blocks)),
        whole == message.insert("content"@, JsonV::Str(whole_text(blocks))),
        says(message, "role"@, "assistant"@) || says(message, "role"@, "system"@) || says(
            message,
            "role"@,
            "developer"@,
        ),
    ensures
        openai_messages(seq![JsonV::Object(message)]) == openai_messages(
            seq![JsonV::Object(whole)],
        ),
{
    lemma_words();
    lemma_one_message(JsonV::Object(message));
    lemma_one_message(JsonV::Object(whole));
    let each = |i: int| said(blocks[i]->Object_0, "text"@);
    let spoken = |i: int, item: JsonV|
        text_block(
            item,
            "invalid openai assistant content item"@,
            "openai assistant text content missing text"@,
            "unsupported openai assistant content block type: "@,
        );
    let told = |i: int, item: JsonV|
        text_block(
            item,
            "invalid openai instruction content item"@,
            "openai text content missing text"@,
            "unsupported openai instruction content block type: "@,
        );
    lemma_gather_flat(blocks, spoken, each);
    lemma_gather_flat(blocks, told, each);
    assert(assistant_text(JsonV::Array(blocks)) == Outcome::<Seq<char>>::Ok(whole_text(blocks)));
    assert(instruction_text(JsonV::Array(blocks)) == Outcome::<Seq<char>>::Ok(whole_text(blocks)));
    assert(tool_calls_of(message) == tool_calls_of(whole));
}

/// An instruction is kept as it is; one of nothing but white space is left out.
pub proof fn lemma_instruction_string(message: Fields, text: Seq<char>)
    requires
        says(message, "role"@, "system"@) || says(message, "role"@, "developer"@),
        says(message, "content"@, text),
    ensures
        openai_messages(seq![JsonV::Object(message)]) == Outcome::<ChatState>::Ok(
            (
                if shows(text) {
                    seq![text]
                } else {
                    Seq::empty()
                },
                Seq::empty(),
            ),
        ),
{
    lemma_words();
    lemma_one_message(JsonV::Object(message));
    assert(Seq::<Seq<char>>::empty().push(text) =~= seq![text]);
}

/// A part of what a tool has answered, and what it is passed on as.
pub open spec fn answer_part(part: JsonV, text: Seq<char>) -> bool {
    match part {
        JsonV::Str(whole) => text == whole,
        JsonV::Object(fields) => if says(fields, "type"@, "text"@) && speaks(fields, "text"@) {
            says(fields, "text"@, text)
        } else {
            text == json_text(part)
        },
        _ => text == json_text(part),
    }
}

/// What a tool has answered is passed on as one string, to the call that the message names: a text
/// as it is and any other value as JSON; no answer is an empty one.
pub proof fn lemma_tool_message(message: Fields, id: Seq<char>, output: Seq<char>)
    requires
        says(message, "role"@, "tool"@),
        says(message, "tool_call_id"@, id),
        shows(id),
        if !message.contains_key("content"@) || message["content"@] is Null {
            output.len() == 0
        } else {
            !(message["content"@] is Array) && answer_part(message["content"@], output)
        },
    ensures
        openai_messages(seq![JsonV::Object(message)]) == Outcome::<ChatState>::Ok(
            (Seq::empty(), seq![one_output(trimmed(id), output)]),
        ),
{
    lemma_words();
    lemma_one_message(JsonV::Object(message));
    let items = openai_messages(seq![JsonV::Object(message)])->Ok_0.1;
    assert(output.len() == 0 ==> output =~= Seq::empty());
    assert(items =~= seq![one_output(trimmed(id), output)]);
}

/// What a tool has answered in a list is passed on as one string: texts as they are and other values
/// as JSON, one behind the other.
pub proof fn lemma_tool_parts(message: Fields, id: Seq<char>, parts: Seq<JsonV>, told: Seq<Seq<char>>)
    requires
        says(message, "role"@, "tool"@),
        says(message, "tool_call_id"@, id),
        shows(id),
        member(message, "content"@, JsonV::Array(parts)),
        told.len() == parts.len(),
        forall|i: int| 0 <= i < parts.len() ==> answer_part(parts[i], #[trigger] told[i]),
    ensures
        openai_messages(seq![JsonV::Object(message)]) == Outcome::<ChatState>::Ok(
            (Seq::empty(), seq![one_output(trimmed(id), told.flatten())]),
        ),
{
    lemma_words();
    lemma_one_message(JsonV::Object(message));
    lemma_parts_flat(parts, told);
    let items = openai_messages(seq![JsonV::Object(message)])->Ok_0.1;
    assert(items =~= seq![one_output(trimmed(id), told.flatten())]);
}

/// The parts of an answer come to their texts, one behind the other.
pub proof fn lemma_parts_flat(parts: Seq<JsonV>, told: Seq<Seq<char>>)
    requires
        told.len() == parts.len(),
        forall|i: int| 0 <= i < parts.len() ==> answer_part(parts[i], #[trigger] told[i]),
    ensures
        concat_parts(parts) == told.flatten(),
    decreases parts.len(),
{
    lemma_words();
    if parts.len() > 0 {
        let before = told.drop_last();
        assert forall|i: int| 0 <= i < parts.len() - 1 implies answer_part(
            parts.drop_last()[i],
            #[trigger] before[i],
        ) by {
            assert(answer_part(parts[i], told[i]));
        }
        lemma_parts_flat(parts.drop_last(), before);
        before.lemma_flatten_push(told.last());
        assert(before.push(told.last()) =~= told);
        assert(answer_part(parts.last(), told[told.len() - 1]));
    }
}

/// What stands under `key` is missing, null or a string.
pub open spec fn silent_or_string(message: Fields, key: Seq<char>) -> bool {
    !message.contains_key(key) || message[key] is Null || message[key] is Str
}

/// The calls of an assistant all name their functions.
pub open spec fn callable(message: Fields) -> bool {
    if message.contains_key("tool_calls"@) && message["tool_calls"@] is Array {
        forall|i: int|
            0 <= i < message["tool_calls"@]->Array_0.len() ==> is_call(
                #[trigger] message["tool_calls"@]->Array_0[i],
            )
    } else {
        message.contains_key("function_call"@) && message["function_call"@] is Object ==> speaks(
            message["function_call"@]->Object_0,
            "name"@,
        ) && shows(said(message["function_call"@]->Object_0, "name"@))
    }
}

/// A message that can be passed on.
pub open spec fn acceptable(message: JsonV) -> bool {
    &&& message matches JsonV::Object(fields)
    &&& speaks(fields, "role"@)
    &&& {
        let role = said(fields, "role"@);
        let content = fields["content"@];
        let listed = fields.contains_key("content"@) && content is Array;
        ||| (role == "system"@ || role == "developer"@) && (silent_or_string(fields, "content"@) || (
        listed && all_text(content->Array_0)))
        ||| role == "user"@ && (silent_or_string(fields, "content"@) || (listed && forall|i: int|
            0 <= i < content->Array_0.len() ==> is_text(#[trigger] content->Array_0[i])
                || is_blank_text(content->Array_0[i]) || is_image(content->Array_0[i])))
        ||| role == "assistant"@ && callable(fields) && (silent_or_string(fields, "content"@) || (
        listed && all_text(content->Array_0)))
        ||| role == "tool"@ && speaks(fields, "tool_call_id"@) && shows(
            said(fields, "tool_call_id"@),
        )
    }
}

/// Messages are passed on exactly if each of them can be: its role is known, and so is what it
/// brings.
pub proof fn lemma_accepted_messages(messages: Seq<JsonV>)
    ensures
        openai_messages(messages) is Ok <==> forall|i: int|
            0 <= i < messages.len() ==> acceptable(#[trigger] messages[i]),
    decreases messages.len(),
{
    if messages.len() > 0 {
        let rest = messages.drop_last();
        lemma_accepted_messages(rest);
        assert forall|i: int| 0 <= i < rest.len() implies rest[i] == #[trigger] messages[i] by {}
        assert(messages.last() == messages[messages.len() - 1]);
        if let Ok(state) = openai_messages(rest) {
            lemma_accepted_message(state, messages.last());
            if openai_messages(messages) is Ok {
                assert forall|i: int| 0 <= i < messages.len() implies acceptable(
                    #[trigger] messages[i],
                ) by {
                    if i < rest.len() {
                        assert(acceptable(rest[i]));
                    }
                }
            }
        } else {
            let i = choose|i: int| 0 <= i < rest.len() && !acceptable(#[trigger] rest[i]);
            assert(messages[i] == rest[i]);
        }
    }
}

proof fn lemma_accepted_message(state: ChatState, message: JsonV)
    ensures
        openai_message(state, message) is Ok <==> acceptable(message),
{
    lemma_words();
    if let JsonV::Object(fields) = message {
        let blocks = fields["content"@]->Array_0;
        let spoken = |i: int, item: JsonV|
            text_block(
                item,
                "invalid openai assistant content item"@,
                "openai assistant text content missing text"@,
                "unsupported openai assistant content block type: "@,
            );
        let told = |i: int, item: JsonV|
            text_block(
                item,
                "invalid openai instruction content item"@,
                "openai text content missing text"@,
                "unsupported openai instruction content block type: "@,
            );
        let shown = |i: int, item: JsonV| user_block(item);
        let called = |i: int, call: JsonV| tool_call_item(i, call);
        lemma_gather_ok(blocks, spoken);
        lemma_gather_ok(blocks, told);
        lemma_gather_ok(blocks, shown);
        lemma_gather_ok(tool_calls_of(fields), called);
        let calls = tool_calls_of(fields);
        assert forall|i: int| 0 <= i < calls.len() implies (called(i, calls[i]) is Ok <==> is_call(
            #[trigger] calls[i],
        )) by {}
        if !(fields.contains_key("tool_calls"@) && fields["tool_calls"@] is Array)
            && fields.contains_key("function_call"@) && fields["function_call"@] is Object {
            assert(calls.len() == 1);
            assert(is_call(calls[0]) <==> callable(fields));
        }
        assert((forall|i: int| 0 <= i < calls.len() ==> is_call(#[trigger] calls[i])) <==> callable(
            fields,
        ));
    }
}

/// The request has none of the members that have no counterpart.
pub open spec fn all_supported(request: Fields) -> bool {
    &&& !request.contains_key("audio"@)
    &&& !request.contains_key("modalities"@)
    &&& !request.contains_key("logprobs"@)
    &&& !request.contains_key("top_logprobs"@)
    &&& !request.contains_key("n"@)
    &&& !request.contains_key("temperature"@)
    &&& !request.contains_key("top_p"@)
    &&& !request.contains_key("presence_penalty"@)
    &&& !request.contains_key("frequency_penalty"@)
    &&& !request.contains_key("seed"@)
    &&& !request.contains_key("logit_bias"@)
    &&& !request.contains_key("response_format"@)
    &&& !request.contains_key("stop"@)
}

/// What stands under "type" is "function", where it is a string at all.
pub open spec fn is_of_functions(object: Fields) -> bool {
    speaks(object, "type"@) ==> said(object, "type"@) == "function"@
}

/// The object names a function.
pub open spec fn names_function(object: Fields) -> bool {
    object.contains_key("function"@) && object["function"@] is Object && speaks(
        object["function"@]->Object_0,
        "name"@,
    ) && shows(said(object["function"@]->Object_0, "name"@))
}

/// A tool that can be passed on.
pub open spec fn is_tool(tool: JsonV) -> bool {
    tool matches JsonV::Object(fields) && is_of_functions(fields) && names_function(fields)
}

/// No more tools than this are passed on.
pub open spec fn tool_limit() -> nat {
    16
}

/// The tools of the request that count can all be passed on.
pub open spec fn equipped(request: Fields) -> bool {
    request.contains_key("tools"@) ==> (request["tools"@] matches JsonV::Array(tools) && forall|
        i: int,
    |
        0 <= i < tools.len() && i < tool_limit() ==> is_tool(#[trigger] tools[i]))
}

/// The choice among the tools can be passed on.
pub open spec fn choosable(request: Fields) -> bool {
    request.contains_key("tool_choice"@) ==> {
        ||| request["tool_choice"@] is Null
        ||| request["tool_choice"@] is Str
        ||| request["tool_choice"@] matches JsonV::Object(choice) && is_of_functions(choice)
            && names_function(choice)
    }
}

/// A chat request is converted exactly if it asks for nothing that has no counterpart, names a model
/// and brings messages, tools and a choice that can be passed on.
pub proof fn lemma_accepted_request(request: Fields, reasoning: Option<JsonV>)
    ensures
        openai_request(request, reasoning) is Ok <==> {
            &&& all_supported(request)
            &&& speaks(request, "model"@) && shows(said(request, "model"@))
            &&& request.contains_key("messages"@)
            &&& request["messages"@] matches JsonV::Array(messages)
            &&& forall|i: int| 0 <= i < messages.len() ==> acceptable(#[trigger] messages[i])
            &&& equipped(request)
            &&& choosable(request)
        },
{
    lemma_words();
    lemma_supported(request);
    if request.contains_key("messages"@) && request["messages"@] is Array {
        lemma_accepted_messages(request["messages"@]->Array_0);
    }
    if request.contains_key("tools"@) && request["tools"@] is Array {
        let tools = request["tools"@]->Array_0;
        let part = |i: int, item: JsonV| openai_tool(item);
        lemma_gather_ok(passed_on(tools), part);
        assert forall|i: int| 0 <= i < passed_on(tools).len() implies (part(
            i,
            #[trigger] passed_on(tools)[i],
        ) is Ok <==> is_tool(tools[i])) by {}
        if openai_request_tools(request) is Ok {
            assert forall|i: int| 0 <= i < tools.len() && i < tool_limit() implies is_tool(
                #[trigger] tools[i],
            ) by {
                assert(passed_on(tools)[i] == tools[i]);
            }
        }
    }
    assert(openai_request_tools(request) is Ok <==> equipped(request));
    assert(openai_request_choice(request) is Ok <==> choosable(request));
}

proof fn lemma_supported(request: Fields)
    ensures
        unsupported_field_error(request) is None <==> all_supported(request),
{
    reveal_with_fuel(first_member, 14);
    let names = unsupported_chat_fields();
    assert(names.len() == 13);
    assert(forall|k: int| 0 <= k < 13 ==> request.contains_key(#[trigger] names[k])
        ==> first_member(request, names) is Some) by {
        assert forall|k: int| 0 <= k < 13 && request.contains_key(
            #[trigger] names[k],
        ) implies first_member(request, names) is Some by {
            lemma_first_member_found(request, names, names[k]);
        }
    }
    if let Some(name) = first_member(request, names) {
        lemma_first_member_is_one(request, names);
        let k = choose|k: int| 0 <= k < 13 && #[trigger] names[k] == name;
        assert(names[k] == name);
    }
    assert(names[0] == "audio"@);
    assert(names[1] == "modalities"@);
    assert(names[2] == "logprobs"@);
    assert(names[3] == "top_logprobs"@);
    assert(names[4] == "n"@);
    assert(names[5] == "temperature"@);
    assert(names[6] == "top_p"@);
    assert(names[7] == "presence_penalty"@);
    assert(names[8] == "frequency_penalty"@);
    assert(names[9] == "seed"@);
    assert(names[10] == "logit_bias"@);
    assert(names[11] == "response_format"@);
    assert(names[12] == "stop"@);
}

proof fn lemma_first_member_is_one(fields: Fields, names: Seq<Seq<char>>)
    requires
        first_member(fields, names) is Some,
    ensures
        names.contains(first_member(fields, names)->0),
        fields.contains_key(first_member(fields, names)->0),
    decreases names.len(),
{
    if !fields.contains_key(names[0]) {
        lemma_first_member_is_one(fields, names.drop_first());
        let name = first_member(fields, names)->0;
        let i = choose|i: int| 0 <= i < names.drop_first().len() && names.drop_first()[i] == name;
        assert(names[i + 1] == name);
    } else {
        assert(names[0] == first_member(fields, names)->0);
    }
}

/// What stands in every converted chat request, and under which conditions the rest does.
pub proof fn lemma_chat_request_members(request: Fields, reasoning: Option<JsonV>)
    requires
        openai_request(request, reasoning) is Ok,
    ensures
        ({
            let (value, streamed) = openai_request(request, reasoning)->Ok_0;
            let made = value->Object_0;
            let chat = openai_messages(request["messages"@]->Array_0)->Ok_0;
            &&& value is Object
            &&& openai_messages(request["messages"@]->Array_0) is Ok
            &&& member(made, "input"@, JsonV::Array(chat.1))
            &&& says(made, "instructions"@, joined(chat.0, "\n\n"@))
            &&& says(made, "model"@, trimmed(said(request, "model"@)))
            &&& member(
                made,
                "text"@,
                JsonV::Object(map!["format"@ => JsonV::Object(map!["type"@ => JsonV::Str("text"@)])]),
            )
            &&& member(
                made,
                "include"@,
                JsonV::Array(seq![JsonV::Str("reasoning.encrypted_content"@)]),
            )
            &&& member(made, "stream"@, JsonV::Bool(true))
            &&& member(made, "store"@, JsonV::Bool(false))
            &&& made.contains_key("reasoning"@) <==> reasoning is Some
            &&& reasoning matches Some(thought) ==> made["reasoning"@] == thought
            &&& streamed == member(request, "stream"@, JsonV::Bool(true))
            &&& made.contains_key("tools"@) <==> request.contains_key("tools"@)
                && request["tools"@]->Array_0.len() > 0
            &&& made.contains_key("tool_choice"@) <==> request.contains_key("tool_choice"@) && !(
            request["tool_choice"@] is Null)
            &&& if request.contains_key("parallel_tool_calls"@)
                && request["parallel_tool_calls"@] is Bool {
                member(made, "parallel_tool_calls"@, request["parallel_tool_calls"@])
            } else if made.contains_key("tools"@) {
                member(made, "parallel_tool_calls"@, JsonV::Bool(true))
            } else {
                !made.contains_key("parallel_tool_calls"@)
            }
            &&& made.dom().subset_of(
                set![
                    "model"@,
                    "instructions"@,
                    "text"@,
                    "reasoning"@,
                    "max_output_tokens"@,
                    "input"@,
                    "tools"@,
                    "tool_choice"@,
                    "parallel_tool_calls"@,
                    "stream"@,
                    "store"@,
                    "include"@,
                ],
            )
        }),
{
    lemma_words();
    lemma_accepted_request(request, reasoning);
    if request.contains_key("tools"@) {
        let tools = request["tools"@]->Array_0;
        lemma_tools_passed(tools);
    }
}

/// The limit on how much to answer is passed on, the newer of its two names first; one that is not
/// a positive number of 64 bits is left out.
pub proof fn lemma_chat_token_limit(request: Fields, reasoning: Option<JsonV>)
    requires
        openai_request(request, reasoning) is Ok,
    ensures
        ({
            let made = openai_request(request, reasoning)->Ok_0.0->Object_0;
            let given = if request.contains_key("max_completion_tokens"@) {
                request["max_completion_tokens"@]
            } else {
                request["max_tokens"@]
            };
            let limited = request.contains_key("max_completion_tokens"@) || request.contains_key(
                "max_tokens"@,
            );
            if limited && (given matches JsonV::Number(NumV::Int(n)) && 0 < n <= i64::MAX) {
                member(made, "max_output_tokens"@, given)
            } else {
                !made.contains_key("max_output_tokens"@)
            }
        }),
{
    lemma_words();
}

/// A tool, and what it is passed on as: its name without the white space around it, its description
/// where it has one, and the schema of its parameters, which allows any object where there is none.
pub open spec fn tool_made(
    object: Fields,
    name: Seq<char>,
    schema: Seq<char>,
    made: JsonV,
) -> bool {
    let named = map!["type"@ => JsonV::Str("function"@), "name"@ => JsonV::Str(trimmed(name))];
    let described = if speaks(object, "description"@) && said(object, "description"@).len() > 0 {
        named.insert("description"@, object["description"@])
    } else {
        named
    };
    made == JsonV::Object(
        described.insert(
            "parameters"@,
            if object.contains_key(schema) {
                object[schema]
            } else {
                JsonV::Object(
                    map![
                        "type"@ => JsonV::Str("object"@),
                        "properties"@ => JsonV::Object(Map::empty()),
                    ],
                )
            },
        ),
    )
}

proof fn lemma_tools_passed(tools: Seq<JsonV>)
    requires
        forall|i: int|
            0 <= i < tools.len() && i < tool_limit() ==> is_tool(#[trigger] tools[i]),
    ensures
        ({
            &&& openai_tools(JsonV::Array(tools)) matches Ok(made)
            &&& made.len() == (if tools.len() <= tool_limit() {
                tools.len()
            } else {
                tool_limit()
            })
            &&& forall|i: int|
                0 <= i < made.len() ==> tool_made(
                    tools[i]->Object_0["function"@]->Object_0,
                    said(tools[i]->Object_0["function"@]->Object_0, "name"@),
                    "parameters"@,
                    #[trigger] made[i],
                )
        }),
{
    lemma_words();
    let kept = passed_on(tools);
    let part = |i: int, item: JsonV| openai_tool(item);
    let each = |i: int| openai_tool(kept[i])->Ok_0[0];
    assert forall|i: int| 0 <= i < kept.len() implies part(i, #[trigger] kept[i]) == Outcome::<
        Seq<JsonV>,
    >::Ok(seq![each(i)]) && tool_made(
        tools[i]->Object_0["function"@]->Object_0,
        said(tools[i]->Object_0["function"@]->Object_0, "name"@),
        "parameters"@,
        each(i),
    ) by {
        assert(kept[i] == tools[i]);
        assert(is_tool(tools[i]));
        assert(openai_tool(kept[i])->Ok_0 =~= seq![each(i)]);
    }
    lemma_gather_ones(kept, part, each);
}

/// The first tools of a chat request, up to the limit, are passed on in their order.
pub proof fn lemma_chat_tools(request: Fields, reasoning: Option<JsonV>, tools: Seq<JsonV>)
    requires
        openai_request(request, reasoning) is Ok,
        member(request, "tools"@, JsonV::Array(tools)),
        tools.len() > 0,
    ensures
        ({
            let made = openai_request(request, reasoning)->Ok_0.0->Object_0;
            &&& made.contains_key("tools"@)
            &&& made["tools"@] matches JsonV::Array(passed)
            &&& passed.len() == (if tools.len() <= tool_limit() {
                tools.len()
            } else {
                tool_limit()
            })
            &&& forall|i: int|
                0 <= i < passed.len() ==> tool_made(
                    tools[i]->Object_0["function"@]->Object_0,
                    said(tools[i]->Object_0["function"@]->Object_0, "name"@),
                    "parameters"@,
                    #[trigger] passed[i],
                )
        }),
{
    lemma_words();
    lemma_accepted_request(request, reasoning);
    lemma_tools_passed(tools);
}

/// A choice in one word is passed on as it is, and the choice of a function by its name.
pub proof fn lemma_chat_tool_choice(request: Fields, reasoning: Option<JsonV>)
    requires
        openai_request(request, reasoning) is Ok,
        request.contains_key("tool_choice"@),
    ensures
        ({
            let made = openai_request(request, reasoning)->Ok_0.0->Object_0;
            let choice = request["tool_choice"@];
            &&& choice is Str ==> member(made, "tool_choice"@, choice)
            &&& choice matches JsonV::Object(object) ==> member(
                made,
                "tool_choice"@,
                JsonV::Object(
                    map![
                        "type"@ => JsonV::Str("function"@),
                        "name"@ => JsonV::Str(
                            trimmed(said(object["function"@]->Object_0, "name"@)),
                        ),
                    ],
                ),
            )
        }),
{
    lemma_words();
    lemma_accepted_request(request, reasoning);
}

/// Whatever `normalize` answers to `raw` is `answer`.
pub open spec fn answers<N: Fn(&str) -> Option<String>>(
    normalize: N,
    raw: Seq<char>,
    answer: Option<Seq<char>>,
) -> bool {
    forall|arg: &str, ret: Option<String>|
        arg@ == raw && #[trigger] call_ensures(normalize, (arg,), ret) ==> match ret {
            Some(text) => answer == Some(text@),
            None => answer is None,
        }
}

/// The effort that the reasoning of a request names, as `normalize` has it.
pub open spec fn named_effort<N: Fn(&str) -> Option<String>>(
    request: Fields,
    normalize: N,
    effort: Option<Seq<char>>,
) -> bool {
    if request.contains_key("reasoning"@) && request["reasoning"@] is Object && speaks(
        request["reasoning"@]->Object_0,
        "effort"@,
    ) {
        answers(normalize, said(request["reasoning"@]->Object_0, "effort"@), effort)
    } else {
        effort is None
    }
}

/// The body that a chat request is converted to holds what its members come to, and the effort that
/// it names: that of its reasoning first, and where `normalize` has none for it the one that the
/// request names by itself.
pub proof fn lemma_chat_body<N: Fn(&str) -> Option<String>>(
    body: Seq<u8>,
    request: Fields,
    normalize: N,
    nested: Option<Seq<char>>,
    flat: Option<Seq<char>>,
    r: Outcome<(Seq<u8>, bool)>,
)
    requires
        json_read(body) == Some(JsonV::Object(request)),
        named_effort(request, normalize, nested),
        if speaks(request, "reasoning_effort"@) {
            answers(normalize, said(request, "reasoning_effort"@), flat)
        } else {
            flat is None
        },
        openai_converted(body, normalize, r),
    ensures
        ({
            let effort = if nested is Some {
                nested
            } else {
                flat
            };
            let reasoning = match effort {
                Some(named) => Some(JsonV::Object(map!["effort"@ => JsonV::Str(named)])),
                None => None,
            };
            match openai_request(request, reasoning) {
                Ok((made, streamed)) => r == Outcome::<(Seq<u8>, bool)>::Ok(
                    (encode_utf8(json_text(made)), streamed),
                ),
                Err(e) => r == Outcome::<(Seq<u8>, bool)>::Err(e),
            }
        }),
{
    lemma_words();
    let thought = choose|thought: Option<JsonV>|
        #[trigger] openai_reasoning(request, normalize, thought) && written(
            openai_request(request, thought),
            r,
        );
    let effort = choose|effort: Option<Seq<char>>| #[trigger]
        chosen_effort(request, normalize, effort) && thought == (match effort {
            Some(e) => Some(reasoning_object(e)),
            None => None,
        });
    let found = choose|found: Option<Seq<char>>|
        {
            &&& #[trigger] normalized(normalize, nested_effort(request), found)
            &&& match found {
                Some(_) => effort == found,
                None => normalized(normalize, flat_effort(request), effort),
            }
        };
    assert(found == nested);
}

/// A chat request that is not JSON, or not an object, is refused.
pub proof fn lemma_chat_body_refused<N: Fn(&str) -> Option<String>>(
    body: Seq<u8>,
    normalize: N,
    r: Outcome<(Seq<u8>, bool)>,
)
    requires
        openai_converted(body, normalize, r),
    ensures
        r is Ok ==> json_read(body) matches Some(JsonV::Object(_)),
{
}

/// A user or an instruction that says nothing adds nothing.
pub proof fn lemma_silent_message(message: Fields)
    requires
        says(message, "role"@, "user"@) || says(message, "role"@, "system"@) || says(
            message,
            "role"@,
            "developer"@,
        ),
        !message.contains_key("content"@) || member(message, "content"@, JsonV::Null) || member(
            message,
            "content"@,
            JsonV::Array(Seq::empty()),
        ),
    ensures
        openai_messages(seq![JsonV::Object(message)]) == Outcome::<ChatState>::Ok(
            (Seq::empty(), Seq::empty()),
        ),
{
    lemma_words();
    lemma_one_message(JsonV::Object(message));
    let none = Seq::<JsonV>::empty();
    assert(none + none =~= none);
    assert(trimmed(Seq::<char>::empty()).len() == 0);
}

/// What an assistant has said before a call that is refused has been passed on, and so have the
/// calls before it, but neither that call nor any behind it.
pub proof fn lemma_assistant_stops_at_refused(
    message: Fields,
    content: JsonV,
    calls: Seq<JsonV>,
    k: int,
)
    requires
        member(message, "tool_calls"@, JsonV::Array(calls)),
        assistant_text(content) is Ok,
        0 <= k <= calls.len(),
        forall|i: int| 0 <= i < k ==> is_call(#[trigger] calls[i]),
        k < calls.len() ==> !is_call(calls[k]),
    ensures
        ({
            let sound = message.insert("tool_calls"@, JsonV::Array(calls.take(k)));
            &&& assistant_items(sound, content) is Ok
            &&& assistant_items_made(message, content) == assistant_items(sound, content)->Ok_0
        }),
{
    lemma_words();
    let part = |i: int, call: JsonV| tool_call_item(i, call);
    lemma_gather_ok(calls.take(k), part);
    assert forall|i: int| 0 <= i < k implies part(i, #[trigger] calls.take(k)[i]) is Ok by {
        assert(is_call(calls[i]));
    }
    lemma_gathered_until(calls, part, k);
}

} // verus!
