//! What the messages, the tools and the settings of an Anthropic messages request become, member by
//! member.

use vstd::prelude::*;
use vstd::string::*;
use vstd::utf8::encode_utf8;

use crate::anthropic_request::{
    anthropic_converted, anthropic_fields, anthropic_input, anthropic_item_text, anthropic_message,
    anthropic_request_tools, anthropic_stream, anthropic_system, anthropic_text, anthropic_tools,
    assistant_block, assistant_messages, chat_call_item, chat_input, chat_message_input, flushed,
    joined_instructions, resolved_key, tool_role_messages, upstream_model, user_message_block,
    user_messages, user_messages_made, AssistantState, UserState,
};
use crate::chat_laws::{
    all_text, answer_part, call_passed, function_of, is_call, lemma_parts_flat, named_effort,
    one_call, one_output, one_text, shows, tool_limit, tool_made, whole_text,
};
use crate::codec::{json_read, json_text};
use crate::items::{nested_effort, normalized, tool_result_text};
use crate::json::{field, Fields, JsonMap, JsonV};
use crate::openai_request::{written, ChatState};
use crate::request_laws::{
    chat_of, lemma_anthropic_input_parts, lemma_chat_does_not_instruct, lemma_chat_input_joined,
    lemma_chat_of_joined, lemma_no_instructions, with_messages,
};
use crate::sequence::{
    gather, lemma_gather_flat, lemma_gather_ok, lemma_gather_ones, lemma_reached_until,
    lemma_try_fold_prefix, try_fold, Outcome,
};
use crate::text::{ascii_lowered, decimal, has_part, has_prefix, joined, trimmed};
use crate::words::{lemma_words, member, said, says, speaks};

verus! {

/// What a request with nothing but this one message to pass on comes to.
pub open spec fn alone(request: Fields, message: Fields) -> Outcome<ChatState> {
    anthropic_input(with_messages(request, seq![JsonV::Object(message)]))
}

/// A request with nothing but one message comes to what the message comes to.
proof fn lemma_alone(request: Fields, message: Fields)
    requires
        !request.contains_key("system"@),
    ensures
        alone(request, message) == (match anthropic_message(JsonV::Object(message)) {
            Ok(chat) => chat_input(chat),
            Err(e) => Err(e),
        }),
{
    lemma_words();
    let all = seq![JsonV::Object(message)];
    let part = |i: int, item: JsonV| anthropic_message(item);
    assert(all.drop_last().len() == 0);
    assert(gather(all.drop_last(), part) == Outcome::<Seq<JsonV>>::Ok(Seq::empty()));
    assert(all.last() == JsonV::Object(message));
    if let Ok(chat) = anthropic_message(JsonV::Object(message)) {
        assert(Seq::<JsonV>::empty() + chat =~= chat);
        assert(Seq::<JsonV>::empty() + (Seq::<JsonV>::empty() + chat) =~= chat);
    }
}

proof fn lemma_chat_of_one(message: JsonV)
    ensures
        chat_input(seq![message]) == chat_message_input((Seq::empty(), Seq::empty()), message),
{
    let step = |state: ChatState, i: int, item: JsonV| chat_message_input(state, item);
    let all = seq![message];
    let init: ChatState = (Seq::empty(), Seq::empty());
    assert(all.drop_last().len() == 0);
    assert(try_fold(all.drop_last(), init, step) == Outcome::<ChatState>::Ok(init));
    assert(all.last() == message);
}

/// What a user or an assistant says in one string is passed on without the white space around it; a
/// string of nothing but white space is not passed on.
pub proof fn lemma_string_message(request: Fields, message: Fields, text: Seq<char>)
    requires
        !request.contains_key("system"@),
        says(message, "role"@, "user"@) || says(message, "role"@, "assistant"@),
        says(message, "content"@, text),
    ensures
        alone(request, message) == Outcome::<ChatState>::Ok(
            (
                Seq::empty(),
                if !shows(text) {
                    Seq::empty()
                } else if says(message, "role"@, "user"@) {
                    seq![one_text("user"@, "input_text"@, trimmed(text))]
                } else {
                    seq![one_text("assistant"@, "output_text"@, trimmed(text))]
                },
            ),
        ),
{
    lemma_words();
    lemma_alone(request, message);
    let chat = anthropic_message(JsonV::Object(message))->Ok_0;
    let none = Seq::<JsonV>::empty();
    if chat.len() > 0 {
        assert(chat =~= seq![chat[0]]);
        lemma_chat_of_one(chat[0]);
    }
    assert(none + none =~= none);
    let user = one_text("user"@, "input_text"@, trimmed(text));
    let assistant = one_text("assistant"@, "output_text"@, trimmed(text));
    assert(none + seq![user] =~= seq![user]);
    assert(seq![assistant] + none =~= seq![assistant]);
    assert(none + seq![assistant] =~= seq![assistant]);
}

/// What the blocks of an assistant come to.
spec fn assistant_fold(blocks: Seq<JsonV>) -> Outcome<AssistantState> {
    try_fold(
        blocks,
        (Seq::empty(), Seq::empty()),
        |state: AssistantState, i: int, item: JsonV| assistant_block(state, item),
    )
}

proof fn lemma_assistant_input(
    request: Fields,
    message: Fields,
    blocks: Seq<JsonV>,
    text: Seq<char>,
    calls: Seq<JsonV>,
)
    requires
        !request.contains_key("system"@),
        says(message, "role"@, "assistant"@),
        member(message, "content"@, JsonV::Array(blocks)),
        assistant_fold(blocks) == Outcome::<AssistantState>::Ok((text, calls)),
        forall|i: int| 0 <= i < calls.len() ==> is_call(#[trigger] calls[i]),
    ensures
        ({
            let head: int = if shows(text) {
                1
            } else {
                0
            };
            &&& alone(request, message) matches Ok((told, items))
            &&& told.len() == 0
            &&& items.len() == head + calls.len()
            &&& shows(text) ==> items[0] == one_text("assistant"@, "output_text"@, trimmed(text))
            &&& forall|i: int|
                0 <= i < calls.len() ==> call_passed(#[trigger] calls[i], i, items[head + i])
        }),
{
    lemma_words();
    lemma_alone(request, message);
    let chat = anthropic_message(JsonV::Object(message))->Ok_0;
    assert(assistant_messages(JsonV::Array(blocks)) is Ok);
    assert(chat =~= seq![chat[0]]);
    lemma_chat_of_one(chat[0]);
    let part = |i: int, call: JsonV| chat_call_item(i, call);
    let each = |i: int| chat_call_item(i, calls[i])->Ok_0[0];
    assert forall|i: int| 0 <= i < calls.len() implies part(i, #[trigger] calls[i]) == Outcome::<
        Seq<JsonV>,
    >::Ok(seq![each(i)]) && call_passed(calls[i], i, each(i)) by {
        assert(is_call(calls[i]));
        assert(chat_call_item(i, calls[i])->Ok_0 =~= seq![each(i)]);
    }
    lemma_gather_ones(calls, part, each);
}

/// A use of a tool by an assistant, with its name.
pub open spec fn is_use(block: JsonV) -> bool {
    block matches JsonV::Object(fields) && says(fields, "type"@, "tool_use"@) && speaks(
        fields,
        "name"@,
    ) && shows(said(fields, "name"@))
}

/// The call that the use of a tool becomes, `earlier` uses being before it in the message: it has
/// the identifier of the use, or a numbered one where it has none, and the input as JSON.
pub open spec fn use_passed(block: JsonV, earlier: nat) -> JsonV {
    let fields = block->Object_0;
    one_call(
        if speaks(fields, "id"@) {
            said(fields, "id"@)
        } else {
            "toolu_"@ + decimal(earlier)
        },
        trimmed(said(fields, "name"@)),
        json_text(
            if fields.contains_key("input"@) {
                fields["input"@]
            } else {
                JsonV::Object(Map::empty())
            },
        ),
    )
}

/// The texts of an assistant are passed on as one message without the white space around it, and
/// each use of a tool behind it as a call, in their order.
pub proof fn lemma_assistant_blocks(
    request: Fields,
    message: Fields,
    spoken: Seq<JsonV>,
    uses: Seq<JsonV>,
)
    requires
        !request.contains_key("system"@),
        says(message, "role"@, "assistant"@),
        member(message, "content"@, JsonV::Array(spoken + uses)),
        all_text(spoken),
        forall|i: int| 0 <= i < uses.len() ==> is_use(#[trigger] uses[i]),
    ensures
        alone(request, message) == Outcome::<ChatState>::Ok(
            (
                Seq::empty(),
                (if shows(whole_text(spoken)) {
                    seq![one_text("assistant"@, "output_text"@, trimmed(whole_text(spoken)))]
                } else {
                    Seq::empty()
                }) + Seq::new(uses.len(), |i: int| use_passed(uses[i], i as nat)),
            ),
        ),
{
    lemma_words();
    lemma_spoken_fold(spoken);
    lemma_uses_fold(spoken, uses);
    let (text, calls) = assistant_fold(spoken + uses)->Ok_0;
    lemma_assistant_input(request, message, spoken + uses, text, calls);
    let items = alone(request, message)->Ok_0.1;
    let head = if shows(text) {
        seq![one_text("assistant"@, "output_text"@, trimmed(text))]
    } else {
        Seq::empty()
    };
    let passed = Seq::new(uses.len(), |i: int| use_passed(uses[i], i as nat));
    assert forall|i: int| 0 <= i < items.len() implies items[i] == (head + passed)[i] by {
        if i >= head.len() {
            let k = i - head.len();
            assert(call_passed(calls[k], k, items[head.len() + k]));
        }
    }
    assert(items =~= head + passed);
    assert(alone(request, message)->Ok_0.0 =~= Seq::<Seq<char>>::empty());
}

proof fn lemma_spoken_fold(spoken: Seq<JsonV>)
    requires
        all_text(spoken),
    ensures
        assistant_fold(spoken) == Outcome::<AssistantState>::Ok(
            (whole_text(spoken), Seq::empty()),
        ),
    decreases spoken.len(),
{
    lemma_words();
    if spoken.len() == 0 {
        assert(whole_text(spoken) =~= Seq::empty());
    } else {
        let rest = spoken.drop_last();
        lemma_spoken_fold(rest);
        let each = |i: int| said(spoken[i]->Object_0, "text"@);
        let before = Seq::new(rest.len(), |i: int| said(rest[i]->Object_0, "text"@));
        before.lemma_flatten_push(each(spoken.len() - 1));
        assert(before.push(each(spoken.len() - 1)) =~= Seq::new(
            spoken.len(),
            |i: int| said(spoken[i]->Object_0, "text"@),
        ));
        assert(spoken.last() == spoken[spoken.len() - 1]);
    }
}

/// A call as an assistant makes it.
spec fn called(call: JsonV, block: JsonV, i: nat) -> bool {
    &&& is_call(call)
    &&& speaks(call->Object_0, "id"@)
    &&& speaks(function_of(call), "arguments"@)
    &&& use_passed(block, i) == one_call(
        said(call->Object_0, "id"@),
        trimmed(said(function_of(call), "name"@)),
        said(function_of(call), "arguments"@),
    )
}

proof fn lemma_uses_fold(spoken: Seq<JsonV>, uses: Seq<JsonV>)
    requires
        assistant_fold(spoken) == Outcome::<AssistantState>::Ok(
            (whole_text(spoken), Seq::empty()),
        ),
        forall|i: int| 0 <= i < uses.len() ==> is_use(#[trigger] uses[i]),
    ensures
        ({
            &&& assistant_fold(spoken + uses) matches Ok((text, calls))
            &&& text == whole_text(spoken)
            &&& calls.len() == uses.len()
            &&& forall|i: int| 0 <= i < uses.len() ==> called(#[trigger] calls[i], uses[i], i as nat)
        }),
    decreases uses.len(),
{
    lemma_words();
    let all = spoken + uses;
    if uses.len() == 0 {
        assert(all =~= spoken);
    } else {
        let rest = uses.drop_last();
        lemma_uses_fold(spoken, rest);
        assert(all.drop_last() =~= spoken + rest);
        assert(all.last() == uses.last());
        let before = assistant_fold(spoken + rest)->Ok_0.1;
        let calls = assistant_fold(all)->Ok_0.1;
        assert(is_use(uses[uses.len() - 1]));
        assert(calls =~= before.push(calls.last()));
        assert forall|i: int| 0 <= i < uses.len() implies called(
            #[trigger] calls[i],
            uses[i],
            i as nat,
        ) by {
            if i < rest.len() {
                assert(called(before[i], rest[i], i as nat));
            }
        }
    }
}

/// A block that has nothing to pass on: it has a kind, but it is neither a text nor a use of a tool
/// by its name.
pub open spec fn is_idle(block: JsonV) -> bool {
    block matches JsonV::Object(fields) && speaks(fields, "type"@) && !(says(
        fields,
        "type"@,
        "text"@,
    ) && speaks(fields, "text"@)) && !is_use(block)
}

/// A block of an assistant that has nothing to pass on makes no difference.
pub proof fn lemma_assistant_idle_block(
    request: Fields,
    message: Fields,
    before: Seq<JsonV>,
    idle: JsonV,
    after: Seq<JsonV>,
)
    requires
        !request.contains_key("system"@),
        says(message, "role"@, "assistant"@),
        member(message, "content"@, JsonV::Array(before + seq![idle] + after)),
        is_idle(idle),
    ensures
        alone(request, message) == alone(
            request,
            message.insert("content"@, JsonV::Array(before + after)),
        ),
{
    lemma_words();
    lemma_alone(request, message);
    lemma_alone(request, message.insert("content"@, JsonV::Array(before + after)));
    lemma_idle_fold(before, idle, after);
}

proof fn lemma_idle_fold(before: Seq<JsonV>, idle: JsonV, after: Seq<JsonV>)
    requires
        is_idle(idle),
    ensures
        assistant_fold(before + seq![idle] + after) == assistant_fold(before + after),
    decreases after.len(),
{
    lemma_words();
    let all = before + seq![idle] + after;
    let rest = before + after;
    if after.len() == 0 {
        assert(all.drop_last() =~= before);
        assert(rest =~= before);
        if let Ok((text, _)) = assistant_fold(before) {
            assert(text + Seq::<char>::empty() =~= text);
        }
    } else {
        lemma_idle_fold(before, idle, after.drop_last());
        assert(all.drop_last() =~= before + seq![idle] + after.drop_last());
        assert(rest.drop_last() =~= before + after.drop_last());
    }
}

/// It makes no difference whether an assistant says something before or after it uses a tool.
pub proof fn lemma_assistant_blocks_swapped(
    request: Fields,
    message: Fields,
    before: Seq<JsonV>,
    used: JsonV,
    spoken: JsonV,
    after: Seq<JsonV>,
)
    requires
        !request.contains_key("system"@),
        says(message, "role"@, "assistant"@),
        member(message, "content"@, JsonV::Array(before + seq![used, spoken] + after)),
        is_use(used),
        all_text(seq![spoken]),
    ensures
        alone(request, message) == alone(
            request,
            message.insert("content"@, JsonV::Array(before + seq![spoken, used] + after)),
        ),
{
    lemma_words();
    lemma_alone(request, message);
    lemma_alone(
        request,
        message.insert("content"@, JsonV::Array(before + seq![spoken, used] + after)),
    );
    lemma_swapped_fold(before, used, spoken, after);
}

proof fn lemma_swapped_fold(before: Seq<JsonV>, used: JsonV, spoken: JsonV, after: Seq<JsonV>)
    requires
        is_use(used),
        all_text(seq![spoken]),
    ensures
        assistant_fold(before + seq![used, spoken] + after) == assistant_fold(
            before + seq![spoken, used] + after,
        ),
    decreases after.len(),
{
    lemma_words();
    let one = before + seq![used, spoken] + after;
    let other = before + seq![spoken, used] + after;
    if after.len() == 0 {
        assert(seq![spoken][0] == spoken);
        assert(one.drop_last() =~= before.push(used));
        assert(other.drop_last() =~= before.push(spoken));
        assert(one.last() == spoken && other.last() == used);
        assert(before.push(used).drop_last() =~= before);
        assert(before.push(spoken).drop_last() =~= before);
        assert(before.push(used).last() == used && before.push(spoken).last() == spoken);
        assert(assistant_fold(one) == (match assistant_fold(before.push(used)) {
            Ok(state) => assistant_block(state, spoken),
            Err(e) => Err(e),
        }));
        assert(assistant_fold(other) == (match assistant_fold(before.push(spoken)) {
            Ok(state) => assistant_block(state, used),
            Err(e) => Err(e),
        }));
    } else {
        lemma_swapped_fold(before, used, spoken, after.drop_last());
        assert(one.drop_last() =~= before + seq![used, spoken] + after.drop_last());
        assert(other.drop_last() =~= before + seq![spoken, used] + after.drop_last());
    }
}

/// A block outside a list counts like a list of one block.
pub proof fn lemma_block_outside_list(request: Fields, message: Fields, block: Fields)
    requires
        !request.contains_key("system"@),
        says(message, "role"@, "assistant"@) || says(message, "role"@, "user"@),
        member(message, "content"@, JsonV::Object(block)),
    ensures
        alone(request, message) == alone(
            request,
            message.insert("content"@, JsonV::Array(seq![JsonV::Object(block)])),
        ),
{
    lemma_words();
    lemma_alone(request, message);
    lemma_alone(
        request,
        message.insert("content"@, JsonV::Array(seq![JsonV::Object(block)])),
    );
}

/// What the blocks of a user come to.
spec fn user_fold(blocks: Seq<JsonV>) -> Outcome<UserState> {
    try_fold(
        blocks,
        (Seq::empty(), Seq::empty()),
        |state: UserState, i: int, item: JsonV| user_message_block(state, item),
    )
}

/// What a user says in blocks of text counts as one string.
pub proof fn lemma_user_text_blocks(request: Fields, message: Fields, blocks: Seq<JsonV>)
    requires
        !request.contains_key("system"@),
        says(message, "role"@, "user"@),
        member(message, "content"@, JsonV::Array(blocks)),
        all_text(blocks),
    ensures
        alone(request, message) == alone(
            request,
            message.insert("content"@, JsonV::Str(whole_text(blocks))),
        ),
{
    lemma_words();
    lemma_alone(request, message);
    lemma_alone(request, message.insert("content"@, JsonV::Str(whole_text(blocks))));
    lemma_user_text_fold(blocks);
    let text = whole_text(blocks);
    let said = user_messages(JsonV::Array(blocks))->Ok_0;
    let told = user_messages(JsonV::Str(text))->Ok_0;
    assert(said =~= told);
}

proof fn lemma_user_text_fold(blocks: Seq<JsonV>)
    requires
        all_text(blocks),
    ensures
        user_fold(blocks) == Outcome::<UserState>::Ok((Seq::empty(), whole_text(blocks))),
    decreases blocks.len(),
{
    lemma_words();
    if blocks.len() == 0 {
        assert(whole_text(blocks) =~= Seq::empty());
    } else {
        let rest = blocks.drop_last();
        lemma_user_text_fold(rest);
        let each = |i: int| said(blocks[i]->Object_0, "text"@);
        let before = Seq::new(rest.len(), |i: int| said(rest[i]->Object_0, "text"@));
        before.lemma_flatten_push(each(blocks.len() - 1));
        assert(before.push(each(blocks.len() - 1)) =~= Seq::new(
            blocks.len(),
            |i: int| said(blocks[i]->Object_0, "text"@),
        ));
        assert(blocks.last() == blocks[blocks.len() - 1]);
    }
}

/// A block of a user that has nothing to pass on: it has a kind, but it is neither a text nor the
/// result of a tool.
pub open spec fn is_unknown(block: JsonV) -> bool {
    block matches JsonV::Object(fields) && speaks(fields, "type"@) && !(says(
        fields,
        "type"@,
        "text"@,
    ) && speaks(fields, "text"@)) && !says(fields, "type"@, "tool_result"@)
}

/// A block of a user that has nothing to pass on makes no difference.
pub proof fn lemma_user_unknown_block(
    request: Fields,
    message: Fields,
    before: Seq<JsonV>,
    unknown: JsonV,
    after: Seq<JsonV>,
)
    requires
        !request.contains_key("system"@),
        says(message, "role"@, "user"@),
        member(message, "content"@, JsonV::Array(before + seq![unknown] + after)),
        is_unknown(unknown),
    ensures
        alone(request, message) == alone(
            request,
            message.insert("content"@, JsonV::Array(before + after)),
        ),
{
    lemma_words();
    lemma_alone(request, message);
    lemma_alone(request, message.insert("content"@, JsonV::Array(before + after)));
    lemma_unknown_fold(before, unknown, after);
}

proof fn lemma_unknown_fold(before: Seq<JsonV>, unknown: JsonV, after: Seq<JsonV>)
    requires
        is_unknown(unknown),
    ensures
        user_fold(before + seq![unknown] + after) == user_fold(before + after),
    decreases after.len(),
{
    lemma_words();
    let all = before + seq![unknown] + after;
    let rest = before + after;
    if after.len() == 0 {
        assert(all.drop_last() =~= before);
        assert(rest =~= before);
        if let Ok((_, text)) = user_fold(before) {
            assert(text + Seq::<char>::empty() =~= text);
        }
    } else {
        lemma_unknown_fold(before, unknown, after.drop_last());
        assert(all.drop_last() =~= before + seq![unknown] + after.drop_last());
        assert(rest.drop_last() =~= before + after.drop_last());
    }
}

/// What a tool came to, as a user reports it.
pub open spec fn is_result(block: JsonV) -> bool {
    block matches JsonV::Object(fields) && says(fields, "type"@, "tool_result"@)
}

/// The identifier of the use that a result belongs to; empty where there is none.
pub open spec fn used_id(result: Fields) -> Seq<char> {
    if speaks(result, "tool_use_id"@) {
        said(result, "tool_use_id"@)
    } else if speaks(result, "id"@) {
        said(result, "id"@)
    } else {
        Seq::empty()
    }
}

/// What the content under `key` comes to as one string, with `told` for its parts where it is a
/// list.
pub open spec fn answer_text(
    object: Fields,
    key: Seq<char>,
    told: Seq<Seq<char>>,
    text: Seq<char>,
) -> bool {
    if !object.contains_key(key) || object[key] is Null {
        text.len() == 0
    } else if let JsonV::Array(parts) = object[key] {
        &&& told.len() == parts.len()
        &&& forall|i: int| 0 <= i < parts.len() ==> answer_part(parts[i], #[trigger] told[i])
        &&& text == told.flatten()
    } else {
        answer_part(object[key], text)
    }
}

/// The result of a tool is passed on to the use that it belongs to, marked where it is a failure.
pub proof fn lemma_user_result(
    request: Fields,
    message: Fields,
    result: Fields,
    told: Seq<Seq<char>>,
    text: Seq<char>,
)
    requires
        !request.contains_key("system"@),
        says(message, "role"@, "user"@),
        member(message, "content"@, JsonV::Array(seq![JsonV::Object(result)])),
        says(result, "type"@, "tool_result"@),
        answer_text(result, "content"@, told, text),
    ensures
        shows(used_id(result)) ==> alone(request, message) == Outcome::<ChatState>::Ok(
            (
                Seq::empty(),
                seq![
                    one_output(
                        trimmed(used_id(result)),
                        if member(result, "is_error"@, JsonV::Bool(true)) {
                            "[tool_error] "@ + text
                        } else {
                            text
                        },
                    ),
                ],
            ),
        ),
        used_id(result).len() == 0 ==> alone(request, message) == Outcome::<ChatState>::Ok(
            (Seq::empty(), Seq::empty()),
        ),
{
    lemma_words();
    lemma_alone(request, message);
    lemma_answer_text(result, "content"@, told, text);
    let blocks = seq![JsonV::Object(result)];
    assert(blocks.drop_last().len() == 0);
    assert(user_fold(blocks.drop_last()) == Outcome::<UserState>::Ok(
        (Seq::empty(), Seq::empty()),
    ));
    assert(blocks.last() == JsonV::Object(result));
    assert(trimmed(Seq::<char>::empty()).len() == 0);
    assert(user_messages(JsonV::Array(blocks)) is Ok);
    let chat = user_messages(JsonV::Array(blocks))->Ok_0;
    if used_id(result).len() > 0 {
        assert(chat =~= seq![chat[0]]);
        lemma_chat_of_one(chat[0]);
        if shows(used_id(result)) {
            let items = alone(request, message)->Ok_0.1;
            assert(items =~= seq![items[0]]);
        }
    } else {
        assert(chat =~= Seq::empty());
    }
}

proof fn lemma_answer_text(
    object: Fields,
    key: Seq<char>,
    told: Seq<Seq<char>>,
    text: Seq<char>,
)
    requires
        answer_text(object, key, told, text),
    ensures
        tool_result_text(field(object, key)) == text,
{
    lemma_words();
    if object.contains_key(key) {
        if let JsonV::Array(parts) = object[key] {
            lemma_parts_flat(parts, told);
        }
    }
    assert(text.len() == 0 ==> text =~= Seq::empty());
}

/// The result of a tool ends what a user said before it: the blocks before it, the result and the
/// blocks behind it count like three messages.
pub proof fn lemma_user_blocks_split(
    request: Fields,
    message: Fields,
    before: Seq<JsonV>,
    result: JsonV,
    after: Seq<JsonV>,
)
    requires
        !request.contains_key("system"@),
        says(message, "role"@, "user"@),
        member(message, "content"@, JsonV::Array(before + seq![result] + after)),
        is_result(result),
        alone(request, message.insert("content"@, JsonV::Array(before))) is Ok,
        alone(request, message.insert("content"@, JsonV::Array(seq![result]))) is Ok,
        alone(request, message.insert("content"@, JsonV::Array(after))) is Ok,
    ensures
        ({
            let first = alone(request, message.insert("content"@, JsonV::Array(before)))->Ok_0;
            let second = alone(
                request,
                message.insert("content"@, JsonV::Array(seq![result])),
            )->Ok_0;
            let third = alone(request, message.insert("content"@, JsonV::Array(after)))->Ok_0;
            alone(request, message) == Outcome::<ChatState>::Ok(
                (Seq::empty(), first.1 + second.1 + third.1),
            )
        }),
{
    lemma_words();
    lemma_alone(request, message);
    lemma_alone(request, message.insert("content"@, JsonV::Array(before)));
    lemma_alone(request, message.insert("content"@, JsonV::Array(seq![result])));
    lemma_alone(request, message.insert("content"@, JsonV::Array(after)));
    lemma_split_fold(before, result, after);
    let a = user_messages(JsonV::Array(before))->Ok_0;
    let b = user_messages(JsonV::Array(seq![result]))->Ok_0;
    let c = user_messages(JsonV::Array(after))->Ok_0;
    lemma_chat_input_joined(a, b);
    lemma_chat_input_joined(a + b, c);
    lemma_user_does_not_instruct(message.insert("content"@, JsonV::Array(before)));
    lemma_user_does_not_instruct(message.insert("content"@, JsonV::Array(seq![result])));
    lemma_user_does_not_instruct(message.insert("content"@, JsonV::Array(after)));
    let made = alone(request, message)->Ok_0;
    assert(made.0 =~= Seq::<Seq<char>>::empty());
}

proof fn lemma_split_fold(before: Seq<JsonV>, result: JsonV, after: Seq<JsonV>)
    requires
        is_result(result),
        user_fold(before) is Ok,
        user_fold(after) is Ok,
    ensures
        ({
            let a = flushed(user_fold(before)->Ok_0).0;
            let b = user_fold(seq![result])->Ok_0.0;
            let c = user_fold(after)->Ok_0;
            &&& user_fold(seq![result]) matches Ok(state)
            &&& state.1.len() == 0
            &&& user_fold(before + seq![result] + after) == Outcome::<UserState>::Ok(
                (a + b + c.0, c.1),
            )
        }),
    decreases after.len(),
{
    lemma_words();
    let one = seq![result];
    assert(one.drop_last().len() == 0);
    assert(user_fold(one.drop_last()) == Outcome::<UserState>::Ok((Seq::empty(), Seq::empty())));
    assert(one.last() == result);
    assert(trimmed(Seq::<char>::empty()).len() == 0);
    let all = before + one + after;
    let a = flushed(user_fold(before)->Ok_0).0;
    let b = user_fold(one)->Ok_0.0;
    if after.len() == 0 {
        assert(all.drop_last() =~= before);
        assert(all.last() == result);
        assert(user_fold(all)->Ok_0.0 =~= a + b + user_fold(after)->Ok_0.0);
        assert(user_fold(all)->Ok_0.1 =~= user_fold(after)->Ok_0.1);
    } else {
        assert(user_fold(after.drop_last()) is Ok);
        lemma_split_fold(before, result, after.drop_last());
        assert(all.drop_last() =~= before + one + after.drop_last());
        assert(all.last() == after.last());
        let c = user_fold(after.drop_last())->Ok_0;
        let state: UserState = (a + b + c.0, c.1);
        assert(flushed(state).0 =~= a + b + flushed(c).0);
        assert(user_fold(all)->Ok_0.0 =~= a + b + user_fold(after)->Ok_0.0);
    }
}

proof fn lemma_user_does_not_instruct(message: Fields)
    requires
        says(message, "role"@, "user"@),
        message.contains_key("content"@),
    ensures
        anthropic_message(JsonV::Object(message)) matches Ok(chat) ==> (chat_input(
            chat,
        ) matches Ok(state) ==> state.0.len() == 0),
{
    let all = seq![JsonV::Object(message)];
    let part = |i: int, item: JsonV| anthropic_message(item);
    assert(all.drop_last().len() == 0);
    assert(gather(all.drop_last(), part) == Outcome::<Seq<JsonV>>::Ok(Seq::empty()));
    if let Ok(chat) = anthropic_message(JsonV::Object(message)) {
        assert(Seq::<JsonV>::empty() + chat =~= chat);
        assert(chat_of(all) == Outcome::<Seq<JsonV>>::Ok(chat));
        lemma_chat_does_not_instruct(all);
        lemma_no_instructions(chat);
    }
}

/// What a tool came to, in a message of its own, is passed on to the call that it belongs to.
pub proof fn lemma_tool_turn(
    request: Fields,
    message: Fields,
    id: Seq<char>,
    told: Seq<Seq<char>>,
    text: Seq<char>,
)
    requires
        !request.contains_key("system"@),
        says(message, "role"@, "tool"@),
        message.contains_key("content"@),
        answer_text(message, "content"@, told, text),
        says(message, "tool_call_id"@, id) || (!message.contains_key("tool_call_id"@) && says(
            message,
            "tool_use_id"@,
            id,
        )),
        shows(id),
    ensures
        alone(request, message) == Outcome::<ChatState>::Ok(
            (Seq::empty(), seq![one_output(trimmed(id), text)]),
        ),
{
    lemma_words();
    lemma_alone(request, message);
    lemma_answer_text(message, "content"@, told, text);
    let chat = anthropic_message(JsonV::Object(message))->Ok_0;
    assert(chat =~= seq![chat[0]]);
    lemma_chat_of_one(chat[0]);
    let items = alone(request, message)->Ok_0.1;
    assert(items =~= seq![items[0]]);
}

/// What the request says to the model as a whole: a string, a block of text or a list of them.
pub open spec fn system_text(system: JsonV, text: Seq<char>) -> bool {
    match system {
        JsonV::Str(whole) => text == whole,
        JsonV::Object(_) => all_text(seq![system]) && text == whole_text(seq![system]),
        JsonV::Array(blocks) => all_text(blocks) && text == whole_text(blocks),
        _ => false,
    }
}

/// What the request says to the model as a whole is its instruction, as it is; one of nothing but
/// white space is left out. The messages come to the same with it and without it.
pub proof fn lemma_system_instructs(request: Fields, messages: Seq<JsonV>, text: Seq<char>)
    requires
        request.contains_key("system"@),
        system_text(request["system"@], text),
        anthropic_input(with_messages(request.remove("system"@), messages)) is Ok,
    ensures
        anthropic_input(with_messages(request, messages)) == Outcome::<ChatState>::Ok(
            (
                if shows(text) {
                    seq![text]
                } else {
                    Seq::empty()
                },
                anthropic_input(with_messages(request.remove("system"@), messages))->Ok_0.1,
            ),
        ),
{
    lemma_words();
    let told = with_messages(request, messages);
    let plain = with_messages(request.remove("system"@), messages);
    lemma_system_text(request["system"@], text);
    lemma_anthropic_input_parts(told, messages);
    lemma_anthropic_input_parts(plain, messages);
    let system = anthropic_system(told)->Ok_0;
    if shows(text) {
        assert(system =~= seq![system[0]]);
        lemma_chat_of_one(system[0]);
        assert(Seq::<Seq<char>>::empty().push(text) =~= seq![text]);
    } else {
        assert(system =~= Seq::empty());
    }
}

proof fn lemma_system_text(system: JsonV, text: Seq<char>)
    requires
        system_text(system, text),
    ensures
        anthropic_text(system) == Outcome::<Seq<char>>::Ok(text),
{
    lemma_words();
    let part = |i: int, item: JsonV| anthropic_item_text(item);
    match system {
        JsonV::Array(blocks) => {
            let each = |i: int| said(blocks[i]->Object_0, "text"@);
            lemma_gather_flat(blocks, part, each);
        },
        JsonV::Object(_) => {
            let blocks = seq![system];
            assert(blocks[0] == system);
            let texts = Seq::new(blocks.len(), |i: int| said(blocks[i]->Object_0, "text"@));
            texts.lemma_flatten_one_element();
        },
        _ => {},
    }
}

/// Every call that the blocks of an assistant come to is made from one of its uses of tools.
spec fn all_called(blocks: Seq<JsonV>, calls: Seq<JsonV>) -> bool {
    forall|i: int|
        0 <= i < calls.len() ==> exists|k: int|
            0 <= k < blocks.len() && is_use(blocks[k]) && called(
                #[trigger] calls[i],
                #[trigger] blocks[k],
                i as nat,
            )
}

/// Every use of a tool among the blocks of an assistant comes to a call.
spec fn all_used(blocks: Seq<JsonV>, calls: Seq<JsonV>) -> bool {
    forall|k: int|
        0 <= k < blocks.len() && is_use(blocks[k]) ==> exists|i: int|
            0 <= i < calls.len() && called(#[trigger] calls[i], #[trigger] blocks[k], i as nat)
}

proof fn lemma_assistant_fold_calls(blocks: Seq<JsonV>)
    requires
        assistant_fold(blocks) is Ok,
    ensures
        all_called(blocks, assistant_fold(blocks)->Ok_0.1),
        all_used(blocks, assistant_fold(blocks)->Ok_0.1),
    decreases blocks.len(),
{
    lemma_words();
    if blocks.len() > 0 {
        let rest = blocks.drop_last();
        let last = blocks.len() - 1;
        lemma_assistant_fold_calls(rest);
        let before = assistant_fold(rest)->Ok_0.1;
        let calls = assistant_fold(blocks)->Ok_0.1;
        assert(blocks.last() == blocks[last]);
        if is_use(blocks[last]) {
            assert(calls =~= before.push(calls.last()));
            assert(called(calls[calls.len() - 1], blocks[last], before.len()));
        } else {
            assert(calls == before);
        }
        assert forall|i: int| 0 <= i < calls.len() implies exists|k: int|
            0 <= k < blocks.len() && is_use(blocks[k]) && called(
                #[trigger] calls[i],
                #[trigger] blocks[k],
                i as nat,
            ) by {
            if i < before.len() {
                assert(before[i] == calls[i]);
                let k = choose|k: int|
                    0 <= k < rest.len() && is_use(rest[k]) && called(
                        before[i],
                        #[trigger] rest[k],
                        i as nat,
                    );
                assert(blocks[k] == rest[k]);
                assert(called(calls[i], blocks[k], i as nat));
            } else {
                assert(called(calls[i], blocks[last], i as nat));
            }
        }
        assert forall|k: int| 0 <= k < blocks.len() && is_use(blocks[k]) implies exists|i: int|
            0 <= i < calls.len() && called(
                #[trigger] calls[i],
                #[trigger] blocks[k],
                i as nat,
            ) by {
            if k < last {
                assert(rest[k] == blocks[k]);
                let i = choose|i: int|
                    0 <= i < before.len() && called(#[trigger] before[i], rest[k], i as nat);
                assert(calls[i] == before[i]);
                assert(called(calls[i], blocks[k], i as nat));
            }
        }
    }
}

/// An item of the input is a call.
pub open spec fn is_call_item(item: JsonV) -> bool {
    item matches JsonV::Object(fields) && says(fields, "type"@, "function_call"@)
}

/// What is told of a list of messages where one stands at place `j`: it comes to what it comes to
/// alone, behind what the messages before it come to.
proof fn lemma_message_among(request: Fields, messages: Seq<JsonV>, j: int)
    requires
        !request.contains_key("system"@),
        anthropic_input(with_messages(request, messages)) is Ok,
        0 <= j < messages.len(),
    ensures
        ({
            let one = anthropic_input(with_messages(request, seq![messages[j]]));
            &&& one is Ok
            &&& exists|before: Seq<JsonV>, after: Seq<JsonV>|
                anthropic_input(with_messages(request, messages))->Ok_0.1 == #[trigger] (before
                    + one->Ok_0.1 + after)
        }),
{
    lemma_words();
    let part = |i: int, item: JsonV| anthropic_message(item);
    let head = messages.take(j);
    let one = seq![messages[j]];
    let tail = messages.skip(j + 1);
    assert(messages =~= head + one + tail);
    lemma_gather_ok(messages, part);
    lemma_gather_ok(head, part);
    lemma_gather_ok(one, part);
    lemma_gather_ok(tail, part);
    assert(with_messages(request, messages)["messages"@] == JsonV::Array(messages));
    assert(chat_of(messages) is Ok);
    assert forall|i: int| 0 <= i < head.len() implies part(i, #[trigger] head[i]) is Ok by {
        assert(part(i, messages[i]) is Ok);
    }
    assert forall|i: int| 0 <= i < one.len() implies part(i, #[trigger] one[i]) is Ok by {
        assert(part(j, messages[j]) is Ok);
    }
    assert forall|i: int| 0 <= i < tail.len() implies part(i, #[trigger] tail[i]) is Ok by {
        assert(part(j + 1 + i, messages[j + 1 + i]) is Ok);
    }
    lemma_chat_of_joined(head, one);
    lemma_chat_of_joined(head + one, tail);
    let a = chat_of(head)->Ok_0;
    let b = chat_of(one)->Ok_0;
    let c = chat_of(tail)->Ok_0;
    let chat = chat_of(messages)->Ok_0;
    assert(chat == a + b + c);
    lemma_anthropic_input_parts(with_messages(request, messages), messages);
    lemma_anthropic_input_parts(with_messages(request, one), one);
    let step = |state: ChatState, i: int, item: JsonV| chat_message_input(state, item);
    let init: ChatState = (Seq::empty(), Seq::empty());
    lemma_try_fold_prefix(chat, init, step, a.len() as int);
    lemma_try_fold_prefix(chat, init, step, (a.len() + b.len()) as int);
    assert(chat.take(a.len() as int) =~= a);
    assert(chat.take((a.len() + b.len()) as int) =~= a + b);
    assert(chat_input(a) is Ok);
    assert(chat_input(a + b) is Ok);
    lemma_chat_input_joined(a, b);
    lemma_chat_input_joined(a + b, c);
    let before = chat_input(a)->Ok_0.1;
    let after = chat_input(c)->Ok_0.1;
    let whole = anthropic_input(with_messages(request, messages))->Ok_0.1;
    assert(whole == before + anthropic_input(with_messages(request, one))->Ok_0.1 + after);
}

/// The calls among the items of an assistant's message are its uses of tools, no more and no less.
pub proof fn lemma_uses_and_calls(
    request: Fields,
    message: Fields,
    blocks: Seq<JsonV>,
    items: Seq<JsonV>,
)
    requires
        !request.contains_key("system"@),
        says(message, "role"@, "assistant"@),
        member(message, "content"@, JsonV::Array(blocks)),
        alone(request, message) matches Ok((_, made)) && made == items,
    ensures
        forall|k: int|
            0 <= k < blocks.len() && is_use(#[trigger] blocks[k]) ==> use_among(blocks[k], items),
        forall|n: int|
            0 <= n < items.len() && is_call_item(#[trigger] items[n]) ==> call_among(
                items[n],
                blocks,
            ),
{
    lemma_words();
    lemma_alone(request, message);
    assert(assistant_fold(blocks) is Ok);
    let (text, calls) = assistant_fold(blocks)->Ok_0;
    assert(all_called(blocks, calls) && all_used(blocks, calls)) by {
        lemma_assistant_fold_calls(blocks);
    }
    lemma_all_calls(blocks, calls);
    lemma_assistant_input(request, message, blocks, text, calls);
    let head: int = if shows(text) {
        1
    } else {
        0
    };
    lemma_items_of_calls(blocks, calls, items, head);
}

proof fn lemma_all_calls(blocks: Seq<JsonV>, calls: Seq<JsonV>)
    requires
        all_called(blocks, calls),
    ensures
        forall|i: int| 0 <= i < calls.len() ==> is_call(#[trigger] calls[i]),
{
    assert forall|i: int| 0 <= i < calls.len() implies is_call(#[trigger] calls[i]) by {
        let k = choose|k: int|
            0 <= k < blocks.len() && is_use(blocks[k]) && called(
                calls[i],
                #[trigger] blocks[k],
                i as nat,
            );
        assert(called(calls[i], blocks[k], i as nat));
    }
}

proof fn lemma_call_from_use(call: JsonV, block: JsonV, i: nat, item: JsonV)
    requires
        called(call, block, i),
        call_passed(call, i as int, item),
    ensures
        item == use_passed(block, i),
{
}

proof fn lemma_items_of_calls(blocks: Seq<JsonV>, calls: Seq<JsonV>, items: Seq<JsonV>, head: int)
    requires
        all_called(blocks, calls),
        all_used(blocks, calls),
        0 <= head <= 1,
        items.len() == head + calls.len(),
        head == 1 ==> !is_call_item(items[0]),
        forall|i: int|
            0 <= i < calls.len() ==> call_passed(#[trigger] calls[i], i, items[head + i]),
    ensures
        forall|k: int|
            0 <= k < blocks.len() && is_use(#[trigger] blocks[k]) ==> use_among(blocks[k], items),
        forall|n: int|
            0 <= n < items.len() && is_call_item(#[trigger] items[n]) ==> call_among(
                items[n],
                blocks,
            ),
{
    assert forall|k: int| 0 <= k < blocks.len() && is_use(#[trigger] blocks[k]) implies use_among(
        blocks[k],
        items,
    ) by {
        let i = choose|i: int|
            0 <= i < calls.len() && called(#[trigger] calls[i], blocks[k], i as nat);
        lemma_call_from_use(calls[i], blocks[k], i as nat, items[head + i]);
    }
    assert forall|n: int| 0 <= n < items.len() && is_call_item(
        #[trigger] items[n],
    ) implies call_among(items[n], blocks) by {
        let i = n - head;
        assert(0 <= i < calls.len());
        let k = choose|k: int|
            0 <= k < blocks.len() && is_use(blocks[k]) && called(
                calls[i],
                #[trigger] blocks[k],
                i as nat,
            );
        lemma_call_from_use(calls[i], blocks[k], i as nat, items[head + i]);
    }
}

/// The use of a tool stands among the items as a call.
pub open spec fn use_among(block: JsonV, items: Seq<JsonV>) -> bool {
    exists|n: int, earlier: nat|
        0 <= n < items.len() && #[trigger] items[n] == #[trigger] use_passed(block, earlier)
}

/// The call is made from one of the uses of a tool.
pub open spec fn call_among(item: JsonV, blocks: Seq<JsonV>) -> bool {
    exists|k: int, earlier: nat|
        0 <= k < blocks.len() && is_use(blocks[k]) && item == #[trigger] use_passed(
            blocks[k],
            earlier,
        )
}

/// Every use of a tool by an assistant is passed on as a call with its own identifier, wherever it
/// stands in whatever request; only a use without an identifier is given a numbered one.
pub proof fn lemma_every_use_is_called(
    request: Fields,
    messages: Seq<JsonV>,
    j: int,
    blocks: Seq<JsonV>,
    k: int,
)
    requires
        !request.contains_key("system"@),
        anthropic_input(with_messages(request, messages)) is Ok,
        0 <= j < messages.len(),
        messages[j] matches JsonV::Object(message) && says(message, "role"@, "assistant"@)
            && member(message, "content"@, JsonV::Array(blocks)),
        0 <= k < blocks.len(),
        is_use(blocks[k]),
    ensures
        use_among(blocks[k], anthropic_input(with_messages(request, messages))->Ok_0.1),
{
    let message = messages[j]->Object_0;
    lemma_message_among(request, messages, j);
    let one = alone(request, message);
    assert(messages[j] == JsonV::Object(message));
    let items = one->Ok_0.1;
    let whole = anthropic_input(with_messages(request, messages))->Ok_0.1;
    let (before, after) = choose|before: Seq<JsonV>, after: Seq<JsonV>|
        whole == #[trigger] (before + items + after);
    lemma_uses_and_calls(request, message, blocks, items);
    let (n, earlier) = choose|n: int, earlier: nat|
        0 <= n < items.len() && #[trigger] items[n] == #[trigger] use_passed(blocks[k], earlier);
    assert(whole[before.len() + n] == items[n]);
}

/// `text` holds the word, in whatever case.
pub open spec fn mentions(text: Seq<char>, word: Seq<char>) -> bool {
    exists|i: int|
        0 <= i <= text.len() - word.len() && #[trigger] ascii_lowered(text).subrange(
            i,
            i + word.len(),
        ) == word
}

/// What stands in every converted messages request, and under which conditions the rest does.
pub proof fn lemma_messages_request_members(
    request: Fields,
    instructions: Option<Seq<char>>,
    input: Seq<JsonV>,
    effort: Option<Seq<char>>,
    key: Option<Seq<char>>,
)
    ensures
        ({
            let made = anthropic_fields(request, instructions, input, effort, key);
            &&& member(made, "input"@, JsonV::Array(input))
            &&& says(
                made,
                "instructions"@,
                if instructions is Some && shows(instructions->0) {
                    trimmed(instructions->0)
                } else {
                    "You are Codex, a coding assistant that responds clearly and safely."@
                },
            )
            &&& says(
                made,
                "model"@,
                if speaks(request, "model"@) && mentions(
                    trimmed(said(request, "model"@)),
                    "codex"@,
                ) {
                    trimmed(said(request, "model"@))
                } else {
                    "gpt-5.3-codex"@
                },
            )
            &&& member(
                made,
                "reasoning"@,
                JsonV::Object(
                    map![
                        "effort"@ => JsonV::Str(
                            match effort {
                                Some(named) => named,
                                None => "high"@,
                            },
                        ),
                    ],
                ),
            )
            &&& member(
                made,
                "text"@,
                JsonV::Object(map!["format"@ => JsonV::Object(map!["type"@ => JsonV::Str("text"@)])]),
            )
            &&& member(
                made,
                "include"@,
                JsonV::Array(seq![JsonV::Str("reasoning.encrypted_content"@)]),
            )
            &&& member(made, "stream"@, JsonV::Bool(true))
            &&& member(made, "store"@, JsonV::Bool(false))
            &&& member(made, "parallel_tool_calls"@, JsonV::Bool(true))
            &&& match key {
                Some(kept) => says(made, "prompt_cache_key"@, kept),
                None => !made.contains_key("prompt_cache_key"@),
            }
            &&& made.dom().subset_of(
                set![
                    "model"@,
                    "instructions"@,
                    "text"@,
                    "reasoning"@,
                    "input"@,
                    "prompt_cache_key"@,
                    "tools"@,
                    "tool_choice"@,
                    "stream"@,
                    "parallel_tool_calls"@,
                    "store"@,
                    "include"@,
                ],
            )
        }),
        anthropic_stream(request) == !member(request, "stream"@, JsonV::Bool(false)),
{
    lemma_words();
    reveal_strlit("codex");
    assert("codex"@.len() == 5);
    if speaks(request, "model"@) {
        let model = trimmed(said(request, "model"@));
        let lowered = ascii_lowered(model);
        if has_part(lowered, "codex"@) {
            let i = choose|i: int|
                0 <= i <= lowered.len() - "codex"@.len() && #[trigger] has_prefix(
                    lowered.skip(i),
                    "codex"@,
                );
            assert(lowered.skip(i).take(5) =~= lowered.subrange(i, i + 5));
            assert(mentions(model, "codex"@));
        }
        if mentions(model, "codex"@) {
            let i = choose|i: int|
                0 <= i <= model.len() - "codex"@.len() && #[trigger] lowered.subrange(
                    i,
                    i + "codex"@.len(),
                ) == "codex"@;
            assert(lowered.skip(i).take(5) =~= lowered.subrange(i, i + 5));
            assert(has_prefix(lowered.skip(i), "codex"@));
            assert(model.len() > 0);
        }
    }
}

/// The instruction of a request without a system prompt is none; that of one with a system prompt is
/// the prompt.
pub proof fn lemma_instructions_told(text: Seq<char>)
    ensures
        joined_instructions(Seq::empty()) is None,
        joined_instructions(seq![text]) == Some(text),
{
}

/// A tool goes by its name, or where it has none by its type.
pub open spec fn tool_name(tool: Fields) -> Seq<char> {
    if speaks(tool, "name"@) {
        said(tool, "name"@)
    } else {
        said(tool, "type"@)
    }
}

/// A tool that has something to go by.
pub open spec fn is_named(tool: JsonV) -> bool {
    tool matches JsonV::Object(fields) && (speaks(fields, "name"@) || speaks(fields, "type"@))
        && shows(tool_name(fields))
}

/// The first tools of a messages request, up to the limit, are passed on in their order.
pub proof fn lemma_messages_tools(
    request: Fields,
    instructions: Option<Seq<char>>,
    input: Seq<JsonV>,
    effort: Option<Seq<char>>,
    key: Option<Seq<char>>,
    tools: Seq<JsonV>,
)
    requires
        member(request, "tools"@, JsonV::Array(tools)),
        tools.len() > 0,
        forall|i: int| 0 <= i < tools.len() ==> is_named(#[trigger] tools[i]),
    ensures
        ({
            let made = anthropic_fields(request, instructions, input, effort, key);
            &&& made.contains_key("tools"@)
            &&& made["tools"@] matches JsonV::Array(passed)
            &&& passed.len() == (if tools.len() <= tool_limit() {
                tools.len()
            } else {
                tool_limit()
            })
            &&& forall|i: int|
                0 <= i < passed.len() ==> tool_made(
                    tools[i]->Object_0,
                    tool_name(tools[i]->Object_0),
                    "input_schema"@,
                    #[trigger] passed[i],
                )
        }),
{
    lemma_words();
    lemma_named_tools(tools);
}

proof fn lemma_named_tools(tools: Seq<JsonV>)
    requires
        forall|i: int| 0 <= i < tools.len() ==> is_named(#[trigger] tools[i]),
    ensures
        anthropic_tools(tools).len() == tools.len(),
        forall|i: int|
            0 <= i < tools.len() ==> tool_made(
                tools[i]->Object_0,
                tool_name(tools[i]->Object_0),
                "input_schema"@,
                #[trigger] anthropic_tools(tools)[i],
            ),
    decreases tools.len(),
{
    lemma_words();
    if tools.len() > 0 {
        let rest = tools.drop_last();
        assert forall|i: int| 0 <= i < rest.len() implies is_named(#[trigger] rest[i]) by {
            assert(is_named(tools[i]));
        }
        lemma_named_tools(rest);
        assert(is_named(tools[tools.len() - 1]));
        assert forall|i: int| 0 <= i < tools.len() implies tool_made(
            tools[i]->Object_0,
            tool_name(tools[i]->Object_0),
            "input_schema"@,
            #[trigger] anthropic_tools(tools)[i],
        ) by {
            if i < rest.len() {
                assert(anthropic_tools(tools)[i] == anthropic_tools(rest)[i]);
            }
        }
    }
}

/// A tool without anything to go by makes no difference, and neither does an empty list of tools.
pub proof fn lemma_messages_unnamed_tool(
    request: Fields,
    instructions: Option<Seq<char>>,
    input: Seq<JsonV>,
    effort: Option<Seq<char>>,
    key: Option<Seq<char>>,
    before: Seq<JsonV>,
    unnamed: JsonV,
    after: Seq<JsonV>,
)
    requires
        !is_named(unnamed),
    ensures
        anthropic_fields(
            request.insert("tools"@, JsonV::Array(before + seq![unnamed] + after)),
            instructions,
            input,
            effort,
            key,
        ) == anthropic_fields(
            request.insert("tools"@, JsonV::Array(before + after)),
            instructions,
            input,
            effort,
            key,
        ),
        anthropic_fields(
            request.insert("tools"@, JsonV::Array(Seq::empty())),
            instructions,
            input,
            effort,
            key,
        ) == anthropic_fields(request.remove("tools"@), instructions, input, effort, key),
        !anthropic_fields(request.remove("tools"@), instructions, input, effort, key).contains_key(
            "tools"@,
        ),
{
    lemma_words();
    lemma_unnamed_tool(before, unnamed, after);
    let p = request.insert("tools"@, JsonV::Array(before + seq![unnamed] + after));
    let q = request.insert("tools"@, JsonV::Array(before + after));
    assert(anthropic_request_tools(p) == anthropic_request_tools(q));
    assert(upstream_model(p) == upstream_model(q));
    let r = request.insert("tools"@, JsonV::Array(Seq::empty()));
    let s = request.remove("tools"@);
    assert(anthropic_request_tools(r) == anthropic_request_tools(s));
    assert(upstream_model(r) == upstream_model(s));
}

proof fn lemma_unnamed_tool(before: Seq<JsonV>, unnamed: JsonV, after: Seq<JsonV>)
    requires
        !is_named(unnamed),
    ensures
        anthropic_tools(before + seq![unnamed] + after) == anthropic_tools(before + after),
    decreases after.len(),
{
    lemma_words();
    let all = before + seq![unnamed] + after;
    let rest = before + after;
    if after.len() == 0 {
        assert(all.drop_last() =~= before);
        assert(rest =~= before);
        assert(all.last() == unnamed);
    } else {
        lemma_unnamed_tool(before, unnamed, after.drop_last());
        assert(all.drop_last() =~= before + seq![unnamed] + after.drop_last());
        assert(rest.drop_last() =~= before + after.drop_last());
    }
}

/// The choice among the tools: a word is passed on as it is, the kinds of choices get the words that
/// they have in the Responses interface, a tool is chosen by its name, and anything else is left to
/// the model.
pub proof fn lemma_messages_tool_choice(
    request: Fields,
    instructions: Option<Seq<char>>,
    input: Seq<JsonV>,
    effort: Option<Seq<char>>,
    key: Option<Seq<char>>,
)
    ensures
        ({
            let made = anthropic_fields(request, instructions, input, effort, key);
            let chosen = "tool_choice"@;
            if !request.contains_key(chosen) {
                if made.contains_key("tools"@) {
                    says(made, chosen, "auto"@)
                } else {
                    !made.contains_key(chosen)
                }
            } else if request[chosen] is Str {
                member(made, chosen, request[chosen])
            } else if let JsonV::Object(choice) = request[chosen] {
                if !speaks(choice, "type"@) || says(choice, "type"@, "auto"@) {
                    says(made, chosen, "auto"@)
                } else if says(choice, "type"@, "any"@) {
                    says(made, chosen, "required"@)
                } else if says(choice, "type"@, "none"@) {
                    says(made, chosen, "none"@)
                } else if says(choice, "type"@, "tool"@) && speaks(choice, "name"@) && shows(
                    said(choice, "name"@),
                ) {
                    member(
                        made,
                        chosen,
                        JsonV::Object(
                            map![
                                "type"@ => JsonV::Str("function"@),
                                "name"@ => JsonV::Str(trimmed(said(choice, "name"@))),
                            ],
                        ),
                    )
                } else {
                    !made.contains_key(chosen)
                }
            } else {
                !made.contains_key(chosen)
            }
        }),
{
    lemma_words();
}

/// The body that a messages request is converted to holds the effort that its reasoning names, the
/// key under which `resolve` has its prompt cached, and what its messages come to.
pub proof fn lemma_messages_body<
    N: Fn(&str) -> Option<String>,
    K: Fn(&JsonMap, &str) -> Option<String>,
>(
    body: Seq<u8>,
    request: Fields,
    normalize: N,
    resolve: K,
    effort: Option<Seq<char>>,
    key: Option<Seq<char>>,
    r: Outcome<(Seq<u8>, bool)>,
)
    requires
        json_read(body) == Some(JsonV::Object(request)),
        anthropic_input(request) is Ok,
        named_effort(request, normalize, effort),
        forall|source: &JsonMap, model: &str, ret: Option<String>|
            source@ == request && model@ == upstream_model(request) && #[trigger] call_ensures(
                resolve,
                (source, model),
                ret,
            ) ==> match ret {
                Some(text) => key == Some(text@),
                None => key is None,
            },
        anthropic_converted(body, normalize, resolve, r),
    ensures
        ({
            let (told, items) = anthropic_input(request)->Ok_0;
            let made = anthropic_fields(
                request,
                if told.len() == 0 {
                    None
                } else {
                    Some(joined(told, "\n\n"@))
                },
                items,
                effort,
                key,
            );
            r == Outcome::<(Seq<u8>, bool)>::Ok(
                (
                    encode_utf8(json_text(JsonV::Object(made))),
                    !member(request, "stream"@, JsonV::Bool(false)),
                ),
            )
        }),
{
    lemma_words();
    let (told, items) = anthropic_input(request)->Ok_0;
    let (e, k) = choose|e: Option<Seq<char>>, k: Option<Seq<char>>|
        {
            &&& #[trigger] normalized(normalize, nested_effort(request), e)
            &&& #[trigger] resolved_key(resolve, request, k)
            &&& written(
                Ok(
                    (
                        JsonV::Object(
                            anthropic_fields(request, joined_instructions(told), items, e, k),
                        ),
                        anthropic_stream(request),
                    ),
                ),
                r,
            )
        };
    assert(e == effort);
    assert(k == key);
}

/// A messages request that is not JSON, or not an object, or that brings something that cannot be
/// passed on, is refused.
pub proof fn lemma_messages_body_refused<
    N: Fn(&str) -> Option<String>,
    K: Fn(&JsonMap, &str) -> Option<String>,
>(body: Seq<u8>, normalize: N, resolve: K, r: Outcome<(Seq<u8>, bool)>)
    requires
        anthropic_converted(body, normalize, resolve, r),
    ensures
        r is Ok ==> (json_read(body) matches Some(JsonV::Object(request)) && anthropic_input(
            request,
        ) is Ok),
{
}

/// A block with a kind.
pub open spec fn is_kind(block: JsonV) -> bool {
    block matches JsonV::Object(fields) && speaks(fields, "type"@)
}

/// The blocks of a message: those of its list, or the one block outside a list.
pub open spec fn blocks_in(message: Fields) -> Seq<JsonV> {
    if message["content"@] is Array {
        message["content"@]->Array_0
    } else {
        seq![message["content"@]]
    }
}

/// A block of a user that can be passed on or left out: a result names its use by something that is
/// not blank, or by nothing.
pub open spec fn is_deliverable(block: JsonV) -> bool {
    is_kind(block) && (is_result(block) ==> used_id(block->Object_0).len() == 0 || shows(
        used_id(block->Object_0),
    ))
}

/// A message that can be passed on.
pub open spec fn is_turn(message: JsonV) -> bool {
    &&& message matches JsonV::Object(fields)
    &&& speaks(fields, "role"@)
    &&& fields.contains_key("content"@)
    &&& {
        let role = said(fields, "role"@);
        let content = fields["content"@];
        ||| role == "assistant"@ && (content is Str || ((content is Array || content is Object)
            && forall|i: int|
            0 <= i < blocks_in(fields).len() ==> is_kind(#[trigger] blocks_in(fields)[i])))
        ||| role == "user"@ && (content is Str || ((content is Array || content is Object)
            && forall|i: int|
            0 <= i < blocks_in(fields).len() ==> is_deliverable(#[trigger] blocks_in(fields)[i])))
        ||| role == "tool"@ && if fields.contains_key("tool_call_id"@) {
            speaks(fields, "tool_call_id"@) && shows(said(fields, "tool_call_id"@))
        } else {
            speaks(fields, "tool_use_id"@) && shows(said(fields, "tool_use_id"@))
        }
    }
}

/// Messages are passed on exactly if each of them can be: its role is known, and so is what it
/// brings.
pub proof fn lemma_accepted_turns(request: Fields, messages: Seq<JsonV>)
    requires
        !request.contains_key("system"@),
    ensures
        anthropic_input(with_messages(request, messages)) is Ok <==> forall|i: int|
            0 <= i < messages.len() ==> is_turn(#[trigger] messages[i]),
{
    lemma_words();
    let whole = with_messages(request, messages);
    assert(whole["messages"@] == JsonV::Array(messages));
    lemma_turns_ok(messages);
    if let Ok(chat) = chat_of(messages) {
        lemma_anthropic_input_parts(whole, messages);
        lemma_chat_input_ok(chat);
    }
}

/// A chat message that comes to something.
spec fn is_sent(message: JsonV) -> bool {
    chat_message_input((Seq::empty(), Seq::empty()), message) is Ok
}

/// All of the chat messages come to something.
spec fn all_sent(chat: Seq<JsonV>) -> bool {
    forall|i: int| 0 <= i < chat.len() ==> is_sent(#[trigger] chat[i])
}

proof fn lemma_chat_input_ok(chat: Seq<JsonV>)
    ensures
        chat_input(chat) is Ok <==> all_sent(chat),
    decreases chat.len(),
{
    if chat.len() > 0 {
        let rest = chat.drop_last();
        lemma_chat_input_ok(rest);
        lemma_all_sent(rest, seq![chat.last()]);
        assert(chat =~= rest + seq![chat.last()]);
        if let Ok(state) = chat_input(rest) {
            lemma_sent_anywhere(state, chat.last());
        }
        assert(seq![chat.last()][0] == chat.last());
    }
}

proof fn lemma_sent_anywhere(state: ChatState, message: JsonV)
    ensures
        chat_message_input(state, message) is Ok <==> is_sent(message),
{
}

proof fn lemma_all_sent(first: Seq<JsonV>, second: Seq<JsonV>)
    ensures
        all_sent(first + second) <==> all_sent(first) && all_sent(second),
{
    let all = first + second;
    if all_sent(all) {
        assert forall|i: int| 0 <= i < first.len() implies is_sent(#[trigger] first[i]) by {
            assert(is_sent(all[i]));
        }
        assert forall|i: int| 0 <= i < second.len() implies is_sent(#[trigger] second[i]) by {
            assert(is_sent(all[first.len() + i]));
        }
    }
}

proof fn lemma_turns_ok(messages: Seq<JsonV>)
    ensures
        (chat_of(messages) matches Ok(chat) && all_sent(chat)) <==> forall|i: int|
            0 <= i < messages.len() ==> is_turn(#[trigger] messages[i]),
    decreases messages.len(),
{
    if messages.len() > 0 {
        let rest = messages.drop_last();
        lemma_turns_ok(rest);
        lemma_turn_ok(messages.last());
        assert(messages.last() == messages[messages.len() - 1]);
        if let Ok(before) = chat_of(rest) {
            if let Ok(more) = anthropic_message(messages.last()) {
                lemma_all_sent(before, more);
            }
        }
        if forall|i: int| 0 <= i < messages.len() ==> is_turn(#[trigger] messages[i]) {
            assert forall|i: int| 0 <= i < rest.len() implies is_turn(#[trigger] rest[i]) by {
                assert(rest[i] == messages[i]);
            }
        } else if forall|i: int| 0 <= i < rest.len() ==> is_turn(#[trigger] rest[i]) {
            let i = choose|i: int| 0 <= i < messages.len() && !is_turn(#[trigger] messages[i]);
            if i < rest.len() {
                assert(is_turn(rest[i]));
            }
        }
    } else {
        assert(all_sent(Seq::<JsonV>::empty()));
    }
}

proof fn lemma_turn_ok(message: JsonV)
    ensures
        (anthropic_message(message) matches Ok(chat) && all_sent(chat)) <==> is_turn(message),
{
    lemma_words();
    if let JsonV::Object(fields) = message {
        if speaks(fields, "role"@) && fields.contains_key("content"@) {
            let role = said(fields, "role"@);
            let content = fields["content"@];
            let blocks = blocks_in(fields);
            if role == "assistant"@ {
                lemma_assistant_fold_ok(blocks);
                if let Ok(chat) = assistant_messages(content) {
                    assert(chat.len() == 1);
                    lemma_assistant_sent(chat[0]);
                }
            } else if role == "user"@ {
                lemma_user_fold_ok(blocks);
                if let Ok(state) = user_fold(blocks) {
                    lemma_flushed_sent(state);
                }
                if let JsonV::Str(text) = content {
                    if let Ok(chat) = user_messages(content) {
                        assert(all_sent(chat));
                    }
                }
            } else if role == "tool"@ {
                if let Ok(chat) = tool_role_messages(fields, content) {
                    assert(chat.len() == 1);
                    assert(all_sent(chat) <==> is_sent(chat[0]));
                }
            }
        }
    }
}

proof fn lemma_assistant_sent(message: JsonV)
    requires
        message matches JsonV::Object(fields) && says(fields, "role"@, "assistant"@),
    ensures
        is_sent(message),
{
    lemma_words();
    let fields = message->Object_0;
    if fields.contains_key("tool_calls"@) && fields["tool_calls"@] is Array {
        let part = |i: int, call: JsonV| chat_call_item(i, call);
        lemma_gather_ok(fields["tool_calls"@]->Array_0, part);
    }
}

proof fn lemma_assistant_fold_ok(blocks: Seq<JsonV>)
    ensures
        assistant_fold(blocks) is Ok <==> forall|i: int|
            0 <= i < blocks.len() ==> is_kind(#[trigger] blocks[i]),
    decreases blocks.len(),
{
    lemma_words();
    if blocks.len() > 0 {
        let rest = blocks.drop_last();
        lemma_assistant_fold_ok(rest);
        assert(blocks.last() == blocks[blocks.len() - 1]);
        if forall|i: int| 0 <= i < blocks.len() ==> is_kind(#[trigger] blocks[i]) {
            assert forall|i: int| 0 <= i < rest.len() implies is_kind(#[trigger] rest[i]) by {
                assert(rest[i] == blocks[i]);
            }
        } else if forall|i: int| 0 <= i < rest.len() ==> is_kind(#[trigger] rest[i]) {
            let i = choose|i: int| 0 <= i < blocks.len() && !is_kind(#[trigger] blocks[i]);
            if i < rest.len() {
                assert(is_kind(rest[i]));
            }
        }
    }
}

proof fn lemma_flushed_sent(state: UserState)
    ensures
        all_sent(flushed(state).0) <==> all_sent(state.0),
{
    lemma_words();
    let after = flushed(state).0;
    if after != state.0 {
        let spoken = after.last();
        assert(after =~= state.0 + seq![spoken]);
        assert(is_sent(spoken));
        assert(all_sent(seq![spoken]));
        lemma_all_sent(state.0, seq![spoken]);
    }
}

proof fn lemma_user_fold_ok(blocks: Seq<JsonV>)
    ensures
        (user_fold(blocks) matches Ok(state) && all_sent(state.0)) <==> forall|i: int|
            0 <= i < blocks.len() ==> is_deliverable(#[trigger] blocks[i]),
    decreases blocks.len(),
{
    lemma_words();
    if blocks.len() > 0 {
        let rest = blocks.drop_last();
        lemma_user_fold_ok(rest);
        assert(blocks.last() == blocks[blocks.len() - 1]);
        if let Ok(state) = user_fold(rest) {
            lemma_user_block_ok(state, blocks.last());
        }
        if forall|i: int| 0 <= i < blocks.len() ==> is_deliverable(#[trigger] blocks[i]) {
            assert forall|i: int| 0 <= i < rest.len() implies is_deliverable(#[trigger] rest[i]) by {
                assert(rest[i] == blocks[i]);
            }
        } else if forall|i: int| 0 <= i < rest.len() ==> is_deliverable(#[trigger] rest[i]) {
            let i = choose|i: int| 0 <= i < blocks.len() && !is_deliverable(#[trigger] blocks[i]);
            if i < rest.len() {
                assert(is_deliverable(rest[i]));
            }
        }
    }
}

proof fn lemma_user_block_ok(state: UserState, block: JsonV)
    ensures
        (user_message_block(state, block) matches Ok(after) && all_sent(after.0)) <==> all_sent(
            state.0,
        ) && is_deliverable(block),
{
    lemma_words();
    lemma_flushed_sent(state);
    if is_result(block) && used_id(block->Object_0).len() > 0 {
        let before = flushed(state).0;
        let after = user_message_block(state, block)->Ok_0.0;
        let told = after.last();
        assert(after =~= before + seq![told]);
        lemma_all_sent(before, seq![told]);
        assert(seq![told][0] == told);
        assert(is_sent(told) <==> shows(used_id(block->Object_0)));
        assert(all_sent(seq![told]) <==> is_sent(told));
    }
}

/// What a user has said before a block that is refused has been passed on, but for the text that the
/// block would have ended, and nothing of the block or of any behind it.
pub proof fn lemma_user_stops_at_refused(blocks: Seq<JsonV>, k: int)
    requires
        0 <= k < blocks.len(),
        forall|i: int| 0 <= i < k ==> is_kind(#[trigger] blocks[i]),
        !is_kind(blocks[k]),
    ensures
        ({
            let made = user_messages_made(JsonV::Array(blocks));
            &&& user_messages(JsonV::Array(blocks)) is Err
            &&& user_messages(JsonV::Array(blocks.take(k))) matches Ok(sound)
            &&& made.is_prefix_of(sound)
            &&& sound.len() <= made.len() + 1
            &&& sound.len() > made.len() ==> (sound.last() matches JsonV::Object(message) && says(
                message,
                "role"@,
                "user"@,
            ))
        }),
{
    lemma_words();
    lemma_kinds_fold(blocks.take(k));
    let step = |state: UserState, i: int, item: JsonV| user_message_block(state, item);
    let init: UserState = (Seq::empty(), Seq::empty());
    lemma_reached_until(blocks, init, step, k);
    let made = user_messages_made(JsonV::Array(blocks));
    let sound = user_messages(JsonV::Array(blocks.take(k)))->Ok_0;
    assert(made =~= sound.take(made.len() as int));
}

proof fn lemma_kinds_fold(blocks: Seq<JsonV>)
    requires
        forall|i: int| 0 <= i < blocks.len() ==> is_kind(#[trigger] blocks[i]),
    ensures
        user_fold(blocks) is Ok,
    decreases blocks.len(),
{
    if blocks.len() > 0 {
        let rest = blocks.drop_last();
        assert forall|i: int| 0 <= i < rest.len() implies is_kind(#[trigger] rest[i]) by {
            assert(is_kind(blocks[i]));
        }
        lemma_kinds_fold(rest);
        assert(is_kind(blocks[blocks.len() - 1]));
    }
}

} // verus!
