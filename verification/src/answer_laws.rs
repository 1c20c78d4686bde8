//! What an answer of the Responses interface becomes in a chat completion, member by member.

use vstd::prelude::*;
use vstd::string::*;

use crate::chat_completion::{
    answer_of, chat_completion, incomplete_reason, mapped_error, message_content, openai_usage,
    output_item, output_items, shown_blocks, OutputState,
};
use crate::chat_laws::shows;
use crate::codec::json_text;
use crate::json::{Fields, JsonV, NumV};
use crate::sequence::{lemma_try_fold_prefix, try_fold, Outcome};
use crate::text::{ascii_lowered, decimal, trimmed};
use crate::text_laws::lemma_part_cuts;
use crate::words::{lemma_words, member, said, says, speaks};

verus! {

/// An answer that does not report an error.
pub open spec fn is_answer(answer: Fields) -> bool {
    &&& !answer.contains_key("response"@)
    &&& if answer.contains_key("error"@) {
        !(answer["error"@] is Object)
    } else {
        speaks(answer, "type"@) ==> ascii_lowered(said(answer, "type"@)) != "error"@
    }
}

/// The items of the output of an answer.
pub open spec fn output_of(answer: Fields) -> Seq<JsonV> {
    if answer.contains_key("output"@) && answer["output"@] is Array {
        answer["output"@]->Array_0
    } else {
        Seq::empty()
    }
}

/// The members of the completion of an answer.
pub open spec fn completed(answer: Fields, created: i64) -> Fields {
    chat_completion(JsonV::Object(answer), created)->Ok_0->Object_0
}

/// The one choice of the completion of an answer.
pub open spec fn choice_of(answer: Fields, created: i64) -> Fields {
    completed(answer, created)["choices"@]->Array_0[0]->Object_0
}

/// The message of the completion of an answer.
pub open spec fn message_of(answer: Fields, created: i64) -> Fields {
    choice_of(answer, created)["message"@]->Object_0
}

/// An integer of 64 bits with sign.
pub open spec fn is_count(value: JsonV) -> bool {
    value matches JsonV::Number(NumV::Int(n)) && i64::MIN <= n <= i64::MAX
}

/// The count that a usage gives under the one name, or where that is missing under the other.
pub open spec fn count_of(usage: Fields, name: Seq<char>, older: Seq<char>) -> int {
    let given = if usage.contains_key(name) {
        usage[name]
    } else {
        usage[older]
    };
    if (usage.contains_key(name) || usage.contains_key(older)) && is_count(given) {
        given->Number_0->Int_0
    } else {
        0
    }
}

/// The sum of two counts, as far as 64 bits go.
pub open spec fn sum_of(a: int, b: int) -> int {
    if a + b > i64::MAX {
        i64::MAX as int
    } else if a + b < i64::MIN {
        i64::MIN as int
    } else {
        a + b
    }
}

/// A JSON integer.
pub open spec fn count(n: int) -> JsonV {
    JsonV::Number(NumV::Int(n))
}

/// What stands in every completion of an answer: what the answer is known by, its model, the time,
/// one choice with the assistant's message, and the counts of its usage under their names.
pub proof fn lemma_completion_members(answer: Fields, created: i64)
    requires
        is_answer(answer),
        chat_completion(JsonV::Object(answer), created) is Ok,
    ensures
        ({
            let value = chat_completion(JsonV::Object(answer), created)->Ok_0;
            let made = completed(answer, created);
            let choice = choice_of(answer, created);
            let message = message_of(answer, created);
            let usage = if answer.contains_key("usage"@) && answer["usage"@] is Object {
                answer["usage"@]->Object_0
            } else {
                Map::empty()
            };
            let prompt = count_of(usage, "input_tokens"@, "prompt_tokens"@);
            let completion = count_of(usage, "output_tokens"@, "completion_tokens"@);
            let total = if usage.contains_key("total_tokens"@) && is_count(usage["total_tokens"@]) {
                usage["total_tokens"@]->Number_0->Int_0
            } else {
                sum_of(prompt, completion)
            };
            &&& value == JsonV::Object(made)
            &&& made.dom() == set![
                "id"@,
                "object"@,
                "created"@,
                "model"@,
                "choices"@,
                "usage"@,
            ]
            &&& says(
                made,
                "id"@,
                if speaks(answer, "id"@) {
                    said(answer, "id"@)
                } else {
                    "chatcmpl_codexmanager"@
                },
            )
            &&& says(made, "object"@, "chat.completion"@)
            &&& member(made, "created"@, count(created as int))
            &&& says(
                made,
                "model"@,
                if speaks(answer, "model"@) {
                    said(answer, "model"@)
                } else {
                    "unknown"@
                },
            )
            &&& member(made, "choices"@, JsonV::Array(seq![JsonV::Object(choice)]))
            &&& choice.dom() == set!["index"@, "message"@, "finish_reason"@]
            &&& member(choice, "index"@, count(0))
            &&& member(choice, "message"@, JsonV::Object(message))
            &&& message.dom().subset_of(set!["role"@, "content"@, "tool_calls"@])
            &&& says(message, "role"@, "assistant"@)
            &&& speaks(message, "content"@)
            &&& message.contains_key("tool_calls"@) ==> (message["tool_calls"@] matches JsonV::Array(
                calls,
            ) && calls.len() > 0)
            &&& member(
                made,
                "usage"@,
                JsonV::Object(
                    map![
                        "prompt_tokens"@ => count(prompt),
                        "completion_tokens"@ => count(completion),
                        "total_tokens"@ => count(total),
                    ],
                ),
            )
        }),
{
    lemma_words();
    lemma_no_error(answer);
    let made = completed(answer, created);
    let choice = choice_of(answer, created);
    assert(made.dom() =~= set!["id"@, "object"@, "created"@, "model"@, "choices"@, "usage"@]);
    assert(choice.dom() =~= set!["index"@, "message"@, "finish_reason"@]);
    assert(made["choices"@]->Array_0 =~= seq![JsonV::Object(choice)]);
}

proof fn lemma_no_error(answer: Fields)
    requires
        is_answer(answer),
    ensures
        mapped_error(JsonV::Object(answer)) is None,
        answer_of(JsonV::Object(answer)) == JsonV::Object(answer),
{
    lemma_words();
    lemma_error_word();
}

proof fn lemma_error_word()
    ensures
        ascii_lowered("error"@) == "error"@,
{
    reveal_strlit("error");
    assert(ascii_lowered("error"@) =~= "error"@);
}

/// The reason says that the answer was cut off.
pub open spec fn cut_off(reason: Seq<char>) -> bool {
    ||| exists|a: Seq<char>, b: Seq<char>| reason == #[trigger] (a + "max_output_tokens"@ + b)
    ||| exists|a: Seq<char>, b: Seq<char>| reason == #[trigger] (a + "length"@ + b)
}

/// The reason under `outer`, if there is one.
pub open spec fn has_reason(answer: Fields, outer: Seq<char>) -> bool {
    answer.contains_key(outer) && answer[outer] is Object && answer[outer]->Object_0.contains_key(
        "reason"@,
    )
}

/// A completion ends for the tool calls that it brings; else because it was cut off, if the answer
/// says so; else by itself.
pub proof fn lemma_completion_ends(answer: Fields, created: i64)
    requires
        is_answer(answer),
        chat_completion(JsonV::Object(answer), created) is Ok,
    ensures
        ({
            let choice = choice_of(answer, created);
            let given = if has_reason(answer, "incomplete_details"@) {
                answer["incomplete_details"@]->Object_0["reason"@]
            } else {
                answer["status_details"@]->Object_0["reason"@]
            };
            let told = (has_reason(answer, "incomplete_details"@) || has_reason(
                answer,
                "status_details"@,
            )) && given is Str;
            says(
                choice,
                "finish_reason"@,
                if message_of(answer, created).contains_key("tool_calls"@) {
                    "tool_calls"@
                } else if told && cut_off(given->Str_0) {
                    "length"@
                } else {
                    "stop"@
                },
            )
        }),
{
    lemma_words();
    lemma_no_error(answer);
    let reason = incomplete_reason(JsonV::Object(answer));
    lemma_part_cuts(reason, "max_output_tokens"@);
    lemma_part_cuts(reason, "length"@);
}

/// A call of a function by its name.
pub open spec fn is_called(item: JsonV) -> bool {
    item matches JsonV::Object(fields) && says(fields, "type"@, "function_call"@) && speaks(
        fields,
        "name"@,
    ) && shows(said(fields, "name"@))
}

/// The member is there and not null.
pub open spec fn given(object: Fields, key: Seq<char>) -> bool {
    object.contains_key(key) && !(object[key] is Null)
}

/// A value as text: a string as it is, and any other value as JSON.
pub open spec fn as_text(value: JsonV) -> Seq<char> {
    if value is Str {
        value->Str_0
    } else {
        json_text(value)
    }
}

/// The tool call that the call of an answer becomes, `earlier` calls being before it: it has the
/// identifier that the call is answered by, the name without the white space around it and the
/// arguments as they are.
pub open spec fn call_shown(item: JsonV, earlier: nat) -> JsonV {
    let fields = item->Object_0;
    JsonV::Object(
        map![
            "id"@ => JsonV::Str(
                if speaks(fields, "call_id"@) {
                    said(fields, "call_id"@)
                } else if !fields.contains_key("call_id"@) && speaks(fields, "id"@) {
                    said(fields, "id"@)
                } else {
                    "call_"@ + decimal(earlier)
                },
            ),
            "type"@ => JsonV::Str("function"@),
            "function"@ => JsonV::Object(
                map![
                    "name"@ => JsonV::Str(trimmed(said(fields, "name"@))),
                    "arguments"@ => JsonV::Str(
                        if given(fields, "arguments"@) {
                            as_text(fields["arguments"@])
                        } else if given(fields, "input"@) {
                            as_text(fields["input"@])
                        } else {
                            "{}"@
                        },
                    ),
                ],
            ),
        ],
    )
}

/// A message of the assistant whose blocks are all shown.
pub open spec fn is_spoken(item: JsonV) -> bool {
    &&& item matches JsonV::Object(fields)
    &&& says(fields, "type"@, "message"@)
    &&& fields.contains_key("content"@)
    &&& fields["content"@] matches JsonV::Array(blocks)
    &&& blocks.len() > 0
    &&& forall|i: int| 0 <= i < blocks.len() ==> is_shown(#[trigger] blocks[i])
}

/// A block of text of an answer.
pub open spec fn is_shown(block: JsonV) -> bool {
    block matches JsonV::Object(fields) && (says(fields, "type"@, "output_text"@) || says(
        fields,
        "type"@,
        "text"@,
    )) && speaks(fields, "text"@)
}

/// The text of a message, block behind block.
pub open spec fn spoken_text(item: JsonV) -> Seq<char> {
    let blocks = item->Object_0["content"@]->Array_0;
    Seq::new(blocks.len(), |i: int| said(blocks[i]->Object_0, "text"@)).flatten()
}

/// What the output of an answer comes to.
spec fn output_fold(items: Seq<JsonV>) -> Outcome<OutputState> {
    try_fold(
        items,
        (None, Seq::empty()),
        |state: OutputState, i: int, item: JsonV| output_item(state, item),
    )
}

/// The messages of an answer are shown one behind the other, and its calls are the tool calls of the
/// completion, in their order.
pub proof fn lemma_output_shown(
    answer: Fields,
    created: i64,
    spoken: Seq<JsonV>,
    calls: Seq<JsonV>,
)
    requires
        is_answer(answer),
        member(answer, "output"@, JsonV::Array(spoken + calls)),
        forall|i: int| 0 <= i < spoken.len() ==> is_spoken(#[trigger] spoken[i]),
        forall|i: int| 0 <= i < calls.len() ==> is_called(#[trigger] calls[i]),
    ensures
        ({
            let message = message_of(answer, created);
            &&& chat_completion(JsonV::Object(answer), created) is Ok
            &&& says(
                message,
                "content"@,
                if spoken.len() > 0 {
                    Seq::new(spoken.len(), |i: int| spoken_text(spoken[i])).flatten()
                } else if speaks(answer, "output_text"@) {
                    said(answer, "output_text"@)
                } else {
                    Seq::empty()
                },
            )
            &&& if calls.len() > 0 {
                member(
                    message,
                    "tool_calls"@,
                    JsonV::Array(Seq::new(calls.len(), |i: int| call_shown(calls[i], i as nat))),
                )
            } else {
                !message.contains_key("tool_calls"@)
            }
        }),
{
    lemma_words();
    lemma_no_error(answer);
    lemma_spoken_output(spoken);
    lemma_called_output(spoken, calls);
    assert(output_items(JsonV::Object(answer)) == output_fold(spoken + calls));
}

proof fn lemma_shown_blocks(shown: Option<Seq<char>>, blocks: Seq<JsonV>)
    requires
        forall|i: int| 0 <= i < blocks.len() ==> is_shown(#[trigger] blocks[i]),
    ensures
        ({
            let text = Seq::new(blocks.len(), |i: int| said(blocks[i]->Object_0, "text"@)).flatten();
            shown_blocks(shown, blocks) == if blocks.len() == 0 {
                shown
            } else {
                Some(
                    match shown {
                        Some(before) => before + text,
                        None => text,
                    },
                )
            }
        }),
    decreases blocks.len(),
{
    lemma_words();
    if blocks.len() > 0 {
        let rest = blocks.drop_last();
        assert forall|i: int| 0 <= i < rest.len() implies is_shown(#[trigger] rest[i]) by {
            assert(is_shown(blocks[i]));
        }
        lemma_shown_blocks(shown, rest);
        let before = Seq::new(rest.len(), |i: int| said(rest[i]->Object_0, "text"@));
        let all = Seq::new(blocks.len(), |i: int| said(blocks[i]->Object_0, "text"@));
        let last = said(blocks.last()->Object_0, "text"@);
        assert(is_shown(blocks[blocks.len() - 1]));
        before.lemma_flatten_push(last);
        assert(before.push(last) =~= all);
        if rest.len() == 0 {
            assert(before.flatten() =~= Seq::empty());
        }
        if let Some(told) = shown {
            assert(told + before.flatten() + last =~= told + all.flatten());
            assert(told + last =~= told + (Seq::<char>::empty() + last));
        }
        assert(Seq::<char>::empty() + last =~= last);
    }
}

proof fn lemma_spoken_output(spoken: Seq<JsonV>)
    requires
        forall|i: int| 0 <= i < spoken.len() ==> is_spoken(#[trigger] spoken[i]),
    ensures
        output_fold(spoken) == Outcome::<OutputState>::Ok(
            (
                if spoken.len() == 0 {
                    None
                } else {
                    Some(Seq::new(spoken.len(), |i: int| spoken_text(spoken[i])).flatten())
                },
                Seq::empty(),
            ),
        ),
    decreases spoken.len(),
{
    lemma_words();
    if spoken.len() > 0 {
        let rest = spoken.drop_last();
        assert forall|i: int| 0 <= i < rest.len() implies is_spoken(#[trigger] rest[i]) by {
            assert(is_spoken(spoken[i]));
        }
        lemma_spoken_output(rest);
        assert(is_spoken(spoken[spoken.len() - 1]));
        let before = Seq::new(rest.len(), |i: int| spoken_text(rest[i]));
        let all = Seq::new(spoken.len(), |i: int| spoken_text(spoken[i]));
        before.lemma_flatten_push(spoken_text(spoken.last()));
        assert(before.push(spoken_text(spoken.last())) =~= all);
        let shown = output_fold(rest)->Ok_0.0;
        lemma_shown_blocks(shown, spoken.last()->Object_0["content"@]->Array_0);
        if rest.len() == 0 {
            assert(before.flatten() =~= Seq::empty());
            assert(Seq::<char>::empty() + spoken_text(spoken.last()) =~= spoken_text(
                spoken.last(),
            ));
        }
    }
}

proof fn lemma_called_output(spoken: Seq<JsonV>, calls: Seq<JsonV>)
    requires
        output_fold(spoken) matches Ok((_, made)) && made.len() == 0,
        forall|i: int| 0 <= i < calls.len() ==> is_called(#[trigger] calls[i]),
    ensures
        output_fold(spoken + calls) == Outcome::<OutputState>::Ok(
            (
                output_fold(spoken)->Ok_0.0,
                Seq::new(calls.len(), |i: int| call_shown(calls[i], i as nat)),
            ),
        ),
    decreases calls.len(),
{
    lemma_words();
    let all = spoken + calls;
    if calls.len() == 0 {
        assert(all =~= spoken);
        assert(output_fold(spoken)->Ok_0.1 =~= Seq::new(
            calls.len(),
            |i: int| call_shown(calls[i], i as nat),
        ));
    } else {
        let rest = calls.drop_last();
        assert forall|i: int| 0 <= i < rest.len() implies is_called(#[trigger] rest[i]) by {
            assert(is_called(calls[i]));
        }
        lemma_called_output(spoken, rest);
        assert(all.drop_last() =~= spoken + rest);
        assert(is_called(calls[calls.len() - 1]));
        assert(all.last() == calls.last());
        assert(output_fold(all)->Ok_0.1 =~= Seq::new(
            calls.len(),
            |i: int| call_shown(calls[i], i as nat),
        ));
    }
}

/// An item of the output that has nothing to show: neither a message nor a call.
pub open spec fn is_beside(item: JsonV) -> bool {
    item matches JsonV::Object(fields) ==> !says(fields, "type"@, "message"@) && !says(
        fields,
        "type"@,
        "function_call"@,
    )
}

/// An item of the output that has nothing to show makes no difference.
pub proof fn lemma_output_beside(
    answer: Fields,
    created: i64,
    before: Seq<JsonV>,
    beside: JsonV,
    after: Seq<JsonV>,
)
    requires
        is_answer(answer),
        is_beside(beside),
    ensures
        chat_completion(
            JsonV::Object(
                answer.insert("output"@, JsonV::Array(before + seq![beside] + after)),
            ),
            created,
        ) == chat_completion(
            JsonV::Object(answer.insert("output"@, JsonV::Array(before + after))),
            created,
        ),
{
    lemma_beside_fold(before, beside, after);
    lemma_output_alone_counts(answer, created, before + seq![beside] + after, before + after);
}

proof fn lemma_beside_fold(before: Seq<JsonV>, beside: JsonV, after: Seq<JsonV>)
    requires
        is_beside(beside),
    ensures
        output_fold(before + seq![beside] + after) == output_fold(before + after),
    decreases after.len(),
{
    lemma_words();
    let all = before + seq![beside] + after;
    let rest = before + after;
    if after.len() == 0 {
        assert(all.drop_last() =~= before);
        assert(rest =~= before);
        assert(all.last() == beside);
    } else {
        lemma_beside_fold(before, beside, after.drop_last());
        assert(all.drop_last() =~= before + seq![beside] + after.drop_last());
        assert(rest.drop_last() =~= before + after.drop_last());
        assert(all.last() == after.last() && rest.last() == after.last());
    }
}

proof fn lemma_output_alone_counts(answer: Fields, created: i64, one: Seq<JsonV>, other: Seq<JsonV>)
    requires
        is_answer(answer),
        output_fold(one) == output_fold(other),
    ensures
        chat_completion(JsonV::Object(answer.insert("output"@, JsonV::Array(one))), created)
            == chat_completion(
            JsonV::Object(answer.insert("output"@, JsonV::Array(other))),
            created,
        ),
{
    lemma_words();
    let p = answer.insert("output"@, JsonV::Array(one));
    let q = answer.insert("output"@, JsonV::Array(other));
    lemma_no_error(p);
    lemma_no_error(q);
    assert(output_items(JsonV::Object(p)) == output_fold(one));
    assert(output_items(JsonV::Object(q)) == output_fold(other));
    assert(openai_usage(JsonV::Object(p)) == openai_usage(JsonV::Object(q)));
    assert(incomplete_reason(JsonV::Object(p)) == incomplete_reason(JsonV::Object(q)));
    assert(message_content(JsonV::Object(p)) == message_content(JsonV::Object(q)));
}

/// It makes no difference whether a message stands before or after a call.
pub proof fn lemma_output_swapped(
    answer: Fields,
    created: i64,
    before: Seq<JsonV>,
    call: JsonV,
    spoken: JsonV,
    after: Seq<JsonV>,
)
    requires
        is_answer(answer),
        is_called(call),
        is_spoken(spoken),
    ensures
        chat_completion(
            JsonV::Object(
                answer.insert("output"@, JsonV::Array(before + seq![call, spoken] + after)),
            ),
            created,
        ) == chat_completion(
            JsonV::Object(
                answer.insert("output"@, JsonV::Array(before + seq![spoken, call] + after)),
            ),
            created,
        ),
{
    lemma_swapped_fold(before, call, spoken, after);
    lemma_output_alone_counts(
        answer,
        created,
        before + seq![call, spoken] + after,
        before + seq![spoken, call] + after,
    );
}

proof fn lemma_swapped_fold(before: Seq<JsonV>, call: JsonV, spoken: JsonV, after: Seq<JsonV>)
    requires
        is_called(call),
        is_spoken(spoken),
    ensures
        output_fold(before + seq![call, spoken] + after) == output_fold(
            before + seq![spoken, call] + after,
        ),
    decreases after.len(),
{
    lemma_words();
    let one = before + seq![call, spoken] + after;
    let other = before + seq![spoken, call] + after;
    if after.len() == 0 {
        assert(one.drop_last() =~= before.push(call));
        assert(other.drop_last() =~= before.push(spoken));
        assert(one.last() == spoken && other.last() == call);
        assert(before.push(call).drop_last() =~= before);
        assert(before.push(spoken).drop_last() =~= before);
        assert(before.push(call).last() == call && before.push(spoken).last() == spoken);
        assert(output_fold(one) == (match output_fold(before.push(call)) {
            Ok(state) => output_item(state, spoken),
            Err(e) => Err(e),
        }));
        assert(output_fold(other) == (match output_fold(before.push(spoken)) {
            Ok(state) => output_item(state, call),
            Err(e) => Err(e),
        }));
    } else {
        lemma_swapped_fold(before, call, spoken, after.drop_last());
        assert(one.drop_last() =~= before + seq![call, spoken] + after.drop_last());
        assert(other.drop_last() =~= before + seq![spoken, call] + after.drop_last());
        assert(one.last() == after.last() && other.last() == after.last());
    }
}

/// A block of a message that is not text to show makes no difference.
pub proof fn lemma_hidden_block(
    answer: Fields,
    created: i64,
    items: Seq<JsonV>,
    message: Fields,
    rest: Seq<JsonV>,
    before: Seq<JsonV>,
    hidden: JsonV,
    after: Seq<JsonV>,
)
    requires
        is_answer(answer),
        says(message, "type"@, "message"@),
        !is_shown(hidden),
    ensures
        ({
            let whole = message.insert("content"@, JsonV::Array(before + seq![hidden] + after));
            let plain = message.insert("content"@, JsonV::Array(before + after));
            chat_completion(
                JsonV::Object(
                    answer.insert(
                        "output"@,
                        JsonV::Array(items + seq![JsonV::Object(whole)] + rest),
                    ),
                ),
                created,
            ) == chat_completion(
                JsonV::Object(
                    answer.insert(
                        "output"@,
                        JsonV::Array(items + seq![JsonV::Object(plain)] + rest),
                    ),
                ),
                created,
            )
        }),
{
    let whole = JsonV::Object(
        message.insert("content"@, JsonV::Array(before + seq![hidden] + after)),
    );
    let plain = JsonV::Object(message.insert("content"@, JsonV::Array(before + after)));
    lemma_hidden_fold(items, message, rest, before, hidden, after);
    lemma_output_alone_counts(
        answer,
        created,
        items + seq![whole] + rest,
        items + seq![plain] + rest,
    );
}

proof fn lemma_hidden_fold(
    items: Seq<JsonV>,
    message: Fields,
    rest: Seq<JsonV>,
    before: Seq<JsonV>,
    hidden: JsonV,
    after: Seq<JsonV>,
)
    requires
        says(message, "type"@, "message"@),
        !is_shown(hidden),
    ensures
        ({
            let whole = JsonV::Object(
                message.insert("content"@, JsonV::Array(before + seq![hidden] + after)),
            );
            let plain = JsonV::Object(message.insert("content"@, JsonV::Array(before + after)));
            output_fold(items + seq![whole] + rest) == output_fold(items + seq![plain] + rest)
        }),
    decreases rest.len(),
{
    lemma_words();
    let whole = JsonV::Object(
        message.insert("content"@, JsonV::Array(before + seq![hidden] + after)),
    );
    let plain = JsonV::Object(message.insert("content"@, JsonV::Array(before + after)));
    let one = items + seq![whole] + rest;
    let other = items + seq![plain] + rest;
    if rest.len() == 0 {
        assert(one.drop_last() =~= items);
        assert(other.drop_last() =~= items);
        if let Ok(state) = output_fold(items) {
            lemma_hidden_shows_nothing(state.0, before, hidden, after);
        }
    } else {
        lemma_hidden_fold(items, message, rest.drop_last(), before, hidden, after);
        assert(one.drop_last() =~= items + seq![whole] + rest.drop_last());
        assert(other.drop_last() =~= items + seq![plain] + rest.drop_last());
        assert(one.last() == rest.last() && other.last() == rest.last());
    }
}

proof fn lemma_hidden_shows_nothing(
    shown: Option<Seq<char>>,
    before: Seq<JsonV>,
    hidden: JsonV,
    after: Seq<JsonV>,
)
    requires
        !is_shown(hidden),
    ensures
        shown_blocks(shown, before + seq![hidden] + after) == shown_blocks(shown, before + after),
    decreases after.len(),
{
    lemma_words();
    let all = before + seq![hidden] + after;
    let rest = before + after;
    if after.len() == 0 {
        assert(all.drop_last() =~= before);
        assert(rest =~= before);
        assert(all.last() == hidden);
    } else {
        lemma_hidden_shows_nothing(shown, before, hidden, after.drop_last());
        assert(all.drop_last() =~= before + seq![hidden] + after.drop_last());
        assert(rest.drop_last() =~= before + after.drop_last());
        assert(all.last() == after.last() && rest.last() == after.last());
    }
}

/// An answer in an event counts like the answer by itself.
pub proof fn lemma_answer_in_event(event: Fields, answer: Fields, created: i64)
    requires
        member(event, "response"@, JsonV::Object(answer)),
        !answer.contains_key("response"@),
    ensures
        chat_completion(JsonV::Object(event), created) == chat_completion(
            JsonV::Object(answer),
            created,
        ),
{
    lemma_words();
}

/// A call without a name is refused, wherever it stands.
pub proof fn lemma_call_without_name(answer: Fields, created: i64, i: int)
    requires
        is_answer(answer),
        0 <= i < output_of(answer).len(),
        output_of(answer)[i] matches JsonV::Object(fields) && says(
            fields,
            "type"@,
            "function_call"@,
        ),
        !is_called(output_of(answer)[i]),
    ensures
        chat_completion(JsonV::Object(answer), created) is Err,
{
    lemma_words();
    lemma_no_error(answer);
    let items = output_of(answer);
    let step = |state: OutputState, k: int, item: JsonV| output_item(state, item);
    let init: OutputState = (None, Seq::empty());
    if output_fold(items) is Ok {
        lemma_try_fold_prefix(items, init, step, i + 1);
        assert(items.take(i + 1).drop_last() =~= items.take(i));
        assert(items.take(i + 1).last() == items[i]);
    }
}

/// What describes the error of an answer that reports one: its error, or the answer itself where it
/// is an error as a whole, or the error of the answer that it brings.
pub open spec fn error_of(value: Fields) -> Option<JsonV> {
    if value.contains_key("error"@) {
        Some(value["error"@])
    } else if speaks(value, "type"@) && ascii_lowered(said(value, "type"@)) == "error"@ {
        Some(JsonV::Object(value))
    } else if value.contains_key("response"@) && value["response"@] is Object {
        let inner = value["response"@]->Object_0;
        if inner.contains_key("error"@) {
            Some(inner["error"@])
        } else if inner.contains_key("status_details"@) && inner["status_details"@] is Object
            && inner["status_details"@]->Object_0.contains_key("error"@) {
            Some(inner["status_details"@]->Object_0["error"@])
        } else {
            None
        }
    } else {
        None
    }
}

/// What is told of an error: what it says, its type, and its code and its parameter where it has
/// any.
pub open spec fn error_told(error: Fields, told: JsonV) -> bool {
    let given = if error.contains_key("message"@) {
        error["message"@]
    } else {
        error["error"@]
    };
    let spoken = (error.contains_key("message"@) || error.contains_key("error"@)) && given is Str
        && shows(given->Str_0);
    let base = map![
        "message"@ => JsonV::Str(
            if spoken {
                trimmed(given->Str_0)
            } else {
                "upstream request failed"@
            },
        ),
        "type"@ => JsonV::Str(
            if speaks(error, "type"@) {
                said(error, "type"@)
            } else {
                "api_error"@
            },
        ),
    ];
    let coded = if speaks(error, "code"@) && shows(said(error, "code"@)) {
        base.insert("code"@, JsonV::Str(trimmed(said(error, "code"@))))
    } else {
        base
    };
    let whole = if speaks(error, "param"@) && shows(said(error, "param"@)) {
        coded.insert("param"@, JsonV::Str(trimmed(said(error, "param"@))))
    } else {
        coded
    };
    told == JsonV::Object(map!["error"@ => JsonV::Object(whole)])
}

/// An error that an upstream message reports is told in the form that a chat client knows; where it
/// reports none, or none that is an object, there is nothing to tell.
pub proof fn lemma_error_told(value: Fields)
    ensures
        match error_of(value) {
            Some(JsonV::Object(error)) => mapped_error(JsonV::Object(value)) matches Some(told)
                && error_told(error, told),
            _ => mapped_error(JsonV::Object(value)) is None,
        },
{
    lemma_words();
    lemma_error_word();
}

/// The completion of an answer that reports an error is the error.
pub proof fn lemma_answer_with_error(value: Fields, error: Fields, created: i64)
    requires
        !value.contains_key("response"@),
        error_of(value) == Some(JsonV::Object(error)),
    ensures
        chat_completion(JsonV::Object(value), created) matches Ok(told) && error_told(error, told),
{
    lemma_words();
    lemma_error_told(value);
}

/// The tool calls of a completion are the calls of the output, whatever stands between them: as many
/// and in the same order.
pub proof fn lemma_every_call_is_shown(answer: Fields, created: i64)
    requires
        is_answer(answer),
        chat_completion(JsonV::Object(answer), created) is Ok,
    ensures
        ({
            let calls = output_of(answer).filter(|item: JsonV| is_called(item));
            let message = message_of(answer, created);
            if calls.len() > 0 {
                member(
                    message,
                    "tool_calls"@,
                    JsonV::Array(Seq::new(calls.len(), |i: int| call_shown(calls[i], i as nat))),
                )
            } else {
                !message.contains_key("tool_calls"@)
            }
        }),
{
    lemma_words();
    lemma_no_error(answer);
    let items = output_of(answer);
    assert(output_items(JsonV::Object(answer)) == output_fold(items));
    lemma_called_among(items);
}

proof fn lemma_called_among(items: Seq<JsonV>)
    requires
        output_fold(items) is Ok,
    ensures
        ({
            let calls = items.filter(|item: JsonV| is_called(item));
            output_fold(items)->Ok_0.1 == Seq::new(
                calls.len(),
                |i: int| call_shown(calls[i], i as nat),
            )
        }),
    decreases items.len(),
{
    lemma_words();
    reveal(Seq::filter);
    let calls = items.filter(|item: JsonV| is_called(item));
    if items.len() == 0 {
        assert(output_fold(items)->Ok_0.1 =~= Seq::new(
            calls.len(),
            |i: int| call_shown(calls[i], i as nat),
        ));
    } else {
        lemma_called_among(items.drop_last());
        let before = items.drop_last().filter(|item: JsonV| is_called(item));
        assert(output_fold(items)->Ok_0.1 =~= Seq::new(
            calls.len(),
            |i: int| call_shown(calls[i], i as nat),
        )) by {
            if is_called(items.last()) {
                assert(calls == before.push(items.last()));
            } else {
                assert(calls == before);
            }
        }
    }
}

} // verus!
