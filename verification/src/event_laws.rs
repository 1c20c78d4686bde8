//! What the events of a stream tell of its answer, event by event, and what the answer comes to.

use vstd::prelude::*;
use vstd::string::*;
use vstd::utf8::encode_utf8;

use crate::answer_laws::{
    as_text, count, error_of, error_told, given, is_count, lemma_error_told, output_of, sum_of,
};
use crate::chat_completion::chat_completion;
use crate::chat_laws::{one_call, one_text, shows};
use crate::codec::json_read;
use crate::json::{Fields, JsonV, NumV};
use crate::response_stream::{
    event_captured, has_item, in_order, item_id, lemma_order_unique, lemma_ordered, line_payload,
    lines_captured, merged, new_call_items, ordered, state_completion, stream_completion, CallV,
    StreamV,
};
use crate::sequence::Outcome;
use crate::text::{decimal, has_prefix, joined, trimmed};
use crate::text_laws::{
    all_space, is_bare, lemma_lines_of_joined, lemma_prefixes_taken, lemma_trimmed_of,
};
use crate::words::{lemma_words, member, said, says, speaks};

verus! {

/// The event reports an error.
pub open spec fn is_failure(event: Fields) -> bool {
    error_of(event) matches Some(JsonV::Object(_))
}

/// The event is one of a kind, and no failure.
pub open spec fn is_event(event: Fields, kind: Seq<char>) -> bool {
    !is_failure(event) && says(event, "type"@, kind)
}

/// A name that an event gives: the answer in it first, then the event itself.
pub open spec fn named_by(
    event: Fields,
    key: Seq<char>,
    before: Option<Seq<char>>,
) -> Option<Seq<char>> {
    let inner = event["response"@];
    if event.contains_key("response"@) && inner is Object && speaks(inner->Object_0, key) {
        Some(said(inner->Object_0, key))
    } else if speaks(event, key) {
        Some(said(event, key))
    } else {
        before
    }
}

/// The usage that an event gives: that of the answer in it, or where there is no answer its own.
pub open spec fn usage_by(event: Fields) -> Fields {
    let teller = if event.contains_key("response"@) {
        event["response"@]
    } else {
        JsonV::Object(event)
    };
    if teller is Object && teller->Object_0.contains_key("usage"@)
        && teller->Object_0["usage"@] is Object {
        teller->Object_0["usage"@]->Object_0
    } else {
        Map::empty()
    }
}

/// A count that a usage gives under the one name, or where that is missing under the other.
pub open spec fn counted(
    usage: Fields,
    name: Seq<char>,
    older: Seq<char>,
    before: Option<i64>,
) -> Option<i64> {
    let given = if usage.contains_key(name) {
        usage[name]
    } else {
        usage[older]
    };
    if (usage.contains_key(name) || usage.contains_key(older)) && is_count(given) {
        Some(given->Number_0->Int_0 as i64)
    } else {
        before
    }
}

/// Every event may tell what the answer is known by, its model and its usage; the latest counts.
pub proof fn lemma_event_tells_of_answer(state: StreamV, event: Fields)
    ensures
        ({
            let after = event_captured(state, JsonV::Object(event));
            let usage = usage_by(event);
            &&& after.response_id == named_by(event, "id"@, state.response_id)
            &&& after.model == named_by(event, "model"@, state.model)
            &&& after.input_tokens == counted(
                usage,
                "input_tokens"@,
                "prompt_tokens"@,
                state.input_tokens,
            )
            &&& after.output_tokens == counted(
                usage,
                "output_tokens"@,
                "completion_tokens"@,
                state.output_tokens,
            )
            &&& after.total_tokens == counted(
                usage,
                "total_tokens"@,
                "total_tokens"@,
                state.total_tokens,
            )
        }),
{
    lemma_words();
    lemma_error_told(event);
}

/// A failure is kept, and nothing but a failure; one that comes later replaces it.
pub proof fn lemma_failure_is_kept(state: StreamV, event: Fields)
    ensures
        ({
            let after = event_captured(state, JsonV::Object(event));
            match error_of(event) {
                Some(JsonV::Object(error)) => after.error matches Some(told) && error_told(
                    error,
                    told,
                ),
                _ => after.error == state.error,
            }
        }),
{
    lemma_words();
    lemma_error_told(event);
}

/// The text of an answer is the texts that its events bring, one behind the other; no other event
/// changes it.
pub proof fn lemma_event_brings_text(state: StreamV, event: Fields)
    ensures
        event_captured(state, JsonV::Object(event)).content == (if is_event(
            event,
            "response.output_text.delta"@,
        ) && speaks(event, "delta"@) {
            state.content + said(event, "delta"@)
        } else {
            state.content
        }),
{
    lemma_words();
    lemma_error_told(event);
    assert(state.content + Seq::<char>::empty() =~= state.content);
}

/// The answer that an event says to be complete is kept; no other event changes it.
pub proof fn lemma_event_completes(state: StreamV, event: Fields)
    ensures
        event_captured(state, JsonV::Object(event)).completed == (if is_event(
            event,
            "response.completed"@,
        ) && event.contains_key("response"@) {
            Some(event["response"@])
        } else {
            state.completed
        }),
{
    lemma_words();
    lemma_error_told(event);
}

/// The event tells of a call that is done.
pub open spec fn tells_of_call(event: Fields) -> bool {
    &&& is_event(event, "response.output_item.done"@)
    &&& event.contains_key("item"@)
    &&& event["item"@] matches JsonV::Object(item)
    &&& says(item, "type"@, "function_call"@)
}

/// The call that an event tells of.
pub open spec fn call_told(event: Fields) -> Fields {
    event["item"@]->Object_0
}

/// The call stands at place `n`: the event says so, or where it says nothing of a place the call.
pub open spec fn stands_at(event: Fields, n: int) -> bool {
    if event.contains_key("output_index"@) {
        event["output_index"@] == count(n)
    } else {
        member(call_told(event), "index"@, count(n))
    }
}

/// Neither the event nor the call gives a number to place the call by.
pub open spec fn is_unplaced(event: Fields) -> bool {
    if event.contains_key("output_index"@) {
        !is_place(event["output_index"@])
    } else {
        !(call_told(event).contains_key("index"@) && is_place(call_told(event)["index"@]))
    }
}

/// A number that a call can be placed by.
pub open spec fn is_place(value: JsonV) -> bool {
    value matches JsonV::Number(NumV::Int(n)) && 0 <= n <= u64::MAX
}

/// What is known of a call after an event has told of it: the identifier that it is answered by, its
/// name and its arguments, as far as the event tells them, and else what was known before.
pub open spec fn call_after(item: Fields, before: CallV) -> CallV {
    CallV {
        id: if speaks(item, "call_id"@) {
            Some(said(item, "call_id"@))
        } else if !item.contains_key("call_id"@) && speaks(item, "id"@) {
            Some(said(item, "id"@))
        } else {
            before.id
        },
        name: if speaks(item, "name"@) {
            Some(said(item, "name"@))
        } else {
            before.name
        },
        arguments: if given(item, "arguments"@) {
            as_text(item["arguments"@])
        } else if given(item, "input"@) {
            as_text(item["input"@])
        } else {
            before.arguments
        },
    }
}

/// A call that is done is kept at its place, and behind the others where it is given none; the other
/// calls stay, and no other event changes any.
pub proof fn lemma_event_brings_call(state: StreamV, event: Fields, place: usize)
    requires
        tells_of_call(event) ==> stands_at(event, place as int) || (is_unplaced(event) && place
            == state.calls.len()),
    ensures
        event_captured(state, JsonV::Object(event)).calls == (if tells_of_call(event) {
            state.calls.insert(
                place,
                call_after(
                    call_told(event),
                    if state.calls.contains_key(place) {
                        state.calls[place]
                    } else {
                        CallV { id: None, name: None, arguments: Seq::empty() }
                    },
                ),
            )
        } else {
            state.calls
        }),
{
    lemma_words();
    lemma_error_told(event);
}

/// An event that is not an object tells nothing.
pub proof fn lemma_event_not_object(state: StreamV, event: JsonV)
    requires
        !(event is Object),
    ensures
        event_captured(state, event) == state,
{
}

/// A line with an event in it is the mark of data with JSON behind it, whatever white space stands
/// between and around them.
pub open spec fn is_data(line: Seq<char>, payload: Seq<char>) -> bool {
    &&& is_bare(payload)
    &&& !has_prefix(payload, "data:"@)
    &&& exists|a: Seq<char>, b: Seq<char>, c: Seq<char>|
        {
            &&& all_space(a) && all_space(b) && all_space(c)
            &&& line == #[trigger] (a + "data:"@ + b + payload + c)
        }
}

/// The payload of a line of data is what stands behind the mark.
proof fn lemma_payload(line: Seq<char>, payload: Seq<char>)
    requires
        is_data(line, payload),
        payload.len() > 0,
    ensures
        line_payload(line) == Some(payload),
{
    let mark = "data:"@;
    reveal_strlit("data:");
    let (a, b, c) = choose|a: Seq<char>, b: Seq<char>, c: Seq<char>|
        {
            &&& all_space(a) && all_space(b) && all_space(c)
            &&& line == #[trigger] (a + mark + b + payload + c)
        };
    let bare = mark + b + payload;
    assert(a + mark + b + payload + c =~= a + bare + c);
    assert(bare[0] == 'd');
    assert(bare[bare.len() - 1] == payload[payload.len() - 1]);
    lemma_trimmed_of(a, bare, c);
    let rest = b + payload;
    assert(bare =~= mark + rest);
    assert(bare.take(mark.len() as int) =~= mark);
    lemma_prefixes_taken(rest, mark);
    if has_prefix(rest, mark) {
        if b.len() > 0 {
            assert(rest[0] == rest.take(mark.len() as int)[0]);
            assert(rest[0] == b[0]);
        } else {
            assert(rest =~= payload);
        }
    }
    let none = Seq::<char>::empty();
    lemma_trimmed_of(b, payload, none);
    assert(b + payload + none =~= rest);
}

/// A line with an event in it counts as the event does, unless the stream has ended before it; an
/// event that reports a failure ends the stream.
pub proof fn lemma_line_counts(
    lines: Seq<Seq<char>>,
    line: Seq<char>,
    payload: Seq<char>,
    event: Fields,
)
    requires
        is_data(line, payload),
        payload.len() > 0,
        payload != "[DONE]"@,
        json_read(encode_utf8(payload)) == Some(JsonV::Object(event)),
    ensures
        lines_captured(lines.push(line)) == (if lines_captured(lines).1 {
            lines_captured(lines)
        } else {
            (
                event_captured(lines_captured(lines).0, JsonV::Object(event)),
                is_failure(event),
            )
        }),
{
    lemma_payload(line, payload);
    lemma_error_told(event);
    assert(lines.push(line).drop_last() =~= lines);
    assert(lines.push(line).last() == line);
}

/// The mark of the end ends the stream and changes nothing else.
pub proof fn lemma_end_counts(lines: Seq<Seq<char>>, line: Seq<char>)
    requires
        is_data(line, "[DONE]"@),
    ensures
        lines_captured(lines.push(line)) == (lines_captured(lines).0, true),
{
    reveal_strlit("[DONE]");
    lemma_payload(line, "[DONE]"@);
    assert(lines.push(line).drop_last() =~= lines);
    assert(lines.push(line).last() == line);
}

/// A stream of no lines has told nothing.
pub proof fn lemma_no_lines()
    ensures
        ({
            let (state, ended) = lines_captured(Seq::empty());
            &&& !ended
            &&& state.response_id is None && state.model is None
            &&& state.input_tokens is None && state.output_tokens is None
                && state.total_tokens is None
            &&& state.content.len() == 0
            &&& state.calls == Map::<usize, CallV>::empty()
            &&& state.completed is None && state.error is None
        }),
{
}

/// The places of the calls, from the lowest to the highest.
pub open spec fn rising(places: Seq<usize>, calls: Map<usize, CallV>) -> bool {
    &&& forall|i: int, j: int| 0 <= i < j < places.len() ==> places[i] < places[j]
    &&& forall|place: usize| #[trigger] places.contains(place) <==> calls.contains_key(place)
}

/// The identifier of the call at a place: the one that the stream told, or a numbered one.
pub open spec fn id_at(calls: Map<usize, CallV>, place: usize) -> Seq<char> {
    match calls[place].id {
        Some(id) => id,
        None => "call_"@ + decimal(place as nat),
    }
}

/// The item of the call at a place.
pub open spec fn item_at(calls: Map<usize, CallV>, place: usize) -> JsonV {
    one_call(
        id_at(calls, place),
        match calls[place].name {
            Some(name) => name,
            None => "tool"@,
        },
        calls[place].arguments,
    )
}

/// The item goes by the identifier: the one that it is answered by, or where that is missing its
/// own.
pub open spec fn goes_by(item: JsonV, id: Seq<char>) -> bool {
    item matches JsonV::Object(fields) && if fields.contains_key("call_id"@) {
        says(fields, "call_id"@, id)
    } else {
        says(fields, "id"@, id)
    }
}

/// One of the items goes by the identifier.
pub open spec fn is_listed(items: Seq<JsonV>, id: Seq<char>) -> bool {
    exists|i: int| 0 <= i < items.len() && goes_by(#[trigger] items[i], id)
}

/// A completed answer keeps what it lists and gets the calls that the stream told of and that it
/// does not list, in the order of their places; it shows the text of the stream where it shows none;
/// all else of it stays.
pub proof fn lemma_answer_merged(response: Fields, state: StreamV, places: Seq<usize>)
    requires
        rising(places, state.calls),
    ensures
        ({
            let listed = output_of(response);
            let missing = places.filter(
                |place: usize| !is_listed(listed, id_at(state.calls, place)),
            );
            let output = listed + Seq::new(
                missing.len(),
                |i: int| item_at(state.calls, missing[i]),
            );
            let mute = !(speaks(response, "output_text"@) && shows(said(response, "output_text"@)));
            let told = if mute && shows(state.content) {
                response.insert("output_text"@, JsonV::Str(state.content))
            } else {
                response
            };
            merged(JsonV::Object(response), state) == Outcome::<JsonV>::Ok(
                JsonV::Object(told.insert("output"@, JsonV::Array(output))),
            )
        }),
{
    lemma_words();
    assert(trimmed(Seq::<char>::empty()).len() == 0);
    lemma_rising_is_order(places, state.calls);
    let listed = output_of(response);
    let missing = places.filter(|place: usize| !is_listed(listed, id_at(state.calls, place)));
    lemma_new_items(places, state.calls, listed);
    assert(new_call_items(places, state.calls, listed) =~= Seq::new(
        missing.len(),
        |i: int| item_at(state.calls, missing[i]),
    ));
}

proof fn lemma_rising_is_order(places: Seq<usize>, calls: Map<usize, CallV>)
    requires
        rising(places, calls),
    ensures
        ordered(calls.dom()) == places,
{
    assert(places.to_set() =~= calls.dom()) by {
        assert forall|place: usize| places.to_set().contains(place) == calls.dom().contains(
            place,
        ) by {
            assert(places.contains(place) <==> calls.contains_key(place));
        }
    }
    assert(in_order(places, calls.dom()));
    lemma_order_unique(places, ordered(calls.dom()), calls.dom());
}

proof fn lemma_new_items(places: Seq<usize>, calls: Map<usize, CallV>, known: Seq<JsonV>)
    ensures
        ({
            let missing = places.filter(|place: usize| !is_listed(known, id_at(calls, place)));
            new_call_items(places, calls, known) == Seq::new(
                missing.len(),
                |i: int| item_at(calls, missing[i]),
            )
        }),
    decreases places.len(),
{
    reveal(Seq::filter);
    let missing = places.filter(|place: usize| !is_listed(known, id_at(calls, place)));
    let all = Seq::new(missing.len(), |i: int| item_at(calls, missing[i]));
    if places.len() == 0 {
        assert(new_call_items(places, calls, known) =~= all);
    } else {
        let rest = places.drop_last();
        lemma_new_items(rest, calls, known);
        let before = rest.filter(|place: usize| !is_listed(known, id_at(calls, place)));
        lemma_listed(known, id_at(calls, places.last()));
        if is_listed(known, id_at(calls, places.last())) {
            assert(missing == before);
        } else {
            assert(missing == before.push(places.last()));
        }
        assert(new_call_items(places, calls, known) =~= all);
    }
}

proof fn lemma_listed(items: Seq<JsonV>, id: Seq<char>)
    ensures
        has_item(items, id) <==> is_listed(items, id),
{
    lemma_words();
    assert forall|i: int| 0 <= i < items.len() implies (item_id(items[i]) == Some(id) <==> goes_by(
        #[trigger] items[i],
        id,
    )) by {}
    if has_item(items, id) {
        let i = choose|i: int| 0 <= i < items.len() && #[trigger] item_id(items[i]) == Some(id);
        assert(goes_by(items[i], id));
    }
    if is_listed(items, id) {
        let i = choose|i: int| 0 <= i < items.len() && goes_by(#[trigger] items[i], id);
        assert(item_id(items[i]) == Some(id));
    }
}

/// The output of a completed answer after the stream has been put into it.
pub open spec fn merged_output(response: Fields, state: StreamV) -> Seq<JsonV> {
    merged(JsonV::Object(response), state)->Ok_0->Object_0["output"@]->Array_0
}

/// No call that a completed answer lists is put into it once more: what is put behind its own items
/// is calls that none of these goes by. If no two calls of the stream go by one identifier, no two
/// of them do either.
pub proof fn lemma_listed_call_not_repeated(response: Fields, state: StreamV)
    requires
        state.calls.dom().finite(),
    ensures
        ({
            let listed = output_of(response);
            let output = merged_output(response, state);
            &&& merged(JsonV::Object(response), state) is Ok
            &&& listed.len() <= output.len()
            &&& output.take(listed.len() as int) == listed
            &&& forall|k: int|
                listed.len() <= k < output.len() ==> (#[trigger] output[k] matches JsonV::Object(call)
                    && says(call, "type"@, "function_call"@) && speaks(call, "call_id"@))
            &&& forall|j: int, k: int|
                0 <= j < listed.len() <= k < output.len() ==> !goes_by(
                    #[trigger] listed[j],
                    said((#[trigger] output[k])->Object_0, "call_id"@),
                )
            &&& (forall|p: usize, q: usize|
                p != q && #[trigger] state.calls.contains_key(p)
                    && #[trigger] state.calls.contains_key(q) ==> id_at(state.calls, p) != id_at(
                    state.calls,
                    q,
                )) ==> forall|j: int, k: int|
                listed.len() <= j < k < output.len() ==> said(
                    (#[trigger] output[j])->Object_0,
                    "call_id"@,
                ) != said((#[trigger] output[k])->Object_0, "call_id"@)
        }),
{
    lemma_words();
    let places = ordered(state.calls.dom());
    lemma_ordered(state.calls.dom());
    assert(rising(places, state.calls)) by {
        assert forall|place: usize| #[trigger] places.contains(place)
            <==> state.calls.contains_key(place) by {
            assert(places.to_set().contains(place) == state.calls.dom().contains(place));
        }
    }
    lemma_answer_merged(response, state, places);
    let listed = output_of(response);
    let pred = |place: usize| !is_listed(listed, id_at(state.calls, place));
    let missing = places.filter(pred);
    let output = merged_output(response, state);
    assert(output =~= listed + Seq::new(missing.len(), |i: int| item_at(state.calls, missing[i])));
    assert(output.take(listed.len() as int) =~= listed);
    lemma_filter_rises(places, pred);
    assert forall|j: int, k: int| 0 <= j < listed.len() <= k < output.len() implies !goes_by(
        #[trigger] listed[j],
        said((#[trigger] output[k])->Object_0, "call_id"@),
    ) by {
        let place = missing[k - listed.len()];
        assert(pred(place));
        assert(output[k] == item_at(state.calls, place));
        if goes_by(listed[j], id_at(state.calls, place)) {
            assert(is_listed(listed, id_at(state.calls, place)));
        }
    }
    assert forall|i: int| 0 <= i < missing.len() implies state.calls.contains_key(
        #[trigger] missing[i],
    ) by {
        assert(places.contains(missing[i]));
    }
    if forall|p: usize, q: usize|
        p != q && #[trigger] state.calls.contains_key(p) && #[trigger] state.calls.contains_key(q)
            ==> id_at(state.calls, p) != id_at(state.calls, q) {
        assert forall|j: int, k: int| listed.len() <= j < k < output.len() implies said(
            (#[trigger] output[j])->Object_0,
            "call_id"@,
        ) != said((#[trigger] output[k])->Object_0, "call_id"@) by {
            let p = missing[j - listed.len()];
            let q = missing[k - listed.len()];
            assert(p < q);
            assert(state.calls.contains_key(p) && state.calls.contains_key(q));
        }
    }
}

proof fn lemma_filter_rises(places: Seq<usize>, pred: spec_fn(usize) -> bool)
    requires
        forall|i: int, j: int| 0 <= i < j < places.len() ==> places[i] < places[j],
    ensures
        forall|i: int, j: int|
            0 <= i < j < places.filter(pred).len() ==> places.filter(pred)[i] < places.filter(
                pred,
            )[j],
        forall|i: int|
            0 <= i < places.filter(pred).len() ==> places.contains(
                #[trigger] places.filter(pred)[i],
            ) && pred(places.filter(pred)[i]),
    decreases places.len(),
{
    reveal(Seq::filter);
    if places.len() > 0 {
        let rest = places.drop_last();
        lemma_filter_rises(rest, pred);
        let kept = rest.filter(pred);
        assert forall|i: int| 0 <= i < kept.len() implies #[trigger] kept[i] < places.last()
            && places.contains(kept[i]) by {
            assert(rest.contains(kept[i]));
            let k = choose|k: int| 0 <= k < rest.len() && rest[k] == kept[i];
            assert(places[k] == kept[i]);
        }
        assert(places[places.len() - 1] == places.last());
    }
}

/// A stream that has reported a failure comes to the failure.
pub proof fn lemma_failed_stream(state: StreamV, created: i64)
    requires
        state.error is Some,
    ensures
        state_completion(state, created) == Outcome::<JsonV>::Ok(state.error->0),
{
}

/// A stream that was completed comes to what its answer comes to, with what the stream told put into
/// it; an answer that is not an object is refused.
pub proof fn lemma_completed_stream(state: StreamV, created: i64)
    requires
        state.error is None,
        state.completed is Some,
    ensures
        match state.completed {
            Some(JsonV::Object(response)) => merged(
                JsonV::Object(response),
                state,
            ) matches Ok(answer) && state_completion(state, created) == chat_completion(
                answer,
                created,
            ),
            _ => state_completion(state, created) is Err,
        },
{
}

/// A stream that was not completed comes to what an answer with all that it told comes to: its text
/// as a message, its calls in the order of their places, and the counts of its usage.
pub proof fn lemma_open_stream(state: StreamV, places: Seq<usize>, created: i64)
    requires
        state.error is None,
        state.completed is None,
        rising(places, state.calls),
    ensures
        ({
            let spoken = if state.content.len() > 0 {
                seq![one_text("assistant"@, "output_text"@, state.content)]
            } else {
                Seq::empty()
            };
            let calls = Seq::new(places.len(), |i: int| item_at(state.calls, places[i]));
            let input = match state.input_tokens {
                Some(n) => n as int,
                None => 0,
            };
            let output = match state.output_tokens {
                Some(n) => n as int,
                None => 0,
            };
            let total = match state.total_tokens {
                Some(n) => n as int,
                None => sum_of(input, output),
            };
            let answer = map![
                "id"@ => JsonV::Str(
                    match state.response_id {
                        Some(id) => id,
                        None => "resp_codexmanager"@,
                    },
                ),
                "model"@ => JsonV::Str(
                    match state.model {
                        Some(model) => model,
                        None => "unknown"@,
                    },
                ),
                "output_text"@ => JsonV::Str(state.content),
                "output"@ => JsonV::Array(spoken + calls),
                "usage"@ => JsonV::Object(
                    map![
                        "input_tokens"@ => count(input),
                        "output_tokens"@ => count(output),
                        "total_tokens"@ => count(total),
                    ],
                ),
            ];
            state_completion(state, created) == chat_completion(JsonV::Object(answer), created)
        }),
{
    lemma_words();
    lemma_rising_is_order(places, state.calls);
    let none = Seq::<JsonV>::empty();
    lemma_new_items(places, state.calls, none);
    lemma_nothing_listed(places, state.calls);
}

proof fn lemma_nothing_listed(places: Seq<usize>, calls: Map<usize, CallV>)
    ensures
        places.filter(|place: usize| !is_listed(Seq::empty(), id_at(calls, place))) == places,
    decreases places.len(),
{
    reveal(Seq::filter);
    if places.len() > 0 {
        lemma_nothing_listed(places.drop_last(), calls);
        assert(!is_listed(Seq::empty(), id_at(calls, places.last())));
        assert(places.drop_last().push(places.last()) =~= places);
    }
}

/// A stream is read line by line, and the lines are what stands between its line feeds.
pub proof fn lemma_stream_in_lines(lines: Seq<Seq<char>>, created: i64)
    requires
        lines.len() > 0,
        forall|i: int| 0 <= i < lines.len() ==> !(#[trigger] lines[i]).contains('\n'),
    ensures
        stream_completion(joined(lines, seq!['\n']), created) == state_completion(
            lines_captured(lines).0,
            created,
        ),
{
    lemma_lines_of_joined(lines);
}

} // verus!
