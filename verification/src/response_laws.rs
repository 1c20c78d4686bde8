//! What holds of every answer that goes back to a chat client.

use vstd::prelude::*;
use vstd::string::*;
use vstd::utf8::*;

use crate::chat_completion::{
    answer_of, capped_sum, chat_completion, error_part, finish_reason, mapped_error,
    message_content, openai_usage, output_item, output_items, shown_block, shown_blocks,
    token_count, OutputState,
};
use crate::chat_sse::{
    as_json_reply, as_sse_reply, call_chunks, chat_sse, chunk, chunk_head, completion_chunks,
    first_choice, json_reply, last_chunk, sse_completion, text_chunks, ChunkHead,
};
use crate::items::message_item;
use crate::json::{field_array, field_str, i64_of, jint, js, no_fields, or_else, Fields, JsonV};
use crate::response_stream::{
    has_item, item_id, lemma_ordered, lines_captured, merged, new_call_items, ordered,
    state_completion, stream_call_id, stream_call_item, synthesized, CallV, StreamV,
};
use crate::sequence::{try_fold, Outcome};
use crate::text::{is_blank, lines_of};

verus! {

/// The names of the members of a completion and of a Responses answer differ.
proof fn lemma_member_names()
    ensures
        "id"@.len() == 2,
        "type"@.len() == 4,
        "role"@.len() == 4,
        "name"@.len() == 4,
        "type"@ != "role"@,
        "type"@ != "name"@,
        "text"@.len() == 4,
        "type"@ != "text"@,
        "model"@.len() == 5,
        "usage"@.len() == 5,
        "index"@.len() == 5,
        "error"@.len() == 5,
        "delta"@.len() == 5,
        "error"@ != "model"@,
        "error"@ != "usage"@,
        "error"@ != "index"@,
        "error"@ != "delta"@,
        "model"@ != "usage"@,
        "delta"@ != "index"@,
        "object"@.len() == 6,
        "output"@.len() == 6,
        "object"@ != "output"@,
        "created"@.len() == 7,
        "choices"@.len() == 7,
        "content"@.len() == 7,
        "message"@.len() == 7,
        "call_id"@.len() == 7,
        "created"@ != "choices"@,
        "response"@.len() == 8,
        "arguments"@.len() == 9,
        "tool_calls"@.len() == 10,
        "output_text"@.len() == 11,
        "finish_reason"@.len() == 13,
        "function_call"@.len() == 13,
        "stop"@.len() == 4,
        "length"@.len() == 6,
{
    reveal_strlit("id");
    reveal_strlit("type");
    reveal_strlit("role");
    reveal_strlit("name");
    reveal_strlit("text");
    reveal_strlit("model");
    reveal_strlit("usage");
    reveal_strlit("index");
    reveal_strlit("error");
    reveal_strlit("delta");
    reveal_strlit("object");
    reveal_strlit("output");
    reveal_strlit("created");
    reveal_strlit("choices");
    reveal_strlit("content");
    reveal_strlit("message");
    reveal_strlit("call_id");
    reveal_strlit("response");
    reveal_strlit("arguments");
    reveal_strlit("tool_calls");
    reveal_strlit("output_text");
    reveal_strlit("finish_reason");
    reveal_strlit("function_call");
    reveal_strlit("stop");
    reveal_strlit("length");
    assert("type"@[1] == 'y' && "text"@[1] == 'e' && "role"@[1] == 'o' && "name"@[1] == 'a');
    assert("error"@[0] == 'e' && "model"@[0] == 'm' && "usage"@[0] == 'u');
    assert("index"@[0] == 'i' && "delta"@[0] == 'd');
    assert("object"@[1] == 'b' && "output"@[1] == 'u');
    assert("created"@[1] == 'r' && "choices"@[1] == 'h');
}

/// A completion that is no error has no member `error`; it bears the time that it was made at, and
/// its one choice is a message of the assistant with a text.
pub proof fn lemma_completion_shape(value: JsonV, created: i64)
    requires
        mapped_error(answer_of(value)) is None,
    ensures
        chat_completion(value, created) matches Ok(payload) ==> {
            &&& payload.get("error"@) is None
            &&& payload.get_str("object"@) == Some("chat.completion"@)
            &&& payload.get("created"@) == Some(jint(created as int))
            &&& payload.get("usage"@) == Some(openai_usage(answer_of(value)))
            &&& payload.get_array("choices"@) matches Some(choices) && choices.len() == 1
            &&& first_choice(payload) matches Some(choice) && (choice.get_object("message"@)
                matches Some(message) && field_str(message, "role"@) == Some("assistant"@)
                && field_str(message, "content"@) == Some(
                message_content(answer_of(value))->Ok_0.0,
            ))
        },
{
    lemma_member_names();
}

/// An error goes to the client as it was made out, whatever the time, and as JSON, whether or not
/// the client asked for a stream.
pub proof fn lemma_error_passes(value: JsonV, created: i64)
    ensures
        mapped_error(answer_of(value)) matches Some(error) ==> {
            &&& chat_completion(value, created) == Outcome::Ok(error)
            &&& error.get("error"@) is Some
            &&& as_json_reply(chat_completion(value, created)) == Outcome::Ok(json_reply(error))
            &&& as_sse_reply(chat_completion(value, created), created) == Outcome::Ok(
                json_reply(error),
            )
        },
{
}

/// A completion can always be sent as a stream, and the stream does not depend on when that happens.
pub proof fn lemma_completion_streams(value: JsonV, created: i64, now: i64)
    requires
        mapped_error(answer_of(value)) is None,
    ensures
        chat_completion(value, created) matches Ok(payload) ==> chat_sse(payload, now) is Ok
            && chat_sse(payload, now) == chat_sse(payload, created),
{
    lemma_member_names();
    lemma_completion_shape(value, created);
}

/// Where the answer of an upstream can be sent as JSON it can be sent as a stream, and where it
/// cannot the reason is the same.
pub proof fn lemma_replies_agree(value: JsonV, created: i64)
    ensures
        as_json_reply(chat_completion(value, created)) is Ok <==> as_sse_reply(
            chat_completion(value, created),
            created,
        ) is Ok,
        as_json_reply(chat_completion(value, created)) matches Err(e) ==> as_sse_reply(
            chat_completion(value, created),
            created,
        ) == Outcome::<(Seq<u8>, Seq<char>)>::Err(e),
{
    if mapped_error(answer_of(value)) is Some {
        lemma_error_passes(value, created);
    } else {
        lemma_completion_streams(value, created, created);
    }
}

/// What is answered to a client that asked for a stream, given the same answer made at two times, once
/// for it and once as JSON: the same refusal, the same error as JSON, or else an event stream.
pub open spec fn replies_agree(
    plain: Outcome<JsonV>,
    streamed: Outcome<JsonV>,
    later: i64,
) -> bool {
    match as_json_reply(plain) {
        Ok(reply) => if plain->Ok_0.get("error"@) is Some {
            as_sse_reply(streamed, later) == Outcome::Ok(reply)
        } else {
            as_sse_reply(streamed, later) matches Ok((_, kind)) && kind == "text/event-stream"@
        },
        Err(e) => as_sse_reply(streamed, later) == Outcome::<(Seq<u8>, Seq<char>)>::Err(e),
    }
}

/// When an answer is made does not matter to how it can be sent: it is refused, is an error, or
/// becomes a stream, at every time alike.
pub proof fn lemma_answers_agree(value: JsonV, created: i64, later: i64)
    ensures
        replies_agree(chat_completion(value, created), chat_completion(value, later), later),
{
    if mapped_error(answer_of(value)) is Some {
        lemma_error_passes(value, created);
        lemma_error_passes(value, later);
    } else {
        lemma_completion_shape(value, created);
        lemma_completion_shape(value, later);
        lemma_completion_streams(value, later, later);
    }
}

/// The error that a stream told has the member `error`.
proof fn lemma_stream_error_is_error(lines: Seq<Seq<char>>)
    ensures
        lines_captured(lines).0.error matches Some(error) ==> error.get("error"@) is Some,
    decreases lines.len(),
{
    if lines.len() > 0 {
        lemma_stream_error_is_error(lines.drop_last());
    }
}

/// Where the stream of an upstream can be sent on as JSON it can be sent on as a stream, where it is
/// an error the two replies are one, and where it cannot be sent on the reason is the same, whenever
/// the two are made.
pub proof fn lemma_stream_replies_agree(body: Seq<u8>, created: i64, later: i64)
    ensures
        replies_agree(sse_completion(body, created), sse_completion(body, later), later),
{
    if valid_utf8(body) {
        let lines = lines_of(decode_utf8(body));
        let state = lines_captured(lines).0;
        lemma_stream_error_is_error(lines);
        if state.error is None {
            match state.completed {
                Some(response) => {
                    if let Ok(answer) = merged(response, state) {
                        lemma_answers_agree(answer, created, later);
                    }
                },
                None => {
                    lemma_answers_agree(synthesized(state), created, later);
                },
            }
        }
    }
}

/// A stream is an event stream, and its last event says that it is done.
pub proof fn lemma_sse_ends(payload: JsonV, now: i64)
    ensures
        chat_sse(payload, now) matches Ok((bytes, kind)) ==> kind == "text/event-stream"@ && exists|
            text: Seq<char>,
        | bytes == #[trigger] encode_utf8(text + "data: [DONE]\n\n"@),
{
    if let Ok(chunks) = completion_chunks(payload, now) {
        let text = crate::chat_sse::events_text(chunks);
        assert(encode_utf8(text + "data: [DONE]\n\n"@) == encode_utf8(
            text + "data: [DONE]\n\n"@,
        ));
    }
}

/// The text that a chunk brings.
pub open spec fn chunk_text(chunk: JsonV) -> Seq<char> {
    match first_choice(chunk) {
        Some(choice) => match choice.get("delta"@) {
            Some(delta) => or_else(delta.get_str("content"@), Seq::empty()),
            None => Seq::empty(),
        },
        None => Seq::empty(),
    }
}

/// The text that chunks bring, one after the other.
pub open spec fn streamed_text(chunks: Seq<JsonV>) -> Seq<char>
    decreases chunks.len(),
{
    if chunks.len() == 0 {
        Seq::empty()
    } else {
        streamed_text(chunks.drop_last()) + chunk_text(chunks.last())
    }
}

proof fn lemma_chunk_text(head: ChunkHead, delta: Fields)
    ensures
        chunk_text(chunk(head, delta)) == or_else(field_str(delta, "content"@), Seq::empty()),
{
    lemma_member_names();
    let made = chunk(head, delta);
    assert(first_choice(made) is Some);
}

proof fn lemma_streamed_text_concat(first: Seq<JsonV>, second: Seq<JsonV>)
    ensures
        streamed_text(first + second) == streamed_text(first) + streamed_text(second),
    decreases second.len(),
{
    if second.len() == 0 {
        assert(first + second =~= first);
        assert(streamed_text(first) + streamed_text(second) =~= streamed_text(first));
    } else {
        lemma_streamed_text_concat(first, second.drop_last());
        assert((first + second).drop_last() =~= first + second.drop_last());
        assert(streamed_text(first + second) =~= streamed_text(first) + streamed_text(second));
    }
}

proof fn lemma_streamed_text_one(value: JsonV)
    ensures
        streamed_text(seq![value]) == chunk_text(value),
{
    let none = seq![value].drop_last();
    assert(none.len() == 0);
    assert(streamed_text(none) == Seq::<char>::empty());
    assert(streamed_text(seq![value]) =~= chunk_text(value));
}

proof fn lemma_silent_chunks(chunks: Seq<JsonV>)
    requires
        forall|i: int| 0 <= i < chunks.len() ==> chunk_text(#[trigger] chunks[i]).len() == 0,
    ensures
        streamed_text(chunks).len() == 0,
    decreases chunks.len(),
{
    if chunks.len() > 0 {
        lemma_silent_chunks(chunks.drop_last());
        assert(chunk_text(chunks[chunks.len() - 1]).len() == 0);
    }
}

/// The chunks of a completion bring its text, no more and no less.
pub proof fn lemma_chunks_bring_text(payload: JsonV, now: i64, message: Fields)
    requires
        first_choice(payload) is Some,
        first_choice(payload)->0.get_object("message"@) == Some(message),
    ensures
        completion_chunks(payload, now) matches Ok(chunks) && streamed_text(chunks) == or_else(
            field_str(message, "content"@),
            Seq::empty(),
        ),
{
    lemma_member_names();
    let choice = first_choice(payload)->0;
    let head = chunk_head(payload, now);
    let role = no_fields().insert("role"@, js("assistant"@));
    let opening = seq![chunk(head, role)];
    let texts = text_chunks(head, message);
    let calls = call_chunks(head, message);
    let reason = or_else(choice.get("finish_reason"@), js("stop"@));
    let usage = or_else(payload.get("usage"@), JsonV::Object(no_fields()));
    let ended = seq![last_chunk(head, reason, usage)];
    lemma_streamed_text_concat(opening, texts);
    lemma_streamed_text_concat(opening + texts, calls);
    lemma_streamed_text_concat(opening + texts + calls, ended);
    lemma_streamed_text_one(chunk(head, role));
    lemma_chunk_text(head, role);
    lemma_streamed_text_one(last_chunk(head, reason, usage));
    assert(chunk_text(last_chunk(head, reason, usage)).len() == 0) by {
        assert(first_choice(last_chunk(head, reason, usage)) is Some);
    }
    assert forall|i: int| 0 <= i < calls.len() implies chunk_text(#[trigger] calls[i]).len() == 0 by {
        let made = field_array(message, "tool_calls"@)->0;
        lemma_chunk_text(head, crate::chat_sse::call_delta(made[i], i as nat));
    }
    lemma_silent_chunks(calls);
    if let Some(text) = field_str(message, "content"@) {
        let delta = no_fields().insert("content"@, js(text));
        lemma_streamed_text_one(chunk(head, delta));
        lemma_chunk_text(head, delta);
    }
    assert(streamed_text(opening + texts + calls + ended) =~= or_else(
        field_str(message, "content"@),
        Seq::empty(),
    ));
}

/// A completion ends with its calls where it has any, and else because it is complete or too long.
pub proof fn lemma_finish_reasons(answer: JsonV, has_tool_calls: bool)
    ensures
        finish_reason(answer, has_tool_calls) == "tool_calls"@ <==> has_tool_calls,
        !has_tool_calls ==> finish_reason(answer, has_tool_calls) == "stop"@ || finish_reason(
            answer,
            has_tool_calls,
        ) == "length"@,
{
    lemma_member_names();
}

/// Where an answer gives no total, the total is the sum of what was read and what was written, as
/// far as that can be written down.
pub proof fn lemma_usage_adds_up(answer: JsonV)
    requires
        crate::chat_completion::member_of_member(answer, "usage"@, "total_tokens"@) is None,
    ensures
        i64_of(openai_usage(answer).get("total_tokens"@)) == Some(
            capped_sum(
                token_count(answer, "input_tokens"@, "prompt_tokens"@),
                token_count(answer, "output_tokens"@, "completion_tokens"@),
            ),
        ),
{
}

proof fn lemma_new_items_cover(
    places: Seq<usize>,
    calls: Map<usize, CallV>,
    known: Seq<JsonV>,
    place: usize,
)
    requires
        places.contains(place),
    ensures
        has_item(
            known + new_call_items(places, calls, known),
            stream_call_id(place, calls[place]),
        ),
    decreases places.len(),
{
    lemma_member_names();
    let id = stream_call_id(place, calls[place]);
    let added = new_call_items(places, calls, known);
    if has_item(known, id) {
        let i = choose|i: int| 0 <= i < known.len() && #[trigger] item_id(known[i]) == Some(id);
        assert((known + added)[i] == known[i]);
    } else if places.last() == place {
        let item = stream_call_item(place, calls[place]);
        assert(item_id(item) == Some(id));
        assert((known + added)[known.len() + added.len() - 1] == item);
    } else {
        let rest = places.drop_last();
        let i = choose|i: int| 0 <= i < places.len() && places[i] == place;
        assert(rest[i] == place);
        lemma_new_items_cover(rest, calls, known, place);
        let before = known + new_call_items(rest, calls, known);
        let k = choose|k: int| 0 <= k < before.len() && #[trigger] item_id(before[k]) == Some(id);
        assert((known + added)[k] == before[k]);
    }
}

/// The completed answer of a stream starts with the items that the upstream listed, and lists every
/// call that the stream told of.
pub proof fn lemma_merge_keeps_and_covers(response: Fields, state: StreamV, place: usize)
    requires
        state.calls.dom().finite(),
        state.calls.contains_key(place),
    ensures
        merged(JsonV::Object(response), state) matches Ok(answer) && (answer.get_array("output"@)
            matches Some(output) && {
            let listed = or_else(field_array(response, "output"@), Seq::empty());
            &&& listed.len() <= output.len()
            &&& output.take(listed.len() as int) == listed
            &&& has_item(output, stream_call_id(place, state.calls[place]))
        }),
{
    lemma_member_names();
    let listed = or_else(field_array(response, "output"@), Seq::empty());
    let places = ordered(state.calls.dom());
    lemma_ordered(state.calls.dom());
    assert(places.to_set().contains(place));
    lemma_new_items_cover(places, state.calls, listed, place);
    assert((listed + new_call_items(places, state.calls, listed)).take(listed.len() as int)
        =~= listed);
}

/// How the output items of an answer are taken one by one.
spec fn output_step() -> spec_fn(OutputState, int, JsonV) -> Outcome<OutputState> {
    |state: OutputState, i: int, item: JsonV| output_item(state, item)
}

/// The calls that a stream told of add nothing to the text that is shown.
proof fn lemma_calls_show_nothing(
    listed: Seq<JsonV>,
    places: Seq<usize>,
    calls: Map<usize, CallV>,
    known: Seq<JsonV>,
)
    ensures
        try_fold(
            listed + new_call_items(places, calls, known),
            (None, Seq::empty()),
            output_step(),
        ) matches Ok((shown, _)) ==> (try_fold(listed, (None, Seq::empty()), output_step())
            matches Ok((before, _)) && before == shown),
    decreases places.len(),
{
    lemma_member_names();
    let added = new_call_items(places, calls, known);
    if places.len() == 0 {
        assert(listed + added =~= listed);
    } else {
        let rest = places.drop_last();
        let fewer = new_call_items(rest, calls, known);
        lemma_calls_show_nothing(listed, rest, calls, known);
        let place = places.last();
        if !has_item(known, stream_call_id(place, calls[place])) {
            let item = stream_call_item(place, calls[place]);
            assert((listed + added).drop_last() =~= listed + fewer);
            assert((listed + added).last() == item);
            assert(item.get_str("type"@) == Some("function_call"@));
            assert("function_call"@ != "message"@);
        }
    }
}

/// The content of the message of a completion.
pub open spec fn completion_text(payload: JsonV) -> Option<Seq<char>> {
    match first_choice(payload) {
        Some(choice) => match choice.get_object("message"@) {
            Some(message) => field_str(message, "content"@),
            None => None,
        },
        None => None,
    }
}

/// The text that a stream told piece by piece is the text of the completion, where the stream came
/// without a final answer.
pub proof fn lemma_text_of_open_stream(state: StreamV, created: i64)
    requires
        state.error is None,
        state.completed is None,
    ensures
        state_completion(state, created) matches Ok(payload) ==> completion_text(payload) == Some(
            state.content,
        ),
{
    lemma_member_names();
    let answer = synthesized(state);
    assert(answer_of(answer) == answer);
    assert(mapped_error(answer) is None);
    lemma_completion_shape(answer, created);
    let places = ordered(state.calls.dom());
    let text = if state.content.len() > 0 {
        seq![message_item("assistant"@, "output_text"@, state.content)]
    } else {
        Seq::empty()
    };
    lemma_calls_show_nothing(text, places, state.calls, Seq::empty());
    if state.content.len() > 0 {
        let item = message_item("assistant"@, "output_text"@, state.content);
        let block = JsonV::Object(
            no_fields().insert("type"@, js("output_text"@)).insert("text"@, js(state.content)),
        );
        assert(shown_block(block) == Some(state.content));
        let none = seq![block].drop_last();
        assert(none.len() == 0);
        assert(shown_blocks(None, none) == None::<Seq<char>>);
        assert(shown_blocks(None, seq![block]) == Some(state.content)) by {
            assert(Seq::<char>::empty() + state.content =~= state.content);
        }
        assert(text.drop_last().len() == 0);
        assert(try_fold(text.drop_last(), (None, Seq::empty()), output_step()) == Outcome::Ok(
            (None::<Seq<char>>, Seq::<JsonV>::empty()),
        ));
        assert(field_array(item->Object_0, "content"@) == Some(seq![block]));
        assert(try_fold(text, (None, Seq::empty()), output_step()) == Outcome::Ok(
            (Some(state.content), Seq::<JsonV>::empty()),
        ));
    } else {
        assert(state.content =~= Seq::empty());
    }
}

/// The text that a stream told piece by piece is the text of the completion, where its final answer
/// shows none of its own.
pub proof fn lemma_text_of_completed_stream(response: Fields, state: StreamV, created: i64)
    requires
        state.error is None,
        state.completed == Some(JsonV::Object(response)),
        !response.contains_key("response"@),
        mapped_error(JsonV::Object(response)) is None,
        output_items(JsonV::Object(response)) matches Ok((shown, _)) && shown is None,
        is_blank(or_else(field_str(response, "output_text"@), Seq::empty())),
        !is_blank(state.content),
    ensures
        state_completion(state, created) matches Ok(payload) ==> completion_text(payload) == Some(
            state.content,
        ),
{
    lemma_member_names();
    let answer = merged(JsonV::Object(response), state)->Ok_0;
    assert(answer_of(answer) == answer);
    assert(answer.get("error"@) == JsonV::Object(response).get("error"@));
    assert(answer.get("type"@) == JsonV::Object(response).get("type"@));
    assert(error_part(answer) == error_part(JsonV::Object(response)) || error_part(answer) == Some(
        answer,
    ));
    assert(mapped_error(answer) is None);
    lemma_completion_shape(answer, created);
    let listed = or_else(field_array(response, "output"@), Seq::empty());
    lemma_calls_show_nothing(listed, ordered(state.calls.dom()), state.calls, listed);
    if field_array(response, "output"@) is None {
        assert(try_fold(listed, (None, Seq::empty()), output_step()) == Outcome::Ok(
            (None::<Seq<char>>, Seq::<JsonV>::empty()),
        ));
    }
}

} // verus!
