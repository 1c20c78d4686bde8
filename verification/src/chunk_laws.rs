//! What a chat completion becomes in chunks, member by member.

use vstd::prelude::*;
use vstd::string::*;
use vstd::utf8::*;

use crate::answer_laws::{count, is_count};
use crate::chat_completion::chat_completion;
use crate::chat_sse::{
    as_json_reply, as_sse_reply, chat_sse, completion_chunks, event_text, events_text,
    json_completion, sse_completion, Reply,
};
use crate::codec::{json_read, json_text};
use crate::json::{Fields, JsonV};
use crate::response_stream::stream_completion;
use crate::sequence::Outcome;
use crate::text::decimal;
use crate::words::{lemma_words, said, speaks};

verus! {

/// A chunk of a completion: what the completion is known by, when it was made and by which model,
/// and one choice with what is new.
pub open spec fn chunk_of(completion: Fields, now: i64, delta: Fields, reason: JsonV) -> Fields {
    map![
        "id"@ => JsonV::Str(
            if speaks(completion, "id"@) {
                said(completion, "id"@)
            } else {
                "chatcmpl_codexmanager"@
            },
        ),
        "object"@ => JsonV::Str("chat.completion.chunk"@),
        "created"@ => if completion.contains_key("created"@) && is_count(completion["created"@]) {
            completion["created"@]
        } else {
            count(now as int)
        },
        "model"@ => JsonV::Str(
            if speaks(completion, "model"@) {
                said(completion, "model"@)
            } else {
                "unknown"@
            },
        ),
        "choices"@ => JsonV::Array(
            seq![
                JsonV::Object(
                    map![
                        "index"@ => count(0),
                        "delta"@ => JsonV::Object(delta),
                        "finish_reason"@ => reason,
                    ],
                ),
            ],
        ),
    ]
}

/// The completion has a first choice, with a message in it.
pub open spec fn is_sendable(completion: Fields) -> bool {
    &&& completion.contains_key("choices"@)
    &&& completion["choices"@] matches JsonV::Array(choices)
    &&& choices.len() > 0
    &&& choices[0] matches JsonV::Object(choice)
    &&& choice.contains_key("message"@)
    &&& choice["message"@] is Object
}

/// The first choice of a completion.
pub open spec fn first_of(completion: Fields) -> Fields {
    completion["choices"@]->Array_0[0]->Object_0
}

/// The message of a completion.
pub open spec fn message_in(completion: Fields) -> Fields {
    first_of(completion)["message"@]->Object_0
}

/// The tool calls of a completion.
pub open spec fn calls_in(completion: Fields) -> Seq<JsonV> {
    let message = message_in(completion);
    if message.contains_key("tool_calls"@) && message["tool_calls"@] is Array {
        message["tool_calls"@]->Array_0
    } else {
        Seq::empty()
    }
}

/// The tool call at place `i` as it is sent: numbered, with its own identifier and the whole of its
/// function.
pub open spec fn call_sent(call: JsonV, i: int) -> JsonV {
    JsonV::Object(
        map![
            "index"@ => count(i),
            "id"@ => if call is Object && call->Object_0.contains_key("id"@) {
                call->Object_0["id"@]
            } else {
                JsonV::Str("call_"@ + decimal(i as nat))
            },
            "type"@ => JsonV::Str("function"@),
            "function"@ => if call is Object && call->Object_0.contains_key("function"@) {
                call->Object_0["function"@]
            } else {
                JsonV::Object(Map::empty())
            },
        ],
    )
}

/// The chunks of a completion: first who speaks, then its text where it has any, then each of its
/// tool calls by itself and in their order, and at the end why it ended and what it used.
pub proof fn lemma_chunks_told(completion: Fields, now: i64)
    requires
        is_sendable(completion),
    ensures
        ({
            let message = message_in(completion);
            let choice = first_of(completion);
            let calls = calls_in(completion);
            let texts: int = if speaks(message, "content"@) && said(message, "content"@).len() > 0 {
                1
            } else {
                0
            };
            &&& completion_chunks(JsonV::Object(completion), now) matches Ok(chunks)
            &&& chunks.len() == 2 + texts + calls.len()
            &&& chunks[0] == JsonV::Object(
                chunk_of(
                    completion,
                    now,
                    map!["role"@ => JsonV::Str("assistant"@)],
                    JsonV::Null,
                ),
            )
            &&& texts == 1 ==> chunks[1] == JsonV::Object(
                chunk_of(
                    completion,
                    now,
                    map!["content"@ => message["content"@]],
                    JsonV::Null,
                ),
            )
            &&& forall|i: int|
                0 <= i < calls.len() ==> chunks[1 + texts + i] == JsonV::Object(
                    chunk_of(
                        completion,
                        now,
                        map!["tool_calls"@ => JsonV::Array(seq![call_sent(#[trigger] calls[i], i)])],
                        JsonV::Null,
                    ),
                )
            &&& chunks.last() == JsonV::Object(
                chunk_of(
                    completion,
                    now,
                    Map::empty(),
                    if choice.contains_key("finish_reason"@) {
                        choice["finish_reason"@]
                    } else {
                        JsonV::Str("stop"@)
                    },
                ).insert(
                    "usage"@,
                    if completion.contains_key("usage"@) {
                        completion["usage"@]
                    } else {
                        JsonV::Object(Map::empty())
                    },
                ),
            )
        }),
{
    lemma_words();
}

/// A completion without a choice, or without a message in it, cannot be sent in chunks.
pub proof fn lemma_unsendable(completion: JsonV, now: i64)
    requires
        !(completion is Object && is_sendable(completion->Object_0)),
    ensures
        completion_chunks(completion, now) is Err,
{
    lemma_words();
}

/// The chunks are sent as events, one behind the other, and the mark of the end behind them.
pub proof fn lemma_events_sent(completion: JsonV, now: i64)
    requires
        completion_chunks(completion, now) is Ok,
    ensures
        ({
            let chunks = completion_chunks(completion, now)->Ok_0;
            let events = Seq::new(
                chunks.len(),
                |i: int| "data: "@ + json_text(chunks[i]) + "\n\n"@,
            );
            chat_sse(completion, now) == Outcome::<Reply>::Ok(
                (encode_utf8(events.flatten() + "data: [DONE]\n\n"@), "text/event-stream"@),
            )
        }),
{
    lemma_events_flat(completion_chunks(completion, now)->Ok_0);
}

proof fn lemma_events_flat(values: Seq<JsonV>)
    ensures
        events_text(values) == Seq::new(
            values.len(),
            |i: int| "data: "@ + json_text(values[i]) + "\n\n"@,
        ).flatten(),
    decreases values.len(),
{
    let all = Seq::new(values.len(), |i: int| "data: "@ + json_text(values[i]) + "\n\n"@);
    if values.len() == 0 {
        assert(all.flatten() =~= Seq::empty());
    } else {
        let rest = values.drop_last();
        lemma_events_flat(rest);
        let before = Seq::new(rest.len(), |i: int| "data: "@ + json_text(rest[i]) + "\n\n"@);
        before.lemma_flatten_push(event_text(values.last()));
        assert(before.push(event_text(values.last())) =~= all);
    }
}

/// A completion is replied as JSON, or in chunks; an error is replied as JSON either way.
pub proof fn lemma_replies(payload: JsonV, now: i64)
    ensures
        as_json_reply(Ok(payload)) == Outcome::<Reply>::Ok(
            (encode_utf8(json_text(payload)), "application/json"@),
        ),
        as_sse_reply(Ok(payload), now) == (if payload is Object && payload->Object_0.contains_key(
            "error"@,
        ) {
            as_json_reply(Ok(payload))
        } else {
            chat_sse(payload, now)
        }),
        forall|e: Seq<char>|
            #[trigger] as_json_reply(Err(e)) == Outcome::<Reply>::Err(e),
        forall|e: Seq<char>|
            #[trigger] as_sse_reply(Err(e), now) == Outcome::<Reply>::Err(e),
{
}

/// What comes back in one piece is completed as the JSON that it holds, and what comes back in
/// events as the stream that it holds; bytes that hold neither are refused.
pub proof fn lemma_bodies_completed(body: Seq<u8>, created: i64)
    ensures
        json_read(body) matches Some(value) ==> json_completion(body, created) == chat_completion(
            value,
            created,
        ),
        json_read(body) is None ==> json_completion(body, created) is Err,
        valid_utf8(body) ==> sse_completion(body, created) == stream_completion(
            decode_utf8(body),
            created,
        ),
        !valid_utf8(body) ==> sse_completion(body, created) is Err,
{
}

} // verus!
