//! Chat completions as replies to a client: as JSON, or as a stream of chunks.

use vstd::prelude::*;
use vstd::string::*;
use vstd::utf8::*;

use crate::chat_completion::{
    build_chat_completion_at, chat_completion, completion_depth, lemma_completion_plain,
};
use crate::clock::current_unix_seconds;
use crate::codec::{
    holds_json, json_read, json_text, lemma_plain_deeper, plain_within, read_json, write_json,
    write_json_bytes,
};
use crate::items::{default_call_id, make_default_call_id};
use crate::json::{
    fail, field_array, field_str, group_values_view, i64_of, jint, js, json_outcome, no_fields, one,
    or_else, values_view, Fields, Json, JsonMap, JsonV,
};
use crate::response_stream::{
    build_stream_completion_at, lemma_stream_completion_plain, stream_completion,
};
use crate::sequence::Outcome;
use crate::text::{read_utf8, str_eq};

verus! {

broadcast use group_values_view;

/// A reply: its bytes, and the type of their content.
pub type Reply = (Seq<u8>, Seq<char>);

/// What a reply that may fail to come stands for.
pub open spec fn reply_outcome(r: Result<(Vec<u8>, &'static str), String>) -> Outcome<Reply> {
    match r {
        Ok((bytes, kind)) => Ok((bytes@, kind@)),
        Err(e) => Err(e@),
    }
}

/// A value as a JSON reply.
pub open spec fn json_reply(value: JsonV) -> Reply {
    (encode_utf8(json_text(value)), "application/json"@)
}

/// What every chunk of a completion has in common.
pub struct ChunkHead {
    pub id: Seq<char>,
    pub created: i64,
    pub model: Seq<char>,
}

/// The members of a chunk.
pub open spec fn chunk_fields(head: ChunkHead, delta: Fields, reason: JsonV) -> Fields {
    no_fields().insert("id"@, js(head.id)).insert("object"@, js("chat.completion.chunk"@)).insert(
        "created"@,
        jint(head.created as int),
    ).insert("model"@, js(head.model)).insert(
        "choices"@,
        JsonV::Array(
            seq![
                JsonV::Object(
                    no_fields().insert("index"@, jint(0)).insert(
                        "delta"@,
                        JsonV::Object(delta),
                    ).insert("finish_reason"@, reason),
                ),
            ],
        ),
    )
}

/// A chunk with which the completion goes on.
pub open spec fn chunk(head: ChunkHead, delta: Fields) -> JsonV {
    JsonV::Object(chunk_fields(head, delta, JsonV::Null))
}

/// The chunk with which the completion ends.
pub open spec fn last_chunk(head: ChunkHead, reason: JsonV, usage: JsonV) -> JsonV {
    JsonV::Object(chunk_fields(head, no_fields(), reason).insert("usage"@, usage))
}

/// The call at place `index`, as a chunk carries it.
pub open spec fn call_delta(call: JsonV, index: nat) -> Fields {
    no_fields().insert(
        "tool_calls"@,
        JsonV::Array(
            seq![
                JsonV::Object(
                    no_fields().insert("index"@, jint(index as int)).insert(
                        "id"@,
                        or_else(call.get("id"@), js(default_call_id(index))),
                    ).insert("type"@, js("function"@)).insert(
                        "function"@,
                        or_else(call.get("function"@), JsonV::Object(no_fields())),
                    ),
                ),
            ],
        ),
    )
}

/// The chunk with the text of a message, where it has one.
pub open spec fn text_chunks(head: ChunkHead, message: Fields) -> Seq<JsonV> {
    match field_str(message, "content"@) {
        Some(text) => if text.len() > 0 {
            seq![chunk(head, no_fields().insert("content"@, js(text)))]
        } else {
            Seq::empty()
        },
        None => Seq::empty(),
    }
}

/// The chunks with the calls of a message, one for each.
pub open spec fn call_chunks(head: ChunkHead, message: Fields) -> Seq<JsonV> {
    match field_array(message, "tool_calls"@) {
        Some(calls) => Seq::new(
            calls.len(),
            |i: int| chunk(head, call_delta(calls[i], i as nat)),
        ),
        None => Seq::empty(),
    }
}

/// What the chunks of a completion have in common; `now` stands for a time that it does not give.
pub open spec fn chunk_head(completion: JsonV, now: i64) -> ChunkHead {
    ChunkHead {
        id: or_else(completion.get_str("id"@), "chatcmpl_codexmanager"@),
        created: or_else(i64_of(completion.get("created"@)), now),
        model: or_else(completion.get_str("model"@), "unknown"@),
    }
}

/// The first choice of a completion.
pub open spec fn first_choice(completion: JsonV) -> Option<JsonV> {
    match completion.get_array("choices"@) {
        Some(choices) => if choices.len() > 0 {
            Some(choices[0])
        } else {
            None
        },
        None => None,
    }
}

/// The chunks that a completion is sent in: the role, the text, the calls, and the end.
pub open spec fn completion_chunks(completion: JsonV, now: i64) -> Outcome<Seq<JsonV>> {
    let head = chunk_head(completion, now);
    match first_choice(completion) {
        Some(choice) => match choice.get_object("message"@) {
            Some(message) => Ok(
                seq![chunk(head, no_fields().insert("role"@, js("assistant"@)))] + text_chunks(
                    head,
                    message,
                ) + call_chunks(head, message) + seq![
                    last_chunk(
                        head,
                        or_else(choice.get("finish_reason"@), js("stop"@)),
                        or_else(completion.get("usage"@), JsonV::Object(no_fields())),
                    ),
                ],
            ),
            None => Err("missing openai chat message"@),
        },
        None => Err("missing openai chat choice"@),
    }
}

/// A value as one event of a stream.
pub open spec fn event_text(value: JsonV) -> Seq<char> {
    "data: "@ + json_text(value) + "\n\n"@
}

/// Values as the events of a stream.
pub open spec fn events_text(values: Seq<JsonV>) -> Seq<char>
    decreases values.len(),
{
    if values.len() == 0 {
        Seq::empty()
    } else {
        events_text(values.drop_last()) + event_text(values.last())
    }
}

/// A completion as a stream of chunks.
pub open spec fn chat_sse(completion: JsonV, now: i64) -> Outcome<Reply> {
    match completion_chunks(completion, now) {
        Ok(chunks) => Ok(
            (encode_utf8(events_text(chunks) + "data: [DONE]\n\n"@), "text/event-stream"@),
        ),
        Err(e) => Err(e),
    }
}

/// An error as JSON, and a completion as a stream of chunks.
pub open spec fn error_or_sse(payload: JsonV, now: i64) -> Outcome<Reply> {
    if payload.get("error"@) is Some {
        Ok(json_reply(payload))
    } else {
        chat_sse(payload, now)
    }
}

/// What JSON from upstream comes to as a completion.
pub open spec fn json_completion(body: Seq<u8>, created: i64) -> Outcome<JsonV> {
    match json_read(body) {
        Some(value) => chat_completion(value, created),
        None => Err("invalid upstream json response"@),
    }
}

/// What a stream from upstream comes to as a completion.
pub open spec fn sse_completion(body: Seq<u8>, created: i64) -> Outcome<JsonV> {
    if valid_utf8(body) {
        stream_completion(decode_utf8(body), created)
    } else {
        Err("invalid upstream sse bytes"@)
    }
}

/// A completion as a JSON reply.
pub open spec fn as_json_reply(payload: Outcome<JsonV>) -> Outcome<Reply> {
    match payload {
        Ok(value) => Ok(json_reply(value)),
        Err(e) => Err(e),
    }
}

/// A completion as a stream of chunks, unless it is an error.
pub open spec fn as_sse_reply(payload: Outcome<JsonV>, now: i64) -> Outcome<Reply> {
    match payload {
        Ok(value) => error_or_sse(value, now),
        Err(e) => Err(e),
    }
}

/// A client that reads the JSON text of a value finds that value.
pub open spec fn reads_back(value: JsonV) -> bool {
    json_read(encode_utf8(json_text(value))) == Some(value)
}

/// A client that reads the events of a stream finds the values that were sent, as far as they hold
/// no floating-point number and are not too deep.
pub open spec fn events_read_back(values: Seq<JsonV>) -> bool {
    forall|i: int|
        0 <= i < values.len() ==> plain_within(#[trigger] values[i], 127) ==> reads_back(values[i])
}

/// A client that reads the events of a completion sent as a stream finds its chunks.
pub open spec fn chunks_read_back(completion: JsonV, now: i64) -> bool {
    completion_chunks(completion, now) matches Ok(chunks) ==> forall|i: int|
        0 <= i < chunks.len() ==> reads_back(#[trigger] chunks[i])
}

/// A client that reads a reply finds what it was made of: the error, where it is one, else the
/// chunks of the completion.
pub open spec fn sse_reply_reads_back(
    payload: Outcome<JsonV>,
    now: i64,
    reply: Outcome<Reply>,
) -> bool {
    match payload {
        Ok(value) => if value.get("error"@) is Some {
            reply matches Ok((bytes, _)) && json_read(bytes) == Some(value)
        } else {
            chunks_read_back(value, now)
        },
        Err(_) => true,
    }
}

/// Appends one more value to the text of a stream.
pub fn append_openai_sse_chunk(buffer: &mut String, payload: &Json)
    ensures
        final(buffer)@ == old(buffer)@ + event_text(payload@),
        plain_within(payload@, 127) ==> reads_back(payload@),
{
    let data = write_json(payload);
    buffer.append("data: ");
    buffer.append(data.as_str());
    buffer.append("\n\n");
    assert(buffer@ =~= old(buffer)@ + event_text(payload@));
}

/// The members of a chunk.
fn make_chunk_fields(id: &str, created: i64, model: &str, delta: JsonMap, reason: Json) -> (r:
    JsonMap)
    ensures
        r@ == chunk_fields(ChunkHead { id: id@, created, model: model@ }, delta@, reason@),
{
    let choice = JsonMap::new().with("index", Json::integer(0)).with(
        "delta",
        Json::Object(delta),
    ).with("finish_reason", reason);
    JsonMap::new().with("id", Json::text(id)).with(
        "object",
        Json::text("chat.completion.chunk"),
    ).with("created", Json::integer(created)).with("model", Json::text(model)).with(
        "choices",
        Json::Array(one(Json::Object(choice))),
    )
}

/// A chunk with which the completion goes on.
fn make_chunk(id: &str, created: i64, model: &str, delta: JsonMap) -> (r: Json)
    ensures
        r@ == chunk(ChunkHead { id: id@, created, model: model@ }, delta@),
{
    Json::Object(make_chunk_fields(id, created, model, delta, Json::Null))
}

/// The call at place `index`, as a chunk carries it.
fn make_call_delta(call: &Json, index: u64) -> (r: JsonMap)
    ensures
        r@ == call_delta(call@, index as nat),
{
    let id = match call.get("id") {
        Some(id) => id.clone(),
        None => Json::Str(make_default_call_id(index)),
    };
    let function = match call.get("function") {
        Some(function) => function.clone(),
        None => Json::Object(JsonMap::new()),
    };
    let carried = JsonMap::new().with("index", Json::unsigned(index)).with("id", id).with(
        "type",
        Json::text("function"),
    ).with("function", function);
    JsonMap::new().with("tool_calls", Json::Array(one(Json::Object(carried))))
}

/// The events of two sequences of values stand one behind the other.
pub proof fn lemma_events_text_concat(first: Seq<JsonV>, second: Seq<JsonV>)
    ensures
        events_text(first + second) == events_text(first) + events_text(second),
    decreases second.len(),
{
    if second.len() == 0 {
        assert(first + second =~= first);
        assert(events_text(first) + events_text(second) =~= events_text(first));
    } else {
        lemma_events_text_concat(first, second.drop_last());
        assert((first + second).drop_last() =~= first + second.drop_last());
        assert(events_text(first + second) =~= events_text(first) + events_text(second));
    }
}

/// One value is one event.
proof fn lemma_events_text_one(value: JsonV)
    ensures
        events_text(seq![value]) == event_text(value),
{
    let none = seq![value].drop_last();
    assert(none.len() == 0);
    assert(events_text(none) == Seq::<char>::empty());
    assert(events_text(seq![value]) =~= event_text(value));
}

/// Appends the chunk with the text of a message.
fn append_text_chunks(out: &mut String, id: &str, created: i64, model: &str, message: &JsonMap)
    ensures
        final(out)@ == old(out)@ + events_text(
            text_chunks(ChunkHead { id: id@, created, model: model@ }, message@),
        ),
        events_read_back(text_chunks(ChunkHead { id: id@, created, model: model@ }, message@)),
{
    assert(out@ + Seq::<char>::empty() =~= out@);
    if let Some(text) = message.get_str("content") {
        if !text.is_empty() {
            let shown = make_chunk(
                id,
                created,
                model,
                JsonMap::new().with("content", Json::text(text)),
            );
            append_openai_sse_chunk(out, &shown);
            proof {
                lemma_events_text_one(shown@);
            }
        }
    }
}

/// Appends the chunks with the calls of a message.
fn append_call_chunks(out: &mut String, id: &str, created: i64, model: &str, message: &JsonMap)
    ensures
        final(out)@ == old(out)@ + events_text(
            call_chunks(ChunkHead { id: id@, created, model: model@ }, message@),
        ),
        events_read_back(call_chunks(ChunkHead { id: id@, created, model: model@ }, message@)),
{
    let ghost head = ChunkHead { id: id@, created, model: model@ };
    let ghost before = out@;
    assert(out@ + Seq::<char>::empty() =~= out@);
    if let Some(tool_calls) = message.get_array("tool_calls") {
        let ghost all = values_view(tool_calls@);
        let ghost more = call_chunks(head, message@);
        let mut index: usize = 0;
        while index < tool_calls.len()
            invariant
                head == (ChunkHead { id: id@, created, model: model@ }),
                all == values_view(tool_calls@),
                more == Seq::new(all.len(), |i: int| chunk(head, call_delta(all[i], i as nat))),
                index <= tool_calls@.len(),
                out@ == before + events_text(more.take(index as int)),
                events_read_back(more.take(index as int)),
            decreases tool_calls@.len() - index,
        {
            let delta = make_call_delta(&tool_calls[index], index as u64);
            append_openai_sse_chunk(out, &make_chunk(id, created, model, delta));
            assert(more.take(index + 1).drop_last() =~= more.take(index as int));
            assert(out@ =~= before + events_text(more.take(index + 1)));
            assert forall|i: int| 0 <= i < index + 1 && plain_within(
                #[trigger] more.take(index + 1)[i],
                127,
            ) implies reads_back(more.take(index + 1)[i]) by {
                if i < index {
                    assert(more.take(index + 1)[i] == more.take(index as int)[i]);
                }
            }
            index += 1;
        }
        assert(more.take(more.len() as int) =~= more);
    }
}

proof fn lemma_read_back_concat(first: Seq<JsonV>, second: Seq<JsonV>)
    requires
        events_read_back(first),
        events_read_back(second),
    ensures
        events_read_back(first + second),
{
    let both = first + second;
    assert forall|i: int| 0 <= i < both.len() && plain_within(
        #[trigger] both[i],
        127,
    ) implies reads_back(both[i]) by {
        if i < first.len() {
            assert(both[i] == first[i]);
        } else {
            assert(both[i] == second[i - first.len()]);
        }
    }
}

/// A value that a value holds is plain where that one is.
proof fn lemma_held_plain(value: JsonV, key: Seq<char>, depth: nat)
    requires
        plain_within(value, depth),
    ensures
        value.get(key) matches Some(held) ==> depth > 0 && plain_within(held, (depth - 1) as nat),
{
    match value {
        JsonV::Object(fields) => {
            if fields.contains_key(key) {
                assert(plain_within(fields[key], (depth - 1) as nat));
            }
        },
        _ => {},
    }
}

proof fn lemma_chunk_plain(head: ChunkHead, delta: Fields, reason: JsonV, usage: JsonV)
    requires
        plain_within(JsonV::Object(delta), 124),
        plain_within(reason, 124),
        plain_within(usage, 126),
    ensures
        plain_within(JsonV::Object(chunk_fields(head, delta, reason)), 127),
        plain_within(JsonV::Object(chunk_fields(head, delta, reason).insert("usage"@, usage)), 127),
{
    reveal_with_fuel(plain_within, 2);
    let choice = JsonV::Object(
        no_fields().insert("index"@, jint(0)).insert("delta"@, JsonV::Object(delta)).insert(
            "finish_reason"@,
            reason,
        ),
    );
    assert(plain_within(choice, 125));
    assert(plain_within(JsonV::Array(seq![choice]), 126));
}

proof fn lemma_call_delta_plain(call: JsonV, index: nat)
    requires
        plain_within(call, 122),
    ensures
        plain_within(JsonV::Object(call_delta(call, index)), 124),
{
    reveal_with_fuel(plain_within, 2);
    lemma_held_plain(call, "id"@, 122);
    lemma_held_plain(call, "function"@, 122);
    let carried = JsonV::Object(
        no_fields().insert("index"@, jint(index as int)).insert(
            "id"@,
            or_else(call.get("id"@), js(default_call_id(index))),
        ).insert("type"@, js("function"@)).insert(
            "function"@,
            or_else(call.get("function"@), JsonV::Object(no_fields())),
        ),
    );
    assert(plain_within(carried, 122));
    assert(plain_within(JsonV::Array(seq![carried]), 123));
}

/// The chunks of a completion without floating-point numbers hold none either, and go no deeper than
/// can be read.
pub proof fn lemma_chunks_plain(completion: JsonV, now: i64)
    requires
        plain_within(completion, 127),
    ensures
        completion_chunks(completion, now) matches Ok(chunks) ==> forall|i: int|
            0 <= i < chunks.len() ==> plain_within(#[trigger] chunks[i], 127),
{
    if let Ok(chunks) = completion_chunks(completion, now) {
        reveal_with_fuel(plain_within, 2);
        let head = chunk_head(completion, now);
        let choice = first_choice(completion)->0;
        let message = choice.get_object("message"@)->0;
        let reason = or_else(choice.get("finish_reason"@), js("stop"@));
        let usage = or_else(completion.get("usage"@), JsonV::Object(no_fields()));
        let texts = text_chunks(head, message);
        let calls = call_chunks(head, message);
        lemma_held_plain(completion, "choices"@, 127);
        lemma_held_plain(completion, "usage"@, 127);
        let choices = completion.get_array("choices"@)->0;
        assert(plain_within(choices[0], 125));
        lemma_held_plain(choice, "message"@, 125);
        lemma_held_plain(choice, "finish_reason"@, 125);
        lemma_chunk_plain(head, no_fields(), reason, usage);
        lemma_chunk_plain(
            head,
            no_fields().insert("role"@, js("assistant"@)),
            JsonV::Null,
            JsonV::Null,
        );
        if let Some(text) = field_str(message, "content"@) {
            lemma_chunk_plain(
                head,
                no_fields().insert("content"@, js(text)),
                JsonV::Null,
                JsonV::Null,
            );
        }
        assert forall|i: int| 0 <= i < calls.len() implies plain_within(
            #[trigger] calls[i],
            127,
        ) by {
            let made = field_array(message, "tool_calls"@)->0;
            lemma_held_plain(JsonV::Object(message), "tool_calls"@, 124);
            assert(plain_within(JsonV::Array(made), 123));
            assert(JsonV::Array(made)->Array_0 == made);
            assert(plain_within(made[i], 122));
            lemma_call_delta_plain(made[i], i as nat);
            lemma_chunk_plain(head, call_delta(made[i], i as nat), JsonV::Null, JsonV::Null);
        }
        let opening = seq![chunk(head, no_fields().insert("role"@, js("assistant"@)))];
        let ended = seq![last_chunk(head, reason, usage)];
        assert(chunks =~= opening + texts + calls + ended);
        assert forall|i: int| 0 <= i < chunks.len() implies plain_within(
            #[trigger] chunks[i],
            127,
        ) by {
            let before = opening.len() + texts.len();
            if 0 < i < before {
                assert(chunks[i] == texts[i - 1]);
            } else if before <= i < before + calls.len() {
                assert(chunks[i] == calls[i - before]);
            }
        }
    }
}

/// A completion as a stream of chunks; `now` stands for a time that it does not give.
pub fn build_chat_sse_at(payload: &Json, now: i64) -> (r: Result<(Vec<u8>, &'static str), String>)
    ensures
        reply_outcome(r) == chat_sse(payload@, now),
        plain_within(payload@, 127) ==> chunks_read_back(payload@, now),
{
    let id = match payload.get_str("id") {
        Some(id) => id,
        None => "chatcmpl_codexmanager",
    };
    let model = match payload.get_str("model") {
        Some(model) => model,
        None => "unknown",
    };
    let given = match payload.get("created") {
        Some(created) => created.as_i64(),
        None => None,
    };
    let created: i64 = match given {
        Some(created) => created,
        None => now,
    };
    let choices = match payload.get("choices") {
        Some(choices) => choices.as_array(),
        None => None,
    };
    let choice = match choices {
        Some(choices) => if choices.len() > 0 {
            &choices[0]
        } else {
            return fail("missing openai chat choice");
        },
        None => return fail("missing openai chat choice"),
    };
    let found = match choice.get("message") {
        Some(message) => message.as_object(),
        None => None,
    };
    let message = match found {
        Some(message) => message,
        None => return fail("missing openai chat message"),
    };
    let reason = match choice.get("finish_reason") {
        Some(reason) => reason.clone(),
        None => Json::text("stop"),
    };
    let usage = match payload.get("usage") {
        Some(usage) => usage.clone(),
        None => Json::Object(JsonMap::new()),
    };
    let mut out = String::new();
    let opening = make_chunk(
        id,
        created,
        model,
        JsonMap::new().with("role", Json::text("assistant")),
    );
    append_openai_sse_chunk(&mut out, &opening);
    append_text_chunks(&mut out, id, created, model, message);
    append_call_chunks(&mut out, id, created, model, message);
    let ended = Json::Object(
        make_chunk_fields(id, created, model, JsonMap::new(), reason).with("usage", usage),
    );
    append_openai_sse_chunk(&mut out, &ended);
    proof {
        let head = chunk_head(payload@, now);
        let texts = text_chunks(head, message@);
        let calls = call_chunks(head, message@);
        lemma_events_text_one(opening@);
        lemma_events_text_one(ended@);
        lemma_events_text_concat(seq![opening@], texts);
        lemma_events_text_concat(seq![opening@] + texts, calls);
        lemma_events_text_concat(seq![opening@] + texts + calls, seq![ended@]);
        assert(out@ =~= events_text(seq![opening@] + texts + calls + seq![ended@]));
        lemma_read_back_concat(seq![opening@], texts);
        lemma_read_back_concat(seq![opening@] + texts, calls);
        lemma_read_back_concat(seq![opening@] + texts + calls, seq![ended@]);
        if plain_within(payload@, 127) {
            lemma_chunks_plain(payload@, now);
        }
    }
    out.append("data: [DONE]\n\n");
    Ok((out.as_str().as_bytes_vec(), "text/event-stream"))
}

/// A completion as a stream of chunks; the time is read from the clock where it does not give it.
pub fn build_chat_sse_from_chat_completion(payload: &Json) -> (r: Result<
    (Vec<u8>, &'static str),
    String,
>)
    ensures
        exists|now: i64|
            {
                &&& reply_outcome(r) == #[trigger] chat_sse(payload@, now)
                &&& plain_within(payload@, 127) ==> chunks_read_back(payload@, now)
            },
{
    build_chat_sse_at(payload, current_unix_seconds())
}

/// What JSON from upstream comes to as a completion.
fn complete_json(body: &[u8], created: i64) -> (r: Result<Json, String>)
    ensures
        json_outcome(r) == json_completion(body@, created),
{
    match read_json(body) {
        Some(value) => build_chat_completion_at(&value, created),
        None => fail("invalid upstream json response"),
    }
}

/// What a stream from upstream comes to as a completion.
fn complete_sse(body: &[u8], created: i64) -> (r: Result<Json, String>)
    ensures
        json_outcome(r) == sse_completion(body@, created),
{
    match read_utf8(body) {
        Some(text) => build_stream_completion_at(text, created),
        None => fail("invalid upstream sse bytes"),
    }
}

/// A completion as a JSON reply.
fn reply_json(payload: Result<Json, String>) -> (r: Result<(Vec<u8>, &'static str), String>)
    ensures
        reply_outcome(r) == as_json_reply(json_outcome(payload)),
        r matches Ok(reply) ==> holds_json(reply.0@, payload->Ok_0@),
{
    match payload {
        Ok(value) => Ok((write_json_bytes(&value), "application/json")),
        Err(e) => Err(e),
    }
}

/// JSON from upstream as a JSON reply made at the time `created`.
pub fn convert_json_to_json_at(body: &[u8], created: i64) -> (r: Result<
    (Vec<u8>, &'static str),
    String,
>)
    ensures
        reply_outcome(r) == as_json_reply(json_completion(body@, created)),
        r matches Ok(reply) ==> json_read(reply.0@) == Some(json_completion(body@, created)->Ok_0),
{
    let payload = complete_json(body, created);
    proof {
        if let Some(value) = json_read(body@) {
            lemma_completion_plain(value, created);
        }
        if let Ok(value) = json_outcome(payload) {
            lemma_plain_deeper(value, completion_depth(), 127);
        }
    }
    reply_json(payload)
}

/// JSON from upstream as a JSON reply.
pub fn convert_responses_json_to_chat_json(body: &[u8]) -> (r: Result<
    (Vec<u8>, &'static str),
    String,
>)
    ensures
        exists|created: i64|
            {
                &&& reply_outcome(r) == as_json_reply(#[trigger] json_completion(body@, created))
                &&& r matches Ok(reply) ==> json_read(reply.0@) == Some(
                    json_completion(body@, created)->Ok_0,
                )
            },
{
    convert_json_to_json_at(body, current_unix_seconds())
}

/// A stream from upstream as a JSON reply made at the time `created`.
pub fn convert_sse_to_json_at(body: &[u8], created: i64) -> (r: Result<
    (Vec<u8>, &'static str),
    String,
>)
    ensures
        reply_outcome(r) == as_json_reply(sse_completion(body@, created)),
        r matches Ok(reply) ==> json_read(reply.0@) == Some(sse_completion(body@, created)->Ok_0),
{
    let payload = complete_sse(body, created);
    proof {
        if valid_utf8(body@) {
            lemma_stream_completion_plain(decode_utf8(body@), created);
        }
        if let Ok(value) = json_outcome(payload) {
            lemma_plain_deeper(value, completion_depth(), 127);
        }
    }
    reply_json(payload)
}

/// A stream from upstream as a JSON reply.
pub fn convert_responses_sse_to_chat_json(body: &[u8]) -> (r: Result<
    (Vec<u8>, &'static str),
    String,
>)
    ensures
        exists|created: i64|
            {
                &&& reply_outcome(r) == as_json_reply(#[trigger] sse_completion(body@, created))
                &&& r matches Ok(reply) ==> json_read(reply.0@) == Some(
                    sse_completion(body@, created)->Ok_0,
                )
            },
{
    convert_sse_to_json_at(body, current_unix_seconds())
}

/// JSON from upstream as a stream of chunks made at the time `created`.
pub fn convert_json_to_sse_at(body: &[u8], created: i64) -> (r: Result<
    (Vec<u8>, &'static str),
    String,
>)
    ensures
        reply_outcome(r) == as_sse_reply(json_completion(body@, created), created),
        sse_reply_reads_back(json_completion(body@, created), created, reply_outcome(r)),
{
    proof {
        if let Some(value) = json_read(body@) {
            lemma_completion_plain(value, created);
        }
        if let Ok(value) = json_completion(body@, created) {
            lemma_plain_deeper(value, completion_depth(), 127);
        }
    }
    match complete_json(body, created) {
        Ok(payload) => {
            if payload.get("error").is_some() {
                return Ok((write_json_bytes(&payload), "application/json"));
            }
            build_chat_sse_at(&payload, created)
        },
        Err(e) => Err(e),
    }
}

/// JSON from upstream as a stream of chunks.
pub fn convert_responses_json_to_chat_sse(body: &[u8]) -> (r: Result<
    (Vec<u8>, &'static str),
    String,
>)
    ensures
        exists|created: i64|
            {
                &&& reply_outcome(r) == as_sse_reply(
                    #[trigger] json_completion(body@, created),
                    created,
                )
                &&& sse_reply_reads_back(
                    json_completion(body@, created),
                    created,
                    reply_outcome(r),
                )
            },
{
    convert_json_to_sse_at(body, current_unix_seconds())
}

/// A stream from upstream as a stream of chunks made at the time `created`. The completion is
/// written as JSON and read again, which gives it back.
pub fn convert_sse_to_sse_at(body: &[u8], created: i64) -> (r: Result<
    (Vec<u8>, &'static str),
    String,
>)
    ensures
        reply_outcome(r) == as_sse_reply(sse_completion(body@, created), created),
        sse_reply_reads_back(sse_completion(body@, created), created, reply_outcome(r)),
{
    proof {
        if valid_utf8(body@) {
            lemma_stream_completion_plain(decode_utf8(body@), created);
        }
        if let Ok(value) = sse_completion(body@, created) {
            lemma_plain_deeper(value, completion_depth(), 127);
        }
    }
    let (json_body, content_type) = match convert_sse_to_json_at(body, created) {
        Ok(reply) => reply,
        Err(e) => return Err(e),
    };
    if !str_eq(content_type, "application/json") {
        return Ok((json_body, content_type));
    }
    let payload = match read_json(json_body.as_slice()) {
        Some(payload) => payload,
        None => return fail("invalid synthesized openai chat json response"),
    };
    if payload.get("error").is_some() {
        return Ok((json_body, "application/json"));
    }
    build_chat_sse_at(&payload, created)
}

/// A stream from upstream as a stream of chunks.
pub fn convert_responses_sse_to_chat_sse(body: &[u8]) -> (r: Result<
    (Vec<u8>, &'static str),
    String,
>)
    ensures
        exists|created: i64|
            {
                &&& reply_outcome(r) == as_sse_reply(
                    #[trigger] sse_completion(body@, created),
                    created,
                )
                &&& sse_reply_reads_back(
                    sse_completion(body@, created),
                    created,
                    reply_outcome(r),
                )
            },
{
    convert_sse_to_sse_at(body, current_unix_seconds())
}

} // verus!
