//! Responses event streams, put together again into one answer.

use std::collections::BTreeMap;

use vstd::prelude::*;
use vstd::std_specs::btree::increasing_seq;
use vstd::std_specs::cmp::OrdSpec;
use vstd::std_specs::iter::IteratorSpec;
use vstd::string::*;
use vstd::utf8::*;

use crate::chat_completion::{
    answer_of, build_chat_completion_at, capped_sum, chat_completion, completion_depth,
    extract_function_call_arguments_raw, lemma_completion_plain, lemma_error_plain,
    map_responses_error_to_openai, mapped_error, raw_arguments, saturating_sum,
};
use crate::clock::current_unix_seconds;
use crate::codec::{json_read, plain_within, read_json};
use crate::items::{
    default_call_id, function_call_item, make_default_call_id, make_function_call_item,
    make_message_item, message_item,
};
use crate::json::{
    clone_items, fail, field, field_array, field_or, field_str, group_values_view, i64_of, jint, js,
    json_outcome, no_fields, one, opt_owned, or_else, str_of, values_view, Fields, Json, JsonMap,
    JsonV,
};
use crate::sequence::Outcome;
use crate::text::{
    has_prefix, is_blank, lines_of, opt_string, split_lines, starts_with, str_eq, texts, trim,
    trim_start_matches, trimmed, without_prefixes,
};

verus! {

broadcast use {
    group_values_view,
    vstd::std_specs::btree::group_btree_axioms,
    vstd::laws_cmp::group_laws_cmp,
};

/// What a stream has told of one call.
pub struct CallV {
    pub id: Option<Seq<char>>,
    pub name: Option<Seq<char>>,
    pub arguments: Seq<char>,
}

/// What a stream has told so far.
pub struct StreamV {
    pub response_id: Option<Seq<char>>,
    pub model: Option<Seq<char>>,
    pub input_tokens: Option<i64>,
    pub output_tokens: Option<i64>,
    pub total_tokens: Option<i64>,
    pub content: Seq<char>,
    pub calls: Map<usize, CallV>,
    pub completed: Option<JsonV>,
    pub error: Option<JsonV>,
}

/// A call of which nothing is known.
pub open spec fn no_call() -> CallV {
    CallV { id: None, name: None, arguments: Seq::empty() }
}

/// A stream that has told nothing.
pub open spec fn no_stream() -> StreamV {
    StreamV {
        response_id: None,
        model: None,
        input_tokens: None,
        output_tokens: None,
        total_tokens: None,
        content: Seq::empty(),
        calls: Map::empty(),
        completed: None,
        error: None,
    }
}

/// `newer`, or `older` where there is nothing new.
pub open spec fn renewed<T>(newer: Option<T>, older: Option<T>) -> Option<T> {
    match newer {
        Some(value) => Some(value),
        None => older,
    }
}

/// The state with what an event tells of the whole answer.
pub open spec fn meta_captured(state: StreamV, event: JsonV) -> StreamV {
    let usage = answer_of(event).get_object("usage"@);
    let named = StreamV {
        response_id: renewed(
            nested_str(event, "id"@),
            renewed(event.get_str("id"@), state.response_id),
        ),
        model: renewed(nested_str(event, "model"@), renewed(event.get_str("model"@), state.model)),
        ..state
    };
    match usage {
        Some(counts) => StreamV {
            input_tokens: renewed(
                i64_of(field_or(counts, "input_tokens"@, "prompt_tokens"@)),
                state.input_tokens,
            ),
            output_tokens: renewed(
                i64_of(field_or(counts, "output_tokens"@, "completion_tokens"@)),
                state.output_tokens,
            ),
            total_tokens: renewed(i64_of(field(counts, "total_tokens"@)), state.total_tokens),
            ..named
        },
        None => named,
    }
}

/// The text under `key` of the answer that an event carries.
pub open spec fn nested_str(event: JsonV, key: Seq<char>) -> Option<Seq<char>> {
    match event.get("response"@) {
        Some(response) => response.get_str(key),
        None => None,
    }
}

/// The call that an event brings to its end.
pub open spec fn finished_call(event: JsonV) -> Option<Fields> {
    match event.get_object("item"@) {
        Some(item) => if field_str(item, "type"@) == Some("function_call"@) {
            Some(item)
        } else {
            None
        },
        None => None,
    }
}

/// The place that an event gives to its call, where it gives one.
pub open spec fn given_place(event: JsonV, item: Fields) -> Option<u64> {
    let given = match event.get("output_index"@) {
        Some(place) => Some(place),
        None => field(item, "index"@),
    };
    match given {
        Some(place) => place.as_u64(),
        None => None,
    }
}

/// A call with what an item tells of it.
pub open spec fn call_renewed(call: CallV, item: Fields) -> CallV {
    CallV {
        id: renewed(str_of(field_or(item, "call_id"@, "id"@)), call.id),
        name: renewed(field_str(item, "name"@), call.name),
        arguments: or_else(raw_arguments(item), call.arguments),
    }
}

/// The state with the call that an event brings to its end. A call without a place of its own goes
/// to the place that the number of calls gives.
pub open spec fn call_captured(state: StreamV, event: JsonV) -> StreamV {
    match finished_call(event) {
        Some(item) => {
            let place = match given_place(event, item) {
                Some(n) => n as usize,
                None => state.calls.len() as usize,
            };
            let before = if state.calls.contains_key(place) {
                state.calls[place]
            } else {
                no_call()
            };
            StreamV { calls: state.calls.insert(place, call_renewed(before, item)), ..state }
        },
        None => state,
    }
}

/// The state with what an event tells.
pub open spec fn event_captured(state: StreamV, event: JsonV) -> StreamV {
    let met = meta_captured(state, event);
    match mapped_error(event) {
        Some(error) => StreamV { error: Some(error), ..met },
        None => {
            let kind = event.get_str("type"@);
            if kind == Some("response.output_text.delta"@) {
                StreamV {
                    content: met.content + or_else(event.get_str("delta"@), Seq::empty()),
                    ..met
                }
            } else if kind == Some("response.output_item.done"@) {
                call_captured(met, event)
            } else if kind == Some("response.completed"@) {
                StreamV { completed: renewed(event.get("response"@), met.completed), ..met }
            } else {
                met
            }
        },
    }
}

/// What a line carries, if it carries data.
pub open spec fn line_payload(line: Seq<char>) -> Option<Seq<char>> {
    if has_prefix(trimmed(line), "data:"@) {
        Some(trimmed(without_prefixes(trimmed(line), "data:"@)))
    } else {
        None
    }
}

/// The state after one more line, and whether the stream has come to its end.
/// Lines without data, and data that is no JSON, tell nothing.
pub open spec fn line_captured(walk: (StreamV, bool), line: Seq<char>) -> (StreamV, bool) {
    if walk.1 {
        walk
    } else {
        match line_payload(line) {
            Some(payload) => if payload == "[DONE]"@ {
                (walk.0, true)
            } else {
                match json_read(encode_utf8(payload)) {
                    Some(event) => {
                        let state = event_captured(walk.0, event);
                        (state, mapped_error(event) is Some)
                    },
                    None => walk,
                }
            },
            None => walk,
        }
    }
}

/// The state after the given lines, and whether the stream has come to its end.
pub open spec fn lines_captured(lines: Seq<Seq<char>>) -> (StreamV, bool)
    decreases lines.len(),
{
    if lines.len() == 0 {
        (no_stream(), false)
    } else {
        line_captured(lines_captured(lines.drop_last()), lines.last())
    }
}

/// The keys in increasing order.
pub open spec fn in_order(order: Seq<usize>, keys: Set<usize>) -> bool {
    &&& forall|i: int, j: int| 0 <= i < j < order.len() ==> order[i] < order[j]
    &&& order.to_set() == keys
}

/// The keys in increasing order.
pub open spec fn ordered(keys: Set<usize>) -> Seq<usize> {
    choose|order: Seq<usize>| in_order(order, keys)
}

/// There is one increasing order of given keys.
pub proof fn lemma_order_unique(a: Seq<usize>, b: Seq<usize>, keys: Set<usize>)
    requires
        in_order(a, keys),
        in_order(b, keys),
    ensures
        a == b,
    decreases a.len(),
{
    if a.len() == 0 {
        if b.len() > 0 {
            assert(b.to_set().contains(b[0]));
        }
        assert(a =~= b);
    } else {
        assert(a.to_set().contains(a.last()));
        assert(b.contains(a.last()));
        let j = choose|j: int| 0 <= j < b.len() && b[j] == a.last();
        assert(b.to_set().contains(b.last()));
        assert(a.contains(b.last()));
        let i = choose|i: int| 0 <= i < a.len() && a[i] == b.last();
        assert(a.last() == b.last());
        let rest = keys.remove(a.last());
        lemma_order_without_last(a, keys);
        lemma_order_without_last(b, keys);
        lemma_order_unique(a.drop_last(), b.drop_last(), rest);
        assert(a =~= a.drop_last().push(a.last()));
        assert(b =~= b.drop_last().push(b.last()));
    }
}

proof fn lemma_order_without_last(order: Seq<usize>, keys: Set<usize>)
    requires
        in_order(order, keys),
        order.len() > 0,
    ensures
        in_order(order.drop_last(), keys.remove(order.last())),
{
    let rest = order.drop_last();
    assert forall|key: usize| rest.to_set().contains(key) == keys.remove(order.last()).contains(
        key,
    ) by {
        if rest.to_set().contains(key) {
            let i = choose|i: int| 0 <= i < rest.len() && rest[i] == key;
            assert(order[i] == key);
            assert(order.to_set().contains(key));
        }
        if keys.remove(order.last()).contains(key) {
            assert(order.to_set().contains(key));
            let i = choose|i: int| 0 <= i < order.len() && order[i] == key;
            assert(rest[i] == key);
        }
    }
    assert(rest.to_set() =~= keys.remove(order.last()));
}

proof fn lemma_largest(keys: Set<usize>) -> (largest: usize)
    requires
        keys.finite(),
        keys.len() > 0,
    ensures
        keys.contains(largest),
        forall|key: usize| keys.contains(key) ==> key <= largest,
    decreases keys.len(),
{
    let key = keys.choose();
    let rest = keys.remove(key);
    if rest.len() == 0 {
        assert(rest =~= Set::empty());
        assert forall|other: usize| keys.contains(other) implies other <= key by {
            assert(!rest.contains(other));
        }
        key
    } else {
        let largest = lemma_largest(rest);
        let found = if largest < key {
            key
        } else {
            largest
        };
        assert forall|other: usize| keys.contains(other) implies other <= found by {
            assert(other == key || rest.contains(other));
        }
        found
    }
}

proof fn lemma_some_order(keys: Set<usize>) -> (order: Seq<usize>)
    requires
        keys.finite(),
    ensures
        in_order(order, keys),
    decreases keys.len(),
{
    if keys.len() == 0 {
        let order = Seq::<usize>::empty();
        assert(order.to_set() =~= keys);
        order
    } else {
        let largest = lemma_largest(keys);
        let rest = lemma_some_order(keys.remove(largest));
        let order = rest.push(largest);
        assert forall|i: int, j: int| 0 <= i < j < order.len() implies order[i] < order[j] by {
            assert(rest.to_set().contains(rest[i]));
        }
        assert forall|key: usize| order.to_set().contains(key) == keys.contains(key) by {
            if order.contains(key) {
                let i = choose|i: int| 0 <= i < order.len() && order[i] == key;
                if i < rest.len() {
                    assert(rest.to_set().contains(rest[i]));
                }
            }
            if keys.contains(key) {
                if key == largest {
                    assert(order[rest.len() as int] == key);
                } else {
                    assert(rest.to_set().contains(key));
                    let i = choose|i: int| 0 <= i < rest.len() && rest[i] == key;
                    assert(order[i] == key);
                }
            }
        }
        assert(order.to_set() =~= keys);
        order
    }
}

/// Finitely many keys have an increasing order.
pub proof fn lemma_ordered(keys: Set<usize>)
    requires
        keys.finite(),
    ensures
        in_order(ordered(keys), keys),
{
    let order = lemma_some_order(keys);
}

/// The identifier of the call at a place.
pub open spec fn stream_call_id(place: usize, call: CallV) -> Seq<char> {
    or_else(call.id, default_call_id(place as nat))
}

/// The output item of the call at a place.
pub open spec fn stream_call_item(place: usize, call: CallV) -> JsonV {
    function_call_item(stream_call_id(place, call), or_else(call.name, "tool"@), call.arguments)
}

/// The identifier of an output item.
pub open spec fn item_id(item: JsonV) -> Option<Seq<char>> {
    str_of(renewed(item.get("call_id"@), item.get("id"@)))
}

/// One of the items has the identifier `id`.
pub open spec fn has_item(items: Seq<JsonV>, id: Seq<char>) -> bool {
    exists|i: int| 0 <= i < items.len() && #[trigger] item_id(items[i]) == Some(id)
}

/// The items of the calls at the given places, but for those whose identifier an item of `known`
/// has.
pub open spec fn new_call_items(
    places: Seq<usize>,
    calls: Map<usize, CallV>,
    known: Seq<JsonV>,
) -> Seq<JsonV>
    decreases places.len(),
{
    if places.len() == 0 {
        Seq::empty()
    } else {
        let before = new_call_items(places.drop_last(), calls, known);
        let place = places.last();
        if has_item(known, stream_call_id(place, calls[place])) {
            before
        } else {
            before.push(stream_call_item(place, calls[place]))
        }
    }
}

/// The answer that a stream ended with, completed by what the stream told before: the text, where
/// the answer shows none of its own, and the calls that it does not list.
pub open spec fn merged(response: JsonV, state: StreamV) -> Outcome<JsonV> {
    match response {
        JsonV::Object(fields) => {
            let shown = or_else(field_str(fields, "output_text"@), Seq::empty());
            let told = if is_blank(shown) && !is_blank(state.content) {
                fields.insert("output_text"@, js(state.content))
            } else {
                fields
            };
            let listed = or_else(field_array(told, "output"@), Seq::empty());
            let output = listed + new_call_items(ordered(state.calls.dom()), state.calls, listed);
            Ok(JsonV::Object(told.insert("output"@, JsonV::Array(output))))
        },
        _ => Err("invalid response.completed payload"@),
    }
}

/// The token counts that a stream has told.
pub open spec fn stream_usage(state: StreamV) -> JsonV {
    let input = or_else(state.input_tokens, 0);
    let output = or_else(state.output_tokens, 0);
    JsonV::Object(
        no_fields().insert("input_tokens"@, jint(input as int)).insert(
            "output_tokens"@,
            jint(output as int),
        ).insert(
            "total_tokens"@,
            jint(or_else(state.total_tokens, capped_sum(input, output)) as int),
        ),
    )
}

/// The answer that a stream without an end comes to.
pub open spec fn synthesized(state: StreamV) -> JsonV {
    let text = if state.content.len() > 0 {
        seq![message_item("assistant"@, "output_text"@, state.content)]
    } else {
        Seq::empty()
    };
    JsonV::Object(
        no_fields().insert("id"@, js(or_else(state.response_id, "resp_codexmanager"@))).insert(
            "model"@,
            js(or_else(state.model, "unknown"@)),
        ).insert("output_text"@, js(state.content)).insert(
            "output"@,
            JsonV::Array(
                text + new_call_items(ordered(state.calls.dom()), state.calls, Seq::empty()),
            ),
        ).insert("usage"@, stream_usage(state)),
    )
}

/// The completion that a stream in a given state comes to at the time `created`.
pub open spec fn state_completion(state: StreamV, created: i64) -> Outcome<JsonV> {
    match state.error {
        Some(error) => Ok(error),
        None => match state.completed {
            Some(response) => match merged(response, state) {
                Ok(answer) => chat_completion(answer, created),
                Err(e) => Err(e),
            },
            None => chat_completion(synthesized(state), created),
        },
    }
}

/// The completion that the text of a stream comes to at the time `created`.
pub open spec fn stream_completion(text: Seq<char>, created: i64) -> Outcome<JsonV> {
    state_completion(lines_captured(lines_of(text)).0, created)
}

/// What a stream has told of one call.
pub struct StreamingToolCall {
    pub id: Option<String>,
    pub name: Option<String>,
    pub arguments: String,
}

impl StreamingToolCall {
    pub open spec fn view(&self) -> CallV {
        CallV { id: opt_string(self.id), name: opt_string(self.name), arguments: self.arguments@ }
    }

    /// A call of which nothing is known.
    pub fn new() -> (r: StreamingToolCall)
        ensures
            r@ == no_call(),
    {
        let arguments = String::new();
        assert(arguments@ =~= Seq::empty());
        StreamingToolCall { id: None, name: None, arguments }
    }
}

/// What a stream has told so far; the calls stand in the order of their places.
pub struct StreamingResponsesState {
    pub response_id: Option<String>,
    pub model: Option<String>,
    pub input_tokens: Option<i64>,
    pub output_tokens: Option<i64>,
    pub total_tokens: Option<i64>,
    pub content_text: String,
    pub tool_calls: BTreeMap<usize, StreamingToolCall>,
    pub completed_response: Option<Json>,
    pub error_payload: Option<Json>,
}

/// What each call of a map stands for.
pub open spec fn calls_view(calls: Map<usize, StreamingToolCall>) -> Map<usize, CallV> {
    calls.map_values(|call: StreamingToolCall| call@)
}

impl StreamingResponsesState {
    pub open spec fn view(&self) -> StreamV {
        StreamV {
            response_id: opt_string(self.response_id),
            model: opt_string(self.model),
            input_tokens: self.input_tokens,
            output_tokens: self.output_tokens,
            total_tokens: self.total_tokens,
            content: self.content_text@,
            calls: calls_view(self.tool_calls@),
            completed: opt_owned(self.completed_response),
            error: opt_owned(self.error_payload),
        }
    }

    /// A stream that has told nothing.
    pub fn new() -> (r: StreamingResponsesState)
        ensures
            r@ == no_stream(),
    {
        let content_text = String::new();
        assert(content_text@ =~= Seq::empty());
        let tool_calls: BTreeMap<usize, StreamingToolCall> = BTreeMap::new();
        assert(calls_view(tool_calls@) =~= Map::empty());
        StreamingResponsesState {
            response_id: None,
            model: None,
            input_tokens: None,
            output_tokens: None,
            total_tokens: None,
            content_text,
            tool_calls,
            completed_response: None,
            error_payload: None,
        }
    }

    /// Takes in what an event tells of the whole answer.
    pub fn capture_meta(&mut self, value: &Json)
        ensures
            final(self)@ == meta_captured(old(self)@, value@),
    {
        if let Some(id) = value.get_str("id") {
            self.response_id = Some(id.to_owned());
        }
        if let Some(model) = value.get_str("model") {
            self.model = Some(model.to_owned());
        }
        let source = match value.get("response") {
            Some(response) => response,
            None => value,
        };
        let usage = match source.get("usage") {
            Some(usage) => usage.as_object(),
            None => None,
        };
        if let Some(usage) = usage {
            if let Some(count) = usage.get_or("input_tokens", "prompt_tokens") {
                if let Some(n) = count.as_i64() {
                    self.input_tokens = Some(n);
                }
            }
            if let Some(count) = usage.get_or("output_tokens", "completion_tokens") {
                if let Some(n) = count.as_i64() {
                    self.output_tokens = Some(n);
                }
            }
            if let Some(count) = usage.get("total_tokens") {
                if let Some(n) = count.as_i64() {
                    self.total_tokens = Some(n);
                }
            }
        }
        if let Some(response) = value.get("response") {
            if let Some(id) = response.get_str("id") {
                self.response_id = Some(id.to_owned());
            }
            if let Some(model) = response.get_str("model") {
                self.model = Some(model.to_owned());
            }
        }
    }

    /// Takes in the call that an event brings to its end.
    pub fn capture_function_call(&mut self, value: &Json)
        ensures
            final(self)@ == call_captured(old(self)@, value@),
    {
        let item = match value.get("item") {
            Some(item) => item.as_object(),
            None => None,
        };
        let item_obj = match item {
            Some(item_obj) => item_obj,
            None => return,
        };
        match item_obj.get_str("type") {
            Some(kind) => if !str_eq(kind, "function_call") {
                return;
            },
            None => return,
        }
        let place = match value.get("output_index") {
            Some(place) => Some(place),
            None => item_obj.get("index"),
        };
        let given = match place {
            Some(place) => place.as_u64(),
            None => None,
        };
        let index: usize = match given {
            Some(n) => n as usize,
            None => {
                assert(self.tool_calls@.dom() =~= self@.calls.dom());
                self.tool_calls.len()
            },
        };
        let ghost before = self.tool_calls@;
        let mut entry = match self.tool_calls.remove(&index) {
            Some(entry) => entry,
            None => StreamingToolCall::new(),
        };
        if let Some(id) = item_obj.get_or("call_id", "id") {
            if let Some(id) = id.as_str() {
                entry.id = Some(id.to_owned());
            }
        }
        if let Some(name) = item_obj.get_str("name") {
            entry.name = Some(name.to_owned());
        }
        if let Some(arguments) = extract_function_call_arguments_raw(item_obj) {
            entry.arguments = arguments;
        }
        let ghost renewed_call = entry@;
        self.tool_calls.insert(index, entry);
        assert(calls_view(self.tool_calls@) =~= calls_view(before).insert(index, renewed_call));
    }

    /// Takes in what an event tells; whether it is an error, after which nothing more counts.
    pub fn capture_event(&mut self, value: &Json) -> (r: bool)
        ensures
            final(self)@ == event_captured(old(self)@, value@),
            r == (mapped_error(value@) is Some),
    {
        self.capture_meta(value);
        if let Some(error_payload) = map_responses_error_to_openai(value) {
            self.error_payload = Some(error_payload);
            return true;
        }
        let ghost met = self@;
        assert(met.content + Seq::<char>::empty() =~= met.content);
        if let Some(event_type) = value.get_str("type") {
            if str_eq(event_type, "response.output_text.delta") {
                if let Some(fragment) = value.get_str("delta") {
                    self.content_text.append(fragment);
                }
            } else if str_eq(event_type, "response.output_item.done") {
                self.capture_function_call(value);
            } else if str_eq(event_type, "response.completed") {
                if let Some(response) = value.get("response") {
                    self.completed_response = Some(response.clone());
                }
            }
        }
        false
    }

    /// Takes in one line; whether the stream has come to its end.
    pub fn capture_line(&mut self, raw_line: &str) -> (r: bool)
        ensures
            (final(self)@, r) == line_captured((old(self)@, false), raw_line@),
    {
        let line = trim(raw_line);
        if !starts_with(line, "data:") {
            return false;
        }
        let payload = trim(trim_start_matches(line, "data:"));
        if str_eq(payload, "[DONE]") {
            return true;
        }
        match read_json(payload.as_bytes()) {
            Some(value) => self.capture_event(&value),
            None => false,
        }
    }
}

/// Whether one of the items has the identifier `id`.
fn contains_item(items: &Vec<Json>, id: &str) -> (r: bool)
    ensures
        r == has_item(values_view(items@), id@),
{
    let ghost all = values_view(items@);
    let mut i: usize = 0;
    while i < items.len()
        invariant
            all == values_view(items@),
            i <= items@.len(),
            forall|k: int| 0 <= k < i ==> #[trigger] item_id(all[k]) != Some(id@),
        decreases items@.len() - i,
    {
        let found = match items[i].get("call_id") {
            Some(found) => Some(found),
            None => items[i].get("id"),
        };
        if let Some(found) = found {
            if let Some(text) = found.as_str() {
                if str_eq(text, id) {
                    assert(item_id(all[i as int]) == Some(id@));
                    return true;
                }
            }
        }
        i += 1;
    }
    false
}

/// What an increasing sequence of places is.
proof fn lemma_increasing(keys: Seq<usize>)
    requires
        increasing_seq(keys),
    ensures
        forall|i: int, j: int| 0 <= i < j < keys.len() ==> keys[i] < keys[j],
{
    assert forall|i: int, j: int| 0 <= i < j < keys.len() implies keys[i] < keys[j] by {
        assert(keys[i].cmp_spec(&keys[j]) is Less);
    }
}

/// Appends the items of the calls, in the order of their places, but for those whose identifier an
/// item of `known` has.
fn append_call_items(
    output: &mut Vec<Json>,
    calls: &BTreeMap<usize, StreamingToolCall>,
    known: &Vec<Json>,
)
    ensures
        values_view(final(output)@) == values_view(old(output)@) + new_call_items(
            ordered(calls@.dom()),
            calls_view(calls@),
            values_view(known@),
        ),
{
    let ghost start = values_view(output@);
    let ghost listed = values_view(known@);
    let ghost mut order: Seq<usize> = Seq::empty();
    assert(start + Seq::<JsonV>::empty() =~= start);
    let pairs = calls.iter();
    let ghost walked = pairs.remaining();
    for pair in it: pairs
        invariant
            it.seq() == walked,
            listed == values_view(known@),
            order == it.seq().take(it.index()).map_values(|kv: (&usize, &StreamingToolCall)| *kv.0),
            forall|k: int|
                0 <= k < it.seq().len() ==> calls@.contains_key(*(#[trigger] it.seq()[k]).0)
                    && calls@[*it.seq()[k].0] == *it.seq()[k].1,
            values_view(output@) == start + new_call_items(order, calls_view(calls@), listed),
    {
        let (index, tool_call) = pair;
        let ghost before = order;
        proof {
            order = order.push(*index);
            assert(order.drop_last() =~= before);
            assert(order =~= it.seq().take(it.index() + 1).map_values(
                |kv: (&usize, &StreamingToolCall)| *kv.0,
            ));
            assert(calls_view(calls@)[*index] == tool_call@);
        }
        let call_id = match &tool_call.id {
            Some(id) => id.clone(),
            None => make_default_call_id(*index as u64),
        };
        if !contains_item(known, call_id.as_str()) {
            let name = match &tool_call.name {
                Some(name) => name.clone(),
                None => "tool".to_owned(),
            };
            output.push(
                make_function_call_item(
                    call_id.as_str(),
                    name.as_str(),
                    tool_call.arguments.as_str(),
                ),
            );
        }
        assert(values_view(output@) =~= start + new_call_items(order, calls_view(calls@), listed));
    }
    proof {
        let keys = walked.map_values(|kv: (&usize, &StreamingToolCall)| *kv.0);
        assert(order =~= keys);
        assert(increasing_seq(keys));
        assert forall|key: usize| calls@.contains_key(key) implies order.contains(key) by {
            assert(walked.contains((&key, &calls@[key])));
            let i = choose|i: int| 0 <= i < walked.len() && walked[i] == (&key, &calls@[key]);
            assert(order[i] == key);
        }
        assert forall|key: usize| order.contains(key) implies calls@.contains_key(key) by {
            let i = choose|i: int| 0 <= i < order.len() && order[i] == key;
            assert(*walked[i].0 == key);
        }
        assert(order.to_set() =~= calls@.dom());
        lemma_increasing(keys);
        lemma_order_unique(order, ordered(calls@.dom()), calls@.dom());
    }
}

/// Completes the answer that a stream ended with by what the stream told before. What is no object
/// stays as it is.
pub fn merge_stream_accumulator_into_response(
    response: &mut Json,
    state: &StreamingResponsesState,
) -> (r: Result<(), String>)
    ensures
        match merged(old(response)@, state@) {
            Ok(answer) => r is Ok && final(response)@ == answer,
            Err(message) => {
                &&& r matches Err(e) && e@ == message
                &&& final(response)@ == old(response)@
            },
        },
{
    let mut answer = match response.as_object() {
        Some(fields) => fields.clone(),
        None => return fail("invalid response.completed payload"),
    };
    let shown_blank = match answer.get_str("output_text") {
        Some(text) => trim(text).is_empty(),
        None => {
            assert(trimmed(Seq::<char>::empty()).len() == 0);
            true
        },
    };
    if shown_blank && !trim(state.content_text.as_str()).is_empty() {
        answer.insert("output_text", Json::text(state.content_text.as_str()));
    }
    let listed = match answer.get_array("output") {
        Some(items) => clone_items(items),
        None => Vec::new(),
    };
    let mut output_items = clone_items(&listed);
    assert(state.tool_calls@.dom() =~= state@.calls.dom());
    append_call_items(&mut output_items, &state.tool_calls, &listed);
    answer.insert("output", Json::Array(output_items));
    *response = Json::Object(answer);
    Ok(())
}

/// The answer that a stream without an end comes to. Nothing here can fail.
pub fn synthesize_responses_payload_from_stream(state: &StreamingResponsesState) -> (r: Result<
    Json,
    String,
>)
    ensures
        json_outcome(r) == Outcome::<JsonV>::Ok(synthesized(state@)),
{
    let mut output: Vec<Json> = Vec::new();
    if !state.content_text.as_str().is_empty() {
        output = one(make_message_item("assistant", "output_text", state.content_text.as_str()));
    }
    let known: Vec<Json> = Vec::new();
    assert(state.tool_calls@.dom() =~= state@.calls.dom());
    append_call_items(&mut output, &state.tool_calls, &known);
    let id = match &state.response_id {
        Some(id) => id.clone(),
        None => "resp_codexmanager".to_owned(),
    };
    let model = match &state.model {
        Some(model) => model.clone(),
        None => "unknown".to_owned(),
    };
    let input: i64 = match state.input_tokens {
        Some(n) => n,
        None => 0,
    };
    let told: i64 = match state.output_tokens {
        Some(n) => n,
        None => 0,
    };
    let total: i64 = match state.total_tokens {
        Some(n) => n,
        None => saturating_sum(input, told),
    };
    let usage = JsonMap::new().with("input_tokens", Json::integer(input)).with(
        "output_tokens",
        Json::integer(told),
    ).with("total_tokens", Json::integer(total));
    Ok(
        Json::Object(
            JsonMap::new().with("id", Json::Str(id)).with("model", Json::Str(model)).with(
                "output_text",
                Json::text(state.content_text.as_str()),
            ).with("output", Json::Array(output)).with("usage", Json::Object(usage)),
        ),
    )
}

/// Once the stream has come to its end, further lines tell nothing.
pub proof fn lemma_stream_ends(lines: Seq<Seq<char>>, i: int)
    requires
        0 <= i <= lines.len(),
        lines_captured(lines.take(i)).1,
    ensures
        lines_captured(lines) == lines_captured(lines.take(i)),
    decreases lines.len() - i,
{
    if i == lines.len() {
        assert(lines.take(i) =~= lines);
    } else {
        assert(lines.take(i + 1).drop_last() =~= lines.take(i));
        lemma_stream_ends(lines, i + 1);
    }
}

proof fn lemma_stream_error_plain(lines: Seq<Seq<char>>)
    ensures
        lines_captured(lines).0.error matches Some(error) ==> plain_within(
            error,
            completion_depth(),
        ),
    decreases lines.len(),
{
    if lines.len() > 0 {
        lemma_stream_error_plain(lines.drop_last());
        if let Some(payload) = line_payload(lines.last()) {
            if let Some(event) = json_read(encode_utf8(payload)) {
                lemma_error_plain(event);
            }
        }
    }
}

/// The completion of a stream holds no floating-point number and is not deep: it survives being
/// written and read.
pub proof fn lemma_stream_completion_plain(text: Seq<char>, created: i64)
    ensures
        stream_completion(text, created) matches Ok(payload) ==> plain_within(
            payload,
            completion_depth(),
        ),
{
    let state = lines_captured(lines_of(text)).0;
    lemma_stream_error_plain(lines_of(text));
    lemma_completion_plain(synthesized(state), created);
    if let Some(response) = state.completed {
        if let Ok(answer) = merged(response, state) {
            lemma_completion_plain(answer, created);
        }
    }
}

/// What the text of a stream tells.
pub fn capture_stream(text: &str) -> (r: StreamingResponsesState)
    ensures
        r@ == lines_captured(lines_of(text@)).0,
{
    let lines = split_lines(text);
    let ghost all = texts(lines@);
    let mut state = StreamingResponsesState::new();
    let mut i: usize = 0;
    assert(all.take(0) =~= Seq::empty());
    while i < lines.len()
        invariant
            all == texts(lines@),
            all == lines_of(text@),
            i <= lines@.len(),
            lines_captured(all.take(i as int)) == (state@, false),
        decreases lines@.len() - i,
    {
        assert(all.take(i + 1).drop_last() =~= all.take(i as int));
        if state.capture_line(lines[i].as_str()) {
            proof {
                lemma_stream_ends(all, i + 1);
            }
            return state;
        }
        i += 1;
    }
    assert(all.take(all.len() as int) =~= all);
    state
}

/// The completion that a stream in a given state comes to at the time `created`.
pub fn build_chat_completion_from_state(state: StreamingResponsesState, created: i64) -> (r: Result<
    Json,
    String,
>)
    ensures
        json_outcome(r) == state_completion(state@, created),
{
    if let Some(error_payload) = &state.error_payload {
        return Ok(error_payload.clone());
    }
    if let Some(completed) = &state.completed_response {
        let mut completed_response = completed.clone();
        match merge_stream_accumulator_into_response(&mut completed_response, &state) {
            Ok(()) => return build_chat_completion_at(&completed_response, created),
            Err(e) => return Err(e),
        }
    }
    match synthesize_responses_payload_from_stream(&state) {
        Ok(payload) => build_chat_completion_at(&payload, created),
        Err(e) => Err(e),
    }
}

/// The completion that the text of a stream comes to at the time `created`.
pub fn build_stream_completion_at(text: &str, created: i64) -> (r: Result<Json, String>)
    ensures
        json_outcome(r) == stream_completion(text@, created),
{
    build_chat_completion_from_state(capture_stream(text), created)
}

/// The completion that the text of a stream comes to now.
pub fn build_chat_completion_from_responses_stream(text: &str) -> (r: Result<Json, String>)
    ensures
        exists|created: i64| json_outcome(r) == #[trigger] stream_completion(text@, created),
{
    build_stream_completion_at(text, current_unix_seconds())
}

} // verus!
