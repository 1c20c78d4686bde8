//! JSON text: reading and writing it is `serde_json`'s work, behind the trusted items of this
//! module.

use vstd::prelude::*;
use vstd::string::*;
use vstd::utf8::*;

use crate::json::{
    distinct_keys, entries_view, field, opt_owned, values_view, Fields, Json, JsonMap, JsonV, NumV,
};

verus! {

/// `serde_json`'s number, carried as it is.
#[verifier::external_type_specification]
#[verifier::external_body]
pub struct ExNumber(serde_json::Number);

/// `serde_json`'s value.
#[verifier::external_type_specification]
#[verifier::external_body]
pub struct ExValue(serde_json::Value);

/// `serde_json`'s error; nothing inside it is looked at.
#[verifier::external_type_specification]
#[verifier::external_body]
pub struct ExError(serde_json::Error);

/// What a number of `serde_json` stands for: the integer that it holds, or itself where it holds a
/// number in floating point.
pub uninterp spec fn number_view(n: serde_json::Number) -> NumV;

/// What a value of `serde_json` holds: a tree of JSON values.
pub uninterp spec fn value_view(value: serde_json::Value) -> JsonV;

/// The JSON value that `serde_json` reads from bytes, or nothing where it reports an error.
pub uninterp spec fn json_read(bytes: Seq<u8>) -> Option<JsonV>;

/// The compact text that `serde_json` writes for a JSON value.
pub uninterp spec fn json_text(value: JsonV) -> Seq<char>;

/// A value without floating-point numbers, at most `depth` arrays and objects deep.
pub open spec fn plain_within(value: JsonV, depth: nat) -> bool
    decreases depth,
{
    match value {
        JsonV::Number(NumV::Float(_)) => false,
        JsonV::Array(items) => depth > 0 && forall|i: int|
            0 <= i < items.len() ==> plain_within(#[trigger] items[i], (depth - 1) as nat),
        JsonV::Object(fields) => depth > 0 && forall|key: Seq<char>|
            fields.contains_key(key) ==> plain_within(#[trigger] fields[key], (depth - 1) as nat),
        _ => true,
    }
}

/// A value that stays within a depth stays within every greater one.
pub proof fn lemma_plain_deeper(value: JsonV, depth: nat, deeper: nat)
    requires
        plain_within(value, depth),
        depth <= deeper,
    ensures
        plain_within(value, deeper),
    decreases depth,
{
    match value {
        JsonV::Array(items) => {
            assert forall|i: int| 0 <= i < items.len() implies plain_within(
                #[trigger] items[i],
                (deeper - 1) as nat,
            ) by {
                lemma_plain_deeper(items[i], (depth - 1) as nat, (deeper - 1) as nat);
            }
        },
        JsonV::Object(fields) => {
            assert forall|key: Seq<char>| fields.contains_key(key) implies plain_within(
                #[trigger] fields[key],
                (deeper - 1) as nat,
            ) by {
                lemma_plain_deeper(fields[key], (depth - 1) as nat, (deeper - 1) as nat);
            }
        },
        _ => {},
    }
}

/// One level of a value of `serde_json`.
pub enum ValueParts {
    Null,
    Bool(bool),
    Number(serde_json::Number),
    Str(String),
    Array(Vec<serde_json::Value>),
    Object(Vec<(String, serde_json::Value)>),
}

/// What each value of a sequence holds.
pub open spec fn outside_values_view(items: Seq<serde_json::Value>) -> Seq<JsonV> {
    Seq::new(items.len(), |i: int| value_view(items[i]))
}

/// What a sequence of members stands for: of equal keys the last one counts.
pub open spec fn pairs_view(pairs: Seq<(String, serde_json::Value)>) -> Fields
    decreases pairs.len(),
{
    if pairs.len() == 0 {
        Map::empty()
    } else {
        pairs_view(pairs.drop_last()).insert(pairs.last().0@, value_view(pairs.last().1))
    }
}

/// No key comes twice.
pub open spec fn distinct_pairs(pairs: Seq<(String, serde_json::Value)>) -> bool {
    forall|i: int, j: int|
        0 <= i < j < pairs.len() ==> (#[trigger] pairs[i]).0@ != (#[trigger] pairs[j]).0@
}

impl ValueParts {
    pub open spec fn view(&self) -> JsonV {
        match self {
            ValueParts::Null => JsonV::Null,
            ValueParts::Bool(b) => JsonV::Bool(*b),
            ValueParts::Number(n) => JsonV::Number(number_view(*n)),
            ValueParts::Str(s) => JsonV::Str(s@),
            ValueParts::Array(items) => JsonV::Array(outside_values_view(items@)),
            ValueParts::Object(pairs) => JsonV::Object(pairs_view(pairs@)),
        }
    }
}

/// Calls `serde_json::Number::clone`: the copy stands for the same number.
#[verifier::external_body]
pub(crate) fn number_copy(n: &serde_json::Number) -> (r: serde_json::Number)
    ensures
        number_view(r) == number_view(*n),
{
    n.clone()
}

/// Calls `serde_json::Number::as_i64`: the integer that the number holds, if it has 64 bits with
/// sign, and nothing for a number in floating point.
#[verifier::external_body]
pub(crate) fn number_as_i64(n: &serde_json::Number) -> (r: Option<i64>)
    ensures
        r == JsonV::Number(number_view(*n)).as_i64(),
{
    n.as_i64()
}

/// Calls `serde_json::Number::as_u64`: the integer that the number holds, if it has 64 bits without
/// sign, and nothing for a number in floating point.
#[verifier::external_body]
pub(crate) fn number_as_u64(n: &serde_json::Number) -> (r: Option<u64>)
    ensures
        r == JsonV::Number(number_view(*n)).as_u64(),
{
    n.as_u64()
}

/// Calls `serde_json::Number::from` on an `i64`: the number holds that integer.
#[verifier::external_body]
pub(crate) fn number_from_i64(n: i64) -> (r: serde_json::Number)
    ensures
        number_view(r) == NumV::Int(n as int),
{
    serde_json::Number::from(n)
}

/// Calls `serde_json::Number::from` on a `u64`: the number holds that integer.
#[verifier::external_body]
pub(crate) fn number_from_u64(n: u64) -> (r: serde_json::Number)
    ensures
        number_view(r) == NumV::Int(n as int),
{
    serde_json::Number::from(n)
}

/// Tells the variants of `serde_json::Value` apart and hands out what the value holds; the members
/// of an object come from `serde_json::Map::into_iter`, each key once.
#[verifier::external_body]
fn take_apart(value: serde_json::Value) -> (r: ValueParts)
    ensures
        r@ == value_view(value),
        r matches ValueParts::Object(pairs) ==> distinct_pairs(pairs@),
{
    match value {
        serde_json::Value::Null => ValueParts::Null,
        serde_json::Value::Bool(b) => ValueParts::Bool(b),
        serde_json::Value::Number(n) => ValueParts::Number(n),
        serde_json::Value::String(s) => ValueParts::Str(s),
        serde_json::Value::Array(items) => ValueParts::Array(items),
        serde_json::Value::Object(map) => ValueParts::Object(map.into_iter().collect()),
    }
}

/// Makes the `serde_json::Value` that holds the given parts; an object is collected with
/// `serde_json::Map::from_iter` from members whose keys differ.
#[verifier::external_body]
fn assemble(parts: ValueParts) -> (r: serde_json::Value)
    requires
        parts matches ValueParts::Object(pairs) ==> distinct_pairs(pairs@),
    ensures
        value_view(r) == parts@,
{
    match parts {
        ValueParts::Null => serde_json::Value::Null,
        ValueParts::Bool(b) => serde_json::Value::Bool(b),
        ValueParts::Number(n) => serde_json::Value::Number(n),
        ValueParts::Str(s) => serde_json::Value::String(s),
        ValueParts::Array(items) => serde_json::Value::Array(items),
        ValueParts::Object(pairs) => serde_json::Value::Object(pairs.into_iter().collect()),
    }
}

/// Calls `serde_json::from_slice` for a `serde_json::Value`: what it reads depends on the bytes
/// alone and has the name `json_read`.
#[verifier::external_body]
fn read_value(bytes: &[u8]) -> (r: Result<serde_json::Value, serde_json::Error>)
    ensures
        r matches Ok(value) ==> json_read(bytes@) == Some(value_view(value)),
        r is Err ==> json_read(bytes@) is None,
{
    serde_json::from_slice(bytes)
}

/// Calls `serde_json::to_string` on a `serde_json::Value`: what it writes depends on the value alone
/// and has the name `json_text`. Writing a `Value` into memory never fails: its keys are strings and
/// its numbers are finite. `serde_json::from_slice` reads the value back from the text, as long as
/// no number is in floating point and the nesting stays within its limit.
#[verifier::external_body]
fn write_value(value: &serde_json::Value) -> (r: Result<String, serde_json::Error>)
    ensures
        r is Ok,
        r matches Ok(text) ==> text@ == json_text(value_view(*value)),
        r matches Ok(text) ==> plain_within(value_view(*value), 127) ==> json_read(
            encode_utf8(text@),
        ) == Some(value_view(*value)),
{
    serde_json::to_string(value)
}

proof fn lemma_outside_item(items: Seq<serde_json::Value>, i: int)
    requires
        0 <= i < items.len(),
    ensures
        decreases_to!(JsonV::Array(outside_values_view(items)) => value_view(items[i])),
{
    let seq = outside_values_view(items);
    assert(value_view(items[i]) == seq[i]);
    assert(decreases_to!(seq => seq[i]));
    assert(decreases_to!(JsonV::Array(seq) => JsonV::Array(seq)->Array_0));
}

proof fn lemma_pair_present(pairs: Seq<(String, serde_json::Value)>, i: int)
    requires
        0 <= i < pairs.len(),
        distinct_pairs(pairs),
    ensures
        field(pairs_view(pairs), pairs[i].0@) == Some(value_view(pairs[i].1)),
    decreases pairs.len(),
{
    if i < pairs.len() - 1 {
        assert forall|a: int, b: int| 0 <= a < b < pairs.drop_last().len() implies (
        #[trigger] pairs.drop_last()[a]).0@ != (#[trigger] pairs.drop_last()[b]).0@ by {
            assert(pairs[a].0@ != pairs[b].0@);
        }
        lemma_pair_present(pairs.drop_last(), i);
        assert(pairs[i].0@ != pairs.last().0@);
    }
}

proof fn lemma_pairs_finite(pairs: Seq<(String, serde_json::Value)>)
    ensures
        pairs_view(pairs).dom().finite(),
    decreases pairs.len(),
{
    if pairs.len() > 0 {
        lemma_pairs_finite(pairs.drop_last());
    }
}

proof fn lemma_outside_member(pairs: Seq<(String, serde_json::Value)>, i: int)
    requires
        0 <= i < pairs.len(),
        distinct_pairs(pairs),
    ensures
        decreases_to!(JsonV::Object(pairs_view(pairs)) => value_view(pairs[i].1)),
{
    lemma_pair_present(pairs, i);
    lemma_pairs_finite(pairs);
    let fields = pairs_view(pairs);
    assert(fields.contains_key(pairs[i].0@));
    assert(decreases_to!(fields => fields[pairs[i].0@]));
    assert(decreases_to!(JsonV::Object(fields) => JsonV::Object(fields)->Object_0));
}

/// The library's form of a value of `serde_json`.
pub fn json_from_value(value: serde_json::Value) -> (r: Json)
    ensures
        r@ == value_view(value),
    decreases value_view(value),
{
    let ghost whole = value_view(value);
    match take_apart(value) {
        ValueParts::Null => Json::Null,
        ValueParts::Bool(b) => Json::Bool(b),
        ValueParts::Number(n) => Json::Number(n),
        ValueParts::Str(s) => Json::Str(s),
        ValueParts::Array(items) => {
            let ghost all = items@;
            let mut out: Vec<Json> = Vec::new();
            for item in it: items
                invariant
                    whole == JsonV::Array(outside_values_view(all)),
                    whole == value_view(value),
                    it.seq() == all,
                    out@.len() == it.index(),
                    forall|k: int|
                        0 <= k < out@.len() ==> (#[trigger] out@[k])@ == value_view(all[k]),
            {
                proof {
                    lemma_outside_item(all, it.index());
                }
                out.push(json_from_value(item));
            }
            assert(values_view(out@) =~= outside_values_view(all));
            Json::Array(out)
        },
        ValueParts::Object(pairs) => {
            let ghost all = pairs@;
            let mut out = JsonMap::new();
            for pair in it: pairs
                invariant
                    whole == JsonV::Object(pairs_view(all)),
                    whole == value_view(value),
                    distinct_pairs(all),
                    it.seq() == all,
                    out@ == pairs_view(all.take(it.index())),
            {
                proof {
                    lemma_outside_member(all, it.index());
                    assert(all.take(it.index() + 1).drop_last() =~= all.take(it.index()));
                }
                let (key, member) = pair;
                out.insert(key.as_str(), json_from_value(member));
            }
            assert(all.take(all.len() as int) =~= all);
            Json::Object(out)
        },
    }
}

/// The value of `serde_json` with the same contents.
pub fn value_from_json(json: &Json) -> (r: serde_json::Value)
    ensures
        value_view(r) == json@,
    decreases json,
{
    match json {
        Json::Null => assemble(ValueParts::Null),
        Json::Bool(b) => assemble(ValueParts::Bool(*b)),
        Json::Number(n) => assemble(ValueParts::Number(number_copy(n))),
        Json::Str(s) => assemble(ValueParts::Str(s.clone())),
        Json::Array(items) => {
            let mut out: Vec<serde_json::Value> = Vec::new();
            let mut i: usize = 0;
            while i < items.len()
                invariant
                    json == Json::Array(*items),
                    i <= items@.len(),
                    out@.len() == i,
                    forall|k: int|
                        0 <= k < i ==> value_view(#[trigger] out@[k]) == items@[k]@,
                decreases items@.len() - i,
            {
                assert(decreases_to!(json => json->Array_0));
                assert(decreases_to!(*items => items[i as int]));
                out.push(value_from_json(&items[i]));
                i += 1;
            }
            assert(outside_values_view(out@) =~= values_view(items@));
            assemble(ValueParts::Array(out))
        },
        Json::Object(map) => {
            let entries = map.entries();
            let mut out: Vec<(String, serde_json::Value)> = Vec::new();
            let mut i: usize = 0;
            while i < entries.len()
                invariant
                    json == Json::Object(*map),
                    decreases_to!(map => entries),
                    distinct_keys(entries@),
                    i <= entries@.len(),
                    out@.len() == i,
                    forall|k: int|
                        0 <= k < i ==> (#[trigger] out@[k]).0@ == entries@[k].key@,
                    pairs_view(out@) == entries_view(entries@.take(i as int)),
                decreases entries@.len() - i,
            {
                let entry = &entries[i];
                assert(decreases_to!(json => json->Object_0));
                assert(decreases_to!(*entries => entries[i as int]));
                assert(decreases_to!(entry => entry.value));
                let ghost before = out@;
                out.push((entry.key.clone(), value_from_json(&entry.value)));
                assert(out@.drop_last() =~= before);
                assert(entries@.take(i + 1).drop_last() =~= entries@.take(i as int));
                i += 1;
            }
            assert(entries@.take(entries@.len() as int) =~= entries@);
            assert(distinct_pairs(out@)) by {
                assert forall|a: int, b: int| 0 <= a < b < out@.len() implies (
                #[trigger] out@[a]).0@ != (#[trigger] out@[b]).0@ by {
                    assert(entries@[a].key@ != entries@[b].key@);
                }
            }
            assemble(ValueParts::Object(out))
        },
    }
}

/// Reads JSON text; nothing comes of bytes that hold none.
pub fn read_json(bytes: &[u8]) -> (r: Option<Json>)
    ensures
        opt_owned(r) == json_read(bytes@),
{
    match read_value(bytes) {
        Ok(value) => Some(json_from_value(value)),
        Err(_) => None,
    }
}

/// Writes a value as JSON text.
pub fn write_json(json: &Json) -> (r: String)
    ensures
        r@ == json_text(json@),
        plain_within(json@, 127) ==> json_read(encode_utf8(r@)) == Some(json@),
{
    match write_value(&value_from_json(json)) {
        Ok(text) => text,
        Err(_) => String::new(),
    }
}

/// `bytes` are the JSON text of a value, and the value is what a reader finds in them, as long as it
/// holds no number in floating point and is not too deep for `serde_json` to read.
pub open spec fn holds_json(bytes: Seq<u8>, value: JsonV) -> bool {
    &&& bytes == encode_utf8(json_text(value))
    &&& plain_within(value, 127) ==> json_read(bytes) == Some(value)
}

/// Writes a value as the bytes of its JSON text.
pub fn write_json_bytes(json: &Json) -> (r: Vec<u8>)
    ensures
        holds_json(r@, json@),
{
    write_json(json).as_str().as_bytes_vec()
}

} // verus!
