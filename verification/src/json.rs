//! JSON values: what they are, and a representation of them with verified access.

use vstd::prelude::*;

use crate::codec::{
    number_as_i64, number_as_u64, number_copy, number_from_i64, number_from_u64, number_view,
};
use crate::sequence::Outcome;
use crate::text::{concat_text, nonblank, nonblank_of, opt_str, str_eq};

verus! {

/// A JSON number: an integer of at most 64 bits, or a number in floating point.
pub enum NumV {
    Int(int),
    Float(serde_json::Number),
}

/// A JSON value.
#[verifier::ext_equal]
pub enum JsonV {
    Null,
    Bool(bool),
    Number(NumV),
    Str(Seq<char>),
    Array(Seq<JsonV>),
    Object(Map<Seq<char>, JsonV>),
}

/// The members of a JSON object.
pub type Fields = Map<Seq<char>, JsonV>;

impl JsonV {
    pub open spec fn as_str(self) -> Option<Seq<char>> {
        match self {
            JsonV::Str(text) => Some(text),
            _ => None,
        }
    }

    pub open spec fn as_array(self) -> Option<Seq<JsonV>> {
        match self {
            JsonV::Array(items) => Some(items),
            _ => None,
        }
    }

    pub open spec fn as_object(self) -> Option<Fields> {
        match self {
            JsonV::Object(fields) => Some(fields),
            _ => None,
        }
    }

    pub open spec fn as_bool(self) -> Option<bool> {
        match self {
            JsonV::Bool(b) => Some(b),
            _ => None,
        }
    }

    pub open spec fn as_i64(self) -> Option<i64> {
        match self {
            JsonV::Number(NumV::Int(n)) => if i64::MIN <= n <= i64::MAX {
                Some(n as i64)
            } else {
                None
            },
            _ => None,
        }
    }

    pub open spec fn as_u64(self) -> Option<u64> {
        match self {
            JsonV::Number(NumV::Int(n)) => if 0 <= n <= u64::MAX {
                Some(n as u64)
            } else {
                None
            },
            _ => None,
        }
    }

    /// The member `key` of an object; no other value has members.
    pub open spec fn get(self, key: Seq<char>) -> Option<JsonV> {
        match self {
            JsonV::Object(fields) => field(fields, key),
            _ => None,
        }
    }

    pub open spec fn get_str(self, key: Seq<char>) -> Option<Seq<char>> {
        match self.get(key) {
            Some(value) => value.as_str(),
            None => None,
        }
    }

    pub open spec fn get_array(self, key: Seq<char>) -> Option<Seq<JsonV>> {
        match self.get(key) {
            Some(value) => value.as_array(),
            None => None,
        }
    }

    pub open spec fn get_object(self, key: Seq<char>) -> Option<Fields> {
        match self.get(key) {
            Some(value) => value.as_object(),
            None => None,
        }
    }
}

/// The member `key`.
pub open spec fn field(fields: Fields, key: Seq<char>) -> Option<JsonV> {
    if fields.contains_key(key) {
        Some(fields[key])
    } else {
        None
    }
}

/// The text of member `key`, if it is a string.
pub open spec fn field_str(fields: Fields, key: Seq<char>) -> Option<Seq<char>> {
    match field(fields, key) {
        Some(value) => value.as_str(),
        None => None,
    }
}

/// The trimmed text of member `key`, if it is a string that is not blank.
pub open spec fn field_nonblank(fields: Fields, key: Seq<char>) -> Option<Seq<char>> {
    nonblank(field_str(fields, key))
}

/// The items of member `key`, if it is an array.
pub open spec fn field_array(fields: Fields, key: Seq<char>) -> Option<Seq<JsonV>> {
    match field(fields, key) {
        Some(value) => value.as_array(),
        None => None,
    }
}

/// The members of member `key`, if it is an object.
pub open spec fn field_object(fields: Fields, key: Seq<char>) -> Option<Fields> {
    match field(fields, key) {
        Some(value) => value.as_object(),
        None => None,
    }
}

/// The truth value of member `key`, if it is one.
pub open spec fn field_bool(fields: Fields, key: Seq<char>) -> Option<bool> {
    match field(fields, key) {
        Some(value) => value.as_bool(),
        None => None,
    }
}

/// Member `key`, or where there is none member `other`.
pub open spec fn field_or(fields: Fields, key: Seq<char>, other: Seq<char>) -> Option<JsonV> {
    match field(fields, key) {
        Some(value) => Some(value),
        None => field(fields, other),
    }
}

/// The text of an optional value, if it is a string.
pub open spec fn str_of(value: Option<JsonV>) -> Option<Seq<char>> {
    match value {
        Some(v) => v.as_str(),
        None => None,
    }
}

/// The integer of an optional value, if it is one of 64 bits with sign.
pub open spec fn i64_of(value: Option<JsonV>) -> Option<i64> {
    match value {
        Some(v) => v.as_i64(),
        None => None,
    }
}

/// `found`, or `default` where there is none.
pub open spec fn or_else<T>(found: Option<T>, default: T) -> T {
    match found {
        Some(value) => value,
        None => default,
    }
}

/// The members with `key` set, where there is a value for it.
pub open spec fn put(fields: Fields, key: Seq<char>, value: Option<JsonV>) -> Fields {
    match value {
        Some(v) => fields.insert(key, v),
        None => fields,
    }
}

/// A JSON string.
pub open spec fn js(text: Seq<char>) -> JsonV {
    JsonV::Str(text)
}

/// A JSON integer.
pub open spec fn jint(n: int) -> JsonV {
    JsonV::Number(NumV::Int(n))
}

/// The object without members.
pub open spec fn no_fields() -> Fields {
    Map::empty()
}

/// A JSON value in memory.
pub enum Json {
    Null,
    Bool(bool),
    Number(serde_json::Number),
    Str(String),
    Array(Vec<Json>),
    Object(JsonMap),
}

/// One member of an object.
pub struct JsonEntry {
    pub key: String,
    pub value: Json,
}

/// The members of a JSON object, in the order in which their keys came; no key comes twice.
pub struct JsonMap {
    entries: Vec<JsonEntry>,
}

/// No key comes twice.
pub open spec fn distinct_keys(entries: Seq<JsonEntry>) -> bool {
    forall|i: int, j: int|
        0 <= i < j < entries.len() ==> (#[trigger] entries[i]).key@ != (#[trigger] entries[j]).key@
}

/// What each value of a sequence stands for.
pub open spec fn values_view(items: Seq<Json>) -> Seq<JsonV>
    decreases items,
{
    Seq::new(
        items.len(),
        |i: int|
            if 0 <= i < items.len() {
                items[i].view()
            } else {
                JsonV::Null
            },
    )
}

/// What a sequence of members stands for: of equal keys the last one counts.
pub open spec fn entries_view(entries: Seq<JsonEntry>) -> Fields
    decreases entries,
{
    if entries.len() == 0 {
        Map::empty()
    } else {
        entries_view(entries.drop_last()).insert(
            entries.last().key@,
            entries.last().value.view(),
        )
    }
}

impl Json {
    pub open spec fn view(&self) -> JsonV
        decreases self,
    {
        match self {
            Json::Null => JsonV::Null,
            Json::Bool(b) => JsonV::Bool(*b),
            Json::Number(n) => JsonV::Number(number_view(*n)),
            Json::Str(s) => JsonV::Str(s@),
            Json::Array(items) => JsonV::Array(values_view(items@)),
            Json::Object(map) => JsonV::Object(map.view()),
        }
    }
}

impl JsonMap {
    pub closed spec fn view(&self) -> Fields
        decreases self,
    {
        entries_view(self.entries@)
    }

    #[verifier::type_invariant]
    spec fn no_key_twice(self) -> bool {
        distinct_keys(self.entries@)
    }
}

/// What an optional value stands for.
pub open spec fn opt_view(value: Option<&Json>) -> Option<JsonV> {
    match value {
        Some(v) => Some(v@),
        None => None,
    }
}

/// What an optional value stands for.
pub open spec fn opt_owned(value: Option<Json>) -> Option<JsonV> {
    match value {
        Some(v) => Some(v@),
        None => None,
    }
}

/// What a value that may fail to come stands for.
pub open spec fn json_outcome(r: Result<Json, String>) -> Outcome<JsonV> {
    match r {
        Ok(value) => Ok(value@),
        Err(e) => Err(e@),
    }
}

/// What values that may fail to come stand for.
pub open spec fn items_outcome(r: Result<Vec<Json>, String>) -> Outcome<Seq<JsonV>> {
    match r {
        Ok(items) => Ok(values_view(items@)),
        Err(e) => Err(e@),
    }
}

/// What a text that may fail to come holds.
pub open spec fn text_outcome(r: Result<String, String>) -> Outcome<Seq<char>> {
    match r {
        Ok(text) => Ok(text@),
        Err(e) => Err(e@),
    }
}

/// What a piece of code has appended to `before`, or the failure that left it as it was.
pub open spec fn appended(
    before: Seq<Json>,
    after: Seq<Json>,
    r: Result<(), String>,
    outcome: Outcome<Seq<JsonV>>,
) -> bool {
    match outcome {
        Ok(items) => r is Ok && values_view(after) == values_view(before) + items,
        Err(e) => r matches Err(message) && message@ == e && values_view(after) == values_view(
            before,
        ),
    }
}

/// What a piece of code has appended to `before`; on a failure what it had come to, which is `made`,
/// stays.
pub open spec fn appended_so_far(
    before: Seq<Json>,
    after: Seq<Json>,
    r: Result<(), String>,
    outcome: Outcome<Seq<JsonV>>,
    made: Seq<JsonV>,
) -> bool {
    match outcome {
        Ok(items) => r is Ok && values_view(after) == values_view(before) + items,
        Err(e) => r matches Err(message) && message@ == e && values_view(after) == values_view(
            before,
        ) + made,
    }
}

/// What an optional array stands for.
pub open spec fn opt_items(value: Option<&Vec<Json>>) -> Option<Seq<JsonV>> {
    match value {
        Some(items) => Some(values_view(items@)),
        None => None,
    }
}

/// What an optional object stands for.
pub open spec fn opt_fields(value: Option<&JsonMap>) -> Option<Fields> {
    match value {
        Some(map) => Some(map@),
        None => None,
    }
}

/// One more value at the end.
pub broadcast proof fn lemma_values_view_push(items: Seq<Json>, value: Json)
    ensures
        #[trigger] values_view(items.push(value)) == values_view(items).push(value@),
{
    assert(values_view(items.push(value)) =~= values_view(items).push(value@));
}

/// No value.
pub broadcast proof fn lemma_values_view_empty()
    ensures
        #[trigger] values_view(Seq::<Json>::empty()) == Seq::<JsonV>::empty(),
{
    assert(values_view(Seq::<Json>::empty()) =~= Seq::<JsonV>::empty());
}

/// How the values of a growing sequence come out.
pub broadcast group group_values_view {
    lemma_values_view_push,
    lemma_values_view_empty,
}

proof fn lemma_entry_replaced(entries: Seq<JsonEntry>, at: int, entry: JsonEntry)
    requires
        0 <= at < entries.len(),
        entries[at].key@ == entry.key@,
        forall|k: int| at < k < entries.len() ==> entries[k].key@ != entry.key@,
    ensures
        entries_view(entries.update(at, entry)) == entries_view(entries).insert(
            entry.key@,
            entry.value@,
        ),
    decreases entries.len(),
{
    let changed = entries.update(at, entry);
    if at == entries.len() - 1 {
        assert(changed.drop_last() =~= entries.drop_last());
    } else {
        assert(changed.drop_last() =~= entries.drop_last().update(at, entry));
        lemma_entry_replaced(entries.drop_last(), at, entry);
        assert(entries.last().key@ != entry.key@);
    }
    assert(entries_view(changed) =~= entries_view(entries).insert(entry.key@, entry.value@));
}

proof fn lemma_entry_found(entries: Seq<JsonEntry>, at: int)
    requires
        0 <= at < entries.len(),
        forall|k: int| at < k < entries.len() ==> entries[k].key@ != entries[at].key@,
    ensures
        field(entries_view(entries), entries[at].key@) == Some(entries[at].value@),
    decreases entries.len(),
{
    if at < entries.len() - 1 {
        lemma_entry_found(entries.drop_last(), at);
    }
}

proof fn lemma_entry_absent(entries: Seq<JsonEntry>, key: Seq<char>)
    requires
        forall|k: int| 0 <= k < entries.len() ==> entries[k].key@ != key,
    ensures
        field(entries_view(entries), key) is None,
    decreases entries.len(),
{
    if entries.len() > 0 {
        lemma_entry_absent(entries.drop_last(), key);
    }
}

impl JsonMap {
    /// An object without members.
    pub fn new() -> (r: JsonMap)
        ensures
            r@ == no_fields(),
    {
        JsonMap { entries: Vec::new() }
    }

    /// The place of `key`, or the number of members.
    fn position(&self, key: &str) -> (r: usize)
        ensures
            r <= self.entries@.len(),
            r < self.entries@.len() ==> {
                &&& self.entries@[r as int].key@ == key@
                &&& forall|k: int|
                    r < k < self.entries@.len() ==> self.entries@[k].key@ != key@
            },
            r == self.entries@.len() ==> forall|k: int|
                0 <= k < self.entries@.len() ==> self.entries@[k].key@ != key@,
    {
        let mut i: usize = self.entries.len();
        while i > 0
            invariant
                i <= self.entries@.len(),
                forall|k: int| i <= k < self.entries@.len() ==> self.entries@[k].key@ != key@,
            decreases i,
        {
            i -= 1;
            if str_eq(self.entries[i].key.as_str(), key) {
                return i;
            }
        }
        self.entries.len()
    }

    /// The member `key`.
    pub fn get(&self, key: &str) -> (r: Option<&Json>)
        ensures
            opt_view(r) == field(self@, key@),
    {
        let at: usize = self.position(key);
        if at < self.entries.len() {
            proof {
                lemma_entry_found(self.entries@, at as int);
            }
            Some(&self.entries[at].value)
        } else {
            proof {
                lemma_entry_absent(self.entries@, key@);
            }
            None
        }
    }

    /// Whether there is a member `key`.
    pub fn contains_key(&self, key: &str) -> (r: bool)
        ensures
            r == self@.contains_key(key@),
    {
        self.get(key).is_some()
    }

    /// Sets member `key`.
    pub fn insert(&mut self, key: &str, value: Json)
        ensures
            final(self)@ == old(self)@.insert(key@, value@),
    {
        proof {
            use_type_invariant(&*self);
        }
        let at: usize = self.position(key);
        let entry = JsonEntry { key: key.to_owned(), value };
        let mut entries: Vec<JsonEntry> = Vec::new();
        std::mem::swap(&mut entries, &mut self.entries);
        if at < entries.len() {
            proof {
                lemma_entry_replaced(entries@, at as int, entry);
            }
            entries.set(at, entry);
        } else {
            let ghost before = entries@;
            entries.push(entry);
            assert(entries@.drop_last() =~= before);
        }
        self.entries = entries;
    }

    /// Sets member `key`, where there is a value for it.
    pub fn put(&mut self, key: &str, value: Option<Json>)
        ensures
            final(self)@ == put(old(self)@, key@, opt_owned(value)),
    {
        if let Some(value) = value {
            self.insert(key, value);
        }
    }

    /// The members.
    pub fn entries(&self) -> (r: &Vec<JsonEntry>)
        ensures
            distinct_keys(r@),
            entries_view(r@) == self@,
            decreases_to!(self => r),
    {
        proof {
            use_type_invariant(self);
        }
        &self.entries
    }

    /// The object with member `key` set.
    pub fn with(self, key: &str, value: Json) -> (r: JsonMap)
        ensures
            r@ == self@.insert(key@, value@),
    {
        let mut out = self;
        out.insert(key, value);
        out
    }

    /// The text of member `key`, if it is a string.
    pub fn get_str(&self, key: &str) -> (r: Option<&str>)
        ensures
            opt_str(r) == field_str(self@, key@),
    {
        match self.get(key) {
            Some(value) => value.as_str(),
            None => None,
        }
    }

    /// The trimmed text of member `key`, if it is a string that is not blank.
    pub fn get_nonblank(&self, key: &str) -> (r: Option<&str>)
        ensures
            opt_str(r) == field_nonblank(self@, key@),
    {
        nonblank_of(self.get_str(key))
    }

    /// The items of member `key`, if it is an array.
    pub fn get_array(&self, key: &str) -> (r: Option<&Vec<Json>>)
        ensures
            opt_items(r) == field_array(self@, key@),
    {
        match self.get(key) {
            Some(value) => value.as_array(),
            None => None,
        }
    }

    /// The members of member `key`, if it is an object.
    pub fn get_object(&self, key: &str) -> (r: Option<&JsonMap>)
        ensures
            opt_fields(r) == field_object(self@, key@),
    {
        match self.get(key) {
            Some(value) => value.as_object(),
            None => None,
        }
    }

    /// The truth value of member `key`, if it is one.
    pub fn get_bool(&self, key: &str) -> (r: Option<bool>)
        ensures
            r == field_bool(self@, key@),
    {
        match self.get(key) {
            Some(value) => value.as_bool(),
            None => None,
        }
    }

    /// Member `key`, or where there is none member `other`.
    pub fn get_or(&self, key: &str, other: &str) -> (r: Option<&Json>)
        ensures
            opt_view(r) == field_or(self@, key@, other@),
    {
        match self.get(key) {
            Some(value) => Some(value),
            None => self.get(other),
        }
    }
}

impl Json {
    /// The text of a string.
    pub fn as_str(&self) -> (r: Option<&str>)
        ensures
            opt_str(r) == self@.as_str(),
    {
        match self {
            Json::Str(s) => Some(s.as_str()),
            _ => None,
        }
    }

    /// The items of an array.
    pub fn as_array(&self) -> (r: Option<&Vec<Json>>)
        ensures
            opt_items(r) == self@.as_array(),
    {
        match self {
            Json::Array(items) => Some(items),
            _ => None,
        }
    }

    /// The members of an object.
    pub fn as_object(&self) -> (r: Option<&JsonMap>)
        ensures
            opt_fields(r) == self@.as_object(),
    {
        match self {
            Json::Object(map) => Some(map),
            _ => None,
        }
    }

    /// The truth value.
    pub fn as_bool(&self) -> (r: Option<bool>)
        ensures
            r == self@.as_bool(),
    {
        match self {
            Json::Bool(b) => Some(*b),
            _ => None,
        }
    }

    /// The integer, if it has 64 bits with sign.
    pub fn as_i64(&self) -> (r: Option<i64>)
        ensures
            r == self@.as_i64(),
    {
        match self {
            Json::Number(n) => number_as_i64(n),
            _ => None,
        }
    }

    /// The integer, if it has 64 bits without sign.
    pub fn as_u64(&self) -> (r: Option<u64>)
        ensures
            r == self@.as_u64(),
    {
        match self {
            Json::Number(n) => number_as_u64(n),
            _ => None,
        }
    }

    /// Whether this is `null`.
    pub fn is_null(&self) -> (r: bool)
        ensures
            r == (self@ is Null),
    {
        match self {
            Json::Null => true,
            _ => false,
        }
    }

    /// The member `key` of an object.
    pub fn get(&self, key: &str) -> (r: Option<&Json>)
        ensures
            opt_view(r) == self@.get(key@),
    {
        match self {
            Json::Object(map) => map.get(key),
            _ => None,
        }
    }

    /// The text of member `key`, if it is a string.
    pub fn get_str(&self, key: &str) -> (r: Option<&str>)
        ensures
            opt_str(r) == self@.get_str(key@),
    {
        match self.get(key) {
            Some(value) => value.as_str(),
            None => None,
        }
    }

    /// An integer.
    pub fn integer(n: i64) -> (r: Json)
        ensures
            r@ == jint(n as int),
    {
        Json::Number(number_from_i64(n))
    }

    /// An integer that is not negative.
    pub fn unsigned(n: u64) -> (r: Json)
        ensures
            r@ == jint(n as int),
    {
        Json::Number(number_from_u64(n))
    }

    /// A string.
    pub fn text(s: &str) -> (r: Json)
        ensures
            r@ == js(s@),
    {
        Json::Str(s.to_owned())
    }
}

impl Clone for Json {
    fn clone(&self) -> (r: Json)
        ensures
            r@ == self@,
        decreases self,
    {
        match self {
            Json::Null => Json::Null,
            Json::Bool(b) => Json::Bool(*b),
            Json::Number(n) => Json::Number(number_copy(n)),
            Json::Str(s) => Json::Str(s.clone()),
            Json::Array(items) => Json::Array(clone_items(items)),
            Json::Object(map) => Json::Object(map.clone()),
        }
    }
}

/// A sequence of one value.
pub fn one(value: Json) -> (r: Vec<Json>)
    ensures
        values_view(r@) == seq![value@],
{
    let mut out: Vec<Json> = Vec::new();
    out.push(value);
    assert(values_view(out@) =~= seq![value@]);
    out
}

/// Appends `more` to `items`.
pub fn extend(items: &mut Vec<Json>, more: Vec<Json>)
    ensures
        values_view(final(items)@) == values_view(old(items)@) + values_view(more@),
{
    let mut rest = more;
    items.append(&mut rest);
    assert(values_view(items@) =~= values_view(old(items)@) + values_view(more@));
}

/// A failure with the given message.
pub fn fail<T>(message: &str) -> (r: Result<T, String>)
    ensures
        r matches Err(e) && e@ == message@,
{
    Err(message.to_owned())
}

/// A failure with the given message, and what it is about.
pub fn fail_about<T>(message: &str, subject: &str) -> (r: Result<T, String>)
    ensures
        r matches Err(e) && e@ == message@ + subject@,
{
    Err(concat_text(message, subject))
}

/// A copy of each value.
pub fn clone_items(items: &Vec<Json>) -> (r: Vec<Json>)
    ensures
        values_view(r@) == values_view(items@),
    decreases items,
{
    let mut out: Vec<Json> = Vec::new();
    let mut i: usize = 0;
    while i < items.len()
        invariant
            i <= items@.len(),
            out@.len() == i,
            forall|k: int| 0 <= k < i ==> (#[trigger] out@[k])@ == items@[k]@,
        decreases items@.len() - i,
    {
        out.push(items[i].clone());
        i += 1;
    }
    assert(values_view(out@) =~= values_view(items@));
    out
}

impl Clone for JsonMap {
    fn clone(&self) -> (r: JsonMap)
        ensures
            r@ == self@,
        decreases self,
    {
        proof {
            use_type_invariant(self);
        }
        let mut entries: Vec<JsonEntry> = Vec::new();
        let mut i: usize = 0;
        while i < self.entries.len()
            invariant
                distinct_keys(self.entries@),
                i <= self.entries@.len(),
                entries@.len() == i,
                forall|k: int|
                    0 <= k < i ==> (#[trigger] entries@[k]).key@ == self.entries@[k].key@,
                entries_view(entries@) == entries_view(self.entries@.take(i as int)),
            decreases self.entries@.len() - i,
        {
            let entry = JsonEntry {
                key: self.entries[i].key.clone(),
                value: self.entries[i].value.clone(),
            };
            let ghost before = entries@;
            entries.push(entry);
            assert(entries@.drop_last() =~= before);
            assert(self.entries@.take(i + 1).drop_last() =~= self.entries@.take(i as int));
            i += 1;
        }
        assert(self.entries@.take(self.entries@.len() as int) =~= self.entries@);
        JsonMap { entries }
    }
}

} // verus!
