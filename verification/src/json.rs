//! A JSON document model: what the bot reads from and writes to the OneBot
//! connection and the plugin bus.
use vstd::prelude::*;
use crate::text::{chars_eq_str, parse_u64, parse_u64_spec, str_eq};

verus! {

/// A JSON number as the wire carries it: a non-negative integer, a negative
/// integer, or any other number kept as its decimal text.
pub enum JsonNumber {
    PosInt(u64),
    NegInt(i64),
    Float(String),
}

/// A JSON value. An object keeps its members in order, each key once.
pub enum JsonValue {
    Null,
    Bool(bool),
    Number(JsonNumber),
    Str(String),
    Array(Vec<JsonValue>),
    Object(Vec<(String, JsonValue)>),
}

/// The position of the first member of `entries` named `key`.
pub open spec fn member_index(entries: Seq<(String, JsonValue)>, key: Seq<char>) -> Option<int>
    decreases entries.len(),
{
    if entries.len() == 0 {
        None
    } else if entries[0].0@ == key {
        Some(0)
    } else {
        match member_index(entries.drop_first(), key) {
            Some(i) => Some(i + 1),
            None => None,
        }
    }
}

/// The first member named `key` is at `i`.
pub proof fn lemma_member_index_found(entries: Seq<(String, JsonValue)>, key: Seq<char>, i: int)
    requires
        0 <= i < entries.len(),
        entries[i].0@ == key,
        forall|j: int| 0 <= j < i ==> (#[trigger] entries[j]).0@ != key,
    ensures
        member_index(entries, key) == Some(i),
    decreases i,
{
    if i > 0 {
        let rest = entries.drop_first();
        assert forall|j: int| 0 <= j < i - 1 implies (#[trigger] rest[j]).0@ != key by {
            assert(rest[j] == entries[j + 1]);
        }
        lemma_member_index_found(rest, key, i - 1);
    }
}

/// No member is named `key`.
pub proof fn lemma_member_index_absent(entries: Seq<(String, JsonValue)>, key: Seq<char>)
    requires
        forall|j: int| 0 <= j < entries.len() ==> (#[trigger] entries[j]).0@ != key,
    ensures
        member_index(entries, key) is None,
    decreases entries.len(),
{
    if entries.len() > 0 {
        let rest = entries.drop_first();
        assert forall|j: int| 0 <= j < rest.len() implies (#[trigger] rest[j]).0@ != key by {
            assert(rest[j] == entries[j + 1]);
        }
        lemma_member_index_absent(rest, key);
    }
}

/// `value.get(key)`: the member named `key` of an object, if there is one.
pub open spec fn json_get(v: JsonValue, key: Seq<char>) -> Option<JsonValue> {
    match v {
        JsonValue::Object(entries) => match member_index(entries@, key) {
            Some(i) => Some(entries@[i].1),
            None => None,
        },
        _ => None,
    }
}

/// `as_u64`: a non-negative integer.
pub open spec fn json_as_u64(v: JsonValue) -> Option<u64> {
    match v {
        JsonValue::Number(JsonNumber::PosInt(n)) => Some(n),
        _ => None,
    }
}

/// `as_str`: the text of a string.
pub open spec fn json_as_str(v: JsonValue) -> Option<Seq<char>> {
    match v {
        JsonValue::Str(s) => Some(s@),
        _ => None,
    }
}

/// `as_bool`: a boolean.
pub open spec fn json_as_bool(v: JsonValue) -> Option<bool> {
    match v {
        JsonValue::Bool(b) => Some(b),
        _ => None,
    }
}

/// The member `key`, read as a non-negative integer.
pub open spec fn member_u64(v: JsonValue, key: Seq<char>) -> Option<u64> {
    match json_get(v, key) {
        Some(x) => json_as_u64(x),
        None => None,
    }
}

/// The member `key`, read as a string.
pub open spec fn member_str(v: JsonValue, key: Seq<char>) -> Option<Seq<char>> {
    match json_get(v, key) {
        Some(x) => json_as_str(x),
        None => None,
    }
}

/// The member `key` as a non-negative integer, or a string holding one.
pub open spec fn member_u64_or_text(v: JsonValue, key: Seq<char>) -> Option<u64> {
    match json_get(v, key) {
        Some(x) => match json_as_u64(x) {
            Some(n) => Some(n),
            None => match json_as_str(x) {
                Some(s) => parse_u64_spec(s),
                None => None,
            },
        },
        None => None,
    }
}

impl JsonValue {
    /// `get(key)`: the member named `key` of an object.
    pub fn get(&self, key: &str) -> (r: Option<&JsonValue>)
        ensures
            match r {
                Some(x) => json_get(*self, key@) == Some(*x),
                None => json_get(*self, key@) is None,
            },
    {
        match self {
            JsonValue::Object(entries) => {
                let mut i: usize = 0;
                while i < entries.len()
                    invariant
                        i <= entries@.len(),
                        forall|j: int| 0 <= j < i ==> (#[trigger] entries@[j]).0@ != key@,
                        json_get(*self, key@) == match member_index(entries@, key@) {
                            Some(k) => Some(entries@[k].1),
                            None => None,
                        },
                    decreases entries.len() - i,
                {
                    if chars_eq_str(crate::text::chars_of(entries[i].0.as_str()).as_slice(), key) {
                        proof {
                            lemma_member_index_found(entries@, key@, i as int);
                        }
                        return Some(&entries[i].1);
                    }
                    i = i + 1;
                }
                proof {
                    lemma_member_index_absent(entries@, key@);
                }
                None
            },
            _ => None,
        }
    }

    /// `as_u64`.
    pub fn as_u64(&self) -> (r: Option<u64>)
        ensures
            r == json_as_u64(*self),
    {
        match self {
            JsonValue::Number(JsonNumber::PosInt(n)) => Some(*n),
            _ => None,
        }
    }

    /// `as_str`.
    pub fn as_str(&self) -> (r: Option<&str>)
        ensures
            match r {
                Some(s) => json_as_str(*self) == Some(s@),
                None => json_as_str(*self) is None,
            },
    {
        match self {
            JsonValue::Str(s) => Some(s.as_str()),
            _ => None,
        }
    }

    /// `as_bool`.
    pub fn as_bool(&self) -> (r: Option<bool>)
        ensures
            r == json_as_bool(*self),
    {
        match self {
            JsonValue::Bool(b) => Some(*b),
            _ => None,
        }
    }

    /// Whether the value is `null`.
    pub fn is_null(&self) -> (r: bool)
        ensures
            r == (*self is Null),
    {
        match self {
            JsonValue::Null => true,
            _ => false,
        }
    }
}

/// The member `key` as a string, or the empty text when it is absent.
pub open spec fn str_or_empty(v: JsonValue, key: Seq<char>) -> Seq<char> {
    match member_str(v, key) {
        Some(s) => s,
        None => Seq::empty(),
    }
}

/// Whether a member is named `key` and holds the string `val`.
pub open spec fn str_entry(e: (String, JsonValue), key: Seq<char>, val: Seq<char>) -> bool {
    e.0@ == key && (e.1 matches JsonValue::Str(s) && s@ == val)
}

/// Whether `v` is the object of exactly these string members, in order.
pub open spec fn is_str_object(v: JsonValue, members: Seq<(Seq<char>, Seq<char>)>) -> bool {
    v matches JsonValue::Object(entries) && entries@.len() == members.len() && forall|i: int|
        0 <= i < members.len() ==> str_entry(#[trigger] entries@[i], members[i].0, members[i].1)
}

/// A field of a record written as JSON: the member `key` of an object, or
/// the element at `idx` of an array that lists the fields in order.
pub open spec fn struct_field(v: JsonValue, key: Seq<char>, idx: int) -> Option<JsonValue> {
    match v {
        JsonValue::Object(_) => json_get(v, key),
        JsonValue::Array(items) => if 0 <= idx < items@.len() {
            Some(items@[idx])
        } else {
            None
        },
        _ => None,
    }
}

/// A field of a record, read as a non-negative integer.
pub open spec fn field_u64(v: JsonValue, key: Seq<char>, idx: int) -> Option<u64> {
    match struct_field(v, key, idx) {
        Some(x) => json_as_u64(x),
        None => None,
    }
}

/// A field of a record, read as a string.
pub open spec fn field_str(v: JsonValue, key: Seq<char>, idx: int) -> Option<Seq<char>> {
    match struct_field(v, key, idx) {
        Some(x) => json_as_str(x),
        None => None,
    }
}

/// Whether an optional string field of a record is absent or a string.
pub open spec fn opt_field_str_ok(v: JsonValue, key: Seq<char>, idx: int) -> bool {
    match struct_field(v, key, idx) {
        Some(x) => json_as_str(x) is Some,
        None => true,
    }
}

/// An optional string field of a record, or the empty text when absent.
pub open spec fn field_str_or_empty(v: JsonValue, key: Seq<char>, idx: int) -> Seq<char> {
    match field_str(v, key, idx) {
        Some(s) => s,
        None => Seq::empty(),
    }
}

/// Whether `v` has the shape of a record: an object, or an array of
/// `min` to `max` fields.
pub open spec fn struct_shape_ok(v: JsonValue, min: int, max: int) -> bool {
    match v {
        JsonValue::Object(_) => true,
        JsonValue::Array(items) => min <= items@.len() <= max,
        _ => false,
    }
}

/// Whether `v` is an object, or an array of `min` to `max` fields.
pub fn struct_shape(v: &JsonValue, min: usize, max: usize) -> (r: bool)
    ensures
        r == struct_shape_ok(*v, min as int, max as int),
{
    match v {
        JsonValue::Object(_) => true,
        JsonValue::Array(items) => min <= items.len() && items.len() <= max,
        _ => false,
    }
}

/// A field of a record: the member `key` of an object, or the element at
/// `idx` of an array.
pub fn get_field<'a>(v: &'a JsonValue, key: &str, idx: usize) -> (r: Option<&'a JsonValue>)
    ensures
        match r {
            Some(x) => struct_field(*v, key@, idx as int) == Some(*x),
            None => struct_field(*v, key@, idx as int) is None,
        },
{
    match v {
        JsonValue::Object(_) => v.get(key),
        JsonValue::Array(items) => if idx < items.len() {
            Some(&items[idx])
        } else {
            None
        },
        _ => None,
    }
}

/// A field of a record, as a non-negative integer.
pub fn get_field_u64(v: &JsonValue, key: &str, idx: usize) -> (r: Option<u64>)
    ensures
        r == field_u64(*v, key@, idx as int),
{
    match get_field(v, key, idx) {
        Some(x) => x.as_u64(),
        None => None,
    }
}

/// A field of a record, as a string.
pub fn get_field_string(v: &JsonValue, key: &str, idx: usize) -> (r: Option<String>)
    ensures
        match r {
            Some(s) => field_str(*v, key@, idx as int) == Some(s@),
            None => field_str(*v, key@, idx as int) is None,
        },
{
    match get_field(v, key, idx) {
        Some(x) => match x.as_str() {
            Some(s) => Some(s.to_owned()),
            None => None,
        },
        None => None,
    }
}

/// Whether an optional string field of a record is absent or a string.
pub fn check_opt_field_str(v: &JsonValue, key: &str, idx: usize) -> (r: bool)
    ensures
        r == opt_field_str_ok(*v, key@, idx as int),
{
    match get_field(v, key, idx) {
        Some(x) => x.as_str().is_some(),
        None => true,
    }
}

/// An optional string field of a record, or the empty text when absent.
pub fn get_field_str_or_empty(v: &JsonValue, key: &str, idx: usize) -> (r: String)
    ensures
        r@ == field_str_or_empty(*v, key@, idx as int),
{
    match get_field_string(v, key, idx) {
        Some(s) => s,
        None => String::new(),
    }
}

/// The position of the first member named `key`.
pub fn member_position(entries: &Vec<(String, JsonValue)>, key: &str) -> (r: Option<usize>)
    ensures
        match r {
            Some(i) => i < entries@.len() && member_index(entries@, key@) == Some(i as int),
            None => member_index(entries@, key@) is None,
        },
{
    let mut i: usize = 0;
    while i < entries.len()
        invariant
            i <= entries@.len(),
            forall|j: int| 0 <= j < i ==> (#[trigger] entries@[j]).0@ != key@,
        decreases entries.len() - i,
    {
        if str_eq(entries[i].0.as_str(), key) {
            proof {
                lemma_member_index_found(entries@, key@, i as int);
            }
            return Some(i);
        }
        i = i + 1;
    }
    proof {
        lemma_member_index_absent(entries@, key@);
    }
    None
}

/// Takes the document apart and keeps the member `key`.
pub fn take_member(v: JsonValue, key: &str) -> (r: Option<JsonValue>)
    ensures
        r == json_get(v, key@),
{
    match v {
        JsonValue::Object(entries) => {
            let mut entries = entries;
            match member_position(&entries, key) {
                Some(i) => {
                    let (_, x) = entries.remove(i);
                    Some(x)
                },
                None => None,
            }
        },
        _ => None,
    }
}

/// The member `key` as a string, or `default` when it is absent or not a
/// string.
pub fn get_str_or(v: &JsonValue, key: &str, default: &str) -> (r: String)
    ensures
        r@ == match member_str(*v, key@) {
            Some(s) => s,
            None => default@,
        },
{
    match get_string(v, key) {
        Some(s) => s,
        None => default.to_owned(),
    }
}

/// The member `key` read as a non-negative integer.
pub fn get_u64(v: &JsonValue, key: &str) -> (r: Option<u64>)
    ensures
        r == member_u64(*v, key@),
{
    match v.get(key) {
        Some(x) => x.as_u64(),
        None => None,
    }
}

/// The member `key` read as a string.
pub fn get_string(v: &JsonValue, key: &str) -> (r: Option<String>)
    ensures
        match r {
            Some(s) => member_str(*v, key@) == Some(s@),
            None => member_str(*v, key@) is None,
        },
{
    match v.get(key) {
        Some(x) => match x.as_str() {
            Some(s) => Some(s.to_owned()),
            None => None,
        },
        None => None,
    }
}

/// The member `key` as a non-negative integer, or a string that holds one.
pub fn get_u64_or_text(v: &JsonValue, key: &str) -> (r: Option<u64>)
    ensures
        r == member_u64_or_text(*v, key@),
{
    match v.get(key) {
        Some(x) => match x.as_u64() {
            Some(n) => Some(n),
            None => match x.as_str() {
                Some(s) => {
                    let cs = crate::text::chars_of(s);
                    parse_u64(cs.as_slice())
                },
                None => None,
            },
        },
        None => None,
    }
}

} // verus!
