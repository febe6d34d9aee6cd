//! The JSON values that the API sends back, held as plain values.
//!
//! A value is read from the API's bytes outside this library; here it is
//! only inspected. Compound values keep, beside their parts, the compact
//! JSON text that stands for them, which is what the client shows when it
//! has to print such a value whole.

use vstd::prelude::*;
use crate::text::str_equal;

verus! {

/// A JSON number, as the JSON reader classifies it.
#[derive(Debug, Clone, PartialEq, Eq)]
pub enum JsonNumber {
    /// A number that is a non-negative integer.
    PosInt(u64),
    /// A negative integer.
    NegInt(i64),
    /// Any other number, held as the text it is written with.
    Float(String),
}

/// A JSON value.
#[derive(Debug, PartialEq, Eq)]
pub enum JsonValue {
    Null,
    Bool(bool),
    Number(JsonNumber),
    Str(String),
    /// An array: its items, and its compact JSON text.
    Array { items: Vec<JsonValue>, text: String },
    /// An object: its members in order, and its compact JSON text.
    Object { entries: Vec<(String, JsonValue)>, text: String },
}

/// The value of the first member named `key` among `entries`.
pub open spec fn entry_lookup(entries: Seq<(String, JsonValue)>, key: Seq<char>) -> Option<
    JsonValue,
>
    decreases entries.len(),
{
    if entries.len() == 0 {
        None
    } else if entries[0].0@ == key {
        Some(entries[0].1)
    } else {
        entry_lookup(entries.skip(1), key)
    }
}

/// The member `key` of `v`, when `v` is an object that has one.
pub open spec fn field(v: JsonValue, key: Seq<char>) -> Option<JsonValue> {
    match v {
        JsonValue::Object { entries, .. } => entry_lookup(entries@, key),
        _ => None,
    }
}

/// The text of `v` when it is a JSON string.
pub open spec fn string_of(v: Option<JsonValue>) -> Option<Seq<char>> {
    match v {
        Some(JsonValue::Str(s)) => Some(s@),
        _ => None,
    }
}

/// The text of member `key` of `v`, when it is a JSON string.
pub open spec fn str_field(v: JsonValue, key: Seq<char>) -> Option<Seq<char>> {
    string_of(field(v, key))
}

/// Member `key` of `v` when it is a string, else `default`.
pub open spec fn str_field_or(v: JsonValue, key: Seq<char>, default: Seq<char>) -> Seq<char> {
    match str_field(v, key) {
        Some(s) => s,
        None => default,
    }
}

/// Member `key` of `v` when it is a non-negative integer.
pub open spec fn u64_field(v: JsonValue, key: Seq<char>) -> Option<u64> {
    match field(v, key) {
        Some(JsonValue::Number(JsonNumber::PosInt(n))) => Some(n),
        _ => None,
    }
}

/// The items of member `key` of `v`, when it is an array.
pub open spec fn array_field(v: JsonValue, key: Seq<char>) -> Option<Seq<JsonValue>> {
    match field(v, key) {
        Some(JsonValue::Array { items, .. }) => Some(items@),
        _ => None,
    }
}

impl JsonValue {
    /// The member named `key`, when this value is an object that has one
    /// (what indexing a JSON value by a key reads, where a missing member
    /// reads as `null`).
    pub fn get(&self, key: &str) -> (r: Option<&JsonValue>)
        ensures
            match r {
                Some(x) => field(*self, key@) == Some(*x),
                None => field(*self, key@) is None,
            },
    {
        match self {
            JsonValue::Object { entries, .. } => {
                let n = entries.len();
                assert(entries@.skip(0) =~= entries@);
                for i in 0..n
                    invariant
                        n == entries@.len(),
                        field(*self, key@) == entry_lookup(entries@.skip(i as int), key@),
                {
                    assert(entries@.skip(i as int).skip(1) =~= entries@.skip(i + 1));
                    assert(entries@.skip(i as int)[0] == entries@[i as int]);
                    if str_equal(entries[i].0.as_str(), key) {
                        return Some(&entries[i].1);
                    }
                }
                assert(entries@.skip(n as int) =~= Seq::<(String, JsonValue)>::empty());
                None
            },
            _ => None,
        }
    }

    /// The text of this value when it is a JSON string.
    pub fn as_str(&self) -> (r: Option<&String>)
        ensures
            match r {
                Some(s) => *self == JsonValue::Str(*s),
                None => !(*self is Str),
            },
    {
        match self {
            JsonValue::Str(s) => Some(s),
            _ => None,
        }
    }

    /// The value when it is a non-negative integer.
    pub fn as_u64(&self) -> (r: Option<u64>)
        ensures
            match r {
                Some(n) => *self == JsonValue::Number(JsonNumber::PosInt(n)),
                None => !(*self matches JsonValue::Number(JsonNumber::PosInt(_))),
            },
    {
        match self {
            JsonValue::Number(JsonNumber::PosInt(n)) => Some(*n),
            _ => None,
        }
    }

    /// The items when this value is an array.
    pub fn as_array(&self) -> (r: Option<&Vec<JsonValue>>)
        ensures
            match r {
                Some(items) => *self matches JsonValue::Array { items: i, .. } && i == *items,
                None => !(*self is Array),
            },
    {
        match self {
            JsonValue::Array { items, .. } => Some(items),
            _ => None,
        }
    }

    /// Member `key` when it is a JSON string.
    pub fn str_field(&self, key: &str) -> (r: Option<&String>)
        ensures
            match r {
                Some(s) => str_field(*self, key@) == Some(s@),
                None => str_field(*self, key@) is None,
            },
    {
        match self.get(key) {
            Some(v) => v.as_str(),
            None => None,
        }
    }

    /// Member `key` when it is a JSON string, else `default`.
    pub fn str_field_or(&self, key: &str, default: &str) -> (r: String)
        ensures
            r@ == str_field_or(*self, key@, default@),
    {
        match self.str_field(key) {
            Some(s) => s.clone(),
            None => String::from_str(default),
        }
    }
}

} // verus!
