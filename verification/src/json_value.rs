//! JSON values as the shell reads them from the server's replies.

use vstd::prelude::*;
use crate::assoc::{keyed, lookup, get_value};

verus! {

/// A JSON number: a non-negative integer, a negative integer, or a number with a
/// fraction or exponent, the last held as the text it is shown with.
#[derive(Clone, Debug, PartialEq, Eq)]
pub enum JsonNumber {
    PosInt(u64),
    NegInt(i64),
    Float(String),
}

/// A JSON value. An object keeps its members in order; a key is read from the
/// first member that has it.
#[derive(Debug, PartialEq, Eq)]
pub enum JsonValue {
    Null,
    Bool(bool),
    Number(JsonNumber),
    Str(String),
    Array(Vec<JsonValue>),
    Object(Vec<(String, JsonValue)>),
}

/// The member `key` of an object; nothing for a missing key or a value that is
/// not an object.
pub open spec fn member(v: JsonValue, key: Seq<char>) -> Option<JsonValue> {
    match v {
        JsonValue::Object(entries) => lookup(keyed(entries@), key),
        _ => None,
    }
}

/// `v[key]`: the member `key` of an object, and `null` where there is none.
pub open spec fn index_member(v: JsonValue, key: Seq<char>) -> JsonValue {
    match member(v, key) {
        Some(m) => m,
        None => JsonValue::Null,
    }
}

impl JsonValue {
    /// The member `key` of this object, as `Value::get` gives it.
    pub fn get(&self, key: &str) -> (r: Option<&JsonValue>)
        ensures
            match r {
                Some(m) => member(*self, key@) == Some(*m),
                None => member(*self, key@) is None,
            },
    {
        match self {
            JsonValue::Object(entries) => get_value(entries, key),
            _ => None,
        }
    }

    /// The text of a string value.
    pub fn as_str(&self) -> (r: Option<&String>)
        ensures
            match r {
                Some(s) => *self == JsonValue::Str(*s),
                None => !(*self is Str),
            },
    {
        match self {
            JsonValue::Str(s) => Some(s),
            _ => None,
        }
    }

    /// The elements of an array value.
    pub fn as_array(&self) -> (r: Option<&Vec<JsonValue>>)
        ensures
            match r {
                Some(a) => *self == JsonValue::Array(*a),
                None => !(*self is Array),
            },
    {
        match self {
            JsonValue::Array(a) => Some(a),
            _ => None,
        }
    }
}

} // verus!
