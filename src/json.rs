//! A plain model of the JSON payloads that the remote service returns.

use crate::text::str_eq;
use vstd::prelude::*;

verus! {

/// A JSON number: its text as the service wrote it, and its value in
/// thousandths, rounded.
#[derive(Clone, Debug)]
pub struct JsonNumber {
    pub text: String,
    pub milli: i64,
}

/// A JSON value. Object members keep the order in which they were read.
#[derive(Debug)]
pub enum JsonValue {
    Null,
    Bool(bool),
    Number(JsonNumber),
    Str(String),
    Array(Vec<JsonValue>),
    Object(Vec<(String, JsonValue)>),
}

/// Index of the first member of `fields` named `key`, searching from `from`.
pub open spec fn member_index_from(fields: Seq<(String, JsonValue)>, key: Seq<char>, from: int) -> Option<int>
    decreases fields.len() - from,
{
    if from < 0 || from >= fields.len() {
        None
    } else if fields[from].0@ == key {
        Some(from)
    } else {
        member_index_from(fields, key, from + 1)
    }
}

/// The member named `key` of an object (the first one, if several); none for
/// other values.
pub open spec fn json_get(v: JsonValue, key: Seq<char>) -> Option<JsonValue> {
    match v {
        JsonValue::Object(fields) => match member_index_from(fields@, key, 0) {
            Some(i) => Some(fields@[i].1),
            None => None,
        },
        _ => None,
    }
}

/// The element at `i` of an array; none for other values or out of range.
pub open spec fn json_at(v: JsonValue, i: int) -> Option<JsonValue> {
    match v {
        JsonValue::Array(items) => if 0 <= i < items@.len() {
            Some(items@[i])
        } else {
            None
        },
        _ => None,
    }
}

/// The text of a string value.
pub open spec fn json_str(v: Option<JsonValue>) -> Option<Seq<char>> {
    match v {
        Some(JsonValue::Str(s)) => Some(s@),
        _ => None,
    }
}

/// The numeric value, in thousandths, of a number.
pub open spec fn json_milli(v: Option<JsonValue>) -> Option<i64> {
    match v {
        Some(JsonValue::Number(n)) => Some(n.milli),
        _ => None,
    }
}

/// The first of two optional values that is present.
pub open spec fn or_else<T>(a: Option<T>, b: Option<T>) -> Option<T> {
    match a {
        Some(x) => Some(x),
        None => b,
    }
}

/// Position of the first member of `fields` named `key`.
pub fn member_position(fields: &Vec<(String, JsonValue)>, key: &str) -> (r: Option<usize>)
    ensures
        r matches Some(i) ==> member_index_from(fields@, key@, 0) == Some(i as int) && i
            < fields@.len(),
        r is None ==> member_index_from(fields@, key@, 0) is None,
{
    let mut i: usize = 0;
    while i < fields.len()
        invariant
            i <= fields@.len(),
            member_index_from(fields@, key@, 0) == member_index_from(fields@, key@, i as int),
        decreases fields@.len() - i,
    {
        if str_eq(fields[i].0.as_str(), key) {
            assert(member_index_from(fields@, key@, i as int) == Some(i as int));
            return Some(i);
        }
        i = i + 1;
    }
    None
}

impl JsonValue {
    /// The member named `key`, for an object.
    pub fn get(&self, key: &str) -> (r: Option<&JsonValue>)
        ensures
            r matches Some(x) ==> json_get(*self, key@) == Some(*x),
            r is None ==> json_get(*self, key@) is None,
    {
        match self {
            JsonValue::Object(fields) => {
                let mut i: usize = 0;
                while i < fields.len()
                    invariant
                        *self == JsonValue::Object(*fields),
                        i <= fields@.len(),
                        member_index_from(fields@, key@, 0) == member_index_from(
                            fields@,
                            key@,
                            i as int,
                        ),
                    decreases fields@.len() - i,
                {
                    if str_eq(fields[i].0.as_str(), key) {
                        assert(member_index_from(fields@, key@, i as int) == Some(i as int));
                        return Some(&fields[i].1);
                    }
                    i = i + 1;
                }
                None
            },
            _ => None,
        }
    }

    /// The element at `i`, for an array.
    pub fn at(&self, i: usize) -> (r: Option<&JsonValue>)
        ensures
            r matches Some(x) ==> json_at(*self, i as int) == Some(*x),
            r is None ==> json_at(*self, i as int) is None,
    {
        match self {
            JsonValue::Array(items) => if i < items.len() {
                Some(&items[i])
            } else {
                None
            },
            _ => None,
        }
    }

    /// The text, for a string.
    pub fn as_str(&self) -> (r: Option<&str>)
        ensures
            r matches Some(s) ==> json_str(Some(*self)) == Some(s@),
            r is None ==> json_str(Some(*self)) is None,
    {
        match self {
            JsonValue::Str(s) => Some(s.as_str()),
            _ => None,
        }
    }

    /// The value in thousandths, for a number.
    pub fn as_milli(&self) -> (r: Option<i64>)
        ensures
            r == json_milli(Some(*self)),
    {
        match self {
            JsonValue::Number(n) => Some(n.milli),
            _ => None,
        }
    }
}

/// The text of an optional string value.
pub fn opt_str(v: Option<&JsonValue>) -> (r: Option<&str>)
    ensures
        r matches Some(s) ==> v matches Some(x) && json_str(Some(*x)) == Some(s@),
        r is None ==> (v is None || json_str(Some(*v->0)) is None),
{
    match v {
        Some(x) => x.as_str(),
        None => None,
    }
}

} // verus!
