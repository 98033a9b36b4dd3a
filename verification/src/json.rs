//! A JSON document model for message payloads.
//!
//! Payloads travel between the proxy and its browser clients as JSON.  The
//! model below holds exactly what such a document holds: numbers are kept in
//! the three shapes a JSON parser distinguishes (a non-negative integer, a
//! negative integer, and any other number, which is carried by its text), and
//! an object is the ordered list of its members.  Keys of an object are
//! distinct in every document that comes off the wire; where a list holds a
//! key twice, lookups see the first member with that key.

use vstd::prelude::*;
use crate::text::str_eq;

verus! {

/// A JSON number.
#[derive(Debug)]
pub enum JsonNumber {
    /// A non-negative integer.
    PosInt(u64),
    /// A negative integer.
    NegInt(i64),
    /// Any other number, held by its decimal text.
    Float(String),
}

/// A JSON value.
#[derive(Debug)]
pub enum JsonValue {
    Null,
    Bool(bool),
    Number(JsonNumber),
    String(String),
    Array(Vec<JsonValue>),
    Object(Vec<(String, JsonValue)>),
}

/// The value of the first member of `members` whose key is `key`.
pub open spec fn member(members: Seq<(String, JsonValue)>, key: Seq<char>) -> Option<JsonValue>
    decreases members.len(),
{
    if members.len() == 0 {
        None
    } else if members[0].0@ == key {
        Some(members[0].1)
    } else {
        member(members.drop_first(), key)
    }
}

/// What `value.get(key)` gives: the member `key` of an object, nothing for
/// any other value.
pub open spec fn json_get(value: JsonValue, key: Seq<char>) -> Option<JsonValue> {
    match value {
        JsonValue::Object(members) => member(members@, key),
        _ => None,
    }
}

/// The text of a JSON string.
pub open spec fn json_text(value: JsonValue) -> Option<String> {
    match value {
        JsonValue::String(s) => Some(s),
        _ => None,
    }
}

/// A non-negative integer read as `u64`; every other value gives nothing.
pub open spec fn json_u64(value: JsonValue) -> Option<u64> {
    match value {
        JsonValue::Number(JsonNumber::PosInt(n)) => Some(n),
        _ => None,
    }
}

/// An integer that fits in `u16`; every other value gives nothing.
pub open spec fn json_u16(value: JsonValue) -> Option<u16> {
    match value {
        JsonValue::Number(JsonNumber::PosInt(n)) => if n <= 0xffff {
            Some(n as u16)
        } else {
            None
        },
        JsonValue::Number(JsonNumber::NegInt(n)) => if 0 <= n <= 0xffff {
            Some(n as u16)
        } else {
            None
        },
        _ => None,
    }
}


impl JsonValue {
    /// The member `key` of an object (the first one with that key); `None`
    /// for a value that is not an object or has no such member.
    pub fn get(&self, key: &str) -> (r: Option<&JsonValue>)
        ensures
            match r {
                Some(v) => json_get(*self, key@) == Some(*v),
                None => json_get(*self, key@) is None,
            },
    {
        match self {
            JsonValue::Object(members) => {
                let mut i: usize = 0;
                assert(members@.skip(0) =~= members@);
                while i < members.len()
                    invariant
                        0 <= i <= members.len(),
                        json_get(*self, key@) == member(members@, key@),
                        member(members@, key@) == member(members@.skip(i as int), key@),
                    decreases members.len() - i,
                {
                    assert(members@.skip(i as int).drop_first() =~= members@.skip(i + 1));
                    assert(members@.skip(i as int)[0] == members@[i as int]);
                    if str_eq(members[i].0.as_str(), key) {
                        return Some(&members[i].1);
                    }
                    i = i + 1;
                }
                None
            },
            _ => None,
        }
    }

    /// The text of a string value.
    pub fn as_str(&self) -> (r: Option<&str>)
        ensures
            match r {
                Some(s) => json_text(*self) matches Some(t) && s@ == t@,
                None => json_text(*self) is None,
            },
    {
        match self {
            JsonValue::String(s) => Some(s.as_str()),
            _ => None,
        }
    }

    /// A non-negative integer as `u64`.
    pub fn as_u64(&self) -> (r: Option<u64>)
        ensures
            r == json_u64(*self),
    {
        match self {
            JsonValue::Number(JsonNumber::PosInt(n)) => Some(*n),
            _ => None,
        }
    }
}

} // verus!
