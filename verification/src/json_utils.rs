//! Looking values up in a JSON object.

use vstd::prelude::*;
use crate::errors::JSONParsingError;

verus! {

/// A JSON number by its parts: sign, digits and the power of ten that the
/// digits are multiplied by.
#[derive(Debug, Clone, Copy, PartialEq, Eq)]
pub struct JsonNumber {
    /// Whether the number is not negative.
    pub positive: bool,
    /// The digits as a whole number.
    pub mantissa: u64,
    /// The power of ten.
    pub exponent: i16,
}

/// A JSON value.
#[derive(Debug, PartialEq, Eq)]
pub enum JsonValue {
    /// `null`.
    Null,
    /// A short text.
    Short(String),
    /// A text.
    String(String),
    /// A number.
    Number(JsonNumber),
    /// `true` or `false`.
    Boolean(bool),
    /// An object: its members, each key once.
    Object(Vec<(String, JsonValue)>),
    /// An array.
    Array(Vec<JsonValue>),
}

/// The index of the first member with the key `key`, or the number of
/// members where there is none.
pub open spec fn member_index(members: Seq<(String, JsonValue)>, key: Seq<char>) -> int
    decreases members.len(),
{
    if members.len() == 0 {
        0
    } else if members[0].0@ == key {
        0
    } else {
        1 + member_index(members.drop_first(), key)
    }
}

/// The value of the member of `value` with the key `key`: `value` has to be
/// an object and to have a member with that key.
pub open spec fn member(value: JsonValue, key: Seq<char>) -> Option<JsonValue> {
    match value {
        JsonValue::Object(members) => {
            let at = member_index(members@, key);
            if at < members@.len() {
                Some(members@[at].1)
            } else {
                None
            }
        },
        _ => None,
    }
}

/// Whether `error` is the error that no member has the key `key`.
pub open spec fn is_key_not_found(error: JSONParsingError, key: Seq<char>) -> bool {
    error matches JSONParsingError::KeyNotFound(k) && k@ == key
}

/// Whether `error` is the error that a value for the key `key` has not the
/// type that was expected.
pub open spec fn is_unexpected_type(error: JSONParsingError, key: Seq<char>) -> bool {
    error matches JSONParsingError::UnexpectedTypeForKey(k) && k@ == key
}

proof fn lemma_member_index(members: Seq<(String, JsonValue)>, key: Seq<char>, at: int)
    requires
        0 <= at <= members.len(),
        forall|k: int| 0 <= k < at ==> (#[trigger] members[k]).0@ != key,
        at < members.len() ==> members[at].0@ == key,
    ensures
        member_index(members, key) == at,
    decreases at,
{
    if at > 0 {
        let rest = members.drop_first();
        assert forall|k: int| 0 <= k < at - 1 implies (#[trigger] rest[k]).0@ != key by {
            assert(rest[k] == members[k + 1]);
        }
        if at < members.len() {
            assert(rest[at - 1] == members[at]);
        }
        lemma_member_index(rest, key, at - 1);
    }
}

/// The value of the member of `possible_object` with the key `key`.
///
/// It is an error if `possible_object` is no object, and another if it is one
/// and has no member with that key.
pub fn get_key_from_object<'a>(possible_object: &'a JsonValue, key: &str) -> (result: Result<
    &'a JsonValue,
    JSONParsingError,
>)
    ensures
        match result {
            Ok(value) => member(*possible_object, key@) == Some(*value),
            Err(error) => member(*possible_object, key@) is None && if possible_object is Object {
                is_key_not_found(error, key@)
            } else {
                is_unexpected_type(error, key@)
            },
        },
{
    match possible_object {
        JsonValue::Object(members) => {
            let wanted = key.to_owned();
            let mut at: usize = 0;
            while at < members.len()
                invariant
                    at <= members.len(),
                    wanted@ == key@,
                    *possible_object == JsonValue::Object(*members),
                    forall|k: int| 0 <= k < at ==> (#[trigger] members@[k]).0@ != key@,
                decreases members.len() - at,
            {
                if members[at].0 == wanted {
                    proof {
                        lemma_member_index(members@, key@, at as int);
                    }
                    return Ok(&members[at].1);
                }
                at += 1;
            }
            proof {
                lemma_member_index(members@, key@, at as int);
            }
            Err(JSONParsingError::KeyNotFound(wanted))
        },
        _ => Err(JSONParsingError::UnexpectedTypeForKey(key.to_owned())),
    }
}

/// The text of the member of `possible_object` with the key `key`.
///
/// It is an error if `possible_object` is no object or the member is no
/// text, and another if there is no member with that key.
pub fn get_key_from_object_as_str<'a>(possible_object: &'a JsonValue, key: &str) -> (result: Result<
    &'a str,
    JSONParsingError,
>)
    ensures
        match member(*possible_object, key@) {
            Some(JsonValue::Short(text)) => result matches Ok(found) && found@ == text@,
            Some(JsonValue::String(text)) => result matches Ok(found) && found@ == text@,
            Some(_) => result matches Err(error) && is_unexpected_type(error, key@),
            None => result matches Err(error) && if possible_object is Object {
                is_key_not_found(error, key@)
            } else {
                is_unexpected_type(error, key@)
            },
        },
{
    match get_key_from_object(possible_object, key) {
        Ok(v) => match v {
            JsonValue::Short(s) => Ok(s.as_str()),
            JsonValue::String(s) => Ok(s.as_str()),
            _ => Err(JSONParsingError::UnexpectedTypeForKey(key.to_owned())),
        },
        Err(e) => Err(e),
    }
}

/// The array of the member of `possible_object` with the key `key`.
///
/// It is an error if `possible_object` is no object or the member is no
/// array, and another if there is no member with that key.
pub fn get_key_from_object_as_vec<'a>(possible_object: &'a JsonValue, key: &str) -> (result: Result<
    &'a Vec<JsonValue>,
    JSONParsingError,
>)
    ensures
        match member(*possible_object, key@) {
            Some(JsonValue::Array(items)) => result matches Ok(found) && *found == items,
            Some(_) => result matches Err(error) && is_unexpected_type(error, key@),
            None => result matches Err(error) && if possible_object is Object {
                is_key_not_found(error, key@)
            } else {
                is_unexpected_type(error, key@)
            },
        },
{
    match get_key_from_object(possible_object, key) {
        Ok(v) => match v {
            JsonValue::Array(a) => Ok(a),
            _ => Err(JSONParsingError::UnexpectedTypeForKey(key.to_owned())),
        },
        Err(e) => Err(e),
    }
}

} // verus!
