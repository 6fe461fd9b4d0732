use jurnalo::errors::JSONParsingError;
use jurnalo::json_utils::{
    get_key_from_object, get_key_from_object_as_str, get_key_from_object_as_vec, JsonNumber,
    JsonValue,
};

fn object() -> JsonValue {
    JsonValue::Object(vec![
        ("name".to_string(), JsonValue::Short("jurnalo".to_string())),
        ("about".to_string(), JsonValue::String("a journal of answers".to_string())),
        (
            "tags".to_string(),
            JsonValue::Array(vec![JsonValue::Boolean(true), JsonValue::Null]),
        ),
        (
            "count".to_string(),
            JsonValue::Number(JsonNumber { positive: true, mantissa: 3, exponent: 0 }),
        ),
        ("name".to_string(), JsonValue::Null),
    ])
}

fn not_found(key: &str) -> JSONParsingError {
    JSONParsingError::KeyNotFound(key.to_string())
}

fn unexpected(key: &str) -> JSONParsingError {
    JSONParsingError::UnexpectedTypeForKey(key.to_string())
}

#[test]
fn a_member_is_found_by_its_key() {
    let value = object();
    assert_eq!(
        get_key_from_object(&value, "count"),
        Ok(&JsonValue::Number(JsonNumber { positive: true, mantissa: 3, exponent: 0 }))
    );
    assert_eq!(
        get_key_from_object(&value, "name"),
        Ok(&JsonValue::Short("jurnalo".to_string()))
    );
}

#[test]
fn a_missing_key_is_not_found() {
    let value = object();
    assert_eq!(get_key_from_object(&value, "missing"), Err(not_found("missing")));
    assert_eq!(get_key_from_object(&value, ""), Err(not_found("")));
    assert_eq!(get_key_from_object(&JsonValue::Object(Vec::new()), "k"), Err(not_found("k")));
}

#[test]
fn what_is_no_object_has_no_members() {
    assert_eq!(get_key_from_object(&JsonValue::Null, "k"), Err(unexpected("k")));
    assert_eq!(get_key_from_object(&JsonValue::Array(Vec::new()), "k"), Err(unexpected("k")));
    assert_eq!(
        get_key_from_object(&JsonValue::String("k".to_string()), "k"),
        Err(unexpected("k"))
    );
}

#[test]
fn texts_are_read_as_str() {
    let value = object();
    assert_eq!(get_key_from_object_as_str(&value, "name"), Ok("jurnalo"));
    assert_eq!(get_key_from_object_as_str(&value, "about"), Ok("a journal of answers"));
    assert_eq!(get_key_from_object_as_str(&value, "tags"), Err(unexpected("tags")));
    assert_eq!(get_key_from_object_as_str(&value, "count"), Err(unexpected("count")));
    assert_eq!(get_key_from_object_as_str(&value, "missing"), Err(not_found("missing")));
    assert_eq!(get_key_from_object_as_str(&JsonValue::Boolean(true), "name"), Err(unexpected("name")));
}

#[test]
fn arrays_are_read_as_vec() {
    let value = object();
    assert_eq!(
        get_key_from_object_as_vec(&value, "tags"),
        Ok(&vec![JsonValue::Boolean(true), JsonValue::Null])
    );
    assert_eq!(get_key_from_object_as_vec(&value, "name"), Err(unexpected("name")));
    assert_eq!(get_key_from_object_as_vec(&value, "missing"), Err(not_found("missing")));
    assert_eq!(get_key_from_object_as_vec(&JsonValue::Null, "tags"), Err(unexpected("tags")));
}
