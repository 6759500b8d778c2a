//! JSON, read and written by `serde_json`.
//!
//! Everything here is believed, not proved: each function hands one call to
//! `serde_json` and says of its result what that crate's source shows.

use vstd::prelude::*;

verus! {

/// What a `serde_json::Value` holds.
pub ghost enum Json {
    Null,
    Bool(bool),
    /// A number that is held as an integer.
    Integer(int),
    /// Any other number.
    Fraction,
    Text(Seq<char>),
    Array(Seq<Json>),
    Object(Map<Seq<char>, Json>),
}

/// The member `key` of `json`: `None` where `json` is no object or has no
/// such member.
pub open spec fn member_of(json: Json, key: Seq<char>) -> Option<Json> {
    match json {
        Json::Object(members) => if members.contains_key(key) {
            Some(members[key])
        } else {
            None
        },
        _ => None,
    }
}

/// The integer that `json` is, where it is one that fits in 64 bits with
/// sign.
pub open spec fn integer_of(json: Json) -> Option<i64> {
    match json {
        Json::Integer(n) => if i64::MIN <= n <= i64::MAX {
            Some(n as i64)
        } else {
            None
        },
        _ => None,
    }
}

#[verifier::external_type_specification]
#[verifier::external_body]
pub struct ExValue(serde_json::Value);

#[verifier::external_type_specification]
#[verifier::external_body]
pub struct ExJsonError(serde_json::Error);

/// What `value` holds.
pub uninterp spec fn json_of(value: serde_json::Value) -> Json;

/// The value that `serde_json` reads from `text`; `None` where it reads
/// none: `text` is not one JSON value, or nests too deep for it.
pub uninterp spec fn json_parse(text: Seq<char>) -> Option<Json>;

/// The JSON string literal that `serde_json` writes for `text`: `text` in
/// double quotes, with escapes in it.
pub uninterp spec fn json_quoted(text: Seq<char>) -> Seq<char>;

/// `serde_json::from_str`, at the type `Value`. Claims that what it
/// returns depends on `text` alone.
#[verifier::external_body]
pub(crate) fn parse(text: &str) -> (r: Result<serde_json::Value, serde_json::Error>)
    ensures
        match r {
            Ok(value) => json_parse(text@) == Some(json_of(value)),
            Err(_) => json_parse(text@) is None,
        },
{
    serde_json::from_str::<serde_json::Value>(text)
}

/// `serde_json::Value::get`, with a text as the index: the member of that
/// name where `value` is an object that has one.
#[verifier::external_body]
pub(crate) fn member<'a>(value: &'a serde_json::Value, key: &str) -> (r: Option<
    &'a serde_json::Value,
>)
    ensures
        match r {
            Some(m) => member_of(json_of(*value), key@) == Some(json_of(*m)),
            None => member_of(json_of(*value), key@) is None,
        },
{
    value.get(key)
}

/// `serde_json::Value::as_str`: the text where `value` is one.
#[verifier::external_body]
pub(crate) fn as_text<'a>(value: &'a serde_json::Value) -> (r: Option<&'a str>)
    ensures
        match r {
            Some(text) => json_of(*value) == Json::Text(text@),
            None => !(json_of(*value) is Text),
        },
{
    value.as_str()
}

/// `serde_json::Value::as_i64`: the integer where `value` is a number that
/// is held as an integer and fits.
#[verifier::external_body]
pub(crate) fn as_integer(value: &serde_json::Value) -> (r: Option<i64>)
    ensures
        r == integer_of(json_of(*value)),
{
    value.as_i64()
}

/// `serde_json::Value::is_null`.
#[verifier::external_body]
pub(crate) fn is_null(value: &serde_json::Value) -> (r: bool)
    ensures
        r == (json_of(*value) is Null),
{
    value.is_null()
}

/// `serde_json::to_string`, of a text. Claims that it does not fail there,
/// its writer being a buffer in memory, and that what it writes depends on
/// `text` alone.
#[verifier::external_body]
pub(crate) fn quote(text: &str) -> (r: String)
    ensures
        r@ == json_quoted(text@),
{
    serde_json::to_string(text).unwrap_or_default()
}

} // verus!
