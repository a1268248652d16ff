//! JSON values, as `serde_json` parses, holds and renders them.
//!
//! A `serde_json::Value` is opaque to the verifier. What the engine reads of
//! one is named here, and each function below says in those names what the
//! `serde_json` function that it calls does.

use vstd::prelude::*;
use crate::text::optional_text;

verus! {

/// `serde_json::Value`, any JSON value. Nothing of its inside is known here.
#[verifier::external_type_specification]
#[verifier::external_body]
pub struct ExValue(serde_json::Value);

/// `serde_json::Error`, why a text is no JSON. Nothing is read of it.
#[verifier::external_type_specification]
#[verifier::external_body]
pub struct ExJsonError(serde_json::Error);

/// The value that `text` is the JSON of, if it is JSON.
pub uninterp spec fn json_parsed(text: Seq<char>) -> Option<serde_json::Value>;

/// The value that `bytes` are the JSON of, if they are JSON.
pub uninterp spec fn json_parsed_bytes(bytes: Seq<u8>) -> Option<serde_json::Value>;

/// The member `name` of an object; `None` of an object without it, and of
/// what is no object.
pub uninterp spec fn json_member(value: serde_json::Value, name: Seq<char>) -> Option<
    serde_json::Value,
>;

/// The text of a string; `None` of what is no string.
pub uninterp spec fn json_text(value: serde_json::Value) -> Option<Seq<char>>;

/// The number, where the value is an integer that a `u64` holds; `None` of
/// every other value.
pub uninterp spec fn json_unsigned(value: serde_json::Value) -> Option<u64>;

/// The items of an array; `None` of what is no array.
pub uninterp spec fn json_items(value: serde_json::Value) -> Option<Seq<serde_json::Value>>;

/// The compact JSON text of a value.
pub uninterp spec fn json_rendered(value: serde_json::Value) -> Seq<char>;

/// No member of `members` has the name `name`.
pub open spec fn no_member_named(members: Seq<(String, serde_json::Value)>, name: Seq<char>) -> bool {
    forall|i: int| 0 <= i < members.len() ==> (#[trigger] members[i]).0@ != name
}

/// The name of the member at `at` is the name of no other member.
pub open spec fn named_once(members: Seq<(String, serde_json::Value)>, at: int) -> bool {
    forall|i: int| 0 <= i < members.len() && i != at ==> (#[trigger] members[i]).0@ != members[at].0@
}

/// `serde_json::from_str` at `Value`: the value that `text` is the JSON of,
/// or the parser's error.
#[verifier::external_body]
pub(crate) fn parse_text(text: &str) -> (parsed: Result<serde_json::Value, serde_json::Error>)
    ensures
        match parsed {
            Ok(value) => json_parsed(text@) == Some(value),
            Err(_) => json_parsed(text@) is None,
        },
{
    serde_json::from_str::<serde_json::Value>(text)
}

/// `serde_json::from_slice` at `Value`: the value that `bytes` are the JSON
/// of, or the parser's error.
#[verifier::external_body]
pub(crate) fn parse_bytes(bytes: &[u8]) -> (parsed: Result<serde_json::Value, serde_json::Error>)
    ensures
        match parsed {
            Ok(value) => json_parsed_bytes(bytes@) == Some(value),
            Err(_) => json_parsed_bytes(bytes@) is None,
        },
{
    serde_json::from_slice::<serde_json::Value>(bytes)
}

/// `Value::get` with a string index: the member `name` of an object.
#[verifier::external_body]
pub(crate) fn member<'a>(value: &'a serde_json::Value, name: &str) -> (found: Option<
    &'a serde_json::Value,
>)
    ensures
        match found {
            Some(inner) => json_member(*value, name@) == Some(*inner),
            None => json_member(*value, name@) is None,
        },
{
    value.get(name)
}

/// `Value::as_str`: the text of a string.
#[verifier::external_body]
pub(crate) fn as_text<'a>(value: &'a serde_json::Value) -> (found: Option<&'a str>)
    ensures
        match found {
            Some(text) => json_text(*value) == Some(text@),
            None => json_text(*value) is None,
        },
{
    value.as_str()
}

/// `Value::as_u64`: the number, where it is an integer that a `u64` holds.
#[verifier::external_body]
pub(crate) fn as_unsigned(value: &serde_json::Value) -> (found: Option<u64>)
    ensures
        found == json_unsigned(*value),
{
    value.as_u64()
}

/// `Value::as_array`: the items of an array.
#[verifier::external_body]
pub(crate) fn as_items<'a>(value: &'a serde_json::Value) -> (found: Option<
    &'a Vec<serde_json::Value>,
>)
    ensures
        match found {
            Some(items) => json_items(*value) == Some(items@),
            None => json_items(*value) is None,
        },
{
    value.as_array()
}

/// `Value::String`: the string with the text `text`.
#[verifier::external_body]
pub(crate) fn text_value(text: String) -> (value: serde_json::Value)
    ensures
        json_text(value) == Some(text@),
{
    serde_json::Value::String(text)
}

/// `Value::from` at `u64`: the number `number`.
#[verifier::external_body]
pub(crate) fn unsigned_value(number: u64) -> (value: serde_json::Value)
    ensures
        json_unsigned(value) == Some(number),
{
    serde_json::Value::from(number)
}

/// `Value::Array`: the array of `items`.
#[verifier::external_body]
pub(crate) fn array_value(items: Vec<serde_json::Value>) -> (value: serde_json::Value)
    ensures
        json_items(value) == Some(items@),
{
    serde_json::Value::Array(items)
}

/// `Value::from_iter` at pairs of a name and a value: the object of those
/// members. A name that no pair has names no member, and a name that one
/// pair alone has names that pair's value. Of a name that several pairs have
/// nothing is said.
#[verifier::external_body]
pub(crate) fn object_value(members: Vec<(String, serde_json::Value)>) -> (value: serde_json::Value)
    ensures
        forall|name: Seq<char>|
            no_member_named(members@, name) ==> (#[trigger] json_member(value, name)) is None,
        forall|at: int|
            0 <= at < members.len() && #[trigger] named_once(members@, at) ==> json_member(
                value,
                members[at].0@,
            ) == Some(members[at].1),
{
    serde_json::Value::from_iter(members)
}

/// `Value::to_string`: the compact JSON text of the value.
#[verifier::external_body]
pub(crate) fn render(value: &serde_json::Value) -> (text: String)
    ensures
        text@ == json_rendered(*value),
{
    value.to_string()
}

/// The text of the member `name`, where `value` has that member and it is a
/// string.
pub open spec fn text_member(value: serde_json::Value, name: Seq<char>) -> Option<Seq<char>> {
    match json_member(value, name) {
        Some(inner) => json_text(inner),
        None => None,
    }
}

/// The number of the member `name`, where `value` has that member and it is
/// an integer that a `u64` holds.
pub open spec fn unsigned_member(value: serde_json::Value, name: Seq<char>) -> Option<u64> {
    match json_member(value, name) {
        Some(inner) => json_unsigned(inner),
        None => None,
    }
}

/// The items of the member `name`, where `value` has that member and it is
/// an array.
pub open spec fn items_member(value: serde_json::Value, name: Seq<char>) -> Option<
    Seq<serde_json::Value>,
> {
    match json_member(value, name) {
        Some(inner) => json_items(inner),
        None => None,
    }
}

/// The text of the member `name` of `value`.
pub fn read_text(value: &serde_json::Value, name: &str) -> (found: Option<String>)
    ensures
        optional_text(found) == text_member(*value, name@),
{
    match member(value, name) {
        Some(inner) => match as_text(inner) {
            Some(text) => Some(text.to_owned()),
            None => None,
        },
        None => None,
    }
}

/// The number of the member `name` of `value`.
pub fn read_unsigned(value: &serde_json::Value, name: &str) -> (found: Option<u64>)
    ensures
        found == unsigned_member(*value, name@),
{
    match member(value, name) {
        Some(inner) => as_unsigned(inner),
        None => None,
    }
}

/// The items of the member `name` of `value`.
pub fn read_items<'a>(value: &'a serde_json::Value, name: &str) -> (found: Option<
    &'a Vec<serde_json::Value>,
>)
    ensures
        match found {
            Some(items) => items_member(*value, name@) == Some(items@),
            None => items_member(*value, name@) is None,
        },
{
    match member(value, name) {
        Some(inner) => as_items(inner),
        None => None,
    }
}

} // verus!
