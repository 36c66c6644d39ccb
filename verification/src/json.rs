//! JSON values: what a [`serde_json::Value`] holds, and the few operations on it that the
//! bridge protocol needs.
//!
//! A value is described by a [`Json`] tree. Each function here makes one call into
//! `serde_json` and states, over that tree, what the call does.

use serde_json::Value;
use vstd::prelude::*;

verus! {

/// The outside type that carries script messages, bridge requests and replies.
#[verifier::external_type_specification]
#[verifier::external_body]
pub struct ExValue(serde_json::Value);

/// What a JSON value holds. Integers are told apart from floating-point numbers; a
/// floating-point number is given by its bits. An object has no order.
#[verifier::ext_equal]
pub enum Json {
    Null,
    Bool(bool),
    Unsigned(u64),
    Negative(i64),
    Float(u64),
    Text(Seq<char>),
    Array(Seq<Json>),
    Object(Map<Seq<char>, Json>),
}

impl Json {
    /// The member `key` of an object. No other value has members.
    pub open spec fn member(self, key: Seq<char>) -> Option<Json> {
        match self {
            Json::Object(members) => if members.contains_key(key) {
                Some(members[key])
            } else {
                None
            },
            _ => None,
        }
    }

    /// The member `key`, where it is a string.
    pub open spec fn text_member(self, key: Seq<char>) -> Option<Seq<char>> {
        match self.member(key) {
            Some(Json::Text(text)) => Some(text),
            _ => None,
        }
    }

    /// The member `key`, where it is an integer from 0 to `u64::MAX`.
    pub open spec fn unsigned_member(self, key: Seq<char>) -> Option<u64> {
        match self.member(key) {
            Some(Json::Unsigned(number)) => Some(number),
            _ => None,
        }
    }

    /// The member `key`, where it is `true` or `false`.
    pub open spec fn bool_member(self, key: Seq<char>) -> Option<bool> {
        match self.member(key) {
            Some(Json::Bool(flag)) => Some(flag),
            _ => None,
        }
    }
}

/// What `value` holds.
pub uninterp spec fn json_of(value: Value) -> Json;

/// What each of `values` holds.
pub open spec fn jsons_of(values: Seq<Value>) -> Seq<Json> {
    values.map_values(|value: Value| json_of(value))
}

/// The compact JSON text of a value.
pub uninterp spec fn json_text(json: Json) -> Seq<char>;

/// `Value::get` with a string key: the member of an object under that key, and `None` where
/// there is none or where the value is no object.
#[verifier::external_body]
fn get<'a>(value: &'a Value, key: &str) -> (member: Option<&'a Value>)
    ensures
        match json_of(*value).member(key@) {
            Some(json) => member matches Some(found) && json_of(*found) == json,
            None => member is None,
        },
{
    value.get(key)
}

/// `Value::as_str`: the text of a string, and `None` for any other value.
#[verifier::external_body]
fn as_str(value: &Value) -> (text: Option<&str>)
    ensures
        match json_of(*value) {
            Json::Text(held) => text matches Some(found) && found@ == held,
            _ => text is None,
        },
{
    value.as_str()
}

/// `Value::as_u64`: an integer from 0 to `u64::MAX`, and `None` for any other value, negative
/// and floating-point numbers among them.
#[verifier::external_body]
fn as_u64(value: &Value) -> (number: Option<u64>)
    ensures
        number == match json_of(*value) {
            Json::Unsigned(held) => Some(held),
            _ => None,
        },
{
    value.as_u64()
}

/// `Value::as_bool`: `true` or `false`, and `None` for any other value.
#[verifier::external_body]
fn as_bool(value: &Value) -> (flag: Option<bool>)
    ensures
        flag == match json_of(*value) {
            Json::Bool(held) => Some(held),
            _ => None,
        },
{
    value.as_bool()
}

/// `Value::to_string`, through `Display`: the compact JSON text, which depends on what the
/// value holds and on nothing else, because an object keeps its members in the order of their
/// names. How the text is spelled is not stated.
#[verifier::external_body]
pub(crate) fn to_text(value: &Value) -> (text: String)
    ensures
        text@ == json_text(json_of(*value)),
{
    value.to_string()
}

/// What a JSON text holds, and `None` for a text that is not JSON.
pub uninterp spec fn json_parsed(text: Seq<char>) -> Option<Json>;

/// `serde_json::from_str` into a `Value`: what the text holds, and `None` where that fails, both
/// of which depend on the text and on nothing else. What text holds what is not stated.
#[verifier::external_body]
pub(crate) fn parse_text(text: &str) -> (value: Option<Value>)
    ensures
        match json_parsed(text@) {
            Some(json) => value matches Some(found) && json_of(found) == json,
            None => value is None,
        },
{
    serde_json::from_str(text).ok()
}

/// `Clone` for `Value`: a value that holds the same.
#[verifier::external_body]
fn copy_of(value: &Value) -> (copy: Value)
    ensures
        json_of(copy) == json_of(*value),
{
    value.clone()
}

/// `Value::Null`.
#[verifier::external_body]
pub(crate) fn null_value() -> (value: Value)
    ensures
        json_of(value) == Json::Null,
{
    Value::Null
}

/// `Value::from` for a `bool`.
#[verifier::external_body]
pub(crate) fn bool_value(flag: bool) -> (value: Value)
    ensures
        json_of(value) == Json::Bool(flag),
{
    Value::from(flag)
}

/// `Value::from` for a `u64`.
#[verifier::external_body]
pub(crate) fn number_value(number: u64) -> (value: Value)
    ensures
        json_of(value) == Json::Unsigned(number),
{
    Value::from(number)
}

/// `Value::from` for a `String`.
#[verifier::external_body]
pub(crate) fn string_value(text: String) -> (value: Value)
    ensures
        json_of(value) == Json::Text(text@),
{
    Value::from(text)
}

/// `Value::from` for a `Vec<Value>`: the array of these values in their order.
#[verifier::external_body]
pub(crate) fn array_value(values: Vec<Value>) -> (value: Value)
    ensures
        json_of(value) == Json::Array(jsons_of(values@)),
{
    Value::from(values)
}

/// `Map::new` and `Value::from` for a `Map`: an object without members.
#[verifier::external_body]
pub(crate) fn empty_object() -> (value: Value)
    ensures
        json_of(value) == Json::Object(Map::empty()),
{
    Value::from(serde_json::Map::new())
}

/// `IndexMut` for `Value` with a string key, and an assignment to the place that it gives:
/// the member `key` of an object is then `member`, whether it was there before or not, and the
/// other members are as they were.
#[verifier::external_body]
pub(crate) fn set_member(object: &mut Value, key: &str, member: Value)
    requires
        json_of(*old(object)) is Object,
    ensures
        json_of(*final(object)) == Json::Object(
            json_of(*old(object))->Object_0.insert(key@, json_of(member)),
        ),
{
    object[key] = member;
}

/// The member `key` of `value`.
pub fn member(value: &Value, key: &str) -> (member: Option<Value>)
    ensures
        match json_of(*value).member(key@) {
            Some(held) => member matches Some(found) && json_of(found) == held,
            None => member is None,
        },
{
    match get(value, key) {
        Some(member) => Some(copy_of(member)),
        None => None,
    }
}

/// The member `key` of `value`, where it is a string.
pub fn text_member(value: &Value, key: &str) -> (text: Option<String>)
    ensures
        match json_of(*value).text_member(key@) {
            Some(held) => text matches Some(found) && found@ == held,
            None => text is None,
        },
{
    match get(value, key) {
        Some(member) => match as_str(member) {
            Some(text) => Some(text.to_owned()),
            None => None,
        },
        None => None,
    }
}

/// The member `key` of `value`, where it is an integer from 0 to `u64::MAX`.
pub fn unsigned_member(value: &Value, key: &str) -> (number: Option<u64>)
    ensures
        number == json_of(*value).unsigned_member(key@),
{
    match get(value, key) {
        Some(member) => as_u64(member),
        None => None,
    }
}

/// The member `key` of `value`, where it is `true` or `false`.
pub fn bool_member(value: &Value, key: &str) -> (flag: Option<bool>)
    ensures
        flag == json_of(*value).bool_member(key@),
{
    match get(value, key) {
        Some(member) => as_bool(member),
        None => None,
    }
}

/// What several values hold is what each of them holds, in their order.
pub proof fn values_are_taken_one_by_one(values: Seq<Value>)
    ensures
        jsons_of(values).len() == values.len(),
        forall|i: int|
            0 <= i < values.len() ==> #[trigger] jsons_of(values)[i] == json_of(values[i]),
{
}

/// Only an object has members, and a member is what the object holds under that very name. It is
/// read only as what it is.
pub proof fn members_are_what_the_object_holds(json: Json, key: Seq<char>)
    ensures
        json is Object ==> json.member(key) == if json->Object_0.contains_key(key) {
            Some(json->Object_0[key])
        } else {
            None
        },
        json !is Object ==> json.member(key) is None,
        forall|text: Seq<char>| json.text_member(key) == Some(text) <==> json.member(key) == Some(
            Json::Text(text),
        ),
        forall|number: u64|
            json.unsigned_member(key) == Some(number) <==> json.member(key) == Some(
                Json::Unsigned(number),
            ),
        forall|flag: bool| json.bool_member(key) == Some(flag) <==> json.member(key) == Some(
            Json::Bool(flag),
        ),
{
}

/// A member is read from a value where the value is an object that holds it under that name, and
/// it is of the type that is read; nothing is read otherwise.
pub proof fn members_are_read_as_they_are(
    value: Value,
    key: &str,
    held: Option<Value>,
    text: Option<String>,
    number: Option<u64>,
    flag: Option<bool>,
)
    requires
        call_ensures(member, (&value, key), held),
        call_ensures(text_member, (&value, key), text),
        call_ensures(unsigned_member, (&value, key), number),
        call_ensures(bool_member, (&value, key), flag),
    ensures
        ({
            let has = json_of(value) is Object && json_of(value)->Object_0.contains_key(key@);
            let json = json_of(value)->Object_0[key@];
            &&& held is Some <==> has
            &&& has ==> json_of(held->0) == json
            &&& text is Some <==> has && json is Text
            &&& text is Some ==> text->0@ == json->Text_0
            &&& number is Some <==> has && json is Unsigned
            &&& number is Some ==> number->0 == json->Unsigned_0
            &&& flag is Some <==> has && json is Bool
            &&& flag is Some ==> flag->0 == json->Bool_0
        }),
{
}

}
