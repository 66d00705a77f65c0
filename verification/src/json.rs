//! JSON values, and what the routers read and write of them.
//!
//! The values themselves are `serde_json`'s. The contracts speak of what a
//! value holds: a [`Json`] tree, which [`json_of`] names.

use serde_json::Value;
use vstd::prelude::*;

verus! {

/// What a JSON value holds.
///
/// A number is known up to equality only: two numbers that compare equal
/// carry the same integer, two that do not carry different ones, and nothing
/// else is meant by it.
pub enum Json {
    Null,
    Bool(bool),
    Number(int),
    Text(Seq<char>),
    List(Seq<Json>),
    Object(Map<Seq<char>, Json>),
}

impl Json {
    /// The member of an object under `key`.
    pub open spec fn member(self, key: Seq<char>) -> Option<Json> {
        match self {
            Json::Object(members) => if members.contains_key(key) {
                Some(members[key])
            } else {
                None
            },
            _ => None,
        }
    }

    /// The text of a string.
    pub open spec fn text(self) -> Option<Seq<char>> {
        match self {
            Json::Text(text) => Some(text),
            _ => None,
        }
    }

    /// The items of an array.
    pub open spec fn items(self) -> Option<Seq<Json>> {
        match self {
            Json::List(items) => Some(items),
            _ => None,
        }
    }

    /// The object with `value` under `key`, in place of what it held there.
    pub open spec fn with_member(self, key: Seq<char>, value: Json) -> Json {
        match self {
            Json::Object(members) => Json::Object(members.insert(key, value)),
            _ => self,
        }
    }

    /// The text of the string member under `key`.
    pub open spec fn text_member(self, key: Seq<char>) -> Option<Seq<char>> {
        match self.member(key) {
            Some(member) => member.text(),
            None => None,
        }
    }
}

/// The members of an empty object.
pub open spec fn no_members() -> Map<Seq<char>, Json> {
    Map::empty()
}

/// A JSON value, `serde_json::Value`.
#[verifier::external_type_specification]
#[verifier::external_body]
pub struct ExValue(serde_json::Value);

/// The members of a JSON object, `serde_json::Map`.
#[verifier::external_type_specification]
#[verifier::external_body]
#[verifier::reject_recursive_types(K)]
#[verifier::reject_recursive_types(V)]
pub struct ExMap<K, V>(serde_json::Map<K, V>);

/// What a `serde_json::Value` holds.
pub uninterp spec fn json_of(value: serde_json::Value) -> Json;

/// What a `serde_json::Map` holds.
pub uninterp spec fn members_of(map: serde_json::Map<String, serde_json::Value>) -> Map<Seq<char>, Json>;

/// What each of a list of values holds.
pub open spec fn json_list(values: Seq<Value>) -> Seq<Json> {
    Seq::new(values.len(), |i: int| json_of(values[i]))
}

/// `Value::get` with a string: the member of an object under `key`, and
/// `None` where the value is no object or has no such member.
#[verifier::external_body]
pub(crate) fn value_get<'a>(value: &'a Value, key: &str) -> (member: Option<&'a Value>)
    ensures
        match member {
            Some(inner) => json_of(*value).member(key@) == Some(json_of(*inner)),
            None => json_of(*value).member(key@) is None,
        },
{
    value.get(key)
}

/// `Value::as_str`: the text of a string, and `None` for any other value.
#[verifier::external_body]
pub(crate) fn value_as_str(value: &Value) -> (text: Option<&str>)
    ensures
        match text {
            Some(inner) => json_of(*value) == Json::Text(inner@),
            None => json_of(*value).text() is None,
        },
{
    value.as_str()
}

/// `Value::as_array`: the items of an array, and `None` for any other value.
#[verifier::external_body]
pub(crate) fn value_as_array(value: &Value) -> (items: Option<&Vec<Value>>)
    ensures
        match items {
            Some(inner) => json_of(*value) == Json::List(json_list(inner@)),
            None => json_of(*value).items() is None,
        },
{
    value.as_array()
}

/// `Value::get_mut` with a string: the member of an object under `key`. What
/// is written to the member is then what the object holds under `key`; the
/// other members stay.
#[verifier::external_body]
pub(crate) fn value_get_mut<'a>(value: &'a mut Value, key: &str) -> (member: Option<&'a mut Value>)
    ensures
        match member {
            Some(inner) => json_of(*old(value)) matches Json::Object(members)
                && members.contains_key(key@) && json_of(*inner) == members[key@]
                && json_of(*final(value)) == Json::Object(members.insert(key@, json_of(*final(inner)))),
            None => json_of(*old(value)).member(key@) is None && *final(value) == *old(value),
        },
{
    value.get_mut(key)
}

/// `Value::as_array_mut`: the items of an array. What is written to them is
/// then what the array holds.
#[verifier::external_body]
pub(crate) fn value_as_array_mut(value: &mut Value) -> (items: Option<&mut Vec<Value>>)
    ensures
        match items {
            Some(inner) => json_of(*old(value)) == Json::List(json_list(inner@))
                && json_of(*final(value)) == Json::List(json_list(final(inner)@)),
            None => json_of(*old(value)).items() is None && *final(value) == *old(value),
        },
{
    value.as_array_mut()
}

/// `Value::as_object_mut`: the members of an object. What is written to them
/// is then what the object holds.
#[verifier::external_body]
pub(crate) fn value_as_object_mut(value: &mut Value) -> (members: Option<&mut serde_json::Map<String, Value>>)
    ensures
        match members {
            Some(inner) => json_of(*old(value)) == Json::Object(members_of(*inner))
                && json_of(*final(value)) == Json::Object(members_of(*final(inner))),
            None => !(json_of(*old(value)) is Object) && *final(value) == *old(value),
        },
{
    value.as_object_mut()
}

/// `serde_json::Map::insert`: afterwards the map holds `value` under `key`,
/// in place of what it held there, and all else that it held.
#[verifier::external_body]
pub(crate) fn map_insert(map: &mut serde_json::Map<String, Value>, key: String, value: Value)
    ensures
        members_of(*final(map)) == members_of(*old(map)).insert(key@, json_of(value)),
{
    let _ = map.insert(key, value);
}

/// `<Value as Clone>::clone`: the copy holds what the original holds.
pub assume_specification[ <serde_json::Value as Clone>::clone ](value: &serde_json::Value) -> (copy: serde_json::Value)
    ensures
        json_of(copy) == json_of(*value),
;

/// `==` of two values: whether they hold the same.
#[verifier::external_body]
pub(crate) fn value_eq(left: &Value, right: &Value) -> (same: bool)
    ensures
        same == (json_of(*left) == json_of(*right)),
{
    left == right
}

/// `Value::String`: a string of this text.
#[verifier::external_body]
pub(crate) fn text_value(text: String) -> (value: Value)
    ensures
        json_of(value) == Json::Text(text@),
{
    Value::String(text)
}

/// `Value::Array`: an array of these items.
#[verifier::external_body]
pub(crate) fn list_value(items: Vec<Value>) -> (value: Value)
    ensures
        json_of(value) == Json::List(json_list(items@)),
{
    Value::Array(items)
}

/// `Value::Object`: an object of these members.
#[verifier::external_body]
pub(crate) fn object_value(members: serde_json::Map<String, Value>) -> (value: Value)
    ensures
        json_of(value) == Json::Object(members_of(members)),
{
    Value::Object(members)
}

/// `serde_json::Map::new`: no members.
#[verifier::external_body]
pub(crate) fn map_new() -> (members: serde_json::Map<String, Value>)
    ensures
        members_of(members) == no_members(),
{
    serde_json::Map::new()
}

/// The text of the string member under `key`.
pub(crate) fn text_member<'a>(value: &'a Value, key: &str) -> (text: Option<&'a str>)
    ensures
        match text {
            Some(inner) => json_of(*value).text_member(key@) == Some(inner@),
            None => json_of(*value).text_member(key@) is None,
        },
{
    match value_get(value, key) {
        Some(member) => value_as_str(member),
        None => None,
    }
}

/// Whether the member under `key` is a string of this text.
pub(crate) fn text_member_is(value: &Value, key: &str, text: &str) -> (same: bool)
    ensures
        same == (json_of(*value).text_member(key@) == Some(text@)),
{
    match text_member(value, key) {
        Some(inner) => *inner == *text,
        None => false,
    }
}

} // verus!
