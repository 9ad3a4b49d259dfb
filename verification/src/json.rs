//! JSON documents as Telegram sends them.
//!
//! `serde_json` parses and holds the documents. What a `serde_json::Value`
//! holds is described by the tree [`Json`], and the few operations that the
//! readers of this crate need are given their meaning over that tree.

use vstd::prelude::*;

verus! {

/// What a `serde_json::Value` holds.
pub enum Json {
    Null,
    Bool(bool),
    /// A number, with its value where it is an integer that fits in an `i64`.
    Number(Option<i64>),
    Text(Seq<char>),
    List(Seq<Json>),
    Object(Map<Seq<char>, Json>),
}

impl Json {
    /// The member `key` of an object; `Null` where there is none, or where
    /// this is no object.
    pub open spec fn at(self, key: Seq<char>) -> Json {
        match self {
            Json::Object(members) => if members.contains_key(key) {
                members[key]
            } else {
                Json::Null
            },
            _ => Json::Null,
        }
    }

    pub open spec fn as_bool(self) -> Option<bool> {
        match self {
            Json::Bool(b) => Some(b),
            _ => None,
        }
    }

    pub open spec fn as_integer(self) -> Option<i64> {
        match self {
            Json::Number(n) => n,
            _ => None,
        }
    }

    pub open spec fn as_text(self) -> Option<Seq<char>> {
        match self {
            Json::Text(t) => Some(t),
            _ => None,
        }
    }

    pub open spec fn as_list(self) -> Option<Seq<Json>> {
        match self {
            Json::List(items) => Some(items),
            _ => None,
        }
    }
}

/// `serde_json::Value`, opaque here; see [`json_of`].
#[verifier::external_type_specification]
#[verifier::external_body]
pub struct ExValue(serde_json::Value);

/// The tree that a `serde_json::Value` holds.
pub uninterp spec fn json_of(value: serde_json::Value) -> Json;

/// The document that `serde_json` reads out of `bytes`, if they are one.
pub uninterp spec fn parsed(bytes: Seq<u8>) -> Option<Json>;

/// The trees of a list of values.
pub open spec fn json_list(values: Seq<serde_json::Value>) -> Seq<Json> {
    values.map_values(|v: serde_json::Value| json_of(v))
}

/// Calls `serde_json::from_slice` for a `Value`. Claimed: whether the bytes
/// are one JSON document, and which, is a function of the bytes. The text of
/// a parse error is not kept.
#[verifier::external_body]
pub(crate) fn parse_json(bytes: &[u8]) -> (r: Option<serde_json::Value>)
    ensures
        match r {
            Some(v) => parsed(bytes@) == Some(json_of(v)),
            None => parsed(bytes@) is None,
        },
{
    serde_json::from_slice::<serde_json::Value>(bytes).ok()
}

/// Calls `serde_json::Value::index` with a string. Claimed: the member of that
/// name, or null where there is none or where the value is no object.
#[verifier::external_body]
pub(crate) fn member<'a>(value: &'a serde_json::Value, key: &str) -> (r: &'a serde_json::Value)
    ensures
        json_of(*r) == json_of(*value).at(key@),
{
    &value[key]
}

/// Calls `serde_json::Value::as_bool`. Claimed: the boolean, of a boolean.
#[verifier::external_body]
pub(crate) fn value_bool(value: &serde_json::Value) -> (r: Option<bool>)
    ensures
        r == json_of(*value).as_bool(),
{
    value.as_bool()
}

/// Calls `serde_json::Value::as_i64`. Claimed: the number, of an integer that
/// fits in an `i64`.
#[verifier::external_body]
pub(crate) fn value_integer(value: &serde_json::Value) -> (r: Option<i64>)
    ensures
        r == json_of(*value).as_integer(),
{
    value.as_i64()
}

/// Calls `serde_json::Value::as_str`. Claimed: the text, of a string.
#[verifier::external_body]
pub(crate) fn value_text<'a>(value: &'a serde_json::Value) -> (r: Option<&'a str>)
    ensures
        match r {
            Some(t) => json_of(*value).as_text() == Some(t@),
            None => json_of(*value).as_text() is None,
        },
{
    value.as_str()
}

/// Calls `serde_json::Value::as_array`. Claimed: the elements, of an array.
#[verifier::external_body]
pub(crate) fn value_list<'a>(value: &'a serde_json::Value) -> (r: Option<&'a Vec<serde_json::Value>>)
    ensures
        match r {
            Some(items) => json_of(*value).as_list() == Some(json_list(items@)),
            None => json_of(*value).as_list() is None,
        },
{
    value.as_array()
}

// ---- documents to send ----

/// Calls `serde_json::Value::from` with an integer. Claimed: that number.
#[verifier::external_body]
pub(crate) fn integer_value(n: i64) -> (r: serde_json::Value)
    ensures
        json_of(r) == Json::Number(Some(n)),
{
    serde_json::Value::from(n)
}

/// Calls `serde_json::Value::from` with a string. Claimed: that string.
#[verifier::external_body]
pub(crate) fn text_value(t: &str) -> (r: serde_json::Value)
    ensures
        json_of(r) == Json::Text(t@),
{
    serde_json::Value::from(t)
}

/// Calls `serde_json::Value::from` with a vector. Claimed: those elements.
#[verifier::external_body]
pub(crate) fn list_value(items: Vec<serde_json::Value>) -> (r: serde_json::Value)
    ensures
        json_of(r) == Json::List(json_list(items@)),
{
    serde_json::Value::from(items)
}

/// Calls `serde_json::Map::new`. Claimed: an object without members.
#[verifier::external_body]
pub(crate) fn empty_object() -> (r: serde_json::Value)
    ensures
        json_of(r) == Json::Object(Map::empty()),
{
    serde_json::Value::Object(serde_json::Map::new())
}

/// Calls `serde_json::Value::index_mut` with a string, and assigns. Claimed: the
/// object then has that member, and its others as before.
#[verifier::external_body]
pub(crate) fn set_member(object: &mut serde_json::Value, key: &str, value: serde_json::Value)
    requires
        json_of(*old(object)) is Object,
    ensures
        json_of(*final(object)) == Json::Object(
            json_of(*old(object))->Object_0.insert(key@, json_of(value)),
        ),
{
    object[key] = value;
}

} // verus!
