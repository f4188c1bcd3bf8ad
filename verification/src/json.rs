//! JSON values, as `serde_json` holds them.
//!
//! The values and their objects stay `serde_json`'s own; [`JsonView`] says what one
//! of them means.

use serde_json::Value;
use vstd::prelude::*;

use crate::bits::Double;

verus! {

/// A JSON value, owned by `serde_json`.
#[verifier::external_type_specification]
#[verifier::external_body]
pub struct ExValue(serde_json::Value);

/// The object type of `serde_json`: a map from keys to values.
#[verifier::external_type_specification]
#[verifier::external_body]
#[verifier::reject_recursive_types(K)]
#[verifier::reject_recursive_types(V)]
pub struct ExMap<K, V>(serde_json::Map<K, V>);

/// The error `serde_json` reports on text that is no JSON.
#[verifier::external_type_specification]
#[verifier::external_body]
pub struct ExError(serde_json::Error);

/// What a JSON value says.
#[verifier::ext_equal]
pub enum JsonView {
    Null,
    Bool(bool),
    /// A number written without fraction or exponent that fits in 64 bits.
    Integer(int),
    /// Any other number.
    Real(Double),
    Text(Seq<char>),
    List(Seq<JsonView>),
    Object(Map<Seq<char>, JsonView>),
}

/// What a value holds.
pub uninterp spec fn json_view(v: Value) -> JsonView;

/// What an object holds.
pub uninterp spec fn map_view(m: serde_json::Map<String, Value>) -> Map<Seq<char>, JsonView>;

/// What parsing a text as JSON gives; `None` where the text is no JSON.
pub uninterp spec fn parsed_json(text: Seq<char>) -> Option<JsonView>;

pub open spec fn opt_json_view(v: Option<Value>) -> Option<JsonView> {
    match v {
        Some(v) => Some(json_view(v)),
        None => None,
    }
}

pub open spec fn texts_json(texts: Seq<String>) -> Seq<JsonView> {
    Seq::new(texts.len(), |i: int| JsonView::Text(texts[i]@))
}

/// Calls `serde_json::from_str`. Whether the text parses, and what it parses to, is
/// a function of the text; which error comes back is not stated.
#[verifier::external_body]
pub(crate) fn parse_json(text: &str) -> (r: Result<Value, serde_json::Error>)
    ensures
        r is Ok == parsed_json(text@) is Some,
        r is Ok ==> Some(json_view(r->Ok_0)) == parsed_json(text@),
{
    serde_json::from_str(text)
}

/// Calls `Value::as_object_mut`: the map of a value that is an object, through which
/// the value can be changed; nothing for any other value.
#[verifier::external_body]
pub(crate) fn as_object_mut(value: &mut Value) -> (r: Option<&mut serde_json::Map<String, Value>>)
    ensures
        r is Some == json_view(*old(value)) is Object,
        r is Some ==> json_view(*old(value)) == JsonView::Object(map_view(*r->Some_0)),
        r is Some ==> json_view(*final(value)) == JsonView::Object(map_view(*final(r->Some_0))),
        r is None ==> *final(value) == *old(value),
{
    value.as_object_mut()
}

/// Calls `Map::new`: an object without entries.
#[verifier::external_body]
pub(crate) fn new_map() -> (r: serde_json::Map<String, Value>)
    ensures
        map_view(r).is_empty(),
{
    serde_json::Map::new()
}

/// Calls `Map::contains_key`: whether the object has an entry for the key.
#[verifier::external_body]
pub(crate) fn contains_key(m: &serde_json::Map<String, Value>, key: &str) -> (r: bool)
    ensures
        r == map_view(*m).dom().contains(key@),
{
    m.contains_key(key)
}

/// Calls `Map::get`: the value of the key's entry, where there is one.
#[verifier::external_body]
pub(crate) fn get<'a>(m: &'a serde_json::Map<String, Value>, key: &str) -> (r: Option<&'a Value>)
    ensures
        r is Some == map_view(*m).dom().contains(key@),
        r is Some ==> json_view(*r->Some_0) == map_view(*m)[key@],
{
    m.get(key)
}

/// Calls `Map::remove`: takes the key's entry out, and returns its value where there
/// was one.
#[verifier::external_body]
pub(crate) fn remove(m: &mut serde_json::Map<String, Value>, key: &str) -> (r: Option<Value>)
    ensures
        map_view(*final(m)) == map_view(*old(m)).remove(key@),
        opt_json_view(r) == if map_view(*old(m)).dom().contains(key@) {
            Some(map_view(*old(m))[key@])
        } else {
            None
        },
{
    m.remove(key)
}

/// Calls `Map::insert`: puts an entry in, in place of the key's earlier one, whose
/// value it returns.
#[verifier::external_body]
pub(crate) fn insert(m: &mut serde_json::Map<String, Value>, key: String, value: Value) -> (r: Option<
    Value,
>)
    ensures
        map_view(*final(m)) == map_view(*old(m)).insert(key@, json_view(value)),
        opt_json_view(r) == if map_view(*old(m)).dom().contains(key@) {
            Some(map_view(*old(m))[key@])
        } else {
            None
        },
{
    m.insert(key, value)
}

/// Calls `Value::from` on an object.
#[verifier::external_body]
pub(crate) fn from_map(m: serde_json::Map<String, Value>) -> (r: Value)
    ensures
        json_view(r) == JsonView::Object(map_view(m)),
{
    Value::from(m)
}

/// Calls `Value::from` on a text: the JSON string of the same characters.
#[verifier::external_body]
pub(crate) fn from_text(text: &str) -> (r: Value)
    ensures
        json_view(r) == JsonView::Text(text@),
{
    Value::from(text)
}

/// Calls `Value::from` on an unsigned integer: the JSON number of the same value.
#[verifier::external_body]
pub(crate) fn from_count(n: u64) -> (r: Value)
    ensures
        json_view(r) == JsonView::Integer(n as int),
{
    Value::from(n)
}

/// Calls `Value::from` on a list of texts: the JSON array of their strings, in order.
#[verifier::external_body]
pub(crate) fn from_texts(texts: Vec<String>) -> (r: Value)
    ensures
        json_view(r) == JsonView::List(texts_json(texts@)),
{
    Value::from(texts)
}

/// Calls `Value::from` on a boolean.
#[verifier::external_body]
pub(crate) fn from_flag(b: bool) -> (r: Value)
    ensures
        json_view(r) == JsonView::Bool(b),
{
    Value::from(b)
}

} // verus!
