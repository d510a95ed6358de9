//! JSON values and objects of `serde_json`, with a mathematical view of their contents.

use serde_json::Value;
use vstd::prelude::*;

verus! {

/// The contents of a JSON value.
///
/// A number is represented by its decimal text; an object by its fields.
pub enum JsonView {
    Null,
    Bool(bool),
    Number(Seq<char>),
    Text(Seq<char>),
    Array(Seq<JsonView>),
    Object(Map<Seq<char>, JsonView>),
}

impl JsonView {
    /// The text of a JSON string; `None` for every other value.
    pub open spec fn as_text(self) -> Option<Seq<char>> {
        match self {
            JsonView::Text(text) => Some(text),
            _ => None,
        }
    }

    /// The truth value of a JSON boolean; `None` for every other value.
    pub open spec fn as_truth(self) -> Option<bool> {
        match self {
            JsonView::Bool(truth) => Some(truth),
            _ => None,
        }
    }

    /// The fields of a JSON object; `None` for every other value.
    pub open spec fn as_fields(self) -> Option<Map<Seq<char>, JsonView>> {
        match self {
            JsonView::Object(fields) => Some(fields),
            _ => None,
        }
    }
}

/// The fields of an empty object.
pub open spec fn no_fields() -> Map<Seq<char>, JsonView> {
    Map::empty()
}

/// Declares `serde_json::Value`, whose contents are named by [`json_view`].
#[verifier::external_type_specification]
#[verifier::external_body]
pub struct ExValue(serde_json::Value);

/// Declares `serde_json::Map`, whose contents are named by [`json_fields`].
#[verifier::external_type_specification]
#[verifier::external_body]
#[verifier::reject_recursive_types(K)]
#[verifier::reject_recursive_types(V)]
pub struct ExMap<K, V>(serde_json::Map<K, V>);

/// What a JSON value holds.
pub uninterp spec fn json_view(value: serde_json::Value) -> JsonView;

/// What a JSON object holds, by field name.
pub uninterp spec fn json_fields(object: serde_json::Map<String, serde_json::Value>) -> Map<Seq<char>, JsonView>;

/// The compact JSON text of a value.
pub uninterp spec fn json_text(value: JsonView) -> Seq<char>;

/// `serde_json::Value::as_str`: the text of a JSON string, `None` for every other value.
pub assume_specification[ serde_json::Value::as_str ](value: &serde_json::Value) -> (text: Option<&str>)
    ensures
        match json_view(*value) {
            JsonView::Text(held) => text is Some && text->0@ == held,
            _ => text is None,
        },
;

/// `serde_json::Value::as_bool`: the truth value of a JSON boolean, `None` for every other value.
pub assume_specification[ serde_json::Value::as_bool ](value: &serde_json::Value) -> (truth: Option<bool>)
    ensures
        truth == json_view(*value).as_truth(),
;

/// `serde_json::Value::as_object`: the fields of a JSON object, `None` for every other value.
pub assume_specification[ serde_json::Value::as_object ](value: &serde_json::Value) -> (object: Option<&serde_json::Map<String, serde_json::Value>>)
    ensures
        match json_view(*value) {
            JsonView::Object(held) => object is Some && json_fields(*object->0) == held,
            _ => object is None,
        },
;

/// `serde_json::Map::new`: an object without fields.
pub assume_specification[ serde_json::Map::<String, serde_json::Value>::new ]() -> (object: serde_json::Map<String, serde_json::Value>)
    ensures
        json_fields(object) == no_fields(),
;

/// `serde_json::Map::insert`: sets one field, whether or not it was there, and leaves the others.
/// What the field held before is returned.
pub assume_specification[ serde_json::Map::<String, serde_json::Value>::insert ](object: &mut serde_json::Map<String, serde_json::Value>, k: String, v: serde_json::Value) -> (previous: Option<serde_json::Value>)
    ensures
        json_fields(*final(object)) == json_fields(*old(object)).insert(k@, json_view(v)),
        previous is Some <==> json_fields(*old(object)).contains_key(k@),
        previous matches Some(held) ==> json_view(held) == json_fields(*old(object))[k@],
;

/// `serde_json::Map::get` with a `str` key: the value of that field, if the object has it.
#[verifier::external_body]
pub(crate) fn field<'a>(object: &'a serde_json::Map<String, Value>, key: &str) -> (value: Option<&'a Value>)
    ensures
        value is Some <==> json_fields(*object).contains_key(key@),
        value matches Some(held) ==> json_view(*held) == json_fields(*object)[key@],
{
    object.get(key)
}

/// The variant `serde_json::Value::String`: the JSON string with this text.
#[verifier::external_body]
pub(crate) fn text_value(text: String) -> (value: Value)
    ensures
        json_view(value) == JsonView::Text(text@),
{
    Value::String(text)
}

/// The variant `serde_json::Value::Null`: the JSON null.
#[verifier::external_body]
pub(crate) fn null_value() -> (value: Value)
    ensures
        json_view(value) == JsonView::Null,
{
    Value::Null
}

/// The variant `serde_json::Value::Object`: the JSON object with these fields.
#[verifier::external_body]
pub(crate) fn object_value(object: serde_json::Map<String, Value>) -> (value: Value)
    ensures
        json_view(value) == JsonView::Object(json_fields(object)),
{
    Value::Object(object)
}

/// `serde_json::Value`'s `Clone`: a value with the same contents.
pub assume_specification[ <serde_json::Value as Clone>::clone ](value: &serde_json::Value) -> (copy: serde_json::Value)
    ensures
        json_view(copy) == json_view(*value),
;

/// `serde_json::Map`'s `Clone`: an object with the same fields.
pub assume_specification[ <serde_json::Map<String, serde_json::Value> as Clone>::clone ](object: &serde_json::Map<String, serde_json::Value>) -> (copy: serde_json::Map<String, serde_json::Value>)
    ensures
        json_fields(copy) == json_fields(*object),
;

/// `serde_json::Value`'s `Display`: the compact JSON text, without white space between tokens.
///
/// The text is determined by the contents alone: an object's fields are written in the order
/// of their names.
#[verifier::external_body]
pub(crate) fn json_string(value: &Value) -> (text: String)
    ensures
        text@ == json_text(json_view(*value)),
{
    value.to_string()
}

/// The text of a field; `None` if the field is missing or holds anything but a string.
pub open spec fn text_field_of(fields: Map<Seq<char>, JsonView>, key: Seq<char>) -> Option<Seq<char>> {
    if fields.contains_key(key) {
        fields[key].as_text()
    } else {
        None
    }
}

/// The truth value of a field; `None` if the field is missing or holds anything but a boolean.
pub open spec fn truth_field_of(fields: Map<Seq<char>, JsonView>, key: Seq<char>) -> Option<bool> {
    if fields.contains_key(key) {
        fields[key].as_truth()
    } else {
        None
    }
}

/// The fields of an object held in a field; `None` if the field is missing or holds anything
/// but an object.
pub open spec fn object_field_of(fields: Map<Seq<char>, JsonView>, key: Seq<char>) -> Option<
    Map<Seq<char>, JsonView>,
> {
    if fields.contains_key(key) {
        fields[key].as_fields()
    } else {
        None
    }
}

/// Reads a field that holds a string.
pub fn text_field<'a>(object: &'a serde_json::Map<String, Value>, key: &str) -> (text: Option<&'a str>)
    ensures
        text.deep_view() == text_field_of(json_fields(*object), key@),
{
    match field(object, key) {
        Some(value) => value.as_str(),
        None => None,
    }
}

/// Reads a field that holds a boolean.
pub fn truth_field(object: &serde_json::Map<String, Value>, key: &str) -> (truth: Option<bool>)
    ensures
        truth == truth_field_of(json_fields(*object), key@),
{
    match field(object, key) {
        Some(value) => value.as_bool(),
        None => None,
    }
}

/// Reads a field that holds an object.
pub fn object_field<'a>(object: &'a serde_json::Map<String, Value>, key: &str) -> (fields: Option<&'a serde_json::Map<String, Value>>)
    ensures
        fields is Some <==> object_field_of(json_fields(*object), key@) is Some,
        fields matches Some(held) ==> Some(json_fields(*held)) == object_field_of(json_fields(*object), key@),
{
    match field(object, key) {
        Some(value) => value.as_object(),
        None => None,
    }
}

} // verus!
