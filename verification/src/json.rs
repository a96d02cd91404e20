//! JSON documents: a model of what a JSON value holds, and the calls into
//! `serde_json` that read and write one.
use serde_json::Value;
use vstd::prelude::*;

verus! {

/// What a JSON number holds.
pub enum NumberView {
    /// An integer from zero up.
    Unsigned(u64),
    /// An integer below zero.
    Negative(i64),
    /// A finite binary64 number, as its bits.
    Float(u64),
}

/// What a JSON value holds.
pub enum JsonView {
    Null,
    Bool(bool),
    Number(NumberView),
    Text(Seq<char>),
    Array(Seq<JsonView>),
    Object(Map<Seq<char>, JsonView>),
}

/// The number as an `i64`, where it is an integer that fits one.
pub open spec fn integer_in(n: NumberView) -> Option<i64> {
    match n {
        NumberView::Unsigned(u) => if u <= i64::MAX {
            Some(u as i64)
        } else {
            None
        },
        NumberView::Negative(i) => Some(i),
        NumberView::Float(_) => None,
    }
}

/// The JSON number that holds the integer `i`.
pub open spec fn integer_json(i: i64) -> JsonView {
    if i < 0 {
        JsonView::Number(NumberView::Negative(i))
    } else {
        JsonView::Number(NumberView::Unsigned(i as u64))
    }
}

/// The value of `doc` under `key`, where `doc` is an object that has one.
pub open spec fn member(doc: JsonView, key: Seq<char>) -> Option<JsonView> {
    match doc {
        JsonView::Object(members) => if members.dom().contains(key) {
            Some(members[key])
        } else {
            None
        },
        _ => None,
    }
}

/// A value that holds no other values.
pub open spec fn scalar(j: JsonView) -> bool {
    !(j is Array) && !(j is Object)
}

/// An object whose members hold no other values.
pub open spec fn flat_object(j: JsonView) -> bool {
    j matches JsonView::Object(members) && forall|key: Seq<char>|
        members.dom().contains(key) ==> scalar(#[trigger] members[key])
}

/// The members of an object, key by key.
pub open spec fn object_of(members: Seq<(String, Value)>) -> Map<Seq<char>, JsonView>
    decreases members.len(),
{
    if members.len() == 0 {
        Map::empty()
    } else {
        object_of(members.drop_last()).insert(members.last().0@, json_of(members.last().1))
    }
}

/// A JSON value of `serde_json`.
#[verifier::external_type_specification]
#[verifier::external_body]
pub struct ExValue(serde_json::Value);

/// What a `serde_json::Value` holds.
pub uninterp spec fn json_of(value: serde_json::Value) -> JsonView;

/// What `serde_json::from_str` reads out of a text as a JSON value; `None`
/// where it reports an error.
pub uninterp spec fn parsed_json(text: Seq<char>) -> Option<JsonView>;

/// The compact text that `serde_json` writes for a JSON value.
pub uninterp spec fn json_text(json: JsonView) -> Seq<char>;

/// `serde_json::from_str`, as a JSON value: what it returns depends on the
/// text alone.
#[verifier::external_body]
pub(crate) fn parse(text: &str) -> (r: Option<Value>)
    ensures
        match r {
            Some(value) => parsed_json(text@) == Some(json_of(value)),
            None => parsed_json(text@) is None,
        },
{
    serde_json::from_str(text).ok()
}

/// `serde_json::Value::get` with a string key: the member of an object under
/// that key, and `None` for a key it lacks and for every other value.
#[verifier::external_body]
pub(crate) fn get<'a>(doc: &'a Value, key: &str) -> (r: Option<&'a Value>)
    ensures
        match r {
            Some(value) => member(json_of(*doc), key@) == Some(json_of(*value)),
            None => member(json_of(*doc), key@) is None,
        },
{
    doc.get(key)
}

/// `serde_json::Value::as_str`: the text of a JSON string.
pub assume_specification[ serde_json::Value::as_str ](value: &serde_json::Value) -> (r: Option<
    &str,
>)
    ensures
        match r {
            Some(text) => json_of(*value) == JsonView::Text(text@),
            None => !(json_of(*value) is Text),
        },
;

/// `serde_json::Value::as_i64`: the integer of a JSON number, where it fits.
pub assume_specification[ serde_json::Value::as_i64 ](value: &serde_json::Value) -> (r: Option<i64>)
    ensures
        r == (match json_of(*value) {
            JsonView::Number(n) => integer_in(n),
            _ => None,
        }),
;

/// `serde_json::Value::Null`: the JSON null.
#[verifier::external_body]
pub(crate) fn null_value() -> (r: Value)
    ensures
        json_of(r) == JsonView::Null,
{
    Value::Null
}

/// `serde_json::Value::String`: a JSON string with the given text.
#[verifier::external_body]
pub(crate) fn text_value(text: String) -> (r: Value)
    ensures
        json_of(r) == JsonView::Text(text@),
{
    Value::String(text)
}

/// `serde_json::Value::from` on an `i64`: the JSON number with that integer.
#[verifier::external_body]
pub(crate) fn integer_value(i: i64) -> (r: Value)
    ensures
        json_of(r) == integer_json(i),
{
    Value::from(i)
}

/// `serde_json::Value::Array`: a JSON array of the given values, in order.
#[verifier::external_body]
pub(crate) fn array_value(items: Vec<Value>) -> (r: Value)
    ensures
        json_of(r) == JsonView::Array(items@.map_values(|item: Value| json_of(item))),
{
    Value::Array(items)
}

/// `serde_json::Value::from_iter` on pairs: a JSON object with the given
/// members.
#[verifier::external_body]
pub(crate) fn object_value(members: Vec<(String, Value)>) -> (r: Value)
    requires
        forall|i: int, j: int|
            0 <= i < j < members.len() ==> #[trigger] members[i].0@ != #[trigger] members[j].0@,
    ensures
        json_of(r) == JsonView::Object(object_of(members@)),
{
    members.into_iter().collect()
}

/// `serde_json::Value::to_string`: the compact text of a value, which depends
/// on what the value holds alone. `serde_json::from_str` reads the text of an
/// object of scalars back as the same object, binary64 numbers included: the
/// crate is built with the feature `float_roundtrip`. Nothing is claimed of
/// deeper values, which the reader refuses from some depth on.
#[verifier::external_body]
pub(crate) fn value_text(value: &Value) -> (r: String)
    ensures
        r@ == json_text(json_of(*value)),
        flat_object(json_of(*value)) ==> parsed_json(r@) == Some(json_of(*value)),
{
    value.to_string()
}

} // verus!
