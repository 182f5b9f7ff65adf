//! JSON text, read and written by `serde_json`.
use vstd::prelude::*;

use crate::json::{Json, JsonObject, JsonTree};

verus! {

/// The value type of `serde_json`: a tree that only `serde_json` looks into.
#[verifier::external_type_specification]
#[verifier::external_body]
pub struct ExJsonValue(serde_json::Value);

/// The number type of `serde_json`, which may be a float: carried as it is.
#[verifier::external_type_specification]
#[verifier::external_body]
pub struct ExJsonNumber(serde_json::Number);

/// The error type of `serde_json`: what it says is its message.
#[verifier::external_type_specification]
#[verifier::external_body]
pub struct ExJsonError(serde_json::Error);

/// What a value of `serde_json` holds.
pub uninterp spec fn value_tree(value: serde_json::Value) -> JsonTree;

/// The text in which a number of `serde_json` is written in a document.
pub uninterp spec fn number_text(number: serde_json::Number) -> Seq<char>;

/// The message of an error of `serde_json`.
pub uninterp spec fn error_message(error: serde_json::Error) -> Seq<char>;

/// The document that `serde_json::from_slice` reads from bytes, or the message with which it
/// refuses them.
pub uninterp spec fn parsed_json(body: Seq<u8>) -> Result<JsonTree, Seq<char>>;

/// The document that `serde_json::from_str` reads from a text, or the message with which it
/// refuses it.
pub uninterp spec fn parsed_json_text(text: Seq<char>) -> Result<JsonTree, Seq<char>>;

/// The bytes that `serde_json::to_vec` writes for a document.
pub uninterp spec fn serialized_json(tree: JsonTree) -> Seq<u8>;

/// One level of a value of `serde_json`.
enum Layer {
    Null,
    Bool(bool),
    Number(serde_json::Number),
    Text(String),
    Array(Vec<serde_json::Value>),
    Object(Vec<(String, serde_json::Value)>),
}

/// What a level and the values below it hold.
spec fn layer_tree(layer: Layer) -> JsonTree {
    match layer {
        Layer::Null => JsonTree::Null,
        Layer::Bool(b) => JsonTree::Bool(b),
        Layer::Number(number) => JsonTree::Number(number_text(number)),
        Layer::Text(text) => JsonTree::Text(text@),
        Layer::Array(items) => JsonTree::Array(
            items@.map_values(|item: serde_json::Value| value_tree(item)),
        ),
        Layer::Object(members) => JsonTree::Object(
            members@.map_values(
                |member: (String, serde_json::Value)| (member.0@, value_tree(member.1)),
            ),
        ),
    }
}

/// Where a level is an object, its keys ascend.
spec fn layer_ascends(layer: Layer) -> bool {
    layer matches Layer::Object(members) ==> forall|i: int, j: int|
        0 <= i < j < members@.len() ==> crate::text::text_before(
            (#[trigger] members@[i]).0@,
            (#[trigger] members@[j]).0@,
        )
}

/// `serde_json::from_slice`, read into its value type: what comes back is named by
/// `parsed_json`, the value by what it holds and the error by its message.
#[verifier::external_body]
fn read_bytes(body: &[u8]) -> (result: Result<serde_json::Value, serde_json::Error>)
    ensures
        match result {
            Ok(value) => parsed_json(body@) == Ok::<JsonTree, Seq<char>>(value_tree(value)),
            Err(error) => parsed_json(body@) == Err::<JsonTree, Seq<char>>(error_message(error)),
        },
{
    serde_json::from_slice(body)
}

/// `serde_json::from_str`, read into its value type: what comes back is named by
/// `parsed_json_text`, the value by what it holds and the error by its message.
#[verifier::external_body]
fn read_text(text: &str) -> (result: Result<serde_json::Value, serde_json::Error>)
    ensures
        match result {
            Ok(value) => parsed_json_text(text@) == Ok::<JsonTree, Seq<char>>(value_tree(value)),
            Err(error) => parsed_json_text(text@) == Err::<JsonTree, Seq<char>>(error_message(error)),
        },
{
    serde_json::from_str(text)
}

/// `serde_json::to_vec` on its value type. It succeeds on every value: the keys of an object are
/// strings, and writing to a vector does not fail. The bytes, named by `serialized_json`, depend
/// on what the value holds alone.
#[verifier::external_body]
fn write_bytes(value: &serde_json::Value) -> (result: Result<Vec<u8>, serde_json::Error>)
    ensures
        result is Ok,
        result->Ok_0@ == serialized_json(value_tree(*value)),
{
    serde_json::to_vec(value)
}

/// `to_string` of `serde_json::Error`: its message, named by `error_message`.
#[verifier::external_body]
pub(crate) fn error_text(error: &serde_json::Error) -> (text: String)
    ensures
        text@ == error_message(*error),
{
    error.to_string()
}

/// The variants of `serde_json::Value`, told apart. The map of an object gives its members in
/// ascending order of the keys, each key once.
#[verifier::external_body]
fn open_value(value: serde_json::Value) -> (layer: Layer)
    ensures
        layer_tree(layer) == value_tree(value),
        layer_ascends(layer),
{
    match value {
        serde_json::Value::Null => Layer::Null,
        serde_json::Value::Bool(b) => Layer::Bool(b),
        serde_json::Value::Number(number) => Layer::Number(number),
        serde_json::Value::String(text) => Layer::Text(text),
        serde_json::Value::Array(items) => Layer::Array(items),
        serde_json::Value::Object(members) => Layer::Object(members.into_iter().collect()),
    }
}

/// A `serde_json::Value` made of one of its variants. The map of an object holds the members that
/// it is collected from, where no key occurs twice, in ascending order of the keys.
#[verifier::external_body]
fn close_value(layer: Layer) -> (value: serde_json::Value)
    requires
        layer_ascends(layer),
    ensures
        value_tree(value) == layer_tree(layer),
{
    match layer {
        Layer::Null => serde_json::Value::Null,
        Layer::Bool(b) => serde_json::Value::Bool(b),
        Layer::Number(number) => serde_json::Value::Number(number),
        Layer::Text(text) => serde_json::Value::String(text),
        Layer::Array(items) => serde_json::Value::Array(items),
        Layer::Object(members) => serde_json::Value::Object(members.into_iter().collect()),
    }
}

/// `serde_json::Number::as_i64`: the integer, where the number is written as one that fits in 64
/// bits with a sign. A float is never written so: its text has a point or an exponent.
#[verifier::external_body]
pub(crate) fn number_as_i64(number: &serde_json::Number) -> (result: Option<i64>)
    ensures
        match result {
            Some(n) => number_text(*number) == crate::text::decimal(n as int),
            None => forall|n: i64|
                number_text(*number) != #[trigger] crate::text::decimal(n as int),
        },
{
    number.as_i64()
}

/// `serde_json::Number::from` on an integer of 64 bits, which is written in decimal.
#[verifier::external_body]
pub(crate) fn number_from_i64(n: i64) -> (number: serde_json::Number)
    ensures
        number_text(number) == crate::text::decimal(n as int),
{
    serde_json::Number::from(n)
}

/// `Clone` of `serde_json::Number`: the copy is written as the number is.
#[verifier::external_body]
pub(crate) fn clone_number(number: &serde_json::Number) -> (copy: serde_json::Number)
    ensures
        number_text(copy) == number_text(*number),
{
    number.clone()
}

/// The document that a value of `serde_json` holds.
fn json_from_value(value: serde_json::Value) -> (json: Json)
    ensures
        json@ == value_tree(value),
    decreases value_tree(value),
{
    let ghost tree = value_tree(value);
    match open_value(value) {
        Layer::Null => Json::Null,
        Layer::Bool(b) => Json::Bool(b),
        Layer::Number(number) => Json::Number(number),
        Layer::Text(text) => Json::Text(text),
        Layer::Array(values) => {
            let ghost all = values@;
            let mut items: Vec<Json> = Vec::new();
            for item in iter: values.into_iter()
                invariant
                    iter.seq() == all,
                    tree == value_tree(value),
                    tree == JsonTree::Array(all.map_values(|item: serde_json::Value| value_tree(item))),
                    items@.len() == iter.index(),
                    forall|j: int| 0 <= j < items@.len() ==> (#[trigger] items@[j])@ == value_tree(all[j]),
            {
                assert(tree->Array_0[iter.index() as int] == value_tree(item));
                assert(decreases_to!(tree => tree->Array_0));
                assert(decreases_to!(tree->Array_0 => tree->Array_0[iter.index() as int]));
                items.push(json_from_value(item));
            }
            assert(items@.map_values(|item: Json| item@) =~= tree->Array_0);
            Json::from_items(items)
        },
        Layer::Object(members) => {
            let ghost all = members@;
            let mut object = JsonObject::new();
            for member in iter: members.into_iter()
                invariant
                    iter.seq() == all,
                    tree == value_tree(value),
                    tree == JsonTree::Object(
                        all.map_values(
                            |member: (String, serde_json::Value)| (member.0@, value_tree(member.1)),
                        ),
                    ),
                    forall|i: int, j: int|
                        0 <= i < j < all.len() ==> crate::text::text_before(
                            (#[trigger] all[i]).0@,
                            (#[trigger] all[j]).0@,
                        ),
                    object@.len() == iter.index(),
                    forall|j: int|
                        0 <= j < object@.len() ==> #[trigger] object@[j] == (all[j].0@, value_tree(all[j].1)),
            {
                let ghost i = iter.index() as int;
                assert(tree->Object_0[i] == (member.0@, value_tree(member.1)));
                assert(decreases_to!(tree => tree->Object_0));
                assert(decreases_to!(tree->Object_0 => tree->Object_0[i]));
                assert(decreases_to!(tree->Object_0[i] => tree->Object_0[i].1));
                assert forall|j: int| 0 <= j < object@.len() implies crate::text::text_before(
                    (#[trigger] object@[j]).0,
                    member.0@,
                ) by {
                    assert(crate::text::text_before(all[j].0@, all[i].0@));
                }
                let (key, inner) = member;
                object.push(key, json_from_value(inner));
            }
            assert(object@ =~= tree->Object_0);
            Json::Object(object)
        },
    }
}

/// A value of `serde_json` that holds the document.
fn value_from_json(json: &Json) -> (value: serde_json::Value)
    ensures
        value_tree(value) == json@,
    decreases json,
{
    match json {
        Json::Null => close_value(Layer::Null),
        Json::Bool(b) => close_value(Layer::Bool(*b)),
        Json::Number(number) => close_value(Layer::Number(clone_number(number))),
        Json::Text(text) => close_value(Layer::Text(text.clone())),
        Json::Array(items) => {
            let mut values: Vec<serde_json::Value> = Vec::new();
            for i in 0..items.len()
                invariant
                    *json == Json::Array(*items),
                    values@.len() == i,
                    forall|j: int| 0 <= j < i ==> value_tree(#[trigger] values@[j]) == items@[j]@,
            {
                assert(decreases_to!(json => (*json)->Array_0));
                assert(decreases_to!(json => items@[i as int]));
                values.push(value_from_json(&items[i]));
            }
            let ghost layer = Layer::Array(values);
            assert(layer_tree(layer)->Array_0 =~= json@->Array_0);
            close_value(Layer::Array(values))
        },
        Json::Object(object) => {
            let mut members: Vec<(String, serde_json::Value)> = Vec::new();
            let len = object.len();
            for i in 0..len
                invariant
                    *json == Json::Object(*object),
                    len == object@.len(),
                    members@.len() == i,
                    forall|j: int|
                        0 <= j < i ==> (#[trigger] members@[j]).0@ == object@[j].0 && value_tree(members@[j].1)
                            == object@[j].1,
            {
                assert(decreases_to!(json => (*json)->Object_0));
                members.push((object.key(i).to_owned(), value_from_json(object.value(i))));
            }
            let ghost layer = Layer::Object(members);
            assert(layer_tree(layer)->Object_0 =~= object@);
            assert forall|i: int, j: int| 0 <= i < j < members@.len() implies crate::text::text_before(
                (#[trigger] members@[i]).0@,
                (#[trigger] members@[j]).0@,
            ) by {
                assert(crate::text::text_before(object@[i].0, object@[j].0));
            }
            close_value(Layer::Object(members))
        },
    }
}

impl Json {
    /// Reads a document from bytes.
    pub fn from_bytes(body: &[u8]) -> (result: Result<Json, String>)
        ensures
            match result {
                Ok(json) => parsed_json(body@) == Ok::<JsonTree, Seq<char>>(json@),
                Err(message) => parsed_json(body@) == Err::<JsonTree, Seq<char>>(message@),
            },
    {
        match read_bytes(body) {
            Ok(value) => Ok(json_from_value(value)),
            Err(error) => Err(error_text(&error)),
        }
    }

    /// Reads a document from a text.
    pub fn from_str(text: &str) -> (result: Result<Json, String>)
        ensures
            match result {
                Ok(json) => parsed_json_text(text@) == Ok::<JsonTree, Seq<char>>(json@),
                Err(message) => parsed_json_text(text@) == Err::<JsonTree, Seq<char>>(message@),
            },
    {
        match read_text(text) {
            Ok(value) => Ok(json_from_value(value)),
            Err(error) => Err(error_text(&error)),
        }
    }

    /// Writes the document as bytes.
    pub fn to_bytes(&self) -> (result: Result<Vec<u8>, String>)
        ensures
            result is Ok,
            result->Ok_0@ == serialized_json(self@),
    {
        match write_bytes(&value_from_json(self)) {
            Ok(bytes) => Ok(bytes),
            Err(error) => Err(error_text(&error)),
        }
    }
}

} // verus!
