//! The JSON parser of the `serde_json` crate, and what it returns as a
//! [`Json`] value.

use vstd::prelude::*;

use crate::double::Double;
use crate::json;
use crate::json::{Json, JsonModel, JsonNumber};

verus! {

// ------------------------------------------------------------ serde_json

/// The JSON value of `serde_json`.
#[verifier::external_type_specification]
#[verifier::external_body]
pub struct ExValue(serde_json::Value);

/// The parse error of `serde_json`.
#[verifier::external_type_specification]
#[verifier::external_body]
pub struct ExError(serde_json::Error);

/// What a value of `serde_json` holds.
pub uninterp spec fn value_model(value: serde_json::Value) -> JsonModel;

/// What `serde_json` reads a text as: a JSON value, or none where the text is
/// not JSON.
pub uninterp spec fn text_document(text: Seq<char>) -> Option<JsonModel>;

/// What `serde_json` reads bytes as: a JSON value, or none where the bytes are
/// not JSON.
pub uninterp spec fn bytes_document(bytes: Seq<u8>) -> Option<JsonModel>;

/// Calls `serde_json::from_str`, which parses a text as one JSON value. What
/// it returns depends on the text alone.
#[verifier::external_body]
fn value_from_text(text: &str) -> (res: Result<serde_json::Value, serde_json::Error>)
    ensures
        text_document(text@) == (match res {
            Ok(value) => Some(value_model(value)),
            Err(_) => None,
        }),
{
    serde_json::from_str(text)
}

/// Calls `serde_json::from_slice`, which parses bytes as one JSON value. What
/// it returns depends on the bytes alone.
#[verifier::external_body]
fn value_from_bytes(bytes: &[u8]) -> (res: Result<serde_json::Value, serde_json::Error>)
    ensures
        bytes_document(bytes@) == (match res {
            Ok(value) => Some(value_model(value)),
            Err(_) => None,
        }),
{
    serde_json::from_slice(bytes)
}

/// Calls `serde_json::Value::is_null`, which is true of `null` alone.
#[verifier::external_body]
fn value_is_null(value: &serde_json::Value) -> (res: bool)
    ensures
        res == (value_model(*value) is Null),
{
    value.is_null()
}

/// Calls `serde_json::Value::as_bool`, which returns the truth value of a
/// boolean and nothing for any other value.
#[verifier::external_body]
fn value_as_bool(value: &serde_json::Value) -> (res: Option<bool>)
    ensures
        res == (match value_model(*value) {
            JsonModel::Bool(b) => Some(b),
            _ => None,
        }),
{
    value.as_bool()
}

/// Calls `serde_json::Value::as_str`, which returns the characters of a string
/// and nothing for any other value.
#[verifier::external_body]
fn value_as_text(value: &serde_json::Value) -> (res: Option<&str>)
    ensures
        match value_model(*value) {
            JsonModel::Text(text) => res matches Some(s) && s@ == text,
            _ => res is None,
        },
{
    value.as_str()
}

/// Calls `serde_json::Value::as_i64`, which returns the integer of a number
/// that reads as one and nothing for any other value.
#[verifier::external_body]
fn value_as_integer(value: &serde_json::Value) -> (res: Option<i64>)
    ensures
        res == (match value_model(*value) {
            JsonModel::Number(number) => number.integer,
            _ => None,
        }),
{
    value.as_i64()
}

/// Calls `serde_json::Value::as_f64`, which returns a number as a binary64
/// number and nothing for any other value. The numbers of `serde_json` are
/// always finite.
#[verifier::external_body]
fn value_as_double(value: &serde_json::Value) -> (res: Option<Double>)
    ensures
        res == (match value_model(*value) {
            JsonModel::Number(number) => number.double,
            _ => None,
        }),
        res matches Some(double) ==> double@ is Finite,
{
    match value.as_f64() {
        Some(number) => Some(Double { bits: number.to_bits() }),
        None => None,
    }
}

/// Calls `serde_json::Value::as_array`, which returns the items of an array
/// and nothing for any other value.
#[verifier::external_body]
fn value_as_array(value: &serde_json::Value) -> (res: Option<&Vec<serde_json::Value>>)
    ensures
        match value_model(*value) {
            JsonModel::Array(models) => res matches Some(items) && models == items@.map_values(
                |item: serde_json::Value| value_model(item),
            ),
            _ => res is None,
        },
{
    value.as_array()
}

/// The map that the given entries make up.
pub open spec fn entries_model(entries: Seq<(&String, &serde_json::Value)>) -> Map<
    Seq<char>,
    JsonModel,
>
    decreases entries.len(),
{
    if entries.len() == 0 {
        Map::empty()
    } else {
        entries_model(entries.drop_last()).insert(
            entries.last().0@,
            value_model(*entries.last().1),
        )
    }
}

/// Calls `serde_json::Value::as_object`, which returns the members of an object
/// and nothing for any other value, and hands out the entries of its map. No
/// two entries of a map have the same key; their order is left open.
#[verifier::external_body]
fn value_entries(value: &serde_json::Value) -> (res: Option<Vec<(&String, &serde_json::Value)>>)
    ensures
        match value_model(*value) {
            JsonModel::Object(members) => res matches Some(entries) && {
                &&& members == entries_model(entries@)
                &&& forall|i: int, j: int|
                    0 <= i < j < entries@.len() ==> entries@[i].0@ != entries@[j].0@
            },
            _ => res is None,
        },
{
    match value.as_object() {
        Some(map) => Some(map.iter().collect()),
        None => None,
    }
}

// ------------------------------------------------------------- conversion

/// Entries with different keys are all found in the map that they make up.
proof fn lemma_entries_model(entries: Seq<(&String, &serde_json::Value)>, i: int)
    requires
        0 <= i < entries.len(),
        forall|i: int, j: int| 0 <= i < j < entries.len() ==> entries[i].0@ != entries[j].0@,
    ensures
        entries_model(entries).dom().finite(),
        entries_model(entries).contains_key(entries[i].0@),
        entries_model(entries)[entries[i].0@] == value_model(*entries[i].1),
    decreases entries.len(),
{
    let rest = entries.drop_last();
    if i < entries.len() - 1 {
        assert forall|i: int, j: int| 0 <= i < j < rest.len() implies rest[i].0@ != rest[j].0@ by {
            assert(rest[i] == entries[i] && rest[j] == entries[j]);
        }
        lemma_entries_model(rest, i);
        assert(rest[i] == entries[i]);
    } else {
        lemma_entries_finite(rest);
    }
}

proof fn lemma_entries_finite(entries: Seq<(&String, &serde_json::Value)>)
    ensures
        entries_model(entries).dom().finite(),
    decreases entries.len(),
{
    if entries.len() > 0 {
        lemma_entries_finite(entries.drop_last());
    }
}

/// The value of `serde_json` as a [`Json`] value.
fn json_of(value: &serde_json::Value) -> (res: Json)
    ensures
        res.model() == value_model(*value),
        res.is_finite(),
    decreases value_model(*value),
{
    if value_is_null(value) {
        return Json::Null;
    }
    if let Some(b) = value_as_bool(value) {
        return Json::Bool(b);
    }
    if let Some(text) = value_as_text(value) {
        return Json::Text(text.to_owned());
    }
    if let Some(items) = value_as_array(value) {
        let ghost models = value_model(*value)->Array_0;
        let mut converted: Vec<Json> = Vec::new();
        let mut i: usize = 0;
        while i < items.len()
            invariant
                i <= items@.len(),
                value_model(*value) == JsonModel::Array(models),
                models == items@.map_values(|item: serde_json::Value| value_model(item)),
                converted@.len() == i,
                json::items_model(converted@) == models.take(i as int),
                forall|j: int| 0 <= j < i ==> (#[trigger] converted@[j]).is_finite(),
            decreases items@.len() - i,
        {
            assert(models[i as int] == value_model(items@[i as int]));
            assert(decreases_to!(value_model(*value) => value_model(*value)->Array_0));
            assert(decreases_to!(models => models[i as int]));
            let ghost before = converted@;
            let item = json_of(&items[i]);
            converted.push(item);
            assert(converted@.drop_last() == before);
            assert(models.take(i + 1) == models.take(i as int).push(models[i as int]));
            i += 1;
        }
        assert(models.take(models.len() as int) == models);
        return Json::Array(converted);
    }
    if let Some(entries) = value_entries(value) {
        let ghost members = value_model(*value)->Object_0;
        let mut converted: Vec<(String, Json)> = Vec::new();
        let mut i: usize = 0;
        while i < entries.len()
            invariant
                i <= entries@.len(),
                value_model(*value) == JsonModel::Object(members),
                members == entries_model(entries@),
                forall|i: int, j: int|
                    0 <= i < j < entries@.len() ==> entries@[i].0@ != entries@[j].0@,
                converted@.len() == i,
                json::members_model(converted@) == entries_model(entries@.take(i as int)),
                forall|j: int| 0 <= j < i ==> (#[trigger] converted@[j]).1.is_finite(),
            decreases entries@.len() - i,
        {
            let entry = &entries[i];
            proof {
                lemma_entries_model(entries@, i as int);
                assert(decreases_to!(value_model(*value) => value_model(*value)->Object_0));
                assert(decreases_to!(members => members[entries@[i as int].0@]));
            }
            let ghost before = converted@;
            let item = json_of(entry.1);
            converted.push((entry.0.clone(), item));
            assert(converted@.drop_last() == before);
            assert(entries@.take(i + 1).drop_last() == entries@.take(i as int));
            i += 1;
        }
        assert(entries@.take(entries@.len() as int) == entries@);
        return Json::Object(converted);
    }
    Json::Number(
        JsonNumber { integer: value_as_integer(value), double: value_as_double(value) },
    )
}

/// Parses a text as one JSON value.
pub fn parse_json_text(text: &str) -> (res: Option<Json>)
    ensures
        match res {
            Some(value) => text_document(text@) == Some(value.model()) && value.is_finite(),
            None => text_document(text@) is None,
        },
{
    match value_from_text(text) {
        Ok(value) => Some(json_of(&value)),
        Err(_) => None,
    }
}

/// Parses bytes as one JSON value.
pub fn parse_json_bytes(bytes: &[u8]) -> (res: Option<Json>)
    ensures
        match res {
            Some(value) => bytes_document(bytes@) == Some(value.model()) && value.is_finite(),
            None => bytes_document(bytes@) is None,
        },
{
    match value_from_bytes(bytes) {
        Ok(value) => Some(json_of(&value)),
        Err(_) => None,
    }
}

} // verus!
