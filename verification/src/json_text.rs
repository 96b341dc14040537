//! Reading JSON and YAML texts into the library's JSON values, through
//! `serde_json` and `serde_yaml`.
use vstd::prelude::*;

use crate::json::{Json, JsonNumber, JsonValue};
use serde_json::Value;

verus! {

/// `serde_json`'s generic value, carried only inside the readers below.
#[verifier::external_type_specification]
#[verifier::external_body]
pub struct ExSerdeValue(serde_json::Value);

/// What `serde_json::from_str::<serde_json::Value>` reads a text as, in the
/// library's model: nothing when the text is no JSON. It depends on the
/// text alone.
pub uninterp spec fn json_parsed(text: Seq<char>) -> Option<Json>;

/// What `serde_yaml::from_str::<serde_json::Value>` reads a text as, in the
/// library's model: nothing when the text is no YAML (or holds what JSON
/// cannot). It depends on the text alone.
pub uninterp spec fn yaml_json(text: Seq<char>) -> Option<Json>;

/// Carries a `serde_json::Value` over into a `JsonValue` one for one:
/// null, booleans, strings, arrays and objects (in the map's order) as they
/// are; a number as an unsigned integer when it is one, else as a signed
/// integer when it is one, else as its decimal text. Only the readers
/// below call it, and their names speak of what it gives.
#[verifier::external_body]
fn from_serde_value(v: &serde_json::Value) -> JsonValue {
    match v {
        Value::Null => JsonValue::Null,
        Value::Bool(b) => JsonValue::Bool(*b),
        Value::Number(n) => JsonValue::Number(match (n.as_u64(), n.as_i64()) {
            (Some(u), _) => JsonNumber::PosInt(u),
            (None, Some(i)) => JsonNumber::NegInt(i),
            (None, None) => JsonNumber::Float(n.to_string()),
        }),
        Value::String(s) => JsonValue::String(s.clone()),
        Value::Array(a) => JsonValue::Array(a.iter().map(from_serde_value).collect()),
        Value::Object(m) => JsonValue::Object(m.iter().map(|(k, x)| (k.clone(), from_serde_value(x))).collect()),
    }
}

/// Calls `serde_json::from_str::<serde_json::Value>`; the value read is
/// named `json_parsed`, and a refusal comes with the error's text.
#[verifier::external_body]
pub(crate) fn parse_json(text: &str) -> (r: Result<JsonValue, String>)
    ensures
        match r {
            Ok(v) => json_parsed(text@) == Some(v@),
            Err(_) => json_parsed(text@) is None,
        },
{
    match serde_json::from_str::<serde_json::Value>(text) {
        Ok(v) => Ok(from_serde_value(&v)),
        Err(e) => Err(e.to_string()),
    }
}

/// Calls `serde_yaml::from_str::<serde_json::Value>`; the value read is
/// named `yaml_json`, and a refusal comes with the error's text.
#[verifier::external_body]
pub(crate) fn parse_yaml_json(text: &str) -> (r: Result<JsonValue, String>)
    ensures
        match r {
            Ok(v) => yaml_json(text@) == Some(v@),
            Err(_) => yaml_json(text@) is None,
        },
{
    match serde_yaml::from_str::<serde_json::Value>(text) {
        Ok(v) => Ok(from_serde_value(&v)),
        Err(e) => Err(e.to_string()),
    }
}

/// The text `serde_json::to_string` writes for a JSON value in the
/// library's model, carried over into a `serde_json::Value`. It depends on
/// the value alone.
pub uninterp spec fn json_serialized(v: Json) -> Seq<char>;

/// Carries a `JsonValue` over into a `serde_json::Value` one for one:
/// null, booleans, strings and arrays as they are; integers as integers; a
/// decimal text as the number serde_json reads it as (null when it
/// reads as none); object fields inserted in order into serde_json's map. Only
/// `json_text` calls it.
#[verifier::external_body]
fn to_serde_value(v: &JsonValue) -> Value {
    match v {
        JsonValue::Null => Value::Null,
        JsonValue::Bool(b) => Value::Bool(*b),
        JsonValue::Number(JsonNumber::PosInt(u)) => Value::from(*u),
        JsonValue::Number(JsonNumber::NegInt(i)) => Value::from(*i),
        JsonValue::Number(JsonNumber::Float(t)) => t.parse::<serde_json::Number>().map_or(Value::Null, Value::Number),
        JsonValue::String(s) => Value::String(s.clone()),
        JsonValue::Array(a) => Value::Array(a.iter().map(to_serde_value).collect()),
        JsonValue::Object(f) => Value::Object(f.iter().map(|(k, x)| (k.clone(), to_serde_value(x))).collect()),
    }
}

/// Calls `serde_json::to_string` on the value (which cannot fail for a
/// `serde_json::Value`); the text is named `json_serialized`.
#[verifier::external_body]
pub(crate) fn json_text(v: &JsonValue) -> (r: String)
    ensures
        r@ == json_serialized(v@),
{
    serde_json::to_string(&to_serde_value(v)).unwrap_or_default()
}

} // verus!
