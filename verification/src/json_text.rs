//! Reading JSON text into the library's JSON model.

use vstd::prelude::*;
use crate::json::{Json, JsonV};

verus! {

/// The JSON reader's own value type.
#[verifier::external_type_specification]
#[verifier::external_body]
pub struct ExJsonValue(serde_json::Value);

/// Names what `serde_json::from_str::<serde_json::Value>` makes of a text:
/// the value it reads, taken entry for entry into the library's model, or
/// the text of the error it reports.
pub uninterp spec fn json_text_parse(text: Seq<char>) -> Result<JsonV, Seq<char>>;

/// The library's result view of a parse.
pub open spec fn json_result(r: Result<Json, String>) -> Result<JsonV, Seq<char>> {
    match r {
        Ok(j) => Ok(j@),
        Err(e) => Err(e@),
    }
}

/// Takes a `serde_json::Value` into the library's model, variant for
/// variant (a number keeps the text the JSON writer prints for it).
#[verifier::external_body]
fn json_from_value(v: &serde_json::Value) -> Json {
    match v {
        serde_json::Value::Null => Json::Null,
        serde_json::Value::Bool(b) => Json::Bool(*b),
        serde_json::Value::Number(n) => Json::Number(n.to_string()),
        serde_json::Value::String(s) => Json::Str(s.clone()),
        serde_json::Value::Array(a) => Json::Array(a.iter().map(json_from_value).collect()),
        serde_json::Value::Object(o) => Json::Object(o.iter().map(|(k, x)| (k.clone(), json_from_value(x))).collect()),
    }
}

/// `serde_json::from_str::<serde_json::Value>`: the contract claims only
/// that the result, or the error's text, is what `json_text_parse` names
/// for the text.
#[verifier::external_body]
pub(crate) fn parse_json(text: &str) -> (r: Result<Json, String>)
    ensures
        json_result(r) == json_text_parse(text@),
{
    match serde_json::from_str::<serde_json::Value>(text) {
        Ok(v) => Ok(json_from_value(&v)),
        Err(e) => Err(e.to_string()),
    }
}

} // verus!
