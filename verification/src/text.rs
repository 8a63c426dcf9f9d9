//! JSON text, read by `serde_json`.

use crate::json::{Json, JsonValue, Number, Object};
use vstd::prelude::*;

verus! {

/// `serde_json::Error`, carried through and never looked into.
#[verifier::external_type_specification]
#[verifier::external_body]
pub struct ExJsonError(serde_json::Error);

/// `serde_json::Value`, looked into by [`import_tree`] alone.
#[verifier::external_type_specification]
#[verifier::external_body]
pub struct ExJsonTree(serde_json::Value);

/// The JSON value that a text spells, as `serde_json` reads it; `None` for a
/// text that it refuses.
pub uninterp spec fn json_text(text: Seq<char>) -> Option<Json>;

/// What a value of `serde_json` holds.
pub uninterp spec fn json_tree(tree: serde_json::Value) -> Json;

/// `serde_json::from_str`, asked for a `serde_json::Value`. Assumed: whether
/// it accepts a text, and the value it then gives, depend on the text alone.
#[verifier::external_body]
pub(crate) fn parse_text(text: &str) -> (parsed: Result<serde_json::Value, serde_json::Error>)
    ensures
        match parsed {
            Ok(tree) => json_text(text@) == Some(json_tree(tree)),
            Err(_) => json_text(text@) is None,
        },
{
    serde_json::from_str::<serde_json::Value>(text)
}

/// Copies a `serde_json::Value` into a [`JsonValue`], variant by variant. The
/// entries of an object come in the order in which `serde_json::Map::iter`
/// hands them out. A number for which `serde_json::Number::as_i64` has a
/// result is kept as that integer; any other number is kept as the text that
/// `serde_json::Number` prints. Assumed: what the copy holds depends on the
/// value alone, which is what [`json_tree`] names. The copy goes as deep as
/// the value does; `serde_json::from_str` gives none deeper than 128 levels.
#[verifier::external_body]
pub(crate) fn import_tree(tree: &serde_json::Value) -> (value: JsonValue)
    ensures
        value@ == json_tree(*tree),
{
    match tree {
        serde_json::Value::Null => JsonValue::Null,
        serde_json::Value::Bool(b) => JsonValue::Bool(*b),
        serde_json::Value::Number(n) => JsonValue::Number(
            n.as_i64().map_or_else(|| Number::Other(n.to_string()), Number::Int),
        ),
        serde_json::Value::String(s) => JsonValue::String(s.clone()),
        serde_json::Value::Array(a) => JsonValue::Array(a.iter().map(import_tree).collect()),
        serde_json::Value::Object(m) => JsonValue::Object(
            Object { entries: m.iter().map(|(k, v)| (k.clone(), import_tree(v))).collect() },
        ),
    }
}

} // verus!
