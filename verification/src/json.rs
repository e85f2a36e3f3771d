//! The one question this crate asks a JSON parser: what kind of value, if
//! any, a text holds.

use vstd::prelude::*;

verus! {

/// The kind of a JSON value, as `serde_json::Value` distinguishes them.
#[derive(Debug, Clone, Copy, PartialEq, Eq)]
pub enum JsonKind {
    Null,
    Bool,
    Number,
    String,
    Array,
    Object,
}

/// What `serde_json::from_str::<serde_json::Value>` makes of `text`: the
/// kind of the value it parses, or the text of its error.
pub uninterp spec fn json_value_kind(text: Seq<char>) -> Result<JsonKind, Seq<char>>;

/// Parses `text` with `serde_json::from_str::<serde_json::Value>` and
/// reports the kind of the value, or the error's `Display` text. Believed:
/// the result is [`json_value_kind`] of the text; nothing is claimed of which
/// texts parse, which is serde_json's grammar.
#[verifier::external_body]
pub(crate) fn parse_json_kind(text: &str) -> (r: Result<JsonKind, String>)
    ensures
        match r {
            Ok(k) => json_value_kind(text@) == Ok::<JsonKind, Seq<char>>(k),
            Err(e) => json_value_kind(text@) == Err::<JsonKind, Seq<char>>(e@),
        },
{
    match serde_json::from_str::<serde_json::Value>(text) {
        Ok(serde_json::Value::Null) => Ok(JsonKind::Null),
        Ok(serde_json::Value::Bool(_)) => Ok(JsonKind::Bool),
        Ok(serde_json::Value::Number(_)) => Ok(JsonKind::Number),
        Ok(serde_json::Value::String(_)) => Ok(JsonKind::String),
        Ok(serde_json::Value::Array(_)) => Ok(JsonKind::Array),
        Ok(serde_json::Value::Object(_)) => Ok(JsonKind::Object),
        Err(e) => Err(e.to_string()),
    }
}

} // verus!
