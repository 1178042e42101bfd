//! The crate's only window onto JSON: `serde_json::Value` carried through as
//! an opaque value, with trusted wrappers around serialization and parsing.
//!
//! Serializing a JSON value, and parsing JSON text, are functions of their
//! argument alone; their results are named by the uninterpreted spec
//! functions [`json_serialized`] and [`json_parsed`] so that contracts can
//! speak of them exactly without restating the JSON grammar.

use vstd::prelude::*;

verus! {

#[verifier::external_type_specification]
#[verifier::external_body]
pub struct ExJsonValue(serde_json::Value);

/// What serializing a JSON value to text returns: the canonical JSON text,
/// or an error message.
pub uninterp spec fn json_serialized(v: serde_json::Value) -> Result<Seq<char>, Seq<char>>;

/// What parsing text as JSON returns: the parsed value if the text is valid
/// JSON, otherwise a parse-error message.
pub uninterp spec fn json_parsed(s: Seq<char>) -> Result<serde_json::Value, Seq<char>>;

/// Relies on serde_json's derived Clone for Value: a clone is the same JSON
/// value.
pub assume_specification[ <serde_json::Value as Clone>::clone ](v: &serde_json::Value) -> (r:
    serde_json::Value)
    ensures
        r == *v,
;

/// Relies on serde_json::to_string: serializes a JSON value to JSON text;
/// the outcome depends on the value alone. The error, if any, is handed on
/// as its display text.
#[verifier::external_body]
pub(crate) fn serialize_json(v: &serde_json::Value) -> (r: Result<String, String>)
    ensures
        r is Ok <==> json_serialized(*v) is Ok,
        r matches Ok(s) ==> s@ == json_serialized(*v)->Ok_0,
        r matches Err(e) ==> e@ == json_serialized(*v)->Err_0,
{
    match serde_json::to_string(v) {
        Ok(s) => Ok(s),
        Err(e) => Err(e.to_string()),
    }
}

/// Relies on serde_json::from_str: parses text as a JSON value; the outcome
/// depends on the text alone, and the two object literals used by this crate
/// are documented valid JSON. The error, if any, is handed on as its display
/// text.
#[verifier::external_body]
pub(crate) fn parse_json(s: &str) -> (r: Result<serde_json::Value, String>)
    ensures
        r is Ok <==> json_parsed(s@) is Ok,
        r matches Ok(v) ==> v == json_parsed(s@)->Ok_0,
        r matches Err(e) ==> e@ == json_parsed(s@)->Err_0,
        s@ == "{}"@ ==> r is Ok,
        s@ == "{\"type\":\"object\"}"@ ==> r is Ok,
{
    match serde_json::from_str::<serde_json::Value>(s) {
        Ok(v) => Ok(v),
        Err(e) => Err(e.to_string()),
    }
}

} // verus!
