//! Trusted view of JSON values: `serde_json::Value` is opaque, so the shape
//! a value has is named by `json_rep`, and the accessors the registry loader
//! uses are specified against that shape.

use vstd::prelude::*;

verus! {

#[verifier::external_type_specification]
#[verifier::external_body]
pub struct ExValue(serde_json::Value);

/// The abstract shape of a JSON value: null, a boolean, a number (whose value
/// the loader never reads), text, a list, or a record keyed by field name.
pub enum JsonRep {
    Null,
    Truth(bool),
    Numeric,
    Text(Seq<char>),
    List(Seq<JsonRep>),
    Record(Map<Seq<char>, JsonRep>),
}

/// The shape of a parsed JSON value.
pub uninterp spec fn json_rep(v: serde_json::Value) -> JsonRep;

/// What parsing a text as JSON yields: `Some` shape when the text is valid
/// JSON, `None` when it is not. The outcome depends on the text alone.
pub uninterp spec fn json_doc_of(s: Seq<char>) -> Option<JsonRep>;

/// Relies on `serde_json::from_str::<Value>`: parses the text as one JSON
/// document, an error exactly when the text is not valid JSON.
#[verifier::external_body]
pub fn parse_json(s: &str) -> (r: Result<serde_json::Value, String>)
    ensures
        match r {
            Ok(v) => json_doc_of(s@) == Some(json_rep(v)),
            Err(_) => json_doc_of(s@) is None,
        },
{
    match serde_json::from_str::<serde_json::Value>(s) {
        Ok(v) => Ok(v),
        Err(e) => Err(e.to_string()),
    }
}

/// Relies on `serde_json::Value::as_array`: `Some` of the element vector
/// exactly when the value is an array.
#[verifier::external_body]
pub fn json_as_array<'a>(v: &'a serde_json::Value) -> (r: Option<&'a Vec<serde_json::Value>>)
    ensures
        match r {
            Some(a) => json_rep(*v) == JsonRep::List(
                a@.map_values(|x: serde_json::Value| json_rep(x)),
            ),
            None => !(json_rep(*v) is List),
        },
{
    v.as_array()
}

/// Relies on `serde_json::Value::as_str`: `Some` of the text exactly when the
/// value is a string.
#[verifier::external_body]
pub fn json_as_str<'a>(v: &'a serde_json::Value) -> (r: Option<&'a str>)
    ensures
        match r {
            Some(s) => json_rep(*v) == JsonRep::Text(s@),
            None => !(json_rep(*v) is Text),
        },
{
    v.as_str()
}

/// Relies on `serde_json::Value::get` with a string index: on an object,
/// `Some` of the field named `key` exactly when the field is there; on any
/// other value, `None`.
#[verifier::external_body]
pub fn json_get<'a>(v: &'a serde_json::Value, key: &str) -> (r: Option<&'a serde_json::Value>)
    ensures
        match json_rep(*v) {
            JsonRep::Record(m) => match r {
                Some(x) => m.contains_key(key@) && json_rep(*x) == m[key@],
                None => !m.contains_key(key@),
            },
            _ => r is None,
        },
{
    v.get(key)
}

} // verus!
