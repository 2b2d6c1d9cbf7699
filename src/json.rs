//! The JSON boundary. Parsing and serialising are done by `serde_json`;
//! each call stands behind a small wrapper whose result is named here.
use vstd::prelude::*;
use crate::text::opt_view;

verus! {

/// The string that JSON pointer `pointer` reaches in document `doc`, when
/// `doc` parses and that value is a JSON string.
pub uninterp spec fn json_string_at(doc: Seq<char>, pointer: Seq<char>) -> Option<Seq<char>>;

/// The compact serialisation of the value that JSON pointer `pointer`
/// reaches in document `doc`, when `doc` parses and the pointer resolves.
pub uninterp spec fn json_value_text_at(doc: Seq<char>, pointer: Seq<char>) -> Option<Seq<char>>;

/// The JSON string literal (quoted and escaped) for `s`.
pub uninterp spec fn json_string_literal(s: Seq<char>) -> Seq<char>;

/// The compact serialisations of the elements of `doc`, when `doc` parses
/// as a JSON array.
pub uninterp spec fn json_array_elements(doc: Seq<char>) -> Option<Seq<Seq<char>>>;

/// The members of `doc` as (key, compact serialisation of the value), in
/// the order of `serde_json`'s map, when `doc` parses as a JSON object.
pub uninterp spec fn json_object_members(doc: Seq<char>) -> Option<Seq<(Seq<char>, Seq<char>)>>;

/// Relies on `serde_json::from_str` and `Value::pointer`: looks up a string
/// value by JSON pointer.
#[verifier::external_body]
pub(crate) fn string_at(doc: &str, pointer: &str) -> (r: Option<String>)
    ensures
        opt_view(r) == json_string_at(doc@, pointer@),
{
    match serde_json::from_str::<serde_json::Value>(doc) {
        Ok(v) => match v.pointer(pointer) {
            Some(serde_json::Value::String(s)) => Some(s.clone()),
            _ => None,
        },
        Err(_) => None,
    }
}

/// Relies on `serde_json::from_str`, `Value::pointer` and `Value`'s
/// `Display` (compact form): the text of the value at a JSON pointer.
#[verifier::external_body]
pub(crate) fn value_text_at(doc: &str, pointer: &str) -> (r: Option<String>)
    ensures
        opt_view(r) == json_value_text_at(doc@, pointer@),
{
    match serde_json::from_str::<serde_json::Value>(doc) {
        Ok(v) => match v.pointer(pointer) {
            Some(x) => Some(x.to_string()),
            None => None,
        },
        Err(_) => None,
    }
}

/// Relies on `serde_json::to_string` on a `str`: the quoted, escaped literal.
#[verifier::external_body]
pub(crate) fn string_literal(s: &str) -> (r: String)
    ensures
        r@ == json_string_literal(s@),
{
    match serde_json::to_string(s) {
        Ok(t) => t,
        Err(_) => String::new(),
    }
}

/// Relies on `serde_json::from_str` into `Vec<Value>` and `Value`'s
/// `Display`: the elements of a JSON array, each serialised.
#[verifier::external_body]
pub(crate) fn array_elements(doc: &str) -> (r: Option<Vec<String>>)
    ensures
        match r {
            Some(v) => json_array_elements(doc@) == Some(v@.map_values(|e: String| e@)),
            None => json_array_elements(doc@) is None,
        },
{
    match serde_json::from_str::<Vec<serde_json::Value>>(doc) {
        Ok(items) => Some(items.iter().map(|x| x.to_string()).collect()),
        Err(_) => None,
    }
}

/// Relies on `serde_json::from_str` into `serde_json::Map` and `Value`'s
/// `Display`: the members of a JSON object, values serialised.
#[verifier::external_body]
pub(crate) fn object_members(doc: &str) -> (r: Option<Vec<(String, String)>>)
    ensures
        match r {
            Some(v) => json_object_members(doc@) == Some(
                v@.map_values(|e: (String, String)| (e.0@, e.1@)),
            ),
            None => json_object_members(doc@) is None,
        },
{
    match serde_json::from_str::<serde_json::Map<String, serde_json::Value>>(doc) {
        Ok(m) => Some(m.into_iter().map(|(k, x)| (k, x.to_string())).collect()),
        Err(_) => None,
    }
}

} // verus!
