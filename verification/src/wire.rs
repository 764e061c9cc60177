//! Trusted access to the fields of one request line.
//!
//! A request is one JSON object on one line. The functions here hand the
//! protocol layer the individual fields as plain values; each result is a
//! pure function of the line's text, so it carries a name that the verified
//! parser's contract is stated over. All JSON reading happens here; nothing
//! else in the library touches the JSON parser.

use vstd::prelude::*;

verus! {

/// An `Option<String>` as an optional character sequence.
pub open spec fn opt_view(o: Option<String>) -> Option<Seq<char>> {
    match o {
        Some(s) => Some(s@),
        None => None,
    }
}

/// An `Option<Vec<String>>` as an optional sequence of character sequences.
pub open spec fn opt_list_view(o: Option<Vec<String>>) -> Option<Seq<Seq<char>>> {
    match o {
        Some(v) => Some(v.deep_view()),
        None => None,
    }
}

/// The parser's complaint about the line, if the line is not valid JSON.
pub uninterp spec fn json_parse_error_of(line: Seq<char>) -> Option<Seq<char>>;

/// The string under `key` in the object on the line, if there is one.
pub uninterp spec fn json_text_field_of(line: Seq<char>, key: Seq<char>) -> Option<Seq<char>>;

/// The number token under `key` in the object on the line, if there is one.
pub uninterp spec fn json_number_field_of(line: Seq<char>, key: Seq<char>) -> Option<Seq<char>>;

/// The number token under `outer.key`, if there is one.
pub uninterp spec fn json_nested_number_field_of(
    line: Seq<char>,
    outer: Seq<char>,
    key: Seq<char>,
) -> Option<Seq<char>>;

/// The member names of the object under `outer.key`, if there is one.
pub uninterp spec fn json_nested_object_keys_of(
    line: Seq<char>,
    outer: Seq<char>,
    key: Seq<char>,
) -> Option<Seq<Seq<char>>>;

/// The number token under `outer.key.name`, if there is one.
pub uninterp spec fn json_custom_number_field_of(
    line: Seq<char>,
    outer: Seq<char>,
    key: Seq<char>,
    name: Seq<char>,
) -> Option<Seq<char>>;

/// Relies on serde_json's parser: whether a line parses, and the message
/// when it does not, depend on the line's text alone.
#[verifier::external_body]
pub fn json_parse_error(line: &str) -> (r: Option<String>)
    ensures
        opt_view(r) == json_parse_error_of(line@),
{
    match serde_json::from_str::<serde_json::Value>(line) {
        Ok(_) => None,
        Err(e) => Some(e.to_string()),
    }
}

/// Relies on serde_json's parser and object lookup: the string field is a
/// function of the line's text alone.
#[verifier::external_body]
pub fn json_text_field(line: &str, key: &str) -> (r: Option<String>)
    ensures
        opt_view(r) == json_text_field_of(line@, key@),
{
    match serde_json::from_str::<serde_json::Value>(line) {
        Ok(serde_json::Value::Object(m)) => match m.get(key) {
            Some(serde_json::Value::String(s)) => Some(s.clone()),
            _ => None,
        },
        _ => None,
    }
}

/// Relies on serde_json's parser, object lookup and number formatting: the
/// field's number token is a function of the line's text alone.
#[verifier::external_body]
pub fn json_number_field(line: &str, key: &str) -> (r: Option<String>)
    ensures
        opt_view(r) == json_number_field_of(line@, key@),
{
    match serde_json::from_str::<serde_json::Value>(line) {
        Ok(serde_json::Value::Object(m)) => match m.get(key) {
            Some(serde_json::Value::Number(n)) => Some(n.to_string()),
            _ => None,
        },
        _ => None,
    }
}

/// Relies on serde_json's parser, object lookup and number formatting, one
/// level down: the nested field's number token is a function of the line.
#[verifier::external_body]
pub fn json_nested_number_field(line: &str, outer: &str, key: &str) -> (r: Option<String>)
    ensures
        opt_view(r) == json_nested_number_field_of(line@, outer@, key@),
{
    match serde_json::from_str::<serde_json::Value>(line) {
        Ok(serde_json::Value::Object(m)) => match m.get(outer) {
            Some(serde_json::Value::Object(m2)) => match m2.get(key) {
                Some(serde_json::Value::Number(n)) => Some(n.to_string()),
                _ => None,
            },
            _ => None,
        },
        _ => None,
    }
}

/// Relies on serde_json's parser and object iteration: the member names of
/// the nested object, in its order, are a function of the line.
#[verifier::external_body]
pub fn json_nested_object_keys(line: &str, outer: &str, key: &str) -> (r: Option<Vec<String>>)
    ensures
        opt_list_view(r) == json_nested_object_keys_of(line@, outer@, key@),
{
    match serde_json::from_str::<serde_json::Value>(line) {
        Ok(serde_json::Value::Object(m)) => match m.get(outer) {
            Some(serde_json::Value::Object(m2)) => match m2.get(key) {
                Some(serde_json::Value::Object(m3)) => Some(m3.keys().cloned().collect()),
                _ => None,
            },
            _ => None,
        },
        _ => None,
    }
}

/// Relies on serde_json's parser, object lookup and number formatting, two
/// levels down: the named member's number token is a function of the line.
#[verifier::external_body]
pub fn json_custom_number_field(line: &str, outer: &str, key: &str, name: &str) -> (r: Option<
    String,
>)
    ensures
        opt_view(r) == json_custom_number_field_of(line@, outer@, key@, name@),
{
    match serde_json::from_str::<serde_json::Value>(line) {
        Ok(serde_json::Value::Object(m)) => match m.get(outer) {
            Some(serde_json::Value::Object(m2)) => match m2.get(key) {
                Some(serde_json::Value::Object(m3)) => match m3.get(name) {
                    Some(serde_json::Value::Number(n)) => Some(n.to_string()),
                    _ => None,
                },
                _ => None,
            },
            _ => None,
        },
        _ => None,
    }
}

} // verus!
