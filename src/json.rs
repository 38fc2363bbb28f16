//! JSON documents as plain values, read and quoted by serde_json.
use vstd::prelude::*;

verus! {

/// A JSON document.
#[derive(Debug, PartialEq, Eq)]
pub enum Json {
    Null,
    Bool(bool),
    /// A number, in the form the parser prints it.
    Number(String),
    Str(String),
    Array(Vec<Json>),
    /// The members of an object, in order, each name once.
    Object(Vec<(String, Json)>),
}

#[verifier::external_type_specification]
#[verifier::external_body]
pub struct ExValue(serde_json::Value);

/// The document that a text holds, if it is valid JSON.
pub uninterp spec fn json_of(s: Seq<char>) -> Option<Json>;

/// A lower-case hexadecimal digit.
pub open spec fn hex_digit(d: u32) -> char
    recommends
        d < 16,
{
    seq!['0', '1', '2', '3', '4', '5', '6', '7', '8', '9', 'a', 'b', 'c', 'd', 'e', 'f'][d as int]
}

/// How one character is written inside a JSON string literal: quote and
/// backslash behind a backslash, the five control characters that have a
/// short escape with it, the other control characters below U+0020 as
/// `\u00` and two hex digits, and every other character as itself.
pub open spec fn escaped_char(c: char) -> Seq<char> {
    if c == '"' {
        seq!['\\', '"']
    } else if c == '\\' {
        seq!['\\', '\\']
    } else if c == '\x08' {
        seq!['\\', 'b']
    } else if c == '\t' {
        seq!['\\', 't']
    } else if c == '\n' {
        seq!['\\', 'n']
    } else if c == '\x0C' {
        seq!['\\', 'f']
    } else if c == '\r' {
        seq!['\\', 'r']
    } else if (c as u32) < 32 {
        seq!['\\', 'u', '0', '0', hex_digit(c as u32 / 16), hex_digit(c as u32 % 16)]
    } else {
        seq![c]
    }
}

/// The characters of a text as written inside a JSON string literal.
pub open spec fn escaped(s: Seq<char>) -> Seq<char>
    decreases s.len(),
{
    if s.len() == 0 {
        Seq::empty()
    } else {
        escaped(s.drop_last()) + escaped_char(s.last())
    }
}

/// A text as a JSON string literal, quotes and escapes included.
pub open spec fn quoted_of(s: Seq<char>) -> Seq<char> {
    seq!['"'] + escaped(s) + seq!['"']
}

/// Relies on serde_json::Value's variants: moves each one, members and
/// elements included, into the matching variant of `Json`.
#[verifier::external_body]
fn json_from_value(v: serde_json::Value) -> Json {
    match v {
        serde_json::Value::Null => Json::Null,
        serde_json::Value::Bool(b) => Json::Bool(b),
        serde_json::Value::Number(n) => Json::Number(n.to_string()),
        serde_json::Value::String(s) => Json::Str(s),
        serde_json::Value::Array(a) => Json::Array(a.into_iter().map(json_from_value).collect()),
        serde_json::Value::Object(m) => Json::Object(
            m.into_iter().map(|(k, x)| (k, json_from_value(x))).collect(),
        ),
    }
}

/// Relies on serde_json::from_str into a serde_json::Value: it succeeds
/// exactly on the JSON text that serde_json accepts (valid JSON, nested at
/// most 128 deep), and the document depends on the text alone. The error is
/// serde_json's description of what is wrong.
#[verifier::external_body]
pub(crate) fn parse_json(s: &str) -> (r: Result<Json, String>)
    ensures
        r is Ok <==> json_of(s@) is Some,
        r matches Ok(j) ==> json_of(s@) == Some(j),
{
    match serde_json::from_str::<serde_json::Value>(s) {
        Ok(v) => Ok(json_from_value(v)),
        Err(e) => Err(e.to_string()),
    }
}

/// Relies on serde_json::to_string on a `str` (format_escaped_str and its
/// ESCAPE table): the text in quotes, escaped as `escaped_char` says.
/// Serialising a `str` cannot fail (the documented failures are a
/// failing `Serialize` impl and non-string map keys).
#[verifier::external_body]
pub(crate) fn quote(s: &str) -> (r: String)
    ensures
        r@ == quoted_of(s@),
{
    serde_json::to_string(s).unwrap_or_default()
}

} // verus!
