//! Transcripts as JSON lines: framing a transcript's bytes into lines,
//! decoding them, parsing each with `serde_json`, and writing documents back.
use vstd::prelude::*;
use vstd::utf8::{decode_utf8, valid_utf8};

use crate::json::{opt_view, Json, JsonView};
use crate::text::{byte_lines, byte_views, lines_of};

verus! {

#[verifier::external_type_specification]
#[verifier::external_body]
pub struct ExJsonValue(serde_json::Value);

/// The document `serde_json` parses `line` into, or `None` when `line` is
/// not JSON.
pub uninterp spec fn parsed_json(line: Seq<char>) -> Option<JsonView>;

/// The compact text `serde_json` writes for a document, or `None` when one
/// of its numbers is not a JSON number.
pub uninterp spec fn json_text(v: JsonView) -> Option<Seq<char>>;

/// Turns a `serde_json::Value` into a document, node for node; a number
/// keeps the text `serde_json` prints for it.
#[verifier::external_body]
fn json_of_value(v: serde_json::Value) -> Json {
    match v {
        serde_json::Value::Null => Json::Null,
        serde_json::Value::Bool(b) => Json::Bool(b),
        serde_json::Value::Number(n) => Json::Number(n.to_string()),
        serde_json::Value::String(t) => Json::Str(t),
        serde_json::Value::Array(items) => Json::Array(items.into_iter().map(json_of_value).collect()),
        serde_json::Value::Object(fields) => Json::Object(
            fields.into_iter().map(|(k, v)| (k, json_of_value(v))).collect(),
        ),
    }
}

/// Turns a document into a `serde_json::Value`, node for node; `None` when
/// a number's text does not parse as a `serde_json::Number`.
#[verifier::external_body]
fn value_of_json(j: &Json) -> Option<serde_json::Value> {
    Some(match j {
        Json::Null => serde_json::Value::Null,
        Json::Bool(b) => serde_json::Value::Bool(*b),
        Json::Number(t) => serde_json::Value::Number(t.parse().ok()?),
        Json::Str(t) => serde_json::Value::String(t.clone()),
        Json::Array(items) => serde_json::Value::Array(items.iter().map(value_of_json).collect::<Option<_>>()?),
        Json::Object(fields) => serde_json::Value::Object(
            fields.iter().map(|(k, v)| Some((k.clone(), value_of_json(v)?))).collect::<Option<_>>()?,
        ),
    })
}

/// Parses a line with `serde_json::from_str::<Value>`: the document that
/// comes back is `parsed_json` of the line, and a parse error is `None`.
#[verifier::external_body]
pub(crate) fn parse_json_line(line: &str) -> (r: Option<Json>)
    ensures
        opt_view(r) == parsed_json(line@),
{
    match serde_json::from_str::<serde_json::Value>(line) {
        Ok(v) => Some(json_of_value(v)),
        Err(_) => None,
    }
}

/// Writes a document with `serde_json::to_string` after turning it into a
/// `Value`: the text that comes back is `json_text` of the document, and
/// `None` is what `json_text` gives when a number does not convert.
#[verifier::external_body]
pub(crate) fn json_line_text(v: &Json) -> (r: Option<String>)
    ensures
        match r {
            Some(t) => json_text(v@) == Some(t@),
            None => json_text(v@) is None,
        },
{
    match value_of_json(v) {
        Some(value) => serde_json::to_string(&value).ok(),
        None => None,
    }
}

/// Decodes bytes with `std::str::from_utf8`, which fails exactly when they
/// are not UTF-8; on success the text holds the characters they encode.
#[verifier::external_body]
fn utf8_text(bytes: &[u8]) -> (r: Option<String>)
    ensures
        match r {
            Some(t) => valid_utf8(bytes@) && t@ == decode_utf8(bytes@),
            None => !valid_utf8(bytes@),
        },
{
    match std::str::from_utf8(bytes) {
        Ok(t) => Some(t.to_string()),
        Err(_) => None,
    }
}

/// What a transcript line holds: the document it parses into when it is
/// UTF-8 text, and nothing otherwise.
pub open spec fn line_record(line: Seq<u8>) -> Option<JsonView> {
    if valid_utf8(line) {
        parsed_json(decode_utf8(line))
    } else {
        None
    }
}

/// The records of a transcript's bytes: one per line as `BufRead::lines`
/// frames them, `None` for a line that is not UTF-8 or not JSON.
pub fn transcript_records(bytes: &[u8]) -> (r: Vec<Option<Json>>)
    ensures
        r@.len() == lines_of(bytes@, 10u8, 13u8).len(),
        forall|i: int|
            0 <= i < r@.len() ==> #[trigger] opt_view(r@[i]) == line_record(
                lines_of(bytes@, 10u8, 13u8)[i],
            ),
{
    let lines = byte_lines(bytes);
    let ghost framed = lines_of(bytes@, 10u8, 13u8);
    let mut out: Vec<Option<Json>> = Vec::new();
    let mut i: usize = 0;
    while i < lines.len()
        invariant
            byte_views(lines@) == framed,
            framed == lines_of(bytes@, 10u8, 13u8),
            i <= lines@.len(),
            out@.len() == i,
            forall|k: int| 0 <= k < i ==> #[trigger] opt_view(out@[k]) == line_record(framed[k]),
        decreases lines@.len() - i,
    {
        assert(framed[i as int] == lines@[i as int]@);
        let record = match utf8_text(lines[i].as_slice()) {
            Some(text) => parse_json_line(text.as_str()),
            None => None,
        };
        out.push(record);
        i = i + 1;
    }
    out
}

} // verus!
