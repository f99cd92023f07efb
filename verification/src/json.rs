//! JSON documents: a tree the logic can read, parsed by `serde_json`, and the
//! canonical writer used for every persisted artifact.
use vstd::prelude::*;

use crate::digest::hex_digit;
use crate::text::{chars_of, push_char};

verus! {

#[verifier::external_type_specification]
#[verifier::external_body]
pub struct ExJsonValue(serde_json::Value);

/// A parsed JSON document, as the library reads it.
#[derive(Debug, PartialEq, Eq)]
pub enum JsonValue {
    Null,
    Bool(bool),
    /// A number; its value is never read.
    Number,
    Str(String),
    Array(Vec<JsonValue>),
    /// Members in ascending key order, each key once.
    Object(Vec<(String, JsonValue)>),
}

/// Where and why `serde_json` rejected a text.
#[derive(Debug, PartialEq, Eq)]
pub struct JsonSyntaxError {
    /// `serde_json`'s own description of the error.
    pub message: String,
    /// One-based line of the error.
    pub line: usize,
    /// One-based column of the error.
    pub column: usize,
}

/// Converts a `serde_json::Value` into the library's tree, variant by
/// variant: arrays element by element, objects member by member in the
/// map's iteration order, numbers without their value.
///
/// Trusted: a conversion of an outside value that states nothing of its result.
#[verifier::external_body]
fn json_tree(v: &serde_json::Value) -> JsonValue {
    match v {
        serde_json::Value::Null => JsonValue::Null,
        serde_json::Value::Bool(b) => JsonValue::Bool(*b),
        serde_json::Value::Number(_) => JsonValue::Number,
        serde_json::Value::String(s) => JsonValue::Str(s.clone()),
        serde_json::Value::Array(a) => JsonValue::Array(a.iter().map(json_tree).collect()),
        serde_json::Value::Object(m) => JsonValue::Object(
            m.iter().map(|(k, x)| (k.clone(), json_tree(x))).collect(),
        ),
    }
}

/// What `serde_json` makes of a text: the document as a tree, or its syntax error.
pub uninterp spec fn json_parse(text: Seq<char>) -> Result<JsonValue, JsonSyntaxError>;

/// Parses a text as JSON with `serde_json::from_str::<serde_json::Value>`.
///
/// Trusted: `serde_json` parsing is a function of the text alone, so its
/// result is named; on success the `Value` is converted into a `JsonValue`
/// (objects in the key order of `serde_json`'s map), on failure the error's
/// description, line and column are kept. Nothing is stated of which texts
/// parse or of the tree's shape.
#[verifier::external_body]
pub(crate) fn parse_json(text: &str) -> (r: Result<JsonValue, JsonSyntaxError>)
    ensures
        r == json_parse(text@),
{
    match serde_json::from_str::<serde_json::Value>(text) {
        Ok(v) => Ok(json_tree(&v)),
        Err(e) => Err(
            JsonSyntaxError { message: e.to_string(), line: e.line(), column: e.column() },
        ),
    }
}

/// What `serde_json` writes back for a text it parses: its compact form.
pub uninterp spec fn json_compact(text: Seq<char>) -> Option<Seq<char>>;

/// Re-serializes a JSON text compactly: `serde_json::to_string` of
/// `serde_json::from_str::<serde_json::Value>`.
///
/// Trusted: both calls are deterministic, so the result is a function of the
/// text; `None` when the text does not parse or cannot be written back.
#[verifier::external_body]
pub(crate) fn compact_json(text: &str) -> (r: Option<String>)
    ensures
        r matches Some(s) ==> json_compact(text@) == Some(s@),
        r is None ==> json_compact(text@) is None,
{
    match serde_json::from_str::<serde_json::Value>(text) {
        Ok(v) => serde_json::to_string(&v).ok(),
        Err(_) => None,
    }
}

// ---------------------------------------------------------------------------
// Canonical writing
// ---------------------------------------------------------------------------

/// How `serde_json` writes one character inside a string literal.
pub open spec fn json_escape(c: char) -> Seq<char> {
    if c == '"' {
        seq!['\\', '"']
    } else if c == '\\' {
        seq!['\\', '\\']
    } else if c == '\x08' {
        seq!['\\', 'b']
    } else if c == '\x0c' {
        seq!['\\', 'f']
    } else if c == '\n' {
        seq!['\\', 'n']
    } else if c == '\r' {
        seq!['\\', 'r']
    } else if c == '\t' {
        seq!['\\', 't']
    } else if '\x1f' >= c {
        seq!['\\', 'u', '0', '0', hex_digit((c as u8) / 16), hex_digit((c as u8) % 16)]
    } else {
        seq![c]
    }
}

/// The escaped body of a string literal.
pub open spec fn json_escaped(s: Seq<char>) -> Seq<char>
    decreases s.len(),
{
    if s.len() == 0 {
        Seq::empty()
    } else {
        json_escaped(s.drop_last()) + json_escape(s.last())
    }
}

/// A JSON string literal.
pub open spec fn json_str(s: Seq<char>) -> Seq<char> {
    seq!['"'] + json_escaped(s) + seq!['"']
}

fn push_escaped(out: &mut String, c: char)
    ensures
        final(out)@ == old(out)@ + json_escape(c),
{
    if c == '"' {
        push_char(out, '\\');
        push_char(out, '"');
    } else if c == '\\' {
        push_char(out, '\\');
        push_char(out, '\\');
    } else if c == '\x08' {
        push_char(out, '\\');
        push_char(out, 'b');
    } else if c == '\x0c' {
        push_char(out, '\\');
        push_char(out, 'f');
    } else if c == '\n' {
        push_char(out, '\\');
        push_char(out, 'n');
    } else if c == '\r' {
        push_char(out, '\\');
        push_char(out, 'r');
    } else if c == '\t' {
        push_char(out, '\\');
        push_char(out, 't');
    } else if '\x1f' >= c {
        let b = c as u8;
        push_char(out, '\\');
        push_char(out, 'u');
        push_char(out, '0');
        push_char(out, '0');
        push_char(out, crate::digest::hex_char_of(b / 16));
        push_char(out, crate::digest::hex_char_of(b % 16));
    } else {
        push_char(out, c);
    }
}

/// Appends a JSON string literal.
pub fn write_str(out: &mut String, s: &str)
    ensures
        final(out)@ == old(out)@ + json_str(s@),
{
    let chars = chars_of(s);
    let ghost start = out@;
    push_char(out, '"');
    let mut i: usize = 0;
    assert(s@.take(0) =~= Seq::<char>::empty());
    while i < chars.len()
        invariant
            i <= chars@.len(),
            chars@ == s@,
            out@ == start + seq!['"'] + json_escaped(s@.take(i as int)),
        decreases chars@.len() - i,
    {
        push_escaped(out, chars[i]);
        assert(s@.take(i + 1).drop_last() =~= s@.take(i as int));
        i = i + 1;
    }
    assert(s@.take(chars@.len() as int) =~= s@);
    push_char(out, '"');
    assert(out@ =~= start + json_str(s@));
}

} // verus!
