//! JSON as the dashboard reads and writes it.

use vstd::prelude::*;

use crate::digest;

verus! {

/// What kind of value a JSON document holds.
#[derive(Clone, Copy, Debug, PartialEq, Eq, Structural)]
pub enum JsonKind {
    Null,
    Bool,
    Number,
    Text,
    Array,
    Object,
}

/// The kind of a JSON document and its indented form, if a text is one.
pub uninterp spec fn json_document(source: Seq<char>) -> Option<(JsonKind, Seq<char>)>;

/// Reads a text with `serde_json::from_str` and writes it back with
/// `serde_json::to_string_pretty`. The result depends on the text alone. Which
/// texts are documents, and how a document is indented, is left unsaid.
#[verifier::external_body]
pub(crate) fn indented_json(source: &str) -> (document: Option<(JsonKind, String)>)
    ensures
        match document {
            Some((kind, indented)) => json_document(source@) == Some((kind, indented@)),
            None => json_document(source@) is None,
        },
{
    let value: serde_json::Value = serde_json::from_str(source).ok()?;
    let kind = match &value {
        serde_json::Value::Null => JsonKind::Null,
        serde_json::Value::Bool(_) => JsonKind::Bool,
        serde_json::Value::Number(_) => JsonKind::Number,
        serde_json::Value::String(_) => JsonKind::Text,
        serde_json::Value::Array(_) => JsonKind::Array,
        serde_json::Value::Object(_) => JsonKind::Object,
    };
    let indented = serde_json::to_string_pretty(&value).ok()?;
    Some((kind, indented))
}

/// A character as it stands in a JSON string: quotes, backslashes and control
/// characters behind a backslash, all others as they are.
pub open spec fn escaped_char(character: char) -> Seq<char> {
    let code = character as u32;
    if character == '"' || character == '\\' {
        seq!['\\', character]
    } else if code == 8 {
        seq!['\\', 'b']
    } else if code == 9 {
        seq!['\\', 't']
    } else if code == 10 {
        seq!['\\', 'n']
    } else if code == 12 {
        seq!['\\', 'f']
    } else if code == 13 {
        seq!['\\', 'r']
    } else if code < 32 {
        seq![
            '\\',
            'u',
            '0',
            '0',
            digest::hex_digit((code / 16) as nat),
            digest::hex_digit((code % 16) as nat),
        ]
    } else {
        seq![character]
    }
}

/// A text as it stands in a JSON string.
pub open spec fn escaped(content: Seq<char>) -> Seq<char>
    decreases content.len(),
{
    if content.len() == 0 {
        Seq::empty()
    } else {
        escaped(content.drop_last()) + escaped_char(content.last())
    }
}

/// A text as a JSON string, with its quotes.
pub open spec fn json_string(content: Seq<char>) -> Seq<char> {
    seq!['"'] + escaped(content) + seq!['"']
}

/// Writes a text with `serde_json::to_string`: as a JSON string between quotes,
/// with quotes, backslashes and control characters escaped. Writing a text to
/// memory cannot fail.
#[verifier::external_body]
pub(crate) fn quoted_json(content: &str) -> (quoted: String)
    ensures
        quoted@ == json_string(content@),
{
    serde_json::to_string(content).unwrap()
}

} // verus!
