//! JSON text of strings and of text documents, as the model receives them.

use vstd::prelude::*;
use vstd::string::StringExecFns;
use crate::decimal::{push_signed_decimal, signed_decimal};
use crate::document::TextDocument;

verus! {

/// The lower-case hexadecimal digits, in order of value.
pub open spec fn hex_digits() -> Seq<char> {
    seq!['0', '1', '2', '3', '4', '5', '6', '7', '8', '9', 'a', 'b', 'c', 'd', 'e', 'f']
}

/// How `c` is written inside a JSON string: quote and backslash behind a
/// backslash, the control characters with a short escape where JSON has one
/// and as `\u00XX` otherwise, every other character as itself.
pub open spec fn json_escape_char(c: char) -> Seq<char> {
    if c == '"' {
        seq!['\\', '"']
    } else if c == '\\' {
        seq!['\\', '\\']
    } else if c == '\u{8}' {
        seq!['\\', 'b']
    } else if c == '\t' {
        seq!['\\', 't']
    } else if c == '\n' {
        seq!['\\', 'n']
    } else if c == '\u{c}' {
        seq!['\\', 'f']
    } else if c == '\r' {
        seq!['\\', 'r']
    } else if (c as int) < 0x20 {
        seq!['\\', 'u', '0', '0', hex_digits()[(c as int) / 16], hex_digits()[(c as int) % 16]]
    } else {
        seq![c]
    }
}

/// The characters of `s`, each escaped for a JSON string.
pub open spec fn json_escape(s: Seq<char>) -> Seq<char>
    decreases s.len(),
{
    if s.len() == 0 {
        seq![]
    } else {
        json_escape(s.drop_last()) + json_escape_char(s.last())
    }
}

/// The JSON string literal that denotes `s`.
pub open spec fn json_string_literal(s: Seq<char>) -> Seq<char> {
    seq!['"'] + json_escape(s) + seq!['"']
}

/// `serde_json::to_string` applied to a `&str`. The contract claims that the
/// result is the JSON string literal of `s` as `json_string_literal` states
/// it: quote and backslash behind a backslash, the characters below U+0020
/// with the short escapes `\b \t \n \f \r` or as `\u00XX` with lower-case
/// hexadecimal digits (serde_json's `ESCAPE` table and `write_char_escape`),
/// every other character as it is; and that serialising a string into memory
/// never fails, so the error arm never runs.
#[verifier::external_body]
fn json_string(s: &str) -> (r: String)
    ensures
        r@ == json_string_literal(s@),
{
    match serde_json::to_string(s) {
        Ok(text) => text,
        Err(_) => String::new(),
    }
}

/// The JSON object of a text document, with its fields in the order
/// `uri`, `languageId`, `version`, `text`.
pub open spec fn document_json_text(doc: TextDocument) -> Seq<char> {
    "{\"uri\":"@ + json_string_literal(doc.uri@) + ",\"languageId\":"@ + json_string_literal(
        doc.language_id@,
    ) + ",\"version\":"@ + signed_decimal(doc.version as int) + ",\"text\":"@ + json_string_literal(
        doc.text@,
    ) + "}"@
}

/// Writes a text document as a JSON object.
pub fn document_json(doc: &TextDocument) -> (r: String)
    ensures
        r@ == document_json_text(*doc),
{
    let mut s = String::new();
    s.append("{\"uri\":");
    s.append(json_string(doc.uri.as_str()).as_str());
    s.append(",\"languageId\":");
    s.append(json_string(doc.language_id.as_str()).as_str());
    s.append(",\"version\":");
    push_signed_decimal(&mut s, doc.version as i64);
    s.append(",\"text\":");
    s.append(json_string(doc.text.as_str()).as_str());
    s.append("}");
    assert(s@ =~= document_json_text(*doc));
    s
}

} // verus!
