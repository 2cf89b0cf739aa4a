//! JSON documents are carried through the library as their text. This module
//! holds the few places where that text is produced or read by `serde_json`.
use vstd::prelude::*;

verus! {

/// The lower-case hexadecimal digit for `n` (below 16).
pub open spec fn hex_digit(n: int) -> char {
    seq!['0', '1', '2', '3', '4', '5', '6', '7', '8', '9', 'a', 'b', 'c', 'd', 'e', 'f'][n]
}

/// How serde_json writes the character `c` inside a JSON string: quote and
/// backslash behind a backslash; backspace, tab, line feed, form feed and
/// carriage return as `\b \t \n \f \r`; the other control characters
/// (below U+0020) as `\u00` and two hexadecimal digits; everything else
/// as it is.
pub open spec fn json_escaped_char(c: char) -> Seq<char> {
    if c == '"' {
        seq!['\\', '"']
    } else if c == '\\' {
        seq!['\\', '\\']
    } else if c == '\u{8}' {
        seq!['\\', 'b']
    } else if c == '\t' {
        seq!['\\', 't']
    } else if c == '\n' {
        seq!['\\', 'n']
    } else if c == '\u{c}' {
        seq!['\\', 'f']
    } else if c == '\r' {
        seq!['\\', 'r']
    } else if (c as int) < 0x20 {
        seq!['\\', 'u', '0', '0', hex_digit((c as int) / 16), hex_digit((c as int) % 16)]
    } else {
        seq![c]
    }
}

/// The characters of `text`, each written as in a JSON string.
pub open spec fn json_escaped(text: Seq<char>) -> Seq<char>
    decreases text.len(),
{
    if text.len() == 0 {
        Seq::empty()
    } else {
        json_escaped(text.drop_last()) + json_escaped_char(text.last())
    }
}

/// The JSON string literal that encodes `text`: its escaped characters
/// between double quotes.
pub open spec fn json_quoted(text: Seq<char>) -> Seq<char> {
    seq!['"'] + json_escaped(text) + seq!['"']
}

/// Writes `text` as a JSON string literal by calling `serde_json::to_string`
/// on it. The contract claims what serde_json's string writer does (its
/// escape table): the literal [`json_quoted`]. Serialising a `str` cannot
/// fail in serde_json, so the error arm is never taken.
#[verifier::external_body]
pub(crate) fn quote_json(text: &str) -> (quoted: String)
    ensures
        quoted@ == json_quoted(text@),
{
    serde_json::to_string(text).unwrap_or_default()
}

/// The compact JSON text of the object `{"error": <text>}`.
pub open spec fn error_object_text(text: Seq<char>) -> Seq<char> {
    "{\"error\":"@ + json_quoted(text) + "}"@
}

/// Builds the compact JSON text of `{"error": text}`.
pub fn error_object(text: &str) -> (json: String)
    ensures
        json@ == error_object_text(text@),
{
    let quoted = quote_json(text);
    let mut json = String::from_str("{\"error\":");
    json.append(quoted.as_str());
    json.append("}");
    proof {
        reveal_strlit("{\"error\":");
        reveal_strlit("}");
    }
    json
}

#[verifier::external_type_specification]
#[verifier::external_body]
pub struct ExJsonError(serde_json::Error);

/// The text serde_json's `Display` impl writes for an error that is not an
/// I/O error: the error code's text, followed by ` at line L column C` when
/// a position is known. It depends on the error alone.
pub uninterp spec fn json_error_text(e: serde_json::Error) -> Seq<char>;

/// Whether serde_json classes the error as an I/O error
/// (`serde_json::Error::is_io`).
pub uninterp spec fn json_error_is_io(e: serde_json::Error) -> bool;

/// The message of a `serde_json::Error`, through its `Display` impl
/// (`to_string`). The contract claims that, for an error that is not an
/// I/O error, the message is the named text of the error. The text of an
/// I/O error is that of the `std::io::Error` it wraps, which can come from
/// the operating system, so nothing is stated of it.
#[verifier::external_body]
pub(crate) fn json_error_message(err: &serde_json::Error) -> (s: String)
    ensures
        !json_error_is_io(*err) ==> s@ == json_error_text(*err),
{
    err.to_string()
}

/// The `Debug` text of a value (`format!("{:?}")`). What it holds depends on
/// the value's `Debug` impl, so nothing is stated of it.
#[verifier::external_body]
pub(crate) fn debug_text<E: core::fmt::Debug>(value: &E) -> String {
    format!("{:?}", value)
}

} // verus!
