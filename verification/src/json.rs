//! The JSON text that the mapping tables store, produced and read by
//! `serde_json`.
use std::collections::BTreeMap;
use vstd::prelude::*;

use crate::text::views;

verus! {

/// The error type of `serde_json`.
#[verifier::external_type_specification]
#[verifier::external_body]
pub struct ExJsonError(serde_json::Error);

/// The lower-case hexadecimal digit of value `d` (below 16).
pub open spec fn hex_digit(d: int) -> char {
    if d < 10 {
        ('0' as int + d) as char
    } else {
        ('a' as int + d - 10) as char
    }
}

/// How `serde_json` writes one character inside a JSON string: `"` and `\`
/// after a backslash, the controls with a short escape as `\b`, `\t`,
/// `\n`, `\f`, `\r`, the other controls below U+0020 as `\u00` and two
/// lower-case hexadecimal digits, and every other character as itself.
pub open spec fn json_escape(c: char) -> Seq<char> {
    if c == '"' {
        seq!['\\', '"']
    } else if c == '\\' {
        seq!['\\', '\\']
    } else if c == '\u{8}' {
        seq!['\\', 'b']
    } else if c == '\t' {
        seq!['\\', 't']
    } else if c == '\n' {
        seq!['\\', 'n']
    } else if c == '\u{c}' {
        seq!['\\', 'f']
    } else if c == '\r' {
        seq!['\\', 'r']
    } else if (c as int) < 0x20 {
        seq!['\\', 'u', '0', '0', hex_digit((c as int) / 16), hex_digit((c as int) % 16)]
    } else {
        seq![c]
    }
}

/// The escaped characters of `s`, one after the other.
pub open spec fn json_escaped(s: Seq<char>) -> Seq<char>
    decreases s.len(),
{
    if s.len() == 0 {
        Seq::<char>::empty()
    } else {
        json_escaped(s.drop_last()) + json_escape(s.last())
    }
}

/// `s` as a JSON string: its escaped characters between double quotes.
pub open spec fn json_string(s: Seq<char>) -> Seq<char> {
    seq!['"'] + json_escaped(s) + seq!['"']
}

/// The JSON strings of `items`, separated by commas.
pub open spec fn json_string_list(items: Seq<Seq<char>>) -> Seq<char>
    decreases items.len(),
{
    if items.len() == 0 {
        Seq::<char>::empty()
    } else if items.len() == 1 {
        json_string(items[0])
    } else {
        json_string_list(items.drop_last()) + seq![','] + json_string(items.last())
    }
}

/// The text that `serde_json::to_string` gives for a sequence of strings:
/// a JSON array of JSON strings, with no whitespace.
pub open spec fn json_string_array(items: Seq<Seq<char>>) -> Seq<char> {
    seq!['['] + json_string_list(items) + seq![']']
}

/// The text that `serde_json::to_string` gives for an ordered map from
/// integers to strings (a JSON object whose member names are the decimal
/// keys, in increasing order).
pub uninterp spec fn json_integer_object(entries: Map<i64, Seq<char>>) -> Seq<char>;

/// What `serde_json::from_str::<serde_json::Value>` followed by indexing
/// with `key` and `Value::as_str` yields for `text`: `None` when `text` is
/// no JSON document, `Some(None)` when the document has no string member
/// named `key`, and `Some(Some(value))` otherwise.
pub uninterp spec fn json_member_str(text: Seq<char>, key: Seq<char>) -> Option<Option<Seq<char>>>;

/// Calls `serde_json::to_string` on a vector of strings. It succeeds (the
/// serializer of strings has no failing case, and writing into a `Vec`
/// cannot fail), and the text is the JSON array of the strings.
#[verifier::external_body]
pub(crate) fn to_json_array(items: &Vec<String>) -> (r: Result<String, serde_json::Error>)
    ensures
        r is Ok,
        r matches Ok(s) ==> s@ == json_string_array(views(items@)),
{
    serde_json::to_string(items)
}

/// Calls `serde_json::to_string` on an ordered map from integers to strings.
/// It succeeds (integer keys are written as quoted decimal member names, and
/// string values cannot fail), and the text is the one `json_integer_object`
/// names for the entries.
#[verifier::external_body]
pub(crate) fn to_json_object(entries: &BTreeMap<i64, String>) -> (r: Result<
    String,
    serde_json::Error,
>)
    ensures
        r is Ok,
        r matches Ok(s) ==> s@ == json_integer_object(entries@.map_values(|v: String| v@)),
{
    serde_json::to_string(entries)
}

/// Parses `text` with `serde_json::from_str` into a `serde_json::Value`,
/// indexes it with `key` (which gives `Null` for a missing member or a
/// value that is no object) and reads the result with `Value::as_str`. The
/// outcome is the one `json_member_str` names for `text` and `key`: an
/// error exactly when the text is no JSON document.
#[verifier::external_body]
pub(crate) fn member_str_of_json(text: &str, key: &str) -> (r: Result<
    Option<String>,
    serde_json::Error,
>)
    ensures
        match r {
            Ok(Some(value)) => json_member_str(text@, key@) == Some(Some(value@)),
            Ok(None) => json_member_str(text@, key@) == Some(None::<Seq<char>>),
            Err(_) => json_member_str(text@, key@) is None,
        },
{
    let value: serde_json::Value = serde_json::from_str(text)?;
    Ok(value[key].as_str().map(String::from))
}

} // verus!
