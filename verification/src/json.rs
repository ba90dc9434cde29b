//! Reading and writing JSON text. The JSON grammar itself is left to
//! `serde_json`: what reading a text gives is named here, how a text is
//! quoted is stated, and the formats of the engine are stated over both.

use crate::text::digit_char;
use serde_json::value::RawValue;
use std::collections::BTreeMap;
use vstd::prelude::*;
use vstd::string::*;

verus! {

/// What reading `text` as a JSON object gives: its members as pairs of name
/// and value, each value as the text that stands in `text`, in ascending
/// order of the names, a name that stands twice with its last value; or the
/// message of the error where `text` is no object.
pub uninterp spec fn json_object_members(text: Seq<char>) -> Result<
    Seq<(Seq<char>, Seq<char>)>,
    Seq<char>,
>;

/// What reading `text` as a JSON array gives: its items in order, each as
/// the text that stands in `text`; or the message of the error where `text`
/// is no array.
pub uninterp spec fn json_array_items(text: Seq<char>) -> Result<Seq<Seq<char>>, Seq<char>>;

/// What reading `text` as a JSON string gives: the characters it stands for;
/// or the message of the error where `text` is no string.
pub uninterp spec fn json_string_value(text: Seq<char>) -> Result<Seq<char>, Seq<char>>;

/// What reading `text` as a JSON array of pairs gives, each pair a string
/// and an array of numbers from 0 to 255; or the message of the error where
/// `text` is not of that shape.
pub uninterp spec fn json_dimension_list(text: Seq<char>) -> Result<
    Seq<(Seq<char>, Seq<u8>)>,
    Seq<char>,
>;

/// How one character stands inside a JSON string as `serde_json` writes it:
/// the quote and the backslash behind a backslash; backspace, tab, line
/// feed, form feed and carriage return as `\b`, `\t`, `\n`, `\f`, `\r`; any
/// other character below the space as `\u00` and its two hexadecimal digits
/// in lower case; every other character as it is.
pub open spec fn json_escaped(c: char) -> Seq<char> {
    if c == '"' {
        seq!['\\', '"']
    } else if c == '\\' {
        seq!['\\', '\\']
    } else if c == '\u{8}' {
        seq!['\\', 'b']
    } else if c == '\t' {
        seq!['\\', 't']
    } else if c == '\n' {
        seq!['\\', 'n']
    } else if c == '\u{c}' {
        seq!['\\', 'f']
    } else if c == '\r' {
        seq!['\\', 'r']
    } else if (c as u32) < 0x20 {
        seq![
            '\\',
            'u',
            '0',
            '0',
            digit_char((c as u32 / 16) as nat),
            digit_char((c as u32 % 16) as nat),
        ]
    } else {
        seq![c]
    }
}

/// The characters of `s`, each as it stands inside a JSON string.
pub open spec fn json_escaped_text(s: Seq<char>) -> Seq<char>
    decreases s.len(),
{
    if s.len() == 0 {
        Seq::empty()
    } else {
        json_escaped_text(s.drop_last()) + json_escaped(s.last())
    }
}

/// The JSON string that stands for the characters `s`: the escaped
/// characters between two quotes.
pub open spec fn json_quoted(s: Seq<char>) -> Seq<char> {
    seq!['"'] + json_escaped_text(s) + seq!['"']
}

/// The characters `s` as `{:?}` formats a text: in double quotes, with
/// escapes.
pub uninterp spec fn debug_quoted(s: Seq<char>) -> Seq<char>;

/// Calls `serde_json::from_str` for a `BTreeMap` from names to raw values
/// and hands the pairs out in the order of the map. The contract claims only
/// that the outcome is the one named by [`json_object_members`]: the same
/// text always reads the same.
#[verifier::external_body]
pub(crate) fn read_object(text: &str) -> (r: Result<Vec<(String, String)>, String>)
    ensures
        match r {
            Ok(v) => json_object_members(text@) == Ok::<Seq<(Seq<char>, Seq<char>)>, Seq<char>>(
                v.deep_view(),
            ),
            Err(e) => json_object_members(text@) == Err::<Seq<(Seq<char>, Seq<char>)>, Seq<char>>(
                e@,
            ),
        },
{
    match serde_json::from_str::<BTreeMap<String, Box<RawValue>>>(text) {
        Ok(m) => Ok(m.into_iter().map(|(k, v)| (k, v.get().to_owned())).collect()),
        Err(e) => Err(e.to_string()),
    }
}

/// Calls `serde_json::from_str` for a list of raw values. The contract
/// claims only that the outcome is the one named by [`json_array_items`].
#[verifier::external_body]
pub(crate) fn read_array(text: &str) -> (r: Result<Vec<String>, String>)
    ensures
        match r {
            Ok(v) => json_array_items(text@) == Ok::<Seq<Seq<char>>, Seq<char>>(v.deep_view()),
            Err(e) => json_array_items(text@) == Err::<Seq<Seq<char>>, Seq<char>>(e@),
        },
{
    match serde_json::from_str::<Vec<Box<RawValue>>>(text) {
        Ok(items) => Ok(items.into_iter().map(|v| v.get().to_owned()).collect()),
        Err(e) => Err(e.to_string()),
    }
}

/// Calls `serde_json::from_str` for a text. The contract claims only that
/// the outcome is the one named by [`json_string_value`].
#[verifier::external_body]
pub(crate) fn read_string(text: &str) -> (r: Result<String, String>)
    ensures
        match r {
            Ok(v) => json_string_value(text@) == Ok::<Seq<char>, Seq<char>>(v@),
            Err(e) => json_string_value(text@) == Err::<Seq<char>, Seq<char>>(e@),
        },
{
    match serde_json::from_str::<String>(text) {
        Ok(s) => Ok(s),
        Err(e) => Err(e.to_string()),
    }
}

/// Calls `serde_json::from_str` for a list of pairs of a text and a list of
/// bytes. The contract claims only that the outcome is the one named by
/// [`json_dimension_list`].
#[verifier::external_body]
pub(crate) fn read_dimension_list(text: &str) -> (r: Result<Vec<(String, Vec<u8>)>, String>)
    ensures
        match r {
            Ok(v) => json_dimension_list(text@) == Ok::<Seq<(Seq<char>, Seq<u8>)>, Seq<char>>(
                v.deep_view(),
            ),
            Err(e) => json_dimension_list(text@) == Err::<Seq<(Seq<char>, Seq<u8>)>, Seq<char>>(
                e@,
            ),
        },
{
    match serde_json::from_str::<Vec<(String, Vec<u8>)>>(text) {
        Ok(v) => Ok(v),
        Err(e) => Err(e.to_string()),
    }
}

/// Calls `serde_json::to_string` on a text. Writing a text into memory
/// cannot fail, so there is always a result. The contract claims that it is
/// the text between quotes with the escapes of [`json_escaped`], as the
/// escape table of `serde_json` has them.
#[verifier::external_body]
pub(crate) fn write_string(s: &str) -> (r: String)
    ensures
        r@ == json_quoted(s@),
{
    match serde_json::to_string(s) {
        Ok(t) => t,
        Err(_) => String::new(),
    }
}

/// Formats a text with `{:?}`. The contract claims only that the outcome is
/// the one named by [`debug_quoted`].
#[verifier::external_body]
pub(crate) fn debug_text(s: &str) -> (r: String)
    ensures
        r@ == debug_quoted(s@),
{
    format!("{:?}", s)
}

} // verus!
