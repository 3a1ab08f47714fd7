//! The field codec: a value is either JSON in place or a string that holds
//! JSON text, and can be moved from one form to the other.

use crate::bridge::{compact_text, json_of_text};
use crate::document::{parse_text, render_compact};
use crate::value::{JsonValue, JsonView};
use vstd::prelude::*;

verus! {

/// A value after `unescape`: a string that holds JSON text becomes the value
/// that the text denotes; a string that does not, and any value that is not
/// a string, stays as it is.
pub open spec fn unescaped(value: JsonView) -> JsonView {
    match value {
        JsonView::String(text) => match json_of_text(text) {
            Some(parsed) => parsed,
            None => value,
        },
        _ => value,
    }
}

/// A value after `escape`: a string stays as it is; any other value becomes
/// the string that holds its compact JSON text.
pub open spec fn escaped(value: JsonView) -> JsonView {
    match value {
        JsonView::String(_) => value,
        _ => JsonView::String(compact_text(value)),
    }
}

/// JSON that is either already parsed or encoded in a string.
#[derive(Debug, PartialEq)]
pub enum JsonText {
    /// A string that may hold JSON text.
    String(String),
    /// A parsed value.
    Value(JsonValue),
}

/// `JsonText` under the name it has where it stands for a field of a record.
pub type JsonField = JsonText;

impl View for JsonText {
    type V = JsonView;

    /// The value that the text stands for.
    open spec fn view(&self) -> JsonView {
        match self {
            JsonText::String(text) => JsonView::String(text@),
            JsonText::Value(value) => value@,
        }
    }
}

impl JsonText {
    /// Takes a string as possibly encoded JSON.
    pub fn from_string(text: String) -> (made: JsonText)
        ensures
            made == JsonText::String(text),
    {
        JsonText::String(text)
    }

    /// Sorts a value by its form: a JSON string is possibly encoded JSON,
    /// anything else is a parsed value.
    pub fn from_value(json: JsonValue) -> (made: JsonText)
        ensures
            made@ == json@,
            made is String <==> json@ is String,
    {
        match json {
            JsonValue::String(text) => JsonText::String(text),
            other => JsonText::Value(other),
        }
    }

    /// Parses an encoded string into the value it holds. A string that is
    /// not JSON text comes back unchanged, as a JSON string; a parsed value
    /// comes back as it is.
    pub fn unescape(self) -> (json: JsonValue)
        ensures
            self is String ==> json@ == unescaped(self@),
            self is Value ==> json@ == self@,
    {
        match self {
            JsonText::String(text) => match parse_text(text.as_str()) {
                Ok(parsed) => parsed,
                Err(_) => JsonValue::String(text),
            },
            JsonText::Value(json) => json,
        }
    }

    /// Encodes a parsed value as the JSON string that holds its compact
    /// text. A string comes back unchanged, as a JSON string.
    pub fn escape(self) -> (json: JsonValue)
        ensures
            self is String ==> json@ == self@,
            self is Value ==> json@ == JsonView::String(compact_text(self@)),
    {
        match self {
            JsonText::String(text) => JsonValue::String(text),
            JsonText::Value(json) => JsonValue::String(render_compact(&json)),
        }
    }
}

/// Applies `unescape` to a value of any form.
pub fn unescape_value(value: JsonValue) -> (json: JsonValue)
    ensures
        json@ == unescaped(value@),
{
    JsonText::from_value(value).unescape()
}

/// Applies `escape` to a value of any form.
pub fn escape_value(value: JsonValue) -> (json: JsonValue)
    ensures
        json@ == escaped(value@),
{
    JsonText::from_value(value).escape()
}

/// Escaping and then unescaping gives the value back, for a value whose
/// compact text reads back as the same value. A string is left out where it
/// holds JSON text itself: escaping keeps it, and unescaping then parses it.
pub proof fn lemma_unescape_after_escape(value: JsonView)
    requires
        value is String ==> json_of_text(value->String_0) is None,
        !(value is String) ==> json_of_text(compact_text(value)) == Some(value),
    ensures
        unescaped(escaped(value)) == value,
{
}

/// Unescaping twice is unescaping once wherever the first result is not a
/// string that holds JSON text; escaping twice is always escaping once.
pub proof fn lemma_codec_idempotent(value: JsonView)
    ensures
        escaped(escaped(value)) == escaped(value),
        !(unescaped(value) is String) ==> unescaped(unescaped(value)) == unescaped(value),
{
}

} // verus!
