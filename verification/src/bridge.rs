//! Everything this library takes on trust from `serde_json`, `jsonptr` and
//! `regex`: the outside types it carries, a name for what each outside
//! function returns, and one small wrapper per call. Nothing here is proved;
//! the rest of the library is proved against these contracts.
//!
//! `serde_json` is built with `preserve_order`: a map of it keeps its entries
//! in the order of their insertion, and an insertion under a key that is
//! present keeps the key's place and replaces its value. The contracts of
//! the two conversions rest on that.

use crate::value::{JsonNumber, JsonValue, JsonView};
use json_patch::jsonptr::Pointer;
use vstd::prelude::*;

verus! {

/// `serde_json::Number`, carried as it is: nothing inside it is read here.
#[verifier::external_type_specification]
#[verifier::external_body]
pub struct ExNumber(serde_json::Number);

/// `serde_json::Value`, the form in which a document is handed to
/// `serde_json` and `jsonptr`.
#[verifier::external_type_specification]
#[verifier::external_body]
pub struct ExValue(serde_json::Value);

/// `regex::Regex`, carried as it is from `compile` to `is_match`.
#[verifier::external_type_specification]
#[verifier::external_body]
pub struct ExRegex(regex::Regex);

/// The document that a `serde_json::Value` holds: the same tree, each number
/// as its text, each object as the list of its entries in the order in which
/// the map of `serde_json` holds them.
pub uninterp spec fn held(tree: serde_json::Value) -> JsonView;

/// The JSON text of a number, as `serde_json::Number`'s `Display` prints it.
pub uninterp spec fn number_text(number: serde_json::Number) -> Seq<char>;

/// The value that `serde_json::from_str` reads from a text, or `None` where
/// it returns an error.
pub uninterp spec fn json_of_text(text: Seq<char>) -> Option<JsonView>;

/// Whether a text holds nothing but the white space that `serde_json` skips:
/// space, line feed, tab and carriage return. The empty text is blank.
pub open spec fn blank(text: Seq<char>) -> bool {
    forall|i: int|
        0 <= i < text.len() ==> {
            ||| #[trigger] text[i] == ' '
            ||| text[i] == '\n'
            ||| text[i] == '\t'
            ||| text[i] == '\r'
        }
}

/// Whether the error that `serde_json::from_str` returns for a text says
/// that the input ended too early (`serde_json::Error::is_eof`).
pub uninterp spec fn text_ends_early(text: Seq<char>) -> bool;

/// The message of the error that `serde_json::from_str` returns for a text.
pub uninterp spec fn text_fault(text: Seq<char>) -> Seq<char>;

/// The compact JSON text of a value: `serde_json::Value`'s `Display`.
pub uninterp spec fn compact_text(value: JsonView) -> Seq<char>;

/// The indented JSON text of a value: `serde_json::Value`'s alternate
/// `Display`.
pub uninterp spec fn pretty_text(value: JsonView) -> Seq<char>;

/// The value that `serde_json::Value::pointer` finds in a document, or
/// `None` where the pointer leads nowhere.
pub uninterp spec fn pointer_target(document: JsonView, pointer: Seq<char>) -> Option<JsonView>;

/// The document after an assignment through
/// `serde_json::Value::pointer_mut`.
pub uninterp spec fn pointer_stored(
    document: JsonView,
    pointer: Seq<char>,
    value: JsonView,
) -> JsonView;

/// The document after `jsonptr::Pointer::delete`, or the document as it was
/// where `jsonptr::Pointer::parse` refuses the pointer.
pub uninterp spec fn pointer_deleted(document: JsonView, pointer: Seq<char>) -> JsonView;

/// The message of the error that `regex::Regex::new` returns for a pattern,
/// or `None` where the pattern compiles.
pub uninterp spec fn pattern_fault(pattern: Seq<char>) -> Option<Seq<char>>;

/// Whether the regular expression written as `pattern` has a match anywhere
/// in `key` (`regex::Regex::is_match`).
pub uninterp spec fn pattern_matches(pattern: Seq<char>, key: Seq<char>) -> bool;

/// The pattern that a compiled expression was made from
/// (`regex::Regex::as_str`).
pub uninterp spec fn regex_pattern(regex: regex::Regex) -> Seq<char>;

/// `serde_json::Number`'s `Display`: the result is the number's text.
#[verifier::external_body]
pub(crate) fn number_to_text(number: &serde_json::Number) -> (text: String)
    ensures
        text@ == number_text(*number),
{
    number.to_string()
}

/// `serde_json::Number`'s `Clone`: the copy is the same number.
pub assume_specification[ <serde_json::Number as Clone>::clone ](
    number: &serde_json::Number,
) -> (copy: serde_json::Number)
    ensures
        copy == *number,
;

/// Converts a value of this library into a `serde_json::Value`, variant by
/// variant. The entries of an object go into a map of `serde_json` one
/// after the other, where a key that is present keeps its place and takes
/// the new value: the map then holds what the value's view says.
#[verifier::external_body]
pub(crate) fn to_serde(value: &JsonValue) -> (tree: serde_json::Value)
    ensures
        held(tree) == value@,
{
    match value {
        JsonValue::Null => serde_json::Value::Null,
        JsonValue::Bool(b) => serde_json::Value::Bool(*b),
        JsonValue::Number(n) => serde_json::Value::Number(n.inner.clone()),
        JsonValue::String(s) => serde_json::Value::String(s.clone()),
        JsonValue::Array(items) => serde_json::Value::Array(items.iter().map(to_serde).collect()),
        JsonValue::Object(entries) => serde_json::Value::Object(
            entries.iter().map(|(k, v)| (k.clone(), to_serde(v))).collect(),
        ),
    }
}

/// Converts a `serde_json::Value` into a value of this library, variant by
/// variant, the entries of an object in the order in which the map of
/// `serde_json` holds them.
#[verifier::external_body]
pub(crate) fn from_serde(tree: &serde_json::Value) -> (value: JsonValue)
    ensures
        value@ == held(*tree),
{
    match tree {
        serde_json::Value::Null => JsonValue::Null,
        serde_json::Value::Bool(b) => JsonValue::Bool(*b),
        serde_json::Value::Number(n) => JsonValue::Number(JsonNumber { inner: n.clone() }),
        serde_json::Value::String(s) => JsonValue::String(s.clone()),
        serde_json::Value::Array(items) => JsonValue::Array(items.iter().map(from_serde).collect()),
        serde_json::Value::Object(map) => JsonValue::Object(
            map.iter().map(|(k, v)| (k.clone(), from_serde(v))).collect(),
        ),
    }
}

/// `serde_json::from_str` at `serde_json::Value`. On success the result is
/// the value read. On failure it is the pair of what
/// `serde_json::Error::is_eof` says of the error and the error's message.
/// A blank text fails, and its error says that the input ended: the parser
/// skips the white space and finds no value.
#[verifier::external_body]
pub(crate) fn tree_parse(text: &str) -> (outcome: Result<serde_json::Value, (bool, String)>)
    ensures
        match outcome {
            Ok(tree) => json_of_text(text@) == Some(held(tree)),
            Err((early, message)) => {
                &&& json_of_text(text@) is None
                &&& early == text_ends_early(text@)
                &&& message@ == text_fault(text@)
            },
        },
        blank(text@) ==> outcome is Err && outcome->Err_0.0,
{
    serde_json::from_str::<serde_json::Value>(text).map_err(|e| (e.is_eof(), e.to_string()))
}

/// `serde_json::Value`'s `Display`: the value's compact text. It holds no
/// line feed: the compact form puts none between items, and inside a string
/// a line feed is written as the two characters `\n`.
#[verifier::external_body]
pub(crate) fn tree_compact(tree: &serde_json::Value) -> (text: String)
    ensures
        text@ == compact_text(held(*tree)),
        !text@.contains('\n'),
{
    tree.to_string()
}

/// `serde_json::Value`'s alternate `Display`: the value's indented text.
#[verifier::external_body]
pub(crate) fn tree_pretty(tree: &serde_json::Value) -> (text: String)
    ensures
        text@ == pretty_text(held(*tree)),
{
    format!("{:#}", tree)
}

/// `serde_json::Value::pointer`: what the pointer finds in the document, or
/// `None`.
#[verifier::external_body]
pub(crate) fn tree_pointer<'a>(tree: &'a serde_json::Value, pointer: &str) -> (found: Option<
    &'a serde_json::Value,
>)
    ensures
        match found {
            Some(part) => pointer_target(held(*tree), pointer@) == Some(held(*part)),
            None => pointer_target(held(*tree), pointer@) is None,
        },
{
    tree.pointer(pointer)
}

/// An assignment through `serde_json::Value::pointer_mut`, for a pointer
/// that finds a value in the document.
#[verifier::external_body]
pub(crate) fn tree_store(tree: &mut serde_json::Value, pointer: &str, value: serde_json::Value)
    requires
        pointer_target(held(*old(tree)), pointer@) is Some,
    ensures
        held(*final(tree)) == pointer_stored(held(*old(tree)), pointer@, held(value)),
{
    *tree.pointer_mut(pointer).unwrap() = value;
}

/// `jsonptr::Pointer::parse`, then `jsonptr::Pointer::delete` where the
/// pointer was accepted, for a pointer that `serde_json::Value::pointer`
/// finds a value for: on such a pointer an array index is below the
/// array's length, which `delete` needs in order not to panic.
#[verifier::external_body]
pub(crate) fn tree_delete(tree: &mut serde_json::Value, pointer: &str)
    requires
        pointer_target(held(*old(tree)), pointer@) is Some,
    ensures
        held(*final(tree)) == pointer_deleted(held(*old(tree)), pointer@),
{
    if let Ok(parsed) = Pointer::parse(pointer) {
        parsed.delete(tree);
    }
}

/// `regex::Regex::new`. On success the result is a compiled expression made
/// from the pattern; on failure it is the error's message.
#[verifier::external_body]
pub(crate) fn compile(pattern: &str) -> (outcome: Result<regex::Regex, String>)
    ensures
        match outcome {
            Ok(regex) => pattern_fault(pattern@) is None && regex_pattern(regex) == pattern@,
            Err(message) => pattern_fault(pattern@) == Some(message@),
        },
{
    regex::Regex::new(pattern).map_err(|error| error.to_string())
}

/// `regex::Regex::is_match`.
#[verifier::external_body]
pub(crate) fn is_match(regex: &regex::Regex, key: &str) -> (found: bool)
    ensures
        found == pattern_matches(regex_pattern(*regex), key@),
{
    regex.is_match(key)
}

/// `String::push`: appends one character.
#[verifier::external_body]
pub(crate) fn push_char(text: &mut String, c: char)
    ensures
        final(text)@ == old(text)@.push(c),
{
    text.push(c)
}

} // verus!
