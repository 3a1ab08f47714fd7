//! Documents in the hands of `serde_json` and `jsonptr`: a value is converted,
//! the outside function is called, and what comes back is converted again.

use crate::bridge::{
    blank, compact_text, from_serde, json_of_text, pointer_deleted, pointer_stored,
    pointer_target, pretty_text, text_ends_early, text_fault, to_serde, tree_compact,
    tree_delete, tree_parse, tree_pointer, tree_pretty, tree_store,
};
use crate::value::JsonValue;
use vstd::prelude::*;

verus! {

/// Reads a value from JSON text. On failure the result says whether the
/// input ended too early, and gives the parser's message.
pub(crate) fn parse_text(text: &str) -> (outcome: Result<JsonValue, (bool, String)>)
    ensures
        match outcome {
            Ok(value) => json_of_text(text@) == Some(value@),
            Err((early, message)) => {
                &&& json_of_text(text@) is None
                &&& early == text_ends_early(text@)
                &&& message@ == text_fault(text@)
            },
        },
        blank(text@) ==> outcome is Err && outcome->Err_0.0,
{
    match tree_parse(text) {
        Ok(tree) => Ok(from_serde(&tree)),
        Err(fault) => Err(fault),
    }
}

/// The compact text of a value. It holds no line feed.
pub(crate) fn render_compact(value: &JsonValue) -> (text: String)
    ensures
        text@ == compact_text(value@),
        !text@.contains('\n'),
{
    tree_compact(&to_serde(value))
}

/// The indented text of a value.
pub(crate) fn render_pretty(value: &JsonValue) -> (text: String)
    ensures
        text@ == pretty_text(value@),
{
    tree_pretty(&to_serde(value))
}

/// A copy of what a pointer finds in a document, or `None`.
pub fn lookup(document: &JsonValue, pointer: &str) -> (found: Option<JsonValue>)
    ensures
        match found {
            Some(value) => pointer_target(document@, pointer@) == Some(value@),
            None => pointer_target(document@, pointer@) is None,
        },
{
    let tree = to_serde(document);
    match tree_pointer(&tree, pointer) {
        Some(part) => Some(from_serde(part)),
        None => None,
    }
}

/// Puts a value where a pointer finds one in a document.
pub(crate) fn store(document: &mut JsonValue, pointer: &str, value: &JsonValue)
    requires
        pointer_target(old(document)@, pointer@) is Some,
    ensures
        final(document)@ == pointer_stored(old(document)@, pointer@, value@),
{
    let mut tree = to_serde(document);
    tree_store(&mut tree, pointer, to_serde(value));
    *document = from_serde(&tree);
}

/// Deletes what a pointer finds in a document.
pub(crate) fn remove(document: &mut JsonValue, pointer: &str)
    requires
        pointer_target(old(document)@, pointer@) is Some,
    ensures
        final(document)@ == pointer_deleted(old(document)@, pointer@),
{
    let mut tree = to_serde(document);
    tree_delete(&mut tree, pointer);
    *document = from_serde(&tree);
}

} // verus!
