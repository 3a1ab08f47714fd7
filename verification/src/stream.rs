//! The stream codec: one line of newline-delimited JSON is read into a
//! value, and one value is written as text.

use crate::bridge::{blank, compact_text, json_of_text, pretty_text, text_ends_early, text_fault};
use crate::document::{parse_text, render_compact, render_pretty};
use crate::value::{entry_views, lemma_array_view, text_views, Entry, JsonValue, JsonView};
use vstd::prelude::*;

verus! {

/// Why a line gave no value.
#[derive(Clone, Debug, PartialEq)]
pub enum LineError {
    /// The input ended: the line is empty, holds only white space, or breaks
    /// off inside a value. Reading stops here.
    EndOfInput,
    /// The line is not JSON. It is skipped, with the parser's message.
    Malformed(String),
}

/// What a `LineError` denotes.
pub enum LineFault {
    EndOfInput,
    Malformed(Seq<char>),
}

impl View for LineError {
    type V = LineFault;

    open spec fn view(&self) -> LineFault {
        match self {
            LineError::EndOfInput => LineFault::EndOfInput,
            LineError::Malformed(detail) => LineFault::Malformed(detail@),
        }
    }
}

/// What reading one line gives: the value that the line denotes; else the
/// end of the input where the parser ran out of text; else the parser's
/// message.
pub open spec fn line_read(line: Seq<char>) -> Result<JsonView, LineFault> {
    match json_of_text(line) {
        Some(value) => Ok(value),
        None => if text_ends_early(line) {
            Err(LineFault::EndOfInput)
        } else {
            Err(LineFault::Malformed(text_fault(line)))
        },
    }
}

/// The text of a value: indented where `pretty` holds, else compact.
pub open spec fn serialized(value: JsonView, pretty: bool) -> Seq<char> {
    if pretty {
        pretty_text(value)
    } else {
        compact_text(value)
    }
}

/// Reads one line of a stream. A line that is empty or holds only white
/// space is the end of the input.
pub fn parse_line(line: &str) -> (outcome: Result<JsonValue, LineError>)
    ensures
        match outcome {
            Ok(value) => line_read(line@) == Ok::<JsonView, LineFault>(value@),
            Err(error) => line_read(line@) == Err::<JsonView, LineFault>(error@),
        },
        blank(line@) ==> outcome == Err::<JsonValue, LineError>(LineError::EndOfInput),
{
    match parse_text(line) {
        Ok(value) => Ok(value),
        Err((early, message)) => {
            if early {
                Err(LineError::EndOfInput)
            } else {
                Err(LineError::Malformed(message))
            }
        },
    }
}

/// Writes a value as text, indented where `pretty` holds, else compact.
pub fn serialize(value: &JsonValue, pretty: bool) -> (text: String)
    ensures
        text@ == serialized(value@, pretty),
{
    if pretty {
        render_pretty(value)
    } else {
        render_compact(value)
    }
}

/// Writes a value as one line of a stream, without the line's end. A line
/// is compact whatever `pretty` asks for, and holds no line feed: indented
/// text would spread one record over several lines.
pub fn serialize_line(value: &JsonValue, pretty: bool) -> (line: String)
    ensures
        line@ == compact_text(value@),
        !line@.contains('\n'),
{
    render_compact(value)
}

/// The record that a line of a stream of records holds: the line is a JSON
/// array of a key, which is a string, and a value, and of nothing else.
pub open spec fn entry_read(line: Seq<char>) -> Option<Entry> {
    match json_of_text(line) {
        Some(JsonView::Array(items)) => if items.len() == 2 {
            match items[0] {
                JsonView::String(key) => Some((key, items[1])),
                _ => None,
            }
        } else {
            None
        },
        _ => None,
    }
}

/// The number of lines of a stream of records that are read: those before
/// the first empty one.
pub open spec fn entries_end(lines: Seq<Seq<char>>) -> nat
    decreases lines.len(),
{
    if lines.len() == 0 {
        0
    } else if lines.first().len() == 0 {
        0
    } else {
        1 + entries_end(lines.drop_first())
    }
}

/// The records that the first `count` lines hold, in the lines' order. A
/// line that holds no record gives none.
pub open spec fn entries_of(lines: Seq<Seq<char>>, count: nat) -> Seq<Entry>
    decreases count,
{
    if count == 0 {
        Seq::empty()
    } else {
        let before = entries_of(lines, (count - 1) as nat);
        match entry_read(lines[count - 1]) {
            Some(entry) => before.push(entry),
            None => before,
        }
    }
}

/// Reads one line of a stream of records.
pub fn parse_entry(line: &str) -> (entry: Option<(String, JsonValue)>)
    ensures
        match entry {
            Some((key, value)) => entry_read(line@) == Some((key@, value@)),
            None => entry_read(line@) is None,
        },
{
    match parse_line(line) {
        Ok(JsonValue::Array(items)) => {
            proof {
                lemma_array_view(items);
            }
            let mut items = items;
            if items.len() == 2 {
                let value = items.pop().unwrap();
                let key = items.pop().unwrap();
                match key {
                    JsonValue::String(key) => Some((key, value)),
                    _ => None,
                }
            } else {
                None
            }
        },
        _ => None,
    }
}

/// Reads a stream of records that is held as a list of lines. Reading stops
/// at the first empty line; a line that holds no record is passed over.
pub fn read_entries(lines: &Vec<String>) -> (entries: Vec<(String, JsonValue)>)
    ensures
        entry_views(entries@) == entries_of(
            text_views(lines@),
            entries_end(text_views(lines@)),
        ),
{
    let ghost texts = text_views(lines@);
    let mut entries: Vec<(String, JsonValue)> = Vec::new();
    let mut i: usize = 0;
    assert(texts.skip(0) =~= texts);
    while i < lines.len()
        invariant_except_break
            i <= lines.len(),
            texts == text_views(lines@),
            entries_end(texts) == i + entries_end(texts.skip(i as int)),
        invariant
            i <= lines.len(),
            texts == text_views(lines@),
            entry_views(entries@) == entries_of(texts, i as nat),
        ensures
            i == entries_end(texts),
        decreases lines.len() - i,
    {
        assert(texts.skip(i as int).drop_first() =~= texts.skip(i + 1));
        if lines[i].as_str().is_empty() {
            break ;
        }
        match parse_entry(lines[i].as_str()) {
            Some(entry) => {
                entries.push(entry);
            },
            None => {},
        }
        i += 1;
    }
    entries
}

} // verus!
