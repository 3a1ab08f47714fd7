//! The field editor: a document whose fields, addressed by dot-separated
//! paths, are unescaped, escaped or dropped; and the records of an object.

use crate::assemble::{
    keep_matching, kept, lemma_kept_unfiltered, to_document, to_entries, NotAnObjectError,
};
use crate::bridge::{pointer_deleted, pointer_stored, pointer_target};
use crate::document::{lookup, remove, store};
use crate::filter::{filter_of, pattern_view, KeyFilter, RegexCompileError};
use crate::json_text::{escape_value, escaped, unescape_value, unescaped};
use crate::object::{collected, lemma_collected_distinct};
use crate::path::{dots_to_slashes, pointer_of};
use crate::stream::{line_read, parse_line, LineError, LineFault};
use crate::value::{entry_views, lemma_object_view, text_views, Entry, JsonValue, JsonView};
use vstd::prelude::*;

verus! {

/// What is done to a field.
#[derive(Clone, Copy, Debug, PartialEq, Eq)]
pub enum FieldEdit {
    /// A string that holds JSON text becomes the value it holds.
    Unescape,
    /// A value becomes the string that holds its JSON text.
    Escape,
    /// The field is removed.
    Drop,
}

/// A document after one edit of one field. A path that leads to no value in
/// the document changes nothing.
pub open spec fn edited_at(document: JsonView, field: Seq<char>, edit: FieldEdit) -> JsonView {
    let pointer = pointer_of(field);
    match pointer_target(document, pointer) {
        Some(found) => match edit {
            FieldEdit::Unescape => pointer_stored(document, pointer, unescaped(found)),
            FieldEdit::Escape => pointer_stored(document, pointer, escaped(found)),
            FieldEdit::Drop => pointer_deleted(document, pointer),
        },
        None => document,
    }
}

/// A document after one edit of each field of a list, in the list's order.
pub open spec fn edited(document: JsonView, fields: Seq<Seq<char>>, edit: FieldEdit) -> JsonView
    decreases fields.len(),
{
    if fields.len() == 0 {
        document
    } else {
        edited_at(edited(document, fields.drop_last(), edit), fields.last(), edit)
    }
}

/// A document after one edit of each field of an optional list.
pub open spec fn edited_with(
    document: JsonView,
    fields: Option<Seq<Seq<char>>>,
    edit: FieldEdit,
) -> JsonView {
    match fields {
        Some(list) => edited(document, list, edit),
        None => document,
    }
}

/// The paths of an optional list of fields.
pub open spec fn field_list(fields: Option<&Vec<String>>) -> Option<Seq<Seq<char>>> {
    match fields {
        Some(list) => Some(text_views(list@)),
        None => None,
    }
}

/// An edit of a field that is not in the document leaves the document as it
/// is.
pub proof fn lemma_absent_field_unchanged(document: JsonView, field: Seq<char>, edit: FieldEdit)
    requires
        pointer_target(document, pointer_of(field)) is None,
    ensures
        edited_at(document, field, edit) == document,
{
}

/// An edit of fields of which none is in the document leaves the document as
/// it is.
pub proof fn lemma_absent_fields_unchanged(
    document: JsonView,
    fields: Seq<Seq<char>>,
    edit: FieldEdit,
)
    requires
        forall|i: int|
            0 <= i < fields.len() ==> pointer_target(document, pointer_of(#[trigger] fields[i]))
                is None,
    ensures
        edited(document, fields, edit) == document,
    decreases fields.len(),
{
    if fields.len() > 0 {
        let rest = fields.drop_last();
        assert forall|i: int| 0 <= i < rest.len() implies pointer_target(
            document,
            pointer_of(#[trigger] rest[i]),
        ) is None by {
            assert(rest[i] == fields[i]);
        }
        lemma_absent_fields_unchanged(document, rest, edit);
    }
}

/// Edits one field of a document in place.
pub fn edit_field(document: &mut JsonValue, field: &str, edit: FieldEdit)
    ensures
        final(document)@ == edited_at(old(document)@, field@, edit),
{
    let pointer = dots_to_slashes(field);
    match lookup(document, pointer.as_str()) {
        Some(found) => match edit {
            FieldEdit::Unescape => {
                let decoded = unescape_value(found);
                store(document, pointer.as_str(), &decoded);
            },
            FieldEdit::Escape => {
                let encoded = escape_value(found);
                store(document, pointer.as_str(), &encoded);
            },
            FieldEdit::Drop => {
                remove(document, pointer.as_str());
            },
        },
        None => {},
    }
}

/// Edits each field of an optional list in place, in the list's order.
pub fn edit_fields(document: &mut JsonValue, fields: Option<&Vec<String>>, edit: FieldEdit)
    ensures
        final(document)@ == edited_with(old(document)@, field_list(fields), edit),
{
    match fields {
        Some(list) => {
            let ghost paths = text_views(list@);
            let mut i: usize = 0;
            while i < list.len()
                invariant
                    i <= list.len(),
                    paths == text_views(list@),
                    document@ == edited(old(document)@, paths.take(i as int), edit),
                decreases list.len() - i,
            {
                edit_field(document, list[i].as_str(), edit);
                assert(paths.take(i + 1).drop_last() =~= paths.take(i as int));
                i += 1;
            }
            assert(paths.take(list.len() as int) =~= paths);
        },
        None => {},
    }
}

/// Why a document could not be filtered.
#[derive(Clone, Debug, PartialEq)]
pub enum FilterError {
    /// The pattern is not a regular expression.
    RegexCompile(RegexCompileError),
    /// The document is not an object.
    NotAnObject(NotAnObjectError),
}

/// A JSON document with the operations on its fields.
#[derive(Debug, PartialEq)]
pub struct Json {
    pub value: JsonValue,
}

impl View for Json {
    type V = JsonView;

    open spec fn view(&self) -> JsonView {
        self.value@
    }
}

impl Json {
    /// Wraps a value.
    pub fn new(value: JsonValue) -> (json: Json)
        ensures
            json.value == value,
    {
        Json { value }
    }

    /// Reads a document from JSON text.
    pub fn parse(text: &str) -> (outcome: Result<Json, LineError>)
        ensures
            match outcome {
                Ok(json) => line_read(text@) == Ok::<JsonView, LineFault>(json@),
                Err(error) => line_read(text@) == Err::<JsonView, LineFault>(error@),
            },
    {
        match parse_line(text) {
            Ok(value) => Ok(Json { value }),
            Err(error) => Err(error),
        }
    }

    /// Builds the object that a list of records gives: of two records with
    /// one key the later gives the value.
    pub fn from_entries(entries: Vec<(String, JsonValue)>) -> (json: Json)
        ensures
            json@ == JsonView::Object(collected(entry_views(entries@))),
    {
        let all = KeyFilter::accept_all();
        proof {
            lemma_kept_unfiltered(entry_views(entries@));
        }
        Json { value: to_document(entries, &all) }
    }

    /// Unescapes the listed fields that the document has.
    pub fn unescape(self, fields: Option<&Vec<String>>) -> (json: Json)
        ensures
            json@ == edited_with(self@, field_list(fields), FieldEdit::Unescape),
    {
        let mut value = self.value;
        edit_fields(&mut value, fields, FieldEdit::Unescape);
        Json { value }
    }

    /// Escapes the listed fields that the document has.
    pub fn escape(self, fields: Option<&Vec<String>>) -> (json: Json)
        ensures
            json@ == edited_with(self@, field_list(fields), FieldEdit::Escape),
    {
        let mut value = self.value;
        edit_fields(&mut value, fields, FieldEdit::Escape);
        Json { value }
    }

    /// Drops the listed fields that the document has.
    pub fn drop(self, fields: Option<&Vec<String>>) -> (json: Json)
        ensures
            json@ == edited_with(self@, field_list(fields), FieldEdit::Drop),
    {
        let mut value = self.value;
        edit_fields(&mut value, fields, FieldEdit::Drop);
        Json { value }
    }

    /// Unescapes, then escapes, then drops: the three lists of one run.
    pub fn edit(
        self,
        unescape_fields: Option<&Vec<String>>,
        escape_fields: Option<&Vec<String>>,
        drop_fields: Option<&Vec<String>>,
    ) -> (json: Json)
        ensures
            json@ == edited_with(
                edited_with(
                    edited_with(self@, field_list(unescape_fields), FieldEdit::Unescape),
                    field_list(escape_fields),
                    FieldEdit::Escape,
                ),
                field_list(drop_fields),
                FieldEdit::Drop,
            ),
    {
        self.unescape(unescape_fields).escape(escape_fields).drop(drop_fields)
    }

    /// Keeps the top-level entries whose key matches the pattern. Without a
    /// pattern the document comes back as it is, whatever its type. With
    /// one, a pattern that is not a regular expression is an error, and so
    /// is a document that is not an object.
    pub fn filter(self, filter: Option<&String>) -> (outcome: Result<Json, FilterError>)
        ensures
            match filter {
                None => outcome == Ok::<Json, FilterError>(self),
                Some(pattern) => match outcome {
                    Ok(json) => {
                        &&& filter_compiles(pattern@)
                        &&& self@ matches JsonView::Object(entries)
                        &&& json@ == JsonView::Object(
                            kept(entries, filter_of(Some(pattern@))),
                        )
                    },
                    Err(FilterError::RegexCompile(error)) => !filter_compiles(pattern@),
                    Err(FilterError::NotAnObject(_)) => filter_compiles(pattern@) && !(self@
                        is Object),
                },
            },
    {
        match filter {
            None => Ok(self),
            Some(_) => match KeyFilter::compile(filter) {
                Err(error) => Err(FilterError::RegexCompile(error)),
                Ok(compiled) => match to_entries(self.value, &compiled) {
                    Ok(list) => {
                        proof {
                            lemma_object_view(list);
                            lemma_collected_distinct(entry_views(list@));
                        }
                        Ok(Json { value: JsonValue::Object(list) })
                    },
                    Err(error) => Err(FilterError::NotAnObject(error)),
                },
            },
        }
    }

    /// The top-level entries of an object as records, in the object's
    /// order. Any other JSON type is an error.
    pub fn entries(self) -> (outcome: Result<Entries, NotAnObjectError>)
        ensures
            match outcome {
                Ok(records) => self@ == JsonView::Object(records@),
                Err(_) => !(self@ is Object),
            },
    {
        match to_entries(self.value, &KeyFilter::accept_all()) {
            Ok(list) => {
                proof {
                    lemma_kept_unfiltered(self@->Object_0);
                }
                Ok(Entries { list })
            },
            Err(error) => Err(error),
        }
    }

    /// The document's value.
    pub fn value(self) -> (value: JsonValue)
        ensures
            value == self.value,
    {
        self.value
    }
}

impl From<JsonValue> for Json {
    fn from(value: JsonValue) -> (json: Json) {
        Json { value }
    }
}

impl vstd::std_specs::convert::FromSpecImpl<JsonValue> for Json {
    open spec fn obeys_from_spec() -> bool {
        true
    }

    open spec fn from_spec(value: JsonValue) -> Json {
        Json { value }
    }
}

impl From<Json> for JsonValue {
    fn from(json: Json) -> (value: JsonValue) {
        json.value
    }
}

impl vstd::std_specs::convert::FromSpecImpl<Json> for JsonValue {
    open spec fn obeys_from_spec() -> bool {
        true
    }

    open spec fn from_spec(json: Json) -> JsonValue {
        json.value
    }
}

impl From<Vec<(String, JsonValue)>> for Json {
    fn from(entries: Vec<(String, JsonValue)>) -> (json: Json)
        ensures
            json@ == JsonView::Object(collected(entry_views(entries@))),
    {
        Json::from_entries(entries)
    }
}

/// The object that records build is pinned by its view, in the contract of
/// `from`, and not as a value.
impl vstd::std_specs::convert::FromSpecImpl<Vec<(String, JsonValue)>> for Json {
    open spec fn obeys_from_spec() -> bool {
        false
    }

    open spec fn from_spec(entries: Vec<(String, JsonValue)>) -> Json {
        choose|json: Json| json@ == JsonView::Object(collected(entry_views(entries@)))
    }
}

/// Whether a pattern gives a filter: the empty pattern does, and so does
/// each regular expression.
pub open spec fn filter_compiles(pattern: Seq<char>) -> bool {
    pattern.len() > 0 ==> crate::bridge::pattern_fault(pattern) is None
}

/// A list of records: (key, value) pairs.
#[derive(Debug, PartialEq)]
pub struct Entries {
    list: Vec<(String, JsonValue)>,
}

impl View for Entries {
    type V = Seq<Entry>;

    closed spec fn view(&self) -> Seq<Entry> {
        entry_views(self.list@)
    }
}

/// A list of records after the listed fields were dropped from each value.
pub open spec fn each_dropped(records: Seq<Entry>, fields: Option<Seq<Seq<char>>>) -> Seq<Entry> {
    Seq::new(
        records.len(),
        |i: int| (records[i].0, edited_with(records[i].1, fields, FieldEdit::Drop)),
    )
}

impl Entries {
    /// Wraps a list of records.
    pub fn new(list: Vec<(String, JsonValue)>) -> (records: Entries)
        ensures
            records@ == entry_views(list@),
    {
        Entries { list }
    }

    /// Drops the listed fields from the value of each record.
    pub fn drop(self, fields: Option<&Vec<String>>) -> (records: Entries)
        ensures
            records@ == each_dropped(self@, field_list(fields)),
    {
        let ghost all = self.list@;
        let mut list: Vec<(String, JsonValue)> = Vec::new();
        for entry in it: self.list
            invariant
                it.seq() == all,
                list@.len() == it.index(),
                forall|k: int|
                    0 <= k < it.index() ==> (#[trigger] list@[k]).0@ == all[k].0@ && list@[k].1@
                        == edited_with(all[k].1@, field_list(fields), FieldEdit::Drop),
        {
            let (key, mut value) = entry;
            edit_fields(&mut value, fields, FieldEdit::Drop);
            list.push((key, value));
        }
        Entries { list }
    }

    /// Keeps the records whose key matches the pattern, or all of them
    /// without a pattern. A pattern that is not a regular expression is an
    /// error.
    pub fn filter(self, fields: Option<&String>) -> (outcome: Result<Entries, RegexCompileError>)
        ensures
            match outcome {
                Ok(records) => {
                    &&& fields matches Some(pattern) ==> filter_compiles(pattern@)
                    &&& records@ == kept(self@, filter_of(pattern_view(fields)))
                },
                Err(_) => fields matches Some(pattern) && !filter_compiles(pattern@),
            },
    {
        match KeyFilter::compile(fields) {
            Ok(compiled) => Ok(Entries { list: keep_matching(self.list, &compiled) }),
            Err(error) => Err(error),
        }
    }

    /// The records.
    pub fn list(self) -> (list: Vec<(String, JsonValue)>)
        ensures
            entry_views(list@) == self@,
    {
        self.list
    }
}

} // verus!
