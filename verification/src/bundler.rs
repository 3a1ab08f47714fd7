//! The bundler: the records of a directory become the lines of a stream.

use crate::bridge::compact_text;
use crate::json::{edit_fields, edited_with, FieldEdit};
use crate::stream::serialize_line;
use crate::value::{text_views, JsonValue, JsonView};
use vstd::prelude::*;

verus! {

/// The paths of an optional list of fields that is owned.
pub open spec fn owned_fields(fields: Option<Vec<String>>) -> Option<Seq<Seq<char>>> {
    match fields {
        Some(list) => Some(text_views(list@)),
        None => None,
    }
}

/// What a bundler was told to do.
pub struct BundlerView {
    /// The fields to escape.
    pub escape_fields: Option<Seq<Seq<char>>>,
    /// The fields to drop.
    pub drop_fields: Option<Seq<Seq<char>>>,
}

/// Collects what a bundler is told to do.
pub struct BundlerBuilder {
    escape_fields: Option<Vec<String>>,
    drop_fields: Option<Vec<String>>,
}

impl View for BundlerBuilder {
    type V = BundlerView;

    closed spec fn view(&self) -> BundlerView {
        BundlerView {
            escape_fields: owned_fields(self.escape_fields),
            drop_fields: owned_fields(self.drop_fields),
        }
    }
}

impl BundlerBuilder {
    /// A builder with no field to escape and none to drop.
    pub fn new() -> (builder: BundlerBuilder)
        ensures
            builder@.escape_fields is None,
            builder@.drop_fields is None,
    {
        BundlerBuilder { escape_fields: None, drop_fields: None }
    }

    /// Sets the fields to escape.
    pub fn escape_fields(self, fields: Option<Vec<String>>) -> (builder: BundlerBuilder)
        ensures
            builder@.escape_fields == owned_fields(fields),
            builder@.drop_fields == self@.drop_fields,
    {
        BundlerBuilder { escape_fields: fields, drop_fields: self.drop_fields }
    }

    /// Sets the fields to drop.
    pub fn drop_fields(self, fields: Option<Vec<String>>) -> (builder: BundlerBuilder)
        ensures
            builder@.escape_fields == self@.escape_fields,
            builder@.drop_fields == owned_fields(fields),
    {
        BundlerBuilder { escape_fields: self.escape_fields, drop_fields: fields }
    }

    /// The bundler that does what the builder was told.
    pub fn build(self) -> (bundler: Bundler)
        ensures
            bundler@ == self@,
    {
        Bundler { escape_fields: self.escape_fields, drop_fields: self.drop_fields }
    }
}

/// Turns records into lines: each value has its listed fields escaped, then
/// dropped, and is written compact.
pub struct Bundler {
    escape_fields: Option<Vec<String>>,
    drop_fields: Option<Vec<String>>,
}

impl View for Bundler {
    type V = BundlerView;

    closed spec fn view(&self) -> BundlerView {
        BundlerView {
            escape_fields: owned_fields(self.escape_fields),
            drop_fields: owned_fields(self.drop_fields),
        }
    }
}

/// A record's value as the bundler writes it: the listed fields escaped,
/// then the listed fields dropped. Nothing is unescaped and no key is
/// filtered.
pub open spec fn bundled(bundler: BundlerView, value: JsonView) -> JsonView {
    edited_with(
        edited_with(value, bundler.escape_fields, FieldEdit::Escape),
        bundler.drop_fields,
        FieldEdit::Drop,
    )
}

impl Bundler {
    /// Prepares one record's value for the stream.
    pub fn transform(&self, value: JsonValue) -> (json: JsonValue)
        ensures
            json@ == bundled(self@, value@),
    {
        let mut json = value;
        edit_fields(&mut json, self.escape_fields.as_ref(), FieldEdit::Escape);
        edit_fields(&mut json, self.drop_fields.as_ref(), FieldEdit::Drop);
        json
    }

    /// Turns the records into the lines of the stream: one line for each
    /// record, in the records' order, each the compact text of the record's
    /// prepared value, with no line feed in it. The names of the records are
    /// not written.
    pub fn bundle(&self, entries: Vec<(String, JsonValue)>) -> (lines: Vec<String>)
        ensures
            lines@.len() == entries@.len(),
            forall|i: int|
                0 <= i < entries@.len() ==> (#[trigger] lines@[i])@ == compact_text(
                    bundled(self@, entries@[i].1@),
                ) && !lines@[i]@.contains('\n'),
    {
        let ghost all = entries@;
        let mut lines: Vec<String> = Vec::new();
        for entry in it: entries
            invariant
                it.seq() == all,
                lines@.len() == it.index(),
                forall|i: int|
                    0 <= i < it.index() ==> (#[trigger] lines@[i])@ == compact_text(
                        bundled(self@, all[i].1@),
                    ) && !lines@[i]@.contains('\n'),
        {
            let json = self.transform(entry.1);
            lines.push(serialize_line(&json, false));
        }
        lines
    }
}

} // verus!
