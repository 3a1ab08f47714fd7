//! The unbundler: the lines of a stream become named records.

use crate::bundler::owned_fields;
use crate::json::{edit_fields, edited_with, FieldEdit};
use crate::naming::{name_for, name_of};
use crate::stream::{line_read, parse_line, LineError, LineFault};
use crate::value::{entry_views, text_views, Entry, JsonValue, JsonView};
use vstd::prelude::*;

verus! {

/// What an unbundler was told to do.
pub struct UnbundlerView {
    /// The fields that may name a record, in the order in which they are
    /// tried.
    pub filename: Seq<Seq<char>>,
    /// The fields to unescape.
    pub unescape_fields: Option<Seq<Seq<char>>>,
    /// The fields to drop.
    pub drop_fields: Option<Seq<Seq<char>>>,
    /// The field whose value is appended to the name.
    pub type_field: Option<Seq<char>>,
}

/// The candidate fields of an optional list: none where there is no list.
pub open spec fn candidate_fields(filename: Option<Vec<String>>) -> Seq<Seq<char>> {
    match filename {
        Some(list) => text_views(list@),
        None => Seq::empty(),
    }
}

/// The characters of an optional field path that is owned.
pub open spec fn owned_field(field: Option<String>) -> Option<Seq<char>> {
    match field {
        Some(text) => Some(text@),
        None => None,
    }
}

/// Collects what an unbundler is told to do.
pub struct UnbundlerBuilder {
    filename: Option<Vec<String>>,
    unescape_fields: Option<Vec<String>>,
    drop_fields: Option<Vec<String>>,
    type_field: Option<String>,
}

impl View for UnbundlerBuilder {
    type V = UnbundlerView;

    closed spec fn view(&self) -> UnbundlerView {
        UnbundlerView {
            filename: candidate_fields(self.filename),
            unescape_fields: owned_fields(self.unescape_fields),
            drop_fields: owned_fields(self.drop_fields),
            type_field: owned_field(self.type_field),
        }
    }
}

impl UnbundlerBuilder {
    /// A builder with no naming field, no field to unescape or drop, and no
    /// type field.
    pub fn new() -> (builder: UnbundlerBuilder)
        ensures
            builder@ == (UnbundlerView {
                filename: Seq::empty(),
                unescape_fields: None,
                drop_fields: None,
                type_field: None,
            }),
    {
        UnbundlerBuilder {
            filename: None,
            unescape_fields: None,
            drop_fields: None,
            type_field: None,
        }
    }

    /// Sets the fields that may name a record.
    pub fn filename(self, filename: Option<Vec<String>>) -> (builder: UnbundlerBuilder)
        ensures
            builder@ == (UnbundlerView { filename: candidate_fields(filename), ..self@ }),
    {
        UnbundlerBuilder {
            filename,
            unescape_fields: self.unescape_fields,
            drop_fields: self.drop_fields,
            type_field: self.type_field,
        }
    }

    /// Sets the fields to unescape.
    pub fn unescape_fields(self, fields: Option<Vec<String>>) -> (builder: UnbundlerBuilder)
        ensures
            builder@ == (UnbundlerView { unescape_fields: owned_fields(fields), ..self@ }),
    {
        UnbundlerBuilder {
            filename: self.filename,
            unescape_fields: fields,
            drop_fields: self.drop_fields,
            type_field: self.type_field,
        }
    }

    /// Sets the fields to drop.
    pub fn drop_fields(self, fields: Option<Vec<String>>) -> (builder: UnbundlerBuilder)
        ensures
            builder@ == (UnbundlerView { drop_fields: owned_fields(fields), ..self@ }),
    {
        UnbundlerBuilder {
            filename: self.filename,
            unescape_fields: self.unescape_fields,
            drop_fields: fields,
            type_field: self.type_field,
        }
    }

    /// Sets the field whose value is appended to the name.
    pub fn type_field(self, field: Option<String>) -> (builder: UnbundlerBuilder)
        ensures
            builder@ == (UnbundlerView { type_field: owned_field(field), ..self@ }),
    {
        UnbundlerBuilder {
            filename: self.filename,
            unescape_fields: self.unescape_fields,
            drop_fields: self.drop_fields,
            type_field: field,
        }
    }

    /// The unbundler that does what the builder was told.
    pub fn build(self) -> (unbundler: Unbundler)
        ensures
            unbundler@ == self@,
    {
        Unbundler {
            filename: self.filename,
            unescape_fields: self.unescape_fields,
            drop_fields: self.drop_fields,
            type_field: self.type_field,
        }
    }
}

/// What one line of the stream leads to.
#[derive(Debug, PartialEq)]
pub enum Step {
    /// The input has ended: nothing is written and no further line is read.
    Done,
    /// The line is not JSON: nothing is written, the parser's message is
    /// reported, and reading goes on.
    Skipped(String),
    /// The line gave a record, to be written under this name.
    Entry(String, JsonValue),
}

/// What a `Step` denotes.
pub enum StepView {
    Done,
    Skipped(Seq<char>),
    Entry(Seq<char>, JsonView),
}

impl View for Step {
    type V = StepView;

    open spec fn view(&self) -> StepView {
        match self {
            Step::Done => StepView::Done,
            Step::Skipped(detail) => StepView::Skipped(detail@),
            Step::Entry(name, value) => StepView::Entry(name@, value@),
        }
    }
}

/// A record's value as the unbundler writes it: the listed fields
/// unescaped, then the listed fields dropped.
pub open spec fn unbundled(unbundler: UnbundlerView, value: JsonView) -> JsonView {
    edited_with(
        edited_with(value, unbundler.unescape_fields, FieldEdit::Unescape),
        unbundler.drop_fields,
        FieldEdit::Drop,
    )
}

/// The named record that the value of the line with a given index becomes.
/// The name is computed from the value as it is written.
pub open spec fn record_of(unbundler: UnbundlerView, index: nat, value: JsonView) -> Entry {
    let written = unbundled(unbundler, value);
    (name_of(index, written, unbundler.filename, unbundler.type_field), written)
}

/// What the line with a given index leads to. The index counts every line
/// before it, the skipped ones too.
pub open spec fn stepped(unbundler: UnbundlerView, index: nat, line: Seq<char>) -> StepView {
    match line_read(line) {
        Ok(value) => {
            let record = record_of(unbundler, index, value);
            StepView::Entry(record.0, record.1)
        },
        Err(LineFault::EndOfInput) => StepView::Done,
        Err(LineFault::Malformed(detail)) => StepView::Skipped(detail),
    }
}

/// The number of lines that are read: those before the first that ends the
/// input.
pub open spec fn lines_read(lines: Seq<Seq<char>>) -> nat
    decreases lines.len(),
{
    if lines.len() == 0 {
        0
    } else if line_read(lines.first()) == Err::<JsonView, LineFault>(LineFault::EndOfInput) {
        0
    } else {
        1 + lines_read(lines.drop_first())
    }
}

/// The records that the first `count` lines give, in the lines' order.
pub open spec fn records_of(unbundler: UnbundlerView, lines: Seq<Seq<char>>, count: nat) -> Seq<
    Entry,
>
    decreases count,
{
    if count == 0 {
        Seq::empty()
    } else {
        let before = records_of(unbundler, lines, (count - 1) as nat);
        match line_read(lines[count - 1]) {
            Ok(value) => before.push(record_of(unbundler, (count - 1) as nat, value)),
            Err(_) => before,
        }
    }
}

/// The lines among the first `count` that are skipped, each with its index
/// and the parser's message.
pub open spec fn skipped_of(lines: Seq<Seq<char>>, count: nat) -> Seq<(nat, Seq<char>)>
    decreases count,
{
    if count == 0 {
        Seq::empty()
    } else {
        let before = skipped_of(lines, (count - 1) as nat);
        match line_read(lines[count - 1]) {
            Err(LineFault::Malformed(detail)) => before.push(((count - 1) as nat, detail)),
            _ => before,
        }
    }
}

/// What a whole stream gave.
#[derive(Debug, PartialEq)]
pub struct Unbundled {
    /// The named records, in the order of their lines.
    pub entries: Vec<(String, JsonValue)>,
    /// The skipped lines: index and parser's message.
    pub skipped: Vec<(usize, String)>,
    /// The number of lines that were read before the input ended.
    pub read: usize,
}

/// The views of a list of skipped lines.
pub open spec fn skipped_views(skipped: Seq<(usize, String)>) -> Seq<(nat, Seq<char>)> {
    Seq::new(skipped.len(), |i: int| (skipped[i].0 as nat, skipped[i].1@))
}

/// Turns lines into named records: each value has its listed fields
/// unescaped, then dropped, and is named by the naming policy.
pub struct Unbundler {
    filename: Option<Vec<String>>,
    unescape_fields: Option<Vec<String>>,
    drop_fields: Option<Vec<String>>,
    type_field: Option<String>,
}

impl View for Unbundler {
    type V = UnbundlerView;

    closed spec fn view(&self) -> UnbundlerView {
        UnbundlerView {
            filename: candidate_fields(self.filename),
            unescape_fields: owned_fields(self.unescape_fields),
            drop_fields: owned_fields(self.drop_fields),
            type_field: owned_field(self.type_field),
        }
    }
}

/// Where no line ends the input, every line is read.
pub proof fn lemma_all_lines_read(lines: Seq<Seq<char>>)
    requires
        forall|i: int|
            0 <= i < lines.len() ==> line_read(#[trigger] lines[i]) != Err::<JsonView, LineFault>(
                LineFault::EndOfInput,
            ),
    ensures
        lines_read(lines) == lines.len(),
    decreases lines.len(),
{
    if lines.len() > 0 {
        let rest = lines.drop_first();
        assert forall|i: int| 0 <= i < rest.len() implies line_read(#[trigger] rest[i]) != Err::<
            JsonView,
            LineFault,
        >(LineFault::EndOfInput) by {
            assert(rest[i] == lines[i + 1]);
        }
        lemma_all_lines_read(rest);
    }
}

/// Where each of the first `count` lines is JSON, they give one record
/// each, in the lines' order: the record at a place is the one that the
/// line at that place gives, named with that place as its index.
pub proof fn lemma_one_record_per_line(
    unbundler: UnbundlerView,
    lines: Seq<Seq<char>>,
    count: nat,
)
    requires
        count <= lines.len(),
        forall|i: int| 0 <= i < count ==> line_read(#[trigger] lines[i]) is Ok,
    ensures
        records_of(unbundler, lines, count).len() == count,
        skipped_of(lines, count).len() == 0,
        forall|i: int|
            0 <= i < count ==> #[trigger] records_of(unbundler, lines, count)[i] == record_of(
                unbundler,
                i as nat,
                line_read(lines[i])->Ok_0,
            ),
    decreases count,
{
    if count > 0 {
        lemma_one_record_per_line(unbundler, lines, (count - 1) as nat);
    }
}

impl Unbundler {
    /// Unescapes the listed fields of a record's value in place.
    pub fn unescape_fields(&self, json: &mut JsonValue)
        ensures
            final(json)@ == edited_with(old(json)@, self@.unescape_fields, FieldEdit::Unescape),
    {
        edit_fields(json, self.unescape_fields.as_ref(), FieldEdit::Unescape);
    }

    /// Drops the listed fields of a record's value in place.
    pub fn drop_fields(&self, json: &mut JsonValue)
        ensures
            final(json)@ == edited_with(old(json)@, self@.drop_fields, FieldEdit::Drop),
    {
        edit_fields(json, self.drop_fields.as_ref(), FieldEdit::Drop);
    }

    /// The name of the record with a given index.
    pub fn name_entry(&self, index: usize, json: &JsonValue) -> (name: String)
        ensures
            name@ == name_of(index as nat, json@, self@.filename, self@.type_field),
    {
        match &self.filename {
            Some(list) => name_for(index, json, list, self.type_field.as_ref()),
            None => {
                let none: Vec<String> = Vec::new();
                name_for(index, json, &none, self.type_field.as_ref())
            },
        }
    }

    /// Decides what the line with a given index leads to: the end of the
    /// input, a skipped line, or a record to write. The caller reads the
    /// lines, counts them, and writes the records.
    pub fn step(&self, index: usize, line: &str) -> (step: Step)
        ensures
            step@ == stepped(self@, index as nat, line@),
    {
        match parse_line(line) {
            Ok(value) => {
                let mut json = value;
                self.unescape_fields(&mut json);
                self.drop_fields(&mut json);
                let name = self.name_entry(index, &json);
                Step::Entry(name, json)
            },
            Err(LineError::EndOfInput) => Step::Done,
            Err(LineError::Malformed(detail)) => Step::Skipped(detail),
        }
    }

    /// Takes one line of the stream: decides what it leads to, with the
    /// counter as the line's index, and moves the counter on. The counter
    /// counts every line that was read, a skipped one too; it stays where the
    /// input has ended.
    pub fn advance(&self, counter: &mut usize, line: &str) -> (step: Step)
        requires
            *old(counter) < usize::MAX,
        ensures
            step@ == stepped(self@, *old(counter) as nat, line@),
            *final(counter) == if step is Done {
                *old(counter) as int
            } else {
                *old(counter) + 1
            },
    {
        let step = self.step(*counter, line);
        match step {
            Step::Done => {},
            _ => {
                *counter = *counter + 1;
            },
        }
        step
    }

    /// Unbundles a stream that is held as a list of lines. Reading stops at
    /// the first line that ends the input. Each line before it that is JSON
    /// gives one record, in the lines' order, named with the line's index;
    /// each other line is skipped and reported. Where every line is JSON,
    /// there is exactly one record for each line.
    pub fn unbundle(&self, lines: &Vec<String>) -> (done: Unbundled)
        ensures
            done.read == lines_read(text_views(lines@)),
            entry_views(done.entries@) == records_of(self@, text_views(lines@), done.read as nat),
            skipped_views(done.skipped@) == skipped_of(text_views(lines@), done.read as nat),
            (forall|i: int| 0 <= i < lines@.len() ==> line_read(#[trigger] lines@[i]@) is Ok) ==> {
                &&& done.read == lines@.len()
                &&& done.entries@.len() == lines@.len()
                &&& done.skipped@.len() == 0
                &&& forall|i: int|
                    0 <= i < lines@.len() ==> (#[trigger] done.entries@[i]).0@ == record_of(
                        self@,
                        i as nat,
                        line_read(lines@[i]@)->Ok_0,
                    ).0 && done.entries@[i].1@ == record_of(
                        self@,
                        i as nat,
                        line_read(lines@[i]@)->Ok_0,
                    ).1
            },
    {
        let ghost texts = text_views(lines@);
        let mut entries: Vec<(String, JsonValue)> = Vec::new();
        let mut skipped: Vec<(usize, String)> = Vec::new();
        let mut i: usize = 0;
        assert(texts.skip(0) =~= texts);
        while i < lines.len()
            invariant_except_break
                i <= lines.len(),
                texts == text_views(lines@),
                lines_read(texts) == i + lines_read(texts.skip(i as int)),
            invariant
                i <= lines.len(),
                texts == text_views(lines@),
                entry_views(entries@) == records_of(self@, texts, i as nat),
                skipped_views(skipped@) == skipped_of(texts, i as nat),
            ensures
                i == lines_read(texts),
            decreases lines.len() - i,
        {
            assert(texts.skip(i as int).drop_first() =~= texts.skip(i + 1));
            let at = i;
            match self.advance(&mut i, lines[at].as_str()) {
                Step::Done => {
                    break ;
                },
                Step::Skipped(detail) => {
                    skipped.push((at, detail));
                },
                Step::Entry(name, value) => {
                    entries.push((name, value));
                },
            }
        }
        proof {
            if forall|k: int| 0 <= k < lines@.len() ==> line_read(#[trigger] lines@[k]@) is Ok {
                assert forall|k: int| 0 <= k < texts.len() implies line_read(
                    #[trigger] texts[k],
                ) is Ok by {
                    assert(texts[k] == lines@[k]@);
                }
                lemma_all_lines_read(texts);
                lemma_one_record_per_line(self@, texts, texts.len());
                assert forall|k: int| 0 <= k < lines@.len() implies (#[trigger] entries@[k]).0@
                    == record_of(self@, k as nat, line_read(lines@[k]@)->Ok_0).0 && entries@[k].1@
                    == record_of(self@, k as nat, line_read(lines@[k]@)->Ok_0).1 by {
                    assert(entry_views(entries@)[k] == records_of(self@, texts, texts.len())[k]);
                }
            }
        }
        Unbundled { entries, skipped, read: i }
    }
}

} // verus!
