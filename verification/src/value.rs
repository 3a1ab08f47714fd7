//! The JSON data model: an executable tree and its mathematical view.

use crate::bridge::{number_text, number_to_text};
use crate::object::{collected, distinct_keys, lemma_collected};
use vstd::prelude::*;

verus! {

/// A JSON number. `serde_json` keeps the digits; the library reads only
/// their text, which is the number's view.
#[derive(Clone, Debug, PartialEq)]
pub struct JsonNumber {
    pub(crate) inner: serde_json::Number,
}

impl View for JsonNumber {
    type V = Seq<char>;

    closed spec fn view(&self) -> Seq<char> {
        number_text(self.inner)
    }
}

impl JsonNumber {
    /// Wraps a number of `serde_json`.
    pub fn new(inner: serde_json::Number) -> (number: JsonNumber)
        ensures
            number@ == number_text(inner),
    {
        JsonNumber { inner }
    }

    /// Gives the number back to `serde_json`.
    pub fn into_inner(self) -> (inner: serde_json::Number)
        ensures
            number_text(inner) == self@,
    {
        self.inner
    }

    /// The number's JSON text.
    pub fn text(&self) -> (text: String)
        ensures
            text@ == self@,
    {
        number_to_text(&self.inner)
    }

    /// A copy of the number.
    pub fn duplicate(&self) -> (copy: JsonNumber)
        ensures
            copy@ == self@,
    {
        JsonNumber { inner: self.inner.clone() }
    }
}

/// A JSON document or a part of one. An object is held as the list of the
/// entries that build it, in the order of their insertion: where two
/// entries have one key, the later one gives the key's value.
#[derive(Debug, PartialEq)]
pub enum JsonValue {
    Null,
    Bool(bool),
    Number(JsonNumber),
    String(String),
    Array(Vec<JsonValue>),
    Object(Vec<(String, JsonValue)>),
}

/// What a `JsonValue` denotes. In the view of a value an object has each
/// key once (`lemma_view_well_formed`).
pub enum JsonView {
    Null,
    Bool(bool),
    Number(Seq<char>),
    String(Seq<char>),
    Array(Seq<JsonView>),
    Object(Seq<(Seq<char>, JsonView)>),
}

/// An entry of an object, or a record: a key and a value.
pub type Entry = (Seq<char>, JsonView);

impl JsonView {
    /// A document is well formed where no object in it, at any depth, has
    /// two entries with one key.
    pub open spec fn well_formed(self) -> bool
        decreases self,
    {
        match self {
            JsonView::Array(items) => forall|i: int|
                0 <= i < items.len() ==> (#[trigger] items[i]).well_formed(),
            JsonView::Object(entries) => {
                &&& distinct_keys(entries)
                &&& forall|i: int|
                    0 <= i < entries.len() ==> (#[trigger] entries[i]).1.well_formed()
            },
            _ => true,
        }
    }
}

/// The view of a value: each string as its characters, each number as its
/// text, each array as the views of its items, and each object as the
/// object that its entries build.
pub open spec fn view_of(value: &JsonValue) -> JsonView
    decreases value,
{
    match value {
        JsonValue::Null => JsonView::Null,
        JsonValue::Bool(b) => JsonView::Bool(*b),
        JsonValue::Number(n) => JsonView::Number(n@),
        JsonValue::String(s) => JsonView::String(s@),
        JsonValue::Array(items) => JsonView::Array(
            Seq::new(
                items@.len(),
                |i: int|
                    if 0 <= i < items@.len() {
                        view_of(&items@[i])
                    } else {
                        JsonView::Null
                    },
            ),
        ),
        JsonValue::Object(entries) => JsonView::Object(
            collected(
                Seq::new(
                    entries@.len(),
                    |i: int|
                        if 0 <= i < entries@.len() {
                            (entries@[i].0@, view_of(&entries@[i].1))
                        } else {
                            (Seq::empty(), JsonView::Null)
                        },
                ),
            ),
        ),
    }
}

impl View for JsonValue {
    type V = JsonView;

    open spec fn view(&self) -> JsonView {
        view_of(self)
    }
}

/// The views of a list of values, in order.
pub open spec fn item_views(items: Seq<JsonValue>) -> Seq<JsonView> {
    Seq::new(items.len(), |i: int| items[i]@)
}

/// The views of a list of (key, value) pairs, in order.
pub open spec fn entry_views(entries: Seq<(String, JsonValue)>) -> Seq<Entry> {
    Seq::new(entries.len(), |i: int| (entries[i].0@, entries[i].1@))
}

/// The views of a list of strings, in order.
pub open spec fn text_views(texts: Seq<String>) -> Seq<Seq<char>> {
    Seq::new(texts.len(), |i: int| texts[i]@)
}

/// An array's view is the list of its items' views.
pub proof fn lemma_array_view(items: Vec<JsonValue>)
    ensures
        JsonValue::Array(items)@ == JsonView::Array(item_views(items@)),
{
    assert(JsonValue::Array(items)@->Array_0 =~= item_views(items@));
}

/// An object's view is the object that the views of its entries build.
pub proof fn lemma_object_view(entries: Vec<(String, JsonValue)>)
    ensures
        JsonValue::Object(entries)@ == JsonView::Object(collected(entry_views(entries@))),
{
    let built = JsonValue::Object(entries)@->Object_0;
    let listed = choose|listed: Seq<Entry>|
        built == #[trigger] collected(listed) && listed.len() == entries@.len() && forall|i: int|
            0 <= i < entries@.len() ==> listed[i] == (entries@[i].0@, entries@[i].1@);
    assert(listed =~= entry_views(entries@));
}

/// The view of every value is well formed.
pub proof fn lemma_view_well_formed(value: JsonValue)
    ensures
        value@.well_formed(),
    decreases value,
{
    match value {
        JsonValue::Array(items) => {
            lemma_array_view(items);
            assert forall|i: int| 0 <= i < items@.len() implies (#[trigger] item_views(
                items@,
            )[i]).well_formed() by {
                lemma_view_well_formed(items@[i]);
            }
        },
        JsonValue::Object(entries) => {
            lemma_object_view(entries);
            let listed = entry_views(entries@);
            let built = collected(listed);
            lemma_collected(listed);
            assert forall|i: int| 0 <= i < built.len() implies (#[trigger] built[i]).1.well_formed(
            ) by {
                assert(listed.contains(built[i]));
                let k = choose|k: int| 0 <= k < listed.len() && listed[k] == built[i];
                lemma_view_well_formed(entries@[k].1);
            }
        },
        _ => {},
    }
}

impl JsonValue {
    /// A deep copy of the value.
    pub fn duplicate(&self) -> (copy: JsonValue)
        ensures
            copy@ == self@,
        decreases self,
    {
        match self {
            JsonValue::Null => JsonValue::Null,
            JsonValue::Bool(b) => JsonValue::Bool(*b),
            JsonValue::Number(n) => JsonValue::Number(n.duplicate()),
            JsonValue::String(s) => JsonValue::String(s.clone()),
            JsonValue::Array(items) => {
                let mut copies: Vec<JsonValue> = Vec::new();
                let mut i: usize = 0;
                while i < items.len()
                    invariant
                        *self == JsonValue::Array(*items),
                        i <= items.len(),
                        copies@.len() == i,
                        forall|k: int| 0 <= k < i ==> copies@[k]@ == items@[k]@,
                    decreases items.len() - i,
                {
                    assert(decreases_to!(*self => self->Array_0));
                    assert(decreases_to!(items => items[i as int]));
                    copies.push(items[i].duplicate());
                    i += 1;
                }
                proof {
                    lemma_array_view(copies);
                    lemma_array_view(*items);
                    assert(item_views(copies@) =~= item_views(items@));
                }
                JsonValue::Array(copies)
            },
            JsonValue::Object(entries) => {
                let mut copies: Vec<(String, JsonValue)> = Vec::new();
                let mut i: usize = 0;
                while i < entries.len()
                    invariant
                        *self == JsonValue::Object(*entries),
                        i <= entries.len(),
                        copies@.len() == i,
                        forall|k: int|
                            0 <= k < i ==> copies@[k].0@ == entries@[k].0@ && copies@[k].1@
                                == entries@[k].1@,
                    decreases entries.len() - i,
                {
                    assert(decreases_to!(*self => self->Object_0));
                    assert(decreases_to!(entries => entries[i as int]));
                    copies.push((entries[i].0.clone(), entries[i].1.duplicate()));
                    i += 1;
                }
                proof {
                    lemma_object_view(copies);
                    lemma_object_view(*entries);
                    assert(entry_views(copies@) =~= entry_views(entries@));
                }
                JsonValue::Object(copies)
            },
        }
    }
}

} // verus!
