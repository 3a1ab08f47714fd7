//! The record assembler: one object becomes a list of (key, value) records,
//! and a list of records becomes one object, both through a key filter.

use crate::filter::{accepts, filter_of, pattern_text, KeyFilter, RegexCompileError};
use crate::object::{
    collected, distinct_keys, indexes, key_index, lemma_collected, lemma_collected_distinct,
    lemma_key_index, lemma_key_index_push, lemma_key_index_update, value_at,
};
use crate::value::{
    entry_views, lemma_object_view, lemma_view_well_formed, Entry, JsonValue, JsonView,
};
use vstd::hash_map::StringHashMap;
use vstd::prelude::*;

verus! {

/// The entries that a filter lets through, in their order.
pub open spec fn kept(entries: Seq<Entry>, filter: Option<Seq<char>>) -> Seq<Entry>
    decreases entries.len(),
{
    if entries.len() == 0 {
        Seq::empty()
    } else if accepts(filter, entries.last().0) {
        kept(entries.drop_last(), filter).push(entries.last())
    } else {
        kept(entries.drop_last(), filter)
    }
}

/// The input of an operation that needs an object was of another JSON type.
#[derive(Clone, Debug, PartialEq)]
pub struct NotAnObjectError;

/// What a filter keeps is what the list holds and the filter lets through.
pub proof fn lemma_kept_members(entries: Seq<Entry>, filter: Option<Seq<char>>)
    ensures
        forall|e: Entry| #[trigger]
            kept(entries, filter).contains(e) <==> entries.contains(e) && accepts(filter, e.0),
    decreases entries.len(),
{
    if entries.len() > 0 {
        let rest = entries.drop_last();
        let last = entries.last();
        lemma_kept_members(rest, filter);
        assert forall|e: Entry| #[trigger]
            kept(entries, filter).contains(e) <==> entries.contains(e) && accepts(
                filter,
                e.0,
            ) by {
            if entries.contains(e) {
                let i = choose|i: int| 0 <= i < entries.len() && entries[i] == e;
                if i < rest.len() {
                    assert(rest[i] == e);
                }
            }
            if rest.contains(e) {
                let i = choose|i: int| 0 <= i < rest.len() && rest[i] == e;
                assert(entries[i] == e);
            }
            if accepts(filter, last.0) {
                let grown = kept(rest, filter).push(last);
                assert(grown[grown.len() - 1] == last);
                if kept(rest, filter).contains(e) {
                    let i = choose|i: int|
                        0 <= i < kept(rest, filter).len() && kept(rest, filter)[i] == e;
                    assert(grown[i] == e);
                }
                if grown.contains(e) {
                    let i = choose|i: int| 0 <= i < grown.len() && grown[i] == e;
                    if i < kept(rest, filter).len() {
                        assert(kept(rest, filter)[i] == e);
                    }
                }
            }
        }
    }
}

/// A list that the filter lets through whole is kept whole.
pub proof fn lemma_kept_all(entries: Seq<Entry>, filter: Option<Seq<char>>)
    requires
        forall|i: int| 0 <= i < entries.len() ==> accepts(filter, (#[trigger] entries[i]).0),
    ensures
        kept(entries, filter) == entries,
    decreases entries.len(),
{
    if entries.len() > 0 {
        let rest = entries.drop_last();
        assert forall|i: int| 0 <= i < rest.len() implies accepts(
            filter,
            (#[trigger] rest[i]).0,
        ) by {
            assert(rest[i] == entries[i]);
        }
        lemma_kept_all(rest, filter);
        assert(rest.push(entries.last()) =~= entries);
    }
}

/// The filter without a pattern keeps every record.
pub proof fn lemma_kept_unfiltered(entries: Seq<Entry>)
    ensures
        kept(entries, None) == entries,
{
    lemma_kept_all(entries, None);
}

/// Filtering keeps keys distinct.
pub proof fn lemma_kept_distinct(entries: Seq<Entry>, filter: Option<Seq<char>>)
    requires
        distinct_keys(entries),
    ensures
        distinct_keys(kept(entries, filter)),
    decreases entries.len(),
{
    if entries.len() > 0 {
        let rest = entries.drop_last();
        let last = entries.last();
        assert forall|i: int, j: int| 0 <= i < j < rest.len() implies rest[i].0 != rest[j].0 by {
            assert(rest[i] == entries[i] && rest[j] == entries[j]);
        }
        lemma_kept_distinct(rest, filter);
        lemma_kept_members(rest, filter);
        if accepts(filter, last.0) {
            let grown = kept(rest, filter).push(last);
            assert forall|i: int, j: int| 0 <= i < j < grown.len() implies grown[i].0
                != grown[j].0 by {
                if j == grown.len() - 1 {
                    let e = kept(rest, filter)[i];
                    assert(kept(rest, filter).contains(e));
                    let k = choose|k: int| 0 <= k < rest.len() && rest[k] == e;
                    assert(entries[k] == e);
                }
            }
        }
    }
}

/// Splitting an object and merging the records again, both through one
/// filter, gives exactly the entries of the object that the filter lets
/// through, each with its value.
pub proof fn lemma_merge_after_split(object: Seq<Entry>, filter: Option<Seq<char>>)
    requires
        distinct_keys(object),
    ensures
        collected(kept(kept(object, filter), filter)) == kept(object, filter),
        distinct_keys(kept(object, filter)),
        forall|e: Entry| #[trigger]
            kept(object, filter).contains(e) <==> object.contains(e) && accepts(filter, e.0),
{
    let listed = kept(object, filter);
    lemma_kept_members(object, filter);
    lemma_kept_distinct(object, filter);
    assert forall|i: int| 0 <= i < listed.len() implies accepts(
        filter,
        (#[trigger] listed[i]).0,
    ) by {
        assert(listed.contains(listed[i]));
    }
    lemma_kept_all(listed, filter);
    lemma_collected_distinct(listed);
}

/// So it is for every document that is an object: its view has each key
/// once.
pub proof fn lemma_document_merge_after_split(document: JsonValue, filter: Option<Seq<char>>)
    requires
        document@ is Object,
    ensures
        collected(kept(kept(document@->Object_0, filter), filter)) == kept(
            document@->Object_0,
            filter,
        ),
{
    lemma_view_well_formed(document);
    lemma_merge_after_split(document@->Object_0, filter);
}

/// The same holds of the records in any order: merged through the filter,
/// they give an object that holds under each key that the filter lets
/// through what the first object held under it, and nothing under any other
/// key.
pub proof fn lemma_merge_in_any_order(
    object: Seq<Entry>,
    listed: Seq<Entry>,
    filter: Option<Seq<char>>,
)
    requires
        distinct_keys(object),
        distinct_keys(listed),
        forall|e: Entry| #[trigger] listed.contains(e) <==> kept(object, filter).contains(e),
    ensures
        distinct_keys(collected(kept(listed, filter))),
        forall|key: Seq<char>| #[trigger]
            value_at(collected(kept(listed, filter)), key) == if accepts(filter, key) {
                value_at(object, key)
            } else {
                None
            },
{
    lemma_kept_members(object, filter);
    assert forall|i: int| 0 <= i < listed.len() implies accepts(
        filter,
        (#[trigger] listed[i]).0,
    ) by {
        assert(listed.contains(listed[i]));
    }
    lemma_kept_all(listed, filter);
    lemma_collected_distinct(listed);
    assert forall|key: Seq<char>| #[trigger]
        value_at(listed, key) == if accepts(filter, key) {
            value_at(object, key)
        } else {
            None
        } by {
        lemma_key_index(listed, key);
        lemma_key_index(object, key);
        let at = key_index(listed, key);
        let from = key_index(object, key);
        if at < listed.len() {
            let e = listed[at];
            assert(listed.contains(e));
            let k = choose|k: int| 0 <= k < object.len() && object[k] == e;
            assert(object[k].0 == key);
        } else if accepts(filter, key) && from < object.len() {
            let e = object[from];
            assert(listed.contains(e));
            let k = choose|k: int| 0 <= k < listed.len() && listed[k] == e;
            assert(listed[k].0 == key);
        }
    }
}

/// Finds the place of a key among the entries of an object, by the object's
/// index.
fn find_key(
    object: &Vec<(String, JsonValue)>,
    index: &StringHashMap<usize>,
    key: &String,
) -> (at: usize)
    requires
        indexes(index@, entry_views(object@)),
    ensures
        at == key_index(entry_views(object@), key@),
{
    proof {
        lemma_key_index(entry_views(object@), key@);
    }
    match index.get(key.as_str()) {
        Some(at) => *at,
        None => object.len(),
    }
}

/// Keeps the records whose key the filter lets through, in their order.
pub fn keep_matching(entries: Vec<(String, JsonValue)>, filter: &KeyFilter) -> (list: Vec<
    (String, JsonValue),
>)
    ensures
        entry_views(list@) == kept(entry_views(entries@), filter@),
{
    let ghost all = entries@;
    let mut list: Vec<(String, JsonValue)> = Vec::new();
    for entry in it: entries
        invariant
            it.seq() == all,
            entry_views(list@) == kept(entry_views(all.take(it.index())), filter@),
    {
        let ghost upto = entry_views(all.take(it.index() + 1));
        assert(upto.drop_last() =~= entry_views(all.take(it.index())));
        if filter.matches(entry.0.as_str()) {
            list.push(entry);
        }
    }
    assert(all.take(all.len() as int) =~= all);
    list
}

/// Builds the entries of the object that the records give whose key the
/// filter lets through: each key once, at the place of its first record,
/// with the value of its last.
pub fn collect_matching(entries: Vec<(String, JsonValue)>, filter: &KeyFilter) -> (object: Vec<
    (String, JsonValue),
>)
    ensures
        entry_views(object@) == collected(kept(entry_views(entries@), filter@)),
        distinct_keys(entry_views(object@)),
{
    let ghost all = entries@;
    let mut object: Vec<(String, JsonValue)> = Vec::new();
    let mut index: StringHashMap<usize> = StringHashMap::new();
    assert(entry_views(all.take(0)) =~= Seq::empty());
    for entry in it: entries
        invariant
            it.seq() == all,
            entry_views(object@) == collected(
                kept(entry_views(all.take(it.index())), filter@),
            ),
            indexes(index@, entry_views(object@)),
    {
        let ghost before = entry_views(object@);
        let ghost upto = entry_views(all.take(it.index() + 1));
        assert(upto.drop_last() =~= entry_views(all.take(it.index())));
        assert(upto.last() == (entry.0@, entry.1@));
        if filter.matches(entry.0.as_str()) {
            let ghost passed = kept(upto, filter@);
            assert(passed.drop_last() =~= kept(upto.drop_last(), filter@));
            let at = find_key(&object, &index, &entry.0);
            proof {
                lemma_key_index(before, entry.0@);
            }
            if at < object.len() {
                object.set(at, entry);
                assert(entry_views(object@) =~= before.update(at as int, upto.last()));
                assert forall|key: Seq<char>|
                    #![trigger key_index(entry_views(object@), key)]
                    key_index(entry_views(object@), key) == key_index(before, key) by {
                    lemma_key_index_update(before, at as int, upto.last().1, key);
                }
            } else {
                index.insert(entry.0.clone(), at);
                object.push(entry);
                assert(entry_views(object@) =~= before.push(upto.last()));
                assert forall|key: Seq<char>|
                    #![trigger key_index(entry_views(object@), key)]
                    key_index(entry_views(object@), key) == if key_index(before, key)
                        < before.len() {
                        key_index(before, key)
                    } else if upto.last().0 == key {
                        before.len() as int
                    } else {
                        before.len() as int + 1
                    } by {
                    lemma_key_index_push(before, upto.last(), key);
                }
            }
        }
    }
    assert(all.take(all.len() as int) =~= all);
    proof {
        lemma_collected(kept(entry_views(all), filter@));
    }
    object
}

/// Splits an object into one record for each top-level key that the filter
/// lets through, in the object's order. Any other JSON type is an error. No
/// two of the records have one key.
pub fn to_entries(document: JsonValue, filter: &KeyFilter) -> (outcome: Result<
    Vec<(String, JsonValue)>,
    NotAnObjectError,
>)
    ensures
        match outcome {
            Ok(list) => {
                &&& document@ matches JsonView::Object(entries)
                &&& entry_views(list@) == kept(entries, filter@)
                &&& distinct_keys(entry_views(list@))
            },
            Err(_) => !(document@ is Object),
        },
{
    match document {
        JsonValue::Object(entries) => {
            proof {
                lemma_object_view(entries);
                lemma_kept_unfiltered(entry_views(entries@));
            }
            let built = collect_matching(entries, &KeyFilter::accept_all());
            proof {
                lemma_kept_distinct(entry_views(built@), filter@);
            }
            Ok(keep_matching(built, filter))
        },
        _ => Err(NotAnObjectError),
    }
}

/// Builds one object from the records whose key the filter lets through. Of
/// two records with one key the later gives the value, at the place of the
/// earlier.
pub fn to_document(entries: Vec<(String, JsonValue)>, filter: &KeyFilter) -> (document: JsonValue)
    ensures
        document@ == JsonView::Object(collected(kept(entry_views(entries@), filter@))),
{
    let object = collect_matching(entries, filter);
    proof {
        lemma_object_view(object);
        lemma_collected_distinct(entry_views(object@));
    }
    JsonValue::Object(object)
}

/// Merges records into one object, keeping those whose key matches the
/// pattern, or all of them without a pattern. A pattern that is not a
/// regular expression is an error.
pub fn merge(entries: Vec<(String, JsonValue)>, filter: Option<String>) -> (outcome: Result<
    JsonValue,
    RegexCompileError,
>)
    ensures
        match outcome {
            Ok(document) => {
                &&& compiles(filter)
                &&& document@ == JsonView::Object(
                    collected(kept(entry_views(entries@), filter_of(pattern_text(filter)))),
                )
            },
            Err(error) => !compiles(filter),
        },
{
    match KeyFilter::compile(filter.as_ref()) {
        Ok(compiled) => Ok(to_document(entries, &compiled)),
        Err(error) => Err(error),
    }
}

/// Splits the entries of an object into records, keeping those whose key
/// matches the pattern, or all of them without a pattern. A pattern that is
/// not a regular expression is an error.
pub fn split(entries: Vec<(String, JsonValue)>, filter: Option<String>) -> (outcome: Result<
    Vec<(String, JsonValue)>,
    RegexCompileError,
>)
    ensures
        match outcome {
            Ok(list) => compiles(filter) && entry_views(list@) == kept(
                entry_views(entries@),
                filter_of(pattern_text(filter)),
            ),
            Err(error) => !compiles(filter),
        },
{
    match KeyFilter::compile(filter.as_ref()) {
        Ok(compiled) => Ok(keep_matching(entries, &compiled)),
        Err(error) => Err(error),
    }
}

/// Whether an optional pattern gives a filter: an absent or empty one does,
/// and so does each regular expression.
pub open spec fn compiles(pattern: Option<String>) -> bool {
    match filter_of(pattern_text(pattern)) {
        Some(text) => crate::bridge::pattern_fault(text) is None,
        None => true,
    }
}

} // verus!
