//! Objects: ordered lists of (key, value) entries in which a key, once
//! inserted, keeps its place, and a later value under the same key replaces
//! the earlier one.

use vstd::prelude::*;

verus! {

/// No two entries have the same key.
pub open spec fn distinct_keys<V>(entries: Seq<(Seq<char>, V)>) -> bool {
    forall|i: int, j: int| 0 <= i < j < entries.len() ==> entries[i].0 != entries[j].0
}

/// The place of the first entry with a key, or the number of entries where
/// none has it.
pub open spec fn key_index<V>(entries: Seq<(Seq<char>, V)>, key: Seq<char>) -> int
    decreases entries.len(),
{
    if entries.len() == 0 {
        0
    } else if entries.first().0 == key {
        0
    } else {
        1 + key_index(entries.drop_first(), key)
    }
}

/// The value that an object holds under a key.
pub open spec fn value_at<V>(entries: Seq<(Seq<char>, V)>, key: Seq<char>) -> Option<V> {
    let at = key_index(entries, key);
    if at < entries.len() {
        Some(entries[at].1)
    } else {
        None
    }
}

/// An object after one insertion: a key that is present keeps its place and
/// takes the new value; a new key goes to the end.
pub open spec fn put<V>(entries: Seq<(Seq<char>, V)>, key: Seq<char>, value: V) -> Seq<
    (Seq<char>, V),
> {
    let at = key_index(entries, key);
    if at < entries.len() {
        entries.update(at, (key, value))
    } else {
        entries.push((key, value))
    }
}

/// The object that a list of records builds, inserted one after the other:
/// of two records with one key the later gives the value.
pub open spec fn collected<V>(entries: Seq<(Seq<char>, V)>) -> Seq<(Seq<char>, V)>
    decreases entries.len(),
{
    if entries.len() == 0 {
        Seq::empty()
    } else {
        put(collected(entries.drop_last()), entries.last().0, entries.last().1)
    }
}

/// `key_index` is the one place that holds the key and has none before it
/// that does.
pub proof fn lemma_key_index<V>(entries: Seq<(Seq<char>, V)>, key: Seq<char>)
    ensures
        0 <= key_index(entries, key) <= entries.len(),
        key_index(entries, key) < entries.len() ==> entries[key_index(entries, key)].0 == key,
        forall|j: int| 0 <= j < key_index(entries, key) ==> entries[j].0 != key,
    decreases entries.len(),
{
    if entries.len() > 0 && entries.first().0 != key {
        let rest = entries.drop_first();
        lemma_key_index(rest, key);
        assert forall|j: int| 0 <= j < key_index(entries, key) implies entries[j].0 != key by {
            if j > 0 {
                assert(entries[j] == rest[j - 1]);
            }
        }
    }
}

/// A place that holds the key and has none before it that does is
/// `key_index`; so is the number of entries, where no entry holds the key.
pub proof fn lemma_key_index_is<V>(entries: Seq<(Seq<char>, V)>, key: Seq<char>, at: int)
    requires
        0 <= at <= entries.len(),
        at < entries.len() ==> entries[at].0 == key,
        forall|j: int| 0 <= j < at ==> entries[j].0 != key,
    ensures
        key_index(entries, key) == at,
{
    lemma_key_index(entries, key);
}

/// The object that records build has each key once, and holds no entry that
/// is not among the records.
pub proof fn lemma_collected<V>(entries: Seq<(Seq<char>, V)>)
    ensures
        distinct_keys(collected(entries)),
        forall|i: int|
            0 <= i < collected(entries).len() ==> entries.contains(
                #[trigger] collected(entries)[i],
            ),
    decreases entries.len(),
{
    if entries.len() > 0 {
        let rest = entries.drop_last();
        let last = entries.last();
        let before = collected(rest);
        let after = collected(entries);
        lemma_collected(rest);
        lemma_key_index(before, last.0);
        let at = key_index(before, last.0);
        assert(entries[entries.len() - 1] == last);
        assert forall|i: int| 0 <= i < after.len() implies entries.contains(
            #[trigger] after[i],
        ) by {
            if i == at {
                assert(after[i] == last);
            } else {
                assert(after[i] == before[i]);
                let k = choose|k: int| 0 <= k < rest.len() && rest[k] == before[i];
                assert(entries[k] == before[i]);
            }
        }
        assert forall|i: int, j: int| 0 <= i < j < after.len() implies after[i].0
            != after[j].0 by {
            if at < before.len() {
                assert(after[i].0 == before[i].0 && after[j].0 == before[j].0);
            } else if j < before.len() {
                assert(after[i] == before[i] && after[j] == before[j]);
            } else {
                assert(after[i] == before[i] && after[j].0 == last.0);
            }
        }
    }
}

/// Records with distinct keys build the object that lists them in their
/// order.
pub proof fn lemma_collected_distinct<V>(entries: Seq<(Seq<char>, V)>)
    requires
        distinct_keys(entries),
    ensures
        collected(entries) == entries,
    decreases entries.len(),
{
    if entries.len() > 0 {
        let rest = entries.drop_last();
        let last = entries.last();
        assert forall|i: int, j: int| 0 <= i < j < rest.len() implies rest[i].0 != rest[j].0 by {
            assert(rest[i] == entries[i] && rest[j] == entries[j]);
        }
        lemma_collected_distinct(rest);
        assert forall|j: int| 0 <= j < rest.len() implies rest[j].0 != last.0 by {
            assert(rest[j] == entries[j]);
        }
        lemma_key_index_is(rest, last.0, rest.len() as int);
        assert(rest.push(last) =~= entries);
    }
}

/// A new entry at the end leaves the place of each key that was present;
/// a key that was absent is now at the end, if it is the new key, and is
/// still absent otherwise.
pub proof fn lemma_key_index_push<V>(
    entries: Seq<(Seq<char>, V)>,
    added: (Seq<char>, V),
    key: Seq<char>,
)
    ensures
        key_index(entries.push(added), key) == if key_index(entries, key) < entries.len() {
            key_index(entries, key)
        } else if added.0 == key {
            entries.len() as int
        } else {
            entries.len() as int + 1
        },
{
    let grown = entries.push(added);
    let at = key_index(entries, key);
    lemma_key_index(entries, key);
    if at < entries.len() {
        assert(grown[at] == entries[at]);
        assert forall|j: int| 0 <= j < at implies grown[j].0 != key by {
            assert(grown[j] == entries[j]);
        }
        lemma_key_index_is(grown, key, at);
    } else {
        assert forall|j: int| 0 <= j < entries.len() implies grown[j].0 != key by {
            assert(grown[j] == entries[j]);
        }
        if added.0 == key {
            lemma_key_index_is(grown, key, entries.len() as int);
        } else {
            lemma_key_index_is(grown, key, grown.len() as int);
        }
    }
}

/// A new value under a key that is present leaves the place of every key.
pub proof fn lemma_key_index_update<V>(
    entries: Seq<(Seq<char>, V)>,
    at: int,
    value: V,
    key: Seq<char>,
)
    requires
        0 <= at < entries.len(),
    ensures
        key_index(entries.update(at, (entries[at].0, value)), key) == key_index(entries, key),
{
    let changed = entries.update(at, (entries[at].0, value));
    let found = key_index(entries, key);
    lemma_key_index(entries, key);
    assert forall|j: int| 0 <= j < found implies changed[j].0 != key by {
        assert(changed[j].0 == entries[j].0);
    }
    lemma_key_index_is(changed, key, found);
}

/// An index of an object: it holds each key of the object with the place of
/// the key's entry, and no other key.
pub open spec fn indexes<V>(index: Map<Seq<char>, usize>, entries: Seq<(Seq<char>, V)>) -> bool {
    forall|key: Seq<char>|
        #![trigger index.contains_key(key)]
        #![trigger key_index(entries, key)]
        {
            &&& index.contains_key(key) <==> key_index(entries, key) < entries.len()
            &&& index.contains_key(key) ==> index[key] == key_index(entries, key)
        }
}

} // verus!
