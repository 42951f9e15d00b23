//! Snapshots: the whole store as one JSON object, each key with the list of
//! its senders.

use crate::store::keys_with;
use crate::store::lists_keys_of;
use crate::store::records;
use crate::store::Store;
use std::collections::BTreeMap;
use vstd::prelude::*;

verus! {

/// serde_json's `Error`, of which nothing is read: the library only tells
/// success from failure.
#[verifier::external_type_specification]
#[verifier::external_body]
pub struct ExJsonError(serde_json::Error);

/// The text that serde_json's `to_string_pretty` prints for the rows,
/// gathered into an ordered map from key to senders: one JSON object, each
/// key with the list of its senders. `None` where it reports an error.
pub uninterp spec fn json_text(rows: Seq<(Seq<char>, Seq<Seq<char>>)>) -> Option<Seq<char>>;

/// The rows that serde_json's `from_str` reads from `text` as an ordered
/// map from key to senders, in the order of that map. `None` where it
/// reports an error: the text is no JSON, or no object of string lists.
pub uninterp spec fn json_rows(text: Seq<char>) -> Option<Seq<(Seq<char>, Seq<Seq<char>>)>>;

/// serde_json's `to_string_pretty`, on the rows gathered into a `BTreeMap`
/// from key to senders: what it returns depends on the rows alone, and is
/// `json_text` of them.
#[verifier::external_body]
pub(crate) fn to_json(rows: &Vec<(String, Vec<String>)>) -> (text: Result<String, serde_json::Error>)
    ensures
        match text {
            Ok(t) => json_text(rows.deep_view()) == Some(t@),
            Err(_) => json_text(rows.deep_view()) is None,
        },
{
    let object: BTreeMap<&String, &Vec<String>> = rows.iter().map(|row| (&row.0, &row.1)).collect();
    serde_json::to_string_pretty(&object)
}

/// serde_json's `from_str`, asked for a `BTreeMap` from key to senders: what
/// it returns depends on the text alone, and is, row by row, `json_rows` of
/// it.
#[verifier::external_body]
fn from_json(text: &str) -> (rows: Result<Vec<(String, Vec<String>)>, serde_json::Error>)
    ensures
        match rows {
            Ok(r) => json_rows(text@) == Some(r.deep_view()),
            Err(_) => json_rows(text@) is None,
        },
{
    let object = serde_json::from_str::<BTreeMap<String, Vec<String>>>(text)?;
    Ok(object.into_iter().collect())
}

/// What a store holds once the rows were put into it one after the other.
pub open spec fn contents_of(rows: Seq<(Seq<char>, Seq<Seq<char>>)>) -> Map<Seq<char>, Seq<Seq<char>>>
    decreases rows.len(),
{
    if rows.len() == 0 {
        Map::empty()
    } else {
        contents_of(rows.drop_last()).insert(rows.last().0, rows.last().1)
    }
}

/// The keys of the rows, each at the place of its first row.
pub open spec fn keys_of(rows: Seq<(Seq<char>, Seq<Seq<char>>)>) -> Seq<Seq<char>>
    decreases rows.len(),
{
    if rows.len() == 0 {
        Seq::empty()
    } else {
        keys_with(keys_of(rows.drop_last()), contents_of(rows.drop_last()), rows.last().0)
    }
}

/// A store filled with the rows, one after the other: a later row replaces
/// an earlier one of the same key.
pub fn restore(rows: Vec<(String, Vec<String>)>) -> (store: Store)
    ensures
        store@ == contents_of(rows.deep_view()),
        store.keys() == keys_of(rows.deep_view()),
{
    let mut store = Store::new();
    let mut rows = rows;
    let ghost all = rows.deep_view();
    let mut i: usize = 0;
    while i < rows.len()
        invariant
            i <= rows.len(),
            rows.len() == all.len(),
            forall|j: int| i <= j < rows.len() ==> rows.deep_view()[j] == all[j],
            store@ == contents_of(all.take(i as int)),
            store.keys() == keys_of(all.take(i as int)),
        decreases rows.len() - i,
    {
        let mut senders: Vec<String> = Vec::new();
        let ghost before = rows.deep_view();
        std::mem::swap(&mut senders, &mut rows[i].1);
        proof {
            assert(senders.deep_view() == all[i as int].1);
            assert(all.take(i + 1).drop_last() == all.take(i as int));
            assert forall|j: int| i < j < rows.len() implies rows.deep_view()[j] == all[j] by {
                assert(rows.deep_view()[j] == before[j]);
            }
            assert(rows[i as int].0@ == all[i as int].0);
        }
        store.insert(rows[i].0.as_str(), senders);
        i += 1;
    }
    assert(all.take(all.len() as int) == all);
    store
}

/// The rows that a snapshot file gives: those that serde_json reads from its
/// text, and none where there is no text or the text cannot be read.
pub open spec fn snapshot_rows(contents: Option<Seq<char>>) -> Seq<(Seq<char>, Seq<Seq<char>>)> {
    match contents {
        Some(text) => match json_rows(text) {
            Some(rows) => rows,
            None => Seq::empty(),
        },
        None => Seq::empty(),
    }
}

/// The store that a snapshot file gives. `contents` is the text of the file,
/// `None` where the file is missing or cannot be read. A missing, unreadable
/// or malformed snapshot gives the empty store.
pub fn decode_snapshot(contents: Option<&str>) -> (store: Store)
    ensures
        store@ == contents_of(
            snapshot_rows(
                match contents {
                    Some(text) => Some(text@),
                    None => None,
                },
            ),
        ),
        store.keys() == keys_of(
            snapshot_rows(
                match contents {
                    Some(text) => Some(text@),
                    None => None,
                },
            ),
        ),
{
    match contents {
        Some(text) => match from_json(text) {
            Ok(rows) => restore(rows),
            Err(_) => Store::new(),
        },
        None => Store::new(),
    }
}

/// The text of the snapshot of `store`, or `None` where serde_json cannot
/// print it; the caller then writes nothing.
pub fn encode_snapshot(store: &Store) -> (text: Option<String>)
    ensures
        match text {
            Some(t) => json_text(records(store.keys(), store@)) == Some(t@),
            None => json_text(records(store.keys(), store@)) is None,
        },
{
    let rows = store.dump();
    match to_json(&rows) {
        Ok(text) => Some(text),
        Err(_) => None,
    }
}

/// The rows of a store's keys and contents fill a store with the same
/// contents and the same order of keys: what `dump` hands out, `restore`
/// takes back.
pub proof fn lemma_restore_undoes_dump(
    keys: Seq<Seq<char>>,
    contents: Map<Seq<char>, Seq<Seq<char>>>,
)
    requires
        lists_keys_of(keys, contents),
    ensures
        contents_of(records(keys, contents)) == contents,
        keys_of(records(keys, contents)) == keys,
{
    assert forall|i: int| 0 <= i < keys.len() implies contents.contains_key(#[trigger] keys[i]) by {
        assert(keys.contains(keys[i]));
    }
    lemma_restore_of_listed(keys, contents);
    assert(contents.restrict(keys.to_set()) == contents);
}

/// Of keys that `contents` holds, listed once each, the rows fill a store
/// with those keys, in that order, and with what `contents` holds of them.
proof fn lemma_restore_of_listed(keys: Seq<Seq<char>>, contents: Map<Seq<char>, Seq<Seq<char>>>)
    requires
        keys.no_duplicates(),
        forall|i: int| 0 <= i < keys.len() ==> contents.contains_key(#[trigger] keys[i]),
    ensures
        contents_of(records(keys, contents)) == contents.restrict(keys.to_set()),
        keys_of(records(keys, contents)) == keys,
    decreases keys.len(),
{
    let rows = records(keys, contents);
    if keys.len() == 0 {
        assert(contents.restrict(keys.to_set()) == Map::<Seq<char>, Seq<Seq<char>>>::empty());
    } else {
        let front = keys.drop_last();
        let last = keys.last();
        lemma_restore_of_listed(front, contents);
        assert(rows.drop_last() == records(front, contents));
        assert(!front.contains(last));
        assert(!contents.restrict(front.to_set()).contains_key(last));
        assert(front.push(last) == keys);
        assert forall|key: Seq<char>| keys.to_set().contains(key) <==> (front.to_set().contains(key)
            || key == last) by {
            if front.contains(key) {
                let i = choose|i: int| 0 <= i < front.len() && front[i] == key;
                assert(keys[i] == key);
            }
            if keys.contains(key) && key != last {
                let i = choose|i: int| 0 <= i < keys.len() && keys[i] == key;
                assert(front[i] == key);
            }
        }
        assert(contents.restrict(front.to_set()).insert(last, contents[last]) == contents.restrict(
            keys.to_set(),
        ));
    }
}

} // verus!
