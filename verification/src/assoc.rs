//! Lists of keyed entries, read the way a map is read: the first entry with a
//! key holds that key's value, and writing a key replaces its entry in place
//! or appends a new entry at the end.

use vstd::prelude::*;
use crate::text::str_eq;

verus! {

/// The position of the first key at or after `i` that equals `key`.
pub open spec fn key_index_from(keys: Seq<Seq<char>>, key: Seq<char>, i: int) -> Option<int>
    decreases keys.len() - i,
{
    if i < 0 || i >= keys.len() {
        None
    } else if keys[i] == key {
        Some(i)
    } else {
        key_index_from(keys, key, i + 1)
    }
}

/// The position of the first key that equals `key`.
pub open spec fn key_index(keys: Seq<Seq<char>>, key: Seq<char>) -> Option<int> {
    key_index_from(keys, key, 0)
}

/// The keys of a list of entries.
pub open spec fn keys_of<V>(entries: Seq<(Seq<char>, V)>) -> Seq<Seq<char>> {
    entries.map_values(|e: (Seq<char>, V)| e.0)
}

/// A list of entries keyed by strings, with each key taken by its characters.
pub open spec fn keyed<V>(entries: Seq<(String, V)>) -> Seq<(Seq<char>, V)> {
    entries.map_values(|e: (String, V)| (e.0@, e.1))
}

/// A list of string pairs, each taken by its characters.
pub open spec fn pairs_view(entries: Seq<(String, String)>) -> Seq<(Seq<char>, Seq<char>)> {
    entries.map_values(|e: (String, String)| (e.0@, e.1@))
}

/// A list of borrowed string pairs, each taken by its characters.
pub open spec fn str_pairs_view(entries: Seq<(&str, &str)>) -> Seq<(Seq<char>, Seq<char>)> {
    entries.map_values(|e: (&str, &str)| (e.0@, e.1@))
}

/// Whether some entry has the key `key`.
pub open spec fn has_key<V>(entries: Seq<(Seq<char>, V)>, key: Seq<char>) -> bool {
    key_index(keys_of(entries), key) is Some
}

/// The value held for `key`: that of the first entry with the key.
pub open spec fn lookup<V>(entries: Seq<(Seq<char>, V)>, key: Seq<char>) -> Option<V> {
    match key_index(keys_of(entries), key) {
        Some(i) => Some(entries[i].1),
        None => None,
    }
}

/// The entries after writing `value` under `key`: the first entry with the key is
/// replaced where it stands, or the entry is appended when the key is new.
pub open spec fn put<V>(entries: Seq<(Seq<char>, V)>, key: Seq<char>, value: V) -> Seq<
    (Seq<char>, V),
> {
    match key_index(keys_of(entries), key) {
        Some(i) => entries.update(i, (key, value)),
        None => entries.push((key, value)),
    }
}

/// No key occurs twice.
pub open spec fn distinct_keys<V>(entries: Seq<(Seq<char>, V)>) -> bool {
    forall|i: int, j: int| 0 <= i < j < entries.len() ==> #[trigger] entries[i].0 != #[trigger] entries[j].0
}

/// What `key_index_from` finds: a matching position with no match before it,
/// or no match at all.
pub proof fn lemma_key_index_from(keys: Seq<Seq<char>>, key: Seq<char>, i: int)
    requires
        0 <= i,
    ensures
        match key_index_from(keys, key, i) {
            Some(j) => i <= j < keys.len() && keys[j] == key && forall|k: int|
                i <= k < j ==> #[trigger] keys[k] != key,
            None => forall|k: int| i <= k < keys.len() ==> #[trigger] keys[k] != key,
        },
    decreases keys.len() - i,
{
    if i < keys.len() && keys[i] != key {
        lemma_key_index_from(keys, key, i + 1);
    }
}

/// What `key_index` finds: the first matching position, or none when no key matches.
pub proof fn lemma_key_index(keys: Seq<Seq<char>>, key: Seq<char>)
    ensures
        match key_index(keys, key) {
            Some(j) => 0 <= j < keys.len() && keys[j] == key && forall|k: int|
                0 <= k < j ==> #[trigger] keys[k] != key,
            None => forall|k: int| 0 <= k < keys.len() ==> #[trigger] keys[k] != key,
        },
{
    lemma_key_index_from(keys, key, 0);
}

/// A position is the first match exactly when it matches and nothing before it does.
pub proof fn lemma_key_index_unique(keys: Seq<Seq<char>>, key: Seq<char>, j: int)
    requires
        0 <= j < keys.len(),
        keys[j] == key,
        forall|k: int| 0 <= k < j ==> #[trigger] keys[k] != key,
    ensures
        key_index(keys, key) == Some(j),
{
    lemma_key_index(keys, key);
    match key_index(keys, key) {
        Some(m) => {
            if m < j {
                assert(keys[m] != key);
            } else if m > j {
                assert(keys[j] != key);
            }
        },
        None => {
            assert(keys[j] != key);
        },
    }
}

/// Reading a key after writing it gives the value written.
pub proof fn lemma_lookup_put_same<V>(entries: Seq<(Seq<char>, V)>, key: Seq<char>, value: V)
    ensures
        lookup(put(entries, key, value), key) == Some(value),
{
    let keys = keys_of(entries);
    lemma_key_index(keys, key);
    let after = put(entries, key, value);
    let after_keys = keys_of(after);
    match key_index(keys, key) {
        Some(i) => {
            assert forall|k: int| 0 <= k < i implies #[trigger] after_keys[k] != key by {
                assert(keys[k] != key);
            }
            lemma_key_index_unique(after_keys, key, i);
        },
        None => {
            let n = entries.len() as int;
            assert forall|k: int| 0 <= k < n implies #[trigger] after_keys[k] != key by {
                assert(keys[k] != key);
            }
            lemma_key_index_unique(after_keys, key, n);
        },
    }
}

/// Writing one key leaves what every other key reads unchanged.
pub proof fn lemma_lookup_put_other<V>(
    entries: Seq<(Seq<char>, V)>,
    key: Seq<char>,
    value: V,
    other: Seq<char>,
)
    requires
        other != key,
    ensures
        lookup(put(entries, key, value), other) == lookup(entries, other),
{
    let keys = keys_of(entries);
    let after = put(entries, key, value);
    let after_keys = keys_of(after);
    lemma_key_index(keys, key);
    lemma_key_index(keys, other);
    lemma_key_index(after_keys, other);
    match key_index(keys, other) {
        Some(j) => {
            assert forall|k: int| 0 <= k < j implies #[trigger] after_keys[k] != other by {
                assert(keys[k] != other);
            }
            assert(after_keys[j] == other);
            lemma_key_index_unique(after_keys, other, j);
        },
        None => {
            match key_index(after_keys, other) {
                Some(m) => {
                    if m < entries.len() {
                        assert(keys[m] != other);
                    }
                },
                None => {},
            }
        },
    }
}

/// Writing keeps keys distinct.
pub proof fn lemma_put_distinct<V>(entries: Seq<(Seq<char>, V)>, key: Seq<char>, value: V)
    requires
        distinct_keys(entries),
    ensures
        distinct_keys(put(entries, key, value)),
{
    let keys = keys_of(entries);
    lemma_key_index(keys, key);
    let after = put(entries, key, value);
    match key_index(keys, key) {
        Some(i) => {
            assert forall|a: int, b: int| 0 <= a < b < after.len() implies #[trigger] after[a].0
                != #[trigger] after[b].0 by {
                if a != i && b != i {
                    assert(entries[a].0 != entries[b].0);
                } else if a == i {
                    assert(entries[i].0 != entries[b].0);
                } else {
                    assert(entries[a].0 != entries[i].0);
                }
            }
        },
        None => {
            assert forall|a: int, b: int| 0 <= a < b < after.len() implies #[trigger] after[a].0
                != #[trigger] after[b].0 by {
                if b < entries.len() {
                    assert(entries[a].0 != entries[b].0);
                } else {
                    assert(keys[a] != key);
                }
            }
        },
    }
}

/// The position of the first entry whose key is `key`.
pub fn find_key<V>(entries: &Vec<(String, V)>, key: &str) -> (r: Option<usize>)
    ensures
        match r {
            Some(i) => i < entries@.len() && key_index(keys_of(keyed(entries@)), key@) == Some(
                i as int,
            ),
            None => key_index(keys_of(keyed(entries@)), key@) is None,
        },
{
    let ghost keys = keys_of(keyed(entries@));
    let mut i: usize = 0;
    while i < entries.len()
        invariant
            i <= entries@.len(),
            keys == keys_of(keyed(entries@)),
            key_index(keys, key@) == key_index_from(keys, key@, i as int),
        decreases entries@.len() - i,
    {
        if str_eq(entries[i].0.as_str(), key) {
            return Some(i);
        }
        i = i + 1;
    }
    None
}

/// Whether no key occurs twice among the entries.
pub fn keys_distinct<V>(entries: &Vec<(String, V)>) -> (r: bool)
    ensures
        r == distinct_keys(keyed(entries@)),
{
    let ghost ks = keyed(entries@);
    let mut j: usize = 0;
    while j < entries.len()
        invariant
            j <= entries@.len(),
            ks == keyed(entries@),
            forall|a: int, b: int| 0 <= a < b < j ==> #[trigger] ks[a].0 != #[trigger] ks[b].0,
        decreases entries@.len() - j,
    {
        let mut i: usize = 0;
        while i < j
            invariant
                i <= j < entries@.len(),
                ks == keyed(entries@),
                forall|a: int| 0 <= a < i ==> #[trigger] ks[a].0 != ks[j as int].0,
            decreases j - i,
        {
            if str_eq(entries[i].0.as_str(), entries[j].0.as_str()) {
                assert(ks[i as int].0 == ks[j as int].0);
                return false;
            }
            i = i + 1;
        }
        j = j + 1;
    }
    true
}

/// The value held for `key`, if any.
pub fn get_value<'a, V>(entries: &'a Vec<(String, V)>, key: &str) -> (r: Option<&'a V>)
    ensures
        match r {
            Some(v) => lookup(keyed(entries@), key@) == Some(*v),
            None => lookup(keyed(entries@), key@) is None,
        },
{
    match find_key(entries, key) {
        Some(i) => Some(&entries[i].1),
        None => None,
    }
}

/// Writes `value` under `key`, replacing the first entry with that key or appending.
pub fn put_pair(entries: &mut Vec<(String, String)>, key: String, value: String)
    ensures
        pairs_view(final(entries)@) == put(pairs_view(old(entries)@), key@, value@),
{
    let ghost before = entries@;
    proof {
        assert(keys_of(keyed(before)) =~= keys_of(pairs_view(before)));
    }
    match find_key(entries, key.as_str()) {
        Some(i) => {
            let ghost kv = key@;
            let ghost vv = value@;
            entries.set(i, (key, value));
            assert(pairs_view(entries@) =~= put(pairs_view(before), kv, vv));
        },
        None => {
            let ghost kv = key@;
            let ghost vv = value@;
            entries.push((key, value));
            assert(pairs_view(entries@) =~= put(pairs_view(before), kv, vv));
        },
    }
}


/// Looking up a key among string pairs by characters agrees with looking it up
/// among the pairs themselves.
pub proof fn lemma_pairs_lookup(entries: Seq<(String, String)>, key: Seq<char>)
    ensures
        keys_of(pairs_view(entries)) == keys_of(keyed(entries)),
        lookup(pairs_view(entries), key) == match lookup(keyed(entries), key) {
            Some(v) => Some(v@),
            None => None::<Seq<char>>,
        },
{
    assert(keys_of(pairs_view(entries)) =~= keys_of(keyed(entries)));
    lemma_key_index(keys_of(keyed(entries)), key);
}

/// The value held for `key` among string pairs, if any.
pub fn get_text<'a>(entries: &'a Vec<(String, String)>, key: &str) -> (r: Option<&'a String>)
    ensures
        match r {
            Some(v) => lookup(pairs_view(entries@), key@) == Some(v@),
            None => lookup(pairs_view(entries@), key@) is None,
        },
{
    proof {
        lemma_pairs_lookup(entries@, key@);
    }
    get_value(entries, key)
}

} // verus!
