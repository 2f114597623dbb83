use vstd::prelude::*;

use indexmap::IndexMap;

verus! {

/// The insertion-ordered map of `indexmap`.
#[verifier::external_type_specification]
#[verifier::external_body]
#[verifier::reject_recursive_types(K)]
#[verifier::reject_recursive_types(V)]
#[verifier::reject_recursive_types(S)]
pub struct ExIndexMap<K, V, S>(IndexMap<K, V, S>);

/// The entries of an `IndexMap` of strings, as (key, value) texts in the
/// map's order.
pub uninterp spec fn string_map_entries(m: IndexMap<String, String>) -> Seq<(Seq<char>, Seq<char>)>;

/// Whether no key occurs twice.
pub open spec fn keys_unique(e: Seq<(Seq<char>, Seq<char>)>) -> bool {
    forall|i: int, j: int| 0 <= i < j < e.len() ==> #[trigger] e[i].0 != #[trigger] e[j].0
}

/// The position of the entry of key `k`.
pub open spec fn entry_position(e: Seq<(Seq<char>, Seq<char>)>, k: Seq<char>) -> Option<int>
    decreases e.len(),
{
    if e.len() == 0 {
        None
    } else if e.last().0 == k {
        Some(e.len() - 1)
    } else {
        entry_position(e.drop_last(), k)
    }
}

/// The value of key `k`.
pub open spec fn entry_lookup(e: Seq<(Seq<char>, Seq<char>)>, k: Seq<char>) -> Option<Seq<char>> {
    match entry_position(e, k) {
        Some(i) => Some(e[i].1),
        None => None,
    }
}

/// The entries after inserting `v` for `k`: an existing key keeps its place
/// and takes the new value; a new key goes last.
pub open spec fn entries_insert(e: Seq<(Seq<char>, Seq<char>)>, k: Seq<char>, v: Seq<char>) -> Seq<
    (Seq<char>, Seq<char>),
> {
    match entry_position(e, k) {
        Some(i) => e.update(i, (k, v)),
        None => e.push((k, v)),
    }
}

/// Calls `IndexMap::new`: the map is empty.
#[verifier::external_body]
pub(crate) fn string_map_new() -> (r: IndexMap<String, String>)
    ensures
        string_map_entries(r) == Seq::<(Seq<char>, Seq<char>)>::empty(),
{
    IndexMap::new()
}

/// Calls `IndexMap::insert`: an existing key keeps its place and takes the
/// new value, a new key is put last; the old value, if any, is returned.
/// Keys stay unique.
#[verifier::external_body]
pub(crate) fn string_map_insert(m: &mut IndexMap<String, String>, k: String, v: String) -> (r: Option<String>)
    ensures
        string_map_entries(*final(m)) == entries_insert(string_map_entries(*old(m)), k@, v@),
        keys_unique(string_map_entries(*final(m))),
        match r {
            Some(o) => entry_lookup(string_map_entries(*old(m)), k@) == Some(o@),
            None => entry_lookup(string_map_entries(*old(m)), k@) is None,
        },
{
    m.insert(k, v)
}

/// Calls `IndexMap::get` and clones the value found: the value of the key,
/// if any.
#[verifier::external_body]
pub(crate) fn string_map_get(m: &IndexMap<String, String>, k: &str) -> (r: Option<String>)
    ensures
        match r {
            Some(v) => entry_lookup(string_map_entries(*m), k@) == Some(v@),
            None => entry_lookup(string_map_entries(*m), k@) is None,
        },
{
    m.get(k).cloned()
}

/// A key that no entry has is not found.
pub proof fn lemma_position_absent(e: Seq<(Seq<char>, Seq<char>)>, k: Seq<char>)
    requires
        forall|i: int| 0 <= i < e.len() ==> #[trigger] e[i].0 != k,
    ensures
        entry_position(e, k) is None,
    decreases e.len(),
{
    if e.len() > 0 {
        assert(e.last().0 != k) by {
            assert(e[e.len() - 1].0 != k);
        }
        assert forall|i: int| 0 <= i < e.drop_last().len() implies #[trigger] e.drop_last()[i].0 != k by {
            assert(e.drop_last()[i] == e[i]);
        }
        lemma_position_absent(e.drop_last(), k);
    }
}

/// With unique keys, the entry at position `i` is found by its key.
pub proof fn lemma_position_of_entry(e: Seq<(Seq<char>, Seq<char>)>, i: int)
    requires
        keys_unique(e),
        0 <= i < e.len(),
    ensures
        entry_position(e, e[i].0) == Some(i),
    decreases e.len(),
{
    if i < e.len() - 1 {
        assert(e.last().0 != e[i].0) by {
            assert(e[i].0 != e[e.len() - 1].0);
        }
        let d = e.drop_last();
        assert(keys_unique(d)) by {
            assert forall|a: int, b: int| 0 <= a < b < d.len() implies #[trigger] d[a].0 != #[trigger] d[b].0 by {
                assert(d[a] == e[a] && d[b] == e[b]);
            }
        }
        assert(d[i] == e[i]);
        lemma_position_of_entry(d, i);
    }
}

} // verus!
