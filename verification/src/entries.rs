//! The contents of a parameter structure map: key-value pairs in insertion
//! order, each key at most once.
use vstd::prelude::*;
use crate::name::Name;

verus! {

/// Whether some entry has key `k`.
pub open spec fn has_key<V>(s: Seq<(Name, V)>, k: Name) -> bool {
    exists|i: int| 0 <= i < s.len() && (#[trigger] s[i]).0 == k
}

/// The position of the entry with key `k`, where there is one.
pub open spec fn key_position<V>(s: Seq<(Name, V)>, k: Name) -> int {
    choose|i: int| 0 <= i < s.len() && (#[trigger] s[i]).0 == k
}

/// The value stored under `k`, where there is one.
pub open spec fn value_of<V>(s: Seq<(Name, V)>, k: Name) -> Option<V> {
    if has_key(s, k) {
        Some(s[key_position(s, k)].1)
    } else {
        None
    }
}

/// No key occurs twice.
pub open spec fn keys_unique<V>(s: Seq<(Name, V)>) -> bool {
    forall|i: int, j: int|
        0 <= i < s.len() && 0 <= j < s.len() && i != j ==> (#[trigger] s[i]).0 != (#[trigger] s[j]).0
}

/// The names of the entries, in their order.
pub open spec fn names<V>(s: Seq<(Name, V)>) -> Seq<Name> {
    s.map_values(|e: (Name, V)| e.0)
}

/// Entries carry distinct names exactly when there are as many distinct
/// names as entries.
pub proof fn lemma_distinct_names<V>(s: Seq<(Name, V)>)
    ensures
        keys_unique(s) <==> names(s).to_set().len() == s.len(),
{
    let ns = names(s);
    assert(ns.len() == s.len());
    if keys_unique(s) {
        assert forall|i: int, j: int| 0 <= i < ns.len() && 0 <= j < ns.len() && i != j implies ns[i]
            != ns[j] by {
            assert(s[i].0 != s[j].0);
        }
        assert(ns.no_duplicates());
        ns.unique_seq_to_set();
    }
    if ns.to_set().len() == s.len() {
        ns.lemma_no_dup_set_cardinality();
        assert forall|i: int, j: int|
            0 <= i < s.len() && 0 <= j < s.len() && i != j implies (#[trigger] s[i]).0 != (
            #[trigger] s[j]).0 by {
            assert(ns[i] == s[i].0 && ns[j] == s[j].0);
        }
    }
}

/// Insertion into an ordered map: an existing key keeps its place and takes
/// the new value; a new key goes last.
pub open spec fn insert_entry<V>(s: Seq<(Name, V)>, k: Name, v: V) -> Seq<(Name, V)> {
    if has_key(s, k) {
        s.update(key_position(s, k), (k, v))
    } else {
        s.push((k, v))
    }
}

/// The map that inserting `items` in order into an empty map builds.
pub open spec fn collect_entries<V>(items: Seq<(Name, V)>) -> Seq<(Name, V)>
    decreases items.len(),
{
    if items.len() == 0 {
        Seq::empty()
    } else {
        insert_entry(collect_entries(items.drop_last()), items.last().0, items.last().1)
    }
}

/// Insertion keeps keys unique, and the key then holds the inserted value
/// while every other key keeps its value.
pub proof fn lemma_insert_entry<V>(s: Seq<(Name, V)>, k: Name, v: V)
    requires
        keys_unique(s),
    ensures
        keys_unique(insert_entry(s, k, v)),
        value_of(insert_entry(s, k, v), k) == Some(v),
        forall|k2: Name| k2 != k ==> value_of(insert_entry(s, k, v), k2) == value_of(s, k2),
        insert_entry(s, k, v).len() == if has_key(s, k) { s.len() } else { s.len() + 1 },
        forall|k2: Name| has_key(insert_entry(s, k, v), k2) <==> (has_key(s, k2) || k2 == k),
{
    let t = insert_entry(s, k, v);
    if has_key(s, k) {
        let p = key_position(s, k);
        assert(t[p].0 == k);
        assert(has_key(t, k));
        assert(key_position(t, k) == p);
        assert forall|k2: Name| has_key(t, k2) <==> (has_key(s, k2) || k2 == k) by {
            if has_key(s, k2) {
                let q = key_position(s, k2);
                assert(t[q].0 == k2);
            }
            if has_key(t, k2) {
                let q = key_position(t, k2);
                assert(s[q].0 == k2 || q == p);
            }
        }
        assert forall|k2: Name| k2 != k implies value_of(t, k2) == value_of(s, k2) by {
            if has_key(s, k2) {
                let q = key_position(s, k2);
                assert(t[q] == s[q]);
                assert(has_key(t, k2));
                assert(key_position(t, k2) == q);
            }
        }
    } else {
        let n = s.len() as int;
        assert(t[n].0 == k);
        assert(has_key(t, k));
        assert(key_position(t, k) == n);
        assert forall|k2: Name| has_key(t, k2) <==> (has_key(s, k2) || k2 == k) by {
            if has_key(s, k2) {
                let q = key_position(s, k2);
                assert(t[q].0 == k2);
            }
        }
        assert forall|k2: Name| k2 != k implies value_of(t, k2) == value_of(s, k2) by {
            if has_key(s, k2) {
                let q = key_position(s, k2);
                assert(t[q] == s[q]);
                assert(has_key(t, k2));
                assert(key_position(t, k2) == q);
            }
        }
    }
}

/// The value that the last item with key `k` carries, if any item has it.
pub open spec fn last_value<V>(items: Seq<(Name, V)>, k: Name) -> Option<V>
    decreases items.len(),
{
    if items.len() == 0 {
        None
    } else if items.last().0 == k {
        Some(items.last().1)
    } else {
        last_value(items.drop_last(), k)
    }
}

/// Collecting key-value pairs into a map: no key occurs twice, the keys are
/// exactly those of the items, a key that occurs more than once takes the
/// value of its last occurrence, and the map is no longer than the items.
pub proof fn lemma_collect_entries<V>(items: Seq<(Name, V)>)
    ensures
        keys_unique(collect_entries(items)),
        forall|k: Name| value_of(collect_entries(items), k) == last_value(items, k),
        forall|k: Name|
            has_key(collect_entries(items), k) <==> exists|i: int|
                0 <= i < items.len() && (#[trigger] items[i]).0 == k,
        collect_entries(items).len() <= items.len(),
    decreases items.len(),
{
    if items.len() > 0 {
        let rest = items.drop_last();
        lemma_collect_entries(rest);
        lemma_insert_entry(collect_entries(rest), items.last().0, items.last().1);
        assert forall|k: Name| value_of(collect_entries(items), k) == last_value(items, k) by {
            if k != items.last().0 {
                assert(value_of(collect_entries(rest), k) == last_value(rest, k));
            }
        }
        assert forall|k: Name|
            has_key(collect_entries(items), k) <==> exists|i: int|
                0 <= i < items.len() && (#[trigger] items[i]).0 == k by {
            if has_key(collect_entries(rest), k) {
                let i = choose|i: int| 0 <= i < rest.len() && (#[trigger] rest[i]).0 == k;
                assert(items[i] == rest[i]);
            }
            if exists|i: int| 0 <= i < items.len() && (#[trigger] items[i]).0 == k {
                let i = choose|i: int| 0 <= i < items.len() && (#[trigger] items[i]).0 == k;
                if i < items.len() - 1 {
                    assert(rest[i] == items[i]);
                }
            }
        }
    } else {
        assert forall|k: Name| value_of(collect_entries(items), k) == last_value(items, k) by {
            assert(!has_key(collect_entries(items), k));
        }
    }
}

} // verus!
