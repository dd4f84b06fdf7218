//! Sequences of entries with a key, read as maps.
//!
//! Pin tables, datum tables and library tables are vectors whose entries
//! carry their own key. Reading such a sequence as a map inserts the entries
//! in order, so a later entry with a key replaces an earlier one, as a hash
//! map filled in that order would. The tables themselves keep their keys
//! unique, and the lemmas here relate vector operations to map operations.
use vstd::prelude::*;

verus! {

/// The map obtained by inserting each entry under its key, in order.
pub open spec fn keyed_view<T, K>(s: Seq<T>, key: spec_fn(T) -> K) -> Map<K, T>
    decreases s.len(),
{
    if s.len() == 0 {
        Map::empty()
    } else {
        keyed_view(s.drop_last(), key).insert(key(s.last()), s.last())
    }
}

/// No two entries share a key.
pub open spec fn keys_unique<T, K>(s: Seq<T>, key: spec_fn(T) -> K) -> bool {
    forall|i: int, j: int|
        0 <= i < s.len() && 0 <= j < s.len() && i != j ==> key(#[trigger] s[i]) != key(
            #[trigger] s[j],
        )
}

/// A key is in the map exactly when some entry carries it.
pub proof fn lemma_keyed_contains<T, K>(s: Seq<T>, key: spec_fn(T) -> K, k: K)
    ensures
        keyed_view(s, key).contains_key(k) <==> exists|i: int| 0 <= i < s.len() && key(s[i]) == k,
    decreases s.len(),
{
    if s.len() > 0 {
        lemma_keyed_contains(s.drop_last(), key, k);
        if keyed_view(s.drop_last(), key).contains_key(k) {
            let i = choose|i: int| 0 <= i < s.drop_last().len() && key(s.drop_last()[i]) == k;
            assert(key(s[i]) == k);
        }
        if exists|i: int| 0 <= i < s.len() && key(s[i]) == k {
            let i = choose|i: int| 0 <= i < s.len() && key(s[i]) == k;
            if i < s.len() - 1 {
                assert(key(s.drop_last()[i]) == k);
            }
        }
    }
}

/// What the map holds under a key is an entry carrying that key.
pub proof fn lemma_keyed_value<T, K>(s: Seq<T>, key: spec_fn(T) -> K, k: K)
    requires
        keyed_view(s, key).contains_key(k),
    ensures
        exists|i: int| 0 <= i < s.len() && key(s[i]) == k && keyed_view(s, key)[k] == s[i],
    decreases s.len(),
{
    let t = s.drop_last();
    if key(s.last()) == k {
        assert(key(s[s.len() - 1]) == k);
    } else {
        lemma_keyed_value(t, key, k);
        let i = choose|i: int| 0 <= i < t.len() && key(t[i]) == k && keyed_view(t, key)[k] == t[i];
        assert(s[i] == t[i]);
    }
}

/// With unique keys, each entry is what the map holds under its key.
pub proof fn lemma_keyed_index<T, K>(s: Seq<T>, key: spec_fn(T) -> K, i: int)
    requires
        keys_unique(s, key),
        0 <= i < s.len(),
    ensures
        keyed_view(s, key).contains_key(key(s[i])),
        keyed_view(s, key)[key(s[i])] == s[i],
    decreases s.len(),
{
    if i < s.len() - 1 {
        let t = s.drop_last();
        assert(keys_unique(t, key)) by {
            assert forall|a: int, b: int|
                0 <= a < t.len() && 0 <= b < t.len() && a != b implies key(#[trigger] t[a]) != key(
                #[trigger] t[b],
            ) by {
                assert(t[a] == s[a] && t[b] == s[b]);
            }
        }
        lemma_keyed_index(t, key, i);
        assert(t[i] == s[i]);
        assert(key(s[i]) != key(s[s.len() - 1]));
    }
}

/// Looking a key up: the entry that carries it, if any.
pub proof fn lemma_keyed_lookup<T, K>(s: Seq<T>, key: spec_fn(T) -> K, k: K)
    requires
        keys_unique(s, key),
    ensures
        keyed_view(s, key).contains_key(k) ==> exists|i: int|
            0 <= i < s.len() && key(s[i]) == k && keyed_view(s, key)[k] == s[i],
{
    lemma_keyed_contains(s, key, k);
    if keyed_view(s, key).contains_key(k) {
        let i = choose|i: int| 0 <= i < s.len() && key(s[i]) == k;
        lemma_keyed_index(s, key, i);
    }
}

/// Replacing an entry by one with the same key replaces the map's value.
pub proof fn lemma_keyed_update<T, K>(s: Seq<T>, key: spec_fn(T) -> K, i: int, x: T)
    requires
        keys_unique(s, key),
        0 <= i < s.len(),
        key(x) == key(s[i]),
    ensures
        keys_unique(s.update(i, x), key),
        keyed_view(s.update(i, x), key) == keyed_view(s, key).insert(key(x), x),
{
    let u = s.update(i, x);
    assert(keys_unique(u, key)) by {
        assert forall|a: int, b: int|
            0 <= a < u.len() && 0 <= b < u.len() && a != b implies key(#[trigger] u[a]) != key(
            #[trigger] u[b],
        ) by {
            assert(key(u[a]) == key(s[a]));
            assert(key(u[b]) == key(s[b]));
        }
    }
    let m1 = keyed_view(u, key);
    let m2 = keyed_view(s, key).insert(key(x), x);
    assert forall|k: K| m1.contains_key(k) <==> m2.contains_key(k) by {
        lemma_keyed_contains(u, key, k);
        lemma_keyed_contains(s, key, k);
        if exists|j: int| 0 <= j < u.len() && key(u[j]) == k {
            let j = choose|j: int| 0 <= j < u.len() && key(u[j]) == k;
            assert(key(s[j]) == k);
        }
        if exists|j: int| 0 <= j < s.len() && key(s[j]) == k {
            let j = choose|j: int| 0 <= j < s.len() && key(s[j]) == k;
            assert(key(u[j]) == k);
        }
        lemma_keyed_index(u, key, i);
    }
    assert forall|k: K| m1.contains_key(k) implies m1[k] == m2[k] by {
        lemma_keyed_lookup(u, key, k);
        let j = choose|j: int| 0 <= j < u.len() && key(u[j]) == k && m1[k] == u[j];
        if j != i {
            lemma_keyed_index(s, key, j);
        }
    }
    assert(m1 =~= m2);
}

/// Appending an entry with a fresh key inserts it into the map.
pub proof fn lemma_keyed_push<T, K>(s: Seq<T>, key: spec_fn(T) -> K, x: T)
    requires
        keys_unique(s, key),
        !keyed_view(s, key).contains_key(key(x)),
    ensures
        keys_unique(s.push(x), key),
        keyed_view(s.push(x), key) == keyed_view(s, key).insert(key(x), x),
{
    let u = s.push(x);
    assert(u.drop_last() =~= s);
    lemma_keyed_contains(s, key, key(x));
    assert forall|a: int, b: int|
        0 <= a < u.len() && 0 <= b < u.len() && a != b implies key(#[trigger] u[a]) != key(
        #[trigger] u[b],
    ) by {
        if a < s.len() && b < s.len() {
            assert(u[a] == s[a] && u[b] == s[b]);
        } else if a < s.len() {
            assert(u[a] == s[a]);
        } else {
            assert(u[b] == s[b]);
        }
    }
}

/// Removing the entry that carries a key removes the key from the map.
pub proof fn lemma_keyed_remove<T, K>(s: Seq<T>, key: spec_fn(T) -> K, i: int)
    requires
        keys_unique(s, key),
        0 <= i < s.len(),
    ensures
        keys_unique(s.remove(i), key),
        keyed_view(s.remove(i), key) == keyed_view(s, key).remove(key(s[i])),
{
    let u = s.remove(i);
    assert forall|a: int, b: int|
        0 <= a < u.len() && 0 <= b < u.len() && a != b implies key(#[trigger] u[a]) != key(
        #[trigger] u[b],
    ) by {
        let sa = if a < i { a } else { a + 1 };
        let sb = if b < i { b } else { b + 1 };
        assert(u[a] == s[sa] && u[b] == s[sb]);
    }
    let m1 = keyed_view(u, key);
    let m2 = keyed_view(s, key).remove(key(s[i]));
    assert forall|k: K| m1.contains_key(k) <==> m2.contains_key(k) by {
        lemma_keyed_contains(u, key, k);
        lemma_keyed_contains(s, key, k);
        if exists|j: int| 0 <= j < u.len() && key(u[j]) == k {
            let j = choose|j: int| 0 <= j < u.len() && key(u[j]) == k;
            let sj = if j < i { j } else { j + 1 };
            assert(u[j] == s[sj]);
        }
        if exists|j: int| 0 <= j < s.len() && key(s[j]) == k && j != i {
            let j = choose|j: int| 0 <= j < s.len() && key(s[j]) == k && j != i;
            let uj = if j < i { j } else { j - 1 };
            assert(u[uj] == s[j]);
        }
    }
    assert forall|k: K| m1.contains_key(k) implies m1[k] == m2[k] by {
        lemma_keyed_lookup(u, key, k);
        let j = choose|j: int| 0 <= j < u.len() && key(u[j]) == k && m1[k] == u[j];
        let sj = if j < i { j } else { j + 1 };
        assert(u[j] == s[sj]);
        lemma_keyed_index(s, key, sj);
    }
    assert(m1 =~= m2);
}

/// Changing every entry without changing its key changes every map value.
pub proof fn lemma_keyed_map_values<T, K>(s: Seq<T>, key: spec_fn(T) -> K, f: spec_fn(T) -> T)
    requires
        forall|t: T| #[trigger] key(f(t)) == key(t),
    ensures
        keyed_view(s.map_values(f), key) == keyed_view(s, key).map_values(f),
    decreases s.len(),
{
    if s.len() == 0 {
        assert(keyed_view(s.map_values(f), key) =~= keyed_view(s, key).map_values(f));
    } else {
        let t = s.drop_last();
        lemma_keyed_map_values(t, key, f);
        assert(s.map_values(f).drop_last() =~= t.map_values(f));
        assert(s.map_values(f).last() == f(s.last()));
        assert(key(f(s.last())) == key(s.last()));
        assert(keyed_view(s.map_values(f), key) =~= keyed_view(s, key).map_values(f));
    }
}

} // verus!
