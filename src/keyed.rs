//! Sequences whose elements carry unique keys, viewed as maps.
use vstd::prelude::*;

verus! {

/// No two elements of `s` share a key.
pub open spec fn keys_unique<T, K>(s: Seq<T>, key: spec_fn(T) -> K) -> bool {
    forall|i: int, j: int| 0 <= i < s.len() && 0 <= j < s.len() && i != j ==> key(s[i]) != key(s[j])
}

/// The map from each key present in `s` to its element.
pub open spec fn keyed_map<T, K>(s: Seq<T>, key: spec_fn(T) -> K) -> Map<K, T> {
    Map::new(
        |k: K| exists|j: int| 0 <= j < s.len() && key(s[j]) == k,
        |k: K| s[choose|j: int| 0 <= j < s.len() && key(s[j]) == k],
    )
}

pub proof fn lemma_keyed_index<T, K>(s: Seq<T>, key: spec_fn(T) -> K, i: int)
    requires
        keys_unique(s, key),
        0 <= i < s.len(),
    ensures
        keyed_map(s, key).contains_key(key(s[i])),
        keyed_map(s, key)[key(s[i])] == s[i],
{
    let k = key(s[i]);
    assert(exists|j: int| 0 <= j < s.len() && key(s[j]) == k);
    let c = choose|j: int| 0 <= j < s.len() && key(s[j]) == k;
    assert(c == i);
}

pub proof fn lemma_keyed_update<T, K>(s: Seq<T>, key: spec_fn(T) -> K, i: int, x: T)
    requires
        keys_unique(s, key),
        0 <= i < s.len(),
        key(x) == key(s[i]),
    ensures
        keys_unique(s.update(i, x), key),
        keyed_map(s.update(i, x), key) == keyed_map(s, key).insert(key(x), x),
{
    let t = s.update(i, x);
    assert(keys_unique(t, key)) by {
        assert forall|a: int, b: int| 0 <= a < t.len() && 0 <= b < t.len() && a != b implies key(t[a]) != key(t[b]) by {
            if a == i {
                assert(key(t[a]) == key(s[i]));
            }
            if b == i {
                assert(key(t[b]) == key(s[i]));
            }
        }
    }
    let m1 = keyed_map(t, key);
    let m2 = keyed_map(s, key).insert(key(x), x);
    assert forall|k: K| m1.contains_key(k) <==> m2.contains_key(k) by {
        if m2.contains_key(k) {
            if k == key(x) {
                assert(key(t[i]) == k);
            } else {
                assert(keyed_map(s, key).contains_key(k));
                let j = choose|j: int| 0 <= j < s.len() && key(s[j]) == k;
                assert(j != i);
                assert(t[j] == s[j]);
                assert(key(t[j]) == k);
            }
        }
        if m1.contains_key(k) {
            let j = choose|j: int| 0 <= j < t.len() && key(t[j]) == k;
            if j != i {
                assert(t[j] == s[j]);
                assert(key(s[j]) == k);
            }
        }
    }
    assert forall|k: K| m1.contains_key(k) implies m1[k] == m2[k] by {
        let j = choose|j: int| 0 <= j < t.len() && key(t[j]) == k;
        lemma_keyed_index(t, key, j);
        if j != i {
            lemma_keyed_index(s, key, j);
        }
    }
    assert(m1 =~= m2);
}

pub proof fn lemma_keyed_push<T, K>(s: Seq<T>, key: spec_fn(T) -> K, x: T)
    requires
        keys_unique(s, key),
        !keyed_map(s, key).contains_key(key(x)),
    ensures
        keys_unique(s.push(x), key),
        keyed_map(s.push(x), key) == keyed_map(s, key).insert(key(x), x),
{
    let t = s.push(x);
    assert(keys_unique(t, key)) by {
        assert forall|a: int, b: int| 0 <= a < t.len() && 0 <= b < t.len() && a != b implies key(t[a]) != key(t[b]) by {
            if a == s.len() && b < s.len() {
                assert(key(t[b]) == key(s[b]));
            }
            if b == s.len() && a < s.len() {
                assert(key(t[a]) == key(s[a]));
            }
        }
    }
    let m1 = keyed_map(t, key);
    let m2 = keyed_map(s, key).insert(key(x), x);
    assert forall|k: K| m1.contains_key(k) <==> m2.contains_key(k) by {
        if m2.contains_key(k) {
            if k == key(x) {
                assert(key(t[s.len() as int]) == k);
            } else {
                let j = choose|j: int| 0 <= j < s.len() && key(s[j]) == k;
                assert(key(t[j]) == k);
            }
        }
        if m1.contains_key(k) {
            let j = choose|j: int| 0 <= j < t.len() && key(t[j]) == k;
            if j < s.len() {
                assert(key(s[j]) == k);
            }
        }
    }
    assert forall|k: K| m1.contains_key(k) implies m1[k] == m2[k] by {
        let j = choose|j: int| 0 <= j < t.len() && key(t[j]) == k;
        lemma_keyed_index(t, key, j);
        if j < s.len() {
            assert(t[j] == s[j]);
            lemma_keyed_index(s, key, j);
        }
    }
    assert(m1 =~= m2);
}

/// The empty sequence has unique keys and the empty map.
pub proof fn lemma_keyed_empty<T, K>(key: spec_fn(T) -> K)
    ensures
        keys_unique(Seq::<T>::empty(), key),
        keyed_map(Seq::<T>::empty(), key) == Map::<K, T>::empty(),
{
    assert(keyed_map(Seq::<T>::empty(), key) =~= Map::<K, T>::empty());
}

/// Applying `f`, which keeps every key, to each element maps the keyed view pointwise.
pub proof fn lemma_keyed_map_values<T, K>(s: Seq<T>, key: spec_fn(T) -> K, f: spec_fn(T) -> T)
    requires
        keys_unique(s, key),
        forall|x: T| #[trigger] key(f(x)) == key(x),
    ensures
        keys_unique(s.map_values(f), key),
        keyed_map(s.map_values(f), key) == keyed_map(s, key).map_values(f),
{
    let t = s.map_values(f);
    assert forall|a: int, b: int| 0 <= a < t.len() && 0 <= b < t.len() && a != b implies key(t[a]) != key(t[b]) by {
        assert(key(f(s[a])) == key(s[a]));
        assert(key(f(s[b])) == key(s[b]));
    }
    let m1 = keyed_map(t, key);
    let m2 = keyed_map(s, key).map_values(f);
    assert forall|k: K| m1.contains_key(k) <==> m2.contains_key(k) by {
        if m1.contains_key(k) {
            let j = choose|j: int| 0 <= j < t.len() && key(t[j]) == k;
            assert(key(f(s[j])) == key(s[j]));
        }
        if m2.contains_key(k) {
            let j = choose|j: int| 0 <= j < s.len() && key(s[j]) == k;
            assert(key(f(s[j])) == key(s[j]));
            assert(key(t[j]) == k);
        }
    }
    assert forall|k: K| m1.contains_key(k) implies m1[k] == m2[k] by {
        let j = choose|j: int| 0 <= j < t.len() && key(t[j]) == k;
        assert(key(f(s[j])) == key(s[j]));
        lemma_keyed_index(t, key, j);
        lemma_keyed_index(s, key, j);
    }
    assert(m1 =~= m2);
}

pub proof fn lemma_keyed_remove<T, K>(s: Seq<T>, key: spec_fn(T) -> K, i: int)
    requires
        keys_unique(s, key),
        0 <= i < s.len(),
    ensures
        keys_unique(s.remove(i), key),
        keyed_map(s.remove(i), key) == keyed_map(s, key).remove(key(s[i])),
{
    let t = s.remove(i);
    assert forall|a: int, b: int| 0 <= a < t.len() && 0 <= b < t.len() && a != b implies key(t[a]) != key(t[b]) by {
        let a2 = if a < i { a } else { a + 1 };
        let b2 = if b < i { b } else { b + 1 };
        assert(t[a] == s[a2]);
        assert(t[b] == s[b2]);
    }
    let m1 = keyed_map(t, key);
    let m2 = keyed_map(s, key).remove(key(s[i]));
    assert forall|k: K| m1.contains_key(k) <==> m2.contains_key(k) by {
        if m1.contains_key(k) {
            let j = choose|j: int| 0 <= j < t.len() && key(t[j]) == k;
            let j2 = if j < i { j } else { j + 1 };
            assert(t[j] == s[j2]);
            assert(key(s[j2]) == k);
            assert(j2 != i);
        }
        if m2.contains_key(k) {
            let j = choose|j: int| 0 <= j < s.len() && key(s[j]) == k;
            assert(j != i);
            let j2 = if j < i { j } else { j - 1 };
            assert(t[j2] == s[j]);
        }
    }
    assert forall|k: K| m1.contains_key(k) implies m1[k] == m2[k] by {
        let j = choose|j: int| 0 <= j < t.len() && key(t[j]) == k;
        let j2 = if j < i { j } else { j + 1 };
        assert(t[j] == s[j2]);
        lemma_keyed_index(t, key, j);
        lemma_keyed_index(s, key, j2);
    }
    assert(m1 =~= m2);
}

} // verus!
