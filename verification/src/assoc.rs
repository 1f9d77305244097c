//! Viewing a vector of keyed items as a mathematical map.
//!
//! Both a session's payload (string keys to string values) and the store
//! itself (session ids to stored records) are vectors whose items carry
//! their own key. `keyed_map` is the map such a vector stands for, and
//! the lemmas here connect the vector operations used by the executable
//! code to `insert` and `remove` on that map.

use vstd::prelude::*;

verus! {

/// The map a keyed vector stands for; a later item wins over an earlier
/// one with the same key.
pub open spec fn keyed_map<T, V>(
    s: Seq<T>,
    key: spec_fn(T) -> Seq<char>,
    value: spec_fn(T) -> V,
) -> Map<Seq<char>, V>
    decreases s.len(),
{
    if s.len() == 0 {
        Map::empty()
    } else {
        keyed_map(s.drop_last(), key, value).insert(key(s.last()), value(s.last()))
    }
}

/// No two items carry the same key.
pub open spec fn keys_distinct<T>(s: Seq<T>, key: spec_fn(T) -> Seq<char>) -> bool {
    forall|i: int, j: int|
        0 <= i < j < s.len() ==> key(#[trigger] s[i]) != key(#[trigger] s[j])
}

pub proof fn lemma_keyed_map_index<T, V>(
    s: Seq<T>,
    key: spec_fn(T) -> Seq<char>,
    value: spec_fn(T) -> V,
    i: int,
)
    requires
        keys_distinct(s, key),
        0 <= i < s.len(),
    ensures
        keyed_map(s, key, value).contains_key(key(s[i])),
        keyed_map(s, key, value)[key(s[i])] == value(s[i]),
    decreases s.len(),
{
    if i < s.len() - 1 {
        lemma_keyed_map_index(s.drop_last(), key, value, i);
    }
}

pub proof fn lemma_keyed_map_absent<T, V>(
    s: Seq<T>,
    key: spec_fn(T) -> Seq<char>,
    value: spec_fn(T) -> V,
    x: Seq<char>,
)
    requires
        forall|i: int| 0 <= i < s.len() ==> key(#[trigger] s[i]) != x,
    ensures
        !keyed_map(s, key, value).contains_key(x),
    decreases s.len(),
{
    if s.len() > 0 {
        lemma_keyed_map_absent(s.drop_last(), key, value, x);
    }
}

/// Replacing the one item that carries a key is `insert` on the map.
pub proof fn lemma_keyed_map_update<T, V>(
    s: Seq<T>,
    key: spec_fn(T) -> Seq<char>,
    value: spec_fn(T) -> V,
    i: int,
    t: T,
)
    requires
        keys_distinct(s, key),
        0 <= i < s.len(),
        key(t) == key(s[i]),
    ensures
        keyed_map(s.update(i, t), key, value) == keyed_map(s, key, value).insert(key(t), value(t)),
        keys_distinct(s.update(i, t), key),
    decreases s.len(),
{
    let su = s.update(i, t);
    assert(keys_distinct(su, key));
    if i == s.len() - 1 {
        assert(su.drop_last() =~= s.drop_last());
        assert(su.last() == t);
        assert(keyed_map(su, key, value) =~= keyed_map(s, key, value).insert(key(t), value(t)));
    } else {
        assert(su.drop_last() =~= s.drop_last().update(i, t));
        assert(su.last() == s.last());
        lemma_keyed_map_update(s.drop_last(), key, value, i, t);
        assert(keyed_map(su, key, value) =~= keyed_map(s, key, value).insert(key(t), value(t)));
    }
}

/// Removing the one item that carries a key is `remove` on the map.
pub proof fn lemma_keyed_map_remove<T, V>(
    s: Seq<T>,
    key: spec_fn(T) -> Seq<char>,
    value: spec_fn(T) -> V,
    i: int,
)
    requires
        keys_distinct(s, key),
        0 <= i < s.len(),
    ensures
        keyed_map(s.remove(i), key, value) == keyed_map(s, key, value).remove(key(s[i])),
        keys_distinct(s.remove(i), key),
    decreases s.len(),
{
    let sr = s.remove(i);
    assert(keys_distinct(sr, key));
    if i == s.len() - 1 {
        assert(sr =~= s.drop_last());
        lemma_keyed_map_absent(s.drop_last(), key, value, key(s[i]));
        assert(keyed_map(sr, key, value) =~= keyed_map(s, key, value).remove(key(s[i])));
    } else {
        assert(sr.drop_last() =~= s.drop_last().remove(i));
        assert(sr.last() == s.last());
        lemma_keyed_map_remove(s.drop_last(), key, value, i);
        assert(keyed_map(sr, key, value) =~= keyed_map(s, key, value).remove(key(s[i])));
    }
}

/// Two vectors whose items agree key-by-key and value-by-value stand
/// for the same map.
pub proof fn lemma_keyed_map_congruence<T, V>(
    s1: Seq<T>,
    s2: Seq<T>,
    key: spec_fn(T) -> Seq<char>,
    value: spec_fn(T) -> V,
)
    requires
        s1.len() == s2.len(),
        forall|i: int|
            0 <= i < s1.len() ==> key(#[trigger] s1[i]) == key(#[trigger] s2[i]) && value(s1[i])
                == value(s2[i]),
    ensures
        keyed_map(s1, key, value) == keyed_map(s2, key, value),
    decreases s1.len(),
{
    if s1.len() > 0 {
        lemma_keyed_map_congruence(s1.drop_last(), s2.drop_last(), key, value);
        assert(keyed_map(s1, key, value) =~= keyed_map(s2, key, value));
    }
}

/// A vector with distinct keys has exactly one map entry per item.
pub proof fn lemma_keyed_map_len<T, V>(
    s: Seq<T>,
    key: spec_fn(T) -> Seq<char>,
    value: spec_fn(T) -> V,
)
    requires
        keys_distinct(s, key),
    ensures
        keyed_map(s, key, value).dom().finite(),
        keyed_map(s, key, value).dom().len() == s.len(),
    decreases s.len(),
{
    if s.len() > 0 {
        lemma_keyed_map_len(s.drop_last(), key, value);
        lemma_keyed_map_absent(s.drop_last(), key, value, key(s.last()));
    }
}

} // verus!
