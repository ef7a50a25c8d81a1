//! The model of a tag map: a sequence of `(key, value)` entries in which no
//! key occurs twice, in the order in which the keys were first inserted.

use vstd::prelude::*;

verus! {

/// Whether no key occurs in two entries.
pub open spec fn distinct_keys<K, V>(entries: Seq<(K, V)>) -> bool {
    forall|i: int, j: int|
        0 <= i < j < entries.len() ==> (#[trigger] entries[i]).0 != (#[trigger] entries[j]).0
}

/// Whether some entry has this key.
pub open spec fn has_key<K, V>(entries: Seq<(K, V)>, key: K) -> bool {
    exists|i: int| 0 <= i < entries.len() && (#[trigger] entries[i]).0 == key
}

/// The index of the first entry with this key, or the number of entries
/// where there is none.
pub open spec fn position<K, V>(entries: Seq<(K, V)>, key: K) -> int
    decreases entries.len(),
{
    if entries.len() == 0 {
        0
    } else if entries[0].0 == key {
        0
    } else {
        1 + position(entries.drop_first(), key)
    }
}

/// The value held under this key, if any.
pub open spec fn lookup<K, V>(entries: Seq<(K, V)>, key: K) -> Option<V> {
    let at = position(entries, key);
    if at < entries.len() {
        Some(entries[at].1)
    } else {
        None
    }
}

/// The entries after `key` has been set to `value`: the entry of that key
/// is replaced where it stands, and a new key is added at the end.
pub open spec fn inserted<K, V>(entries: Seq<(K, V)>, key: K, value: V) -> Seq<(K, V)> {
    let at = position(entries, key);
    if at < entries.len() {
        entries.update(at, (key, value))
    } else {
        entries.push((key, value))
    }
}

/// `position` is the one index before which the key does not occur and at
/// which, unless it is the length, the key stands.
pub proof fn lemma_position<K, V>(entries: Seq<(K, V)>, key: K, at: int)
    requires
        0 <= at <= entries.len(),
        forall|j: int| 0 <= j < at ==> (#[trigger] entries[j]).0 != key,
        at < entries.len() ==> entries[at].0 == key,
    ensures
        position(entries, key) == at,
    decreases entries.len(),
{
    if entries.len() > 0 && at > 0 {
        assert(entries[0].0 != key);
        let rest = entries.drop_first();
        assert forall|j: int| 0 <= j < at - 1 implies (#[trigger] rest[j]).0 != key by {
            assert(rest[j] == entries[j + 1]);
        }
        lemma_position(rest, key, at - 1);
    }
}

/// What `position` returns: an index within bounds or the length, with no
/// earlier entry of the key.
pub proof fn lemma_position_is_first<K, V>(entries: Seq<(K, V)>, key: K)
    ensures
        0 <= position(entries, key) <= entries.len(),
        forall|j: int| 0 <= j < position(entries, key) ==> (#[trigger] entries[j]).0 != key,
        position(entries, key) < entries.len() ==> entries[position(entries, key)].0 == key,
        has_key(entries, key) <==> position(entries, key) < entries.len(),
    decreases entries.len(),
{
    if entries.len() > 0 && entries[0].0 != key {
        let rest = entries.drop_first();
        lemma_position_is_first(rest, key);
        let p = position(rest, key);
        assert forall|j: int| 0 <= j < p + 1 implies (#[trigger] entries[j]).0 != key by {
            if j > 0 {
                assert(rest[j - 1] == entries[j]);
            }
        }
        if p < rest.len() {
            assert(rest[p] == entries[p + 1]);
        }
    }
    let at = position(entries, key);
    if at < entries.len() {
        assert(entries[at].0 == key);
    }
}

/// Setting a key keeps the keys distinct.
pub proof fn lemma_inserted_distinct<K, V>(entries: Seq<(K, V)>, key: K, value: V)
    requires
        distinct_keys(entries),
    ensures
        distinct_keys(inserted(entries, key, value)),
        has_key(inserted(entries, key, value), key),
        lookup(inserted(entries, key, value), key) == Some(value),
{
    lemma_position_is_first(entries, key);
    let at = position(entries, key);
    let after = inserted(entries, key, value);
    assert forall|i: int, j: int| 0 <= i < j < after.len() implies (#[trigger] after[i]).0 != (
    #[trigger] after[j]).0 by {
        if at < entries.len() {
            if i == at {
                assert(entries[at].0 != entries[j].0);
            } else if j == at {
                assert(entries[i].0 != entries[at].0);
            } else {
                assert(entries[i].0 != entries[j].0);
            }
        } else {
            if j == entries.len() {
                assert(entries[i].0 != key);
            } else {
                assert(entries[i].0 != entries[j].0);
            }
        }
    }
    assert(after[at].0 == key);
    assert forall|j: int| 0 <= j < at implies (#[trigger] after[j]).0 != key by {
        assert(after[j] == entries[j]);
    }
    lemma_position(after, key, at);
}

/// Setting a key that does not occur yet adds its entry at the end.
pub proof fn lemma_inserted_new<K, V>(entries: Seq<(K, V)>, key: K, value: V)
    requires
        !has_key(entries, key),
    ensures
        inserted(entries, key, value) == entries.push((key, value)),
{
    lemma_position_is_first(entries, key);
}

/// An entry holds the value under its key.
pub proof fn lemma_lookup_entry<K, V>(entries: Seq<(K, V)>, at: int)
    requires
        distinct_keys(entries),
        0 <= at < entries.len(),
    ensures
        position(entries, entries[at].0) == at,
        lookup(entries, entries[at].0) == Some(entries[at].1),
{
    assert forall|j: int| 0 <= j < at implies (#[trigger] entries[j]).0 != entries[at].0 by {
        assert(entries[j].0 != entries[at].0);
    }
    lemma_position(entries, entries[at].0, at);
}

/// Whether `whole` holds every entry of `part`: under the key of each, its
/// value.
pub open spec fn covers<K, V>(whole: Seq<(K, V)>, part: Seq<(K, V)>) -> bool {
    forall|i: int| 0 <= i < part.len() ==> lookup(whole, (#[trigger] part[i]).0) == Some(part[i].1)
}

/// Whether two sequences of entries hold the same value under every key,
/// in whatever order.
pub open spec fn same_entries<K, V>(one: Seq<(K, V)>, other: Seq<(K, V)>) -> bool {
    forall|key: K| #[trigger] lookup(one, key) == lookup(other, key)
}

/// Two sequences of entries hold the same where each holds every entry of
/// the other, and only there.
pub proof fn lemma_same_entries<K, V>(one: Seq<(K, V)>, other: Seq<(K, V)>)
    requires
        distinct_keys(one),
        distinct_keys(other),
    ensures
        same_entries(one, other) <==> covers(other, one) && covers(one, other),
{
    if same_entries(one, other) {
        assert forall|i: int| 0 <= i < one.len() implies lookup(other, (#[trigger] one[i]).0) == Some(
            one[i].1,
        ) by {
            lemma_lookup_entry(one, i);
            assert(lookup(one, one[i].0) == lookup(other, one[i].0));
        }
        assert forall|i: int| 0 <= i < other.len() implies lookup(one, (#[trigger] other[i]).0) == Some(
            other[i].1,
        ) by {
            lemma_lookup_entry(other, i);
            assert(lookup(one, other[i].0) == lookup(other, other[i].0));
        }
    }
    if covers(other, one) && covers(one, other) {
        assert forall|key: K| #[trigger] lookup(one, key) == lookup(other, key) by {
            lemma_position_is_first(one, key);
            lemma_position_is_first(other, key);
            let at = position(one, key);
            let there = position(other, key);
            if at < one.len() {
                assert(lookup(other, one[at].0) == Some(one[at].1));
            } else if there < other.len() {
                assert(lookup(one, other[there].0) == Some(other[there].1));
            }
        }
    }
}

} // verus!
