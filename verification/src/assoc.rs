//! Association lists with unique keys: the spec-level reading of the
//! entity maps the state core keeps.

use vstd::prelude::*;

verus! {

/// The value of the first entry with the given key, if any.
pub open spec fn assoc_lookup<K, V>(s: Seq<(K, V)>, key: K) -> Option<V>
    decreases s,
{
    if s.len() == 0 {
        None
    } else if s[0].0 == key {
        Some(s[0].1)
    } else {
        assoc_lookup(s.drop_first(), key)
    }
}

/// The list after the first entry with the key is replaced, or the pair
/// appended when the key is new.
pub open spec fn assoc_set<K, V>(s: Seq<(K, V)>, key: K, value: V) -> Seq<(K, V)>
    decreases s,
{
    if s.len() == 0 {
        seq![(key, value)]
    } else if s[0].0 == key {
        seq![(key, value)] + s.drop_first()
    } else {
        seq![s[0]] + assoc_set(s.drop_first(), key, value)
    }
}

/// Whether no key appears twice.
pub open spec fn assoc_distinct<K, V>(s: Seq<(K, V)>) -> bool {
    forall|a: int, b: int| 0 <= a < b < s.len() ==> (#[trigger] s[a]).0 != (#[trigger] s[b]).0
}

/// A key listed at no index has no entry.
pub proof fn lemma_assoc_lookup_absent<K, V>(s: Seq<(K, V)>, key: K)
    requires
        forall|j: int| 0 <= j < s.len() ==> (#[trigger] s[j]).0 != key,
    ensures
        assoc_lookup(s, key) is None,
    decreases s,
{
    if s.len() > 0 {
        assert(forall|j: int|
            0 <= j < s.drop_first().len() ==> (#[trigger] s.drop_first()[j]).0 != key);
        lemma_assoc_lookup_absent(s.drop_first(), key);
    }
}

/// Setting a key makes its entry that value.
pub proof fn lemma_assoc_set_same<K, V>(s: Seq<(K, V)>, key: K, value: V)
    ensures
        assoc_lookup(assoc_set(s, key, value), key) == Some(value),
    decreases s,
{
    let p = assoc_set(s, key, value);
    if s.len() == 0 {
        assert(p[0] == (key, value));
    } else if s[0].0 == key {
        assert(p[0] == (key, value));
    } else {
        assert(p[0] == s[0]);
        assert(p.drop_first() =~= assoc_set(s.drop_first(), key, value));
        lemma_assoc_set_same(s.drop_first(), key, value);
    }
}

/// Setting one key leaves every other key's entry unchanged.
pub proof fn lemma_assoc_set_other<K, V>(s: Seq<(K, V)>, key: K, value: V, other: K)
    requires
        other != key,
    ensures
        assoc_lookup(assoc_set(s, key, value), other) == assoc_lookup(s, other),
    decreases s,
{
    let p = assoc_set(s, key, value);
    if s.len() == 0 {
        assert(p[0] == (key, value));
        assert(p[0].0 == key);
        assert(p.drop_first() =~= Seq::<(K, V)>::empty());
        assert(assoc_lookup(p, other) == assoc_lookup(p.drop_first(), other));
        assert(assoc_lookup(p.drop_first(), other) is None);
    } else if s[0].0 == key {
        assert(p[0] == (key, value));
        assert(p[0].0 == key);
        assert(p.drop_first() =~= s.drop_first());
        assert(assoc_lookup(p, other) == assoc_lookup(p.drop_first(), other));
    } else {
        assert(p[0] == s[0]);
        assert(p.drop_first() =~= assoc_set(s.drop_first(), key, value));
        lemma_assoc_set_other(s.drop_first(), key, value, other);
    }
}

/// Setting a key keeps keys distinct.
pub proof fn lemma_assoc_set_distinct<K, V>(s: Seq<(K, V)>, key: K, value: V)
    requires
        assoc_distinct(s),
    ensures
        assoc_distinct(assoc_set(s, key, value)),
    decreases s,
{
    let p = assoc_set(s, key, value);
    if s.len() == 0 {
    } else if s[0].0 == key {
        assert(p[0] == (key, value));
        assert(p.drop_first() =~= s.drop_first());
        assert forall|b: int| 1 <= b < p.len() implies p[0].0 != (#[trigger] p[b]).0 by {
            assert(p[b] == s[b]);
        };
    } else {
        assert(p[0] == s[0]);
        assert(p.drop_first() =~= assoc_set(s.drop_first(), key, value));
        assert(assoc_distinct(s.drop_first()));
        lemma_assoc_set_distinct(s.drop_first(), key, value);
        lemma_assoc_set_keys(s.drop_first(), key, value);
        assert forall|b: int| 1 <= b < p.len() implies p[0].0 != (#[trigger] p[b]).0 by {
            assert(p.drop_first()[b - 1] == p[b]);
        };
    }
}

/// Every key of the list after a set is either an old key or the set key.
pub proof fn lemma_assoc_set_keys<K, V>(s: Seq<(K, V)>, key: K, value: V)
    ensures
        forall|j: int|
            0 <= j < assoc_set(s, key, value).len() ==> ((#[trigger] assoc_set(s, key, value)[j]).0
                == key || exists|i: int| 0 <= i < s.len() && (#[trigger] s[i]).0 == assoc_set(
                s,
                key,
                value,
            )[j].0),
    decreases s,
{
    let p = assoc_set(s, key, value);
    if s.len() == 0 {
    } else if s[0].0 == key {
        assert forall|j: int| 0 <= j < p.len() implies ((#[trigger] p[j]).0 == key || exists|i: int|
            0 <= i < s.len() && (#[trigger] s[i]).0 == p[j].0) by {
            if j > 0 {
                assert(p[j] == s[j]);
            }
        };
    } else {
        lemma_assoc_set_keys(s.drop_first(), key, value);
        assert forall|j: int| 0 <= j < p.len() implies ((#[trigger] p[j]).0 == key || exists|i: int|
            0 <= i < s.len() && (#[trigger] s[i]).0 == p[j].0) by {
            if j == 0 {
                assert(s[0].0 == p[0].0);
            } else {
                assert(p.drop_first() =~= assoc_set(s.drop_first(), key, value));
                assert(p.drop_first()[j - 1] == p[j]);
                if p[j].0 != key {
                    let i = choose|i: int|
                        0 <= i < s.drop_first().len() && (#[trigger] s.drop_first()[i]).0
                            == p[j].0;
                    assert(s[i + 1].0 == p[j].0);
                }
            }
        };
    }
}

/// Where a key first occurs at index `i`, setting it replaces exactly
/// that entry.
pub proof fn lemma_assoc_set_is_update<K, V>(s: Seq<(K, V)>, key: K, value: V, i: int)
    requires
        0 <= i < s.len(),
        s[i].0 == key,
        forall|j: int| 0 <= j < i ==> (#[trigger] s[j]).0 != key,
    ensures
        assoc_set(s, key, value) == s.update(i, (key, value)),
    decreases i,
{
    let p = assoc_set(s, key, value);
    if i == 0 {
        assert(p =~= s.update(0, (key, value)));
    } else {
        assert(s.drop_first()[i - 1] == s[i]);
        assert(forall|j: int|
            0 <= j < i - 1 ==> (#[trigger] s.drop_first()[j]).0 != key);
        lemma_assoc_set_is_update(s.drop_first(), key, value, i - 1);
        assert(p =~= s.update(i, (key, value))) by {
            assert(p == seq![s[0]] + assoc_set(s.drop_first(), key, value));
            assert(s.update(i, (key, value)).drop_first() =~= s.drop_first().update(
                i - 1,
                (key, value),
            ));
        };
    }
}

/// Setting a key with no entry appends the pair.
pub proof fn lemma_assoc_set_is_push<K, V>(s: Seq<(K, V)>, key: K, value: V)
    requires
        assoc_lookup(s, key) is None,
    ensures
        assoc_set(s, key, value) == s.push((key, value)),
    decreases s,
{
    if s.len() == 0 {
        assert(assoc_set(s, key, value) =~= s.push((key, value)));
    } else {
        assert(s[0].0 != key);
        lemma_assoc_set_is_push(s.drop_first(), key, value);
        assert(assoc_set(s, key, value) =~= s.push((key, value))) by {
            assert(s.push((key, value)).drop_first() =~= s.drop_first().push((key, value)));
        };
    }
}

/// Removing the entry at one index leaves the key without an entry,
/// when keys are distinct.
pub proof fn lemma_assoc_remove_same<K, V>(pre: Seq<(K, V)>, i: int)
    requires
        0 <= i < pre.len(),
        assoc_distinct(pre),
    ensures
        assoc_lookup(pre.remove(i), pre[i].0) is None,
    decreases pre,
{
    let key = pre[i].0;
    let post = pre.remove(i);
    if i == 0 {
        assert(post =~= pre.drop_first());
        assert(forall|j: int| 0 <= j < post.len() ==> (#[trigger] post[j]).0 != key);
        lemma_assoc_lookup_absent(post, key);
    } else {
        assert(post[0] == pre[0]);
        assert(pre[0].0 != key);
        assert(post.drop_first() =~= pre.drop_first().remove(i - 1));
        assert(pre.drop_first()[i - 1] == pre[i]);
        assert(assoc_distinct(pre.drop_first()));
        lemma_assoc_remove_same(pre.drop_first(), i - 1);
    }
}

/// Removing one entry leaves every other key's entry unchanged.
pub proof fn lemma_assoc_remove_other<K, V>(pre: Seq<(K, V)>, i: int, other: K)
    requires
        0 <= i < pre.len(),
        other != pre[i].0,
    ensures
        assoc_lookup(pre.remove(i), other) == assoc_lookup(pre, other),
    decreases pre,
{
    let post = pre.remove(i);
    if i == 0 {
        assert(post =~= pre.drop_first());
    } else {
        assert(post[0] == pre[0]);
        if pre[0].0 != other {
            assert(post.drop_first() =~= pre.drop_first().remove(i - 1));
            assert(pre.drop_first()[i - 1] == pre[i]);
            lemma_assoc_remove_other(pre.drop_first(), i - 1, other);
        }
    }
}

} // verus!
