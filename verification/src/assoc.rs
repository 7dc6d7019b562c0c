//! Association lists: maps kept as sequences of key-value pairs, read at
//! the first entry of a key.

use vstd::prelude::*;

verus! {

/// The value of the first entry with key `k`.
pub open spec fn assoc_get<K, V>(s: Seq<(K, V)>, k: K) -> Option<V>
    decreases s.len(),
{
    if s.len() == 0 {
        None
    } else if s[0].0 == k {
        Some(s[0].1)
    } else {
        assoc_get(s.drop_first(), k)
    }
}

/// The entries whose key is not `k`, in order.
pub open spec fn assoc_without<K, V>(s: Seq<(K, V)>, k: K) -> Seq<(K, V)>
    decreases s.len(),
{
    if s.len() == 0 {
        s
    } else {
        let rest = assoc_without(s.drop_last(), k);
        if s.last().0 == k { rest } else { rest.push(s.last()) }
    }
}

pub proof fn lemma_assoc_get_index<K, V>(s: Seq<(K, V)>, k: K, i: int)
    requires
        0 <= i < s.len(),
        s[i].0 == k,
        forall|j: int| 0 <= j < i ==> s[j].0 != k,
    ensures
        assoc_get(s, k) == Some(s[i].1),
    decreases i,
{
    if i > 0 {
        lemma_assoc_get_index(s.drop_first(), k, i - 1);
    }
}

pub proof fn lemma_assoc_get_absent<K, V>(s: Seq<(K, V)>, k: K)
    requires
        forall|j: int| 0 <= j < s.len() ==> s[j].0 != k,
    ensures
        assoc_get(s, k) is None,
    decreases s.len(),
{
    if s.len() > 0 {
        lemma_assoc_get_absent(s.drop_first(), k);
    }
}

pub proof fn lemma_assoc_get_update<K, V>(s: Seq<(K, V)>, i: int, v: V, k: K)
    requires
        0 <= i < s.len(),
        s[i].0 != k,
    ensures
        assoc_get(s.update(i, (s[i].0, v)), k) == assoc_get(s, k),
    decreases s.len(),
{
    let t = s.update(i, (s[i].0, v));
    if i > 0 {
        assert(t.drop_first() == s.drop_first().update(i - 1, (s[i].0, v)));
        if s[0].0 != k {
            lemma_assoc_get_update(s.drop_first(), i - 1, v, k);
        }
    } else {
        assert(t.drop_first() == s.drop_first());
    }
}

pub proof fn lemma_assoc_get_push<K, V>(s: Seq<(K, V)>, e: (K, V), k: K)
    ensures
        assoc_get(s.push(e), k) == match assoc_get(s, k) {
            Some(v) => Some(v),
            None => if e.0 == k { Some(e.1) } else { None },
        },
    decreases s.len(),
{
    if s.len() > 0 {
        assert(s.push(e).drop_first() == s.drop_first().push(e));
        assert(s.push(e)[0] == s[0]);
        lemma_assoc_get_push(s.drop_first(), e, k);
    } else {
        assert(s.push(e).drop_first() =~= Seq::<(K, V)>::empty());
        assert(s.push(e)[0] == e);
        assert(assoc_get(Seq::<(K, V)>::empty(), k) is None);
        assert(assoc_get(s, k) is None);
    }
}

/// After removing key `k`, it has no entry; every other key keeps its
/// value.
pub proof fn lemma_assoc_without<K, V>(s: Seq<(K, V)>, k: K, other: K)
    ensures
        assoc_get(assoc_without(s, k), k) is None,
        other != k ==> assoc_get(assoc_without(s, k), other) == assoc_get(s, other),
        forall|j: int| 0 <= j < assoc_without(s, k).len() ==> #[trigger] assoc_without(s, k)[j].0 != k,
    decreases s.len(),
{
    if s.len() > 0 {
        lemma_assoc_without(s.drop_last(), k, other);
        let rest = assoc_without(s.drop_last(), k);
        assert(s == s.drop_last().push(s.last()));
        if s.last().0 != k {
            lemma_assoc_get_push(rest, s.last(), k);
            lemma_assoc_get_push(rest, s.last(), other);
            lemma_assoc_get_push(s.drop_last(), s.last(), other);
        } else {
            lemma_assoc_get_push(s.drop_last(), s.last(), other);
        }
    }
}

} // verus!
