use vstd::prelude::*;

verus! {

// An ordered collection keyed by ids is modelled as a sequence of (key, value)
// pairs in iteration order.

pub open spec fn has_key<V>(s: Seq<(usize, V)>, k: usize) -> bool {
    exists|i: int| 0 <= i < s.len() && #[trigger] s[i].0 == k
}

pub open spec fn key_index<V>(s: Seq<(usize, V)>, k: usize) -> int {
    choose|i: int| 0 <= i < s.len() && #[trigger] s[i].0 == k
}

pub open spec fn unique_keys<V>(s: Seq<(usize, V)>) -> bool {
    forall|i: int, j: int|
        0 <= i < s.len() && 0 <= j < s.len() && #[trigger] s[i].0 == #[trigger] s[j].0 ==> i == j
}

/// The value stored under `k`.
pub open spec fn lookup<V>(s: Seq<(usize, V)>, k: usize) -> V {
    s[key_index(s, k)].1
}

/// Stores `v` under `k`: in place where `k` is present, last otherwise.
pub open spec fn put<V>(s: Seq<(usize, V)>, k: usize, v: V) -> Seq<(usize, V)> {
    if has_key(s, k) {
        s.update(key_index(s, k), (k, v))
    } else {
        s.push((k, v))
    }
}

/// Removes the entry under `k`, moving the last entry into its place.
pub open spec fn take<V>(s: Seq<(usize, V)>, k: usize) -> Seq<(usize, V)> {
    if has_key(s, k) {
        s.update(key_index(s, k), s.last()).drop_last()
    } else {
        s
    }
}

pub proof fn lemma_key_index<V>(s: Seq<(usize, V)>, k: usize, i: int)
    requires
        unique_keys(s),
        0 <= i < s.len(),
        s[i].0 == k,
    ensures
        has_key(s, k),
        key_index(s, k) == i,
{
    assert(s[i].0 == k);
}

pub proof fn lemma_put<V>(s: Seq<(usize, V)>, k: usize, v: V)
    requires
        unique_keys(s),
    ensures
        unique_keys(put(s, k, v)),
        has_key(put(s, k, v), k),
        lookup(put(s, k, v), k) == v,
        forall|j: usize| j != k ==> has_key(put(s, k, v), j) == has_key(s, j),
        forall|j: usize| j != k && has_key(s, j) ==> lookup(put(s, k, v), j) == lookup(s, j),
        put(s, k, v).len() == if has_key(s, k) { s.len() } else { s.len() + 1 },
{
    let t = put(s, k, v);
    if has_key(s, k) {
        let i = key_index(s, k);
        assert(forall|m: int| 0 <= m < t.len() ==> #[trigger] t[m].0 == s[m].0);
    } else {
        assert(forall|m: int| 0 <= m < s.len() ==> #[trigger] t[m] == s[m]);
        assert(t[s.len() as int].0 == k);
    }
    lemma_key_index(t, k, if has_key(s, k) { key_index(s, k) } else { s.len() as int });
    assert forall|j: usize| j != k implies has_key(t, j) == has_key(s, j) by {
        if has_key(s, j) {
            let m = key_index(s, j);
            assert(t[m].0 == j);
        }
        if has_key(t, j) {
            let m = key_index(t, j);
            assert(s[m].0 == j);
        }
    }
    assert forall|j: usize| j != k && has_key(s, j) implies lookup(t, j) == lookup(s, j) by {
        let m = key_index(s, j);
        assert(t[m].0 == j);
        lemma_key_index(t, j, m);
    }
}

pub proof fn lemma_take<V>(s: Seq<(usize, V)>, k: usize)
    requires
        unique_keys(s),
    ensures
        unique_keys(take(s, k)),
        !has_key(take(s, k), k),
        forall|j: usize| j != k ==> has_key(take(s, k), j) == has_key(s, j),
        forall|j: usize| j != k && has_key(s, j) ==> lookup(take(s, k), j) == lookup(s, j),
{
    let t = take(s, k);
    if has_key(s, k) {
        let i = key_index(s, k);
        let n = s.len() - 1;
        assert forall|m: int| 0 <= m < t.len() implies #[trigger] t[m] == if m == i {
            s[n]
        } else {
            s[m]
        } by {}
        assert forall|j: usize| j != k implies has_key(t, j) == has_key(s, j) by {
            if has_key(s, j) {
                let m = key_index(s, j);
                if m == n {
                    assert(t[i].0 == j);
                } else {
                    assert(t[m].0 == j);
                }
            }
            if has_key(t, j) {
                let m = key_index(t, j);
                if m == i {
                    assert(s[n].0 == j);
                } else {
                    assert(s[m].0 == j);
                }
            }
        }
        assert forall|j: usize| j != k && has_key(s, j) implies lookup(t, j) == lookup(s, j) by {
            let m = key_index(s, j);
            if m == n {
                lemma_key_index(t, j, i);
            } else {
                lemma_key_index(t, j, m);
            }
        }
    }
}

/// Every entry after a `put` is the new one or an entry from before.
pub proof fn lemma_put_entries<V>(s: Seq<(usize, V)>, k: usize, v: V)
    ensures
        forall|i: int|
            0 <= i < put(s, k, v).len() ==> #[trigger] put(s, k, v)[i] == (k, v) || s.contains(
                put(s, k, v)[i],
            ),
{
    let t = put(s, k, v);
    assert forall|i: int| 0 <= i < t.len() implies #[trigger] t[i] == (k, v) || s.contains(t[i]) by {
        if t[i] != (k, v) {
            assert(s[i] == t[i]);
        }
    }
}

/// Every entry after a `take` is an entry from before.
pub proof fn lemma_take_entries<V>(s: Seq<(usize, V)>, k: usize)
    ensures
        forall|i: int| 0 <= i < take(s, k).len() ==> s.contains(#[trigger] take(s, k)[i]),
{
    let t = take(s, k);
    if has_key(s, k) {
        let m = key_index(s, k);
        assert forall|i: int| 0 <= i < t.len() implies s.contains(#[trigger] t[i]) by {
            if i == m {
                assert(s[s.len() - 1] == t[i]);
            } else {
                assert(s[i] == t[i]);
            }
        }
    } else {
        assert forall|i: int| 0 <= i < t.len() implies s.contains(#[trigger] t[i]) by {
            assert(s[i] == t[i]);
        }
    }
}

} // verus!
