use crate::keyed::{has_key, unique_keys};
use crate::sprite::{insert_by_depth, sort_by_depth, sprites_wf, SpriteView};
use vstd::prelude::*;

verus! {

/// Sprites in ascending depth.
pub open spec fn sorted_by_depth(s: Seq<(usize, SpriteView)>) -> bool {
    forall|i: int, j: int| 0 <= i < j < s.len() ==> (#[trigger] s[i]).1.z <= (#[trigger] s[j]).1.z
}

pub proof fn lemma_insert_contents(t: Seq<(usize, SpriteView)>, e: (usize, SpriteView))
    ensures
        insert_by_depth(t, e).len() == t.len() + 1,
        forall|x: (usize, SpriteView)|
            #[trigger] insert_by_depth(t, e).contains(x) <==> (t.contains(x) || x == e),
    decreases t.len(),
{
    let r = insert_by_depth(t, e);
    if t.len() == 0 {
        assert(r[0] == e);
    } else if t.last().1.z <= e.1.z {
        assert(r[t.len() as int] == e);
        assert forall|x: (usize, SpriteView)| r.contains(x) <==> (t.contains(x) || x == e) by {
            if t.contains(x) {
                let i = choose|i: int| 0 <= i < t.len() && t[i] == x;
                assert(r[i] == x);
            }
            if r.contains(x) {
                let i = choose|i: int| 0 <= i < r.len() && r[i] == x;
                if i < t.len() {
                    assert(t[i] == x);
                }
            }
        }
    } else {
        let d = t.drop_last();
        let inner = insert_by_depth(d, e);
        lemma_insert_contents(d, e);
        assert(r == inner.push(t.last()));
        assert forall|x: (usize, SpriteView)| r.contains(x) <==> (t.contains(x) || x == e) by {
            if t.contains(x) {
                let i = choose|i: int| 0 <= i < t.len() && t[i] == x;
                if i == t.len() - 1 {
                    assert(r[inner.len() as int] == x);
                } else {
                    assert(d[i] == x);
                    assert(inner.contains(x));
                    let k = choose|k: int| 0 <= k < inner.len() && inner[k] == x;
                    assert(r[k] == x);
                }
            }
            if x == e {
                assert(inner.contains(x));
                let k = choose|k: int| 0 <= k < inner.len() && inner[k] == x;
                assert(r[k] == x);
            }
            if r.contains(x) {
                let i = choose|i: int| 0 <= i < r.len() && r[i] == x;
                if i == inner.len() {
                    assert(t[t.len() - 1] == x);
                } else {
                    assert(inner[i] == x);
                    assert(inner.contains(x));
                    if d.contains(x) {
                        let k = choose|k: int| 0 <= k < d.len() && d[k] == x;
                        assert(t[k] == x);
                    }
                }
            }
        }
    }
}

pub proof fn lemma_insert_sorted(t: Seq<(usize, SpriteView)>, e: (usize, SpriteView))
    requires
        sorted_by_depth(t),
    ensures
        sorted_by_depth(insert_by_depth(t, e)),
    decreases t.len(),
{
    let r = insert_by_depth(t, e);
    if t.len() == 0 {
    } else if t.last().1.z <= e.1.z {
        assert forall|i: int, j: int| 0 <= i < j < r.len() implies (#[trigger] r[i]).1.z <= (
        #[trigger] r[j]).1.z by {
            if j == t.len() {
                assert(t[i].1.z <= t[t.len() - 1].1.z);
            }
        }
    } else {
        let d = t.drop_last();
        let inner = insert_by_depth(d, e);
        lemma_insert_sorted(d, e);
        lemma_insert_contents(d, e);
        assert(r == inner.push(t.last()));
        assert forall|i: int, j: int| 0 <= i < j < r.len() implies (#[trigger] r[i]).1.z <= (
        #[trigger] r[j]).1.z by {
            if j == inner.len() {
                let x = inner[i];
                assert(inner.contains(x));
                if x != e {
                    let k = choose|k: int| 0 <= k < d.len() && d[k] == x;
                    assert(t[k] == x);
                }
            }
        }
    }
}

pub proof fn lemma_insert_unique(t: Seq<(usize, SpriteView)>, e: (usize, SpriteView))
    requires
        unique_keys(t),
        !has_key(t, e.0),
    ensures
        unique_keys(insert_by_depth(t, e)),
    decreases t.len(),
{
    let r = insert_by_depth(t, e);
    if t.len() == 0 {
    } else if t.last().1.z <= e.1.z {
        assert forall|i: int, j: int|
            0 <= i < r.len() && 0 <= j < r.len() && #[trigger] r[i].0 == #[trigger] r[j].0 implies i
            == j by {
            if i == t.len() && j < t.len() {
                assert(t[j].0 == e.0);
            }
            if j == t.len() && i < t.len() {
                assert(t[i].0 == e.0);
            }
        }
    } else {
        let d = t.drop_last();
        let l = t.last();
        let inner = insert_by_depth(d, e);
        assert forall|i: int, j: int|
            0 <= i < d.len() && 0 <= j < d.len() && #[trigger] d[i].0 == #[trigger] d[j].0 implies i
            == j by {
            assert(t[i].0 == t[j].0);
        }
        assert(!has_key(d, e.0)) by {
            if has_key(d, e.0) {
                let k = choose|k: int| 0 <= k < d.len() && #[trigger] d[k].0 == e.0;
                assert(t[k].0 == e.0);
            }
        }
        lemma_insert_unique(d, e);
        lemma_insert_contents(d, e);
        assert(r == inner.push(l));
        assert forall|i: int| 0 <= i < inner.len() implies #[trigger] inner[i].0 != l.0 by {
            let x = inner[i];
            assert(inner.contains(x));
            if x.0 == l.0 {
                if x == e {
                    assert(t[t.len() - 1].0 == e.0);
                } else {
                    let k = choose|k: int| 0 <= k < d.len() && d[k] == x;
                    assert(t[k].0 == t[t.len() - 1].0);
                }
            }
        }
        assert forall|i: int, j: int|
            0 <= i < r.len() && 0 <= j < r.len() && #[trigger] r[i].0 == #[trigger] r[j].0 implies i
            == j by {
            if i == inner.len() && j < inner.len() {
                assert(inner[j].0 == l.0);
            }
            if j == inner.len() && i < inner.len() {
                assert(inner[i].0 == l.0);
            }
        }
    }
}

/// Sorting by depth keeps the same sprites, keeps keys unique, and orders by depth.
pub proof fn lemma_sort_by_depth(s: Seq<(usize, SpriteView)>)
    ensures
        sort_by_depth(s).len() == s.len(),
        forall|x: (usize, SpriteView)| #[trigger] sort_by_depth(s).contains(x) <==> s.contains(x),
        sorted_by_depth(sort_by_depth(s)),
        unique_keys(s) ==> unique_keys(sort_by_depth(s)),
    decreases s.len(),
{
    if s.len() > 0 {
        let d = s.drop_last();
        let e = s.last();
        let inner = sort_by_depth(d);
        lemma_sort_by_depth(d);
        lemma_insert_contents(inner, e);
        lemma_insert_sorted(inner, e);
        assert forall|x: (usize, SpriteView)| #[trigger] sort_by_depth(s).contains(x) <==> s.contains(x) by {
            if s.contains(x) {
                let i = choose|i: int| 0 <= i < s.len() && s[i] == x;
                if i < d.len() {
                    assert(d[i] == x);
                }
            }
            if d.contains(x) {
                let i = choose|i: int| 0 <= i < d.len() && d[i] == x;
                assert(s[i] == x);
            }
        }
        if unique_keys(s) {
            assert forall|i: int, j: int|
                0 <= i < d.len() && 0 <= j < d.len() && #[trigger] d[i].0 == #[trigger] d[j].0 implies i
                == j by {
                assert(s[i].0 == s[j].0);
            }
            assert(!has_key(inner, e.0)) by {
                if has_key(inner, e.0) {
                    let k = choose|k: int| 0 <= k < inner.len() && #[trigger] inner[k].0 == e.0;
                    let x = inner[k];
                    assert(inner.contains(x));
                    let m = choose|m: int| 0 <= m < d.len() && d[m] == x;
                    assert(s[m].0 == s[s.len() - 1].0);
                }
            }
            lemma_insert_unique(inner, e);
        }
    }
}

/// Sorting keeps the sprites of a window well formed.
pub proof fn lemma_sort_keeps_wf(s: Seq<(usize, SpriteView)>)
    requires
        sprites_wf(s),
    ensures
        sprites_wf(sort_by_depth(s)),
{
    lemma_sort_by_depth(s);
    let t = sort_by_depth(s);
    assert forall|i: int| 0 <= i < t.len() implies (#[trigger] t[i]).1.wf() by {
        assert(t.contains(t[i]));
        let j = choose|j: int| 0 <= j < s.len() && s[j] == t[i];
        assert(s[j].1.wf());
    }
}

} // verus!
