use crate::compositor::{
    dirty_ids, lemma_sprites_put, lemma_windows_put, redrawn, redrawn_window, step, window_wf,
    with_sprites, with_window, StateView,
};
use crate::depth::{lemma_sort_by_depth, sorted_by_depth};
use crate::keyed::{has_key, key_index, lemma_put, lemma_take, lookup, put, take, unique_keys};
use crate::protocol::{CommandError, Message};
use crate::raster::BACKGROUND;
use crate::sprite::{composite, covers, pixel_at, sample, sort_by_depth, SpriteView};
use vstd::prelude::*;

verus! {

/// The index of the last sprite in `order` covering pixel (`px`, `py`); -1 if none does.
pub open spec fn topmost(order: Seq<(usize, SpriteView)>, px: int, py: int) -> int
    decreases order.len(),
{
    if order.len() == 0 {
        -1
    } else if covers(order.last().1, px, py) {
        order.len() - 1
    } else {
        topmost(order.drop_last(), px, py)
    }
}

/// A pixel shows the background where no sprite covers it, and otherwise the
/// last covering sprite in drawing order.
pub proof fn lemma_topmost(order: Seq<(usize, SpriteView)>, px: int, py: int)
    ensures
        -1 <= topmost(order, px, py) < order.len(),
        topmost(order, px, py) == -1 ==> pixel_at(order, px, py) == BACKGROUND,
        topmost(order, px, py) >= 0 ==> covers(order[topmost(order, px, py)].1, px, py)
            && pixel_at(order, px, py) == sample(order[topmost(order, px, py)].1, px, py),
        forall|k: int|
            0 <= k < order.len() && covers(#[trigger] order[k].1, px, py) ==> k <= topmost(
                order,
                px,
                py,
            ),
    decreases order.len(),
{
    if order.len() > 0 && !covers(order.last().1, px, py) {
        let d = order.drop_last();
        lemma_topmost(d, px, py);
        assert forall|k: int| 0 <= k < order.len() && covers(#[trigger] order[k].1, px, py) implies k
            <= topmost(order, px, py) by {
            assert(d[k] == order[k]);
        }
    }
}

/// Depth order: where sprites `i` and `j` of a window both cover a pixel and
/// `j` is deeper, the sprite on top there after the window is redrawn (its
/// sprites drawn in `sort_by_depth` order) is at least as deep as `j`, so `i`
/// never shows over `j`.
pub proof fn lemma_deeper_sprite_on_top(
    s: Seq<(usize, SpriteView)>,
    i: int,
    j: int,
    px: int,
    py: int,
)
    requires
        0 <= i < s.len(),
        0 <= j < s.len(),
        s[i].1.z < s[j].1.z,
        covers(s[i].1, px, py),
        covers(s[j].1, px, py),
    ensures
        ({
            let order = sort_by_depth(s);
            let t = topmost(order, px, py);
            &&& 0 <= t < order.len()
            &&& order[t].1.z >= s[j].1.z
            &&& order[t] != s[i]
            &&& pixel_at(order, px, py) == sample(order[t].1, px, py)
        }),
{
    let order = sort_by_depth(s);
    lemma_sort_by_depth(s);
    lemma_topmost(order, px, py);
    assert(s.contains(s[j]));
    assert(order.contains(s[j]));
    let m = choose|m: int| 0 <= m < order.len() && order[m] == s[j];
    assert(covers(order[m].1, px, py));
    let t = topmost(order, px, py);
    if t != m {
        assert(sorted_by_depth(order));
        assert(order[m].1.z <= order[t].1.z);
    }
}

/// Where sprite `j` is deeper than every other sprite covering a pixel, the
/// redrawn frame shows `j`'s pixel there.
pub proof fn lemma_deepest_sprite_shows(s: Seq<(usize, SpriteView)>, j: int, px: int, py: int)
    requires
        unique_keys(s),
        0 <= j < s.len(),
        covers(s[j].1, px, py),
        forall|k: int| 0 <= k < s.len() && k != j && covers(#[trigger] s[k].1, px, py) ==> s[k].1.z < s[j].1.z,
    ensures
        pixel_at(sort_by_depth(s), px, py) == sample(s[j].1, px, py),
{
    let order = sort_by_depth(s);
    lemma_sort_by_depth(s);
    lemma_topmost(order, px, py);
    assert(s.contains(s[j]));
    assert(order.contains(s[j]));
    let m = choose|m: int| 0 <= m < order.len() && order[m] == s[j];
    assert(covers(order[m].1, px, py));
    let t = topmost(order, px, py);
    assert(order.contains(order[t]));
    let k = choose|k: int| 0 <= k < s.len() && s[k] == order[t];
    if k != j {
        assert(sorted_by_depth(order));
        if t != m {
            assert(order[m].1.z <= order[t].1.z);
        }
        assert(s[k].1.z < s[j].1.z);
    }
}

/// The same after a redraw pass: in the frame of a stale window, a pixel that
/// sprite `j` covers, and that every other covering sprite covers at a lower
/// depth, shows `j`'s pixel.
pub proof fn lemma_redrawn_frame_shows_deepest(s: StateView, id: usize, j: int, px: int, py: int)
    requires
        s.wf(),
        has_key(s.windows, id),
        lookup(s.windows, id).dirty,
        0 <= px < lookup(s.windows, id).width,
        0 <= py < lookup(s.windows, id).height,
        0 <= j < lookup(s.windows, id).sprites.len(),
        covers(lookup(s.windows, id).sprites[j].1, px, py),
        forall|k: int|
            0 <= k < lookup(s.windows, id).sprites.len() && k != j && covers(
                #[trigger] lookup(s.windows, id).sprites[k].1,
                px,
                py,
            ) ==> lookup(s.windows, id).sprites[k].1.z < lookup(s.windows, id).sprites[j].1.z,
    ensures
        lookup(redrawn(s).windows, id).frame[py][px] == sample(
            lookup(s.windows, id).sprites[j].1,
            px,
            py,
        ),
{
    let w = lookup(s.windows, id);
    let i = key_index(s.windows, id);
    assert(window_wf(s.windows[i].1));
    let r = redrawn(s);
    assert(r.windows[i].0 == id);
    assert forall|a: int, b: int|
        0 <= a < r.windows.len() && 0 <= b < r.windows.len() && #[trigger] r.windows[a].0
            == #[trigger] r.windows[b].0 implies a == b by {
        assert(s.windows[a].0 == s.windows[b].0);
    }
    crate::keyed::lemma_key_index(r.windows, id, i);
    lemma_deepest_sprite_shows(w.sprites, j, px, py);
}

/// Clipping: a frame has exactly the surface's size wherever the sprites are,
/// and each of its pixels is the background or the pixel of the topmost sprite
/// covering it; parts of an image outside the surface do not appear.
pub proof fn lemma_frame_clipped(order: Seq<(usize, SpriteView)>, width: nat, height: nat)
    ensures
        composite(order, width, height).len() == height,
        forall|py: int| 0 <= py < height ==> (#[trigger] composite(order, width, height)[py]).len() == width,
        forall|px: int, py: int|
            0 <= px < width && 0 <= py < height ==> #[trigger] composite(order, width, height)[py][px]
                == if topmost(order, px, py) >= 0 {
                sample(order[topmost(order, px, py)].1, px, py)
            } else {
                BACKGROUND
            },
{
    assert forall|px: int, py: int| 0 <= px < width && 0 <= py < height implies #[trigger] composite(
        order,
        width,
        height,
    )[py][px] == if topmost(order, px, py) >= 0 {
        sample(order[topmost(order, px, py)].1, px, py)
    } else {
        BACKGROUND
    } by {
        lemma_topmost(order, px, py);
    }
}

/// Deleting a window twice: both succeed, and the second changes nothing.
pub proof fn lemma_delete_twice(s: StateView, id: usize, file: Option<Seq<u8>>)
    requires
        s.wf(),
    ensures
        step(s, Message::DeleteWindow(id), file) is Ok,
        step(s, Message::DeleteWindow(id), file) matches Ok(t) ==> step(
            t,
            Message::DeleteWindow(id),
            file,
        ) == Ok::<StateView, CommandError>(t),
{
    lemma_take(s.windows, id);
    let t = StateView { windows: take(s.windows, id), outbox: s.outbox };
    assert(take(t.windows, id) == t.windows);
}

/// A command that names a window that does not exist, or a sprite that its
/// window does not hold, is rejected; `State::apply` then leaves the state as
/// it was.
pub proof fn lemma_unknown_sprite_rejected(
    s: StateView,
    sp: usize,
    id: usize,
    x: i32,
    y: i32,
    z: i32,
)
    requires
        !has_key(s.windows, id) || !has_key(lookup(s.windows, id).sprites, sp),
    ensures
        step(s, Message::RepositionSprite(sp, id, x, y, z), None) == if !has_key(s.windows, id) {
            Err::<StateView, CommandError>(CommandError::UnknownWindow(id))
        } else {
            Err::<StateView, CommandError>(CommandError::UnknownSprite(sp, id))
        },
{
}

/// Applies `RepositionSprite(sp, id, ..)` for each move in turn.
pub open spec fn apply_moves(s: StateView, sp: usize, id: usize, moves: Seq<(i32, i32, i32)>) -> Result<
    StateView,
    CommandError,
>
    decreases moves.len(),
{
    if moves.len() == 0 {
        Ok(s)
    } else {
        match apply_moves(s, sp, id, moves.drop_last()) {
            Ok(t) => step(
                t,
                Message::RepositionSprite(sp, id, moves.last().0, moves.last().1, moves.last().2),
                None,
            ),
            Err(e) => Err(e),
        }
    }
}

/// The ids of the stale windows are ids of windows, each at most once.
pub proof fn lemma_dirty_ids(ws: Seq<(usize, crate::window::WindowView)>)
    requires
        unique_keys(ws),
    ensures
        dirty_ids(ws).no_duplicates(),
        forall|k: usize|
            #[trigger] dirty_ids(ws).contains(k) <==> (has_key(ws, k) && lookup(ws, k).dirty),
    decreases ws.len(),
{
    if ws.len() > 0 {
        let d = ws.drop_last();
        let l = ws.last();
        assert forall|a: int, b: int|
            0 <= a < d.len() && 0 <= b < d.len() && #[trigger] d[a].0 == #[trigger] d[b].0 implies a
            == b by {
            assert(ws[a].0 == ws[b].0);
        }
        lemma_dirty_ids(d);
        assert forall|k: usize| #[trigger] has_key(ws, k) <==> (has_key(d, k) || k == l.0) by {
            if has_key(d, k) {
                let m = key_index(d, k);
                assert(ws[m].0 == k);
            }
            if has_key(ws, k) {
                let m = key_index(ws, k);
                if m < d.len() {
                    assert(d[m].0 == k);
                }
            }
            if k == l.0 {
                assert(ws[ws.len() - 1].0 == k);
            }
        }
        assert(!has_key(d, l.0)) by {
            if has_key(d, l.0) {
                let m = key_index(d, l.0);
                assert(ws[m].0 == ws[ws.len() - 1].0);
            }
        }
        assert forall|k: usize| has_key(d, k) implies lookup(ws, k) == lookup(d, k) by {
            let m = key_index(d, k);
            crate::keyed::lemma_key_index(ws, k, m);
        }
        crate::keyed::lemma_key_index(ws, l.0, ws.len() - 1);
        let r = dirty_ids(ws);
        let p = dirty_ids(d);
        if l.1.dirty {
            assert(r == p.push(l.0));
            assert forall|k: usize| #[trigger] r.contains(k) <==> (has_key(ws, k) && lookup(ws, k).dirty) by {
                if r.contains(k) {
                    let m = choose|m: int| 0 <= m < r.len() && r[m] == k;
                    if m < p.len() {
                        assert(p[m] == k);
                    }
                }
                if p.contains(k) {
                    let m = choose|m: int| 0 <= m < p.len() && p[m] == k;
                    assert(r[m] == k);
                }
                if k == l.0 {
                    assert(r[p.len() as int] == k);
                }
            }
            assert forall|a: int, b: int| 0 <= a < r.len() && 0 <= b < r.len() && a != b implies r[a]
                != r[b] by {
                if a == p.len() {
                    assert(p.contains(p[b]));
                } else if b == p.len() {
                    assert(p.contains(p[a]));
                }
            }
        }
    }
}

/// A burst of moves of one sprite before a redraw: the sprite ends at the last
/// position asked for, and the next redraw pass draws its window exactly once,
/// from its sprites in depth order at their final positions.
pub proof fn lemma_burst_redrawn_once(
    s: StateView,
    sp: usize,
    id: usize,
    moves: Seq<(i32, i32, i32)>,
)
    requires
        s.wf(),
        has_key(s.windows, id),
        has_key(lookup(s.windows, id).sprites, sp),
        moves.len() > 0,
    ensures
        apply_moves(s, sp, id, moves) is Ok,
        apply_moves(s, sp, id, moves) matches Ok(t) ==> {
            let w = lookup(t.windows, id);
            let v = lookup(w.sprites, sp);
            &&& t.wf()
            &&& has_key(t.windows, id)
            &&& has_key(w.sprites, sp)
            &&& (v.x, v.y, v.z) == moves.last()
            &&& v.image == lookup(lookup(s.windows, id).sprites, sp).image
            &&& dirty_ids(t.windows).contains(id)
            &&& dirty_ids(t.windows).no_duplicates()
            &&& lookup(redrawn(t).windows, id) == redrawn_window(w)
            &&& redrawn_window(w).frame == composite(
                sort_by_depth(w.sprites),
                w.width as nat,
                w.height as nat,
            )
        },
    decreases moves.len(),
{
    let d = moves.drop_last();
    let (x, y, z) = moves.last();
    let prev = if d.len() == 0 {
        s
    } else {
        lemma_burst_redrawn_once(s, sp, id, d);
        apply_moves(s, sp, id, d).unwrap()
    };
    assert(apply_moves(s, sp, id, d) == Ok::<StateView, CommandError>(prev));
    assert(prev.wf() && has_key(prev.windows, id) && has_key(lookup(prev.windows, id).sprites, sp));
    assert(lookup(lookup(prev.windows, id).sprites, sp).image == lookup(
        lookup(s.windows, id).sprites,
        sp,
    ).image);
    let w = lookup(prev.windows, id);
    let old_sprite = lookup(w.sprites, sp);
    let v = SpriteView { x, y, z, image: old_sprite.image };
    let nw = with_sprites(w, put(w.sprites, sp, v));
    let t = with_window(prev, id, nw);
    assert(apply_moves(s, sp, id, moves) == Ok::<StateView, CommandError>(t));
    let wi = key_index(prev.windows, id);
    assert(window_wf(prev.windows[wi].1));
    let si = key_index(w.sprites, sp);
    assert(w.sprites[si].1.wf());
    lemma_sprites_put(w.sprites, sp, v);
    lemma_put(w.sprites, sp, v);
    lemma_windows_put(prev.windows, id, nw);
    lemma_put(prev.windows, id, nw);
    lemma_dirty_ids(t.windows);
    let r = redrawn(t);
    let ti = key_index(t.windows, id);
    assert(r.windows[ti].0 == id);
    crate::keyed::lemma_key_index(r.windows, id, ti);
}

} // verus!
