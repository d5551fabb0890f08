use crate::keyed::{has_key, put, take};
use crate::raster::rows_view;
use crate::sprite::{sprite_entries, Sprite, SpriteView};
use indexmap::IndexMap;
use vstd::prelude::*;

verus! {

/// Largest width or height, in pixels, of a window's surface.
pub const MAX_DIMENSION: u32 = 8192;

/// A window of the compositor: its sprites, the size of its surface, where it
/// was last moved to, the frame last composited for it, and whether that frame
/// is stale.
pub struct Window {
    pub sprites: IndexMap<usize, Sprite>,
    pub width: u32,
    pub height: u32,
    pub position: Option<(i32, i32)>,
    pub frame: Vec<Vec<u32>>,
    pub dirty: bool,
}

pub struct WindowView {
    pub sprites: Seq<(usize, SpriteView)>,
    pub width: u32,
    pub height: u32,
    pub position: Option<(i32, i32)>,
    pub frame: Seq<Seq<u32>>,
    pub dirty: bool,
}

impl View for Window {
    type V = WindowView;

    open spec fn view(&self) -> WindowView {
        WindowView {
            sprites: sprite_entries(self.sprites),
            width: self.width,
            height: self.height,
            position: self.position,
            frame: rows_view(self.frame@),
            dirty: self.dirty,
        }
    }
}

/// The windows an `IndexMap` holds, in its order.
pub uninterp spec fn window_entries(m: IndexMap<usize, Window>) -> Seq<(usize, WindowView)>;

/// Relies on `IndexMap::new`: the map starts empty.
#[verifier::external_body]
pub(crate) fn window_map_new() -> (r: IndexMap<usize, Window>)
    ensures
        window_entries(r) == Seq::<(usize, WindowView)>::empty(),
{
    IndexMap::new()
}

/// Relies on `IndexMap::len`.
#[verifier::external_body]
pub(crate) fn window_count(m: &IndexMap<usize, Window>) -> (r: usize)
    ensures
        r == window_entries(*m).len(),
{
    m.len()
}

/// Relies on `IndexMap::get_index_of`: the position of the key, if present.
#[verifier::external_body]
pub(crate) fn window_index_of(m: &IndexMap<usize, Window>, k: usize) -> (r: Option<usize>)
    ensures
        r matches Some(i) ==> i < window_entries(*m).len() && window_entries(*m)[i as int].0 == k,
        r is None ==> !has_key(window_entries(*m), k),
{
    m.get_index_of(&k)
}

/// Relies on indexing an `IndexMap` by position (`Index<usize>`).
#[verifier::external_body]
pub(crate) fn window_at(m: &IndexMap<usize, Window>, i: usize) -> (r: &Window)
    requires
        i < window_entries(*m).len(),
    ensures
        r@ == window_entries(*m)[i as int].1,
{
    &m[i]
}

/// Relies on `IndexMap::keys` indexed by position: the key stored there.
#[verifier::external_body]
pub(crate) fn window_key_at(m: &IndexMap<usize, Window>, i: usize) -> (r: usize)
    requires
        i < window_entries(*m).len(),
    ensures
        r == window_entries(*m)[i as int].0,
{
    m.keys()[i]
}

/// Relies on indexing an `IndexMap` mutably by position (`IndexMut<usize>`):
/// only that entry's value changes.
#[verifier::external_body]
pub(crate) fn window_at_mut(m: &mut IndexMap<usize, Window>, i: usize) -> (r: &mut Window)
    requires
        i < window_entries(*old(m)).len(),
    ensures
        r@ == window_entries(*old(m))[i as int].1,
        window_entries(*final(m)) == window_entries(*old(m)).update(
            i as int,
            (window_entries(*old(m))[i as int].0, final(r)@),
        ),
{
    &mut m[i]
}

/// Relies on `IndexMap::insert`: an existing key keeps its place and takes the
/// new value, a new key goes last.
#[verifier::external_body]
pub(crate) fn window_insert(m: &mut IndexMap<usize, Window>, k: usize, v: Window)
    ensures
        window_entries(*final(m)) == put(window_entries(*old(m)), k, v@),
{
    m.insert(k, v);
}

/// Relies on `IndexMap::swap_remove`: the last entry takes the removed one's
/// place; the removed window is dropped.
#[verifier::external_body]
pub(crate) fn window_remove(m: &mut IndexMap<usize, Window>, k: usize)
    ensures
        window_entries(*final(m)) == take(window_entries(*old(m)), k),
{
    m.swap_remove(&k);
}

} // verus!
