use crate::keyed::{has_key, put, take, unique_keys};
use crate::raster::{Image, Picture, BACKGROUND};
use indexmap::IndexMap;
use std::cmp::Ordering;
use vstd::prelude::*;

verus! {

/// A sprite of a window: its position, its depth and, once set, its image.
pub struct Sprite {
    pub x: i32,
    pub y: i32,
    pub z: i32,
    pub image: Option<Image>,
}

pub struct SpriteView {
    pub x: i32,
    pub y: i32,
    pub z: i32,
    pub image: Option<Picture>,
}

impl View for Sprite {
    type V = SpriteView;

    open spec fn view(&self) -> SpriteView {
        SpriteView {
            x: self.x,
            y: self.y,
            z: self.z,
            image: match self.image {
                Some(i) => Some(i@),
                None => None,
            },
        }
    }
}

/// A sprite as it is created: at the origin, at depth 0, without an image.
pub open spec fn blank_sprite() -> SpriteView {
    SpriteView { x: 0, y: 0, z: 0, image: None }
}

impl SpriteView {
    pub open spec fn wf(self) -> bool {
        self.image matches Some(p) ==> p.wf()
    }
}

impl Sprite {
    pub fn new() -> (r: Sprite)
        ensures
            r@ == blank_sprite(),
    {
        Sprite { x: 0, y: 0, z: 0, image: None }
    }
}

/// The sprites of one window, in iteration order, well formed.
pub open spec fn sprites_wf(s: Seq<(usize, SpriteView)>) -> bool {
    &&& unique_keys(s)
    &&& forall|i: int| 0 <= i < s.len() ==> (#[trigger] s[i]).1.wf()
}

/// The sprites an `IndexMap` holds, in its order.
pub uninterp spec fn sprite_entries(m: IndexMap<usize, Sprite>) -> Seq<(usize, SpriteView)>;

/// Relies on `IndexMap::new`: the map starts empty.
#[verifier::external_body]
pub(crate) fn sprite_map_new() -> (r: IndexMap<usize, Sprite>)
    ensures
        sprite_entries(r) == Seq::<(usize, SpriteView)>::empty(),
{
    IndexMap::new()
}

/// Relies on `IndexMap::len`.
#[verifier::external_body]
pub(crate) fn sprite_count(m: &IndexMap<usize, Sprite>) -> (r: usize)
    ensures
        r == sprite_entries(*m).len(),
{
    m.len()
}

/// Relies on `IndexMap::get_index_of`: the position of the key, if present.
#[verifier::external_body]
pub(crate) fn sprite_index_of(m: &IndexMap<usize, Sprite>, k: usize) -> (r: Option<usize>)
    ensures
        r matches Some(i) ==> i < sprite_entries(*m).len() && sprite_entries(*m)[i as int].0 == k,
        r is None ==> !has_key(sprite_entries(*m), k),
{
    m.get_index_of(&k)
}

/// Relies on indexing an `IndexMap` by position (`Index<usize>`).
#[verifier::external_body]
pub(crate) fn sprite_at(m: &IndexMap<usize, Sprite>, i: usize) -> (r: &Sprite)
    requires
        i < sprite_entries(*m).len(),
    ensures
        r@ == sprite_entries(*m)[i as int].1,
{
    &m[i]
}

/// Relies on indexing an `IndexMap` mutably by position (`IndexMut<usize>`):
/// only that entry's value changes.
#[verifier::external_body]
pub(crate) fn sprite_at_mut(m: &mut IndexMap<usize, Sprite>, i: usize) -> (r: &mut Sprite)
    requires
        i < sprite_entries(*old(m)).len(),
    ensures
        r@ == sprite_entries(*old(m))[i as int].1,
        sprite_entries(*final(m)) == sprite_entries(*old(m)).update(
            i as int,
            (sprite_entries(*old(m))[i as int].0, final(r)@),
        ),
{
    &mut m[i]
}

/// Relies on `IndexMap::insert`: an existing key keeps its place and takes the
/// new value, a new key goes last.
#[verifier::external_body]
pub(crate) fn sprite_insert(m: &mut IndexMap<usize, Sprite>, k: usize, v: Sprite)
    ensures
        sprite_entries(*final(m)) == put(sprite_entries(*old(m)), k, v@),
{
    m.insert(k, v);
}

/// Relies on `IndexMap::swap_remove`: the last entry takes the removed one's place.
#[verifier::external_body]
pub(crate) fn sprite_remove(m: &mut IndexMap<usize, Sprite>, k: usize)
    ensures
        sprite_entries(*final(m)) == take(sprite_entries(*old(m)), k),
{
    m.swap_remove(&k);
}

/// Inserts `e` into sprites sorted by depth, after every sprite of equal or
/// lower depth.
pub open spec fn insert_by_depth(s: Seq<(usize, SpriteView)>, e: (usize, SpriteView)) -> Seq<
    (usize, SpriteView),
>
    decreases s.len(),
{
    if s.len() == 0 {
        seq![e]
    } else if s.last().1.z <= e.1.z {
        s.push(e)
    } else {
        insert_by_depth(s.drop_last(), e).push(s.last())
    }
}

/// The sprites in ascending depth, sprites of equal depth in their former order.
pub open spec fn sort_by_depth(s: Seq<(usize, SpriteView)>) -> Seq<(usize, SpriteView)>
    decreases s.len(),
{
    if s.len() == 0 {
        s
    } else {
        insert_by_depth(sort_by_depth(s.drop_last()), s.last())
    }
}

/// Orders two sprites by depth.
pub fn depth_order(a: &Sprite, b: &Sprite) -> (r: Ordering)
    ensures
        (r == Ordering::Less) == (a.z < b.z),
        (r == Ordering::Equal) == (a.z == b.z),
        (r == Ordering::Greater) == (a.z > b.z),
{
    if a.z < b.z {
        Ordering::Less
    } else if a.z > b.z {
        Ordering::Greater
    } else {
        Ordering::Equal
    }
}

/// Relies on `IndexMap::sort_by`, a stable sort, here by depth.
#[verifier::external_body]
pub(crate) fn sprite_sort_by_depth(m: &mut IndexMap<usize, Sprite>)
    ensures
        sprite_entries(*final(m)) == sort_by_depth(sprite_entries(*old(m))),
{
    m.sort_by(|_, a, _, b| depth_order(a, b));
}

/// Whether the sprite's image covers the pixel at (`px`, `py`).
pub open spec fn covers(sp: SpriteView, px: int, py: int) -> bool {
    match sp.image {
        Some(p) => sp.x <= px < sp.x + p.width && sp.y <= py < sp.y + p.height,
        None => false,
    }
}

/// The pixel of the sprite's image that lands on (`px`, `py`).
pub open spec fn sample(sp: SpriteView, px: int, py: int) -> u32 {
    sp.image.unwrap().rows[py - sp.y][px - sp.x]
}

/// The colour of pixel (`px`, `py`) when the sprites are drawn in `order`,
/// each over the ones before it.
pub open spec fn pixel_at(order: Seq<(usize, SpriteView)>, px: int, py: int) -> u32
    decreases order.len(),
{
    if order.len() == 0 {
        BACKGROUND
    } else if covers(order.last().1, px, py) {
        sample(order.last().1, px, py)
    } else {
        pixel_at(order.drop_last(), px, py)
    }
}

/// A surface of `width` by `height` pixels with the sprites drawn in `order`.
pub open spec fn composite(order: Seq<(usize, SpriteView)>, width: nat, height: nat) -> Seq<
    Seq<u32>,
> {
    Seq::new(height, |py: int| Seq::new(width, |px: int| pixel_at(order, px, py)))
}

/// The pixel of the sprite that lands on (`px`, `py`), if its image covers it.
fn sample_at(sp: &Sprite, px: u32, py: u32) -> (r: Option<u32>)
    requires
        sp@.wf(),
    ensures
        r is Some == covers(sp@, px as int, py as int),
        r matches Some(c) ==> c == sample(sp@, px as int, py as int),
{
    match &sp.image {
        Some(img) => {
            let dx: i64 = px as i64 - sp.x as i64;
            let dy: i64 = py as i64 - sp.y as i64;
            if 0 <= dx && dx < img.width as i64 && 0 <= dy && dy < img.height as i64 {
                let row = &img.rows[dy as usize];
                assert(crate::raster::rows_view(img.rows@)[dy as int] == row@);
                Some(row[dx as usize])
            } else {
                None
            }
        },
        None => None,
    }
}

/// The colour of pixel (`px`, `py`) with the sprites drawn in the map's order.
pub fn pixel_value(sprites: &IndexMap<usize, Sprite>, px: u32, py: u32) -> (r: u32)
    requires
        sprites_wf(sprite_entries(*sprites)),
    ensures
        r == pixel_at(sprite_entries(*sprites), px as int, py as int),
{
    let ghost s = sprite_entries(*sprites);
    let mut i = sprite_count(sprites);
    assert(s.subrange(0, i as int) =~= s);
    while i > 0
        invariant
            i <= s.len(),
            s == sprite_entries(*sprites),
            sprites_wf(s),
            pixel_at(s, px as int, py as int) == pixel_at(s.subrange(0, i as int), px as int, py as int),
        decreases i,
    {
        let sp = sprite_at(sprites, i - 1);
        assert(s.subrange(0, i as int).drop_last() =~= s.subrange(0, i - 1));
        assert(s[i - 1].1.wf());
        match sample_at(sp, px, py) {
            Some(c) => {
                return c;
            },
            None => {},
        }
        i = i - 1;
    }
    BACKGROUND
}

/// Draws the sprites, in the map's order, on a surface of `width` by `height`
/// pixels cleared to the background colour. Pixels of a sprite that fall
/// outside the surface are left out.
pub fn render(sprites: &IndexMap<usize, Sprite>, width: u32, height: u32) -> (r: Vec<Vec<u32>>)
    requires
        sprites_wf(sprite_entries(*sprites)),
    ensures
        crate::raster::rows_view(r@) == composite(
            sprite_entries(*sprites),
            width as nat,
            height as nat,
        ),
{
    let ghost s = sprite_entries(*sprites);
    let mut rows: Vec<Vec<u32>> = Vec::new();
    let mut py: u32 = 0;
    while py < height
        invariant
            py <= height,
            s == sprite_entries(*sprites),
            sprites_wf(s),
            rows@.len() == py,
            forall|j: int|
                0 <= j < py ==> #[trigger] rows@[j]@ == Seq::new(
                    width as nat,
                    |px: int| pixel_at(s, px, j),
                ),
        decreases height - py,
    {
        let mut row: Vec<u32> = Vec::new();
        let mut px: u32 = 0;
        while px < width
            invariant
                px <= width,
                s == sprite_entries(*sprites),
                sprites_wf(s),
                row@.len() == px,
                forall|i: int| 0 <= i < px ==> #[trigger] row@[i] == pixel_at(s, i, py as int),
            decreases width - px,
        {
            let c = pixel_value(sprites, px, py);
            row.push(c);
            px = px + 1;
        }
        assert(row@ =~= Seq::new(width as nat, |px: int| pixel_at(s, px, py as int)));
        rows.push(row);
        py = py + 1;
    }
    assert(crate::raster::rows_view(rows@) =~= composite(s, width as nat, height as nat));
    rows
}

} // verus!
