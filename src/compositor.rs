use crate::depth::lemma_sort_keeps_wf;
use crate::keyed::{
    has_key, key_index, lemma_key_index, lemma_put, lemma_put_entries, lemma_take,
    lemma_take_entries, lookup, put, take, unique_keys,
};
use crate::protocol::{CommandError, Message, ReturnMessage};
use crate::raster::{picture_of_file, Image, Picture};
use crate::sprite::{
    blank_sprite, composite, render, sort_by_depth, sprite_at, sprite_at_mut, sprite_index_of,
    sprite_insert, sprite_map_new, sprite_remove, sprite_sort_by_depth, sprites_wf, Sprite,
    SpriteView,
};
use crate::window::{
    window_at, window_at_mut, window_count, window_entries, window_index_of, window_insert,
    window_key_at, window_map_new, window_remove, Window, WindowView, MAX_DIMENSION,
};
use indexmap::IndexMap;
use vstd::prelude::*;

verus! {

/// Everything the compositor knows: its windows, keyed by id, and the
/// notifications not yet sent to the controller.
pub struct State {
    windows: IndexMap<usize, Window>,
    outbox: Vec<ReturnMessage>,
}

pub struct StateView {
    pub windows: Seq<(usize, WindowView)>,
    pub outbox: Seq<ReturnMessage>,
}

impl View for State {
    type V = StateView;

    closed spec fn view(&self) -> StateView {
        StateView { windows: window_entries(self.windows), outbox: self.outbox@ }
    }
}

pub open spec fn window_wf(w: WindowView) -> bool {
    &&& sprites_wf(w.sprites)
    &&& w.width <= MAX_DIMENSION
    &&& w.height <= MAX_DIMENSION
}

pub open spec fn windows_wf(ws: Seq<(usize, WindowView)>) -> bool {
    &&& unique_keys(ws)
    &&& forall|i: int| 0 <= i < ws.len() ==> window_wf(#[trigger] ws[i].1)
}

impl StateView {
    pub open spec fn wf(self) -> bool {
        windows_wf(self.windows)
    }
}

/// A window as a `CreateWindow` command makes it: no sprites, nothing drawn yet.
pub open spec fn fresh_window(width: u32, height: u32, position: Option<(i32, i32)>) -> WindowView {
    WindowView {
        sprites: Seq::empty(),
        width,
        height,
        position,
        frame: Seq::empty(),
        dirty: true,
    }
}

pub open spec fn too_large(width: u32, height: u32) -> bool {
    width > MAX_DIMENSION || height > MAX_DIMENSION
}

pub open spec fn with_window(s: StateView, id: usize, w: WindowView) -> StateView {
    StateView { windows: put(s.windows, id, w), outbox: s.outbox }
}

/// The window `id` with the sprites `sprites`, marked for redrawing.
pub open spec fn with_sprites(w: WindowView, sprites: Seq<(usize, SpriteView)>) -> WindowView {
    WindowView {
        sprites,
        width: w.width,
        height: w.height,
        position: w.position,
        frame: w.frame,
        dirty: true,
    }
}

/// The picture that the contents of an image file give, if any.
pub open spec fn file_picture(file: Option<Seq<u8>>) -> Option<Picture> {
    match file {
        Some(b) => picture_of_file(b),
        None => None,
    }
}

pub open spec fn bytes_of(file: Option<Vec<u8>>) -> Option<Seq<u8>> {
    match file {
        Some(v) => Some(v@),
        None => None,
    }
}

/// The state after a sprite-scoped command that replaces sprite `sp` of window
/// `id` by `f` of it; an error where either does not exist.
pub open spec fn sprite_step(
    s: StateView,
    sp: usize,
    id: usize,
    f: spec_fn(SpriteView) -> SpriteView,
) -> Result<StateView, CommandError> {
    if !has_key(s.windows, id) {
        Err(CommandError::UnknownWindow(id))
    } else if !has_key(lookup(s.windows, id).sprites, sp) {
        Err(CommandError::UnknownSprite(sp, id))
    } else {
        let w = lookup(s.windows, id);
        Ok(with_window(s, id, with_sprites(w, put(w.sprites, sp, f(lookup(w.sprites, sp))))))
    }
}

/// What applying one command does to the compositor's state. `file` is what
/// was read from the image file a `SetSprite` names (`None`: it could not be
/// read).
pub open spec fn step(s: StateView, m: Message, file: Option<Seq<u8>>) -> Result<
    StateView,
    CommandError,
> {
    match m {
        Message::CreateWindow(cfg, id) => {
            if has_key(s.windows, id) {
                Err(CommandError::DuplicateWindow(id))
            } else if too_large(cfg.size.0, cfg.size.1) {
                Err(CommandError::SurfaceTooLarge(id))
            } else {
                Ok(with_window(s, id, fresh_window(cfg.size.0, cfg.size.1, cfg.pos)))
            }
        },
        Message::DeleteWindow(id) => Ok(StateView { windows: take(s.windows, id), outbox: s.outbox }),
        Message::ResizeWindow(width, height, id) => {
            if !has_key(s.windows, id) {
                Err(CommandError::UnknownWindow(id))
            } else if too_large(width, height) {
                Err(CommandError::SurfaceTooLarge(id))
            } else {
                let w = lookup(s.windows, id);
                Ok(
                    with_window(
                        s,
                        id,
                        WindowView {
                            sprites: w.sprites,
                            width,
                            height,
                            position: w.position,
                            frame: w.frame,
                            dirty: true,
                        },
                    ),
                )
            }
        },
        Message::RepositionWindow(x, y, id) => {
            if !has_key(s.windows, id) {
                Err(CommandError::UnknownWindow(id))
            } else {
                let w = lookup(s.windows, id);
                Ok(
                    with_window(
                        s,
                        id,
                        WindowView {
                            sprites: w.sprites,
                            width: w.width,
                            height: w.height,
                            position: Some((x, y)),
                            frame: w.frame,
                            dirty: w.dirty,
                        },
                    ),
                )
            }
        },
        Message::CreateSprite(sp, id) => {
            if !has_key(s.windows, id) {
                Err(CommandError::UnknownWindow(id))
            } else {
                let w = lookup(s.windows, id);
                Ok(with_window(s, id, with_sprites(w, put(w.sprites, sp, blank_sprite()))))
            }
        },
        Message::RemoveSprite(sp, id) => {
            if !has_key(s.windows, id) {
                Err(CommandError::UnknownWindow(id))
            } else if !has_key(lookup(s.windows, id).sprites, sp) {
                Err(CommandError::UnknownSprite(sp, id))
            } else {
                let w = lookup(s.windows, id);
                Ok(with_window(s, id, with_sprites(w, take(w.sprites, sp))))
            }
        },
        Message::SetSprite(sp, id, _) => sprite_step(
            s,
            sp,
            id,
            |v: SpriteView| SpriteView { x: v.x, y: v.y, z: v.z, image: file_picture(file) },
        ),
        Message::RepositionSprite(sp, id, x, y, z) => sprite_step(
            s,
            sp,
            id,
            |v: SpriteView| SpriteView { x, y, z, image: v.image },
        ),
    }
}

/// `r` and `new` are what applying a command whose outcome is `expected` gives:
/// the new state on success, the error and the state unchanged otherwise.
pub open spec fn applied(
    old: StateView,
    new: StateView,
    r: Result<(), CommandError>,
    expected: Result<StateView, CommandError>,
) -> bool {
    match expected {
        Ok(t) => r is Ok && new == t,
        Err(e) => r == Err::<(), CommandError>(e) && new == old,
    }
}

/// A window after a redraw pass: if it was stale, its sprites sorted by depth,
/// its frame composited from them in that order, and no longer stale.
pub open spec fn redrawn_window(w: WindowView) -> WindowView {
    if w.dirty {
        let order = sort_by_depth(w.sprites);
        WindowView {
            sprites: order,
            width: w.width,
            height: w.height,
            position: w.position,
            frame: composite(order, w.width as nat, w.height as nat),
            dirty: false,
        }
    } else {
        w
    }
}

pub open spec fn redrawn(s: StateView) -> StateView {
    StateView {
        windows: Seq::new(
            s.windows.len(),
            |i: int| (s.windows[i].0, redrawn_window(s.windows[i].1)),
        ),
        outbox: s.outbox,
    }
}

/// The ids of the stale windows, in order.
pub open spec fn dirty_ids(ws: Seq<(usize, WindowView)>) -> Seq<usize>
    decreases ws.len(),
{
    if ws.len() == 0 {
        Seq::empty()
    } else if ws.last().1.dirty {
        dirty_ids(ws.drop_last()).push(ws.last().0)
    } else {
        dirty_ids(ws.drop_last())
    }
}

pub(crate) proof fn lemma_update_window(ws: Seq<(usize, WindowView)>, i: int, w: WindowView)
    requires
        windows_wf(ws),
        0 <= i < ws.len(),
        window_wf(w),
    ensures
        windows_wf(ws.update(i, (ws[i].0, w))),
        put(ws, ws[i].0, w) == ws.update(i, (ws[i].0, w)),
{
    let t = ws.update(i, (ws[i].0, w));
    assert forall|a: int, b: int|
        0 <= a < t.len() && 0 <= b < t.len() && #[trigger] t[a].0 == #[trigger] t[b].0 implies a
        == b by {
        assert(ws[a].0 == ws[b].0);
    }
    lemma_key_index(ws, ws[i].0, i);
}

pub(crate) proof fn lemma_sprites_put(s: Seq<(usize, SpriteView)>, k: usize, v: SpriteView)
    requires
        sprites_wf(s),
        v.wf(),
    ensures
        sprites_wf(put(s, k, v)),
{
    lemma_put(s, k, v);
    lemma_put_entries(s, k, v);
    let t = put(s, k, v);
    assert forall|i: int| 0 <= i < t.len() implies (#[trigger] t[i]).1.wf() by {
        if t[i] != (k, v) {
            let j = choose|j: int| 0 <= j < s.len() && s[j] == t[i];
            assert(s[j].1.wf());
        }
    }
}

pub(crate) proof fn lemma_sprites_take(s: Seq<(usize, SpriteView)>, k: usize)
    requires
        sprites_wf(s),
    ensures
        sprites_wf(take(s, k)),
{
    lemma_take(s, k);
    lemma_take_entries(s, k);
    let t = take(s, k);
    assert forall|i: int| 0 <= i < t.len() implies (#[trigger] t[i]).1.wf() by {
        let j = choose|j: int| 0 <= j < s.len() && s[j] == t[i];
        assert(s[j].1.wf());
    }
}

pub(crate) proof fn lemma_windows_put(ws: Seq<(usize, WindowView)>, k: usize, w: WindowView)
    requires
        windows_wf(ws),
        window_wf(w),
    ensures
        windows_wf(put(ws, k, w)),
{
    lemma_put(ws, k, w);
    lemma_put_entries(ws, k, w);
    let t = put(ws, k, w);
    assert forall|i: int| 0 <= i < t.len() implies window_wf(#[trigger] t[i].1) by {
        if t[i] != (k, w) {
            let j = choose|j: int| 0 <= j < ws.len() && ws[j] == t[i];
            assert(window_wf(ws[j].1));
        }
    }
}

pub(crate) proof fn lemma_windows_take(ws: Seq<(usize, WindowView)>, k: usize)
    requires
        windows_wf(ws),
    ensures
        windows_wf(take(ws, k)),
{
    lemma_take(ws, k);
    lemma_take_entries(ws, k);
    let t = take(ws, k);
    assert forall|i: int| 0 <= i < t.len() implies window_wf(#[trigger] t[i].1) by {
        let j = choose|j: int| 0 <= j < ws.len() && ws[j] == t[i];
        assert(window_wf(ws[j].1));
    }
}

impl State {
    pub closed spec fn wf(&self) -> bool {
        self@.wf()
    }

    /// A compositor with no windows and no pending notifications.
    pub fn new() -> (r: State)
        ensures
            r.wf(),
            r@.windows.len() == 0,
            r@.outbox.len() == 0,
    {
        State { windows: window_map_new(), outbox: Vec::new() }
    }

    /// Applies one command. `file` holds the contents of the image file that a
    /// `SetSprite` names, or `None` where it could not be read; other commands
    /// ignore it. An image that cannot be read or decoded leaves the sprite
    /// without one. A `CreateSprite` for an id its window already holds resets
    /// that sprite. On an error the state is left as it was.
    pub fn apply(&mut self, m: Message, file: Option<Vec<u8>>) -> (r: Result<(), CommandError>)
        requires
            old(self).wf(),
        ensures
            final(self).wf(),
            applied(old(self)@, final(self)@, r, step(old(self)@, m, bytes_of(file))),
    {
        match m {
            Message::CreateWindow(cfg, id) => self.create_window(cfg.size.0, cfg.size.1, cfg.pos, id),
            Message::DeleteWindow(id) => {
                self.delete_window(id);
                Ok(())
            },
            Message::ResizeWindow(width, height, id) => self.resize_window(width, height, id),
            Message::RepositionWindow(x, y, id) => self.reposition_window(x, y, id),
            Message::CreateSprite(sp, id) => self.create_sprite(sp, id),
            Message::RemoveSprite(sp, id) => self.remove_sprite(sp, id),
            Message::SetSprite(sp, id, _) => {
                let image = match file {
                    Some(bytes) => Image::decode(bytes.as_slice()),
                    None => None,
                };
                self.set_sprite(sp, id, image)
            },
            Message::RepositionSprite(sp, id, x, y, z) => self.reposition_sprite(sp, id, x, y, z),
        }
    }

    fn create_window(&mut self, width: u32, height: u32, pos: Option<(i32, i32)>, id: usize) -> (r:
        Result<(), CommandError>)
        requires
            old(self).wf(),
        ensures
            final(self).wf(),
            applied(
                old(self)@,
                final(self)@,
                r,
                if has_key(old(self)@.windows, id) {
                    Err(CommandError::DuplicateWindow(id))
                } else if too_large(width, height) {
                    Err(CommandError::SurfaceTooLarge(id))
                } else {
                    Ok(with_window(old(self)@, id, fresh_window(width, height, pos)))
                },
            ),
    {
        if let Some(_) = window_index_of(&self.windows, id) {
            return Err(CommandError::DuplicateWindow(id));
        }
        if width > MAX_DIMENSION || height > MAX_DIMENSION {
            return Err(CommandError::SurfaceTooLarge(id));
        }
        let w = Window {
            sprites: sprite_map_new(),
            width,
            height,
            position: pos,
            frame: Vec::new(),
            dirty: true,
        };
        assert(w@.frame =~= Seq::<Seq<u32>>::empty());
        proof {
            lemma_windows_put(self@.windows, id, w@);
        }
        window_insert(&mut self.windows, id, w);
        Ok(())
    }

    fn delete_window(&mut self, id: usize)
        requires
            old(self).wf(),
        ensures
            final(self).wf(),
            final(self)@ == (StateView { windows: take(old(self)@.windows, id), outbox: old(self)@.outbox }),
    {
        proof {
            lemma_windows_take(self@.windows, id);
        }
        window_remove(&mut self.windows, id);
    }

    fn resize_window(&mut self, width: u32, height: u32, id: usize) -> (r: Result<(), CommandError>)
        requires
            old(self).wf(),
        ensures
            final(self).wf(),
            applied(old(self)@, final(self)@, r, step(old(self)@, Message::ResizeWindow(width, height, id), None)),
    {
        let i = match window_index_of(&self.windows, id) {
            Some(i) => i,
            None => {
                return Err(CommandError::UnknownWindow(id));
            },
        };
        if width > MAX_DIMENSION || height > MAX_DIMENSION {
            return Err(CommandError::SurfaceTooLarge(id));
        }
        let ghost ws = self@.windows;
        proof {
            lemma_key_index(ws, id, i as int);
        }
        let w = window_at_mut(&mut self.windows, i);
        w.width = width;
        w.height = height;
        w.dirty = true;
        proof {
            lemma_update_window(ws, i as int, w@);
        }
        Ok(())
    }

    fn reposition_window(&mut self, x: i32, y: i32, id: usize) -> (r: Result<(), CommandError>)
        requires
            old(self).wf(),
        ensures
            final(self).wf(),
            applied(old(self)@, final(self)@, r, step(old(self)@, Message::RepositionWindow(x, y, id), None)),
    {
        let i = match window_index_of(&self.windows, id) {
            Some(i) => i,
            None => {
                return Err(CommandError::UnknownWindow(id));
            },
        };
        let ghost ws = self@.windows;
        proof {
            lemma_key_index(ws, id, i as int);
        }
        let w = window_at_mut(&mut self.windows, i);
        w.position = Some((x, y));
        proof {
            lemma_update_window(ws, i as int, w@);
        }
        Ok(())
    }

    fn create_sprite(&mut self, sp: usize, id: usize) -> (r: Result<(), CommandError>)
        requires
            old(self).wf(),
        ensures
            final(self).wf(),
            applied(old(self)@, final(self)@, r, step(old(self)@, Message::CreateSprite(sp, id), None)),
    {
        let i = match window_index_of(&self.windows, id) {
            Some(i) => i,
            None => {
                return Err(CommandError::UnknownWindow(id));
            },
        };
        let ghost ws = self@.windows;
        proof {
            lemma_key_index(ws, id, i as int);
            assert(window_wf(ws[i as int].1));
            lemma_sprites_put(ws[i as int].1.sprites, sp, blank_sprite());
        }
        let w = window_at_mut(&mut self.windows, i);
        sprite_insert(&mut w.sprites, sp, Sprite::new());
        w.dirty = true;
        proof {
            lemma_update_window(ws, i as int, w@);
        }
        Ok(())
    }

    fn remove_sprite(&mut self, sp: usize, id: usize) -> (r: Result<(), CommandError>)
        requires
            old(self).wf(),
        ensures
            final(self).wf(),
            applied(old(self)@, final(self)@, r, step(old(self)@, Message::RemoveSprite(sp, id), None)),
    {
        let i = match window_index_of(&self.windows, id) {
            Some(i) => i,
            None => {
                return Err(CommandError::UnknownWindow(id));
            },
        };
        let ghost ws = self@.windows;
        proof {
            lemma_key_index(ws, id, i as int);
            assert(window_wf(ws[i as int].1));
        }
        if let None = sprite_index_of(&window_at(&self.windows, i).sprites, sp) {
            return Err(CommandError::UnknownSprite(sp, id));
        }
        proof {
            lemma_sprites_take(ws[i as int].1.sprites, sp);
        }
        let w = window_at_mut(&mut self.windows, i);
        sprite_remove(&mut w.sprites, sp);
        w.dirty = true;
        proof {
            lemma_update_window(ws, i as int, w@);
        }
        Ok(())
    }

    /// Finds sprite `sp` of window `id`: the positions of both.
    fn locate_sprite(&self, sp: usize, id: usize) -> (r: Result<(usize, usize), CommandError>)
        requires
            self.wf(),
        ensures
            !has_key(self@.windows, id) ==> r == Err::<(usize, usize), CommandError>(
                CommandError::UnknownWindow(id),
            ),
            has_key(self@.windows, id) && !has_key(lookup(self@.windows, id).sprites, sp) ==> r
                == Err::<(usize, usize), CommandError>(CommandError::UnknownSprite(sp, id)),
            has_key(self@.windows, id) && has_key(lookup(self@.windows, id).sprites, sp) ==> r is Ok,
            r matches Ok((i, j)) ==> {
                &&& has_key(self@.windows, id)
                &&& key_index(self@.windows, id) == i
                &&& has_key(lookup(self@.windows, id).sprites, sp)
                &&& key_index(lookup(self@.windows, id).sprites, sp) == j
            },
    {
        let i = match window_index_of(&self.windows, id) {
            Some(i) => i,
            None => {
                return Err(CommandError::UnknownWindow(id));
            },
        };
        let ghost ws = self@.windows;
        proof {
            lemma_key_index(ws, id, i as int);
            assert(window_wf(ws[i as int].1));
        }
        let w = window_at(&self.windows, i);
        let j = match sprite_index_of(&w.sprites, sp) {
            Some(j) => j,
            None => {
                return Err(CommandError::UnknownSprite(sp, id));
            },
        };
        proof {
            lemma_key_index(ws[i as int].1.sprites, sp, j as int);
        }
        Ok((i, j))
    }

    fn set_sprite(&mut self, sp: usize, id: usize, image: Option<Image>) -> (r: Result<(), CommandError>)
        requires
            old(self).wf(),
            image matches Some(img) ==> img.wf(),
        ensures
            final(self).wf(),
            applied(
                old(self)@,
                final(self)@,
                r,
                sprite_step(
                    old(self)@,
                    sp,
                    id,
                    |v: SpriteView|
                        SpriteView {
                            x: v.x,
                            y: v.y,
                            z: v.z,
                            image: crate::raster::view_of(image),
                        },
                ),
            ),
    {
        let (i, j) = match self.locate_sprite(sp, id) {
            Ok(p) => p,
            Err(e) => {
                return Err(e);
            },
        };
        let ghost ws = self@.windows;
        let ghost old_sprite = ws[i as int].1.sprites[j as int].1;
        let ghost new_sprite = SpriteView {
            x: old_sprite.x,
            y: old_sprite.y,
            z: old_sprite.z,
            image: crate::raster::view_of(image),
        };
        proof {
            assert(window_wf(ws[i as int].1));
            assert(ws[i as int].1.sprites[j as int].1.wf());
            lemma_sprites_put(ws[i as int].1.sprites, sp, new_sprite);
            lemma_key_index(ws[i as int].1.sprites, sp, j as int);
        }
        let w = window_at_mut(&mut self.windows, i);
        let s = sprite_at_mut(&mut w.sprites, j);
        s.image = image;
        w.dirty = true;
        proof {
            lemma_update_window(ws, i as int, w@);
        }
        Ok(())
    }

    fn reposition_sprite(&mut self, sp: usize, id: usize, x: i32, y: i32, z: i32) -> (r: Result<
        (),
        CommandError,
    >)
        requires
            old(self).wf(),
        ensures
            final(self).wf(),
            applied(
                old(self)@,
                final(self)@,
                r,
                step(old(self)@, Message::RepositionSprite(sp, id, x, y, z), None),
            ),
    {
        let (i, j) = match self.locate_sprite(sp, id) {
            Ok(p) => p,
            Err(e) => {
                return Err(e);
            },
        };
        let ghost ws = self@.windows;
        let ghost old_sprite = ws[i as int].1.sprites[j as int].1;
        let ghost new_sprite = SpriteView { x, y, z, image: old_sprite.image };
        proof {
            assert(window_wf(ws[i as int].1));
            assert(ws[i as int].1.sprites[j as int].1.wf());
            lemma_sprites_put(ws[i as int].1.sprites, sp, new_sprite);
            lemma_key_index(ws[i as int].1.sprites, sp, j as int);
        }
        let w = window_at_mut(&mut self.windows, i);
        let s = sprite_at_mut(&mut w.sprites, j);
        s.x = x;
        s.y = y;
        s.z = z;
        w.dirty = true;
        proof {
            lemma_update_window(ws, i as int, w@);
        }
        Ok(())
    }

    /// One redraw pass: every stale window has its sprites sorted by depth
    /// (stably), its frame composited from them in that order, and is no longer
    /// stale. Returns the ids of the windows redrawn, in order.
    pub fn redraw(&mut self) -> (r: Vec<usize>)
        requires
            old(self).wf(),
        ensures
            final(self).wf(),
            final(self)@ == redrawn(old(self)@),
            r@ == dirty_ids(old(self)@.windows),
    {
        let ghost ws = self@.windows;
        let n = window_count(&self.windows);
        let mut ids: Vec<usize> = Vec::new();
        let mut i: usize = 0;
        assert(ws.subrange(0, 0) =~= Seq::<(usize, WindowView)>::empty());
        while i < n
            invariant
                n == ws.len(),
                i <= n,
                self@.outbox == old(self)@.outbox,
                ws == old(self)@.windows,
                windows_wf(ws),
                self@.windows.len() == n,
                forall|k: int|
                    0 <= k < i ==> #[trigger] self@.windows[k] == (
                        ws[k].0,
                        redrawn_window(ws[k].1),
                    ),
                forall|k: int| i <= k < n ==> #[trigger] self@.windows[k] == ws[k],
                ids@ == dirty_ids(ws.subrange(0, i as int)),
            decreases n - i,
        {
            let ghost cur = self@.windows;
            let key = window_key_at(&self.windows, i);
            let w = window_at_mut(&mut self.windows, i);
            assert(window_wf(ws[i as int].1));
            if w.dirty {
                proof {
                    lemma_sort_keeps_wf(w@.sprites);
                }
                sprite_sort_by_depth(&mut w.sprites);
                let frame = render(&w.sprites, w.width, w.height);
                w.frame = frame;
                w.dirty = false;
                ids.push(key);
            }
            assert(ws.subrange(0, i + 1).drop_last() =~= ws.subrange(0, i as int));
            assert(ws.subrange(0, i + 1).last() == ws[i as int]);
            i = i + 1;
        }
        proof {
            assert(ws.subrange(0, n as int) =~= ws);
            let t = self@.windows;
            assert(t =~= redrawn(old(self)@).windows);
            assert forall|a: int, b: int|
                0 <= a < t.len() && 0 <= b < t.len() && #[trigger] t[a].0 == #[trigger] t[b].0 implies a
                == b by {
                assert(ws[a].0 == ws[b].0);
            }
            assert forall|k: int| 0 <= k < t.len() implies window_wf(#[trigger] t[k].1) by {
                assert(window_wf(ws[k].1));
                lemma_sort_keeps_wf(ws[k].1.sprites);
            }
        }
        ids
    }

    /// Records that the user asked to close window `id`: one `CloseRequested`
    /// notification is queued for the controller. The window itself stays.
    pub fn close_requested(&mut self, id: usize) -> (r: Result<(), CommandError>)
        requires
            old(self).wf(),
        ensures
            final(self).wf(),
            final(self)@.windows == old(self)@.windows,
            has_key(old(self)@.windows, id) ==> r is Ok && final(self)@.outbox == old(
                self,
            )@.outbox.push(ReturnMessage::CloseRequested(id)),
            !has_key(old(self)@.windows, id) ==> r == Err::<(), CommandError>(
                CommandError::UnknownWindow(id),
            ) && final(self)@.outbox == old(self)@.outbox,
    {
        match window_index_of(&self.windows, id) {
            Some(_) => {
                self.outbox.push(ReturnMessage::CloseRequested(id));
                Ok(())
            },
            None => Err(CommandError::UnknownWindow(id)),
        }
    }

    /// Hands over the queued notifications, oldest first, and empties the queue.
    pub fn take_notifications(&mut self) -> (r: Vec<ReturnMessage>)
        requires
            old(self).wf(),
        ensures
            final(self).wf(),
            r@ == old(self)@.outbox,
            final(self)@.outbox.len() == 0,
            final(self)@.windows == old(self)@.windows,
    {
        let mut out: Vec<ReturnMessage> = Vec::new();
        std::mem::swap(&mut out, &mut self.outbox);
        out
    }

    /// Whether a window with this id exists.
    pub fn has_window(&self, id: usize) -> (r: bool)
        ensures
            r == has_key(self@.windows, id),
    {
        window_index_of(&self.windows, id).is_some()
    }

    /// The ids of all windows, in order.
    pub fn window_ids(&self) -> (r: Vec<usize>)
        ensures
            r@ == self@.windows.map_values(|e: (usize, WindowView)| e.0),
    {
        let n = window_count(&self.windows);
        let mut ids: Vec<usize> = Vec::new();
        let mut i: usize = 0;
        while i < n
            invariant
                n == self@.windows.len(),
                i <= n,
                ids@ == self@.windows.subrange(0, i as int).map_values(
                    |e: (usize, WindowView)| e.0,
                ),
            decreases n - i,
        {
            ids.push(window_key_at(&self.windows, i));
            i = i + 1;
            assert(ids@ =~= self@.windows.subrange(0, i as int).map_values(
                |e: (usize, WindowView)| e.0,
            ));
        }
        assert(self@.windows.subrange(0, n as int) =~= self@.windows);
        ids
    }

    /// The window with this id, if any.
    pub fn window(&self, id: usize) -> (r: Option<&Window>)
        requires
            self.wf(),
        ensures
            r is Some == has_key(self@.windows, id),
            r matches Some(w) ==> w@ == lookup(self@.windows, id),
    {
        match window_index_of(&self.windows, id) {
            Some(i) => {
                proof {
                    lemma_key_index(self@.windows, id, i as int);
                }
                Some(window_at(&self.windows, i))
            },
            None => None,
        }
    }

    /// Sprite `sp` of window `id`, if both exist.
    pub fn sprite(&self, sp: usize, id: usize) -> (r: Option<&Sprite>)
        requires
            self.wf(),
        ensures
            r is Some == (has_key(self@.windows, id) && has_key(
                lookup(self@.windows, id).sprites,
                sp,
            )),
            r matches Some(s) ==> s@ == lookup(lookup(self@.windows, id).sprites, sp),
    {
        match self.locate_sprite(sp, id) {
            Ok((i, j)) => Some(sprite_at(&window_at(&self.windows, i).sprites, j)),
            Err(_) => None,
        }
    }
}

} // verus!
