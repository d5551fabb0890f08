use crate::protocol::{Config, Message};
use vstd::prelude::*;
use vstd::string::StringExecFns;

verus! {

/// Title a window gets when none is given.
pub const DEFAULT_TITLE: &'static str = "screen exe";

/// Size of a window when none is given.
pub const DEFAULT_SIZE: (u32, u32) = (640, 480);

/// Relies on `rand::random`: nothing is known of the value drawn.
pub assume_specification<T>[ rand::random::<T> ]() -> (r: T)
    where
        rand::distributions::Standard: rand::distributions::Distribution<T>,
;

/// The name of the local socket for `tag`: a file under /tmp where the system
/// has only file-path socket names (`only_paths`), a name in the abstract
/// namespace otherwise.
pub fn socket_name(tag: &str, only_paths: bool) -> (r: String)
    ensures
        r@ == (if only_paths {
            "/tmp/libfm-screen-sock-"@
        } else {
            "@libfm-screen-sock-"@
        }) + tag@ + ".sock"@,
{
    let mut name = if only_paths {
        String::from_str("/tmp/libfm-screen-sock-")
    } else {
        String::from_str("@libfm-screen-sock-")
    };
    name.append(tag);
    name.append(".sock");
    name
}

/// The controller's handle on one window of the compositor. Each method that
/// changes the window gives the one command that does so.
pub struct Viewport {
    pub id: usize,
}

impl Viewport {
    /// The configuration of a new window: what is given, with the defaults
    /// for the rest (title "screen exe", hidden, undecorated, 640 by 480).
    pub fn config(
        pos: Option<(i32, i32)>,
        z: Option<i32>,
        title: Option<String>,
        visible: Option<bool>,
        size: Option<(u32, u32)>,
        decorations: Option<bool>,
    ) -> (r: Config)
        ensures
            r.pos == pos,
            r.z == z,
            title matches Some(t) ==> r.title@ == t@,
            title is None ==> r.title@ == DEFAULT_TITLE@,
            r.visible == (visible == Some(true)),
            r.decorations == (decorations == Some(true)),
            r.size == match size {
                Some(s) => s,
                None => DEFAULT_SIZE,
            },
    {
        let title = match title {
            Some(t) => t,
            None => DEFAULT_TITLE.to_owned(),
        };
        let visible = match visible {
            Some(v) => v,
            None => false,
        };
        let decorations = match decorations {
            Some(d) => d,
            None => false,
        };
        let size = match size {
            Some(s) => s,
            None => DEFAULT_SIZE,
        };
        Config { title, pos, visible, decorations, size, z }
    }

    /// A handle on window `id`, and the command that creates that window.
    pub fn new(config: Config, id: usize) -> (r: (Viewport, Message))
        ensures
            r.0.id == id,
            r.1 == Message::CreateWindow(config, id),
    {
        (Viewport { id }, Message::CreateWindow(config, id))
    }

    /// A handle on a new window with a randomly drawn id, and the command that
    /// creates it.
    pub fn with_random_id(config: Config) -> (r: (Viewport, Message))
        ensures
            r.1 == Message::CreateWindow(config, r.0.id),
    {
        let id: usize = rand::random();
        Viewport::new(config, id)
    }

    pub fn reposition(&self, x: i32, y: i32) -> (r: Message)
        ensures
            r == Message::RepositionWindow(x, y, self.id),
    {
        Message::RepositionWindow(x, y, self.id)
    }

    pub fn resize(&self, width: u32, height: u32) -> (r: Message)
        ensures
            r == Message::ResizeWindow(width, height, self.id),
    {
        Message::ResizeWindow(width, height, self.id)
    }

    pub fn close(&self) -> (r: Message)
        ensures
            r == Message::DeleteWindow(self.id),
    {
        Message::DeleteWindow(self.id)
    }
}

/// The controller's handle on one sprite. It remembers the position it last
/// asked for, since the compositor reports none back.
pub struct Sprite {
    pub id: usize,
    pub viewport_id: usize,
    pub x: i32,
    pub y: i32,
    pub z: i32,
}

impl Sprite {
    /// A handle on sprite `id` of the viewport's window, at the origin, and the
    /// command that creates that sprite.
    pub fn new(viewport: &Viewport, id: usize) -> (r: (Sprite, Message))
        ensures
            r.0.id == id,
            r.0.viewport_id == viewport.id,
            (r.0.x, r.0.y, r.0.z) == (0i32, 0i32, 0i32),
            r.1 == Message::CreateSprite(id, viewport.id),
    {
        (
            Sprite { id, viewport_id: viewport.id, x: 0, y: 0, z: 0 },
            Message::CreateSprite(id, viewport.id),
        )
    }

    /// A handle on a new sprite of the viewport's window with a randomly drawn
    /// id, at the origin, and the command that creates it.
    pub fn with_random_id(viewport: &Viewport) -> (r: (Sprite, Message))
        ensures
            r.0.viewport_id == viewport.id,
            (r.0.x, r.0.y, r.0.z) == (0i32, 0i32, 0i32),
            r.1 == Message::CreateSprite(r.0.id, viewport.id),
    {
        let id: usize = rand::random();
        Sprite::new(viewport, id)
    }

    /// The command that gives the sprite the image in file `filename`.
    pub fn set(&self, filename: String) -> (r: Message)
        ensures
            r == Message::SetSprite(self.id, self.viewport_id, filename),
    {
        Message::SetSprite(self.id, self.viewport_id, filename)
    }

    /// Moves the sprite; gives the command that moves it in the compositor.
    pub fn reposition(&mut self, x: i32, y: i32, z: i32) -> (r: Message)
        ensures
            final(self).id == old(self).id,
            final(self).viewport_id == old(self).viewport_id,
            (final(self).x, final(self).y, final(self).z) == (x, y, z),
            r == Message::RepositionSprite(old(self).id, old(self).viewport_id, x, y, z),
    {
        self.x = x;
        self.y = y;
        self.z = z;
        Message::RepositionSprite(self.id, self.viewport_id, x, y, z)
    }

    pub fn get_x(&self) -> (r: i32)
        ensures
            r == self.x,
    {
        self.x
    }

    pub fn get_y(&self) -> (r: i32)
        ensures
            r == self.y,
    {
        self.y
    }

    pub fn get_z(&self) -> (r: i32)
        ensures
            r == self.z,
    {
        self.z
    }

    pub fn set_x(&mut self, x: i32) -> (r: Message)
        ensures
            final(self).id == old(self).id,
            final(self).viewport_id == old(self).viewport_id,
            (final(self).x, final(self).y, final(self).z) == (x, old(self).y, old(self).z),
            r == Message::RepositionSprite(old(self).id, old(self).viewport_id, x, old(self).y, old(self).z),
    {
        let (y, z) = (self.y, self.z);
        self.reposition(x, y, z)
    }

    pub fn set_y(&mut self, y: i32) -> (r: Message)
        ensures
            final(self).id == old(self).id,
            final(self).viewport_id == old(self).viewport_id,
            (final(self).x, final(self).y, final(self).z) == (old(self).x, y, old(self).z),
            r == Message::RepositionSprite(old(self).id, old(self).viewport_id, old(self).x, y, old(self).z),
    {
        let (x, z) = (self.x, self.z);
        self.reposition(x, y, z)
    }

    pub fn set_z(&mut self, z: i32) -> (r: Message)
        ensures
            final(self).id == old(self).id,
            final(self).viewport_id == old(self).viewport_id,
            (final(self).x, final(self).y, final(self).z) == (old(self).x, old(self).y, z),
            r == Message::RepositionSprite(old(self).id, old(self).viewport_id, old(self).x, old(self).y, z),
    {
        let (x, y) = (self.x, self.y);
        self.reposition(x, y, z)
    }

    pub fn close(&self) -> (r: Message)
        ensures
            r == Message::RemoveSprite(self.id, self.viewport_id),
    {
        Message::RemoveSprite(self.id, self.viewport_id)
    }
}

} // verus!
