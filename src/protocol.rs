use vstd::prelude::*;

verus! {

/// How a window is to be created.
#[derive(Debug)]
pub struct Config {
    pub title: String,
    pub pos: Option<(i32, i32)>,
    pub visible: bool,
    pub decorations: bool,
    pub size: (u32, u32),
    pub z: Option<i32>,
}

/// A command from the controller. Window and sprite ids are the controller's;
/// a sprite is named by its own id and its window's.
#[derive(Debug)]
pub enum Message {
    CreateWindow(Config, usize),
    DeleteWindow(usize),
    ResizeWindow(u32, u32, usize),
    RepositionWindow(i32, i32, usize),
    CreateSprite(usize, usize),
    RemoveSprite(usize, usize),
    SetSprite(usize, usize, String),
    RepositionSprite(usize, usize, i32, i32, i32),
}

/// A notification to the controller.
#[derive(Debug, Clone, Copy, PartialEq, Eq, Structural)]
pub enum ReturnMessage {
    CloseRequested(usize),
}

/// Why a command was not applied.
#[derive(Debug, Clone, Copy, PartialEq, Eq, Structural)]
pub enum CommandError {
    /// No window has this id.
    UnknownWindow(usize),
    /// The window (second id) holds no sprite with this id (first id).
    UnknownSprite(usize, usize),
    /// A window with this id exists already.
    DuplicateWindow(usize),
    /// The size asked for this window is larger than a surface may be.
    SurfaceTooLarge(usize),
}

} // verus!
