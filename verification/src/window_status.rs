//! What the client says of its window.

use vstd::prelude::*;

verus! {

/// How the client shows the game.
#[derive(Clone, Copy, Debug, PartialEq, Eq)]
pub enum WindowMode {
    /// A window of the one fixed size.
    Fixed,
    /// A window of any size.
    Resizable,
    /// The whole screen.
    Fullscreen,
}

impl WindowMode {
    /// Whether the size of the window can change.
    pub open spec fn resizeable(self) -> bool {
        self != WindowMode::Fixed
    }

    pub fn is_resizeable(&self) -> (resizeable: bool)
        ensures
            resizeable == self.resizeable(),
    {
        match self {
            WindowMode::Fixed => false,
            _ => true,
        }
    }
}

/// The mode and the size of the client's window.
#[derive(Clone, Copy, Debug, PartialEq, Eq)]
pub struct WindowStatus {
    pub window_mode: WindowMode,
    pub canvas_width: u16,
    pub canvas_height: u16,
}

impl WindowStatus {
    pub fn new(window_mode: WindowMode, canvas_width: u16, canvas_height: u16) -> (status: Self)
        ensures
            status == (WindowStatus { window_mode, canvas_width, canvas_height }),
    {
        WindowStatus { window_mode, canvas_width, canvas_height }
    }
}

} // verus!
