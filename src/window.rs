use crate::event::KeyboardEvent;
use crate::event::MouseClickEvent;
use crate::event::MouseMoveEvent;
use vstd::prelude::*;

pub mod winit;
pub mod xcb;

verus! {

/// Geometry requested when a window is created.
#[derive(Debug, Clone, Copy, PartialEq, Eq)]
pub struct WindowDims {
    pub x: i32,
    pub y: i32,
    pub width: u32,
    pub height: u32,
}

/// The unified event vocabulary. `P` is the coordinate pair used for
/// positions and sizes (physical pixels).
#[derive(Debug, Clone, Copy, PartialEq)]
pub enum WindowEvent<P> {
    CloseRequested,
    CloseHappened,
    ResizeHappened { dims: P },
    MouseMove(MouseMoveEvent<P>),
    MouseClick(MouseClickEvent<P>),
    MouseEnter,
    MouseExit,
    Keyboard(KeyboardEvent),
    Expose,
}

} // verus!
