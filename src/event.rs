use vstd::prelude::*;

verus! {

/// A pointer movement; `pos` is in physical pixels.
#[derive(Debug, Clone, Copy, PartialEq)]
pub struct MouseMoveEvent<P> {
    pub pos: P,
}

/// A button transition; `pos` is where the pointer stood, in physical pixels.
#[derive(Debug, Clone, Copy, PartialEq)]
pub struct MouseClickEvent<P> {
    pub state: PressState,
    pub button: MouseButton,
    pub pos: P,
}

#[derive(Debug, Clone, Copy, PartialEq, Eq)]
pub enum PressState {
    Pressed,
    Released,
}

/// The buttons that are represented; any other is filtered out by the backends.
#[derive(Debug, Clone, Copy, PartialEq, Eq)]
pub enum MouseButton {
    Left,
    Right,
    Middle,
}

/// A key transition; `keycode` is the backend's virtual key code.
#[derive(Debug, Clone, Copy, PartialEq, Eq)]
pub struct KeyboardEvent {
    pub state: PressState,
    pub keycode: u32,
}

} // verus!
