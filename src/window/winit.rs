use crate::event::MouseButton;
use crate::event::MouseClickEvent;
use crate::event::MouseMoveEvent;
use crate::event::PressState;
use crate::window::WindowEvent;
use std::collections::VecDeque;
use vstd::prelude::*;

verus! {

/// A mouse button as winit names it.
#[derive(Debug, Clone, Copy, PartialEq, Eq)]
pub enum WinitMouseButton {
    Left,
    Right,
    Middle,
    Other(u8),
}

/// The winit window events the translation reads. Sizes and positions are
/// already in physical pixels; every other native event is `Other`.
#[derive(Debug, Clone, Copy, PartialEq)]
pub enum WinitEvent<P> {
    CloseRequested,
    Resized(P),
    MouseInput { state: PressState, button: WinitMouseButton },
    CursorMoved(P),
    Other,
}

pub open spec fn mapped_button(b: WinitMouseButton) -> Option<MouseButton> {
    match b {
        WinitMouseButton::Left => Some(MouseButton::Left),
        WinitMouseButton::Right => Some(MouseButton::Right),
        WinitMouseButton::Middle => Some(MouseButton::Middle),
        WinitMouseButton::Other(_) => None,
    }
}

/// The unified event for one native event; a click is placed at `click_pos`,
/// since winit's click carries no position.
pub open spec fn converted<P>(evt: WinitEvent<P>, click_pos: P) -> Option<WindowEvent<P>> {
    match evt {
        WinitEvent::CloseRequested => Some(WindowEvent::CloseRequested),
        WinitEvent::Resized(dims) => Some(WindowEvent::ResizeHappened { dims }),
        WinitEvent::MouseInput { state, button } => match mapped_button(button) {
            Some(b) => Some(WindowEvent::MouseClick(MouseClickEvent { state, button: b, pos: click_pos })),
            None => None,
        },
        WinitEvent::CursorMoved(pos) => Some(WindowEvent::MouseMove(MouseMoveEvent { pos })),
        WinitEvent::Other => None,
    }
}

/// The cursor position cached after seeing `evt`.
pub open spec fn cursor_after<P>(evt: WinitEvent<P>, cursor: P) -> P {
    match evt {
        WinitEvent::CursorMoved(pos) => pos,
        _ => cursor,
    }
}

/// The cached cursor position after a run of native events, starting from `c0`.
pub open spec fn cursor_at<P>(evts: Seq<WinitEvent<P>>, c0: P) -> P
    decreases evts.len(),
{
    if evts.len() == 0 {
        c0
    } else {
        cursor_after(evts.last(), cursor_at(evts.drop_last(), c0))
    }
}

/// The unified events emitted for a run of native events, starting from the
/// cached position `c0`: each click takes the position cached before it.
pub open spec fn emitted<P>(evts: Seq<WinitEvent<P>>, c0: P) -> Seq<WindowEvent<P>>
    decreases evts.len(),
{
    if evts.len() == 0 {
        Seq::empty()
    } else {
        let prev = emitted(evts.drop_last(), c0);
        match converted(evts.last(), cursor_at(evts.drop_last(), c0)) {
            Some(e) => prev.push(e),
            None => prev,
        }
    }
}

/// Native events that leave the cached cursor position where it was.
pub open spec fn no_cursor_moves<P>(evts: Seq<WinitEvent<P>>) -> bool {
    forall|i: int| 0 <= i < evts.len() ==> !(#[trigger] evts[i] is CursorMoved)
}

proof fn lemma_cursor_kept<P>(before: Seq<WinitEvent<P>>, between: Seq<WinitEvent<P>>, c0: P)
    requires
        no_cursor_moves(between),
    ensures
        cursor_at(before + between, c0) == cursor_at(before, c0),
    decreases between.len(),
{
    if between.len() > 0 {
        assert((before + between).drop_last() =~= before + between.drop_last());
        assert(between.last() == between[between.len() - 1]);
        lemma_cursor_kept(before, between.drop_last(), c0);
    } else {
        assert(before + between =~= before);
    }
}

/// A click is emitted at the position of the most recent cursor movement on
/// the window, whatever other events came in between.
pub proof fn lemma_click_at_last_move<P>(
    before: Seq<WinitEvent<P>>,
    pos: P,
    between: Seq<WinitEvent<P>>,
    state: PressState,
    button: WinitMouseButton,
    c0: P,
)
    requires
        no_cursor_moves(between),
        mapped_button(button) is Some,
    ensures
        ({
            let evts = before.push(WinitEvent::CursorMoved(pos)) + between.push(
                WinitEvent::MouseInput { state, button },
            );
            emitted(evts, c0).last() == WindowEvent::MouseClick(
                MouseClickEvent { state, button: mapped_button(button)->Some_0, pos },
            )
        }),
{
    let moved = before.push(WinitEvent::CursorMoved(pos));
    let evts = moved + between.push(WinitEvent::MouseInput { state, button });
    assert(evts.drop_last() =~= moved + between);
    assert(moved.drop_last() =~= before);
    lemma_cursor_kept(moved, between, c0);
}

/// A click of a button outside left, right and middle emits no event and
/// leaves the cached cursor position unchanged.
pub proof fn lemma_unmapped_button_dropped<P>(before: Seq<WinitEvent<P>>, state: PressState, code: u8, c0: P)
    ensures
        ({
            let evts = before.push(WinitEvent::MouseInput { state, button: WinitMouseButton::Other(code) });
            emitted(evts, c0) == emitted(before, c0) && cursor_at(evts, c0) == cursor_at(before, c0)
        }),
{
    let evts = before.push(WinitEvent::MouseInput { state, button: WinitMouseButton::Other(code) });
    assert(evts.drop_last() =~= before);
}

pub fn convert_winit_event<P>(evt: WinitEvent<P>, click_pos: P) -> (r: Option<WindowEvent<P>>)
    ensures
        r == converted(evt, click_pos),
{
    match evt {
        WinitEvent::CloseRequested => Some(WindowEvent::CloseRequested),
        WinitEvent::Resized(dims) => Some(WindowEvent::ResizeHappened { dims }),
        WinitEvent::MouseInput { state, button } => {
            let b = match button {
                WinitMouseButton::Left => MouseButton::Left,
                WinitMouseButton::Right => MouseButton::Right,
                WinitMouseButton::Middle => MouseButton::Middle,
                WinitMouseButton::Other(_) => {
                    return None;
                },
            };
            Some(WindowEvent::MouseClick(MouseClickEvent { state, button: b, pos: click_pos }))
        },
        WinitEvent::CursorMoved(pos) => Some(WindowEvent::MouseMove(MouseMoveEvent { pos })),
        WinitEvent::Other => None,
    }
}

/// Per-window state of the winit backend: the last cursor position seen,
/// which clicks are placed at.
pub struct WinitWindow<P> {
    last_cursor_position: P,
}

impl<P: Copy> WinitWindow<P> {
    pub closed spec fn cursor(&self) -> P {
        self.last_cursor_position
    }

    /// A window whose cached cursor position starts at `origin`.
    pub fn new(origin: P) -> (r: Self)
        ensures
            r.cursor() == origin,
    {
        WinitWindow { last_cursor_position: origin }
    }

    pub fn last_cursor_position(&self) -> (r: P)
        ensures
            r == self.cursor(),
    {
        self.last_cursor_position
    }

    /// Translates the native events drained from the window, in order, and
    /// appends what they emit to `event_buf`.
    pub fn get_window_events(&mut self, events: Vec<WinitEvent<P>>, event_buf: &mut VecDeque<WindowEvent<P>>)
        ensures
            final(event_buf)@ == old(event_buf)@ + emitted(events@, old(self).cursor()),
            final(self).cursor() == cursor_at(events@, old(self).cursor()),
    {
        let ghost c0 = self.last_cursor_position;
        let mut i: usize = 0;
        while i < events.len()
            invariant
                i <= events.len(),
                event_buf@ == old(event_buf)@ + emitted(events@.take(i as int), c0),
                self.last_cursor_position == cursor_at(events@.take(i as int), c0),
                c0 == old(self).cursor(),
            decreases events.len() - i,
        {
            let evt = events[i];
            assert(events@.take(i + 1).drop_last() =~= events@.take(i as int));
            if let Some(e) = convert_winit_event(evt, self.last_cursor_position) {
                event_buf.push_back(e);
            }
            if let WinitEvent::CursorMoved(pos) = evt {
                self.last_cursor_position = pos;
            }
            i = i + 1;
            proof {
                assert(event_buf@ =~= old(event_buf)@ + emitted(events@.take(i as int), c0));
            }
        }
        assert(events@.take(events.len() as int) =~= events@);
    }
}

} // verus!
