use crate::window::WindowEvent;
use std::collections::VecDeque;
use vstd::prelude::*;

verus! {

/// The surface size a queued event asks the drawing side to take.
pub open spec fn resize_of<P>(e: WindowEvent<P>) -> Option<P> {
    match e {
        WindowEvent::ResizeHappened { dims } => Some(dims),
        _ => None,
    }
}

/// The frame size after a run of events: that of the last resize among them,
/// else `dims`.
pub open spec fn frame_after<P>(evts: Seq<WindowEvent<P>>, dims: P) -> P
    decreases evts.len(),
{
    if evts.len() == 0 {
        dims
    } else {
        match resize_of(evts.last()) {
            Some(d) => d,
            None => frame_after(evts.drop_last(), dims),
        }
    }
}

/// One event as the driver hands it out: the surface is first resized to
/// `resize`, if there is one, and then the caller sees `event`.
#[derive(Debug, Clone, Copy, PartialEq)]
pub struct Dispatch<P> {
    pub resize: Option<P>,
    pub event: WindowEvent<P>,
}

/// The driver's own state: the events waiting to be handed out and the
/// current frame size.
pub struct AppState<P> {
    pub evt_buf: VecDeque<WindowEvent<P>>,
    pub frame_dims: P,
}

impl<P: Copy> AppState<P> {
    pub fn new(frame_dims: P) -> (r: Self)
        ensures
            r.evt_buf@ == Seq::<WindowEvent<P>>::empty(),
            r.frame_dims == frame_dims,
    {
        AppState { evt_buf: VecDeque::new(), frame_dims }
    }

    /// Empties the queue, in order, keeping the frame size up to date with
    /// each resize.
    pub fn drain_events(&mut self) -> (r: Vec<Dispatch<P>>)
        ensures
            final(self).evt_buf@ == Seq::<WindowEvent<P>>::empty(),
            final(self).frame_dims == frame_after(old(self).evt_buf@, old(self).frame_dims),
            r@.len() == old(self).evt_buf@.len(),
            forall|i: int|
                0 <= i < r@.len() ==> (#[trigger] r@[i]).event == old(self).evt_buf@[i] && r@[i].resize
                    == resize_of(old(self).evt_buf@[i]),
    {
        let ghost orig = self.evt_buf@;
        let ghost f0 = self.frame_dims;
        let mut out: Vec<Dispatch<P>> = Vec::new();
        while self.evt_buf.len() > 0
            invariant
                out@.len() <= orig.len(),
                self.evt_buf@ == orig.subrange(out@.len() as int, orig.len() as int),
                self.frame_dims == frame_after(orig.take(out@.len() as int), f0),
                forall|i: int|
                    0 <= i < out@.len() ==> (#[trigger] out@[i]).event == orig[i] && out@[i].resize
                        == resize_of(orig[i]),
            decreases self.evt_buf@.len(),
        {
            let ghost k = out@.len() as int;
            match self.evt_buf.pop_front() {
                Some(evt) => {
                    assert(evt == orig[k]);
                    assert(orig.take(k + 1).drop_last() =~= orig.take(k));
                    let resize = match evt {
                        WindowEvent::ResizeHappened { dims } => {
                            self.frame_dims = dims;
                            Some(dims)
                        },
                        _ => None,
                    };
                    out.push(Dispatch { resize, event: evt });
                    assert(self.evt_buf@ =~= orig.subrange(k + 1, orig.len() as int));
                },
                None => {},
            }
        }
        assert(orig.take(out@.len() as int) =~= orig);
        out
    }
}

} // verus!
