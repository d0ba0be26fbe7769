use crate::event::MouseButton;
use crate::event::MouseClickEvent;
use crate::event::PressState;
use crate::window::xcb::config::ConfigValue;
use crate::window::xcb::config::CONFIG_WINDOW_X;
use crate::window::xcb::config::CONFIG_WINDOW_Y;
use crate::window::xcb::property::AtomProperty;
use crate::window::xcb::property::PropertyReply;
use crate::window::xcb::property::ATOM_ATOM;
use crate::window::xcb::property::XProperty;
use crate::window::xcb::property::XPropertyFormat;
use crate::window::WindowDims;
use crate::window::WindowEvent;
use std::collections::VecDeque;
use vstd::prelude::*;

pub mod config;
pub mod property;

verus! {

/// What the XCB backend knows of its connection: the screen it draws on, the
/// visual it picked, and the atoms it interned at start-up.
#[derive(Debug, Clone, Copy, PartialEq, Eq)]
pub struct XcbBackend {
    pub root: u32,
    pub root_depth: u8,
    pub default_colormap: u32,
    pub black_pixel: u32,
    pub visual_id: u32,
    pub wm_delete_window_atom: u32,
    pub utf8_string_atom: u32,
}

/// A window of the XCB backend.
#[derive(Debug, Clone, Copy, PartialEq, Eq)]
pub struct XcbWindow {
    pub window: u32,
}

#[derive(Debug, Clone)]
pub enum XcbBackendError {
    ConnectionFailed,
    InternAtomFailed,
    PropertyTypeMismatch { expected: u32, found: u32 },
    PropertyEncodingError,
    Other(String),
    /// The operation is not offered by this backend.
    Unsupported,
    Unknown,
}

/// Event codes of the core X protocol.
pub const BUTTON_PRESS: u8 = 4;

pub const BUTTON_RELEASE: u8 = 5;

pub const EXPOSE: u8 = 12;

pub const DESTROY_NOTIFY: u8 = 17;

pub const CLIENT_MESSAGE: u8 = 33;

/// Mode of a ChangeProperty request that replaces the old contents.
pub const PROP_MODE_REPLACE: u8 = 0;

/// Window attribute bits of the CreateWindow request.
pub const CW_BACK_PIXEL: u32 = 2;

pub const CW_BORDER_PIXEL: u32 = 8;

pub const CW_EVENT_MASK: u32 = 2048;

pub const CW_COLORMAP: u32 = 8192;

/// Event mask bits.
pub const EVENT_MASK_BUTTON_PRESS: u32 = 4;

pub const EVENT_MASK_BUTTON_RELEASE: u32 = 8;

pub const EVENT_MASK_EXPOSURE: u32 = 32768;

pub const EVENT_MASK_STRUCTURE_NOTIFY: u32 = 131072;

/// The window class that can be drawn into and receive input.
pub const WINDOW_CLASS_INPUT_OUTPUT: u16 = 1;

/// Allocation mode of a colormap whose entries are not allocated up front.
pub const COLORMAP_ALLOC_NONE: u8 = 0;

/// The depth the backend draws at: 32 bits, with alpha.
pub const DRAW_DEPTH: u8 = 32;

/// The events a window of this backend listens to.
pub const WINDOW_EVENT_MASK: u32 = EVENT_MASK_EXPOSURE | EVENT_MASK_BUTTON_PRESS | EVENT_MASK_BUTTON_RELEASE
    | EVENT_MASK_STRUCTURE_NOTIFY;

/// The visuals a screen offers at one depth.
#[derive(Debug, Clone)]
pub struct DepthVisuals {
    pub depth: u8,
    pub visuals: Vec<u32>,
}

/// The first visual offered at `depth`, searching the depths in order.
pub open spec fn first_visual(depths: Seq<DepthVisuals>, depth: u8) -> Option<u32>
    decreases depths.len(),
{
    if depths.len() == 0 {
        None
    } else if depths[0].depth == depth && depths[0].visuals@.len() > 0 {
        Some(depths[0].visuals@[0])
    } else {
        first_visual(depths.drop_first(), depth)
    }
}

/// A ChangeProperty request.
#[derive(Debug, Clone)]
pub struct ChangePropertyRequest<F> {
    pub mode: u8,
    pub window: u32,
    pub property: u32,
    pub type_: u32,
    pub format: u8,
    pub data: Vec<F>,
}

/// A CreateColormap request.
#[derive(Debug, Clone, Copy, PartialEq, Eq)]
pub struct CreateColormapRequest {
    pub alloc: u8,
    pub mid: u32,
    pub window: u32,
    pub visual: u32,
}

/// A CreateWindow request; `values` are (attribute bit, value) pairs.
#[derive(Debug, Clone)]
pub struct CreateWindowRequest {
    pub depth: u8,
    pub wid: u32,
    pub parent: u32,
    pub x: i16,
    pub y: i16,
    pub width: u16,
    pub height: u16,
    pub border_width: u16,
    pub class: u16,
    pub visual: u32,
    pub values: Vec<(u32, u32)>,
}

/// A ConfigureWindow request; `values` are (mask bit, value) pairs.
#[derive(Debug, Clone)]
pub struct ConfigureWindowRequest {
    pub window: u32,
    pub values: Vec<(u16, u32)>,
}

/// The parts of a native XCB event the translation reads: its response type,
/// the pointer position of a button event, and the first 32-bit word of a
/// client message.
#[derive(Debug, Clone, Copy, PartialEq)]
pub struct XcbRawEvent<P> {
    pub response_type: u8,
    pub pos: P,
    pub client_data0: u32,
}

/// The attributes a new window is created with.
pub open spec fn window_attributes(black_pixel: u32, colormap: u32) -> Seq<(u32, u32)> {
    seq![
        (CW_BACK_PIXEL, black_pixel),
        (CW_BORDER_PIXEL, black_pixel),
        (CW_COLORMAP, colormap),
        (CW_EVENT_MASK, WINDOW_EVENT_MASK),
    ]
}

/// The unified event for one native event. The high bit of the response
/// type only marks a sent event. Every button reads as the left one.
pub open spec fn xcb_translated<P>(wm_delete_window_atom: u32, e: XcbRawEvent<P>) -> Option<WindowEvent<P>> {
    let code = e.response_type & 0x7f;
    if code == BUTTON_PRESS {
        Some(
            WindowEvent::MouseClick(
                MouseClickEvent { state: PressState::Pressed, button: MouseButton::Left, pos: e.pos },
            ),
        )
    } else if code == BUTTON_RELEASE {
        Some(
            WindowEvent::MouseClick(
                MouseClickEvent { state: PressState::Released, button: MouseButton::Left, pos: e.pos },
            ),
        )
    } else if code == EXPOSE {
        Some(WindowEvent::Expose)
    } else if code == DESTROY_NOTIFY {
        Some(WindowEvent::CloseHappened)
    } else if code == CLIENT_MESSAGE && e.client_data0 == wm_delete_window_atom {
        Some(WindowEvent::CloseRequested)
    } else {
        None
    }
}

/// The unified events emitted for a run of native events, in order.
pub open spec fn xcb_emitted<P>(wm_delete_window_atom: u32, evts: Seq<XcbRawEvent<P>>) -> Seq<WindowEvent<P>>
    decreases evts.len(),
{
    if evts.len() == 0 {
        Seq::empty()
    } else {
        let prev = xcb_emitted(wm_delete_window_atom, evts.drop_last());
        match xcb_translated(wm_delete_window_atom, evts.last()) {
            Some(e) => prev.push(e),
            None => prev,
        }
    }
}

impl XcbBackend {
    /// Picks the first 32-bit visual of the screen.
    pub fn select_visual(depths: &Vec<DepthVisuals>) -> (r: Option<u32>)
        ensures
            r == first_visual(depths@, DRAW_DEPTH),
    {
        let mut i: usize = 0;
        assert(depths@.subrange(0, depths@.len() as int) =~= depths@);
        while i < depths.len()
            invariant
                i <= depths@.len(),
                first_visual(depths@, DRAW_DEPTH) == first_visual(depths@.subrange(i as int, depths@.len() as int), DRAW_DEPTH),
            decreases depths@.len() - i,
        {
            let d = &depths[i];
            assert(depths@.subrange(i as int, depths@.len() as int)[0] == depths@[i as int]);
            if d.depth == DRAW_DEPTH && d.visuals.len() > 0 {
                return Some(d.visuals[0]);
            }
            assert(depths@.subrange(i as int, depths@.len() as int).drop_first() =~= depths@.subrange(
                i + 1,
                depths@.len() as int,
            ));
            i = i + 1;
        }
        None
    }

    /// The backend state for a screen: its root window, depth, default
    /// colormap and black pixel, the visuals it offers, and the atoms
    /// `WM_DELETE_WINDOW` and `UTF8_STRING`. Fails when the screen offers no
    /// 32-bit visual.
    pub fn new(
        root: u32,
        root_depth: u8,
        default_colormap: u32,
        black_pixel: u32,
        depths: &Vec<DepthVisuals>,
        wm_delete_window_atom: u32,
        utf8_string_atom: u32,
    ) -> (r: Result<XcbBackend, XcbBackendError>)
        ensures
            first_visual(depths@, DRAW_DEPTH) is None ==> r matches Err(XcbBackendError::Unknown),
            first_visual(depths@, DRAW_DEPTH) matches Some(v) ==> r == Ok::<XcbBackend, XcbBackendError>(
                XcbBackend {
                    root,
                    root_depth,
                    default_colormap,
                    black_pixel,
                    visual_id: v,
                    wm_delete_window_atom,
                    utf8_string_atom,
                },
            ),
    {
        match XcbBackend::select_visual(depths) {
            Some(visual_id) => Ok(
                XcbBackend {
                    root,
                    root_depth,
                    default_colormap,
                    black_pixel,
                    visual_id,
                    wm_delete_window_atom,
                    utf8_string_atom,
                },
            ),
            None => Err(XcbBackendError::Unknown),
        }
    }

    /// Reads the values of type `T` out of a property reply. A reply whose
    /// wire type is not `T`'s fails with `PropertyTypeMismatch` and nothing
    /// is decoded.
    pub fn get_property<F: XPropertyFormat, T: XProperty<F>>(
        &self,
        reply: PropertyReply<F>,
        offset: u32,
        length: u32,
    ) -> (r: Result<Vec<T>, XcbBackendError>)
        ensures
            reply.type_ != T::wire_type().wire_atom(self.utf8_string_atom) ==> r == Err::<
                Vec<T>,
                XcbBackendError,
            >(
                XcbBackendError::PropertyTypeMismatch {
                    expected: T::wire_type().wire_atom(self.utf8_string_atom),
                    found: reply.type_,
                },
            ),
            reply.type_ == T::wire_type().wire_atom(self.utf8_string_atom) ==> match r {
                Ok(v) => T::decodable(reply.value@) && T::decodes_to(reply.value@, v@),
                Err(e) => !T::decodable(reply.value@) && e == XcbBackendError::PropertyEncodingError,
            },
    {
        T::from_property_reply(self, reply, offset, length)
    }

    /// The request that replaces a window property with `values`.
    pub fn set_property<F: XPropertyFormat, T: XProperty<F>>(
        &self,
        window: u32,
        property: u32,
        values: Vec<T>,
    ) -> (r: Result<ChangePropertyRequest<F>, XcbBackendError>)
        ensures
            r matches Ok(req) && req.mode == PROP_MODE_REPLACE && req.window == window && req.property
                == property && req.type_ == T::wire_type().wire_atom(self.utf8_string_atom)
                && req.format as nat == 8 * F::width() && req.data@ == T::encoded(values@),
    {
        let data = match T::to_property_value(self, values) {
            Ok(d) => d,
            Err(e) => {
                return Err(e);
            },
        };
        let type_ = T::property_type().atom(self);
        let format = F::format();
        Ok(
            ChangePropertyRequest {
                mode: PROP_MODE_REPLACE,
                window,
                property,
                type_,
                format: format as u8,
                data,
            },
        )
    }

    /// The request that sets `WM_PROTOCOLS` of a window to `WM_DELETE_WINDOW`,
    /// so that a close by the user arrives as a message instead.
    pub fn close_protocol_request(&self, window: u32, wm_protocols_atom: u32) -> (r: Result<
        ChangePropertyRequest<u32>,
        XcbBackendError,
    >)
        ensures
            r matches Ok(req) && req.mode == PROP_MODE_REPLACE && req.window == window && req.property
                == wm_protocols_atom && req.type_ == ATOM_ATOM && req.format == 32
                && req.data@ == seq![self.wm_delete_window_atom],
    {
        let values = vec![AtomProperty(self.wm_delete_window_atom)];
        let r = self.set_property::<u32, AtomProperty>(window, wm_protocols_atom, values);
        proof {
            let vs = seq![AtomProperty(self.wm_delete_window_atom)];
            assert(vs.map_values(|a: AtomProperty| a.0) =~= seq![self.wm_delete_window_atom]);
        }
        r
    }

    /// The colormap a new window uses: the screen's own when it is 32 bits
    /// deep, else `fresh_id`, with the request that creates it.
    pub fn window_colormap(&self, fresh_id: u32) -> (r: (u32, Option<CreateColormapRequest>))
        ensures
            self.root_depth == DRAW_DEPTH ==> r == (self.default_colormap, None::<CreateColormapRequest>),
            self.root_depth != DRAW_DEPTH ==> r == (
                fresh_id,
                Some(
                    CreateColormapRequest {
                        alloc: COLORMAP_ALLOC_NONE,
                        mid: fresh_id,
                        window: self.root,
                        visual: self.visual_id,
                    },
                ),
            ),
    {
        if self.root_depth == DRAW_DEPTH {
            (self.default_colormap, None)
        } else {
            (
                fresh_id,
                Some(
                    CreateColormapRequest {
                        alloc: COLORMAP_ALLOC_NONE,
                        mid: fresh_id,
                        window: self.root,
                        visual: self.visual_id,
                    },
                ),
            )
        }
    }

    /// The request that creates a 32-bit top-level window `wid` at `dims`,
    /// listening to exposure, button and structure events. The geometry is
    /// cut to the protocol's 16-bit fields.
    pub fn create_window(&self, wid: u32, colormap: u32, dims: WindowDims) -> (r: CreateWindowRequest)
        ensures
            r.depth == DRAW_DEPTH,
            r.wid == wid,
            r.parent == self.root,
            r.x == dims.x as i16,
            r.y == dims.y as i16,
            r.width == dims.width as u16,
            r.height == dims.height as u16,
            r.border_width == 0,
            r.class == WINDOW_CLASS_INPUT_OUTPUT,
            r.visual == self.visual_id,
            r.values@ == window_attributes(self.black_pixel, colormap),
    {
        let values = vec![
            (CW_BACK_PIXEL, self.black_pixel),
            (CW_BORDER_PIXEL, self.black_pixel),
            (CW_COLORMAP, colormap),
            (CW_EVENT_MASK, WINDOW_EVENT_MASK),
        ];
        assert(values@ =~= window_attributes(self.black_pixel, colormap));
        CreateWindowRequest {
            depth: DRAW_DEPTH,
            wid,
            parent: self.root,
            x: dims.x as i16,
            y: dims.y as i16,
            width: dims.width as u16,
            height: dims.height as u16,
            border_width: 0,
            class: WINDOW_CLASS_INPUT_OUTPUT,
            visual: self.visual_id,
            values,
        }
    }

    /// The request that applies `args` to `window`, in order.
    pub fn configure_window(&self, window: u32, args: &[ConfigValue]) -> (r: ConfigureWindowRequest)
        ensures
            r.window == window,
            r.values@ == args@.map_values(|c: ConfigValue| (c.key(), c.value())),
    {
        let mut values: Vec<(u16, u32)> = Vec::new();
        let mut i: usize = 0;
        while i < args.len()
            invariant
                i <= args@.len(),
                values@ =~= args@.take(i as int).map_values(|c: ConfigValue| (c.key(), c.value())),
            decreases args@.len() - i,
        {
            let c = args[i];
            values.push((c.as_key(), c.as_value()));
            i = i + 1;
        }
        assert(args@.take(i as int) =~= args@);
        ConfigureWindowRequest { window, values }
    }

    /// The request that moves a window to `position`.
    pub fn set_window_position(&self, window: &XcbWindow, position: (i32, i32)) -> (r: ConfigureWindowRequest)
        ensures
            r.window == window.window,
            r.values@ == seq![
                (CONFIG_WINDOW_X, position.0 as u32),
                (CONFIG_WINDOW_Y, position.1 as u32),
            ],
    {
        let args = [ConfigValue::X(position.0), ConfigValue::Y(position.1)];
        let r = self.configure_window(window.window, &args);
        assert(r.values@ =~= seq![
            (CONFIG_WINDOW_X, position.0 as u32),
            (CONFIG_WINDOW_Y, position.1 as u32),
        ]);
        r
    }

    /// Translates one native event.
    pub fn translate_event<P: Copy>(&self, e: XcbRawEvent<P>) -> (r: Option<WindowEvent<P>>)
        ensures
            r == xcb_translated(self.wm_delete_window_atom, e),
    {
        let code = e.response_type & 0x7f;
        if code == BUTTON_PRESS {
            Some(
                WindowEvent::MouseClick(
                    MouseClickEvent { state: PressState::Pressed, button: MouseButton::Left, pos: e.pos },
                ),
            )
        } else if code == BUTTON_RELEASE {
            Some(
                WindowEvent::MouseClick(
                    MouseClickEvent { state: PressState::Released, button: MouseButton::Left, pos: e.pos },
                ),
            )
        } else if code == EXPOSE {
            Some(WindowEvent::Expose)
        } else if code == DESTROY_NOTIFY {
            Some(WindowEvent::CloseHappened)
        } else if code == CLIENT_MESSAGE && e.client_data0 == self.wm_delete_window_atom {
            Some(WindowEvent::CloseRequested)
        } else {
            None
        }
    }

    /// Translates the native events drained from the connection, in order,
    /// and appends what they emit to `event_buf`.
    pub fn get_window_events<P: Copy>(
        &self,
        window: &mut XcbWindow,
        events: Vec<XcbRawEvent<P>>,
        event_buf: &mut VecDeque<WindowEvent<P>>,
    )
        ensures
            *final(window) == *old(window),
            final(event_buf)@ == old(event_buf)@ + xcb_emitted(self.wm_delete_window_atom, events@),
    {
        let ghost wm = self.wm_delete_window_atom;
        let mut i: usize = 0;
        while i < events.len()
            invariant
                i <= events@.len(),
                wm == self.wm_delete_window_atom,
                event_buf@ == old(event_buf)@ + xcb_emitted(wm, events@.take(i as int)),
            decreases events@.len() - i,
        {
            assert(events@.take(i + 1).drop_last() =~= events@.take(i as int));
            if let Some(e) = self.translate_event(events[i]) {
                event_buf.push_back(e);
            }
            i = i + 1;
            assert(event_buf@ =~= old(event_buf)@ + xcb_emitted(wm, events@.take(i as int)));
        }
        assert(events@.take(i as int) =~= events@);
    }
}

} // verus!
