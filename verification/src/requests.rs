//! The requests that the window manager has for the display server.
//!
//! The library never talks to the server. Each operation appends the requests
//! it wants sent to a queue, in the order in which they are to be sent; the
//! caller drains the queue and sends them.

use vstd::prelude::*;

verus! {

/// Event mask bit: a key was pressed.
pub const EVENT_KEY_PRESS: u32 = 0x0000_0001;

/// Event mask bit: a key was released.
pub const EVENT_KEY_RELEASE: u32 = 0x0000_0002;

/// Event mask bit: a pointer button was pressed.
pub const EVENT_BUTTON_PRESS: u32 = 0x0000_0004;

/// Event mask bit: a pointer button was released.
pub const EVENT_BUTTON_RELEASE: u32 = 0x0000_0008;

/// Event mask bit: the pointer entered the window.
pub const EVENT_ENTER_WINDOW: u32 = 0x0000_0010;

/// Event mask bit: the pointer moved while a button was down.
pub const EVENT_BUTTON_MOTION: u32 = 0x0000_2000;

/// Event mask bit: a child of the window changed.
pub const EVENT_SUBSTRUCTURE_NOTIFY: u32 = 0x0008_0000;

/// Event mask bit: requests of the window's children come to this client.
pub const EVENT_SUBSTRUCTURE_REDIRECT: u32 = 0x0010_0000;

/// Event mask bit: a property of the window changed.
pub const EVENT_PROPERTY_CHANGE: u32 = 0x0040_0000;

/// Predefined atom: any property type.
pub const ATOM_ANY: u32 = 0;

/// Predefined atom: the type of a list of atoms.
pub const ATOM_ATOM: u32 = 4;

/// Predefined atom: the type of a list of unsigned numbers.
pub const ATOM_CARDINAL: u32 = 6;

/// Predefined atom: the type of a byte string.
pub const ATOM_STRING: u32 = 31;

/// Predefined atom: the type of a list of window ids.
pub const ATOM_WINDOW: u32 = 33;

/// The timestamp that stands for "now".
pub const CURRENT_TIME: u32 = 0;

/// The value of a property: bytes, or 32-bit items.
#[derive(Debug, Clone, PartialEq, Eq)]
pub enum PropertyData {
    Bytes(Vec<u8>),
    Cardinals(Vec<u32>),
}

/// `PropertyData` as a mathematical value.
pub enum PropertyDataView {
    Bytes(Seq<u8>),
    Cardinals(Seq<u32>),
}

impl View for PropertyData {
    type V = PropertyDataView;

    open spec fn view(&self) -> PropertyDataView {
        match *self {
            PropertyData::Bytes(b) => PropertyDataView::Bytes(b@),
            PropertyData::Cardinals(c) => PropertyDataView::Cardinals(c@),
        }
    }
}

/// One request to the display server.
#[allow(inconsistent_fields)]
#[derive(Debug, Clone, PartialEq, Eq)]
pub enum Request {
    /// Create an input-output window `wid` under `parent`.
    CreateWindow {
        wid: u32,
        parent: u32,
        x: i16,
        y: i16,
        width: u16,
        height: u16,
        border_width: u16,
        back_pixel: u32,
        border_pixel: u32,
        event_mask: u32,
    },
    /// Make `window` a child of `parent`, at `(x, y)` in it.
    ReparentWindow { window: u32, parent: u32, x: i16, y: i16 },
    MapWindow { window: u32 },
    UnmapWindow { window: u32 },
    DestroyWindow { window: u32 },
    /// Move and resize `window`.
    ConfigureWindow { window: u32, x: i32, y: i32, width: u32, height: u32 },
    /// Set the colour of the border of `window`.
    SetBorderPixel { window: u32, pixel: u32 },
    /// Select the events of `window` that are reported.
    SetEventMask { window: u32, event_mask: u32 },
    /// Select the root's events and give it a cursor.
    SetRootAttributes { window: u32, event_mask: u32, cursor: u32 },
    /// Give `focus` the input focus, reverting to its parent, now.
    SetInputFocus { focus: u32 },
    /// Replace the property `property` of `window` by `data` of type `kind`.
    ChangeProperty { window: u32, property: u32, kind: u32, data: PropertyData },
    /// Send `window` a client message of type `kind` with five 32-bit items,
    /// `[first, second, 0, 0, 0]`, without propagation and with an empty event
    /// mask.
    SendClientMessage { window: u32, kind: u32, first: u32, second: u32 },
    /// Grab `key` with `modifiers` on `window`, asynchronously.
    GrabKey { window: u32, key: u8, modifiers: u32 },
    UngrabKey { window: u32, key: u8, modifiers: u32 },
    /// Open the font of cursor glyphs as `fid`.
    OpenCursorFont { fid: u32 },
    /// Create cursor `cid` from two glyphs of `font`, black on white.
    CreateGlyphCursor { cid: u32, font: u32, source_char: u16, mask_char: u16 },
    /// Send everything that is buffered.
    Flush,
}

/// `Request` as a mathematical value.
#[allow(inconsistent_fields)]
pub enum RequestView {
    CreateWindow {
        wid: u32,
        parent: u32,
        x: i16,
        y: i16,
        width: u16,
        height: u16,
        border_width: u16,
        back_pixel: u32,
        border_pixel: u32,
        event_mask: u32,
    },
    ReparentWindow { window: u32, parent: u32, x: i16, y: i16 },
    MapWindow { window: u32 },
    UnmapWindow { window: u32 },
    DestroyWindow { window: u32 },
    ConfigureWindow { window: u32, x: i32, y: i32, width: u32, height: u32 },
    SetBorderPixel { window: u32, pixel: u32 },
    SetEventMask { window: u32, event_mask: u32 },
    SetRootAttributes { window: u32, event_mask: u32, cursor: u32 },
    SetInputFocus { focus: u32 },
    ChangeProperty { window: u32, property: u32, kind: u32, data: PropertyDataView },
    SendClientMessage { window: u32, kind: u32, first: u32, second: u32 },
    GrabKey { window: u32, key: u8, modifiers: u32 },
    UngrabKey { window: u32, key: u8, modifiers: u32 },
    OpenCursorFont { fid: u32 },
    CreateGlyphCursor { cid: u32, font: u32, source_char: u16, mask_char: u16 },
    Flush,
}

impl View for Request {
    type V = RequestView;

    open spec fn view(&self) -> RequestView {
        match *self {
            Request::CreateWindow {
                wid,
                parent,
                x,
                y,
                width,
                height,
                border_width,
                back_pixel,
                border_pixel,
                event_mask,
            } => RequestView::CreateWindow {
                wid,
                parent,
                x,
                y,
                width,
                height,
                border_width,
                back_pixel,
                border_pixel,
                event_mask,
            },
            Request::ReparentWindow { window, parent, x, y } => RequestView::ReparentWindow {
                window,
                parent,
                x,
                y,
            },
            Request::MapWindow { window } => RequestView::MapWindow { window },
            Request::UnmapWindow { window } => RequestView::UnmapWindow { window },
            Request::DestroyWindow { window } => RequestView::DestroyWindow { window },
            Request::ConfigureWindow { window, x, y, width, height } => RequestView::ConfigureWindow {
                window,
                x,
                y,
                width,
                height,
            },
            Request::SetBorderPixel { window, pixel } => RequestView::SetBorderPixel { window, pixel },
            Request::SetEventMask { window, event_mask } => RequestView::SetEventMask {
                window,
                event_mask,
            },
            Request::SetRootAttributes { window, event_mask, cursor } => RequestView::SetRootAttributes {
                window,
                event_mask,
                cursor,
            },
            Request::SetInputFocus { focus } => RequestView::SetInputFocus { focus },
            Request::ChangeProperty { window, property, kind, data } => RequestView::ChangeProperty {
                window,
                property,
                kind,
                data: data@,
            },
            Request::SendClientMessage { window, kind, first, second } => RequestView::SendClientMessage {
                window,
                kind,
                first,
                second,
            },
            Request::GrabKey { window, key, modifiers } => RequestView::GrabKey {
                window,
                key,
                modifiers,
            },
            Request::UngrabKey { window, key, modifiers } => RequestView::UngrabKey {
                window,
                key,
                modifiers,
            },
            Request::OpenCursorFont { fid } => RequestView::OpenCursorFont { fid },
            Request::CreateGlyphCursor { cid, font, source_char, mask_char } => RequestView::CreateGlyphCursor {
                cid,
                font,
                source_char,
                mask_char,
            },
            Request::Flush => RequestView::Flush,
        }
    }
}

/// The requests in `v`, each as a mathematical value.
pub open spec fn views_of(v: Seq<Request>) -> Seq<RequestView> {
    Seq::new(v.len(), |i: int| v[i]@)
}

/// The requests that wait to be sent, oldest first.
#[derive(Debug)]
pub struct RequestQueue {
    items: Vec<Request>,
}

impl View for RequestQueue {
    type V = Seq<RequestView>;

    closed spec fn view(&self) -> Seq<RequestView> {
        views_of(self.items@)
    }
}

impl RequestQueue {
    pub fn new() -> (r: Self)
        ensures
            r@ == Seq::<RequestView>::empty(),
    {
        Self { items: Vec::new() }
    }

    /// Appends `request`.
    pub fn push(&mut self, request: Request)
        ensures
            final(self)@ == old(self)@.push(request@),
    {
        self.items.push(request);
    }

    /// The number of requests that wait.
    pub fn len(&self) -> (r: usize)
        ensures
            r == self@.len(),
    {
        self.items.len()
    }

    /// The request at position `i`, the oldest being at 0.
    pub fn get(&self, i: usize) -> (r: Option<&Request>)
        ensures
            i < self@.len() ==> r is Some && r.unwrap()@ == self@[i as int],
            i >= self@.len() ==> r is None,
    {
        if i < self.items.len() {
            Some(&self.items[i])
        } else {
            None
        }
    }

    /// Appends the requests of `more`, in order.
    pub fn append(&mut self, more: Vec<Request>)
        ensures
            final(self)@ == old(self)@ + views_of(more@),
    {
        let mut more = more;
        let ghost added = views_of(more@);
        self.items.append(&mut more);
        assert(self@ =~= old(self)@ + added);
    }

    /// Hands out all requests that wait, oldest first, and leaves none.
    pub fn take(&mut self) -> (r: Vec<Request>)
        ensures
            views_of(r@) == old(self)@,
            final(self)@ == Seq::<RequestView>::empty(),
    {
        let mut out: Vec<Request> = Vec::new();
        std::mem::swap(&mut self.items, &mut out);
        out
    }
}

} // verus!
