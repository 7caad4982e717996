//! A managed window: a third-party window inside a frame of the manager's.

use vstd::prelude::*;

use crate::config::{
    BORDER_COLOR, BORDER_COLOR_ACTIVE, BORDER_SIZE, FRAME_BACKGROUND, WINDOW_BAR_HEIGHT,
};
use crate::layout::Position;
use crate::requests::{
    Request, RequestQueue, RequestView, EVENT_ENTER_WINDOW, EVENT_KEY_PRESS, EVENT_KEY_RELEASE,
    EVENT_PROPERTY_CHANGE, EVENT_SUBSTRUCTURE_NOTIFY,
};

verus! {

/// The events that a frame reports: changes of its child, the pointer
/// entering, changes of properties, and keys.
pub const FRAME_EVENT_MASK: u32 = EVENT_SUBSTRUCTURE_NOTIFY | EVENT_ENTER_WINDOW
    | EVENT_PROPERTY_CHANGE | EVENT_KEY_PRESS | EVENT_KEY_RELEASE;

/// `a - b`, or 0 where `b` is the larger.
pub open spec fn sat_sub(a: int, b: int) -> int {
    if a >= b {
        a - b
    } else {
        0
    }
}

/// `a - b`, or 0 where `b` is the larger.
pub fn saturating_diff(a: u16, b: u16) -> (r: u16)
    ensures
        r == sat_sub(a as int, b as int),
{
    if a >= b {
        a - b
    } else {
        0
    }
}

/// One thing that is done to a client and to the display server for it.
#[derive(Debug, Clone, Copy, PartialEq, Eq, Structural)]
pub enum ClientOp {
    /// Map the frame, then the window.
    Show,
    /// Unmap the window, then the frame.
    Hide,
    /// Give the frame the active border and the window the input focus.
    Focus,
    /// Give the frame its ordinary border back.
    Unfocus,
    /// Destroy the frame; the server destroys the window with it.
    Destroy,
    /// Give the client the rectangle, border and bar included.
    Update(Position),
    /// Send the client's rectangle again.
    Resend,
}

/// The two requests that give a frame and its window the rectangle `p`: the
/// frame's width and height are less by the border on both sides, the window
/// lies under the bar.
pub open spec fn configure_requests(frame: u32, window: u32, p: Position) -> Seq<RequestView> {
    let width = sat_sub(p.width as int, 2 * BORDER_SIZE);
    let height = sat_sub(p.height as int, 2 * BORDER_SIZE);
    seq![
        RequestView::ConfigureWindow {
            window: frame,
            x: p.x as i32,
            y: p.y as i32,
            width: width as u32,
            height: height as u32,
        },
        RequestView::ConfigureWindow {
            window,
            x: 0,
            y: WINDOW_BAR_HEIGHT as i32,
            width: width as u32,
            height: sat_sub(height, WINDOW_BAR_HEIGHT as int) as u32,
        },
    ]
}

/// The two requests that make the frame of `window` and put the window into
/// it, under the bar.
pub open spec fn frame_requests(window: u32, frame: u32, root_window: u32) -> Seq<RequestView> {
    seq![
        RequestView::CreateWindow {
            wid: frame,
            parent: root_window,
            x: 0,
            y: 0,
            width: 1,
            height: 1,
            border_width: BORDER_SIZE,
            back_pixel: FRAME_BACKGROUND,
            border_pixel: BORDER_COLOR,
            event_mask: FRAME_EVENT_MASK,
        },
        RequestView::ReparentWindow {
            window,
            parent: frame,
            x: 0,
            y: WINDOW_BAR_HEIGHT as i16,
        },
    ]
}

/// One managed window.
#[derive(Debug, Clone, PartialEq, Eq)]
pub struct Client {
    /// The third-party window.
    pub window: u32,
    /// The window that the manager made and put `window` into.
    pub frame: u32,
    pub visible: bool,
    pub name: String,
    pub width: u16,
    pub height: u16,
    pub x: u16,
    pub y: u16,
    /// The id of the workspace that holds the client.
    pub workspace: u8,
}

/// Why a window cannot become a client.
#[derive(Debug, Clone, Copy, PartialEq, Eq, Structural)]
pub enum ClientError {
    /// The frame has the id of the window it is to hold.
    FrameIsWindow,
}

impl Client {
    /// The rectangle that the client was last given.
    pub open spec fn geometry(self) -> Position {
        Position { x: self.x, y: self.y, width: self.width, height: self.height }
    }

    /// The client after `op`.
    pub open spec fn after(self, op: ClientOp) -> Client {
        match op {
            ClientOp::Show => Client { visible: true, ..self },
            ClientOp::Hide => Client { visible: false, ..self },
            ClientOp::Update(p) => Client { x: p.x, y: p.y, width: p.width, height: p.height, ..self },
            ClientOp::Focus | ClientOp::Unfocus | ClientOp::Destroy | ClientOp::Resend => self,
        }
    }

    /// The requests that `op` sends for the client.
    pub open spec fn requests_of(self, op: ClientOp) -> Seq<RequestView> {
        match op {
            ClientOp::Show => seq![
                RequestView::MapWindow { window: self.frame },
                RequestView::MapWindow { window: self.window },
            ],
            ClientOp::Hide => seq![
                RequestView::UnmapWindow { window: self.window },
                RequestView::UnmapWindow { window: self.frame },
            ],
            ClientOp::Focus => seq![
                RequestView::SetBorderPixel { window: self.frame, pixel: BORDER_COLOR_ACTIVE },
                RequestView::SetInputFocus { focus: self.window },
            ],
            ClientOp::Unfocus => seq![
                RequestView::SetBorderPixel { window: self.frame, pixel: BORDER_COLOR },
            ],
            ClientOp::Destroy => seq![RequestView::DestroyWindow { window: self.frame }],
            ClientOp::Update(p) => configure_requests(self.frame, self.window, p),
            ClientOp::Resend => configure_requests(self.frame, self.window, self.geometry()),
        }
    }

    /// The requests that make the frame `frame` for `window` under
    /// `root_window`: a 1 by 1 window at the origin with the border and the
    /// event mask of a frame, and the move of `window` into it.
    pub fn frame_requests(window: u32, frame: u32, root_window: u32) -> (r: Vec<Request>)
        ensures
            crate::requests::views_of(r@) == frame_requests(window, frame, root_window),
    {
        let mut out: Vec<Request> = Vec::new();
        out.push(
            Request::CreateWindow {
                wid: frame,
                parent: root_window,
                x: 0,
                y: 0,
                width: 1,
                height: 1,
                border_width: BORDER_SIZE,
                back_pixel: FRAME_BACKGROUND,
                border_pixel: BORDER_COLOR,
                event_mask: FRAME_EVENT_MASK,
            },
        );
        out.push(
            Request::ReparentWindow { window, parent: frame, x: 0, y: WINDOW_BAR_HEIGHT as i16 },
        );
        assert(crate::requests::views_of(out@) =~= frame_requests(window, frame, root_window));
        out
    }

    /// The client of `window` in its frame `frame`: not yet visible, 1 by 1 at
    /// the origin. A frame cannot be the window it holds.
    pub fn new(window: u32, frame: u32, name: String, workspace: u8) -> (r: Result<
        Client,
        ClientError,
    >)
        ensures
            frame == window ==> r == Err::<Client, ClientError>(ClientError::FrameIsWindow),
            frame != window ==> r == Ok::<Client, ClientError>(
                Client {
                    window,
                    frame,
                    visible: false,
                    name,
                    width: 1,
                    height: 1,
                    x: 0,
                    y: 0,
                    workspace,
                },
            ),
    {
        if frame == window {
            return Err(ClientError::FrameIsWindow);
        }
        Ok(Client { window, frame, visible: false, name, width: 1, height: 1, x: 0, y: 0, workspace })
    }

    /// Destroys the frame. The server destroys the window with it.
    pub fn destroy(&mut self, out: &mut RequestQueue)
        ensures
            *final(self) == old(self).after(ClientOp::Destroy),
            final(out)@ == old(out)@ + old(self).requests_of(ClientOp::Destroy),
    {
        out.push(Request::DestroyWindow { window: self.frame });
        assert(final(out)@ =~= old(out)@ + old(self).requests_of(ClientOp::Destroy));
    }

    /// Closes the client and says whether it is gone at once. `delivered`
    /// says that the window takes part in the delete protocol and was sent
    /// the message: then nothing more is done, and the client stays until the
    /// server reports its window destroyed. Otherwise the window and the frame
    /// are destroyed.
    pub fn close(&mut self, delivered: bool, out: &mut RequestQueue) -> (gone: bool)
        ensures
            *final(self) == *old(self),
            gone == !delivered,
            final(out)@ == old(out)@ + close_requests(*old(self), delivered),
    {
        if crate::ewmh::delete_window(self.window, delivered, out) {
            self.destroy(out);
            assert(final(out)@ =~= old(out)@ + close_requests(*old(self), delivered));
            true
        } else {
            assert(final(out)@ =~= old(out)@ + close_requests(*old(self), delivered));
            false
        }
    }

    /// Gives the frame the active border and the window the input focus.
    pub fn focus(&mut self, out: &mut RequestQueue)
        ensures
            *final(self) == old(self).after(ClientOp::Focus),
            final(out)@ == old(out)@ + old(self).requests_of(ClientOp::Focus),
    {
        out.push(Request::SetBorderPixel { window: self.frame, pixel: BORDER_COLOR_ACTIVE });
        out.push(Request::SetInputFocus { focus: self.window });
        assert(final(out)@ =~= old(out)@ + old(self).requests_of(ClientOp::Focus));
    }

    /// Gives the frame its ordinary border back.
    pub fn unfocus(&mut self, out: &mut RequestQueue)
        ensures
            *final(self) == old(self).after(ClientOp::Unfocus),
            final(out)@ == old(out)@ + old(self).requests_of(ClientOp::Unfocus),
    {
        out.push(Request::SetBorderPixel { window: self.frame, pixel: BORDER_COLOR });
        assert(final(out)@ =~= old(out)@ + old(self).requests_of(ClientOp::Unfocus));
    }

    /// Gives the client the rectangle `(x, y, width, height)` and keeps it.
    pub fn update(&mut self, width: u16, height: u16, x: u16, y: u16, out: &mut RequestQueue)
        ensures
            *final(self) == old(self).after(ClientOp::Update(Position { x, y, width, height })),
            final(out)@ == old(out)@ + old(self).requests_of(
                ClientOp::Update(Position { x, y, width, height }),
            ),
    {
        self.width = width;
        self.height = height;
        self.x = x;
        self.y = y;
        let border_double: u16 = BORDER_SIZE * 2;
        let inner_width = saturating_diff(width, border_double);
        let inner_height = saturating_diff(height, border_double);
        out.push(
            Request::ConfigureWindow {
                window: self.frame,
                x: x as i32,
                y: y as i32,
                width: inner_width as u32,
                height: inner_height as u32,
            },
        );
        out.push(
            Request::ConfigureWindow {
                window: self.window,
                x: 0,
                y: WINDOW_BAR_HEIGHT as i32,
                width: inner_width as u32,
                height: saturating_diff(inner_height, WINDOW_BAR_HEIGHT) as u32,
            },
        );
        assert(final(out)@ =~= old(out)@ + old(self).requests_of(
            ClientOp::Update(Position { x, y, width, height }),
        ));
    }

    /// Unmaps the window, then the frame.
    pub fn conceal(&mut self, out: &mut RequestQueue)
        ensures
            *final(self) == old(self).after(ClientOp::Hide),
            final(out)@ == old(out)@ + old(self).requests_of(ClientOp::Hide),
    {
        self.visible = false;
        out.push(Request::UnmapWindow { window: self.window });
        out.push(Request::UnmapWindow { window: self.frame });
        assert(final(out)@ =~= old(out)@ + old(self).requests_of(ClientOp::Hide));
    }

    /// Maps the frame, then the window.
    pub fn show(&mut self, out: &mut RequestQueue)
        ensures
            *final(self) == old(self).after(ClientOp::Show),
            final(out)@ == old(out)@ + old(self).requests_of(ClientOp::Show),
    {
        self.visible = true;
        out.push(Request::MapWindow { window: self.frame });
        out.push(Request::MapWindow { window: self.window });
        assert(final(out)@ =~= old(out)@ + old(self).requests_of(ClientOp::Show));
    }

    /// Does `op`.
    pub fn apply(&mut self, op: ClientOp, out: &mut RequestQueue)
        ensures
            *final(self) == old(self).after(op),
            final(out)@ == old(out)@ + old(self).requests_of(op),
    {
        match op {
            ClientOp::Show => self.show(out),
            ClientOp::Hide => self.conceal(out),
            ClientOp::Focus => self.focus(out),
            ClientOp::Unfocus => self.unfocus(out),
            ClientOp::Destroy => self.destroy(out),
            ClientOp::Update(p) => self.update(p.width, p.height, p.x, p.y, out),
            ClientOp::Resend => {
                let (width, height, x, y) = (self.width, self.height, self.x, self.y);
                self.update(width, height, x, y, out);
            },
        }
    }
}

/// The requests of closing `client`: none where the delete message was
/// delivered, else the destruction of its window and of its frame.
pub open spec fn close_requests(client: Client, delivered: bool) -> Seq<RequestView> {
    if delivered {
        Seq::empty()
    } else {
        seq![
            RequestView::DestroyWindow { window: client.window },
            RequestView::DestroyWindow { window: client.frame },
        ]
    }
}

} // verus!
