//! The screen as a mathematical value: what each operation of the screen
//! makes of it, what holds of it at any time, and what follows from that.

use vstd::prelude::*;

use crate::atoms::Atoms;
use crate::client::{close_requests, Client, ClientOp};
use crate::context::{same_identities, Context, ContextView, Step};
use crate::ewmh::{
    cardinal_property, lemma_wm_desktop_holds, names_bytes, string_property, window_property,
    wm_desktop_requests,
};
use crate::handles::lemma_without;
use crate::layout::{Position, WorkspaceView};
use crate::requests::{RequestView, EVENT_ENTER_WINDOW};
use crate::screen::{ReservedClient, ScreenError, ScreenSide, RESERVED_LIMIT, WORKSPACE_COUNT};
use crate::slab::{first_vacant, live_count, pushed, removed, slot};
use crate::tiling::Layout;

verus! {

/// The windows of the clients of `handles`, in order; a handle without a
/// client adds nothing.
pub open spec fn windows_of(handles: Seq<usize>, clients: Seq<Option<Client>>) -> Seq<u32>
    decreases handles.len(),
{
    if handles.len() == 0 {
        Seq::empty()
    } else {
        windows_of(handles.drop_last(), clients) + match slot(clients, handles.last() as int) {
            Some(client) => seq![client.window],
            None => Seq::empty(),
        }
    }
}

/// The windows of the docked windows, by ascending slot.
pub open spec fn reserved_windows(slots: Seq<Option<ReservedClient>>) -> Seq<u32>
    decreases slots.len(),
{
    if slots.len() == 0 {
        Seq::empty()
    } else {
        reserved_windows(slots.drop_last()) + match slots.last() {
            Some(client) => seq![client.window],
            None => Seq::empty(),
        }
    }
}

/// The steps of tiling every workspace of `workspaces` anew, in order.
pub open spec fn retile_all_script(workspaces: Seq<WorkspaceView>) -> Seq<Step>
    decreases workspaces.len(),
{
    if workspaces.len() == 0 {
        Seq::empty()
    } else {
        retile_all_script(workspaces.drop_last()) + workspaces.last().retile_script()
    }
}

/// The steps of taking the focus away in every workspace of `workspaces`, in
/// order.
pub open spec fn unfocus_all_script(workspaces: Seq<WorkspaceView>) -> Seq<Step>
    decreases workspaces.len(),
{
    if workspaces.len() == 0 {
        Seq::empty()
    } else {
        unfocus_all_script(workspaces.drop_last()) + workspaces.last().unfocus_script()
    }
}

/// The steps of taking window `h` out of every workspace of `workspaces`, in
/// order.
pub open spec fn remove_all_script(workspaces: Seq<WorkspaceView>, h: usize) -> Seq<Step>
    decreases workspaces.len(),
{
    if workspaces.len() == 0 {
        Seq::empty()
    } else {
        remove_all_script(workspaces.drop_last(), h) + workspaces.last().remove_script(h)
    }
}

/// `a - b`, or 0 where `b` is the larger.
pub open spec fn sat_sub32(a: u32, b: u32) -> u32 {
    if a >= b {
        (a - b) as u32
    } else {
        0u32
    }
}

/// The docked window that the twelve strut values `v` of `window` describe on
/// a screen of size `width` by `height`: the strip lies at the first edge, in
/// the order left, bottom, top, right, for which the values ask for one. The
/// values are the depths of the strips at the left, right, top and bottom
/// edge, then where the strip starts and ends along the left, right, top and
/// bottom edge. None where they ask for no strip.
pub open spec fn strut_client(window: u32, v: Seq<u32>, width: u16, height: u16) -> Option<
    ReservedClient,
> {
    if v[0] > 0 {
        Some(
            ReservedClient {
                window,
                position: Position {
                    x: 0,
                    y: clamp16(v[4]),
                    width: clamp16(v[0]),
                    height: clamp16(sat_sub32(v[5], v[4])),
                },
                reserved: clamp16(v[0]),
                direction: ScreenSide::Left,
            },
        )
    } else if v[3] > 0 {
        Some(
            ReservedClient {
                window,
                position: Position {
                    x: clamp16(v[10]),
                    y: sat_sub16(height, clamp16(v[3])),
                    width: clamp16(sat_sub32(v[11], v[10])),
                    height: clamp16(v[3]),
                },
                reserved: clamp16(v[3]),
                direction: ScreenSide::Bottom,
            },
        )
    } else if v[2] > 0 {
        Some(
            ReservedClient {
                window,
                position: Position {
                    x: clamp16(v[8]),
                    y: 0,
                    width: clamp16(sat_sub32(v[9], v[8])),
                    height: clamp16(v[2]),
                },
                reserved: clamp16(v[2]),
                direction: ScreenSide::Top,
            },
        )
    } else if v[1] > 0 {
        Some(
            ReservedClient {
                window,
                position: Position {
                    x: sat_sub16(width, clamp16(v[1])),
                    y: clamp16(v[6]),
                    width: clamp16(v[1]),
                    height: clamp16(sat_sub32(v[7], v[6])),
                },
                reserved: clamp16(v[1]),
                direction: ScreenSide::Right,
            },
        )
    } else {
        None
    }
}

/// The first four of `v` ask for a strip at some edge.
pub open spec fn asks_for_strip(v: Seq<u32>) -> bool {
    v.len() >= 4 && (v[0] > 0 || v[1] > 0 || v[2] > 0 || v[3] > 0)
}

/// The twelve strut values of a window whose partial-strut property holds
/// `partial` and whose strut property holds `strut`: the first twelve of
/// `partial` where there are twelve and they ask for a strip; else the first
/// four of `strut`, followed by zeros, where there are four and they ask for a
/// strip; else none.
pub open spec fn spec_strut_values(partial: Seq<u32>, strut: Seq<u32>) -> Option<Seq<u32>> {
    if partial.len() >= 12 && asks_for_strip(partial) {
        Some(partial.take(12))
    } else if asks_for_strip(strut) {
        Some(strut.take(4) + Seq::new(8, |i: int| 0u32))
    } else {
        None
    }
}

/// The requests that admit a docked window: it is mapped and reports when
/// the pointer enters it.
pub open spec fn admission_requests(window: u32) -> Seq<RequestView> {
    seq![
        RequestView::MapWindow { window },
        RequestView::SetEventMask { window, event_mask: EVENT_ENTER_WINDOW },
    ]
}

/// For each client, by ascending slot, its window and then its frame.
pub open spec fn client_kill_list(slots: Seq<Option<Client>>) -> Seq<u32>
    decreases slots.len(),
{
    if slots.len() == 0 {
        Seq::empty()
    } else {
        client_kill_list(slots.drop_last()) + match slots.last() {
            Some(client) => seq![client.window, client.frame],
            None => Seq::empty(),
        }
    }
}

/// The requests that destroy `windows`, in order.
pub open spec fn destroy_all(windows: Seq<u32>) -> Seq<RequestView> {
    Seq::new(windows.len(), |i: int| RequestView::DestroyWindow { window: windows[i] })
}

/// `a + b`, or `u16::MAX` where that is larger.
pub open spec fn sat_add16(a: u16, b: u16) -> u16 {
    if a + b > 0xffff {
        0xffffu16
    } else {
        (a + b) as u16
    }
}

/// `a - b`, or 0 where `b` is the larger.
pub open spec fn sat_sub16(a: u16, b: u16) -> u16 {
    if a >= b {
        (a - b) as u16
    } else {
        0u16
    }
}

/// `v`, or `u16::MAX` where `v` is larger.
pub open spec fn clamp16(v: u32) -> u16 {
    if v > 0xffff {
        0xffffu16
    } else {
        v as u16
    }
}

/// `Screen` as a mathematical value.
pub struct ScreenView {
    pub width: u16,
    pub height: u16,
    pub reserved_top: u16,
    pub reserved_bottom: u16,
    pub reserved_left: u16,
    pub reserved_right: u16,
    pub workspaces: Seq<WorkspaceView>,
    pub context: ContextView,
    /// The slots of the docked windows.
    pub reserved_clients: Seq<Option<ReservedClient>>,
}

impl ScreenView {
    /// The strips at opposite edges leave room between them, or there are
    /// none at those edges.
    pub open spec fn struts_fit(self) -> bool {
        &&& self.reserved_top + self.reserved_bottom < self.height || (self.reserved_top == 0
            && self.reserved_bottom == 0)
        &&& self.reserved_left + self.reserved_right < self.width || (self.reserved_left == 0
            && self.reserved_right == 0)
    }

    /// There are ten workspaces with the ids 1 to 10, each well-formed.
    pub open spec fn workspaces_ok(self) -> bool {
        &&& self.workspaces.len() == WORKSPACE_COUNT
        &&& forall|i: int|
            0 <= i < self.workspaces.len() ==> (#[trigger] self.workspaces[i]).wf()
                && self.workspaces[i].id == i + 1
    }

    /// The workspace that is shown is the current one, and no other is shown.
    pub open spec fn one_showing(self) -> bool {
        forall|i: int|
            0 <= i < self.workspaces.len() ==> ((#[trigger] self.workspaces[i]).is_showing <==> i
                + 1 == self.context.current_workspace)
    }

    /// Every handle that a workspace holds has a client.
    pub open spec fn handles_live(self) -> bool {
        forall|i: int, h: usize|
            0 <= i < self.workspaces.len() && (#[trigger] self.workspaces[i].contains(h))
                ==> self.context.live(h as int)
    }

    /// What holds of a screen at any time, also before a workspace is
    /// current.
    pub open spec fn inv(self) -> bool {
        &&& self.workspaces_ok()
        &&& self.one_showing()
        &&& self.handles_live()
        &&& self.context.wf()
        &&& self.struts_fit()
        &&& self.context.current_workspace <= WORKSPACE_COUNT
    }

    /// Every workspace has the rectangle that the strips leave.
    pub open spec fn rects_ok(self) -> bool {
        forall|i: int|
            0 <= i < self.workspaces.len() ==> (#[trigger] self.workspaces[i]).pos
                == self.content_rect()
    }

    /// Every client is held by the workspace that it names as its own, and by
    /// no other.
    pub open spec fn clients_placed(self) -> bool {
        &&& forall|h: usize|
            #![trigger self.context.windows[h as int]]
            self.context.live(h as int) ==> 1 <= self.context.client(h as int).workspace
                <= self.workspaces.len() && self.workspaces[self.context.client(
                h as int,
            ).workspace - 1].contains(h)
        &&& forall|i: int, h: usize|
            0 <= i < self.workspaces.len() && (#[trigger] self.workspaces[i].contains(h))
                && self.context.live(h as int) ==> self.context.client(h as int).workspace == i
                + 1
    }

    /// What holds of a screen in use: a workspace is current, every workspace
    /// has the rectangle that the strips leave, and every client is held by
    /// its own workspace.
    pub open spec fn wf(self) -> bool {
        &&& self.inv()
        &&& self.context.current_workspace >= 1
        &&& self.rects_ok()
        &&& self.clients_placed()
    }

    /// The handles of the workspace that is shown; none while no workspace is
    /// current.
    pub open spec fn shown_handles(self) -> Seq<usize> {
        if 1 <= self.context.current_workspace <= self.workspaces.len() {
            self.workspaces[self.context.current_workspace - 1].handles()
        } else {
            Seq::empty()
        }
    }

    /// The windows of the clients, the one that came first being first.
    pub open spec fn client_list(self) -> Seq<u32> {
        windows_of(self.context.order, self.context.windows)
    }

    /// The windows that are on screen: the docked ones, then those of the
    /// workspace that is shown.
    pub open spec fn stacking_list(self) -> Seq<u32> {
        reserved_windows(self.reserved_clients) + windows_of(
            self.shown_handles(),
            self.context.windows,
        )
    }

    /// The requests that tell other programs of the desktops and the clients:
    /// the number of desktops, the current one, their names, the corner of
    /// the desktop, the desktop of each client, the clients, the windows on
    /// screen, and that the desktop is not shown bare.
    pub open spec fn mirror(self) -> Seq<RequestView> {
        let atoms = self.context.atoms;
        let root = self.context.root_window;
        seq![
            cardinal_property(
                root,
                atoms.net_number_of_desktops,
                seq![self.workspaces.len() as u32],
            ),
            cardinal_property(
                root,
                atoms.net_current_desktop,
                seq![self.context.current_workspace as u32],
            ),
            string_property(root, atoms.net_desktop_names, names_bytes(self.workspaces)),
            cardinal_property(
                root,
                atoms.net_desktop_viewport,
                seq![self.reserved_left as u32, self.reserved_top as u32],
            ),
        ] + wm_desktop_requests(self.workspaces, self.context.windows, atoms) + seq![
            window_property(root, atoms.net_client_list, self.client_list()),
            window_property(root, atoms.net_client_list_stacking, self.stacking_list()),
            cardinal_property(root, atoms.net_showing_desktop, seq![0u32]),
        ]
    }

    /// The screen after it told other programs of its state.
    pub open spec fn published(self) -> ScreenView {
        ScreenView { context: self.context.emit(self.mirror()), ..self }
    }

    /// The screen with the strips at opposite edges given up where they leave
    /// no room between them.
    pub open spec fn struts_checked(self) -> ScreenView {
        let vertical = self.reserved_top + self.reserved_bottom >= self.height;
        let horizontal = self.reserved_left + self.reserved_right >= self.width;
        ScreenView {
            reserved_top: if vertical {
                0
            } else {
                self.reserved_top
            },
            reserved_bottom: if vertical {
                0
            } else {
                self.reserved_bottom
            },
            reserved_left: if horizontal {
                0
            } else {
                self.reserved_left
            },
            reserved_right: if horizontal {
                0
            } else {
                self.reserved_right
            },
            ..self
        }
    }

    /// The rectangle that the strips leave to the workspaces.
    pub open spec fn content_rect(self) -> Position {
        Position {
            x: self.reserved_left,
            y: self.reserved_top,
            width: sat_sub16(sat_sub16(self.width, self.reserved_left), self.reserved_right),
            height: sat_sub16(sat_sub16(self.height, self.reserved_top), self.reserved_bottom),
        }
    }

    /// The screen with rectangle `pos` given to every workspace and every
    /// workspace tiled anew.
    pub open spec fn placed(self, pos: Position) -> ScreenView {
        let workspaces = Seq::new(self.workspaces.len(), |i: int| self.workspaces[i].with_pos(pos));
        ScreenView {
            workspaces,
            context: self.context.run(retile_all_script(workspaces)),
            ..self
        }
    }

    /// The screen after its size or a strip changed: strips that leave no
    /// room are given up, the workspaces get what the strips leave, and other
    /// programs are told.
    pub open spec fn settled(self) -> ScreenView {
        let checked = self.struts_checked();
        checked.placed(checked.content_rect()).published()
    }

    /// The screen with size `width` by `height`.
    pub open spec fn resized(self, width: u16, height: u16) -> ScreenView {
        (ScreenView { width, height, ..self }).settled()
    }

    /// The screen with workspace `i` replaced by `workspace` and `script`
    /// run.
    pub open spec fn with_workspace(self, i: int, workspace: WorkspaceView, script: Seq<Step>) -> ScreenView {
        ScreenView {
            workspaces: self.workspaces.update(i, workspace),
            context: self.context.run(script),
            ..self
        }
    }

    /// The screen with workspace `id` current.
    pub open spec fn with_current(self, id: u8) -> ScreenView {
        ScreenView {
            context: ContextView { current_workspace: id, ..self.context },
            ..self
        }
    }

    /// The screen after the change to workspace `id`: other programs are told
    /// first, then the workspace that was shown is hidden and workspace `id`
    /// is shown. The same screen where there is no workspace `id`.
    pub open spec fn switched(self, id: u8) -> ScreenView {
        if 1 <= id <= self.workspaces.len() {
            let before = self.context.current_workspace;
            let told = self.with_current(id).published();
            let concealed = if 1 <= before <= self.workspaces.len() {
                told.with_workspace(
                    before - 1,
                    told.workspaces[before - 1].concealed(),
                    told.workspaces[before - 1].conceal_script(),
                )
            } else {
                told
            };
            concealed.with_workspace(
                id - 1,
                concealed.workspaces[id - 1].shown(),
                concealed.workspaces[id - 1].show_script(),
            )
        } else {
            self
        }
    }

    /// The screen after the layout of the shown workspace became `layout`.
    pub open spec fn with_layout(self, layout: Layout) -> ScreenView {
        let i = self.context.current_workspace - 1;
        let workspace = self.workspaces[i];
        self.with_workspace(
            i,
            workspace.with_layout(layout),
            if workspace.layout == layout {
                Seq::empty()
            } else {
                workspace.with_layout(layout).retile_script()
            },
        ).published()
    }

    /// The screen after the shown workspace went on to its next layout.
    pub open spec fn cycled(self) -> ScreenView {
        let i = self.context.current_workspace - 1;
        let workspace = self.workspaces[i].with_layout(self.workspaces[i].layout.spec_next());
        self.with_workspace(i, workspace, workspace.retile_script()).published()
    }

    /// A screen of size `width` by `height` without windows: ten empty
    /// workspaces that fill it, none of them current.
    pub open spec fn blank(width: u16, height: u16, gap: u16, atoms: Atoms, root_window: u32) -> ScreenView {
        ScreenView {
            width,
            height,
            reserved_top: 0,
            reserved_bottom: 0,
            reserved_left: 0,
            reserved_right: 0,
            workspaces: Seq::new(
                WORKSPACE_COUNT as nat,
                |i: int|
                    WorkspaceView {
                        tiled: Seq::empty(),
                        floating: Seq::empty(),
                        pos: Position { x: 0, y: 0, width, height },
                        gap,
                        layout: Layout::Grid,
                        is_showing: false,
                        name: crate::layout::desktop_name((i + 1) as u32),
                        id: (i + 1) as u32,
                        focused: None,
                    },
            ),
            context: ContextView {
                lookup: Map::empty(),
                windows: Seq::empty(),
                order: Seq::empty(),
                current_workspace: 0,
                atoms,
                root_window,
                requests: Seq::empty(),
                focused_window: None,
            },
            reserved_clients: Seq::empty(),
        }
    }

    /// The screen as it starts: the number of desktops is told, workspace 1
    /// becomes the current one, and the screen is settled and told of once
    /// more.
    pub open spec fn started(width: u16, height: u16, gap: u16, atoms: Atoms, root_window: u32) -> ScreenView {
        let blank = Self::blank(width, height, gap, atoms, root_window);
        (ScreenView {
            context: blank.context.emit(
                seq![
                    cardinal_property(
                        root_window,
                        atoms.net_number_of_desktops,
                        seq![WORKSPACE_COUNT as u32],
                    ),
                ],
            ),
            ..blank
        }).switched(1).settled().published()
    }

    /// The screen after every window was destroyed: the input focus goes to
    /// the root, the window and the frame of every client and every docked
    /// window are destroyed, and nothing is left of them in the model; the
    /// strips are gone, so that every workspace has the whole screen.
    pub open spec fn killed(self) -> ScreenView {
        ScreenView {
            reserved_top: 0,
            reserved_bottom: 0,
            reserved_left: 0,
            reserved_right: 0,
            workspaces: Seq::new(
                self.workspaces.len(),
                |i: int|
                    WorkspaceView {
                        tiled: Seq::empty(),
                        floating: Seq::empty(),
                        focused: None,
                        pos: Position { x: 0, y: 0, width: self.width, height: self.height },
                        ..self.workspaces[i]
                    },
            ),
            context: ContextView {
                lookup: Map::empty(),
                windows: Seq::empty(),
                order: Seq::empty(),
                focused_window: None,
                requests: self.context.requests + seq![
                    RequestView::SetInputFocus { focus: self.context.root_window },
                ] + destroy_all(client_kill_list(self.context.windows)) + destroy_all(
                    reserved_windows(self.reserved_clients),
                ),
                ..self.context
            },
            reserved_clients: Seq::empty(),
            ..self
        }
    }

    /// The screen with the focus taken away everywhere.
    pub open spec fn unfocused(self) -> ScreenView {
        ScreenView {
            workspaces: Seq::new(
                self.workspaces.len(),
                |i: int| WorkspaceView { focused: None, ..self.workspaces[i] },
            ),
            context: ContextView {
                focused_window: None,
                ..self.context.run(unfocus_all_script(self.workspaces))
            },
            ..self
        }
    }

    /// The screen after the pointer entered `window`. The focus is taken away
    /// everywhere. Then the root gets the input focus if `window` is the
    /// root; else the client of `window` gets the focus if the shown workspace
    /// holds it; else `window` gets the input focus if it is docked.
    pub open spec fn entered(self, window: u32) -> ScreenView {
        let base = self.unfocused();
        let i = base.context.current_workspace - 1;
        if window == base.context.root_window {
            ScreenView {
                context: base.context.emit(seq![RequestView::SetInputFocus { focus: window }]),
                ..base
            }
        } else if base.context.lookup.contains_key(window) && base.workspaces[i].contains(
            base.context.lookup[window],
        ) {
            let idx = base.context.lookup[window];
            ScreenView {
                workspaces: base.workspaces.update(i, base.workspaces[i].focused_on(idx)),
                context: ContextView {
                    focused_window: Some(idx),
                    ..base.context.run(base.workspaces[i].focus_script(idx))
                },
                ..base
            }
        } else if reserved_windows(base.reserved_clients).contains(window) {
            ScreenView {
                context: base.context.emit(seq![RequestView::SetInputFocus { focus: window }]),
                ..base
            }
        } else {
            base
        }
    }

    /// The screen takes one more docked window.
    pub open spec fn admits_reserved(self) -> bool {
        live_count(self.reserved_clients) <= RESERVED_LIMIT
    }

    /// The screen with the docked window `client`, told of.
    pub open spec fn reserved_added(self, client: ReservedClient) -> ScreenView {
        (ScreenView { reserved_clients: pushed(self.reserved_clients, client), ..self }).published()
    }

    /// The screen after the window with the strut values `values` was
    /// handled: its strip is reserved; then the window is docked, if the
    /// screen takes one more and the window was mapped, else the strip is
    /// given back. The same screen where the values ask for no strip.
    pub open spec fn reserved_handled(self, window: u32, values: Seq<u32>, mapped: bool) -> ScreenView {
        match strut_client(window, values, self.width, self.height) {
            None => self,
            Some(client) => {
                let held = self.reserved(client.reserved, client.direction);
                if held.admits_reserved() && mapped {
                    held.reserved_added(client)
                } else {
                    held.freed(client.reserved, client.direction)
                }
            },
        }
    }

    /// How handling the window with the strut values `values` ends.
    pub open spec fn reserved_outcome(self, window: u32, values: Seq<u32>, mapped: bool) -> Result<
        (),
        ScreenError,
    > {
        if strut_client(window, values, self.width, self.height) is None {
            Err(ScreenError::InvalidStrut)
        } else if !self.admits_reserved() {
            Err(ScreenError::TooManyReserved)
        } else if !mapped {
            Err(ScreenError::MapFailed)
        } else {
            Ok(())
        }
    }

    /// The client that `window` becomes in the frame `frame`.
    pub open spec fn new_client(self, window: u32, frame: u32, name: String) -> Client {
        Client {
            window,
            frame,
            visible: false,
            name,
            width: 1,
            height: 1,
            x: 0,
            y: 0,
            workspace: self.context.current_workspace,
        }
    }

    /// The screen with `client` taken in: it gets the lowest vacant handle,
    /// joins the shown workspace as its newest window, is mapped, the
    /// workspace is tiled anew, and other programs are told.
    pub open spec fn managed(self, client: Client) -> ScreenView {
        let idx = first_vacant(self.context.windows) as usize;
        let i = self.context.current_workspace - 1;
        let workspace = self.workspaces[i].spawned(idx);
        (ScreenView { context: self.context.with_client(client), ..self }).with_workspace(
            i,
            workspace,
            seq![Step { handle: idx, op: ClientOp::Show }] + workspace.retile_script(),
        ).published()
    }

    /// How adding a window ends: as handling its strut values ends where it
    /// has some; else with an error where its frame could not be made, is the
    /// window itself, or one of the two is known already.
    pub open spec fn add_outcome(
        self,
        window: u32,
        partial: Seq<u32>,
        strut: Seq<u32>,
        mapped: bool,
        frame: Option<u32>,
    ) -> Result<(), ScreenError> {
        match spec_strut_values(partial, strut) {
            Some(values) => self.reserved_outcome(window, values, mapped),
            None => match frame {
                None => Err(ScreenError::FrameFailed),
                Some(frame) => if frame == window {
                    Err(ScreenError::FrameIsWindow)
                } else if self.context.lookup.contains_key(frame)
                    || self.context.lookup.contains_key(window) {
                    Err(ScreenError::AlreadyManaged)
                } else {
                    Ok(())
                },
            },
        }
    }

    /// The screen after a window was added: a window with strut values is
    /// handled as a docked window and, where that went well, other programs
    /// are told once more; any other window becomes a client in its frame.
    /// Where adding ends with an error for a window without strut values, the
    /// screen is the same.
    pub open spec fn window_added(
        self,
        window: u32,
        partial: Seq<u32>,
        strut: Seq<u32>,
        mapped: bool,
        frame: Option<u32>,
        name: String,
    ) -> ScreenView {
        match spec_strut_values(partial, strut) {
            Some(values) => {
                let handled = self.reserved_handled(window, values, mapped);
                if self.reserved_outcome(window, values, mapped) is Ok {
                    handled.published()
                } else {
                    handled
                }
            },
            None => if self.add_outcome(window, partial, strut, mapped, frame) is Ok {
                self.managed(self.new_client(window, frame.unwrap(), name))
            } else {
                self
            },
        }
    }

    /// The screen with `script` run.
    pub open spec fn ran(self, script: Seq<Step>) -> ScreenView {
        ScreenView { context: self.context.run(script), ..self }
    }

    /// The screen with `requests` appended to the queue.
    pub open spec fn told(self, requests: Seq<RequestView>) -> ScreenView {
        ScreenView { context: self.context.emit(requests), ..self }
    }

    /// The screen after the client of handle `idx` left every workspace.
    pub open spec fn detached(self, idx: usize) -> ScreenView {
        ScreenView {
            workspaces: Seq::new(
                self.workspaces.len(),
                |i: int| self.workspaces[i].without_window(idx),
            ),
            context: self.context.run(remove_all_script(self.workspaces, idx)),
            ..self
        }
    }

    /// The screen without the client of handle `idx`.
    pub open spec fn forgotten(self, idx: usize) -> ScreenView {
        ScreenView { context: self.context.without_client(idx), ..self }
    }

    /// The screen after the docked windows in the first `upto` slots that
    /// have the id `window` were taken out: for each, its slot is vacated, its
    /// strip is given back, and it is unmapped and destroyed.
    pub open spec fn undocked(self, window: u32, upto: int) -> ScreenView
        decreases upto,
    {
        if upto <= 0 {
            self
        } else {
            let before = self.undocked(window, upto - 1);
            match slot(before.reserved_clients, upto - 1) {
                Some(client) => if client.window == window {
                    (ScreenView {
                        reserved_clients: removed(before.reserved_clients, upto - 1),
                        ..before
                    }).freed(client.reserved, client.direction).told(
                        seq![
                            RequestView::UnmapWindow { window },
                            RequestView::DestroyWindow { window },
                        ],
                    )
                } else {
                    before
                },
                None => before,
            }
        }
    }

    /// The screen after `window` was removed. Where a client has it as its
    /// frame or window, the client leaves every workspace, its frame is
    /// destroyed and it is forgotten. Every docked window with that id is
    /// taken out. Then other programs are told and the queue is flushed.
    pub open spec fn window_removed(self, window: u32) -> ScreenView {
        let cleared = if self.context.lookup.contains_key(window) {
            let idx = self.context.lookup[window];
            self.detached(idx).ran(seq![Step { handle: idx, op: ClientOp::Destroy }]).forgotten(
                idx,
            )
        } else {
            self
        };
        cleared.undocked(window, cleared.reserved_clients.len() as int).published().told(
            seq![RequestView::Flush],
        )
    }

    /// The screen after the client that holds the focus was closed. The focus
    /// is recorded as held by no client. Where there is such a client and the
    /// delete message was not delivered, its window and its frame are
    /// destroyed, it leaves every workspace and is forgotten, and other
    /// programs are told. Where the delete message was delivered the client
    /// stays, and where the client is gone already nothing more is done.
    pub open spec fn closed(self, delivered: bool) -> ScreenView {
        match self.context.focused_window {
            None => self,
            Some(idx) => {
                let taken = ScreenView {
                    context: ContextView { focused_window: None, ..self.context },
                    ..self
                };
                if !taken.context.live(idx as int) || delivered {
                    taken
                } else {
                    taken.told(close_requests(taken.context.client(idx as int), false)).detached(
                        idx,
                    ).forgotten(idx).published()
                }
            },
        }
    }

    /// The screen with `amount` more reserved at `side`, settled.
    pub open spec fn reserved(self, amount: u16, side: ScreenSide) -> ScreenView {
        (match side {
            ScreenSide::Top => ScreenView {
                reserved_top: sat_add16(self.reserved_top, amount),
                ..self
            },
            ScreenSide::Bottom => ScreenView {
                reserved_bottom: sat_add16(self.reserved_bottom, amount),
                ..self
            },
            ScreenSide::Left => ScreenView {
                reserved_left: sat_add16(self.reserved_left, amount),
                ..self
            },
            ScreenSide::Right => ScreenView {
                reserved_right: sat_add16(self.reserved_right, amount),
                ..self
            },
        }).settled()
    }

    /// The screen with `amount` less reserved at `side`, settled.
    pub open spec fn freed(self, amount: u16, side: ScreenSide) -> ScreenView {
        (match side {
            ScreenSide::Top => ScreenView {
                reserved_top: sat_sub16(self.reserved_top, amount),
                ..self
            },
            ScreenSide::Bottom => ScreenView {
                reserved_bottom: sat_sub16(self.reserved_bottom, amount),
                ..self
            },
            ScreenSide::Left => ScreenView {
                reserved_left: sat_sub16(self.reserved_left, amount),
                ..self
            },
            ScreenSide::Right => ScreenView {
                reserved_right: sat_sub16(self.reserved_right, amount),
                ..self
            },
        }).settled()
    }
}

/// What holds of a screen carries over to a screen with the same clients,
/// by identity, whose workspaces hold no new handle.
pub proof fn lemma_inv_kept(a: ScreenView, b: ScreenView)
    requires
        a.inv(),
        b.struts_fit(),
        b.context.wf(),
        b.context.current_workspace == a.context.current_workspace,
        same_identities(a.context.windows, b.context.windows),
        b.workspaces.len() == a.workspaces.len(),
        forall|i: int|
            0 <= i < b.workspaces.len() ==> (#[trigger] b.workspaces[i]).wf() && b.workspaces[i].id
                == a.workspaces[i].id && b.workspaces[i].is_showing == a.workspaces[i].is_showing,
        forall|i: int, h: usize|
            0 <= i < b.workspaces.len() && (#[trigger] b.workspaces[i].contains(h))
                ==> a.workspaces[i].contains(h),
    ensures
        b.inv(),
{
    assert(b.workspaces_ok()) by {
        assert forall|i: int| 0 <= i < b.workspaces.len() implies (#[trigger] b.workspaces[i]).wf()
            && b.workspaces[i].id == i + 1 by {
            assert(a.workspaces[i].wf());
        }
    }
    assert(b.one_showing()) by {
        assert forall|i: int| 0 <= i < b.workspaces.len() implies ((#[trigger] b.workspaces[i]).is_showing
            <==> i + 1 == b.context.current_workspace) by {
            assert(a.workspaces[i].is_showing <==> i + 1 == a.context.current_workspace);
        }
    }
    assert(b.handles_live()) by {
        assert forall|i: int, h: usize|
            0 <= i < b.workspaces.len() && (#[trigger] b.workspaces[i].contains(
                h,
            )) implies b.context.live(h as int) by {
            assert(a.workspaces[i].contains(h));
            assert(a.context.live(h as int));
            assert(a.context.windows[h as int] is Some);
        }
    }
}

/// What holds of a screen carries over to a screen with the same clients,
/// by identity, whose workspaces hold no new handle and of which one at most
/// is shown, the current one.
pub proof fn lemma_inv_moved(a: ScreenView, b: ScreenView)
    requires
        a.inv(),
        b.struts_fit(),
        b.context.wf(),
        b.one_showing(),
        b.context.current_workspace <= WORKSPACE_COUNT,
        same_identities(a.context.windows, b.context.windows),
        b.workspaces.len() == a.workspaces.len(),
        forall|i: int|
            0 <= i < b.workspaces.len() ==> (#[trigger] b.workspaces[i]).wf() && b.workspaces[i].id
                == a.workspaces[i].id,
        forall|i: int, h: usize|
            0 <= i < b.workspaces.len() && (#[trigger] b.workspaces[i].contains(h))
                ==> a.workspaces[i].contains(h),
    ensures
        b.inv(),
{
    assert(b.workspaces_ok()) by {
        assert forall|i: int| 0 <= i < b.workspaces.len() implies (#[trigger] b.workspaces[i]).wf()
            && b.workspaces[i].id == i + 1 by {
            assert(a.workspaces[i].wf());
        }
    }
    assert(b.handles_live()) by {
        assert forall|i: int, h: usize|
            0 <= i < b.workspaces.len() && (#[trigger] b.workspaces[i].contains(
                h,
            )) implies b.context.live(h as int) by {
            assert(a.workspaces[i].contains(h));
            assert(a.context.live(h as int));
            assert(a.context.windows[h as int] is Some);
        }
    }
}

/// Two states with clients of the same identities in the same slots have
/// clients of the same identities as a third that one of them shares that
/// with.
pub proof fn lemma_identities_chain(
    a: Seq<Option<Client>>,
    b: Seq<Option<Client>>,
    c: Seq<Option<Client>>,
)
    requires
        same_identities(a, b),
        same_identities(b, c),
    ensures
        same_identities(a, c),
{
    assert forall|h: int| 0 <= h < a.len() implies ((#[trigger] a[h]) is Some <==> c[h] is Some) && (
    a[h] is Some ==> crate::context::same_identity(a[h].unwrap(), c[h].unwrap())) by {
        assert(a[h] is Some <==> b[h] is Some);
        assert(b[h] is Some <==> c[h] is Some);
    }
}

/// Every client stays with its workspace where the clients keep their
/// identities and the workspaces their windows.
pub proof fn lemma_members_kept(a: ScreenView, b: ScreenView)
    requires
        a.clients_placed(),
        same_identities(a.context.windows, b.context.windows),
        b.workspaces.len() == a.workspaces.len(),
        forall|i: int, h: usize|
            0 <= i < a.workspaces.len() ==> (#[trigger] b.workspaces[i].contains(h)
                <==> a.workspaces[i].contains(h)),
    ensures
        b.clients_placed(),
{
    assert forall|h: usize| #![trigger b.context.windows[h as int]] b.context.live(h as int) implies 1
        <= b.context.client(h as int).workspace <= b.workspaces.len()
        && b.workspaces[b.context.client(h as int).workspace - 1].contains(h) by {
        assert(a.context.windows[h as int] is Some);
        assert(a.context.live(h as int));
        let i = a.context.client(h as int).workspace - 1;
        assert(a.workspaces[i].contains(h));
        assert(b.workspaces[i].contains(h));
    }
    assert forall|i: int, h: usize|
        0 <= i < b.workspaces.len() && (#[trigger] b.workspaces[i].contains(h))
            && b.context.live(h as int) implies b.context.client(h as int).workspace == i + 1 by {
        assert(a.workspaces[i].contains(h));
        assert(a.context.windows[h as int] is Some);
        assert(a.context.live(h as int));
    }
}

/// Every client stays with its workspace where one client goes, from the
/// clients and from every workspace, and the others keep their identities
/// and the workspaces their other windows.
pub proof fn lemma_members_without(a: ScreenView, b: ScreenView, idx: usize)
    requires
        a.clients_placed(),
        b.workspaces.len() == a.workspaces.len(),
        b.context.windows.len() == a.context.windows.len(),
        !b.context.live(idx as int),
        forall|h: usize|
            #![trigger b.context.windows[h as int]]
            h != idx ==> (b.context.live(h as int) <==> a.context.live(h as int)) && (
            a.context.live(h as int) ==> b.context.client(h as int).workspace == a.context.client(
                h as int,
            ).workspace),
        forall|i: int, h: usize|
            0 <= i < a.workspaces.len() ==> (#[trigger] b.workspaces[i].contains(h) <==> (
            a.workspaces[i].contains(h) && h != idx)),
    ensures
        b.clients_placed(),
{
    assert forall|h: usize| #![trigger b.context.windows[h as int]] b.context.live(h as int) implies 1
        <= b.context.client(h as int).workspace <= b.workspaces.len()
        && b.workspaces[b.context.client(h as int).workspace - 1].contains(h) by {
        assert(h != idx);
        assert(a.context.live(h as int));
        assert(a.context.windows[h as int] is Some);
        let i = a.context.client(h as int).workspace - 1;
        assert(a.workspaces[i].contains(h));
        assert(b.workspaces[i].contains(h));
    }
    assert forall|i: int, h: usize|
        0 <= i < b.workspaces.len() && (#[trigger] b.workspaces[i].contains(h))
            && b.context.live(h as int) implies b.context.client(h as int).workspace == i + 1 by {
        assert(a.workspaces[i].contains(h) && h != idx);
        assert(b.context.windows[h as int] is Some);
        assert(a.context.live(h as int));
    }
}

/// The change to a workspace keeps what holds of the screen, and makes that
/// workspace the current one.
pub proof fn lemma_switched_inv(s: ScreenView, id: u8)
    requires
        s.inv(),
        1 <= id <= WORKSPACE_COUNT,
    ensures
        s.switched(id).inv(),
        s.switched(id).context.current_workspace == id,
        s.rects_ok() && s.clients_placed() ==> s.switched(id).wf(),
{
    let before = s.context.current_workspace;
    let told = s.with_current(id).published();
    let concealed = if 1 <= before <= s.workspaces.len() {
        told.with_workspace(
            before - 1,
            told.workspaces[before - 1].concealed(),
            told.workspaces[before - 1].conceal_script(),
        )
    } else {
        told
    };
    let f = s.switched(id);
    assert(told.context.wf());
    if 1 <= before <= s.workspaces.len() {
        told.context.lemma_run_keeps_wf(told.workspaces[before - 1].conceal_script());
        crate::context::lemma_run_keeps_identities(
            told.context.windows,
            told.workspaces[before - 1].conceal_script(),
        );
    }
    concealed.context.lemma_run_keeps_wf(concealed.workspaces[id - 1].show_script());
    crate::context::lemma_run_keeps_identities(
        concealed.context.windows,
        concealed.workspaces[id - 1].show_script(),
    );
    assert forall|i: int| 0 <= i < f.workspaces.len() implies (#[trigger] f.workspaces[i]).wf()
        && f.workspaces[i].id == s.workspaces[i].id && (f.workspaces[i].is_showing <==> i + 1
        == id) && f.workspaces[i].pos == s.workspaces[i].pos && (forall|h: usize|
        f.workspaces[i].contains(h) <==> s.workspaces[i].contains(h)) by {
        assert(s.workspaces[i].wf());
        assert(s.workspaces[i].is_showing <==> i + 1 == before);
        s.workspaces[i].lemma_wf_kept(0);
        s.workspaces[i].concealed().lemma_wf_kept(0);
    }
    lemma_identities_chain(s.context.windows, concealed.context.windows, f.context.windows);
    lemma_inv_moved(s, f);
    if s.clients_placed() {
        lemma_members_kept(s, f);
    }
}

/// Telling other programs changes nothing but the queue.
pub proof fn lemma_published_inv(s: ScreenView)
    requires
        s.inv(),
    ensures
        s.published().inv(),
        s.published().workspaces == s.workspaces,
        s.published().context.windows == s.context.windows,
{
    let b = s.published();
    assert(b.context.wf());
    lemma_inv_kept(s, b);
}

/// Running a script in one workspace and replacing that workspace by one
/// with the same id, shown as before, that holds no new handle, keeps what
/// holds of the screen.
pub proof fn lemma_with_workspace_inv(s: ScreenView, i: int, workspace: WorkspaceView, script: Seq<Step>)
    requires
        s.inv(),
        0 <= i < s.workspaces.len(),
        workspace.wf(),
        workspace.id == s.workspaces[i].id,
        workspace.is_showing == s.workspaces[i].is_showing,
        forall|h: usize| #[trigger] workspace.contains(h) ==> s.workspaces[i].contains(h),
    ensures
        s.with_workspace(i, workspace, script).inv(),
{
    let b = s.with_workspace(i, workspace, script);
    s.context.lemma_run_keeps_wf(script);
    crate::context::lemma_run_keeps_identities(s.context.windows, script);
    assert forall|k: int| 0 <= k < b.workspaces.len() implies (#[trigger] b.workspaces[k]).wf()
        && b.workspaces[k].id == s.workspaces[k].id && b.workspaces[k].is_showing
        == s.workspaces[k].is_showing by {
        assert(s.workspaces[k].wf());
    }
    lemma_inv_kept(s, b);
}

/// Giving every workspace a rectangle and tiling anew keeps what holds of the
/// screen.
pub proof fn lemma_placed_inv(s: ScreenView, pos: Position)
    requires
        s.inv(),
    ensures
        s.placed(pos).inv(),
{
    let b = s.placed(pos);
    s.context.lemma_run_keeps_wf(retile_all_script(b.workspaces));
    crate::context::lemma_run_keeps_identities(
        s.context.windows,
        retile_all_script(b.workspaces),
    );
    assert forall|k: int| 0 <= k < b.workspaces.len() implies (#[trigger] b.workspaces[k]).wf()
        && b.workspaces[k].id == s.workspaces[k].id && b.workspaces[k].is_showing
        == s.workspaces[k].is_showing by {
        assert(s.workspaces[k].wf());
    }
    lemma_inv_kept(s, b);
}

/// Settling keeps what holds of the screen, whatever the strips were before.
pub proof fn lemma_settled_inv(s: ScreenView)
    requires
        (ScreenView { reserved_top: 0, reserved_bottom: 0, reserved_left: 0, reserved_right: 0, ..s }).inv(),
    ensures
        s.settled().inv(),
        s.settled().context.current_workspace == s.context.current_workspace,
        s.settled().rects_ok(),
        s.clients_placed() ==> s.settled().clients_placed(),
{
    let zero = ScreenView {
        reserved_top: 0,
        reserved_bottom: 0,
        reserved_left: 0,
        reserved_right: 0,
        ..s
    };
    let checked = s.struts_checked();
    assert(checked.struts_fit());
    lemma_inv_kept(zero, checked);
    lemma_placed_inv(checked, checked.content_rect());
    lemma_published_inv(checked.placed(checked.content_rect()));
    let placed = checked.placed(checked.content_rect());
    crate::context::lemma_run_keeps_identities(
        checked.context.windows,
        retile_all_script(placed.workspaces),
    );
    if s.clients_placed() {
        lemma_members_kept(s, s.settled());
    }
}

/// Running a script keeps what holds of the screen.
pub proof fn lemma_ran_inv(s: ScreenView, script: Seq<Step>)
    requires
        s.inv(),
    ensures
        s.ran(script).inv(),
{
    s.context.lemma_run_keeps_wf(script);
    crate::context::lemma_run_keeps_identities(s.context.windows, script);
    assert forall|k: int| 0 <= k < s.workspaces.len() implies (#[trigger] s.workspaces[k]).wf()
        && s.workspaces[k].id == s.workspaces[k].id by {}
    lemma_inv_kept(s, s.ran(script));
}

/// Taking a client out of every workspace keeps what holds of the screen, and
/// leaves no workspace that holds the client.
pub proof fn lemma_detached_inv(s: ScreenView, idx: usize)
    requires
        s.inv(),
    ensures
        s.detached(idx).inv(),
        s.detached(idx).context.current_workspace == s.context.current_workspace,
        forall|i: int|
            0 <= i < s.workspaces.len() ==> !(#[trigger] s.detached(idx).workspaces[i]).contains(idx),
        s.detached(idx).context.live(idx as int) == s.context.live(idx as int),
        s.context.live(idx as int) ==> crate::context::same_identity(
            s.detached(idx).context.client(idx as int),
            s.context.client(idx as int),
        ),
{
    let b = s.detached(idx);
    let script = remove_all_script(s.workspaces, idx);
    s.context.lemma_run_keeps_wf(script);
    crate::context::lemma_run_keeps_identities(s.context.windows, script);
    assert forall|k: int| 0 <= k < b.workspaces.len() implies (#[trigger] b.workspaces[k]).wf()
        && b.workspaces[k].id == s.workspaces[k].id && b.workspaces[k].is_showing
        == s.workspaces[k].is_showing && !b.workspaces[k].contains(idx) by {
        assert(s.workspaces[k].wf());
        s.workspaces[k].lemma_wf_kept(idx);
        lemma_without(s.workspaces[k].tiled, idx);
        lemma_without(s.workspaces[k].floating, idx);
    }
    assert forall|i: int, h: usize|
        0 <= i < b.workspaces.len() && (#[trigger] b.workspaces[i].contains(
            h,
        )) implies s.workspaces[i].contains(h) by {
        lemma_without(s.workspaces[i].tiled, idx);
        lemma_without(s.workspaces[i].floating, idx);
        assert(!b.workspaces[i].contains(idx));
    }
    lemma_inv_kept(s, b);
    if s.context.live(idx as int) {
        assert(s.context.windows[idx as int] is Some);
    }
}

/// Forgetting a client that no workspace holds keeps what holds of the
/// screen.
pub proof fn lemma_forgotten_inv(s: ScreenView, idx: usize)
    requires
        s.inv(),
        forall|i: int| 0 <= i < s.workspaces.len() ==> !(#[trigger] s.workspaces[i]).contains(idx),
    ensures
        s.forgotten(idx).inv(),
        s.forgotten(idx).context.current_workspace == s.context.current_workspace,
{
    let b = s.forgotten(idx);
    if s.context.live(idx as int) {
        s.context.lemma_without_client(idx);
        assert(b.handles_live()) by {
            assert forall|i: int, h: usize|
                0 <= i < b.workspaces.len() && (#[trigger] b.workspaces[i].contains(
                    h,
                )) implies b.context.live(h as int) by {
                assert(s.workspaces[i].contains(h));
                assert(!s.workspaces[i].contains(idx));
                assert(s.context.live(h as int));
            }
        }
        assert(b.workspaces_ok());
        assert(b.one_showing());
    }
}

/// Taking a client out of every workspace and forgetting it, whatever was
/// told and run meanwhile, keeps the screen in order.
pub proof fn lemma_dropped_wf(s: ScreenView, told: Seq<RequestView>, script: Seq<Step>, idx: usize)
    requires
        s.wf(),
    ensures
        s.told(told).detached(idx).ran(script).forgotten(idx).wf(),
        s.told(told).detached(idx).ran(script).forgotten(idx).published().wf(),
{
    let t = s.told(told);
    lemma_inv_kept(s, t);
    let d = t.detached(idx);
    lemma_detached_inv(t, idx);
    crate::context::lemma_run_keeps_identities(
        t.context.windows,
        remove_all_script(t.workspaces, idx),
    );
    let r = d.ran(script);
    lemma_ran_inv(d, script);
    crate::context::lemma_run_keeps_identities(d.context.windows, script);
    lemma_identities_chain(s.context.windows, d.context.windows, r.context.windows);
    let f = r.forgotten(idx);
    lemma_forgotten_inv(r, idx);
    assert forall|i: int| 0 <= i < f.workspaces.len() implies (#[trigger] f.workspaces[i]).pos
        == f.content_rect() && (forall|h: usize|
        f.workspaces[i].contains(h) <==> (s.workspaces[i].contains(h) && h != idx)) by {
        assert(s.workspaces[i].pos == s.content_rect());
        lemma_without(s.workspaces[i].tiled, idx);
        lemma_without(s.workspaces[i].floating, idx);
    }
    if r.context.live(idx as int) {
        r.context.lemma_without_client(idx);
        assert forall|h: usize|
            #![trigger f.context.windows[h as int]]
            h != idx implies (f.context.live(h as int) <==> s.context.live(h as int)) && (
        s.context.live(h as int) ==> f.context.client(h as int).workspace == s.context.client(
            h as int,
        ).workspace) by {
            if 0 <= h < s.context.windows.len() {
                assert(s.context.windows[h as int] is Some <==> r.context.windows[h as int] is Some);
            }
        }
        lemma_members_without(s, f, idx);
    } else {
        assert(!s.context.live(idx as int)) by {
            if s.context.live(idx as int) {
                assert(s.context.windows[idx as int] is Some);
            }
        }
        assert forall|i: int, h: usize|
            0 <= i < s.workspaces.len() implies (#[trigger] f.workspaces[i].contains(h)
            <==> s.workspaces[i].contains(h)) by {
            if s.workspaces[i].contains(h) && h == idx {
                assert(s.context.live(idx as int));
            }
        }
        lemma_members_kept(s, f);
    }
    lemma_published_inv(f);
    lemma_members_kept(f, f.published());
}

/// Taking a client in keeps the screen in order.
pub proof fn lemma_managed_inv(s: ScreenView, client: Client)
    requires
        s.wf(),
        Context::admits(s.context, client),
        client.workspace == s.context.current_workspace,
        first_vacant(s.context.windows) <= usize::MAX,
    ensures
        s.managed(client).wf(),
{
    let idx = first_vacant(s.context.windows) as usize;
    let i = s.context.current_workspace - 1;
    let workspace = s.workspaces[i].spawned(idx);
    let taken = ScreenView {
        context: s.context.with_client(client),
        workspaces: s.workspaces.update(i, workspace),
        ..s
    };
    s.context.lemma_with_client(client);
    assert(s.workspaces[i].wf());
    s.workspaces[i].lemma_wf_kept(idx);
    assert(taken.inv()) by {
        assert forall|k: int| 0 <= k < taken.workspaces.len() implies (#[trigger] taken.workspaces[k]).wf()
            && taken.workspaces[k].id == k + 1 by {
            assert(s.workspaces[k].wf());
        }
        assert forall|k: int| 0 <= k < taken.workspaces.len() implies ((#[trigger] taken.workspaces[k]).is_showing
            <==> k + 1 == taken.context.current_workspace) by {
            assert(s.workspaces[k].is_showing <==> k + 1 == s.context.current_workspace);
        }
        assert forall|k: int, h: usize|
            0 <= k < taken.workspaces.len() && (#[trigger] taken.workspaces[k].contains(
                h,
            )) implies taken.context.live(h as int) by {
            if k == i && !s.workspaces[i].contains(h) {
                if !s.workspaces[i].contains(idx) {
                    crate::handles::lemma_push_fresh(s.workspaces[i].tiled, idx);
                }
                assert(h == idx);
            } else {
                assert(s.workspaces[k].contains(h));
                assert(s.context.live(h as int));
            }
        }
    }
    assert(taken.clients_placed()) by {
        if !s.workspaces[i].contains(idx) {
            crate::handles::lemma_push_fresh(s.workspaces[i].tiled, idx);
        }
        assert forall|h: usize| #![trigger taken.context.windows[h as int]] taken.context.live(
            h as int,
        ) implies 1 <= taken.context.client(h as int).workspace <= taken.workspaces.len()
            && taken.workspaces[taken.context.client(h as int).workspace - 1].contains(h) by {
            if h == idx {
                assert(taken.workspaces[i].contains(idx));
            } else {
                assert(s.context.live(h as int));
                assert(s.context.windows[h as int] is Some);
                let k = s.context.client(h as int).workspace - 1;
                assert(s.workspaces[k].contains(h));
                assert(taken.workspaces[k].contains(h));
            }
        }
        assert forall|k: int, h: usize|
            0 <= k < taken.workspaces.len() && (#[trigger] taken.workspaces[k].contains(h))
                && taken.context.live(h as int) implies taken.context.client(h as int).workspace
            == k + 1 by {
            if h == idx {
                if k != i {
                    assert(s.workspaces[k].contains(idx));
                    assert(s.context.live(idx as int));
                }
            } else {
                assert(s.workspaces[k].contains(h));
                assert(s.context.live(h as int));
                assert(s.context.windows[h as int] is Some);
            }
        }
    }
    let script = seq![Step { handle: idx, op: ClientOp::Show }] + workspace.retile_script();
    let moved = taken.ran(script);
    lemma_ran_inv(taken, script);
    crate::context::lemma_run_keeps_identities(taken.context.windows, script);
    assert(moved.workspaces =~= taken.workspaces);
    lemma_published_inv(moved);
    lemma_members_kept(taken, moved.published());
    assert(s.managed(client) == moved.published());
}

/// Where every handle has a client, there is one window for each handle.
pub proof fn lemma_windows_of_len(handles: Seq<usize>, clients: Seq<Option<Client>>)
    requires
        forall|i: int| 0 <= i < handles.len() ==> slot(clients, (#[trigger] handles[i]) as int) is Some,
    ensures
        windows_of(handles, clients).len() == handles.len(),
    decreases handles.len(),
{
    if handles.len() > 0 {
        let front = handles.drop_last();
        assert forall|i: int| 0 <= i < front.len() implies slot(
            clients,
            (#[trigger] front[i]) as int,
        ) is Some by {
            assert(front[i] == handles[i]);
        }
        lemma_windows_of_len(front, clients);
        assert(slot(clients, handles[handles.len() - 1] as int) is Some);
    }
}

/// There is one window for each docked window.
pub proof fn lemma_reserved_windows_len(slots: Seq<Option<ReservedClient>>)
    ensures
        reserved_windows(slots).len() == live_count(slots),
    decreases slots.len(),
{
    if slots.len() > 0 {
        lemma_reserved_windows_len(slots.drop_last());
    }
}

/// At most one workspace is shown at any time: two workspaces that are shown
/// are one, the current one.
pub proof fn law_workspace_exclusivity(s: ScreenView, i: int, j: int)
    requires
        s.inv(),
        0 <= i < s.workspaces.len(),
        0 <= j < s.workspaces.len(),
        s.workspaces[i].is_showing,
        s.workspaces[j].is_showing,
    ensures
        i == j,
        i + 1 == s.context.current_workspace,
{
}

/// The list of windows on screen that other programs are told holds one
/// window for each docked window and one for each client of the workspace
/// that is shown.
pub proof fn law_stacking_list(s: ScreenView)
    requires
        s.wf(),
    ensures
        s.stacking_list().len() == live_count(s.reserved_clients) + s.workspaces[s.context.current_workspace
            - 1].tiled.len() + s.workspaces[s.context.current_workspace - 1].floating.len(),
        s.mirror()[s.mirror().len() - 2] == window_property(
            s.context.root_window,
            s.context.atoms.net_client_list_stacking,
            s.stacking_list(),
        ),
{
    let i = s.context.current_workspace - 1;
    let handles = s.workspaces[i].handles();
    assert forall|k: int| 0 <= k < handles.len() implies slot(
        s.context.windows,
        (#[trigger] handles[k]) as int,
    ) is Some by {
        let h = handles[k];
        if k < s.workspaces[i].tiled.len() {
            assert(s.workspaces[i].tiled[k] == h);
            assert(s.workspaces[i].tiled.contains(h));
        } else {
            assert(s.workspaces[i].floating[k - s.workspaces[i].tiled.len()] == h);
            assert(s.workspaces[i].floating.contains(h));
        }
        assert(s.workspaces[i].contains(h));
        assert(s.context.live(h as int));
    }
    lemma_windows_of_len(handles, s.context.windows);
    lemma_reserved_windows_len(s.reserved_clients);
}

/// The windows of a list of handles are the windows of the handles of the
/// list that have clients.
pub proof fn lemma_windows_of_members(handles: Seq<usize>, clients: Seq<Option<Client>>)
    ensures
        forall|k: int|
            0 <= k < handles.len() && slot(clients, (#[trigger] handles[k]) as int) is Some
                ==> windows_of(handles, clients).contains(
                clients[handles[k] as int].unwrap().window,
            ),
        forall|w: u32|
            #[trigger] windows_of(handles, clients).contains(w) ==> exists|k: int|
                0 <= k < handles.len() && slot(clients, (#[trigger] handles[k]) as int) is Some
                    && clients[handles[k] as int].unwrap().window == w,
    decreases handles.len(),
{
    let all = windows_of(handles, clients);
    if handles.len() > 0 {
        let front = handles.drop_last();
        let before = windows_of(front, clients);
        lemma_windows_of_members(front, clients);
        let last = handles.last();
        assert forall|k: int|
            0 <= k < handles.len() && slot(clients, (#[trigger] handles[k]) as int) is Some implies all.contains(
            clients[handles[k] as int].unwrap().window,
        ) by {
            let w = clients[handles[k] as int].unwrap().window;
            if k < front.len() {
                assert(front[k] == handles[k]);
                assert(before.contains(w));
                let at = choose|at: int| 0 <= at < before.len() && before[at] == w;
                assert(all[at] == w);
            } else {
                assert(all[before.len() as int] == w);
            }
        }
        assert forall|w: u32| #[trigger] all.contains(w) implies exists|k: int|
            0 <= k < handles.len() && slot(clients, (#[trigger] handles[k]) as int) is Some
                && clients[handles[k] as int].unwrap().window == w by {
            let at = choose|at: int| 0 <= at < all.len() && all[at] == w;
            if at < before.len() {
                assert(before[at] == w);
                assert(before.contains(w));
                let k = choose|k: int|
                    0 <= k < front.len() && slot(clients, (#[trigger] front[k]) as int) is Some
                        && clients[front[k] as int].unwrap().window == w;
                assert(handles[k] == front[k]);
            } else {
                assert(slot(clients, last as int) is Some);
                assert(handles[handles.len() - 1] == last);
            }
        }
    }
}

/// The list of clients that other programs are told holds the window of
/// every client, and one window for each client.
pub proof fn law_client_list(s: ScreenView, h: usize)
    requires
        s.inv(),
        s.context.live(h as int),
    ensures
        s.client_list().len() == s.context.order.len(),
        s.client_list().contains(s.context.client(h as int).window),
        s.mirror()[s.mirror().len() - 3] == window_property(
            s.context.root_window,
            s.context.atoms.net_client_list,
            s.client_list(),
        ),
{
    assert(s.context.windows[h as int] is Some);
    lemma_windows_of_len(s.context.order, s.context.windows);
    lemma_windows_of_members(s.context.order, s.context.windows);
    assert(s.context.order.contains(h));
    let k = choose|k: int| 0 <= k < s.context.order.len() && s.context.order[k] == h;
    assert(slot(s.context.windows, s.context.order[k] as int) is Some);
}

/// Every window in the list of clients that other programs are told is the
/// window of a client, found under its id.
pub proof fn law_client_list_members(s: ScreenView, w: u32)
    requires
        s.inv(),
        s.client_list().contains(w),
    ensures
        s.context.lookup.contains_key(w),
        s.context.live(s.context.lookup[w] as int),
        s.context.client(s.context.lookup[w] as int).window == w,
{
    lemma_windows_of_members(s.context.order, s.context.windows);
    let k = choose|k: int|
        0 <= k < s.context.order.len() && slot(
            s.context.windows,
            (#[trigger] s.context.order[k]) as int,
        ) is Some && s.context.windows[s.context.order[k] as int].unwrap().window == w;
    let h = s.context.order[k] as int;
    assert(s.context.windows[h] is Some);
    assert(s.context.live(h));
}

/// Every client is held by exactly one workspace, the one that it names as
/// its own.
pub proof fn law_owning_workspace(s: ScreenView, h: usize, i: int)
    requires
        s.wf(),
        s.context.live(h as int),
        0 <= i < s.workspaces.len(),
    ensures
        1 <= s.context.client(h as int).workspace <= s.workspaces.len(),
        s.workspaces[i].contains(h) <==> i + 1 == s.context.client(h as int).workspace,
        s.workspaces[i].id == i + 1,
{
    assert(s.context.windows[h as int] is Some);
    assert(s.workspaces[i].wf());
}

/// What other programs are told holds, for every client, the id of its own
/// workspace as the desktop of its window.
pub proof fn law_desktop_of_client(s: ScreenView, h: usize)
    requires
        s.wf(),
        s.context.live(h as int),
    ensures
        s.mirror().contains(
            cardinal_property(
                s.context.client(h as int).window,
                s.context.atoms.net_wm_desktop,
                seq![s.context.client(h as int).workspace as u32],
            ),
        ),
{
    assert(s.context.windows[h as int] is Some);
    let i = s.context.client(h as int).workspace - 1;
    let workspace = s.workspaces[i];
    assert(workspace.contains(h));
    assert(workspace.wf());
    let handles = workspace.handles();
    let k = if workspace.tiled.contains(h) {
        choose|k: int| 0 <= k < workspace.tiled.len() && workspace.tiled[k] == h
    } else {
        workspace.tiled.len() + choose|k: int|
            0 <= k < workspace.floating.len() && workspace.floating[k] == h
    };
    assert(handles[k] == h);
    lemma_wm_desktop_holds(s.workspaces, s.context.windows, s.context.atoms, i, k);
    let tags = wm_desktop_requests(s.workspaces, s.context.windows, s.context.atoms);
    let tag = cardinal_property(
        s.context.client(h as int).window,
        s.context.atoms.net_wm_desktop,
        seq![s.context.client(h as int).workspace as u32],
    );
    let at = choose|at: int| 0 <= at < tags.len() && tags[at] == tag;
    assert(s.mirror()[4 + at] == tag);
}

/// The rectangle of every workspace is what the strips leave of the screen,
/// and lies on the screen.
pub proof fn law_workspace_rect(s: ScreenView, i: int)
    requires
        s.wf(),
        0 <= i < s.workspaces.len(),
    ensures
        s.workspaces[i].pos == s.content_rect(),
        s.workspaces[i].pos.x == s.reserved_left,
        s.workspaces[i].pos.y == s.reserved_top,
        s.workspaces[i].pos.right() == s.width - s.reserved_right,
        s.workspaces[i].pos.bottom() == s.height - s.reserved_bottom,
        s.workspaces[i].pos.on_screen(),
{
}

/// After the screen took a size with pixels, the strips at opposite edges
/// leave room between them, if need be because they were given up.
pub proof fn law_strut_sanity(s: ScreenView, width: u16, height: u16)
    requires
        width > 0,
        height > 0,
    ensures
        s.resized(width, height).reserved_top + s.resized(width, height).reserved_bottom < height,
        s.resized(width, height).reserved_left + s.resized(width, height).reserved_right < width,
        s.resized(width, height).width == width,
        s.resized(width, height).height == height,
{
}

/// Closing once more is a no-op: after a close no client holds the focus, so
/// that a second close changes nothing.
pub proof fn law_close_idempotent(s: ScreenView, first: bool, second: bool)
    ensures
        s.closed(first).context.focused_window is None,
        s.closed(first).closed(second) == s.closed(first),
{
}

/// Closing a client that is gone already does nothing but record that no
/// client holds the focus.
pub proof fn law_close_of_removed(s: ScreenView, delivered: bool)
    requires
        s.context.focused_window is Some,
        !s.context.live(s.context.focused_window.unwrap() as int),
    ensures
        s.closed(delivered) == (ScreenView {
            context: ContextView { focused_window: None, ..s.context },
            ..s
        }),
{
}

/// Every client is found under the id of its frame and under the id of its
/// window, which differ, and both lead to its handle.
pub proof fn law_lookup_integrity(s: ScreenView, h: int)
    requires
        s.inv(),
        s.context.live(h),
    ensures
        s.context.client(h).frame != s.context.client(h).window,
        s.context.lookup.contains_key(s.context.client(h).frame),
        s.context.lookup[s.context.client(h).frame] == h,
        s.context.lookup.contains_key(s.context.client(h).window),
        s.context.lookup[s.context.client(h).window] == h,
{
    assert(s.context.windows[h] is Some);
}

/// Taking docked windows out changes neither the table nor which handles
/// have clients.
pub proof fn lemma_undocked_keeps(s: ScreenView, window: u32, upto: int)
    ensures
        s.undocked(window, upto).context.lookup == s.context.lookup,
        s.undocked(window, upto).context.root_window == s.context.root_window,
        s.undocked(window, upto).context.atoms == s.context.atoms,
        s.undocked(window, upto).context.current_workspace == s.context.current_workspace,
        s.undocked(window, upto).context.windows.len() == s.context.windows.len(),
        same_identities(s.context.windows, s.undocked(window, upto).context.windows),
    decreases upto,
{
    if upto > 0 {
        lemma_undocked_keeps(s, window, upto - 1);
        let before = s.undocked(window, upto - 1);
        match slot(before.reserved_clients, upto - 1) {
            Some(client) => {
                if client.window == window {
                    let vacated = ScreenView {
                        reserved_clients: removed(before.reserved_clients, upto - 1),
                        ..before
                    };
                    let checked = match client.direction {
                        ScreenSide::Top => ScreenView {
                            reserved_top: sat_sub16(vacated.reserved_top, client.reserved),
                            ..vacated
                        },
                        ScreenSide::Bottom => ScreenView {
                            reserved_bottom: sat_sub16(vacated.reserved_bottom, client.reserved),
                            ..vacated
                        },
                        ScreenSide::Left => ScreenView {
                            reserved_left: sat_sub16(vacated.reserved_left, client.reserved),
                            ..vacated
                        },
                        ScreenSide::Right => ScreenView {
                            reserved_right: sat_sub16(vacated.reserved_right, client.reserved),
                            ..vacated
                        },
                    }.struts_checked();
                    let placed = checked.placed(checked.content_rect());
                    crate::context::lemma_run_keeps_identities(
                        checked.context.windows,
                        retile_all_script(placed.workspaces),
                    );
                }
            },
            None => {},
        }
    }
}

/// After a window was removed, neither the frame nor the window of the
/// client that had it is found, and the client's handle has no client.
pub proof fn law_lookup_after_removal(s: ScreenView, window: u32)
    requires
        s.inv(),
        s.context.lookup.contains_key(window),
    ensures
        !s.window_removed(window).context.lookup.contains_key(window),
        !s.window_removed(window).context.lookup.contains_key(
            s.context.client(s.context.lookup[window] as int).frame,
        ),
        !s.window_removed(window).context.lookup.contains_key(
            s.context.client(s.context.lookup[window] as int).window,
        ),
        !s.window_removed(window).context.live(s.context.lookup[window] as int),
{
    let idx = s.context.lookup[window];
    assert(s.context.live(idx as int));
    let client = s.context.client(idx as int);
    let detached = s.detached(idx);
    lemma_detached_inv(s, idx);
    let destroyed = detached.ran(seq![Step { handle: idx, op: ClientOp::Destroy }]);
    lemma_ran_inv(detached, seq![Step { handle: idx, op: ClientOp::Destroy }]);
    crate::context::lemma_run_keeps_identities(
        detached.context.windows,
        seq![Step { handle: idx, op: ClientOp::Destroy }],
    );
    assert(detached.context.windows[idx as int] is Some);
    assert(destroyed.context.live(idx as int));
    assert(destroyed.context.client(idx as int).frame == client.frame);
    assert(destroyed.context.client(idx as int).window == client.window);
    destroyed.context.lemma_without_client(idx);
    let cleared = destroyed.forgotten(idx);
    lemma_undocked_keeps(cleared, window, cleared.reserved_clients.len() as int);
    let undocked = cleared.undocked(window, cleared.reserved_clients.len() as int);
    assert(cleared.context.windows[idx as int] is None);
    assert(undocked.context.windows[idx as int] is None);
}

} // verus!
