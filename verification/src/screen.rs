//! The screen: ten workspaces, the clients, the docked windows that reserve
//! space at an edge, and what other programs are told of all this.
//!
//! The screen holds the model and a queue of requests. Every operation
//! changes the model and appends the requests that bring the display server
//! in line with it. Where the manager has to know how a request went before it
//! can go on, the caller sends that request first and hands the outcome in.

use vstd::prelude::*;

use crate::atoms::Atoms;
use crate::client::{close_requests, Client, ClientError, ClientOp};
use crate::context::{Context, ContextView, Step};
use crate::ewmh::{cardinal_property, views_of_workspaces};
use crate::layout::{Position, Workspace, WorkspaceView};
use crate::requests::{Request, RequestView, EVENT_ENTER_WINDOW};
use crate::screen_view::{
    admission_requests, clamp16, client_kill_list, destroy_all, lemma_detached_inv,
    lemma_dropped_wf, lemma_forgotten_inv, lemma_inv_kept, lemma_managed_inv,
    lemma_members_kept, lemma_placed_inv,
    lemma_published_inv, lemma_ran_inv, lemma_settled_inv, lemma_switched_inv,
    lemma_undocked_keeps, lemma_with_workspace_inv, remove_all_script, reserved_windows,
    retile_all_script, spec_strut_values, strut_client, unfocus_all_script, windows_of,
    ScreenView,
};
use crate::slab::{live_count, removed, slot, Slab};
use crate::tiling::Layout;

verus! {

broadcast use vstd::std_specs::hash::group_hash_axioms;

/// The number of workspaces.
pub const WORKSPACE_COUNT: usize = 10;

/// The most docked windows that the screen takes, less one.
pub const RESERVED_LIMIT: usize = 255;

/// An edge of the screen.
#[derive(Debug, Clone, Copy, PartialEq, Eq, Structural)]
pub enum ScreenSide {
    Top,
    Bottom,
    Left,
    Right,
}

/// A docked window, such as a panel, that keeps a strip at an edge of the
/// screen for itself.
#[derive(Debug, Clone, Copy, PartialEq, Eq, Structural)]
pub struct ReservedClient {
    pub window: u32,
    /// The rectangle of the window inside its strip.
    pub position: Position,
    /// The depth of the strip, in pixels.
    pub reserved: u16,
    /// The edge at which the strip lies.
    pub direction: ScreenSide,
}

/// Why the screen did not do what it was asked.
#[derive(Debug, Clone, Copy, PartialEq, Eq, Structural)]
pub enum ScreenError {
    /// There is no workspace with that id.
    NoSuchWorkspace,
    /// The window asks for a strip at no edge.
    InvalidStrut,
    /// The screen holds as many docked windows as it takes.
    TooManyReserved,
    /// The docked window could not be mapped.
    MapFailed,
    /// The frame of the window could not be made.
    FrameFailed,
    /// The frame has the id of the window it is to hold.
    FrameIsWindow,
    /// The window or its frame is known already.
    AlreadyManaged,
}

/// What was learnt of a window before it is added.
#[derive(Debug, Clone)]
pub struct WindowProbe {
    /// The numbers in the window's partial-strut property; none where it has
    /// no such property.
    pub strut_partial: Vec<u32>,
    /// The numbers in the window's strut property; none where it has no such
    /// property.
    pub strut: Vec<u32>,
    /// For a window that is to be docked: the requests that admit it went
    /// well.
    pub mapped: bool,
    /// For a window that is to become a client: the frame that was made for
    /// it and into which it was put; none where that failed.
    pub frame: Option<u32>,
    /// The window's name; empty where it has none.
    pub name: String,
}

/// `v`, or `u16::MAX` where `v` is larger.
fn clamp(v: u32) -> (r: u16)
    ensures
        r == clamp16(v),
{
    if v > 0xffff {
        0xffff
    } else {
        v as u16
    }
}

/// The twelve strut values of a window whose partial-strut property holds
/// `partial` and whose strut property holds `strut`, if they ask for a strip.
/// A window with such values is to be docked; any other is to become a
/// client.
pub fn strut_values(partial: &Vec<u32>, strut: &Vec<u32>) -> (r: Option<[u32; 12]>)
    ensures
        r is Some <==> spec_strut_values(partial@, strut@) is Some,
        r is Some ==> r.unwrap()@ == spec_strut_values(partial@, strut@).unwrap(),
{
    if partial.len() >= 12 && (partial[0] > 0 || partial[1] > 0 || partial[2] > 0 || partial[3]
        > 0) {
        let values = [
            partial[0],
            partial[1],
            partial[2],
            partial[3],
            partial[4],
            partial[5],
            partial[6],
            partial[7],
            partial[8],
            partial[9],
            partial[10],
            partial[11],
        ];
        assert(values@ =~= partial@.take(12));
        Some(values)
    } else if strut.len() >= 4 && (strut[0] > 0 || strut[1] > 0 || strut[2] > 0 || strut[3] > 0) {
        let values = [strut[0], strut[1], strut[2], strut[3], 0, 0, 0, 0, 0, 0, 0, 0];
        assert(values@ =~= strut@.take(4) + Seq::new(8, |i: int| 0u32));
        Some(values)
    } else {
        None
    }
}

impl ReservedClient {
    /// The docked window that the strut values `values` of `window` describe
    /// on a screen of size `width` by `height`, if they ask for a strip.
    pub fn from_strut(window: u32, values: &[u32; 12], width: u16, height: u16) -> (r: Option<
        ReservedClient,
    >)
        ensures
            r == strut_client(window, values@, width, height),
    {
        let left = values[0];
        let right = values[1];
        let top = values[2];
        let bottom = values[3];
        if left > 0 {
            Some(
                ReservedClient {
                    window,
                    position: Position {
                        x: 0,
                        y: clamp(values[4]),
                        width: clamp(left),
                        height: clamp(values[5].saturating_sub(values[4])),
                    },
                    reserved: clamp(left),
                    direction: ScreenSide::Left,
                },
            )
        } else if bottom > 0 {
            Some(
                ReservedClient {
                    window,
                    position: Position {
                        x: clamp(values[10]),
                        y: height.saturating_sub(clamp(bottom)),
                        width: clamp(values[11].saturating_sub(values[10])),
                        height: clamp(bottom),
                    },
                    reserved: clamp(bottom),
                    direction: ScreenSide::Bottom,
                },
            )
        } else if top > 0 {
            Some(
                ReservedClient {
                    window,
                    position: Position {
                        x: clamp(values[8]),
                        y: 0,
                        width: clamp(values[9].saturating_sub(values[8])),
                        height: clamp(top),
                    },
                    reserved: clamp(top),
                    direction: ScreenSide::Top,
                },
            )
        } else if right > 0 {
            Some(
                ReservedClient {
                    window,
                    position: Position {
                        x: width.saturating_sub(clamp(right)),
                        y: clamp(values[6]),
                        width: clamp(right),
                        height: clamp(values[7].saturating_sub(values[6])),
                    },
                    reserved: clamp(right),
                    direction: ScreenSide::Right,
                },
            )
        } else {
            None
        }
    }

    /// The requests that admit the docked window: it is mapped and reports
    /// when the pointer enters it.
    pub fn admission_requests(window: u32) -> (r: Vec<Request>)
        ensures
            crate::requests::views_of(r@) == admission_requests(window),
    {
        let mut out: Vec<Request> = Vec::new();
        out.push(Request::MapWindow { window });
        out.push(Request::SetEventMask { window, event_mask: EVENT_ENTER_WINDOW });
        assert(crate::requests::views_of(out@) =~= admission_requests(window));
        out
    }
}

/// The screen.
#[derive(Debug)]
pub struct Screen {
    width: u16,
    height: u16,
    reserved_space_bottom: u16,
    reserved_space_top: u16,
    reserved_space_left: u16,
    reserved_space_right: u16,
    workspaces: Vec<Workspace>,
    context: Context,
    global_windows: Slab<ReservedClient>,
}

impl View for Screen {
    type V = ScreenView;

    closed spec fn view(&self) -> ScreenView {
        ScreenView {
            width: self.width,
            height: self.height,
            reserved_top: self.reserved_space_top,
            reserved_bottom: self.reserved_space_bottom,
            reserved_left: self.reserved_space_left,
            reserved_right: self.reserved_space_right,
            workspaces: views_of_workspaces(self.workspaces@),
            context: self.context@,
            reserved_clients: self.global_windows@,
        }
    }
}

/// The windows of the clients of `handles`, in order.
fn client_windows(handles: &Vec<usize>, clients: &Slab<Client>) -> (r: Vec<u32>)
    ensures
        r@ == windows_of(handles@, clients@),
{
    let mut windows: Vec<u32> = Vec::new();
    let n = handles.len();
    assert(handles@.take(0) =~= Seq::<usize>::empty());
    for i in 0..n
        invariant
            n == handles@.len(),
            windows@ == windows_of(handles@.take(i as int), clients@),
    {
        assert(handles@.take(i + 1).drop_last() =~= handles@.take(i as int));
        assert(handles@.take(i + 1).last() == handles@[i as int]);
        let ghost before = windows@;
        match clients.get(handles[i]) {
            Some(client) => {
                windows.push(client.window);
                assert(windows@ =~= before + seq![client.window]);
            },
            None => {
                assert(before + Seq::<u32>::empty() =~= before);
            },
        }
    }
    assert(handles@.take(n as int) =~= handles@);
    windows
}

/// Appends the windows of the docked windows to `windows`, by ascending slot.
fn push_reserved_windows(reserved: &Slab<ReservedClient>, windows: &mut Vec<u32>)
    ensures
        final(windows)@ == old(windows)@ + reserved_windows(reserved@),
{
    let n = reserved.max_len();
    assert(reserved@.take(0) =~= Seq::<Option<ReservedClient>>::empty());
    assert(windows@ + Seq::<u32>::empty() =~= windows@);
    for i in 0..n
        invariant
            n == reserved@.len(),
            windows@ == old(windows)@ + reserved_windows(reserved@.take(i as int)),
    {
        assert(reserved@.take(i + 1).drop_last() =~= reserved@.take(i as int));
        assert(reserved@.take(i + 1).last() == reserved@[i as int]);
        let ghost before = reserved_windows(reserved@.take(i as int));
        match reserved.get(i) {
            Some(client) => {
                windows.push(client.window);
                assert(windows@ =~= old(windows)@ + (before + seq![client.window]));
            },
            None => {
                assert(before + Seq::<u32>::empty() =~= before);
            },
        }
    }
    assert(reserved@.take(n as int) =~= reserved@);
}

impl Screen {
    /// The two slabs are in order.
    spec fn slabs_ok(&self) -> bool {
        &&& self.context.windows.wf()
        &&& self.global_windows.wf()
    }

    /// What holds of a screen at any time, also before a workspace is
    /// current.
    spec fn inv(&self) -> bool {
        &&& self@.inv()
        &&& self.slabs_ok()
    }

    /// The screen is in order and a workspace is current.
    pub closed spec fn wf(&self) -> bool {
        &&& self.inv()
        &&& self@.wf()
    }

    /// What `wf` says of the model.
    pub proof fn lemma_wf(&self)
        requires
            self.wf(),
        ensures
            self@.wf(),
    {
    }

    /// Tells other programs of the desktops and the clients.
    pub fn update_atoms(&mut self)
        requires
            old(self).wf(),
        ensures
            final(self).wf(),
            final(self)@ == old(self)@.published(),
    {
        proof {
            lemma_published_inv(self@);
        }
        self.publish();
    }

    /// Tells other programs of the desktops and the clients.
    fn publish(&mut self)
        requires
            old(self).slabs_ok(),
            old(self)@.context.wf(),
            old(self)@.workspaces.len() == WORKSPACE_COUNT,
        ensures
            final(self).slabs_ok(),
            final(self)@ == old(self)@.published(),
    {
        let atoms = self.context.atoms;
        let root = self.context.root_window;
        let ghost start = self.context@;
        let ghost view = self@;
        assert(self.workspaces@.len() == WORKSPACE_COUNT);
        crate::ewmh::set_number_of_desktops(
            self.workspaces.len() as u32,
            root,
            &atoms,
            &mut self.context.requests,
        );
        crate::ewmh::set_current_desktop(
            self.context.current_workspace as u32,
            root,
            &atoms,
            &mut self.context.requests,
        );
        crate::ewmh::set_desktop_names(&self.workspaces, root, &atoms, &mut self.context.requests);
        crate::ewmh::set_desktop_viewport(
            self.reserved_space_left as u32,
            self.reserved_space_top as u32,
            root,
            &atoms,
            &mut self.context.requests,
        );
        assert(self.context.wf());
        crate::ewmh::set_wm_desktop(&self.workspaces, &mut self.context);
        let clients = client_windows(&self.context.order, &self.context.windows);
        crate::ewmh::set_client_list(&clients, root, &atoms, &mut self.context.requests);
        let mut windows: Vec<u32> = Vec::new();
        push_reserved_windows(&self.global_windows, &mut windows);
        let current = self.context.current_workspace as usize;
        if 1 <= current && current <= self.workspaces.len() {
            let handles = self.workspaces[current - 1].windows();
            let mut shown = client_windows(&handles, &self.context.windows);
            windows.append(&mut shown);
        } else {
            assert(windows_of(Seq::<usize>::empty(), self.context.windows@) =~= Seq::<u32>::empty());
        }
        assert(windows@ =~= view.stacking_list());
        crate::ewmh::set_client_list_stacking(&windows, root, &atoms, &mut self.context.requests);
        crate::ewmh::set_showing_desktop(false, root, &atoms, &mut self.context.requests);
        proof {
            assert(self.context@.requests =~= start.requests + view.mirror());
        }
    }

    /// Gives up strips that leave no room, gives the workspaces what the
    /// strips leave, and tells other programs.
    fn size_updated(&mut self)
        requires
            (ScreenView {
                reserved_top: 0,
                reserved_bottom: 0,
                reserved_left: 0,
                reserved_right: 0,
                ..old(self)@
            }).inv(),
            old(self).context.windows.wf(),
            old(self).global_windows.wf(),
        ensures
            final(self).inv(),
            old(self)@.context.current_workspace >= 1 && old(self)@.clients_placed()
                ==> final(self).wf(),
            final(self)@ == old(self)@.settled(),
    {
        if self.reserved_space_bottom as u32 + self.reserved_space_top as u32
            >= self.height as u32 {
            self.reserved_space_top = 0;
            self.reserved_space_bottom = 0;
        }
        if self.reserved_space_left as u32 + self.reserved_space_right as u32
            >= self.width as u32 {
            self.reserved_space_left = 0;
            self.reserved_space_right = 0;
        }
        let ghost checked = old(self)@.struts_checked();
        assert(self@ == checked);
        let pos = Position::new(
            self.reserved_space_left,
            self.reserved_space_top,
            self.width - self.reserved_space_left - self.reserved_space_right,
            self.height - self.reserved_space_top - self.reserved_space_bottom,
        );
        assert(pos == checked.content_rect());
        let ghost target = checked.placed(pos);
        proof {
            lemma_settled_inv(old(self)@);
            checked.context.lemma_run_nothing();
            assert(target.workspaces.take(0) =~= Seq::<WorkspaceView>::empty());
        }
        let n = self.workspaces.len();
        for i in 0..n
            invariant
                n == self.workspaces@.len(),
                n == checked.workspaces.len(),
                target == checked.placed(pos),
                self.width == checked.width,
                self.height == checked.height,
                self.reserved_space_top == checked.reserved_top,
                self.reserved_space_bottom == checked.reserved_bottom,
                self.reserved_space_left == checked.reserved_left,
                self.reserved_space_right == checked.reserved_right,
                self.global_windows == old(self).global_windows,
                self.context.wf(),
                self.context@ == checked.context.run(
                    retile_all_script(target.workspaces.take(i as int)),
                ),
                forall|k: int|
                    0 <= k < n ==> (#[trigger] self.workspaces@[k])@ == if k < i {
                        target.workspaces[k]
                    } else {
                        checked.workspaces[k]
                    },
        {
            let ghost done = retile_all_script(target.workspaces.take(i as int));
            assert(self.workspaces@[i as int]@ == checked.workspaces[i as int]);
            self.workspaces[i].set_screen_position(pos, &mut self.context);
            proof {
                assert(target.workspaces.take(i + 1).drop_last() =~= target.workspaces.take(
                    i as int,
                ));
                assert(target.workspaces.take(i + 1).last() == target.workspaces[i as int]);
                checked.context.lemma_run_concat(done, target.workspaces[i as int].retile_script());
            }
        }
        proof {
            assert(target.workspaces.take(n as int) =~= target.workspaces);
            assert(views_of_workspaces(self.workspaces@) =~= target.workspaces);
            assert(self@ == target);
            lemma_placed_inv(checked, pos);
            lemma_published_inv(target);
        }
        self.publish();
    }

    /// Makes workspace `id` the current one: tells other programs, hides the
    /// workspace that was shown and shows workspace `id`.
    fn switch_to(&mut self, id: u8)
        requires
            old(self).inv(),
            1 <= id <= WORKSPACE_COUNT,
        ensures
            final(self).inv(),
            old(self)@.rects_ok() && old(self)@.clients_placed() ==> final(self).wf(),
            final(self)@ == old(self)@.switched(id),
    {
        proof {
            lemma_switched_inv(self@, id);
        }
        let old_workspace = self.context.current_workspace;
        self.context.current_workspace = id;
        self.publish();
        let ghost told = self@;
        if old_workspace >= 1 {
            let i = (old_workspace - 1) as usize;
            assert(self.workspaces@[i as int]@ == told.workspaces[i as int]);
            proof {
                told.context.lemma_run_keeps_wf(told.workspaces[i as int].conceal_script());
            }
            self.workspaces[i].conceal(&mut self.context);
            assert(views_of_workspaces(self.workspaces@) =~= told.workspaces.update(
                i as int,
                told.workspaces[i as int].concealed(),
            ));
        }
        let ghost concealed = self@;
        let j = (id - 1) as usize;
        assert(self.workspaces@[j as int]@ == concealed.workspaces[j as int]);
        self.workspaces[j].show(&mut self.context);
        assert(views_of_workspaces(self.workspaces@) =~= concealed.workspaces.update(
            j as int,
            concealed.workspaces[j as int].shown(),
        ));
    }

    /// Changes to workspace `new_workspace`, if there is one with that id.
    pub fn switch_workspace(&mut self, new_workspace: u8) -> (r: Result<(), ScreenError>)
        requires
            old(self).wf(),
        ensures
            final(self).wf(),
            1 <= new_workspace <= WORKSPACE_COUNT ==> r is Ok,
            !(1 <= new_workspace <= WORKSPACE_COUNT) ==> r == Err::<(), ScreenError>(
                ScreenError::NoSuchWorkspace,
            ),
            r is Ok ==> final(self)@.context.current_workspace == new_workspace,
            final(self)@ == old(self)@.switched(new_workspace),
    {
        if new_workspace < 1 || new_workspace as usize > WORKSPACE_COUNT {
            return Err(ScreenError::NoSuchWorkspace);
        }
        proof {
            lemma_switched_inv(self@, new_workspace);
        }
        self.switch_to(new_workspace);
        Ok(())
    }

    /// Takes the size `width` by `height`.
    pub fn update_size(&mut self, width: u16, height: u16)
        requires
            old(self).wf(),
        ensures
            final(self).wf(),
            final(self)@ == old(self)@.resized(width, height),
    {
        self.width = width;
        self.height = height;
        proof {
            lemma_inv_kept(
                old(self)@,
                ScreenView {
                    reserved_top: 0,
                    reserved_bottom: 0,
                    reserved_left: 0,
                    reserved_right: 0,
                    ..self@
                },
            );
        }
        self.size_updated();
    }

    /// Reserves `amount` more at the top.
    pub fn reserve_space_top(&mut self, amount: u16)
        requires
            old(self).wf(),
        ensures
            final(self).wf(),
            final(self)@ == old(self)@.reserved(amount, ScreenSide::Top),
    {
        self.reserved_space_top = self.reserved_space_top.saturating_add(amount);
        proof {
            self.lemma_strips_changed(old(self));
        }
        self.size_updated();
    }

    /// Reserves `amount` more at the bottom.
    pub fn reserve_space_bottom(&mut self, amount: u16)
        requires
            old(self).wf(),
        ensures
            final(self).wf(),
            final(self)@ == old(self)@.reserved(amount, ScreenSide::Bottom),
    {
        self.reserved_space_bottom = self.reserved_space_bottom.saturating_add(amount);
        proof {
            self.lemma_strips_changed(old(self));
        }
        self.size_updated();
    }

    /// Reserves `amount` more at the left.
    pub fn reserve_space_left(&mut self, amount: u16)
        requires
            old(self).wf(),
        ensures
            final(self).wf(),
            final(self)@ == old(self)@.reserved(amount, ScreenSide::Left),
    {
        self.reserved_space_left = self.reserved_space_left.saturating_add(amount);
        proof {
            self.lemma_strips_changed(old(self));
        }
        self.size_updated();
    }

    /// Reserves `amount` more at the right.
    pub fn reserve_space_right(&mut self, amount: u16)
        requires
            old(self).wf(),
        ensures
            final(self).wf(),
            final(self)@ == old(self)@.reserved(amount, ScreenSide::Right),
    {
        self.reserved_space_right = self.reserved_space_right.saturating_add(amount);
        proof {
            self.lemma_strips_changed(old(self));
        }
        self.size_updated();
    }

    /// Gives back `amount` at the top; no more than is reserved there.
    pub fn free_space_top(&mut self, amount: u16)
        requires
            old(self).wf(),
        ensures
            final(self).wf(),
            final(self)@ == old(self)@.freed(amount, ScreenSide::Top),
    {
        self.reserved_space_top = self.reserved_space_top.saturating_sub(amount);
        proof {
            self.lemma_strips_changed(old(self));
        }
        self.size_updated();
    }

    /// Gives back `amount` at the bottom; no more than is reserved there.
    pub fn free_space_bottom(&mut self, amount: u16)
        requires
            old(self).wf(),
        ensures
            final(self).wf(),
            final(self)@ == old(self)@.freed(amount, ScreenSide::Bottom),
    {
        self.reserved_space_bottom = self.reserved_space_bottom.saturating_sub(amount);
        proof {
            self.lemma_strips_changed(old(self));
        }
        self.size_updated();
    }

    /// Gives back `amount` at the left; no more than is reserved there.
    pub fn free_space_left(&mut self, amount: u16)
        requires
            old(self).wf(),
        ensures
            final(self).wf(),
            final(self)@ == old(self)@.freed(amount, ScreenSide::Left),
    {
        self.reserved_space_left = self.reserved_space_left.saturating_sub(amount);
        proof {
            self.lemma_strips_changed(old(self));
        }
        self.size_updated();
    }

    /// Gives back `amount` at the right; no more than is reserved there.
    pub fn free_space_right(&mut self, amount: u16)
        requires
            old(self).wf(),
        ensures
            final(self).wf(),
            final(self)@ == old(self)@.freed(amount, ScreenSide::Right),
    {
        self.reserved_space_right = self.reserved_space_right.saturating_sub(amount);
        proof {
            self.lemma_strips_changed(old(self));
        }
        self.size_updated();
    }

    /// Gives back `amount` at the edge `direction`.
    fn free_reserved_space(&mut self, amount: u16, direction: ScreenSide)
        requires
            old(self).wf(),
        ensures
            final(self).wf(),
            final(self)@ == old(self)@.freed(amount, direction),
    {
        match direction {
            ScreenSide::Bottom => self.free_space_bottom(amount),
            ScreenSide::Left => self.free_space_left(amount),
            ScreenSide::Right => self.free_space_right(amount),
            ScreenSide::Top => self.free_space_top(amount),
        }
    }

    /// Reserves `amount` more at the edge `direction`.
    fn reserve_space(&mut self, amount: u16, direction: ScreenSide)
        requires
            old(self).wf(),
        ensures
            final(self).wf(),
            final(self)@ == old(self)@.reserved(amount, direction),
    {
        match direction {
            ScreenSide::Bottom => self.reserve_space_bottom(amount),
            ScreenSide::Left => self.reserve_space_left(amount),
            ScreenSide::Right => self.reserve_space_right(amount),
            ScreenSide::Top => self.reserve_space_top(amount),
        }
    }

    /// A screen that differs from a screen in order by its strips only can
    /// be settled.
    proof fn lemma_strips_changed(&self, before: &Screen)
        requires
            before.wf(),
            self.width == before.width,
            self.height == before.height,
            self.workspaces == before.workspaces,
            self.context == before.context,
            self.global_windows == before.global_windows,
        ensures
            (ScreenView {
                reserved_top: 0,
                reserved_bottom: 0,
                reserved_left: 0,
                reserved_right: 0,
                ..self@
            }).inv(),
            self.context.windows.wf(),
            self.global_windows.wf(),
            self@.context.current_workspace >= 1,
            self@.clients_placed(),
    {
        lemma_inv_kept(
            before@,
            ScreenView {
                reserved_top: 0,
                reserved_bottom: 0,
                reserved_left: 0,
                reserved_right: 0,
                ..self@
            },
        );
    }

    /// Goes on to the next layout in the workspace that is shown.
    pub fn cycle_layout(&mut self)
        requires
            old(self).wf(),
        ensures
            final(self).wf(),
            final(self)@ == old(self)@.cycled(),
    {
        let i = (self.context.current_workspace - 1) as usize;
        let ghost before = self@;
        assert(self.workspaces@[i as int]@ == before.workspaces[i as int]);
        self.workspaces[i].cycle_layout(&mut self.context);
        proof {
            let workspace = before.workspaces[i as int].with_layout(
                before.workspaces[i as int].layout.spec_next(),
            );
            assert(views_of_workspaces(self.workspaces@) =~= before.workspaces.update(
                i as int,
                workspace,
            ));
            assert(before.workspaces[i as int].wf());
            lemma_with_workspace_inv(before, i as int, workspace, workspace.retile_script());
            lemma_published_inv(self@);
            crate::context::lemma_run_keeps_identities(
                before.context.windows,
                workspace.retile_script(),
            );
            lemma_members_kept(before, self@.published());
        }
        self.publish();
    }

    /// Takes the layout `new_layout` in the workspace that is shown.
    pub fn set_layout(&mut self, new_layout: Layout)
        requires
            old(self).wf(),
        ensures
            final(self).wf(),
            final(self)@ == old(self)@.with_layout(new_layout),
    {
        let i = (self.context.current_workspace - 1) as usize;
        let ghost before = self@;
        assert(self.workspaces@[i as int]@ == before.workspaces[i as int]);
        self.workspaces[i].set_layout(new_layout, &mut self.context);
        proof {
            let workspace = before.workspaces[i as int].with_layout(new_layout);
            assert(views_of_workspaces(self.workspaces@) =~= before.workspaces.update(
                i as int,
                workspace,
            ));
            assert(before.workspaces[i as int].wf());
            let script = if before.workspaces[i as int].layout == new_layout {
                Seq::empty()
            } else {
                workspace.retile_script()
            };
            lemma_with_workspace_inv(before, i as int, workspace, script);
            lemma_published_inv(self@);
            crate::context::lemma_run_keeps_identities(before.context.windows, script);
            lemma_members_kept(before, self@.published());
        }
        self.publish();
    }

    /// A screen of size `width` by `height` for the root window
    /// `root_window`, with workspace 1 shown.
    pub fn new(width: u16, height: u16, gap: u16, atoms: Atoms, root_window: u32) -> (r: Self)
        ensures
            r.wf(),
            r@ == ScreenView::started(width, height, gap, atoms, root_window),
    {
        let ghost blank = ScreenView::blank(width, height, gap, atoms, root_window);
        let mut workspaces: Vec<Workspace> = Vec::new();
        for i in 0..WORKSPACE_COUNT
            invariant
                workspaces@.len() == i,
                forall|k: int| 0 <= k < i ==> (#[trigger] workspaces@[k])@ == blank.workspaces[k],
                blank == ScreenView::blank(width, height, gap, atoms, root_window),
        {
            workspaces.push(
                Workspace::new(Position::new(0, 0, width, height), gap, (i + 1) as u32),
            );
        }
        let mut me = Self {
            width,
            height,
            reserved_space_bottom: 0,
            reserved_space_left: 0,
            reserved_space_right: 0,
            reserved_space_top: 0,
            workspaces,
            global_windows: Slab::new(),
            context: Context::new(atoms, root_window),
        };
        assert(me@.workspaces =~= blank.workspaces);
        assert(me@ == blank);
        assert(blank.inv()) by {
            assert forall|i: int| 0 <= i < blank.workspaces.len() implies (#[trigger] blank.workspaces[i]).wf()
                && blank.workspaces[i].id == i + 1 by {
                assert(workspaces@[i]@.wf());
            }
        }
        crate::ewmh::set_number_of_desktops(
            WORKSPACE_COUNT as u32,
            root_window,
            &atoms,
            &mut me.context.requests,
        );
        proof {
            let told = ScreenView {
                context: blank.context.emit(
                    seq![
                        cardinal_property(
                            root_window,
                            atoms.net_number_of_desktops,
                            seq![WORKSPACE_COUNT as u32],
                        ),
                    ],
                ),
                ..blank
            };
            assert(me@.context.requests =~= told.context.requests);
            assert(me@ == told);
            lemma_inv_kept(blank, told);
        }
        me.switch_to(1);
        proof {
            lemma_inv_kept(
                me@,
                ScreenView {
                    reserved_top: 0,
                    reserved_bottom: 0,
                    reserved_left: 0,
                    reserved_right: 0,
                    ..me@
                },
            );
        }
        me.size_updated();
        me.update_atoms();
        me
    }

    /// Appends `requests` to the queue.
    pub fn push_requests(&mut self, requests: Vec<Request>)
        requires
            old(self).wf(),
        ensures
            final(self).wf(),
            final(self)@ == old(self)@.told(crate::requests::views_of(requests@)),
    {
        self.context.requests.append(requests);
        proof {
            lemma_inv_kept(old(self)@, self@);
        }
    }

    /// Hands out the requests that wait to be sent, oldest first, and leaves
    /// none.
    pub fn take_requests(&mut self) -> (r: Vec<Request>)
        requires
            old(self).wf(),
        ensures
            final(self).wf(),
            crate::requests::views_of(r@) == old(self)@.context.requests,
            final(self)@ == (ScreenView {
                context: ContextView { requests: Seq::empty(), ..old(self)@.context },
                ..old(self)@
            }),
    {
        let r = self.context.requests.take();
        proof {
            lemma_inv_kept(old(self)@, self@);
        }
        r
    }

    pub fn width(&self) -> (r: u16)
        ensures
            r == self@.width,
    {
        self.width
    }

    pub fn height(&self) -> (r: u16)
        ensures
            r == self@.height,
    {
        self.height
    }

    /// What is reserved at the edge `side`.
    pub fn reserved_space(&self, side: ScreenSide) -> (r: u16)
        ensures
            r == match side {
                ScreenSide::Top => self@.reserved_top,
                ScreenSide::Bottom => self@.reserved_bottom,
                ScreenSide::Left => self@.reserved_left,
                ScreenSide::Right => self@.reserved_right,
            },
    {
        match side {
            ScreenSide::Top => self.reserved_space_top,
            ScreenSide::Bottom => self.reserved_space_bottom,
            ScreenSide::Left => self.reserved_space_left,
            ScreenSide::Right => self.reserved_space_right,
        }
    }

    /// The id of the workspace that is shown.
    pub fn current_workspace(&self) -> (r: u8)
        ensures
            r == self@.context.current_workspace,
    {
        self.context.current_workspace
    }

    /// The workspace with id `id`.
    pub fn workspace(&self, id: u8) -> (r: Option<&Workspace>)
        ensures
            1 <= id <= self@.workspaces.len() ==> r is Some && r.unwrap()@ == self@.workspaces[id
                - 1],
            !(1 <= id <= self@.workspaces.len()) ==> r is None,
    {
        if id >= 1 && (id as usize) <= self.workspaces.len() {
            Some(&self.workspaces[(id - 1) as usize])
        } else {
            None
        }
    }

    /// The client with handle `idx`.
    pub fn client(&self, idx: usize) -> (r: Option<&Client>)
        ensures
            r is Some <==> self@.context.live(idx as int),
            r is Some ==> *r.unwrap() == self@.context.client(idx as int),
    {
        self.context.windows.get(idx)
    }

    /// The handle of the client whose frame or window has the id `window`.
    pub fn find_client(&self, window: u32) -> (r: Option<usize>)
        ensures
            r is Some <==> self@.context.lookup.contains_key(window),
            r is Some ==> r.unwrap() == self@.context.lookup[window],
    {
        self.context.find(window)
    }

    /// The handle of the client that holds the focus.
    pub fn focused_window(&self) -> (r: Option<usize>)
        ensures
            r == self@.context.focused_window,
    {
        self.context.focused_window
    }

    /// The client that holds the focus, if it is still there.
    pub fn focused_client(&self) -> (r: Option<&Client>)
        ensures
            r is Some <==> self@.context.focused_window is Some && self@.context.live(
                self@.context.focused_window.unwrap() as int,
            ),
            r is Some ==> *r.unwrap() == self@.context.client(
                self@.context.focused_window.unwrap() as int,
            ),
    {
        match self.context.focused_window {
            Some(idx) => self.context.windows.get(idx),
            None => None,
        }
    }

    /// The number of docked windows.
    pub fn reserved_client_count(&self) -> (r: usize)
        ensures
            r == live_count(self@.reserved_clients),
    {
        self.global_windows.len()
    }

    /// The docked window in slot `idx`.
    pub fn reserved_client(&self, idx: usize) -> (r: Option<ReservedClient>)
        ensures
            r == slot(self@.reserved_clients, idx as int),
    {
        match self.global_windows.get(idx) {
            Some(client) => Some(*client),
            None => None,
        }
    }

    /// Destroys every window and forgets it.
    pub fn kill_children(&mut self)
        requires
            old(self).wf(),
        ensures
            final(self).wf(),
            final(self)@ == old(self)@.killed(),
    {
        let ghost before = self@;
        let root = self.context.root_window;
        self.context.requests.push(Request::SetInputFocus { focus: root });
        let ghost base = self.context.requests@;
        let n = self.context.windows.max_len();
        let ghost slots = self.context.windows@;
        proof {
            assert(slots.take(0) =~= Seq::<Option<Client>>::empty());
            assert(base + destroy_all(Seq::<u32>::empty()) =~= base);
        }
        for i in 0..n
            invariant
                n == slots.len(),
                slots == self.context.windows@,
                slots == before.context.windows,
                self.workspaces == old(self).workspaces,
                self.global_windows == old(self).global_windows,
                self.width == old(self).width,
                self.height == old(self).height,
                self.context.atoms == old(self).context.atoms,
                self.context.root_window == old(self).context.root_window,
                self.context.current_workspace == old(self).context.current_workspace,
                self.context.requests@ == base + destroy_all(client_kill_list(slots.take(i as int))),
        {
            assert(slots.take(i + 1).drop_last() =~= slots.take(i as int));
            assert(slots.take(i + 1).last() == slots[i as int]);
            let ghost sofar = client_kill_list(slots.take(i as int));
            match self.context.windows.get(i) {
                Some(client) => {
                    let window = client.window;
                    let frame = client.frame;
                    self.context.requests.push(Request::DestroyWindow { window });
                    self.context.requests.push(Request::DestroyWindow { window: frame });
                    assert(self.context.requests@ =~= base + destroy_all(
                        sofar + seq![window, frame],
                    ));
                },
                None => {
                    assert(sofar + Seq::<u32>::empty() =~= sofar);
                },
            }
        }
        assert(slots.take(n as int) =~= slots);
        let mut docked: Vec<u32> = Vec::new();
        push_reserved_windows(&self.global_windows, &mut docked);
        assert(docked@ =~= reserved_windows(before.reserved_clients));
        let ghost mid = self.context.requests@;
        let m = docked.len();
        assert(mid + destroy_all(docked@.take(0)) =~= mid);
        for j in 0..m
            invariant
                m == docked@.len(),
                self.workspaces == old(self).workspaces,
                self.global_windows == old(self).global_windows,
                self.width == old(self).width,
                self.height == old(self).height,
                self.context.atoms == old(self).context.atoms,
                self.context.root_window == old(self).context.root_window,
                self.context.current_workspace == old(self).context.current_workspace,
                self.context.requests@ == mid + destroy_all(docked@.take(j as int)),
        {
            self.context.requests.push(Request::DestroyWindow { window: docked[j] });
            assert(self.context.requests@ =~= mid + destroy_all(docked@.take(j + 1)));
        }
        assert(docked@.take(m as int) =~= docked@);
        self.global_windows.clear();
        self.reserved_space_bottom = 0;
        self.reserved_space_left = 0;
        self.reserved_space_right = 0;
        self.reserved_space_top = 0;
        self.context.windows.clear();
        self.context.focused_window = None;
        self.context.window_lookup.clear();
        self.context.order.clear();
        proof {
            assert(self.context@.requests =~= before.killed().context.requests);
            assert(self.context@.lookup =~= before.killed().context.lookup);
            assert(self.context@.order =~= before.killed().context.order);
        }
        let count = self.workspaces.len();
        for i in 0..count
            invariant
                count == self.workspaces@.len(),
                count == before.workspaces.len(),
                before == old(self)@,
                self.global_windows@ == Seq::<Option<ReservedClient>>::empty(),
                self.global_windows.wf(),
                self.context.windows.wf(),
                self.context@ == before.killed().context,
                self.width == old(self).width,
                self.height == old(self).height,
                self.reserved_space_bottom == 0,
                self.reserved_space_left == 0,
                self.reserved_space_right == 0,
                self.reserved_space_top == 0,
                forall|k: int|
                    0 <= k < count ==> (#[trigger] self.workspaces@[k])@ == if k < i {
                        before.killed().workspaces[k]
                    } else {
                        before.workspaces[k]
                    },
        {
            self.workspaces[i].clear_windows();
            proof {
                self.context@.lemma_run_nothing();
            }
            self.workspaces[i].set_screen_position(
                Position::new(0, 0, self.width, self.height),
                &mut self.context,
            );
        }
        proof {
            assert(self@.workspaces =~= before.killed().workspaces);
            let after = before.killed();
            assert(self@ == after);
            assert(after.inv()) by {
                assert forall|i: int| 0 <= i < after.workspaces.len() implies (#[trigger] after.workspaces[i]).wf()
                    && after.workspaces[i].id == i + 1 by {
                    assert(before.workspaces[i].wf());
                }
                assert forall|i: int| 0 <= i < after.workspaces.len() implies ((#[trigger] after.workspaces[i]).is_showing
                    <==> i + 1 == after.context.current_workspace) by {
                    assert(before.workspaces[i].is_showing <==> i + 1
                        == before.context.current_workspace);
                }
            }
        }
    }

    /// Moves the focus to where the pointer is: into `window`.
    pub fn enter_client(&mut self, client: u32)
        requires
            old(self).wf(),
        ensures
            final(self).wf(),
            final(self)@ == old(self)@.entered(client),
    {
        let ghost before = self@;
        let ghost base = before.unfocused();
        proof {
            before.context.lemma_run_nothing();
            assert(before.workspaces.take(0) =~= Seq::<WorkspaceView>::empty());
        }
        let n = self.workspaces.len();
        for i in 0..n
            invariant
                n == self.workspaces@.len(),
                n == before.workspaces.len(),
                before == old(self)@,
                base == before.unfocused(),
                self.width == old(self).width,
                self.height == old(self).height,
                self.reserved_space_bottom == old(self).reserved_space_bottom,
                self.reserved_space_left == old(self).reserved_space_left,
                self.reserved_space_right == old(self).reserved_space_right,
                self.reserved_space_top == old(self).reserved_space_top,
                self.global_windows == old(self).global_windows,
                self.context.wf(),
                self.context@ == before.context.run(
                    unfocus_all_script(before.workspaces.take(i as int)),
                ),
                forall|k: int|
                    0 <= k < n ==> (#[trigger] self.workspaces@[k])@ == if k < i {
                        base.workspaces[k]
                    } else {
                        before.workspaces[k]
                    },
        {
            let ghost done = unfocus_all_script(before.workspaces.take(i as int));
            assert(self.workspaces@[i as int]@ == before.workspaces[i as int]);
            self.workspaces[i].unfocus_all(&mut self.context);
            proof {
                assert(before.workspaces.take(i + 1).drop_last() =~= before.workspaces.take(
                    i as int,
                ));
                assert(before.workspaces.take(i + 1).last() == before.workspaces[i as int]);
                before.context.lemma_run_concat(done, before.workspaces[i as int].unfocus_script());
            }
        }
        self.context.focused_window = None;
        proof {
            assert(before.workspaces.take(n as int) =~= before.workspaces);
            assert(views_of_workspaces(self.workspaces@) =~= base.workspaces);
            assert(self@ == base);
            before.context.lemma_run_keeps_wf(unfocus_all_script(before.workspaces));
            crate::context::lemma_run_keeps_identities(
                before.context.windows,
                unfocus_all_script(before.workspaces),
            );
            assert forall|k: int| 0 <= k < base.workspaces.len() implies (#[trigger] base.workspaces[k]).wf()
                && base.workspaces[k].id == before.workspaces[k].id && base.workspaces[k].is_showing
                == before.workspaces[k].is_showing by {
                assert(before.workspaces[k].wf());
            }
            lemma_inv_kept(before, base);
            lemma_members_kept(before, base);
        }
        if client == self.context.root_window {
            self.context.emit(Request::SetInputFocus { focus: client });
            proof {
                lemma_inv_kept(base, self@);
                lemma_members_kept(base, self@);
            }
            return ;
        }
        let i = (self.context.current_workspace - 1) as usize;
        if let Some(idx) = self.context.find(client) {
            assert(self.workspaces@[i as int]@ == base.workspaces[i as int]);
            if self.workspaces[i].focus_client(idx, &mut self.context) {
                self.context.focused_window = Some(idx);
                proof {
                    assert(views_of_workspaces(self.workspaces@) =~= base.workspaces.update(
                        i as int,
                        base.workspaces[i as int].focused_on(idx),
                    ));
                    assert(base.workspaces[i as int].wf());
                    base.workspaces[i as int].lemma_wf_kept(idx);
                    lemma_with_workspace_inv(
                        base,
                        i as int,
                        base.workspaces[i as int].focused_on(idx),
                        base.workspaces[i as int].focus_script(idx),
                    );
                    lemma_inv_kept(
                        base.with_workspace(
                            i as int,
                            base.workspaces[i as int].focused_on(idx),
                            base.workspaces[i as int].focus_script(idx),
                        ),
                        self@,
                    );
                    crate::context::lemma_run_keeps_identities(
                        base.context.windows,
                        base.workspaces[i as int].focus_script(idx),
                    );
                    lemma_members_kept(base, self@);
                }
                return ;
            }
            proof {
                assert(base.workspaces[i as int].focused_on(idx) == base.workspaces[i as int]);
                assert(base.workspaces[i as int].focus_script(idx) =~= Seq::<Step>::empty());
                base.context.lemma_run_nothing();
                assert(views_of_workspaces(self.workspaces@) =~= base.workspaces);
            }
        }
        assert(self@ == base);
        let ghost shown = base.context.current_workspace - 1;
        assert(!(base.context.lookup.contains_key(client) && base.workspaces[shown].contains(
            base.context.lookup[client],
        )));
        let mut docked: Vec<u32> = Vec::new();
        push_reserved_windows(&self.global_windows, &mut docked);
        assert(docked@ =~= reserved_windows(base.reserved_clients));
        let m = docked.len();
        for j in 0..m
            invariant
                m == docked@.len(),
                self@ == base,
                base.inv(),
                base.rects_ok(),
                base.clients_placed(),
                self.slabs_ok(),
                before.wf(),
                base.context.current_workspace == before.context.current_workspace,
                base == before.unfocused(),
                before == old(self)@,
                docked@ == reserved_windows(base.reserved_clients),
                client != base.context.root_window,
                shown == base.context.current_workspace - 1,
                !(base.context.lookup.contains_key(client) && base.workspaces[shown].contains(
                    base.context.lookup[client],
                )),
                forall|k: int| 0 <= k < j ==> docked@[k] != client,
        {
            if docked[j] == client {
                self.context.emit(Request::SetInputFocus { focus: client });
                proof {
                    assert(docked@[j as int] == client);
                    assert(reserved_windows(base.reserved_clients).contains(client));
                    lemma_inv_kept(base, self@);
                    lemma_members_kept(base, self@);
                }
                return ;
            }
        }
    }

    /// Docks `client`. `mapped` says that the requests that admit it went
    /// well. Nothing is done where the screen takes no more docked windows or
    /// the window was not mapped.
    pub fn add_reserved_client(&mut self, client: ReservedClient, mapped: bool) -> (r: Result<
        (),
        ScreenError,
    >)
        requires
            old(self).wf(),
        ensures
            final(self).wf(),
            !old(self)@.admits_reserved() ==> r == Err::<(), ScreenError>(
                ScreenError::TooManyReserved,
            ) && final(self)@ == old(self)@,
            old(self)@.admits_reserved() && !mapped ==> r == Err::<(), ScreenError>(
                ScreenError::MapFailed,
            ) && final(self)@ == old(self)@,
            old(self)@.admits_reserved() && mapped ==> r is Ok && final(self)@
                == old(self)@.reserved_added(client),
    {
        if self.global_windows.len() > RESERVED_LIMIT {
            return Err(ScreenError::TooManyReserved);
        }
        if !mapped {
            return Err(ScreenError::MapFailed);
        }
        self.global_windows.push(client);
        proof {
            lemma_inv_kept(old(self)@, self@);
            lemma_published_inv(self@);
        }
        self.publish();
        Ok(())
    }

    /// Handles a window with the strut values `values`: reserves its strip
    /// and docks it. `mapped` says that the requests that admit it went well;
    /// where they did not, or the screen takes no more docked windows, the
    /// strip is given back. Nothing is done where the values ask for no
    /// strip.
    pub fn handle_reserved_client(&mut self, window: u32, values: [u32; 12], mapped: bool) -> (r:
        Result<(), ScreenError>)
        requires
            old(self).wf(),
        ensures
            final(self).wf(),
            r == old(self)@.reserved_outcome(window, values@, mapped),
            final(self)@ == old(self)@.reserved_handled(window, values@, mapped),
    {
        let Some(client) = ReservedClient::from_strut(window, &values, self.width, self.height)
        else {
            return Err(ScreenError::InvalidStrut);
        };
        self.reserve_space(client.reserved, client.direction);
        match self.add_reserved_client(client, mapped) {
            Err(e) => {
                self.free_reserved_space(client.reserved, client.direction);
                Err(e)
            },
            Ok(()) => Ok(()),
        }
    }

    /// Adds `window`, of which `probe` holds what was learnt. A window with
    /// strut values is docked; any other becomes a client in the frame that
    /// was made for it and joins the shown workspace.
    pub fn add_window(&mut self, window: u32, probe: WindowProbe) -> (r: Result<(), ScreenError>)
        requires
            old(self).wf(),
        ensures
            final(self).wf(),
            r == old(self)@.add_outcome(
                window,
                probe.strut_partial@,
                probe.strut@,
                probe.mapped,
                probe.frame,
            ),
            final(self)@ == old(self)@.window_added(
                window,
                probe.strut_partial@,
                probe.strut@,
                probe.mapped,
                probe.frame,
                probe.name,
            ),
    {
        if let Some(values) = strut_values(&probe.strut_partial, &probe.strut) {
            let done = self.handle_reserved_client(window, values, probe.mapped);
            if done.is_ok() {
                self.update_atoms();
            }
            return done;
        }
        let Some(frame) = probe.frame else {
            return Err(ScreenError::FrameFailed);
        };
        let ghost before = self@;
        let ghost made = before.new_client(window, frame, probe.name);
        let client = match Client::new(window, frame, probe.name, self.context.current_workspace) {
            Ok(client) => client,
            Err(ClientError::FrameIsWindow) => {
                return Err(ScreenError::FrameIsWindow);
            },
        };
        let Some(idx) = self.context.insert_client(client) else {
            return Err(ScreenError::AlreadyManaged);
        };
        let i = (self.context.current_workspace - 1) as usize;
        assert(self.workspaces@[i as int]@ == before.workspaces[i as int]);
        self.workspaces[i].spawn_window(idx, &mut self.context);
        proof {
            assert(views_of_workspaces(self.workspaces@) =~= before.workspaces.update(
                i as int,
                before.workspaces[i as int].spawned(idx),
            ));
            lemma_managed_inv(before, made);
        }
        self.publish();
        Ok(())
    }

    /// Takes the client of handle `idx` out of every workspace.
    fn detach(&mut self, idx: usize)
        requires
            old(self).inv(),
        ensures
            final(self).inv(),
            final(self)@ == old(self)@.detached(idx),
    {
        let ghost before = self@;
        let ghost target = before.detached(idx);
        proof {
            before.context.lemma_run_nothing();
            assert(before.workspaces.take(0) =~= Seq::<WorkspaceView>::empty());
        }
        let n = self.workspaces.len();
        for i in 0..n
            invariant
                n == self.workspaces@.len(),
                n == before.workspaces.len(),
                before == old(self)@,
                target == before.detached(idx),
                self.width == old(self).width,
                self.height == old(self).height,
                self.reserved_space_bottom == old(self).reserved_space_bottom,
                self.reserved_space_left == old(self).reserved_space_left,
                self.reserved_space_right == old(self).reserved_space_right,
                self.reserved_space_top == old(self).reserved_space_top,
                self.global_windows == old(self).global_windows,
                self.context.wf(),
                self.context@ == before.context.run(
                    remove_all_script(before.workspaces.take(i as int), idx),
                ),
                forall|k: int|
                    0 <= k < n ==> (#[trigger] self.workspaces@[k])@ == if k < i {
                        target.workspaces[k]
                    } else {
                        before.workspaces[k]
                    },
        {
            let ghost done = remove_all_script(before.workspaces.take(i as int), idx);
            assert(self.workspaces@[i as int]@ == before.workspaces[i as int]);
            self.workspaces[i].remove_window(idx, &mut self.context);
            proof {
                assert(before.workspaces.take(i + 1).drop_last() =~= before.workspaces.take(
                    i as int,
                ));
                assert(before.workspaces.take(i + 1).last() == before.workspaces[i as int]);
                before.context.lemma_run_concat(done, before.workspaces[i as int].remove_script(idx));
            }
        }
        proof {
            assert(before.workspaces.take(n as int) =~= before.workspaces);
            assert(views_of_workspaces(self.workspaces@) =~= target.workspaces);
            assert(self@ == target);
            lemma_detached_inv(before, idx);
        }
    }

    /// Takes the client of handle `window_idx` out of every workspace,
    /// destroys its frame and forgets it.
    fn drop_client(&mut self, window_idx: usize)
        requires
            old(self).wf(),
        ensures
            final(self).wf(),
            final(self)@ == old(self)@.detached(window_idx).ran(
                seq![Step { handle: window_idx, op: ClientOp::Destroy }],
            ).forgotten(window_idx),
    {
        let ghost before = self@;
        self.detach(window_idx);
        proof {
            lemma_detached_inv(before, window_idx);
            lemma_ran_inv(self@, seq![Step { handle: window_idx, op: ClientOp::Destroy }]);
        }
        self.context.apply(window_idx, ClientOp::Destroy);
        proof {
            lemma_forgotten_inv(self@, window_idx);
        }
        self.context.remove_client(window_idx);
        proof {
            before.context.lemma_emit_concat(Seq::empty(), Seq::empty());
            assert(before.told(Seq::empty()) == before);
            lemma_dropped_wf(
                before,
                Seq::empty(),
                seq![Step { handle: window_idx, op: ClientOp::Destroy }],
                window_idx,
            );
        }
    }

    /// Takes the docked window in slot `i` out, if it has the id `window`:
    /// vacates its slot, gives its strip back, and unmaps and destroys it.
    fn undock_slot(&mut self, i: usize, window: u32)
        requires
            old(self).wf(),
        ensures
            final(self).wf(),
            final(self)@.reserved_clients.len() == old(self)@.reserved_clients.len(),
            final(self)@ == match slot(old(self)@.reserved_clients, i as int) {
                Some(client) => if client.window == window {
                    (ScreenView {
                        reserved_clients: removed(old(self)@.reserved_clients, i as int),
                        ..old(self)@
                    }).freed(client.reserved, client.direction).told(
                        seq![
                            RequestView::UnmapWindow { window },
                            RequestView::DestroyWindow { window },
                        ],
                    )
                } else {
                    old(self)@
                },
                None => old(self)@,
            },
    {
        let found = match self.global_windows.get(i) {
            Some(global_window) => global_window.window == window,
            None => false,
        };
        if found {
            let ghost here = self@;
            if let Some(child) = self.global_windows.remove(i) {
                proof {
                    lemma_inv_kept(here, self@);
                }
                self.free_reserved_space(child.reserved, child.direction);
                let ghost freed = self@;
                self.context.emit(Request::UnmapWindow { window: child.window });
                self.context.emit(Request::DestroyWindow { window: child.window });
                proof {
                    freed.context.lemma_emit_concat(
                        seq![RequestView::UnmapWindow { window }],
                        seq![RequestView::DestroyWindow { window }],
                    );
                    assert(seq![RequestView::UnmapWindow { window }] + seq![
                        RequestView::DestroyWindow { window },
                    ] =~= seq![
                        RequestView::UnmapWindow { window },
                        RequestView::DestroyWindow { window },
                    ]);
                    lemma_inv_kept(freed, self@);
                }
            }
        }
    }

    /// Takes every docked window with the id `window` out.
    fn undock(&mut self, window: u32)
        requires
            old(self).wf(),
        ensures
            final(self).wf(),
            final(self)@ == old(self)@.undocked(window, old(self)@.reserved_clients.len() as int),
    {
        let ghost cleared = self@;
        let n = self.global_windows.max_len();
        for i in 0..n
            invariant
                n == self@.reserved_clients.len(),
                n == cleared.reserved_clients.len(),
                self.wf(),
                self@ == cleared.undocked(window, i as int),
        {
            self.undock_slot(i, window);
        }
    }

    /// Removes `window`, which the server reports destroyed or which is to
    /// go: the client that has it as frame or window, and every docked window
    /// with that id.
    pub fn remove_window(&mut self, window: u32)
        requires
            old(self).wf(),
        ensures
            final(self).wf(),
            final(self)@ == old(self)@.window_removed(window),
            final(self)@.context.root_window == old(self)@.context.root_window,
            final(self)@.context.atoms == old(self)@.context.atoms,
    {
        if let Some(window_idx) = self.context.find(window) {
            self.drop_client(window_idx);
        }
        proof {
            lemma_undocked_keeps(self@, window, self@.reserved_clients.len() as int);
        }
        self.undock(window);
        self.update_atoms();
        let ghost published = self@;
        self.context.emit(Request::Flush);
        proof {
            lemma_inv_kept(published, self@);
        }
    }

    /// Closes the client that holds the focus. `delivered` says that its
    /// window takes part in the delete protocol and was sent the message:
    /// then the client stays until the server reports its window destroyed.
    /// Otherwise it is destroyed and removed at once. Nothing is done where
    /// no client holds the focus, or where that client is gone already.
    pub fn close_focused_window(&mut self, delivered: bool)
        requires
            old(self).wf(),
        ensures
            final(self).wf(),
            final(self)@ == old(self)@.closed(delivered),
    {
        let Some(idx) = self.context.focused_window.take() else {
            return ;
        };
        let ghost taken = self@;
        proof {
            lemma_inv_kept(old(self)@, taken);
        }
        let gone = self.context.close(idx, delivered);
        if gone {
            proof {
                assert(self@ == taken.told(
                    close_requests(taken.context.client(idx as int), false),
                ));
                lemma_inv_kept(taken, self@);
            }
            self.detach(idx);
            proof {
                lemma_detached_inv(
                    taken.told(close_requests(taken.context.client(idx as int), false)),
                    idx,
                );
                lemma_forgotten_inv(self@, idx);
            }
            self.context.remove_client(idx);
            proof {
                lemma_published_inv(self@);
                let requests = close_requests(taken.context.client(idx as int), false);
                let detached = taken.told(requests).detached(idx);
                detached.context.lemma_run_nothing();
                assert(detached.ran(Seq::empty()) == detached);
                lemma_members_kept(old(self)@, taken);
                lemma_dropped_wf(taken, requests, Seq::empty(), idx);
            }
            self.publish();
        } else {
            proof {
                taken.context.lemma_emit_concat(Seq::empty(), Seq::empty());
                lemma_members_kept(old(self)@, taken);
            }
        }
    }
}

} // verus!
