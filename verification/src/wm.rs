//! The reactor: what the manager does for each event.
//!
//! The caller owns the connection to the display server. It reads an event
//! and describes it, asks the reactor what to do, sends the requests that
//! have gathered, and does what the reactor cannot do itself: it starts
//! programs, learns about a new window, and speaks the delete protocol with a
//! window that is to close.

use vstd::prelude::*;

use crate::actions::{Action, ActionType};
use crate::atoms::Atoms;
use crate::config::GAP_SIZE;
use crate::events::{Event, MouseButton};
use crate::keyboard::{
    bound_actions, event_mods, grab_requests, group_index, ungrab_requests, BoundAction, Keyboard,
    KeyboardEvent, KeyboardState, StateNotify,
};
use crate::requests::{
    views_of, Request, RequestQueue, RequestView, EVENT_BUTTON_MOTION, EVENT_BUTTON_PRESS,
    EVENT_BUTTON_RELEASE, EVENT_ENTER_WINDOW, EVENT_KEY_PRESS, EVENT_KEY_RELEASE,
    EVENT_PROPERTY_CHANGE, EVENT_SUBSTRUCTURE_NOTIFY, EVENT_SUBSTRUCTURE_REDIRECT,
};
use crate::screen::{Screen, ScreenError, WindowProbe};
use crate::screen_view::ScreenView;

verus! {

/// The events of the root window that the manager asks for: changes of its
/// children, their requests, the pointer entering, changes of properties,
/// keys, buttons, and the pointer moving with a button down.
pub const ROOT_EVENT_MASK: u32 = EVENT_SUBSTRUCTURE_NOTIFY | EVENT_SUBSTRUCTURE_REDIRECT
    | EVENT_ENTER_WINDOW | EVENT_PROPERTY_CHANGE | EVENT_KEY_PRESS | EVENT_KEY_RELEASE
    | EVENT_BUTTON_PRESS | EVENT_BUTTON_RELEASE | EVENT_BUTTON_MOTION;

/// The glyph of the cursor in the cursor font.
pub const CURSOR_SOURCE_CHAR: u16 = 68;

/// The glyph of the cursor's mask in the cursor font.
pub const CURSOR_MASK_CHAR: u16 = 69;

/// An event as the display server sends it, in plain values.
#[derive(Debug, Clone)]
pub enum RawEvent {
    /// A key went down. `detail` is the key code and `state` the modifier and
    /// button bits; `keysym` and `characters` are what the keymap gives for
    /// the key.
    KeyPress { detail: u8, state: u32, keysym: u32, characters: String },
    /// A key went up.
    KeyRelease { detail: u8, state: u32, keysym: u32 },
    ButtonPress { detail: u8 },
    ButtonRelease { detail: u8 },
    MotionNotify { event_x: i16, event_y: i16, root_x: i16, root_y: i16 },
    EnterNotify { event: u32 },
    MapRequest { window: u32 },
    UnmapNotify { window: u32 },
    DestroyNotify { window: u32 },
    ReparentNotify,
    PropertyNotify { window: u32, atom: u32 },
    /// The state of a keyboard changed.
    StateNotify(StateNotify),
    /// Any other event.
    Other,
}

/// What the caller is to do after the reactor dealt with an event.
#[derive(Debug, Clone, Copy)]
pub enum Outcome {
    /// Nothing: go on with the next event.
    Continue,
    /// Leave the event loop and shut down.
    Quit,
    /// Start this program.
    Launch(&'static str),
    /// Speak the delete protocol with this window, the window of the client
    /// that holds the focus, and report with `close_focused`.
    Close(u32),
    /// Learn about this window, which asks to be mapped, and report with
    /// `map_request`.
    Probe(u32),
}

/// The button number of the wheel turning up.
pub const SCROLL_UP: u8 = 4;

/// The button number of the wheel turning down.
pub const SCROLL_DOWN: u8 = 5;

/// The positions, in the list of actions, of the actions whose chord is the
/// key code `keycode` with the modifiers `mods`, in the order of `bound`.
pub open spec fn matching(bound: Seq<BoundAction>, keycode: u32, mods: u32) -> Seq<usize>
    decreases bound.len(),
{
    if bound.len() == 0 {
        Seq::empty()
    } else {
        let front = matching(bound.drop_last(), keycode, mods);
        if bound.last().key == keycode && bound.last().modifiers == mods {
            front.push(bound.last().action_index)
        } else {
            front
        }
    }
}

/// The requests that set the root window up: the cursor font is opened as
/// `font`, the cursor `cursor` is made of it, and the root window is given
/// the cursor and the event mask of the manager.
pub open spec fn setup_requests(root: u32, font: u32, cursor: u32) -> Seq<RequestView> {
    seq![
        RequestView::OpenCursorFont { fid: font },
        RequestView::CreateGlyphCursor {
            cid: cursor,
            font,
            source_char: CURSOR_SOURCE_CHAR,
            mask_char: CURSOR_MASK_CHAR,
        },
        RequestView::SetRootAttributes { window: root, event_mask: ROOT_EVENT_MASK, cursor },
    ]
}

/// The window manager.
#[derive(Debug)]
pub struct Wm {
    screen: Screen,
    atoms: Atoms,
    keyboard: Keyboard,
    root: u32,
    actions: Vec<Action>,
    bound_actions: Vec<BoundAction>,
}

impl Wm {
    /// The screen, as a mathematical value.
    pub closed spec fn screen_view(&self) -> ScreenView {
        self.screen@
    }

    /// The keyboard.
    pub closed spec fn spec_keyboard(&self) -> Keyboard {
        self.keyboard
    }

    /// The root window.
    pub closed spec fn spec_root(&self) -> u32 {
        self.root
    }

    /// The atoms of the property names.
    pub closed spec fn spec_atoms(&self) -> Atoms {
        self.atoms
    }

    /// The actions that were bound.
    pub closed spec fn spec_actions(&self) -> Seq<Action> {
        self.actions@
    }

    /// The chords that are grabbed.
    pub closed spec fn spec_bound(&self) -> Seq<BoundAction> {
        self.bound_actions@
    }

    /// The screen is in order and is that of the root window.
    pub closed spec fn wf(&self) -> bool {
        &&& self.screen.wf()
        &&& self.screen@.context.root_window == self.root
    }

    /// What `wf` says of the screen.
    pub proof fn lemma_wf(&self)
        requires
            self.wf(),
        ensures
            self.screen_view().wf(),
            self.screen_view().context.root_window == self.spec_root(),
    {
        self.screen.lemma_wf();
    }

    /// The requests that set the root window up. The manager can go on only
    /// if all of them go well: the last one fails where another manager runs.
    pub fn setup(root: u32, font: u32, cursor: u32) -> (r: Vec<Request>)
        ensures
            views_of(r@) == setup_requests(root, font, cursor),
    {
        let mut out: Vec<Request> = Vec::new();
        out.push(Request::OpenCursorFont { fid: font });
        out.push(
            Request::CreateGlyphCursor {
                cid: cursor,
                font,
                source_char: CURSOR_SOURCE_CHAR,
                mask_char: CURSOR_MASK_CHAR,
            },
        );
        out.push(Request::SetRootAttributes { window: root, event_mask: ROOT_EVENT_MASK, cursor });
        assert(views_of(out@) =~= setup_requests(root, font, cursor));
        out
    }

    /// The manager of the root window `root` of size `width` by `height`,
    /// with no chord bound yet.
    pub fn new(root: u32, width: u16, height: u16, atoms: Atoms, keyboard: Keyboard) -> (r: Self)
        ensures
            r.wf(),
            r.screen_view() == ScreenView::started(width, height, GAP_SIZE, atoms, root),
            r.spec_keyboard() == keyboard,
            r.spec_root() == root,
            r.spec_atoms() == atoms,
            r.spec_actions() == Seq::<Action>::empty(),
            r.spec_bound() == Seq::<BoundAction>::empty(),
    {
        let screen = Screen::new(width, height, GAP_SIZE, atoms, root);
        proof {
            screen.lemma_wf();
        }
        Wm { screen, atoms, keyboard, root, actions: Vec::new(), bound_actions: Vec::new() }
    }

    /// Binds `actions`: grabs the chord of each action whose key symbol some
    /// key gives.
    pub fn bind(&mut self, actions: Vec<Action>)
        requires
            old(self).wf(),
        ensures
            final(self).wf(),
            final(self).spec_keyboard() == old(self).spec_keyboard(),
            final(self).spec_root() == old(self).spec_root(),
            final(self).spec_actions() == actions@,
            final(self).spec_bound() == bound_actions(old(self).spec_keyboard().keys(), actions@),
            final(self).screen_view() == old(self).screen_view().told(
                grab_requests(final(self).spec_bound(), old(self).spec_root()),
            ),
    {
        let mut queue = RequestQueue::new();
        let bound = self.keyboard.bind_actions(&actions, self.root, &mut queue);
        let requests = queue.take();
        assert(views_of(requests@) =~= grab_requests(bound@, self.root));
        self.screen.push_requests(requests);
        self.actions = actions;
        self.bound_actions = bound;
    }

    /// The event that the manager sees in the server's event `event`, if any.
    /// A turn of the wheel is seen when its button goes down, not when it
    /// goes up; a button other than the five is not seen; a change of the
    /// state of the manager's keyboard is taken in and not seen.
    pub fn translate_event(&mut self, event: Option<RawEvent>) -> (r: Option<Event>)
        requires
            old(self).wf(),
        ensures
            final(self).wf(),
            final(self).screen_view() == old(self).screen_view(),
            final(self).spec_root() == old(self).spec_root(),
            final(self).spec_actions() == old(self).spec_actions(),
            final(self).spec_bound() == old(self).spec_bound(),
            final(self).spec_keyboard().keys() == old(self).spec_keyboard().keys(),
            final(self).spec_keyboard().spec_device_id() == old(self).spec_keyboard().spec_device_id(),
            match event {
                Some(RawEvent::StateNotify(notify)) => r is None && if notify.device_id as i32 == old(self).spec_keyboard().spec_device_id() {
                    final(self).spec_keyboard().spec_state() == (KeyboardState {
                        base_mods: notify.base_mods,
                        latched_mods: notify.latched_mods,
                        locked_mods: notify.locked_mods,
                        base_group: group_index(notify.base_group),
                        latched_group: group_index(notify.latched_group),
                        locked_group: notify.locked_group as u32,
                    })
                } else {
                    final(self).spec_keyboard() == old(self).spec_keyboard()
                },
                _ => final(self).spec_keyboard() == old(self).spec_keyboard(),
            },
            match event {
                None => r is None,
                Some(RawEvent::KeyPress { detail, state, keysym, characters }) => (r matches Some(
                    Event::KeyPress(e),
                ) && e.key == keysym && e.characters == characters && e.mods == event_mods(state)
                    && e.keycode == detail),
                Some(RawEvent::KeyRelease { detail, state, keysym }) => (r matches Some(
                    Event::KeyRelease(e),
                ) && e.key == keysym && e.characters@ == Seq::<char>::empty() && e.mods
                    == event_mods(state) && e.keycode == detail),
                Some(RawEvent::ButtonPress { detail }) => if detail == SCROLL_UP {
                    r matches Some(Event::MouseScroll(turn)) && turn == -1
                } else if detail == SCROLL_DOWN {
                    r matches Some(Event::MouseScroll(turn)) && turn == 1
                } else if detail == 1 {
                    r matches Some(Event::ButtonPress(MouseButton::Left))
                } else if detail == 2 {
                    r matches Some(Event::ButtonPress(MouseButton::Middle))
                } else if detail == 3 {
                    r matches Some(Event::ButtonPress(MouseButton::Right))
                } else {
                    r is None
                },
                Some(RawEvent::ButtonRelease { detail }) => if detail == 1 {
                    r matches Some(Event::ButtonRelease(MouseButton::Left))
                } else if detail == 2 {
                    r matches Some(Event::ButtonRelease(MouseButton::Middle))
                } else if detail == 3 {
                    r matches Some(Event::ButtonRelease(MouseButton::Right))
                } else {
                    r is None
                },
                Some(RawEvent::MotionNotify { event_x, event_y, root_x, root_y }) => (r matches Some(
                    Event::MouseMove { window_x, window_y, absolute_x, absolute_y },
                ) && window_x == event_x && window_y == event_y && absolute_x == root_x
                    && absolute_y == root_y),
                Some(RawEvent::EnterNotify { event }) => (r matches Some(Event::EnterNotify(w)) && w
                    == event),
                Some(RawEvent::MapRequest { window }) => (r matches Some(Event::MapRequest(w)) && w
                    == window),
                Some(RawEvent::UnmapNotify { window }) => (r matches Some(Event::UnmapNotify(w))
                    && w == window),
                Some(RawEvent::DestroyNotify { window }) => (r matches Some(
                    Event::DestroyNotify(w),
                ) && w == window),
                Some(RawEvent::ReparentNotify) => r is None,
                Some(RawEvent::PropertyNotify { .. }) => r is None,
                Some(RawEvent::StateNotify(_)) => r is None,
                Some(RawEvent::Other) => r is None,
            },
    {
        let Some(event) = event else {
            return None;
        };
        match event {
            RawEvent::KeyPress { detail, state, keysym, characters } => Some(
                self.keyboard.translate_event(detail, state, keysym, characters, true),
            ),
            RawEvent::KeyRelease { detail, state, keysym } => Some(
                self.keyboard.translate_event(detail, state, keysym, String::new(), false),
            ),
            RawEvent::ButtonPress { detail } => {
                if detail == SCROLL_UP {
                    Some(Event::MouseScroll(-1))
                } else if detail == SCROLL_DOWN {
                    Some(Event::MouseScroll(1))
                } else {
                    match MouseButton::try_from(detail) {
                        Ok(button) => Some(Event::ButtonPress(button)),
                        Err(_) => None,
                    }
                }
            },
            RawEvent::ButtonRelease { detail } => {
                if detail == SCROLL_UP || detail == SCROLL_DOWN {
                    None
                } else {
                    match MouseButton::try_from(detail) {
                        Ok(button) => Some(Event::ButtonRelease(button)),
                        Err(_) => None,
                    }
                }
            },
            RawEvent::MotionNotify { event_x, event_y, root_x, root_y } => Some(
                Event::MouseMove {
                    absolute_x: root_x,
                    absolute_y: root_y,
                    window_x: event_x,
                    window_y: event_y,
                },
            ),
            RawEvent::EnterNotify { event } => Some(Event::EnterNotify(event)),
            RawEvent::MapRequest { window } => Some(Event::MapRequest(window)),
            RawEvent::UnmapNotify { window } => Some(Event::UnmapNotify(window)),
            RawEvent::DestroyNotify { window } => Some(Event::DestroyNotify(window)),
            RawEvent::ReparentNotify => None,
            RawEvent::PropertyNotify { .. } => None,
            RawEvent::StateNotify(notify) => {
                if notify.device_id as i32 == self.keyboard.device_id() {
                    self.keyboard.update_state(notify);
                }
                None
            },
            RawEvent::Other => None,
        }
    }

    /// The positions, in the list of actions, of the actions that the key
    /// press `ev` calls for: those whose chord is the key code and the
    /// modifiers of `ev`, in the order in which they were bound.
    pub fn matching_actions(&self, ev: &KeyboardEvent) -> (r: Vec<usize>)
        ensures
            r@ == matching(self.spec_bound(), ev.keycode, ev.mods),
    {
        let mut found: Vec<usize> = Vec::new();
        let n = self.bound_actions.len();
        assert(self.bound_actions@.take(0) =~= Seq::<BoundAction>::empty());
        for i in 0..n
            invariant
                n == self.bound_actions@.len(),
                found@ == matching(self.bound_actions@.take(i as int), ev.keycode, ev.mods),
        {
            assert(self.bound_actions@.take(i + 1).drop_last() =~= self.bound_actions@.take(
                i as int,
            ));
            assert(self.bound_actions@.take(i + 1).last() == self.bound_actions@[i as int]);
            let action = &self.bound_actions[i];
            if action.key == ev.keycode && action.modifiers == ev.mods {
                found.push(action.action_index);
            }
        }
        assert(self.bound_actions@.take(n as int) =~= self.bound_actions@);
        found
    }

    /// The screen after the action `action` was performed, as far as the
    /// reactor performs it itself.
    pub open spec fn performed(screen: ScreenView, action: ActionType) -> ScreenView {
        match action {
            ActionType::Quit => screen,
            ActionType::CycleLayout => screen.cycled(),
            ActionType::CloseFocusedWindow => if screen.context.focused_window is Some
                && screen.context.live(screen.context.focused_window.unwrap() as int) {
                screen
            } else {
                screen.closed(false)
            },
            ActionType::SwitchToLayout(layout) => screen.with_layout(layout),
            ActionType::Launch(_) => screen,
        }
    }

    /// What the caller is to do for the action `action`.
    pub open spec fn outcome_of(screen: ScreenView, action: ActionType) -> Outcome {
        match action {
            ActionType::Quit => Outcome::Quit,
            ActionType::CycleLayout => Outcome::Continue,
            ActionType::CloseFocusedWindow => if screen.context.focused_window is Some
                && screen.context.live(screen.context.focused_window.unwrap() as int) {
                Outcome::Close(
                    screen.context.client(screen.context.focused_window.unwrap() as int).window,
                )
            } else {
                Outcome::Continue
            },
            ActionType::SwitchToLayout(_) => Outcome::Continue,
            ActionType::Launch(command) => Outcome::Launch(command),
        }
    }

    /// Performs the action at position `action_index` of the list of
    /// actions, as far as the reactor can: it changes the layout itself, and
    /// leaves quitting, starting a program and the delete protocol to the
    /// caller. Nothing is done where there is no such action.
    pub fn perform(&mut self, action_index: usize) -> (r: Outcome)
        requires
            old(self).wf(),
        ensures
            final(self).wf(),
            final(self).spec_keyboard() == old(self).spec_keyboard(),
            final(self).spec_root() == old(self).spec_root(),
            final(self).spec_actions() == old(self).spec_actions(),
            final(self).spec_bound() == old(self).spec_bound(),
            action_index < old(self).spec_actions().len() ==> r == Self::outcome_of(
                old(self).screen_view(),
                old(self).spec_actions()[action_index as int].action,
            ) && final(self).screen_view() == Self::performed(
                old(self).screen_view(),
                old(self).spec_actions()[action_index as int].action,
            ),
            action_index >= old(self).spec_actions().len() ==> r is Continue && final(self).screen_view() == old(self).screen_view(),
    {
        if action_index >= self.actions.len() {
            return Outcome::Continue;
        }
        match self.actions[action_index].action {
            ActionType::Quit => Outcome::Quit,
            ActionType::CycleLayout => {
                self.screen.cycle_layout();
                Outcome::Continue
            },
            ActionType::CloseFocusedWindow => {
                let window = match self.screen.focused_client() {
                    Some(client) => Some(client.window),
                    None => None,
                };
                match window {
                    Some(window) => Outcome::Close(window),
                    None => {
                        self.screen.close_focused_window(false);
                        Outcome::Continue
                    },
                }
            },
            ActionType::SwitchToLayout(new_layout) => {
                self.screen.set_layout(new_layout);
                Outcome::Continue
            },
            ActionType::Launch(command) => Outcome::Launch(command),
        }
    }

    /// Deals with an event that is no key press: a window that asks to be
    /// mapped is left to the caller to learn about, a window that was
    /// destroyed is removed, and the focus follows the pointer into a window.
    /// Nothing is done for any other event.
    pub fn handle_event(&mut self, ev: &Event) -> (r: Outcome)
        requires
            old(self).wf(),
        ensures
            final(self).wf(),
            final(self).spec_keyboard() == old(self).spec_keyboard(),
            final(self).spec_root() == old(self).spec_root(),
            final(self).spec_actions() == old(self).spec_actions(),
            final(self).spec_bound() == old(self).spec_bound(),
            match *ev {
                Event::MapRequest(window) => (r matches Outcome::Probe(w) && w == window) && final(self).screen_view() == old(self).screen_view(),
                Event::DestroyNotify(window) => r is Continue && final(self).screen_view() == old(self).screen_view().window_removed(window),
                Event::EnterNotify(window) => r is Continue && final(self).screen_view() == old(self).screen_view().entered(window),
                _ => r is Continue && final(self).screen_view() == old(self).screen_view(),
            },
    {
        match ev {
            Event::MapRequest(window) => Outcome::Probe(*window),
            Event::DestroyNotify(window) => {
                self.screen.remove_window(*window);
                Outcome::Continue
            },
            Event::EnterNotify(window) => {
                self.screen.enter_client(*window);
                Outcome::Continue
            },
            _ => Outcome::Continue,
        }
    }

    /// Adds `window`, which asked to be mapped and of which `probe` holds
    /// what was learnt. Where that fails the window is destroyed.
    pub fn map_request(&mut self, window: u32, probe: WindowProbe) -> (r: Result<(), ScreenError>)
        requires
            old(self).wf(),
        ensures
            final(self).wf(),
            final(self).spec_keyboard() == old(self).spec_keyboard(),
            final(self).spec_root() == old(self).spec_root(),
            final(self).spec_actions() == old(self).spec_actions(),
            final(self).spec_bound() == old(self).spec_bound(),
            r == old(self).screen_view().add_outcome(
                window,
                probe.strut_partial@,
                probe.strut@,
                probe.mapped,
                probe.frame,
            ),
            r is Ok ==> final(self).screen_view() == old(self).screen_view().window_added(
                window,
                probe.strut_partial@,
                probe.strut@,
                probe.mapped,
                probe.frame,
                probe.name,
            ),
            r is Err ==> final(self).screen_view() == old(self).screen_view().window_added(
                window,
                probe.strut_partial@,
                probe.strut@,
                probe.mapped,
                probe.frame,
                probe.name,
            ).told(seq![RequestView::DestroyWindow { window }]),
    {
        let done = self.screen.add_window(window, probe);
        if done.is_err() {
            let mut destroy: Vec<Request> = Vec::new();
            destroy.push(Request::DestroyWindow { window });
            assert(views_of(destroy@) =~= seq![RequestView::DestroyWindow { window }]);
            self.screen.push_requests(destroy);
        }
        proof {
            self.screen.lemma_wf();
            self.lemma_root_kept(old(self), window, probe);
        }
        done
    }

    /// Adding a window leaves the root window what it is.
    proof fn lemma_root_kept(&self, before: &Wm, window: u32, probe: WindowProbe)
        requires
            before.wf(),
            self.root == before.root,
            self.screen@ == before.screen@.window_added(
                window,
                probe.strut_partial@,
                probe.strut@,
                probe.mapped,
                probe.frame,
                probe.name,
            ) || self.screen@ == before.screen@.window_added(
                window,
                probe.strut_partial@,
                probe.strut@,
                probe.mapped,
                probe.frame,
                probe.name,
            ).told(seq![RequestView::DestroyWindow { window }]),
        ensures
            self.screen@.context.root_window == self.root,
    {
    }

    /// Closes the client that holds the focus, after the caller spoke the
    /// delete protocol with its window. `delivered` says that the window
    /// takes part in the protocol and was sent the message.
    pub fn close_focused(&mut self, delivered: bool)
        requires
            old(self).wf(),
        ensures
            final(self).wf(),
            final(self).spec_keyboard() == old(self).spec_keyboard(),
            final(self).spec_root() == old(self).spec_root(),
            final(self).spec_actions() == old(self).spec_actions(),
            final(self).spec_bound() == old(self).spec_bound(),
            final(self).screen_view() == old(self).screen_view().closed(delivered),
    {
        self.screen.close_focused_window(delivered);
    }

    /// Shuts down: gives up the grabs of the chords and destroys every
    /// window.
    pub fn shutdown(&mut self)
        requires
            old(self).wf(),
        ensures
            final(self).wf(),
            final(self).spec_keyboard() == old(self).spec_keyboard(),
            final(self).spec_root() == old(self).spec_root(),
            final(self).spec_actions() == old(self).spec_actions(),
            final(self).spec_bound() == Seq::<BoundAction>::empty(),
            final(self).screen_view() == old(self).screen_view().told(
                ungrab_requests(old(self).spec_bound(), old(self).spec_root()),
            ).killed(),
    {
        let mut queue = RequestQueue::new();
        self.keyboard.unbind_actions(&self.bound_actions, self.root, &mut queue);
        let requests = queue.take();
        assert(views_of(requests@) =~= ungrab_requests(self.bound_actions@, self.root));
        self.screen.push_requests(requests);
        self.screen.kill_children();
        self.bound_actions.clear();
    }

    /// Hands out the requests that wait to be sent, oldest first, and leaves
    /// none.
    pub fn take_requests(&mut self) -> (r: Vec<Request>)
        requires
            old(self).wf(),
        ensures
            final(self).wf(),
            final(self).spec_keyboard() == old(self).spec_keyboard(),
            final(self).spec_root() == old(self).spec_root(),
            final(self).spec_actions() == old(self).spec_actions(),
            final(self).spec_bound() == old(self).spec_bound(),
            views_of(r@) == old(self).screen_view().context.requests,
            final(self).screen_view() == (ScreenView {
                context: crate::context::ContextView {
                    requests: Seq::empty(),
                    ..old(self).screen_view().context
                },
                ..old(self).screen_view()
            }),
    {
        self.screen.take_requests()
    }

    /// The screen.
    pub fn screen(&self) -> (r: &Screen)
        ensures
            r@ == self.screen_view(),
            self.wf() ==> r.wf(),
    {
        &self.screen
    }

    /// The keyboard.
    pub fn keyboard(&self) -> (r: &Keyboard)
        ensures
            *r == self.spec_keyboard(),
    {
        &self.keyboard
    }

    /// The atoms of the property names.
    pub fn atoms(&self) -> (r: Atoms)
        ensures
            r == self.spec_atoms(),
    {
        self.atoms
    }

    /// The root window.
    pub fn root(&self) -> (r: u32)
        ensures
            r == self.spec_root(),
    {
        self.root
    }

    /// The chords that are grabbed.
    pub fn bound_actions(&self) -> (r: &Vec<BoundAction>)
        ensures
            r@ == self.spec_bound(),
    {
        &self.bound_actions
    }
}

} // verus!
