//! What a key chord can do, and the chords that are bound at the start.

use vstd::prelude::*;

use crate::keyboard::{MODS_ALT, MODS_CTRL, MODS_SHIFT};
use crate::tiling::Layout;

verus! {

/// The key symbol of the letter q.
pub const KEY_Q: u32 = 0x0071;

/// The key symbol of the letter l.
pub const KEY_L: u32 = 0x006c;

/// The key symbol of the letter p.
pub const KEY_P: u32 = 0x0070;

/// The key symbol of the return key.
pub const KEY_RETURN: u32 = 0xff0d;

/// What a key chord does.
#[derive(Debug, Clone, Copy)]
pub enum ActionType {
    /// Leave the event loop and shut down.
    Quit,
    /// Go on to the next layout in the shown workspace.
    CycleLayout,
    /// Close the client that holds the focus.
    CloseFocusedWindow,
    /// Take the given layout in the shown workspace.
    SwitchToLayout(Layout),
    /// Start the given program.
    Launch(&'static str),
}

/// A key chord and what it does.
#[derive(Debug, Clone, Copy)]
pub struct Action {
    /// The key symbol of the chord.
    pub key: u32,
    /// The modifiers of the chord, made of `MODS_CTRL`, `MODS_SHIFT`,
    /// `MODS_ALT` and `MODS_SUPER`.
    pub mods: u8,
    pub action: ActionType,
}

impl Action {
    pub fn new(key: u32, mods: u8, action: ActionType) -> (r: Self)
        ensures
            r == (Action { key, mods, action }),
    {
        Self { key, mods, action }
    }
}

/// The chords that are bound at the start: Ctrl+Alt+q quits, Shift+Alt+q
/// closes the focused window, Alt+l cycles the layout, Alt+p starts the
/// program launcher and Alt+Return a terminal.
pub open spec fn spec_default_actions() -> Seq<Action> {
    seq![
        Action { key: KEY_Q, mods: MODS_CTRL | MODS_ALT, action: ActionType::Quit },
        Action { key: KEY_Q, mods: MODS_SHIFT | MODS_ALT, action: ActionType::CloseFocusedWindow },
        Action { key: KEY_L, mods: MODS_ALT, action: ActionType::CycleLayout },
        Action { key: KEY_P, mods: MODS_ALT, action: ActionType::Launch("/usr/local/bin/dmenu_run") },
        Action {
            key: KEY_RETURN,
            mods: MODS_ALT,
            action: ActionType::Launch("/usr/local/bin/alacritty"),
        },
    ]
}

/// The chords that are bound at the start.
pub fn default_actions() -> (r: Vec<Action>)
    ensures
        r@ == spec_default_actions(),
{
    let mut actions: Vec<Action> = Vec::new();
    actions.push(Action::new(KEY_Q, MODS_CTRL | MODS_ALT, ActionType::Quit));
    actions.push(Action::new(KEY_Q, MODS_SHIFT | MODS_ALT, ActionType::CloseFocusedWindow));
    actions.push(Action::new(KEY_L, MODS_ALT, ActionType::CycleLayout));
    actions.push(Action::new(KEY_P, MODS_ALT, ActionType::Launch("/usr/local/bin/dmenu_run")));
    actions.push(Action::new(KEY_RETURN, MODS_ALT, ActionType::Launch("/usr/local/bin/alacritty")));
    assert(actions@ =~= spec_default_actions());
    actions
}

} // verus!
