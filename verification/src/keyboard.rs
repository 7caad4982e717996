//! Keys: modifiers, the chords that are grabbed, and key events.
//!
//! The keymap belongs to the display server. The keyboard here holds what was
//! read of it: for each key code, in the keymap's order, the key symbol it
//! gives; and the state of modifiers and groups that the server last
//! reported.

use vstd::prelude::*;

use crate::actions::Action;
use crate::events::Event;
use crate::requests::{Request, RequestQueue, RequestView};

verus! {

/// Chord modifier: control.
pub const MODS_CTRL: u8 = 0x01;

/// Chord modifier: shift.
pub const MODS_SHIFT: u8 = 0x02;

/// Chord modifier: alt.
pub const MODS_ALT: u8 = 0x04;

/// Chord modifier: super.
pub const MODS_SUPER: u8 = 0x08;

/// All chord modifiers.
pub const MODS_MASK: u8 = 0x0f;

/// Server modifier bit: shift.
pub const MOD_SHIFT: u32 = 0x0001;

/// Server modifier bit: caps lock.
pub const MOD_LOCK: u32 = 0x0002;

/// Server modifier bit: control.
pub const MOD_CONTROL: u32 = 0x0004;

/// Server modifier bit: the first modifier, which stands for alt.
pub const MOD_1: u32 = 0x0008;

/// Server modifier bit: the second modifier, which stands for num lock.
pub const MOD_2: u32 = 0x0010;

/// Server modifier bit: the third modifier, which stands for scroll lock.
pub const MOD_3: u32 = 0x0020;

/// Server modifier bit: the fourth modifier, which stands for super.
pub const MOD_4: u32 = 0x0040;

/// Server modifier bit: the fifth modifier.
pub const MOD_5: u32 = 0x0080;

/// Server modifier bit: any modifier.
pub const MOD_ANY: u32 = 0x8000;

/// All server modifier bits.
pub const MOD_ALL: u32 = 0x80ff;

/// A key press or release.
#[derive(Debug, Clone)]
pub struct KeyboardEvent {
    /// The key symbol.
    pub key: u32,
    /// The text that the key gives; empty for a release.
    pub characters: String,
    /// The server modifier bits that were set when the event happened.
    pub mods: u32,
    /// The key code.
    pub keycode: u32,
}

impl KeyboardEvent {
    pub fn is_shift(&self) -> (r: bool)
        ensures
            r == (self.mods & MOD_SHIFT == MOD_SHIFT),
    {
        self.mods & MOD_SHIFT == MOD_SHIFT
    }

    pub fn is_caps_lock(&self) -> (r: bool)
        ensures
            r == (self.mods & MOD_LOCK == MOD_LOCK),
    {
        self.mods & MOD_LOCK == MOD_LOCK
    }

    pub fn is_ctrl(&self) -> (r: bool)
        ensures
            r == (self.mods & MOD_CONTROL == MOD_CONTROL),
    {
        self.mods & MOD_CONTROL == MOD_CONTROL
    }

    pub fn is_alt(&self) -> (r: bool)
        ensures
            r == (self.mods & MOD_1 == MOD_1),
    {
        self.mods & MOD_1 == MOD_1
    }

    pub fn is_num_lock(&self) -> (r: bool)
        ensures
            r == (self.mods & MOD_2 == MOD_2),
    {
        self.mods & MOD_2 == MOD_2
    }

    pub fn is_scroll_lock(&self) -> (r: bool)
        ensures
            r == (self.mods & MOD_3 == MOD_3),
    {
        self.mods & MOD_3 == MOD_3
    }

    pub fn is_super(&self) -> (r: bool)
        ensures
            r == (self.mods & MOD_4 == MOD_4),
    {
        self.mods & MOD_4 == MOD_4
    }
}

/// A key code and the key symbol that the keymap gives for it.
#[derive(Debug, Clone, Copy, PartialEq, Eq, Structural)]
pub struct KeymapEntry {
    pub keycode: u32,
    pub keysym: u32,
}

/// The modifiers and groups that the server reports when the state of the
/// keyboard changes.
#[derive(Debug, Clone, Copy, PartialEq, Eq, Structural)]
pub struct StateNotify {
    pub device_id: u8,
    pub base_mods: u32,
    pub latched_mods: u32,
    pub locked_mods: u32,
    pub base_group: i16,
    pub latched_group: i16,
    pub locked_group: u8,
}

/// The state of modifiers and groups that is kept.
#[derive(Debug, Clone, Copy, PartialEq, Eq, Structural)]
pub struct KeyboardState {
    pub base_mods: u32,
    pub latched_mods: u32,
    pub locked_mods: u32,
    pub base_group: u32,
    pub latched_group: u32,
    pub locked_group: u32,
}

/// A chord that is grabbed: the key code and the server modifier bits that
/// make it, and the position of its action in the list of actions.
#[derive(Debug, Clone, Copy, PartialEq, Eq, Structural)]
pub struct BoundAction {
    pub key: u32,
    pub modifiers: u32,
    pub action_index: usize,
}

/// `group` as a layout index: a negative group counts down from 2 to the 32.
pub open spec fn group_index(group: i16) -> u32 {
    if group >= 0 {
        group as u32
    } else {
        (group + 0x1_0000_0000) as u32
    }
}

/// `mods` with `bit` added where `wanted` holds.
pub open spec fn with_bit(mods: u32, wanted: bool, bit: u32) -> u32 {
    if wanted {
        mods | bit
    } else {
        mods
    }
}

/// The server modifier bits of the chord modifiers `mods`: control for
/// control, shift for shift, the first modifier for alt and the fourth for
/// super.
pub open spec fn server_mods(mods: u8) -> u32 {
    with_bit(
        with_bit(
            with_bit(with_bit(0, mods & MODS_CTRL > 0, MOD_CONTROL), mods & MODS_SHIFT > 0, MOD_SHIFT),
            mods & MODS_ALT > 0,
            MOD_1,
        ),
        mods & MODS_SUPER > 0,
        MOD_4,
    )
}

/// The server modifier bits of the chord modifiers `mods`.
pub fn translate_mods(mods: u8) -> (r: u32)
    ensures
        r == server_mods(mods),
{
    let mut modifiers: u32 = 0;
    if mods & MODS_CTRL > 0 {
        modifiers |= MOD_CONTROL;
    }
    if mods & MODS_SHIFT > 0 {
        modifiers |= MOD_SHIFT;
    }
    if mods & MODS_ALT > 0 {
        modifiers |= MOD_1;
    }
    if mods & MODS_SUPER > 0 {
        modifiers |= MOD_4;
    }
    modifiers
}

/// The server modifier bits of a chord are exactly those of its modifiers:
/// each of control, shift, the first and the fourth modifier is set where the
/// chord has control, shift, alt and super, and no other bit is set.
pub proof fn law_server_mods(mods: u8)
    ensures
        server_mods(mods) & MOD_CONTROL == MOD_CONTROL <==> mods & MODS_CTRL == MODS_CTRL,
        server_mods(mods) & MOD_SHIFT == MOD_SHIFT <==> mods & MODS_SHIFT == MODS_SHIFT,
        server_mods(mods) & MOD_1 == MOD_1 <==> mods & MODS_ALT == MODS_ALT,
        server_mods(mods) & MOD_4 == MOD_4 <==> mods & MODS_SUPER == MODS_SUPER,
        server_mods(mods) & !(MOD_CONTROL | MOD_SHIFT | MOD_1 | MOD_4) == 0,
{
    let c = mods & MODS_CTRL > 0;
    let s = mods & MODS_SHIFT > 0;
    let a = mods & MODS_ALT > 0;
    let w = mods & MODS_SUPER > 0;
    let m = server_mods(mods);
    assert(m == (if c { 4u32 } else { 0u32 }) | (if s { 1u32 } else { 0u32 }) | (if a { 8u32 } else { 0u32 })
        | (if w { 0x40u32 } else { 0u32 })) by {
        assert(forall|x: u32, y: u32| #![auto] x | y == y | x) by (bit_vector);
        assert(forall|x: u32| #![auto] x | 0 == x) by (bit_vector);
        assert(forall|x: u32| #![auto] 0 | x == x) by (bit_vector);
    }
    assert(mods & 1 > 0 <==> mods & 1 == 1) by (bit_vector);
    assert(mods & 2 > 0 <==> mods & 2 == 2) by (bit_vector);
    assert(mods & 4 > 0 <==> mods & 4 == 4) by (bit_vector);
    assert(mods & 8 > 0 <==> mods & 8 == 8) by (bit_vector);
    let x1: u32 = if c { 4u32 } else { 0u32 };
    let x2: u32 = if s { 1u32 } else { 0u32 };
    let x3: u32 = if a { 8u32 } else { 0u32 };
    let x4: u32 = if w { 0x40u32 } else { 0u32 };
    assert((x1 | x2 | x3 | x4) & 4 == 4 <==> x1 == 4) by (bit_vector)
        requires
            x1 == 4 || x1 == 0,
            x2 == 1 || x2 == 0,
            x3 == 8 || x3 == 0,
            x4 == 0x40 || x4 == 0,
    ;
    assert((x1 | x2 | x3 | x4) & 1 == 1 <==> x2 == 1) by (bit_vector)
        requires
            x1 == 4 || x1 == 0,
            x2 == 1 || x2 == 0,
            x3 == 8 || x3 == 0,
            x4 == 0x40 || x4 == 0,
    ;
    assert((x1 | x2 | x3 | x4) & 8 == 8 <==> x3 == 8) by (bit_vector)
        requires
            x1 == 4 || x1 == 0,
            x2 == 1 || x2 == 0,
            x3 == 8 || x3 == 0,
            x4 == 0x40 || x4 == 0,
    ;
    assert((x1 | x2 | x3 | x4) & 0x40 == 0x40 <==> x4 == 0x40) by (bit_vector)
        requires
            x1 == 4 || x1 == 0,
            x2 == 1 || x2 == 0,
            x3 == 8 || x3 == 0,
            x4 == 0x40 || x4 == 0,
    ;
    assert((x1 | x2 | x3 | x4) & !(4u32 | 1u32 | 8u32 | 0x40u32) == 0) by (bit_vector)
        requires
            x1 == 4 || x1 == 0,
            x2 == 1 || x2 == 0,
            x3 == 8 || x3 == 0,
            x4 == 0x40 || x4 == 0,
    ;
}

/// The key code of the first entry of `keys` that gives `keysym`.
pub open spec fn first_keycode(keys: Seq<KeymapEntry>, keysym: u32) -> Option<u32>
    decreases keys.len(),
{
    if keys.len() == 0 {
        None
    } else if keys[0].keysym == keysym {
        Some(keys[0].keycode)
    } else {
        first_keycode(keys.drop_first(), keysym)
    }
}

/// The chords that are grabbed for `actions` under the keymap `keys`: one for
/// each action whose key symbol some key gives, in the order of the actions.
pub open spec fn bound_actions(keys: Seq<KeymapEntry>, actions: Seq<Action>) -> Seq<BoundAction>
    decreases actions.len(),
{
    if actions.len() == 0 {
        Seq::empty()
    } else {
        let front = bound_actions(keys, actions.drop_last());
        match first_keycode(keys, actions.last().key) {
            Some(key) => front.push(
                BoundAction {
                    key,
                    modifiers: server_mods(actions.last().mods),
                    action_index: (actions.len() - 1) as usize,
                },
            ),
            None => front,
        }
    }
}

/// The key code as the server takes it in a grab: its low eight bits.
pub open spec fn grab_key(keycode: u32) -> u8 {
    (keycode & 0xff) as u8
}

/// The requests that grab the chords of `bound` on `root_window`.
pub open spec fn grab_requests(bound: Seq<BoundAction>, root_window: u32) -> Seq<RequestView> {
    Seq::new(
        bound.len(),
        |i: int|
            RequestView::GrabKey {
                window: root_window,
                key: grab_key(bound[i].key),
                modifiers: bound[i].modifiers,
            },
    )
}

/// The requests that give up the grabs of the chords of `bound` on
/// `root_window`.
pub open spec fn ungrab_requests(bound: Seq<BoundAction>, root_window: u32) -> Seq<RequestView> {
    Seq::new(
        bound.len(),
        |i: int|
            RequestView::UngrabKey {
                window: root_window,
                key: grab_key(bound[i].key),
                modifiers: bound[i].modifiers,
            },
    )
}

/// The server modifier bits among the bits of the state of an event.
pub open spec fn event_mods(state: u32) -> u32 {
    state & MOD_ALL
}

/// The modifier mask made of the bits `state`, as bits again. This is
/// `xcb::x::ModMask::from_bits_truncate` followed by `bits`; the mask has the
/// flags `SHIFT`, `LOCK`, `CONTROL`, `N1` to `N5` and `ANY`, which are the
/// bits 0 to 7 and 15. The claim, which is not proved: the bits of `state`
/// that are flags of the mask are kept and every other bit is dropped.
#[verifier::external_body]
fn mod_mask_bits(state: u32) -> (r: u32)
    ensures
        r == event_mods(state),
{
    xcb::x::ModMask::from_bits_truncate(state).bits()
}

/// What the keyboard is known to be.
#[derive(Debug, Clone)]
pub struct Keyboard {
    device_id: i32,
    keys: Vec<KeymapEntry>,
    state: KeyboardState,
}

impl Keyboard {
    /// The id of the device.
    pub closed spec fn spec_device_id(&self) -> i32 {
        self.device_id
    }

    /// The keymap: for each key code, in the keymap's order, the key symbol
    /// it gives.
    pub closed spec fn keys(&self) -> Seq<KeymapEntry> {
        self.keys@
    }

    /// The state of modifiers and groups that was last reported.
    pub closed spec fn spec_state(&self) -> KeyboardState {
        self.state
    }

    /// The keyboard of device `device_id` with the keymap `keys`, no modifier
    /// set and the first group in use.
    pub fn new(device_id: i32, keys: Vec<KeymapEntry>) -> (r: Self)
        ensures
            r.spec_device_id() == device_id,
            r.keys() == keys@,
            r.spec_state() == (KeyboardState {
                base_mods: 0,
                latched_mods: 0,
                locked_mods: 0,
                base_group: 0,
                latched_group: 0,
                locked_group: 0,
            }),
    {
        Keyboard {
            device_id,
            keys,
            state: KeyboardState {
                base_mods: 0,
                latched_mods: 0,
                locked_mods: 0,
                base_group: 0,
                latched_group: 0,
                locked_group: 0,
            },
        }
    }

    pub fn device_id(&self) -> (r: i32)
        ensures
            r == self.spec_device_id(),
    {
        self.device_id
    }

    /// The state of modifiers and groups that was last reported.
    pub fn state(&self) -> (r: KeyboardState)
        ensures
            r == self.spec_state(),
    {
        self.state
    }

    /// Takes the modifiers and groups of `event` as the state.
    pub fn update_state(&mut self, event: StateNotify)
        ensures
            final(self).spec_device_id() == old(self).spec_device_id(),
            final(self).keys() == old(self).keys(),
            final(self).spec_state() == (KeyboardState {
                base_mods: event.base_mods,
                latched_mods: event.latched_mods,
                locked_mods: event.locked_mods,
                base_group: group_index(event.base_group),
                latched_group: group_index(event.latched_group),
                locked_group: event.locked_group as u32,
            }),
    {
        self.state =
        KeyboardState {
            base_mods: event.base_mods,
            latched_mods: event.latched_mods,
            locked_mods: event.locked_mods,
            base_group: Self::layout_index(event.base_group),
            latched_group: Self::layout_index(event.latched_group),
            locked_group: event.locked_group as u32,
        };
    }

    /// `group` as a layout index.
    fn layout_index(group: i16) -> (r: u32)
        ensures
            r == group_index(group),
    {
        if group >= 0 {
            group as u32
        } else {
            (group as i64 + 0x1_0000_0000i64) as u32
        }
    }

    /// Takes `keys` as the keymap.
    pub fn set_keys(&mut self, keys: Vec<KeymapEntry>)
        ensures
            final(self).spec_device_id() == old(self).spec_device_id(),
            final(self).spec_state() == old(self).spec_state(),
            final(self).keys() == keys@,
    {
        self.keys = keys;
    }

    /// The code of the first key that gives `keysym`.
    pub fn keycode_of(&self, keysym: u32) -> (r: Option<u32>)
        ensures
            r == first_keycode(self.keys(), keysym),
    {
        let n = self.keys.len();
        assert(self.keys@.skip(0) =~= self.keys@);
        for i in 0..n
            invariant
                n == self.keys@.len(),
                first_keycode(self.keys@, keysym) == first_keycode(self.keys@.skip(i as int), keysym),
        {
            let ghost rest = self.keys@.skip(i as int);
            assert(rest[0] == self.keys@[i as int]);
            assert(rest.drop_first() =~= self.keys@.skip(i + 1));
            if self.keys[i].keysym == keysym {
                return Some(self.keys[i].keycode);
            }
        }
        assert(self.keys@.skip(n as int) =~= Seq::<KeymapEntry>::empty());
        None
    }

    /// Grabs on `root_window` the chord of each action whose key symbol some
    /// key gives, and returns the chords that were grabbed, which serve to
    /// match key presses and to give up the grabs.
    pub fn bind_actions(&self, actions: &Vec<Action>, root_window: u32, out: &mut RequestQueue) -> (r:
        Vec<BoundAction>)
        ensures
            r@ == bound_actions(self.keys(), actions@),
            final(out)@ == old(out)@ + grab_requests(r@, root_window),
    {
        let mut bound: Vec<BoundAction> = Vec::new();
        let n = actions.len();
        proof {
            assert(actions@.take(0) =~= Seq::<Action>::empty());
            assert(old(out)@ + grab_requests(bound@, root_window) =~= old(out)@);
        }
        for i in 0..n
            invariant
                n == actions@.len(),
                bound@ == bound_actions(self.keys(), actions@.take(i as int)),
                out@ == old(out)@ + grab_requests(bound@, root_window),
        {
            assert(actions@.take(i + 1).drop_last() =~= actions@.take(i as int));
            assert(actions@.take(i + 1).last() == actions@[i as int]);
            if let Some(key) = self.keycode_of(actions[i].key) {
                let modifiers = translate_mods(actions[i].mods);
                let ghost before = bound@;
                out.push(
                    Request::GrabKey { window: root_window, key: (key & 0xff) as u8, modifiers },
                );
                bound.push(BoundAction { key, modifiers, action_index: i });
                assert(out@ =~= old(out)@ + grab_requests(bound@, root_window));
            }
        }
        assert(actions@.take(n as int) =~= actions@);
        bound
    }

    /// Gives up the grabs of the chords of `bound_actions` on `root_window`.
    pub fn unbind_actions(
        &self,
        bound_actions: &Vec<BoundAction>,
        root_window: u32,
        out: &mut RequestQueue,
    )
        ensures
            final(out)@ == old(out)@ + ungrab_requests(bound_actions@, root_window),
    {
        let n = bound_actions.len();
        assert(old(out)@ + ungrab_requests(bound_actions@.take(0), root_window) =~= old(out)@);
        for i in 0..n
            invariant
                n == bound_actions@.len(),
                out@ == old(out)@ + ungrab_requests(bound_actions@.take(i as int), root_window),
        {
            out.push(
                Request::UngrabKey {
                    window: root_window,
                    key: (bound_actions[i].key & 0xff) as u8,
                    modifiers: bound_actions[i].modifiers,
                },
            );
            assert(out@ =~= old(out)@ + ungrab_requests(bound_actions@.take(i + 1), root_window));
        }
        assert(bound_actions@.take(n as int) =~= bound_actions@);
    }

    /// The event of a key press or release. `detail` is the key code and
    /// `state` the modifier and button bits of the server's event; `keysym`
    /// and `characters` are what the keymap gives for the key. The event
    /// carries the modifiers that were set at that moment; a release carries
    /// no text.
    pub fn translate_event(
        &self,
        detail: u8,
        state: u32,
        keysym: u32,
        characters: String,
        press: bool,
    ) -> (r: Event)
        ensures
            press ==> (r matches Event::KeyPress(e) && e.key == keysym && e.characters
                == characters && e.mods == event_mods(state) && e.keycode == detail),
            !press ==> (r matches Event::KeyRelease(e) && e.key == keysym && e.characters@
                == Seq::<char>::empty() && e.mods == event_mods(state) && e.keycode == detail),
    {
        let keycode = detail as u32;
        let mods = mod_mask_bits(state);
        if press {
            Event::KeyPress(KeyboardEvent { key: keysym, characters, mods, keycode })
        } else {
            Event::KeyRelease(
                KeyboardEvent { key: keysym, characters: String::new(), mods, keycode },
            )
        }
    }
}

} // verus!
