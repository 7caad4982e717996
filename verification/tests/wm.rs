use tiling_wm::actions::{default_actions, Action, ActionType, KEY_L, KEY_P, KEY_Q, KEY_RETURN};
use tiling_wm::atoms::Atoms;
use tiling_wm::client::Client;
use tiling_wm::events::{Event, MouseButton};
use tiling_wm::ewmh::{delete_message, window_supports};
use tiling_wm::keyboard::{
    Keyboard, KeyboardEvent, KeymapEntry, StateNotify, MODS_ALT, MODS_CTRL,
};
use tiling_wm::layout::Position;
use tiling_wm::requests::{PropertyData, Request};
use tiling_wm::screen::{
    strut_values, ReservedClient, Screen, ScreenError, ScreenSide, WindowProbe,
};
use tiling_wm::tiling::Layout;
use tiling_wm::wm::{Outcome, RawEvent, Wm, ROOT_EVENT_MASK};

const ROOT: u32 = 1;
const W1: u32 = 1000;
const F1: u32 = 2000;
const W2: u32 = 1001;
const F2: u32 = 2001;

fn atoms() -> Atoms {
    let replies: Vec<u32> = (100..119).collect();
    Atoms::from_replies(&replies).unwrap()
}

fn keyboard() -> Keyboard {
    Keyboard::new(
        3,
        vec![
            KeymapEntry { keycode: 24, keysym: KEY_Q },
            KeymapEntry { keycode: 33, keysym: KEY_P },
            KeymapEntry { keycode: 36, keysym: KEY_RETURN },
            KeymapEntry { keycode: 46, keysym: KEY_L },
        ],
    )
}

/// A manager of a screen of 1000 by 800 with the default chords bound.
fn wm() -> Wm {
    let mut wm = Wm::new(ROOT, 1000, 800, atoms(), keyboard());
    wm.bind(default_actions());
    wm.take_requests();
    wm
}

fn managed(frame: u32) -> WindowProbe {
    WindowProbe {
        strut_partial: Vec::new(),
        strut: Vec::new(),
        mapped: false,
        frame: Some(frame),
        name: String::new(),
    }
}

fn key_press(detail: u8, state: u32) -> RawEvent {
    RawEvent::KeyPress { detail, state, keysym: 0, characters: String::new() }
}

/// The outcomes of the actions that a key press calls for.
fn press(wm: &mut Wm, detail: u8, state: u32) -> Vec<Outcome> {
    let event = wm.translate_event(Some(key_press(detail, state)));
    let Some(Event::KeyPress(key)) = event else {
        panic!("not a key press: {:?}", event);
    };
    let mut outcomes = Vec::new();
    for index in wm.matching_actions(&key) {
        outcomes.push(wm.perform(index));
    }
    outcomes
}

/// Does what the caller does for a window that asks to be mapped and that is
/// to become a client whose frame can be made.
fn map(wm: &mut Wm, window: u32, frame: u32) {
    let event = wm.translate_event(Some(RawEvent::MapRequest { window })).unwrap();
    assert!(matches!(wm.handle_event(&event), Outcome::Probe(w) if w == window));
    assert_eq!(strut_values(&Vec::new(), &Vec::new()), None);
    assert_eq!(wm.map_request(window, managed(frame)), Ok(()));
}

fn cardinals(requests: &[Request], window: u32, property: u32) -> Vec<u32> {
    let mut found = None;
    for r in requests {
        if let Request::ChangeProperty { window: w, property: p, data, .. } = r {
            if *w == window && *p == property {
                found = Some(data.clone());
            }
        }
    }
    match found {
        Some(PropertyData::Cardinals(v)) => v,
        other => panic!("no numbers in property {}: {:?}", property, other),
    }
}

fn rect(wm: &Wm, handle: usize) -> (u16, u16, u16, u16) {
    let c = wm.screen().client(handle).unwrap();
    (c.x, c.y, c.width, c.height)
}

#[test]
fn root_event_mask_has_the_nine_events() {
    assert_eq!(ROOT_EVENT_MASK, 0x0058_201f);
}

#[test]
fn setup_opens_the_cursor_and_takes_the_root() {
    assert_eq!(
        Wm::setup(ROOT, 50, 51),
        vec![
            Request::OpenCursorFont { fid: 50 },
            Request::CreateGlyphCursor { cid: 51, font: 50, source_char: 68, mask_char: 69 },
            Request::SetRootAttributes { window: ROOT, event_mask: ROOT_EVENT_MASK, cursor: 51 },
        ]
    );
}

#[test]
fn new_manager_uses_the_default_gap_and_binds_nothing() {
    let mut wm = Wm::new(ROOT, 1000, 800, atoms(), keyboard());
    assert_eq!(wm.screen().current_workspace(), 1);
    assert!(wm.bound_actions().is_empty());
    assert_eq!(wm.keyboard().device_id(), 3);
    assert_eq!(wm.root(), ROOT);
    assert_eq!(wm.atoms(), atoms());
    assert_eq!(wm.take_requests().len(), 22);
    map(&mut wm, W1, F1);
    assert_eq!(rect(&wm, 0), (1, 1, 998, 798));
}

#[test]
fn bind_grabs_the_chords() {
    let mut wm = Wm::new(ROOT, 1000, 800, atoms(), keyboard());
    wm.take_requests();
    wm.bind(default_actions());
    assert_eq!(wm.bound_actions().len(), 5);
    assert_eq!(
        wm.take_requests(),
        vec![
            Request::GrabKey { window: ROOT, key: 24, modifiers: 0x0c },
            Request::GrabKey { window: ROOT, key: 24, modifiers: 0x09 },
            Request::GrabKey { window: ROOT, key: 46, modifiers: 0x08 },
            Request::GrabKey { window: ROOT, key: 33, modifiers: 0x08 },
            Request::GrabKey { window: ROOT, key: 36, modifiers: 0x08 },
        ]
    );
}

#[test]
fn events_are_translated() {
    let mut wm = wm();
    assert!(wm.translate_event(None).is_none());
    assert!(matches!(
        wm.translate_event(Some(RawEvent::ButtonPress { detail: 4 })),
        Some(Event::MouseScroll(-1))
    ));
    assert!(matches!(
        wm.translate_event(Some(RawEvent::ButtonPress { detail: 5 })),
        Some(Event::MouseScroll(1))
    ));
    assert!(wm.translate_event(Some(RawEvent::ButtonRelease { detail: 4 })).is_none());
    assert!(wm.translate_event(Some(RawEvent::ButtonRelease { detail: 5 })).is_none());
    assert!(matches!(
        wm.translate_event(Some(RawEvent::ButtonPress { detail: 1 })),
        Some(Event::ButtonPress(MouseButton::Left))
    ));
    assert!(matches!(
        wm.translate_event(Some(RawEvent::ButtonPress { detail: 2 })),
        Some(Event::ButtonPress(MouseButton::Middle))
    ));
    assert!(matches!(
        wm.translate_event(Some(RawEvent::ButtonRelease { detail: 3 })),
        Some(Event::ButtonRelease(MouseButton::Right))
    ));
    assert!(wm.translate_event(Some(RawEvent::ButtonPress { detail: 6 })).is_none());
    assert!(wm.translate_event(Some(RawEvent::ButtonPress { detail: 0 })).is_none());
    assert!(wm.translate_event(Some(RawEvent::ButtonRelease { detail: 9 })).is_none());
    assert!(matches!(
        wm.translate_event(Some(RawEvent::MotionNotify {
            event_x: 1,
            event_y: -2,
            root_x: 3,
            root_y: 4
        })),
        Some(Event::MouseMove { window_x: 1, window_y: -2, absolute_x: 3, absolute_y: 4 })
    ));
    assert!(matches!(
        wm.translate_event(Some(RawEvent::EnterNotify { event: 9 })),
        Some(Event::EnterNotify(9))
    ));
    assert!(matches!(
        wm.translate_event(Some(RawEvent::MapRequest { window: 9 })),
        Some(Event::MapRequest(9))
    ));
    assert!(matches!(
        wm.translate_event(Some(RawEvent::UnmapNotify { window: 9 })),
        Some(Event::UnmapNotify(9))
    ));
    assert!(matches!(
        wm.translate_event(Some(RawEvent::DestroyNotify { window: 9 })),
        Some(Event::DestroyNotify(9))
    ));
    assert!(wm.translate_event(Some(RawEvent::ReparentNotify)).is_none());
    assert!(wm
        .translate_event(Some(RawEvent::PropertyNotify { window: 9, atom: 3 }))
        .is_none());
    assert!(wm.translate_event(Some(RawEvent::Other)).is_none());
    assert_eq!(wm.take_requests(), Vec::new());
}

#[test]
fn key_events_carry_the_modifiers_of_the_event() {
    let mut wm = wm();
    let event = wm.translate_event(Some(RawEvent::KeyPress {
        detail: 24,
        state: 0x010c,
        keysym: KEY_Q,
        characters: "q".to_string(),
    }));
    match event {
        Some(Event::KeyPress(e)) => {
            assert_eq!((e.keycode, e.key, e.mods), (24, KEY_Q, 0x0c));
            assert_eq!(e.characters, "q");
        }
        other => panic!("not a key press: {:?}", other),
    }
    let event =
        wm.translate_event(Some(RawEvent::KeyRelease { detail: 24, state: 1, keysym: KEY_Q }));
    match event {
        Some(Event::KeyRelease(e)) => {
            assert_eq!((e.keycode, e.key, e.mods), (24, KEY_Q, 1));
            assert_eq!(e.characters, "");
        }
        other => panic!("not a key release: {:?}", other),
    }
}

#[test]
fn state_of_the_own_keyboard_is_taken_in() {
    let mut wm = wm();
    let notify = StateNotify {
        device_id: 3,
        base_mods: 4,
        latched_mods: 0,
        locked_mods: 2,
        base_group: 0,
        latched_group: 0,
        locked_group: 1,
    };
    assert!(wm.translate_event(Some(RawEvent::StateNotify(notify))).is_none());
    assert_eq!(wm.keyboard().state().base_mods, 4);
    assert_eq!(wm.keyboard().state().locked_mods, 2);
    assert_eq!(wm.keyboard().state().locked_group, 1);
    let other = StateNotify { device_id: 4, base_mods: 1, ..notify };
    assert!(wm.translate_event(Some(RawEvent::StateNotify(other))).is_none());
    assert_eq!(wm.keyboard().state().base_mods, 4);
}

#[test]
fn a_chord_matches_on_key_code_and_modifiers() {
    let wm = wm();
    let key = |keycode: u32, mods: u32| KeyboardEvent {
        key: 0,
        characters: String::new(),
        mods,
        keycode,
    };
    assert_eq!(wm.matching_actions(&key(24, 0x0c)), vec![0]);
    assert_eq!(wm.matching_actions(&key(24, 0x09)), vec![1]);
    assert_eq!(wm.matching_actions(&key(46, 0x08)), vec![2]);
    assert_eq!(wm.matching_actions(&key(24, 0x08)), Vec::<usize>::new());
    assert_eq!(wm.matching_actions(&key(24, 0x1c)), Vec::<usize>::new());
    assert_eq!(wm.matching_actions(&key(25, 0x0c)), Vec::<usize>::new());
}

#[test]
fn every_action_of_a_chord_is_called_for_in_order() {
    let mut wm = Wm::new(ROOT, 1000, 800, atoms(), keyboard());
    wm.bind(vec![
        Action::new(KEY_L, MODS_ALT, ActionType::CycleLayout),
        Action::new(KEY_Q, MODS_ALT, ActionType::Quit),
        Action::new(KEY_L, MODS_ALT, ActionType::Launch("xterm")),
        Action::new(0x9999, MODS_ALT, ActionType::Quit),
        Action::new(KEY_L, MODS_ALT | MODS_CTRL, ActionType::Quit),
        Action::new(KEY_L, MODS_ALT, ActionType::SwitchToLayout(Layout::Monocle)),
    ]);
    let outcomes = press(&mut wm, 46, 0x08);
    assert_eq!(outcomes.len(), 3);
    assert!(matches!(outcomes[0], Outcome::Continue));
    assert!(matches!(outcomes[1], Outcome::Launch("xterm")));
    assert!(matches!(outcomes[2], Outcome::Continue));
    assert_eq!(wm.screen().workspace(1).unwrap().layout(), Layout::Monocle);
}

#[test]
fn performing_an_unknown_action_does_nothing() {
    let mut wm = wm();
    assert!(matches!(wm.perform(5), Outcome::Continue));
    assert!(matches!(wm.perform(usize::MAX), Outcome::Continue));
    assert_eq!(wm.take_requests(), Vec::new());
}

#[test]
fn other_events_are_left_alone() {
    let mut wm = wm();
    map(&mut wm, W1, F1);
    wm.take_requests();
    for event in [
        Event::UnmapNotify(W1),
        Event::MouseScroll(1),
        Event::ButtonPress(MouseButton::Left),
        Event::ButtonRelease(MouseButton::Left),
        Event::MouseMove { window_x: 0, window_y: 0, absolute_x: 0, absolute_y: 0 },
        Event::KeyRelease(KeyboardEvent {
            key: 0,
            characters: String::new(),
            mods: 0,
            keycode: 0,
        }),
    ] {
        assert!(matches!(wm.handle_event(&event), Outcome::Continue));
    }
    assert_eq!(wm.take_requests(), Vec::new());
    assert_eq!(wm.screen().find_client(W1), Some(0));
}

#[test]
fn first_window_is_reparented_and_fills_the_screen() {
    let mut wm = wm();
    let event = wm.translate_event(Some(RawEvent::MapRequest { window: W1 })).unwrap();
    assert!(matches!(wm.handle_event(&event), Outcome::Probe(W1)));
    assert_eq!(
        Client::frame_requests(W1, F1, ROOT)[1],
        Request::ReparentWindow { window: W1, parent: F1, x: 0, y: 20 }
    );
    assert_eq!(wm.map_request(W1, managed(F1)), Ok(()));
    let screen = wm.screen();
    assert_eq!(screen.workspace(1).unwrap().windows(), vec![0]);
    let client = screen.client(0).unwrap();
    assert_eq!((client.window, client.frame), (W1, F1));
    assert_eq!(rect(&wm, 0), (1, 1, 1000 - 2, 800 - 2));
}

#[test]
fn second_window_becomes_the_master() {
    let mut wm = Wm::new(ROOT, 1000, 800, atoms(), keyboard());
    wm.bind(vec![Action::new(KEY_L, MODS_ALT, ActionType::SwitchToLayout(Layout::MasterLeft))]);
    map(&mut wm, W1, F1);
    map(&mut wm, W2, F2);
    assert!(matches!(press(&mut wm, 46, 0x08)[..], [Outcome::Continue]));
    assert_eq!(wm.screen().workspace(1).unwrap().layout(), Layout::MasterLeft);
    assert_eq!(wm.screen().find_client(W2), Some(1));
    assert_eq!(rect(&wm, 1), (1, 1, 498, 798));
    assert_eq!(rect(&wm, 0), (501, 1, 498, 798));
}

#[test]
fn workspace_switch_unmaps_and_maps_again() {
    let mut screen = Screen::new(1000, 800, 2, atoms(), ROOT);
    screen.add_window(W1, managed(F1)).unwrap();
    screen.add_window(W2, managed(F2)).unwrap();
    screen.take_requests();
    screen.switch_workspace(2).unwrap();
    let requests = screen.take_requests();
    assert_eq!(cardinals(&requests, ROOT, 106), vec![2]);
    for window in [W1, F1, W2, F2] {
        assert!(requests.contains(&Request::UnmapWindow { window }));
    }
    assert!(!screen.client(0).unwrap().visible && !screen.client(1).unwrap().visible);
    screen.switch_workspace(1).unwrap();
    let requests = screen.take_requests();
    for window in [W1, F1, W2, F2] {
        assert!(requests.contains(&Request::MapWindow { window }));
    }
    assert!(requests.contains(&Request::ConfigureWindow {
        window: F2,
        x: 1,
        y: 1,
        width: 494,
        height: 794
    }));
    assert!(requests.contains(&Request::ConfigureWindow {
        window: F1,
        x: 501,
        y: 1,
        width: 494,
        height: 794
    }));
    assert!(screen.client(0).unwrap().visible && screen.client(1).unwrap().visible);
}

#[test]
fn panel_reserves_the_top_of_every_workspace() {
    let mut wm = wm();
    let panel = 500u32;
    let partial = vec![0, 0, 24, 0, 0, 0, 0, 0, 0, 1000, 0, 0];
    let event = wm.translate_event(Some(RawEvent::MapRequest { window: panel })).unwrap();
    assert!(matches!(wm.handle_event(&event), Outcome::Probe(500)));
    assert!(strut_values(&partial, &Vec::new()).is_some());
    assert_eq!(
        ReservedClient::admission_requests(panel)[0],
        Request::MapWindow { window: panel }
    );
    let probe = WindowProbe {
        strut_partial: partial,
        strut: Vec::new(),
        mapped: true,
        frame: None,
        name: String::new(),
    };
    assert_eq!(wm.map_request(panel, probe), Ok(()));
    let screen = wm.screen();
    assert_eq!(screen.reserved_space(ScreenSide::Top), 24);
    for id in 1..=10u8 {
        let pos = screen.workspace(id).unwrap().get_screen_position();
        assert_eq!(pos, Position::new(0, 24, 1000, 800 - 24));
        assert!(screen.workspace(id).unwrap().windows().is_empty());
    }
    assert_eq!(screen.find_client(panel), None);
    assert_eq!(screen.reserved_client(0).unwrap().window, panel);
}

#[test]
fn close_with_the_delete_protocol_waits_for_the_server() {
    let mut wm = wm();
    map(&mut wm, W1, F1);
    let enter = wm.translate_event(Some(RawEvent::EnterNotify { event: W1 })).unwrap();
    assert!(matches!(wm.handle_event(&enter), Outcome::Continue));
    wm.take_requests();
    let outcomes = press(&mut wm, 24, 0x09);
    assert!(matches!(outcomes[..], [Outcome::Close(W1)]));
    let protocols = vec![55, atoms().wm_delete_window];
    assert!(window_supports(atoms().wm_delete_window, &protocols));
    assert_eq!(
        delete_message(W1, &atoms()),
        Request::SendClientMessage { window: W1, kind: 100, first: 101, second: 0 }
    );
    wm.close_focused(true);
    assert_eq!(wm.screen().find_client(W1), Some(0));
    assert_eq!(wm.screen().workspace(1).unwrap().windows(), vec![0]);
    assert_eq!(wm.take_requests(), Vec::new());
    let destroyed = wm.translate_event(Some(RawEvent::DestroyNotify { window: W1 })).unwrap();
    assert!(matches!(wm.handle_event(&destroyed), Outcome::Continue));
    assert_eq!(wm.screen().find_client(W1), None);
    assert_eq!(wm.screen().find_client(F1), None);
    assert!(wm.screen().workspace(1).unwrap().windows().is_empty());
    let requests = wm.take_requests();
    assert_eq!(cardinals(&requests, ROOT, 116), Vec::<u32>::new());
}

#[test]
fn close_without_the_delete_protocol_removes_at_once() {
    let mut wm = wm();
    map(&mut wm, W1, F1);
    wm.handle_event(&Event::EnterNotify(W1));
    wm.take_requests();
    assert!(matches!(press(&mut wm, 24, 0x09)[..], [Outcome::Close(W1)]));
    assert!(!window_supports(atoms().wm_delete_window, &vec![55]));
    wm.close_focused(false);
    assert_eq!(wm.screen().find_client(W1), None);
    let requests = wm.take_requests();
    assert_eq!(requests[0], Request::DestroyWindow { window: W1 });
    assert_eq!(requests[1], Request::DestroyWindow { window: F1 });
}

#[test]
fn close_without_a_focused_client_asks_nothing_of_the_caller() {
    let mut wm = wm();
    map(&mut wm, W1, F1);
    wm.take_requests();
    assert!(matches!(press(&mut wm, 24, 0x09)[..], [Outcome::Continue]));
    assert_eq!(wm.screen().find_client(W1), Some(0));
    assert_eq!(wm.take_requests(), Vec::new());
}

#[test]
fn cycle_layout_chord_changes_the_layout() {
    let mut wm = wm();
    map(&mut wm, W1, F1);
    map(&mut wm, W2, F2);
    assert!(matches!(press(&mut wm, 46, 0x08)[..], [Outcome::Continue]));
    assert_eq!(wm.screen().workspace(1).unwrap().layout(), Layout::MasterLeft);
}

#[test]
fn launch_chords_name_their_programs() {
    let mut wm = wm();
    assert!(matches!(press(&mut wm, 33, 0x08)[..], [Outcome::Launch("/usr/local/bin/dmenu_run")]));
    assert!(matches!(press(&mut wm, 36, 0x08)[..], [Outcome::Launch("/usr/local/bin/alacritty")]));
    assert_eq!(wm.take_requests(), Vec::new());
}

#[test]
fn a_window_that_cannot_be_added_is_destroyed() {
    let mut wm = wm();
    let mut probe = managed(F1);
    probe.frame = None;
    assert_eq!(wm.map_request(W1, probe), Err(ScreenError::FrameFailed));
    assert_eq!(wm.take_requests(), vec![Request::DestroyWindow { window: W1 }]);
    assert_eq!(wm.map_request(W1, managed(W1)), Err(ScreenError::FrameIsWindow));
    assert_eq!(wm.take_requests(), vec![Request::DestroyWindow { window: W1 }]);
    map(&mut wm, W1, F1);
    wm.take_requests();
    assert_eq!(wm.map_request(W1, managed(F2)), Err(ScreenError::AlreadyManaged));
    assert_eq!(wm.take_requests(), vec![Request::DestroyWindow { window: W1 }]);
    let mut panel = managed(0);
    panel.strut = vec![0, 0, 24, 0];
    assert_eq!(wm.map_request(500, panel), Err(ScreenError::MapFailed));
    let requests = wm.take_requests();
    assert_eq!(requests.last(), Some(&Request::DestroyWindow { window: 500 }));
    assert_eq!(wm.screen().reserved_space(ScreenSide::Top), 0);
}

#[test]
fn quit_chord_and_shutdown() {
    let mut wm = wm();
    map(&mut wm, W1, F1);
    map(&mut wm, W2, F2);
    wm.take_requests();
    assert!(matches!(press(&mut wm, 24, 0x0c)[..], [Outcome::Quit]));
    assert_eq!(wm.take_requests(), Vec::new());
    wm.shutdown();
    assert_eq!(
        wm.take_requests(),
        vec![
            Request::UngrabKey { window: ROOT, key: 24, modifiers: 0x0c },
            Request::UngrabKey { window: ROOT, key: 24, modifiers: 0x09 },
            Request::UngrabKey { window: ROOT, key: 46, modifiers: 0x08 },
            Request::UngrabKey { window: ROOT, key: 33, modifiers: 0x08 },
            Request::UngrabKey { window: ROOT, key: 36, modifiers: 0x08 },
            Request::SetInputFocus { focus: ROOT },
            Request::DestroyWindow { window: W1 },
            Request::DestroyWindow { window: F1 },
            Request::DestroyWindow { window: W2 },
            Request::DestroyWindow { window: F2 },
        ]
    );
    assert!(wm.bound_actions().is_empty());
    assert_eq!(wm.screen().find_client(W1), None);
    assert!(wm.screen().workspace(1).unwrap().windows().is_empty());
}
