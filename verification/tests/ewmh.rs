use tiling_wm::atoms::Atoms;
use tiling_wm::client::Client;
use tiling_wm::context::Context;
use tiling_wm::ewmh::{
    delete_message, delete_window, set_client_list, set_client_list_stacking,
    set_current_desktop, set_desktop_names, set_desktop_viewport, set_number_of_desktops,
    set_showing_desktop, set_wm_desktop, window_supports,
};
use tiling_wm::layout::{Position, Workspace};
use tiling_wm::requests::{PropertyData, Request, RequestQueue};

fn atoms() -> Atoms {
    let replies: Vec<u32> = (100..119).collect();
    Atoms::from_replies(&replies).unwrap()
}

fn numbers(window: u32, property: u32, kind: u32, values: Vec<u32>) -> Request {
    Request::ChangeProperty { window, property, kind, data: PropertyData::Cardinals(values) }
}

#[test]
fn number_of_desktops_is_a_cardinal_on_the_root() {
    let mut out = RequestQueue::new();
    set_number_of_desktops(10, 1, &atoms(), &mut out);
    assert_eq!(out.take(), vec![numbers(1, 107, 6, vec![10])]);
}

#[test]
fn current_desktop_is_a_cardinal_on_the_root() {
    let mut out = RequestQueue::new();
    set_current_desktop(3, 1, &atoms(), &mut out);
    assert_eq!(out.take(), vec![numbers(1, 106, 6, vec![3])]);
}

#[test]
fn viewport_is_left_then_top() {
    let mut out = RequestQueue::new();
    set_desktop_viewport(5, 24, 1, &atoms(), &mut out);
    assert_eq!(out.take(), vec![numbers(1, 112, 6, vec![5, 24])]);
}

#[test]
fn showing_desktop_is_zero_or_one() {
    let mut out = RequestQueue::new();
    set_showing_desktop(false, 1, &atoms(), &mut out);
    set_showing_desktop(true, 1, &atoms(), &mut out);
    assert_eq!(out.take(), vec![numbers(1, 118, 6, vec![0]), numbers(1, 118, 6, vec![1])]);
}

#[test]
fn client_lists_are_windows_on_the_root() {
    let mut out = RequestQueue::new();
    set_client_list(&vec![7, 8], 1, &atoms(), &mut out);
    set_client_list_stacking(&vec![9], 1, &atoms(), &mut out);
    assert_eq!(out.take(), vec![numbers(1, 116, 33, vec![7, 8]), numbers(1, 117, 33, vec![9])]);
}

#[test]
fn desktop_names_are_separated_by_zero_bytes() {
    let pos = Position::new(0, 0, 10, 10);
    let workspaces = vec![Workspace::new(pos, 0, 1), Workspace::new(pos, 0, 12)];
    let mut out = RequestQueue::new();
    set_desktop_names(&workspaces, 1, &atoms(), &mut out);
    assert_eq!(
        out.take(),
        vec![Request::ChangeProperty {
            window: 1,
            property: 113,
            kind: 31,
            data: PropertyData::Bytes(b"Desktop 1\0Desktop 12\0".to_vec()),
        }]
    );
    set_desktop_names(&Vec::new(), 1, &atoms(), &mut out);
    assert_eq!(
        out.take(),
        vec![Request::ChangeProperty {
            window: 1,
            property: 113,
            kind: 31,
            data: PropertyData::Bytes(Vec::new()),
        }]
    );
}

#[test]
fn each_client_is_tagged_with_the_id_of_its_workspace() {
    let mut ctx = Context::new(atoms(), 1);
    for i in 0..3u32 {
        ctx.insert_client(Client::new(1000 + i, 2000 + i, String::new(), 1).unwrap());
    }
    let pos = Position::new(0, 0, 100, 100);
    let mut first = Workspace::new(pos, 0, 1);
    let mut second = Workspace::new(pos, 0, 2);
    first.spawn_window(2, &mut ctx);
    first.spawn_window(0, &mut ctx);
    first.toggle_floating(2, &mut ctx);
    second.spawn_window(1, &mut ctx);
    second.spawn_window(9, &mut ctx);
    ctx.requests.take();
    set_wm_desktop(&vec![first, second], &mut ctx);
    assert_eq!(
        ctx.requests.take(),
        vec![
            numbers(1000, 108, 6, vec![1]),
            numbers(1002, 108, 6, vec![1]),
            numbers(1001, 108, 6, vec![2]),
        ]
    );
}

#[test]
fn a_window_supports_the_protocols_it_lists() {
    assert!(window_supports(101, &vec![55, 101, 60]));
    assert!(window_supports(101, &vec![101]));
    assert!(!window_supports(101, &vec![55, 60]));
    assert!(!window_supports(101, &Vec::new()));
}

#[test]
fn delete_message_names_the_protocol_and_the_current_time() {
    assert_eq!(
        delete_message(1000, &atoms()),
        Request::SendClientMessage { window: 1000, kind: 100, first: 101, second: 0 }
    );
}

#[test]
fn delete_window_destroys_unless_the_message_was_delivered() {
    let mut out = RequestQueue::new();
    assert!(!delete_window(1000, true, &mut out));
    assert_eq!(out.len(), 0);
    assert!(delete_window(1000, false, &mut out));
    assert_eq!(out.take(), vec![Request::DestroyWindow { window: 1000 }]);
}
