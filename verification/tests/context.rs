use tiling_wm::atoms::Atoms;
use tiling_wm::client::{Client, ClientOp};
use tiling_wm::context::Context;
use tiling_wm::handles::{position_of, remove_handle};
use tiling_wm::layout::Position;
use tiling_wm::requests::Request;

fn atoms() -> Atoms {
    let replies: Vec<u32> = (100..119).collect();
    Atoms::from_replies(&replies).unwrap()
}

fn client(i: u32) -> Client {
    Client::new(1000 + i, 2000 + i, String::new(), 1).unwrap()
}

#[test]
fn new_context_is_empty() {
    let ctx = Context::new(atoms(), 7);
    assert_eq!(ctx.root_window, 7);
    assert_eq!(ctx.current_workspace, 0);
    assert_eq!(ctx.focused_window, None);
    assert_eq!(ctx.windows.len(), 0);
    assert!(ctx.order.is_empty());
    assert!(ctx.window_lookup.is_empty());
    assert_eq!(ctx.requests.len(), 0);
    assert_eq!(ctx.atoms, atoms());
}

#[test]
fn insert_registers_frame_and_window() {
    let mut ctx = Context::new(atoms(), 1);
    assert_eq!(ctx.insert_client(client(0)), Some(0));
    assert_eq!(ctx.insert_client(client(1)), Some(1));
    assert_eq!(ctx.find(1000), Some(0));
    assert_eq!(ctx.find(2000), Some(0));
    assert_eq!(ctx.find(1001), Some(1));
    assert_eq!(ctx.find(2001), Some(1));
    assert_eq!(ctx.find(5), None);
    assert_eq!(ctx.order, vec![0, 1]);
}

#[test]
fn insert_refuses_known_ids() {
    let mut ctx = Context::new(atoms(), 1);
    ctx.insert_client(client(0));
    assert_eq!(ctx.insert_client(client(0)), None);
    let mut same_frame = client(1);
    same_frame.frame = 2000;
    assert_eq!(ctx.insert_client(same_frame), None);
    let mut frame_is_window = client(2);
    frame_is_window.frame = frame_is_window.window;
    assert_eq!(ctx.insert_client(frame_is_window), None);
    assert_eq!(ctx.windows.len(), 1);
    assert_eq!(ctx.order, vec![0]);
    assert_eq!(ctx.find(1001), None);
}

#[test]
fn remove_forgets_both_ids_and_the_focus() {
    let mut ctx = Context::new(atoms(), 1);
    ctx.insert_client(client(0));
    ctx.insert_client(client(1));
    ctx.focused_window = Some(0);
    let gone = ctx.remove_client(0).unwrap();
    assert_eq!(gone.window, 1000);
    assert_eq!(ctx.find(1000), None);
    assert_eq!(ctx.find(2000), None);
    assert_eq!(ctx.find(1001), Some(1));
    assert_eq!(ctx.focused_window, None);
    assert_eq!(ctx.order, vec![1]);
    assert!(ctx.remove_client(0).is_none());
    assert!(ctx.remove_client(44).is_none());
    assert_eq!(ctx.order, vec![1]);
}

#[test]
fn remove_keeps_the_focus_of_another_client() {
    let mut ctx = Context::new(atoms(), 1);
    ctx.insert_client(client(0));
    ctx.insert_client(client(1));
    ctx.focused_window = Some(1);
    ctx.remove_client(0);
    assert_eq!(ctx.focused_window, Some(1));
}

#[test]
fn apply_acts_on_the_client_and_queues_its_requests() {
    let mut ctx = Context::new(atoms(), 1);
    ctx.insert_client(client(0));
    ctx.apply(0, ClientOp::Update(Position::new(5, 6, 100, 50)));
    ctx.apply(0, ClientOp::Show);
    let c = ctx.windows.get(0).unwrap();
    assert_eq!((c.x, c.y, c.width, c.height), (5, 6, 100, 50));
    assert!(c.visible);
    assert_eq!(
        ctx.requests.take(),
        vec![
            Request::ConfigureWindow { window: 2000, x: 5, y: 6, width: 96, height: 46 },
            Request::ConfigureWindow { window: 1000, x: 0, y: 20, width: 96, height: 26 },
            Request::MapWindow { window: 2000 },
            Request::MapWindow { window: 1000 },
        ]
    );
}

#[test]
fn apply_to_a_missing_client_does_nothing() {
    let mut ctx = Context::new(atoms(), 1);
    ctx.insert_client(client(0));
    ctx.apply(3, ClientOp::Show);
    ctx.run_each(&vec![8, 9], ClientOp::Focus);
    assert_eq!(ctx.requests.len(), 0);
    assert!(!ctx.windows.get(0).unwrap().visible);
}

#[test]
fn run_each_acts_in_order() {
    let mut ctx = Context::new(atoms(), 1);
    ctx.insert_client(client(0));
    ctx.insert_client(client(1));
    ctx.run_each(&vec![1, 0], ClientOp::Destroy);
    assert_eq!(
        ctx.requests.take(),
        vec![Request::DestroyWindow { window: 2001 }, Request::DestroyWindow { window: 2000 }]
    );
}

#[test]
fn emit_appends_one_request() {
    let mut ctx = Context::new(atoms(), 1);
    ctx.emit(Request::Flush);
    assert_eq!(ctx.requests.take(), vec![Request::Flush]);
}

#[test]
fn position_of_finds_the_first_occurrence() {
    let list = vec![4, 7, 4, 9];
    assert_eq!(position_of(&list, 4), Some(0));
    assert_eq!(position_of(&list, 9), Some(3));
    assert_eq!(position_of(&list, 5), None);
    assert_eq!(position_of(&Vec::new(), 5), None);
}

#[test]
fn remove_handle_takes_every_occurrence_out() {
    let mut list = vec![4, 7, 4, 9];
    assert!(remove_handle(&mut list, 4));
    assert_eq!(list, vec![7, 9]);
    assert!(!remove_handle(&mut list, 4));
    assert_eq!(list, vec![7, 9]);
    assert!(remove_handle(&mut list, 9));
    assert!(remove_handle(&mut list, 7));
    assert!(list.is_empty());
}

#[test]
fn close_destroys_unless_the_message_was_delivered() {
    let mut ctx = Context::new(atoms(), 1);
    ctx.insert_client(client(0));
    assert!(!ctx.close(0, true));
    assert_eq!(ctx.requests.len(), 0);
    assert!(ctx.close(0, false));
    assert_eq!(
        ctx.requests.take(),
        vec![Request::DestroyWindow { window: 1000 }, Request::DestroyWindow { window: 2000 }]
    );
    assert_eq!(ctx.find(1000), Some(0));
    assert!(!ctx.close(3, false));
    assert_eq!(ctx.requests.len(), 0);
}
