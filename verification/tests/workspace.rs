use tiling_wm::atoms::Atoms;
use tiling_wm::client::Client;
use tiling_wm::context::Context;
use tiling_wm::layout::{Position, Workspace};
use tiling_wm::requests::Request;
use tiling_wm::tiling::Layout;

fn atoms() -> Atoms {
    let replies: Vec<u32> = (100..119).collect();
    Atoms::from_replies(&replies).unwrap()
}

fn context(n: u32) -> Context {
    let mut ctx = Context::new(atoms(), 1);
    for i in 0..n {
        let client = Client::new(1000 + i, 2000 + i, String::new(), 1).unwrap();
        ctx.insert_client(client);
    }
    ctx
}

fn rect(ctx: &Context, handle: usize) -> (u16, u16, u16, u16) {
    let c = ctx.windows.get(handle).unwrap();
    (c.x, c.y, c.width, c.height)
}

const SCREEN: Position = Position { x: 0, y: 0, width: 1000, height: 800 };

fn shown_workspace(ctx: &mut Context) -> Workspace {
    let mut ws = Workspace::new(SCREEN, 2, 1);
    ws.show(ctx);
    ctx.requests.take();
    ws
}

#[test]
fn new_workspace_is_empty_hidden_and_named_after_its_id() {
    let ws = Workspace::new(SCREEN, 2, 7);
    assert_eq!(ws.id(), 7);
    assert_eq!(ws.name(), "Desktop 7");
    assert_eq!(ws.get_screen_position(), SCREEN);
    assert_eq!(ws.layout(), Layout::Grid);
    assert!(!ws.is_showing());
    assert_eq!(ws.focused(), None);
    assert!(ws.windows().is_empty());
    assert_eq!(ws.window_amount(), 0);
}

#[test]
fn names_are_written_in_decimal() {
    assert_eq!(Workspace::new(SCREEN, 0, 0).name(), "Desktop 0");
    assert_eq!(Workspace::new(SCREEN, 0, 10).name(), "Desktop 10");
    assert_eq!(Workspace::new(SCREEN, 0, 905).name(), "Desktop 905");
    assert_eq!(Workspace::new(SCREEN, 0, 4294967295).name(), "Desktop 4294967295");
}

#[test]
fn spawn_in_a_hidden_workspace_maps_but_does_not_tile() {
    let mut ctx = context(1);
    let mut ws = Workspace::new(SCREEN, 2, 1);
    ws.spawn_window(0, &mut ctx);
    assert_eq!(ws.windows(), vec![0]);
    assert_eq!(
        ctx.requests.take(),
        vec![Request::MapWindow { window: 2000 }, Request::MapWindow { window: 1000 }]
    );
    assert_eq!(rect(&ctx, 0), (0, 0, 1, 1));
}

#[test]
fn spawn_in_a_shown_workspace_maps_and_tiles() {
    let mut ctx = context(2);
    let mut ws = shown_workspace(&mut ctx);
    ws.spawn_window(0, &mut ctx);
    assert_eq!(rect(&ctx, 0), (1, 1, 998, 798));
    ws.spawn_window(1, &mut ctx);
    assert_eq!(ws.windows(), vec![0, 1]);
    assert_eq!(rect(&ctx, 1), (1, 1, 498, 798));
    assert_eq!(rect(&ctx, 0), (501, 1, 498, 798));
    assert!(ctx.windows.get(0).unwrap().visible);
}

#[test]
fn spawn_of_a_held_window_does_not_add_it_twice() {
    let mut ctx = context(1);
    let mut ws = shown_workspace(&mut ctx);
    ws.spawn_window(0, &mut ctx);
    ws.spawn_window(0, &mut ctx);
    assert_eq!(ws.windows(), vec![0]);
    assert_eq!(ws.window_amount(), 1);
}

#[test]
fn toggle_floating_moves_between_the_lists() {
    let mut ctx = context(3);
    let mut ws = shown_workspace(&mut ctx);
    for h in 0..3 {
        ws.spawn_window(h, &mut ctx);
    }
    ws.toggle_floating(1, &mut ctx);
    assert_eq!(ws.windows, vec![0, 2]);
    assert_eq!(ws.floating_windows(), &vec![1]);
    assert_eq!(ws.windows(), vec![0, 2, 1]);
    assert_eq!(rect(&ctx, 2), (1, 1, 498, 798));
    assert_eq!(rect(&ctx, 0), (501, 1, 498, 798));
    ws.toggle_floating(1, &mut ctx);
    assert_eq!(ws.windows, vec![0, 2, 1]);
    assert!(ws.floating_windows().is_empty());
}

#[test]
fn toggle_floating_of_an_unknown_window_does_nothing() {
    let mut ctx = context(2);
    let mut ws = shown_workspace(&mut ctx);
    ws.spawn_window(0, &mut ctx);
    ctx.requests.take();
    ws.toggle_floating(1, &mut ctx);
    assert_eq!(ws.windows(), vec![0]);
    assert_eq!(ctx.requests.len(), 0);
}

#[test]
fn toggle_floating_keeps_the_focus() {
    let mut ctx = context(2);
    let mut ws = shown_workspace(&mut ctx);
    ws.spawn_window(0, &mut ctx);
    ws.spawn_window(1, &mut ctx);
    assert!(ws.focus_client(1, &mut ctx));
    ws.toggle_floating(1, &mut ctx);
    assert_eq!(ws.focused(), Some(1));
}

#[test]
fn find_and_get_window_tell_list_and_position() {
    let mut ctx = context(4);
    let mut ws = shown_workspace(&mut ctx);
    for h in 0..4 {
        ws.spawn_window(h, &mut ctx);
    }
    ws.toggle_floating(0, &mut ctx);
    ws.toggle_floating(2, &mut ctx);
    assert_eq!(ws.find_floating_window(3), Some((1, true)));
    assert_eq!(ws.find_floating_window(2), Some((1, false)));
    assert_eq!(ws.find_floating_window(9), None);
    assert_eq!(ws.get_window(1), Some((0, false)));
    assert_eq!(ws.get_window(0), Some((0, true)));
    assert_eq!(ws.get_window(9), None);
}

#[test]
fn remove_window_takes_it_out_and_retiles() {
    let mut ctx = context(3);
    let mut ws = shown_workspace(&mut ctx);
    for h in 0..3 {
        ws.spawn_window(h, &mut ctx);
    }
    ctx.requests.take();
    ws.remove_window(1, &mut ctx);
    assert_eq!(ws.windows(), vec![0, 2]);
    assert_eq!(rect(&ctx, 2), (1, 1, 498, 798));
    assert_eq!(rect(&ctx, 0), (501, 1, 498, 798));
    assert_eq!(ctx.requests.len(), 4);
}

#[test]
fn remove_of_the_focused_window_clears_the_focus() {
    let mut ctx = context(2);
    let mut ws = shown_workspace(&mut ctx);
    ws.spawn_window(0, &mut ctx);
    ws.spawn_window(1, &mut ctx);
    ws.focus_client(0, &mut ctx);
    ctx.requests.take();
    ws.remove_window(0, &mut ctx);
    assert_eq!(ws.focused(), None);
    let requests = ctx.requests.take();
    assert_eq!(requests[0], Request::SetBorderPixel { window: 2000, pixel: 0x0044_4444 });
}

#[test]
fn remove_of_an_unknown_window_does_not_retile() {
    let mut ctx = context(2);
    let mut ws = shown_workspace(&mut ctx);
    ws.spawn_window(0, &mut ctx);
    ctx.requests.take();
    ws.remove_window(1, &mut ctx);
    assert_eq!(ctx.requests.len(), 0);
    assert_eq!(ws.windows(), vec![0]);
}

#[test]
fn show_maps_every_window_tiles_and_resends() {
    let mut ctx = context(3);
    let mut ws = Workspace::new(SCREEN, 2, 1);
    ws.spawn_window(0, &mut ctx);
    ws.spawn_window(1, &mut ctx);
    ws.spawn_window(2, &mut ctx);
    ws.toggle_floating(2, &mut ctx);
    ctx.requests.take();
    ws.show(&mut ctx);
    assert!(ws.is_showing());
    let requests = ctx.requests.take();
    assert_eq!(
        requests[0..6].to_vec(),
        vec![
            Request::MapWindow { window: 2000 },
            Request::MapWindow { window: 1000 },
            Request::MapWindow { window: 2001 },
            Request::MapWindow { window: 1001 },
            Request::MapWindow { window: 2002 },
            Request::MapWindow { window: 1002 },
        ]
    );
    assert_eq!(requests.len(), 6 + 4 + 4);
    let master = vec![
        Request::ConfigureWindow { window: 2001, x: 1, y: 1, width: 494, height: 794 },
        Request::ConfigureWindow { window: 1001, x: 0, y: 20, width: 494, height: 774 },
    ];
    let other = vec![
        Request::ConfigureWindow { window: 2000, x: 501, y: 1, width: 494, height: 794 },
        Request::ConfigureWindow { window: 1000, x: 0, y: 20, width: 494, height: 774 },
    ];
    assert_eq!(requests[6..8].to_vec(), master);
    assert_eq!(requests[8..10].to_vec(), other);
    assert_eq!(requests[10..12].to_vec(), other);
    assert_eq!(requests[12..14].to_vec(), master);
}

#[test]
fn conceal_takes_the_focus_and_unmaps_every_window() {
    let mut ctx = context(2);
    let mut ws = shown_workspace(&mut ctx);
    ws.spawn_window(0, &mut ctx);
    ws.spawn_window(1, &mut ctx);
    ws.toggle_floating(1, &mut ctx);
    ws.focus_client(0, &mut ctx);
    ctx.requests.take();
    ws.conceal(&mut ctx);
    assert!(!ws.is_showing());
    assert_eq!(ws.focused(), None);
    assert_eq!(
        ctx.requests.take(),
        vec![
            Request::SetBorderPixel { window: 2000, pixel: 0x0044_4444 },
            Request::UnmapWindow { window: 1000 },
            Request::UnmapWindow { window: 2000 },
            Request::UnmapWindow { window: 1001 },
            Request::UnmapWindow { window: 2001 },
        ]
    );
    assert!(!ctx.windows.get(0).unwrap().visible);
}

#[test]
fn retile_is_a_no_op_while_hidden() {
    let mut ctx = context(2);
    let mut ws = Workspace::new(SCREEN, 2, 1);
    ws.spawn_window(0, &mut ctx);
    ws.spawn_window(1, &mut ctx);
    ctx.requests.take();
    ws.cycle_layout(&mut ctx);
    ws.set_layout(Layout::Monocle, &mut ctx);
    ws.set_screen_position(Position::new(0, 24, 1000, 776), &mut ctx);
    ws.set_screen_size(500, 500, &mut ctx);
    ws.set_screen_offset(5, 5, &mut ctx);
    assert_eq!(ctx.requests.len(), 0);
    assert_eq!(ws.layout(), Layout::Monocle);
    assert_eq!(ws.get_screen_position(), Position::new(5, 5, 500, 500));
}

#[test]
fn floating_windows_do_not_take_part_in_tiling() {
    let mut ctx = context(1);
    let mut ws = shown_workspace(&mut ctx);
    ws.spawn_window(0, &mut ctx);
    ws.toggle_floating(0, &mut ctx);
    ctx.requests.take();
    ws.cycle_layout(&mut ctx);
    assert_eq!(ctx.requests.len(), 0);
}

#[test]
fn cycle_layout_goes_through_all_layouts() {
    let mut ctx = context(2);
    let mut ws = shown_workspace(&mut ctx);
    ws.spawn_window(0, &mut ctx);
    ws.spawn_window(1, &mut ctx);
    let mut seen = vec![ws.layout()];
    for _ in 0..6 {
        ws.cycle_layout(&mut ctx);
        seen.push(ws.layout());
    }
    assert_eq!(
        seen,
        vec![
            Layout::Grid,
            Layout::MasterLeft,
            Layout::MasterRight,
            Layout::MasterLeftGrid,
            Layout::MasterRightGrid,
            Layout::Monocle,
            Layout::Grid,
        ]
    );
}

#[test]
fn set_layout_retiles_only_on_a_change() {
    let mut ctx = context(2);
    let mut ws = shown_workspace(&mut ctx);
    ws.spawn_window(0, &mut ctx);
    ws.spawn_window(1, &mut ctx);
    ctx.requests.take();
    ws.set_layout(Layout::Grid, &mut ctx);
    assert_eq!(ctx.requests.len(), 0);
    ws.set_layout(Layout::MasterRight, &mut ctx);
    assert_eq!(ctx.requests.len(), 4);
    assert_eq!(rect(&ctx, 1), (501, 1, 498, 798));
    assert_eq!(rect(&ctx, 0), (1, 1, 498, 798));
}

#[test]
fn set_screen_position_retiles() {
    let mut ctx = context(1);
    let mut ws = shown_workspace(&mut ctx);
    ws.spawn_window(0, &mut ctx);
    ws.set_screen_position(Position::new(0, 24, 1000, 776), &mut ctx);
    assert_eq!(rect(&ctx, 0), (1, 25, 998, 774));
    ws.set_screen_size(600, 400, &mut ctx);
    assert_eq!(rect(&ctx, 0), (1, 25, 598, 398));
    ws.set_screen_offset(10, 0, &mut ctx);
    assert_eq!(rect(&ctx, 0), (11, 1, 598, 398));
}

#[test]
fn focus_moves_from_one_client_to_the_other() {
    let mut ctx = context(2);
    let mut ws = shown_workspace(&mut ctx);
    ws.spawn_window(0, &mut ctx);
    ws.spawn_window(1, &mut ctx);
    ctx.requests.take();
    assert!(ws.focus_client(0, &mut ctx));
    assert_eq!(
        ctx.requests.take(),
        vec![
            Request::SetBorderPixel { window: 2000, pixel: 0x0052_94e2 },
            Request::SetInputFocus { focus: 1000 },
        ]
    );
    assert!(ws.focus_client(1, &mut ctx));
    assert_eq!(ws.focused(), Some(1));
    assert_eq!(
        ctx.requests.take(),
        vec![
            Request::SetBorderPixel { window: 2000, pixel: 0x0044_4444 },
            Request::SetBorderPixel { window: 2001, pixel: 0x0052_94e2 },
            Request::SetInputFocus { focus: 1001 },
        ]
    );
}

#[test]
fn focus_on_an_unknown_window_fails_and_clears_the_focus() {
    let mut ctx = context(2);
    let mut ws = shown_workspace(&mut ctx);
    ws.spawn_window(0, &mut ctx);
    ws.focus_client(0, &mut ctx);
    ctx.requests.take();
    assert!(!ws.focus_client(1, &mut ctx));
    assert_eq!(ws.focused(), None);
    assert_eq!(
        ctx.requests.take(),
        vec![Request::SetBorderPixel { window: 2000, pixel: 0x0044_4444 }]
    );
}

#[test]
fn unfocus_acts_only_on_the_focused_window() {
    let mut ctx = context(2);
    let mut ws = shown_workspace(&mut ctx);
    ws.spawn_window(0, &mut ctx);
    ws.spawn_window(1, &mut ctx);
    ws.focus_client(0, &mut ctx);
    ctx.requests.take();
    ws.unfocus(1, &mut ctx);
    assert_eq!(ws.focused(), Some(0));
    assert_eq!(ctx.requests.len(), 0);
    ws.unfocus(0, &mut ctx);
    assert_eq!(ws.focused(), None);
    assert_eq!(ctx.requests.len(), 1);
    ws.unfocus_all(&mut ctx);
    assert_eq!(ctx.requests.len(), 1);
}

#[test]
fn clear_windows_forgets_everything() {
    let mut ctx = context(2);
    let mut ws = shown_workspace(&mut ctx);
    ws.spawn_window(0, &mut ctx);
    ws.spawn_window(1, &mut ctx);
    ws.toggle_floating(1, &mut ctx);
    ws.focus_client(0, &mut ctx);
    ws.clear_windows();
    assert!(ws.windows().is_empty());
    assert_eq!(ws.focused(), None);
    assert_eq!(ws.window_amount(), 0);
    assert!(ws.is_showing());
}

#[test]
fn close_window_with_a_delivered_message_keeps_the_window() {
    let mut ctx = context(2);
    let mut ws = shown_workspace(&mut ctx);
    ws.spawn_window(0, &mut ctx);
    ws.spawn_window(1, &mut ctx);
    ctx.requests.take();
    assert!(!ws.close_window(0, true, &mut ctx));
    assert_eq!(ws.windows(), vec![0, 1]);
    assert_eq!(ctx.requests.len(), 0);
}

#[test]
fn close_window_without_delivery_drops_the_window_at_once() {
    let mut ctx = context(2);
    let mut ws = shown_workspace(&mut ctx);
    ws.spawn_window(0, &mut ctx);
    ws.spawn_window(1, &mut ctx);
    ctx.requests.take();
    assert!(ws.close_window(0, false, &mut ctx));
    assert_eq!(ws.windows(), vec![1]);
    let requests = ctx.requests.take();
    assert_eq!(
        requests[0..2].to_vec(),
        vec![Request::DestroyWindow { window: 1000 }, Request::DestroyWindow { window: 2000 }]
    );
    assert_eq!(requests.len(), 4);
    assert_eq!(rect(&ctx, 1), (1, 1, 998, 798));
}

#[test]
fn close_window_acts_only_on_windows_of_the_workspace() {
    let mut ctx = context(2);
    let mut ws = shown_workspace(&mut ctx);
    ws.spawn_window(0, &mut ctx);
    ws.spawn_window(5, &mut ctx);
    ctx.requests.take();
    assert!(!ws.close_window(1, false, &mut ctx));
    assert!(!ws.close_window(5, false, &mut ctx));
    assert_eq!(ws.windows(), vec![0, 5]);
    assert_eq!(ctx.requests.len(), 0);
}
