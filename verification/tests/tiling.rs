use tiling_wm::atoms::Atoms;
use tiling_wm::client::Client;
use tiling_wm::context::Context;
use tiling_wm::layout::Position;
use tiling_wm::requests::Request;
use tiling_wm::tiling::{cell_size, grid_dimensions, offset_by, Layout};

fn atoms() -> Atoms {
    let replies: Vec<u32> = (100..119).collect();
    Atoms::from_replies(&replies).unwrap()
}

/// A context with `n` clients: handle `i` has window `1000 + i` and frame
/// `2000 + i`.
fn context(n: u32) -> Context {
    let mut ctx = Context::new(atoms(), 1);
    for i in 0..n {
        let client = Client::new(1000 + i, 2000 + i, String::new(), 1).unwrap();
        assert_eq!(ctx.insert_client(client), Some(i as usize));
    }
    ctx
}

fn rect(ctx: &Context, handle: usize) -> (u16, u16, u16, u16) {
    let c = ctx.windows.get(handle).unwrap();
    (c.x, c.y, c.width, c.height)
}

/// The frames that were configured, in the order of the requests.
fn configured_frames(requests: &[Request]) -> Vec<u32> {
    let mut frames = Vec::new();
    for r in requests {
        if let Request::ConfigureWindow { window, .. } = r {
            if *window >= 2000 {
                frames.push(*window);
            }
        }
    }
    frames
}

const SCREEN: Position = Position { x: 0, y: 0, width: 1000, height: 800 };

#[test]
fn grid_has_ceil_sqrt_columns_and_ceil_quotient_rows() {
    let expected = [
        (0, (0, 0)),
        (1, (1, 1)),
        (2, (2, 1)),
        (3, (2, 2)),
        (4, (2, 2)),
        (5, (3, 2)),
        (6, (3, 2)),
        (7, (3, 3)),
        (9, (3, 3)),
        (10, (4, 3)),
        (16, (4, 4)),
        (17, (5, 4)),
        (100, (10, 10)),
        (101, (11, 10)),
    ];
    for (n, dims) in expected {
        assert_eq!(grid_dimensions(n), dims, "n = {}", n);
    }
}

#[test]
fn cell_size_divides_and_rounds_down() {
    assert_eq!(cell_size(1000, 3), 333);
    assert_eq!(cell_size(800, 2), 400);
    assert_eq!(cell_size(5, 10), 0);
    assert_eq!(cell_size(0, 1), 0);
    assert_eq!(cell_size(65535, 1), 65535);
    assert_eq!(cell_size(65535, 70000), 0);
}

#[test]
fn offset_adds_and_clips() {
    assert_eq!(offset_by(10, 1, 2, 333), 677);
    assert_eq!(offset_by(0, 0, 0, 0), 0);
    assert_eq!(offset_by(65535, 1, 0, 0), 65535);
    assert_eq!(offset_by(60000, 0, 2, 3000), 65535);
    assert_eq!(offset_by(0, 0, 70000, 1), 65535);
    assert_eq!(offset_by(0, 0, 70000, 0), 0);
    assert_eq!(offset_by(0, 0, 65535, 1), 65535);
    assert_eq!(offset_by(1, 1, 65533, 1), 65535);
}

#[test]
fn layouts_cycle_in_order_and_wrap() {
    assert_eq!(Layout::Grid.next(), Layout::MasterLeft);
    assert_eq!(Layout::MasterLeft.next(), Layout::MasterRight);
    assert_eq!(Layout::MasterRight.next(), Layout::MasterLeftGrid);
    assert_eq!(Layout::MasterLeftGrid.next(), Layout::MasterRightGrid);
    assert_eq!(Layout::MasterRightGrid.next(), Layout::Monocle);
    assert_eq!(Layout::Monocle.next(), Layout::Grid);
}

#[test]
fn layouts_have_symbols() {
    assert_eq!(Layout::Grid.symbol(), "HHH");
    assert_eq!(Layout::MasterLeft.symbol(), "[]=");
    assert_eq!(Layout::MasterRight.symbol(), "=[]");
    assert_eq!(Layout::MasterLeftGrid.symbol(), "[]H");
    assert_eq!(Layout::MasterRightGrid.symbol(), "H[]");
    assert_eq!(Layout::Monocle.symbol(), "[M]");
}

#[test]
fn empty_list_is_a_no_op() {
    for layout in [Layout::Grid, Layout::MasterLeft, Layout::MasterRightGrid, Layout::Monocle] {
        let mut ctx = context(2);
        layout.retile(&[], 2, SCREEN, &mut ctx);
        assert_eq!(ctx.requests.len(), 0);
        assert_eq!(rect(&ctx, 0), (0, 0, 1, 1));
    }
}

#[test]
fn single_window_fills_the_rectangle_in_every_layout() {
    for layout in [
        Layout::Grid,
        Layout::MasterLeft,
        Layout::MasterRight,
        Layout::MasterLeftGrid,
        Layout::MasterRightGrid,
        Layout::Monocle,
    ] {
        let mut ctx = context(1);
        layout.retile(&[0], 2, SCREEN, &mut ctx);
        assert_eq!(rect(&ctx, 0), (1, 1, 998, 798));
        assert_eq!(
            ctx.requests.take(),
            vec![
                Request::ConfigureWindow { window: 2000, x: 1, y: 1, width: 994, height: 794 },
                Request::ConfigureWindow { window: 1000, x: 0, y: 20, width: 994, height: 774 },
            ]
        );
    }
}

#[test]
fn grid_of_three_gives_the_newest_the_first_cell() {
    let mut ctx = context(3);
    Layout::Grid.retile(&[0, 1, 2], 2, SCREEN, &mut ctx);
    assert_eq!(rect(&ctx, 2), (1, 1, 498, 398));
    assert_eq!(rect(&ctx, 1), (501, 1, 498, 398));
    assert_eq!(rect(&ctx, 0), (1, 401, 498, 398));
    let requests = ctx.requests.take();
    assert_eq!(requests.len(), 6);
    assert_eq!(configured_frames(&requests), vec![2002, 2001, 2000]);
    assert_eq!(
        requests[0],
        Request::ConfigureWindow { window: 2002, x: 1, y: 1, width: 494, height: 394 }
    );
    assert_eq!(
        requests[1],
        Request::ConfigureWindow { window: 1002, x: 0, y: 20, width: 494, height: 374 }
    );
}

#[test]
fn grid_of_five_has_three_columns() {
    let mut ctx = context(5);
    Layout::Grid.retile(&[0, 1, 2, 3, 4], 2, SCREEN, &mut ctx);
    assert_eq!(rect(&ctx, 4), (1, 1, 331, 398));
    assert_eq!(rect(&ctx, 3), (334, 1, 331, 398));
    assert_eq!(rect(&ctx, 2), (667, 1, 331, 398));
    assert_eq!(rect(&ctx, 1), (1, 401, 331, 398));
    assert_eq!(rect(&ctx, 0), (334, 401, 331, 398));
}

#[test]
fn grid_respects_the_offset_of_the_rectangle() {
    let mut ctx = context(2);
    Layout::Grid.retile(&[0, 1], 4, Position::new(10, 24, 980, 776), &mut ctx);
    assert_eq!(rect(&ctx, 1), (12, 26, 486, 772));
    assert_eq!(rect(&ctx, 0), (502, 26, 486, 772));
}

#[test]
fn master_left_puts_the_newest_left_and_stacks_the_rest() {
    let mut ctx = context(3);
    Layout::MasterLeft.retile(&[0, 1, 2], 2, SCREEN, &mut ctx);
    assert_eq!(rect(&ctx, 2), (1, 1, 498, 798));
    assert_eq!(rect(&ctx, 1), (501, 1, 498, 398));
    assert_eq!(rect(&ctx, 0), (501, 401, 498, 398));
    assert_eq!(configured_frames(&ctx.requests.take()), vec![2002, 2001, 2000]);
}

#[test]
fn master_right_mirrors_master_left() {
    let mut ctx = context(3);
    Layout::MasterRight.retile(&[0, 1, 2], 2, SCREEN, &mut ctx);
    assert_eq!(rect(&ctx, 2), (501, 1, 498, 798));
    assert_eq!(rect(&ctx, 1), (1, 1, 498, 398));
    assert_eq!(rect(&ctx, 0), (1, 401, 498, 398));
}

#[test]
fn master_with_two_windows_gives_each_a_half() {
    let mut ctx = context(2);
    Layout::MasterLeft.retile(&[0, 1], 2, SCREEN, &mut ctx);
    assert_eq!(rect(&ctx, 1), (1, 1, 498, 798));
    assert_eq!(rect(&ctx, 0), (501, 1, 498, 798));
}

#[test]
fn master_left_grid_tiles_the_right_half_as_a_grid() {
    let mut ctx = context(4);
    Layout::MasterLeftGrid.retile(&[0, 1, 2, 3], 2, SCREEN, &mut ctx);
    assert_eq!(rect(&ctx, 3), (1, 1, 498, 798));
    assert_eq!(rect(&ctx, 2), (501, 1, 248, 398));
    assert_eq!(rect(&ctx, 1), (751, 1, 248, 398));
    assert_eq!(rect(&ctx, 0), (501, 401, 248, 398));
    assert_eq!(configured_frames(&ctx.requests.take()), vec![2003, 2002, 2001, 2000]);
}

#[test]
fn master_right_grid_tiles_the_left_half_as_a_grid() {
    let mut ctx = context(4);
    Layout::MasterRightGrid.retile(&[0, 1, 2, 3], 2, SCREEN, &mut ctx);
    assert_eq!(rect(&ctx, 3), (501, 1, 498, 798));
    assert_eq!(rect(&ctx, 2), (1, 1, 248, 398));
    assert_eq!(rect(&ctx, 1), (251, 1, 248, 398));
    assert_eq!(rect(&ctx, 0), (1, 401, 248, 398));
}

#[test]
fn master_grid_with_two_windows_fills_the_other_half() {
    let mut ctx = context(2);
    Layout::MasterLeftGrid.retile(&[0, 1], 2, SCREEN, &mut ctx);
    assert_eq!(rect(&ctx, 1), (1, 1, 498, 798));
    assert_eq!(rect(&ctx, 0), (501, 1, 498, 798));
}

#[test]
fn monocle_parks_all_but_the_newest() {
    let mut ctx = context(3);
    Layout::Monocle.retile(&[0, 1, 2], 2, SCREEN, &mut ctx);
    assert_eq!(rect(&ctx, 0), (1, 1, 30, 30));
    assert_eq!(rect(&ctx, 1), (1, 1, 30, 30));
    assert_eq!(rect(&ctx, 2), (1, 1, 998, 798));
    assert_eq!(configured_frames(&ctx.requests.take()), vec![2000, 2001, 2002]);
}

#[test]
fn every_master_rectangle_lies_inside_the_inset_screen() {
    let gap = 6u16;
    let pos = Position::new(20, 30, 901, 701);
    for layout in [
        Layout::MasterLeft,
        Layout::MasterRight,
        Layout::MasterLeftGrid,
        Layout::MasterRightGrid,
    ] {
        for n in 2..=7usize {
            let mut ctx = context(n as u32);
            let handles: Vec<usize> = (0..n).collect();
            layout.retile(&handles, gap, pos, &mut ctx);
            for h in 0..n {
                let (x, y, w, hgt) = rect(&ctx, h);
                assert!(w > 0 && hgt > 0);
                assert!(x >= pos.x + gap / 2 && y >= pos.y + gap / 2);
                assert!(x + w <= pos.x + pos.width - gap / 2);
                assert!(y + hgt <= pos.y + pos.height - gap / 2);
            }
            let (_, _, master_width, _) = rect(&ctx, n - 1);
            assert_eq!(master_width, pos.width / 2 - gap);
        }
    }
}

#[test]
fn gap_larger_than_a_cell_gives_size_zero() {
    let mut ctx = context(2);
    Layout::Grid.retile(&[0, 1], 50, Position::new(0, 0, 10, 10), &mut ctx);
    assert_eq!(rect(&ctx, 1), (25, 25, 0, 0));
    assert_eq!(rect(&ctx, 0), (30, 25, 0, 0));
}

#[test]
fn coordinates_stop_at_the_largest_value() {
    let mut ctx = context(2);
    Layout::MasterRight.retile(&[0, 1], 2, Position::new(65000, 65535, 2000, 100), &mut ctx);
    assert_eq!(rect(&ctx, 1), (65535, 65535, 998, 98));
    assert_eq!(rect(&ctx, 0), (65001, 65535, 998, 98));
}

#[test]
fn empty_rectangle_gives_empty_windows() {
    let mut ctx = context(3);
    Layout::Grid.retile(&[0, 1, 2], 0, Position::new(0, 0, 0, 0), &mut ctx);
    for h in 0..3 {
        assert_eq!(rect(&ctx, h), (0, 0, 0, 0));
    }
}

#[test]
fn handles_without_clients_are_passed_over() {
    let mut ctx = context(2);
    Layout::Grid.retile(&[0, 7, 1], 2, SCREEN, &mut ctx);
    assert_eq!(rect(&ctx, 1), (1, 1, 498, 398));
    assert_eq!(rect(&ctx, 0), (1, 401, 498, 398));
    assert_eq!(configured_frames(&ctx.requests.take()), vec![2001, 2000]);
}
