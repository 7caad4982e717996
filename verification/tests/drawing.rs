use tiling_wm::drawing::{clip_rect, DrawError, Rectangle};
use tiling_wm::layout::Position;

#[test]
fn rectangle_inside_is_unchanged() {
    let pos = Position::new(10, 5, 100, 20);
    assert_eq!(clip_rect(pos, 1000, 25), Ok(pos));
}

#[test]
fn rectangle_is_cut_at_right_and_bottom() {
    let pos = Position::new(900, 20, 200, 10);
    assert_eq!(clip_rect(pos, 1000, 25), Ok(Position::new(900, 20, 100, 5)));
}

#[test]
fn rectangle_that_ends_at_the_edge_is_unchanged() {
    let pos = Position::new(0, 0, 1000, 25);
    assert_eq!(clip_rect(pos, 1000, 25), Ok(pos));
}

#[test]
fn corner_outside_is_an_error() {
    assert_eq!(clip_rect(Position::new(1000, 0, 1, 1), 1000, 25), Err(DrawError::Outside));
    assert_eq!(clip_rect(Position::new(0, 25, 1, 1), 1000, 25), Err(DrawError::Outside));
    assert_eq!(clip_rect(Position::new(0, 0, 1, 1), 0, 0), Err(DrawError::Outside));
}

#[test]
fn large_rectangle_does_not_overflow() {
    let pos = Position::new(65000, 65000, 65535, 65535);
    assert_eq!(clip_rect(pos, 65535, 65535), Ok(Position::new(65000, 65000, 535, 535)));
}

#[test]
fn rectangle_for_the_server_keeps_small_corners() {
    let r = Position::new(3, 4, 5, 6).into_rectangle();
    assert_eq!(r, Rectangle { x: 3, y: 4, width: 5, height: 6 });
}

#[test]
fn rectangle_for_the_server_wraps_large_corners() {
    let r = Position::new(32768, 65535, 1, 2).into_rectangle();
    assert_eq!(r, Rectangle { x: -32768, y: -1, width: 1, height: 2 });
    let r = Position::new(32767, 0, 1, 2).into_rectangle();
    assert_eq!(r, Rectangle { x: 32767, y: 0, width: 1, height: 2 });
}
