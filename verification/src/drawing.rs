//! Geometry for drawing into a rectangle.

use vstd::prelude::*;

use crate::layout::Position;

verus! {

/// A rectangle as the display server takes it: the corner is signed.
#[derive(Debug, Clone, Copy, PartialEq, Eq, Structural)]
pub struct Rectangle {
    pub x: i16,
    pub y: i16,
    pub width: u16,
    pub height: u16,
}

/// `v` as a signed coordinate: values from 32768 on wrap to the negative.
pub open spec fn signed16(v: u16) -> i16 {
    if v < 0x8000 {
        v as i16
    } else {
        (v - 0x1_0000) as i16
    }
}

/// Why nothing is drawn.
#[derive(Debug, Clone, Copy, PartialEq, Eq, Structural)]
pub enum DrawError {
    /// The corner of the rectangle lies outside the area.
    Outside,
}

/// The part of `pos` that lies in an area of size `width` by `height`.
pub open spec fn clipped(pos: Position, width: u16, height: u16) -> Position {
    Position {
        x: pos.x,
        y: pos.y,
        width: if pos.x + pos.width > width {
            (width - pos.x) as u16
        } else {
            pos.width
        },
        height: if pos.y + pos.height > height {
            (height - pos.y) as u16
        } else {
            pos.height
        },
    }
}

impl Position {
    /// The rectangle as the display server takes it.
    pub fn into_rectangle(self) -> (r: Rectangle)
        ensures
            r == (Rectangle {
                x: signed16(self.x),
                y: signed16(self.y),
                width: self.width,
                height: self.height,
            }),
    {
        Rectangle {
            x: to_signed(self.x),
            y: to_signed(self.y),
            width: self.width,
            height: self.height,
        }
    }
}

/// `v` as a signed coordinate.
fn to_signed(v: u16) -> (r: i16)
    ensures
        r == signed16(v),
{
    if v < 0x8000 {
        v as i16
    } else {
        (v as i32 - 0x1_0000) as i16
    }
}

/// The part of `pos` that is drawn into an area of size `width` by `height`:
/// `pos` cut off at the right and bottom edge of the area. Nothing is drawn
/// where the corner of `pos` lies outside the area.
pub fn clip_rect(pos: Position, width: u16, height: u16) -> (r: Result<Position, DrawError>)
    ensures
        pos.x >= width || pos.y >= height ==> r == Err::<Position, DrawError>(DrawError::Outside),
        pos.x < width && pos.y < height ==> r == Ok::<Position, DrawError>(
            clipped(pos, width, height),
        ),
        r is Ok ==> r.unwrap().right() <= width && r.unwrap().bottom() <= height,
{
    if pos.x >= width || pos.y >= height {
        return Err(DrawError::Outside);
    }
    let mut pos = pos;
    if pos.x as u32 + pos.width as u32 > width as u32 {
        pos.width = width - pos.x;
    }
    if pos.y as u32 + pos.height as u32 > height as u32 {
        pos.height = height - pos.y;
    }
    Ok(pos)
}

} // verus!
