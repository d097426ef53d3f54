use vstd::prelude::*;

verus! {

/// An axis-aligned rectangle on the playfield, in whole pixels.
#[derive(Clone, Copy, Debug, PartialEq, Eq, Structural)]
pub struct Rect {
    pub x: i32,
    pub y: i32,
    pub width: u32,
    pub height: u32,
}

impl Rect {
    pub fn new(x: i32, y: i32, width: u32, height: u32) -> (r: Rect)
        ensures
            r == (Rect { x, y, width, height }),
    {
        Rect { x, y, width, height }
    }

    /// One past the rightmost column.
    pub open spec fn x_max(self) -> int {
        self.x + self.width
    }

    /// One past the bottom row.
    pub open spec fn y_max(self) -> int {
        self.y + self.height
    }
}

} // verus!
