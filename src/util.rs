use vstd::prelude::*;

use crate::game::{CANVAS_HEIGHT, CANVAS_WIDTH};
use crate::rect::Rect;

verus! {

/// Strict overlap of two rectangles: rectangles that only share an edge do
/// not overlap.
pub open spec fn rects_overlap(a: Rect, b: Rect) -> bool {
    a.x_max() > b.x && b.x_max() > a.x && a.y_max() > b.y && b.y_max() > a.y
}

pub fn overlaps(a: &Rect, b: &Rect) -> (r: bool)
    ensures
        r == rects_overlap(*a, *b),
{
    let a_xmax: i64 = a.x as i64 + a.width as i64;
    let a_ymax: i64 = a.y as i64 + a.height as i64;

    let b_xmax: i64 = b.x as i64 + b.width as i64;
    let b_ymax: i64 = b.y as i64 + b.height as i64;

    a_xmax > b.x as i64 && b_xmax > a.x as i64 && a_ymax > b.y as i64 && b_ymax > a.y as i64
}

/// Overlap is symmetric, and every rectangle of nonzero size overlaps itself.
pub proof fn overlaps_symmetric(a: Rect, b: Rect)
    ensures
        rects_overlap(a, b) == rects_overlap(b, a),
        a.width > 0 && a.height > 0 ==> rects_overlap(a, a),
{
}

/// Integer halving that rounds toward zero, as `/ 2` does on machine integers.
pub open spec fn half(v: int) -> int {
    if v >= 0 {
        v / 2
    } else {
        -((-v) / 2)
    }
}

pub open spec fn center_x_of(width: int) -> int {
    CANVAS_WIDTH - width - half(width)
}

pub open spec fn center_y_of(height: int) -> int {
    CANVAS_HEIGHT - height - half(height)
}

fn halve(v: i32) -> (r: i32)
    requires
        v > i32::MIN,
    ensures
        r == half(v as int),
{
    if v >= 0 {
        v / 2
    } else {
        -((-v) / 2)
    }
}

pub fn center_x(width: i32) -> (r: i32)
    requires
        i32::MIN <= center_x_of(width as int) <= i32::MAX,
    ensures
        r == center_x_of(width as int),
{
    let h = halve(width);
    CANVAS_WIDTH - width - h
}

pub fn center_y(height: i32) -> (r: i32)
    requires
        i32::MIN <= center_y_of(height as int) <= i32::MAX,
    ensures
        r == center_y_of(height as int),
{
    let h = halve(height);
    CANVAS_HEIGHT - height - h
}

/// `value - modifier` while that stays positive, `min` once it would not.
pub fn decrease_until_zero(value: i32, modifier: i32, min: i32) -> (r: i32)
    requires
        i32::MIN <= value - modifier <= i32::MAX,
    ensures
        r == (if value - modifier > 0 { value - modifier } else { min as int }),
{
    if value - modifier > 0 {
        value - modifier
    } else {
        min
    }
}

} // verus!
