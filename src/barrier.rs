use vstd::prelude::*;

use crate::game::{GameObject, CANVAS_HEIGHT, HEIGHT_DIV_4, PIXEL_SIZE};
use crate::rect::Rect;

verus! {

/// Number of one-cell-wide slices across a barrier.
pub const BARRIER_SLICES: usize = 24;

pub const BARRIER_WIDTH: u32 = 24 * 6;
pub const BARRIER_HEIGHT: u32 = 18 * 6;

/// Top edge shared by every barrier.
pub const BARRIER_Y: i32 = CANVAS_HEIGHT - HEIGHT_DIV_4;

#[derive(Debug)]
pub struct Collider {
    pub rect: Rect,
    pub is_destroyed: bool,
}

pub struct Barrier {
    pub game_object: GameObject,
    pub colliders: Vec<Collider>,
}

/// Heights, in cells, of the three stacked blocks of slice `j` of the left
/// half of a barrier; a height of 0 leaves that block out.
pub open spec fn half_profile(j: int, k: int) -> int {
    let t: (int, int, int) = if j == 0 {
        (5, 5, 5)
    } else if j == 1 {
        (5, 5, 6)
    } else if j == 2 {
        (5, 6, 6)
    } else if j <= 5 {
        (6, 6, 6)
    } else if j == 6 {
        (6, 6, 0)
    } else if j == 7 {
        (6, 5, 0)
    } else if j == 8 {
        (5, 5, 0)
    } else if j == 9 {
        (4, 5, 0)
    } else {
        (4, 4, 0)
    };
    if k == 0 {
        t.0
    } else if k == 1 {
        t.1
    } else {
        t.2
    }
}

/// The right half mirrors the left half.
pub open spec fn slice_height(i: int, k: int) -> int {
    if i < 12 {
        half_profile(i, k)
    } else {
        half_profile(23 - i, k)
    }
}

/// How many cells below the barrier's top the first block of slice `i`
/// starts: the three outer slices on each side are rounded off.
pub open spec fn slice_inset(i: int) -> int {
    if i == 0 || i == 23 {
        3
    } else if i == 1 || i == 22 {
        2
    } else if i == 2 || i == 21 {
        1
    } else {
        0
    }
}

pub open spec fn cell_rect(x: int, y: int, h: int) -> Rect {
    Rect { x: x as i32, y: y as i32, width: PIXEL_SIZE as u32, height: (h * PIXEL_SIZE) as u32 }
}

/// Blocks `k..3` of slice `i`, stacked downward from `y`.
pub open spec fn slice_blocks(x: int, y: int, i: int, k: int) -> Seq<Rect>
    decreases 3 - k,
{
    if k >= 3 {
        seq![]
    } else if slice_height(i, k) > 0 {
        seq![cell_rect(x, y, slice_height(i, k))] + slice_blocks(
            x,
            y + slice_height(i, k) * PIXEL_SIZE,
            i,
            k + 1,
        )
    } else {
        slice_blocks(x, y, i, k + 1)
    }
}

/// The blocks of the first `n` slices of a barrier whose top-left corner is
/// `(x, y)`, slice by slice from the left.
pub open spec fn barrier_layout_upto(x: int, y: int, n: int) -> Seq<Rect>
    decreases n,
{
    if n <= 0 {
        seq![]
    } else {
        barrier_layout_upto(x, y, n - 1) + slice_blocks(
            x + (n - 1) * PIXEL_SIZE,
            y + slice_inset(n - 1) * PIXEL_SIZE,
            n - 1,
            0,
        )
    }
}

pub open spec fn barrier_layout(x: int, y: int) -> Seq<Rect> {
    barrier_layout_upto(x, y, BARRIER_SLICES as int)
}

pub open spec fn collider_rects(cs: Seq<Collider>) -> Seq<Rect> {
    cs.map_values(|c: Collider| c.rect)
}

/// Colliders exactly tiling the barrier at `(x, y)`, none of them destroyed.
pub open spec fn fresh_colliders(cs: Seq<Collider>, x: int, y: int) -> bool {
    &&& collider_rects(cs) == barrier_layout(x, y)
    &&& forall|i: int| 0 <= i < cs.len() ==> !(#[trigger] cs[i]).is_destroyed
}

fn slice_height_exec(i: usize, k: usize) -> (r: u32)
    requires
        i < BARRIER_SLICES,
        k < 3,
    ensures
        r == slice_height(i as int, k as int),
        r <= 6,
{
    let j: usize = if i < 12 {
        i
    } else {
        23 - i
    };
    let t: (u32, u32, u32) = if j == 0 {
        (5, 5, 5)
    } else if j == 1 {
        (5, 5, 6)
    } else if j == 2 {
        (5, 6, 6)
    } else if j <= 5 {
        (6, 6, 6)
    } else if j == 6 {
        (6, 6, 0)
    } else if j == 7 {
        (6, 5, 0)
    } else if j == 8 {
        (5, 5, 0)
    } else if j == 9 {
        (4, 5, 0)
    } else {
        (4, 4, 0)
    };
    if k == 0 {
        t.0
    } else if k == 1 {
        t.1
    } else {
        t.2
    }
}

fn slice_inset_exec(i: usize) -> (r: i32)
    ensures
        r == slice_inset(i as int),
        0 <= r <= 3,
{
    if i == 0 || i == 23 {
        3
    } else if i == 1 || i == 22 {
        2
    } else if i == 2 || i == 21 {
        1
    } else {
        0
    }
}

impl Barrier {
    pub open spec fn is_fresh_at(self, x: int) -> bool {
        &&& self.game_object.rect == (Rect {
            x: x as i32,
            y: BARRIER_Y,
            width: BARRIER_WIDTH,
            height: BARRIER_HEIGHT,
        })
        &&& self.game_object.texture_name@ == "barrier_texture"@
        &&& !self.game_object.is_destroyed
        &&& fresh_colliders(self.colliders@, x, BARRIER_Y as int)
    }

    pub fn new(x: i32) -> (r: Barrier)
        requires
            x <= i32::MAX - BARRIER_WIDTH,
        ensures
            r.is_fresh_at(x as int),
    {
        let y = CANVAS_HEIGHT - HEIGHT_DIV_4;
        let width: u32 = BARRIER_WIDTH;
        let height: u32 = BARRIER_HEIGHT;

        let game_object = GameObject::new(
            x,
            y,
            width,
            height,
            String::from_str("barrier_texture"),
        );
        let colliders = Collider::get_colliders(&game_object);

        Barrier { game_object, colliders }
    }
}

impl Collider {
    pub fn new(x: i32, y: i32, height: u32) -> (r: Collider)
        requires
            height * PIXEL_SIZE <= u32::MAX,
        ensures
            r.rect == cell_rect(x as int, y as int, height as int),
            !r.is_destroyed,
    {
        Collider {
            rect: Rect::new(x, y, PIXEL_SIZE as u32, height * PIXEL_SIZE as u32),
            is_destroyed: false,
        }
    }

    /// The colliders of a barrier occupying `barrier`'s box.
    pub fn get_colliders(barrier: &GameObject) -> (r: Vec<Collider>)
        requires
            barrier.rect.x <= i32::MAX - BARRIER_WIDTH,
            barrier.rect.y <= i32::MAX - 200,
        ensures
            fresh_colliders(r@, barrier.rect.x as int, barrier.rect.y as int),
    {
        let mut colliders: Vec<Collider> = Vec::new();
        let bx = barrier.rect.x;
        let by = barrier.rect.y;
        let ghost gx = bx as int;
        let ghost gy = by as int;

        let mut i: usize = 0;
        while i < BARRIER_SLICES
            invariant
                i <= BARRIER_SLICES,
                bx == barrier.rect.x,
                by == barrier.rect.y,
                gx == bx,
                gy == by,
                bx <= i32::MAX - BARRIER_WIDTH,
                by <= i32::MAX - 200,
                collider_rects(colliders@) == barrier_layout_upto(gx, gy, i as int),
                forall|j: int| 0 <= j < colliders@.len() ==> !(#[trigger] colliders@[j]).is_destroyed,
            decreases BARRIER_SLICES - i,
        {
            let inset = slice_inset_exec(i);
            let mut next_y: i32 = by + inset * PIXEL_SIZE;
            let next_x: i32 = bx + (i as i32) * PIXEL_SIZE;
            let ghost y0 = next_y as int;
            let ghost before = collider_rects(colliders@);

            let mut k: usize = 0;
            while k < 3
                invariant
                    i < BARRIER_SLICES,
                    k <= 3,
                    by <= i32::MAX - 200,
                    by <= next_y <= by + 18 + 36 * k,
                    next_x == gx + i * PIXEL_SIZE,
                    y0 == gy + slice_inset(i as int) * PIXEL_SIZE,
                    collider_rects(colliders@) + slice_blocks(next_x as int, next_y as int, i as int, k as int)
                        == before + slice_blocks(next_x as int, y0, i as int, 0),
                    forall|j: int| 0 <= j < colliders@.len() ==> !(#[trigger] colliders@[j]).is_destroyed,
                decreases 3 - k,
            {
                let height = slice_height_exec(i, k);
                if height > 0 {
                    let ghost old_rects = collider_rects(colliders@);
                    let c = Collider::new(next_x, next_y, height);
                    colliders.push(c);
                    proof {
                        assert(collider_rects(colliders@) =~= old_rects.push(c.rect));
                        assert(old_rects.push(c.rect) + slice_blocks(
                            next_x as int,
                            next_y + height * PIXEL_SIZE,
                            i as int,
                            k + 1,
                        ) =~= old_rects + slice_blocks(next_x as int, next_y as int, i as int, k as int));
                    }
                    next_y = next_y + (height as i32) * PIXEL_SIZE;
                }
                k = k + 1;
            }
            proof {
                assert(slice_blocks(next_x as int, next_y as int, i as int, 3) =~= seq![]);
                assert(collider_rects(colliders@) =~= before + slice_blocks(next_x as int, y0, i as int, 0));
            }
            i = i + 1;
        }
        colliders
    }
}

/// Barrier construction is deterministic: two barriers built at the same
/// origin carry the same colliders, and there are sixty of them.
pub proof fn barrier_colliders_deterministic(a: Barrier, b: Barrier, x: int)
    requires
        a.is_fresh_at(x),
        b.is_fresh_at(x),
    ensures
        a.colliders@ == b.colliders@,
        a.colliders@.len() == 60,
{
    let ra = collider_rects(a.colliders@);
    assert(ra.len() == a.colliders@.len());
    assert forall|i: int| 0 <= i < a.colliders@.len() implies a.colliders@[i] == b.colliders@[i] by {
        assert(ra[i] == a.colliders@[i].rect);
        assert(collider_rects(b.colliders@)[i] == b.colliders@[i].rect);
    }
    assert(a.colliders@ =~= b.colliders@);
    barrier_layout_len(x, BARRIER_Y as int);
}

proof fn barrier_layout_len(x: int, y: int)
    ensures
        barrier_layout(x, y).len() == 60,
{
    reveal_with_fuel(barrier_layout_upto, 25);
    reveal_with_fuel(slice_blocks, 4);
}

} // verus!
