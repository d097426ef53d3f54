use vstd::prelude::*;

use crate::game::{Direction, GameObject, ObjectView, CANVAS_LEFT_EDGE, CANVAS_RIGHT_EDGE};
use crate::rect::Rect;

verus! {

/// Horizontal distance the UFO covers each tick.
pub const UFO_STEP: i32 = 10;

pub const UFO_WIDTH: u32 = 16 * 6;
pub const UFO_HEIGHT: u32 = 7 * 6;

pub struct UFO {
    pub game_object: GameObject,
    pub dir: Direction,
}

/// Box, texture and heading of the UFO of the `spawn_times`-th spawn.
pub open spec fn spawned_ufo(spawn_times: u32) -> (ObjectView, Direction) {
    (
        ObjectView {
            rect: Rect {
                x: if spawn_times % 2 == 0 { CANVAS_LEFT_EDGE } else { CANVAS_RIGHT_EDGE },
                y: UFO_HEIGHT as i32,
                width: UFO_WIDTH,
                height: UFO_HEIGHT,
            },
            texture: "ufo_texture"@,
            destroyed: false,
        },
        if spawn_times % 2 == 0 {
            Direction::Right
        } else {
            Direction::Left
        },
    )
}

/// The UFO has reached the edge it is heading for.
pub open spec fn ufo_at_edge(v: ObjectView, dir: Direction) -> bool {
    ||| (v.rect.x >= CANVAS_RIGHT_EDGE && dir == Direction::Right)
    ||| (v.rect.x <= CANVAS_LEFT_EDGE && dir == Direction::Left)
}

/// The UFO's view after one step in direction `dir`.
pub open spec fn ufo_moved(v: ObjectView, dir: Direction) -> ObjectView {
    ObjectView {
        rect: Rect {
            x: (v.rect.x + if dir == Direction::Right { UFO_STEP as int } else { -UFO_STEP }) as i32,
            ..v.rect
        },
        ..v
    }
}

impl UFO {
    /// The UFO of the `spawn_times`-th spawn: even spawns enter at the left
    /// edge heading right, odd ones at the right edge heading left.
    pub fn new(spawn_times: u32) -> (r: UFO)
        ensures
            (r.game_object@, r.dir) == spawned_ufo(spawn_times),
    {
        let width: u32 = UFO_WIDTH;
        let height: u32 = UFO_HEIGHT;

        let mut x: i32 = CANVAS_LEFT_EDGE;
        let mut dir = Direction::Right;

        if spawn_times % 2 != 0 {
            x = CANVAS_RIGHT_EDGE;
            dir = Direction::Left;
        }

        UFO {
            game_object: GameObject::new(
                x,
                height as i32,
                width,
                height,
                String::from_str("ufo_texture"),
            ),
            dir,
        }
    }

    pub fn move_x(&mut self)
        requires
            i32::MIN + UFO_STEP <= old(self).game_object.rect.x <= i32::MAX - UFO_STEP,
        ensures
            final(self).game_object@ == ufo_moved(old(self).game_object@, old(self).dir),
            final(self).game_object.texture_name == old(self).game_object.texture_name,
            final(self).dir == old(self).dir,
    {
        if self.dir == Direction::Right {
            self.game_object.rect.x = self.game_object.rect.x + UFO_STEP;
        } else {
            self.game_object.rect.x = self.game_object.rect.x - UFO_STEP;
        }
    }
}

} // verus!
