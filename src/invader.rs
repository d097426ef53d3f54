use vstd::prelude::*;

use crate::game::{Direction, GameObject, CANVAS_LEFT_EDGE, CANVAS_RIGHT_EDGE, PIXEL_SIZE};
use crate::rect::Rect;

verus! {

/// Horizontal distance covered by one formation step.
pub const STEP_X: i32 = 10;

/// Vertical distance covered by one descent step.
pub const STEP_DOWN: i32 = 8 * PIXEL_SIZE;

#[derive(Debug)]
pub struct Invader {
    pub game_object: GameObject,
    pub row: u32,
    pub column: u32,
    pub dir: Direction,
    pub anim_step: i32,
}

pub open spec fn next_anim_step(a: i32) -> i32 {
    if a == 1 {
        2
    } else {
        1
    }
}

impl Invader {
    /// Inside the band the formation sweeps, small enough that a shot can be
    /// placed below it, and at a place in the formation grid.
    pub open spec fn is_in_bounds(self) -> bool {
        &&& CANVAS_LEFT_EDGE - STEP_X < self.game_object.rect.x < CANVAS_RIGHT_EDGE + STEP_X
        &&& self.game_object.rect.width <= 200
        &&& self.game_object.rect.height <= 200
        &&& self.row < 5
        &&& self.column < 11
    }

    /// This invader with its box moved to `(x, y)` and its animation frame set
    /// to `anim`; all else kept.
    pub open spec fn placed(self, x: int, y: int, anim: i32) -> Invader {
        Invader {
            game_object: GameObject {
                rect: Rect { x: x as i32, y: y as i32, ..self.game_object.rect },
                ..self.game_object
            },
            anim_step: anim,
            ..self
        }
    }

    /// The invader after one horizontal step in direction `dir`.
    pub open spec fn stepped(self) -> Invader {
        let dx = match self.dir {
            Direction::Right => STEP_X as int,
            Direction::Left => -STEP_X,
        };
        self.placed(
            self.game_object.rect.x + dx,
            self.game_object.rect.y as int,
            next_anim_step(self.anim_step),
        )
    }

    /// The invader's top edge after one descent step; the bottom of the
    /// coordinate range is never passed.
    pub open spec fn descended_y(self) -> int {
        if self.game_object.rect.y + STEP_DOWN <= i32::MAX {
            self.game_object.rect.y + STEP_DOWN
        } else {
            i32::MAX as int
        }
    }

    pub fn new(
        x: i32,
        y: i32,
        width: u32,
        height: u32,
        texture_name: String,
        row: u32,
        column: u32,
    ) -> (r: Self)
        ensures
            r.game_object.rect == (Rect { x, y, width, height }),
            r.game_object.texture_name == texture_name,
            !r.game_object.is_destroyed,
            r.row == row,
            r.column == column,
            r.dir == Direction::Right,
            r.anim_step == 1,
    {
        Invader {
            game_object: GameObject::new(x, y, width, height, texture_name),
            row,
            column,
            dir: Direction::Right,
            anim_step: 1,
        }
    }

    pub fn move_x_right(&mut self)
        requires
            old(self).game_object.rect.x <= i32::MAX - STEP_X,
        ensures
            *final(self) == old(self).placed(
                old(self).game_object.rect.x + STEP_X,
                old(self).game_object.rect.y as int,
                next_anim_step(old(self).anim_step),
            ),
    {
        self.game_object.rect.x = self.game_object.rect.x + STEP_X;
        self.toggle_anim_step();
    }

    pub fn move_x_left(&mut self)
        requires
            old(self).game_object.rect.x >= i32::MIN + STEP_X,
        ensures
            *final(self) == old(self).placed(
                old(self).game_object.rect.x - STEP_X,
                old(self).game_object.rect.y as int,
                next_anim_step(old(self).anim_step),
            ),
    {
        self.game_object.rect.x = self.game_object.rect.x - STEP_X;
        self.toggle_anim_step();
    }

    pub fn move_down(&mut self)
        ensures
            *final(self) == old(self).placed(
                old(self).game_object.rect.x as int,
                old(self).descended_y(),
                1,
            ),
    {
        if self.game_object.rect.y <= i32::MAX - STEP_DOWN {
            self.game_object.rect.y = self.game_object.rect.y + STEP_DOWN;
        } else {
            self.game_object.rect.y = i32::MAX;
        }
        self.anim_step = 1;
    }

    fn toggle_anim_step(&mut self)
        ensures
            *final(self) == (Invader { anim_step: next_anim_step(old(self).anim_step), ..*old(self) }),
    {
        self.anim_step = if self.anim_step == 1 {
            2
        } else {
            1
        };
    }
}

} // verus!
