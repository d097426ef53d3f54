use vstd::prelude::*;

use crate::game::{
    GameObject, ObjectView, object_views, CANVAS_HEIGHT, CANVAS_LEFT_EDGE, CANVAS_RIGHT_EDGE,
};
use crate::keys::Keys;
use crate::rect::Rect;
use crate::seqs::{kept, kept_len, kept_map, retain_where};

verus! {

pub const HEIGHT_DIV_18: i32 = 60;

pub const PLAYER_START_X: i32 = 960;
pub const PLAYER_Y: i32 = CANVAS_HEIGHT - HEIGHT_DIV_18;

/// Ticks between two shots.
pub const SHOT_COOLDOWN: u32 = 20;

/// Distance the ship and its bullets move each tick.
pub const PLAYER_STEP: i32 = 10;

pub const PLAYER_WIDTH: u32 = 15 * 6;
pub const PLAYER_HEIGHT: u32 = 8 * 6;
pub const BULLET_WIDTH: u32 = 6;
pub const BULLET_HEIGHT: u32 = 4 * 6;

pub struct Player {
    pub game_object: GameObject,
    pub bullets: Vec<GameObject>,
    pub moving_left: bool,
    pub moving_right: bool,
    pub prev_keys: Keys,
    pub shot_timer: u32,
}

/// The bullet fired from a ship occupying `ship`: centred on it, half its
/// height above it.
pub open spec fn bullet_from(ship: Rect) -> ObjectView {
    ObjectView {
        rect: Rect {
            x: (ship.x + ship.width / 2 - 3) as i32,
            y: (ship.y - ship.height / 2) as i32,
            width: BULLET_WIDTH,
            height: BULLET_HEIGHT,
        },
        texture: "shot_texture"@,
        destroyed: false,
    }
}

/// A bullet stays while it is live and its next position is still more than
/// ten pixels below the top.
pub open spec fn bullet_stays(b: ObjectView) -> bool {
    b.rect.y - PLAYER_STEP > 10 && !b.destroyed
}

pub open spec fn bullet_raised(b: ObjectView) -> ObjectView {
    ObjectView { rect: Rect { y: (b.rect.y - PLAYER_STEP) as i32, ..b.rect }, ..b }
}

pub open spec fn stays() -> spec_fn(ObjectView) -> bool {
    |b: ObjectView| bullet_stays(b)
}

pub open spec fn raised() -> spec_fn(ObjectView) -> ObjectView {
    |b: ObjectView| bullet_raised(b)
}

pub open spec fn object_stays() -> spec_fn(GameObject) -> bool {
    |b: GameObject| b.rect.y > 10 + PLAYER_STEP && !b.is_destroyed
}

pub open spec fn view_of() -> spec_fn(GameObject) -> ObjectView {
    |o: GameObject| o@
}

/// The bullets after a tick: spent ones dropped, the rest moved up.
pub open spec fn bullets_after(bs: Seq<ObjectView>) -> Seq<ObjectView> {
    kept(bs, stays()).map_values(raised())
}

/// Movement flags after the key edges of one tick: a press starts moving
/// that way and stops the other way, a release stops that way.
pub open spec fn movement_after(ml: bool, mr: bool, prev: Keys, keys: Keys) -> (bool, bool) {
    let (ml1, mr1) = if keys.left && !prev.left {
        (true, false)
    } else if !keys.left && prev.left {
        (false, mr)
    } else {
        (ml, mr)
    };
    if keys.right && !prev.right {
        (false, true)
    } else if !keys.right && prev.right {
        (ml1, false)
    } else {
        (ml1, mr1)
    }
}

/// The ship's left edge after a tick of moving.
pub open spec fn x_after(x: int, ml: bool, mr: bool) -> int {
    let x1 = if ml && x > CANVAS_LEFT_EDGE {
        x - PLAYER_STEP
    } else {
        x
    };
    if mr && x1 < CANVAS_RIGHT_EDGE {
        x1 + PLAYER_STEP
    } else {
        x1
    }
}

fn bullet_keeps(b: &GameObject) -> (r: bool)
    ensures
        r == (b.rect.y > 10 + PLAYER_STEP && !b.is_destroyed),
{
    b.rect.y > 10 + PLAYER_STEP && !b.is_destroyed
}

/// Drops spent bullets and moves the others up.
fn advance_bullets(bullets: &mut Vec<GameObject>)
    requires
        forall|i: int| 0 <= i < old(bullets)@.len() ==> (#[trigger] old(bullets)@[i]).rect.y > i32::MIN + PLAYER_STEP,
    ensures
        object_views(final(bullets)@) == bullets_after(object_views(old(bullets)@)),
        forall|i: int| 0 <= i < final(bullets)@.len() ==> (#[trigger] final(bullets)@[i]).rect.y > i32::MIN + PLAYER_STEP,
{
    let ghost bs = bullets@;
    retain_where(bullets, bullet_keeps, Ghost(object_stays()));
    proof {
        kept_map(bs, object_stays(), view_of(), stays());
        kept_len(bs, object_stays());
        assert(object_views(bs) =~= bs.map_values(view_of()));
        assert(object_views(bullets@) =~= kept(bs, object_stays()).map_values(view_of()));
    }
    let ghost kept_bs = bullets@;

    let n = bullets.len();
    let mut i: usize = 0;
    while i < n
        invariant
            i <= n,
            n == kept_bs.len(),
            bullets@.len() == n,
            forall|j: int| 0 <= j < n ==> (#[trigger] kept_bs[j]).rect.y - PLAYER_STEP > 10,
            forall|j: int| 0 <= j < i ==> #[trigger] bullets@[j] == (GameObject {
                rect: Rect { y: (kept_bs[j].rect.y - PLAYER_STEP) as i32, ..kept_bs[j].rect },
                ..kept_bs[j]
            }),
            forall|j: int| i <= j < n ==> #[trigger] bullets@[j] == kept_bs[j],
        decreases n - i,
    {
        bullets[i].rect.y = bullets[i].rect.y - PLAYER_STEP;
        i = i + 1;
    }
    proof {
        assert(object_views(bullets@) =~= object_views(kept_bs).map_values(raised()));
        assert forall|j: int| 0 <= j < bullets@.len() implies (#[trigger] bullets@[j]).rect.y
            > i32::MIN + PLAYER_STEP by {
            assert(kept_bs[j].rect.y - PLAYER_STEP > 10);
        }
    }
}

impl Player {
    /// Ship and bullets stay where arithmetic on them cannot overflow.
    pub open spec fn wf(self) -> bool {
        &&& CANVAS_LEFT_EDGE - PLAYER_STEP <= self.game_object.rect.x <= CANVAS_RIGHT_EDGE + PLAYER_STEP
        &&& 0 <= self.game_object.rect.y <= CANVAS_HEIGHT
        &&& self.game_object.rect.width <= 200
        &&& self.game_object.rect.height <= 200
        &&& self.shot_timer <= SHOT_COOLDOWN
        &&& forall|i: int|
            0 <= i < self.bullets@.len() ==> (#[trigger] self.bullets@[i]).rect.y > i32::MIN + PLAYER_STEP
    }

    pub fn new() -> (r: Self)
        ensures
            r.game_object@ == (ObjectView {
                rect: Rect {
                    x: PLAYER_START_X,
                    y: PLAYER_Y,
                    width: PLAYER_WIDTH,
                    height: PLAYER_HEIGHT,
                },
                texture: "player_texture"@,
                destroyed: false,
            }),
            r.bullets@.len() == 0,
            !r.moving_left,
            !r.moving_right,
            r.prev_keys == Keys::none_spec(),
            r.shot_timer == 1,
            r.wf(),
    {
        Player {
            game_object: GameObject::new(
                PLAYER_START_X,
                PLAYER_Y,
                PLAYER_WIDTH,
                PLAYER_HEIGHT,
                String::from_str("player_texture"),
            ),
            moving_left: false,
            moving_right: false,
            bullets: Vec::new(),
            prev_keys: Keys::none(),
            shot_timer: 1,
        }
    }

    pub fn set_moving_left(&mut self, moving: bool)
        ensures
            *final(self) == (Player {
                moving_left: moving,
                moving_right: if moving { false } else { old(self).moving_right },
                ..*old(self)
            }),
    {
        self.moving_left = moving;
        if moving {
            self.moving_right = false;
        }
    }

    pub fn set_moving_right(&mut self, moving: bool)
        ensures
            *final(self) == (Player {
                moving_right: moving,
                moving_left: if moving { false } else { old(self).moving_left },
                ..*old(self)
            }),
    {
        self.moving_right = moving;
        if moving {
            self.moving_left = false;
        }
    }

    /// Fires one bullet from the ship's current position.
    pub fn shoot(&mut self)
        requires
            old(self).wf(),
        ensures
            object_views(final(self).bullets@) == object_views(old(self).bullets@).push(
                bullet_from(old(self).game_object.rect),
            ),
            final(self).game_object == old(self).game_object,
            final(self).moving_left == old(self).moving_left,
            final(self).moving_right == old(self).moving_right,
            final(self).prev_keys == old(self).prev_keys,
            final(self).shot_timer == old(self).shot_timer,
            final(self).wf(),
    {
        let x = self.game_object.rect.x + (self.game_object.rect.width / 2) as i32 - 3;
        let y = self.game_object.rect.y - (self.game_object.rect.height / 2) as i32;
        let b = GameObject::new(x, y, BULLET_WIDTH, BULLET_HEIGHT, String::from_str("shot_texture"));
        let ghost before = self.bullets@;
        self.bullets.push(b);
        proof {
            assert(object_views(self.bullets@) =~= object_views(before).push(b@));
        }
    }

    /// One tick of the ship: key edges turn movement on and off and fire
    /// (at most once per cooldown), then the ship and its bullets move. A
    /// destroyed ship ignores everything.
    #[verifier::rlimit(50)]
    pub fn update(&mut self, keys: &Keys)
        requires
            old(self).wf(),
        ensures
            final(self).wf(),
            old(self).game_object.is_destroyed ==> *final(self) == *old(self),
            !old(self).game_object.is_destroyed ==> ({
                let o = *old(self);
                let (ml, mr) = movement_after(o.moving_left, o.moving_right, o.prev_keys, *keys);
                let fires = keys.space && !o.prev_keys.space && o.shot_timer == 0;
                let t = if fires { SHOT_COOLDOWN } else { o.shot_timer };
                let bs = if fires {
                    object_views(o.bullets@).push(bullet_from(o.game_object.rect))
                } else {
                    object_views(o.bullets@)
                };
                &&& final(self).moving_left == ml
                &&& final(self).moving_right == mr
                &&& final(self).prev_keys == *keys
                &&& final(self).game_object@ == (ObjectView {
                    rect: Rect { x: x_after(o.game_object.rect.x as int, ml, mr) as i32, ..o.game_object.rect },
                    ..o.game_object@
                })
                &&& object_views(final(self).bullets@) == bullets_after(bs)
                &&& final(self).shot_timer == (if t > 0 { t - 1 } else { t as int })
            }),
    {
        if self.game_object.is_destroyed {
            return;
        }
        let prev = self.prev_keys;

        if keys.left && !prev.left {
            self.set_moving_left(true);
        } else if !keys.left && prev.left {
            self.set_moving_left(false);
        }

        if keys.right && !prev.right {
            self.set_moving_right(true);
        } else if !keys.right && prev.right {
            self.set_moving_right(false);
        }

        if keys.space && !prev.space && self.shot_timer == 0 {
            self.shoot();
            self.shot_timer = SHOT_COOLDOWN;
        }

        self.prev_keys = *keys;

        if self.moving_left && self.game_object.rect.x > CANVAS_LEFT_EDGE {
            self.game_object.rect.x = self.game_object.rect.x - PLAYER_STEP;
        }

        if self.moving_right && self.game_object.rect.x < CANVAS_RIGHT_EDGE {
            self.game_object.rect.x = self.game_object.rect.x + PLAYER_STEP;
        }

        let ghost bs = self.bullets@;
        advance_bullets(&mut self.bullets);

        if self.shot_timer > 0 {
            self.shot_timer = self.shot_timer - 1;
        }
    }
}

} // verus!
