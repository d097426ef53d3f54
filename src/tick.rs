use vstd::prelude::*;

use crate::fire::{frontline, min_int};
use crate::formation::{advance_formation, formation_after, rows_after};
use crate::game::{
    distinct_places, object_views, Direction, Game, GameObject, LoadedShot, ObjectView, State, CANVAS_HEIGHT,
    CANVAS_LEFT_EDGE, CANVAS_RIGHT_EDGE, DEFAULT_TICK, EXPLOSION_HEIGHT, EXPLOSION_TIMER,
    EXPLOSION_WIDTH, INVADER_SHOT_DELAY, INVADER_SHOT_HEIGHT, INVADER_SHOT_WIDTH, LAST_TICK,
    SHOT_FALL, SPEED_INCREASE_LEN, TICK_INCREASE,
};
use crate::invader::Invader;
use crate::rect::Rect;
use crate::seqs::{kept, kept_len, kept_map, kept_push, retain_where};
use crate::timer::Timer;
use crate::ufo::{spawned_ufo, ufo_at_edge, ufo_moved, UFO, UFO_STEP};
use crate::util::decrease_until_zero;

verus! {

/// The explosion left where an entity with box `r` was destroyed, with the
/// tick at which it disappears.
pub open spec fn blast(r: Rect, expiry: i32) -> (ObjectView, i32) {
    (
        ObjectView {
            rect: Rect { x: r.x, y: r.y, width: EXPLOSION_WIDTH, height: EXPLOSION_HEIGHT },
            texture: "explosion_texture"@,
            destroyed: false,
        },
        expiry,
    )
}

pub open spec fn explosion_views(es: Seq<(GameObject, i32)>) -> Seq<(ObjectView, i32)> {
    Seq::new(es.len(), |i: int| (es[i].0@, es[i].1))
}

pub open spec fn invader_live() -> spec_fn(Invader) -> bool {
    |v: Invader| !v.game_object.is_destroyed
}

pub open spec fn invader_dead() -> spec_fn(Invader) -> bool {
    |v: Invader| v.game_object.is_destroyed
}

/// One explosion per destroyed invader, in list order.
pub open spec fn invader_blasts(s: Seq<Invader>, expiry: i32) -> Seq<(ObjectView, i32)> {
    let d = kept(s, invader_dead());
    Seq::new(d.len(), |i: int| blast(d[i].game_object.rect, expiry))
}

fn explosion_at(r: &Rect, expiry: i32) -> (e: (GameObject, i32))
    ensures
        (e.0@, e.1) == blast(*r, expiry),
{
    (
        GameObject::new(r.x, r.y, EXPLOSION_WIDTH, EXPLOSION_HEIGHT, String::from_str("explosion_texture")),
        expiry,
    )
}

pub open spec fn object_dead() -> spec_fn(GameObject) -> bool {
    |o: GameObject| o.is_destroyed
}

/// One explosion per destroyed enemy shot, in list order.
pub open spec fn shot_blasts(s: Seq<GameObject>, expiry: i32) -> Seq<(ObjectView, i32)> {
    let d = kept(s, object_dead());
    Seq::new(d.len(), |i: int| blast(d[i].rect, expiry))
}

pub open spec fn unexpired(now: i32) -> spec_fn((ObjectView, i32)) -> bool {
    |e: (ObjectView, i32)| e.1 > now
}

pub open spec fn explosion_unexpired(now: i32) -> spec_fn((GameObject, i32)) -> bool {
    |e: (GameObject, i32)| e.1 > now
}

pub open spec fn explosion_view() -> spec_fn((GameObject, i32)) -> (ObjectView, i32) {
    |e: (GameObject, i32)| (e.0@, e.1)
}

/// An enemy shot stays while it is live and its next position is still
/// inside the playfield.
pub open spec fn shot_stays() -> spec_fn(ObjectView) -> bool {
    |o: ObjectView| 10 < o.rect.y + SHOT_FALL < CANVAS_HEIGHT && !o.destroyed
}

pub open spec fn shot_object_stays() -> spec_fn(GameObject) -> bool {
    |o: GameObject| 10 < o.rect.y + SHOT_FALL < CANVAS_HEIGHT && !o.is_destroyed
}

pub open spec fn object_view() -> spec_fn(GameObject) -> ObjectView {
    |o: GameObject| o@
}

pub open spec fn fallen() -> spec_fn(ObjectView) -> ObjectView {
    |o: ObjectView| ObjectView { rect: Rect { y: (o.rect.y + SHOT_FALL) as i32, ..o.rect }, ..o }
}

fn shot_keeps(o: &GameObject) -> (r: bool)
    ensures
        r == (10 < o.rect.y + SHOT_FALL < CANVAS_HEIGHT && !o.is_destroyed),
{
    10 - SHOT_FALL < o.rect.y && o.rect.y < CANVAS_HEIGHT - SHOT_FALL && !o.is_destroyed
}

fn retain_unexpired(es: &mut Vec<(GameObject, i32)>, now: i32)
    ensures
        explosion_views(final(es)@) == kept(explosion_views(old(es)@), unexpired(now)),
{
    let ghost orig = es@;
    retain_where(
        es,
        (|e: &(GameObject, i32)| -> (r: bool)
            ensures
                r == (e.1 > now),
            { e.1 > now }),
        Ghost(explosion_unexpired(now)),
    );
    proof {
        kept_map(orig, explosion_unexpired(now), explosion_view(), unexpired(now));
        assert(explosion_views(orig) =~= orig.map_values(explosion_view()));
        assert(explosion_views(es@) =~= kept(orig, explosion_unexpired(now)).map_values(explosion_view()));
    }
}

/// Index of the first invader at or after `i` standing at `row`, `column`,
/// or -1.
pub open spec fn shooter_index(invs: Seq<Invader>, row: u32, column: u32, i: int) -> int
    decreases invs.len() - i,
{
    if i < 0 || i >= invs.len() {
        -1
    } else if invs[i].row == row && invs[i].column == column {
        i
    } else {
        shooter_index(invs, row, column, i + 1)
    }
}

/// An enemy shot leaving an invader with box `r`: from the middle of its
/// bottom edge.
pub open spec fn shot_from(r: Rect) -> ObjectView {
    ObjectView {
        rect: Rect {
            x: (r.x + r.width / 2) as i32,
            y: (if r.y + r.height <= i32::MAX { r.y + r.height } else { i32::MAX as int }) as i32,
            width: INVADER_SHOT_WIDTH,
            height: INVADER_SHOT_HEIGHT,
        },
        texture: "invader_shot_texture"@,
        destroyed: false,
    }
}

/// The shot, if any, that loaded shot `l` fires at tick `now`: one is due,
/// its invader is still there, and the shot would start inside the
/// playfield.
pub open spec fn fired_by(invs: Seq<Invader>, l: LoadedShot, now: i32) -> Seq<ObjectView> {
    let i = shooter_index(invs, l.row, l.column, 0);
    if l.time <= now && i >= 0 && shot_from(invs[i].game_object.rect).rect.y < CANVAS_HEIGHT {
        seq![shot_from(invs[i].game_object.rect)]
    } else {
        seq![]
    }
}

/// The shots fired by the first `n` loaded shots, in their order.
pub open spec fn fired_upto(invs: Seq<Invader>, ls: Seq<LoadedShot>, now: i32, n: int) -> Seq<ObjectView>
    decreases n,
{
    if n <= 0 {
        seq![]
    } else {
        fired_upto(invs, ls, now, n - 1) + fired_by(invs, ls[n - 1], now)
    }
}

pub open spec fn fired(invs: Seq<Invader>, ls: Seq<LoadedShot>, now: i32) -> Seq<ObjectView> {
    fired_upto(invs, ls, now, ls.len() as int)
}

pub open spec fn still_loaded(now: i32) -> spec_fn(LoadedShot) -> bool {
    |l: LoadedShot| l.time > now
}

/// The loaded shots of a volley drawn as `sh`: the k-th fires `k` intervals
/// of `tick` after `now`.
pub open spec fn volley_of(invs: Seq<Invader>, sh: Seq<usize>, now: i32, tick: i32) -> Seq<LoadedShot> {
    Seq::new(
        sh.len(),
        |k: int|
            LoadedShot {
                row: invs[sh[k] as int].row,
                column: invs[sh[k] as int].column,
                time: (now + k * tick) as i32,
            },
    )
}

/// What the scheduler may draw: between one and `min(4, columns) - 1`
/// frontline shooters when two or more columns are occupied, else none.
pub open spec fn valid_volley(invs: Seq<Invader>, sh: Seq<usize>) -> bool {
    &&& ({
        let m = min_int(4, frontline(invs).len() as int);
        if m > 1 {
            1 <= sh.len() < m
        } else {
            sh.len() == 0
        }
    })
    &&& forall|k: int| 0 <= k < sh.len() ==> frontline(invs).contains(#[trigger] sh[k] as int)
    &&& forall|k: int| 0 <= k < sh.len() ==> #[trigger] sh[k] < invs.len()
}

fn find_shooter(invs: &Vec<Invader>, row: u32, column: u32) -> (r: Option<usize>)
    ensures
        match r {
            Some(i) => shooter_index(invs@, row, column, 0) == i && i < invs@.len(),
            None => shooter_index(invs@, row, column, 0) == -1,
        },
{
    let mut i: usize = 0;
    while i < invs.len()
        invariant
            i <= invs@.len(),
            shooter_index(invs@, row, column, 0) == shooter_index(invs@, row, column, i as int),
        decreases invs@.len() - i,
    {
        if invs[i].row == row && invs[i].column == column {
            return Some(i);
        }
        i = i + 1;
    }
    None
}

fn loaded_is_pending(l: &LoadedShot, now: i32) -> (r: bool)
    ensures
        r == (l.time > now),
{
    l.time > now
}

/// The state after a tick: a ship destroyed for more than one tick ends
/// the game; clearing the formation while playing wins it.
pub open spec fn state_after(s: State, game_over_timer: i32, invaders_left: int) -> State {
    let s1 = if game_over_timer > 1 {
        State::GameOver
    } else {
        s
    };
    if invaders_left == 0 && s1 == State::Playing {
        State::Win
    } else {
        s1
    }
}

pub open spec fn decreased(value: int, modifier: int, min: int) -> int {
    if value - modifier > 0 {
        value - modifier
    } else {
        min
    }
}

/// Move interval and next threshold: each time the invaders left fall to
/// the threshold, the interval shrinks and the threshold moves down.
pub open spec fn ramp_after(left: int, tick: i32, threshold: i32) -> (i32, i32) {
    if left <= threshold {
        (
            decreased(tick as int, TICK_INCREASE as int, 0) as i32,
            decreased(threshold as int, SPEED_INCREASE_LEN as int, 1) as i32,
        )
    } else {
        (tick, threshold)
    }
}

fn invader_is_live(v: &Invader) -> (r: bool)
    ensures
        r == !v.game_object.is_destroyed,
{
    !v.game_object.is_destroyed
}

impl Game {
    /// Turns every destroyed invader into an explosion and drops it.
    fn retire_invaders(&mut self, expiry: i32)
        ensures
            final(self).invaders@ == kept(old(self).invaders@, invader_live()),
            explosion_views(final(self).explosions@) == explosion_views(old(self).explosions@)
                + invader_blasts(old(self).invaders@, expiry),
            *final(self) == (Game {
                invaders: final(self).invaders,
                explosions: final(self).explosions,
                ..*old(self)
            }),
    {
        let ghost invs = self.invaders@;
        let ghost g0 = *self;
        let ghost es0 = explosion_views(self.explosions@);
        let n = self.invaders.len();
        let mut i: usize = 0;
        proof {
            assert(invs.subrange(0, 0) =~= Seq::<Invader>::empty());
            assert(kept(invs.subrange(0, 0), invader_dead()) =~= Seq::<Invader>::empty());
            assert(explosion_views(self.explosions@) =~= es0 + invader_blasts(invs.subrange(0, 0), expiry));
        }
        while i < n
            invariant
                i <= n,
                n == invs.len(),
                self.invaders@ == invs,
                *self == (Game { explosions: self.explosions, ..g0 }),
                explosion_views(self.explosions@) == es0 + invader_blasts(invs.subrange(0, i as int), expiry),
            decreases n - i,
        {
            proof {
                kept_push(invs.subrange(0, i as int), invs[i as int], invader_dead());
                assert(invs.subrange(0, i as int).push(invs[i as int]) =~= invs.subrange(0, i + 1));
            }
            if self.invaders[i].game_object.is_destroyed {
                let ghost before = self.explosions@;
                let e = explosion_at(&self.invaders[i].game_object.rect, expiry);
                self.explosions.push(e);
                proof {
                    assert(explosion_views(self.explosions@) =~= explosion_views(before).push((e.0@, e.1)));
                    assert(explosion_views(self.explosions@) =~= es0 + invader_blasts(invs.subrange(0, i + 1), expiry));
                }
            } else {
                proof {
                    assert(invader_blasts(invs.subrange(0, i + 1), expiry) =~= invader_blasts(
                        invs.subrange(0, i as int),
                        expiry,
                    ));
                }
            }
            i = i + 1;
        }
        proof {
            assert(invs.subrange(0, n as int) =~= invs);
        }
        retain_where(&mut self.invaders, invader_is_live, Ghost(invader_live()));
    }

    /// The UFO's part of a tick: a pending spawn brings a new UFO in; an
    /// active UFO leaves once at its far edge, otherwise moves; a destroyed
    /// one leaves an explosion and goes away.
    fn update_ufo(&mut self, expiry: i32)
        requires
            CANVAS_LEFT_EDGE - UFO_STEP < old(self).ufo.game_object.rect.x < CANVAS_RIGHT_EDGE + UFO_STEP,
        ensures
            ({
                let o = *old(self);
                let (v0, d0) = if o.spawn_ufo {
                    spawned_ufo(o.ufo_spawn_times)
                } else {
                    (o.ufo.game_object@, o.ufo.dir)
                };
                let active = (o.spawn_ufo || o.ufo_active) && !ufo_at_edge(v0, d0);
                let v1 = if active {
                    ufo_moved(v0, d0)
                } else {
                    v0
                };
                &&& final(self).spawn_ufo == false
                &&& final(self).ufo_spawn_times == o.ufo_spawn_times
                &&& final(self).ufo.game_object@ == v1
                &&& final(self).ufo.dir == d0
                &&& final(self).ufo_active == (active && !v1.destroyed)
                &&& explosion_views(final(self).explosions@) == explosion_views(o.explosions@) + (
                if active && v1.destroyed {
                    seq![blast(v1.rect, expiry)]
                } else {
                    seq![]
                })
            }),
            CANVAS_LEFT_EDGE - UFO_STEP < final(self).ufo.game_object.rect.x < CANVAS_RIGHT_EDGE + UFO_STEP,
            *final(self) == (Game {
                ufo: final(self).ufo,
                spawn_ufo: final(self).spawn_ufo,
                ufo_active: final(self).ufo_active,
                explosions: final(self).explosions,
                ..*old(self)
            }),
    {
        if self.spawn_ufo {
            self.toggle_spawn_ufo();
            self.ufo_active = true;
            self.ufo = UFO::new(self.ufo_spawn_times);
        }

        if self.ufo.game_object.rect.x >= CANVAS_RIGHT_EDGE && self.ufo.dir == Direction::Right
            || self.ufo.game_object.rect.x <= CANVAS_LEFT_EDGE && self.ufo.dir == Direction::Left {
            self.ufo_active = false;
        }

        if self.ufo_active {
            self.ufo.move_x();
        }

        if self.ufo.game_object.is_destroyed && self.ufo_active {
            self.ufo_active = false;
            let ghost before = self.explosions@;
            let e = explosion_at(&self.ufo.game_object.rect, expiry);
            self.explosions.push(e);
            proof {
                assert(explosion_views(self.explosions@) =~= explosion_views(before).push((e.0@, e.1)));
            }
        } else {
            proof {
                assert(explosion_views(self.explosions@) =~= explosion_views(self.explosions@) + seq![]);
            }
        }
    }

    /// Destroyed enemy shots explode, expired explosions go, shots that are
    /// destroyed or outside the playfield go, and the rest fall.
    fn advance_shots(&mut self, expiry: i32, now: i32)
        ensures
            explosion_views(final(self).explosions@) == kept(
                explosion_views(old(self).explosions@) + shot_blasts(old(self).invader_shots@, expiry),
                unexpired(now),
            ),
            object_views(final(self).invader_shots@) == kept(
                object_views(old(self).invader_shots@),
                shot_stays(),
            ).map_values(fallen()),
            forall|i: int|
                0 <= i < final(self).invader_shots@.len() ==> (#[trigger] final(self).invader_shots@[i]).rect.y
                    < CANVAS_HEIGHT,
            *final(self) == (Game {
                invader_shots: final(self).invader_shots,
                explosions: final(self).explosions,
                ..*old(self)
            }),
    {
        let ghost shots = self.invader_shots@;
        let ghost g0 = *self;
        let ghost es0 = explosion_views(self.explosions@);
        let n = self.invader_shots.len();
        let mut i: usize = 0;
        proof {
            assert(kept(shots.subrange(0, 0), object_dead()) =~= Seq::<GameObject>::empty());
            assert(explosion_views(self.explosions@) =~= es0 + shot_blasts(shots.subrange(0, 0), expiry));
        }
        while i < n
            invariant
                i <= n,
                n == shots.len(),
                self.invader_shots@ == shots,
                *self == (Game { explosions: self.explosions, ..g0 }),
                explosion_views(self.explosions@) == es0 + shot_blasts(shots.subrange(0, i as int), expiry),
            decreases n - i,
        {
            proof {
                kept_push(shots.subrange(0, i as int), shots[i as int], object_dead());
                assert(shots.subrange(0, i as int).push(shots[i as int]) =~= shots.subrange(0, i + 1));
            }
            if self.invader_shots[i].is_destroyed {
                let ghost before = self.explosions@;
                let e = explosion_at(&self.invader_shots[i].rect, expiry);
                self.explosions.push(e);
                proof {
                    assert(explosion_views(self.explosions@) =~= explosion_views(before).push((e.0@, e.1)));
                    assert(explosion_views(self.explosions@) =~= es0 + shot_blasts(shots.subrange(0, i + 1), expiry));
                }
            } else {
                proof {
                    assert(shot_blasts(shots.subrange(0, i + 1), expiry) =~= shot_blasts(
                        shots.subrange(0, i as int),
                        expiry,
                    ));
                }
            }
            i = i + 1;
        }
        proof {
            assert(shots.subrange(0, n as int) =~= shots);
        }

        retain_unexpired(&mut self.explosions, now);

        retain_where(&mut self.invader_shots, shot_keeps, Ghost(shot_object_stays()));
        proof {
            kept_map(shots, shot_object_stays(), object_view(), shot_stays());
            kept_len(shots, shot_object_stays());
            assert(object_views(shots) =~= shots.map_values(object_view()));
        }
        let ghost ks = self.invader_shots@;
        let ghost g1 = *self;
        let m = self.invader_shots.len();
        let mut j: usize = 0;
        while j < m
            invariant
                j <= m,
                m == ks.len(),
                self.invader_shots@.len() == m,
                *self == (Game { invader_shots: self.invader_shots, ..g1 }),
                forall|q: int| 0 <= q < m ==> (#[trigger] ks[q]).rect.y + SHOT_FALL < CANVAS_HEIGHT,
                forall|q: int| 0 <= q < j ==> #[trigger] self.invader_shots@[q] == (GameObject {
                    rect: Rect { y: (ks[q].rect.y + SHOT_FALL) as i32, ..ks[q].rect },
                    ..ks[q]
                }),
                forall|q: int| j <= q < m ==> #[trigger] self.invader_shots@[q] == ks[q],
            decreases m - j,
        {
            self.invader_shots[j].rect.y = self.invader_shots[j].rect.y + SHOT_FALL;
            j = j + 1;
        }
        proof {
            assert(object_views(ks) =~= kept(shots, shot_object_stays()).map_values(object_view()));
            assert(object_views(self.invader_shots@) =~= object_views(ks).map_values(fallen()));
            assert forall|q: int| 0 <= q < self.invader_shots@.len() implies (#[trigger] self.invader_shots@[q]).rect.y
                < CANVAS_HEIGHT by {
                assert(ks[q].rect.y + SHOT_FALL < CANVAS_HEIGHT);
            }
        }
    }

    /// Every loaded shot that is due fires from its invader, if that invader
    /// is still there; due shots are then forgotten either way.
    fn fire_loaded(&mut self, now: i32)
        requires
            forall|i: int| 0 <= i < old(self).invaders@.len() ==> (#[trigger] old(self).invaders@[i]).is_in_bounds(),
            forall|i: int|
                0 <= i < old(self).invader_shots@.len() ==> (#[trigger] old(self).invader_shots@[i]).rect.y
                    < CANVAS_HEIGHT,
        ensures
            forall|i: int|
                0 <= i < final(self).invader_shots@.len() ==> (#[trigger] final(self).invader_shots@[i]).rect.y
                    < CANVAS_HEIGHT,
            object_views(final(self).invader_shots@) == object_views(old(self).invader_shots@) + fired(
                old(self).invaders@,
                old(self).loaded_shot@,
                now,
            ),
            final(self).loaded_shot@ == kept(old(self).loaded_shot@, still_loaded(now)),
            *final(self) == (Game {
                invader_shots: final(self).invader_shots,
                loaded_shot: final(self).loaded_shot,
                ..*old(self)
            }),
    {
        let ghost g0 = *self;
        let ghost base = object_views(self.invader_shots@);
        let ghost invs = self.invaders@;
        let ghost ls = self.loaded_shot@;
        let n = self.loaded_shot.len();
        let mut k: usize = 0;
        while k < n
            invariant
                k <= n,
                n == ls.len(),
                self.loaded_shot@ == ls,
                self.invaders@ == invs,
                forall|i: int| 0 <= i < invs.len() ==> (#[trigger] invs[i]).is_in_bounds(),
                *self == (Game { invader_shots: self.invader_shots, ..g0 }),
                object_views(self.invader_shots@) == base + fired_upto(invs, ls, now, k as int),
                forall|i: int|
                    0 <= i < self.invader_shots@.len() ==> (#[trigger] self.invader_shots@[i]).rect.y < CANVAS_HEIGHT,
            decreases n - k,
        {
            let l = self.loaded_shot[k];
            let ghost before = self.invader_shots@;
            if l.time <= now {
                match find_shooter(&self.invaders, l.row, l.column) {
                    Some(i) => {
                        let r = self.invaders[i].game_object.rect;
                        assert(invs[i as int].is_in_bounds());
                        let y: i32 = if r.y <= i32::MAX - r.height as i32 {
                            r.y + r.height as i32
                        } else {
                            i32::MAX
                        };
                        if y < CANVAS_HEIGHT {
                            let shot = GameObject::new(
                                r.x + (r.width / 2) as i32,
                                y,
                                INVADER_SHOT_WIDTH,
                                INVADER_SHOT_HEIGHT,
                                String::from_str("invader_shot_texture"),
                            );
                            self.invader_shots.push(shot);
                            proof {
                                assert(object_views(self.invader_shots@) =~= object_views(before).push(shot@));
                                assert(object_views(self.invader_shots@) =~= base + fired_upto(
                                    invs,
                                    ls,
                                    now,
                                    k + 1,
                                ));
                            }
                        } else {
                            proof {
                                assert(fired_upto(invs, ls, now, k + 1) =~= fired_upto(invs, ls, now, k as int));
                            }
                        }
                    },
                    None => {
                        proof {
                            assert(fired_upto(invs, ls, now, k + 1) =~= fired_upto(invs, ls, now, k as int));
                        }
                    },
                }
            } else {
                proof {
                    assert(fired_upto(invs, ls, now, k + 1) =~= fired_upto(invs, ls, now, k as int));
                }
            }
            k = k + 1;
        }
        retain_where(
            &mut self.loaded_shot,
            (|l: &LoadedShot| -> (r: bool)
                ensures
                    r == (l.time > now),
                { loaded_is_pending(l, now) }),
            Ghost(still_loaded(now)),
        );
    }

    /// Draws a volley and loads it, staggered one move interval apart.
    fn load_volley(&mut self, now: i32)
        requires
            forall|i: int| 0 <= i < old(self).invaders@.len() ==> (#[trigger] old(self).invaders@[i]).is_in_bounds(),
            0 <= old(self).invader_tick <= DEFAULT_TICK,
            now <= i32::MAX - 4 * DEFAULT_TICK,
        ensures
            exists|sh: Seq<usize>|
                valid_volley(old(self).invaders@, sh) && final(self).loaded_shot@ == old(self).loaded_shot@
                    + volley_of(old(self).invaders@, sh, now, old(self).invader_tick),
            *final(self) == (Game { loaded_shot: final(self).loaded_shot, ..*old(self) }),
    {
        let new_shots = self.get_invader_shooters();
        let ghost g0 = *self;
        let ghost invs = self.invaders@;
        let ghost l0 = self.loaded_shot@;
        let n = new_shots.len();
        let mut k: usize = 0;
        while k < n
            invariant
                k <= n,
                n == new_shots@.len(),
                n < 4,
                self.invaders@ == invs,
                0 <= self.invader_tick <= DEFAULT_TICK,
                now <= i32::MAX - 4 * DEFAULT_TICK,
                forall|q: int| 0 <= q < n ==> #[trigger] new_shots@[q] < invs.len(),
                *self == (Game { loaded_shot: self.loaded_shot, ..g0 }),
                self.loaded_shot@ == l0 + volley_of(invs, new_shots@.subrange(0, k as int), now, self.invader_tick),
            decreases n - k,
        {
            let idx = new_shots[k];
            let tick = self.invader_tick;
            assert(0 <= (k as int) * (tick as int) <= 4 * DEFAULT_TICK) by (nonlinear_arith)
                requires
                    0 <= k < 4,
                    0 <= tick <= DEFAULT_TICK,
            ;
            let time: i32 = now + (k as i32) * tick;
            let ls = LoadedShot { row: self.invaders[idx].row, column: self.invaders[idx].column, time };
            let ghost before = self.loaded_shot@;
            self.loaded_shot.push(ls);
            proof {
                assert(volley_of(invs, new_shots@.subrange(0, k + 1), now, self.invader_tick) =~= volley_of(
                    invs,
                    new_shots@.subrange(0, k as int),
                    now,
                    self.invader_tick,
                ).push(ls));
                assert(self.loaded_shot@ =~= l0 + volley_of(invs, new_shots@.subrange(0, k + 1), now, self.invader_tick));
            }
            k = k + 1;
        }
        proof {
            assert(new_shots@.subrange(0, n as int) =~= new_shots@);
            assert(valid_volley(invs, new_shots@));
        }
    }

    /// `next` is this game after one tick at `timer`: every field as the
    /// simulation rules give it, the volley drawn as some `sh` the scheduler
    /// may draw.
    pub open spec fn ticked(self, next: Game, timer: Timer) -> bool {
        let o = self;
        let now = timer.time;
        let expiry = (now + EXPLOSION_TIMER) as i32;
        let toggles = timer.ufo_timer == 0;
        let spawn1 = if toggles {
            !o.spawn_ufo
        } else {
            o.spawn_ufo
        };
        let times1 = if toggles && !o.spawn_ufo {
            o.ufo_spawn_times.wrapping_add(1)
        } else {
            o.ufo_spawn_times
        };
        let invs1 = kept(o.invaders@, invader_live());
        let (tick1, thr1) = ramp_after(invs1.len() as int, o.invader_tick, o.speed_increase_threashold);
        let (v0, d0) = if spawn1 {
            spawned_ufo(times1)
        } else {
            (o.ufo.game_object@, o.ufo.dir)
        };
        let active = (spawn1 || o.ufo_active) && !ufo_at_edge(v0, d0);
        let v1 = if active {
            ufo_moved(v0, d0)
        } else {
            v0
        };
        let ufo_blast: Seq<(ObjectView, i32)> = if active && v1.destroyed {
            seq![blast(v1.rect, expiry)]
        } else {
            seq![]
        };
        let moving = o.invader_timer + o.speed >= tick1;
        let invs2 = if moving {
            formation_after(invs1, o.move_rows_down@)
        } else {
            invs1
        };
        let shot_timer1 = if moving {
            o.invader_shot_timer + 1
        } else {
            o.invader_shot_timer as int
        };
        let volley = moving && shot_timer1 >= INVADER_SHOT_DELAY;
        let falling = kept(object_views(o.invader_shots@), shot_stays()).map_values(fallen());
        &&& next.state == state_after(o.state, timer.game_over_timer, invs1.len() as int)
        &&& next.invaders@ == invs2
        &&& next.move_rows_down@ == (if moving {
            rows_after(invs1, o.move_rows_down@)
        } else {
            o.move_rows_down@
        })
        &&& next.invader_tick == tick1
        &&& next.speed_increase_threashold == thr1
        &&& next.invader_timer == (if moving {
            0
        } else {
            o.invader_timer + o.speed
        })
        &&& next.invader_shot_timer == (if volley {
            0
        } else {
            shot_timer1
        })
        &&& next.spawn_ufo == false
        &&& next.ufo_spawn_times == times1
        &&& next.ufo.game_object@ == v1
        &&& next.ufo.dir == d0
        &&& next.ufo_active == (active && !v1.destroyed)
        &&& explosion_views(next.explosions@) == kept(
            explosion_views(o.explosions@) + invader_blasts(o.invaders@, expiry) + ufo_blast + shot_blasts(
                o.invader_shots@,
                expiry,
            ),
            unexpired(now),
        )
        &&& exists|sh: Seq<usize>|
            (if volley {
                valid_volley(invs2, sh)
            } else {
                sh.len() == 0
            }) && ({
                let loaded = o.loaded_shot@ + volley_of(invs2, sh, now, tick1);
                if moving {
                    &&& next.loaded_shot@ == kept(loaded, still_loaded(now))
                    &&& object_views(next.invader_shots@) == falling + fired(invs2, loaded, now)
                } else {
                    &&& next.loaded_shot@ == o.loaded_shot@
                    &&& object_views(next.invader_shots@) == falling
                }
            })
        &&& forall|i: int|
            0 <= i < next.invader_shots@.len() ==> (#[trigger] next.invader_shots@[i]).rect.y < CANVAS_HEIGHT
        &&& next.barrier_row == o.barrier_row
        &&& next.speed == o.speed
    }

    /// Advances the simulation by one tick at tick number `timer.time`.
    #[verifier::rlimit(80)]
    pub fn update(&mut self, timer: &Timer)
        requires
            old(self).wf(),
            timer.time <= LAST_TICK,
        ensures
            final(self).wf(),
            old(self).ticked(*final(self), *timer),
    {
        let now = timer.time;
        let expiry = now + EXPLOSION_TIMER;
        let ghost o = *self;

        if timer.ufo_timer == 0 {
            self.toggle_spawn_ufo();
        }

        if timer.game_over_timer > 1 {
            self.set_game_over();
        }

        self.retire_invaders(expiry);
        proof {
            kept_len(o.invaders@, invader_live());
        }

        if self.invaders.len() == 0 && self.state == State::Playing {
            self.state = State::Win;
        }

        if (self.invaders.len() as u64) <= (self.speed_increase_threashold as u64) {
            self.invader_tick = decrease_until_zero(self.invader_tick, TICK_INCREASE, 0);
            self.speed_increase_threashold = decrease_until_zero(
                self.speed_increase_threashold,
                SPEED_INCREASE_LEN,
                1,
            );
        }
        let ghost g1 = *self;

        self.update_ufo(expiry);
        let ghost g2 = *self;

        self.advance_shots(expiry, now);
        let ghost g3 = *self;

        self.invader_timer = self.invader_timer + self.speed;

        if self.invader_timer >= self.invader_tick {
            self.invader_timer = 0;

            advance_formation(&mut self.invaders, &mut self.move_rows_down);

            self.invader_shot_timer = self.invader_shot_timer + 1;
            let ghost g4 = *self;

            if self.invader_shot_timer >= INVADER_SHOT_DELAY {
                self.load_volley(now);
                self.invader_shot_timer = 0;
                let ghost g5 = *self;
                self.fire_loaded(now);
                proof {
                    let sh = choose|sh: Seq<usize>|
                        valid_volley(g4.invaders@, sh) && g5.loaded_shot@ == g4.loaded_shot@ + volley_of(
                            g4.invaders@,
                            sh,
                            now,
                            g4.invader_tick,
                        );
                    assert(explosion_views(self.explosions@) == explosion_views(g3.explosions@));
                    assert(o.ticked(*self, *timer));
                }
            } else {
                let ghost g5 = *self;
                self.fire_loaded(now);
                proof {
                    let sh = Seq::<usize>::empty();
                    assert(g5.loaded_shot@ == g5.loaded_shot@ + volley_of(g4.invaders@, sh, now, g4.invader_tick));
                    assert(o.ticked(*self, *timer));
                }
            }
        } else {
            proof {
                let sh = Seq::<usize>::empty();
                assert(o.loaded_shot@ =~= o.loaded_shot@ + volley_of(self.invaders@, sh, now, self.invader_tick));
                assert(o.ticked(*self, *timer));
            }
        }
        proof {
            tick_keeps_places(o, *self, *timer);
        }
    }
}

} // verus!

verus! {

/// The state machine: a ship destroyed for more than one tick ends the game
/// on the next tick; otherwise, a game in play whose last invaders have all
/// been destroyed is won on the next tick.
pub proof fn state_transitions(g: Game, next: Game, timer: Timer)
    requires
        g.ticked(next, timer),
    ensures
        timer.game_over_timer > 1 ==> next.state == State::GameOver,
        timer.game_over_timer <= 1 && g.state == State::Playing && (forall|i: int|
            0 <= i < g.invaders@.len() ==> (#[trigger] g.invaders@[i]).game_object.is_destroyed)
            ==> next.state == State::Win,
{
    if timer.game_over_timer <= 1 && g.state == State::Playing && (forall|i: int|
        0 <= i < g.invaders@.len() ==> (#[trigger] g.invaders@[i]).game_object.is_destroyed) {
        kept_none(g.invaders@);
    }
}

proof fn kept_keeps_places(s: Seq<Invader>, p: spec_fn(Invader) -> bool)
    requires
        distinct_places(s),
    ensures
        distinct_places(kept(s, p)),
    decreases s.len(),
{
    reveal(distinct_places);
    if s.len() > 0 {
        let rest = s.subrange(1, s.len() as int);
        assert(distinct_places(rest)) by {
            assert forall|i: int, j: int| 0 <= i < j < rest.len() implies !(#[trigger] rest[i].row
                == #[trigger] rest[j].row && rest[i].column == rest[j].column) by {
                assert(rest[i] == s[i + 1] && rest[j] == s[j + 1]);
            }
        }
        kept_keeps_places(rest, p);
        kept_len(rest, p);
        let k = kept(rest, p);
        let h: Seq<Invader> = if p(s[0]) {
            seq![s[0]]
        } else {
            seq![]
        };
        let all = kept(s, p);
        assert(all == h + k);
        assert forall|i: int, j: int| 0 <= i < j < all.len() implies !(#[trigger] all[i].row
            == #[trigger] all[j].row && all[i].column == all[j].column) by {
            if i < h.len() {
                let m = choose|m: int| 0 <= m < rest.len() && rest[m] == #[trigger] k[j - h.len()];
                assert(all[i] == s[0]);
                assert(all[j] == s[m + 1]);
            } else {
                assert(all[i] == k[i - h.len()] && all[j] == k[j - h.len()]);
            }
        }
    }
}

/// A tick keeps every invader's place in the formation grid distinct.
proof fn tick_keeps_places(o: Game, next: Game, timer: Timer)
    requires
        o.ticked(next, timer),
        distinct_places(o.invaders@),
    ensures
        distinct_places(next.invaders@),
{
    reveal(distinct_places);
    let invs1 = kept(o.invaders@, invader_live());
    kept_keeps_places(o.invaders@, invader_live());
    let q = o.move_rows_down@;
    let f = formation_after(invs1, q);
    assert(f.len() == invs1.len());
    assert forall|i: int| 0 <= i < invs1.len() implies (#[trigger] f[i]).row == invs1[i].row && f[i].column
        == invs1[i].column by {
    }
    assert(distinct_places(f)) by {
        assert forall|i: int, j: int| 0 <= i < j < f.len() implies !(#[trigger] f[i].row == #[trigger] f[j].row
            && f[i].column == f[j].column) by {
            assert(f[i].row == invs1[i].row && f[j].row == invs1[j].row);
        }
    }
}

proof fn kept_none(s: Seq<Invader>)
    requires
        forall|i: int| 0 <= i < s.len() ==> (#[trigger] s[i]).game_object.is_destroyed,
    ensures
        kept(s, invader_live()).len() == 0,
    decreases s.len(),
{
    if s.len() > 0 {
        let t = s.subrange(1, s.len() as int);
        assert forall|i: int| 0 <= i < t.len() implies (#[trigger] t[i]).game_object.is_destroyed by {
            assert(t[i] == s[i + 1]);
        }
        kept_none(t);
    }
}

} // verus!

verus! {

proof fn kept_all_live(s: Seq<Invader>)
    requires
        forall|i: int| 0 <= i < s.len() ==> !(#[trigger] s[i]).game_object.is_destroyed,
    ensures
        kept(s, invader_live()) == s,
    decreases s.len(),
{
    if s.len() > 0 {
        let t = s.subrange(1, s.len() as int);
        assert forall|i: int| 0 <= i < t.len() implies !(#[trigger] t[i]).game_object.is_destroyed by {
            assert(t[i] == s[i + 1]);
        }
        kept_all_live(t);
        assert(seq![s[0]] + t =~= s);
    }
}

/// Formation through whole ticks: with no invader destroyed, a tick that
/// reaches the move interval (the one that resets the interval counter)
/// applies exactly one formation step to the formation and its queue, and
/// any other tick leaves both as they were.
pub proof fn tick_moves_formation(g: Game, next: Game, timer: Timer)
    requires
        g.wf(),
        g.ticked(next, timer),
        forall|i: int| 0 <= i < g.invaders@.len() ==> !(#[trigger] g.invaders@[i]).game_object.is_destroyed,
    ensures
        next.invader_timer == 0 ==> next.invaders@ == formation_after(g.invaders@, g.move_rows_down@)
            && next.move_rows_down@ == rows_after(g.invaders@, g.move_rows_down@),
        next.invader_timer != 0 ==> next.invaders@ == g.invaders@ && next.move_rows_down@ == g.move_rows_down@,
{
    kept_all_live(g.invaders@);
}

} // verus!
