use vstd::prelude::*;

use crate::barrier::Barrier;
use crate::invader::Invader;
use crate::random::random_below;
use crate::rect::Rect;
use crate::ufo::{spawned_ufo, UFO, UFO_STEP};

verus! {

pub const FPS: u32 = 60;

pub const PIXEL_SIZE: i32 = 6;
pub const CANVAS_WIDTH: i32 = 1920;
pub const CANVAS_HEIGHT: i32 = 1080;
pub const WIDTH_DIV_20: i32 = 96;
pub const CANVAS_RIGHT_EDGE: i32 = CANVAS_WIDTH - WIDTH_DIV_20 - 12 * PIXEL_SIZE;
pub const CANVAS_LEFT_EDGE: i32 = WIDTH_DIV_20;
pub const HEIGHT_DIV_4: i32 = 270;

} // verus!

verus! {

/// Horizontal heading of an invader or of the UFO.
#[derive(Clone, Copy, Debug, PartialEq, Eq, Structural)]
pub enum Direction {
    Left,
    Right,
}

impl Direction {
    pub open spec fn flipped(self) -> Direction {
        match self {
            Direction::Left => Direction::Right,
            Direction::Right => Direction::Left,
        }
    }
}

/// A drawable entity: its box, the tag of the texture it is drawn with, and
/// whether it has been hit this tick.
#[derive(Debug)]
pub struct GameObject {
    pub rect: Rect,
    pub texture_name: String,
    pub is_destroyed: bool,
}

/// What a game object shows: its box, its texture tag and its destroyed flag.
pub struct ObjectView {
    pub rect: Rect,
    pub texture: Seq<char>,
    pub destroyed: bool,
}

impl View for GameObject {
    type V = ObjectView;

    open spec fn view(&self) -> ObjectView {
        ObjectView { rect: self.rect, texture: self.texture_name@, destroyed: self.is_destroyed }
    }
}

pub open spec fn object_views(s: Seq<GameObject>) -> Seq<ObjectView> {
    s.map_values(|o: GameObject| o@)
}

impl GameObject {
    pub fn new(x: i32, y: i32, width: u32, height: u32, texture_name: String) -> (r: Self)
        ensures
            r.rect == (Rect { x, y, width, height }),
            r.texture_name == texture_name,
            !r.is_destroyed,
    {
        GameObject { rect: Rect::new(x, y, width, height), texture_name, is_destroyed: false }
    }
}

} // verus!

verus! {

/// Columns in the invader formation.
pub const ROW_SIZE: u32 = 11;

/// Rows in the invader formation.
pub const ROW_COUNT: u32 = 5;

pub const INVADER_SHOT_DELAY: u32 = 10;
pub const EXPLOSION_TIMER: i32 = 2;

pub const DEFAULT_TICK: i32 = 50;
pub const TICK_INCREASE: i32 = 12;
pub const SPEED_INCREASE_LEN: i32 = 15;

pub const EXPLOSION_WIDTH: u32 = 12 * 6;
pub const EXPLOSION_HEIGHT: u32 = 10 * 6;
pub const INVADER_SHOT_WIDTH: u32 = 3 * 6;
pub const INVADER_SHOT_HEIGHT: u32 = 7 * 6;

/// Distance an enemy shot falls each tick.
pub const SHOT_FALL: i32 = 10;

/// Latest tick number for which `Game::update` can stamp arming and expiry
/// times without leaving `i32`.
pub const LAST_TICK: i32 = i32::MAX - 1000;

/// Left edge of the first invader in formation row block `b` (0 at the top).
pub open spec fn initial_x(b: int, c: int) -> int {
    (if b < 2 {
        480int
    } else {
        472int
    }) + 96 * c
}

pub open spec fn initial_width(b: int) -> u32 {
    if b == 0 {
        48u32
    } else if b <= 2 {
        66u32
    } else {
        72u32
    }
}

pub open spec fn initial_texture(b: int) -> Seq<char> {
    if b == 0 {
        "invader_texture1"@
    } else if b <= 2 {
        "invader_texture2"@
    } else {
        "invader_texture3"@
    }
}

/// The `i`-th invader of a fresh formation: eleven per row block, the top
/// block first, each block listed from the left.
pub open spec fn is_initial_invader(v: Invader, i: int) -> bool {
    let b = i / 11;
    let c = i % 11;
    &&& v.game_object.rect == (Rect {
        x: initial_x(b, c) as i32,
        y: (180 + 96 * b) as i32,
        width: initial_width(b),
        height: 48u32,
    })
    &&& v.game_object.texture_name@ == initial_texture(b)
    &&& !v.game_object.is_destroyed
    &&& v.row == 4 - b
    &&& v.column == c
    &&& v.dir == Direction::Right
    &&& v.anim_step == 1
}

/// Ticks until a UFO spawn for a drawn `jitter` in `0..=10`: thirty
/// seconds shifted by `jitter - 5` seconds.
pub fn ufo_time_for(jitter: usize) -> (r: u32)
    requires
        jitter <= 10,
    ensures
        r == (25 + jitter) * FPS,
{
    (25 + jitter as u32) * FPS
}

/// No two invaders stand at the same row and column: a loaded shot names
/// its shooter by that pair.
#[verifier::opaque]
pub open spec fn distinct_places(s: Seq<Invader>) -> bool {
    forall|i: int, j: int|
        0 <= i < j < s.len() ==> !(#[trigger] s[i].row == #[trigger] s[j].row && s[i].column == s[j].column)
}

/// Left edges of the four barriers.
pub open spec fn barrier_x(k: int) -> int {
    160 + 480 * k
}

#[derive(Clone, Copy, Debug, PartialEq, Eq, Structural)]
pub enum State {
    Playing,
    Paused,
    GameOver,
    Win,
}

/// A shot waiting to be fired by the invader at `row`, `column` once the
/// tick count reaches `time`.
#[derive(Clone, Copy, Debug, PartialEq, Eq, Structural)]
pub struct LoadedShot {
    pub row: u32,
    pub column: u32,
    pub time: i32,
}

pub struct Game {
    pub invaders: Vec<Invader>,
    pub barrier_row: Vec<Barrier>,
    pub invader_shots: Vec<GameObject>,
    pub loaded_shot: Vec<LoadedShot>,
    /// Each explosion with the tick at which it disappears.
    pub explosions: Vec<(GameObject, i32)>,
    pub invader_shot_timer: u32,
    pub state: State,
    pub invader_timer: i32,
    pub speed: i32,
    /// Rows that still owe a descent step, in the order they descend: the
    /// next to descend is the first.
    pub move_rows_down: Vec<u32>,
    pub ufo: UFO,
    pub spawn_ufo: bool,
    pub ufo_active: bool,
    pub ufo_spawn_times: u32,
    pub invader_tick: i32,
    pub speed_increase_threashold: i32,
}

fn push_invader_row(
    invaders: &mut Vec<Invader>,
    x0: i32,
    y: i32,
    width: u32,
    texture: &str,
    row: u32,
)
    requires
        old(invaders)@.len() % 11 == 0,
        old(invaders)@.len() < 55,
        row == 4 - old(invaders)@.len() as int / 11,
        x0 == initial_x(old(invaders)@.len() as int / 11, 0),
        y == 180 + 96 * (old(invaders)@.len() as int / 11),
        width == initial_width(old(invaders)@.len() as int / 11),
        texture@ == initial_texture(old(invaders)@.len() as int / 11),
        forall|i: int| 0 <= i < old(invaders)@.len() ==> is_initial_invader(#[trigger] old(invaders)@[i], i),
    ensures
        final(invaders)@.len() == old(invaders)@.len() + 11,
        forall|i: int| 0 <= i < final(invaders)@.len() ==> is_initial_invader(#[trigger] final(invaders)@[i], i),
{
    let ghost start: int = invaders@.len() as int;
    let mut cur_x = x0;
    let mut c: u32 = 0;
    while c < ROW_SIZE
        invariant
            c <= ROW_SIZE,
            start % 11 == 0,
            start < 55,
            invaders@.len() == start + c,
            cur_x == x0 + 96 * c,
            x0 == initial_x(start / 11, 0),
            row == 4 - start / 11,
            y == 180 + 96 * (start / 11),
            width == initial_width(start / 11),
            texture@ == initial_texture(start / 11),
            forall|i: int| 0 <= i < invaders@.len() ==> is_initial_invader(#[trigger] invaders@[i], i),
        decreases ROW_SIZE - c,
    {
        let v = Invader::new(cur_x, y, width, 8 * PIXEL_SIZE as u32, String::from_str(texture), row, c);
        let ghost before = invaders@;
        invaders.push(v);
        proof {
            let i = start + c;
            assert(i / 11 == start / 11);
            assert(i % 11 == c);
            assert forall|j: int| 0 <= j < invaders@.len() implies is_initial_invader(#[trigger] invaders@[j], j) by {
                if j < i {
                    assert(invaders@[j] == before[j]);
                }
            }
        }
        cur_x = cur_x + 96;
        c = c + 1;
    }
}

impl Game {
    /// What every tick relies on: invaders and UFO inside the band they
    /// sweep, and the cadence counters in their ranges.
    pub open spec fn wf(self) -> bool {
        &&& forall|i: int| 0 <= i < self.invaders@.len() ==> (#[trigger] self.invaders@[i]).is_in_bounds()
        &&& distinct_places(self.invaders@)
        &&& CANVAS_LEFT_EDGE - UFO_STEP < self.ufo.game_object.rect.x < CANVAS_RIGHT_EDGE + UFO_STEP
        &&& 0 <= self.invader_tick <= DEFAULT_TICK
        &&& 1 <= self.speed_increase_threashold <= DEFAULT_TICK - SPEED_INCREASE_LEN
        &&& 0 <= self.invader_timer <= DEFAULT_TICK
        &&& self.speed == 1
        &&& self.invader_shot_timer < INVADER_SHOT_DELAY
    }

    /// A fresh game: the full formation, four intact barriers, no shots, no
    /// explosions, the UFO waiting for its first spawn.
    pub open spec fn is_fresh(self) -> bool {
        &&& self.invaders@.len() == 55
        &&& forall|i: int| 0 <= i < 55 ==> is_initial_invader(#[trigger] self.invaders@[i], i)
        &&& self.barrier_row@.len() == 4
        &&& forall|k: int| 0 <= k < 4 ==> (#[trigger] self.barrier_row@[k]).is_fresh_at(barrier_x(k))
        &&& self.invader_shots@.len() == 0
        &&& self.loaded_shot@.len() == 0
        &&& self.explosions@.len() == 0
        &&& self.invader_shot_timer == 0
        &&& self.state == State::Playing
        &&& self.invader_timer == 0
        &&& self.speed == 1
        &&& self.move_rows_down@.len() == 0
        &&& (self.ufo.game_object@, self.ufo.dir) == spawned_ufo(0)
        &&& !self.spawn_ufo
        &&& !self.ufo_active
        &&& self.ufo_spawn_times == 0
        &&& self.invader_tick == DEFAULT_TICK
        &&& self.speed_increase_threashold == DEFAULT_TICK - SPEED_INCREASE_LEN
    }

    pub fn new() -> (r: Self)
        ensures
            r.is_fresh(),
            r.wf(),
    {
        let mut invaders: Vec<Invader> = Vec::new();
        let mut barrier_row: Vec<Barrier> = Vec::new();

        push_invader_row(&mut invaders, 480, 180, 8 * PIXEL_SIZE as u32, "invader_texture1", 4);
        push_invader_row(&mut invaders, 480, 276, 11 * PIXEL_SIZE as u32, "invader_texture2", 3);
        push_invader_row(&mut invaders, 472, 372, 11 * PIXEL_SIZE as u32, "invader_texture2", 2);
        push_invader_row(&mut invaders, 472, 468, 12 * PIXEL_SIZE as u32, "invader_texture3", 1);
        push_invader_row(&mut invaders, 472, 564, 12 * PIXEL_SIZE as u32, "invader_texture3", 0);

        let mut barrier_x_pos: i32 = 160;
        let mut k: usize = 0;
        while k < 4
            invariant
                k <= 4,
                barrier_row@.len() == k,
                barrier_x_pos == barrier_x(k as int),
                forall|j: int| 0 <= j < k ==> (#[trigger] barrier_row@[j]).is_fresh_at(barrier_x(j)),
            decreases 4 - k,
        {
            barrier_row.push(Barrier::new(barrier_x_pos));
            barrier_x_pos = barrier_x_pos + 480;
            k = k + 1;
        }

        let g = Game {
            invaders,
            barrier_row,
            invader_shots: Vec::new(),
            loaded_shot: Vec::new(),
            explosions: Vec::new(),
            invader_shot_timer: 0,
            state: State::Playing,
            invader_timer: 0,
            speed: 1,
            move_rows_down: Vec::new(),
            ufo: UFO::new(0),
            spawn_ufo: false,
            ufo_active: false,
            ufo_spawn_times: 0,
            invader_tick: DEFAULT_TICK,
            speed_increase_threashold: DEFAULT_TICK - SPEED_INCREASE_LEN,
        };
        proof {
            assert forall|i: int| 0 <= i < g.invaders@.len() implies (#[trigger] g.invaders@[i]).is_in_bounds() by {
                assert(is_initial_invader(g.invaders@[i], i));
                let b = i / 11;
                let c = i % 11;
                assert(0 <= b < 5);
                assert(0 <= c < 11);
            }
            reveal(distinct_places);
            assert forall|i: int, j: int| 0 <= i < j < g.invaders@.len() implies !(#[trigger] g.invaders@[i].row
                == #[trigger] g.invaders@[j].row && g.invaders@[i].column == g.invaders@[j].column) by {
                assert(is_initial_invader(g.invaders@[i], i));
                assert(is_initial_invader(g.invaders@[j], j));
                assert(i == 11 * (i / 11) + i % 11);
                assert(j == 11 * (j / 11) + j % 11);
            }
        }
        g
    }

    /// Starts over: the game becomes a fresh one.
    pub fn reset(&mut self)
        ensures
            final(self).is_fresh(),
            final(self).wf(),
    {
        *self = Game::new();
    }

    pub fn set_playing(&mut self)
        ensures
            *final(self) == (Game { state: State::Playing, ..*old(self) }),
    {
        self.state = State::Playing;
    }

    /// Pausing is refused once the game is over or won.
    pub fn set_paused(&mut self)
        ensures
            *final(self) == (Game {
                state: if old(self).state == State::GameOver || old(self).state == State::Win {
                    old(self).state
                } else {
                    State::Paused
                },
                ..*old(self)
            }),
    {
        if self.state != State::GameOver && self.state != State::Win {
            self.state = State::Paused;
        }
    }

    pub fn set_game_over(&mut self)
        ensures
            *final(self) == (Game { state: State::GameOver, ..*old(self) }),
    {
        self.state = State::GameOver;
    }

    /// Ticks until the next UFO spawn: thirty seconds, give or take up to
    /// five, in whole seconds.
    pub fn get_next_ufo_time(&self) -> (r: u32)
        ensures
            r % FPS == 0,
            25 * FPS <= r <= 35 * FPS,
    {
        ufo_time_for(random_below(0, 11))
    }

    /// Arms a spawn, or disarms one that was armed; each arming counts a
    /// spawn. Only the parity of the count is ever read, so it wraps.
    pub fn toggle_spawn_ufo(&mut self)
        ensures
            *final(self) == (Game {
                spawn_ufo: !old(self).spawn_ufo,
                ufo_spawn_times: if old(self).spawn_ufo {
                    old(self).ufo_spawn_times
                } else {
                    old(self).ufo_spawn_times.wrapping_add(1)
                },
                ..*old(self)
            }),
    {
        if !self.spawn_ufo {
            self.ufo_spawn_times = self.ufo_spawn_times.wrapping_add(1);
        }
        self.spawn_ufo = !self.spawn_ufo;
    }
}

} // verus!
