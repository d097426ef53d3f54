use vstd::prelude::*;

use crate::game::{Game, State, FPS};
use crate::player::Player;

verus! {

/// Tick counters of a running game.
pub struct Timer {
    /// Ticks since the game started.
    pub time: i32,
    /// Milliseconds the last tick took, as measured by the host.
    pub delta_time: u128,
    /// Ticks the ship has spent destroyed.
    pub player_explosion_timer: i32,
    /// Ticks towards the end of the game once the ship is destroyed.
    pub game_over_timer: i32,
    /// Ticks until the next UFO spawn.
    pub ufo_timer: u32,
}

impl Timer {
    pub fn new(game: &Game) -> (r: Timer)
        ensures
            r.time == 0,
            r.delta_time == 0,
            r.player_explosion_timer == 0,
            r.game_over_timer == 0,
            r.ufo_timer % FPS == 0,
            25 * FPS <= r.ufo_timer <= 35 * FPS,
    {
        Timer {
            time: 0,
            delta_time: 0,
            player_explosion_timer: 0,
            game_over_timer: 0,
            ufo_timer: game.get_next_ufo_time(),
        }
    }

    /// Counts one tick that took `delta_time` milliseconds. While the game
    /// is being played, a destroyed ship advances the explosion and game-over
    /// counters, and the UFO countdown runs, starting over once it reached
    /// zero.
    pub fn update(&mut self, game: &Game, player: &Player, delta_time: u128)
        requires
            old(self).time < i32::MAX,
            old(self).player_explosion_timer < i32::MAX,
            old(self).game_over_timer < i32::MAX,
        ensures
            final(self).time == old(self).time + 1,
            final(self).delta_time == delta_time,
            ({
                let counting = game.state == State::Playing && player.game_object.is_destroyed;
                &&& final(self).player_explosion_timer == old(self).player_explosion_timer + (if counting {
                    1int
                } else {
                    0int
                })
                &&& final(self).game_over_timer == old(self).game_over_timer + (if counting {
                    1int
                } else {
                    0int
                })
            }),
            game.state != State::Playing ==> final(self).ufo_timer == old(self).ufo_timer,
            game.state == State::Playing && old(self).ufo_timer > 0 ==> final(self).ufo_timer == old(self).ufo_timer - 1,
            game.state == State::Playing && old(self).ufo_timer == 0 ==> final(self).ufo_timer % FPS == 0 && 25 * FPS
                <= final(self).ufo_timer <= 35 * FPS,
    {
        self.time = self.time + 1;
        self.delta_time = delta_time;

        if game.state == State::Playing {
            if player.game_object.is_destroyed {
                self.player_explosion_timer = self.player_explosion_timer + 1;
                self.game_over_timer = self.game_over_timer + 1;
            }

            if self.ufo_timer == 0 {
                self.ufo_timer = game.get_next_ufo_time();
            } else {
                self.ufo_timer = self.ufo_timer - 1;
            }
        }
    }
}

} // verus!
