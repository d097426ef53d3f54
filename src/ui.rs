use vstd::prelude::*;

use crate::game::{State, PIXEL_SIZE};
use crate::keys::Keys;
use crate::rect::Rect;

verus! {

/// Asks the host to start a new game.
pub struct RetryEvent;

/// Asks the host to resume a paused game.
pub struct ContinueEvent;

/// What a menu selection asks the host to do.
#[derive(Clone, Copy, Debug, PartialEq, Eq, Structural)]
pub enum UiAction {
    Nothing,
    Retry,
    Continue,
    Quit,
}

/// Horizontal gap between the cursor arrow and the entry it points at.
pub const CURSOR_GAP: i32 = 300;

/// The overlay menu shown while the game is not being played: two entries
/// (retry or continue, then quit) and a cursor on one of them.
pub struct UI {
    pub targets: [Rect; 2],
    pub cursor_pos: usize,
    pub prev_keys: Keys,
}

/// The cursor arrow beside `target`, for an arrow template of `cols` by
/// `rows` cells drawn at twice the pixel size.
pub open spec fn cursor_rect(target: Rect, cols: u32, rows: u32) -> Rect {
    Rect {
        x: (target.x - CURSOR_GAP) as i32,
        y: (target.y + target.height / 2 - target.height / 2) as i32,
        width: (cols * PIXEL_SIZE * 2) as u32,
        height: (rows * PIXEL_SIZE * 2) as u32,
    }
}

/// What selecting the entry under the cursor means in state `s`.
pub open spec fn selection(cursor_pos: usize, s: State) -> UiAction {
    if cursor_pos == 0 {
        if s == State::GameOver || s == State::Win {
            UiAction::Retry
        } else if s == State::Paused {
            UiAction::Continue
        } else {
            UiAction::Nothing
        }
    } else {
        UiAction::Quit
    }
}

/// Names of the menu entries shown in state `s`; an empty name shows
/// nothing.
pub open spec fn target_names(s: State) -> Seq<Seq<char>> {
    if s == State::GameOver {
        seq!["game over"@, "retry"@, "quit"@]
    } else if s == State::Paused {
        seq![""@, "continue"@, "quit"@]
    } else if s == State::Win {
        seq!["victory"@, "retry"@, "quit"@]
    } else {
        seq![""@, ""@, ""@]
    }
}

impl UI {
    pub fn new(retry_target: Rect, quit_target: Rect) -> (r: UI)
        ensures
            r.targets@ == seq![retry_target, quit_target],
            r.cursor_pos == 0,
            r.prev_keys == Keys::none_spec(),
    {
        UI { targets: [retry_target, quit_target], cursor_pos: 0, prev_keys: Keys::none() }
    }

    /// Moves the cursor to the other entry.
    pub fn update_cursor(&mut self)
        ensures
            final(self).cursor_pos == (if old(self).cursor_pos == 0 { 1usize } else { 0usize }),
            final(self).targets == old(self).targets,
            final(self).prev_keys == old(self).prev_keys,
    {
        if self.cursor_pos == 0 {
            self.cursor_pos = 1;
        } else {
            self.cursor_pos = 0;
        }
    }

    /// Where the cursor arrow is drawn, beside the entry under the cursor.
    pub fn get_cursor_target(&self, arrow_cols: u32, arrow_rows: u32) -> (r: Rect)
        requires
            self.cursor_pos < 2,
            self.targets@[self.cursor_pos as int].x >= i32::MIN + CURSOR_GAP,
            self.targets@[self.cursor_pos as int].y + self.targets@[self.cursor_pos as int].height / 2 <= i32::MAX,
            arrow_cols * PIXEL_SIZE * 2 <= u32::MAX,
            arrow_rows * PIXEL_SIZE * 2 <= u32::MAX,
        ensures
            r == cursor_rect(self.targets@[self.cursor_pos as int], arrow_cols, arrow_rows),
    {
        let target = self.targets[self.cursor_pos];
        let half: i32 = (target.height / 2) as i32;
        let center_y: i32 = target.y + half;
        Rect::new(
            target.x - CURSOR_GAP,
            center_y - half,
            arrow_cols * PIXEL_SIZE as u32 * 2,
            arrow_rows * PIXEL_SIZE as u32 * 2,
        )
    }

    /// What selecting the entry under the cursor asks for.
    pub fn select(&self, game_state: &State) -> (r: UiAction)
        ensures
            r == selection(self.cursor_pos, *game_state),
    {
        if self.cursor_pos == 0 {
            if *game_state == State::GameOver || *game_state == State::Win {
                UiAction::Retry
            } else if *game_state == State::Paused {
                UiAction::Continue
            } else {
                UiAction::Nothing
            }
        } else {
            UiAction::Quit
        }
    }

    /// One tick of the menu: outside play, a fresh press of up or down moves
    /// the cursor, and a fresh press of enter or space selects the entry then
    /// under it.
    pub fn update(&mut self, keys: &Keys, game_state: &State) -> (r: UiAction)
        ensures
            final(self).prev_keys == *keys,
            final(self).targets == old(self).targets,
            ({
                let o = *old(self);
                let moves = *game_state != State::Playing && ((keys.up && !o.prev_keys.up) || (keys.down
                    && !o.prev_keys.down));
                let pos = if moves {
                    if o.cursor_pos == 0 {
                        1usize
                    } else {
                        0usize
                    }
                } else {
                    o.cursor_pos
                };
                let selects = *game_state != State::Playing && ((keys.enter && !o.prev_keys.enter) || (
                keys.space && !o.prev_keys.space));
                &&& final(self).cursor_pos == pos
                &&& r == (if selects {
                    selection(pos, *game_state)
                } else {
                    UiAction::Nothing
                })
            }),
    {
        let prev = self.prev_keys;
        let mut action = UiAction::Nothing;

        if *game_state != State::Playing {
            if (keys.up && !prev.up) || (keys.down && !prev.down) {
                self.update_cursor();
            }

            if (keys.enter && !prev.enter) || (keys.space && !prev.space) {
                action = self.select(game_state);
            }
        }

        self.prev_keys = *keys;
        action
    }

    /// Names of the menu entries to draw in `game_state`.
    pub fn get_ui_targets_base_on_state(&self, game_state: &State) -> (r: Vec<String>)
        ensures
            r@.len() == 3,
            forall|i: int| 0 <= i < 3 ==> #[trigger] r@[i]@ == target_names(*game_state)[i],
    {
        let names: [&str; 3] = if *game_state == State::GameOver {
            ["game over", "retry", "quit"]
        } else if *game_state == State::Paused {
            ["", "continue", "quit"]
        } else if *game_state == State::Win {
            ["victory", "retry", "quit"]
        } else {
            ["", "", ""]
        };
        let mut r: Vec<String> = Vec::new();
        let mut i: usize = 0;
        while i < 3
            invariant
                i <= 3,
                r@.len() == i,
                forall|j: int| 0 <= j < 3 ==> #[trigger] names@[j]@ == target_names(*game_state)[j],
                forall|j: int| 0 <= j < i ==> #[trigger] r@[j]@ == target_names(*game_state)[j],
            decreases 3 - i,
        {
            r.push(String::from_str(names[i]));
            i = i + 1;
        }
        r
    }
}

} // verus!
