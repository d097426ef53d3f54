//! Simulation core of a fixed-formation arcade shooter: entity model,
//! destructible barriers, formation movement, enemy fire scheduling,
//! collision resolution and the per-tick game state machine.

pub mod barrier;
pub mod collision;
pub mod fire;
pub mod formation;
pub mod game;
pub mod invader;
pub mod keys;
pub mod player;
mod random;
pub mod rect;
pub mod resolve;
pub mod seqs;
pub mod tick;
pub mod timer;
pub mod ufo;
pub mod ui;
pub mod util;
