//! Rules engine for Sixes, a two-player game on a board of eleven hexagons.
//!
//! The crate is layered leaf-first: [`player`] holds each side's pool of
//! stones and [`board`] the cells and the lines of three that score.
//! [`rules`] says, on a mathematical model of a game, which moves are allowed
//! and what they do; [`game`] is the executable game that carries the rules
//! out. [`laws`] states properties of the rules that hold of every game.

pub mod board;
pub mod game;
pub mod laws;
pub mod player;
pub mod rules;

pub use crate::board::Coord;
pub use crate::game::Sixes;
pub use crate::player::PlayerID;
pub use crate::rules::{GameError, GameState, Play, CENTER_HEX};
