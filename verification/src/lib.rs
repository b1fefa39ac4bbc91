//! The simulation core of a falling-block game: the playing field, the
//! seven tetromino kinds with their rotation tables, collision and placement
//! rules, line clearing, scoring and level progression.
//!
//! Every executable function carries a contract, stated over a mathematical
//! model of the field (`Seq<Seq<u8>>`) and of the session, and proved by
//! Verus.
//!
//! - `field`: the grid, its rows, and what a line clear leaves of it.
//! - `tetromino`: the piece catalog and the live piece.
//! - `generator`: the choice of the next piece.
//! - `session`: the rules of a session over its mathematical state.
//! - `game`: the stored session and its operations.
//! - `events`: the player's intents and what a batch of them does.
//! - `highscores`: the table of best results and its text.
//! - `clock`: the system clock, as far as the game reads it.

pub mod clock;
pub mod events;
pub mod field;
pub mod game;
pub mod generator;
pub mod highscores;
pub mod session;
pub mod tetromino;
