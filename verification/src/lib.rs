//! The simulation core of a snake game on a bounded, wrap-around grid.
//!
//! The crate holds the game state and the rules that change it: how the body
//! trails its head through turns, how it grows, where a new apple may be put,
//! when a round is lost and how it is started again. Every rule is stated
//! over a mathematical model ([`body::SnakeModel`], [`game::GameModel`]) and
//! the executable code is proved to follow it. Drawing, input devices and the
//! frame scheduler are left to the program around it.

pub mod apple;
pub mod body;
pub mod direction;
pub mod game;
pub mod grid;
pub mod position;
pub mod round;
