//! The rules of a snake game on a small wrap-around grid.
//!
//! A snake moves one cell per tick, grows when it eats the apple and dies
//! when it runs into itself. Everything here is pure game logic with
//! machine-checked contracts; windowing, key polling and drawing are left to
//! the program that drives a [`GameLoop`].

pub mod body;
pub mod direction;
pub mod game;
pub mod game_loop;
pub mod grid;
pub mod random;
pub mod render;

pub use direction::{Key, Move};
pub use game::Game;
pub use game_loop::{GameLoop, KeysDown};
pub use grid::Position;
pub use render::{Rect, Scene};
