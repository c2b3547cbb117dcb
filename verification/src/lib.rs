//! A verified game-state engine for two-player tic-tac-toe on a 3x3 grid.
//!
//! The engine owns the board and the active mark, validates placements,
//! alternates turns, and detects wins and draws. Terminal input and output
//! belong to the surrounding command loop, not to this library.

pub mod board;
pub mod game;
pub mod laws;
pub mod render;

pub use board::Cell;
pub use board::Player;
pub use game::Game;
