//! Cleansweeper: the board engine of a minesweeper in which the player flags
//! the mines and opens the safe cells, on a bounded rectangle or on a torus.
//!
//! [`Grid`] holds the cells and makes the moves; [`AppData`] is the game
//! around it, with the status and the undo. Both are stated over a
//! mathematical model, [`Board`] and [`Game`]: the contract of each function
//! says what it does to the model, and the module `laws` proves what holds
//! of every game.
//!
//! The engine holds no floating point. The mine fraction is a fixed-point
//! number, in parts of [`FRACTION_SCALE`], and a cell is mined when a uniform
//! draw below the scale falls below the fraction.

pub mod board;
pub mod cell;
pub mod display;
pub mod flood;
pub mod game;
pub mod grid;
pub mod laws;
pub mod moves;
pub mod start;

pub use board::{Board, GridPos, FRACTION_SCALE, NEIGHBOR_COUNT};
pub use cell::CellState;
pub use display::{CellFace, Fill, TORUS_OVERLAP};
pub use game::{AppData, Button, Game, GameOver};
pub use grid::{ConfigError, Grid, Topology};
