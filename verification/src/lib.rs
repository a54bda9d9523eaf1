//! Conway-style cellular automaton on a fixed-size toroidal grid.
//!
//! The crate holds the simulation core only: the two-state [`Cell`], the
//! [`Grid`] with its wrap-around indexing, neighbour lookup and generation
//! step, and the small start/stop/step state machine ([`Simulation`]) that a
//! front end drives from its timer and its buttons.  Every contract is stated
//! over the mathematical [`Board`] that a grid stands for.

pub mod error;
pub mod coin;
pub mod cell;
pub mod wrap;
pub mod rule;
pub mod board;
pub mod grid;
pub mod laws;
pub mod simulation;

pub use crate::cell::{Cell, State};
pub use crate::coin::{CoinSource, ScriptedCoin, ThreadCoin};
pub use crate::error::GridError;
pub use crate::board::Board;
pub use crate::grid::Grid;
pub use crate::simulation::{Config, Msg, Simulation};
