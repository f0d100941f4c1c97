//! A deterministic engine for Gobblet, a stacking variant of tic-tac-toe on a
//! 3x3 board, with a fixed bijection between actions and the integers
//! `0..108` so that a policy vector of fixed width can address every action.

pub mod token;
pub mod block;
pub mod action;
pub mod board;
pub mod player;
pub mod model;
pub mod game;
pub mod laws;

pub use action::{Action, ActionType, Pos, ACTION_SPACE_SIZE};
pub use block::Block;
pub use board::Board;
pub use game::{Gobblet, ValidActions};
pub use model::{Status, MAX_TURNS};
pub use player::Player;
pub use token::{PlayerId, Size, Token};
