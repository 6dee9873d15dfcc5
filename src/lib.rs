//! A two-player tic-tac-toe host: the board, a match with its two player
//! slots, and the registry of matches that a server shares between its
//! connections.

pub mod tile;
pub mod error;
pub mod board;
pub mod instance;
pub mod registry;
pub mod protocol;
pub mod stream;
