//! Rules engine for Mehen, a two-player race-and-capture game played on a
//! spiral track of 35 squares around a centre.
//!
//! The crate owns the game state, validates and applies moves, resolves
//! captures, detects victory, and derives the plain data a front end needs
//! to draw the board. Every function is verified against a mathematical
//! model of the game, [`GameView`].

pub mod player;
pub mod model;
pub mod state;
pub mod laws;
pub mod layout;
pub mod board;

pub use board::{CenterPiece, SquareData, StartPiece};
pub use layout::{ring_layout, SquarePosition};
pub use model::GameView;
pub use player::Player;
pub use state::{GameState, Pieces};
