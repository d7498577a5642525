//! Rules engine of a falling-block puzzle game on a board of ten columns and
//! twenty rows.
//!
//! The engine knows nothing of windows, keys or colours. A driver hands it
//! intents and elapsed time and reads back what to show:
//!
//! * [`catalog`] holds the seven piece kinds and their rotation states.
//! * [`board`] holds the grid of landed blocks, the collision test, the
//!   placement of a piece and the clearing of complete rows.
//! * [`piece`] holds the falling piece and its moves.
//! * [`rules`] holds scoring, level progression and the speed curve.
//! * [`session`] holds the game session, advanced by intents and by ticks.
//! * [`invariants`] states what holds of every session.
//! * [`input`] turns the state of the keys in a frame into intents.
//! * [`random`] draws the kind of a new piece.
//!
//! Every type has a mathematical model, reached with `@`, and every
//! executable function has a contract over these models that is proved. No
//! function fails: a move that is not legal leaves the state as it was.
//!
//! Time is counted in whole microseconds. Chance enters only where a piece
//! kind is drawn; every function that draws has a twin that takes the drawn
//! kind as an argument and is fully determined.

pub mod board;
pub mod catalog;
pub mod input;
pub mod invariants;
pub mod piece;
pub mod random;
pub mod rules;
pub mod session;

pub use crate::board::Board;
pub use crate::catalog::PieceKind;
pub use crate::piece::Piece;
pub use crate::session::{new_session, GameSession, Intent, Phase};
