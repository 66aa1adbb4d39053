//! A turn-based chess rules engine.
//!
//! The library determines which moves a piece may make from a square,
//! detects whether a king is under attack, applies validated moves to the
//! game state, and reports terminal states (win by king capture, checkmate,
//! stalemate). Reading input and rendering the board are left to the caller.

pub mod board;
pub mod check;
pub mod game;
pub mod laws;
pub mod moves;
pub mod notation;
pub mod rules;

pub use board::Board;
pub use board::Color;
pub use board::Location;
pub use board::Piece;
pub use board::PieceKind;
pub use game::apply_move;
pub use game::Game;
pub use game::MoveError;
pub use game::Status;
pub use rules::get_moves;
pub use rules::legal_moves;
