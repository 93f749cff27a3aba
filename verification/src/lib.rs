//! A chess position library: bitboard-based board state, FEN
//! parsing/serialization, move generation and legality checking.

pub mod bitboard;
pub mod board;
pub mod castling_rights;
pub mod color;
pub mod error;
pub mod fen;
pub mod movegen;
pub mod moves;
pub mod piece;
pub mod square;
pub mod text;

pub use bitboard::Bitboard;
pub use board::Board;
pub use castling_rights::CastlingRights;
pub use color::Color;
pub use error::ChessError;
pub use moves::Move;
pub use piece::Piece;
pub use square::Square;
