use vstd::prelude::*;

verus! {

/// Every failure the library reports: parsing failures carry the offending
/// input text, semantic failures carry the rejected move or setup text.
#[derive(Clone, Debug, PartialEq, Eq)]
pub enum ChessError {
    /// A FEN was structurally valid but described an inconsistent position.
    BoardSetup(String),
    /// The text is not a structurally valid FEN record.
    InvalidFen(String),
    /// The move is not legal in the current position.
    InvalidMove(String),
    /// Generic text-to-type conversion failure: offending text, target type.
    ParsingError(String, String),
    /// The text is not a castling-availability field.
    UnknownCastlingRights(String),
    /// The text is not a color letter.
    UnknownColor(String),
    /// The text is not a recognizable piece letter.
    UnknownPiece(String),
    /// The text is not an algebraic square name.
    UnknownSquare(String),
    /// The text is not a UCI move.
    UnknownUciMove(String),
    /// An unclassified failure.
    Unknown,
}

} // verus!
