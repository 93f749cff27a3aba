use vstd::prelude::*;

use crate::color::Color;
use crate::error::ChessError;

verus! {

/// The six piece kinds.
#[derive(Clone, Copy, Debug, PartialEq, Eq, PartialOrd, Ord, Hash, Structural)]
pub enum Piece {
    Pawn,
    Knight,
    Bishop,
    Rook,
    Queen,
    King,
}

/// The piece a letter denotes, upper or lower case, if any.
pub open spec fn spec_piece_of_char(c: char) -> Option<Piece> {
    match c {
        'p' | 'P' => Some(Piece::Pawn),
        'n' | 'N' => Some(Piece::Knight),
        'b' | 'B' => Some(Piece::Bishop),
        'r' | 'R' => Some(Piece::Rook),
        'q' | 'Q' => Some(Piece::Queen),
        'k' | 'K' => Some(Piece::King),
        _ => None,
    }
}

/// The piece's lower-case letter.
pub open spec fn spec_piece_char(p: Piece) -> char {
    match p {
        Piece::Pawn => 'p',
        Piece::Knight => 'n',
        Piece::Bishop => 'b',
        Piece::Rook => 'r',
        Piece::Queen => 'q',
        Piece::King => 'k',
    }
}

/// The piece's FEN letter: upper case for White, lower case for Black.
pub open spec fn spec_piece_fen_char(c: Color, p: Piece) -> char {
    match c {
        Color::White => match p {
            Piece::Pawn => 'P',
            Piece::Knight => 'N',
            Piece::Bishop => 'B',
            Piece::Rook => 'R',
            Piece::Queen => 'Q',
            Piece::King => 'K',
        },
        Color::Black => spec_piece_char(p),
    }
}

/// The colored piece a FEN placement letter denotes: upper case is White,
/// lower case is Black.
pub open spec fn spec_colored_piece_of_char(c: char) -> Option<(Color, Piece)> {
    match c {
        'P' => Some((Color::White, Piece::Pawn)),
        'N' => Some((Color::White, Piece::Knight)),
        'B' => Some((Color::White, Piece::Bishop)),
        'R' => Some((Color::White, Piece::Rook)),
        'Q' => Some((Color::White, Piece::Queen)),
        'K' => Some((Color::White, Piece::King)),
        'p' => Some((Color::Black, Piece::Pawn)),
        'n' => Some((Color::Black, Piece::Knight)),
        'b' => Some((Color::Black, Piece::Bishop)),
        'r' => Some((Color::Black, Piece::Rook)),
        'q' => Some((Color::Black, Piece::Queen)),
        'k' => Some((Color::Black, Piece::King)),
        _ => None,
    }
}

impl Piece {
    /// Parse a piece letter, either case, rejecting anything else with an
    /// error carrying the rejected character.
    pub fn try_from_char(c: char) -> (r: Result<Piece, ChessError>)
        ensures
            r is Ok <==> spec_piece_of_char(c) is Some,
            r matches Ok(p) ==> spec_piece_of_char(c) == Some(p),
            r matches Err(e) ==> (e matches ChessError::UnknownPiece(t) && t@ == seq![c]),
    {
        match c {
            'p' | 'P' => Ok(Piece::Pawn),
            'n' | 'N' => Ok(Piece::Knight),
            'b' | 'B' => Ok(Piece::Bishop),
            'r' | 'R' => Ok(Piece::Rook),
            'q' | 'Q' => Ok(Piece::Queen),
            'k' | 'K' => Ok(Piece::King),
            _ => Err(ChessError::UnknownPiece(crate::text::char_text(c))),
        }
    }

    /// The piece's lower-case letter as text.
    pub fn to_text(self) -> (r: String)
        ensures
            r@ =~= seq![spec_piece_char(self)],
    {
        String::from_str(piece_char_str(self))
    }
}

/// The piece's lower-case letter as one-character text.
pub(crate) fn piece_char_str(p: Piece) -> (r: &'static str)
    ensures
        r@ =~= seq![spec_piece_char(p)],
{
    proof {
        reveal_strlit("p");
        reveal_strlit("n");
        reveal_strlit("b");
        reveal_strlit("r");
        reveal_strlit("q");
        reveal_strlit("k");
    }
    match p {
        Piece::Pawn => "p",
        Piece::Knight => "n",
        Piece::Bishop => "b",
        Piece::Rook => "r",
        Piece::Queen => "q",
        Piece::King => "k",
    }
}

/// The FEN placement letter of a colored piece as one-character text.
pub(crate) fn piece_fen_char_str(c: Color, p: Piece) -> (r: &'static str)
    ensures
        r@ =~= seq![spec_piece_fen_char(c, p)],
{
    proof {
        reveal_strlit("P");
        reveal_strlit("N");
        reveal_strlit("B");
        reveal_strlit("R");
        reveal_strlit("Q");
        reveal_strlit("K");
    }
    match c {
        Color::White => match p {
            Piece::Pawn => "P",
            Piece::Knight => "N",
            Piece::Bishop => "B",
            Piece::Rook => "R",
            Piece::Queen => "Q",
            Piece::King => "K",
        },
        Color::Black => piece_char_str(p),
    }
}

/// The colored piece a FEN placement letter denotes.
pub(crate) fn colored_piece_of_char(c: char) -> (r: Option<(Color, Piece)>)
    ensures
        r == spec_colored_piece_of_char(c),
{
    match c {
        'P' => Some((Color::White, Piece::Pawn)),
        'N' => Some((Color::White, Piece::Knight)),
        'B' => Some((Color::White, Piece::Bishop)),
        'R' => Some((Color::White, Piece::Rook)),
        'Q' => Some((Color::White, Piece::Queen)),
        'K' => Some((Color::White, Piece::King)),
        'p' => Some((Color::Black, Piece::Pawn)),
        'n' => Some((Color::Black, Piece::Knight)),
        'b' => Some((Color::Black, Piece::Bishop)),
        'r' => Some((Color::Black, Piece::Rook)),
        'q' => Some((Color::Black, Piece::Queen)),
        'k' => Some((Color::Black, Piece::King)),
        _ => None,
    }
}

} // verus!
