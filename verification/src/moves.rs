use vstd::prelude::*;

use crate::error::ChessError;
use crate::piece::{spec_piece_char, spec_piece_of_char, piece_char_str, Piece};
use crate::square::{spec_square_name, spec_square_of_text, Square};

verus! {

/// An inert move value: source square, destination square, and the piece a
/// pawn promotes to, if any. Legality is the board's responsibility, never
/// this type's.
#[derive(Clone, Copy, Debug, Eq, Hash, PartialEq, PartialOrd)]
pub struct Move {
    pub source: Square,
    pub destination: Square,
    pub promotion: Option<Piece>,
}

/// The UCI text of a move: source name, destination name, and the lower-case
/// promotion letter when the move promotes.
pub open spec fn spec_uci_chars(m: Move) -> Seq<char> {
    spec_square_name(m.source@) + spec_square_name(m.destination@) + (match m.promotion {
        Some(p) => seq![spec_piece_char(p)],
        None => Seq::<char>::empty(),
    })
}

/// The move 4- or 5-character UCI text denotes: two square names and an
/// optional promotion letter.
pub open spec fn spec_parse_uci(s: Seq<char>) -> Option<Move> {
    if s.len() != 4 && s.len() != 5 {
        None
    } else {
        match (spec_square_of_text(s.subrange(0, 2)), spec_square_of_text(s.subrange(2, 4))) {
            (Some(src), Some(dst)) => if s.len() == 4 {
                Some(Move {
                    source: Square { idx: src },
                    destination: Square { idx: dst },
                    promotion: None,
                })
            } else {
                match spec_piece_of_char(s[4]) {
                    Some(p) => Some(Move {
                        source: Square { idx: src },
                        destination: Square { idx: dst },
                        promotion: Some(p),
                    }),
                    None => None,
                }
            },
            _ => None,
        }
    }
}

impl Move {
    /// The move's source square.
    pub open spec fn spec_source(self) -> Square {
        self.source
    }

    /// The move's destination square.
    pub open spec fn spec_destination(self) -> Square {
        self.destination
    }

    /// The move's promotion piece, if any.
    pub open spec fn spec_promotion(self) -> Option<Piece> {
        self.promotion
    }

    /// Both of the move's squares address the board.
    pub open spec fn wf(self) -> bool {
        self.source.wf() && self.destination.wf()
    }

    /// Create a new [`Move`] given a source square, destination square, and
    /// optional piece to promote to. Deliberately unconstrained: any two
    /// squares and any promotion are accepted.
    pub fn new(source: Square, destination: Square, promotion: Option<Piece>) -> (r: Self)
        ensures
            r == (Move { source, destination, promotion }),
    {
        Move { source, destination, promotion }
    }

    /// Get the source square for the move.
    pub fn source(&self) -> (r: Square)
        ensures
            r == self.source,
    {
        self.source
    }

    /// Get the target square for the move.
    pub fn destination(&self) -> (r: Square)
        ensures
            r == self.destination,
    {
        self.destination
    }

    /// Get the piece the move promoted to if it was a promotion.
    pub fn promotion(&self) -> (r: Option<Piece>)
        ensures
            r == self.promotion,
    {
        self.promotion
    }

    /// Get whether or not the move is a promotion.
    pub fn is_promotion(&self) -> (r: bool)
        ensures
            r == (self.promotion is Some),
    {
        self.promotion.is_some()
    }

    /// Create a new move from a UCI string known to be valid.
    pub fn from_uci(uci: &str) -> (r: Self)
        requires
            spec_parse_uci(uci@) is Some,
        ensures
            Some(r) == spec_parse_uci(uci@),
    {
        match Move::try_from_uci(uci) {
            Ok(m) => m,
            // Unreachable: the precondition says the text parses.
            Err(_) => Move {
                source: Square { idx: 0 },
                destination: Square { idx: 0 },
                promotion: None,
            },
        }
    }

    /// Try and create a new move from a UCI string: two square names and an
    /// optional promotion letter. Anything else is rejected with the error
    /// naming the offending text: the whole string for a wrong length, the
    /// failing square name, or the unrecognized promotion letter.
    pub fn try_from_uci(uci: &str) -> (r: Result<Self, ChessError>)
        ensures
            r is Ok <==> spec_parse_uci(uci@) is Some,
            r matches Ok(m) ==> spec_parse_uci(uci@) == Some(m),
            uci@.len() != 4 && uci@.len() != 5 ==> (r matches Err(e)
                && e matches ChessError::UnknownUciMove(t) && t@ == uci@),
            (uci@.len() == 4 || uci@.len() == 5) && spec_square_of_text(uci@.subrange(0, 2))
                is None ==> (r matches Err(e) && e matches ChessError::UnknownSquare(t) && t@
                == uci@.subrange(0, 2)),
            (uci@.len() == 4 || uci@.len() == 5) && spec_square_of_text(uci@.subrange(0, 2))
                is Some && spec_square_of_text(uci@.subrange(2, 4)) is None ==> (r matches Err(e)
                && e matches ChessError::UnknownSquare(t) && t@ == uci@.subrange(2, 4)),
            uci@.len() == 5 && spec_square_of_text(uci@.subrange(0, 2)) is Some
                && spec_square_of_text(uci@.subrange(2, 4)) is Some && spec_piece_of_char(uci@[4])
                is None ==> (r matches Err(e) && e matches ChessError::UnknownPiece(t) && t@
                == uci@.subrange(4, 5)),
    {
        let len = uci.unicode_len();
        if len != 4 && len != 5 {
            return Err(ChessError::UnknownUciMove(uci.to_owned()));
        }
        let source = match Square::try_from_str(uci.substring_char(0, 2)) {
            Ok(sq) => sq,
            Err(e) => { return Err(e); },
        };
        let destination = match Square::try_from_str(uci.substring_char(2, 4)) {
            Ok(sq) => sq,
            Err(e) => { return Err(e); },
        };
        let promotion: Option<Piece> = if len == 5 {
            match Piece::try_from_char(uci.get_char(4)) {
                Ok(p) => Some(p),
                Err(_) => {
                    return Err(ChessError::UnknownPiece(uci.substring_char(4, 5).to_owned()));
                },
            }
        } else {
            None
        };
        Ok(Move { source, destination, promotion })
    }

    /// The move's UCI text.
    pub fn to_uci(&self) -> (r: String)
        requires
            self.wf(),
        ensures
            r@ == spec_uci_chars(*self),
    {
        let mut out = self.source.to_text();
        out.append(self.destination.to_text().as_str());
        match self.promotion {
            Some(p) => {
                out.append(piece_char_str(p));
            },
            None => {},
        }
        assert(out@ =~= spec_uci_chars(*self));
        out
    }
}

/// Round trip of UCI text: a move built from valid squares, promoting only
/// onto the back rank, re-parses from its own rendered text unchanged.
pub proof fn lemma_uci_round_trip(m: Move)
    requires
        m.wf(),
        m.spec_promotion() is Some ==> (m.spec_destination()@ / 8 == 0
            || m.spec_destination()@ / 8 == 7),
    ensures
        spec_parse_uci(spec_uci_chars(m)) == Some(m),
{
    let s = spec_uci_chars(m);
    crate::square::lemma_square_name_round_trip(m.source@);
    crate::square::lemma_square_name_round_trip(m.destination@);
    assert(s.subrange(0, 2) =~= spec_square_name(m.source@));
    assert(s.subrange(2, 4) =~= spec_square_name(m.destination@));
    match m.promotion {
        Some(p) => {
            assert(s[4] == spec_piece_char(p));
            assert(spec_piece_of_char(spec_piece_char(p)) == Some(p));
        },
        None => {},
    }
}

} // verus!
