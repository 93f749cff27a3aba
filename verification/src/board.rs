use vstd::prelude::*;

use crate::bitboard::Bitboard;
use crate::castling_rights::CastlingRights;
use crate::color::Color;
use crate::piece::Piece;
use crate::square::Square;

verus! {

broadcast use crate::bitboard::group_bitboard;

/// A full chess position: twelve per-color/per-piece bitboards, the side to
/// move, castling rights, the en-passant target, the halfmove clock and the
/// fullmove number.
#[derive(Clone, Copy, Debug, PartialEq, Eq)]
pub struct Board {
    pub white_pawns: Bitboard,
    pub white_knights: Bitboard,
    pub white_bishops: Bitboard,
    pub white_rooks: Bitboard,
    pub white_queens: Bitboard,
    pub white_kings: Bitboard,
    pub black_pawns: Bitboard,
    pub black_knights: Bitboard,
    pub black_bishops: Bitboard,
    pub black_rooks: Bitboard,
    pub black_queens: Bitboard,
    pub black_kings: Bitboard,
    pub side_to_move: Color,
    pub castling_rights: CastlingRights,
    pub en_passant: Option<Square>,
    pub halfmove_clock: u64,
    pub fullmove_number: u64,
}

impl Board {
    /// The bitboard of one colored piece kind.
    pub open spec fn spec_bb(self, c: Color, p: Piece) -> Bitboard {
        match c {
            Color::White => match p {
                Piece::Pawn => self.white_pawns,
                Piece::Knight => self.white_knights,
                Piece::Bishop => self.white_bishops,
                Piece::Rook => self.white_rooks,
                Piece::Queen => self.white_queens,
                Piece::King => self.white_kings,
            },
            Color::Black => match p {
                Piece::Pawn => self.black_pawns,
                Piece::Knight => self.black_knights,
                Piece::Bishop => self.black_bishops,
                Piece::Rook => self.black_rooks,
                Piece::Queen => self.black_queens,
                Piece::King => self.black_kings,
            },
        }
    }

    /// Square `sq` holds the given colored piece.
    pub open spec fn spec_has_piece(self, c: Color, p: Piece, sq: int) -> bool {
        self.spec_bb(c, p).spec_has(sq)
    }

    /// Square `sq` holds some piece of color `c`.
    pub open spec fn spec_occupied_by(self, c: Color, sq: int) -> bool {
        ||| self.spec_has_piece(c, Piece::Pawn, sq)
        ||| self.spec_has_piece(c, Piece::Knight, sq)
        ||| self.spec_has_piece(c, Piece::Bishop, sq)
        ||| self.spec_has_piece(c, Piece::Rook, sq)
        ||| self.spec_has_piece(c, Piece::Queen, sq)
        ||| self.spec_has_piece(c, Piece::King, sq)
    }

    /// Square `sq` holds some piece.
    pub open spec fn spec_occupied(self, sq: int) -> bool {
        self.spec_occupied_by(Color::White, sq) || self.spec_occupied_by(Color::Black, sq)
    }

    /// The occupant of square `sq`, scanning the twelve bitboards in a fixed
    /// order; under `wf` the order never matters.
    pub open spec fn spec_piece_at(self, sq: int) -> Option<(Color, Piece)> {
        if self.spec_has_piece(Color::White, Piece::Pawn, sq) { Some((Color::White, Piece::Pawn)) }
        else if self.spec_has_piece(Color::White, Piece::Knight, sq) { Some((Color::White, Piece::Knight)) }
        else if self.spec_has_piece(Color::White, Piece::Bishop, sq) { Some((Color::White, Piece::Bishop)) }
        else if self.spec_has_piece(Color::White, Piece::Rook, sq) { Some((Color::White, Piece::Rook)) }
        else if self.spec_has_piece(Color::White, Piece::Queen, sq) { Some((Color::White, Piece::Queen)) }
        else if self.spec_has_piece(Color::White, Piece::King, sq) { Some((Color::White, Piece::King)) }
        else if self.spec_has_piece(Color::Black, Piece::Pawn, sq) { Some((Color::Black, Piece::Pawn)) }
        else if self.spec_has_piece(Color::Black, Piece::Knight, sq) { Some((Color::Black, Piece::Knight)) }
        else if self.spec_has_piece(Color::Black, Piece::Bishop, sq) { Some((Color::Black, Piece::Bishop)) }
        else if self.spec_has_piece(Color::Black, Piece::Rook, sq) { Some((Color::Black, Piece::Rook)) }
        else if self.spec_has_piece(Color::Black, Piece::Queen, sq) { Some((Color::Black, Piece::Queen)) }
        else if self.spec_has_piece(Color::Black, Piece::King, sq) { Some((Color::Black, Piece::King)) }
        else { None }
    }

    /// The twelve bitboards are pairwise disjoint: whatever a square holds is
    /// what the scan finds there.
    pub open spec fn spec_disjoint(self) -> bool {
        forall|c: Color, p: Piece, sq: int|
            #[trigger] self.spec_has_piece(c, p, sq) ==> self.spec_piece_at(sq) == Some((c, p))
    }

    /// Color `c` has exactly one king bit.
    pub open spec fn spec_one_king(self, c: Color) -> bool {
        exists|k: int|
            0 <= k < 64 && #[trigger] self.spec_has_piece(c, Piece::King, k)
                && (forall|j: int|
                    #[trigger] self.spec_has_piece(c, Piece::King, j) ==> j == k)
    }

    /// Well-formedness: at most one piece per square, exactly one king of
    /// each color, and an en-passant target that addresses the board.
    /// Constructors establish it; move application preserves it.
    pub open spec fn wf(self) -> bool {
        &&& self.spec_disjoint()
        &&& self.spec_one_king(Color::White)
        &&& self.spec_one_king(Color::Black)
        &&& (self.en_passant matches Some(e) ==> e.wf())
    }

    /// The standard starting position.
    pub open spec fn spec_start() -> Board {
        Board {
            white_pawns: Bitboard(0x0000_0000_0000_ff00u64),
            white_knights: Bitboard(0x42u64),
            white_bishops: Bitboard(0x24u64),
            white_rooks: Bitboard(0x81u64),
            white_queens: Bitboard(0x08u64),
            white_kings: Bitboard(0x10u64),
            black_pawns: Bitboard(0x00ff_0000_0000_0000u64),
            black_knights: Bitboard(0x4200_0000_0000_0000u64),
            black_bishops: Bitboard(0x2400_0000_0000_0000u64),
            black_rooks: Bitboard(0x8100_0000_0000_0000u64),
            black_queens: Bitboard(0x0800_0000_0000_0000u64),
            black_kings: Bitboard(0x1000_0000_0000_0000u64),
            side_to_move: Color::White,
            castling_rights: CastlingRights::spec_all(),
            en_passant: None,
            halfmove_clock: 0u64,
            fullmove_number: 1u64,
        }
    }

    /// The bitboard of one colored piece kind.
    pub fn bb(&self, c: Color, p: Piece) -> (r: Bitboard)
        ensures
            r == self.spec_bb(c, p),
    {
        match c {
            Color::White => match p {
                Piece::Pawn => self.white_pawns,
                Piece::Knight => self.white_knights,
                Piece::Bishop => self.white_bishops,
                Piece::Rook => self.white_rooks,
                Piece::Queen => self.white_queens,
                Piece::King => self.white_kings,
            },
            Color::Black => match p {
                Piece::Pawn => self.black_pawns,
                Piece::Knight => self.black_knights,
                Piece::Bishop => self.black_bishops,
                Piece::Rook => self.black_rooks,
                Piece::Queen => self.black_queens,
                Piece::King => self.black_kings,
            },
        }
    }

    /// The occupant of a square.
    pub fn piece_at(&self, sq: u8) -> (r: Option<(Color, Piece)>)
        requires
            sq < 64,
        ensures
            r == self.spec_piece_at(sq as int),
    {
        if self.white_pawns.get(sq) { Some((Color::White, Piece::Pawn)) }
        else if self.white_knights.get(sq) { Some((Color::White, Piece::Knight)) }
        else if self.white_bishops.get(sq) { Some((Color::White, Piece::Bishop)) }
        else if self.white_rooks.get(sq) { Some((Color::White, Piece::Rook)) }
        else if self.white_queens.get(sq) { Some((Color::White, Piece::Queen)) }
        else if self.white_kings.get(sq) { Some((Color::White, Piece::King)) }
        else if self.black_pawns.get(sq) { Some((Color::Black, Piece::Pawn)) }
        else if self.black_knights.get(sq) { Some((Color::Black, Piece::Knight)) }
        else if self.black_bishops.get(sq) { Some((Color::Black, Piece::Bishop)) }
        else if self.black_rooks.get(sq) { Some((Color::Black, Piece::Rook)) }
        else if self.black_queens.get(sq) { Some((Color::Black, Piece::Queen)) }
        else if self.black_kings.get(sq) { Some((Color::Black, Piece::King)) }
        else { None }
    }

    /// Whether a square holds a piece of the given color.
    pub fn occupied_by(&self, c: Color, sq: u8) -> (r: bool)
        requires
            sq < 64,
        ensures
            r == self.spec_occupied_by(c, sq as int),
    {
        self.bb(c, Piece::Pawn).get(sq) || self.bb(c, Piece::Knight).get(sq) || self.bb(
            c,
            Piece::Bishop,
        ).get(sq) || self.bb(c, Piece::Rook).get(sq) || self.bb(c, Piece::Queen).get(sq) || self.bb(
            c,
            Piece::King,
        ).get(sq)
    }

    /// Whether a square holds any piece.
    pub fn occupied(&self, sq: u8) -> (r: bool)
        requires
            sq < 64,
        ensures
            r == self.spec_occupied(sq as int),
    {
        self.occupied_by(Color::White, sq) || self.occupied_by(Color::Black, sq)
    }
}

impl Default for Board {
    /// The standard starting position: full piece set on the home ranks, full
    /// castling rights, White to move, no en-passant target, clocks 0 and 1.
    fn default() -> (r: Board)
        ensures
            r == Board::spec_start(),
            r.wf(),
    {
        proof {
            lemma_start_wf();
        }
        Board {
            white_pawns: Bitboard(0x0000_0000_0000_ff00u64),
            white_knights: Bitboard(0x42u64),
            white_bishops: Bitboard(0x24u64),
            white_rooks: Bitboard(0x81u64),
            white_queens: Bitboard(0x08u64),
            white_kings: Bitboard(0x10u64),
            black_pawns: Bitboard(0x00ff_0000_0000_0000u64),
            black_knights: Bitboard(0x4200_0000_0000_0000u64),
            black_bishops: Bitboard(0x2400_0000_0000_0000u64),
            black_rooks: Bitboard(0x8100_0000_0000_0000u64),
            black_queens: Bitboard(0x0800_0000_0000_0000u64),
            black_kings: Bitboard(0x1000_0000_0000_0000u64),
            side_to_move: Color::White,
            castling_rights: CastlingRights::all(),
            en_passant: None,
            halfmove_clock: 0,
            fullmove_number: 1,
        }
    }
}

/// The standard starting position is well formed.
pub proof fn lemma_start_wf()
    ensures
        Board::spec_start().wf(),
{
    let b = Board::spec_start();
    assert(forall|j: u64| j < 64 ==> ((0x0000_0000_0000_ff00u64 >> j) & 1u64 == 1u64 <==> 8 <= j
        < 16)) by (bit_vector);
    assert(forall|j: u64| j < 64 ==> ((0x42u64 >> j) & 1u64 == 1u64 <==> (j == 1 || j == 6)))
        by (bit_vector);
    assert(forall|j: u64| j < 64 ==> ((0x24u64 >> j) & 1u64 == 1u64 <==> (j == 2 || j == 5)))
        by (bit_vector);
    assert(forall|j: u64| j < 64 ==> ((0x81u64 >> j) & 1u64 == 1u64 <==> (j == 0 || j == 7)))
        by (bit_vector);
    assert(forall|j: u64| j < 64 ==> ((0x08u64 >> j) & 1u64 == 1u64 <==> j == 3)) by (bit_vector);
    assert(forall|j: u64| j < 64 ==> ((0x10u64 >> j) & 1u64 == 1u64 <==> j == 4)) by (bit_vector);
    assert(forall|j: u64| j < 64 ==> ((0x00ff_0000_0000_0000u64 >> j) & 1u64 == 1u64 <==> 48 <= j
        < 56)) by (bit_vector);
    assert(forall|j: u64| j < 64 ==> ((0x4200_0000_0000_0000u64 >> j) & 1u64 == 1u64 <==> (j == 57
        || j == 62))) by (bit_vector);
    assert(forall|j: u64| j < 64 ==> ((0x2400_0000_0000_0000u64 >> j) & 1u64 == 1u64 <==> (j == 58
        || j == 61))) by (bit_vector);
    assert(forall|j: u64| j < 64 ==> ((0x8100_0000_0000_0000u64 >> j) & 1u64 == 1u64 <==> (j == 56
        || j == 63))) by (bit_vector);
    assert(forall|j: u64| j < 64 ==> ((0x0800_0000_0000_0000u64 >> j) & 1u64 == 1u64 <==> j == 59))
        by (bit_vector);
    assert(forall|j: u64| j < 64 ==> ((0x1000_0000_0000_0000u64 >> j) & 1u64 == 1u64 <==> j == 60))
        by (bit_vector);
    assert forall|c: Color, p: Piece, sq: int| #[trigger] b.spec_has_piece(c, p, sq)
        implies b.spec_piece_at(sq) == Some((c, p)) by {
        assert(0 <= sq < 64);
        let jj = sq as u64;
        assert(jj < 64);
    }
    assert(b.spec_has_piece(Color::White, Piece::King, 4));
    assert(forall|j: int| #[trigger] b.spec_has_piece(Color::White, Piece::King, j) ==> j == 4);
    assert(b.spec_has_piece(Color::Black, Piece::King, 60));
    assert(forall|j: int| #[trigger] b.spec_has_piece(Color::Black, Piece::King, j) ==> j == 60);
}

} // verus!
