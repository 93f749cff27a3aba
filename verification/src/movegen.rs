use vstd::prelude::*;

use crate::bitboard::Bitboard;
use crate::board::Board;
use crate::castling_rights::CastlingRights;
use crate::color::Color;
use crate::error::ChessError;
use crate::moves::{spec_uci_chars, Move};
use crate::piece::Piece;
use crate::square::Square;

verus! {

broadcast use crate::bitboard::group_bitboard;

/// The sign of an integer: -1, 0 or 1.
pub open spec fn sgn(a: int) -> int {
    if a > 0 { 1 } else if a < 0 { -1 } else { 0 }
}

/// The distance between two integers.
pub open spec fn dist(a: int, b: int) -> int {
    if a >= b { a - b } else { b - a }
}

/// Chebyshev distance between two rank/file coordinates.
pub open spec fn cheb(r: int, f: int, tr: int, tf: int) -> int {
    if dist(r, tr) >= dist(f, tf) { dist(r, tr) } else { dist(f, tf) }
}

/// Walking from (r, f) one king-step at a time toward (tr, tf), every square
/// strictly between start and target is empty. On a shared rank, file or
/// diagonal this is exactly "the path is unobstructed".
pub open spec fn spec_walk_clear(b: Board, r: int, f: int, tr: int, tf: int) -> bool
    decreases cheb(r, f, tr, tf),
{
    if cheb(r, f, tr, tf) <= 1 {
        true
    } else {
        let nr = r + sgn(tr - r);
        let nf = f + sgn(tf - f);
        &&& !b.spec_occupied(nr * 8 + nf)
        &&& spec_walk_clear(b, nr, nf, tr, tf)
    }
}

/// The squares strictly between source and target are empty.
pub open spec fn spec_path_clear(b: Board, s: int, t: int) -> bool {
    spec_walk_clear(b, s / 8, s % 8, t / 8, t % 8)
}

/// A pawn of color `c` on `s` attacks `t`: one rank forward, one file aside.
pub open spec fn spec_pawn_attack(c: Color, s: int, t: int) -> bool {
    let dir: int = if c == Color::White { 1 } else { -1 };
    t / 8 == s / 8 + dir && dist(s % 8, t % 8) == 1
}

/// A knight jump: (1, 2) or (2, 1) rank/file distances.
pub open spec fn spec_knight_jump(s: int, t: int) -> bool {
    ||| (dist(s / 8, t / 8) == 1 && dist(s % 8, t % 8) == 2)
    ||| (dist(s / 8, t / 8) == 2 && dist(s % 8, t % 8) == 1)
}

/// A king single step: Chebyshev distance one.
pub open spec fn spec_king_step(s: int, t: int) -> bool {
    cheb(s / 8, s % 8, t / 8, t % 8) == 1
}

/// Same rank or same file, distinct squares.
pub open spec fn spec_ortho(s: int, t: int) -> bool {
    s != t && (s / 8 == t / 8 || s % 8 == t % 8)
}

/// Same diagonal, distinct squares.
pub open spec fn spec_diag(s: int, t: int) -> bool {
    s != t && dist(s / 8, t / 8) == dist(s % 8, t % 8)
}

/// The piece of color `c` standing on `s` attacks square `t` under the
/// board's occupancy (sliders need a clear path; pawns attack diagonally).
pub open spec fn spec_attacks(b: Board, c: Color, s: int, t: int) -> bool {
    &&& 0 <= s < 64
    &&& 0 <= t < 64
    &&& match b.spec_piece_at(s) {
        Some((pc, p)) => pc == c && match p {
            Piece::Pawn => spec_pawn_attack(c, s, t),
            Piece::Knight => spec_knight_jump(s, t),
            Piece::Bishop => spec_diag(s, t) && spec_path_clear(b, s, t),
            Piece::Rook => spec_ortho(s, t) && spec_path_clear(b, s, t),
            Piece::Queen => (spec_diag(s, t) || spec_ortho(s, t)) && spec_path_clear(b, s, t),
            Piece::King => spec_king_step(s, t),
        },
        None => false,
    }
}

/// Some piece of color `by` attacks square `t`.
pub open spec fn spec_attacked(b: Board, t: int, by: Color) -> bool {
    exists|s: int| spec_attacks(b, by, s, t)
}

/// The king of color `c` stands on an attacked square.
pub open spec fn spec_in_check(b: Board, c: Color) -> bool {
    exists|k: int|
        0 <= k < 64 && #[trigger] b.spec_has_piece(c, Piece::King, k) && spec_attacked(
            b,
            k,
            c.spec_opposite(),
        )
}

impl Board {
    /// Walk one king-step at a time toward the target, testing emptiness of
    /// every square strictly between.
    fn walk_clear(&self, r: u8, f: u8, tr: u8, tf: u8) -> (res: bool)
        requires
            r < 8,
            f < 8,
            tr < 8,
            tf < 8,
        ensures
            res == spec_walk_clear(*self, r as int, f as int, tr as int, tf as int),
        decreases cheb(r as int, f as int, tr as int, tf as int),
    {
        let dr = if r >= tr { r - tr } else { tr - r };
        let df = if f >= tf { f - tf } else { tf - f };
        let d = if dr >= df { dr } else { df };
        if d <= 1 {
            true
        } else {
            let nr = if tr > r { r + 1 } else if tr < r { r - 1 } else { r };
            let nf = if tf > f { f + 1 } else if tf < f { f - 1 } else { f };
            if self.occupied(nr * 8 + nf) {
                false
            } else {
                self.walk_clear(nr, nf, tr, tf)
            }
        }
    }

    /// The squares strictly between `s` and `t` are empty.
    pub fn path_clear(&self, s: u8, t: u8) -> (res: bool)
        requires
            s < 64,
            t < 64,
        ensures
            res == spec_path_clear(*self, s as int, t as int),
    {
        self.walk_clear(s / 8, s % 8, t / 8, t % 8)
    }

    /// The piece of color `c` on square `s` attacks square `t`.
    pub fn attacks(&self, c: Color, s: u8, t: u8) -> (res: bool)
        requires
            s < 64,
            t < 64,
        ensures
            res == spec_attacks(*self, c, s as int, t as int),
    {
        let (pc, p) = match self.piece_at(s) {
            Some(cp) => cp,
            None => { return false; },
        };
        if pc != c {
            return false;
        }
        match p {
            Piece::Pawn => {
                let sr = s / 8;
                let tr = t / 8;
                let okr = match c {
                    Color::White => tr == sr + 1,
                    Color::Black => sr == tr + 1,
                };
                let sf = s % 8;
                let tf = t % 8;
                let dfile = if sf >= tf { sf - tf } else { tf - sf };
                okr && dfile == 1
            },
            Piece::Knight => self.knight_jump(s, t),
            Piece::Bishop => self.diag(s, t) && self.path_clear(s, t),
            Piece::Rook => self.ortho(s, t) && self.path_clear(s, t),
            Piece::Queen => (self.diag(s, t) || self.ortho(s, t)) && self.path_clear(s, t),
            Piece::King => self.king_step(s, t),
        }
    }

    /// Knight-jump geometry between two squares.
    fn knight_jump(&self, s: u8, t: u8) -> (res: bool)
        requires
            s < 64,
            t < 64,
        ensures
            res == spec_knight_jump(s as int, t as int),
    {
        let dr = diff(s / 8, t / 8);
        let df = diff(s % 8, t % 8);
        (dr == 1 && df == 2) || (dr == 2 && df == 1)
    }

    /// King single-step geometry between two squares.
    fn king_step(&self, s: u8, t: u8) -> (res: bool)
        requires
            s < 64,
            t < 64,
        ensures
            res == spec_king_step(s as int, t as int),
    {
        let dr = diff(s / 8, t / 8);
        let df = diff(s % 8, t % 8);
        let d = if dr >= df { dr } else { df };
        d == 1
    }

    /// Same-rank-or-file geometry between two squares.
    fn ortho(&self, s: u8, t: u8) -> (res: bool)
        requires
            s < 64,
            t < 64,
        ensures
            res == spec_ortho(s as int, t as int),
    {
        s != t && (s / 8 == t / 8 || s % 8 == t % 8)
    }

    /// Same-diagonal geometry between two squares.
    fn diag(&self, s: u8, t: u8) -> (res: bool)
        requires
            s < 64,
            t < 64,
        ensures
            res == spec_diag(s as int, t as int),
    {
        s != t && diff(s / 8, t / 8) == diff(s % 8, t % 8)
    }

    /// Some piece of color `by` attacks square `t`.
    pub fn attacked(&self, t: u8, by: Color) -> (res: bool)
        requires
            t < 64,
        ensures
            res == spec_attacked(*self, t as int, by),
    {
        let mut s: u8 = 0;
        while s < 64
            invariant
                s <= 64,
                t < 64,
                forall|j: int| 0 <= j < s ==> !spec_attacks(*self, by, j, t as int),
            decreases 64 - s,
        {
            if self.attacks(by, s, t) {
                return true;
            }
            s = s + 1;
        }
        false
    }

    /// The side `c`'s king stands attacked.
    pub fn in_check(&self, c: Color) -> (res: bool)
        requires
            self.spec_one_king(c),
        ensures
            res == spec_in_check(*self, c),
    {
        let ghost k0 = choose|k0: int|
            0 <= k0 < 64 && #[trigger] self.spec_has_piece(c, Piece::King, k0) && (forall|j: int|
                #[trigger] self.spec_has_piece(c, Piece::King, j) ==> j == k0);
        proof {
            assert(self.spec_has_piece(c, Piece::King, k0));
        }
        let kbb = self.bb(c, Piece::King);
        match kbb.lowest() {
            Some(k) => {
                proof {
                    assert(self.spec_has_piece(c, Piece::King, k as int));
                    assert(k as int == k0);
                }
                let att = self.attacked(k, c.opposite());
                proof {
                    if att {
                        assert(0 <= (k as int) && (k as int) < 64 && self.spec_has_piece(
                            c,
                            Piece::King,
                            k as int,
                        ) && spec_attacked(*self, k as int, c.spec_opposite()));
                        assert(spec_in_check(*self, c));
                    } else {
                        assert forall|j: int|
                            !(0 <= j < 64 && #[trigger] self.spec_has_piece(c, Piece::King, j)
                                && spec_attacked(*self, j, c.spec_opposite())) by {
                            if 0 <= j < 64 && self.spec_has_piece(c, Piece::King, j) {
                                assert(j == k0);
                            }
                        }
                        assert(!spec_in_check(*self, c));
                    }
                }
                att
            },
            None => {
                proof {
                    assert(self.spec_bb(c, Piece::King).spec_has(k0));
                    assert(false);
                }
                false
            },
        }
    }
}

/// Absolute difference of two square coordinates.
fn diff(a: u8, b: u8) -> (r: u8)
    ensures
        r as int == dist(a as int, b as int),
{
    if a >= b { a - b } else { b - a }
}

/// The promotion field fits the move: a pawn reaching the last rank carries
/// exactly one of knight, bishop, rook or queen; any other move carries none.
pub open spec fn spec_promotion_ok(c: Color, p: Piece, t: int, promo: Option<Piece>) -> bool {
    if p == Piece::Pawn && t / 8 == (if c == Color::White { 7int } else { 0int }) {
        ||| promo == Some(Piece::Knight)
        ||| promo == Some(Piece::Bishop)
        ||| promo == Some(Piece::Rook)
        ||| promo == Some(Piece::Queen)
    } else {
        promo is None
    }
}

/// Pawn movement: single push to an empty square, double push from the start
/// rank over an empty square, or a diagonal capture onto an enemy piece or
/// the en-passant target.
pub open spec fn spec_pawn_move(b: Board, c: Color, m: Move) -> bool {
    let s = m.source@;
    let t = m.destination@;
    let rs = s / 8;
    let fs = s % 8;
    let rt = t / 8;
    let ft = t % 8;
    match c {
        Color::White => {
            ||| (rt == rs + 1 && ft == fs && !b.spec_occupied(t))
            ||| (rs == 1 && rt == 3 && ft == fs && !b.spec_occupied(s + 8) && !b.spec_occupied(t))
            ||| (rt == rs + 1 && dist(fs, ft) == 1 && (b.spec_occupied_by(Color::Black, t)
                || b.en_passant == Some(m.destination)))
        },
        Color::Black => {
            ||| (rt + 1 == rs && ft == fs && !b.spec_occupied(t))
            ||| (rs == 6 && rt == 4 && ft == fs && !b.spec_occupied(s - 8) && !b.spec_occupied(t))
            ||| (rt + 1 == rs && dist(fs, ft) == 1 && (b.spec_occupied_by(Color::White, t)
                || b.en_passant == Some(m.destination)))
        },
    }
}

/// Castling is available: the king stands home, the matching right is held,
/// the paired rook stands home, the squares between them are empty, and the
/// king's start and transit and landing squares are unattacked.
pub open spec fn spec_castle_ok(b: Board, c: Color, s: int, t: int) -> bool {
    let opp = c.spec_opposite();
    if c == Color::White && s == 4 && t == 6 {
        &&& b.castling_rights.white_kingside
        &&& b.spec_has_piece(Color::White, Piece::Rook, 7)
        &&& !b.spec_occupied(5)
        &&& !b.spec_occupied(6)
        &&& !spec_attacked(b, 4, opp)
        &&& !spec_attacked(b, 5, opp)
        &&& !spec_attacked(b, 6, opp)
    } else if c == Color::White && s == 4 && t == 2 {
        &&& b.castling_rights.white_queenside
        &&& b.spec_has_piece(Color::White, Piece::Rook, 0)
        &&& !b.spec_occupied(1)
        &&& !b.spec_occupied(2)
        &&& !b.spec_occupied(3)
        &&& !spec_attacked(b, 4, opp)
        &&& !spec_attacked(b, 3, opp)
        &&& !spec_attacked(b, 2, opp)
    } else if c == Color::Black && s == 60 && t == 62 {
        &&& b.castling_rights.black_kingside
        &&& b.spec_has_piece(Color::Black, Piece::Rook, 63)
        &&& !b.spec_occupied(61)
        &&& !b.spec_occupied(62)
        &&& !spec_attacked(b, 60, opp)
        &&& !spec_attacked(b, 61, opp)
        &&& !spec_attacked(b, 62, opp)
    } else if c == Color::Black && s == 60 && t == 58 {
        &&& b.castling_rights.black_queenside
        &&& b.spec_has_piece(Color::Black, Piece::Rook, 56)
        &&& !b.spec_occupied(57)
        &&& !b.spec_occupied(58)
        &&& !b.spec_occupied(59)
        &&& !spec_attacked(b, 60, opp)
        &&& !spec_attacked(b, 59, opp)
        &&& !spec_attacked(b, 58, opp)
    } else {
        false
    }
}

/// The move obeys piece movement and occupancy rules in the current
/// position, king safety aside: the moved piece belongs to the side to move,
/// the destination holds no own piece and never the enemy king, the
/// promotion field fits, and the piece's movement rule accepts the squares.
pub open spec fn spec_pseudo_legal(b: Board, m: Move) -> bool {
    let s = m.source@;
    let t = m.destination@;
    let c = b.side_to_move;
    &&& 0 <= s < 64
    &&& 0 <= t < 64
    &&& s != t
    &&& match b.spec_piece_at(s) {
        Some((pc, p)) => {
            &&& pc == c
            &&& !b.spec_occupied_by(c, t)
            &&& !b.spec_has_piece(c.spec_opposite(), Piece::King, t)
            &&& spec_promotion_ok(c, p, t, m.promotion)
            &&& match p {
                Piece::Pawn => spec_pawn_move(b, c, m),
                Piece::Knight => spec_knight_jump(s, t),
                Piece::Bishop => spec_diag(s, t) && spec_path_clear(b, s, t),
                Piece::Rook => spec_ortho(s, t) && spec_path_clear(b, s, t),
                Piece::Queen => (spec_diag(s, t) || spec_ortho(s, t)) && spec_path_clear(b, s, t),
                Piece::King => spec_king_step(s, t) || spec_castle_ok(b, c, s, t),
            }
        },
        None => false,
    }
}

/// The piece standing on `s`, pawn when the square is empty.
pub open spec fn spec_mover(b: Board, s: int) -> Piece {
    match b.spec_piece_at(s) {
        Some((c, p)) => p,
        None => Piece::Pawn,
    }
}

/// The move is an en-passant capture: a pawn moving diagonally onto the
/// en-passant target square.
pub open spec fn spec_is_ep_capture(b: Board, m: Move) -> bool {
    &&& spec_mover(b, m.source@) == Piece::Pawn
    &&& b.en_passant == Some(m.destination)
    &&& m.source@ % 8 != m.destination@ % 8
}

/// The move captures: the destination holds an enemy piece, or the capture
/// is en passant.
pub open spec fn spec_is_capture(b: Board, m: Move) -> bool {
    b.spec_occupied_by(b.side_to_move.spec_opposite(), m.destination@) || spec_is_ep_capture(b, m)
}

/// The rights left after the move: a right disappears when its king moves,
/// when its rook moves from its home square, or when its rook is captured on
/// its home square.
pub open spec fn spec_rights_after(b: Board, c: Color, p: Piece, s: int, t: int) -> CastlingRights {
    CastlingRights {
        white_kingside: b.castling_rights.white_kingside && !(c == Color::White && p == Piece::King)
            && !(c == Color::White && p == Piece::Rook && s == 7) && !(c == Color::Black && t == 7
            && b.spec_has_piece(Color::White, Piece::Rook, 7)),
        white_queenside: b.castling_rights.white_queenside && !(c == Color::White && p
            == Piece::King) && !(c == Color::White && p == Piece::Rook && s == 0) && !(c
            == Color::Black && t == 0 && b.spec_has_piece(Color::White, Piece::Rook, 0)),
        black_kingside: b.castling_rights.black_kingside && !(c == Color::Black && p == Piece::King)
            && !(c == Color::Black && p == Piece::Rook && s == 63) && !(c == Color::White && t == 63
            && b.spec_has_piece(Color::Black, Piece::Rook, 63)),
        black_queenside: b.castling_rights.black_queenside && !(c == Color::Black && p
            == Piece::King) && !(c == Color::Black && p == Piece::Rook && s == 56) && !(c
            == Color::White && t == 56 && b.spec_has_piece(Color::Black, Piece::Rook, 56)),
    }
}

/// The position after the move, as one atomic update: captured bit cleared
/// (the passed pawn for en passant), the mover's bit moved or replaced by the
/// promotion piece, the castling rook relocated, rights revoked, the
/// en-passant target set after a double push and cleared otherwise, the
/// halfmove clock reset on pawn moves and captures (else incremented,
/// saturating at the type's maximum), the fullmove number incremented after
/// Black's move, and the side to move flipped.
pub open spec fn spec_apply(b: Board, m: Move) -> Board {
    let c = b.side_to_move;
    let s = m.source@;
    let t = m.destination@;
    let p = spec_mover(b, s);
    let b1 = b.spec_clear_square(t);
    let b2 = if spec_is_ep_capture(b, m) {
        let victim = if c == Color::White { t - 8 } else { t + 8 };
        b1.spec_with_bb(
            c.spec_opposite(),
            Piece::Pawn,
            b1.spec_bb(c.spec_opposite(), Piece::Pawn).spec_remove(victim),
        )
    } else {
        b1
    };
    let b3 = b2.spec_with_bb(c, p, b2.spec_bb(c, p).spec_remove(s));
    let placed = match m.promotion {
        Some(q) => q,
        None => p,
    };
    let b4 = b3.spec_with_bb(c, placed, b3.spec_bb(c, placed).spec_insert(t));
    let b5 = if p == Piece::King && t == s + 2 {
        let b4a = b4.spec_with_bb(c, Piece::Rook, b4.spec_bb(c, Piece::Rook).spec_remove(s + 3));
        b4a.spec_with_bb(c, Piece::Rook, b4a.spec_bb(c, Piece::Rook).spec_insert(s + 1))
    } else if p == Piece::King && t + 2 == s {
        let b4a = b4.spec_with_bb(c, Piece::Rook, b4.spec_bb(c, Piece::Rook).spec_remove(s - 4));
        b4a.spec_with_bb(c, Piece::Rook, b4a.spec_bb(c, Piece::Rook).spec_insert(s - 1))
    } else {
        b4
    };
    Board {
        side_to_move: c.spec_opposite(),
        castling_rights: spec_rights_after(b, c, p, s, t),
        en_passant: if p == Piece::Pawn && (t == s + 16 || t + 16 == s) {
            Some(Square { idx: ((s + t) / 2) as u8 })
        } else {
            None
        },
        halfmove_clock: if p == Piece::Pawn || spec_is_capture(b, m) {
            0u64
        } else if b.halfmove_clock == u64::MAX {
            u64::MAX
        } else {
            (b.halfmove_clock + 1) as u64
        },
        fullmove_number: if c == Color::Black {
            if b.fullmove_number == u64::MAX {
                u64::MAX
            } else {
                (b.fullmove_number + 1) as u64
            }
        } else {
            b.fullmove_number
        },
        ..b5
    }
}

/// The move is legal: it obeys the movement rules and, once applied, leaves
/// the mover's own king unattacked.
pub open spec fn spec_legal(b: Board, m: Move) -> bool {
    spec_pseudo_legal(b, m) && !spec_in_check(spec_apply(b, m), b.side_to_move)
}

impl Board {
    /// The board with one colored piece kind's bitboard replaced.
    pub open spec fn spec_with_bb(self, c: Color, p: Piece, nb: Bitboard) -> Board {
        match c {
            Color::White => match p {
                Piece::Pawn => Board { white_pawns: nb, ..self },
                Piece::Knight => Board { white_knights: nb, ..self },
                Piece::Bishop => Board { white_bishops: nb, ..self },
                Piece::Rook => Board { white_rooks: nb, ..self },
                Piece::Queen => Board { white_queens: nb, ..self },
                Piece::King => Board { white_kings: nb, ..self },
            },
            Color::Black => match p {
                Piece::Pawn => Board { black_pawns: nb, ..self },
                Piece::Knight => Board { black_knights: nb, ..self },
                Piece::Bishop => Board { black_bishops: nb, ..self },
                Piece::Rook => Board { black_rooks: nb, ..self },
                Piece::Queen => Board { black_queens: nb, ..self },
                Piece::King => Board { black_kings: nb, ..self },
            },
        }
    }

    /// The board with every bitboard's bit for `sq` cleared.
    pub open spec fn spec_clear_square(self, sq: int) -> Board {
        Board {
            white_pawns: self.white_pawns.spec_remove(sq),
            white_knights: self.white_knights.spec_remove(sq),
            white_bishops: self.white_bishops.spec_remove(sq),
            white_rooks: self.white_rooks.spec_remove(sq),
            white_queens: self.white_queens.spec_remove(sq),
            white_kings: self.white_kings.spec_remove(sq),
            black_pawns: self.black_pawns.spec_remove(sq),
            black_knights: self.black_knights.spec_remove(sq),
            black_bishops: self.black_bishops.spec_remove(sq),
            black_rooks: self.black_rooks.spec_remove(sq),
            black_queens: self.black_queens.spec_remove(sq),
            black_kings: self.black_kings.spec_remove(sq),
            ..self
        }
    }

    /// Replace one colored piece kind's bitboard.
    pub(crate) fn with_bb(self, c: Color, p: Piece, nb: Bitboard) -> (r: Board)
        ensures
            r == self.spec_with_bb(c, p, nb),
    {
        match c {
            Color::White => match p {
                Piece::Pawn => Board { white_pawns: nb, ..self },
                Piece::Knight => Board { white_knights: nb, ..self },
                Piece::Bishop => Board { white_bishops: nb, ..self },
                Piece::Rook => Board { white_rooks: nb, ..self },
                Piece::Queen => Board { white_queens: nb, ..self },
                Piece::King => Board { white_kings: nb, ..self },
            },
            Color::Black => match p {
                Piece::Pawn => Board { black_pawns: nb, ..self },
                Piece::Knight => Board { black_knights: nb, ..self },
                Piece::Bishop => Board { black_bishops: nb, ..self },
                Piece::Rook => Board { black_rooks: nb, ..self },
                Piece::Queen => Board { black_queens: nb, ..self },
                Piece::King => Board { black_kings: nb, ..self },
            },
        }
    }

    /// Clear every bitboard's bit for one square.
    fn clear_square(self, sq: u8) -> (r: Board)
        requires
            sq < 64,
        ensures
            r == self.spec_clear_square(sq as int),
    {
        Board {
            white_pawns: self.white_pawns.remove(sq),
            white_knights: self.white_knights.remove(sq),
            white_bishops: self.white_bishops.remove(sq),
            white_rooks: self.white_rooks.remove(sq),
            white_queens: self.white_queens.remove(sq),
            white_kings: self.white_kings.remove(sq),
            black_pawns: self.black_pawns.remove(sq),
            black_knights: self.black_knights.remove(sq),
            black_bishops: self.black_bishops.remove(sq),
            black_rooks: self.black_rooks.remove(sq),
            black_queens: self.black_queens.remove(sq),
            black_kings: self.black_kings.remove(sq),
            ..self
        }
    }

    /// The move obeys movement and occupancy rules, king safety aside.
    pub fn is_pseudo_legal(&self, m: Move) -> (res: bool)
        ensures
            res == spec_pseudo_legal(*self, m),
    {
        let s = m.source.index();
        let t = m.destination.index();
        if s >= 64 || t >= 64 || s == t {
            return false;
        }
        let c = self.side_to_move;
        let (pc, p) = match self.piece_at(s) {
            Some(cp) => cp,
            None => { return false; },
        };
        if pc != c {
            return false;
        }
        if self.occupied_by(c, t) {
            return false;
        }
        if self.bb(c.opposite(), Piece::King).get(t) {
            return false;
        }
        let last: u8 = match c {
            Color::White => 7,
            Color::Black => 0,
        };
        let promo_ok: bool = if p == Piece::Pawn && t / 8 == last {
            match m.promotion {
                Some(q) => q == Piece::Knight || q == Piece::Bishop || q == Piece::Rook || q
                    == Piece::Queen,
                None => false,
            }
        } else {
            m.promotion.is_none()
        };
        if !promo_ok {
            return false;
        }
        match p {
            Piece::Pawn => self.pawn_move_ok(c, m),
            Piece::Knight => self.knight_jump(s, t),
            Piece::Bishop => self.diag(s, t) && self.path_clear(s, t),
            Piece::Rook => self.ortho(s, t) && self.path_clear(s, t),
            Piece::Queen => (self.diag(s, t) || self.ortho(s, t)) && self.path_clear(s, t),
            Piece::King => self.king_step(s, t) || self.castle_ok(c, s, t),
        }
    }

    /// Pawn movement rule for the move's squares.
    fn pawn_move_ok(&self, c: Color, m: Move) -> (res: bool)
        requires
            m.wf(),
        ensures
            res == spec_pawn_move(*self, c, m),
    {
        let s = m.source.index();
        let t = m.destination.index();
        let rs = s / 8;
        let fs = s % 8;
        let rt = t / 8;
        let ft = t % 8;
        let ep_here = match self.en_passant {
            Some(e) => e.index() == t,
            None => false,
        };
        proof {
            match self.en_passant {
                Some(e) => {
                    assert(e.idx == m.destination.idx <==> e == m.destination);
                },
                None => {},
            }
        }
        match c {
            Color::White => {
                (rt == rs + 1 && ft == fs && !self.occupied(t)) || (rs == 1 && rt == 3 && ft == fs
                    && !self.occupied(s + 8) && !self.occupied(t)) || (rt == rs + 1 && diff(fs, ft)
                    == 1 && (self.occupied_by(Color::Black, t) || ep_here))
            },
            Color::Black => {
                (rt + 1 == rs && ft == fs && !self.occupied(t)) || (rs == 6 && rt == 4 && ft == fs
                    && !self.occupied(s - 8) && !self.occupied(t)) || (rt + 1 == rs && diff(fs, ft)
                    == 1 && (self.occupied_by(Color::White, t) || ep_here))
            },
        }
    }

    /// Castling availability for the move's squares.
    fn castle_ok(&self, c: Color, s: u8, t: u8) -> (res: bool)
        requires
            s < 64,
            t < 64,
        ensures
            res == spec_castle_ok(*self, c, s as int, t as int),
    {
        let opp = c.opposite();
        if c == Color::White && s == 4 && t == 6 {
            self.castling_rights.white_kingside && self.bb(Color::White, Piece::Rook).get(7)
                && !self.occupied(5) && !self.occupied(6) && !self.attacked(4, opp)
                && !self.attacked(5, opp) && !self.attacked(6, opp)
        } else if c == Color::White && s == 4 && t == 2 {
            self.castling_rights.white_queenside && self.bb(Color::White, Piece::Rook).get(0)
                && !self.occupied(1) && !self.occupied(2) && !self.occupied(3) && !self.attacked(
                4,
                opp,
            ) && !self.attacked(3, opp) && !self.attacked(2, opp)
        } else if c == Color::Black && s == 60 && t == 62 {
            self.castling_rights.black_kingside && self.bb(Color::Black, Piece::Rook).get(63)
                && !self.occupied(61) && !self.occupied(62) && !self.attacked(60, opp)
                && !self.attacked(61, opp) && !self.attacked(62, opp)
        } else if c == Color::Black && s == 60 && t == 58 {
            self.castling_rights.black_queenside && self.bb(Color::Black, Piece::Rook).get(56)
                && !self.occupied(57) && !self.occupied(58) && !self.occupied(59) && !self.attacked(
                60,
                opp,
            ) && !self.attacked(59, opp) && !self.attacked(58, opp)
        } else {
            false
        }
    }

    /// The position after the move, without testing legality first.
    fn apply_unchecked(&self, m: Move) -> (r: Board)
        requires
            spec_pseudo_legal(*self, m),
        ensures
            r == spec_apply(*self, m),
    {
        let c = self.side_to_move;
        let s = m.source.index();
        let t = m.destination.index();
        let p = match self.piece_at(s) {
            Some((_, p)) => p,
            None => Piece::Pawn,
        };
        let ep_here = match self.en_passant {
            Some(e) => e.index() == t,
            None => false,
        };
        proof {
            match self.en_passant {
                Some(e) => {
                    assert(e.idx == m.destination.idx <==> e == m.destination);
                },
                None => {},
            }
        }
        let is_ep = p == Piece::Pawn && ep_here && s % 8 != t % 8;
        let b1 = self.clear_square(t);
        let b2 = if is_ep {
            proof {
                assert(spec_pawn_move(*self, c, m));
                if c == Color::White {
                    assert(t / 8 == s / 8 + 1);
                } else {
                    assert(t / 8 + 1 == s / 8);
                }
            }
            let victim = match c {
                Color::White => t - 8,
                Color::Black => t + 8,
            };
            b1.with_bb(
                c.opposite(),
                Piece::Pawn,
                b1.bb(c.opposite(), Piece::Pawn).remove(victim),
            )
        } else {
            b1
        };
        let b3 = b2.with_bb(c, p, b2.bb(c, p).remove(s));
        let placed = match m.promotion {
            Some(q) => q,
            None => p,
        };
        let b4 = b3.with_bb(c, placed, b3.bb(c, placed).insert(t));
        let b5 = if p == Piece::King && t == s + 2 {
            proof {
                assert(!spec_king_step(s as int, t as int));
                assert(spec_castle_ok(*self, c, s as int, t as int));
                assert(s == 4 || s == 60);
            }
            let b4a = b4.with_bb(c, Piece::Rook, b4.bb(c, Piece::Rook).remove(s + 3));
            b4a.with_bb(c, Piece::Rook, b4a.bb(c, Piece::Rook).insert(s + 1))
        } else if p == Piece::King && t + 2 == s {
            proof {
                assert(!spec_king_step(s as int, t as int));
                assert(spec_castle_ok(*self, c, s as int, t as int));
                assert(s == 4 || s == 60);
            }
            let b4a = b4.with_bb(c, Piece::Rook, b4.bb(c, Piece::Rook).remove(s - 4));
            b4a.with_bb(c, Piece::Rook, b4a.bb(c, Piece::Rook).insert(s - 1))
        } else {
            b4
        };
        let captures = self.occupied_by(c.opposite(), t) || is_ep;
        let rights = CastlingRights {
            white_kingside: self.castling_rights.white_kingside && !(c == Color::White && p
                == Piece::King) && !(c == Color::White && p == Piece::Rook && s == 7) && !(c
                == Color::Black && t == 7 && self.bb(Color::White, Piece::Rook).get(7)),
            white_queenside: self.castling_rights.white_queenside && !(c == Color::White && p
                == Piece::King) && !(c == Color::White && p == Piece::Rook && s == 0) && !(c
                == Color::Black && t == 0 && self.bb(Color::White, Piece::Rook).get(0)),
            black_kingside: self.castling_rights.black_kingside && !(c == Color::Black && p
                == Piece::King) && !(c == Color::Black && p == Piece::Rook && s == 63) && !(c
                == Color::White && t == 63 && self.bb(Color::Black, Piece::Rook).get(63)),
            black_queenside: self.castling_rights.black_queenside && !(c == Color::Black && p
                == Piece::King) && !(c == Color::Black && p == Piece::Rook && s == 56) && !(c
                == Color::White && t == 56 && self.bb(Color::Black, Piece::Rook).get(56)),
        };
        Board {
            side_to_move: c.opposite(),
            castling_rights: rights,
            en_passant: if p == Piece::Pawn && (t == s + 16 || t + 16 == s) {
                Some(Square::from_index((s + t) / 2))
            } else {
                None
            },
            halfmove_clock: if p == Piece::Pawn || captures {
                0u64
            } else if self.halfmove_clock == u64::MAX {
                u64::MAX
            } else {
                self.halfmove_clock + 1
            },
            fullmove_number: if c == Color::Black {
                if self.fullmove_number == u64::MAX {
                    u64::MAX
                } else {
                    self.fullmove_number + 1
                }
            } else {
                self.fullmove_number
            },
            ..b5
        }
    }
}

/// Applying a pseudo-legal move to a well-formed board yields a well-formed
/// board: the bitboards stay pairwise disjoint and each side keeps exactly
/// one king.
pub proof fn lemma_apply_wf(b: Board, m: Move)
    requires
        b.wf(),
        spec_pseudo_legal(b, m),
    ensures
        spec_apply(b, m).wf(),
{
    broadcast use lemma_with_bb_bb, lemma_clear_square_bb;

    let a = spec_apply(b, m);
    let c = b.side_to_move;
    let opp = c.spec_opposite();
    let s = m.source@;
    let t = m.destination@;
    let p = spec_mover(b, s);
    let placed = match m.promotion {
        Some(q) => q,
        None => p,
    };
    let is_ep = spec_is_ep_capture(b, m);
    let victim: int = if c == Color::White { t - 8 } else { t + 8 };
    let castles = p == Piece::King && (t == s + 2 || t + 2 == s);
    let rook_from: int = if t == s + 2 { s + 3 } else { s - 4 };
    let rook_to: int = if t == s + 2 { s + 1 } else { s - 1 };

    let b1 = b.spec_clear_square(t);
    let b2 = if is_ep {
        b1.spec_with_bb(opp, Piece::Pawn, b1.spec_bb(opp, Piece::Pawn).spec_remove(victim))
    } else {
        b1
    };
    let b3 = b2.spec_with_bb(c, p, b2.spec_bb(c, p).spec_remove(s));
    let b4 = b3.spec_with_bb(c, placed, b3.spec_bb(c, placed).spec_insert(t));
    let b5 = if p == Piece::King && t == s + 2 {
        let b4a = b4.spec_with_bb(c, Piece::Rook, b4.spec_bb(c, Piece::Rook).spec_remove(s + 3));
        b4a.spec_with_bb(c, Piece::Rook, b4a.spec_bb(c, Piece::Rook).spec_insert(s + 1))
    } else if p == Piece::King && t + 2 == s {
        let b4a = b4.spec_with_bb(c, Piece::Rook, b4.spec_bb(c, Piece::Rook).spec_remove(s - 4));
        b4a.spec_with_bb(c, Piece::Rook, b4a.spec_bb(c, Piece::Rook).spec_insert(s - 1))
    } else {
        b4
    };

    assert(b.spec_has_piece(c, p, s)) by {
        match b.spec_piece_at(s) {
            Some((pc0, p0)) => {
                assert(pc0 == c && p0 == p);
            },
            None => {
                assert(false);
            },
        }
    }
    if castles {
        assert(!spec_king_step(s, t));
        assert(spec_castle_ok(b, c, s, t));
        assert(s == 4 || s == 60);
        assert(b.spec_has_piece(c, Piece::Rook, rook_from));
        assert(!b.spec_occupied(rook_to));
        assert(placed == p);
    }
    if p == Piece::King {
        assert(placed == Piece::King);
    }
    if is_ep {
        assert(spec_pawn_move(b, c, m));
        assert(0 <= victim < 64);
    }

    // Pointwise contents of the applied board.
    assert forall|c2: Color, p2: Piece, j: int| #[trigger] a.spec_has_piece(c2, p2, j)
        <==> (if j == t {
            c2 == c && p2 == placed
        } else if castles && j == rook_to {
            c2 == c && p2 == Piece::Rook
        } else {
            &&& b.spec_has_piece(c2, p2, j)
            &&& !(c2 == c && p2 == p && j == s)
            &&& !(is_ep && c2 == opp && p2 == Piece::Pawn && j == victim)
            &&& !(castles && c2 == c && p2 == Piece::Rook && j == rook_from)
        }) by {
        assert(a.spec_bb(c2, p2) == b5.spec_bb(c2, p2));
        if castles {
            assert(rook_to != t && rook_to != s);
        }
    }

    // Disjointness: at most one holder for each square.
    assert forall|c1: Color, p1: Piece, j: int| #[trigger] a.spec_has_piece(c1, p1, j)
        implies a.spec_piece_at(j) == Some((c1, p1)) by {
        assert forall|c2: Color, p2: Piece| #[trigger] a.spec_has_piece(c2, p2, j)
            implies c2 == c1 && p2 == p1 by {
            if j != t && !(castles && j == rook_to) {
                assert(b.spec_has_piece(c2, p2, j) && b.spec_has_piece(c1, p1, j));
                assert(b.spec_piece_at(j) == Some((c2, p2)));
                assert(b.spec_piece_at(j) == Some((c1, p1)));
            }
        }
    }

    // Exactly one king of the moving side.
    let k0 = choose|k0: int|
        0 <= k0 < 64 && #[trigger] b.spec_has_piece(c, Piece::King, k0) && (forall|j: int|
            #[trigger] b.spec_has_piece(c, Piece::King, j) ==> j == k0);
    if p == Piece::King {
        assert(k0 == s);
        assert(a.spec_has_piece(c, Piece::King, t));
        assert forall|j: int| #[trigger] a.spec_has_piece(c, Piece::King, j) implies j == t by {}
        assert(a.spec_one_king(c));
    } else {
        assert(placed != Piece::King) by {
            if m.promotion is Some {
                assert(spec_promotion_ok(c, p, t, m.promotion));
            }
        }
        assert(!b.spec_has_piece(c, Piece::King, t)) by {
            assert(!b.spec_occupied_by(c, t));
        }
        assert(a.spec_has_piece(c, Piece::King, k0));
        assert forall|j: int| #[trigger] a.spec_has_piece(c, Piece::King, j) implies j == k0 by {}
        assert(a.spec_one_king(c));
    }

    // Exactly one king of the other side: its bitboard is untouched.
    let k1 = choose|k1: int|
        0 <= k1 < 64 && #[trigger] b.spec_has_piece(opp, Piece::King, k1) && (forall|j: int|
            #[trigger] b.spec_has_piece(opp, Piece::King, j) ==> j == k1);
    assert(!b.spec_has_piece(opp, Piece::King, t));
    assert(placed != Piece::King || c != opp);
    assert(a.spec_has_piece(opp, Piece::King, k1)) by {
        assert(k1 != t);
    }
    assert forall|j: int| #[trigger] a.spec_has_piece(opp, Piece::King, j) implies j == k1 by {}
    assert(a.spec_one_king(opp));
}

impl Board {
    /// The move is legal in this position: it obeys the movement rules and
    /// leaves the mover's own king unattacked after application.
    pub fn is_legal(&self, m: Move) -> (res: bool)
        requires
            self.wf(),
        ensures
            res == spec_legal(*self, m),
    {
        if !self.is_pseudo_legal(m) {
            return false;
        }
        let next = self.apply_unchecked(m);
        proof {
            lemma_apply_wf(*self, m);
        }
        !next.in_check(self.side_to_move)
    }

    /// Apply a move: validate it against the position first, and mutate only
    /// when it is legal. An illegal move is rejected with a move-invalid
    /// error carrying the move's UCI text and leaves the position untouched.
    pub fn push(&mut self, m: Move) -> (r: Result<(), ChessError>)
        requires
            old(self).wf(),
            m.wf(),
        ensures
            final(self).wf(),
            spec_legal(*old(self), m) ==> (r is Ok && *final(self) == spec_apply(*old(self), m)),
            !spec_legal(*old(self), m) ==> (r matches Err(e) && (e matches ChessError::InvalidMove(
                t,
            ) && t@ == spec_uci_chars(m)) && *final(self) == *old(self)),
    {
        if self.is_legal(m) {
            let next = self.apply_unchecked(m);
            proof {
                lemma_apply_wf(*self, m);
            }
            *self = next;
            Ok(())
        } else {
            Err(ChessError::InvalidMove(m.to_uci()))
        }
    }
}

/// The move with the given square indexes and promotion.
pub open spec fn spec_move_of(s: int, t: int, promo: Option<Piece>) -> Move {
    Move { source: Square { idx: s as u8 }, destination: Square { idx: t as u8 }, promotion: promo }
}

/// The one-element sequence holding `m` when it is legal, else empty.
pub open spec fn spec_maybe_legal(b: Board, m: Move) -> Seq<Move> {
    if spec_legal(b, m) { seq![m] } else { Seq::<Move>::empty() }
}

/// The legal moves from `s` to `t`, candidates tried in a fixed order: no
/// promotion first, then knight, bishop, rook and queen promotions.
pub open spec fn spec_cands_at(b: Board, s: int, t: int) -> Seq<Move> {
    spec_maybe_legal(b, spec_move_of(s, t, None)) + spec_maybe_legal(
        b,
        spec_move_of(s, t, Some(Piece::Knight)),
    ) + spec_maybe_legal(b, spec_move_of(s, t, Some(Piece::Bishop))) + spec_maybe_legal(
        b,
        spec_move_of(s, t, Some(Piece::Rook)),
    ) + spec_maybe_legal(b, spec_move_of(s, t, Some(Piece::Queen)))
}

/// The legal moves whose source-destination key (source * 64 + destination)
/// lies below `k`, in key order.
pub open spec fn spec_moves_upto(b: Board, k: int) -> Seq<Move>
    decreases k,
{
    if k <= 0 {
        Seq::<Move>::empty()
    } else {
        spec_moves_upto(b, k - 1) + spec_cands_at(b, (k - 1) / 64, (k - 1) % 64)
    }
}

/// Every legal move of the position, enumerated by source square, then
/// destination square, then promotion piece: a fixed, deterministic order.
pub open spec fn spec_legal_moves(b: Board) -> Seq<Move> {
    spec_moves_upto(b, 4096)
}

/// The one-element sequence holding `m` when it is pseudo-legal, else empty.
pub open spec fn spec_maybe_pseudo(b: Board, m: Move) -> Seq<Move> {
    if spec_pseudo_legal(b, m) { seq![m] } else { Seq::<Move>::empty() }
}

/// The pseudo-legal moves from `s` to `t`, candidates in the same fixed order.
pub open spec fn spec_pseudo_cands_at(b: Board, s: int, t: int) -> Seq<Move> {
    spec_maybe_pseudo(b, spec_move_of(s, t, None)) + spec_maybe_pseudo(
        b,
        spec_move_of(s, t, Some(Piece::Knight)),
    ) + spec_maybe_pseudo(b, spec_move_of(s, t, Some(Piece::Bishop))) + spec_maybe_pseudo(
        b,
        spec_move_of(s, t, Some(Piece::Rook)),
    ) + spec_maybe_pseudo(b, spec_move_of(s, t, Some(Piece::Queen)))
}

/// The pseudo-legal moves with key below `k`, in key order.
pub open spec fn spec_pseudo_moves_upto(b: Board, k: int) -> Seq<Move>
    decreases k,
{
    if k <= 0 {
        Seq::<Move>::empty()
    } else {
        spec_pseudo_moves_upto(b, k - 1) + spec_pseudo_cands_at(b, (k - 1) / 64, (k - 1) % 64)
    }
}

/// Every pseudo-legal move of the position, in the same fixed order.
pub open spec fn spec_pseudo_legal_moves(b: Board) -> Seq<Move> {
    spec_pseudo_moves_upto(b, 4096)
}

impl Board {
    /// Generate every legal move of the position, in a fixed order: by source
    /// square, then destination square, then promotion piece.
    #[verifier::rlimit(100)]
    pub fn legal_moves(&self) -> (r: Vec<Move>)
        requires
            self.wf(),
        ensures
            r@ == spec_legal_moves(*self),
    {
        let mut out: Vec<Move> = Vec::new();
        let mut k: usize = 0;
        while k < 4096
            invariant
                self.wf(),
                k <= 4096,
                out@ == spec_moves_upto(*self, k as int),
            decreases 4096 - k,
        {
            let s = (k / 64) as u8;
            let t = (k % 64) as u8;
            let ghost base = out@;
            let m0 = Move::new(Square::from_index(s), Square::from_index(t), None);
            let m1 = Move::new(Square::from_index(s), Square::from_index(t), Some(Piece::Knight));
            let m2 = Move::new(Square::from_index(s), Square::from_index(t), Some(Piece::Bishop));
            let m3 = Move::new(Square::from_index(s), Square::from_index(t), Some(Piece::Rook));
            let m4 = Move::new(Square::from_index(s), Square::from_index(t), Some(Piece::Queen));
            if self.is_legal(m0) {
                out.push(m0);
            }
            if self.is_legal(m1) {
                out.push(m1);
            }
            if self.is_legal(m2) {
                out.push(m2);
            }
            if self.is_legal(m3) {
                out.push(m3);
            }
            if self.is_legal(m4) {
                out.push(m4);
            }
            proof {
                assert(m0 == spec_move_of(s as int, t as int, None));
                assert(out@ =~= base + spec_cands_at(*self, s as int, t as int));
                assert(s as int == (k as int) / 64 && t as int == (k as int) % 64);
                assert(out@ =~= spec_moves_upto(*self, k as int + 1));
            }
            k = k + 1;
        }
        out
    }

    /// Generate every pseudo-legal move of the position — moves that obey
    /// piece movement and occupancy rules, without regard to king safety —
    /// in the same fixed order as legal generation.
    #[verifier::rlimit(100)]
    pub fn pseudo_legal_moves(&self) -> (r: Vec<Move>)
        ensures
            r@ == spec_pseudo_legal_moves(*self),
    {
        let mut out: Vec<Move> = Vec::new();
        let mut k: usize = 0;
        while k < 4096
            invariant
                k <= 4096,
                out@ == spec_pseudo_moves_upto(*self, k as int),
            decreases 4096 - k,
        {
            let s = (k / 64) as u8;
            let t = (k % 64) as u8;
            let ghost base = out@;
            let m0 = Move::new(Square::from_index(s), Square::from_index(t), None);
            let m1 = Move::new(Square::from_index(s), Square::from_index(t), Some(Piece::Knight));
            let m2 = Move::new(Square::from_index(s), Square::from_index(t), Some(Piece::Bishop));
            let m3 = Move::new(Square::from_index(s), Square::from_index(t), Some(Piece::Rook));
            let m4 = Move::new(Square::from_index(s), Square::from_index(t), Some(Piece::Queen));
            if self.is_pseudo_legal(m0) {
                out.push(m0);
            }
            if self.is_pseudo_legal(m1) {
                out.push(m1);
            }
            if self.is_pseudo_legal(m2) {
                out.push(m2);
            }
            if self.is_pseudo_legal(m3) {
                out.push(m3);
            }
            if self.is_pseudo_legal(m4) {
                out.push(m4);
            }
            proof {
                assert(m0 == spec_move_of(s as int, t as int, None));
                assert(out@ =~= base + spec_pseudo_cands_at(*self, s as int, t as int));
                assert(s as int == (k as int) / 64 && t as int == (k as int) % 64);
                assert(out@ =~= spec_pseudo_moves_upto(*self, k as int + 1));
            }
            k = k + 1;
        }
        out
    }
}

/// Every element of the enumeration below key `k` is a legal move.
proof fn lemma_moves_upto_sound(b: Board, k: int, i: int)
    requires
        0 <= i < spec_moves_upto(b, k).len(),
    ensures
        spec_legal(b, spec_moves_upto(b, k)[i]),
    decreases k,
{
    if k > 0 {
        let prev = spec_moves_upto(b, k - 1);
        if i < prev.len() {
            lemma_moves_upto_sound(b, k - 1, i);
            assert(spec_moves_upto(b, k)[i] == prev[i]);
        } else {
            let cands = spec_cands_at(b, (k - 1) / 64, (k - 1) % 64);
            let j = i - prev.len();
            assert(spec_moves_upto(b, k)[i] == cands[j]);
        }
    }
}

/// Legality soundness: every move that legal generation produces is legal,
/// so applying it never leaves the mover's own king attacked.
pub proof fn lemma_legal_moves_sound(b: Board, i: int)
    requires
        0 <= i < spec_legal_moves(b).len(),
    ensures
        spec_legal(b, spec_legal_moves(b)[i]),
        !spec_in_check(spec_apply(b, spec_legal_moves(b)[i]), b.side_to_move),
{
    lemma_moves_upto_sound(b, 4096, i);
}

/// A legal move with key below `k` stands in the enumeration below `k`.
proof fn lemma_moves_upto_complete(b: Board, m: Move, k: int)
    requires
        spec_legal(b, m),
        m.source@ * 64 + m.destination@ < k,
        k <= 4096,
    ensures
        spec_moves_upto(b, k).contains(m),
    decreases k,
{
    let s = m.source@;
    let t = m.destination@;
    let key = s * 64 + t;
    assert(0 <= s < 64 && 0 <= t < 64);
    assert(key >= 0);
    let prev = spec_moves_upto(b, k - 1);
    let cands = spec_cands_at(b, (k - 1) / 64, (k - 1) % 64);
    if key == k - 1 {
        assert((k - 1) / 64 == s && (k - 1) % 64 == t);
        assert(spec_move_of(s, t, m.promotion) == m);
        assert(m.promotion is None || m.promotion == Some(Piece::Knight) || m.promotion == Some(
            Piece::Bishop,
        ) || m.promotion == Some(Piece::Rook) || m.promotion == Some(Piece::Queen)) by {
            match b.spec_piece_at(s) {
                Some((pc0, p0)) => {
                    assert(spec_promotion_ok(b.side_to_move, p0, t, m.promotion));
                },
                None => {
                    assert(false);
                },
            }
        }
        assert(cands.contains(m)) by {
            let s0 = spec_maybe_legal(b, spec_move_of(s, t, None));
            let s1 = spec_maybe_legal(b, spec_move_of(s, t, Some(Piece::Knight)));
            let s2 = spec_maybe_legal(b, spec_move_of(s, t, Some(Piece::Bishop)));
            let s3 = spec_maybe_legal(b, spec_move_of(s, t, Some(Piece::Queen)));
            if m.promotion is None {
                assert(s0 == seq![m]);
                assert(cands[0] == m);
            } else if m.promotion == Some(Piece::Knight) {
                assert(cands[s0.len() as int] == m);
            } else if m.promotion == Some(Piece::Bishop) {
                assert(cands[s0.len() + s1.len() as int] == m);
            } else if m.promotion == Some(Piece::Rook) {
                assert(cands[s0.len() + s1.len() + s2.len() as int] == m);
            } else {
                assert(cands[s0.len() + s1.len() + s2.len() + spec_maybe_legal(
                    b,
                    spec_move_of(s, t, Some(Piece::Rook)),
                ).len() as int] == m);
            }
        }
        let j = choose|j: int| 0 <= j < cands.len() && cands[j] == m;
        assert(spec_moves_upto(b, k)[prev.len() + j] == m);
    } else {
        lemma_moves_upto_complete(b, m, k - 1);
        let j = choose|j: int| 0 <= j < prev.len() && prev[j] == m;
        assert(spec_moves_upto(b, k)[j] == m);
    }
}

/// White kingside castling obeys the movement rules whenever White holds the
/// kingside right with king and rook on their home squares, f1 and g1 empty,
/// and e1, f1 and g1 unattacked. By `push`'s contract the application then
/// succeeds exactly when the resulting position leaves the king unattacked.
pub proof fn lemma_white_kingside_castle_pseudo_legal(b: Board)
    requires
        b.wf(),
        b.side_to_move == Color::White,
        b.castling_rights.white_kingside,
        b.spec_piece_at(4) == Some((Color::White, Piece::King)),
        b.spec_has_piece(Color::White, Piece::Rook, 7),
        !b.spec_occupied(5),
        !b.spec_occupied(6),
        !spec_attacked(b, 4, Color::Black),
        !spec_attacked(b, 5, Color::Black),
        !spec_attacked(b, 6, Color::Black),
    ensures
        spec_pseudo_legal(b, spec_move_of(4, 6, None)),
{
    let m = spec_move_of(4, 6, None);
    assert(m.source@ == 4 && m.destination@ == 6);
    assert(!b.spec_occupied_by(Color::White, 6));
    assert(!b.spec_has_piece(Color::Black, Piece::King, 6));
    assert(spec_castle_ok(b, Color::White, 4, 6));
}

/// Legality completeness of the enumeration: every legal move appears in the
/// generated sequence.
pub proof fn lemma_legal_moves_complete(b: Board, m: Move)
    requires
        spec_legal(b, m),
    ensures
        spec_legal_moves(b).contains(m),
{
    lemma_moves_upto_complete(b, m, 4096);
}

/// Replacing one bitboard leaves every other bitboard in place.
pub broadcast proof fn lemma_with_bb_bb(b: Board, c: Color, p: Piece, nb: Bitboard, c0: Color, p0: Piece)
    ensures
        #[trigger] b.spec_with_bb(c, p, nb).spec_bb(c0, p0) == if c0 == c && p0 == p {
            nb
        } else {
            b.spec_bb(c0, p0)
        },
{
}

/// Clearing a square acts pointwise on every bitboard.
pub broadcast proof fn lemma_clear_square_bb(b: Board, sq: int, c0: Color, p0: Piece)
    ensures
        #[trigger] b.spec_clear_square(sq).spec_bb(c0, p0) == b.spec_bb(c0, p0).spec_remove(sq),
{
}

} // verus!

