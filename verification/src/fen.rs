use vstd::prelude::*;

use crate::bitboard::Bitboard;
use crate::board::Board;
use crate::castling_rights::{spec_castling_of_text, spec_castling_text, CastlingRights};
use crate::color::{spec_color_char, spec_color_of_text, Color};
use crate::error::ChessError;
use crate::piece::{colored_piece_of_char, piece_fen_char_str, spec_colored_piece_of_char, spec_piece_fen_char, Piece};
use crate::square::{spec_square_name, spec_square_of_text, Square};
use crate::text::{digit_str, num_to_text, spec_digit_char, spec_num_chars};

verus! {

broadcast use crate::bitboard::group_bitboard;

/// The FEN text of one rank from file `f` on, with `run` empty squares
/// already pending: empty squares become digit run-lengths, pieces their
/// letters.
pub open spec fn spec_rank_fen(b: Board, r: int, f: int, run: int) -> Seq<char>
    decreases 8 - f,
{
    if f >= 8 {
        if run > 0 {
            seq![spec_digit_char(run)]
        } else {
            Seq::<char>::empty()
        }
    } else {
        match b.spec_piece_at(r * 8 + f) {
            None => spec_rank_fen(b, r, f + 1, run + 1),
            Some((c, p)) => (if run > 0 {
                seq![spec_digit_char(run)]
            } else {
                Seq::<char>::empty()
            }) + seq![spec_piece_fen_char(c, p)] + spec_rank_fen(b, r, f + 1, 0),
        }
    }
}

/// The FEN placement text of ranks `r` down to 1, separated by slashes.
pub open spec fn spec_placement(b: Board, r: int) -> Seq<char>
    decreases r,
{
    if r <= 0 {
        spec_rank_fen(b, 0, 0, 0)
    } else {
        spec_rank_fen(b, r, 0, 0) + seq!['/'] + spec_placement(b, r - 1)
    }
}

/// The FEN text of the en-passant field.
pub open spec fn spec_ep_chars(ep: Option<Square>) -> Seq<char> {
    match ep {
        None => seq!['-'],
        Some(sq) => spec_square_name(sq@),
    }
}

/// The full FEN record of a position: placement, side to move, castling
/// availability, en-passant target, halfmove clock and fullmove number,
/// space separated.
pub open spec fn spec_fen(b: Board) -> Seq<char> {
    spec_placement(b, 7) + seq![' '] + seq![spec_color_char(b.side_to_move)] + seq![' ']
        + spec_castling_text(b.castling_rights) + seq![' '] + spec_ep_chars(b.en_passant) + seq![' ']
        + spec_num_chars(b.halfmove_clock as int) + seq![' '] + spec_num_chars(
        b.fullmove_number as int,
    )
}

/// The positions of the space characters among the first `n` characters of
/// the text, in order.
pub open spec fn spec_spaces(s: Seq<char>, n: int) -> Seq<int>
    decreases n,
{
    if n <= 0 {
        Seq::<int>::empty()
    } else {
        spec_spaces(s, n - 1) + if s[n - 1] == ' ' {
            seq![n - 1]
        } else {
            Seq::<int>::empty()
        }
    }
}

/// The numeric value a decimal digit character denotes, if any.
pub open spec fn spec_digit_of_char(c: char) -> Option<u64> {
    match c {
        '0' => Some(0u64),
        '1' => Some(1u64),
        '2' => Some(2u64),
        '3' => Some(3u64),
        '4' => Some(4u64),
        '5' => Some(5u64),
        '6' => Some(6u64),
        '7' => Some(7u64),
        '8' => Some(8u64),
        '9' => Some(9u64),
        _ => None,
    }
}

/// Folds decimal digits left to right into a value; `None` on a non-digit or
/// once the value no longer fits the type.
pub open spec fn spec_num_fold(t: Seq<char>, acc: u64) -> Option<u64>
    decreases t.len(),
{
    if t.len() == 0 {
        Some(acc)
    } else {
        match spec_digit_of_char(t[0]) {
            None => None,
            Some(d) => if acc * 10 + d > u64::MAX {
                None
            } else {
                spec_num_fold(t.subrange(1, t.len() as int), (acc * 10 + d) as u64)
            },
        }
    }
}

/// The number a non-empty all-digit field denotes, if it fits the type.
pub open spec fn spec_parse_num(t: Seq<char>) -> Option<u64> {
    if t.len() == 0 {
        None
    } else {
        spec_num_fold(t, 0)
    }
}

/// The run-length a FEN placement digit denotes, if the character is one.
pub open spec fn spec_run_of_char(c: char) -> Option<u8> {
    match c {
        '1' => Some(1u8),
        '2' => Some(2u8),
        '3' => Some(3u8),
        '4' => Some(4u8),
        '5' => Some(5u8),
        '6' => Some(6u8),
        '7' => Some(7u8),
        '8' => Some(8u8),
        _ => None,
    }
}

/// Folds the placement text one character at a time over an occupancy list,
/// standing on rank `r`, file `f`: a slash closes a full rank, a digit skips
/// empty squares, a piece letter fills one square; anything else, a short or
/// overfull rank, or ending anywhere but after rank 1's eighth file is a
/// structural violation.
pub open spec fn spec_place_fold(
    t: Seq<char>,
    occ: Seq<Option<(Color, Piece)>>,
    r: int,
    f: int,
) -> Option<Seq<Option<(Color, Piece)>>>
    decreases t.len(),
{
    if t.len() == 0 {
        if r == 0 && f == 8 {
            Some(occ)
        } else {
            None
        }
    } else {
        let rest = t.subrange(1, t.len() as int);
        if t[0] == '/' {
            if f != 8 || r == 0 {
                None
            } else {
                spec_place_fold(rest, occ, r - 1, 0)
            }
        } else {
            match spec_run_of_char(t[0]) {
                Some(d) => if f + d > 8 {
                    None
                } else {
                    spec_place_fold(rest, occ, r, f + d)
                },
                None => match spec_colored_piece_of_char(t[0]) {
                    Some(cp) => if f >= 8 {
                        None
                    } else {
                        spec_place_fold(rest, occ.update(r * 8 + f, Some(cp)), r, f + 1)
                    },
                    None => None,
                },
            }
        }
    }
}

/// The all-empty occupancy list.
pub open spec fn spec_empty_occ() -> Seq<Option<(Color, Piece)>> {
    Seq::new(64, |i: int| Option::<(Color, Piece)>::None)
}

/// The occupancy a FEN placement field denotes, if it is structurally valid.
pub open spec fn spec_place_parse(t: Seq<char>) -> Option<Seq<Option<(Color, Piece)>>> {
    spec_place_fold(t, spec_empty_occ(), 7, 0)
}

/// The en-passant value a FEN field denotes: "-" for none, else a square.
pub open spec fn spec_parse_ep(t: Seq<char>) -> Option<Option<Square>> {
    if t =~= seq!['-'] {
        Some(None)
    } else {
        match spec_square_of_text(t) {
            Some(i) => Some(Some(Square { idx: i })),
            None => None,
        }
    }
}

/// The six structurally parsed fields of a FEN record: occupancy, side to
/// move, castling rights, en-passant target, halfmove clock and fullmove
/// number (which must be positive); `None` on any structural violation.
pub open spec fn spec_fen_fields(s: Seq<char>) -> Option<
    (Seq<Option<(Color, Piece)>>, Color, CastlingRights, Option<Square>, u64, u64),
> {
    let sp = spec_spaces(s, s.len() as int);
    if sp.len() != 5 {
        None
    } else {
        let occ_r = spec_place_parse(s.subrange(0, sp[0]));
        let side_r = spec_color_of_text(s.subrange(sp[0] + 1, sp[1]));
        let cr_r = spec_castling_of_text(s.subrange(sp[1] + 1, sp[2]));
        let ep_r = spec_parse_ep(s.subrange(sp[2] + 1, sp[3]));
        let h_r = spec_parse_num(s.subrange(sp[3] + 1, sp[4]));
        let fm_r = spec_parse_num(s.subrange(sp[4] + 1, s.len() as int));
        match (occ_r, side_r, cr_r, ep_r, h_r, fm_r) {
            (Some(occ), Some(side), Some(cr), Some(ep), Some(h), Some(fm)) => if fm == 0 {
                None
            } else {
                Some((occ, side, cr, ep, h, fm))
            },
            _ => None,
        }
    }
}

/// One occupancy entry raised into the board's bitboards.
pub open spec fn spec_fill_step(bd: Board, e: Option<(Color, Piece)>, i: int) -> Board {
    match e {
        Some((c, p)) => bd.spec_with_bb(c, p, bd.spec_bb(c, p).spec_insert(i)),
        None => bd,
    }
}

/// The occupancy entries from `i` on raised into the board's bitboards.
pub open spec fn spec_fill(occ: Seq<Option<(Color, Piece)>>, i: int, bd: Board) -> Board
    decreases 64 - i,
{
    if i < 0 || i >= 64 {
        bd
    } else {
        spec_fill(occ, i + 1, spec_fill_step(bd, occ[i], i))
    }
}

/// A board with no pieces and the given non-placement fields.
pub open spec fn spec_base_board(
    side: Color,
    cr: CastlingRights,
    ep: Option<Square>,
    halfmove: u64,
    fullmove: u64,
) -> Board {
    Board {
        white_pawns: Bitboard(0u64),
        white_knights: Bitboard(0u64),
        white_bishops: Bitboard(0u64),
        white_rooks: Bitboard(0u64),
        white_queens: Bitboard(0u64),
        white_kings: Bitboard(0u64),
        black_pawns: Bitboard(0u64),
        black_knights: Bitboard(0u64),
        black_bishops: Bitboard(0u64),
        black_rooks: Bitboard(0u64),
        black_queens: Bitboard(0u64),
        black_kings: Bitboard(0u64),
        side_to_move: side,
        castling_rights: cr,
        en_passant: ep,
        halfmove_clock: halfmove,
        fullmove_number: fullmove,
    }
}

/// The board a FEN record denotes: its structurally parsed fields, provided
/// the occupancy holds exactly one king of each color.
pub open spec fn spec_fen_board(s: Seq<char>) -> Option<Board> {
    match spec_fen_fields(s) {
        None => None,
        Some((occ, side, cr, ep, h, fm)) => if spec_count_kings(occ, Color::White, 64) == 1
            && spec_count_kings(occ, Color::Black, 64) == 1 {
            Some(spec_fill(occ, 0, spec_base_board(side, cr, ep, h, fm)))
        } else {
            None
        },
    }
}

/// The numeric value of a decimal digit, if the character is one.
fn digit_value(c: char) -> (r: Option<u64>)
    ensures
        r == spec_digit_of_char(c),
        r matches Some(d) ==> d < 10,
{
    match c {
        '0' => Some(0),
        '1' => Some(1),
        '2' => Some(2),
        '3' => Some(3),
        '4' => Some(4),
        '5' => Some(5),
        '6' => Some(6),
        '7' => Some(7),
        '8' => Some(8),
        '9' => Some(9),
        _ => None,
    }
}

/// Parse a non-empty all-digit field into a number; `None` on anything else
/// or on a value too large for the type.
fn parse_num(s: &str) -> (r: Option<u64>)
    ensures
        r == spec_parse_num(s@),
{
    let len = s.unicode_len();
    if len == 0 {
        return None;
    }
    let mut val: u64 = 0;
    let mut i: usize = 0;
    proof {
        assert(s@.subrange(0, len as int) =~= s@);
    }
    while i < len
        invariant
            i <= len,
            len == s@.len(),
            len >= 1,
            spec_num_fold(s@, 0) == spec_num_fold(s@.subrange(i as int, len as int), val),
        decreases len - i,
    {
        let ghost rest = s@.subrange(i as int, len as int);
        proof {
            assert(rest[0] == s@[i as int]);
            assert(rest.subrange(1, rest.len() as int) =~= s@.subrange(
                i as int + 1,
                len as int,
            ));
        }
        let d = match digit_value(s.get_char(i)) {
            Some(d) => d,
            None => {
                proof {
                    assert(spec_num_fold(rest, val) is None);
                }
                return None;
            },
        };
        let shifted = match val.checked_mul(10) {
            Some(v) => v,
            None => {
                proof {
                    assert(val * 10 + d > u64::MAX);
                    assert(spec_num_fold(rest, val) is None);
                }
                return None;
            },
        };
        val = match shifted.checked_add(d) {
            Some(v) => v,
            None => {
                proof {
                    assert(val * 10 + d > u64::MAX);
                    assert(spec_num_fold(rest, val) is None);
                }
                return None;
            },
        };
        i = i + 1;
    }
    proof {
        assert(s@.subrange(len as int, len as int) =~= Seq::<char>::empty());
    }
    Some(val)
}

/// The run-length a FEN placement digit denotes, if the character is one.
fn run_value(c: char) -> (r: Option<u8>)
    ensures
        r == spec_run_of_char(c),
        r matches Some(d) ==> 1 <= d <= 8,
{
    match c {
        '1' => Some(1),
        '2' => Some(2),
        '3' => Some(3),
        '4' => Some(4),
        '5' => Some(5),
        '6' => Some(6),
        '7' => Some(7),
        '8' => Some(8),
        _ => None,
    }
}

impl Board {
    /// Render the position as a FEN record.
    pub fn to_fen(&self) -> (r: String)
        requires
            self.wf(),
        ensures
            r@ == spec_fen(*self),
    {
        let mut out = String::new();
        proof {
            assert(out@ =~= Seq::<char>::empty());
            assert(spec_placement(*self, 7) =~= out@ + spec_placement(*self, 7));
        }
        let mut ri: u8 = 0;
        while ri < 8
            invariant
                ri <= 8,
                ri < 8 ==> spec_placement(*self, 7) == out@ + spec_placement(*self, 7 - ri as int),
                ri == 8 ==> out@ == spec_placement(*self, 7),
            decreases 8 - ri,
        {
            let r = 7 - ri;
            let ghost rank_start = out@;
            let mut f: u8 = 0;
            let mut run: u8 = 0;
            proof {
                assert(out@.skip(rank_start.len() as int) =~= Seq::<char>::empty());
                assert(spec_rank_fen(*self, r as int, 0, 0) =~= out@.skip(rank_start.len() as int)
                    + spec_rank_fen(*self, r as int, 0, 0));
            }
            while f < 8
                invariant
                    f <= 8,
                    run <= f,
                    r < 8,
                    rank_start.len() <= out@.len(),
                    spec_rank_fen(*self, r as int, 0, 0) == out@.skip(rank_start.len() as int)
                        + spec_rank_fen(*self, r as int, f as int, run as int),
                    out@ == rank_start + out@.skip(rank_start.len() as int),
                decreases 8 - f,
            {
                let sq = r * 8 + f;
                match self.piece_at(sq) {
                    None => {
                        run = run + 1;
                    },
                    Some((c, p)) => {
                        if run > 0 {
                            out.append(digit_str(run as u64));
                        }
                        out.append(piece_fen_char_str(c, p));
                        run = 0;
                    },
                }
                f = f + 1;
                proof {
                    assert(out@.skip(rank_start.len() as int) =~= out@.skip(
                        rank_start.len() as int,
                    ));
                }
            }
            if run > 0 {
                out.append(digit_str(run as u64));
            }
            proof {
                assert(out@ =~= rank_start + out@.skip(rank_start.len() as int));
                assert(out@.skip(rank_start.len() as int) =~= spec_rank_fen(
                    *self,
                    r as int,
                    0,
                    0,
                ));
            }
            if r > 0 {
                proof {
                    reveal_strlit("/");
                }
                out.append("/");
            }
            proof {
                if r > 0 {
                    assert(spec_placement(*self, r as int) == spec_rank_fen(*self, r as int, 0, 0)
                        + seq!['/'] + spec_placement(*self, r as int - 1));
                    assert(spec_placement(*self, 7) =~= out@ + spec_placement(
                        *self,
                        r as int - 1,
                    ));
                } else {
                    assert(spec_placement(*self, 0) == spec_rank_fen(*self, 0, 0, 0));
                    assert(out@ =~= spec_placement(*self, 7));
                }
            }
            ri = ri + 1;
        }
        proof {
            reveal_strlit(" ");
            reveal_strlit("-");
        }
        out.append(" ");
        let side_text = self.side_to_move.to_text();
        out.append(side_text.as_str());
        out.append(" ");
        let cr_text = self.castling_rights.to_text();
        out.append(cr_text.as_str());
        out.append(" ");
        match self.en_passant {
            None => {
                out.append("-");
            },
            Some(sq) => {
                let sq_text = sq.to_text();
                out.append(sq_text.as_str());
            },
        }
        out.append(" ");
        let half_text = num_to_text(self.halfmove_clock);
        out.append(half_text.as_str());
        out.append(" ");
        let full_text = num_to_text(self.fullmove_number);
        out.append(full_text.as_str());
        assert(out@ =~= spec_fen(*self));
        out
    }
}

/// The grid text of one rank from file `f` on: a piece letter or a dot per
/// square, closed by a newline.
pub open spec fn spec_grid_rank(b: Board, r: int, f: int) -> Seq<char>
    decreases 8 - f,
{
    if f >= 8 {
        seq!['\n']
    } else {
        seq![
            match b.spec_piece_at(r * 8 + f) {
                Some((c, p)) => spec_piece_fen_char(c, p),
                None => '.',
            },
        ] + spec_grid_rank(b, r, f + 1)
    }
}

/// The grid text of ranks `r` down to 1.
pub open spec fn spec_grid(b: Board, r: int) -> Seq<char>
    decreases r,
{
    if r <= 0 {
        spec_grid_rank(b, 0, 0)
    } else {
        spec_grid_rank(b, r, 0) + spec_grid(b, r - 1)
    }
}

impl Board {
    /// Render the position as an 8-line grid, rank 8 first: upper-case
    /// letters for White, lower-case for Black, a dot for an empty square.
    pub fn to_text(&self) -> (r: String)
        ensures
            r@ == spec_grid(*self, 7),
    {
        proof {
            reveal_strlit(".");
            reveal_strlit("\n");
        }
        let mut out = String::new();
        proof {
            assert(out@ =~= Seq::<char>::empty());
            assert(spec_grid(*self, 7) =~= out@ + spec_grid(*self, 7));
        }
        let mut ri: u8 = 0;
        while ri < 8
            invariant
                ri <= 8,
                ri < 8 ==> spec_grid(*self, 7) == out@ + spec_grid(*self, 7 - ri as int),
                ri == 8 ==> out@ == spec_grid(*self, 7),
            decreases 8 - ri,
        {
            proof {
                reveal_strlit(".");
                reveal_strlit("\n");
            }
            let r = 7 - ri;
            let ghost rank_start = out@;
            let mut f: u8 = 0;
            proof {
                assert(out@.skip(rank_start.len() as int) =~= Seq::<char>::empty());
                assert(spec_grid_rank(*self, r as int, 0) =~= out@.skip(rank_start.len() as int)
                    + spec_grid_rank(*self, r as int, 0));
            }
            while f < 8
                invariant
                    f <= 8,
                    r < 8,
                    rank_start.len() <= out@.len(),
                    spec_grid_rank(*self, r as int, 0) == out@.skip(rank_start.len() as int)
                        + spec_grid_rank(*self, r as int, f as int),
                    out@ == rank_start + out@.skip(rank_start.len() as int),
                decreases 8 - f,
            {
                proof {
                    reveal_strlit(".");
                }
                match self.piece_at(r * 8 + f) {
                    Some((c, p)) => {
                        out.append(piece_fen_char_str(c, p));
                    },
                    None => {
                        out.append(".");
                    },
                }
                f = f + 1;
                proof {
                    assert(out@.skip(rank_start.len() as int) =~= out@.skip(
                        rank_start.len() as int,
                    ));
                }
            }
            proof {
                reveal_strlit("\n");
            }
            out.append("\n");
            proof {
                assert(out@ =~= rank_start + out@.skip(rank_start.len() as int));
                assert(out@.skip(rank_start.len() as int) =~= spec_grid_rank(*self, r as int, 0));
                if r > 0 {
                    assert(spec_grid(*self, 7) =~= out@ + spec_grid(*self, r as int - 1));
                } else {
                    assert(out@ =~= spec_grid(*self, 7));
                }
            }
            ri = ri + 1;
        }
        out
    }
}

/// How many entries among the first `n` hold the king of color `c`.
pub open spec fn spec_count_kings(occ: Seq<Option<(Color, Piece)>>, c: Color, n: int) -> nat
    decreases n,
{
    if n <= 0 {
        0
    } else {
        spec_count_kings(occ, c, n - 1) + if occ[n - 1] == Some((c, Piece::King)) {
            1nat
        } else {
            0nat
        }
    }
}

/// A king present below `n` makes the count positive.
proof fn lemma_count_pos(occ: Seq<Option<(Color, Piece)>>, c: Color, n: int, i: int)
    requires
        0 <= i < n,
        occ[i] == Some((c, Piece::King)),
    ensures
        spec_count_kings(occ, c, n) >= 1,
    decreases n,
{
    if i < n - 1 {
        lemma_count_pos(occ, c, n - 1, i);
    }
}

/// A count of one admits only one king entry below `n`.
proof fn lemma_count_unique(occ: Seq<Option<(Color, Piece)>>, c: Color, n: int, i: int, j: int)
    requires
        0 <= i < n,
        0 <= j < n,
        occ[i] == Some((c, Piece::King)),
        occ[j] == Some((c, Piece::King)),
        spec_count_kings(occ, c, n) == 1,
    ensures
        i == j,
    decreases n,
{
    if i == n - 1 && j == n - 1 {
    } else if i < n - 1 && j < n - 1 {
        lemma_count_pos(occ, c, n - 1, if i >= j { i } else { j });
        lemma_count_unique(occ, c, n - 1, i, j);
    } else if i == n - 1 {
        lemma_count_pos(occ, c, n - 1, j);
    } else {
        lemma_count_pos(occ, c, n - 1, i);
    }
}

impl Board {
    /// Count the king entries of one color in a 64-square occupancy list and
    /// report one king index when the count is positive.
    fn count_kings(occ: &Vec<Option<(Color, Piece)>>, c: Color) -> (r: (u8, u8))
        requires
            occ@.len() == 64,
        ensures
            r.0 as nat == spec_count_kings(occ@, c, 64),
            r.0 >= 1 ==> r.1 < 64 && occ@[r.1 as int] == Some((c, Piece::King)),
    {
        let mut cnt: u8 = 0;
        let mut kidx: u8 = 0;
        let mut i: usize = 0;
        while i < 64
            invariant
                i <= 64,
                occ@.len() == 64,
                cnt <= i,
                cnt as nat == spec_count_kings(occ@, c, i as int),
                cnt >= 1 ==> kidx < 64 && occ@[kidx as int] == Some((c, Piece::King)),
            decreases 64 - i,
        {
            let hit = match occ[i] {
                Some((cc, pp)) => cc == c && pp == Piece::King,
                None => false,
            };
            if hit {
                cnt = cnt + 1;
                kidx = i as u8;
            }
            i = i + 1;
        }
        (cnt, kidx)
    }

    /// Parse a FEN record. Success and the resulting board are fixed by the
    /// spec-level parse: a structural violation of the six-field grammar is
    /// rejected with a FEN-invalid error carrying the text; a structurally
    /// valid record describing an inconsistent position (a side without
    /// exactly one king) is rejected with a board-setup error. A parsed
    /// position is well formed.
    #[verifier::rlimit(100)]
    pub fn from_fen(s: &str) -> (r: Result<Board, ChessError>)
        ensures
            r is Ok <==> spec_fen_board(s@) is Some,
            r matches Ok(b) ==> spec_fen_board(s@) == Some(b) && b.wf(),
            r is Err && spec_fen_fields(s@) is None ==> (r matches Err(e)
                && e matches ChessError::InvalidFen(t) && t@ == s@),
            r is Err && spec_fen_fields(s@) is Some ==> (r matches Err(e)
                && e matches ChessError::BoardSetup(t) && t@ == s@),
    {
        let len = s.unicode_len();
        let ghost ssp = spec_spaces(s@, s@.len() as int);
        let mut sp: Vec<usize> = Vec::new();
        let mut i: usize = 0;
        proof {
            assert(sp@.map_values(|u: usize| u as int) =~= spec_spaces(s@, 0));
        }
        while i < len
            invariant
                i <= len,
                len == s@.len(),
                forall|a: int| 0 <= a < sp@.len() ==> #[trigger] sp@[a] < i,
                forall|a: int, b2: int| 0 <= a < b2 < sp@.len() ==> sp@[a] < sp@[b2],
                sp@.map_values(|u: usize| u as int) == spec_spaces(s@, i as int),
            decreases len - i,
        {
            let ghost oldm = sp@.map_values(|u: usize| u as int);
            if s.get_char(i) == ' ' {
                sp.push(i);
                proof {
                    assert(sp@.map_values(|u: usize| u as int) =~= oldm + seq![i as int]);
                    assert(spec_spaces(s@, i as int + 1) =~= oldm + seq![i as int]);
                }
            } else {
                proof {
                    assert(spec_spaces(s@, i as int + 1) =~= oldm);
                }
            }
            i = i + 1;
        }
        if sp.len() != 5 {
            proof {
                assert(ssp.len() != 5);
            }
            return Err(ChessError::InvalidFen(s.to_owned()));
        }
        let p0 = *sp.get(0).unwrap();
        let p1 = *sp.get(1).unwrap();
        let p2 = *sp.get(2).unwrap();
        let p3 = *sp.get(3).unwrap();
        let p4 = *sp.get(4).unwrap();
        proof {
            assert(p0 as int == ssp[0] && p1 as int == ssp[1] && p2 as int == ssp[2] && p3 as int
                == ssp[3] && p4 as int == ssp[4]);
        }
        let f_placement = s.substring_char(0, p0);
        let f_side = s.substring_char(p0 + 1, p1);
        let f_rights = s.substring_char(p1 + 1, p2);
        let f_ep = s.substring_char(p2 + 1, p3);
        let f_half = s.substring_char(p3 + 1, p4);
        let f_full = s.substring_char(p4 + 1, len);

        // Piece placement: eight ranks from rank 8 down, digits as runs of
        // empty squares.
        let mut occ: Vec<Option<(Color, Piece)>> = Vec::new();
        while occ.len() < 64
            invariant
                occ@.len() <= 64,
                forall|k: int| 0 <= k < occ@.len() ==> #[trigger] occ@[k] is None,
            decreases 64 - occ@.len(),
        {
            occ.push(None);
        }
        proof {
            assert(occ@ =~= spec_empty_occ());
        }
        let plen = f_placement.unicode_len();
        let mut r8: u8 = 7;
        let mut file: u8 = 0;
        let mut pi: usize = 0;
        proof {
            assert(f_placement@.subrange(0, plen as int) =~= f_placement@);
        }
        while pi < plen
            invariant
                pi <= plen,
                plen == f_placement@.len(),
                occ@.len() == 64,
                r8 <= 7,
                file <= 8,
                spec_spaces(s@, s@.len() as int).len() == 5,
                f_placement@ == s@.subrange(0, spec_spaces(s@, s@.len() as int)[0]),
                spec_place_parse(f_placement@) == spec_place_fold(
                    f_placement@.subrange(pi as int, plen as int),
                    occ@,
                    r8 as int,
                    file as int,
                ),
            decreases plen - pi,
        {
            let ghost rest = f_placement@.subrange(pi as int, plen as int);
            proof {
                assert(rest[0] == f_placement@[pi as int]);
                assert(rest.subrange(1, rest.len() as int) =~= f_placement@.subrange(
                    pi as int + 1,
                    plen as int,
                ));
            }
            let ch = f_placement.get_char(pi);
            if ch == '/' {
                if file != 8 || r8 == 0 {
                    proof {
                        assert(spec_place_parse(f_placement@) is None);
                        assert(spec_fen_fields(s@) is None);
                    }
                    return Err(ChessError::InvalidFen(s.to_owned()));
                }
                r8 = r8 - 1;
                file = 0;
            } else {
                match run_value(ch) {
                    Some(d) => {
                        if file + d > 8 {
                            proof {
                                assert(spec_place_parse(f_placement@) is None);
                                assert(spec_fen_fields(s@) is None);
                            }
                            return Err(ChessError::InvalidFen(s.to_owned()));
                        }
                        file = file + d;
                    },
                    None => {
                        match colored_piece_of_char(ch) {
                            Some((c, p)) => {
                                if file >= 8 {
                                    proof {
                                        assert(spec_place_parse(f_placement@) is None);
                                        assert(spec_fen_fields(s@) is None);
                                    }
                                    return Err(ChessError::InvalidFen(s.to_owned()));
                                }
                                occ.set((r8 * 8 + file) as usize, Some((c, p)));
                                file = file + 1;
                            },
                            None => {
                                proof {
                                    assert(spec_place_parse(f_placement@) is None);
                                    assert(spec_fen_fields(s@) is None);
                                }
                                return Err(ChessError::InvalidFen(s.to_owned()));
                            },
                        }
                    },
                }
            }
            pi = pi + 1;
        }
        proof {
            assert(f_placement@.subrange(plen as int, plen as int) =~= Seq::<char>::empty());
        }
        if r8 != 0 || file != 8 {
            proof {
                assert(spec_place_parse(f_placement@) is None);
                assert(spec_fen_fields(s@) is None);
            }
            return Err(ChessError::InvalidFen(s.to_owned()));
        }
        proof {
            assert(spec_place_parse(f_placement@) == Some(occ@));
        }

        // Side to move, castling availability, en-passant target, clocks.
        let side = match Color::try_from_str(f_side) {
            Ok(c) => c,
            Err(_) => {
                proof {
                    assert(spec_fen_fields(s@) is None);
                }
                return Err(ChessError::InvalidFen(s.to_owned()));
            },
        };
        let rights = match CastlingRights::try_from_str(f_rights) {
            Ok(cr) => cr,
            Err(_) => {
                proof {
                    assert(spec_fen_fields(s@) is None);
                }
                return Err(ChessError::InvalidFen(s.to_owned()));
            },
        };
        let ep: Option<Square> = if f_ep.unicode_len() == 1 && f_ep.get_char(0) == '-' {
            proof {
                assert(f_ep@ =~= seq!['-']);
            }
            None
        } else {
            proof {
                assert(!(f_ep@ =~= seq!['-']));
            }
            match Square::try_from_str(f_ep) {
                Ok(sq) => Some(sq),
                Err(_) => {
                    proof {
                        assert(spec_fen_fields(s@) is None);
                    }
                    return Err(ChessError::InvalidFen(s.to_owned()));
                },
            }
        };
        proof {
            assert(spec_parse_ep(f_ep@) == Some(ep));
        }
        let halfmove = match parse_num(f_half) {
            Some(n) => n,
            None => {
                proof {
                    assert(spec_fen_fields(s@) is None);
                }
                return Err(ChessError::InvalidFen(s.to_owned()));
            },
        };
        let fullmove = match parse_num(f_full) {
            Some(n) => n,
            None => {
                proof {
                    assert(spec_fen_fields(s@) is None);
                }
                return Err(ChessError::InvalidFen(s.to_owned()));
            },
        };
        if fullmove == 0 {
            proof {
                assert(spec_fen_fields(s@) is None);
            }
            return Err(ChessError::InvalidFen(s.to_owned()));
        }
        proof {
            assert(spec_fen_fields(s@) == Some((occ@, side, rights, ep, halfmove, fullmove)));
        }

        // Setup consistency: exactly one king bit of each color.
        let (wk_count, wk_idx) = Board::count_kings(&occ, Color::White);
        let (bk_count, bk_idx) = Board::count_kings(&occ, Color::Black);
        if wk_count != 1 || bk_count != 1 {
            proof {
                assert(spec_fen_board(s@) is None);
            }
            return Err(ChessError::BoardSetup(s.to_owned()));
        }

        // Raise the occupancy list into the twelve bitboards.
        let mut bd = Board {
            white_pawns: Bitboard::empty(),
            white_knights: Bitboard::empty(),
            white_bishops: Bitboard::empty(),
            white_rooks: Bitboard::empty(),
            white_queens: Bitboard::empty(),
            white_kings: Bitboard::empty(),
            black_pawns: Bitboard::empty(),
            black_knights: Bitboard::empty(),
            black_bishops: Bitboard::empty(),
            black_rooks: Bitboard::empty(),
            black_queens: Bitboard::empty(),
            black_kings: Bitboard::empty(),
            side_to_move: side,
            castling_rights: rights,
            en_passant: ep,
            halfmove_clock: halfmove,
            fullmove_number: fullmove,
        };
        let ghost bd0 = bd;
        proof {
            assert(bd0 == spec_base_board(side, rights, ep, halfmove, fullmove));
        }
        let mut bi: usize = 0;
        while bi < 64
            invariant
                bi <= 64,
                occ@.len() == 64,
                forall|c2: Color, pp2: Piece, j: int|
                    0 <= j < bi ==> (#[trigger] bd.spec_has_piece(c2, pp2, j) <==> occ@[j] == Some(
                        (c2, pp2),
                    )),
                forall|c2: Color, pp2: Piece, j: int|
                    bi <= j < 64 ==> !(#[trigger] bd.spec_has_piece(c2, pp2, j)),
                bd.side_to_move == side,
                bd.castling_rights == rights,
                bd.en_passant == ep,
                bd.halfmove_clock == halfmove,
                bd.fullmove_number == fullmove,
                spec_fill(occ@, 0, bd0) == spec_fill(occ@, bi as int, bd),
            decreases 64 - bi,
        {
            broadcast use crate::movegen::lemma_with_bb_bb;

            let ghost oldbd = bd;
            match occ[bi] {
                Some((c, p)) => {
                    bd = bd.with_bb(c, p, bd.bb(c, p).insert(bi as u8));
                    proof {
                        assert(bd == spec_fill_step(oldbd, occ@[bi as int], bi as int));
                        assert forall|c2: Color, pp2: Piece, j: int|
                            #[trigger] bd.spec_has_piece(c2, pp2, j) <==> (oldbd.spec_has_piece(
                            c2,
                            pp2,
                            j,
                        ) || (c2 == c && pp2 == p && j == bi)) by {
                            assert(bd.spec_bb(c2, pp2) == if c2 == c && pp2 == p {
                                oldbd.spec_bb(c, p).spec_insert(bi as int)
                            } else {
                                oldbd.spec_bb(c2, pp2)
                            });
                        }
                    }
                },
                None => {
                    proof {
                        assert(bd == spec_fill_step(oldbd, occ@[bi as int], bi as int));
                    }
                },
            }
            bi = bi + 1;
        }
        proof {
            broadcast use crate::movegen::lemma_with_bb_bb;

            assert(spec_fill(occ@, 64, bd) == bd);
            assert(spec_fen_board(s@) == Some(bd));
            assert forall|c1: Color, p1: Piece, j: int| #[trigger] bd.spec_has_piece(c1, p1, j)
                implies bd.spec_piece_at(j) == Some((c1, p1)) by {
                assert(occ@[j] == Some((c1, p1)));
                assert forall|c2: Color, pp2: Piece| #[trigger] bd.spec_has_piece(c2, pp2, j)
                    implies c2 == c1 && pp2 == p1 by {
                    assert(occ@[j] == Some((c2, pp2)));
                }
            }
            assert(bd.spec_has_piece(Color::White, Piece::King, wk_idx as int));
            assert forall|j: int| #[trigger] bd.spec_has_piece(Color::White, Piece::King, j)
                implies j == wk_idx as int by {
                lemma_count_unique(occ@, Color::White, 64, j, wk_idx as int);
            }
            assert(bd.spec_one_king(Color::White));
            assert(bd.spec_has_piece(Color::Black, Piece::King, bk_idx as int));
            assert forall|j: int| #[trigger] bd.spec_has_piece(Color::Black, Piece::King, j)
                implies j == bk_idx as int by {
                lemma_count_unique(occ@, Color::Black, 64, j, bk_idx as int);
            }
            assert(bd.spec_one_king(Color::Black));
        }
        Ok(bd)
    }
}
} // verus!
