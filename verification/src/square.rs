use vstd::prelude::*;

use crate::error::ChessError;

verus! {

/// A board square as an index 0..64: bit 0 is a1, bit 7 is h1, bit 63 is h8
/// (little-endian rank-file mapping). The index is `rank * 8 + file`.
#[derive(Clone, Copy, Debug, PartialEq, Eq, PartialOrd, Hash, Structural)]
pub struct Square {
    pub idx: u8,
}

/// The file index (0 = 'a' .. 7 = 'h') a file letter denotes, if any.
pub open spec fn spec_file_of_char(c: char) -> Option<u8> {
    match c {
        'a' => Some(0u8),
        'b' => Some(1u8),
        'c' => Some(2u8),
        'd' => Some(3u8),
        'e' => Some(4u8),
        'f' => Some(5u8),
        'g' => Some(6u8),
        'h' => Some(7u8),
        _ => None,
    }
}

/// The rank index (0 = '1' .. 7 = '8') a rank digit denotes, if any.
pub open spec fn spec_rank_of_char(c: char) -> Option<u8> {
    match c {
        '1' => Some(0u8),
        '2' => Some(1u8),
        '3' => Some(2u8),
        '4' => Some(3u8),
        '5' => Some(4u8),
        '6' => Some(5u8),
        '7' => Some(6u8),
        '8' => Some(7u8),
        _ => None,
    }
}

/// The letter of file `f`.
pub open spec fn spec_file_char(f: int) -> char {
    if f == 0 { 'a' }
    else if f == 1 { 'b' }
    else if f == 2 { 'c' }
    else if f == 3 { 'd' }
    else if f == 4 { 'e' }
    else if f == 5 { 'f' }
    else if f == 6 { 'g' }
    else { 'h' }
}

/// The digit of rank `r`.
pub open spec fn spec_rank_char(r: int) -> char {
    if r == 0 { '1' }
    else if r == 1 { '2' }
    else if r == 2 { '3' }
    else if r == 3 { '4' }
    else if r == 4 { '5' }
    else if r == 5 { '6' }
    else if r == 6 { '7' }
    else { '8' }
}

/// The square index that two-character algebraic text denotes, if any.
pub open spec fn spec_square_of_text(s: Seq<char>) -> Option<u8> {
    if s.len() != 2 {
        None
    } else {
        match (spec_file_of_char(s[0]), spec_rank_of_char(s[1])) {
            (Some(f), Some(r)) => Some((r * 8 + f) as u8),
            _ => None,
        }
    }
}

/// The algebraic name of square index `i`: file letter then rank digit.
pub open spec fn spec_square_name(i: int) -> Seq<char> {
    seq![spec_file_char(i % 8), spec_rank_char(i / 8)]
}

impl View for Square {
    type V = int;

    open spec fn view(&self) -> int {
        self.idx as int
    }
}

impl Square {
    /// A square index is valid when it addresses one of the 64 squares.
    pub open spec fn wf(self) -> bool {
        0 <= self@ < 64
    }

    /// Build a square from an index known to be in range.
    pub fn from_index(index: u8) -> (r: Square)
        requires
            index < 64,
        ensures
            r@ == index as int,
            r.wf(),
    {
        Square { idx: index }
    }

    /// Build a square from an index, rejecting out-of-range values with an
    /// error carrying the index's decimal text.
    pub fn try_from_index(index: u8) -> (r: Result<Square, ChessError>)
        ensures
            r is Ok <==> index < 64,
            r matches Ok(s) ==> s@ == index as int && s.wf(),
            r matches Err(e) ==> (e matches ChessError::UnknownSquare(t) && t@
                == crate::text::spec_num_chars(index as int)),
    {
        if index < 64 {
            Ok(Square { idx: index })
        } else {
            Err(ChessError::UnknownSquare(crate::text::num_to_text(index as u64)))
        }
    }

    /// The square's index, 0..64.
    pub fn index(self) -> (r: u8)
        ensures
            r as int == self@,
    {
        self.idx
    }

    /// The square's rank, 0 (rank 1) .. 7 (rank 8).
    pub fn rank(self) -> (r: u8)
        ensures
            r as int == self@ / 8,
    {
        self.idx / 8
    }

    /// The square's file, 0 (file a) .. 7 (file h).
    pub fn file(self) -> (r: u8)
        ensures
            r as int == self@ % 8,
    {
        self.idx % 8
    }

    /// Parse algebraic text such as "e4", rejecting anything else.
    pub fn try_from_str(s: &str) -> (r: Result<Square, ChessError>)
        ensures
            r is Ok <==> spec_square_of_text(s@) is Some,
            r matches Ok(sq) ==> spec_square_of_text(s@) == Some(sq@ as u8) && sq.wf(),
            r is Err ==> (r matches Err(e) && e matches ChessError::UnknownSquare(t) && t@ == s@),
    {
        let len = s.unicode_len();
        if len != 2 {
            return Err(ChessError::UnknownSquare(s.to_owned()));
        }
        let fc = s.get_char(0);
        let rc = s.get_char(1);
        let f = match file_index_of_char(fc) {
            Some(f) => f,
            None => { return Err(ChessError::UnknownSquare(s.to_owned())); },
        };
        let r = match rank_index_of_char(rc) {
            Some(r) => r,
            None => { return Err(ChessError::UnknownSquare(s.to_owned())); },
        };
        Ok(Square { idx: r * 8 + f })
    }

    /// Parse algebraic text known to be a valid square name.
    pub fn from_str(s: &str) -> (r: Square)
        requires
            spec_square_of_text(s@) is Some,
        ensures
            Some(r@ as u8) == spec_square_of_text(s@),
            r.wf(),
    {
        match Square::try_from_str(s) {
            Ok(sq) => sq,
            // Unreachable: the precondition says the text parses.
            Err(_) => Square { idx: 0 },
        }
    }

    /// The square's algebraic name, file letter then rank digit.
    pub fn to_text(self) -> (r: String)
        requires
            self.wf(),
        ensures
            r@ == spec_square_name(self@),
    {
        let mut out = String::new();
        out.append(file_char_str(self.idx % 8));
        out.append(rank_char_str(self.idx / 8));
        assert(out@ =~= spec_square_name(self@));
        out
    }
}

/// A valid square index's algebraic name parses back to the same index.
pub proof fn lemma_square_name_round_trip(i: int)
    requires
        0 <= i < 64,
    ensures
        spec_square_of_text(spec_square_name(i)) == Some(i as u8),
{
    let f = i % 8;
    let r = i / 8;
    assert(spec_file_of_char(spec_file_char(f)) == Some(f as u8));
    assert(spec_rank_of_char(spec_rank_char(r)) == Some(r as u8));
    assert(r * 8 + f == i);
}

/// File letter of file index `f` as one-character text.
pub(crate) fn file_char_str(f: u8) -> (r: &'static str)
    requires
        f < 8,
    ensures
        r@ =~= seq![spec_file_char(f as int)],
{
    proof {
        reveal_strlit("a");
        reveal_strlit("b");
        reveal_strlit("c");
        reveal_strlit("d");
        reveal_strlit("e");
        reveal_strlit("f");
        reveal_strlit("g");
        reveal_strlit("h");
    }
    match f {
        0 => "a",
        1 => "b",
        2 => "c",
        3 => "d",
        4 => "e",
        5 => "f",
        6 => "g",
        _ => "h",
    }
}

/// Rank digit of rank index `r` as one-character text.
pub(crate) fn rank_char_str(rk: u8) -> (r: &'static str)
    requires
        rk < 8,
    ensures
        r@ =~= seq![spec_rank_char(rk as int)],
{
    proof {
        reveal_strlit("1");
        reveal_strlit("2");
        reveal_strlit("3");
        reveal_strlit("4");
        reveal_strlit("5");
        reveal_strlit("6");
        reveal_strlit("7");
        reveal_strlit("8");
    }
    match rk {
        0 => "1",
        1 => "2",
        2 => "3",
        3 => "4",
        4 => "5",
        5 => "6",
        6 => "7",
        _ => "8",
    }
}

/// File index a file letter denotes.
pub(crate) fn file_index_of_char(c: char) -> (r: Option<u8>)
    ensures
        r == spec_file_of_char(c),
{
    match c {
        'a' => Some(0),
        'b' => Some(1),
        'c' => Some(2),
        'd' => Some(3),
        'e' => Some(4),
        'f' => Some(5),
        'g' => Some(6),
        'h' => Some(7),
        _ => None,
    }
}

/// Rank index a rank digit denotes.
pub(crate) fn rank_index_of_char(c: char) -> (r: Option<u8>)
    ensures
        r == spec_rank_of_char(c),
{
    match c {
        '1' => Some(0),
        '2' => Some(1),
        '3' => Some(2),
        '4' => Some(3),
        '5' => Some(4),
        '6' => Some(5),
        '7' => Some(6),
        '8' => Some(7),
        _ => None,
    }
}

} // verus!
