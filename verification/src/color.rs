use vstd::prelude::*;

use crate::error::ChessError;

verus! {

/// The two sides.
#[derive(Clone, Copy, Debug, PartialEq, Eq, Hash, Structural)]
pub enum Color {
    White,
    Black,
}

/// The letter of a color in FEN's side-to-move field.
pub open spec fn spec_color_char(c: Color) -> char {
    match c {
        Color::White => 'w',
        Color::Black => 'b',
    }
}

/// The color one-character text denotes, if any.
pub open spec fn spec_color_of_text(s: Seq<char>) -> Option<Color> {
    if s =~= seq!['w'] {
        Some(Color::White)
    } else if s =~= seq!['b'] {
        Some(Color::Black)
    } else {
        None
    }
}

impl Color {
    /// The other side.
    pub open spec fn spec_opposite(self) -> Color {
        match self {
            Color::White => Color::Black,
            Color::Black => Color::White,
        }
    }

    /// The other side.
    pub fn opposite(self) -> (r: Color)
        ensures
            r == self.spec_opposite(),
    {
        match self {
            Color::White => Color::Black,
            Color::Black => Color::White,
        }
    }

    /// Parse a side-to-move letter, rejecting anything but "w" and "b".
    pub fn try_from_str(s: &str) -> (r: Result<Color, ChessError>)
        ensures
            r is Ok <==> spec_color_of_text(s@) is Some,
            r matches Ok(c) ==> spec_color_of_text(s@) == Some(c),
            r is Err ==> (r matches Err(e) && e matches ChessError::UnknownColor(t) && t@ == s@),
    {
        let len = s.unicode_len();
        if len != 1 {
            return Err(ChessError::UnknownColor(s.to_owned()));
        }
        let c = s.get_char(0);
        if c == 'w' {
            assert(s@ =~= seq!['w']);
            Ok(Color::White)
        } else if c == 'b' {
            assert(s@ =~= seq!['b']);
            Ok(Color::Black)
        } else {
            assert(spec_color_of_text(s@) is None);
            Err(ChessError::UnknownColor(s.to_owned()))
        }
    }

    /// The side's letter as text.
    pub fn to_text(self) -> (r: String)
        ensures
            r@ =~= seq![spec_color_char(self)],
    {
        proof {
            reveal_strlit("w");
            reveal_strlit("b");
        }
        match self {
            Color::White => String::from_str("w"),
            Color::Black => String::from_str("b"),
        }
    }
}

/// Round trip of the side-to-move text: rendering either color and parsing
/// the rendered letter yields the same color.
pub proof fn lemma_color_text_round_trip(c: Color)
    ensures
        spec_color_of_text(seq![spec_color_char(c)]) == Some(c),
{
    match c {
        Color::White => {
            assert(seq![spec_color_char(c)] =~= seq!['w']);
        },
        Color::Black => {
            assert(seq![spec_color_char(c)] =~= seq!['b']);
            assert(seq!['b'][0] == 'b' && seq!['w'][0] == 'w');
            assert(!(seq!['b'] =~= seq!['w']));
        },
    }
}

} // verus!
