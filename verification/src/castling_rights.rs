use vstd::prelude::*;

use crate::error::ChessError;

verus! {

/// The four castling availabilities, a subset of
/// {white kingside, white queenside, black kingside, black queenside}.
#[derive(Clone, Copy, Debug, PartialEq, Eq, Hash, Structural)]
pub struct CastlingRights {
    pub white_kingside: bool,
    pub white_queenside: bool,
    pub black_kingside: bool,
    pub black_queenside: bool,
}

/// The FEN text of a rights set: "KQkq" letters for the held rights in that
/// order, or "-" when none is held.
pub open spec fn spec_castling_text(cr: CastlingRights) -> Seq<char> {
    if cr == CastlingRights::spec_none() {
        seq!['-']
    } else {
        (if cr.white_kingside { seq!['K'] } else { Seq::<char>::empty() })
        + (if cr.white_queenside { seq!['Q'] } else { Seq::<char>::empty() })
        + (if cr.black_kingside { seq!['k'] } else { Seq::<char>::empty() })
        + (if cr.black_queenside { seq!['q'] } else { Seq::<char>::empty() })
    }
}

/// Folds castling letters left to right into an accumulated rights set;
/// `None` on the first unrecognized letter.
pub open spec fn spec_castling_fold(s: Seq<char>, acc: CastlingRights) -> Option<CastlingRights>
    decreases s.len(),
{
    if s.len() == 0 {
        Some(acc)
    } else {
        match s[0] {
            'K' => spec_castling_fold(s.subrange(1, s.len() as int), CastlingRights { white_kingside: true, ..acc }),
            'Q' => spec_castling_fold(s.subrange(1, s.len() as int), CastlingRights { white_queenside: true, ..acc }),
            'k' => spec_castling_fold(s.subrange(1, s.len() as int), CastlingRights { black_kingside: true, ..acc }),
            'q' => spec_castling_fold(s.subrange(1, s.len() as int), CastlingRights { black_queenside: true, ..acc }),
            _ => None,
        }
    }
}

/// The rights set a FEN castling field denotes: "-" for the empty set, else
/// a non-empty sequence of "KQkq" letters.
pub open spec fn spec_castling_of_text(s: Seq<char>) -> Option<CastlingRights> {
    if s =~= seq!['-'] {
        Some(CastlingRights::spec_none())
    } else if s.len() == 0 {
        None
    } else {
        spec_castling_fold(s, CastlingRights::spec_none())
    }
}

impl CastlingRights {
    /// The empty set of rights.
    pub open spec fn spec_none() -> CastlingRights {
        CastlingRights {
            white_kingside: false,
            white_queenside: false,
            black_kingside: false,
            black_queenside: false,
        }
    }

    /// The full set of rights.
    pub open spec fn spec_all() -> CastlingRights {
        CastlingRights {
            white_kingside: true,
            white_queenside: true,
            black_kingside: true,
            black_queenside: true,
        }
    }

    /// The empty set of rights.
    pub fn none() -> (r: CastlingRights)
        ensures
            r == CastlingRights::spec_none(),
    {
        CastlingRights {
            white_kingside: false,
            white_queenside: false,
            black_kingside: false,
            black_queenside: false,
        }
    }

    /// The full set of rights.
    pub fn all() -> (r: CastlingRights)
        ensures
            r == CastlingRights::spec_all(),
    {
        CastlingRights {
            white_kingside: true,
            white_queenside: true,
            black_kingside: true,
            black_queenside: true,
        }
    }

    /// Parse a FEN castling-availability field.
    pub fn try_from_str(s: &str) -> (r: Result<CastlingRights, ChessError>)
        ensures
            r is Ok <==> spec_castling_of_text(s@) is Some,
            r matches Ok(cr) ==> spec_castling_of_text(s@) == Some(cr),
            r is Err ==> (r matches Err(e) && e matches ChessError::UnknownCastlingRights(t) && t@ == s@),
    {
        let len = s.unicode_len();
        if len == 1 && s.get_char(0) == '-' {
            assert(s@ =~= seq!['-']);
            return Ok(CastlingRights::none());
        }
        proof {
            assert(!(s@ =~= seq!['-']));
        }
        if len == 0 {
            return Err(ChessError::UnknownCastlingRights(s.to_owned()));
        }
        let mut acc = CastlingRights::none();
        let mut i: usize = 0;
        proof {
            assert(s@.subrange(0, len as int) =~= s@);
        }
        while i < len
            invariant
                i <= len,
                len == s@.len(),
                len >= 1,
                !(s@ =~= seq!['-']),
                spec_castling_fold(s@, CastlingRights::spec_none())
                    == spec_castling_fold(s@.subrange(i as int, len as int), acc),
            decreases len - i,
        {
            let c = s.get_char(i);
            let ghost rest = s@.subrange(i as int, len as int);
            proof {
                assert(rest[0] == s@[i as int]);
                assert(rest.subrange(1, rest.len() as int)
                    =~= s@.subrange(i as int + 1, len as int));
            }
            match c {
                'K' => { acc = CastlingRights { white_kingside: true, ..acc }; },
                'Q' => { acc = CastlingRights { white_queenside: true, ..acc }; },
                'k' => { acc = CastlingRights { black_kingside: true, ..acc }; },
                'q' => { acc = CastlingRights { black_queenside: true, ..acc }; },
                _ => {
                    proof {
                        assert(rest.len() > 0);
                        assert(spec_castling_fold(rest, acc) is None);
                        assert(spec_castling_of_text(s@) is None);
                    }
                    return Err(ChessError::UnknownCastlingRights(s.to_owned()));
                },
            }
            i = i + 1;
        }
        proof {
            assert(s@.subrange(len as int, len as int) =~= Seq::<char>::empty());
        }
        Ok(acc)
    }

    /// The rights set's FEN text.
    pub fn to_text(self) -> (r: String)
        ensures
            r@ =~= spec_castling_text(self),
    {
        proof {
            reveal_strlit("-");
            reveal_strlit("K");
            reveal_strlit("Q");
            reveal_strlit("k");
            reveal_strlit("q");
        }
        if !self.white_kingside && !self.white_queenside && !self.black_kingside
            && !self.black_queenside {
            return String::from_str("-");
        }
        let mut out = String::new();
        if self.white_kingside {
            out.append("K");
        }
        if self.white_queenside {
            out.append("Q");
        }
        if self.black_kingside {
            out.append("k");
        }
        if self.black_queenside {
            out.append("q");
        }
        assert(out@ =~= spec_castling_text(self));
        out
    }
}

/// Round trip of the castling-rights text: rendering any rights set and
/// parsing the rendered text yields the same set. One field of the FEN
/// record, proved for every value.
pub proof fn lemma_castling_text_round_trip(cr: CastlingRights)
    ensures
        spec_castling_of_text(spec_castling_text(cr)) == Some(cr),
{
    reveal_with_fuel(spec_castling_fold, 6);
    let s = spec_castling_text(cr);
    if cr == CastlingRights::spec_none() {
        assert(s =~= seq!['-']);
    } else {
        if cr.white_kingside && cr.white_queenside && cr.black_kingside && cr.black_queenside {
            assert(s =~= seq!['K', 'Q', 'k', 'q']);
            assert(!(s =~= seq!['-']));
            assert(spec_castling_fold(s, CastlingRights::spec_none()) == Some(cr));
        } else if cr.white_kingside && cr.white_queenside && cr.black_kingside && !cr.black_queenside {
            assert(s =~= seq!['K', 'Q', 'k']);
            assert(!(s =~= seq!['-']));
            assert(spec_castling_fold(s, CastlingRights::spec_none()) == Some(cr));
        } else if cr.white_kingside && cr.white_queenside && !cr.black_kingside && cr.black_queenside {
            assert(s =~= seq!['K', 'Q', 'q']);
            assert(!(s =~= seq!['-']));
            assert(spec_castling_fold(s, CastlingRights::spec_none()) == Some(cr));
        } else if cr.white_kingside && cr.white_queenside && !cr.black_kingside && !cr.black_queenside {
            assert(s =~= seq!['K', 'Q']);
            assert(!(s =~= seq!['-']));
            assert(spec_castling_fold(s, CastlingRights::spec_none()) == Some(cr));
        } else if cr.white_kingside && !cr.white_queenside && cr.black_kingside && cr.black_queenside {
            assert(s =~= seq!['K', 'k', 'q']);
            assert(!(s =~= seq!['-']));
            assert(spec_castling_fold(s, CastlingRights::spec_none()) == Some(cr));
        } else if cr.white_kingside && !cr.white_queenside && cr.black_kingside && !cr.black_queenside {
            assert(s =~= seq!['K', 'k']);
            assert(!(s =~= seq!['-']));
            assert(spec_castling_fold(s, CastlingRights::spec_none()) == Some(cr));
        } else if cr.white_kingside && !cr.white_queenside && !cr.black_kingside && cr.black_queenside {
            assert(s =~= seq!['K', 'q']);
            assert(!(s =~= seq!['-']));
            assert(spec_castling_fold(s, CastlingRights::spec_none()) == Some(cr));
        } else if cr.white_kingside && !cr.white_queenside && !cr.black_kingside && !cr.black_queenside {
            assert(s =~= seq!['K']);
            assert(!(s =~= seq!['-']));
            assert(spec_castling_fold(s, CastlingRights::spec_none()) == Some(cr));
        } else if !cr.white_kingside && cr.white_queenside && cr.black_kingside && cr.black_queenside {
            assert(s =~= seq!['Q', 'k', 'q']);
            assert(!(s =~= seq!['-']));
            assert(spec_castling_fold(s, CastlingRights::spec_none()) == Some(cr));
        } else if !cr.white_kingside && cr.white_queenside && cr.black_kingside && !cr.black_queenside {
            assert(s =~= seq!['Q', 'k']);
            assert(!(s =~= seq!['-']));
            assert(spec_castling_fold(s, CastlingRights::spec_none()) == Some(cr));
        } else if !cr.white_kingside && cr.white_queenside && !cr.black_kingside && cr.black_queenside {
            assert(s =~= seq!['Q', 'q']);
            assert(!(s =~= seq!['-']));
            assert(spec_castling_fold(s, CastlingRights::spec_none()) == Some(cr));
        } else if !cr.white_kingside && cr.white_queenside && !cr.black_kingside && !cr.black_queenside {
            assert(s =~= seq!['Q']);
            assert(!(s =~= seq!['-']));
            assert(spec_castling_fold(s, CastlingRights::spec_none()) == Some(cr));
        } else if !cr.white_kingside && !cr.white_queenside && cr.black_kingside && cr.black_queenside {
            assert(s =~= seq!['k', 'q']);
            assert(!(s =~= seq!['-']));
            assert(spec_castling_fold(s, CastlingRights::spec_none()) == Some(cr));
        } else if !cr.white_kingside && !cr.white_queenside && cr.black_kingside && !cr.black_queenside {
            assert(s =~= seq!['k']);
            assert(!(s =~= seq!['-']));
            assert(spec_castling_fold(s, CastlingRights::spec_none()) == Some(cr));
        } else if !cr.white_kingside && !cr.white_queenside && !cr.black_kingside && cr.black_queenside {
            assert(s =~= seq!['q']);
            assert(!(s =~= seq!['-']));
            assert(spec_castling_fold(s, CastlingRights::spec_none()) == Some(cr));
        }
    }
}

} // verus!
