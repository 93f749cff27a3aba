use vstd::prelude::*;

verus! {

/// A 64-bit set of squares: bit `i` stands for square index `i` (bit 0 = a1,
/// bit 63 = h8).
#[derive(Clone, Copy, Debug, PartialEq, Eq, Hash, Structural)]
pub struct Bitboard(pub u64);

impl Bitboard {
    /// Square `i` is in the set.
    pub open spec fn spec_has(self, i: int) -> bool {
        0 <= i < 64 && (self.0 >> (i as u64)) & 1u64 == 1u64
    }

    /// The empty set.
    pub open spec fn spec_empty() -> Bitboard {
        Bitboard(0u64)
    }

    /// The set with square `i` added.
    pub open spec fn spec_insert(self, i: int) -> Bitboard {
        Bitboard(self.0 | (1u64 << (i as u64)))
    }

    /// The set with square `i` removed.
    pub open spec fn spec_remove(self, i: int) -> Bitboard {
        Bitboard(self.0 & !(1u64 << (i as u64)))
    }

    /// How many of the squares below `n` are in the set.
    pub open spec fn spec_count_below(self, n: int) -> nat
        decreases n,
    {
        if n <= 0 {
            0
        } else {
            self.spec_count_below(n - 1) + if self.spec_has(n - 1) { 1nat } else { 0nat }
        }
    }

    /// The empty set.
    pub fn empty() -> (r: Bitboard)
        ensures
            r == Bitboard::spec_empty(),
    {
        Bitboard(0)
    }

    /// Test a square.
    pub fn get(self, sq: u8) -> (r: bool)
        requires
            sq < 64,
        ensures
            r == self.spec_has(sq as int),
    {
        (self.0 >> (sq as u64)) & 1 == 1
    }

    /// Set a square.
    pub fn insert(self, sq: u8) -> (r: Bitboard)
        requires
            sq < 64,
        ensures
            r == self.spec_insert(sq as int),
    {
        Bitboard(self.0 | (1u64 << (sq as u64)))
    }

    /// Clear a square.
    pub fn remove(self, sq: u8) -> (r: Bitboard)
        requires
            sq < 64,
        ensures
            r == self.spec_remove(sq as int),
    {
        Bitboard(self.0 & !(1u64 << (sq as u64)))
    }

    /// Union of two sets.
    pub fn union(self, other: Bitboard) -> (r: Bitboard)
        ensures
            r == Bitboard(self.0 | other.0),
            forall|j: int| r.spec_has(j) <==> (self.spec_has(j) || other.spec_has(j)),
    {
        proof {
            lemma_bb_or(self, other);
        }
        Bitboard(self.0 | other.0)
    }

    /// Intersection of two sets.
    pub fn intersect(self, other: Bitboard) -> (r: Bitboard)
        ensures
            r == Bitboard(self.0 & other.0),
            forall|j: int| r.spec_has(j) <==> (self.spec_has(j) && other.spec_has(j)),
    {
        proof {
            lemma_bb_and(self, other);
        }
        Bitboard(self.0 & other.0)
    }

    /// Difference: the squares of `self` not in `other`.
    pub fn difference(self, other: Bitboard) -> (r: Bitboard)
        ensures
            r == Bitboard(self.0 & !other.0),
            forall|j: int| r.spec_has(j) <==> (self.spec_has(j) && !other.spec_has(j)),
    {
        proof {
            lemma_bb_diff(self, other);
        }
        Bitboard(self.0 & !other.0)
    }

    /// Complement within the 64 squares.
    pub fn complement(self) -> (r: Bitboard)
        ensures
            r == Bitboard(!self.0),
            forall|j: int| 0 <= j < 64 ==> (r.spec_has(j) <==> !self.spec_has(j)),
    {
        proof {
            lemma_bb_not(self);
        }
        Bitboard(!self.0)
    }

    /// Population count: how many squares are in the set.
    pub fn count(self) -> (r: u8)
        ensures
            r as nat == self.spec_count_below(64),
            r <= 64,
    {
        let mut n: u8 = 0;
        let mut i: u8 = 0;
        while i < 64
            invariant
                i <= 64,
                n as nat == self.spec_count_below(i as int),
                n <= i,
            decreases 64 - i,
        {
            if self.get(i) {
                n = n + 1;
            }
            i = i + 1;
        }
        n
    }

    /// The lowest square of the set, if any.
    pub fn lowest(self) -> (r: Option<u8>)
        ensures
            r matches Some(i) ==> i < 64 && self.spec_has(i as int)
                && (forall|j: int| 0 <= j < i ==> !self.spec_has(j)),
            r is None ==> forall|j: int| !self.spec_has(j),
    {
        let mut i: u8 = 0;
        while i < 64
            invariant
                i <= 64,
                forall|j: int| 0 <= j < i ==> !self.spec_has(j),
            decreases 64 - i,
        {
            if self.get(i) {
                return Some(i);
            }
            i = i + 1;
        }
        None
    }
}

impl Bitboard {
    /// Shift every square one rank north (a1 moves to a2); rank 8 drops out.
    pub fn shift_north(self) -> (r: Bitboard)
        ensures
            forall|j: int| 0 <= j < 64 ==> (r.spec_has(j) <==> self.spec_has(j - 8)),
    {
        let x = self.0;
        let r = Bitboard(x << 8);
        proof {
            assert(forall|jj: u64|
                jj < 64 ==> (((x << 8u64) >> jj) & 1u64 == 1u64 <==> (jj >= 8 && (x >> ((jj - 8) as u64))
                    & 1u64 == 1u64))) by (bit_vector);
            assert forall|j: int| 0 <= j < 64 implies (r.spec_has(j) <==> self.spec_has(j - 8)) by {
                let jj = j as u64;
                if j >= 8 {
                    assert((j - 8) as u64 == jj - 8);
                }
            }
        }
        r
    }

    /// Shift every square one rank south (a2 moves to a1); rank 1 drops out.
    pub fn shift_south(self) -> (r: Bitboard)
        ensures
            forall|j: int| 0 <= j < 64 ==> (r.spec_has(j) <==> self.spec_has(j + 8)),
    {
        let x = self.0;
        let r = Bitboard(x >> 8);
        proof {
            assert(forall|jj: u64|
                jj < 64 ==> (((x >> 8u64) >> jj) & 1u64 == 1u64 <==> (jj < 56 && (x >> ((jj + 8) as u64))
                    & 1u64 == 1u64))) by (bit_vector);
            assert forall|j: int| 0 <= j < 64 implies (r.spec_has(j) <==> self.spec_has(j + 8)) by {
                let jj = j as u64;
                assert((j + 8) as u64 == jj + 8);
            }
        }
        r
    }

    /// Shift every square one file east (a1 moves to b1), clearing the h-file
    /// first so nothing wraps onto the a-file of the next rank.
    pub fn shift_east(self) -> (r: Bitboard)
        ensures
            forall|j: int| 0 <= j < 64 ==> (r.spec_has(j) <==> (j % 8 != 0 && self.spec_has(
                j - 1,
            ))),
    {
        let x = self.0;
        let r = Bitboard((x & 0x7f7f_7f7f_7f7f_7f7fu64) << 1);
        proof {
            assert(forall|jj: u64|
                jj < 64 ==> ((((x & 0x7f7f_7f7f_7f7f_7f7fu64) << 1u64) >> jj) & 1u64 == 1u64 <==> (
                jj % 8 != 0 && (x >> ((jj - 1) as u64)) & 1u64 == 1u64))) by (bit_vector);
            assert forall|j: int| 0 <= j < 64 implies (r.spec_has(j) <==> (j % 8 != 0
                && self.spec_has(j - 1))) by {
                let jj = j as u64;
                assert(j % 8 == (jj % 8) as int);
                if j % 8 != 0 {
                    assert((j - 1) as u64 == jj - 1);
                }
            }
        }
        r
    }

    /// Shift every square one file west (b1 moves to a1), clearing the a-file
    /// first so nothing wraps onto the h-file of the rank below.
    pub fn shift_west(self) -> (r: Bitboard)
        ensures
            forall|j: int| 0 <= j < 64 ==> (r.spec_has(j) <==> (j % 8 != 7 && self.spec_has(
                j + 1,
            ))),
    {
        let x = self.0;
        let r = Bitboard((x & 0xfefe_fefe_fefe_fefeu64) >> 1);
        proof {
            assert(forall|jj: u64|
                jj < 64 ==> ((((x & 0xfefe_fefe_fefe_fefeu64) >> 1u64) >> jj) & 1u64 == 1u64 <==> (
                jj % 8 != 7 && jj < 63 && (x >> ((jj + 1) as u64)) & 1u64 == 1u64))) by (bit_vector);
            assert forall|j: int| 0 <= j < 64 implies (r.spec_has(j) <==> (j % 8 != 7
                && self.spec_has(j + 1))) by {
                let jj = j as u64;
                assert(j % 8 == (jj % 8) as int);
                assert((j + 1) as u64 == jj + 1);
            }
        }
        r
    }

    /// Shift one rank north and one file east, with h-file masking.
    pub fn shift_northeast(self) -> (r: Bitboard)
        ensures
            forall|j: int| 0 <= j < 64 ==> (r.spec_has(j) <==> (j % 8 != 0 && self.spec_has(
                j - 9,
            ))),
    {
        let x = self.0;
        let r = Bitboard((x & 0x7f7f_7f7f_7f7f_7f7fu64) << 9);
        proof {
            assert(forall|jj: u64|
                jj < 64 ==> ((((x & 0x7f7f_7f7f_7f7f_7f7fu64) << 9u64) >> jj) & 1u64 == 1u64 <==> (
                jj % 8 != 0 && jj >= 9 && (x >> ((jj - 9) as u64)) & 1u64 == 1u64))) by (bit_vector);
            assert forall|j: int| 0 <= j < 64 implies (r.spec_has(j) <==> (j % 8 != 0
                && self.spec_has(j - 9))) by {
                let jj = j as u64;
                assert(j % 8 == (jj % 8) as int);
                if j >= 9 {
                    assert((j - 9) as u64 == jj - 9);
                }
            }
        }
        r
    }

    /// Shift one rank north and one file west, with a-file masking.
    pub fn shift_northwest(self) -> (r: Bitboard)
        ensures
            forall|j: int| 0 <= j < 64 ==> (r.spec_has(j) <==> (j % 8 != 7 && self.spec_has(
                j - 7,
            ))),
    {
        let x = self.0;
        let r = Bitboard((x & 0xfefe_fefe_fefe_fefeu64) << 7);
        proof {
            assert(forall|jj: u64|
                jj < 64 ==> ((((x & 0xfefe_fefe_fefe_fefeu64) << 7u64) >> jj) & 1u64 == 1u64 <==> (
                jj % 8 != 7 && jj >= 7 && (x >> ((jj - 7) as u64)) & 1u64 == 1u64))) by (bit_vector);
            assert forall|j: int| 0 <= j < 64 implies (r.spec_has(j) <==> (j % 8 != 7
                && self.spec_has(j - 7))) by {
                let jj = j as u64;
                assert(j % 8 == (jj % 8) as int);
                if j >= 7 {
                    assert((j - 7) as u64 == jj - 7);
                }
            }
        }
        r
    }

    /// Shift one rank south and one file east, with h-file masking.
    pub fn shift_southeast(self) -> (r: Bitboard)
        ensures
            forall|j: int| 0 <= j < 64 ==> (r.spec_has(j) <==> (j % 8 != 0 && self.spec_has(
                j + 7,
            ))),
    {
        let x = self.0;
        let r = Bitboard((x & 0x7f7f_7f7f_7f7f_7f7fu64) >> 7);
        proof {
            assert(forall|jj: u64|
                jj < 64 ==> ((((x & 0x7f7f_7f7f_7f7f_7f7fu64) >> 7u64) >> jj) & 1u64 == 1u64 <==> (
                jj % 8 != 0 && jj < 57 && (x >> ((jj + 7) as u64)) & 1u64 == 1u64))) by (bit_vector);
            assert forall|j: int| 0 <= j < 64 implies (r.spec_has(j) <==> (j % 8 != 0
                && self.spec_has(j + 7))) by {
                let jj = j as u64;
                assert(j % 8 == (jj % 8) as int);
                assert((j + 7) as u64 == jj + 7);
            }
        }
        r
    }

    /// Shift one rank south and one file west, with a-file masking.
    pub fn shift_southwest(self) -> (r: Bitboard)
        ensures
            forall|j: int| 0 <= j < 64 ==> (r.spec_has(j) <==> (j % 8 != 7 && self.spec_has(
                j + 9,
            ))),
    {
        let x = self.0;
        let r = Bitboard((x & 0xfefe_fefe_fefe_fefeu64) >> 9);
        proof {
            assert(forall|jj: u64|
                jj < 64 ==> ((((x & 0xfefe_fefe_fefe_fefeu64) >> 9u64) >> jj) & 1u64 == 1u64 <==> (
                jj % 8 != 7 && jj < 55 && (x >> ((jj + 9) as u64)) & 1u64 == 1u64))) by (bit_vector);
            assert forall|j: int| 0 <= j < 64 implies (r.spec_has(j) <==> (j % 8 != 7
                && self.spec_has(j + 9))) by {
                let jj = j as u64;
                assert(j % 8 == (jj % 8) as int);
                assert((j + 9) as u64 == jj + 9);
            }
        }
        r
    }
}

/// Pointwise meaning of setting a bit.
pub broadcast proof fn lemma_bb_insert(b: Bitboard, i: int, j: int)
    requires
        0 <= i < 64,
    ensures
        #[trigger] b.spec_insert(i).spec_has(j) <==> (b.spec_has(j) || i == j),
{
    if 0 <= j < 64 {
        let x = b.0;
        let ii = i as u64;
        let jj = j as u64;
        assert((x | (1u64 << ii)) >> jj & 1u64 == 1u64 <==> (x >> jj & 1u64 == 1u64 || ii == jj))
            by (bit_vector)
            requires ii < 64 && jj < 64,
        ;
    }
}

/// Pointwise meaning of clearing a bit.
pub broadcast proof fn lemma_bb_remove(b: Bitboard, i: int, j: int)
    requires
        0 <= i < 64,
    ensures
        #[trigger] b.spec_remove(i).spec_has(j) <==> (b.spec_has(j) && i != j),
{
    if 0 <= j < 64 {
        let x = b.0;
        let ii = i as u64;
        let jj = j as u64;
        assert((x & !(1u64 << ii)) >> jj & 1u64 == 1u64 <==> (x >> jj & 1u64 == 1u64 && ii != jj))
            by (bit_vector)
            requires ii < 64 && jj < 64,
        ;
    }
}

/// The empty set holds no square.
pub broadcast proof fn lemma_bb_empty(j: int)
    ensures
        !(#[trigger] Bitboard::spec_empty().spec_has(j)),
{
    if 0 <= j < 64 {
        let jj = j as u64;
        assert(0u64 >> jj & 1u64 == 0u64) by (bit_vector);
    }
}

/// Pointwise meaning of bitwise or.
proof fn lemma_bb_or(a: Bitboard, b: Bitboard)
    ensures
        forall|j: int| Bitboard(a.0 | b.0).spec_has(j) <==> (a.spec_has(j) || b.spec_has(j)),
{
    assert forall|j: int|
        Bitboard(a.0 | b.0).spec_has(j) <==> (a.spec_has(j) || b.spec_has(j)) by {
        if 0 <= j < 64 {
            let jj = j as u64;
            let x = a.0;
            let y = b.0;
            assert((x | y) >> jj & 1u64 == 1u64 <==> (x >> jj & 1u64 == 1u64 || y >> jj & 1u64
                == 1u64)) by (bit_vector)
                requires jj < 64,
            ;
        }
    }
}

/// Pointwise meaning of bitwise and.
proof fn lemma_bb_and(a: Bitboard, b: Bitboard)
    ensures
        forall|j: int| Bitboard(a.0 & b.0).spec_has(j) <==> (a.spec_has(j) && b.spec_has(j)),
{
    assert forall|j: int|
        Bitboard(a.0 & b.0).spec_has(j) <==> (a.spec_has(j) && b.spec_has(j)) by {
        if 0 <= j < 64 {
            let jj = j as u64;
            let x = a.0;
            let y = b.0;
            assert((x & y) >> jj & 1u64 == 1u64 <==> (x >> jj & 1u64 == 1u64 && y >> jj & 1u64
                == 1u64)) by (bit_vector)
                requires jj < 64,
            ;
        }
    }
}

/// Pointwise meaning of difference.
proof fn lemma_bb_diff(a: Bitboard, b: Bitboard)
    ensures
        forall|j: int| Bitboard(a.0 & !b.0).spec_has(j) <==> (a.spec_has(j) && !b.spec_has(j)),
{
    assert forall|j: int|
        Bitboard(a.0 & !b.0).spec_has(j) <==> (a.spec_has(j) && !b.spec_has(j)) by {
        if 0 <= j < 64 {
            let jj = j as u64;
            let x = a.0;
            let y = b.0;
            assert((x & !y) >> jj & 1u64 == 1u64 <==> (x >> jj & 1u64 == 1u64 && !(y >> jj & 1u64
                == 1u64))) by (bit_vector)
                requires jj < 64,
            ;
        }
    }
}

/// Pointwise meaning of complement.
proof fn lemma_bb_not(a: Bitboard)
    ensures
        forall|j: int| 0 <= j < 64 ==> (Bitboard(!a.0).spec_has(j) <==> !a.spec_has(j)),
{
    assert forall|j: int| 0 <= j < 64 implies (Bitboard(!a.0).spec_has(j) <==> !a.spec_has(j)) by {
        let jj = j as u64;
        let x = a.0;
        assert((!x) >> jj & 1u64 == 1u64 <==> !(x >> jj & 1u64 == 1u64)) by (bit_vector)
            requires jj < 64,
        ;
    }
}

/// The broadcast facts the rest of the library reasons with.
pub broadcast group group_bitboard {
    lemma_bb_insert,
    lemma_bb_remove,
    lemma_bb_empty,
}

} // verus!
