//! Sets of squares held in one 64-bit word, with the set operations and the
//! whole-board steps that move generation is built from.
use vstd::prelude::*;
use crate::bits::{
    bit, lemma_bit_and, lemma_bit_consts, lemma_bit_not, lemma_bit_or, lemma_bit_xor,
    lemma_disjoint, lemma_lowest, lemma_lowest_ops, lemma_squares_pop, lowest, single, squares,
};
use crate::square::Square;

verus! {

/// Every square but those of the h-file.
pub const NOT_H_FILE: u64 = 0x7f7f7f7f7f7f7f7f;

/// Every square but those of the a-file.
pub const NOT_A_FILE: u64 = 0xfefefefefefefefe;

/// The squares of the first rank.
pub const FIRST_RANK: u64 = 0x00000000000000ff;

/// The squares of the second rank.
pub const SECOND_RANK: u64 = 0x000000000000ff00;

/// The squares of the seventh rank.
pub const SEVENTH_RANK: u64 = 0x00ff000000000000;

/// The squares of the eighth rank.
pub const EIGHTH_RANK: u64 = 0xff00000000000000;

/// The squares between king and rook that must be empty and safe for White to castle king side.
pub const W_CASTLE_KS_SPACE: u64 = 0x0000000000000060;

/// The squares between king and rook that must be empty for White to castle queen side.
pub const W_CASTLE_QS_SPACE: u64 = 0x000000000000000e;

/// The squares the white king crosses when castling queen side.
pub const W_CASTLE_QS_KING_PASS: u64 = 0x000000000000000c;

/// The squares between king and rook that must be empty and safe for Black to castle king side.
pub const B_CASTLE_KS_SPACE: u64 = 0x6000000000000000;

/// The squares between king and rook that must be empty for Black to castle queen side.
pub const B_CASTLE_QS_SPACE: u64 = 0x0e00000000000000;

/// The squares the black king crosses when castling queen side.
pub const B_CASTLE_QS_KING_PASS: u64 = 0x0c00000000000000;

/// The squares of the rank and file masks.
pub proof fn lemma_board_masks(i: int)
    requires
        0 <= i < 64,
    ensures
        bit(FIRST_RANK, i) == (i < 8),
        bit(SECOND_RANK, i) == (8 <= i < 16),
        bit(SEVENTH_RANK, i) == (48 <= i < 56),
        bit(EIGHTH_RANK, i) == (56 <= i),
        bit(NOT_A_FILE, i) == (i % 8 != 0),
        bit(NOT_H_FILE, i) == (i % 8 != 7),
{
    let j = i as u64;
    assert(j < 64 ==> (((0x00000000000000ffu64 >> j) & 1 == 1) == (j < 8)) && (((
    0x000000000000ff00u64 >> j) & 1 == 1) == (8 <= j && j < 16)) && (((0x00ff000000000000u64 >> j)
        & 1 == 1) == (48 <= j && j < 56)) && (((0xff00000000000000u64 >> j) & 1 == 1) == (56
        <= j)) && (((0xfefefefefefefefeu64 >> j) & 1 == 1) == (j % 8 != 0)) && (((
    0x7f7f7f7f7f7f7f7fu64 >> j) & 1 == 1) == (j % 8 != 7))) by (bit_vector);
}

/// The squares of the castling masks: f and g for the king side, b, c and
/// d for the queen side, c and d for the king's way on the queen side; and
/// the four corners.
pub proof fn lemma_castle_masks(i: int)
    requires
        0 <= i < 64,
    ensures
        bit(W_CASTLE_KS_SPACE, i) == (i == 5 || i == 6),
        bit(W_CASTLE_QS_SPACE, i) == (i == 1 || i == 2 || i == 3),
        bit(W_CASTLE_QS_KING_PASS, i) == (i == 2 || i == 3),
        bit(B_CASTLE_KS_SPACE, i) == (i == 61 || i == 62),
        bit(B_CASTLE_QS_SPACE, i) == (i == 57 || i == 58 || i == 59),
        bit(B_CASTLE_QS_KING_PASS, i) == (i == 58 || i == 59),
        bit(0x8100000000000081, i) == (i == 0 || i == 7 || i == 56 || i == 63),
{
    let j = i as u64;
    assert(j < 64 ==> (((0x0000000000000060u64 >> j) & 1 == 1) == (j == 5 || j == 6)) && (((
    0x000000000000000eu64 >> j) & 1 == 1) == (j == 1 || j == 2 || j == 3)) && (((
    0x000000000000000cu64 >> j) & 1 == 1) == (j == 2 || j == 3)) && (((0x6000000000000000u64 >> j)
        & 1 == 1) == (j == 61 || j == 62)) && (((0x0e00000000000000u64 >> j) & 1 == 1) == (j == 57
        || j == 58 || j == 59)) && (((0x0c00000000000000u64 >> j) & 1 == 1) == (j == 58 || j
        == 59)) && (((0x8100000000000081u64 >> j) & 1 == 1) == (j == 0 || j == 7 || j == 56 || j
        == 63))) by (bit_vector);
}

/// A set of squares: bit `i` is set exactly when square `i` is in the set.
#[derive(Clone, Copy, Debug, PartialEq, Eq, Structural)]
pub struct BitBoard(pub u64);

/// How many of the squares below `n` are in `x`.
pub open spec fn count_below(x: u64, n: int) -> nat
    decreases n,
{
    if n <= 0 {
        0
    } else {
        count_below(x, n - 1) + if bit(x, n - 1) {
            1nat
        } else {
            0nat
        }
    }
}

impl BitBoard {
    /// Square `sq` is in the set.
    pub open spec fn contains(self, sq: int) -> bool {
        bit(self.0, sq)
    }

    /// The set as a mathematical set of square ordinals.
    pub open spec fn squares(self) -> Set<int> {
        Set::new(|sq: int| self.contains(sq))
    }

    /// The number of squares in the set.
    pub open spec fn size(self) -> nat {
        count_below(self.0, 64)
    }

    /// The set holding `square` alone.
    pub fn from(square: Square) -> (r: Self)
        requires
            square.wf(),
        ensures
            r.0 == 1u64 << square.0,
            forall|i: int| r.contains(i) == (i == square.0),
    {
        proof {
            assert forall|i: int| bit(1u64 << square.0, i) == (i == square.0) by {
                lemma_bit_consts(square.0 as u64, i);
            }
        }
        BitBoard(1u64 << square.0)
    }

    /// The set with no square.
    pub fn empty() -> (r: Self)
        ensures
            r.0 == 0,
            forall|i: int| !r.contains(i),
    {
        proof {
            assert forall|i: int| !bit(0u64, i) by {
                lemma_bit_consts(0, i);
            }
        }
        BitBoard(0)
    }

    /// The set of all squares.
    pub fn full() -> (r: Self)
        ensures
            r.0 == u64::MAX,
            forall|i: int| r.contains(i) == (0 <= i < 64),
    {
        proof {
            assert forall|i: int| bit(u64::MAX, i) == (0 <= i < 64) by {
                lemma_bit_consts(0, i);
            }
        }
        BitBoard(u64::MAX)
    }

    /// The number of squares in the set.
    pub fn count_ones(&self) -> (r: u32)
        ensures
            r == self.size(),
            r <= 64,
    {
        let mut n: u32 = 0;
        let mut i: u32 = 0;
        while i < 64
            invariant
                i <= 64,
                n <= i,
                n == count_below(self.0, i as int),
            decreases 64 - i,
        {
            if (self.0 >> i) & 1 == 1 {
                n += 1;
            }
            i += 1;
        }
        n
    }

    /// Whether `square` is in the set.
    pub fn get_bit(&self, square: Square) -> (r: bool)
        requires
            square.wf(),
        ensures
            r == self.contains(square.0 as int),
    {
        ((self.0 >> square.0) & 1) == 1
    }

    /// Puts `square` into the set if it is not in it, and takes it out if it is.
    pub fn toggle_bit(&mut self, square: Square)
        requires
            square.wf(),
        ensures
            final(self).0 == old(self).0 ^ (1u64 << square.0),
            forall|i: int|
                0 <= i < 64 ==> final(self).contains(i) == (old(self).contains(i) != (i
                    == square.0)),
    {
        proof {
            assert forall|i: int| 0 <= i < 64 implies bit(self.0 ^ (1u64 << square.0), i) == (bit(
                self.0,
                i,
            ) != (i == square.0)) by {
                lemma_bit_consts(square.0 as u64, i);
                lemma_bit_xor(self.0, 1u64 << square.0, i);
            }
        }
        self.0 ^= 1u64 << square.0;
    }

    /// The squares of the set that have a square of the set directly below them.
    pub fn smear_zeroes_up(self) -> (r: Self)
        ensures
            r.0 == self.0 & (self.0 << 8),
    {
        BitBoard(self.0 & self.move_up(1).0)
    }

    /// The squares of the set that have a square of the set directly above them.
    pub fn smear_zeroes_down(self) -> (r: Self)
        ensures
            r.0 == self.0 & (self.0 >> 8),
    {
        BitBoard(self.0 & self.move_down(1).0)
    }

    /// No square of the set is in `mask`.
    pub fn does_contain_none(&self, mask: Self) -> (r: bool)
        ensures
            r == (self.0 & mask.0 == 0),
            r == (forall|i: int| !(self.contains(i) && mask.contains(i))),
    {
        proof {
            lemma_disjoint(self.0, mask.0);
            if self.0 & mask.0 == 0 {
                assert forall|i: int| !(self.contains(i) && mask.contains(i)) by {}
            } else {
                assert(self.contains(lowest(self.0 & mask.0)));
            }
        }
        (self.0 & !mask.0) == self.0
    }

    /// The lowest square of a set that is not empty.
    pub fn first_one_square(&self) -> (r: Square)
        requires
            self.0 != 0,
        ensures
            r.0 == lowest(self.0),
            r.wf(),
            self.contains(r.0 as int),
            forall|i: int| 0 <= i < r.0 ==> !self.contains(i),
    {
        proof {
            lemma_lowest(self.0);
        }
        Square(self.0.trailing_zeros())
    }

    /// Moves a member from `origin` to `target`: flips both squares.
    pub fn move_bit(&mut self, origin: Square, target: Square)
        requires
            origin.wf(),
            target.wf(),
        ensures
            final(self).0 == old(self).0 ^ (1u64 << target.0) ^ (1u64 << origin.0),
            forall|i: int|
                0 <= i < 64 ==> final(self).contains(i) == (old(self).contains(i) != ((i
                    == origin.0) != (i == target.0))),
    {
        self.toggle_bit(target);
        self.toggle_bit(origin);
    }

    /// Takes `square` out of the set.
    pub fn turn_off(&mut self, square: Square)
        requires
            square.wf(),
        ensures
            final(self).0 == old(self).0 & !(1u64 << square.0),
            forall|i: int|
                #[trigger] final(self).contains(i) == (old(self).contains(i) && i != square.0),
    {
        proof {
            assert forall|i: int|
                bit(self.0 & !(1u64 << square.0), i) == (bit(self.0, i) && i != square.0) by {
                lemma_bit_consts(square.0 as u64, i);
                lemma_bit_not(1u64 << square.0, i);
                lemma_bit_and(self.0, !(1u64 << square.0), i);
            }
        }
        self.0 &= !(1u64 << square.0)
    }

    /// Puts `square` into the set.
    pub fn turn_on(&mut self, square: Square)
        requires
            square.wf(),
        ensures
            final(self).0 == old(self).0 | (1u64 << square.0),
            forall|i: int|
                #[trigger] final(self).contains(i) == (old(self).contains(i) || i == square.0),
    {
        proof {
            assert forall|i: int|
                bit(self.0 | (1u64 << square.0), i) == (bit(self.0, i) || i == square.0) by {
                lemma_bit_consts(square.0 as u64, i);
                lemma_bit_or(self.0, 1u64 << square.0, i);
            }
        }
        self.0 |= 1u64 << square.0
    }

    /// Whether the set holds no square.
    pub fn is_empty(&self) -> (r: bool)
        ensures
            r == (self.0 == 0),
    {
        self.0 == 0
    }

    /// The set holds exactly one square.
    pub fn is_single_1(&self) -> (r: bool)
        ensures
            r == single(self.0),
    {
        self.0 != 0 && self.0 & (self.0 - 1) == 0
    }

    /// Whether the set holds every square.
    pub fn is_full(&self) -> (r: bool)
        ensures
            r == (self.0 == u64::MAX),
    {
        self.0 == u64::MAX
    }

    /// Whether the set holds a square.
    pub fn isnt_empty(&self) -> (r: bool)
        ensures
            r == (self.0 != 0),
    {
        self.0 != 0
    }

    /// Takes the lowest square out of a set that is not empty, and returns it.
    pub fn pop_first_one(&mut self) -> (r: Square)
        requires
            old(self).0 != 0,
        ensures
            r.0 == lowest(old(self).0),
            r.wf(),
            old(self).contains(r.0 as int),
            forall|i: int| 0 <= i < r.0 ==> !old(self).contains(i),
            final(self).0 == old(self).0 & !(1u64 << r.0),
            final(self).0 < old(self).0,
            forall|i: int| #[trigger] final(self).contains(i) == (old(self).contains(i) && i != r.0),
            squares(old(self).0).len() > 0,
            squares(old(self).0)[0] == r.0,
            squares(final(self).0) == squares(old(self).0).drop_first(),
    {
        let square = self.first_one_square();
        proof {
            lemma_lowest_ops(self.0);
            lemma_squares_pop(self.0);
            assert forall|i: int|
                bit(self.0 & !(1u64 << square.0), i) == (bit(self.0, i) && i != square.0) by {
                lemma_bit_consts(square.0 as u64, i);
                lemma_bit_not(1u64 << square.0, i);
                lemma_bit_and(self.0, !(1u64 << square.0), i);
            }
        }
        self.0 &= self.0 - 1;
        square
    }

    /// Takes the lowest square out of a set that is not empty, and returns it as a set.
    pub fn pfo_as_bitboard(&mut self) -> (r: Self)
        requires
            old(self).0 != 0,
        ensures
            r.0 == 1u64 << (lowest(old(self).0) as u64),
            final(self).0 == old(self).0 & !r.0,
            final(self).0 < old(self).0,
    {
        proof {
            lemma_lowest_ops(self.0);
        }
        let isolated_one = self.0 & (!self.0).wrapping_add(1);
        self.0 &= self.0 - 1;
        BitBoard(isolated_one)
    }

    /// Takes the lowest square out of a set that is not empty, and returns it
    /// both as a square and as a set.
    pub fn pfo_with_bitboard(&mut self) -> (r: (Square, Self))
        requires
            old(self).0 != 0,
        ensures
            r.0.0 == lowest(old(self).0),
            r.0.wf(),
            old(self).contains(r.0.0 as int),
            r.1.0 == 1u64 << r.0.0,
            final(self).0 == old(self).0 & !r.1.0,
            final(self).0 < old(self).0,
            squares(old(self).0).len() > 0,
            squares(old(self).0)[0] == r.0.0,
            squares(final(self).0) == squares(old(self).0).drop_first(),
    {
        proof {
            lemma_lowest_ops(self.0);
            lemma_squares_pop(self.0);
            lemma_lowest(self.0);
        }
        let square = self.first_one_square();
        let isolated_one = self.0 & (!self.0).wrapping_add(1);
        self.0 &= self.0 - 1;
        (square, BitBoard(isolated_one))
    }

    /// Every square one file to the right; what leaves the board on the h-file is dropped.
    pub fn move_right(self) -> (r: Self)
        ensures
            r.0 == (self.0 << 1) & NOT_A_FILE,
    {
        BitBoard((self.0 << 1) & NOT_A_FILE)
    }

    /// Every square one file to the left; what leaves the board on the a-file is dropped.
    pub fn move_left(self) -> (r: Self)
        ensures
            r.0 == (self.0 >> 1) & NOT_H_FILE,
    {
        BitBoard((self.0 >> 1) & NOT_H_FILE)
    }

    /// Every square `amount` ranks up; what leaves the board is dropped.
    pub fn move_up(self, amount: u32) -> (r: Self)
        requires
            amount < 8,
        ensures
            r.0 == self.0 << (8 * amount) as u32,
    {
        BitBoard(self.0 << (8 * amount))
    }

    /// Every square `amount` ranks down; what leaves the board is dropped.
    pub fn move_down(self, amount: u32) -> (r: Self)
        requires
            amount < 8,
        ensures
            r.0 == self.0 >> (8 * amount) as u32,
    {
        BitBoard(self.0 >> (8 * amount))
    }

    /// Every square one step towards h8; what leaves the board is dropped.
    pub fn move_up_right(self) -> (r: Self)
        ensures
            r.0 == (self.0 << 9) & NOT_A_FILE,
    {
        BitBoard((self.0 << 9) & NOT_A_FILE)
    }

    /// Every square one step towards a8; what leaves the board is dropped.
    pub fn move_up_left(self) -> (r: Self)
        ensures
            r.0 == (self.0 << 7) & NOT_H_FILE,
    {
        BitBoard((self.0 << 7) & NOT_H_FILE)
    }

    /// Every square one step towards h1; what leaves the board is dropped.
    pub fn move_down_right(self) -> (r: Self)
        ensures
            r.0 == (self.0 >> 7) & NOT_A_FILE,
    {
        BitBoard((self.0 >> 7) & NOT_A_FILE)
    }

    /// Every square one step towards a1; what leaves the board is dropped.
    pub fn move_down_left(self) -> (r: Self)
        ensures
            r.0 == (self.0 >> 9) & NOT_H_FILE,
    {
        BitBoard((self.0 >> 9) & NOT_H_FILE)
    }
}

} // verus!
