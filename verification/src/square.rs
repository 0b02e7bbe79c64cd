//! Squares of the board: ordinals 0..63, file + 8 * rank.
use vstd::prelude::*;

verus! {

/// A square of the board, counted from a1 (0) along the ranks to h8 (63).
#[derive(Clone, Copy, Debug, PartialEq, Eq, Structural)]
pub struct Square(pub u32);

/// The ordinals of the squares, from a1 to h8.
pub const A1: u32 = 0;
pub const B1: u32 = 1;
pub const C1: u32 = 2;
pub const D1: u32 = 3;
pub const E1: u32 = 4;
pub const F1: u32 = 5;
pub const G1: u32 = 6;
pub const H1: u32 = 7;
pub const A2: u32 = 8;
pub const B2: u32 = 9;
pub const C2: u32 = 10;
pub const D2: u32 = 11;
pub const E2: u32 = 12;
pub const F2: u32 = 13;
pub const G2: u32 = 14;
pub const H2: u32 = 15;
pub const A3: u32 = 16;
pub const B3: u32 = 17;
pub const C3: u32 = 18;
pub const D3: u32 = 19;
pub const E3: u32 = 20;
pub const F3: u32 = 21;
pub const G3: u32 = 22;
pub const H3: u32 = 23;
pub const A4: u32 = 24;
pub const B4: u32 = 25;
pub const C4: u32 = 26;
pub const D4: u32 = 27;
pub const E4: u32 = 28;
pub const F4: u32 = 29;
pub const G4: u32 = 30;
pub const H4: u32 = 31;
pub const A5: u32 = 32;
pub const B5: u32 = 33;
pub const C5: u32 = 34;
pub const D5: u32 = 35;
pub const E5: u32 = 36;
pub const F5: u32 = 37;
pub const G5: u32 = 38;
pub const H5: u32 = 39;
pub const A6: u32 = 40;
pub const B6: u32 = 41;
pub const C6: u32 = 42;
pub const D6: u32 = 43;
pub const E6: u32 = 44;
pub const F6: u32 = 45;
pub const G6: u32 = 46;
pub const H6: u32 = 47;
pub const A7: u32 = 48;
pub const B7: u32 = 49;
pub const C7: u32 = 50;
pub const D7: u32 = 51;
pub const E7: u32 = 52;
pub const F7: u32 = 53;
pub const G7: u32 = 54;
pub const H7: u32 = 55;
pub const A8: u32 = 56;
pub const B8: u32 = 57;
pub const C8: u32 = 58;
pub const D8: u32 = 59;
pub const E8: u32 = 60;
pub const F8: u32 = 61;
pub const G8: u32 = 62;
pub const H8: u32 = 63;

impl Square {
    /// The square lies on the board.
    pub open spec fn wf(self) -> bool {
        self.0 < 64
    }

    /// The file of the square, 0 for a to 7 for h.
    pub open spec fn file(self) -> int {
        self.0 as int % 8
    }

    /// The rank of the square, 0 for the first to 7 for the eighth.
    pub open spec fn rank(self) -> int {
        self.0 as int / 8
    }

    /// The square `amount` ranks up, which must be on the board.
    pub fn move_up(self, amount: u32) -> (r: Square)
        requires
            self.0 + 8 * amount < 64,
        ensures
            r.0 == self.0 + 8 * amount,
            r.wf(),
    {
        Square(self.0 + 8 * amount)
    }

    /// The square `amount` ranks down, which must be on the board.
    pub fn move_down(self, amount: u32) -> (r: Square)
        requires
            self.wf(),
            8 * amount <= self.0,
        ensures
            r.0 == self.0 - 8 * amount,
            r.wf(),
    {
        Square(self.0 - 8 * amount)
    }

    /// The square `amount` steps towards h8, which must be on the board.
    pub fn move_up_right(&self, amount: u32) -> (r: Square)
        requires
            self.0 + 9 * amount < 64,
        ensures
            r.0 == self.0 + 9 * amount,
            r.wf(),
    {
        Square(self.0 + 9 * amount)
    }

    /// The square `amount` steps towards a1, which must be on the board.
    pub fn move_down_left(&self, amount: u32) -> (r: Square)
        requires
            self.wf(),
            9 * amount <= self.0,
        ensures
            r.0 == self.0 - 9 * amount,
            r.wf(),
    {
        Square(self.0 - 9 * amount)
    }

    /// The square `amount` steps towards a8, which must be on the board.
    pub fn move_up_left(self, amount: u32) -> (r: Square)
        requires
            self.0 + 7 * amount < 64,
        ensures
            r.0 == self.0 + 7 * amount,
            r.wf(),
    {
        Square(self.0 + 7 * amount)
    }

    /// The square `amount` steps towards h1, which must be on the board.
    pub fn move_down_right(self, amount: u32) -> (r: Square)
        requires
            self.wf(),
            7 * amount <= self.0,
        ensures
            r.0 == self.0 - 7 * amount,
            r.wf(),
    {
        Square(self.0 - 7 * amount)
    }

    /// The rank of the square, from 0 to 7.
    pub fn get_row(&self) -> (r: u32)
        ensures
            r == self.0 / 8,
            self.wf() ==> r == self.rank() && r < 8,
    {
        self.0 / 8
    }
}

} // verus!
