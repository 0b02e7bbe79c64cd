//! The rays along which pieces of one side are pinned to their own king.
use vstd::prelude::*;
use crate::bitboard::BitBoard;

verus! {

/// Four sets of squares, one for each line through the king. A set holds
/// every square of each pin along that line: from next to the king, through
/// the one pinned piece, up to and including the pinning slider.
#[derive(Clone, Copy, Debug, PartialEq, Eq, Structural)]
pub struct Pins {
    pub horizontal: BitBoard,
    pub vertical: BitBoard,
    pub diagonal: BitBoard,
    pub anti_diagonal: BitBoard,
}

impl Pins {
    /// No pins at all.
    pub open spec fn spec_new() -> Pins {
        Pins {
            horizontal: BitBoard(0),
            vertical: BitBoard(0),
            diagonal: BitBoard(0),
            anti_diagonal: BitBoard(0),
        }
    }

    /// The pins along ranks and files.
    pub open spec fn hv(self) -> u64 {
        self.horizontal.0 | self.vertical.0
    }

    /// The pins along both diagonals.
    pub open spec fn diag(self) -> u64 {
        self.diagonal.0 | self.anti_diagonal.0
    }

    /// All pins.
    pub open spec fn all(self) -> u64 {
        self.diag() | self.hv()
    }

    /// Every pin but those along the diagonal.
    pub open spec fn ape_diagonal(self) -> u64 {
        self.hv() | self.anti_diagonal.0
    }

    /// Every pin but those along the anti-diagonal.
    pub open spec fn ape_anti_diagonal(self) -> u64 {
        self.hv() | self.diagonal.0
    }

    /// Every pin but those along the rank.
    pub open spec fn ape_horizontal(self) -> u64 {
        self.diag() | self.vertical.0
    }

    /// Every pin but those along the file.
    pub open spec fn ape_vertical(self) -> u64 {
        self.diag() | self.horizontal.0
    }

    /// Where the pins let `piece` go: the line it is pinned on, or the whole
    /// board when it stands on none. The lines are tried in the order
    /// horizontal, vertical, diagonal, anti-diagonal.
    pub open spec fn pin_mask(self, piece: u64) -> u64 {
        if piece & self.horizontal.0 != 0 {
            self.horizontal.0
        } else if piece & self.vertical.0 != 0 {
            self.vertical.0
        } else if piece & self.diagonal.0 != 0 {
            self.diagonal.0
        } else if piece & self.anti_diagonal.0 != 0 {
            self.anti_diagonal.0
        } else {
            u64::MAX
        }
    }

    /// No pins at all.
    pub fn new() -> (r: Self)
        ensures
            r == Pins::spec_new(),
    {
        Self {
            horizontal: BitBoard::empty(),
            vertical: BitBoard::empty(),
            diagonal: BitBoard::empty(),
            anti_diagonal: BitBoard::empty(),
        }
    }

    /// The squares that the active pins leave to `piece`.
    pub fn get_pin_mask(&self, piece: BitBoard) -> (r: BitBoard)
        ensures
            r.0 == self.pin_mask(piece.0),
    {
        if (piece.0 & self.horizontal.0) != 0 {
            self.horizontal
        } else if (piece.0 & self.vertical.0) != 0 {
            self.vertical
        } else if (piece.0 & self.diagonal.0) != 0 {
            self.diagonal
        } else if (piece.0 & self.anti_diagonal.0) != 0 {
            self.anti_diagonal
        } else {
            BitBoard(u64::MAX)
        }
    }

    /// The pins along ranks and files.
    pub fn get_hv_pins(&self) -> (r: BitBoard)
        ensures
            r.0 == self.hv(),
    {
        BitBoard(self.horizontal.0 | self.vertical.0)
    }

    /// The pins along both diagonals.
    pub fn get_diag_pins(&self) -> (r: BitBoard)
        ensures
            r.0 == self.diag(),
    {
        BitBoard(self.diagonal.0 | self.anti_diagonal.0)
    }

    /// All pins.
    pub fn get_all_pins(&self) -> (r: BitBoard)
        ensures
            r.0 == self.all(),
    {
        BitBoard(self.get_diag_pins().0 | self.get_hv_pins().0)
    }

    /// Every pin but those along the diagonal.
    pub fn get_ape_diagonal(&self) -> (r: BitBoard)
        ensures
            r.0 == self.ape_diagonal(),
    {
        BitBoard(self.get_hv_pins().0 | self.anti_diagonal.0)
    }

    /// Every pin but those along the anti-diagonal.
    pub fn get_ape_anti_diagonal(&self) -> (r: BitBoard)
        ensures
            r.0 == self.ape_anti_diagonal(),
    {
        BitBoard(self.get_hv_pins().0 | self.diagonal.0)
    }

    /// Every pin but those along the rank.
    pub fn get_ape_horizontal(&self) -> (r: BitBoard)
        ensures
            r.0 == self.ape_horizontal(),
    {
        BitBoard(self.get_diag_pins().0 | self.vertical.0)
    }

    /// Every pin but those along the file.
    pub fn get_ape_vertical(&self) -> (r: BitBoard)
        ensures
            r.0 == self.ape_vertical(),
    {
        BitBoard(self.get_diag_pins().0 | self.horizontal.0)
    }
}

} // verus!
