//! What one side has on the board, and what constrains its next move.
use vstd::prelude::*;
use crate::bitboard::BitBoard;
use crate::bits::{bit, lemma_bit_and, lemma_bit_consts, lemma_bit_not, lemma_bit_or, lemma_bit_xor};
use crate::piece::PieceKind;
use crate::pins::Pins;
use crate::square::Square;

verus! {

/// One side's pieces, by kind and together, with the data that move
/// generation needs about that side.
#[derive(Clone, Copy, Debug, PartialEq, Eq, Structural)]
pub struct PlayerState {
    pub king: BitBoard,
    pub queens: BitBoard,
    pub rooks: BitBoard,
    pub bishops: BitBoard,
    pub knights: BitBoard,
    pub pawns: BitBoard,
    /// The union of the six sets above.
    pub occupied: BitBoard,
    /// Where a piece other than the king may land: the whole board when the
    /// king is not in check, else the squares that end the check.
    pub check_mask: BitBoard,
    /// The squares this side attacked when its attacks were last computed.
    pub attacks: BitBoard,
    pub pins: Pins,
    pub can_castle_ks: bool,
    pub can_castle_qs: bool,
    /// The king is in check twice over: only it can move.
    pub king_must_move: bool,
}

impl PlayerState {
    /// A side with no pieces, no castling rights and no constraints.
    pub open spec fn spec_blank() -> PlayerState {
        PlayerState {
            king: BitBoard(0),
            queens: BitBoard(0),
            rooks: BitBoard(0),
            bishops: BitBoard(0),
            knights: BitBoard(0),
            pawns: BitBoard(0),
            occupied: BitBoard(0),
            check_mask: BitBoard(u64::MAX),
            pins: Pins::spec_new(),
            can_castle_ks: false,
            can_castle_qs: false,
            king_must_move: false,
            attacks: BitBoard(0),
        }
    }

    /// The set of this side's pieces of one kind.
    pub open spec fn board(self, kind: PieceKind) -> BitBoard {
        match kind {
            PieceKind::King => self.king,
            PieceKind::Queen => self.queens,
            PieceKind::Rook => self.rooks,
            PieceKind::Bishop => self.bishops,
            PieceKind::Knight => self.knights,
            PieceKind::Pawn => self.pawns,
        }
    }

    /// This state with the set of one kind replaced.
    pub open spec fn with_board(self, kind: PieceKind, set: BitBoard) -> PlayerState {
        match kind {
            PieceKind::King => PlayerState { king: set, ..self },
            PieceKind::Queen => PlayerState { queens: set, ..self },
            PieceKind::Rook => PlayerState { rooks: set, ..self },
            PieceKind::Bishop => PlayerState { bishops: set, ..self },
            PieceKind::Knight => PlayerState { knights: set, ..self },
            PieceKind::Pawn => PlayerState { pawns: set, ..self },
        }
    }

    /// This state with `square` added to the set of `kind` and to the set of all pieces.
    pub open spec fn spec_place_piece(self, kind: PieceKind, square: Square) -> PlayerState {
        let m = 1u64 << square.0;
        PlayerState { occupied: BitBoard(self.occupied.0 | m), ..self }.with_board(
            kind,
            BitBoard(self.board(kind).0 | m),
        )
    }

    /// This state with `square` taken out of the set of `kind` and of the set of all pieces.
    pub open spec fn spec_remove_piece(self, kind: PieceKind, square: Square) -> PlayerState {
        let m = 1u64 << square.0;
        PlayerState { occupied: BitBoard(self.occupied.0 & !m), ..self }.with_board(
            kind,
            BitBoard(self.board(kind).0 & !m),
        )
    }

    /// This state with `origin` and `target` flipped in the set of `kind` and in the set of
    /// all pieces.
    pub open spec fn spec_move_piece(
        self,
        kind: PieceKind,
        origin: Square,
        target: Square,
    ) -> PlayerState {
        let t = 1u64 << target.0;
        let o = 1u64 << origin.0;
        PlayerState { occupied: BitBoard(self.occupied.0 ^ t ^ o), ..self }.with_board(
            kind,
            BitBoard(self.board(kind).0 ^ t ^ o),
        )
    }

    /// This side has no piece on `sq`.
    pub open spec fn vacant(self, sq: int) -> bool {
        &&& !self.occupied.contains(sq)
        &&& !self.king.contains(sq)
        &&& !self.queens.contains(sq)
        &&& !self.rooks.contains(sq)
        &&& !self.bishops.contains(sq)
        &&& !self.knights.contains(sq)
        &&& !self.pawns.contains(sq)
    }

    /// This side has a piece of `kind` on `sq`, and of no other kind.
    pub open spec fn holds(self, kind: PieceKind, sq: int) -> bool {
        &&& self.occupied.contains(sq)
        &&& self.king.contains(sq) == (kind == PieceKind::King)
        &&& self.queens.contains(sq) == (kind == PieceKind::Queen)
        &&& self.rooks.contains(sq) == (kind == PieceKind::Rook)
        &&& self.bishops.contains(sq) == (kind == PieceKind::Bishop)
        &&& self.knights.contains(sq) == (kind == PieceKind::Knight)
        &&& self.pawns.contains(sq) == (kind == PieceKind::Pawn)
    }

    /// A side with no pieces, no castling rights and no constraints.
    pub fn blank() -> (r: Self)
        ensures
            r == PlayerState::spec_blank(),
    {
        Self {
            king: BitBoard::empty(),
            queens: BitBoard::empty(),
            rooks: BitBoard::empty(),
            bishops: BitBoard::empty(),
            knights: BitBoard::empty(),
            pawns: BitBoard::empty(),
            occupied: BitBoard::empty(),
            check_mask: BitBoard::full(),
            pins: Pins::new(),
            can_castle_ks: false,
            can_castle_qs: false,
            king_must_move: false,
            attacks: BitBoard::empty(),
        }
    }

    /// Puts a piece of `piece_kind` on `square`.
    pub fn place_piece(&mut self, piece_kind: PieceKind, square: Square)
        requires
            square.wf(),
        ensures
            *final(self) == old(self).spec_place_piece(piece_kind, square),
    {
        self.get_mut_piece_bitboard(piece_kind).turn_on(square);
        self.occupied.turn_on(square);
    }

    /// Takes the piece of `piece_kind` off `square`.
    pub fn remove_piece(&mut self, piece_kind: PieceKind, square: Square)
        requires
            square.wf(),
        ensures
            *final(self) == old(self).spec_remove_piece(piece_kind, square),
    {
        self.get_mut_piece_bitboard(piece_kind).turn_off(square);
        self.occupied.turn_off(square);
    }

    /// Moves the piece of `piece_kind` on `origin` to `target`.
    pub fn move_piece(&mut self, piece_kind: PieceKind, origin: Square, target: Square)
        requires
            origin.wf(),
            target.wf(),
        ensures
            *final(self) == old(self).spec_move_piece(piece_kind, origin, target),
    {
        self.get_mut_piece_bitboard(piece_kind).move_bit(origin, target);
        self.occupied.move_bit(origin, target);
    }

    /// The king is not in check.
    pub fn isnt_in_check(&self) -> (r: bool)
        ensures
            r == (self.check_mask.0 == u64::MAX),
    {
        self.check_mask.is_full()
    }

    fn get_mut_piece_bitboard(&mut self, piece_kind: PieceKind) -> (r: &mut BitBoard)
        ensures
            *r == old(self).board(piece_kind),
            *final(self) == old(self).with_board(piece_kind, *final(r)),
    {
        match piece_kind {
            PieceKind::King => &mut self.king,
            PieceKind::Queen => &mut self.queens,
            PieceKind::Rook => &mut self.rooks,
            PieceKind::Bishop => &mut self.bishops,
            PieceKind::Knight => &mut self.knights,
            PieceKind::Pawn => &mut self.pawns,
        }
    }
}

/// Moving a piece from `origin` to an empty `target` changes what the side
/// holds on those two squares, and on no other.
pub proof fn lemma_move_piece(
    state: PlayerState,
    kind: PieceKind,
    origin: Square,
    target: Square,
    sq: int,
)
    requires
        origin.wf(),
        target.wf(),
        origin != target,
        state.holds(kind, origin.0 as int),
        state.vacant(target.0 as int),
    ensures
        ({
            let next = state.spec_move_piece(kind, origin, target);
            &&& next.vacant(origin.0 as int)
            &&& next.holds(kind, target.0 as int)
            &&& sq != origin.0 && sq != target.0 ==> next.vacant(sq) == state.vacant(sq) && forall|
                k: PieceKind,
            |
                next.holds(k, sq) == state.holds(k, sq)
            &&& kind != PieceKind::King ==> next.king == state.king
            &&& forall|i: int|
                0 <= i < 64 ==> next.board(kind).contains(i) == (state.board(kind).contains(i) != ((
                i == origin.0) != (i == target.0)))
        }),
{
    broadcast use lemma_bit_xor;

    let t = 1u64 << target.0;
    let o = 1u64 << origin.0;
    assert forall|i: int| bit(t, i) == (i == target.0) && bit(o, i) == (i == origin.0) by {
        lemma_bit_consts(target.0 as u64, i);
        lemma_bit_consts(origin.0 as u64, i);
    }
}

/// Taking a piece off a square leaves that square vacant, and changes no other.
pub proof fn lemma_remove_piece(state: PlayerState, kind: PieceKind, square: Square, sq: int)
    requires
        square.wf(),
        state.holds(kind, square.0 as int),
    ensures
        ({
            let next = state.spec_remove_piece(kind, square);
            &&& next.vacant(square.0 as int)
            &&& sq != square.0 ==> next.vacant(sq) == state.vacant(sq) && forall|k: PieceKind|
                next.holds(k, sq) == state.holds(k, sq)
            &&& kind != PieceKind::King ==> next.king == state.king
        }),
{
    broadcast use lemma_bit_and, lemma_bit_not;

    let m = 1u64 << square.0;
    assert forall|i: int| bit(m, i) == (i == square.0) by {
        lemma_bit_consts(square.0 as u64, i);
    }
}

/// Putting a piece on a vacant square makes the side hold it there, and
/// changes no other square.
pub proof fn lemma_place_piece(state: PlayerState, kind: PieceKind, square: Square, sq: int)
    requires
        square.wf(),
        state.vacant(square.0 as int),
    ensures
        ({
            let next = state.spec_place_piece(kind, square);
            &&& next.holds(kind, square.0 as int)
            &&& sq != square.0 ==> next.vacant(sq) == state.vacant(sq) && forall|k: PieceKind|
                next.holds(k, sq) == state.holds(k, sq)
            &&& kind != PieceKind::King ==> next.king == state.king
        }),
{
    broadcast use lemma_bit_or;

    let m = 1u64 << square.0;
    assert forall|i: int| bit(m, i) == (i == square.0) by {
        lemma_bit_consts(square.0 as u64, i);
    }
}

} // verus!
