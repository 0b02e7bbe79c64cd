//! Every move that the generator emits can be made, as long as it does not
//! land on the other side's king.
use vstd::prelude::*;
use crate::bitboard::{lemma_castle_masks, NOT_A_FILE, NOT_H_FILE};
use crate::bits::{
    bit, lemma_bit_and, lemma_bit_consts, lemma_bit_not, lemma_bit_or, lemma_bit_shl,
    lemma_bit_shr, lemma_disjoint, lemma_lowest, lemma_single, lowest,
};
use crate::board::{home, Position};
use crate::emission::is_pawn_move;
use crate::moves::{double_push, Move, Setting};
use crate::piece::{PieceKind, Player};
use crate::slides::{Direction, step};
use crate::square::Square;

verus! {

/// A step of the empty set is empty.
proof fn lemma_step_source(x: u64, d: Direction, i: int)
    requires
        bit(step(x, d), i),
    ensures
        x != 0,
{
    if x == 0 {
        assert forall|k: int| !bit(0, k) by {
            lemma_bit_consts(0, k);
        }
        match d {
            Direction::Up => {
                lemma_bit_shl(x, 8, i);
            },
            Direction::Down => {
                lemma_bit_shr(x, 8, i);
            },
            Direction::Right => {
                lemma_bit_and(x << 1, NOT_A_FILE, i);
                lemma_bit_shl(x, 1, i);
            },
            Direction::Left => {
                lemma_bit_and(x >> 1, NOT_H_FILE, i);
                lemma_bit_shr(x, 1, i);
            },
            Direction::UpRight => {
                lemma_bit_and(x << 9, NOT_A_FILE, i);
                lemma_bit_shl(x, 9, i);
            },
            Direction::DownRight => {
                lemma_bit_and(x >> 7, NOT_A_FILE, i);
                lemma_bit_shr(x, 7, i);
            },
            Direction::UpLeft => {
                lemma_bit_and(x << 7, NOT_H_FILE, i);
                lemma_bit_shl(x, 7, i);
            },
            Direction::DownLeft => {
                lemma_bit_and(x >> 9, NOT_H_FILE, i);
                lemma_bit_shr(x, 9, i);
            },
        }
    }
}

impl Position {
    /// The move `m` lands on the king of the side that has just moved.
    pub open spec fn lands_on_king(self, m: Move) -> bool {
        match m {
            Move::Regular { target, .. } => self.moved_player.king.contains(target.0 as int),
            Move::Promotion { target, .. } => self.moved_player.king.contains(target.0 as int),
            _ => false,
        }
    }

    /// A square in a set of the side to move holds a piece of that kind and side.
    proof fn lemma_own(self, kind: PieceKind, sq: int)
        requires
            self.squares_agree(),
            bit(self.moving_player.board(kind).0, sq),
        ensures
            self.has(sq, kind, self.current_player),
            self.moving_player.occupied.contains(sq),
    {
        assert(self.agrees_at(sq));
    }

    /// A square without a piece of the side to move, and without the other
    /// side's king, is free for a piece of the side to move.
    proof fn lemma_free(self, sq: int)
        requires
            self.squares_agree(),
            0 <= sq < 64,
            !bit(self.moving_player.occupied.0, sq),
            !self.moved_player.king.contains(sq),
        ensures
            self.free_for(self.current_player, sq),
    {
        assert(self.agrees_at(sq));
    }

    /// A square that neither side occupies holds no piece.
    proof fn lemma_empty(self, sq: int)
        requires
            self.squares_agree(),
            bit(Setting::of(self).empty_squares.0, sq),
        ensures
            self.pieces[sq] is None,
            0 <= sq < 64,
    {
        broadcast use lemma_bit_not, lemma_bit_or;

        assert(self.agrees_at(sq));
    }

    /// A square that the other side occupies holds no piece of the side to move.
    proof fn lemma_theirs(self, sq: int)
        requires
            self.squares_agree(),
            bit(self.moved_player.occupied.0, sq),
        ensures
            !bit(self.moving_player.occupied.0, sq),
    {
        assert(self.agrees_at(sq));
    }

    /// A move of the king that the generator emits can be made, if it lands on no king.
    pub proof fn lemma_king_move_admitted(self, m: Move)
        requires
            self.wf(),
            Setting::of(self).is_king_move(m),
            !self.lands_on_king(m),
        ensures
            self.admits(m),
    {
        broadcast use lemma_bit_and, lemma_bit_not;

        let king = self.moving_player.king.0;
        lemma_single(king);
        self.lemma_own(PieceKind::King, lowest(king));
        if let Move::Regular { origin, target, piece_kind, double_push } = m {
            self.lemma_free(target.0 as int);
        }
    }

    /// A move of a knight, bishop, rook or queen that the generator emits can be made, if it
    /// lands on no king.
    pub proof fn lemma_piece_admitted(self, kind: PieceKind, m: Move)
        requires
            self.wf(),
            kind == PieceKind::Knight || kind == PieceKind::Bishop || kind == PieceKind::Rook
                || kind == PieceKind::Queen,
            Setting::of(self).is_piece_move(kind, m),
            !self.lands_on_king(m),
        ensures
            self.admits(m),
    {
        broadcast use lemma_bit_and, lemma_bit_not;

        if let Move::Regular { origin, target, piece_kind, double_push } = m {
            self.lemma_own(kind, origin.0 as int);
            self.lemma_free(target.0 as int);
        }
    }

    /// A pawn's move from a square that holds a pawn of the side to move,
    /// to another square that is free for it, is admitted.
    proof fn lemma_pawn_move_admitted(self, back: int, t: u32, m: Move)
        requires
            self.wf(),
            is_pawn_move(self.current_player, back, t, m),
            t < 64,
            0 <= t + back < 64,
            back != 0,
            bit(self.moving_player.pawns.0, t + back),
            !bit(self.moving_player.occupied.0, t as int),
            !self.lands_on_king(m),
        ensures
            self.admits(m),
    {
        self.lemma_own(PieceKind::Pawn, t + back);
        self.lemma_free(t as int);
    }

    /// An advance of one rank that the generator emits can be made.
    pub proof fn lemma_push_admitted(self, m: Move)
        requires
            self.wf(),
            Setting::of(self).is_push(self.current_player, m),
            !self.lands_on_king(m),
        ensures
            self.admits(m),
    {
        broadcast use lemma_bit_and, lemma_bit_not, lemma_bit_shl, lemma_bit_shr;

        let g = Setting::of(self);
        let me = self.current_player;
        let t = choose|t: u32|
            bit(g.push_targets(me), t as int) && #[trigger] is_pawn_move(
                me,
                Setting::push_back(me),
                t,
                m,
            );
        self.lemma_empty(t as int);
        assert(self.agrees_at(t as int));
        self.lemma_pawn_move_admitted(Setting::push_back(me), t, m);
    }

    /// An advance of two ranks that the generator emits can be made.
    pub proof fn lemma_double_push_admitted(self, m: Move)
        requires
            self.wf(),
            Setting::of(self).is_double_push(self.current_player, m),
        ensures
            self.admits(m),
    {
        broadcast use lemma_bit_and, lemma_bit_not, lemma_bit_shl, lemma_bit_shr;

        let g = Setting::of(self);
        let me = self.current_player;
        let t = choose|t: u32|
            bit(g.double_push_targets(me), t as int) && m == #[trigger] double_push(
                2 * Setting::push_back(me),
                t,
            );
        self.lemma_empty(t as int);
        assert(self.agrees_at(t as int));
        match me {
            Player::White => {
                self.lemma_empty(t - 8);
                self.lemma_own(PieceKind::Pawn, t - 16);
            },
            Player::Black => {
                self.lemma_empty(t + 8);
                self.lemma_own(PieceKind::Pawn, t + 16);
            },
        }
    }

    /// A capture by a pawn that the generator emits can be made, if it lands on no king.
    pub proof fn lemma_capture_admitted(self, m: Move)
        requires
            self.wf(),
            Setting::of(self).is_pawn_capture(self.current_player, m),
            !self.lands_on_king(m),
        ensures
            self.admits(m),
    {
        broadcast use lemma_bit_and, lemma_bit_not, lemma_bit_shl, lemma_bit_shr;

        let g = Setting::of(self);
        let me = self.current_player;
        if exists|t: u32|
            bit(g.left_capture_targets(me), t as int) && #[trigger] is_pawn_move(
                me,
                Setting::left_back(me),
                t,
                m,
            ) {
            let t = choose|t: u32|
                bit(g.left_capture_targets(me), t as int) && #[trigger] is_pawn_move(
                    me,
                    Setting::left_back(me),
                    t,
                    m,
                );
            self.lemma_theirs(t as int);
            self.lemma_pawn_move_admitted(Setting::left_back(me), t, m);
        } else {
            let t = choose|t: u32|
                bit(g.right_capture_targets(me), t as int) && #[trigger] is_pawn_move(
                    me,
                    Setting::right_back(me),
                    t,
                    m,
                );
            self.lemma_theirs(t as int);
            self.lemma_pawn_move_admitted(Setting::right_back(me), t, m);
        }
    }

    /// A capture en passant that the generator emits can be made.
    pub proof fn lemma_en_passant_admitted(self, m: Move)
        requires
            self.wf(),
            Setting::of(self).is_en_passant(self.current_player, m),
        ensures
            self.admits(m),
    {
        let g = Setting::of(self);
        let me = self.current_player;
        let first = g.ep_capturer(me, true);
        let second = g.ep_capturer(me, false);
        let point = self.ep_info.capture_point.0;
        let pawns = self.moving_player.pawns.0;
        let pins = self.moving_player.pins;
        let from_first = first != 0 && m == (Move::EnPassant {
            origin: Square(lowest(first) as u32),
        });
        let capturer = if from_first {
            first
        } else {
            second
        };
        lemma_lowest(capturer);
        let o = lowest(capturer);
        let d = match me {
            Player::White => if from_first {
                Direction::DownRight
            } else {
                Direction::DownLeft
            },
            Player::Black => if from_first {
                Direction::UpRight
            } else {
                Direction::UpLeft
            },
        };
        let free = if (me == Player::White) == from_first {
            pawns & !pins.ape_anti_diagonal()
        } else {
            pawns & !pins.ape_diagonal()
        };
        assert(capturer == step(point, d) & free);
        lemma_bit_and(step(point, d), free, o);
        if (me == Player::White) == from_first {
            lemma_bit_and(pawns, !pins.ape_anti_diagonal(), o);
        } else {
            lemma_bit_and(pawns, !pins.ape_diagonal(), o);
        }
        self.lemma_own(PieceKind::Pawn, o);
        lemma_step_source(point, d, o);
    }

    /// Castling king side can be made where the generator emits it.
    pub proof fn lemma_castle_ks_admitted(self)
        requires
            self.wf(),
            Setting::of(self).can_castle_ks(self.current_player),
        ensures
            self.admits(Move::CastleKS),
    {
        broadcast use lemma_bit_not, lemma_bit_or;

        let g = Setting::of(self);
        let me = self.current_player;
        let base = home(me);
        lemma_disjoint(
            Setting::ks_space(me),
            !g.empty_squares.0 | g.moved_player.attacks.0,
        );
        lemma_castle_masks(base + 5);
        lemma_castle_masks(base + 6);
        assert(bit(Setting::ks_space(me), base + 5));
        assert(bit(Setting::ks_space(me), base + 6));
        self.lemma_empty(base + 5);
        self.lemma_empty(base + 6);
    }

    /// Castling queen side can be made where the generator emits it.
    pub proof fn lemma_castle_qs_admitted(self)
        requires
            self.wf(),
            Setting::of(self).can_castle_qs(self.current_player),
        ensures
            self.admits(Move::CastleQS),
    {
        broadcast use lemma_bit_not, lemma_bit_or;

        let g = Setting::of(self);
        let me = self.current_player;
        let base = home(me);
        lemma_disjoint(Setting::qs_space(me), !g.empty_squares.0);
        lemma_castle_masks(base + 2);
        lemma_castle_masks(base + 3);
        assert(bit(Setting::qs_space(me), base + 2));
        assert(bit(Setting::qs_space(me), base + 3));
        self.lemma_empty(base + 2);
        self.lemma_empty(base + 3);
    }

    /// In a well-formed position, every move that the generator emits and
    /// that does not land on the other side's king can be made.
    pub proof fn lemma_emitted_admitted(self, m: Move)
        requires
            self.wf(),
            self.emits(m),
            !self.lands_on_king(m),
        ensures
            self.admits(m),
    {
        let g = Setting::of(self);
        let me = self.current_player;
        if g.is_king_move(m) {
            self.lemma_king_move_admitted(m);
        } else if g.is_push(me, m) {
            self.lemma_push_admitted(m);
        } else if g.is_double_push(me, m) {
            self.lemma_double_push_admitted(m);
        } else if g.is_pawn_capture(me, m) {
            self.lemma_capture_admitted(m);
        } else if g.is_en_passant(me, m) {
            self.lemma_en_passant_admitted(m);
        } else if m == Move::CastleKS {
            self.lemma_castle_ks_admitted();
        } else if m == Move::CastleQS {
            self.lemma_castle_qs_admitted();
        } else if g.is_piece_move(PieceKind::Knight, m) {
            self.lemma_piece_admitted(PieceKind::Knight, m);
        } else if g.is_piece_move(PieceKind::Bishop, m) {
            self.lemma_piece_admitted(PieceKind::Bishop, m);
        } else if g.is_piece_move(PieceKind::Rook, m) {
            self.lemma_piece_admitted(PieceKind::Rook, m);
        } else {
            self.lemma_piece_admitted(PieceKind::Queen, m);
        }
    }
}

} // verus!
