//! The moves that the generator emits are legal: after each of them the
//! side that has moved is not in check.
use vstd::prelude::*;
use crate::attacks::{AttackGen, knight_cover};
use crate::bitboard::{BitBoard, lemma_castle_masks};
use crate::bits::{
    bit, lemma_bit_and, lemma_bit_consts, lemma_bit_not, lemma_bit_or, lemma_bit_shl,
    lemma_bit_shr, lemma_bit_xor, lemma_disjoint, lemma_eq_by_bits, lemma_single, lemma_single_bit,
    lemma_squares_members, lowest, squares,
};
use crate::board::{home, Line, Position, ray_order};
use crate::emission::is_pawn_move;
use crate::invariants::{
    lemma_apply_wf, lemma_constraints_wf, lemma_make_move_wf, lemma_sides_partitioned, partitioned,
};
use crate::moves::{double_push, Move, Setting};
use crate::piece::{PieceKind, Player};
use crate::player_state::PlayerState;
use crate::rays::{
    CORNERS, empty_after, empty_after_ep, lemma_apart, lemma_corner, lemma_ep_shielded,
    lemma_facing, lemma_neighbour, lemma_no_leap, lemma_ray, lemma_shielded, opposite, star, stays,
};
use crate::safety::{
    lemma_knight_cover, lemma_slide_within, lemma_step_within, pieces_within, within,
};
use crate::slides::{before, Direction, lemma_step, slide, step};
use crate::sound::{along, lemma_constraints_sound};
use crate::square::Square;
use crate::tables::{king_moves, knight_moves, lemma_king_moves, lemma_knight_moves};

verus! {

impl Position {
    /// The generator of the attack map of the side to move.
    pub open spec fn mover_gen(self) -> AttackGen {
        AttackGen {
            attacking_player: self.moving_player,
            empty_squares: BitBoard(self.real_empty()),
            attacks: BitBoard(0),
        }
    }

    /// A square that a slider of the side to move attacks from `o` is in
    /// the attack map of that side.
    proof fn lemma_slider_attacks(self, set: u64, o: u32, d: Direction, t: int)
        requires
            o < 64,
            bit(set, o as int),
            bit(slide(1u64 << o, self.real_empty(), d), t),
        ensures
            bit(slide(set, self.real_empty(), d), t),
    {
        assert forall|i: int| 0 <= i < 64 && #[trigger] bit(1u64 << o, i) implies bit(set, i) by {
            lemma_bit_consts(o as u64, i);
        }
        lemma_slide_within(1u64 << o, self.real_empty(), set, self.real_empty(), d, t);
    }

    proof fn lemma_cross_attacks(self, set: u64, o: u32, t: int)
        requires
            o < 64,
            bit(set, o as int),
            bit(Setting::of(self).cross_rays(1u64 << o), t),
        ensures
            bit(self.mover_gen().spec_cross(set), t),
    {
        broadcast use lemma_bit_or;

        let e = self.real_empty();
        let x = 1u64 << o;
        if bit(slide(x, e, Direction::Right), t) {
            self.lemma_slider_attacks(set, o, Direction::Right, t);
        }
        if bit(slide(x, e, Direction::Up), t) {
            self.lemma_slider_attacks(set, o, Direction::Up, t);
        }
        if bit(slide(x, e, Direction::Left), t) {
            self.lemma_slider_attacks(set, o, Direction::Left, t);
        }
        if bit(slide(x, e, Direction::Down), t) {
            self.lemma_slider_attacks(set, o, Direction::Down, t);
        }
    }

    proof fn lemma_diagonal_attacks(self, set: u64, o: u32, t: int)
        requires
            o < 64,
            bit(set, o as int),
            bit(Setting::of(self).diagonal_rays(1u64 << o), t),
        ensures
            bit(self.mover_gen().spec_diagonals(set), t),
    {
        broadcast use lemma_bit_or;

        let e = self.real_empty();
        let x = 1u64 << o;
        if bit(slide(x, e, Direction::UpRight), t) {
            self.lemma_slider_attacks(set, o, Direction::UpRight, t);
        }
        if bit(slide(x, e, Direction::UpLeft), t) {
            self.lemma_slider_attacks(set, o, Direction::UpLeft, t);
        }
        if bit(slide(x, e, Direction::DownLeft), t) {
            self.lemma_slider_attacks(set, o, Direction::DownLeft, t);
        }
        if bit(slide(x, e, Direction::DownRight), t) {
            self.lemma_slider_attacks(set, o, Direction::DownRight, t);
        }
    }

    /// Where a piece can go, it attacks.
    proof fn lemma_piece_attacks(self, kind: PieceKind, m: Move)
        requires
            kind != PieceKind::Pawn,
            kind != PieceKind::King,
            Setting::of(self).is_piece_move(kind, m),
        ensures
            m matches Move::Regular { target, .. } && bit(self.mover_attacks(), target.0 as int),
    {
        broadcast use lemma_bit_or, lemma_bit_and;

        let g = Setting::of(self);
        if let Move::Regular { origin, target, piece_kind, double_push } = m {
            let o = origin.0;
            let t = target.0 as int;
            let me = self.moving_player;
            match kind {
                PieceKind::Knight => {
                    lemma_squares_members(me.knights.0, 0);
                    assert(squares(me.knights.0).contains(o));
                    let i = choose|i: int|
                        0 <= i < squares(me.knights.0).len() && squares(me.knights.0)[i] == o;
                    lemma_knight_cover(squares(me.knights.0), t);
                    assert(bit(knight_moves(squares(me.knights.0)[i] as int), t));
                },
                PieceKind::Bishop => {
                    self.lemma_diagonal_attacks(me.bishops.0, o, t);
                },
                PieceKind::Rook => {
                    self.lemma_cross_attacks(me.rooks.0, o, t);
                },
                _ => {
                    if bit(g.cross_rays(1u64 << o), t) {
                        self.lemma_cross_attacks(me.queens.0, o, t);
                    } else {
                        self.lemma_diagonal_attacks(me.queens.0, o, t);
                    }
                },
            }
        }
    }

    /// Where a pawn can capture, it attacks.
    proof fn lemma_pawn_attacks(self, m: Move)
        requires
            Setting::of(self).is_pawn_capture(self.current_player, m),
        ensures
            match m {
                Move::Regular { target, .. } => bit(self.mover_attacks(), target.0 as int),
                Move::Promotion { target, .. } => bit(self.mover_attacks(), target.0 as int),
                _ => false,
            },
    {
        broadcast use lemma_bit_or, lemma_bit_and;

        let g = Setting::of(self);
        let me = self.current_player;
        let pawns = self.moving_player.pawns.0;
        let pins = self.moving_player.pins;
        if exists|t: u32|
            bit(g.left_capture_targets(me), t as int) && #[trigger] is_pawn_move(
                me,
                Setting::left_back(me),
                t,
                m,
            ) {
            let t = choose|t: u32|
                bit(g.left_capture_targets(me), t as int) && #[trigger] is_pawn_move(
                    me,
                    Setting::left_back(me),
                    t,
                    m,
                );
            match me {
                Player::White => {
                    assert(within(pawns & !pins.ape_anti_diagonal(), pawns));
                    lemma_step_within(
                        pawns & !pins.ape_anti_diagonal(),
                        pawns,
                        Direction::UpLeft,
                        t as int,
                    );
                },
                Player::Black => {
                    assert(within(pawns & !pins.ape_diagonal(), pawns));
                    lemma_step_within(
                        pawns & !pins.ape_diagonal(),
                        pawns,
                        Direction::DownLeft,
                        t as int,
                    );
                },
            }
        } else {
            let t = choose|t: u32|
                bit(g.right_capture_targets(me), t as int) && #[trigger] is_pawn_move(
                    me,
                    Setting::right_back(me),
                    t,
                    m,
                );
            match me {
                Player::White => {
                    assert(within(pawns & !pins.ape_diagonal(), pawns));
                    lemma_step_within(pawns & !pins.ape_diagonal(), pawns, Direction::UpRight, t as int);
                },
                Player::Black => {
                    assert(within(pawns & !pins.ape_anti_diagonal(), pawns));
                    lemma_step_within(
                        pawns & !pins.ape_anti_diagonal(),
                        pawns,
                        Direction::DownRight,
                        t as int,
                    );
                },
            }
        }
    }

    /// The king of the side that has just moved stands on no empty square.
    proof fn lemma_king_stands(self, t: int)
        requires
            self.wf(),
            self.moved_player.king.contains(t),
        ensures
            !bit(self.real_empty(), t),
            bit(self.moved_player.occupied.0, t),
    {
        broadcast use lemma_bit_or, lemma_bit_not;

        assert(self.agrees_at(t));
    }

    /// In a position where the side that has just moved is not in check, no
    /// move that the generator emits lands on its king.
    pub proof fn lemma_king_not_captured(self, m: Move)
        requires
            self.wf(),
            self.guarded(),
            self.emits(m),
        ensures
            !self.lands_on_king(m),
    {
        broadcast use lemma_bit_or, lemma_bit_and, lemma_bit_not;

        let g = Setting::of(self);
        let me = self.current_player;
        let king = self.moved_player.king.0;
        if self.lands_on_king(m) {
            let t = match m {
                Move::Regular { target, .. } => target.0 as int,
                Move::Promotion { target, .. } => target.0 as int,
                _ => 0,
            };
            self.lemma_king_stands(t);
            lemma_disjoint(self.mover_attacks(), king);
            if g.is_king_move(m) {
                assert(bit(self.mover_attacks(), t));
            } else if g.is_push(me, m) {
                assert(false);
            } else if g.is_double_push(me, m) {
                assert(false);
            } else if g.is_pawn_capture(me, m) {
                self.lemma_pawn_attacks(m);
            } else if g.is_piece_move(PieceKind::Knight, m) {
                self.lemma_piece_attacks(PieceKind::Knight, m);
            } else if g.is_piece_move(PieceKind::Bishop, m) {
                self.lemma_piece_attacks(PieceKind::Bishop, m);
            } else if g.is_piece_move(PieceKind::Rook, m) {
                self.lemma_piece_attacks(PieceKind::Rook, m);
            } else if g.is_piece_move(PieceKind::Queen, m) {
                self.lemma_piece_attacks(PieceKind::Queen, m);
            }
            assert(bit(self.mover_attacks(), t));
            assert(false);
        }
    }
}

/// The place of direction `d` in the order in which the rays are looked at.
pub open spec fn place_of(d: Direction) -> int {
    match d {
        Direction::Up => 0,
        Direction::UpRight => 1,
        Direction::Right => 2,
        Direction::DownRight => 3,
        Direction::Down => 4,
        Direction::DownLeft => 5,
        Direction::Left => 6,
        Direction::UpLeft => 7,
    }
}

/// The side `state` is the side `earlier` with at most one piece less, and
/// with nothing on square `t`.
pub open spec fn thinned(state: PlayerState, earlier: PlayerState, t: int) -> bool {
    &&& pieces_within(state, earlier)
    &&& partitioned(state)
    &&& !bit(state.occupied.0, t)
    &&& forall|i: int|
        0 <= i < 64 ==> #[trigger] bit(state.occupied.0, i) == (bit(earlier.occupied.0, i) && i
            != t)
}

/// The position `n` is `p` after a piece of the side to move other than
/// the king has gone from `o` to `t`, and has captured what stood there;
/// the sides have not changed roles yet.
pub open spec fn departed(p: Position, n: Position, o: int, t: int) -> bool {
    &&& 0 <= o < 64
    &&& 0 <= t < 64
    &&& n.current_player == p.current_player
    &&& n.moving_player.king == p.moving_player.king
    &&& bit(p.moving_player.occupied.0, o)
    &&& !bit(p.moving_player.king.0, o)
    &&& !bit(p.moving_player.occupied.0, t)
    &&& !bit(p.moved_player.king.0, t)
    &&& forall|i: int|
        0 <= i < 64 ==> #[trigger] bit(n.moving_player.occupied.0, i) == ((bit(
            p.moving_player.occupied.0,
            i,
        ) && i != o) || i == t)
    &&& thinned(n.moved_player, p.moved_player, t)
}

impl Position {
    /// The generator of the attack map of the side that has just moved.
    pub open spec fn threat(self) -> AttackGen {
        AttackGen {
            attacking_player: self.moved_player,
            empty_squares: BitBoard(self.real_empty()),
            attacks: BitBoard(0),
        }
    }

    /// The side that has just moved does not attack the king of the side to move.
    pub open spec fn safe(self) -> bool {
        self.threat().spec_attack_map(self.current_player.opponent()) & self.moving_player.king.0
            == 0
    }

    /// After the move of a piece other than the king, the sliders in `set`
    /// do not attack the king in direction `d`.
    proof fn lemma_no_slider(self, shadow: u64, n: Position, o: int, t: int, set: u64, d: Direction)
        requires
            self.wf(),
            self.constrained(shadow),
            !self.moving_player.king_must_move,
            departed(self, n, o, t),
            bit(self.moving_player.check_mask.0, t),
            stays(
                self.king_ray(self.through(shadow), opposite(d)),
                1u64 << (o as u64),
                1u64 << (t as u64),
                self.moving_player.pins.on_line(d.line()),
            ),
            within(set, self.casters(d)),
            within(set, n.moved_player.occupied.0),
        ensures
            slide(set, n.real_empty(), d) & self.moving_player.king.0 == 0,
    {
        broadcast use lemma_bit_or, lemma_bit_and, lemma_bit_not, lemma_bit_xor;

        let k = self.moving_player.king.0;
        let me = self.moving_player.occupied.0;
        let you = self.moved_player.occupied.0;
        let ob = 1u64 << (o as u64);
        let tb = 1u64 << (t as u64);
        let c = self.casters(d);
        let back = opposite(d);
        let cm = self.moving_player.check_mask.0;
        let pl = self.moving_player.pins.on_line(d.line());
        assert forall|i: int| bit(ob, i) == (i == o) && bit(tb, i) == (i == t) by {
            lemma_bit_consts(o as u64, i);
            lemma_bit_consts(t as u64, i);
        }
        lemma_single_bit(o as u64);
        lemma_single_bit(t as u64);
        lemma_sides_partitioned(self);
        lemma_single(k);
        assert(self.agrees_at(lowest(k)));
        // The squares that are empty after the move.
        assert forall|i: int| 0 <= i < 64 implies bit(n.real_empty(), i) == bit(
            empty_after(me, you, ob, tb),
            i,
        ) by {}
        lemma_eq_by_bits(n.real_empty(), empty_after(me, you, ob, tb));
        // What the lemma on whole boards asks for.
        assert(k & me == k) by {
            assert forall|i: int| 0 <= i < 64 implies bit(k & me, i) == bit(k, i) by {}
            lemma_eq_by_bits(k & me, k);
        }
        assert(me & you == 0) by {
            assert forall|i: int| 0 <= i < 64 implies bit(me & you, i) == bit(0, i) by {
                lemma_bit_consts(0, i);
                assert(self.agrees_at(i));
            }
            lemma_eq_by_bits(me & you, 0);
        }
        assert(c & !you == 0 && shadow & !you == 0 && shadow & c == 0) by {
            assert forall|i: int| 0 <= i < 64 implies bit(c & !you, i) == bit(0, i) && bit(
                shadow & !you,
                i,
            ) == bit(0, i) && bit(shadow & c, i) == bit(0, i) by {
                lemma_bit_consts(0, i);
                lemma_disjoint(shadow, !self.moved_player.pawns.0);
                lemma_disjoint(self.moved_player.queens.0, self.moved_player.pawns.0);
                lemma_disjoint(self.moved_player.rooks.0, self.moved_player.pawns.0);
                lemma_disjoint(self.moved_player.bishops.0, self.moved_player.pawns.0);
            }
            lemma_eq_by_bits(c & !you, 0);
            lemma_eq_by_bits(shadow & !you, 0);
            lemma_eq_by_bits(shadow & c, 0);
        }
        assert(ob & me == ob && ob & k == 0 && tb & me == 0 && tb & cm == tb) by {
            assert forall|i: int| 0 <= i < 64 implies bit(ob & me, i) == bit(ob, i) && bit(
                ob & k,
                i,
            ) == bit(0, i) && bit(tb & me, i) == bit(0, i) && bit(tb & cm, i) == bit(tb, i) by {
                lemma_bit_consts(0, i);
            }
            lemma_eq_by_bits(ob & me, ob);
            lemma_eq_by_bits(ob & k, 0);
            lemma_eq_by_bits(tb & me, 0);
            lemma_eq_by_bits(tb & cm, tb);
        }
        assert(self.casters(back) == c);
        assert(back.line() == d.line());
        let j = place_of(back);
        assert(ray_order(j) == back);
        assert(self.noted(shadow, ray_order(j)));
        lemma_shielded(k, me, you, c, shadow, ob, tb, cm, pl, back);
        let ray = slide(k, n.real_empty(), back);
        lemma_facing(set, k, n.real_empty(), d);
        assert(opposite(back) == d);
        if slide(set, n.real_empty(), d) & k != 0 {
            lemma_disjoint(ray, set);
            let i = lowest(ray & set);
            lemma_disjoint(ray & c & !tb, 0);
            assert(bit(ray & c & !tb, i));
            lemma_bit_consts(0, i);
            lemma_eq_by_bits(ray & c & !tb, ray & c & !tb);
            assert(false);
        }
    }
}

impl Position {
    /// The square of the king of the side to move.
    pub open spec fn king_square(self) -> int {
        lowest(self.moving_player.king.0)
    }

    /// After a move within the check mask that captures what stands on its
    /// target, no knight attacks the king.
    proof fn lemma_no_knight(self, n: Position, t: int)
        requires
            self.wf(),
            self.leapers_noted(),
            self.non_sliding_attackers() == 0 || bit(self.moving_player.check_mask.0, t),
            thinned(n.moved_player, self.moved_player, t),
        ensures
            !bit(knight_cover(squares(n.moved_player.knights.0)), self.king_square()),
    {
        broadcast use lemma_bit_or, lemma_bit_and;

        let k = self.king_square();
        let knights = n.moved_player.knights.0;
        lemma_single(self.moving_player.king.0);
        if bit(knight_cover(squares(knights)), k) {
            lemma_knight_cover(squares(knights), k);
            lemma_squares_members(knights, 0);
            let i = choose|i: int|
                0 <= i < squares(knights).len() && bit(
                    knight_moves(#[trigger] squares(knights)[i] as int),
                    k,
                );
            let s = squares(knights)[i];
            assert(squares(knights).contains(s));
            lemma_knight_moves(s as int, k);
            lemma_knight_moves(k, s as int);
            assert(bit(n.moved_player.occupied.0, s as int));
            assert(bit(self.non_sliding_attackers(), s as int));
            lemma_bit_consts(0, s as int);
            lemma_single(self.non_sliding_attackers());
            assert(false);
        }
    }

    /// After a move within the check mask that captures what stands on its
    /// target, no pawn attacks the king.
    proof fn lemma_no_pawn(self, n: Position, t: int, left: bool)
        requires
            self.wf(),
            self.leapers_noted(),
            self.non_sliding_attackers() == 0 || bit(self.moving_player.check_mask.0, t),
            thinned(n.moved_player, self.moved_player, t),
        ensures
            !bit(
                if left {
                    AttackGen {
                        attacking_player: n.moved_player,
                        empty_squares: BitBoard(0),
                        attacks: BitBoard(0),
                    }.spec_pawns_left(self.current_player.opponent())
                } else {
                    AttackGen {
                        attacking_player: n.moved_player,
                        empty_squares: BitBoard(0),
                        attacks: BitBoard(0),
                    }.spec_pawns_right(self.current_player.opponent())
                },
                self.king_square(),
            ),
    {
        broadcast use lemma_bit_or, lemma_bit_and;

        let k = self.king_square();
        let king = self.moving_player.king.0;
        let pawns = n.moved_player.pawns.0;
        lemma_single(king);
        let d = match self.current_player {
            Player::White => if left {
                Direction::DownLeft
            } else {
                Direction::DownRight
            },
            Player::Black => if left {
                Direction::UpLeft
            } else {
                Direction::UpRight
            },
        };
        if bit(step(pawns, d), k) {
            lemma_step(pawns, d, k);
            let s = before(k, d)->0;
            lemma_step(king, opposite(d), s);
            assert(bit(n.moved_player.occupied.0, s));
            assert(bit(self.non_sliding_attackers(), s));
            lemma_bit_consts(0, s);
            lemma_single(self.non_sliding_attackers());
            assert(false);
        }
    }

    /// The king of the side that has just moved does not attack the king
    /// of the side to move: the kings are not neighbours.
    proof fn lemma_no_king(self)
        requires
            self.wf(),
            self.guarded(),
        ensures
            !bit(king_moves(lowest(self.moved_player.king.0)), self.king_square()),
    {
        broadcast use lemma_bit_or;

        let k = self.king_square();
        let other = lowest(self.moved_player.king.0);
        lemma_single(self.moving_player.king.0);
        lemma_single(self.moved_player.king.0);
        lemma_king_moves(other, k);
        lemma_king_moves(k, other);
        lemma_disjoint(self.mover_attacks(), self.moved_player.king.0);
        if bit(king_moves(other), k) {
            assert(bit(self.mover_gen().spec_king(), other));
            assert(bit(self.mover_attacks(), other));
            assert(false);
        }
    }

    /// After a move of a piece other than the king that stays within the
    /// check mask and, where the piece is pinned, on the ray of its pin,
    /// the king is not attacked.
    proof fn lemma_departed_safe(self, shadow: u64, n: Position, o: int, t: int)
        requires
            self.wf(),
            self.guarded(),
            self.constrained(shadow),
            !self.moving_player.king_must_move,
            departed(self, n, o, t),
            bit(self.moving_player.check_mask.0, t),
            forall|d: Direction|
                stays(
                    #[trigger] self.king_ray(self.through(shadow), d),
                    1u64 << (o as u64),
                    1u64 << (t as u64),
                    self.moving_player.pins.on_line(d.line()),
                ),
        ensures
            n.safe(),
    {
        broadcast use lemma_bit_or;

        let k = self.king_square();
        let king = self.moving_player.king.0;
        let a = n.threat();
        let you = n.moved_player;
        let e = n.real_empty();
        let player = self.current_player.opponent();
        lemma_single(king);
        assert forall|set: u64, d: Direction|
            within(set, self.casters(d)) && within(set, you.occupied.0) implies !bit(
                #[trigger] slide(set, e, d),
                k,
            ) by {
            assert(opposite(opposite(d)) == d);
            assert(opposite(d).line() == d.line());
            assert(stays(
                self.king_ray(self.through(shadow), opposite(d)),
                1u64 << (o as u64),
                1u64 << (t as u64),
                self.moving_player.pins.on_line(opposite(d).line()),
            ));
            self.lemma_no_slider(shadow, n, o, t, set, d);
            lemma_disjoint(slide(set, e, d), king);
        }
        assert(within(you.queens.0, you.occupied.0) && within(you.rooks.0, you.occupied.0) && within(
            you.bishops.0,
            you.occupied.0,
        ));
        assert(within(you.queens.0, self.moved_player.queens.0 | self.moved_player.rooks.0));
        assert(within(you.queens.0, self.moved_player.queens.0 | self.moved_player.bishops.0));
        assert(within(you.rooks.0, self.moved_player.queens.0 | self.moved_player.rooks.0));
        assert(within(you.bishops.0, self.moved_player.queens.0 | self.moved_player.bishops.0));
        assert(!bit(a.spec_cross(you.queens.0), k)) by {
            assert(!bit(slide(you.queens.0, e, Direction::Up), k));
            assert(!bit(slide(you.queens.0, e, Direction::Right), k));
            assert(!bit(slide(you.queens.0, e, Direction::Down), k));
            assert(!bit(slide(you.queens.0, e, Direction::Left), k));
        }
        assert(!bit(a.spec_diagonals(you.queens.0), k)) by {
            assert(!bit(slide(you.queens.0, e, Direction::UpRight), k));
            assert(!bit(slide(you.queens.0, e, Direction::UpLeft), k));
            assert(!bit(slide(you.queens.0, e, Direction::DownLeft), k));
            assert(!bit(slide(you.queens.0, e, Direction::DownRight), k));
        }
        assert(!bit(a.spec_cross(you.rooks.0), k)) by {
            assert(!bit(slide(you.rooks.0, e, Direction::Up), k));
            assert(!bit(slide(you.rooks.0, e, Direction::Right), k));
            assert(!bit(slide(you.rooks.0, e, Direction::Down), k));
            assert(!bit(slide(you.rooks.0, e, Direction::Left), k));
        }
        assert(!bit(a.spec_diagonals(you.bishops.0), k)) by {
            assert(!bit(slide(you.bishops.0, e, Direction::UpRight), k));
            assert(!bit(slide(you.bishops.0, e, Direction::UpLeft), k));
            assert(!bit(slide(you.bishops.0, e, Direction::DownLeft), k));
            assert(!bit(slide(you.bishops.0, e, Direction::DownRight), k));
        }
        self.lemma_no_knight(n, t);
        self.lemma_no_pawn(n, t, true);
        self.lemma_no_pawn(n, t, false);
        self.lemma_no_king();
        lemma_bit_consts(0, k);
        assert(!bit(a.spec_attack_map(player), k));
        assert forall|i: int| 0 <= i < 64 implies bit(a.spec_attack_map(player) & king, i) == bit(
            0,
            i,
        ) by {
            lemma_bit_and(a.spec_attack_map(player), king, i);
            lemma_bit_consts(0, i);
        }
        lemma_eq_by_bits(a.spec_attack_map(player) & king, 0);
    }
}

/// The lines other than `line`.
pub open spec fn other_lines(line: Line) -> (Line, Line, Line) {
    match line {
        Line::Horizontal => (Line::Vertical, Line::Diagonal, Line::AntiDiagonal),
        Line::Vertical => (Line::Horizontal, Line::Diagonal, Line::AntiDiagonal),
        Line::Diagonal => (Line::Horizontal, Line::Vertical, Line::AntiDiagonal),
        Line::AntiDiagonal => (Line::Horizontal, Line::Vertical, Line::Diagonal),
    }
}

/// One step in direction `d` from the square before `t` leads to `t` alone.
proof fn lemma_step_one(o: int, d: Direction, t: int)
    requires
        before(t, d) == Some(o),
    ensures
        step(1u64 << (o as u64), d) == 1u64 << (t as u64),
{
    let ob = 1u64 << (o as u64);
    let tb = 1u64 << (t as u64);
    assert forall|i: int| 0 <= i < 64 implies bit(step(ob, d), i) == bit(tb, i) by {
        lemma_step(ob, d, i);
        lemma_bit_consts(t as u64, i);
        if before(i, d) is Some {
            lemma_bit_consts(o as u64, before(i, d)->0);
        }
    }
    lemma_eq_by_bits(step(ob, d), tb);
}

impl Position {
    /// A square on the king's ray in direction `d` is in the pins of no
    /// other line than that of `d`.
    proof fn lemma_one_line(self, shadow: u64, o: int, d: Direction, line: Line)
        requires
            self.wf(),
            self.constrained(shadow),
            !self.moving_player.king_must_move,
            bit(self.king_ray(self.through(shadow), d), o),
            line != d.line(),
        ensures
            !bit(self.moving_player.pins.on_line(line), o),
    {
        broadcast use lemma_bit_or, lemma_bit_and, lemma_bit_not;

        let k = self.moving_player.king.0;
        let thr = self.through(shadow);
        let a = along(line).0;
        let b = along(line).1;
        lemma_apart(k, thr, d, a);
        lemma_apart(k, thr, d, b);
        lemma_disjoint(self.king_ray(thr, d), self.king_ray(thr, a));
        lemma_disjoint(self.king_ray(thr, d), self.king_ray(thr, b));
        assert(self.pins_lie(shadow, line));
        lemma_disjoint(
            self.moving_player.pins.on_line(line),
            !(self.king_ray(thr, a) | self.king_ray(thr, b)),
        );
    }

    /// The pins let a piece on the king's ray in direction `d` go where
    /// the pins along the line of `d` are, if it is pinned there.
    proof fn lemma_pin_line(self, shadow: u64, o: int, d: Direction)
        requires
            self.wf(),
            self.constrained(shadow),
            !self.moving_player.king_must_move,
            0 <= o < 64,
            bit(self.king_ray(self.through(shadow), d), o),
            bit(self.moving_player.pins.on_line(d.line()), o),
        ensures
            self.moving_player.pins.pin_mask(1u64 << (o as u64))
                == self.moving_player.pins.on_line(d.line()),
    {
        let ob = 1u64 << (o as u64);
        let pins = self.moving_player.pins;
        assert forall|line: Line|
            (ob & #[trigger] pins.on_line(line) != 0) == (line == d.line()) by {
            lemma_disjoint(ob, pins.on_line(line));
            lemma_bit_consts(o as u64, o);
            if line != d.line() {
                self.lemma_one_line(shadow, o, d, line);
                if ob & pins.on_line(line) != 0 {
                    lemma_bit_consts(o as u64, lowest(ob & pins.on_line(line)));
                }
            }
        }
        assert((ob & pins.on_line(Line::Horizontal) != 0) == (Line::Horizontal == d.line()));
        assert((ob & pins.on_line(Line::Vertical) != 0) == (Line::Vertical == d.line()));
        assert((ob & pins.on_line(Line::Diagonal) != 0) == (Line::Diagonal == d.line()));
        assert((ob & pins.on_line(Line::AntiDiagonal) != 0) == (Line::AntiDiagonal == d.line()));
    }

    /// A slider that goes where the pins let it stays on the ray of its pin.
    proof fn lemma_slider_stays(self, shadow: u64, o: int, t: int, d: Direction)
        requires
            self.wf(),
            self.constrained(shadow),
            !self.moving_player.king_must_move,
            0 <= o < 64,
            0 <= t < 64,
            bit(self.moving_player.pins.pin_mask(1u64 << (o as u64)), t),
            bit(star(1u64 << (o as u64), self.real_empty()), t),
        ensures
            stays(
                self.king_ray(self.through(shadow), d),
                1u64 << (o as u64),
                1u64 << (t as u64),
                self.moving_player.pins.on_line(d.line()),
            ),
    {
        broadcast use lemma_bit_or, lemma_bit_and, lemma_bit_not;

        let ob = 1u64 << (o as u64);
        let tb = 1u64 << (t as u64);
        let k = self.moving_player.king.0;
        let thr = self.through(shadow);
        let r = self.king_ray(thr, d);
        let pl = self.moving_player.pins.on_line(d.line());
        let e = self.real_empty();
        lemma_single_bit(o as u64);
        lemma_single_bit(t as u64);
        lemma_disjoint(ob, pl);
        lemma_disjoint(ob, r);
        lemma_disjoint(tb, r);
        lemma_bit_consts(t as u64, t);
        if ob & pl != 0 && ob & r != 0 {
            lemma_bit_consts(o as u64, lowest(ob & pl));
            lemma_bit_consts(o as u64, lowest(ob & r));
            self.lemma_pin_line(shadow, o, d);
            assert(self.pins_lie(shadow, d.line()));
            let back = self.king_ray(thr, opposite(d));
            lemma_disjoint(pl, !(self.king_ray(thr, along(d.line()).0) | self.king_ray(
                thr,
                along(d.line()).1,
            )));
            assert(bit(r, t) || bit(back, t));
            if !bit(r, t) {
                lemma_single(k);
                assert(self.agrees_at(lowest(k)));
                assert(k & e == 0) by {
                    assert forall|i: int| 0 <= i < 64 implies bit(k & e, i) == bit(0, i) by {
                        lemma_bit_consts(0, i);
                    }
                    lemma_eq_by_bits(k & e, 0);
                }
                lemma_disjoint(tb, back);
                lemma_no_leap(k, ob, tb, thr, e, d);
                lemma_disjoint(tb, star(ob, e));
                assert(false);
            }
        }
    }

    /// A piece that is in no pin stays where it must, wherever it goes.
    proof fn lemma_free_stays(self, shadow: u64, o: int, t: int, d: Direction)
        requires
            0 <= o < 64,
            !bit(self.moving_player.pins.on_line(d.line()), o),
        ensures
            stays(
                self.king_ray(self.through(shadow), d),
                1u64 << (o as u64),
                1u64 << (t as u64),
                self.moving_player.pins.on_line(d.line()),
            ),
    {
        let ob = 1u64 << (o as u64);
        let pl = self.moving_player.pins.on_line(d.line());
        lemma_disjoint(ob, pl);
        if ob & pl != 0 {
            lemma_bit_consts(o as u64, lowest(ob & pl));
        }
    }

    /// A piece that takes one step along a line, and is pinned along no
    /// other line, stays on the ray of its pin.
    proof fn lemma_step_stays(self, shadow: u64, o: int, t: int, d: Direction, way: Direction)
        requires
            self.wf(),
            0 <= o < 64,
            0 <= t < 64,
            before(t, way) == Some(o),
            bit(self.moving_player.occupied.0, o),
            !bit(self.moving_player.king.0, t),
            forall|line: Line|
                line != way.line() ==> !bit(#[trigger] self.moving_player.pins.on_line(line), o),
            bit(self.through(shadow), o),
        ensures
            stays(
                self.king_ray(self.through(shadow), d),
                1u64 << (o as u64),
                1u64 << (t as u64),
                self.moving_player.pins.on_line(d.line()),
            ),
    {
        broadcast use lemma_bit_and;

        let ob = 1u64 << (o as u64);
        let tb = 1u64 << (t as u64);
        let k = self.moving_player.king.0;
        let thr = self.through(shadow);
        let r = self.king_ray(thr, d);
        if d.line() != way.line() {
            self.lemma_free_stays(shadow, o, t, d);
        } else {
            lemma_single_bit(o as u64);
            lemma_single_bit(t as u64);
            lemma_step_one(o, way, t);
            assert(way == d || way == opposite(d));
            assert forall|i: int| 0 <= i < 64 implies bit(ob & thr, i) == bit(ob, i) && bit(
                tb & k,
                i,
            ) == bit(0, i) by {
                lemma_bit_consts(o as u64, i);
                lemma_bit_consts(t as u64, i);
                lemma_bit_consts(0, i);
            }
            lemma_eq_by_bits(ob & thr, ob);
            lemma_eq_by_bits(tb & k, 0);
            if ob & r != 0 {
                lemma_neighbour(k, ob, tb, thr, d);
            }
        }
    }
}

impl Position {
    /// What a move of a piece other than the king leaves of the position.
    proof fn lemma_departed(self, m: Move)
        requires
            self.wf(),
            self.admits(m),
            match m {
                Move::Regular { piece_kind, .. } => piece_kind != PieceKind::King,
                Move::Promotion { .. } => true,
                _ => false,
            },
        ensures
            match m {
                Move::Regular { origin, target, .. } => departed(
                    self,
                    self.spec_apply(m),
                    origin.0 as int,
                    target.0 as int,
                ),
                Move::Promotion { origin, target, .. } => departed(
                    self,
                    self.spec_apply(m),
                    origin.0 as int,
                    target.0 as int,
                ),
                _ => false,
            },
    {
        broadcast use lemma_bit_or, lemma_bit_and, lemma_bit_not, lemma_bit_xor;

        let n = self.spec_apply(m);
        let (origin, target) = match m {
            Move::Regular { origin, target, .. } => (origin, target),
            Move::Promotion { origin, target, .. } => (origin, target),
            _ => (Square(0), Square(0)),
        };
        let o = origin.0 as int;
        let t = target.0 as int;
        assert(self.agrees_at(o));
        assert(self.agrees_at(t));
        lemma_apply_wf(self, m);
        lemma_sides_partitioned(n.spec_switch_sides());
        assert forall|i: int| bit(1u64 << origin.0, i) == (i == o) && bit(1u64 << target.0, i) == (i
            == t) by {
            lemma_bit_consts(o as u64, i);
            lemma_bit_consts(t as u64, i);
        }
        assert forall|i: int| 0 <= i < 64 implies #[trigger] bit(n.moved_player.occupied.0, i) == (
        bit(self.moved_player.occupied.0, i) && i != t) by {
            assert(self.agrees_at(i));
        }
    }

    /// Where a knight, bishop, rook or queen can go, its king is not
    /// attacked after it has gone there.
    proof fn lemma_piece_safe(self, shadow: u64, kind: PieceKind, m: Move)
        requires
            self.wf(),
            self.guarded(),
            self.constrained(shadow),
            !self.moving_player.king_must_move,
            kind == PieceKind::Knight || kind == PieceKind::Bishop || kind == PieceKind::Rook
                || kind == PieceKind::Queen,
            Setting::of(self).is_piece_move(kind, m),
        ensures
            self.spec_apply(m).safe(),
    {
        broadcast use lemma_bit_or, lemma_bit_and, lemma_bit_not;

        self.lemma_piece_attacks(kind, m);
        let g = Setting::of(self);
        if let Move::Regular { origin, target, piece_kind, double_push } = m {
            let o = origin.0 as int;
            let t = target.0 as int;
            let piece = 1u64 << origin.0;
            let e = self.real_empty();
            if self.lands_on_king(m) {
                self.lemma_king_stands(t);
                lemma_disjoint(self.mover_attacks(), self.moved_player.king.0);
                assert(false);
            }
            self.lemma_piece_admitted(kind, m);
            self.lemma_departed(m);
            assert forall|d: Direction|
                stays(
                    #[trigger] self.king_ray(self.through(shadow), d),
                    1u64 << (o as u64),
                    1u64 << (t as u64),
                    self.moving_player.pins.on_line(d.line()),
                ) by {
                if kind == PieceKind::Knight {
                    self.lemma_free_stays(shadow, o, t, d);
                } else {
                    lemma_ray(piece, e, Direction::Up);
                    lemma_ray(piece, e, Direction::Down);
                    lemma_ray(piece, e, Direction::Left);
                    lemma_ray(piece, e, Direction::Right);
                    lemma_ray(piece, e, Direction::UpRight);
                    lemma_ray(piece, e, Direction::UpLeft);
                    lemma_ray(piece, e, Direction::DownRight);
                    lemma_ray(piece, e, Direction::DownLeft);
                    assert(bit(star(piece, e), t));
                    self.lemma_slider_stays(shadow, o, t, d);
                }
            }
            self.lemma_departed_safe(shadow, self.spec_apply(m), o, t);
        }
    }
}

impl Position {
    /// Where a pawn can go by one step, its king is not attacked after it
    /// has gone there.
    proof fn lemma_pawn_step_safe(self, shadow: u64, t: u32, way: Direction, m: Move)
        requires
            self.wf(),
            self.guarded(),
            self.constrained(shadow),
            !self.moving_player.king_must_move,
            self.admits(m),
            t < 64,
            before(t as int, way) is Some,
            is_pawn_move(self.current_player, before(t as int, way)->0 - t, t, m),
            bit(self.moving_player.pawns.0, before(t as int, way)->0),
            bit(self.moving_player.check_mask.0, t as int),
            forall|line: Line|
                line != way.line() ==> !bit(
                    #[trigger] self.moving_player.pins.on_line(line),
                    before(t as int, way)->0,
                ),
        ensures
            self.spec_apply(m).safe(),
    {
        broadcast use lemma_bit_or, lemma_bit_not;

        let o = before(t as int, way)->0;
        assert(self.agrees_at(o));
        assert(self.agrees_at(t as int));
        self.lemma_departed(m);
        lemma_disjoint(shadow, !self.moved_player.pawns.0);
        assert forall|d: Direction|
            stays(
                #[trigger] self.king_ray(self.through(shadow), d),
                1u64 << (o as u64),
                1u64 << (t as u64),
                self.moving_player.pins.on_line(d.line()),
            ) by {
            self.lemma_step_stays(shadow, o, t as int, d, way);
        }
        self.lemma_departed_safe(shadow, self.spec_apply(m), o, t as int);
    }

    /// Where a pawn can advance by one rank, its king is not attacked after.
    proof fn lemma_push_safe(self, shadow: u64, m: Move)
        requires
            self.wf(),
            self.guarded(),
            self.constrained(shadow),
            !self.moving_player.king_must_move,
            Setting::of(self).is_push(self.current_player, m),
        ensures
            self.spec_apply(m).safe(),
    {
        broadcast use lemma_bit_and, lemma_bit_not, lemma_bit_or, lemma_bit_shl, lemma_bit_shr;

        let g = Setting::of(self);
        let me = self.current_player;
        let t = choose|t: u32|
            bit(g.push_targets(me), t as int) && #[trigger] is_pawn_move(
                me,
                Setting::push_back(me),
                t,
                m,
            );
        let way = match me {
            Player::White => Direction::Up,
            Player::Black => Direction::Down,
        };
        self.lemma_king_stands_not(m, t as int);
        self.lemma_push_admitted(m);
        self.lemma_pawn_step_safe(shadow, t, way, m);
    }

    /// A move to an empty square does not land on a king.
    proof fn lemma_king_stands_not(self, m: Move, t: int)
        requires
            self.wf(),
            bit(self.real_empty(), t),
            match m {
                Move::Regular { target, .. } => target.0 == t,
                Move::Promotion { target, .. } => target.0 == t,
                _ => true,
            },
        ensures
            !self.lands_on_king(m),
    {
        if self.moved_player.king.contains(t) {
            self.lemma_king_stands(t);
        }
    }

    /// Where a pawn can capture, its king is not attacked after.
    proof fn lemma_capture_safe(self, shadow: u64, m: Move)
        requires
            self.wf(),
            self.guarded(),
            self.constrained(shadow),
            !self.moving_player.king_must_move,
            Setting::of(self).is_pawn_capture(self.current_player, m),
        ensures
            self.spec_apply(m).safe(),
    {
        broadcast use lemma_bit_and, lemma_bit_not, lemma_bit_or;

        let g = Setting::of(self);
        let me = self.current_player;
        let pawns = self.moving_player.pawns.0;
        let pins = self.moving_player.pins;
        self.lemma_pawn_attacks(m);
        if self.lands_on_king(m) {
            let t = match m {
                Move::Regular { target, .. } => target.0 as int,
                Move::Promotion { target, .. } => target.0 as int,
                _ => 0,
            };
            self.lemma_king_stands(t);
            lemma_disjoint(self.mover_attacks(), self.moved_player.king.0);
            assert(false);
        }
        self.lemma_capture_admitted(m);
        if exists|t: u32|
            bit(g.left_capture_targets(me), t as int) && #[trigger] is_pawn_move(
                me,
                Setting::left_back(me),
                t,
                m,
            ) {
            let t = choose|t: u32|
                bit(g.left_capture_targets(me), t as int) && #[trigger] is_pawn_move(
                    me,
                    Setting::left_back(me),
                    t,
                    m,
                );
            let way = match me {
                Player::White => Direction::UpLeft,
                Player::Black => Direction::DownLeft,
            };
            match me {
                Player::White => lemma_step(pawns & !pins.ape_anti_diagonal(), way, t as int),
                Player::Black => lemma_step(pawns & !pins.ape_diagonal(), way, t as int),
            }
            self.lemma_pawn_step_safe(shadow, t, way, m);
        } else {
            let t = choose|t: u32|
                bit(g.right_capture_targets(me), t as int) && #[trigger] is_pawn_move(
                    me,
                    Setting::right_back(me),
                    t,
                    m,
                );
            let way = match me {
                Player::White => Direction::UpRight,
                Player::Black => Direction::DownRight,
            };
            match me {
                Player::White => lemma_step(pawns & !pins.ape_diagonal(), way, t as int),
                Player::Black => lemma_step(pawns & !pins.ape_anti_diagonal(), way, t as int),
            }
            self.lemma_pawn_step_safe(shadow, t, way, m);
        }
    }
}

impl AttackGen {
    /// This generator with the squares of `c` as empty squares too.
    pub open spec fn widened(self, c: u64) -> AttackGen {
        AttackGen { empty_squares: BitBoard(self.empty_squares.0 | c), ..self }
    }

    /// Whether a corner is empty makes no difference to the attack map.
    proof fn lemma_attacks_corner(self, c: u64, player: Player)
        requires
            c & !CORNERS == 0,
        ensures
            self.widened(c).spec_attack_map(player) == self.spec_attack_map(player),
    {
        let e = self.empty_squares.0;
        let a = self.attacking_player;
        assert forall|set: u64, d: Direction| #[trigger] slide(set, e | c, d) == slide(set, e, d) by {
            lemma_corner(set, e, c, d);
        }
        assert(slide(a.queens.0, e | c, Direction::Up) == slide(a.queens.0, e, Direction::Up));
        assert(slide(a.queens.0, e | c, Direction::Down) == slide(a.queens.0, e, Direction::Down));
        assert(slide(a.queens.0, e | c, Direction::Left) == slide(a.queens.0, e, Direction::Left));
        assert(slide(a.queens.0, e | c, Direction::Right) == slide(a.queens.0, e, Direction::Right));
        assert(slide(a.queens.0, e | c, Direction::UpRight) == slide(a.queens.0, e, Direction::UpRight));
        assert(slide(a.queens.0, e | c, Direction::UpLeft) == slide(a.queens.0, e, Direction::UpLeft));
        assert(slide(a.queens.0, e | c, Direction::DownRight) == slide(
            a.queens.0,
            e,
            Direction::DownRight,
        ));
        assert(slide(a.queens.0, e | c, Direction::DownLeft) == slide(
            a.queens.0,
            e,
            Direction::DownLeft,
        ));
        assert(slide(a.rooks.0, e | c, Direction::Up) == slide(a.rooks.0, e, Direction::Up));
        assert(slide(a.rooks.0, e | c, Direction::Down) == slide(a.rooks.0, e, Direction::Down));
        assert(slide(a.rooks.0, e | c, Direction::Left) == slide(a.rooks.0, e, Direction::Left));
        assert(slide(a.rooks.0, e | c, Direction::Right) == slide(a.rooks.0, e, Direction::Right));
        assert(slide(a.bishops.0, e | c, Direction::UpRight) == slide(
            a.bishops.0,
            e,
            Direction::UpRight,
        ));
        assert(slide(a.bishops.0, e | c, Direction::UpLeft) == slide(a.bishops.0, e, Direction::UpLeft));
        assert(slide(a.bishops.0, e | c, Direction::DownRight) == slide(
            a.bishops.0,
            e,
            Direction::DownRight,
        ));
        assert(slide(a.bishops.0, e | c, Direction::DownLeft) == slide(
            a.bishops.0,
            e,
            Direction::DownLeft,
        ));
    }
}

impl Position {
    /// A pawn that advances two ranks, and is pinned along no line but its
    /// file, stays on the ray of its pin.
    proof fn lemma_two_steps_stay(
        self,
        shadow: u64,
        o: int,
        mid: int,
        t: int,
        d: Direction,
        way: Direction,
    )
        requires
            self.wf(),
            before(mid, way) == Some(o),
            before(t, way) == Some(mid),
            bit(self.moving_player.occupied.0, o),
            bit(self.real_empty(), mid),
            bit(self.real_empty(), t),
            forall|line: Line|
                line != way.line() ==> !bit(#[trigger] self.moving_player.pins.on_line(line), o),
        ensures
            stays(
                self.king_ray(self.through(shadow), d),
                1u64 << (o as u64),
                1u64 << (t as u64),
                self.moving_player.pins.on_line(d.line()),
            ),
    {
        broadcast use lemma_bit_and, lemma_bit_or, lemma_bit_not;

        let ob = 1u64 << (o as u64);
        let mb = 1u64 << (mid as u64);
        let tb = 1u64 << (t as u64);
        let k = self.moving_player.king.0;
        let thr = self.through(shadow);
        let r = self.king_ray(thr, d);
        if d.line() != way.line() {
            self.lemma_free_stays(shadow, o, t, d);
        } else {
            lemma_single_bit(o as u64);
            lemma_single_bit(mid as u64);
            lemma_single_bit(t as u64);
            lemma_step_one(o, way, mid);
            lemma_step_one(mid, way, t);
            lemma_single(k);
            assert(self.agrees_at(lowest(k)));
            assert(self.agrees_at(o));
            assert forall|i: int| 0 <= i < 64 implies bit(ob & thr, i) == bit(ob, i) && bit(
                mb & thr,
                i,
            ) == bit(mb, i) && bit(mb & k, i) == bit(0, i) && bit(tb & k, i) == bit(0, i) by {
                lemma_bit_consts(o as u64, i);
                lemma_bit_consts(mid as u64, i);
                lemma_bit_consts(t as u64, i);
                lemma_bit_consts(0, i);
            }
            lemma_eq_by_bits(ob & thr, ob);
            lemma_eq_by_bits(mb & thr, mb);
            lemma_eq_by_bits(mb & k, 0);
            lemma_eq_by_bits(tb & k, 0);
            if ob & r != 0 {
                lemma_neighbour(k, ob, mb, thr, d);
                lemma_neighbour(k, mb, tb, thr, d);
            }
        }
    }

    /// Where a pawn can advance by two ranks, its king is not attacked after.
    proof fn lemma_double_push_safe(self, shadow: u64, m: Move)
        requires
            self.wf(),
            self.guarded(),
            self.constrained(shadow),
            !self.moving_player.king_must_move,
            Setting::of(self).is_double_push(self.current_player, m),
        ensures
            self.spec_apply(m).safe(),
    {
        broadcast use lemma_bit_and, lemma_bit_not, lemma_bit_or, lemma_bit_shl, lemma_bit_shr;

        let g = Setting::of(self);
        let me = self.current_player;
        let t = choose|t: u32|
            bit(g.double_push_targets(me), t as int) && m == #[trigger] double_push(
                2 * Setting::push_back(me),
                t,
            );
        let way = match me {
            Player::White => Direction::Up,
            Player::Black => Direction::Down,
        };
        let mid = before(t as int, way)->0;
        let o = before(mid, way)->0;
        self.lemma_double_push_admitted(m);
        self.lemma_departed(m);
        assert forall|d: Direction|
            stays(
                #[trigger] self.king_ray(self.through(shadow), d),
                1u64 << (o as u64),
                1u64 << (t as u64),
                self.moving_player.pins.on_line(d.line()),
            ) by {
            self.lemma_two_steps_stay(shadow, o, mid, t as int, d, way);
        }
        self.lemma_departed_safe(shadow, self.spec_apply(m), o, t as int);
    }

    /// A king that has gone to square `t`, which was not attacked, is not
    /// attacked there if the other side has at most the pieces it had, and
    /// if no square has become empty but the one that the king has left and
    /// the corner `corner`.
    proof fn lemma_settled_safe(self, n: Position, t: int, corner: u64)
        requires
            self.wf(),
            self.attacks_current(),
            0 <= t < 64,
            n.current_player == self.current_player,
            n.moving_player.king.0 == 1u64 << (t as u64),
            !bit(self.moved_player.attacks.0, t),
            pieces_within(n.moved_player, self.moved_player),
            corner & !CORNERS == 0,
            forall|i: int|
                0 <= i < 64 && #[trigger] bit(n.real_empty(), i) ==> bit(
                    AttackGen::of(self).empty_squares.0 | corner,
                    i,
                ),
        ensures
            n.safe(),
    {
        let old = AttackGen::of(self);
        let player = self.current_player.opponent();
        let wide = old.widened(corner);
        let map = n.threat().spec_attack_map(player);
        let king = n.moving_player.king.0;
        old.lemma_attacks_corner(corner, player);
        assert forall|i: int| 0 <= i < 64 implies bit(map & king, i) == bit(0, i) by {
            lemma_bit_and(map, king, i);
            lemma_bit_consts(t as u64, i);
            lemma_bit_consts(0, i);
            if bit(map, i) && i == t {
                n.threat().lemma_attacks_within(wide, player, t);
            }
        }
        lemma_eq_by_bits(map & king, 0);
    }

    /// Where the king can go, it is not attacked.
    proof fn lemma_king_safe(self, m: Move)
        requires
            self.wf(),
            self.guarded(),
            self.attacks_current(),
            Setting::of(self).is_king_move(m),
        ensures
            self.spec_apply(m).safe(),
    {
        broadcast use lemma_bit_or, lemma_bit_and, lemma_bit_not, lemma_bit_xor;

        let n = self.spec_apply(m);
        self.lemma_king_not_captured(m);
        self.lemma_king_move_admitted(m);
        if let Move::Regular { origin, target, piece_kind, double_push } = m {
            let o = origin.0 as int;
            let t = target.0 as int;
            let king = self.moving_player.king.0;
            lemma_single(king);
            assert(self.agrees_at(o));
            assert(self.agrees_at(t));
            assert forall|i: int| bit(1u64 << origin.0, i) == (i == o) && bit(1u64 << target.0, i)
                == (i == t) by {
                lemma_bit_consts(o as u64, i);
                lemma_bit_consts(t as u64, i);
            }
            assert forall|i: int| 0 <= i < 64 implies bit(n.moving_player.king.0, i) == bit(
                1u64 << (t as u64),
                i,
            ) by {}
            lemma_eq_by_bits(n.moving_player.king.0, 1u64 << (t as u64));
            lemma_zero_corner();
            assert forall|i: int| 0 <= i < 64 && #[trigger] bit(n.real_empty(), i) implies bit(
                AttackGen::of(self).empty_squares.0 | 0,
                i,
            ) by {
                assert(self.agrees_at(i));
            }
            self.lemma_settled_safe(n, t, 0);
        }
    }

    /// After castling the king is not attacked.
    proof fn lemma_castle_safe(self, m: Move)
        requires
            self.wf(),
            self.attacks_current(),
            self.emits(m),
            m == Move::CastleKS || m == Move::CastleQS,
        ensures
            self.spec_apply(m).safe(),
    {
        broadcast use lemma_bit_or, lemma_bit_and, lemma_bit_not, lemma_bit_xor;

        let n = self.spec_apply(m);
        let g = Setting::of(self);
        let me = self.current_player;
        let base = home(me);
        let (king_to, rook_from, rook_to) = if m == Move::CastleKS {
            (6int, 7int, 5int)
        } else {
            (2int, 0int, 3int)
        };
        let k0 = base + 4;
        let k1 = base + king_to;
        let r0 = base + rook_from;
        let r1 = base + rook_to;
        let corner = 1u64 << (r0 as u64);
        if m == Move::CastleKS {
            self.lemma_castle_ks_admitted();
            lemma_disjoint(Setting::ks_space(me), !g.empty_squares.0 | g.moved_player.attacks.0);
        } else {
            self.lemma_castle_qs_admitted();
            lemma_disjoint(Setting::qs_king_pass(me), g.moved_player.attacks.0);
        }
        lemma_castle_masks(k1);
        lemma_castle_masks(r0);
        let king = self.moving_player.king.0;
        lemma_single(king);
        assert(self.agrees_at(k0));
        assert(self.agrees_at(k1));
        assert(self.agrees_at(r0));
        assert(self.agrees_at(r1));
        let kb0 = 1u64 << (k0 as u64);
        let kb1 = 1u64 << (k1 as u64);
        let rb0 = 1u64 << (r0 as u64);
        let rb1 = 1u64 << (r1 as u64);
        assert forall|i: int| #[trigger] bit(kb0, i) == (i == k0) by {
            lemma_bit_consts(k0 as u64, i);
        }
        assert forall|i: int| #[trigger] bit(kb1, i) == (i == k1) by {
            lemma_bit_consts(k1 as u64, i);
        }
        assert forall|i: int| #[trigger] bit(rb0, i) == (i == r0) by {
            lemma_bit_consts(r0 as u64, i);
        }
        assert forall|i: int| #[trigger] bit(rb1, i) == (i == r1) by {
            lemma_bit_consts(r1 as u64, i);
        }
        assert forall|i: int| 0 <= i < 64 implies bit(n.moving_player.king.0, i) == bit(
            1u64 << (k1 as u64),
            i,
        ) by {}
        lemma_eq_by_bits(n.moving_player.king.0, 1u64 << (k1 as u64));
        assert forall|i: int| 0 <= i < 64 implies bit(corner & !CORNERS, i) == bit(0, i) by {
            lemma_castle_masks(i);
            lemma_bit_consts(0, i);
        }
        lemma_eq_by_bits(corner & !CORNERS, 0);
        assert forall|i: int| 0 <= i < 64 && #[trigger] bit(n.real_empty(), i) implies bit(
            AttackGen::of(self).empty_squares.0 | corner,
            i,
        ) by {
            assert(self.agrees_at(i));
        }
        self.lemma_settled_safe(n, k1, corner);
    }
}

/// The empty set holds no square that is no corner.
proof fn lemma_zero_corner()
    ensures
        0 & !CORNERS == 0,
{
    assert forall|i: int| 0 <= i < 64 implies bit(0 & !CORNERS, i) == bit(0, i) by {
        lemma_bit_and(0, !CORNERS, i);
        lemma_bit_consts(0, i);
    }
    lemma_eq_by_bits(0 & !CORNERS, 0);
}

impl Position {
    /// The king is not attacked in `n` if no slider, knight, pawn or king
    /// of the other side attacks its square.
    proof fn lemma_safe_parts(self, n: Position)
        requires
            self.wf(),
            n.current_player == self.current_player,
            n.moving_player.king == self.moving_player.king,
            n.moved_player.king == self.moved_player.king,
            forall|d: Direction|
                !bit(#[trigger] slide(n.moved_player.queens.0, n.real_empty(), d), self.king_square()),
            forall|d: Direction|
                d.line() == Line::Horizontal || d.line() == Line::Vertical ==> !bit(
                    #[trigger] slide(n.moved_player.rooks.0, n.real_empty(), d),
                    self.king_square(),
                ),
            forall|d: Direction|
                d.line() == Line::Diagonal || d.line() == Line::AntiDiagonal ==> !bit(
                    #[trigger] slide(n.moved_player.bishops.0, n.real_empty(), d),
                    self.king_square(),
                ),
            !bit(knight_cover(squares(n.moved_player.knights.0)), self.king_square()),
            !bit(n.threat().spec_pawns_left(self.current_player.opponent()), self.king_square()),
            !bit(n.threat().spec_pawns_right(self.current_player.opponent()), self.king_square()),
            !bit(king_moves(lowest(self.moved_player.king.0)), self.king_square()),
        ensures
            n.safe(),
    {
        broadcast use lemma_bit_or;

        let k = self.king_square();
        let king = self.moving_player.king.0;
        let a = n.threat();
        let you = n.moved_player;
        let e = n.real_empty();
        let player = self.current_player.opponent();
        lemma_single(king);
        assert(!bit(a.spec_cross(you.queens.0), k)) by {
            assert(!bit(slide(you.queens.0, e, Direction::Up), k));
            assert(!bit(slide(you.queens.0, e, Direction::Right), k));
            assert(!bit(slide(you.queens.0, e, Direction::Down), k));
            assert(!bit(slide(you.queens.0, e, Direction::Left), k));
        }
        assert(!bit(a.spec_diagonals(you.queens.0), k)) by {
            assert(!bit(slide(you.queens.0, e, Direction::UpRight), k));
            assert(!bit(slide(you.queens.0, e, Direction::UpLeft), k));
            assert(!bit(slide(you.queens.0, e, Direction::DownLeft), k));
            assert(!bit(slide(you.queens.0, e, Direction::DownRight), k));
        }
        assert(!bit(a.spec_cross(you.rooks.0), k)) by {
            assert(Direction::Up.line() == Line::Vertical);
            assert(Direction::Right.line() == Line::Horizontal);
            assert(!bit(slide(you.rooks.0, e, Direction::Up), k));
            assert(!bit(slide(you.rooks.0, e, Direction::Right), k));
            assert(!bit(slide(you.rooks.0, e, Direction::Down), k));
            assert(!bit(slide(you.rooks.0, e, Direction::Left), k));
        }
        assert(!bit(a.spec_diagonals(you.bishops.0), k)) by {
            assert(!bit(slide(you.bishops.0, e, Direction::UpRight), k));
            assert(!bit(slide(you.bishops.0, e, Direction::UpLeft), k));
            assert(!bit(slide(you.bishops.0, e, Direction::DownLeft), k));
            assert(!bit(slide(you.bishops.0, e, Direction::DownRight), k));
        }
        lemma_bit_consts(0, k);
        assert(!bit(a.spec_attack_map(player), k));
        assert forall|i: int| 0 <= i < 64 implies bit(a.spec_attack_map(player) & king, i) == bit(
            0,
            i,
        ) by {
            lemma_bit_and(a.spec_attack_map(player), king, i);
            lemma_bit_consts(0, i);
        }
        lemma_eq_by_bits(a.spec_attack_map(player) & king, 0);
    }

    /// No slider attacks the king after a capture en passant.
    #[verifier::rlimit(50)]
    proof fn lemma_ep_no_slider(
        self,
        n: Position,
        o: int,
        t: int,
        way: Direction,
        set: u64,
        d: Direction,
    )
        requires
            self.wf(),
            self.constrained(self.ep_info.pawn.0),
            !self.moving_player.king_must_move,
            self.ep_taken(n, o, t, way),
            within(set, self.casters(d)),
        ensures
            !bit(slide(set, n.real_empty(), d), self.king_square()),
    {
        let pb = self.ep_info.pawn.0;
        let tb = self.ep_info.capture_point.0;
        let ob = 1u64 << (o as u64);
        let k = self.moving_player.king.0;
        let me = self.moving_player.occupied.0;
        let you = self.moved_player.occupied.0;
        let cm = self.moving_player.check_mask.0;
        let back = opposite(d);
        let c = self.casters(d);
        let pl = self.moving_player.pins.on_line(d.line());
        lemma_single(k);
        lemma_sides_partitioned(self);
        assert(self.casters(back) == c);
        assert(back.line() == d.line());
        assert(opposite(back) == d);
        assert(c & !you == 0 && pb & c == 0) by {
            broadcast use lemma_bit_or, lemma_bit_and, lemma_bit_not;

            lemma_disjoint(pb, !self.moved_player.pawns.0);
            assert forall|i: int| 0 <= i < 64 implies bit(c & !you, i) == bit(0, i) && bit(
                pb & c,
                i,
            ) == bit(0, i) by {
                lemma_bit_consts(0, i);
                lemma_disjoint(self.moved_player.queens.0, self.moved_player.pawns.0);
                lemma_disjoint(self.moved_player.rooks.0, self.moved_player.pawns.0);
                lemma_disjoint(self.moved_player.bishops.0, self.moved_player.pawns.0);
            }
            lemma_eq_by_bits(c & !you, 0);
            lemma_eq_by_bits(pb & c, 0);
        }
        let j = place_of(back);
        assert(ray_order(j) == back);
        assert(self.noted(pb, ray_order(j)));
        assert(!self.opened_by_ep(pb, self.ep_attackers(), ray_order(j)));
        assert(bit(self.through(pb), o)) by {
            broadcast use lemma_bit_or, lemma_bit_not;

            lemma_disjoint(me, you);
        }
        self.lemma_step_stays(pb, o, t, back, way);
        lemma_ep_shielded(k, me, you, c, pb, ob, tb, cm, pl, back);
        lemma_facing(set, k, n.real_empty(), d);
        let ray = slide(k, n.real_empty(), back);
        lemma_disjoint(slide(set, n.real_empty(), d), k);
        if slide(set, n.real_empty(), d) & k != 0 {
            lemma_disjoint(ray, set);
            lemma_disjoint(ray, c);
            assert(bit(ray, lowest(ray & set)) && bit(set, lowest(ray & set)));
            assert(false);
        }
    }

    /// The position `n` is this position after the pawn on `o` has captured
    /// en passant: it has gone one step `way` to the square `t`, and the
    /// pawn that stood beside it is gone.
    pub open spec fn ep_taken(self, n: Position, o: int, t: int, way: Direction) -> bool {
        let pb = self.ep_info.pawn.0;
        let tb = self.ep_info.capture_point.0;
        let ob = 1u64 << (o as u64);
        let k = self.moving_player.king.0;
        let me = self.moving_player.occupied.0;
        let you = self.moved_player.occupied.0;
        &&& 0 <= o < 64
        &&& 0 <= t < 64
        &&& tb == 1u64 << (t as u64)
        &&& before(t, way) == Some(o)
        &&& crate::rays::taking(k, me, you, ob, tb, pb)
        &&& k & me == k
        &&& me & you == 0
        &&& pb & !you == 0
        &&& (tb | pb) & self.moving_player.check_mask.0 != 0
        &&& bit(me, o)
        &&& !bit(k, t)
        &&& forall|line: Line|
            line != way.line() ==> !bit(#[trigger] self.moving_player.pins.on_line(line), o)
        &&& n.real_empty() == empty_after_ep(me, you, ob, tb, pb)
        &&& thinned(n.moved_player, self.moved_player, lowest(pb))
        &&& n.current_player == self.current_player
        &&& n.moving_player.king == self.moving_player.king
        &&& n.moved_player.king == self.moved_player.king
    }

    /// The way that the pawn of the capture en passant `m` goes.
    pub open spec fn ep_way(self, m: Move) -> Direction {
        let first = Setting::of(self).ep_capturer(self.current_player, true);
        let from_first = first != 0 && m == (Move::EnPassant {
            origin: Square(lowest(first) as u32),
        });
        match self.current_player {
            Player::White => if from_first {
                Direction::UpLeft
            } else {
                Direction::UpRight
            },
            Player::Black => if from_first {
                Direction::DownLeft
            } else {
                Direction::DownRight
            },
        }
    }

    /// What a capture en passant leaves of the position.
    #[verifier::rlimit(50)]
    proof fn lemma_ep_taken(self, m: Move)
        requires
            self.wf(),
            Setting::of(self).is_en_passant(self.current_player, m),
        ensures
            m matches Move::EnPassant { origin } && self.ep_taken(
                self.spec_apply(m),
                origin.0 as int,
                lowest(self.ep_info.capture_point.0),
                self.ep_way(m),
            ),
    {
        broadcast use lemma_bit_or, lemma_bit_and, lemma_bit_not, lemma_bit_xor;

        let g = Setting::of(self);
        let me_player = self.current_player;
        let n = self.spec_apply(m);
        self.lemma_en_passant_admitted(m);
        lemma_apply_wf(self, m);
        lemma_sides_partitioned(n.spec_switch_sides());
        let first = g.ep_capturer(me_player, true);
        let from_first = first != 0 && m == (Move::EnPassant {
            origin: Square(lowest(first) as u32),
        });
        let capturer = if from_first {
            first
        } else {
            g.ep_capturer(me_player, false)
        };
        crate::bits::lemma_lowest(capturer);
        let o = lowest(capturer);
        let t = lowest(self.ep_info.capture_point.0);
        let p = lowest(self.ep_info.pawn.0);
        let pb = self.ep_info.pawn.0;
        let tb = self.ep_info.capture_point.0;
        let ob = 1u64 << (o as u64);
        let k = self.moving_player.king.0;
        let me = self.moving_player.occupied.0;
        let you = self.moved_player.occupied.0;
        let pawns = self.moving_player.pawns.0;
        let pins = self.moving_player.pins;
        let way = self.ep_way(m);
        let dir = opposite(way);
        let up = match me_player {
            Player::White => Direction::Up,
            Player::Black => Direction::Down,
        };
        let free = if (me_player == Player::White) == from_first {
            pawns & !pins.ape_anti_diagonal()
        } else {
            pawns & !pins.ape_diagonal()
        };
        assert(capturer == step(tb, dir) & free);
        lemma_step(tb, dir, o);
        lemma_bit_consts(t as u64, before(o, dir)->0);
        assert(before(o, dir) == Some(t));
        assert(before(t, way) == Some(o));
        assert(before(t, up) == Some(p));
        lemma_step_one(t, dir, o);
        lemma_step_one(p, up, t);
        lemma_single_bit(o as u64);
        lemma_single_bit(t as u64);
        lemma_single_bit(p as u64);
        lemma_single(k);
        assert(self.agrees_at(o));
        assert(self.agrees_at(t));
        assert(self.agrees_at(p));
        assert(self.agrees_at(lowest(k)));
        assert forall|i: int| bit(ob, i) == (i == o) by {
            lemma_bit_consts(o as u64, i);
        }
        assert forall|i: int| #[trigger] bit(tb, i) == (i == t) by {
            lemma_bit_consts(t as u64, i);
        }
        assert forall|i: int| #[trigger] bit(pb, i) == (i == p) by {
            lemma_bit_consts(p as u64, i);
        }
        assert(k & me == k && me & you == 0 && pb & !you == 0 && ob & me == ob && ob & k == 0 && tb
            & me == 0 && tb & you == 0) by {
            assert forall|i: int| 0 <= i < 64 implies bit(k & me, i) == bit(k, i) && bit(
                me & you,
                i,
            ) == bit(0, i) && bit(pb & !you, i) == bit(0, i) && bit(ob & me, i) == bit(ob, i) && bit(
                ob & k,
                i,
            ) == bit(0, i) && bit(tb & me, i) == bit(0, i) && bit(tb & you, i) == bit(0, i) by {
                lemma_bit_consts(0, i);
                assert(self.agrees_at(i));
            }
            lemma_eq_by_bits(k & me, k);
            lemma_eq_by_bits(me & you, 0);
            lemma_eq_by_bits(pb & !you, 0);
            lemma_eq_by_bits(ob & me, ob);
            lemma_eq_by_bits(ob & k, 0);
            lemma_eq_by_bits(tb & me, 0);
            lemma_eq_by_bits(tb & you, 0);
        }
        assert forall|i: int| 0 <= i < 64 implies bit(n.real_empty(), i) == bit(
            empty_after_ep(me, you, ob, tb, pb),
            i,
        ) by {}
        lemma_eq_by_bits(n.real_empty(), empty_after_ep(me, you, ob, tb, pb));
        assert forall|i: int| 0 <= i < 64 implies #[trigger] bit(n.moved_player.occupied.0, i) == (
        bit(you, i) && i != p) by {}
        assert(thinned(n.moved_player, self.moved_player, p));
    }

    /// Where a pawn can capture en passant, its king is not attacked after.
    proof fn lemma_ep_safe(self, shadow: u64, m: Move)
        requires
            self.wf(),
            self.guarded(),
            self.constrained(shadow),
            !self.moving_player.king_must_move,
            Setting::of(self).is_en_passant(self.current_player, m),
        ensures
            self.spec_apply(m).safe(),
    {
        let n = self.spec_apply(m);
        self.lemma_ep_taken(m);
        if let Move::EnPassant { origin } = m {
            let o = origin.0 as int;
            let t = lowest(self.ep_info.capture_point.0);
            let way = self.ep_way(m);
            let pb = self.ep_info.pawn.0;
            let tb = self.ep_info.capture_point.0;
            let p = lowest(pb);
            let cm = self.moving_player.check_mask.0;
            lemma_single_bit(t as u64);
            assert(tb != 0);
            assert(shadow == pb);
            // The capture takes the piece that gives check, if a knight or a pawn does.
            if self.non_sliding_attackers() != 0 {
                broadcast use lemma_bit_or, lemma_bit_and;

                lemma_single(pb);
                lemma_disjoint(tb | pb, cm);
                lemma_single(self.non_sliding_attackers());
                let i = lowest((tb | pb) & cm);
                assert(bit(self.non_sliding_attackers(), i));
                assert(self.agrees_at(i));
                lemma_bit_consts(t as u64, i);
                assert(self.agrees_at(t));
                assert(i == p);
            }
            self.lemma_no_knight(n, p);
            self.lemma_no_pawn(n, p, true);
            self.lemma_no_pawn(n, p, false);
            self.lemma_no_king();
            let theirs = self.moved_player;
            let left = n.moved_player;
            assert(within(left.queens.0, theirs.queens.0 | theirs.rooks.0) && within(
                left.queens.0,
                theirs.queens.0 | theirs.bishops.0,
            ) && within(left.rooks.0, theirs.queens.0 | theirs.rooks.0) && within(
                left.bishops.0,
                theirs.queens.0 | theirs.bishops.0,
            )) by {
                broadcast use lemma_bit_or;

            }
            assert forall|d: Direction|
                !bit(#[trigger] slide(left.queens.0, n.real_empty(), d), self.king_square()) by {
                self.lemma_ep_no_slider(n, o, t, way, left.queens.0, d);
            }
            assert forall|d: Direction|
                d.line() == Line::Horizontal || d.line() == Line::Vertical implies !bit(
                    #[trigger] slide(left.rooks.0, n.real_empty(), d),
                    self.king_square(),
                ) by {
                self.lemma_ep_no_slider(n, o, t, way, left.rooks.0, d);
            }
            assert forall|d: Direction|
                d.line() == Line::Diagonal || d.line() == Line::AntiDiagonal implies !bit(
                    #[trigger] slide(left.bishops.0, n.real_empty(), d),
                    self.king_square(),
                ) by {
                self.lemma_ep_no_slider(n, o, t, way, left.bishops.0, d);
            }
            self.lemma_safe_parts(n);
        }
    }
}

impl Position {
    /// A king that is not attacked before the sides change roles belongs,
    /// after they have, to a side that is not in check.
    proof fn lemma_safe_guarded(self)
        requires
            self.spec_switch_sides().wf_placement(),
            self.safe(),
        ensures
            self.spec_switch_sides().spec_update_move_constraints().guarded(),
    {
        let turned = self.spec_switch_sides();
        let q = turned.spec_update_move_constraints();
        lemma_constraints_wf(turned);
        crate::invariants::lemma_constraints_keep(turned);
        let player = self.current_player.opponent();
        let map = q.mover_attacks();
        let king = q.moved_player.king.0;
        lemma_disjoint(self.threat().spec_attack_map(player), self.moving_player.king.0);
        assert(within(q.real_empty(), self.real_empty())) by {
            broadcast use lemma_bit_or, lemma_bit_not;

        }
        assert forall|i: int| 0 <= i < 64 implies bit(map & king, i) == bit(0, i) by {
            lemma_bit_and(map, king, i);
            lemma_bit_consts(0, i);
            if bit(map, i) && bit(king, i) {
                q.mover_gen().lemma_attacks_within(self.threat(), player, i);
            }
        }
        lemma_eq_by_bits(map & king, 0);
    }

    /// Computing the constraints on the side to move puts no side in check.
    pub proof fn lemma_guarded_kept(self)
        requires
            self.wf_placement(),
            self.guarded(),
        ensures
            self.spec_update_move_constraints().guarded(),
    {
        let q = self.spec_update_move_constraints();
        lemma_constraints_wf(self);
        crate::invariants::lemma_constraints_keep(self);
        let map = q.mover_attacks();
        let king = q.moved_player.king.0;
        lemma_disjoint(self.mover_attacks(), self.moved_player.king.0);
        assert forall|i: int| 0 <= i < 64 implies bit(map & king, i) == bit(0, i) by {
            lemma_bit_and(map, king, i);
            lemma_bit_consts(0, i);
            if bit(map, i) && bit(king, i) {
                q.mover_gen().lemma_attacks_within(self.mover_gen(), self.current_player, i);
            }
        }
        lemma_eq_by_bits(map & king, 0);
    }

    /// After a move that the generator emits in a sound position, the king
    /// of the side that has moved is not attacked.
    proof fn lemma_emitted_safe(self, shadow: u64, m: Move)
        requires
            self.wf(),
            self.guarded(),
            self.attacks_current(),
            self.constrained(shadow),
            self.emits(m),
        ensures
            self.spec_apply(m).safe(),
    {
        let g = Setting::of(self);
        let me = self.current_player;
        if g.is_king_move(m) {
            self.lemma_king_safe(m);
        } else if g.is_push(me, m) {
            self.lemma_push_safe(shadow, m);
        } else if g.is_double_push(me, m) {
            self.lemma_double_push_safe(shadow, m);
        } else if g.is_pawn_capture(me, m) {
            self.lemma_capture_safe(shadow, m);
        } else if g.is_en_passant(me, m) {
            self.lemma_ep_safe(shadow, m);
        } else if m == Move::CastleKS || m == Move::CastleQS {
            self.lemma_castle_safe(m);
        } else if g.is_piece_move(PieceKind::Knight, m) {
            self.lemma_piece_safe(shadow, PieceKind::Knight, m);
        } else if g.is_piece_move(PieceKind::Bishop, m) {
            self.lemma_piece_safe(shadow, PieceKind::Bishop, m);
        } else if g.is_piece_move(PieceKind::Rook, m) {
            self.lemma_piece_safe(shadow, PieceKind::Rook, m);
        } else {
            self.lemma_piece_safe(shadow, PieceKind::Queen, m);
        }
    }

    /// Every move that the generator emits in a well-formed and sound
    /// position is legal: the position admits it, and after it the side
    /// that has moved is not in check. The position after it is well
    /// formed and sound again.
    pub proof fn lemma_legal(self, m: Move)
        requires
            self.wf(),
            self.sound(),
            self.emits(m),
        ensures
            self.admits(m),
            self.spec_make_move(m).wf(),
            self.spec_make_move(m).guarded(),
            self.spec_make_move(m).sound(),
    {
        reveal(Position::spec_make_move);
        let shadow = choose|shadow: u64| self.constrained(shadow);
        let n = self.spec_apply(m);
        self.lemma_king_not_captured(m);
        self.lemma_emitted_admitted(m);
        lemma_apply_wf(self, m);
        lemma_make_move_wf(self, m);
        self.lemma_emitted_safe(shadow, m);
        n.lemma_safe_guarded();
        lemma_constraints_sound(n.spec_switch_sides());
        assert(self.spec_make_move(m).constrained(n.spec_switch_sides().ep_info.pawn.0));
    }
}

impl Position {
    /// Every move in the list of the generator is legal: the position
    /// admits it, and after it the side that has moved is not in check.
    pub proof fn lemma_generated_legal(self, i: int)
        requires
            self.wf(),
            self.sound(),
            0 <= i < self.spec_moves().len(),
        ensures
            self.admits(self.spec_moves()[i]),
            self.spec_make_move(self.spec_moves()[i]).guarded(),
            self.spec_make_move(self.spec_moves()[i]).wf(),
            self.spec_make_move(self.spec_moves()[i]).sound(),
    {
        let m = self.spec_moves()[i];
        assert(self.spec_moves().contains(m));
        self.lemma_moves(m);
        self.lemma_legal(m);
    }

    /// A capture en passant is generated only where it leaves the king of
    /// the capturing side out of check, also where the two pawns that
    /// leave the rank were all that stood between that king and a rook or
    /// queen.
    pub proof fn lemma_en_passant_legal(self, origin: Square)
        requires
            self.wf(),
            self.sound(),
            self.spec_moves().contains(Move::EnPassant { origin }),
        ensures
            self.spec_make_move(Move::EnPassant { origin }).guarded(),
    {
        self.lemma_moves(Move::EnPassant { origin });
        self.lemma_legal(Move::EnPassant { origin });
    }
}

} // verus!
