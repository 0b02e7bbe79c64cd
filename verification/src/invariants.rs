//! What every move keeps true of a position.
use vstd::prelude::*;
use crate::bitboard::{BitBoard, count_below};
use crate::bits::{
    bit, lemma_bit_and, lemma_bit_consts, lemma_bit_or, lemma_bit_xor, lemma_disjoint,
    lemma_eq_by_bits, lemma_single, lemma_single_bit, lowest, single,
};
use crate::board::{EnPassant, home, Position};
use crate::moves::Move;
use crate::piece::{PieceKind, Player};
use crate::player_state::{lemma_move_piece, lemma_place_piece, lemma_remove_piece, PlayerState};
use crate::slides::Direction;
use crate::square::Square;

verus! {

/// A king that steps from its square to another is still the one king of its side.
proof fn lemma_king_moves_on(state: PlayerState, origin: Square, target: Square)
    requires
        origin.wf(),
        target.wf(),
        origin != target,
        single(state.king.0),
        state.holds(PieceKind::King, origin.0 as int),
        state.vacant(target.0 as int),
    ensures
        single(state.spec_move_piece(PieceKind::King, origin, target).king.0),
{
    let next = state.spec_move_piece(PieceKind::King, origin, target);
    lemma_single(state.king.0);
    lemma_move_piece(state, PieceKind::King, origin, target, 0);
    assert forall|i: int| 0 <= i < 64 implies bit(next.king.0, i) == bit(1u64 << target.0, i) by {
        lemma_bit_consts(target.0 as u64, i);
        assert(next.board(PieceKind::King).contains(i) == (state.board(
            PieceKind::King,
        ).contains(i) != ((i == origin.0) != (i == target.0))));
    }
    lemma_eq_by_bits(next.king.0, 1u64 << target.0);
    lemma_single_bit(target.0 as u64);
}

/// The two sides as an ordinary move leaves them, before the pieces move:
/// with the castling rights that the move ends taken away.
spec fn mover_of(p: Position, origin: Square, kind: PieceKind) -> PlayerState {
    Position::rights_after(
        if kind == PieceKind::King {
            PlayerState { can_castle_ks: false, can_castle_qs: false, ..p.moving_player }
        } else {
            p.moving_player
        },
        origin,
        p.current_player,
    )
}

spec fn victim_of(p: Position, target: Square) -> PlayerState {
    Position::rights_after(p.moved_player, target, p.current_player.opponent())
}

/// After an ordinary move the piece map and the sets agree.
proof fn lemma_regular_agree(
    p: Position,
    origin: Square,
    target: Square,
    kind: PieceKind,
    double_push: bool,
)
    requires
        p.wf_placement(),
        p.admits(Move::Regular { origin, target, piece_kind: kind, double_push }),
    ensures
        p.spec_apply(
            Move::Regular { origin, target, piece_kind: kind, double_push },
        ).spec_switch_sides().squares_agree(),
{
    let m = Move::Regular { origin, target, piece_kind: kind, double_push };
    let q = p.spec_apply(m).spec_switch_sides();
    let mover = mover_of(p, origin, kind);
    let victim = victim_of(p, target);
    assert(p.agrees_at(origin.0 as int));
    assert(p.agrees_at(target.0 as int));
    assert forall|sq: int| 0 <= sq < 64 implies #[trigger] q.agrees_at(sq) by {
        assert(p.agrees_at(sq));
        lemma_move_piece(mover, kind, origin, target, sq);
        match p.pieces[target.0 as int] {
            Some(piece) => {
                lemma_remove_piece(victim, piece.piece_kind, target, sq);
            },
            None => {},
        }
    }
}

/// After an ordinary move each side still has one king.
proof fn lemma_regular_kings(
    p: Position,
    origin: Square,
    target: Square,
    kind: PieceKind,
    double_push: bool,
)
    requires
        p.wf_placement(),
        p.admits(Move::Regular { origin, target, piece_kind: kind, double_push }),
    ensures
        ({
            let q = p.spec_apply(
                Move::Regular { origin, target, piece_kind: kind, double_push },
            ).spec_switch_sides();
            single(q.moving_player.king.0) && single(q.moved_player.king.0)
        }),
{
    let mover = mover_of(p, origin, kind);
    let victim = victim_of(p, target);
    assert(p.agrees_at(origin.0 as int));
    assert(p.agrees_at(target.0 as int));
    lemma_move_piece(mover, kind, origin, target, 0);
    if kind == PieceKind::King {
        lemma_king_moves_on(mover, origin, target);
    }
    match p.pieces[target.0 as int] {
        Some(piece) => {
            lemma_remove_piece(victim, piece.piece_kind, target, 0);
        },
        None => {},
    }
}

/// After an ordinary move the castling rights that are left fit the pieces.
proof fn lemma_regular_rights(
    p: Position,
    origin: Square,
    target: Square,
    kind: PieceKind,
    double_push: bool,
)
    requires
        p.wf_placement(),
        p.admits(Move::Regular { origin, target, piece_kind: kind, double_push }),
    ensures
        p.spec_apply(
            Move::Regular { origin, target, piece_kind: kind, double_push },
        ).spec_switch_sides().castling_wf(),
{
}

/// After an ordinary move the en-passant state fits the pieces.
proof fn lemma_regular_ep(
    p: Position,
    origin: Square,
    target: Square,
    kind: PieceKind,
    double_push: bool,
)
    requires
        p.wf_placement(),
        p.admits(Move::Regular { origin, target, piece_kind: kind, double_push }),
    ensures
        p.spec_apply(
            Move::Regular { origin, target, piece_kind: kind, double_push },
        ).spec_switch_sides().ep_wf(),
{
    if double_push {
        lemma_single_bit(target.0 as u64);
        match p.current_player {
            Player::White => {
                lemma_single_bit((target.0 - 8) as u64);
            },
            Player::Black => {
                lemma_single_bit((target.0 + 8) as u64);
            },
        }
    }
}

/// An ordinary move keeps the pieces of the position well formed.
proof fn lemma_regular_wf(
    p: Position,
    origin: Square,
    target: Square,
    kind: PieceKind,
    double_push: bool,
)
    requires
        p.wf_placement(),
        p.admits(Move::Regular { origin, target, piece_kind: kind, double_push }),
    ensures
        p.spec_apply(
            Move::Regular { origin, target, piece_kind: kind, double_push },
        ).spec_switch_sides().wf_placement(),
{
    lemma_regular_agree(p, origin, target, kind, double_push);
    lemma_regular_kings(p, origin, target, kind, double_push);
    lemma_regular_rights(p, origin, target, kind, double_push);
    lemma_regular_ep(p, origin, target, kind, double_push);
}

/// A capture en passant keeps the pieces of the position well formed.
proof fn lemma_en_passant_wf(p: Position, origin: Square)
    requires
        p.wf_placement(),
        p.admits(Move::EnPassant { origin }),
    ensures
        p.spec_apply(Move::EnPassant { origin }).spec_switch_sides().wf_placement(),
{
    let m = Move::EnPassant { origin };
    let n = p.spec_apply(m);
    let q = n.spec_switch_sides();
    let move_to = Square(lowest(p.ep_info.capture_point.0) as u32);
    let captured = Square(lowest(p.ep_info.pawn.0) as u32);
    assert(p.ep_info.capture_point.0 != 0);
    assert(p.agrees_at(origin.0 as int));
    assert(p.agrees_at(move_to.0 as int));
    assert(p.agrees_at(captured.0 as int));
    assert forall|sq: int| 0 <= sq < 64 implies #[trigger] q.agrees_at(sq) by {
        assert(p.agrees_at(sq));
        lemma_move_piece(p.moving_player, PieceKind::Pawn, origin, move_to, sq);
        lemma_remove_piece(p.moved_player, PieceKind::Pawn, captured, sq);
    }
    lemma_move_piece(p.moving_player, PieceKind::Pawn, origin, move_to, 0);
    lemma_remove_piece(p.moved_player, PieceKind::Pawn, captured, 0);
    assert(q.castling_wf());
}

/// A promotion keeps the pieces of the position well formed.
proof fn lemma_promotion_wf(p: Position, origin: Square, target: Square, promotion_to: PieceKind)
    requires
        p.wf_placement(),
        p.admits(Move::Promotion { origin, target, promotion_to }),
    ensures
        p.spec_apply(
            Move::Promotion { origin, target, promotion_to },
        ).spec_switch_sides().wf_placement(),
{
    let m = Move::Promotion { origin, target, promotion_to };
    let n = p.spec_apply(m);
    let q = n.spec_switch_sides();
    let me = p.current_player;
    let you = me.opponent();
    let victim = Position::rights_after(p.moved_player, target, you);
    let lifted = p.moving_player.spec_remove_piece(PieceKind::Pawn, origin);
    assert(p.agrees_at(origin.0 as int));
    assert(p.agrees_at(target.0 as int));
    lemma_remove_piece(p.moving_player, PieceKind::Pawn, origin, target.0 as int);
    assert forall|sq: int| 0 <= sq < 64 implies #[trigger] q.agrees_at(sq) by {
        assert(p.agrees_at(sq));
        lemma_remove_piece(p.moving_player, PieceKind::Pawn, origin, sq);
        lemma_place_piece(lifted, promotion_to, target, sq);
        match p.pieces[target.0 as int] {
            Some(piece) => {
                lemma_remove_piece(victim, piece.piece_kind, target, sq);
            },
            None => {},
        }
    }
    lemma_remove_piece(p.moving_player, PieceKind::Pawn, origin, 0);
    lemma_place_piece(lifted, promotion_to, target, 0);
    match p.pieces[target.0 as int] {
        Some(piece) => {
            lemma_remove_piece(victim, piece.piece_kind, target, 0);
        },
        None => {},
    }
    assert(q.castling_wf());
}

/// Castling keeps the pieces of the position well formed.
proof fn lemma_castle_wf(p: Position, king_to: int, rook_from: int, rook_to: int)
    requires
        p.wf_placement(),
        (king_to == 6 && rook_from == 7 && rook_to == 5) || (king_to == 2 && rook_from == 0
            && rook_to == 3),
        p.has(home(p.current_player) + 4, PieceKind::King, p.current_player),
        p.has(home(p.current_player) + rook_from, PieceKind::Rook, p.current_player),
        p.pieces[home(p.current_player) + king_to] is None,
        p.pieces[home(p.current_player) + rook_to] is None,
    ensures
        p.spec_castle(4, king_to, rook_from, rook_to).spec_switch_sides().wf_placement(),
{
    let n = p.spec_castle(4, king_to, rook_from, rook_to);
    let q = n.spec_switch_sides();
    let base = home(p.current_player);
    let k0 = Square((base + 4) as u32);
    let k1 = Square((base + king_to) as u32);
    let r0 = Square((base + rook_from) as u32);
    let r1 = Square((base + rook_to) as u32);
    let stepped = p.moving_player.spec_move_piece(PieceKind::King, k0, k1);
    assert(p.agrees_at(k0.0 as int));
    assert(p.agrees_at(k1.0 as int));
    assert(p.agrees_at(r0.0 as int));
    assert(p.agrees_at(r1.0 as int));
    lemma_move_piece(p.moving_player, PieceKind::King, k0, k1, r0.0 as int);
    lemma_move_piece(p.moving_player, PieceKind::King, k0, k1, r1.0 as int);
    assert forall|sq: int| 0 <= sq < 64 implies #[trigger] q.agrees_at(sq) by {
        assert(p.agrees_at(sq));
        lemma_move_piece(p.moving_player, PieceKind::King, k0, k1, sq);
        lemma_move_piece(stepped, PieceKind::Rook, r0, r1, sq);
    }
    lemma_king_moves_on(p.moving_player, k0, k1);
    lemma_move_piece(stepped, PieceKind::Rook, r0, r1, 0);
    assert(q.castling_wf());
}

/// Whatever move the position admits, the pieces are well formed after it.
pub proof fn lemma_apply_wf(p: Position, m: Move)
    requires
        p.wf_placement(),
        p.admits(m),
    ensures
        p.spec_apply(m).spec_switch_sides().wf_placement(),
{
    match m {
        Move::Regular { origin, target, piece_kind, double_push } => {
            lemma_regular_wf(p, origin, target, piece_kind, double_push);
        },
        Move::EnPassant { origin } => {
            lemma_en_passant_wf(p, origin);
        },
        Move::Promotion { origin, target, promotion_to } => {
            lemma_promotion_wf(p, origin, target, promotion_to);
        },
        Move::CastleKS => {
            lemma_castle_wf(p, 6, 7, 5);
        },
        Move::CastleQS => {
            lemma_castle_wf(p, 2, 0, 3);
        },
    }
}

/// `after` has the pieces of `before` where `before` had them, and an
/// en-passant state that is that of `before` or empty.
pub open spec fn settles(before: Position, after: Position) -> bool {
    &&& before.same_placement(after)
    &&& after.ep_info == before.ep_info || after.ep_info == EnPassant::spec_new()
    &&& before.moving_player.check_mask.0 != 0 ==> after.moving_player.check_mask.0 != 0
}

/// Constraints and en-passant state are no part of what makes the pieces well formed.
proof fn lemma_settles_wf(before: Position, after: Position)
    requires
        before.wf_placement(),
        settles(before, after),
    ensures
        after.wf_placement(),
{
    assert forall|sq: int| 0 <= sq < 64 implies #[trigger] after.agrees_at(sq) by {
        assert(before.agrees_at(sq));
    }
}

/// One ray changes neither the pieces nor the side to move, and leaves the
/// check mask with a square in it.
proof fn lemma_after_ray_settles(p: Position, ray: u64, d: Direction, ep_attackers: u64)
    ensures
        settles(p, p.after_ray(ray, d, ep_attackers)),
{
    lemma_disjoint(ray, p.casters(d));
    if ray & p.casters(d) != 0 {
        lemma_bit_consts(0, lowest(ray & p.casters(d)));
    }
}

/// The rays change neither the pieces nor the side to move, and leave the check mask with a
/// square in it.
pub proof fn lemma_after_rays_settles(p: Position, i: int, through: u64, ep_attackers: u64)
    ensures
        settles(p, p.after_rays(i, through, ep_attackers)),
    decreases 8 - i,
{
    if 0 <= i < 8 {
        let d = crate::board::ray_order(i);
        let ray = p.king_ray(through, d);
        let next = p.after_ray(ray, d, ep_attackers);
        lemma_after_ray_settles(p, ray, d, ep_attackers);
        if !p.ray_stops(ray, d) {
            lemma_after_rays_settles(next, i + 1, through, ep_attackers);
        }
    }
}

/// Computing the constraints on the side to move keeps the pieces well
/// formed, and gives a check mask that is the whole board or holds a square.
pub proof fn lemma_constraints_wf(p: Position)
    requires
        p.wf_placement(),
    ensures
        p.spec_update_move_constraints().wf(),
        p.spec_update_move_constraints().pieces == p.pieces,
        p.spec_update_move_constraints().current_player == p.current_player,
{
    let a = p.spec_reset_constraints().spec_update_attacks();
    let b = a.spec_update_pins_and_scm();
    let c = b.spec_update_non_sliding_cm();
    assert forall|sq: int| 0 <= sq < 64 implies #[trigger] a.agrees_at(sq) by {
        assert(p.agrees_at(sq));
    }
    assert(a.wf_placement());
    lemma_after_rays_settles(a, 0, a.ray_squares(), a.ep_attackers());
    lemma_settles_wf(a, b);
    assert(settles(b, c));
    lemma_settles_wf(b, c);
}

/// Computing the constraints on the side to move moves no piece.
pub proof fn lemma_constraints_keep(p: Position)
    ensures
        ({
            let q = p.spec_update_move_constraints();
            &&& q.current_player == p.current_player
            &&& q.moved_player.king == p.moved_player.king
            &&& q.moved_player.occupied == p.moved_player.occupied
            &&& q.moving_player.king == p.moving_player.king
            &&& q.moving_player.queens == p.moving_player.queens
            &&& q.moving_player.rooks == p.moving_player.rooks
            &&& q.moving_player.bishops == p.moving_player.bishops
            &&& q.moving_player.knights == p.moving_player.knights
            &&& q.moving_player.pawns == p.moving_player.pawns
            &&& q.moving_player.occupied == p.moving_player.occupied
        }),
{
    let a = p.spec_reset_constraints().spec_update_attacks();
    lemma_after_rays_settles(a, 0, a.ray_squares(), a.ep_attackers());
}

/// Every move that a well-formed position admits leads to a well-formed
/// position: no square has two owners, each side's sets of pieces are
/// disjoint and make up its set of all pieces, each side has one king, the
/// piece map agrees with the sets on every square, and the check mask is the
/// whole board or holds a square.
pub proof fn lemma_make_move_wf(p: Position, m: Move)
    requires
        p.wf(),
        p.admits(m),
    ensures
        p.spec_make_move(m).wf(),
{
    reveal(Position::spec_make_move);
    lemma_apply_wf(p, m);
    lemma_constraints_wf(p.spec_apply(m).spec_switch_sides());
}

/// The six sets of one side are disjoint two by two, and make up `occupied`.
pub open spec fn partitioned(state: PlayerState) -> bool {
    &&& state.occupied.0 == state.king.0 | state.queens.0 | state.rooks.0 | state.bishops.0
        | state.knights.0 | state.pawns.0
    &&& state.king.0 & state.queens.0 == 0
    &&& state.king.0 & state.rooks.0 == 0
    &&& state.king.0 & state.bishops.0 == 0
    &&& state.king.0 & state.knights.0 == 0
    &&& state.king.0 & state.pawns.0 == 0
    &&& state.queens.0 & state.rooks.0 == 0
    &&& state.queens.0 & state.bishops.0 == 0
    &&& state.queens.0 & state.knights.0 == 0
    &&& state.queens.0 & state.pawns.0 == 0
    &&& state.rooks.0 & state.bishops.0 == 0
    &&& state.rooks.0 & state.knights.0 == 0
    &&& state.rooks.0 & state.pawns.0 == 0
    &&& state.bishops.0 & state.knights.0 == 0
    &&& state.bishops.0 & state.pawns.0 == 0
    &&& state.knights.0 & state.pawns.0 == 0
}

/// Two sets with no square in common have an empty intersection.
proof fn lemma_apart(x: u64, y: u64)
    requires
        forall|i: int| 0 <= i < 64 ==> !(bit(x, i) && bit(y, i)),
    ensures
        x & y == 0,
{
    assert forall|i: int| 0 <= i < 64 implies bit(x & y, i) == bit(0, i) by {
        lemma_bit_and(x, y, i);
        lemma_bit_consts(0, i);
    }
    lemma_eq_by_bits(x & y, 0);
}

/// On square `sq` the side holds nothing, or a piece of one kind only.
pub open spec fn tidy_at(state: PlayerState, sq: int) -> bool {
    state.vacant(sq) || exists|kind: PieceKind| #[trigger] state.holds(kind, sq)
}

/// A side that holds at most one kind of piece on each square, and whose
/// `occupied` holds the squares where it holds one, is partitioned.
proof fn lemma_partitioned(state: PlayerState)
    requires
        forall|sq: int| 0 <= sq < 64 ==> #[trigger] tidy_at(state, sq),
    ensures
        partitioned(state),
{
    let all = state.king.0 | state.queens.0 | state.rooks.0 | state.bishops.0 | state.knights.0
        | state.pawns.0;
    assert forall|i: int| 0 <= i < 64 implies bit(state.occupied.0, i) == bit(all, i) by {
        broadcast use lemma_bit_or;

        assert(tidy_at(state, i));
    }
    lemma_eq_by_bits(state.occupied.0, all);
    assert forall|i: int| 0 <= i < 64 implies !(bit(state.king.0, i) && bit(state.queens.0, i)) by {
        assert(tidy_at(state, i));
    }
    lemma_apart(state.king.0, state.queens.0);
    assert forall|i: int| 0 <= i < 64 implies !(bit(state.king.0, i) && bit(state.rooks.0, i)) by {
        assert(tidy_at(state, i));
    }
    lemma_apart(state.king.0, state.rooks.0);
    assert forall|i: int| 0 <= i < 64 implies !(bit(state.king.0, i) && bit(state.bishops.0, i)) by {
        assert(tidy_at(state, i));
    }
    lemma_apart(state.king.0, state.bishops.0);
    assert forall|i: int| 0 <= i < 64 implies !(bit(state.king.0, i) && bit(state.knights.0, i)) by {
        assert(tidy_at(state, i));
    }
    lemma_apart(state.king.0, state.knights.0);
    assert forall|i: int| 0 <= i < 64 implies !(bit(state.king.0, i) && bit(state.pawns.0, i)) by {
        assert(tidy_at(state, i));
    }
    lemma_apart(state.king.0, state.pawns.0);
    assert forall|i: int| 0 <= i < 64 implies !(bit(state.queens.0, i) && bit(state.rooks.0, i)) by {
        assert(tidy_at(state, i));
    }
    lemma_apart(state.queens.0, state.rooks.0);
    assert forall|i: int| 0 <= i < 64 implies !(bit(state.queens.0, i) && bit(state.bishops.0, i)) by {
        assert(tidy_at(state, i));
    }
    lemma_apart(state.queens.0, state.bishops.0);
    assert forall|i: int| 0 <= i < 64 implies !(bit(state.queens.0, i) && bit(state.knights.0, i)) by {
        assert(tidy_at(state, i));
    }
    lemma_apart(state.queens.0, state.knights.0);
    assert forall|i: int| 0 <= i < 64 implies !(bit(state.queens.0, i) && bit(state.pawns.0, i)) by {
        assert(tidy_at(state, i));
    }
    lemma_apart(state.queens.0, state.pawns.0);
    assert forall|i: int| 0 <= i < 64 implies !(bit(state.rooks.0, i) && bit(state.bishops.0, i)) by {
        assert(tidy_at(state, i));
    }
    lemma_apart(state.rooks.0, state.bishops.0);
    assert forall|i: int| 0 <= i < 64 implies !(bit(state.rooks.0, i) && bit(state.knights.0, i)) by {
        assert(tidy_at(state, i));
    }
    lemma_apart(state.rooks.0, state.knights.0);
    assert forall|i: int| 0 <= i < 64 implies !(bit(state.rooks.0, i) && bit(state.pawns.0, i)) by {
        assert(tidy_at(state, i));
    }
    lemma_apart(state.rooks.0, state.pawns.0);
    assert forall|i: int| 0 <= i < 64 implies !(bit(state.bishops.0, i) && bit(state.knights.0, i)) by {
        assert(tidy_at(state, i));
    }
    lemma_apart(state.bishops.0, state.knights.0);
    assert forall|i: int| 0 <= i < 64 implies !(bit(state.bishops.0, i) && bit(state.pawns.0, i)) by {
        assert(tidy_at(state, i));
    }
    lemma_apart(state.bishops.0, state.pawns.0);
    assert forall|i: int| 0 <= i < 64 implies !(bit(state.knights.0, i) && bit(state.pawns.0, i)) by {
        assert(tidy_at(state, i));
    }
    lemma_apart(state.knights.0, state.pawns.0);
}

/// Where the piece map and the sets agree, each side's set of all pieces is
/// the union of its six sets by kind, and those six are disjoint two by two.
pub proof fn lemma_sides_partitioned(p: Position)
    requires
        p.squares_agree(),
    ensures
        partitioned(p.moving_player),
        partitioned(p.moved_player),
{
    assert forall|sq: int| 0 <= sq < 64 implies #[trigger] tidy_at(p.moving_player, sq) by {
        assert(p.agrees_at(sq));
        match p.pieces[sq] {
            Some(piece) => {
                if piece.player == p.current_player {
                    assert(p.moving_player.holds(piece.piece_kind, sq));
                }
            },
            None => {},
        }
    }
    assert forall|sq: int| 0 <= sq < 64 implies #[trigger] tidy_at(p.moved_player, sq) by {
        assert(p.agrees_at(sq));
        match p.pieces[sq] {
            Some(piece) => {
                if piece.player != p.current_player {
                    assert(p.moved_player.holds(piece.piece_kind, sq));
                }
            },
            None => {},
        }
    }
    lemma_partitioned(p.moving_player);
    lemma_partitioned(p.moved_player);
}

/// Two sets with no square in common have, one with the other, as many
/// squares below `n` as both together.
proof fn lemma_count_apart(x: u64, y: u64, n: int)
    requires
        0 <= n <= 64,
        forall|i: int| 0 <= i < 64 ==> !(bit(x, i) && bit(y, i)),
    ensures
        count_below(x ^ y, n) == count_below(x, n) + count_below(y, n),
    decreases n,
{
    if n > 0 {
        lemma_count_apart(x, y, n - 1);
        lemma_bit_xor(x, y, n - 1);
    }
}

/// In a well-formed position no square has two owners: the two sides' sets
/// of all pieces are disjoint, and their symmetric difference has as many
/// squares as the two sets together.
pub proof fn lemma_no_square_shared(p: Position)
    requires
        p.wf(),
    ensures
        p.moving_player.occupied.0 & p.moved_player.occupied.0 == 0,
        BitBoard(p.moving_player.occupied.0 ^ p.moved_player.occupied.0).size()
            == p.moving_player.occupied.size() + p.moved_player.occupied.size(),
{
    let x = p.moving_player.occupied.0;
    let y = p.moved_player.occupied.0;
    assert forall|i: int| 0 <= i < 64 implies !(bit(x, i) && bit(y, i)) by {
        assert(p.agrees_at(i));
    }
    lemma_apart(x, y);
    lemma_count_apart(x, y, 64);
}

} // verus!
