//! What the generator emits, move by move.
use vstd::prelude::*;
use crate::bits::{bit, lemma_bit_and, lemma_bit_not, lemma_squares_members, lowest, squares};
use crate::board::Position;
use crate::moves::{
    double_push, double_pushes, last_rank, Move, on_last_rank, pawn_move, pawn_moves, piece_moves,
    promotions, regular, Setting,
};
use crate::piece::{PieceKind, Player};
use crate::square::Square;

verus! {

/// A move is in two lists joined when it is in one of them.
pub proof fn lemma_in_joined(a: Seq<Move>, b: Seq<Move>, m: Move)
    ensures
        (a + b).contains(m) <==> a.contains(m) || b.contains(m),
{
    if a.contains(m) {
        let i = choose|i: int| 0 <= i < a.len() && a[i] == m;
        assert((a + b)[i] == m);
    }
    if b.contains(m) {
        let i = choose|i: int| 0 <= i < b.len() && b[i] == m;
        assert((a + b)[a.len() + i] == m);
    }
    if (a + b).contains(m) {
        let i = choose|i: int| 0 <= i < (a + b).len() && (a + b)[i] == m;
        if i < a.len() {
            assert(a[i] == m);
        } else {
            assert(b[i - a.len()] == m);
        }
    }
}

/// A move is in a list with one more move when it is that move or in the list.
pub proof fn lemma_in_pushed(a: Seq<Move>, x: Move, m: Move)
    ensures
        a.push(x).contains(m) <==> a.contains(m) || m == x,
{
    assert(a.push(x) =~= a + seq![x]);
    lemma_in_joined(a, seq![x], m);
    if seq![x].contains(m) {
        let i = choose|i: int| 0 <= i < seq![x].len() && seq![x][i] == m;
    }
    if m == x {
        assert(seq![x][0] == m);
    }
}

/// The moves of one piece are the moves to its targets.
pub proof fn lemma_in_piece_moves(origin: Square, kind: PieceKind, targets: Seq<u32>, m: Move)
    ensures
        piece_moves(origin, kind, targets).contains(m) <==> exists|i: int|
            0 <= i < targets.len() && m == regular(origin, #[trigger] targets[i], kind),
    decreases targets.len(),
{
    if targets.len() == 0 {
        if piece_moves(origin, kind, targets).contains(m) {
            let i = choose|i: int|
                0 <= i < piece_moves(origin, kind, targets).len() && piece_moves(
                    origin,
                    kind,
                    targets,
                )[i] == m;
        }
    } else {
        let before = targets.drop_last();
        lemma_in_piece_moves(origin, kind, before, m);
        lemma_in_pushed(
            piece_moves(origin, kind, before),
            regular(origin, targets.last(), kind),
            m,
        );
        if piece_moves(origin, kind, targets).contains(m) {
            if m == regular(origin, targets.last(), kind) {
                assert(m == regular(origin, targets[targets.len() - 1], kind));
            } else {
                let i = choose|i: int|
                    0 <= i < before.len() && m == regular(origin, #[trigger] before[i], kind);
                assert(m == regular(origin, targets[i], kind));
            }
        }
        if exists|i: int| 0 <= i < targets.len() && m == regular(origin, #[trigger] targets[i], kind) {
            let i = choose|i: int|
                0 <= i < targets.len() && m == regular(origin, #[trigger] targets[i], kind);
            if i < before.len() {
                assert(m == regular(origin, before[i], kind));
            }
        }
    }
}

/// The moves of one piece to the squares of a set: the ordinary moves of
/// that piece that land in the set.
pub proof fn lemma_in_moves_to(origin: Square, kind: PieceKind, set: u64, m: Move)
    ensures
        piece_moves(origin, kind, squares(set)).contains(m) <==> (m matches Move::Regular {
            origin: o,
            target,
            piece_kind,
            double_push,
        } && o == origin && piece_kind == kind && !double_push && bit(set, target.0 as int)),
{
    let targets = squares(set);
    lemma_in_piece_moves(origin, kind, targets, m);
    lemma_squares_members(set, 0);
    if piece_moves(origin, kind, targets).contains(m) {
        let i = choose|i: int|
            0 <= i < targets.len() && m == regular(origin, #[trigger] targets[i], kind);
        assert(targets.contains(targets[i]));
    }
    if let Move::Regular { origin: o, target, piece_kind, double_push } = m {
        if o == origin && piece_kind == kind && !double_push && bit(set, target.0 as int) {
            assert(targets.contains(target.0));
            let i = choose|i: int| 0 <= i < targets.len() && targets[i] == target.0;
            assert(m == regular(origin, targets[i], kind));
        }
    }
}

/// What the pawns emit is what they emit for one of their targets.
pub proof fn lemma_in_pawn_moves(player: Player, back: int, targets: Seq<u32>, m: Move)
    ensures
        pawn_moves(player, back, targets).contains(m) <==> exists|i: int|
            0 <= i < targets.len() && pawn_move(player, back, #[trigger] targets[i]).contains(m),
    decreases targets.len(),
{
    if targets.len() == 0 {
        if pawn_moves(player, back, targets).contains(m) {
            let i = choose|i: int|
                0 <= i < pawn_moves(player, back, targets).len() && pawn_moves(
                    player,
                    back,
                    targets,
                )[i] == m;
        }
    } else {
        let before = targets.drop_last();
        lemma_in_pawn_moves(player, back, before, m);
        lemma_in_joined(
            pawn_moves(player, back, before),
            pawn_move(player, back, targets.last()),
            m,
        );
        if pawn_moves(player, back, targets).contains(m) {
            if pawn_move(player, back, targets.last()).contains(m) {
                assert(pawn_move(player, back, targets[targets.len() - 1]).contains(m));
            } else {
                let i = choose|i: int|
                    0 <= i < before.len() && pawn_move(player, back, #[trigger] before[i]).contains(
                        m,
                    );
                assert(pawn_move(player, back, targets[i]).contains(m));
            }
        }
        if exists|i: int|
            0 <= i < targets.len() && pawn_move(player, back, #[trigger] targets[i]).contains(m) {
            let i = choose|i: int|
                0 <= i < targets.len() && pawn_move(player, back, #[trigger] targets[i]).contains(
                    m,
                );
            if i < before.len() {
                assert(pawn_move(player, back, before[i]).contains(m));
            }
        }
    }
}

/// A kind that a pawn can promote to.
pub open spec fn promotes_to(kind: PieceKind) -> bool {
    kind == PieceKind::Queen || kind == PieceKind::Rook || kind == PieceKind::Bishop || kind
        == PieceKind::Knight
}

/// The move `m` is of a pawn of `player` that lands on `target` from
/// `back` ordinals away: one of the four promotions on the last rank, the
/// ordinary move elsewhere.
pub open spec fn is_pawn_move(player: Player, back: int, target: u32, m: Move) -> bool {
    let from = Square((target + back) as u32);
    match m {
        Move::Regular { origin, target: t, piece_kind, double_push } => !on_last_rank(
            player,
            target,
        ) && origin == from && t == Square(target) && piece_kind == PieceKind::Pawn
            && !double_push,
        Move::Promotion { origin, target: t, promotion_to } => on_last_rank(player, target)
            && origin == from && t == Square(target) && promotes_to(promotion_to),
        _ => false,
    }
}

/// What a pawn emits for a target.
pub proof fn lemma_in_pawn_move(player: Player, back: int, target: u32, m: Move)
    ensures
        pawn_move(player, back, target).contains(m) <==> is_pawn_move(player, back, target, m),
{
    let from = Square((target + back) as u32);
    let list = pawn_move(player, back, target);
    if list.contains(m) {
        let i = choose|i: int| 0 <= i < list.len() && list[i] == m;
    }
    if is_pawn_move(player, back, target, m) {
        if on_last_rank(player, target) {
            let four = promotions(from, Square(target));
            match m->Promotion_promotion_to {
                PieceKind::Queen => {
                    assert(four[0] == m);
                },
                PieceKind::Rook => {
                    assert(four[1] == m);
                },
                PieceKind::Bishop => {
                    assert(four[2] == m);
                },
                _ => {
                    assert(four[3] == m);
                },
            }
        } else {
            assert(list[0] == m);
        }
    }
}

/// What the pawns emit that land on the squares of a set.
pub proof fn lemma_in_pawn_moves_to(player: Player, back: int, set: u64, m: Move)
    ensures
        pawn_moves(player, back, squares(set)).contains(m) <==> exists|t: u32|
            bit(set, t as int) && #[trigger] is_pawn_move(player, back, t, m),
{
    let targets = squares(set);
    lemma_in_pawn_moves(player, back, targets, m);
    lemma_squares_members(set, 0);
    if pawn_moves(player, back, targets).contains(m) {
        let i = choose|i: int|
            0 <= i < targets.len() && pawn_move(player, back, #[trigger] targets[i]).contains(m);
        lemma_in_pawn_move(player, back, targets[i], m);
        assert(targets.contains(targets[i]));
        assert(bit(set, targets[i] as int) && is_pawn_move(player, back, targets[i], m));
    }
    if exists|t: u32| bit(set, t as int) && #[trigger] is_pawn_move(player, back, t, m) {
        let t = choose|t: u32| bit(set, t as int) && #[trigger] is_pawn_move(player, back, t, m);
        assert(targets.contains(t));
        let i = choose|i: int| 0 <= i < targets.len() && targets[i] == t;
        lemma_in_pawn_move(player, back, targets[i], m);
    }
}

/// The advances by two ranks are those to the targets.
pub proof fn lemma_in_double_pushes(back: int, targets: Seq<u32>, m: Move)
    ensures
        double_pushes(back, targets).contains(m) <==> exists|i: int|
            0 <= i < targets.len() && m == double_push(back, #[trigger] targets[i]),
    decreases targets.len(),
{
    if targets.len() == 0 {
        if double_pushes(back, targets).contains(m) {
            let i = choose|i: int|
                0 <= i < double_pushes(back, targets).len() && double_pushes(back, targets)[i]
                    == m;
        }
    } else {
        let before = targets.drop_last();
        lemma_in_double_pushes(back, before, m);
        lemma_in_pushed(double_pushes(back, before), double_push(back, targets.last()), m);
        if double_pushes(back, targets).contains(m) {
            if m == double_push(back, targets.last()) {
                assert(m == double_push(back, targets[targets.len() - 1]));
            } else {
                let i = choose|i: int|
                    0 <= i < before.len() && m == double_push(back, #[trigger] before[i]);
                assert(m == double_push(back, targets[i]));
            }
        }
        if exists|i: int| 0 <= i < targets.len() && m == double_push(back, #[trigger] targets[i]) {
            let i = choose|i: int|
                0 <= i < targets.len() && m == double_push(back, #[trigger] targets[i]);
            if i < before.len() {
                assert(m == double_push(back, before[i]));
            }
        }
    }
}

/// The advances by two ranks that land on the squares of a set.
pub proof fn lemma_in_double_pushes_to(back: int, set: u64, m: Move)
    ensures
        double_pushes(back, squares(set)).contains(m) <==> exists|t: u32|
            bit(set, t as int) && m == #[trigger] double_push(back, t),
{
    let targets = squares(set);
    lemma_in_double_pushes(back, targets, m);
    lemma_squares_members(set, 0);
    if double_pushes(back, targets).contains(m) {
        let i = choose|i: int|
            0 <= i < targets.len() && m == double_push(back, #[trigger] targets[i]);
        assert(targets.contains(targets[i]));
        assert(bit(set, targets[i] as int) && m == double_push(back, targets[i]));
    }
    if exists|t: u32| bit(set, t as int) && m == #[trigger] double_push(back, t) {
        let t = choose|t: u32| bit(set, t as int) && m == #[trigger] double_push(back, t);
        assert(targets.contains(t));
        let i = choose|i: int| 0 <= i < targets.len() && targets[i] == t;
        assert(m == double_push(back, targets[i]));
    }
}

impl Setting {
    /// The move `m` is an ordinary move of a piece of `kind` that may move,
    /// to a square where that piece can go.
    pub open spec fn is_piece_move(self, kind: PieceKind, m: Move) -> bool {
        m matches Move::Regular { origin, target, piece_kind, double_push } && piece_kind == kind
            && !double_push && bit(self.movers(kind), origin.0 as int) && bit(
            self.targets(kind, origin.0),
            target.0 as int,
        )
    }

    /// The moves of the pieces on `origins` are the moves of one of them.
    pub proof fn lemma_in_each_piece(self, kind: PieceKind, origins: Seq<u32>, m: Move)
        ensures
            self.each_piece(kind, origins).contains(m) <==> exists|i: int|
                0 <= i < origins.len() && piece_moves(
                    Square(#[trigger] origins[i]),
                    kind,
                    squares(self.targets(kind, origins[i])),
                ).contains(m),
        decreases origins.len(),
    {
        if origins.len() == 0 {
            if self.each_piece(kind, origins).contains(m) {
                let i = choose|i: int|
                    0 <= i < self.each_piece(kind, origins).len() && self.each_piece(
                        kind,
                        origins,
                    )[i] == m;
            }
        } else {
            let before = origins.drop_last();
            let last = piece_moves(
                Square(origins.last()),
                kind,
                squares(self.targets(kind, origins.last())),
            );
            self.lemma_in_each_piece(kind, before, m);
            lemma_in_joined(self.each_piece(kind, before), last, m);
            if self.each_piece(kind, origins).contains(m) {
                if last.contains(m) {
                    assert(piece_moves(
                        Square(origins[origins.len() - 1]),
                        kind,
                        squares(self.targets(kind, origins[origins.len() - 1])),
                    ).contains(m));
                } else {
                    let i = choose|i: int|
                        0 <= i < before.len() && piece_moves(
                            Square(#[trigger] before[i]),
                            kind,
                            squares(self.targets(kind, before[i])),
                        ).contains(m);
                    assert(piece_moves(
                        Square(origins[i]),
                        kind,
                        squares(self.targets(kind, origins[i])),
                    ).contains(m));
                }
            }
            if exists|i: int|
                0 <= i < origins.len() && piece_moves(
                    Square(#[trigger] origins[i]),
                    kind,
                    squares(self.targets(kind, origins[i])),
                ).contains(m) {
                let i = choose|i: int|
                    0 <= i < origins.len() && piece_moves(
                        Square(#[trigger] origins[i]),
                        kind,
                        squares(self.targets(kind, origins[i])),
                    ).contains(m);
                if i < before.len() {
                    assert(piece_moves(
                        Square(before[i]),
                        kind,
                        squares(self.targets(kind, before[i])),
                    ).contains(m));
                }
            }
        }
    }

    /// The moves of the pieces of one kind: the ordinary moves of a piece
    /// of that kind that may move, to a square where it can go.
    pub proof fn lemma_in_piece_moves(self, kind: PieceKind, m: Move)
        ensures
            self.spec_piece_moves(kind).contains(m) <==> self.is_piece_move(kind, m),
    {
        let origins = squares(self.movers(kind));
        self.lemma_in_each_piece(kind, origins, m);
        lemma_squares_members(self.movers(kind), 0);
        if self.spec_piece_moves(kind).contains(m) {
            let i = choose|i: int|
                0 <= i < origins.len() && piece_moves(
                    Square(#[trigger] origins[i]),
                    kind,
                    squares(self.targets(kind, origins[i])),
                ).contains(m);
            lemma_in_moves_to(Square(origins[i]), kind, self.targets(kind, origins[i]), m);
            assert(origins.contains(origins[i]));
        }
        if let Move::Regular { origin, target, piece_kind, double_push } = m {
            if self.is_piece_move(kind, m) {
                let o = origin.0;
                assert(origins.contains(o));
                let i = choose|i: int| 0 <= i < origins.len() && origins[i] == o;
                lemma_in_moves_to(Square(origins[i]), kind, self.targets(kind, origins[i]), m);
            }
        }
    }
}

/// The one move of a list of one move.
proof fn lemma_in_single(x: Move, m: Move)
    ensures
        seq![x].contains(m) <==> m == x,
        !Seq::<Move>::empty().contains(m),
{
    if seq![x].contains(m) {
        let i = choose|i: int| 0 <= i < seq![x].len() && seq![x][i] == m;
    }
    if m == x {
        assert(seq![x][0] == m);
    }
    if Seq::<Move>::empty().contains(m) {
        let i = choose|i: int|
            0 <= i < Seq::<Move>::empty().len() && Seq::<Move>::empty()[i] == m;
    }
}

impl Setting {
    /// The move `m` is an advance of one rank of a pawn of `player`, with
    /// promotion on the last rank.
    pub open spec fn is_push(self, player: Player, m: Move) -> bool {
        exists|t: u32|
            bit(self.push_targets(player), t as int) && #[trigger] is_pawn_move(
                player,
                Self::push_back(player),
                t,
                m,
            )
    }

    /// The move `m` is an advance of two ranks of a pawn of `player`.
    pub open spec fn is_double_push(self, player: Player, m: Move) -> bool {
        exists|t: u32|
            bit(self.double_push_targets(player), t as int) && m == #[trigger] double_push(
                2 * Self::push_back(player),
                t,
            )
    }

    /// The move `m` is a capture by a pawn of `player`, but not one en
    /// passant, with promotion on the last rank.
    pub open spec fn is_pawn_capture(self, player: Player, m: Move) -> bool {
        ||| exists|t: u32|
            bit(self.left_capture_targets(player), t as int) && #[trigger] is_pawn_move(
                player,
                Self::left_back(player),
                t,
                m,
            )
        ||| exists|t: u32|
            bit(self.right_capture_targets(player), t as int) && #[trigger] is_pawn_move(
                player,
                Self::right_back(player),
                t,
                m,
            )
    }

    /// The move `m` is a capture en passant by a pawn of `player` that
    /// stands beside the pawn to capture and is not pinned off the line of
    /// the capture, with the capture within the check mask.
    pub open spec fn is_en_passant(self, player: Player, m: Move) -> bool {
        let first = self.ep_capturer(player, true);
        let second = self.ep_capturer(player, false);
        self.ep_in_reach() && ((first != 0 && m == Move::EnPassant {
            origin: Square(lowest(first) as u32),
        }) || (second != 0 && m == Move::EnPassant { origin: Square(lowest(second) as u32) }))
    }

    /// The move `m` is a move of the king to a neighbouring square that
    /// holds no piece of its side and is not attacked.
    pub open spec fn is_king_move(self, m: Move) -> bool {
        let from = lowest(self.moving_player.king.0) as u32;
        m matches Move::Regular { origin, target, piece_kind, double_push } && origin == Square(
            from,
        ) && piece_kind == PieceKind::King && !double_push && bit(
            self.targets(PieceKind::King, from),
            target.0 as int,
        )
    }

    /// The generator emits `m` for `player`. A king in double check moves
    /// alone. Castling needs a king that is not in check, the right to
    /// castle, empty squares between king and rook, and no attack on the
    /// squares that the king crosses or lands on.
    pub open spec fn emits(self, player: Player, m: Move) -> bool {
        let me = self.moving_player;
        ||| self.is_king_move(m)
        ||| !me.king_must_move && {
            ||| self.is_push(player, m)
            ||| self.is_double_push(player, m)
            ||| self.is_pawn_capture(player, m)
            ||| self.is_en_passant(player, m)
            ||| m == Move::CastleKS && me.check_mask.0 == u64::MAX && self.can_castle_ks(player)
            ||| m == Move::CastleQS && me.check_mask.0 == u64::MAX && self.can_castle_qs(player)
            ||| self.is_piece_move(PieceKind::Knight, m)
            ||| self.is_piece_move(PieceKind::Bishop, m)
            ||| self.is_piece_move(PieceKind::Rook, m)
            ||| self.is_piece_move(PieceKind::Queen, m)
        }
    }

    proof fn lemma_in_pushes(self, player: Player, m: Move)
        ensures
            self.spec_pawn_pushes(player).contains(m) <==> self.is_push(player, m)
                || self.is_double_push(player, m),
    {
        let pushes = self.push_targets(player);
        let back = Self::push_back(player);
        let last = last_rank(player);
        let a = pawn_moves(player, back, squares(pushes & last));
        let b = pawn_moves(player, back, squares(pushes & !last));
        let c = double_pushes(2 * back, squares(self.double_push_targets(player)));
        lemma_in_joined(a + b, c, m);
        lemma_in_joined(a, b, m);
        lemma_in_pawn_moves_to(player, back, pushes & last, m);
        lemma_in_pawn_moves_to(player, back, pushes & !last, m);
        lemma_in_double_pushes_to(2 * back, self.double_push_targets(player), m);
        if a.contains(m) {
            let t = choose|t: u32|
                bit(pushes & last, t as int) && #[trigger] is_pawn_move(player, back, t, m);
            lemma_bit_and(pushes, last, t as int);
            assert(bit(pushes, t as int) && is_pawn_move(player, back, t, m));
        }
        if b.contains(m) {
            let t = choose|t: u32|
                bit(pushes & !last, t as int) && #[trigger] is_pawn_move(player, back, t, m);
            lemma_bit_and(pushes, !last, t as int);
            assert(bit(pushes, t as int) && is_pawn_move(player, back, t, m));
        }
        if self.is_push(player, m) {
            let t = choose|t: u32|
                bit(pushes, t as int) && #[trigger] is_pawn_move(player, back, t, m);
            lemma_bit_and(pushes, last, t as int);
            lemma_bit_and(pushes, !last, t as int);
            lemma_bit_not(last, t as int);
            if bit(last, t as int) {
                assert(bit(pushes & last, t as int) && is_pawn_move(player, back, t, m));
            } else {
                assert(bit(pushes & !last, t as int) && is_pawn_move(player, back, t, m));
            }
        }
    }

    proof fn lemma_in_captures(self, player: Player, m: Move)
        ensures
            self.spec_pawn_attacks(player).contains(m) <==> self.is_pawn_capture(player, m),
    {
        let a = pawn_moves(
            player,
            Self::left_back(player),
            squares(self.left_capture_targets(player)),
        );
        let b = pawn_moves(
            player,
            Self::right_back(player),
            squares(self.right_capture_targets(player)),
        );
        lemma_in_joined(a, b, m);
        lemma_in_pawn_moves_to(player, Self::left_back(player), self.left_capture_targets(player), m);
        lemma_in_pawn_moves_to(
            player,
            Self::right_back(player),
            self.right_capture_targets(player),
            m,
        );
    }

    proof fn lemma_in_en_passants(self, player: Player, m: Move)
        ensures
            self.spec_en_passants(player).contains(m) <==> self.is_en_passant(player, m),
    {
        let first = self.ep_capturer(player, true);
        let second = self.ep_capturer(player, false);
        lemma_in_joined(Self::ep_move(first), Self::ep_move(second), m);
        lemma_in_single(Move::EnPassant { origin: Square(lowest(first) as u32) }, m);
        lemma_in_single(Move::EnPassant { origin: Square(lowest(second) as u32) }, m);
    }

    proof fn lemma_in_castles(self, player: Player, m: Move)
        ensures
            self.spec_castles(player).contains(m) <==> (m == Move::CastleKS && self.can_castle_ks(
                player,
            )) || (m == Move::CastleQS && self.can_castle_qs(player)),
    {
        let a = if self.can_castle_ks(player) {
            seq![Move::CastleKS]
        } else {
            Seq::empty()
        };
        let b = if self.can_castle_qs(player) {
            seq![Move::CastleQS]
        } else {
            Seq::empty()
        };
        lemma_in_joined(a, b, m);
        lemma_in_single(Move::CastleKS, m);
        lemma_in_single(Move::CastleQS, m);
    }

    /// The generator's list holds exactly the moves that it emits.
    pub proof fn lemma_emitted(self, player: Player, m: Move)
        ensures
            self.spec_gen_moves(player).contains(m) <==> self.emits(player, m),
    {
        let from = lowest(self.moving_player.king.0) as u32;
        lemma_in_moves_to(Square(from), PieceKind::King, self.targets(PieceKind::King, from), m);
        if !self.moving_player.king_must_move {
            let a = self.spec_pawn_pushes(player);
            let b = self.spec_pawn_attacks(player);
            let c = self.spec_en_passants(player);
            let d = if self.moving_player.check_mask.0 == u64::MAX {
                self.spec_castles(player)
            } else {
                Seq::empty()
            };
            let e = self.spec_piece_moves(PieceKind::Knight);
            let f = self.spec_piece_moves(PieceKind::Bishop);
            let g = self.spec_piece_moves(PieceKind::Rook);
            let h = self.spec_piece_moves(PieceKind::Queen);
            let k = self.spec_king_moves();
            lemma_in_joined(a, b, m);
            lemma_in_joined(a + b, c, m);
            lemma_in_joined(a + b + c, d, m);
            lemma_in_joined(a + b + c + d, e, m);
            lemma_in_joined(a + b + c + d + e, f, m);
            lemma_in_joined(a + b + c + d + e + f, g, m);
            lemma_in_joined(a + b + c + d + e + f + g, h, m);
            lemma_in_joined(a + b + c + d + e + f + g + h, k, m);
            self.lemma_in_pushes(player, m);
            self.lemma_in_captures(player, m);
            self.lemma_in_en_passants(player, m);
            self.lemma_in_castles(player, m);
            lemma_in_single(Move::CastleKS, m);
            self.lemma_in_piece_moves(PieceKind::Knight, m);
            self.lemma_in_piece_moves(PieceKind::Bishop, m);
            self.lemma_in_piece_moves(PieceKind::Rook, m);
            self.lemma_in_piece_moves(PieceKind::Queen, m);
        }
    }
}

impl Position {
    /// The generator emits the move `m` in this position.
    pub open spec fn emits(self, m: Move) -> bool {
        Setting::of(self).emits(self.current_player, m)
    }

    /// The list of the moves of a position holds exactly the moves that
    /// the generator emits in it.
    pub proof fn lemma_moves(self, m: Move)
        ensures
            self.spec_moves().contains(m) <==> self.emits(m),
    {
        Setting::of(self).lemma_emitted(self.current_player, m);
    }
}

impl Position {
    /// Castling is emitted exactly when the king is in no check, the side
    /// has the right to castle on that wing, the squares between king and
    /// rook are empty, and the squares that the king crosses or lands on
    /// are not attacked.
    pub proof fn lemma_castling(self)
        ensures
            self.spec_moves().contains(Move::CastleKS) <==> !self.moving_player.king_must_move
                && self.moving_player.check_mask.0 == u64::MAX && Setting::of(self).can_castle_ks(
                self.current_player,
            ),
            self.spec_moves().contains(Move::CastleQS) <==> !self.moving_player.king_must_move
                && self.moving_player.check_mask.0 == u64::MAX && Setting::of(self).can_castle_qs(
                self.current_player,
            ),
    {
        self.lemma_moves(Move::CastleKS);
        self.lemma_moves(Move::CastleQS);
    }

    /// A promotion is emitted together with the three other promotions of
    /// the same pawn to the same square: to queen, rook, bishop and knight,
    /// and to nothing else. It lands on the last rank.
    pub proof fn lemma_promotions_together(
        self,
        origin: Square,
        target: Square,
        kind: PieceKind,
        other: PieceKind,
    )
        requires
            self.spec_moves().contains(Move::Promotion { origin, target, promotion_to: kind }),
            promotes_to(other),
        ensures
            promotes_to(kind),
            on_last_rank(self.current_player, target.0),
            self.spec_moves().contains(Move::Promotion { origin, target, promotion_to: other }),
    {
        let g = Setting::of(self);
        let me = self.current_player;
        let m = Move::Promotion { origin, target, promotion_to: kind };
        let n = Move::Promotion { origin, target, promotion_to: other };
        self.lemma_moves(m);
        self.lemma_moves(n);
        if g.is_push(me, m) {
            let t = choose|t: u32|
                bit(g.push_targets(me), t as int) && #[trigger] is_pawn_move(
                    me,
                    Setting::push_back(me),
                    t,
                    m,
                );
            assert(is_pawn_move(me, Setting::push_back(me), t, n));
        } else if exists|t: u32|
            bit(g.left_capture_targets(me), t as int) && #[trigger] is_pawn_move(
                me,
                Setting::left_back(me),
                t,
                m,
            ) {
            let t = choose|t: u32|
                bit(g.left_capture_targets(me), t as int) && #[trigger] is_pawn_move(
                    me,
                    Setting::left_back(me),
                    t,
                    m,
                );
            assert(is_pawn_move(me, Setting::left_back(me), t, n));
        } else {
            let t = choose|t: u32|
                bit(g.right_capture_targets(me), t as int) && #[trigger] is_pawn_move(
                    me,
                    Setting::right_back(me),
                    t,
                    m,
                );
            assert(is_pawn_move(me, Setting::right_back(me), t, n));
        }
    }

    /// No ordinary move of a pawn lands on the last rank: there the pawn promotes.
    pub proof fn lemma_pawns_promote(self, origin: Square, target: Square, double_push: bool)
        requires
            self.spec_moves().contains(
                Move::Regular { origin, target, piece_kind: PieceKind::Pawn, double_push },
            ),
        ensures
            !on_last_rank(self.current_player, target.0),
    {
        let g = Setting::of(self);
        let me = self.current_player;
        let m = Move::Regular { origin, target, piece_kind: PieceKind::Pawn, double_push };
        self.lemma_moves(m);
        if g.is_double_push(me, m) {
            let t = choose|t: u32|
                bit(g.double_push_targets(me), t as int) && m == #[trigger] crate::moves::double_push(
                    2 * Setting::push_back(me),
                    t,
                );
            let pawns = g.moving_player.pawns.0;
            let free = !(g.moving_player.pins.diag() | g.moving_player.pins.horizontal.0);
            let e = g.empty_squares.0;
            match me {
                Player::White => {
                    let from = pawns & crate::bitboard::SECOND_RANK & free;
                    lemma_bit_and(g.moving_player.check_mask.0 & (e & (e << 8)), from << 16, t as int);
                    crate::bits::lemma_bit_shl(from, 16, t as int);
                    lemma_bit_and(pawns & crate::bitboard::SECOND_RANK, free, t - 16);
                    lemma_bit_and(pawns, crate::bitboard::SECOND_RANK, t - 16);
                    crate::bitboard::lemma_board_masks(t - 16);
                },
                Player::Black => {
                    let from = pawns & crate::bitboard::SEVENTH_RANK & free;
                    lemma_bit_and(g.moving_player.check_mask.0 & (e & (e >> 8)), from >> 16, t as int);
                    crate::bits::lemma_bit_shr(from, 16, t as int);
                    lemma_bit_and(pawns & crate::bitboard::SEVENTH_RANK, free, t + 16);
                    lemma_bit_and(pawns, crate::bitboard::SEVENTH_RANK, t + 16);
                    crate::bitboard::lemma_board_masks(t + 16);
                },
            }
        }
    }
}

} // verus!
