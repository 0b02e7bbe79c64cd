//! Moves, and the generator of the legal moves of a position.
use vstd::prelude::*;
use crate::bitboard::{
    B_CASTLE_KS_SPACE, B_CASTLE_QS_KING_PASS, B_CASTLE_QS_SPACE, BitBoard, EIGHTH_RANK, FIRST_RANK,
    SECOND_RANK, SEVENTH_RANK, W_CASTLE_KS_SPACE, W_CASTLE_QS_KING_PASS, W_CASTLE_QS_SPACE,
};
use crate::bits::{
    bit, lemma_bit_and, lemma_bit_shl, lemma_bit_shr, lemma_squares_zero, lowest, squares,
};
use crate::board::{Board, EnPassant, Position};
use crate::piece::{PieceKind, Player};
use crate::player_state::PlayerState;
use crate::slides::{
    Direction, get_down_attacks, get_down_left_attacks, get_down_right_attacks, get_left_attacks,
    get_right_attacks, get_up_attacks, get_up_left_attacks, get_up_right_attacks, slide, step,
};
use crate::square::Square;
use crate::tables::{king_attacks, king_moves, knight_attacks, knight_moves};

verus! {

/// A move of the side to move.
#[derive(Clone, Copy, Debug, PartialEq, Eq, Structural)]
pub enum Move {
    /// A piece goes from `origin` to `target`, capturing what stands there.
    /// `double_push` marks a pawn's advance by two ranks.
    Regular { origin: Square, target: Square, piece_kind: PieceKind, double_push: bool },
    /// The pawn on `origin` captures en passant; where it lands and what it
    /// captures is in the position.
    EnPassant { origin: Square },
    /// The pawn on `origin` goes to `target` on the last rank and becomes a `promotion_to`.
    Promotion { origin: Square, target: Square, promotion_to: PieceKind },
    /// Castling on the king's side.
    CastleKS,
    /// Castling on the queen's side.
    CastleQS,
}

/// The move of a piece of `kind` from `origin` to the square `target`.
pub open spec fn regular(origin: Square, target: u32, kind: PieceKind) -> Move {
    Move::Regular { origin, target: Square(target), piece_kind: kind, double_push: false }
}

/// The moves of the piece of `kind` on `origin` to each of `targets`, in their order.
pub open spec fn piece_moves(origin: Square, kind: PieceKind, targets: Seq<u32>) -> Seq<Move>
    decreases targets.len(),
{
    if targets.len() == 0 {
        Seq::empty()
    } else {
        piece_moves(origin, kind, targets.drop_last()).push(regular(origin, targets.last(), kind))
    }
}

/// The four promotions of a pawn that goes from `origin` to `target`: to
/// queen, rook, bishop and knight.
pub open spec fn promotions(origin: Square, target: Square) -> Seq<Move> {
    seq![
        Move::Promotion { origin, target, promotion_to: PieceKind::Queen },
        Move::Promotion { origin, target, promotion_to: PieceKind::Rook },
        Move::Promotion { origin, target, promotion_to: PieceKind::Bishop },
        Move::Promotion { origin, target, promotion_to: PieceKind::Knight },
    ]
}

/// The square `target` is on the rank where pawns of `player` promote.
pub open spec fn on_last_rank(player: Player, target: u32) -> bool {
    match player {
        Player::White => 55 < target,
        Player::Black => target < 8,
    }
}

/// What a pawn of `player` that lands on `target` emits, when it comes from
/// the square `back` ordinals away: its four promotions on the last rank,
/// one ordinary move elsewhere.
pub open spec fn pawn_move(player: Player, back: int, target: u32) -> Seq<Move> {
    let origin = Square((target + back) as u32);
    if on_last_rank(player, target) {
        promotions(origin, Square(target))
    } else {
        seq![regular(origin, target, PieceKind::Pawn)]
    }
}

/// What pawns of `player` emit that land on each of `targets`, in their order.
pub open spec fn pawn_moves(player: Player, back: int, targets: Seq<u32>) -> Seq<Move>
    decreases targets.len(),
{
    if targets.len() == 0 {
        Seq::empty()
    } else {
        pawn_moves(player, back, targets.drop_last()) + pawn_move(player, back, targets.last())
    }
}

/// The advance by two ranks of the pawn that lands on `target`.
pub open spec fn double_push(back: int, target: u32) -> Move {
    Move::Regular {
        origin: Square((target + back) as u32),
        target: Square(target),
        piece_kind: PieceKind::Pawn,
        double_push: true,
    }
}

/// The advances by two ranks that land on each of `targets`, in their order.
pub open spec fn double_pushes(back: int, targets: Seq<u32>) -> Seq<Move>
    decreases targets.len(),
{
    if targets.len() == 0 {
        Seq::empty()
    } else {
        double_pushes(back, targets.drop_last()).push(double_push(back, targets.last()))
    }
}

/// The squares of the rank that a pawn of `player` promotes on.
pub open spec fn last_rank(player: Player) -> u64 {
    match player {
        Player::White => EIGHTH_RANK,
        Player::Black => FIRST_RANK,
    }
}

/// The squares of the rank that the pawns of `player` start on.
pub open spec fn pawn_rank(player: Player) -> u64 {
    match player {
        Player::White => SECOND_RANK,
        Player::Black => SEVENTH_RANK,
    }
}

/// What the generator reads of a position: both sides, the empty squares
/// and the en-passant state.
pub struct Setting {
    pub moving_player: PlayerState,
    pub moved_player: PlayerState,
    pub empty_squares: BitBoard,
    pub ep_info: EnPassant,
}

/// Generates the legal moves of the side to move.
pub struct MoveGen {
    pub moving_player: PlayerState,
    pub moved_player: PlayerState,
    pub empty_squares: BitBoard,
    pub ep_info: EnPassant,
    pub moves: Vec<Move>,
}

impl Setting {
    /// What the generator reads of `board`.
    pub open spec fn of(board: Position) -> Setting {
        Setting {
            moving_player: board.moving_player,
            moved_player: board.moved_player,
            empty_squares: BitBoard(
                !(board.moving_player.occupied.0 | board.moved_player.occupied.0),
            ),
            ep_info: board.ep_info,
        }
    }

    /// Where the piece of `kind` on `origin` can go.
    ///
    /// A king goes to a neighbouring square that holds no piece of its side
    /// and that the other side does not attack. Every other piece goes
    /// where it attacks, within the check mask and the line it is pinned
    /// on, and not onto a piece of its side.
    pub open spec fn targets(self, kind: PieceKind, origin: u32) -> u64 {
        let piece = 1u64 << origin;
        let e = self.empty_squares.0;
        let me = self.moving_player;
        match kind {
            PieceKind::King => king_moves(origin as int) & !me.occupied.0
                & !self.moved_player.attacks.0,
            PieceKind::Knight => me.check_mask.0 & !me.occupied.0 & knight_moves(origin as int),
            PieceKind::Bishop => self.diagonal_rays(piece) & me.check_mask.0 & !me.occupied.0
                & me.pins.pin_mask(piece),
            PieceKind::Rook => self.cross_rays(piece) & !me.occupied.0 & me.check_mask.0
                & me.pins.pin_mask(piece),
            PieceKind::Queen => (self.cross_rays(piece) | self.diagonal_rays(piece))
                & !me.occupied.0 & me.check_mask.0 & me.pins.pin_mask(piece),
            PieceKind::Pawn => 0,
        }
    }

    /// The squares attacked from `piece` along the diagonals.
    pub open spec fn diagonal_rays(self, piece: u64) -> u64 {
        let e = self.empty_squares.0;
        slide(piece, e, Direction::UpRight) | slide(piece, e, Direction::UpLeft) | slide(
            piece,
            e,
            Direction::DownLeft,
        ) | slide(piece, e, Direction::DownRight)
    }

    /// The squares attacked from `piece` along its rank and file.
    pub open spec fn cross_rays(self, piece: u64) -> u64 {
        let e = self.empty_squares.0;
        slide(piece, e, Direction::Right) | slide(piece, e, Direction::Up) | slide(
            piece,
            e,
            Direction::Left,
        ) | slide(piece, e, Direction::Down)
    }

    /// The pieces of `kind` that may move at all: every king and queen, the
    /// knights that are not pinned, the bishops not pinned along a rank or
    /// file, the rooks not pinned along a diagonal.
    pub open spec fn movers(self, kind: PieceKind) -> u64 {
        let me = self.moving_player;
        match kind {
            PieceKind::King => me.king.0,
            PieceKind::Queen => me.queens.0,
            PieceKind::Rook => me.rooks.0 & !me.pins.diag(),
            PieceKind::Bishop => me.bishops.0 & !me.pins.hv(),
            PieceKind::Knight => me.knights.0 & !me.pins.all(),
            PieceKind::Pawn => 0,
        }
    }

    /// The moves of the pieces of `kind` on `origins`, piece by piece.
    pub open spec fn each_piece(self, kind: PieceKind, origins: Seq<u32>) -> Seq<Move>
        decreases origins.len(),
    {
        if origins.len() == 0 {
            Seq::empty()
        } else {
            self.each_piece(kind, origins.drop_last()) + piece_moves(
                Square(origins.last()),
                kind,
                squares(self.targets(kind, origins.last())),
            )
        }
    }

    /// The moves of all pieces of `kind` but pawns, from the lowest square up.
    pub open spec fn spec_piece_moves(self, kind: PieceKind) -> Seq<Move> {
        self.each_piece(kind, squares(self.movers(kind)))
    }

    /// The moves of the king.
    pub open spec fn spec_king_moves(self) -> Seq<Move> {
        let origin = lowest(self.moving_player.king.0) as u32;
        piece_moves(Square(origin), PieceKind::King, squares(self.targets(PieceKind::King, origin)))
    }

    /// The pawns that may advance: those not pinned along a diagonal or a rank.
    pub open spec fn pushers(self) -> u64 {
        self.moving_player.pawns.0 & !(self.moving_player.pins.diag()
            | self.moving_player.pins.horizontal.0)
    }

    /// The squares that pawns of `player` reach by an advance of one rank:
    /// empty squares within the check mask.
    pub open spec fn push_targets(self, player: Player) -> u64 {
        self.moving_player.check_mask.0 & self.empty_squares.0 & match player {
            Player::White => self.pushers() << 8,
            Player::Black => self.pushers() >> 8,
        }
    }

    /// The squares that pawns of `player` reach by an advance of two ranks
    /// from their first rank, over an empty square.
    pub open spec fn double_push_targets(self, player: Player) -> u64 {
        let e = self.empty_squares.0;
        let me = self.moving_player;
        match player {
            Player::White => me.check_mask.0 & (e & (e << 8)) & ((me.pawns.0 & SECOND_RANK & !(
            me.pins.diag() | me.pins.horizontal.0)) << 16),
            Player::Black => me.check_mask.0 & (e & (e >> 8)) & ((me.pawns.0 & SEVENTH_RANK & !(
            me.pins.diag() | me.pins.horizontal.0)) >> 16),
        }
    }

    /// How far back, in ordinals, the origin of an advance of one rank lies.
    pub open spec fn push_back(player: Player) -> int {
        match player {
            Player::White => -8,
            Player::Black => 8,
        }
    }

    /// The advances of the pawns of `player`: those that promote first, then
    /// the other advances of one rank, then those of two ranks.
    pub open spec fn spec_pawn_pushes(self, player: Player) -> Seq<Move> {
        let pushes = self.push_targets(player);
        let back = Self::push_back(player);
        pawn_moves(player, back, squares(pushes & last_rank(player))) + pawn_moves(
            player,
            back,
            squares(pushes & !last_rank(player)),
        ) + double_pushes(2 * back, squares(self.double_push_targets(player)))
    }

    /// The squares where pawns of `player` capture towards the a-file: squares
    /// of the other side's pieces within the check mask. A pawn pinned
    /// along another line than that of the capture does not capture.
    pub open spec fn left_capture_targets(self, player: Player) -> u64 {
        let me = self.moving_player;
        me.check_mask.0 & self.moved_player.occupied.0 & match player {
            Player::White => step(me.pawns.0 & !me.pins.ape_anti_diagonal(), Direction::UpLeft),
            Player::Black => step(me.pawns.0 & !me.pins.ape_diagonal(), Direction::DownLeft),
        }
    }

    /// The squares where pawns of `player` capture towards the h-file.
    pub open spec fn right_capture_targets(self, player: Player) -> u64 {
        let me = self.moving_player;
        me.check_mask.0 & self.moved_player.occupied.0 & match player {
            Player::White => step(me.pawns.0 & !me.pins.ape_diagonal(), Direction::UpRight),
            Player::Black => step(me.pawns.0 & !me.pins.ape_anti_diagonal(), Direction::DownRight),
        }
    }

    /// How far back the origin of a capture towards the a-file lies.
    pub open spec fn left_back(player: Player) -> int {
        match player {
            Player::White => -7,
            Player::Black => 9,
        }
    }

    /// How far back the origin of a capture towards the h-file lies.
    pub open spec fn right_back(player: Player) -> int {
        match player {
            Player::White => -9,
            Player::Black => 7,
        }
    }

    /// The captures of the pawns of `player`, but those en passant: first
    /// those towards the a-file, then those towards the h-file.
    pub open spec fn spec_pawn_attacks(self, player: Player) -> Seq<Move> {
        pawn_moves(player, Self::left_back(player), squares(self.left_capture_targets(player)))
            + pawn_moves(
            player,
            Self::right_back(player),
            squares(self.right_capture_targets(player)),
        )
    }

    /// The capture en passant is worth a look: the square where the capturing
    /// pawn lands, or the pawn it captures, is in the check mask.
    pub open spec fn ep_in_reach(self) -> bool {
        (self.ep_info.capture_point.0 | self.ep_info.pawn.0) & self.moving_player.check_mask.0
            != 0
    }

    /// The pawn of `player` that can capture en passant from the side of the
    /// a-file (`first`) or from the other side, as a set.
    pub open spec fn ep_capturer(self, player: Player, first: bool) -> u64 {
        let me = self.moving_player;
        let point = self.ep_info.capture_point.0;
        match player {
            Player::White => if first {
                step(point, Direction::DownRight) & (me.pawns.0 & !me.pins.ape_anti_diagonal())
            } else {
                step(point, Direction::DownLeft) & (me.pawns.0 & !me.pins.ape_diagonal())
            },
            Player::Black => if first {
                step(point, Direction::UpRight) & (me.pawns.0 & !me.pins.ape_diagonal())
            } else {
                step(point, Direction::UpLeft) & (me.pawns.0 & !me.pins.ape_anti_diagonal())
            },
        }
    }

    /// The capture en passant by the pawn in `capturer`, if there is one.
    pub open spec fn ep_move(capturer: u64) -> Seq<Move> {
        if capturer != 0 {
            seq![Move::EnPassant { origin: Square(lowest(capturer) as u32) }]
        } else {
            Seq::empty()
        }
    }

    /// The captures en passant of `player`.
    pub open spec fn spec_en_passants(self, player: Player) -> Seq<Move> {
        if self.ep_in_reach() {
            Self::ep_move(self.ep_capturer(player, true)) + Self::ep_move(
                self.ep_capturer(player, false),
            )
        } else {
            Seq::empty()
        }
    }

    /// The squares between the king and the king-side rook of `player`.
    pub open spec fn ks_space(player: Player) -> u64 {
        match player {
            Player::White => W_CASTLE_KS_SPACE,
            Player::Black => B_CASTLE_KS_SPACE,
        }
    }

    /// The squares between the king and the queen-side rook of `player`.
    pub open spec fn qs_space(player: Player) -> u64 {
        match player {
            Player::White => W_CASTLE_QS_SPACE,
            Player::Black => B_CASTLE_QS_SPACE,
        }
    }

    /// The squares that the king of `player` crosses when it castles queen side.
    pub open spec fn qs_king_pass(player: Player) -> u64 {
        match player {
            Player::White => W_CASTLE_QS_KING_PASS,
            Player::Black => B_CASTLE_QS_KING_PASS,
        }
    }

    /// `player` may castle king side: it has the right, and the squares
    /// between king and rook are empty and not attacked.
    pub open spec fn can_castle_ks(self, player: Player) -> bool {
        self.moving_player.can_castle_ks && Self::ks_space(player) & (!self.empty_squares.0
            | self.moved_player.attacks.0) == 0
    }

    /// `player` may castle queen side: it has the right, the squares between
    /// king and rook are empty, and those the king crosses are not attacked.
    pub open spec fn can_castle_qs(self, player: Player) -> bool {
        self.moving_player.can_castle_qs && Self::qs_space(player) & !self.empty_squares.0 == 0
            && Self::qs_king_pass(player) & self.moved_player.attacks.0 == 0
    }

    /// The castling moves of `player`, for a king that is not in check.
    pub open spec fn spec_castles(self, player: Player) -> Seq<Move> {
        (if self.can_castle_ks(player) {
            seq![Move::CastleKS]
        } else {
            Seq::empty()
        }) + (if self.can_castle_qs(player) {
            seq![Move::CastleQS]
        } else {
            Seq::empty()
        })
    }

    /// Every move of `player_to_play`. A king in double check moves alone.
    /// Otherwise the pawns go first (advances, captures, captures en
    /// passant), then castling if the king is not in check, then knights,
    /// bishops, rooks and queens, and the king last.
    pub open spec fn spec_gen_moves(self, player_to_play: Player) -> Seq<Move> {
        if self.moving_player.king_must_move {
            self.spec_king_moves()
        } else {
            self.spec_pawn_pushes(player_to_play) + self.spec_pawn_attacks(player_to_play)
                + self.spec_en_passants(player_to_play) + (if self.moving_player.check_mask.0
                == u64::MAX {
                self.spec_castles(player_to_play)
            } else {
                Seq::empty()
            }) + self.spec_piece_moves(PieceKind::Knight) + self.spec_piece_moves(
                PieceKind::Bishop,
            ) + self.spec_piece_moves(PieceKind::Rook) + self.spec_piece_moves(PieceKind::Queen)
                + self.spec_king_moves()
        }
    }

}

impl MoveGen {
    /// What the generator reads: everything but the moves generated so far.
    pub open spec fn setting(self) -> Setting {
        Setting {
            moving_player: self.moving_player,
            moved_player: self.moved_player,
            empty_squares: self.empty_squares,
            ep_info: self.ep_info,
        }
    }

    /// The legal moves of the side to move of `board`.
    pub fn run(board: Board) -> (moves: Vec<Move>)
        requires
            board.moving_player.king.0 != 0,
        ensures
            moves@ == board@.spec_moves(),
    {
        let mut move_gen = Self {
            moving_player: board.moving_player,
            moved_player: board.moved_player,
            empty_squares: BitBoard(
                !(board.moving_player.occupied.0 | board.moved_player.occupied.0),
            ),
            ep_info: board.ep_info,
            moves: Vec::with_capacity(31),
        };
        let ghost fresh = move_gen.moves@;
        move_gen.gen_moves(board.current_player);
        proof {
            assert(fresh =~= Seq::<Move>::empty());
            assert(move_gen.moves@ =~= board@.spec_moves());
        }
        move_gen.moves
    }

    /// Adds the four promotions of the pawn that goes from `origin` to `target`.
    pub fn add_promotions(&mut self, origin: Square, target: Square)
        ensures
            final(self).moves@ == old(self).moves@ + promotions(origin, target),
            final(self).setting() == old(self).setting(),
    {
        self.moves.push(Move::Promotion { origin, target, promotion_to: PieceKind::Queen });
        self.moves.push(Move::Promotion { origin, target, promotion_to: PieceKind::Rook });
        self.moves.push(Move::Promotion { origin, target, promotion_to: PieceKind::Bishop });
        self.moves.push(Move::Promotion { origin, target, promotion_to: PieceKind::Knight });
        assert(self.moves@ =~= old(self).moves@ + promotions(origin, target));
    }

    /// Adds every move of `player_to_play`.
    pub fn gen_moves(&mut self, player_to_play: Player)
        requires
            old(self).moving_player.king.0 != 0,
        ensures
            final(self).moves@ == old(self).moves@ + old(self).setting().spec_gen_moves(
                player_to_play,
            ),
            final(self).setting() == old(self).setting(),
    {
        let ghost g = self.setting();
        let ghost start = self.moves@;
        let ghost mut acc: Seq<Move> = Seq::empty();
        proof {
            assert(self.moves@ =~= start + acc);
        }
        if !self.moving_player.king_must_move {
            match player_to_play {
                Player::White => {
                    self.gen_white_pawn_pushes();
                    self.gen_white_pawn_attacks();
                    self.gen_white_pawn_en_passants();
                    proof {
                        lemma_concat3(
                            start,
                            g.spec_pawn_pushes(player_to_play),
                            g.spec_pawn_attacks(player_to_play),
                            g.spec_en_passants(player_to_play),
                        );
                        acc = g.spec_pawn_pushes(player_to_play) + g.spec_pawn_attacks(
                            player_to_play,
                        ) + g.spec_en_passants(player_to_play);
                    }
                    let ghost before = self.moves@;
                    if self.moving_player.isnt_in_check() {
                        self.white_castle_king_side();
                        self.white_castle_queen_side();
                        proof {
                            lemma_concat(
                                before,
                                if g.can_castle_ks(player_to_play) {
                                    seq![Move::CastleKS]
                                } else {
                                    Seq::empty()
                                },
                                if g.can_castle_qs(player_to_play) {
                                    seq![Move::CastleQS]
                                } else {
                                    Seq::empty()
                                },
                            );
                        }
                    } else {
                        assert(self.moves@ =~= before + Seq::<Move>::empty());
                    }
                },
                Player::Black => {
                    self.gen_black_pawn_pushes();
                    self.gen_black_pawn_attacks();
                    self.gen_black_pawn_en_passants();
                    proof {
                        lemma_concat3(
                            start,
                            g.spec_pawn_pushes(player_to_play),
                            g.spec_pawn_attacks(player_to_play),
                            g.spec_en_passants(player_to_play),
                        );
                        acc = g.spec_pawn_pushes(player_to_play) + g.spec_pawn_attacks(
                            player_to_play,
                        ) + g.spec_en_passants(player_to_play);
                    }
                    let ghost before = self.moves@;
                    if self.moving_player.isnt_in_check() {
                        self.black_castle_king_side();
                        self.black_castle_queen_side();
                        proof {
                            lemma_concat(
                                before,
                                if g.can_castle_ks(player_to_play) {
                                    seq![Move::CastleKS]
                                } else {
                                    Seq::empty()
                                },
                                if g.can_castle_qs(player_to_play) {
                                    seq![Move::CastleQS]
                                } else {
                                    Seq::empty()
                                },
                            );
                        }
                    } else {
                        assert(self.moves@ =~= before + Seq::<Move>::empty());
                    }
                },
            }
            let ghost castles = if g.moving_player.check_mask.0 == u64::MAX {
                g.spec_castles(player_to_play)
            } else {
                Seq::empty()
            };
            proof {
                assert(self.moves@ == start + acc + castles);
                lemma_concat(start, acc, castles);
                acc = acc + castles;
            }
            self.gen_knight_moves();
            proof {
                lemma_concat(start, acc, g.spec_piece_moves(PieceKind::Knight));
                acc = acc + g.spec_piece_moves(PieceKind::Knight);
            }
            self.gen_bishop_moves();
            proof {
                lemma_concat(start, acc, g.spec_piece_moves(PieceKind::Bishop));
                acc = acc + g.spec_piece_moves(PieceKind::Bishop);
            }
            self.gen_rook_moves();
            proof {
                lemma_concat(start, acc, g.spec_piece_moves(PieceKind::Rook));
                acc = acc + g.spec_piece_moves(PieceKind::Rook);
            }
            self.gen_queen_moves();
            proof {
                lemma_concat(start, acc, g.spec_piece_moves(PieceKind::Queen));
                acc = acc + g.spec_piece_moves(PieceKind::Queen);
            }
            self.gen_king_moves();
            proof {
                lemma_concat(start, acc, g.spec_king_moves());
            }
        } else {
            self.gen_king_moves();
        }
    }

    /// Adds the move of the piece of `kind` on `origin` to each square of `targets`.
    fn push_regulars(&mut self, origin: Square, kind: PieceKind, targets: BitBoard)
        ensures
            final(self).moves@ == old(self).moves@ + piece_moves(origin, kind, squares(targets.0)),
            final(self).setting() == old(self).setting(),
    {
        let mut targets = targets;
        let ghost start = self.moves@;
        let ghost all = squares(targets.0);
        let ghost mut done: int = 0;
        while targets.isnt_empty()
            invariant
                0 <= done <= all.len(),
                squares(targets.0) == all.skip(done),
                self.moves@ == start + piece_moves(origin, kind, all.take(done)),
                self.setting() == old(self).setting(),
            decreases targets.0,
        {
            let target = targets.pop_first_one();
            self.moves.push(Move::Regular { origin, target, piece_kind: kind, double_push: false });
            proof {
                assert(all.skip(done).len() > 0);
                assert(all.take(done + 1).drop_last() =~= all.take(done));
                assert(all.skip(done).drop_first() =~= all.skip(done + 1));
                assert(all.take(done + 1).last() == target.0);
                assert(self.moves@ =~= start + piece_moves(origin, kind, all.take(done + 1)));
                done = done + 1;
            }
        }
        proof {
            lemma_squares_zero();
            assert(all.take(done) =~= all);
        }
    }

    /// Adds what the pawns of `player` emit that land on `targets`, each
    /// from the square `distance` ordinals behind it.
    fn push_pawn_moves(&mut self, player: Player, distance: u32, targets: BitBoard)
        requires
            distance < 64,
            forall|t: int|
                #[trigger] bit(targets.0, t) ==> match player {
                    Player::White => t >= distance,
                    Player::Black => t + distance < 64,
                },
        ensures
            final(self).moves@ == old(self).moves@ + pawn_moves(
                player,
                match player {
                    Player::White => -(distance as int),
                    Player::Black => distance as int,
                },
                squares(targets.0),
            ),
            final(self).setting() == old(self).setting(),
    {
        let ghost back = match player {
            Player::White => -(distance as int),
            Player::Black => distance as int,
        };
        let ghost whole = targets.0;
        let mut targets = targets;
        let ghost start = self.moves@;
        let ghost all = squares(targets.0);
        let ghost mut done: int = 0;
        while targets.isnt_empty()
            invariant
                0 <= done <= all.len(),
                distance < 64,
                squares(targets.0) == all.skip(done),
                forall|t: int| #[trigger] targets.contains(t) ==> bit(whole, t),
                forall|t: int|
                    #[trigger] bit(whole, t) ==> match player {
                        Player::White => t >= distance,
                        Player::Black => t + distance < 64,
                    },
                back == match player {
                    Player::White => -(distance as int),
                    Player::Black => distance as int,
                },
                self.moves@ == start + pawn_moves(player, back, all.take(done)),
                self.setting() == old(self).setting(),
            decreases targets.0,
        {
            let target = targets.pop_first_one();
            let (origin, promotes) = match player {
                Player::White => (Square(target.0 - distance), 55 < target.0),
                Player::Black => (Square(target.0 + distance), target.0 < 8),
            };
            if promotes {
                self.add_promotions(origin, target);
            } else {
                self.moves.push(
                    Move::Regular { origin, target, piece_kind: PieceKind::Pawn, double_push: false },
                );
            }
            proof {
                assert(all.skip(done).len() > 0);
                assert(all.take(done + 1).drop_last() =~= all.take(done));
                assert(all.skip(done).drop_first() =~= all.skip(done + 1));
                assert(all.take(done + 1).last() == target.0);
                assert(self.moves@ =~= start + pawn_moves(player, back, all.take(done + 1)));
                done = done + 1;
            }
        }
        proof {
            lemma_squares_zero();
            assert(all.take(done) =~= all);
        }
    }

    /// Adds the advance by two ranks to each square of `targets`.
    fn push_double_pushes(&mut self, player: Player, targets: BitBoard)
        requires
            forall|t: int|
                #[trigger] bit(targets.0, t) ==> match player {
                    Player::White => t >= 16,
                    Player::Black => t + 16 < 64,
                },
        ensures
            final(self).moves@ == old(self).moves@ + double_pushes(
                2 * Setting::push_back(player),
                squares(targets.0),
            ),
            final(self).setting() == old(self).setting(),
    {
        let ghost back = 2 * Setting::push_back(player);
        let ghost whole = targets.0;
        let mut targets = targets;
        let ghost start = self.moves@;
        let ghost all = squares(targets.0);
        let ghost mut done: int = 0;
        while targets.isnt_empty()
            invariant
                0 <= done <= all.len(),
                squares(targets.0) == all.skip(done),
                forall|t: int| #[trigger] targets.contains(t) ==> bit(whole, t),
                forall|t: int|
                    #[trigger] bit(whole, t) ==> match player {
                        Player::White => t >= 16,
                        Player::Black => t + 16 < 64,
                    },
                back == 2 * Setting::push_back(player),
                self.moves@ == start + double_pushes(back, all.take(done)),
                self.setting() == old(self).setting(),
            decreases targets.0,
        {
            let target = targets.pop_first_one();
            let origin = match player {
                Player::White => target.move_down(2),
                Player::Black => target.move_up(2),
            };
            self.moves.push(
                Move::Regular { origin, target, piece_kind: PieceKind::Pawn, double_push: true },
            );
            proof {
                assert(all.skip(done).len() > 0);
                assert(all.take(done + 1).drop_last() =~= all.take(done));
                assert(all.skip(done).drop_first() =~= all.skip(done + 1));
                assert(all.take(done + 1).last() == target.0);
                assert(self.moves@ =~= start + double_pushes(back, all.take(done + 1)));
                done = done + 1;
            }
        }
        proof {
            lemma_squares_zero();
            assert(all.take(done) =~= all);
        }
    }

    /// Adds the captures en passant of Black.
    pub fn gen_black_pawn_en_passants(&mut self)
        ensures
            final(self).moves@ == old(self).moves@ + old(self).setting().spec_en_passants(Player::Black),
            final(self).setting() == old(self).setting(),
    {
        if ((self.ep_info.capture_point.0 | self.ep_info.pawn.0) & self.moving_player.check_mask.0)
            != 0 {
            let unpinned_left_pawns = BitBoard(
                self.moving_player.pawns.0 & !self.moving_player.pins.get_ape_diagonal().0,
            );
            let unpinned_right_pawns = BitBoard(
                self.moving_player.pawns.0 & !self.moving_player.pins.get_ape_anti_diagonal().0,
            );
            let left_possible_pawn = BitBoard(
                self.ep_info.capture_point.move_up_right().0 & unpinned_left_pawns.0,
            );
            let right_possible_pawn = BitBoard(
                self.ep_info.capture_point.move_up_left().0 & unpinned_right_pawns.0,
            );
            if left_possible_pawn.isnt_empty() {
                self.moves.push(Move::EnPassant { origin: left_possible_pawn.first_one_square() });
            }
            let ghost middle = self.moves@;
            if right_possible_pawn.isnt_empty() {
                self.moves.push(
                    Move::EnPassant { origin: right_possible_pawn.first_one_square() },
                );
            }
            assert(middle =~= old(self).moves@ + Setting::ep_move(left_possible_pawn.0));
            assert(self.moves@ =~= middle + Setting::ep_move(right_possible_pawn.0));
            assert(self.moves@ =~= old(self).moves@ + old(self).setting().spec_en_passants(Player::Black));
        } else {
            assert(self.moves@ =~= old(self).moves@ + old(self).setting().spec_en_passants(Player::Black));
        }
    }

    /// Adds the captures of Black's pawns, but those en passant.
    pub fn gen_black_pawn_attacks(&mut self)
        ensures
            final(self).moves@ == old(self).moves@ + old(self).setting().spec_pawn_attacks(Player::Black),
            final(self).setting() == old(self).setting(),
    {
        let legal_left_pawns = !self.moving_player.pins.get_ape_diagonal().0;
        let legal_right_pawns = !self.moving_player.pins.get_ape_anti_diagonal().0;
        let left_attacks = BitBoard(
            self.moving_player.check_mask.0 & self.moved_player.occupied.0 & BitBoard(
                self.moving_player.pawns.0 & legal_left_pawns,
            ).move_down_left().0,
        );
        let right_attacks = BitBoard(
            self.moving_player.check_mask.0 & self.moved_player.occupied.0 & BitBoard(
                self.moving_player.pawns.0 & legal_right_pawns,
            ).move_down_right().0,
        );
        proof {
            assert forall|t: int| #[trigger] bit(left_attacks.0, t) implies t + 9 < 64 by {
                broadcast use lemma_bit_and, lemma_bit_shr;

            }
            assert forall|t: int| #[trigger] bit(right_attacks.0, t) implies t + 7 < 64 by {
                broadcast use lemma_bit_and, lemma_bit_shr;

            }
        }
        self.push_pawn_moves(Player::Black, 9, left_attacks);
        self.push_pawn_moves(Player::Black, 7, right_attacks);
        assert(self.moves@ =~= old(self).moves@ + old(self).setting().spec_pawn_attacks(Player::Black));
    }

    /// Adds the advances of Black's pawns.
    pub fn gen_black_pawn_pushes(&mut self)
        ensures
            final(self).moves@ == old(self).moves@ + old(self).setting().spec_pawn_pushes(Player::Black),
            final(self).setting() == old(self).setting(),
    {
        let unpinned_locations = !(self.moving_player.pins.get_diag_pins().0
            | self.moving_player.pins.horizontal.0);
        let mut pushes = BitBoard(
            self.moving_player.check_mask.0 & self.empty_squares.0 & BitBoard(
                self.moving_player.pawns.0 & unpinned_locations,
            ).move_down(1).0,
        );
        let double_pushes = BitBoard(
            self.moving_player.check_mask.0 & self.empty_squares.smear_zeroes_down().0 & BitBoard(
                self.moving_player.pawns.0 & SEVENTH_RANK & unpinned_locations,
            ).move_down(2).0,
        );
        let promotions = BitBoard(pushes.0 & FIRST_RANK);
        pushes.0 &= !FIRST_RANK;
        proof {
            assert forall|t: int| #[trigger] bit(promotions.0, t) implies t + 8 < 64 by {
                broadcast use lemma_bit_and, lemma_bit_shr;

            }
            assert forall|t: int| #[trigger] bit(pushes.0, t) implies t + 8 < 64 by {
                broadcast use lemma_bit_and, lemma_bit_shr;

            }
            assert forall|t: int| #[trigger] bit(double_pushes.0, t) implies t + 16 < 64 by {
                broadcast use lemma_bit_and, lemma_bit_shr;

            }
        }
        self.push_pawn_moves(Player::Black, 8, promotions);
        self.push_pawn_moves(Player::Black, 8, pushes);
        self.push_double_pushes(Player::Black, double_pushes);
        assert(self.moves@ =~= old(self).moves@ + old(self).setting().spec_pawn_pushes(Player::Black));
    }

    /// Adds the captures en passant of White.
    pub fn gen_white_pawn_en_passants(&mut self)
        ensures
            final(self).moves@ == old(self).moves@ + old(self).setting().spec_en_passants(Player::White),
            final(self).setting() == old(self).setting(),
    {
        if ((self.ep_info.capture_point.0 | self.ep_info.pawn.0) & self.moving_player.check_mask.0)
            != 0 {
            let unpinned_left_pawns = BitBoard(
                self.moving_player.pawns.0 & !self.moving_player.pins.get_ape_anti_diagonal().0,
            );
            let unpinned_right_pawns = BitBoard(
                self.moving_player.pawns.0 & !self.moving_player.pins.get_ape_diagonal().0,
            );
            let left_possible_pawn = BitBoard(
                self.ep_info.capture_point.move_down_right().0 & unpinned_left_pawns.0,
            );
            let right_possible_pawn = BitBoard(
                self.ep_info.capture_point.move_down_left().0 & unpinned_right_pawns.0,
            );
            if left_possible_pawn.isnt_empty() {
                self.moves.push(Move::EnPassant { origin: left_possible_pawn.first_one_square() });
            }
            let ghost middle = self.moves@;
            if right_possible_pawn.isnt_empty() {
                self.moves.push(
                    Move::EnPassant { origin: right_possible_pawn.first_one_square() },
                );
            }
            assert(middle =~= old(self).moves@ + Setting::ep_move(left_possible_pawn.0));
            assert(self.moves@ =~= middle + Setting::ep_move(right_possible_pawn.0));
            assert(self.moves@ =~= old(self).moves@ + old(self).setting().spec_en_passants(Player::White));
        } else {
            assert(self.moves@ =~= old(self).moves@ + old(self).setting().spec_en_passants(Player::White));
        }
    }

    /// Adds the captures of White's pawns, but those en passant.
    pub fn gen_white_pawn_attacks(&mut self)
        ensures
            final(self).moves@ == old(self).moves@ + old(self).setting().spec_pawn_attacks(Player::White),
            final(self).setting() == old(self).setting(),
    {
        let legal_left_pawns = !self.moving_player.pins.get_ape_anti_diagonal().0;
        let legal_right_pawns = !self.moving_player.pins.get_ape_diagonal().0;
        let left_attacks = BitBoard(
            self.moving_player.check_mask.0 & self.moved_player.occupied.0 & BitBoard(
                self.moving_player.pawns.0 & legal_left_pawns,
            ).move_up_left().0,
        );
        let right_attacks = BitBoard(
            self.moving_player.check_mask.0 & self.moved_player.occupied.0 & BitBoard(
                self.moving_player.pawns.0 & legal_right_pawns,
            ).move_up_right().0,
        );
        proof {
            assert forall|t: int| #[trigger] bit(left_attacks.0, t) implies t >= 7 by {
                broadcast use lemma_bit_and, lemma_bit_shl;

            }
            assert forall|t: int| #[trigger] bit(right_attacks.0, t) implies t >= 9 by {
                broadcast use lemma_bit_and, lemma_bit_shl;

            }
        }
        self.push_pawn_moves(Player::White, 7, left_attacks);
        self.push_pawn_moves(Player::White, 9, right_attacks);
        assert(self.moves@ =~= old(self).moves@ + old(self).setting().spec_pawn_attacks(Player::White));
    }

    /// Adds the advances of White's pawns.
    pub fn gen_white_pawn_pushes(&mut self)
        ensures
            final(self).moves@ == old(self).moves@ + old(self).setting().spec_pawn_pushes(Player::White),
            final(self).setting() == old(self).setting(),
    {
        let unpinned_locations = !(self.moving_player.pins.get_diag_pins().0
            | self.moving_player.pins.horizontal.0);
        let mut pushes = BitBoard(
            self.moving_player.check_mask.0 & self.empty_squares.0 & BitBoard(
                self.moving_player.pawns.0 & unpinned_locations,
            ).move_up(1).0,
        );
        let double_pushes = BitBoard(
            self.moving_player.check_mask.0 & self.empty_squares.smear_zeroes_up().0 & BitBoard(
                self.moving_player.pawns.0 & SECOND_RANK & unpinned_locations,
            ).move_up(2).0,
        );
        let promotions = BitBoard(pushes.0 & EIGHTH_RANK);
        pushes.0 &= !EIGHTH_RANK;
        proof {
            assert forall|t: int| #[trigger] bit(promotions.0, t) implies t >= 8 by {
                broadcast use lemma_bit_and, lemma_bit_shl;

            }
            assert forall|t: int| #[trigger] bit(pushes.0, t) implies t >= 8 by {
                broadcast use lemma_bit_and, lemma_bit_shl;

            }
            assert forall|t: int| #[trigger] bit(double_pushes.0, t) implies t >= 16 by {
                broadcast use lemma_bit_and, lemma_bit_shl;

            }
        }
        self.push_pawn_moves(Player::White, 8, promotions);
        self.push_pawn_moves(Player::White, 8, pushes);
        self.push_double_pushes(Player::White, double_pushes);
        assert(self.moves@ =~= old(self).moves@ + old(self).setting().spec_pawn_pushes(Player::White));
    }

    /// Adds the moves of the bishops.
    pub fn gen_bishop_moves(&mut self)
        ensures
            final(self).moves@ == old(self).moves@ + old(self).setting().spec_piece_moves(PieceKind::Bishop),
            final(self).setting() == old(self).setting(),
    {
        let mut bishops = BitBoard(self.moving_player.bishops.0 & !self.moving_player.pins.get_hv_pins().0);
        let ghost start = self.moves@;
        let ghost all = squares(bishops.0);
        let ghost mut done: int = 0;
        while bishops.isnt_empty()
            invariant
                0 <= done <= all.len(),
                squares(bishops.0) == all.skip(done),
                self.moves@ == start + old(self).setting().each_piece(PieceKind::Bishop, all.take(done)),
                self.setting() == old(self).setting(),
            decreases bishops.0,
        {
            let (origin, bishop) = bishops.pfo_with_bitboard();
            let moves = BitBoard(
                (get_up_right_attacks(bishop, self.empty_squares).0 | get_up_left_attacks(
                    bishop,
                    self.empty_squares,
                ).0 | get_down_left_attacks(bishop, self.empty_squares).0 | get_down_right_attacks(
                    bishop,
                    self.empty_squares,
                ).0)
                    & self.moving_player.check_mask.0
                    & !self.moving_player.occupied.0
                    & self.moving_player.pins.get_pin_mask(bishop).0,
            );
            self.push_regulars(origin, PieceKind::Bishop, moves);
            proof {
                assert(all.skip(done).len() > 0);
                assert(all.take(done + 1).drop_last() =~= all.take(done));
                assert(all.skip(done).drop_first() =~= all.skip(done + 1));
                assert(all.take(done + 1).last() == origin.0);
                assert(moves.0 == old(self).setting().targets(PieceKind::Bishop, origin.0));
                assert(self.moves@ =~= start + old(self).setting().each_piece(
                    PieceKind::Bishop,
                    all.take(done + 1),
                ));
                done = done + 1;
            }
        }
        proof {
            lemma_squares_zero();
            assert(all.take(done) =~= all);
        }
    }

    /// Adds the moves of the king.
    pub fn gen_king_moves(&mut self)
        requires
            old(self).moving_player.king.0 != 0,
        ensures
            final(self).moves@ == old(self).moves@ + old(self).setting().spec_king_moves(),
            final(self).setting() == old(self).setting(),
    {
        let origin = self.moving_player.king.first_one_square();
        let moves = BitBoard(
            king_attacks(origin).0 & !self.moving_player.occupied.0
                & !self.moved_player.attacks.0,
        );
        self.push_regulars(origin, PieceKind::King, moves);
    }

    /// Adds the moves of the knights.
    pub fn gen_knight_moves(&mut self)
        ensures
            final(self).moves@ == old(self).moves@ + old(self).setting().spec_piece_moves(PieceKind::Knight),
            final(self).setting() == old(self).setting(),
    {
        let mut knights = BitBoard(
            self.moving_player.knights.0 & !self.moving_player.pins.get_all_pins().0,
        );
        let ghost start = self.moves@;
        let ghost all = squares(knights.0);
        let ghost mut done: int = 0;
        while knights.isnt_empty()
            invariant
                0 <= done <= all.len(),
                squares(knights.0) == all.skip(done),
                self.moves@ == start + old(self).setting().each_piece(PieceKind::Knight, all.take(done)),
                self.setting() == old(self).setting(),
            decreases knights.0,
        {
            let origin = knights.pop_first_one();
            let moves = BitBoard(
                self.moving_player.check_mask.0 & !self.moving_player.occupied.0
                    & knight_attacks(origin).0,
            );
            self.push_regulars(origin, PieceKind::Knight, moves);
            proof {
                assert(all.skip(done).len() > 0);
                assert(all.take(done + 1).drop_last() =~= all.take(done));
                assert(all.skip(done).drop_first() =~= all.skip(done + 1));
                assert(all.take(done + 1).last() == origin.0);
                assert(self.moves@ =~= start + old(self).setting().each_piece(
                    PieceKind::Knight,
                    all.take(done + 1),
                ));
                done = done + 1;
            }
        }
        proof {
            lemma_squares_zero();
            assert(all.take(done) =~= all);
        }
    }

    /// Adds the moves of the queens.
    pub fn gen_queen_moves(&mut self)
        ensures
            final(self).moves@ == old(self).moves@ + old(self).setting().spec_piece_moves(PieceKind::Queen),
            final(self).setting() == old(self).setting(),
    {
        let mut queens = BitBoard(self.moving_player.queens.0);
        let ghost start = self.moves@;
        let ghost all = squares(queens.0);
        let ghost mut done: int = 0;
        while queens.isnt_empty()
            invariant
                0 <= done <= all.len(),
                squares(queens.0) == all.skip(done),
                self.moves@ == start + old(self).setting().each_piece(PieceKind::Queen, all.take(done)),
                self.setting() == old(self).setting(),
            decreases queens.0,
        {
            let (origin, queen) = queens.pfo_with_bitboard();
            let moves = BitBoard(
                ((get_right_attacks(queen, self.empty_squares).0 | get_up_attacks(
                    queen,
                    self.empty_squares,
                ).0 | get_left_attacks(queen, self.empty_squares).0 | get_down_attacks(
                    queen,
                    self.empty_squares,
                ).0) | (get_up_right_attacks(queen, self.empty_squares).0 | get_up_left_attacks(
                    queen,
                    self.empty_squares,
                ).0 | get_down_left_attacks(queen, self.empty_squares).0 | get_down_right_attacks(
                    queen,
                    self.empty_squares,
                ).0))
                    & !self.moving_player.occupied.0
                    & self.moving_player.check_mask.0
                    & self.moving_player.pins.get_pin_mask(queen).0,
            );
            self.push_regulars(origin, PieceKind::Queen, moves);
            proof {
                assert(all.skip(done).len() > 0);
                assert(all.take(done + 1).drop_last() =~= all.take(done));
                assert(all.skip(done).drop_first() =~= all.skip(done + 1));
                assert(all.take(done + 1).last() == origin.0);
                assert(moves.0 == old(self).setting().targets(PieceKind::Queen, origin.0));
                assert(self.moves@ =~= start + old(self).setting().each_piece(
                    PieceKind::Queen,
                    all.take(done + 1),
                ));
                done = done + 1;
            }
        }
        proof {
            lemma_squares_zero();
            assert(all.take(done) =~= all);
        }
    }

    /// Adds the moves of the rooks.
    pub fn gen_rook_moves(&mut self)
        ensures
            final(self).moves@ == old(self).moves@ + old(self).setting().spec_piece_moves(PieceKind::Rook),
            final(self).setting() == old(self).setting(),
    {
        let mut rooks = BitBoard(self.moving_player.rooks.0 & !self.moving_player.pins.get_diag_pins().0);
        let ghost start = self.moves@;
        let ghost all = squares(rooks.0);
        let ghost mut done: int = 0;
        while rooks.isnt_empty()
            invariant
                0 <= done <= all.len(),
                squares(rooks.0) == all.skip(done),
                self.moves@ == start + old(self).setting().each_piece(PieceKind::Rook, all.take(done)),
                self.setting() == old(self).setting(),
            decreases rooks.0,
        {
            let (origin, rook) = rooks.pfo_with_bitboard();
            let moves = BitBoard(
                (get_right_attacks(rook, self.empty_squares).0 | get_up_attacks(
                    rook,
                    self.empty_squares,
                ).0 | get_left_attacks(rook, self.empty_squares).0 | get_down_attacks(
                    rook,
                    self.empty_squares,
                ).0)
                    & !self.moving_player.occupied.0
                    & self.moving_player.check_mask.0
                    & self.moving_player.pins.get_pin_mask(rook).0,
            );
            self.push_regulars(origin, PieceKind::Rook, moves);
            proof {
                assert(all.skip(done).len() > 0);
                assert(all.take(done + 1).drop_last() =~= all.take(done));
                assert(all.skip(done).drop_first() =~= all.skip(done + 1));
                assert(all.take(done + 1).last() == origin.0);
                assert(moves.0 == old(self).setting().targets(PieceKind::Rook, origin.0));
                assert(self.moves@ =~= start + old(self).setting().each_piece(
                    PieceKind::Rook,
                    all.take(done + 1),
                ));
                done = done + 1;
            }
        }
        proof {
            lemma_squares_zero();
            assert(all.take(done) =~= all);
        }
    }

    /// Adds castling king side for White, if it is legal for a king not in check.
    pub fn white_castle_king_side(&mut self)
        ensures
            final(self).moves@ == old(self).moves@ + (if old(self).setting().can_castle_ks(Player::White) {
                seq![Move::CastleKS]
            } else {
                Seq::empty()
            }),
            final(self).setting() == old(self).setting(),
    {
        if self.moving_player.can_castle_ks && BitBoard(W_CASTLE_KS_SPACE).does_contain_none(
            BitBoard(!self.empty_squares.0 | self.moved_player.attacks.0),
        ) {
            self.moves.push(Move::CastleKS);
            assert(self.moves@ =~= old(self).moves@ + seq![Move::CastleKS]);
        } else {
            assert(self.moves@ =~= old(self).moves@ + Seq::<Move>::empty());
        }
    }

    /// Adds castling queen side for White, if it is legal for a king not in check.
    pub fn white_castle_queen_side(&mut self)
        ensures
            final(self).moves@ == old(self).moves@ + (if old(self).setting().can_castle_qs(Player::White) {
                seq![Move::CastleQS]
            } else {
                Seq::empty()
            }),
            final(self).setting() == old(self).setting(),
    {
        if self.moving_player.can_castle_qs && BitBoard(W_CASTLE_QS_SPACE).does_contain_none(
            BitBoard(!self.empty_squares.0),
        ) && BitBoard(W_CASTLE_QS_KING_PASS).does_contain_none(self.moved_player.attacks) {
            self.moves.push(Move::CastleQS);
            assert(self.moves@ =~= old(self).moves@ + seq![Move::CastleQS]);
        } else {
            assert(self.moves@ =~= old(self).moves@ + Seq::<Move>::empty());
        }
    }

    /// Adds castling king side for Black, if it is legal for a king not in check.
    pub fn black_castle_king_side(&mut self)
        ensures
            final(self).moves@ == old(self).moves@ + (if old(self).setting().can_castle_ks(Player::Black) {
                seq![Move::CastleKS]
            } else {
                Seq::empty()
            }),
            final(self).setting() == old(self).setting(),
    {
        if self.moving_player.can_castle_ks && BitBoard(B_CASTLE_KS_SPACE).does_contain_none(
            BitBoard(!self.empty_squares.0 | self.moved_player.attacks.0),
        ) {
            self.moves.push(Move::CastleKS);
            assert(self.moves@ =~= old(self).moves@ + seq![Move::CastleKS]);
        } else {
            assert(self.moves@ =~= old(self).moves@ + Seq::<Move>::empty());
        }
    }

    /// Adds castling queen side for Black, if it is legal for a king not in check.
    pub fn black_castle_queen_side(&mut self)
        ensures
            final(self).moves@ == old(self).moves@ + (if old(self).setting().can_castle_qs(Player::Black) {
                seq![Move::CastleQS]
            } else {
                Seq::empty()
            }),
            final(self).setting() == old(self).setting(),
    {
        if self.moving_player.can_castle_qs && BitBoard(B_CASTLE_QS_SPACE).does_contain_none(
            BitBoard(!self.empty_squares.0),
        ) && BitBoard(B_CASTLE_QS_KING_PASS).does_contain_none(self.moved_player.attacks) {
            self.moves.push(Move::CastleQS);
            assert(self.moves@ =~= old(self).moves@ + seq![Move::CastleQS]);
        } else {
            assert(self.moves@ =~= old(self).moves@ + Seq::<Move>::empty());
        }
    }
}

/// Appending in two steps is appending the two parts joined.
pub proof fn lemma_concat<A>(a: Seq<A>, b: Seq<A>, c: Seq<A>)
    ensures
        a + b + c == a + (b + c),
{
    assert(a + b + c =~= a + (b + c));
}

proof fn lemma_concat3<A>(a: Seq<A>, b: Seq<A>, c: Seq<A>, d: Seq<A>)
    ensures
        a + b + c + d == a + (b + c + d),
{
    assert(a + b + c + d =~= a + (b + c + d));
}

impl Position {
    /// The legal moves of the side to move, in the order in which they are generated.
    pub open spec fn spec_moves(self) -> Seq<Move> {
        Setting::of(self).spec_gen_moves(self.current_player)
    }
}

} // verus!
