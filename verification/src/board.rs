//! The position: both sides, the side to move, the en-passant state and the
//! map from squares to pieces; and the constraints on the side to move that
//! make move generation legal by construction.
use vstd::prelude::*;
use crate::attacks::AttackGen;
use crate::bitboard::BitBoard;
use crate::bits::{lowest, single};
use crate::invariants::{lemma_apply_wf, lemma_constraints_wf};
use crate::moves::Move;
use crate::piece::{Piece, PieceKind, Player};
use crate::pins::Pins;
use crate::player_state::PlayerState;
use crate::slides::{
    Direction, get_down_attacks, get_down_left_attacks, get_down_right_attacks, get_left_attacks,
    get_right_attacks, get_up_attacks, get_up_left_attacks, get_up_right_attacks, slide, step,
};
use crate::square::Square;
use crate::tables::{knight_attacks, knight_moves};

verus! {

/// The square of White's queen-side rook before it has moved.
pub const WHITE_LEFT_ROOK_ORIGIN: u32 = 0;

/// The square of White's king-side rook before it has moved.
pub const WHITE_RIGHT_ROOK_ORIGIN: u32 = 7;

/// The square of Black's queen-side rook before it has moved.
pub const BLACK_LEFT_ROOK_ORIGIN: u32 = 56;

/// The square of Black's king-side rook before it has moved.
pub const BLACK_RIGHT_ROOK_ORIGIN: u32 = 63;

/// What stands on each of the 64 squares.
#[derive(Clone, Copy, Debug)]
pub struct BoardPieces {
    pub pieces: [Option<Piece>; 64],
}

impl View for BoardPieces {
    type V = Seq<Option<Piece>>;

    open spec fn view(&self) -> Seq<Option<Piece>> {
        self.pieces@
    }
}

/// The piece map after a piece has gone from `origin` to `target`.
pub open spec fn pieces_moved(pieces: Seq<Option<Piece>>, origin: Square, target: Square) -> Seq<
    Option<Piece>,
> {
    pieces.update(target.0 as int, pieces[origin.0 as int]).update(origin.0 as int, None)
}

impl BoardPieces {
    /// A map with no piece on any square.
    pub fn empty() -> (r: Self)
        ensures
            r@.len() == 64,
            forall|i: int| 0 <= i < 64 ==> r@[i] is None,
    {
        Self { pieces: [None;64] }
    }

    /// What stands on `square`.
    pub fn get_piece(&self, square: Square) -> (r: &Option<Piece>)
        requires
            square.wf(),
        ensures
            *r == self@[square.0 as int],
    {
        &self.pieces[square.0 as usize]
    }

    /// What stands on `square`, to be changed.
    pub fn get_mut_piece(&mut self, square: Square) -> (r: &mut Option<Piece>)
        requires
            square.wf(),
        ensures
            *r == old(self)@[square.0 as int],
            final(self)@ == old(self)@.update(square.0 as int, *final(r)),
    {
        &mut self.pieces[square.0 as usize]
    }

    /// Leaves `square` empty.
    pub fn remove_piece(&mut self, square: Square)
        requires
            square.wf(),
        ensures
            final(self)@ == old(self)@.update(square.0 as int, None),
    {
        self.pieces[square.0 as usize] = None;
    }

    /// Moves what stands on `origin` to `target`, and leaves `origin` empty.
    pub fn move_piece(&mut self, origin: Square, target: Square)
        requires
            origin.wf(),
            target.wf(),
        ensures
            final(self)@ == pieces_moved(old(self)@, origin, target),
    {
        let piece = self.pieces[origin.0 as usize];
        self.pieces[target.0 as usize] = piece;
        self.pieces[origin.0 as usize] = None;
    }
}

/// The en-passant state: the square a capturing pawn lands on, and the pawn
/// that has just advanced two ranks. Both are empty when no capture en
/// passant is possible.
#[derive(Clone, Copy, Debug, PartialEq, Eq, Structural)]
pub struct EnPassant {
    pub capture_point: BitBoard,
    pub pawn: BitBoard,
}

impl EnPassant {
    /// The state in which no capture en passant is possible.
    pub open spec fn spec_new() -> EnPassant {
        EnPassant { capture_point: BitBoard(0), pawn: BitBoard(0) }
    }

    /// No capture en passant is possible.
    pub fn new() -> (r: Self)
        ensures
            r == EnPassant::spec_new(),
    {
        Self { capture_point: BitBoard::empty(), pawn: BitBoard::empty() }
    }
}

/// The position. `moving_player` is the side to move, `moved_player` the side
/// that has just moved; `current_player` is the colour of the side to move.
#[derive(Clone, Copy, Debug)]
pub struct Board {
    pub moving_player: PlayerState,
    pub moved_player: PlayerState,
    pub current_player: Player,
    pub ep_info: EnPassant,
    pub pieces: BoardPieces,
    pub half_moves: u32,
}

/// A position as a mathematical value: a [`Board`] with its piece map as a sequence.
pub struct Position {
    pub moving_player: PlayerState,
    pub moved_player: PlayerState,
    pub current_player: Player,
    pub ep_info: EnPassant,
    pub pieces: Seq<Option<Piece>>,
    pub half_moves: u32,
}

impl View for Board {
    type V = Position;

    open spec fn view(&self) -> Position {
        Position {
            moving_player: self.moving_player,
            moved_player: self.moved_player,
            current_player: self.current_player,
            ep_info: self.ep_info,
            pieces: self.pieces@,
            half_moves: self.half_moves,
        }
    }
}

/// The first square of the first rank of `player`: a1 for White, a8 for Black.
pub open spec fn home(player: Player) -> int {
    match player {
        Player::White => 0,
        Player::Black => 56,
    }
}

/// The four lines through a square.
#[derive(Clone, Copy, Debug, PartialEq, Eq, Structural)]
pub enum Line {
    Horizontal,
    Vertical,
    Diagonal,
    AntiDiagonal,
}

impl Direction {
    /// The line that the direction runs along.
    pub open spec fn line(self) -> Line {
        match self {
            Direction::Up | Direction::Down => Line::Vertical,
            Direction::Right | Direction::Left => Line::Horizontal,
            Direction::UpRight | Direction::DownLeft => Line::Diagonal,
            Direction::DownRight | Direction::UpLeft => Line::AntiDiagonal,
        }
    }

    /// The direction runs along a rank.
    pub open spec fn is_horizontal(self) -> bool {
        self.line() == Line::Horizontal
    }

    /// The direction does not run along a file.
    pub open spec fn is_non_vertical(self) -> bool {
        self.line() != Line::Vertical
    }
}

/// The order in which the rays from the king are looked at.
pub open spec fn ray_order(i: int) -> Direction {
    if i == 0 {
        Direction::Up
    } else if i == 1 {
        Direction::UpRight
    } else if i == 2 {
        Direction::Right
    } else if i == 3 {
        Direction::DownRight
    } else if i == 4 {
        Direction::Down
    } else if i == 5 {
        Direction::DownLeft
    } else if i == 6 {
        Direction::Left
    } else {
        Direction::UpLeft
    }
}

impl Pins {
    /// These pins with `ray` added to those along `line`.
    pub open spec fn with_ray(self, line: Line, ray: u64) -> Pins {
        match line {
            Line::Horizontal => Pins { horizontal: BitBoard(self.horizontal.0 | ray), ..self },
            Line::Vertical => Pins { vertical: BitBoard(self.vertical.0 | ray), ..self },
            Line::Diagonal => Pins { diagonal: BitBoard(self.diagonal.0 | ray), ..self },
            Line::AntiDiagonal => Pins {
                anti_diagonal: BitBoard(self.anti_diagonal.0 | ray),
                ..self
            },
        }
    }
}

impl Position {
    /// This position with the attack map of the side that has just moved replaced.
    pub open spec fn with_attacks(self, attacks: u64) -> Position {
        Position {
            moved_player: PlayerState { attacks: BitBoard(attacks), ..self.moved_player },
            ..self
        }
    }

    /// The sliders of the side that has just moved which attack along `d`.
    pub open spec fn casters(self, d: Direction) -> u64 {
        match d.line() {
            Line::Horizontal | Line::Vertical => self.moved_player.queens.0
                | self.moved_player.rooks.0,
            Line::Diagonal | Line::AntiDiagonal => self.moved_player.queens.0
                | self.moved_player.bishops.0,
        }
    }

    /// The squares that a ray from the king passes through: all but those of
    /// the other side's pieces, and also that of the pawn that can be
    /// captured en passant.
    pub open spec fn ray_squares(self) -> u64 {
        !self.moved_player.occupied.0 | self.ep_info.pawn.0
    }

    /// The squares next to the pawn that can be captured en passant, on its rank.
    pub open spec fn ep_attackers(self) -> u64 {
        step(self.ep_info.pawn.0, Direction::Left) | step(self.ep_info.pawn.0, Direction::Right)
    }

    /// The ray from the king of the side to move in direction `d`: it passes
    /// the squares of `through` and ends on the first other square.
    pub open spec fn king_ray(self, through: u64, d: Direction) -> u64 {
        slide(self.moving_player.king.0, through, d)
    }

    /// The ray gives a second check: nothing more is looked at after it.
    pub open spec fn ray_stops(self, ray: u64, d: Direction) -> bool {
        &&& ray & self.casters(d) != 0
        &&& ray & self.ep_info.pawn.0 == 0
        &&& !single(ray & self.moving_player.occupied.0)
        &&& ray & self.moving_player.occupied.0 == 0
        &&& self.moving_player.check_mask.0 != u64::MAX
    }

    /// What one ray from the king changes. Only a ray that ends on a slider
    /// of the other side that attacks along it changes anything.
    ///
    /// A ray through the pawn that can be captured en passant ends the right
    /// to capture it where the capture would open the ray: on a rank, with
    /// one piece of the side to move on the ray and a square next to the pawn
    /// on it; on a rank or a diagonal, with no piece of the side to move on
    /// the ray. Another ray with one such piece on it is a pin, and is added
    /// to the pins along its line. Another ray with no such piece on it is a
    /// check: the first one sets the check mask to the ray, a second one sets
    /// `king_must_move`.
    pub open spec fn after_ray(self, ray: u64, d: Direction, ep_attackers: u64) -> Position {
        let blockers = ray & self.moving_player.occupied.0;
        if ray & self.casters(d) == 0 {
            self
        } else if ray & self.ep_info.pawn.0 != 0 {
            if (d.is_horizontal() && single(blockers) && ray & ep_attackers != 0) || (
            d.is_non_vertical() && blockers == 0) {
                Position { ep_info: EnPassant::spec_new(), ..self }
            } else {
                self
            }
        } else if single(blockers) {
            Position {
                moving_player: PlayerState {
                    pins: self.moving_player.pins.with_ray(d.line(), ray),
                    ..self.moving_player
                },
                ..self
            }
        } else if blockers == 0 {
            if self.moving_player.check_mask.0 == u64::MAX {
                Position {
                    moving_player: PlayerState {
                        check_mask: BitBoard(ray),
                        ..self.moving_player
                    },
                    ..self
                }
            } else {
                Position {
                    moving_player: PlayerState { king_must_move: true, ..self.moving_player },
                    ..self
                }
            }
        } else {
            self
        }
    }

    /// The position after the rays from number `i` on have been looked at,
    /// in the order of [`ray_order`]. `through` and `ep_attackers` are those
    /// of the position before the first ray.
    pub open spec fn after_rays(self, i: int, through: u64, ep_attackers: u64) -> Position
        decreases 8 - i,
    {
        if i < 0 || i >= 8 {
            self
        } else {
            let d = ray_order(i);
            let ray = self.king_ray(through, d);
            let next = self.after_ray(ray, d, ep_attackers);
            if self.ray_stops(ray, d) {
                next
            } else {
                next.after_rays(i + 1, through, ep_attackers)
            }
        }
    }

    /// The position with the pins and the checks by sliders worked out.
    pub open spec fn spec_update_pins_and_scm(self) -> Position {
        self.after_rays(0, self.ray_squares(), self.ep_attackers())
    }

    /// The knights and pawns of the other side that attack the king of the
    /// side to move.
    pub open spec fn non_sliding_attackers(self) -> u64 {
        let king = self.moving_player.king.0;
        (knight_moves(lowest(king)) & self.moved_player.knights.0) | ((match self.current_player {
            Player::White => step(king, Direction::UpLeft) | step(king, Direction::UpRight),
            Player::Black => step(king, Direction::DownLeft) | step(king, Direction::DownRight),
        }) & self.moved_player.pawns.0)
    }

    /// The position with the checks by knights and pawns worked out. One
    /// attacker is a check: the first check sets the check mask to the
    /// attacker's square, a second one sets `king_must_move`. Two attackers
    /// or more set `king_must_move`.
    pub open spec fn spec_update_non_sliding_cm(self) -> Position {
        let attackers = self.non_sliding_attackers();
        if self.moving_player.king_must_move {
            self
        } else if single(attackers) {
            if self.moving_player.check_mask.0 == u64::MAX {
                Position {
                    moving_player: PlayerState {
                        check_mask: BitBoard(attackers),
                        ..self.moving_player
                    },
                    ..self
                }
            } else {
                Position {
                    moving_player: PlayerState { king_must_move: true, ..self.moving_player },
                    ..self
                }
            }
        } else if attackers != 0 {
            Position {
                moving_player: PlayerState { king_must_move: true, ..self.moving_player },
                ..self
            }
        } else {
            self
        }
    }

    /// The position with the constraints of the side to move cleared.
    pub open spec fn spec_reset_constraints(self) -> Position {
        Position {
            moving_player: PlayerState {
                king_must_move: false,
                pins: Pins::spec_new(),
                check_mask: BitBoard(u64::MAX),
                ..self.moving_player
            },
            ..self
        }
    }

    /// The position with the attack map of the side that has just moved
    /// computed afresh.
    pub open spec fn spec_update_attacks(self) -> Position {
        self.with_attacks(AttackGen::of(self).spec_attack_map(self.current_player.opponent()))
    }

    /// The position with every constraint on the side to move computed
    /// afresh: the other side's attacks first, then pins and checks by
    /// sliders, then checks by knights and pawns.
    pub open spec fn spec_update_move_constraints(self) -> Position {
        self.spec_reset_constraints().spec_update_attacks().spec_update_pins_and_scm().spec_update_non_sliding_cm()
    }

    /// A piece of `kind` that belongs to `player` stands on `sq`.
    pub open spec fn has(self, sq: int, kind: PieceKind, player: Player) -> bool {
        self.pieces[sq] == Some(Piece { piece_kind: kind, player })
    }

    /// A piece of `player` can go to `sq`: no piece of its own side and no king stands there.
    pub open spec fn free_for(self, player: Player, sq: int) -> bool {
        match self.pieces[sq] {
            None => true,
            Some(piece) => piece.player != player && piece.piece_kind != PieceKind::King,
        }
    }

    /// The piece map and the sets of both sides say the same about `sq`.
    pub open spec fn agrees_at(self, sq: int) -> bool {
        match self.pieces[sq] {
            None => self.moving_player.vacant(sq) && self.moved_player.vacant(sq),
            Some(piece) => if piece.player == self.current_player {
                self.moving_player.holds(piece.piece_kind, sq) && self.moved_player.vacant(sq)
            } else {
                self.moved_player.holds(piece.piece_kind, sq) && self.moving_player.vacant(sq)
            },
        }
    }

    /// The piece map and the sets of both sides say the same about every square.
    pub open spec fn squares_agree(self) -> bool {
        &&& self.pieces.len() == 64
        &&& forall|sq: int| 0 <= sq < 64 ==> #[trigger] self.agrees_at(sq)
    }

    /// A side that may still castle has its king and the rook of that wing
    /// on their first squares.
    pub open spec fn castling_wf(self) -> bool {
        let me = self.current_player;
        let you = me.opponent();
        &&& self.moving_player.can_castle_ks ==> self.has(home(me) + 4, PieceKind::King, me)
            && self.has(home(me) + 7, PieceKind::Rook, me)
        &&& self.moving_player.can_castle_qs ==> self.has(home(me) + 4, PieceKind::King, me)
            && self.has(home(me), PieceKind::Rook, me)
        &&& self.moved_player.can_castle_ks ==> self.has(home(you) + 4, PieceKind::King, you)
            && self.has(home(you) + 7, PieceKind::Rook, you)
        &&& self.moved_player.can_castle_qs ==> self.has(home(you) + 4, PieceKind::King, you)
            && self.has(home(you), PieceKind::Rook, you)
    }

    /// The en-passant state is empty, or it names one pawn of the side that
    /// has just moved and the empty square directly behind that pawn.
    pub open spec fn ep_wf(self) -> bool {
        let point = self.ep_info.capture_point.0;
        let pawn = self.ep_info.pawn.0;
        let p = lowest(pawn);
        let c = lowest(point);
        ||| point == 0 && pawn == 0
        ||| {
            &&& 0 <= p < 64
            &&& 0 <= c < 64
            &&& pawn == 1u64 << (p as u64)
            &&& point == 1u64 << (c as u64)
            &&& c == match self.current_player {
                Player::White => p + 8,
                Player::Black => p - 8,
            }
            &&& self.has(p, PieceKind::Pawn, self.current_player.opponent())
            &&& self.pieces[c] is None
        }
    }

    /// What holds of the pieces of a position that play can reach: the piece
    /// map and the sets agree, each side has one king, and the en-passant
    /// state and the castling rights fit the pieces.
    pub open spec fn wf_placement(self) -> bool {
        &&& self.squares_agree()
        &&& single(self.moving_player.king.0)
        &&& single(self.moved_player.king.0)
        &&& self.ep_wf()
        &&& self.castling_wf()
    }

    /// The position is well formed: its pieces are, and the check mask of
    /// the side to move is not empty.
    pub open spec fn wf(self) -> bool {
        &&& self.wf_placement()
        &&& self.moving_player.check_mask.0 != 0
    }

    /// The move can be made in this position: the piece that moves stands on
    /// its origin, it lands on an empty square or captures a piece of the
    /// other side that is no king, and a move of a special kind finds the
    /// squares it needs as it needs them.
    pub open spec fn admits(self, m: Move) -> bool {
        let me = self.current_player;
        match m {
            Move::Regular { origin, target, piece_kind, double_push } => {
                &&& origin.wf()
                &&& target.wf()
                &&& origin != target
                &&& self.has(origin.0 as int, piece_kind, me)
                &&& self.free_for(me, target.0 as int)
                &&& double_push ==> {
                    &&& piece_kind == PieceKind::Pawn
                    &&& self.pieces[target.0 as int] is None
                    &&& match me {
                        Player::White => target.0 == origin.0 + 16 && self.pieces[origin.0 + 8]
                            is None,
                        Player::Black => target.0 + 16 == origin.0 && self.pieces[target.0 + 8]
                            is None,
                    }
                }
            },
            Move::EnPassant { origin } => {
                &&& origin.wf()
                &&& self.ep_info.capture_point.0 != 0
                &&& self.has(origin.0 as int, PieceKind::Pawn, me)
            },
            Move::Promotion { origin, target, promotion_to } => {
                &&& origin.wf()
                &&& target.wf()
                &&& origin != target
                &&& self.has(origin.0 as int, PieceKind::Pawn, me)
                &&& self.free_for(me, target.0 as int)
                &&& promotion_to != PieceKind::King
            },
            Move::CastleKS => {
                &&& self.has(home(me) + 4, PieceKind::King, me)
                &&& self.has(home(me) + 7, PieceKind::Rook, me)
                &&& self.pieces[home(me) + 5] is None
                &&& self.pieces[home(me) + 6] is None
            },
            Move::CastleQS => {
                &&& self.has(home(me) + 4, PieceKind::King, me)
                &&& self.has(home(me), PieceKind::Rook, me)
                &&& self.pieces[home(me) + 2] is None
                &&& self.pieces[home(me) + 3] is None
            },
        }
    }

    /// The side to move after a piece has left or taken `origin`, as far as
    /// its castling rights go: a rook's first square gone means that wing's
    /// right gone.
    pub open spec fn rights_after(state: PlayerState, square: Square, player: Player) -> PlayerState {
        if square.0 == home(player) {
            PlayerState { can_castle_qs: false, ..state }
        } else if square.0 == home(player) + 7 {
            PlayerState { can_castle_ks: false, ..state }
        } else {
            state
        }
    }

    /// The side that has just moved after a capture on `target`, if there is
    /// a piece to capture.
    pub open spec fn captured_on(self, state: PlayerState, target: Square) -> PlayerState {
        match self.pieces[target.0 as int] {
            Some(piece) => state.spec_remove_piece(piece.piece_kind, target),
            None => state,
        }
    }

    /// The position after the pieces have moved as `m` says, with the
    /// castling rights and the en-passant state that follow. The sides have
    /// not changed roles yet.
    pub open spec fn spec_apply(self, m: Move) -> Position {
        let me = self.current_player;
        let you = me.opponent();
        match m {
            Move::EnPassant { origin } => {
                let move_to = Square(lowest(self.ep_info.capture_point.0) as u32);
                let captured = Square(lowest(self.ep_info.pawn.0) as u32);
                Position {
                    moving_player: self.moving_player.spec_move_piece(
                        PieceKind::Pawn,
                        origin,
                        move_to,
                    ),
                    moved_player: self.moved_player.spec_remove_piece(PieceKind::Pawn, captured),
                    pieces: pieces_moved(self.pieces, origin, move_to).update(
                        captured.0 as int,
                        None,
                    ),
                    ep_info: EnPassant::spec_new(),
                    ..self
                }
            },
            Move::Regular { origin, target, piece_kind, double_push } => {
                let mover = if piece_kind == PieceKind::King {
                    PlayerState { can_castle_ks: false, can_castle_qs: false, ..self.moving_player }
                } else {
                    self.moving_player
                };
                let t = 1u64 << target.0;
                Position {
                    moving_player: Self::rights_after(mover, origin, me).spec_move_piece(
                        piece_kind,
                        origin,
                        target,
                    ),
                    moved_player: self.captured_on(
                        Self::rights_after(self.moved_player, target, you),
                        target,
                    ),
                    pieces: pieces_moved(self.pieces, origin, target),
                    ep_info: if double_push {
                        EnPassant {
                            capture_point: BitBoard(
                                match me {
                                    Player::White => t >> 8,
                                    Player::Black => t << 8,
                                },
                            ),
                            pawn: BitBoard(t),
                        }
                    } else {
                        EnPassant::spec_new()
                    },
                    ..self
                }
            },
            Move::Promotion { origin, target, promotion_to } => {
                Position {
                    moving_player: self.moving_player.spec_remove_piece(
                        PieceKind::Pawn,
                        origin,
                    ).spec_place_piece(promotion_to, target),
                    moved_player: self.captured_on(
                        Self::rights_after(self.moved_player, target, you),
                        target,
                    ),
                    pieces: pieces_moved(self.pieces, origin, target).update(
                        target.0 as int,
                        Some(Piece { piece_kind: promotion_to, player: me }),
                    ),
                    ep_info: EnPassant::spec_new(),
                    ..self
                }
            },
            Move::CastleKS => self.spec_castle(4, 6, 7, 5),
            Move::CastleQS => self.spec_castle(4, 2, 0, 3),
        }
    }

    /// The position after the king of the side to move has gone from file
    /// `king_from` to file `king_to` of its first rank, and a rook from file
    /// `rook_from` to file `rook_to`. That side can castle no more.
    pub open spec fn spec_castle(self, king_from: int, king_to: int, rook_from: int, rook_to: int) -> Position {
        let base = home(self.current_player);
        let k0 = Square((base + king_from) as u32);
        let k1 = Square((base + king_to) as u32);
        let r0 = Square((base + rook_from) as u32);
        let r1 = Square((base + rook_to) as u32);
        Position {
            moving_player: PlayerState {
                can_castle_ks: false,
                can_castle_qs: false,
                ..self.moving_player.spec_move_piece(PieceKind::King, k0, k1).spec_move_piece(
                    PieceKind::Rook,
                    r0,
                    r1,
                )
            },
            pieces: pieces_moved(pieces_moved(self.pieces, k0, k1), r0, r1),
            ep_info: EnPassant::spec_new(),
            ..self
        }
    }

    /// The position after the move `m`: the pieces move, the sides change
    /// roles, and the constraints on the new side to move are computed.
    #[verifier::opaque]
    pub open spec fn spec_make_move(self, m: Move) -> Position {
        self.spec_apply(m).spec_switch_sides().spec_update_move_constraints()
    }

    /// `other` has the same pieces on the same squares, the same castling
    /// rights, the same side to move and the same attack maps: it differs at
    /// most in the constraints on the side to move and in the en-passant state.
    pub open spec fn same_placement(self, other: Position) -> bool {
        &&& other.pieces == self.pieces
        &&& other.current_player == self.current_player
        &&& other.half_moves == self.half_moves
        &&& other.moved_player == self.moved_player
        &&& other.moving_player == PlayerState {
            check_mask: other.moving_player.check_mask,
            pins: other.moving_player.pins,
            king_must_move: other.moving_player.king_must_move,
            ..self.moving_player
        }
    }

    /// The position with the two sides' roles exchanged.
    pub open spec fn spec_switch_sides(self) -> Position {
        Position {
            moving_player: self.moved_player,
            moved_player: self.moving_player,
            current_player: self.current_player.opponent(),
            ..self
        }
    }
}

impl Board {
    /// Looks at one ray from the king, and says whether it gave a second check.
    fn update_ray(&mut self, ray: BitBoard, d: Direction, ep_attackers: BitBoard) -> (stop: bool)
        ensures
            final(self)@ == old(self)@.after_ray(ray.0, d, ep_attackers.0),
            stop == old(self)@.ray_stops(ray.0, d),
            old(self)@.same_placement(final(self)@),
    {
        let possible_casters = match d {
            Direction::Up | Direction::Down | Direction::Right | Direction::Left => BitBoard(
                self.moved_player.queens.0 | self.moved_player.rooks.0,
            ),
            _ => BitBoard(self.moved_player.queens.0 | self.moved_player.bishops.0),
        };
        let is_horizontal = match d {
            Direction::Right | Direction::Left => true,
            _ => false,
        };
        let is_non_vertical = match d {
            Direction::Up | Direction::Down => false,
            _ => true,
        };
        if (ray.0 & possible_casters.0) != 0 {
            let does_contain_ep_pawn = (ray.0 & self.ep_info.pawn.0) != 0;
            let blockers = BitBoard(ray.0 & self.moving_player.occupied.0);
            let is_single_blocker = blockers.is_single_1();
            let is_empty_of_blockers = blockers.is_empty();
            let ep_horizontal_condition = is_horizontal && is_single_blocker && (ray.0
                & ep_attackers.0) != 0;
            let ep_non_vertical_condition = is_non_vertical && is_empty_of_blockers;
            if does_contain_ep_pawn {
                if ep_horizontal_condition || ep_non_vertical_condition {
                    self.ep_info = EnPassant::new();
                }
            } else if is_single_blocker {
                match d {
                    Direction::Up | Direction::Down => {
                        self.moving_player.pins.vertical.0 |= ray.0;
                    },
                    Direction::Right | Direction::Left => {
                        self.moving_player.pins.horizontal.0 |= ray.0;
                    },
                    Direction::UpRight | Direction::DownLeft => {
                        self.moving_player.pins.diagonal.0 |= ray.0;
                    },
                    Direction::DownRight | Direction::UpLeft => {
                        self.moving_player.pins.anti_diagonal.0 |= ray.0;
                    },
                }
            } else if is_empty_of_blockers {
                if self.moving_player.isnt_in_check() {
                    self.moving_player.check_mask = ray;
                } else {
                    self.moving_player.king_must_move = true;
                    return true;
                }
            }
        }
        false
    }

    /// Works out the pins on the side to move and the checks by sliders,
    /// from the eight rays that leave its king.
    pub fn update_pins_and_scm(&mut self)
        ensures
            final(self)@ == old(self)@.spec_update_pins_and_scm(),
            old(self)@.same_placement(final(self)@),
    {
        let ep_attackers = BitBoard(self.ep_info.pawn.move_left().0 | self.ep_info.pawn.move_right().0);
        let super_piece = self.moving_player.king;
        let empty_squares = BitBoard(!self.moved_player.occupied.0 | self.ep_info.pawn.0);
        let ghost start = self@;
        let ghost through = empty_squares.0;
        let ghost epa = ep_attackers.0;
        proof {
            reveal_with_fuel(Position::after_rays, 9);
        }
        if self.update_ray(get_up_attacks(super_piece, empty_squares), Direction::Up, ep_attackers) {
            return ;
        }
        if self.update_ray(
            get_up_right_attacks(super_piece, empty_squares),
            Direction::UpRight,
            ep_attackers,
        ) {
            return ;
        }
        if self.update_ray(
            get_right_attacks(super_piece, empty_squares),
            Direction::Right,
            ep_attackers,
        ) {
            return ;
        }
        if self.update_ray(
            get_down_right_attacks(super_piece, empty_squares),
            Direction::DownRight,
            ep_attackers,
        ) {
            return ;
        }
        if self.update_ray(
            get_down_attacks(super_piece, empty_squares),
            Direction::Down,
            ep_attackers,
        ) {
            return ;
        }
        if self.update_ray(
            get_down_left_attacks(super_piece, empty_squares),
            Direction::DownLeft,
            ep_attackers,
        ) {
            return ;
        }
        if self.update_ray(
            get_left_attacks(super_piece, empty_squares),
            Direction::Left,
            ep_attackers,
        ) {
            return ;
        }
        let _ = self.update_ray(
            get_up_left_attacks(super_piece, empty_squares),
            Direction::UpLeft,
            ep_attackers,
        );
    }

    /// Works out the checks by knights and pawns. Runs after
    /// [`Board::update_pins_and_scm`].
    pub fn update_non_sliding_cm(&mut self)
        requires
            old(self).moving_player.king.0 != 0,
        ensures
            final(self)@ == old(self)@.spec_update_non_sliding_cm(),
    {
        if self.moving_player.king_must_move {
            return ;
        }
        let king = self.moving_player.king;
        let pawn_squares = match self.current_player {
            Player::White => BitBoard(king.move_up_left().0 | king.move_up_right().0),
            Player::Black => BitBoard(king.move_down_left().0 | king.move_down_right().0),
        };
        let attackers = BitBoard(
            (knight_attacks(king.first_one_square()).0 & self.moved_player.knights.0)
                | (pawn_squares.0 & self.moved_player.pawns.0),
        );
        if attackers.is_single_1() {
            if self.moving_player.isnt_in_check() {
                self.moving_player.check_mask = attackers;
            } else {
                self.moving_player.king_must_move = true;
            }
        } else if attackers.isnt_empty() {
            self.moving_player.king_must_move = true;
        }
    }

    /// Computes afresh what constrains the side to move: the other side's
    /// attacks, the pins, the check mask and whether only the king can move.
    pub fn update_move_constraints(&mut self)
        requires
            old(self).moving_player.king.0 != 0,
            old(self).moved_player.king.0 != 0,
        ensures
            final(self)@ == old(self)@.spec_update_move_constraints(),
    {
        self.moving_player.king_must_move = false;
        self.moving_player.pins = Pins::new();
        self.moving_player.check_mask = BitBoard::full();
        AttackGen::run(self);
        self.update_pins_and_scm();
        self.update_non_sliding_cm();
    }

    /// Exchanges the roles of the two sides.
    pub fn switch_sides(&mut self)
        ensures
            final(self)@ == old(self)@.spec_switch_sides(),
    {
        let moving = self.moving_player;
        self.moving_player = self.moved_player;
        self.moved_player = moving;
        self.current_player = self.current_player.not();
    }
    /// Whether a piece of `kind` that belongs to `player` stands on `square`.
    fn holds(&self, square: u32, kind: PieceKind, player: Player) -> (r: bool)
        requires
            square < 64,
        ensures
            r == self@.has(square as int, kind, player),
    {
        match self.pieces.pieces[square as usize] {
            Some(piece) => piece.piece_kind == kind && piece.player == player,
            None => false,
        }
    }

    /// Whether `square` is empty.
    fn is_vacant(&self, square: u32) -> (r: bool)
        requires
            square < 64,
        ensures
            r == (self@.pieces[square as int] is None),
    {
        self.pieces.pieces[square as usize].is_none()
    }

    /// Whether a piece of the side to move can go to `square`.
    fn is_free(&self, square: u32) -> (r: bool)
        requires
            square < 64,
        ensures
            r == self@.free_for(self.current_player, square as int),
    {
        match self.pieces.pieces[square as usize] {
            Some(piece) => piece.player != self.current_player && piece.piece_kind
                != PieceKind::King,
            None => true,
        }
    }

    /// Whether `chess_move` can be made in this position: whether
    /// [`Board::make_move`] may be called with it.
    pub fn accepts(&self, chess_move: Move) -> (r: bool)
        ensures
            r == self@.admits(chess_move),
    {
        let me = self.current_player;
        let base: u32 = match me {
            Player::White => 0,
            Player::Black => 56,
        };
        match chess_move {
            Move::Regular { origin, target, piece_kind, double_push } => {
                if origin.0 >= 64 || target.0 >= 64 || origin.0 == target.0 {
                    return false;
                }
                if !self.holds(origin.0, piece_kind, me) || !self.is_free(target.0) {
                    return false;
                }
                if !double_push {
                    return true;
                }
                piece_kind == PieceKind::Pawn && self.is_vacant(target.0) && match me {
                    Player::White => origin.0 < 48 && target.0 == origin.0 + 16 && self.is_vacant(
                        origin.0 + 8,
                    ),
                    Player::Black => target.0 < 48 && target.0 + 16 == origin.0 && self.is_vacant(
                        target.0 + 8,
                    ),
                }
            },
            Move::EnPassant { origin } => {
                origin.0 < 64 && self.ep_info.capture_point.0 != 0 && self.holds(
                    origin.0,
                    PieceKind::Pawn,
                    me,
                )
            },
            Move::Promotion { origin, target, promotion_to } => {
                origin.0 < 64 && target.0 < 64 && origin.0 != target.0 && self.holds(
                    origin.0,
                    PieceKind::Pawn,
                    me,
                ) && self.is_free(target.0) && promotion_to != PieceKind::King
            },
            Move::CastleKS => {
                self.holds(base + 4, PieceKind::King, me) && self.holds(
                    base + 7,
                    PieceKind::Rook,
                    me,
                ) && self.is_vacant(base + 5) && self.is_vacant(base + 6)
            },
            Move::CastleQS => {
                self.holds(base + 4, PieceKind::King, me) && self.holds(base, PieceKind::Rook, me)
                    && self.is_vacant(base + 2) && self.is_vacant(base + 3)
            },
        }
    }

    /// Takes away the right to castle on the wing whose rook starts on `square`.
    fn revoke_rights(state: &mut PlayerState, square: Square, player: Player)
        ensures
            *final(state) == Position::rights_after(*old(state), square, player),
    {
        let (left, right) = match player {
            Player::White => (WHITE_LEFT_ROOK_ORIGIN, WHITE_RIGHT_ROOK_ORIGIN),
            Player::Black => (BLACK_LEFT_ROOK_ORIGIN, BLACK_RIGHT_ROOK_ORIGIN),
        };
        if square.0 == left {
            state.can_castle_qs = false;
        } else if square.0 == right {
            state.can_castle_ks = false;
        }
    }

    /// Moves king and rook of the side to move along its first rank, and
    /// takes away its castling rights.
    fn castle(&mut self, king_from: u32, king_to: u32, rook_from: u32, rook_to: u32)
        requires
            king_from < 8,
            king_to < 8,
            rook_from < 8,
            rook_to < 8,
        ensures
            final(self)@ == old(self)@.spec_castle(
                king_from as int,
                king_to as int,
                rook_from as int,
                rook_to as int,
            ),
    {
        let base: u32 = match self.current_player {
            Player::White => 0,
            Player::Black => 56,
        };
        let k0 = Square(base + king_from);
        let k1 = Square(base + king_to);
        let r0 = Square(base + rook_from);
        let r1 = Square(base + rook_to);
        self.moving_player.move_piece(PieceKind::King, k0, k1);
        self.pieces.move_piece(k0, k1);
        self.moving_player.move_piece(PieceKind::Rook, r0, r1);
        self.pieces.move_piece(r0, r1);
        self.moving_player.can_castle_ks = false;
        self.moving_player.can_castle_qs = false;
        self.ep_info = EnPassant::new();
    }

    /// Moves the pieces as `chess_move` says.
    fn apply_move(&mut self, chess_move: Move)
        requires
            old(self)@.wf_placement(),
            old(self)@.admits(chess_move),
        ensures
            final(self)@ == old(self)@.spec_apply(chess_move),
    {
        let me = self.current_player;
        let you = me.not();
        match chess_move {
            Move::EnPassant { origin } => {
                let move_to = self.ep_info.capture_point.first_one_square();
                let captured_square = self.ep_info.pawn.first_one_square();
                self.moving_player.move_piece(PieceKind::Pawn, origin, move_to);
                self.moved_player.remove_piece(PieceKind::Pawn, captured_square);
                self.pieces.move_piece(origin, move_to);
                self.pieces.remove_piece(captured_square);
                self.ep_info = EnPassant::new();
            },
            Move::Regular { origin, target, piece_kind, double_push } => {
                if piece_kind == PieceKind::King {
                    self.moving_player.can_castle_ks = false;
                    self.moving_player.can_castle_qs = false;
                }
                Self::revoke_rights(&mut self.moving_player, origin, me);
                Self::revoke_rights(&mut self.moved_player, target, you);
                self.moving_player.move_piece(piece_kind, origin, target);
                match *self.pieces.get_piece(target) {
                    Some(piece) => self.moved_player.remove_piece(piece.piece_kind, target),
                    None => {},
                }
                self.pieces.move_piece(origin, target);
                self.ep_info = if double_push {
                    let pawn = BitBoard::from(target);
                    EnPassant {
                        capture_point: match me {
                            Player::White => pawn.move_down(1),
                            Player::Black => pawn.move_up(1),
                        },
                        pawn,
                    }
                } else {
                    EnPassant::new()
                };
            },
            Move::Promotion { origin, target, promotion_to } => {
                Self::revoke_rights(&mut self.moved_player, target, you);
                self.moving_player.remove_piece(PieceKind::Pawn, origin);
                self.moving_player.place_piece(promotion_to, target);
                match *self.pieces.get_piece(target) {
                    Some(piece) => self.moved_player.remove_piece(piece.piece_kind, target),
                    None => {},
                }
                self.pieces.move_piece(origin, target);
                match self.pieces.get_mut_piece(target) {
                    Some(piece) => {
                        piece.piece_kind = promotion_to;
                    },
                    None => {},
                }
                self.ep_info = EnPassant::new();
            },
            Move::CastleKS => {
                self.castle(4, 6, 7, 5);
            },
            Move::CastleQS => {
                self.castle(4, 2, 0, 3);
            },
        }
    }

    /// Makes the move `chess_move` for the side to move: the pieces move,
    /// castling rights and the en-passant state follow, the sides change
    /// roles, and the constraints on the new side to move are computed.
    /// After a move that the generator has emitted in a sound position the
    /// position is sound again: the side that has moved is not in check.
    pub fn make_move(&mut self, chess_move: Move)
        requires
            old(self)@.wf(),
            old(self)@.admits(chess_move),
        ensures
            final(self)@ == old(self)@.spec_make_move(chess_move),
            final(self)@.wf(),
            old(self)@.sound() && old(self)@.emits(chess_move) ==> final(self)@.sound(),
    {
        proof {
            reveal(Position::spec_make_move);
            if self@.sound() && self@.emits(chess_move) {
                self@.lemma_legal(chess_move);
            }
            lemma_apply_wf(self@, chess_move);
            lemma_constraints_wf(self@.spec_apply(chess_move).spec_switch_sides());
        }
        self.apply_move(chess_move);
        self.switch_sides();
        self.update_move_constraints();
    }
}

} // verus!
