//! The squares that the side which has just moved attacks.
use vstd::prelude::*;
use crate::bitboard::BitBoard;
use crate::bits::{lemma_squares_zero, lowest, squares};
use crate::board::{Board, Position};
use crate::piece::Player;
use crate::player_state::PlayerState;
use crate::slides::{
    Direction, get_down_attacks, get_down_left_attacks, get_down_right_attacks, get_left_attacks,
    get_right_attacks, get_up_attacks, get_up_left_attacks, get_up_right_attacks, slide, step,
};
use crate::tables::{king_attacks, king_moves, knight_attacks, knight_moves};

verus! {

/// The union of the knight attack sets of the squares in `origins`.
pub open spec fn knight_cover(origins: Seq<u32>) -> u64
    decreases origins.len(),
{
    if origins.len() == 0 {
        0
    } else {
        knight_cover(origins.drop_last()) | knight_moves(origins.last() as int)
    }
}

/// Builds the attack map of one side: every square that a piece of it
/// attacks, whether or not the piece is free to move there. Rays pass
/// through `empty_squares`.
pub struct AttackGen {
    pub attacking_player: PlayerState,
    pub empty_squares: BitBoard,
    pub attacks: BitBoard,
}

impl AttackGen {
    /// The generator for the side of `board` that has just moved. The king of
    /// the side to move counts as an empty square, so that rays go on
    /// through it.
    pub open spec fn of(board: Position) -> AttackGen {
        AttackGen {
            attacking_player: board.moved_player,
            empty_squares: BitBoard(
                !(board.moving_player.occupied.0 | board.moved_player.occupied.0)
                    | board.moving_player.king.0,
            ),
            attacks: BitBoard(0),
        }
    }

    /// The squares that the king attacks.
    pub open spec fn spec_king(self) -> u64 {
        king_moves(lowest(self.attacking_player.king.0))
    }

    /// The squares that the knights attack.
    pub open spec fn spec_knights(self) -> u64 {
        knight_cover(squares(self.attacking_player.knights.0))
    }

    /// The attacks of the sliders in `set` along the files and ranks.
    pub open spec fn spec_cross(self, set: u64) -> u64 {
        let e = self.empty_squares.0;
        slide(set, e, Direction::Up) | slide(set, e, Direction::Right) | slide(
            set,
            e,
            Direction::Down,
        ) | slide(set, e, Direction::Left)
    }

    /// The attacks of the sliders in `set` along the diagonals.
    pub open spec fn spec_diagonals(self, set: u64) -> u64 {
        let e = self.empty_squares.0;
        slide(set, e, Direction::UpRight) | slide(set, e, Direction::UpLeft) | slide(
            set,
            e,
            Direction::DownLeft,
        ) | slide(set, e, Direction::DownRight)
    }

    /// The squares that the queens attack.
    pub open spec fn spec_queens(self) -> u64 {
        self.spec_diagonals(self.attacking_player.queens.0) | self.spec_cross(
            self.attacking_player.queens.0,
        )
    }

    /// The squares that the rooks attack.
    pub open spec fn spec_rooks(self) -> u64 {
        self.spec_cross(self.attacking_player.rooks.0)
    }

    /// The squares that the bishops attack.
    pub open spec fn spec_bishops(self) -> u64 {
        self.spec_diagonals(self.attacking_player.bishops.0)
    }

    /// The squares that the pawns attack towards the a-file, playing as `player`.
    pub open spec fn spec_pawns_left(self, player: Player) -> u64 {
        let pawns = self.attacking_player.pawns.0;
        match player {
            Player::White => step(pawns, Direction::UpLeft),
            Player::Black => step(pawns, Direction::DownLeft),
        }
    }

    /// The squares that the pawns attack towards the h-file, playing as `player`.
    pub open spec fn spec_pawns_right(self, player: Player) -> u64 {
        let pawns = self.attacking_player.pawns.0;
        match player {
            Player::White => step(pawns, Direction::UpRight),
            Player::Black => step(pawns, Direction::DownRight),
        }
    }

    /// Every square that the side attacks, playing as `player`, joined to
    /// what `attacks` holds already.
    pub open spec fn spec_attack_map(self, player: Player) -> u64 {
        self.attacks.0 | self.spec_king() | self.spec_queens() | self.spec_rooks()
            | self.spec_bishops() | self.spec_knights() | self.spec_pawns_left(player)
            | self.spec_pawns_right(player)
    }

    /// Computes the attack map of the side of `board` that has just moved,
    /// and stores it in that side's `attacks`.
    pub fn run(board: &mut Board)
        requires
            old(board).moved_player.king.0 != 0,
        ensures
            final(board)@ == old(board)@.spec_update_attacks(),
    {
        board.moved_player.attacks = BitBoard::empty();
        let mut gen = AttackGen {
            attacking_player: board.moved_player,
            empty_squares: BitBoard(
                !(board.moving_player.occupied.0 | board.moved_player.occupied.0)
                    | board.moving_player.king.0,
            ),
            attacks: BitBoard::empty(),
        };
        gen.gen_attacks(board.current_player.not());
        board.moved_player.attacks = gen.attacks;
    }

    /// Adds the attacks of every piece of the side, playing as `attacking_player`.
    pub fn gen_attacks(&mut self, attacking_player: Player)
        requires
            old(self).attacking_player.king.0 != 0,
        ensures
            final(self).attacks.0 == old(self).spec_attack_map(attacking_player),
            final(self).attacking_player == old(self).attacking_player,
            final(self).empty_squares == old(self).empty_squares,
    {
        self.gen_king_attacks();
        self.gen_queen_attacks();
        self.gen_rook_attacks();
        self.gen_bishop_attacks();
        self.gen_knight_attacks();
        match attacking_player {
            Player::White => self.gen_white_pawn_attacks(),
            Player::Black => self.gen_black_pawn_attacks(),
        }
    }

    /// Adds the squares that the pawns attack, playing as Black.
    pub fn gen_black_pawn_attacks(&mut self)
        ensures
            final(self).attacks.0 == old(self).attacks.0 | old(self).spec_pawns_left(Player::Black)
                | old(self).spec_pawns_right(Player::Black),
            final(self).attacking_player == old(self).attacking_player,
            final(self).empty_squares == old(self).empty_squares,
    {
        self.attacks.0 |= self.attacking_player.pawns.move_down_left().0;
        self.attacks.0 |= self.attacking_player.pawns.move_down_right().0;
    }

    /// Adds the squares that the pawns attack, playing as White.
    pub fn gen_white_pawn_attacks(&mut self)
        ensures
            final(self).attacks.0 == old(self).attacks.0 | old(self).spec_pawns_left(Player::White)
                | old(self).spec_pawns_right(Player::White),
            final(self).attacking_player == old(self).attacking_player,
            final(self).empty_squares == old(self).empty_squares,
    {
        self.attacks.0 |= self.attacking_player.pawns.move_up_left().0;
        self.attacks.0 |= self.attacking_player.pawns.move_up_right().0;
    }

    fn cross_attacks(&self, set: BitBoard) -> (r: BitBoard)
        ensures
            r.0 == self.spec_cross(set.0),
    {
        BitBoard(
            get_up_attacks(set, self.empty_squares).0 | get_right_attacks(
                set,
                self.empty_squares,
            ).0 | get_down_attacks(set, self.empty_squares).0 | get_left_attacks(
                set,
                self.empty_squares,
            ).0,
        )
    }

    fn diagonal_attacks(&self, set: BitBoard) -> (r: BitBoard)
        ensures
            r.0 == self.spec_diagonals(set.0),
    {
        BitBoard(
            get_up_right_attacks(set, self.empty_squares).0 | get_up_left_attacks(
                set,
                self.empty_squares,
            ).0 | get_down_left_attacks(set, self.empty_squares).0 | get_down_right_attacks(
                set,
                self.empty_squares,
            ).0,
        )
    }

    /// Adds the squares that the bishops attack.
    pub fn gen_bishop_attacks(&mut self)
        ensures
            final(self).attacks.0 == old(self).attacks.0 | old(self).spec_bishops(),
            final(self).attacking_player == old(self).attacking_player,
            final(self).empty_squares == old(self).empty_squares,
    {
        self.attacks.0 |= self.diagonal_attacks(self.attacking_player.bishops).0;
    }

    /// Adds the squares that the king attacks.
    pub fn gen_king_attacks(&mut self)
        requires
            old(self).attacking_player.king.0 != 0,
        ensures
            final(self).attacks.0 == old(self).attacks.0 | old(self).spec_king(),
            final(self).attacking_player == old(self).attacking_player,
            final(self).empty_squares == old(self).empty_squares,
    {
        let origin = self.attacking_player.king.first_one_square();
        self.attacks.0 |= king_attacks(origin).0;
    }

    /// Adds the squares that the knights attack.
    pub fn gen_knight_attacks(&mut self)
        ensures
            final(self).attacks.0 == old(self).attacks.0 | old(self).spec_knights(),
            final(self).attacking_player == old(self).attacking_player,
            final(self).empty_squares == old(self).empty_squares,
    {
        let mut knights = self.attacking_player.knights;
        let ghost all = squares(knights.0);
        let ghost mut done: int = 0;
        let mut cover: u64 = 0;
        while knights.isnt_empty()
            invariant
                0 <= done <= all.len(),
                squares(knights.0) == all.skip(done),
                cover == knight_cover(all.take(done)),
            decreases knights.0,
        {
            let origin = knights.pop_first_one();
            cover |= knight_attacks(origin).0;
            proof {
                assert(all.skip(done).len() > 0);
                assert(all.take(done + 1).drop_last() =~= all.take(done));
                assert(all.skip(done).drop_first() =~= all.skip(done + 1));
                done = done + 1;
            }
        }
        proof {
            lemma_squares_zero();
            assert(all.take(done) =~= all);
        }
        self.attacks.0 |= cover;
    }

    /// Adds the squares that the queens attack.
    pub fn gen_queen_attacks(&mut self)
        ensures
            final(self).attacks.0 == old(self).attacks.0 | old(self).spec_queens(),
            final(self).attacking_player == old(self).attacking_player,
            final(self).empty_squares == old(self).empty_squares,
    {
        self.attacks.0 |= self.diagonal_attacks(self.attacking_player.queens).0
            | self.cross_attacks(self.attacking_player.queens).0;
    }

    /// Adds the squares that the rooks attack.
    pub fn gen_rook_attacks(&mut self)
        ensures
            final(self).attacks.0 == old(self).attacks.0 | old(self).spec_rooks(),
            final(self).attacking_player == old(self).attacking_player,
            final(self).empty_squares == old(self).empty_squares,
    {
        self.attacks.0 |= self.cross_attacks(self.attacking_player.rooks).0;
    }
}

} // verus!
