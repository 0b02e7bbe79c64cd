//! Fewer pieces and fewer empty squares make for fewer attacks.
use vstd::prelude::*;
use crate::attacks::{AttackGen, knight_cover};
use crate::bits::{bit, lemma_bit_consts, lemma_bit_or, lemma_squares_members, squares};
use crate::piece::Player;
use crate::player_state::PlayerState;
use crate::slides::{before, Direction, lemma_slide, lemma_step, reached, slide, step};
use crate::tables::knight_moves;

verus! {

/// Every square of `x` is a square of `y`.
pub open spec fn within(x: u64, y: u64) -> bool {
    forall|i: int| 0 <= i < 64 ==> (#[trigger] bit(x, i) ==> bit(y, i))
}

/// Fewer sliders and fewer empty squares reach no more.
proof fn lemma_reached_within(
    pieces: u64,
    empty: u64,
    more_pieces: u64,
    more_empty: u64,
    d: Direction,
    u: int,
    n: nat,
)
    requires
        within(pieces, more_pieces),
        within(empty, more_empty),
        0 <= u < 64,
        reached(pieces, empty, d, u, n),
    ensures
        reached(more_pieces, more_empty, d, u, n),
    decreases n,
{
    if !bit(pieces, u) {
        lemma_reached_within(
            pieces,
            empty,
            more_pieces,
            more_empty,
            d,
            before(u, d)->0,
            (n - 1) as nat,
        );
    }
}

/// Fewer sliders and fewer empty squares attack no more.
pub proof fn lemma_slide_within(
    pieces: u64,
    empty: u64,
    more_pieces: u64,
    more_empty: u64,
    d: Direction,
    t: int,
)
    requires
        within(pieces, more_pieces),
        within(empty, more_empty),
        bit(slide(pieces, empty, d), t),
    ensures
        bit(slide(more_pieces, more_empty, d), t),
{
    lemma_slide(pieces, empty, d, t);
    lemma_slide(more_pieces, more_empty, d, t);
    lemma_reached_within(pieces, empty, more_pieces, more_empty, d, before(t, d)->0, 6);
}

/// A smaller set steps onto no more squares.
pub proof fn lemma_step_within(x: u64, y: u64, d: Direction, t: int)
    requires
        within(x, y),
        bit(step(x, d), t),
    ensures
        bit(step(y, d), t),
{
    lemma_step(x, d, t);
    lemma_step(y, d, t);
}

/// The knights on `origins` attack a square when one of them does.
pub proof fn lemma_knight_cover(origins: Seq<u32>, t: int)
    ensures
        bit(knight_cover(origins), t) <==> exists|i: int|
            0 <= i < origins.len() && bit(knight_moves(#[trigger] origins[i] as int), t),
    decreases origins.len(),
{
    if origins.len() == 0 {
        lemma_bit_consts(0, t);
    } else {
        let first = origins.drop_last();
        lemma_knight_cover(first, t);
        lemma_bit_or(knight_cover(first), knight_moves(origins.last() as int), t);
        if bit(knight_cover(origins), t) {
            if bit(knight_moves(origins.last() as int), t) {
                assert(bit(knight_moves(origins[origins.len() - 1] as int), t));
            } else {
                let i = choose|i: int|
                    0 <= i < first.len() && bit(knight_moves(#[trigger] first[i] as int), t);
                assert(bit(knight_moves(origins[i] as int), t));
            }
        }
        if exists|i: int|
            0 <= i < origins.len() && bit(knight_moves(#[trigger] origins[i] as int), t) {
            let i = choose|i: int|
                0 <= i < origins.len() && bit(knight_moves(#[trigger] origins[i] as int), t);
            if i < first.len() {
                assert(bit(knight_moves(first[i] as int), t));
            }
        }
    }
}

/// Fewer knights attack no more.
pub proof fn lemma_knights_within(x: u64, y: u64, t: int)
    requires
        within(x, y),
        bit(knight_cover(squares(x)), t),
    ensures
        bit(knight_cover(squares(y)), t),
{
    lemma_knight_cover(squares(x), t);
    lemma_knight_cover(squares(y), t);
    lemma_squares_members(x, 0);
    lemma_squares_members(y, 0);
    let i = choose|i: int|
        0 <= i < squares(x).len() && bit(knight_moves(#[trigger] squares(x)[i] as int), t);
    let s = squares(x)[i];
    assert(squares(x).contains(s));
    assert(bit(x, s as int));
    assert(squares(y).contains(s));
    let j = choose|j: int| 0 <= j < squares(y).len() && squares(y)[j] == s;
    assert(bit(knight_moves(squares(y)[j] as int), t));
}

/// The pieces of `few` are among those of `many`, and the kings are the same.
pub open spec fn pieces_within(few: PlayerState, many: PlayerState) -> bool {
    &&& few.king == many.king
    &&& within(few.queens.0, many.queens.0)
    &&& within(few.rooks.0, many.rooks.0)
    &&& within(few.bishops.0, many.bishops.0)
    &&& within(few.knights.0, many.knights.0)
    &&& within(few.pawns.0, many.pawns.0)
}

impl AttackGen {
    proof fn lemma_cross_within(self, more: AttackGen, set: u64, more_set: u64, t: int)
        requires
            within(set, more_set),
            within(self.empty_squares.0, more.empty_squares.0),
            bit(self.spec_cross(set), t),
        ensures
            bit(more.spec_cross(more_set), t),
    {
        broadcast use lemma_bit_or;

        let e = self.empty_squares.0;
        let f = more.empty_squares.0;
        if bit(slide(set, e, Direction::Up), t) {
            lemma_slide_within(set, e, more_set, f, Direction::Up, t);
        }
        if bit(slide(set, e, Direction::Right), t) {
            lemma_slide_within(set, e, more_set, f, Direction::Right, t);
        }
        if bit(slide(set, e, Direction::Down), t) {
            lemma_slide_within(set, e, more_set, f, Direction::Down, t);
        }
        if bit(slide(set, e, Direction::Left), t) {
            lemma_slide_within(set, e, more_set, f, Direction::Left, t);
        }
    }

    proof fn lemma_diagonals_within(self, more: AttackGen, set: u64, more_set: u64, t: int)
        requires
            within(set, more_set),
            within(self.empty_squares.0, more.empty_squares.0),
            bit(self.spec_diagonals(set), t),
        ensures
            bit(more.spec_diagonals(more_set), t),
    {
        broadcast use lemma_bit_or;

        let e = self.empty_squares.0;
        let f = more.empty_squares.0;
        if bit(slide(set, e, Direction::UpRight), t) {
            lemma_slide_within(set, e, more_set, f, Direction::UpRight, t);
        }
        if bit(slide(set, e, Direction::UpLeft), t) {
            lemma_slide_within(set, e, more_set, f, Direction::UpLeft, t);
        }
        if bit(slide(set, e, Direction::DownLeft), t) {
            lemma_slide_within(set, e, more_set, f, Direction::DownLeft, t);
        }
        if bit(slide(set, e, Direction::DownRight), t) {
            lemma_slide_within(set, e, more_set, f, Direction::DownRight, t);
        }
    }

    /// A side with fewer pieces, on a board with fewer empty squares,
    /// attacks no more squares.
    pub proof fn lemma_attacks_within(self, more: AttackGen, player: Player, t: int)
        requires
            pieces_within(self.attacking_player, more.attacking_player),
            within(self.empty_squares.0, more.empty_squares.0),
            self.attacks == more.attacks,
            bit(self.spec_attack_map(player), t),
        ensures
            bit(more.spec_attack_map(player), t),
    {
        broadcast use lemma_bit_or;

        let a = self.attacking_player;
        let b = more.attacking_player;
        if bit(self.spec_queens(), t) {
            if bit(self.spec_diagonals(a.queens.0), t) {
                self.lemma_diagonals_within(more, a.queens.0, b.queens.0, t);
            } else {
                self.lemma_cross_within(more, a.queens.0, b.queens.0, t);
            }
        }
        if bit(self.spec_rooks(), t) {
            self.lemma_cross_within(more, a.rooks.0, b.rooks.0, t);
        }
        if bit(self.spec_bishops(), t) {
            self.lemma_diagonals_within(more, a.bishops.0, b.bishops.0, t);
        }
        if bit(self.spec_knights(), t) {
            lemma_knights_within(a.knights.0, b.knights.0, t);
        }
        if bit(self.spec_pawns_left(player), t) {
            match player {
                Player::White => lemma_step_within(a.pawns.0, b.pawns.0, Direction::UpLeft, t),
                Player::Black => lemma_step_within(a.pawns.0, b.pawns.0, Direction::DownLeft, t),
            }
        }
        if bit(self.spec_pawns_right(player), t) {
            match player {
                Player::White => lemma_step_within(a.pawns.0, b.pawns.0, Direction::UpRight, t),
                Player::Black => lemma_step_within(a.pawns.0, b.pawns.0, Direction::DownRight, t),
            }
        }
    }
}

} // verus!
