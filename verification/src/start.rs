//! The position at the start of a game.
use vstd::pervasive::unreached;
use vstd::prelude::*;
use crate::bits::{
    bit, lemma_bit_and, lemma_bit_consts, lemma_bit_not, lemma_bit_or, lemma_eq_by_bits,
    lemma_single_bit, lemma_squares_members, squares,
};
use crate::board::{Board, BoardPieces, Position};
use crate::fen::{lemma_placed, placed, Rights, spec_assemble, spec_raw};
use crate::piece::{Piece, PieceKind, Player};
use crate::safety::lemma_knight_cover;
use crate::slides::{before, Direction, lemma_slide, lemma_step, slide};
use crate::tables::{lemma_king_moves, lemma_knight_moves};

verus! {

/// The kind of the piece that starts on file `file` of a side's first rank.
pub open spec fn first_rank_kind(file: int) -> PieceKind {
    if file == 0 || file == 7 {
        PieceKind::Rook
    } else if file == 1 || file == 6 {
        PieceKind::Knight
    } else if file == 2 || file == 5 {
        PieceKind::Bishop
    } else if file == 3 {
        PieceKind::Queen
    } else {
        PieceKind::King
    }
}

/// The piece that stands on square `sq` at the start of a game.
pub open spec fn start_piece(sq: int) -> Option<Piece> {
    if 0 <= sq < 8 {
        Some(Piece { piece_kind: first_rank_kind(sq), player: Player::White })
    } else if 8 <= sq < 16 {
        Some(Piece { piece_kind: PieceKind::Pawn, player: Player::White })
    } else if 48 <= sq < 56 {
        Some(Piece { piece_kind: PieceKind::Pawn, player: Player::Black })
    } else if 56 <= sq < 64 {
        Some(Piece { piece_kind: first_rank_kind(sq - 56), player: Player::Black })
    } else {
        None
    }
}

/// The piece map at the start of a game.
pub open spec fn start_pieces() -> Seq<Option<Piece>> {
    Seq::new(64, |sq: int| start_piece(sq))
}

/// Every castling right.
pub open spec fn all_rights() -> Rights {
    Rights { white_ks: true, white_qs: true, black_ks: true, black_qs: true }
}

/// The position at the start of a game: White to move, every castling
/// right, no capture en passant, and no constraint but those that the
/// pieces give.
pub open spec fn start_position() -> Position {
    spec_raw(start_pieces(), Player::White, all_rights(), None, 0).spec_update_move_constraints()
}

/// At the start each side has its one king, on e1 and on e8.
proof fn lemma_start_kings()
    ensures
        placed(start_pieces(), Player::White, 64).king.0 == 1u64 << 4,
        placed(start_pieces(), Player::Black, 64).king.0 == 1u64 << 60,
{
    let white = placed(start_pieces(), Player::White, 64).king.0;
    let black = placed(start_pieces(), Player::Black, 64).king.0;
    assert forall|i: int| 0 <= i < 64 implies bit(white, i) == bit(1u64 << 4, i) by {
        lemma_placed(start_pieces(), Player::White, 64, i);
        lemma_bit_consts(4, i);
    }
    assert forall|i: int| 0 <= i < 64 implies bit(black, i) == bit(1u64 << 60, i) by {
        lemma_placed(start_pieces(), Player::Black, 64, i);
        lemma_bit_consts(60, i);
    }
    lemma_eq_by_bits(white, 1u64 << 4);
    lemma_eq_by_bits(black, 1u64 << 60);
}

/// At the start no white slider attacks the black king: what stands next
/// to the king is black.
proof fn lemma_start_slider(set: u64, d: Direction)
    requires
        forall|i: int| 16 <= i < 64 ==> !bit(set, i),
    ensures
        !bit(
            slide(
                set,
                spec_raw(start_pieces(), Player::White, all_rights(), None, 0).real_empty(),
                d,
            ),
            60,
        ),
{
    broadcast use lemma_bit_or, lemma_bit_not;

    let raw = spec_raw(start_pieces(), Player::White, all_rights(), None, 0);
    lemma_slide(set, raw.real_empty(), d, 60);
    if before(60, d) is Some {
        lemma_placed(start_pieces(), Player::Black, 64, before(60, d)->0);
    }
}

/// At the start Black is not in check.
proof fn lemma_start_guarded()
    ensures
        spec_raw(start_pieces(), Player::White, all_rights(), None, 0).guarded(),
{
    broadcast use lemma_bit_or;

    let raw = spec_raw(start_pieces(), Player::White, all_rights(), None, 0);
    let white = raw.moving_player;
    let a = raw.mover_gen();
    let e = raw.real_empty();
    lemma_start_kings();
    lemma_single_bit(4);
    lemma_single_bit(60);
    lemma_king_moves(4, 60);
    assert forall|i: int| 16 <= i < 64 implies !bit(white.queens.0, i) && !bit(white.rooks.0, i)
        && !bit(white.bishops.0, i) && !bit(white.knights.0, i) && !bit(white.pawns.0, i) by {
        lemma_placed(start_pieces(), Player::White, 64, i);
    }
    lemma_start_slider(white.queens.0, Direction::Up);
    lemma_start_slider(white.queens.0, Direction::Right);
    lemma_start_slider(white.queens.0, Direction::Down);
    lemma_start_slider(white.queens.0, Direction::Left);
    lemma_start_slider(white.queens.0, Direction::UpRight);
    lemma_start_slider(white.queens.0, Direction::UpLeft);
    lemma_start_slider(white.queens.0, Direction::DownLeft);
    lemma_start_slider(white.queens.0, Direction::DownRight);
    lemma_start_slider(white.rooks.0, Direction::Up);
    lemma_start_slider(white.rooks.0, Direction::Right);
    lemma_start_slider(white.rooks.0, Direction::Down);
    lemma_start_slider(white.rooks.0, Direction::Left);
    lemma_start_slider(white.bishops.0, Direction::UpRight);
    lemma_start_slider(white.bishops.0, Direction::UpLeft);
    lemma_start_slider(white.bishops.0, Direction::DownLeft);
    lemma_start_slider(white.bishops.0, Direction::DownRight);
    assert(!bit(a.spec_cross(white.queens.0), 60)) by {
        assert(!bit(slide(white.queens.0, e, Direction::Up), 60));
        assert(!bit(slide(white.queens.0, e, Direction::Right), 60));
        assert(!bit(slide(white.queens.0, e, Direction::Down), 60));
        assert(!bit(slide(white.queens.0, e, Direction::Left), 60));
    }
    assert(!bit(a.spec_diagonals(white.queens.0), 60)) by {
        assert(!bit(slide(white.queens.0, e, Direction::UpRight), 60));
        assert(!bit(slide(white.queens.0, e, Direction::UpLeft), 60));
        assert(!bit(slide(white.queens.0, e, Direction::DownLeft), 60));
        assert(!bit(slide(white.queens.0, e, Direction::DownRight), 60));
    }
    assert(!bit(a.spec_cross(white.rooks.0), 60)) by {
        assert(!bit(slide(white.rooks.0, e, Direction::Up), 60));
        assert(!bit(slide(white.rooks.0, e, Direction::Right), 60));
        assert(!bit(slide(white.rooks.0, e, Direction::Down), 60));
        assert(!bit(slide(white.rooks.0, e, Direction::Left), 60));
    }
    assert(!bit(a.spec_diagonals(white.bishops.0), 60)) by {
        assert(!bit(slide(white.bishops.0, e, Direction::UpRight), 60));
        assert(!bit(slide(white.bishops.0, e, Direction::UpLeft), 60));
        assert(!bit(slide(white.bishops.0, e, Direction::DownLeft), 60));
        assert(!bit(slide(white.bishops.0, e, Direction::DownRight), 60));
    }
    assert(!bit(a.spec_knights(), 60)) by {
        let knights = squares(white.knights.0);
        lemma_knight_cover(knights, 60);
        lemma_squares_members(white.knights.0, 0);
        if bit(a.spec_knights(), 60) {
            let i = choose|i: int|
                0 <= i < knights.len() && bit(
                    crate::tables::knight_moves(#[trigger] knights[i] as int),
                    60,
                );
            assert(knights.contains(knights[i]));
            lemma_knight_moves(knights[i] as int, 60);
        }
    }
    lemma_step(white.pawns.0, Direction::UpLeft, 60);
    lemma_step(white.pawns.0, Direction::UpRight, 60);
    lemma_bit_consts(0, 60);
    assert(!bit(raw.mover_attacks(), 60));
    assert forall|i: int| 0 <= i < 64 implies bit(
        raw.mover_attacks() & raw.moved_player.king.0,
        i,
    ) == bit(0, i) by {
        lemma_bit_and(raw.mover_attacks(), raw.moved_player.king.0, i);
        lemma_bit_consts(60, i);
        lemma_bit_consts(0, i);
    }
    lemma_eq_by_bits(raw.mover_attacks() & raw.moved_player.king.0, 0);
}

/// The piece that stands on square `sq` at the start of a game.
fn start_piece_at(sq: usize) -> (r: Option<Piece>)
    requires
        sq < 64,
    ensures
        r == start_piece(sq as int),
{
    let file = sq % 8;
    let kind = if file == 0 || file == 7 {
        PieceKind::Rook
    } else if file == 1 || file == 6 {
        PieceKind::Knight
    } else if file == 2 || file == 5 {
        PieceKind::Bishop
    } else if file == 3 {
        PieceKind::Queen
    } else {
        PieceKind::King
    };
    if sq < 8 {
        Some(Piece { piece_kind: kind, player: Player::White })
    } else if sq < 16 {
        Some(Piece { piece_kind: PieceKind::Pawn, player: Player::White })
    } else if sq < 48 {
        None
    } else if sq < 56 {
        Some(Piece { piece_kind: PieceKind::Pawn, player: Player::Black })
    } else {
        Some(Piece { piece_kind: kind, player: Player::Black })
    }
}

impl Default for Board {
    /// The position at the start of a game.
    fn default() -> (r: Board)
        ensures
            r@ == start_position(),
            r@.wf(),
            r@.sound(),
    {
        let mut pieces = BoardPieces::empty();
        let mut sq: usize = 0;
        while sq < 64
            invariant
                0 <= sq <= 64,
                pieces@.len() == 64,
                forall|i: int| 0 <= i < sq ==> pieces@[i] == start_piece(i),
            decreases 64 - sq,
        {
            pieces.pieces[sq] = start_piece_at(sq);
            sq = sq + 1;
        }
        let rights = Rights { white_ks: true, white_qs: true, black_ks: true, black_qs: true };
        proof {
            assert(pieces@ =~= start_pieces());
            lemma_start_kings();
            lemma_single_bit(4);
            lemma_single_bit(60);
            assert(spec_raw(start_pieces(), Player::White, rights, None, 0).castling_wf());
            lemma_start_guarded();
            assert(spec_assemble(start_pieces(), Player::White, rights, None, 0) is Ok);
        }
        match Board::from_parts(pieces, Player::White, rights, None, 0) {
            Ok(board) => board,
            Err(_) => unreached(),
        }
    }
}

} // verus!
