use fisher::attacks::AttackGen;
use fisher::bitboard::BitBoard;
use fisher::board::{Board, EnPassant};
use fisher::moves::{Move, MoveGen};
use fisher::piece::{Piece, PieceKind, Player};
use fisher::player_state::PlayerState;
use fisher::square::{
    Square, A1, A8, B4, B5, C1, C4, C5, C6, D1, D2, D4, D5, D8, E1, E2, E3, E4, E7, E8, F1, F4, F8,
    G1, H1, H4, H8,
};

fn board(fen: &str) -> Board {
    Board::from_str(fen).unwrap()
}

fn regular(origin: u32, target: u32, piece_kind: PieceKind) -> Move {
    Move::Regular { origin: Square(origin), target: Square(target), piece_kind, double_push: false }
}

fn count(moves: &[Move], wanted: Move) -> usize {
    moves.iter().filter(|m| **m == wanted).count()
}

/// The attack map of the side to move of `board`.
fn attacks_of_mover(board: &Board) -> u64 {
    let mut other = *board;
    other.switch_sides();
    AttackGen::run(&mut other);
    other.moved_player.attacks.0
}

/// What must hold of every position that play reaches.
fn check_invariants(board: &Board) {
    let moving = &board.moving_player;
    let moved = &board.moved_player;
    assert_eq!(
        BitBoard(moving.occupied.0 ^ moved.occupied.0).count_ones(),
        moving.occupied.count_ones() + moved.occupied.count_ones()
    );
    for side in [moving, moved] {
        let sets = [side.king.0, side.queens.0, side.rooks.0, side.bishops.0, side.knights.0, side.pawns.0];
        assert_eq!(side.occupied.0, sets.iter().fold(0, |all, set| all | set));
        for i in 0..6 {
            for j in (i + 1)..6 {
                assert_eq!(sets[i] & sets[j], 0);
            }
        }
        assert_eq!(side.king.count_ones(), 1);
    }
    assert_ne!(moving.check_mask.0, 0);
    for sq in 0..64u32 {
        let square = Square(sq);
        match board.pieces.get_piece(square) {
            None => {
                assert!(!moving.occupied.get_bit(square));
                assert!(!moved.occupied.get_bit(square));
            }
            Some(Piece { piece_kind, player }) => {
                let side = if *player == board.current_player { moving } else { moved };
                let set = match piece_kind {
                    PieceKind::King => side.king,
                    PieceKind::Queen => side.queens,
                    PieceKind::Rook => side.rooks,
                    PieceKind::Bishop => side.bishops,
                    PieceKind::Knight => side.knights,
                    PieceKind::Pawn => side.pawns,
                };
                assert!(set.get_bit(square));
                assert!(side.occupied.get_bit(square));
            }
        }
    }
    // The side that has just moved is not in check.
    assert_eq!(attacks_of_mover(board) & moved.king.0, 0);
}

fn walk(board: Board, depth: u32) {
    check_invariants(&board);
    if depth == 0 {
        return;
    }
    for chess_move in MoveGen::run(board) {
        let mut next = board;
        next.make_move(chess_move);
        walk(next, depth - 1);
    }
}

#[test]
fn invariants_hold_after_every_move() {
    walk(Board::default(), 3);
    walk(board("r3k2r/p1ppqpb1/bn2pnp1/3PN3/1p2P3/2N2Q1p/PPPBBPPP/R3K2R w KQkq - 0 1"), 2);
    walk(board("8/2p5/3p4/KP5r/1R3p1k/8/4P1P1/8 w - - 0 0"), 4);
    walk(board("rnbq1k1r/pp1Pbppp/2p5/8/2B5/8/PPP1NnPP/RNBQK2R w KQ - 1 8"), 2);
    walk(board("r3k2r/Pppp1ppp/1b3nbN/nP6/BBP1P3/q4N2/Pp1P2PP/R2Q1RK1 w kq - 0 1"), 2);
}

#[test]
fn lone_rook_on_d4_has_fourteen_moves() {
    let mut rook_side = PlayerState::blank();
    rook_side.place_piece(PieceKind::Rook, Square(D4));
    let mut move_gen = MoveGen {
        moving_player: rook_side,
        moved_player: PlayerState::blank(),
        empty_squares: BitBoard(!rook_side.occupied.0),
        ep_info: EnPassant::new(),
        moves: Vec::new(),
    };
    move_gen.gen_rook_moves();
    let moves = move_gen.moves;
    assert_eq!(moves.len(), 14);
    let mut targets = 0u64;
    for chess_move in &moves {
        match chess_move {
            Move::Regular { origin, target, piece_kind: PieceKind::Rook, double_push: false } => {
                assert_eq!(*origin, Square(D4));
                targets |= 1 << target.0;
            }
            other => panic!("{:?}", other),
        }
    }
    // The d-file and the fourth rank, without d4 itself.
    assert_eq!(targets, (0x0808080808080808u64 | 0x00000000ff000000) & !(1 << D4));
}

#[test]
fn rook_between_kings_has_fourteen_moves() {
    let moves = MoveGen::run(board("7k/8/8/8/3R4/8/8/K7 w - - 0 1"));
    let rook_moves = moves
        .iter()
        .filter(|m| matches!(m, Move::Regular { piece_kind: PieceKind::Rook, .. }))
        .count();
    assert_eq!(rook_moves, 14);
}

#[test]
fn starting_position_has_twenty_moves() {
    let moves = MoveGen::run(Board::default());
    assert_eq!(moves.len(), 20);
    let mut pawn_moves = 0;
    let mut knight_moves = 0;
    for chess_move in &moves {
        match chess_move {
            Move::Regular { origin, target, piece_kind: PieceKind::Pawn, double_push } => {
                pawn_moves += 1;
                assert_eq!(origin.get_row(), 1);
                assert_eq!(origin.0 % 8, target.0 % 8);
                assert_eq!(*double_push, target.get_row() == 3);
                assert!(target.get_row() == 2 || target.get_row() == 3);
            }
            Move::Regular { piece_kind: PieceKind::Knight, double_push: false, .. } => {
                knight_moves += 1;
            }
            other => panic!("{:?}", other),
        }
    }
    assert_eq!(pawn_moves, 16);
    assert_eq!(knight_moves, 4);
}

#[test]
fn black_double_pushes_go_to_the_fifth_rank() {
    let mut position = Board::default();
    position.make_move(Move::Regular {
        origin: Square(E2),
        target: Square(E4),
        piece_kind: PieceKind::Pawn,
        double_push: true,
    });
    let moves = MoveGen::run(position);
    assert_eq!(moves.len(), 20);
    for chess_move in &moves {
        if let Move::Regular { origin, target, piece_kind: PieceKind::Pawn, double_push } =
            chess_move
        {
            assert_eq!(origin.get_row(), 6);
            assert_eq!(*double_push, target.get_row() == 4);
        }
    }
}

#[test]
fn double_push_sets_the_en_passant_state() {
    let mut position = board("4k3/8/8/8/8/8/4P3/4K3 w - - 0 1");
    let push = Move::Regular {
        origin: Square(E2),
        target: Square(E4),
        piece_kind: PieceKind::Pawn,
        double_push: true,
    };
    assert_eq!(count(&MoveGen::run(position), push), 1);
    position.make_move(push);
    assert_eq!(position.ep_info.capture_point, BitBoard(1 << E3));
    assert_eq!(position.ep_info.pawn, BitBoard(1 << E4));
    assert!(position.current_player == Player::Black);
    let replies = MoveGen::run(position);
    assert!(replies.iter().all(|m| !matches!(m, Move::EnPassant { .. })));
    // The state lasts one ply.
    position.make_move(regular(E8, E7, PieceKind::King));
    assert_eq!(position.ep_info, EnPassant::new());
}

#[test]
fn en_passant_that_uncovers_the_king_is_not_emitted() {
    let position = board("8/8/8/KPp4r/8/8/8/4k3 w - c6 0 1");
    let moves = MoveGen::run(position);
    assert!(moves.iter().all(|m| !matches!(m, Move::EnPassant { .. })));
    assert_eq!(position.ep_info, EnPassant::new());
    // The pawn is pinned along the rank, but may still advance.
    assert_eq!(count(&moves, regular(B5, B5 + 8, PieceKind::Pawn)), 1);
}

#[test]
fn en_passant_is_emitted_and_captures_the_pawn() {
    let mut position = board("4k3/8/8/1Pp5/8/8/8/4K3 w - c6 0 1");
    let capture = Move::EnPassant { origin: Square(B5) };
    assert_eq!(count(&MoveGen::run(position), capture), 1);
    position.make_move(capture);
    assert!(position.pieces.get_piece(Square(C5)).is_none());
    assert!(position.pieces.get_piece(Square(B5)).is_none());
    assert!(matches!(
        position.pieces.get_piece(Square(C6)),
        Some(Piece { piece_kind: PieceKind::Pawn, player: Player::White })
    ));
    assert_eq!(position.moving_player.pawns, BitBoard(0));
    assert_eq!(position.moved_player.pawns, BitBoard(1 << C6));
}

#[test]
fn en_passant_behind_a_file_pin_is_emitted() {
    // The capturing pawn lands on the file of the rook: the king stays covered.
    let position = board("6k1/8/8/8/5pP1/8/8/4K1R1 b - g3 0 1");
    let for_black = board("8/8/8/6k1/5pP1/8/8/4K1R1 b - g3 0 1");
    assert_eq!(count(&MoveGen::run(position), Move::EnPassant { origin: Square(F4) }), 1);
    assert_eq!(count(&MoveGen::run(for_black), Move::EnPassant { origin: Square(F4) }), 1);
}

#[test]
fn both_castles_are_emitted() {
    let position = board("r3k2r/8/8/8/8/8/8/R3K2R w KQkq - 0 1");
    let moves = MoveGen::run(position);
    assert_eq!(count(&moves, Move::CastleKS), 1);
    assert_eq!(count(&moves, Move::CastleQS), 1);
    assert_eq!(moves.len(), 26);
}

#[test]
fn castling_moves_king_and_rook() {
    let mut king_side = board("r3k2r/8/8/8/8/8/8/R3K2R w KQkq - 0 1");
    king_side.make_move(Move::CastleKS);
    assert_eq!(king_side.moved_player.king, BitBoard(1 << G1));
    assert_eq!(king_side.moved_player.rooks, BitBoard(1 << F1 | 1 << A1));
    assert!(!king_side.moved_player.can_castle_ks && !king_side.moved_player.can_castle_qs);
    assert!(king_side.moving_player.can_castle_ks && king_side.moving_player.can_castle_qs);
    king_side.make_move(Move::CastleQS);
    assert_eq!(king_side.moved_player.king, BitBoard(1 << C1 + 56));
    assert_eq!(king_side.moved_player.rooks, BitBoard(1 << D8 | 1 << H8));
    assert!(king_side.pieces.get_piece(Square(E8)).is_none());
    assert!(king_side.pieces.get_piece(Square(A8)).is_none());
}

#[test]
fn castling_needs_right_empty_path_no_check_and_safe_squares() {
    // No right.
    let moves = MoveGen::run(board("r3k2r/8/8/8/8/8/8/R3K2R w kq - 0 1"));
    assert_eq!(count(&moves, Move::CastleKS) + count(&moves, Move::CastleQS), 0);
    // A piece in the way on each wing.
    let moves = MoveGen::run(board("r3k2r/8/8/8/8/8/8/RN2K1NR w KQkq - 0 1"));
    assert_eq!(count(&moves, Move::CastleKS) + count(&moves, Move::CastleQS), 0);
    // The king is in check.
    let moves = MoveGen::run(board("r3k2r/8/8/8/8/8/4r3/R3K2R w KQ - 0 1"));
    assert_eq!(count(&moves, Move::CastleKS) + count(&moves, Move::CastleQS), 0);
    // f1 is attacked: no castling king side; d1 is attacked: none queen side.
    let moves = MoveGen::run(board("4k3/8/8/8/8/8/8/R3K2R w KQ - 0 1"));
    assert_eq!(count(&moves, Move::CastleKS) + count(&moves, Move::CastleQS), 2);
    let moves = MoveGen::run(board("4kr2/8/8/8/8/8/8/R3K2R w KQ - 0 1"));
    assert_eq!((count(&moves, Move::CastleKS), count(&moves, Move::CastleQS)), (0, 1));
    let moves = MoveGen::run(board("3rk3/8/8/8/8/8/8/R3K2R w KQ - 0 1"));
    assert_eq!((count(&moves, Move::CastleKS), count(&moves, Move::CastleQS)), (1, 0));
    // b1 may be attacked: the king does not cross it.
    let moves = MoveGen::run(board("1r2k3/8/8/8/8/8/8/R3K2R w KQ - 0 1"));
    assert_eq!((count(&moves, Move::CastleKS), count(&moves, Move::CastleQS)), (1, 1));
}

#[test]
fn king_in_check_from_a_rook_has_its_safe_squares() {
    let moves = MoveGen::run(board("4k3/8/8/8/8/8/4r3/4K3 w - - 0 1"));
    assert_eq!(moves.len(), 3);
    assert_eq!(count(&moves, regular(E1, D1, PieceKind::King)), 1);
    assert_eq!(count(&moves, regular(E1, F1, PieceKind::King)), 1);
    assert_eq!(count(&moves, regular(E1, E2, PieceKind::King)), 1);
    assert_eq!(count(&moves, regular(E1, D2, PieceKind::King)), 0);
}

#[test]
fn king_does_not_retreat_along_the_checking_ray() {
    // The rook on e8 checks along the file: e1 stays attacked behind the king.
    let moves = MoveGen::run(board("k3r3/8/8/8/8/8/4K3/8 w - - 0 1"));
    assert_eq!(count(&moves, regular(E2, E1, PieceKind::King)), 0);
    assert_eq!(count(&moves, regular(E2, E3, PieceKind::King)), 0);
    assert_eq!(moves.len(), 6);
}

#[test]
fn double_check_leaves_king_moves_only() {
    let position = board("4k3/8/8/8/8/5n2/4r3/R3K3 w Q - 0 1");
    assert!(position.moving_player.king_must_move);
    let moves = MoveGen::run(position);
    assert!(moves.iter().all(|m| matches!(m, Move::Regular { piece_kind: PieceKind::King, .. })));
    assert_eq!(count(&moves, regular(E1, D1, PieceKind::King)), 1);
    assert_eq!(count(&moves, regular(E1, F1, PieceKind::King)), 1);
    assert_eq!(count(&moves, regular(E1, E2, PieceKind::King)), 1);
    assert_eq!(moves.len(), 3);
}

#[test]
fn check_mask_and_pins() {
    // The knight on f3 checks: the check mask is its square.
    let position = board("4k3/8/8/8/8/5n2/8/4K3 w - - 0 1");
    assert_eq!(position.moving_player.check_mask, BitBoard(1 << (F1 + 16)));
    assert!(!position.moving_player.king_must_move);
    // The rook on e8 checks along the file: the mask is the ray up to the rook.
    let position = board("k3r3/8/8/8/8/8/8/4K3 w - - 0 1");
    assert_eq!(position.moving_player.check_mask, BitBoard(0x1010101010101000));
    // The bishop on d2 is pinned by the bishop on b4: the pin is the ray from the king.
    let position = board("4k3/8/8/8/1b6/8/3B4/4K3 w - - 0 1");
    assert!(position.moving_player.isnt_in_check());
    assert_eq!(
        position.moving_player.pins.anti_diagonal,
        BitBoard(1 << D2 | 1 << (C1 + 16) | 1 << B4)
    );
    assert_eq!(position.moving_player.pins.get_all_pins(), position.moving_player.pins.anti_diagonal);
    let moves = MoveGen::run(position);
    let bishop_moves: Vec<&Move> = moves
        .iter()
        .filter(|m| matches!(m, Move::Regular { piece_kind: PieceKind::Bishop, .. }))
        .collect();
    assert_eq!(bishop_moves.len(), 2);
    // Two pins on one line: a rook above and a rook below the king.
    let position = board("k3r3/8/4N3/8/4K3/8/4N3/4r3 w - - 0 1");
    assert_eq!(position.moving_player.pins.vertical, BitBoard(0x1010101000101010));
    let moves = MoveGen::run(position);
    assert!(moves.iter().all(|m| !matches!(m, Move::Regular { piece_kind: PieceKind::Knight, .. })));
}

#[test]
fn pawn_on_the_seventh_rank_promotes_four_ways() {
    let moves = MoveGen::run(board("3r4/4P3/8/8/8/8/8/k3K3 w - - 0 1"));
    for (target, expected) in [(E8, 1), (D8, 1), (F8, 0)] {
        for promotion_to in [PieceKind::Queen, PieceKind::Rook, PieceKind::Bishop, PieceKind::Knight] {
            let promotion = Move::Promotion { origin: Square(E7), target: Square(target), promotion_to };
            assert_eq!(count(&moves, promotion), expected);
        }
    }
    let promotions = moves.iter().filter(|m| matches!(m, Move::Promotion { .. })).count();
    assert_eq!(promotions, 8);
    assert!(moves.iter().all(|m| !matches!(m, Move::Regular { piece_kind: PieceKind::Pawn, .. })));
}

#[test]
fn promotion_replaces_the_pawn_and_captures() {
    let mut position = board("3r4/4P3/8/8/8/8/8/k3K3 w - - 0 1");
    position.make_move(Move::Promotion {
        origin: Square(E7),
        target: Square(D8),
        promotion_to: PieceKind::Knight,
    });
    assert_eq!(position.moved_player.knights, BitBoard(1 << D8));
    assert_eq!(position.moved_player.pawns, BitBoard(0));
    assert_eq!(position.moving_player.rooks, BitBoard(0));
    assert!(matches!(
        position.pieces.get_piece(Square(D8)),
        Some(Piece { piece_kind: PieceKind::Knight, player: Player::White })
    ));
    assert!(position.pieces.get_piece(Square(E7)).is_none());
}

#[test]
fn rook_moves_and_captures_end_castling_rights() {
    let mut position = board("r3k2r/8/8/8/8/8/8/R3K2R w KQkq - 0 1");
    position.make_move(regular(A1, A8, PieceKind::Rook));
    // White has moved its queen-side rook, and captured Black's.
    assert!(position.moved_player.can_castle_ks && !position.moved_player.can_castle_qs);
    assert!(position.moving_player.can_castle_ks && !position.moving_player.can_castle_qs);
    position.make_move(regular(E8, E7, PieceKind::King));
    assert!(!position.moved_player.can_castle_ks && !position.moved_player.can_castle_qs);
    position.make_move(regular(H1, H4, PieceKind::Rook));
    assert!(!position.moved_player.can_castle_ks && !position.moved_player.can_castle_qs);
}

#[test]
fn attack_map_passes_through_the_king_and_ignores_pins() {
    // Black to move: White's attacks. The knight on d2 is pinned by the
    // bishop on b4, and attacks c4 and e4 all the same.
    let mut position = board("8/8/8/8/1b1k4/8/3N3P/4K3 w - - 0 1");
    position.make_move(regular(H1 + 8, H1 + 16, PieceKind::Pawn));
    let attacks = position.moved_player.attacks;
    assert!(attacks.get_bit(Square(C4)) && attacks.get_bit(Square(E4)));
    let moves = MoveGen::run(position);
    assert_eq!(count(&moves, regular(D4, C4, PieceKind::King)), 0);
    assert_eq!(count(&moves, regular(D4, E4, PieceKind::King)), 0);
    // The rook's attacks along the file go on behind the king that they check.
    let position = board("k3r3/8/8/8/8/8/4K3/8 w - - 0 1");
    assert!(position.moved_player.attacks.get_bit(Square(E1)));
    assert!(position.moved_player.attacks.get_bit(Square(E2)));
}

#[test]
fn queen_knight_and_pawn_moves_on_a_small_board() {
    let moves = MoveGen::run(board("7k/8/8/3p4/2P1P3/8/8/K2Q2N1 w - - 0 1"));
    let of = |kind: PieceKind| {
        moves.iter().filter(|m| matches!(m, Move::Regular { piece_kind, .. } if *piece_kind == kind)).count()
    };
    assert_eq!(of(PieceKind::King), 3);
    assert_eq!(of(PieceKind::Knight), 3);
    // d-file up to the pawn on d5, first rank, and both diagonals.
    assert_eq!(of(PieceKind::Queen), 4 + 4 + 3 + 4);
    // Two advances and two captures.
    assert_eq!(of(PieceKind::Pawn), 4);
    assert_eq!(count(&moves, regular(C4, D5, PieceKind::Pawn)), 1);
    assert_eq!(count(&moves, regular(E4, D5, PieceKind::Pawn)), 1);
    assert_eq!(count(&moves, regular(C4, C5, PieceKind::Pawn)), 1);
    assert_eq!(moves.len(), 25);
}
