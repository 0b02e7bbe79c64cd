use fisher::bitboard::BitBoard;
use fisher::board::{Board, BoardPieces};
use fisher::fen::{
    castling_from_bytes, number_from_bytes, split_bytes, ParseError, Rights,
};
use fisher::moves::{Move, MoveGen};
use fisher::perft::{checked_search, search};
use fisher::piece::{Piece, PieceKind, Player};
use fisher::square::{Square, A1, A7, A8, B1, C6, E1, E2, E3, E4, E5, E7, E8, H1, H8};

const START: &str = "rnbqkbnr/pppppppp/8/8/8/8/PPPPPPPP/RNBQKBNR w KQkq - 0 1";

/// White to move with Black in check: no text gives this position.
fn stray() -> Board {
    let mut board = Board::from_str("4k3/8/8/8/8/8/8/4R1K1 b - - 0 1").unwrap();
    board.switch_sides();
    board.update_move_constraints();
    board
}

fn same(a: &Board, b: &Board) -> bool {
    a.moving_player == b.moving_player
        && a.moved_player == b.moved_player
        && a.current_player == b.current_player
        && a.ep_info == b.ep_info
        && a.half_moves == b.half_moves
        && (0..64).all(|sq| a.pieces.get_piece(Square(sq)) == b.pieces.get_piece(Square(sq)))
}

#[test]
fn default_is_the_starting_position() {
    let board = Board::default();
    assert!(same(&board, &Board::from_str(START).unwrap()));
    assert!(board.current_player == Player::White);
    assert_eq!(board.moving_player.king, BitBoard(1 << E1));
    assert_eq!(board.moving_player.pawns, BitBoard(0xff00));
    assert_eq!(board.moving_player.occupied, BitBoard(0xffff));
    assert_eq!(board.moved_player.queens, BitBoard(1 << 59));
    assert_eq!(board.moved_player.occupied, BitBoard(0xffff << 48));
    assert!(board.moving_player.can_castle_ks && board.moving_player.can_castle_qs);
    assert!(board.moved_player.can_castle_ks && board.moved_player.can_castle_qs);
    assert!(board.moving_player.isnt_in_check() && !board.moving_player.king_must_move);
    // Black's attacks: the sixth rank, and the squares behind it that Black covers itself.
    assert_eq!(board.moved_player.attacks, BitBoard(0x7effff << 40));
    assert_eq!(
        *board.pieces.get_piece(Square(A8)),
        Some(Piece { piece_kind: PieceKind::Rook, player: Player::Black })
    );
    assert_eq!(*board.pieces.get_piece(Square(E4)), None);
}

#[test]
fn fen_sets_side_rights_counter_and_en_passant() {
    let board = Board::from_str("r3k2r/8/8/4pP2/8/8/8/R3K2R w Kq e6 17 +40").unwrap();
    assert!(board.moving_player.can_castle_ks && !board.moving_player.can_castle_qs);
    assert!(!board.moved_player.can_castle_ks && board.moved_player.can_castle_qs);
    assert_eq!(board.half_moves, 17);
    assert_eq!(board.ep_info.capture_point, BitBoard(1 << (E5 + 8)));
    assert_eq!(board.ep_info.pawn, BitBoard(1 << E5));
    let board = Board::from_str("4k3/8/8/8/4Pp2/8/8/4K3 b - e3 0 1").unwrap();
    assert!(board.current_player == Player::Black);
    assert_eq!(board.moving_player.king, BitBoard(1 << E8));
    assert_eq!(board.moved_player.king, BitBoard(1 << E1));
    assert_eq!(board.ep_info.capture_point, BitBoard(1 << E3));
    assert_eq!(board.ep_info.pawn, BitBoard(1 << E4));
    assert_eq!(MoveGen::run(board).iter().filter(|m| matches!(m, Move::EnPassant { .. })).count(), 1);
}

#[test]
fn fen_faults() {
    let fault = |fen: &str| Board::from_str(fen).err();
    assert_eq!(fault("4k3/8/8/8/8/8/8/4K3 w - - 0"), Some(ParseError::PartCount));
    assert_eq!(fault("4k3/8/8/8/8/8/8/4K3  w - - 0 1"), Some(ParseError::PartCount));
    assert_eq!(fault(""), Some(ParseError::PartCount));
    assert_eq!(fault("4k3/8/8/8/8/8/4K3 w - - 0 1"), Some(ParseError::RowCount));
    assert_eq!(fault("4k3/8/8/8/8/8/8/4K3/ w - - 0 1"), Some(ParseError::RowCount));
    assert_eq!(fault("4k3/8/8/8/8/8/8/4X3 w - - 0 1"), Some(ParseError::InvalidPiece));
    assert_eq!(fault("4k3/9/8/8/8/8/8/4K3 w - - 0 1"), Some(ParseError::InvalidPiece));
    assert_eq!(fault("4k3/0/8/8/8/8/8/4K3 w - - 0 1"), Some(ParseError::InvalidPiece));
    assert_eq!(fault("4k3/8/8/8/8/8/8/4K4 w - - 0 1"), Some(ParseError::RowOverflow));
    assert_eq!(fault("ppppppppp/8/8/8/8/8/8/4K3 w - - 0 1"), Some(ParseError::RowOverflow));
    assert_eq!(fault("4k3/8/8/8/8/8/8/4K3 white - - 0 1"), Some(ParseError::PlayerLength));
    assert_eq!(fault("4k3/8/8/8/8/8/8/4K3 x - - 0 1"), Some(ParseError::PlayerLetter));
    assert_eq!(fault("4k3/8/8/8/8/8/8/4K3 w - e 0 1"), Some(ParseError::SquareLength));
    assert_eq!(fault("4k3/8/8/8/8/8/8/4K3 w - i3 0 1"), Some(ParseError::SquareFile));
    assert_eq!(fault("4k3/8/8/8/8/8/8/4K3 w - e9 0 1"), Some(ParseError::SquareRank));
    assert_eq!(fault("4k3/8/8/8/8/8/8/4K3 w - - x 1"), Some(ParseError::HalfMoves));
    assert_eq!(fault("4k3/8/8/8/8/8/8/4K3 w - - -1 1"), Some(ParseError::HalfMoves));
    assert_eq!(fault("4k3/8/8/8/8/8/8/4K3 w - - 0 4294967296"), Some(ParseError::FullMoves));
    assert_eq!(fault("4k3/8/8/8/8/8/8/4K3 w - - 0 +"), Some(ParseError::FullMoves));
    assert_eq!(fault("4k3/8/8/8/8/8/8/4K3 w KK - 0 1"), Some(ParseError::Castling));
    assert_eq!(fault("4k3/8/8/8/8/8/8/4K3 w Kx - 0 1"), Some(ParseError::Castling));
    assert_eq!(fault("8/8/8/8/8/8/8/4K3 w - - 0 1"), Some(ParseError::Kings));
    assert_eq!(fault("4k3/8/8/8/8/8/8/3KK3 w - - 0 1"), Some(ParseError::Kings));
    assert_eq!(fault("4k3/8/8/8/8/8/8/4K3 w - e6 0 1"), Some(ParseError::EnPassantSquare));
    assert_eq!(fault("4k3/8/8/4p3/8/8/8/4K3 b - e6 0 1"), Some(ParseError::EnPassantSquare));
    assert_eq!(fault("4k3/8/4n3/4p3/8/8/8/4K3 w - e6 0 1"), Some(ParseError::EnPassantSquare));
    assert_eq!(fault("4k3/8/8/8/8/8/8/4K3 w K - 0 1"), Some(ParseError::CastlingRights));
    assert_eq!(fault("r3k3/8/8/8/8/8/8/4K3 w k - 0 1"), Some(ParseError::CastlingRights));
    assert_eq!(fault("4k3/8/8/8/8/8/8/4R1K1 w - - 0 1"), Some(ParseError::Check));
    assert_eq!(fault("4k3/8/8/8/8/8/8/3K4 w - - 0 1"), None);
    assert_eq!(fault("8/8/8/8/8/8/3k4/3K4 w - - 0 1"), Some(ParseError::Check));
    assert_eq!(fault("4k3/3P4/8/8/8/8/8/3K4 w - - 0 1"), Some(ParseError::Check));
    assert_eq!(fault("4k3/8/3N4/8/8/8/8/3K4 w - - 0 1"), Some(ParseError::Check));
    assert_eq!(fault("4k3/8/3N4/8/8/8/8/3K4 b - - 0 1"), None);
    // The first fault in the order placement, side, en passant, counters, castling.
    assert_eq!(fault("4k3/8/8/8/8/8/8/4X3 x KK e9 x x"), Some(ParseError::InvalidPiece));
    assert_eq!(fault("4k3/8/8/8/8/8/8/4K3 x KK e9 x x"), Some(ParseError::PlayerLetter));
    assert_eq!(fault("4k3/8/8/8/8/8/8/4K3 w KK e9 x x"), Some(ParseError::SquareRank));
    assert_eq!(fault("8/8/8/8/8/8/8/8 w KK - 0 x"), Some(ParseError::FullMoves));
    assert_eq!(fault("8/8/8/8/8/8/8/8 w KK - 0 1"), Some(ParseError::Castling));
    // Rows may be short, and an empty castling part gives no rights.
    assert!(Board::from_str("4k/8/8/8/8/8/8/4K w  - 0 1").is_ok());
}

#[test]
fn fen_parts() {
    let bytes = |s: &str| s.as_bytes().to_vec();
    assert_eq!(split_bytes(&bytes("a b  c"), b' '), vec![bytes("a"), bytes("b"), bytes(""), bytes("c")]);
    assert_eq!(split_bytes(&bytes(""), b'/'), vec![bytes("")]);
    assert_eq!(split_bytes(&bytes("/"), b'/'), vec![bytes(""), bytes("")]);
    assert_eq!(number_from_bytes(&bytes("0")), Some(0));
    assert_eq!(number_from_bytes(&bytes("+007")), Some(7));
    assert_eq!(number_from_bytes(&bytes("4294967295")), Some(u32::MAX));
    assert_eq!(number_from_bytes(&bytes("4294967296")), None);
    assert_eq!(number_from_bytes(&bytes("99999999999999999999999")), None);
    assert_eq!(number_from_bytes(&bytes("")), None);
    assert_eq!(number_from_bytes(&bytes("1 ")), None);
    assert_eq!(number_from_bytes(&bytes("++1")), None);
    let none = Rights { white_ks: false, white_qs: false, black_ks: false, black_qs: false };
    assert_eq!(castling_from_bytes(&bytes("-")), Ok(none));
    assert_eq!(castling_from_bytes(&bytes("")), Ok(none));
    assert_eq!(
        castling_from_bytes(&bytes("qK")),
        Ok(Rights { white_ks: true, black_qs: true, ..none })
    );
    assert_eq!(castling_from_bytes(&bytes("--")), Err(ParseError::Castling));
    assert_eq!(Player::from_str("b"), Ok(Player::Black));
    assert!(Player::White.not() == Player::Black && Player::Black.not() == Player::White);
    let pieces = BoardPieces::from_str("k7/8/8/8/8/8/8/1Q6").unwrap();
    assert_eq!(
        *pieces.get_piece(Square(B1)),
        Some(Piece { piece_kind: PieceKind::Queen, player: Player::White })
    );
    assert_eq!(
        *pieces.get_piece(Square(A8)),
        Some(Piece { piece_kind: PieceKind::King, player: Player::Black })
    );
    assert_eq!((0..64).filter(|sq| pieces.get_piece(Square(*sq)).is_some()).count(), 2);
    assert_eq!(BoardPieces::from_str("8/8").err(), Some(ParseError::RowCount));
}

#[test]
fn board_from_parts() {
    let mut pieces = BoardPieces::empty();
    *pieces.get_mut_piece(Square(E1)) = Some(Piece { piece_kind: PieceKind::King, player: Player::White });
    *pieces.get_mut_piece(Square(E8)) = Some(Piece { piece_kind: PieceKind::King, player: Player::Black });
    *pieces.get_mut_piece(Square(H1)) = Some(Piece { piece_kind: PieceKind::Rook, player: Player::White });
    *pieces.get_mut_piece(Square(A1)) = Some(Piece { piece_kind: PieceKind::Pawn, player: Player::White });
    pieces.remove_piece(Square(A1));
    pieces.move_piece(Square(H1), Square(H8));
    pieces.move_piece(Square(H8), Square(H1));
    let rights = Rights { white_ks: true, white_qs: false, black_ks: false, black_qs: false };
    let board = Board::from_parts(pieces, Player::White, rights, None, 3).unwrap();
    assert!(same(&board, &Board::from_str("4k3/8/8/8/8/8/8/4K2R w K - 3 1").unwrap()));
    let all = Rights { white_qs: true, ..rights };
    assert_eq!(
        Board::from_parts(pieces, Player::White, all, None, 0).err(),
        Some(ParseError::CastlingRights)
    );
    assert_eq!(
        Board::from_parts(pieces, Player::White, rights, Some(Square(64)), 0).err(),
        Some(ParseError::EnPassantSquare)
    );
}

#[test]
fn squares_and_pieces_as_text() {
    assert_eq!(Square::from_str("a1"), Ok(Square(A1)));
    assert_eq!(Square::from_str("h8"), Ok(Square(H8)));
    assert_eq!(Square::from_str("c6"), Ok(Square(C6)));
    assert_eq!(Square::from_str("c"), Err(ParseError::SquareLength));
    assert_eq!(Square::from_str("C6"), Err(ParseError::SquareFile));
    assert_eq!(Square::from_str("c0"), Err(ParseError::SquareRank));
    for sq in 0..64 {
        assert_eq!(Square::from_str(&Square(sq).to_string()), Ok(Square(sq)));
    }
    assert_eq!(Square(E2).to_string(), "e2");
    assert_eq!(PieceKind::from_str("n"), Ok(PieceKind::Knight));
    assert_eq!(PieceKind::from_str("N"), Err(ParseError::PieceLetter));
    assert_eq!(PieceKind::from_str("kn"), Err(ParseError::PieceLength));
    for kind in [PieceKind::King, PieceKind::Queen, PieceKind::Rook, PieceKind::Bishop, PieceKind::Knight, PieceKind::Pawn] {
        assert_eq!(PieceKind::from_str(&kind.into_piece_char().to_string()), Ok(kind));
    }
}

#[test]
fn moves_as_text() {
    let push = Move::Regular { origin: Square(E2), target: Square(E4), piece_kind: PieceKind::Pawn, double_push: true };
    let step = Move::Regular { origin: Square(E2), target: Square(E3), piece_kind: PieceKind::Pawn, double_push: false };
    let black_push = Move::Regular { origin: Square(E7), target: Square(E5), piece_kind: PieceKind::Pawn, double_push: true };
    let rook = Move::Regular { origin: Square(A7), target: Square(E5 - 4), piece_kind: PieceKind::Rook, double_push: false };
    let promotion = Move::Promotion { origin: Square(E7), target: Square(E8), promotion_to: PieceKind::Queen };
    assert_eq!(Move::from_str("pe2e4"), Ok(push));
    assert_eq!(Move::from_str("pe2e3"), Ok(step));
    assert_eq!(Move::from_str("pe7e5"), Ok(black_push));
    assert_eq!(Move::from_str("ra7a5"), Ok(rook));
    assert_eq!(Move::from_str("e7e8=q"), Ok(promotion));
    assert_eq!(Move::from_str("e5"), Ok(Move::EnPassant { origin: Square(E5) }));
    assert_eq!(Move::from_str("ks"), Ok(Move::CastleKS));
    assert_eq!(Move::from_str("qs"), Ok(Move::CastleQS));
    assert_eq!(push.to_string(), "pe2e4");
    assert_eq!(rook.to_string(), "ra7a5");
    assert_eq!(promotion.to_string(), "e7e8=q");
    assert_eq!(Move::EnPassant { origin: Square(E5) }.to_string(), "e5");
    assert_eq!(Move::CastleKS.to_string(), "ks");
    assert_eq!(Move::CastleQS.to_string(), "qs");
    assert_eq!(Move::from_str("xe2e4"), Err(ParseError::PieceLetter));
    assert_eq!(Move::from_str("pi2e4"), Err(ParseError::SquareFile));
    assert_eq!(Move::from_str("pe2e9"), Err(ParseError::SquareRank));
    assert_eq!(Move::from_str("e7e8=x"), Err(ParseError::PieceLetter));
    assert_eq!(Move::from_str("e7e9=q"), Err(ParseError::SquareRank));
    assert_eq!(Move::from_str("e7e8-q"), Err(ParseError::InvalidMove));
    assert_eq!(Move::from_str("e9"), Err(ParseError::InvalidMove));
    assert_eq!(Move::from_str(""), Err(ParseError::InvalidMove));
    assert_eq!(Move::from_str("castle"), Err(ParseError::InvalidMove));
    for chess_move in MoveGen::run(Board::from_str("r3k2r/1P6/8/2pP4/8/8/8/R3K2R w KQkq c6 0 1").unwrap()) {
        assert_eq!(Move::from_str(&chess_move.to_string()), Ok(chess_move));
    }
}

#[test]
fn positions_accept_what_they_generate() {
    let board = Board::default();
    for chess_move in MoveGen::run(board) {
        assert!(board.accepts(chess_move));
    }
    // The pieces must be there and the target free; more is not looked at.
    assert!(board.accepts(Move::from_str("pe2e5").unwrap()));
    assert!(!board.accepts(Move::from_str("pe3e4").unwrap()));
    assert!(!board.accepts(Move::from_str("pe7e5").unwrap()));
    assert!(!board.accepts(Move::Regular {
        origin: Square(E2),
        target: Square(E3),
        piece_kind: PieceKind::Pawn,
        double_push: true,
    }));
    assert!(!board.accepts(Move::from_str("ne2e4").unwrap()));
    assert!(!board.accepts(Move::from_str("ra1a2").unwrap()));
    assert!(!board.accepts(Move::CastleKS));
    assert!(!board.accepts(Move::CastleQS));
    assert!(!board.accepts(Move::EnPassant { origin: Square(E2) }));
    assert!(!board.accepts(Move::Regular { origin: Square(64), target: Square(E4), piece_kind: PieceKind::Pawn, double_push: false }));
    let board = Board::from_str("4k3/P7/8/8/8/8/8/4K2R w K - 0 1").unwrap();
    assert!(board.accepts(Move::CastleKS));
    assert!(board.accepts(Move::from_str("a7a8=n").unwrap()));
    assert!(!board.accepts(Move::from_str("a7a8=k").unwrap()));
    assert!(!board.accepts(Move::from_str("re1e8").unwrap()));
    // A king is never captured.
    let board = stray();
    assert!(!board.accepts(Move::from_str("re1e8").unwrap()));
    assert!(board.accepts(Move::from_str("re1e7").unwrap()));
}

#[test]
fn leaves_are_counted() {
    let board = Board::default();
    assert_eq!(search(board, 0), 1);
    assert_eq!(search(board, 1), 20);
    assert_eq!(search(board, 2), 400);
    assert_eq!(search(board, 4), 197281);
    assert_eq!(checked_search(board, 0), Some(1));
    assert_eq!(checked_search(board, 3), Some(8902));
    assert_eq!(checked_search(board, 5), Some(4865609));
    let kiwipete = Board::from_str("r3k2r/p1ppqpb1/bn2pnp1/3PN3/1p2P3/2N2Q1p/PPPBBPPP/R3K2R w KQkq - 0 1").unwrap();
    assert_eq!(search(kiwipete, 1), 48);
    assert_eq!(search(kiwipete, 3), 97862);
    assert_eq!(checked_search(kiwipete, 4), Some(4085603));
    let mated = Board::from_str("7k/5Q2/6K1/8/8/8/8/8 b - - 0 1").unwrap();
    assert_eq!(search(mated, 1), 0);
    assert_eq!(search(mated, 3), 0);
    assert_eq!(checked_search(mated, 2), Some(0));
    // A position that play cannot reach: the side that has just moved is in
    // check, and the rook's capture of the king is generated and refused.
    assert_eq!(checked_search(stray(), 1), Some(17));
    assert_eq!(checked_search(stray(), 2), None);
}
