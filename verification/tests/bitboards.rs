use fisher::bitboard::{
    BitBoard, B_CASTLE_KS_SPACE, B_CASTLE_QS_KING_PASS, B_CASTLE_QS_SPACE, EIGHTH_RANK, FIRST_RANK,
    NOT_A_FILE, NOT_H_FILE, SECOND_RANK, SEVENTH_RANK, W_CASTLE_KS_SPACE, W_CASTLE_QS_KING_PASS,
    W_CASTLE_QS_SPACE,
};
use fisher::pins::Pins;
use fisher::slides::{
    get_down_attacks, get_down_left_attacks, get_down_right_attacks, get_left_attacks,
    get_right_attacks, get_up_attacks, get_up_left_attacks, get_up_right_attacks,
};
use fisher::square::{Square, A1, A8, B1, B3, C2, C3, D4, D5, E4, E5, F6, G7, H1, H4, H8};
use fisher::tables::{
    gen_king_moves, gen_knight_moves, king_attacks, knight_attacks, KING_MOVES, KNIGHT_MOVES,
};

fn set(squares: &[u32]) -> BitBoard {
    BitBoard(squares.iter().fold(0, |all, sq| all | 1u64 << sq))
}

#[test]
fn empty_full_and_single() {
    assert_eq!(BitBoard::empty(), BitBoard(0));
    assert_eq!(BitBoard::full(), BitBoard(u64::MAX));
    assert_eq!(BitBoard::from(Square(E4)), BitBoard(1 << 28));
    assert!(BitBoard::empty().is_empty() && !BitBoard::empty().isnt_empty());
    assert!(BitBoard::full().is_full() && !BitBoard(1).is_full());
    assert!(BitBoard(1 << 63).is_single_1());
    assert!(!BitBoard(0).is_single_1() && !BitBoard(3).is_single_1());
    assert_eq!(BitBoard(0).count_ones(), 0);
    assert_eq!(BitBoard(0xf0f0).count_ones(), 8);
    assert_eq!(BitBoard::full().count_ones(), 64);
}

#[test]
fn bits_are_set_cleared_and_flipped() {
    let mut board = BitBoard(0);
    board.turn_on(Square(D4));
    board.turn_on(Square(D4));
    assert_eq!(board, BitBoard(1 << 27));
    assert!(board.get_bit(Square(D4)) && !board.get_bit(Square(D5)));
    board.toggle_bit(Square(H8));
    assert_eq!(board, BitBoard(1 << 27 | 1 << 63));
    board.toggle_bit(Square(D4));
    assert_eq!(board, BitBoard(1 << 63));
    board.turn_off(Square(A1));
    assert_eq!(board, BitBoard(1 << 63));
    board.turn_off(Square(H8));
    assert_eq!(board, BitBoard(0));
    let mut rooks = set(&[A1, H1]);
    rooks.move_bit(Square(A1), Square(A8));
    assert_eq!(rooks, set(&[A8, H1]));
}

#[test]
fn lowest_square_is_found_and_popped() {
    let mut board = set(&[C3, E5, H8]);
    assert_eq!(board.first_one_square(), Square(C3));
    assert_eq!(board.pop_first_one(), Square(C3));
    assert_eq!(board, set(&[E5, H8]));
    assert_eq!(board.pfo_as_bitboard(), set(&[E5]));
    assert_eq!(board, set(&[H8]));
    assert_eq!(board.pfo_with_bitboard(), (Square(H8), set(&[H8])));
    assert_eq!(board, BitBoard(0));
}

#[test]
fn whole_board_steps_do_not_wrap() {
    let corners = set(&[A1, H1, A8, H8]);
    assert_eq!(corners.move_up(1), set(&[A1 + 8, H1 + 8]));
    assert_eq!(corners.move_down(1), set(&[A8 - 8, H8 - 8]));
    assert_eq!(corners.move_up(2), set(&[A1 + 16, H1 + 16]));
    assert_eq!(corners.move_down(7), set(&[A1, H1]));
    assert_eq!(corners.move_right(), set(&[B1, A8 + 1]));
    assert_eq!(corners.move_left(), set(&[H1 - 1, H8 - 1]));
    assert_eq!(corners.move_up_right(), set(&[A1 + 9]));
    assert_eq!(corners.move_up_left(), set(&[H1 + 7]));
    assert_eq!(corners.move_down_right(), set(&[A8 - 7]));
    assert_eq!(corners.move_down_left(), set(&[H8 - 9]));
}

#[test]
fn smears_and_disjointness() {
    // e4 and e5 are in the set: e5 has a square of the set below it, e4 one above it.
    let empty = set(&[E4, E5, A1]);
    assert_eq!(empty.smear_zeroes_up(), set(&[E5]));
    assert_eq!(empty.smear_zeroes_down(), set(&[E4]));
    assert!(set(&[A1, B1]).does_contain_none(set(&[C2, H8])));
    assert!(!set(&[A1, B1]).does_contain_none(set(&[B1])));
    assert!(BitBoard(0).does_contain_none(BitBoard::full()));
}

#[test]
fn masks_hold_their_ranks_files_and_squares() {
    assert_eq!(FIRST_RANK, 0xff);
    assert_eq!(SECOND_RANK, 0xff00);
    assert_eq!(SEVENTH_RANK, 0xff << 48);
    assert_eq!(EIGHTH_RANK, 0xff << 56);
    for sq in 0..64 {
        assert_eq!(NOT_A_FILE >> sq & 1 == 1, sq % 8 != 0);
        assert_eq!(NOT_H_FILE >> sq & 1 == 1, sq % 8 != 7);
    }
    assert_eq!(W_CASTLE_KS_SPACE, 1 << 5 | 1 << 6);
    assert_eq!(W_CASTLE_QS_SPACE, 1 << 1 | 1 << 2 | 1 << 3);
    assert_eq!(W_CASTLE_QS_KING_PASS, 1 << 2 | 1 << 3);
    assert_eq!(B_CASTLE_KS_SPACE, W_CASTLE_KS_SPACE << 56);
    assert_eq!(B_CASTLE_QS_SPACE, W_CASTLE_QS_SPACE << 56);
    assert_eq!(B_CASTLE_QS_KING_PASS, W_CASTLE_QS_KING_PASS << 56);
}

#[test]
fn squares_step_and_know_their_row() {
    let d4 = Square(D4);
    assert_eq!(d4.move_up(2), Square(D4 + 16));
    assert_eq!(d4.move_down(3), Square(D4 - 24));
    assert_eq!(d4.move_up_right(1), Square(E5));
    assert_eq!(d4.move_down_left(1), Square(C3));
    assert_eq!(d4.move_up_left(1), Square(D4 + 7));
    assert_eq!(d4.move_down_right(2), Square(D4 - 14));
    assert_eq!(d4.get_row(), 3);
    assert_eq!(Square(A1).get_row(), 0);
    assert_eq!(Square(H8).get_row(), 7);
}

/// The squares from `origin` on in steps of (`file`, `rank`), through
/// `empty` and onto the first square that is not in it.
fn ray(origin: u32, file: i32, rank: i32, empty: u64) -> u64 {
    let mut squares = 0;
    let (mut f, mut r) = ((origin % 8) as i32 + file, (origin / 8) as i32 + rank);
    while (0..8).contains(&f) && (0..8).contains(&r) {
        let sq = (r * 8 + f) as u32;
        squares |= 1u64 << sq;
        if empty >> sq & 1 == 0 {
            break;
        }
        f += file;
        r += rank;
    }
    squares
}

#[test]
fn fills_are_the_rays_of_every_slider() {
    let blockers = set(&[D5, F6, B3, G7, H4, C2, A8]).0;
    for empty in [u64::MAX, !blockers, 0, 0x00ff_00ff_00ff_00ff] {
        for origin in 0..64 {
            let slider = BitBoard(1 << origin);
            let e = BitBoard(empty);
            assert_eq!(get_up_attacks(slider, e).0, ray(origin, 0, 1, empty));
            assert_eq!(get_down_attacks(slider, e).0, ray(origin, 0, -1, empty));
            assert_eq!(get_right_attacks(slider, e).0, ray(origin, 1, 0, empty));
            assert_eq!(get_left_attacks(slider, e).0, ray(origin, -1, 0, empty));
            assert_eq!(get_up_right_attacks(slider, e).0, ray(origin, 1, 1, empty));
            assert_eq!(get_up_left_attacks(slider, e).0, ray(origin, -1, 1, empty));
            assert_eq!(get_down_right_attacks(slider, e).0, ray(origin, 1, -1, empty));
            assert_eq!(get_down_left_attacks(slider, e).0, ray(origin, -1, -1, empty));
        }
    }
    // Two sliders at once.
    let pair = set(&[A1, D4]);
    assert_eq!(
        get_up_attacks(pair, BitBoard(!blockers)).0,
        ray(A1, 0, 1, !blockers) | ray(D4, 0, 1, !blockers)
    );
    assert_eq!(get_up_attacks(set(&[D4]), BitBoard(!blockers)), set(&[D5]));
}

#[test]
fn knight_and_king_tables() {
    assert_eq!(gen_knight_moves(A1 as usize), set(&[B3, C2]));
    assert_eq!(gen_knight_moves(D4 as usize).count_ones(), 8);
    assert_eq!(gen_knight_moves(H8 as usize), set(&[G7 - 1, F6 + 1]));
    assert_eq!(gen_king_moves(A1 as usize), set(&[B1, A1 + 8, B1 + 8]));
    assert_eq!(gen_king_moves(D4 as usize), set(&[C3, C3 + 1, C3 + 2, D4 - 1, E4, D5 - 1, D5, E5]));
    for origin in 0..64i32 {
        let (knight, king) = (gen_knight_moves(origin as usize), gen_king_moves(origin as usize));
        for target in 0..64i32 {
            let (df, dr) = ((target % 8 - origin % 8).abs(), (target / 8 - origin / 8).abs());
            assert_eq!(knight.get_bit(Square(target as u32)), (df, dr) == (1, 2) || (df, dr) == (2, 1));
            assert_eq!(king.get_bit(Square(target as u32)), df.max(dr) == 1);
        }
    }
}

#[test]
fn tables_hold_the_attack_sets() {
    assert_eq!(KNIGHT_MOVES[A1 as usize], 0x20400);
    assert_eq!(KNIGHT_MOVES[H8 as usize], 0x0020400000000000);
    assert_eq!(KING_MOVES[A1 as usize], 0x302);
    assert_eq!(KING_MOVES[E4 as usize], 0x3828380000);
    for sq in 0..64u32 {
        assert_eq!(knight_attacks(Square(sq)), gen_knight_moves(sq as usize));
        assert_eq!(king_attacks(Square(sq)), gen_king_moves(sq as usize));
        assert_eq!(BitBoard(KNIGHT_MOVES[sq as usize]), gen_knight_moves(sq as usize));
        assert_eq!(BitBoard(KING_MOVES[sq as usize]), gen_king_moves(sq as usize));
    }
}

#[test]
fn pin_queries() {
    let pins = Pins {
        horizontal: BitBoard(1),
        vertical: BitBoard(2),
        diagonal: BitBoard(4),
        anti_diagonal: BitBoard(8),
    };
    assert_eq!(Pins::new().get_all_pins(), BitBoard(0));
    assert_eq!(pins.get_hv_pins(), BitBoard(3));
    assert_eq!(pins.get_diag_pins(), BitBoard(12));
    assert_eq!(pins.get_all_pins(), BitBoard(15));
    assert_eq!(pins.get_ape_diagonal(), BitBoard(15 - 4));
    assert_eq!(pins.get_ape_anti_diagonal(), BitBoard(15 - 8));
    assert_eq!(pins.get_ape_horizontal(), BitBoard(15 - 1));
    assert_eq!(pins.get_ape_vertical(), BitBoard(15 - 2));
    assert_eq!(pins.get_pin_mask(BitBoard(1)), BitBoard(1));
    assert_eq!(pins.get_pin_mask(BitBoard(2)), BitBoard(2));
    assert_eq!(pins.get_pin_mask(BitBoard(4)), BitBoard(4));
    assert_eq!(pins.get_pin_mask(BitBoard(8)), BitBoard(8));
    assert_eq!(pins.get_pin_mask(BitBoard(16)), BitBoard(u64::MAX));
    assert_eq!(Pins::new().get_pin_mask(BitBoard(1)), BitBoard(u64::MAX));
}
