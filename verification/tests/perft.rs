use fisher::board::Board;
use fisher::perft::search;

#[test]
fn default_pos_depth_3() {
    assert_eq!(search(Board::default(), 3), 8902)
}

#[test]
fn default_pos_depth_6() {
    assert_eq!(search(Board::default(), 6), 119060324)
}

#[test]
fn position_3_depth_6() {
    assert_eq!(
        search(
            Board::from_str("8/2p5/3p4/KP5r/1R3p1k/8/4P1P1/8 w - - 0 0").unwrap(),
            6
        ),
        11030083
    )
}

#[test]
fn position_5_depth_3() {
    assert_eq!(
        search(
            Board::from_str("rnbq1k1r/pp1Pbppp/2p5/8/2B5/8/PPP1NnPP/RNBQK2R w KQ - 1 8")
                .unwrap(),
            3
        ),
        62379
    )
}

#[test]
#[should_panic]
fn fen_string_oob() {
    Board::from_str("R5pk/1Qb1bb2/3b1qpp/2r4n/P8P1P3/PPP1Pp2/P1P1P1Q1/2K5 w - - 0 1")
        .expect("Failed to parse FEN-string");
}
