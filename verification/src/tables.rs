//! The squares a knight or a king attacks from each square of an empty board.
use vstd::prelude::*;
use crate::bitboard::BitBoard;
use crate::bits::bit;
use crate::square::Square;
use crate::slides::{Direction, step};

verus! {

/// The squares a knight attacks from each square of an empty board.
pub const KNIGHT_MOVES: [u64; 64] = [
    0x0000000000020400, 0x0000000000050800, 0x00000000000a1100, 0x0000000000142200,
    0x0000000000284400, 0x0000000000508800, 0x0000000000a01000, 0x0000000000402000,
    0x0000000002040004, 0x0000000005080008, 0x000000000a110011, 0x0000000014220022,
    0x0000000028440044, 0x0000000050880088, 0x00000000a0100010, 0x0000000040200020,
    0x0000000204000402, 0x0000000508000805, 0x0000000a1100110a, 0x0000001422002214,
    0x0000002844004428, 0x0000005088008850, 0x000000a0100010a0, 0x0000004020002040,
    0x0000020400040200, 0x0000050800080500, 0x00000a1100110a00, 0x0000142200221400,
    0x0000284400442800, 0x0000508800885000, 0x0000a0100010a000, 0x0000402000204000,
    0x0002040004020000, 0x0005080008050000, 0x000a1100110a0000, 0x0014220022140000,
    0x0028440044280000, 0x0050880088500000, 0x00a0100010a00000, 0x0040200020400000,
    0x0204000402000000, 0x0508000805000000, 0x0a1100110a000000, 0x1422002214000000,
    0x2844004428000000, 0x5088008850000000, 0xa0100010a0000000, 0x4020002040000000,
    0x0400040200000000, 0x0800080500000000, 0x1100110a00000000, 0x2200221400000000,
    0x4400442800000000, 0x8800885000000000, 0x100010a000000000, 0x2000204000000000,
    0x0004020000000000, 0x0008050000000000, 0x00110a0000000000, 0x0022140000000000,
    0x0044280000000000, 0x0088500000000000, 0x0010a00000000000, 0x0020400000000000,
];

/// The squares a king attacks from each square of an empty board.
pub const KING_MOVES: [u64; 64] = [
    0x0000000000000302, 0x0000000000000705, 0x0000000000000e0a, 0x0000000000001c14,
    0x0000000000003828, 0x0000000000007050, 0x000000000000e0a0, 0x000000000000c040,
    0x0000000000030203, 0x0000000000070507, 0x00000000000e0a0e, 0x00000000001c141c,
    0x0000000000382838, 0x0000000000705070, 0x0000000000e0a0e0, 0x0000000000c040c0,
    0x0000000003020300, 0x0000000007050700, 0x000000000e0a0e00, 0x000000001c141c00,
    0x0000000038283800, 0x0000000070507000, 0x00000000e0a0e000, 0x00000000c040c000,
    0x0000000302030000, 0x0000000705070000, 0x0000000e0a0e0000, 0x0000001c141c0000,
    0x0000003828380000, 0x0000007050700000, 0x000000e0a0e00000, 0x000000c040c00000,
    0x0000030203000000, 0x0000070507000000, 0x00000e0a0e000000, 0x00001c141c000000,
    0x0000382838000000, 0x0000705070000000, 0x0000e0a0e0000000, 0x0000c040c0000000,
    0x0003020300000000, 0x0007050700000000, 0x000e0a0e00000000, 0x001c141c00000000,
    0x0038283800000000, 0x0070507000000000, 0x00e0a0e000000000, 0x00c040c000000000,
    0x0302030000000000, 0x0705070000000000, 0x0e0a0e0000000000, 0x1c141c0000000000,
    0x3828380000000000, 0x7050700000000000, 0xe0a0e00000000000, 0xc040c00000000000,
    0x0203000000000000, 0x0507000000000000, 0x0a0e000000000000, 0x141c000000000000,
    0x2838000000000000, 0x5070000000000000, 0xa0e0000000000000, 0x40c0000000000000,
];

/// The squares a knight on square `s` attacks: each is two steps along a
/// rank or file and one step across.
pub open spec fn knight_moves(s: int) -> u64 {
    let piece = 1u64 << (s as u64);
    step(step(piece, Direction::Up), Direction::UpRight) | step(
        step(piece, Direction::Up),
        Direction::UpLeft,
    ) | step(step(piece, Direction::Left), Direction::UpLeft) | step(
        step(piece, Direction::Left),
        Direction::DownLeft,
    ) | step(step(piece, Direction::Down), Direction::DownLeft) | step(
        step(piece, Direction::Down),
        Direction::DownRight,
    ) | step(step(piece, Direction::Right), Direction::DownRight) | step(
        step(piece, Direction::Right),
        Direction::UpRight,
    )
}

/// The squares a king on square `s` attacks: its neighbours.
pub open spec fn king_moves(s: int) -> u64 {
    let piece = 1u64 << (s as u64);
    let middle = step(piece, Direction::Left) | step(piece, Direction::Right);
    let horizontal = middle | piece;
    step(horizontal, Direction::Up) | middle | step(horizontal, Direction::Down)
}

/// `t` is a knight's jump away from `s`.
pub open spec fn knight_jump(s: int, t: int) -> bool {
    let df = t % 8 - s % 8;
    let dr = t / 8 - s / 8;
    ((df == 1 || df == -1) && (dr == 2 || dr == -2)) || ((df == 2 || df == -2) && (dr == 1 || dr
        == -1))
}

/// `t` is a neighbour of `s`.
pub open spec fn king_step(s: int, t: int) -> bool {
    let df = t % 8 - s % 8;
    let dr = t / 8 - s / 8;
    s != t && -1 <= df <= 1 && -1 <= dr <= 1
}

/// The knight's attack set holds exactly the squares a knight's jump away.
pub proof fn lemma_knight_moves(s: int, t: int)
    requires
        0 <= s < 64,
        0 <= t < 64,
    ensures
        bit(knight_moves(s), t) == knight_jump(s, t),
{
    let a = s as u64;
    let b = t as u64;
    let p = 1u64 << a;
    let k = knight_moves(s);
    assert(a < 64 && b < 64 && p == 1u64 << a && k == (((p << 8) << 9) & 0xfefefefefefefefeu64) | ((
    (p << 8) << 7) & 0x7f7f7f7f7f7f7f7fu64) | (((((p >> 1) & 0x7f7f7f7f7f7f7f7fu64) << 7)
        & 0x7f7f7f7f7f7f7f7fu64)) | (((((p >> 1) & 0x7f7f7f7f7f7f7f7fu64) >> 9)
        & 0x7f7f7f7f7f7f7f7fu64)) | (((p >> 8) >> 9) & 0x7f7f7f7f7f7f7f7fu64) | (((p >> 8) >> 7)
        & 0xfefefefefefefefeu64) | (((((p << 1) & 0xfefefefefefefefeu64) >> 7)
        & 0xfefefefefefefefeu64)) | (((((p << 1) & 0xfefefefefefefefeu64) << 9)
        & 0xfefefefefefefefeu64)) ==> (((k >> b) & 1 == 1) == ((((b % 8) + 1 == a % 8 || (a % 8)
        + 1 == b % 8) && ((b / 8) + 2 == a / 8 || (a / 8) + 2 == b / 8)) || (((b % 8) + 2 == a % 8
        || (a % 8) + 2 == b % 8) && ((b / 8) + 1 == a / 8 || (a / 8) + 1 == b / 8)))))
        by (bit_vector);
}

/// The king's attack set holds exactly the neighbours of its square.
pub proof fn lemma_king_moves(s: int, t: int)
    requires
        0 <= s < 64,
        0 <= t < 64,
    ensures
        bit(king_moves(s), t) == king_step(s, t),
{
    let a = s as u64;
    let b = t as u64;
    let p = 1u64 << a;
    let k = king_moves(s);
    let m = ((p >> 1) & 0x7f7f7f7f7f7f7f7fu64) | ((p << 1) & 0xfefefefefefefefeu64);
    let h = m | p;
    assert(a < 64 && b < 64 && p == 1u64 << a && m == ((p >> 1) & 0x7f7f7f7f7f7f7f7fu64) | ((p
        << 1) & 0xfefefefefefefefeu64) && h == m | p && k == (h << 8) | m | (h >> 8) ==> (((k
        >> b) & 1 == 1) == (a != b && (b % 8 == a % 8 || (b % 8) + 1 == a % 8 || (a % 8) + 1 == b
        % 8) && (b / 8 == a / 8 || (b / 8) + 1 == a / 8 || (a / 8) + 1 == b / 8))))
        by (bit_vector);
}

/// Each entry of the knight table is the knight's attack set of its square.
pub proof fn lemma_knight_table(i: int)
    requires
        0 <= i < 64,
    ensures
        KNIGHT_MOVES@[i] == knight_moves(i),
{
    assert(KNIGHT_MOVES@[0] == knight_moves(0) && KNIGHT_MOVES@[1] == knight_moves(1) && KNIGHT_MOVES@[2] == knight_moves(2) && KNIGHT_MOVES@[3] == knight_moves(3) && KNIGHT_MOVES@[4] == knight_moves(4) && KNIGHT_MOVES@[5] == knight_moves(5) && KNIGHT_MOVES@[6] == knight_moves(6) && KNIGHT_MOVES@[7] == knight_moves(7) && KNIGHT_MOVES@[8] == knight_moves(8) && KNIGHT_MOVES@[9] == knight_moves(9) && KNIGHT_MOVES@[10] == knight_moves(10) && KNIGHT_MOVES@[11] == knight_moves(11) && KNIGHT_MOVES@[12] == knight_moves(12) && KNIGHT_MOVES@[13] == knight_moves(13) && KNIGHT_MOVES@[14] == knight_moves(14) && KNIGHT_MOVES@[15] == knight_moves(15) && KNIGHT_MOVES@[16] == knight_moves(16) && KNIGHT_MOVES@[17] == knight_moves(17) && KNIGHT_MOVES@[18] == knight_moves(18) && KNIGHT_MOVES@[19] == knight_moves(19) && KNIGHT_MOVES@[20] == knight_moves(20) && KNIGHT_MOVES@[21] == knight_moves(21) && KNIGHT_MOVES@[22] == knight_moves(22) && KNIGHT_MOVES@[23] == knight_moves(23) && KNIGHT_MOVES@[24] == knight_moves(24) && KNIGHT_MOVES@[25] == knight_moves(25) && KNIGHT_MOVES@[26] == knight_moves(26) && KNIGHT_MOVES@[27] == knight_moves(27) && KNIGHT_MOVES@[28] == knight_moves(28) && KNIGHT_MOVES@[29] == knight_moves(29) && KNIGHT_MOVES@[30] == knight_moves(30) && KNIGHT_MOVES@[31] == knight_moves(31) && KNIGHT_MOVES@[32] == knight_moves(32) && KNIGHT_MOVES@[33] == knight_moves(33) && KNIGHT_MOVES@[34] == knight_moves(34) && KNIGHT_MOVES@[35] == knight_moves(35) && KNIGHT_MOVES@[36] == knight_moves(36) && KNIGHT_MOVES@[37] == knight_moves(37) && KNIGHT_MOVES@[38] == knight_moves(38) && KNIGHT_MOVES@[39] == knight_moves(39) && KNIGHT_MOVES@[40] == knight_moves(40) && KNIGHT_MOVES@[41] == knight_moves(41) && KNIGHT_MOVES@[42] == knight_moves(42) && KNIGHT_MOVES@[43] == knight_moves(43) && KNIGHT_MOVES@[44] == knight_moves(44) && KNIGHT_MOVES@[45] == knight_moves(45) && KNIGHT_MOVES@[46] == knight_moves(46) && KNIGHT_MOVES@[47] == knight_moves(47) && KNIGHT_MOVES@[48] == knight_moves(48) && KNIGHT_MOVES@[49] == knight_moves(49) && KNIGHT_MOVES@[50] == knight_moves(50) && KNIGHT_MOVES@[51] == knight_moves(51) && KNIGHT_MOVES@[52] == knight_moves(52) && KNIGHT_MOVES@[53] == knight_moves(53) && KNIGHT_MOVES@[54] == knight_moves(54) && KNIGHT_MOVES@[55] == knight_moves(55) && KNIGHT_MOVES@[56] == knight_moves(56) && KNIGHT_MOVES@[57] == knight_moves(57) && KNIGHT_MOVES@[58] == knight_moves(58) && KNIGHT_MOVES@[59] == knight_moves(59) && KNIGHT_MOVES@[60] == knight_moves(60) && KNIGHT_MOVES@[61] == knight_moves(61) && KNIGHT_MOVES@[62] == knight_moves(62) && KNIGHT_MOVES@[63] == knight_moves(63)) by (bit_vector);
    if i == 0 {
        assert(KNIGHT_MOVES@[0] == knight_moves(0));
    }
    if i == 1 {
        assert(KNIGHT_MOVES@[1] == knight_moves(1));
    }
    if i == 2 {
        assert(KNIGHT_MOVES@[2] == knight_moves(2));
    }
    if i == 3 {
        assert(KNIGHT_MOVES@[3] == knight_moves(3));
    }
    if i == 4 {
        assert(KNIGHT_MOVES@[4] == knight_moves(4));
    }
    if i == 5 {
        assert(KNIGHT_MOVES@[5] == knight_moves(5));
    }
    if i == 6 {
        assert(KNIGHT_MOVES@[6] == knight_moves(6));
    }
    if i == 7 {
        assert(KNIGHT_MOVES@[7] == knight_moves(7));
    }
    if i == 8 {
        assert(KNIGHT_MOVES@[8] == knight_moves(8));
    }
    if i == 9 {
        assert(KNIGHT_MOVES@[9] == knight_moves(9));
    }
    if i == 10 {
        assert(KNIGHT_MOVES@[10] == knight_moves(10));
    }
    if i == 11 {
        assert(KNIGHT_MOVES@[11] == knight_moves(11));
    }
    if i == 12 {
        assert(KNIGHT_MOVES@[12] == knight_moves(12));
    }
    if i == 13 {
        assert(KNIGHT_MOVES@[13] == knight_moves(13));
    }
    if i == 14 {
        assert(KNIGHT_MOVES@[14] == knight_moves(14));
    }
    if i == 15 {
        assert(KNIGHT_MOVES@[15] == knight_moves(15));
    }
    if i == 16 {
        assert(KNIGHT_MOVES@[16] == knight_moves(16));
    }
    if i == 17 {
        assert(KNIGHT_MOVES@[17] == knight_moves(17));
    }
    if i == 18 {
        assert(KNIGHT_MOVES@[18] == knight_moves(18));
    }
    if i == 19 {
        assert(KNIGHT_MOVES@[19] == knight_moves(19));
    }
    if i == 20 {
        assert(KNIGHT_MOVES@[20] == knight_moves(20));
    }
    if i == 21 {
        assert(KNIGHT_MOVES@[21] == knight_moves(21));
    }
    if i == 22 {
        assert(KNIGHT_MOVES@[22] == knight_moves(22));
    }
    if i == 23 {
        assert(KNIGHT_MOVES@[23] == knight_moves(23));
    }
    if i == 24 {
        assert(KNIGHT_MOVES@[24] == knight_moves(24));
    }
    if i == 25 {
        assert(KNIGHT_MOVES@[25] == knight_moves(25));
    }
    if i == 26 {
        assert(KNIGHT_MOVES@[26] == knight_moves(26));
    }
    if i == 27 {
        assert(KNIGHT_MOVES@[27] == knight_moves(27));
    }
    if i == 28 {
        assert(KNIGHT_MOVES@[28] == knight_moves(28));
    }
    if i == 29 {
        assert(KNIGHT_MOVES@[29] == knight_moves(29));
    }
    if i == 30 {
        assert(KNIGHT_MOVES@[30] == knight_moves(30));
    }
    if i == 31 {
        assert(KNIGHT_MOVES@[31] == knight_moves(31));
    }
    if i == 32 {
        assert(KNIGHT_MOVES@[32] == knight_moves(32));
    }
    if i == 33 {
        assert(KNIGHT_MOVES@[33] == knight_moves(33));
    }
    if i == 34 {
        assert(KNIGHT_MOVES@[34] == knight_moves(34));
    }
    if i == 35 {
        assert(KNIGHT_MOVES@[35] == knight_moves(35));
    }
    if i == 36 {
        assert(KNIGHT_MOVES@[36] == knight_moves(36));
    }
    if i == 37 {
        assert(KNIGHT_MOVES@[37] == knight_moves(37));
    }
    if i == 38 {
        assert(KNIGHT_MOVES@[38] == knight_moves(38));
    }
    if i == 39 {
        assert(KNIGHT_MOVES@[39] == knight_moves(39));
    }
    if i == 40 {
        assert(KNIGHT_MOVES@[40] == knight_moves(40));
    }
    if i == 41 {
        assert(KNIGHT_MOVES@[41] == knight_moves(41));
    }
    if i == 42 {
        assert(KNIGHT_MOVES@[42] == knight_moves(42));
    }
    if i == 43 {
        assert(KNIGHT_MOVES@[43] == knight_moves(43));
    }
    if i == 44 {
        assert(KNIGHT_MOVES@[44] == knight_moves(44));
    }
    if i == 45 {
        assert(KNIGHT_MOVES@[45] == knight_moves(45));
    }
    if i == 46 {
        assert(KNIGHT_MOVES@[46] == knight_moves(46));
    }
    if i == 47 {
        assert(KNIGHT_MOVES@[47] == knight_moves(47));
    }
    if i == 48 {
        assert(KNIGHT_MOVES@[48] == knight_moves(48));
    }
    if i == 49 {
        assert(KNIGHT_MOVES@[49] == knight_moves(49));
    }
    if i == 50 {
        assert(KNIGHT_MOVES@[50] == knight_moves(50));
    }
    if i == 51 {
        assert(KNIGHT_MOVES@[51] == knight_moves(51));
    }
    if i == 52 {
        assert(KNIGHT_MOVES@[52] == knight_moves(52));
    }
    if i == 53 {
        assert(KNIGHT_MOVES@[53] == knight_moves(53));
    }
    if i == 54 {
        assert(KNIGHT_MOVES@[54] == knight_moves(54));
    }
    if i == 55 {
        assert(KNIGHT_MOVES@[55] == knight_moves(55));
    }
    if i == 56 {
        assert(KNIGHT_MOVES@[56] == knight_moves(56));
    }
    if i == 57 {
        assert(KNIGHT_MOVES@[57] == knight_moves(57));
    }
    if i == 58 {
        assert(KNIGHT_MOVES@[58] == knight_moves(58));
    }
    if i == 59 {
        assert(KNIGHT_MOVES@[59] == knight_moves(59));
    }
    if i == 60 {
        assert(KNIGHT_MOVES@[60] == knight_moves(60));
    }
    if i == 61 {
        assert(KNIGHT_MOVES@[61] == knight_moves(61));
    }
    if i == 62 {
        assert(KNIGHT_MOVES@[62] == knight_moves(62));
    }
    if i == 63 {
        assert(KNIGHT_MOVES@[63] == knight_moves(63));
    }
}

/// Each entry of the king table is the king's attack set of its square.
pub proof fn lemma_king_table(i: int)
    requires
        0 <= i < 64,
    ensures
        KING_MOVES@[i] == king_moves(i),
{
    assert(KING_MOVES@[0] == king_moves(0) && KING_MOVES@[1] == king_moves(1) && KING_MOVES@[2] == king_moves(2) && KING_MOVES@[3] == king_moves(3) && KING_MOVES@[4] == king_moves(4) && KING_MOVES@[5] == king_moves(5) && KING_MOVES@[6] == king_moves(6) && KING_MOVES@[7] == king_moves(7) && KING_MOVES@[8] == king_moves(8) && KING_MOVES@[9] == king_moves(9) && KING_MOVES@[10] == king_moves(10) && KING_MOVES@[11] == king_moves(11) && KING_MOVES@[12] == king_moves(12) && KING_MOVES@[13] == king_moves(13) && KING_MOVES@[14] == king_moves(14) && KING_MOVES@[15] == king_moves(15) && KING_MOVES@[16] == king_moves(16) && KING_MOVES@[17] == king_moves(17) && KING_MOVES@[18] == king_moves(18) && KING_MOVES@[19] == king_moves(19) && KING_MOVES@[20] == king_moves(20) && KING_MOVES@[21] == king_moves(21) && KING_MOVES@[22] == king_moves(22) && KING_MOVES@[23] == king_moves(23) && KING_MOVES@[24] == king_moves(24) && KING_MOVES@[25] == king_moves(25) && KING_MOVES@[26] == king_moves(26) && KING_MOVES@[27] == king_moves(27) && KING_MOVES@[28] == king_moves(28) && KING_MOVES@[29] == king_moves(29) && KING_MOVES@[30] == king_moves(30) && KING_MOVES@[31] == king_moves(31) && KING_MOVES@[32] == king_moves(32) && KING_MOVES@[33] == king_moves(33) && KING_MOVES@[34] == king_moves(34) && KING_MOVES@[35] == king_moves(35) && KING_MOVES@[36] == king_moves(36) && KING_MOVES@[37] == king_moves(37) && KING_MOVES@[38] == king_moves(38) && KING_MOVES@[39] == king_moves(39) && KING_MOVES@[40] == king_moves(40) && KING_MOVES@[41] == king_moves(41) && KING_MOVES@[42] == king_moves(42) && KING_MOVES@[43] == king_moves(43) && KING_MOVES@[44] == king_moves(44) && KING_MOVES@[45] == king_moves(45) && KING_MOVES@[46] == king_moves(46) && KING_MOVES@[47] == king_moves(47) && KING_MOVES@[48] == king_moves(48) && KING_MOVES@[49] == king_moves(49) && KING_MOVES@[50] == king_moves(50) && KING_MOVES@[51] == king_moves(51) && KING_MOVES@[52] == king_moves(52) && KING_MOVES@[53] == king_moves(53) && KING_MOVES@[54] == king_moves(54) && KING_MOVES@[55] == king_moves(55) && KING_MOVES@[56] == king_moves(56) && KING_MOVES@[57] == king_moves(57) && KING_MOVES@[58] == king_moves(58) && KING_MOVES@[59] == king_moves(59) && KING_MOVES@[60] == king_moves(60) && KING_MOVES@[61] == king_moves(61) && KING_MOVES@[62] == king_moves(62) && KING_MOVES@[63] == king_moves(63)) by (bit_vector);
    if i == 0 {
        assert(KING_MOVES@[0] == king_moves(0));
    }
    if i == 1 {
        assert(KING_MOVES@[1] == king_moves(1));
    }
    if i == 2 {
        assert(KING_MOVES@[2] == king_moves(2));
    }
    if i == 3 {
        assert(KING_MOVES@[3] == king_moves(3));
    }
    if i == 4 {
        assert(KING_MOVES@[4] == king_moves(4));
    }
    if i == 5 {
        assert(KING_MOVES@[5] == king_moves(5));
    }
    if i == 6 {
        assert(KING_MOVES@[6] == king_moves(6));
    }
    if i == 7 {
        assert(KING_MOVES@[7] == king_moves(7));
    }
    if i == 8 {
        assert(KING_MOVES@[8] == king_moves(8));
    }
    if i == 9 {
        assert(KING_MOVES@[9] == king_moves(9));
    }
    if i == 10 {
        assert(KING_MOVES@[10] == king_moves(10));
    }
    if i == 11 {
        assert(KING_MOVES@[11] == king_moves(11));
    }
    if i == 12 {
        assert(KING_MOVES@[12] == king_moves(12));
    }
    if i == 13 {
        assert(KING_MOVES@[13] == king_moves(13));
    }
    if i == 14 {
        assert(KING_MOVES@[14] == king_moves(14));
    }
    if i == 15 {
        assert(KING_MOVES@[15] == king_moves(15));
    }
    if i == 16 {
        assert(KING_MOVES@[16] == king_moves(16));
    }
    if i == 17 {
        assert(KING_MOVES@[17] == king_moves(17));
    }
    if i == 18 {
        assert(KING_MOVES@[18] == king_moves(18));
    }
    if i == 19 {
        assert(KING_MOVES@[19] == king_moves(19));
    }
    if i == 20 {
        assert(KING_MOVES@[20] == king_moves(20));
    }
    if i == 21 {
        assert(KING_MOVES@[21] == king_moves(21));
    }
    if i == 22 {
        assert(KING_MOVES@[22] == king_moves(22));
    }
    if i == 23 {
        assert(KING_MOVES@[23] == king_moves(23));
    }
    if i == 24 {
        assert(KING_MOVES@[24] == king_moves(24));
    }
    if i == 25 {
        assert(KING_MOVES@[25] == king_moves(25));
    }
    if i == 26 {
        assert(KING_MOVES@[26] == king_moves(26));
    }
    if i == 27 {
        assert(KING_MOVES@[27] == king_moves(27));
    }
    if i == 28 {
        assert(KING_MOVES@[28] == king_moves(28));
    }
    if i == 29 {
        assert(KING_MOVES@[29] == king_moves(29));
    }
    if i == 30 {
        assert(KING_MOVES@[30] == king_moves(30));
    }
    if i == 31 {
        assert(KING_MOVES@[31] == king_moves(31));
    }
    if i == 32 {
        assert(KING_MOVES@[32] == king_moves(32));
    }
    if i == 33 {
        assert(KING_MOVES@[33] == king_moves(33));
    }
    if i == 34 {
        assert(KING_MOVES@[34] == king_moves(34));
    }
    if i == 35 {
        assert(KING_MOVES@[35] == king_moves(35));
    }
    if i == 36 {
        assert(KING_MOVES@[36] == king_moves(36));
    }
    if i == 37 {
        assert(KING_MOVES@[37] == king_moves(37));
    }
    if i == 38 {
        assert(KING_MOVES@[38] == king_moves(38));
    }
    if i == 39 {
        assert(KING_MOVES@[39] == king_moves(39));
    }
    if i == 40 {
        assert(KING_MOVES@[40] == king_moves(40));
    }
    if i == 41 {
        assert(KING_MOVES@[41] == king_moves(41));
    }
    if i == 42 {
        assert(KING_MOVES@[42] == king_moves(42));
    }
    if i == 43 {
        assert(KING_MOVES@[43] == king_moves(43));
    }
    if i == 44 {
        assert(KING_MOVES@[44] == king_moves(44));
    }
    if i == 45 {
        assert(KING_MOVES@[45] == king_moves(45));
    }
    if i == 46 {
        assert(KING_MOVES@[46] == king_moves(46));
    }
    if i == 47 {
        assert(KING_MOVES@[47] == king_moves(47));
    }
    if i == 48 {
        assert(KING_MOVES@[48] == king_moves(48));
    }
    if i == 49 {
        assert(KING_MOVES@[49] == king_moves(49));
    }
    if i == 50 {
        assert(KING_MOVES@[50] == king_moves(50));
    }
    if i == 51 {
        assert(KING_MOVES@[51] == king_moves(51));
    }
    if i == 52 {
        assert(KING_MOVES@[52] == king_moves(52));
    }
    if i == 53 {
        assert(KING_MOVES@[53] == king_moves(53));
    }
    if i == 54 {
        assert(KING_MOVES@[54] == king_moves(54));
    }
    if i == 55 {
        assert(KING_MOVES@[55] == king_moves(55));
    }
    if i == 56 {
        assert(KING_MOVES@[56] == king_moves(56));
    }
    if i == 57 {
        assert(KING_MOVES@[57] == king_moves(57));
    }
    if i == 58 {
        assert(KING_MOVES@[58] == king_moves(58));
    }
    if i == 59 {
        assert(KING_MOVES@[59] == king_moves(59));
    }
    if i == 60 {
        assert(KING_MOVES@[60] == king_moves(60));
    }
    if i == 61 {
        assert(KING_MOVES@[61] == king_moves(61));
    }
    if i == 62 {
        assert(KING_MOVES@[62] == king_moves(62));
    }
    if i == 63 {
        assert(KING_MOVES@[63] == king_moves(63));
    }
}

/// The squares a knight on `square` attacks, from the table.
pub fn knight_attacks(square: Square) -> (r: BitBoard)
    requires
        square.wf(),
    ensures
        r.0 == knight_moves(square.0 as int),
{
    proof {
        lemma_knight_table(square.0 as int);
    }
    BitBoard(KNIGHT_MOVES[square.0 as usize])
}

/// The squares a king on `square` attacks, from the table.
pub fn king_attacks(square: Square) -> (r: BitBoard)
    requires
        square.wf(),
    ensures
        r.0 == king_moves(square.0 as int),
{
    proof {
        lemma_king_table(square.0 as int);
    }
    BitBoard(KING_MOVES[square.0 as usize])
}

/// The squares a knight on `square` attacks.
pub fn gen_knight_moves(square: usize) -> (r: BitBoard)
    requires
        square < 64,
    ensures
        r.0 == knight_moves(square as int),
{
    let piece = BitBoard(1u64 << square);
    BitBoard(
        piece.move_up(1).move_up_right().0 | piece.move_up(1).move_up_left().0
            | piece.move_left().move_up_left().0 | piece.move_left().move_down_left().0
            | piece.move_down(1).move_down_left().0 | piece.move_down(1).move_down_right().0
            | piece.move_right().move_down_right().0 | piece.move_right().move_up_right().0,
    )
}

/// The squares a king on `square` attacks.
pub fn gen_king_moves(square: usize) -> (r: BitBoard)
    requires
        square < 64,
    ensures
        r.0 == king_moves(square as int),
{
    let piece = BitBoard(1u64 << square);
    let middle = BitBoard(piece.move_left().0 | piece.move_right().0);
    let horizontal = BitBoard(middle.0 | piece.0);
    BitBoard(horizontal.move_up(1).0 | middle.0 | horizontal.move_down(1).0)
}

} // verus!
