//! Sliding attacks in the eight directions, computed for whole sets of
//! sliders at once by parallel-prefix occluded fills.
use vstd::prelude::*;
use crate::bitboard::{BitBoard, lemma_board_masks, NOT_A_FILE, NOT_H_FILE};
use crate::bits::{bit, lemma_bit_and, lemma_bit_or, lemma_bit_shl, lemma_bit_shr};
use crate::rays::{
    lemma_ray, ray_down, ray_down_left, ray_down_right, ray_left, ray_right, ray_up, ray_up_left,
    ray_up_right,
};

verus! {

/// The eight directions a slider moves in, seen from White's side of the board.
#[derive(Clone, Copy, Debug, PartialEq, Eq, Structural)]
pub enum Direction {
    Up,
    Down,
    Right,
    Left,
    UpRight,
    DownRight,
    UpLeft,
    DownLeft,
}

/// Every square of `x` moved one step in direction `d`; squares that would
/// leave the board, or wrap round its edge, are dropped.
pub open spec fn step(x: u64, d: Direction) -> u64 {
    match d {
        Direction::Up => x << 8,
        Direction::Down => x >> 8,
        Direction::Right => (x << 1) & NOT_A_FILE,
        Direction::Left => (x >> 1) & NOT_H_FILE,
        Direction::UpRight => (x << 9) & NOT_A_FILE,
        Direction::DownRight => (x >> 7) & NOT_A_FILE,
        Direction::UpLeft => (x << 7) & NOT_H_FILE,
        Direction::DownLeft => (x >> 9) & NOT_H_FILE,
    }
}

/// The squares that sliders on `pieces` reach in direction `d` with at most
/// `n` steps, each step onto a square of `empty`. The sliders' own squares
/// are part of it.
pub open spec fn reach(pieces: u64, empty: u64, d: Direction, n: nat) -> u64
    decreases n,
{
    if n == 0 {
        pieces
    } else {
        let r = reach(pieces, empty, d, (n - 1) as nat);
        r | (step(r, d) & empty)
    }
}

/// The squares that sliders on `pieces` attack in direction `d`: one step
/// beyond every square they reach through `empty`. A ray ends on the first
/// square that is not empty, and that square is attacked.
pub open spec fn slide(pieces: u64, empty: u64, d: Direction) -> u64 {
    step(reach(pieces, empty, d, 6), d)
}

impl Direction {
    /// How many files to the right one step in the direction goes.
    pub open spec fn file_step(self) -> int {
        match self {
            Direction::Up | Direction::Down => 0,
            Direction::Right | Direction::UpRight | Direction::DownRight => 1,
            Direction::Left | Direction::UpLeft | Direction::DownLeft => -1,
        }
    }

    /// How many ranks up one step in the direction goes.
    pub open spec fn rank_step(self) -> int {
        match self {
            Direction::Right | Direction::Left => 0,
            Direction::Up | Direction::UpRight | Direction::UpLeft => 1,
            Direction::Down | Direction::DownRight | Direction::DownLeft => -1,
        }
    }
}

/// The square from which one step in direction `d` leads to square `t`, if
/// there is one on the board.
pub open spec fn before(t: int, d: Direction) -> Option<int> {
    let file = t % 8 - d.file_step();
    let rank = t / 8 - d.rank_step();
    if 0 <= t < 64 && 0 <= file < 8 && 0 <= rank < 8 {
        Some(8 * rank + file)
    } else {
        None
    }
}

/// A slider reaches square `u` in direction `d` with at most `n` steps
/// through `empty`: a slider stands on `u`, or `u` is empty and a slider
/// reaches the square before it with at most `n - 1` steps.
pub open spec fn reached(pieces: u64, empty: u64, d: Direction, u: int, n: nat) -> bool
    decreases n,
{
    bit(pieces, u) || (n > 0 && bit(empty, u) && before(u, d) is Some && reached(
        pieces,
        empty,
        d,
        before(u, d)->0,
        (n - 1) as nat,
    ))
}

/// A square is in a set stepped in direction `d` when the square before it
/// is in the set.
pub proof fn lemma_step(x: u64, d: Direction, t: int)
    requires
        0 <= t < 64,
    ensures
        bit(step(x, d), t) == (before(t, d) is Some && bit(x, before(t, d)->0)),
{
    lemma_board_masks(t);
    match d {
        Direction::Up => {
            lemma_bit_shl(x, 8, t);
        },
        Direction::Down => {
            lemma_bit_shr(x, 8, t);
        },
        Direction::Right => {
            lemma_bit_and(x << 1, NOT_A_FILE, t);
            lemma_bit_shl(x, 1, t);
        },
        Direction::Left => {
            lemma_bit_and(x >> 1, NOT_H_FILE, t);
            lemma_bit_shr(x, 1, t);
        },
        Direction::UpRight => {
            lemma_bit_and(x << 9, NOT_A_FILE, t);
            lemma_bit_shl(x, 9, t);
        },
        Direction::DownRight => {
            lemma_bit_and(x >> 7, NOT_A_FILE, t);
            lemma_bit_shr(x, 7, t);
        },
        Direction::UpLeft => {
            lemma_bit_and(x << 7, NOT_H_FILE, t);
            lemma_bit_shl(x, 7, t);
        },
        Direction::DownLeft => {
            lemma_bit_and(x >> 9, NOT_H_FILE, t);
            lemma_bit_shr(x, 9, t);
        },
    }
}

/// What is reached with fewer steps is reached with more.
proof fn lemma_reached_grows(pieces: u64, empty: u64, d: Direction, u: int, n: nat)
    requires
        reached(pieces, empty, d, u, n),
    ensures
        reached(pieces, empty, d, u, n + 1),
    decreases n,
{
    if !bit(pieces, u) {
        lemma_reached_grows(pieces, empty, d, before(u, d)->0, (n - 1) as nat);
    }
}

/// The squares of `reach` are the squares that a slider reaches.
pub proof fn lemma_reach(pieces: u64, empty: u64, d: Direction, n: nat, u: int)
    requires
        0 <= u < 64,
    ensures
        bit(reach(pieces, empty, d, n), u) == reached(pieces, empty, d, u, n),
    decreases n,
{
    if n > 0 {
        let r = reach(pieces, empty, d, (n - 1) as nat);
        lemma_reach(pieces, empty, d, (n - 1) as nat, u);
        lemma_bit_or(r, step(r, d) & empty, u);
        lemma_bit_and(step(r, d), empty, u);
        lemma_step(r, d, u);
        if before(u, d) is Some {
            lemma_reach(pieces, empty, d, (n - 1) as nat, before(u, d)->0);
        }
        if reached(pieces, empty, d, u, (n - 1) as nat) {
            lemma_reached_grows(pieces, empty, d, u, (n - 1) as nat);
        }
    }
}

/// A square is attacked in direction `d` exactly when a slider reaches the
/// square before it: when walking back from the square against `d` one
/// meets a slider after empty squares only, without leaving the board.
pub proof fn lemma_slide(pieces: u64, empty: u64, d: Direction, t: int)
    requires
        0 <= t < 64,
    ensures
        bit(slide(pieces, empty, d), t) == (before(t, d) is Some && reached(
            pieces,
            empty,
            d,
            before(t, d)->0,
            6,
        )),
{
    lemma_step(reach(pieces, empty, d, 6), d, t);
    if before(t, d) is Some {
        lemma_reach(pieces, empty, d, 6, before(t, d)->0);
    }
}

/// The fill in three doubling steps up is the fill step by step.
proof fn lemma_fill_up(p: u64, e: u64)
    ensures
        ({
            let e0 = e;
            let p1 = p | (e0 & (p << 8));
            let e1 = e0 & (e0 << 8);
            let p2 = p1 | (e1 & (p1 << 16));
            let e2 = e1 & (e1 << 16);
            let p3 = p2 | (e2 & (p2 << 32));
            p3 << 8
        }) == slide(p, e, Direction::Up),
{
    lemma_ray(p, e, Direction::Up);
    assert(({
        let e0 = e;
        let p1 = p | (e0 & (p << 8));
        let e1 = e0 & (e0 << 8);
        let p2 = p1 | (e1 & (p1 << 16));
        let e2 = e1 & (e1 << 16);
        let p3 = p2 | (e2 & (p2 << 32));
        p3 << 8
    }) == ray_up(p, e)) by (bit_vector);
}

/// The fill in three doubling steps down is the fill step by step.
proof fn lemma_fill_down(p: u64, e: u64)
    ensures
        ({
            let e0 = e;
            let p1 = p | (e0 & (p >> 8));
            let e1 = e0 & (e0 >> 8);
            let p2 = p1 | (e1 & (p1 >> 16));
            let e2 = e1 & (e1 >> 16);
            let p3 = p2 | (e2 & (p2 >> 32));
            p3 >> 8
        }) == slide(p, e, Direction::Down),
{
    lemma_ray(p, e, Direction::Down);
    assert(({
        let e0 = e;
        let p1 = p | (e0 & (p >> 8));
        let e1 = e0 & (e0 >> 8);
        let p2 = p1 | (e1 & (p1 >> 16));
        let e2 = e1 & (e1 >> 16);
        let p3 = p2 | (e2 & (p2 >> 32));
        p3 >> 8
    }) == ray_down(p, e)) by (bit_vector);
}

/// The fill in three doubling steps right is the fill step by step.
proof fn lemma_fill_right(p: u64, e: u64)
    ensures
        ({
            let e0 = e & NOT_A_FILE;
            let p1 = p | (e0 & (p << 1));
            let e1 = e0 & (e0 << 1);
            let p2 = p1 | (e1 & (p1 << 2));
            let e2 = e1 & (e1 << 2);
            let p3 = p2 | (e2 & (p2 << 4));
            (p3 << 1) & NOT_A_FILE
        }) == slide(p, e, Direction::Right),
{
    lemma_ray(p, e, Direction::Right);
    assert(({
        let e0 = e & NOT_A_FILE;
        let p1 = p | (e0 & (p << 1));
        let e1 = e0 & (e0 << 1);
        let p2 = p1 | (e1 & (p1 << 2));
        let e2 = e1 & (e1 << 2);
        let p3 = p2 | (e2 & (p2 << 4));
        (p3 << 1) & NOT_A_FILE
    }) == ray_right(p, e)) by (bit_vector);
}

/// The fill in three doubling steps left is the fill step by step.
proof fn lemma_fill_left(p: u64, e: u64)
    ensures
        ({
            let e0 = e & NOT_H_FILE;
            let p1 = p | (e0 & (p >> 1));
            let e1 = e0 & (e0 >> 1);
            let p2 = p1 | (e1 & (p1 >> 2));
            let e2 = e1 & (e1 >> 2);
            let p3 = p2 | (e2 & (p2 >> 4));
            (p3 >> 1) & NOT_H_FILE
        }) == slide(p, e, Direction::Left),
{
    lemma_ray(p, e, Direction::Left);
    assert(({
        let e0 = e & NOT_H_FILE;
        let p1 = p | (e0 & (p >> 1));
        let e1 = e0 & (e0 >> 1);
        let p2 = p1 | (e1 & (p1 >> 2));
        let e2 = e1 & (e1 >> 2);
        let p3 = p2 | (e2 & (p2 >> 4));
        (p3 >> 1) & NOT_H_FILE
    }) == ray_left(p, e)) by (bit_vector);
}

/// The fill in three doubling steps up right is the fill step by step.
proof fn lemma_fill_up_right(p: u64, e: u64)
    ensures
        ({
            let e0 = e & NOT_A_FILE;
            let p1 = p | (e0 & (p << 9));
            let e1 = e0 & (e0 << 9);
            let p2 = p1 | (e1 & (p1 << 18));
            let e2 = e1 & (e1 << 18);
            let p3 = p2 | (e2 & (p2 << 36));
            (p3 << 9) & NOT_A_FILE
        }) == slide(p, e, Direction::UpRight),
{
    lemma_ray(p, e, Direction::UpRight);
    assert(({
        let e0 = e & NOT_A_FILE;
        let p1 = p | (e0 & (p << 9));
        let e1 = e0 & (e0 << 9);
        let p2 = p1 | (e1 & (p1 << 18));
        let e2 = e1 & (e1 << 18);
        let p3 = p2 | (e2 & (p2 << 36));
        (p3 << 9) & NOT_A_FILE
    }) == ray_up_right(p, e)) by (bit_vector);
}

/// The fill in three doubling steps down right is the fill step by step.
proof fn lemma_fill_down_right(p: u64, e: u64)
    ensures
        ({
            let e0 = e & NOT_A_FILE;
            let p1 = p | (e0 & (p >> 7));
            let e1 = e0 & (e0 >> 7);
            let p2 = p1 | (e1 & (p1 >> 14));
            let e2 = e1 & (e1 >> 14);
            let p3 = p2 | (e2 & (p2 >> 28));
            (p3 >> 7) & NOT_A_FILE
        }) == slide(p, e, Direction::DownRight),
{
    lemma_ray(p, e, Direction::DownRight);
    assert(({
        let e0 = e & NOT_A_FILE;
        let p1 = p | (e0 & (p >> 7));
        let e1 = e0 & (e0 >> 7);
        let p2 = p1 | (e1 & (p1 >> 14));
        let e2 = e1 & (e1 >> 14);
        let p3 = p2 | (e2 & (p2 >> 28));
        (p3 >> 7) & NOT_A_FILE
    }) == ray_down_right(p, e)) by (bit_vector);
}

/// The fill in three doubling steps up left is the fill step by step.
proof fn lemma_fill_up_left(p: u64, e: u64)
    ensures
        ({
            let e0 = e & NOT_H_FILE;
            let p1 = p | (e0 & (p << 7));
            let e1 = e0 & (e0 << 7);
            let p2 = p1 | (e1 & (p1 << 14));
            let e2 = e1 & (e1 << 14);
            let p3 = p2 | (e2 & (p2 << 28));
            (p3 << 7) & NOT_H_FILE
        }) == slide(p, e, Direction::UpLeft),
{
    lemma_ray(p, e, Direction::UpLeft);
    assert(({
        let e0 = e & NOT_H_FILE;
        let p1 = p | (e0 & (p << 7));
        let e1 = e0 & (e0 << 7);
        let p2 = p1 | (e1 & (p1 << 14));
        let e2 = e1 & (e1 << 14);
        let p3 = p2 | (e2 & (p2 << 28));
        (p3 << 7) & NOT_H_FILE
    }) == ray_up_left(p, e)) by (bit_vector);
}

/// The fill in three doubling steps down left is the fill step by step.
proof fn lemma_fill_down_left(p: u64, e: u64)
    ensures
        ({
            let e0 = e & NOT_H_FILE;
            let p1 = p | (e0 & (p >> 9));
            let e1 = e0 & (e0 >> 9);
            let p2 = p1 | (e1 & (p1 >> 18));
            let e2 = e1 & (e1 >> 18);
            let p3 = p2 | (e2 & (p2 >> 36));
            (p3 >> 9) & NOT_H_FILE
        }) == slide(p, e, Direction::DownLeft),
{
    lemma_ray(p, e, Direction::DownLeft);
    assert(({
        let e0 = e & NOT_H_FILE;
        let p1 = p | (e0 & (p >> 9));
        let e1 = e0 & (e0 >> 9);
        let p2 = p1 | (e1 & (p1 >> 18));
        let e2 = e1 & (e1 >> 18);
        let p3 = p2 | (e2 & (p2 >> 36));
        (p3 >> 9) & NOT_H_FILE
    }) == ray_down_left(p, e)) by (bit_vector);
}

/// The squares attacked towards the eighth rank by sliders on `pieces`, over the empty squares `empty`.
pub fn get_up_attacks(pieces: BitBoard, empty: BitBoard) -> (r: BitBoard)
    ensures
        r.0 == slide(pieces.0, empty.0, Direction::Up),
{
    let mut p: u64 = pieces.0;
    let mut e: u64 = empty.0;
    p |= e & (p << 8);
    e &= e << 8;
    p |= e & (p << 16);
    e &= e << 16;
    p |= e & (p << 32);
    proof {
        lemma_fill_up(pieces.0, empty.0);
    }
    BitBoard(p << 8)
}

/// The squares attacked towards the first rank by sliders on `pieces`, over the empty squares `empty`.
pub fn get_down_attacks(pieces: BitBoard, empty: BitBoard) -> (r: BitBoard)
    ensures
        r.0 == slide(pieces.0, empty.0, Direction::Down),
{
    let mut p: u64 = pieces.0;
    let mut e: u64 = empty.0;
    p |= e & (p >> 8);
    e &= e >> 8;
    p |= e & (p >> 16);
    e &= e >> 16;
    p |= e & (p >> 32);
    proof {
        lemma_fill_down(pieces.0, empty.0);
    }
    BitBoard(p >> 8)
}

/// The squares attacked towards the h-file by sliders on `pieces`, over the empty squares `empty`.
pub fn get_right_attacks(pieces: BitBoard, empty: BitBoard) -> (r: BitBoard)
    ensures
        r.0 == slide(pieces.0, empty.0, Direction::Right),
{
    let mut p: u64 = pieces.0;
    let mut e: u64 = empty.0 & NOT_A_FILE;
    p |= e & (p << 1);
    e &= e << 1;
    p |= e & (p << 2);
    e &= e << 2;
    p |= e & (p << 4);
    proof {
        lemma_fill_right(pieces.0, empty.0);
    }
    BitBoard((p << 1) & NOT_A_FILE)
}

/// The squares attacked towards the a-file by sliders on `pieces`, over the empty squares `empty`.
pub fn get_left_attacks(pieces: BitBoard, empty: BitBoard) -> (r: BitBoard)
    ensures
        r.0 == slide(pieces.0, empty.0, Direction::Left),
{
    let mut p: u64 = pieces.0;
    let mut e: u64 = empty.0 & NOT_H_FILE;
    p |= e & (p >> 1);
    e &= e >> 1;
    p |= e & (p >> 2);
    e &= e >> 2;
    p |= e & (p >> 4);
    proof {
        lemma_fill_left(pieces.0, empty.0);
    }
    BitBoard((p >> 1) & NOT_H_FILE)
}

/// The squares attacked towards h8 by sliders on `pieces`, over the empty squares `empty`.
pub fn get_up_right_attacks(pieces: BitBoard, empty: BitBoard) -> (r: BitBoard)
    ensures
        r.0 == slide(pieces.0, empty.0, Direction::UpRight),
{
    let mut p: u64 = pieces.0;
    let mut e: u64 = empty.0 & NOT_A_FILE;
    p |= e & (p << 9);
    e &= e << 9;
    p |= e & (p << 18);
    e &= e << 18;
    p |= e & (p << 36);
    proof {
        lemma_fill_up_right(pieces.0, empty.0);
    }
    BitBoard((p << 9) & NOT_A_FILE)
}

/// The squares attacked towards h1 by sliders on `pieces`, over the empty squares `empty`.
pub fn get_down_right_attacks(pieces: BitBoard, empty: BitBoard) -> (r: BitBoard)
    ensures
        r.0 == slide(pieces.0, empty.0, Direction::DownRight),
{
    let mut p: u64 = pieces.0;
    let mut e: u64 = empty.0 & NOT_A_FILE;
    p |= e & (p >> 7);
    e &= e >> 7;
    p |= e & (p >> 14);
    e &= e >> 14;
    p |= e & (p >> 28);
    proof {
        lemma_fill_down_right(pieces.0, empty.0);
    }
    BitBoard((p >> 7) & NOT_A_FILE)
}

/// The squares attacked towards a8 by sliders on `pieces`, over the empty squares `empty`.
pub fn get_up_left_attacks(pieces: BitBoard, empty: BitBoard) -> (r: BitBoard)
    ensures
        r.0 == slide(pieces.0, empty.0, Direction::UpLeft),
{
    let mut p: u64 = pieces.0;
    let mut e: u64 = empty.0 & NOT_H_FILE;
    p |= e & (p << 7);
    e &= e << 7;
    p |= e & (p << 14);
    e &= e << 14;
    p |= e & (p << 28);
    proof {
        lemma_fill_up_left(pieces.0, empty.0);
    }
    BitBoard((p << 7) & NOT_H_FILE)
}

/// The squares attacked towards a1 by sliders on `pieces`, over the empty squares `empty`.
pub fn get_down_left_attacks(pieces: BitBoard, empty: BitBoard) -> (r: BitBoard)
    ensures
        r.0 == slide(pieces.0, empty.0, Direction::DownLeft),
{
    let mut p: u64 = pieces.0;
    let mut e: u64 = empty.0 & NOT_H_FILE;
    p |= e & (p >> 9);
    e &= e >> 9;
    p |= e & (p >> 18);
    e &= e >> 18;
    p |= e & (p >> 36);
    proof {
        lemma_fill_down_left(pieces.0, empty.0);
    }
    BitBoard((p >> 9) & NOT_H_FILE)
}

} // verus!
