//! Rays written out step by step, and what holds of them on every board.
//!
//! The facts of this module are about whole boards at once. They are the
//! ground on which the legality of the generated moves is proved.
use vstd::prelude::*;
use crate::bitboard::{NOT_A_FILE, NOT_H_FILE};
use crate::bits::single;
use crate::slides::{Direction, reach, slide, step};

verus! {

/// One more step up through `e`.
pub open spec fn fill_up(r: u64, e: u64) -> u64 {
    r | ((r << 8) & e)
}

/// The squares attacked up from `p` through `e`, step by step.
pub open spec fn ray_up(p: u64, e: u64) -> u64 {
    step(fill_up(fill_up(fill_up(fill_up(fill_up(fill_up(p, e), e), e), e), e), e), Direction::Up)
}

/// One more step down through `e`.
pub open spec fn fill_down(r: u64, e: u64) -> u64 {
    r | ((r >> 8) & e)
}

/// The squares attacked down from `p` through `e`, step by step.
pub open spec fn ray_down(p: u64, e: u64) -> u64 {
    step(fill_down(fill_down(fill_down(fill_down(fill_down(fill_down(p, e), e), e), e), e), e), Direction::Down)
}

/// One more step right through `e`.
pub open spec fn fill_right(r: u64, e: u64) -> u64 {
    r | (((r << 1) & NOT_A_FILE) & e)
}

/// The squares attacked right from `p` through `e`, step by step.
pub open spec fn ray_right(p: u64, e: u64) -> u64 {
    step(fill_right(fill_right(fill_right(fill_right(fill_right(fill_right(p, e), e), e), e), e), e), Direction::Right)
}

/// One more step left through `e`.
pub open spec fn fill_left(r: u64, e: u64) -> u64 {
    r | (((r >> 1) & NOT_H_FILE) & e)
}

/// The squares attacked left from `p` through `e`, step by step.
pub open spec fn ray_left(p: u64, e: u64) -> u64 {
    step(fill_left(fill_left(fill_left(fill_left(fill_left(fill_left(p, e), e), e), e), e), e), Direction::Left)
}

/// One more step up right through `e`.
pub open spec fn fill_up_right(r: u64, e: u64) -> u64 {
    r | (((r << 9) & NOT_A_FILE) & e)
}

/// The squares attacked up right from `p` through `e`, step by step.
pub open spec fn ray_up_right(p: u64, e: u64) -> u64 {
    step(fill_up_right(fill_up_right(fill_up_right(fill_up_right(fill_up_right(fill_up_right(p, e), e), e), e), e), e), Direction::UpRight)
}

/// One more step down left through `e`.
pub open spec fn fill_down_left(r: u64, e: u64) -> u64 {
    r | (((r >> 9) & NOT_H_FILE) & e)
}

/// The squares attacked down left from `p` through `e`, step by step.
pub open spec fn ray_down_left(p: u64, e: u64) -> u64 {
    step(fill_down_left(fill_down_left(fill_down_left(fill_down_left(fill_down_left(fill_down_left(p, e), e), e), e), e), e), Direction::DownLeft)
}

/// One more step up left through `e`.
pub open spec fn fill_up_left(r: u64, e: u64) -> u64 {
    r | (((r << 7) & NOT_H_FILE) & e)
}

/// The squares attacked up left from `p` through `e`, step by step.
pub open spec fn ray_up_left(p: u64, e: u64) -> u64 {
    step(fill_up_left(fill_up_left(fill_up_left(fill_up_left(fill_up_left(fill_up_left(p, e), e), e), e), e), e), Direction::UpLeft)
}

/// One more step down right through `e`.
pub open spec fn fill_down_right(r: u64, e: u64) -> u64 {
    r | (((r >> 7) & NOT_A_FILE) & e)
}

/// The squares attacked down right from `p` through `e`, step by step.
pub open spec fn ray_down_right(p: u64, e: u64) -> u64 {
    step(fill_down_right(fill_down_right(fill_down_right(fill_down_right(fill_down_right(fill_down_right(p, e), e), e), e), e), e), Direction::DownRight)
}

/// The squares attacked in direction `d` from `p` through `e`, step by step.
pub open spec fn ray(p: u64, e: u64, d: Direction) -> u64 {
    match d {
        Direction::Up => ray_up(p, e),
        Direction::Down => ray_down(p, e),
        Direction::Right => ray_right(p, e),
        Direction::Left => ray_left(p, e),
        Direction::UpRight => ray_up_right(p, e),
        Direction::DownLeft => ray_down_left(p, e),
        Direction::UpLeft => ray_up_left(p, e),
        Direction::DownRight => ray_down_right(p, e),
    }
}

/// The rays written out are the sliding attacks.
pub proof fn lemma_ray(p: u64, e: u64, d: Direction)
    ensures
        slide(p, e, d) == ray(p, e, d),
{
    reveal_with_fuel(reach, 7);
}

/// The direction opposite to `d`.
pub open spec fn opposite(d: Direction) -> Direction {
    match d {
        Direction::Up => Direction::Down,
        Direction::Down => Direction::Up,
        Direction::Right => Direction::Left,
        Direction::Left => Direction::Right,
        Direction::UpRight => Direction::DownLeft,
        Direction::DownLeft => Direction::UpRight,
        Direction::UpLeft => Direction::DownRight,
        Direction::DownRight => Direction::UpLeft,
    }
}

/// The sliders of `a` attack a square of `b` in a direction exactly when
/// those of `b` attack a square of `a` in the opposite direction.
proof fn lemma_facing_all(a: u64, b: u64, e: u64)
    ensures
        ((ray_up(a, e) & b != 0) == (ray_down(b, e) & a != 0))
        && ((ray_down(a, e) & b != 0) == (ray_up(b, e) & a != 0))
        && ((ray_right(a, e) & b != 0) == (ray_left(b, e) & a != 0))
        && ((ray_left(a, e) & b != 0) == (ray_right(b, e) & a != 0))
        && ((ray_up_right(a, e) & b != 0) == (ray_down_left(b, e) & a != 0))
        && ((ray_down_left(a, e) & b != 0) == (ray_up_right(b, e) & a != 0))
        && ((ray_up_left(a, e) & b != 0) == (ray_down_right(b, e) & a != 0))
        && ((ray_down_right(a, e) & b != 0) == (ray_up_left(b, e) & a != 0)),
{
    assert(((ray_up(a, e) & b != 0) == (ray_down(b, e) & a != 0))
        && ((ray_down(a, e) & b != 0) == (ray_up(b, e) & a != 0))
        && ((ray_right(a, e) & b != 0) == (ray_left(b, e) & a != 0))
        && ((ray_left(a, e) & b != 0) == (ray_right(b, e) & a != 0))
        && ((ray_up_right(a, e) & b != 0) == (ray_down_left(b, e) & a != 0))
        && ((ray_down_left(a, e) & b != 0) == (ray_up_right(b, e) & a != 0))
        && ((ray_up_left(a, e) & b != 0) == (ray_down_right(b, e) & a != 0))
        && ((ray_down_right(a, e) & b != 0) == (ray_up_left(b, e) & a != 0))) by (bit_vector);
}

/// The sliders of `a` attack a square of `b` in direction `d` exactly when those of `b`
/// attack a square of `a` in the opposite direction.
pub proof fn lemma_facing(a: u64, b: u64, e: u64, d: Direction)
    ensures
        (slide(a, e, d) & b != 0) == (slide(b, e, opposite(d)) & a != 0),
{
    lemma_facing_all(a, b, e);
    lemma_ray(a, e, d);
    lemma_ray(b, e, opposite(d));
}

/// The king `k` of the side with the pieces `me` faces the side with the
/// pieces `you`, of which `c` are the sliders along one line and `sh` is a
/// pawn that rays pass through.
pub open spec fn facing(k: u64, me: u64, you: u64, c: u64, sh: u64) -> bool {
    single(k) && k & me == k && me & you == 0 && c & !you == 0 && sh & !you == 0 && sh & c == 0
}

/// A piece of `me` other than the king goes from `o` to `t`.
pub open spec fn leaves(k: u64, me: u64, o: u64, t: u64) -> bool {
    single(o) && o & me == o && o & k == 0 && single(t) && t & me == 0
}

/// What has been recorded of the ray `r` from the king: a ray that ends on
/// a slider and passes no pawn `sh` is the check mask `cm` if no piece of
/// `me` stands on it, and part of the pins `pl` if one does.
pub open spec fn recorded(r: u64, c: u64, sh: u64, me: u64, cm: u64, pl: u64) -> bool {
    ((r & c != 0 && r & sh == 0 && r & me == 0) ==> cm == r) && ((r & c != 0 && r & sh == 0
        && single(r & me)) ==> pl & r == r)
}

/// A pinned piece on the ray `r` stays on it.
pub open spec fn stays(r: u64, o: u64, t: u64, pl: u64) -> bool {
    (o & pl != 0 && o & r != 0) ==> t & r != 0
}

/// The squares that are empty after a piece of `me` has gone from `o` to
/// `t` and captured what stood there.
pub open spec fn empty_after(me: u64, you: u64, o: u64, t: u64) -> u64 {
    !((me ^ o ^ t) | (you & !t))
}

#[verifier::rlimit(100)]
proof fn lemma_shielded_all_straight(
    k: u64,
    me: u64,
    you: u64,
    c: u64,
    sh: u64,
    o: u64,
    t: u64,
    cm: u64,
    pl: u64,
)
    ensures
        ((facing(k, me, you, c, sh) && leaves(k, me, o, t) && t & cm == t && recorded(ray_up(k, !you | sh), c, sh, me, cm, pl) && stays(ray_up(k, !you | sh), o, t, pl)) ==> ray_up(k, empty_after(me, you, o, t)) & c & !t == 0)
        && ((facing(k, me, you, c, sh) && leaves(k, me, o, t) && t & cm == t && recorded(ray_down(k, !you | sh), c, sh, me, cm, pl) && stays(ray_down(k, !you | sh), o, t, pl)) ==> ray_down(k, empty_after(me, you, o, t)) & c & !t == 0)
        && ((facing(k, me, you, c, sh) && leaves(k, me, o, t) && t & cm == t && recorded(ray_right(k, !you | sh), c, sh, me, cm, pl) && stays(ray_right(k, !you | sh), o, t, pl)) ==> ray_right(k, empty_after(me, you, o, t)) & c & !t == 0)
        && ((facing(k, me, you, c, sh) && leaves(k, me, o, t) && t & cm == t && recorded(ray_left(k, !you | sh), c, sh, me, cm, pl) && stays(ray_left(k, !you | sh), o, t, pl)) ==> ray_left(k, empty_after(me, you, o, t)) & c & !t == 0),
{
    assert(((facing(k, me, you, c, sh) && leaves(k, me, o, t) && t & cm == t && recorded(ray_up(k, !you | sh), c, sh, me, cm, pl) && stays(ray_up(k, !you | sh), o, t, pl)) ==> ray_up(k, empty_after(me, you, o, t)) & c & !t == 0) && ((facing(k, me, you, c, sh) && leaves(k, me, o, t) && t & cm == t && recorded(ray_down(k, !you | sh), c, sh, me, cm, pl) && stays(ray_down(k, !you | sh), o, t, pl)) ==> ray_down(k, empty_after(me, you, o, t)) & c & !t == 0) && ((facing(k, me, you, c, sh) && leaves(k, me, o, t) && t & cm == t && recorded(ray_right(k, !you | sh), c, sh, me, cm, pl) && stays(ray_right(k, !you | sh), o, t, pl)) ==> ray_right(k, empty_after(me, you, o, t)) & c & !t == 0) && ((facing(k, me, you, c, sh) && leaves(k, me, o, t) && t & cm == t && recorded(ray_left(k, !you | sh), c, sh, me, cm, pl) && stays(ray_left(k, !you | sh), o, t, pl)) ==> ray_left(k, empty_after(me, you, o, t)) & c & !t == 0)) by (bit_vector);
}

#[verifier::rlimit(100)]
proof fn lemma_shielded_all_slanted(
    k: u64,
    me: u64,
    you: u64,
    c: u64,
    sh: u64,
    o: u64,
    t: u64,
    cm: u64,
    pl: u64,
)
    ensures
        ((facing(k, me, you, c, sh) && leaves(k, me, o, t) && t & cm == t && recorded(ray_up_right(k, !you | sh), c, sh, me, cm, pl) && stays(ray_up_right(k, !you | sh), o, t, pl)) ==> ray_up_right(k, empty_after(me, you, o, t)) & c & !t == 0)
        && ((facing(k, me, you, c, sh) && leaves(k, me, o, t) && t & cm == t && recorded(ray_down_left(k, !you | sh), c, sh, me, cm, pl) && stays(ray_down_left(k, !you | sh), o, t, pl)) ==> ray_down_left(k, empty_after(me, you, o, t)) & c & !t == 0)
        && ((facing(k, me, you, c, sh) && leaves(k, me, o, t) && t & cm == t && recorded(ray_up_left(k, !you | sh), c, sh, me, cm, pl) && stays(ray_up_left(k, !you | sh), o, t, pl)) ==> ray_up_left(k, empty_after(me, you, o, t)) & c & !t == 0)
        && ((facing(k, me, you, c, sh) && leaves(k, me, o, t) && t & cm == t && recorded(ray_down_right(k, !you | sh), c, sh, me, cm, pl) && stays(ray_down_right(k, !you | sh), o, t, pl)) ==> ray_down_right(k, empty_after(me, you, o, t)) & c & !t == 0),
{
    assert(((facing(k, me, you, c, sh) && leaves(k, me, o, t) && t & cm == t && recorded(ray_up_right(k, !you | sh), c, sh, me, cm, pl) && stays(ray_up_right(k, !you | sh), o, t, pl)) ==> ray_up_right(k, empty_after(me, you, o, t)) & c & !t == 0) && ((facing(k, me, you, c, sh) && leaves(k, me, o, t) && t & cm == t && recorded(ray_down_left(k, !you | sh), c, sh, me, cm, pl) && stays(ray_down_left(k, !you | sh), o, t, pl)) ==> ray_down_left(k, empty_after(me, you, o, t)) & c & !t == 0) && ((facing(k, me, you, c, sh) && leaves(k, me, o, t) && t & cm == t && recorded(ray_up_left(k, !you | sh), c, sh, me, cm, pl) && stays(ray_up_left(k, !you | sh), o, t, pl)) ==> ray_up_left(k, empty_after(me, you, o, t)) & c & !t == 0) && ((facing(k, me, you, c, sh) && leaves(k, me, o, t) && t & cm == t && recorded(ray_down_right(k, !you | sh), c, sh, me, cm, pl) && stays(ray_down_right(k, !you | sh), o, t, pl)) ==> ray_down_right(k, empty_after(me, you, o, t)) & c & !t == 0)) by (bit_vector);
}

proof fn lemma_shielded_all(
    k: u64,
    me: u64,
    you: u64,
    c: u64,
    sh: u64,
    o: u64,
    t: u64,
    cm: u64,
    pl: u64,
)
    ensures
        ((facing(k, me, you, c, sh) && leaves(k, me, o, t) && t & cm == t && recorded(ray_up(k, !you | sh), c, sh, me, cm, pl) && stays(ray_up(k, !you | sh), o, t, pl)) ==> ray_up(k, empty_after(me, you, o, t)) & c & !t == 0)
        && ((facing(k, me, you, c, sh) && leaves(k, me, o, t) && t & cm == t && recorded(ray_down(k, !you | sh), c, sh, me, cm, pl) && stays(ray_down(k, !you | sh), o, t, pl)) ==> ray_down(k, empty_after(me, you, o, t)) & c & !t == 0)
        && ((facing(k, me, you, c, sh) && leaves(k, me, o, t) && t & cm == t && recorded(ray_right(k, !you | sh), c, sh, me, cm, pl) && stays(ray_right(k, !you | sh), o, t, pl)) ==> ray_right(k, empty_after(me, you, o, t)) & c & !t == 0)
        && ((facing(k, me, you, c, sh) && leaves(k, me, o, t) && t & cm == t && recorded(ray_left(k, !you | sh), c, sh, me, cm, pl) && stays(ray_left(k, !you | sh), o, t, pl)) ==> ray_left(k, empty_after(me, you, o, t)) & c & !t == 0)
        && ((facing(k, me, you, c, sh) && leaves(k, me, o, t) && t & cm == t && recorded(ray_up_right(k, !you | sh), c, sh, me, cm, pl) && stays(ray_up_right(k, !you | sh), o, t, pl)) ==> ray_up_right(k, empty_after(me, you, o, t)) & c & !t == 0)
        && ((facing(k, me, you, c, sh) && leaves(k, me, o, t) && t & cm == t && recorded(ray_down_left(k, !you | sh), c, sh, me, cm, pl) && stays(ray_down_left(k, !you | sh), o, t, pl)) ==> ray_down_left(k, empty_after(me, you, o, t)) & c & !t == 0)
        && ((facing(k, me, you, c, sh) && leaves(k, me, o, t) && t & cm == t && recorded(ray_up_left(k, !you | sh), c, sh, me, cm, pl) && stays(ray_up_left(k, !you | sh), o, t, pl)) ==> ray_up_left(k, empty_after(me, you, o, t)) & c & !t == 0)
        && ((facing(k, me, you, c, sh) && leaves(k, me, o, t) && t & cm == t && recorded(ray_down_right(k, !you | sh), c, sh, me, cm, pl) && stays(ray_down_right(k, !you | sh), o, t, pl)) ==> ray_down_right(k, empty_after(me, you, o, t)) & c & !t == 0),
{
    lemma_shielded_all_straight(k, me, you, c, sh, o, t, cm, pl);
    lemma_shielded_all_slanted(k, me, you, c, sh, o, t, cm, pl);
}

/// After a move of a piece other than the king that stays within the check
/// mask and, where the piece is pinned, on the ray of its pin, no slider
/// of the other side meets the king's ray in direction `d`.
pub proof fn lemma_shielded(
    k: u64,
    me: u64,
    you: u64,
    c: u64,
    sh: u64,
    o: u64,
    t: u64,
    cm: u64,
    pl: u64,
    d: Direction,
)
    requires
        facing(k, me, you, c, sh),
        leaves(k, me, o, t),
        t & cm == t,
        recorded(slide(k, !you | sh, d), c, sh, me, cm, pl),
        stays(slide(k, !you | sh, d), o, t, pl),
    ensures
        slide(k, empty_after(me, you, o, t), d) & c & !t == 0,
{
    lemma_shielded_all(k, me, you, c, sh, o, t, cm, pl);
    lemma_ray(k, !you | sh, d);
    lemma_ray(k, empty_after(me, you, o, t), d);
}

proof fn lemma_apart_all(k: u64, e: u64)
    ensures
        single(k) ==> (ray_up(k, e) & ray_down(k, e) == 0 && ray_up(k, e) & ray_right(k, e) == 0 && ray_up(k, e) & ray_left(k, e) == 0 && ray_up(k, e) & ray_up_right(k, e) == 0 && ray_up(k, e) & ray_down_left(k, e) == 0 && ray_up(k, e) & ray_up_left(k, e) == 0 && ray_up(k, e) & ray_down_right(k, e) == 0 && ray_down(k, e) & ray_up(k, e) == 0 && ray_down(k, e) & ray_right(k, e) == 0 && ray_down(k, e) & ray_left(k, e) == 0 && ray_down(k, e) & ray_up_right(k, e) == 0 && ray_down(k, e) & ray_down_left(k, e) == 0 && ray_down(k, e) & ray_up_left(k, e) == 0 && ray_down(k, e) & ray_down_right(k, e) == 0 && ray_right(k, e) & ray_up(k, e) == 0 && ray_right(k, e) & ray_down(k, e) == 0 && ray_right(k, e) & ray_left(k, e) == 0 && ray_right(k, e) & ray_up_right(k, e) == 0 && ray_right(k, e) & ray_down_left(k, e) == 0 && ray_right(k, e) & ray_up_left(k, e) == 0 && ray_right(k, e) & ray_down_right(k, e) == 0 && ray_left(k, e) & ray_up(k, e) == 0 && ray_left(k, e) & ray_down(k, e) == 0 && ray_left(k, e) & ray_right(k, e) == 0 && ray_left(k, e) & ray_up_right(k, e) == 0 && ray_left(k, e) & ray_down_left(k, e) == 0 && ray_left(k, e) & ray_up_left(k, e) == 0 && ray_left(k, e) & ray_down_right(k, e) == 0 && ray_up_right(k, e) & ray_up(k, e) == 0 && ray_up_right(k, e) & ray_down(k, e) == 0 && ray_up_right(k, e) & ray_right(k, e) == 0 && ray_up_right(k, e) & ray_left(k, e) == 0 && ray_up_right(k, e) & ray_down_left(k, e) == 0 && ray_up_right(k, e) & ray_up_left(k, e) == 0 && ray_up_right(k, e) & ray_down_right(k, e) == 0 && ray_down_left(k, e) & ray_up(k, e) == 0 && ray_down_left(k, e) & ray_down(k, e) == 0 && ray_down_left(k, e) & ray_right(k, e) == 0 && ray_down_left(k, e) & ray_left(k, e) == 0 && ray_down_left(k, e) & ray_up_right(k, e) == 0 && ray_down_left(k, e) & ray_up_left(k, e) == 0 && ray_down_left(k, e) & ray_down_right(k, e) == 0 && ray_up_left(k, e) & ray_up(k, e) == 0 && ray_up_left(k, e) & ray_down(k, e) == 0 && ray_up_left(k, e) & ray_right(k, e) == 0 && ray_up_left(k, e) & ray_left(k, e) == 0 && ray_up_left(k, e) & ray_up_right(k, e) == 0 && ray_up_left(k, e) & ray_down_left(k, e) == 0 && ray_up_left(k, e) & ray_down_right(k, e) == 0 && ray_down_right(k, e) & ray_up(k, e) == 0 && ray_down_right(k, e) & ray_down(k, e) == 0 && ray_down_right(k, e) & ray_right(k, e) == 0 && ray_down_right(k, e) & ray_left(k, e) == 0 && ray_down_right(k, e) & ray_up_right(k, e) == 0 && ray_down_right(k, e) & ray_down_left(k, e) == 0 && ray_down_right(k, e) & ray_up_left(k, e) == 0 && ray_up(k, e) & k == 0 && ray_down(k, e) & k == 0 && ray_right(k, e) & k == 0 && ray_left(k, e) & k == 0 && ray_up_right(k, e) & k == 0 && ray_down_left(k, e) & k == 0 && ray_up_left(k, e) & k == 0 && ray_down_right(k, e) & k == 0),
{
    assert(single(k) ==> (ray_up(k, e) & ray_down(k, e) == 0 && ray_up(k, e) & ray_right(k, e) == 0 && ray_up(k, e) & ray_left(k, e) == 0 && ray_up(k, e) & ray_up_right(k, e) == 0 && ray_up(k, e) & ray_down_left(k, e) == 0 && ray_up(k, e) & ray_up_left(k, e) == 0 && ray_up(k, e) & ray_down_right(k, e) == 0 && ray_down(k, e) & ray_up(k, e) == 0 && ray_down(k, e) & ray_right(k, e) == 0 && ray_down(k, e) & ray_left(k, e) == 0 && ray_down(k, e) & ray_up_right(k, e) == 0 && ray_down(k, e) & ray_down_left(k, e) == 0 && ray_down(k, e) & ray_up_left(k, e) == 0 && ray_down(k, e) & ray_down_right(k, e) == 0 && ray_right(k, e) & ray_up(k, e) == 0 && ray_right(k, e) & ray_down(k, e) == 0 && ray_right(k, e) & ray_left(k, e) == 0 && ray_right(k, e) & ray_up_right(k, e) == 0 && ray_right(k, e) & ray_down_left(k, e) == 0 && ray_right(k, e) & ray_up_left(k, e) == 0 && ray_right(k, e) & ray_down_right(k, e) == 0 && ray_left(k, e) & ray_up(k, e) == 0 && ray_left(k, e) & ray_down(k, e) == 0 && ray_left(k, e) & ray_right(k, e) == 0 && ray_left(k, e) & ray_up_right(k, e) == 0 && ray_left(k, e) & ray_down_left(k, e) == 0 && ray_left(k, e) & ray_up_left(k, e) == 0 && ray_left(k, e) & ray_down_right(k, e) == 0 && ray_up_right(k, e) & ray_up(k, e) == 0 && ray_up_right(k, e) & ray_down(k, e) == 0 && ray_up_right(k, e) & ray_right(k, e) == 0 && ray_up_right(k, e) & ray_left(k, e) == 0 && ray_up_right(k, e) & ray_down_left(k, e) == 0 && ray_up_right(k, e) & ray_up_left(k, e) == 0 && ray_up_right(k, e) & ray_down_right(k, e) == 0 && ray_down_left(k, e) & ray_up(k, e) == 0 && ray_down_left(k, e) & ray_down(k, e) == 0 && ray_down_left(k, e) & ray_right(k, e) == 0 && ray_down_left(k, e) & ray_left(k, e) == 0 && ray_down_left(k, e) & ray_up_right(k, e) == 0 && ray_down_left(k, e) & ray_up_left(k, e) == 0 && ray_down_left(k, e) & ray_down_right(k, e) == 0 && ray_up_left(k, e) & ray_up(k, e) == 0 && ray_up_left(k, e) & ray_down(k, e) == 0 && ray_up_left(k, e) & ray_right(k, e) == 0 && ray_up_left(k, e) & ray_left(k, e) == 0 && ray_up_left(k, e) & ray_up_right(k, e) == 0 && ray_up_left(k, e) & ray_down_left(k, e) == 0 && ray_up_left(k, e) & ray_down_right(k, e) == 0 && ray_down_right(k, e) & ray_up(k, e) == 0 && ray_down_right(k, e) & ray_down(k, e) == 0 && ray_down_right(k, e) & ray_right(k, e) == 0 && ray_down_right(k, e) & ray_left(k, e) == 0 && ray_down_right(k, e) & ray_up_right(k, e) == 0 && ray_down_right(k, e) & ray_down_left(k, e) == 0 && ray_down_right(k, e) & ray_up_left(k, e) == 0 && ray_up(k, e) & k == 0 && ray_down(k, e) & k == 0 && ray_right(k, e) & k == 0 && ray_left(k, e) & k == 0 && ray_up_right(k, e) & k == 0 && ray_down_left(k, e) & k == 0 && ray_up_left(k, e) & k == 0 && ray_down_right(k, e) & k == 0)) by (bit_vector);
}

/// The rays from one square in two directions have no square in common,
/// and none holds the square itself.
pub proof fn lemma_apart(k: u64, e: u64, d: Direction, other: Direction)
    requires
        single(k),
    ensures
        d != other ==> slide(k, e, d) & slide(k, e, other) == 0,
        slide(k, e, d) & k == 0,
{
    lemma_apart_all(k, e);
    lemma_ray(k, e, d);
    lemma_ray(k, e, other);
}

/// The four corners of the board.
pub const CORNERS: u64 = 0x8100000000000081;

proof fn lemma_corner_all(p: u64, e: u64, c: u64)
    ensures
        c & !CORNERS == 0 ==> ((ray_up(p, e | c) == ray_up(p, e)) && (ray_down(p, e | c) == ray_down(p, e)) && (ray_right(p, e | c) == ray_right(p, e)) && (ray_left(p, e | c) == ray_left(p, e)) && (ray_up_right(p, e | c) == ray_up_right(p, e)) && (ray_down_left(p, e | c) == ray_down_left(p, e)) && (ray_up_left(p, e | c) == ray_up_left(p, e)) && (ray_down_right(p, e | c) == ray_down_right(p, e))),
{
    assert(c & !0x8100000000000081u64 == 0 ==> ((ray_up(p, e | c) == ray_up(p, e)) && (ray_down(p, e | c) == ray_down(p, e)) && (ray_right(p, e | c) == ray_right(p, e)) && (ray_left(p, e | c) == ray_left(p, e)) && (ray_up_right(p, e | c) == ray_up_right(p, e)) && (ray_down_left(p, e | c) == ray_down_left(p, e)) && (ray_up_left(p, e | c) == ray_up_left(p, e)) && (ray_down_right(p, e | c) == ray_down_right(p, e)))) by (bit_vector);
}

/// Whether a corner is empty makes no difference to any ray: a ray that
/// reaches a corner ends there.
pub proof fn lemma_corner(p: u64, e: u64, c: u64, d: Direction)
    requires
        c & !CORNERS == 0,
    ensures
        slide(p, e | c, d) == slide(p, e, d),
{
    lemma_corner_all(p, e, c);
    lemma_ray(p, e | c, d);
    lemma_ray(p, e, d);
}

/// Every square that a queen on `o` attacks through `e`.
pub open spec fn star(o: u64, e: u64) -> u64 {
    ray_up(o, e) | ray_down(o, e) | ray_right(o, e) | ray_left(o, e) | ray_up_right(o, e) | ray_down_left(o, e) | ray_up_left(o, e) | ray_down_right(o, e)
}

proof fn lemma_no_leap_all(k: u64, o: u64, t: u64, thr: u64, e: u64)
    ensures
        ((single(k) && single(o) && single(t) && k & e == 0 && o & ray_up(k, thr) != 0 && t & ray_down(k, thr) != 0) ==> t & star(o, e) == 0)
        && ((single(k) && single(o) && single(t) && k & e == 0 && o & ray_down(k, thr) != 0 && t & ray_up(k, thr) != 0) ==> t & star(o, e) == 0)
        && ((single(k) && single(o) && single(t) && k & e == 0 && o & ray_right(k, thr) != 0 && t & ray_left(k, thr) != 0) ==> t & star(o, e) == 0)
        && ((single(k) && single(o) && single(t) && k & e == 0 && o & ray_left(k, thr) != 0 && t & ray_right(k, thr) != 0) ==> t & star(o, e) == 0)
        && ((single(k) && single(o) && single(t) && k & e == 0 && o & ray_up_right(k, thr) != 0 && t & ray_down_left(k, thr) != 0) ==> t & star(o, e) == 0)
        && ((single(k) && single(o) && single(t) && k & e == 0 && o & ray_down_left(k, thr) != 0 && t & ray_up_right(k, thr) != 0) ==> t & star(o, e) == 0)
        && ((single(k) && single(o) && single(t) && k & e == 0 && o & ray_up_left(k, thr) != 0 && t & ray_down_right(k, thr) != 0) ==> t & star(o, e) == 0)
        && ((single(k) && single(o) && single(t) && k & e == 0 && o & ray_down_right(k, thr) != 0 && t & ray_up_left(k, thr) != 0) ==> t & star(o, e) == 0),
{
    assert(((single(k) && single(o) && single(t) && k & e == 0 && o & ray_up(k, thr) != 0 && t & ray_down(k, thr) != 0) ==> t & star(o, e) == 0) && ((single(k) && single(o) && single(t) && k & e == 0 && o & ray_down(k, thr) != 0 && t & ray_up(k, thr) != 0) ==> t & star(o, e) == 0) && ((single(k) && single(o) && single(t) && k & e == 0 && o & ray_right(k, thr) != 0 && t & ray_left(k, thr) != 0) ==> t & star(o, e) == 0) && ((single(k) && single(o) && single(t) && k & e == 0 && o & ray_left(k, thr) != 0 && t & ray_right(k, thr) != 0) ==> t & star(o, e) == 0) && ((single(k) && single(o) && single(t) && k & e == 0 && o & ray_up_right(k, thr) != 0 && t & ray_down_left(k, thr) != 0) ==> t & star(o, e) == 0) && ((single(k) && single(o) && single(t) && k & e == 0 && o & ray_down_left(k, thr) != 0 && t & ray_up_right(k, thr) != 0) ==> t & star(o, e) == 0) && ((single(k) && single(o) && single(t) && k & e == 0 && o & ray_up_left(k, thr) != 0 && t & ray_down_right(k, thr) != 0) ==> t & star(o, e) == 0) && ((single(k) && single(o) && single(t) && k & e == 0 && o & ray_down_right(k, thr) != 0 && t & ray_up_left(k, thr) != 0) ==> t & star(o, e) == 0)) by (bit_vector);
}

/// A slider on one side of its king does not get to the other side of the
/// king along the line through both: the king stands in the way.
pub proof fn lemma_no_leap(k: u64, o: u64, t: u64, thr: u64, e: u64, d: Direction)
    requires
        single(k),
        single(o),
        single(t),
        k & e == 0,
        o & slide(k, thr, d) != 0,
        t & slide(k, thr, opposite(d)) != 0,
    ensures
        t & star(o, e) == 0,
{
    lemma_no_leap_all(k, o, t, thr, e);
    lemma_ray(k, thr, d);
    lemma_ray(k, thr, opposite(d));
}

proof fn lemma_neighbour_all(k: u64, o: u64, t: u64, thr: u64)
    ensures
        ((single(k) && single(o) && o & ray_up(k, thr) != 0 && o & thr == o && t != 0 && t & k == 0 && (t == step(o, Direction::Up) || t == step(o, Direction::Down))) ==> t & ray_up(k, thr) == t)
        && ((single(k) && single(o) && o & ray_down(k, thr) != 0 && o & thr == o && t != 0 && t & k == 0 && (t == step(o, Direction::Down) || t == step(o, Direction::Up))) ==> t & ray_down(k, thr) == t)
        && ((single(k) && single(o) && o & ray_right(k, thr) != 0 && o & thr == o && t != 0 && t & k == 0 && (t == step(o, Direction::Right) || t == step(o, Direction::Left))) ==> t & ray_right(k, thr) == t)
        && ((single(k) && single(o) && o & ray_left(k, thr) != 0 && o & thr == o && t != 0 && t & k == 0 && (t == step(o, Direction::Left) || t == step(o, Direction::Right))) ==> t & ray_left(k, thr) == t)
        && ((single(k) && single(o) && o & ray_up_right(k, thr) != 0 && o & thr == o && t != 0 && t & k == 0 && (t == step(o, Direction::UpRight) || t == step(o, Direction::DownLeft))) ==> t & ray_up_right(k, thr) == t)
        && ((single(k) && single(o) && o & ray_down_left(k, thr) != 0 && o & thr == o && t != 0 && t & k == 0 && (t == step(o, Direction::DownLeft) || t == step(o, Direction::UpRight))) ==> t & ray_down_left(k, thr) == t)
        && ((single(k) && single(o) && o & ray_up_left(k, thr) != 0 && o & thr == o && t != 0 && t & k == 0 && (t == step(o, Direction::UpLeft) || t == step(o, Direction::DownRight))) ==> t & ray_up_left(k, thr) == t)
        && ((single(k) && single(o) && o & ray_down_right(k, thr) != 0 && o & thr == o && t != 0 && t & k == 0 && (t == step(o, Direction::DownRight) || t == step(o, Direction::UpLeft))) ==> t & ray_down_right(k, thr) == t),
{
    assert(((single(k) && single(o) && o & ray_up(k, thr) != 0 && o & thr == o && t != 0 && t & k == 0 && (t == step(o, Direction::Up) || t == step(o, Direction::Down))) ==> t & ray_up(k, thr) == t) && ((single(k) && single(o) && o & ray_down(k, thr) != 0 && o & thr == o && t != 0 && t & k == 0 && (t == step(o, Direction::Down) || t == step(o, Direction::Up))) ==> t & ray_down(k, thr) == t) && ((single(k) && single(o) && o & ray_right(k, thr) != 0 && o & thr == o && t != 0 && t & k == 0 && (t == step(o, Direction::Right) || t == step(o, Direction::Left))) ==> t & ray_right(k, thr) == t) && ((single(k) && single(o) && o & ray_left(k, thr) != 0 && o & thr == o && t != 0 && t & k == 0 && (t == step(o, Direction::Left) || t == step(o, Direction::Right))) ==> t & ray_left(k, thr) == t) && ((single(k) && single(o) && o & ray_up_right(k, thr) != 0 && o & thr == o && t != 0 && t & k == 0 && (t == step(o, Direction::UpRight) || t == step(o, Direction::DownLeft))) ==> t & ray_up_right(k, thr) == t) && ((single(k) && single(o) && o & ray_down_left(k, thr) != 0 && o & thr == o && t != 0 && t & k == 0 && (t == step(o, Direction::DownLeft) || t == step(o, Direction::UpRight))) ==> t & ray_down_left(k, thr) == t) && ((single(k) && single(o) && o & ray_up_left(k, thr) != 0 && o & thr == o && t != 0 && t & k == 0 && (t == step(o, Direction::UpLeft) || t == step(o, Direction::DownRight))) ==> t & ray_up_left(k, thr) == t) && ((single(k) && single(o) && o & ray_down_right(k, thr) != 0 && o & thr == o && t != 0 && t & k == 0 && (t == step(o, Direction::DownRight) || t == step(o, Direction::UpLeft))) ==> t & ray_down_right(k, thr) == t)) by (bit_vector);
}

/// From a square on a ray that the ray passes, one step along the line of
/// the ray leads to a square of the ray, or to the square the ray starts from.
pub proof fn lemma_neighbour(k: u64, o: u64, t: u64, thr: u64, d: Direction)
    requires
        single(k),
        single(o),
        o & slide(k, thr, d) != 0,
        o & thr == o,
        t != 0,
        t & k == 0,
        t == step(o, d) || t == step(o, opposite(d)),
    ensures
        t & slide(k, thr, d) == t,
{
    lemma_neighbour_all(k, o, t, thr);
    lemma_ray(k, thr, d);
}

/// A pawn of `me` goes from `o` to the empty square `t` behind the pawn
/// `pb` of `you`, which stands beside it, and captures that pawn.
pub open spec fn taking(k: u64, me: u64, you: u64, o: u64, t: u64, pb: u64) -> bool {
    single(o) && o & me == o && o & k == 0 && single(t) && t & me == 0 && t & you == 0 && single(pb)
        && ((t == step(pb, Direction::Up) && (o == step(t, Direction::DownRight) || o == step(
        t,
        Direction::DownLeft,
    ))) || (t == step(pb, Direction::Down) && (o == step(t, Direction::UpRight) || o == step(
        t,
        Direction::UpLeft,
    ))))
}

/// The capture of the pawn `pb` en passant would open the ray `r`, which
/// ends on a slider and passes the pawn: along a rank, with one piece of
/// `me` on the ray and a square beside the pawn on it; along a rank or a
/// diagonal, with no piece of `me` on the ray.
pub open spec fn opened(r: u64, c: u64, pb: u64, me: u64, rank: bool, slanted: bool) -> bool {
    r & c != 0 && r & pb != 0 && ((rank && single(r & me) && r & (step(pb, Direction::Left) | step(
        pb,
        Direction::Right,
    )) != 0) || (slanted && r & me == 0))
}

/// The squares that are empty after a pawn of `me` has gone from `o` to
/// `t` and captured the pawn `pb` en passant.
pub open spec fn empty_after_ep(me: u64, you: u64, o: u64, t: u64, pb: u64) -> u64 {
    !((me ^ o ^ t) | (you & !pb))
}

#[verifier::rlimit(100)]
proof fn lemma_ep_shielded_all_straight(
    k: u64,
    me: u64,
    you: u64,
    c: u64,
    pb: u64,
    o: u64,
    t: u64,
    cm: u64,
    pl: u64,
)
    ensures
        ((facing(k, me, you, c, pb) && taking(k, me, you, o, t, pb) && (t | pb) & cm != 0 && recorded(ray_up(k, !you | pb), c, pb, me, cm, pl) && stays(ray_up(k, !you | pb), o, t, pl) && !opened(ray_up(k, !you | pb), c, pb, me, false, false)) ==> ray_up(k, empty_after_ep(me, you, o, t, pb)) & c == 0)
        && ((facing(k, me, you, c, pb) && taking(k, me, you, o, t, pb) && (t | pb) & cm != 0 && recorded(ray_down(k, !you | pb), c, pb, me, cm, pl) && stays(ray_down(k, !you | pb), o, t, pl) && !opened(ray_down(k, !you | pb), c, pb, me, false, false)) ==> ray_down(k, empty_after_ep(me, you, o, t, pb)) & c == 0)
        && ((facing(k, me, you, c, pb) && taking(k, me, you, o, t, pb) && (t | pb) & cm != 0 && recorded(ray_right(k, !you | pb), c, pb, me, cm, pl) && stays(ray_right(k, !you | pb), o, t, pl) && !opened(ray_right(k, !you | pb), c, pb, me, true, true)) ==> ray_right(k, empty_after_ep(me, you, o, t, pb)) & c == 0)
        && ((facing(k, me, you, c, pb) && taking(k, me, you, o, t, pb) && (t | pb) & cm != 0 && recorded(ray_left(k, !you | pb), c, pb, me, cm, pl) && stays(ray_left(k, !you | pb), o, t, pl) && !opened(ray_left(k, !you | pb), c, pb, me, true, true)) ==> ray_left(k, empty_after_ep(me, you, o, t, pb)) & c == 0),
{
    assert(((facing(k, me, you, c, pb) && taking(k, me, you, o, t, pb) && (t | pb) & cm != 0 && recorded(ray_up(k, !you | pb), c, pb, me, cm, pl) && stays(ray_up(k, !you | pb), o, t, pl) && !opened(ray_up(k, !you | pb), c, pb, me, false, false)) ==> ray_up(k, empty_after_ep(me, you, o, t, pb)) & c == 0) && ((facing(k, me, you, c, pb) && taking(k, me, you, o, t, pb) && (t | pb) & cm != 0 && recorded(ray_down(k, !you | pb), c, pb, me, cm, pl) && stays(ray_down(k, !you | pb), o, t, pl) && !opened(ray_down(k, !you | pb), c, pb, me, false, false)) ==> ray_down(k, empty_after_ep(me, you, o, t, pb)) & c == 0) && ((facing(k, me, you, c, pb) && taking(k, me, you, o, t, pb) && (t | pb) & cm != 0 && recorded(ray_right(k, !you | pb), c, pb, me, cm, pl) && stays(ray_right(k, !you | pb), o, t, pl) && !opened(ray_right(k, !you | pb), c, pb, me, true, true)) ==> ray_right(k, empty_after_ep(me, you, o, t, pb)) & c == 0) && ((facing(k, me, you, c, pb) && taking(k, me, you, o, t, pb) && (t | pb) & cm != 0 && recorded(ray_left(k, !you | pb), c, pb, me, cm, pl) && stays(ray_left(k, !you | pb), o, t, pl) && !opened(ray_left(k, !you | pb), c, pb, me, true, true)) ==> ray_left(k, empty_after_ep(me, you, o, t, pb)) & c == 0)) by (bit_vector);
}

#[verifier::rlimit(100)]
proof fn lemma_ep_shielded_all_slanted(
    k: u64,
    me: u64,
    you: u64,
    c: u64,
    pb: u64,
    o: u64,
    t: u64,
    cm: u64,
    pl: u64,
)
    ensures
        ((facing(k, me, you, c, pb) && taking(k, me, you, o, t, pb) && (t | pb) & cm != 0 && recorded(ray_up_right(k, !you | pb), c, pb, me, cm, pl) && stays(ray_up_right(k, !you | pb), o, t, pl) && !opened(ray_up_right(k, !you | pb), c, pb, me, false, true)) ==> ray_up_right(k, empty_after_ep(me, you, o, t, pb)) & c == 0)
        && ((facing(k, me, you, c, pb) && taking(k, me, you, o, t, pb) && (t | pb) & cm != 0 && recorded(ray_down_left(k, !you | pb), c, pb, me, cm, pl) && stays(ray_down_left(k, !you | pb), o, t, pl) && !opened(ray_down_left(k, !you | pb), c, pb, me, false, true)) ==> ray_down_left(k, empty_after_ep(me, you, o, t, pb)) & c == 0)
        && ((facing(k, me, you, c, pb) && taking(k, me, you, o, t, pb) && (t | pb) & cm != 0 && recorded(ray_up_left(k, !you | pb), c, pb, me, cm, pl) && stays(ray_up_left(k, !you | pb), o, t, pl) && !opened(ray_up_left(k, !you | pb), c, pb, me, false, true)) ==> ray_up_left(k, empty_after_ep(me, you, o, t, pb)) & c == 0)
        && ((facing(k, me, you, c, pb) && taking(k, me, you, o, t, pb) && (t | pb) & cm != 0 && recorded(ray_down_right(k, !you | pb), c, pb, me, cm, pl) && stays(ray_down_right(k, !you | pb), o, t, pl) && !opened(ray_down_right(k, !you | pb), c, pb, me, false, true)) ==> ray_down_right(k, empty_after_ep(me, you, o, t, pb)) & c == 0),
{
    assert(((facing(k, me, you, c, pb) && taking(k, me, you, o, t, pb) && (t | pb) & cm != 0 && recorded(ray_up_right(k, !you | pb), c, pb, me, cm, pl) && stays(ray_up_right(k, !you | pb), o, t, pl) && !opened(ray_up_right(k, !you | pb), c, pb, me, false, true)) ==> ray_up_right(k, empty_after_ep(me, you, o, t, pb)) & c == 0) && ((facing(k, me, you, c, pb) && taking(k, me, you, o, t, pb) && (t | pb) & cm != 0 && recorded(ray_down_left(k, !you | pb), c, pb, me, cm, pl) && stays(ray_down_left(k, !you | pb), o, t, pl) && !opened(ray_down_left(k, !you | pb), c, pb, me, false, true)) ==> ray_down_left(k, empty_after_ep(me, you, o, t, pb)) & c == 0) && ((facing(k, me, you, c, pb) && taking(k, me, you, o, t, pb) && (t | pb) & cm != 0 && recorded(ray_up_left(k, !you | pb), c, pb, me, cm, pl) && stays(ray_up_left(k, !you | pb), o, t, pl) && !opened(ray_up_left(k, !you | pb), c, pb, me, false, true)) ==> ray_up_left(k, empty_after_ep(me, you, o, t, pb)) & c == 0) && ((facing(k, me, you, c, pb) && taking(k, me, you, o, t, pb) && (t | pb) & cm != 0 && recorded(ray_down_right(k, !you | pb), c, pb, me, cm, pl) && stays(ray_down_right(k, !you | pb), o, t, pl) && !opened(ray_down_right(k, !you | pb), c, pb, me, false, true)) ==> ray_down_right(k, empty_after_ep(me, you, o, t, pb)) & c == 0)) by (bit_vector);
}

proof fn lemma_ep_shielded_all(
    k: u64,
    me: u64,
    you: u64,
    c: u64,
    pb: u64,
    o: u64,
    t: u64,
    cm: u64,
    pl: u64,
)
    ensures
        ((facing(k, me, you, c, pb) && taking(k, me, you, o, t, pb) && (t | pb) & cm != 0 && recorded(ray_up(k, !you | pb), c, pb, me, cm, pl) && stays(ray_up(k, !you | pb), o, t, pl) && !opened(ray_up(k, !you | pb), c, pb, me, false, false)) ==> ray_up(k, empty_after_ep(me, you, o, t, pb)) & c == 0)
        && ((facing(k, me, you, c, pb) && taking(k, me, you, o, t, pb) && (t | pb) & cm != 0 && recorded(ray_down(k, !you | pb), c, pb, me, cm, pl) && stays(ray_down(k, !you | pb), o, t, pl) && !opened(ray_down(k, !you | pb), c, pb, me, false, false)) ==> ray_down(k, empty_after_ep(me, you, o, t, pb)) & c == 0)
        && ((facing(k, me, you, c, pb) && taking(k, me, you, o, t, pb) && (t | pb) & cm != 0 && recorded(ray_right(k, !you | pb), c, pb, me, cm, pl) && stays(ray_right(k, !you | pb), o, t, pl) && !opened(ray_right(k, !you | pb), c, pb, me, true, true)) ==> ray_right(k, empty_after_ep(me, you, o, t, pb)) & c == 0)
        && ((facing(k, me, you, c, pb) && taking(k, me, you, o, t, pb) && (t | pb) & cm != 0 && recorded(ray_left(k, !you | pb), c, pb, me, cm, pl) && stays(ray_left(k, !you | pb), o, t, pl) && !opened(ray_left(k, !you | pb), c, pb, me, true, true)) ==> ray_left(k, empty_after_ep(me, you, o, t, pb)) & c == 0)
        && ((facing(k, me, you, c, pb) && taking(k, me, you, o, t, pb) && (t | pb) & cm != 0 && recorded(ray_up_right(k, !you | pb), c, pb, me, cm, pl) && stays(ray_up_right(k, !you | pb), o, t, pl) && !opened(ray_up_right(k, !you | pb), c, pb, me, false, true)) ==> ray_up_right(k, empty_after_ep(me, you, o, t, pb)) & c == 0)
        && ((facing(k, me, you, c, pb) && taking(k, me, you, o, t, pb) && (t | pb) & cm != 0 && recorded(ray_down_left(k, !you | pb), c, pb, me, cm, pl) && stays(ray_down_left(k, !you | pb), o, t, pl) && !opened(ray_down_left(k, !you | pb), c, pb, me, false, true)) ==> ray_down_left(k, empty_after_ep(me, you, o, t, pb)) & c == 0)
        && ((facing(k, me, you, c, pb) && taking(k, me, you, o, t, pb) && (t | pb) & cm != 0 && recorded(ray_up_left(k, !you | pb), c, pb, me, cm, pl) && stays(ray_up_left(k, !you | pb), o, t, pl) && !opened(ray_up_left(k, !you | pb), c, pb, me, false, true)) ==> ray_up_left(k, empty_after_ep(me, you, o, t, pb)) & c == 0)
        && ((facing(k, me, you, c, pb) && taking(k, me, you, o, t, pb) && (t | pb) & cm != 0 && recorded(ray_down_right(k, !you | pb), c, pb, me, cm, pl) && stays(ray_down_right(k, !you | pb), o, t, pl) && !opened(ray_down_right(k, !you | pb), c, pb, me, false, true)) ==> ray_down_right(k, empty_after_ep(me, you, o, t, pb)) & c == 0),
{
    lemma_ep_shielded_all_straight(k, me, you, c, pb, o, t, cm, pl);
    lemma_ep_shielded_all_slanted(k, me, you, c, pb, o, t, cm, pl);
}

/// After a capture en passant that has not been ruled out, that is within
/// the check mask and that, where the capturing pawn is pinned, stays on
/// the ray of its pin, no slider of the other side meets the king's ray in
/// direction `d`.
pub proof fn lemma_ep_shielded(
    k: u64,
    me: u64,
    you: u64,
    c: u64,
    pb: u64,
    o: u64,
    t: u64,
    cm: u64,
    pl: u64,
    d: Direction,
)
    requires
        facing(k, me, you, c, pb),
        taking(k, me, you, o, t, pb),
        (t | pb) & cm != 0,
        recorded(slide(k, !you | pb, d), c, pb, me, cm, pl),
        stays(slide(k, !you | pb, d), o, t, pl),
        !opened(
            slide(k, !you | pb, d),
            c,
            pb,
            me,
            d == Direction::Left || d == Direction::Right,
            d != Direction::Up && d != Direction::Down,
        ),
    ensures
        slide(k, empty_after_ep(me, you, o, t, pb), d) & c == 0,
{
    lemma_ep_shielded_all(k, me, you, c, pb, o, t, cm, pl);
    lemma_ray(k, !you | pb, d);
    lemma_ray(k, empty_after_ep(me, you, o, t, pb), d);
}

} // verus!
