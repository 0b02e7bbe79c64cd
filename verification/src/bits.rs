//! Bit-level facts about 64-bit words, phrased over single squares.
//!
//! Everything the rest of the crate proves about bitboards goes through the
//! predicate [`bit`] and the lemmas of this module.
use vstd::prelude::*;
use vstd::std_specs::bits::{axiom_u64_trailing_zeros, u64_trailing_zeros};

verus! {

/// `bit(x, i)` holds when `i` is a square of the board and bit `i` of `x` is set.
pub open spec fn bit(x: u64, i: int) -> bool {
    0 <= i < 64 && (x >> (i as u64)) & 1 == 1
}

/// The index of the lowest set bit of `x`, or 64 when `x` is zero.
pub open spec fn lowest(x: u64) -> int {
    u64_trailing_zeros(x) as int
}

/// A word with exactly one bit set.
pub open spec fn single(x: u64) -> bool {
    x != 0 && x & ((x - 1) as u64) == 0
}

/// A square is in a union when it is in one of the two sets.
pub broadcast proof fn lemma_bit_or(x: u64, y: u64, i: int)
    ensures
        #[trigger] bit(x | y, i) == (bit(x, i) || bit(y, i)),
{
    if 0 <= i < 64 {
        let j = i as u64;
        assert((((x | y) >> j) & 1 == 1) == (((x >> j) & 1 == 1) || ((y >> j) & 1 == 1)))
            by (bit_vector);
    }
}

/// A square is in an intersection when it is in both sets.
pub broadcast proof fn lemma_bit_and(x: u64, y: u64, i: int)
    ensures
        #[trigger] bit(x & y, i) == (bit(x, i) && bit(y, i)),
{
    if 0 <= i < 64 {
        let j = i as u64;
        assert((((x & y) >> j) & 1 == 1) == (((x >> j) & 1 == 1) && ((y >> j) & 1 == 1)))
            by (bit_vector);
    }
}

/// A square is in a symmetric difference when it is in one of the two sets only.
pub broadcast proof fn lemma_bit_xor(x: u64, y: u64, i: int)
    ensures
        #[trigger] bit(x ^ y, i) == (bit(x, i) != bit(y, i)),
{
    if 0 <= i < 64 {
        let j = i as u64;
        assert((((x ^ y) >> j) & 1 == 1) == (((x >> j) & 1 == 1) != ((y >> j) & 1 == 1)))
            by (bit_vector);
    }
}

/// A square of the board is in a complement when it is not in the set.
pub broadcast proof fn lemma_bit_not(x: u64, i: int)
    ensures
        #[trigger] bit(!x, i) == (0 <= i < 64 && !bit(x, i)),
{
    if 0 <= i < 64 {
        let j = i as u64;
        assert(j < 64 ==> ((((!x) >> j) & 1 == 1) == !((x >> j) & 1 == 1))) by (bit_vector);
    }
}

/// A square is in a set shifted up by `s` when the square `s` below it is in the set.
pub broadcast proof fn lemma_bit_shl(x: u64, s: u64, i: int)
    requires
        s < 64,
    ensures
        #[trigger] bit(x << s, i) == (s <= i < 64 && bit(x, i - s)),
{
    if 0 <= i < 64 {
        let j = i as u64;
        assert(s < 64 && j < 64 ==> ((((x << s) >> j) & 1 == 1) == (s <= j && (x >> ((j - s) as u64)) & 1
            == 1))) by (bit_vector);
    }
}

/// A square is in a set shifted down by `s` when the square `s` above it is in the set.
pub broadcast proof fn lemma_bit_shr(x: u64, s: u64, i: int)
    requires
        s < 64,
    ensures
        #[trigger] bit(x >> s, i) == (0 <= i && i + s < 64 && bit(x, i + s)),
{
    if 0 <= i < 64 {
        let j = i as u64;
        assert(s < 64 && j < 64 ==> ((((x >> s) >> j) & 1 == 1) == (j + s < 64 && (x >> ((j + s) as u64)) & 1 == 1))) by (bit_vector);
    }
}

/// The words 0, all-ones and `1 << s`, square by square.
pub proof fn lemma_bit_consts(s: u64, i: int)
    requires
        s < 64,
    ensures
        !bit(0, i),
        bit(u64::MAX, i) == (0 <= i < 64),
        bit(1u64 << s, i) == (i == s),
{
    if 0 <= i < 64 {
        let j = i as u64;
        assert(s < 64 && j < 64 ==> ((0u64 >> j) & 1 != 1 && (0xffff_ffff_ffff_ffffu64 >> j) & 1
            == 1 && ((((1u64 << s) >> j) & 1 == 1) == (j == s)))) by (bit_vector);
    }
}

/// Two words with the same bits are the same word.
pub proof fn lemma_eq_by_bits(x: u64, y: u64)
    requires
        forall|i: int| 0 <= i < 64 ==> bit(x, i) == bit(y, i),
    ensures
        x == y,
{
    let z = x ^ y;
    if z != 0 {
        axiom_u64_trailing_zeros(z);
        let t = u64_trailing_zeros(z) as int;
        assert(bit(z, t));
        lemma_bit_xor(x, y, t);
        assert(false);
    }
    assert(x ^ y == 0 ==> x == y) by (bit_vector);
}

/// Two words share no square exactly when their intersection is zero.
pub proof fn lemma_disjoint(x: u64, y: u64)
    ensures
        (x & !y == x) == (x & y == 0),
        x & y == 0 ==> forall|i: int| !(bit(x, i) && bit(y, i)),
        x & y != 0 ==> bit(x, lowest(x & y)) && bit(y, lowest(x & y)),
{
    assert((x & !y == x) == (x & y == 0)) by (bit_vector);
    if x & y == 0 {
        assert forall|i: int| !(bit(x, i) && bit(y, i)) by {
            lemma_bit_and(x, y, i);
            lemma_bit_consts(0, i);
        }
    } else {
        lemma_lowest(x & y);
        lemma_bit_and(x, y, lowest(x & y));
    }
}

/// What `lowest` means: it is a set bit, and no bit below it is set.
pub proof fn lemma_lowest(x: u64)
    requires
        x != 0,
    ensures
        0 <= lowest(x) < 64,
        bit(x, lowest(x)),
        forall|i: int| 0 <= i < lowest(x) ==> !bit(x, i),
{
    axiom_u64_trailing_zeros(x);
    assert forall|i: int| 0 <= i < lowest(x) implies !bit(x, i) by {
        let j = i as u64;
        assert((x >> j) & 1 == 0);
    }
}

/// Clearing and isolating the lowest set bit, square by square.
pub proof fn lemma_lowest_ops(x: u64)
    requires
        x != 0,
    ensures
        x & ((x - 1) as u64) == x & !(1u64 << (lowest(x) as u64)),
        (!x) < u64::MAX,
        x & ((!x + 1) as u64) == 1u64 << (lowest(x) as u64),
        x & ((x - 1) as u64) < x,
{
    axiom_u64_trailing_zeros(x);
    let t = u64_trailing_zeros(x) as u64;
    assert(x != 0 ==> !x != 0xffff_ffff_ffff_ffffu64) by (bit_vector);
    let up = (64 - t) as u64;
    assert(x << up == 0);
    assert(x != 0 && t < 64 && up == 64 - t && (x >> t) & 1 == 1 && x << up == 0 ==> x & ((x - 1) as u64)
        == x & !(1u64 << t) && x & (#[verifier::truncate] ((!x + 1) as u64)) == 1u64 << t && x & ((x - 1) as u64) < x)
        by (bit_vector);
}

/// A word has exactly one bit set when it is `1 << s` for its lowest square `s`.
pub proof fn lemma_single(x: u64)
    ensures
        single(x) <==> (0 <= lowest(x) < 64 && x == 1u64 << (lowest(x) as u64)),
        single(x) ==> forall|i: int| bit(x, i) == (i == lowest(x)),
{
    axiom_u64_trailing_zeros(x);
    if single(x) {
        lemma_lowest(x);
        lemma_lowest_ops(x);
        let low = lowest(x);
        assert forall|i: int| bit(x, i) == (i == low) by {
            lemma_bit_consts(low as u64, i);
            lemma_bit_not(1u64 << (low as u64), i);
            lemma_bit_and(x, !(1u64 << (low as u64)), i);
            lemma_bit_consts(0, i);
        }
        assert forall|i: int| 0 <= i < 64 implies bit(x, i) == bit(1u64 << (low as u64), i) by {
            lemma_bit_consts(low as u64, i);
        }
        lemma_eq_by_bits(x, 1u64 << (low as u64));
    }
    if 0 <= lowest(x) < 64 && x == 1u64 << (lowest(x) as u64) {
        lemma_single_bit(lowest(x) as u64);
    }
}

/// The word `1 << s` has exactly one bit set, on square `s`; a step up or
/// down the board moves that bit by eight squares.
pub proof fn lemma_single_bit(s: u64)
    requires
        s < 64,
    ensures
        single(1u64 << s),
        lowest(1u64 << s) == s,
        s >= 8 ==> (1u64 << s) >> 8 == 1u64 << ((s - 8) as u64),
        s < 56 ==> (1u64 << s) << 8 == 1u64 << ((s + 8) as u64),
{
    let x = 1u64 << s;
    assert(s < 64 && x == 1u64 << s ==> x != 0 && x & ((x - 1) as u64) == 0 && (s >= 8 ==> x >> 8
        == 1u64 << ((s - 8) as u64)) && (s < 56 ==> x << 8 == 1u64 << ((s + 8) as u64)))
        by (bit_vector);
    lemma_lowest(x);
    lemma_bit_consts(s, lowest(x));
}

/// The squares of `x` from square `i` on, in ascending order.
pub open spec fn squares_from(x: u64, i: int) -> Seq<u32>
    decreases 64 - i,
{
    if i < 0 || i >= 64 {
        Seq::empty()
    } else if bit(x, i) {
        seq![i as u32] + squares_from(x, i + 1)
    } else {
        squares_from(x, i + 1)
    }
}

/// The squares of `x` in ascending order.
pub open spec fn squares(x: u64) -> Seq<u32> {
    squares_from(x, 0)
}

/// Squares that are not in `x` add nothing to the list.
pub proof fn lemma_squares_skip(x: u64, i: int, j: int)
    requires
        0 <= i <= j <= 64,
        forall|k: int| i <= k < j ==> !bit(x, k),
    ensures
        squares_from(x, i) == squares_from(x, j),
    decreases j - i,
{
    if i < j {
        lemma_squares_skip(x, i + 1, j);
    }
}

/// The list from `i` on depends only on the squares from `i` on.
pub proof fn lemma_squares_agree(x: u64, y: u64, i: int)
    requires
        0 <= i <= 64,
        forall|k: int| i <= k < 64 ==> bit(x, k) == bit(y, k),
    ensures
        squares_from(x, i) == squares_from(y, i),
    decreases 64 - i,
{
    if i < 64 {
        lemma_squares_agree(x, y, i + 1);
    }
}

/// A square is in the list exactly when it is in the set, and the list is strictly ascending.
pub proof fn lemma_squares_members(x: u64, i: int)
    requires
        0 <= i <= 64,
    ensures
        forall|s: u32| #[trigger] squares_from(x, i).contains(s) <==> i <= s && bit(x, s as int),
        forall|a: int, b: int|
            0 <= a < b < squares_from(x, i).len() ==> squares_from(x, i)[a] < squares_from(x, i)[b],
        forall|a: int| 0 <= a < squares_from(x, i).len() ==> i <= #[trigger] squares_from(x, i)[a] < 64,
    decreases 64 - i,
{
    let l = squares_from(x, i);
    if i < 64 {
        lemma_squares_members(x, i + 1);
        let rest = squares_from(x, i + 1);
        if bit(x, i) {
            assert(l =~= seq![i as u32] + rest);
            assert forall|s: u32| #[trigger] l.contains(s) <==> i <= s && bit(x, s as int) by {
                if l.contains(s) {
                    let a = choose|a: int| 0 <= a < l.len() && l[a] == s;
                    if a > 0 {
                        assert(rest[a - 1] == s);
                        assert(rest.contains(s));
                    }
                }
                if i <= s && bit(x, s as int) {
                    if s == i {
                        assert(l[0] == s);
                    } else {
                        assert(rest.contains(s));
                        let a = choose|a: int| 0 <= a < rest.len() && rest[a] == s;
                        assert(l[a + 1] == s);
                    }
                }
            }
            assert forall|a: int, b: int| 0 <= a < b < l.len() implies l[a] < l[b] by {
                assert(l[b] == rest[b - 1]);
                if a > 0 {
                    assert(l[a] == rest[a - 1]);
                }
            }
            assert forall|a: int| 0 <= a < l.len() implies i <= #[trigger] l[a] < 64 by {
                if a > 0 {
                    assert(l[a] == rest[a - 1]);
                }
            }
        } else {
            assert forall|s: u32| #[trigger] l.contains(s) <==> i <= s && bit(x, s as int) by {}
        }
    } else {
        assert forall|s: u32| #[trigger] l.contains(s) <==> i <= s && bit(x, s as int) by {
            if l.contains(s) {
                let a = choose|a: int| 0 <= a < l.len() && l[a] == s;
            }
        }
    }
}

/// The list of a set that is not empty starts with its lowest square, and
/// goes on with the list of the set without that square.
pub proof fn lemma_squares_pop(x: u64)
    requires
        x != 0,
    ensures
        squares(x).len() > 0,
        squares(x)[0] == lowest(x),
        squares(x & ((x - 1) as u64)) == squares(x).drop_first(),
{
    lemma_lowest(x);
    lemma_lowest_ops(x);
    let low = lowest(x);
    let y = x & ((x - 1) as u64);
    assert forall|k: int| 0 <= k < 64 implies bit(y, k) == (bit(x, k) && k != low) by {
        lemma_bit_consts(low as u64, k);
        lemma_bit_not(1u64 << (low as u64), k);
        lemma_bit_and(x, !(1u64 << (low as u64)), k);
    }
    lemma_squares_skip(x, 0, low);
    lemma_squares_skip(y, 0, low + 1);
    lemma_squares_agree(x, y, low + 1);
    assert(squares_from(x, low) == seq![low as u32] + squares_from(x, low + 1));
    assert(squares(x).drop_first() =~= squares_from(x, low + 1));
}

/// The empty set has no squares.
pub proof fn lemma_squares_zero()
    ensures
        squares(0) == Seq::<u32>::empty(),
{
    assert forall|k: int| 0 <= k < 64 implies !bit(0, k) by {
        lemma_bit_consts(0, k);
    }
    lemma_squares_skip(0, 0, 64);
}

} // verus!
