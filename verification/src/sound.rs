//! What the constraints on the side to move say about the position, and
//! that computing them makes them true.
use vstd::prelude::*;
use crate::attacks::AttackGen;
use crate::bitboard::BitBoard;
use crate::bits::{
    bit, lemma_bit_and, lemma_bit_consts, lemma_bit_not, lemma_bit_or, lemma_disjoint,
    lemma_eq_by_bits, lemma_lowest, lemma_single, lemma_single_bit, lowest, single,
};
use crate::board::{EnPassant, Line, Position, ray_order};
use crate::invariants::lemma_after_rays_settles;
use crate::pins::Pins;
use crate::rays::{lemma_apart, recorded};
use crate::slides::{Direction, slide};

verus! {

impl Pins {
    /// The pins along `line`.
    pub open spec fn on_line(self, line: Line) -> u64 {
        match line {
            Line::Horizontal => self.horizontal.0,
            Line::Vertical => self.vertical.0,
            Line::Diagonal => self.diagonal.0,
            Line::AntiDiagonal => self.anti_diagonal.0,
        }
    }
}

/// The second direction along the line of `d`.
pub open spec fn along(line: Line) -> (Direction, Direction) {
    match line {
        Line::Horizontal => (Direction::Right, Direction::Left),
        Line::Vertical => (Direction::Up, Direction::Down),
        Line::Diagonal => (Direction::UpRight, Direction::DownLeft),
        Line::AntiDiagonal => (Direction::DownRight, Direction::UpLeft),
    }
}

impl Position {
    /// The squares that no piece stands on.
    pub open spec fn real_empty(self) -> u64 {
        !(self.moving_player.occupied.0 | self.moved_player.occupied.0)
    }

    /// The squares that the side to move attacks.
    pub open spec fn mover_attacks(self) -> u64 {
        AttackGen {
            attacking_player: self.moving_player,
            empty_squares: BitBoard(self.real_empty()),
            attacks: BitBoard(0),
        }.spec_attack_map(self.current_player)
    }

    /// The side that has just moved is not in check: the side to move does
    /// not attack its king.
    pub open spec fn guarded(self) -> bool {
        self.mover_attacks() & self.moved_player.king.0 == 0
    }

    /// The attack map of the side that has just moved is that of the pieces
    /// as they stand, with the king of the side to move taken off the board.
    pub open spec fn attacks_current(self) -> bool {
        self.moved_player.attacks.0 == AttackGen::of(self).spec_attack_map(
            self.current_player.opponent(),
        )
    }

    /// The squares that the rays from the king pass, with `shadow` as the
    /// pawn that they pass through.
    pub open spec fn through(self, shadow: u64) -> u64 {
        !self.moved_player.occupied.0 | shadow
    }

    /// What the ray from the king in direction `d` means has been recorded:
    /// a check in the check mask, a pin in the pins of its line.
    pub open spec fn noted(self, shadow: u64, d: Direction) -> bool {
        recorded(
            self.king_ray(self.through(shadow), d),
            self.casters(d),
            shadow,
            self.moving_player.occupied.0,
            self.moving_player.check_mask.0,
            self.moving_player.pins.on_line(d.line()),
        )
    }

    /// The ray in direction `d` would be opened by the capture en passant.
    pub open spec fn opened_by_ep(self, shadow: u64, epa: u64, d: Direction) -> bool {
        let r = self.king_ray(self.through(shadow), d);
        let blockers = r & self.moving_player.occupied.0;
        r & self.casters(d) != 0 && r & shadow != 0 && ((d.is_horizontal() && single(blockers) && r
            & epa != 0) || (d.is_non_vertical() && blockers == 0))
    }

    /// The pins along `line` lie on the two rays from the king along it.
    pub open spec fn pins_lie(self, shadow: u64, line: Line) -> bool {
        self.moving_player.pins.on_line(line) & !(self.king_ray(self.through(shadow), along(line).0)
            | self.king_ray(self.through(shadow), along(line).1)) == 0
    }

    /// A check by a knight or a pawn is in the check mask.
    pub open spec fn leapers_noted(self) -> bool {
        let n = self.non_sliding_attackers();
        n == 0 || (single(n) && self.moving_player.check_mask.0 == n)
    }

    /// The constraints on the side to move are those of the pieces as they
    /// stand, with `shadow` as the pawn that rays pass through: the pawn
    /// that could be captured en passant when the constraints were computed.
    pub open spec fn constrained(self, shadow: u64) -> bool {
        &&& shadow & !self.moved_player.pawns.0 == 0
        &&& shadow == 0 || single(shadow)
        &&& self.ep_info.pawn.0 == shadow || self.ep_info == EnPassant::spec_new()
        &&& self.moving_player.king_must_move || {
            &&& forall|j: int| 0 <= j < 8 ==> #[trigger] self.noted(shadow, ray_order(j))
            &&& self.ep_info.pawn.0 != 0 ==> forall|j: int|
                0 <= j < 8 ==> !#[trigger] self.opened_by_ep(
                    shadow,
                    self.ep_attackers(),
                    ray_order(j),
                )
            &&& self.pins_lie(shadow, Line::Horizontal)
            &&& self.pins_lie(shadow, Line::Vertical)
            &&& self.pins_lie(shadow, Line::Diagonal)
            &&& self.pins_lie(shadow, Line::AntiDiagonal)
            &&& self.leapers_noted()
        }
    }

    /// The position is sound: the side that has just moved is not in check,
    /// and the constraints on the side to move are those of the pieces as
    /// they stand.
    pub open spec fn sound(self) -> bool {
        &&& self.guarded()
        &&& self.attacks_current()
        &&& exists|shadow: u64| self.constrained(shadow)
    }

    /// What holds after the rays before number `i` have been looked at
    /// without a second check, in a scan that started from `start`.
    pub open spec fn scanned(self, start: Position, i: int) -> bool {
        let shadow = start.ep_info.pawn.0;
        &&& start.same_placement(self)
        &&& !self.moving_player.king_must_move
        &&& self.ep_info == start.ep_info || self.ep_info == EnPassant::spec_new()
        &&& forall|j: int| 0 <= j < i ==> #[trigger] self.noted(shadow, ray_order(j))
        &&& self.ep_info.pawn.0 != 0 ==> forall|j: int|
            0 <= j < i ==> !#[trigger] start.opened_by_ep(shadow, start.ep_attackers(), ray_order(j))
        &&& self.ep_info != start.ep_info ==> exists|j: int|
            0 <= j < i && #[trigger] start.king_ray(start.through(shadow), ray_order(j)) & shadow
                != 0
        &&& self.pins_lie(shadow, Line::Horizontal)
        &&& self.pins_lie(shadow, Line::Vertical)
        &&& self.pins_lie(shadow, Line::Diagonal)
        &&& self.pins_lie(shadow, Line::AntiDiagonal)
    }
}

/// A ray from the king is not the whole board.
proof fn lemma_ray_not_full(k: u64, e: u64, d: Direction)
    requires
        single(k),
    ensures
        slide(k, e, d) != u64::MAX,
{
    lemma_apart(k, e, d, d);
    lemma_disjoint(slide(k, e, d), k);
    lemma_lowest(k);
    lemma_bit_consts(0, lowest(k));
}

/// Two rays from the king in different directions do not both pass one pawn.
proof fn lemma_one_ray(k: u64, e: u64, shadow: u64, d: Direction, other: Direction)
    requires
        single(k),
        single(shadow),
        d != other,
        slide(k, e, d) & shadow != 0,
    ensures
        slide(k, e, other) & shadow == 0,
{
    lemma_apart(k, e, d, other);
    lemma_single(shadow);
    lemma_disjoint(slide(k, e, d), shadow);
    lemma_disjoint(slide(k, e, other), shadow);
    lemma_disjoint(slide(k, e, d), slide(k, e, other));
    if slide(k, e, other) & shadow != 0 {
        let i = lowest(slide(k, e, d) & shadow);
        let j = lowest(slide(k, e, other) & shadow);
        assert(i == lowest(shadow) && j == lowest(shadow));
    }
}

/// Adding a ray to pins keeps what the pins held, and holds the ray.
proof fn lemma_pins_grow(pins: u64, ray: u64, held: u64, a: u64, b: u64)
    requires
        pins & held == held,
        pins & !(a | b) == 0,
        ray == a || ray == b,
    ensures
        (pins | ray) & held == held,
        (pins | ray) & ray == ray,
        (pins | ray) & !(a | b) == 0,
{
    broadcast use lemma_bit_and, lemma_bit_or, lemma_bit_not;

    lemma_disjoint(pins, !(a | b));
    assert forall|i: int| 0 <= i < 64 implies bit((pins | ray) & held, i) == bit(held, i) by {
        assert(bit(pins & held, i) == bit(held, i));
    }
    lemma_eq_by_bits((pins | ray) & held, held);
    assert forall|i: int| 0 <= i < 64 implies bit((pins | ray) & ray, i) == bit(ray, i) by {}
    lemma_eq_by_bits((pins | ray) & ray, ray);
    assert forall|i: int| 0 <= i < 64 implies bit((pins | ray) & !(a | b), i) == bit(0, i) by {
        lemma_bit_consts(0, i);
        assert(!(bit(pins, i) && bit(!(a | b), i)));
    }
    lemma_eq_by_bits((pins | ray) & !(a | b), 0);
}

impl Position {
    /// The ray `r` in direction `d` is a pin.
    pub open spec fn ray_pins(self, r: u64, d: Direction) -> bool {
        r & self.casters(d) != 0 && r & self.ep_info.pawn.0 == 0 && single(
            r & self.moving_player.occupied.0,
        )
    }

    /// The ray `r` in direction `d` is a check.
    pub open spec fn ray_checks(self, r: u64, d: Direction) -> bool {
        r & self.casters(d) != 0 && r & self.ep_info.pawn.0 == 0 && r
            & self.moving_player.occupied.0 == 0
    }

    /// The ray `r` in direction `d` ends the right to capture en passant.
    pub open spec fn ray_clears(self, r: u64, d: Direction, epa: u64) -> bool {
        let blockers = r & self.moving_player.occupied.0;
        r & self.casters(d) != 0 && r & self.ep_info.pawn.0 != 0 && ((d.is_horizontal() && single(
            blockers,
        ) && r & epa != 0) || (d.is_non_vertical() && blockers == 0))
    }
}

/// What one ray changes, field by field.
proof fn lemma_after_ray(p: Position, r: u64, d: Direction, epa: u64)
    ensures
        ({
            let next = p.after_ray(r, d, epa);
            &&& p.same_placement(next)
            &&& next.moving_player.check_mask.0 == if p.ray_checks(r, d)
                && p.moving_player.check_mask.0 == u64::MAX {
                r
            } else {
                p.moving_player.check_mask.0
            }
            &&& next.moving_player.king_must_move == (p.moving_player.king_must_move || p.ray_stops(
                r,
                d,
            ))
            &&& next.ep_info == if p.ray_clears(r, d, epa) {
                EnPassant::spec_new()
            } else {
                p.ep_info
            }
            &&& forall|line: Line|
                next.moving_player.pins.on_line(line) == if p.ray_pins(r, d) && line == d.line() {
                    p.moving_player.pins.on_line(line) | r
                } else {
                    p.moving_player.pins.on_line(line)
                }
        }),
{
    assert(!single(0));
}

/// The new ray is noted after its step.
proof fn lemma_step_new(p: Position, start: Position, i: int)
    requires
        0 <= i < 8,
        start.wf_placement(),
        p.scanned(start, i),
        !p.ray_stops(p.king_ray(start.ray_squares(), ray_order(i)), ray_order(i)),
    ensures
        p.after_ray(
            p.king_ray(start.ray_squares(), ray_order(i)),
            ray_order(i),
            start.ep_attackers(),
        ).noted(start.ep_info.pawn.0, ray_order(i)),
{
    let shadow = start.ep_info.pawn.0;
    let thr = start.through(shadow);
    let d = ray_order(i);
    let r = p.king_ray(thr, d);
    let k = start.moving_player.king.0;
    let next = p.after_ray(r, d, start.ep_attackers());
    let line = d.line();
    let pins = p.moving_player.pins.on_line(line);
    lemma_after_ray(p, r, d, start.ep_attackers());
    lemma_and_zero(r);
    assert(!single(0));
    if r & p.casters(d) != 0 && r & p.ep_info.pawn.0 == 0 && p.ep_info != start.ep_info {
        let j = choose|j: int|
            0 <= j < i && #[trigger] start.king_ray(start.through(shadow), ray_order(j)) & shadow
                != 0;
        lemma_single_bit(lowest(shadow) as u64);
        lemma_one_ray(k, thr, shadow, ray_order(j), d);
    }
    if p.ray_pins(r, d) {
        lemma_and_zero(pins);
        lemma_pins_grow(pins, r, 0, p.king_ray(thr, along(line).0), p.king_ray(thr, along(line).1));
    }
    assert(next.king_ray(next.through(shadow), d) == r);
    assert(next.casters(d) == p.casters(d));
}

/// A ray noted before stays noted after the step of another ray.
proof fn lemma_step_old(p: Position, start: Position, i: int, j: int)
    requires
        0 <= j < i < 8,
        start.wf_placement(),
        p.scanned(start, i),
        !p.ray_stops(p.king_ray(start.ray_squares(), ray_order(i)), ray_order(i)),
    ensures
        p.after_ray(
            p.king_ray(start.ray_squares(), ray_order(i)),
            ray_order(i),
            start.ep_attackers(),
        ).noted(start.ep_info.pawn.0, ray_order(j)),
{
    let shadow = start.ep_info.pawn.0;
    let thr = start.through(shadow);
    let d = ray_order(i);
    let e = ray_order(j);
    let r = p.king_ray(thr, d);
    let rj = p.king_ray(thr, e);
    let k = start.moving_player.king.0;
    let next = p.after_ray(r, d, start.ep_attackers());
    let line = d.line();
    let pins = p.moving_player.pins.on_line(line);
    lemma_after_ray(p, r, d, start.ep_attackers());
    assert(p.noted(shadow, e));
    lemma_ray_not_full(k, thr, e);
    if p.ray_pins(r, d) && e.line() == line && rj & p.casters(e) != 0 && rj & shadow == 0 && single(
        rj & p.moving_player.occupied.0,
    ) {
        lemma_pins_grow(pins, r, rj, p.king_ray(thr, along(line).0), p.king_ray(thr, along(line).1));
    }
    assert(next.king_ray(next.through(shadow), e) == rj);
    assert(next.casters(e) == p.casters(e));
}

/// The pins lie on the rays after the step of a ray.
proof fn lemma_step_pins(p: Position, start: Position, i: int, line: Line)
    requires
        0 <= i < 8,
        start.wf_placement(),
        p.scanned(start, i),
    ensures
        p.after_ray(
            p.king_ray(start.ray_squares(), ray_order(i)),
            ray_order(i),
            start.ep_attackers(),
        ).pins_lie(start.ep_info.pawn.0, line),
{
    let shadow = start.ep_info.pawn.0;
    let thr = start.through(shadow);
    let d = ray_order(i);
    let r = p.king_ray(thr, d);
    let pins = p.moving_player.pins.on_line(line);
    lemma_after_ray(p, r, d, start.ep_attackers());
    assert(p.pins_lie(shadow, line));
    if p.ray_pins(r, d) && line == d.line() {
        lemma_and_zero(pins);
        lemma_pins_grow(pins, r, 0, p.king_ray(thr, along(line).0), p.king_ray(thr, along(line).1));
    }
}

/// What one ray adds to a scan.
proof fn lemma_scan_step(p: Position, start: Position, i: int)
    requires
        0 <= i < 8,
        start.wf_placement(),
        p.scanned(start, i),
    ensures
        ({
            let d = ray_order(i);
            let r = p.king_ray(start.ray_squares(), d);
            let next = p.after_ray(r, d, start.ep_attackers());
            &&& p.ray_stops(r, d) ==> next.moving_player.king_must_move
            &&& !p.ray_stops(r, d) ==> next.scanned(start, i + 1)
        }),
{
    let shadow = start.ep_info.pawn.0;
    let thr = start.through(shadow);
    let d = ray_order(i);
    let r = p.king_ray(thr, d);
    let next = p.after_ray(r, d, start.ep_attackers());
    lemma_after_ray(p, r, d, start.ep_attackers());
    if !p.ray_stops(r, d) {
        lemma_step_new(p, start, i);
        assert forall|j: int| 0 <= j < i + 1 implies #[trigger] next.noted(shadow, ray_order(j)) by {
            if j < i {
                lemma_step_old(p, start, i, j);
            }
        }
        if next.ep_info.pawn.0 != 0 {
            assert forall|j: int| 0 <= j < i + 1 implies !#[trigger] start.opened_by_ep(
                shadow,
                start.ep_attackers(),
                ray_order(j),
            ) by {}
        }
        if next.ep_info != start.ep_info {
            if p.ep_info != start.ep_info {
                let j = choose|j: int|
                    0 <= j < i && #[trigger] start.king_ray(start.through(shadow), ray_order(j))
                        & shadow != 0;
                assert(0 <= j < i + 1 && start.king_ray(start.through(shadow), ray_order(j)) & shadow
                    != 0);
            } else {
                assert(start.king_ray(start.through(shadow), ray_order(i)) & shadow != 0);
            }
        }
        lemma_step_pins(p, start, i, Line::Horizontal);
        lemma_step_pins(p, start, i, Line::Vertical);
        lemma_step_pins(p, start, i, Line::Diagonal);
        lemma_step_pins(p, start, i, Line::AntiDiagonal);
    }
}

/// No set has a square in common with the empty set.
proof fn lemma_and_zero(x: u64)
    ensures
        x & 0 == 0,
{
    assert forall|i: int| 0 <= i < 64 implies bit(x & 0, i) == bit(0, i) by {
        lemma_bit_and(x, 0, i);
        lemma_bit_consts(0, i);
    }
    lemma_eq_by_bits(x & 0, 0);
}

/// A scan that is not cut short by a second check notes every ray.
proof fn lemma_scan(p: Position, start: Position, i: int)
    requires
        0 <= i <= 8,
        start.wf_placement(),
        p.scanned(start, i),
    ensures
        ({
            let last = p.after_rays(i, start.ray_squares(), start.ep_attackers());
            last.moving_player.king_must_move || last.scanned(start, 8)
        }),
    decreases 8 - i,
{
    if i < 8 {
        let d = ray_order(i);
        let r = p.king_ray(start.ray_squares(), d);
        let next = p.after_ray(r, d, start.ep_attackers());
        lemma_scan_step(p, start, i);
        if !p.ray_stops(r, d) {
            lemma_scan(next, start, i + 1);
        }
    }
}

/// The king of a well-formed position is one piece, and the pawn that can
/// be captured en passant, if there is one, is one pawn of the other side.
proof fn lemma_shadow(p: Position)
    requires
        p.wf_placement(),
    ensures
        p.ep_info.pawn.0 == 0 || single(p.ep_info.pawn.0),
        p.ep_info.pawn.0 & !p.moved_player.pawns.0 == 0,
{
    let shadow = p.ep_info.pawn.0;
    if shadow != 0 {
        let at = lowest(shadow);
        lemma_single_bit(at as u64);
        lemma_single(shadow);
        assert(p.agrees_at(at));
    }
    assert forall|i: int| 0 <= i < 64 implies bit(shadow & !p.moved_player.pawns.0, i) == bit(
        0,
        i,
    ) by {
        lemma_bit_and(shadow, !p.moved_player.pawns.0, i);
        lemma_bit_not(p.moved_player.pawns.0, i);
        lemma_bit_consts(0, i);
    }
    lemma_eq_by_bits(shadow & !p.moved_player.pawns.0, 0);
}

/// Before the first ray nothing is noted, and nothing needs to be.
proof fn lemma_scan_start(p: Position)
    requires
        p.wf_placement(),
    ensures
        p.spec_reset_constraints().spec_update_attacks().scanned(
            p.spec_reset_constraints().spec_update_attacks(),
            0,
        ),
        p.spec_reset_constraints().spec_update_attacks().wf_placement(),
        p.spec_reset_constraints().spec_update_attacks().attacks_current(),
{
    let start = p.spec_reset_constraints().spec_update_attacks();
    assert forall|sq: int| 0 <= sq < 64 implies #[trigger] start.agrees_at(sq) by {
        assert(p.agrees_at(sq));
    }
    let shadow = start.ep_info.pawn.0;
    lemma_zero_and(!(start.king_ray(start.through(shadow), along(Line::Horizontal).0)
        | start.king_ray(start.through(shadow), along(Line::Horizontal).1)));
    lemma_zero_and(!(start.king_ray(start.through(shadow), along(Line::Vertical).0)
        | start.king_ray(start.through(shadow), along(Line::Vertical).1)));
    lemma_zero_and(!(start.king_ray(start.through(shadow), along(Line::Diagonal).0)
        | start.king_ray(start.through(shadow), along(Line::Diagonal).1)));
    lemma_zero_and(!(start.king_ray(start.through(shadow), along(Line::AntiDiagonal).0)
        | start.king_ray(start.through(shadow), along(Line::AntiDiagonal).1)));
}

/// The empty set has no square in common with any set.
proof fn lemma_zero_and(x: u64)
    ensures
        0 & x == 0,
{
    assert forall|i: int| 0 <= i < 64 implies bit(0 & x, i) == bit(0, i) by {
        lemma_bit_and(0, x, i);
        lemma_bit_consts(0, i);
    }
    lemma_eq_by_bits(0 & x, 0);
}

/// Computing the constraints on the side to move makes them those of the
/// pieces as they stand.
pub proof fn lemma_constraints_sound(p: Position)
    requires
        p.wf_placement(),
    ensures
        p.spec_update_move_constraints().attacks_current(),
        p.spec_update_move_constraints().constrained(p.ep_info.pawn.0),
{
    let start = p.spec_reset_constraints().spec_update_attacks();
    let last = start.spec_update_pins_and_scm();
    let q = last.spec_update_non_sliding_cm();
    let shadow = p.ep_info.pawn.0;
    lemma_scan_start(p);
    lemma_scan(start, start, 0);
    lemma_shadow(start);
    lemma_after_rays_settles(start, 0, start.ray_squares(), start.ep_attackers());
    assert(start.same_placement(last));
    assert(start.same_placement(q));
    assert(AttackGen::of(q) == AttackGen::of(start));
    assert(q.attacks_current());
    assert(shadow & !q.moved_player.pawns.0 == 0);
    assert(q.ep_info.pawn.0 == shadow || q.ep_info == EnPassant::spec_new());
    if !q.moving_player.king_must_move {
        assert(last.scanned(start, 8));
        assert forall|j: int| 0 <= j < 8 implies #[trigger] q.noted(shadow, ray_order(j)) by {
            assert(last.noted(shadow, ray_order(j)));
            lemma_ray_not_full(start.moving_player.king.0, start.through(shadow), ray_order(j));
        }
        if q.ep_info.pawn.0 != 0 {
            assert forall|j: int| 0 <= j < 8 implies !#[trigger] q.opened_by_ep(
                shadow,
                q.ep_attackers(),
                ray_order(j),
            ) by {
                assert(!start.opened_by_ep(shadow, start.ep_attackers(), ray_order(j)));
            }
        }
        assert(last.pins_lie(shadow, Line::Horizontal));
        assert(last.pins_lie(shadow, Line::Vertical));
        assert(last.pins_lie(shadow, Line::Diagonal));
        assert(last.pins_lie(shadow, Line::AntiDiagonal));
        assert(q.pins_lie(shadow, Line::Horizontal));
        assert(q.pins_lie(shadow, Line::Vertical));
        assert(q.pins_lie(shadow, Line::Diagonal));
        assert(q.pins_lie(shadow, Line::AntiDiagonal));
        assert(q.leapers_noted());
    }
}

} // verus!
