//! Angle normalization, circular distance and angular segments, in exact
//! fixed-point units (`FULL_TURN` units per full circle).

use crate::{ANGLE_ARG_LIMIT, FULL_TURN, HALF_TURN};
use vstd::prelude::*;

verus! {

/// Mathematical normalization of an angle into the half-open-below interval
/// (-HALF_TURN, HALF_TURN], congruent to `a` modulo a full turn.
pub open spec fn norm(a: int) -> int {
    HALF_TURN - ((HALF_TURN - a) % (FULL_TURN as int))
}

/// Shortest unsigned angular distance between two angles; always in
/// [0, HALF_TURN].
pub open spec fn circ_dist(a: int, b: int) -> int {
    vstd::math::abs(norm(a - b)) as int
}

pub proof fn lemma_norm_range(a: int)
    ensures
        -HALF_TURN < norm(a) <= HALF_TURN,
{
    vstd::arithmetic::div_mod::lemma_mod_division_less_than_divisor(
        HALF_TURN - a,
        FULL_TURN as int,
    );
}

/// An angle already in the normalized interval is its own normal form.
pub proof fn lemma_norm_identity(a: int)
    requires
        -HALF_TURN < a <= HALF_TURN,
    ensures
        norm(a) == a,
{
    vstd::arithmetic::div_mod::lemma_small_mod((HALF_TURN - a) as nat, FULL_TURN as nat);
}

/// Normalization keeps the angle's congruence class modulo a full turn.
pub proof fn lemma_norm_congruent(a: int)
    ensures
        (norm(a) - a) % (FULL_TURN as int) == 0,
{
    let f = FULL_TURN as int;
    let x = HALF_TURN - a;
    vstd::arithmetic::div_mod::lemma_fundamental_div_mod(x, f);
    assert(norm(a) - a == (x / f) * f);
    vstd::arithmetic::div_mod::lemma_mod_multiples_basic(x / f, f);
}

/// Normalizes an angle into (-HALF_TURN, HALF_TURN].
pub fn normalize(a: i64) -> (r: i64)
    requires
        -ANGLE_ARG_LIMIT <= a <= ANGLE_ARG_LIMIT,
    ensures
        r == norm(a as int),
        -HALF_TURN < r <= HALF_TURN,
{
    let x = HALF_TURN - a;
    proof {
        vstd::arithmetic::div_mod::lemma_mod_division_less_than_divisor(x as int, FULL_TURN as int);
        vstd::arithmetic::div_mod::lemma_mod_bound(x as int, FULL_TURN as int);
    }
    let m = x.checked_rem_euclid(FULL_TURN).unwrap();
    HALF_TURN - m
}

/// The normal forms of an angle and of its negation have the same magnitude.
pub proof fn lemma_norm_neg(a: int)
    ensures
        vstd::math::abs(norm(-a)) == vstd::math::abs(norm(a)),
{
    let f = FULL_TURN as int;
    let u = (HALF_TURN - a) % f;
    let v = (HALF_TURN + a) % f;
    vstd::arithmetic::div_mod::lemma_mod_division_less_than_divisor(HALF_TURN - a, f);
    vstd::arithmetic::div_mod::lemma_mod_division_less_than_divisor(HALF_TURN + a, f);
    vstd::arithmetic::div_mod::lemma_add_mod_noop(HALF_TURN - a, HALF_TURN + a, f);
    assert((HALF_TURN - a) + (HALF_TURN + a) == f);
    vstd::arithmetic::div_mod::lemma_mod_self_0(f);
    assert((u + v) % f == 0);
    assert(0 <= u + v < 2 * f);
    if u + v >= f {
        vstd::arithmetic::div_mod::lemma_mod_sub_multiples_vanish((u + v) as int, f);
        vstd::arithmetic::div_mod::lemma_small_mod((u + v - f) as nat, f as nat);
        assert(u + v == f);
        assert(norm(-a) == -norm(a));
    } else {
        vstd::arithmetic::div_mod::lemma_small_mod((u + v) as nat, f as nat);
        assert(u == 0 && v == 0);
        assert(norm(a) == HALF_TURN && norm(-a) == HALF_TURN);
    }
}

/// Circular distance is symmetric, bounded by a half turn, and zero between an
/// angle and itself.
pub proof fn lemma_circ_dist_properties(a: int, b: int)
    ensures
        circ_dist(a, b) == circ_dist(b, a),
        0 <= circ_dist(a, b) <= HALF_TURN,
        circ_dist(a, a) == 0,
{
    lemma_norm_neg(a - b);
    assert(-(a - b) == b - a);
    lemma_norm_range(a - b);
    lemma_norm_identity(0);
}

/// Computes the shortest unsigned angular distance between two angles.
pub fn circular_distance(a: i64, b: i64) -> (r: i64)
    requires
        -ANGLE_ARG_LIMIT / 2 <= a <= ANGLE_ARG_LIMIT / 2,
        -ANGLE_ARG_LIMIT / 2 <= b <= ANGLE_ARG_LIMIT / 2,
    ensures
        r == circ_dist(a as int, b as int),
        0 <= r <= HALF_TURN,
{
    let d = normalize(a - b);
    if d < 0 {
        -d
    } else {
        d
    }
}

/// A half-open angular interval [start, end), measured counter-clockwise,
/// that never wraps: both bounds lie in [-HALF_TURN, HALF_TURN].
#[derive(Clone, Copy, Debug)]
pub struct AngularSegment {
    pub start: i64,
    pub end: i64,
}

/// The single segment covering the whole circle.
pub open spec fn full_segment() -> AngularSegment {
    AngularSegment { start: (-8388608) as i64, end: 8388608 as i64 }
}

impl AngularSegment {
    /// A segment is well formed when its bounds are ordered and lie within
    /// one turn centered on zero.
    pub open spec fn wf(self) -> bool {
        -HALF_TURN <= self.start <= self.end <= HALF_TURN
    }

    /// Whether the angle `x` lies inside this half-open segment.
    pub open spec fn spec_contains(self, x: int) -> bool {
        self.start <= x < self.end
    }

    /// The angular length of the segment.
    pub open spec fn spec_len(self) -> int {
        self.end - self.start
    }

    pub fn new(start: i64, end: i64) -> (s: Self)
        ensures
            s.start == start,
            s.end == end,
    {
        Self { start, end }
    }

    /// The angular length of the segment.
    pub fn len(&self) -> (l: i64)
        requires
            self.wf(),
        ensures
            l == self.spec_len(),
    {
        self.end - self.start
    }
}

} // verus!
