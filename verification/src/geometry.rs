//! Placement of the main slots: the squish scale and each populated slot's
//! orbital geometry.
//!
//! A populated slot's breathing room is the average of its angular distances
//! to the previous and next populated slots, walking the compass circularly.
//! Its visual scale grows with the square root of that room, capped at 2.5x;
//! its orbital position stays on the compass grid.

use crate::direction::spec_base_angle;
use crate::trig::{isqrt, lemma_isqrt_bounds, lemma_isqrt_monotone, spec_isqrt};
use crate::{
    ANGLE_STEP, FULL_TURN, MAX_SCALE_MILLI, MENU_RADIUS_MPX, SCALE_CAP_MILLI, SLOT_RADIUS_MPX,
    SUBSLOT_ORBIT_MPX, SUBSLOT_RADIUS_MPX, SUBSLOT_SCALE_MILLI,
};
use vstd::prelude::*;

verus! {

/// Derived screen geometry of one slot or subslot: its normalized orbital
/// angle, orbital distance and circle radius in milli-pixels, and its content
/// scale in milli-units.
#[derive(Clone, Copy, Debug)]
pub struct SlotGeometry {
    pub angle: i64,
    pub orbit: i64,
    pub radius: i64,
    pub scale: i64,
}

/// The squish scale in milli-units for angular breathing room `width`:
/// the square root of `width` over the slot step, capped at 2.5x.
pub open spec fn spec_squish_scale(width: int) -> int {
    vstd::math::min(spec_isqrt(width * 1000000 / (ANGLE_STEP as int)), SCALE_CAP_MILLI as int)
}

/// The squish scale never exceeds its cap and never goes negative.
pub proof fn lemma_squish_scale_range(width: int)
    requires
        width >= 0,
    ensures
        0 <= spec_squish_scale(width) <= SCALE_CAP_MILLI,
{
    vstd::arithmetic::div_mod::lemma_div_pos_is_pos(width * 1000000, ANGLE_STEP as int);
    lemma_isqrt_bounds(width * 1000000 / (ANGLE_STEP as int));
}

/// The squish scale is monotonically non-decreasing in the available width.
pub proof fn lemma_squish_scale_monotone(w1: int, w2: int)
    requires
        0 <= w1 <= w2,
    ensures
        spec_squish_scale(w1) <= spec_squish_scale(w2),
{
    let step = ANGLE_STEP as int;
    assert(w1 * 1000000 <= w2 * 1000000) by (nonlinear_arith)
        requires
            w1 <= w2,
    ;
    vstd::arithmetic::div_mod::lemma_div_pos_is_pos(w1 * 1000000, step);
    vstd::arithmetic::div_mod::lemma_div_is_ordered(w1 * 1000000, w2 * 1000000, step);
    lemma_isqrt_monotone(w1 * 1000000 / step, w2 * 1000000 / step);
}

/// A lone populated slot gets the whole circle as breathing room, and its
/// scale is exactly the cap.
pub proof fn lemma_squish_scale_full_circle()
    ensures
        spec_squish_scale(FULL_TURN as int) == SCALE_CAP_MILLI,
{
    assert((FULL_TURN as int) * 1000000 == 8000000 * (ANGLE_STEP as int));
    vstd::arithmetic::div_mod::lemma_div_by_multiple(8000000, ANGLE_STEP as int);
    crate::trig::lemma_isqrt_unique(8000000, 2828);
}

/// A slot that is the only populated one gets the whole circle as breathing
/// room on both sides, so its scale is exactly the cap.
pub proof fn lemma_lone_slot_scale(filled: Seq<usize>, index: usize)
    requires
        filled.len() == 1,
        filled[0] == index,
        index < 8,
    ensures
        spec_scale_for(filled, index) == SCALE_CAP_MILLI,
{
    assert(filled_wf(filled));
    lemma_pos_unique(filled, index, 0);
    assert(spec_d_left(filled, index) == FULL_TURN);
    assert(spec_d_right(filled, index) == FULL_TURN);
    assert(spec_width(filled, index) == FULL_TURN);
    lemma_squish_scale_full_circle();
}

/// Computes the squish scale in milli-units.
pub fn squish_scale(width: u64) -> (s: i64)
    requires
        width <= FULL_TURN,
    ensures
        s == spec_squish_scale(width as int),
        0 <= s <= SCALE_CAP_MILLI,
{
    proof {
        lemma_squish_scale_range(width as int);
    }
    let r = isqrt(width * 1000000 / (ANGLE_STEP as u64));
    if r >= (SCALE_CAP_MILLI as u64) {
        SCALE_CAP_MILLI
    } else {
        r as i64
    }
}

/// A well-formed list of populated slot indices: strictly increasing, all
/// below the slot count.
pub open spec fn filled_wf(filled: Seq<usize>) -> bool {
    &&& forall|i: int, j: int| 0 <= i < j < filled.len() ==> filled[i] < filled[j]
    &&& forall|i: int| 0 <= i < filled.len() ==> filled[i] < 8
}

/// The position of `index` in the filled list.
pub open spec fn spec_pos(filled: Seq<usize>, index: usize) -> int {
    choose|p: int| 0 <= p < filled.len() && filled[p] == index
}

/// In a strictly increasing list the position of a value is unique.
pub proof fn lemma_pos_unique(filled: Seq<usize>, index: usize, p: int)
    requires
        filled_wf(filled),
        0 <= p < filled.len(),
        filled[p] == index,
    ensures
        spec_pos(filled, index) == p,
{
    let q = spec_pos(filled, index);
    assert(0 <= q < filled.len() && filled[q] == index);
    if p < q {
        assert(filled[p] < filled[q]);
    }
    if q < p {
        assert(filled[q] < filled[p]);
    }
}

/// Angular distance walked counter-clockwise from the previous populated
/// slot to `index`, in angle units; the full circle when the slot is alone.
pub open spec fn spec_d_left(filled: Seq<usize>, index: usize) -> int {
    let n = filled.len() as int;
    let prev = filled[(spec_pos(filled, index) + n - 1) % n];
    if prev == index {
        FULL_TURN as int
    } else {
        ((index + 8 - prev) % 8) * ANGLE_STEP
    }
}

/// Angular distance walked clockwise from `index` to the next populated
/// slot, in angle units; the full circle when the slot is alone.
pub open spec fn spec_d_right(filled: Seq<usize>, index: usize) -> int {
    let n = filled.len() as int;
    let next = filled[(spec_pos(filled, index) + 1) % n];
    if next == index {
        FULL_TURN as int
    } else {
        ((next + 8 - index) % 8) * ANGLE_STEP
    }
}

/// The breathing room of a populated slot: the average of its two angular
/// distances.
pub open spec fn spec_width(filled: Seq<usize>, index: usize) -> int {
    (spec_d_left(filled, index) + spec_d_right(filled, index)) / 2
}

/// The squish scale of a populated slot.
pub open spec fn spec_scale_for(filled: Seq<usize>, index: usize) -> int {
    spec_squish_scale(spec_width(filled, index))
}

/// What the geometry of main slot `index` must be, for scale factor `sf`:
/// anchored at the slot's compass angle on the menu orbit, with the
/// squish-scaled radius.
pub open spec fn geom_ok(g: SlotGeometry, index: usize, filled: Seq<usize>, sf: int) -> bool {
    &&& g.angle == spec_base_angle(index as int)
    &&& g.orbit == MENU_RADIUS_MPX * sf / 1000
    &&& g.scale == spec_scale_for(filled, index)
    &&& g.radius == SLOT_RADIUS_MPX * g.scale * sf / 1000000
}

/// Bounds that every main-slot or subslot geometry satisfies under a
/// well-formed scale factor.
pub open spec fn geom_bounded(g: SlotGeometry) -> bool {
    &&& -crate::HALF_TURN < g.angle <= crate::HALF_TURN
    &&& 0 <= g.orbit <= 100_000_000
    &&& 0 <= g.radius <= 100_000_000
    &&& 0 <= g.scale <= SCALE_CAP_MILLI
}

/// A strictly increasing list of values below 8 has each entry at least its
/// own position.
proof fn lemma_increasing_lower(filled: Seq<usize>, i: int)
    requires
        filled_wf(filled),
        0 <= i < filled.len(),
    ensures
        filled[i] >= i,
    decreases i,
{
    if i > 0 {
        lemma_increasing_lower(filled, i - 1);
        assert(filled[i - 1] < filled[i]);
    }
}

/// A well-formed filled list holds at most the eight slot indices.
pub proof fn lemma_filled_len(filled: Seq<usize>)
    requires
        filled_wf(filled),
    ensures
        filled.len() <= 8,
{
    if filled.len() > 8 {
        lemma_increasing_lower(filled, 8);
    }
}

proof fn lemma_dist_bounds(filled: Seq<usize>, index: usize)
    requires
        filled_wf(filled),
        filled.contains(index),
    ensures
        0 <= spec_d_left(filled, index) <= FULL_TURN,
        0 <= spec_d_right(filled, index) <= FULL_TURN,
        spec_d_left(filled, index) % 2 == 0,
        spec_d_right(filled, index) % 2 == 0,
{
    let n = filled.len() as int;
    let p = spec_pos(filled, index);
    assert(0 <= p < n && filled[p] == index);
    vstd::arithmetic::div_mod::lemma_mod_division_less_than_divisor(p + n - 1, n);
    vstd::arithmetic::div_mod::lemma_mod_division_less_than_divisor(p + 1, n);
    let prev = filled[(p + n - 1) % n];
    let next = filled[(p + 1) % n];
    if prev != index {
        vstd::arithmetic::div_mod::lemma_mod_division_less_than_divisor(index + 8 - prev, 8);
    }
    if next != index {
        vstd::arithmetic::div_mod::lemma_mod_division_less_than_divisor(next + 8 - index, 8);
    }
}

/// Computes the geometry of populated main slot `index`.
pub fn calculate(index: usize, filled: &Vec<usize>, scale_factor: i64) -> (g: SlotGeometry)
    requires
        index < 8,
        filled_wf(filled@),
        filled@.contains(index),
        0 <= scale_factor <= MAX_SCALE_MILLI,
    ensures
        geom_ok(g, index, filled@, scale_factor as int),
        geom_bounded(g),
{
    proof {
        lemma_filled_len(filled@);
    }
    let n = filled.len();
    assert(n >= 1);
    let mut pos: usize = 0;
    while pos < n && filled[pos] != index
        invariant
            n == filled@.len(),
            pos <= n,
            filled@.contains(index),
            forall|j: int| 0 <= j < pos ==> filled@[j] != index,
        decreases n - pos,
    {
        pos = pos + 1;
    }
    assert(pos < n && filled@[pos as int] == index) by {
        if pos == n {
            let w = choose|q: int| 0 <= q < filled@.len() && filled@[q] == index;
            assert(filled@[w] == index);
        }
    }
    proof {
        lemma_pos_unique(filled@, index, pos as int);
        lemma_dist_bounds(filled@, index);
    }
    let prev = filled[(pos + n - 1) % n];
    let next = filled[(pos + 1) % n];
    let d_l: u64 = if prev == index {
        FULL_TURN as u64
    } else {
        (((index + 8 - prev) % 8) as u64) * (ANGLE_STEP as u64)
    };
    let d_r: u64 = if next == index {
        FULL_TURN as u64
    } else {
        (((next + 8 - index) % 8) as u64) * (ANGLE_STEP as u64)
    };
    let width = (d_l + d_r) / 2;
    assert(width as int == spec_width(filled@, index));
    let scale = squish_scale(width);
    proof {
        assert(0 <= SLOT_RADIUS_MPX * scale * scale_factor <= 0x7fff_ffff_ffff_ffff)
            by (nonlinear_arith)
            requires
                0 <= scale_factor <= MAX_SCALE_MILLI,
                0 <= scale <= SCALE_CAP_MILLI,
        ;
        assert(0 <= MENU_RADIUS_MPX * scale_factor <= 0x7fff_ffff_ffff_ffff) by (nonlinear_arith)
            requires
                0 <= scale_factor <= MAX_SCALE_MILLI,
        ;
    }
    let orbit = ((MENU_RADIUS_MPX as u64) * (scale_factor as u64) / 1000) as i64;
    let radius = ((SLOT_RADIUS_MPX as u64) * (scale as u64) * (scale_factor as u64)
        / 1000000) as i64;
    let angle = crate::direction::base_angle(index);
    proof {
        vstd::arithmetic::div_mod::lemma_div_pos_is_pos(
            MENU_RADIUS_MPX * scale_factor,
            1000,
        );
        vstd::arithmetic::div_mod::lemma_div_pos_is_pos(
            SLOT_RADIUS_MPX * scale * scale_factor,
            1000000,
        );
        assert(MENU_RADIUS_MPX * scale_factor / 1000 <= 100_000_000) by (nonlinear_arith)
            requires
                0 <= scale_factor <= MAX_SCALE_MILLI,
        ;
        assert(SLOT_RADIUS_MPX * scale * scale_factor / 1000000 <= 100_000_000)
            by (nonlinear_arith)
            requires
                0 <= scale_factor <= MAX_SCALE_MILLI,
                0 <= scale <= SCALE_CAP_MILLI,
        ;
    }
    SlotGeometry { angle, orbit, radius, scale }
}

/// What a subslot's geometry must be: the given normalized angle on the
/// subslot ring, with fixed radius and content scale.
pub open spec fn subslot_geom_ok(g: SlotGeometry, angle: int, sf: int) -> bool {
    &&& g.angle == angle
    &&& g.orbit == SUBSLOT_ORBIT_MPX * sf / 1000
    &&& g.radius == SUBSLOT_RADIUS_MPX * sf / 1000
    &&& g.scale == SUBSLOT_SCALE_MILLI
}

/// Computes the geometry of a subslot placed at `angle` on the subslot ring.
pub fn from_angle(angle: i64, scale_factor: i64) -> (g: SlotGeometry)
    requires
        -crate::HALF_TURN < angle <= crate::HALF_TURN,
        0 <= scale_factor <= MAX_SCALE_MILLI,
    ensures
        subslot_geom_ok(g, angle as int, scale_factor as int),
        geom_bounded(g),
{
    let orbit = ((SUBSLOT_ORBIT_MPX as u64) * (scale_factor as u64) / 1000) as i64;
    let radius = ((SUBSLOT_RADIUS_MPX as u64) * (scale_factor as u64) / 1000) as i64;
    proof {
        vstd::arithmetic::div_mod::lemma_div_pos_is_pos(SUBSLOT_ORBIT_MPX * scale_factor, 1000);
        vstd::arithmetic::div_mod::lemma_div_pos_is_pos(SUBSLOT_RADIUS_MPX * scale_factor, 1000);
        assert(SUBSLOT_ORBIT_MPX * scale_factor / 1000 <= 100_000_000) by (nonlinear_arith)
            requires
                0 <= scale_factor <= MAX_SCALE_MILLI,
        ;
        assert(SUBSLOT_RADIUS_MPX * scale_factor / 1000 <= 100_000_000) by (nonlinear_arith)
            requires
                0 <= scale_factor <= MAX_SCALE_MILLI,
        ;
    }
    SlotGeometry { angle, orbit, radius, scale: SUBSLOT_SCALE_MILLI }
}

} // verus!
