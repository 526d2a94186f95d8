//! The aggregate engine state and the interaction state machine: cursor
//! coordinates in, hover and activation decisions out.

use crate::allocator::{
    allocate_counts, lemma_count_le_sum, lemma_prefix_count_mono, lemma_prefix_count_step,
    prefix_count, spec_floor_share, spec_seg_angle, subslot_angles, sum_counts, sum_lens,
    total_length,
};
use crate::angle::{circ_dist, full_segment, AngularSegment};
use crate::apps::AppInfo;
use crate::direction::spec_base_angle;
use crate::geometry::{
    calculate, from_angle, geom_bounded, geom_ok, subslot_geom_ok, SlotGeometry,
};
use crate::segments::{find_free_segments, full_circle, in_segments, segs_wf, unblocked};
use crate::slots::{
    last_binding, slot_has_binding, spec_sub_key, sub_key, Config, Slot, SubSlot,
};
use crate::text::{lower_of, lowercase};
use crate::trig::spec_atan2;
use crate::{
    COORD_LIMIT, FREE_EPSILON, HALF_TURN, INNER_RADIUS_MPX, MAX_MONITOR_HEIGHT, MAX_SCALE_MILLI,
    OUTER_RADIUS_MPX, REFERENCE_HEIGHT, SUB_KEY_COUNT,
};
use vstd::prelude::*;

verus! {

/// A position in overlay-window space, in milli-pixels.
#[derive(Clone, Copy, Debug, PartialEq, Eq, Structural)]
pub struct Point {
    pub x: i64,
    pub y: i64,
}

impl Point {
    pub fn new(x: i64, y: i64) -> (p: Point)
        ensures
            p.x == x,
            p.y == y,
    {
        Point { x, y }
    }
}

/// What one cursor update asks of the caller: repaint, and/or fire the
/// hovered slot's action.
#[derive(Clone, Copy, Debug, PartialEq, Eq, Structural, Default)]
pub struct CursorAction {
    pub should_redraw: bool,
    pub should_activate: bool,
}

impl CursorAction {
    pub fn new(should_redraw: bool, should_activate: bool) -> (r: CursorAction)
        ensures
            r.should_redraw == should_redraw,
            r.should_activate == should_activate,
    {
        CursorAction { should_redraw, should_activate }
    }
}

/// The sorted list of populated slot indices below `i`.
pub open spec fn spec_filled(slots: Seq<Slot>, i: int) -> Seq<usize>
    decreases i,
{
    if i <= 0 {
        Seq::empty()
    } else {
        let p = spec_filled(slots, i - 1);
        if slots[i - 1].app is Some {
            p.push((i - 1) as usize)
        } else {
            p
        }
    }
}

pub proof fn lemma_spec_filled(slots: Seq<Slot>, i: int)
    requires
        0 <= i <= 8,
        slots.len() == 8,
    ensures
        crate::geometry::filled_wf(spec_filled(slots, i)),
        forall|u: usize|
            spec_filled(slots, i).contains(u) <==> (u < i && slots[u as int].app is Some),
        forall|t: int|
            0 <= t < spec_filled(slots, i).len() ==> #[trigger] spec_filled(slots, i)[t] < i,
    decreases i,
{
    if i > 0 {
        lemma_spec_filled(slots, i - 1);
        let p = spec_filled(slots, i - 1);
        let cur = spec_filled(slots, i);
        if slots[i - 1].app is Some {
            assert forall|u: usize| cur.contains(u) implies (u < i && slots[u as int].app
                is Some) by {
                let t = choose|t: int| 0 <= t < cur.len() && cur[t] == u;
                if t < p.len() {
                    assert(p.contains(u));
                }
            }
            assert forall|u: usize| (u < i && slots[u as int].app is Some) implies cur.contains(
                u,
            ) by {
                if u < i - 1 {
                    assert(p.contains(u));
                    let t = choose|t: int| 0 <= t < p.len() && p[t] == u;
                    assert(cur[t] == u);
                } else {
                    assert(cur[cur.len() - 1] == u);
                }
            }
        } else {
            assert forall|u: usize| cur.contains(u) implies (u < i && slots[u as int].app
                is Some) by {}
            assert forall|u: usize| (u < i && slots[u as int].app is Some) implies cur.contains(
                u,
            ) by {
                assert(u < i - 1 || !(slots[u as int].app is Some) || u as int == i - 1);
            }
        }
    }
}

/// Computes the sorted list of populated slot indices.
pub fn filled_slot_indices(slots: &Vec<Slot>) -> (r: Vec<usize>)
    requires
        slots@.len() == 8,
    ensures
        r@ == spec_filled(slots@, 8),
{
    let mut out: Vec<usize> = Vec::new();
    let mut i: usize = 0;
    while i < 8
        invariant
            slots@.len() == 8,
            i <= 8,
            out@ == spec_filled(slots@, i as int),
        decreases 8 - i,
    {
        if slots[i].app.is_some() {
            out.push(i);
        }
        i = i + 1;
    }
    out
}

/// Computes the geometry snapshot of the main slots: populated slots get
/// their squish-scaled compass placement, unpopulated ones nothing.
pub fn compute_slot_geometries(slots: &Vec<Slot>, scale_factor: i64) -> (r: Vec<
    Option<SlotGeometry>,
>)
    requires
        slots@.len() == 8,
        0 <= scale_factor <= MAX_SCALE_MILLI,
    ensures
        r@.len() == 8,
        forall|i: int| 0 <= i < 8 ==> (#[trigger] r@[i] is Some <==> slots@[i].app is Some),
        forall|i: int|
            0 <= i < 8 && r@[i] is Some ==> geom_ok(
                #[trigger] r@[i]->0,
                i as usize,
                spec_filled(slots@, 8),
                scale_factor as int,
            ) && geom_bounded(r@[i]->0),
{
    proof {
        lemma_spec_filled(slots@, 8);
    }
    let filled = filled_slot_indices(slots);
    let mut out: Vec<Option<SlotGeometry>> = Vec::new();
    let mut i: usize = 0;
    while i < 8
        invariant
            slots@.len() == 8,
            filled@ == spec_filled(slots@, 8),
            crate::geometry::filled_wf(filled@),
            forall|u: usize| filled@.contains(u) <==> (u < 8 && slots@[u as int].app is Some),
            0 <= scale_factor <= MAX_SCALE_MILLI,
            i <= 8,
            out@.len() == i,
            forall|t: int| 0 <= t < i ==> (#[trigger] out@[t] is Some <==> slots@[t].app is Some),
            forall|t: int|
                0 <= t < i && out@[t] is Some ==> geom_ok(
                    #[trigger] out@[t]->0,
                    t as usize,
                    spec_filled(slots@, 8),
                    scale_factor as int,
                ) && geom_bounded(out@[t]->0),
        decreases 8 - i,
    {
        if slots[i].app.is_some() {
            let g = calculate(i, &filled, scale_factor);
            out.push(Some(g));
        } else {
            out.push(None);
        }
        i = i + 1;
    }
    out
}

/// The squared distance between two points, in squared milli-pixels.
pub open spec fn spec_dist2(c: Point, p: Point) -> int {
    (p.x - c.x) * (p.x - c.x) + (p.y - c.y) * (p.y - c.y)
}

/// The dead-zone radius for a scale factor, in milli-pixels.
pub open spec fn inner_threshold(sf: int) -> int {
    INNER_RADIUS_MPX * sf / 1000
}

/// The activation-ring radius for a scale factor, in milli-pixels.
pub open spec fn outer_threshold(sf: int) -> int {
    OUTER_RADIUS_MPX * sf / 1000
}

/// The angle of the cursor as seen from the center.
pub open spec fn spec_cursor_angle(center: Point, p: Point) -> int {
    spec_atan2(p.y - center.y, p.x - center.x)
}

/// The populated slot whose compass angle is nearest to `theta` among the
/// first `i` slots; the earliest wins ties.
pub open spec fn spec_nearest(slots: Seq<Slot>, theta: int, i: int) -> Option<usize>
    decreases i,
{
    if i <= 0 {
        None
    } else {
        let p = spec_nearest(slots, theta, i - 1);
        if slots[i - 1].app is Some && (p is None || circ_dist(theta, spec_base_angle(i - 1))
            < circ_dist(theta, spec_base_angle(p->0 as int))) {
            Some((i - 1) as usize)
        } else {
            p
        }
    }
}

/// The nearest populated slot is itself populated, within range, and no
/// populated slot is strictly nearer; and there is one exactly when any slot
/// is populated.
pub proof fn lemma_spec_nearest(slots: Seq<Slot>, theta: int, i: int)
    requires
        slots.len() == 8,
        0 <= i <= 8,
    ensures
        spec_nearest(slots, theta, i) is None <==> (forall|j: int|
            0 <= j < i ==> !(#[trigger] slots[j].app is Some)),
        spec_nearest(slots, theta, i) is Some ==> {
            let w = spec_nearest(slots, theta, i)->0 as int;
            &&& 0 <= w < i
            &&& slots[w].app is Some
            &&& forall|j: int|
                0 <= j < i && #[trigger] slots[j].app is Some ==> circ_dist(
                    theta,
                    spec_base_angle(w),
                ) <= circ_dist(theta, spec_base_angle(j))
            &&& forall|j: int|
                0 <= j < w && #[trigger] slots[j].app is Some ==> circ_dist(
                    theta,
                    spec_base_angle(w),
                ) < circ_dist(theta, spec_base_angle(j))
        },
    decreases i,
{
    if i > 0 {
        lemma_spec_nearest(slots, theta, i - 1);
    }
}

/// Whether some populated slot binds the window class `c`, ignoring case.
pub open spec fn bound_class(slots: Seq<Slot>, c: Seq<char>) -> bool {
    exists|i: int|
        0 <= i < slots.len() && #[trigger] slots[i].app is Some && lower_of(slots[i].app->0.class@)
            == lower_of(c)
}

/// The window classes of the clients no slot binds, in discovery order, as
/// character sequences.
pub open spec fn spec_filter_unbound(clients: Seq<String>, slots: Seq<Slot>) -> Seq<Seq<char>>
    decreases clients.len(),
{
    if clients.len() == 0 {
        Seq::empty()
    } else {
        let p = spec_filter_unbound(clients.drop_last(), slots);
        if bound_class(slots, clients.last()@) {
            p
        } else {
            p.push(clients.last()@)
        }
    }
}

fn is_bound_class(slots: &Vec<Slot>, c: &String) -> (r: bool)
    requires
        slots@.len() == 8,
    ensures
        r == bound_class(slots@, c@),
{
    let c_l = lowercase(c.as_str());
    let mut i: usize = 0;
    while i < 8
        invariant
            slots@.len() == 8,
            i <= 8,
            c_l@ == lower_of(c@),
            forall|t: int|
                0 <= t < i ==> !(#[trigger] slots@[t].app is Some && lower_of(
                    slots@[t].app->0.class@,
                ) == lower_of(c@)),
        decreases 8 - i,
    {
        match &slots[i].app {
            Some(app) => {
                let class_l = lowercase(app.class.as_str());
                if class_l == c_l {
                    return true;
                }
            },
            None => {},
        }
        i = i + 1;
    }
    false
}

/// Keeps the window classes no slot binds, in order.
fn filter_unbound(clients: &Vec<String>, slots: &Vec<Slot>) -> (r: Vec<String>)
    requires
        slots@.len() == 8,
    ensures
        r@.len() == spec_filter_unbound(clients@, slots@).len(),
        forall|j: int|
            0 <= j < r@.len() ==> #[trigger] r@[j]@ == spec_filter_unbound(clients@, slots@)[j],
{
    let n = clients.len();
    let mut out: Vec<String> = Vec::new();
    let mut k: usize = 0;
    proof {
        assert(clients@.take(0) =~= Seq::<String>::empty());
    }
    while k < n
        invariant
            n == clients@.len(),
            slots@.len() == 8,
            k <= n,
            out@.len() == spec_filter_unbound(clients@.take(k as int), slots@).len(),
            forall|j: int|
                0 <= j < out@.len() ==> #[trigger] out@[j]@ == spec_filter_unbound(
                    clients@.take(k as int),
                    slots@,
                )[j],
        decreases n - k,
    {
        proof {
            assert(clients@.take(k + 1).drop_last() =~= clients@.take(k as int));
            assert(clients@.take(k + 1).last() == clients@[k as int]);
        }
        if !is_bound_class(slots, &clients[k]) {
            out.push(clients[k].clone());
        }
        k = k + 1;
    }
    proof {
        assert(clients@.take(n as int) =~= clients@);
    }
    out
}

/// The free segments actually used for subslot placement: the partitioner's
/// output, or the whole circle when the total free space is next to nothing.
pub open spec fn used_segments(segs0: Seq<AngularSegment>) -> Seq<AngularSegment> {
    if sum_lens(segs0) < FREE_EPSILON {
        seq![full_segment()]
    } else {
        segs0
    }
}

/// How the subslot list must be laid out for the placed-slot geometries
/// `geoms`, `m` subslots and scale factor `sf`: there are free segments that
/// partition the circle around the slot footprints (the whole circle when
/// almost none is free), a largest-remainder allocation of the `m` subslots
/// over them, and each subslot sits at its evenly spaced angle within its
/// segment, on the subslot ring.
pub open spec fn subslot_placement_ok(
    subs: Seq<SubSlot>,
    geoms: Seq<Option<SlotGeometry>>,
    m: int,
    sf: int,
) -> bool {
    exists|segs0: Seq<AngularSegment>, counts: Seq<usize>|
        #![trigger segs_wf(segs0), sum_counts(counts)]
        {
            &&& segs_wf(segs0)
            &&& (forall|x: int|
                #![trigger in_segments(segs0, x)]
                in_segments(segs0, x) <==> (-HALF_TURN <= x < HALF_TURN && unblocked(geoms, x)))
            &&& counts.len() == used_segments(segs0).len()
            &&& sum_counts(counts) == m
            &&& (forall|i: int|
                0 <= i < counts.len() ==> spec_floor_share(used_segments(segs0), m, i)
                    <= #[trigger] counts[i] <= spec_floor_share(used_segments(segs0), m, i) + 1)
            &&& (forall|i: int, j: int|
                0 <= i < counts.len() && 0 <= j < counts[i] ==> subslot_geom_ok(
                    subs[prefix_count(counts, i) + j].geometry,
                    spec_seg_angle(used_segments(segs0)[i], counts[i] as int, j),
                    sf,
                ))
        }
}

/// The aggregate engine state: the overlay center, the eight slots, the
/// dynamic subslots, the hover state, the active window classes, the monitor
/// scale factor in milli-units, and the geometry snapshot of the slots.
pub struct State {
    pub center: Point,
    pub slots: Vec<Slot>,
    pub subslots: Vec<SubSlot>,
    pub hover_index: Option<usize>,
    pub active_classes: Vec<String>,
    pub scale_factor: i64,
    pub slot_geometries: Vec<Option<SlotGeometry>>,
}

impl State {
    /// Structural soundness of the state: eight slots mirrored by eight
    /// geometry entries, present exactly for populated slots; a bounded scale
    /// factor and center; and a hover only over a populated slot.
    pub open spec fn wf(self) -> bool {
        &&& self.slots@.len() == 8
        &&& self.slot_geometries@.len() == 8
        &&& forall|i: int|
            0 <= i < 8 ==> (#[trigger] self.slot_geometries@[i] is Some <==> self.slots@[i].app
                is Some)
        &&& forall|i: int|
            0 <= i < 8 && #[trigger] self.slot_geometries@[i] is Some ==> geom_bounded(
                self.slot_geometries@[i]->0,
            )
        &&& 0 <= self.scale_factor <= MAX_SCALE_MILLI
        &&& -COORD_LIMIT <= self.center.x <= COORD_LIMIT
        &&& -COORD_LIMIT <= self.center.y <= COORD_LIMIT
        &&& match self.hover_index {
            Option::Some(i) => i < 8 && self.slots@[i as int].app is Some,
            Option::None => true,
        }
    }

    /// Builds a fresh state around the given slots and recomputes the slot
    /// geometry snapshot; no subslots and no hover yet.
    pub fn new(
        slots: Vec<Slot>,
        center: Point,
        active_classes: Vec<String>,
        scale_factor: i64,
    ) -> (r: State)
        requires
            slots@.len() == 8,
            0 <= scale_factor <= MAX_SCALE_MILLI,
            -COORD_LIMIT <= center.x <= COORD_LIMIT,
            -COORD_LIMIT <= center.y <= COORD_LIMIT,
        ensures
            r.wf(),
            r.center == center,
            r.slots == slots,
            r.subslots@.len() == 0,
            r.hover_index is None,
            r.active_classes == active_classes,
            r.scale_factor == scale_factor,
            forall|i: int|
                0 <= i < 8 && #[trigger] r.slot_geometries@[i] is Some ==> geom_ok(
                    r.slot_geometries@[i]->0,
                    i as usize,
                    spec_filled(slots@, 8),
                    scale_factor as int,
                ),
    {
        let slot_geometries = compute_slot_geometries(&slots, scale_factor);
        State {
            center,
            slots,
            subslots: Vec::new(),
            hover_index: None,
            active_classes,
            scale_factor,
            slot_geometries,
        }
    }

    /// Builds the eight slots a configuration prescribes: every entry with a
    /// direction binds that slot, later entries overwriting earlier ones;
    /// slots no entry names stay empty.
    pub fn init_slots(config: &Config) -> (r: Vec<Slot>)
        ensures
            r@.len() == 8,
            forall|i: int|
                0 <= i < 8 ==> match last_binding(config.slots@, i) {
                    Option::Some(b) => slot_has_binding(#[trigger] r@[i], b),
                    Option::None => r@[i].app is None,
                },
    {
        let mut slots: Vec<Slot> = Vec::new();
        let mut i: usize = 0;
        while i < 8
            invariant
                i <= 8,
                slots@.len() == i,
                forall|t: int| 0 <= t < i ==> #[trigger] slots@[t].app is None,
            decreases 8 - i,
        {
            slots.push(Slot::empty());
            i = i + 1;
        }
        let n = config.slots.len();
        let mut k: usize = 0;
        proof {
            assert(config.slots@.take(0) =~= Seq::<crate::slots::SlotConfig>::empty());
        }
        while k < n
            invariant
                n == config.slots@.len(),
                k <= n,
                slots@.len() == 8,
                forall|i2: int|
                    0 <= i2 < 8 ==> match last_binding(config.slots@.take(k as int), i2) {
                        Option::Some(b) => slot_has_binding(#[trigger] slots@[i2], b),
                        Option::None => slots@[i2].app is None,
                    },
            decreases n - k,
        {
            let cfg = &config.slots[k];
            let ghost old_slots = slots@;
            match &cfg.direction {
                Some(dir) => {
                    let idx = dir.as_index();
                    let s = Slot::from_config(cfg);
                    slots.set(idx, s);
                },
                None => {},
            }
            proof {
                assert(config.slots@.take(k + 1).drop_last() =~= config.slots@.take(k as int));
                assert(config.slots@.take(k + 1).last() == config.slots@[k as int]);
            }
            k = k + 1;
        }
        proof {
            assert(config.slots@.take(n as int) =~= config.slots@);
        }
        slots
    }

    /// The application bound to the hovered slot.
    pub fn get_hovered_app(&self) -> (r: Option<&AppInfo>)
        requires
            self.wf(),
        ensures
            match self.hover_index {
                Option::Some(i) => r is Some && *r->0 == self.slots@[i as int].app->0,
                Option::None => r is None,
            },
    {
        match self.hover_index {
            Some(i) => match &self.slots[i].app {
                Some(a) => Some(a),
                None => None,
            },
            None => None,
        }
    }

    fn find_nearest_slot(&self, cursor: Point) -> (r: Option<usize>)
        requires
            self.wf(),
            -COORD_LIMIT <= cursor.x <= COORD_LIMIT,
            -COORD_LIMIT <= cursor.y <= COORD_LIMIT,
        ensures
            r == spec_nearest(self.slots@, spec_cursor_angle(self.center, cursor), 8),
    {
        let theta = crate::trig::atan2_units(cursor.y - self.center.y, cursor.x - self.center.x);
        let mut best: Option<usize> = None;
        let mut best_d: i64 = 0;
        let mut i: usize = 0;
        while i < 8
            invariant
                self.wf(),
                theta == spec_cursor_angle(self.center, cursor),
                -crate::HALF_TURN <= theta <= crate::HALF_TURN,
                i <= 8,
                best == spec_nearest(self.slots@, theta as int, i as int),
                best is Some ==> best_d == circ_dist(theta as int, spec_base_angle(best->0 as int)),
            decreases 8 - i,
        {
            if self.slots[i].app.is_some() {
                let d = crate::angle::circular_distance(theta, crate::direction::base_angle(i));
                match best {
                    None => {
                        best = Some(i);
                        best_d = d;
                    },
                    Some(_) => {
                        if d < best_d {
                            best = Some(i);
                            best_d = d;
                        }
                    },
                }
            }
            i = i + 1;
        }
        best
    }

    /// Interprets a cursor position against the current geometry. Inside the
    /// dead zone the hover clears and nothing fires. Outside it, the hover
    /// moves to the populated slot angularly nearest to the cursor, and the
    /// slot's action fires when the cursor is beyond the activation ring.
    /// A redraw is asked for exactly when the hover changed or an action
    /// fired.
    pub fn update_cursor(&mut self, cursor: Point) -> (r: CursorAction)
        requires
            old(self).wf(),
            -COORD_LIMIT <= cursor.x <= COORD_LIMIT,
            -COORD_LIMIT <= cursor.y <= COORD_LIMIT,
        ensures
            final(self).wf(),
            final(self).slots == old(self).slots,
            final(self).slot_geometries == old(self).slot_geometries,
            final(self).subslots == old(self).subslots,
            final(self).active_classes == old(self).active_classes,
            final(self).scale_factor == old(self).scale_factor,
            final(self).center == old(self).center,
            ({
                let d2 = spec_dist2(old(self).center, cursor);
                let inner = inner_threshold(old(self).scale_factor as int);
                let outer = outer_threshold(old(self).scale_factor as int);
                let nr = spec_nearest(
                    old(self).slots@,
                    spec_cursor_angle(old(self).center, cursor),
                    8,
                );
                if d2 <= inner * inner {
                    &&& final(self).hover_index is None
                    &&& r.should_activate == false
                    &&& r.should_redraw == (old(self).hover_index is Some)
                } else {
                    &&& final(self).hover_index == nr
                    &&& r.should_activate == (d2 > outer * outer && nr is Some)
                    &&& r.should_redraw == (nr != old(self).hover_index || r.should_activate)
                }
            }),
    {
        let dx = cursor.x - self.center.x;
        let dy = cursor.y - self.center.y;
        proof {
            assert(0 <= dx * dx <= 0x3B9A_CA00_6846_8700 && 0 <= dy * dy
                <= 0x3B9A_CA00_6846_8700) by (nonlinear_arith)
                requires
                    -2 * COORD_LIMIT <= dx <= 2 * COORD_LIMIT,
                    -2 * COORD_LIMIT <= dy <= 2 * COORD_LIMIT,
            ;
            assert(0 <= INNER_RADIUS_MPX * self.scale_factor / 1000 <= 4_000_000)
                by (nonlinear_arith)
                requires
                    0 <= self.scale_factor <= MAX_SCALE_MILLI,
            ;
            assert(0 <= OUTER_RADIUS_MPX * self.scale_factor / 1000 <= 9_000_000)
                by (nonlinear_arith)
                requires
                    0 <= self.scale_factor <= MAX_SCALE_MILLI,
            ;
        }
        let d2 = dx * dx + dy * dy;
        let inner = ((INNER_RADIUS_MPX as u64) * (self.scale_factor as u64) / 1000) as i64;
        proof {
            assert(0 <= inner * inner <= 0x7fff_ffff_ffff_ffff) by (nonlinear_arith)
                requires
                    0 <= inner <= 4_000_000,
            ;
        }
        if d2 <= inner * inner {
            let changed = self.hover_index.is_some();
            self.hover_index = None;
            return CursorAction::new(changed, false);
        }
        let new_idx = self.find_nearest_slot(cursor);
        let outer = ((OUTER_RADIUS_MPX as u64) * (self.scale_factor as u64) / 1000) as i64;
        proof {
            assert(0 <= outer * outer <= 0x7fff_ffff_ffff_ffff) by (nonlinear_arith)
                requires
                    0 <= outer <= 9_000_000,
            ;
            lemma_spec_nearest(self.slots@, spec_cursor_angle(self.center, cursor), 8);
        }
        let changed = match (self.hover_index, new_idx) {
            (Some(a), Some(b)) => a != b,
            (None, None) => false,
            _ => true,
        };
        let activate = d2 > outer * outer && new_idx.is_some();
        self.hover_index = new_idx;
        CursorAction::new(changed || activate, activate)
    }

    /// Rebuilds the whole derived state for a new overlay opening: moves the
    /// center, replaces the active window classes, clears the hover, derives
    /// the scale factor from the monitor height, recomputes every populated
    /// slot's geometry, and regenerates the subslots from the unbound running
    /// windows — paired with hotkeys in discovery order, those beyond the
    /// hotkey pool dropped — placing them over the free angular segments by
    /// largest-remainder allocation.
    pub fn refresh(
        &mut self,
        center: Point,
        active_classes: Vec<String>,
        monitor_height: i64,
        client_classes: &Vec<String>,
    )
        requires
            old(self).wf(),
            0 <= monitor_height <= MAX_MONITOR_HEIGHT,
            -COORD_LIMIT <= center.x <= COORD_LIMIT,
            -COORD_LIMIT <= center.y <= COORD_LIMIT,
        ensures
            final(self).wf(),
            final(self).slots == old(self).slots,
            final(self).center == center,
            final(self).active_classes == active_classes,
            final(self).hover_index is None,
            final(self).scale_factor == monitor_height * 1000 / (REFERENCE_HEIGHT as int),
            final(self).slot_geometries@.len() == 8,
            forall|i: int|
                0 <= i < 8 ==> (#[trigger] final(self).slot_geometries@[i] is Some <==> old(
                    self,
                ).slots@[i].app is Some),
            forall|i: int|
                0 <= i < 8 && #[trigger] final(self).slot_geometries@[i] is Some ==> geom_ok(
                    final(self).slot_geometries@[i]->0,
                    i as usize,
                    spec_filled(old(self).slots@, 8),
                    final(self).scale_factor as int,
                ),
            ({
                let unbound = spec_filter_unbound(client_classes@, old(self).slots@);
                let m = vstd::math::min(unbound.len() as int, SUB_KEY_COUNT as int);
                &&& final(self).subslots@.len() == m
                &&& (forall|j: int|
                    0 <= j < m ==> #[trigger] final(self).subslots@[j].class@ == unbound[j])
                &&& (forall|j: int|
                    0 <= j < m ==> #[trigger] final(self).subslots@[j].key == spec_sub_key(j))
                &&& (m > 0 ==> subslot_placement_ok(
                    final(self).subslots@,
                    final(self).slot_geometries@,
                    m,
                    final(self).scale_factor as int,
                ))
            }),
    {
        self.center = center;
        self.active_classes = active_classes;
        self.hover_index = None;
        proof {
            vstd::arithmetic::div_mod::lemma_div_pos_is_pos(
                monitor_height * 1000,
                REFERENCE_HEIGHT as int,
            );
            assert(monitor_height * 1000 <= 100_000_000);
            vstd::arithmetic::div_mod::lemma_div_is_ordered(
                monitor_height * 1000,
                100_000_000,
                REFERENCE_HEIGHT as int,
            );
            assert(100_000_000int == 1440 * 69444 + 640);
            vstd::arithmetic::div_mod::lemma_fundamental_div_mod_converse(
                100_000_000,
                1440,
                69444,
                640,
            );
        }
        let sf = ((monitor_height as u64) * 1000 / (REFERENCE_HEIGHT as u64)) as i64;
        self.scale_factor = sf;
        let geoms = compute_slot_geometries(&self.slots, sf);
        self.slot_geometries = geoms;
        let unbound = filter_unbound(client_classes, &self.slots);
        let m = if unbound.len() > SUB_KEY_COUNT {
            SUB_KEY_COUNT
        } else {
            unbound.len()
        };
        let mut subs: Vec<SubSlot> = Vec::new();
        if m == 0 {
            self.subslots = subs;
            return ;
        }
        let segs = find_free_segments(&self.slot_geometries);
        let ghost segs0 = segs@;
        let l = total_length(&segs);
        let used: Vec<AngularSegment> = if l < FREE_EPSILON {
            full_circle()
        } else {
            segs
        };
        proof {
            assert(used@ =~= used_segments(segs0));
            if l < FREE_EPSILON {
                let fc = seq![full_segment()];
                assert(fc.drop_last() =~= Seq::<AngularSegment>::empty());
                assert(sum_lens(fc.drop_last()) == 0);
                assert(fc.last() == full_segment());
                assert(fc.last().spec_len() == crate::FULL_TURN);
                assert(sum_lens(fc) == sum_lens(fc.drop_last()) + fc.last().spec_len());
            }
        }
        let counts = allocate_counts(&used, m);
        proof {
            assert forall|i: int| 0 <= i < counts@.len() implies #[trigger] counts@[i]
                <= crate::allocator::MAX_ALLOC + 1 by {
                lemma_count_le_sum(counts@, i);
            }
        }
        let angles = subslot_angles(&used, &counts);
        let mut j: usize = 0;
        while j < m
            invariant
                m <= SUB_KEY_COUNT,
                m <= unbound@.len(),
                angles@.len() == m,
                0 <= sf <= MAX_SCALE_MILLI,
                forall|a: int| 0 <= a < m ==> -HALF_TURN < #[trigger] angles@[a] <= HALF_TURN,
                j <= m,
                subs@.len() == j,
                forall|a: int| 0 <= a < j ==> #[trigger] subs@[a].class@ == unbound@[a]@,
                forall|a: int| 0 <= a < j ==> #[trigger] subs@[a].key == spec_sub_key(a),
                forall|a: int|
                    0 <= a < j ==> subslot_geom_ok(
                        #[trigger] subs@[a].geometry,
                        angles@[a] as int,
                        sf as int,
                    ),
            decreases m - j,
        {
            let g = from_angle(angles[j], sf);
            subs.push(SubSlot { class: unbound[j].clone(), key: sub_key(j), geometry: g });
            j = j + 1;
        }
        self.subslots = subs;
        proof {
            let ghost gseq = self.slot_geometries@;
            let ghost mi = m as int;
            let ghost sfi = sf as int;
            assert(sum_counts(counts@) == mi);
            assert(segs_wf(segs0));
            assert forall|i: int, jj: int|
                0 <= i < counts@.len() && 0 <= jj < counts@[i] implies subslot_geom_ok(
                self.subslots@[prefix_count(counts@, i) + jj].geometry,
                spec_seg_angle(used_segments(segs0)[i], counts@[i] as int, jj),
                sfi,
            ) by {
                lemma_prefix_count_step(counts@, i);
                lemma_prefix_count_mono(counts@, i, counts@.len() as int);
                lemma_prefix_count_mono(counts@, i + 1, counts@.len() as int);
                assert(prefix_count(counts@, counts@.len() as int) == sum_counts(counts@)) by {
                    assert(counts@.take(counts@.len() as int) =~= counts@);
                }
                let a = prefix_count(counts@, i) + jj;
                assert(0 <= a < mi);
                assert(angles@[a] == spec_seg_angle(used@[i], counts@[i] as int, jj));
                assert(subslot_geom_ok(self.subslots@[a].geometry, angles@[a] as int, sfi));
            }
            assert(subslot_placement_ok(self.subslots@, gseq, mi, sfi)) by {
                assert(segs_wf(segs0) && sum_counts(counts@) == mi);
            }
        }
    }
}

/// At the exact center the squared distance is zero and the dead zone
/// applies for every non-negative scale factor, so a cursor update there
/// always clears the hover and never activates.
pub proof fn lemma_center_is_dead_zone(c: Point, sf: int)
    requires
        sf >= 0,
    ensures
        spec_dist2(c, c) == 0,
        spec_dist2(c, c) <= inner_threshold(sf) * inner_threshold(sf),
{
    vstd::arithmetic::div_mod::lemma_div_pos_is_pos(INNER_RADIUS_MPX * sf, 1000);
    assert(INNER_RADIUS_MPX * sf >= 0) by (nonlinear_arith)
        requires
            sf >= 0,
    ;
    let t = inner_threshold(sf);
    assert(t * t >= 0) by (nonlinear_arith)
        requires
            t >= 0,
    ;
}

} // verus!
