//! The free-space partitioner: subtracting every placed slot's angular
//! footprint from the full circle leaves the free segments where subslots may
//! be placed.
//!
//! All segments are non-wrapping intervals within [-HALF_TURN, HALF_TURN); a
//! footprint that crosses the circle's seam is split into two non-wrapping
//! blocks first, so the subtraction itself never reasons about wraparound.

use crate::angle::{full_segment, AngularSegment};
use crate::geometry::{geom_bounded, SlotGeometry};
use crate::trig::{atan2_units, lemma_atan2_first_quadrant, spec_atan2};
use crate::{FULL_TURN, HALF_TURN, PADDING_DEN, PADDING_NUM, QUARTER_TURN};
use vstd::prelude::*;

verus! {

/// Whether the angle `x` lies in some segment of the list.
pub open spec fn in_segments(segs: Seq<AngularSegment>, x: int) -> bool {
    exists|i: int| 0 <= i < segs.len() && segs[i].spec_contains(x)
}

/// Every segment well formed, and the list in ascending order with no two
/// segments overlapping.
pub open spec fn segs_wf(segs: Seq<AngularSegment>) -> bool {
    &&& forall|i: int| 0 <= i < segs.len() ==> segs[i].wf()
    &&& forall|i: int, j: int| 0 <= i < j < segs.len() ==> segs[i].end <= segs[j].start
}

/// The half-angle of a placed slot's blocking footprint: the arctangent of
/// its padded radius over its orbital distance.
pub open spec fn footprint_half(g: SlotGeometry) -> int {
    spec_atan2(g.radius * PADDING_NUM, g.orbit * PADDING_DEN)
}

/// Whether the angle `x` is covered by the blocking footprint of the placed
/// slot `g`: within the footprint's half-angle of the slot's center angle,
/// split at the circle's seam into non-wrapping pieces.
pub open spec fn blocked_by(g: SlotGeometry, x: int) -> bool {
    let h = footprint_half(g);
    let s = g.angle - h;
    let e = g.angle + h;
    if s < -HALF_TURN {
        (-HALF_TURN <= x < e) || (s + FULL_TURN <= x < HALF_TURN)
    } else if e > HALF_TURN {
        (s <= x < HALF_TURN) || (-HALF_TURN <= x < e - FULL_TURN)
    } else {
        s <= x < e
    }
}

proof fn lemma_in_push(segs: Seq<AngularSegment>, p: AngularSegment, x: int)
    ensures
        in_segments(segs.push(p), x) <==> (in_segments(segs, x) || p.spec_contains(x)),
{
    let ext = segs.push(p);
    if in_segments(ext, x) {
        let i = choose|i: int| 0 <= i < ext.len() && ext[i].spec_contains(x);
        if i < segs.len() {
            assert(segs[i].spec_contains(x));
        } else {
            assert(ext[i] == p);
        }
    }
    if in_segments(segs, x) {
        let i = choose|i: int| 0 <= i < segs.len() && segs[i].spec_contains(x);
        assert(ext[i].spec_contains(x));
    }
    if p.spec_contains(x) {
        assert(ext[segs.len() as int].spec_contains(x));
    }
}

proof fn lemma_in_take_step(segs: Seq<AngularSegment>, k: int, x: int)
    requires
        0 <= k < segs.len(),
    ensures
        in_segments(segs.take(k + 1), x) <==> (in_segments(segs.take(k), x)
            || segs[k].spec_contains(x)),
{
    let pre = segs.take(k);
    let cur = segs.take(k + 1);
    if in_segments(cur, x) {
        let i = choose|i: int| 0 <= i < cur.len() && cur[i].spec_contains(x);
        if i < k {
            assert(pre[i].spec_contains(x));
        } else {
            assert(cur[i] == segs[k]);
        }
    }
    if in_segments(pre, x) {
        let i = choose|i: int| 0 <= i < pre.len() && pre[i].spec_contains(x);
        assert(cur[i].spec_contains(x));
    }
    if segs[k].spec_contains(x) {
        assert(cur[k].spec_contains(x));
    }
}

/// Removes the blocking interval `b` from every segment of a free list: each
/// segment keeps its parts outside `b`, so the result covers exactly the
/// angles of the input not covered by `b`.
fn subtract_block(segs: &Vec<AngularSegment>, b: AngularSegment) -> (r: Vec<AngularSegment>)
    requires
        segs_wf(segs@),
        b.wf(),
    ensures
        segs_wf(r@),
        forall|x: int|
            #![trigger in_segments(r@, x)]
            in_segments(r@, x) <==> (in_segments(segs@, x) && !b.spec_contains(x)),
{
    let n = segs.len();
    let mut out: Vec<AngularSegment> = Vec::new();
    let mut k: usize = 0;
    proof {
        assert(forall|x: int| !in_segments(out@, x));
        assert(segs@.take(0) =~= Seq::<AngularSegment>::empty());
    }
    while k < n
        invariant
            n == segs@.len(),
            k <= n,
            segs_wf(segs@),
            b.wf(),
            segs_wf(out@),
            forall|i: int|
                0 <= i < out@.len() && k < n ==> out@[i].end <= segs@[k as int].start,
            forall|x: int|
                #![trigger in_segments(out@, x)]
                in_segments(out@, x) <==> (in_segments(segs@.take(k as int), x)
                    && !b.spec_contains(x)),
        decreases n - k,
    {
        let seg = segs[k];
        let ghost old_out = out@;
        assert(seg.wf());
        if seg.end <= b.start || seg.start >= b.end {
            out.push(seg);
            proof {
                assert forall|x: int| #![trigger in_segments(out@, x)]
                    in_segments(out@, x) <==> (in_segments(segs@.take(k + 1), x)
                        && !b.spec_contains(x)) by {
                    lemma_in_push(old_out, seg, x);
                    lemma_in_take_step(segs@, k as int, x);
                }
            }
        } else {
            let ghost mid_out = out@;
            if seg.start < b.start {
                out.push(AngularSegment { start: seg.start, end: b.start });
            }
            let ghost mid2_out = out@;
            if seg.end > b.end {
                out.push(AngularSegment { start: b.end, end: seg.end });
            }
            proof {
                assert forall|x: int| #![trigger in_segments(out@, x)]
                    in_segments(out@, x) <==> (in_segments(segs@.take(k + 1), x)
                        && !b.spec_contains(x)) by {
                    if seg.start < b.start {
                        lemma_in_push(mid_out, AngularSegment { start: seg.start, end: b.start }, x);
                    }
                    if seg.end > b.end {
                        lemma_in_push(mid2_out, AngularSegment { start: b.end, end: seg.end }, x);
                    }
                    lemma_in_take_step(segs@, k as int, x);
                }
            }
        }
        k = k + 1;
        proof {
            assert forall|i: int| 0 <= i < out@.len() && k < n implies out@[i].end
                <= segs@[k as int].start by {
                assert(segs@[k - 1].end <= segs@[k as int].start);
            }
        }
    }
    proof {
        assert(segs@.take(n as int) =~= segs@);
    }
    out
}

/// The full circle as a single free segment.
pub fn full_circle() -> (r: Vec<AngularSegment>)
    ensures
        segs_wf(r@),
        r@ == seq![full_segment()],
        forall|x: int|
            #![trigger in_segments(r@, x)]
            in_segments(r@, x) <==> -HALF_TURN <= x < HALF_TURN,
{
    let mut v: Vec<AngularSegment> = Vec::new();
    v.push(AngularSegment { start: -HALF_TURN, end: HALF_TURN });
    proof {
        assert(v@ =~= seq![full_segment()]);
    }
    proof {
        assert forall|x: int| #![trigger in_segments(v@, x)]
            in_segments(v@, x) <==> -HALF_TURN <= x < HALF_TURN by {
            if -HALF_TURN <= x < HALF_TURN {
                assert(v@[0].spec_contains(x));
            }
        }
    }
    v
}

/// Subtracts the footprint of the placed slot `g` from the free list.
fn subtract_footprint(segs: &Vec<AngularSegment>, g: &SlotGeometry) -> (r: Vec<AngularSegment>)
    requires
        segs_wf(segs@),
        geom_bounded(*g),
    ensures
        segs_wf(r@),
        forall|x: int|
            #![trigger in_segments(r@, x)]
            in_segments(r@, x) <==> (in_segments(segs@, x) && !blocked_by(*g, x)),
{
    proof {
        lemma_atan2_first_quadrant(g.radius * PADDING_NUM, g.orbit * PADDING_DEN);
    }
    let h = atan2_units(g.radius * PADDING_NUM, g.orbit * PADDING_DEN);
    assert(0 <= h <= QUARTER_TURN);
    let s = g.angle - h;
    let e = g.angle + h;
    if s < -HALF_TURN {
        let b1 = AngularSegment { start: -HALF_TURN, end: e };
        let b2 = AngularSegment { start: s + FULL_TURN, end: HALF_TURN };
        let mid = subtract_block(segs, b1);
        let out = subtract_block(&mid, b2);
        assert forall|x: int| #![trigger in_segments(out@, x)]
            in_segments(out@, x) <==> (in_segments(segs@, x) && !blocked_by(*g, x)) by {
            assert(blocked_by(*g, x) == (b1.spec_contains(x) || b2.spec_contains(x)));
        }
        out
    } else if e > HALF_TURN {
        let b1 = AngularSegment { start: s, end: HALF_TURN };
        let b2 = AngularSegment { start: -HALF_TURN, end: e - FULL_TURN };
        let mid = subtract_block(segs, b1);
        let out = subtract_block(&mid, b2);
        assert forall|x: int| #![trigger in_segments(out@, x)]
            in_segments(out@, x) <==> (in_segments(segs@, x) && !blocked_by(*g, x)) by {
            assert(blocked_by(*g, x) == (b1.spec_contains(x) || b2.spec_contains(x)));
        }
        out
    } else {
        let b = AngularSegment { start: s, end: e };
        subtract_block(segs, b)
    }
}

/// Whether the angle `x` escapes the footprint of every placed slot in the
/// geometry list.
pub open spec fn unblocked(geoms: Seq<Option<SlotGeometry>>, x: int) -> bool {
    forall|i: int| 0 <= i < geoms.len() && geoms[i] is Some ==> !blocked_by(geoms[i]->0, x)
}

/// Computes the free angular segments: what remains of the full circle after
/// subtracting every placed slot's blocking footprint. The result is an
/// ordered list of disjoint segments that covers exactly the angles no
/// footprint covers.
pub fn find_free_segments(geoms: &Vec<Option<SlotGeometry>>) -> (r: Vec<AngularSegment>)
    requires
        forall|i: int| 0 <= i < geoms@.len() && geoms@[i] is Some ==> geom_bounded(geoms@[i]->0),
    ensures
        segs_wf(r@),
        forall|x: int|
            #![trigger in_segments(r@, x)]
            in_segments(r@, x) <==> (-HALF_TURN <= x < HALF_TURN && unblocked(geoms@, x)),
{
    let n = geoms.len();
    let mut free = full_circle();
    let mut i: usize = 0;
    while i < n
        invariant
            n == geoms@.len(),
            i <= n,
            forall|j: int|
                0 <= j < geoms@.len() && geoms@[j] is Some ==> geom_bounded(geoms@[j]->0),
            segs_wf(free@),
            forall|x: int|
                #![trigger in_segments(free@, x)]
                in_segments(free@, x) <==> (-HALF_TURN <= x < HALF_TURN && forall|j: int|
                    0 <= j < i && geoms@[j] is Some ==> !blocked_by(geoms@[j]->0, x)),
        decreases n - i,
    {
        let ghost old_free = free@;
        match &geoms[i] {
            Some(g) => {
                let next = subtract_footprint(&free, g);
                free = next;
                proof {
                    assert forall|x: int| #![trigger in_segments(free@, x)]
                        in_segments(free@, x) <==> (-HALF_TURN <= x < HALF_TURN && forall|j: int|
                            0 <= j < i + 1 && geoms@[j] is Some ==> !blocked_by(
                            geoms@[j]->0,
                            x,
                        )) by {
                        assert(in_segments(free@, x) == (in_segments(old_free, x) && !blocked_by(
                            geoms@[i as int]->0,
                            x,
                        )));
                    }
                }
            },
            None => {
                proof {
                    assert forall|x: int| #![trigger in_segments(free@, x)]
                        in_segments(free@, x) <==> (-HALF_TURN <= x < HALF_TURN && forall|j: int|
                            0 <= j < i + 1 && geoms@[j] is Some ==> !blocked_by(
                            geoms@[j]->0,
                            x,
                        )) by {}
                }
            },
        }
        i = i + 1;
    }
    free
}

} // verus!
