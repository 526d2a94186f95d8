//! The subslot allocator: largest-remainder apportionment of `k` subslots
//! over the free segments, proportionally to angular length, and the evenly
//! spaced angles within each segment.
//!
//! Every segment first gets the floor of its ideal fractional share; the
//! leftover units go one by one to the segments with the largest fractional
//! remainders, earlier segments winning ties. The final counts sum to `k`
//! exactly and no count strays from its floor by more than one.

use crate::angle::{norm, normalize, AngularSegment};
use crate::segments::segs_wf;
use crate::{FULL_TURN, HALF_TURN};
use vstd::prelude::*;

verus! {

/// Largest subslot count the allocator accepts in one pass.
pub const MAX_ALLOC: usize = 1000000;

/// The sum of a list of counts.
pub open spec fn sum_counts(s: Seq<usize>) -> int
    decreases s.len(),
{
    if s.len() == 0 {
        0
    } else {
        sum_counts(s.drop_last()) + s.last()
    }
}

/// The total angular length of a list of segments.
pub open spec fn sum_lens(s: Seq<AngularSegment>) -> int
    decreases s.len(),
{
    if s.len() == 0 {
        0
    } else {
        sum_lens(s.drop_last()) + s.last().spec_len()
    }
}

/// The floor of segment `i`'s ideal share of `k` subslots.
pub open spec fn spec_floor_share(segs: Seq<AngularSegment>, k: int, i: int) -> int {
    segs[i].spec_len() * k / sum_lens(segs)
}

/// The fractional remainder of segment `i`'s ideal share, scaled by the
/// total length.
pub open spec fn spec_rem_share(segs: Seq<AngularSegment>, k: int, i: int) -> int {
    segs[i].spec_len() * k % sum_lens(segs)
}

/// An ordered disjoint segment list within one turn has total length at most
/// the full turn, and each segment no longer than the total.
pub proof fn lemma_sum_lens_bounds(s: Seq<AngularSegment>)
    requires
        segs_wf(s),
    ensures
        0 <= sum_lens(s) <= FULL_TURN,
        forall|i: int| 0 <= i < s.len() ==> s[i].spec_len() <= sum_lens(s),
    decreases s.len(),
{
    lemma_sum_lens_in_window(s);
    assert forall|i: int| 0 <= i < s.len() implies s[i].spec_len() <= sum_lens(s) by {
        lemma_part_le_sum(s, i);
    }
}

/// The total length of a well-formed list whose segments lie in
/// [-HALF_TURN, last.end] is at most last.end + HALF_TURN.
proof fn lemma_sum_lens_in_window(s: Seq<AngularSegment>)
    requires
        segs_wf(s),
    ensures
        0 <= sum_lens(s),
        s.len() > 0 ==> sum_lens(s) <= s.last().end + HALF_TURN,
        s.len() == 0 ==> sum_lens(s) == 0,
    decreases s.len(),
{
    if s.len() > 0 {
        let pre = s.drop_last();
        assert(segs_wf(pre)) by {
            assert(forall|i: int| 0 <= i < pre.len() ==> pre[i] == s[i]);
        }
        lemma_sum_lens_in_window(pre);
        if pre.len() > 0 {
            assert(pre.last() == s[s.len() - 2]);
            assert(pre.last().end <= s.last().start);
        }
    }
}

/// Each segment's length is at most the total.
proof fn lemma_part_le_sum(s: Seq<AngularSegment>, i: int)
    requires
        segs_wf(s),
        0 <= i < s.len(),
    ensures
        s[i].spec_len() <= sum_lens(s),
    decreases s.len(),
{
    if i == s.len() - 1 {
        let pre = s.drop_last();
        assert(segs_wf(pre)) by {
            assert(forall|j: int| 0 <= j < pre.len() ==> pre[j] == s[j]);
        }
        lemma_sum_lens_in_window(pre);
    } else {
        let pre = s.drop_last();
        assert(segs_wf(pre)) by {
            assert(forall|j: int| 0 <= j < pre.len() ==> pre[j] == s[j]);
        }
        lemma_part_le_sum(pre, i);
        assert(s.last().spec_len() >= 0);
    }
}

/// Updating one entry moves the sum by the difference.
proof fn lemma_sum_counts_update(s: Seq<usize>, j: int, v: usize)
    requires
        0 <= j < s.len(),
    ensures
        sum_counts(s.update(j, v)) == sum_counts(s) - s[j] + v,
    decreases s.len(),
{
    let upd = s.update(j, v);
    if j == s.len() - 1 {
        assert(upd.drop_last() =~= s.drop_last());
    } else {
        assert(upd.drop_last() =~= s.drop_last().update(j, v));
        lemma_sum_counts_update(s.drop_last(), j, v);
    }
}

/// Appending an entry adds it to the sum.
proof fn lemma_sum_counts_push(s: Seq<usize>, v: usize)
    ensures
        sum_counts(s.push(v)) == sum_counts(s) + v,
{
    assert(s.push(v).drop_last() =~= s);
}

/// The sum of a prefix of counts.
pub open spec fn prefix_count(s: Seq<usize>, i: int) -> int {
    sum_counts(s.take(i))
}

pub proof fn lemma_prefix_count_step(s: Seq<usize>, i: int)
    requires
        0 <= i < s.len(),
    ensures
        prefix_count(s, i + 1) == prefix_count(s, i) + s[i],
{
    assert(s.take(i + 1).drop_last() =~= s.take(i));
}

/// Prefix sums of counts are non-negative and monotone.
pub proof fn lemma_prefix_count_mono(s: Seq<usize>, a: int, b: int)
    requires
        0 <= a <= b <= s.len(),
    ensures
        0 <= prefix_count(s, a) <= prefix_count(s, b),
    decreases b - a,
{
    lemma_sum_counts_nonneg(s.take(a));
    if a < b {
        lemma_prefix_count_step(s, a);
        lemma_prefix_count_mono(s, a + 1, b);
    }
}

proof fn lemma_sum_lens_take_step(s: Seq<AngularSegment>, i: int)
    requires
        0 <= i < s.len(),
    ensures
        sum_lens(s.take(i + 1)) == sum_lens(s.take(i)) + s[i].spec_len(),
{
    assert(s.take(i + 1).drop_last() =~= s.take(i));
}

/// Each count is at most the sum of all counts.
pub proof fn lemma_count_le_sum(s: Seq<usize>, i: int)
    requires
        0 <= i < s.len(),
    ensures
        s[i] <= sum_counts(s),
    decreases s.len(),
{
    if i == s.len() - 1 {
        lemma_sum_counts_nonneg(s.drop_last());
    } else {
        lemma_count_le_sum(s.drop_last(), i);
    }
}

/// Sums are non-negative.
proof fn lemma_sum_counts_nonneg(s: Seq<usize>)
    ensures
        sum_counts(s) >= 0,
    decreases s.len(),
{
    if s.len() > 0 {
        lemma_sum_counts_nonneg(s.drop_last());
    }
}

/// Computes the total angular length of a free-segment list.
pub fn total_length(segs: &Vec<AngularSegment>) -> (l: i64)
    requires
        segs_wf(segs@),
    ensures
        l == sum_lens(segs@),
        0 <= l <= FULL_TURN,
{
    proof {
        lemma_sum_lens_bounds(segs@);
    }
    let n = segs.len();
    let mut l: i64 = 0;
    let mut i: usize = 0;
    proof {
        assert(segs@.take(0) =~= Seq::<AngularSegment>::empty());
    }
    while i < n
        invariant
            n == segs@.len(),
            i <= n,
            segs_wf(segs@),
            l == sum_lens(segs@.take(i as int)),
            0 <= l <= FULL_TURN,
        decreases n - i,
    {
        proof {
            lemma_sum_lens_take_step(segs@, i as int);
            assert(segs_wf(segs@.take(i + 1))) by {
                assert(forall|j: int|
                    0 <= j < segs@.take(i + 1).len() ==> segs@.take(i + 1)[j] == segs@[j]);
            }
            lemma_sum_lens_bounds(segs@.take(i + 1));
        }
        l = l + segs[i].len();
        i = i + 1;
    }
    proof {
        assert(segs@.take(n as int) =~= segs@);
    }
    l
}

/// Whether the remainder of segment `a` outranks the remainder of segment
/// `b` for the leftover-unit award: a strictly larger remainder, or an equal
/// remainder at an earlier position.
pub open spec fn outranks(segs: Seq<AngularSegment>, k: int, a: int, b: int) -> bool {
    ||| spec_rem_share(segs, k, a) > spec_rem_share(segs, k, b)
    ||| (spec_rem_share(segs, k, a) == spec_rem_share(segs, k, b) && a < b)
}

/// The largest-remainder allocation of `k` subslots over the free segments:
/// every count is its segment's floored ideal share or one more, the counts
/// sum to `k` exactly, and a segment got the extra unit only if it outranks
/// every segment that did not.
#[verifier::rlimit(50)]
pub fn allocate_counts(segs: &Vec<AngularSegment>, k: usize) -> (counts: Vec<usize>)
    requires
        segs_wf(segs@),
        sum_lens(segs@) > 0,
        k <= MAX_ALLOC,
    ensures
        counts@.len() == segs@.len(),
        sum_counts(counts@) == k,
        forall|i: int|
            0 <= i < counts@.len() ==> spec_floor_share(segs@, k as int, i) <= #[trigger] counts@[i]
                <= spec_floor_share(segs@, k as int, i) + 1,
        forall|i: int, j: int|
            0 <= i < counts@.len() && 0 <= j < counts@.len() && #[trigger] counts@[i]
                == spec_floor_share(segs@, k as int, i) + 1 && #[trigger] counts@[j]
                == spec_floor_share(segs@, k as int, j) ==> outranks(segs@, k as int, i, j),
{
    proof {
        lemma_sum_lens_bounds(segs@);
    }
    let n = segs.len();
    let total = total_length(segs);
    let mut counts: Vec<usize> = Vec::new();
    let mut rems: Vec<i64> = Vec::new();
    let mut floor_sum: usize = 0;
    let mut i: usize = 0;
    proof {
        assert(segs@.take(0) =~= Seq::<AngularSegment>::empty());
    }
    while i < n
        invariant
            n == segs@.len(),
            segs_wf(segs@),
            total == sum_lens(segs@),
            0 < total <= FULL_TURN,
            k <= MAX_ALLOC,
            i <= n,
            counts@.len() == i,
            rems@.len() == i,
            forall|j: int| 0 <= j < i ==> counts@[j] == spec_floor_share(segs@, k as int, j),
            forall|j: int| 0 <= j < i ==> rems@[j] == spec_rem_share(segs@, k as int, j),
            forall|j: int| 0 <= j < i ==> 0 <= #[trigger] rems@[j] < total,
            forall|j: int| 0 <= j < i ==> counts@[j] <= k,
            floor_sum == sum_counts(counts@),
            floor_sum <= k,
            k * sum_lens(segs@.take(i as int)) == total * sum_counts(counts@) + sum_counts_i64(
                rems@,
            ),
        decreases n - i,
    {
        let seg_len = segs[i].len();
        proof {
            lemma_part_le_sum(segs@, i as int);
            assert(seg_len * k <= total * k && 0 <= seg_len * k <= 0x4000_0000_0000_0000)
                by (nonlinear_arith)
                requires
                    0 <= seg_len <= total,
                    total <= FULL_TURN,
                    0 <= k <= MAX_ALLOC,
            ;
        }
        let prod = (seg_len as u64) * (k as u64);
        let fq = prod / (total as u64);
        let rq = prod % (total as u64);
        proof {
            let p = prod as int;
            let t = total as int;
            let ki = k as int;
            vstd::arithmetic::div_mod::lemma_div_pos_is_pos(p, t);
            vstd::arithmetic::div_mod::lemma_mod_division_less_than_divisor(p, t);
            assert(p == seg_len * k);
            assert(p <= ki * t) by (nonlinear_arith)
                requires
                    p == seg_len * ki,
                    0 <= seg_len <= t,
                    ki >= 0,
            ;
            vstd::arithmetic::div_mod::lemma_div_is_ordered(p, ki * t, t);
            vstd::arithmetic::div_mod::lemma_div_by_multiple(ki, t);
            vstd::arithmetic::div_mod::lemma_fundamental_div_mod(p, t);
            assert(fq == spec_floor_share(segs@, k as int, i as int));
            assert(rq == spec_rem_share(segs@, k as int, i as int));
            assert(fq <= k);
            assert(0 <= rq < total);
        }
        let f = fq as usize;
        let r = rq as i64;
        proof {
            assert(f == spec_floor_share(segs@, k as int, i as int));
            assert(r == spec_rem_share(segs@, k as int, i as int));
            assert(seg_len * k == total * f + r);
            lemma_sum_counts_push(counts@, f);
            lemma_sum_counts_i64_push(rems@, r);
            lemma_sum_lens_take_step(segs@, i as int);
        }
        let ghost old_counts = counts@;
        let ghost old_rems = rems@;
        counts.push(f);
        rems.push(r);
        proof {
            assert(k * sum_lens(segs@.take(i + 1)) == total * sum_counts(counts@)
                + sum_counts_i64(rems@)) by (nonlinear_arith)
                requires
                    k * sum_lens(segs@.take(i as int)) == total * sum_counts(old_counts)
                        + sum_counts_i64(old_rems),
                    sum_lens(segs@.take(i + 1)) == sum_lens(segs@.take(i as int)) + seg_len,
                    sum_counts(counts@) == sum_counts(old_counts) + f,
                    sum_counts_i64(rems@) == sum_counts_i64(old_rems) + r,
                    seg_len * k == total * f + r,
            ;
            lemma_sum_counts_nonneg(counts@);
            lemma_sum_counts_i64_nonneg(rems@);
            lemma_take_prefix_le(segs@, i + 1);
            assert(sum_counts(counts@) <= k) by (nonlinear_arith)
                requires
                    total * sum_counts(counts@) + sum_counts_i64(rems@) == k * sum_lens(
                        segs@.take(i + 1),
                    ),
                    sum_lens(segs@.take(i + 1)) <= sum_lens(segs@),
                    total == sum_lens(segs@),
                    total > 0,
                    k >= 0,
                    sum_counts_i64(rems@) >= 0,
                    sum_counts(counts@) >= 0,
            ;
        }
        floor_sum = floor_sum + f;
        i = i + 1;
        proof {
            assert(sum_lens(segs@.take(i as int)) <= sum_lens(segs@)) by {
                lemma_take_prefix_le(segs@, i as int);
            }
        }
    }
    proof {
        assert(segs@.take(n as int) =~= segs@);
        lemma_sum_counts_i64_upper(rems@, total as int);
        assert(k - floor_sum < n || n == 0 || k == floor_sum) by (nonlinear_arith)
            requires
                k * sum_lens(segs@) == total * floor_sum + sum_counts_i64(rems@),
                total == sum_lens(segs@),
                total > 0,
                sum_counts_i64(rems@) <= rems@.len() * (total - 1),
                rems@.len() == n,
                floor_sum <= k,
        ;
    }
    let remainder = k - floor_sum;
    if remainder == 0 {
        return counts;
    }
    assert(remainder < n);
    let mut awarded: Vec<bool> = Vec::new();
    let mut i2: usize = 0;
    while i2 < n
        invariant
            i2 <= n,
            awarded@.len() == i2,
            forall|j: int| 0 <= j < i2 ==> !awarded@[j],
        decreases n - i2,
    {
        awarded.push(false);
        i2 = i2 + 1;
    }
    proof {
        lemma_count_true_all_false(awarded@);
        assert forall|j: int| 0 <= j < n implies spec_floor_share(segs@, k as int, j) <= k by {
            assert(counts@[j] == spec_floor_share(segs@, k as int, j));
            assert(counts@[j] <= k);
        }
    }
    let mut round: usize = 0;
    while round < remainder
        invariant
            n == segs@.len(),
            segs_wf(segs@),
            total == sum_lens(segs@),
            0 < total,
            k <= MAX_ALLOC,
            remainder == k - floor_sum,
            0 < remainder < n,
            round <= remainder,
            counts@.len() == n,
            rems@.len() == n,
            awarded@.len() == n,
            forall|j: int| 0 <= j < n ==> rems@[j] == spec_rem_share(segs@, k as int, j),
            forall|j: int|
                0 <= j < n ==> counts@[j] == spec_floor_share(segs@, k as int, j) + (
                if awarded@[j] {
                    1int
                } else {
                    0int
                }),
            forall|j: int| 0 <= j < n ==> counts@[j] <= k + 1,
            forall|j: int| 0 <= j < n ==> spec_floor_share(segs@, k as int, j) <= k,
            count_true(awarded@) == round,
            sum_counts(counts@) == floor_sum + round,
            forall|a: int, b: int|
                0 <= a < n && 0 <= b < n && awarded@[a] && !awarded@[b] ==> outranks(
                    segs@,
                    k as int,
                    a,
                    b,
                ),
        decreases remainder - round,
    {
        let mut best: usize = n;
        let mut j: usize = 0;
        while j < n
            invariant
                n == segs@.len(),
                awarded@.len() == n,
                rems@.len() == n,
                j <= n,
                best <= n,
                best == n ==> forall|j2: int| 0 <= j2 < j ==> awarded@[j2],
                best < n ==> best < j && !awarded@[best as int] && forall|j2: int|
                    0 <= j2 < j && !awarded@[j2] ==> rems@[j2] <= rems@[best as int] && (rems@[j2]
                        == rems@[best as int] ==> best <= j2),
            decreases n - j,
        {
            if !awarded[j] {
                if best == n {
                    best = j;
                } else if rems[j] > rems[best] {
                    best = j;
                }
            }
            j = j + 1;
        }
        proof {
            if best == n {
                lemma_count_true_all(awarded@);
            }
        }
        assert(best < n);
        let ghost old_awarded = awarded@;
        let ghost old_counts = counts@;
        let bump = counts[best] + 1;
        counts.set(best, bump);
        awarded.set(best, true);
        proof {
            lemma_count_true_update(old_awarded, best as int);
            lemma_sum_counts_update(old_counts, best as int, bump);
            assert forall|a: int, b: int|
                0 <= a < n && 0 <= b < n && awarded@[a] && !awarded@[b] implies outranks(
                segs@,
                k as int,
                a,
                b,
            ) by {
                if a == best as int {
                    assert(!old_awarded[b]);
                    assert(rems@[b] <= rems@[best as int]);
                } else {
                    assert(old_awarded[a] && !old_awarded[b]);
                }
            }
        }
        round = round + 1;
    }
    proof {
        assert forall|a: int, b: int|
            0 <= a < n && 0 <= b < n && #[trigger] counts@[a] == spec_floor_share(
                segs@,
                k as int,
                a,
            ) + 1 && #[trigger] counts@[b] == spec_floor_share(segs@, k as int, b) implies outranks(
            segs@,
            k as int,
            a,
            b,
        ) by {
            assert(awarded@[a]);
            assert(!awarded@[b]);
        }
    }
    counts
}

/// The sum of a list of remainders.
pub open spec fn sum_counts_i64(s: Seq<i64>) -> int
    decreases s.len(),
{
    if s.len() == 0 {
        0
    } else {
        sum_counts_i64(s.drop_last()) + s.last()
    }
}

proof fn lemma_sum_counts_i64_push(s: Seq<i64>, v: i64)
    ensures
        sum_counts_i64(s.push(v)) == sum_counts_i64(s) + v,
{
    assert(s.push(v).drop_last() =~= s);
}

proof fn lemma_sum_counts_i64_nonneg(s: Seq<i64>)
    requires
        forall|j: int| 0 <= j < s.len() ==> s[j] >= 0,
    ensures
        sum_counts_i64(s) >= 0,
    decreases s.len(),
{
    if s.len() > 0 {
        assert(forall|j: int| 0 <= j < s.drop_last().len() ==> s.drop_last()[j] == s[j]);
        lemma_sum_counts_i64_nonneg(s.drop_last());
    }
}

proof fn lemma_sum_counts_i64_upper(s: Seq<i64>, bound: int)
    requires
        bound >= 1,
        forall|j: int| 0 <= j < s.len() ==> s[j] < bound,
    ensures
        sum_counts_i64(s) <= s.len() * (bound - 1),
    decreases s.len(),
{
    if s.len() > 0 {
        assert(forall|j: int| 0 <= j < s.drop_last().len() ==> s.drop_last()[j] == s[j]);
        lemma_sum_counts_i64_upper(s.drop_last(), bound);
        assert((s.len() - 1) * (bound - 1) + (bound - 1) == s.len() * (bound - 1))
            by (nonlinear_arith);
    }
}

proof fn lemma_take_prefix_le(s: Seq<AngularSegment>, i: int)
    requires
        segs_wf(s),
        0 <= i <= s.len(),
    ensures
        sum_lens(s.take(i)) <= sum_lens(s),
    decreases s.len() - i,
{
    if i < s.len() {
        lemma_sum_lens_take_step(s, i);
        lemma_take_prefix_le(s, i + 1);
        assert(s.take(s.len() as int) =~= s);
        assert(s[i].spec_len() >= 0);
    } else {
        assert(s.take(i) =~= s);
    }
}

/// The number of true entries.
pub open spec fn count_true(s: Seq<bool>) -> int
    decreases s.len(),
{
    if s.len() == 0 {
        0
    } else {
        count_true(s.drop_last()) + if s.last() {
            1int
        } else {
            0int
        }
    }
}

proof fn lemma_count_true_all_false(s: Seq<bool>)
    requires
        forall|j: int| 0 <= j < s.len() ==> !s[j],
    ensures
        count_true(s) == 0,
    decreases s.len(),
{
    if s.len() > 0 {
        assert(forall|j: int| 0 <= j < s.drop_last().len() ==> s.drop_last()[j] == s[j]);
        lemma_count_true_all_false(s.drop_last());
    }
}

proof fn lemma_count_true_all(s: Seq<bool>)
    requires
        forall|j: int| 0 <= j < s.len() ==> s[j],
    ensures
        count_true(s) == s.len(),
    decreases s.len(),
{
    if s.len() > 0 {
        assert(forall|j: int| 0 <= j < s.drop_last().len() ==> s.drop_last()[j] == s[j]);
        lemma_count_true_all(s.drop_last());
    }
}

proof fn lemma_count_true_update(s: Seq<bool>, j: int)
    requires
        0 <= j < s.len(),
        !s[j],
    ensures
        count_true(s.update(j, true)) == count_true(s) + 1,
    decreases s.len(),
{
    let upd = s.update(j, true);
    if j == s.len() - 1 {
        assert(upd.drop_last() =~= s.drop_last());
    } else {
        assert(upd.drop_last() =~= s.drop_last().update(j, true));
        lemma_count_true_update(s.drop_last(), j);
    }
}

/// The angle of the `j`-th of `c` subslots placed in a segment: evenly
/// spaced, centered within equal subdivisions, then normalized.
pub open spec fn spec_seg_angle(seg: AngularSegment, c: int, j: int) -> int
    recommends
        0 < c,
        0 <= j < c,
{
    norm(seg.start + seg.spec_len() * (2 * j + 1) / (2 * c))
}

/// Places each segment's allotted subslots at evenly spaced angles within
/// it, in segment order; the result has one angle per allotted subslot.
pub fn subslot_angles(segs: &Vec<AngularSegment>, counts: &Vec<usize>) -> (r: Vec<i64>)
    requires
        segs_wf(segs@),
        counts@.len() == segs@.len(),
        forall|i: int| 0 <= i < counts@.len() ==> counts@[i] <= MAX_ALLOC + 1,
    ensures
        r@.len() == sum_counts(counts@),
        forall|i: int, j: int|
            0 <= i < counts@.len() && 0 <= j < counts@[i] ==> r@[prefix_count(counts@, i) + j]
                == spec_seg_angle(segs@[i], counts@[i] as int, j),
        forall|a: int| 0 <= a < r@.len() ==> -HALF_TURN < #[trigger] r@[a] <= HALF_TURN,
{
    let n = segs.len();
    let mut out: Vec<i64> = Vec::new();
    let mut i: usize = 0;
    proof {
        assert(counts@.take(0) =~= Seq::<usize>::empty());
        lemma_sum_counts_nonneg(counts@);
    }
    while i < n
        invariant
            n == segs@.len(),
            counts@.len() == n,
            segs_wf(segs@),
            forall|t: int| 0 <= t < counts@.len() ==> counts@[t] <= MAX_ALLOC + 1,
            i <= n,
            out@.len() == prefix_count(counts@, i as int),
            forall|t: int, j: int|
                0 <= t < i && 0 <= j < counts@[t] ==> out@[prefix_count(counts@, t) + j]
                    == spec_seg_angle(segs@[t], counts@[t] as int, j),
            forall|a: int| 0 <= a < out@.len() ==> -HALF_TURN < #[trigger] out@[a] <= HALF_TURN,
        decreases n - i,
    {
        let c = counts[i];
        let seg = segs[i];
        assert(seg.wf());
        let seg_len = seg.len();
        let ghost base = out@.len() as int;
        let mut j: usize = 0;
        while j < c
            invariant
                n == segs@.len(),
                counts@.len() == n,
                i < n,
                0 <= seg_len == seg.spec_len() <= FULL_TURN,
                seg == segs@[i as int],
                c == counts@[i as int],
                seg.wf(),
                c <= MAX_ALLOC + 1,
                j <= c,
                base == prefix_count(counts@, i as int),
                out@.len() == base + j,
                base >= 0,
                forall|jj: int|
                    0 <= jj < j ==> out@[base + jj] == spec_seg_angle(seg, c as int, jj),
                forall|a: int| 0 <= a < out@.len() ==> -HALF_TURN < #[trigger] out@[a] <= HALF_TURN,
                forall|t: int, jj: int|
                    0 <= t < i && 0 <= jj < counts@[t] ==> out@[prefix_count(counts@, t) + jj]
                        == spec_seg_angle(segs@[t], counts@[t] as int, jj),
            decreases c - j,
        {
            proof {
                assert(seg_len * (2 * j + 1) <= FULL_TURN * (2 * (MAX_ALLOC + 1) + 1))
                    by (nonlinear_arith)
                    requires
                        0 <= seg_len <= FULL_TURN,
                        0 <= j < c <= MAX_ALLOC + 1,
                ;
                vstd::arithmetic::div_mod::lemma_div_pos_is_pos(
                    (seg_len * (2 * j + 1)) as int,
                    (2 * c) as int,
                );
                assert(seg_len * (2 * j + 1) < seg_len * (2 * c) || seg_len == 0)
                    by (nonlinear_arith)
                    requires
                        0 <= seg_len,
                        0 <= j < c,
                ;
                if seg_len > 0 {
                    vstd::arithmetic::div_mod::lemma_multiply_divide_lt(
                        (seg_len * (2 * j + 1)) as int,
                        seg_len as int,
                        (2 * c) as int,
                    );
                } else {
                    vstd::arithmetic::div_mod::lemma_div_of0((2 * c) as int);
                }
            }
            let offset = ((seg_len as u64) * (2 * (j as u64) + 1) / (2 * (c as u64))) as i64;
            let a = normalize(seg.start + offset);
            let ghost old_out = out@;
            out.push(a);
            proof {
                assert(out@[base + j] == spec_seg_angle(seg, c as int, j as int));
                assert forall|t: int, jj: int|
                    0 <= t < i && 0 <= jj < counts@[t] implies out@[prefix_count(counts@, t) + jj]
                    == spec_seg_angle(segs@[t], counts@[t] as int, jj) by {
                    lemma_prefix_count_step(counts@, t);
                    lemma_prefix_count_mono(counts@, t + 1, i as int);
                    lemma_prefix_count_mono(counts@, t, i as int);
                    assert(0 <= prefix_count(counts@, t) + jj < base);
                    assert(old_out.len() == base + j);
                    assert(out@ == old_out.push(a));
                    assert(old_out.push(a)[prefix_count(counts@, t) + jj] == old_out[prefix_count(
                        counts@,
                        t,
                    ) + jj]);
                }
            }
            j = j + 1;
        }
        proof {
            lemma_prefix_count_step(counts@, i as int);
            assert forall|t: int, jj: int|
                0 <= t < i + 1 && 0 <= jj < counts@[t] implies out@[prefix_count(counts@, t) + jj]
                == spec_seg_angle(segs@[t], counts@[t] as int, jj) by {
                if t == i as int {
                    assert(out@[base + jj] == spec_seg_angle(seg, c as int, jj));
                }
            }
        }
        i = i + 1;
    }
    proof {
        assert(counts@.take(n as int) =~= counts@);
    }
    out
}

} // verus!
