//! Window-class matching for the run-or-raise action.
//!
//! A target class is scored against each open window's class, ignoring ASCII
//! case: an exact match outranks a dot-separated-component match, which
//! outranks a substring match in either direction. The best match is the
//! last window with the highest positive score.

use crate::text::{
    contains_fold, contains_ignore_case, eq_ignore_case, fold_char, fold_matches_at, seq_eq_fold,
};
use vstd::prelude::*;
use vstd::string::StrSliceExecFns;

verus! {

/// Whether [lo, hi) is one piece of `w` split at every '.'.
pub open spec fn is_component(w: Seq<char>, lo: int, hi: int) -> bool {
    &&& 0 <= lo <= hi <= w.len()
    &&& (lo == 0 || w[lo - 1] == '.')
    &&& (hi == w.len() || w[hi] == '.')
    &&& forall|i: int| lo <= i < hi ==> w[i] != '.'
}

/// Whether some dot-separated component of `w` equals `t` after ASCII case
/// folding.
pub open spec fn component_eq_fold(w: Seq<char>, t: Seq<char>) -> bool {
    exists|lo: int, hi: int| is_component(w, lo, hi) && seq_eq_fold(w.subrange(lo, hi), t)
}

/// Equality of a slice of `w` with `t` under folding, restated over the
/// whole of `w`.
proof fn lemma_subrange_eq_fold(w: Seq<char>, t: Seq<char>, lo: int, hi: int)
    requires
        0 <= lo <= hi <= w.len(),
    ensures
        seq_eq_fold(w.subrange(lo, hi), t) <==> (hi - lo == t.len() && fold_matches_at(w, t, lo)),
{
    let sub = w.subrange(lo, hi);
    if hi - lo == t.len() {
        if seq_eq_fold(sub, t) {
            assert forall|i: int| 0 <= i < t.len() implies fold_char(w[lo + i]) == fold_char(
                t[i],
            ) by {
                assert(fold_char(sub[i]) == fold_char(t[i]));
                assert(sub[i] == w[lo + i]);
            }
        }
        if fold_matches_at(w, t, lo) {
            assert forall|i: int| 0 <= i < sub.len() implies fold_char(sub[i]) == fold_char(
                t[i],
            ) by {
                assert(sub[i] == w[lo + i]);
            }
        }
    }
}

/// For a fixed right end, the left end of a component is unique: it is the
/// position after the previous dot.
proof fn lemma_component_lo_unique(w: Seq<char>, lo: int, l: int, h: int)
    requires
        is_component(w, l, h),
        0 <= lo <= h,
        lo == 0 || w[lo - 1] == '.',
        forall|k: int| lo <= k < h ==> w[k] != '.',
    ensures
        l == lo,
{
    if l < lo {
        assert(w[lo - 1] == '.');
        assert(l <= lo - 1 < h);
    }
    if l > lo {
        assert(w[l - 1] == '.');
        assert(lo <= l - 1 < h);
    }
}

fn matches_piece(w: &str, t: &str, lo: usize, hi: usize, wlen: usize, tlen: usize) -> (r: bool)
    requires
        wlen == w@.len(),
        tlen == t@.len(),
        lo <= hi <= wlen,
    ensures
        r == seq_eq_fold(w@.subrange(lo as int, hi as int), t@),
{
    proof {
        lemma_subrange_eq_fold(w@, t@, lo as int, hi as int);
    }
    if hi - lo != tlen {
        return false;
    }
    let mut i: usize = 0;
    while i < tlen
        invariant
            wlen == w@.len(),
            tlen == t@.len(),
            lo <= hi <= wlen,
            hi - lo == tlen,
            i <= tlen,
            forall|j: int| 0 <= j < i ==> fold_char(w@[lo + j]) == fold_char(t@[j]),
        decreases tlen - i,
    {
        let cw = crate::text::fold_char_exec(w.get_char(lo + i));
        let ct = crate::text::fold_char_exec(t.get_char(i));
        if cw != ct {
            proof {
                lemma_subrange_eq_fold(w@, t@, lo as int, hi as int);
            }
            return false;
        }
        i = i + 1;
    }
    proof {
        lemma_subrange_eq_fold(w@, t@, lo as int, hi as int);
    }
    true
}

/// Tests whether some dot-separated component of `w` equals `t`, ignoring
/// ASCII case.
pub fn component_matches(w: &str, t: &str) -> (r: bool)
    ensures
        r == component_eq_fold(w@, t@),
{
    let wlen = w.unicode_len();
    let tlen = t.unicode_len();
    let mut lo: usize = 0;
    let mut i: usize = 0;
    while i < wlen
        invariant
            wlen == w@.len(),
            tlen == t@.len(),
            lo <= i <= wlen,
            lo == 0 || w@[lo - 1] == '.',
            forall|k: int| lo <= k < i ==> w@[k] != '.',
            forall|l: int, h: int|
                is_component(w@, l, h) && h < i ==> !seq_eq_fold(w@.subrange(l, h), t@),
        decreases wlen - i,
    {
        let c = w.get_char(i);
        if c == '.' {
            if matches_piece(w, t, lo, i, wlen, tlen) {
                proof {
                    assert(is_component(w@, lo as int, i as int));
                }
                return true;
            }
            proof {
                assert forall|l: int, h: int|
                    is_component(w@, l, h) && h < i + 1 implies !seq_eq_fold(
                    w@.subrange(l, h),
                    t@,
                ) by {
                    if h == i {
                        lemma_component_lo_unique(w@, lo as int, l, h);
                    }
                }
            }
            lo = i + 1;
        } else {
            proof {
                assert forall|l: int, h: int|
                    is_component(w@, l, h) && h < i + 1 implies !seq_eq_fold(
                    w@.subrange(l, h),
                    t@,
                ) by {
                    if h == i {
                        assert(w@[h] == '.');
                    }
                }
            }
        }
        i = i + 1;
    }
    if matches_piece(w, t, lo, wlen, wlen, tlen) {
        proof {
            assert(is_component(w@, lo as int, wlen as int));
        }
        return true;
    }
    proof {
        assert forall|l: int, h: int| is_component(w@, l, h) implies !seq_eq_fold(
            w@.subrange(l, h),
            t@,
        ) by {
            if h == wlen {
                lemma_component_lo_unique(w@, lo as int, l, h);
            }
        }
    }
    false
}

/// The match quality of a window class against the target class: 3 for an
/// exact match, 2 for a dot-separated-component match, 1 for a substring
/// match in either direction, 0 for no match. All comparisons ignore ASCII
/// case.
pub open spec fn spec_score(target: Seq<char>, class: Seq<char>) -> int {
    if seq_eq_fold(class, target) {
        3
    } else if component_eq_fold(class, target) {
        2
    } else if contains_fold(class, target) || contains_fold(target, class) {
        1
    } else {
        0
    }
}

/// Scores a window class against the target class.
pub fn match_score(target: &str, class: &str) -> (s: u8)
    ensures
        s == spec_score(target@, class@),
{
    if eq_ignore_case(class, target) {
        3
    } else if component_matches(class, target) {
        2
    } else if contains_ignore_case(class, target) || contains_ignore_case(target, class) {
        1
    } else {
        0
    }
}

/// Picks the window whose class best matches the target: the last window
/// with the highest positive score, or nothing when no class matches at all.
pub fn best_match(target: &str, classes: &Vec<String>) -> (r: Option<usize>)
    ensures
        match r {
            Some(i) => {
                &&& i < classes@.len()
                &&& spec_score(target@, classes@[i as int]@) > 0
                &&& forall|j: int|
                    0 <= j < classes@.len() ==> spec_score(target@, classes@[j]@) <= spec_score(
                        target@,
                        classes@[i as int]@,
                    )
                &&& forall|j: int|
                    i < j < classes@.len() ==> spec_score(target@, classes@[j]@) < spec_score(
                        target@,
                        classes@[i as int]@,
                    )
            },
            None => forall|j: int| 0 <= j < classes@.len() ==> spec_score(target@, classes@[j]@) == 0,
        },
{
    let mut best: Option<usize> = None;
    let mut best_score: u8 = 0;
    let n = classes.len();
    let mut j: usize = 0;
    while j < n
        invariant
            n == classes@.len(),
            j <= n,
            match best {
                Some(i) => {
                    &&& i < j
                    &&& best_score == spec_score(target@, classes@[i as int]@)
                    &&& best_score > 0
                    &&& forall|k: int|
                        0 <= k < j ==> spec_score(target@, classes@[k]@) <= best_score
                    &&& forall|k: int|
                        i < k < j ==> spec_score(target@, classes@[k]@) < best_score
                },
                None => best_score == 0 && forall|k: int|
                    0 <= k < j ==> spec_score(target@, classes@[k]@) == 0,
            },
        decreases n - j,
    {
        let s = match_score(target, classes[j].as_str());
        if s > 0 && s >= best_score {
            best = Some(j);
            best_score = s;
        }
        j = j + 1;
    }
    best
}

} // verus!
