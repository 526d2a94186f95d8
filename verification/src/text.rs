//! Case-insensitive text comparison.
//!
//! Window classes are compared ignoring case. ASCII case folding is verified
//! here character by character; full Unicode lowercasing goes through one
//! trusted call into the standard library, whose result is named `lower_of`.

use vstd::prelude::*;
use vstd::string::StrSliceExecFns;

verus! {

/// The Unicode lowercase form of a character sequence, as the standard
/// library computes it. Named, not defined: its exact value is the standard
/// library's; the engine only ever compares such values for equality.
pub uninterp spec fn lower_of(s: Seq<char>) -> Seq<char>;

/// Relies on str::to_lowercase: its result depends on the characters alone,
/// not on locale or environment.
#[verifier::external_body]
pub(crate) fn lowercase(s: &str) -> (r: String)
    ensures
        r@ == lower_of(s@),
{
    s.to_lowercase()
}

/// Code point of `c` with ASCII uppercase letters folded to lowercase.
pub open spec fn fold_char(c: char) -> int {
    if 'A' <= c <= 'Z' {
        c as int + 32
    } else {
        c as int
    }
}

/// ASCII-case-insensitive equality of two character sequences: equal length
/// and pointwise equal code points after folding.
pub open spec fn seq_eq_fold(a: Seq<char>, b: Seq<char>) -> bool {
    a.len() == b.len() && forall|i: int| 0 <= i < a.len() ==> fold_char(a[i]) == fold_char(b[i])
}

/// Whether `t` occurs in `w` at offset `off`, comparing folded characters.
pub open spec fn fold_matches_at(w: Seq<char>, t: Seq<char>, off: int) -> bool {
    &&& 0 <= off
    &&& off + t.len() <= w.len()
    &&& forall|i: int| 0 <= i < t.len() ==> fold_char(w[off + i]) == fold_char(t[i])
}

/// Whether `t` occurs anywhere in `w`, comparing folded characters.
pub open spec fn contains_fold(w: Seq<char>, t: Seq<char>) -> bool {
    exists|off: int| fold_matches_at(w, t, off)
}

pub(crate) fn fold_char_exec(c: char) -> (r: u32)
    ensures
        r == fold_char(c),
{
    if c >= 'A' && c <= 'Z' {
        (c as u32) + 32
    } else {
        c as u32
    }
}

/// Compares two strings for equality, ignoring ASCII case.
pub fn eq_ignore_case(a: &str, b: &str) -> (r: bool)
    ensures
        r == seq_eq_fold(a@, b@),
{
    let alen = a.unicode_len();
    let blen = b.unicode_len();
    if alen != blen {
        return false;
    }
    let mut i: usize = 0;
    while i < alen
        invariant
            alen == a@.len(),
            alen == b@.len(),
            i <= alen,
            forall|j: int| 0 <= j < i ==> fold_char(a@[j]) == fold_char(b@[j]),
        decreases alen - i,
    {
        let ca = fold_char_exec(a.get_char(i));
        let cb = fold_char_exec(b.get_char(i));
        if ca != cb {
            return false;
        }
        i = i + 1;
    }
    true
}

fn matches_at(w: &str, t: &str, off: usize, wlen: usize, tlen: usize) -> (r: bool)
    requires
        wlen == w@.len(),
        tlen == t@.len(),
        off + tlen <= wlen,
    ensures
        r == fold_matches_at(w@, t@, off as int),
{
    let mut i: usize = 0;
    while i < tlen
        invariant
            wlen == w@.len(),
            tlen == t@.len(),
            off + tlen <= wlen,
            i <= tlen,
            forall|j: int| 0 <= j < i ==> fold_char(w@[off + j]) == fold_char(t@[j]),
        decreases tlen - i,
    {
        let cw = fold_char_exec(w.get_char(off + i));
        let ct = fold_char_exec(t.get_char(i));
        if cw != ct {
            return false;
        }
        i = i + 1;
    }
    true
}

/// Tests whether `t` occurs as a substring of `w`, ignoring ASCII case.
pub fn contains_ignore_case(w: &str, t: &str) -> (r: bool)
    ensures
        r == contains_fold(w@, t@),
{
    let wlen = w.unicode_len();
    let tlen = t.unicode_len();
    if tlen > wlen {
        return false;
    }
    let mut off: usize = 0;
    while off <= wlen - tlen
        invariant
            wlen == w@.len(),
            tlen == t@.len(),
            tlen <= wlen,
            off <= wlen - tlen + 1,
            forall|o: int| 0 <= o < off ==> !fold_matches_at(w@, t@, o),
        decreases wlen - off,
    {
        if matches_at(w, t, off, wlen, tlen) {
            return true;
        }
        off = off + 1;
    }
    false
}

} // verus!
