//! Exact integer square root and a fixed-point two-argument arctangent.
//!
//! The arctangent is the engine's own fixed-point approximation: on each
//! octant it evaluates `atan(z) ~= (pi/4)*z + c*z*(1-z)` in integer
//! arithmetic, which is exact on the axes and on the diagonals and within a
//! fraction of a degree everywhere else. Its mathematical definition is the
//! spec function `spec_atan2`, so the executable code is pinned down exactly.

use crate::{EIGHTH_TURN, HALF_TURN, QUARTER_TURN};
use vstd::prelude::*;

verus! {

/// Fixed-point one for the arctangent argument (2^15).
pub const ATAN_ONE: i64 = 32768;

/// Correction coefficient of the arctangent approximation, in angle units
/// (about 0.273 radians).
pub const ATAN_CORR: i64 = 728919;

/// Largest argument magnitude accepted by `atan2_units`.
pub const ATAN_ARG_LIMIT: i64 = 0x8000_0000;

/// The integer square root: the largest `r` with `r * r <= n`.
pub open spec fn spec_isqrt(n: int) -> int
    decreases n,
{
    if n <= 0 {
        0
    } else {
        let p = spec_isqrt(n - 1);
        if (p + 1) * (p + 1) <= n {
            p + 1
        } else {
            p
        }
    }
}

pub proof fn lemma_isqrt_bounds(n: int)
    requires
        n >= 0,
    ensures
        0 <= spec_isqrt(n),
        spec_isqrt(n) * spec_isqrt(n) <= n,
        n < (spec_isqrt(n) + 1) * (spec_isqrt(n) + 1),
    decreases n,
{
    if n > 0 {
        lemma_isqrt_bounds(n - 1);
        let p = spec_isqrt(n - 1);
        if (p + 1) * (p + 1) <= n {
            assert(n < (p + 2) * (p + 2)) by (nonlinear_arith)
                requires
                    p >= 0,
                    n - 1 < (p + 1) * (p + 1),
                    (p + 1) * (p + 1) <= n,
            ;
        }
    }
}

/// The square root's characterization is unique.
pub proof fn lemma_isqrt_unique(n: int, r: int)
    requires
        n >= 0,
        r >= 0,
        r * r <= n,
        n < (r + 1) * (r + 1),
    ensures
        r == spec_isqrt(n),
{
    lemma_isqrt_bounds(n);
    let s = spec_isqrt(n);
    assert(r == s) by (nonlinear_arith)
        requires
            r >= 0,
            s >= 0,
            r * r <= n,
            n < (r + 1) * (r + 1),
            s * s <= n,
            n < (s + 1) * (s + 1),
    ;
}

/// The integer square root is monotonically non-decreasing.
pub proof fn lemma_isqrt_monotone(a: int, b: int)
    requires
        0 <= a <= b,
    ensures
        spec_isqrt(a) <= spec_isqrt(b),
{
    lemma_isqrt_bounds(a);
    lemma_isqrt_bounds(b);
    let ra = spec_isqrt(a);
    let rb = spec_isqrt(b);
    assert(ra <= rb) by (nonlinear_arith)
        requires
            ra >= 0,
            rb >= 0,
            ra * ra <= a,
            a <= b,
            b < (rb + 1) * (rb + 1),
    ;
}

/// Computes the integer square root.
pub fn isqrt(n: u64) -> (r: u64)
    requires
        n <= 0x4000_0000_0000_0000,
    ensures
        r == spec_isqrt(n as int),
        r * r <= n < (r + 1) * (r + 1),
{
    let mut r: u64 = 0;
    loop
        invariant
            n <= 0x4000_0000_0000_0000,
            r * r <= n,
            r <= 0x8000_0000,
        ensures
            r * r <= n < (r + 1) * (r + 1),
        decreases n - r,
    {
        proof {
            assert((r + 1) * (r + 1) <= 0x4000_0001_0000_0001) by (nonlinear_arith)
                requires
                    r <= 0x8000_0000,
            ;
        }
        let next = (r + 1) * (r + 1);
        if next > n {
            break ;
        }
        r = r + 1;
        proof {
            assert(r <= 0x8000_0000 && r <= n) by (nonlinear_arith)
                requires
                    r >= 1,
                    r * r <= n,
                    n <= 0x4000_0000_0000_0000,
            ;
        }
    }
    proof {
        lemma_isqrt_unique(n as int, r as int);
    }
    r
}

/// Fixed-point arctangent of `num / den` for `0 <= num <= den`, in angle
/// units; ranges over [0, EIGHTH_TURN] and is exact at the endpoints.
pub open spec fn atan_frac(num: int, den: int) -> int
    recommends
        0 <= num <= den,
        0 < den,
{
    let one = ATAN_ONE as int;
    let z = (num * one) / den;
    (EIGHTH_TURN * z) / one + (ATAN_CORR * z * (one - z)) / (one * one)
}

pub proof fn lemma_atan_frac_range(num: int, den: int)
    requires
        0 <= num <= den,
        0 < den,
    ensures
        0 <= atan_frac(num, den) <= EIGHTH_TURN,
        num == 0 ==> atan_frac(num, den) == 0,
        num == den ==> atan_frac(num, den) == EIGHTH_TURN,
{
    let one = ATAN_ONE as int;
    let e = EIGHTH_TURN as int;
    let c = ATAN_CORR as int;
    let z = (num * one) / den;
    assert(0 <= z <= one) by {
        vstd::arithmetic::div_mod::lemma_div_pos_is_pos(num * one, den);
        assert(num * one <= den * one) by (nonlinear_arith)
            requires
                num <= den,
                one > 0,
        ;
        vstd::arithmetic::div_mod::lemma_div_is_ordered(num * one, den * one, den);
        vstd::arithmetic::div_mod::lemma_div_by_multiple(one, den);
    }
    let a = (e * z) / one;
    let b = (c * z * (one - z)) / (one * one);
    assert(a >= 0 && b >= 0) by {
        vstd::arithmetic::div_mod::lemma_div_pos_is_pos(e * z, one);
        assert(c * z * (one - z) >= 0) by (nonlinear_arith)
            requires
                0 <= z <= one,
                c > 0,
        ;
        vstd::arithmetic::div_mod::lemma_div_pos_is_pos(c * z * (one - z), one * one);
    }
    assert(a * one <= e * z) by {
        vstd::arithmetic::div_mod::lemma_fundamental_div_mod(e * z, one);
        vstd::arithmetic::div_mod::lemma_mod_division_less_than_divisor(e * z, one);
    }
    assert(b * (one * one) <= c * z * (one - z)) by {
        vstd::arithmetic::div_mod::lemma_fundamental_div_mod(c * z * (one - z), one * one);
        vstd::arithmetic::div_mod::lemma_mod_division_less_than_divisor(c * z * (one - z), one * one);
    }
    assert(a + b <= e) by (nonlinear_arith)
        requires
            a * one <= e * z,
            b * (one * one) <= c * z * (one - z),
            0 <= z <= one,
            0 < c <= e,
            one > 0,
            b >= 0,
            a >= 0,
    ;
    if num == 0 {
        assert(z == 0) by {
            vstd::arithmetic::div_mod::lemma_div_of0(den);
        }
    }
    if num == den {
        assert(z == one) by {
            vstd::arithmetic::div_mod::lemma_div_by_multiple(one, den);
        }
        assert(a == e) by {
            vstd::arithmetic::div_mod::lemma_div_by_multiple(e, one);
        }
        assert(c * one * (one - one) == 0);
        assert(b == 0) by {
            vstd::arithmetic::div_mod::lemma_div_of0(one * one);
        }
    }
}

fn atan_frac_exec(num: u64, den: u64) -> (r: i64)
    requires
        num <= den,
        0 < den <= 0x8000_0000,
    ensures
        r == atan_frac(num as int, den as int),
        0 <= r <= EIGHTH_TURN,
{
    proof {
        lemma_atan_frac_range(num as int, den as int);
    }
    let z = num * (ATAN_ONE as u64) / den;
    proof {
        vstd::arithmetic::div_mod::lemma_div_pos_is_pos((num * ATAN_ONE) as int, den as int);
        assert((num * ATAN_ONE) as int <= (den * ATAN_ONE) as int) by (nonlinear_arith)
            requires
                num <= den,
        ;
        vstd::arithmetic::div_mod::lemma_div_is_ordered(
            (num * ATAN_ONE) as int,
            (den * ATAN_ONE) as int,
            den as int,
        );
        vstd::arithmetic::div_mod::lemma_div_by_multiple(ATAN_ONE as int, den as int);
    }
    let t1 = (EIGHTH_TURN as u64) * z / (ATAN_ONE as u64);
    let t2 = (ATAN_CORR as u64) * z * ((ATAN_ONE as u64) - z) / ((ATAN_ONE as u64) * (ATAN_ONE as u64));
    (t1 + t2) as i64
}

/// Fixed-point angle of the vector `(x, y)`: the engine's arctangent of
/// `y / x` extended to all four quadrants, in angle units within
/// [-HALF_TURN, HALF_TURN]. Zero for the zero vector.
pub open spec fn spec_atan2(y: int, x: int) -> int {
    let ax = vstd::math::abs(x) as int;
    let ay = vstd::math::abs(y) as int;
    if ax == 0 && ay == 0 {
        0
    } else {
        let base = if ay <= ax {
            atan_frac(ay, ax)
        } else {
            QUARTER_TURN - atan_frac(ax, ay)
        };
        if x >= 0 && y >= 0 {
            base
        } else if x < 0 && y >= 0 {
            HALF_TURN - base
        } else if x >= 0 {
            -base
        } else {
            base - HALF_TURN
        }
    }
}

pub proof fn lemma_atan2_range(y: int, x: int)
    ensures
        -HALF_TURN <= spec_atan2(y, x) <= HALF_TURN,
{
    let ax = vstd::math::abs(x) as int;
    let ay = vstd::math::abs(y) as int;
    if !(ax == 0 && ay == 0) {
        if ay <= ax {
            lemma_atan_frac_range(ay, ax);
        } else {
            lemma_atan_frac_range(ax, ay);
        }
    }
}

/// In the first quadrant the angle lies between zero and a quarter turn.
pub proof fn lemma_atan2_first_quadrant(y: int, x: int)
    requires
        y >= 0,
        x >= 0,
    ensures
        0 <= spec_atan2(y, x) <= QUARTER_TURN,
{
    let ax = vstd::math::abs(x) as int;
    let ay = vstd::math::abs(y) as int;
    if !(ax == 0 && ay == 0) {
        if ay <= ax {
            lemma_atan_frac_range(ay, ax);
        } else {
            lemma_atan_frac_range(ax, ay);
        }
    }
}

/// Computes the fixed-point angle of the vector `(x, y)`.
pub fn atan2_units(y: i64, x: i64) -> (r: i64)
    requires
        -ATAN_ARG_LIMIT <= y <= ATAN_ARG_LIMIT,
        -ATAN_ARG_LIMIT <= x <= ATAN_ARG_LIMIT,
    ensures
        r == spec_atan2(y as int, x as int),
        -HALF_TURN <= r <= HALF_TURN,
{
    proof {
        lemma_atan2_range(y as int, x as int);
    }
    let ax: i64 = if x < 0 {
        -x
    } else {
        x
    };
    let ay: i64 = if y < 0 {
        -y
    } else {
        y
    };
    if ax == 0 && ay == 0 {
        return 0;
    }
    let base: i64 = if ay <= ax {
        atan_frac_exec(ay as u64, ax as u64)
    } else {
        QUARTER_TURN - atan_frac_exec(ax as u64, ay as u64)
    };
    if x >= 0 && y >= 0 {
        base
    } else if x < 0 && y >= 0 {
        HALF_TURN - base
    } else if x >= 0 {
        -base
    } else {
        base - HALF_TURN
    }
}

} // verus!
