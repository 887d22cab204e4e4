use vstd::prelude::*;
use vstd::arithmetic::div_mod::{lemma_fundamental_div_mod, lemma_mod_bound};

verus! {

/// Clamp `x` into the closed interval `[lo, hi]`.
pub open spec fn clamp_int(x: int, lo: int, hi: int) -> int {
    if x < lo {
        lo
    } else if x > hi {
        hi
    } else {
        x
    }
}

/// The quotient `n / d` rounded to the nearest integer, halves away from
/// zero, for a positive divisor `d`. This is the rounding rule used by every
/// quantization step of the codec.
pub open spec fn round_div(n: int, d: int) -> int
    recommends
        d > 0,
{
    if n >= 0 {
        (2 * n + d) / (2 * d)
    } else {
        -((2 * (-n) + d) / (2 * d))
    }
}

/// `round_div(n, d)` is the integer `q` with `q*d` within `d/2` of `n`:
/// `2*n` always lies in `[2*q*d - d, 2*q*d + d]`.
pub proof fn lemma_round_div_near(n: int, d: int)
    requires
        d > 0,
    ensures
        2 * round_div(n, d) * d - d <= 2 * n <= 2 * round_div(n, d) * d + d,
{
    if n >= 0 {
        let q = (2 * n + d) / (2 * d);
        lemma_fundamental_div_mod(2 * n + d, 2 * d);
        lemma_mod_bound(2 * n + d, 2 * d);
        assert(2 * n + d == 2 * d * q + (2 * n + d) % (2 * d));
        assert(2 * q * d - d <= 2 * n <= 2 * q * d + d) by (nonlinear_arith)
            requires
                2 * n + d == 2 * d * q + (2 * n + d) % (2 * d),
                0 <= (2 * n + d) % (2 * d) < 2 * d,
                d > 0,
        ;
    } else {
        let m = -n;
        let q = (2 * m + d) / (2 * d);
        lemma_fundamental_div_mod(2 * m + d, 2 * d);
        lemma_mod_bound(2 * m + d, 2 * d);
        assert(2 * q * d - d <= 2 * m <= 2 * q * d + d) by (nonlinear_arith)
            requires
                2 * m + d == 2 * d * q + (2 * m + d) % (2 * d),
                0 <= (2 * m + d) % (2 * d) < 2 * d,
                d > 0,
        ;
        assert(round_div(n, d) == -q);
        assert(2 * (-q) * d - d <= 2 * n <= 2 * (-q) * d + d) by (nonlinear_arith)
            requires
                2 * q * d - d <= 2 * m <= 2 * q * d + d,
                m == -n,
        ;
    }
}

/// Rounding an exact multiple of the divisor is exact: grid points are
/// fixed points of the quantizer's rounding step.
pub proof fn lemma_round_div_exact(k: int, d: int)
    requires
        d > 0,
    ensures
        round_div(k * d, d) == k,
{
    let q = round_div(k * d, d);
    lemma_round_div_near(k * d, d);
    assert(q == k) by (nonlinear_arith)
        requires
            d > 0,
            2 * q * d - d <= 2 * (k * d) <= 2 * q * d + d,
    ;
}

/// If `n/d` lies between `lo` and `hi` then so does the rounded quotient.
pub proof fn lemma_round_div_bounds(n: int, d: int, lo: int, hi: int)
    requires
        d > 0,
        lo * d <= n <= hi * d,
    ensures
        lo <= round_div(n, d) <= hi,
{
    let q = round_div(n, d);
    lemma_round_div_near(n, d);
    assert(lo <= q <= hi) by (nonlinear_arith)
        requires
            d > 0,
            lo * d <= n <= hi * d,
            2 * q * d - d <= 2 * n <= 2 * q * d + d,
    ;
}

/// Clamp for `i64` values.
pub fn clamp_i64(x: i64, lo: i64, hi: i64) -> (r: i64)
    requires
        lo <= hi,
    ensures
        r == clamp_int(x as int, lo as int, hi as int),
{
    if x < lo {
        lo
    } else if x > hi {
        hi
    } else {
        x
    }
}

/// Executable rounded division, halves away from zero.
pub fn round_div_i64(n: i64, d: i64) -> (q: i64)
    requires
        1 <= d <= 0x3f00_0000_0000_0000,
        -0x3f00_0000_0000_0000 <= n <= 0x3f00_0000_0000_0000,
    ensures
        q == round_div(n as int, d as int),
{
    let du: u64 = d as u64;
    let nn: u64 = if n >= 0 {
        n as u64
    } else {
        (-n) as u64
    };
    let qu: u64 = (2 * nn + du) / (2 * du);
    proof {
        lemma_fundamental_div_mod(2 * nn as int + du as int, 2 * du as int);
        lemma_mod_bound(2 * nn as int + du as int, 2 * du as int);
        assert(qu <= nn + 1) by (nonlinear_arith)
            requires
                du >= 1,
                2 * nn as int + du as int == 2 * du as int * qu as int + (2 * nn as int
                    + du as int) % (2 * du as int),
                0 <= (2 * nn as int + du as int) % (2 * du as int),
        ;
    }
    if n >= 0 {
        qu as i64
    } else {
        -(qu as i64)
    }
}

} // verus!
