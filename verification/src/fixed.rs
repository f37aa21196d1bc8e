//! Scales of the fixed-point numbers, saturation, truncating division and the
//! integer square root.

use vstd::prelude::*;

verus! {

/// The number one, counted in millionths.
pub const UNIT: i64 = 1_000_000;

/// The number one, counted in million-millionths: a millionth times a microsecond.
pub const FINE_UNIT: i64 = 1_000_000_000_000;

/// `v` where an `i64` holds it, else the nearest bound of `i64`.
pub open spec fn clamp_i64(v: int) -> i64 {
    if v < i64::MIN {
        i64::MIN
    } else if v > i64::MAX {
        i64::MAX
    } else {
        v as i64
    }
}

/// The quotient of `v` by a positive `d`, rounded toward zero.
pub open spec fn trunc_div(v: int, d: int) -> int
    recommends
        d > 0,
{
    if v >= 0 {
        v / d
    } else {
        -((-v) / d)
    }
}

/// The absolute value of an integer.
pub open spec fn abs(v: int) -> int {
    if v < 0 {
        -v
    } else {
        v
    }
}

/// The largest natural number whose square is at most `n`.
pub open spec fn int_sqrt(n: nat) -> nat
    decreases n,
{
    if n == 0 {
        0
    } else {
        let r = int_sqrt((n - 1) as nat);
        if (r + 1) * (r + 1) <= n {
            r + 1
        } else {
            r
        }
    }
}

/// The square of `int_sqrt(n)` is at most `n`, and the next square is above it.
pub proof fn lemma_int_sqrt_bounds(n: nat)
    ensures
        int_sqrt(n) * int_sqrt(n) <= n < (int_sqrt(n) + 1) * (int_sqrt(n) + 1),
    decreases n,
{
    if n > 0 {
        lemma_int_sqrt_bounds((n - 1) as nat);
        let r = int_sqrt((n - 1) as nat);
        let s = int_sqrt(n);
        assert(s * s <= n < (s + 1) * (s + 1)) by (nonlinear_arith)
            requires
                r * r <= n - 1 < (r + 1) * (r + 1),
                s == if (r + 1) * (r + 1) <= n { r + 1 } else { r },
        ;
    } else {
        let s = int_sqrt(n);
        assert(s * s <= n < (s + 1) * (s + 1)) by (nonlinear_arith)
            requires
                s == 0,
                n == 0,
        ;
    }
}

/// Only one natural number has its square at most `n` and the next square above `n`.
pub proof fn lemma_int_sqrt_unique(n: nat, r: nat)
    requires
        r * r <= n < (r + 1) * (r + 1),
    ensures
        r == int_sqrt(n),
{
    lemma_int_sqrt_bounds(n);
    let s = int_sqrt(n);
    assert(r == s) by (nonlinear_arith)
        requires
            r * r <= n < (r + 1) * (r + 1),
            s * s <= n < (s + 1) * (s + 1),
    ;
}

/// Brings a wide intermediate result back into `i64`, saturating at the bounds.
pub fn saturate(v: i128) -> (r: i64)
    ensures
        r == clamp_i64(v as int),
{
    if v < i64::MIN as i128 {
        i64::MIN
    } else if v > i64::MAX as i128 {
        i64::MAX
    } else {
        v as i64
    }
}

/// The integer square root, by bisection.
pub fn isqrt(n: u128) -> (r: u64)
    ensures
        r == int_sqrt(n as nat),
        r * r <= n < (r + 1) * (r + 1),
{
    let mut lo: u128 = 0;
    let mut hi: u128 = 0x1_0000_0000_0000_0000;
    while hi - lo > 1
        invariant
            lo < hi <= 0x1_0000_0000_0000_0000,
            lo * lo <= n < hi * hi,
        decreases hi - lo,
    {
        let mid: u128 = lo + (hi - lo) / 2;
        assert(mid * mid <= 0xffff_ffff_ffff_ffffint * 0xffff_ffff_ffff_ffffint) by (nonlinear_arith)
            requires
                0 <= mid <= 0xffff_ffff_ffff_ffff,
        ;
        if mid * mid <= n {
            lo = mid;
        } else {
            hi = mid;
        }
    }
    proof {
        lemma_int_sqrt_unique(n as nat, lo as nat);
    }
    lo as u64
}

} // verus!
