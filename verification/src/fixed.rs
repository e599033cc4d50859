//! Fixed-point arithmetic: every geometric quantity in this crate is an
//! `i64` carrying 16 fractional bits, so one world unit is `SCALE`.
//! Products and quotients round toward zero, and `fsqrt` is the integer
//! square root of the value widened by one more factor of `SCALE`.

use vstd::prelude::*;
use vstd::arithmetic::div_mod::{
    lemma_div_is_ordered, lemma_div_nonincreasing, lemma_div_pos_is_pos,
};

verus! {

/// One world unit: the fixed-point encoding carries 16 fractional bits.
pub const SCALE: i64 = 65536;

/// Half a world unit; the shortest length that normalization accepts.
pub const HALF_SCALE: i64 = 32768;

/// Largest magnitude a scene coordinate (or light intensity, or radius)
/// may carry; keeps every intermediate of the pipeline inside `i64`.
pub const COORD_MAX: i64 = 1073741824;

/// Bound on the components of a normalized direction: two world units.
pub const DIR_MAX: i64 = 131072;

/// Largest ray parameter the pipeline hands to `point_at`.
pub const T_MAX: i64 = 137438953472;

/// Bound on the components of any point a ray materializes:
/// `COORD_MAX + 2 * T_MAX`.
pub const HIT_MAX: i64 = 275951648768;

/// Truncating (round-toward-zero) division for a positive divisor:
/// the rounding rule of every fixed-point operation in this crate.
pub open spec fn div_trunc(a: int, b: int) -> int {
    if a >= 0 {
        a / b
    } else {
        -((-a) / b)
    }
}

/// The value fits the executable representation.
pub open spec fn fits_i64(x: int) -> bool {
    i64::MIN <= x <= i64::MAX
}

/// Fixed-point product: the integer product carries 32 fractional bits,
/// so 16 of them are dropped, rounding toward zero.
pub open spec fn fmul_spec(a: int, b: int) -> int {
    div_trunc(a * b, SCALE as int)
}

/// Fixed-point quotient: the dividend is widened by 16 fractional bits
/// first, then divided, rounding toward zero.
pub open spec fn fdiv_spec(a: int, b: int) -> int {
    div_trunc(a * (SCALE as int), b)
}

/// `r` is the integer square root of `n`.
pub open spec fn is_isqrt(n: int, r: int) -> bool {
    0 <= r && r * r <= n && n < (r + 1) * (r + 1)
}

/// The integer square root (meaningful for `n >= 0`).
pub open spec fn isqrt_spec(n: int) -> int {
    choose|r: int| is_isqrt(n, r)
}

/// Fixed-point square root: the argument gains one more factor of `SCALE`,
/// so the integer square root lands back on the fixed-point scale.
pub open spec fn fsqrt_spec(v: int) -> int {
    isqrt_spec(v * (SCALE as int))
}

/// Truncating division never grows the magnitude of the dividend.
pub proof fn lemma_div_trunc_le(a: int, b: int, m: int)
    requires
        1 <= b,
        -m <= a <= m,
    ensures
        -(m / b) <= div_trunc(a, b) <= m / b,
        -m <= div_trunc(a, b) <= m,
{
    if a >= 0 {
        lemma_div_pos_is_pos(a, b);
        lemma_div_is_ordered(a, m, b);
        lemma_div_nonincreasing(a, b);
    } else {
        lemma_div_pos_is_pos(-a, b);
        lemma_div_is_ordered(-a, m, b);
        lemma_div_nonincreasing(-a, b);
    }
    lemma_div_pos_is_pos(m, b);
    lemma_div_nonincreasing(m, b);
}

/// A product of bounded factors is bounded, and so is its fixed-point form.
pub proof fn lemma_fmul_bound(a: int, b: int, am: int, bm: int)
    requires
        -am <= a <= am,
        -bm <= b <= bm,
        0 <= am,
        0 <= bm,
    ensures
        -(am * bm) <= a * b <= am * bm,
        -((am * bm) / (SCALE as int)) <= fmul_spec(a, b) <= (am * bm) / (SCALE as int),
{
    assert(-(am * bm) <= a * b <= am * bm) by (nonlinear_arith)
        requires
            -am <= a <= am,
            -bm <= b <= bm,
            0 <= am,
            0 <= bm,
    ;
    lemma_div_trunc_le(a * b, SCALE as int, am * bm);
}

/// Truncating division is monotone in the dividend.
pub proof fn lemma_div_trunc_monotone(a1: int, a2: int, b: int)
    requires
        1 <= b,
        a1 <= a2,
    ensures
        div_trunc(a1, b) <= div_trunc(a2, b),
{
    if a1 >= 0 {
        lemma_div_is_ordered(a1, a2, b);
    } else if a2 >= 0 {
        lemma_div_pos_is_pos(-a1, b);
        lemma_div_pos_is_pos(a2, b);
    } else {
        lemma_div_is_ordered(-a2, -a1, b);
    }
}

/// Fixed-point multiplication.
pub fn fmul(a: i64, b: i64) -> (r: i64)
    requires
        fits_i64(fmul_spec(a as int, b as int)),
    ensures
        r as int == fmul_spec(a as int, b as int),
{
    proof {
        lemma_fmul_bound(a as int, b as int, 0x8000000000000000, 0x8000000000000000);
    }
    let p: i128 = (a as i128) * (b as i128);
    let q: i128 = p / (SCALE as i128);
    proof {
        lemma_div_trunc_le(p as int, SCALE as int, 0x8000000000000000int * 0x8000000000000000int);
    }
    q as i64
}

/// Fixed-point division by a positive value.
pub fn fdiv(a: i64, b: i64) -> (r: i64)
    requires
        1 <= b,
        fits_i64(fdiv_spec(a as int, b as int)),
    ensures
        r as int == fdiv_spec(a as int, b as int),
{
    let p: i128 = (a as i128) * (SCALE as i128);
    let q: i128 = p / (b as i128);
    proof {
        lemma_div_trunc_le(p as int, b as int, i64::MAX as int * (SCALE as int) + SCALE as int);
    }
    q as i64
}

/// Integer square root by bisection; the result is the unique `r`
/// with `r * r <= n < (r + 1) * (r + 1)`.
fn isqrt_u128(n: u128) -> (r: u128)
    requires
        n < 0x100000000000000000000,
    ensures
        is_isqrt(n as int, r as int),
{
    let mut lo: u128 = 0;
    let mut hi: u128 = 0xFFFFFFFFFF;
    while lo < hi
        invariant
            lo <= hi,
            hi <= 0xFFFFFFFFFF,
            (lo as int) * (lo as int) <= n as int,
            (n as int) < (hi as int + 1) * (hi as int + 1),
        decreases hi - lo,
    {
        let mid: u128 = lo + (hi - lo + 1) / 2;
        assert(lo < mid <= hi);
        assert((mid as int) * (mid as int) <= 0xFFFFFFFFFF * 0xFFFFFFFFFF) by (nonlinear_arith)
            requires
                mid <= 0xFFFFFFFFFF,
        ;
        if mid * mid <= n {
            lo = mid;
        } else {
            hi = mid - 1;
        }
    }
    lo
}

/// The integer square root is unique.
pub proof fn lemma_isqrt_unique(n: int, r: int)
    requires
        is_isqrt(n, r),
    ensures
        isqrt_spec(n) == r,
{
    let r2 = choose|x: int| is_isqrt(n, x);
    assert(is_isqrt(n, r2));
    assert(r == r2) by (nonlinear_arith)
        requires
            0 <= r,
            r * r <= n,
            n < (r + 1) * (r + 1),
            0 <= r2,
            r2 * r2 <= n,
            n < (r2 + 1) * (r2 + 1),
    ;
}

/// Every nonnegative integer has an integer square root.
pub proof fn lemma_isqrt_exists(n: int)
    requires
        0 <= n,
    ensures
        is_isqrt(n, isqrt_spec(n)),
    decreases n,
{
    if n == 0 {
        assert(is_isqrt(0, 0));
        lemma_isqrt_unique(0, 0);
    } else {
        lemma_isqrt_exists(n - 1);
        let r = isqrt_spec(n - 1);
        if n < (r + 1) * (r + 1) {
            assert(is_isqrt(n, r));
            lemma_isqrt_unique(n, r);
        } else {
            assert(is_isqrt(n, r + 1)) by (nonlinear_arith)
                requires
                    0 <= r,
                    r * r <= n - 1,
                    n - 1 < (r + 1) * (r + 1),
                    n >= (r + 1) * (r + 1),
            ;
            lemma_isqrt_unique(n, r + 1);
        }
    }
}

/// The integer square root is at least `m` once `n` reaches `m * m`.
pub proof fn lemma_isqrt_ge(n: int, m: int)
    requires
        0 <= m,
        m * m <= n,
    ensures
        isqrt_spec(n) >= m,
{
    assert(0 <= n) by (nonlinear_arith)
        requires
            0 <= m,
            m * m <= n,
    ;
    lemma_isqrt_exists(n);
    let r = isqrt_spec(n);
    assert(r >= m) by (nonlinear_arith)
        requires
            0 <= r,
            n < (r + 1) * (r + 1),
            0 <= m,
            m * m <= n,
    ;
}

/// The integer square root stays below `m` while `n` is below `m * m`.
pub proof fn lemma_isqrt_lt(n: int, m: int)
    requires
        0 <= n,
        n < m * m,
        0 <= m,
    ensures
        isqrt_spec(n) < m,
{
    lemma_isqrt_exists(n);
    let r = isqrt_spec(n);
    assert(r < m) by (nonlinear_arith)
        requires
            0 <= r,
            r * r <= n,
            n < m * m,
            0 <= m,
    ;
}

/// Fixed-point square root of a nonnegative value.
pub fn fsqrt(v: i64) -> (r: i64)
    requires
        0 <= v,
    ensures
        r as int == fsqrt_spec(v as int),
        is_isqrt((v as int) * (SCALE as int), r as int),
        0 <= r < 0x10000000000,
{
    proof {
        assert((v as int) * (SCALE as int) < 0x100000000000000000000) by (nonlinear_arith)
            requires
                0 <= v <= 0x7FFFFFFFFFFFFFFF,
                SCALE == 65536,
        ;
    }
    let n: u128 = (v as u128) * (SCALE as u128);
    let s = isqrt_u128(n);
    proof {
        lemma_isqrt_unique(n as int, s as int);
        assert(s < 0x10000000000) by (nonlinear_arith)
            requires
                0 <= s,
                (s as int) * (s as int) <= n as int,
                n < 0x100000000000000000000,
        ;
    }
    s as i64
}

} // verus!
