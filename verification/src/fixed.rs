//! Fixed-point scalars: the scale, truncating division and integer square
//! roots.

use vstd::prelude::*;
use vstd::arithmetic::div_mod::{
    lemma_fundamental_div_mod, lemma_fundamental_div_mod_converse, lemma_mod_bound,
};

verus! {

/// Number of fixed-point units in one whole unit.
pub const ONE: i64 = 1_000_000;

/// Largest magnitude of a vector component that can be normalized.
pub const NORMALIZE_LIMIT: i64 = 10_000_000_000_000;

/// Largest magnitude of a world coordinate. The difference of two world
/// coordinates never exceeds [`NORMALIZE_LIMIT`].
pub const WORLD_LIMIT: i64 = 5_000_000_000_000;

/// The magnitude of an integer.
pub open spec fn abs_of(v: int) -> int {
    if v >= 0 {
        v
    } else {
        -v
    }
}

/// Division that rounds toward zero, for a positive divisor.
pub open spec fn trunc_div(a: int, d: int) -> int {
    if a >= 0 {
        a / d
    } else {
        -((-a) / d)
    }
}

/// `r` is the square root of `n`, rounded down.
pub open spec fn is_sqrt_floor(n: int, r: int) -> bool {
    0 <= r && r * r <= n < (r + 1) * (r + 1)
}

/// The square root of `n`, rounded down.
pub open spec fn sqrt_floor(n: int) -> int {
    choose|r: int| is_sqrt_floor(n, r)
}

/// At most one integer is the rounded-down square root of `n`.
pub proof fn lemma_sqrt_floor_unique(n: int, r1: int, r2: int)
    requires
        is_sqrt_floor(n, r1),
        is_sqrt_floor(n, r2),
    ensures
        r1 == r2,
{
    if r1 < r2 {
        assert((r1 + 1) * (r1 + 1) <= r2 * r2) by (nonlinear_arith)
            requires
                0 <= r1,
                r1 + 1 <= r2,
        ;
    } else if r2 < r1 {
        assert((r2 + 1) * (r2 + 1) <= r1 * r1) by (nonlinear_arith)
            requires
                0 <= r2,
                r2 + 1 <= r1,
        ;
    }
}

/// A witness pins `sqrt_floor` down.
pub proof fn lemma_sqrt_floor_is(n: int, r: int)
    requires
        is_sqrt_floor(n, r),
    ensures
        sqrt_floor(n) == r,
        is_sqrt_floor(n, sqrt_floor(n)),
{
    lemma_sqrt_floor_unique(n, r, sqrt_floor(n));
}

/// Every natural number has a rounded-down square root.
pub proof fn lemma_sqrt_floor_exists(n: int)
    requires
        0 <= n,
    ensures
        is_sqrt_floor(n, sqrt_floor(n)),
    decreases n,
{
    if n == 0 {
        assert(is_sqrt_floor(0, 0));
    } else {
        lemma_sqrt_floor_exists(n - 1);
        let r = sqrt_floor(n - 1);
        if (r + 1) * (r + 1) <= n {
            assert((r + 1) * (r + 1) < (r + 2) * (r + 2)) by (nonlinear_arith)
                requires
                    0 <= r,
            ;
            assert(is_sqrt_floor(n, r + 1));
        } else {
            assert(is_sqrt_floor(n, r));
        }
    }
}

/// The rounded-down square root never exceeds a bound whose square covers `n`.
pub proof fn lemma_sqrt_floor_bound(n: int, b: int)
    requires
        0 <= n <= b * b,
        0 <= b,
    ensures
        0 <= sqrt_floor(n) <= b,
{
    lemma_sqrt_floor_exists(n);
    let r = sqrt_floor(n);
    if r > b {
        assert(r * r >= (b + 1) * (b + 1)) by (nonlinear_arith)
            requires
                0 <= b,
                b + 1 <= r,
        ;
        assert((b + 1) * (b + 1) > b * b) by (nonlinear_arith)
            requires
                0 <= b,
        ;
    }
}

/// Four times a quotient, from the quotient and the remainder: the parts on
/// the right never exceed four times the divisor.
pub proof fn lemma_quadruple_div(a: int, n: int)
    requires
        0 <= a,
        0 < n,
    ensures
        (4 * a) / n == 4 * (a / n) + (4 * (a % n)) / n,
{
    let q = a / n;
    let r = a % n;
    let t = (4 * r) / n;
    let s = (4 * r) % n;
    lemma_fundamental_div_mod(a, n);
    lemma_fundamental_div_mod(4 * r, n);
    lemma_mod_bound(4 * r, n);
    assert(4 * a == (4 * q + t) * n + s) by (nonlinear_arith)
        requires
            a == n * q + r,
            4 * r == n * t + s,
    ;
    lemma_fundamental_div_mod_converse(4 * a, n, 4 * q + t, s);
}

/// Returns the magnitude of `v`.
pub fn magnitude(v: i64) -> (m: u64)
    ensures
        m == abs_of(v as int),
{
    if v >= 0 {
        v as u64
    } else {
        let w: i128 = -(v as i128);
        w as u64
    }
}

/// Returns the square root of `n`, rounded down.
pub fn isqrt(n: u128) -> (r: u64)
    ensures
        r == sqrt_floor(n as int),
        is_sqrt_floor(n as int, r as int),
{
    let mut lo: u128 = 0;
    let mut hi: u128 = 0x1_0000_0000_0000_0000;
    while hi - lo > 1
        invariant
            lo < hi <= 0x1_0000_0000_0000_0000,
            lo * lo <= n,
            n < hi * hi,
        decreases hi - lo,
    {
        let mid: u128 = lo + (hi - lo) / 2;
        assert(mid * mid <= 0xffff_ffff_ffff_ffff * 0xffff_ffff_ffff_ffff) by (nonlinear_arith)
            requires
                0 <= mid <= 0xffff_ffff_ffff_ffff,
        ;
        if mid * mid <= n {
            lo = mid;
        } else {
            hi = mid;
        }
    }
    proof {
        lemma_sqrt_floor_is(n as int, lo as int);
    }
    lo as u64
}

} // verus!
