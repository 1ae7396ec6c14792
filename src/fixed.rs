use vstd::prelude::*;

verus! {

/// `r` is the integer square root of `n`, rounded down.
pub open spec fn is_floor_sqrt(r: int, n: int) -> bool {
    0 <= r && r * r <= n < (r + 1) * (r + 1)
}

/// The rounded-down square root is unique.
pub proof fn lemma_floor_sqrt_unique(r1: int, r2: int, n: int)
    requires
        is_floor_sqrt(r1, n),
        is_floor_sqrt(r2, n),
    ensures
        r1 == r2,
{
    if r1 < r2 {
        assert((r1 + 1) * (r1 + 1) <= r2 * r2) by (nonlinear_arith) requires 0 <= r1 < r2;
    } else if r2 < r1 {
        assert((r2 + 1) * (r2 + 1) <= r1 * r1) by (nonlinear_arith) requires 0 <= r2 < r1;
    }
}

/// The rounded-down square root of a perfect square is its root.
pub proof fn lemma_floor_sqrt_square(r: int, d: int)
    requires
        d >= 0,
        is_floor_sqrt(r, d * d),
    ensures
        r == d,
{
    assert(is_floor_sqrt(d, d * d)) by (nonlinear_arith) requires d >= 0;
    lemma_floor_sqrt_unique(r, d, d * d);
}

/// Squared Euclidean distance between two points.
pub open spec fn dist_sq(x0: int, y0: int, x1: int, y1: int) -> int {
    (x1 - x0) * (x1 - x0) + (y1 - y0) * (y1 - y0)
}

/// Floor division by a positive divisor.
pub fn floor_div(a: i64, b: i64) -> (q: i64)
    requires
        b > 0,
    ensures
        q == a / b,
{
    if a >= 0 {
        a / b
    } else {
        let m: i64 = -(a + 1);
        let t: i64 = m / b;
        proof {
            assert(m == b * t + m % b) by (nonlinear_arith) requires b > 0, m >= 0, t == m / b;
            assert(a == b * (-t - 1) + (b - 1 - m % b)) by (nonlinear_arith)
                requires m == b * t + m % b, a == -(m + 1);
            vstd::arithmetic::div_mod::lemma_fundamental_div_mod_converse(
                a as int, b as int, -t - 1, b - 1 - m % b);
        }
        -t - 1
    }
}

/// Integer square root, rounded down.
pub fn isqrt(n: u128) -> (r: u64)
    requires
        n <= 0x10000000000000000000000000,
    ensures
        is_floor_sqrt(r as int, n as int),
{
    let mut lo: u128 = 0;
    let mut hi: u128 = 0x8000000000000;
    assert(hi * hi > 0x10000000000000000000000000) by (nonlinear_arith)
        requires hi == 0x8000000000000;
    while hi - lo > 1
        invariant
            lo < hi <= 0x8000000000000,
            lo * lo <= n,
            n < hi * hi,
        decreases hi - lo,
    {
        let mid: u128 = lo + (hi - lo) / 2;
        assert(mid * mid <= 0x8000000000000 * 0x8000000000000) by (nonlinear_arith)
            requires mid <= 0x8000000000000;
        if mid * mid <= n {
            lo = mid;
        } else {
            hi = mid;
        }
    }
    assert(hi == lo + 1);
    lo as u64
}

/// Bound on the coordinates handed to `distance`.
pub const REACH_LIMIT: i64 = 4 * crate::config::COORD_LIMIT;

/// Euclidean distance between two points, rounded down to a fixed unit.
pub fn distance(x0: i64, y0: i64, x1: i64, y1: i64) -> (d: u64)
    requires
        -REACH_LIMIT <= x0 <= REACH_LIMIT,
        -REACH_LIMIT <= y0 <= REACH_LIMIT,
        -REACH_LIMIT <= x1 <= REACH_LIMIT,
        -REACH_LIMIT <= y1 <= REACH_LIMIT,
    ensures
        is_floor_sqrt(d as int, dist_sq(x0 as int, y0 as int, x1 as int, y1 as int)),
{
    let dx: i128 = x1 as i128 - x0 as i128;
    let dy: i128 = y1 as i128 - y0 as i128;
    assert(dx * dx <= 8000000000000 * 8000000000000) by (nonlinear_arith)
        requires -8000000000000 <= dx <= 8000000000000;
    assert(dy * dy <= 8000000000000 * 8000000000000) by (nonlinear_arith)
        requires -8000000000000 <= dy <= 8000000000000;
    assert(dx * dx >= 0 && dy * dy >= 0) by (nonlinear_arith);
    let sq: i128 = dx * dx + dy * dy;
    isqrt(sq as u128)
}

} // verus!
