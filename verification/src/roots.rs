//! Integer square roots.

use vstd::prelude::*;

verus! {

/// The greatest root that a square within the 128-bit signed numbers has.
pub const MAX_ROOT: u128 = 13_043_817_825_332_782_212;

/// `r` is the square root of `n`, rounded down.
pub open spec fn is_floor_sqrt(n: int, r: int) -> bool {
    0 <= r && r * r <= n < (r + 1) * (r + 1)
}

/// The square root of `n`, rounded down.
pub open spec fn floor_sqrt(n: int) -> int {
    choose|r: int| is_floor_sqrt(n, r)
}

/// A number has one rounded-down square root at most.
pub proof fn lemma_floor_sqrt_unique(n: int, r: int, s: int)
    requires
        is_floor_sqrt(n, r),
        is_floor_sqrt(n, s),
    ensures
        r == s,
{
    if r < s {
        assert((r + 1) * (r + 1) <= s * s) by (nonlinear_arith)
            requires
                0 <= r,
                r + 1 <= s,
        ;
    } else if s < r {
        assert((s + 1) * (s + 1) <= r * r) by (nonlinear_arith)
            requires
                0 <= s,
                s + 1 <= r,
        ;
    }
}

/// The square root of `n`, rounded down.
pub fn isqrt(n: i128) -> (r: i128)
    requires
        n >= 0,
    ensures
        is_floor_sqrt(n as int, r as int),
        r == floor_sqrt(n as int),
{
    let target: u128 = n as u128;
    let mut lo: u128 = 0;
    let mut hi: u128 = MAX_ROOT + 1;
    assert(target < (MAX_ROOT + 1) * (MAX_ROOT + 1)) by (nonlinear_arith)
        requires
            target <= i128::MAX,
            MAX_ROOT == 13_043_817_825_332_782_212,
    ;
    while hi - lo > 1
        invariant
            lo < hi <= MAX_ROOT + 1,
            lo * lo <= target < hi * hi,
            target == n,
        decreases hi - lo,
    {
        let mid: u128 = lo + (hi - lo) / 2;
        assert(mid * mid <= MAX_ROOT * MAX_ROOT) by (nonlinear_arith)
            requires
                0 <= mid <= MAX_ROOT,
        ;
        assert(MAX_ROOT * MAX_ROOT <= i128::MAX) by (nonlinear_arith)
            requires
                MAX_ROOT == 13_043_817_825_332_782_212,
        ;
        if mid * mid <= target {
            lo = mid;
        } else {
            hi = mid;
        }
    }
    proof {
        assert(hi == lo + 1);
        assert(is_floor_sqrt(n as int, lo as int));
        lemma_floor_sqrt_unique(n as int, lo as int, floor_sqrt(n as int));
    }
    lo as i128
}

} // verus!
