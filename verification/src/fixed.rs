//! Exact integer building blocks for the fixed-point terrain arithmetic:
//! flooring division and remainder, and an integer square root.

use vstd::prelude::*;

verus! {

use vstd::arithmetic::div_mod::{
    lemma_fundamental_div_mod, lemma_fundamental_div_mod_converse_div,
    lemma_fundamental_div_mod_converse_mod, lemma_mod_bound,
};

/// Largest magnitude `floor_div` and `floor_mod` accept for the dividend.
pub const DIV_ARG_BOUND: i64 = 2_000_000_000_000_000_000;

/// Flooring division: rounds toward negative infinity, so it agrees with the
/// mathematical (Euclidean) `/` that specifications use, for any sign of `a`.
pub fn floor_div(a: i64, b: i64) -> (q: i64)
    requires
        1 <= b <= DIV_ARG_BOUND,
        -DIV_ARG_BOUND <= a <= DIV_ARG_BOUND,
    ensures
        q == a as int / b as int,
{
    let abs_a: i64 = if a < 0 {
        -a
    } else {
        a
    };
    // Shift the dividend by a multiple of `b` so the hardware's truncating
    // division only ever sees a non-negative dividend.
    let k: i64 = abs_a / b + 1;
    proof {
        lemma_fundamental_div_mod(abs_a as int, b as int);
        lemma_mod_bound(abs_a as int, b as int);
        assert(k * b == (abs_a as int / b as int) * b + b) by (nonlinear_arith)
            requires k == abs_a as int / b as int + 1;
        assert(abs_a == b * (abs_a as int / b as int) + abs_a as int % b as int);
        assert(b * (abs_a as int / b as int) == (abs_a as int / b as int) * b) by (nonlinear_arith);
        assert(abs_a < k * b);
        assert(k * b <= abs_a + b);
    }
    let shifted: i64 = a + k * b;
    proof {
        assert(shifted >= 0);
    }
    let q0: i64 = shifted / b;
    let r0: i64 = shifted % b;
    proof {
        lemma_fundamental_div_mod(shifted as int, b as int);
        assert(shifted == b * (shifted as int / b as int) + shifted as int % b as int);
        assert(a == (q0 - k) * b + r0) by {
            assert(q0 == shifted as int / b as int);
            assert(r0 == shifted as int % b as int);
            assert(a == shifted - k * b);
            assert(b * q0 == q0 * b) by (nonlinear_arith);
            assert((q0 - k) * b == q0 * b - k * b) by (nonlinear_arith);
        }
        lemma_fundamental_div_mod_converse_div(a as int, b as int, q0 - k, r0 as int);
    }
    q0 - k
}

/// Flooring remainder, the companion of [`floor_div`]: the result is always
/// in `[0, b)`, matching the mathematical `%` of specifications.
pub fn floor_mod(a: i64, b: i64) -> (r: i64)
    requires
        1 <= b <= DIV_ARG_BOUND,
        -DIV_ARG_BOUND <= a <= DIV_ARG_BOUND,
    ensures
        r == a as int % b as int,
        0 <= r < b,
{
    let q: i64 = floor_div(a, b);
    proof {
        lemma_fundamental_div_mod(a as int, b as int);
        assert(a as int % b as int == a - b * (a as int / b as int));
        assert(b * q <= a < b * q + b);
        assert(-DIV_ARG_BOUND <= a - b * q <= DIV_ARG_BOUND);
        lemma_fundamental_div_mod_converse_mod(a as int, b as int, q as int, (a - b * q) as int);
    }
    a - b * q
}

/// One past the largest value the square-root search can return.
pub const SQRT_LIMIT: u128 = 0x1_0000_0000_0000_0000;

/// Integer square root: the greatest `r` with `r * r <= n`.
pub open spec fn isqrt_spec(n: nat) -> nat
    decreases n,
{
    if n == 0 {
        0
    } else {
        let r = isqrt_spec((n - 1) as nat);
        if (r + 1) * (r + 1) <= n {
            r + 1
        } else {
            r
        }
    }
}

pub proof fn lemma_isqrt_spec_bounds(n: nat)
    ensures
        isqrt_spec(n) * isqrt_spec(n) <= n,
        n < (isqrt_spec(n) + 1) * (isqrt_spec(n) + 1),
    decreases n,
{
    if n == 0 {
        assert(isqrt_spec(n) == 0);
        assert(n < (isqrt_spec(n) + 1) * (isqrt_spec(n) + 1)) by (nonlinear_arith)
            requires
                n == 0,
                isqrt_spec(n) == 0;
    } else {
        lemma_isqrt_spec_bounds((n - 1) as nat);
        let r = isqrt_spec((n - 1) as nat);
        if (r + 1) * (r + 1) <= n {
            assert(isqrt_spec(n) == r + 1);
            assert(n < (r + 2) * (r + 2)) by (nonlinear_arith)
                requires
                    n - 1 < (r + 1) * (r + 1),
                    r >= 0;
        } else {
            assert(isqrt_spec(n) == r);
            assert(n < (r + 1) * (r + 1));
        }
    }
}

/// Any `r` squeezed between `r * r <= n < (r + 1) * (r + 1)` is the root.
pub proof fn lemma_isqrt_unique(n: nat, r: nat)
    requires
        r * r <= n,
        n < (r + 1) * (r + 1),
    ensures
        r == isqrt_spec(n),
{
    lemma_isqrt_spec_bounds(n);
    let s = isqrt_spec(n);
    if r < s {
        assert((r + 1) * (r + 1) <= s * s) by (nonlinear_arith)
            requires
                r + 1 <= s;
    }
    if s < r {
        assert((s + 1) * (s + 1) <= r * r) by (nonlinear_arith)
            requires
                s + 1 <= r;
    }
}

/// Integer square root by bisection.
pub fn isqrt(n: u128) -> (r: u64)
    ensures
        r == isqrt_spec(n as nat),
        r * r <= n,
        n < (r + 1) * (r + 1),
{
    let mut lo: u128 = 0;
    let mut hi: u128 = SQRT_LIMIT;
    while lo + 1 < hi
        invariant
            lo < hi <= SQRT_LIMIT,
            lo * lo <= n,
            n < hi * hi,
        decreases hi - lo,
    {
        let mid: u128 = lo + (hi - lo) / 2;
        proof {
            assert(lo < mid < hi);
            assert(mid * mid < SQRT_LIMIT * SQRT_LIMIT) by (nonlinear_arith)
                requires
                    0 <= mid < SQRT_LIMIT;
        }
        if mid * mid <= n {
            lo = mid;
        } else {
            hi = mid;
        }
    }
    proof {
        assert(n < (lo + 1) * (lo + 1));
        lemma_isqrt_unique(n as nat, lo as nat);
    }
    lo as u64
}

} // verus!

