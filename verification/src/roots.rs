//! Exact integer square, cube and fifth roots.
//!
//! The spec-level roots are the unique floors of the real roots; the
//! executable functions compute them by binary search.  They stand in for the
//! real-valued `sqrt` and fractional powers of the photometric formulas: every
//! formula of the pipeline is phrased so that only floors of integer roots are
//! needed.

use vstd::prelude::*;

verus! {

pub open spec fn sq(x: int) -> int {
    x * x
}

pub open spec fn cube(x: int) -> int {
    x * x * x
}

pub open spec fn pow5(x: int) -> int {
    x * x * x * x * x
}

/// r is the floor of the real square root of n.
pub open spec fn is_sqrt(n: int, r: int) -> bool {
    0 <= r && sq(r) <= n < sq(r + 1)
}

/// r is the floor of the real cube root of n.
pub open spec fn is_cbrt(n: int, r: int) -> bool {
    0 <= r && cube(r) <= n < cube(r + 1)
}

/// r is the floor of the real fifth root of n.
pub open spec fn is_root5(n: int, r: int) -> bool {
    0 <= r && pow5(r) <= n < pow5(r + 1)
}

pub open spec fn sqrt_floor(n: int) -> int {
    choose|r: int| is_sqrt(n, r)
}

pub open spec fn cbrt_floor(n: int) -> int {
    choose|r: int| is_cbrt(n, r)
}

pub open spec fn root5_floor(n: int) -> int {
    choose|r: int| is_root5(n, r)
}

proof fn lemma_sq_lt(a: int, b: int)
    by (nonlinear_arith)
    requires
        0 <= a < b,
    ensures
        sq(a) < sq(b),
{
}

proof fn lemma_cube_lt(a: int, b: int)
    by (nonlinear_arith)
    requires
        0 <= a < b,
    ensures
        cube(a) < cube(b),
{
}

proof fn lemma_pow5_lt(a: int, b: int)
    by (nonlinear_arith)
    requires
        0 <= a < b,
    ensures
        pow5(a) < pow5(b),
{
}

pub proof fn lemma_sqrt_exists(n: int)
    requires
        n >= 0,
    ensures
        is_sqrt(n, sqrt_floor(n)),
    decreases n,
{
    if n == 0 {
        assert(is_sqrt(0, 0));
    } else {
        lemma_sqrt_exists(n - 1);
        let r = sqrt_floor(n - 1);
        if n < sq(r + 1) {
            assert(is_sqrt(n, r));
        } else {
            assert(sq(r + 1) <= n);
            assert(n <= sq(r + 1));
            lemma_sq_lt(r + 1, r + 2);
            assert(is_sqrt(n, r + 1));
        }
    }
}

pub proof fn lemma_cbrt_exists(n: int)
    requires
        n >= 0,
    ensures
        is_cbrt(n, cbrt_floor(n)),
    decreases n,
{
    if n == 0 {
        assert(is_cbrt(0, 0));
    } else {
        lemma_cbrt_exists(n - 1);
        let r = cbrt_floor(n - 1);
        if n < cube(r + 1) {
            assert(is_cbrt(n, r));
        } else {
            assert(n <= cube(r + 1));
            lemma_cube_lt(r + 1, r + 2);
            assert(is_cbrt(n, r + 1));
        }
    }
}

pub proof fn lemma_root5_exists(n: int)
    requires
        n >= 0,
    ensures
        is_root5(n, root5_floor(n)),
    decreases n,
{
    if n == 0 {
        assert(is_root5(0, 0));
    } else {
        lemma_root5_exists(n - 1);
        let r = root5_floor(n - 1);
        if n < pow5(r + 1) {
            assert(is_root5(n, r));
        } else {
            assert(n <= pow5(r + 1));
            lemma_pow5_lt(r + 1, r + 2);
            assert(is_root5(n, r + 1));
        }
    }
}

pub proof fn lemma_sqrt_unique(n: int, r: int)
    requires
        is_sqrt(n, r),
    ensures
        r == sqrt_floor(n),
{
    lemma_sqrt_exists(n);
    let s = sqrt_floor(n);
    if r < s {
        lemma_sq_lt(r, s);
        lemma_sq_lt(r + 1, s + 1);
        assert(sq(r + 1) <= sq(s)) by {
            if r + 1 < s {
                lemma_sq_lt(r + 1, s);
            }
        };
    } else if s < r {
        assert(sq(s + 1) <= sq(r)) by {
            if s + 1 < r {
                lemma_sq_lt(s + 1, r);
            }
        };
    }
}

pub proof fn lemma_cbrt_unique(n: int, r: int)
    requires
        is_cbrt(n, r),
    ensures
        r == cbrt_floor(n),
{
    lemma_cbrt_exists(n);
    let s = cbrt_floor(n);
    if r < s {
        assert(cube(r + 1) <= cube(s)) by {
            if r + 1 < s {
                lemma_cube_lt(r + 1, s);
            }
        };
    } else if s < r {
        assert(cube(s + 1) <= cube(r)) by {
            if s + 1 < r {
                lemma_cube_lt(s + 1, r);
            }
        };
    }
}

pub proof fn lemma_root5_unique(n: int, r: int)
    requires
        is_root5(n, r),
    ensures
        r == root5_floor(n),
{
    lemma_root5_exists(n);
    let s = root5_floor(n);
    if r < s {
        assert(pow5(r + 1) <= pow5(s)) by {
            if r + 1 < s {
                lemma_pow5_lt(r + 1, s);
            }
        };
    } else if s < r {
        assert(pow5(s + 1) <= pow5(r)) by {
            if s + 1 < r {
                lemma_pow5_lt(s + 1, r);
            }
        };
    }
}

/// Largest argument (exclusive) the root routines accept: 2^126.
pub const ROOT_ARG_LIMIT: u128 = 0x4000_0000_0000_0000_0000_0000_0000_0000;

/// Floor of the square root, for n below 2^126.
pub fn isqrt_u128(n: u128) -> (r: u128)
    requires
        n < ROOT_ARG_LIMIT,
    ensures
        is_sqrt(n as int, r as int),
        r as int == sqrt_floor(n as int),
{
    let mut lo: u128 = 0;
    let mut hi: u128 = 0x8000_0000_0000_0000;
    while lo < hi
        invariant
            lo <= hi,
            hi <= 0x8000_0000_0000_0000,
            sq(lo as int) <= n as int,
            (n as int) < sq(hi as int + 1),
        decreases hi - lo,
    {
        let mid: u128 = lo + (hi - lo + 1) / 2;
        assert(mid as int * mid as int <= 0x4000_0000_0000_0000_0000_0000_0000_0000) by (nonlinear_arith)
            requires
                mid <= 0x8000_0000_0000_0000u128,
        ;
        if mid * mid <= n {
            lo = mid;
        } else {
            hi = mid - 1;
        }
    }
    proof {
        lemma_sqrt_unique(n as int, lo as int);
    }
    lo
}

/// Floor of the cube root, for n below 2^126.
pub fn icbrt_u128(n: u128) -> (r: u128)
    requires
        n < ROOT_ARG_LIMIT,
    ensures
        is_cbrt(n as int, r as int),
        r as int == cbrt_floor(n as int),
{
    let mut lo: u128 = 0;
    let mut hi: u128 = 0x400_0000_0000;
    proof {
        assert(cube(0x400_0000_0001) > ROOT_ARG_LIMIT as int) by (nonlinear_arith);
    }
    while lo < hi
        invariant
            lo <= hi,
            hi <= 0x400_0000_0000,
            cube(lo as int) <= n as int,
            (n as int) < cube(hi as int + 1),
        decreases hi - lo,
    {
        let mid: u128 = lo + (hi - lo + 1) / 2;
        assert(mid as int * mid as int <= 0x10_0000_0000_0000_0000_0000
            && mid as int * mid as int * mid as int <= 0x4000_0000_0000_0000_0000_0000_0000_0000)
            by (nonlinear_arith)
            requires
                mid <= 0x400_0000_0000u128,
        ;
        if mid * mid * mid <= n {
            lo = mid;
        } else {
            hi = mid - 1;
        }
    }
    proof {
        lemma_cbrt_unique(n as int, lo as int);
    }
    lo
}

/// Floor of the fifth root, for n below 2^125.
pub fn iroot5_u128(n: u128) -> (r: u128)
    requires
        n < 0x2000_0000_0000_0000_0000_0000_0000_0000,
    ensures
        is_root5(n as int, r as int),
        r as int == root5_floor(n as int),
{
    let mut lo: u128 = 0;
    let mut hi: u128 = 0x200_0000;
    proof {
        assert(pow5(0x200_0001) > 0x2000_0000_0000_0000_0000_0000_0000_0000) by (nonlinear_arith);
    }
    while lo < hi
        invariant
            lo <= hi,
            hi <= 0x200_0000,
            pow5(lo as int) <= n as int,
            (n as int) < pow5(hi as int + 1),
        decreases hi - lo,
    {
        let mid: u128 = lo + (hi - lo + 1) / 2;
        assert(mid as int * mid as int <= 0x4_0000_0000_0000
            && mid as int * mid as int * mid as int <= 0x8_0000_0000_0000_0000_0000
            && mid as int * mid as int * mid as int * mid as int
                <= 0x10_0000_0000_0000_0000_0000_0000_0000
            && mid as int * mid as int * mid as int * mid as int * mid as int
                <= 0x4000_0000_0000_0000_0000_0000_0000_0000) by (nonlinear_arith)
            requires
                mid <= 0x200_0000u128,
        ;
        if mid * mid * mid * mid * mid <= n {
            lo = mid;
        } else {
            hi = mid - 1;
        }
    }
    proof {
        lemma_root5_unique(n as int, lo as int);
    }
    lo
}

/// An upper bound on the argument gives an upper bound on the square root.
pub proof fn lemma_sqrt_bound(n: int, b: int)
    requires
        0 <= n,
        0 <= b,
        n < sq(b + 1),
    ensures
        sqrt_floor(n) <= b,
{
    lemma_sqrt_exists(n);
    let r = sqrt_floor(n);
    if b < r {
        assert(sq(b + 1) <= sq(r)) by {
            if b + 1 < r {
                lemma_sq_lt(b + 1, r);
            }
        };
    }
}

/// An upper bound on the argument gives an upper bound on the cube root.
pub proof fn lemma_cbrt_bound(n: int, b: int)
    requires
        0 <= n,
        0 <= b,
        n < cube(b + 1),
    ensures
        cbrt_floor(n) <= b,
{
    lemma_cbrt_exists(n);
    let r = cbrt_floor(n);
    if b < r {
        assert(cube(b + 1) <= cube(r)) by {
            if b + 1 < r {
                lemma_cube_lt(b + 1, r);
            }
        };
    }
}

/// An upper bound on the argument gives an upper bound on the fifth root.
pub proof fn lemma_root5_bound(n: int, b: int)
    requires
        0 <= n,
        0 <= b,
        n < pow5(b + 1),
    ensures
        root5_floor(n) <= b,
{
    lemma_root5_exists(n);
    let r = root5_floor(n);
    if b < r {
        assert(pow5(b + 1) <= pow5(r)) by {
            if b + 1 < r {
                lemma_pow5_lt(b + 1, r);
            }
        };
    }
}

} // verus!
