//! The piecewise sRGB transfer function in fixed point.
//!
//! Below the linear threshold (0.0031308) the encoding is the linear scale
//! 12.92; above it, 1.055 * x^(1/2.4) - 0.055.  The fractional exponents are
//! exact in integer arithmetic: 1/2.4 = 5/12 is computed as a cube root
//! followed by two square roots, and 2.4 = 12/5 as a squaring followed by a
//! fifth root, with every intermediate value rescaled into [0, SCALE].

use vstd::prelude::*;
use crate::fixed::SCALE;
use crate::roots::{
    cbrt_floor,
    cube,
    pow5,
    root5_floor,
    sq,
    sqrt_floor,
    icbrt_u128,
    iroot5_u128,
    isqrt_u128,
    lemma_cbrt_bound,
    lemma_root5_bound,
    lemma_sqrt_bound,
};

verus! {

/// 10^12, the square of SCALE.
pub const SCALE_SQ: i64 = 1_000_000_000_000;

/// 10^24, the fourth power of SCALE.
pub const SCALE_P4: u128 = 1_000_000_000_000_000_000_000_000;

/// SCALE * x^(5/12) for x in [0, SCALE] given in SCALE units: a cube root
/// and two square roots, staged so every intermediate keeps its full
/// fixed-point precision (u is x^(5/3) * SCALE^(1/3), v is
/// x^(5/6) * SCALE^(2/3), and the result x^(5/12) * SCALE^(7/12) = the
/// target).
pub open spec fn gamma_5_12_q(x: int) -> int {
    let u = cbrt_floor(pow5(x) * SCALE);
    let v = sqrt_floor(u * SCALE);
    sqrt_floor(v * 1000)
}

/// Linear intensity in [0, SCALE] to its sRGB-encoded value in [0, SCALE].
pub open spec fn clinear_to_srgb_q(x: int) -> int {
    if 10 * x <= 31308 {
        (1292 * x) / 100
    } else {
        let y = (1055 * gamma_5_12_q(x)) / 1000 - 55000;
        if y < 0 {
            0
        } else {
            y
        }
    }
}

/// SCALE * t^(12/5) for t in [0, SCALE] given in SCALE units: with
/// c = (t^2 * SCALE^3)^(1/5) = t^(2/5) * SCALE^(3/5), the target is
/// t^2 * c / SCALE^2.
pub open spec fn gamma_12_5_q(t: int) -> int {
    let c = root5_floor(sq(t) * SCALE * SCALE * SCALE);
    (sq(t) * c) / (SCALE_SQ as int)
}

/// An 8-bit sRGB code value to linear intensity in [0, SCALE].
pub open spec fn srgb8_to_clinear_q(n: int) -> int {
    let x = (n * SCALE) / 255;
    if n < 11 {
        (x * 100) / 1292
    } else {
        gamma_12_5_q(((x + 55000) * 1000) / 1055)
    }
}

/// Applies the sRGB opto-electronic transfer to a linear fixed-point
/// intensity.
pub fn clinear_to_srgb(x: i64) -> (r: i64)
    requires
        0 <= x <= SCALE,
    ensures
        r == clinear_to_srgb_q(x as int),
        0 <= r <= SCALE,
{
    if 10 * x <= 31308 {
        (1292 * x) / 100
    } else {
        let xu: u128 = x as u128;
        assert(xu * xu <= 1_000_000_000_000 && xu * xu * xu <= 1_000_000_000_000_000_000 && xu * xu
            * xu * xu <= 1_000_000_000_000_000_000_000_000 && xu * xu * xu * xu * xu
            <= 1_000_000_000_000_000_000_000_000_000_000) by (nonlinear_arith)
            requires
                xu <= 1_000_000,
        ;
        let x5: u128 = xu * xu * xu * xu * xu;
        assert(x5 * (SCALE as u128) <= 1_000_000_000_000_000_000_000_000_000_000_000_000)
            by (nonlinear_arith)
            requires
                x5 <= 1_000_000_000_000_000_000_000_000_000_000u128,
        ;
        let u: u128 = icbrt_u128(x5 * (SCALE as u128));
        proof {
            assert(x5 as int == pow5(x as int));
            assert(cube(1_000_000_000_001) > 1_000_000_000_000_000_000_000_000_000_000_000_000int)
                by (nonlinear_arith);
            lemma_cbrt_bound((x5 * (SCALE as u128)) as int, 1_000_000_000_000);
        }
        assert(u * (SCALE as u128) <= 1_000_000_000_000_000_000) by (nonlinear_arith)
            requires
                u <= 1_000_000_000_000u128,
        ;
        let v: u128 = isqrt_u128(u * (SCALE as u128));
        proof {
            assert(sq(1_000_000_001) > 1_000_000_000_000_000_000int) by (nonlinear_arith);
            lemma_sqrt_bound((u * (SCALE as u128)) as int, 1_000_000_000);
        }
        let p: u128 = isqrt_u128(v * 1000);
        proof {
            assert(sq(1_000_001) > 1_000_000_000_000int) by (nonlinear_arith);
            lemma_sqrt_bound((v * 1000) as int, 1_000_000);
        }
        let y: i64 = (1055 * (p as i64)) / 1000 - 55000;
        if y < 0 {
            0
        } else {
            y
        }
    }
}

/// Decodes an 8-bit sRGB code value into linear fixed-point intensity.
pub fn srgb_to_clinear(n: u8) -> (r: i64)
    ensures
        r == srgb8_to_clinear_q(n as int),
        0 <= r <= SCALE,
{
    let ni: i64 = n as i64;
    let x: i64 = (ni * SCALE) / 255;
    if n < 11 {
        (x * 100) / 1292
    } else {
        let t: i64 = ((x + 55000) * 1000) / 1055;
        assert(0 <= t * t <= 1_000_000_000_000) by (nonlinear_arith)
            requires
                0 <= t <= 1_000_000,
        ;
        let t2: i64 = t * t;
        assert((t2 as u128) * 1_000_000_000_000_000_000
            <= 1_000_000_000_000_000_000_000_000_000_000) by (nonlinear_arith)
            requires
                0 <= t2 <= 1_000_000_000_000,
        ;
        let c: u128 = iroot5_u128((t2 as u128) * 1_000_000_000_000_000_000);
        proof {
            assert(pow5(1_000_001) > 1_000_000_000_000_000_000_000_000_000_000int)
                by (nonlinear_arith);
            lemma_root5_bound(((t2 as u128) * 1_000_000_000_000_000_000) as int, 1_000_000);
            assert((t2 as u128) * 1_000_000_000_000_000_000 == (sq(t as int) * SCALE * SCALE
                * SCALE));
        }
        let ci: i64 = c as i64;
        assert(0 <= t2 * ci <= 1_000_000_000_000_000_000) by (nonlinear_arith)
            requires
                0 <= t2 <= 1_000_000_000_000,
                0 <= ci <= 1_000_000,
        ;
        (t2 * ci) / SCALE_SQ
    }
}

/// Round trip on the linear branch of the transfer pair: an 8-bit code
/// below the decoding threshold decodes to a linear intensity that
/// re-encodes to the code's own level, within the fixed-point floor error
/// (the encoded value y satisfies n - 0.016 <= 255 * y / SCALE <= n).
pub proof fn lemma_linear_branch_round_trip(n: int)
    requires
        0 <= n < 11,
    ensures
        n * SCALE - 16_000 <= 255 * clinear_to_srgb_q(srgb8_to_clinear_q(n)) <= n * SCALE,
{
    let x = (n * SCALE) / 255;
    let lin = (x * 100) / 1292;
    assert(srgb8_to_clinear_q(n) == lin);
    assert(10 * lin <= 31308);
    assert(clinear_to_srgb_q(lin) == (1292 * lin) / 100);
}

} // verus!
