//! Fixed-point micro-unit arithmetic: the unit interval [0, 1] is represented
//! by integers in [0, SCALE].

use vstd::prelude::*;

verus! {

/// Number of fixed-point steps per unit: one step is 1e-6.
pub const SCALE: i64 = 1_000_000;

/// Clamp a mathematical value into the fixed-point unit range [0, SCALE].
pub open spec fn clamp_unit(v: int) -> int {
    if v < 0 {
        0
    } else if v > SCALE {
        SCALE as int
    } else {
        v
    }
}

/// Round num/den (den > 0) to the nearest integer, ties away from zero,
/// matching how a real quotient is rounded before pixel quantization.
pub open spec fn round_div(num: int, den: int) -> int
    recommends
        den > 0,
{
    if num >= 0 {
        (2 * num + den) / (2 * den)
    } else {
        -((2 * (-num) + den) / (2 * den))
    }
}

/// Executable clamp into [0, SCALE].
pub fn clamp_unit_i64(v: i64) -> (r: i64)
    ensures
        r == clamp_unit(v as int),
{
    if v < 0 {
        0
    } else if v > SCALE {
        SCALE
    } else {
        v
    }
}

/// Executable nearest-integer division, ties away from zero.
pub fn round_div_i64(num: i64, den: i64) -> (r: i64)
    requires
        0 < den,
        -0x2000_0000_0000_0000 < num < 0x2000_0000_0000_0000,
        den < 0x2000_0000_0000_0000,
    ensures
        r == round_div(num as int, den as int),
{
    if num >= 0 {
        (2 * num + den) / (2 * den)
    } else {
        -((2 * (-num) + den) / (2 * den))
    }
}

} // verus!
