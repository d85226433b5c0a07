//! The forward photometric model: a point light over a 3x3 grid of patches,
//! rendered to a linear fixed-point intensity image.
//!
//! A pixel's lit intensity is cos(alpha)^3 * L * albedo, where alpha is the
//! incidence angle at the pixel, so cos(alpha) = h / sqrt(d^2 + h^2) for a
//! light at height h and ground distance d.  The cube is computed exactly in
//! fixed point as the floor of SCALE * (h^2 / (d^2 + h^2))^(3/2).

use vstd::prelude::*;
use crate::fixed::{clamp_unit, clamp_unit_i64, SCALE};
use crate::geometry::{
    actual_location,
    dist2,
    dist2_i64,
    get_actual_location,
    patch_index,
    COORD_MAX,
    SIZE_MAX,
};
use crate::roots::{cube, sqrt_floor, isqrt_u128, lemma_sqrt_bound};
use crate::srgb::SCALE_SQ;

verus! {

/// Largest accepted light height, in pixels.
pub const HEIGHT_MAX: u32 = 20_000;

/// Largest squared ground distance the falloff term accepts.
pub const DIST2_MAX: i64 = 4_000_000_000_000;

/// Floor of SCALE * (h^2 / (d2 + h^2))^(3/2): the cubed cosine of the
/// incidence angle for squared ground distance d2 and height h.
pub open spec fn cos_cubed_q(d2: int, h: int) -> int
    recommends
        0 <= d2,
        1 <= h,
{
    sqrt_floor(((SCALE_SQ as int) * cube(h * h)) / cube(d2 + h * h))
}

/// Executable cubed cosine of the incidence angle.
pub fn cos_cubed(d2: i64, h: i64) -> (r: i64)
    requires
        0 <= d2 <= DIST2_MAX,
        1 <= h <= HEIGHT_MAX,
    ensures
        r == cos_cubed_q(d2 as int, h as int),
        0 <= r <= SCALE,
{
    assert(1 <= (h as u128) * (h as u128) <= 400_000_000) by (nonlinear_arith)
        requires
            1 <= h <= 20_000,
    ;
    let h2: u128 = (h as u128) * (h as u128);
    assert(h2 * h2 <= 160_000_000_000_000_000 && h2 * h2 * h2 <= 64_000_000_000_000_000_000_000_000)
        by (nonlinear_arith)
        requires
            h2 <= 400_000_000,
    ;
    let h6: u128 = h2 * h2 * h2;
    assert((SCALE_SQ as u128) * h6 <= 64_000_000_000_000_000_000_000_000_000_000_000_000)
        by (nonlinear_arith)
        requires
            h6 <= 64_000_000_000_000_000_000_000_000u128,
    ;
    let num: u128 = (SCALE_SQ as u128) * h6;
    let b: u128 = (d2 as u128) + h2;
    assert(b * b <= 16_004_000_000_000_000_000_000_000 && 1 <= b * b * b
        <= 64_024_000_000_000_000_000_000_000_000_000_000_000 && h2 * h2 * h2 <= b * (b * b))
        by (nonlinear_arith)
        requires
            1 <= h2 <= b <= 4_000_400_000_000u128,
    ;
    let den: u128 = b * b * b;
    let q: u128 = num / den;
    proof {
        assert(b * (b * b) == b * b * b) by (nonlinear_arith);
        assert(num <= (SCALE_SQ as u128) * den) by (nonlinear_arith)
            requires
                num == (SCALE_SQ as u128) * h6,
                h6 <= den,
        ;
        vstd::arithmetic::div_mod::lemma_div_is_ordered(
            num as int,
            (SCALE_SQ as int) * (den as int),
            den as int,
        );
        vstd::arithmetic::div_mod::lemma_div_multiples_vanish(SCALE_SQ as int, den as int);
        assert(q <= SCALE_SQ);
    }
    let r: u128 = isqrt_u128(q);
    proof {
        lemma_sqrt_bound(q as int, SCALE as int);
        assert(h2 as int == (h as int) * (h as int));
        assert(cube(h2 as int) == h6 as int);
        assert(cube(b as int) == den as int);
    }
    r as i64
}

/// Per-pixel lit intensity: the falloff term scaled by the patch's albedo
/// (the luminosity constant is unity).  Zero when the light sits at ground
/// level.
pub open spec fn light_at(
    ax: int,
    ay: int,
    h: int,
    size: int,
    j: int,
    k: int,
    albedo: Seq<i64>,
) -> int {
    if h == 0 {
        0
    } else {
        (cos_cubed_q(dist2(ax, ay, j, k), h) * (albedo[patch_index(j, k, size)] as int)) / (
        SCALE as int)
    }
}

/// A 9-entry fixed-point vector (one albedo or reflectance per patch).
pub open spec fn patch_vec_wf(v: Seq<i64>) -> bool {
    v.len() == 9 && forall|i: int| 0 <= i < 9 ==> 0 <= #[trigger] v[i] <= SCALE
}

/// Computes the lit intensity of pixel (j, k) for a light at the given patch
/// cell and in-patch offset.
pub fn get_light(
    coordinates: (i32, i32),
    location: (usize, usize),
    height: u32,
    size: usize,
    j: usize,
    k: usize,
    albedo: &Vec<i64>,
) -> (r: i64)
    requires
        location.0 <= 2,
        location.1 <= 2,
        1 <= size <= SIZE_MAX,
        -COORD_MAX <= coordinates.0 <= COORD_MAX,
        -COORD_MAX <= coordinates.1 <= COORD_MAX,
        height <= HEIGHT_MAX,
        j < 3 * size,
        k < 3 * size,
        patch_vec_wf(albedo@),
    ensures
        ({
            let a = actual_location(coordinates, location, size as int);
            r == light_at(a.0, a.1, height as int, size as int, j as int, k as int, albedo@)
        }),
        0 <= r <= SCALE,
{
    let a = get_actual_location(coordinates, location, size);
    if height == 0 {
        return 0;
    }
    let d2: i64 = dist2_i64((a.0 as i64, a.1 as i64), (j as i64, k as i64));
    assert(d2 <= DIST2_MAX) by (nonlinear_arith)
        requires
            d2 == dist2(a.0 as int, a.1 as int, j as int, k as int),
            -1_006_000 <= a.0 <= 1_006_000,
            -1_006_000 <= a.1 <= 1_006_000,
            0 <= j <= 9_000,
            0 <= k <= 9_000,
    ;
    let c3: i64 = cos_cubed(d2, height as i64);
    let x: usize = if k / size > 2 {
        2
    } else {
        k / size
    };
    let y: usize = if j / size > 2 {
        2
    } else {
        j / size
    };
    let av: i64 = albedo[3 * x + y];
    assert(0 <= c3 * av <= 1_000_000_000_000) by (nonlinear_arith)
        requires
            0 <= c3 <= 1_000_000,
            0 <= av <= 1_000_000,
    ;
    (c3 * av) / SCALE
}

/// Composites one pixel: base reflectance times lit intensity, plus the
/// noise term when noise is on, clamped into the unit range.
pub open spec fn composite_q(orig: int, lighted: int, noise: int, noise_on: bool) -> int {
    clamp_unit((orig * lighted) / (SCALE as int) + if noise_on {
        noise
    } else {
        0
    })
}

/// Applies lighting and optional noise to one base-reflectance pixel.
pub fn decide_light(orig: i64, lighted: i64, noise: i64, is_noise_on: bool) -> (r: i64)
    requires
        0 <= orig <= SCALE,
        0 <= lighted <= SCALE,
        -SCALE <= noise <= SCALE,
    ensures
        r == composite_q(orig as int, lighted as int, noise as int, is_noise_on),
        0 <= r <= SCALE,
{
    assert(0 <= orig * lighted <= 1_000_000_000_000) by (nonlinear_arith)
        requires
            0 <= orig <= 1_000_000,
            0 <= lighted <= 1_000_000,
    ;
    let lit: i64 = (orig * lighted) / SCALE;
    let value: i64 = if is_noise_on {
        lit + noise
    } else {
        lit
    };
    clamp_unit_i64(value)
}

/// Base reflectance of pixel (j, k): the patch's entry of the color vector.
pub open spec fn base_at(colors: Seq<i64>, j: int, k: int, size: int) -> int {
    colors[patch_index(j, k, size)] as int
}

/// Picks the base reflectance of pixel (j, k) from the per-patch colors.
pub fn decide(sz: usize, j: usize, k: usize, colors: &Vec<i64>) -> (r: i64)
    requires
        1 <= sz,
        patch_vec_wf(colors@),
    ensures
        r == base_at(colors@, j as int, k as int, sz as int),
        0 <= r <= SCALE,
{
    let x: usize = if k / sz > 2 {
        2
    } else {
        k / sz
    };
    let y: usize = if j / sz > 2 {
        2
    } else {
        j / sz
    };
    colors[x * 3 + y]
}

} // verus!
