//! Pixel-plane geometry: image bounds, the 3x3 patch partition, the light's
//! absolute ground position, and the circumcenter of a point triple.

use vstd::prelude::*;
use crate::fixed::round_div;

verus! {

/// Largest accepted patch side, in pixels.
pub const SIZE_MAX: usize = 3000;

/// Largest accepted magnitude of a light ground coordinate, in pixels.
pub const COORD_MAX: i64 = 1_000_000;

/// Squared Euclidean distance between two points of the pixel plane.
pub open spec fn dist2(ax: int, ay: int, bx: int, by: int) -> int {
    (bx - ax) * (bx - ax) + (by - ay) * (by - ay)
}

/// Executable squared distance.
pub fn dist2_i64(a: (i64, i64), b: (i64, i64)) -> (r: i64)
    requires
        -1_500_000 <= a.0 <= 1_500_000,
        -1_500_000 <= a.1 <= 1_500_000,
        -1_500_000 <= b.0 <= 1_500_000,
        -1_500_000 <= b.1 <= 1_500_000,
    ensures
        r == dist2(a.0 as int, a.1 as int, b.0 as int, b.1 as int),
        0 <= r <= 18_000_000_000_000,
{
    let dx: i64 = b.0 - a.0;
    let dy: i64 = b.1 - a.1;
    assert(dx * dx <= 9_000_000_000_000 && dy * dy <= 9_000_000_000_000 && dx * dx >= 0 && dy * dy
        >= 0) by (nonlinear_arith)
        requires
            -3_000_000 <= dx <= 3_000_000,
            -3_000_000 <= dy <= 3_000_000,
    ;
    dx * dx + dy * dy
}

/// Whether an absolute pixel coordinate lies inside the rendered image.
pub open spec fn in_image(loc: (i32, i32), size: int) -> bool {
    0 <= loc.0 < 3 * size && 0 <= loc.1 < 3 * size
}

/// Checks that absolute coordinates are within the image bounds.
pub fn within_bound(loc: (i32, i32), size: usize) -> (r: bool)
    requires
        1 <= size <= SIZE_MAX,
    ensures
        r == in_image(loc, size as int),
{
    let side: i32 = 3 * (size as i32);
    !(loc.0 < 0 || loc.1 < 0 || loc.0 > side - 1 || loc.1 > side - 1)
}

/// The patch cell that holds pixel (j, k): first the column band of k, then
/// the row band of j, each capped at the last cell.
pub open spec fn patch_of(j: int, k: int, size: int) -> (int, int)
    recommends
        size >= 1,
        0 <= j,
        0 <= k,
{
    (vstd::math::min(k / size, 2), vstd::math::min(j / size, 2))
}

/// Index of pixel (j, k)'s patch into the 9-entry albedo vector.
pub open spec fn patch_index(j: int, k: int, size: int) -> int
    recommends
        size >= 1,
        0 <= j,
        0 <= k,
{
    3 * patch_of(j, k, size).0 + patch_of(j, k, size).1
}

/// Gets the patch cell holding pixel coordinates (j, k).
pub fn get_patch(j: usize, k: usize, size: usize) -> (r: (usize, usize))
    requires
        1 <= size,
    ensures
        r.0 == patch_of(j as int, k as int, size as int).0,
        r.1 == patch_of(j as int, k as int, size as int).1,
        r.0 <= 2 && r.1 <= 2,
{
    let mut x: usize = k / size;
    let mut y: usize = j / size;
    if x > 2 {
        x = 2;
    }
    if y > 2 {
        y = 2;
    }
    (x, y)
}

/// Absolute ground position of the light from its patch cell and the
/// in-patch offset.
pub open spec fn actual_location(coordinates: (i32, i32), location: (usize, usize), size: int) -> (
    int,
    int,
) {
    (location.1 * size + coordinates.0, location.0 * size + coordinates.1)
}

/// Turns the light's patch cell plus in-patch offset into absolute pixel
/// coordinates.
pub fn get_actual_location(coordinates: (i32, i32), location: (usize, usize), size: usize) -> (r: (
    i32,
    i32,
))
    requires
        location.0 <= 2,
        location.1 <= 2,
        size <= SIZE_MAX,
        -COORD_MAX <= coordinates.0 <= COORD_MAX,
        -COORD_MAX <= coordinates.1 <= COORD_MAX,
    ensures
        (r.0 as int, r.1 as int) == actual_location(coordinates, location, size as int),
        -1_006_000 <= r.0 <= 1_006_000,
        -1_006_000 <= r.1 <= 1_006_000,
{
    assert(location.0 * size <= 6000 && location.1 * size <= 6000) by (nonlinear_arith)
        requires
            location.0 <= 2,
            location.1 <= 2,
            size <= 3000,
    ;
    ((location.1 * size) as i32 + coordinates.0, (location.0 * size) as i32 + coordinates.1)
}

/// One bracket term of the circumcenter determinant.
pub open spec fn circ_bracket(a: (int, int), b: (int, int)) -> int {
    a.0 * a.0 + a.1 * a.1 - b.0 * b.0 - b.1 * b.1
}

/// Twice the signed area of the triangle: the circumcenter denominator.
pub open spec fn circ_den(p1: (int, int), p2: (int, int), p3: (int, int)) -> int {
    p1.0 * (p2.1 - p3.1) + p2.0 * (p3.1 - p1.1) + p3.0 * (p1.1 - p2.1)
}

/// Numerator of the x coordinate (up to the -1/2 factor).
pub open spec fn circ_up_x(p1: (int, int), p2: (int, int), p3: (int, int)) -> int {
    p1.1 * circ_bracket(p2, p3) + p2.1 * circ_bracket(p3, p1) + p3.1 * circ_bracket(p1, p2)
}

/// Numerator of the y coordinate (up to the 1/2 factor).
pub open spec fn circ_up_y(p1: (int, int), p2: (int, int), p3: (int, int)) -> int {
    p1.0 * circ_bracket(p2, p3) + p2.0 * circ_bracket(p3, p1) + p3.0 * circ_bracket(p1, p2)
}

/// The circumcenter rounded to integer pixels, defined when the denominator
/// is nonzero (the points are not collinear).
pub open spec fn circumcenter(p1: (int, int), p2: (int, int), p3: (int, int)) -> (int, int)
    recommends
        circ_den(p1, p2, p3) != 0,
{
    let den = circ_den(p1, p2, p3);
    if den > 0 {
        (round_div(-circ_up_x(p1, p2, p3), 2 * den), round_div(circ_up_y(p1, p2, p3), 2 * den))
    } else {
        (round_div(circ_up_x(p1, p2, p3), -2 * den), round_div(-circ_up_y(p1, p2, p3), -2 * den))
    }
}

/// An unbounded pixel value squeezed into i32 range, as a saturating cast.
pub open spec fn sat_i32(v: int) -> int {
    if v > 0x7fff_ffff {
        0x7fff_ffff
    } else if v < -0x8000_0000 {
        -0x8000_0000
    } else {
        v
    }
}

/// In-range magnitude for circumcenter input coordinates.
pub open spec fn circ_point_ok(p: (i32, i32)) -> bool {
    -100_000 <= p.0 <= 100_000 && -100_000 <= p.1 <= 100_000
}

/// Computes the center of the circle circumscribed around three points by the
/// perpendicular-bisector determinant formula.  The flag is false when the
/// points are collinear (no unique circle); the center is then unusable.
pub fn get_circle_center(x1: &(i32, i32), x2: &(i32, i32), x3: &(i32, i32)) -> (r: (bool, (
    i32,
    i32,
)))
    requires
        circ_point_ok(*x1),
        circ_point_ok(*x2),
        circ_point_ok(*x3),
    ensures
        r.0 == (circ_den((x1.0 as int, x1.1 as int), (x2.0 as int, x2.1 as int), (x3.0 as int, x3.1 as int)) != 0),
        r.0 ==> {
            let c = circumcenter(
                (x1.0 as int, x1.1 as int),
                (x2.0 as int, x2.1 as int),
                (x3.0 as int, x3.1 as int),
            );
            r.1.0 == sat_i32(c.0) && r.1.1 == sat_i32(c.1)
        },
{
    let (a0, a1): (i64, i64) = (x1.0 as i64, x1.1 as i64);
    let (b0, b1): (i64, i64) = (x2.0 as i64, x2.1 as i64);
    let (c0, c1): (i64, i64) = (x3.0 as i64, x3.1 as i64);
    let ghost p1 = (a0 as int, a1 as int);
    let ghost p2 = (b0 as int, b1 as int);
    let ghost p3 = (c0 as int, c1 as int);
    assert(0 <= a0 * a0 <= 10_000_000_000 && 0 <= a1 * a1 <= 10_000_000_000 && 0 <= b0 * b0
        <= 10_000_000_000 && 0 <= b1 * b1 <= 10_000_000_000 && 0 <= c0 * c0 <= 10_000_000_000 && 0
        <= c1 * c1 <= 10_000_000_000) by (nonlinear_arith)
        requires
            -100_000 <= a0 <= 100_000,
            -100_000 <= a1 <= 100_000,
            -100_000 <= b0 <= 100_000,
            -100_000 <= b1 <= 100_000,
            -100_000 <= c0 <= 100_000,
            -100_000 <= c1 <= 100_000,
    ;
    let y1bracket: i64 = b0 * b0 + b1 * b1 - c0 * c0 - c1 * c1;
    let y2bracket: i64 = c0 * c0 + c1 * c1 - a0 * a0 - a1 * a1;
    let y3bracket: i64 = a0 * a0 + a1 * a1 - b0 * b0 - b1 * b1;
    assert forall|u: i64, v: i64|
        -100_000 <= u <= 100_000 && -40_000_000_000 <= v <= 40_000_000_000 implies -4_000_000_000_000_000
        <= #[trigger] (u * v) <= 4_000_000_000_000_000 by {
        assert(-4_000_000_000_000_000 <= u as int * v as int <= 4_000_000_000_000_000)
            by (nonlinear_arith)
            requires
                -100_000 <= u <= 100_000,
                -40_000_000_000 <= v <= 40_000_000_000,
        ;
    };
    let up_x: i64 = a1 * y1bracket + b1 * y2bracket + c1 * y3bracket;
    let up_y: i64 = a0 * y1bracket + b0 * y2bracket + c0 * y3bracket;
    let down: i64 = a0 * (b1 - c1) + b0 * (c1 - a1) + c0 * (a1 - b1);
    if down == 0 {
        (false, (0, 0))
    } else {
        let (ux, uy, den): (i64, i64, i64) = if down > 0 {
            (-up_x, up_y, down)
        } else {
            (up_x, -up_y, -down)
        };
        let cx: i64 = crate::fixed::round_div_i64(ux, 2 * den);
        let cy: i64 = crate::fixed::round_div_i64(uy, 2 * den);
        (true, (saturate_i32(cx), saturate_i32(cy)))
    }
}

/// Clamp an i64 into i32 range, as a saturating cast would.
fn saturate_i32(v: i64) -> (r: i32)
    ensures
        -0x8000_0000 <= v <= 0x7fff_ffff ==> r == v,
        v > 0x7fff_ffff ==> r == 0x7fff_ffffi32,
        v < -0x8000_0000 ==> r == -0x8000_0000i32,
{
    if v > 0x7fff_ffff {
        0x7fff_ffff
    } else if v < -0x8000_0000 {
        -0x8000_0000
    } else {
        v as i32
    }
}

} // verus!
