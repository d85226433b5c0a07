//! Height estimation by boundary ray casting.
//!
//! From the estimated ground position, rays walk outward in seven of the
//! eight neighbor directions.  Where a ray crosses a patch boundary it
//! records a boundary sample: the height comes from the two-point
//! photometric equation over the crossed patch's entry pixel and its exit
//! pixel (two pixels of one albedo, so with cube-root intensities b1, b2 at
//! squared distances r1^2, r2^2 from the light, h^2 =
//! |b2^2 r2^2 - b1^2 r1^2| / |b1^2 - b2^2|), and the sample's confidence is
//! the intensity contrast of the two pixels straddling the boundary.  A
//! crossing whose straddle contrast stays at or below the configured minimum
//! is no real reflectance boundary and is rejected, as is a degenerate
//! two-point pair (a vanishing denominator would make the equation
//! ill-conditioned).

use vstd::prelude::*;
use vstd::math::abs;
use crate::fixed::SCALE;
use crate::geometry::{dist2, dist2_i64, get_patch, patch_of, SIZE_MAX};
use crate::render::Image;
use crate::roots::{cbrt_floor, icbrt_u128, isqrt_u128, lemma_cbrt_bound, lemma_sqrt_bound, sq, sqrt_floor};
use crate::srgb::SCALE_SQ;

verus! {

/// Cube root of a unit-range intensity, rescaled to SCALE: the inverse of
/// the model's cubic angular falloff.
pub open spec fn bcube_q(v: int) -> int {
    cbrt_floor(v * (SCALE_SQ as int))
}

/// Executable rescaled cube root.
pub fn bcube(v: i64) -> (r: i64)
    requires
        0 <= v <= SCALE,
    ensures
        r == bcube_q(v as int),
        0 <= r <= SCALE,
{
    let n: u128 = (v as u128) * (SCALE_SQ as u128);
    let r: u128 = icbrt_u128(n);
    proof {
        lemma_cbrt_bound(n as int, SCALE as int);
    }
    r as i64
}

/// The two-point height sample for a straddling pixel pair: (height,
/// confidence), or (0, 0) when the pair is invalid (no contrast above
/// min_diff, or a vanishing denominator).
pub open spec fn solve_eq_spec(
    ls: (int, int),
    center: (int, int),
    edge: (int, int),
    vc: int,
    ve: int,
    min_diff: int,
) -> (int, int) {
    let b2 = bcube_q(vc);
    let b1 = bcube_q(ve);
    let diff = abs(b2 - b1) as int;
    let down = abs(sq(b1) - sq(b2)) as int;
    if down == 0 || diff <= min_diff {
        (0, 0)
    } else {
        let r1s = dist2(ls.0, ls.1, edge.0, edge.1);
        let r2s = dist2(ls.0, ls.1, center.0, center.1);
        let up = abs(sq(b2) * r2s - sq(b1) * r1s) as int;
        (sqrt_floor(up / down), diff)
    }
}

/// Solves the boundary equation for one straddling pixel pair.
pub fn solve_eq(
    ls: (i32, i32),
    center: (usize, usize),
    edge: (usize, usize),
    img: &Image,
    min_diff: i64,
) -> (r: (i64, i64))
    requires
        img.wf(),
        -1_300_000 <= ls.0 <= 1_300_000,
        -1_300_000 <= ls.1 <= 1_300_000,
        center.0 < 3 * img.size,
        center.1 < 3 * img.size,
        edge.0 < 3 * img.size,
        edge.1 < 3 * img.size,
        0 <= min_diff <= SCALE,
    ensures
        (r.0 as int, r.1 as int) == solve_eq_spec(
            (ls.0 as int, ls.1 as int),
            (center.0 as int, center.1 as int),
            (edge.0 as int, edge.1 as int),
            img.at(center.0 as int, center.1 as int),
            img.at(edge.0 as int, edge.1 as int),
            min_diff as int,
        ),
        0 <= r.0 <= 6_000_000_000_000,
        0 <= r.1 <= SCALE,
{
    let side: usize = 3 * img.size;
    proof {
        lemma_pixel_cell(img.size as int, center.0 as int, center.1 as int);
        lemma_pixel_cell(img.size as int, edge.0 as int, edge.1 as int);
    }
    let vc: i64 = img.data[center.0 * side + center.1];
    let ve: i64 = img.data[edge.0 * side + edge.1];
    let b2: i64 = bcube(vc);
    let b1: i64 = bcube(ve);
    let diff: i64 = if b2 >= b1 {
        b2 - b1
    } else {
        b1 - b2
    };
    assert(0 <= b1 * b1 <= 1_000_000_000_000 && 0 <= b2 * b2 <= 1_000_000_000_000)
        by (nonlinear_arith)
        requires
            0 <= b1 <= 1_000_000,
            0 <= b2 <= 1_000_000,
    ;
    let b1s: i64 = b1 * b1;
    let b2s: i64 = b2 * b2;
    let down: i64 = if b1s >= b2s {
        b1s - b2s
    } else {
        b2s - b1s
    };
    if down == 0 || diff <= min_diff {
        return (0, 0);
    }
    let r1s: i64 = dist2_i64((ls.0 as i64, ls.1 as i64), (edge.0 as i64, edge.1 as i64));
    let r2s: i64 = dist2_i64((ls.0 as i64, ls.1 as i64), (center.0 as i64, center.1 as i64));
    assert(0 <= (b2s as i128) * (r2s as i128) <= 18_000_000_000_000_000_000_000_000 && 0 <= (
    b1s as i128) * (r1s as i128) <= 18_000_000_000_000_000_000_000_000) by (nonlinear_arith)
        requires
            0 <= b1s <= 1_000_000_000_000,
            0 <= b2s <= 1_000_000_000_000,
            0 <= r1s <= 18_000_000_000_000,
            0 <= r2s <= 18_000_000_000_000,
    ;
    let t2: i128 = (b2s as i128) * (r2s as i128);
    let t1: i128 = (b1s as i128) * (r1s as i128);
    let up: i128 = if t2 >= t1 {
        t2 - t1
    } else {
        t1 - t2
    };
    let q: u128 = (up as u128) / (down as u128);
    let h: u128 = isqrt_u128(q);
    proof {
        assert((up as u128) / (down as u128) <= up as u128) by {
            vstd::arithmetic::div_mod::lemma_div_is_ordered_by_denominator(
                up as int,
                1,
                down as int,
            );
        };
        assert(sq(6_000_000_000_001) > 36_000_000_000_000_000_000_000_000) by (nonlinear_arith);
        lemma_sqrt_bound(q as int, 6_000_000_000_000);
    }
    (h as i64, diff)
}

/// Pixel (j, k) of a 3*size square indexes inside the flat data array.
pub proof fn lemma_pixel_cell(size: int, j: int, k: int)
    requires
        1 <= size,
        0 <= j < 3 * size,
        0 <= k < 3 * size,
    ensures
        0 <= j * (3 * size) + k < 9 * size * size,
{
    assert(j * (3 * size) + k < 9 * size * size) by (nonlinear_arith)
        requires
            0 <= j < 3 * size,
            0 <= k < 3 * size,
            1 <= size,
    ;
    assert(j * (3 * size) >= 0) by (nonlinear_arith)
        requires
            j >= 0,
            size >= 1,
    ;
}

/// Walks from cur toward the image, up to fuel steps, and stops at the first
/// in-bounds pixel (or wherever fuel runs out).
pub open spec fn ray_enter(side: int, cur: (int, int), dir: (int, int), fuel: nat) -> (int, int)
    decreases fuel,
{
    if fuel == 0 {
        cur
    } else if 0 <= cur.0 < side && 0 <= cur.1 < side {
        cur
    } else {
        ray_enter(side, (cur.0 + dir.0, cur.1 + dir.1), dir, (fuel - 1) as nat)
    }
}

/// One crossing's boundary sample: the height from the two-point equation
/// over the patch's entry and exit pixels, with the straddle contrast of the
/// boundary as confidence.  (0, 0) when the crossing has no real contrast or
/// the two-point pair is degenerate.
pub open spec fn boundary_sample(
    img: Image,
    ls: (int, int),
    min_diff: int,
    anchor: (int, int),
    cur: (int, int),
    next: (int, int),
) -> (int, int) {
    let cross = abs(bcube_q(img.at(cur.0, cur.1)) - bcube_q(img.at(next.0, next.1))) as int;
    let s = solve_eq_spec(
        ls,
        (cur.0, cur.1),
        (anchor.0, anchor.1),
        img.at(cur.0, cur.1),
        img.at(anchor.0, anchor.1),
        0,
    );
    if cross > min_diff && s.1 > 0 {
        (s.0, cross)
    } else {
        (0, 0)
    }
}

/// Walks outward from cur, one pixel per step, with anchor at the current
/// patch's entry pixel; each crossing into a different patch yields a
/// boundary sample, and the best-confidence sample is kept.  Stops at the
/// image edge or when fuel runs out.
pub open spec fn ray_walk(
    img: Image,
    ls: (int, int),
    min_diff: int,
    dir: (int, int),
    anchor: (int, int),
    cur: (int, int),
    best: (int, int),
    fuel: nat,
) -> (int, int)
    decreases fuel,
{
    if fuel == 0 {
        best
    } else {
        let next = (cur.0 + dir.0, cur.1 + dir.1);
        if !(0 <= next.0 < 3 * img.size && 0 <= next.1 < 3 * img.size) {
            best
        } else {
            if patch_of(next.0, next.1, img.size as int) != patch_of(
                cur.0,
                cur.1,
                img.size as int,
            ) {
                let s = boundary_sample(img, ls, min_diff, anchor, cur, next);
                let new_best = if s.1 > best.1 {
                    s
                } else {
                    best
                };
                ray_walk(img, ls, min_diff, dir, next, next, new_best, (fuel - 1) as nat)
            } else {
                ray_walk(img, ls, min_diff, dir, anchor, next, best, (fuel - 1) as nat)
            }
        }
    }
}

/// The best (height, confidence) sample of one ray, or (0, 0) when the ray
/// never enters the image or finds no valid boundary.
pub open spec fn launch_ray_spec(img: Image, ls: (int, int), dir: (int, int), min_diff: int) -> (
    int,
    int,
) {
    let start = (ls.0 + dir.0, ls.1 + dir.1);
    let entered = ray_enter(3 * img.size as int, start, dir, 1000);
    if !(0 <= entered.0 < 3 * img.size && 0 <= entered.1 < 3 * img.size) {
        (0, 0)
    } else {
        ray_walk(img, ls, min_diff, dir, entered, entered, (0, 0), (9 * img.size) as nat)
    }
}

/// Casts one ray from the location estimate and returns its best boundary
/// sample: (height, confidence), with (0, 0) for a ray without one.
pub fn launch_ray(
    reverse_solution_location: &(i32, i32),
    direction: &(i32, i32),
    scene_arr: &Image,
) -> (r: (i64, i64))
    requires
        scene_arr.wf(),
        -1_200_000 <= reverse_solution_location.0 <= 1_200_000,
        -1_200_000 <= reverse_solution_location.1 <= 1_200_000,
        -1 <= direction.0 <= 1,
        -1 <= direction.1 <= 1,
    ensures
        (r.0 as int, r.1 as int) == launch_ray_spec(
            *scene_arr,
            (reverse_solution_location.0 as int, reverse_solution_location.1 as int),
            (direction.0 as int, direction.1 as int),
            0,
        ),
{
    launch_ray_with(reverse_solution_location, direction, scene_arr, 0)
}

/// Casts one ray with a minimum boundary contrast for valid samples.
pub fn launch_ray_with(
    loc: &(i32, i32),
    direction: &(i32, i32),
    scene_arr: &Image,
    min_diff: i64,
) -> (r: (i64, i64))
    requires
        scene_arr.wf(),
        -1_200_000 <= loc.0 <= 1_200_000,
        -1_200_000 <= loc.1 <= 1_200_000,
        -1 <= direction.0 <= 1,
        -1 <= direction.1 <= 1,
        0 <= min_diff <= SCALE,
    ensures
        (r.0 as int, r.1 as int) == launch_ray_spec(
            *scene_arr,
            (loc.0 as int, loc.1 as int),
            (direction.0 as int, direction.1 as int),
            min_diff as int,
        ),
        0 <= r.0 <= 6_000_000_000_000,
        0 <= r.1 <= SCALE,
{
    let size: usize = scene_arr.size;
    let side: i64 = 3 * (size as i64);
    let dir: (i32, i32) = *direction;
    let mut cur: (i64, i64) = (loc.0 as i64 + dir.0 as i64, loc.1 as i64 + dir.1 as i64);
    let mut clicks: u32 = 0;
    // Enter the image (a location estimate may lie outside it).
    while clicks < 1000 && !(0 <= cur.0 && cur.0 < side && 0 <= cur.1 && cur.1 < side)
        invariant
            side == 3 * size,
            size == scene_arr.size,
            1 <= size <= SIZE_MAX,
            -1 <= dir.0 <= 1,
            -1 <= dir.1 <= 1,
            clicks <= 1000,
            -1_200_001 - clicks <= cur.0 <= 1_200_001 + clicks,
            -1_200_001 - clicks <= cur.1 <= 1_200_001 + clicks,
            ray_enter(side as int, (loc.0 as int + dir.0 as int, loc.1 as int + dir.1 as int), (
            dir.0 as int, dir.1 as int), 1000) == ray_enter(
                side as int,
                (cur.0 as int, cur.1 as int),
                (dir.0 as int, dir.1 as int),
                (1000 - clicks) as nat,
            ),
        decreases 1000 - clicks,
    {
        cur = (cur.0 + dir.0 as i64, cur.1 + dir.1 as i64);
        clicks = clicks + 1;
    }
    let ghost entered = ray_enter(
        side as int,
        (loc.0 as int + dir.0 as int, loc.1 as int + dir.1 as int),
        (dir.0 as int, dir.1 as int),
        1000,
    );
    if !(0 <= cur.0 && cur.0 < side && 0 <= cur.1 && cur.1 < side) {
        proof {
            assert(ray_enter(
                side as int,
                (cur.0 as int, cur.1 as int),
                (dir.0 as int, dir.1 as int),
                0,
            ) == (cur.0 as int, cur.1 as int));
        }
        return (0, 0);
    }
    proof {
        assert(entered == (cur.0 as int, cur.1 as int));
    }
    // Walk outward and keep the best boundary sample.
    let mut anchor: (i64, i64) = cur;
    let mut best: (i64, i64) = (0, 0);
    let mut fuel: usize = 9 * size;
    let ghost ls_i = (loc.0 as int, loc.1 as int);
    let ghost dir_i = (dir.0 as int, dir.1 as int);
    while fuel > 0
        invariant
            side == 3 * size,
            size == scene_arr.size,
            scene_arr.wf(),
            1 <= size <= SIZE_MAX,
            dir == *direction,
            -1 <= dir.0 <= 1,
            -1 <= dir.1 <= 1,
            -1_300_000 <= loc.0 <= 1_300_000,
            -1_300_000 <= loc.1 <= 1_300_000,
            0 <= min_diff <= SCALE,
            ls_i == (loc.0 as int, loc.1 as int),
            dir_i == (dir.0 as int, dir.1 as int),
            entered == ray_enter(
                side as int,
                (loc.0 as int + dir.0 as int, loc.1 as int + dir.1 as int),
                dir_i,
                1000,
            ),
            0 <= entered.0 < side,
            0 <= entered.1 < side,
            fuel <= 9 * size,
            0 <= cur.0 < side,
            0 <= cur.1 < side,
            0 <= anchor.0 < side,
            0 <= anchor.1 < side,
            0 <= best.0 <= 6_000_000_000_000,
            0 <= best.1 <= SCALE,
            ray_walk(
                *scene_arr,
                ls_i,
                min_diff as int,
                dir_i,
                entered,
                entered,
                (0, 0),
                (9 * size) as nat,
            ) == ray_walk(
                *scene_arr,
                ls_i,
                min_diff as int,
                dir_i,
                (anchor.0 as int, anchor.1 as int),
                (cur.0 as int, cur.1 as int),
                (best.0 as int, best.1 as int),
                fuel as nat,
            ),
        decreases fuel,
    {
        let next: (i64, i64) = (cur.0 + dir.0 as i64, cur.1 + dir.1 as i64);
        if !(0 <= next.0 && next.0 < side && 0 <= next.1 && next.1 < side) {
            proof {
                assert(ray_walk(
                    *scene_arr,
                    ls_i,
                    min_diff as int,
                    dir_i,
                    (anchor.0 as int, anchor.1 as int),
                    (cur.0 as int, cur.1 as int),
                    (best.0 as int, best.1 as int),
                    fuel as nat,
                ) == (best.0 as int, best.1 as int));
            }
            return best;
        }
        let cp = get_patch(cur.0 as usize, cur.1 as usize, size);
        let np = get_patch(next.0 as usize, next.1 as usize, size);
        if cp.0 != np.0 || cp.1 != np.1 {
            proof {
                lemma_pixel_cell(size as int, cur.0 as int, cur.1 as int);
                lemma_pixel_cell(size as int, next.0 as int, next.1 as int);
            }
            let side_u: usize = 3 * size;
            let bc: i64 = bcube(scene_arr.data[(cur.0 as usize) * side_u + (cur.1 as usize)]);
            let bn: i64 = bcube(scene_arr.data[(next.0 as usize) * side_u + (next.1 as usize)]);
            let cross: i64 = if bc >= bn {
                bc - bn
            } else {
                bn - bc
            };
            let s = solve_eq(
                (loc.0, loc.1),
                (cur.0 as usize, cur.1 as usize),
                (anchor.0 as usize, anchor.1 as usize),
                scene_arr,
                0,
            );
            let sample: (i64, i64) = if cross > min_diff && s.1 > 0 {
                (s.0, cross)
            } else {
                (0, 0)
            };
            if sample.1 > best.1 {
                best = sample;
            }
            anchor = next;
        }
        cur = next;
        fuel = fuel - 1;
    }
    best
}

/// The seven probe directions: the eight neighbor directions minus one, so
/// that no exactly opposite pair is duplicated twice over.
pub open spec fn ray_directions() -> Seq<(int, int)> {
    seq![(-1, 1), (1, 1), (1, 0), (0, 1), (-1, 0), (0, -1), (-1, -1)]
}

/// Best sample over the first n directions, later directions winning ties:
/// the (height, confidence) pair of the ray with the largest confidence, or
/// nothing while every ray came back without a valid sample.
pub open spec fn best_ray_upto(img: Image, ls: (int, int), min_diff: int, n: int) -> Option<
    (int, int),
>
    decreases n,
{
    if n <= 0 {
        None
    } else {
        let prev = best_ray_upto(img, ls, min_diff, n - 1);
        let s = launch_ray_spec(img, ls, ray_directions()[n - 1], min_diff);
        if s.1 != 0 {
            match prev {
                Some(p) => {
                    if s.1 >= p.1 {
                        Some(s)
                    } else {
                        prev
                    }
                },
                None => Some(s),
            }
        } else {
            prev
        }
    }
}

/// The height estimate of one image given the location estimate, or nothing
/// when no ray produced a valid boundary sample.
pub open spec fn solve_height_spec(img: Image, ls: (int, int), min_diff: int) -> Option<int> {
    match best_ray_upto(img, ls, min_diff, 7) {
        Some(s) => Some(s.0),
        None => None,
    }
}

/// Estimates the light's height from the location estimate by casting the
/// seven probe rays and taking the height of the most confident boundary
/// sample; returns nothing when no ray yields a usable boundary.
pub fn solve_height(img: &Image, loc: (i32, i32), min_diff: i64) -> (r: Option<i64>)
    requires
        img.wf(),
        -1_200_000 <= loc.0 <= 1_200_000,
        -1_200_000 <= loc.1 <= 1_200_000,
        0 <= min_diff <= SCALE,
    ensures
        match r {
            Some(h) => solve_height_spec(*img, (loc.0 as int, loc.1 as int), min_diff as int)
                == Some(h as int) && 0 <= h <= 6_000_000_000_000,
            None => solve_height_spec(*img, (loc.0 as int, loc.1 as int), min_diff as int) is None,
        },
{
    let mut dirs: Vec<(i32, i32)> = Vec::new();
    dirs.push((-1, 1));
    dirs.push((1, 1));
    dirs.push((1, 0));
    dirs.push((0, 1));
    dirs.push((-1, 0));
    dirs.push((0, -1));
    dirs.push((-1, -1));
    let ghost ls_i = (loc.0 as int, loc.1 as int);
    let mut best: Option<(i64, i64)> = None;
    let mut d: usize = 0;
    while d < 7
        invariant
            img.wf(),
            -1_200_000 <= loc.0 <= 1_200_000,
            -1_200_000 <= loc.1 <= 1_200_000,
            0 <= min_diff <= SCALE,
            ls_i == (loc.0 as int, loc.1 as int),
            dirs.len() == 7,
            forall|u: int| 0 <= u < 7 ==> -1 <= (#[trigger] dirs[u]).0 <= 1 && -1 <= dirs[u].1
                <= 1,
            forall|u: int|
                0 <= u < 7 ==> ((#[trigger] dirs[u]).0 as int, dirs[u].1 as int)
                    == ray_directions()[u],
            d <= 7,
            match best {
                Some(b) => Some((b.0 as int, b.1 as int)) == best_ray_upto(
                    *img,
                    ls_i,
                    min_diff as int,
                    d as int,
                ) && 0 <= b.0 <= 6_000_000_000_000 && 0 <= b.1 <= SCALE,
                None => best_ray_upto(*img, ls_i, min_diff as int, d as int) is None,
            },
        decreases 7 - d,
    {
        let s = launch_ray_with(&loc, &dirs[d], img, min_diff);
        if s.1 != 0 {
            match best {
                Some(b) => {
                    if s.1 >= b.1 {
                        best = Some(s);
                    }
                },
                None => {
                    best = Some(s);
                },
            }
        }
        d = d + 1;
    }
    match best {
        Some(b) => Some(b.0),
        None => None,
    }
}

/// On an image with a single constant intensity, walking a ray never finds
/// a valid boundary sample: every crossing's straddle contrast is zero.
proof fn lemma_ray_walk_const(
    img: Image,
    ls: (int, int),
    min_diff: int,
    dir: (int, int),
    anchor: (int, int),
    cur: (int, int),
    best: (int, int),
    fuel: nat,
)
    requires
        img.wf(),
        min_diff >= 0,
        best.1 >= 0,
        0 <= anchor.0 < 3 * img.size,
        0 <= anchor.1 < 3 * img.size,
        0 <= cur.0 < 3 * img.size,
        0 <= cur.1 < 3 * img.size,
        forall|t: int| 0 <= t < img.data.len() ==> #[trigger] img.data[t] == img.data[0],
    ensures
        ray_walk(img, ls, min_diff, dir, anchor, cur, best, fuel) == best,
    decreases fuel,
{
    if fuel > 0 {
        let next = (cur.0 + dir.0, cur.1 + dir.1);
        if 0 <= next.0 < 3 * img.size && 0 <= next.1 < 3 * img.size {
            lemma_pixel_cell(img.size as int, cur.0, cur.1);
            lemma_pixel_cell(img.size as int, next.0, next.1);
            assert(img.at(cur.0, cur.1) == img.data[0]);
            assert(img.at(next.0, next.1) == img.data[0]);
            let s = boundary_sample(img, ls, min_diff, anchor, cur, next);
            assert(s.1 == 0);
            lemma_ray_walk_const(img, ls, min_diff, dir, next, next, best, (fuel - 1) as nat);
            lemma_ray_walk_const(img, ls, min_diff, dir, anchor, next, best, (fuel - 1) as nat);
        }
    }
}

/// Part of the no-boundary behavior: over an image of one constant
/// intensity (as a scene with equal albedos everywhere renders, up to
/// falloff-free lighting), no ray produces a valid boundary sample and the
/// height stage reports no estimate.
pub proof fn lemma_constant_image_no_height(img: Image, ls: (int, int), min_diff: int)
    requires
        img.wf(),
        min_diff >= 0,
        forall|t: int| 0 <= t < img.data.len() ==> #[trigger] img.data[t] == img.data[0],
    ensures
        solve_height_spec(img, ls, min_diff) is None,
{
    assert forall|n: int| 0 <= n <= 7 implies best_ray_upto(img, ls, min_diff, n) is None by {
        lemma_best_ray_upto_const(img, ls, min_diff, n);
    };
}

/// Induction over the probe directions for the constant-image case.
proof fn lemma_best_ray_upto_const(img: Image, ls: (int, int), min_diff: int, n: int)
    requires
        img.wf(),
        min_diff >= 0,
        0 <= n <= 7,
        forall|t: int| 0 <= t < img.data.len() ==> #[trigger] img.data[t] == img.data[0],
    ensures
        best_ray_upto(img, ls, min_diff, n) is None,
    decreases n,
{
    if n > 0 {
        lemma_best_ray_upto_const(img, ls, min_diff, n - 1);
        let dir = ray_directions()[n - 1];
        let start = (ls.0 + dir.0, ls.1 + dir.1);
        let entered = ray_enter(3 * img.size as int, start, dir, 1000);
        if 0 <= entered.0 < 3 * img.size && 0 <= entered.1 < 3 * img.size {
            lemma_ray_walk_const(
                img,
                ls,
                min_diff,
                dir,
                entered,
                entered,
                (0, 0),
                (9 * img.size) as nat,
            );
        }
        assert(launch_ray_spec(img, ls, dir, min_diff).1 == 0);
    }
}

} // verus!
