//! Albedo-ratio estimation by pairwise border-ratio propagation.
//!
//! For each adjacent patch pair, the intensities of two pixels straddling
//! the shared border are normalized by the model's angular falloff (computed
//! from the location and height estimates); their ratio is then the relative
//! albedo of the two patches.  Directly measured ratios fill one cell and its
//! reciprocal mirror; the rest of the 9x9 matrix is propagated through the
//! grid's center patch, since true albedo ratios are transitive.  Each patch
//! is finally reported relative to the brightest patch's albedo.

use vstd::prelude::*;
use crate::fixed::SCALE;
use crate::geometry::{dist2, dist2_i64};
use crate::render::Image;
use crate::scene::{cos_cubed, cos_cubed_q, DIST2_MAX, HEIGHT_MAX};
use crate::srgb::SCALE_SQ;

verus! {

/// Largest stored ratio: one million in SCALE units.
pub const RATIO_MAX: i64 = 1_000_000_000_000;

/// Caps a ratio at RATIO_MAX.
pub open spec fn clamp_ratio(v: int) -> int {
    if v > RATIO_MAX {
        RATIO_MAX as int
    } else {
        v
    }
}

/// The measured albedo ratio between the patches under two pixels: each
/// pixel's intensity is divided by its angular falloff, and the two
/// normalized brightnesses are divided.  Zero marks an invalid measurement
/// (ground-level height, a vanishing falloff, or a dark second pixel).
pub open spec fn diff_albedo_q(
    img: Image,
    ls: (int, int),
    h: int,
    p1: (int, int),
    p2: (int, int),
) -> int {
    if h == 0 {
        0
    } else {
        let c1 = cos_cubed_q(dist2(ls.0, ls.1, p1.0, p1.1), h);
        let c2 = cos_cubed_q(dist2(ls.0, ls.1, p2.0, p2.1), h);
        if c1 == 0 || c2 == 0 {
            0
        } else {
            let f1 = (img.at(p1.0, p1.1) * SCALE) / c1;
            let f2 = (img.at(p2.0, p2.1) * SCALE) / c2;
            if f2 == 0 {
                0
            } else {
                clamp_ratio((f1 * SCALE) / f2)
            }
        }
    }
}

/// Measures the normalized brightness ratio of two pixels given the location
/// and height estimates; zero marks an invalid measurement.
pub fn count_diff_albedo(
    img: &Image,
    ls: (i32, i32),
    h: u32,
    pointf1: (usize, usize),
    pointf2: (usize, usize),
) -> (r: i64)
    requires
        img.wf(),
        -1_300_000 <= ls.0 <= 1_300_000,
        -1_300_000 <= ls.1 <= 1_300_000,
        h <= HEIGHT_MAX,
        pointf1.0 < 3 * img.size,
        pointf1.1 < 3 * img.size,
        pointf2.0 < 3 * img.size,
        pointf2.1 < 3 * img.size,
    ensures
        r == diff_albedo_q(
            *img,
            (ls.0 as int, ls.1 as int),
            h as int,
            (pointf1.0 as int, pointf1.1 as int),
            (pointf2.0 as int, pointf2.1 as int),
        ),
        0 <= r <= RATIO_MAX,
{
    if h == 0 {
        return 0;
    }
    let side: usize = 3 * img.size;
    let d1: i64 = dist2_i64((ls.0 as i64, ls.1 as i64), (pointf1.0 as i64, pointf1.1 as i64));
    let d2v: i64 = dist2_i64((ls.0 as i64, ls.1 as i64), (pointf2.0 as i64, pointf2.1 as i64));
    assert(d1 <= DIST2_MAX && d2v <= DIST2_MAX) by (nonlinear_arith)
        requires
            d1 == dist2(ls.0 as int, ls.1 as int, pointf1.0 as int, pointf1.1 as int),
            d2v == dist2(ls.0 as int, ls.1 as int, pointf2.0 as int, pointf2.1 as int),
            -1_300_000 <= ls.0 <= 1_300_000,
            -1_300_000 <= ls.1 <= 1_300_000,
            0 <= pointf1.0 <= 9_000,
            0 <= pointf1.1 <= 9_000,
            0 <= pointf2.0 <= 9_000,
            0 <= pointf2.1 <= 9_000,
    ;
    let c1: i64 = cos_cubed(d1, h as i64);
    let c2: i64 = cos_cubed(d2v, h as i64);
    if c1 == 0 || c2 == 0 {
        return 0;
    }
    proof {
        crate::height::lemma_pixel_cell(img.size as int, pointf1.0 as int, pointf1.1 as int);
        crate::height::lemma_pixel_cell(img.size as int, pointf2.0 as int, pointf2.1 as int);
    }
    let v1: i64 = img.data[pointf1.0 * side + pointf1.1];
    let v2: i64 = img.data[pointf2.0 * side + pointf2.1];
    assert(0 <= v1 * SCALE <= 1_000_000_000_000 && 0 <= v2 * SCALE <= 1_000_000_000_000)
        by (nonlinear_arith)
        requires
            0 <= v1 <= 1_000_000,
            0 <= v2 <= 1_000_000,
    ;
    let f1: i64 = (v1 * SCALE) / c1;
    let f2: i64 = (v2 * SCALE) / c2;
    proof {
        vstd::arithmetic::div_mod::lemma_div_nonincreasing(v1 * SCALE, c1 as int);
        vstd::arithmetic::div_mod::lemma_div_nonincreasing(v2 * SCALE, c2 as int);
        vstd::arithmetic::div_mod::lemma_div_pos_is_pos(v1 * SCALE, c1 as int);
        vstd::arithmetic::div_mod::lemma_div_pos_is_pos(v2 * SCALE, c2 as int);
    }
    if f2 == 0 {
        return 0;
    }
    assert(0 <= f1 * SCALE <= 1_000_000_000_000_000_000) by (nonlinear_arith)
        requires
            0 <= f1 <= 1_000_000_000_000,
    ;
    let ratio: i64 = (f1 * SCALE) / f2;
    proof {
        vstd::arithmetic::div_mod::lemma_div_pos_is_pos(f1 * SCALE, f2 as int);
    }
    if ratio > RATIO_MAX {
        RATIO_MAX
    } else {
        ratio
    }
}

/// The directly measured border pairs: for each adjacent patch pair (i, j),
/// one pixel on each side of the shared border, at the border's midpoint (or
/// its corner for diagonal neighbors).
pub open spec fn measured_pairs(s: int) -> Seq<(int, int, (int, int), (int, int))> {
    seq![
        (0, 1, (s - 1, s / 2), (s, s / 2)),
        (0, 3, (s / 2, s - 1), (s / 2, s)),
        (0, 4, (s - 1, s - 1), (s, s)),
        (1, 2, (2 * s - 1, s / 2), (2 * s, s / 2)),
        (1, 3, (s, s - 1), (s - 1, s)),
        (1, 4, (s + s / 2, s - 1), (s + s / 2, s)),
        (1, 5, (2 * s - 1, s - 1), (2 * s, s)),
        (2, 4, (2 * s, s - 1), (2 * s - 1, s)),
        (2, 5, (2 * s + s / 2, s - 1), (2 * s + s / 2, s)),
        (3, 4, (s - 1, s + s / 2), (s, s + s / 2)),
        (3, 7, (s - 1, 2 * s - 1), (s, 2 * s)),
        (3, 6, (s / 2, 2 * s - 1), (s / 2, 2 * s)),
        (4, 5, (2 * s - 1, s + s / 2), (2 * s, s + s / 2)),
        (4, 6, (s, 2 * s - 1), (s - 1, 2 * s)),
        (4, 7, (s + s / 2, 2 * s - 1), (s + s / 2, 2 * s)),
        (4, 8, (2 * s - 1, 2 * s - 1), (2 * s, 2 * s)),
        (5, 7, (2 * s, 2 * s - 1), (2 * s - 1, 2 * s)),
        (5, 8, (2 * s + s / 2, 2 * s - 1), (2 * s + s / 2, 2 * s)),
        (6, 7, (s - 1, 2 * s + s / 2), (s, 2 * s + s / 2)),
        (7, 8, (2 * s - 1, 2 * s + s / 2), (2 * s, 2 * s + s / 2)),
    ]
}

/// Writes one measured ratio and its reciprocal mirror into the matrix; an
/// invalid (zero) measurement leaves both cells unmeasured.
pub open spec fn set_pair(m: Seq<i64>, i: int, j: int, r: int) -> Seq<i64> {
    if r == 0 {
        m
    } else {
        m.update(i * 9 + j, r as i64).update(j * 9 + i, ((SCALE_SQ as int) / r) as i64)
    }
}

/// The matrix seeded with unit self-ratios and the first n measured pairs.
pub open spec fn measured_upto(img: Image, ls: (int, int), h: int, n: int) -> Seq<i64>
    decreases n,
{
    if n <= 0 {
        Seq::new(81, |t: int| if t / 9 == t % 9 { SCALE } else { 0i64 })
    } else {
        let p = measured_pairs(img.size as int)[n - 1];
        set_pair(
            measured_upto(img, ls, h, n - 1),
            p.0,
            p.1,
            diff_albedo_q(img, ls, h, p.2, p.3),
        )
    }
}

/// Fills one still-unmeasured cell through the center patch: ratio[i][j] =
/// ratio[i][4] * ratio[4][j], capped at RATIO_MAX.
pub open spec fn propagate_cell(m: Seq<i64>, t: int) -> Seq<i64> {
    let i = t / 9;
    let j = t % 9;
    if m[t] == 0 {
        m.update(t, clamp_ratio(((m[i * 9 + 4] as int) * (m[4 * 9 + j] as int)) / (SCALE as int)) as i64)
    } else {
        m
    }
}

/// The matrix after propagating the first n cells in scan order.
pub open spec fn propagate_upto(m: Seq<i64>, n: int) -> Seq<i64>
    decreases n,
{
    if n <= 0 {
        m
    } else {
        propagate_cell(propagate_upto(m, n - 1), n - 1)
    }
}

/// How many of row i's first n off-diagonal entries are at least one (the
/// row's patch at least as bright as the column's).
pub open spec fn row_large_count(m: Seq<i64>, i: int, n: int) -> int
    decreases n,
{
    if n <= 0 {
        0
    } else {
        row_large_count(m, i, n - 1) + if n - 1 != i && m[i * 9 + (n - 1)] >= SCALE {
            1int
        } else {
            0int
        }
    }
}

/// How many of row i's first n off-diagonal entries are below one.
pub open spec fn row_small_count(m: Seq<i64>, i: int, n: int) -> int
    decreases n,
{
    if n <= 0 {
        0
    } else {
        row_small_count(m, i, n - 1) + if n - 1 != i && m[i * 9 + (n - 1)] < SCALE {
            1int
        } else {
            0int
        }
    }
}

/// The brightest and dimmest rows: the first row dominating the most others,
/// and the first row dominated by the most others.  Returns (brightest,
/// its count, dimmest, its count) over the first n rows.
pub open spec fn best_rows_upto(m: Seq<i64>, n: int) -> (int, int, int, int)
    decreases n,
{
    if n <= 0 {
        (0, 0, 0, 0)
    } else {
        let prev = best_rows_upto(m, n - 1);
        let lc = row_large_count(m, n - 1, 9);
        let sc = row_small_count(m, n - 1, 9);
        let (mx, cg) = if lc > prev.1 {
            (n - 1, lc)
        } else {
            (prev.0, prev.1)
        };
        let (mn, cs) = if sc > prev.3 {
            (n - 1, sc)
        } else {
            (prev.2, prev.3)
        };
        (mx, cg, mn, cs)
    }
}

/// The full ratio matrix of one image under the location and height
/// estimates.
pub open spec fn albedo_matrix(img: Image, ls: (int, int), h: int) -> Seq<i64> {
    propagate_upto(measured_upto(img, ls, h, 20), 81)
}

/// The reported relative albedo vector: each patch's ratio to the brightest
/// patch.
pub open spec fn solve_albedo_spec(img: Image, ls: (int, int), h: int) -> Seq<i64> {
    let m = albedo_matrix(img, ls, h);
    let best = best_rows_upto(m, 9);
    Seq::new(9, |i: int| m[i * 9 + best.0])
}

/// The executable border-pair list.
fn measured_pairs_list(size: usize) -> (r: Vec<(usize, usize, (usize, usize), (usize, usize))>)
    requires
        1 <= size <= crate::geometry::SIZE_MAX,
    ensures
        r.len() == 20,
        forall|u: int|
            0 <= u < 20 ==> {
                let p = measured_pairs(size as int)[u];
                let q = #[trigger] r[u];
                q.0 == p.0 && q.1 == p.1 && q.2.0 == p.2.0 && q.2.1 == p.2.1 && q.3.0 == p.3.0
                    && q.3.1 == p.3.1
            },
        forall|u: int|
            0 <= u < 20 ==> {
                let q = #[trigger] r[u];
                q.0 < 9 && q.1 < 9 && q.2.0 < 3 * size && q.2.1 < 3 * size && q.3.0 < 3 * size
                    && q.3.1 < 3 * size
            },
{
    let s: usize = size;
    let mut r: Vec<(usize, usize, (usize, usize), (usize, usize))> = Vec::new();
    r.push((0, 1, (s - 1, s / 2), (s, s / 2)));
    r.push((0, 3, (s / 2, s - 1), (s / 2, s)));
    r.push((0, 4, (s - 1, s - 1), (s, s)));
    r.push((1, 2, (2 * s - 1, s / 2), (2 * s, s / 2)));
    r.push((1, 3, (s, s - 1), (s - 1, s)));
    r.push((1, 4, (s + s / 2, s - 1), (s + s / 2, s)));
    r.push((1, 5, (2 * s - 1, s - 1), (2 * s, s)));
    r.push((2, 4, (2 * s, s - 1), (2 * s - 1, s)));
    r.push((2, 5, (2 * s + s / 2, s - 1), (2 * s + s / 2, s)));
    r.push((3, 4, (s - 1, s + s / 2), (s, s + s / 2)));
    r.push((3, 7, (s - 1, 2 * s - 1), (s, 2 * s)));
    r.push((3, 6, (s / 2, 2 * s - 1), (s / 2, 2 * s)));
    r.push((4, 5, (2 * s - 1, s + s / 2), (2 * s, s + s / 2)));
    r.push((4, 6, (s, 2 * s - 1), (s - 1, 2 * s)));
    r.push((4, 7, (s + s / 2, 2 * s - 1), (s + s / 2, 2 * s)));
    r.push((4, 8, (2 * s - 1, 2 * s - 1), (2 * s, 2 * s)));
    r.push((5, 7, (2 * s, 2 * s - 1), (2 * s - 1, 2 * s)));
    r.push((5, 8, (2 * s + s / 2, 2 * s - 1), (2 * s + s / 2, 2 * s)));
    r.push((6, 7, (s - 1, 2 * s + s / 2), (s, 2 * s + s / 2)));
    r.push((7, 8, (2 * s - 1, 2 * s + s / 2), (2 * s, 2 * s + s / 2)));
    r
}

/// Two cells of the 9x9 matrix coincide only for equal index pairs.
proof fn lemma_cell_unique(i1: int, j1: int, i2: int, j2: int)
    by (nonlinear_arith)
    requires
        0 <= i1 < 9,
        0 <= j1 < 9,
        0 <= i2 < 9,
        0 <= j2 < 9,
        i1 * 9 + j1 == i2 * 9 + j2,
    ensures
        i1 == i2,
        j1 == j2,
{
}

/// Every measured border pair has an ordered patch index pair, and no two
/// pairs of the list name the same patches.
proof fn lemma_pairs_shape(s: int)
    ensures
        forall|k: int|
            0 <= k < 20 ==> 0 <= (#[trigger] measured_pairs(s)[k]).0 < measured_pairs(s)[k].1
                < 9,
        forall|k1: int, k2: int|
            0 <= k1 < k2 < 20 ==> !((#[trigger] measured_pairs(s)[k1]).0 == (
            #[trigger] measured_pairs(s)[k2]).0 && measured_pairs(s)[k1].1 == measured_pairs(
                s,
            )[k2].1),
{
}

/// The measured fold keeps the matrix at its 81 cells.
proof fn lemma_measured_len(img: Image, ls: (int, int), h: int, n: int)
    requires
        n <= 20,
    ensures
        measured_upto(img, ls, h, n).len() == 81,
    decreases n,
{
    if n > 0 {
        lemma_measured_len(img, ls, h, n - 1);
        lemma_pairs_shape(img.size as int);
        let q = measured_pairs(img.size as int)[n - 1];
        assert(0 <= q.0 * 9 + q.1 < 81 && 0 <= q.1 * 9 + q.0 < 81) by (nonlinear_arith)
            requires
                0 <= q.0 < 9,
                0 <= q.1 < 9,
        ;
    }
}

/// Once the k-th pair's valid measurement is written, no later measured pair
/// touches its two cells.
proof fn lemma_measured_cells(img: Image, ls: (int, int), h: int, k: int, n: int)
    requires
        0 <= k < n <= 20,
        ({
            let p = measured_pairs(img.size as int)[k];
            1 <= diff_albedo_q(img, ls, h, p.2, p.3)
        }),
    ensures
        ({
            let p = measured_pairs(img.size as int)[k];
            let r = diff_albedo_q(img, ls, h, p.2, p.3);
            let m = measured_upto(img, ls, h, n);
            m[p.0 * 9 + p.1] == r as i64 && m[p.1 * 9 + p.0] == ((SCALE_SQ as int) / r) as i64
        }),
    decreases n,
{
    let s = img.size as int;
    lemma_pairs_shape(s);
    let p = measured_pairs(s)[k];
    let r = diff_albedo_q(img, ls, h, p.2, p.3);
    assert(r <= RATIO_MAX);
    lemma_measured_len(img, ls, h, n - 1);
    assert(0 <= p.0 * 9 + p.1 < 81 && 0 <= p.1 * 9 + p.0 < 81) by (nonlinear_arith)
        requires
            0 <= p.0 < 9,
            0 <= p.1 < 9,
    ;
    vstd::arithmetic::div_mod::lemma_div_nonincreasing(SCALE_SQ as int, r);
    vstd::arithmetic::div_mod::lemma_div_pos_is_pos(SCALE_SQ as int, r);
    if n - 1 == k {
        if p.0 * 9 + p.1 == p.1 * 9 + p.0 {
            lemma_cell_unique(p.0, p.1, p.1, p.0);
        }
    } else {
        lemma_measured_cells(img, ls, h, k, n - 1);
        let q = measured_pairs(s)[n - 1];
        let rq = diff_albedo_q(img, ls, h, q.2, q.3);
        if rq != 0 {
            // The later pair's two cells differ from both of pair k's cells.
            if q.0 * 9 + q.1 == p.0 * 9 + p.1 {
                lemma_cell_unique(q.0, q.1, p.0, p.1);
            }
            if q.0 * 9 + q.1 == p.1 * 9 + p.0 {
                lemma_cell_unique(q.0, q.1, p.1, p.0);
            }
            if q.1 * 9 + q.0 == p.0 * 9 + p.1 {
                lemma_cell_unique(q.1, q.0, p.0, p.1);
            }
            if q.1 * 9 + q.0 == p.1 * 9 + p.0 {
                lemma_cell_unique(q.1, q.0, p.1, p.0);
            }
        }
    }
}

/// Propagation only fills cells that are still zero: a nonzero cell keeps
/// its value.
proof fn lemma_propagate_keeps(m: Seq<i64>, n: int, c: int)
    requires
        m.len() == 81,
        0 <= c < 81,
        m[c] != 0,
        0 <= n <= 81,
    ensures
        propagate_upto(m, n).len() == 81,
        propagate_upto(m, n)[c] == m[c],
    decreases n,
{
    if n > 0 {
        lemma_propagate_keeps(m, n - 1, c);
    }
}

/// Reciprocal consistency of the built ratio matrix on its measured pairs:
/// where the k-th border pair measured a valid ratio r, the matrix holds r
/// in the pair's cell, its floored reciprocal in the mirror cell, and their
/// product lands within one measured step of unity squared (in
/// SCALE-squared units, the fixed-point representation of one).
pub proof fn lemma_matrix_measured_reciprocal(img: Image, ls: (int, int), h: int, k: int)
    requires
        0 <= k < 20,
        ({
            let p = measured_pairs(img.size as int)[k];
            1 <= diff_albedo_q(img, ls, h, p.2, p.3)
        }),
    ensures
        ({
            let p = measured_pairs(img.size as int)[k];
            let r = diff_albedo_q(img, ls, h, p.2, p.3);
            let m = albedo_matrix(img, ls, h);
            &&& m[p.0 * 9 + p.1] == r as i64
            &&& m[p.1 * 9 + p.0] == ((SCALE_SQ as int) / r) as i64
            &&& (SCALE_SQ as int) - r < (m[p.0 * 9 + p.1] as int) * (m[p.1 * 9 + p.0] as int)
                <= SCALE_SQ as int
        }),
{
    let s = img.size as int;
    lemma_pairs_shape(s);
    let p = measured_pairs(s)[k];
    let r = diff_albedo_q(img, ls, h, p.2, p.3);
    assert(r <= RATIO_MAX);
    lemma_measured_cells(img, ls, h, k, 20);
    lemma_measured_len(img, ls, h, 20);
    let mm = measured_upto(img, ls, h, 20);
    assert(0 <= p.0 * 9 + p.1 < 81 && 0 <= p.1 * 9 + p.0 < 81) by (nonlinear_arith)
        requires
            0 <= p.0 < 9,
            0 <= p.1 < 9,
    ;
    let q = (SCALE_SQ as int) / r;
    vstd::arithmetic::div_mod::lemma_div_nonincreasing(SCALE_SQ as int, r);
    vstd::arithmetic::div_mod::lemma_div_non_zero(SCALE_SQ as int, r);
    lemma_propagate_keeps(mm, 81, p.0 * 9 + p.1);
    lemma_propagate_keeps(mm, 81, p.1 * 9 + p.0);
    vstd::arithmetic::div_mod::lemma_fundamental_div_mod(SCALE_SQ as int, r);
    assert(0 <= (SCALE_SQ as int) % r < r) by {
        vstd::arithmetic::div_mod::lemma_mod_division_less_than_divisor(SCALE_SQ as int, r);
    };
}

/// Entries of the ratio matrix stay within [0, RATIO_MAX].
pub open spec fn matrix_wf(m: Seq<i64>) -> bool {
    m.len() == 81 && forall|t: int| 0 <= t < 81 ==> 0 <= #[trigger] m[t] <= RATIO_MAX
}

/// Builds the full 9x9 pairwise ratio matrix: measured border pairs with
/// reciprocal mirrors, then center-patch propagation for the rest.
pub fn build_albedo_matrix(img: &Image, ls: (i32, i32), h: u32) -> (m: Vec<i64>)
    requires
        img.wf(),
        -1_300_000 <= ls.0 <= 1_300_000,
        -1_300_000 <= ls.1 <= 1_300_000,
        h <= HEIGHT_MAX,
    ensures
        m@ == albedo_matrix(*img, (ls.0 as int, ls.1 as int), h as int),
        matrix_wf(m@),
{
    let ghost ls_i = (ls.0 as int, ls.1 as int);
    // Seed: unit self-ratios on the diagonal.
    let mut m: Vec<i64> = Vec::new();
    let mut t: usize = 0;
    while t < 81
        invariant
            t <= 81,
            m.len() == t,
            forall|u: int|
                0 <= u < t ==> #[trigger] m[u] == (if u / 9 == u % 9 {
                    SCALE
                } else {
                    0i64
                }),
        decreases 81 - t,
    {
        if t / 9 == t % 9 {
            m.push(SCALE);
        } else {
            m.push(0);
        }
        t = t + 1;
    }
    proof {
        assert(m@ =~= measured_upto(*img, ls_i, h as int, 0));
        assert(forall|u: int| 0 <= u < 81 ==> 0 <= #[trigger] m@[u] <= RATIO_MAX);
    }
    // Directly measured border pairs, with reciprocal mirrors.
    let pairs = measured_pairs_list(img.size);
    let mut k: usize = 0;
    while k < 20
        invariant
            img.wf(),
            -1_300_000 <= ls.0 <= 1_300_000,
            -1_300_000 <= ls.1 <= 1_300_000,
            h <= HEIGHT_MAX,
            ls_i == (ls.0 as int, ls.1 as int),
            pairs.len() == 20,
            forall|u: int|
                0 <= u < 20 ==> {
                    let p = measured_pairs(img.size as int)[u];
                    let q = #[trigger] pairs[u];
                    q.0 == p.0 && q.1 == p.1 && q.2.0 == p.2.0 && q.2.1 == p.2.1 && q.3.0 == p.3.0
                        && q.3.1 == p.3.1
                },
            forall|u: int|
                0 <= u < 20 ==> {
                    let q = #[trigger] pairs[u];
                    q.0 < 9 && q.1 < 9 && q.2.0 < 3 * img.size && q.2.1 < 3 * img.size && q.3.0 < 3
                        * img.size && q.3.1 < 3 * img.size
                },
            k <= 20,
            m.len() == 81,
            m@ == measured_upto(*img, ls_i, h as int, k as int),
            forall|u: int| 0 <= u < 81 ==> 0 <= #[trigger] m[u] <= RATIO_MAX,
        decreases 20 - k,
    {
        let p = pairs[k];
        let ratio: i64 = count_diff_albedo(img, ls, h, p.2, p.3);
        let ghost pre = m@;
        if ratio != 0 {
            proof {
                vstd::arithmetic::div_mod::lemma_div_nonincreasing(SCALE_SQ as int, ratio as int);
                vstd::arithmetic::div_mod::lemma_div_pos_is_pos(SCALE_SQ as int, ratio as int);
            }
            m.set(p.0 * 9 + p.1, ratio);
            m.set(p.1 * 9 + p.0, SCALE_SQ / ratio);
        }
        proof {
            assert(m@ =~= set_pair(
                pre,
                pairs[k as int].0 as int,
                pairs[k as int].1 as int,
                ratio as int,
            ));
        }
        k = k + 1;
    }
    // Propagate unmeasured cells through the center patch.
    let mut t: usize = 0;
    while t < 81
        invariant
            t <= 81,
            m.len() == 81,
            m@ == propagate_upto(measured_upto(*img, ls_i, h as int, 20), t as int),
            forall|u: int| 0 <= u < 81 ==> 0 <= #[trigger] m[u] <= RATIO_MAX,
        decreases 81 - t,
    {
        let i: usize = t / 9;
        let j: usize = t % 9;
        let ghost pre = m@;
        if m[t] == 0 {
            let a: i64 = m[i * 9 + 4];
            let b: i64 = m[4 * 9 + j];
            assert(0 <= (a as i128) * (b as i128) <= 1_000_000_000_000_000_000_000_000)
                by (nonlinear_arith)
                requires
                    0 <= a <= 1_000_000_000_000,
                    0 <= b <= 1_000_000_000_000,
            ;
            let prod: i128 = (a as i128) * (b as i128) / (SCALE as i128);
            let v: i64 = if prod > RATIO_MAX as i128 {
                RATIO_MAX
            } else {
                prod as i64
            };
            proof {
                vstd::arithmetic::div_mod::lemma_div_pos_is_pos(
                    (a as i128) * (b as i128) as int,
                    SCALE as int,
                );
            }
            m.set(t, v);
        }
        proof {
            assert(m@ =~= propagate_cell(pre, t as int));
        }
        t = t + 1;
    }
    m
}

/// Recovers the relative per-patch albedo vector from the rendered image and
/// the location and height estimates: every entry is the patch's albedo as a
/// fraction (in SCALE units, capped at RATIO_MAX) of the brightest patch's.
pub fn solve_albedo(img: &Image, ls: (i32, i32), h: u32) -> (r: Vec<i64>)
    requires
        img.wf(),
        -1_300_000 <= ls.0 <= 1_300_000,
        -1_300_000 <= ls.1 <= 1_300_000,
        h <= HEIGHT_MAX,
    ensures
        r@.len() == 9,
        r@ == solve_albedo_spec(*img, (ls.0 as int, ls.1 as int), h as int),
{
    let ghost ls_i = (ls.0 as int, ls.1 as int);
    let m = build_albedo_matrix(img, ls, h);
    // Identify the brightest and dimmest rows.
    let ghost mm = m@;
    let mut max_row: usize = 0;
    let mut cur_greater: usize = 0;
    let mut min_row: usize = 0;
    let mut cur_smaller: usize = 0;
    let mut i: usize = 0;
    while i < 9
        invariant
            mm == m@,
            m.len() == 81,
            i <= 9,
            max_row < 9,
            min_row < 9,
            (max_row as int, cur_greater as int, min_row as int, cur_smaller as int)
                == best_rows_upto(mm, i as int),
            cur_greater <= 9,
            cur_smaller <= 9,
        decreases 9 - i,
    {
        let mut large_count: usize = 0;
        let mut small_count: usize = 0;
        let mut j: usize = 0;
        while j < 9
            invariant
                mm == m@,
                m.len() == 81,
                i < 9,
                j <= 9,
                large_count as int == row_large_count(mm, i as int, j as int),
                small_count as int == row_small_count(mm, i as int, j as int),
                large_count <= j,
                small_count <= j,
            decreases 9 - j,
        {
            if j != i {
                if m[i * 9 + j] < SCALE {
                    small_count = small_count + 1;
                } else {
                    large_count = large_count + 1;
                }
            }
            j = j + 1;
        }
        if large_count > cur_greater {
            max_row = i;
            cur_greater = large_count;
        }
        if small_count > cur_smaller {
            min_row = i;
            cur_smaller = small_count;
        }
        i = i + 1;
    }
    // Report each patch relative to the brightest one.
    let mut out: Vec<i64> = Vec::new();
    let mut i: usize = 0;
    while i < 9
        invariant
            mm == m@,
            m.len() == 81,
            max_row < 9,
            i <= 9,
            out.len() == i,
            forall|u: int| 0 <= u < i ==> #[trigger] out[u] == mm[u * 9 + max_row as int],
        decreases 9 - i,
    {
        out.push(m[i * 9 + max_row]);
        i = i + 1;
    }
    proof {
        assert(out@ =~= solve_albedo_spec(*img, ls_i, h as int));
    }
    out
}

} // verus!
