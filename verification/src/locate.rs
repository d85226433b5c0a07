//! Location estimation: cluster each patch's pixels by quantized intensity,
//! sample point triples per cluster, vote for each triple's circumcenter, and
//! take the cell with the most votes.
//!
//! Under the photometric model the locus of equal intensity within one patch
//! is an arc centered at the light's ground projection, so circumcenters of
//! same-intensity triples accumulate there.

use vstd::prelude::*;
use itertools::Itertools;
use crate::fixed::SCALE;
use crate::geometry::{
    circ_den,
    circumcenter,
    get_circle_center,
    in_image,
    sat_i32,
    within_bound,
    SIZE_MAX,
};

use crate::render::Image;
use crate::display::{find_min_max, lemma_seq_max_le, lemma_seq_min_ge, seq_max, seq_min};

verus! {

/// A group of pixel coordinates sharing one quantized intensity level.
pub struct Cluster {
    pub key: i64,
    pub points: Vec<(i32, i32)>,
}

/// Intensity bucket of a fixed-point value: rounded to four decimal places
/// of the unit range.
pub open spec fn quant(v: int) -> int {
    (v + 50) / 100
}

/// Executable intensity bucket.
pub fn quant_i64(v: i64) -> (r: i64)
    requires
        0 <= v <= SCALE,
    ensures
        r == quant(v as int),
{
    (v + 50) / 100
}

/// The mathematical content of a cluster list: (key, points) pairs.
pub open spec fn cl_view(cs: Seq<Cluster>) -> Seq<(i64, Seq<(i32, i32)>)> {
    Seq::new(cs.len(), |i: int| (cs[i].key, cs[i].points@))
}

/// No two clusters share a bucket key.
pub open spec fn keys_distinct(cs: Seq<(i64, Seq<(i32, i32)>)>) -> bool {
    forall|i: int, j: int| 0 <= i < j < cs.len() ==> cs[i].0 != cs[j].0
}

/// Adds one pixel to the cluster list: appended to its bucket's cluster if
/// one exists, opening a new cluster while fewer than cap exist, and dropped
/// otherwise.
pub open spec fn add_point(
    cs: Seq<(i64, Seq<(i32, i32)>)>,
    key: i64,
    pt: (i32, i32),
    cap: int,
) -> Seq<(i64, Seq<(i32, i32)>)> {
    if exists|i: int| 0 <= i < cs.len() && cs[i].0 == key {
        let i = choose|i: int| 0 <= i < cs.len() && cs[i].0 == key;
        cs.update(i, (key, cs[i].1.push(pt)))
    } else if cs.len() < cap {
        cs.push((key, seq![pt]))
    } else {
        cs
    }
}

/// The intensity values of one patch, in scan order.
pub open spec fn patch_values(img: Image, loc: (usize, usize)) -> Seq<i64> {
    Seq::new(
        (img.size * img.size) as nat,
        |t: int|
            {
                let i = t / (img.size as int);
                let jj = t % (img.size as int);
                img.data[(loc.1 * img.size + i) * (3 * img.size as int) + loc.0 * img.size + jj]
            },
    )
}

/// Clusters of one patch after the first n pixels, scanned row by row.
pub open spec fn clusters_upto(img: Image, loc: (usize, usize), cap: int, n: int) -> Seq<
    (i64, Seq<(i32, i32)>),
>
    decreases n,
{
    if n <= 0 {
        Seq::empty()
    } else {
        let t = n - 1;
        let i = t / (img.size as int);
        let jj = t % (img.size as int);
        let px = loc.1 * img.size + i;
        let py = loc.0 * img.size + jj;
        let key = quant(img.at(px, py));
        add_point(
            clusters_upto(img, loc, cap, n - 1),
            key as i64,
            (px as i32, py as i32),
            cap,
        )
    }
}

/// The full cluster list of one patch.
pub open spec fn patch_clusters(img: Image, loc: (usize, usize), cap: int) -> Seq<
    (i64, Seq<(i32, i32)>),
> {
    clusters_upto(img, loc, cap, (img.size * img.size) as int)
}

/// A patch is degenerate when its intensity range stays below eps: it holds
/// no informative clusters.
pub open spec fn patch_degenerate(img: Image, loc: (usize, usize), eps: int) -> bool {
    seq_max(patch_values(img, loc)) - seq_min(patch_values(img, loc)) < eps
}

/// Finds the cluster holding the given bucket key.
fn find_cluster(cs: &Vec<Cluster>, key: i64) -> (r: Option<usize>)
    ensures
        match r {
            Some(i) => i < cs.len() && cs[i as int].key == key,
            None => forall|u: int| 0 <= u < cs.len() ==> (#[trigger] cs[u].key) != key,
        },
{
    let mut i: usize = 0;
    while i < cs.len()
        invariant
            i <= cs.len(),
            forall|u: int| 0 <= u < i ==> (#[trigger] cs[u].key) != key,
        decreases cs.len() - i,
    {
        if cs[i].key == key {
            return Some(i);
        }
        i = i + 1;
    }
    None
}

/// All cluster points of a list lie inside the image bounds.
pub open spec fn cluster_points_in_image(cs: Seq<Cluster>, size: int) -> bool {
    forall|i: int, p: int|
        0 <= i < cs.len() && 0 <= p < cs[i].points.len() ==> in_image(
            #[trigger] cs[i].points[p],
            size,
        )
}

/// Groups one patch's pixels into equal-intensity clusters, capped at cap
/// clusters.  The flag is false when the degeneracy check is enabled and the
/// patch's intensity range stays below eps; no clusters are produced then.
pub fn clusterize_patch(
    img: &Image,
    loc: (usize, usize),
    cap: usize,
    check_degenerate: bool,
    eps: i64,
) -> (r: (bool, Vec<Cluster>))
    requires
        img.wf(),
        loc.0 <= 2,
        loc.1 <= 2,
        0 < eps,
    ensures
        r.0 == !(check_degenerate && patch_degenerate(*img, loc, eps as int)),
        r.0 ==> cl_view(r.1@) == patch_clusters(*img, loc, cap as int),
        !r.0 ==> r.1.len() == 0,
        r.1.len() <= cap,
        keys_distinct(cl_view(r.1@)),
        cluster_points_in_image(r.1@, 3 * img.size as int),
{
    let size: usize = img.size;
    let side: usize = 3 * size;
    assert(1 <= size * size <= 9_000_000) by (nonlinear_arith)
        requires
            1 <= size <= 3000,
    ;
    let total: usize = size * size;
    // Gather the patch's values once, for the degeneracy check.
    let mut vals: Vec<i64> = Vec::new();
    let mut t: usize = 0;
    while t < total
        invariant
            img.wf(),
            loc.0 <= 2,
            loc.1 <= 2,
            size == img.size,
            side == 3 * size,
            total == size * size,
            total <= 9_000_000,
            t <= total,
            vals.len() == t,
            forall|u: int| 0 <= u < t ==> #[trigger] vals[u] == patch_values(*img, loc)[u],
            forall|u: int| 0 <= u < t ==> 0 <= #[trigger] vals[u] <= SCALE,
        decreases total - t,
    {
        let i: usize = t / size;
        let jj: usize = t % size;
        proof {
            lemma_patch_pixel(*img, loc, t as int);
        }
        let px: usize = loc.1 * size + i;
        let py: usize = loc.0 * size + jj;
        let v: i64 = img.data[px * side + py];
        vals.push(v);
        t = t + 1;
    }
    proof {
        assert(vals@ =~= patch_values(*img, loc));
        lemma_seq_max_le(vals@, SCALE as int);
        lemma_seq_min_ge(vals@, 0);
    }
    if check_degenerate {
        let (mn, mx) = find_min_max(&vals);
        if mx - mn < eps {
            return (false, Vec::new());
        }
    }
    let mut clusters: Vec<Cluster> = Vec::new();
    let mut t: usize = 0;
    while t < total
        invariant
            img.wf(),
            loc.0 <= 2,
            loc.1 <= 2,
            size == img.size,
            side == 3 * size,
            total == size * size,
            total <= 9_000_000,
            t <= total,
            cl_view(clusters@) == clusters_upto(*img, loc, cap as int, t as int),
            keys_distinct(cl_view(clusters@)),
            cluster_points_in_image(clusters@, 3 * img.size as int),
            clusters.len() <= cap,
        decreases total - t,
    {
        let i: usize = t / size;
        let jj: usize = t % size;
        proof {
            lemma_patch_pixel(*img, loc, t as int);
        }
        let px: usize = loc.1 * size + i;
        let py: usize = loc.0 * size + jj;
        let v: i64 = img.data[px * side + py];
        let key: i64 = quant_i64(v);
        let pt: (i32, i32) = (px as i32, py as i32);
        let ghost pre = cl_view(clusters@);
        match find_cluster(&clusters, key) {
            Some(i) => {
                let mut cl = clusters.remove(i);
                cl.points.push(pt);
                clusters.insert(i, cl);
                proof {
                    assert(pre[i as int].0 == key);
                    assert(exists|w: int| 0 <= w < pre.len() && pre[w].0 == key);
                    let w = choose|w: int| 0 <= w < pre.len() && pre[w].0 == key;
                    if w < i as int {
                        assert(pre[w].0 != pre[i as int].0);
                    } else if (i as int) < w {
                        assert(pre[i as int].0 != pre[w].0);
                    }
                    assert(w == i);
                    assert(cl_view(clusters@) =~= pre.update(i as int, (key, pre[i as int].1.push(pt))));
                    assert(cl_view(clusters@) =~= add_point(pre, key, pt, cap as int));
                }
            },
            None => {
                proof {
                    assert(forall|u: int| 0 <= u < pre.len() ==> (#[trigger] pre[u].0) != key);
                    assert(!(exists|w: int| 0 <= w < pre.len() && pre[w].0 == key));
                }
                if clusters.len() < cap {
                    let mut points: Vec<(i32, i32)> = Vec::new();
                    points.push(pt);
                    clusters.push(Cluster { key, points });
                    proof {
                        assert(cl_view(clusters@) =~= pre.push((key, seq![pt])));
                        assert(cl_view(clusters@) =~= add_point(pre, key, pt, cap as int));
                    }
                } else {
                    proof {
                        assert(cl_view(clusters@) =~= add_point(pre, key, pt, cap as int));
                    }
                }
            },
        }
        t = t + 1;
    }
    (true, clusters)
}

/// Shape facts for the t-th pixel of a patch: its absolute coordinates stay
/// inside the image and index the value that patch_values lists.
proof fn lemma_patch_pixel(img: Image, loc: (usize, usize), t: int)
    requires
        img.wf(),
        loc.0 <= 2,
        loc.1 <= 2,
        0 <= t < img.size * img.size,
    ensures
        0 <= t / (img.size as int) < img.size,
        0 <= t % (img.size as int) < img.size,
        loc.1 * img.size + t / (img.size as int) < 3 * img.size,
        loc.0 * img.size + t % (img.size as int) < 3 * img.size,
        (loc.1 * img.size + t / (img.size as int)) * (3 * img.size as int) + loc.0 * img.size + t
            % (img.size as int) < img.data.len(),
        patch_values(img, loc)[t] == img.data[(loc.1 * img.size + t / (img.size as int)) * (3
            * img.size as int) + loc.0 * img.size + t % (img.size as int)],
{
    let s = img.size as int;
    vstd::arithmetic::div_mod::lemma_mod_division_less_than_divisor(t, s);
    vstd::arithmetic::div_mod::lemma_div_pos_is_pos(t, s);
    assert(t < s * s) by (nonlinear_arith)
        requires
            t < img.size * img.size,
            s == img.size,
    ;
    vstd::arithmetic::div_mod::lemma_multiply_divide_lt(t, s, s);
    let px = loc.1 * s + t / s;
    let py = loc.0 * s + t % s;
    assert(loc.1 * s <= 2 * s && loc.0 * s <= 2 * s) by (nonlinear_arith)
        requires
            loc.0 <= 2,
            loc.1 <= 2,
            s >= 1,
    ;
    assert(px * (3 * s) + py < 9 * s * s) by (nonlinear_arith)
        requires
            0 <= px < 3 * s,
            0 <= py < 3 * s,
            s >= 1,
    ;
}

/// One sampled 3-point combination.
pub type Triple = ((i32, i32), (i32, i32), (i32, i32));

/// What itertools' lazy 3-combination enumeration of a point list yields
/// under a cap: a fixed sequence determined by the list and the cap alone.
pub uninterp spec fn combos3_of(points: Seq<(i32, i32)>, cap: int) -> Seq<Triple>;

/// Every triple of ts draws each of its three points from the point list.
pub open spec fn triples_from(ts: Seq<Triple>, points: Seq<(i32, i32)>) -> bool {
    forall|t: int|
        0 <= t < ts.len() ==> points.contains(#[trigger] ts[t].0) && points.contains(ts[t].1)
            && points.contains(ts[t].2)
}

/// Relies on itertools' Itertools::combinations: each yielded item is a
/// 3-element combination of the input's elements, in a fixed enumeration
/// order, and take keeps at most cap of them.
#[verifier::external_body]
fn combos3(points: &Vec<(i32, i32)>, cap: usize) -> (r: Vec<Triple>)
    ensures
        r@ == combos3_of(points@, cap as int),
        r@.len() <= cap,
        triples_from(r@, points@),
{
    points.iter().combinations(3).take(cap).map(|c| (*c[0], *c[1], *c[2])).collect()
}

/// The vote grid as mathematical counts.
pub open spec fn grid_view(g: Seq<u64>) -> Seq<int> {
    Seq::new(g.len(), |i: int| g[i] as int)
}

/// The integer pixel a triple votes for: the rounded circumcenter of the
/// three points, or nothing when they are collinear.
pub open spec fn vote_of(tr: Triple) -> Option<(int, int)> {
    let p1 = (tr.0.0 as int, tr.0.1 as int);
    let p2 = (tr.1.0 as int, tr.1.1 as int);
    let p3 = (tr.2.0 as int, tr.2.1 as int);
    if circ_den(p1, p2, p3) != 0 {
        let c = circumcenter(p1, p2, p3);
        Some((sat_i32(c.0), sat_i32(c.1)))
    } else {
        None
    }
}

/// Records one triple's vote: the grid cell of its circumcenter gains one
/// count when the center exists and lies inside the image.
pub open spec fn add_vote(g: Seq<int>, size: int, tr: Triple) -> Seq<int> {
    match vote_of(tr) {
        Some(c) => {
            if 0 <= c.0 < 3 * size && 0 <= c.1 < 3 * size {
                g.update(c.0 * (3 * size) + c.1, g[c.0 * (3 * size) + c.1] + 1)
            } else {
                g
            }
        },
        None => g,
    }
}

/// The grid after the first n triples of a sample have voted.
pub open spec fn tally_upto(g: Seq<int>, size: int, ts: Seq<Triple>, n: int) -> Seq<int>
    decreases n,
{
    if n <= 0 {
        g
    } else {
        add_vote(tally_upto(g, size, ts, n - 1), size, ts[n - 1])
    }
}

/// The grid after one cluster's capped triple sample has voted.
pub open spec fn tally_cluster(g: Seq<int>, size: int, points: Seq<(i32, i32)>, cap: int) -> Seq<
    int,
> {
    let ts = combos3_of(points, cap);
    tally_upto(g, size, ts, ts.len() as int)
}

/// The grid after the first n clusters of a patch have voted.
pub open spec fn tally_clusters_upto(
    g: Seq<int>,
    size: int,
    cs: Seq<(i64, Seq<(i32, i32)>)>,
    cap: int,
    n: int,
) -> Seq<int>
    decreases n,
{
    if n <= 0 {
        g
    } else {
        tally_cluster(tally_clusters_upto(g, size, cs, cap, n - 1), size, cs[n - 1].1, cap)
    }
}

/// The grid after one whole patch has voted (unchanged for a skipped
/// degenerate patch).
pub open spec fn tally_patch(g: Seq<int>, img: Image, loc: (usize, usize), cfg: crate::SolveConfig) -> Seq<
    int,
> {
    if cfg.check_degenerate && patch_degenerate(img, loc, cfg.degenerate_eps as int) {
        g
    } else {
        let cs = patch_clusters(img, loc, cfg.cluster_cap as int);
        tally_clusters_upto(g, img.size as int, cs, cfg.iter_take as int, cs.len() as int)
    }
}

/// The nine patch cells, in scan order.
pub open spec fn locations() -> Seq<(usize, usize)> {
    seq![
        (0usize, 0usize),
        (0usize, 1usize),
        (0usize, 2usize),
        (1usize, 0usize),
        (1usize, 1usize),
        (1usize, 2usize),
        (2usize, 0usize),
        (2usize, 1usize),
        (2usize, 2usize),
    ]
}

/// The grid after the first n patches have voted.
pub open spec fn tally_all_upto(g: Seq<int>, img: Image, cfg: crate::SolveConfig, n: int) -> Seq<
    int,
>
    decreases n,
{
    if n <= 0 {
        g
    } else {
        tally_patch(tally_all_upto(g, img, cfg, n - 1), img, locations()[n - 1], cfg)
    }
}

/// The complete vote grid of one image.
pub open spec fn vote_grid(img: Image, cfg: crate::SolveConfig) -> Seq<int> {
    tally_all_upto(Seq::new((9 * img.size * img.size) as nat, |i: int| 0), img, cfg, 9)
}

/// Index of the first maximal entry among the first n (0 for n <= 1).
pub open spec fn argmax_upto(g: Seq<int>, n: int) -> int
    decreases n,
{
    if n <= 1 {
        0
    } else {
        let p = argmax_upto(g, n - 1);
        if g[n - 1] > g[p] {
            n - 1
        } else {
            p
        }
    }
}

/// The location estimate: the cell with the most votes, or nothing when no
/// valid vote accumulated at all.
pub open spec fn solve_loc_spec(img: Image, cfg: crate::SolveConfig) -> Option<(i32, i32)> {
    let g = vote_grid(img, cfg);
    let a = argmax_upto(g, g.len() as int);
    if g[a] == 0 {
        None
    } else {
        Some(((a / (3 * img.size as int)) as i32, (a % (3 * img.size as int)) as i32))
    }
}

/// One cluster's bounded triple sampling: every non-collinear triple's
/// rounded circumcenter inside the image gains one vote in the grid.
#[verifier::rlimit(50)]
fn process_cluster(grid: &mut Vec<u64>, size: usize, points: &Vec<(i32, i32)>, cap: usize)
    requires
        1 <= size <= SIZE_MAX,
        cap <= 10_000_000,
        old(grid).len() == 9 * size * size,
        forall|c: int|
            0 <= c < old(grid).len() ==> #[trigger] old(grid)[c] <= 1_000_000_000_000_000u64,
        forall|p: int|
            0 <= p < points.len() ==> in_image(#[trigger] points[p], 3 * size as int),
    ensures
        final(grid).len() == old(grid).len(),
        grid_view(final(grid)@) == tally_cluster(
            grid_view(old(grid)@),
            size as int,
            points@,
            cap as int,
        ),
        forall|c: int|
            0 <= c < final(grid).len() ==> old(grid)[c] <= #[trigger] final(grid)[c]
                && final(grid)[c] <= old(grid)[c] + cap,
{
    let ts: Vec<Triple> = combos3(points, cap);
    let ghost g0 = grid_view(old(grid)@);
    let side: usize = 3 * size;
    let mut i: usize = 0;
    while i < ts.len()
        invariant
            1 <= size <= SIZE_MAX,
            cap <= 10_000_000,
            side == 3 * size,
            ts@ == combos3_of(points@, cap as int),
            ts@.len() <= cap,
            triples_from(ts@, points@),
            forall|p: int|
                0 <= p < points.len() ==> in_image(#[trigger] points[p], 3 * size as int),
            g0 == grid_view(old(grid)@),
            g0.len() == 9 * size * size,
            forall|c: int|
                0 <= c < old(grid).len() ==> #[trigger] old(grid)[c]
                    <= 1_000_000_000_000_000u64,
            i <= ts.len(),
            grid.len() == old(grid).len(),
            grid_view(grid@) == tally_upto(g0, size as int, ts@, i as int),
            forall|c: int|
                0 <= c < grid.len() ==> old(grid)[c] <= #[trigger] grid[c] && grid[c] <= old(
                    grid,
                )[c] + i,
        decreases ts.len() - i,
    {
        let tr: Triple = ts[i];
        proof {
            assert(points@.contains(ts@[i as int].0));
            assert(points@.contains(ts@[i as int].1));
            assert(points@.contains(ts@[i as int].2));
            let pa = choose|w: int| 0 <= w < points@.len() && points@[w] == ts@[i as int].0;
            let pb = choose|w: int| 0 <= w < points@.len() && points@[w] == ts@[i as int].1;
            let pc = choose|w: int| 0 <= w < points@.len() && points@[w] == ts@[i as int].2;
            assert(in_image(tr.0, 3 * size as int));
            assert(in_image(tr.1, 3 * size as int));
            assert(in_image(tr.2, 3 * size as int));
        }
        let (approved, center) = get_circle_center(&tr.0, &tr.1, &tr.2);
        let ghost pre = grid_view(grid@);
        if approved && within_bound(center, size) {
            let cx: usize = center.0 as usize;
            let cy: usize = center.1 as usize;
            assert(cx * side + cy < 9 * size * size) by (nonlinear_arith)
                requires
                    0 <= cx < 3 * size,
                    0 <= cy < 3 * size,
                    side == 3 * size,
                    1 <= size,
            ;
            let idx: usize = cx * side + cy;
            let old_v: u64 = grid[idx];
            proof {
                assert((idx as int) < old(grid).len());
                assert(old(grid)[idx as int] <= 1_000_000_000_000_000u64);
                assert(old_v <= old(grid)[idx as int] + i);
            }
            grid.set(idx, old_v + 1);
            proof {
                assert(grid_view(grid@) =~= add_vote(pre, size as int, ts@[i as int]));
            }
        } else {
            proof {
                assert(grid_view(grid@) =~= add_vote(pre, size as int, ts@[i as int]));
            }
        }
        i = i + 1;
    }
}

/// All clusters of one patch vote into the shared grid.
pub fn process_patch(grid: &mut Vec<u64>, size: usize, clusters: &Vec<Cluster>, cap_iter: usize)
    requires
        1 <= size <= SIZE_MAX,
        cap_iter <= 10_000_000,
        clusters.len() <= 10_000,
        old(grid).len() == 9 * size * size,
        forall|c: int|
            0 <= c < old(grid).len() ==> #[trigger] old(grid)[c] <= 900_000_000_000u64,
        cluster_points_in_image(clusters@, 3 * size as int),
    ensures
        final(grid).len() == old(grid).len(),
        grid_view(final(grid)@) == tally_clusters_upto(
            grid_view(old(grid)@),
            size as int,
            cl_view(clusters@),
            cap_iter as int,
            clusters.len() as int,
        ),
        forall|c: int|
            0 <= c < final(grid).len() ==> old(grid)[c] <= #[trigger] final(grid)[c]
                && final(grid)[c] as int <= old(grid)[c] + clusters.len() * cap_iter,
{
    let ghost g0 = grid_view(old(grid)@);
    let mut i: usize = 0;
    while i < clusters.len()
        invariant
            1 <= size <= SIZE_MAX,
            cap_iter <= 10_000_000,
            clusters.len() <= 10_000,
            cluster_points_in_image(clusters@, 3 * size as int),
            g0 == grid_view(old(grid)@),
            g0.len() == 9 * size * size,
            forall|c: int|
                0 <= c < old(grid).len() ==> #[trigger] old(grid)[c] <= 900_000_000_000u64,
            i <= clusters.len(),
            grid.len() == old(grid).len(),
            grid_view(grid@) == tally_clusters_upto(
                g0,
                size as int,
                cl_view(clusters@),
                cap_iter as int,
                i as int,
            ),
            forall|c: int|
                0 <= c < grid.len() ==> old(grid)[c] <= #[trigger] grid[c] && grid[c] as int
                    <= old(grid)[c] + i * cap_iter,
        decreases clusters.len() - i,
    {
        assert(i * cap_iter + cap_iter == (i + 1) * cap_iter && i * cap_iter <= 10_000 * 10_000_000)
            by (nonlinear_arith)
            requires
                0 <= i < 10_000,
                cap_iter <= 10_000_000,
        ;
        assert forall|c: int| 0 <= c < grid.len() implies #[trigger] grid[c]
            <= 1_000_000_000_000_000u64 by {
            assert(old(grid)[c] <= 900_000_000_000u64);
            assert(grid[c] as int <= old(grid)[c] + i * cap_iter);
        };
        let _ = process_cluster(grid, size, &clusters[i].points, cap_iter);
        proof {
            assert(cl_view(clusters@)[i as int].1 == clusters@[i as int].points@);
        }
        i = i + 1;
    }
}

/// The nine patch cells in their scan order.
fn locations_list() -> (r: Vec<(usize, usize)>)
    ensures
        r@ == locations(),
{
    let mut r: Vec<(usize, usize)> = Vec::new();
    r.push((0, 0));
    r.push((0, 1));
    r.push((0, 2));
    r.push((1, 0));
    r.push((1, 1));
    r.push((1, 2));
    r.push((2, 0));
    r.push((2, 1));
    r.push((2, 2));
    proof {
        assert(r@ =~= locations());
    }
    r
}

/// Estimates the light's ground position: every patch's equal-intensity
/// clusters vote with circumcenters of sampled triples; the cell with the
/// most votes wins, and no estimate is produced when no valid vote
/// accumulated.
pub fn solve_loc(img: &Image, cfg: &crate::SolveConfig) -> (r: Option<(i32, i32)>)
    requires
        img.wf(),
        cfg.wf(),
    ensures
        r == solve_loc_spec(*img, *cfg),
        match r {
            Some(l) => 0 <= l.0 < 3 * img.size && 0 <= l.1 < 3 * img.size,
            None => true,
        },
{
    let size: usize = img.size;
    let total: usize = crate::render::pixel_count(size);
    let mut grid: Vec<u64> = Vec::new();
    let mut z: usize = 0;
    while z < total
        invariant
            z <= total,
            grid.len() == z,
            forall|c: int| 0 <= c < z ==> #[trigger] grid[c] == 0u64,
        decreases total - z,
    {
        grid.push(0);
        z = z + 1;
    }
    proof {
        assert(grid_view(grid@) =~= Seq::new((9 * img.size * img.size) as nat, |i: int| 0));
    }
    let locs = locations_list();
    let mut li: usize = 0;
    while li < 9
        invariant
            img.wf(),
            cfg.wf(),
            size == img.size,
            total == 9 * size * size,
            locs@ == locations(),
            li <= 9,
            grid.len() == total,
            grid_view(grid@) == tally_all_upto(
                Seq::new((9 * img.size * img.size) as nat, |i: int| 0),
                *img,
                *cfg,
                li as int,
            ),
            forall|c: int|
                0 <= c < grid.len() ==> #[trigger] grid[c] as int <= li * (10_000 * 10_000_000),
        decreases 9 - li,
    {
        let loc: (usize, usize) = locs[li];
        let ghost gpre = grid_view(grid@);
        let (valid, clusters) = clusterize_patch(
            img,
            loc,
            cfg.cluster_cap,
            cfg.check_degenerate,
            cfg.degenerate_eps,
        );
        if valid {
            assert(forall|c: int|
                0 <= c < grid.len() ==> #[trigger] grid[c] <= 900_000_000_000u64) by {
                assert(li * (10_000 * 10_000_000) <= 9 * (10_000 * 10_000_000)) by (nonlinear_arith)
                    requires
                        0 <= li <= 9,
                ;
            };
            process_patch(&mut grid, size, &clusters, cfg.iter_take);
            proof {
                assert(clusters.len() * cfg.iter_take as int <= 10_000 * 10_000_000)
                    by (nonlinear_arith)
                    requires
                        clusters.len() <= 10_000,
                        cfg.iter_take <= 10_000_000,
                ;
                assert(li as int * (10_000 * 10_000_000) + 10_000 * 10_000_000 == (li as int + 1) * (
                10_000 * 10_000_000)) by (nonlinear_arith);
                assert(grid_view(grid@) =~= tally_patch(gpre, *img, loc, *cfg));
            }
        } else {
            proof {
                assert(li as int * (10_000 * 10_000_000) <= (li as int + 1) * (10_000
                    * 10_000_000)) by (nonlinear_arith)
                    requires
                        0 <= li,
                ;
                assert(grid_view(grid@) =~= tally_patch(gpre, *img, loc, *cfg));
            }
        }
        li = li + 1;
    }
    // Arg-max scan over the accumulated votes.
    let ghost g = grid_view(grid@);
    proof {
        assert(total >= 1) by (nonlinear_arith)
            requires
                total == 9 * size * size,
                size >= 1,
        ;
    }
    let mut best: usize = 0;
    let mut c: usize = 1;
    while c < grid.len()
        invariant
            g == grid_view(grid@),
            grid.len() == total,
            1 <= total,
            1 <= c <= grid.len(),
            best < grid.len(),
            best as int == argmax_upto(g, c as int),
        decreases grid.len() - c,
    {
        if grid[c] > grid[best] {
            best = c;
        }
        c = c + 1;
    }
    let side: usize = 3 * size;
    if grid[best] == 0 {
        None
    } else {
        proof {
            crate::render::lemma_flat_index(best as int, size as int);
        }
        Some(((best / side) as i32, (best % side) as i32))
    }
}


} // verus!
