//! A 3x3 median filter over the rendered image, used to knock down additive
//! noise before estimation.  Border pixels clamp their window to the image.

use vstd::prelude::*;
use vstd::seq_lib::lemma_sorted_unique;
use vstd::relations::{sorted_by, total_ordering};
use vstd::multiset::Multiset;
use crate::fixed::SCALE;
use crate::render::{lemma_flat_index, pixel_count, Image};

verus! {

/// The ordering the median is taken under.
pub open spec fn le_i64() -> spec_fn(i64, i64) -> bool {
    |a: i64, b: i64| a <= b
}

/// The i64 ordering is total.
pub proof fn lemma_le_i64_total()
    ensures
        total_ordering(le_i64()),
{
    let leq = le_i64();
    assert(vstd::relations::reflexive(leq)) by {
        assert forall|a: i64| #[trigger] leq(a, a) by {}
    };
    assert(vstd::relations::antisymmetric(leq)) by {
        assert forall|a: i64, b: i64| #[trigger] leq(a, b) && #[trigger] leq(b, a) implies a == b by {}
    };
    assert(vstd::relations::transitive(leq)) by {
        assert forall|a: i64, b: i64, c: i64| #[trigger] leq(a, b) && #[trigger] leq(b, c) implies leq(
            a,
            c,
        ) by {}
    };
    assert(vstd::relations::strongly_connected(leq)) by {
        assert forall|a: i64, b: i64| #[trigger] leq(a, b) || #[trigger] leq(b, a) by {}
    };
}

/// The window entry the filter keeps: the upper median of the sorted window
/// (index (n+1)/2 of n entries).
pub open spec fn median9(w: Seq<i64>) -> i64 {
    w.sort_by(le_i64())[(w.len() + 1) as int / 2]
}

/// Picks the upper median of a 3x3 window by selection sort.
pub fn filter_single_value(patch: &Vec<i64>) -> (r: i64)
    requires
        patch.len() == 9,
    ensures
        r == median9(patch@),
        patch@.contains(r),
{
    let mut rest: Vec<i64> = Vec::new();
    let mut i: usize = 0;
    while i < patch.len()
        invariant
            patch.len() == 9,
            i <= 9,
            rest@ == patch@.subrange(0, i as int),
        decreases patch.len() - i,
    {
        rest.push(patch[i]);
        proof {
            assert(rest@ =~= patch@.subrange(0, i + 1));
        }
        i = i + 1;
    }
    proof {
        assert(rest@ =~= patch@);
    }
    let mut out: Vec<i64> = Vec::new();
    proof {
        broadcast use vstd::seq_lib::group_to_multiset_ensures;
        broadcast use vstd::multiset::group_multiset_axioms;

        assert forall|x: i64|
            out@.to_multiset().add(rest@.to_multiset()).count(x) == patch@.to_multiset().count(
                x,
            ) by {
            assert(!out@.contains(x));
        };
        assert(out@.to_multiset().add(rest@.to_multiset()) =~= patch@.to_multiset());
    }
    while rest.len() > 0
        invariant
            out@.to_multiset().add(rest@.to_multiset()) == patch@.to_multiset(),
            out.len() + rest.len() == 9,
            sorted_by(out@, le_i64()),
            forall|a: int, b: int|
                0 <= a < out.len() && 0 <= b < rest.len() ==> #[trigger] out[a] <= #[trigger] rest[b],
        decreases rest.len(),
    {
        let mut mi: usize = 0;
        let mut u: usize = 1;
        while u < rest.len()
            invariant
                rest.len() > 0,
                mi < rest.len(),
                u <= rest.len(),
                forall|w: int| 0 <= w < u ==> rest[mi as int] <= #[trigger] rest[w],
            decreases rest.len() - u,
        {
            if rest[u] < rest[mi] {
                mi = u;
            }
            u = u + 1;
        }
        let ghost pre_out = out@;
        let ghost pre_rest = rest@;
        let v: i64 = rest.remove(mi);
        out.push(v);
        proof {
            broadcast use vstd::seq_lib::group_to_multiset_ensures;
            broadcast use vstd::multiset::group_multiset_axioms;

            assert(out@.to_multiset() =~= pre_out.to_multiset().insert(v));
            assert(rest@.to_multiset() =~= pre_rest.to_multiset().remove(v));
            assert(pre_rest.contains(v));
            assert(pre_rest.to_multiset().count(v) > 0);
            assert(out@.to_multiset().add(rest@.to_multiset()) =~= pre_out.to_multiset().add(
                pre_rest.to_multiset(),
            ));
            assert forall|a: int| 0 <= a < out@.len() - 1 implies le_i64()(out@[a], v) by {
                assert(pre_out[a] <= pre_rest[mi as int]);
            };
        }
    }
    proof {
        lemma_le_i64_total();
        broadcast use vstd::multiset::group_multiset_axioms;

        patch@.lemma_sort_by_ensures(le_i64());
        broadcast use vstd::seq_lib::group_to_multiset_ensures;

        assert forall|x: i64| out@.to_multiset().count(x) == patch@.to_multiset().count(x) by {
            assert(!rest@.contains(x));
            assert(rest@.to_multiset().count(x) == 0);
        };
        assert(out@.to_multiset() =~= patch@.to_multiset());
        lemma_sorted_unique(out@, patch@.sort_by(le_i64()), le_i64());
        assert(out@ == patch@.sort_by(le_i64()));
        broadcast use vstd::seq_lib::group_to_multiset_ensures;

        assert(out@.to_multiset().count(out@[5]) > 0);
        assert(patch@.contains(out@[5]));
    }
    out[5]
}

/// A coordinate clamped into [0, side).
pub open spec fn clamp_coord(v: int, side: int) -> int {
    if v < 0 {
        0
    } else if v > side - 1 {
        side - 1
    } else {
        v
    }
}

/// The 3x3 window around pixel (j, k) of a 3*size square array, clamped at
/// the border, in scan order.
pub open spec fn window9(data: Seq<i64>, size: int, j: int, k: int) -> Seq<i64> {
    Seq::new(
        9,
        |w: int|
            data[clamp_coord(j + w / 3 - 1, 3 * size) * (3 * size) + clamp_coord(
                k + w % 3 - 1,
                3 * size,
            )],
    )
}

/// The median-filtered copy of a 3*size square array.
pub open spec fn median_filtered(data: Seq<i64>, size: int) -> Seq<i64> {
    Seq::new(
        data.len(),
        |t: int| median9(window9(data, size, t / (3 * size), t % (3 * size))),
    )
}

/// Executable coordinate clamp.
fn clamp_coord_usize(v: i64, side: usize) -> (r: usize)
    requires
        1 <= side <= 9_000,
        -10 <= v <= 100_000,
    ensures
        r == clamp_coord(v as int, side as int),
        r < side,
{
    if v < 0 {
        0
    } else if v > side as i64 - 1 {
        side - 1
    } else {
        v as usize
    }
}

/// Replaces every pixel with the upper median of its 3x3 neighborhood.
pub fn median_filter_image(array: &Image) -> (r: Image)
    requires
        array.wf(),
    ensures
        r.wf(),
        r.size == array.size,
        r.data@ == median_filtered(array.data@, array.size as int),
{
    let size: usize = array.size;
    let side: usize = 3 * size;
    let total: usize = pixel_count(size);
    let mut data: Vec<i64> = Vec::new();
    let mut t: usize = 0;
    while t < total
        invariant
            array.wf(),
            size == array.size,
            side == 3 * size,
            total == 9 * size * size,
            t <= total,
            data.len() == t,
            forall|u: int|
                0 <= u < t ==> #[trigger] data[u] == median9(
                    window9(array.data@, array.size as int, u / (3 * array.size as int), u % (3
                        * array.size as int)),
                ),
            forall|u: int| 0 <= u < t ==> 0 <= #[trigger] data[u] <= SCALE,
        decreases total - t,
    {
        proof {
            lemma_flat_index(t as int, size as int);
        }
        let j: usize = t / side;
        let k: usize = t % side;
        let mut win: Vec<i64> = Vec::new();
        let mut w: usize = 0;
        while w < 9
            invariant
                array.wf(),
                size == array.size,
                side == 3 * size,
                j < side,
                k < side,
                w <= 9,
                win.len() == w,
                forall|u: int|
                    0 <= u < w ==> #[trigger] win[u] == window9(
                        array.data@,
                        array.size as int,
                        j as int,
                        k as int,
                    )[u],
                forall|u: int| 0 <= u < w ==> 0 <= #[trigger] win[u] <= SCALE,
            decreases 9 - w,
        {
            let jj: usize = clamp_coord_usize(j as i64 + (w / 3) as i64 - 1, side);
            let kk: usize = clamp_coord_usize(k as i64 + (w % 3) as i64 - 1, side);
            proof {
                crate::height::lemma_pixel_cell(size as int, jj as int, kk as int);
            }
            let v: i64 = array.data[jj * side + kk];
            win.push(v);
            w = w + 1;
        }
        proof {
            assert(win@ =~= window9(array.data@, array.size as int, j as int, k as int));
        }
        let m: i64 = filter_single_value(&win);
        proof {
            let wi = choose|wi: int| 0 <= wi < win@.len() && win@[wi] == m;
            assert(0 <= win@[wi] <= SCALE);
        }
        data.push(m);
        t = t + 1;
    }
    let r = Image { size, data };
    proof {
        assert(r.data@ =~= median_filtered(array.data@, array.size as int));
    }
    r
}

} // verus!
