//! Between linear intensity arrays and displayable 8-bit grayscale buffers:
//! gamma encoding, per-image auto-exposure, ingestion of an external 8-bit
//! image, and the batch scorer's summed squared difference.

use vstd::prelude::*;
use crate::fixed::{round_div, round_div_i64, SCALE};
use crate::geometry::SIZE_MAX;
use crate::render::{pixel_count, Image};
use crate::roots::sq;
use crate::srgb::{clinear_to_srgb, clinear_to_srgb_q, srgb8_to_clinear_q, srgb_to_clinear};

verus! {

/// Largest entry of a sequence (0 for the empty sequence).
pub open spec fn seq_max(s: Seq<i64>) -> int
    decreases s.len(),
{
    if s.len() == 0 {
        0
    } else if s.len() == 1 {
        s.last() as int
    } else {
        let m = seq_max(s.drop_last());
        if s.last() as int > m {
            s.last() as int
        } else {
            m
        }
    }
}

/// Smallest entry of a sequence (0 for the empty sequence).
pub open spec fn seq_min(s: Seq<i64>) -> int
    decreases s.len(),
{
    if s.len() == 0 {
        0
    } else if s.len() == 1 {
        s.last() as int
    } else {
        let m = seq_min(s.drop_last());
        if (s.last() as int) < m {
            s.last() as int
        } else {
            m
        }
    }
}

/// Every entry is bounded by the maximum.
pub proof fn lemma_seq_max_ge(s: Seq<i64>, i: int)
    requires
        0 <= i < s.len(),
    ensures
        s[i] <= seq_max(s),
    decreases s.len(),
{
    if i + 1 == s.len() {
    } else {
        lemma_seq_max_ge(s.drop_last(), i);
    }
}

/// A lower bound on every entry bounds the minimum of a nonempty sequence.
pub proof fn lemma_seq_min_ge(s: Seq<i64>, b: int)
    requires
        s.len() >= 1,
        forall|i: int| 0 <= i < s.len() ==> #[trigger] s[i] >= b,
    ensures
        seq_min(s) >= b,
    decreases s.len(),
{
    if s.len() > 1 {
        lemma_seq_min_ge(s.drop_last(), b);
    }
}

/// A bound on every entry bounds the maximum.
pub proof fn lemma_seq_max_le(s: Seq<i64>, b: int)
    requires
        0 <= b,
        forall|i: int| 0 <= i < s.len() ==> #[trigger] s[i] <= b,
    ensures
        seq_max(s) <= b,
    decreases s.len(),
{
    if s.len() > 1 {
        lemma_seq_max_le(s.drop_last(), b);
    }
}

/// Finds the smallest and largest intensity of a nonempty array.
pub fn find_min_max(arr: &Vec<i64>) -> (r: (i64, i64))
    requires
        arr.len() >= 1,
    ensures
        r.0 == seq_min(arr@),
        r.1 == seq_max(arr@),
{
    let mut min: i64 = arr[0];
    let mut max: i64 = arr[0];
    let mut i: usize = 1;
    proof {
        assert(arr@.subrange(0, 1).drop_last() =~= Seq::<i64>::empty());
        assert(arr@.subrange(0, 1).last() == arr@[0]);
    }
    while i < arr.len()
        invariant
            1 <= i <= arr.len(),
            min == seq_min(arr@.subrange(0, i as int)),
            max == seq_max(arr@.subrange(0, i as int)),
        decreases arr.len() - i,
    {
        proof {
            assert(arr@.subrange(0, i + 1).drop_last() =~= arr@.subrange(0, i as int));
            assert(arr@.subrange(0, i + 1).last() == arr@[i as int]);
        }
        if arr[i] > max {
            max = arr[i];
        }
        if arr[i] < min {
            min = arr[i];
        }
        i = i + 1;
    }
    proof {
        assert(arr@.subrange(0, arr.len() as int) =~= arr@);
    }
    (min, max)
}

/// Gamma-encodes every pixel of a linear array.
pub fn prep_arr(arr: &Vec<i64>) -> (r: Vec<i64>)
    requires
        forall|t: int| 0 <= t < arr.len() ==> 0 <= #[trigger] arr[t] <= SCALE,
    ensures
        r.len() == arr.len(),
        forall|t: int| 0 <= t < r.len() ==> #[trigger] r[t] == clinear_to_srgb_q(arr[t] as int),
        forall|t: int| 0 <= t < r.len() ==> 0 <= #[trigger] r[t] <= SCALE,
{
    let mut r: Vec<i64> = Vec::new();
    let mut t: usize = 0;
    while t < arr.len()
        invariant
            forall|u: int| 0 <= u < arr.len() ==> 0 <= #[trigger] arr[u] <= SCALE,
            t <= arr.len(),
            r.len() == t,
            forall|u: int| 0 <= u < t ==> #[trigger] r[u] == clinear_to_srgb_q(arr[u] as int),
            forall|u: int| 0 <= u < t ==> 0 <= #[trigger] r[u] <= SCALE,
        decreases arr.len() - t,
    {
        let v: i64 = clinear_to_srgb(arr[t]);
        r.push(v);
        t = t + 1;
    }
    r
}

/// The displayed byte of pixel t: its gamma-encoded value rescaled so the
/// brightest pixel maps to 255 (zero for an all-dark image).
pub open spec fn display_byte(prepped: Seq<i64>, t: int) -> int {
    let m = seq_max(prepped);
    if m == 0 {
        0
    } else {
        round_div(255 * (prepped[t] as int), m)
    }
}

/// Quantizes a rendered image to an 8-bit grayscale buffer with the
/// brightest-pixel auto-exposure.
pub fn arr_to_img(img: &Image) -> (r: Vec<u8>)
    requires
        img.wf(),
    ensures
        r.len() == img.data.len(),
        forall|t: int|
            0 <= t < r.len() ==> #[trigger] r[t] == display_byte(
                prepped_of(img.data@),
                t,
            ),
{
    let prepped = prep_arr(&img.data);
    proof {
        assert(prepped@ =~= prepped_of(img.data@));
        assert(img.data.len() >= 1) by (nonlinear_arith)
            requires
                img.data.len() == 9 * img.size * img.size,
                img.size >= 1,
        ;
        lemma_seq_max_le(prepped@, SCALE as int);
    }
    let (_min, max) = find_min_max(&prepped);
    let mut r: Vec<u8> = Vec::new();
    let mut t: usize = 0;
    while t < prepped.len()
        invariant
            prepped.len() == img.data.len(),
            img.wf(),
            forall|u: int| 0 <= u < prepped.len() ==> 0 <= #[trigger] prepped[u] <= SCALE,
            prepped@ == prepped_of(img.data@),
            max == seq_max(prepped@),
            max <= SCALE,
            t <= prepped.len(),
            r.len() == t,
            forall|u: int| 0 <= u < t ==> #[trigger] r[u] == display_byte(prepped@, u),
        decreases prepped.len() - t,
    {
        let b: u8 = if max == 0 {
            0
        } else {
            proof {
                lemma_seq_max_ge(prepped@, t as int);
            }
            let q: i64 = round_div_i64(255 * prepped[t], max);
            assert(q < 256) by {
                assert(2 * (255 * prepped@[t as int]) + max < 256 * (2 * max)) by (nonlinear_arith)
                    requires
                        0 <= prepped@[t as int] <= max,
                        max >= 1,
                ;
                vstd::arithmetic::div_mod::lemma_multiply_divide_lt(
                    2 * (255 * prepped@[t as int]) + max,
                    2 * (max as int),
                    256,
                );
            };
            q as u8
        };
        r.push(b);
        t = t + 1;
    }
    r
}

/// The gamma-encoded copy of a linear array.
pub open spec fn prepped_of(s: Seq<i64>) -> Seq<i64> {
    Seq::new(s.len(), |t: int| clinear_to_srgb_q(s[t] as int) as i64)
}

/// Decodes an external 8-bit grayscale buffer into a linear image, or
/// nothing when the buffer does not cover a 3*size square.
pub fn img_from_srgb8(bytes: &Vec<u8>, size: usize) -> (r: Option<Image>)
    requires
        1 <= size <= SIZE_MAX,
    ensures
        match r {
            Some(img) => {
                &&& img.wf()
                &&& img.size == size
                &&& bytes.len() == 9 * size * size
                &&& forall|t: int|
                    0 <= t < img.data.len() ==> #[trigger] img.data[t] == srgb8_to_clinear_q(
                        bytes[t] as int,
                    )
            },
            None => bytes.len() != 9 * size * size,
        },
{
    let total: usize = pixel_count(size);
    if bytes.len() != total {
        return None;
    }
    let mut data: Vec<i64> = Vec::new();
    let mut t: usize = 0;
    while t < total
        invariant
            bytes.len() == total,
            t <= total,
            data.len() == t,
            forall|u: int|
                0 <= u < t ==> #[trigger] data[u] == srgb8_to_clinear_q(bytes[u] as int),
            forall|u: int| 0 <= u < t ==> 0 <= #[trigger] data[u] <= SCALE,
        decreases total - t,
    {
        let v: i64 = srgb_to_clinear(bytes[t]);
        data.push(v);
        t = t + 1;
    }
    Some(Image { size, data })
}

/// Summed squared difference, in linear space, over a prefix of two 8-bit
/// buffers.
pub open spec fn score_prefix(a: Seq<u8>, b: Seq<u8>, n: int) -> int
    decreases n,
{
    if n <= 0 {
        0
    } else {
        score_prefix(a, b, n - 1) + sq(
            srgb8_to_clinear_q(a[n - 1] as int) - srgb8_to_clinear_q(b[n - 1] as int),
        )
    }
}

/// Scores a candidate render against a reference image: the summed squared
/// difference of the two buffers decoded to linear space.
pub fn score_diff(a: &Vec<u8>, b: &Vec<u8>) -> (r: u128)
    requires
        a.len() == b.len(),
        a.len() <= 100_000_000,
    ensures
        r == score_prefix(a@, b@, a.len() as int),
{
    let mut acc: u128 = 0;
    let mut t: usize = 0;
    while t < a.len()
        invariant
            a.len() == b.len(),
            a.len() <= 100_000_000,
            t <= a.len(),
            acc == score_prefix(a@, b@, t as int),
            acc <= t * 4_000_000_000_000,
        decreases a.len() - t,
    {
        let va: i64 = srgb_to_clinear(a[t]);
        let vb: i64 = srgb_to_clinear(b[t]);
        let d: i64 = va - vb;
        assert(0 <= d * d <= 4_000_000_000_000) by (nonlinear_arith)
            requires
                -2_000_000 <= d <= 2_000_000,
        ;
        assert((t + 1) * 4_000_000_000_000 == t * 4_000_000_000_000 + 4_000_000_000_000)
            by (nonlinear_arith);
        acc = acc + ((d * d) as u128);
        t = t + 1;
    }
    acc
}

} // verus!
