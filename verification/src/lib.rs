//! Inverse-photometry estimation over a 3x3 reflective patch grid.
//!
//! A point light at a configurable ground position and height illuminates a
//! flat grid of nine differently reflective patches.  The library renders the
//! resulting top-down luminance image and then recovers, from the image alone,
//! the light's ground position (circumcenter voting over equal-intensity
//! clusters), its height (boundary ray casting), and the relative albedo of
//! each patch (pairwise border-ratio propagation).
//!
//! All luminance arithmetic is carried out in fixed-point micro-units
//! (`fixed::SCALE` per unit), so every stage of the pipeline is exact integer
//! computation with a proved contract.

pub mod fixed;
pub mod roots;
pub mod geometry;
pub mod srgb;
pub mod scene;
pub mod render;
pub mod display;
pub mod locate;
pub mod height;
pub mod albedo;
pub mod median;
pub mod parse;
pub mod pipeline;

use vstd::prelude::*;

verus! {

/// Tunables of one solving cycle, fixed up front: sampling caps for the
/// voting stage, the degenerate-patch check, and the minimum boundary
/// contrast the height stage accepts.
#[derive(Clone, Copy)]
pub struct SolveConfig {
    /// Most equal-intensity clusters kept per patch.
    pub cluster_cap: usize,
    /// Most point triples sampled per cluster.
    pub iter_take: usize,
    /// Whether near-constant patches are skipped during location voting.
    pub check_degenerate: bool,
    /// Intensity range under which a patch counts as near-constant.
    pub degenerate_eps: i64,
    /// Smallest cube-root intensity step accepted as a boundary sample.
    pub min_boundary_diff: i64,
}

impl SolveConfig {
    pub open spec fn wf(self) -> bool {
        &&& 1 <= self.cluster_cap <= 10_000
        &&& 1 <= self.iter_take <= 10_000_000
        &&& 0 < self.degenerate_eps <= fixed::SCALE
        &&& 0 <= self.min_boundary_diff <= fixed::SCALE
    }

    /// The canonical tuning: 60 clusters per patch, 5000 triples per
    /// cluster, degenerate-patch check on at one hundredth of the unit
    /// range, boundary contrast of two thousandths.
    pub fn standard() -> (r: SolveConfig)
        ensures
            r.wf(),
            r.cluster_cap == 60,
            r.iter_take == 5000,
            r.check_degenerate,
            r.degenerate_eps == 10_000,
            r.min_boundary_diff == 2_000,
    {
        SolveConfig {
            cluster_cap: 60,
            iter_take: 5000,
            check_degenerate: true,
            degenerate_eps: 10_000,
            min_boundary_diff: 2_000,
        }
    }
}

} // verus!
