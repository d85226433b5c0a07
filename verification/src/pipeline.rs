//! The solving cycle: render the configured scene, then recover the light's
//! ground position, its height, and the relative patch albedos from the
//! rendered image alone.  The stages run strictly in that order; a stage
//! without a valid estimate leaves the previous value untouched.

use vstd::prelude::*;
use crate::albedo::{solve_albedo, solve_albedo_spec};
use crate::geometry::SIZE_MAX;
use crate::height::{solve_height, solve_height_spec};
use crate::locate::{solve_loc, solve_loc_spec};
use crate::median::{median_filter_image, median_filtered};
use crate::render::{rendered_seq, Image, LightSource, Noise, Scene};
use crate::scene::{patch_vec_wf, HEIGHT_MAX};
use crate::SolveConfig;

verus! {

/// A height estimate clamped into the model's accepted range.
pub open spec fn sat_height(h: int) -> int {
    if h > HEIGHT_MAX {
        HEIGHT_MAX as int
    } else if h < 0 {
        0
    } else {
        h
    }
}

/// The rendered-and-filtered intensity array of one cycle: the raw render,
/// passed through the median filter while noise is on.
pub open spec fn cycle_seq(scene: Scene, ls: LightSource, ns: Noise) -> Seq<i64> {
    let raw = rendered_seq(scene, ls, ns);
    if ns.is_on {
        median_filtered(raw, scene.size as int)
    } else {
        raw
    }
}

/// The complete simulation and inverse-solving state.
pub struct LightSimApp {
    pub light_source: LightSource,
    pub scene: Scene,
    pub noise: Noise,
    pub config: SolveConfig,
    pub reverse_solution_location: (i32, i32),
    pub reverse_solution_height: u32,
    pub reverse_solution_albedo: Vec<i64>,
    pub scene_arr: Image,
}

impl LightSimApp {
    pub open spec fn wf(self) -> bool {
        &&& self.light_source.wf()
        &&& self.scene.wf()
        &&& self.light_source.size == self.scene.size
        &&& self.noise.wf(self.scene.size as int)
        &&& self.config.wf()
        &&& self.scene_arr.wf()
        &&& self.scene_arr.size == self.scene.size
        &&& -1_200_000 <= self.reverse_solution_location.0 <= 1_200_000
        &&& -1_200_000 <= self.reverse_solution_location.1 <= 1_200_000
        &&& self.reverse_solution_height <= HEIGHT_MAX
        &&& self.reverse_solution_albedo.len() == 9
    }

    /// A fresh simulation: light off at the first cell, silent noise, unit
    /// base reflectance, and zeroed estimates.
    pub fn init(sz: usize, alb: Vec<i64>) -> (r: LightSimApp)
        requires
            1 <= sz <= SIZE_MAX,
            patch_vec_wf(alb@),
        ensures
            r.wf(),
            r.scene.size == sz,
            r.light_source.albedo == alb,
            !r.light_source.is_on,
            !r.noise.is_on,
            r.reverse_solution_location == (0i32, 0i32),
            r.reverse_solution_height == 0u32,
    {
        let ls = LightSource::init(sz, alb);
        let sc = Scene::init(sz);
        let ns = Noise::silent(sz);
        let arr = sc.update(&ls, &ns);
        let mut alb0: Vec<i64> = Vec::new();
        let mut i: usize = 0;
        while i < 9
            invariant
                i <= 9,
                alb0.len() == i,
            decreases 9 - i,
        {
            alb0.push(0);
            i = i + 1;
        }
        LightSimApp {
            light_source: ls,
            scene: sc,
            noise: ns,
            config: SolveConfig::standard(),
            reverse_solution_location: (0, 0),
            reverse_solution_height: 0,
            reverse_solution_albedo: alb0,
            scene_arr: arr,
        }
    }

    /// Renders the scene under the current light and noise state into the
    /// working array, median-filtering it while noise is on.
    pub fn update_no_reverse_solve(&mut self)
        requires
            old(self).wf(),
        ensures
            final(self).wf(),
            final(self).scene_arr.data@ == cycle_seq(
                old(self).scene,
                old(self).light_source,
                old(self).noise,
            ),
            final(self).scene_arr.size == old(self).scene.size,
            *final(self) == (LightSimApp { scene_arr: final(self).scene_arr, ..*old(self) }),
    {
        let raw = self.scene.update(&self.light_source, &self.noise);
        if self.noise.is_on {
            self.scene_arr = median_filter_image(&raw);
        } else {
            self.scene_arr = raw;
        }
    }

    /// Recovers the light's ground position from the working array; keeps
    /// the previous estimate when no valid vote accumulated.
    pub fn solve_loc(&mut self)
        requires
            old(self).wf(),
        ensures
            final(self).wf(),
            final(self).reverse_solution_location == (match solve_loc_spec(
                old(self).scene_arr,
                old(self).config,
            ) {
                Some(l) => l,
                None => old(self).reverse_solution_location,
            }),
            *final(self) == (LightSimApp {
                reverse_solution_location: final(self).reverse_solution_location,
                ..*old(self)
            }),
    {
        match solve_loc(&self.scene_arr, &self.config) {
            Some(l) => {
                self.reverse_solution_location = l;
            },
            None => {},
        }
    }

    /// Recovers the light's height from the working array and the location
    /// estimate; keeps the previous estimate when no ray yields a usable
    /// boundary.
    pub fn solve_height(&mut self)
        requires
            old(self).wf(),
        ensures
            final(self).wf(),
            final(self).reverse_solution_height as int == (match solve_height_spec(
                old(self).scene_arr,
                (
                    old(self).reverse_solution_location.0 as int,
                    old(self).reverse_solution_location.1 as int,
                ),
                old(self).config.min_boundary_diff as int,
            ) {
                Some(h) => sat_height(h),
                None => old(self).reverse_solution_height as int,
            }),
            *final(self) == (LightSimApp {
                reverse_solution_height: final(self).reverse_solution_height,
                ..*old(self)
            }),
    {
        match solve_height(
            &self.scene_arr,
            self.reverse_solution_location,
            self.config.min_boundary_diff,
        ) {
            Some(h) => {
                self.reverse_solution_height = if h > HEIGHT_MAX as i64 {
                    HEIGHT_MAX
                } else {
                    h as u32
                };
            },
            None => {},
        }
    }

    /// Recovers the relative albedo vector from the working array and the
    /// location and height estimates.
    pub fn solve_albedo(&mut self)
        requires
            old(self).wf(),
        ensures
            final(self).wf(),
            final(self).reverse_solution_albedo@ == solve_albedo_spec(
                old(self).scene_arr,
                (
                    old(self).reverse_solution_location.0 as int,
                    old(self).reverse_solution_location.1 as int,
                ),
                old(self).reverse_solution_height as int,
            ),
            *final(self) == (LightSimApp {
                reverse_solution_albedo: final(self).reverse_solution_albedo,
                ..*old(self)
            }),
    {
        let sol = solve_albedo(
            &self.scene_arr,
            self.reverse_solution_location,
            self.reverse_solution_height,
        );
        self.reverse_solution_albedo = sol;
    }

    /// Runs the three estimation stages, in their mandatory order, over the
    /// current working array.
    pub fn update_no_pic(&mut self)
        requires
            old(self).wf(),
        ensures
            final(self).wf(),
            ({
                let img = old(self).scene_arr;
                let cfg = old(self).config;
                let loc1 = match solve_loc_spec(img, cfg) {
                    Some(l) => l,
                    None => old(self).reverse_solution_location,
                };
                let h1 = match solve_height_spec(
                    img,
                    (loc1.0 as int, loc1.1 as int),
                    cfg.min_boundary_diff as int,
                ) {
                    Some(h) => sat_height(h),
                    None => old(self).reverse_solution_height as int,
                };
                &&& final(self).reverse_solution_location == loc1
                &&& final(self).reverse_solution_height as int == h1
                &&& final(self).reverse_solution_albedo@ == solve_albedo_spec(
                    img,
                    (loc1.0 as int, loc1.1 as int),
                    h1,
                )
            }),
            *final(self) == (LightSimApp {
                reverse_solution_location: final(self).reverse_solution_location,
                reverse_solution_height: final(self).reverse_solution_height,
                reverse_solution_albedo: final(self).reverse_solution_albedo,
                ..*old(self)
            }),
    {
        self.solve_loc();
        self.solve_height();
        self.solve_albedo();
    }

    /// One full cycle: render under the current configuration, then re-solve
    /// for position, height and albedo from the fresh image.
    pub fn update_(&mut self)
        requires
            old(self).wf(),
        ensures
            final(self).wf(),
            final(self).scene_arr.data@ == cycle_seq(
                old(self).scene,
                old(self).light_source,
                old(self).noise,
            ),
            ({
                let img = final(self).scene_arr;
                let cfg = old(self).config;
                let loc1 = match solve_loc_spec(img, cfg) {
                    Some(l) => l,
                    None => old(self).reverse_solution_location,
                };
                let h1 = match solve_height_spec(
                    img,
                    (loc1.0 as int, loc1.1 as int),
                    cfg.min_boundary_diff as int,
                ) {
                    Some(h) => sat_height(h),
                    None => old(self).reverse_solution_height as int,
                };
                &&& final(self).reverse_solution_location == loc1
                &&& final(self).reverse_solution_height as int == h1
                &&& final(self).reverse_solution_albedo@ == solve_albedo_spec(
                    img,
                    (loc1.0 as int, loc1.1 as int),
                    h1,
                )
            }),
    {
        self.update_no_reverse_solve();
        self.update_no_pic();
    }
}

} // verus!
