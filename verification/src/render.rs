//! Scene, light and noise state, and the full-image forward render.
//!
//! A rendered image is a flat row-major vector of fixed-point linear
//! intensities; it is always recomputable from the scene and light state and
//! is replaced wholesale on each solving cycle.

use vstd::prelude::*;
use crate::fixed::SCALE;
use crate::geometry::{actual_location, patch_index, COORD_MAX, SIZE_MAX};
use crate::scene::{
    base_at,
    composite_q,
    decide,
    decide_light,
    get_light,
    light_at,
    patch_vec_wf,
    HEIGHT_MAX,
};

verus! {

/// Bounds and product shape of a flat pixel index over a 3*size square.
pub proof fn lemma_flat_index(t: int, size: int)
    requires
        1 <= size,
        0 <= t < 9 * size * size,
    ensures
        0 <= t / (3 * size) < 3 * size,
        0 <= t % (3 * size) < 3 * size,
        t == (t / (3 * size)) * (3 * size) + t % (3 * size),
{
    let side = 3 * size;
    vstd::arithmetic::div_mod::lemma_fundamental_div_mod(t, side);
    vstd::arithmetic::div_mod::lemma_mod_division_less_than_divisor(t, side);
    vstd::arithmetic::div_mod::lemma_div_pos_is_pos(t, side);
    assert(9 * size * size == side * side) by (nonlinear_arith)
        requires
            side == 3 * size,
    ;
    vstd::arithmetic::div_mod::lemma_multiply_divide_lt(t, side, side);
    assert(t == (t / side) * side + t % side) by {
        assert(t == side * (t / side) + t % side);
        assert(side * (t / side) == (t / side) * side) by (nonlinear_arith);
    };
}

/// A rendered linear-intensity image: 3*size by 3*size pixels, row-major.
pub struct Image {
    pub size: usize,
    pub data: Vec<i64>,
}

impl Image {
    /// Pixels per axis.
    pub open spec fn side(self) -> int {
        3 * self.size
    }

    /// Structural invariant: full 3*size square of unit-range intensities.
    pub open spec fn wf(self) -> bool {
        &&& 1 <= self.size <= SIZE_MAX
        &&& self.data.len() == 9 * self.size * self.size
        &&& forall|t: int| 0 <= t < self.data.len() ==> 0 <= #[trigger] self.data[t] <= SCALE
    }

    /// Intensity at pixel (j, k).
    pub open spec fn at(self, j: int, k: int) -> int {
        self.data[j * (3 * self.size) + k] as int
    }
}

/// Number of pixels of a 3*size square image.
pub fn pixel_count(size: usize) -> (r: usize)
    requires
        1 <= size <= SIZE_MAX,
    ensures
        r == 9 * size * size,
        r <= 81_000_000,
{
    assert(size * size <= 9_000_000 && 9 * (size * size) == 9 * size * size) by (nonlinear_arith)
        requires
            1 <= size <= 3000,
    ;
    9 * (size * size)
}

/// The configurable point light: patch cell, in-patch ground offset, height,
/// on/off flag, and the per-patch albedo vector.
pub struct LightSource {
    pub location: (usize, usize),
    pub coordinates: (i32, i32),
    pub height: u32,
    pub is_on: bool,
    pub albedo: Vec<i64>,
    pub size: usize,
}

impl LightSource {
    pub open spec fn wf(self) -> bool {
        &&& self.location.0 <= 2
        &&& self.location.1 <= 2
        &&& 1 <= self.size <= SIZE_MAX
        &&& -COORD_MAX <= self.coordinates.0 as int <= COORD_MAX
        &&& -COORD_MAX <= self.coordinates.1 as int <= COORD_MAX
        &&& self.height <= HEIGHT_MAX
        &&& patch_vec_wf(self.albedo@)
    }

    /// A light in the first cell at ground level, switched off.
    pub fn init(size: usize, albedo: Vec<i64>) -> (r: LightSource)
        requires
            1 <= size <= SIZE_MAX,
            patch_vec_wf(albedo@),
        ensures
            r.wf(),
            r.size == size,
            r.albedo == albedo,
            !r.is_on,
            r.height == 0,
            r.location == (0usize, 0usize),
            r.coordinates == (0i32, 0i32),
    {
        LightSource {
            location: (0, 0),
            coordinates: (0, 0),
            height: 0,
            is_on: false,
            albedo,
            size,
        }
    }

    /// Lit intensity this light contributes at pixel (j, k): zero when off.
    pub open spec fn light_value(self, j: int, k: int) -> int {
        if self.is_on {
            let a = actual_location(self.coordinates, self.location, self.size as int);
            light_at(a.0, a.1, self.height as int, self.size as int, j, k, self.albedo@)
        } else {
            0
        }
    }

    /// Renders the per-pixel lit intensity over the whole grid.
    pub fn generate_light_matrix(&self) -> (m: Vec<i64>)
        requires
            self.wf(),
        ensures
            m.len() == 9 * self.size * self.size,
            forall|t: int|
                0 <= t < m.len() ==> #[trigger] m[t] == self.light_value(
                    t / (3 * self.size as int),
                    t % (3 * self.size as int),
                ),
            forall|t: int| 0 <= t < m.len() ==> 0 <= #[trigger] m[t] <= SCALE,
    {
        let total: usize = pixel_count(self.size);
        let side: usize = 3 * self.size;
        let mut m: Vec<i64> = Vec::new();
        let mut t: usize = 0;
        while t < total
            invariant
                self.wf(),
                side == 3 * self.size,
                total == 9 * self.size * self.size,
                t <= total,
                m.len() == t,
                forall|u: int|
                    0 <= u < t ==> #[trigger] m[u] == self.light_value(
                        u / (3 * self.size as int),
                        u % (3 * self.size as int),
                    ),
                forall|u: int| 0 <= u < t ==> 0 <= #[trigger] m[u] <= SCALE,
            decreases total - t,
        {
            proof {
                lemma_flat_index(t as int, self.size as int);
            }
            let j: usize = t / side;
            let k: usize = t % side;
            let v: i64 = if self.is_on {
                get_light(
                    self.coordinates,
                    self.location,
                    self.height,
                    self.size,
                    j,
                    k,
                    &self.albedo,
                )
            } else {
                0
            };
            m.push(v);
            t = t + 1;
        }
        m
    }
}

/// The additive per-pixel noise field, supplied externally (seeded Gaussian
/// samples in fixed point) and gated by an on/off flag.
pub struct Noise {
    pub values: Vec<i64>,
    pub mean: i64,
    pub sigma: i64,
    pub seed: u64,
    pub is_on: bool,
}

impl Noise {
    pub open spec fn wf(self, size: int) -> bool {
        &&& self.values.len() == 9 * size * size
        &&& forall|t: int|
            0 <= t < self.values.len() ==> -SCALE <= #[trigger] self.values[t] <= SCALE
    }

    /// An all-zero noise field, switched off.
    pub fn silent(size: usize) -> (r: Noise)
        requires
            1 <= size <= SIZE_MAX,
        ensures
            r.wf(size as int),
            !r.is_on,
            forall|t: int| 0 <= t < r.values.len() ==> #[trigger] r.values[t] == 0,
    {
        let total: usize = pixel_count(size);
        let mut values: Vec<i64> = Vec::new();
        let mut t: usize = 0;
        while t < total
            invariant
                t <= total,
                values.len() == t,
                forall|u: int| 0 <= u < t ==> #[trigger] values[u] == 0,
            decreases total - t,
        {
            values.push(0);
            t = t + 1;
        }
        Noise { values, mean: 0, sigma: 0, seed: 0, is_on: false }
    }

    /// Wraps externally drawn noise samples; rejects a field of the wrong
    /// extent or with a sample out of the unit range.
    pub fn from_samples(size: usize, values: Vec<i64>, mean: i64, sigma: i64, seed: u64, is_on: bool) -> (r: Option<
        Noise,
    >)
        requires
            1 <= size <= SIZE_MAX,
        ensures
            match r {
                Some(n) => {
                    &&& n.wf(size as int)
                    &&& n.values == values
                    &&& n.is_on == is_on
                    &&& n.seed == seed
                },
                None => {
                    values.len() != 9 * size * size || exists|t: int|
                        0 <= t < values.len() && !(-SCALE <= #[trigger] values[t] <= SCALE)
                },
            },
    {
        let total: usize = pixel_count(size);
        if values.len() != total {
            return None;
        }
        let mut t: usize = 0;
        while t < values.len()
            invariant
                t <= values.len(),
                forall|u: int| 0 <= u < t ==> -SCALE <= #[trigger] values[u] <= SCALE,
            decreases values.len() - t,
        {
            let v: i64 = values[t];
            if v < -SCALE || v > SCALE {
                return None;
            }
            t = t + 1;
        }
        Some(Noise { values, mean, sigma, seed, is_on })
    }
}

/// The static scene: per-patch base reflectance, expanded once into a
/// full-resolution base array.
pub struct Scene {
    pub size: usize,
    pub colors: Vec<i64>,
    pub scene_array: Vec<i64>,
}

/// Expands per-patch base reflectances into a full 3*size square array.
pub fn generate_arr(sz: usize, colors: &Vec<i64>) -> (r: Vec<i64>)
    requires
        1 <= sz <= SIZE_MAX,
        patch_vec_wf(colors@),
    ensures
        r.len() == 9 * sz * sz,
        forall|t: int|
            0 <= t < r.len() ==> #[trigger] r[t] == base_at(
                colors@,
                t / (3 * sz as int),
                t % (3 * sz as int),
                sz as int,
            ),
        forall|t: int| 0 <= t < r.len() ==> 0 <= #[trigger] r[t] <= SCALE,
{
    let total: usize = pixel_count(sz);
    let side: usize = 3 * sz;
    let mut r: Vec<i64> = Vec::new();
    let mut t: usize = 0;
    while t < total
        invariant
            1 <= sz <= SIZE_MAX,
            patch_vec_wf(colors@),
            side == 3 * sz,
            total == 9 * sz * sz,
            t <= total,
            r.len() == t,
            forall|u: int|
                0 <= u < t ==> #[trigger] r[u] == base_at(
                    colors@,
                    u / (3 * sz as int),
                    u % (3 * sz as int),
                    sz as int,
                ),
            forall|u: int| 0 <= u < t ==> 0 <= #[trigger] r[u] <= SCALE,
        decreases total - t,
    {
        proof {
            lemma_flat_index(t as int, sz as int);
        }
        let j: usize = t / side;
        let k: usize = t % side;
        let v: i64 = decide(sz, j, k, colors);
        r.push(v);
        t = t + 1;
    }
    r
}

/// One pixel of the final composited render: the base array under the light
/// matrix and the gated noise term; the plain base array while the light is
/// off.
pub open spec fn rendered_pixel(scene: Scene, ls: LightSource, ns: Noise, j: int, k: int) -> int {
    let base = base_at(scene.colors@, j, k, scene.size as int);
    if ls.is_on {
        composite_q(
            base,
            ls.light_value(j, k),
            ns.values[j * (3 * scene.size as int) + k] as int,
            ns.is_on,
        )
    } else {
        base
    }
}

/// The full rendered intensity sequence of one cycle.
pub open spec fn rendered_seq(scene: Scene, ls: LightSource, ns: Noise) -> Seq<i64> {
    Seq::new(
        (9 * scene.size * scene.size) as nat,
        |t: int|
            rendered_pixel(
                scene,
                ls,
                ns,
                t / (3 * scene.size as int),
                t % (3 * scene.size as int),
            ) as i64,
    )
}

impl Scene {
    pub open spec fn wf(self) -> bool {
        &&& 1 <= self.size <= SIZE_MAX
        &&& patch_vec_wf(self.colors@)
        &&& self.scene_array.len() == 9 * self.size * self.size
        &&& forall|t: int|
            0 <= t < self.scene_array.len() ==> #[trigger] self.scene_array[t] == base_at(
                self.colors@,
                t / (3 * self.size as int),
                t % (3 * self.size as int),
                self.size as int,
            )
    }

    /// A scene of the given patch side with unit base reflectance everywhere.
    pub fn init(sz: usize) -> (r: Scene)
        requires
            1 <= sz <= SIZE_MAX,
        ensures
            r.wf(),
            r.size == sz,
            forall|i: int| 0 <= i < 9 ==> #[trigger] r.colors@[i] == SCALE,
    {
        let mut colors: Vec<i64> = Vec::new();
        let mut i: usize = 0;
        while i < 9
            invariant
                i <= 9,
                colors.len() == i,
                forall|u: int| 0 <= u < i ==> #[trigger] colors[u] == SCALE,
            decreases 9 - i,
        {
            colors.push(SCALE);
            i = i + 1;
        }
        let arr = generate_arr(sz, &colors);
        Scene { size: sz, colors, scene_array: arr }
    }

    /// Composites the base array under a light matrix and a noise field.
    pub fn recount_final_array(
        &self,
        light_matrix: &Vec<i64>,
        noise_matrix: &Vec<i64>,
        is_noise_on: bool,
    ) -> (r: Image)
        requires
            self.wf(),
            light_matrix.len() == 9 * self.size * self.size,
            forall|u: int|
                0 <= u < light_matrix.len() ==> 0 <= #[trigger] light_matrix[u] <= SCALE,
            noise_matrix.len() == 9 * self.size * self.size,
            forall|u: int|
                0 <= u < noise_matrix.len() ==> -SCALE <= #[trigger] noise_matrix[u] <= SCALE,
        ensures
            r.wf(),
            r.size == self.size,
            forall|t: int|
                0 <= t < r.data.len() ==> #[trigger] r.data[t] == composite_q(
                    base_at(
                        self.colors@,
                        t / (3 * self.size as int),
                        t % (3 * self.size as int),
                        self.size as int,
                    ),
                    light_matrix[t] as int,
                    noise_matrix[t] as int,
                    is_noise_on,
                ),
    {
        let total: usize = pixel_count(self.size);
        let mut data: Vec<i64> = Vec::new();
        let mut t: usize = 0;
        while t < total
            invariant
                self.wf(),
                total == 9 * self.size * self.size,
                light_matrix.len() == total,
                forall|u: int|
                    0 <= u < total ==> 0 <= #[trigger] light_matrix[u] <= SCALE,
                noise_matrix.len() == total,
                forall|u: int|
                    0 <= u < total ==> -SCALE <= #[trigger] noise_matrix[u] <= SCALE,
                t <= total,
                data.len() == t,
                forall|u: int|
                    0 <= u < t ==> #[trigger] data[u] == composite_q(
                        base_at(
                            self.colors@,
                            u / (3 * self.size as int),
                            u % (3 * self.size as int),
                            self.size as int,
                        ),
                        light_matrix[u] as int,
                        noise_matrix[u] as int,
                        is_noise_on,
                    ),
                forall|u: int| 0 <= u < t ==> 0 <= #[trigger] data[u] <= SCALE,
            decreases total - t,
        {
            proof {
                lemma_flat_index(t as int, self.size as int);
            }
            let base: i64 = self.scene_array[t];
            let v: i64 = decide_light(base, light_matrix[t], noise_matrix[t], is_noise_on);
            data.push(v);
            t = t + 1;
        }
        Image { size: self.size, data }
    }

    /// Renders the scene under the given light and noise into a fresh image:
    /// the composited array while the light is on, the plain base array
    /// otherwise.
    pub fn update(&self, ls: &LightSource, ns: &Noise) -> (r: Image)
        requires
            self.wf(),
            ls.wf(),
            ls.size == self.size,
            ns.wf(self.size as int),
        ensures
            r.wf(),
            r.size == self.size,
            forall|t: int|
                0 <= t < r.data.len() ==> #[trigger] r.data[t] == rendered_pixel(
                    *self,
                    *ls,
                    *ns,
                    t / (3 * self.size as int),
                    t % (3 * self.size as int),
                ),
            r.data@ == rendered_seq(*self, *ls, *ns),
    {
        let r: Image = if ls.is_on {
            let light_matrix = ls.generate_light_matrix();
            self.recount_final_array(&light_matrix, &ns.values, ns.is_on)
        } else {
            let total: usize = pixel_count(self.size);
            let mut data: Vec<i64> = Vec::new();
            let mut t: usize = 0;
            while t < total
                invariant
                    self.wf(),
                    total == 9 * self.size * self.size,
                    t <= total,
                    data.len() == t,
                    forall|u: int| 0 <= u < t ==> #[trigger] data[u] == self.scene_array[u],
                decreases total - t,
            {
                data.push(self.scene_array[t]);
                t = t + 1;
            }
            proof {
                assert forall|t: int| 0 <= t < data.len() implies 0 <= #[trigger] data[t]
                    <= SCALE by {
                    lemma_flat_index(t, self.size as int);
                };
            }
            Image { size: self.size, data }
        };
        proof {
            assert forall|t: int| 0 <= t < r.data.len() implies r.data@[t] == rendered_seq(
                *self,
                *ls,
                *ns,
            )[t] by {
                lemma_flat_index(t, self.size as int);
            };
            assert(r.data@ =~= rendered_seq(*self, *ls, *ns));
        }
        r
    }
}

/// Rendering is deterministic: the same scene, light state and noise field
/// give the same image, pixel for pixel.  The render has no hidden inputs:
/// its contract pins every pixel to `rendered_pixel` of the arguments alone.
pub proof fn lemma_render_deterministic(
    s1: Scene,
    s2: Scene,
    l1: LightSource,
    l2: LightSource,
    n1: Noise,
    n2: Noise,
    j: int,
    k: int,
)
    requires
        s1 == s2,
        l1 == l2,
        n1 == n2,
    ensures
        rendered_pixel(s1, l1, n1, j, k) == rendered_pixel(s2, l2, n2, j, k),
{
}

} // verus!
