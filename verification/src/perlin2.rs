//! Two-dimensional Perlin noise: the hashes of a cell's corners, one octave
//! of noise, the normalised sum over octaves, and the sampler's grid over
//! the unit square.

use vstd::prelude::*;
use crate::gradient::{gradient2, gradient2_of};
use crate::lattice::{chain, hash2, wrap_cell, wrap_next, NoiseParams};
use crate::noise::{
    fade, fade_of, first_octave, fractal_sum_of, grad2, grad2_of, lerp, lerp_of, next_octave,
    octaves_of,
};
use crate::perm::{table_of, PermTable};
use crate::reals::{Arithmetic, Reals};
use crate::grid::rows_of;
use crate::sampling::{
    direct_grid_of, render, Dimension, NoiseGenerator, SamplerKind, Unsupported,
};

verus! {

/// The constant that the seed is mixed with before the table is shuffled.
pub const PERLIN2_SALT: u64 = 0xDEADBEEFCAFEBABE;

/// The hashes of the four corners of a lattice cell. The letters give the
/// corner's offset from the cell's origin along x and y: `a` for 0, `b` for
/// 1.
#[derive(Clone, Copy, Debug, PartialEq, Eq, Structural)]
pub struct Corners2 {
    pub aa: u8,
    pub ab: u8,
    pub ba: u8,
    pub bb: u8,
}

/// The corner hashes of the cell whose origin is the lattice point `(x, y)`.
pub open spec fn corners2_of(table: Seq<u8>, x: int, y: int) -> Corners2 {
    Corners2 {
        aa: hash2(table, x, y),
        ab: hash2(table, x, y + 1),
        ba: hash2(table, x + 1, y),
        bb: hash2(table, x + 1, y + 1),
    }
}

/// The table that `seed` gives a two-dimensional Perlin sampler.
pub open spec fn perlin2_table(seed: u64) -> Seq<u8> {
    table_of(seed ^ PERLIN2_SALT)
}

/// One octave of Perlin noise at `(x, y)`. The point lies in the lattice
/// cell of its floor. Its offsets from the cell's origin are faded, the
/// gradient at each corner is dotted with the offset from that corner, and
/// the four products are interpolated, along x first and along y after.
pub open spec fn perlin2_noise_of<T>(ar: Arithmetic<T>, table: Seq<u8>, x: T, y: T) -> T {
    let cx = (ar.cell)((ar.floor)(x));
    let cy = (ar.cell)((ar.floor)(y));
    let xf = (ar.minus)(x, (ar.floor)(x));
    let yf = (ar.minus)(y, (ar.floor)(y));
    let xb = (ar.minus)(xf, (ar.whole)(1));
    let yb = (ar.minus)(yf, (ar.whole)(1));
    let u = fade_of(ar, xf);
    let v = fade_of(ar, yf);
    let c = corners2_of(table, cx as int, cy as int);
    let x1 = lerp_of(
        ar,
        grad2_of(ar, gradient2_of(c.aa), xf, yf),
        grad2_of(ar, gradient2_of(c.ba), xb, yf),
        u,
    );
    let x2 = lerp_of(
        ar,
        grad2_of(ar, gradient2_of(c.ab), xf, yb),
        grad2_of(ar, gradient2_of(c.bb), xb, yb),
        u,
    );
    lerp_of(ar, x1, x2, v)
}

/// The value of a two-dimensional Perlin sampler at `(x, y)`: the
/// normalised sum of its octaves, the octave at frequency `f` being the
/// noise at `(x * f, y * f)`.
pub open spec fn perlin2_sample_of<T>(ar: Arithmetic<T>, params: NoiseParams<T>, x: T, y: T) -> T {
    fractal_sum_of(
        ar,
        |f: T| perlin2_noise_of(ar, perlin2_table(params.seed), (ar.times)(x, f), (ar.times)(y, f)),
        params.frequency,
        params.persistence,
        params.octaves as nat,
    )
}

/// A two-dimensional Perlin sampler: its parameters and its table.
pub struct Perlin2D<T> {
    params: NoiseParams<T>,
    perm: PermTable,
}

impl<T> View for Perlin2D<T> {
    type V = NoiseParams<T>;

    closed spec fn view(&self) -> NoiseParams<T> {
        self.params
    }
}

impl<T> Perlin2D<T> {
    #[verifier::type_invariant]
    spec fn table_matches_seed(&self) -> bool {
        self.perm.start() == self.params.seed ^ PERLIN2_SALT
    }
}

impl<T: Copy> Perlin2D<T> {
    /// Builds the sampler and its table.
    pub fn new(seed: u64, frequency: T, persistence: T, octaves: usize) -> (r: Self)
        ensures
            r@ == (NoiseParams { seed, frequency, persistence, octaves }),
    {
        Perlin2D {
            params: NoiseParams { seed, frequency, persistence, octaves },
            perm: PermTable::new(seed, PERLIN2_SALT),
        }
    }

    /// The parameters given at construction.
    pub fn params(&self) -> (r: NoiseParams<T>)
        ensures
            r == self@,
    {
        self.params
    }

    /// Hashes the four corners of the cell with origin `(cx, cy)`.
    pub fn corner_hashes(&self, cx: i32, cy: i32) -> (r: Corners2)
        ensures
            r == corners2_of(perlin2_table(self@.seed), cx as int, cy as int),
    {
        proof {
            use_type_invariant(self);
        }
        let xi = wrap_cell(cx);
        let yi = wrap_cell(cy);
        let xn = wrap_next(Ghost(cx as int), xi);
        let yn = wrap_next(Ghost(cy as int), yi);
        let a = self.perm.get(xi);
        let b = self.perm.get(xn);
        Corners2 {
            aa: chain(&self.perm, a, yi),
            ab: chain(&self.perm, a, yn),
            ba: chain(&self.perm, b, yi),
            bb: chain(&self.perm, b, yn),
        }
    }

    /// One octave of noise at `(x, y)`.
    pub fn noise<K: Reals<T>>(&self, kit: &K, x: T, y: T) -> (r: T)
        requires
            kit.wf(),
        ensures
            r == perlin2_noise_of(kit.model(), perlin2_table(self@.seed), x, y),
    {
        let floor_x = kit.floor(x);
        let floor_y = kit.floor(y);
        let corners = self.corner_hashes(kit.cell(floor_x), kit.cell(floor_y));
        let xf = kit.minus(x, floor_x);
        let yf = kit.minus(y, floor_y);
        let one = kit.whole(1);
        let xb = kit.minus(xf, one);
        let yb = kit.minus(yf, one);
        let u = fade(kit, xf);
        let v = fade(kit, yf);
        let x1 = lerp(
            kit,
            grad2(kit, gradient2(corners.aa), xf, yf),
            grad2(kit, gradient2(corners.ba), xb, yf),
            u,
        );
        let x2 = lerp(
            kit,
            grad2(kit, gradient2(corners.ab), xf, yb),
            grad2(kit, gradient2(corners.bb), xb, yb),
            u,
        );
        lerp(kit, x1, x2, v)
    }

    /// The sampler's value at `(x, y)`.
    pub fn sample<K: Reals<T>>(&self, kit: &K, x: T, y: T) -> (r: T)
        requires
            kit.wf(),
        ensures
            r == perlin2_sample_of(kit.model(), self@, x, y),
    {
        let ghost ar = kit.model();
        let ghost raw = |f: T|
            perlin2_noise_of(ar, perlin2_table(self@.seed), (ar.times)(x, f), (ar.times)(y, f));
        let params = self.params;
        let mut sum = first_octave(kit, params.frequency);
        let mut k: usize = 0;
        while k < params.octaves
            invariant
                k <= params.octaves,
                kit.wf(),
                ar == kit.model(),
                params == self@,
                raw == (|f: T|
                    perlin2_noise_of(
                        ar,
                        perlin2_table(self@.seed),
                        (ar.times)(x, f),
                        (ar.times)(y, f),
                    )),
                sum == octaves_of(ar, raw, params.frequency, params.persistence, k as nat),
            decreases params.octaves - k,
        {
            let value = self.noise(kit, kit.times(x, sum.frequency), kit.times(y, sum.frequency));
            sum = next_octave(kit, sum, value, params.persistence);
            k += 1;
        }
        kit.over(sum.total, sum.reach)
    }

    /// Renders the sampler over the unit square into a `size` by `size`
    /// grid.
    pub fn generate<K: Reals<T>>(&self, kit: &K, size: usize) -> (data: Vec<Vec<T>>)
        requires
            kit.wf(),
        ensures
            rows_of(data@) == direct_grid_of(kit.model(), *self, size as int),
    {
        match render(kit, self, size) {
            Ok(data) => {
                assert(size == 0 ==> direct_grid_of(kit.model(), *self, size as int)
                    =~= Seq::<Seq<T>>::empty());
                data
            },
            // A planar sampler is never refused in the plane.
            Err(_) => vstd::pervasive::unreached(),
        }
    }
}

impl<T: Copy> NoiseGenerator<T> for Perlin2D<T> {
    open spec fn kind_of(&self) -> SamplerKind {
        SamplerKind::Perlin2D
    }

    open spec fn value2(&self, ar: Arithmetic<T>, x: T, y: T) -> T {
        perlin2_sample_of(ar, self@, x, y)
    }

    /// A planar sampler has no value in space; any will do for a query that
    /// is refused.
    open spec fn value3(&self, ar: Arithmetic<T>, x: T, y: T, z: T) -> T {
        x
    }

    fn kind(&self) -> (k: SamplerKind) {
        SamplerKind::Perlin2D
    }

    fn get2<K: Reals<T>>(&self, kit: &K, x: T, y: T) -> (r: Result<T, Unsupported>) {
        Ok(self.sample(kit, x, y))
    }

    fn get3<K: Reals<T>>(&self, kit: &K, x: T, y: T, z: T) -> (r: Result<T, Unsupported>) {
        Err(Unsupported { kind: SamplerKind::Perlin2D, dimension: Dimension::Three })
    }
}

} // verus!
