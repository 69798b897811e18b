//! Three-dimensional Perlin noise: the hashes of a cell's corners, one
//! octave of noise, and the normalised sum over octaves.

use vstd::prelude::*;
use crate::gradient::{gradient3, gradient3_of};
use crate::lattice::{chain, hash3, wrap_cell, wrap_next, NoiseParams};
use crate::noise::{
    fade, fade_of, first_octave, fractal_sum_of, grad, grad_of, lerp, lerp_of, next_octave,
    octaves_of,
};
use crate::perm::{table_of, PermTable};
use crate::reals::{Arithmetic, Reals};
use crate::sampling::{Dimension, NoiseGenerator, SamplerKind, Unsupported};

verus! {

/// The constant that the seed is mixed with before the table is shuffled.
pub const PERLIN3_SALT: u64 = 0xAABBCCDDEEFF1122;

/// The hashes of the eight corners of a lattice cell. The letters give the
/// corner's offset from the cell's origin along x, y and z: `a` for 0, `b`
/// for 1.
#[derive(Clone, Copy, Debug, PartialEq, Eq, Structural)]
pub struct Corners3 {
    pub aaa: u8,
    pub aba: u8,
    pub aab: u8,
    pub abb: u8,
    pub baa: u8,
    pub bba: u8,
    pub bab: u8,
    pub bbb: u8,
}

/// The corner hashes of the cell whose origin is the lattice point
/// `(x, y, z)`.
pub open spec fn corners3_of(table: Seq<u8>, x: int, y: int, z: int) -> Corners3 {
    Corners3 {
        aaa: hash3(table, x, y, z),
        aba: hash3(table, x, y + 1, z),
        aab: hash3(table, x, y, z + 1),
        abb: hash3(table, x, y + 1, z + 1),
        baa: hash3(table, x + 1, y, z),
        bba: hash3(table, x + 1, y + 1, z),
        bab: hash3(table, x + 1, y, z + 1),
        bbb: hash3(table, x + 1, y + 1, z + 1),
    }
}

/// The table that `seed` gives a three-dimensional Perlin sampler.
pub open spec fn perlin3_table(seed: u64) -> Seq<u8> {
    table_of(seed ^ PERLIN3_SALT)
}

/// One octave of Perlin noise at `(x, y, z)`. The point lies in the
/// lattice cell of its floor. Its offsets from the cell's origin are faded,
/// the gradient at each corner is dotted with the offset from that corner,
/// and the eight products are interpolated, along x first, then y, then z.
pub open spec fn perlin3_noise_of<T>(ar: Arithmetic<T>, table: Seq<u8>, x: T, y: T, z: T) -> T {
    let cx = (ar.cell)((ar.floor)(x));
    let cy = (ar.cell)((ar.floor)(y));
    let cz = (ar.cell)((ar.floor)(z));
    let xf = (ar.minus)(x, (ar.floor)(x));
    let yf = (ar.minus)(y, (ar.floor)(y));
    let zf = (ar.minus)(z, (ar.floor)(z));
    let xb = (ar.minus)(xf, (ar.whole)(1));
    let yb = (ar.minus)(yf, (ar.whole)(1));
    let zb = (ar.minus)(zf, (ar.whole)(1));
    let u = fade_of(ar, xf);
    let v = fade_of(ar, yf);
    let w = fade_of(ar, zf);
    let c = corners3_of(table, cx as int, cy as int, cz as int);
    let x1 = lerp_of(
        ar,
        grad_of(ar, gradient3_of(c.aaa), xf, yf, zf),
        grad_of(ar, gradient3_of(c.baa), xb, yf, zf),
        u,
    );
    let x2 = lerp_of(
        ar,
        grad_of(ar, gradient3_of(c.aba), xf, yb, zf),
        grad_of(ar, gradient3_of(c.bba), xb, yb, zf),
        u,
    );
    let y1 = lerp_of(ar, x1, x2, v);
    let x3 = lerp_of(
        ar,
        grad_of(ar, gradient3_of(c.aab), xf, yf, zb),
        grad_of(ar, gradient3_of(c.bab), xb, yf, zb),
        u,
    );
    let x4 = lerp_of(
        ar,
        grad_of(ar, gradient3_of(c.abb), xf, yb, zb),
        grad_of(ar, gradient3_of(c.bbb), xb, yb, zb),
        u,
    );
    let y2 = lerp_of(ar, x3, x4, v);
    lerp_of(ar, y1, y2, w)
}

/// The value of a three-dimensional Perlin sampler at `(x, y, z)`: the
/// normalised sum of its octaves, the octave at frequency `f` being the
/// noise at `(x * f, y * f, z * f)`.
pub open spec fn perlin3_sample_of<T>(
    ar: Arithmetic<T>,
    params: NoiseParams<T>,
    x: T,
    y: T,
    z: T,
) -> T {
    fractal_sum_of(
        ar,
        |f: T|
            perlin3_noise_of(
                ar,
                perlin3_table(params.seed),
                (ar.times)(x, f),
                (ar.times)(y, f),
                (ar.times)(z, f),
            ),
        params.frequency,
        params.persistence,
        params.octaves as nat,
    )
}

/// A three-dimensional Perlin sampler: its parameters and its table.
pub struct Perlin3D<T> {
    params: NoiseParams<T>,
    perm: PermTable,
}

impl<T> View for Perlin3D<T> {
    type V = NoiseParams<T>;

    closed spec fn view(&self) -> NoiseParams<T> {
        self.params
    }
}

impl<T> Perlin3D<T> {
    #[verifier::type_invariant]
    spec fn table_matches_seed(&self) -> bool {
        self.perm.start() == self.params.seed ^ PERLIN3_SALT
    }
}

impl<T: Copy> Perlin3D<T> {
    /// Builds the sampler and its table.
    pub fn new(seed: u64, frequency: T, persistence: T, octaves: usize) -> (r: Self)
        ensures
            r@ == (NoiseParams { seed, frequency, persistence, octaves }),
    {
        Perlin3D {
            params: NoiseParams { seed, frequency, persistence, octaves },
            perm: PermTable::new(seed, PERLIN3_SALT),
        }
    }

    /// The parameters given at construction.
    pub fn params(&self) -> (r: NoiseParams<T>)
        ensures
            r == self@,
    {
        self.params
    }

    /// Hashes the eight corners of the cell with origin `(cx, cy, cz)`.
    pub fn corner_hashes(&self, cx: i32, cy: i32, cz: i32) -> (r: Corners3)
        ensures
            r == corners3_of(perlin3_table(self@.seed), cx as int, cy as int, cz as int),
    {
        proof {
            use_type_invariant(self);
        }
        let xi = wrap_cell(cx);
        let yi = wrap_cell(cy);
        let zi = wrap_cell(cz);
        let xn = wrap_next(Ghost(cx as int), xi);
        let yn = wrap_next(Ghost(cy as int), yi);
        let zn = wrap_next(Ghost(cz as int), zi);
        let a = self.perm.get(xi);
        let b = self.perm.get(xn);
        let aa = chain(&self.perm, a, yi);
        let ab = chain(&self.perm, a, yn);
        let ba = chain(&self.perm, b, yi);
        let bb = chain(&self.perm, b, yn);
        Corners3 {
            aaa: chain(&self.perm, aa, zi),
            aba: chain(&self.perm, ab, zi),
            aab: chain(&self.perm, aa, zn),
            abb: chain(&self.perm, ab, zn),
            baa: chain(&self.perm, ba, zi),
            bba: chain(&self.perm, bb, zi),
            bab: chain(&self.perm, ba, zn),
            bbb: chain(&self.perm, bb, zn),
        }
    }

    /// One octave of noise at `(x, y, z)`.
    pub fn noise<K: Reals<T>>(&self, kit: &K, x: T, y: T, z: T) -> (r: T)
        requires
            kit.wf(),
        ensures
            r == perlin3_noise_of(kit.model(), perlin3_table(self@.seed), x, y, z),
    {
        let floor_x = kit.floor(x);
        let floor_y = kit.floor(y);
        let floor_z = kit.floor(z);
        let c = self.corner_hashes(kit.cell(floor_x), kit.cell(floor_y), kit.cell(floor_z));
        let xf = kit.minus(x, floor_x);
        let yf = kit.minus(y, floor_y);
        let zf = kit.minus(z, floor_z);
        let one = kit.whole(1);
        let xb = kit.minus(xf, one);
        let yb = kit.minus(yf, one);
        let zb = kit.minus(zf, one);
        let u = fade(kit, xf);
        let v = fade(kit, yf);
        let w = fade(kit, zf);
        let x1 = lerp(
            kit,
            grad(kit, gradient3(c.aaa), xf, yf, zf),
            grad(kit, gradient3(c.baa), xb, yf, zf),
            u,
        );
        let x2 = lerp(
            kit,
            grad(kit, gradient3(c.aba), xf, yb, zf),
            grad(kit, gradient3(c.bba), xb, yb, zf),
            u,
        );
        let y1 = lerp(kit, x1, x2, v);
        let x3 = lerp(
            kit,
            grad(kit, gradient3(c.aab), xf, yf, zb),
            grad(kit, gradient3(c.bab), xb, yf, zb),
            u,
        );
        let x4 = lerp(
            kit,
            grad(kit, gradient3(c.abb), xf, yb, zb),
            grad(kit, gradient3(c.bbb), xb, yb, zb),
            u,
        );
        let y2 = lerp(kit, x3, x4, v);
        lerp(kit, y1, y2, w)
    }

    /// The sampler's value at `(x, y, z)`.
    pub fn sample<K: Reals<T>>(&self, kit: &K, x: T, y: T, z: T) -> (r: T)
        requires
            kit.wf(),
        ensures
            r == perlin3_sample_of(kit.model(), self@, x, y, z),
    {
        let ghost ar = kit.model();
        let ghost raw = |f: T|
            perlin3_noise_of(
                ar,
                perlin3_table(self@.seed),
                (ar.times)(x, f),
                (ar.times)(y, f),
                (ar.times)(z, f),
            );
        let params = self.params;
        let mut sum = first_octave(kit, params.frequency);
        let mut k: usize = 0;
        while k < params.octaves
            invariant
                k <= params.octaves,
                kit.wf(),
                ar == kit.model(),
                params == self@,
                raw == (|f: T|
                    perlin3_noise_of(
                        ar,
                        perlin3_table(self@.seed),
                        (ar.times)(x, f),
                        (ar.times)(y, f),
                        (ar.times)(z, f),
                    )),
                sum == octaves_of(ar, raw, params.frequency, params.persistence, k as nat),
            decreases params.octaves - k,
        {
            let value = self.noise(
                kit,
                kit.times(x, sum.frequency),
                kit.times(y, sum.frequency),
                kit.times(z, sum.frequency),
            );
            sum = next_octave(kit, sum, value, params.persistence);
            k += 1;
        }
        kit.over(sum.total, sum.reach)
    }
}

impl<T: Copy> NoiseGenerator<T> for Perlin3D<T> {
    open spec fn kind_of(&self) -> SamplerKind {
        SamplerKind::Perlin3D
    }

    /// A spatial sampler has no value in the plane; any will do for a query
    /// that is refused.
    open spec fn value2(&self, ar: Arithmetic<T>, x: T, y: T) -> T {
        x
    }

    open spec fn value3(&self, ar: Arithmetic<T>, x: T, y: T, z: T) -> T {
        perlin3_sample_of(ar, self@, x, y, z)
    }

    fn kind(&self) -> (k: SamplerKind) {
        SamplerKind::Perlin3D
    }

    fn get2<K: Reals<T>>(&self, kit: &K, x: T, y: T) -> (r: Result<T, Unsupported>) {
        Err(Unsupported { kind: SamplerKind::Perlin3D, dimension: Dimension::Two })
    }

    fn get3<K: Reals<T>>(&self, kit: &K, x: T, y: T, z: T) -> (r: Result<T, Unsupported>) {
        Ok(self.sample(kit, x, y, z))
    }
}

} // verus!
