//! Two-dimensional simplex noise: the gradient directions at a simplex's
//! corners, one octave of noise, the normalised sum over octaves, and the
//! sampler's grid over the unit square.

use vstd::prelude::*;
use crate::grid::rows_of;
use crate::lattice::{wrap, wrap_cell, NoiseParams};
use crate::noise::{first_octave, fractal_sum_of, next_octave, octaves_of};
use crate::perm::{table_of, PermTable};
use crate::reals::{ratio, ratio_of, Arithmetic, Reals};
use crate::sampling::{
    direct_grid_of, render, Dimension, NoiseGenerator, SamplerKind, Unsupported,
};

verus! {

/// The constant that the seed is mixed with before the table is shuffled.
pub const SIMPLEX2_SALT: u64 = 0x123456789ABCDEF0;

/// Number of gradient directions to choose from.
pub const DIRECTIONS: usize = 12;

/// A gradient direction with small integer components.
#[derive(Clone, Copy, Debug, PartialEq, Eq, Structural)]
pub struct Direction {
    pub dx: i8,
    pub dy: i8,
}

/// The direction with the given components.
pub open spec fn dir(dx: int, dy: int) -> Direction {
    Direction { dx: dx as i8, dy: dy as i8 }
}

/// The twelve fixed directions, by index.
pub open spec fn direction_of(index: int) -> Direction {
    if index == 0 {
        dir(1, 1)
    } else if index == 1 {
        dir(-1, 1)
    } else if index == 2 {
        dir(1, -1)
    } else if index == 3 {
        dir(-1, -1)
    } else if index == 4 {
        dir(1, 0)
    } else if index == 5 {
        dir(-1, 0)
    } else if index == 6 {
        dir(0, 1)
    } else if index == 7 {
        dir(0, -1)
    } else if index == 8 {
        dir(1, 2)
    } else if index == 9 {
        dir(-1, 2)
    } else if index == 10 {
        dir(1, -2)
    } else {
        dir(-1, -2)
    }
}

/// The direction that the table assigns to the lattice point `(x, y)`: the
/// entry for `y` offsets the entry for `x`, and the result is reduced into
/// the twelve directions.
pub open spec fn lattice_direction(table: Seq<u8>, x: int, y: int) -> Direction {
    direction_of((table[wrap(x) + table[wrap(y)]] % 12) as int)
}

/// The gradient directions at the three corners of a simplex, in the order
/// in which their contributions are summed.
#[derive(Clone, Copy, Debug, PartialEq, Eq, Structural)]
pub struct SimplexCorners {
    pub origin: Direction,
    pub middle: Direction,
    pub far: Direction,
}

/// The corner directions of the simplex in the cell with origin `(i, j)`.
/// The cell is cut along its diagonal. In the lower triangle the middle
/// corner lies one step along x from the origin, in the upper one step
/// along y; the far corner is the cell's opposite corner either way.
pub open spec fn simplex_corners_of(table: Seq<u8>, i: int, j: int, lower: bool) -> SimplexCorners {
    SimplexCorners {
        origin: lattice_direction(table, i, j),
        middle: if lower {
            lattice_direction(table, i + 1, j)
        } else {
            lattice_direction(table, i, j + 1)
        },
        far: lattice_direction(table, i + 1, j + 1),
    }
}

/// The table that `seed` gives a simplex sampler.
pub open spec fn simplex2_table(seed: u64) -> Seq<u8> {
    table_of(seed ^ SIMPLEX2_SALT)
}

/// The factor that skews the plane so that the simplices become half unit
/// squares: `(sqrt 3 - 1) / 2`, as `0.5 * (sqrt 3 - 1)`.
pub open spec fn skew_of<T>(ar: Arithmetic<T>) -> T {
    (ar.times)(ratio_of(ar, 1, 2), (ar.minus)(ar.sqrt3, (ar.whole)(1)))
}

/// The factor that undoes the skew: `(3 - sqrt 3) / 6`.
pub open spec fn unskew_of<T>(ar: Arithmetic<T>) -> T {
    (ar.over)((ar.minus)((ar.whole)(3), ar.sqrt3), (ar.whole)(6))
}

/// The dot product of a direction with the offset `(x, y)`.
pub open spec fn dot_of<T>(ar: Arithmetic<T>, d: Direction, x: T, y: T) -> T {
    (ar.plus)((ar.times)((ar.whole)(d.dx as i32), x), (ar.times)((ar.whole)(d.dy as i32), y))
}

/// What the corner with direction `d` adds at the offset `(x, y)` from it:
/// with `t = 0.5 - x^2 - y^2`, it is `t^4` times the dot product where `t`
/// exceeds zero, and zero elsewhere.
pub open spec fn contribution_of<T>(ar: Arithmetic<T>, d: Direction, x: T, y: T) -> T {
    let t = (ar.minus)((ar.minus)(ratio_of(ar, 1, 2), (ar.times)(x, x)), (ar.times)(y, y));
    if (ar.exceeds)(t, (ar.whole)(0)) {
        let t_sq = (ar.times)(t, t);
        (ar.times)((ar.times)(t_sq, t_sq), dot_of(ar, d, x, y))
    } else {
        (ar.whole)(0)
    }
}

/// One octave of simplex noise at `(x, y)`. The point is skewed to find its
/// cell `(i, j)`, and its offset `(x0, y0)` from the cell's origin is taken
/// in the plane as it was. The point lies in the lower triangle where `x0`
/// exceeds `y0`. The three corners of its simplex contribute, and their sum
/// is scaled by 70. The sum of the cell's two coordinates wraps at the ends
/// of 32 bits.
pub open spec fn simplex2_noise_of<T>(ar: Arithmetic<T>, table: Seq<u8>, x: T, y: T) -> T {
    let s = (ar.times)((ar.plus)(x, y), skew_of(ar));
    let i = (ar.cell)((ar.floor)((ar.plus)(x, s)));
    let j = (ar.cell)((ar.floor)((ar.plus)(y, s)));
    let g2 = unskew_of(ar);
    let t = (ar.times)((ar.whole)(i.wrapping_add(j)), g2);
    let x0 = (ar.minus)(x, (ar.minus)((ar.whole)(i), t));
    let y0 = (ar.minus)(y, (ar.minus)((ar.whole)(j), t));
    let lower = (ar.exceeds)(x0, y0);
    let i1 = (ar.whole)(if lower { 1i32 } else { 0i32 });
    let j1 = (ar.whole)(if lower { 0i32 } else { 1i32 });
    let x1 = (ar.plus)((ar.minus)(x0, i1), g2);
    let y1 = (ar.plus)((ar.minus)(y0, j1), g2);
    let far = (ar.times)((ar.whole)(2), g2);
    let x2 = (ar.plus)((ar.minus)(x0, (ar.whole)(1)), far);
    let y2 = (ar.plus)((ar.minus)(y0, (ar.whole)(1)), far);
    let c = simplex_corners_of(table, i as int, j as int, lower);
    let n0 = contribution_of(ar, c.origin, x0, y0);
    let n1 = contribution_of(ar, c.middle, x1, y1);
    let n2 = contribution_of(ar, c.far, x2, y2);
    (ar.times)((ar.whole)(70), (ar.plus)((ar.plus)(n0, n1), n2))
}

/// The value of a simplex sampler at `(x, y)`: the normalised sum of its
/// octaves, the octave at frequency `f` being the noise at
/// `(x * f, y * f)`.
pub open spec fn simplex2_sample_of<T>(ar: Arithmetic<T>, params: NoiseParams<T>, x: T, y: T) -> T {
    fractal_sum_of(
        ar,
        |f: T| simplex2_noise_of(ar, simplex2_table(params.seed), (ar.times)(x, f), (ar.times)(y, f)),
        params.frequency,
        params.persistence,
        params.octaves as nat,
    )
}

/// What one corner of a simplex adds.
fn contribution<T: Copy, K: Reals<T>>(kit: &K, d: Direction, x: T, y: T) -> (r: T)
    requires
        kit.wf(),
    ensures
        r == contribution_of(kit.model(), d, x, y),
{
    let t = kit.minus(kit.minus(ratio(kit, 1, 2), kit.times(x, x)), kit.times(y, y));
    let zero = kit.whole(0);
    if kit.exceeds(t, zero) {
        let t_sq = kit.times(t, t);
        let dot = kit.plus(
            kit.times(kit.whole(d.dx as i32), x),
            kit.times(kit.whole(d.dy as i32), y),
        );
        kit.times(kit.times(t_sq, t_sq), dot)
    } else {
        zero
    }
}

/// A two-dimensional simplex sampler: its parameters and its table.
pub struct Simplex2D<T> {
    params: NoiseParams<T>,
    perm: PermTable,
}

impl<T> View for Simplex2D<T> {
    type V = NoiseParams<T>;

    closed spec fn view(&self) -> NoiseParams<T> {
        self.params
    }
}

/// One of the twelve fixed directions.
pub fn direction(index: usize) -> (d: Direction)
    requires
        index < DIRECTIONS,
    ensures
        d == direction_of(index as int),
{
    match index {
        0 => Direction { dx: 1, dy: 1 },
        1 => Direction { dx: -1, dy: 1 },
        2 => Direction { dx: 1, dy: -1 },
        3 => Direction { dx: -1, dy: -1 },
        4 => Direction { dx: 1, dy: 0 },
        5 => Direction { dx: -1, dy: 0 },
        6 => Direction { dx: 0, dy: 1 },
        7 => Direction { dx: 0, dy: -1 },
        8 => Direction { dx: 1, dy: 2 },
        9 => Direction { dx: -1, dy: 2 },
        10 => Direction { dx: 1, dy: -2 },
        _ => Direction { dx: -1, dy: -2 },
    }
}

/// Looking a stepped coordinate up in the doubled table gives the entry of
/// the wrapped lattice coordinate, with or without a further offset.
proof fn lemma_step_in_doubled_table(start: u64, c: int, step: int, offset: int)
    requires
        0 <= step <= 1,
        0 <= offset < 256,
    ensures
        table_of(start)[wrap(c) + step] == table_of(start)[wrap(c + step)],
        table_of(start)[wrap(c) + step + offset] == table_of(start)[wrap(c + step) + offset],
{
    if step == 1 {
        crate::lattice::lemma_wrap_successor(c);
    }
}

impl<T> Simplex2D<T> {
    #[verifier::type_invariant]
    spec fn table_matches_seed(&self) -> bool {
        self.perm.start() == self.params.seed ^ SIMPLEX2_SALT
    }
}

impl<T: Copy> Simplex2D<T> {
    /// Builds the sampler and its table.
    pub fn new(seed: u64, frequency: T, persistence: T, octaves: usize) -> (r: Self)
        ensures
            r@ == (NoiseParams { seed, frequency, persistence, octaves }),
    {
        Simplex2D {
            params: NoiseParams { seed, frequency, persistence, octaves },
            perm: PermTable::new(seed, SIMPLEX2_SALT),
        }
    }

    /// The parameters given at construction.
    pub fn params(&self) -> (r: NoiseParams<T>)
        ensures
            r == self@,
    {
        self.params
    }

    /// The direction at the corner that lies `di` along x and `dj` along y
    /// from the lattice point whose wrapped coordinates are `ii` and `jj`.
    fn corner_direction(
        &self,
        Ghost(i): Ghost<int>,
        Ghost(j): Ghost<int>,
        ii: usize,
        jj: usize,
        di: usize,
        dj: usize,
    ) -> (d: Direction)
        requires
            ii == wrap(i),
            jj == wrap(j),
            di <= 1,
            dj <= 1,
        ensures
            d == lattice_direction(simplex2_table(self@.seed), i + di, j + dj),
    {
        proof {
            use_type_invariant(self);
        }
        let inner = self.perm.get(jj + dj);
        let outer = self.perm.get(ii + di + inner as usize);
        proof {
            lemma_step_in_doubled_table(self@.seed ^ SIMPLEX2_SALT, j, dj as int, 0);
            lemma_step_in_doubled_table(self@.seed ^ SIMPLEX2_SALT, i, di as int, inner as int);
        }
        direction((outer as usize) % DIRECTIONS)
    }

    /// The gradient directions at the corners of the simplex that a point in
    /// the cell with origin `(i, j)` falls into. `lower` says that the point
    /// lies below the cell's diagonal: its offset along x exceeds that along
    /// y.
    pub fn corner_gradients(&self, i: i32, j: i32, lower: bool) -> (r: SimplexCorners)
        ensures
            r == simplex_corners_of(simplex2_table(self@.seed), i as int, j as int, lower),
    {
        let ii = wrap_cell(i);
        let jj = wrap_cell(j);
        let (i1, j1): (usize, usize) = if lower { (1, 0) } else { (0, 1) };
        SimplexCorners {
            origin: self.corner_direction(Ghost(i as int), Ghost(j as int), ii, jj, 0, 0),
            middle: self.corner_direction(Ghost(i as int), Ghost(j as int), ii, jj, i1, j1),
            far: self.corner_direction(Ghost(i as int), Ghost(j as int), ii, jj, 1, 1),
        }
    }

    /// One octave of noise at `(x, y)`.
    pub fn raw_noise<K: Reals<T>>(&self, kit: &K, x: T, y: T) -> (r: T)
        requires
            kit.wf(),
        ensures
            r == simplex2_noise_of(kit.model(), simplex2_table(self@.seed), x, y),
    {
        let one = kit.whole(1);
        let f2 = kit.times(ratio(kit, 1, 2), kit.minus(kit.sqrt3(), one));
        let g2 = kit.over(kit.minus(kit.whole(3), kit.sqrt3()), kit.whole(6));
        let s = kit.times(kit.plus(x, y), f2);
        let i = kit.cell(kit.floor(kit.plus(x, s)));
        let j = kit.cell(kit.floor(kit.plus(y, s)));
        let t = kit.times(kit.whole(i.wrapping_add(j)), g2);
        let x0 = kit.minus(x, kit.minus(kit.whole(i), t));
        let y0 = kit.minus(y, kit.minus(kit.whole(j), t));
        let lower = kit.exceeds(x0, y0);
        let i1 = kit.whole(if lower { 1 } else { 0 });
        let j1 = kit.whole(if lower { 0 } else { 1 });
        let x1 = kit.plus(kit.minus(x0, i1), g2);
        let y1 = kit.plus(kit.minus(y0, j1), g2);
        let far = kit.times(kit.whole(2), g2);
        let x2 = kit.plus(kit.minus(x0, one), far);
        let y2 = kit.plus(kit.minus(y0, one), far);
        let c = self.corner_gradients(i, j, lower);
        let n0 = contribution(kit, c.origin, x0, y0);
        let n1 = contribution(kit, c.middle, x1, y1);
        let n2 = contribution(kit, c.far, x2, y2);
        kit.times(kit.whole(70), kit.plus(kit.plus(n0, n1), n2))
    }

    /// The sampler's value at `(x, y)`.
    pub fn sample<K: Reals<T>>(&self, kit: &K, x: T, y: T) -> (r: T)
        requires
            kit.wf(),
        ensures
            r == simplex2_sample_of(kit.model(), self@, x, y),
    {
        let ghost ar = kit.model();
        let ghost raw = |f: T|
            simplex2_noise_of(ar, simplex2_table(self@.seed), (ar.times)(x, f), (ar.times)(y, f));
        let params = self.params;
        let mut sum = first_octave(kit, params.frequency);
        let mut k: usize = 0;
        while k < params.octaves
            invariant
                k <= params.octaves,
                kit.wf(),
                ar == kit.model(),
                params == self@,
                raw == (|f: T|
                    simplex2_noise_of(
                        ar,
                        simplex2_table(self@.seed),
                        (ar.times)(x, f),
                        (ar.times)(y, f),
                    )),
                sum == octaves_of(ar, raw, params.frequency, params.persistence, k as nat),
            decreases params.octaves - k,
        {
            let value = self.raw_noise(
                kit,
                kit.times(x, sum.frequency),
                kit.times(y, sum.frequency),
            );
            sum = next_octave(kit, sum, value, params.persistence);
            k += 1;
        }
        kit.over(sum.total, sum.reach)
    }

    /// Renders the sampler over the unit square into a `size` by `size`
    /// grid.
    pub fn generate<K: Reals<T>>(&self, kit: &K, size: usize) -> (data: Vec<Vec<T>>)
        requires
            kit.wf(),
        ensures
            rows_of(data@) == direct_grid_of(kit.model(), *self, size as int),
    {
        match render(kit, self, size) {
            Ok(data) => {
                assert(size == 0 ==> direct_grid_of(kit.model(), *self, size as int)
                    =~= Seq::<Seq<T>>::empty());
                data
            },
            // A planar sampler is never refused in the plane.
            Err(_) => vstd::pervasive::unreached(),
        }
    }
}

impl<T: Copy> NoiseGenerator<T> for Simplex2D<T> {
    open spec fn kind_of(&self) -> SamplerKind {
        SamplerKind::Simplex2D
    }

    open spec fn value2(&self, ar: Arithmetic<T>, x: T, y: T) -> T {
        simplex2_sample_of(ar, self@, x, y)
    }

    /// A planar sampler has no value in space; any will do for a query that
    /// is refused.
    open spec fn value3(&self, ar: Arithmetic<T>, x: T, y: T, z: T) -> T {
        x
    }

    fn kind(&self) -> (k: SamplerKind) {
        SamplerKind::Simplex2D
    }

    fn get2<K: Reals<T>>(&self, kit: &K, x: T, y: T) -> (r: Result<T, Unsupported>) {
        Ok(self.sample(kit, x, y))
    }

    fn get3<K: Reals<T>>(&self, kit: &K, x: T, y: T, z: T) -> (r: Result<T, Unsupported>) {
        Err(Unsupported { kind: SamplerKind::Simplex2D, dimension: Dimension::Three })
    }
}

} // verus!
