//! Sampling a generator at a point, and which generator answers queries in
//! which dimension.

use vstd::prelude::*;
use crate::grid::rows_of;
use crate::reals::{Arithmetic, Reals};

verus! {

/// The generators that can be sampled at a point.
#[derive(Clone, Copy, Debug, PartialEq, Eq, Structural)]
pub enum SamplerKind {
    Perlin2D,
    Perlin3D,
    Simplex2D,
    Fractal2D,
}

/// The dimension of a query: a point of the plane or a point of space.
#[derive(Clone, Copy, Debug, PartialEq, Eq, Structural)]
pub enum Dimension {
    Two,
    Three,
}

/// A query in a dimension that the generator has no form for.
#[derive(Clone, Copy, Debug, PartialEq, Eq, Structural)]
pub struct Unsupported {
    pub kind: SamplerKind,
    pub dimension: Dimension,
}

impl SamplerKind {
    /// Three-dimensional Perlin noise answers in space only. Every other
    /// generator answers in the plane only.
    pub open spec fn supports(self, dimension: Dimension) -> bool {
        (self == SamplerKind::Perlin3D) == (dimension == Dimension::Three)
    }

    /// Lets a query through in a dimension that the generator supports and
    /// refuses any other, naming the generator and the dimension.
    pub fn permit(self, dimension: Dimension) -> (r: Result<(), Unsupported>)
        ensures
            r is Ok <==> self.supports(dimension),
            r matches Err(e) ==> e == (Unsupported { kind: self, dimension }),
    {
        let spatial = match self {
            SamplerKind::Perlin3D => true,
            _ => false,
        };
        let wanted = match dimension {
            Dimension::Three => true,
            Dimension::Two => false,
        };
        if spatial == wanted {
            Ok(())
        } else {
            Err(Unsupported { kind: self, dimension })
        }
    }
}

/// Every generator answers in exactly one of the two dimensions.
pub proof fn lemma_one_dimension_each(kind: SamplerKind)
    ensures
        kind.supports(Dimension::Two) != kind.supports(Dimension::Three),
{
}

/// What a query of the given kind and dimension is answered with: the
/// value that the generator has there, or the refusal.
pub open spec fn answer<T>(kind: SamplerKind, dimension: Dimension, value: T) -> Result<
    T,
    Unsupported,
> {
    if kind.supports(dimension) {
        Ok(value)
    } else {
        Err(Unsupported { kind, dimension })
    }
}

/// A generator that can be sampled at a point of the plane or of space.
/// A query in a dimension that the generator's kind does not support is
/// refused; any other is answered with the generator's value there, which
/// depends on the generator, the point and the arithmetic alone.
pub trait NoiseGenerator<T> {
    /// Which generator this is.
    spec fn kind_of(&self) -> SamplerKind;

    /// The generator's value at `(x, y)`.
    spec fn value2(&self, ar: Arithmetic<T>, x: T, y: T) -> T;

    /// The generator's value at `(x, y, z)`.
    spec fn value3(&self, ar: Arithmetic<T>, x: T, y: T, z: T) -> T;

    /// Which generator this is.
    fn kind(&self) -> (k: SamplerKind)
        ensures
            k == self.kind_of(),
    ;

    /// Samples at `(x, y)`.
    fn get2<K: Reals<T>>(&self, kit: &K, x: T, y: T) -> (r: Result<T, Unsupported>)
        requires
            kit.wf(),
        ensures
            r == answer(self.kind_of(), Dimension::Two, self.value2(kit.model(), x, y)),
    ;

    /// Samples at `(x, y, z)`.
    fn get3<K: Reals<T>>(&self, kit: &K, x: T, y: T, z: T) -> (r: Result<T, Unsupported>)
        requires
            kit.wf(),
        ensures
            r == answer(self.kind_of(), Dimension::Three, self.value3(kit.model(), x, y, z)),
    ;
}

/// The coordinate of column or row `k` of a grid of edge `size` in the
/// unit square: `k / size`.
pub open spec fn coordinate_of<T>(ar: Arithmetic<T>, k: int, size: int) -> T {
    (ar.over)((ar.count)(k as u64), (ar.count)(size as u64))
}

/// The grid that a generator's values make over the unit square: the cell
/// `(y, x)` holds the value at `(x / size, y / size)`.
pub open spec fn direct_grid_of<T, B: NoiseGenerator<T>>(ar: Arithmetic<T>, base: B, size: int) -> Seq<
    Seq<T>,
> {
    Seq::new(
        size as nat,
        |y: int|
            Seq::new(
                size as nat,
                |x: int| base.value2(ar, coordinate_of(ar, x, size), coordinate_of(ar, y, size)),
            ),
    )
}

/// What rendering over the plane comes to when the generators of the two
/// kinds are asked in turn: nothing to render for a grid without cells,
/// the refusal of the first of the two that has no planar form, and the
/// grid otherwise.
pub open spec fn rendering<T>(
    size: int,
    first: SamplerKind,
    second: SamplerKind,
    grid: Seq<Seq<T>>,
) -> Result<Seq<Seq<T>>, Unsupported> {
    if size == 0 {
        Ok(Seq::empty())
    } else if !first.supports(Dimension::Two) {
        Err(Unsupported { kind: first, dimension: Dimension::Two })
    } else if !second.supports(Dimension::Two) {
        Err(Unsupported { kind: second, dimension: Dimension::Two })
    } else {
        Ok(grid)
    }
}

/// The rows of a rendered grid, or the refusal.
pub open spec fn rows_or_refusal<T>(r: Result<Vec<Vec<T>>, Unsupported>) -> Result<
    Seq<Seq<T>>,
    Unsupported,
> {
    match r {
        Ok(grid) => Ok(rows_of(grid@)),
        Err(e) => Err(e),
    }
}

/// Renders a generator over the unit square into a `size` by `size` grid.
pub fn render<T: Copy, B: NoiseGenerator<T>, K: Reals<T>>(kit: &K, base: &B, size: usize) -> (r:
    Result<Vec<Vec<T>>, Unsupported>)
    requires
        kit.wf(),
    ensures
        rows_or_refusal(r) == rendering(
            size as int,
            base.kind_of(),
            base.kind_of(),
            direct_grid_of(kit.model(), *base, size as int),
        ),
{
    let ghost ar = kit.model();
    let ghost want = direct_grid_of(ar, *base, size as int);
    let edge = kit.count(size as u64);
    let mut data: Vec<Vec<T>> = Vec::new();
    let mut y: usize = 0;
    while y < size
        invariant
            y <= size,
            kit.wf(),
            ar == kit.model(),
            edge == (ar.count)(size as u64),
            want == direct_grid_of(ar, *base, size as int),
            y > 0 ==> base.kind_of().supports(Dimension::Two),
            data@.len() == y,
            forall|r: int| 0 <= r < y ==> (#[trigger] data@[r])@ == want[r],
        decreases size - y,
    {
        let fy = kit.over(kit.count(y as u64), edge);
        let mut row: Vec<T> = Vec::new();
        let mut x: usize = 0;
        while x < size
            invariant
                x <= size,
                y < size,
                kit.wf(),
                ar == kit.model(),
                edge == (ar.count)(size as u64),
                fy == coordinate_of(ar, y as int, size as int),
                want == direct_grid_of(ar, *base, size as int),
                x > 0 || y > 0 ==> base.kind_of().supports(Dimension::Two),
                row@.len() == x,
                forall|c: int| 0 <= c < x ==> (#[trigger] row@[c]) == want[y as int][c],
            decreases size - x,
        {
            let fx = kit.over(kit.count(x as u64), edge);
            match base.get2(kit, fx, fy) {
                Ok(v) => {
                    row.push(v);
                },
                Err(e) => {
                    return Err(e);
                },
            }
            x += 1;
        }
        assert(row@ =~= want[y as int]);
        data.push(row);
        y += 1;
    }
    assert(rows_of(data@) =~= want);
    assert(size == 0 ==> rows_of(data@) =~= Seq::<Seq<T>>::empty());
    Ok(data)
}

} // verus!
