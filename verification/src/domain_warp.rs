//! Domain warping: one generator displaces the points at which another is
//! sampled.

use vstd::prelude::*;
use crate::grid::rows_of;
use crate::reals::{ratio, ratio_of, Arithmetic, Reals};
use crate::sampling::{
    coordinate_of, direct_grid_of, rendering, rows_or_refusal, Dimension, NoiseGenerator,
    Unsupported,
};

verus! {

/// Where the warp is sampled for the displacement along x: at three times
/// the coordinate.
pub open spec fn first_probe<T>(ar: Arithmetic<T>, f: T) -> T {
    (ar.times)(f, (ar.whole)(3))
}

/// Where the warp is sampled for the displacement along y: at three times
/// the coordinate moved by 26/5, so that the two displacements are
/// unrelated.
pub open spec fn second_probe<T>(ar: Arithmetic<T>, f: T) -> T {
    (ar.times)((ar.plus)(f, ratio_of(ar, 26, 5)), (ar.whole)(3))
}

/// `v` kept within zero and one.
pub open spec fn clamp_unit<T>(ar: Arithmetic<T>, v: T) -> T {
    if (ar.exceeds)((ar.whole)(0), v) {
        (ar.whole)(0)
    } else if (ar.exceeds)(v, (ar.whole)(1)) {
        (ar.whole)(1)
    } else {
        v
    }
}

/// A coordinate displaced by `d` times the strength, kept within the unit
/// interval.
pub open spec fn displaced<T>(ar: Arithmetic<T>, strength: T, f: T, d: T) -> T {
    clamp_unit(ar, (ar.plus)(f, (ar.times)(d, strength)))
}

/// The value of the warped generator at the cell `(y, x)`: the base at the
/// cell's coordinates, each displaced by what the warp has at its probe.
pub open spec fn warped_at<T, B: NoiseGenerator<T>, W: NoiseGenerator<T>>(
    ar: Arithmetic<T>,
    base: B,
    warp: W,
    size: int,
    strength: T,
    y: int,
    x: int,
) -> T {
    let fx = coordinate_of(ar, x, size);
    let fy = coordinate_of(ar, y, size);
    let dx = warp.value2(ar, first_probe(ar, fx), first_probe(ar, fy));
    let dy = warp.value2(ar, second_probe(ar, fx), second_probe(ar, fy));
    base.value2(ar, displaced(ar, strength, fx, dx), displaced(ar, strength, fy, dy))
}

/// The grid of the warped generator.
pub open spec fn warped_grid_of<T, B: NoiseGenerator<T>, W: NoiseGenerator<T>>(
    ar: Arithmetic<T>,
    base: B,
    warp: W,
    size: int,
    strength: T,
) -> Seq<Seq<T>> {
    Seq::new(
        size as nat,
        |y: int| Seq::new(size as nat, |x: int| warped_at(ar, base, warp, size, strength, y, x)),
    )
}

fn clamp<T: Copy, K: Reals<T>>(kit: &K, v: T) -> (r: T)
    requires
        kit.wf(),
    ensures
        r == clamp_unit(kit.model(), v),
{
    let zero = kit.whole(0);
    let one = kit.whole(1);
    if kit.exceeds(zero, v) {
        zero
    } else if kit.exceeds(v, one) {
        one
    } else {
        v
    }
}

/// A base generator, a generator that warps it, the edge of the grid to
/// render, and how far the warp reaches.
pub struct DomainWarp2D<'a, T, B, W> {
    pub base: &'a B,
    pub warp: &'a W,
    pub size: usize,
    pub warp_strength: T,
}

impl<'a, T: Copy, B: NoiseGenerator<T>, W: NoiseGenerator<T>> DomainWarp2D<'a, T, B, W> {
    /// Renders the base over the unit square at points displaced by the
    /// warp. The warp is asked before the base.
    pub fn generate<K: Reals<T>>(&self, kit: &K) -> (r: Result<Vec<Vec<T>>, Unsupported>)
        requires
            kit.wf(),
        ensures
            rows_or_refusal(r) == rendering(
                self.size as int,
                self.warp.kind_of(),
                self.base.kind_of(),
                warped_grid_of(
                    kit.model(),
                    *self.base,
                    *self.warp,
                    self.size as int,
                    self.warp_strength,
                ),
            ),
    {
        let size = self.size;
        let strength = self.warp_strength;
        let ghost ar = kit.model();
        let ghost want = warped_grid_of(ar, *self.base, *self.warp, size as int, strength);
        let edge = kit.count(size as u64);
        let three = kit.whole(3);
        let shift = ratio(kit, 26, 5);
        let mut data: Vec<Vec<T>> = Vec::new();
        let mut y: usize = 0;
        while y < size
            invariant
                y <= size,
                size == self.size,
                strength == self.warp_strength,
                kit.wf(),
                ar == kit.model(),
                edge == (ar.count)(size as u64),
                three == (ar.whole)(3),
                shift == ratio_of(ar, 26, 5),
                want == warped_grid_of(ar, *self.base, *self.warp, size as int, strength),
                y > 0 ==> self.warp.kind_of().supports(Dimension::Two) && self.base.kind_of().supports(
                    Dimension::Two,
                ),
                data@.len() == y,
                forall|r: int| 0 <= r < y ==> (#[trigger] data@[r])@ == want[r],
            decreases size - y,
        {
            let fy = kit.over(kit.count(y as u64), edge);
            let mut row: Vec<T> = Vec::new();
            let mut x: usize = 0;
            while x < size
                invariant
                    x <= size,
                    y < size,
                    size == self.size,
                    strength == self.warp_strength,
                    kit.wf(),
                    ar == kit.model(),
                    edge == (ar.count)(size as u64),
                    three == (ar.whole)(3),
                    shift == ratio_of(ar, 26, 5),
                    fy == coordinate_of(ar, y as int, size as int),
                    want == warped_grid_of(ar, *self.base, *self.warp, size as int, strength),
                    x > 0 || y > 0 ==> self.warp.kind_of().supports(Dimension::Two)
                        && self.base.kind_of().supports(Dimension::Two),
                    row@.len() == x,
                    forall|c: int| 0 <= c < x ==> (#[trigger] row@[c]) == want[y as int][c],
                decreases size - x,
            {
                let fx = kit.over(kit.count(x as u64), edge);
                let dx = match self.warp.get2(kit, kit.times(fx, three), kit.times(fy, three)) {
                    Ok(v) => v,
                    Err(e) => {
                        return Err(e);
                    },
                };
                let dy = match self.warp.get2(
                    kit,
                    kit.times(kit.plus(fx, shift), three),
                    kit.times(kit.plus(fy, shift), three),
                ) {
                    Ok(v) => v,
                    Err(e) => {
                        return Err(e);
                    },
                };
                let wx = clamp(kit, kit.plus(fx, kit.times(dx, strength)));
                let wy = clamp(kit, kit.plus(fy, kit.times(dy, strength)));
                match self.base.get2(kit, wx, wy) {
                    Ok(v) => {
                        row.push(v);
                    },
                    Err(e) => {
                        return Err(e);
                    },
                }
                x += 1;
            }
            assert(row@ =~= want[y as int]);
            data.push(row);
            y += 1;
        }
        assert(rows_of(data@) =~= want);
        assert(size == 0 ==> rows_of(data@) =~= Seq::<Seq<T>>::empty());
        Ok(data)
    }
}

/// A warp of no strength changes nothing: where displacing by nothing
/// leaves a coordinate as it is and the coordinates of the grid lie within
/// the unit interval, the warped grid is the grid of the base sampled
/// directly.
pub proof fn lemma_warp_of_no_strength<T, B: NoiseGenerator<T>, W: NoiseGenerator<T>>(
    ar: Arithmetic<T>,
    base: B,
    warp: W,
    size: int,
    strength: T,
)
    requires
        0 <= size,
        forall|f: T, d: T| #[trigger] (ar.plus)(f, (ar.times)(d, strength)) == f,
        forall|k: int|
            0 <= k < size ==> clamp_unit(ar, #[trigger] coordinate_of(ar, k, size)) == coordinate_of(
                ar,
                k,
                size,
            ),
    ensures
        warped_grid_of(ar, base, warp, size, strength) == direct_grid_of(ar, base, size),
{
    let warped = warped_grid_of(ar, base, warp, size, strength);
    let direct = direct_grid_of(ar, base, size);
    assert forall|y: int| 0 <= y < size implies warped[y] == direct[y] by {
        assert forall|x: int| 0 <= x < size implies warped[y][x] == direct[y][x] by {
            let fx = coordinate_of(ar, x, size);
            let fy = coordinate_of(ar, y, size);
            assert(clamp_unit(ar, fx) == fx);
            assert(clamp_unit(ar, fy) == fy);
        }
        assert(warped[y] =~= direct[y]);
    }
    assert(warped =~= direct);
}

} // verus!
