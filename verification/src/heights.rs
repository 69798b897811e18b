//! Filling a grid by the diamond-square schedule, and sampling between its
//! heights. A corner takes its draw; every other cell takes the mean of the
//! cells it averages, displaced by its draw times the amplitude of its
//! round.

use vstd::prelude::*;
use crate::fractal2::{
    is_square, plan_of, sources_of, valid_size, Displacement, Fractal2D, StepKind,
};
use crate::grid::{filled, in_grid, level, rows_of};
use crate::reals::{ratio, ratio_of, unit, unit_of, Arithmetic, Reals};
use crate::sampling::{Dimension, NoiseGenerator, SamplerKind, Unsupported};
use crate::schedule::{
    lemma_plan_sets_each_cell_once, lemma_plan_stays_in_grid, lemma_source_count,
    lemma_sources_are_set_earlier, sets,
};

verus! {

/// The amplitude of a round: one in the first, and `roughness` times that
/// of the round before in every other.
pub open spec fn amplitude<T>(ar: Arithmetic<T>, roughness: T, round: nat) -> T
    decreases round,
{
    if round == 0 {
        (ar.whole)(1)
    } else {
        (ar.times)(amplitude(ar, roughness, (round - 1) as nat), roughness)
    }
}

/// The first `k` of the given heights, summed from zero in order.
pub open spec fn sum_of<T>(ar: Arithmetic<T>, values: Seq<T>, k: int) -> T
    decreases k,
{
    if k <= 0 {
        (ar.whole)(0)
    } else {
        (ar.plus)(sum_of(ar, values, k - 1), values[k - 1])
    }
}

/// The height of a step, given the heights of the cells it averages. A
/// corner is its draw. A diamond is a quarter of the sum of its four cells,
/// a square the sum of its cells over their number; both are displaced by
/// the draw times the round's amplitude.
pub open spec fn height_of<T>(ar: Arithmetic<T>, roughness: T, d: Displacement, around: Seq<T>) -> T {
    let shift = (ar.times)(unit_of(ar, d.draw), amplitude(ar, roughness, d.visit.round as nat));
    match d.visit.kind {
        StepKind::Corner => unit_of(ar, d.draw),
        StepKind::Diamond => (ar.plus)(
            (ar.times)(
                (ar.plus)((ar.plus)((ar.plus)(around[0], around[1]), around[2]), around[3]),
                ratio_of(ar, 1, 4),
            ),
            shift,
        ),
        StepKind::Square => (ar.plus)(
            (ar.over)(sum_of(ar, around, around.len() as int), (ar.count)(around.len() as u64)),
            shift,
        ),
    }
}

/// The heights of the given cells, in order.
pub open spec fn values_at<T>(grid: Seq<Vec<T>>, cells: Seq<(usize, usize)>) -> Seq<T> {
    Seq::new(cells.len(), |k: int| grid[cells[k].0 as int]@[cells[k].1 as int])
}

/// The cell that step `d` sets holds the height that the rule gives for
/// `d` and the heights that `d` averages, as the grid holds them.
pub open spec fn settles<T>(
    ar: Arithmetic<T>,
    roughness: T,
    grid: Seq<Vec<T>>,
    size: int,
    d: Displacement,
) -> bool {
    grid[d.visit.row as int]@[d.visit.col as int] == height_of(
        ar,
        roughness,
        d,
        values_at(grid, sources_of(size, d.visit)),
    )
}

/// Copies a grid.
pub fn copy<T: Copy>(grid: &Vec<Vec<T>>) -> (r: Vec<Vec<T>>)
    ensures
        rows_of(r@) == rows_of(grid@),
{
    let mut r: Vec<Vec<T>> = Vec::new();
    let mut y: usize = 0;
    while y < grid.len()
        invariant
            y <= grid@.len(),
            r@.len() == y,
            forall|k: int| 0 <= k < y ==> (#[trigger] r@[k])@ == grid@[k]@,
        decreases grid@.len() - y,
    {
        let mut row: Vec<T> = Vec::new();
        let mut x: usize = 0;
        while x < grid[y].len()
            invariant
                y < grid@.len(),
                x <= grid@[y as int]@.len(),
                row@.len() == x,
                forall|c: int| 0 <= c < x ==> row@[c] == grid@[y as int]@[c],
            decreases grid@[y as int]@.len() - x,
        {
            row.push(grid[y][x]);
            x += 1;
        }
        assert(row@ =~= grid@[y as int]@);
        r.push(row);
        y += 1;
    }
    assert(rows_of(r@) =~= rows_of(grid@));
    r
}

/// Reads the heights of the given cells.
pub fn gather<T: Copy>(grid: &Vec<Vec<T>>, cells: &Vec<(usize, usize)>) -> (out: Vec<T>)
    requires
        forall|k: int|
            0 <= k < cells@.len() ==> (#[trigger] cells@[k]).0 < grid@.len() && cells@[k].1
                < grid@[cells@[k].0 as int]@.len(),
    ensures
        out@ == values_at(grid@, cells@),
{
    let mut out: Vec<T> = Vec::new();
    let mut k: usize = 0;
    while k < cells.len()
        invariant
            k <= cells@.len(),
            out@.len() == k,
            forall|m: int| 0 <= m < k ==> out@[m] == grid@[cells@[m].0 as int]@[cells@[m].1 as int],
            forall|m: int|
                0 <= m < cells@.len() ==> (#[trigger] cells@[m]).0 < grid@.len() && cells@[m].1
                    < grid@[cells@[m].0 as int]@.len(),
        decreases cells@.len() - k,
    {
        let (y, x) = cells[k];
        out.push(grid[y][x]);
        k += 1;
    }
    assert(out@ =~= values_at(grid@, cells@));
    out
}

/// Computes a step's height from the heights it averages and the amplitude
/// of its round.
fn height<T: Copy, K: Reals<T>>(
    d: Displacement,
    around: &Vec<T>,
    offset: T,
    kit: &K,
    Ghost(roughness): Ghost<T>,
) -> (h: T)
    requires
        kit.wf(),
        offset == amplitude(kit.model(), roughness, d.visit.round as nat),
        d.visit.kind == StepKind::Diamond ==> around@.len() == 4,
    ensures
        h == height_of(kit.model(), roughness, d, around@),
{
    let random = unit(kit, d.draw);
    match d.visit.kind {
        StepKind::Corner => random,
        StepKind::Diamond => {
            let ab = kit.plus(around[0], around[1]);
            let abc = kit.plus(ab, around[2]);
            let abcd = kit.plus(abc, around[3]);
            let mean = kit.times(abcd, ratio(kit, 1, 4));
            let shift = kit.times(random, offset);
            kit.plus(mean, shift)
        },
        StepKind::Square => {
            let mut sum = kit.whole(0);
            let mut k: usize = 0;
            while k < around.len()
                invariant
                    k <= around@.len(),
                    kit.wf(),
                    sum == sum_of(kit.model(), around@, k as int),
                decreases around@.len() - k,
            {
                sum = kit.plus(sum, around[k]);
                k += 1;
            }
            let number = kit.count(around.len() as u64);
            let mean = kit.over(sum, number);
            let shift = kit.times(random, offset);
            kit.plus(mean, shift)
        },
    }
}

/// Setting the cell of a later step leaves an earlier step's cell and the
/// cells it averages as they were.
proof fn lemma_later_step_spares(size: usize, seed: u64, j: int, i: int)
    requires
        valid_size(size as int),
        0 <= j < i < plan_of(size as int, seed).len(),
    ensures
        ({
            let plan = plan_of(size as int, seed);
            let target = plan[i].visit;
            &&& !sets(target, plan[j].visit.row as int, plan[j].visit.col as int)
            &&& forall|k: int|
                0 <= k < sources_of(size as int, plan[j].visit).len() ==> !sets(
                    target,
                    (#[trigger] sources_of(size as int, plan[j].visit)[k]).0 as int,
                    sources_of(size as int, plan[j].visit)[k].1 as int,
                )
        }),
{
    let plan = plan_of(size as int, seed);
    let target = plan[i].visit;
    lemma_plan_stays_in_grid(size, seed, i);
    let once = lemma_plan_sets_each_cell_once(size, seed, target.row as int, target.col as int);
    assert(sets(plan[i].visit, target.row as int, target.col as int));
    assert(once == i);
    if sets(target, plan[j].visit.row as int, plan[j].visit.col as int) {
        assert(sets(plan[j].visit, target.row as int, target.col as int));
    }
    assert forall|k: int| 0 <= k < sources_of(size as int, plan[j].visit).len() implies !sets(
        target,
        (#[trigger] sources_of(size as int, plan[j].visit)[k]).0 as int,
        sources_of(size as int, plan[j].visit)[k].1 as int,
    ) by {
        let m = lemma_sources_are_set_earlier(size, seed, j, k);
        let u = sources_of(size as int, plan[j].visit)[k];
        if sets(target, u.0 as int, u.1 as int) {
            assert(sets(plan[m].visit, target.row as int, target.col as int));
        }
    }
}

/// What a step averages lies in the grid and never includes the cell that
/// the step itself sets.
proof fn lemma_step_spares_itself(size: usize, seed: u64, i: int)
    requires
        valid_size(size as int),
        0 <= i < plan_of(size as int, seed).len(),
    ensures
        ({
            let plan = plan_of(size as int, seed);
            forall|k: int|
                0 <= k < sources_of(size as int, plan[i].visit).len() ==> in_grid(
                    (#[trigger] sources_of(size as int, plan[i].visit)[k]).0 as int,
                    sources_of(size as int, plan[i].visit)[k].1 as int,
                    size as int,
                    size as int,
                ) && !sets(
                    plan[i].visit,
                    sources_of(size as int, plan[i].visit)[k].0 as int,
                    sources_of(size as int, plan[i].visit)[k].1 as int,
                )
        }),
{
    let plan = plan_of(size as int, seed);
    let target = plan[i].visit;
    lemma_plan_stays_in_grid(size, seed, i);
    let once = lemma_plan_sets_each_cell_once(size, seed, target.row as int, target.col as int);
    assert(sets(plan[i].visit, target.row as int, target.col as int));
    assert forall|k: int| 0 <= k < sources_of(size as int, plan[i].visit).len() implies in_grid(
        (#[trigger] sources_of(size as int, plan[i].visit)[k]).0 as int,
        sources_of(size as int, plan[i].visit)[k].1 as int,
        size as int,
        size as int,
    ) && !sets(
        plan[i].visit,
        sources_of(size as int, plan[i].visit)[k].0 as int,
        sources_of(size as int, plan[i].visit)[k].1 as int,
    ) by {
        let m = lemma_sources_are_set_earlier(size, seed, i, k);
        let u = sources_of(size as int, plan[i].visit)[k];
        if sets(target, u.0 as int, u.1 as int) {
            assert(sets(plan[m].visit, target.row as int, target.col as int));
        }
    }
}

/// `after` is `before` with the cell `(r, c)` set anew and nothing else
/// touched.
spec fn differs_only_at<T>(before: Seq<Vec<T>>, after: Seq<Vec<T>>, r: int, c: int) -> bool {
    &&& after.len() == before.len()
    &&& forall|y: int| 0 <= y < before.len() ==> (#[trigger] after[y])@.len() == before[y]@.len()
    &&& forall|y: int, x: int|
        0 <= y < before.len() && 0 <= x < before[y]@.len() && !(y == r && x == c) ==> (
        #[trigger] after[y]@[x]) == before[y]@[x]
}

/// Setting the cell of step `i` changes nothing that step `j` averages, for
/// `j` no later than `i`.
proof fn lemma_sources_stay<T>(
    before: Seq<Vec<T>>,
    after: Seq<Vec<T>>,
    size: usize,
    seed: u64,
    j: int,
    i: int,
)
    requires
        valid_size(size as int),
        0 <= j <= i < plan_of(size as int, seed).len(),
        is_square(before, size as int),
        differs_only_at(
            before,
            after,
            plan_of(size as int, seed)[i].visit.row as int,
            plan_of(size as int, seed)[i].visit.col as int,
        ),
    ensures
        values_at(after, sources_of(size as int, plan_of(size as int, seed)[j].visit)) == values_at(
            before,
            sources_of(size as int, plan_of(size as int, seed)[j].visit),
        ),
        j < i ==> after[plan_of(size as int, seed)[j].visit.row as int]@[plan_of(
            size as int,
            seed,
        )[j].visit.col as int] == before[plan_of(size as int, seed)[j].visit.row as int]@[plan_of(
            size as int,
            seed,
        )[j].visit.col as int],
{
    let n = size as int;
    let plan = plan_of(n, seed);
    let cells = sources_of(n, plan[j].visit);
    if j < i {
        lemma_later_step_spares(size, seed, j, i);
    }
    lemma_step_spares_itself(size, seed, j);
    lemma_plan_stays_in_grid(size, seed, j);
    assert forall|k: int| 0 <= k < cells.len() implies values_at(after, cells)[k] == values_at(
        before,
        cells,
    )[k] by {
        let u = cells[k];
        assert(in_grid(u.0 as int, u.1 as int, n, n));
        assert(!sets(plan[i].visit, u.0 as int, u.1 as int));
        assert(before[u.0 as int]@.len() == n);
        assert(after[u.0 as int]@[u.1 as int] == before[u.0 as int]@[u.1 as int]);
    }
    assert(values_at(after, cells) =~= values_at(before, cells));
    let r = plan[j].visit.row as int;
    assert(before[r]@.len() == n);
}

impl<T: Copy> Fractal2D<T> {
    /// Fills a grid by the schedule, computing with the arithmetic of
    /// `kit`, keeps it for sampling and returns it.
    ///
    /// Since no cell is set twice and every cell is set before it is read,
    /// the finished grid satisfies every step at once: each cell holds
    /// what the rule gives for its step and for its neighbours as they
    /// stand in the finished grid.
    pub fn generate<K: Reals<T>>(&mut self, kit: &K) -> (grid: Vec<Vec<T>>)
        requires
            kit.wf(),
        ensures
            final(self)@ == old(self)@,
            final(self).held() == rows_of(grid@),
            is_square(grid@, old(self)@.size as int),
            forall|i: int|
                0 <= i < plan_of(old(self)@.size as int, old(self)@.seed).len() ==> settles(
                    kit.model(),
                    old(self)@.roughness,
                    grid@,
                    old(self)@.size as int,
                    #[trigger] plan_of(old(self)@.size as int, old(self)@.seed)[i],
                ),
    {
        let grid = self.fill(kit);
        let kept = copy(&grid);
        proof {
            let n = self@.size as int;
            assert(kept@.len() == rows_of(kept@).len());
            assert forall|y: int| 0 <= y < n implies (#[trigger] kept@[y])@.len() == n by {
                assert(rows_of(kept@)[y] == rows_of(grid@)[y]);
            }
        }
        self.keep(kept);
        grid
    }

    /// Fills a grid by the schedule.
    fn fill<K: Reals<T>>(&self, kit: &K) -> (grid: Vec<Vec<T>>)
        requires
            kit.wf(),
        ensures
            is_square(grid@, self@.size as int),
            forall|i: int|
                0 <= i < plan_of(self@.size as int, self@.seed).len() ==> settles(
                    kit.model(),
                    self@.roughness,
                    grid@,
                    self@.size as int,
                    #[trigger] plan_of(self@.size as int, self@.seed)[i],
                ),
    {
        let params = self.params();
        let size = params.size;
        let roughness = params.roughness;
        let ghost n = size as int;
        let ghost whole = plan_of(n, params.seed);
        let ghost ar = kit.model();
        let plan = self.plan();
        let zero = kit.whole(0);
        let mut grid = filled(size, size, zero);
        proof {
            assert(rows_of(grid@).len() == grid@.len());
            assert(level(zero, n, n).len() == n);
            assert forall|y: int| 0 <= y < n implies (#[trigger] grid@[y])@.len() == n by {
                assert(rows_of(grid@)[y] == grid@[y]@);
                assert(level(zero, n, n)[y].len() == n);
            }
        }
        let mut offset = kit.whole(1);
        let mut round: usize = 0;
        let mut i: usize = 0;
        while i < plan.len()
            invariant
                i <= plan@.len(),
                plan@ == whole,
                whole == plan_of(n, params.seed),
                n == size,
                size == params.size,
                roughness == params.roughness,
                self@ == params,
                valid_size(n),
                kit.wf(),
                ar == kit.model(),
                offset == amplitude(ar, roughness, round as nat),
                is_square(grid@, n),
                forall|j: int| 0 <= j < i ==> settles(ar, roughness, grid@, n, #[trigger] whole[j]),
            decreases plan@.len() - i,
        {
            let d = plan[i];
            assert(d == whole[i as int]);
            if d.visit.round < round {
                offset = kit.whole(1);
                round = 0;
            }
            while round < d.visit.round
                invariant
                    round <= d.visit.round,
                    kit.wf(),
                    ar == kit.model(),
                    offset == amplitude(ar, roughness, round as nat),
                decreases d.visit.round - round,
            {
                offset = kit.times(offset, roughness);
                round += 1;
            }
            let cells = self.sources(d.visit);
            proof {
                lemma_plan_stays_in_grid(size, params.seed, i as int);
                lemma_step_spares_itself(size, params.seed, i as int);
                lemma_source_count(size, params.seed, i as int);
                assert forall|k: int| 0 <= k < cells@.len() implies (#[trigger] cells@[k]).0
                    < grid@.len() && cells@[k].1 < grid@[cells@[k].0 as int]@.len() by {
                    let u = sources_of(n, whole[i as int].visit)[k];
                    assert(in_grid(u.0 as int, u.1 as int, n, n));
                }
            }
            let around = gather(&grid, &cells);
            let ghost before = grid@;
            let h = height(d, &around, offset, kit, Ghost(roughness));
            assert(grid@[d.visit.row as int]@.len() == n);
            grid[d.visit.row][d.visit.col] = h;
            proof {
                let after = grid@;
                assert(differs_only_at(before, after, d.visit.row as int, d.visit.col as int));
                assert forall|j: int| 0 <= j < i + 1 implies settles(
                    ar,
                    roughness,
                    after,
                    n,
                    #[trigger] whole[j],
                ) by {
                    lemma_sources_stay(before, after, size, params.seed, j, i as int);
                }
            }
            i += 1;
        }
        grid
    }
}

/// Two grids that satisfy every step agree on the cell that step `i` sets.
proof fn lemma_agree_at<T>(
    ar: Arithmetic<T>,
    roughness: T,
    one: Seq<Vec<T>>,
    other: Seq<Vec<T>>,
    size: usize,
    seed: u64,
    i: int,
)
    requires
        valid_size(size as int),
        0 <= i < plan_of(size as int, seed).len(),
        forall|j: int|
            0 <= j < plan_of(size as int, seed).len() ==> settles(
                ar,
                roughness,
                one,
                size as int,
                #[trigger] plan_of(size as int, seed)[j],
            ),
        forall|j: int|
            0 <= j < plan_of(size as int, seed).len() ==> settles(
                ar,
                roughness,
                other,
                size as int,
                #[trigger] plan_of(size as int, seed)[j],
            ),
    ensures
        ({
            let v = plan_of(size as int, seed)[i].visit;
            one[v.row as int]@[v.col as int] == other[v.row as int]@[v.col as int]
        }),
    decreases i,
{
    let n = size as int;
    let plan = plan_of(n, seed);
    let cells = sources_of(n, plan[i].visit);
    assert(settles(ar, roughness, one, n, plan[i]));
    assert(settles(ar, roughness, other, n, plan[i]));
    assert forall|k: int| 0 <= k < cells.len() implies values_at(one, cells)[k] == values_at(
        other,
        cells,
    )[k] by {
        let j = lemma_sources_are_set_earlier(size, seed, i, k);
        lemma_agree_at(ar, roughness, one, other, size, seed, j);
    }
    assert(values_at(one, cells) =~= values_at(other, cells));
}

/// The schedule has one solution: two grids that satisfy every step hold
/// the same heights throughout. So generating twice with the same size,
/// seed, roughness and arithmetic gives the same grid.
pub proof fn lemma_generate_is_determined<T>(
    ar: Arithmetic<T>,
    roughness: T,
    one: Seq<Vec<T>>,
    other: Seq<Vec<T>>,
    size: usize,
    seed: u64,
)
    requires
        valid_size(size as int),
        is_square(one, size as int),
        is_square(other, size as int),
        forall|j: int|
            0 <= j < plan_of(size as int, seed).len() ==> settles(
                ar,
                roughness,
                one,
                size as int,
                #[trigger] plan_of(size as int, seed)[j],
            ),
        forall|j: int|
            0 <= j < plan_of(size as int, seed).len() ==> settles(
                ar,
                roughness,
                other,
                size as int,
                #[trigger] plan_of(size as int, seed)[j],
            ),
    ensures
        rows_of(one) == rows_of(other),
{
    let n = size as int;
    assert forall|y: int| 0 <= y < n implies rows_of(one)[y] == rows_of(other)[y] by {
        assert(one[y]@.len() == n);
        assert(other[y]@.len() == n);
        assert forall|x: int| 0 <= x < n implies one[y]@[x] == other[y]@[x] by {
            let i = lemma_plan_sets_each_cell_once(size, seed, y, x);
            lemma_agree_at(ar, roughness, one, other, size, seed, i);
        }
        assert(one[y]@ =~= other[y]@);
    }
    assert(rows_of(one) =~= rows_of(other));
}

/// The value between the heights of a grid at `(x, y)` of the unit square.
/// The point is scaled to the grid and lies in the cell of its floor; the
/// four corners of the cell are interpolated, along x first and along y
/// after. Where the cell does not lie in the grid with all four corners,
/// and before any grid has been generated, the value is zero.
pub open spec fn bilinear_of<T>(ar: Arithmetic<T>, grid: Seq<Seq<T>>, size: int, x: T, y: T) -> T {
    let fx = (ar.times)(x, (ar.count)(size as u64));
    let fy = (ar.times)(y, (ar.count)(size as u64));
    let xi = (ar.cell)((ar.floor)(fx)) as int;
    let yi = (ar.cell)((ar.floor)(fy)) as int;
    if grid.len() == 0 || xi < 0 || yi < 0 || xi + 1 >= size || yi + 1 >= size {
        (ar.whole)(0)
    } else {
        let tx = (ar.minus)(fx, (ar.count)(xi as u64));
        let ty = (ar.minus)(fy, (ar.count)(yi as u64));
        let ux = (ar.minus)((ar.whole)(1), tx);
        let uy = (ar.minus)((ar.whole)(1), ty);
        let ab = (ar.plus)((ar.times)(grid[yi][xi], ux), (ar.times)(grid[yi][xi + 1], tx));
        let cd = (ar.plus)((ar.times)(grid[yi + 1][xi], ux), (ar.times)(grid[yi + 1][xi + 1], tx));
        (ar.plus)((ar.times)(ab, uy), (ar.times)(cd, ty))
    }
}

impl<T: Copy> NoiseGenerator<T> for Fractal2D<T> {
    open spec fn kind_of(&self) -> SamplerKind {
        SamplerKind::Fractal2D
    }

    open spec fn value2(&self, ar: Arithmetic<T>, x: T, y: T) -> T {
        bilinear_of(ar, self.held(), self@.size as int, x, y)
    }

    /// A planar generator has no value in space; any will do for a query
    /// that is refused.
    open spec fn value3(&self, ar: Arithmetic<T>, x: T, y: T, z: T) -> T {
        x
    }

    fn kind(&self) -> (k: SamplerKind) {
        SamplerKind::Fractal2D
    }

    fn get2<K: Reals<T>>(&self, kit: &K, x: T, y: T) -> (r: Result<T, Unsupported>) {
        let size = self.params().size;
        let map = self.map();
        let edge = kit.count(size as u64);
        let fx = kit.times(x, edge);
        let fy = kit.times(y, edge);
        let ci = kit.cell(kit.floor(fx));
        let cj = kit.cell(kit.floor(fy));
        if map.len() == 0 || ci < 0 || cj < 0 {
            return Ok(kit.whole(0));
        }
        let xi = ci as usize;
        let yi = cj as usize;
        if !self.covers(xi, yi) {
            return Ok(kit.whole(0));
        }
        proof {
            assert(rows_of(map@)[yi as int] == map@[yi as int]@);
            assert(rows_of(map@)[yi + 1] == map@[yi + 1]@);
        }
        let tx = kit.minus(fx, kit.count(xi as u64));
        let ty = kit.minus(fy, kit.count(yi as u64));
        let one = kit.whole(1);
        let ux = kit.minus(one, tx);
        let uy = kit.minus(one, ty);
        let ab = kit.plus(kit.times(map[yi][xi], ux), kit.times(map[yi][xi + 1], tx));
        let cd = kit.plus(kit.times(map[yi + 1][xi], ux), kit.times(map[yi + 1][xi + 1], tx));
        Ok(kit.plus(kit.times(ab, uy), kit.times(cd, ty)))
    }

    fn get3<K: Reals<T>>(&self, kit: &K, x: T, y: T, z: T) -> (r: Result<T, Unsupported>) {
        Err(Unsupported { kind: SamplerKind::Fractal2D, dimension: Dimension::Three })
    }
}

} // verus!
