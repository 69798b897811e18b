//! The diamond-square generator and its schedule: which cell is displaced
//! when, from which neighbours, and by which random draw.

use vstd::prelude::*;
use vstd::arithmetic::power2::is_pow2;
use vstd::arithmetic::power2::pow2;
use crate::grid::{if_in_grid, push_if_in_grid, rows_of, Step};
use crate::rng::{xorshift_iter, XorShift64};

verus! {

/// The constant that the seed is mixed with before the first draw.
pub const FRACTAL_SALT: u64 = 0xCAFEBABE12345678;

/// A grid edge that the bisection can work on: at least 3, and one more than
/// a power of two.
pub open spec fn valid_size(size: int) -> bool {
    size >= 3 && is_pow2(size - 1)
}

/// The edges `2^n + 1` are valid for `n` from 1 to 10.
pub proof fn lemma_valid_sizes()
    ensures
        valid_size(3),
        valid_size(5),
        valid_size(9),
        valid_size(17),
        valid_size(33),
        valid_size(65),
        valid_size(129),
        valid_size(257),
        valid_size(513),
        valid_size(1025),
        !valid_size(0),
        !valid_size(1),
        !valid_size(2),
        !valid_size(4),
{
    reveal_with_fuel(is_pow2, 12);
}

/// How a cell gets its height.
#[derive(Clone, Copy, Debug, PartialEq, Eq, Structural)]
pub enum StepKind {
    /// One of the four corners of the grid: the draw alone.
    Corner,
    /// The centre of a coarse cell: the mean of the cell's four corners,
    /// displaced.
    Diamond,
    /// The midpoint of a coarse cell's edge: the mean of the neighbours
    /// along both axes that lie in the grid, displaced.
    Square,
}

/// One step of the schedule, without its draw.
#[derive(Clone, Copy, Debug, PartialEq, Eq, Structural)]
pub struct Visit {
    /// Row of the cell that is set.
    pub row: usize,
    /// Column of the cell that is set.
    pub col: usize,
    pub kind: StepKind,
    /// Distance from the cell to the cells it averages, along each axis that
    /// it looks along; 0 for a corner.
    pub reach: usize,
    /// How often the amplitude has decayed before this step.
    pub round: usize,
}

/// One step of the schedule with the raw state of the random stream that
/// displaces it.
#[derive(Clone, Copy, Debug, PartialEq, Eq, Structural)]
pub struct Displacement {
    pub visit: Visit,
    pub draw: u64,
}

/// The visit with the given fields.
pub open spec fn visit_at(row: int, col: int, kind: StepKind, reach: int, round: int) -> Visit {
    Visit { row: row as usize, col: col as usize, kind, reach: reach as usize, round: round as usize }
}

/// The four corner visits: top left, top right, bottom left, bottom right.
pub open spec fn corner_visits(size: int) -> Seq<Visit> {
    seq![
        visit_at(0, 0, StepKind::Corner, 0, 0),
        visit_at(0, size - 1, StepKind::Corner, 0, 0),
        visit_at(size - 1, 0, StepKind::Corner, 0, 0),
        visit_at(size - 1, size - 1, StepKind::Corner, 0, 0),
    ]
}

/// The `k`-th diamond visit of a round. The grid is cut into `q` by `q`
/// coarse cells of edge `step`, taken row by row; each has its centre set.
pub open spec fn diamond_visit(step: int, round: int, q: int, k: int) -> Visit {
    let half = step / 2;
    visit_at((k / q) * step + half, (k % q) * step + half, StepKind::Diamond, half, round)
}

/// The `k`-th square visit of a round. Rows lie `half` apart. A row through
/// coarse corners holds the `q` midpoints of horizontal edges; a row through
/// coarse centres holds the `q + 1` midpoints of vertical edges. The rows
/// alternate, starting and ending with one of the first sort.
pub open spec fn square_visit(step: int, round: int, q: int, k: int) -> Visit {
    let half = step / 2;
    let pair = k / (2 * q + 1);
    let rest = k % (2 * q + 1);
    if rest < q {
        visit_at(2 * pair * half, half + rest * step, StepKind::Square, half, round)
    } else {
        visit_at((2 * pair + 1) * half, (rest - q) * step, StepKind::Square, half, round)
    }
}

/// All diamond visits of the round with `q` coarse cells per side.
pub open spec fn diamond_visits(step: int, round: int, q: int) -> Seq<Visit> {
    Seq::new((q * q) as nat, |k: int| diamond_visit(step, round, q, k))
}

/// All square visits of the round with `q` coarse cells per side.
pub open spec fn square_visits(step: int, round: int, q: int) -> Seq<Visit> {
    Seq::new((2 * q * (q + 1)) as nat, |k: int| square_visit(step, round, q, k))
}

/// The visits from the round with the given step to the last, whose step is
/// 2. Every round sets the diamonds first and the squares after them, then
/// halves the step.
pub open spec fn rounds_from(size: int, step: int, round: int) -> Seq<Visit>
    decreases step,
{
    if step < 2 {
        Seq::empty()
    } else {
        let q = (size - 1) / step;
        diamond_visits(step, round, q) + square_visits(step, round, q) + rounds_from(
            size,
            step / 2,
            round + 1,
        )
    }
}

/// Every visit of the schedule for a grid of the given edge, in order.
pub open spec fn visits_of(size: int) -> Seq<Visit> {
    corner_visits(size) + rounds_from(size, size - 1, 0)
}

/// The schedule for a grid of the given edge and a seed: the `i`-th visit is
/// displaced by the state of the stream after `i + 1` rounds of mixing.
pub open spec fn plan_of(size: int, seed: u64) -> Seq<Displacement> {
    Seq::new(
        visits_of(size).len(),
        |i: int|
            Displacement {
                visit: visits_of(size)[i],
                draw: xorshift_iter(seed ^ FRACTAL_SALT, (i + 1) as nat),
            },
    )
}

/// The cells that a visit averages, in the order in which they are summed.
/// A corner averages nothing. A diamond looks along both diagonals: up
/// left, up right, down left, down right. A square looks along the axes:
/// left, right, up, down. Cells that would lie outside the grid are left
/// out.
pub open spec fn sources_of(size: int, v: Visit) -> Seq<(usize, usize)> {
    let r = v.row as int;
    let c = v.col as int;
    let h = v.reach as int;
    match v.kind {
        StepKind::Corner => Seq::empty(),
        StepKind::Diamond => if_in_grid(r - h, c - h, size, size) + if_in_grid(
            r - h,
            c + h,
            size,
            size,
        ) + if_in_grid(r + h, c - h, size, size) + if_in_grid(r + h, c + h, size, size),
        StepKind::Square => if_in_grid(r, c - h, size, size) + if_in_grid(r, c + h, size, size)
            + if_in_grid(r - h, c, size, size) + if_in_grid(r + h, c, size, size),
    }
}

/// What the generator is constructed with. `T` is the type of the heights,
/// and so of the roughness that scales them.
#[derive(Clone, Copy, Debug)]
pub struct FractalParams<T> {
    /// Edge of the grid.
    pub size: usize,
    pub seed: u64,
    /// Factor by which the amplitude decays from round to round.
    pub roughness: T,
}

/// A diamond-square generator, and the grid it last generated.
pub struct Fractal2D<T> {
    params: FractalParams<T>,
    map: Vec<Vec<T>>,
}

impl<T> View for Fractal2D<T> {
    type V = FractalParams<T>;

    closed spec fn view(&self) -> FractalParams<T> {
        self.params
    }
}

proof fn lemma_halve_pow2(n: int)
    requires
        is_pow2(n),
        n >= 2,
    ensures
        n % 2 == 0,
        is_pow2(n / 2),
{
    reveal(is_pow2);
}

proof fn lemma_scale(k: int, q: int, step: int)
    by (nonlinear_arith)
    requires
        0 <= k < q,
        0 <= step,
    ensures
        0 <= k * step,
        k * step + step <= q * step,
{
}

proof fn lemma_halves(q: int, step: int)
    by (nonlinear_arith)
    requires
        0 <= q,
        step % 2 == 0,
    ensures
        (2 * q) * (step / 2) == q * step,
{
}

/// Tells whether a grid edge is one that the generator accepts.
pub fn is_valid_size(size: usize) -> (ok: bool)
    ensures
        ok == valid_size(size as int),
{
    if size < 3 {
        return false;
    }
    let mut m: usize = size - 1;
    while m % 2 == 0
        invariant
            m >= 1,
            is_pow2(m as int) == is_pow2(size - 1),
        decreases m,
    {
        proof {
            reveal(is_pow2);
        }
        m = m / 2;
    }
    proof {
        reveal(is_pow2);
    }
    m == 1
}

/// The grid edge for a resolution exponent: `2^exp + 1`, for every
/// exponent from 1 on whose edge fits the machine word.
pub fn size_for_exponent(exp: u32) -> (r: Option<usize>)
    ensures
        r matches Some(size) ==> size == pow2(exp as nat) + 1 && valid_size(size as int),
        r is None <==> exp == 0 || pow2(exp as nat) + 1 > usize::MAX,
{
    if exp == 0 {
        return None;
    }
    let mut edge: usize = 1;
    let mut done: u32 = 0;
    proof {
        vstd::arithmetic::power2::lemma2_to64();
        reveal(is_pow2);
    }
    while done < exp
        invariant
            done <= exp,
            edge == pow2(done as nat),
            is_pow2(edge as int),
            edge >= 1,
        decreases exp - done,
    {
        proof {
            vstd::arithmetic::power2::lemma_pow2_unfold((done + 1) as nat);
            if done + 1 < exp {
                vstd::arithmetic::power2::lemma_pow2_strictly_increases(
                    (done + 1) as nat,
                    exp as nat,
                );
            }
        }
        if edge > usize::MAX / 2 {
            return None;
        }
        edge = edge * 2;
        done += 1;
        proof {
            reveal(is_pow2);
        }
    }
    if edge == usize::MAX {
        return None;
    }
    proof {
        vstd::arithmetic::power2::lemma_pow2_strictly_increases(0, exp as nat);
    }
    Some(edge + 1)
}

/// The grid has `size` rows of `size` cells.
pub open spec fn is_square<T>(grid: Seq<Vec<T>>, size: int) -> bool {
    &&& grid.len() == size
    &&& forall|y: int| 0 <= y < size ==> (#[trigger] grid[y])@.len() == size
}

impl<T> Fractal2D<T> {
    #[verifier::type_invariant]
    spec fn size_is_valid(&self) -> bool {
        &&& valid_size(self.params.size as int)
        &&& self.map@.len() == 0 || is_square(self.map@, self.params.size as int)
    }

    /// The rows of the grid last generated; none before the first.
    pub closed spec fn held(&self) -> Seq<Seq<T>> {
        rows_of(self.map@)
    }
}

impl<T: Copy> Fractal2D<T> {
    /// Builds the generator.
    pub fn new(size: usize, seed: u64, roughness: T) -> (r: Self)
        requires
            valid_size(size as int),
        ensures
            r@ == (FractalParams { size, seed, roughness }),
            r.held().len() == 0,
    {
        Fractal2D { params: FractalParams { size, seed, roughness }, map: Vec::new() }
    }

    /// Builds the generator if `size` is a grid edge that it accepts.
    pub fn try_new(size: usize, seed: u64, roughness: T) -> (r: Option<Self>)
        ensures
            r is Some <==> valid_size(size as int),
            r matches Some(f) ==> f@ == (FractalParams { size, seed, roughness }) && f.held().len()
                == 0,
    {
        if is_valid_size(size) {
            Some(Self::new(size, seed, roughness))
        } else {
            None
        }
    }

    /// The parameters given at construction.
    pub fn params(&self) -> (r: FractalParams<T>)
        ensures
            r == self@,
            valid_size(r.size as int),
    {
        proof {
            use_type_invariant(self);
        }
        self.params
    }

    /// The grid last generated; without rows before the first.
    pub fn map(&self) -> (r: &Vec<Vec<T>>)
        ensures
            rows_of(r@) == self.held(),
            r@.len() == 0 || is_square(r@, self@.size as int),
    {
        proof {
            use_type_invariant(self);
        }
        &self.map
    }

    /// Keeps `grid` as the grid last generated.
    pub(crate) fn keep(&mut self, grid: Vec<Vec<T>>)
        requires
            is_square(grid@, old(self)@.size as int),
        ensures
            final(self)@ == old(self)@,
            final(self).held() == rows_of(grid@),
    {
        proof {
            use_type_invariant(&*self);
        }
        self.map = grid;
    }

    /// Tells whether the unit cell with lower corner `(yi, xi)` lies in the
    /// grid with all four of its corners, so that a point in it can be
    /// interpolated. A point that falls outside samples as zero.
    pub fn covers(&self, xi: usize, yi: usize) -> (ok: bool)
        ensures
            ok == (xi + 1 < self@.size && yi + 1 < self@.size),
    {
        let size = self.params.size;
        size >= 1 && xi < size - 1 && yi < size - 1
    }

    /// Lists the cells that a visit averages, in summing order.
    pub fn sources(&self, v: Visit) -> (r: Vec<(usize, usize)>)
        ensures
            r@ == sources_of(self@.size as int, v),
    {
        let size = self.params.size;
        let back = Step { by: v.reach, back: true };
        let forth = Step { by: v.reach, back: false };
        let stay = Step { by: 0, back: false };
        let mut r: Vec<(usize, usize)> = Vec::new();
        match v.kind {
            StepKind::Corner => {},
            StepKind::Diamond => {
                push_if_in_grid(&mut r, v.row, v.col, back, back, size, size);
                push_if_in_grid(&mut r, v.row, v.col, back, forth, size, size);
                push_if_in_grid(&mut r, v.row, v.col, forth, back, size, size);
                push_if_in_grid(&mut r, v.row, v.col, forth, forth, size, size);
            },
            StepKind::Square => {
                push_if_in_grid(&mut r, v.row, v.col, stay, back, size, size);
                push_if_in_grid(&mut r, v.row, v.col, stay, forth, size, size);
                push_if_in_grid(&mut r, v.row, v.col, back, stay, size, size);
                push_if_in_grid(&mut r, v.row, v.col, forth, stay, size, size);
            },
        }
        assert(r@ =~= sources_of(size as int, v));
        r
    }

    /// Lays out the whole schedule: the four corners, then round after round
    /// of diamonds and squares until the step is 1, each visit with its draw.
    pub fn plan(&self) -> (plan: Vec<Displacement>)
        ensures
            plan@ == plan_of(self@.size as int, self@.seed),
    {
        proof {
            use_type_invariant(self);
        }
        let size: usize = self.params.size;
        let ghost start = self.params.seed ^ FRACTAL_SALT;
        let ghost n = size as int;
        let mut rng = XorShift64::new(self.params.seed, FRACTAL_SALT);
        let mut plan: Vec<Displacement> = Vec::new();
        let ghost mut done: Seq<Visit> = Seq::empty();

        let last: usize = size - 1;
        push_visit(&mut plan, &mut rng, Ghost(start), Visit { row: 0, col: 0, kind: StepKind::Corner, reach: 0, round: 0 });
        push_visit(&mut plan, &mut rng, Ghost(start), Visit { row: 0, col: last, kind: StepKind::Corner, reach: 0, round: 0 });
        push_visit(&mut plan, &mut rng, Ghost(start), Visit { row: last, col: 0, kind: StepKind::Corner, reach: 0, round: 0 });
        push_visit(&mut plan, &mut rng, Ghost(start), Visit { row: last, col: last, kind: StepKind::Corner, reach: 0, round: 0 });
        proof {
            done = corner_visits(n);
            assert(visits_in(plan@) =~= done);
        }

        let mut step: usize = last;
        let mut q: usize = 1;
        let mut round: usize = 0;
        while step > 1
            invariant
                n == size,
                n >= 3,
                1 <= step,
                is_pow2(step as int),
                q >= 1,
                q * step == n - 1,
                round + step <= n,
                follows(plan@, rng.state(), start),
                visits_in(plan@) == done,
                done + rounds_from(n, step as int, round as int) == visits_of(n),
            decreases step,
        {
            proof {
                lemma_halve_pow2(step as int);
                lemma_halves(q as int, step as int);
                assert((n - 1) / (step as int) == q) by (nonlinear_arith)
                    requires
                        q * step == n - 1,
                        step >= 1,
                ;
            }
            let half: usize = step / 2;
            let ghost base = done;
            let ghost diamonds = diamond_visits(step as int, round as int, q as int);
            let ghost squares = square_visits(step as int, round as int, q as int);

            let mut by: usize = 0;
            proof {
                assert(by * q == 0) by (nonlinear_arith)
                    requires
                        by == 0,
                ;
                assert(done =~= base + diamonds.subrange(0, 0));
            }
            while by < q
                invariant
                    by <= q,
                    q >= 1,
                    q * step == n - 1,
                    n == size,
                    half == step / 2,
                    step >= 2,
                    follows(plan@, rng.state(), start),
                    visits_in(plan@) == done,
                    diamonds == diamond_visits(step as int, round as int, q as int),
                    done == base + diamonds.subrange(0, by * q),
                decreases q - by,
            {
                let mut bx: usize = 0;
                while bx < q
                    invariant
                        by < q,
                        bx <= q,
                        q * step == n - 1,
                        n == size,
                        half == step / 2,
                        step >= 2,
                        follows(plan@, rng.state(), start),
                        visits_in(plan@) == done,
                        diamonds == diamond_visits(step as int, round as int, q as int),
                        done == base + diamonds.subrange(0, by * q + bx),
                    decreases q - bx,
                {
                    proof {
                        lemma_scale(by as int, q as int, step as int);
                        lemma_scale(bx as int, q as int, step as int);
                        lemma_scale(by as int, q as int, q as int);
                        vstd::arithmetic::div_mod::lemma_fundamental_div_mod_converse(
                            by * q + bx,
                            q as int,
                            by as int,
                            bx as int,
                        );
                    }
                    let v = Visit {
                        row: by * step + half,
                        col: bx * step + half,
                        kind: StepKind::Diamond,
                        reach: half,
                        round,
                    };
                    push_visit(&mut plan, &mut rng, Ghost(start), v);
                    proof {
                        let k = by * q + bx;
                        assert(v == diamonds[k]);
                        assert(diamonds.subrange(0, k).push(v) =~= diamonds.subrange(0, k + 1));
                        done = done.push(v);
                        assert(done =~= base + diamonds.subrange(0, k + 1));
                    }
                    bx += 1;
                }
                proof {
                    assert(by * q + q == (by + 1) * q) by (nonlinear_arith);
                }
                by += 1;
            }
            proof {
                assert(diamonds.subrange(0, q * q) =~= diamonds);
            }

            let ghost mid = done;
            let mut ky: usize = 0;
            proof {
                assert(2 * q <= q * step) by (nonlinear_arith)
                    requires
                        step >= 2,
                        q >= 0,
                ;
            }
            let rows: usize = 2 * q;
            proof {
                lemma_squares_before(q as int, 0);
                assert(done =~= mid + squares.subrange(0, 0));
            }
            while ky <= rows
                invariant
                    ky <= rows + 1,
                    rows == 2 * q,
                    q >= 1,
                    q * step == n - 1,
                    rows * half == n - 1,
                    n == size,
                    half == step / 2,
                    step == 2 * half,
                    step >= 2,
                    follows(plan@, rng.state(), start),
                    visits_in(plan@) == done,
                    squares == square_visits(step as int, round as int, q as int),
                    done == mid + squares.subrange(0, squares_before(q as int, ky as int)),
                decreases rows + 1 - ky,
            {
                let odd: bool = ky % 2 == 1;
                let count: usize = if odd { q + 1 } else { q };
                let first: usize = if odd { 0 } else { half };
                let ghost row_base = squares_before(q as int, ky as int);
                proof {
                    lemma_squares_before(q as int, ky as int);
                    if ky < rows {
                        lemma_scale(ky as int, rows as int, half as int);
                    }
                }
                let row: usize = ky * half;
                let mut kx: usize = 0;
                while kx < count
                    invariant
                        kx <= count,
                        ky <= rows,
                        rows == 2 * q,
                        odd == (ky % 2 == 1),
                        count == if odd { q + 1 } else { q as int },
                        first == if odd { 0 } else { half },
                        row == ky * half,
                        row < n,
                        q >= 1,
                        q * step == n - 1,
                        n == size,
                        half == step / 2,
                        step == 2 * half,
                        step >= 2,
                        follows(plan@, rng.state(), start),
                        visits_in(plan@) == done,
                        squares == square_visits(step as int, round as int, q as int),
                        row_base == squares_before(q as int, ky as int),
                        row_base + count == squares_before(q as int, ky + 1),
                        row_base + count <= 2 * q * (q + 1),
                        done == mid + squares.subrange(0, row_base + kx),
                    decreases count - kx,
                {
                    proof {
                        if odd {
                            if kx < q {
                                lemma_scale(kx as int, q as int, step as int);
                            }
                        } else {
                            lemma_scale(kx as int, q as int, step as int);
                        }
                        lemma_square_index(q as int, ky as int, kx as int);
                    }
                    let v = Visit {
                        row,
                        col: first + kx * step,
                        kind: StepKind::Square,
                        reach: half,
                        round,
                    };
                    push_visit(&mut plan, &mut rng, Ghost(start), v);
                    proof {
                        let k = row_base + kx;
                        assert(v == squares[k]);
                        assert(squares.subrange(0, k).push(v) =~= squares.subrange(0, k + 1));
                        done = done.push(v);
                        assert(done =~= mid + squares.subrange(0, k + 1));
                    }
                    kx += 1;
                }
                ky += 1;
            }
            proof {
                lemma_squares_before(q as int, rows + 1);
                assert(squares.subrange(0, 2 * q * (q + 1)) =~= squares);
                assert(done =~= base + diamonds + squares);
                assert(base + (diamonds + squares + rounds_from(n, half as int, round + 1)) =~= done
                    + rounds_from(n, half as int, round + 1));
                assert((n - 1) / (half as int) == 2 * q) by (nonlinear_arith)
                    requires
                        (2 * q) * half == n - 1,
                        half >= 1,
                ;
            }
            step = half;
            q = rows;
            round += 1;
        }
        proof {
            assert(done =~= visits_of(n));
            assert(plan@ =~= plan_of(n, self@.seed));
        }
        plan
    }
}

/// The visits of a plan, without the draws.
spec fn visits_in(plan: Seq<Displacement>) -> Seq<Visit> {
    Seq::new(plan.len(), |i: int| plan[i].visit)
}

/// Every draw of `plan` is the state of the stream that started at `start`,
/// one round further for each entry, and `state` is where the stream stands
/// after the last of them.
spec fn follows(plan: Seq<Displacement>, state: u64, start: u64) -> bool {
    &&& state == xorshift_iter(start, plan.len())
    &&& forall|i: int| 0 <= i < plan.len() ==> (#[trigger] plan[i]).draw == xorshift_iter(start, (i + 1) as nat)
}

/// Number of square visits in the rows before row `ky`.
spec fn squares_before(q: int, ky: int) -> int {
    (ky / 2) * (2 * q + 1) + if ky % 2 == 1 { q } else { 0 }
}

proof fn lemma_squares_before(q: int, ky: int)
    requires
        q >= 1,
        0 <= ky <= 2 * q + 1,
    ensures
        squares_before(q, ky + 1) == squares_before(q, ky) + if ky % 2 == 1 { q + 1 } else { q },
        squares_before(q, 0) == 0,
        squares_before(q, 2 * q + 1) == 2 * q * (q + 1),
        ky <= 2 * q ==> squares_before(q, ky + 1) <= 2 * q * (q + 1),
        squares_before(q, ky) >= 0,
{
    let w = 2 * q + 1;
    assert(0int / 2 == 0);
    assert(0 * w == 0);
    if ky % 2 == 1 {
        assert((ky + 1) / 2 == ky / 2 + 1);
        assert((ky / 2 + 1) * w == (ky / 2) * w + w) by (nonlinear_arith);
    } else {
        assert((ky + 1) / 2 == ky / 2);
    }
    assert((2 * q + 1) / 2 == q);
    assert(q * w + q == 2 * q * (q + 1)) by (nonlinear_arith)
        requires
            w == 2 * q + 1,
    ;
    assert((ky / 2) * w >= 0) by (nonlinear_arith)
        requires
            ky / 2 >= 0,
            w >= 0,
    ;
    if ky <= 2 * q {
        let p = (ky + 1) / 2;
        assert(p <= q);
        assert(p * w <= q * w) by (nonlinear_arith)
            requires
                p <= q,
                w >= 0,
        ;
        if (ky + 1) % 2 == 1 {
            assert(squares_before(q, ky + 1) == p * w + q);
        } else {
            assert(squares_before(q, ky + 1) == p * w);
        }
    }
}

/// The `kx`-th cell of square row `ky` sits where the closed form says.
proof fn lemma_square_index(q: int, ky: int, kx: int)
    requires
        q >= 1,
        0 <= ky,
        0 <= kx,
        ky % 2 == 1 ==> kx <= q,
        ky % 2 == 0 ==> kx < q,
    ensures
        ({
            let k = squares_before(q, ky) + kx;
            &&& k / (2 * q + 1) == ky / 2
            &&& k % (2 * q + 1) == if ky % 2 == 1 { q + kx } else { kx }
            &&& 2 * (ky / 2) + (if ky % 2 == 1 { 1int } else { 0int }) == ky
        }),
{
    let w = 2 * q + 1;
    let r = if ky % 2 == 1 { q + kx } else { kx };
    let k = squares_before(q, ky) + kx;
    assert(k == (ky / 2) * w + r);
    vstd::arithmetic::div_mod::lemma_fundamental_div_mod_converse(k, w, ky / 2, r);
}

/// Appends `v` with the next draw of the stream.
fn push_visit(plan: &mut Vec<Displacement>, rng: &mut XorShift64, Ghost(start): Ghost<u64>, v: Visit)
    requires
        follows(old(plan)@, old(rng).state(), start),
    ensures
        follows(final(plan)@, final(rng).state(), start),
        final(plan)@ == old(plan)@.push(Displacement { visit: v, draw: final(rng).state() }),
        visits_in(final(plan)@) == visits_in(old(plan)@).push(v),
{
    let draw = rng.next_u64();
    plan.push(Displacement { visit: v, draw });
    assert(visits_in(plan@) =~= visits_in(old(plan)@).push(v));
}

} // verus!
