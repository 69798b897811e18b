//! Thermal erosion: material slides from a cell to its steepest neighbour
//! wherever the drop exceeds the talus angle.

use vstd::prelude::*;
use crate::grid::{
    filled, if_in_grid, in_grid, is_rectangular, lemma_put_row, level, push_if_in_grid, put, rows_of,
    Step,
};
use crate::reals::{ratio, ratio_of, Arithmetic, Reals};

verus! {

/// What the eroder is constructed with.
#[derive(Clone, Copy, Debug)]
pub struct ErosionParams<T> {
    /// Number of passes.
    pub iterations: usize,
    /// The largest drop between neighbours that stays put.
    pub talus_angle: T,
}

/// A thermal eroder.
pub struct ThermalErosion2D<T> {
    params: ErosionParams<T>,
}

impl<T> View for ThermalErosion2D<T> {
    type V = ErosionParams<T>;

    closed spec fn view(&self) -> ErosionParams<T> {
        self.params
    }
}

/// The cells next to `(y, x)` along the axes that lie in the grid, in the
/// order in which they are compared: up, down, left, right. The first of
/// several equally steep neighbours is the one that receives material.
pub open spec fn neighbors_of(y: int, x: int, height: int, width: int) -> Seq<(usize, usize)> {
    if_in_grid(y - 1, x, height, width) + if_in_grid(y + 1, x, height, width) + if_in_grid(
        y,
        x - 1,
        height,
        width,
    ) + if_in_grid(y, x + 1, height, width)
}

/// Lists the neighbours of `(y, x)` in scan order.
pub fn neighbors(y: usize, x: usize, height: usize, width: usize) -> (r: Vec<(usize, usize)>)
    ensures
        r@ == neighbors_of(y as int, x as int, height as int, width as int),
{
    let stay = Step { by: 0, back: false };
    let mut r: Vec<(usize, usize)> = Vec::new();
    push_if_in_grid(&mut r, y, x, Step { by: 1, back: true }, stay, height, width);
    push_if_in_grid(&mut r, y, x, Step { by: 1, back: false }, stay, height, width);
    push_if_in_grid(&mut r, y, x, stay, Step { by: 1, back: true }, height, width);
    push_if_in_grid(&mut r, y, x, stay, Step { by: 1, back: false }, height, width);
    assert(r@ =~= neighbors_of(y as int, x as int, height as int, width as int));
    r
}

/// Material only ever moves between two cells of the grid that touch along
/// an edge: every neighbour of a cell lies in the grid, one step away along
/// exactly one axis.
pub proof fn lemma_neighbors_touch(y: int, x: int, height: int, width: int, k: int)
    requires
        0 <= k < neighbors_of(y, x, height, width).len(),
        height <= usize::MAX,
        width <= usize::MAX,
    ensures
        ({
            let n = neighbors_of(y, x, height, width)[k];
            &&& in_grid(n.0 as int, n.1 as int, height, width)
            &&& (n.0 == y && (n.1 == x - 1 || n.1 == x + 1)) || (n.1 == x && (n.0 == y - 1 || n.0
                == y + 1))
        }),
{
}

/// Adjacency goes both ways: within the grid, a cell is a neighbour of each
/// of its neighbours.
pub proof fn lemma_neighbors_symmetric(y: int, x: int, height: int, width: int, k: int)
    requires
        in_grid(y, x, height, width),
        0 <= k < neighbors_of(y, x, height, width).len(),
        height <= usize::MAX,
        width <= usize::MAX,
    ensures
        ({
            let n = neighbors_of(y, x, height, width)[k];
            neighbors_of(n.0 as int, n.1 as int, height, width).contains((y as usize, x as usize))
        }),
{
    let n = neighbors_of(y, x, height, width)[k];
    let back = neighbors_of(n.0 as int, n.1 as int, height, width);
    let me = (y as usize, x as usize);
    let up = if_in_grid(n.0 - 1, n.1 as int, height, width);
    let down = if_in_grid(n.0 + 1, n.1 as int, height, width);
    let left = if_in_grid(n.0 as int, n.1 - 1, height, width);
    lemma_neighbors_touch(y, x, height, width, k);
    if n.0 == y - 1 {
        assert(back[up.len() as int] == me);
    } else if n.0 == y + 1 {
        assert(back[0] == me);
    } else if n.1 == x - 1 {
        assert(back[(up.len() + down.len() + left.len()) as int] == me);
    } else {
        assert(back[(up.len() + down.len()) as int] == me);
    }
}

/// Number of columns of a grid: the length of its first row.
pub open spec fn width_of<T>(grid: Seq<Seq<T>>) -> int {
    if grid.len() == 0 {
        0
    } else {
        grid[0].len() as int
    }
}

/// The steepest drop from `(y, x)` among the first `k` of the given cells,
/// and the cell it leads to. A drop counts only if it exceeds every drop
/// before it, and the first must exceed zero.
pub open spec fn steepest<T>(
    ar: Arithmetic<T>,
    grid: Seq<Seq<T>>,
    y: int,
    x: int,
    cells: Seq<(usize, usize)>,
    k: int,
) -> (T, Option<(usize, usize)>)
    decreases k,
{
    if k <= 0 {
        ((ar.whole)(0), None)
    } else {
        let (best, at) = steepest(ar, grid, y, x, cells, k - 1);
        let n = cells[k - 1];
        let drop = (ar.minus)(grid[y][x], grid[n.0 as int][n.1 as int]);
        if (ar.exceeds)(drop, best) {
            (drop, Some(n))
        } else {
            (best, at)
        }
    }
}

/// What the cell `(y, x)` sheds in a pass over `grid`, and to which
/// neighbour: half of what the steepest drop exceeds the talus angle by, if
/// it does.
pub open spec fn move_of<T>(ar: Arithmetic<T>, talus: T, grid: Seq<Seq<T>>, y: int, x: int) -> Option<
    ((usize, usize), T),
> {
    let cells = neighbors_of(y, x, grid.len() as int, width_of(grid));
    let (best, at) = steepest(ar, grid, y, x, cells, cells.len() as int);
    if at is Some && (ar.exceeds)(best, talus) {
        Some((at->0, (ar.times)((ar.minus)(best, talus), ratio_of(ar, 1, 2))))
    } else {
        None
    }
}

/// The balance `delta` after the cell `(y, x)` has made its move: the cell
/// is charged the amount, then the receiving neighbour is credited with
/// it.
pub open spec fn charged<T>(
    ar: Arithmetic<T>,
    delta: Seq<Seq<T>>,
    y: int,
    x: int,
    m: Option<((usize, usize), T)>,
) -> Seq<Seq<T>> {
    match m {
        None => delta,
        Some((to, amount)) => {
            let lost = put(delta, y, x, (ar.minus)(delta[y][x], amount));
            put(lost, to.0 as int, to.1 as int, (ar.plus)(lost[to.0 as int][to.1 as int], amount))
        },
    }
}

/// The balance of a pass over `grid` once the rows before `y` and the first
/// `x` cells of row `y` have made their moves. Every move is decided on
/// `grid` as it stood before the pass.
pub open spec fn swept<T>(ar: Arithmetic<T>, talus: T, grid: Seq<Seq<T>>, y: int, x: int) -> Seq<
    Seq<T>,
>
    decreases y, x,
{
    if x > 0 {
        charged(ar, swept(ar, talus, grid, y, x - 1), y, x - 1, move_of(ar, talus, grid, y, x - 1))
    } else if y > 0 {
        swept(ar, talus, grid, y - 1, width_of(grid))
    } else {
        level((ar.whole)(0), grid.len() as int, width_of(grid))
    }
}

/// The grid after one pass: every cell plus its balance once all cells have
/// made their moves.
pub open spec fn pass_of<T>(ar: Arithmetic<T>, talus: T, grid: Seq<Seq<T>>) -> Seq<Seq<T>> {
    let balance = swept(ar, talus, grid, grid.len() as int, 0);
    Seq::new(
        grid.len(),
        |y: int|
            Seq::new(width_of(grid) as nat, |x: int| (ar.plus)(grid[y][x], balance[y][x])),
    )
}

/// The grid after `times` passes.
pub open spec fn eroded<T>(ar: Arithmetic<T>, talus: T, grid: Seq<Seq<T>>, times: nat) -> Seq<
    Seq<T>,
>
    decreases times,
{
    if times == 0 {
        grid
    } else {
        pass_of(ar, talus, eroded(ar, talus, grid, (times - 1) as nat))
    }
}

/// The neighbour that the steepest drop leads to, if there is one, is among
/// the cells scanned.
proof fn lemma_steepest_among<T>(
    ar: Arithmetic<T>,
    grid: Seq<Seq<T>>,
    y: int,
    x: int,
    cells: Seq<(usize, usize)>,
    k: int,
) -> (j: int)
    requires
        0 <= k <= cells.len(),
        steepest(ar, grid, y, x, cells, k).1 is Some,
    ensures
        0 <= j < k,
        steepest(ar, grid, y, x, cells, k).1 == Some(cells[j]),
    decreases k,
{
    let (best, at) = steepest(ar, grid, y, x, cells, k - 1);
    let n = cells[k - 1];
    let drop = (ar.minus)(grid[y][x], grid[n.0 as int][n.1 as int]);
    if (ar.exceeds)(drop, best) {
        k - 1
    } else {
        lemma_steepest_among(ar, grid, y, x, cells, k - 1)
    }
}

/// Whatever a cell of a grid sheds goes to a cell of the grid.
pub proof fn lemma_move_stays_in_grid<T>(
    ar: Arithmetic<T>,
    talus: T,
    grid: Seq<Seq<T>>,
    y: int,
    x: int,
)
    requires
        grid.len() <= usize::MAX,
        width_of(grid) <= usize::MAX,
    ensures
        move_of(ar, talus, grid, y, x) matches Some((to, amount)) ==> in_grid(
            to.0 as int,
            to.1 as int,
            grid.len() as int,
            width_of(grid),
        ),
{
    let cells = neighbors_of(y, x, grid.len() as int, width_of(grid));
    if steepest(ar, grid, y, x, cells, cells.len() as int).1 is Some {
        let j = lemma_steepest_among(ar, grid, y, x, cells, cells.len() as int);
        lemma_neighbors_touch(y, x, grid.len() as int, width_of(grid), j);
    }
}

/// Decides what the cell `(y, x)` sheds and to which neighbour.
fn decide<T: Copy, K: Reals<T>>(kit: &K, map: &Vec<Vec<T>>, y: usize, x: usize, talus: T) -> (m:
    Option<((usize, usize), T)>)
    requires
        kit.wf(),
        map@.len() >= 1,
        is_rectangular(rows_of(map@), map@[0]@.len() as int),
        y < map@.len(),
        x < map@[0]@.len(),
    ensures
        m == move_of(kit.model(), talus, rows_of(map@), y as int, x as int),
{
    let height = map.len();
    let width = map[0].len();
    let ghost ar = kit.model();
    let ghost grid = rows_of(map@);
    assert(grid[y as int] == map@[y as int]@);
    assert(width_of(grid) == width);
    let cells = neighbors(y, x, height, width);
    let curr = map[y][x];
    let mut best = kit.whole(0);
    let mut at: Option<(usize, usize)> = None;
    let mut k: usize = 0;
    while k < cells.len()
        invariant
            k <= cells@.len(),
            cells@ == neighbors_of(y as int, x as int, height as int, width as int),
            height == map@.len(),
            width == map@[0]@.len(),
            height >= 1,
            is_rectangular(rows_of(map@), width as int),
            grid == rows_of(map@),
            y < height,
            x < width,
            curr == grid[y as int][x as int],
            kit.wf(),
            ar == kit.model(),
            (best, at) == steepest(ar, grid, y as int, x as int, cells@, k as int),
        decreases cells@.len() - k,
    {
        let n = cells[k];
        proof {
            lemma_neighbors_touch(y as int, x as int, height as int, width as int, k as int);
            assert(grid[n.0 as int] == map@[n.0 as int]@);
        }
        let there = map[n.0][n.1];
        let drop = kit.minus(curr, there);
        if kit.exceeds(drop, best) {
            best = drop;
            at = Some(n);
        }
        k += 1;
    }
    match at {
        Some(to) => {
            if kit.exceeds(best, talus) {
                let excess = kit.minus(best, talus);
                Some((to, kit.times(excess, ratio(kit, 1, 2))))
            } else {
                None
            }
        },
        None => None,
    }
}

/// One pass over `map`: every cell decides on the grid as it stands, the
/// moves are gathered in a balance, and the balance is added to the grid.
fn pass<T: Copy, K: Reals<T>>(kit: &K, map: &mut Vec<Vec<T>>, talus: T)
    requires
        kit.wf(),
        old(map)@.len() >= 1,
        is_rectangular(rows_of(old(map)@), old(map)@[0]@.len() as int),
    ensures
        rows_of(final(map)@) == pass_of(kit.model(), talus, rows_of(old(map)@)),
        final(map)@.len() == old(map)@.len(),
        final(map)@[0]@.len() == old(map)@[0]@.len(),
        is_rectangular(rows_of(final(map)@), old(map)@[0]@.len() as int),
{
    let height = map.len();
    let width = map[0].len();
    let ghost ar = kit.model();
    let ghost grid = rows_of(map@);
    assert(grid[0] == map@[0]@);
    let zero = kit.whole(0);
    let mut delta = filled(height, width, zero);
    proof {
        let flat = level(zero, height as int, width as int);
        assert(rows_of(delta@).len() == delta@.len());
        assert(flat.len() == height);
        assert forall|r: int| 0 <= r < flat.len() implies (#[trigger] flat[r]).len() == width by {}
    }
    let mut y: usize = 0;
    while y < height
        invariant
            y <= height,
            height == map@.len(),
            width == map@[0]@.len(),
            height >= 1,
            grid == rows_of(map@),
            width_of(grid) == width,
            is_rectangular(grid, width as int),
            kit.wf(),
            ar == kit.model(),
            delta@.len() == height,
            is_rectangular(rows_of(delta@), width as int),
            rows_of(delta@) == swept(ar, talus, grid, y as int, 0),
        decreases height - y,
    {
        let mut x: usize = 0;
        while x < width
            invariant
                x <= width,
                y < height,
                height == map@.len(),
                width == map@[0]@.len(),
                height >= 1,
                grid == rows_of(map@),
                width_of(grid) == width,
                is_rectangular(grid, width as int),
                kit.wf(),
                ar == kit.model(),
                delta@.len() == height,
                is_rectangular(rows_of(delta@), width as int),
                rows_of(delta@) == swept(ar, talus, grid, y as int, x as int),
            decreases width - x,
        {
            let m = decide(kit, map, y, x, talus);
            proof {
                lemma_move_stays_in_grid(ar, talus, grid, y as int, x as int);
            }
            let ghost before = delta@;
            match m {
                Some((to, amount)) => {
                    assert(rows_of(delta@)[y as int] == delta@[y as int]@);
                    let own = delta[y][x];
                    let lost = kit.minus(own, amount);
                    delta[y][x] = lost;
                    let ghost between = delta@;
                    proof {
                        lemma_put_row(before, between, y as int, x as int, lost);
                        assert(rows_of(between)[to.0 as int] == between[to.0 as int]@);
                        assert(rows_of(before)[to.0 as int].len() == width);
                    }
                    let theirs = delta[to.0][to.1];
                    let gained = kit.plus(theirs, amount);
                    delta[to.0][to.1] = gained;
                    proof {
                        lemma_put_row(between, delta@, to.0 as int, to.1 as int, gained);
                        lemma_put_keeps_shape(rows_of(before), y as int, x as int, lost, width as int);
                        lemma_put_keeps_shape(
                            rows_of(between),
                            to.0 as int,
                            to.1 as int,
                            gained,
                            width as int,
                        );
                    }
                },
                None => {},
            }
            x += 1;
        }
        y += 1;
    }
    let ghost balance = rows_of(delta@);
    let mut y: usize = 0;
    while y < height
        invariant
            y <= height,
            height == grid.len(),
            height == map@.len(),
            height >= 1,
            width_of(grid) == width,
            is_rectangular(grid, width as int),
            is_rectangular(rows_of(map@), width as int),
            kit.wf(),
            ar == kit.model(),
            delta@.len() == height,
            balance == rows_of(delta@),
            is_rectangular(balance, width as int),
            forall|r: int, c: int|
                0 <= r < y && 0 <= c < width ==> (#[trigger] map@[r]@[c]) == (ar.plus)(
                    grid[r][c],
                    balance[r][c],
                ),
            forall|r: int| y <= r < height ==> (#[trigger] map@[r])@ == grid[r],
        decreases height - y,
    {
        let mut x: usize = 0;
        while x < width
            invariant
                x <= width,
                y < height,
                height == grid.len(),
                height == map@.len(),
                height >= 1,
                width_of(grid) == width,
                is_rectangular(grid, width as int),
                is_rectangular(rows_of(map@), width as int),
                kit.wf(),
                ar == kit.model(),
                delta@.len() == height,
                balance == rows_of(delta@),
                is_rectangular(balance, width as int),
                forall|r: int, c: int|
                    0 <= r < y && 0 <= c < width ==> (#[trigger] map@[r]@[c]) == (ar.plus)(
                        grid[r][c],
                        balance[r][c],
                    ),
                forall|c: int|
                    0 <= c < x ==> (#[trigger] map@[y as int]@[c]) == (ar.plus)(
                        grid[y as int][c],
                        balance[y as int][c],
                    ),
                forall|c: int| x <= c < width ==> (#[trigger] map@[y as int]@[c]) == grid[y as int][c],
                forall|r: int| y < r < height ==> (#[trigger] map@[r])@ == grid[r],
            decreases width - x,
        {
            proof {
                assert(rows_of(map@)[y as int] == map@[y as int]@);
                assert(balance[y as int] == delta@[y as int]@);
            }
            let ghost before = map@;
            let here = map[y][x];
            let change = delta[y][x];
            let sum = kit.plus(here, change);
            map[y][x] = sum;
            proof {
                lemma_put_row(before, map@, y as int, x as int, sum);
                lemma_put_keeps_shape(rows_of(before), y as int, x as int, sum, width as int);
            }
            x += 1;
        }
        y += 1;
    }
    proof {
        let after = rows_of(map@);
        let want = pass_of(ar, talus, grid);
        assert(balance == swept(ar, talus, grid, grid.len() as int, 0));
        assert(after.len() == want.len());
        assert forall|r: int| 0 <= r < after.len() implies after[r] == want[r] by {
            assert(after[r] == map@[r]@);
            assert(after[r].len() == width);
            assert(after[r] =~= want[r]);
        }
        assert(after =~= want);
        assert(after[0] == map@[0]@);
    }
}

/// Writing one cell of a grid with rows of one length leaves the rows that
/// length.
proof fn lemma_put_keeps_shape<T>(grid: Seq<Seq<T>>, y: int, x: int, v: T, width: int)
    requires
        is_rectangular(grid, width),
        0 <= y < grid.len(),
        0 <= x < width,
    ensures
        is_rectangular(put(grid, y, x, v), width),
        put(grid, y, x, v).len() == grid.len(),
{
    let after = put(grid, y, x, v);
    assert(after.len() == grid.len());
    assert forall|r: int| 0 <= r < after.len() implies (#[trigger] after[r]).len() == width by {
        assert(grid[r].len() == width);
        if r == y {
            assert(after[r] == grid[y].update(x, v));
        } else {
            assert(after[r] == grid[r]);
        }
    }
}

impl<T: Copy> ThermalErosion2D<T> {
    /// Builds the eroder.
    pub fn new(iterations: usize, talus_angle: T) -> (r: Self)
        ensures
            r@ == (ErosionParams { iterations, talus_angle }),
    {
        ThermalErosion2D { params: ErosionParams { iterations, talus_angle } }
    }

    /// The parameters given at construction.
    pub fn params(&self) -> (r: ErosionParams<T>)
        ensures
            r == self@,
    {
        self.params
    }

    /// Erodes `map` in place, one pass after the other, computing with
    /// the arithmetic of `kit`.
    pub fn apply<K: Reals<T>>(&self, kit: &K, map: &mut Vec<Vec<T>>)
        requires
            kit.wf(),
            old(map)@.len() >= 1,
            is_rectangular(rows_of(old(map)@), old(map)@[0]@.len() as int),
        ensures
            rows_of(final(map)@) == eroded(
                kit.model(),
                self@.talus_angle,
                rows_of(old(map)@),
                self@.iterations as nat,
            ),
    {
        let ghost ar = kit.model();
        let ghost start = rows_of(map@);
        let ghost width = map@[0]@.len();
        let talus = self.params.talus_angle;
        let mut done: usize = 0;
        while done < self.params.iterations
            invariant
                done <= self.params.iterations,
                talus == self.params.talus_angle,
                kit.wf(),
                ar == kit.model(),
                map@.len() >= 1,
                map@[0]@.len() == width,
                is_rectangular(rows_of(map@), width as int),
                rows_of(map@) == eroded(ar, talus, start, done as nat),
            decreases self.params.iterations - done,
        {
            pass(kit, map, talus);
            done += 1;
        }
    }
}

} // verus!
