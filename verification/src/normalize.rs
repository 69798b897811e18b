//! Rescaling a height map to the unit interval.

use vstd::prelude::*;
use crate::grid::rows_of;
use crate::reals::{ratio, ratio_of, Arithmetic, Reals};

verus! {

/// The least height among the rows before `y` and the first `x` cells of
/// row `y`, found by taking the lesser of the least so far and each cell in
/// turn, starting from the greatest finite height.
pub open spec fn least_of<T>(ar: Arithmetic<T>, grid: Seq<Seq<T>>, y: int, x: int) -> T
    decreases y, x,
{
    if x > 0 {
        (ar.lower)(least_of(ar, grid, y, x - 1), grid[y][x - 1])
    } else if y > 0 {
        least_of(ar, grid, y - 1, grid[y - 1].len() as int)
    } else {
        ar.highest
    }
}

/// The greatest height among the rows before `y` and the first `x` cells of
/// row `y`, found likewise from the least finite height.
pub open spec fn greatest_of<T>(ar: Arithmetic<T>, grid: Seq<Seq<T>>, y: int, x: int) -> T
    decreases y, x,
{
    if x > 0 {
        (ar.upper)(greatest_of(ar, grid, y, x - 1), grid[y][x - 1])
    } else if y > 0 {
        greatest_of(ar, grid, y - 1, grid[y - 1].len() as int)
    } else {
        ar.lowest
    }
}

/// The smallest range that heights are divided by: one thousandth.
pub open spec fn least_range<T>(ar: Arithmetic<T>) -> T {
    ratio_of(ar, 1, 1000)
}

/// The exponent of the contrast curve: six fifths.
pub open spec fn contrast<T>(ar: Arithmetic<T>) -> T {
    ratio_of(ar, 6, 5)
}

/// The range that the heights of a grid are divided by: the greatest less
/// the least, but no less than the smallest range.
pub open spec fn range_of<T>(ar: Arithmetic<T>, grid: Seq<Seq<T>>) -> T {
    (ar.upper)(
        (ar.minus)(
            greatest_of(ar, grid, grid.len() as int, 0),
            least_of(ar, grid, grid.len() as int, 0),
        ),
        least_range(ar),
    )
}

/// A height rescaled: its distance from the least height of the grid over
/// the grid's range, raised to the contrast exponent.
pub open spec fn rescaled<T>(ar: Arithmetic<T>, grid: Seq<Seq<T>>, v: T) -> T {
    (ar.power)(
        (ar.over)((ar.minus)(v, least_of(ar, grid, grid.len() as int, 0)), range_of(ar, grid)),
        contrast(ar),
    )
}

/// The grid with every height rescaled.
pub open spec fn normalized_of<T>(ar: Arithmetic<T>, grid: Seq<Seq<T>>) -> Seq<Seq<T>> {
    Seq::new(
        grid.len(),
        |y: int| Seq::new(grid[y].len(), |x: int| rescaled(ar, grid, grid[y][x])),
    )
}

/// Rescales a height map in place to the unit interval and applies the
/// contrast curve. A map whose heights span less than a thousandth is
/// divided by a thousandth rather than by its span.
pub fn normalize2<T: Copy, K: Reals<T>>(kit: &K, map: &mut Vec<Vec<T>>)
    requires
        kit.wf(),
    ensures
        rows_of(final(map)@) == normalized_of(kit.model(), rows_of(old(map)@)),
{
    let ghost ar = kit.model();
    let ghost grid = rows_of(map@);
    let height = map.len();
    let mut min = kit.highest();
    let mut max = kit.lowest();
    let mut y: usize = 0;
    while y < height
        invariant
            y <= height,
            height == map@.len(),
            grid == rows_of(map@),
            kit.wf(),
            ar == kit.model(),
            min == least_of(ar, grid, y as int, 0),
            max == greatest_of(ar, grid, y as int, 0),
        decreases height - y,
    {
        let width = map[y].len();
        assert(grid[y as int] == map@[y as int]@);
        let mut x: usize = 0;
        while x < width
            invariant
                x <= width,
                y < height,
                height == map@.len(),
                width == map@[y as int]@.len(),
                grid == rows_of(map@),
                grid[y as int] == map@[y as int]@,
                kit.wf(),
                ar == kit.model(),
                min == least_of(ar, grid, y as int, x as int),
                max == greatest_of(ar, grid, y as int, x as int),
            decreases width - x,
        {
            let v = map[y][x];
            min = kit.lower(min, v);
            max = kit.upper(max, v);
            x += 1;
        }
        y += 1;
    }
    let floor = ratio(kit, 1, 1000);
    let range = kit.upper(kit.minus(max, min), floor);
    let gamma = ratio(kit, 6, 5);
    let mut y: usize = 0;
    while y < height
        invariant
            y <= height,
            height == grid.len(),
            height == map@.len(),
            kit.wf(),
            ar == kit.model(),
            min == least_of(ar, grid, grid.len() as int, 0),
            range == range_of(ar, grid),
            gamma == contrast(ar),
            forall|r: int| 0 <= r < height ==> (#[trigger] map@[r])@.len() == grid[r].len(),
            forall|r: int, c: int|
                0 <= r < y && 0 <= c < grid[r].len() ==> (#[trigger] map@[r]@[c]) == rescaled(
                    ar,
                    grid,
                    grid[r][c],
                ),
            forall|r: int| y <= r < height ==> (#[trigger] map@[r])@ == grid[r],
        decreases height - y,
    {
        let width = map[y].len();
        let mut x: usize = 0;
        while x < width
            invariant
                x <= width,
                y < height,
                height == grid.len(),
                height == map@.len(),
                width == grid[y as int].len(),
                kit.wf(),
                ar == kit.model(),
                min == least_of(ar, grid, grid.len() as int, 0),
                range == range_of(ar, grid),
                gamma == contrast(ar),
                forall|r: int| 0 <= r < height ==> (#[trigger] map@[r])@.len() == grid[r].len(),
                forall|r: int, c: int|
                    0 <= r < y && 0 <= c < grid[r].len() ==> (#[trigger] map@[r]@[c]) == rescaled(
                        ar,
                        grid,
                        grid[r][c],
                    ),
                forall|c: int|
                    0 <= c < x ==> (#[trigger] map@[y as int]@[c]) == rescaled(
                        ar,
                        grid,
                        grid[y as int][c],
                    ),
                forall|c: int| x <= c < width ==> (#[trigger] map@[y as int]@[c]) == grid[y as int][c],
                forall|r: int| y < r < height ==> (#[trigger] map@[r])@ == grid[r],
            decreases width - x,
        {
            let v = map[y][x];
            let scaled = kit.power(kit.over(kit.minus(v, min), range), gamma);
            map[y][x] = scaled;
            x += 1;
        }
        y += 1;
    }
    proof {
        let after = rows_of(map@);
        let want = normalized_of(ar, grid);
        assert(after.len() == want.len());
        assert forall|r: int| 0 <= r < after.len() implies after[r] == want[r] by {
            assert(after[r] == map@[r]@);
            assert(after[r] =~= want[r]);
        }
        assert(after =~= want);
    }
}

/// The arithmetic rescales the ends of a range onto zero and one: a height
/// less itself is zero, zero over anything is zero, anything but zero over
/// itself is one, and the contrast curve leaves zero and one where they
/// are.
pub open spec fn rescales_exactly<T>(ar: Arithmetic<T>) -> bool {
    &&& forall|a: T| #[trigger] (ar.minus)(a, a) == (ar.whole)(0)
    &&& forall|r: T| #[trigger] (ar.over)((ar.whole)(0), r) == (ar.whole)(0)
    &&& forall|r: T| r != (ar.whole)(0) ==> #[trigger] (ar.over)(r, r) == (ar.whole)(1)
    &&& (ar.power)((ar.whole)(0), contrast(ar)) == (ar.whole)(0)
    &&& (ar.power)((ar.whole)(1), contrast(ar)) == (ar.whole)(1)
}

/// In a grid whose heights span more than the smallest range, a cell that
/// holds the least height comes out as zero and a cell that holds the
/// greatest as one, in any arithmetic that rescales exactly.
pub proof fn lemma_normalized_ends<T>(ar: Arithmetic<T>, grid: Seq<Seq<T>>, y: int, x: int)
    requires
        rescales_exactly(ar),
        0 <= y < grid.len(),
        0 <= x < grid[y].len(),
        range_of(ar, grid) == (ar.minus)(
            greatest_of(ar, grid, grid.len() as int, 0),
            least_of(ar, grid, grid.len() as int, 0),
        ),
        range_of(ar, grid) != (ar.whole)(0),
    ensures
        grid[y][x] == least_of(ar, grid, grid.len() as int, 0) ==> normalized_of(ar, grid)[y][x]
            == (ar.whole)(0),
        grid[y][x] == greatest_of(ar, grid, grid.len() as int, 0) ==> normalized_of(
            ar,
            grid,
        )[y][x] == (ar.whole)(1),
{
}

/// The lesser and the greater of two heights are each one of the two, and
/// against the greatest and the least finite height every height of the
/// grid wins.
pub open spec fn picks_within<T>(ar: Arithmetic<T>, grid: Seq<Seq<T>>) -> bool {
    &&& forall|a: T, b: T| #[trigger] (ar.lower)(a, b) == a || (ar.lower)(a, b) == b
    &&& forall|a: T, b: T| #[trigger] (ar.upper)(a, b) == a || (ar.upper)(a, b) == b
    &&& forall|y: int, x: int|
        0 <= y < grid.len() && 0 <= x < grid[y].len() ==> (ar.lower)(
            ar.highest,
            #[trigger] grid[y][x],
        ) == grid[y][x] && (ar.upper)(ar.lowest, grid[y][x]) == grid[y][x]
}

/// `(r, c)` is a cell of the grid among the rows before `y` and the first
/// `x` cells of row `y`.
spec fn scanned<T>(grid: Seq<Seq<T>>, y: int, x: int, r: int, c: int) -> bool {
    &&& 0 <= r < grid.len()
    &&& 0 <= c < grid[r].len()
    &&& r < y || (r == y && c < x)
}

/// Once a cell has been scanned, the least and the greatest height so far
/// are each held by a cell that has been scanned.
proof fn lemma_ends_so_far<T>(ar: Arithmetic<T>, grid: Seq<Seq<T>>, y: int, x: int) -> (cells: (
    (int, int),
    (int, int),
))
    requires
        picks_within(ar, grid),
        0 <= y <= grid.len(),
        y < grid.len() ==> 0 <= x <= grid[y].len(),
        y == grid.len() ==> x == 0,
        exists|r: int, c: int| #[trigger] scanned(grid, y, x, r, c),
    ensures
        scanned(grid, y, x, cells.0.0, cells.0.1),
        scanned(grid, y, x, cells.1.0, cells.1.1),
        grid[cells.0.0][cells.0.1] == least_of(ar, grid, y, x),
        grid[cells.1.0][cells.1.1] == greatest_of(ar, grid, y, x),
    decreases y, x,
{
    let (r, c) = choose|r: int, c: int| #[trigger] scanned(grid, y, x, r, c);
    if x > 0 {
        if exists|r: int, c: int| #[trigger] scanned(grid, y, x - 1, r, c) {
            let before = lemma_ends_so_far(ar, grid, y, x - 1);
            let v = grid[y][x - 1];
            let lo = if (ar.lower)(least_of(ar, grid, y, x - 1), v) == v {
                (y, x - 1)
            } else {
                before.0
            };
            let hi = if (ar.upper)(greatest_of(ar, grid, y, x - 1), v) == v {
                (y, x - 1)
            } else {
                before.1
            };
            (lo, hi)
        } else {
            assert(!scanned(grid, y, x - 1, r, c));
            lemma_nothing_scanned(ar, grid, y, x - 1);
            ((y, x - 1), (y, x - 1))
        }
    } else {
        assert(scanned(grid, y - 1, grid[y - 1].len() as int, r, c));
        lemma_ends_so_far(ar, grid, y - 1, grid[y - 1].len() as int)
    }
}

/// Before any cell has been scanned, the least height so far is the
/// greatest finite height and the greatest so far the least.
proof fn lemma_nothing_scanned<T>(ar: Arithmetic<T>, grid: Seq<Seq<T>>, y: int, x: int)
    requires
        0 <= y <= grid.len(),
        y < grid.len() ==> 0 <= x <= grid[y].len(),
        y == grid.len() ==> x == 0,
        forall|r: int, c: int| !#[trigger] scanned(grid, y, x, r, c),
    ensures
        least_of(ar, grid, y, x) == ar.highest,
        greatest_of(ar, grid, y, x) == ar.lowest,
    decreases y, x,
{
    if x > 0 {
        assert(scanned(grid, y, x, y, x - 1));
    } else if y > 0 {
        let end = grid[y - 1].len() as int;
        assert forall|r: int, c: int| !#[trigger] scanned(grid, y - 1, end, r, c) by {
            if scanned(grid, y - 1, end, r, c) {
                assert(scanned(grid, y, x, r, c));
            }
        }
        lemma_nothing_scanned(ar, grid, y - 1, grid[y - 1].len() as int);
    }
}

/// A grid that has a cell `(y, x)` and whose heights span more than the
/// smallest range comes out with zero in one cell and one in another, in
/// any arithmetic that rescales exactly: the result is a cell where zero
/// stands and a cell where one stands.
pub proof fn lemma_normalized_spans_unit<T>(
    ar: Arithmetic<T>,
    grid: Seq<Seq<T>>,
    y: int,
    x: int,
) -> (cells: ((int, int), (int, int)))
    requires
        rescales_exactly(ar),
        picks_within(ar, grid),
        0 <= y < grid.len(),
        0 <= x < grid[y].len(),
        range_of(ar, grid) == (ar.minus)(
            greatest_of(ar, grid, grid.len() as int, 0),
            least_of(ar, grid, grid.len() as int, 0),
        ),
        range_of(ar, grid) != (ar.whole)(0),
    ensures
        0 <= cells.0.0 < grid.len() && 0 <= cells.0.1 < grid[cells.0.0].len(),
        0 <= cells.1.0 < grid.len() && 0 <= cells.1.1 < grid[cells.1.0].len(),
        normalized_of(ar, grid)[cells.0.0][cells.0.1] == (ar.whole)(0),
        normalized_of(ar, grid)[cells.1.0][cells.1.1] == (ar.whole)(1),
{
    assert(scanned(grid, grid.len() as int, 0, y, x));
    let cells = lemma_ends_so_far(ar, grid, grid.len() as int, 0);
    lemma_normalized_ends(ar, grid, cells.0.0, cells.0.1);
    lemma_normalized_ends(ar, grid, cells.1.0, cells.1.1);
    cells
}

} // verus!
