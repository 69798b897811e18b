//! Erosion moves material and makes none: in exact arithmetic the heights
//! of a grid add up to the same total after every pass.

use vstd::prelude::*;
use crate::erosion2::{
    charged, eroded, lemma_move_stays_in_grid, move_of, pass_of, swept, width_of,
};
use crate::grid::{in_grid, is_rectangular, level, put};
use crate::reals::Arithmetic;

verus! {

/// The sum of a row of heights.
pub open spec fn row_total(row: Seq<int>) -> int
    decreases row.len(),
{
    if row.len() == 0 {
        0
    } else {
        row_total(row.drop_last()) + row.last()
    }
}

/// The sum of all heights of a grid.
pub open spec fn total(grid: Seq<Seq<int>>) -> int
    decreases grid.len(),
{
    if grid.len() == 0 {
        0
    } else {
        total(grid.drop_last()) + row_total(grid.last())
    }
}

/// The arithmetic adds and subtracts as the integers do, and its zero is
/// theirs. How it compares and halves is left open.
pub open spec fn is_exact(ar: Arithmetic<int>) -> bool {
    &&& (ar.whole)(0) == 0
    &&& forall|a: int, b: int| #[trigger] (ar.plus)(a, b) == a + b
    &&& forall|a: int, b: int| #[trigger] (ar.minus)(a, b) == a - b
}

proof fn lemma_row_total_update(row: Seq<int>, x: int, v: int)
    requires
        0 <= x < row.len(),
    ensures
        row_total(row.update(x, v)) == row_total(row) - row[x] + v,
    decreases row.len(),
{
    let after = row.update(x, v);
    if x == row.len() - 1 {
        assert(after.drop_last() =~= row.drop_last());
    } else {
        lemma_row_total_update(row.drop_last(), x, v);
        assert(after.drop_last() =~= row.drop_last().update(x, v));
    }
}

proof fn lemma_total_put(grid: Seq<Seq<int>>, y: int, x: int, v: int)
    requires
        0 <= y < grid.len(),
        0 <= x < grid[y].len(),
    ensures
        total(put(grid, y, x, v)) == total(grid) - grid[y][x] + v,
    decreases grid.len(),
{
    let after = put(grid, y, x, v);
    if y == grid.len() - 1 {
        assert(after.drop_last() =~= grid.drop_last());
        lemma_row_total_update(grid[y], x, v);
    } else {
        lemma_total_put(grid.drop_last(), y, x, v);
        assert(after.drop_last() =~= put(grid.drop_last(), y, x, v));
    }
}

proof fn lemma_level_row_total(width: int)
    requires
        0 <= width,
    ensures
        row_total(Seq::new(width as nat, |x: int| 0int)) == 0,
    decreases width,
{
    if width > 0 {
        lemma_level_row_total(width - 1);
        assert(Seq::new(width as nat, |x: int| 0int).drop_last() =~= Seq::new(
            (width - 1) as nat,
            |x: int| 0int,
        ));
    }
}

proof fn lemma_level_total(height: int, width: int)
    requires
        0 <= height,
        0 <= width,
    ensures
        total(level(0int, height, width)) == 0,
    decreases height,
{
    if height > 0 {
        lemma_level_total(height - 1, width);
        lemma_level_row_total(width);
        assert(level(0int, height, width).drop_last() =~= level(0int, height - 1, width));
    }
}

/// The rows of `grid` are `width` long and there are `height` of them.
spec fn has_shape(grid: Seq<Seq<int>>, height: int, width: int) -> bool {
    grid.len() == height && is_rectangular(grid, width)
}

proof fn lemma_put_shape(grid: Seq<Seq<int>>, y: int, x: int, v: int, height: int, width: int)
    requires
        has_shape(grid, height, width),
        in_grid(y, x, height, width),
    ensures
        has_shape(put(grid, y, x, v), height, width),
{
    let after = put(grid, y, x, v);
    assert forall|r: int| 0 <= r < after.len() implies (#[trigger] after[r]).len() == width by {
        assert(grid[r].len() == width);
    }
}

/// A move leaves the balance's total as it was: what the cell is charged,
/// the neighbour is credited with.
proof fn lemma_charged_total(
    ar: Arithmetic<int>,
    delta: Seq<Seq<int>>,
    y: int,
    x: int,
    m: Option<((usize, usize), int)>,
    height: int,
    width: int,
)
    requires
        is_exact(ar),
        has_shape(delta, height, width),
        in_grid(y, x, height, width),
        m matches Some((to, amount)) ==> in_grid(to.0 as int, to.1 as int, height, width),
    ensures
        has_shape(charged(ar, delta, y, x, m), height, width),
        total(charged(ar, delta, y, x, m)) == total(delta),
{
    match m {
        None => {},
        Some((to, amount)) => {
            assert(delta[y].len() == width);
            let lost = put(delta, y, x, (ar.minus)(delta[y][x], amount));
            lemma_total_put(delta, y, x, (ar.minus)(delta[y][x], amount));
            lemma_put_shape(delta, y, x, (ar.minus)(delta[y][x], amount), height, width);
            assert(lost[to.0 as int].len() == width);
            let gained = (ar.plus)(lost[to.0 as int][to.1 as int], amount);
            lemma_total_put(lost, to.0 as int, to.1 as int, gained);
            lemma_put_shape(lost, to.0 as int, to.1 as int, gained, height, width);
        },
    }
}

/// At every point of a pass the balance has the grid's shape and adds up
/// to nothing.
proof fn lemma_swept_total(ar: Arithmetic<int>, talus: int, grid: Seq<Seq<int>>, y: int, x: int)
    requires
        is_exact(ar),
        grid.len() <= usize::MAX,
        width_of(grid) <= usize::MAX,
        0 <= y <= grid.len(),
        0 <= x <= width_of(grid),
        y == grid.len() ==> x == 0,
    ensures
        has_shape(swept(ar, talus, grid, y, x), grid.len() as int, width_of(grid)),
        total(swept(ar, talus, grid, y, x)) == 0,
    decreases y, x,
{
    let height = grid.len() as int;
    let width = width_of(grid);
    if x > 0 {
        lemma_swept_total(ar, talus, grid, y, x - 1);
        lemma_move_stays_in_grid(ar, talus, grid, y, x - 1);
        lemma_charged_total(
            ar,
            swept(ar, talus, grid, y, x - 1),
            y,
            x - 1,
            move_of(ar, talus, grid, y, x - 1),
            height,
            width,
        );
    } else if y > 0 {
        lemma_swept_total(ar, talus, grid, y - 1, width);
    } else {
        lemma_level_total(height, width);
        let flat = level(0int, height, width);
        assert forall|r: int| 0 <= r < flat.len() implies (#[trigger] flat[r]).len() == width by {}
    }
}

proof fn lemma_row_total_sum(a: Seq<int>, b: Seq<int>, width: int)
    requires
        a.len() == width,
        b.len() == width,
        0 <= width,
    ensures
        row_total(Seq::new(width as nat, |x: int| a[x] + b[x])) == row_total(a) + row_total(b),
    decreases width,
{
    if width > 0 {
        lemma_row_total_sum(a.drop_last(), b.drop_last(), width - 1);
        assert(Seq::new(width as nat, |x: int| a[x] + b[x]).drop_last() =~= Seq::new(
            (width - 1) as nat,
            |x: int| a.drop_last()[x] + b.drop_last()[x],
        ));
    }
}

/// The cell-by-cell sum of two grids of one shape.
spec fn summed(a: Seq<Seq<int>>, b: Seq<Seq<int>>, height: int, width: int) -> Seq<Seq<int>> {
    Seq::new(height as nat, |y: int| Seq::new(width as nat, |x: int| a[y][x] + b[y][x]))
}

proof fn lemma_total_sum(a: Seq<Seq<int>>, b: Seq<Seq<int>>, height: int, width: int)
    requires
        has_shape(a, height, width),
        has_shape(b, height, width),
        0 <= width,
    ensures
        total(summed(a, b, height, width)) == total(a) + total(b),
    decreases height,
{
    if height > 0 {
        let last = height - 1;
        lemma_total_sum(a.drop_last(), b.drop_last(), last, width);
        assert(summed(a, b, height, width).drop_last() =~= summed(
            a.drop_last(),
            b.drop_last(),
            last,
            width,
        )) by {
            assert forall|y: int| 0 <= y < last implies summed(a, b, height, width)[y] == summed(
                a.drop_last(),
                b.drop_last(),
                last,
                width,
            )[y] by {
                assert(summed(a, b, height, width)[y] =~= summed(
                    a.drop_last(),
                    b.drop_last(),
                    last,
                    width,
                )[y]);
            }
        }
        assert(a[last].len() == width);
        assert(b[last].len() == width);
        lemma_row_total_sum(a[last], b[last], width);
        assert(summed(a, b, height, width).last() =~= Seq::new(
            width as nat,
            |x: int| a[last][x] + b[last][x],
        ));
    }
}

/// A pass leaves the total of the heights as it was, and the grid its
/// shape: whatever leaves one cell arrives in another cell of the grid.
pub proof fn lemma_pass_keeps_total(ar: Arithmetic<int>, talus: int, grid: Seq<Seq<int>>)
    requires
        is_exact(ar),
        is_rectangular(grid, width_of(grid)),
        grid.len() <= usize::MAX,
        width_of(grid) <= usize::MAX,
    ensures
        total(pass_of(ar, talus, grid)) == total(grid),
        pass_of(ar, talus, grid).len() == grid.len(),
        width_of(pass_of(ar, talus, grid)) == width_of(grid),
        is_rectangular(pass_of(ar, talus, grid), width_of(grid)),
{
    let height = grid.len() as int;
    let width = width_of(grid);
    let balance = swept(ar, talus, grid, height, 0);
    lemma_swept_total(ar, talus, grid, height, 0);
    lemma_total_sum(grid, balance, height, width);
    let after = pass_of(ar, talus, grid);
    assert(after =~= summed(grid, balance, height, width)) by {
        assert forall|y: int| 0 <= y < height implies after[y] == summed(
            grid,
            balance,
            height,
            width,
        )[y] by {
            assert(after[y] =~= summed(grid, balance, height, width)[y]);
        }
    }
    assert forall|y: int| 0 <= y < after.len() implies (#[trigger] after[y]).len() == width by {}
}

/// However many passes are made, the total of the heights stays what it
/// was.
pub proof fn lemma_erosion_keeps_total(
    ar: Arithmetic<int>,
    talus: int,
    grid: Seq<Seq<int>>,
    times: nat,
)
    requires
        is_exact(ar),
        is_rectangular(grid, width_of(grid)),
        grid.len() <= usize::MAX,
        width_of(grid) <= usize::MAX,
    ensures
        total(eroded(ar, talus, grid, times)) == total(grid),
        eroded(ar, talus, grid, times).len() == grid.len(),
        width_of(eroded(ar, talus, grid, times)) == width_of(grid),
        is_rectangular(eroded(ar, talus, grid, times), width_of(grid)),
    decreases times,
{
    if times > 0 {
        lemma_erosion_keeps_total(ar, talus, grid, (times - 1) as nat);
        lemma_pass_keeps_total(ar, talus, eroded(ar, talus, grid, (times - 1) as nat));
    }
}

} // verus!
