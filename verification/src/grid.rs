//! Cells of a grid and steps between them.

use vstd::prelude::*;

verus! {

/// `(y, x)` names a cell of a grid with `height` rows and `width` columns.
pub open spec fn in_grid(y: int, x: int, height: int, width: int) -> bool {
    0 <= y < height && 0 <= x < width
}

/// The cell `(y, x)` alone if it lies in the grid, nothing otherwise.
pub open spec fn if_in_grid(y: int, x: int, height: int, width: int) -> Seq<(usize, usize)> {
    if in_grid(y, x, height, width) {
        seq![(y as usize, x as usize)]
    } else {
        Seq::empty()
    }
}

/// A step along one axis: `by` cells, towards the origin if `back` is set.
#[derive(Clone, Copy, Debug, PartialEq, Eq, Structural)]
pub struct Step {
    pub by: usize,
    pub back: bool,
}

impl Step {
    /// Where the step leads from coordinate `a`.
    pub open spec fn target(self, a: int) -> int {
        if self.back {
            a - self.by
        } else {
            a + self.by
        }
    }

    /// Takes the step from `a` if it ends below `limit`.
    pub fn take(self, a: usize, limit: usize) -> (r: Option<usize>)
        ensures
            r == (if 0 <= self.target(a as int) < limit {
                Some(self.target(a as int) as usize)
            } else {
                None
            }),
    {
        if self.back {
            if self.by <= a && a - self.by < limit {
                Some(a - self.by)
            } else {
                None
            }
        } else {
            if a < limit && self.by < limit - a {
                Some(a + self.by)
            } else {
                None
            }
        }
    }
}

/// Appends the cell that lies `dy` and `dx` from `(y, x)` if it is in the
/// grid.
pub fn push_if_in_grid(
    out: &mut Vec<(usize, usize)>,
    y: usize,
    x: usize,
    dy: Step,
    dx: Step,
    height: usize,
    width: usize,
)
    ensures
        final(out)@ == old(out)@ + if_in_grid(
            dy.target(y as int),
            dx.target(x as int),
            height as int,
            width as int,
        ),
{
    let ghost before = out@;
    let row = dy.take(y, height);
    let col = dx.take(x, width);
    match (row, col) {
        (Some(r), Some(c)) => {
            out.push((r, c));
            assert(out@ =~= before + seq![(r, c)]);
        },
        _ => {
            assert(out@ =~= before + Seq::<(usize, usize)>::empty());
        },
    }
}

/// The rows of a grid as sequences.
pub open spec fn rows_of<T>(grid: Seq<Vec<T>>) -> Seq<Seq<T>> {
    Seq::new(grid.len(), |y: int| grid[y]@)
}

/// Every row holds `width` cells.
pub open spec fn is_rectangular<T>(rows: Seq<Seq<T>>, width: int) -> bool {
    forall|y: int| 0 <= y < rows.len() ==> (#[trigger] rows[y]).len() == width
}

/// A grid of `height` rows of `width` cells, each holding `value`.
pub open spec fn level<T>(value: T, height: int, width: int) -> Seq<Seq<T>> {
    Seq::new(height as nat, |y: int| Seq::new(width as nat, |x: int| value))
}

/// `grid` with the cell `(y, x)` holding `v`.
pub open spec fn put<T>(grid: Seq<Seq<T>>, y: int, x: int, v: T) -> Seq<Seq<T>> {
    grid.update(y, grid[y].update(x, v))
}

/// Builds a grid of `height` rows of `width` cells, each holding `value`.
pub fn filled<T: Copy>(height: usize, width: usize, value: T) -> (grid: Vec<Vec<T>>)
    ensures
        rows_of(grid@) == level(value, height as int, width as int),
{
    let mut grid: Vec<Vec<T>> = Vec::new();
    let mut y: usize = 0;
    while y < height
        invariant
            y <= height,
            grid@.len() == y,
            forall|r: int| 0 <= r < y ==> (#[trigger] grid@[r])@ == Seq::new(width as nat, |x: int| value),
        decreases height - y,
    {
        let mut row: Vec<T> = Vec::new();
        let mut x: usize = 0;
        while x < width
            invariant
                x <= width,
                row@.len() == x,
                forall|c: int| 0 <= c < x ==> row@[c] == value,
            decreases width - x,
        {
            row.push(value);
            x += 1;
        }
        assert(row@ =~= Seq::new(width as nat, |x: int| value));
        grid.push(row);
        y += 1;
    }
    assert(rows_of(grid@) =~= level(value, height as int, width as int));
    grid
}

/// Writing one cell of a grid of vectors is `put` on its rows.
pub proof fn lemma_put_row<T>(before: Seq<Vec<T>>, after: Seq<Vec<T>>, y: int, x: int, v: T)
    requires
        0 <= y < before.len(),
        after.len() == before.len(),
        after[y]@ == before[y]@.update(x, v),
        forall|r: int| 0 <= r < before.len() && r != y ==> after[r] == before[r],
    ensures
        rows_of(after) == put(rows_of(before), y, x, v),
{
    assert(rows_of(after) =~= put(rows_of(before), y, x, v));
}

} // verus!
