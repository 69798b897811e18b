//! Utilities on height maps: flattening, recovering the edge of a flattened
//! square, and colouring.

use vstd::prelude::*;
use crate::grid::{is_rectangular, rows_of};
pub use crate::normalize::normalize2;
use crate::reals::{ratio, ratio_of, Arithmetic, Reals};

verus! {

/// The rows of a grid, one after the other.
pub open spec fn flattened<T>(rows: Seq<Seq<T>>) -> Seq<T>
    decreases rows.len(),
{
    if rows.len() == 0 {
        Seq::empty()
    } else {
        flattened(rows.drop_last()) + rows.last()
    }
}

/// Where the cell `(y, x)` of a grid with rows of `width` cells sits in
/// row-major order.
pub open spec fn row_major(width: int, y: int, x: int) -> int {
    y * width + x
}

/// In the flattened form of a grid whose rows are all `width` long, the
/// cell `(y, x)` sits at `y * width + x`, and nothing else is there.
pub proof fn lemma_flattened_index<T>(rows: Seq<Seq<T>>, width: int, y: int, x: int)
    requires
        is_rectangular(rows, width),
        0 <= y < rows.len(),
        0 <= x < width,
    ensures
        flattened(rows).len() == rows.len() * width,
        0 <= y * width + x < flattened(rows).len(),
        flattened(rows)[y * width + x] == rows[y][x],
    decreases rows.len(),
{
    let init = rows.drop_last();
    let last = rows.len() - 1;
    lemma_flattened_len(rows, width);
    lemma_flattened_len(init, width);
    assert(y * width + width <= last * width + width) by (nonlinear_arith)
        requires
            y <= last,
            width >= 0,
    ;
    assert(y * width >= 0) by (nonlinear_arith)
        requires
            y >= 0,
            width >= 0,
    ;
    assert(rows.len() * width == last * width + width) by (nonlinear_arith)
        requires
            last == rows.len() - 1,
    ;
    if y < last {
        lemma_flattened_index(init, width, y, x);
        assert(init[y] == rows[y]);
    } else {
        assert(init.len() * width == last * width);
    }
}

/// The flattened form of a grid whose rows are all `width` long holds
/// `width` cells per row.
pub proof fn lemma_flattened_len<T>(rows: Seq<Seq<T>>, width: int)
    requires
        is_rectangular(rows, width),
    ensures
        flattened(rows).len() == rows.len() * width,
    decreases rows.len(),
{
    if rows.len() > 0 {
        let init = rows.drop_last();
        lemma_flattened_len(init, width);
        assert(rows.len() * width == init.len() * width + width) by (nonlinear_arith)
            requires
                init.len() == rows.len() - 1,
        ;
    }
}

/// Writes the rows of a grid one after the other into a single vector.
pub fn flatten2<T: Copy>(map: &Vec<Vec<T>>) -> (flat: Vec<T>)
    ensures
        flat@ == flattened(rows_of(map@)),
        forall|width: int, y: int, x: int|
            is_rectangular(rows_of(map@), width) && 0 <= y < map@.len() && 0 <= x < width ==> 0
                <= #[trigger] row_major(width, y, x) < flat@.len() && flat@[row_major(width, y, x)]
                == map@[y]@[x],
{
    let mut flat: Vec<T> = Vec::new();
    let ghost rows = rows_of(map@);
    let mut y: usize = 0;
    while y < map.len()
        invariant
            y <= map.len(),
            rows == rows_of(map@),
            flat@ == flattened(rows.take(y as int)),
        decreases map.len() - y,
    {
        let row = &map[y];
        let ghost before = flat@;
        let mut x: usize = 0;
        while x < row.len()
            invariant
                x <= row.len(),
                flat@ == before + row@.take(x as int),
            decreases row.len() - x,
        {
            flat.push(row[x]);
            assert(row@.take(x as int).push(row@[x as int]) =~= row@.take(x + 1));
            x += 1;
        }
        proof {
            assert(row@.take(row@.len() as int) =~= row@);
            let next = rows.take(y + 1);
            assert(next.drop_last() =~= rows.take(y as int));
            assert(next.last() == row@);
        }
        y += 1;
    }
    proof {
        assert(rows.take(map.len() as int) =~= rows);
        assert forall|width: int, y: int, x: int|
            is_rectangular(rows, width) && 0 <= y < map@.len() && 0 <= x < width implies 0
                <= #[trigger] row_major(width, y, x) < flat@.len() && flat@[row_major(width, y, x)]
                == map@[y]@[x] by {
            lemma_flattened_index(rows, width, y, x);
        }
    }
    flat
}

/// A square grid of edge `edge` holds `len` cells.
pub open spec fn is_edge_of(edge: int, len: int) -> bool {
    0 <= edge && edge * edge == len
}

/// `n` squared, which always fits twice the machine word.
fn squared(n: usize) -> (r: u128)
    ensures
        r == n * n,
{
    assert(n * n <= 0xFFFF_FFFF_FFFF_FFFF * 0xFFFF_FFFF_FFFF_FFFF) by (nonlinear_arith)
        requires
            0 <= n <= 0xFFFF_FFFF_FFFF_FFFF,
    ;
    (n as u128) * (n as u128)
}

/// Finds the edge of the square grid that `len` flattened cells came from.
/// There is none unless `len` is a perfect square.
pub fn square_edge(len: usize) -> (r: Option<usize>)
    ensures
        r matches Some(edge) ==> is_edge_of(edge as int, len as int),
        r is None ==> forall|edge: int| !#[trigger] is_edge_of(edge, len as int),
{
    let mut n: usize = 0;
    while squared(n) < len as u128
        invariant
            n <= len,
            forall|m: int| 0 <= m < n ==> #[trigger] (m * m) < len,
        decreases len - n,
    {
        assert(n < len) by (nonlinear_arith)
            requires
                n * n < len,
                n <= len,
        ;
        assert forall|m: int| 0 <= m < n + 1 implies #[trigger] (m * m) < len by {
            if m < n {
            }
        }
        n += 1;
    }
    if squared(n) == len as u128 {
        Some(n)
    } else {
        assert forall|edge: int| !#[trigger] is_edge_of(edge, len as int) by {
            if edge >= n {
                assert(edge * edge >= n * n) by (nonlinear_arith)
                    requires
                        edge >= n,
                        n >= 0,
                ;
            } else if edge >= 0 {
                assert(edge * edge < len);
            }
        }
        None
    }
}

/// A colour: red, green and blue.
#[derive(Clone, Copy, Debug, PartialEq, Eq, Structural)]
pub struct Rgb {
    pub r: u8,
    pub g: u8,
    pub b: u8,
}

/// A band of heights and the colours at its two ends.
#[derive(Clone, Copy, Debug, PartialEq, Eq, Structural)]
pub enum Band {
    /// Deep to shallow water, below 3/10.
    Water,
    /// Sand, from 3/10 to below 4/10.
    Sand,
    /// Grass, from 4/10 to below 6/10.
    Grass,
    /// Rock, from 6/10 to below 8/10.
    Rock,
    /// Snow, from 8/10 up.
    Snow,
}

impl Band {
    /// The height at which the band begins, in tenths.
    pub open spec fn floor_tenths(self) -> i32 {
        match self {
            Band::Water => 0,
            Band::Sand => 3,
            Band::Grass => 4,
            Band::Rock => 6,
            Band::Snow => 8,
        }
    }

    /// The height at which the band ends, in tenths.
    pub open spec fn ceiling_tenths(self) -> i32 {
        match self {
            Band::Water => 3,
            Band::Sand => 4,
            Band::Grass => 6,
            Band::Rock => 8,
            Band::Snow => 10,
        }
    }

    /// The colour at the band's lower end.
    pub open spec fn from_colour(self) -> Rgb {
        match self {
            Band::Water => Rgb { r: 0, g: 0, b: 128 },
            Band::Sand => Rgb { r: 194, g: 178, b: 128 },
            Band::Grass => Rgb { r: 34, g: 139, b: 34 },
            Band::Rock => Rgb { r: 128, g: 128, b: 128 },
            Band::Snow => Rgb { r: 220, g: 220, b: 220 },
        }
    }

    /// The colour at the band's upper end.
    pub open spec fn to_colour(self) -> Rgb {
        match self {
            Band::Water => Rgb { r: 0, g: 128, b: 255 },
            Band::Sand => Rgb { r: 220, g: 200, b: 160 },
            Band::Grass => Rgb { r: 50, g: 205, b: 50 },
            Band::Rock => Rgb { r: 192, g: 192, b: 192 },
            Band::Snow => Rgb { r: 255, g: 255, b: 255 },
        }
    }

    /// The height at which the band begins, in tenths.
    pub fn floor(self) -> (r: i32)
        ensures
            r == self.floor_tenths(),
    {
        match self {
            Band::Water => 0,
            Band::Sand => 3,
            Band::Grass => 4,
            Band::Rock => 6,
            Band::Snow => 8,
        }
    }

    /// The height at which the band ends, in tenths.
    pub fn ceiling(self) -> (r: i32)
        ensures
            r == self.ceiling_tenths(),
    {
        match self {
            Band::Water => 3,
            Band::Sand => 4,
            Band::Grass => 6,
            Band::Rock => 8,
            Band::Snow => 10,
        }
    }

    /// The colours at the band's two ends, lower end first.
    pub fn colours(self) -> (r: (Rgb, Rgb))
        ensures
            r == (self.from_colour(), self.to_colour()),
    {
        match self {
            Band::Water => (Rgb { r: 0, g: 0, b: 128 }, Rgb { r: 0, g: 128, b: 255 }),
            Band::Sand => (Rgb { r: 194, g: 178, b: 128 }, Rgb { r: 220, g: 200, b: 160 }),
            Band::Grass => (Rgb { r: 34, g: 139, b: 34 }, Rgb { r: 50, g: 205, b: 50 }),
            Band::Rock => (Rgb { r: 128, g: 128, b: 128 }, Rgb { r: 192, g: 192, b: 192 }),
            Band::Snow => (Rgb { r: 220, g: 220, b: 220 }, Rgb { r: 255, g: 255, b: 255 }),
        }
    }
}

/// So many tenths, as the arithmetic has them.
pub open spec fn tenths_of<T>(ar: Arithmetic<T>, n: i32) -> T {
    ratio_of(ar, n, 10)
}

/// The band that a height falls into: the first whose end lies above it,
/// and snow if none does.
pub open spec fn band_of<T>(ar: Arithmetic<T>, h: T) -> Band {
    if (ar.exceeds)(tenths_of(ar, 3), h) {
        Band::Water
    } else if (ar.exceeds)(tenths_of(ar, 4), h) {
        Band::Sand
    } else if (ar.exceeds)(tenths_of(ar, 6), h) {
        Band::Grass
    } else if (ar.exceeds)(tenths_of(ar, 8), h) {
        Band::Rock
    } else {
        Band::Snow
    }
}

/// Where a height lies within a band: its distance from the band's lower
/// end over the band's width. For water that is the height over 3/10.
pub open spec fn share_of<T>(ar: Arithmetic<T>, band: Band, h: T) -> T {
    match band {
        Band::Water => (ar.over)(h, tenths_of(ar, 3)),
        Band::Snow => (ar.over)(
            (ar.minus)(h, tenths_of(ar, 8)),
            (ar.minus)((ar.whole)(1), tenths_of(ar, 8)),
        ),
        _ => (ar.over)(
            (ar.minus)(h, tenths_of(ar, band.floor_tenths())),
            (ar.minus)(tenths_of(ar, band.ceiling_tenths()), tenths_of(ar, band.floor_tenths())),
        ),
    }
}

/// One channel of a colour a share `t` of the way from `a` to `b`.
pub open spec fn channel_of<T>(ar: Arithmetic<T>, a: u8, b: u8, t: T) -> u8 {
    (ar.byte)(
        (ar.plus)(
            (ar.whole)(a as i32),
            (ar.times)((ar.minus)((ar.whole)(b as i32), (ar.whole)(a as i32)), t),
        ),
    )
}

/// The colour a share `t` of the way from `a` to `b`.
pub open spec fn lerp_color_of<T>(ar: Arithmetic<T>, a: Rgb, b: Rgb, t: T) -> Rgb {
    Rgb {
        r: channel_of(ar, a.r, b.r, t),
        g: channel_of(ar, a.g, b.g, t),
        b: channel_of(ar, a.b, b.b, t),
    }
}

/// The colour of a height: that of its band, as far between the band's
/// two colours as the height lies within the band.
pub open spec fn height_to_rgb_of<T>(ar: Arithmetic<T>, h: T) -> Rgb {
    let band = band_of(ar, h);
    lerp_color_of(ar, band.from_colour(), band.to_colour(), share_of(ar, band, h))
}

/// The colours of the first `k` heights, three bytes each.
pub open spec fn image_of<T>(ar: Arithmetic<T>, flat: Seq<T>, k: int) -> Seq<u8>
    decreases k,
{
    if k <= 0 {
        Seq::empty()
    } else {
        let c = height_to_rgb_of(ar, flat[k - 1]);
        image_of(ar, flat, k - 1).push(c.r).push(c.g).push(c.b)
    }
}

fn tenths<T: Copy, K: Reals<T>>(kit: &K, n: i32) -> (r: T)
    requires
        kit.wf(),
    ensures
        r == tenths_of(kit.model(), n),
{
    ratio(kit, n, 10)
}

fn channel<T: Copy, K: Reals<T>>(kit: &K, a: u8, b: u8, t: T) -> (r: u8)
    requires
        kit.wf(),
    ensures
        r == channel_of(kit.model(), a, b, t),
{
    let from = kit.whole(a as i32);
    let to = kit.whole(b as i32);
    kit.byte(kit.plus(from, kit.times(kit.minus(to, from), t)))
}

/// Blends two colours.
pub fn lerp_color<T: Copy, K: Reals<T>>(kit: &K, a: Rgb, b: Rgb, t: T) -> (c: Rgb)
    requires
        kit.wf(),
    ensures
        c == lerp_color_of(kit.model(), a, b, t),
{
    Rgb {
        r: channel(kit, a.r, b.r, t),
        g: channel(kit, a.g, b.g, t),
        b: channel(kit, a.b, b.b, t),
    }
}

/// Maps a height to its terrain colour.
pub fn height_to_rgb<T: Copy, K: Reals<T>>(kit: &K, h: T) -> (c: Rgb)
    requires
        kit.wf(),
    ensures
        c == height_to_rgb_of(kit.model(), h),
{
    let band = if kit.exceeds(tenths(kit, 3), h) {
        Band::Water
    } else if kit.exceeds(tenths(kit, 4), h) {
        Band::Sand
    } else if kit.exceeds(tenths(kit, 6), h) {
        Band::Grass
    } else if kit.exceeds(tenths(kit, 8), h) {
        Band::Rock
    } else {
        Band::Snow
    };
    let share = match band {
        Band::Water => kit.over(h, tenths(kit, 3)),
        Band::Snow => {
            let floor = tenths(kit, 8);
            kit.over(kit.minus(h, floor), kit.minus(kit.whole(1), floor))
        },
        _ => {
            let floor = tenths(kit, band.floor());
            let ceiling = tenths(kit, band.ceiling());
            kit.over(kit.minus(h, floor), kit.minus(ceiling, floor))
        },
    };
    let (from, to) = band.colours();
    lerp_color(kit, from, to, share)
}

/// Colours a flattened height map: three bytes per height, red, green and
/// blue, in the order of the heights.
pub fn to_terrain_image<T: Copy, K: Reals<T>>(kit: &K, flat: &Vec<T>) -> (buf: Vec<u8>)
    requires
        kit.wf(),
    ensures
        buf@ == image_of(kit.model(), flat@, flat@.len() as int),
{
    let mut buf: Vec<u8> = Vec::new();
    let mut k: usize = 0;
    while k < flat.len()
        invariant
            k <= flat@.len(),
            kit.wf(),
            buf@ == image_of(kit.model(), flat@, k as int),
        decreases flat@.len() - k,
    {
        let c = height_to_rgb(kit, flat[k]);
        buf.push(c.r);
        buf.push(c.g);
        buf.push(c.b);
        k += 1;
    }
    buf
}

/// Three bytes stand for every height, and the colour of the `i`-th height
/// stands at `3 * i`.
pub proof fn lemma_image_layout<T>(ar: Arithmetic<T>, flat: Seq<T>, k: int, i: int)
    requires
        0 <= i < k <= flat.len(),
    ensures
        image_of(ar, flat, k).len() == 3 * k,
        image_of(ar, flat, k)[3 * i] == height_to_rgb_of(ar, flat[i]).r,
        image_of(ar, flat, k)[3 * i + 1] == height_to_rgb_of(ar, flat[i]).g,
        image_of(ar, flat, k)[3 * i + 2] == height_to_rgb_of(ar, flat[i]).b,
    decreases k,
{
    lemma_image_len(ar, flat, k - 1);
    if i < k - 1 {
        lemma_image_layout(ar, flat, k - 1, i);
    }
}

proof fn lemma_image_len<T>(ar: Arithmetic<T>, flat: Seq<T>, k: int)
    requires
        0 <= k,
    ensures
        image_of(ar, flat, k).len() == 3 * k,
    decreases k,
{
    if k > 0 {
        lemma_image_len(ar, flat, k - 1);
    }
}

} // verus!
