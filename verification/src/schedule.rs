//! What the diamond-square schedule guarantees: it sets every cell of the
//! grid exactly once, and whatever a step averages has been set before it.

use vstd::prelude::*;
use vstd::arithmetic::div_mod::{lemma_fundamental_div_mod, lemma_fundamental_div_mod_converse};
use vstd::arithmetic::power2::is_pow2;
use crate::fractal2::{
    corner_visits, diamond_visit, diamond_visits, plan_of, rounds_from, sources_of, square_visit,
    square_visits, valid_size, visits_of, StepKind, Visit,
};
use crate::grid::in_grid;

verus! {

/// A round of the schedule on a grid of edge `n`: coarse cells of edge
/// `step`, `q` of them per side.
spec fn is_level(n: int, step: int, q: int) -> bool {
    &&& step >= 1
    &&& q >= 1
    &&& q * step == n - 1
    &&& is_pow2(step)
    &&& n <= usize::MAX
}

/// Both coordinates are multiples of `spacing`.
spec fn on_lattice(spacing: int, r: int, c: int) -> bool {
    r % spacing == 0 && c % spacing == 0
}

/// The visit sets the cell `(r, c)`.
pub open spec fn sets(v: Visit, r: int, c: int) -> bool {
    v.row == r && v.col == c
}

proof fn lemma_split(x: int, d: int, a: int, b: int)
    requires
        d > 0,
        0 <= b < d,
        x == a * d + b,
    ensures
        x / d == a,
        x % d == b,
{
    lemma_fundamental_div_mod_converse(x, d, a, b);
}

proof fn lemma_join(x: int, d: int)
    requires
        d > 0,
    ensures
        x == (x / d) * d + x % d,
        0 <= x % d < d,
{
    lemma_fundamental_div_mod(x, d);
    assert(d * (x / d) == (x / d) * d) by (nonlinear_arith);
}

proof fn lemma_count(a: int, q: int, s: int)
    by (nonlinear_arith)
    requires
        0 <= a,
        a <= q,
        0 <= s,
    ensures
        0 <= a * s <= q * s,
{
}

/// With `s == 2 * h`, a multiple of `h` leaves 0 or `h` when divided by
/// `s`, and nothing else does.
proof fn lemma_half_residue(r: int, s: int, h: int)
    requires
        h >= 1,
        s == 2 * h,
    ensures
        r % h == 0 <==> (r % s == 0 || r % s == h),
{
    lemma_join(r, s);
    lemma_join(r, h);
    let a = r / s;
    if r % s == 0 {
        assert(r == (2 * a) * h + 0) by (nonlinear_arith)
            requires
                r == a * s + 0,
                s == 2 * h,
        ;
        lemma_split(r, h, 2 * a, 0);
    } else if r % s == h {
        assert(r == (2 * a + 1) * h + 0) by (nonlinear_arith)
            requires
                r == a * s + h,
                s == 2 * h,
        ;
        lemma_split(r, h, 2 * a + 1, 0);
    }
    if r % h == 0 {
        let t = r / h;
        assert(r == t * h);
        let u = t / 2;
        if t % 2 == 0 {
            assert(r == u * s + 0) by (nonlinear_arith)
                requires
                    r == t * h,
                    t == 2 * u,
                    s == 2 * h,
            ;
            lemma_split(r, s, u, 0);
        } else {
            assert(r == u * s + h) by (nonlinear_arith)
                requires
                    r == t * h,
                    t == 2 * u + 1,
                    s == 2 * h,
            ;
            lemma_split(r, s, u, h);
        }
    }
}

/// Where the `k`-th diamond of a round lies.
proof fn lemma_diamond(n: int, s: int, q: int, round: int, k: int)
    requires
        is_level(n, s, q),
        s >= 2,
        s % 2 == 0,
        0 <= k < q * q,
    ensures
        ({
            let v = diamond_visit(s, round, q, k);
            let h = s / 2;
            &&& 0 <= k / q < q
            &&& 0 <= k % q < q
            &&& v.row == (k / q) * s + h
            &&& v.col == (k % q) * s + h
            &&& in_grid(v.row as int, v.col as int, n, n)
            &&& v.row as int % s == h
            &&& v.col as int % s == h
            &&& v.kind == StepKind::Diamond
            &&& v.reach == h
        }),
{
    let h = s / 2;
    let a = k / q;
    let b = k % q;
    lemma_join(k, q);
    assert(0 <= a < q) by (nonlinear_arith)
        requires
            k == a * q + b,
            0 <= b < q,
            0 <= k < q * q,
    ;
    lemma_count(a, q - 1, s);
    lemma_count(b, q - 1, s);
    assert((q - 1) * s == q * s - s) by (nonlinear_arith);
    lemma_split(a * s + h, s, a, h);
    lemma_split(b * s + h, s, b, h);
}

/// Where the `k`-th square of a round lies.
proof fn lemma_square(n: int, s: int, q: int, round: int, k: int)
    requires
        is_level(n, s, q),
        s >= 2,
        s % 2 == 0,
        0 <= k < 2 * q * (q + 1),
    ensures
        ({
            let v = square_visit(s, round, q, k);
            let h = s / 2;
            let pair = k / (2 * q + 1);
            let rest = k % (2 * q + 1);
            &&& 0 <= pair <= q
            &&& 0 <= rest < 2 * q + 1
            &&& pair == q ==> rest < q
            &&& rest < q ==> v.row == pair * s && v.col == rest * s + h
            &&& rest >= q ==> v.row == pair * s + h && v.col == (rest - q) * s
            &&& in_grid(v.row as int, v.col as int, n, n)
            &&& rest < q ==> v.row as int % s == 0 && v.col as int % s == h
            &&& rest >= q ==> v.row as int % s == h && v.col as int % s == 0
            &&& v.kind == StepKind::Square
            &&& v.reach == h
        }),
{
    let h = s / 2;
    let w = 2 * q + 1;
    let pair = k / w;
    let rest = k % w;
    lemma_join(k, w);
    assert(0 <= pair <= q && (pair == q ==> rest < q)) by (nonlinear_arith)
        requires
            k == pair * w + rest,
            0 <= rest < w,
            w == 2 * q + 1,
            0 <= k < 2 * q * (q + 1),
            q >= 1,
    ;
    assert(2 * pair * h == pair * s && (2 * pair + 1) * h == pair * s + h) by (nonlinear_arith)
        requires
            s == 2 * h,
    ;
    assert((q - 1) * s == q * s - s) by (nonlinear_arith);
    if rest < q {
        lemma_count(pair, q, s);
        lemma_count(rest, q - 1, s);
        lemma_split(pair * s, s, pair, 0);
        lemma_split(rest * s + h, s, rest, h);
    } else {
        lemma_count(pair, q - 1, s);
        lemma_count(rest - q, q, s);
        lemma_split(pair * s + h, s, pair, h);
        lemma_split((rest - q) * s, s, rest - q, 0);
    }
}

/// Halving the step of a round gives the next round.
proof fn lemma_next_level(n: int, s: int, q: int)
    requires
        is_level(n, s, q),
        s >= 2,
    ensures
        s % 2 == 0,
        is_level(n, s / 2, 2 * q),
        (n - 1) / s == q,
{
    reveal(is_pow2);
    assert((2 * q) * (s / 2) == q * s) by (nonlinear_arith)
        requires
            s % 2 == 0,
    ;
    lemma_split(n - 1, s, q, 0);
}

/// The visits of one round: its diamonds, then its squares.
spec fn round_visits(s: int, round: int, q: int) -> Seq<Visit> {
    diamond_visits(s, round, q) + square_visits(s, round, q)
}

/// A round sets every cell that is on the lattice of its half step and not
/// on that of its full step; the result is the place in the round where
/// that happens.
proof fn lemma_round_index(n: int, s: int, q: int, round: int, r: int, c: int) -> (k: int)
    requires
        is_level(n, s, q),
        s >= 2,
        in_grid(r, c, n, n),
        on_lattice(s / 2, r, c),
        !on_lattice(s, r, c),
    ensures
        0 <= k < round_visits(s, round, q).len(),
        round_visits(s, round, q).len() == q * q + 2 * q * (q + 1),
        sets(round_visits(s, round, q)[k], r, c),
        k < q * q <==> (r % s != 0 && c % s != 0),
{
    lemma_next_level(n, s, q);
    let h = s / 2;
    lemma_half_residue(r, s, h);
    lemma_half_residue(c, s, h);
    lemma_join(r, s);
    lemma_join(c, s);
    let a = r / s;
    let b = c / s;
    assert(q * q >= 0 && 2 * q * (q + 1) >= 0) by (nonlinear_arith)
        requires
            q >= 1,
    ;
    assert(a >= 0 && b >= 0 && (r % s == h ==> a < q) && (c % s == h ==> b < q) && a <= q && b
        <= q) by (nonlinear_arith)
        requires
            r == a * s + r % s,
            c == b * s + c % s,
            0 <= r <= q * s,
            0 <= c <= q * s,
            0 <= r % s < s,
            0 <= c % s < s,
            h >= 1,
            s >= 2,
    ;
    if r % s == h && c % s == h {
        let k = a * q + b;
        assert(0 <= k < q * q) by (nonlinear_arith)
            requires
                k == a * q + b,
                0 <= a < q,
                0 <= b < q,
        ;
        lemma_split(k, q, a, b);
        lemma_diamond(n, s, q, round, k);
        k
    } else if r % s == 0 {
        let k = a * (2 * q + 1) + b;
        assert(0 <= k < 2 * q * (q + 1)) by (nonlinear_arith)
            requires
                k == a * (2 * q + 1) + b,
                0 <= a <= q,
                0 <= b < q,
        ;
        lemma_split(k, 2 * q + 1, a, b);
        lemma_square(n, s, q, round, k);
        q * q + k
    } else {
        let k = a * (2 * q + 1) + (q + b);
        assert(0 <= k < 2 * q * (q + 1)) by (nonlinear_arith)
            requires
                k == a * (2 * q + 1) + (q + b),
                0 <= a < q,
                0 <= b <= q,
        ;
        lemma_split(k, 2 * q + 1, a, q + b);
        lemma_square(n, s, q, round, k);
        q * q + k
    }
}

/// Every visit of a round sets a cell of the grid that is on the lattice of
/// the round's half step and not on that of its full step.
proof fn lemma_round_member(n: int, s: int, q: int, round: int, k: int)
    requires
        is_level(n, s, q),
        s >= 2,
        0 <= k < q * q + 2 * q * (q + 1),
    ensures
        round_visits(s, round, q).len() == q * q + 2 * q * (q + 1),
        ({
            let v = round_visits(s, round, q)[k];
            &&& in_grid(v.row as int, v.col as int, n, n)
            &&& on_lattice(s / 2, v.row as int, v.col as int)
            &&& !on_lattice(s, v.row as int, v.col as int)
            &&& v.kind != StepKind::Corner
            &&& v.reach == s / 2
            &&& (v.kind == StepKind::Diamond <==> k < q * q)
            &&& (v.kind == StepKind::Diamond ==> v.row as int % s != 0 && v.col as int % s != 0)
            &&& (v.kind == StepKind::Square ==> (v.row as int % s == 0) != (v.col as int % s == 0))
        }),
{
    lemma_next_level(n, s, q);
    let h = s / 2;
    assert(q * q >= 0 && 2 * q * (q + 1) >= 0) by (nonlinear_arith)
        requires
            q >= 1,
    ;
    let v = round_visits(s, round, q)[k];
    if k < q * q {
        lemma_diamond(n, s, q, round, k);
    } else {
        lemma_square(n, s, q, round, k - q * q);
    }
    lemma_half_residue(v.row as int, s, h);
    lemma_half_residue(v.col as int, s, h);
}

/// How many visits follow from a round on: the cells of the grid less those
/// on the round's lattice.
proof fn lemma_rounds_len(n: int, s: int, q: int, round: int)
    requires
        is_level(n, s, q),
    ensures
        rounds_from(n, s, round).len() == n * n - (q + 1) * (q + 1),
        s >= 2 ==> rounds_from(n, s, round) == round_visits(s, round, q) + rounds_from(
            n,
            s / 2,
            round + 1,
        ),
        s >= 2 ==> round_visits(s, round, q).len() == q * q + 2 * q * (q + 1),
    decreases s,
{
    if s >= 2 {
        lemma_next_level(n, s, q);
        lemma_rounds_len(n, s / 2, 2 * q, round + 1);
        assert(q * q >= 0 && 2 * q * (q + 1) >= 0) by (nonlinear_arith)
            requires
                q >= 1,
        ;
        assert(q * q + 2 * q * (q + 1) + (n * n - (2 * q + 1) * (2 * q + 1)) == n * n - (q + 1)
            * (q + 1)) by (nonlinear_arith);
    } else {
        assert(q == n - 1) by (nonlinear_arith)
            requires
                q * s == n - 1,
                s == 1,
        ;
        assert(n * n - (q + 1) * (q + 1) == 0) by (nonlinear_arith)
            requires
                q == n - 1,
        ;
    }
}

/// From a round on, no visit sets a cell on the round's lattice: those were
/// set before.
proof fn lemma_rounds_member(n: int, s: int, q: int, round: int, i: int)
    requires
        is_level(n, s, q),
        0 <= i < rounds_from(n, s, round).len(),
    ensures
        ({
            let v = rounds_from(n, s, round)[i];
            &&& in_grid(v.row as int, v.col as int, n, n)
            &&& !on_lattice(s, v.row as int, v.col as int)
            &&& v.kind != StepKind::Corner
        }),
    decreases s,
{
    lemma_rounds_len(n, s, q, round);
    if s >= 2 {
        lemma_next_level(n, s, q);
        let here = q * q + 2 * q * (q + 1);
        if i < here {
            lemma_round_member(n, s, q, round, i);
        } else {
            lemma_rounds_member(n, s / 2, 2 * q, round + 1, i - here);
            let v = rounds_from(n, s, round)[i];
            lemma_half_residue(v.row as int, s, s / 2);
            lemma_half_residue(v.col as int, s, s / 2);
        }
    }
}

/// From a round on, every cell of the grid that is not on the round's
/// lattice is set; the result is the place where that happens.
proof fn lemma_rounds_cover(n: int, s: int, q: int, round: int, r: int, c: int) -> (i: int)
    requires
        is_level(n, s, q),
        in_grid(r, c, n, n),
        !on_lattice(s, r, c),
    ensures
        0 <= i < rounds_from(n, s, round).len(),
        sets(rounds_from(n, s, round)[i], r, c),
    decreases s,
{
    lemma_rounds_len(n, s, q, round);
    lemma_next_level(n, s, q);
    if on_lattice(s / 2, r, c) {
        lemma_round_index(n, s, q, round, r, c)
    } else {
        let i = lemma_rounds_cover(n, s / 2, 2 * q, round + 1, r, c);
        q * q + 2 * q * (q + 1) + i
    }
}

proof fn lemma_cancel(a: int, b: int, s: int)
    by (nonlinear_arith)
    requires
        s > 0,
        a * s == b * s,
    ensures
        a == b,
{
}

/// Two different visits of one round set different cells.
proof fn lemma_round_distinct(n: int, s: int, q: int, round: int, i: int, j: int)
    requires
        is_level(n, s, q),
        s >= 2,
        0 <= i < j < q * q + 2 * q * (q + 1),
    ensures
        ({
            let a = round_visits(s, round, q)[i];
            let b = round_visits(s, round, q)[j];
            a.row != b.row || a.col != b.col
        }),
{
    lemma_next_level(n, s, q);
    lemma_round_member(n, s, q, round, i);
    lemma_round_member(n, s, q, round, j);
    let d = q * q;
    let w = 2 * q + 1;
    let a = round_visits(s, round, q)[i];
    let b = round_visits(s, round, q)[j];
    if j < d {
        lemma_diamond(n, s, q, round, i);
        lemma_diamond(n, s, q, round, j);
        lemma_join(i, q);
        lemma_join(j, q);
        if a.row == b.row && a.col == b.col {
            lemma_cancel(i / q, j / q, s);
            lemma_cancel(i % q, j % q, s);
        }
    } else if i >= d {
        let ki = i - d;
        let kj = j - d;
        lemma_square(n, s, q, round, ki);
        lemma_square(n, s, q, round, kj);
        lemma_join(ki, w);
        lemma_join(kj, w);
        if a.row == b.row && a.col == b.col {
            if ki % w < q {
                lemma_cancel(ki / w, kj / w, s);
                lemma_cancel(ki % w, kj % w, s);
            } else {
                lemma_cancel(ki / w, kj / w, s);
                lemma_cancel(ki % w - q, kj % w - q, s);
            }
        }
    }
}

/// From a round on, two different visits set different cells.
proof fn lemma_rounds_distinct(n: int, s: int, q: int, round: int, i: int, j: int)
    requires
        is_level(n, s, q),
        0 <= i < j < rounds_from(n, s, round).len(),
    ensures
        ({
            let a = rounds_from(n, s, round)[i];
            let b = rounds_from(n, s, round)[j];
            a.row != b.row || a.col != b.col
        }),
    decreases s,
{
    lemma_rounds_len(n, s, q, round);
    if s >= 2 {
        lemma_next_level(n, s, q);
        let here = q * q + 2 * q * (q + 1);
        if j < here {
            lemma_round_distinct(n, s, q, round, i, j);
        } else if i < here {
            lemma_round_member(n, s, q, round, i);
            lemma_rounds_member(n, s / 2, 2 * q, round + 1, j - here);
        } else {
            lemma_rounds_distinct(n, s / 2, 2 * q, round + 1, i - here, j - here);
        }
    }
}

/// With `s == 2 * h`, a step of `h` either way turns a multiple of `s` into
/// an odd multiple of `h`, and an odd multiple of `h` into a multiple of `s`.
proof fn lemma_half_step(r: int, s: int, h: int)
    requires
        h >= 1,
        s == 2 * h,
        r % s == 0 || r % s == h,
    ensures
        r % s == 0 ==> (r + h) % s == h && (r - h) % s == h,
        r % s == h ==> (r + h) % s == 0 && (r - h) % s == 0,
{
    lemma_join(r, s);
    let t = r / s;
    if r % s == 0 {
        assert(r + h == t * s + h && r - h == (t - 1) * s + h) by (nonlinear_arith)
            requires
                r == t * s + 0,
                s == 2 * h,
        ;
        lemma_split(r + h, s, t, h);
        lemma_split(r - h, s, t - 1, h);
    } else {
        assert(r + h == (t + 1) * s + 0 && r - h == t * s + 0) by (nonlinear_arith)
            requires
                r == t * s + h,
                s == 2 * h,
        ;
        lemma_split(r + h, s, t + 1, 0);
        lemma_split(r - h, s, t, 0);
    }
}

/// Which of four candidate cells the `k`-th of those that lie in the grid
/// is.
proof fn lemma_pick(y: Seq<int>, x: Seq<int>, n: int, k: int) -> (t: int)
    requires
        y.len() == 4,
        x.len() == 4,
        n <= usize::MAX,
        0 <= k < (crate::grid::if_in_grid(y[0], x[0], n, n) + crate::grid::if_in_grid(
            y[1],
            x[1],
            n,
            n,
        ) + crate::grid::if_in_grid(y[2], x[2], n, n) + crate::grid::if_in_grid(
            y[3],
            x[3],
            n,
            n,
        )).len(),
    ensures
        0 <= t < 4,
        in_grid(y[t], x[t], n, n),
        (crate::grid::if_in_grid(y[0], x[0], n, n) + crate::grid::if_in_grid(y[1], x[1], n, n)
            + crate::grid::if_in_grid(y[2], x[2], n, n) + crate::grid::if_in_grid(
            y[3],
            x[3],
            n,
            n,
        ))[k] == (y[t] as usize, x[t] as usize),
{
    let c0 = crate::grid::if_in_grid(y[0], x[0], n, n);
    let c1 = crate::grid::if_in_grid(y[1], x[1], n, n);
    let c2 = crate::grid::if_in_grid(y[2], x[2], n, n);
    if k < c0.len() {
        0
    } else if k < c0.len() + c1.len() {
        1
    } else if k < c0.len() + c1.len() + c2.len() {
        2
    } else {
        3
    }
}

/// Within a round, whatever a visit averages is a cell of the grid that was
/// set before the round began, or that a diamond of the round has set. The
/// result is -1 in the first case and the diamond's place in the round in
/// the second.
proof fn lemma_round_sources(n: int, s: int, q: int, round: int, i: int, k: int) -> (j: int)
    requires
        is_level(n, s, q),
        s >= 2,
        0 <= i < q * q + 2 * q * (q + 1),
        0 <= k < sources_of(n, round_visits(s, round, q)[i]).len(),
    ensures
        ({
            let u = sources_of(n, round_visits(s, round, q)[i])[k];
            &&& in_grid(u.0 as int, u.1 as int, n, n)
            &&& j == -1 ==> on_lattice(s, u.0 as int, u.1 as int)
            &&& j != -1 ==> 0 <= j < i && j < q * q && sets(
                round_visits(s, round, q)[j],
                u.0 as int,
                u.1 as int,
            )
        }),
{
    lemma_next_level(n, s, q);
    lemma_round_member(n, s, q, round, i);
    let v = round_visits(s, round, q)[i];
    let r = v.row as int;
    let c = v.col as int;
    let h = s / 2;
    let (ys, xs) = if v.kind == StepKind::Diamond {
        (seq![r - h, r - h, r + h, r + h], seq![c - h, c + h, c - h, c + h])
    } else {
        (seq![r, r, r - h, r + h], seq![c - h, c + h, c, c])
    };
    let t = lemma_pick(ys, xs, n, k);
    let y = ys[t];
    let x = xs[t];
    assert(sources_of(n, v)[k] == (y as usize, x as usize));
    lemma_half_residue(r, s, h);
    lemma_half_residue(c, s, h);
    lemma_half_step(r, s, h);
    lemma_half_step(c, s, h);
    lemma_half_residue(y, s, h);
    lemma_half_residue(x, s, h);
    if on_lattice(s, y, x) {
        -1
    } else {
        lemma_round_index(n, s, q, round, y, x)
    }
}

/// From a round on, whatever a visit averages is a cell of the grid that was
/// set before the round began, or that an earlier visit has set. The result
/// is -1 in the first case and the earlier visit's place in the second.
proof fn lemma_rounds_sources(n: int, s: int, q: int, round: int, i: int, k: int) -> (j: int)
    requires
        is_level(n, s, q),
        0 <= i < rounds_from(n, s, round).len(),
        0 <= k < sources_of(n, rounds_from(n, s, round)[i]).len(),
    ensures
        ({
            let u = sources_of(n, rounds_from(n, s, round)[i])[k];
            &&& in_grid(u.0 as int, u.1 as int, n, n)
            &&& j == -1 ==> on_lattice(s, u.0 as int, u.1 as int)
            &&& j != -1 ==> 0 <= j < i && sets(rounds_from(n, s, round)[j], u.0 as int, u.1 as int)
        }),
    decreases s,
{
    lemma_rounds_len(n, s, q, round);
    lemma_next_level(n, s, q);
    let here = q * q + 2 * q * (q + 1);
    if i < here {
        lemma_round_sources(n, s, q, round, i, k)
    } else {
        let j = lemma_rounds_sources(n, s / 2, 2 * q, round + 1, i - here, k);
        let u = sources_of(n, rounds_from(n, s, round)[i])[k];
        if j != -1 {
            here + j
        } else if on_lattice(s, u.0 as int, u.1 as int) {
            -1
        } else {
            lemma_round_index(n, s, q, round, u.0 as int, u.1 as int)
        }
    }
}

/// How many cells a visit averages.
pub open spec fn source_count_fits(n: int, v: Visit) -> bool {
    match v.kind {
        StepKind::Corner => sources_of(n, v).len() == 0,
        StepKind::Diamond => sources_of(n, v).len() == 4,
        StepKind::Square => 3 <= sources_of(n, v).len() <= 4,
    }
}

/// Within a round, a diamond has all four of its diagonal neighbours in the
/// grid, and a square at least three of its neighbours along the axes.
proof fn lemma_round_source_count(n: int, s: int, q: int, round: int, i: int)
    requires
        is_level(n, s, q),
        s >= 2,
        0 <= i < q * q + 2 * q * (q + 1),
    ensures
        source_count_fits(n, round_visits(s, round, q)[i]),
{
    lemma_next_level(n, s, q);
    lemma_round_member(n, s, q, round, i);
    let v = round_visits(s, round, q)[i];
    let r = v.row as int;
    let c = v.col as int;
    let h = s / 2;
    lemma_join(r, s);
    lemma_join(c, s);
    lemma_half_residue(r, s, h);
    lemma_half_residue(c, s, h);
    let a = r / s;
    let b = c / s;
    assert((r % s == h ==> h <= r && r + h <= n - 1) && (c % s == h ==> h <= c && c + h <= n - 1)
        && (r % s == 0 ==> h <= r || r + h <= n - 1) && (c % s == 0 ==> h <= c || c + h <= n
        - 1)) by (nonlinear_arith)
        requires
            r == a * s + r % s,
            c == b * s + c % s,
            0 <= r <= q * s,
            0 <= c <= q * s,
            q * s == n - 1,
            s == 2 * h,
            h >= 1,
            q >= 1,
            r % s == 0 || r % s == h,
            c % s == 0 || c % s == h,
    ;
}

/// From a round on, every visit averages as many cells as its kind calls
/// for.
proof fn lemma_rounds_source_count(n: int, s: int, q: int, round: int, i: int)
    requires
        is_level(n, s, q),
        0 <= i < rounds_from(n, s, round).len(),
    ensures
        source_count_fits(n, rounds_from(n, s, round)[i]),
    decreases s,
{
    lemma_rounds_len(n, s, q, round);
    lemma_next_level(n, s, q);
    let here = q * q + 2 * q * (q + 1);
    if i < here {
        lemma_round_source_count(n, s, q, round, i);
    } else {
        lemma_rounds_source_count(n, s / 2, 2 * q, round + 1, i - here);
    }
}

/// The first round of a valid grid: one coarse cell that spans it.
proof fn lemma_top_level(size: usize)
    requires
        valid_size(size as int),
    ensures
        is_level(size as int, size - 1, 1),
        visits_of(size as int).len() == size * size,
        corner_visits(size as int).len() == 4,
{
    lemma_rounds_len(size as int, size - 1, 1, 0);
    assert(size * size - (1 + 1) * (1 + 1) == size * size - 4) by (nonlinear_arith);
}

/// A cell of the grid on the lattice that spans it is one of the corners;
/// the result is the corner's place in the schedule.
proof fn lemma_corner(size: usize, r: int, c: int) -> (i: int)
    requires
        valid_size(size as int),
        in_grid(r, c, size as int, size as int),
        on_lattice(size - 1, r, c),
    ensures
        0 <= i < 4,
        sets(corner_visits(size as int)[i], r, c),
{
    let last = size - 1;
    lemma_join(r, last);
    lemma_join(c, last);
    assert((r / last == 0 || r / last == 1) && (c / last == 0 || c / last == 1))
        by (nonlinear_arith)
        requires
            r == (r / last) * last,
            c == (c / last) * last,
            0 <= r <= last,
            0 <= c <= last,
            last >= 2,
    ;
    (if r == 0 { 0int } else { 2int }) + (if c == 0 { 0int } else { 1int })
}

/// The schedule has one entry for each cell of the grid.
pub proof fn lemma_plan_len(size: usize, seed: u64)
    requires
        valid_size(size as int),
    ensures
        plan_of(size as int, seed).len() == size * size,
{
    lemma_top_level(size);
}

/// Every step of the schedule sets a cell of the grid. The first four
/// steps, and no others, are corners.
pub proof fn lemma_plan_stays_in_grid(size: usize, seed: u64, i: int)
    requires
        valid_size(size as int),
        0 <= i < plan_of(size as int, seed).len(),
    ensures
        ({
            let v = plan_of(size as int, seed)[i].visit;
            &&& in_grid(v.row as int, v.col as int, size as int, size as int)
            &&& v.kind == StepKind::Corner <==> i < 4
        }),
{
    lemma_top_level(size);
    if i >= 4 {
        lemma_rounds_member(size as int, size - 1, 1, 0, i - 4);
    }
}

/// The schedule sets every cell of the grid exactly once: the result is the
/// one step that sets `(r, c)`.
pub proof fn lemma_plan_sets_each_cell_once(size: usize, seed: u64, r: int, c: int) -> (i: int)
    requires
        valid_size(size as int),
        in_grid(r, c, size as int, size as int),
    ensures
        0 <= i < plan_of(size as int, seed).len(),
        sets(plan_of(size as int, seed)[i].visit, r, c),
        forall|j: int|
            0 <= j < plan_of(size as int, seed).len() && sets(
                #[trigger] plan_of(size as int, seed)[j].visit,
                r,
                c,
            ) ==> j == i,
{
    let n = size as int;
    lemma_top_level(size);
    let i = if on_lattice(n - 1, r, c) {
        lemma_corner(size, r, c)
    } else {
        4 + lemma_rounds_cover(n, n - 1, 1, 0, r, c)
    };
    assert forall|j: int|
        0 <= j < plan_of(n, seed).len() && sets(#[trigger] plan_of(n, seed)[j].visit, r, c)
        implies j == i by {
        if j != i {
            let lo = if j < i { j } else { i };
            let hi = if j < i { i } else { j };
            lemma_split(0, n - 1, 0, 0);
            lemma_split(n - 1, n - 1, 1, 0);
            if hi < 4 {
            } else if lo < 4 {
                lemma_rounds_member(n, n - 1, 1, 0, hi - 4);
            } else {
                lemma_rounds_distinct(n, n - 1, 1, 0, lo - 4, hi - 4);
            }
        }
    }
    i
}

/// Whatever a step of the schedule averages is a cell of the grid that an
/// earlier step has set: the result is that step.
pub proof fn lemma_sources_are_set_earlier(size: usize, seed: u64, i: int, k: int) -> (j: int)
    requires
        valid_size(size as int),
        0 <= i < plan_of(size as int, seed).len(),
        0 <= k < sources_of(size as int, plan_of(size as int, seed)[i].visit).len(),
    ensures
        ({
            let u = sources_of(size as int, plan_of(size as int, seed)[i].visit)[k];
            &&& in_grid(u.0 as int, u.1 as int, size as int, size as int)
            &&& 0 <= j < i
            &&& sets(plan_of(size as int, seed)[j].visit, u.0 as int, u.1 as int)
        }),
{
    let n = size as int;
    lemma_top_level(size);
    let j = lemma_rounds_sources(n, n - 1, 1, 0, i - 4, k);
    let u = sources_of(n, plan_of(n, seed)[i].visit)[k];
    if j == -1 {
        lemma_corner(size, u.0 as int, u.1 as int)
    } else {
        4 + j
    }
}

/// A corner averages nothing, a diamond exactly four cells, and a square
/// three or four: the mean is never taken over nothing.
pub proof fn lemma_source_count(size: usize, seed: u64, i: int)
    requires
        valid_size(size as int),
        0 <= i < plan_of(size as int, seed).len(),
    ensures
        source_count_fits(size as int, plan_of(size as int, seed)[i].visit),
{
    lemma_top_level(size);
    if i >= 4 {
        lemma_rounds_source_count(size as int, size - 1, 1, 0, i - 4);
    }
}

} // verus!
