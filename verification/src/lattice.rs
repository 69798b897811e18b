//! Lattice coordinates and the chained table lookups that hash them.

use vstd::prelude::*;
use crate::perm::PermTable;

verus! {

/// A lattice coordinate reduced into the table's period of 256. The
/// reduction is the mathematical one: the result is never negative.
pub open spec fn wrap(c: int) -> int {
    c % 256
}

/// The hash of the lattice point `(x, y)`: the table entry at the entry for
/// `x` advanced by `y`.
pub open spec fn hash2(table: Seq<u8>, x: int, y: int) -> u8 {
    table[(table[wrap(x)] + wrap(y)) % 256]
}

/// The hash of the lattice point `(x, y, z)`: one more chained lookup on top
/// of `hash2`.
pub open spec fn hash3(table: Seq<u8>, x: int, y: int, z: int) -> u8 {
    table[(hash2(table, x, y) + wrap(z)) % 256]
}

/// Reduces a cell coordinate into `0..256`.
pub fn wrap_cell(c: i32) -> (r: usize)
    ensures
        r == wrap(c as int),
{
    let low: i32 = c & 255;
    assert(0 <= low < 256 && low == c % 256) by (bit_vector)
        requires
            low == c & 255,
    ;
    low as usize
}

/// Stepping one cell along an axis and wrapping is the same as wrapping and
/// then stepping within the period.
pub proof fn lemma_wrap_successor(c: int)
    ensures
        wrap(c + 1) == (wrap(c) + 1) % 256,
{
    vstd::arithmetic::div_mod::lemma_add_mod_noop(c, 1, 256);
    vstd::arithmetic::div_mod::lemma_small_mod(1, 256);
}

/// The wrapped coordinate of the cell after `c`, given the wrapped
/// coordinate `i` of `c` itself.
pub(crate) fn wrap_next(Ghost(c): Ghost<int>, i: usize) -> (r: usize)
    requires
        i == wrap(c),
    ensures
        r == wrap(c + 1),
{
    let sum: usize = i + 1;
    let next: usize = sum & 255;
    assert(next == sum % 256) by (bit_vector)
        requires
            next == sum & 255,
    ;
    proof {
        lemma_wrap_successor(c);
    }
    next
}

/// One link of a hash chain: the entry at `base` advanced by `offset`.
pub(crate) fn chain(perm: &PermTable, base: u8, offset: usize) -> (r: u8)
    requires
        offset < 256,
    ensures
        r == perm@[(base + offset) % 256],
{
    let sum: usize = base as usize + offset;
    let index: usize = sum & 255;
    assert(index == sum % 256) by (bit_vector)
        requires
            index == sum & 255,
    ;
    perm.get(index)
}

/// What the samplers are constructed with. `T` is the type of real that
/// the sampler computes with.
#[derive(Clone, Copy, Debug)]
pub struct NoiseParams<T> {
    pub seed: u64,
    /// Spatial scale of the first octave.
    pub frequency: T,
    /// Factor by which the amplitude decays from octave to octave.
    pub persistence: T,
    /// Number of octaves to sum.
    pub octaves: usize,
}

} // verus!
