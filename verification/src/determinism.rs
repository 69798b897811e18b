//! Reproducibility: everything the generators hand out is a function of
//! their parameters and of the arithmetic, and each kind of generator runs
//! its own random stream.

use vstd::prelude::*;
use crate::erosion2::{eroded, ThermalErosion2D};
use crate::fractal2::{plan_of, Fractal2D, FRACTAL_SALT};
use crate::perlin2::{Perlin2D, PERLIN2_SALT};
use crate::perlin3::{Perlin3D, PERLIN3_SALT};
use crate::perm::PermTable;
use crate::reals::Arithmetic;
use crate::sampling::NoiseGenerator;
use crate::simplex2::{Simplex2D, SIMPLEX2_SALT};

verus! {

/// Two tables built from the same mixed seed hold the same entries.
pub proof fn lemma_same_seed_same_table(a: PermTable, b: PermTable)
    requires
        a.start() == b.start(),
    ensures
        a@ == b@,
{
}

/// Two two-dimensional Perlin samplers built with the same parameters have
/// the same value at every point.
pub proof fn lemma_perlin2_reproducible<T: Copy>(
    a: Perlin2D<T>,
    b: Perlin2D<T>,
    ar: Arithmetic<T>,
    x: T,
    y: T,
)
    requires
        a@ == b@,
    ensures
        a.value2(ar, x, y) == b.value2(ar, x, y),
{
}

/// Two three-dimensional Perlin samplers built with the same parameters
/// have the same value at every point.
pub proof fn lemma_perlin3_reproducible<T: Copy>(
    a: Perlin3D<T>,
    b: Perlin3D<T>,
    ar: Arithmetic<T>,
    x: T,
    y: T,
    z: T,
)
    requires
        a@ == b@,
    ensures
        a.value3(ar, x, y, z) == b.value3(ar, x, y, z),
{
}

/// Two simplex samplers built with the same parameters have the same value
/// at every point.
pub proof fn lemma_simplex2_reproducible<T: Copy>(
    a: Simplex2D<T>,
    b: Simplex2D<T>,
    ar: Arithmetic<T>,
    x: T,
    y: T,
)
    requires
        a@ == b@,
    ensures
        a.value2(ar, x, y) == b.value2(ar, x, y),
{
}

/// Two diamond-square generators with the same size and seed follow the
/// same schedule with the same draws, whatever their roughness.
pub proof fn lemma_fractal2_reproducible<T>(a: Fractal2D<T>, b: Fractal2D<T>)
    requires
        a@.size == b@.size,
        a@.seed == b@.seed,
    ensures
        plan_of(a@.size as int, a@.seed) == plan_of(b@.size as int, b@.seed),
{
}

/// Two eroders built with the same parameters turn the same grid into the
/// same grid.
pub proof fn lemma_erosion_reproducible<T>(
    a: ThermalErosion2D<T>,
    b: ThermalErosion2D<T>,
    ar: Arithmetic<T>,
    grid: Seq<Seq<T>>,
)
    requires
        a@ == b@,
    ensures
        eroded(ar, a@.talus_angle, grid, a@.iterations as nat) == eroded(
            ar,
            b@.talus_angle,
            grid,
            b@.iterations as nat,
        ),
{
}

/// For one and the same seed the four kinds of generator start their random
/// streams in four different states.
pub proof fn lemma_streams_start_apart(seed: u64)
    ensures
        seed ^ PERLIN2_SALT != seed ^ PERLIN3_SALT,
        seed ^ PERLIN2_SALT != seed ^ SIMPLEX2_SALT,
        seed ^ PERLIN2_SALT != seed ^ FRACTAL_SALT,
        seed ^ PERLIN3_SALT != seed ^ SIMPLEX2_SALT,
        seed ^ PERLIN3_SALT != seed ^ FRACTAL_SALT,
        seed ^ SIMPLEX2_SALT != seed ^ FRACTAL_SALT,
{
    assert(seed ^ 0xDEADBEEFCAFEBABEu64 != seed ^ 0xAABBCCDDEEFF1122u64) by (bit_vector);
    assert(seed ^ 0xDEADBEEFCAFEBABEu64 != seed ^ 0x123456789ABCDEF0u64) by (bit_vector);
    assert(seed ^ 0xDEADBEEFCAFEBABEu64 != seed ^ 0xCAFEBABE12345678u64) by (bit_vector);
    assert(seed ^ 0xAABBCCDDEEFF1122u64 != seed ^ 0x123456789ABCDEF0u64) by (bit_vector);
    assert(seed ^ 0xAABBCCDDEEFF1122u64 != seed ^ 0xCAFEBABE12345678u64) by (bit_vector);
    assert(seed ^ 0x123456789ABCDEF0u64 != seed ^ 0xCAFEBABE12345678u64) by (bit_vector);
}

} // verus!
