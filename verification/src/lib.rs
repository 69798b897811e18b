//! Procedural terrain, verified: gradient-noise samplers, a diamond-square
//! generator, thermal erosion, domain warping, and the utilities that
//! normalise, flatten and colour a height map. Everything is reproducible
//! from an integer seed.
//!
//! Heights are real numbers of whatever type the caller computes with. The
//! algorithms are written once over a kit of arithmetic (`reals`) and say,
//! in terms of the kit's operations, exactly what they compute.

pub mod conservation;
pub mod determinism;
pub mod domain_warp;
pub mod erosion2;
pub mod fractal2;
pub mod gradient;
pub mod grid;
pub mod heights;
pub mod lattice;
pub mod noise;
pub mod noise_type;
pub mod normalize;
pub mod perlin2;
pub mod perlin3;
pub mod perm;
pub mod reals;
pub mod rng;
pub mod sampling;
pub mod schedule;
pub mod simplex2;
pub mod utils;

pub use domain_warp::DomainWarp2D;
pub use erosion2::ThermalErosion2D;
pub use fractal2::Fractal2D;
pub use noise_type::NoiseType;
pub use sampling::NoiseGenerator;
pub use perlin2::Perlin2D;
pub use perlin3::Perlin3D;
pub use simplex2::Simplex2D;
pub use normalize::normalize2;
pub use utils::{flatten2, to_terrain_image};
