//! The choice of generator, and what follows from it.

use vstd::prelude::*;

verus! {

/// The generators that a terrain can be made with.
#[derive(Clone, Copy, Debug, PartialEq, Eq, Structural)]
pub enum NoiseType {
    Fractal2D,
    Perlin2D,
    Simplex2D,
}

impl Default for NoiseType {
    /// The diamond-square generator.
    fn default() -> (r: Self)
        ensures
            r == NoiseType::Fractal2D,
    {
        NoiseType::Fractal2D
    }
}

/// The identifier under which a generator is recorded.
pub open spec fn identifier_of(t: NoiseType) -> Seq<char> {
    match t {
        NoiseType::Fractal2D => "fractal"@,
        NoiseType::Perlin2D => "perlin"@,
        NoiseType::Simplex2D => "simplex"@,
    }
}

/// The generator that an identifier names, if it names one.
pub open spec fn named_by(name: Seq<char>) -> Option<NoiseType> {
    if name == "fractal"@ {
        Some(NoiseType::Fractal2D)
    } else if name == "perlin"@ {
        Some(NoiseType::Perlin2D)
    } else if name == "simplex"@ {
        Some(NoiseType::Simplex2D)
    } else {
        None
    }
}

impl NoiseType {
    /// The identifier under which this generator is recorded.
    pub fn identifier(self) -> (r: &'static str)
        ensures
            r@ == identifier_of(self),
    {
        match self {
            NoiseType::Fractal2D => "fractal",
            NoiseType::Perlin2D => "perlin",
            NoiseType::Simplex2D => "simplex",
        }
    }

    /// Reads an identifier back. Anything but the three identifiers names no
    /// generator.
    pub fn from_identifier(name: &str) -> (r: Option<NoiseType>)
        ensures
            r == named_by(name@),
    {
        let owned = name.to_owned();
        if owned == "fractal".to_owned() {
            Some(NoiseType::Fractal2D)
        } else if owned == "perlin".to_owned() {
            Some(NoiseType::Perlin2D)
        } else if owned == "simplex".to_owned() {
            Some(NoiseType::Simplex2D)
        } else {
            None
        }
    }

    /// Erosion is offered for grids that the diamond-square generator made,
    /// and for no others.
    pub fn supports_erosion(self) -> (r: bool)
        ensures
            r == (self == NoiseType::Fractal2D),
    {
        match self {
            NoiseType::Fractal2D => true,
            _ => false,
        }
    }

    /// Domain warping is offered for the point samplers, and not for the
    /// diamond-square generator.
    pub fn supports_warping(self) -> (r: bool)
        ensures
            r == (self != NoiseType::Fractal2D),
    {
        match self {
            NoiseType::Fractal2D => false,
            _ => true,
        }
    }
}

/// Every generator is read back from its own identifier.
pub proof fn lemma_identifier_round_trip(t: NoiseType)
    ensures
        named_by(identifier_of(t)) == Some(t),
{
    reveal_strlit("fractal");
    reveal_strlit("perlin");
    reveal_strlit("simplex");
    assert("fractal"@.len() == 7);
    assert("perlin"@.len() == 6);
    assert("simplex"@[0] == 's');
    assert("fractal"@[0] == 'f');
}

} // verus!
