//! Gradient directions, chosen by the low bits of a lattice hash.

use vstd::prelude::*;

verus! {

/// A coordinate axis.
#[derive(Clone, Copy, Debug, PartialEq, Eq, Structural)]
pub enum Axis {
    X,
    Y,
    Z,
}

/// One signed coordinate of the offset vector: the coordinate along `axis`,
/// with its sign flipped when `negate` is set.
#[derive(Clone, Copy, Debug, PartialEq, Eq, Structural)]
pub struct SignedAxis {
    pub axis: Axis,
    pub negate: bool,
}

/// A gradient direction in the simplified form that Perlin noise uses: the
/// dot product with an offset vector is the sum of two signed coordinates.
#[derive(Clone, Copy, Debug, PartialEq, Eq, Structural)]
pub struct Gradient {
    pub first: SignedAxis,
    pub second: SignedAxis,
}

/// The gradient that a hash selects in two dimensions. Only the low four
/// bits count. Below 8 the first coordinate is x and the second y, from 8 on
/// they trade places; bit 0 flips the first sign and bit 1 the second.
pub open spec fn gradient2_of(hash: u8) -> Gradient {
    let h = hash % 16;
    Gradient {
        first: SignedAxis { axis: if h < 8 { Axis::X } else { Axis::Y }, negate: h % 2 == 1 },
        second: SignedAxis { axis: if h < 8 { Axis::Y } else { Axis::X }, negate: (h / 2) % 2 == 1 },
    }
}

/// The gradient that a hash selects in three dimensions. Only the low four
/// bits count. The first coordinate is x below 8 and y from 8 on. The second
/// is y below 4, x at 12 and 14, and z otherwise. Bit 0 flips the first sign
/// and bit 1 the second.
pub open spec fn gradient3_of(hash: u8) -> Gradient {
    let h = hash % 16;
    Gradient {
        first: SignedAxis { axis: if h < 8 { Axis::X } else { Axis::Y }, negate: h % 2 == 1 },
        second: SignedAxis {
            axis: if h < 4 {
                Axis::Y
            } else if h == 12 || h == 14 {
                Axis::X
            } else {
                Axis::Z
            },
            negate: (h / 2) % 2 == 1,
        },
    }
}

/// Selects the two-dimensional gradient for `hash`.
pub fn gradient2(hash: u8) -> (g: Gradient)
    ensures
        g == gradient2_of(hash),
{
    let h: u8 = hash & 0xF;
    let bit0: u8 = h & 1;
    let bit1: u8 = h & 2;
    assert(h == hash % 16 && (bit0 == 0 <==> h % 2 == 0) && (bit1 == 0 <==> (h / 2) % 2 == 0))
        by (bit_vector)
        requires
            h == hash & 0xF,
            bit0 == h & 1,
            bit1 == h & 2,
    ;
    let first = if h < 8 { Axis::X } else { Axis::Y };
    let second = if h < 8 { Axis::Y } else { Axis::X };
    Gradient {
        first: SignedAxis { axis: first, negate: bit0 != 0 },
        second: SignedAxis { axis: second, negate: bit1 != 0 },
    }
}

/// Selects the three-dimensional gradient for `hash`.
pub fn gradient3(hash: u8) -> (g: Gradient)
    ensures
        g == gradient3_of(hash),
{
    let h: u8 = hash & 0xF;
    let bit0: u8 = h & 1;
    let bit1: u8 = h & 2;
    assert(h == hash % 16 && (bit0 == 0 <==> h % 2 == 0) && (bit1 == 0 <==> (h / 2) % 2 == 0))
        by (bit_vector)
        requires
            h == hash & 0xF,
            bit0 == h & 1,
            bit1 == h & 2,
    ;
    let first = if h < 8 { Axis::X } else { Axis::Y };
    let second = if h < 4 {
        Axis::Y
    } else if h == 12 || h == 14 {
        Axis::X
    } else {
        Axis::Z
    };
    Gradient {
        first: SignedAxis { axis: first, negate: bit0 != 0 },
        second: SignedAxis { axis: second, negate: bit1 != 0 },
    }
}

/// A gradient never names the same axis twice, and a two-dimensional one
/// never leaves the plane.
pub proof fn lemma_gradient_axes(hash: u8)
    ensures
        gradient2_of(hash).first.axis != gradient2_of(hash).second.axis,
        gradient2_of(hash).first.axis != Axis::Z,
        gradient2_of(hash).second.axis != Axis::Z,
        gradient3_of(hash).first.axis != gradient3_of(hash).second.axis,
{
}

} // verus!
