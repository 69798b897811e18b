//! What the gradient-noise samplers share: the fade curve, linear
//! interpolation, the dot product with a gradient, and the normalised sum
//! over octaves.

use vstd::prelude::*;
use crate::gradient::{Axis, Gradient, SignedAxis};
use crate::reals::{Arithmetic, Reals};

verus! {

/// The fade curve `6t^5 - 15t^4 + 10t^3`, in the form
/// `t * t * t * (t * (t * 6 - 15) + 10)`.
pub open spec fn fade_of<T>(ar: Arithmetic<T>, t: T) -> T {
    (ar.times)(
        (ar.times)((ar.times)(t, t), t),
        (ar.plus)(
            (ar.times)(t, (ar.minus)((ar.times)(t, (ar.whole)(6)), (ar.whole)(15))),
            (ar.whole)(10),
        ),
    )
}

/// The point a share `t` of the way from `a` to `b`: `a + t * (b - a)`.
pub open spec fn lerp_of<T>(ar: Arithmetic<T>, a: T, b: T, t: T) -> T {
    (ar.plus)(a, (ar.times)(t, (ar.minus)(b, a)))
}

/// The coordinate of `(x, y, z)` along an axis.
pub open spec fn along<T>(axis: Axis, x: T, y: T, z: T) -> T {
    match axis {
        Axis::X => x,
        Axis::Y => y,
        Axis::Z => z,
    }
}

/// One signed coordinate of `(x, y, z)`.
pub open spec fn signed_of<T>(ar: Arithmetic<T>, term: SignedAxis, x: T, y: T, z: T) -> T {
    if term.negate {
        (ar.times)(along(term.axis, x, y, z), (ar.whole)(-1i32))
    } else {
        along(term.axis, x, y, z)
    }
}

/// The dot product of a gradient with the offset `(x, y, z)`: the sum of
/// its two signed coordinates.
pub open spec fn grad_of<T>(ar: Arithmetic<T>, g: Gradient, x: T, y: T, z: T) -> T {
    (ar.plus)(signed_of(ar, g.first, x, y, z), signed_of(ar, g.second, x, y, z))
}

/// The dot product of a gradient of the plane with the offset `(x, y)`.
/// Such a gradient names no third axis, so whatever stands for the third
/// coordinate is never picked.
pub open spec fn grad2_of<T>(ar: Arithmetic<T>, g: Gradient, x: T, y: T) -> T {
    grad_of(ar, g, x, y, y)
}

/// Evaluates the fade curve.
pub fn fade<T: Copy, K: Reals<T>>(kit: &K, t: T) -> (r: T)
    requires
        kit.wf(),
    ensures
        r == fade_of(kit.model(), t),
{
    let cube = kit.times(kit.times(t, t), t);
    let six = kit.whole(6);
    let fifteen = kit.whole(15);
    let ten = kit.whole(10);
    let inner = kit.minus(kit.times(t, six), fifteen);
    kit.times(cube, kit.plus(kit.times(t, inner), ten))
}

/// Interpolates from `a` to `b`.
pub fn lerp<T: Copy, K: Reals<T>>(kit: &K, a: T, b: T, t: T) -> (r: T)
    requires
        kit.wf(),
    ensures
        r == lerp_of(kit.model(), a, b, t),
{
    kit.plus(a, kit.times(t, kit.minus(b, a)))
}

fn signed<T: Copy, K: Reals<T>>(kit: &K, term: SignedAxis, x: T, y: T, z: T) -> (r: T)
    requires
        kit.wf(),
    ensures
        r == signed_of(kit.model(), term, x, y, z),
{
    let value = match term.axis {
        Axis::X => x,
        Axis::Y => y,
        Axis::Z => z,
    };
    if term.negate {
        kit.times(value, kit.whole(-1))
    } else {
        value
    }
}

/// Takes the dot product of a gradient with an offset.
pub fn grad<T: Copy, K: Reals<T>>(kit: &K, g: Gradient, x: T, y: T, z: T) -> (r: T)
    requires
        kit.wf(),
    ensures
        r == grad_of(kit.model(), g, x, y, z),
{
    kit.plus(signed(kit, g.first, x, y, z), signed(kit, g.second, x, y, z))
}

/// Takes the dot product of a gradient of the plane with an offset.
pub fn grad2<T: Copy, K: Reals<T>>(kit: &K, g: Gradient, x: T, y: T) -> (r: T)
    requires
        kit.wf(),
    ensures
        r == grad2_of(kit.model(), g, x, y),
{
    grad(kit, g, x, y, y)
}

/// Where a sum over octaves stands.
pub struct Octaves<T> {
    /// The sum of the octaves so far, each times its amplitude.
    pub total: T,
    /// The sum of the amplitudes so far.
    pub reach: T,
    /// The amplitude of the next octave.
    pub amplitude: T,
    /// The frequency of the next octave.
    pub frequency: T,
}

/// The sum after `k` octaves of `raw`, which gives one octave's value at a
/// frequency. The first octave has amplitude one and the sampler's
/// frequency; each further octave has `persistence` times the amplitude
/// and twice the frequency of the one before.
pub open spec fn octaves_of<T>(
    ar: Arithmetic<T>,
    raw: spec_fn(T) -> T,
    frequency: T,
    persistence: T,
    k: nat,
) -> Octaves<T>
    decreases k,
{
    if k == 0 {
        Octaves { total: (ar.whole)(0), reach: (ar.whole)(0), amplitude: (ar.whole)(1), frequency }
    } else {
        let so_far = octaves_of(ar, raw, frequency, persistence, (k - 1) as nat);
        Octaves {
            total: (ar.plus)(so_far.total, (ar.times)(raw(so_far.frequency), so_far.amplitude)),
            reach: (ar.plus)(so_far.reach, so_far.amplitude),
            amplitude: (ar.times)(so_far.amplitude, persistence),
            frequency: (ar.times)(so_far.frequency, (ar.whole)(2)),
        }
    }
}

/// The normalised sum over `octaves` octaves: the total over the sum of
/// the amplitudes.
pub open spec fn fractal_sum_of<T>(
    ar: Arithmetic<T>,
    raw: spec_fn(T) -> T,
    frequency: T,
    persistence: T,
    octaves: nat,
) -> T {
    let sum = octaves_of(ar, raw, frequency, persistence, octaves);
    (ar.over)(sum.total, sum.reach)
}

/// The start of a sum over octaves.
pub fn first_octave<T: Copy, K: Reals<T>>(kit: &K, frequency: T) -> (r: Octaves<T>)
    requires
        kit.wf(),
    ensures
        forall|raw: spec_fn(T) -> T, persistence: T|
            r == #[trigger] octaves_of(kit.model(), raw, frequency, persistence, 0),
{
    Octaves { total: kit.whole(0), reach: kit.whole(0), amplitude: kit.whole(1), frequency }
}

/// Adds one octave whose value at the sum's frequency is `value`.
pub fn next_octave<T: Copy, K: Reals<T>>(
    kit: &K,
    so_far: Octaves<T>,
    value: T,
    persistence: T,
) -> (r: Octaves<T>)
    requires
        kit.wf(),
    ensures
        r == (Octaves {
            total: (kit.model().plus)(so_far.total, (kit.model().times)(value, so_far.amplitude)),
            reach: (kit.model().plus)(so_far.reach, so_far.amplitude),
            amplitude: (kit.model().times)(so_far.amplitude, persistence),
            frequency: (kit.model().times)(so_far.frequency, (kit.model().whole)(2)),
        }),
{
    Octaves {
        total: kit.plus(so_far.total, kit.times(value, so_far.amplitude)),
        reach: kit.plus(so_far.reach, so_far.amplitude),
        amplitude: kit.times(so_far.amplitude, persistence),
        frequency: kit.times(so_far.frequency, kit.whole(2)),
    }
}

} // verus!
