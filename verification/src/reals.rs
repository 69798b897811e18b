//! Arithmetic that the caller supplies. The heights of a terrain are real
//! numbers of whatever type the caller computes with; the algorithms of
//! this crate take the operations they need from a kit and say what they
//! compute in terms of the functions that the kit's operations are. All
//! that is asked of an operation is that it be a function: that it take
//! any arguments and return the same result for the same arguments.

use vstd::prelude::*;

verus! {

/// What `f` returns for `a`.
pub open spec fn result1<A, R, F: Fn(A) -> R>(f: F, a: A) -> R {
    choose|r: R| call_ensures(f, (a,), r)
}

/// What `f` returns for `a` and `b`.
pub open spec fn result2<A, B, R, F: Fn(A, B) -> R>(f: F, a: A, b: B) -> R {
    choose|r: R| call_ensures(f, (a, b), r)
}

/// `f` takes any argument and its result depends on the argument alone.
pub open spec fn is_function1<A, R, F: Fn(A) -> R>(f: F) -> bool {
    &&& forall|a: A| #[trigger] call_requires(f, (a,))
    &&& forall|a: A, r: R| #[trigger] call_ensures(f, (a,), r) ==> r == result1(f, a)
}

/// `f` takes any arguments and its result depends on the arguments alone.
pub open spec fn is_function2<A, B, R, F: Fn(A, B) -> R>(f: F) -> bool {
    &&& forall|a: A, b: B| #[trigger] call_requires(f, (a, b))
    &&& forall|a: A, b: B, r: R| #[trigger] call_ensures(f, (a, b), r) ==> r == result2(f, a, b)
}

/// An operation whose contract pins its result is a function: if `f` takes
/// any argument and whatever it returns for `a` is `model(a)`, then `f` is
/// a function, and it is `model` wherever it returns at all.
pub proof fn lemma_function1<A, R, F: Fn(A) -> R>(f: F, model: spec_fn(A) -> R)
    requires
        forall|a: A| #[trigger] call_requires(f, (a,)),
        forall|a: A, r: R| #[trigger] call_ensures(f, (a,), r) ==> r == model(a),
    ensures
        is_function1(f),
        forall|a: A, r: R| #[trigger] call_ensures(f, (a,), r) ==> result1(f, a) == model(a),
{
    assert forall|a: A, r: R| #[trigger] call_ensures(f, (a,), r) implies r == result1(f, a)
        && result1(f, a) == model(a) by {
        let c = choose|c: R| call_ensures(f, (a,), c);
        assert(call_ensures(f, (a,), c));
    }
}

/// An operation of two arguments whose contract pins its result is a
/// function, and it is `model` wherever it returns at all.
pub proof fn lemma_function2<A, B, R, F: Fn(A, B) -> R>(f: F, model: spec_fn(A, B) -> R)
    requires
        forall|a: A, b: B| #[trigger] call_requires(f, (a, b)),
        forall|a: A, b: B, r: R| #[trigger] call_ensures(f, (a, b), r) ==> r == model(a, b),
    ensures
        is_function2(f),
        forall|a: A, b: B, r: R| #[trigger]
            call_ensures(f, (a, b), r) ==> result2(f, a, b) == model(a, b),
{
    assert forall|a: A, b: B, r: R| #[trigger] call_ensures(f, (a, b), r) implies r == result2(
        f,
        a,
        b,
    ) && result2(f, a, b) == model(a, b) by {
        let c = choose|c: R| call_ensures(f, (a, b), c);
        assert(call_ensures(f, (a, b), c));
    }
}

/// The arithmetic of a kind of real number, as mathematical functions.
#[verifier::reject_recursive_types(T)]
pub struct Arithmetic<T> {
    /// The square root of three.
    pub sqrt3: T,
    /// The greatest finite real.
    pub highest: T,
    /// The least finite real.
    pub lowest: T,
    /// A whole number as a real.
    pub whole: spec_fn(i32) -> T,
    /// A count as a real.
    pub count: spec_fn(u64) -> T,
    /// The largest whole real that is not above the argument.
    pub floor: spec_fn(T) -> T,
    /// A real as a whole number of 32 bits, for a lattice coordinate.
    pub cell: spec_fn(T) -> i32,
    /// A real as a whole number of 8 bits, for a colour channel.
    pub byte: spec_fn(T) -> u8,
    /// Sum.
    pub plus: spec_fn(T, T) -> T,
    /// Difference.
    pub minus: spec_fn(T, T) -> T,
    /// Product.
    pub times: spec_fn(T, T) -> T,
    /// Quotient.
    pub over: spec_fn(T, T) -> T,
    /// Whether the first real is strictly above the second.
    pub exceeds: spec_fn(T, T) -> bool,
    /// The lesser of two reals.
    pub lower: spec_fn(T, T) -> T,
    /// The greater of two reals.
    pub upper: spec_fn(T, T) -> T,
    /// The first real raised to the second.
    pub power: spec_fn(T, T) -> T,
}

/// A kit of arithmetic. Every operation is a function: it takes any
/// arguments, and what it returns depends on them alone.
pub trait Reals<T> {
    /// The operations of the kit are functions.
    spec fn wf(&self) -> bool;

    /// The functions that the kit's operations are.
    spec fn model(&self) -> Arithmetic<T>;

    /// The square root of three.
    fn sqrt3(&self) -> (r: T)
        requires
            self.wf(),
        ensures
            r == self.model().sqrt3,
    ;

    /// The greatest finite real.
    fn highest(&self) -> (r: T)
        requires
            self.wf(),
        ensures
            r == self.model().highest,
    ;

    /// The least finite real.
    fn lowest(&self) -> (r: T)
        requires
            self.wf(),
        ensures
            r == self.model().lowest,
    ;

    /// A whole number as a real.
    fn whole(&self, a: i32) -> (r: T)
        requires
            self.wf(),
        ensures
            r == (self.model().whole)(a),
    ;

    /// A count as a real.
    fn count(&self, a: u64) -> (r: T)
        requires
            self.wf(),
        ensures
            r == (self.model().count)(a),
    ;

    /// The largest whole real that is not above the argument.
    fn floor(&self, a: T) -> (r: T)
        requires
            self.wf(),
        ensures
            r == (self.model().floor)(a),
    ;

    /// A real as a whole number of 32 bits, for a lattice coordinate.
    fn cell(&self, a: T) -> (r: i32)
        requires
            self.wf(),
        ensures
            r == (self.model().cell)(a),
    ;

    /// A real as a whole number of 8 bits, for a colour channel.
    fn byte(&self, a: T) -> (r: u8)
        requires
            self.wf(),
        ensures
            r == (self.model().byte)(a),
    ;

    /// Sum.
    fn plus(&self, a: T, b: T) -> (r: T)
        requires
            self.wf(),
        ensures
            r == (self.model().plus)(a, b),
    ;

    /// Difference.
    fn minus(&self, a: T, b: T) -> (r: T)
        requires
            self.wf(),
        ensures
            r == (self.model().minus)(a, b),
    ;

    /// Product.
    fn times(&self, a: T, b: T) -> (r: T)
        requires
            self.wf(),
        ensures
            r == (self.model().times)(a, b),
    ;

    /// Quotient.
    fn over(&self, a: T, b: T) -> (r: T)
        requires
            self.wf(),
        ensures
            r == (self.model().over)(a, b),
    ;

    /// Whether the first real is strictly above the second.
    fn exceeds(&self, a: T, b: T) -> (r: bool)
        requires
            self.wf(),
        ensures
            r == (self.model().exceeds)(a, b),
    ;

    /// The lesser of two reals.
    fn lower(&self, a: T, b: T) -> (r: T)
        requires
            self.wf(),
        ensures
            r == (self.model().lower)(a, b),
    ;

    /// The greater of two reals.
    fn upper(&self, a: T, b: T) -> (r: T)
        requires
            self.wf(),
        ensures
            r == (self.model().upper)(a, b),
    ;

    /// The first real raised to the second.
    fn power(&self, a: T, b: T) -> (r: T)
        requires
            self.wf(),
        ensures
            r == (self.model().power)(a, b),
    ;
}

/// A kit made of the caller's own functions.
pub struct Operations<T, W, N, F, C, B, P, M, X, O, E, L, H, R> {
    /// The square root of three.
    pub sqrt3: T,
    /// The greatest finite real.
    pub highest: T,
    /// The least finite real.
    pub lowest: T,
    /// A whole number as a real.
    pub whole: W,
    /// A count as a real.
    pub count: N,
    /// The largest whole real that is not above the argument.
    pub floor: F,
    /// A real as a whole number of 32 bits, for a lattice coordinate.
    pub cell: C,
    /// A real as a whole number of 8 bits, for a colour channel.
    pub byte: B,
    /// Sum.
    pub plus: P,
    /// Difference.
    pub minus: M,
    /// Product.
    pub times: X,
    /// Quotient.
    pub over: O,
    /// Whether the first real is strictly above the second.
    pub exceeds: E,
    /// The lesser of two reals.
    pub lower: L,
    /// The greater of two reals.
    pub upper: H,
    /// The first real raised to the second.
    pub power: R,
}

impl<T: Copy, W, N, F, C, B, P, M, X, O, E, L, H, R> Reals<T> for Operations<
    T,
    W,
    N,
    F,
    C,
    B,
    P,
    M,
    X,
    O,
    E,
    L,
    H,
    R,
> where
    W: Fn(i32) -> T,
    N: Fn(u64) -> T,
    F: Fn(T) -> T,
    C: Fn(T) -> i32,
    B: Fn(T) -> u8,
    P: Fn(T, T) -> T,
    M: Fn(T, T) -> T,
    X: Fn(T, T) -> T,
    O: Fn(T, T) -> T,
    E: Fn(T, T) -> bool,
    L: Fn(T, T) -> T,
    H: Fn(T, T) -> T,
    R: Fn(T, T) -> T,
 {
    open spec fn wf(&self) -> bool {
        &&& is_function1(self.whole)
        &&& is_function1(self.count)
        &&& is_function1(self.floor)
        &&& is_function1(self.cell)
        &&& is_function1(self.byte)
        &&& is_function2(self.plus)
        &&& is_function2(self.minus)
        &&& is_function2(self.times)
        &&& is_function2(self.over)
        &&& is_function2(self.exceeds)
        &&& is_function2(self.lower)
        &&& is_function2(self.upper)
        &&& is_function2(self.power)
    }

    open spec fn model(&self) -> Arithmetic<T> {
        Arithmetic {
            sqrt3: self.sqrt3,
            highest: self.highest,
            lowest: self.lowest,
            whole: |a: i32| result1(self.whole, a),
            count: |a: u64| result1(self.count, a),
            floor: |a: T| result1(self.floor, a),
            cell: |a: T| result1(self.cell, a),
            byte: |a: T| result1(self.byte, a),
            plus: |a: T, b: T| result2(self.plus, a, b),
            minus: |a: T, b: T| result2(self.minus, a, b),
            times: |a: T, b: T| result2(self.times, a, b),
            over: |a: T, b: T| result2(self.over, a, b),
            exceeds: |a: T, b: T| result2(self.exceeds, a, b),
            lower: |a: T, b: T| result2(self.lower, a, b),
            upper: |a: T, b: T| result2(self.upper, a, b),
            power: |a: T, b: T| result2(self.power, a, b),
        }
    }

    fn sqrt3(&self) -> (r: T) {
        self.sqrt3
    }

    fn highest(&self) -> (r: T) {
        self.highest
    }

    fn lowest(&self) -> (r: T) {
        self.lowest
    }

    fn whole(&self, a: i32) -> (r: T) {
        (self.whole)(a)
    }

    fn count(&self, a: u64) -> (r: T) {
        (self.count)(a)
    }

    fn floor(&self, a: T) -> (r: T) {
        (self.floor)(a)
    }

    fn cell(&self, a: T) -> (r: i32) {
        (self.cell)(a)
    }

    fn byte(&self, a: T) -> (r: u8) {
        (self.byte)(a)
    }

    fn plus(&self, a: T, b: T) -> (r: T) {
        (self.plus)(a, b)
    }

    fn minus(&self, a: T, b: T) -> (r: T) {
        (self.minus)(a, b)
    }

    fn times(&self, a: T, b: T) -> (r: T) {
        (self.times)(a, b)
    }

    fn over(&self, a: T, b: T) -> (r: T) {
        (self.over)(a, b)
    }

    fn exceeds(&self, a: T, b: T) -> (r: bool) {
        (self.exceeds)(a, b)
    }

    fn lower(&self, a: T, b: T) -> (r: T) {
        (self.lower)(a, b)
    }

    fn upper(&self, a: T, b: T) -> (r: T) {
        (self.upper)(a, b)
    }

    fn power(&self, a: T, b: T) -> (r: T) {
        (self.power)(a, b)
    }
}

/// Operations that are functions, each of them, make up a kit.
pub proof fn lemma_operations_make_a_kit<T: Copy, W, N, F, C, B, P, M, X, O, E, L, H, R>(
    kit: Operations<T, W, N, F, C, B, P, M, X, O, E, L, H, R>,
) where
    W: Fn(i32) -> T,
    N: Fn(u64) -> T,
    F: Fn(T) -> T,
    C: Fn(T) -> i32,
    B: Fn(T) -> u8,
    P: Fn(T, T) -> T,
    M: Fn(T, T) -> T,
    X: Fn(T, T) -> T,
    O: Fn(T, T) -> T,
    E: Fn(T, T) -> bool,
    L: Fn(T, T) -> T,
    H: Fn(T, T) -> T,
    R: Fn(T, T) -> T,

    requires
        is_function1(kit.whole),
        is_function1(kit.count),
        is_function1(kit.floor),
        is_function1(kit.cell),
        is_function1(kit.byte),
        is_function2(kit.plus),
        is_function2(kit.minus),
        is_function2(kit.times),
        is_function2(kit.over),
        is_function2(kit.exceeds),
        is_function2(kit.lower),
        is_function2(kit.upper),
        is_function2(kit.power),
    ensures
        kit.wf(),
{
}

/// The quotient of two whole numbers. Constants that are fractions are
/// written so.
pub open spec fn ratio_of<T>(ar: Arithmetic<T>, num: i32, den: i32) -> T {
    (ar.over)((ar.whole)(num), (ar.whole)(den))
}

/// A random draw as a real between minus one and one: the draw over the
/// greatest draw, doubled, less one.
pub open spec fn unit_of<T>(ar: Arithmetic<T>, draw: u64) -> T {
    (ar.minus)(
        (ar.times)((ar.over)((ar.count)(draw), (ar.count)(u64::MAX)), (ar.whole)(2)),
        (ar.whole)(1),
    )
}

/// Computes the quotient of two whole numbers.
pub fn ratio<T: Copy, K: Reals<T>>(kit: &K, num: i32, den: i32) -> (r: T)
    requires
        kit.wf(),
    ensures
        r == ratio_of(kit.model(), num, den),
{
    kit.over(kit.whole(num), kit.whole(den))
}

/// Maps a random draw into the reals between minus one and one.
pub fn unit<T: Copy, K: Reals<T>>(kit: &K, draw: u64) -> (r: T)
    requires
        kit.wf(),
    ensures
        r == unit_of(kit.model(), draw),
{
    kit.minus(kit.times(kit.over(kit.count(draw), kit.count(u64::MAX)), kit.whole(2)), kit.whole(1))
}

} // verus!
