use vstd::prelude::*;

verus! {

/// The numeric operations the network needs from its scalar type.
///
/// Each operation is tied to a spec function of the same meaning; the
/// engine's contracts state its results over these spec functions.
pub trait Scalar: Copy + Sized {
    /// The additive identity.
    spec fn zero_spec() -> Self;

    /// The multiplicative identity.
    spec fn one_spec() -> Self;

    spec fn plus_spec(self, other: Self) -> Self;

    spec fn minus_spec(self, other: Self) -> Self;

    spec fn times_spec(self, other: Self) -> Self;

    /// The logistic function `1 / (1 + e^(-x))`.
    spec fn sigmoid_spec(self) -> Self;

    /// `self` is strictly greater than `other`.
    spec fn gt_spec(self, other: Self) -> bool;

    fn zero() -> (r: Self)
        ensures
            r == Self::zero_spec(),
    ;

    fn one() -> (r: Self)
        ensures
            r == Self::one_spec(),
    ;

    fn plus(self, other: Self) -> (r: Self)
        ensures
            r == self.plus_spec(other),
    ;

    fn minus(self, other: Self) -> (r: Self)
        ensures
            r == self.minus_spec(other),
    ;

    fn times(self, other: Self) -> (r: Self)
        ensures
            r == self.times_spec(other),
    ;

    fn sigmoid(self) -> (r: Self)
        ensures
            r == self.sigmoid_spec(),
    ;

    fn greater_than(self, other: Self) -> (r: bool)
        ensures
            r == self.gt_spec(other),
    ;
}

/// The derivative of the logistic function, in terms of the function
/// itself: `s * (1 - s)` with `s = sigmoid(x)`.
pub open spec fn sigmoid_prime_spec<T: Scalar>(x: T) -> T {
    x.sigmoid_spec().times_spec(T::one_spec().minus_spec(x.sigmoid_spec()))
}

/// `sigmoid(x) * (1 - sigmoid(x))`.
pub fn sigmoid_prime<T: Scalar>(x: T) -> (r: T)
    ensures
        r == sigmoid_prime_spec(x),
{
    let s = x.sigmoid();
    s.times(T::one().minus(s))
}

/// A source of initial parameter values (for instance, uniform draws from `[-1, 1)`).
pub trait ParamSource<T> {
    fn draw(&mut self) -> T;
}

} // verus!
