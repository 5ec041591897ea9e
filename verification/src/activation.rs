//! The activations that a network can apply to its neurons, each with its
//! derivative.

use vstd::prelude::*;
use crate::scalar::{
    Scalar, difference, exponential, infinite, is_exact, negation, one, product, quotient, sum, zero,
};

verus! {

/// The logistic function `1 / (1 + e^-x)`, taken as zero where `e^-x` is
/// infinite.
pub open spec fn sigmoid_value<T: Scalar>(x: T) -> T {
    if infinite(exponential(negation(x))) {
        zero::<T>()
    } else {
        quotient(one::<T>(), sum(one::<T>(), exponential(negation(x))))
    }
}

/// The derivative of the logistic function: `s * (1 - s)` for `s` the value
/// of the function.
pub open spec fn sigmoid_slope<T: Scalar>(x: T) -> T {
    product(sigmoid_value(x), difference(one::<T>(), sigmoid_value(x)))
}

/// `x` times the logistic function of `x`.
pub open spec fn swish_value<T: Scalar>(x: T) -> T {
    product(x, sigmoid_value(x))
}

/// The derivative of `swish_value`, by the product rule.
pub open spec fn swish_slope<T: Scalar>(x: T) -> T {
    sum(sigmoid_value(x), product(x, sigmoid_slope(x)))
}

/// The logistic function. Where `e^-x` is too large to be a finite number,
/// the result is zero, with no division attempted.
#[inline]
pub fn sigmoid<T: Scalar>(x: T) -> (r: T)
    requires
        is_exact::<T>(),
    ensures
        r == sigmoid_value(x),
{
    let y = x.negated().exp();
    if y.is_infinite() {
        T::zero()
    } else {
        T::one().over(T::one().plus(x.negated().exp()))
    }
}

/// The derivative of the logistic function.
#[inline]
pub fn sigmoid_derivative<T: Scalar>(x: T) -> (r: T)
    requires
        is_exact::<T>(),
    ensures
        r == sigmoid_slope(x),
{
    sigmoid(x).times(T::one().minus(sigmoid(x)))
}

/// `x` times the logistic function of `x`.
#[inline]
pub fn swish<T: Scalar>(x: T) -> (r: T)
    requires
        is_exact::<T>(),
    ensures
        r == swish_value(x),
{
    x.times(sigmoid(x))
}

/// The derivative of `swish`.
#[inline]
pub fn swish_derivative<T: Scalar>(x: T) -> (r: T)
    requires
        is_exact::<T>(),
    ensures
        r == swish_slope(x),
{
    sigmoid(x).plus(x.times(sigmoid_derivative(x)))
}

} // verus!
