//! The number type that the algebra and the network compute with.
//!
//! The library never looks inside a number. It asks the type for a handful of
//! operations and states every result over the values those operations give.

use vstd::prelude::*;

verus! {

/// The arithmetic that the library needs from its numbers.
///
/// Nothing is promised of an implementation here. The contracts of the
/// library hold for the types whose operations are functions of their
/// arguments, which is what [`is_exact`] says.
pub trait Scalar: Copy {
    /// The additive identity.
    fn zero() -> Self;

    /// The multiplicative identity.
    fn one() -> Self;

    /// `self + rhs`.
    fn plus(self, rhs: Self) -> Self;

    /// `self - rhs`.
    fn minus(self, rhs: Self) -> Self;

    /// `self * rhs`.
    fn times(self, rhs: Self) -> Self;

    /// `self / rhs`.
    fn over(self, rhs: Self) -> Self;

    /// `-self`.
    fn negated(self) -> Self;

    /// `e` raised to the power `self`.
    fn exp(self) -> Self;

    /// Whether `self` is too large in magnitude to be a finite number.
    fn is_infinite(self) -> bool;
}

/// The value of `T::zero()`.
pub open spec fn zero<T: Scalar>() -> T {
    choose|r: T| call_ensures(T::zero, (), r)
}

/// The value of `T::one()`.
pub open spec fn one<T: Scalar>() -> T {
    choose|r: T| call_ensures(T::one, (), r)
}

/// The value of `a.plus(b)`.
pub open spec fn sum<T: Scalar>(a: T, b: T) -> T {
    choose|r: T| call_ensures(T::plus, (a, b), r)
}

/// The value of `a.minus(b)`.
pub open spec fn difference<T: Scalar>(a: T, b: T) -> T {
    choose|r: T| call_ensures(T::minus, (a, b), r)
}

/// The value of `a.times(b)`.
pub open spec fn product<T: Scalar>(a: T, b: T) -> T {
    choose|r: T| call_ensures(T::times, (a, b), r)
}

/// The value of `a.over(b)`.
pub open spec fn quotient<T: Scalar>(a: T, b: T) -> T {
    choose|r: T| call_ensures(T::over, (a, b), r)
}

/// The value of `a.negated()`.
pub open spec fn negation<T: Scalar>(a: T) -> T {
    choose|r: T| call_ensures(T::negated, (a,), r)
}

/// The value of `a.exp()`.
pub open spec fn exponential<T: Scalar>(a: T) -> T {
    choose|r: T| call_ensures(T::exp, (a,), r)
}

/// The value of `a.is_infinite()`.
pub open spec fn infinite<T: Scalar>(a: T) -> bool {
    choose|r: bool| call_ensures(T::is_infinite, (a,), r)
}

/// The number two, as `one + one`.
pub open spec fn two<T: Scalar>() -> T {
    sum(one::<T>(), one::<T>())
}

/// Every operation of `T` is a function of its arguments: whatever a call
/// returns is the one value that the matching spec function names.
pub open spec fn is_exact<T: Scalar>() -> bool {
    &&& forall|r: T| call_ensures(T::zero, (), r) ==> r == zero::<T>()
    &&& forall|r: T| call_ensures(T::one, (), r) ==> r == one::<T>()
    &&& forall|a: T, b: T, r: T| call_ensures(T::plus, (a, b), r) ==> r == sum(a, b)
    &&& forall|a: T, b: T, r: T| call_ensures(T::minus, (a, b), r) ==> r == difference(a, b)
    &&& forall|a: T, b: T, r: T| call_ensures(T::times, (a, b), r) ==> r == product(a, b)
    &&& forall|a: T, b: T, r: T| call_ensures(T::over, (a, b), r) ==> r == quotient(a, b)
    &&& forall|a: T, r: T| call_ensures(T::negated, (a,), r) ==> r == negation(a)
    &&& forall|a: T, r: T| call_ensures(T::exp, (a,), r) ==> r == exponential(a)
    &&& forall|a: T, r: bool| call_ensures(T::is_infinite, (a,), r) ==> r == infinite(a)
}

/// Computes the number two.
pub fn two_of<T: Scalar>() -> (r: T)
    requires
        is_exact::<T>(),
    ensures
        r == two::<T>(),
{
    let unit = T::one();
    unit.plus(unit)
}

} // verus!
